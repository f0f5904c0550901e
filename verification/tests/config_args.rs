use neural_net::Config;
use neural_net::ConfigError;
use neural_net::ProgramMode;

fn words(args: &[&str]) -> Vec<String> {
    args.iter().map(|a| a.to_string()).collect()
}

#[test]
fn create_fills_defaults() {
    let config = Config::create(words(&["-l", "lab", "-i", "img"]), 6).unwrap();
    assert_eq!(config.mode, ProgramMode::Restart);
    assert_eq!(config.filename, "network.nn");
    assert_eq!(config.threads, 6);
    assert_eq!(config.iterations, 10);
    assert_eq!(config.batch_size, 10000);
    assert_eq!(config.train_labels, "lab");
    assert_eq!(config.train_images, "img");
    assert_eq!(config.test_labels, "lab");
    assert_eq!(config.test_images, "img");
}

#[test]
fn create_reads_every_flag() {
    let config = Config::create(
        words(&[
            "--mode",
            "train",
            "-o",
            "model.nn",
            "--threads",
            "4",
            "--iter",
            "250",
            "-b",
            "32",
            "--images",
            "ti",
            "--labels",
            "tl",
            "-t",
            "ei",
            "-T",
            "el",
        ]),
        8,
    )
    .unwrap();
    assert_eq!(config.mode, ProgramMode::Train);
    assert_eq!(config.filename, "model.nn");
    assert_eq!(config.threads, 4);
    assert_eq!(config.iterations, 250);
    assert_eq!(config.batch_size, 32);
    assert_eq!(config.train_images, "ti");
    assert_eq!(config.train_labels, "tl");
    assert_eq!(config.test_images, "ei");
    assert_eq!(config.test_labels, "el");
}

#[test]
fn create_last_flag_wins() {
    let config = Config::create(words(&["-o", "a.nn", "-l", "l", "-i", "i", "-o", "b.nn"]), 1)
        .unwrap();
    assert_eq!(config.filename, "b.nn");
}

#[test]
fn create_requires_labels_before_images() {
    let err = Config::create(words(&[]), 1).unwrap_err();
    assert!(matches!(&err, ConfigError::MissingRequired(x) if x == "--labels"));
    let err = Config::create(words(&["-l", "lab"]), 1).unwrap_err();
    assert!(matches!(&err, ConfigError::MissingRequired(x) if x == "--images"));
}

#[test]
fn create_rejects_unknown_flag() {
    let err = Config::create(words(&["--nonsense"]), 1).unwrap_err();
    assert!(matches!(&err, ConfigError::InvalidArg(x) if x == "--nonsense"));
}

#[test]
fn create_rejects_trailing_flag_without_value() {
    let err = Config::create(words(&["-l"]), 1).unwrap_err();
    assert!(matches!(err, ConfigError::MissingValue));
}

#[test]
fn create_rejects_bad_mode_value() {
    let err = Config::create(words(&["-M", "resume"]), 1).unwrap_err();
    assert!(matches!(&err, ConfigError::InvalidValue(x) if x == "resume"));
}

#[test]
fn create_reports_help() {
    let err = Config::create(words(&["-l", "lab", "-h"]), 1).unwrap_err();
    assert!(matches!(err, ConfigError::HelpRequested));
}

#[test]
fn number_arg_parses_and_trims() {
    assert_eq!(Config::number_arg(&words(&["42"]), 0).unwrap(), 42);
    assert_eq!(Config::number_arg(&words(&[" 17\t"]), 0).unwrap(), 17);
    assert_eq!(Config::number_arg(&words(&["+8"]), 0).unwrap(), 8);
    assert_eq!(Config::number_arg(&words(&["0"]), 0).unwrap(), 0);
}

#[test]
fn number_arg_reports_each_fault() {
    let err = Config::number_arg(&words(&["42"]), 1).unwrap_err();
    assert!(matches!(err, ConfigError::MissingValue));
    let err = Config::number_arg(&words(&["4x2"]), 0).unwrap_err();
    assert!(matches!(&err, ConfigError::InvalidValue(x) if x == "invalid digit found in string"));
    let err = Config::number_arg(&words(&["  "]), 0).unwrap_err();
    assert!(
        matches!(&err, ConfigError::InvalidValue(x) if x == "cannot parse integer from empty string")
    );
    let err = Config::number_arg(&words(&["+"]), 0).unwrap_err();
    assert!(matches!(&err, ConfigError::InvalidValue(x) if x == "invalid digit found in string"));
    let err = Config::number_arg(&words(&["99999999999999999999999999"]), 0).unwrap_err();
    assert!(
        matches!(&err, ConfigError::InvalidValue(x) if x == "number too large to fit in target type")
    );
}

#[test]
fn number_arg_agrees_with_std_parse() {
    for text in ["42", " 17\t", "+8", "0", "4x2", "", "  ", "+", "007", "18446744073709551615", "18446744073709551616"] {
        let ours = Config::number_arg(&words(&[text]), 0);
        let std_parse = text.trim().parse::<usize>();
        match (ours, std_parse) {
            (Ok(a), Ok(b)) => assert_eq!(a, b),
            (Err(ConfigError::InvalidValue(m)), Err(e)) => assert_eq!(m, format!("{e}")),
            (a, b) => panic!("disagree on {text:?}: {a:?} vs {b:?}"),
        }
    }
}

#[test]
fn messages_match_report_format() {
    assert_eq!(
        ConfigError::InvalidArg("--x".to_string()).message(),
        "invalid argument (--x)"
    );
    assert_eq!(ConfigError::MissingValue.message(), "argument value missing");
    assert_eq!(
        ConfigError::MissingRequired("--labels".to_string()).message(),
        "missing required argument (--labels)"
    );
    assert_eq!(
        ConfigError::InvalidValue("abc".to_string()).message(),
        "invalid value (abc)"
    );
}
