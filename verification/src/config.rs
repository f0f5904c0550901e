//! Training-run configuration parsed from command-line words: program mode,
//! model path, worker-thread count, iteration and batch counts, and the
//! dataset paths.  The parser consumes the words after the program name and
//! either yields a full configuration or reports the first offending word.
use vstd::prelude::*;

verus! {

/// Whether training starts from a fresh network or continues a saved one.
#[derive(Clone, Copy, Debug, PartialEq, Eq, Structural)]
pub enum ProgramMode {
    Restart,
    Train,
}

/// Why a command line was rejected.
#[derive(Clone, Debug)]
pub enum ConfigError {
    /// A word is not a known flag.
    InvalidArg(String),
    /// A flag that needs a value stands last.
    MissingValue,
    /// A required flag never appeared; holds the flag's name.
    MissingRequired(String),
    /// A flag's value is malformed; holds the offending text.
    InvalidValue(String),
    /// The help flag was given; the caller prints usage instead of running.
    HelpRequested,
}

/// The specification-level image of a `ConfigError`.
pub enum ConfigFault {
    InvalidArg(Seq<char>),
    MissingValue,
    MissingRequired(Seq<char>),
    InvalidValue(Seq<char>),
    HelpRequested,
}

impl View for ConfigError {
    type V = ConfigFault;

    open spec fn view(&self) -> ConfigFault {
        match self {
            ConfigError::InvalidArg(x) => ConfigFault::InvalidArg(x@),
            ConfigError::MissingValue => ConfigFault::MissingValue,
            ConfigError::MissingRequired(x) => ConfigFault::MissingRequired(x@),
            ConfigError::InvalidValue(x) => ConfigFault::InvalidValue(x@),
            ConfigError::HelpRequested => ConfigFault::HelpRequested,
        }
    }
}

/// The text a `ConfigError` is reported with.
pub open spec fn message_spec(fault: ConfigFault) -> Seq<char> {
    match fault {
        ConfigFault::InvalidArg(x) => "invalid argument ("@ + x + ")"@,
        ConfigFault::MissingValue => "argument value missing"@,
        ConfigFault::MissingRequired(x) => "missing required argument ("@ + x + ")"@,
        ConfigFault::InvalidValue(x) => "invalid value ("@ + x + ")"@,
        ConfigFault::HelpRequested => "help requested"@,
    }
}

impl ConfigError {
    /// Renders the error as the text it is reported with.
    pub fn message(&self) -> (r: String)
        ensures
            r@ == message_spec(self@),
    {
        match self {
            ConfigError::InvalidArg(x) => {
                let mut s = String::from_str("invalid argument (");
                s.append(x.as_str());
                s.append(")");
                s
            },
            ConfigError::MissingValue => String::from_str("argument value missing"),
            ConfigError::MissingRequired(x) => {
                let mut s = String::from_str("missing required argument (");
                s.append(x.as_str());
                s.append(")");
                s
            },
            ConfigError::InvalidValue(x) => {
                let mut s = String::from_str("invalid value (");
                s.append(x.as_str());
                s.append(")");
                s
            },
            ConfigError::HelpRequested => String::from_str("help requested"),
        }
    }
}

/// A white-space character, as `str::trim` removes at either end.
pub open spec fn is_space_char(c: char) -> bool {
    ||| c == ' '
    ||| (9 <= c as u32 && c as u32 <= 13)
    ||| c as u32 == 0x85
    ||| c as u32 == 0xA0
    ||| c as u32 == 0x1680
    ||| (0x2000 <= c as u32 && c as u32 <= 0x200A)
    ||| c as u32 == 0x2028
    ||| c as u32 == 0x2029
    ||| c as u32 == 0x202F
    ||| c as u32 == 0x205F
    ||| c as u32 == 0x3000
}

/// An ASCII decimal digit.
pub open spec fn is_digit_char(c: char) -> bool {
    48 <= c as u32 && c as u32 <= 57
}

/// The value of an ASCII decimal digit.
pub open spec fn digit_of(c: char) -> int {
    c as u32 - 48
}

/// The text with its leading white space removed.
pub open spec fn ltrim_spec(s: Seq<char>) -> Seq<char>
    decreases s.len(),
{
    if s.len() > 0 && is_space_char(s[0]) {
        ltrim_spec(s.drop_first())
    } else {
        s
    }
}

/// The text with its trailing white space removed.
pub open spec fn rtrim_spec(s: Seq<char>) -> Seq<char>
    decreases s.len(),
{
    if s.len() > 0 && is_space_char(s[s.len() - 1]) {
        rtrim_spec(s.drop_last())
    } else {
        s
    }
}

/// The text with white space removed at both ends, as `str::trim` leaves it.
pub open spec fn trim_spec(s: Seq<char>) -> Seq<char> {
    rtrim_spec(ltrim_spec(s))
}

proof fn lemma_ltrim_at(s: Seq<char>, k: int)
    requires
        0 <= k <= s.len(),
        forall|j: int| 0 <= j < k ==> is_space_char(s[j]),
        k == s.len() || !is_space_char(s[k]),
    ensures
        ltrim_spec(s) == s.subrange(k, s.len() as int),
    decreases k,
{
    if k == 0 {
        assert(ltrim_spec(s) =~= s.subrange(0, s.len() as int));
    } else {
        assert(is_space_char(s[0]));
        lemma_ltrim_at(s.drop_first(), k - 1);
        assert(s.drop_first().subrange(k - 1, s.len() - 1) =~= s.subrange(k, s.len() as int));
    }
}

proof fn lemma_rtrim_at(s: Seq<char>, k: int)
    requires
        0 <= k <= s.len(),
        forall|j: int| k <= j < s.len() ==> is_space_char(s[j]),
        k == 0 || !is_space_char(s[k - 1]),
    ensures
        rtrim_spec(s) == s.subrange(0, k),
    decreases s.len(),
{
    if k == s.len() {
        assert(rtrim_spec(s) =~= s.subrange(0, k));
    } else {
        assert(is_space_char(s[s.len() - 1]));
        lemma_rtrim_at(s.drop_last(), k);
        assert(s.drop_last().subrange(0, k) =~= s.subrange(0, k));
    }
}

/// The text a number is rejected with when nothing but white space was given.
pub open spec fn empty_number_message() -> Seq<char> {
    "cannot parse integer from empty string"@
}

/// The text a number is rejected with on a character that is no digit.
pub open spec fn invalid_digit_message() -> Seq<char> {
    "invalid digit found in string"@
}

/// The text a number is rejected with when it exceeds the machine word.
pub open spec fn overflow_message() -> Seq<char> {
    "number too large to fit in target type"@
}

/// One left-to-right scan over the digits of `t` from position `i`, carrying
/// the value read so far: stops at the first non-digit, or as soon as the
/// value would exceed the machine word.
pub open spec fn scan_number(t: Seq<char>, i: int, v: int) -> Result<int, Seq<char>>
    decreases t.len() - i,
{
    if i < 0 || i >= t.len() {
        Ok(v)
    } else if !is_digit_char(t[i]) {
        Err(invalid_digit_message())
    } else if v * 10 + digit_of(t[i]) > usize::MAX {
        Err(overflow_message())
    } else {
        scan_number(t, i + 1, v * 10 + digit_of(t[i]))
    }
}

/// What parsing the text as a machine-word number yields: the text is
/// trimmed, one leading `+` is allowed, then digits; the error text names the
/// first fault the scan meets.
pub open spec fn number_value(s: Seq<char>) -> Result<int, Seq<char>> {
    let t = trim_spec(s);
    if t.len() == 0 {
        Err(empty_number_message())
    } else {
        let d = if t[0] == '+' {
            t.drop_first()
        } else {
            t
        };
        if d.len() == 0 {
            Err(invalid_digit_message())
        } else {
            scan_number(d, 0, 0)
        }
    }
}

/// Whether the character is white space, as `str::trim` sees it.
fn is_space(c: char) -> (r: bool)
    ensures
        r == is_space_char(c),
{
    let u = c as u32;
    u == 0x20 || (9 <= u && u <= 13) || u == 0x85 || u == 0xA0 || u == 0x1680 || (0x2000 <= u && u
        <= 0x200A) || u == 0x2028 || u == 0x2029 || u == 0x202F || u == 0x205F || u == 0x3000
}

/// Parses the text as a machine-word number, exactly as `number_value` says,
/// reporting the scan's fault text on failure.
fn parse_number(s: &String) -> (r: Result<usize, String>)
    ensures
        r is Ok <==> number_value(s@) is Ok,
        r matches Ok(v) ==> number_value(s@) == Ok::<int, Seq<char>>(v as int),
        r matches Err(m) ==> number_value(s@) matches Err(msg) && msg == m@,
{
    let st = s.as_str();
    let n = st.unicode_len();
    let mut cs: Vec<char> = Vec::new();
    let mut k: usize = 0;
    while k < n
        invariant
            k <= n,
            n == s@.len(),
            st@ == s@,
            cs@.len() == k,
            forall|j: int| 0 <= j < k ==> cs@[j] == s@[j],
        decreases n - k,
    {
        cs.push(st.get_char(k));
        k = k + 1;
    }
    assert(cs@ =~= s@);
    let mut start: usize = 0;
    while start < n && is_space(cs[start])
        invariant
            start <= n,
            n == s@.len(),
            cs@ == s@,
            forall|j: int| 0 <= j < start ==> is_space_char(s@[j]),
        decreases n - start,
    {
        start = start + 1;
    }
    let mut end: usize = n;
    while end > start && is_space(cs[end - 1])
        invariant
            start <= end <= n,
            n == s@.len(),
            cs@ == s@,
            forall|j: int| end <= j < n ==> is_space_char(s@[j]),
        decreases end,
    {
        end = end - 1;
    }
    let ghost t = trim_spec(s@);
    proof {
        lemma_ltrim_at(s@, start as int);
        lemma_rtrim_at(s@.subrange(start as int, n as int), end - start);
        assert(s@.subrange(start as int, n as int).subrange(0, end - start) =~= s@.subrange(
            start as int,
            end as int,
        ));
        assert(t == s@.subrange(start as int, end as int));
    }
    if end == start {
        return Err(String::from_str("cannot parse integer from empty string"));
    }
    let mut idx: usize = start;
    if cs[start] == '+' {
        idx = start + 1;
    }
    let ghost d = if t[0] == '+' {
        t.drop_first()
    } else {
        t
    };
    proof {
        assert(d =~= s@.subrange(idx as int, end as int));
    }
    if idx == end {
        return Err(String::from_str("invalid digit found in string"));
    }
    let mut v: usize = 0;
    let mut at: usize = idx;
    while at < end
        invariant
            idx <= at <= end,
            end <= n,
            n == s@.len(),
            cs@ == s@,
            end > idx,
            d == s@.subrange(idx as int, end as int),
            number_value(s@) == scan_number(d, at - idx, v as int),
        decreases end - at,
    {
        let c = cs[at];
        let u = c as u32;
        assert(d[at - idx] == c);
        if !(48 <= u && u <= 57) {
            return Err(String::from_str("invalid digit found in string"));
        }
        let dg = (u - 48) as usize;
        let limit = (usize::MAX - dg) / 10;
        proof {
            assert(digit_of(d[at - idx]) == dg);
            let x = (usize::MAX - dg) as int;
            let q = x / 10;
            assert(x == 10 * q + x % 10 && 0 <= x % 10 < 10) by (nonlinear_arith)
                requires
                    x >= 0,
                    q == x / 10,
            ;
            if v > limit {
                assert(10 * (v as int) >= 10 * (q + 1)) by (nonlinear_arith)
                    requires
                        v as int >= q + 1,
                ;
                assert(v as int * 10 + dg > usize::MAX);
            } else {
                assert(10 * (v as int) <= 10 * q) by (nonlinear_arith)
                    requires
                        v as int <= q,
                ;
                assert(v as int * 10 + dg <= usize::MAX);
            }
        }
        if v > limit {
            return Err(String::from_str("number too large to fit in target type"));
        }
        proof {
            assert(scan_number(d, at - idx, v as int) == scan_number(
                d,
                at - idx + 1,
                v as int * 10 + digit_of(d[at - idx]),
            ));
        }
        v = v * 10 + dg;
        at = at + 1;
    }
    Ok(v)
}

/// A full training-run configuration.
#[derive(Clone, Debug)]
pub struct Config {
    pub mode: ProgramMode,
    pub filename: String,
    pub threads: usize,
    pub iterations: usize,
    pub batch_size: usize,
    pub train_images: String,
    pub train_labels: String,
    pub test_images: String,
    pub test_labels: String,
}

/// The specification-level image of a `Config`.
pub struct ConfigView {
    pub mode: ProgramMode,
    pub filename: Seq<char>,
    pub threads: int,
    pub iterations: int,
    pub batch_size: int,
    pub train_images: Seq<char>,
    pub train_labels: Seq<char>,
    pub test_images: Seq<char>,
    pub test_labels: Seq<char>,
}

impl View for Config {
    type V = ConfigView;

    open spec fn view(&self) -> ConfigView {
        ConfigView {
            mode: self.mode,
            filename: self.filename@,
            threads: self.threads as int,
            iterations: self.iterations as int,
            batch_size: self.batch_size as int,
            train_images: self.train_images@,
            train_labels: self.train_labels@,
            test_images: self.test_images@,
            test_labels: self.test_labels@,
        }
    }
}

/// A configuration in the middle of parsing: flags not seen yet keep their
/// defaults, the optional ones are still unset.
pub struct ConfigDraft {
    pub mode: ProgramMode,
    pub filename: Seq<char>,
    pub threads: Option<int>,
    pub iterations: int,
    pub batch_size: int,
    pub train_images: Option<Seq<char>>,
    pub train_labels: Option<Seq<char>>,
    pub test_images: Option<Seq<char>>,
    pub test_labels: Option<Seq<char>>,
}

/// The draft a parse starts from: restart mode, model path `network.nn`,
/// 10 iterations, batches of 10000, everything else unset.
pub open spec fn initial_draft() -> ConfigDraft {
    ConfigDraft {
        mode: ProgramMode::Restart,
        filename: "network.nn"@,
        threads: None,
        iterations: 10,
        batch_size: 10000,
        train_images: None,
        train_labels: None,
        test_images: None,
        test_labels: None,
    }
}

/// What reading the value of a number flag at position `at` yields:
/// `MissingValue` when no word stands there, otherwise the word parsed as a
/// machine-word number, its fault text wrapped as `InvalidValue`.
pub open spec fn number_arg_spec(args: Seq<Seq<char>>, at: int) -> Result<int, ConfigFault> {
    if at >= args.len() {
        Err(ConfigFault::MissingValue)
    } else {
        match number_value(args[at]) {
            Ok(v) => Ok(v),
            Err(m) => Err(ConfigFault::InvalidValue(m)),
        }
    }
}

/// One step of the flag walk from word `i` on: each flag overwrites its field
/// of the draft and consumes its value word; the walk stops at the first
/// unknown flag, missing or malformed value, or help request.
pub open spec fn parse_from(args: Seq<Seq<char>>, i: int, acc: ConfigDraft) -> Result<
    ConfigDraft,
    ConfigFault,
>
    decreases args.len() - i,
{
    if i < 0 || i >= args.len() {
        Ok(acc)
    } else {
        let a = args[i];
        if a == "-M"@ || a == "--mode"@ {
            if i + 1 >= args.len() {
                Err(ConfigFault::MissingValue)
            } else if args[i + 1] == "restart"@ {
                parse_from(args, i + 2, ConfigDraft { mode: ProgramMode::Restart, ..acc })
            } else if args[i + 1] == "train"@ {
                parse_from(args, i + 2, ConfigDraft { mode: ProgramMode::Train, ..acc })
            } else {
                Err(ConfigFault::InvalidValue(args[i + 1]))
            }
        } else if a == "-o"@ || a == "--output"@ {
            if i + 1 >= args.len() {
                Err(ConfigFault::MissingValue)
            } else {
                parse_from(args, i + 2, ConfigDraft { filename: args[i + 1], ..acc })
            }
        } else if a == "--threads"@ {
            match number_arg_spec(args, i + 1) {
                Ok(v) => parse_from(args, i + 2, ConfigDraft { threads: Some(v), ..acc }),
                Err(f) => Err(f),
            }
        } else if a == "-I"@ || a == "--iter"@ {
            match number_arg_spec(args, i + 1) {
                Ok(v) => parse_from(args, i + 2, ConfigDraft { iterations: v, ..acc }),
                Err(f) => Err(f),
            }
        } else if a == "-b"@ || a == "--batch"@ {
            match number_arg_spec(args, i + 1) {
                Ok(v) => parse_from(args, i + 2, ConfigDraft { batch_size: v, ..acc }),
                Err(f) => Err(f),
            }
        } else if a == "-i"@ || a == "--images"@ {
            if i + 1 >= args.len() {
                Err(ConfigFault::MissingValue)
            } else {
                parse_from(args, i + 2, ConfigDraft { train_images: Some(args[i + 1]), ..acc })
            }
        } else if a == "-l"@ || a == "--labels"@ {
            if i + 1 >= args.len() {
                Err(ConfigFault::MissingValue)
            } else {
                parse_from(args, i + 2, ConfigDraft { train_labels: Some(args[i + 1]), ..acc })
            }
        } else if a == "-t"@ || a == "--test-images"@ {
            if i + 1 >= args.len() {
                Err(ConfigFault::MissingValue)
            } else {
                parse_from(args, i + 2, ConfigDraft { test_images: Some(args[i + 1]), ..acc })
            }
        } else if a == "-T"@ || a == "--test-labels"@ {
            if i + 1 >= args.len() {
                Err(ConfigFault::MissingValue)
            } else {
                parse_from(args, i + 2, ConfigDraft { test_labels: Some(args[i + 1]), ..acc })
            }
        } else if a == "-h"@ || a == "--help"@ {
            Err(ConfigFault::HelpRequested)
        } else {
            Err(ConfigFault::InvalidArg(a))
        }
    }
}

/// Settles a finished draft: the labels and images flags are required, in
/// that order of complaint; the test dataset defaults to the training one and
/// the thread count to the given default.
pub open spec fn finalize_draft(acc: ConfigDraft, default_threads: int) -> Result<
    ConfigView,
    ConfigFault,
> {
    if acc.train_labels is None {
        Err(ConfigFault::MissingRequired("--labels"@))
    } else if acc.train_images is None {
        Err(ConfigFault::MissingRequired("--images"@))
    } else {
        Ok(
            ConfigView {
                mode: acc.mode,
                filename: acc.filename,
                threads: match acc.threads {
                    Some(t) => t,
                    None => default_threads,
                },
                iterations: acc.iterations,
                batch_size: acc.batch_size,
                train_images: match acc.train_images {
                    Some(t) => t,
                    None => Seq::empty(),
                },
                train_labels: match acc.train_labels {
                    Some(t) => t,
                    None => Seq::empty(),
                },
                test_images: match acc.test_images {
                    Some(t) => t,
                    None => match acc.train_images {
                        Some(t) => t,
                        None => Seq::empty(),
                    },
                },
                test_labels: match acc.test_labels {
                    Some(t) => t,
                    None => match acc.train_labels {
                        Some(t) => t,
                        None => Seq::empty(),
                    },
                },
            },
        )
    }
}

/// What parsing a whole command line yields.
pub open spec fn parse_config(args: Seq<Seq<char>>, default_threads: int) -> Result<
    ConfigView,
    ConfigFault,
> {
    match parse_from(args, 0, initial_draft()) {
        Ok(acc) => finalize_draft(acc, default_threads),
        Err(f) => Err(f),
    }
}

/// The word at `threads` of an `Option<usize>`, as the draft records it.
pub open spec fn opt_count_view(o: Option<usize>) -> Option<int> {
    match o {
        Some(v) => Some(v as int),
        None => None,
    }
}

/// The text of an `Option<String>`, as the draft records it.
pub open spec fn opt_text_view(o: Option<String>) -> Option<Seq<char>> {
    match o {
        Some(s) => Some(s@),
        None => None,
    }
}

/// Whether the word equals the given flag text.
fn flag_is(arg: &String, flag: &str) -> (r: bool)
    ensures
        r == (arg@ == flag@),
{
    let f = String::from_str(flag);
    *arg == f
}

impl Config {
    /// Reads the value of a number flag: the word at `at`, parsed as a
    /// machine-word number, exactly as `number_arg_spec` says.
    pub fn number_arg(args: &Vec<String>, at: usize) -> (r: Result<usize, ConfigError>)
        ensures
            r is Ok <==> number_arg_spec(args.deep_view(), at as int) is Ok,
            r matches Ok(v) ==> number_arg_spec(args.deep_view(), at as int) == Ok::<
                int,
                ConfigFault,
            >(v as int),
            r matches Err(e) ==> number_arg_spec(args.deep_view(), at as int) == Err::<
                int,
                ConfigFault,
            >(e@),
    {
        if at >= args.len() {
            return Err(ConfigError::MissingValue);
        }
        let arg = &args[at];
        proof {
            assert(args.deep_view()[at as int] == arg@);
        }
        match parse_number(arg) {
            Ok(v) => Ok(v),
            Err(m) => Err(ConfigError::InvalidValue(m)),
        }
    }

    /// Parses the command-line words after the program name, exactly as
    /// `parse_config` says; `default_threads` is the worker count used when
    /// no threads flag was given.
    pub fn create(args: Vec<String>, default_threads: usize) -> (r: Result<Config, ConfigError>)
        ensures
            r matches Ok(c) ==> parse_config(args.deep_view(), default_threads as int) == Ok::<
                ConfigView,
                ConfigFault,
            >(c@),
            r matches Err(e) ==> parse_config(args.deep_view(), default_threads as int) == Err::<
                ConfigView,
                ConfigFault,
            >(e@),
    {
        let ghost argv = args.deep_view();
        let mut mode = ProgramMode::Restart;
        let mut filename = String::from_str("network.nn");
        let mut threads_opt: Option<usize> = None;
        let mut iterations: usize = 10;
        let mut batch_size: usize = 10000;
        let mut train_images: Option<String> = None;
        let mut train_labels: Option<String> = None;
        let mut test_images: Option<String> = None;
        let mut test_labels: Option<String> = None;
        let mut i: usize = 0;
        while i < args.len()
            invariant
                i <= args.len(),
                argv == args.deep_view(),
                parse_from(
                    argv,
                    i as int,
                    (ConfigDraft {
                        mode: mode,
                        filename: filename@,
                        threads: opt_count_view(threads_opt),
                        iterations: iterations as int,
                        batch_size: batch_size as int,
                        train_images: opt_text_view(train_images),
                        train_labels: opt_text_view(train_labels),
                        test_images: opt_text_view(test_images),
                        test_labels: opt_text_view(test_labels),
                    }),
                ) == parse_from(argv, 0, initial_draft()),
            decreases args.len() - i,
        {
            let arg = &args[i];
            proof {
                assert(argv[i as int] == arg@);
            }
            if flag_is(arg, "-M") || flag_is(arg, "--mode") {
                if i + 1 >= args.len() {
                    return Err(ConfigError::MissingValue);
                }
                let val = &args[i + 1];
                proof {
                    assert(argv[i + 1] == val@);
                }
                if flag_is(val, "restart") {
                    mode = ProgramMode::Restart;
                } else if flag_is(val, "train") {
                    mode = ProgramMode::Train;
                } else {
                    return Err(ConfigError::InvalidValue(val.clone()));
                }
                i = i + 2;
            } else if flag_is(arg, "-o") || flag_is(arg, "--output") {
                if i + 1 >= args.len() {
                    return Err(ConfigError::MissingValue);
                }
                filename = args[i + 1].clone();
                i = i + 2;
            } else if flag_is(arg, "--threads") {
                match Self::number_arg(&args, i + 1) {
                    Ok(v) => {
                        threads_opt = Some(v);
                        i = i + 2;
                    },
                    Err(e) => {
                        return Err(e);
                    },
                }
            } else if flag_is(arg, "-I") || flag_is(arg, "--iter") {
                match Self::number_arg(&args, i + 1) {
                    Ok(v) => {
                        iterations = v;
                        i = i + 2;
                    },
                    Err(e) => {
                        return Err(e);
                    },
                }
            } else if flag_is(arg, "-b") || flag_is(arg, "--batch") {
                match Self::number_arg(&args, i + 1) {
                    Ok(v) => {
                        batch_size = v;
                        i = i + 2;
                    },
                    Err(e) => {
                        return Err(e);
                    },
                }
            } else if flag_is(arg, "-i") || flag_is(arg, "--images") {
                if i + 1 >= args.len() {
                    return Err(ConfigError::MissingValue);
                }
                train_images = Some(args[i + 1].clone());
                i = i + 2;
            } else if flag_is(arg, "-l") || flag_is(arg, "--labels") {
                if i + 1 >= args.len() {
                    return Err(ConfigError::MissingValue);
                }
                train_labels = Some(args[i + 1].clone());
                i = i + 2;
            } else if flag_is(arg, "-t") || flag_is(arg, "--test-images") {
                if i + 1 >= args.len() {
                    return Err(ConfigError::MissingValue);
                }
                test_images = Some(args[i + 1].clone());
                i = i + 2;
            } else if flag_is(arg, "-T") || flag_is(arg, "--test-labels") {
                if i + 1 >= args.len() {
                    return Err(ConfigError::MissingValue);
                }
                test_labels = Some(args[i + 1].clone());
                i = i + 2;
            } else if flag_is(arg, "-h") || flag_is(arg, "--help") {
                return Err(ConfigError::HelpRequested);
            } else {
                return Err(ConfigError::InvalidArg(arg.clone()));
            }
        }
        let train_labels_val = match train_labels {
            Some(x) => x,
            None => {
                return Err(ConfigError::MissingRequired(String::from_str("--labels")));
            },
        };
        let train_images_val = match train_images {
            Some(x) => x,
            None => {
                return Err(ConfigError::MissingRequired(String::from_str("--images")));
            },
        };
        let test_images_val = match test_images {
            Some(x) => x,
            None => train_images_val.clone(),
        };
        let test_labels_val = match test_labels {
            Some(x) => x,
            None => train_labels_val.clone(),
        };
        let threads = match threads_opt {
            Some(t) => t,
            None => default_threads,
        };
        Ok(
            Config {
                mode,
                filename,
                threads,
                iterations,
                batch_size,
                train_images: train_images_val,
                train_labels: train_labels_val,
                test_images: test_images_val,
                test_labels: test_labels_val,
            },
        )
    }
}

} // verus!
