use neural_net::DefaultLayerSettings;
use neural_net::RpropDecision;
use neural_net::StoredLayerShape;
use neural_net::TransferFunction;
use neural_net::layer_shapes;
use neural_net::rprop_decide;
use neural_net::stored_model_consistent;

fn stored_layer(rows: usize, previous: usize) -> StoredLayerShape {
    StoredLayerShape {
        weight_row_lens: vec![previous + 1; rows],
        rate_row_lens: vec![previous + 1; rows],
        signs: vec![
            (0..previous + 1)
                .map(|j| [-1i8, 0, 1][j % 3])
                .collect::<Vec<i8>>();
            rows
        ],
    }
}

#[test]
fn a_stored_model_with_consistent_shapes_is_accepted() {
    let layers = vec![stored_layer(3, 4), stored_layer(2, 3), stored_layer(1, 2)];
    assert!(stored_model_consistent(4, &layers));
}

#[test]
fn a_stored_model_without_layers_is_rejected() {
    assert!(!stored_model_consistent(4, &Vec::new()));
}

#[test]
fn a_stored_model_with_a_broken_size_chain_is_rejected() {
    let layers = vec![stored_layer(3, 4), stored_layer(2, 4)];
    assert!(!stored_model_consistent(4, &layers));
}

#[test]
fn a_stored_model_with_a_ragged_rate_row_is_rejected() {
    let mut layers = vec![stored_layer(3, 4)];
    layers[0].rate_row_lens[1] = 4;
    assert!(!stored_model_consistent(4, &layers));
}

#[test]
fn a_stored_model_with_a_stray_sign_is_rejected() {
    let mut layers = vec![stored_layer(3, 4)];
    layers[0].signs[2][0] = 2;
    assert!(!stored_model_consistent(4, &layers));
    layers[0].signs[2][0] = -2;
    assert!(!stored_model_consistent(4, &layers));
}

#[test]
fn a_stored_model_with_missing_sign_rows_is_rejected() {
    let mut layers = vec![stored_layer(3, 4)];
    layers[0].signs.pop();
    assert!(!stored_model_consistent(4, &layers));
}

#[test]
fn shapes_chain_through_the_layers() {
    let layers = vec![
        DefaultLayerSettings {
            size: 3,
            transfer_function: TransferFunction::Tanh,
        },
        DefaultLayerSettings {
            size: 2,
            transfer_function: TransferFunction::Tanh,
        },
        DefaultLayerSettings {
            size: 1,
            transfer_function: TransferFunction::Sigmoid,
        },
    ];
    let shapes = layer_shapes(4, &layers);
    assert_eq!(shapes.len(), 3);
    assert_eq!((shapes[0].size, shapes[0].previous), (3, 4));
    assert_eq!((shapes[1].size, shapes[1].previous), (2, 3));
    assert_eq!((shapes[2].size, shapes[2].previous), (1, 2));
}

#[test]
fn shapes_of_a_single_layer_read_the_inputs() {
    let layers = vec![DefaultLayerSettings {
        size: 5,
        transfer_function: TransferFunction::Nothing,
    }];
    let shapes = layer_shapes(9, &layers);
    assert_eq!(shapes.len(), 1);
    assert_eq!((shapes[0].size, shapes[0].previous), (5, 9));
}

#[test]
fn agreement_speeds_up_and_keeps_the_sign() {
    assert_eq!(rprop_decide(1, 1), (RpropDecision::Agree, 1));
    assert_eq!(rprop_decide(-1, -1), (RpropDecision::Agree, -1));
}

#[test]
fn disagreement_brakes_and_clears_the_sign() {
    assert_eq!(rprop_decide(1, -1), (RpropDecision::Disagree, 0));
    assert_eq!(rprop_decide(-1, 1), (RpropDecision::Disagree, 0));
}

#[test]
fn a_zero_sign_steps_at_the_current_rate() {
    assert_eq!(rprop_decide(0, 1), (RpropDecision::Neutral, 0));
    assert_eq!(rprop_decide(0, -1), (RpropDecision::Neutral, 0));
    assert_eq!(rprop_decide(0, 0), (RpropDecision::Neutral, 0));
    assert_eq!(rprop_decide(1, 0), (RpropDecision::Neutral, 1));
    assert_eq!(rprop_decide(-1, 0), (RpropDecision::Neutral, -1));
}

#[test]
fn a_disagreement_is_never_followed_by_another() {
    for current in [-1i8, 0, 1] {
        for previous in [-1i8, 0, 1] {
            let (decision, next) = rprop_decide(current, previous);
            if decision == RpropDecision::Disagree {
                for later in [-1i8, 0, 1] {
                    let (following, _) = rprop_decide(later, next);
                    assert_ne!(following, RpropDecision::Disagree);
                }
            }
        }
    }
}
