use rice_nn::fixed::FX_ONE;
use rice_nn::nn::{argmax_vec, Gradients, MultiLayerNN, NnError, TrainingConfig};
use rice_nn::rng::SeededRng;

fn fx(x: f64) -> i64 {
    (x * FX_ONE as f64).round() as i64
}

fn config(input: usize, hidden: usize, output: usize) -> TrainingConfig {
    TrainingConfig {
        input_dim: input,
        hidden_dim: hidden,
        output_dim: output,
        learning_rate: fx(0.01),
        epochs: 100,
        init_scale: fx(0.1),
    }
}

#[test]
fn new_rejects_non_positive_configuration() {
    let mut c = config(4, 8, 3);
    c.input_dim = 0;
    assert_eq!(MultiLayerNN::new(&c, 1).unwrap_err(), NnError::InvalidConfiguration);
    let mut c = config(4, 8, 3);
    c.hidden_dim = 0;
    assert_eq!(MultiLayerNN::new(&c, 1).unwrap_err(), NnError::InvalidConfiguration);
    let mut c = config(4, 8, 3);
    c.output_dim = 0;
    assert_eq!(MultiLayerNN::new(&c, 1).unwrap_err(), NnError::InvalidConfiguration);
    let mut c = config(4, 8, 3);
    c.learning_rate = 0;
    assert_eq!(MultiLayerNN::new(&c, 1).unwrap_err(), NnError::InvalidConfiguration);
    let mut c = config(4, 8, 3);
    c.epochs = 0;
    assert_eq!(MultiLayerNN::new(&c, 1).unwrap_err(), NnError::InvalidConfiguration);
    let mut c = config(4, 8, 3);
    c.init_scale = -1;
    assert_eq!(MultiLayerNN::new(&c, 1).unwrap_err(), NnError::InvalidConfiguration);
}

#[test]
fn new_draws_weights_in_range_and_zero_biases() {
    let c = config(4, 8, 3);
    let nn = MultiLayerNN::new(&c, 123).unwrap();
    assert_eq!(nn.w1.len(), 4);
    for row in &nn.w1 {
        assert_eq!(row.len(), 8);
        for &w in row {
            assert!(0 <= w && w < c.init_scale);
        }
    }
    assert_eq!(nn.w2.len(), 8);
    for row in &nn.w2 {
        assert_eq!(row.len(), 3);
        for &w in row {
            assert!(0 <= w && w < c.init_scale);
        }
    }
    assert_eq!(nn.b1, vec![0i64; 8]);
    assert_eq!(nn.b2, vec![0i64; 3]);
    assert_eq!(nn.learning_rate, c.learning_rate);
}

#[test]
fn new_is_deterministic_in_the_seed() {
    let c = config(4, 8, 3);
    let a = MultiLayerNN::new(&c, 99).unwrap();
    let b = MultiLayerNN::new(&c, 99).unwrap();
    assert_eq!(a.w1, b.w1);
    assert_eq!(a.w2, b.w2);
    assert_eq!(a.b1, b.b1);
    assert_eq!(a.b2, b.b2);
}

#[test]
fn seeded_rng_is_deterministic_and_bounded() {
    let mut a = SeededRng::new(7);
    let mut b = SeededRng::new(7);
    for _ in 0..10 {
        assert_eq!(a.next_u64(), b.next_u64());
    }
    let mut c = SeededRng::new(7);
    for _ in 0..100 {
        let v = c.next_below(6554);
        assert!(0 <= v && v < 6554);
    }
}

#[test]
fn forward_has_output_dim_entries_all_non_negative() {
    let c = config(4, 6, 3);
    let nn = MultiLayerNN::new(&c, 5).unwrap();
    let input = vec![fx(0.9), fx(2.1), fx(0.6), fx(0.8)];
    let (h, o) = nn.forward(&input).unwrap();
    assert_eq!(h.len(), 6);
    assert_eq!(o.len(), 3);
    for &v in h.iter().chain(o.iter()) {
        assert!(v >= 0);
    }
}

#[test]
fn forward_of_zero_input_and_zero_parameters_is_zero() {
    let nn = MultiLayerNN {
        w1: vec![vec![0; 3]; 2],
        b1: vec![0; 3],
        w2: vec![vec![0; 2]; 3],
        b2: vec![0; 2],
        learning_rate: fx(0.01),
    };
    let (h, o) = nn.forward(&vec![0, 0]).unwrap();
    assert_eq!(h, vec![0, 0, 0]);
    assert_eq!(o, vec![0, 0]);
}

#[test]
fn forward_computes_the_affine_relu_chain_exactly() {
    // x . w1 + b1 = 0.5 + 0.25 = 0.75; h = 0.75;
    // h . w2 + b2 = 0.75 * 0.5 + 0.1 = 0.475.
    let nn = MultiLayerNN {
        w1: vec![vec![FX_ONE], vec![FX_ONE]],
        b1: vec![0],
        w2: vec![vec![fx(0.5)]],
        b2: vec![fx(0.1)],
        learning_rate: fx(0.01),
    };
    let (h, o) = nn.forward(&vec![fx(0.5), fx(0.25)]).unwrap();
    assert_eq!(h, vec![fx(0.75)]);
    assert_eq!(o, vec![fx(0.375) + fx(0.1)]);
}

#[test]
fn forward_applies_relu_at_the_output_layer() {
    // h . w2 + b2 is negative, so the output activation clamps to zero.
    let nn = MultiLayerNN {
        w1: vec![vec![FX_ONE], vec![FX_ONE]],
        b1: vec![0],
        w2: vec![vec![fx(0.5)]],
        b2: vec![fx(-0.9)],
        learning_rate: fx(0.01),
    };
    let (h, o) = nn.forward(&vec![fx(0.5), fx(0.25)]).unwrap();
    assert_eq!(h, vec![fx(0.75)]);
    assert_eq!(o, vec![0]);
}

#[test]
fn forward_rejects_a_mismatched_input_length() {
    let c = config(4, 8, 3);
    let nn = MultiLayerNN::new(&c, 11).unwrap();
    let short = vec![fx(0.1), fx(0.2), fx(0.3)];
    assert_eq!(nn.forward(&short).unwrap_err(), NnError::DimensionMismatch);
    let long = vec![fx(0.1), fx(0.2), fx(0.3), fx(0.4), fx(0.5)];
    assert_eq!(nn.forward(&long).unwrap_err(), NnError::DimensionMismatch);
}

#[test]
fn predict_returns_an_index_in_range() {
    let c = config(4, 8, 3);
    let nn = MultiLayerNN::new(&c, 17).unwrap();
    let input = vec![fx(0.9), fx(2.1), fx(0.6), fx(0.8)];
    let idx = nn.predict(&input).unwrap();
    assert!(idx < 3);
}

#[test]
fn predict_rejects_a_mismatched_input_length() {
    let c = config(4, 8, 3);
    let nn = MultiLayerNN::new(&c, 17).unwrap();
    assert_eq!(nn.predict(&vec![0, 0, 0]).unwrap_err(), NnError::DimensionMismatch);
}

#[test]
fn predict_breaks_ties_toward_the_highest_index() {
    // Forces the output activation to [0.5, 0.5]: the tie goes to class 1.
    let nn = MultiLayerNN {
        w1: vec![vec![FX_ONE]],
        b1: vec![0],
        w2: vec![vec![fx(0.5), fx(0.5)]],
        b2: vec![0, 0],
        learning_rate: fx(0.01),
    };
    let (_, o) = nn.forward(&vec![FX_ONE]).unwrap();
    assert_eq!(o, vec![fx(0.5), fx(0.5)]);
    assert_eq!(nn.predict(&vec![FX_ONE]).unwrap(), 1);
}

#[test]
fn argmax_takes_the_last_of_equal_maxima() {
    assert_eq!(argmax_vec(&vec![5, 7, 7, 3]), 2);
    assert_eq!(argmax_vec(&vec![9]), 0);
    assert_eq!(argmax_vec(&vec![1, 2, 3]), 2);
    assert_eq!(argmax_vec(&vec![3, 2, 1]), 0);
    assert_eq!(argmax_vec(&vec![-5, -5]), 1);
}

#[test]
fn gradients_reject_mismatched_lengths() {
    let c = config(2, 2, 2);
    let nn = MultiLayerNN::new(&c, 3).unwrap();
    let x = vec![fx(0.5), fx(0.5)];
    let (h, o) = nn.forward(&x).unwrap();
    let bad_target = vec![0];
    assert_eq!(
        nn.gradients(&x, &h, &o, &bad_target).unwrap_err(),
        NnError::DimensionMismatch
    );
    let bad_hidden = vec![0; 3];
    let target = vec![FX_ONE, 0];
    assert_eq!(
        nn.gradients(&x, &bad_hidden, &o, &target).unwrap_err(),
        NnError::DimensionMismatch
    );
}

#[test]
fn gradients_match_the_backpropagation_formulas() {
    // 1-1-2 network, unit first layer, learning rate 1.0:
    // x = [1.0]       -> h = [1.0], o = [0.5, 0.25];
    // target [0, 0]   -> output delta = o;
    // hidden error    = 0.5 * 0.5 + 0.25 * 0.25 = 0.3125;
    // with lr = 1.0 the deltas equal the unscaled products.
    let nn = MultiLayerNN {
        w1: vec![vec![FX_ONE]],
        b1: vec![0],
        w2: vec![vec![fx(0.5), fx(0.25)]],
        b2: vec![0, 0],
        learning_rate: FX_ONE,
    };
    let x = vec![FX_ONE];
    let (h, o) = nn.forward(&x).unwrap();
    assert_eq!(h, vec![FX_ONE]);
    assert_eq!(o, vec![fx(0.5), fx(0.25)]);
    let g = nn.gradients(&x, &h, &o, &vec![0, 0]).unwrap();
    assert_eq!(g.dw2, vec![vec![fx(0.5), fx(0.25)]]);
    assert_eq!(g.db2, vec![fx(0.5), fx(0.25)]);
    assert_eq!(g.dw1, vec![vec![fx(0.3125)]]);
    assert_eq!(g.db1, vec![fx(0.3125)]);
}

#[test]
fn one_gradient_step_lowers_the_squared_error() {
    // A 1-1-1 network with unit weights, input 1.0 and target 0.0:
    // the output starts at 1.0 and one update must bring it closer.
    let mut nn = MultiLayerNN {
        w1: vec![vec![FX_ONE]],
        b1: vec![0],
        w2: vec![vec![FX_ONE]],
        b2: vec![0],
        learning_rate: fx(0.01),
    };
    let x = vec![FX_ONE];
    let target = vec![0];

    let (h, o) = nn.forward(&x).unwrap();
    assert_eq!(o, vec![FX_ONE]);
    let before: i128 = o
        .iter()
        .zip(target.iter())
        .map(|(&a, &t)| ((a - t) as i128) * ((a - t) as i128))
        .sum();

    let g = nn.gradients(&x, &h, &o, &target).unwrap();
    nn.apply_delta(&g);

    let (_, o2) = nn.forward(&x).unwrap();
    let after: i128 = o2
        .iter()
        .zip(target.iter())
        .map(|(&a, &t)| ((a - t) as i128) * ((a - t) as i128))
        .sum();
    assert!(after < before, "squared error {} not below {}", after, before);
    assert!(after > 0);
}

#[test]
fn apply_delta_subtracts_element_wise() {
    let mut nn = MultiLayerNN {
        w1: vec![vec![100, 200], vec![300, 400]],
        b1: vec![10, 20],
        w2: vec![vec![500], vec![600]],
        b2: vec![30],
        learning_rate: fx(0.01),
    };
    let g = Gradients {
        dw1: vec![vec![1, 2], vec![3, 4]],
        db1: vec![5, 6],
        dw2: vec![vec![7], vec![8]],
        db2: vec![9],
    };
    nn.apply_delta(&g);
    assert_eq!(nn.w1, vec![vec![99, 198], vec![297, 396]]);
    assert_eq!(nn.b1, vec![5, 14]);
    assert_eq!(nn.w2, vec![vec![493], vec![592]]);
    assert_eq!(nn.b2, vec![21]);
}

#[test]
fn train_rejects_a_mismatched_dataset_and_leaves_parameters_unchanged() {
    let c = config(2, 3, 2);
    let mut nn = MultiLayerNN::new(&c, 21).unwrap();
    let w1_before = nn.w1.clone();
    let w2_before = nn.w2.clone();
    let inputs = vec![vec![fx(0.1), fx(0.2)], vec![fx(0.3)]];
    let targets = vec![vec![FX_ONE, 0], vec![0, FX_ONE]];
    assert_eq!(
        nn.train(&inputs, &targets, 3).unwrap_err(),
        NnError::DimensionMismatch
    );
    assert_eq!(nn.w1, w1_before);
    assert_eq!(nn.w2, w2_before);
    assert_eq!(nn.b1, vec![0; 3]);
    assert_eq!(nn.b2, vec![0; 2]);
}

#[test]
fn train_matches_manual_per_sample_steps() {
    let c = config(2, 3, 2);
    let mut trained = MultiLayerNN::new(&c, 31).unwrap();
    let mut manual = MultiLayerNN::new(&c, 31).unwrap();
    let inputs = vec![
        vec![fx(0.2), fx(0.4)],
        vec![fx(0.9), fx(0.7)],
        vec![fx(0.1), fx(0.3)],
    ];
    let targets = vec![
        vec![FX_ONE, 0],
        vec![0, FX_ONE],
        vec![FX_ONE, 0],
    ];
    trained.train(&inputs, &targets, 2).unwrap();
    for _ in 0..2 {
        for (x, t) in inputs.iter().zip(targets.iter()) {
            let (h, o) = manual.forward(x).unwrap();
            let g = manual.gradients(x, &h, &o, t).unwrap();
            manual.apply_delta(&g);
        }
    }
    assert_eq!(trained.w1, manual.w1);
    assert_eq!(trained.b1, manual.b1);
    assert_eq!(trained.w2, manual.w2);
    assert_eq!(trained.b2, manual.b2);
}

#[test]
fn training_twice_from_one_seed_is_bit_identical() {
    let c = TrainingConfig {
        input_dim: 2,
        hidden_dim: 4,
        output_dim: 2,
        learning_rate: fx(0.05),
        epochs: 50,
        init_scale: fx(0.1),
    };
    let inputs = vec![
        vec![fx(0.1), fx(0.2)],
        vec![fx(0.8), fx(0.9)],
        vec![fx(0.2), fx(0.1)],
        vec![fx(0.9), fx(0.8)],
    ];
    let targets = vec![
        vec![FX_ONE, 0],
        vec![0, FX_ONE],
        vec![FX_ONE, 0],
        vec![0, FX_ONE],
    ];
    let mut a = MultiLayerNN::new(&c, 2024).unwrap();
    let mut b = MultiLayerNN::new(&c, 2024).unwrap();
    a.train(&inputs, &targets, c.epochs).unwrap();
    b.train(&inputs, &targets, c.epochs).unwrap();
    assert_eq!(a.w1, b.w1);
    assert_eq!(a.b1, b.b1);
    assert_eq!(a.w2, b.w2);
    assert_eq!(a.b2, b.b2);
    assert_eq!(a.learning_rate, b.learning_rate);
}

#[test]
fn epoch_by_epoch_training_matches_the_full_run() {
    let c = config(2, 3, 2);
    let mut whole = MultiLayerNN::new(&c, 8).unwrap();
    let mut stepped = MultiLayerNN::new(&c, 8).unwrap();
    let inputs = vec![vec![fx(0.3), fx(0.6)], vec![fx(0.7), fx(0.2)]];
    let targets = vec![vec![FX_ONE, 0], vec![0, FX_ONE]];
    whole.train(&inputs, &targets, 5).unwrap();
    for _ in 0..5 {
        stepped.train_epoch(&inputs, &targets).unwrap();
    }
    assert_eq!(whole.w1, stepped.w1);
    assert_eq!(whole.b1, stepped.b1);
    assert_eq!(whole.w2, stepped.w2);
    assert_eq!(whole.b2, stepped.b2);
}
