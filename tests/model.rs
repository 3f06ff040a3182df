use neural_net::model::{
    InferrableModel, ModelError, SerializableModel, TensorName, HIDDEN_SIZE, INPUT_SIZE, OUTPUT_SIZE,
};

fn draws(n: usize, seed: u32) -> Vec<u32> {
    // deterministic values in [-0.5, 0.5)
    (0..n)
        .map(|i| {
            let k = (i as u32).wrapping_mul(2654435761).wrapping_add(seed) % 1000;
            (k as f32 / 1000.0 - 0.5).to_bits()
        })
        .collect()
}

fn sample_model() -> InferrableModel {
    InferrableModel::new(draws(HIDDEN_SIZE * INPUT_SIZE, 1), draws(OUTPUT_SIZE * HIDDEN_SIZE, 2))
}

#[test]
fn new_model_has_network_shapes_and_zero_biases() {
    let w1 = draws(HIDDEN_SIZE * INPUT_SIZE, 7);
    let w2 = draws(OUTPUT_SIZE * HIDDEN_SIZE, 8);
    let m = InferrableModel::new(w1.clone(), w2.clone());
    assert_eq!((m.w1.rows, m.w1.cols), (128, 784));
    assert_eq!((m.b1.rows, m.b1.cols), (128, 1));
    assert_eq!((m.w2.rows, m.w2.cols), (10, 128));
    assert_eq!((m.b2.rows, m.b2.cols), (10, 1));
    assert_eq!(m.w1.data, w1);
    assert_eq!(m.w2.data, w2);
    assert!(m.b1.data.iter().all(|&b| b == 0));
    assert!(m.b2.data.iter().all(|&b| b == 0));
    assert_eq!(m.b1.data.len(), 128);
    assert_eq!(m.b2.data.len(), 10);
}

#[test]
fn bundle_round_trip_is_exact() {
    let m = sample_model();
    let bundle = m.to_serializable_model();
    assert_eq!(bundle.w1_shape, (128, 784));
    assert_eq!(bundle.b2_shape, (10, 1));
    let back = InferrableModel::from_serializable_model(&bundle).unwrap();
    assert_eq!(back.w1.data, m.w1.data);
    assert_eq!(back.b1.data, m.b1.data);
    assert_eq!(back.w2.data, m.w2.data);
    assert_eq!(back.b2.data, m.b2.data);
    assert_eq!((back.w2.rows, back.w2.cols), (10, 128));
}

fn bundle() -> SerializableModel {
    sample_model().to_serializable_model()
}

#[test]
fn bundle_with_short_tensor_is_a_shape_mismatch() {
    let mut b = bundle();
    b.w2.pop();
    match InferrableModel::from_serializable_model(&b) {
        Err(ModelError::ShapeMismatch(n)) => assert_eq!(n, TensorName::W2),
        other => panic!("unexpected {:?}", other.map(|_| ())),
    }
}

#[test]
fn bundle_with_foreign_shape_is_a_shape_mismatch() {
    let mut b = bundle();
    // consistent length, but not the network's shape
    b.b1_shape = (1, 128);
    match InferrableModel::from_serializable_model(&b) {
        Err(ModelError::ShapeMismatch(n)) => assert_eq!(n, TensorName::B1),
        other => panic!("unexpected {:?}", other.map(|_| ())),
    }
}

#[test]
fn first_mismatching_tensor_is_reported() {
    let mut b = bundle();
    b.b2.push(0);
    b.w1_shape = (784, 128);
    match InferrableModel::from_serializable_model(&b) {
        Err(ModelError::ShapeMismatch(n)) => assert_eq!(n, TensorName::W1),
        other => panic!("unexpected {:?}", other.map(|_| ())),
    }
}

#[test]
fn tensor_names_and_shapes() {
    assert_eq!(TensorName::W1.as_str(), "w1");
    assert_eq!(TensorName::B1.as_str(), "b1");
    assert_eq!(TensorName::W2.as_str(), "w2");
    assert_eq!(TensorName::B2.as_str(), "b2");
    assert_eq!(TensorName::W1.expected_shape(), (128, 784));
    assert_eq!(TensorName::B2.expected_shape(), (10, 1));
}
