use neural_net::codec::{check_header, decode_tensor, save_safetensors};
use neural_net::model::{InferrableModel, ModelError, SerializableModel, TensorName};
use safetensors::tensor::TensorView;
use safetensors::Dtype;

fn small_values(n: usize, seed: u32) -> Vec<u32> {
    (0..n).map(|i| ((i as u32 % 97) as f32 * 0.01 - 0.3 + seed as f32 * 0.001).to_bits()).collect()
}

fn bundle() -> SerializableModel {
    InferrableModel::new(small_values(128 * 784, 1), small_values(10 * 128, 2)).to_serializable_model()
}

fn f32_bytes(values: &[f32]) -> Vec<u8> {
    values.iter().flat_map(|v| v.to_le_bytes()).collect()
}

#[test]
fn save_then_load_reproduces_every_bit() {
    let b = bundle();
    let bytes = save_safetensors(&b).unwrap();
    let back = SerializableModel::load_from_safetensors(&bytes).unwrap();
    assert_eq!(back.w1, b.w1);
    assert_eq!(back.w1_shape, (128, 784));
    assert_eq!(back.b1, b.b1);
    assert_eq!(back.b1_shape, (128, 1));
    assert_eq!(back.w2, b.w2);
    assert_eq!(back.w2_shape, (10, 128));
    assert_eq!(back.b2, b.b2);
    assert_eq!(back.b2_shape, (10, 1));
    let m = InferrableModel::from_serializable_model(&back).unwrap();
    assert_eq!(m.w2.data, b.w2);
}

#[test]
fn saved_file_is_a_tensor_file_with_f32_data() {
    let b = bundle();
    let bytes = save_safetensors(&b).unwrap();
    let st = safetensors::SafeTensors::deserialize(&bytes).unwrap();
    let w2 = st.tensor("w2").unwrap();
    assert_eq!(w2.dtype(), Dtype::F32);
    assert_eq!(w2.shape(), &[10, 128]);
    assert_eq!(w2.data().len(), 4 * 10 * 128);
    let first = f32::from_le_bytes([w2.data()[0], w2.data()[1], w2.data()[2], w2.data()[3]]);
    assert_eq!(first.to_bits(), b.w2[0]);
    assert_eq!(st.len(), 4);
}

#[test]
fn one_nan_is_reported_and_nothing_is_saved() {
    let mut b = bundle();
    b.w2[5] = f32::NAN.to_bits();
    match b.check_finite() {
        Err(ModelError::NonFiniteParameters(list)) => {
            assert_eq!(list.len(), 1);
            assert_eq!(list[0].name, TensorName::W2);
            assert_eq!(list[0].count, 1);
            assert_eq!(list[0].sample.len(), 10);
            assert_eq!(list[0].sample[5], f32::NAN.to_bits());
            assert_eq!(list[0].sample[0], b.w2[0]);
        }
        other => panic!("unexpected {:?}", other),
    }
    match save_safetensors(&b) {
        Err(ModelError::NonFiniteParameters(list)) => {
            assert_eq!(list.len(), 1);
            assert_eq!(list[0].count, 1);
        }
        other => panic!("unexpected {:?}", other.map(|v| v.len())),
    }
}

#[test]
fn non_finite_values_in_several_tensors() {
    let mut b = bundle();
    b.b2[0] = f32::INFINITY.to_bits();
    b.b2[9] = f32::NEG_INFINITY.to_bits();
    b.w1[0] = f32::NAN.to_bits();
    match b.check_finite() {
        Err(ModelError::NonFiniteParameters(list)) => {
            assert_eq!(list.len(), 2);
            assert_eq!((list[0].name, list[0].count), (TensorName::W1, 1));
            assert_eq!((list[1].name, list[1].count), (TensorName::B2, 2));
            assert_eq!(list[1].sample, b.b2);
        }
        other => panic!("unexpected {:?}", other),
    }
}

#[test]
fn finite_model_passes_the_check() {
    assert!(bundle().check_finite().is_ok());
}

#[test]
fn save_refuses_inconsistent_lengths() {
    let mut b = bundle();
    b.b1.pop();
    match save_safetensors(&b) {
        Err(ModelError::ShapeMismatch(n)) => assert_eq!(n, TensorName::B1),
        other => panic!("unexpected {:?}", other.map(|v| v.len())),
    }
}

#[test]
fn garbage_is_not_a_tensor_file() {
    match SerializableModel::load_from_safetensors(&[1, 2, 3]) {
        Err(ModelError::InvalidFormat) => {}
        other => panic!("unexpected {:?}", other.map(|_| ())),
    }
}

#[test]
fn missing_tensor_is_reported() {
    let w1 = f32_bytes(&[0.5; 6]);
    let b1 = f32_bytes(&[0.0; 2]);
    let w2 = f32_bytes(&[0.25; 2]);
    let tensors = vec![
        ("w1", TensorView::new(Dtype::F32, vec![2, 3], &w1).unwrap()),
        ("b1", TensorView::new(Dtype::F32, vec![2, 1], &b1).unwrap()),
        ("w2", TensorView::new(Dtype::F32, vec![1, 2], &w2).unwrap()),
    ];
    let bytes = safetensors::serialize(tensors, None).unwrap();
    match SerializableModel::load_from_safetensors(&bytes) {
        Err(ModelError::TensorNotFound(n)) => assert_eq!(n, TensorName::B2),
        other => panic!("unexpected {:?}", other.map(|_| ())),
    }
}

#[test]
fn loads_declared_shapes_as_they_are() {
    let w1 = f32_bytes(&[1.0, 2.0, 3.0, 4.0, 5.0, 6.0]);
    let b1 = f32_bytes(&[0.0; 2]);
    let w2 = f32_bytes(&[0.25; 2]);
    let b2 = f32_bytes(&[-1.0]);
    let tensors = vec![
        ("w1", TensorView::new(Dtype::F32, vec![2, 3], &w1).unwrap()),
        ("b1", TensorView::new(Dtype::F32, vec![2, 1], &b1).unwrap()),
        ("w2", TensorView::new(Dtype::F32, vec![1, 2], &w2).unwrap()),
        ("b2", TensorView::new(Dtype::F32, vec![1, 1], &b2).unwrap()),
    ];
    let bytes = safetensors::serialize(tensors, None).unwrap();
    let m = SerializableModel::load_from_safetensors(&bytes).unwrap();
    assert_eq!(m.w1_shape, (2, 3));
    assert_eq!(m.w1, vec![1.0f32.to_bits(), 2.0f32.to_bits(), 3.0f32.to_bits(), 4.0f32.to_bits(), 5.0f32.to_bits(), 6.0f32.to_bits()]);
    assert_eq!(m.b2, vec![(-1.0f32).to_bits()]);
    // a consistent file of another architecture is not this network
    match InferrableModel::from_serializable_model(&m) {
        Err(ModelError::ShapeMismatch(n)) => assert_eq!(n, TensorName::W1),
        other => panic!("unexpected {:?}", other.map(|_| ())),
    }
}

#[test]
fn non_f32_tensor_is_refused() {
    let w1 = vec![0u8; 6 * 4];
    let b1 = f32_bytes(&[0.0; 2]);
    let w2 = f32_bytes(&[0.25; 2]);
    let b2 = f32_bytes(&[-1.0]);
    let tensors = vec![
        ("w1", TensorView::new(Dtype::I32, vec![2, 3], &w1).unwrap()),
        ("b1", TensorView::new(Dtype::F32, vec![2, 1], &b1).unwrap()),
        ("w2", TensorView::new(Dtype::F32, vec![1, 2], &w2).unwrap()),
        ("b2", TensorView::new(Dtype::F32, vec![1, 1], &b2).unwrap()),
    ];
    let bytes = safetensors::serialize(tensors, None).unwrap();
    match SerializableModel::load_from_safetensors(&bytes) {
        Err(ModelError::WrongDtype(n)) => assert_eq!(n, TensorName::W1),
        other => panic!("unexpected {:?}", other.map(|_| ())),
    }
}

#[test]
fn decode_checks_dtype_rank_and_length() {
    let data = f32_bytes(&[1.0, 2.0]);
    let (v, s) = decode_tensor(TensorName::B1, true, &[2, 1], &data).unwrap();
    assert_eq!(v, vec![1.0f32.to_bits(), 2.0f32.to_bits()]);
    assert_eq!(s, (2, 1));
    assert!(matches!(decode_tensor(TensorName::B1, false, &[2, 1], &data), Err(ModelError::WrongDtype(TensorName::B1))));
    assert!(matches!(decode_tensor(TensorName::W2, true, &[2], &data), Err(ModelError::ShapeMismatch(TensorName::W2))));
    assert!(matches!(decode_tensor(TensorName::W2, true, &[3, 1], &data), Err(ModelError::ShapeMismatch(TensorName::W2))));
    assert!(matches!(decode_tensor(TensorName::W2, true, &[usize::MAX, 2], &data), Err(ModelError::ShapeMismatch(TensorName::W2))));
}

#[test]
fn header_with_a_long_digit_run_is_refused() {
    let w1 = f32_bytes(&[0.5; 6]);
    let odd = f32_bytes(&[1.0]);
    let tensors = vec![
        ("w1", TensorView::new(Dtype::F32, vec![2, 3], &w1).unwrap()),
        ("1234567890123456789", TensorView::new(Dtype::F32, vec![1, 1], &odd).unwrap()),
    ];
    let bytes = safetensors::serialize(tensors, None).unwrap();
    assert!(!check_header(&bytes));
    match SerializableModel::load_from_safetensors(&bytes) {
        Err(ModelError::InvalidFormat) => {}
        other => panic!("unexpected {:?}", other.map(|_| ())),
    }
    // eighteen digits are still accepted
    let tensors = vec![("123456789012345678", TensorView::new(Dtype::F32, vec![1, 1], &odd).unwrap())];
    let bytes = safetensors::serialize(tensors, None).unwrap();
    assert!(check_header(&bytes));
    match SerializableModel::load_from_safetensors(&bytes) {
        Err(ModelError::TensorNotFound(n)) => assert_eq!(n, TensorName::W1),
        other => panic!("unexpected {:?}", other.map(|_| ())),
    }
}

#[test]
fn header_check_on_short_or_truncated_bytes() {
    assert!(!check_header(&[]));
    assert!(!check_header(&[0; 7]));
    // declares a header of 16 bytes but holds none
    assert!(!check_header(&[16, 0, 0, 0, 0, 0, 0, 0]));
    assert!(check_header(&[2, 0, 0, 0, 0, 0, 0, 0, b'{', b'}']));
    let saved = save_safetensors(&bundle()).unwrap();
    assert!(check_header(&saved));
}

#[test]
fn save_refuses_oversized_dimension() {
    let mut b = bundle();
    b.b2 = Vec::new();
    b.b2_shape = (0, 10_000_000_000_000_000);
    match save_safetensors(&b) {
        Err(ModelError::ShapeMismatch(n)) => assert_eq!(n, TensorName::B2),
        other => panic!("unexpected {:?}", other.map(|v| v.len())),
    }
}
