use sketchnet::math::{MathError, Matrix, SCALAR_ZERO};
use sketchnet::neural_net::{
    make_target, NNData, NetError, NeuralNet, DEFAULT_LEARNING_RATE, TARGET_OFF, TARGET_ON,
};

#[test]
fn net_allocates_one_matrix_per_transition() {
    let net = NeuralNet::new(&vec![4, 3, 2]).unwrap();
    assert_eq!(net.layer_count(), 2);
    assert_eq!(net.layer(0).m(), 3);
    assert_eq!(net.layer(0).n(), 4);
    assert_eq!(net.layer(1).m(), 2);
    assert_eq!(net.layer(1).n(), 3);
    for k in 0..2 {
        for c in net.layer(k).get_raw_values() {
            assert_eq!(c, SCALAR_ZERO);
        }
    }
}

#[test]
fn net_mnist_structure() {
    let net = NeuralNet::new(&vec![28 * 28, 100, 10]).unwrap();
    assert_eq!(net.layer_count(), 2);
    assert_eq!(net.layer(0).m(), 100);
    assert_eq!(net.layer(0).n(), 784);
    assert_eq!(net.layer(1).m(), 10);
    assert_eq!(net.layer(1).n(), 100);
}

#[test]
fn net_rejects_short_structure() {
    assert_eq!(NeuralNet::new(&vec![10]).unwrap_err(), NetError::MalformedStructure);
    assert_eq!(NeuralNet::new(&Vec::new()).unwrap_err(), NetError::MalformedStructure);
}

#[test]
fn net_default_learning_rate() {
    let net = NeuralNet::new(&vec![4, 2]).unwrap();
    assert_eq!(net.learning_rate(), DEFAULT_LEARNING_RATE);
    assert_eq!(f32::from_bits(net.learning_rate()), 0.06f32);
}

#[test]
fn net_set_learning_rate() {
    let mut net = NeuralNet::new(&vec![4, 2]).unwrap();
    net.set_learning_rate(0.1f32.to_bits());
    assert_eq!(f32::from_bits(net.learning_rate()), 0.1f32);
}

#[test]
fn net_set_layer_checks_shape() {
    let mut net = NeuralNet::new(&vec![4, 3, 2]).unwrap();
    let mut replacement = Matrix::new(3, 4);
    replacement.set_value(1.5f32.to_bits(), 2, 1);
    net.set_layer(0, replacement).unwrap();
    assert_eq!(f32::from_bits(net.layer(0).get_val(2, 1).unwrap()), 1.5);
    let wrong_shape = Matrix::new(4, 3);
    assert_eq!(net.set_layer(0, wrong_shape).unwrap_err(), MathError::DimensionMismatch);
    assert_eq!(f32::from_bits(net.layer(0).get_val(2, 1).unwrap()), 1.5);
}

#[test]
fn target_vector_marks_label() {
    let target = make_target(3, 10);
    assert_eq!(target.len(), 10);
    for (i, c) in target.iter().enumerate() {
        if i == 3 {
            assert_eq!(*c, TARGET_ON);
            assert_eq!(f32::from_bits(*c), 0.99f32);
        } else {
            assert_eq!(*c, TARGET_OFF);
            assert_eq!(f32::from_bits(*c), 0.01f32);
        }
    }
}

#[test]
fn nn_data_holds_sample() {
    let sample = NNData { data: vec![0u8, 128, 255], label: 7 };
    assert_eq!(sample.data.len(), 3);
    assert_eq!(sample.label, 7);
}
