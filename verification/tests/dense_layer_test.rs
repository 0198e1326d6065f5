use conv_nn::activation::Activation;
use conv_nn::dense_layer::DenseLayer;
use conv_nn::fx::FX_ONE;
use conv_nn::optimizer::OptimizerAlg;

fn sgd() -> OptimizerAlg {
    OptimizerAlg::SGD(FX_ONE / 10)
}

/// A 2-in, 2-out layer with identity weights and zero biases.
fn identity_layer(dropout: Option<i64>) -> DenseLayer {
    let mut layer = DenseLayer::new(2, 2, Activation::Relu, sgd(), dropout, (2, 1, 1));
    layer.weights = vec![FX_ONE, 0, 0, FX_ONE];
    layer
}

#[test]
fn test_dense_forward_known_values() {
    let mut layer = identity_layer(None);
    let output = layer.forward_propagate(vec![3 * FX_ONE, -2 * FX_ONE], false);
    // W x + b is the input itself; the rectifier clears the negative entry.
    assert_eq!(output, vec![3 * FX_ONE, 0]);
}

#[test]
fn test_dense_dropout_inference_is_identity() {
    // With dropout configured but training off, no unit is zeroed and no
    // rescaling happens: the output equals the plain activated transform.
    let mut with_dropout = identity_layer(Some(FX_ONE / 4));
    let out1 = with_dropout.forward_propagate(vec![3 * FX_ONE, 5 * FX_ONE], false);
    assert_eq!(out1, vec![3 * FX_ONE, 5 * FX_ONE]);
}

#[test]
fn test_dense_dropout_training_scales_survivors() {
    // With dropout probability one half, every trained output unit is
    // either zeroed or rescaled by exactly two.
    let mut layer = identity_layer(Some(FX_ONE / 2));
    let out = layer.forward_propagate(vec![3 * FX_ONE, 5 * FX_ONE], true);
    assert!(out[0] == 0 || out[0] == 6 * FX_ONE);
    assert!(out[1] == 0 || out[1] == 10 * FX_ONE);
}

#[test]
fn test_dense_backward_accumulates_and_update_applies() {
    let mut layer = identity_layer(None);
    layer.forward_propagate(vec![FX_ONE, 2 * FX_ONE], true);
    let back = layer.back_propagate(vec![FX_ONE, FX_ONE], true);
    // The propagated error is transpose(W) times the chained error.
    assert_eq!(back.len(), 2);
    // Outer product of the chained error and the cached input.
    assert!(layer.weight_changes.iter().any(|&g| g != 0));

    let before = layer.weights.clone();
    layer.update(1);
    assert_ne!(before, layer.weights);
    assert!(layer.weight_changes.iter().all(|&g| g == 0));
    assert!(layer.bias_changes.iter().all(|&g| g == 0));
}

#[test]
fn test_dense_zero_clears_state_not_parameters() {
    let mut layer = identity_layer(None);
    layer.forward_propagate(vec![FX_ONE, 2 * FX_ONE], true);
    layer.back_propagate(vec![FX_ONE, FX_ONE], true);
    let weights = layer.weights.clone();
    layer.zero();
    assert_eq!(weights, layer.weights);
    assert!(layer.weight_changes.iter().all(|&g| g == 0));
    assert!(layer.bias_changes.iter().all(|&g| g == 0));
    assert!(layer.output.iter().all(|&x| x == 0));
}

#[test]
fn test_dense_softmax_output_sums_to_one() {
    let mut layer = DenseLayer::new(4, 4, Activation::Softmax, sgd(), None, (4, 1, 1));
    let out = layer.forward_propagate(vec![FX_ONE, 0, -FX_ONE, 2 * FX_ONE], false);
    let sum: f32 = out.iter().map(|&o| o as f32 / FX_ONE as f32).sum();
    assert!((sum - 1.0).abs() < 1e-6);
}
