use conv_nn::conv_layers::ConvLayer;
use conv_nn::fx::FX_ONE;
use conv_nn::optimizer::OptimizerAlg;
use conv_nn::tensor::Tensor3;

// Adam(0.9, 0.999, 1e-8) in fixed point: the epsilon rounds to zero.
fn adam() -> OptimizerAlg {
    OptimizerAlg::Adam(15099494, 16760438, 0)
}

fn ones(shape: (usize, usize, usize)) -> Tensor3 {
    Tensor3 { data: vec![FX_ONE; shape.0 * shape.1 * shape.2], shape }
}

#[test]
fn test_conv_layer_initialization() {
    let input_size = (28, 28, 3);
    let kernel_size = 3;
    let stride = 1;
    let num_filters = 5;
    let optimizer_alg = adam();

    let conv_layer = ConvLayer::new(input_size, kernel_size, stride, num_filters, optimizer_alg);

    assert_eq!(conv_layer.input_size, input_size);
    assert_eq!(conv_layer.kernel_size, kernel_size);
    assert_eq!(conv_layer.stride, stride);
    assert_eq!(conv_layer.num_filters, num_filters);
    assert_eq!(
        conv_layer.output_size,
        (
            (input_size.0 - kernel_size) / stride + 1,
            (input_size.1 - kernel_size) / stride + 1,
            num_filters
        )
    );
}

#[test]
fn test_conv_layer_forward_propagation() {
    let input_size = (5, 5, 3);
    let kernel_size = 3;
    let stride = 1;
    let num_filters = 2;
    let optimizer_alg = adam();

    let mut conv_layer =
        ConvLayer::new(input_size, kernel_size, stride, num_filters, optimizer_alg);
    let input = ones(input_size);

    let output = conv_layer.forward_propagate(input);

    assert_eq!(output.shape, (3, 3, num_filters)); // Output size calculation
}

#[test]
fn test_conv_layer_backward_propagation() {
    let input_size = (5, 5, 3);
    let kernel_size = 3;
    let stride = 1;
    let num_filters = 2;
    let optimizer_alg = adam();

    let mut conv_layer =
        ConvLayer::new(input_size, kernel_size, stride, num_filters, optimizer_alg);
    let input = ones(input_size);
    conv_layer.forward_propagate(input);

    let error = ones(conv_layer.output_size);
    let backprop_error = conv_layer.back_propagate(error);

    assert_eq!(backprop_error.shape, (5, 5, 3)); // Should match input size
}

#[test]
fn test_conv_layer_update() {
    let input_size = (5, 5, 3);
    let kernel_size = 3;
    let stride = 1;
    let num_filters = 2;
    let optimizer_alg = adam();

    let mut conv_layer =
        ConvLayer::new(input_size, kernel_size, stride, num_filters, optimizer_alg);
    let input = ones(input_size);
    conv_layer.forward_propagate(input);

    let error = ones(conv_layer.output_size);
    conv_layer.back_propagate(error);

    let before_update = conv_layer.kernels.clone();
    conv_layer.update(1);

    assert_ne!(before_update, conv_layer.kernels); // Weights should change
}

#[test]
fn test_conv_layer_zero_reset() {
    let input_size = (5, 5, 3);
    let kernel_size = 3;
    let stride = 1;
    let num_filters = 2;
    let optimizer_alg = adam();

    let mut conv_layer =
        ConvLayer::new(input_size, kernel_size, stride, num_filters, optimizer_alg);
    conv_layer.zero();

    assert!(conv_layer.kernel_changes.iter().all(|&x| x == 0));
    assert!(conv_layer.output.data.iter().all(|&x| x == 0));
}

#[test]
fn test_conv_layer_sgd_update_changes_parameters() {
    // With plain gradient descent, every kernel weight that accumulated a
    // nonzero gradient moves, the accumulators are cleared by the update,
    // and a zero() call leaves the learned weights alone.
    let input_size = (4, 4, 1);
    let mut conv_layer = ConvLayer::new(input_size, 2, 1, 1, OptimizerAlg::SGD(FX_ONE / 10));
    let input = ones(input_size);
    conv_layer.forward_propagate(input);
    let error = ones(conv_layer.output_size);
    conv_layer.back_propagate(error);

    assert!(conv_layer.kernel_changes.iter().all(|&g| g != 0));
    let before = conv_layer.kernels.clone();
    conv_layer.update(1);
    for (b, a) in before.iter().zip(conv_layer.kernels.iter()) {
        assert_ne!(b, a);
    }
    assert!(conv_layer.kernel_changes.iter().all(|&g| g == 0));
    assert!(conv_layer.bias_changes.iter().all(|&g| g == 0));

    let learned = conv_layer.kernels.clone();
    conv_layer.zero();
    assert_eq!(learned, conv_layer.kernels);
}

#[test]
fn test_update_clears_accumulator_and_repeats() {
    // Because update() clears its accumulator, two successive updates fed
    // the same fixed gradient produce the same parameter delta.
    let input_size = (3, 3, 1);
    let mut conv_layer = ConvLayer::new(input_size, 2, 1, 1, OptimizerAlg::SGD(FX_ONE / 10));
    let g = FX_ONE / 2;

    for w in conv_layer.kernel_changes.iter_mut() {
        *w = g;
    }
    let before1 = conv_layer.kernels.clone();
    conv_layer.update(1);
    let delta1: Vec<i64> =
        conv_layer.kernels.iter().zip(before1.iter()).map(|(a, b)| a - b).collect();
    assert!(conv_layer.kernel_changes.iter().all(|&x| x == 0));

    for w in conv_layer.kernel_changes.iter_mut() {
        *w = g;
    }
    let before2 = conv_layer.kernels.clone();
    conv_layer.update(1);
    let delta2: Vec<i64> =
        conv_layer.kernels.iter().zip(before2.iter()).map(|(a, b)| a - b).collect();

    assert_eq!(delta1, delta2);
    assert!(delta1.iter().all(|&d| d != 0));
}

#[test]
fn test_conv_layer_known_forward_values() {
    // One 2x2 filter of all ones over a 3x3 input of all ones, zero bias:
    // every output cell is the window sum, exactly 4.0 in fixed point.
    let input_size = (3, 3, 1);
    let mut conv_layer = ConvLayer::new(input_size, 2, 1, 1, OptimizerAlg::SGD(FX_ONE / 10));
    for w in conv_layer.kernels.iter_mut() {
        *w = FX_ONE;
    }
    let input = ones(input_size);
    let output = conv_layer.forward_propagate(input);
    assert_eq!(output.shape, (2, 2, 1));
    assert_eq!(output.data, vec![4 * FX_ONE; 4]);
}
