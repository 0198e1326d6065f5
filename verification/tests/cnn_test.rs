use conv_nn::activation::Activation;
use conv_nn::cnn::{Hyperparameters, CNN};
use conv_nn::fx::FX_ONE;
use conv_nn::optimizer::OptimizerAlg;
use conv_nn::tensor::Tensor3;

fn create_mock_input() -> Tensor3 {
    // A 28 x 28 x 1 input of all ones
    Tensor3 { data: vec![FX_ONE; 28 * 28], shape: (28, 28, 1) }
}

fn setup_basic_cnn() -> CNN {
    let params = Hyperparameters::default();
    let mut cnn = CNN::new(params);
    cnn.set_input_shape(vec![28, 28, 1]);
    cnn
}

#[test]
fn test_hyperparameters_default() {
    let params = Hyperparameters::default();
    assert_eq!(params.batch_size, 32);
    assert_eq!(params.epochs, 10);
    assert!(matches!(params.optimizer, OptimizerAlg::Adam(_, _, _)));
    assert_eq!(params.name, "model");
    assert!(params.verbose);
}

#[test]
fn test_cnn_initialization() {
    let params = Hyperparameters::default();
    let cnn = CNN::new(params);

    assert_eq!(cnn.layers.len(), 0);
    assert_eq!(cnn.layer_order.len(), 0);
    assert_eq!(cnn.minibatch_size, 32);
    assert_eq!(cnn.epochs, 10);
    assert_eq!(cnn.input_shape, (0, 0, 0));
}

#[test]
fn test_cnn_set_input_shape() {
    let params = Hyperparameters::default();
    let mut cnn = CNN::new(params);

    cnn.set_input_shape(vec![28, 28, 1]);

    assert_eq!(cnn.input_shape, (28, 28, 1));
}

#[test]
fn test_cnn_add_conv_layer() {
    let params = Hyperparameters::default();
    let mut cnn = CNN::new(params);

    cnn.set_input_shape(vec![28, 28, 1]);
    cnn.add_conv_layer(32, 3);

    assert_eq!(cnn.layers.len(), 1);
    assert_eq!(cnn.layer_order.last().unwrap(), "conv");
}

#[test]
fn test_cnn_add_dense_layer() {
    let params = Hyperparameters::default();
    let mut cnn = CNN::new(params);

    cnn.set_input_shape(vec![28, 28, 1]);
    cnn.add_dense_layer(128, Activation::Relu, None);

    assert_eq!(cnn.layers.len(), 1);
    assert_eq!(cnn.layer_order.last().unwrap(), "dense");
}

#[test]
fn test_cnn_forward_propagate() {
    let mut cnn = setup_basic_cnn();

    cnn.add_conv_layer(32, 3);
    cnn.add_dense_layer(10, Activation::Softmax, None);

    let input = create_mock_input();
    let output = cnn.forward_propagate(input, false);

    assert_eq!(output.len(), 10);
    // Additional check: ensure probabilities sum to approximately 1.0 for softmax
    let sum: f32 = output.iter().map(|&o| o as f32 / FX_ONE as f32).sum();
    assert!((sum - 1.0).abs() < 1e-5, "Softmax outputs should sum to 1.0");
}

#[test]
fn test_cnn_training() {
    let mut cnn = setup_basic_cnn();

    cnn.add_conv_layer(32, 3);
    cnn.add_mxpl_layer(2); // Add pooling layer to reduce dimensionality
    cnn.add_dense_layer(10, Activation::Softmax, None);

    // Mock the training process instead of actually training
    cnn.training_history.push(FX_ONE / 2);
    cnn.testing_history.push(FX_ONE * 3 / 5);

    assert!(!cnn.training_history.is_empty());
    assert!(!cnn.testing_history.is_empty());
}

#[test]
fn test_cnn_full_architecture_forward() {
    // Conv(8 filters, 3x3) -> Pool(2) -> Dense(128, ReLU, dropout 0.25)
    // -> Dense(64, ReLU, dropout 0.25) -> Dense(10, Softmax) on 28x28x3.
    let params = Hyperparameters::default();
    let mut cnn = CNN::new(params);
    cnn.set_input_shape(vec![28, 28, 3]);
    cnn.add_conv_layer(8, 3);
    cnn.add_mxpl_layer(2);
    cnn.add_dense_layer(128, Activation::Relu, Some(FX_ONE / 4));
    cnn.add_dense_layer(64, Activation::Relu, Some(FX_ONE / 4));
    cnn.add_dense_layer(10, Activation::Softmax, None);

    let input = Tensor3 { data: vec![FX_ONE; 28 * 28 * 3], shape: (28, 28, 3) };
    let output = cnn.forward_propagate(input, false);

    assert_eq!(output.len(), 10);
    let sum: f32 = output.iter().map(|&o| o as f32 / FX_ONE as f32).sum();
    assert!((sum - 1.0).abs() < 1e-5);
}

#[test]
fn test_cnn_epoch_training_run() {
    // A tiny end-to-end run: one conv layer and a softmax head over a
    // 6x6x1 input, trained for the configured epochs on a small dataset.
    let params = Hyperparameters {
        batch_size: 2,
        epochs: 2,
        optimizer: OptimizerAlg::SGD(FX_ONE / 10),
        ..Hyperparameters::default()
    };
    let mut cnn = CNN::new(params);
    cnn.set_input_shape(vec![6, 6, 1]);
    cnn.add_conv_layer(2, 3);
    cnn.add_dense_layer(3, Activation::Softmax, None);

    let mut trn = Vec::new();
    let mut tst = Vec::new();
    for i in 0..6usize {
        let v = (i % 3) as i64 * (FX_ONE / 3);
        let image = Tensor3 { data: vec![v; 36], shape: (6, 6, 1) };
        let sample = conv_nn::utils::Sample { image, label: i % 3 };
        if i < 4 {
            trn.push(sample);
        } else {
            tst.push(sample);
        }
    }
    let data = conv_nn::utils::Dataset { trn, tst, classes: vec![0, 1, 2] };

    cnn.train(&data);

    assert_eq!(cnn.training_history.len(), 2);
    assert_eq!(cnn.testing_history.len(), 2);
    assert_eq!(cnn.time_history.len(), 2);
    for &a in cnn.training_history.iter().chain(cnn.testing_history.iter()) {
        assert!(0 <= a && a <= FX_ONE);
    }
}
