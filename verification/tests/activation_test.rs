use conv_nn::activation::{backward, forward, Activation};
use conv_nn::fx::FX_ONE;

fn fx(x: f32) -> i64 {
    (x * FX_ONE as f32).round() as i64
}

fn to_f32(x: i64) -> f32 {
    x as f32 / FX_ONE as f32
}

#[test]
fn test_relu_forward() {
    let input = vec![-FX_ONE, 0, FX_ONE, 2 * FX_ONE];
    let expected = vec![0, 0, FX_ONE, 2 * FX_ONE];
    let output = forward(input.clone(), Activation::Relu);
    assert_eq!(output, expected);
}

#[test]
fn test_relu_backward() {
    let input = vec![-FX_ONE, 0, FX_ONE, 2 * FX_ONE];
    let expected = vec![0, 0, FX_ONE, FX_ONE];
    let output = backward(input.clone(), Activation::Relu);
    assert_eq!(output, expected);
}

#[test]
fn test_sigmoid_forward() {
    let input = vec![0, FX_ONE, -FX_ONE];
    let expected = [
        0.5f32,                        // sigmoid(0)
        1.0 / (1.0 + (-1.0f32).exp()), // sigmoid(1)
        1.0 / (1.0 + 1.0f32.exp()),    // sigmoid(-1)
    ];
    let output = forward(input.clone(), Activation::Sigmoid);
    let diff: f32 = output
        .iter()
        .zip(expected.iter())
        .map(|(&o, &e)| (to_f32(o) - e).abs())
        .sum();
    assert!(diff < 1e-6);
    // sigmoid(0) is exactly one half in fixed point
    assert_eq!(output[0], FX_ONE / 2);
}

#[test]
fn test_sigmoid_backward() {
    let input = vec![fx(0.5), fx(0.7), fx(0.2)];
    let expected: Vec<f32> = input.iter().map(|&x| to_f32(x) * (1.0 - to_f32(x))).collect();
    let output = backward(input.clone(), Activation::Sigmoid);
    let diff: f32 = output
        .iter()
        .zip(expected.iter())
        .map(|(&o, &e)| (to_f32(o) - e).abs())
        .sum();
    assert!(diff < 1e-6);
}

#[test]
fn test_softmax_forward() {
    let input = vec![FX_ONE, 2 * FX_ONE, 3 * FX_ONE];
    let output = forward(input.clone(), Activation::Softmax);
    let sum: f32 = output.iter().map(|&o| to_f32(o)).sum();
    assert!((sum - 1.0).abs() < 1e-6, "Softmax output does not sum to 1");
}

#[test]
fn test_softmax_derivative() {
    let input = vec![FX_ONE, 2 * FX_ONE, 3 * FX_ONE];
    let output = backward(input.clone(), Activation::Softmax);
    let expected = vec![FX_ONE, FX_ONE, FX_ONE]; // softmax derivative is all ones here
    assert_eq!(output, expected);
}
