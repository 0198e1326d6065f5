use conv_nn::fx::FX_ONE;
use conv_nn::mxpl::MxplLayer;
use conv_nn::tensor::Tensor3;

#[test]
fn test_mxpl_forward_known_values() {
    let mut layer = MxplLayer::new((4, 4, 1), 2, 2);
    assert_eq!(layer.output_size, (2, 2, 1));
    let data: Vec<i64> = (1..=16).map(|v| v * FX_ONE).collect();
    let input = Tensor3 { data, shape: (4, 4, 1) };
    let output = layer.forward_propagate(input);
    assert_eq!(output.data, vec![6 * FX_ONE, 8 * FX_ONE, 14 * FX_ONE, 16 * FX_ONE]);
    // The maximum of every window sits at its lower-right cell.
    assert_eq!(layer.mask, vec![3, 3, 3, 3]);
}

#[test]
fn test_mxpl_ties_keep_first_position() {
    let mut layer = MxplLayer::new((2, 2, 1), 2, 2);
    let input = Tensor3 { data: vec![7 * FX_ONE; 4], shape: (2, 2, 1) };
    let output = layer.forward_propagate(input);
    assert_eq!(output.data, vec![7 * FX_ONE]);
    assert_eq!(layer.mask, vec![0]);
}

#[test]
fn test_mxpl_backward_routes_to_argmax() {
    let mut layer = MxplLayer::new((4, 4, 1), 2, 2);
    let data: Vec<i64> = (1..=16).map(|v| v * FX_ONE).collect();
    layer.forward_propagate(Tensor3 { data, shape: (4, 4, 1) });

    let error = Tensor3 {
        data: vec![FX_ONE, 2 * FX_ONE, 3 * FX_ONE, 4 * FX_ONE],
        shape: (2, 2, 1),
    };
    let routed = layer.back_propagate(error);
    let mut expected = vec![0i64; 16];
    expected[5] = FX_ONE;
    expected[7] = 2 * FX_ONE;
    expected[13] = 3 * FX_ONE;
    expected[15] = 4 * FX_ONE;
    assert_eq!(routed.data, expected);
}

#[test]
fn test_mxpl_zero_clears_cache() {
    let mut layer = MxplLayer::new((4, 4, 1), 2, 2);
    let data: Vec<i64> = (1..=16).map(|v| v * FX_ONE).collect();
    layer.forward_propagate(Tensor3 { data, shape: (4, 4, 1) });
    layer.zero();
    assert!(layer.output.data.iter().all(|&x| x == 0));
    assert!(layer.mask.iter().all(|&m| m == 0));
}
