use ml_kit::topology::{fit_dims_agree, layer_shapes, LayerShape};

#[test]
fn it_works() {
    assert_eq!(2 + 2, 4);
}

#[test]
fn layer_shapes_of_two_three_two() {
    let shapes = layer_shapes(&[2, 3, 2]);
    assert_eq!(shapes.len(), 2);
    assert_eq!(shapes[0].bias_dims(), (1, 3));
    assert_eq!(shapes[0].weights_dims(), (2, 3));
    assert_eq!(shapes[1].bias_dims(), (1, 2));
    assert_eq!(shapes[1].weights_dims(), (3, 2));
}

#[test]
fn layer_shapes_are_chained() {
    let topology = [5, 8, 1, 4, 2];
    let shapes = layer_shapes(&topology);
    assert_eq!(shapes.len(), topology.len() - 1);
    for k in 0..shapes.len() {
        assert_eq!(shapes[k], LayerShape { inputs: topology[k], outputs: topology[k + 1] });
    }
    for k in 0..shapes.len() - 1 {
        assert_eq!(shapes[k].outputs, shapes[k + 1].inputs);
    }
}

#[test]
fn short_topologies_have_no_layers() {
    assert!(layer_shapes(&[]).is_empty());
    assert!(layer_shapes(&[3]).is_empty());
}

#[test]
fn fit_dims_agree_on_matching_shapes() {
    assert!(fit_dims_agree(&[2, 3, 1], 4, 2, 4, 1));
}

#[test]
fn fit_dims_disagree_on_any_mismatch() {
    assert!(!fit_dims_agree(&[2, 3, 1], 4, 3, 4, 1));
    assert!(!fit_dims_agree(&[2, 3, 1], 4, 2, 4, 3));
    assert!(!fit_dims_agree(&[2, 3, 1], 4, 2, 5, 1));
    assert!(!fit_dims_agree(&[2], 4, 2, 4, 2));
    assert!(!fit_dims_agree(&[], 4, 2, 4, 1));
}
