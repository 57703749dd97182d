use fwumious_wabbit::block_misc::new_const_block;
use fwumious_wabbit::block_misc::new_observe_block;
use fwumious_wabbit::block_misc::Observe;
use fwumious_wabbit::block_relu::new_relu_block;
use fwumious_wabbit::feature_buffer::FeatureBuffer;
use fwumious_wabbit::feature_buffer::HashAndValue;
use fwumious_wabbit::graph::BlockGraph;
use fwumious_wabbit::model_instance::ModelInstance;
use fwumious_wabbit::predictor::generate_prototype_predictor;
use fwumious_wabbit::scalar::Scalar;

fn scalar(x: f32) -> Scalar {
    Scalar::from_bits(x.to_bits())
}

fn features(n: u64) -> FeatureBuffer {
    FeatureBuffer {
        label: scalar(0.0),
        example_importance: scalar(1.0),
        example_number: n,
        lr_buffer: vec![HashAndValue { hash: n as u32, value: scalar(1.0) }],
        ffm_buffer: Vec::new(),
        ffm_fields_count: 0,
    }
}

fn graph(value: f32, with_probe: bool) -> BlockGraph {
    let mi = ModelInstance::new_empty();
    let mut bg = BlockGraph::new();
    let source = new_const_block(&mut bg, vec![scalar(value), scalar(-value)]).unwrap();
    let relu = new_relu_block(&mut bg, &mi, source).unwrap();
    if with_probe {
        new_observe_block(&mut bg, relu, Observe::Forward, None).unwrap();
    }
    bg
}

#[test]
fn test_predict_gives_the_first_observation() {
    let mut bg = graph(0.75, true);
    bg.finalize().unwrap();
    let mut predictor = generate_prototype_predictor(bg, &features(0)).unwrap();
    assert_eq!(predictor.predict(Some(&features(1))).to_bits(), 0.75f32.to_bits());
}

#[test]
fn test_predict_gives_sentinel_without_features() {
    let mut bg = graph(0.75, true);
    bg.finalize().unwrap();
    let mut predictor = generate_prototype_predictor(bg, &features(0)).unwrap();
    assert_eq!(predictor.predict(None).to_bits(), (-1.0f32).to_bits());
    assert_eq!(predictor.predict(Some(&features(1))).to_bits(), 0.75f32.to_bits());
    assert_eq!(predictor.predict(None).to_bits(), (-1.0f32).to_bits());
}

#[test]
fn test_predictions_repeat_bit_for_bit() {
    let mut bg = graph(0.1, true);
    bg.finalize().unwrap();
    let mut predictor = generate_prototype_predictor(bg, &features(0)).unwrap();
    let first = predictor.predict(Some(&features(1)));
    for n in 0..10 {
        assert_eq!(predictor.predict(Some(&features(n))).to_bits(), first.to_bits());
    }
    assert_eq!(first.to_bits(), 0.1f32.to_bits());
}

#[test]
fn test_clone_lite_predicts_the_same() {
    let mut bg = graph(3.0, true);
    bg.finalize().unwrap();
    let mut prototype = generate_prototype_predictor(bg, &features(0)).unwrap();
    let mut copy = prototype.clone_lite();
    let mut copy_of_copy = copy.clone_lite();
    let fb = features(1);
    let expected = prototype.predict(Some(&fb));
    assert_eq!(expected.to_bits(), 3.0f32.to_bits());
    assert_eq!(copy.predict(Some(&fb)), expected);
    drop(prototype);
    assert_eq!(copy_of_copy.predict(Some(&fb)), expected);
    assert_eq!(copy.predict(None), Scalar::minus_one());
}

#[test]
fn test_no_predictor_for_an_open_graph() {
    assert!(generate_prototype_predictor(graph(1.0, true), &features(0)).is_none());
}

#[test]
fn test_no_predictor_for_a_graph_that_records_nothing() {
    let mut bg = graph(1.0, false);
    bg.finalize().unwrap();
    assert!(generate_prototype_predictor(bg, &features(0)).is_none());
    let mut empty = BlockGraph::new();
    empty.finalize().unwrap();
    assert!(generate_prototype_predictor(empty, &features(0)).is_none());
}
