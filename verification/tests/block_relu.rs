use fwumious_wabbit::block_helpers::forward;
use fwumious_wabbit::block_helpers::forward_backward;
use fwumious_wabbit::block_helpers::slearn2;
use fwumious_wabbit::block_helpers::spredict2;
use fwumious_wabbit::block_misc::new_const_block;
use fwumious_wabbit::block_misc::new_observe_block;
use fwumious_wabbit::block_misc::Observe;
use fwumious_wabbit::block_relu::new_relu_block;
use fwumious_wabbit::block_relu::BlockRELU;
use fwumious_wabbit::feature_buffer::FeatureBuffer;
use fwumious_wabbit::graph::BlockGraph;
use fwumious_wabbit::graph::GraphError;
use fwumious_wabbit::graph::InputSlot;
use fwumious_wabbit::graph::OutputSlot;
use fwumious_wabbit::model_instance::ModelInstance;
use fwumious_wabbit::port_buffer::PortBuffer;
use fwumious_wabbit::regressor::Block;
use fwumious_wabbit::scalar::Scalar;

fn scalar(x: f32) -> Scalar {
    Scalar::from_bits(x.to_bits())
}

fn number(x: Scalar) -> f32 {
    f32::from_bits(x.to_bits())
}

fn assert_epsilon(x: Scalar, y: f32) {
    let x = number(x);
    assert!((x - y).abs() < 0.0000001, "{} is not {}", x, y);
}

fn fb_vec() -> FeatureBuffer {
    FeatureBuffer {
        label: scalar(0.0),
        example_importance: scalar(1.0),
        example_number: 0,
        lr_buffer: Vec::new(),
        ffm_buffer: Vec::new(),
        ffm_fields_count: 0,
    }
}

fn chain(consts: Vec<f32>, observe: Observe, replace: Option<f32>) -> BlockGraph {
    let mi = ModelInstance::new_empty();
    let mut bg = BlockGraph::new();
    let consts = consts.into_iter().map(scalar).collect();
    let input_block = new_const_block(&mut bg, consts).unwrap();
    let relu_block = new_relu_block(&mut bg, &mi, input_block).unwrap();
    new_observe_block(&mut bg, relu_block, observe, replace.map(scalar)).unwrap();
    bg.finalize().unwrap();
    bg.allocate_and_init_weights(&mi);
    bg
}

#[test]
fn test_simple_positive() {
    let mi = ModelInstance::new_empty();
    let mut bg = BlockGraph::new();
    let input_block = new_const_block(&mut bg, vec![scalar(2.0)]).unwrap();
    let relu_block = new_relu_block(&mut bg, &mi, input_block).unwrap();
    let _observe_block =
        new_observe_block(&mut bg, relu_block, Observe::Forward, Some(scalar(1.0))).unwrap();
    bg.finalize().unwrap();
    bg.allocate_and_init_weights(&mi);

    let mut pb = bg.new_port_buffer();

    let fb = fb_vec();
    assert_epsilon(slearn2(&mut bg, &fb, &mut pb, true), 2.0);
    assert_epsilon(slearn2(&mut bg, &fb, &mut pb, true), 2.0); // relu doesn't learn
}

#[test]
fn test_simple_negative() {
    let mi = ModelInstance::new_empty();
    let mut bg = BlockGraph::new();
    let input_block = new_const_block(&mut bg, vec![scalar(-2.0)]).unwrap();
    let relu_block = new_relu_block(&mut bg, &mi, input_block).unwrap();
    let _observe_block =
        new_observe_block(&mut bg, relu_block, Observe::Forward, Some(scalar(1.0))).unwrap();
    bg.finalize().unwrap();
    bg.allocate_and_init_weights(&mi);

    let mut pb = bg.new_port_buffer();

    let fb = fb_vec();
    assert_epsilon(slearn2(&mut bg, &fb, &mut pb, true), 0.0);
    assert_epsilon(slearn2(&mut bg, &fb, &mut pb, true), 0.0); // relu doesn't learn
}

#[test]
fn test_forward_is_max_with_zero() {
    let inputs = vec![3.5, -3.5, 0.0, -0.0, f32::INFINITY, f32::NEG_INFINITY, f32::MIN_POSITIVE];
    let mut bg = chain(inputs.clone(), Observe::Forward, None);
    let mut pb = bg.new_port_buffer();
    let fb = fb_vec();
    spredict2(&bg, &fb, &mut pb);
    assert_eq!(pb.observations.len(), inputs.len());
    for (x, seen) in inputs.iter().zip(pb.observations.iter()) {
        let expected = if *x >= 0.0 { *x } else { 0.0 };
        assert_eq!(seen.to_bits(), expected.to_bits(), "relu({})", x);
    }
    slearn2(&mut bg, &fb, &mut pb, false);
    for (x, seen) in inputs.iter().zip(pb.observations.iter()) {
        assert_eq!(number(*seen), x.max(0.0), "relu({})", x);
    }
}

#[test]
fn test_nan_input_gives_zero() {
    let bg = chain(vec![f32::NAN], Observe::Forward, None);
    let mut pb = bg.new_port_buffer();
    let r = spredict2(&bg, &fb_vec(), &mut pb);
    assert_eq!(r.to_bits(), 0);
}

#[test]
fn test_forward_leaves_input_region() {
    let bg = chain(vec![2.0, -2.0], Observe::Forward, None);
    let mut pb = bg.new_port_buffer();
    spredict2(&bg, &fb_vec(), &mut pb);
    // consts at 0..2, relu output at 2..4, probe output at 4..6
    let tape: Vec<f32> = pb.tape.iter().map(|x| number(*x)).collect();
    assert_eq!(tape, vec![2.0, -2.0, 2.0, 0.0, 2.0, 0.0]);
}

#[test]
fn test_gradient_passes_where_input_is_not_negative() {
    // The probe hands 7.0 upstream as the gradient of each value.
    let mut bg = chain(vec![2.0, -2.0, 0.0, -0.5], Observe::Forward, Some(7.0));
    let mut pb = bg.new_port_buffer();
    slearn2(&mut bg, &fb_vec(), &mut pb, true);
    let input_gradient: Vec<f32> = pb.tape[0..4].iter().map(|x| number(*x)).collect();
    assert_eq!(input_gradient, vec![7.0, 0.0, 7.0, 0.0]);
    let upstream: Vec<f32> = pb.tape[4..8].iter().map(|x| number(*x)).collect();
    assert_eq!(upstream, vec![7.0, 7.0, 7.0, 7.0]);
}

#[test]
fn test_gradient_without_update_flag() {
    let mut bg = chain(vec![2.0, -2.0], Observe::Forward, Some(3.0));
    let mut pb = bg.new_port_buffer();
    slearn2(&mut bg, &fb_vec(), &mut pb, false);
    let input_gradient: Vec<f32> = pb.tape[0..2].iter().map(|x| number(*x)).collect();
    assert_eq!(input_gradient, vec![3.0, 0.0]);
}

#[test]
fn test_backward_probe_sees_forward_values_at_the_end_of_the_chain() {
    let mut bg = chain(vec![5.0, -5.0], Observe::Backward, None);
    let mut pb = bg.new_port_buffer();
    let r = slearn2(&mut bg, &fb_vec(), &mut pb, true);
    assert_epsilon(r, 5.0);
    assert_eq!(pb.observations.len(), 2);
    assert_epsilon(pb.observations[1], 0.0);
    // nothing downstream: the values come back as the gradient
    let input_gradient: Vec<f32> = pb.tape[0..2].iter().map(|x| number(*x)).collect();
    assert_eq!(input_gradient, vec![5.0, 0.0]);
}

#[test]
fn test_relu_block_is_unchanged_by_training() {
    let mut bg = chain(vec![1.0, -1.0], Observe::Forward, Some(1.0));
    let before: Vec<(usize, usize, usize)> = relus(&bg);
    let mut pb = bg.new_port_buffer();
    slearn2(&mut bg, &fb_vec(), &mut pb, true);
    slearn2(&mut bg, &fb_vec(), &mut pb, false);
    assert_eq!(relus(&bg), before);
    assert_eq!(before, vec![(2, 0, 2)]);
}

fn relus(bg: &BlockGraph) -> Vec<(usize, usize, usize)> {
    let mut found = Vec::new();
    for block in bg.blocks.iter() {
        if let Block::Relu(relu) = block {
            found.push((relu.num_inputs, relu.input_offset, relu.output_offset));
        }
    }
    found
}

#[test]
fn test_repeated_predictions_are_bit_identical() {
    let bg = chain(vec![0.1, -0.1, 123.456], Observe::Forward, Some(1.0));
    let mut pb = bg.new_port_buffer();
    let fb = fb_vec();
    let first = spredict2(&bg, &fb, &mut pb);
    let first_observations = pb.observations.clone();
    let first_tape = pb.tape.clone();
    // dirty the buffer between the calls
    for value in pb.tape.iter_mut() {
        *value = scalar(-99.0);
    }
    pb.observations.push(scalar(42.0));
    let second = spredict2(&bg, &fb, &mut pb);
    assert_eq!(first.to_bits(), second.to_bits());
    assert_eq!(first_observations, pb.observations);
    assert_eq!(first_tape, pb.tape);
    let mut other = bg.new_port_buffer();
    let third = spredict2(&bg, &fb, &mut other);
    assert_eq!(first.to_bits(), third.to_bits());
}

#[test]
fn test_relu_block_on_its_own() {
    let mut relu = BlockRELU { num_inputs: 2, input_offset: usize::MAX, output_offset: usize::MAX };
    assert_eq!(relu.get_num_output_slots(), 1);
    assert_eq!(relu.get_num_output_values(OutputSlot(0)), 2);
    relu.set_input_offset(InputSlot(0), 0);
    relu.set_output_offset(OutputSlot(0), 2);
    relu.allocate_and_init_weights(&ModelInstance::new_empty());
    assert_eq!((relu.num_inputs, relu.input_offset, relu.output_offset), (2, 0, 2));

    let mut pb = PortBuffer::new(4);
    pb.tape[0] = scalar(1.5);
    pb.tape[1] = scalar(-1.5);
    relu.forward(&[], &fb_vec(), &mut pb);
    let tape: Vec<f32> = pb.tape.iter().map(|x| number(*x)).collect();
    assert_eq!(tape, vec![1.5, -1.5, 1.5, 0.0]);

    // with nothing downstream the output region itself is the gradient
    relu.forward_backward(&mut [], &fb_vec(), &mut pb, true);
    let tape: Vec<f32> = pb.tape.iter().map(|x| number(*x)).collect();
    assert_eq!(tape, vec![1.5, 0.0, 1.5, 0.0]);
}

#[test]
fn test_empty_chain_does_nothing() {
    let mut pb = PortBuffer::new(3);
    pb.tape[1] = scalar(4.0);
    let before = pb.tape.clone();
    forward(&[], &fb_vec(), &mut pb);
    forward_backward(&mut [], &fb_vec(), &mut pb, true);
    assert_eq!(pb.tape, before);
    assert!(pb.observations.is_empty());
}

#[test]
fn test_relu_refuses_zero_width_input() {
    let mi = ModelInstance::new_empty();
    let mut bg = BlockGraph::new();
    let empty = new_const_block(&mut bg, Vec::new()).unwrap();
    assert_eq!(new_relu_block(&mut bg, &mi, empty).unwrap_err(), GraphError::ZeroWidth);
    assert_eq!(bg.len(), 1);
}
