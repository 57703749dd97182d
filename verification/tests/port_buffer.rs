use fwumious_wabbit::port_buffer::copy_region;
use fwumious_wabbit::port_buffer::fill_region;
use fwumious_wabbit::port_buffer::observe_region;
use fwumious_wabbit::port_buffer::PortBuffer;
use fwumious_wabbit::scalar::Scalar;

fn scalar(x: f32) -> Scalar {
    Scalar::from_bits(x.to_bits())
}

fn numbers(tape: &[Scalar]) -> Vec<f32> {
    tape.iter().map(|x| f32::from_bits(x.to_bits())).collect()
}

#[test]
fn test_new_buffer_is_blank() {
    let pb = PortBuffer::new(5);
    assert_eq!(pb.tape_len, 5);
    assert_eq!(pb.tape.len(), 5);
    assert!(pb.tape.iter().all(|x| x.to_bits() == 0));
    assert!(pb.observations.is_empty());
    let pb = PortBuffer::new(0);
    assert!(pb.tape.is_empty());
}

#[test]
fn test_reset_drops_observations_and_keeps_the_tape() {
    let mut pb = PortBuffer::new(3);
    pb.tape[1] = scalar(4.0);
    pb.observations.push(scalar(1.0));
    let capacity = pb.tape.capacity();
    pb.reset();
    assert!(pb.observations.is_empty());
    assert_eq!(numbers(&pb.tape), vec![0.0, 4.0, 0.0]);
    assert_eq!(pb.tape.capacity(), capacity);
    assert_eq!(pb.tape_len, 3);
}

#[test]
fn test_reset_restores_the_length() {
    let mut pb = PortBuffer::new(3);
    pb.tape = vec![scalar(1.0), scalar(2.0), scalar(3.0), scalar(4.0), scalar(5.0)];
    pb.reset();
    assert_eq!(numbers(&pb.tape), vec![1.0, 2.0, 3.0]);
    pb.tape.truncate(1);
    pb.reset();
    assert_eq!(numbers(&pb.tape), vec![1.0, 0.0, 0.0]);
}

#[test]
fn test_region_helpers() {
    let mut tape: Vec<Scalar> = (0..6).map(|i| scalar(i as f32)).collect();
    copy_region(&mut tape, 0, 3, 2);
    assert_eq!(numbers(&tape), vec![0.0, 1.0, 2.0, 0.0, 1.0, 5.0]);
    copy_region(&mut tape, 4, 0, 2);
    assert_eq!(numbers(&tape), vec![1.0, 5.0, 2.0, 0.0, 1.0, 5.0]);
    fill_region(&mut tape, 2, 3, scalar(9.0));
    assert_eq!(numbers(&tape), vec![1.0, 5.0, 9.0, 9.0, 9.0, 5.0]);
    fill_region(&mut tape, 6, 0, scalar(7.0));
    copy_region(&mut tape, 0, 0, 0);
    assert_eq!(numbers(&tape), vec![1.0, 5.0, 9.0, 9.0, 9.0, 5.0]);
    let mut observations = vec![scalar(-1.0)];
    observe_region(&tape, 1, 2, &mut observations);
    observe_region(&tape, 3, 0, &mut observations);
    assert_eq!(numbers(&observations), vec![-1.0, 5.0, 9.0]);
}
