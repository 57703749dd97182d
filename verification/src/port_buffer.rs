//! The tape: one flat buffer that holds every port's forward value and,
//! once the backward pass has touched it, that port's gradient.

use crate::scalar::Scalar;
use vstd::prelude::*;

verus! {

/// What a port buffer holds, as mathematical sequences.
pub struct TapeState {
    pub tape: Seq<Scalar>,
    pub observations: Seq<Scalar>,
}

/// The values at `offset .. offset + len` of a tape.
pub open spec fn spec_region(tape: Seq<Scalar>, offset: int, len: int) -> Seq<Scalar> {
    tape.subrange(offset, offset + len)
}

/// The tape with `values` written at `offset .. offset + values.len()` and
/// every other position unchanged.
pub open spec fn spec_write(tape: Seq<Scalar>, offset: int, values: Seq<Scalar>) -> Seq<Scalar> {
    Seq::new(
        tape.len(),
        |j: int|
            if offset <= j < offset + values.len() {
                values[j - offset]
            } else {
                tape[j]
            },
    )
}

/// A tape of `len` zeros with no observations.
pub open spec fn spec_blank(len: nat) -> TapeState {
    TapeState { tape: Seq::new(len, |j: int| Scalar::spec_zero()), observations: Seq::empty() }
}

/// Storage for one evaluation at a time: the tape and the values that
/// observation probes have recorded.
pub struct PortBuffer {
    pub tape: Vec<Scalar>,
    pub observations: Vec<Scalar>,
    pub tape_len: usize,
}

impl View for PortBuffer {
    type V = TapeState;

    open spec fn view(&self) -> TapeState {
        TapeState { tape: self.tape@, observations: self.observations@ }
    }
}

impl PortBuffer {
    /// A zeroed tape of `tape_len` values and no observations.
    pub fn new(tape_len: usize) -> (pb: PortBuffer)
        ensures
            pb.tape_len == tape_len,
            pb@ == spec_blank(tape_len as nat),
    {
        let mut pb = PortBuffer { tape: Vec::new(), observations: Vec::new(), tape_len };
        pb.reset();
        assert(pb@.tape =~= spec_blank(tape_len as nat).tape);
        pb
    }

    /// Prepares the buffer for the next evaluation: the observations are
    /// dropped and the tape has `tape_len` values again. The values that the
    /// tape held stay where they are; where it grows, it grows by zeros.
    /// Nothing is allocated while the length stays the same.
    pub fn reset(&mut self)
        ensures
            final(self).tape_len == old(self).tape_len,
            final(self).observations@ == Seq::<Scalar>::empty(),
            final(self).tape@.len() == old(self).tape_len,
            forall|j: int|
                0 <= j < old(self).tape@.len() && j < old(self).tape_len ==> final(self).tape@[j]
                    == old(self).tape@[j],
            forall|j: int|
                old(self).tape@.len() <= j < old(self).tape_len ==> final(self).tape@[j]
                    == Scalar::spec_zero(),
    {
        self.observations.clear();
        if self.tape.len() > self.tape_len {
            self.tape.truncate(self.tape_len);
        }
        while self.tape.len() < self.tape_len
            invariant
                self.tape_len == old(self).tape_len,
                self.observations@.len() == 0,
                self.tape@.len() <= self.tape_len,
                old(self).tape@.len() <= self.tape_len ==> old(self).tape@.len()
                    <= self.tape@.len(),
                old(self).tape@.len() > self.tape_len ==> self.tape@.len() == self.tape_len,
                forall|j: int|
                    0 <= j < old(self).tape@.len() && j < self.tape@.len() ==> self.tape@[j] == old(self).tape@[j],
                forall|j: int|
                    old(self).tape@.len() <= j < self.tape@.len() ==> self.tape@[j]
                        == Scalar::spec_zero(),
            decreases self.tape_len - self.tape@.len(),
        {
            self.tape.push(Scalar::zero());
        }
        assert(self.observations@ =~= Seq::<Scalar>::empty());
    }
}

/// Copies `len` values of the tape from `from` to `to`. The two ranges must
/// not overlap.
pub fn copy_region(tape: &mut Vec<Scalar>, from: usize, to: usize, len: usize)
    requires
        from + len <= old(tape)@.len(),
        to + len <= old(tape)@.len(),
        from + len <= to || to + len <= from,
    ensures
        final(tape)@ == spec_write(
            old(tape)@,
            to as int,
            spec_region(old(tape)@, from as int, len as int),
        ),
{
    let ghost tape_len = tape.len();
    let mut i: usize = 0;
    while i < len
        invariant
            tape_len == old(tape)@.len(),
            from + len <= old(tape)@.len(),
            to + len <= old(tape)@.len(),
            from + len <= to || to + len <= from,
            i <= len,
            tape@.len() == old(tape)@.len(),
            forall|j: int|
                0 <= j < tape@.len() ==> tape@[j] == if to <= j < to + i {
                    old(tape)@[j - to + from]
                } else {
                    old(tape)@[j]
                },
        decreases len - i,
    {
        let value = tape[from + i];
        tape[to + i] = value;
        i += 1;
    }
    assert(tape@ =~= spec_write(
        old(tape)@,
        to as int,
        spec_region(old(tape)@, from as int, len as int),
    ));
}

/// Writes `value` at each of the `len` positions from `offset` on.
pub fn fill_region(tape: &mut Vec<Scalar>, offset: usize, len: usize, value: Scalar)
    requires
        offset + len <= old(tape)@.len(),
    ensures
        final(tape)@ == spec_write(old(tape)@, offset as int, Seq::new(len as nat, |j: int| value)),
{
    let ghost tape_len = tape.len();
    let mut i: usize = 0;
    while i < len
        invariant
            tape_len == old(tape)@.len(),
            offset + len <= old(tape)@.len(),
            i <= len,
            tape@.len() == old(tape)@.len(),
            forall|j: int|
                0 <= j < tape@.len() ==> tape@[j] == if offset <= j < offset + i {
                    value
                } else {
                    old(tape)@[j]
                },
        decreases len - i,
    {
        tape[offset + i] = value;
        i += 1;
    }
    assert(tape@ =~= spec_write(old(tape)@, offset as int, Seq::new(len as nat, |j: int| value)));
}

/// Appends the `len` tape values from `offset` on to `observations`.
pub fn observe_region(tape: &Vec<Scalar>, offset: usize, len: usize, observations: &mut Vec<Scalar>)
    requires
        offset + len <= tape@.len(),
    ensures
        final(observations)@ == old(observations)@ + spec_region(tape@, offset as int, len as int),
{
    let ghost tape_len = tape.len();
    let mut i: usize = 0;
    while i < len
        invariant
            tape_len == tape@.len(),
            offset + len <= tape@.len(),
            i <= len,
            observations@ == old(observations)@ + spec_region(tape@, offset as int, i as int),
        decreases len - i,
    {
        observations.push(tape[offset + i]);
        i += 1;
        assert(observations@ =~= old(observations)@ + spec_region(
            tape@,
            offset as int,
            i as int,
        ));
    }
}

} // verus!
