//! The execution driver: runs "the rest of the chain" for whichever block
//! has just done its own forward computation.

use crate::feature_buffer::FeatureBuffer;
use crate::graph::BlockGraph;
use crate::port_buffer::PortBuffer;
use crate::port_buffer::TapeState;
use crate::port_buffer::spec_blank;
use crate::regressor::Block;
use crate::regressor::spec_all_placed;
use crate::scalar::Scalar;
use vstd::prelude::*;

verus! {

/// What running a chain does to a port buffer. The first block computes its
/// forward contribution, the rest of the chain runs on the result, and the
/// first block's backward step sees what the rest left behind.
pub open spec fn spec_run(blocks: Seq<Block>, s: TapeState, train: bool) -> TapeState
    decreases blocks.len(),
{
    if blocks.len() == 0 {
        s
    } else {
        blocks[0].spec_after(
            spec_run(blocks.skip(1), blocks[0].spec_before(s, train), train),
            train,
        )
    }
}

/// A chain writes nowhere but in the regions of its blocks, and never
/// changes the tape's length.
pub proof fn lemma_run_frame(blocks: Seq<Block>, s: TapeState, train: bool)
    requires
        spec_all_placed(blocks, s.tape.len()),
    ensures
        spec_run(blocks, s, train).tape.len() == s.tape.len(),
        forall|j: int|
            0 <= j < s.tape.len() && (forall|q: int|
                0 <= q < blocks.len() ==> !(#[trigger] blocks[q]).spec_owns(j))
                ==> #[trigger] spec_run(blocks, s, train).tape[j] == s.tape[j],
    decreases blocks.len(),
{
    if blocks.len() > 0 {
        let head = blocks[0];
        let rest = blocks.skip(1);
        let before = head.spec_before(s, train);
        let downstream = spec_run(rest, before, train);
        head.lemma_block_frame(s, train);
        assert forall|q: int| 0 <= q < rest.len() implies (#[trigger] rest[q]).spec_placed(
            before.tape.len(),
        ) by {
            assert(rest[q] == blocks[q + 1]);
        }
        lemma_run_frame(rest, before, train);
        head.lemma_block_frame(downstream, train);
        assert forall|j: int|
            0 <= j < s.tape.len() && (forall|q: int|
                0 <= q < blocks.len() ==> !(#[trigger] blocks[q]).spec_owns(j))
            implies #[trigger] spec_run(blocks, s, train).tape[j] == s.tape[j] by {
            assert(!blocks[0].spec_owns(j));
            assert forall|q: int| 0 <= q < rest.len() implies !(#[trigger] rest[q]).spec_owns(j) by {
                assert(rest[q] == blocks[q + 1]);
            }
            assert(downstream.tape[j] == before.tape[j]);
        }
    }
}

/// A run never drops an observation.
pub proof fn lemma_observations_grow(blocks: Seq<Block>, s: TapeState, train: bool)
    ensures
        spec_run(blocks, s, train).observations.len() >= s.observations.len(),
    decreases blocks.len(),
{
    if blocks.len() > 0 {
        lemma_observations_grow(blocks.skip(1), blocks[0].spec_before(s, train), train);
    }
}

/// A chain with a probe of non-zero width records something on every run.
pub proof fn lemma_probe_records(blocks: Seq<Block>, s: TapeState, train: bool, p: int)
    requires
        0 <= p < blocks.len(),
        blocks[p] is Observe,
        blocks[p]->Observe_0.num_inputs > 0,
        spec_all_placed(blocks, s.tape.len()),
    ensures
        spec_run(blocks, s, train).observations.len() > s.observations.len(),
    decreases p,
{
    let head = blocks[0];
    let rest = blocks.skip(1);
    let before = head.spec_before(s, train);
    head.lemma_block_frame(s, train);
    assert forall|q: int| 0 <= q < rest.len() implies (#[trigger] rest[q]).spec_placed(
        before.tape.len(),
    ) by {
        assert(rest[q] == blocks[q + 1]);
    }
    lemma_run_frame(rest, before, train);
    if p == 0 {
        lemma_observations_grow(rest, before, train);
    } else {
        assert(rest[p - 1] == blocks[p]);
        lemma_probe_records(rest, before, train, p - 1);
    }
}

/// Runs the chain forward. An empty chain does nothing.
pub fn forward(further_blocks: &[Block], fb: &FeatureBuffer, pb: &mut PortBuffer)
    requires
        spec_all_placed(further_blocks@, old(pb).tape@.len()),
    ensures
        final(pb).tape_len == old(pb).tape_len,
        final(pb).tape@.len() == old(pb).tape@.len(),
        final(pb)@ == spec_run(further_blocks@, old(pb)@, false),
    decreases further_blocks@.len(), 0int,
{
    if further_blocks.len() > 0 {
        let (head, rest) = further_blocks.split_at(1);
        assert(rest@ =~= further_blocks@.skip(1));
        assert(head@[0] == further_blocks@[0]);
        assert forall|i: int| 0 <= i < rest@.len() implies (#[trigger] rest@[i]).spec_placed(
            old(pb).tape@.len(),
        ) by {
            assert(rest@[i] == further_blocks@[i + 1]);
        }
        head[0].forward(rest, fb, pb);
    }
}

/// Runs the chain forward and then backward. An empty chain does nothing.
/// No block of the chain is changed.
pub fn forward_backward(
    further_blocks: &mut [Block],
    fb: &FeatureBuffer,
    pb: &mut PortBuffer,
    update: bool,
)
    requires
        spec_all_placed(old(further_blocks)@, old(pb).tape@.len()),
    ensures
        final(further_blocks)@ == old(further_blocks)@,
        final(pb).tape_len == old(pb).tape_len,
        final(pb).tape@.len() == old(pb).tape@.len(),
        final(pb)@ == spec_run(old(further_blocks)@, old(pb)@, true),
    decreases old(further_blocks)@.len(), 0int,
{
    if further_blocks.len() > 0 {
        let (head, rest) = further_blocks.split_at_mut(1);
        assert(rest@ =~= old(further_blocks)@.skip(1));
        assert(head@[0] == old(further_blocks)@[0]);
        assert forall|i: int| 0 <= i < rest@.len() implies (#[trigger] rest@[i]).spec_placed(
            old(pb).tape@.len(),
        ) by {
            assert(rest@[i] == old(further_blocks)@[i + 1]);
        }
        head[0].forward_backward(rest, fb, pb, update);
        assert(further_blocks@ =~= old(further_blocks)@);
    }
}

/// One training call on a finalized graph: the buffer is reset, the whole
/// chain runs forward and backward, and the first observation is returned.
/// What the tape held before the call has no part in the outcome: it is what
/// the run leaves on a blank tape. The graph must hold a probe that records
/// something.
pub fn slearn2(bg: &mut BlockGraph, fb: &FeatureBuffer, pb: &mut PortBuffer, update: bool) -> (r:
    Scalar)
    requires
        old(bg).wf(),
        old(bg).spec_is_finalized(),
        old(pb).tape_len == old(bg).tape_size,
        old(bg).spec_learn().observations.len() > 0,
    ensures
        final(bg)@ == old(bg)@,
        final(pb).tape_len == old(pb).tape_len,
        final(pb)@ == old(bg).spec_learn(),
        r == old(bg).spec_learn().observations[0],
{
    pb.reset();
    proof {
        bg.lemma_blocks_placed();
        bg.lemma_run_is_determined(pb@, spec_blank(bg.tape_size as nat), true);
    }
    forward_backward(bg.blocks.as_mut_slice(), fb, pb, update);
    pb.observations[0]
}

/// One prediction on a finalized graph: the buffer is reset, the whole chain
/// runs forward, and the first observation is returned. What the tape held
/// before the call has no part in the outcome: it is what the run leaves on
/// a blank tape, the same bits on every call. The graph must hold a probe
/// that records something.
pub fn spredict2(bg: &BlockGraph, fb: &FeatureBuffer, pb: &mut PortBuffer) -> (r: Scalar)
    requires
        bg.wf(),
        bg.spec_is_finalized(),
        old(pb).tape_len == bg.tape_size,
        bg.spec_predict().observations.len() > 0,
    ensures
        final(pb).tape_len == old(pb).tape_len,
        final(pb)@ == bg.spec_predict(),
        r == bg.spec_predict().observations[0],
{
    pb.reset();
    proof {
        bg.lemma_blocks_placed();
        bg.lemma_run_is_determined(pb@, spec_blank(bg.tape_size as nat), false);
    }
    forward(bg.blocks.as_slice(), fb, pb);
    pb.observations[0]
}

} // verus!
