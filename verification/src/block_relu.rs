//! The rectifier: an elementwise activation without parameters.

use crate::block_helpers;
use crate::block_helpers::spec_run;
use crate::feature_buffer::FeatureBuffer;
use crate::graph::BlockGraph;
use crate::graph::BlockPtrOutput;
use crate::graph::GraphError;
use crate::graph::InputSlot;
use crate::graph::OutputSlot;
use crate::model_instance::ModelInstance;
use crate::port_buffer::PortBuffer;
use crate::port_buffer::TapeState;
use crate::port_buffer::spec_write;
use crate::regressor::Block;
use crate::regressor::spec_all_placed;
use crate::scalar::Scalar;
use vstd::prelude::*;

verus! {

/// An elementwise rectifier over `num_inputs` values. Before finalize both
/// offsets hold `usize::MAX`, which stands for "not yet assigned".
pub struct BlockRELU {
    pub num_inputs: usize,
    pub input_offset: usize,
    pub output_offset: usize,
}

/// Registers a rectifier that consumes `input` and is as wide as it. The call
/// is refused, and the graph left as it was, exactly when `add_node` refuses
/// the handle: the graph is finalized, or the handle names no output of this
/// graph, an output that is taken, or an output of zero width.
pub fn new_relu_block(bg: &mut BlockGraph, mi: &ModelInstance, input: BlockPtrOutput) -> (r: Result<
    BlockPtrOutput,
    GraphError,
>)
    requires
        old(bg).wf(),
    ensures
        final(bg).wf(),
        match r {
            Err(e) => {
                &&& *final(bg) == *old(bg)
                &&& old(bg).spec_add_node_fault(seq![input]) == Some(e)
            },
            Ok(output) => {
                &&& old(bg).spec_add_node_fault(seq![input]) is None
                &&& final(bg).spec_extends(
                    *old(bg),
                    Block::Relu(
                        BlockRELU {
                            num_inputs: old(
                                bg,
                            ).spec_shapes()[input.spec_node_id()][input.spec_output_index()] as usize,
                            input_offset: usize::MAX,
                            output_offset: usize::MAX,
                        },
                    ),
                    seq![input],
                )
                &&& output.spec_node_id() == old(bg).spec_len()
                &&& output.spec_output_index() == 0
            },
        },
{
    if bg.is_finalized() {
        return Err(GraphError::Finalized);
    }
    let mut probe: Vec<&BlockPtrOutput> = Vec::new();
    probe.push(&input);
    let width = bg.get_num_output_values(probe);
    proof {
        let p = input.spec_node_id();
        let k = input.spec_output_index();
        assert(bg.spec_widths_sum(seq![&input], 1) == bg.spec_shapes()[p][k]) by {
            assert(bg.spec_widths_sum(seq![&input], 0) == 0);
        }
        if bg.spec_has_output(input.spec_node_id(), input.spec_output_index()) {
            bg.blocks@[input.spec_node_id()].lemma_widths_fit();
        }
    }
    let num_inputs = match width {
        Ok(num_inputs) => num_inputs,
        Err(e) => {
            return Err(e);
        },
    };
    let block = BlockRELU { num_inputs, input_offset: usize::MAX, output_offset: usize::MAX };
    let mut inputs: Vec<BlockPtrOutput> = Vec::new();
    inputs.push(input);
    assert(inputs@ =~= seq![input]);
    match bg.add_node(Block::Relu(block), inputs) {
        Err(e) => Err(e),
        Ok(mut block_outputs) => {
            let output = block_outputs.pop();
            Ok(output.unwrap())
        },
    }
}

/// What the rectifier computes, value by value. On the way forward the
/// output is `max(x, 0)` of the input `x`. On the way back, the input region
/// receives the gradient that the rest of the chain left in the output
/// region where `x >= 0`, and zero elsewhere. This holds whenever no later
/// block of the chain has a region at that input position, as is the case
/// in a finalized graph.
pub proof fn lemma_relu_values(relu: BlockRELU, rest: Seq<Block>, s: TapeState, i: int)
    requires
        relu.spec_placed(s.tape.len()),
        spec_all_placed(rest, s.tape.len()),
        0 <= i < relu.num_inputs,
        forall|q: int|
            0 <= q < rest.len() ==> !(#[trigger] rest[q]).spec_owns(relu.input_offset + i),
    ensures
        ({
            let x = s.tape[relu.input_offset + i];
            let before = relu.spec_before(s, true);
            let downstream = spec_run(rest, before, true);
            let after = relu.spec_after(downstream, true);
            &&& after == spec_run(seq![Block::Relu(relu)] + rest, s, true)
            &&& relu.spec_before(s, false).tape[relu.output_offset + i] == x.spec_rectified()
            &&& before.tape[relu.output_offset + i] == x.spec_rectified()
            &&& after.tape[relu.input_offset + i] == if x.spec_is_non_negative() {
                downstream.tape[relu.output_offset + i]
            } else {
                Scalar::spec_zero()
            }
        }),
{
    let chain = seq![Block::Relu(relu)] + rest;
    let before = relu.spec_before(s, true);
    assert(chain.skip(1) =~= rest);
    assert(chain[0] == Block::Relu(relu));
    Block::Relu(relu).lemma_block_frame(s, true);
    block_helpers::lemma_run_frame(rest, before, true);
}

/// The same, for a rectifier that stands at position `p` of a finalized
/// graph: there the layout keeps every later block away from the rectifier's
/// input region, so the gradient law holds without further conditions.
pub proof fn lemma_relu_values_in_graph(bg: BlockGraph, p: int, s: TapeState, i: int)
    requires
        bg.wf(),
        bg.spec_is_finalized(),
        0 <= p < bg.spec_len(),
        bg.blocks@[p] is Relu,
        s.tape.len() == bg.tape_size,
        0 <= i < bg.blocks@[p]->Relu_0.num_inputs,
    ensures
        ({
            let relu = bg.blocks@[p]->Relu_0;
            let rest = bg.blocks@.skip(p + 1);
            let x = s.tape[relu.input_offset + i];
            let before = relu.spec_before(s, true);
            let downstream = spec_run(rest, before, true);
            let after = spec_run(bg.blocks@.skip(p), s, true);
            &&& before.tape[relu.output_offset + i] == x.spec_rectified()
            &&& after.tape[relu.input_offset + i] == if x.spec_is_non_negative() {
                downstream.tape[relu.output_offset + i]
            } else {
                Scalar::spec_zero()
            }
        }),
{
    let relu = bg.blocks@[p]->Relu_0;
    let rest = bg.blocks@.skip(p + 1);
    bg.lemma_blocks_placed();
    assert(bg.blocks@[p].spec_placed(bg.tape_size as nat));
    assert forall|q: int| 0 <= q < rest.len() implies (#[trigger] rest[q]).spec_placed(
        s.tape.len(),
    ) && !rest[q].spec_owns(relu.input_offset + i) by {
        assert(rest[q] == bg.blocks@[p + 1 + q]);
        assert(bg.blocks@[p].spec_in_input(0, relu.input_offset + i));
        bg.lemma_later_blocks_leave_inputs(p, 0, p + 1 + q, relu.input_offset + i);
    }
    lemma_relu_values(relu, rest, s, i);
    assert(seq![Block::Relu(relu)] + rest =~= bg.blocks@.skip(p));
}

impl BlockRELU {
    /// Both regions lie on a tape of `tape_len` values and do not overlap.
    pub open spec fn spec_placed(&self, tape_len: nat) -> bool {
        &&& self.input_offset + self.num_inputs <= tape_len
        &&& self.output_offset + self.num_inputs <= tape_len
        &&& (self.input_offset + self.num_inputs <= self.output_offset || self.output_offset
            + self.num_inputs <= self.input_offset)
    }

    /// The rectified input region.
    pub open spec fn spec_rectified_input(&self, tape: Seq<Scalar>) -> Seq<Scalar> {
        Seq::new(
            self.num_inputs as nat,
            |i: int| tape[self.input_offset + i].spec_rectified(),
        )
    }

    /// The derivative mask of the input region.
    pub open spec fn spec_input_mask(&self, tape: Seq<Scalar>) -> Seq<Scalar> {
        Seq::new(
            self.num_inputs as nat,
            |i: int| tape[self.input_offset + i].spec_rectifier_mask(),
        )
    }

    /// The gradient in the output region, seen through the mask in the input
    /// region.
    pub open spec fn spec_gated_gradient(&self, tape: Seq<Scalar>) -> Seq<Scalar> {
        Seq::new(
            self.num_inputs as nat,
            |i: int| tape[self.input_offset + i].spec_gated(tape[self.output_offset + i]),
        )
    }

    /// The tape after the block's own forward computation. When training,
    /// the input region is also overwritten with the derivative mask.
    pub open spec fn spec_before(&self, s: TapeState, train: bool) -> TapeState {
        let forward = spec_write(s.tape, self.output_offset as int, self.spec_rectified_input(s.tape));
        TapeState {
            tape: if train {
                spec_write(forward, self.input_offset as int, self.spec_input_mask(s.tape))
            } else {
                forward
            },
            observations: s.observations,
        }
    }

    /// The tape after the block's backward step, which runs once everything
    /// downstream has returned: the input region holds the gradient for the
    /// block upstream.
    pub open spec fn spec_after(&self, s: TapeState, train: bool) -> TapeState {
        TapeState {
            tape: if train {
                spec_write(s.tape, self.input_offset as int, self.spec_gated_gradient(s.tape))
            } else {
                s.tape
            },
            observations: s.observations,
        }
    }

    /// The rectifier has no weights: nothing is allocated and the block is
    /// unchanged.
    pub fn allocate_and_init_weights(&mut self, mi: &ModelInstance)
        ensures
            *final(self) == *old(self),
    {
    }

    pub fn get_num_output_slots(&self) -> (r: usize)
        ensures
            r == 1,
    {
        1
    }

    pub fn get_num_output_values(&self, output: OutputSlot) -> (r: usize)
        requires
            output.0 == 0,
        ensures
            r == self.num_inputs,
    {
        self.num_inputs
    }

    /// Assigns the input region. Finalize does this once; the offset must
    /// not have been assigned before.
    pub fn set_input_offset(&mut self, input: InputSlot, offset: usize)
        requires
            input.0 == 0,
            old(self).input_offset == usize::MAX,
        ensures
            *final(self) == (BlockRELU { input_offset: offset, ..*old(self) }),
    {
        self.input_offset = offset;
    }

    /// Assigns the output region. Finalize does this once; the offset must
    /// not have been assigned before.
    pub fn set_output_offset(&mut self, output: OutputSlot, offset: usize)
        requires
            output.0 == 0,
            old(self).output_offset == usize::MAX,
        ensures
            *final(self) == (BlockRELU { output_offset: offset, ..*old(self) }),
    {
        self.output_offset = offset;
    }

    /// Forward and backward in one call. The output region receives
    /// `max(input, 0)` and the input region the derivative mask; the rest of
    /// the chain then runs, forward and backward; on its return the mask is
    /// replaced by the gradient that now sits in the output region, gated by
    /// the mask. The block has no weights, so it is the same after the call
    /// whatever `update` says.
    pub fn forward_backward(
        &mut self,
        further_blocks: &mut [Block],
        fb: &FeatureBuffer,
        pb: &mut PortBuffer,
        update: bool,
    )
        requires
            old(self).spec_placed(old(pb).tape@.len()),
            spec_all_placed(old(further_blocks)@, old(pb).tape@.len()),
        ensures
            *final(self) == *old(self),
            final(further_blocks)@ == old(further_blocks)@,
            final(pb).tape_len == old(pb).tape_len,
            final(pb).tape@.len() == old(pb).tape@.len(),
            final(pb)@ == old(self).spec_after(
                spec_run(old(further_blocks)@, old(self).spec_before(old(pb)@, true), true),
                true,
            ),
        decreases old(further_blocks)@.len(), 1int,
    {
        let ghost tape_len = pb.tape.len();
        let mut i: usize = 0;
        while i < self.num_inputs
            invariant
                *self == *old(self),
                self.spec_placed(tape_len as nat),
                tape_len == old(pb).tape@.len(),
                pb.tape@.len() == tape_len,
                pb.tape_len == old(pb).tape_len,
                pb.observations@ == old(pb).observations@,
                i <= self.num_inputs,
                forall|j: int|
                    0 <= j < tape_len ==> pb.tape@[j] == if self.output_offset <= j
                        < self.output_offset + i {
                        old(pb).tape@[j - self.output_offset + self.input_offset].spec_rectified()
                    } else if self.input_offset <= j < self.input_offset + i {
                        old(pb).tape@[j].spec_rectifier_mask()
                    } else {
                        old(pb).tape@[j]
                    },
            decreases self.num_inputs - i,
        {
            let w = pb.tape[self.input_offset + i];
            pb.tape[self.output_offset + i] = w.rectified();
            pb.tape[self.input_offset + i] = w.rectifier_mask();
            i += 1;
        }
        assert(pb@.tape =~= self.spec_before(old(pb)@, true).tape);

        block_helpers::forward_backward(further_blocks, fb, pb, update);

        let ghost mid = pb.tape@;
        let mut i: usize = 0;
        while i < self.num_inputs
            invariant
                *self == *old(self),
                self.spec_placed(tape_len as nat),
                mid.len() == tape_len,
                pb.tape@.len() == tape_len,
                pb.tape_len == old(pb).tape_len,
                pb.observations@ == spec_run(
                    old(further_blocks)@,
                    old(self).spec_before(old(pb)@, true),
                    true,
                ).observations,
                i <= self.num_inputs,
                forall|j: int|
                    0 <= j < tape_len ==> pb.tape@[j] == if self.input_offset <= j
                        < self.input_offset + i {
                        mid[j].spec_gated(mid[j - self.input_offset + self.output_offset])
                    } else {
                        mid[j]
                    },
            decreases self.num_inputs - i,
        {
            let gradient = pb.tape[self.output_offset + i];
            let mask = pb.tape[self.input_offset + i];
            pb.tape[self.input_offset + i] = mask.gated(gradient);
            i += 1;
        }
        assert(pb.tape@ =~= spec_write(
            mid,
            self.input_offset as int,
            self.spec_gated_gradient(mid),
        ));
    }

    /// Forward only: the output region receives `max(input, 0)`, then the
    /// rest of the chain runs.
    pub fn forward(&self, further_blocks: &[Block], fb: &FeatureBuffer, pb: &mut PortBuffer)
        requires
            self.spec_placed(old(pb).tape@.len()),
            spec_all_placed(further_blocks@, old(pb).tape@.len()),
        ensures
            final(pb).tape_len == old(pb).tape_len,
            final(pb).tape@.len() == old(pb).tape@.len(),
            final(pb)@ == self.spec_after(
                spec_run(further_blocks@, self.spec_before(old(pb)@, false), false),
                false,
            ),
        decreases further_blocks@.len(), 1int,
    {
        let ghost tape_len = pb.tape.len();
        let mut i: usize = 0;
        while i < self.num_inputs
            invariant
                self.spec_placed(tape_len as nat),
                tape_len == old(pb).tape@.len(),
                pb.tape@.len() == tape_len,
                pb.tape_len == old(pb).tape_len,
                pb.observations@ == old(pb).observations@,
                i <= self.num_inputs,
                forall|j: int|
                    0 <= j < tape_len ==> pb.tape@[j] == if self.output_offset <= j
                        < self.output_offset + i {
                        old(pb).tape@[j - self.output_offset + self.input_offset].spec_rectified()
                    } else {
                        old(pb).tape@[j]
                    },
            decreases self.num_inputs - i,
        {
            let w = pb.tape[self.input_offset + i];
            pb.tape[self.output_offset + i] = w.rectified();
            i += 1;
        }
        assert(pb@.tape =~= self.spec_before(old(pb)@, false).tape);

        block_helpers::forward(further_blocks, fb, pb);
    }
}

} // verus!
