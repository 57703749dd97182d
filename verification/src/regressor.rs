//! The capability set that every block variant implements, and the closed
//! set of variants.

use crate::block_misc::BlockConsts;
use crate::block_misc::BlockObserve;
use crate::block_relu::BlockRELU;
use crate::feature_buffer::FeatureBuffer;
use crate::graph::InputSlot;
use crate::graph::OutputSlot;
use crate::model_instance::ModelInstance;
use crate::port_buffer::PortBuffer;
use crate::port_buffer::TapeState;
use crate::port_buffer::spec_region;
use vstd::prelude::*;

verus! {

/// A node of the graph.
pub enum Block {
    Consts(BlockConsts),
    Relu(BlockRELU),
    Observe(BlockObserve),
}

/// Every block of the chain has its regions on a tape of `tape_len` values.
pub open spec fn spec_all_placed(blocks: Seq<Block>, tape_len: nat) -> bool {
    forall|i: int| 0 <= i < blocks.len() ==> (#[trigger] blocks[i]).spec_placed(tape_len)
}

impl Block {
    pub open spec fn spec_placed(&self, tape_len: nat) -> bool {
        match self {
            Block::Consts(b) => b.spec_placed(tape_len),
            Block::Relu(b) => b.spec_placed(tape_len),
            Block::Observe(b) => b.spec_placed(tape_len),
        }
    }

    /// The state after the block's own forward computation, before the rest
    /// of the chain runs.
    pub open spec fn spec_before(&self, s: TapeState, train: bool) -> TapeState {
        match self {
            Block::Consts(b) => b.spec_before(s, train),
            Block::Relu(b) => b.spec_before(s, train),
            Block::Observe(b) => b.spec_before(s, train),
        }
    }

    /// The state after the block's backward step, given the state that the
    /// rest of the chain left.
    pub open spec fn spec_after(&self, s: TapeState, train: bool) -> TapeState {
        match self {
            Block::Consts(b) => b.spec_after(s, train),
            Block::Relu(b) => b.spec_after(s, train),
            Block::Observe(b) => b.spec_after(s, train),
        }
    }

    /// The width of each output slot.
    pub open spec fn spec_output_widths(&self) -> Seq<nat> {
        match self {
            Block::Consts(b) => seq![b.consts@.len()],
            Block::Relu(b) => seq![b.num_inputs as nat],
            Block::Observe(b) => seq![b.num_inputs as nat],
        }
    }

    /// The width that the block expects of each input slot.
    pub open spec fn spec_input_widths(&self) -> Seq<nat> {
        match self {
            Block::Consts(b) => Seq::empty(),
            Block::Relu(b) => seq![b.num_inputs as nat],
            Block::Observe(b) => seq![b.num_inputs as nat],
        }
    }

    /// The tape offset of each output slot.
    pub open spec fn spec_output_offsets(&self) -> Seq<usize> {
        match self {
            Block::Consts(b) => seq![b.output_offset],
            Block::Relu(b) => seq![b.output_offset],
            Block::Observe(b) => seq![b.output_offset],
        }
    }

    /// The tape offset of each input slot.
    pub open spec fn spec_input_offsets(&self) -> Seq<usize> {
        match self {
            Block::Consts(b) => Seq::empty(),
            Block::Relu(b) => seq![b.input_offset],
            Block::Observe(b) => seq![b.input_offset],
        }
    }

    /// The block with every offset back at `usize::MAX`, "not yet assigned".
    pub open spec fn spec_unplaced(&self) -> Block {
        match self {
            Block::Consts(b) => Block::Consts(BlockConsts { output_offset: usize::MAX, ..*b }),
            Block::Relu(b) => Block::Relu(
                BlockRELU { input_offset: usize::MAX, output_offset: usize::MAX, ..*b },
            ),
            Block::Observe(b) => Block::Observe(
                BlockObserve { input_offset: usize::MAX, output_offset: usize::MAX, ..*b },
            ),
        }
    }

    /// No offset of the block has been assigned yet.
    pub open spec fn spec_is_unplaced(&self) -> bool {
        *self == self.spec_unplaced()
    }

    /// The block with the offset of one input slot set.
    pub open spec fn spec_with_input_offset(&self, slot: int, offset: usize) -> Block {
        match self {
            Block::Consts(b) => *self,
            Block::Relu(b) => Block::Relu(BlockRELU { input_offset: offset, ..*b }),
            Block::Observe(b) => Block::Observe(BlockObserve { input_offset: offset, ..*b }),
        }
    }

    /// The block with the offset of one output slot set.
    pub open spec fn spec_with_output_offset(&self, slot: int, offset: usize) -> Block {
        match self {
            Block::Consts(b) => Block::Consts(BlockConsts { output_offset: offset, ..*b }),
            Block::Relu(b) => Block::Relu(BlockRELU { output_offset: offset, ..*b }),
            Block::Observe(b) => Block::Observe(BlockObserve { output_offset: offset, ..*b }),
        }
    }

    /// Setting one input offset changes that offset and nothing else.
    pub proof fn lemma_with_input_offset(&self, slot: int, offset: usize)
        requires
            0 <= slot < self.spec_input_widths().len(),
        ensures
            self.spec_with_input_offset(slot, offset).spec_input_offsets()
                == self.spec_input_offsets().update(slot, offset),
            self.spec_with_input_offset(slot, offset).spec_output_offsets()
                == self.spec_output_offsets(),
            self.spec_with_input_offset(slot, offset).spec_input_widths()
                == self.spec_input_widths(),
            self.spec_with_input_offset(slot, offset).spec_output_widths()
                == self.spec_output_widths(),
            self.spec_with_input_offset(slot, offset).spec_unplaced() == self.spec_unplaced(),
    {
        assert(self.spec_with_input_offset(slot, offset).spec_input_offsets()
            =~= self.spec_input_offsets().update(slot, offset));
    }

    /// Setting one output offset changes that offset and nothing else.
    pub proof fn lemma_with_output_offset(&self, slot: int, offset: usize)
        requires
            0 <= slot < self.spec_output_widths().len(),
        ensures
            self.spec_with_output_offset(slot, offset).spec_output_offsets()
                == self.spec_output_offsets().update(slot, offset),
            self.spec_with_output_offset(slot, offset).spec_input_offsets()
                == self.spec_input_offsets(),
            self.spec_with_output_offset(slot, offset).spec_input_widths()
                == self.spec_input_widths(),
            self.spec_with_output_offset(slot, offset).spec_output_widths()
                == self.spec_output_widths(),
            self.spec_with_output_offset(slot, offset).spec_unplaced() == self.spec_unplaced(),
    {
        assert(self.spec_with_output_offset(slot, offset).spec_output_offsets()
            =~= self.spec_output_offsets().update(slot, offset));
    }

    /// A block without offsets holds `usize::MAX` in every offset.
    pub proof fn lemma_unplaced_offsets(&self)
        requires
            self.spec_is_unplaced(),
        ensures
            forall|m: int|
                0 <= m < self.spec_input_offsets().len() ==> #[trigger] self.spec_input_offsets()[m]
                    == usize::MAX,
            forall|k: int|
                0 <= k < self.spec_output_offsets().len()
                    ==> #[trigger] self.spec_output_offsets()[k] == usize::MAX,
    {
    }

    /// Taking the offsets away leaves the widths as they are.
    pub proof fn lemma_unplaced_widths(&self)
        ensures
            self.spec_unplaced().spec_input_widths() == self.spec_input_widths(),
            self.spec_unplaced().spec_output_widths() == self.spec_output_widths(),
            self.spec_input_offsets().len() == self.spec_input_widths().len(),
            self.spec_output_offsets().len() == self.spec_output_widths().len(),
    {
    }

    /// Every width is a machine integer.
    pub proof fn lemma_widths_fit(&self)
        ensures
            forall|k: int|
                0 <= k < self.spec_output_widths().len() ==> #[trigger] self.spec_output_widths()[k]
                    <= usize::MAX,
    {
        match self {
            Block::Consts(b) => {
                assert(b.consts@.len() == b.consts.len());
            },
            Block::Relu(b) => {},
            Block::Observe(b) => {},
        }
    }

    /// Tape position `j` lies in the region of output slot `k`.
    pub open spec fn spec_in_output(&self, k: int, j: int) -> bool {
        &&& 0 <= k < self.spec_output_widths().len()
        &&& self.spec_output_offsets()[k] <= j < self.spec_output_offsets()[k]
            + self.spec_output_widths()[k]
    }

    /// Tape position `j` lies in the region of input slot `m`.
    pub open spec fn spec_in_input(&self, m: int, j: int) -> bool {
        &&& 0 <= m < self.spec_input_widths().len()
        &&& self.spec_input_offsets()[m] <= j < self.spec_input_offsets()[m]
            + self.spec_input_widths()[m]
    }

    /// Tape position `j` lies in one of the block's regions.
    pub open spec fn spec_owns(&self, j: int) -> bool {
        ||| exists|k: int| self.spec_in_output(k, j)
        ||| exists|m: int| self.spec_in_input(m, j)
    }

    /// A block writes nowhere but in its own regions, neither on the way
    /// forward nor on the way back, and never changes the tape's length.
    pub proof fn lemma_block_frame(&self, s: TapeState, train: bool)
        requires
            self.spec_placed(s.tape.len()),
        ensures
            self.spec_before(s, train).tape.len() == s.tape.len(),
            self.spec_after(s, train).tape.len() == s.tape.len(),
            forall|j: int|
                0 <= j < s.tape.len() && !self.spec_owns(j) ==> #[trigger] self.spec_before(
                    s,
                    train,
                ).tape[j] == s.tape[j],
            forall|j: int|
                0 <= j < s.tape.len() && !self.spec_owns(j) ==> #[trigger] self.spec_after(
                    s,
                    train,
                ).tape[j] == s.tape[j],
    {
        assert forall|j: int| 0 <= j < s.tape.len() && !self.spec_owns(j) implies #[trigger] self.spec_before(
            s,
            train,
        ).tape[j] == s.tape[j] by {
            assert(!self.spec_in_output(0, j));
            assert(!self.spec_in_input(0, j));
        }
        assert forall|j: int| 0 <= j < s.tape.len() && !self.spec_owns(j) implies #[trigger] self.spec_after(
            s,
            train,
        ).tape[j] == s.tape[j] by {
            assert(!self.spec_in_output(0, j));
            assert(!self.spec_in_input(0, j));
        }
    }

    /// What a block computes depends on its inputs alone. Let two tapes agree
    /// below `lo`, let the block's inputs lie below `lo` and let its output
    /// be `lo .. hi`. Then after the block's forward step the tapes agree
    /// below `hi`, and the block has recorded the same on both.
    pub proof fn lemma_before_is_determined(
        &self,
        first: TapeState,
        second: TapeState,
        train: bool,
        lo: int,
        hi: int,
    )
        requires
            first.tape.len() == second.tape.len(),
            self.spec_placed(first.tape.len()),
            first.observations == second.observations,
            0 <= lo <= hi,
            forall|j: int| 0 <= j < lo ==> first.tape[j] == second.tape[j],
            forall|m: int|
                0 <= m < self.spec_input_widths().len() ==> #[trigger] self.spec_input_offsets()[m]
                    + self.spec_input_widths()[m] <= lo,
            self.spec_output_offsets()[0] == lo,
            self.spec_output_widths()[0] == hi - lo,
        ensures
            self.spec_before(first, train).tape.len() == first.tape.len(),
            self.spec_before(second, train).tape.len() == first.tape.len(),
            self.spec_before(first, train).observations == self.spec_before(
                second,
                train,
            ).observations,
            forall|j: int|
                0 <= j < hi ==> self.spec_before(first, train).tape[j] == self.spec_before(
                    second,
                    train,
                ).tape[j],
    {
        match self {
            Block::Consts(b) => {},
            Block::Relu(b) => {
                assert(self.spec_input_offsets()[0] + self.spec_input_widths()[0] <= lo);
            },
            Block::Observe(b) => {
                assert(self.spec_input_offsets()[0] + self.spec_input_widths()[0] <= lo);
                assert(spec_region(first.tape, b.input_offset as int, b.num_inputs as int)
                    =~= spec_region(second.tape, b.input_offset as int, b.num_inputs as int));
            },
        }
    }

    /// Lets the block allocate its weights. No variant of this set has any,
    /// so the block is unchanged.
    pub fn allocate_and_init_weights(&mut self, mi: &ModelInstance)
        ensures
            *final(self) == *old(self),
    {
        match self {
            Block::Consts(b) => b.allocate_and_init_weights(mi),
            Block::Relu(b) => b.allocate_and_init_weights(mi),
            Block::Observe(b) => b.allocate_and_init_weights(mi),
        }
    }

    pub fn get_num_output_slots(&self) -> (r: usize)
        ensures
            r == self.spec_output_widths().len(),
    {
        match self {
            Block::Consts(b) => b.get_num_output_slots(),
            Block::Relu(b) => b.get_num_output_slots(),
            Block::Observe(b) => b.get_num_output_slots(),
        }
    }

    pub fn get_num_output_values(&self, output: OutputSlot) -> (r: usize)
        requires
            output.0 < self.spec_output_widths().len(),
        ensures
            r == self.spec_output_widths()[output.0 as int],
    {
        match self {
            Block::Consts(b) => b.get_num_output_values(output),
            Block::Relu(b) => b.get_num_output_values(output),
            Block::Observe(b) => b.get_num_output_values(output),
        }
    }

    pub fn get_num_input_slots(&self) -> (r: usize)
        ensures
            r == self.spec_input_widths().len(),
    {
        match self {
            Block::Consts(b) => 0,
            Block::Relu(b) => 1,
            Block::Observe(b) => 1,
        }
    }

    pub fn get_num_input_values(&self, input: InputSlot) -> (r: usize)
        requires
            input.0 < self.spec_input_widths().len(),
        ensures
            r == self.spec_input_widths()[input.0 as int],
    {
        match self {
            Block::Consts(b) => 0,
            Block::Relu(b) => b.num_inputs,
            Block::Observe(b) => b.num_inputs,
        }
    }

    pub fn get_output_offset(&self, output: OutputSlot) -> (r: usize)
        requires
            output.0 < self.spec_output_widths().len(),
        ensures
            r == self.spec_output_offsets()[output.0 as int],
    {
        match self {
            Block::Consts(b) => b.output_offset,
            Block::Relu(b) => b.output_offset,
            Block::Observe(b) => b.output_offset,
        }
    }

    pub fn get_input_offset(&self, input: InputSlot) -> (r: usize)
        requires
            input.0 < self.spec_input_widths().len(),
        ensures
            r == self.spec_input_offsets()[input.0 as int],
    {
        match self {
            Block::Consts(b) => usize::MAX,
            Block::Relu(b) => b.input_offset,
            Block::Observe(b) => b.input_offset,
        }
    }

    /// Whether no offset of the block has been assigned yet.
    pub fn is_unplaced(&self) -> (r: bool)
        ensures
            r == self.spec_is_unplaced(),
    {
        match self {
            Block::Consts(b) => b.output_offset == usize::MAX,
            Block::Relu(b) => b.input_offset == usize::MAX && b.output_offset == usize::MAX,
            Block::Observe(b) => b.input_offset == usize::MAX && b.output_offset == usize::MAX,
        }
    }

    /// Assigns the tape offset of one input slot. Finalize calls this once
    /// for each slot; the offset must not have been assigned before.
    pub fn set_input_offset(&mut self, input: InputSlot, offset: usize)
        requires
            input.0 < old(self).spec_input_widths().len(),
            old(self).spec_input_offsets()[input.0 as int] == usize::MAX,
        ensures
            *final(self) == old(self).spec_with_input_offset(input.0 as int, offset),
    {
        match self {
            Block::Consts(b) => {},
            Block::Relu(b) => b.set_input_offset(input, offset),
            Block::Observe(b) => b.set_input_offset(input, offset),
        }
    }

    /// Assigns the tape offset of one output slot. Finalize calls this once
    /// for each slot; the offset must not have been assigned before.
    pub fn set_output_offset(&mut self, output: OutputSlot, offset: usize)
        requires
            output.0 < old(self).spec_output_widths().len(),
            old(self).spec_output_offsets()[output.0 as int] == usize::MAX,
        ensures
            *final(self) == old(self).spec_with_output_offset(output.0 as int, offset),
    {
        match self {
            Block::Consts(b) => b.set_output_offset(output, offset),
            Block::Relu(b) => b.set_output_offset(output, offset),
            Block::Observe(b) => b.set_output_offset(output, offset),
        }
    }

    pub fn forward_backward(
        &mut self,
        further_blocks: &mut [Block],
        fb: &FeatureBuffer,
        pb: &mut PortBuffer,
        update: bool,
    )
        requires
            old(self).spec_placed(old(pb).tape@.len()),
            spec_all_placed(old(further_blocks)@, old(pb).tape@.len()),
        ensures
            *final(self) == *old(self),
            final(further_blocks)@ == old(further_blocks)@,
            final(pb).tape_len == old(pb).tape_len,
            final(pb).tape@.len() == old(pb).tape@.len(),
            final(pb)@ == old(self).spec_after(
                crate::block_helpers::spec_run(
                    old(further_blocks)@,
                    old(self).spec_before(old(pb)@, true),
                    true,
                ),
                true,
            ),
        decreases old(further_blocks)@.len(), 2int,
    {
        match self {
            Block::Consts(b) => b.forward_backward(further_blocks, fb, pb, update),
            Block::Relu(b) => b.forward_backward(further_blocks, fb, pb, update),
            Block::Observe(b) => b.forward_backward(further_blocks, fb, pb, update),
        }
    }

    pub fn forward(&self, further_blocks: &[Block], fb: &FeatureBuffer, pb: &mut PortBuffer)
        requires
            self.spec_placed(old(pb).tape@.len()),
            spec_all_placed(further_blocks@, old(pb).tape@.len()),
        ensures
            final(pb).tape_len == old(pb).tape_len,
            final(pb).tape@.len() == old(pb).tape@.len(),
            final(pb)@ == self.spec_after(
                crate::block_helpers::spec_run(
                    further_blocks@,
                    self.spec_before(old(pb)@, false),
                    false,
                ),
                false,
            ),
        decreases further_blocks@.len(), 2int,
    {
        match self {
            Block::Consts(b) => b.forward(further_blocks, fb, pb),
            Block::Relu(b) => b.forward(further_blocks, fb, pb),
            Block::Observe(b) => b.forward(further_blocks, fb, pb),
        }
    }
}

} // verus!
