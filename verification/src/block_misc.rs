//! Blocks without arithmetic: constant injection and observation probes.

use crate::block_helpers;
use crate::block_helpers::spec_run;
use crate::feature_buffer::FeatureBuffer;
use crate::graph::BlockGraph;
use crate::graph::BlockPtrOutput;
use crate::graph::GraphError;
use crate::graph::InputSlot;
use crate::graph::OutputSlot;
use crate::model_instance::ModelInstance;
use crate::port_buffer::PortBuffer;
use crate::port_buffer::TapeState;
use crate::port_buffer::copy_region;
use crate::port_buffer::fill_region;
use crate::port_buffer::observe_region;
use crate::port_buffer::spec_region;
use crate::port_buffer::spec_write;
use crate::regressor::Block;
use crate::regressor::spec_all_placed;
use crate::scalar::Scalar;
use vstd::prelude::*;

verus! {

/// A source that writes the same constants to its output on every run.
pub struct BlockConsts {
    pub output_offset: usize,
    pub consts: Vec<Scalar>,
}

/// When an observation probe records what passes through it.
#[derive(Clone, Copy, Debug, PartialEq, Eq, Structural)]
pub enum Observe {
    /// On the way forward: the probe records the values it receives.
    Forward,
    /// On the way back: the probe records the gradient it receives.
    Backward,
}

/// A probe that passes its input on unchanged and records either the values
/// or the gradient that come through. It can replace the gradient that it
/// hands upstream by a fixed value.
pub struct BlockObserve {
    pub num_inputs: usize,
    pub input_offset: usize,
    pub output_offset: usize,
    pub observe: Observe,
    pub replace_backward_with: Option<Scalar>,
}

/// Registers a source of the given constants. It has no inputs, so the call
/// is refused only when the graph is finalized already.
pub fn new_const_block(bg: &mut BlockGraph, consts: Vec<Scalar>) -> (r: Result<
    BlockPtrOutput,
    GraphError,
>)
    requires
        old(bg).wf(),
    ensures
        final(bg).wf(),
        match r {
            Err(e) => {
                &&& *final(bg) == *old(bg)
                &&& old(bg).spec_is_finalized()
                &&& e == GraphError::Finalized
            },
            Ok(output) => {
                &&& !old(bg).spec_is_finalized()
                &&& final(bg).spec_extends(
                    *old(bg),
                    Block::Consts(BlockConsts { output_offset: usize::MAX, consts }),
                    Seq::empty(),
                )
                &&& output.spec_node_id() == old(bg).spec_len()
                &&& output.spec_output_index() == 0
            },
        },
{
    let block = BlockConsts { output_offset: usize::MAX, consts };
    let inputs: Vec<BlockPtrOutput> = Vec::new();
    assert(inputs@ =~= Seq::empty());
    match bg.add_node(Block::Consts(block), inputs) {
        Err(e) => Err(e),
        Ok(mut block_outputs) => {
            let output = block_outputs.pop();
            Ok(output.unwrap())
        },
    }
}

/// Registers a probe that consumes `input` and is as wide as it. The call is
/// refused, and the graph left as it was, exactly when `add_node` refuses the
/// handle: the graph is finalized, or the handle names no output of this
/// graph, an output that is taken, or an output of zero width.
pub fn new_observe_block(
    bg: &mut BlockGraph,
    input: BlockPtrOutput,
    observe: Observe,
    replace_backward_with: Option<Scalar>,
) -> (r: Result<BlockPtrOutput, GraphError>)
    requires
        old(bg).wf(),
    ensures
        final(bg).wf(),
        match r {
            Err(e) => {
                &&& *final(bg) == *old(bg)
                &&& old(bg).spec_add_node_fault(seq![input]) == Some(e)
            },
            Ok(output) => {
                &&& old(bg).spec_add_node_fault(seq![input]) is None
                &&& final(bg).spec_extends(
                    *old(bg),
                    Block::Observe(
                        BlockObserve {
                            num_inputs: old(
                                bg,
                            ).spec_shapes()[input.spec_node_id()][input.spec_output_index()] as usize,
                            input_offset: usize::MAX,
                            output_offset: usize::MAX,
                            observe,
                            replace_backward_with,
                        },
                    ),
                    seq![input],
                )
                &&& output.spec_node_id() == old(bg).spec_len()
                &&& output.spec_output_index() == 0
            },
        },
{
    if bg.is_finalized() {
        return Err(GraphError::Finalized);
    }
    let mut probe: Vec<&BlockPtrOutput> = Vec::new();
    probe.push(&input);
    let width = bg.get_num_output_values(probe);
    proof {
        let p = input.spec_node_id();
        let k = input.spec_output_index();
        assert(bg.spec_widths_sum(seq![&input], 1) == bg.spec_shapes()[p][k]) by {
            assert(bg.spec_widths_sum(seq![&input], 0) == 0);
        }
        if bg.spec_has_output(input.spec_node_id(), input.spec_output_index()) {
            bg.blocks@[input.spec_node_id()].lemma_widths_fit();
        }
    }
    let num_inputs = match width {
        Ok(num_inputs) => num_inputs,
        Err(e) => {
            return Err(e);
        },
    };
    let block = BlockObserve {
        num_inputs,
        input_offset: usize::MAX,
        output_offset: usize::MAX,
        observe,
        replace_backward_with,
    };
    let mut inputs: Vec<BlockPtrOutput> = Vec::new();
    inputs.push(input);
    assert(inputs@ =~= seq![input]);
    match bg.add_node(Block::Observe(block), inputs) {
        Err(e) => Err(e),
        Ok(mut block_outputs) => {
            let output = block_outputs.pop();
            Ok(output.unwrap())
        },
    }
}

impl BlockConsts {
    /// The output region lies on a tape of `tape_len` values.
    pub open spec fn spec_placed(&self, tape_len: nat) -> bool {
        self.output_offset + self.consts@.len() <= tape_len
    }

    /// The constants are written to the output region.
    pub open spec fn spec_before(&self, s: TapeState, train: bool) -> TapeState {
        TapeState {
            tape: spec_write(s.tape, self.output_offset as int, self.consts@),
            observations: s.observations,
        }
    }

    /// Constants take no gradient: the backward step changes nothing.
    pub open spec fn spec_after(&self, s: TapeState, train: bool) -> TapeState {
        s
    }

    /// Constants are no weights: nothing is allocated and the block is
    /// unchanged.
    pub fn allocate_and_init_weights(&mut self, mi: &ModelInstance)
        ensures
            *final(self) == *old(self),
    {
    }

    pub fn get_num_output_slots(&self) -> (r: usize)
        ensures
            r == 1,
    {
        1
    }

    pub fn get_num_output_values(&self, output: OutputSlot) -> (r: usize)
        requires
            output.0 == 0,
        ensures
            r == self.consts@.len(),
    {
        self.consts.len()
    }

    /// Assigns the output region. Finalize does this once; the offset must
    /// not have been assigned before.
    pub fn set_output_offset(&mut self, output: OutputSlot, offset: usize)
        requires
            output.0 == 0,
            old(self).output_offset == usize::MAX,
        ensures
            final(self).output_offset == offset,
            final(self).consts == old(self).consts,
    {
        self.output_offset = offset;
    }

    fn write_consts(&self, pb: &mut PortBuffer)
        requires
            self.spec_placed(old(pb).tape@.len()),
        ensures
            final(pb).tape_len == old(pb).tape_len,
            final(pb)@ == self.spec_before(old(pb)@, false),
    {
        let ghost tape_len = pb.tape.len();
        let mut i: usize = 0;
        while i < self.consts.len()
            invariant
                self.spec_placed(tape_len as nat),
                tape_len == old(pb).tape@.len(),
                pb.tape@.len() == tape_len,
                pb.tape_len == old(pb).tape_len,
                pb.observations@ == old(pb).observations@,
                i <= self.consts@.len(),
                forall|j: int|
                    0 <= j < tape_len ==> pb.tape@[j] == if self.output_offset <= j
                        < self.output_offset + i {
                        self.consts@[j - self.output_offset]
                    } else {
                        old(pb).tape@[j]
                    },
            decreases self.consts@.len() - i,
        {
            pb.tape[self.output_offset + i] = self.consts[i];
            i += 1;
        }
        assert(pb@.tape =~= self.spec_before(old(pb)@, false).tape);
    }

    /// Writes the constants, then runs the rest of the chain forward and
    /// backward. The block itself is never changed.
    pub fn forward_backward(
        &mut self,
        further_blocks: &mut [Block],
        fb: &FeatureBuffer,
        pb: &mut PortBuffer,
        update: bool,
    )
        requires
            old(self).spec_placed(old(pb).tape@.len()),
            spec_all_placed(old(further_blocks)@, old(pb).tape@.len()),
        ensures
            *final(self) == *old(self),
            final(further_blocks)@ == old(further_blocks)@,
            final(pb).tape_len == old(pb).tape_len,
            final(pb).tape@.len() == old(pb).tape@.len(),
            final(pb)@ == old(self).spec_after(
                spec_run(old(further_blocks)@, old(self).spec_before(old(pb)@, true), true),
                true,
            ),
        decreases old(further_blocks)@.len(), 1int,
    {
        self.write_consts(pb);
        block_helpers::forward_backward(further_blocks, fb, pb, update);
    }

    /// Writes the constants, then runs the rest of the chain forward.
    pub fn forward(&self, further_blocks: &[Block], fb: &FeatureBuffer, pb: &mut PortBuffer)
        requires
            self.spec_placed(old(pb).tape@.len()),
            spec_all_placed(further_blocks@, old(pb).tape@.len()),
        ensures
            final(pb).tape_len == old(pb).tape_len,
            final(pb).tape@.len() == old(pb).tape@.len(),
            final(pb)@ == self.spec_after(
                spec_run(further_blocks@, self.spec_before(old(pb)@, false), false),
                false,
            ),
        decreases further_blocks@.len(), 1int,
    {
        self.write_consts(pb);
        block_helpers::forward(further_blocks, fb, pb);
    }
}

impl BlockObserve {
    /// Both regions lie on a tape of `tape_len` values and do not overlap.
    pub open spec fn spec_placed(&self, tape_len: nat) -> bool {
        &&& self.input_offset + self.num_inputs <= tape_len
        &&& self.output_offset + self.num_inputs <= tape_len
        &&& (self.input_offset + self.num_inputs <= self.output_offset || self.output_offset
            + self.num_inputs <= self.input_offset)
    }

    /// The input is copied to the output; a forward probe records it first.
    pub open spec fn spec_before(&self, s: TapeState, train: bool) -> TapeState {
        let input = spec_region(s.tape, self.input_offset as int, self.num_inputs as int);
        TapeState {
            tape: spec_write(s.tape, self.output_offset as int, input),
            observations: if self.observe == Observe::Forward {
                s.observations + input
            } else {
                s.observations
            },
        }
    }

    /// A backward probe records what the rest of the chain left in the output
    /// region. The input region then receives the replacement value where
    /// one is set, and else what the output region holds.
    pub open spec fn spec_after(&self, s: TapeState, train: bool) -> TapeState {
        let output = spec_region(s.tape, self.output_offset as int, self.num_inputs as int);
        TapeState {
            tape: spec_write(
                s.tape,
                self.input_offset as int,
                match self.replace_backward_with {
                    Some(value) => Seq::new(self.num_inputs as nat, |j: int| value),
                    None => output,
                },
            ),
            observations: if self.observe == Observe::Backward {
                s.observations + output
            } else {
                s.observations
            },
        }
    }

    /// A probe has no weights: nothing is allocated and the block is
    /// unchanged.
    pub fn allocate_and_init_weights(&mut self, mi: &ModelInstance)
        ensures
            *final(self) == *old(self),
    {
    }

    pub fn get_num_output_slots(&self) -> (r: usize)
        ensures
            r == 1,
    {
        1
    }

    pub fn get_num_output_values(&self, output: OutputSlot) -> (r: usize)
        requires
            output.0 == 0,
        ensures
            r == self.num_inputs,
    {
        self.num_inputs
    }

    /// Assigns the input region. Finalize does this once; the offset must
    /// not have been assigned before.
    pub fn set_input_offset(&mut self, input: InputSlot, offset: usize)
        requires
            input.0 == 0,
            old(self).input_offset == usize::MAX,
        ensures
            *final(self) == (BlockObserve { input_offset: offset, ..*old(self) }),
    {
        self.input_offset = offset;
    }

    /// Assigns the output region. Finalize does this once; the offset must
    /// not have been assigned before.
    pub fn set_output_offset(&mut self, output: OutputSlot, offset: usize)
        requires
            output.0 == 0,
            old(self).output_offset == usize::MAX,
        ensures
            *final(self) == (BlockObserve { output_offset: offset, ..*old(self) }),
    {
        self.output_offset = offset;
    }

    fn before(&self, pb: &mut PortBuffer)
        requires
            self.spec_placed(old(pb).tape@.len()),
        ensures
            final(pb).tape_len == old(pb).tape_len,
            final(pb)@ == self.spec_before(old(pb)@, false),
    {
        match self.observe {
            Observe::Forward => {
                observe_region(&pb.tape, self.input_offset, self.num_inputs, &mut pb.observations);
            },
            Observe::Backward => {},
        }
        copy_region(&mut pb.tape, self.input_offset, self.output_offset, self.num_inputs);
    }

    fn after(&self, pb: &mut PortBuffer)
        requires
            self.spec_placed(old(pb).tape@.len()),
        ensures
            final(pb).tape_len == old(pb).tape_len,
            final(pb)@ == self.spec_after(old(pb)@, false),
    {
        match self.observe {
            Observe::Backward => {
                observe_region(&pb.tape, self.output_offset, self.num_inputs, &mut pb.observations);
            },
            Observe::Forward => {},
        }
        match self.replace_backward_with {
            Some(value) => fill_region(&mut pb.tape, self.input_offset, self.num_inputs, value),
            None => copy_region(
                &mut pb.tape,
                self.output_offset,
                self.input_offset,
                self.num_inputs,
            ),
        }
    }

    /// Passes the input on, runs the rest of the chain forward and backward,
    /// and hands the gradient (or its replacement) upstream. The block itself
    /// is never changed.
    pub fn forward_backward(
        &mut self,
        further_blocks: &mut [Block],
        fb: &FeatureBuffer,
        pb: &mut PortBuffer,
        update: bool,
    )
        requires
            old(self).spec_placed(old(pb).tape@.len()),
            spec_all_placed(old(further_blocks)@, old(pb).tape@.len()),
        ensures
            *final(self) == *old(self),
            final(further_blocks)@ == old(further_blocks)@,
            final(pb).tape_len == old(pb).tape_len,
            final(pb).tape@.len() == old(pb).tape@.len(),
            final(pb)@ == old(self).spec_after(
                spec_run(old(further_blocks)@, old(self).spec_before(old(pb)@, true), true),
                true,
            ),
        decreases old(further_blocks)@.len(), 1int,
    {
        self.before(pb);
        block_helpers::forward_backward(further_blocks, fb, pb, update);
        self.after(pb);
    }

    /// Passes the input on and runs the rest of the chain forward.
    pub fn forward(&self, further_blocks: &[Block], fb: &FeatureBuffer, pb: &mut PortBuffer)
        requires
            self.spec_placed(old(pb).tape@.len()),
            spec_all_placed(further_blocks@, old(pb).tape@.len()),
        ensures
            final(pb).tape_len == old(pb).tape_len,
            final(pb).tape@.len() == old(pb).tape@.len(),
            final(pb)@ == self.spec_after(
                spec_run(further_blocks@, self.spec_before(old(pb)@, false), false),
                false,
            ),
        decreases further_blocks@.len(), 1int,
    {
        self.before(pb);
        block_helpers::forward(further_blocks, fb, pb);
        self.after(pb);
    }
}

} // verus!
