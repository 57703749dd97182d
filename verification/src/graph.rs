//! The block graph: nodes are registered and wired during construction,
//! then one finalize pass lays every port out on the tape.

use crate::block_helpers::spec_run;
use crate::model_instance::ModelInstance;
use crate::port_buffer::PortBuffer;
use crate::port_buffer::TapeState;
use crate::port_buffer::spec_blank;
use crate::regressor::Block;
use crate::regressor::spec_all_placed;
use vstd::prelude::*;

verus! {

/// Index of one of a block's output slots.
#[derive(Clone, Copy, Debug, PartialEq, Eq, Structural)]
pub struct OutputSlot(pub usize);

/// Index of one of a block's input slots.
#[derive(Clone, Copy, Debug, PartialEq, Eq, Structural)]
pub struct InputSlot(pub usize);

/// Index of a block in its graph.
#[derive(Clone, Copy, Debug, PartialEq, Eq, Structural)]
pub struct BlockPtr(pub usize);

/// One input slot of one block.
#[derive(Clone, Copy, Debug, PartialEq, Eq, Structural)]
pub struct BlockPtrInput(pub BlockPtr, pub InputSlot);

/// A handle to one output slot of a registered block. Registration hands it
/// out, and a later registration consumes it to declare an edge. It cannot be
/// copied: an output feeds at most one input.
#[derive(Debug)]
pub struct BlockPtrOutput(BlockPtr, OutputSlot);

/// Why the graph refused an operation.
#[derive(Clone, Copy, Debug, PartialEq, Eq, Structural)]
pub enum GraphError {
    /// The graph is frozen: it has been finalized already.
    Finalized,
    /// A handle names a block or an output slot that this graph does not have.
    UnknownOutput,
    /// A handle names an output that already feeds an input.
    OutputTaken,
    /// A handle names an output of zero width.
    ZeroWidth,
    /// A block already carries an offset before finalize has assigned one.
    OffsetAssigned,
    /// A block's own input arity differs from what is wired to it.
    ArityMismatch,
    /// The ports do not fit on a tape that `usize` can address.
    TapeTooLarge,
}

impl OutputSlot {
    pub fn get_output_index(&self) -> (r: usize)
        ensures
            r == self.0,
    {
        self.0
    }
}

impl InputSlot {
    pub fn get_input_index(&self) -> (r: usize)
        ensures
            r == self.0,
    {
        self.0
    }
}

impl BlockPtr {
    pub fn get_node_id(&self) -> (r: usize)
        ensures
            r == self.0,
    {
        self.0
    }
}

impl BlockPtrInput {
    pub fn get_node_id(&self) -> (r: usize)
        ensures
            r == self.0.0,
    {
        self.0.0
    }

    pub fn get_input_index(&self) -> (r: usize)
        ensures
            r == self.1.0,
    {
        self.1.0
    }
}

impl BlockPtrOutput {
    /// The block that the handle names.
    pub closed spec fn spec_node_id(&self) -> int {
        self.0.0 as int
    }

    /// The output slot that the handle names.
    pub closed spec fn spec_output_index(&self) -> int {
        self.1.0 as int
    }

    pub fn get_block_ptr(&self) -> (r: BlockPtr)
        ensures
            r.0 == self.spec_node_id(),
    {
        self.0
    }

    pub fn get_node_id(&self) -> (r: usize)
        ensures
            r == self.spec_node_id(),
    {
        self.0.0
    }

    pub fn get_output_index(&self) -> (r: usize)
        ensures
            r == self.spec_output_index(),
    {
        self.1.0
    }

    pub fn get_output(&self) -> (r: OutputSlot)
        ensures
            r.0 == self.spec_output_index(),
    {
        self.1
    }
}

/// The wiring of one block.
pub struct BlockGraphNode {
    /// For each input slot, the output that feeds it.
    pub edges_in: Vec<BlockPtrOutput>,
    /// For each output slot, the input that it feeds, if any yet.
    pub edges_out: Vec<Option<BlockPtrInput>>,
}

/// The graph. While `tape_size` is `usize::MAX` it is under construction;
/// finalize sets the true size and freezes the structure.
pub struct BlockGraph {
    pub nodes: Vec<BlockGraphNode>,
    pub blocks: Vec<Block>,
    pub tape_size: usize,
}

/// A port of a graph: one input slot or one output slot of one block.
pub enum Port {
    Input { block: int, slot: int },
    Output { block: int, slot: int },
}

/// What a graph holds, as mathematical sequences.
pub struct BlockGraphView {
    pub nodes: Seq<BlockGraphNode>,
    pub blocks: Seq<Block>,
    pub tape_size: usize,
}

impl View for BlockGraph {
    type V = BlockGraphView;

    open spec fn view(&self) -> BlockGraphView {
        BlockGraphView { nodes: self.nodes@, blocks: self.blocks@, tape_size: self.tape_size }
    }
}

/// Sum of a sequence of widths.
pub open spec fn spec_sum(widths: Seq<nat>) -> nat
    decreases widths.len(),
{
    if widths.len() == 0 {
        0
    } else {
        spec_sum(widths.drop_last()) + widths.last()
    }
}

/// Sum of all output widths of the first `i` blocks: where the outputs of
/// block `i` begin on the tape.
pub open spec fn spec_base(shapes: Seq<Seq<nat>>, i: int) -> nat
    decreases i,
{
    if i <= 0 {
        0
    } else {
        spec_base(shapes, i - 1) + spec_sum(shapes[i - 1])
    }
}

/// Where output slot `k` of block `i` begins on the tape: after every output
/// of the blocks before it and after the earlier outputs of the same block.
pub open spec fn spec_port_offset(shapes: Seq<Seq<nat>>, i: int, k: int) -> nat {
    spec_base(shapes, i) + spec_sum(shapes[i].take(k))
}

/// The output widths of every block, by block and slot.
pub open spec fn spec_shapes_of(blocks: Seq<Block>) -> Seq<Seq<nat>> {
    Seq::new(blocks.len(), |i: int| blocks[i].spec_output_widths())
}

/// Taking one more width adds that width to the sum.
pub proof fn lemma_sum_take_next(widths: Seq<nat>, k: int)
    requires
        0 <= k < widths.len(),
    ensures
        spec_sum(widths.take(k + 1)) == spec_sum(widths.take(k)) + widths[k],
{
    assert(widths.take(k + 1).drop_last() =~= widths.take(k));
}

/// A longer prefix of the widths sums to at least as much, and to at least
/// the shorter prefix plus the width that follows it.
pub proof fn lemma_sum_take_ordered(widths: Seq<nat>, k: int, l: int)
    requires
        0 <= k < l <= widths.len(),
    ensures
        spec_sum(widths.take(k)) + widths[k] <= spec_sum(widths.take(l)),
    decreases l - k,
{
    if k + 1 < l {
        lemma_sum_take_ordered(widths, k, l - 1);
        lemma_sum_take_next(widths, l - 1);
    } else {
        lemma_sum_take_next(widths, k);
    }
}

/// Later blocks begin further along the tape.
pub proof fn lemma_base_ordered(shapes: Seq<Seq<nat>>, i: int, j: int)
    requires
        0 <= i < j,
    ensures
        spec_base(shapes, i) + spec_sum(shapes[i]) <= spec_base(shapes, j),
    decreases j - i,
{
    if i + 1 < j {
        lemma_base_ordered(shapes, i, j - 1);
    }
}

/// An output slot ends before the block's outputs end.
pub proof fn lemma_port_within_block(shapes: Seq<Seq<nat>>, i: int, k: int)
    requires
        0 <= i < shapes.len(),
        0 <= k < shapes[i].len(),
    ensures
        spec_port_offset(shapes, i, k) + shapes[i][k] <= spec_base(shapes, i + 1),
{
    let widths = shapes[i];
    lemma_sum_take_ordered(widths, k, widths.len() as int);
    assert(widths.take(widths.len() as int) =~= widths);
}

/// An output slot ends before the tape ends.
pub proof fn lemma_port_within_tape(shapes: Seq<Seq<nat>>, i: int, k: int)
    requires
        0 <= i < shapes.len(),
        0 <= k < shapes[i].len(),
    ensures
        spec_port_offset(shapes, i, k) + shapes[i][k] <= spec_base(shapes, shapes.len() as int),
{
    lemma_port_within_block(shapes, i, k);
    if i + 1 < shapes.len() {
        lemma_base_ordered(shapes, i + 1, shapes.len() as int);
    }
}

/// Of two different output slots, the one that comes first in registration
/// order ends before the other begins.
pub proof fn lemma_ports_ordered(shapes: Seq<Seq<nat>>, i: int, k: int, j: int, l: int)
    requires
        0 <= i < shapes.len(),
        0 <= k < shapes[i].len(),
        0 <= j < shapes.len(),
        0 <= l < shapes[j].len(),
        i < j || (i == j && k < l),
    ensures
        spec_port_offset(shapes, i, k) + shapes[i][k] <= spec_port_offset(shapes, j, l),
{
    if i < j {
        lemma_port_within_block(shapes, i, k);
        if i + 1 < j {
            lemma_base_ordered(shapes, i + 1, j);
        }
    } else {
        lemma_sum_take_ordered(shapes[i], k, l);
    }
}

impl BlockGraph {
    /// Number of registered blocks.
    pub open spec fn spec_len(&self) -> nat {
        self.blocks@.len()
    }

    /// The output widths of every block.
    pub open spec fn spec_shapes(&self) -> Seq<Seq<nat>> {
        spec_shapes_of(self.blocks@)
    }

    /// Finalize has run.
    pub open spec fn spec_is_finalized(&self) -> bool {
        self.tape_size != usize::MAX
    }

    /// The output `(block, slot)` that feeds input slot `m` of block `i`.
    pub open spec fn spec_source(&self, i: int, m: int) -> (int, int) {
        (
            self.nodes@[i].edges_in@[m].spec_node_id(),
            self.nodes@[i].edges_in@[m].spec_output_index(),
        )
    }

    /// `(p, k)` names an output slot of a registered block.
    pub open spec fn spec_has_output(&self, p: int, k: int) -> bool {
        0 <= p < self.spec_len() && 0 <= k < self.spec_shapes()[p].len()
    }

    /// `(i, m)` names a wired input slot of a registered block.
    pub open spec fn spec_has_input(&self, i: int, m: int) -> bool {
        0 <= i < self.spec_len() && 0 <= m < self.nodes@[i].edges_in@.len()
    }

    /// The wiring is sound: every edge runs from an output of an earlier
    /// block, of non-zero width, to exactly one input, and both ends know of
    /// each other.
    pub open spec fn spec_wired(&self) -> bool {
        &&& self.nodes@.len() == self.blocks@.len()
        &&& forall|i: int|
            0 <= i < self.spec_len() ==> (#[trigger] self.nodes@[i]).edges_out@.len()
                == self.spec_shapes()[i].len()
        &&& forall|i: int, m: int| #[trigger]
            self.spec_has_input(i, m) ==> {
                let (p, k) = self.spec_source(i, m);
                &&& self.spec_has_output(p, k)
                &&& p < i
                &&& self.spec_shapes()[p][k] > 0
                &&& self.nodes@[p].edges_out@[k] == Some(
                    BlockPtrInput(BlockPtr(i as usize), InputSlot(m as usize)),
                )
            }
        &&& forall|p: int, k: int| #[trigger]
            self.spec_has_output(p, k) ==> (self.nodes@[p].edges_out@[k] matches Some(c) ==> {
                &&& self.spec_has_input(c.0.0 as int, c.1.0 as int)
                &&& self.spec_source(c.0.0 as int, c.1.0 as int) == (p, k)
            })
    }

    /// Every port sits where the layout puts it, and every block's own input
    /// arity is what is wired to it.
    pub open spec fn spec_laid_out(&self) -> bool {
        &&& self.tape_size == spec_base(self.spec_shapes(), self.spec_len() as int)
        &&& forall|i: int, k: int| #[trigger]
            self.spec_has_output(i, k) ==> self.blocks@[i].spec_output_offsets()[k]
                == spec_port_offset(self.spec_shapes(), i, k)
        &&& forall|i: int|
            0 <= i < self.spec_len() ==> (#[trigger] self.blocks@[i]).spec_input_widths().len()
                == self.nodes@[i].edges_in@.len()
        &&& forall|i: int, m: int| #[trigger]
            self.spec_has_input(i, m) ==> {
                let (p, k) = self.spec_source(i, m);
                &&& self.blocks@[i].spec_input_widths()[m] == self.spec_shapes()[p][k]
                &&& self.blocks@[i].spec_input_offsets()[m] == spec_port_offset(
                    self.spec_shapes(),
                    p,
                    k,
                )
            }
    }

    /// The graph's invariant.
    pub open spec fn wf(&self) -> bool {
        &&& self.spec_wired()
        &&& self.spec_is_finalized() ==> self.spec_laid_out()
    }

    /// This graph is `before` with one more block, wired to the outputs that
    /// `inputs` name; nothing else differs.
    pub open spec fn spec_extends(
        &self,
        before: BlockGraph,
        block: Block,
        inputs: Seq<BlockPtrOutput>,
    ) -> bool {
        &&& !self.spec_is_finalized()
        &&& self.blocks@ == before.blocks@.push(block)
        &&& self.nodes@.len() == before.nodes@.len() + 1
        &&& self.nodes@[before.spec_len() as int].edges_in@ == inputs
        &&& forall|i: int|
            0 <= i < before.spec_len() ==> (#[trigger] self.nodes@[i]).edges_in@
                == before.nodes@[i].edges_in@
    }

    /// What one training call leaves in the port buffer: the whole chain run
    /// forward and backward on a blank tape.
    pub open spec fn spec_learn(&self) -> TapeState {
        spec_run(self.blocks@, spec_blank(self.tape_size as nat), true)
    }

    /// What one prediction leaves in the port buffer: the whole chain run
    /// forward on a blank tape.
    pub open spec fn spec_predict(&self) -> TapeState {
        spec_run(self.blocks@, spec_blank(self.tape_size as nat), false)
    }

    /// What is wrong with the `m`-th of the handles given to `add_node`, if
    /// anything: it names no output of this graph; or an output that already
    /// feeds an input, or that an earlier handle of the same call names; or an
    /// output of zero width.
    pub open spec fn spec_input_fault(&self, inputs: Seq<BlockPtrOutput>, m: int) -> Option<
        GraphError,
    > {
        let p = inputs[m].spec_node_id();
        let k = inputs[m].spec_output_index();
        if !self.spec_has_output(p, k) {
            Some(GraphError::UnknownOutput)
        } else if self.nodes@[p].edges_out@[k] is Some || exists|q: int|
            0 <= q < m && #[trigger] inputs[q].spec_node_id() == p && inputs[q].spec_output_index()
                == k {
            Some(GraphError::OutputTaken)
        } else if self.spec_shapes()[p][k] == 0 {
            Some(GraphError::ZeroWidth)
        } else {
            None
        }
    }

    /// The fault of the first faulty handle from position `from` on.
    pub open spec fn spec_inputs_fault(&self, inputs: Seq<BlockPtrOutput>, from: int) -> Option<
        GraphError,
    >
        decreases inputs.len() - from,
    {
        if from < 0 || from >= inputs.len() {
            None
        } else {
            match self.spec_input_fault(inputs, from) {
                Some(e) => Some(e),
                None => self.spec_inputs_fault(inputs, from + 1),
            }
        }
    }

    /// Why `add_node` refuses these handles, if it does: the graph is
    /// finalized, or one of the handles is faulty.
    pub open spec fn spec_add_node_fault(&self, inputs: Seq<BlockPtrOutput>) -> Option<GraphError> {
        if self.spec_is_finalized() {
            Some(GraphError::Finalized)
        } else {
            self.spec_inputs_fault(inputs, 0)
        }
    }

    proof fn lemma_inputs_fault_from(&self, inputs: Seq<BlockPtrOutput>, m: int)
        requires
            0 <= m <= inputs.len(),
            forall|q: int| 0 <= q < m ==> self.spec_input_fault(inputs, q) is None,
        ensures
            self.spec_inputs_fault(inputs, 0) == self.spec_inputs_fault(inputs, m),
        decreases m,
    {
        if m > 0 {
            self.lemma_inputs_fault_from(inputs, m - 1);
        }
    }

    /// The block's own input arity is what is wired to it: as many input
    /// slots as edges, each as wide as the output that feeds it.
    pub open spec fn spec_arity_ok(&self, i: int) -> bool {
        &&& self.blocks@[i].spec_input_widths().len() == self.nodes@[i].edges_in@.len()
        &&& forall|m: int|
            0 <= m < self.nodes@[i].edges_in@.len() ==> self.blocks@[i].spec_input_widths()[m] == {
                let (p, k) = #[trigger] self.spec_source(i, m);
                self.spec_shapes()[p][k]
            }
    }

    /// What finalize finds wrong with block `i`, if anything.
    pub open spec fn spec_node_fault(&self, i: int) -> Option<GraphError> {
        if !self.blocks@[i].spec_is_unplaced() {
            Some(GraphError::OffsetAssigned)
        } else if !self.spec_arity_ok(i) {
            Some(GraphError::ArityMismatch)
        } else {
            None
        }
    }

    /// The fault of the first faulty block from `from` on.
    pub open spec fn spec_nodes_fault(&self, from: int) -> Option<GraphError>
        decreases self.spec_len() - from,
    {
        if from < 0 || from >= self.spec_len() {
            None
        } else {
            match self.spec_node_fault(from) {
                Some(e) => Some(e),
                None => self.spec_nodes_fault(from + 1),
            }
        }
    }

    /// Why finalize refuses the graph, if it does: it is finalized already,
    /// a block is faulty, or the ports together do not fit below `usize::MAX`.
    pub open spec fn spec_finalize_fault(&self) -> Option<GraphError> {
        if self.spec_is_finalized() {
            Some(GraphError::Finalized)
        } else {
            match self.spec_nodes_fault(0) {
                Some(e) => Some(e),
                None => if spec_base(self.spec_shapes(), self.spec_len() as int) >= usize::MAX {
                    Some(GraphError::TapeTooLarge)
                } else {
                    None
                },
            }
        }
    }

    proof fn lemma_widths_sum_grows(&self, outputs: Seq<&BlockPtrOutput>, n: int, l: int)
        requires
            0 <= n <= l,
        ensures
            self.spec_widths_sum(outputs, n) <= self.spec_widths_sum(outputs, l),
        decreases l - n,
    {
        if n < l {
            self.lemma_widths_sum_grows(outputs, n, l - 1);
        }
    }

    proof fn lemma_nodes_fault_from(&self, n: int)
        requires
            0 <= n <= self.spec_len(),
            forall|j: int| 0 <= j < n ==> self.spec_node_fault(j) is None,
        ensures
            self.spec_nodes_fault(0) == self.spec_nodes_fault(n),
        decreases n,
    {
        if n > 0 {
            self.lemma_nodes_fault_from(n - 1);
        }
    }

    /// The state of finalize's placement pass once the first `n` blocks have
    /// their offsets: those blocks sit where the layout of `before` puts them,
    /// the others are untouched, and nothing but offsets has changed.
    spec fn spec_placing(&self, before: BlockGraph, n: int) -> bool {
        &&& self.nodes == before.nodes
        &&& self.tape_size == before.tape_size
        &&& self.blocks@.len() == before.blocks@.len()
        &&& forall|j: int|
            0 <= j < self.blocks@.len() ==> (#[trigger] self.blocks@[j]).spec_unplaced()
                == before.blocks@[j]
        &&& forall|j: int|
            n <= j < self.blocks@.len() ==> #[trigger] self.blocks@[j] == before.blocks@[j]
        &&& forall|j: int, k: int|
            0 <= j < n && #[trigger] before.spec_has_output(j, k)
                ==> self.blocks@[j].spec_output_offsets()[k] == spec_port_offset(
                before.spec_shapes(),
                j,
                k,
            )
        &&& forall|j: int, m: int|
            0 <= j < n && #[trigger] before.spec_has_input(j, m)
                ==> self.blocks@[j].spec_input_offsets()[m] == {
                let (p, k) = before.spec_source(j, m);
                spec_port_offset(before.spec_shapes(), p, k)
            }
    }

    /// Every one of the handles names an output slot of this graph.
    pub open spec fn spec_all_known(&self, outputs: Seq<&BlockPtrOutput>) -> bool {
        forall|m: int|
            0 <= m < outputs.len() ==> self.spec_has_output(
                (#[trigger] outputs[m]).spec_node_id(),
                outputs[m].spec_output_index(),
            )
    }

    /// The widths of the outputs that the first `n` handles name, added up.
    pub open spec fn spec_widths_sum(&self, outputs: Seq<&BlockPtrOutput>, n: int) -> nat
        decreases n,
    {
        if n <= 0 {
            0
        } else {
            self.spec_widths_sum(outputs, n - 1) + self.spec_shapes()[outputs[n
                - 1].spec_node_id()][outputs[n - 1].spec_output_index()]
        }
    }

    /// A zero-width output is never accepted as an input: whatever else is
    /// handed in with it, `add_node` refuses the call.
    pub proof fn lemma_zero_width_input_refused(&self, inputs: Seq<BlockPtrOutput>, m: int)
        requires
            0 <= m < inputs.len(),
            self.spec_has_output(inputs[m].spec_node_id(), inputs[m].spec_output_index()),
            self.spec_shapes()[inputs[m].spec_node_id()][inputs[m].spec_output_index()] == 0,
        ensures
            self.spec_add_node_fault(inputs) is Some,
    {
        self.lemma_fault_before(inputs, m, 0);
    }

    proof fn lemma_fault_before(&self, inputs: Seq<BlockPtrOutput>, m: int, from: int)
        requires
            0 <= from <= m < inputs.len(),
            self.spec_input_fault(inputs, m) is Some,
        ensures
            self.spec_inputs_fault(inputs, from) is Some,
        decreases m - from,
    {
        if from < m {
            self.lemma_fault_before(inputs, m, from + 1);
        }
    }

    /// In a finalized graph every block's regions lie on the tape, and no
    /// block's input region overlaps its own output region.
    pub proof fn lemma_blocks_placed(&self)
        requires
            self.wf(),
            self.spec_is_finalized(),
        ensures
            spec_all_placed(self.blocks@, self.tape_size as nat),
    {
        let shapes = self.spec_shapes();
        assert forall|i: int| 0 <= i < self.blocks@.len() implies (#[trigger] self.blocks@[i]).spec_placed(
            self.tape_size as nat,
        ) by {
            let b = self.blocks@[i];
            assert(self.spec_has_output(i, 0));
            lemma_port_within_tape(shapes, i, 0);
            if b.spec_input_widths().len() > 0 {
                assert(self.spec_has_input(i, 0));
                let (p, k) = self.spec_source(i, 0);
                lemma_port_within_tape(shapes, p, k);
                lemma_ports_ordered(shapes, p, k, i, 0);
            }
        }
    }

    /// The graph has this port.
    pub open spec fn spec_has_port(&self, port: Port) -> bool {
        match port {
            Port::Input { block, slot } => self.spec_has_input(block, slot),
            Port::Output { block, slot } => self.spec_has_output(block, slot),
        }
    }

    /// Where the port's region begins on the tape, as the block holds it.
    pub open spec fn spec_port_start(&self, port: Port) -> int {
        match port {
            Port::Input { block, slot } => self.blocks@[block].spec_input_offsets()[slot] as int,
            Port::Output { block, slot } => self.blocks@[block].spec_output_offsets()[slot] as int,
        }
    }

    /// How many tape positions the port's region has.
    pub open spec fn spec_port_width(&self, port: Port) -> int {
        match port {
            Port::Input { block, slot } => self.blocks@[block].spec_input_widths()[slot] as int,
            Port::Output { block, slot } => self.blocks@[block].spec_output_widths()[slot] as int,
        }
    }

    /// An edge runs from `a` to `b`: `a` is the output that feeds the input
    /// `b`.
    pub open spec fn spec_edge(&self, a: Port, b: Port) -> bool {
        a matches Port::Output { block: p, slot: k } && b matches Port::Input { block: i, slot: m }
            && self.spec_source(i, m) == (p, k)
    }

    /// The output whose region a port has: an output's own, an input's source.
    pub open spec fn spec_port_origin(&self, port: Port) -> (int, int) {
        match port {
            Port::Input { block, slot } => self.spec_source(block, slot),
            Port::Output { block, slot } => (block, slot),
        }
    }

    /// In a finalized graph, two ports that no edge connects lie apart on the
    /// tape: one region ends before the other begins.
    pub proof fn lemma_ports_disjoint(&self, a: Port, b: Port)
        requires
            self.wf(),
            self.spec_is_finalized(),
            self.spec_has_port(a),
            self.spec_has_port(b),
            a != b,
            !self.spec_edge(a, b),
            !self.spec_edge(b, a),
        ensures
            self.spec_port_start(a) + self.spec_port_width(a) <= self.spec_port_start(b)
                || self.spec_port_start(b) + self.spec_port_width(b) <= self.spec_port_start(a),
    {
        let shapes = self.spec_shapes();
        let (p, k) = self.spec_port_origin(a);
        let (q, l) = self.spec_port_origin(b);
        assert(self.spec_has_output(p, k) && self.spec_port_start(a) == spec_port_offset(
            shapes,
            p,
            k,
        ) && self.spec_port_width(a) == shapes[p][k]);
        assert(self.spec_has_output(q, l) && self.spec_port_start(b) == spec_port_offset(
            shapes,
            q,
            l,
        ) && self.spec_port_width(b) == shapes[q][l]);
        if p == q && k == l {
            match (a, b) {
                (Port::Input { block: i, slot: m }, Port::Input { block: j, slot: n }) => {
                    assert(self.spec_has_input(i, m));
                    assert(self.spec_has_input(j, n));
                    assert(self.nodes@[p].edges_out@[k] == Some(
                        BlockPtrInput(BlockPtr(i as usize), InputSlot(m as usize)),
                    ));
                    assert(self.nodes@[p].edges_out@[k] == Some(
                        BlockPtrInput(BlockPtr(j as usize), InputSlot(n as usize)),
                    ));
                    assert(self.nodes@[i].edges_in@.len() == self.nodes[i].edges_in.len());
                    assert(self.nodes@[j].edges_in@.len() == self.nodes[j].edges_in.len());
                    assert(self.blocks@.len() == self.blocks.len());
                    assert(false);
                },
                _ => {
                    assert(false);
                },
            }
        } else if p < q || (p == q && k < l) {
            lemma_ports_ordered(shapes, p, k, q, l);
        } else {
            lemma_ports_ordered(shapes, q, l, p, k);
        }
    }

    /// In a finalized graph, no block has a region at a tape position that
    /// belongs to an input of an earlier block.
    pub proof fn lemma_later_blocks_leave_inputs(&self, i: int, m: int, q: int, j: int)
        requires
            self.wf(),
            self.spec_is_finalized(),
            0 <= i < q < self.spec_len(),
            self.blocks@[i].spec_in_input(m, j),
        ensures
            !self.blocks@[q].spec_owns(j),
    {
        let input = Port::Input { block: i, slot: m };
        assert(self.spec_has_input(i, m));
        assert forall|k: int| !self.blocks@[q].spec_in_output(k, j) by {
            if self.blocks@[q].spec_in_output(k, j) {
                let output = Port::Output { block: q, slot: k };
                assert(self.spec_has_output(q, k));
                self.lemma_ports_disjoint(input, output);
            }
        }
        assert forall|n: int| !self.blocks@[q].spec_in_input(n, j) by {
            if self.blocks@[q].spec_in_input(n, j) {
                let other = Port::Input { block: q, slot: n };
                assert(self.spec_has_input(q, n));
                self.lemma_ports_disjoint(input, other);
            }
        }
    }

    /// Running the blocks from `p` on gives the same on two port buffers
    /// that agree in what the blocks before `p` have written.
    pub proof fn lemma_run_is_determined_from(
        &self,
        p: int,
        first: TapeState,
        second: TapeState,
        train: bool,
    )
        requires
            self.wf(),
            self.spec_is_finalized(),
            0 <= p <= self.spec_len(),
            first.tape.len() == self.tape_size,
            second.tape.len() == self.tape_size,
            first.observations == second.observations,
            forall|j: int|
                0 <= j < spec_base(self.spec_shapes(), p) ==> first.tape[j] == second.tape[j],
        ensures
            spec_run(self.blocks@.skip(p), first, train) == spec_run(
                self.blocks@.skip(p),
                second,
                train,
            ),
        decreases self.spec_len() - p,
    {
        let shapes = self.spec_shapes();
        let chain = self.blocks@.skip(p);
        if p == self.spec_len() {
            assert(first.tape =~= second.tape);
        } else {
            let block = self.blocks@[p];
            self.lemma_blocks_placed();
            assert(block.spec_placed(self.tape_size as nat));
            assert(chain[0] == block);
            assert(chain.skip(1) =~= self.blocks@.skip(p + 1));
            assert(self.spec_has_output(p, 0));
            assert(shapes[p].len() == 1);
            assert(shapes[p].take(0) =~= Seq::<nat>::empty());
            assert(spec_sum(shapes[p].take(0)) == 0);
            assert(shapes[p].drop_last() =~= Seq::<nat>::empty());
            assert(spec_sum(shapes[p]) == shapes[p][0]);
            assert forall|m: int|
                0 <= m < block.spec_input_widths().len() implies #[trigger] block.spec_input_offsets()[m]
                    + block.spec_input_widths()[m] <= spec_base(shapes, p) by {
                assert(self.spec_has_input(p, m));
                let (q, k) = self.spec_source(p, m);
                lemma_port_within_block(shapes, q, k);
                if q + 1 < p {
                    lemma_base_ordered(shapes, q + 1, p);
                }
            }
            block.lemma_before_is_determined(
                first,
                second,
                train,
                spec_base(shapes, p) as int,
                spec_base(shapes, p + 1) as int,
            );
            self.lemma_run_is_determined_from(
                p + 1,
                block.spec_before(first, train),
                block.spec_before(second, train),
                train,
            );
        }
    }

    /// Determinism. What a run of a finalized graph leaves behind does not
    /// depend on what the tape held before: two port buffers of the graph's
    /// size that have recorded the same so far are the same after the run,
    /// value for value. So the same graph gives the same bits on every call.
    pub proof fn lemma_run_is_determined(&self, first: TapeState, second: TapeState, train: bool)
        requires
            self.wf(),
            self.spec_is_finalized(),
            first.tape.len() == self.tape_size,
            second.tape.len() == self.tape_size,
            first.observations == second.observations,
        ensures
            spec_run(self.blocks@, first, train) == spec_run(self.blocks@, second, train),
    {
        self.lemma_run_is_determined_from(0, first, second, train);
        assert(self.blocks@.skip(0) =~= self.blocks@);
    }

    /// A finalized graph that holds a probe records something on every run,
    /// training or not.
    pub proof fn lemma_graph_with_probe_records(&self, p: int)
        requires
            self.wf(),
            self.spec_is_finalized(),
            0 <= p < self.spec_len(),
            self.blocks@[p] is Observe,
        ensures
            self.spec_learn().observations.len() > 0,
            self.spec_predict().observations.len() > 0,
    {
        self.lemma_blocks_placed();
        assert(self.blocks@[p].spec_placed(self.tape_size as nat));
        assert(self.spec_has_input(p, 0));
        let blank = spec_blank(self.tape_size as nat);
        crate::block_helpers::lemma_probe_records(self.blocks@, blank, true, p);
        crate::block_helpers::lemma_probe_records(self.blocks@, blank, false, p);
    }

    /// Well-formedness looks at what a graph holds and at nothing else: of
    /// two graphs that hold the same, both are well-formed or neither.
    pub proof fn lemma_wf_depends_on_view(&self, other: BlockGraph)
        requires
            self@ == other@,
            self.wf(),
        ensures
            other.wf(),
    {
        assert(other.nodes@ == self.nodes@);
        assert(other.blocks@ == self.blocks@);
        assert(other.tape_size == self.tape_size);
        assert forall|i: int, m: int| #[trigger] other.spec_has_input(i, m) implies {
            let (p, k) = other.spec_source(i, m);
            &&& other.spec_has_output(p, k)
            &&& p < i
            &&& other.spec_shapes()[p][k] > 0
            &&& other.nodes@[p].edges_out@[k] == Some(
                BlockPtrInput(BlockPtr(i as usize), InputSlot(m as usize)),
            )
        } by {
            assert(self.spec_has_input(i, m));
        }
        assert forall|p: int, k: int| #[trigger] other.spec_has_output(p, k) implies (
        other.nodes@[p].edges_out@[k] matches Some(c) ==> {
            &&& other.spec_has_input(c.0.0 as int, c.1.0 as int)
            &&& other.spec_source(c.0.0 as int, c.1.0 as int) == (p, k)
        }) by {
            assert(self.spec_has_output(p, k));
        }
        assert(other.spec_wired());
        if other.spec_is_finalized() {
            assert forall|i: int, k: int| #[trigger]
                other.spec_has_output(i, k) implies other.blocks@[i].spec_output_offsets()[k]
                    == spec_port_offset(other.spec_shapes(), i, k) by {
                assert(self.spec_has_output(i, k));
            }
            assert forall|i: int, m: int| #[trigger] other.spec_has_input(i, m) implies {
                let (p, k) = other.spec_source(i, m);
                &&& other.blocks@[i].spec_input_widths()[m] == other.spec_shapes()[p][k]
                &&& other.blocks@[i].spec_input_offsets()[m] == spec_port_offset(
                    other.spec_shapes(),
                    p,
                    k,
                )
            } by {
                assert(self.spec_has_input(i, m));
            }
            assert(other.spec_laid_out());
        }
    }

    /// An empty graph under construction.
    pub fn new() -> (bg: BlockGraph)
        ensures
            bg.wf(),
            bg.spec_len() == 0,
            !bg.spec_is_finalized(),
    {
        BlockGraph { nodes: Vec::new(), blocks: Vec::new(), tape_size: usize::MAX }
    }

    /// Whether an earlier handle of `inputs` names the same output as the
    /// `m`-th.
    fn names_earlier_output(inputs: &Vec<BlockPtrOutput>, m: usize) -> (r: bool)
        requires
            m < inputs@.len(),
        ensures
            r == exists|q: int|
                0 <= q < m && #[trigger] inputs@[q].spec_node_id() == inputs@[m as int].spec_node_id()
                    && inputs@[q].spec_output_index() == inputs@[m as int].spec_output_index(),
    {
        let mut q: usize = 0;
        while q < m
            invariant
                q <= m < inputs@.len(),
                forall|t: int|
                    0 <= t < q ==> !(#[trigger] inputs@[t].spec_node_id() == inputs@[m as int].spec_node_id()
                        && inputs@[t].spec_output_index() == inputs@[m as int].spec_output_index()),
            decreases m - q,
        {
            if inputs[q].get_node_id() == inputs[m].get_node_id() && inputs[q].get_output_index()
                == inputs[m].get_output_index() {
                return true;
            }
            q += 1;
        }
        false
    }

    /// Registers a block that consumes the given outputs, one for each of its
    /// input slots in order, and returns one handle for each of its output
    /// slots. The call is refused, and the graph left as it was, when the
    /// graph is finalized already or when a handle names no output of this
    /// graph, an output that is taken, or an output of zero width.
    pub fn add_node(&mut self, block: Block, edges_in: Vec<BlockPtrOutput>) -> (r: Result<
        Vec<BlockPtrOutput>,
        GraphError,
    >)
        requires
            old(self).wf(),
        ensures
            final(self).wf(),
            match r {
                Err(e) => {
                    &&& *final(self) == *old(self)
                    &&& old(self).spec_add_node_fault(edges_in@) == Some(e)
                },
                Ok(outputs) => {
                    &&& old(self).spec_add_node_fault(edges_in@) is None
                    &&& final(self).spec_extends(*old(self), block, edges_in@)
                    &&& outputs@.len() == block.spec_output_widths().len()
                    &&& forall|k: int|
                        0 <= k < outputs@.len() ==> (#[trigger] outputs@[k]).spec_node_id()
                            == old(self).spec_len() && outputs@[k].spec_output_index() == k
                },
            },
    {
        if self.tape_size != usize::MAX {
            return Err(GraphError::Finalized);
        }
        let bp = self.nodes.len();
        let mut m: usize = 0;
        while m < edges_in.len()
            invariant
                *self == *old(self),
                self.wf(),
                !self.spec_is_finalized(),
                m <= edges_in@.len(),
                forall|q: int| 0 <= q < m ==> self.spec_input_fault(edges_in@, q) is None,
            decreases edges_in@.len() - m,
        {
            let p = edges_in[m].get_node_id();
            let k = edges_in[m].get_output_index();
            proof {
                self.lemma_inputs_fault_from(edges_in@, m as int);
            }
            if p >= self.nodes.len() || k >= self.nodes[p].edges_out.len() {
                return Err(GraphError::UnknownOutput);
            }
            if self.nodes[p].edges_out[k].is_some() || Self::names_earlier_output(&edges_in, m) {
                return Err(GraphError::OutputTaken);
            }
            if self.blocks[p].get_num_output_values(OutputSlot(k)) == 0 {
                return Err(GraphError::ZeroWidth);
            }
            m += 1;
        }
        proof {
            self.lemma_inputs_fault_from(edges_in@, edges_in@.len() as int);
        }
        let mut m: usize = 0;
        while m < edges_in.len()
            invariant
                old(self).wf(),
                !old(self).spec_is_finalized(),
                bp == old(self).spec_len(),
                forall|q: int| 0 <= q < edges_in@.len() ==> old(self).spec_input_fault(edges_in@, q) is None,
                m <= edges_in@.len(),
                self.blocks@ == old(self).blocks@,
                self.tape_size == old(self).tape_size,
                self.nodes@.len() == old(self).nodes@.len(),
                forall|i: int|
                    0 <= i < self.nodes@.len() ==> {
                        &&& (#[trigger] self.nodes@[i]).edges_in@ == old(self).nodes@[i].edges_in@
                        &&& self.nodes@[i].edges_out@.len() == old(self).nodes@[i].edges_out@.len()
                    },
                forall|p: int, k: int, q: int|
                    #![trigger self.nodes@[p].edges_out@[k], edges_in@[q]]
                    old(self).spec_has_output(p, k) && 0 <= q < m && edges_in@[q].spec_node_id() == p
                        && edges_in@[q].spec_output_index() == k ==> self.nodes@[p].edges_out@[k]
                        == Some(BlockPtrInput(BlockPtr(bp), InputSlot(q as usize))),
                forall|p: int, k: int|
                    #![trigger self.nodes@[p].edges_out@[k]]
                    old(self).spec_has_output(p, k) && (forall|q: int|
                        0 <= q < m ==> !(#[trigger] edges_in@[q].spec_node_id() == p
                            && edges_in@[q].spec_output_index() == k))
                        ==> self.nodes@[p].edges_out@[k] == old(self).nodes@[p].edges_out@[k],
            decreases edges_in@.len() - m,
        {
            let p = edges_in[m].get_node_id();
            let k = edges_in[m].get_output_index();
            assert(old(self).spec_input_fault(edges_in@, m as int) is None);
            assert(old(self).spec_has_output(p as int, k as int));
            self.nodes[p].edges_out[k] = Some(BlockPtrInput(BlockPtr(bp), InputSlot(m)));
            m += 1;
        }
        let num_outputs = block.get_num_output_slots();
        let mut edges_out: Vec<Option<BlockPtrInput>> = Vec::new();
        let mut outputs: Vec<BlockPtrOutput> = Vec::new();
        let mut k: usize = 0;
        while k < num_outputs
            invariant
                k <= num_outputs,
                edges_out@.len() == k,
                outputs@.len() == k,
                forall|t: int| 0 <= t < k ==> (#[trigger] edges_out@[t]) is None,
                forall|t: int|
                    0 <= t < k ==> (#[trigger] outputs@[t]).spec_node_id() == bp
                        && outputs@[t].spec_output_index() == t,
            decreases num_outputs - k,
        {
            edges_out.push(None);
            outputs.push(BlockPtrOutput(BlockPtr(bp), OutputSlot(k)));
            k += 1;
        }
        let ghost inputs = edges_in@;
        let ghost before = *self;
        self.nodes.push(BlockGraphNode { edges_in, edges_out });
        self.blocks.push(block);
        proof {
            let old_shapes = old(self).spec_shapes();
            let new_shapes = self.spec_shapes();
            assert forall|i: int| 0 <= i < old(self).spec_len() implies #[trigger] new_shapes[i]
                == old_shapes[i] by {
                assert(self.blocks@[i] == old(self).blocks@[i]);
            }
            assert forall|i: int| 0 <= i < self.spec_len() implies (#[trigger] self.nodes@[i]).edges_out@.len()
                == self.spec_shapes()[i].len() by {
                if i < bp {
                    assert(self.nodes@[i] == before.nodes@[i]);
                    assert(old(self).nodes@[i].edges_out@.len() == old_shapes[i].len());
                }
            }
            assert forall|i: int, m: int| #[trigger] self.spec_has_input(i, m) implies {
                let (p, k) = self.spec_source(i, m);
                &&& self.spec_has_output(p, k)
                &&& p < i
                &&& self.spec_shapes()[p][k] > 0
                &&& self.nodes@[p].edges_out@[k] == Some(
                    BlockPtrInput(BlockPtr(i as usize), InputSlot(m as usize)),
                )
            } by {
                let (p, k) = self.spec_source(i, m);
                if i < bp {
                    assert(self.nodes@[i] == before.nodes@[i]);
                    assert(old(self).spec_has_input(i, m));
                    assert(old(self).spec_source(i, m) == (p, k));
                    assert(old(self).spec_has_output(p, k));
                    assert(new_shapes[p] == old_shapes[p]);
                    assert(self.nodes@[p] == before.nodes@[p]);
                    assert forall|q: int| 0 <= q < inputs.len() implies !(#[trigger] inputs[q].spec_node_id()
                        == p && inputs[q].spec_output_index() == k) by {
                        assert(old(self).spec_input_fault(inputs, q) is None);
                    }
                } else {
                    assert(old(self).spec_input_fault(inputs, m) is None);
                    assert(old(self).spec_has_output(p, k));
                    assert(new_shapes[p] == old_shapes[p]);
                    assert(self.nodes@[p] == before.nodes@[p]);
                }
            }
            assert forall|p: int, k: int| #[trigger] self.spec_has_output(p, k) implies (
            self.nodes@[p].edges_out@[k] matches Some(c) ==> {
                &&& self.spec_has_input(c.0.0 as int, c.1.0 as int)
                &&& self.spec_source(c.0.0 as int, c.1.0 as int) == (p, k)
            }) by {
                if p < bp {
                    assert(self.nodes@[p] == before.nodes@[p]);
                    assert(new_shapes[p] == old_shapes[p]);
                    assert(old(self).spec_has_output(p, k));
                    if exists|q: int|
                        0 <= q < inputs.len() && #[trigger] inputs[q].spec_node_id() == p
                            && inputs[q].spec_output_index() == k {
                        let q = choose|q: int|
                            0 <= q < inputs.len() && #[trigger] inputs[q].spec_node_id() == p
                                && inputs[q].spec_output_index() == k;
                        assert(before.nodes@[p].edges_out@[k] == Some(
                            BlockPtrInput(BlockPtr(bp), InputSlot(q as usize)),
                        ));
                        assert(self.spec_has_input(bp as int, q));
                    } else {
                        assert(before.nodes@[p].edges_out@[k] == old(self).nodes@[p].edges_out@[k]);
                        if let Some(c) = self.nodes@[p].edges_out@[k] {
                            let ci = c.0.0 as int;
                            let cm = c.1.0 as int;
                            assert(old(self).spec_has_input(ci, cm));
                            assert(self.nodes@[ci] == before.nodes@[ci]);
                        }
                    }
                }
            }
        }
        Ok(outputs)
    }

    /// Whether block `i` expects what is wired to it.
    fn arity_matches(&self, i: usize) -> (r: bool)
        requires
            self.spec_wired(),
            i < self.spec_len(),
        ensures
            r == self.spec_arity_ok(i as int),
    {
        if self.blocks[i].get_num_input_slots() != self.nodes[i].edges_in.len() {
            return false;
        }
        let mut m: usize = 0;
        while m < self.nodes[i].edges_in.len()
            invariant
                self.spec_wired(),
                i < self.spec_len(),
                self.blocks@[i as int].spec_input_widths().len() == self.nodes@[i as int].edges_in@.len(),
                m <= self.nodes@[i as int].edges_in@.len(),
                forall|q: int|
                    0 <= q < m ==> self.blocks@[i as int].spec_input_widths()[q] == {
                        let (p, k) = #[trigger] self.spec_source(i as int, q);
                        self.spec_shapes()[p][k]
                    },
            decreases self.nodes@[i as int].edges_in@.len() - m,
        {
            let p = self.nodes[i].edges_in[m].get_node_id();
            let k = self.nodes[i].edges_in[m].get_output_index();
            assert(self.spec_has_input(i as int, m as int));
            assert(self.spec_source(i as int, m as int) == (p as int, k as int));
            let width = self.blocks[p].get_num_output_values(OutputSlot(k));
            if self.blocks[i].get_num_input_values(InputSlot(m)) != width {
                return false;
            }
            m += 1;
        }
        true
    }

    /// The sum of all output widths, unless it exceeds `usize::MAX`.
    fn total_width(&self) -> (r: Option<usize>)
        ensures
            match r {
                Some(total) => total == spec_base(self.spec_shapes(), self.spec_len() as int),
                None => spec_base(self.spec_shapes(), self.spec_len() as int) > usize::MAX,
            },
    {
        let ghost shapes = self.spec_shapes();
        let mut total: usize = 0;
        let mut i: usize = 0;
        while i < self.blocks.len()
            invariant
                shapes == self.spec_shapes(),
                i <= self.spec_len(),
                total == spec_base(shapes, i as int),
            decreases self.spec_len() - i,
        {
            let slots = self.blocks[i].get_num_output_slots();
            let mut k: usize = 0;
            while k < slots
                invariant
                    shapes == self.spec_shapes(),
                    i < self.spec_len(),
                    slots == shapes[i as int].len(),
                    k <= slots,
                    total == spec_base(shapes, i as int) + spec_sum(shapes[i as int].take(k as int)),
                decreases slots - k,
            {
                let width = self.blocks[i].get_num_output_values(OutputSlot(k));
                proof {
                    lemma_sum_take_next(shapes[i as int], k as int);
                }
                match total.checked_add(width) {
                    Some(sum) => {
                        total = sum;
                    },
                    None => {
                        proof {
                            lemma_port_within_tape(shapes, i as int, k as int);
                        }
                        return None;
                    },
                }
                k += 1;
            }
            assert(shapes[i as int].take(slots as int) =~= shapes[i as int]);
            i += 1;
        }
        Some(total)
    }

    /// Assigns the offsets of block `i`: each input where the output that
    /// feeds it was put, each output at the next free position from `offset`
    /// on. Returns the next free position.
    fn place_block(&mut self, Ghost(before): Ghost<BlockGraph>, i: usize, offset: usize) -> (next:
        usize)
        requires
            before.spec_wired(),
            forall|j: int| 0 <= j < before.spec_len() ==> before.spec_node_fault(j) is None,
            spec_base(before.spec_shapes(), before.spec_len() as int) < usize::MAX,
            i < before.spec_len(),
            old(self).spec_placing(before, i as int),
            offset == spec_base(before.spec_shapes(), i as int),
        ensures
            final(self).spec_placing(before, i + 1),
            next == spec_base(before.spec_shapes(), i + 1),
    {
        let ghost shapes = before.spec_shapes();
        let ghost entry = *self;
        assert(before.spec_node_fault(i as int) is None);
        proof {
            before.blocks@[i as int].lemma_unplaced_widths();
            before.blocks@[i as int].lemma_unplaced_offsets();
        }
        let mut m: usize = 0;
        while m < self.nodes[i].edges_in.len()
            invariant
                before.spec_wired(),
                before.spec_arity_ok(i as int),
                shapes == before.spec_shapes(),
                i < before.spec_len(),
                entry.spec_placing(before, i as int),
                self.nodes == before.nodes,
                self.tape_size == before.tape_size,
                self.blocks@.len() == before.blocks@.len(),
                forall|j: int|
                    0 <= j < self.blocks@.len() && j != i ==> #[trigger] self.blocks@[j]
                        == entry.blocks@[j],
                self.blocks@[i as int].spec_unplaced() == before.blocks@[i as int],
                self.blocks@[i as int].spec_input_widths() == before.blocks@[i as int].spec_input_widths(),
                self.blocks@[i as int].spec_output_widths()
                    == before.blocks@[i as int].spec_output_widths(),
                self.blocks@[i as int].spec_input_offsets().len()
                    == before.blocks@[i as int].spec_input_widths().len(),
                m <= self.nodes@[i as int].edges_in@.len(),
                forall|q: int|
                    0 <= q < m ==> #[trigger] self.blocks@[i as int].spec_input_offsets()[q] == {
                        let (p, k) = before.spec_source(i as int, q);
                        spec_port_offset(shapes, p, k)
                    },
                forall|q: int|
                    m <= q < self.blocks@[i as int].spec_input_offsets().len()
                        ==> #[trigger] self.blocks@[i as int].spec_input_offsets()[q] == usize::MAX,
                self.blocks@[i as int].spec_output_offsets()
                    == before.blocks@[i as int].spec_output_offsets(),
            decreases self.nodes@[i as int].edges_in@.len() - m,
        {
            let p = self.nodes[i].edges_in[m].get_node_id();
            let k = self.nodes[i].edges_in[m].get_output_index();
            assert(before.spec_has_input(i as int, m as int));
            assert(before.spec_source(i as int, m as int) == (p as int, k as int));
            assert(before.spec_has_output(p as int, k as int));
            proof {
                self.blocks@[p as int].lemma_unplaced_widths();
                assert(self.blocks@[p as int] == entry.blocks@[p as int]);
            }
            let source_offset = self.blocks[p].get_output_offset(OutputSlot(k));
            proof {
                self.blocks@[i as int].lemma_with_input_offset(m as int, source_offset);
            }
            self.blocks[i].set_input_offset(InputSlot(m), source_offset);
            m += 1;
        }
        let slots = self.blocks[i].get_num_output_slots();
        let mut next: usize = offset;
        let mut k: usize = 0;
        while k < slots
            invariant
                before.spec_wired(),
                shapes == before.spec_shapes(),
                spec_base(shapes, before.spec_len() as int) < usize::MAX,
                i < before.spec_len(),
                entry.spec_placing(before, i as int),
                self.nodes == before.nodes,
                self.tape_size == before.tape_size,
                self.blocks@.len() == before.blocks@.len(),
                forall|j: int|
                    0 <= j < self.blocks@.len() && j != i ==> #[trigger] self.blocks@[j]
                        == entry.blocks@[j],
                self.blocks@[i as int].spec_unplaced() == before.blocks@[i as int],
                self.blocks@[i as int].spec_input_widths() == before.blocks@[i as int].spec_input_widths(),
                self.blocks@[i as int].spec_output_widths() == shapes[i as int],
                self.blocks@[i as int].spec_output_offsets().len() == shapes[i as int].len(),
                forall|q: int|
                    0 <= q < self.nodes@[i as int].edges_in@.len()
                        ==> #[trigger] self.blocks@[i as int].spec_input_offsets()[q] == {
                        let (p, k) = before.spec_source(i as int, q);
                        spec_port_offset(shapes, p, k)
                    },
                slots == shapes[i as int].len(),
                k <= slots,
                next == spec_port_offset(shapes, i as int, k as int),
                forall|t: int|
                    0 <= t < k ==> #[trigger] self.blocks@[i as int].spec_output_offsets()[t]
                        == spec_port_offset(shapes, i as int, t),
                forall|t: int|
                    k <= t < slots ==> #[trigger] self.blocks@[i as int].spec_output_offsets()[t]
                        == usize::MAX,
            decreases slots - k,
        {
            let width = self.blocks[i].get_num_output_values(OutputSlot(k));
            proof {
                lemma_sum_take_next(shapes[i as int], k as int);
                lemma_port_within_tape(shapes, i as int, k as int);
                self.blocks@[i as int].lemma_with_output_offset(k as int, next);
            }
            self.blocks[i].set_output_offset(OutputSlot(k), next);
            next = next + width;
            k += 1;
        }
        assert(shapes[i as int].take(slots as int) =~= shapes[i as int]);
        next
    }

    /// Freezes the graph and lays it out. Every block is checked first: it
    /// must carry no offset yet and expect exactly what is wired to it. Then
    /// each output slot gets its own stretch of the tape, in registration
    /// order, each input slot gets the stretch of the output that feeds it,
    /// and the tape size is the sum of all output widths. A refused graph is
    /// left as it was.
    pub fn finalize(&mut self) -> (r: Result<(), GraphError>)
        requires
            old(self).wf(),
        ensures
            final(self).wf(),
            match r {
                Err(e) => {
                    &&& *final(self) == *old(self)
                    &&& old(self).spec_finalize_fault() == Some(e)
                },
                Ok(_) => {
                    &&& old(self).spec_finalize_fault() is None
                    &&& final(self).spec_is_finalized()
                    &&& final(self).nodes == old(self).nodes
                    &&& final(self).blocks@.len() == old(self).blocks@.len()
                    &&& final(self).spec_shapes() == old(self).spec_shapes()
                    &&& final(self).tape_size == spec_base(
                        old(self).spec_shapes(),
                        old(self).spec_len() as int,
                    )
                    &&& forall|i: int|
                        0 <= i < old(self).spec_len() ==> old(self).blocks@[i]
                            == (#[trigger] final(self).blocks@[i]).spec_unplaced()
                },
            },
    {
        if self.tape_size != usize::MAX {
            return Err(GraphError::Finalized);
        }
        let mut i: usize = 0;
        while i < self.blocks.len()
            invariant
                *self == *old(self),
                self.wf(),
                !self.spec_is_finalized(),
                i <= self.spec_len(),
                forall|j: int| 0 <= j < i ==> self.spec_node_fault(j) is None,
            decreases self.spec_len() - i,
        {
            proof {
                self.lemma_nodes_fault_from(i as int);
            }
            if !self.blocks[i].is_unplaced() {
                return Err(GraphError::OffsetAssigned);
            }
            if !self.arity_matches(i) {
                return Err(GraphError::ArityMismatch);
            }
            i += 1;
        }
        proof {
            self.lemma_nodes_fault_from(self.spec_len() as int);
        }
        let total = match self.total_width() {
            Some(total) => total,
            None => {
                return Err(GraphError::TapeTooLarge);
            },
        };
        if total == usize::MAX {
            return Err(GraphError::TapeTooLarge);
        }
        let ghost before = *self;
        assert forall|j: int| 0 <= j < self.blocks@.len() implies (#[trigger] self.blocks@[j]).spec_unplaced()
            == before.blocks@[j] by {
            assert(before.spec_node_fault(j) is None);
        }
        let mut offset: usize = 0;
        let mut i: usize = 0;
        while i < self.blocks.len()
            invariant
                before == *old(self),
                before.spec_wired(),
                !before.spec_is_finalized(),
                forall|j: int| 0 <= j < before.spec_len() ==> before.spec_node_fault(j) is None,
                total == spec_base(before.spec_shapes(), before.spec_len() as int),
                total < usize::MAX,
                i <= before.spec_len(),
                self.spec_placing(before, i as int),
                offset == spec_base(before.spec_shapes(), i as int),
            decreases before.spec_len() - i,
        {
            offset = self.place_block(Ghost(before), i, offset);
            i += 1;
        }
        self.tape_size = total;
        proof {
            assert(self.spec_shapes() =~= before.spec_shapes()) by {
                assert forall|j: int| 0 <= j < self.spec_len() implies self.spec_shapes()[j]
                    == before.spec_shapes()[j] by {
                    self.blocks@[j].lemma_unplaced_widths();
                }
            }
            assert forall|j: int, k: int| #[trigger] self.spec_has_output(j, k) implies before.spec_has_output(
                j,
                k,
            ) by {}
            assert forall|j: int, m: int| #[trigger] self.spec_has_input(j, m) implies before.spec_has_input(
                j,
                m,
            ) && self.spec_source(j, m) == before.spec_source(j, m) by {}
            assert(self.spec_wired());
            assert forall|j: int| 0 <= j < self.spec_len() implies (#[trigger] self.blocks@[j]).spec_input_widths().len()
                == self.nodes@[j].edges_in@.len() by {
                self.blocks@[j].lemma_unplaced_widths();
                assert(before.spec_node_fault(j) is None);
            }
            assert forall|j: int, m: int| #[trigger] self.spec_has_input(j, m) implies {
                let (p, k) = self.spec_source(j, m);
                &&& self.blocks@[j].spec_input_widths()[m] == self.spec_shapes()[p][k]
                &&& self.blocks@[j].spec_input_offsets()[m] == spec_port_offset(
                    self.spec_shapes(),
                    p,
                    k,
                )
            } by {
                self.blocks@[j].lemma_unplaced_widths();
                assert(before.spec_node_fault(j) is None);
                assert(before.spec_has_input(j, m));
                let (p, k) = before.spec_source(j, m);
            }
            assert(self.spec_laid_out());
        }
        Ok(())
    }

    /// The widths of the given outputs, added up. Refused when a handle names
    /// no output of this graph, or when the sum does not fit in `usize`.
    pub fn get_num_output_values(&self, outputs: Vec<&BlockPtrOutput>) -> (r: Result<
        usize,
        GraphError,
    >)
        requires
            self.wf(),
        ensures
            match r {
                Ok(total) => self.spec_all_known(outputs@) && total == self.spec_widths_sum(
                    outputs@,
                    outputs@.len() as int,
                ),
                Err(e) => if !self.spec_all_known(outputs@) {
                    e == GraphError::UnknownOutput
                } else {
                    e == GraphError::TapeTooLarge && self.spec_widths_sum(
                        outputs@,
                        outputs@.len() as int,
                    ) > usize::MAX
                },
            },
    {
        let mut m: usize = 0;
        while m < outputs.len()
            invariant
                self.wf(),
                m <= outputs@.len(),
                forall|q: int|
                    0 <= q < m ==> self.spec_has_output(
                        (#[trigger] outputs@[q]).spec_node_id(),
                        outputs@[q].spec_output_index(),
                    ),
            decreases outputs@.len() - m,
        {
            let p = outputs[m].get_node_id();
            let k = outputs[m].get_output_index();
            if p >= self.nodes.len() || k >= self.nodes[p].edges_out.len() {
                return Err(GraphError::UnknownOutput);
            }
            m += 1;
        }
        let mut total: usize = 0;
        let mut m: usize = 0;
        while m < outputs.len()
            invariant
                self.wf(),
                self.spec_all_known(outputs@),
                m <= outputs@.len(),
                total == self.spec_widths_sum(outputs@, m as int),
            decreases outputs@.len() - m,
        {
            let p = outputs[m].get_node_id();
            let k = outputs[m].get_output_index();
            let width = self.blocks[p].get_num_output_values(OutputSlot(k));
            match total.checked_add(width) {
                Some(sum) => {
                    total = sum;
                },
                None => {
                    proof {
                        self.lemma_widths_sum_grows(outputs@, m as int + 1, outputs@.len() as int);
                    }
                    return Err(GraphError::TapeTooLarge);
                },
            }
            m += 1;
        }
        Ok(total)
    }

    /// The size of the tape that finalize has planned.
    pub fn get_tape_size(&self) -> (r: usize)
        requires
            self.spec_is_finalized(),
        ensures
            r == self.tape_size,
    {
        self.tape_size
    }

    /// Lets every block allocate its weights, in registration order. No block
    /// of this set has any, so the graph holds afterwards what it held
    /// before: the same blocks with the same offsets, the same wiring and the
    /// same tape size. A well-formed graph stays well-formed, and a finalized
    /// one finalized.
    pub fn allocate_and_init_weights(&mut self, mi: &ModelInstance)
        ensures
            final(self)@ == old(self)@,
            old(self).wf() ==> final(self).wf(),
    {
        let mut i: usize = 0;
        while i < self.blocks.len()
            invariant
                self@ == old(self)@,
            decreases self.blocks@.len() - i,
        {
            let ghost blocks = self.blocks@;
            self.blocks[i].allocate_and_init_weights(mi);
            assert(self.blocks@ =~= blocks);
            i += 1;
        }
        proof {
            if old(self).wf() {
                old(self).lemma_wf_depends_on_view(*self);
            }
        }
    }

    /// A zeroed tape of the size that finalize has planned, with no
    /// observations. One buffer serves any number of evaluations in turn.
    pub fn new_port_buffer(&self) -> (pb: PortBuffer)
        requires
            self.spec_is_finalized(),
        ensures
            pb.tape_len == self.tape_size,
            pb@ == spec_blank(self.tape_size as nat),
    {
        PortBuffer::new(self.tape_size)
    }

    /// Number of registered blocks.
    pub fn len(&self) -> (r: usize)
        ensures
            r == self.spec_len(),
    {
        self.blocks.len()
    }

    /// Whether finalize has run.
    pub fn is_finalized(&self) -> (r: bool)
        ensures
            r == self.spec_is_finalized(),
    {
        self.tape_size != usize::MAX
    }
}

} // verus!
