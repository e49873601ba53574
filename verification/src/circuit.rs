//! The circuit under assembly: parts, wires and the numbering of pins.
//!
//! Pins live in two numbering spaces, one for input pins and one for output
//! pins. In each space pins are handed out from 0 upwards, one at a time for a
//! pin on the circuit's boundary and in a contiguous block for a part. A
//! circuit records where each part's blocks begin, so that the owner of every
//! pin can be told from the circuit alone.

use vstd::prelude::*;
use crate::parts::{
    Adder, And, Comparator, Constant, Divider, IfGate, Multiplier, Part, Resistor, Subtractor,
};

verus! {

/// Where the pins of a part begin inside the circuit that holds it.
///
/// The part's first input pin is `input_offset`, the next `input_offset + 1`
/// and so on; likewise for its output pins from `output_offset`.
#[derive(Debug, Clone, Copy, PartialEq, Eq, Structural)]
pub struct PartInfo {
    pub input_offset: usize,
    pub output_offset: usize,
}

/// The mathematical model of a part.
pub enum PartView {
    Adder,
    Subtractor,
    Multiplier,
    Divider,
    Comparator,
    And,
    IfGate,
    Constant(i32),
    Resistor(u32),
    Circuit(CircuitView),
}

/// The mathematical model of a circuit.
pub struct CircuitView {
    pub parts: Seq<PartView>,
    pub placements: Seq<PartInfo>,
    pub connections: Seq<(usize, usize)>,
    pub program_inputs: Seq<usize>,
    pub program_outputs: Seq<usize>,
    pub next_input_index: usize,
    pub next_output_index: usize,
    pub name: Option<Seq<char>>,
}

impl PartView {
    /// Number of input pins: a composite part counts every input pin that was
    /// ever allocated in it.
    pub open spec fn input_size(self) -> nat {
        match self {
            PartView::Constant(_) => 0,
            PartView::Resistor(_) => 1,
            PartView::Circuit(c) => c.next_input_index as nat,
            _ => 2,
        }
    }

    /// Number of output pins: a composite part counts every output pin that
    /// was ever allocated in it.
    pub open spec fn output_size(self) -> nat {
        match self {
            PartView::IfGate => 2,
            PartView::Circuit(c) => c.next_output_index as nat,
            _ => 1,
        }
    }

    /// The display name.
    pub open spec fn name(self) -> Seq<char> {
        match self {
            PartView::Adder => "Adder"@,
            PartView::Subtractor => "Subtractor"@,
            PartView::Multiplier => "Multiplier"@,
            PartView::Divider => "Divider"@,
            PartView::Comparator => "Comparator"@,
            PartView::And => "And"@,
            PartView::IfGate => "IfGate"@,
            PartView::Constant(_) => "Constant"@,
            PartView::Resistor(_) => "Resistor"@,
            PartView::Circuit(c) => c.display_name(),
        }
    }
}

/// A numbering space is laid out when the pins `0..next` are shared out
/// without gap or overlap: every pin is either one of `singles` or lies in
/// exactly one of the `blocks`, and both lists are in the order in which the
/// pins were handed out. A block is its first pin and its length.
pub open spec fn laid_out(blocks: Seq<(int, int)>, singles: Seq<usize>, next: int) -> bool {
    &&& 0 <= next
    &&& forall|k: int| 0 <= k < blocks.len() ==> 0 <= (#[trigger] blocks[k]).0 && 0 <= blocks[k].1
    &&& forall|k: int|
        0 <= k < blocks.len() ==> (#[trigger] blocks[k]).0 + blocks[k].1 <= next
    &&& forall|j: int, k: int|
        0 <= j < k < blocks.len() ==> (#[trigger] blocks[j]).0 + blocks[j].1 <= (
        #[trigger] blocks[k]).0
    &&& forall|i: int| 0 <= i < singles.len() ==> (#[trigger] singles[i]) < next
    &&& forall|i: int, j: int|
        0 <= i < j < singles.len() ==> (#[trigger] singles[i]) < (#[trigger] singles[j])
    &&& forall|i: int, k: int|
        0 <= i < singles.len() && 0 <= k < blocks.len() ==> !in_block(
            #[trigger] blocks[k],
            #[trigger] singles[i] as int,
        )
    &&& forall|p: int| 0 <= p < next ==> #[trigger] owned(blocks, singles, p)
}

/// Whether pin `p` lies in the block `b`.
pub open spec fn in_block(b: (int, int), p: int) -> bool {
    b.0 <= p < b.0 + b.1
}

/// Whether pin `p` was handed out, to the boundary or to a part.
pub open spec fn owned(blocks: Seq<(int, int)>, singles: Seq<usize>, p: int) -> bool {
    ||| exists|i: int| 0 <= i < singles.len() && #[trigger] singles[i] == p
    ||| exists|k: int| 0 <= k < blocks.len() && in_block(#[trigger] blocks[k], p)
}

/// Handing out one more boundary pin at `next` keeps a space laid out.
pub proof fn lemma_laid_out_push_single(blocks: Seq<(int, int)>, singles: Seq<usize>, next: int)
    requires
        laid_out(blocks, singles, next),
        next < usize::MAX,
    ensures
        laid_out(blocks, singles.push(next as usize), next + 1),
{
    let s2 = singles.push(next as usize);
    assert forall|p: int| 0 <= p < next + 1 implies #[trigger] owned(blocks, s2, p) by {
        if p < next {
            assert(owned(blocks, singles, p));
            if exists|i: int| 0 <= i < singles.len() && #[trigger] singles[i] == p {
                let i = choose|i: int| 0 <= i < singles.len() && #[trigger] singles[i] == p;
                assert(s2[i] == p);
            }
        } else {
            assert(s2[singles.len() as int] == p);
        }
    }
}

/// Handing out one more block of `size` pins at `next` keeps a space laid out.
pub proof fn lemma_laid_out_push_block(
    blocks: Seq<(int, int)>,
    singles: Seq<usize>,
    next: int,
    size: int,
)
    requires
        laid_out(blocks, singles, next),
        0 <= size,
    ensures
        laid_out(blocks.push((next, size)), singles, next + size),
{
    let b2 = blocks.push((next, size));
    assert forall|p: int| 0 <= p < next + size implies #[trigger] owned(b2, singles, p) by {
        if p < next {
            assert(owned(blocks, singles, p));
            if exists|k: int| 0 <= k < blocks.len() && in_block(#[trigger] blocks[k], p) {
                let k = choose|k: int| 0 <= k < blocks.len() && in_block(#[trigger] blocks[k], p);
                assert(in_block(b2[k], p));
            }
        } else {
            assert(in_block(b2[blocks.len() as int], p));
        }
    }
}

impl CircuitView {
    /// The circuit that holds nothing yet.
    pub open spec fn empty() -> CircuitView {
        CircuitView {
            parts: Seq::empty(),
            placements: Seq::empty(),
            connections: Seq::empty(),
            program_inputs: Seq::empty(),
            program_outputs: Seq::empty(),
            next_input_index: 0,
            next_output_index: 0,
            name: None,
        }
    }

    /// The name shown for the circuit.
    pub open spec fn display_name(self) -> Seq<char> {
        match self.name {
            Some(n) => n,
            None => "Unnamed Circuit"@,
        }
    }

    /// The blocks of input pins of the parts, in the order of the parts.
    pub open spec fn input_blocks(self) -> Seq<(int, int)> {
        Seq::new(
            self.parts.len(),
            |k: int| (self.placements[k].input_offset as int, self.parts[k].input_size() as int),
        )
    }

    /// The blocks of output pins of the parts, in the order of the parts.
    pub open spec fn output_blocks(self) -> Seq<(int, int)> {
        Seq::new(
            self.parts.len(),
            |k: int| (self.placements[k].output_offset as int, self.parts[k].output_size() as int),
        )
    }

    /// The pins of both numbering spaces are shared out without gap or
    /// overlap between the circuit's boundary and its parts.
    pub open spec fn pins_laid_out(self) -> bool {
        &&& self.placements.len() == self.parts.len()
        &&& laid_out(self.input_blocks(), self.program_inputs, self.next_input_index as int)
        &&& laid_out(self.output_blocks(), self.program_outputs, self.next_output_index as int)
    }

    /// A circuit is well formed when its pins are laid out and every circuit
    /// embedded in it as a part is well formed too.
    pub open spec fn wf(self) -> bool
        decreases self,
    {
        &&& self.pins_laid_out()
        &&& forall|k: int|
            0 <= k < self.parts.len() ==> (#[trigger] self.parts[k] matches PartView::Circuit(c)
                ==> c.wf())
    }

    /// The circuit after one more boundary input pin.
    pub open spec fn with_program_input(self) -> CircuitView {
        CircuitView {
            program_inputs: self.program_inputs.push(self.next_input_index),
            next_input_index: (self.next_input_index + 1) as usize,
            ..self
        }
    }

    /// The circuit after one more boundary output pin.
    pub open spec fn with_program_output(self) -> CircuitView {
        CircuitView {
            program_outputs: self.program_outputs.push(self.next_output_index),
            next_output_index: (self.next_output_index + 1) as usize,
            ..self
        }
    }

    /// The circuit after one more wire.
    pub open spec fn with_connection(self, from: usize, to: usize) -> CircuitView {
        CircuitView { connections: self.connections.push((from, to)), ..self }
    }

    /// Where the next part's pins will begin.
    pub open spec fn next_placement(self) -> PartInfo {
        PartInfo { input_offset: self.next_input_index, output_offset: self.next_output_index }
    }

    /// Whether a part with these pin counts still fits in the numbering spaces.
    pub open spec fn has_room(self, inputs: nat, outputs: nat) -> bool {
        &&& self.next_input_index + inputs <= usize::MAX
        &&& self.next_output_index + outputs <= usize::MAX
    }

    /// The circuit after one more part.
    pub open spec fn with_part(self, part: PartView) -> CircuitView {
        CircuitView {
            parts: self.parts.push(part),
            placements: self.placements.push(self.next_placement()),
            next_input_index: (self.next_input_index + part.input_size()) as usize,
            next_output_index: (self.next_output_index + part.output_size()) as usize,
            ..self
        }
    }

    /// The circuit under another name.
    pub open spec fn with_name(self, name: Seq<char>) -> CircuitView {
        CircuitView { name: Some(name), ..self }
    }
}

/// A part of any kind, as a circuit holds it.
#[derive(Debug)]
pub enum Component {
    Adder(Adder),
    Subtractor(Subtractor),
    Multiplier(Multiplier),
    Divider(Divider),
    Comparator(Comparator),
    And(And),
    IfGate(IfGate),
    Constant(Constant),
    Resistor(Resistor),
    Circuit(Circuit),
}

/// A graph of parts and wires: what one function, or the whole program,
/// compiles to.
#[derive(Debug)]
pub struct Circuit {
    parts: Vec<Component>,
    placements: Vec<PartInfo>,
    connections: Vec<(usize, usize)>,
    program_inputs: Vec<usize>,
    program_outputs: Vec<usize>,
    next_input_index: usize,
    next_output_index: usize,
    name: Option<String>,
}

/// The model of a part.
pub open spec fn component_view(p: Component) -> PartView
    decreases p,
{
    match p {
        Component::Adder(_) => PartView::Adder,
        Component::Subtractor(_) => PartView::Subtractor,
        Component::Multiplier(_) => PartView::Multiplier,
        Component::Divider(_) => PartView::Divider,
        Component::Comparator(_) => PartView::Comparator,
        Component::And(_) => PartView::And,
        Component::IfGate(_) => PartView::IfGate,
        Component::Constant(k) => PartView::Constant(k.value),
        Component::Resistor(r) => PartView::Resistor(r.ohms),
        Component::Circuit(c) => PartView::Circuit(circuit_view(c)),
    }
}

/// The model of a circuit.
pub closed spec fn circuit_view(c: Circuit) -> CircuitView
    decreases c,
{
    CircuitView {
        parts: Seq::new(
            c.parts@.len(),
            |k: int|
                if 0 <= k < c.parts@.len() {
                    component_view(c.parts@[k])
                } else {
                    PartView::Adder
                },
        ),
        placements: c.placements@,
        connections: c.connections@,
        program_inputs: c.program_inputs@,
        program_outputs: c.program_outputs@,
        next_input_index: c.next_input_index,
        next_output_index: c.next_output_index,
        name: match c.name {
            Some(n) => Some(n@),
            None => None,
        },
    }
}

impl View for Component {
    type V = PartView;

    open spec fn view(&self) -> PartView {
        component_view(*self)
    }
}

impl View for Circuit {
    type V = CircuitView;

    open spec fn view(&self) -> CircuitView {
        circuit_view(*self)
    }
}

impl Circuit {
    /// A circuit with no part, no wire and no pin.
    pub fn new() -> (c: Circuit)
        ensures
            c@ == CircuitView::empty(),
            c@.wf(),
    {
        let c = Circuit {
            parts: Vec::new(),
            placements: Vec::new(),
            connections: Vec::new(),
            program_inputs: Vec::new(),
            program_outputs: Vec::new(),
            next_input_index: 0,
            next_output_index: 0,
            name: None,
        };
        proof {
            assert(c@.parts =~= Seq::<PartView>::empty());
            assert(c@.input_blocks() =~= Seq::<(int, int)>::empty());
            assert(c@.output_blocks() =~= Seq::<(int, int)>::empty());
        }
        c
    }

    /// Gives the circuit a name, in place of any it had.
    pub fn set_name(&mut self, name: String)
        ensures
            final(self)@ == old(self)@.with_name(name@),
            old(self)@.wf() ==> final(self)@.wf(),
    {
        self.name = Some(name);
        proof {
            assert(self@.parts =~= old(self)@.parts);
            if old(self)@.wf() {
                lemma_with_name_wf(old(self)@, name@);
            }
        }
    }

    /// Whether a part with these pin counts can still be added.
    pub fn has_room(&self, inputs: usize, outputs: usize) -> (b: bool)
        ensures
            b == self@.has_room(inputs as nat, outputs as nat),
    {
        inputs <= usize::MAX - self.next_input_index && outputs <= usize::MAX
            - self.next_output_index
    }

    /// Appends a part and reserves its pins: a block of input pins from the
    /// next free input pin, a block of output pins from the next free output
    /// pin. Returns where the two blocks begin.
    pub fn add_part(&mut self, part: Component) -> (info: PartInfo)
        requires
            old(self)@.has_room(part@.input_size(), part@.output_size()),
        ensures
            info == old(self)@.next_placement(),
            final(self)@ == old(self)@.with_part(part@),
            old(self)@.wf() && (part@ matches PartView::Circuit(c) ==> c.wf())
                ==> final(self)@.wf(),
    {
        let part_info = PartInfo {
            input_offset: self.next_input_index,
            output_offset: self.next_output_index,
        };

        // get the size of the inputs and outputs of the part
        let input_size = part.get_input_size();
        let output_size = part.get_output_size();
        // update the next input/output index
        self.next_input_index += input_size;
        self.next_output_index += output_size;

        self.parts.push(part);
        self.placements.push(part_info);

        proof {
            let before = old(self)@;
            let after = before.with_part(part@);
            assert(self@.parts =~= after.parts);
            if before.wf() && (part@ matches PartView::Circuit(c) ==> c.wf()) {
                lemma_with_part_wf(before, part@);
            }
        }
        part_info
    }

    /// Records a wire from an output pin to an input pin. Nothing is asked of
    /// the two pins, and the pins of the circuit stay as they are.
    pub fn connect(&mut self, from: usize, to: usize)
        ensures
            final(self)@ == old(self)@.with_connection(from, to),
            old(self)@.wf() ==> final(self)@.wf(),
    {
        self.connections.push((from, to));
        proof {
            assert(self@.parts =~= old(self)@.parts);
            if old(self)@.wf() {
                lemma_with_connection_wf(old(self)@, from, to);
            }
        }
    }

    /// Reserves the next free input pin as an input of the circuit itself and
    /// returns it. The inputs keep the order in which they were added.
    pub fn add_program_input(&mut self) -> (index: usize)
        requires
            old(self)@.next_input_index < usize::MAX,
        ensures
            index == old(self)@.next_input_index,
            final(self)@ == old(self)@.with_program_input(),
            old(self)@.wf() ==> final(self)@.wf(),
    {
        let index = self.next_input_index;
        self.program_inputs.push(index);
        self.next_input_index += 1;
        proof {
            assert(self@.parts =~= old(self)@.parts);
            if old(self)@.wf() {
                lemma_with_program_input_wf(old(self)@);
            }
        }
        index
    }

    /// Reserves the next free output pin as an output of the circuit itself
    /// and returns it. The outputs keep the order in which they were added.
    pub fn add_program_output(&mut self) -> (index: usize)
        requires
            old(self)@.next_output_index < usize::MAX,
        ensures
            index == old(self)@.next_output_index,
            final(self)@ == old(self)@.with_program_output(),
            old(self)@.wf() ==> final(self)@.wf(),
    {
        let index = self.next_output_index;
        self.program_outputs.push(index);
        self.next_output_index += 1;
        proof {
            assert(self@.parts =~= old(self)@.parts);
            if old(self)@.wf() {
                lemma_with_program_output_wf(old(self)@);
            }
        }
        index
    }
}

impl CircuitView {
    /// The parts' blocks do not depend on the wires, the boundary pins or the name.
    pub proof fn lemma_same_blocks(self, other: CircuitView)
        requires
            self.parts == other.parts,
            self.placements == other.placements,
        ensures
            self.input_blocks() == other.input_blocks(),
            self.output_blocks() == other.output_blocks(),
    {
        assert(self.input_blocks() =~= other.input_blocks());
        assert(self.output_blocks() =~= other.output_blocks());
    }
}

/// A well-formed circuit stays well formed when a wire is added.
pub proof fn lemma_with_connection_wf(c: CircuitView, from: usize, to: usize)
    requires
        c.wf(),
    ensures
        c.with_connection(from, to).wf(),
{
    c.lemma_same_blocks(c.with_connection(from, to));
}

/// A well-formed circuit stays well formed under another name.
pub proof fn lemma_with_name_wf(c: CircuitView, name: Seq<char>)
    requires
        c.wf(),
    ensures
        c.with_name(name).wf(),
{
    c.lemma_same_blocks(c.with_name(name));
}

/// A well-formed circuit stays well formed when it gets one more boundary input.
pub proof fn lemma_with_program_input_wf(c: CircuitView)
    requires
        c.wf(),
        c.next_input_index < usize::MAX,
    ensures
        c.with_program_input().wf(),
{
    let d = c.with_program_input();
    c.lemma_same_blocks(d);
    lemma_laid_out_push_single(c.input_blocks(), c.program_inputs, c.next_input_index as int);
}

/// A well-formed circuit stays well formed when it gets one more boundary output.
pub proof fn lemma_with_program_output_wf(c: CircuitView)
    requires
        c.wf(),
        c.next_output_index < usize::MAX,
    ensures
        c.with_program_output().wf(),
{
    let d = c.with_program_output();
    c.lemma_same_blocks(d);
    lemma_laid_out_push_single(c.output_blocks(), c.program_outputs, c.next_output_index as int);
}

/// A well-formed circuit stays well formed when a part that fits is added.
pub proof fn lemma_with_part_wf(c: CircuitView, part: PartView)
    requires
        c.wf(),
        part matches PartView::Circuit(inner) ==> inner.wf(),
        c.has_room(part.input_size(), part.output_size()),
    ensures
        c.with_part(part).wf(),
{
    let d = c.with_part(part);
    assert(d.input_blocks() =~= c.input_blocks().push(
        (c.next_input_index as int, part.input_size() as int),
    ));
    assert(d.output_blocks() =~= c.output_blocks().push(
        (c.next_output_index as int, part.output_size() as int),
    ));
    lemma_laid_out_push_block(
        c.input_blocks(),
        c.program_inputs,
        c.next_input_index as int,
        part.input_size() as int,
    );
    lemma_laid_out_push_block(
        c.output_blocks(),
        c.program_outputs,
        c.next_output_index as int,
        part.output_size() as int,
    );
    assert forall|k: int| 0 <= k < d.parts.len() implies (
    #[trigger] d.parts[k] matches PartView::Circuit(inner) ==> inner.wf()) by {
        if k < c.parts.len() {
            assert(d.parts[k] == c.parts[k]);
        }
    }
}

/// In a space that is laid out no pin has two owners, and the pins that have
/// an owner are exactly those below the next free one.
pub proof fn lemma_laid_out_owner_unique(blocks: Seq<(int, int)>, singles: Seq<usize>, next: int)
    requires
        laid_out(blocks, singles, next),
    ensures
        forall|i: int, j: int|
            0 <= i < singles.len() && 0 <= j < singles.len() && singles[i] == singles[j] ==> i
                == j,
        forall|j: int, k: int, p: int|
            0 <= j < blocks.len() && 0 <= k < blocks.len() && in_block(blocks[j], p) && in_block(
                blocks[k],
                p,
            ) ==> j == k,
        forall|i: int, k: int|
            0 <= i < singles.len() && 0 <= k < blocks.len() ==> !in_block(
                blocks[k],
                singles[i] as int,
            ),
        forall|p: int| owned(blocks, singles, p) <==> 0 <= p < next,
{
    assert forall|i: int, j: int|
        0 <= i < singles.len() && 0 <= j < singles.len() && singles[i] == singles[j] implies i
        == j by {
        if i < j {
            assert(singles[i] < singles[j]);
        }
        if j < i {
            assert(singles[j] < singles[i]);
        }
    }
    assert forall|j: int, k: int, p: int|
        0 <= j < blocks.len() && 0 <= k < blocks.len() && in_block(blocks[j], p) && in_block(
            blocks[k],
            p,
        ) implies j == k by {
        if j < k {
            assert(blocks[j].0 + blocks[j].1 <= blocks[k].0);
        }
        if k < j {
            assert(blocks[k].0 + blocks[k].1 <= blocks[j].0);
        }
    }
    assert forall|p: int| owned(blocks, singles, p) implies 0 <= p < next by {
        if exists|i: int| 0 <= i < singles.len() && #[trigger] singles[i] == p {
            let i = choose|i: int| 0 <= i < singles.len() && #[trigger] singles[i] == p;
            assert(singles[i] < next);
        } else {
            let k = choose|k: int| 0 <= k < blocks.len() && in_block(#[trigger] blocks[k], p);
            assert(blocks[k].0 + blocks[k].1 <= next);
            assert(0 <= blocks[k].0);
        }
    }
}

impl CircuitView {
    /// Whether input pin `p` is one of the inputs of the circuit itself.
    pub open spec fn is_program_input(self, p: int) -> bool {
        exists|i: int| 0 <= i < self.program_inputs.len() && #[trigger] self.program_inputs[i] == p
    }

    /// Whether output pin `p` is one of the outputs of the circuit itself.
    pub open spec fn is_program_output(self, p: int) -> bool {
        exists|i: int|
            0 <= i < self.program_outputs.len() && #[trigger] self.program_outputs[i] == p
    }

    /// Whether input pin `p` is one of the input pins of part `k`.
    pub open spec fn part_has_input(self, k: int, p: int) -> bool {
        &&& 0 <= k < self.parts.len()
        &&& self.placements[k].input_offset <= p < self.placements[k].input_offset
            + self.parts[k].input_size()
    }

    /// Whether output pin `p` is one of the output pins of part `k`.
    pub open spec fn part_has_output(self, k: int, p: int) -> bool {
        &&& 0 <= k < self.parts.len()
        &&& self.placements[k].output_offset <= p < self.placements[k].output_offset
            + self.parts[k].output_size()
    }

    /// Pin uniqueness: in a well-formed circuit the input pins that were
    /// handed out are exactly `0, 1, ...` up to the next free one, no two of
    /// the circuit's own inputs are the same pin, no pin belongs to two
    /// parts, and none belongs both to a part and to the circuit itself. The
    /// same holds of the output pins.
    pub proof fn lemma_pins_distinct_and_consecutive(self)
        requires
            self.wf(),
        ensures
            forall|p: int|
                0 <= p < self.next_input_index <==> (self.is_program_input(p) || exists|k: int|
                    self.part_has_input(k, p)),
            forall|p: int|
                0 <= p < self.next_output_index <==> (self.is_program_output(p) || exists|k: int|
                    self.part_has_output(k, p)),
            forall|i: int, j: int|
                0 <= i < j < self.program_inputs.len() ==> self.program_inputs[i]
                    != self.program_inputs[j],
            forall|i: int, j: int|
                0 <= i < j < self.program_outputs.len() ==> self.program_outputs[i]
                    != self.program_outputs[j],
            forall|j: int, k: int, p: int|
                self.part_has_input(j, p) && self.part_has_input(k, p) ==> j == k,
            forall|j: int, k: int, p: int|
                self.part_has_output(j, p) && self.part_has_output(k, p) ==> j == k,
            forall|k: int, p: int| self.part_has_input(k, p) ==> !self.is_program_input(p),
            forall|k: int, p: int| self.part_has_output(k, p) ==> !self.is_program_output(p),
    {
        let ib = self.input_blocks();
        let ob = self.output_blocks();
        lemma_laid_out_owner_unique(ib, self.program_inputs, self.next_input_index as int);
        lemma_laid_out_owner_unique(ob, self.program_outputs, self.next_output_index as int);
        assert forall|k: int, p: int| self.part_has_input(k, p) <==> (0 <= k < ib.len()
            && in_block(ib[k], p)) by {}
        assert forall|k: int, p: int| self.part_has_output(k, p) <==> (0 <= k < ob.len()
            && in_block(ob[k], p)) by {}
        assert forall|p: int|
            0 <= p < self.next_input_index <==> (self.is_program_input(p) || exists|k: int|
                self.part_has_input(k, p)) by {
            if 0 <= p < self.next_input_index {
                assert(owned(ib, self.program_inputs, p));
                if !self.is_program_input(p) {
                    let k = choose|k: int| 0 <= k < ib.len() && in_block(#[trigger] ib[k], p);
                    assert(self.part_has_input(k, p));
                }
            }
            if self.is_program_input(p) {
                assert(owned(ib, self.program_inputs, p));
            }
            if exists|k: int| self.part_has_input(k, p) {
                let k = choose|k: int| self.part_has_input(k, p);
                assert(in_block(ib[k], p));
                assert(owned(ib, self.program_inputs, p));
            }
        }
        assert forall|p: int|
            0 <= p < self.next_output_index <==> (self.is_program_output(p) || exists|k: int|
                self.part_has_output(k, p)) by {
            if 0 <= p < self.next_output_index {
                assert(owned(ob, self.program_outputs, p));
                if !self.is_program_output(p) {
                    let k = choose|k: int| 0 <= k < ob.len() && in_block(#[trigger] ob[k], p);
                    assert(self.part_has_output(k, p));
                }
            }
            if self.is_program_output(p) {
                assert(owned(ob, self.program_outputs, p));
            }
            if exists|k: int| self.part_has_output(k, p) {
                let k = choose|k: int| self.part_has_output(k, p);
                assert(in_block(ob[k], p));
                assert(owned(ob, self.program_outputs, p));
            }
        }
        assert forall|k: int, p: int| self.part_has_input(k, p) implies !self.is_program_input(
            p,
        ) by {
            if self.is_program_input(p) {
                let i = choose|i: int|
                    0 <= i < self.program_inputs.len() && #[trigger] self.program_inputs[i] == p;
                assert(!in_block(ib[k], self.program_inputs[i] as int));
            }
        }
        assert forall|k: int, p: int| self.part_has_output(k, p) implies !self.is_program_output(
            p,
        ) by {
            if self.is_program_output(p) {
                let i = choose|i: int|
                    0 <= i < self.program_outputs.len() && #[trigger] self.program_outputs[i] == p;
                assert(!in_block(ob[k], self.program_outputs[i] as int));
            }
        }
    }
}

impl Part for Circuit {
    open spec fn input_pins(&self) -> nat {
        self@.next_input_index as nat
    }

    open spec fn output_pins(&self) -> nat {
        self@.next_output_index as nat
    }

    open spec fn name(&self) -> Seq<char> {
        self@.display_name()
    }

    fn get_name(&self) -> (s: String) {
        match &self.name {
            Some(n) => n.clone(),
            None => "Unnamed Circuit".to_owned(),
        }
    }

    fn get_input_size(&self) -> (n: usize) {
        self.next_input_index
    }

    fn get_output_size(&self) -> (n: usize) {
        self.next_output_index
    }
}

impl Part for Component {
    open spec fn input_pins(&self) -> nat {
        self@.input_size()
    }

    open spec fn output_pins(&self) -> nat {
        self@.output_size()
    }

    open spec fn name(&self) -> Seq<char> {
        self@.name()
    }

    fn get_name(&self) -> (s: String) {
        match self {
            Component::Adder(p) => p.get_name(),
            Component::Subtractor(p) => p.get_name(),
            Component::Multiplier(p) => p.get_name(),
            Component::Divider(p) => p.get_name(),
            Component::Comparator(p) => p.get_name(),
            Component::And(p) => p.get_name(),
            Component::IfGate(p) => p.get_name(),
            Component::Constant(p) => p.get_name(),
            Component::Resistor(p) => p.get_name(),
            Component::Circuit(p) => p.get_name(),
        }
    }

    fn get_input_size(&self) -> (n: usize) {
        match self {
            Component::Adder(p) => p.get_input_size(),
            Component::Subtractor(p) => p.get_input_size(),
            Component::Multiplier(p) => p.get_input_size(),
            Component::Divider(p) => p.get_input_size(),
            Component::Comparator(p) => p.get_input_size(),
            Component::And(p) => p.get_input_size(),
            Component::IfGate(p) => p.get_input_size(),
            Component::Constant(p) => p.get_input_size(),
            Component::Resistor(p) => p.get_input_size(),
            Component::Circuit(p) => p.get_input_size(),
        }
    }

    fn get_output_size(&self) -> (n: usize) {
        match self {
            Component::Adder(p) => p.get_output_size(),
            Component::Subtractor(p) => p.get_output_size(),
            Component::Multiplier(p) => p.get_output_size(),
            Component::Divider(p) => p.get_output_size(),
            Component::Comparator(p) => p.get_output_size(),
            Component::And(p) => p.get_output_size(),
            Component::IfGate(p) => p.get_output_size(),
            Component::Constant(p) => p.get_output_size(),
            Component::Resistor(p) => p.get_output_size(),
            Component::Circuit(p) => p.get_output_size(),
        }
    }
}

impl Circuit {
    /// The parts, in the order in which they were added.
    pub fn parts(&self) -> (r: &Vec<Component>)
        ensures
            r@.len() == self@.parts.len(),
            forall|k: int| 0 <= k < r@.len() ==> (#[trigger] r@[k])@ == self@.parts[k],
    {
        &self.parts
    }

    /// Where each part's pins begin, in the order of the parts.
    pub fn placements(&self) -> (r: &Vec<PartInfo>)
        ensures
            r@ == self@.placements,
    {
        &self.placements
    }

    /// The wires, in the order in which they were recorded.
    pub fn connections(&self) -> (r: &Vec<(usize, usize)>)
        ensures
            r@ == self@.connections,
    {
        &self.connections
    }

    /// The input pins of the circuit itself, in the order in which they were added.
    pub fn program_inputs(&self) -> (r: &Vec<usize>)
        ensures
            r@ == self@.program_inputs,
    {
        &self.program_inputs
    }

    /// The output pins of the circuit itself, in the order in which they were added.
    pub fn program_outputs(&self) -> (r: &Vec<usize>)
        ensures
            r@ == self@.program_outputs,
    {
        &self.program_outputs
    }
}

/// A copy of a list of plain values.
fn copy_of<T: Copy>(v: &Vec<T>) -> (r: Vec<T>)
    ensures
        r@ == v@,
{
    let mut r: Vec<T> = Vec::new();
    let mut i: usize = 0;
    while i < v.len()
        invariant
            i <= v.len(),
            r@ == v@.subrange(0, i as int),
        decreases v.len() - i,
    {
        r.push(v[i]);
        i += 1;
        proof {
            assert(r@ =~= v@.subrange(0, i as int));
        }
    }
    proof {
        assert(r@ =~= v@);
    }
    r
}

impl Clone for Component {
    /// A deep copy: a composite part is copied with all that it holds.
    fn clone(&self) -> (r: Component)
        ensures
            r@ == self@,
        decreases *self,
    {
        match self {
            Component::Adder(_) => Component::Adder(Adder {  }),
            Component::Subtractor(_) => Component::Subtractor(Subtractor {  }),
            Component::Multiplier(_) => Component::Multiplier(Multiplier {  }),
            Component::Divider(_) => Component::Divider(Divider {  }),
            Component::Comparator(_) => Component::Comparator(Comparator {  }),
            Component::And(_) => Component::And(And {  }),
            Component::IfGate(_) => Component::IfGate(IfGate {  }),
            Component::Constant(k) => Component::Constant(Constant { value: k.value }),
            Component::Resistor(x) => Component::Resistor(Resistor { ohms: x.ohms }),
            Component::Circuit(c) => Component::Circuit(c.clone()),
        }
    }
}

impl Clone for Circuit {
    /// A deep and independent copy: parts, wires and boundary pins are all
    /// copied, so that nothing done to the copy reaches the circuit it was made from.
    fn clone(&self) -> (r: Circuit)
        ensures
            r@ == self@,
        decreases *self,
    {
        let mut parts: Vec<Component> = Vec::new();
        let mut i: usize = 0;
        while i < self.parts.len()
            invariant
                i <= self.parts.len(),
                parts@.len() == i,
                forall|k: int| 0 <= k < i ==> (#[trigger] parts@[k])@ == self.parts@[k]@,
            decreases self.parts.len() - i,
        {
            let part = self.parts[i].clone();
            parts.push(part);
            i += 1;
        }
        let name = match &self.name {
            Some(n) => Some(n.clone()),
            None => None,
        };
        let r = Circuit {
            parts,
            placements: copy_of(&self.placements),
            connections: copy_of(&self.connections),
            program_inputs: copy_of(&self.program_inputs),
            program_outputs: copy_of(&self.program_outputs),
            next_input_index: self.next_input_index,
            next_output_index: self.next_output_index,
            name,
        };
        proof {
            assert(r@.parts =~= self@.parts);
        }
        r
    }
}

} // verus!
