//! What holds of every compilation, proved of the model of the lowering.

use vstd::prelude::*;
use crate::ast::{ExprView, FunctionView, NodeView, Operator, Type, ValueView};
use crate::circuit::{
    lemma_with_connection_wf, lemma_with_name_wf, lemma_with_part_wf, lemma_with_program_input_wf,
    lemma_with_program_output_wf, CircuitView, PartView,
};
use crate::circuit::Circuit;
use crate::error::CompileError;
use crate::lowering::{
    bind_params, compiled, functions_reached, instance_of, lower_args, lower_body, lower_expr, lower_function,
    lower_node, lower_program, lower_top, place_call, place_constant, place_gate, place_return,
    wire_args, Env,
};
use crate::translator::is_outcome;

verus! {

/// Every function that can be called is a well-formed circuit.
pub open spec fn all_wf(functions: Map<Seq<char>, CircuitView>) -> bool {
    forall|name: Seq<char>| functions.contains_key(name) ==> (#[trigger] functions[name]).wf()
}

/// Once lowering the arguments of a call has failed, it has failed for good:
/// the arguments after the failure do not change the outcome.
pub proof fn lemma_lower_args_failed(
    args: Seq<NodeView>,
    i: nat,
    n: nat,
    env: Env,
    c: CircuitView,
)
    requires
        i <= n <= args.len(),
        lower_args(args, i, env, c) is Err,
    ensures
        lower_args(args, n, env, c) == lower_args(args, i, env, c),
    decreases n,
{
    if i < n {
        lemma_lower_args_failed(args, i, (n - 1) as nat, env, c);
    }
}

/// Once lowering a body has failed, the statements after the failure do not
/// change the outcome.
pub proof fn lemma_lower_body_failed(
    body: Seq<NodeView>,
    i: nat,
    n: nat,
    env: Env,
    c: CircuitView,
)
    requires
        i <= n <= body.len(),
        lower_body(body, i, env, c) is Err,
    ensures
        lower_body(body, n, env, c) == lower_body(body, i, env, c),
    decreases n,
{
    if i < n {
        lemma_lower_body_failed(body, i, (n - 1) as nat, env, c);
    }
}

/// Once compiling a program has failed, the definitions after the failure do
/// not change the outcome.
pub proof fn lemma_lower_program_failed(
    defs: Seq<NodeView>,
    i: nat,
    n: nat,
    scope: Map<Seq<char>, usize>,
    functions: Map<Seq<char>, CircuitView>,
)
    requires
        i <= n <= defs.len(),
        lower_program(defs, i, scope, functions) is Err,
    ensures
        lower_program(defs, n, scope, functions) == lower_program(defs, i, scope, functions),
    decreases n,
{
    if i < n {
        lemma_lower_program_failed(defs, i, (n - 1) as nat, scope, functions);
    }
}

/// Where compiling a program fails at its definition `i`, the functions that
/// stay callable are those compiled from the definitions before it.
pub proof fn lemma_functions_reached_failed(
    defs: Seq<NodeView>,
    i: nat,
    n: nat,
    scope: Map<Seq<char>, usize>,
    functions: Map<Seq<char>, CircuitView>,
)
    requires
        i < n <= defs.len(),
        lower_program(defs, i, scope, functions) is Ok,
        lower_program(defs, i + 1, scope, functions) is Err,
    ensures
        functions_reached(defs, n, scope, functions) == lower_program(
            defs,
            i,
            scope,
            functions,
        )->Ok_0.functions,
    decreases n,
{
    lemma_lower_program_failed(defs, i + 1, n, scope, functions);
    if n > i + 1 {
        lemma_functions_reached_failed(defs, i, (n - 1) as nat, scope, functions);
    } else {
        lemma_functions_reached_done(defs, i, scope, functions);
    }
}

/// Where compiling the first `n` definitions of a program succeeds, the
/// functions that can be called are those that it has compiled.
pub proof fn lemma_functions_reached_done(
    defs: Seq<NodeView>,
    n: nat,
    scope: Map<Seq<char>, usize>,
    functions: Map<Seq<char>, CircuitView>,
)
    requires
        n <= defs.len(),
        lower_program(defs, n, scope, functions) is Ok,
    ensures
        functions_reached(defs, n, scope, functions) == lower_program(
            defs,
            n,
            scope,
            functions,
        )->Ok_0.functions,
{
}

/// Wiring the arguments of a call keeps a circuit well formed.
pub proof fn lemma_wire_args_wf(
    c: CircuitView,
    pins: Seq<usize>,
    targets: Seq<usize>,
    offset: usize,
    n: nat,
)
    requires
        c.wf(),
    ensures
        wire_args(c, pins, targets, offset, n).wf(),
    decreases n,
{
    if n > 0 {
        lemma_wire_args_wf(c, pins, targets, offset, (n - 1) as nat);
        lemma_with_connection_wf(
            wire_args(c, pins, targets, offset, (n - 1) as nat),
            pins[n - 1],
            (offset + targets[n - 1]) as usize,
        );
    }
}

/// Placing a gate keeps a circuit well formed.
pub proof fn lemma_place_gate_wf(c: CircuitView, op: Operator, left: usize, right: usize)
    requires
        c.wf(),
    ensures
        place_gate(c, op, left, right) matches Ok((c2, _)) ==> c2.wf(),
{
    match place_gate(c, op, left, right) {
        Ok(_) => {
            let gate = crate::lowering::gate_for(op)->0;
            let at = c.next_placement();
            lemma_with_part_wf(c, gate);
            lemma_with_connection_wf(c.with_part(gate), left, at.input_offset);
            lemma_with_connection_wf(
                c.with_part(gate).with_connection(left, at.input_offset),
                right,
                (at.input_offset + 1) as usize,
            );
        },
        Err(_) => {},
    }
}

/// Placing a constant keeps a circuit well formed.
pub proof fn lemma_place_constant_wf(c: CircuitView, value: i32)
    requires
        c.wf(),
    ensures
        place_constant(c, value) matches Ok((c2, _)) ==> c2.wf(),
{
    if c.has_room(0, 1) {
        lemma_with_part_wf(c, PartView::Constant(value));
    }
}

/// Placing a return keeps a circuit well formed.
pub proof fn lemma_place_return_wf(c: CircuitView, pin: usize)
    requires
        c.wf(),
    ensures
        place_return(c, pin) matches Ok((c2, _)) ==> c2.wf(),
{
    if c.next_output_index < usize::MAX {
        lemma_with_program_output_wf(c);
        lemma_with_connection_wf(c.with_program_output(), pin, c.next_output_index);
    }
}

/// Embedding a well-formed function keeps a circuit well formed.
pub proof fn lemma_place_call_wf(
    c: CircuitView,
    functions: Map<Seq<char>, CircuitView>,
    name: Seq<char>,
    pins: Seq<usize>,
)
    requires
        c.wf(),
        all_wf(functions),
    ensures
        place_call(c, functions, name, pins) matches Ok((c2, _)) ==> c2.wf(),
{
    match place_call(c, functions, name, pins) {
        Ok(_) => {
            let template = functions[name];
            assert(template.wf());
            lemma_with_name_wf(template, name);
            lemma_with_part_wf(c, instance_of(template, name));
            lemma_wire_args_wf(
                c.with_part(instance_of(template, name)),
                pins,
                template.program_inputs,
                c.next_placement().input_offset,
                pins.len(),
            );
        },
        Err(_) => {},
    }
}

/// Lowering an expression keeps a circuit well formed.
pub proof fn lemma_lower_expr_wf(e: ExprView, env: Env, c: CircuitView)
    requires
        c.wf(),
        all_wf(env.functions),
    ensures
        lower_expr(e, env, c) matches Ok((c2, _)) ==> c2.wf(),
    decreases e, 0nat,
{
    match e {
        ExprView::Dyadic(left, op, right) => {
            lemma_lower_expr_wf(*left, env, c);
            match lower_expr(*left, env, c) {
                Ok((c1, left_pin)) => {
                    lemma_lower_expr_wf(*right, env, c1);
                    match lower_expr(*right, env, c1) {
                        Ok((c2, right_pin)) => {
                            lemma_place_gate_wf(c2, op, left_pin, right_pin);
                        },
                        Err(_) => {},
                    }
                },
                Err(_) => {},
            }
        },
        ExprView::Value(ValueView::Int(value)) => {
            lemma_place_constant_wf(c, value);
        },
        ExprView::Value(ValueView::String(_)) => {},
        ExprView::Paren(_) => {},
        ExprView::Identifier(_) => {},
        ExprView::Call(name, args) => {
            lemma_lower_args_wf(args, args.len(), env, c);
            match lower_args(args, args.len(), env, c) {
                Ok((c1, pins)) => {
                    lemma_place_call_wf(c1, env.functions, name, pins);
                },
                Err(_) => {},
            }
        },
    }
}

/// Lowering the arguments of a call keeps a circuit well formed, and gives
/// one pin for each argument.
pub proof fn lemma_lower_args_wf(args: Seq<NodeView>, n: nat, env: Env, c: CircuitView)
    requires
        c.wf(),
        all_wf(env.functions),
        n <= args.len(),
    ensures
        lower_args(args, n, env, c) matches Ok((c2, pins)) ==> c2.wf() && pins.len() == n,
    decreases args, n,
{
    if n > 0 {
        lemma_lower_args_wf(args, (n - 1) as nat, env, c);
        match lower_args(args, (n - 1) as nat, env, c) {
            Ok((c1, _)) => {
                lemma_lower_node_wf(args[n - 1], env, c1);
            },
            Err(_) => {},
        }
    }
}

/// Lowering a node of a body keeps a circuit well formed.
pub proof fn lemma_lower_node_wf(node: NodeView, env: Env, c: CircuitView)
    requires
        c.wf(),
        all_wf(env.functions),
    ensures
        lower_node(node, env, c) matches Ok((c2, _)) ==> c2.wf(),
    decreases node, 0nat,
{
    match node {
        NodeView::Expression(e) => {
            lemma_lower_expr_wf(e, env, c);
        },
        NodeView::Return(inner) => {
            lemma_lower_node_wf(*inner, env, c);
            match lower_node(*inner, env, c) {
                Ok((c1, pin)) => {
                    lemma_place_return_wf(c1, pin);
                },
                Err(_) => {},
            }
        },
        _ => {},
    }
}

/// Lowering a body keeps a circuit well formed.
pub proof fn lemma_lower_body_wf(body: Seq<NodeView>, n: nat, env: Env, c: CircuitView)
    requires
        c.wf(),
        all_wf(env.functions),
        n <= body.len(),
    ensures
        lower_body(body, n, env, c) matches Ok(c2) ==> c2.wf(),
    decreases body, n,
{
    if n > 0 {
        lemma_lower_body_wf(body, (n - 1) as nat, env, c);
        match lower_body(body, (n - 1) as nat, env, c) {
            Ok(c1) => {
                lemma_lower_node_wf(body[n - 1], env, c1);
            },
            Err(_) => {},
        }
    }
}

/// The circuit of an empty function is well formed.
pub proof fn lemma_empty_wf()
    ensures
        CircuitView::empty().wf(),
{
    let c = CircuitView::empty();
    assert(c.input_blocks() =~= Seq::<(int, int)>::empty());
    assert(c.output_blocks() =~= Seq::<(int, int)>::empty());
}

/// Binding `n` parameters gives a well-formed circuit whose inputs are the
/// pins `0..n` in order and which holds nothing else.
pub proof fn lemma_bind_params(
    params: Seq<(Seq<char>, Type)>,
    n: nat,
    scope: Map<Seq<char>, usize>,
)
    requires
        n <= usize::MAX,
    ensures
        ({
            let (_, c) = bind_params(params, n, scope, CircuitView::empty());
            &&& c.wf()
            &&& c.next_input_index == n
            &&& c.next_output_index == 0
            &&& c.parts.len() == 0
            &&& c.connections.len() == 0
            &&& c.program_outputs.len() == 0
            &&& c.program_inputs.len() == n
            &&& forall|i: int| 0 <= i < n ==> c.program_inputs[i] == i
        }),
    decreases n,
{
    if n == 0 {
        lemma_empty_wf();
    } else {
        lemma_bind_params(params, (n - 1) as nat, scope);
        let (_, d) = bind_params(params, (n - 1) as nat, scope, CircuitView::empty());
        lemma_with_program_input_wf(d);
    }
}

/// Pin uniqueness, for one function: in the circuit that a function compiles
/// to, the input pins and the output pins handed out are `0, 1, 2, ...`
/// without gap, and each belongs either to the circuit's boundary or to
/// exactly one part.
pub proof fn lemma_lower_function_wf(
    f: FunctionView,
    scope: Map<Seq<char>, usize>,
    functions: Map<Seq<char>, CircuitView>,
)
    requires
        all_wf(functions),
    ensures
        lower_function(f, scope, functions) matches Ok(c) ==> c.wf(),
{
    if f.args.len() <= usize::MAX {
        lemma_bind_params(f.args, f.args.len(), scope);
        let (inner, c) = bind_params(f.args, f.args.len(), scope, CircuitView::empty());
        let env = Env { scope: inner, functions };
        lemma_lower_body_wf(f.body, f.body.len(), env, c);
        match lower_body(f.body, f.body.len(), env, c) {
            Ok(done) => {
                lemma_with_name_wf(done, f.name);
            },
            Err(_) => {},
        }
    }
}

/// Compiling the definitions of a program keeps every callable function well
/// formed, and the circuit of `main` is well formed too.
pub proof fn lemma_lower_program_wf(
    defs: Seq<NodeView>,
    n: nat,
    scope: Map<Seq<char>, usize>,
    functions: Map<Seq<char>, CircuitView>,
)
    requires
        all_wf(functions),
    ensures
        lower_program(defs, n, scope, functions) matches Ok(done) ==> all_wf(done.functions) && (
        done.main matches Some(m) ==> m.wf()),
    decreases n,
{
    if n == 0 || n > defs.len() {
    } else {
        lemma_lower_program_wf(defs, (n - 1) as nat, scope, functions);
        match lower_program(defs, (n - 1) as nat, scope, functions) {
            Ok(before) => {
                match defs[n - 1] {
                    NodeView::FunctionDefinition(f) => {
                        lemma_lower_function_wf(f, scope, before.functions);
                    },
                    _ => {},
                }
            },
            Err(_) => {},
        }
    }
}

/// Lowering a node at the top keeps every callable function and the circuit
/// well formed.
pub proof fn lemma_lower_top_wf(
    node: NodeView,
    scope: Map<Seq<char>, usize>,
    functions: Map<Seq<char>, CircuitView>,
    c: CircuitView,
)
    requires
        all_wf(functions),
        c.wf(),
    ensures
        lower_top(node, scope, functions, c) matches Ok((fs, c2, _)) ==> all_wf(fs) && c2.wf(),
{
    match node {
        NodeView::Program(defs) => {
            lemma_lower_program_wf(defs, defs.len(), scope, functions);
        },
        NodeView::FunctionDefinition(f) => {
            lemma_lower_function_wf(f, scope, functions);
        },
        _ => {
            lemma_lower_node_wf(node, Env { scope, functions }, c);
        },
    }
}

/// Every circuit that a syntax tree compiles to is well formed, and so is
/// every circuit embedded in it.
pub proof fn lemma_compiled_wf(node: NodeView)
    ensures
        compiled(node) matches Ok(c) ==> c.wf(),
{
    lemma_empty_wf();
    lemma_lower_top_wf(node, Map::empty(), Map::empty(), CircuitView::empty());
}

/// Pin uniqueness: in every circuit that a syntax tree compiles to, the input
/// pins that were handed out are exactly `0, 1, 2, ...` up to the next free
/// one, and each of them is either one of the circuit's own inputs or a pin
/// of exactly one part, never both and never twice. The same holds of the
/// output pins.
pub proof fn lemma_compiled_pins_distinct_and_consecutive(node: NodeView)
    ensures
        compiled(node) matches Ok(c) ==> {
            &&& forall|p: int|
                0 <= p < c.next_input_index <==> (c.is_program_input(p) || exists|k: int|
                    c.part_has_input(k, p))
            &&& forall|p: int|
                0 <= p < c.next_output_index <==> (c.is_program_output(p) || exists|k: int|
                    c.part_has_output(k, p))
            &&& forall|i: int, j: int|
                0 <= i < j < c.program_inputs.len() ==> c.program_inputs[i]
                    != c.program_inputs[j]
            &&& forall|i: int, j: int|
                0 <= i < j < c.program_outputs.len() ==> c.program_outputs[i]
                    != c.program_outputs[j]
            &&& forall|j: int, k: int, p: int|
                c.part_has_input(j, p) && c.part_has_input(k, p) ==> j == k
            &&& forall|j: int, k: int, p: int|
                c.part_has_output(j, p) && c.part_has_output(k, p) ==> j == k
            &&& forall|k: int, p: int| c.part_has_input(k, p) ==> !c.is_program_input(p)
            &&& forall|k: int, p: int| c.part_has_output(k, p) ==> !c.is_program_output(p)
        },
{
    lemma_compiled_wf(node);
    match compiled(node) {
        Ok(c) => {
            c.lemma_pins_distinct_and_consecutive();
        },
        Err(_) => {},
    }
}

/// Determinism: two compilations of the same syntax tree end alike. Either
/// both fail, and with the same error, or both give a circuit, and the two
/// circuits have the same parts in the same order and places, the same wires
/// in the same order, the same inputs and outputs and the same pin counts.
pub proof fn lemma_compile_deterministic(
    node: NodeView,
    first: Result<Circuit, CompileError>,
    second: Result<Circuit, CompileError>,
)
    requires
        is_outcome(compiled(node), first),
        is_outcome(compiled(node), second),
    ensures
        first matches Ok(a) ==> second matches Ok(b) && a@ == b@,
        first matches Err(a) ==> second matches Err(b) && a@ == b@,
{
}

/// Call-site isolation: a call that can be lowered adds exactly one part, a
/// copy of the compiled function under the name it is called by, and leaves
/// every part that was there in its place. The copy's pins are new: its two
/// blocks begin at the pins that were free next, so they share no pin with
/// any part placed before, nor with an earlier copy of the same function.
/// Its wires are added behind those that were there: one for each argument,
/// to the input that the function exposes in that position.
pub proof fn lemma_call_embeds_fresh_copy(
    c: CircuitView,
    functions: Map<Seq<char>, CircuitView>,
    name: Seq<char>,
    pins: Seq<usize>,
)
    requires
        c.wf(),
        all_wf(functions),
        place_call(c, functions, name, pins) is Ok,
    ensures
        ({
            let (c2, pin) = place_call(c, functions, name, pins)->Ok_0;
            let template = functions[name];
            let at = c.next_placement();
            &&& c2.wf()
            &&& c2.parts == c.parts.push(instance_of(template, name))
            &&& c2.placements == c.placements.push(at)
            &&& c2.program_inputs == c.program_inputs
            &&& c2.program_outputs == c.program_outputs
            &&& c2.next_input_index == c.next_input_index + template.next_input_index
            &&& c2.next_output_index == c.next_output_index + template.next_output_index
            &&& forall|k: int, p: int| c.part_has_input(k, p) ==> p < at.input_offset
            &&& forall|k: int, p: int| c.part_has_output(k, p) ==> p < at.output_offset
            &&& c2.connections.len() == c.connections.len() + pins.len()
            &&& forall|i: int|
                0 <= i < c.connections.len() ==> c2.connections[i] == c.connections[i]
            &&& forall|i: int|
                0 <= i < pins.len() ==> c2.connections[c.connections.len() + i] == (
                    pins[i],
                    (at.input_offset + template.program_inputs[i]) as usize,
                )
            &&& forall|i: int|
                0 <= i < pins.len() ==> at.input_offset + (
                #[trigger] template.program_inputs[i]) < c2.next_input_index
            &&& pin == at.output_offset + template.program_outputs[0]
            &&& at.output_offset <= pin < c2.next_output_index
        }),
{
    let template = functions[name];
    let at = c.next_placement();
    let part = instance_of(template, name);
    let c1 = c.with_part(part);
    assert(template.wf());
    lemma_place_call_wf(c, functions, name, pins);
    lemma_with_name_wf(template, name);
    lemma_with_part_wf(c, part);
    lemma_wire_args_wf(c1, pins, template.program_inputs, at.input_offset, pins.len());
    lemma_wire_args_same(c1, pins, template.program_inputs, at.input_offset, pins.len());
    lemma_wire_args_wires(c1, pins, template.program_inputs, at.input_offset, pins.len());
    assert forall|k: int, p: int| c.part_has_input(k, p) implies p < at.input_offset by {
        let b = c.input_blocks();
        assert(b[k].0 + b[k].1 <= c.next_input_index);
    }
    assert forall|k: int, p: int| c.part_has_output(k, p) implies p < at.output_offset by {
        let b = c.output_blocks();
        assert(b[k].0 + b[k].1 <= c.next_output_index);
    }
    assert forall|i: int| 0 <= i < pins.len() implies at.input_offset + (
    #[trigger] template.program_inputs[i]) < c.next_input_index + template.next_input_index by {
        assert(template.program_inputs[i] < template.next_input_index);
    }
    assert(template.program_outputs[0] < template.next_output_index);
}

/// The wires that wiring the arguments of a call adds, behind those that
/// were there.
pub proof fn lemma_wire_args_wires(
    c: CircuitView,
    pins: Seq<usize>,
    targets: Seq<usize>,
    offset: usize,
    n: nat,
)
    ensures
        wire_args(c, pins, targets, offset, n).connections.len() == c.connections.len() + n,
        forall|i: int|
            0 <= i < c.connections.len() ==> wire_args(c, pins, targets, offset, n).connections[i]
                == c.connections[i],
        forall|i: int|
            0 <= i < n ==> wire_args(c, pins, targets, offset, n).connections[c.connections.len()
                + i] == (pins[i], (offset + targets[i]) as usize),
    decreases n,
{
    if n > 0 {
        lemma_wire_args_wires(c, pins, targets, offset, (n - 1) as nat);
    }
}

/// Whether `b` begins with all of `a`, in the same order.
pub open spec fn begins_with<T>(b: Seq<T>, a: Seq<T>) -> bool {
    &&& a.len() <= b.len()
    &&& forall|i: int| 0 <= i < a.len() ==> #[trigger] a[i] == b[i]
}

/// Whether a circuit has grown out of another by additions alone: every
/// part, place, wire and output that was there is still there, at the
/// position it had, and so are the inputs and the name; and no pin that was
/// handed out is free again.
pub open spec fn grown_from(after: CircuitView, before: CircuitView) -> bool {
    &&& begins_with(after.parts, before.parts)
    &&& begins_with(after.placements, before.placements)
    &&& begins_with(after.connections, before.connections)
    &&& begins_with(after.program_outputs, before.program_outputs)
    &&& after.program_inputs == before.program_inputs
    &&& after.name == before.name
    &&& before.next_input_index <= after.next_input_index
    &&& before.next_output_index <= after.next_output_index
}

/// Growth goes on: what has grown out of a circuit that has grown out of
/// another has grown out of that one too.
pub proof fn lemma_grown_from_trans(c3: CircuitView, c2: CircuitView, c1: CircuitView)
    requires
        grown_from(c2, c1),
        grown_from(c3, c2),
    ensures
        grown_from(c3, c1),
{
    assert forall|i: int| 0 <= i < c1.parts.len() implies #[trigger] c1.parts[i]
        == c3.parts[i] by {
        assert(c1.parts[i] == c2.parts[i]);
        assert(c2.parts[i] == c3.parts[i]);
    }
    assert forall|i: int| 0 <= i < c1.placements.len() implies #[trigger] c1.placements[i]
        == c3.placements[i] by {
        assert(c1.placements[i] == c2.placements[i]);
        assert(c2.placements[i] == c3.placements[i]);
    }
    assert forall|i: int| 0 <= i < c1.connections.len() implies #[trigger] c1.connections[i]
        == c3.connections[i] by {
        assert(c1.connections[i] == c2.connections[i]);
        assert(c2.connections[i] == c3.connections[i]);
    }
    assert forall|i: int| 0 <= i < c1.program_outputs.len() implies #[trigger] c1.program_outputs[i]
        == c3.program_outputs[i] by {
        assert(c1.program_outputs[i] == c2.program_outputs[i]);
        assert(c2.program_outputs[i] == c3.program_outputs[i]);
    }
}

/// A placed gate only adds to the circuit.
pub proof fn lemma_place_gate_grows(c: CircuitView, op: Operator, left: usize, right: usize)
    ensures
        place_gate(c, op, left, right) matches Ok((c2, _)) ==> grown_from(c2, c),
{
}

/// A placed constant only adds to the circuit.
pub proof fn lemma_place_constant_grows(c: CircuitView, value: i32)
    ensures
        place_constant(c, value) matches Ok((c2, _)) ==> grown_from(c2, c),
{
}

/// A placed return only adds to the circuit.
pub proof fn lemma_place_return_grows(c: CircuitView, pin: usize)
    ensures
        place_return(c, pin) matches Ok((c2, _)) ==> grown_from(c2, c),
{
}

/// An embedded function only adds to the circuit.
pub proof fn lemma_place_call_grows(
    c: CircuitView,
    functions: Map<Seq<char>, CircuitView>,
    name: Seq<char>,
    pins: Seq<usize>,
)
    ensures
        place_call(c, functions, name, pins) matches Ok((c2, _)) ==> grown_from(c2, c),
{
    match place_call(c, functions, name, pins) {
        Ok(_) => {
            let template = functions[name];
            let c1 = c.with_part(instance_of(template, name));
            let offset = c.next_placement().input_offset;
            lemma_wire_args_wires(c1, pins, template.program_inputs, offset, pins.len());
            lemma_wire_args_same(c1, pins, template.program_inputs, offset, pins.len());
        },
        Err(_) => {},
    }
}

/// Wiring the arguments of a call changes nothing but the list of wires.
pub proof fn lemma_wire_args_same(
    c: CircuitView,
    pins: Seq<usize>,
    targets: Seq<usize>,
    offset: usize,
    n: nat,
)
    ensures
        wire_args(c, pins, targets, offset, n).parts == c.parts,
        wire_args(c, pins, targets, offset, n).placements == c.placements,
        wire_args(c, pins, targets, offset, n).program_inputs == c.program_inputs,
        wire_args(c, pins, targets, offset, n).program_outputs == c.program_outputs,
        wire_args(c, pins, targets, offset, n).next_input_index == c.next_input_index,
        wire_args(c, pins, targets, offset, n).next_output_index == c.next_output_index,
        wire_args(c, pins, targets, offset, n).name == c.name,
    decreases n,
{
    if n > 0 {
        lemma_wire_args_same(c, pins, targets, offset, (n - 1) as nat);
    }
}

/// Lowering an expression only adds to the circuit.
pub proof fn lemma_lower_expr_grows(e: ExprView, env: Env, c: CircuitView)
    ensures
        lower_expr(e, env, c) matches Ok((c2, _)) ==> grown_from(c2, c),
    decreases e, 0nat,
{
    match e {
        ExprView::Dyadic(left, op, right) => {
            lemma_lower_expr_grows(*left, env, c);
            match lower_expr(*left, env, c) {
                Ok((c1, left_pin)) => {
                    lemma_lower_expr_grows(*right, env, c1);
                    match lower_expr(*right, env, c1) {
                        Ok((c2, right_pin)) => {
                            lemma_place_gate_grows(c2, op, left_pin, right_pin);
                            match place_gate(c2, op, left_pin, right_pin) {
                                Ok((c3, _)) => {
                                    lemma_grown_from_trans(c2, c1, c);
                                    lemma_grown_from_trans(c3, c2, c);
                                },
                                Err(_) => {},
                            }
                        },
                        Err(_) => {},
                    }
                },
                Err(_) => {},
            }
        },
        ExprView::Value(ValueView::Int(value)) => {
            lemma_place_constant_grows(c, value);
        },
        ExprView::Value(ValueView::String(_)) => {},
        ExprView::Paren(_) => {},
        ExprView::Identifier(_) => {},
        ExprView::Call(name, args) => {
            lemma_lower_args_grows(args, args.len(), env, c);
            match lower_args(args, args.len(), env, c) {
                Ok((c1, pins)) => {
                    lemma_place_call_grows(c1, env.functions, name, pins);
                    match place_call(c1, env.functions, name, pins) {
                        Ok((c2, _)) => {
                            lemma_grown_from_trans(c2, c1, c);
                        },
                        Err(_) => {},
                    }
                },
                Err(_) => {},
            }
        },
    }
}

/// Lowering the arguments of a call only adds to the circuit.
pub proof fn lemma_lower_args_grows(args: Seq<NodeView>, n: nat, env: Env, c: CircuitView)
    requires
        n <= args.len(),
    ensures
        lower_args(args, n, env, c) matches Ok((c2, _)) ==> grown_from(c2, c),
    decreases args, n,
{
    if n > 0 {
        lemma_lower_args_grows(args, (n - 1) as nat, env, c);
        match lower_args(args, (n - 1) as nat, env, c) {
            Ok((c1, _)) => {
                lemma_lower_node_grows(args[n - 1], env, c1);
                match lower_node(args[n - 1], env, c1) {
                    Ok((c2, _)) => {
                        lemma_grown_from_trans(c2, c1, c);
                    },
                    Err(_) => {},
                }
            },
            Err(_) => {},
        }
    }
}

/// Monotonic allocation: lowering a node of a body only adds to the circuit.
/// The parts placed before keep their places and their pins, the wires
/// recorded before stay as they are, and every pin handed out afterwards is
/// a new one.
pub proof fn lemma_lower_node_grows(node: NodeView, env: Env, c: CircuitView)
    ensures
        lower_node(node, env, c) matches Ok((c2, _)) ==> grown_from(c2, c),
    decreases node, 0nat,
{
    match node {
        NodeView::Expression(e) => {
            lemma_lower_expr_grows(e, env, c);
        },
        NodeView::Return(inner) => {
            lemma_lower_node_grows(*inner, env, c);
            match lower_node(*inner, env, c) {
                Ok((c1, pin)) => {
                    lemma_place_return_grows(c1, pin);
                    match place_return(c1, pin) {
                        Ok((c2, _)) => {
                            lemma_grown_from_trans(c2, c1, c);
                        },
                        Err(_) => {},
                    }
                },
                Err(_) => {},
            }
        },
        _ => {},
    }
}

/// Lowering a body only adds to the circuit.
pub proof fn lemma_lower_body_grows(body: Seq<NodeView>, n: nat, env: Env, c: CircuitView)
    requires
        n <= body.len(),
    ensures
        lower_body(body, n, env, c) matches Ok(c2) ==> grown_from(c2, c),
    decreases body, n,
{
    if n > 0 {
        lemma_lower_body_grows(body, (n - 1) as nat, env, c);
        match lower_body(body, (n - 1) as nat, env, c) {
            Ok(c1) => {
                lemma_lower_node_grows(body[n - 1], env, c1);
                match lower_node(body[n - 1], env, c1) {
                    Ok((c2, _)) => {
                        lemma_grown_from_trans(c2, c1, c);
                    },
                    Err(_) => {},
                }
            },
            Err(_) => {},
        }
    }
}

/// The inputs of a compiled function are its parameters: the circuit of a
/// function with `n` parameters has the input pins `0, 1, ..., n - 1` as its
/// own inputs, in the order of the parameters, and it bears the function's
/// name.
pub proof fn lemma_lower_function_inputs(
    f: FunctionView,
    scope: Map<Seq<char>, usize>,
    functions: Map<Seq<char>, CircuitView>,
)
    ensures
        lower_function(f, scope, functions) matches Ok(c) ==> {
            &&& c.program_inputs.len() == f.args.len()
            &&& forall|i: int| 0 <= i < f.args.len() ==> c.program_inputs[i] == i
            &&& c.name == Some(f.name)
        },
{
    if f.args.len() <= usize::MAX {
        lemma_bind_params(f.args, f.args.len(), scope);
        let (inner, c) = bind_params(f.args, f.args.len(), scope, CircuitView::empty());
        lemma_lower_body_grows(f.body, f.body.len(), Env { scope: inner, functions }, c);
    }
}

} // verus!
