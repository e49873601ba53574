//! Fan-in: how many wires end at a pin.
//!
//! A wire names its target by a number alone, and the input pins of the parts
//! and the output pins of the circuit are numbered apart from each other. So
//! wires are counted by the number they end at: in a compiled circuit the
//! wires that end at `t` are one for the part input that waits for a wire at
//! `t`, if there is one, and one for the output of the circuit at `t`, if
//! there is one.

use vstd::prelude::*;
use crate::ast::{ExprView, FunctionView, NodeView, Operator, ValueView};
use crate::circuit::{lemma_with_name_wf, CircuitView, PartView};
use crate::laws::{
    all_wf, lemma_bind_params, lemma_lower_args_wf, lemma_lower_body_wf, lemma_lower_expr_wf,
    lemma_lower_node_wf, lemma_lower_program_wf, lemma_wire_args_same,
};
use crate::lowering::{
    bind_params, compiled, gate_for, instance_of, lower_args, lower_body, lower_expr,
    lower_function, lower_node, lower_program, place_call, place_constant, place_gate,
    place_return, wire_args, Env,
};

verus! {

/// How often `t` occurs in `s`.
pub open spec fn occurrences(s: Seq<usize>, t: usize) -> nat
    decreases s.len(),
{
    if s.len() == 0 {
        0
    } else {
        occurrences(s.drop_last(), t) + if s.last() == t {
            1nat
        } else {
            0nat
        }
    }
}

/// How many of the wires end at `t`.
pub open spec fn wires_into(wires: Seq<(usize, usize)>, t: usize) -> nat
    decreases wires.len(),
{
    if wires.len() == 0 {
        0
    } else {
        wires_into(wires.drop_last(), t) + if wires.last().1 == t {
            1nat
        } else {
            0nat
        }
    }
}

/// One more element is counted if it is the one looked for.
pub proof fn lemma_occurrences_push(s: Seq<usize>, x: usize, t: usize)
    ensures
        occurrences(s.push(x), t) == occurrences(s, t) + if x == t {
            1nat
        } else {
            0nat
        },
{
    assert(s.push(x).drop_last() =~= s);
}

/// One more wire is counted if it ends at the pin looked for.
pub proof fn lemma_wires_into_push(wires: Seq<(usize, usize)>, from: usize, to: usize, t: usize)
    ensures
        wires_into(wires.push((from, to)), t) == wires_into(wires, t) + if to == t {
            1nat
        } else {
            0nat
        },
{
    assert(wires.push((from, to)).drop_last() =~= wires);
}

/// What does not occur is counted zero times.
pub proof fn lemma_occurrences_absent(s: Seq<usize>, t: usize)
    requires
        forall|i: int| 0 <= i < s.len() ==> s[i] != t,
    ensures
        occurrences(s, t) == 0,
    decreases s.len(),
{
    if s.len() > 0 {
        lemma_occurrences_absent(s.drop_last(), t);
    }
}

/// In a strictly increasing sequence nothing occurs twice.
pub proof fn lemma_occurrences_increasing(s: Seq<usize>, t: usize)
    requires
        forall|i: int, j: int| 0 <= i < j < s.len() ==> s[i] < s[j],
    ensures
        occurrences(s, t) <= 1,
    decreases s.len(),
{
    if s.len() > 0 {
        let head = s.drop_last();
        lemma_occurrences_increasing(head, t);
        if s.last() == t {
            assert forall|i: int| 0 <= i < head.len() implies head[i] != t by {
                assert(s[i] < s[s.len() - 1]);
            }
            lemma_occurrences_absent(head, t);
        }
    }
}

/// The input pins of a part that wait for a wire, given where the part's
/// input pins begin: none for a constant, the inputs that an embedded
/// circuit exposes, and every input pin of any other part.
pub open spec fn sinks_of(part: PartView, offset: usize) -> Seq<usize> {
    match part {
        PartView::Constant(_) => Seq::empty(),
        PartView::Circuit(inner) => Seq::new(
            inner.program_inputs.len(),
            |i: int| (offset + inner.program_inputs[i]) as usize,
        ),
        _ => Seq::new(part.input_size(), |i: int| (offset + i) as usize),
    }
}

/// How many input pins of the first `n` parts wait for a wire at `t`.
pub open spec fn part_sinks_at(c: CircuitView, n: nat, t: usize) -> nat
    decreases n,
{
    if n == 0 {
        0
    } else {
        part_sinks_at(c, (n - 1) as nat, t) + occurrences(
            sinks_of(c.parts[n - 1], c.placements[n - 1].input_offset),
            t,
        )
    }
}

/// Fan-in at `t`: the wires that end at `t` are as many as the part inputs
/// that wait for a wire at `t` and the outputs of the circuit at `t`
/// together, and there is at most one of either.
pub open spec fn fan_in_at(c: CircuitView, t: usize) -> bool {
    &&& wires_into(c.connections, t) == part_sinks_at(c, c.parts.len(), t) + occurrences(
        c.program_outputs,
        t,
    )
    &&& part_sinks_at(c, c.parts.len(), t) <= 1
    &&& occurrences(c.program_outputs, t) <= 1
}

/// The count over the first `n` parts depends on those parts and their places alone.
pub proof fn lemma_part_sinks_same(c: CircuitView, d: CircuitView, n: nat, t: usize)
    requires
        n <= c.parts.len(),
        n <= d.parts.len(),
        forall|k: int| 0 <= k < n ==> c.parts[k] == d.parts[k],
        forall|k: int| 0 <= k < n ==> c.placements[k] == d.placements[k],
    ensures
        part_sinks_at(c, n, t) == part_sinks_at(d, n, t),
    decreases n,
{
    if n > 0 {
        lemma_part_sinks_same(c, d, (n - 1) as nat, t);
    }
}

/// The pins of a part that wait for a wire lie in the part's block of input
/// pins, and no two of them are the same pin.
pub proof fn lemma_sinks_in_block(part: PartView, offset: usize)
    requires
        part matches PartView::Circuit(inner) ==> inner.wf(),
        offset + part.input_size() <= usize::MAX,
    ensures
        forall|i: int|
            0 <= i < sinks_of(part, offset).len() ==> offset <= (#[trigger] sinks_of(
                part,
                offset,
            )[i]) < offset + part.input_size(),
        forall|i: int, j: int|
            0 <= i < j < sinks_of(part, offset).len() ==> sinks_of(part, offset)[i] < sinks_of(
                part,
                offset,
            )[j],
{
    match part {
        PartView::Circuit(inner) => {
            let s = sinks_of(part, offset);
            assert forall|i: int| 0 <= i < s.len() implies offset <= (#[trigger] s[i]) < offset
                + part.input_size() by {
                assert(inner.program_inputs[i] < inner.next_input_index);
            }
            assert forall|i: int, j: int| 0 <= i < j < s.len() implies s[i] < s[j] by {
                assert(inner.program_inputs[i] < inner.program_inputs[j]);
                assert(inner.program_inputs[j] < inner.next_input_index);
            }
        },
        _ => {},
    }
}

/// No input pin of a part waits for a wire at or beyond the next free input pin.
pub proof fn lemma_part_sinks_beyond(c: CircuitView, n: nat, t: usize)
    requires
        c.wf(),
        n <= c.parts.len(),
        t >= c.next_input_index,
    ensures
        part_sinks_at(c, n, t) == 0,
    decreases n,
{
    if n > 0 {
        lemma_part_sinks_beyond(c, (n - 1) as nat, t);
        let k = (n - 1) as int;
        let part = c.parts[k];
        let offset = c.placements[k].input_offset;
        let b = c.input_blocks();
        assert(b[k].0 + b[k].1 <= c.next_input_index);
        lemma_sinks_in_block(part, offset);
        lemma_occurrences_absent(sinks_of(part, offset), t);
    }
}

/// Fan-in after one more part was placed: the count of part inputs at `t`
/// grows by the inputs of the new part that wait for a wire at `t`, and
/// stays at most one.
pub proof fn lemma_part_sinks_with_part(c: CircuitView, part: PartView, t: usize)
    requires
        c.wf(),
        part matches PartView::Circuit(inner) ==> inner.wf(),
        c.has_room(part.input_size(), part.output_size()),
        part_sinks_at(c, c.parts.len(), t) <= 1,
    ensures
        part_sinks_at(c.with_part(part), c.parts.len() + 1, t) == part_sinks_at(
            c,
            c.parts.len(),
            t,
        ) + occurrences(sinks_of(part, c.next_input_index), t),
        part_sinks_at(c.with_part(part), c.parts.len() + 1, t) <= 1,
{
    let d = c.with_part(part);
    let offset = c.next_input_index;
    lemma_part_sinks_same(c, d, c.parts.len(), t);
    lemma_sinks_in_block(part, offset);
    lemma_occurrences_increasing(sinks_of(part, offset), t);
    if t >= offset {
        lemma_part_sinks_beyond(c, c.parts.len(), t);
    } else {
        lemma_occurrences_absent(sinks_of(part, offset), t);
    }
}

/// Wires keep the count of part inputs and of outputs; only the count of
/// wires grows.
pub proof fn lemma_fan_in_sides_with_connection(c: CircuitView, from: usize, to: usize, t: usize)
    ensures
        part_sinks_at(c.with_connection(from, to), c.parts.len(), t) == part_sinks_at(
            c,
            c.parts.len(),
            t,
        ),
        wires_into(c.with_connection(from, to).connections, t) == wires_into(c.connections, t)
            + if to == t {
            1nat
        } else {
            0nat
        },
{
    lemma_part_sinks_same(c, c.with_connection(from, to), c.parts.len(), t);
    lemma_wires_into_push(c.connections, from, to, t);
}

/// Placing a gate keeps fan-in.
pub proof fn lemma_place_gate_fan_in(
    c: CircuitView,
    op: Operator,
    left: usize,
    right: usize,
    t: usize,
)
    requires
        c.wf(),
        fan_in_at(c, t),
    ensures
        place_gate(c, op, left, right) matches Ok((c2, _)) ==> fan_in_at(c2, t),
{
    match place_gate(c, op, left, right) {
        Ok(_) => {
            let gate = gate_for(op)->0;
            let off = c.next_input_index;
            let c1 = c.with_part(gate);
            let c2 = c1.with_connection(left, off);
            let c3 = c2.with_connection(right, (off + 1) as usize);
            lemma_part_sinks_with_part(c, gate, t);
            lemma_fan_in_sides_with_connection(c1, left, off, t);
            lemma_fan_in_sides_with_connection(c2, right, (off + 1) as usize, t);
            let s = sinks_of(gate, off);
            assert(s.len() == 2);
            assert(s.drop_last().len() == 1);
            assert(s.drop_last().drop_last().len() == 0);
            assert(s.last() == (off + 1) as usize);
            assert(s.drop_last().last() == off);
            assert(occurrences(s.drop_last().drop_last(), t) == 0);
            assert(occurrences(s.drop_last(), t) == if off == t {
                1nat
            } else {
                0nat
            });
        },
        Err(_) => {},
    }
}

/// Placing a constant keeps fan-in.
pub proof fn lemma_place_constant_fan_in(c: CircuitView, value: i32, t: usize)
    requires
        c.wf(),
        fan_in_at(c, t),
    ensures
        place_constant(c, value) matches Ok((c2, _)) ==> fan_in_at(c2, t),
{
    if c.has_room(0, 1) {
        lemma_part_sinks_with_part(c, PartView::Constant(value), t);
    }
}

/// No output of the circuit lies at or beyond the next free output pin.
pub proof fn lemma_outputs_beyond(c: CircuitView, t: usize)
    requires
        c.wf(),
        t >= c.next_output_index,
    ensures
        occurrences(c.program_outputs, t) == 0,
{
    lemma_occurrences_absent(c.program_outputs, t);
}

/// Placing a return keeps fan-in.
pub proof fn lemma_place_return_fan_in(c: CircuitView, pin: usize, t: usize)
    requires
        c.wf(),
        fan_in_at(c, t),
    ensures
        place_return(c, pin) matches Ok((c2, _)) ==> fan_in_at(c2, t),
{
    if c.next_output_index < usize::MAX {
        let out = c.next_output_index;
        let c1 = c.with_program_output();
        lemma_part_sinks_same(c, c1, c.parts.len(), t);
        lemma_fan_in_sides_with_connection(c1, pin, out, t);
        lemma_occurrences_push(c.program_outputs, out, t);
        if t == out {
            lemma_outputs_beyond(c, t);
        }
    }
}

/// The wires that wiring the first `n` arguments of a call adds end at the
/// first `n` inputs that the embedded function exposes.
pub proof fn lemma_wire_args_fan_in(
    c: CircuitView,
    pins: Seq<usize>,
    targets: Seq<usize>,
    offset: usize,
    n: nat,
    t: usize,
)
    ensures
        wires_into(wire_args(c, pins, targets, offset, n).connections, t) == wires_into(
            c.connections,
            t,
        ) + occurrences(Seq::new(n, |i: int| (offset + targets[i]) as usize), t),
    decreases n,
{
    let sinks = Seq::new(n, |i: int| (offset + targets[i]) as usize);
    if n > 0 {
        let before = wire_args(c, pins, targets, offset, (n - 1) as nat);
        lemma_wire_args_fan_in(c, pins, targets, offset, (n - 1) as nat, t);
        lemma_wires_into_push(
            before.connections,
            pins[n - 1],
            (offset + targets[n - 1]) as usize,
            t,
        );
        assert(sinks.drop_last() =~= Seq::new(
            (n - 1) as nat,
            |i: int| (offset + targets[i]) as usize,
        ));
    }
}

/// Embedding a function keeps fan-in.
pub proof fn lemma_place_call_fan_in(
    c: CircuitView,
    functions: Map<Seq<char>, CircuitView>,
    name: Seq<char>,
    pins: Seq<usize>,
    t: usize,
)
    requires
        c.wf(),
        all_wf(functions),
        fan_in_at(c, t),
    ensures
        place_call(c, functions, name, pins) matches Ok((c2, _)) ==> fan_in_at(c2, t),
{
    match place_call(c, functions, name, pins) {
        Ok((c2, _)) => {
            let template = functions[name];
            let part = instance_of(template, name);
            let off = c.next_input_index;
            let c1 = c.with_part(part);
            assert(template.wf());
            lemma_with_name_wf(template, name);
            lemma_part_sinks_with_part(c, part, t);
            lemma_wire_args_same(c1, pins, template.program_inputs, off, pins.len());
            lemma_wire_args_fan_in(c1, pins, template.program_inputs, off, pins.len(), t);
            lemma_part_sinks_same(c1, c2, c1.parts.len(), t);
            assert(sinks_of(part, off) =~= Seq::new(
                pins.len(),
                |i: int| (off + template.program_inputs[i]) as usize,
            ));
        },
        Err(_) => {},
    }
}

/// Lowering an expression keeps fan-in.
pub proof fn lemma_lower_expr_fan_in(e: ExprView, env: Env, c: CircuitView, t: usize)
    requires
        c.wf(),
        all_wf(env.functions),
        fan_in_at(c, t),
    ensures
        lower_expr(e, env, c) matches Ok((c2, _)) ==> fan_in_at(c2, t),
    decreases e, 0nat,
{
    match e {
        ExprView::Dyadic(left, op, right) => {
            lemma_lower_expr_wf(*left, env, c);
            lemma_lower_expr_fan_in(*left, env, c, t);
            match lower_expr(*left, env, c) {
                Ok((c1, left_pin)) => {
                    lemma_lower_expr_wf(*right, env, c1);
                    lemma_lower_expr_fan_in(*right, env, c1, t);
                    match lower_expr(*right, env, c1) {
                        Ok((c2, right_pin)) => {
                            lemma_place_gate_fan_in(c2, op, left_pin, right_pin, t);
                        },
                        Err(_) => {},
                    }
                },
                Err(_) => {},
            }
        },
        ExprView::Value(ValueView::Int(value)) => {
            lemma_place_constant_fan_in(c, value, t);
        },
        ExprView::Value(ValueView::String(_)) => {},
        ExprView::Paren(_) => {},
        ExprView::Identifier(_) => {},
        ExprView::Call(name, args) => {
            lemma_lower_args_wf(args, args.len(), env, c);
            lemma_lower_args_fan_in(args, args.len(), env, c, t);
            match lower_args(args, args.len(), env, c) {
                Ok((c1, pins)) => {
                    lemma_place_call_fan_in(c1, env.functions, name, pins, t);
                },
                Err(_) => {},
            }
        },
    }
}

/// Lowering the arguments of a call keeps fan-in.
pub proof fn lemma_lower_args_fan_in(
    args: Seq<NodeView>,
    n: nat,
    env: Env,
    c: CircuitView,
    t: usize,
)
    requires
        c.wf(),
        all_wf(env.functions),
        fan_in_at(c, t),
        n <= args.len(),
    ensures
        lower_args(args, n, env, c) matches Ok((c2, _)) ==> fan_in_at(c2, t),
    decreases args, n,
{
    if n > 0 {
        lemma_lower_args_wf(args, (n - 1) as nat, env, c);
        lemma_lower_args_fan_in(args, (n - 1) as nat, env, c, t);
        match lower_args(args, (n - 1) as nat, env, c) {
            Ok((c1, _)) => {
                lemma_lower_node_fan_in(args[n - 1], env, c1, t);
            },
            Err(_) => {},
        }
    }
}

/// Lowering a node of a body keeps fan-in.
pub proof fn lemma_lower_node_fan_in(node: NodeView, env: Env, c: CircuitView, t: usize)
    requires
        c.wf(),
        all_wf(env.functions),
        fan_in_at(c, t),
    ensures
        lower_node(node, env, c) matches Ok((c2, _)) ==> fan_in_at(c2, t),
    decreases node, 0nat,
{
    match node {
        NodeView::Expression(e) => {
            lemma_lower_expr_fan_in(e, env, c, t);
        },
        NodeView::Return(inner) => {
            lemma_lower_node_wf(*inner, env, c);
            lemma_lower_node_fan_in(*inner, env, c, t);
            match lower_node(*inner, env, c) {
                Ok((c1, pin)) => {
                    lemma_place_return_fan_in(c1, pin, t);
                },
                Err(_) => {},
            }
        },
        _ => {},
    }
}

/// Lowering a body keeps fan-in.
pub proof fn lemma_lower_body_fan_in(
    body: Seq<NodeView>,
    n: nat,
    env: Env,
    c: CircuitView,
    t: usize,
)
    requires
        c.wf(),
        all_wf(env.functions),
        fan_in_at(c, t),
        n <= body.len(),
    ensures
        lower_body(body, n, env, c) matches Ok(c2) ==> fan_in_at(c2, t),
    decreases body, n,
{
    if n > 0 {
        lemma_lower_body_wf(body, (n - 1) as nat, env, c);
        lemma_lower_body_fan_in(body, (n - 1) as nat, env, c, t);
        match lower_body(body, (n - 1) as nat, env, c) {
            Ok(c1) => {
                lemma_lower_node_fan_in(body[n - 1], env, c1, t);
            },
            Err(_) => {},
        }
    }
}

/// Fan-in discipline, for one function: in the circuit that a function
/// compiles to, the wires that end at any pin number are accounted for one by
/// one, by the part input that waits for a wire there and by the output of
/// the circuit there.
pub proof fn lemma_lower_function_fan_in(
    f: FunctionView,
    scope: Map<Seq<char>, usize>,
    functions: Map<Seq<char>, CircuitView>,
    t: usize,
)
    requires
        all_wf(functions),
    ensures
        lower_function(f, scope, functions) matches Ok(c) ==> fan_in_at(c, t),
{
    if f.args.len() <= usize::MAX {
        lemma_bind_params(f.args, f.args.len(), scope);
        let (inner, c) = bind_params(f.args, f.args.len(), scope, CircuitView::empty());
        let env = Env { scope: inner, functions };
        assert(c.connections =~= Seq::<(usize, usize)>::empty());
        assert(c.program_outputs =~= Seq::<usize>::empty());
        lemma_lower_body_fan_in(f.body, f.body.len(), env, c, t);
        match lower_body(f.body, f.body.len(), env, c) {
            Ok(done) => {
                lemma_part_sinks_same(done, done.with_name(f.name), done.parts.len(), t);
            },
            Err(_) => {},
        }
    }
}

/// Fan-in discipline, for the definitions of a program: it holds of the
/// circuit of `main`.
pub proof fn lemma_lower_program_fan_in(
    defs: Seq<NodeView>,
    n: nat,
    scope: Map<Seq<char>, usize>,
    functions: Map<Seq<char>, CircuitView>,
    t: usize,
)
    requires
        all_wf(functions),
    ensures
        lower_program(defs, n, scope, functions) matches Ok(done) ==> (done.main matches Some(m)
            ==> fan_in_at(m, t)),
    decreases n,
{
    if n == 0 || n > defs.len() {
    } else {
        lemma_lower_program_wf(defs, (n - 1) as nat, scope, functions);
        lemma_lower_program_fan_in(defs, (n - 1) as nat, scope, functions, t);
        match lower_program(defs, (n - 1) as nat, scope, functions) {
            Ok(before) => {
                match defs[n - 1] {
                    NodeView::FunctionDefinition(f) => {
                        lemma_lower_function_fan_in(f, scope, before.functions, t);
                    },
                    _ => {},
                }
            },
            Err(_) => {},
        }
    }
}

/// Fan-in discipline: in every circuit that a syntax tree compiles to, and
/// for every pin number `t`, the wires that end at `t` are as many as the
/// part inputs that wait for a wire at `t` and the outputs of the circuit at
/// `t` together, and there is at most one of either. So a part input that
/// waits for a wire is the target of exactly one wire, unless an output of
/// the circuit has the same number; then that output's wire ends at the
/// number too, and no other.
pub proof fn lemma_compiled_fan_in(node: NodeView, t: usize)
    ensures
        compiled(node) matches Ok(c) ==> fan_in_at(c, t),
{
    let empty = CircuitView::empty();
    let scope = Map::<Seq<char>, usize>::empty();
    let functions = Map::<Seq<char>, CircuitView>::empty();
    crate::laws::lemma_empty_wf();
    match node {
        NodeView::Program(defs) => {
            lemma_lower_program_fan_in(defs, defs.len(), scope, functions, t);
        },
        NodeView::FunctionDefinition(f) => {
            lemma_lower_function_fan_in(f, scope, functions, t);
        },
        _ => {
            lemma_lower_node_fan_in(node, Env { scope, functions }, empty, t);
        },
    }
}

/// Exactly one wire: where a part input waits for a wire at `t` and no
/// output of the circuit has the number `t`, exactly one wire ends at `t`.
pub proof fn lemma_exactly_one_wire(node: NodeView, t: usize)
    ensures
        compiled(node) matches Ok(c) ==> (part_sinks_at(c, c.parts.len(), t) == 1 && occurrences(
            c.program_outputs,
            t,
        ) == 0 ==> wires_into(c.connections, t) == 1),
{
    lemma_compiled_fan_in(node, t);
}

} // verus!
