//! What a program compiles to, as mathematics.
//!
//! Lowering walks the syntax tree from left to right. Each step takes the
//! circuit built so far and gives back the circuit after the step together
//! with the pin that carries the step's value, or the reason why the
//! compilation ends there. The translator's contracts say that it computes
//! exactly these functions.

use vstd::prelude::*;
use crate::ast::{ExprView, FunctionView, NodeView, Operator, Type, ValueView};
use crate::circuit::{CircuitView, PartView};
use crate::error::ErrorView;

verus! {

/// What names stand for while a function body is lowered: the pins of the
/// variables in scope and the compiled functions that can be called.
pub struct Env {
    pub scope: Map<Seq<char>, usize>,
    pub functions: Map<Seq<char>, CircuitView>,
}

/// The outcome of lowering a node that has a value.
pub type Lowered = Result<(CircuitView, usize), ErrorView>;

/// The part that realises an operator, for the operators that have one.
pub open spec fn gate_for(op: Operator) -> Option<PartView> {
    match op {
        Operator::Plus => Some(PartView::Adder),
        Operator::Minus => Some(PartView::Subtractor),
        Operator::Multiply => Some(PartView::Multiplier),
        Operator::Divide => Some(PartView::Divider),
        _ => None,
    }
}

/// A gate for `op` is added, its first input wired from `left` and its second
/// from `right`; the value is its output pin.
pub open spec fn place_gate(c: CircuitView, op: Operator, left: usize, right: usize) -> Lowered {
    match gate_for(op) {
        None => Err(ErrorView::UnsupportedOperator(op)),
        Some(gate) => if !c.has_room(2, 1) {
            Err(ErrorView::CircuitTooLarge)
        } else {
            let at = c.next_placement();
            Ok(
                (
                    c.with_part(gate).with_connection(left, at.input_offset).with_connection(
                        right,
                        (at.input_offset + 1) as usize,
                    ),
                    at.output_offset,
                ),
            )
        },
    }
}

/// A constant source is added; the value is its output pin.
pub open spec fn place_constant(c: CircuitView, value: i32) -> Lowered {
    if !c.has_room(0, 1) {
        Err(ErrorView::CircuitTooLarge)
    } else {
        Ok((c.with_part(PartView::Constant(value)), c.next_output_index))
    }
}

/// A new output of the circuit itself is reserved and wired from `pin`; the
/// value is the new output pin.
pub open spec fn place_return(c: CircuitView, pin: usize) -> Lowered {
    if c.next_output_index == usize::MAX {
        Err(ErrorView::CircuitTooLarge)
    } else {
        Ok((c.with_program_output().with_connection(pin, c.next_output_index), c.next_output_index))
    }
}

/// The first `n` argument pins are wired, in order, to the inputs that an
/// embedded function exposes: argument `i` to the pin at `targets[i]` inside
/// the embedded circuit, which is pin `offset + targets[i]` of the circuit
/// around it.
pub open spec fn wire_args(
    c: CircuitView,
    pins: Seq<usize>,
    targets: Seq<usize>,
    offset: usize,
    n: nat,
) -> CircuitView
    decreases n,
{
    if n == 0 {
        c
    } else {
        wire_args(c, pins, targets, offset, (n - 1) as nat).with_connection(
            pins[n - 1],
            (offset + targets[n - 1]) as usize,
        )
    }
}

/// The part that a call of `name` embeds: a copy of the compiled function,
/// under the name it is called by.
pub open spec fn instance_of(template: CircuitView, name: Seq<char>) -> PartView {
    PartView::Circuit(template.with_name(name))
}

/// A copy of the compiled function `name` is embedded as a part and its
/// exposed inputs are wired from the argument pins; the value is the first
/// output that the function exposes.
pub open spec fn place_call(
    c: CircuitView,
    functions: Map<Seq<char>, CircuitView>,
    name: Seq<char>,
    pins: Seq<usize>,
) -> Lowered {
    if !functions.contains_key(name) {
        Err(ErrorView::UndefinedFunction(name))
    } else {
        let template = functions[name];
        if pins.len() != template.program_inputs.len() {
            Err(
                ErrorView::ArityMismatch {
                    function: name,
                    expected: template.program_inputs.len() as usize,
                    got: pins.len() as usize,
                },
            )
        } else if template.program_outputs.len() == 0 {
            Err(ErrorView::UnimplementedFeature("call of a function without a result"@))
        } else if !c.has_room(
            template.next_input_index as nat,
            template.next_output_index as nat,
        ) {
            Err(ErrorView::CircuitTooLarge)
        } else {
            let at = c.next_placement();
            Ok(
                (
                    wire_args(
                        c.with_part(instance_of(template, name)),
                        pins,
                        template.program_inputs,
                        at.input_offset,
                        pins.len(),
                    ),
                    (at.output_offset + template.program_outputs[0]) as usize,
                ),
            )
        }
    }
}

/// The circuit and the argument pins after the first `n` arguments of a call
/// were lowered.
pub type LoweredArgs = Result<(CircuitView, Seq<usize>), ErrorView>;

/// Lowers an expression.
pub open spec fn lower_expr(e: ExprView, env: Env, c: CircuitView) -> Lowered
    decreases e, 0nat,
{
    match e {
        ExprView::Dyadic(left, op, right) => match lower_expr(*left, env, c) {
            Err(err) => Err(err),
            Ok((c1, left_pin)) => match lower_expr(*right, env, c1) {
                Err(err) => Err(err),
                Ok((c2, right_pin)) => place_gate(c2, op, left_pin, right_pin),
            },
        },
        ExprView::Value(ValueView::Int(value)) => place_constant(c, value),
        ExprView::Value(ValueView::String(_)) => Err(
            ErrorView::UnimplementedFeature("string literal"@),
        ),
        ExprView::Paren(_) => Err(ErrorView::UnimplementedFeature("parenthesised expression"@)),
        ExprView::Identifier(name) => if env.scope.contains_key(name) {
            Ok((c, env.scope[name]))
        } else {
            Err(ErrorView::UndefinedVariable(name))
        },
        ExprView::Call(name, args) => match lower_args(args, args.len(), env, c) {
            Err(err) => Err(err),
            Ok((c1, pins)) => place_call(c1, env.functions, name, pins),
        },
    }
}

/// Lowers the first `n` arguments of a call, from left to right.
pub open spec fn lower_args(args: Seq<NodeView>, n: nat, env: Env, c: CircuitView) -> LoweredArgs
    decreases args, n,
{
    if n == 0 || n > args.len() {
        Ok((c, Seq::empty()))
    } else {
        match lower_args(args, (n - 1) as nat, env, c) {
            Err(err) => Err(err),
            Ok((c1, pins)) => match lower_node(args[n - 1], env, c1) {
                Err(err) => Err(err),
                Ok((c2, pin)) => Ok((c2, pins.push(pin))),
            },
        }
    }
}

/// Lowers a node inside a function body: an expression, a return or a
/// conditional. A definition has no place there.
pub open spec fn lower_node(node: NodeView, env: Env, c: CircuitView) -> Lowered
    decreases node, 0nat,
{
    match node {
        NodeView::Expression(e) => lower_expr(e, env, c),
        NodeView::Return(inner) => match lower_node(*inner, env, c) {
            Err(err) => Err(err),
            Ok((c1, pin)) => place_return(c1, pin),
        },
        NodeView::IfStatement(condition, body) => match lower_expr(condition, env, c) {
            Err(err) => Err(err),
            Ok(_) => match lower_body(body, body.len(), env, CircuitView::empty()) {
                Err(err) => Err(err),
                Ok(_) => Err(ErrorView::UnimplementedFeature("if statement"@)),
            },
        },
        NodeView::FunctionDefinition(_) => Err(
            ErrorView::UnimplementedFeature("nested definition"@),
        ),
        NodeView::Program(_) => Err(ErrorView::UnimplementedFeature("nested definition"@)),
    }
}

/// Lowers the first `n` statements of a body in order; their values are dropped.
pub open spec fn lower_body(body: Seq<NodeView>, n: nat, env: Env, c: CircuitView) -> Result<
    CircuitView,
    ErrorView,
>
    decreases body, n,
{
    if n == 0 || n > body.len() {
        Ok(c)
    } else {
        match lower_body(body, (n - 1) as nat, env, c) {
            Err(err) => Err(err),
            Ok(c1) => match lower_node(body[n - 1], env, c1) {
                Err(err) => Err(err),
                Ok((c2, _)) => Ok(c2),
            },
        }
    }
}

/// The scope and the circuit after the first `n` parameters were given an
/// input pin each, in declared order. A later parameter of the same name
/// hides an earlier one.
pub open spec fn bind_params(
    params: Seq<(Seq<char>, Type)>,
    n: nat,
    scope: Map<Seq<char>, usize>,
    c: CircuitView,
) -> (Map<Seq<char>, usize>, CircuitView)
    decreases n,
{
    if n == 0 {
        (scope, c)
    } else {
        let (s, d) = bind_params(params, (n - 1) as nat, scope, c);
        (s.insert(params[n - 1].0, d.next_input_index), d.with_program_input())
    }
}

/// The circuit of a function: one input pin per parameter, then the body,
/// under the function's name. `scope` is what is visible around the function.
/// A list of parameters too long to be numbered is a failure.
pub open spec fn lower_function(
    f: FunctionView,
    scope: Map<Seq<char>, usize>,
    functions: Map<Seq<char>, CircuitView>,
) -> Result<CircuitView, ErrorView> {
    if f.args.len() > usize::MAX {
        Err(ErrorView::CircuitTooLarge)
    } else {
        let (inner, c) = bind_params(f.args, f.args.len(), scope, CircuitView::empty());
        match lower_body(f.body, f.body.len(), Env { scope: inner, functions }, c) {
            Err(err) => Err(err),
            Ok(done) => Ok(done.with_name(f.name)),
        }
    }
}

/// The output pin that was allocated last, if there is any.
pub open spec fn last_output(c: CircuitView) -> Option<usize> {
    if c.next_output_index > 0 {
        Some((c.next_output_index - 1) as usize)
    } else {
        None
    }
}

/// What has been compiled of a program: the functions that can be called and
/// the circuit of `main`, once it was seen.
pub struct Compiled {
    pub functions: Map<Seq<char>, CircuitView>,
    pub main: Option<CircuitView>,
}

/// Compiles the first `n` top-level nodes of a program in order. A function
/// other than `main` becomes callable from the definitions after it; nodes
/// that are no definitions are passed over.
pub open spec fn lower_program(
    defs: Seq<NodeView>,
    n: nat,
    scope: Map<Seq<char>, usize>,
    functions: Map<Seq<char>, CircuitView>,
) -> Result<Compiled, ErrorView>
    decreases n,
{
    if n == 0 || n > defs.len() {
        Ok(Compiled { functions, main: None })
    } else {
        match lower_program(defs, (n - 1) as nat, scope, functions) {
            Err(err) => Err(err),
            Ok(before) => match defs[n - 1] {
                NodeView::FunctionDefinition(f) => if f.name == "main"@ {
                    if before.main is Some {
                        Err(ErrorView::DuplicateMainFunction)
                    } else {
                        match lower_function(f, scope, before.functions) {
                            Err(err) => Err(err),
                            Ok(c) => Ok(Compiled { main: Some(c), ..before }),
                        }
                    }
                } else {
                    define(f, scope, before.functions, before.main)
                },
                _ => Ok(before),
            },
        }
    }
}

/// Compiles a function other than `main` and makes it callable under its name.
pub open spec fn define(
    f: FunctionView,
    scope: Map<Seq<char>, usize>,
    functions: Map<Seq<char>, CircuitView>,
    main: Option<CircuitView>,
) -> Result<Compiled, ErrorView> {
    if functions.contains_key(f.name) {
        Err(ErrorView::DuplicateFunctionDefinition(f.name))
    } else {
        match lower_function(f, scope, functions) {
            Err(err) => Err(err),
            Ok(c) => Ok(Compiled { functions: functions.insert(f.name, c), main }),
        }
    }
}

/// The functions that can be called after the first `n` top-level nodes of a
/// program: where compiling them fails, those that had become callable
/// before the failure.
pub open spec fn functions_reached(
    defs: Seq<NodeView>,
    n: nat,
    scope: Map<Seq<char>, usize>,
    functions: Map<Seq<char>, CircuitView>,
) -> Map<Seq<char>, CircuitView>
    decreases n,
{
    if n == 0 {
        functions
    } else {
        match lower_program(defs, n, scope, functions) {
            Ok(done) => done.functions,
            Err(_) => functions_reached(defs, (n - 1) as nat, scope, functions),
        }
    }
}

/// The functions that can be called after lowering a node at the top has
/// failed: a program keeps those that it had compiled before the failure,
/// and any other node leaves them as they were.
pub open spec fn functions_kept(
    node: NodeView,
    scope: Map<Seq<char>, usize>,
    functions: Map<Seq<char>, CircuitView>,
) -> Map<Seq<char>, CircuitView> {
    match node {
        NodeView::Program(defs) => functions_reached(defs, defs.len(), scope, functions),
        _ => functions,
    }
}

/// The outcome of lowering a node at the top: the callable functions, the
/// circuit, and the pin of the node's value if it has one.
pub type Translated = Result<(Map<Seq<char>, CircuitView>, CircuitView, Option<usize>), ErrorView>;

/// Lowers a node at the top. A program gives the circuit of its `main`; a
/// definition of `main` alone replaces the circuit by that of `main`; another
/// definition becomes callable and leaves the circuit as it is; any other
/// node is lowered into the circuit.
pub open spec fn lower_top(
    node: NodeView,
    scope: Map<Seq<char>, usize>,
    functions: Map<Seq<char>, CircuitView>,
    c: CircuitView,
) -> Translated {
    match node {
        NodeView::Program(defs) => match lower_program(defs, defs.len(), scope, functions) {
            Err(err) => Err(err),
            Ok(done) => match done.main {
                None => Err(ErrorView::MissingMainFunction),
                Some(m) => Ok((done.functions, m, last_output(m))),
            },
        },
        NodeView::FunctionDefinition(f) => if f.name == "main"@ {
            match lower_function(f, scope, functions) {
                Err(err) => Err(err),
                Ok(m) => Ok((functions, m, last_output(m))),
            }
        } else {
            match define(f, scope, functions, None) {
                Err(err) => Err(err),
                Ok(done) => Ok((done.functions, c, None)),
            }
        },
        _ => match lower_node(node, Env { scope, functions }, c) {
            Err(err) => Err(err),
            Ok((c1, pin)) => Ok((functions, c1, Some(pin))),
        },
    }
}

/// What a syntax tree compiles to, starting with no function defined and no
/// variable in scope.
pub open spec fn compiled(node: NodeView) -> Result<CircuitView, ErrorView> {
    match lower_top(node, Map::empty(), Map::empty(), CircuitView::empty()) {
        Err(err) => Err(err),
        Ok((_, c, _)) => Ok(c),
    }
}

} // verus!
