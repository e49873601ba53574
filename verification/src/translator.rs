//! Turns functions into circuits.
//!
//! The translator owns the stack of scopes and the registry of compiled
//! functions. It walks the syntax tree and assembles the circuit that the
//! model of the lowering describes.

use vstd::prelude::*;
use vstd::hash_map::StringHashMap;
use crate::ast::{
    lemma_if_statement_view, nodes_view, params_view, same_text, ASTNode, Expression,
    FunctionDefinition, IfStatement, NodeView, Operator, Value,
};
use crate::circuit::{Circuit, CircuitView, Component};
use crate::error::{unimplemented, CompileError, ErrorView};
use crate::laws::{
    all_wf, lemma_bind_params, lemma_compiled_wf, lemma_functions_reached_done,
    lemma_functions_reached_failed, lemma_lower_args_failed, lemma_lower_body_failed,
    lemma_lower_function_wf, lemma_lower_program_failed, lemma_lower_top_wf,
};
use crate::lowering::{
    bind_params, compiled, functions_kept, gate_for, lower_args, lower_body, lower_expr, lower_function,
    lower_node, lower_program, lower_top, place_call, place_constant, place_gate, place_return,
    wire_args, Compiled, Env, Lowered, Translated,
};
use crate::parts::{Adder, Constant, Divider, Multiplier, Part, Subtractor};
use crate::scope::ScopeInfo;

verus! {

/// The state of a compilation: the scopes that are open, innermost last, and
/// the functions compiled so far.
pub struct Translator {
    scope_defs: Vec<ScopeInfo>,
    function_defs: StringHashMap<Circuit>,
}

/// The mathematical model of a translator.
pub struct TranslatorView {
    pub scopes: Seq<Map<Seq<char>, usize>>,
    pub functions: Map<Seq<char>, CircuitView>,
}

impl TranslatorView {
    /// At least one scope is open, and every compiled function is a
    /// well-formed circuit.
    pub open spec fn wf(self) -> bool {
        &&& self.scopes.len() > 0
        &&& all_wf(self.functions)
    }

    /// The innermost scope.
    pub open spec fn scope(self) -> Map<Seq<char>, usize> {
        self.scopes.last()
    }

    /// What names stand for at this point.
    pub open spec fn env(self) -> Env {
        Env { scope: self.scope(), functions: self.functions }
    }
}

impl View for Translator {
    type V = TranslatorView;

    closed spec fn view(&self) -> TranslatorView {
        TranslatorView {
            scopes: Seq::new(self.scope_defs@.len(), |i: int| self.scope_defs@[i]@),
            functions: Map::new(
                |name: Seq<char>| self.function_defs@.contains_key(name),
                |name: Seq<char>| self.function_defs@[name]@,
            ),
        }
    }
}

impl Translator {
    /// A translator with one empty scope and no function.
    pub fn new() -> (t: Translator)
        ensures
            t@.scopes == seq![Map::<Seq<char>, usize>::empty()],
            t@.functions == Map::<Seq<char>, CircuitView>::empty(),
            t@.wf(),
    {
        let mut scope_defs: Vec<ScopeInfo> = Vec::new();
        scope_defs.push(ScopeInfo::new());
        let t = Translator { scope_defs, function_defs: StringHashMap::new() };
        proof {
            assert(t@.scopes =~= seq![Map::<Seq<char>, usize>::empty()]);
            assert(t@.functions =~= Map::<Seq<char>, CircuitView>::empty());
        }
        t
    }

    /// The compiled function of the given name, which must have been compiled.
    pub fn get_function_circuit(&self, name: String) -> (circuit: &Circuit)
        requires
            self@.functions.contains_key(name@),
        ensures
            circuit@ == self@.functions[name@],
    {
        match self.function_defs.get(name.as_str()) {
            Some(circuit) => circuit,
            None => unreached(),
        }
    }

    /// The compiled function of the given name, if there is one.
    pub fn find_function_circuit(&self, name: &str) -> (found: Option<&Circuit>)
        ensures
            match found {
                Some(circuit) => self@.functions.contains_key(name@) && circuit@
                    == self@.functions[name@],
                None => !self@.functions.contains_key(name@),
            },
    {
        self.function_defs.get(name)
    }

    /// Makes `circuit` the compiled function of the given name, in place of
    /// any that the name had.
    pub fn add_function_circuit(&mut self, name: String, circuit: Circuit)
        requires
            old(self)@.wf(),
            circuit@.wf(),
        ensures
            final(self)@.scopes == old(self)@.scopes,
            final(self)@.functions == old(self)@.functions.insert(name@, circuit@),
            final(self)@.wf(),
    {
        self.function_defs.insert(name, circuit);
        proof {
            assert(self@.scopes =~= old(self)@.scopes);
            assert(self@.functions =~= old(self)@.functions.insert(name@, circuit@));
        }
    }

    /// The pin of a variable in the innermost scope. The variable must be
    /// bound there.
    pub fn get_variable_index(&mut self, ident: String) -> (index: usize)
        requires
            old(self)@.wf(),
            old(self)@.scope().contains_key(ident@),
        ensures
            final(self)@ == old(self)@,
            index == old(self)@.scope()[ident@],
    {
        match self.resolve(ident.as_str()) {
            Ok(index) => index,
            Err(_) => unreached(),
        }
    }

    /// The pin of a variable in the innermost scope, or the failure that the
    /// variable is not defined.
    pub fn resolve(&self, name: &str) -> (r: Result<usize, CompileError>)
        requires
            self@.wf(),
        ensures
            match r {
                Ok(index) => self@.scope().contains_key(name@) && index == self@.scope()[name@],
                Err(e) => !self@.scope().contains_key(name@) && e@ == ErrorView::UndefinedVariable(
                    name@,
                ),
            },
    {
        let scope = &self.scope_defs[self.scope_defs.len() - 1];
        match scope.get(name) {
            Some(index) => Ok(index),
            None => Err(CompileError::UndefinedVariable(name.to_owned())),
        }
    }

    /// Opens a scope that starts as a full copy of the innermost one.
    pub fn enter_scope(&mut self)
        requires
            old(self)@.wf(),
        ensures
            final(self)@.scopes == old(self)@.scopes.push(old(self)@.scope()),
            final(self)@.functions == old(self)@.functions,
            final(self)@.wf(),
    {
        let copy = self.scope_defs[self.scope_defs.len() - 1].copy();
        self.scope_defs.push(copy);
        proof {
            assert(self@.scopes =~= old(self)@.scopes.push(old(self)@.scope()));
            assert(self@.functions =~= old(self)@.functions);
        }
    }

    /// Closes the innermost scope, and with it all that was bound in it. The
    /// outermost scope stays.
    pub fn exit_scope(&mut self)
        requires
            old(self)@.scopes.len() > 1,
            all_wf(old(self)@.functions),
        ensures
            final(self)@.scopes == old(self)@.scopes.drop_last(),
            final(self)@.functions == old(self)@.functions,
            final(self)@.wf(),
    {
        self.scope_defs.pop();
        proof {
            assert(self@.scopes =~= old(self)@.scopes.drop_last());
            assert(self@.functions =~= old(self)@.functions);
        }
    }

    /// Binds a name to a pin in the innermost scope; a binding that the name
    /// had there is hidden.
    pub fn bind(&mut self, name: String, pin: usize)
        requires
            old(self)@.wf(),
        ensures
            final(self)@.scopes == old(self)@.scopes.update(
                old(self)@.scopes.len() - 1,
                old(self)@.scope().insert(name@, pin),
            ),
            final(self)@.functions == old(self)@.functions,
            final(self)@.wf(),
    {
        match self.scope_defs.pop() {
            Some(mut scope) => {
                scope.add_variable(name, pin);
                self.scope_defs.push(scope);
            },
            None => {},
        }
        proof {
            assert(self@.scopes =~= old(self)@.scopes.update(
                old(self)@.scopes.len() - 1,
                old(self)@.scope().insert(name@, pin),
            ));
            assert(self@.functions =~= old(self)@.functions);
        }
    }

    /// The part that realises an operator, or the failure that the operator
    /// has none.
    pub fn get_operator_circuit(&self, operator: &Operator) -> (r: Result<Component, CompileError>)
        ensures
            match gate_for(*operator) {
                Some(gate) => r matches Ok(part) && part@ == gate,
                None => r matches Err(e) && e@ == ErrorView::UnsupportedOperator(*operator),
            },
    {
        match operator {
            Operator::Plus => Ok(Component::Adder(Adder {  })),
            Operator::Minus => Ok(Component::Subtractor(Subtractor {  })),
            Operator::Multiply => Ok(Component::Multiplier(Multiplier {  })),
            Operator::Divide => Ok(Component::Divider(Divider {  })),
            _ => Err(CompileError::UnsupportedOperator(*operator)),
        }
    }
}

/// Whether an outcome is the one that the model gives: on success the same
/// pin and the same circuit, on failure the same error.
pub open spec fn lowered_as(
    model: Lowered,
    r: Result<usize, CompileError>,
    c: CircuitView,
) -> bool {
    match model {
        Ok((c2, pin)) => r == Ok::<usize, CompileError>(pin) && c == c2,
        Err(e) => r matches Err(x) && x@ == e,
    }
}

/// Adds a constant source for an integer literal.
pub fn wire_constant(circuit: &mut Circuit, value: i32) -> (r: Result<usize, CompileError>)
    ensures
        lowered_as(place_constant(old(circuit)@, value), r, final(circuit)@),
{
    if !circuit.has_room(0, 1) {
        return Err(CompileError::CircuitTooLarge);
    }
    let info = circuit.add_part(Component::Constant(Constant { value }));
    Ok(info.output_offset)
}

/// Reserves a new output of the circuit and wires it from `pin`.
pub fn wire_return(circuit: &mut Circuit, pin: usize) -> (r: Result<usize, CompileError>)
    ensures
        lowered_as(place_return(old(circuit)@, pin), r, final(circuit)@),
{
    if !circuit.has_room(0, 1) {
        return Err(CompileError::CircuitTooLarge);
    }
    // return statement means this is the output of the circuit
    // connect the output of the internal circuit to the output of the main circuit

    let new_output_index = circuit.add_program_output();
    circuit.connect(pin, new_output_index);
    Ok(new_output_index)
}

impl Translator {
    /// Adds the part that realises the operator and wires its two inputs.
    pub fn wire_gate(
        &self,
        circuit: &mut Circuit,
        operator: &Operator,
        left: usize,
        right: usize,
    ) -> (r: Result<usize, CompileError>)
        ensures
            lowered_as(place_gate(old(circuit)@, *operator, left, right), r, final(circuit)@),
    {
        let operator_circuit = match self.get_operator_circuit(operator) {
            Ok(part) => part,
            Err(e) => {
                return Err(e);
            },
        };
        if !circuit.has_room(2, 1) {
            return Err(CompileError::CircuitTooLarge);
        }
        let operator_info = circuit.add_part(operator_circuit);

        // connect the inputs of the operator to the outputs of the left and right circuits
        circuit.connect(left, operator_info.input_offset);
        circuit.connect(right, operator_info.input_offset + 1);

        Ok(operator_info.output_offset)  // the operator has only one output
    }

    /// Embeds a copy of the compiled function `name` and wires its exposed
    /// inputs from the argument pins, in order.
    pub fn wire_call(&self, circuit: &mut Circuit, name: &str, pins: &Vec<usize>) -> (r: Result<
        usize,
        CompileError,
    >)
        requires
            self@.wf(),
        ensures
            lowered_as(
                place_call(old(circuit)@, self@.functions, name@, pins@),
                r,
                final(circuit)@,
            ),
    {
        // get the function definition
        let template = match self.find_function_circuit(name) {
            Some(template) => template,
            None => {
                return Err(CompileError::UndefinedFunction(name.to_owned()));
            },
        };
        assert(template@.wf());
        let targets = template.program_inputs();
        if pins.len() != targets.len() {
            return Err(
                CompileError::ArityMismatch {
                    function: name.to_owned(),
                    expected: targets.len(),
                    got: pins.len(),
                },
            );
        }
        let outputs = template.program_outputs();
        if outputs.len() == 0 {
            return Err(unimplemented("call of a function without a result"));
        }
        if !circuit.has_room(template.get_input_size(), template.get_output_size()) {
            return Err(CompileError::CircuitTooLarge);
        }
        let mut instance = template.clone();
        instance.set_name(name.to_owned());

        // add the function to the circuit
        let function_info = circuit.add_part(Component::Circuit(instance));
        let ghost embedded = circuit@;

        // connect the inputs of the function to the outputs of the arguments
        let mut i: usize = 0;
        while i < pins.len()
            invariant
                i <= pins.len(),
                pins.len() == targets.len(),
                targets@ == template@.program_inputs,
                template@.wf(),
                function_info.input_offset + template@.next_input_index <= usize::MAX,
                circuit@ == wire_args(
                    embedded,
                    pins@,
                    targets@,
                    function_info.input_offset,
                    i as nat,
                ),
            decreases pins.len() - i,
        {
            assert(targets@[i as int] < template@.next_input_index);
            circuit.connect(pins[i], function_info.input_offset + targets[i]);
            i += 1;
        }
        assert(outputs@[0] < template@.next_output_index);

        // the value of the call is the first output that the function exposes
        Ok(function_info.output_offset + outputs[0])
    }

    /// Lowers an expression into `circuit` and gives the pin that carries its value.
    pub fn translate_expression(&mut self, expr: &Expression, circuit: &mut Circuit) -> (r: Result<
        usize,
        CompileError,
    >)
        requires
            old(self)@.wf(),
        ensures
            final(self)@ == old(self)@,
            lowered_as(lower_expr(expr@, old(self)@.env(), old(circuit)@), r, final(circuit)@),
        decreases expr@, 0nat,
    {
        match expr {
            Expression::Dyadic(dyadic) => {
                let left = match self.translate_expression(dyadic.get_left(), circuit) {
                    Ok(pin) => pin,
                    Err(e) => {
                        return Err(e);
                    },
                };
                let right = match self.translate_expression(dyadic.get_right(), circuit) {
                    Ok(pin) => pin,
                    Err(e) => {
                        return Err(e);
                    },
                };
                self.wire_gate(circuit, dyadic.get_operator(), left, right)
            },
            Expression::Value(Value::Int(value)) => wire_constant(circuit, *value),
            Expression::Value(Value::String(_)) => Err(unimplemented("string literal")),
            Expression::ParenExpression(_) => Err(unimplemented("parenthesised expression")),
            Expression::Identifier(ident) => {
                // the value is on the pin of the variable
                self.resolve(ident.as_str())
            },
            Expression::FunctionCall(call) => {
                let pins = match self.translate_arguments(call.get_args(), circuit) {
                    Ok(pins) => pins,
                    Err(e) => {
                        return Err(e);
                    },
                };
                self.wire_call(circuit, call.get_name(), &pins)
            },
        }
    }

    /// Lowers the arguments of a call from left to right and gives their pins.
    pub fn translate_arguments(&mut self, args: &Vec<ASTNode>, circuit: &mut Circuit) -> (r:
        Result<Vec<usize>, CompileError>)
        requires
            old(self)@.wf(),
        ensures
            final(self)@ == old(self)@,
            match lower_args(
                nodes_view(*args),
                args.len() as nat,
                old(self)@.env(),
                old(circuit)@,
            ) {
                Ok((c2, pins)) => r matches Ok(v) && v@ == pins && final(circuit)@ == c2,
                Err(e) => r matches Err(x) && x@ == e,
            },
        decreases nodes_view(*args), 0nat,
    {
        let ghost env = self@.env();
        let ghost start = circuit@;
        let ghost views = nodes_view(*args);
        let mut pins: Vec<usize> = Vec::new();
        let mut i: usize = 0;
        while i < args.len()
            invariant
                i <= args.len(),
                views == nodes_view(*args),
                self@ == old(self)@,
                self@.wf(),
                env == self@.env(),
                start == old(circuit)@,
                lower_args(views, i as nat, env, start) == Ok::<
                    (CircuitView, Seq<usize>),
                    ErrorView,
                >((circuit@, pins@)),
            decreases args.len() - i,
        {
            assert(views[i as int] == args[i as int]@);
            match self.translate_node(&args[i], circuit) {
                Ok(pin) => {
                    pins.push(pin);
                },
                Err(e) => {
                    proof {
                        assert(lower_args(views, (i + 1) as nat, env, start) == Err::<
                            (CircuitView, Seq<usize>),
                            ErrorView,
                        >(e@));
                        lemma_lower_args_failed(
                            views,
                            (i + 1) as nat,
                            args.len() as nat,
                            env,
                            start,
                        );
                    }
                    return Err(e);
                },
            }
            i += 1;
        }
        Ok(pins)
    }

    /// Lowers the statements of a body in order; their values are dropped.
    pub fn translate_body(&mut self, body: &Vec<ASTNode>, circuit: &mut Circuit) -> (r: Result<
        (),
        CompileError,
    >)
        requires
            old(self)@.wf(),
        ensures
            final(self)@ == old(self)@,
            match lower_body(
                nodes_view(*body),
                body.len() as nat,
                old(self)@.env(),
                old(circuit)@,
            ) {
                Ok(c2) => r is Ok && final(circuit)@ == c2,
                Err(e) => r matches Err(x) && x@ == e,
            },
        decreases nodes_view(*body), 0nat,
    {
        let ghost env = self@.env();
        let ghost start = circuit@;
        let ghost views = nodes_view(*body);
        let mut i: usize = 0;
        while i < body.len()
            invariant
                i <= body.len(),
                views == nodes_view(*body),
                self@ == old(self)@,
                self@.wf(),
                env == self@.env(),
                start == old(circuit)@,
                lower_body(views, i as nat, env, start) == Ok::<CircuitView, ErrorView>(circuit@),
            decreases body.len() - i,
        {
            assert(views[i as int] == body[i as int]@);
            match self.translate_node(&body[i], circuit) {
                Ok(_) => {},
                Err(e) => {
                    proof {
                        assert(lower_body(views, (i + 1) as nat, env, start) == Err::<
                            CircuitView,
                            ErrorView,
                        >(e@));
                        lemma_lower_body_failed(
                            views,
                            (i + 1) as nat,
                            body.len() as nat,
                            env,
                            start,
                        );
                    }
                    return Err(e);
                },
            }
            i += 1;
        }
        Ok(())
    }

    /// Lowers a conditional statement, which always ends in a failure.
    ///
    /// An if statement has a use only where the function returns from inside
    /// it, or where its value is assigned; neither has a lowering yet. The
    /// condition and the body are lowered all the same, in a scope of their
    /// own and the body into a circuit of its own, so that what is wrong in
    /// them is reported first.
    pub fn translate_if_statement(&mut self, node: &IfStatement, circuit: &mut Circuit) -> (r:
        Result<usize, CompileError>)
        requires
            old(self)@.wf(),
        ensures
            final(self)@ == old(self)@,
            lowered_as(lower_node(node@, old(self)@.env(), old(circuit)@), r, final(circuit)@),
        decreases node@, 0nat,
    {
        self.enter_scope();
        proof {
            assert(self@.scopes.drop_last() =~= old(self)@.scopes);
        }
        // two parts: the condition and the body
        match self.translate_expression(node.get_condition(), circuit) {
            Ok(_) => {},
            Err(e) => {
                self.exit_scope();
                return Err(e);
            },
        }
        let mut body_circuit = Circuit::new();
        let lowered = self.translate_body(node.get_body(), &mut body_circuit);
        self.exit_scope();
        match lowered {
            Ok(_) => Err(unimplemented("if statement")),
            Err(e) => Err(e),
        }
    }

    /// Lowers a node of a function body into `circuit` and gives the pin
    /// that carries its value.
    pub fn translate_node(&mut self, node: &ASTNode, circuit: &mut Circuit) -> (r: Result<
        usize,
        CompileError,
    >)
        requires
            old(self)@.wf(),
        ensures
            final(self)@ == old(self)@,
            lowered_as(lower_node(node@, old(self)@.env(), old(circuit)@), r, final(circuit)@),
        decreases node@, 1nat,
    {
        match node {
            ASTNode::Expression(expr) => self.translate_expression(expr, circuit),
            ASTNode::Return(inner) => {
                // get the circuit for the expression
                let internal_output_index = match self.translate_node(inner, circuit) {
                    Ok(pin) => pin,
                    Err(e) => {
                        return Err(e);
                    },
                };
                wire_return(circuit, internal_output_index)
            },
            ASTNode::IfStatement(statement) => self.translate_if_statement(statement, circuit),
            ASTNode::FunctionDefinition(_) => Err(unimplemented("nested definition")),
            ASTNode::Program(_) => Err(unimplemented("nested definition")),
        }
    }
}

/// Whether an outcome at the top is the one that the model gives: on success
/// the same pin, the same callable functions and the same circuit, on failure
/// the same error.
pub open spec fn translated_as(
    model: Translated,
    r: Result<Option<usize>, CompileError>,
    functions: Map<Seq<char>, CircuitView>,
    c: CircuitView,
) -> bool {
    match model {
        Ok((fs, c2, pin)) => r == Ok::<Option<usize>, CompileError>(pin) && functions == fs && c
            == c2,
        Err(e) => r matches Err(x) && x@ == e,
    }
}

impl Translator {
    /// Lowers the body of a function into `circuit`.
    pub fn process_function_returns(
        &mut self,
        node: &FunctionDefinition,
        circuit: &mut Circuit,
    ) -> (r: Result<(), CompileError>)
        requires
            old(self)@.wf(),
        ensures
            final(self)@ == old(self)@,
            match lower_body(
                node@.body,
                node@.body.len(),
                old(self)@.env(),
                old(circuit)@,
            ) {
                Ok(c2) => r is Ok && final(circuit)@ == c2,
                Err(e) => r matches Err(x) && x@ == e,
            },
    {
        self.translate_body(node.get_body(), circuit)
    }

    /// Compiles a function into a circuit of its own: one input of the
    /// circuit per parameter, bound to the parameter's name in the innermost
    /// scope, then the body. The circuit is named after the function.
    pub fn make_function_circuit(&mut self, node: &FunctionDefinition) -> (r: Result<
        Circuit,
        CompileError,
    >)
        requires
            old(self)@.wf(),
        ensures
            final(self)@.wf(),
            final(self)@.functions == old(self)@.functions,
            final(self)@.scopes == old(self)@.scopes.update(
                old(self)@.scopes.len() - 1,
                bind_params(
                    node@.args,
                    node@.args.len(),
                    old(self)@.scope(),
                    CircuitView::empty(),
                ).0,
            ),
            match lower_function(node@, old(self)@.scope(), old(self)@.functions) {
                Ok(c) => r matches Ok(x) && x@ == c,
                Err(e) => r matches Err(x) && x@ == e,
            },
    {
        let mut circuit = Circuit::new();
        let ghost outer = self@.scope();
        let ghost params = node@.args;

        // add the inputs of the function to the circuit
        let args = node.get_args();
        let mut i: usize = 0;
        proof {
            assert(self@.scopes =~= old(self)@.scopes.update(
                old(self)@.scopes.len() - 1,
                outer,
            ));
        }
        while i < args.len()
            invariant
                i <= args.len(),
                params == params_view(*args),
                self@.wf(),
                self@.functions == old(self)@.functions,
                self@.scopes == old(self)@.scopes.update(
                    old(self)@.scopes.len() - 1,
                    self@.scope(),
                ),
                old(self)@.scopes.len() > 0,
                (self@.scope(), circuit@) == bind_params(
                    params,
                    i as nat,
                    outer,
                    CircuitView::empty(),
                ),
            decreases args.len() - i,
        {
            proof {
                lemma_bind_params(params, i as nat, outer);
            }
            let input_index = circuit.add_program_input();
            let name = args[i].0.clone();

            // the type isn't used for now
            self.bind(name, input_index);
            i += 1;
            proof {
                assert(self@.scopes =~= old(self)@.scopes.update(
                    old(self)@.scopes.len() - 1,
                    self@.scope(),
                ));
            }
        }

        // translate the body of the function
        match self.process_function_returns(node, &mut circuit) {
            Ok(_) => {},
            Err(e) => {
                return Err(e);
            },
        }
        circuit.set_name(node.get_name().to_owned());
        Ok(circuit)
    }

    /// Compiles a function definition in a scope of its own. The circuit of
    /// `main` takes the place of `circuit`, and the value is the output pin
    /// that `main` allocated last. Any other function becomes callable under
    /// its name, unless the name is taken; `circuit` stays as it is and there
    /// is no value.
    pub fn translate_function_def(
        &mut self,
        node: &FunctionDefinition,
        circuit: &mut Circuit,
    ) -> (r: Result<Option<usize>, CompileError>)
        requires
            old(self)@.wf(),
        ensures
            final(self)@.wf(),
            final(self)@.scopes == old(self)@.scopes,
            r is Err ==> final(self)@.functions == old(self)@.functions,
            translated_as(
                lower_top(
                    NodeView::FunctionDefinition(node@),
                    old(self)@.scope(),
                    old(self)@.functions,
                    old(circuit)@,
                ),
                r,
                final(self)@.functions,
                final(circuit)@,
            ),
    {
        let is_main = same_text(node.get_name(), "main");
        if !is_main && self.function_defs.contains_key(node.get_name()) {
            return Err(CompileError::DuplicateFunctionDefinition(node.get_name().to_owned()));
        }
        self.enter_scope();
        let made = self.make_function_circuit(node);
        self.exit_scope();
        proof {
            assert(self@.scopes =~= old(self)@.scopes);
            lemma_lower_function_wf(node@, old(self)@.scope(), old(self)@.functions);
        }
        match made {
            Err(e) => Err(e),
            Ok(function_circuit) => {
                if is_main {
                    // set the circuit to the main circuit
                    *circuit = function_circuit;
                    let outputs = circuit.get_output_size();
                    if outputs > 0 {
                        Ok(Some(outputs - 1))
                    } else {
                        Ok(None)
                    }
                } else {
                    self.add_function_circuit(node.get_name().to_owned(), function_circuit);
                    Ok(None)
                }
            },
        }
    }

    /// Lowers a node at the top, see `translate_ast_internal`.
    pub fn translate_top(&mut self, node: &ASTNode, circuit: &mut Circuit) -> (r: Result<
        Option<usize>,
        CompileError,
    >)
        requires
            old(self)@.wf(),
        ensures
            final(self)@.wf(),
            final(self)@.scopes == old(self)@.scopes,
            translated_as(
                lower_top(node@, old(self)@.scope(), old(self)@.functions, old(circuit)@),
                r,
                final(self)@.functions,
                final(circuit)@,
            ),
            r is Err ==> final(self)@.functions == functions_kept(
                node@,
                old(self)@.scope(),
                old(self)@.functions,
            ),
    {
        match node {
            ASTNode::Program(nodes) => {
                let ghost scope = self@.scope();
                let ghost functions = self@.functions;
                let ghost views = nodes_view(*nodes);
                let mut main_seen = false;
                let mut i: usize = 0;
                while i < nodes.len()
                    invariant
                        i <= nodes.len(),
                        views == nodes_view(*nodes),
                        node@ == NodeView::Program(views),
                        self@.wf(),
                        self@.scopes == old(self)@.scopes,
                        scope == old(self)@.scope(),
                        functions == old(self)@.functions,
                        lower_program(views, i as nat, scope, functions) == Ok::<
                            Compiled,
                            ErrorView,
                        >(
                            Compiled {
                                functions: self@.functions,
                                main: if main_seen {
                                    Some(circuit@)
                                } else {
                                    None
                                },
                            },
                        ),
                    decreases nodes.len() - i,
                {
                    assert(views[i as int] == nodes[i as int]@);
                    match &nodes[i] {
                        ASTNode::FunctionDefinition(func_def) => {
                            if same_text(func_def.get_name(), "main") {
                                if main_seen {
                                    proof {
                                        assert(lower_program(
                                            views,
                                            (i + 1) as nat,
                                            scope,
                                            functions,
                                        ) == Err::<Compiled, ErrorView>(
                                            ErrorView::DuplicateMainFunction,
                                        ));
                                        lemma_lower_program_failed(
                                            views,
                                            (i + 1) as nat,
                                            nodes.len() as nat,
                                            scope,
                                            functions,
                                        );
                                        lemma_functions_reached_failed(
                                            views,
                                            i as nat,
                                            nodes.len() as nat,
                                            scope,
                                            functions,
                                        );
                                    }
                                    return Err(CompileError::DuplicateMainFunction);
                                }
                                main_seen = true;
                            }
                            match self.translate_function_def(func_def, circuit) {
                                Ok(_) => {},
                                Err(e) => {
                                    proof {
                                        assert(lower_program(
                                            views,
                                            (i + 1) as nat,
                                            scope,
                                            functions,
                                        ) == Err::<Compiled, ErrorView>(e@));
                                        lemma_lower_program_failed(
                                            views,
                                            (i + 1) as nat,
                                            nodes.len() as nat,
                                            scope,
                                            functions,
                                        );
                                        lemma_functions_reached_failed(
                                            views,
                                            i as nat,
                                            nodes.len() as nat,
                                            scope,
                                            functions,
                                        );
                                    }
                                    return Err(e);
                                },
                            }
                        },
                        ASTNode::IfStatement(statement) => {
                            proof {
                                lemma_if_statement_view(*statement);
                            }
                        },
                        _ => {},
                    }
                    i += 1;
                }
                if !main_seen {
                    proof {
                        lemma_functions_reached_done(views, nodes.len() as nat, scope, functions);
                    }
                    return Err(CompileError::MissingMainFunction);
                }
                let outputs = circuit.get_output_size();
                if outputs > 0 {
                    Ok(Some(outputs - 1))
                } else {
                    Ok(None)
                }
            },
            ASTNode::FunctionDefinition(func_def) => self.translate_function_def(func_def, circuit),
            _ => {
                proof {
                    if let ASTNode::IfStatement(statement) = node {
                        lemma_if_statement_view(*statement);
                    }
                }
                match self.translate_node(node, circuit) {
                    Ok(pin) => Ok(Some(pin)),
                    Err(e) => Err(e),
                }
            },
        }
    }

    /// Lowers a node at the top into `circuit` and gives the pin of its
    /// value, if it has one.
    ///
    /// A program must define `main` exactly once; its functions are compiled
    /// in order, each callable from those after it, and the circuit of `main`
    /// takes the place of `circuit`. A definition alone is compiled in the
    /// same way. Any other node is lowered into `circuit` as in a function
    /// body.
    pub fn translate_ast_internal(&mut self, node: ASTNode, circuit: &mut Circuit) -> (r: Result<
        Option<usize>,
        CompileError,
    >)
        requires
            old(self)@.wf(),
        ensures
            final(self)@.wf(),
            final(self)@.scopes == old(self)@.scopes,
            translated_as(
                lower_top(node@, old(self)@.scope(), old(self)@.functions, old(circuit)@),
                r,
                final(self)@.functions,
                final(circuit)@,
            ),
            r is Err ==> final(self)@.functions == functions_kept(
                node@,
                old(self)@.scope(),
                old(self)@.functions,
            ),
    {
        self.translate_top(&node, circuit)
    }

    /// Compiles a syntax tree into a circuit of its own.
    pub fn translate_ast(&mut self, node: ASTNode) -> (r: Result<Circuit, CompileError>)
        requires
            old(self)@.wf(),
        ensures
            final(self)@.wf(),
            final(self)@.scopes == old(self)@.scopes,
            match lower_top(
                node@,
                old(self)@.scope(),
                old(self)@.functions,
                CircuitView::empty(),
            ) {
                Ok((fs, c, _)) => r matches Ok(x) && x@ == c && c.wf() && final(self)@.functions
                    == fs,
                Err(e) => r matches Err(x) && x@ == e && final(self)@.functions == functions_kept(
                    node@,
                    old(self)@.scope(),
                    old(self)@.functions,
                ),
            },
    {
        let mut circuit = Circuit::new();
        proof {
            lemma_lower_top_wf(
                node@,
                self@.scope(),
                self@.functions,
                CircuitView::empty(),
            );
        }
        match self.translate_top(&node, &mut circuit) {
            Ok(_) => Ok(circuit),
            Err(e) => Err(e),
        }
    }
}

/// Whether a compilation ended as the model says: with the circuit that the
/// model gives, or with the failure that it gives.
pub open spec fn is_outcome(
    model: Result<CircuitView, ErrorView>,
    r: Result<Circuit, CompileError>,
) -> bool {
    match model {
        Ok(c) => r matches Ok(x) && x@ == c,
        Err(e) => r matches Err(x) && x@ == e,
    }
}

/// Compiles a program: the circuit of its `main`, with every call of another
/// function replaced by a copy of that function's circuit, or the first
/// failure met on the way. A circuit that comes out is well formed.
pub fn compile(ast: &ASTNode) -> (r: Result<Circuit, CompileError>)
    ensures
        is_outcome(compiled(ast@), r),
        r matches Ok(x) ==> x@.wf(),
{
    let mut translator = Translator::new();
    let mut circuit = Circuit::new();
    proof {
        lemma_compiled_wf(ast@);
        assert(translator@.scope() == Map::<Seq<char>, usize>::empty());
    }
    match translator.translate_top(ast, &mut circuit) {
        Ok(_) => Ok(circuit),
        Err(e) => Err(e),
    }
}

} // verus!
