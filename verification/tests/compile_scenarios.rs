use circuit_compiler::ast::{
    ASTNode, Dyadic, Expression, FunctionCall, FunctionDefinition, Operator, Type, Value,
};
use circuit_compiler::circuit::{Circuit, Component};
use circuit_compiler::error::CompileError;
use circuit_compiler::parts::Part;
use circuit_compiler::translator::compile;

fn ident(name: &str) -> Expression {
    Expression::Identifier(name.to_string())
}

fn dyadic(left: Expression, operator: Operator, right: Expression) -> Expression {
    Expression::Dyadic(Dyadic { left: Box::new(left), operator, right: Box::new(right) })
}

fn ret(e: Expression) -> ASTNode {
    ASTNode::Return(Box::new(ASTNode::Expression(e)))
}

fn function(name: &str, params: &[&str], body: Vec<ASTNode>) -> ASTNode {
    let args = params.iter().map(|p| (p.to_string(), Type::Int)).collect();
    ASTNode::FunctionDefinition(FunctionDefinition::new(
        name.to_string(),
        args,
        body,
        Some(Type::Int),
    ))
}

fn compiled(program: Vec<ASTNode>) -> Result<Circuit, CompileError> {
    compile(&ASTNode::Program(program))
}

#[test]
fn simple_arithmetic_compiles_to_one_adder() {
    let main = function("main", &["a", "b"], vec![ret(dyadic(ident("a"), Operator::Plus, ident("b")))]);
    let circuit = compiled(vec![main]).unwrap();
    assert_eq!(circuit.program_inputs(), &vec![0, 1]);
    assert_eq!(circuit.parts().len(), 1);
    assert!(matches!(circuit.parts()[0], Component::Adder(_)));
    assert_eq!(circuit.parts()[0].get_input_size(), 2);
    assert_eq!(circuit.parts()[0].get_output_size(), 1);
    assert_eq!(circuit.program_outputs(), &vec![1]);
    // input0 -> adder_in0, input1 -> adder_in1, adder_out -> output0
    assert_eq!(circuit.connections(), &vec![(0, 2), (1, 3), (0, 1)]);
    assert_eq!(circuit.get_name(), "main");
}

#[test]
fn undefined_variable_is_reported() {
    let main = function("main", &[], vec![ret(ident("z"))]);
    assert_eq!(compiled(vec![main]).unwrap_err(), CompileError::UndefinedVariable("z".to_string()));
}

#[test]
fn missing_main_is_reported() {
    let helper = function("helper", &[], vec![]);
    assert_eq!(compiled(vec![helper]).unwrap_err(), CompileError::MissingMainFunction);
}

#[test]
fn unsupported_operator_is_reported() {
    let main = function("main", &["a", "b"], vec![ret(dyadic(ident("a"), Operator::Equal, ident("b")))]);
    assert_eq!(
        compiled(vec![main]).unwrap_err(),
        CompileError::UnsupportedOperator(Operator::Equal)
    );
}

#[test]
fn call_sites_embed_independent_copies() {
    let add = function("add", &["a", "b"], vec![ret(dyadic(ident("a"), Operator::Plus, ident("b")))]);
    let call = |x: &str, y: &str| {
        Expression::FunctionCall(FunctionCall::new(
            "add".to_string(),
            vec![ASTNode::Expression(ident(x)), ASTNode::Expression(ident(y))],
        ))
    };
    let main = function(
        "main",
        &["x", "y"],
        vec![ret(dyadic(call("x", "y"), Operator::Plus, call("y", "x")))],
    );
    let circuit = compiled(vec![add, main]).unwrap();
    assert_eq!(circuit.parts().len(), 3);
    let placements = circuit.placements();
    // the template has 4 input pins and 2 output pins
    assert_eq!((placements[0].input_offset, placements[0].output_offset), (2, 0));
    assert_eq!((placements[1].input_offset, placements[1].output_offset), (6, 2));
    assert_eq!((placements[2].input_offset, placements[2].output_offset), (10, 4));
    assert_eq!(
        circuit.connections(),
        &vec![(0, 2), (1, 3), (1, 6), (0, 7), (1, 10), (3, 11), (4, 5)]
    );
    assert_eq!(circuit.program_outputs(), &vec![5]);
}

fn call(name: &str, args: &[&str]) -> Expression {
    Expression::FunctionCall(FunctionCall::new(
        name.to_string(),
        args.iter().map(|a| ASTNode::Expression(ident(a))).collect(),
    ))
}

fn add_function() -> ASTNode {
    function("add", &["a", "b"], vec![ret(dyadic(ident("a"), Operator::Plus, ident("b")))])
}

fn two_calls_program() -> Vec<ASTNode> {
    let main = function(
        "main",
        &["x", "y"],
        vec![ret(dyadic(call("add", &["x", "y"]), Operator::Plus, call("add", &["y", "x"])))],
    );
    vec![add_function(), main]
}

#[test]
fn embedded_copies_are_whole_and_named_after_the_call() {
    let circuit = compiled(two_calls_program()).unwrap();
    for k in 0..2 {
        match &circuit.parts()[k] {
            Component::Circuit(copy) => {
                assert_eq!(copy.get_name(), "add");
                assert_eq!(copy.program_inputs(), &vec![0, 1]);
                assert_eq!(copy.program_outputs(), &vec![1]);
                assert_eq!(copy.connections(), &vec![(0, 2), (1, 3), (0, 1)]);
                assert_eq!(copy.parts().len(), 1);
            }
            other => panic!("not an embedded circuit: {:?}", other),
        }
    }
    assert!(matches!(circuit.parts()[2], Component::Adder(_)));
}

#[test]
fn undefined_function_is_reported() {
    let main = function("main", &["x"], vec![ret(call("nowhere", &["x"]))]);
    assert_eq!(
        compiled(vec![main]).unwrap_err(),
        CompileError::UndefinedFunction("nowhere".to_string())
    );
}

#[test]
fn function_must_be_defined_before_its_use() {
    let main = function("main", &["x", "y"], vec![ret(call("add", &["x", "y"]))]);
    assert_eq!(
        compiled(vec![main, add_function()]).unwrap_err(),
        CompileError::UndefinedFunction("add".to_string())
    );
}

#[test]
fn self_call_fails_and_does_not_loop() {
    let looping = function("again", &["x"], vec![ret(call("again", &["x"]))]);
    let main = function("main", &[], vec![]);
    assert_eq!(
        compiled(vec![looping, main]).unwrap_err(),
        CompileError::UndefinedFunction("again".to_string())
    );
}

#[test]
fn arguments_fail_before_the_function_is_looked_up() {
    let main = function("main", &[], vec![ret(call("nowhere", &["z"]))]);
    assert_eq!(compiled(vec![main]).unwrap_err(), CompileError::UndefinedVariable("z".to_string()));
}

#[test]
fn arity_mismatch_is_reported() {
    let main = function("main", &["x"], vec![ret(call("add", &["x"]))]);
    assert_eq!(
        compiled(vec![add_function(), main]).unwrap_err(),
        CompileError::ArityMismatch { function: "add".to_string(), expected: 2, got: 1 }
    );
    let main = function("main", &["x"], vec![ret(call("add", &["x", "x", "x"]))]);
    assert_eq!(
        compiled(vec![add_function(), main]).unwrap_err(),
        CompileError::ArityMismatch { function: "add".to_string(), expected: 2, got: 3 }
    );
}

#[test]
fn call_of_a_function_without_a_result_is_reported() {
    let silent = function("silent", &["a"], vec![]);
    let main = function("main", &["x"], vec![ret(call("silent", &["x"]))]);
    assert_eq!(
        compiled(vec![silent, main]).unwrap_err(),
        CompileError::UnimplementedFeature("call of a function without a result".to_string())
    );
}

#[test]
fn duplicate_main_is_reported() {
    let first = function("main", &[], vec![]);
    let second = function("main", &["a"], vec![ret(ident("a"))]);
    assert_eq!(compiled(vec![first, second]).unwrap_err(), CompileError::DuplicateMainFunction);
}

#[test]
fn duplicate_function_is_reported() {
    let main = function("main", &[], vec![]);
    assert_eq!(
        compiled(vec![add_function(), add_function(), main]).unwrap_err(),
        CompileError::DuplicateFunctionDefinition("add".to_string())
    );
}

#[test]
fn empty_program_misses_main() {
    assert_eq!(compiled(vec![]).unwrap_err(), CompileError::MissingMainFunction);
}

#[test]
fn first_failure_wins() {
    // the undefined variable in the helper comes before the missing main
    let broken = function("broken", &[], vec![ret(ident("q"))]);
    assert_eq!(compiled(vec![broken]).unwrap_err(), CompileError::UndefinedVariable("q".to_string()));
    // the left operand fails before the operator is looked at
    let main = function("main", &["a"], vec![ret(dyadic(ident("l"), Operator::Equal, ident("a")))]);
    assert_eq!(compiled(vec![main]).unwrap_err(), CompileError::UndefinedVariable("l".to_string()));
}

#[test]
fn main_without_return_has_no_output() {
    let main = function("main", &["a"], vec![ASTNode::Expression(ident("a"))]);
    let circuit = compiled(vec![main]).unwrap();
    assert_eq!(circuit.program_inputs(), &vec![0]);
    assert!(circuit.program_outputs().is_empty());
    assert!(circuit.connections().is_empty());
}

#[test]
fn nodes_that_are_no_definitions_are_passed_over_at_the_top() {
    let main = function("main", &[], vec![]);
    let stray = ASTNode::Expression(ident("nothing"));
    let circuit = compiled(vec![stray, main]).unwrap();
    assert_eq!(circuit.get_name(), "main");
}

#[test]
fn later_parameter_hides_an_earlier_one_of_the_same_name() {
    let main = function("main", &["a", "a"], vec![ret(ident("a"))]);
    let circuit = compiled(vec![main]).unwrap();
    assert_eq!(circuit.program_inputs(), &vec![0, 1]);
    assert_eq!(circuit.connections(), &vec![(1, 0)]);
}

#[test]
fn parameters_of_one_function_are_not_seen_in_the_next() {
    let first = function("first", &["hidden"], vec![ret(ident("hidden"))]);
    let main = function("main", &[], vec![ret(ident("hidden"))]);
    assert_eq!(
        compiled(vec![first, main]).unwrap_err(),
        CompileError::UndefinedVariable("hidden".to_string())
    );
}

#[test]
fn two_returns_give_two_outputs() {
    let main = function(
        "main",
        &["a", "b"],
        vec![
            ret(dyadic(ident("a"), Operator::Plus, ident("b"))),
            ret(dyadic(ident("a"), Operator::Multiply, ident("b"))),
        ],
    );
    let circuit = compiled(vec![main]).unwrap();
    assert_eq!(circuit.program_outputs(), &vec![1, 3]);
    assert_eq!(
        circuit.connections(),
        &vec![(0, 2), (1, 3), (0, 1), (0, 4), (1, 5), (2, 3)]
    );
}

#[test]
fn compiling_twice_gives_the_same_circuit() {
    let first = compiled(two_calls_program()).unwrap();
    let second = compiled(two_calls_program()).unwrap();
    assert_eq!(format!("{:?}", first), format!("{:?}", second));
    let main = function("main", &[], vec![ret(ident("z"))]);
    let again = function("main", &[], vec![ret(ident("z"))]);
    assert_eq!(compiled(vec![main]).unwrap_err(), compiled(vec![again]).unwrap_err());
}

/// The input pins of the parts that wait for a wire.
fn part_sinks(circuit: &Circuit) -> Vec<usize> {
    let mut sinks = vec![];
    for (part, at) in circuit.parts().iter().zip(circuit.placements()) {
        match part {
            Component::Constant(_) => {}
            Component::Circuit(inner) => {
                sinks.extend(inner.program_inputs().iter().map(|p| at.input_offset + p))
            }
            other => sinks.extend((0..other.get_input_size()).map(|i| at.input_offset + i)),
        }
    }
    sinks
}

fn assert_fan_in(circuit: &Circuit) {
    let sinks = part_sinks(circuit);
    let limit = circuit.get_input_size().max(circuit.get_output_size());
    for t in 0..=limit {
        let wires = circuit.connections().iter().filter(|w| w.1 == t).count();
        let waiting = sinks.iter().filter(|s| **s == t).count();
        let outputs = circuit.program_outputs().iter().filter(|o| **o == t).count();
        assert!(waiting <= 1 && outputs <= 1);
        assert_eq!(wires, waiting + outputs, "at pin {}", t);
    }
}

#[test]
fn every_sink_has_exactly_one_wire() {
    assert_fan_in(&compiled(two_calls_program()).unwrap());
    let constant = function(
        "main",
        &["a"],
        vec![ret(dyadic(ident("a"), Operator::Minus, Expression::Value(Value::Int(1))))],
    );
    let circuit = compiled(vec![constant]).unwrap();
    assert_fan_in(&circuit);
    assert_eq!(circuit.connections(), &vec![(0, 1), (0, 2), (1, 2)]);
}

#[test]
fn an_output_and_a_part_input_may_share_a_number() {
    // return a + a + a: the second input of the first adder and the output
    // of the circuit are both pin 2, each in its own numbering
    let main = function(
        "main",
        &["a"],
        vec![ret(dyadic(dyadic(ident("a"), Operator::Plus, ident("a")), Operator::Plus, ident("a")))],
    );
    let circuit = compiled(vec![main]).unwrap();
    assert_eq!(circuit.connections(), &vec![(0, 1), (0, 2), (0, 3), (0, 4), (1, 2)]);
    assert_eq!(circuit.program_outputs(), &vec![2]);
    assert_fan_in(&circuit);
}

fn assert_pins_consecutive(circuit: &Circuit) {
    let mut inputs: Vec<usize> = circuit.program_inputs().clone();
    let mut outputs: Vec<usize> = circuit.program_outputs().clone();
    for (part, at) in circuit.parts().iter().zip(circuit.placements()) {
        inputs.extend((0..part.get_input_size()).map(|i| at.input_offset + i));
        outputs.extend((0..part.get_output_size()).map(|i| at.output_offset + i));
        if let Component::Circuit(inner) = part {
            assert_pins_consecutive(inner);
        }
    }
    inputs.sort();
    outputs.sort();
    assert_eq!(inputs, (0..circuit.get_input_size()).collect::<Vec<usize>>());
    assert_eq!(outputs, (0..circuit.get_output_size()).collect::<Vec<usize>>());
}

#[test]
fn pins_are_distinct_and_consecutive() {
    let circuit = compiled(two_calls_program()).unwrap();
    assert_eq!(circuit.get_input_size(), 12);
    assert_eq!(circuit.get_output_size(), 6);
    assert_pins_consecutive(&circuit);
}
