use circuit_compiler::ast::{
    ASTNode, Dyadic, Expression, FunctionCall, FunctionDefinition, IfStatement, Operator, Type,
    Value,
};
use circuit_compiler::circuit::{Circuit, Component};
use circuit_compiler::error::CompileError;
use circuit_compiler::parts::Part;
use circuit_compiler::scope::ScopeInfo;
use circuit_compiler::translator::Translator;

fn ident(name: &str) -> Expression {
    Expression::Identifier(name.to_string())
}

fn sum(left: Expression, right: Expression) -> Expression {
    Expression::Dyadic(Dyadic {
        left: Box::new(left),
        operator: Operator::Plus,
        right: Box::new(right),
    })
}

fn definition(name: &str, params: &[&str], body: Vec<ASTNode>) -> FunctionDefinition {
    let args = params.iter().map(|p| (p.to_string(), Type::Int)).collect();
    FunctionDefinition::new(name.to_string(), args, body, Some(Type::Int))
}

#[test]
fn scope_binds_and_shadows() {
    let mut scope = ScopeInfo::new();
    assert_eq!(scope.get("a"), None);
    scope.add_variable("a".to_string(), 3);
    scope.add_variable("b".to_string(), 4);
    assert_eq!(scope.get("a"), Some(3));
    assert_eq!(scope.get("b"), Some(4));
    scope.add_variable("a".to_string(), 9);
    assert_eq!(scope.get("a"), Some(9));
    assert_eq!(scope.get("c"), None);
}

#[test]
fn scope_copy_shares_nothing() {
    let mut scope = ScopeInfo::new();
    scope.add_variable("a".to_string(), 1);
    let mut copy = scope.copy();
    copy.add_variable("a".to_string(), 2);
    copy.add_variable("b".to_string(), 3);
    assert_eq!(scope.get("a"), Some(1));
    assert_eq!(scope.get("b"), None);
    assert_eq!(copy.get("a"), Some(2));
    assert_eq!(copy.get("b"), Some(3));
}

#[test]
fn entered_scope_starts_as_a_copy_and_is_dropped_on_exit() {
    let mut t = Translator::new();
    t.bind("x".to_string(), 5);
    t.enter_scope();
    assert_eq!(t.resolve("x"), Ok(5));
    t.bind("x".to_string(), 6);
    t.bind("y".to_string(), 7);
    assert_eq!(t.resolve("x"), Ok(6));
    assert_eq!(t.get_variable_index("y".to_string()), 7);
    t.exit_scope();
    assert_eq!(t.resolve("x"), Ok(5));
    assert_eq!(t.resolve("y"), Err(CompileError::UndefinedVariable("y".to_string())));
}

#[test]
fn registry_holds_compiled_functions() {
    let mut t = Translator::new();
    assert!(t.find_function_circuit("f").is_none());
    let mut c = Circuit::new();
    c.add_program_input();
    t.add_function_circuit("f".to_string(), c);
    assert_eq!(t.get_function_circuit("f".to_string()).get_input_size(), 1);
    assert!(t.find_function_circuit("g").is_none());
    // a second circuit under the same name takes the place of the first
    t.add_function_circuit("f".to_string(), Circuit::new());
    assert_eq!(t.get_function_circuit("f".to_string()).get_input_size(), 0);
}

#[test]
fn operators_map_to_their_parts() {
    let t = Translator::new();
    assert!(matches!(t.get_operator_circuit(&Operator::Plus), Ok(Component::Adder(_))));
    assert!(matches!(t.get_operator_circuit(&Operator::Minus), Ok(Component::Subtractor(_))));
    assert!(matches!(t.get_operator_circuit(&Operator::Multiply), Ok(Component::Multiplier(_))));
    assert!(matches!(t.get_operator_circuit(&Operator::Divide), Ok(Component::Divider(_))));
    for op in [
        Operator::Equal,
        Operator::NotEqual,
        Operator::LessThan,
        Operator::LessThanOrEqual,
        Operator::GreaterThan,
        Operator::GreaterThanOrEqual,
    ] {
        assert_eq!(t.get_operator_circuit(&op).unwrap_err(), CompileError::UnsupportedOperator(op));
    }
}

#[test]
fn expression_lowering_wires_left_then_right() {
    let mut t = Translator::new();
    t.bind("a".to_string(), 10);
    t.bind("b".to_string(), 11);
    let mut c = Circuit::new();
    // (a - b) * a
    let e = Expression::Dyadic(Dyadic {
        left: Box::new(Expression::Dyadic(Dyadic {
            left: Box::new(ident("a")),
            operator: Operator::Minus,
            right: Box::new(ident("b")),
        })),
        operator: Operator::Multiply,
        right: Box::new(ident("a")),
    });
    assert_eq!(t.translate_expression(&e, &mut c), Ok(1));
    assert!(matches!(c.parts()[0], Component::Subtractor(_)));
    assert!(matches!(c.parts()[1], Component::Multiplier(_)));
    assert_eq!(c.connections(), &vec![(10, 0), (11, 1), (0, 2), (10, 3)]);
}

#[test]
fn integer_literal_becomes_a_constant() {
    let mut t = Translator::new();
    let mut c = Circuit::new();
    let e = Expression::Value(Value::Int(-42));
    assert_eq!(t.translate_expression(&e, &mut c), Ok(0));
    match &c.parts()[0] {
        Component::Constant(k) => assert_eq!(k.value, -42),
        other => panic!("not a constant: {:?}", other),
    }
    assert_eq!(c.get_input_size(), 0);
    assert_eq!(c.get_output_size(), 1);
    assert!(c.connections().is_empty());
}

#[test]
fn constructs_without_lowering_are_reported() {
    let mut t = Translator::new();
    t.bind("a".to_string(), 0);
    let mut c = Circuit::new();
    let text = Expression::Value(Value::String("\"hi\"".to_string()));
    assert_eq!(
        t.translate_expression(&text, &mut c),
        Err(CompileError::UnimplementedFeature("string literal".to_string()))
    );
    let paren = Expression::ParenExpression(Box::new(ident("a")));
    assert_eq!(
        t.translate_expression(&paren, &mut c),
        Err(CompileError::UnimplementedFeature("parenthesised expression".to_string()))
    );
    let branch = ASTNode::IfStatement(IfStatement::new(ident("a"), vec![]));
    assert_eq!(
        t.translate_node(&branch, &mut c),
        Err(CompileError::UnimplementedFeature("if statement".to_string()))
    );
    let nested = ASTNode::FunctionDefinition(definition("inner", &[], vec![]));
    assert_eq!(
        t.translate_node(&nested, &mut c),
        Err(CompileError::UnimplementedFeature("nested definition".to_string()))
    );
    assert_eq!(
        t.translate_node(&ASTNode::Program(vec![]), &mut c),
        Err(CompileError::UnimplementedFeature("nested definition".to_string()))
    );
}

#[test]
fn if_statement_reports_what_is_wrong_inside_it_first() {
    let mut t = Translator::new();
    t.bind("a".to_string(), 0);
    let mut c = Circuit::new();
    let bad_condition = IfStatement::new(ident("nope"), vec![]);
    assert_eq!(
        t.translate_if_statement(&bad_condition, &mut c),
        Err(CompileError::UndefinedVariable("nope".to_string()))
    );
    let bad_body = IfStatement::new(
        ident("a"),
        vec![ASTNode::Return(Box::new(ASTNode::Expression(ident("gone"))))],
    );
    assert_eq!(
        t.translate_if_statement(&bad_body, &mut c),
        Err(CompileError::UndefinedVariable("gone".to_string()))
    );
    // the scope that the statement opened is closed again
    assert_eq!(t.resolve("a"), Ok(0));
}

#[test]
fn return_reserves_an_output_and_wires_it() {
    let mut t = Translator::new();
    t.bind("a".to_string(), 6);
    let mut c = Circuit::new();
    let node = ASTNode::Return(Box::new(ASTNode::Expression(ident("a"))));
    assert_eq!(t.translate_node(&node, &mut c), Ok(0));
    assert_eq!(c.program_outputs(), &vec![0]);
    assert_eq!(c.connections(), &vec![(6, 0)]);
}

#[test]
fn definition_alone_becomes_callable() {
    let mut t = Translator::new();
    let mut c = Circuit::new();
    let twice = definition(
        "twice",
        &["v"],
        vec![ASTNode::Return(Box::new(ASTNode::Expression(sum(ident("v"), ident("v")))))],
    );
    let r = t.translate_ast_internal(ASTNode::FunctionDefinition(twice), &mut c);
    assert_eq!(r, Ok(None));
    assert!(c.parts().is_empty());
    let template = t.get_function_circuit("twice".to_string());
    assert_eq!(template.get_name(), "twice");
    assert_eq!(template.program_inputs(), &vec![0]);
    assert_eq!(template.program_outputs(), &vec![1]);
    assert_eq!(template.connections(), &vec![(0, 1), (0, 2), (0, 1)]);
    // the parameter is gone with the function's scope
    assert_eq!(t.resolve("v"), Err(CompileError::UndefinedVariable("v".to_string())));
    // and a call wires the exposed input and yields the exposed output
    t.bind("x".to_string(), 0);
    let call = Expression::FunctionCall(FunctionCall::new(
        "twice".to_string(),
        vec![ASTNode::Expression(ident("x"))],
    ));
    let mut d = Circuit::new();
    d.add_program_input();
    assert_eq!(t.translate_expression(&call, &mut d), Ok(1));
    assert_eq!(d.connections(), &vec![(0, 1)]);
    assert_eq!(d.get_input_size(), 4);
    assert_eq!(d.get_output_size(), 2);
}

#[test]
fn main_alone_replaces_the_circuit() {
    let mut t = Translator::new();
    let mut c = Circuit::new();
    c.add_program_input();
    c.add_program_input();
    c.add_program_input();
    let main = definition(
        "main",
        &["a"],
        vec![ASTNode::Return(Box::new(ASTNode::Expression(ident("a"))))],
    );
    let r = t.translate_ast_internal(ASTNode::FunctionDefinition(main), &mut c);
    assert_eq!(r, Ok(Some(0)));
    assert_eq!(c.program_inputs(), &vec![0]);
    assert_eq!(c.program_outputs(), &vec![0]);
    assert_eq!(c.connections(), &vec![(0, 0)]);
    assert_eq!(c.get_name(), "main");
}

#[test]
fn translate_ast_gives_a_circuit_of_its_own() {
    let mut t = Translator::new();
    let main = definition("main", &[], vec![]);
    let circuit = t.translate_ast(ASTNode::Program(vec![ASTNode::FunctionDefinition(main)])).unwrap();
    assert_eq!(circuit.get_name(), "main");
    assert!(circuit.program_outputs().is_empty());
    let lone = t.translate_ast(ASTNode::Expression(Expression::Value(Value::Int(1)))).unwrap();
    assert_eq!(lone.get_output_size(), 1);
    assert_eq!(lone.get_name(), "Unnamed Circuit");
}

#[test]
fn compatibility_of_call_and_definition() {
    let f = definition("f", &["a", "b"], vec![]);
    let other_name = FunctionCall::new("g".to_string(), vec![]);
    assert_eq!(f.check_compatibility(&other_name), Ok(false));
    let other_count = FunctionCall::new("f".to_string(), vec![ASTNode::Expression(ident("a"))]);
    assert_eq!(f.check_compatibility(&other_count), Ok(false));
    let fits = FunctionCall::new(
        "f".to_string(),
        vec![ASTNode::Expression(ident("a")), ASTNode::Expression(ident("b"))],
    );
    assert_eq!(
        f.check_compatibility(&fits),
        Err(CompileError::UnimplementedFeature("argument type checking".to_string()))
    );
}

#[test]
fn getters_give_back_what_was_built() {
    let f = FunctionDefinition::new(
        "f".to_string(),
        vec![("a".to_string(), Type::Int), ("s".to_string(), Type::String)],
        vec![ASTNode::Expression(ident("a"))],
        None,
    );
    assert_eq!(f.get_name(), "f");
    assert_eq!(f.get_args(), &vec![("a".to_string(), Type::Int), ("s".to_string(), Type::String)]);
    assert_eq!(f.get_body().len(), 1);
    assert_eq!(f.get_return_type(), None);
    let call = FunctionCall::new("g".to_string(), vec![]);
    assert_eq!(call.get_name(), "g");
    assert!(call.get_args().is_empty());
    let d = Dyadic {
        left: Box::new(ident("l")),
        operator: Operator::Divide,
        right: Box::new(ident("r")),
    };
    assert!(matches!(d.get_left(), Expression::Identifier(n) if n == "l"));
    assert!(matches!(d.get_right(), Expression::Identifier(n) if n == "r"));
    assert_eq!(*d.get_operator(), Operator::Divide);
    let s = IfStatement::new(ident("c"), vec![]);
    assert!(matches!(s.get_condition(), Expression::Identifier(n) if n == "c"));
    assert!(s.get_body().is_empty());
}

#[test]
fn type_names() {
    assert_eq!(Type::from_str("Int"), Type::Int);
    assert_eq!(Type::from_str("String"), Type::String);
    assert_eq!(Type::parse("Int"), Some(Type::Int));
    assert_eq!(Type::parse("String"), Some(Type::String));
    assert_eq!(Type::parse("int"), None);
    assert_eq!(Type::parse(""), None);
}
