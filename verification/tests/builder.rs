use circuit_compiler::ast::{
    ASTNode, Dyadic, Expression, FunctionCall, FunctionDefinition, IfStatement, Operator, Type,
    Value,
};
use circuit_compiler::builder::{build_ast, parse_operator};
use circuit_compiler::error::CompileError;
use circuit_compiler::literal::{digit, parse_int};
use circuit_compiler::syntax::{Rule, SyntaxNode};
use circuit_compiler::translator::compile;

fn leaf(rule: Rule, text: &str) -> SyntaxNode {
    SyntaxNode::leaf(rule, text.to_string())
}

fn node(rule: Rule, text: &str, children: Vec<SyntaxNode>) -> SyntaxNode {
    SyntaxNode::new(rule, text.to_string(), children)
}

fn identifier(name: &str) -> SyntaxNode {
    node(
        Rule::Expression,
        name,
        vec![node(
            Rule::PrimaryExpression,
            name,
            vec![leaf(Rule::PrimaryIdentifier, name)],
        )],
    )
}

fn param(name: &str, ty: &str) -> SyntaxNode {
    node(
        Rule::Param,
        "",
        vec![leaf(Rule::Other, name), leaf(Rule::ValueType, ty)],
    )
}

fn shown(built: &Result<Option<ASTNode>, CompileError>) -> String {
    format!("{:?}", built)
}

fn unrecognized(rule: Rule) -> Result<Option<ASTNode>, CompileError> {
    Err(CompileError::UnrecognizedSyntax(rule))
}

#[test]
fn end_of_input_builds_no_node() {
    assert_eq!(shown(&build_ast(&leaf(Rule::Eoi, ""))), "Ok(None)");
}

#[test]
fn identifier_builds_an_identifier() {
    let built = build_ast(&identifier("x"));
    let expected = Ok(Some(ASTNode::Expression(Expression::Identifier("x".to_string()))));
    assert_eq!(shown(&built), shown(&expected));
}

#[test]
fn values_build_literals() {
    let int = node(Rule::Value, "12", vec![leaf(Rule::Int, "12")]);
    let expected = Ok(Some(ASTNode::Expression(Expression::Value(Value::Int(12)))));
    assert_eq!(shown(&build_ast(&int)), shown(&expected));
    let text = node(Rule::Value, "\"a b\"", vec![leaf(Rule::String, "\"a b\"")]);
    let expected = Ok(Some(ASTNode::Expression(Expression::Value(Value::String(
        "\"a b\"".to_string(),
    )))));
    assert_eq!(shown(&build_ast(&text)), shown(&expected));
}

#[test]
fn malformed_values_are_not_recognized() {
    assert_eq!(shown(&build_ast(&leaf(Rule::Value, "1"))), shown(&unrecognized(Rule::Value)));
    let too_big = node(Rule::Value, "", vec![leaf(Rule::Int, "2147483648")]);
    assert_eq!(shown(&build_ast(&too_big)), shown(&unrecognized(Rule::Int)));
    let no_literal = node(Rule::Value, "", vec![leaf(Rule::PrimaryIdentifier, "x")]);
    assert_eq!(shown(&build_ast(&no_literal)), shown(&unrecognized(Rule::PrimaryIdentifier)));
}

#[test]
fn dyadic_builds_both_operands_and_the_operator() {
    let tree = node(
        Rule::Dyadic,
        "a<=b",
        vec![identifier("a"), leaf(Rule::Other, "<="), identifier("b")],
    );
    let expected = Ok(Some(ASTNode::Expression(Expression::Dyadic(Dyadic {
        left: Box::new(Expression::Identifier("a".to_string())),
        operator: Operator::LessThanOrEqual,
        right: Box::new(Expression::Identifier("b".to_string())),
    }))));
    assert_eq!(shown(&build_ast(&tree)), shown(&expected));
}

#[test]
fn malformed_dyadic_is_not_recognized() {
    let short = node(Rule::Dyadic, "", vec![identifier("a"), leaf(Rule::Other, "+")]);
    assert_eq!(shown(&build_ast(&short)), shown(&unrecognized(Rule::Dyadic)));
    let bad_op = node(
        Rule::Dyadic,
        "",
        vec![identifier("a"), leaf(Rule::Other, "%"), identifier("b")],
    );
    assert_eq!(shown(&build_ast(&bad_op)), shown(&unrecognized(Rule::Dyadic)));
    let statement = node(Rule::ReturnStatement, "", vec![identifier("a")]);
    let no_expression = node(
        Rule::Dyadic,
        "",
        vec![statement, leaf(Rule::Other, "+"), identifier("b")],
    );
    assert_eq!(shown(&build_ast(&no_expression)), shown(&unrecognized(Rule::Dyadic)));
}

#[test]
fn every_operator_symbol_is_known() {
    assert_eq!(parse_operator("+"), Some(Operator::Plus));
    assert_eq!(parse_operator("-"), Some(Operator::Minus));
    assert_eq!(parse_operator("*"), Some(Operator::Multiply));
    assert_eq!(parse_operator("/"), Some(Operator::Divide));
    assert_eq!(parse_operator("=="), Some(Operator::Equal));
    assert_eq!(parse_operator("!="), Some(Operator::NotEqual));
    assert_eq!(parse_operator("<"), Some(Operator::LessThan));
    assert_eq!(parse_operator("<="), Some(Operator::LessThanOrEqual));
    assert_eq!(parse_operator(">"), Some(Operator::GreaterThan));
    assert_eq!(parse_operator(">="), Some(Operator::GreaterThanOrEqual));
    assert_eq!(parse_operator("="), None);
    assert_eq!(parse_operator(""), None);
    assert_eq!(parse_operator("+ "), None);
}

#[test]
fn return_statement_builds_a_return() {
    let tree = node(Rule::ReturnStatement, "return x;", vec![identifier("x")]);
    let expected = Ok(Some(ASTNode::Return(Box::new(ASTNode::Expression(
        Expression::Identifier("x".to_string()),
    )))));
    assert_eq!(shown(&build_ast(&tree)), shown(&expected));
    assert_eq!(
        shown(&build_ast(&leaf(Rule::ReturnStatement, "return;"))),
        shown(&unrecognized(Rule::ReturnStatement))
    );
    let over_end = node(Rule::ReturnStatement, "", vec![leaf(Rule::Eoi, "")]);
    assert_eq!(shown(&build_ast(&over_end)), shown(&unrecognized(Rule::Eoi)));
}

#[test]
fn call_builds_its_arguments_in_order() {
    let tree = node(
        Rule::FunctionCall,
        "f(a, b)",
        vec![
            leaf(Rule::Other, "f"),
            node(Rule::Other, "a, b", vec![identifier("a"), identifier("b")]),
        ],
    );
    let expected = Ok(Some(ASTNode::Expression(Expression::FunctionCall(FunctionCall::new(
        "f".to_string(),
        vec![
            ASTNode::Expression(Expression::Identifier("a".to_string())),
            ASTNode::Expression(Expression::Identifier("b".to_string())),
        ],
    )))));
    assert_eq!(shown(&build_ast(&tree)), shown(&expected));
    let nameless = node(Rule::FunctionCall, "", vec![leaf(Rule::Other, "f")]);
    assert_eq!(shown(&build_ast(&nameless)), shown(&unrecognized(Rule::FunctionCall)));
    let with_end = node(
        Rule::FunctionCall,
        "",
        vec![leaf(Rule::Other, "f"), node(Rule::Other, "", vec![leaf(Rule::Eoi, "")])],
    );
    assert_eq!(shown(&build_ast(&with_end)), shown(&unrecognized(Rule::Eoi)));
}

#[test]
fn function_definition_collects_its_parts() {
    let tree = node(
        Rule::FunctionDef,
        "",
        vec![
            leaf(Rule::Other, "pick"),
            node(
                Rule::Params,
                "",
                vec![param("a", "Int"), leaf(Rule::Other, ","), param("s", "String")],
            ),
            node(
                Rule::ReturnType,
                "",
                vec![leaf(Rule::Other, "->"), leaf(Rule::ValueType, "Int")],
            ),
            leaf(Rule::Other, "{"),
            node(
                Rule::FunctionBody,
                "",
                vec![node(Rule::ReturnStatement, "", vec![identifier("a")])],
            ),
        ],
    );
    let expected = Ok(Some(ASTNode::FunctionDefinition(FunctionDefinition::new(
        "pick".to_string(),
        vec![("a".to_string(), Type::Int), ("s".to_string(), Type::String)],
        vec![ASTNode::Return(Box::new(ASTNode::Expression(Expression::Identifier(
            "a".to_string(),
        ))))],
        Some(Type::Int),
    ))));
    assert_eq!(shown(&build_ast(&tree)), shown(&expected));
}

#[test]
fn function_definition_without_parts_is_bare() {
    let tree = node(Rule::FunctionDef, "", vec![leaf(Rule::Other, "helper")]);
    let expected = Ok(Some(ASTNode::FunctionDefinition(FunctionDefinition::new(
        "helper".to_string(),
        vec![],
        vec![],
        None,
    ))));
    assert_eq!(shown(&build_ast(&tree)), shown(&expected));
}

#[test]
fn malformed_function_definition_is_not_recognized() {
    assert_eq!(
        shown(&build_ast(&leaf(Rule::FunctionDef, ""))),
        shown(&unrecognized(Rule::FunctionDef))
    );
    let bad_type = node(
        Rule::FunctionDef,
        "",
        vec![leaf(Rule::Other, "f"), node(Rule::Params, "", vec![param("a", "Float")])],
    );
    assert_eq!(shown(&build_ast(&bad_type)), shown(&unrecognized(Rule::ValueType)));
    let short_param = node(
        Rule::FunctionDef,
        "",
        vec![
            leaf(Rule::Other, "f"),
            node(Rule::Params, "", vec![node(Rule::Param, "", vec![leaf(Rule::Other, "a")])]),
        ],
    );
    assert_eq!(shown(&build_ast(&short_param)), shown(&unrecognized(Rule::Param)));
    let bad_return = node(
        Rule::FunctionDef,
        "",
        vec![
            leaf(Rule::Other, "f"),
            node(Rule::ReturnType, "", vec![leaf(Rule::ValueType, "Bool")]),
        ],
    );
    assert_eq!(shown(&build_ast(&bad_return)), shown(&unrecognized(Rule::ValueType)));
    let bad_statement = node(
        Rule::FunctionDef,
        "",
        vec![
            leaf(Rule::Other, "f"),
            node(Rule::FunctionBody, "", vec![leaf(Rule::Other, "let x = 1;")]),
        ],
    );
    assert_eq!(shown(&build_ast(&bad_statement)), shown(&unrecognized(Rule::Other)));
}

#[test]
fn if_statement_builds_condition_and_body() {
    let tree = node(
        Rule::IfStatement,
        "",
        vec![
            identifier("c"),
            node(Rule::ReturnStatement, "", vec![identifier("a")]),
            leaf(Rule::Eoi, ""),
        ],
    );
    let expected = Ok(Some(ASTNode::IfStatement(IfStatement::new(
        Expression::Identifier("c".to_string()),
        vec![ASTNode::Return(Box::new(ASTNode::Expression(Expression::Identifier(
            "a".to_string(),
        ))))],
    ))));
    assert_eq!(shown(&build_ast(&tree)), shown(&expected));
    assert_eq!(
        shown(&build_ast(&leaf(Rule::IfStatement, ""))),
        shown(&unrecognized(Rule::IfStatement))
    );
    let no_condition = node(
        Rule::IfStatement,
        "",
        vec![node(Rule::ReturnStatement, "", vec![identifier("a")])],
    );
    assert_eq!(shown(&build_ast(&no_condition)), shown(&unrecognized(Rule::IfStatement)));
}

#[test]
fn kinds_without_a_node_are_not_recognized() {
    for rule in [
        Rule::Params,
        Rule::Param,
        Rule::ReturnType,
        Rule::ValueType,
        Rule::FunctionBody,
        Rule::Int,
        Rule::String,
        Rule::Other,
    ] {
        assert_eq!(shown(&build_ast(&leaf(rule, "x"))), shown(&unrecognized(rule)));
    }
    assert_eq!(
        shown(&build_ast(&leaf(Rule::Expression, ""))),
        shown(&unrecognized(Rule::Expression))
    );
    assert_eq!(
        shown(&build_ast(&leaf(Rule::PrimaryExpression, ""))),
        shown(&unrecognized(Rule::PrimaryExpression))
    );
}

#[test]
fn program_passes_over_the_end_of_input_and_compiles() {
    // fn main(a: Int, b: Int) -> Int { return a + b; }
    let sum = node(
        Rule::Expression,
        "a + b",
        vec![node(
            Rule::Dyadic,
            "a + b",
            vec![identifier("a"), leaf(Rule::Other, "+"), identifier("b")],
        )],
    );
    let main = node(
        Rule::FunctionDef,
        "",
        vec![
            leaf(Rule::Other, "main"),
            node(Rule::Params, "", vec![param("a", "Int"), param("b", "Int")]),
            node(Rule::ReturnType, "", vec![leaf(Rule::ValueType, "Int")]),
            node(
                Rule::FunctionBody,
                "",
                vec![node(Rule::ReturnStatement, "", vec![sum])],
            ),
        ],
    );
    let program = node(Rule::Program, "", vec![main, leaf(Rule::Eoi, "")]);
    let ast = build_ast(&program).unwrap().unwrap();
    match &ast {
        ASTNode::Program(nodes) => assert_eq!(nodes.len(), 1),
        other => panic!("not a program: {:?}", other),
    }
    let circuit = compile(&ast).unwrap();
    assert_eq!(circuit.program_inputs(), &vec![0, 1]);
    assert_eq!(circuit.program_outputs(), &vec![1]);
    assert_eq!(circuit.connections(), &vec![(0, 2), (1, 3), (0, 1)]);
}

#[test]
fn integer_literals() {
    assert_eq!(parse_int("0"), Some(0));
    assert_eq!(parse_int("007"), Some(7));
    assert_eq!(parse_int("42"), Some(42));
    assert_eq!(parse_int("+42"), Some(42));
    assert_eq!(parse_int("-42"), Some(-42));
    assert_eq!(parse_int("-0"), Some(0));
    assert_eq!(parse_int("2147483647"), Some(i32::MAX));
    assert_eq!(parse_int("-2147483648"), Some(i32::MIN));
    assert_eq!(parse_int("2147483648"), None);
    assert_eq!(parse_int("-2147483649"), None);
    assert_eq!(parse_int("99999999999999999999999999"), None);
    assert_eq!(parse_int(""), None);
    assert_eq!(parse_int("-"), None);
    assert_eq!(parse_int("+"), None);
    assert_eq!(parse_int("12a"), None);
    assert_eq!(parse_int(" 12"), None);
    assert_eq!(parse_int("1-2"), None);
    assert_eq!(parse_int("--1"), None);
}

#[test]
fn integer_literals_agree_with_the_standard_library() {
    for text in ["0", "5", "-5", "+5", "123456789", "2147483647", "-2147483648", "2147483648", "x", "", "-", "1_000"] {
        assert_eq!(parse_int(text), text.parse::<i32>().ok(), "for {:?}", text);
    }
}

#[test]
fn digits() {
    assert_eq!(digit('0'), Some(0));
    assert_eq!(digit('5'), Some(5));
    assert_eq!(digit('9'), Some(9));
    assert_eq!(digit('a'), None);
    assert_eq!(digit('-'), None);
}
