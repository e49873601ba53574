//! The syntax tree of a program, and its mathematical model.
//!
//! The executable types own their text and their children. Each has a view
//! made of sequences and plain values, and the contracts of the tree builder
//! and of the translator speak of those views.

use vstd::prelude::*;
use crate::error::{unimplemented, CompileError, ErrorView};

verus! {

/// The declared type of a parameter or of a result.
#[derive(Debug, Clone, Copy, PartialEq, Eq, Structural)]
pub enum Type {
    Int,
    String,  // no wire carries a string yet
}

/// A binary operator.
#[derive(Debug, Clone, Copy, PartialEq, Eq, Structural)]
pub enum Operator {
    Plus,
    Minus,
    Multiply,
    Divide,
    Equal,
    NotEqual,
    LessThan,
    LessThanOrEqual,
    GreaterThan,
    GreaterThanOrEqual,
}

/// A literal.
#[derive(Debug)]
pub enum Value {
    Int(i32),
    String(String),
}

/// A function definition: its name, its parameters in declared order, its
/// declared result type if any, and the statements of its body.
#[derive(Debug)]
pub struct FunctionDefinition {
    name: String,
    args: Vec<(String, Type)>,
    return_type: Option<Type>,
    body: Vec<ASTNode>,
}

/// A call of a function by name.
#[derive(Debug)]
pub struct FunctionCall {
    name: String,
    args: Vec<ASTNode>,
}

/// A node of the syntax tree.
#[derive(Debug)]
pub enum ASTNode {
    Program(Vec<ASTNode>),
    FunctionDefinition(FunctionDefinition),
    Return(Box<ASTNode>),
    Expression(Expression),
    IfStatement(IfStatement),
}

/// A conditional statement.
#[derive(Debug)]
pub struct IfStatement {
    condition: Box<Expression>,
    body: Vec<ASTNode>,
}

/// An expression.
#[derive(Debug)]
pub enum Expression {
    Dyadic(Dyadic),
    Value(Value),
    ParenExpression(Box<Expression>),
    Identifier(String),
    FunctionCall(FunctionCall),
}

/// Two operands joined by a binary operator.
#[derive(Debug)]
pub struct Dyadic {
    pub left: Box<Expression>,
    pub operator: Operator,
    pub right: Box<Expression>,
}

/// The model of a literal.
pub enum ValueView {
    Int(i32),
    String(Seq<char>),
}

/// The model of an expression.
pub enum ExprView {
    Dyadic(Box<ExprView>, Operator, Box<ExprView>),
    Value(ValueView),
    Paren(Box<ExprView>),
    Identifier(Seq<char>),
    Call(Seq<char>, Seq<NodeView>),
}

/// The model of a function definition.
pub struct FunctionView {
    pub name: Seq<char>,
    pub args: Seq<(Seq<char>, Type)>,
    pub return_type: Option<Type>,
    pub body: Seq<NodeView>,
}

/// The model of a node.
pub enum NodeView {
    Program(Seq<NodeView>),
    FunctionDefinition(FunctionView),
    Return(Box<NodeView>),
    Expression(ExprView),
    IfStatement(ExprView, Seq<NodeView>),
}

impl View for Value {
    type V = ValueView;

    open spec fn view(&self) -> ValueView {
        match self {
            Value::Int(i) => ValueView::Int(*i),
            Value::String(s) => ValueView::String(s@),
        }
    }
}

/// The model of a list of nodes: the models of its nodes, in order.
pub open spec fn nodes_view(nodes: Vec<ASTNode>) -> Seq<NodeView>
    decreases nodes,
{
    Seq::new(
        nodes@.len(),
        |i: int|
            if 0 <= i < nodes@.len() {
                node_view(nodes@[i])
            } else {
                NodeView::Program(Seq::empty())
            },
    )
}

/// The model of a list of parameters.
pub open spec fn params_view(params: Vec<(String, Type)>) -> Seq<(Seq<char>, Type)> {
    Seq::new(params@.len(), |i: int| (params@[i].0@, params@[i].1))
}

/// The model of a node.
pub open spec fn node_view(node: ASTNode) -> NodeView
    decreases node,
{
    match node {
        ASTNode::Program(nodes) => NodeView::Program(nodes_view(nodes)),
        ASTNode::FunctionDefinition(f) => NodeView::FunctionDefinition(function_view(f)),
        ASTNode::Return(inner) => NodeView::Return(Box::new(node_view(*inner))),
        ASTNode::Expression(e) => NodeView::Expression(expression_view(e)),
        ASTNode::IfStatement(s) => if_statement_view(s),
    }
}

/// The model of a function definition.
pub closed spec fn function_view(f: FunctionDefinition) -> FunctionView
    decreases f,
{
    FunctionView {
        name: f.name@,
        args: params_view(f.args),
        return_type: f.return_type,
        body: nodes_view(f.body),
    }
}

/// The model of a conditional statement.
pub closed spec fn if_statement_view(s: IfStatement) -> NodeView
    decreases s,
{
    NodeView::IfStatement(expression_view(*s.condition), nodes_view(s.body))
}

/// The model of an expression.
pub open spec fn expression_view(e: Expression) -> ExprView
    decreases e,
{
    match e {
        Expression::Dyadic(d) => ExprView::Dyadic(
            Box::new(expression_view(*d.left)),
            d.operator,
            Box::new(expression_view(*d.right)),
        ),
        Expression::Value(v) => ExprView::Value(v@),
        Expression::ParenExpression(inner) => ExprView::Paren(Box::new(expression_view(*inner))),
        Expression::Identifier(name) => ExprView::Identifier(name@),
        Expression::FunctionCall(call) => call_view(call),
    }
}

/// The model of a call.
pub closed spec fn call_view(call: FunctionCall) -> ExprView
    decreases call,
{
    ExprView::Call(call.name@, nodes_view(call.args))
}

/// The model of a conditional statement is a conditional statement.
pub proof fn lemma_if_statement_view(s: IfStatement)
    ensures
        if_statement_view(s) is IfStatement,
{
}

impl View for ASTNode {
    type V = NodeView;

    open spec fn view(&self) -> NodeView {
        node_view(*self)
    }
}

impl View for Expression {
    type V = ExprView;

    open spec fn view(&self) -> ExprView {
        expression_view(*self)
    }
}

impl View for FunctionDefinition {
    type V = FunctionView;

    open spec fn view(&self) -> FunctionView {
        function_view(*self)
    }
}

impl View for FunctionCall {
    type V = ExprView;

    open spec fn view(&self) -> ExprView {
        call_view(*self)
    }
}

impl View for IfStatement {
    type V = NodeView;

    open spec fn view(&self) -> NodeView {
        if_statement_view(*self)
    }
}

impl View for Dyadic {
    type V = ExprView;

    open spec fn view(&self) -> ExprView {
        expression_view(Expression::Dyadic(*self))
    }
}

impl Clone for Value {
    fn clone(&self) -> (r: Value)
        ensures
            r@ == self@,
    {
        match self {
            Value::Int(i) => Value::Int(*i),
            Value::String(s) => Value::String(s.clone()),
        }
    }
}

/// A deep copy of a list of nodes.
fn clone_nodes(nodes: &Vec<ASTNode>) -> (r: Vec<ASTNode>)
    ensures
        nodes_view(r) == nodes_view(*nodes),
    decreases *nodes,
{
    let mut r: Vec<ASTNode> = Vec::new();
    let mut i: usize = 0;
    while i < nodes.len()
        invariant
            i <= nodes.len(),
            r@.len() == i,
            forall|k: int| 0 <= k < i ==> node_view(#[trigger] r@[k]) == node_view(nodes@[k]),
        decreases nodes.len() - i,
    {
        let node = nodes[i].clone();
        r.push(node);
        i += 1;
    }
    proof {
        assert(nodes_view(r) =~= nodes_view(*nodes));
    }
    r
}

/// A copy of a list of parameters.
fn clone_params(params: &Vec<(String, Type)>) -> (r: Vec<(String, Type)>)
    ensures
        params_view(r) == params_view(*params),
{
    let mut r: Vec<(String, Type)> = Vec::new();
    let mut i: usize = 0;
    while i < params.len()
        invariant
            i <= params.len(),
            r@.len() == i,
            forall|k: int|
                0 <= k < i ==> (#[trigger] r@[k]).0@ == params@[k].0@ && r@[k].1 == params@[k].1,
        decreases params.len() - i,
    {
        let name = params[i].0.clone();
        let ty = params[i].1;
        r.push((name, ty));
        i += 1;
    }
    proof {
        assert(params_view(r) =~= params_view(*params));
    }
    r
}

impl Clone for Expression {
    fn clone(&self) -> (r: Expression)
        ensures
            r@ == self@,
        decreases *self,
    {
        match self {
            Expression::Dyadic(d) => Expression::Dyadic(d.clone()),
            Expression::Value(v) => Expression::Value(v.clone()),
            Expression::ParenExpression(inner) => {
                let copy = (&**inner).clone();
                Expression::ParenExpression(Box::new(copy))
            },
            Expression::Identifier(name) => Expression::Identifier(name.clone()),
            Expression::FunctionCall(call) => Expression::FunctionCall(call.clone()),
        }
    }
}

impl Clone for Dyadic {
    fn clone(&self) -> (r: Dyadic)
        ensures
            r@ == self@,
        decreases *self,
    {
        let left = (&*self.left).clone();
        let right = (&*self.right).clone();
        Dyadic { left: Box::new(left), operator: self.operator, right: Box::new(right) }
    }
}

impl Clone for FunctionCall {
    fn clone(&self) -> (r: FunctionCall)
        ensures
            r@ == self@,
        decreases *self,
    {
        FunctionCall { name: self.name.clone(), args: clone_nodes(&self.args) }
    }
}

impl Clone for IfStatement {
    fn clone(&self) -> (r: IfStatement)
        ensures
            r@ == self@,
        decreases *self,
    {
        let condition = (&*self.condition).clone();
        IfStatement { condition: Box::new(condition), body: clone_nodes(&self.body) }
    }
}

impl Clone for FunctionDefinition {
    fn clone(&self) -> (r: FunctionDefinition)
        ensures
            r@ == self@,
        decreases *self,
    {
        FunctionDefinition {
            name: self.name.clone(),
            args: clone_params(&self.args),
            return_type: self.return_type,
            body: clone_nodes(&self.body),
        }
    }
}

impl Clone for ASTNode {
    fn clone(&self) -> (r: ASTNode)
        ensures
            r@ == self@,
        decreases *self,
    {
        match self {
            ASTNode::Program(nodes) => ASTNode::Program(clone_nodes(nodes)),
            ASTNode::FunctionDefinition(f) => ASTNode::FunctionDefinition(f.clone()),
            ASTNode::Return(inner) => {
                let copy = (&**inner).clone();
                ASTNode::Return(Box::new(copy))
            },
            ASTNode::Expression(e) => ASTNode::Expression(e.clone()),
            ASTNode::IfStatement(s) => ASTNode::IfStatement(s.clone()),
        }
    }
}

/// Whether two texts are the same, character by character.
pub fn same_text(a: &str, b: &str) -> (same: bool)
    ensures
        same == (a@ == b@),
{
    let x = a.to_owned();
    let y = b.to_owned();
    x == y
}

impl Type {
    /// The type that a type name stands for, if it names one.
    pub open spec fn named(s: Seq<char>) -> Option<Type> {
        if s == "Int"@ {
            Some(Type::Int)
        } else if s == "String"@ {
            Some(Type::String)
        } else {
            None
        }
    }

    /// The type that a type name stands for; `None` for any other text.
    pub fn parse(s: &str) -> (t: Option<Type>)
        ensures
            t == Type::named(s@),
    {
        if same_text(s, "Int") {
            Some(Type::Int)
        } else if same_text(s, "String") {
            Some(Type::String)
        } else {
            None
        }
    }

    /// The type that a type name stands for. The text must name a type.
    pub fn from_str(s: &str) -> (t: Type)
        requires
            Type::named(s@) is Some,
        ensures
            Type::named(s@) == Some(t),
    {
        match Type::parse(s) {
            Some(t) => t,
            None => unreached(),
        }
    }
}

impl FunctionDefinition {
    pub fn new(
        name: String,
        args: Vec<(String, Type)>,
        body: Vec<ASTNode>,
        return_type: Option<Type>,
    ) -> (f: FunctionDefinition)
        ensures
            f@ == (FunctionView {
                name: name@,
                args: params_view(args),
                return_type,
                body: nodes_view(body),
            }),
    {
        FunctionDefinition { name, args, body, return_type }
    }

    /// Whether a call fits this definition. A call of another name, or with
    /// another number of arguments than the definition has parameters, does
    /// not fit. Beyond that the types of the arguments would decide, and
    /// comparing them is not provided for: the answer is then a failure.
    pub fn check_compatibility(&self, other: &FunctionCall) -> (r: Result<bool, CompileError>)
        ensures
            other@ matches ExprView::Call(name, args) && (if self@.name != name || self@.args.len()
                != args.len() {
                r == Ok::<bool, CompileError>(false)
            } else {
                r matches Err(e) && e@ == ErrorView::UnimplementedFeature(
                    "argument type checking"@,
                )
            }),
    {
        if !(self.name == other.name) {
            return Ok(false);
        }
        // quick check for number of arguments

        if self.args.len() != other.args.len() {
            return Ok(false);
        }
        // check for argument types

        Err(unimplemented("argument type checking"))
    }

    pub fn get_return_type(&self) -> (t: Option<Type>)
        ensures
            t == self@.return_type,
    {
        self.return_type
    }

    pub fn get_name(&self) -> (name: &str)
        ensures
            name@ == self@.name,
    {
        self.name.as_str()
    }

    pub fn get_args(&self) -> (args: &Vec<(String, Type)>)
        ensures
            params_view(*args) == self@.args,
    {
        &self.args
    }

    pub fn get_body(&self) -> (body: &Vec<ASTNode>)
        ensures
            nodes_view(*body) == self@.body,
    {
        &self.body
    }
}

impl FunctionCall {
    pub fn new(name: String, args: Vec<ASTNode>) -> (call: FunctionCall)
        ensures
            call@ == ExprView::Call(name@, nodes_view(args)),
    {
        FunctionCall { name, args }
    }

    pub fn get_name(&self) -> (name: &str)
        ensures
            self@ matches ExprView::Call(n, _) && n == name@,
    {
        self.name.as_str()
    }

    pub fn get_args(&self) -> (args: &Vec<ASTNode>)
        ensures
            self@ matches ExprView::Call(_, a) && a == nodes_view(*args),
    {
        &self.args
    }
}

impl IfStatement {
    pub fn new(condition: Expression, body: Vec<ASTNode>) -> (s: IfStatement)
        ensures
            s@ == NodeView::IfStatement(condition@, nodes_view(body)),
    {
        IfStatement { condition: Box::new(condition), body }
    }

    pub fn get_condition(&self) -> (condition: &Expression)
        ensures
            self@ matches NodeView::IfStatement(c, _) && c == condition@,
    {
        &self.condition
    }

    pub fn get_body(&self) -> (body: &Vec<ASTNode>)
        ensures
            self@ matches NodeView::IfStatement(_, b) && b == nodes_view(*body),
    {
        &self.body
    }
}

impl Dyadic {
    pub fn get_left(&self) -> (left: &Expression)
        ensures
            *left == *self.left,
    {
        &self.left
    }

    pub fn get_right(&self) -> (right: &Expression)
        ensures
            *right == *self.right,
    {
        &self.right
    }

    pub fn get_operator(&self) -> (operator: &Operator)
        ensures
            *operator == self.operator,
    {
        &self.operator
    }
}

} // verus!
