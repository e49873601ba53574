//! The syntax tree that a parser hands over: nodes with a rule kind, the text
//! they span and their children in order.

use vstd::prelude::*;

verus! {

/// The kind of a node of the parse tree.
#[derive(Debug, Clone, Copy, PartialEq, Eq, Structural)]
pub enum Rule {
    Program,
    FunctionDef,
    Params,
    Param,
    ReturnType,
    ValueType,
    FunctionBody,
    FunctionCall,
    ReturnStatement,
    Expression,
    PrimaryExpression,
    Dyadic,
    PrimaryIdentifier,
    Value,
    Int,
    String,
    IfStatement,
    /// The end of the input.
    Eoi,
    /// Any kind that the grammar has beyond those above.
    Other,
}

/// A node of the parse tree.
#[derive(Debug)]
pub struct SyntaxNode {
    pub rule: Rule,
    pub text: String,
    pub children: Vec<SyntaxNode>,
}

impl SyntaxNode {
    /// A node of the given kind over the given text, with the given children.
    pub fn new(rule: Rule, text: String, children: Vec<SyntaxNode>) -> (node: SyntaxNode)
        ensures
            node.rule == rule,
            node.text == text,
            node.children == children,
    {
        SyntaxNode { rule, text, children }
    }

    /// A node without children.
    pub fn leaf(rule: Rule, text: String) -> (node: SyntaxNode)
        ensures
            node.rule == rule,
            node.text == text,
            node.children@ == Seq::<SyntaxNode>::empty(),
    {
        SyntaxNode { rule, text, children: Vec::new() }
    }
}

} // verus!
