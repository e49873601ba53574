//! What can go wrong while a program is compiled.

use vstd::prelude::*;
use crate::ast::Operator;
use crate::syntax::Rule;

verus! {

/// The reason why a compilation was given up. The first failure ends the
/// compilation, and no circuit is returned.
#[derive(Debug, PartialEq, Eq)]
pub enum CompileError {
    /// An identifier that no parameter in scope binds.
    UndefinedVariable(String),
    /// A call of a function that has not been compiled before the call.
    UndefinedFunction(String),
    /// A second definition of `main`.
    DuplicateMainFunction,
    /// A program without a definition of `main`.
    MissingMainFunction,
    /// A second definition of a function other than `main`.
    DuplicateFunctionDefinition(String),
    /// An operator that no part realises.
    UnsupportedOperator(Operator),
    /// A call with another number of arguments than the function has parameters.
    ArityMismatch { function: String, expected: usize, got: usize },
    /// A parse-tree node that no syntax-tree node can be built from.
    UnrecognizedSyntax(Rule),
    /// A construct of the language that has no lowering yet.
    UnimplementedFeature(String),
    /// A circuit that would need more pins than can be numbered.
    CircuitTooLarge,
}

/// The mathematical model of an error: names and texts as sequences of characters.
pub enum ErrorView {
    UndefinedVariable(Seq<char>),
    UndefinedFunction(Seq<char>),
    DuplicateMainFunction,
    MissingMainFunction,
    DuplicateFunctionDefinition(Seq<char>),
    UnsupportedOperator(Operator),
    ArityMismatch { function: Seq<char>, expected: usize, got: usize },
    UnrecognizedSyntax(Rule),
    UnimplementedFeature(Seq<char>),
    CircuitTooLarge,
}

impl View for CompileError {
    type V = ErrorView;

    open spec fn view(&self) -> ErrorView {
        match self {
            CompileError::UndefinedVariable(n) => ErrorView::UndefinedVariable(n@),
            CompileError::UndefinedFunction(n) => ErrorView::UndefinedFunction(n@),
            CompileError::DuplicateMainFunction => ErrorView::DuplicateMainFunction,
            CompileError::MissingMainFunction => ErrorView::MissingMainFunction,
            CompileError::DuplicateFunctionDefinition(n) => ErrorView::DuplicateFunctionDefinition(
                n@,
            ),
            CompileError::UnsupportedOperator(op) => ErrorView::UnsupportedOperator(*op),
            CompileError::ArityMismatch { function, expected, got } => ErrorView::ArityMismatch {
                function: function@,
                expected: *expected,
                got: *got,
            },
            CompileError::UnrecognizedSyntax(rule) => ErrorView::UnrecognizedSyntax(*rule),
            CompileError::UnimplementedFeature(d) => ErrorView::UnimplementedFeature(d@),
            CompileError::CircuitTooLarge => ErrorView::CircuitTooLarge,
        }
    }
}

/// The text of the failure for a construct that has no lowering yet.
pub fn unimplemented(description: &str) -> (e: CompileError)
    ensures
        e@ == ErrorView::UnimplementedFeature(description@),
{
    CompileError::UnimplementedFeature(description.to_owned())
}

} // verus!
