//! The error taxonomy: structured lowering errors and evaluation errors.
//!
//! Every lowering and evaluation function returns one of these kinds;
//! nothing is swallowed, and malformed input is always a reported
//! condition, never a panic.

use crate::names::Name;
use crate::rules::Rule;
use vstd::prelude::*;

verus! {

/// A required nested node that lowering may find absent.
#[derive(Clone, Copy, Debug, PartialEq, Eq, Structural)]
pub enum Field {
    /// The identifier inside a package declaration.
    PackageName,
    /// The string literal inside an import declaration.
    ImportString,
    /// The inner content of an import's string literal.
    ImportStringInner,
    /// The identifier naming a function declaration.
    FunctionName,
    /// The term a unary minus negates.
    UnaryOperand,
    /// The expression inside a pair of parentheses.
    GroupExpression,
    /// A term of an expression (a trailing operator has no right operand).
    Term,
}

/// The position at which an unrecognized rule tag appeared.
#[derive(Clone, Copy, Debug, PartialEq, Eq, Structural)]
pub enum Position {
    /// Among the immediate children of a module node.
    ModuleContents,
    /// Where a term of an expression was expected.
    TermOfExpression,
    /// Where a binary operator of an expression was expected.
    OperatorOfExpression,
}

/// A structured lowering error, fatal to the lowering call it arises in.
#[derive(Clone, Copy, Debug, PartialEq, Eq, Structural)]
pub enum AstError {
    /// A node's tag does not match what the caller expected there.
    RuleMismatch { expected: Rule, actual: Rule },
    /// A required nested node is absent.
    MissingField(Field),
    /// A child tag appeared where none of the recognized alternatives match.
    UnexpectedRule { context: Position, actual: Rule },
    /// A module was fully scanned without a package declaration.
    MissingPackage,
    /// The top-level entry point received zero top-level constructs.
    EmptyInput,
    /// The top-level entry point received more than one top-level construct.
    TrailingInput,
    /// An integer literal's text is not a decimal number the value type holds.
    InvalidLiteral,
}

/// A hard evaluation error, fatal to that evaluation in either mode.
#[derive(Clone, Debug, PartialEq, Eq)]
pub enum EvalError {
    DivisionByZero,
    ModuloByZero,
    /// Runtime only: a context-dependent node could not be resolved.
    Unresolved(Name),
}

/// Why a static evaluation did not produce a value: either the distinct
/// non-error signal that the expression needs context (retry with the
/// runtime evaluator), or a hard evaluation error (terminal in any mode).
#[derive(Clone, Debug, PartialEq, Eq)]
pub enum StaticFailure {
    /// The expression cannot be reduced without an evaluation context.
    NeedsContext,
    /// A hard error, identical in meaning in either evaluation mode.
    Hard(EvalError),
}

} // verus!
