//! The errors of parsing, resolution and lowering. Each one is fatal: the
//! pipeline stops and surfaces what was expected versus what was found.

use vstd::prelude::*;

use crate::tokenize::TokenType;

verus! {

/// A parse or resolution error. Parsing stops at the statement that raised
/// it; the statements parsed before it are kept.
#[derive(Debug, PartialEq, Eq, Clone, Copy)]
pub enum ParseError {
    /// A statement began with a token that opens no statement production.
    UnrecognizedStatement(TokenType),
    /// A production needed one fixed token and found another, or ran out of
    /// input.
    ExpectedToken { expected: TokenType, found: Option<TokenType> },
    /// A primary expression began with this token, or ran out of input.
    UnexpectedPrimary(Option<TokenType>),
    /// A statement production needed a type keyword and found this.
    ExpectedType(Option<TokenType>),
    /// A statement was expected and the input ended.
    UnexpectedEndOfInput,
    /// A name was referenced or assigned with no declaration in any active
    /// scope.
    UndefinedVariable,
    /// An initializer or loop bound was not a bare literal or a bare
    /// identifier: the resolver does not evaluate full expressions.
    UnsupportedInitializer,
    /// A terminal that should carry text carried none.
    MissingValue,
    /// No literal or identifier terminal was found where the grammar put
    /// one.
    MissingTerminal,
    /// An integer literal that does not denote a 32-bit value.
    BadIntegerLiteral,
    /// A float literal whose bit pattern cannot be computed exactly.
    BadFloatLiteral,
    /// A boolean literal that is neither `true` nor `false`.
    BadBooleanLiteral,
    /// A type node that names no type.
    InvalidTypeNode,
}

/// An error of the lowering pass: the parse tree did not have the shape the
/// grammar promises, or a literal in it does not denote a storable value.
#[derive(Debug, PartialEq, Eq, Clone, Copy)]
pub enum AstError {
    /// A statement node with no children.
    StatementWithoutChildren,
    /// An exit node with no expression child.
    ExitWithoutExpression,
    /// A declaration node with no expression child.
    DeclarationWithoutExpression,
    /// An assignment node with no identifier terminal.
    AssignmentWithoutIdentifier,
    /// A for node missing one of its three expressions.
    ForMissingExpression,
    /// No literal or identifier terminal below an expression node.
    MissingTerminal,
    /// A terminal that should carry text carried none.
    MissingValue,
    /// An integer literal that does not denote a 32-bit value.
    BadIntegerLiteral,
    /// A float literal whose bit pattern cannot be computed exactly.
    BadFloatLiteral,
    /// A boolean literal that is neither `true` nor `false`.
    BadBooleanLiteral,
    /// A declared or assigned name absent from every active scope.
    UndefinedName,
    /// A node that is no statement form at all.
    UnexpectedNode,
}

} // verus!
