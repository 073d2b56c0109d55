//! A compiler for a small imperative language: a lexer producing a token
//! stream, a recursive-descent parser that resolves identifiers against a
//! stack of lexical scopes while it parses, a lowering pass that projects the
//! concrete parse tree onto a semantic tree, and a code generator that emits
//! textual 64-bit assembly.

pub mod ast;
pub mod binary32;
pub mod chars;
pub mod errors;
pub mod generate;
pub mod laws;
pub mod numtext;
pub mod parse;
pub mod parse_spec;
pub mod resolve;
pub mod scope;
pub mod tree;
pub mod tokenize;

use vstd::prelude::*;

verus! {

} // verus!
