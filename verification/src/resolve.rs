//! Resolution over the parse tree: the terminal below an expression, the
//! type a type node names, and the value of a bare literal or identifier
//! initializer.

use vstd::prelude::*;

use crate::ast::AstSymV;
use crate::ast::AstV;
use crate::ast::ExprV;
use crate::ast::Type;
use crate::errors::AstError;
use crate::binary32::spec_binary32;
use crate::errors::ParseError;
use crate::numtext::spec_parse_i32;
use crate::scope::EntryV;
use crate::scope::scopes_lookup;
use crate::tree::ParseTreeSymbol;
use crate::tree::PtV;

verus! {

/// Whether the symbol is a terminal that carries a literal's or
/// identifier's text.
pub open spec fn is_valued_terminal(s: ParseTreeSymbol) -> bool {
    ||| s == ParseTreeSymbol::ParseTreeSymbolTerminalIntegerLiteral
    ||| s == ParseTreeSymbol::ParseTreeSymbolTerminalFloatLiteral
    ||| s == ParseTreeSymbol::ParseTreeSymbolTerminalBooleanLiteral
    ||| s == ParseTreeSymbol::ParseTreeSymbolTerminalIdentifier
}

/// Walks first children until a valued terminal appears; nothing when the
/// walk ends elsewhere.
pub open spec fn spec_find_terminal(n: PtV) -> Option<PtV>
    decreases n,
{
    if is_valued_terminal(n.symbol) {
        Some(n)
    } else if n.children.len() > 0 {
        spec_find_terminal(n.children[0])
    } else {
        None
    }
}

/// The type a type node names through its single terminal child.
pub open spec fn spec_match_type(n: PtV) -> Option<Type> {
    if n.children.len() > 0 {
        if n.children[0].symbol == ParseTreeSymbol::ParseTreeSymbolTerminalI32S {
            Some(Type::I32S)
        } else if n.children[0].symbol == ParseTreeSymbol::ParseTreeSymbolTerminalF32S {
            Some(Type::F32S)
        } else if n.children[0].symbol == ParseTreeSymbol::ParseTreeSymbolTerminalBool {
            Some(Type::Bool)
        } else {
            None
        }
    } else {
        None
    }
}

/// Whether the expression node is a bare literal or bare identifier: one
/// primary child holding exactly one valued terminal.
pub open spec fn is_bare_expression(n: PtV) -> bool {
    &&& n.symbol == ParseTreeSymbol::ParseTreeSymbolNodeExpression
    &&& n.children.len() == 1
    &&& n.children[0].symbol == ParseTreeSymbol::ParseTreeSymbolNodePrimary
    &&& n.children[0].children.len() == 1
    &&& is_valued_terminal(n.children[0].children[0].symbol)
}

/// The resolver's reading of an initializer or loop bound. It understands
/// only bare literals and bare identifier references: a full expression is
/// grammatically legal but fails resolution explicitly. An identifier must
/// already be bound in some active scope.
pub open spec fn spec_bare_expr(ss: Seq<Seq<(Seq<char>, EntryV)>>, n: PtV) -> Result<
    ExprV,
    ParseError,
> {
    if !is_bare_expression(n) {
        Err(ParseError::UnsupportedInitializer)
    } else {
        let t = n.children[0].children[0];
        match t.value {
            None => Err(ParseError::MissingValue),
            Some(text) => {
                if t.symbol == ParseTreeSymbol::ParseTreeSymbolTerminalIntegerLiteral {
                    match spec_parse_i32(text) {
                        Some(v) => Ok(ExprV::Int(v)),
                        None => Err(ParseError::BadIntegerLiteral),
                    }
                } else if t.symbol == ParseTreeSymbol::ParseTreeSymbolTerminalFloatLiteral {
                    match spec_binary32(text) {
                        Some(bits) => Ok(ExprV::Float(bits)),
                        None => Err(ParseError::BadFloatLiteral),
                    }
                } else if t.symbol == ParseTreeSymbol::ParseTreeSymbolTerminalBooleanLiteral {
                    if text == seq!['t', 'r', 'u', 'e'] {
                        Ok(ExprV::Bool(true))
                    } else if text == seq!['f', 'a', 'l', 's', 'e'] {
                        Ok(ExprV::Bool(false))
                    } else {
                        Err(ParseError::BadBooleanLiteral)
                    }
                } else {
                    if scopes_lookup(ss, text) is Some {
                        Ok(ExprV::Ident(text))
                    } else {
                        Err(ParseError::UndefinedVariable)
                    }
                }
            },
        }
    }
}

/// The `k`-th node with the given symbol, scanning left to right.
pub open spec fn nth_with(s: Seq<PtV>, sym: ParseTreeSymbol, k: int) -> Option<PtV>
    decreases s.len(),
{
    if s.len() == 0 {
        None
    } else if s[0].symbol == sym {
        if k == 0 {
            Some(s[0])
        } else {
            nth_with(s.drop_first(), sym, k - 1)
        }
    } else {
        nth_with(s.drop_first(), sym, k)
    }
}

/// The expression value a valued terminal denotes, read from its text. An
/// identifier stays a reference; it is not dereferenced here.
pub open spec fn spec_literal_expr(t: PtV) -> Result<ExprV, AstError> {
    match t.value {
        None => Err(AstError::MissingValue),
        Some(text) => {
            if t.symbol == ParseTreeSymbol::ParseTreeSymbolTerminalIntegerLiteral {
                match spec_parse_i32(text) {
                    Some(v) => Ok(ExprV::Int(v)),
                    None => Err(AstError::BadIntegerLiteral),
                }
            } else if t.symbol == ParseTreeSymbol::ParseTreeSymbolTerminalFloatLiteral {
                match spec_binary32(text) {
                    Some(bits) => Ok(ExprV::Float(bits)),
                    None => Err(AstError::BadFloatLiteral),
                }
            } else if t.symbol == ParseTreeSymbol::ParseTreeSymbolTerminalBooleanLiteral {
                if text == seq!['t', 'r', 'u', 'e'] {
                    Ok(ExprV::Bool(true))
                } else if text == seq!['f', 'a', 'l', 's', 'e'] {
                    Ok(ExprV::Bool(false))
                } else {
                    Err(AstError::BadBooleanLiteral)
                }
            } else if t.symbol == ParseTreeSymbol::ParseTreeSymbolTerminalIdentifier {
                Ok(ExprV::Ident(text))
            } else {
                Err(AstError::MissingTerminal)
            }
        },
    }
}

/// The binary operator a parsed operator terminal stands for.
pub open spec fn binop_of(s: ParseTreeSymbol) -> Option<crate::ast::BinOpType> {
    if s == ParseTreeSymbol::ParseTreeSymbolTerminalPlus {
        Some(crate::ast::BinOpType::Add)
    } else if s == ParseTreeSymbol::ParseTreeSymbolTerminalMinus {
        Some(crate::ast::BinOpType::Subtract)
    } else if s == ParseTreeSymbol::ParseTreeSymbolTerminalLessThan {
        Some(crate::ast::BinOpType::LessThan)
    } else if s == ParseTreeSymbol::ParseTreeSymbolTerminalLessThanOrEqual {
        Some(crate::ast::BinOpType::LessThanOrEqual)
    } else if s == ParseTreeSymbol::ParseTreeSymbolTerminalGreaterThan {
        Some(crate::ast::BinOpType::GreaterThan)
    } else if s == ParseTreeSymbol::ParseTreeSymbolTerminalGreaterThanOrEqual {
        Some(crate::ast::BinOpType::GreaterThanOrEqual)
    } else if s == ParseTreeSymbol::ParseTreeSymbolTerminalEqualsEquals {
        Some(crate::ast::BinOpType::Equal)
    } else if s == ParseTreeSymbol::ParseTreeSymbolTerminalNotEquals {
        Some(crate::ast::BinOpType::NotEqual)
    } else {
        None
    }
}

/// The expression value a whole parse subtree denotes: a literal or
/// identifier from its terminal, a parenthesized expression from what it
/// wraps, and a binary-operator node from both of its operands — the full
/// expression, never just its first terminal.
pub open spec fn spec_expr_of(n: PtV) -> Result<ExprV, AstError>
    decreases n,
{
    if is_valued_terminal(n.symbol) {
        spec_literal_expr(n)
    } else if n.symbol == ParseTreeSymbol::ParseTreeSymbolNodeExpression {
        if n.children.len() == 1 {
            spec_expr_of(n.children[0])
        } else {
            Err(AstError::UnexpectedNode)
        }
    } else if n.symbol == ParseTreeSymbol::ParseTreeSymbolNodePrimary {
        if n.children.len() == 1 {
            spec_expr_of(n.children[0])
        } else if n.children.len() == 3 {
            spec_expr_of(n.children[1])
        } else {
            Err(AstError::UnexpectedNode)
        }
    } else if n.symbol == ParseTreeSymbol::ParseTreeSymbolNodeEquality || n.symbol
        == ParseTreeSymbol::ParseTreeSymbolNodeComparison || n.symbol
        == ParseTreeSymbol::ParseTreeSymbolNodeAdd {
        if n.children.len() == 3 {
            match binop_of(n.children[1].symbol) {
                None => Err(AstError::UnexpectedNode),
                Some(op) => match spec_expr_of(n.children[0]) {
                    Err(e) => Err(e),
                    Ok(l) => match spec_expr_of(n.children[2]) {
                        Err(e) => Err(e),
                        Ok(r) => Ok(
                            ExprV::BinaryOp { left: Box::new(l), op, right: Box::new(r) },
                        ),
                    },
                },
            }
        } else {
            Err(AstError::UnexpectedNode)
        }
    } else {
        Err(AstError::UnexpectedNode)
    }
}

/// Lowering: the semantic tree a parse tree node projects onto. An exit
/// statement and a loop's bounds carry the full expression value of their
/// parse subtrees; declarations and assignments carry the value already
/// resolved into the scope stack rather than the raw parsed expression.
pub open spec fn spec_build_ast(ss: Seq<Seq<(Seq<char>, EntryV)>>, n: PtV) -> Result<
    AstV,
    AstError,
>
    decreases n, 0int,
{
    if n.symbol == ParseTreeSymbol::ParseTreeSymbolNodeEntryPoint {
        match spec_build_entry_children(ss, n.children) {
            Ok(cs) => Ok(AstV { symbol: AstSymV::Entry, children: cs }),
            Err(e) => Err(e),
        }
    } else if n.symbol == ParseTreeSymbol::ParseTreeSymbolNodeStatement {
        if n.children.len() > 0 {
            spec_build_ast(ss, n.children[0])
        } else {
            Err(AstError::StatementWithoutChildren)
        }
    } else if n.symbol == ParseTreeSymbol::ParseTreeSymbolNodeExit {
        match nth_with(n.children, ParseTreeSymbol::ParseTreeSymbolNodeExpression, 0) {
            None => Err(AstError::ExitWithoutExpression),
            Some(expr_node) => match spec_expr_of(expr_node) {
                Ok(e) => Ok(AstV { symbol: AstSymV::Exit(e), children: Seq::empty() }),
                Err(err) => Err(err),
            },
        }
    } else if n.symbol == ParseTreeSymbol::ParseTreeSymbolNodeVariableDeclaration {
        match nth_with(n.children, ParseTreeSymbol::ParseTreeSymbolNodeExpression, 0) {
            None => Err(AstError::DeclarationWithoutExpression),
            Some(expr_node) => match spec_find_terminal(expr_node) {
                None => Err(AstError::MissingTerminal),
                Some(t) => match t.value {
                    None => Err(AstError::MissingValue),
                    Some(name) => match scopes_lookup(ss, name) {
                        None => Err(AstError::UndefinedName),
                        Some(entry) => Ok(
                            AstV {
                                symbol: AstSymV::VariableDeclaration {
                                    name,
                                    type_: entry.var_type,
                                    value: entry.var_value,
                                },
                                children: Seq::empty(),
                            },
                        ),
                    },
                },
            },
        }
    } else if n.symbol == ParseTreeSymbol::ParseTreeSymbolNodeVariableAssignment {
        match nth_with(n.children, ParseTreeSymbol::ParseTreeSymbolTerminalIdentifier, 0) {
            None => Err(AstError::AssignmentWithoutIdentifier),
            Some(t) => match t.value {
                None => Err(AstError::MissingValue),
                Some(name) => match scopes_lookup(ss, name) {
                    None => Err(AstError::UndefinedName),
                    Some(entry) => Ok(
                        AstV {
                            symbol: AstSymV::VariableAssignment { name, value: entry.var_value },
                            children: Seq::empty(),
                        },
                    ),
                },
            },
        }
    } else if n.symbol == ParseTreeSymbol::ParseTreeSymbolNodeFor {
        let id = nth_with(n.children, ParseTreeSymbol::ParseTreeSymbolNodeExpression, 0);
        let begin = nth_with(n.children, ParseTreeSymbol::ParseTreeSymbolNodeExpression, 1);
        let end = nth_with(n.children, ParseTreeSymbol::ParseTreeSymbolNodeExpression, 2);
        match (id, begin, end) {
            (Some(id_node), Some(begin_node), Some(end_node)) => {
                match spec_find_terminal(id_node) {
                    None => Err(AstError::MissingTerminal),
                    Some(t) => match t.value {
                        None => Err(AstError::MissingValue),
                        Some(name) => match spec_expr_of(begin_node) {
                            Err(e) => Err(e),
                            Ok(b) => match spec_expr_of(end_node) {
                                Err(e) => Err(e),
                                Ok(en) => match spec_build_found_children(ss, n.children) {
                                    Err(e) => Err(e),
                                    Ok(body) => Ok(
                                        AstV {
                                            symbol: AstSymV::For {
                                                iterator_name: name,
                                                iterator_begin: b,
                                                iterator_end: en,
                                                body,
                                            },
                                            children: Seq::empty(),
                                        },
                                    ),
                                },
                            },
                        },
                    },
                }
            },
            _ => Err(AstError::ForMissingExpression),
        }
    } else {
        Err(AstError::UnexpectedNode)
    }
}

/// The entry node's statements, lowered in order; the first failure stops
/// the projection.
pub open spec fn spec_build_entry_children(ss: Seq<Seq<(Seq<char>, EntryV)>>, s: Seq<PtV>) -> Result<
    Seq<AstV>,
    AstError,
>
    decreases s, 1int,
{
    if s.len() == 0 {
        Ok(Seq::empty())
    } else if s[0].symbol == ParseTreeSymbol::ParseTreeSymbolNodeStatement {
        match spec_build_ast(ss, s[0]) {
            Err(e) => Err(e),
            Ok(a) => match spec_build_entry_children(ss, s.drop_first()) {
                Err(e) => Err(e),
                Ok(rest) => Ok(seq![a] + rest),
            },
        }
    } else {
        spec_build_entry_children(ss, s.drop_first())
    }
}

/// Every statement node anywhere below `n` — `n` itself included when it is
/// one — lowered in preorder.
pub open spec fn spec_build_found(ss: Seq<Seq<(Seq<char>, EntryV)>>, n: PtV) -> Result<
    Seq<AstV>,
    AstError,
>
    decreases n, 1int,
{
    if n.symbol == ParseTreeSymbol::ParseTreeSymbolNodeStatement {
        match spec_build_ast(ss, n) {
            Err(e) => Err(e),
            Ok(a) => match spec_build_found_children(ss, n.children) {
                Err(e) => Err(e),
                Ok(rest) => Ok(seq![a] + rest),
            },
        }
    } else {
        spec_build_found_children(ss, n.children)
    }
}

/// The statements found below each node of `s`, in order.
pub open spec fn spec_build_found_children(ss: Seq<Seq<(Seq<char>, EntryV)>>, s: Seq<PtV>) -> Result<
    Seq<AstV>,
    AstError,
>
    decreases s, 2int,
{
    if s.len() == 0 {
        Ok(Seq::empty())
    } else {
        match spec_build_found(ss, s[0]) {
            Err(e) => Err(e),
            Ok(a) => match spec_build_found_children(ss, s.drop_first()) {
                Err(e) => Err(e),
                Ok(rest) => Ok(a + rest),
            },
        }
    }
}


} // verus!
