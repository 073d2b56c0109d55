//! The parser and scope resolver, as mathematics: one function per grammar
//! production, each taking the token sequence, the position, and — for
//! statements — the scope stack, and returning the parse tree built, the
//! position reached, and the scopes left behind, or the fatal error raised.

use vstd::prelude::*;

use crate::ast::Type;
use crate::errors::ParseError;
use crate::resolve::spec_bare_expr;
use crate::resolve::spec_find_terminal;
use crate::resolve::spec_match_type;
use crate::scope::EntryV;
use crate::scope::scopes_find_frame;
use crate::scope::scopes_insert;
use crate::scope::scopes_lookup;
use crate::scope::scopes_update;
use crate::tokenize::TokenType;
use crate::tokenize::TokenV;
use crate::tree::ParseTreeSymbol;
use crate::tree::PtV;

verus! {

/// What parsing one expression production yields: the tree or the error,
/// and the position reached.
pub struct SpOut {
    pub r: Result<PtV, ParseError>,
    pub i: int,
}

/// What parsing one statement production yields: the tree or the error, the
/// position reached, and the scope stack after the production's resolution
/// side effects.
pub struct SpSt {
    pub r: Result<PtV, ParseError>,
    pub i: int,
    pub ss: Seq<Seq<(Seq<char>, EntryV)>>,
}

/// What parsing a whole program yields: the entry tree holding the
/// statements parsed before any error, the first error if one was raised,
/// the position reached, and the final scope stack.
pub struct SpEntry {
    pub tree: PtV,
    pub err: Option<ParseError>,
    pub i: int,
    pub ss: Seq<Seq<(Seq<char>, EntryV)>>,
}

/// `len - i`, clamped at zero.
pub open spec fn left_of(len: int, i: int) -> nat {
    if len - i >= 0 {
        (len - i) as nat
    } else {
        0
    }
}

/// The token at position `i`, if any.
pub open spec fn tok_at(toks: Seq<TokenV>, i: int) -> Option<TokenV> {
    if 0 <= i && i < toks.len() {
        Some(toks[i])
    } else {
        None
    }
}

/// The kind of the token at position `i`, if any.
pub open spec fn kind_at(toks: Seq<TokenV>, i: int) -> Option<TokenType> {
    match tok_at(toks, i) {
        Some(t) => Some(t.token_type),
        None => None,
    }
}

/// A childless node.
pub open spec fn leaf(sym: ParseTreeSymbol) -> PtV {
    PtV { symbol: sym, children: Seq::empty(), value: None }
}

/// A childless node carrying text.
pub open spec fn leafv(sym: ParseTreeSymbol, v: Option<Seq<char>>) -> PtV {
    PtV { symbol: sym, children: Seq::empty(), value: v }
}

/// An inner node.
pub open spec fn node(sym: ParseTreeSymbol, children: Seq<PtV>) -> PtV {
    PtV { symbol: sym, children, value: None }
}

/// `j`, forced past `i`: the recursion measure needs strict progress, and
/// every successful parse in fact consumes at least one token, so the force
/// never fires.
pub open spec fn past(i: int, j: int) -> int {
    if j <= i {
        i + 1
    } else {
        j
    }
}

/// Primary → literal | identifier | `(` Equality `)`.
pub open spec fn sp_primary(toks: Seq<TokenV>, i: int) -> SpOut
    decreases left_of(toks.len() as int, i), 0int,
{
    match tok_at(toks, i) {
        None => SpOut { r: Err(ParseError::UnexpectedPrimary(None)), i },
        Some(t) => {
            if t.token_type == TokenType::TokenTypeIntegerLiteral {
                SpOut {
                    r: Ok(
                        node(
                            ParseTreeSymbol::ParseTreeSymbolNodePrimary,
                            seq![
                                leafv(
                                    ParseTreeSymbol::ParseTreeSymbolTerminalIntegerLiteral,
                                    t.value,
                                ),
                            ],
                        ),
                    ),
                    i: i + 1,
                }
            } else if t.token_type == TokenType::TokenTypeFloatLiteral {
                SpOut {
                    r: Ok(
                        node(
                            ParseTreeSymbol::ParseTreeSymbolNodePrimary,
                            seq![
                                leafv(ParseTreeSymbol::ParseTreeSymbolTerminalFloatLiteral, t.value),
                            ],
                        ),
                    ),
                    i: i + 1,
                }
            } else if t.token_type == TokenType::TokenTypeBooleanLiteral {
                SpOut {
                    r: Ok(
                        node(
                            ParseTreeSymbol::ParseTreeSymbolNodePrimary,
                            seq![
                                leafv(
                                    ParseTreeSymbol::ParseTreeSymbolTerminalBooleanLiteral,
                                    t.value,
                                ),
                            ],
                        ),
                    ),
                    i: i + 1,
                }
            } else if t.token_type == TokenType::TokenTypeIdentifier {
                SpOut {
                    r: Ok(
                        node(
                            ParseTreeSymbol::ParseTreeSymbolNodePrimary,
                            seq![
                                leafv(ParseTreeSymbol::ParseTreeSymbolTerminalIdentifier, t.value),
                            ],
                        ),
                    ),
                    i: i + 1,
                }
            } else if t.token_type == TokenType::TokenTypeLeftParen {
                let inner = sp_equality(toks, i + 1);
                match inner.r {
                    Err(e) => SpOut { r: Err(e), i: inner.i },
                    Ok(content) => {
                        let expr = node(
                            ParseTreeSymbol::ParseTreeSymbolNodeExpression,
                            seq![content],
                        );
                        match kind_at(toks, inner.i) {
                            Some(TokenType::TokenTypeRightParen) => SpOut {
                                r: Ok(
                                    node(
                                        ParseTreeSymbol::ParseTreeSymbolNodePrimary,
                                        seq![
                                            leaf(ParseTreeSymbol::ParseTreeSymbolTerminalLeftParen),
                                            expr,
                                            leaf(
                                                ParseTreeSymbol::ParseTreeSymbolTerminalRightParen,
                                            ),
                                        ],
                                    ),
                                ),
                                i: inner.i + 1,
                            },
                            found => SpOut {
                                r: Err(
                                    ParseError::ExpectedToken {
                                        expected: TokenType::TokenTypeRightParen,
                                        found,
                                    },
                                ),
                                i: inner.i,
                            },
                        }
                    },
                }
            } else {
                SpOut { r: Err(ParseError::UnexpectedPrimary(Some(t.token_type))), i }
            }
        },
    }
}

/// Add → Primary ((`+` | `-`) Primary)*, left-associative.
pub open spec fn sp_add(toks: Seq<TokenV>, i: int) -> SpOut
    decreases left_of(toks.len() as int, i), 1int,
{
    let l = sp_primary(toks, i);
    match l.r {
        Err(e) => SpOut { r: Err(e), i: l.i },
        Ok(first) => sp_add_rest(toks, past(i, l.i), first),
    }
}

/// The pending operators of an additive chain, folded onto `left`.
pub open spec fn sp_add_rest(toks: Seq<TokenV>, i: int, left: PtV) -> SpOut
    decreases left_of(toks.len() as int, i), 0int,
{
    let op = match kind_at(toks, i) {
        Some(TokenType::TokenTypePlus) => Some(ParseTreeSymbol::ParseTreeSymbolTerminalPlus),
        Some(TokenType::TokenTypeMinus) => Some(ParseTreeSymbol::ParseTreeSymbolTerminalMinus),
        _ => None,
    };
    match op {
        None => SpOut { r: Ok(left), i },
        Some(opsym) => {
            let r = sp_primary(toks, i + 1);
            match r.r {
                Err(e) => SpOut { r: Err(e), i: r.i },
                Ok(right) => sp_add_rest(
                    toks,
                    past(i, r.i),
                    node(ParseTreeSymbol::ParseTreeSymbolNodeAdd, seq![left, leaf(opsym), right]),
                ),
            }
        },
    }
}

/// Comparison → Add ((`<` | `<=` | `>` | `>=`) Add)*, left-associative.
pub open spec fn sp_comparison(toks: Seq<TokenV>, i: int) -> SpOut
    decreases left_of(toks.len() as int, i), 2int,
{
    let l = sp_add(toks, i);
    match l.r {
        Err(e) => SpOut { r: Err(e), i: l.i },
        Ok(first) => sp_cmp_rest(toks, past(i, l.i), first),
    }
}

/// The pending operators of a comparison chain, folded onto `left`.
pub open spec fn sp_cmp_rest(toks: Seq<TokenV>, i: int, left: PtV) -> SpOut
    decreases left_of(toks.len() as int, i), 0int,
{
    let op = match kind_at(toks, i) {
        Some(TokenType::TokenTypeLessThan) => Some(
            ParseTreeSymbol::ParseTreeSymbolTerminalLessThan,
        ),
        Some(TokenType::TokenTypeLessThanOrEqual) => Some(
            ParseTreeSymbol::ParseTreeSymbolTerminalLessThanOrEqual,
        ),
        Some(TokenType::TokenTypeGreaterThan) => Some(
            ParseTreeSymbol::ParseTreeSymbolTerminalGreaterThan,
        ),
        Some(TokenType::TokenTypeGreaterThanOrEqual) => Some(
            ParseTreeSymbol::ParseTreeSymbolTerminalGreaterThanOrEqual,
        ),
        _ => None,
    };
    match op {
        None => SpOut { r: Ok(left), i },
        Some(opsym) => {
            let r = sp_add(toks, i + 1);
            match r.r {
                Err(e) => SpOut { r: Err(e), i: r.i },
                Ok(right) => sp_cmp_rest(
                    toks,
                    past(i, r.i),
                    node(
                        ParseTreeSymbol::ParseTreeSymbolNodeComparison,
                        seq![left, leaf(opsym), right],
                    ),
                ),
            }
        },
    }
}

/// Equality → Comparison ((`==` | `!=`) Comparison)*, left-associative.
pub open spec fn sp_equality(toks: Seq<TokenV>, i: int) -> SpOut
    decreases left_of(toks.len() as int, i), 4int,
{
    let l = sp_comparison(toks, i);
    match l.r {
        Err(e) => SpOut { r: Err(e), i: l.i },
        Ok(first) => sp_eq_rest(toks, past(i, l.i), first),
    }
}

/// The pending operators of an equality chain, folded onto `left`.
pub open spec fn sp_eq_rest(toks: Seq<TokenV>, i: int, left: PtV) -> SpOut
    decreases left_of(toks.len() as int, i), 0int,
{
    let op = match kind_at(toks, i) {
        Some(TokenType::TokenTypeEqualsEquals) => Some(
            ParseTreeSymbol::ParseTreeSymbolTerminalEqualsEquals,
        ),
        Some(TokenType::TokenTypeNotEquals) => Some(
            ParseTreeSymbol::ParseTreeSymbolTerminalNotEquals,
        ),
        _ => None,
    };
    match op {
        None => SpOut { r: Ok(left), i },
        Some(opsym) => {
            let r = sp_comparison(toks, i + 1);
            match r.r {
                Err(e) => SpOut { r: Err(e), i: r.i },
                Ok(right) => sp_eq_rest(
                    toks,
                    past(i, r.i),
                    node(
                        ParseTreeSymbol::ParseTreeSymbolNodeEquality,
                        seq![left, leaf(opsym), right],
                    ),
                ),
            }
        },
    }
}

/// Expression → Equality, wrapped in an expression node.
pub open spec fn sp_expression(toks: Seq<TokenV>, i: int) -> SpOut {
    let r = sp_equality(toks, i);
    match r.r {
        Err(e) => SpOut { r: Err(e), i: r.i },
        Ok(content) => SpOut {
            r: Ok(node(ParseTreeSymbol::ParseTreeSymbolNodeExpression, seq![content])),
            i: r.i,
        },
    }
}

/// Exit → `exit` Expression `;`. Assumes dispatch has seen the `exit`
/// token at `i`.
#[verifier::opaque]
pub open spec fn sp_exit(toks: Seq<TokenV>, i: int) -> SpOut {
    let ex = sp_expression(toks, i + 1);
    match ex.r {
        Err(e) => SpOut { r: Err(e), i: ex.i },
        Ok(en) => {
            match kind_at(toks, ex.i) {
                Some(TokenType::TokenTypeSemicolon) => SpOut {
                    r: Ok(
                        node(
                            ParseTreeSymbol::ParseTreeSymbolNodeExit,
                            seq![
                                leaf(ParseTreeSymbol::ParseTreeSymbolTerminalExit),
                                en,
                                leaf(ParseTreeSymbol::ParseTreeSymbolTerminalSemicolon),
                            ],
                        ),
                    ),
                    i: ex.i + 1,
                },
                found => SpOut {
                    r: Err(
                        ParseError::ExpectedToken {
                            expected: TokenType::TokenTypeSemicolon,
                            found,
                        },
                    ),
                    i: ex.i,
                },
            }
        },
    }
}

/// Type → `i32` | `f32` | `bool`.
#[verifier::opaque]
pub open spec fn sp_type(toks: Seq<TokenV>, i: int) -> SpOut {
    match kind_at(toks, i) {
        Some(TokenType::TokenTypeTypeI32S) => SpOut {
            r: Ok(
                node(
                    ParseTreeSymbol::ParseTreeSymbolNodeType,
                    seq![leaf(ParseTreeSymbol::ParseTreeSymbolTerminalI32S)],
                ),
            ),
            i: i + 1,
        },
        Some(TokenType::TokenTypeTypeF32S) => SpOut {
            r: Ok(
                node(
                    ParseTreeSymbol::ParseTreeSymbolNodeType,
                    seq![leaf(ParseTreeSymbol::ParseTreeSymbolTerminalF32S)],
                ),
            ),
            i: i + 1,
        },
        Some(TokenType::TokenTypeTypeBool) => SpOut {
            r: Ok(
                node(
                    ParseTreeSymbol::ParseTreeSymbolNodeType,
                    seq![leaf(ParseTreeSymbol::ParseTreeSymbolTerminalBool)],
                ),
            ),
            i: i + 1,
        },
        found => SpOut { r: Err(ParseError::ExpectedType(found)), i },
    }
}

/// VarDecl → Type Expression `=` Expression `;`, with its resolution side
/// effects: the declared name, read from the first expression's terminal, is
/// bound in the innermost frame to the declared type and the resolved
/// initializer value.
#[verifier::opaque]
pub open spec fn sp_vardecl(toks: Seq<TokenV>, i: int, ss: Seq<Seq<(Seq<char>, EntryV)>>) -> SpSt {
    let ty = sp_type(toks, i);
    match ty.r {
        Err(e) => SpSt { r: Err(e), i: ty.i, ss },
        Ok(ty_node) => {
            let id = sp_expression(toks, ty.i);
            match id.r {
                Err(e) => SpSt { r: Err(e), i: id.i, ss },
                Ok(id_node) => {
                    if kind_at(toks, id.i) != Some(TokenType::TokenTypeEquals) {
                        SpSt {
                            r: Err(
                                ParseError::ExpectedToken {
                                    expected: TokenType::TokenTypeEquals,
                                    found: kind_at(toks, id.i),
                                },
                            ),
                            i: id.i,
                            ss,
                        }
                    } else {
                        let va = sp_expression(toks, id.i + 1);
                        match va.r {
                            Err(e) => SpSt { r: Err(e), i: va.i, ss },
                            Ok(va_node) => {
                                if kind_at(toks, va.i) != Some(TokenType::TokenTypeSemicolon) {
                                    SpSt {
                                        r: Err(
                                            ParseError::ExpectedToken {
                                                expected: TokenType::TokenTypeSemicolon,
                                                found: kind_at(toks, va.i),
                                            },
                                        ),
                                        i: va.i,
                                        ss,
                                    }
                                } else {
                                    let done = va.i + 1;
                                    match spec_find_terminal(id_node) {
                                        None => SpSt { r: Err(ParseError::MissingTerminal), i: done, ss },
                                        Some(t) => match t.value {
                                            None => SpSt { r: Err(ParseError::MissingValue), i: done, ss },
                                            Some(name) => match spec_match_type(ty_node) {
                                                None => SpSt {
                                                    r: Err(ParseError::InvalidTypeNode),
                                                    i: done,
                                                    ss,
                                                },
                                                Some(ty_val) => match spec_bare_expr(ss, va_node) {
                                                    Err(e) => SpSt { r: Err(e), i: done, ss },
                                                    Ok(value) => SpSt {
                                                        r: Ok(
                                                            node(
                                                                ParseTreeSymbol::ParseTreeSymbolNodeVariableDeclaration,
                                                                seq![
                                                                    ty_node,
                                                                    id_node,
                                                                    leaf(
                                                                        ParseTreeSymbol::ParseTreeSymbolTerminalEquals,
                                                                    ),
                                                                    va_node,
                                                                    leaf(
                                                                        ParseTreeSymbol::ParseTreeSymbolTerminalSemicolon,
                                                                    ),
                                                                ],
                                                            ),
                                                        ),
                                                        i: done,
                                                        ss: scopes_insert(
                                                            ss,
                                                            name,
                                                            EntryV { var_type: ty_val, var_value: value },
                                                        ),
                                                    },
                                                },
                                            },
                                        },
                                    }
                                }
                            },
                        }
                    }
                },
            }
        },
    }
}

/// VarAssign → Identifier `=` Expression `;`, with its resolution side
/// effects: the name must already be bound in some active frame, and its
/// value there is overwritten with the resolved right-hand side; the
/// declared type is left unchanged.
#[verifier::opaque]
pub open spec fn sp_varassign(toks: Seq<TokenV>, i: int, ss: Seq<Seq<(Seq<char>, EntryV)>>) -> SpSt {
    match tok_at(toks, i) {
        Some(t) if t.token_type == TokenType::TokenTypeIdentifier => {
            let id_node = leafv(ParseTreeSymbol::ParseTreeSymbolTerminalIdentifier, t.value);
            if kind_at(toks, i + 1) != Some(TokenType::TokenTypeEquals) {
                SpSt {
                    r: Err(
                        ParseError::ExpectedToken {
                            expected: TokenType::TokenTypeEquals,
                            found: kind_at(toks, i + 1),
                        },
                    ),
                    i: i + 1,
                    ss,
                }
            } else {
                let va = sp_expression(toks, i + 2);
                match va.r {
                    Err(e) => SpSt { r: Err(e), i: va.i, ss },
                    Ok(va_node) => {
                        if kind_at(toks, va.i) != Some(TokenType::TokenTypeSemicolon) {
                            SpSt {
                                r: Err(
                                    ParseError::ExpectedToken {
                                        expected: TokenType::TokenTypeSemicolon,
                                        found: kind_at(toks, va.i),
                                    },
                                ),
                                i: va.i,
                                ss,
                            }
                        } else {
                            let done = va.i + 1;
                            match t.value {
                                None => SpSt { r: Err(ParseError::MissingValue), i: done, ss },
                                Some(name) => match spec_bare_expr(ss, va_node) {
                                    Err(e) => SpSt { r: Err(e), i: done, ss },
                                    Ok(value) => {
                                        if scopes_lookup(ss, name) is None {
                                            SpSt {
                                                r: Err(ParseError::UndefinedVariable),
                                                i: done,
                                                ss,
                                            }
                                        } else {
                                            SpSt {
                                                r: Ok(
                                                    node(
                                                        ParseTreeSymbol::ParseTreeSymbolNodeVariableAssignment,
                                                        seq![
                                                            id_node,
                                                            leaf(
                                                                ParseTreeSymbol::ParseTreeSymbolTerminalEquals,
                                                            ),
                                                            va_node,
                                                            leaf(
                                                                ParseTreeSymbol::ParseTreeSymbolTerminalSemicolon,
                                                            ),
                                                        ],
                                                    ),
                                                ),
                                                i: done,
                                                ss: match scopes_update(ss, name, value) {
                                                    Some(ss2) => ss2,
                                                    None => ss,
                                                },
                                            }
                                        }
                                    },
                                },
                            }
                        }
                    },
                }
            }
        },
        found => SpSt {
            r: Err(
                ParseError::ExpectedToken {
                    expected: TokenType::TokenTypeIdentifier,
                    found: match found {
                        Some(t) => Some(t.token_type),
                        None => None,
                    },
                },
            ),
            i,
            ss,
        },
    }
}

/// The scope stack with its innermost frame discarded.
pub open spec fn spec_pop(ss: Seq<Seq<(Seq<char>, EntryV)>>) -> Seq<Seq<(Seq<char>, EntryV)>> {
    if ss.len() == 0 {
        ss
    } else {
        ss.drop_last()
    }
}

/// Statement → Exit | VarDecl | VarAssign | For, chosen by the leading
/// token.
pub open spec fn sp_statement(toks: Seq<TokenV>, i: int, ss: Seq<Seq<(Seq<char>, EntryV)>>) -> SpSt
    decreases left_of(toks.len() as int, i), 2int,
{
    match kind_at(toks, i) {
        None => SpSt { r: Err(ParseError::UnexpectedEndOfInput), i, ss },
        Some(k) => {
            if k == TokenType::TokenTypeExit {
                let e = sp_exit(toks, i);
                SpSt { r: wrap_statement(e.r), i: e.i, ss }
            } else if k == TokenType::TokenTypeTypeI32S || k == TokenType::TokenTypeTypeF32S || k
                == TokenType::TokenTypeTypeBool {
                let d = sp_vardecl(toks, i, ss);
                SpSt { r: wrap_statement(d.r), i: d.i, ss: d.ss }
            } else if k == TokenType::TokenTypeIdentifier {
                let a = sp_varassign(toks, i, ss);
                SpSt { r: wrap_statement(a.r), i: a.i, ss: a.ss }
            } else if k == TokenType::TokenTypeFor {
                let f = sp_for(toks, i, ss);
                SpSt { r: wrap_statement(f.r), i: f.i, ss: f.ss }
            } else {
                SpSt { r: Err(ParseError::UnrecognizedStatement(k)), i, ss }
            }
        },
    }
}

/// A parsed production wrapped in its statement node.
pub open spec fn wrap_statement(r: Result<PtV, ParseError>) -> Result<PtV, ParseError> {
    match r {
        Ok(n) => Ok(node(ParseTreeSymbol::ParseTreeSymbolNodeStatement, seq![n])),
        Err(e) => Err(e),
    }
}

/// For → `for` Expression `in` Expression `to` Expression Block. The
/// iterator name and both bounds are parsed in the enclosing scope; then a
/// frame is pushed, the iterator bound in it to the lower bound's resolved
/// value with the 32-bit integer type, the body parsed, and the frame
/// popped: the iterator is invisible outside the loop.
pub open spec fn sp_for(toks: Seq<TokenV>, i: int, ss: Seq<Seq<(Seq<char>, EntryV)>>) -> SpSt
    decreases left_of(toks.len() as int, i), 1int,
{
    if kind_at(toks, i) != Some(TokenType::TokenTypeFor) {
        SpSt {
            r: Err(
                ParseError::ExpectedToken {
                    expected: TokenType::TokenTypeFor,
                    found: kind_at(toks, i),
                },
            ),
            i,
            ss,
        }
    } else {
        let id = sp_expression(toks, i + 1);
        match id.r {
            Err(e) => SpSt { r: Err(e), i: id.i, ss },
            Ok(id_node) => {
                if kind_at(toks, id.i) != Some(TokenType::TokenTypeForIn) {
                    SpSt {
                        r: Err(
                            ParseError::ExpectedToken {
                                expected: TokenType::TokenTypeForIn,
                                found: kind_at(toks, id.i),
                            },
                        ),
                        i: id.i,
                        ss,
                    }
                } else {
                    let lo = sp_expression(toks, id.i + 1);
                    match lo.r {
                        Err(e) => SpSt { r: Err(e), i: lo.i, ss },
                        Ok(lo_node) => {
                            if kind_at(toks, lo.i) != Some(TokenType::TokenTypeForTo) {
                                SpSt {
                                    r: Err(
                                        ParseError::ExpectedToken {
                                            expected: TokenType::TokenTypeForTo,
                                            found: kind_at(toks, lo.i),
                                        },
                                    ),
                                    i: lo.i,
                                    ss,
                                }
                            } else {
                                let hi = sp_expression(toks, lo.i + 1);
                                match hi.r {
                                    Err(e) => SpSt { r: Err(e), i: hi.i, ss },
                                    Ok(hi_node) => {
                                        if kind_at(toks, hi.i) != Some(
                                            TokenType::TokenTypeLeftCurlyBrace,
                                        ) {
                                            SpSt {
                                                r: Err(
                                                    ParseError::ExpectedToken {
                                                        expected: TokenType::TokenTypeLeftCurlyBrace,
                                                        found: kind_at(toks, hi.i),
                                                    },
                                                ),
                                                i: hi.i,
                                                ss,
                                            }
                                        } else {
                                            let ss1 = ss.push(Seq::empty());
                                            match spec_find_terminal(id_node) {
                                                None => SpSt {
                                                    r: Err(ParseError::MissingTerminal),
                                                    i: hi.i,
                                                    ss: ss1,
                                                },
                                                Some(t) => match t.value {
                                                    None => SpSt {
                                                        r: Err(ParseError::MissingValue),
                                                        i: hi.i,
                                                        ss: ss1,
                                                    },
                                                    Some(name) => match spec_bare_expr(ss1, lo_node) {
                                                        Err(e) => SpSt { r: Err(e), i: hi.i, ss: ss1 },
                                                        Ok(value) => {
                                                            let ss2 = scopes_insert(
                                                                ss1,
                                                                name,
                                                                EntryV {
                                                                    var_type: Type::I32S,
                                                                    var_value: value,
                                                                },
                                                            );
                                                            let blk = sp_block(
                                                                toks,
                                                                past(i, hi.i),
                                                                ss2,
                                                            );
                                                            match blk.r {
                                                                Err(e) => SpSt {
                                                                    r: Err(e),
                                                                    i: blk.i,
                                                                    ss: blk.ss,
                                                                },
                                                                Ok(blk_node) => SpSt {
                                                                    r: Ok(
                                                                        node(
                                                                            ParseTreeSymbol::ParseTreeSymbolNodeFor,
                                                                            seq![
                                                                                leaf(
                                                                                    ParseTreeSymbol::ParseTreeSymbolTerminalFor,
                                                                                ),
                                                                                id_node,
                                                                                leaf(
                                                                                    ParseTreeSymbol::ParseTreeSymbolTerminalForIn,
                                                                                ),
                                                                                lo_node,
                                                                                leaf(
                                                                                    ParseTreeSymbol::ParseTreeSymbolTerminalForTo,
                                                                                ),
                                                                                hi_node,
                                                                                blk_node,
                                                                            ],
                                                                        ),
                                                                    ),
                                                                    i: blk.i,
                                                                    ss: spec_pop(blk.ss),
                                                                },
                                                            }
                                                        },
                                                    },
                                                },
                                            }
                                        }
                                    },
                                }
                            }
                        },
                    }
                }
            },
        }
    }
}

/// Block → `{` Statement `}`: exactly one statement.
pub open spec fn sp_block(toks: Seq<TokenV>, i: int, ss: Seq<Seq<(Seq<char>, EntryV)>>) -> SpSt
    decreases left_of(toks.len() as int, i), 0int,
{
    if kind_at(toks, i) != Some(TokenType::TokenTypeLeftCurlyBrace) {
        SpSt {
            r: Err(
                ParseError::ExpectedToken {
                    expected: TokenType::TokenTypeLeftCurlyBrace,
                    found: kind_at(toks, i),
                },
            ),
            i,
            ss,
        }
    } else {
        let st = sp_statement(toks, i + 1, ss);
        match st.r {
            Err(e) => SpSt { r: Err(e), i: st.i, ss: st.ss },
            Ok(st_node) => {
                if kind_at(toks, st.i) != Some(TokenType::TokenTypeRightCurlyBrace) {
                    SpSt {
                        r: Err(
                            ParseError::ExpectedToken {
                                expected: TokenType::TokenTypeRightCurlyBrace,
                                found: kind_at(toks, st.i),
                            },
                        ),
                        i: st.i,
                        ss: st.ss,
                    }
                } else {
                    SpSt {
                        r: Ok(
                            node(
                                ParseTreeSymbol::ParseTreeSymbolNodeBlock,
                                seq![
                                    leaf(ParseTreeSymbol::ParseTreeSymbolTerminalLeftCurlyBrace),
                                    st_node,
                                    leaf(ParseTreeSymbol::ParseTreeSymbolTerminalRightCurlyBrace),
                                ],
                            ),
                        ),
                        i: st.i + 1,
                        ss: st.ss,
                    }
                }
            },
        }
    }
}

/// The top-level statement loop: statements parsed and gathered until the
/// input ends or one statement fails; the first failure stops the loop,
/// keeping what parsed so far.
pub open spec fn sp_entry_loop(
    toks: Seq<TokenV>,
    i: int,
    ss: Seq<Seq<(Seq<char>, EntryV)>>,
    acc: Seq<PtV>,
) -> SpEntry
    decreases left_of(toks.len() as int, i), 3int,
{
    if i >= toks.len() {
        SpEntry {
            tree: node(ParseTreeSymbol::ParseTreeSymbolNodeEntryPoint, acc),
            err: None,
            i,
            ss,
        }
    } else {
        let st = sp_statement(toks, i, ss);
        match st.r {
            Ok(n) => sp_entry_loop(toks, past(i, st.i), st.ss, acc.push(n)),
            Err(e) => SpEntry {
                tree: node(ParseTreeSymbol::ParseTreeSymbolNodeEntryPoint, acc),
                err: Some(e),
                i: st.i,
                ss: st.ss,
            },
        }
    }
}

/// Entry → entry marker, then the statement loop. The token at `i` — the
/// synthetic entry marker — is consumed unexamined.
pub open spec fn sp_entry(toks: Seq<TokenV>, i: int, ss: Seq<Seq<(Seq<char>, EntryV)>>) -> SpEntry {
    sp_entry_loop(toks, i + 1, ss, Seq::empty())
}


/// Parsing never moves backwards, and a successful expression-tier parse
/// consumes at least one token.
pub proof fn lemma_sp_primary_advances(toks: Seq<TokenV>, i: int)
    ensures
        sp_primary(toks, i).i >= i,
        sp_primary(toks, i).r is Ok ==> sp_primary(toks, i).i > i,
    decreases left_of(toks.len() as int, i), 0int,
{
    if tok_at(toks, i) is Some && toks[i].token_type == TokenType::TokenTypeLeftParen {
        lemma_sp_equality_advances(toks, i + 1);
    }
}

pub proof fn lemma_sp_add_advances(toks: Seq<TokenV>, i: int)
    ensures
        sp_add(toks, i).i >= i,
        sp_add(toks, i).r is Ok ==> sp_add(toks, i).i > i,
    decreases left_of(toks.len() as int, i), 1int,
{
    lemma_sp_primary_advances(toks, i);
    if sp_primary(toks, i).r is Ok {
        lemma_sp_add_rest_advances(toks, past(i, sp_primary(toks, i).i), sp_primary(toks, i).r->Ok_0);
    }
}

pub proof fn lemma_sp_add_rest_advances(toks: Seq<TokenV>, i: int, left: PtV)
    ensures
        sp_add_rest(toks, i, left).i >= i,
    decreases left_of(toks.len() as int, i), 0int,
{
    let k = kind_at(toks, i);
    if k == Some(TokenType::TokenTypePlus) || k == Some(TokenType::TokenTypeMinus) {
        lemma_sp_primary_advances(toks, i + 1);
        let r = sp_primary(toks, i + 1);
        if r.r is Ok {
            let opsym = if k == Some(TokenType::TokenTypePlus) {
                ParseTreeSymbol::ParseTreeSymbolTerminalPlus
            } else {
                ParseTreeSymbol::ParseTreeSymbolTerminalMinus
            };
            lemma_sp_add_rest_advances(
                toks,
                past(i, r.i),
                node(ParseTreeSymbol::ParseTreeSymbolNodeAdd, seq![left, leaf(opsym), r.r->Ok_0]),
            );
        }
    }
}

pub proof fn lemma_sp_comparison_advances(toks: Seq<TokenV>, i: int)
    ensures
        sp_comparison(toks, i).i >= i,
        sp_comparison(toks, i).r is Ok ==> sp_comparison(toks, i).i > i,
    decreases left_of(toks.len() as int, i), 2int,
{
    lemma_sp_add_advances(toks, i);
    if sp_add(toks, i).r is Ok {
        lemma_sp_cmp_rest_advances(toks, past(i, sp_add(toks, i).i), sp_add(toks, i).r->Ok_0);
    }
}

pub proof fn lemma_sp_cmp_rest_advances(toks: Seq<TokenV>, i: int, left: PtV)
    ensures
        sp_cmp_rest(toks, i, left).i >= i,
    decreases left_of(toks.len() as int, i), 0int,
{
    let k = kind_at(toks, i);
    let op = if k == Some(TokenType::TokenTypeLessThan) {
        Some(ParseTreeSymbol::ParseTreeSymbolTerminalLessThan)
    } else if k == Some(TokenType::TokenTypeLessThanOrEqual) {
        Some(ParseTreeSymbol::ParseTreeSymbolTerminalLessThanOrEqual)
    } else if k == Some(TokenType::TokenTypeGreaterThan) {
        Some(ParseTreeSymbol::ParseTreeSymbolTerminalGreaterThan)
    } else if k == Some(TokenType::TokenTypeGreaterThanOrEqual) {
        Some(ParseTreeSymbol::ParseTreeSymbolTerminalGreaterThanOrEqual)
    } else {
        None
    };
    if op is Some {
        lemma_sp_add_advances(toks, i + 1);
        let r = sp_add(toks, i + 1);
        if r.r is Ok {
            lemma_sp_cmp_rest_advances(
                toks,
                past(i, r.i),
                node(
                    ParseTreeSymbol::ParseTreeSymbolNodeComparison,
                    seq![left, leaf(op->0), r.r->Ok_0],
                ),
            );
        }
    }
}

pub proof fn lemma_sp_equality_advances(toks: Seq<TokenV>, i: int)
    ensures
        sp_equality(toks, i).i >= i,
        sp_equality(toks, i).r is Ok ==> sp_equality(toks, i).i > i,
    decreases left_of(toks.len() as int, i), 4int,
{
    lemma_sp_comparison_advances(toks, i);
    if sp_comparison(toks, i).r is Ok {
        lemma_sp_eq_rest_advances(
            toks,
            past(i, sp_comparison(toks, i).i),
            sp_comparison(toks, i).r->Ok_0,
        );
    }
}

pub proof fn lemma_sp_eq_rest_advances(toks: Seq<TokenV>, i: int, left: PtV)
    ensures
        sp_eq_rest(toks, i, left).i >= i,
    decreases left_of(toks.len() as int, i), 0int,
{
    let k = kind_at(toks, i);
    let op = if k == Some(TokenType::TokenTypeEqualsEquals) {
        Some(ParseTreeSymbol::ParseTreeSymbolTerminalEqualsEquals)
    } else if k == Some(TokenType::TokenTypeNotEquals) {
        Some(ParseTreeSymbol::ParseTreeSymbolTerminalNotEquals)
    } else {
        None
    };
    if op is Some {
        lemma_sp_comparison_advances(toks, i + 1);
        let r = sp_comparison(toks, i + 1);
        if r.r is Ok {
            lemma_sp_eq_rest_advances(
                toks,
                past(i, r.i),
                node(
                    ParseTreeSymbol::ParseTreeSymbolNodeEquality,
                    seq![left, leaf(op->0), r.r->Ok_0],
                ),
            );
        }
    }
}

pub proof fn lemma_sp_expression_advances(toks: Seq<TokenV>, i: int)
    ensures
        sp_expression(toks, i).i >= i,
        sp_expression(toks, i).r is Ok ==> sp_expression(toks, i).i > i,
{
    lemma_sp_equality_advances(toks, i);
}

/// A successful statement-tier parse consumes at least one token.
pub proof fn lemma_sp_statement_advances(toks: Seq<TokenV>, i: int, ss: Seq<Seq<(Seq<char>, EntryV)>>)
    ensures
        sp_statement(toks, i, ss).i >= i,
        sp_statement(toks, i, ss).r is Ok ==> sp_statement(toks, i, ss).i > i,
    decreases left_of(toks.len() as int, i), 2int,
{
    reveal(sp_exit);
    reveal(sp_type);
    reveal(sp_vardecl);
    reveal(sp_varassign);
    match kind_at(toks, i) {
        None => {},
        Some(k) => {
            if k == TokenType::TokenTypeExit {
                lemma_sp_expression_advances(toks, i + 1);
            } else if k == TokenType::TokenTypeTypeI32S || k == TokenType::TokenTypeTypeF32S || k
                == TokenType::TokenTypeTypeBool {
                let ty = sp_type(toks, i);
                if ty.r is Ok {
                    lemma_sp_expression_advances(toks, ty.i);
                    let id = sp_expression(toks, ty.i);
                    if id.r is Ok {
                        lemma_sp_expression_advances(toks, id.i + 1);
                    }
                }
            } else if k == TokenType::TokenTypeIdentifier {
                lemma_sp_expression_advances(toks, i + 2);
            } else if k == TokenType::TokenTypeFor {
                lemma_sp_for_advances(toks, i, ss);
            }
        },
    }
}

pub proof fn lemma_sp_for_advances(toks: Seq<TokenV>, i: int, ss: Seq<Seq<(Seq<char>, EntryV)>>)
    ensures
        sp_for(toks, i, ss).i >= i,
        sp_for(toks, i, ss).r is Ok ==> sp_for(toks, i, ss).i > i,
    decreases left_of(toks.len() as int, i), 1int,
{
    if kind_at(toks, i) == Some(TokenType::TokenTypeFor) {
        lemma_sp_expression_advances(toks, i + 1);
        let id = sp_expression(toks, i + 1);
        if id.r is Ok {
            lemma_sp_expression_advances(toks, id.i + 1);
            let lo = sp_expression(toks, id.i + 1);
            if lo.r is Ok {
                lemma_sp_expression_advances(toks, lo.i + 1);
                let hi = sp_expression(toks, lo.i + 1);
                if hi.r is Ok {
                    lemma_sp_block_advances(toks, past(i, hi.i), ss);
                    let ss1 = ss.push(Seq::empty());
                    match spec_find_terminal(id.r->Ok_0) {
                        None => {},
                        Some(t) => match t.value {
                            None => {},
                            Some(name) => match spec_bare_expr(ss1, lo.r->Ok_0) {
                                Err(_) => {},
                                Ok(value) => {
                                    let ss2 = scopes_insert(
                                        ss1,
                                        name,
                                        EntryV { var_type: Type::I32S, var_value: value },
                                    );
                                    lemma_sp_block_advances(toks, past(i, hi.i), ss2);
                                },
                            },
                        },
                    }
                }
            }
        }
    }
}

pub proof fn lemma_sp_block_advances(toks: Seq<TokenV>, i: int, ss: Seq<Seq<(Seq<char>, EntryV)>>)
    ensures
        sp_block(toks, i, ss).i >= i,
        sp_block(toks, i, ss).r is Ok ==> sp_block(toks, i, ss).i > i,
    decreases left_of(toks.len() as int, i), 0int,
{
    if kind_at(toks, i) == Some(TokenType::TokenTypeLeftCurlyBrace) {
        lemma_sp_statement_advances(toks, i + 1, ss);
    }
}


/// A statement never discards frames below those it opened: the stack after
/// it is at least as deep as before.
#[verifier::rlimit(50)]
pub proof fn lemma_sp_statement_scopes(toks: Seq<TokenV>, i: int, ss: Seq<Seq<(Seq<char>, EntryV)>>)
    ensures
        sp_statement(toks, i, ss).ss.len() >= ss.len(),
    decreases left_of(toks.len() as int, i), 2int,
{
    reveal(sp_exit);
    reveal(sp_type);
    reveal(sp_vardecl);
    reveal(sp_varassign);
    match kind_at(toks, i) {
        None => {},
        Some(k) => {
            if k == TokenType::TokenTypeTypeI32S || k == TokenType::TokenTypeTypeF32S || k
                == TokenType::TokenTypeTypeBool {
                assert(sp_vardecl(toks, i, ss).ss.len() >= ss.len());
            } else if k == TokenType::TokenTypeIdentifier {
                match tok_at(toks, i) {
                    Some(t) => {
                        if t.token_type == TokenType::TokenTypeIdentifier {
                            let va = sp_expression(toks, i + 2);
                            match va.r {
                                Ok(va_node) => match t.value {
                                    Some(name) => match spec_bare_expr(ss, va_node) {
                                        Ok(value) => {
                                            crate::scope::lemma_scopes_update_len(ss, name, value);
                                        },
                                        _ => {},
                                    },
                                    _ => {},
                                },
                                _ => {},
                            }
                        }
                    },
                    _ => {},
                }
                assert(sp_varassign(toks, i, ss).ss.len() >= ss.len());
            } else if k == TokenType::TokenTypeFor {
                lemma_sp_for_scopes(toks, i, ss);
            }
        },
    }
}

pub proof fn lemma_sp_for_scopes(toks: Seq<TokenV>, i: int, ss: Seq<Seq<(Seq<char>, EntryV)>>)
    ensures
        sp_for(toks, i, ss).ss.len() >= ss.len(),
    decreases left_of(toks.len() as int, i), 1int,
{
    if kind_at(toks, i) == Some(TokenType::TokenTypeFor) {
        let id = sp_expression(toks, i + 1);
        if id.r is Ok && kind_at(toks, id.i) == Some(TokenType::TokenTypeForIn) {
            let lo = sp_expression(toks, id.i + 1);
            if lo.r is Ok && kind_at(toks, lo.i) == Some(TokenType::TokenTypeForTo) {
                let hi = sp_expression(toks, lo.i + 1);
                if hi.r is Ok && kind_at(toks, hi.i) == Some(TokenType::TokenTypeLeftCurlyBrace) {
                    let ss1 = ss.push(Seq::empty());
                    match spec_find_terminal(id.r->Ok_0) {
                        None => {},
                        Some(t) => match t.value {
                            None => {},
                            Some(name) => match spec_bare_expr(ss1, lo.r->Ok_0) {
                                Err(_) => {},
                                Ok(value) => {
                                    let ss2 = scopes_insert(
                                        ss1,
                                        name,
                                        EntryV { var_type: Type::I32S, var_value: value },
                                    );
                                    lemma_sp_block_scopes(toks, past(i, hi.i), ss2);
                                },
                            },
                        },
                    }
                }
            }
        }
    }
}

pub proof fn lemma_sp_block_scopes(toks: Seq<TokenV>, i: int, ss: Seq<Seq<(Seq<char>, EntryV)>>)
    ensures
        sp_block(toks, i, ss).ss.len() >= ss.len(),
    decreases left_of(toks.len() as int, i), 0int,
{
    if kind_at(toks, i) == Some(TokenType::TokenTypeLeftCurlyBrace) {
        lemma_sp_statement_scopes(toks, i + 1, ss);
    }
}


/// The condition under which a frame lies strictly below every frame a
/// statement may rebind `n` in: it sits under the innermost frame binding
/// `n`, and under the innermost frame itself.
pub open spec fn shielded(ss: Seq<Seq<(Seq<char>, EntryV)>>, n: Seq<char>, k: int) -> bool {
    &&& 0 <= k < ss.len() - 1
    &&& (scopes_find_frame(ss, n) < 0 || k < scopes_find_frame(ss, n))
}

/// A statement never rebinds `n` in a frame that lies below the innermost
/// frame binding `n`: declarations go to the innermost frame, assignments
/// to the innermost frame that binds their own name, and a loop works in a
/// frame of its own. A successful statement also leaves the stack exactly
/// as deep as it found it.
#[verifier::rlimit(100)]
pub proof fn lemma_sp_statement_shields(
    toks: Seq<TokenV>,
    i: int,
    ss: Seq<Seq<(Seq<char>, EntryV)>>,
    n: Seq<char>,
)
    ensures
        sp_statement(toks, i, ss).ss.len() >= ss.len(),
        sp_statement(toks, i, ss).r is Ok ==> sp_statement(toks, i, ss).ss.len() == ss.len(),
        forall|k: int|
            shielded(ss, n, k) ==> k < sp_statement(toks, i, ss).ss.len() && crate::scope::frame_lookup(
                #[trigger] sp_statement(toks, i, ss).ss[k],
                n,
            ) == crate::scope::frame_lookup(ss[k], n),
    decreases left_of(toks.len() as int, i), 2int,
{
    reveal(sp_exit);
    reveal(sp_type);
    reveal(sp_vardecl);
    reveal(sp_varassign);
    crate::scope::lemma_scopes_find_frame_props(ss, n);
    match kind_at(toks, i) {
        None => {},
        Some(k) => {
            if k == TokenType::TokenTypeTypeI32S || k == TokenType::TokenTypeTypeF32S || k
                == TokenType::TokenTypeTypeBool {
                let d = sp_vardecl(toks, i, ss);
                assert(forall|m: int|
                    shielded(ss, n, m) ==> d.ss.len() > m && #[trigger] d.ss[m] == ss[m]);
            } else if k == TokenType::TokenTypeIdentifier {
                let a = sp_varassign(toks, i, ss);
                lemma_sp_varassign_len(toks, i, ss);
                assert forall|m: int| shielded(ss, n, m) implies a.ss.len() > m
                    && crate::scope::frame_lookup(#[trigger] a.ss[m], n)
                    == crate::scope::frame_lookup(ss[m], n) by {
                    lemma_sp_varassign_shields_frame(toks, i, ss, n, m);
                }
            } else if k == TokenType::TokenTypeFor {
                lemma_sp_for_shields(toks, i, ss, n);
            }
        },
    }
}

/// An assignment leaves the stack exactly as deep as it found it.
proof fn lemma_sp_varassign_len(toks: Seq<TokenV>, i: int, ss: Seq<Seq<(Seq<char>, EntryV)>>)
    ensures
        sp_varassign(toks, i, ss).ss.len() == ss.len(),
{
    reveal(sp_varassign);
    match tok_at(toks, i) {
        Some(t) if t.token_type == TokenType::TokenTypeIdentifier => {
            let va = sp_expression(toks, i + 2);
            match va.r {
                Ok(va_node) => match t.value {
                    Some(name) => match spec_bare_expr(ss, va_node) {
                        Ok(value) => {
                            crate::scope::lemma_scopes_update_len(ss, name, value);
                        },
                        _ => {},
                    },
                    _ => {},
                },
                _ => {},
            }
        },
        _ => {},
    }
}

/// One shielded frame through an assignment: either another frame was
/// updated, or the updated frame's binding of `n` was not the one touched.
proof fn lemma_sp_varassign_shields_frame(
    toks: Seq<TokenV>,
    i: int,
    ss: Seq<Seq<(Seq<char>, EntryV)>>,
    n: Seq<char>,
    m: int,
)
    requires
        shielded(ss, n, m),
    ensures
        sp_varassign(toks, i, ss).ss.len() > m,
        crate::scope::frame_lookup(sp_varassign(toks, i, ss).ss[m], n)
            == crate::scope::frame_lookup(ss[m], n),
{
    reveal(sp_varassign);
    crate::scope::lemma_scopes_find_frame_props(ss, n);
    let o = sp_varassign(toks, i, ss);
    match tok_at(toks, i) {
        Some(t) if t.token_type == TokenType::TokenTypeIdentifier => {
            let va = sp_expression(toks, i + 2);
            match va.r {
                Ok(va_node) => match t.value {
                    Some(name) => match spec_bare_expr(ss, va_node) {
                        Ok(value) => {
                            match scopes_update(ss, name, value) {
                                Some(ss2) => {
                                    crate::scope::lemma_scopes_find_frame_props(ss, name);
                                    let j = scopes_find_frame(ss, name);
                                    let f = ss[j];
                                    let kk = crate::scope::frame_find(f, name);
                                    crate::scope::lemma_frame_find_props(f, name);
                                    if j == m {
                                        if name == n {
                                            assert(scopes_find_frame(ss, n) == j);
                                            assert(!shielded(ss, n, m));
                                        } else {
                                            crate::scope::lemma_frame_update_other(
                                                f,
                                                kk,
                                                EntryV {
                                                    var_type: f[kk].1.var_type,
                                                    var_value: value,
                                                },
                                                name,
                                                n,
                                            );
                                        }
                                    } else {
                                        assert(ss2[m] == ss[m]);
                                    }
                                },
                                None => {},
                            }
                        },
                        _ => {},
                    },
                    _ => {},
                },
                _ => {},
            }
        },
        _ => {},
    }
}

/// A loop never rebinds `n` below the innermost frame that binds it, and on
/// success restores the stack's depth.
#[verifier::rlimit(100)]
pub proof fn lemma_sp_for_shields(
    toks: Seq<TokenV>,
    i: int,
    ss: Seq<Seq<(Seq<char>, EntryV)>>,
    n: Seq<char>,
)
    ensures
        sp_for(toks, i, ss).ss.len() >= ss.len(),
        sp_for(toks, i, ss).r is Ok ==> sp_for(toks, i, ss).ss.len() == ss.len(),
        forall|k: int|
            shielded(ss, n, k) ==> k < sp_for(toks, i, ss).ss.len() && crate::scope::frame_lookup(
                #[trigger] sp_for(toks, i, ss).ss[k],
                n,
            ) == crate::scope::frame_lookup(ss[k], n),
    decreases left_of(toks.len() as int, i), 1int,
{
    crate::scope::lemma_scopes_find_frame_props(ss, n);
    if kind_at(toks, i) == Some(TokenType::TokenTypeFor) {
        let id = sp_expression(toks, i + 1);
        if id.r is Ok && kind_at(toks, id.i) == Some(TokenType::TokenTypeForIn) {
            let lo = sp_expression(toks, id.i + 1);
            if lo.r is Ok && kind_at(toks, lo.i) == Some(TokenType::TokenTypeForTo) {
                let hi = sp_expression(toks, lo.i + 1);
                if hi.r is Ok && kind_at(toks, hi.i) == Some(TokenType::TokenTypeLeftCurlyBrace) {
                    let ss1 = ss.push(Seq::empty());
                    match spec_find_terminal(id.r->Ok_0) {
                        None => {},
                        Some(t) => match t.value {
                            None => {},
                            Some(name) => match spec_bare_expr(ss1, lo.r->Ok_0) {
                                Err(_) => {},
                                Ok(value) => {
                                    let entry = EntryV {
                                        var_type: Type::I32S,
                                        var_value: value,
                                    };
                                    let ss2 = scopes_insert(ss1, name, entry);
                                    assert(ss2.len() == ss.len() + 1);
                                    assert(forall|k: int|
                                        0 <= k < ss.len() ==> #[trigger] ss2[k] == ss[k]);
                                    lemma_sp_block_shields(toks, past(i, hi.i), ss2, n);
                                    let blk = sp_block(toks, past(i, hi.i), ss2);
                                    let lastf = ss2[ss.len() as int];
                                    assert(lastf =~= Seq::<(Seq<char>, EntryV)>::empty().push(
                                        (name, entry),
                                    ));
                                    assert(ss2.drop_last() =~= ss);
                                    if name == n {
                                        assert(crate::scope::frame_find(lastf, n) == 0);
                                        assert(scopes_find_frame(ss2, n) == ss.len());
                                    } else {
                                        assert(crate::scope::frame_find(lastf, n) == -1) by {
                                            reveal_with_fuel(crate::scope::frame_find, 3);
                                            assert(lastf.drop_first()
                                                =~= Seq::<(Seq<char>, EntryV)>::empty());
                                        }
                                        assert(scopes_find_frame(ss2, n) == scopes_find_frame(
                                            ss,
                                            n,
                                        ));
                                    }
                                    assert forall|k: int| shielded(ss, n, k) implies shielded(
                                        ss2,
                                        n,
                                        k,
                                    ) by {
                                    }
                                    match blk.r {
                                        Err(_) => {},
                                        Ok(_) => {
                                            assert(spec_pop(blk.ss).len() == ss.len());
                                        },
                                    }
                                },
                            },
                        },
                    }
                }
            }
        }
    }
}

/// A block shields like the statement it holds.
pub proof fn lemma_sp_block_shields(
    toks: Seq<TokenV>,
    i: int,
    ss: Seq<Seq<(Seq<char>, EntryV)>>,
    n: Seq<char>,
)
    ensures
        sp_block(toks, i, ss).ss.len() >= ss.len(),
        sp_block(toks, i, ss).r is Ok ==> sp_block(toks, i, ss).ss.len() == ss.len(),
        forall|k: int|
            shielded(ss, n, k) ==> k < sp_block(toks, i, ss).ss.len() && crate::scope::frame_lookup(
                #[trigger] sp_block(toks, i, ss).ss[k],
                n,
            ) == crate::scope::frame_lookup(ss[k], n),
    decreases left_of(toks.len() as int, i), 0int,
{
    if kind_at(toks, i) == Some(TokenType::TokenTypeLeftCurlyBrace) {
        lemma_sp_statement_shields(toks, i + 1, ss, n);
    }
}


} // verus!
