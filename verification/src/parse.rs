//! The parser and scope resolver: a single pass that builds the concrete
//! parse tree while maintaining the stack of lexical scopes, exactly as the
//! functions of [`crate::parse_spec`] define it.

use vstd::prelude::*;

use crate::ast::AbstractSyntaxTreeNode;
use crate::ast::AbstractSyntaxTreeSymbol;
use crate::ast::AstV;
use crate::ast::Expr;
use crate::ast::Type;
use crate::ast::ast_children_view;
use crate::ast::lemma_ast_children_view;
use crate::errors::AstError;
use crate::resolve::nth_with;
use crate::resolve::spec_build_ast;
use crate::resolve::spec_build_entry_children;
use crate::resolve::spec_build_found;
use crate::resolve::spec_build_found_children;
use crate::resolve::spec_literal_expr;
use crate::resolve::spec_expr_of;
use crate::resolve::binop_of;
use crate::binary32::binary32_bits;
use crate::chars::string_to_chars;
use crate::errors::ParseError;
use crate::numtext::parse_i32_chars;
use crate::parse_spec::SpEntry;
use crate::parse_spec::kind_at;
use crate::parse_spec::leaf;
use crate::parse_spec::leafv;
use crate::parse_spec::node;
use crate::parse_spec::past;
use crate::parse_spec::sp_add;
use crate::parse_spec::sp_add_rest;
use crate::parse_spec::sp_block;
use crate::parse_spec::sp_cmp_rest;
use crate::parse_spec::sp_comparison;
use crate::parse_spec::sp_entry;
use crate::parse_spec::sp_entry_loop;
use crate::parse_spec::sp_eq_rest;
use crate::parse_spec::sp_equality;
use crate::parse_spec::sp_exit;
use crate::parse_spec::sp_expression;
use crate::parse_spec::sp_for;
use crate::parse_spec::sp_primary;
use crate::parse_spec::sp_statement;
use crate::parse_spec::sp_type;
use crate::parse_spec::sp_varassign;
use crate::parse_spec::sp_vardecl;
use crate::parse_spec::spec_pop;
use crate::parse_spec::tok_at;
use crate::parse_spec::lemma_sp_comparison_advances;
use crate::parse_spec::lemma_sp_add_advances;
use crate::parse_spec::lemma_sp_primary_advances;
use crate::parse_spec::lemma_sp_expression_advances;
use crate::parse_spec::lemma_sp_statement_advances;
use crate::parse_spec::lemma_sp_statement_scopes;
use crate::resolve::is_valued_terminal;
use crate::resolve::spec_bare_expr;
use crate::resolve::spec_find_terminal;
use crate::resolve::spec_match_type;
use crate::scope::EntryV;
use crate::scope::frame_find;
use crate::scope::lemma_frame_find_props;
use crate::scope::lemma_scopes_find_frame_props;
use crate::scope::scopes_find_frame;
use crate::scope::scopes_insert;
use crate::scope::scopes_lookup;
use crate::scope::scopes_update;
use crate::tokenize::Token;
use crate::tokenize::TokenType;
use crate::tokenize::TokenV;
use crate::tokenize::toks_view;
use crate::tree::ParseTreeNode;
use crate::tree::ParseTreeSymbol;
use crate::tree::PtV;
use crate::tree::lemma_pt_children_view;
use crate::tree::pt_children_view;
use crate::tree::pt_view;

verus! {

broadcast use lemma_pt_children_view;

/// A scope entry: the declared type and the most recently captured value
/// expression of one variable.
pub(crate) struct VarEntry {
    pub(crate) var_type: Type,
    pub(crate) var_value: Expr,
}

/// The image of a scope entry.
pub(crate) open spec fn entry_view(e: VarEntry) -> EntryV {
    EntryV { var_type: e.var_type, var_value: e.var_value@ }
}

/// The image of one scope frame.
pub(crate) open spec fn frame_view(f: Seq<(String, VarEntry)>) -> Seq<(Seq<char>, EntryV)> {
    Seq::new(f.len(), |k: int| (f[k].0@, entry_view(f[k].1)))
}

/// The image of the scope stack.
pub(crate) open spec fn scopes_view(s: Seq<Vec<(String, VarEntry)>>) -> Seq<
    Seq<(Seq<char>, EntryV)>,
> {
    Seq::new(s.len(), |k: int| frame_view(s[k]@))
}

/// Mathematical image of a [`Parser`]: the token images, the position, and
/// the scope stack.
pub struct ParserV {
    pub tokens: Seq<TokenV>,
    pub index: int,
    pub scopes: Seq<Seq<(Seq<char>, EntryV)>>,
}

/// Consumes a token sequence, building the concrete parse tree and the
/// scope stack together.
pub struct Parser {
    tokens: Vec<Token>,
    token_index: usize,
    scopes: Vec<Vec<(String, VarEntry)>>,
}

impl View for Parser {
    type V = ParserV;

    closed spec fn view(&self) -> ParserV {
        ParserV {
            tokens: toks_view(self.tokens@),
            index: self.token_index as int,
            scopes: scopes_view(self.scopes@),
        }
    }
}

/// The text of an optional string, as a character sequence.
pub open spec fn opt_text(v: Option<String>) -> Option<Seq<char>> {
    match v {
        Some(s) => Some(s@),
        None => None,
    }
}

/// Clones a terminal's optional text.
fn clone_value(v: &Option<String>) -> (r: Option<String>)
    ensures
        opt_text(r) == opt_text(*v),
{
    match v {
        Some(s) => Some(s.clone()),
        None => None,
    }
}

/// A childless tree node.
fn leaf_node(sym: ParseTreeSymbol) -> (r: ParseTreeNode)
    ensures
        r@ == leaf(sym),
{
    let r = ParseTreeNode { symbol: sym, children: Vec::new(), value: None };
    proof {
        lemma_pt_children_view(r.children@);
        assert(r@.children =~= leaf(sym).children);
    }
    r
}

/// A childless tree node carrying text.
fn leaf_node_v(sym: ParseTreeSymbol, value: Option<String>) -> (r: ParseTreeNode)
    ensures
        r@ == leafv(sym, opt_text(value)),
{
    let ghost vv = opt_text(value);
    let r = ParseTreeNode { symbol: sym, children: Vec::new(), value };
    proof {
        lemma_pt_children_view(r.children@);
        assert(r@.children =~= leafv(sym, vv).children);
    }
    r
}

/// An inner node with one child.
fn node1(sym: ParseTreeSymbol, a: ParseTreeNode) -> (r: ParseTreeNode)
    ensures
        r@ == node(sym, seq![a@]),
{
    let ghost av = a@;
    let mut children: Vec<ParseTreeNode> = Vec::new();
    children.push(a);
    let r = ParseTreeNode { symbol: sym, children, value: None };
    proof {
        lemma_pt_children_view(r.children@);
        assert(r@.children =~= seq![av]);
    }
    r
}

/// An inner node with three children.
fn node3(sym: ParseTreeSymbol, a: ParseTreeNode, b: ParseTreeNode, c: ParseTreeNode) -> (r:
    ParseTreeNode)
    ensures
        r@ == node(sym, seq![a@, b@, c@]),
{
    let ghost av = a@;
    let ghost bv = b@;
    let ghost cv = c@;
    let mut children: Vec<ParseTreeNode> = Vec::new();
    children.push(a);
    children.push(b);
    children.push(c);
    let r = ParseTreeNode { symbol: sym, children, value: None };
    proof {
        lemma_pt_children_view(r.children@);
        assert(r@.children =~= seq![av, bv, cv]);
    }
    r
}

/// An inner node with four children.
fn node4(
    sym: ParseTreeSymbol,
    a: ParseTreeNode,
    b: ParseTreeNode,
    c: ParseTreeNode,
    d: ParseTreeNode,
) -> (r: ParseTreeNode)
    ensures
        r@ == node(sym, seq![a@, b@, c@, d@]),
{
    let ghost av = a@;
    let ghost bv = b@;
    let ghost cv = c@;
    let ghost dv = d@;
    let mut children: Vec<ParseTreeNode> = Vec::new();
    children.push(a);
    children.push(b);
    children.push(c);
    children.push(d);
    let r = ParseTreeNode { symbol: sym, children, value: None };
    proof {
        lemma_pt_children_view(r.children@);
        assert(r@.children =~= seq![av, bv, cv, dv]);
    }
    r
}

/// An inner node with five children.
fn node5(
    sym: ParseTreeSymbol,
    a: ParseTreeNode,
    b: ParseTreeNode,
    c: ParseTreeNode,
    d: ParseTreeNode,
    e: ParseTreeNode,
) -> (r: ParseTreeNode)
    ensures
        r@ == node(sym, seq![a@, b@, c@, d@, e@]),
{
    let ghost av = a@;
    let ghost bv = b@;
    let ghost cv = c@;
    let ghost dv = d@;
    let ghost ev = e@;
    let mut children: Vec<ParseTreeNode> = Vec::new();
    children.push(a);
    children.push(b);
    children.push(c);
    children.push(d);
    children.push(e);
    let r = ParseTreeNode { symbol: sym, children, value: None };
    proof {
        lemma_pt_children_view(r.children@);
        assert(r@.children =~= seq![av, bv, cv, dv, ev]);
    }
    r
}

/// An inner node with seven children.
fn node7(
    sym: ParseTreeSymbol,
    a: ParseTreeNode,
    b: ParseTreeNode,
    c: ParseTreeNode,
    d: ParseTreeNode,
    e: ParseTreeNode,
    f: ParseTreeNode,
    g: ParseTreeNode,
) -> (r: ParseTreeNode)
    ensures
        r@ == node(sym, seq![a@, b@, c@, d@, e@, f@, g@]),
{
    let ghost av = a@;
    let ghost bv = b@;
    let ghost cv = c@;
    let ghost dv = d@;
    let ghost ev = e@;
    let ghost fv = f@;
    let ghost gv = g@;
    let mut children: Vec<ParseTreeNode> = Vec::new();
    children.push(a);
    children.push(b);
    children.push(c);
    children.push(d);
    children.push(e);
    children.push(f);
    children.push(g);
    let r = ParseTreeNode { symbol: sym, children, value: None };
    proof {
        lemma_pt_children_view(r.children@);
        assert(r@.children =~= seq![av, bv, cv, dv, ev, fv, gv]);
    }
    r
}

/// The binary operator a parsed operator terminal stands for.
fn binop_terminal(s: ParseTreeSymbol) -> (r: Option<crate::ast::BinOpType>)
    ensures
        r == binop_of(s),
{
    match s {
        ParseTreeSymbol::ParseTreeSymbolTerminalPlus => Some(crate::ast::BinOpType::Add),
        ParseTreeSymbol::ParseTreeSymbolTerminalMinus => Some(crate::ast::BinOpType::Subtract),
        ParseTreeSymbol::ParseTreeSymbolTerminalLessThan => Some(crate::ast::BinOpType::LessThan),
        ParseTreeSymbol::ParseTreeSymbolTerminalLessThanOrEqual => Some(
            crate::ast::BinOpType::LessThanOrEqual,
        ),
        ParseTreeSymbol::ParseTreeSymbolTerminalGreaterThan => Some(
            crate::ast::BinOpType::GreaterThan,
        ),
        ParseTreeSymbol::ParseTreeSymbolTerminalGreaterThanOrEqual => Some(
            crate::ast::BinOpType::GreaterThanOrEqual,
        ),
        ParseTreeSymbol::ParseTreeSymbolTerminalEqualsEquals => Some(crate::ast::BinOpType::Equal),
        ParseTreeSymbol::ParseTreeSymbolTerminalNotEquals => Some(crate::ast::BinOpType::NotEqual),
        _ => None,
    }
}

/// Whether the symbol is a terminal carrying text.
fn valued_terminal(s: ParseTreeSymbol) -> (r: bool)
    ensures
        r == is_valued_terminal(s),
{
    match s {
        ParseTreeSymbol::ParseTreeSymbolTerminalIntegerLiteral => true,
        ParseTreeSymbol::ParseTreeSymbolTerminalFloatLiteral => true,
        ParseTreeSymbol::ParseTreeSymbolTerminalBooleanLiteral => true,
        ParseTreeSymbol::ParseTreeSymbolTerminalIdentifier => true,
        _ => false,
    }
}

impl Parser {
    /// A parser at the start of the token sequence, with the program's one
    /// outermost scope frame open.
    pub fn new(tokens: Vec<Token>) -> (r: Self)
        ensures
            r@.tokens == toks_view(tokens@),
            r@.index == 0,
            r@.scopes == seq![Seq::<(Seq<char>, EntryV)>::empty()],
    {
        let mut scopes: Vec<Vec<(String, VarEntry)>> = Vec::new();
        scopes.push(Vec::new());
        let r = Self { tokens, token_index: 0, scopes };
        proof {
            assert(frame_view(Seq::<(String, VarEntry)>::empty()) =~= Seq::<(
                Seq<char>,
                EntryV,
            )>::empty());
            assert(r@.scopes =~= seq![Seq::<(Seq<char>, EntryV)>::empty()]);
        }
        r
    }

    /// Whether every token has been consumed.
    fn is_at_end(&self) -> (r: bool)
        ensures
            r == (self@.index >= self@.tokens.len()),
    {
        proof {
            assert(self@.tokens.len() == self.tokens@.len());
        }
        self.token_index >= self.tokens.len()
    }

    /// The token at the position, if any is left.
    fn current(&self) -> (r: Option<&Token>)
        ensures
            match r {
                Some(t) => tok_at(self@.tokens, self@.index) == Some((*t)@),
                None => tok_at(self@.tokens, self@.index) is None,
            },
    {
        if self.token_index < self.tokens.len() {
            Some(&self.tokens[self.token_index])
        } else {
            None
        }
    }

    /// The kind of the token at the position, if any is left.
    fn peek_kind(&self) -> (r: Option<TokenType>)
        ensures
            r == kind_at(self@.tokens, self@.index),
    {
        match self.current() {
            Some(t) => Some(t.token_type),
            None => None,
        }
    }

    /// Advances past the token at the position.
    fn consume(&mut self)
        requires
            old(self)@.index < old(self)@.tokens.len(),
        ensures
            final(self)@.tokens == old(self)@.tokens,
            final(self)@.scopes == old(self)@.scopes,
            final(self)@.index == old(self)@.index + 1,
    {
        proof {
            assert(self.tokens.len() == self.tokens@.len());
        }
        self.token_index += 1;
    }

    /// Opens a new innermost scope frame.
    fn push_scope(&mut self)
        ensures
            final(self)@.tokens == old(self)@.tokens,
            final(self)@.index == old(self)@.index,
            final(self)@.scopes == old(self)@.scopes.push(Seq::<(Seq<char>, EntryV)>::empty()),
    {
        self.scopes.push(Vec::new());
        proof {
            assert(frame_view(Seq::<(String, VarEntry)>::empty()) =~= Seq::<(
                Seq<char>,
                EntryV,
            )>::empty());
            assert(scopes_view(self.scopes@) =~= scopes_view(old(self).scopes@).push(
                Seq::<(Seq<char>, EntryV)>::empty(),
            ));
        }
    }

    /// Discards the innermost scope frame, if one is open.
    fn pop_scope(&mut self)
        ensures
            final(self)@.tokens == old(self)@.tokens,
            final(self)@.index == old(self)@.index,
            final(self)@.scopes == spec_pop(old(self)@.scopes),
    {
        let r = self.scopes.pop();
        proof {
            if old(self).scopes@.len() == 0 {
                assert(scopes_view(self.scopes@) =~= scopes_view(old(self).scopes@));
            } else {
                assert(scopes_view(self.scopes@) =~= scopes_view(old(self).scopes@).drop_last());
            }
        }
    }

    /// The position of `name` in one frame, scanning from the front.
    fn frame_scan(f: &Vec<(String, VarEntry)>, name: &String) -> (r: Option<usize>)
        ensures
            match r {
                Some(j) => j < f@.len() && frame_find(frame_view(f@), name@) == j,
                None => frame_find(frame_view(f@), name@) == -1,
            },
    {
        let ghost fv = frame_view(f@);
        let mut j: usize = 0;
        while j < f.len()
            invariant
                j <= f@.len(),
                fv == frame_view(f@),
                forall|k: int| 0 <= k < j ==> fv[k].0 != name@,
            decreases f@.len() - j,
        {
            if f[j].0 == *name {
                proof {
                    lemma_frame_find_props(fv, name@);
                    assert(fv[j as int].0 == name@);
                }
                return Some(j);
            }
            j += 1;
        }
        proof {
            lemma_frame_find_props(fv, name@);
        }
        None
    }

    /// Lexical lookup: walks the frames from innermost to outermost and
    /// returns the first entry bound to `name`.
    fn lookup_in_scope(&self, name: &String) -> (r: Option<&VarEntry>)
        ensures
            match r {
                Some(e) => scopes_lookup(self@.scopes, name@) == Some(entry_view(*e)),
                None => scopes_lookup(self@.scopes, name@) is None,
            },
    {
        let ghost sv = self@.scopes;
        let mut i: usize = self.scopes.len();
        while i > 0
            invariant
                i <= self.scopes@.len(),
                sv == scopes_view(self.scopes@),
                forall|k: int| i <= k < sv.len() ==> frame_find(sv[k], name@) == -1,
            decreases i,
        {
            i -= 1;
            match Self::frame_scan(&self.scopes[i], name) {
                Some(j) => {
                    proof {
                        lemma_scopes_find_frame_props(sv, name@);
                        assert(frame_find(sv[i as int], name@) == j);
                        assert(scopes_find_frame(sv, name@) == i);
                    }
                    return Some(&self.scopes[i][j].1);
                },
                None => {},
            }
        }
        proof {
            lemma_scopes_find_frame_props(sv, name@);
        }
        None
    }

    /// Declaration: binds `name` in the innermost frame, overwriting any
    /// binding the frame already holds for it.
    fn insert_in_scope(&mut self, name: String, entry: VarEntry)
        requires
            old(self)@.scopes.len() > 0,
        ensures
            final(self)@.tokens == old(self)@.tokens,
            final(self)@.index == old(self)@.index,
            final(self)@.scopes == scopes_insert(old(self)@.scopes, name@, entry_view(entry)),
    {
        let ghost sv = self@.scopes;
        let ghost nv = name@;
        let ghost ev = entry_view(entry);
        let li = self.scopes.len() - 1;
        match Self::frame_scan(&self.scopes[li], &name) {
            Some(j) => {
                self.scopes[li][j] = (name, entry);
                proof {
                    assert(frame_view(self.scopes@[li as int]@) =~= frame_view(
                        old(self).scopes@[li as int]@,
                    ).update(j as int, (nv, ev)));
                    assert(scopes_view(self.scopes@) =~= scopes_insert(sv, nv, ev));
                }
            },
            None => {
                self.scopes[li].push((name, entry));
                proof {
                    assert(frame_view(self.scopes@[li as int]@) =~= frame_view(
                        old(self).scopes@[li as int]@,
                    ).push((nv, ev)));
                    assert(scopes_view(self.scopes@) =~= scopes_insert(sv, nv, ev));
                }
            },
        }
    }

    /// Assignment: overwrites the value of `name` in the innermost frame
    /// that binds it, keeping the declared type; fails when no frame binds
    /// it.
    fn update_in_scope(&mut self, name: &String, value: Expr) -> (r: Result<(), ParseError>)
        ensures
            final(self)@.tokens == old(self)@.tokens,
            final(self)@.index == old(self)@.index,
            match scopes_update(old(self)@.scopes, name@, value@) {
                Some(ss2) => r is Ok && final(self)@.scopes == ss2,
                None => r is Err && r == Err::<(), ParseError>(ParseError::UndefinedVariable)
                    && final(self)@.scopes == old(self)@.scopes,
            },
    {
        let ghost sv = self@.scopes;
        let ghost nv = name@;
        let ghost vv = value@;
        let mut i: usize = self.scopes.len();
        while i > 0
            invariant
                i <= self.scopes@.len(),
                sv == scopes_view(self.scopes@),
                self.tokens == old(self).tokens,
                self.token_index == old(self).token_index,
                self.scopes == old(self).scopes,
                nv == name@,
                vv == value@,
                forall|k: int| i <= k < sv.len() ==> frame_find(sv[k], nv) == -1,
            decreases i,
        {
            i -= 1;
            match Self::frame_scan(&self.scopes[i], name) {
                Some(j) => {
                    proof {
                        assert(sv[i as int] == frame_view(self.scopes@[i as int]@));
                        assert(frame_find(frame_view(self.scopes@[i as int]@), nv) == j);
                        assert(frame_find(sv[i as int], nv) == j);
                        lemma_scopes_find_frame_props(sv, nv);
                        assert(scopes_find_frame(sv, nv) == i);
                    }
                    let ty = self.scopes[i][j].1.var_type;
                    self.scopes[i][j] = (name.clone(), VarEntry { var_type: ty, var_value: value });
                    proof {
                        lemma_frame_find_props(sv[i as int], nv);
                        assert(sv[i as int][j as int].0 == nv);
                        assert(frame_view(self.scopes@[i as int]@) =~= sv[i as int].update(
                            j as int,
                            (nv, EntryV { var_type: sv[i as int][j as int].1.var_type, var_value: vv }),
                        ));
                        assert(scopes_view(self.scopes@) =~= sv.update(
                            i as int,
                            sv[i as int].update(
                                j as int,
                                (
                                    nv,
                                    EntryV {
                                        var_type: sv[i as int][j as int].1.var_type,
                                        var_value: vv,
                                    },
                                ),
                            ),
                        ));
                    }
                    return Ok(());
                },
                None => {},
            }
        }
        proof {
            lemma_scopes_find_frame_props(sv, nv);
        }
        Err(ParseError::UndefinedVariable)
    }
}

impl Parser {
    /// Walks first children until a literal or identifier terminal appears.
    fn find_terminal<'a>(&self, node: &'a ParseTreeNode) -> (r: Option<&'a ParseTreeNode>)
        ensures
            match r {
                Some(t) => spec_find_terminal(node@) == Some(pt_view(*t)),
                None => spec_find_terminal(node@) is None,
            },
        decreases *node,
    {
        if valued_terminal(node.symbol) {
            Some(node)
        } else if node.children.len() > 0 {
            let r = self.find_terminal(&node.children[0]);
            proof {
                lemma_pt_children_view(node.children@);
                assert(node@.children[0] == pt_view(node.children@[0]));
            }
            r
        } else {
            None
        }
    }

    /// The type a type node names.
    fn match_type_in_scope(&self, node: &ParseTreeNode) -> (r: Option<Type>)
        ensures
            r == spec_match_type(node@),
    {
        if node.children.len() > 0 {
            proof {
                lemma_pt_children_view(node.children@);
                assert(node@.children[0] == pt_view(node.children@[0]));
            }
            match node.children[0].symbol {
                ParseTreeSymbol::ParseTreeSymbolTerminalI32S => Some(Type::I32S),
                ParseTreeSymbol::ParseTreeSymbolTerminalF32S => Some(Type::F32S),
                ParseTreeSymbol::ParseTreeSymbolTerminalBool => Some(Type::Bool),
                _ => None,
            }
        } else {
            proof {
                lemma_pt_children_view(node.children@);
            }
            None
        }
    }

    /// The resolver's reading of an initializer or loop bound: a bare
    /// literal's value, or a reference to an already-declared identifier.
    /// Anything else — in particular a full binary expression — fails
    /// explicitly.
    fn match_expression_in_scope(&self, node: &ParseTreeNode) -> (r: Result<Expr, ParseError>)
        ensures
            match r {
                Ok(v) => spec_bare_expr(self@.scopes, node@) == Ok::<crate::ast::ExprV,
                    ParseError,
                >(v@),
                Err(e) => spec_bare_expr(self@.scopes, node@) == Err::<crate::ast::ExprV,
                    ParseError,
                >(e),
            },
    {
        proof {
            lemma_pt_children_view(node.children@);
        }
        if !(match node.symbol {
            ParseTreeSymbol::ParseTreeSymbolNodeExpression => true,
            _ => false,
        } && node.children.len() == 1) {
            return Err(ParseError::UnsupportedInitializer);
        }
        proof {
            assert(node@.children[0] == pt_view(node.children@[0]));
        }
        let primary = &node.children[0];
        proof {
            lemma_pt_children_view(primary.children@);
        }
        if !(match primary.symbol {
            ParseTreeSymbol::ParseTreeSymbolNodePrimary => true,
            _ => false,
        } && primary.children.len() == 1) {
            return Err(ParseError::UnsupportedInitializer);
        }
        proof {
            lemma_pt_children_view(primary.children@);
            assert(primary@.children[0] == pt_view(primary.children@[0]));
        }
        let t = &primary.children[0];
        if !valued_terminal(t.symbol) {
            return Err(ParseError::UnsupportedInitializer);
        }
        match &t.value {
            None => Err(ParseError::MissingValue),
            Some(text) => {
                let chars = string_to_chars(text.as_str());
                match t.symbol {
                    ParseTreeSymbol::ParseTreeSymbolTerminalIntegerLiteral => {
                        match parse_i32_chars(&chars) {
                            Some(v) => Ok(Expr::Int(v)),
                            None => Err(ParseError::BadIntegerLiteral),
                        }
                    },
                    ParseTreeSymbol::ParseTreeSymbolTerminalFloatLiteral => {
                        match binary32_bits(&chars) {
                            Some(bits) => Ok(Expr::Float(bits)),
                            None => Err(ParseError::BadFloatLiteral),
                        }
                    },
                    ParseTreeSymbol::ParseTreeSymbolTerminalBooleanLiteral => {
                        if chars.len() == 4 && chars[0] == 't' && chars[1] == 'r' && chars[2] == 'u'
                            && chars[3] == 'e' {
                            proof {
                                assert(text@ =~= seq!['t', 'r', 'u', 'e']);
                            }
                            Ok(Expr::Bool(true))
                        } else if chars.len() == 5 && chars[0] == 'f' && chars[1] == 'a' && chars[2]
                            == 'l' && chars[3] == 's' && chars[4] == 'e' {
                            proof {
                                assert(text@ =~= seq!['f', 'a', 'l', 's', 'e']);
                            }
                            Ok(Expr::Bool(false))
                        } else {
                            proof {
                                if text@ == seq!['t', 'r', 'u', 'e'] {
                                    assert(chars@ == seq!['t', 'r', 'u', 'e']);
                                }
                                if text@ == seq!['f', 'a', 'l', 's', 'e'] {
                                    assert(chars@ == seq!['f', 'a', 'l', 's', 'e']);
                                }
                            }
                            Err(ParseError::BadBooleanLiteral)
                        }
                    },
                    _ => {
                        match self.lookup_in_scope(text) {
                            Some(_) => Ok(Expr::Ident(text.clone())),
                            None => Err(ParseError::UndefinedVariable),
                        }
                    },
                }
            },
        }
    }

    /// Primary → literal | identifier | `(` Equality `)`.
    fn parse_primary(&mut self) -> (r: Result<ParseTreeNode, ParseError>)
        ensures
            ({
                let o = sp_primary(old(self)@.tokens, old(self)@.index);
                &&& final(self)@.tokens == old(self)@.tokens
                &&& final(self)@.scopes == old(self)@.scopes
                &&& final(self)@.index == o.i
                &&& match r {
                    Ok(n) => o.r == Ok::<PtV, ParseError>(n@),
                    Err(e) => o.r == Err::<PtV, ParseError>(e),
                }
            }),
        decreases left_of_parser(*old(self)), 0int,
    {
        let (kind, val) = match self.current() {
            None => (None, None),
            Some(t) => (Some(t.token_type), clone_value(&t.value)),
        };
        match kind {
            None => Err(ParseError::UnexpectedPrimary(None)),
            Some(k) => {
                if matches!(k, TokenType::TokenTypeIntegerLiteral) {
                    let child = leaf_node_v(
                        ParseTreeSymbol::ParseTreeSymbolTerminalIntegerLiteral,
                        val,
                    );
                    self.consume();
                    Ok(node1(ParseTreeSymbol::ParseTreeSymbolNodePrimary, child))
                } else if matches!(k, TokenType::TokenTypeFloatLiteral) {
                    let child = leaf_node_v(
                        ParseTreeSymbol::ParseTreeSymbolTerminalFloatLiteral,
                        val,
                    );
                    self.consume();
                    Ok(node1(ParseTreeSymbol::ParseTreeSymbolNodePrimary, child))
                } else if matches!(k, TokenType::TokenTypeBooleanLiteral) {
                    let child = leaf_node_v(
                        ParseTreeSymbol::ParseTreeSymbolTerminalBooleanLiteral,
                        val,
                    );
                    self.consume();
                    Ok(node1(ParseTreeSymbol::ParseTreeSymbolNodePrimary, child))
                } else if matches!(k, TokenType::TokenTypeIdentifier) {
                    let child = leaf_node_v(
                        ParseTreeSymbol::ParseTreeSymbolTerminalIdentifier,
                        val,
                    );
                    self.consume();
                    Ok(node1(ParseTreeSymbol::ParseTreeSymbolNodePrimary, child))
                } else if matches!(k, TokenType::TokenTypeLeftParen) {
                    let left_paren = leaf_node(ParseTreeSymbol::ParseTreeSymbolTerminalLeftParen);
                    self.consume();
                    let content = match self.parse_equality() {
                        Ok(n) => n,
                        Err(e) => {
                            return Err(e);
                        },
                    };
                    let expr = node1(ParseTreeSymbol::ParseTreeSymbolNodeExpression, content);
                    let close_ok = match self.peek_kind() {
                        Some(TokenType::TokenTypeRightParen) => true,
                        _ => false,
                    };
                    if !close_ok {
                        return Err(
                            ParseError::ExpectedToken {
                                expected: TokenType::TokenTypeRightParen,
                                found: self.peek_kind(),
                            },
                        );
                    }
                    let right_paren = leaf_node(ParseTreeSymbol::ParseTreeSymbolTerminalRightParen);
                    self.consume();
                    Ok(node3(ParseTreeSymbol::ParseTreeSymbolNodePrimary, left_paren, expr, right_paren))
                } else {
                    Err(ParseError::UnexpectedPrimary(Some(k)))
                }
            },
        }
    }

    /// Add → Primary ((`+` | `-`) Primary)*, left-associative.
    #[verifier::loop_isolation(false)]
    fn parse_add(&mut self) -> (r: Result<ParseTreeNode, ParseError>)
        ensures
            ({
                let o = sp_add(old(self)@.tokens, old(self)@.index);
                &&& final(self)@.tokens == old(self)@.tokens
                &&& final(self)@.scopes == old(self)@.scopes
                &&& final(self)@.index == o.i
                &&& match r {
                    Ok(n) => o.r == Ok::<PtV, ParseError>(n@),
                    Err(e) => o.r == Err::<PtV, ParseError>(e),
                }
            }),
        decreases left_of_parser(*old(self)), 1int,
    {
        let ghost toks = self@.tokens;
        let ghost i0 = self@.index;
        let mut left = match self.parse_primary() {
            Ok(n) => n,
            Err(e) => {
                return Err(e);
            },
        };
        proof {
            lemma_sp_primary_advances(toks, i0);
        }
        loop
            invariant
                self@.tokens == toks,
                self@.scopes == old(self)@.scopes,
                i0 < self@.index,
                sp_add_rest(toks, self@.index, left@) == sp_add(toks, i0),
            decreases crate::parse_spec::left_of(toks.len() as int, self@.index),
        {
            let k = self.peek_kind();
            let is_plus = matches!(k, Some(TokenType::TokenTypePlus));
            let is_minus = matches!(k, Some(TokenType::TokenTypeMinus));
            if !(is_plus || is_minus) {
                break ;
            }
            let ghost iop = self@.index;
            let op_terminal = if is_plus {
                leaf_node(ParseTreeSymbol::ParseTreeSymbolTerminalPlus)
            } else {
                leaf_node(ParseTreeSymbol::ParseTreeSymbolTerminalMinus)
            };
            self.consume();
            let right = match self.parse_primary() {
                Ok(n) => n,
                Err(e) => {
                    return Err(e);
                },
            };
            proof {
                lemma_sp_primary_advances(toks, iop + 1);
            }
            left = node3(ParseTreeSymbol::ParseTreeSymbolNodeAdd, left, op_terminal, right);
        }
        Ok(left)
    }

    /// Comparison → Add ((`<` | `<=` | `>` | `>=`) Add)*, left-associative.
    #[verifier::loop_isolation(false)]
    fn parse_comparison(&mut self) -> (r: Result<ParseTreeNode, ParseError>)
        ensures
            ({
                let o = sp_comparison(old(self)@.tokens, old(self)@.index);
                &&& final(self)@.tokens == old(self)@.tokens
                &&& final(self)@.scopes == old(self)@.scopes
                &&& final(self)@.index == o.i
                &&& match r {
                    Ok(n) => o.r == Ok::<PtV, ParseError>(n@),
                    Err(e) => o.r == Err::<PtV, ParseError>(e),
                }
            }),
        decreases left_of_parser(*old(self)), 2int,
    {
        let ghost toks = self@.tokens;
        let ghost i0 = self@.index;
        let mut left = match self.parse_add() {
            Ok(n) => n,
            Err(e) => {
                return Err(e);
            },
        };
        proof {
            lemma_sp_add_advances(toks, i0);
        }
        loop
            invariant
                self@.tokens == toks,
                self@.scopes == old(self)@.scopes,
                i0 < self@.index,
                sp_cmp_rest(toks, self@.index, left@) == sp_comparison(toks, i0),
            decreases crate::parse_spec::left_of(toks.len() as int, self@.index),
        {
            let k = self.peek_kind();
            let sym = if matches!(k, Some(TokenType::TokenTypeLessThan)) {
                Some(ParseTreeSymbol::ParseTreeSymbolTerminalLessThan)
            } else if matches!(k, Some(TokenType::TokenTypeLessThanOrEqual)) {
                Some(ParseTreeSymbol::ParseTreeSymbolTerminalLessThanOrEqual)
            } else if matches!(k, Some(TokenType::TokenTypeGreaterThan)) {
                Some(ParseTreeSymbol::ParseTreeSymbolTerminalGreaterThan)
            } else if matches!(k, Some(TokenType::TokenTypeGreaterThanOrEqual)) {
                Some(ParseTreeSymbol::ParseTreeSymbolTerminalGreaterThanOrEqual)
            } else {
                None
            };
            let op_terminal = match sym {
                Some(s) => leaf_node(s),
                None => {
                    break ;
                },
            };
            let ghost iop = self@.index;
            self.consume();
            let right = match self.parse_add() {
                Ok(n) => n,
                Err(e) => {
                    return Err(e);
                },
            };
            proof {
                lemma_sp_add_advances(toks, iop + 1);
            }
            left = node3(ParseTreeSymbol::ParseTreeSymbolNodeComparison, left, op_terminal, right);
        }
        Ok(left)
    }

    /// Equality → Comparison ((`==` | `!=`) Comparison)*, left-associative.
    #[verifier::loop_isolation(false)]
    fn parse_equality(&mut self) -> (r: Result<ParseTreeNode, ParseError>)
        ensures
            ({
                let o = sp_equality(old(self)@.tokens, old(self)@.index);
                &&& final(self)@.tokens == old(self)@.tokens
                &&& final(self)@.scopes == old(self)@.scopes
                &&& final(self)@.index == o.i
                &&& match r {
                    Ok(n) => o.r == Ok::<PtV, ParseError>(n@),
                    Err(e) => o.r == Err::<PtV, ParseError>(e),
                }
            }),
        decreases left_of_parser(*old(self)), 4int,
    {
        let ghost toks = self@.tokens;
        let ghost i0 = self@.index;
        let mut left = match self.parse_comparison() {
            Ok(n) => n,
            Err(e) => {
                return Err(e);
            },
        };
        proof {
            lemma_sp_comparison_advances(toks, i0);
        }
        loop
            invariant
                self@.tokens == toks,
                self@.scopes == old(self)@.scopes,
                i0 < self@.index,
                sp_eq_rest(toks, self@.index, left@) == sp_equality(toks, i0),
            decreases crate::parse_spec::left_of(toks.len() as int, self@.index),
        {
            let k = self.peek_kind();
            let is_eq = matches!(k, Some(TokenType::TokenTypeEqualsEquals));
            let is_ne = matches!(k, Some(TokenType::TokenTypeNotEquals));
            if !(is_eq || is_ne) {
                break ;
            }
            let ghost iop = self@.index;
            let op_terminal = if is_eq {
                leaf_node(ParseTreeSymbol::ParseTreeSymbolTerminalEqualsEquals)
            } else {
                leaf_node(ParseTreeSymbol::ParseTreeSymbolTerminalNotEquals)
            };
            self.consume();
            let right = match self.parse_comparison() {
                Ok(n) => n,
                Err(e) => {
                    return Err(e);
                },
            };
            proof {
                lemma_sp_comparison_advances(toks, iop + 1);
            }
            left = node3(ParseTreeSymbol::ParseTreeSymbolNodeEquality, left, op_terminal, right);
        }
        Ok(left)
    }

    /// Expression → Equality, wrapped in an expression node.
    fn parse_expression(&mut self) -> (r: Result<ParseTreeNode, ParseError>)
        ensures
            ({
                let o = sp_expression(old(self)@.tokens, old(self)@.index);
                &&& final(self)@.tokens == old(self)@.tokens
                &&& final(self)@.scopes == old(self)@.scopes
                &&& final(self)@.index == o.i
                &&& match r {
                    Ok(n) => o.r == Ok::<PtV, ParseError>(n@),
                    Err(e) => o.r == Err::<PtV, ParseError>(e),
                }
            }),
        decreases left_of_parser(*old(self)), 5int,
    {
        match self.parse_equality() {
            Err(e) => Err(e),
            Ok(content) => Ok(node1(ParseTreeSymbol::ParseTreeSymbolNodeExpression, content)),
        }
    }
}

/// The tokens not yet consumed: the measure of the parser's recursion.
pub open spec fn left_of_parser(p: Parser) -> nat {
    crate::parse_spec::left_of(p@.tokens.len() as int, p@.index)
}


impl Parser {
    /// Exit → `exit` Expression `;`.
    fn parse_exit(&mut self) -> (r: Result<ParseTreeNode, ParseError>)
        requires
            old(self)@.index < old(self)@.tokens.len(),
        ensures
            ({
                let o = sp_exit(old(self)@.tokens, old(self)@.index);
                &&& final(self)@.tokens == old(self)@.tokens
                &&& final(self)@.scopes == old(self)@.scopes
                &&& final(self)@.index == o.i
                &&& match r {
                    Ok(n) => o.r == Ok::<PtV, ParseError>(n@),
                    Err(e) => o.r == Err::<PtV, ParseError>(e),
                }
            }),
    {
        proof {
            reveal(sp_exit);
        }
        let exit_terminal = leaf_node(ParseTreeSymbol::ParseTreeSymbolTerminalExit);
        self.consume();
        let expr_node = match self.parse_expression() {
            Ok(n) => n,
            Err(e) => {
                return Err(e);
            },
        };
        let semi_here = match self.peek_kind() {
            Some(TokenType::TokenTypeSemicolon) => true,
            _ => false,
        };
        if !semi_here {
            return Err(
                ParseError::ExpectedToken {
                    expected: TokenType::TokenTypeSemicolon,
                    found: self.peek_kind(),
                },
            );
        }
        let semi_terminal = leaf_node(ParseTreeSymbol::ParseTreeSymbolTerminalSemicolon);
        self.consume();
        Ok(node3(ParseTreeSymbol::ParseTreeSymbolNodeExit, exit_terminal, expr_node, semi_terminal))
    }

    /// Type → `i32` | `f32` | `bool`.
    fn parse_type(&mut self) -> (r: Result<ParseTreeNode, ParseError>)
        ensures
            ({
                let o = sp_type(old(self)@.tokens, old(self)@.index);
                &&& final(self)@.tokens == old(self)@.tokens
                &&& final(self)@.scopes == old(self)@.scopes
                &&& final(self)@.index == o.i
                &&& match r {
                    Ok(n) => o.r == Ok::<PtV, ParseError>(n@),
                    Err(e) => o.r == Err::<PtV, ParseError>(e),
                }
            }),
    {
        proof {
            reveal(sp_type);
        }
        let k = self.peek_kind();
        let sym = if matches!(k, Some(TokenType::TokenTypeTypeI32S)) {
            Some(ParseTreeSymbol::ParseTreeSymbolTerminalI32S)
        } else if matches!(k, Some(TokenType::TokenTypeTypeF32S)) {
            Some(ParseTreeSymbol::ParseTreeSymbolTerminalF32S)
        } else if matches!(k, Some(TokenType::TokenTypeTypeBool)) {
            Some(ParseTreeSymbol::ParseTreeSymbolTerminalBool)
        } else {
            None
        };
        match sym {
            Some(s) => {
                let child = leaf_node(s);
                self.consume();
                Ok(node1(ParseTreeSymbol::ParseTreeSymbolNodeType, child))
            },
            None => Err(ParseError::ExpectedType(k)),
        }
    }

    /// VarDecl → Type Expression `=` Expression `;`, recording the declared
    /// name in the innermost scope frame.
    fn parse_variable_declaration(&mut self) -> (r: Result<ParseTreeNode, ParseError>)
        requires
            old(self)@.scopes.len() > 0,
        ensures
            ({
                let o = sp_vardecl(old(self)@.tokens, old(self)@.index, old(self)@.scopes);
                &&& final(self)@.tokens == old(self)@.tokens
                &&& final(self)@.index == o.i
                &&& final(self)@.scopes == o.ss
                &&& match r {
                    Ok(n) => o.r == Ok::<PtV, ParseError>(n@),
                    Err(e) => o.r == Err::<PtV, ParseError>(e),
                }
            }),
    {
        proof {
            reveal(sp_type);
            reveal(sp_vardecl);
        }
        let type_node = match self.parse_type() {
            Ok(n) => n,
            Err(e) => {
                return Err(e);
            },
        };
        let ident_terminal = match self.parse_expression() {
            Ok(n) => n,
            Err(e) => {
                return Err(e);
            },
        };
        let eq_here = match self.peek_kind() {
            Some(TokenType::TokenTypeEquals) => true,
            _ => false,
        };
        if !eq_here {
            return Err(
                ParseError::ExpectedToken {
                    expected: TokenType::TokenTypeEquals,
                    found: self.peek_kind(),
                },
            );
        }
        let equals_terminal = leaf_node(ParseTreeSymbol::ParseTreeSymbolTerminalEquals);
        self.consume();
        let expr_node = match self.parse_expression() {
            Ok(n) => n,
            Err(e) => {
                return Err(e);
            },
        };
        let semi_here = match self.peek_kind() {
            Some(TokenType::TokenTypeSemicolon) => true,
            _ => false,
        };
        if !semi_here {
            return Err(
                ParseError::ExpectedToken {
                    expected: TokenType::TokenTypeSemicolon,
                    found: self.peek_kind(),
                },
            );
        }
        let semi_terminal = leaf_node(ParseTreeSymbol::ParseTreeSymbolTerminalSemicolon);
        self.consume();

        let var_name = match self.find_terminal(&ident_terminal) {
            Some(t) => match clone_value(&t.value) {
                Some(s) => s,
                None => {
                    return Err(ParseError::MissingValue);
                },
            },
            None => {
                return Err(ParseError::MissingTerminal);
            },
        };
        let var_type = match self.match_type_in_scope(&type_node) {
            Some(t) => t,
            None => {
                return Err(ParseError::InvalidTypeNode);
            },
        };
        let var_value = match self.match_expression_in_scope(&expr_node) {
            Ok(v) => v,
            Err(e) => {
                return Err(e);
            },
        };
        self.insert_in_scope(var_name, VarEntry { var_type, var_value });
        Ok(
            node5(
                ParseTreeSymbol::ParseTreeSymbolNodeVariableDeclaration,
                type_node,
                ident_terminal,
                equals_terminal,
                expr_node,
                semi_terminal,
            ),
        )
    }

    /// VarAssign → Identifier `=` Expression `;`, overwriting the value of
    /// an already-declared name in the nearest frame that binds it.
    fn parse_variable_assignment(&mut self) -> (r: Result<ParseTreeNode, ParseError>)
        ensures
            ({
                let o = sp_varassign(old(self)@.tokens, old(self)@.index, old(self)@.scopes);
                &&& final(self)@.tokens == old(self)@.tokens
                &&& final(self)@.index == o.i
                &&& final(self)@.scopes == o.ss
                &&& match r {
                    Ok(n) => o.r == Ok::<PtV, ParseError>(n@),
                    Err(e) => o.r == Err::<PtV, ParseError>(e),
                }
            }),
    {
        proof {
            reveal(sp_varassign);
        }
        let (kind, val) = match self.current() {
            None => (None, None),
            Some(t) => (Some(t.token_type), clone_value(&t.value)),
        };
        if !matches!(kind, Some(TokenType::TokenTypeIdentifier)) {
            return Err(
                ParseError::ExpectedToken {
                    expected: TokenType::TokenTypeIdentifier,
                    found: kind,
                },
            );
        }
        let name_copy = clone_value(&val);
        let ident_terminal = leaf_node_v(ParseTreeSymbol::ParseTreeSymbolTerminalIdentifier, val);
        self.consume();
        let eq_here = match self.peek_kind() {
            Some(TokenType::TokenTypeEquals) => true,
            _ => false,
        };
        if !eq_here {
            return Err(
                ParseError::ExpectedToken {
                    expected: TokenType::TokenTypeEquals,
                    found: self.peek_kind(),
                },
            );
        }
        let equals_terminal = leaf_node(ParseTreeSymbol::ParseTreeSymbolTerminalEquals);
        self.consume();
        let expr_node = match self.parse_expression() {
            Ok(n) => n,
            Err(e) => {
                return Err(e);
            },
        };
        let semi_here = match self.peek_kind() {
            Some(TokenType::TokenTypeSemicolon) => true,
            _ => false,
        };
        if !semi_here {
            return Err(
                ParseError::ExpectedToken {
                    expected: TokenType::TokenTypeSemicolon,
                    found: self.peek_kind(),
                },
            );
        }
        let semi_terminal = leaf_node(ParseTreeSymbol::ParseTreeSymbolTerminalSemicolon);
        self.consume();

        let var_name = match name_copy {
            Some(s) => s,
            None => {
                return Err(ParseError::MissingValue);
            },
        };
        let var_value = match self.match_expression_in_scope(&expr_node) {
            Ok(v) => v,
            Err(e) => {
                return Err(e);
            },
        };
        if self.lookup_in_scope(&var_name).is_none() {
            return Err(ParseError::UndefinedVariable);
        }
        match self.update_in_scope(&var_name, var_value) {
            Ok(()) => {},
            Err(e) => {
                // The lookup above succeeded, so the update cannot miss.
                proof {
                    assert(false);
                }
                return Err(e);
            },
        }
        Ok(
            node4(
                ParseTreeSymbol::ParseTreeSymbolNodeVariableAssignment,
                ident_terminal,
                equals_terminal,
                expr_node,
                semi_terminal,
            ),
        )
    }

    /// Block → `{` Statement `}`: exactly one statement.
    fn parse_block(&mut self) -> (r: Result<ParseTreeNode, ParseError>)
        requires
            old(self)@.scopes.len() > 0,
        ensures
            ({
                let o = sp_block(old(self)@.tokens, old(self)@.index, old(self)@.scopes);
                &&& final(self)@.tokens == old(self)@.tokens
                &&& final(self)@.index == o.i
                &&& final(self)@.scopes == o.ss
                &&& match r {
                    Ok(n) => o.r == Ok::<PtV, ParseError>(n@),
                    Err(e) => o.r == Err::<PtV, ParseError>(e),
                }
            }),
        decreases left_of_parser(*old(self)), 0int,
    {
        let open_here = match self.peek_kind() {
            Some(TokenType::TokenTypeLeftCurlyBrace) => true,
            _ => false,
        };
        if !open_here {
            return Err(
                ParseError::ExpectedToken {
                    expected: TokenType::TokenTypeLeftCurlyBrace,
                    found: self.peek_kind(),
                },
            );
        }
        let left_bracket_terminal = leaf_node(
            ParseTreeSymbol::ParseTreeSymbolTerminalLeftCurlyBrace,
        );
        self.consume();
        let statement_node = match self.parse_statement() {
            Ok(n) => n,
            Err(e) => {
                return Err(e);
            },
        };
        let close_here = match self.peek_kind() {
            Some(TokenType::TokenTypeRightCurlyBrace) => true,
            _ => false,
        };
        if !close_here {
            return Err(
                ParseError::ExpectedToken {
                    expected: TokenType::TokenTypeRightCurlyBrace,
                    found: self.peek_kind(),
                },
            );
        }
        let right_bracket_terminal = leaf_node(
            ParseTreeSymbol::ParseTreeSymbolTerminalRightCurlyBrace,
        );
        self.consume();
        Ok(
            node3(
                ParseTreeSymbol::ParseTreeSymbolNodeBlock,
                left_bracket_terminal,
                statement_node,
                right_bracket_terminal,
            ),
        )
    }

    /// For → `for` Expression `in` Expression `to` Expression Block, with
    /// the iterator bound in a freshly pushed frame for the body alone.
    fn parse_for(&mut self) -> (r: Result<ParseTreeNode, ParseError>)
        ensures
            ({
                let o = sp_for(old(self)@.tokens, old(self)@.index, old(self)@.scopes);
                &&& final(self)@.tokens == old(self)@.tokens
                &&& final(self)@.index == o.i
                &&& final(self)@.scopes == o.ss
                &&& match r {
                    Ok(n) => o.r == Ok::<PtV, ParseError>(n@),
                    Err(e) => o.r == Err::<PtV, ParseError>(e),
                }
            }),
        decreases left_of_parser(*old(self)), 1int,
    {
        let ghost toks = self@.tokens;
        let ghost i0 = self@.index;
        if !matches!(self.peek_kind(), Some(TokenType::TokenTypeFor)) {
            return Err(
                ParseError::ExpectedToken {
                    expected: TokenType::TokenTypeFor,
                    found: self.peek_kind(),
                },
            );
        }
        let terminal_for = leaf_node(ParseTreeSymbol::ParseTreeSymbolTerminalFor);
        self.consume();
        let ident_node = match self.parse_expression() {
            Ok(n) => n,
            Err(e) => {
                return Err(e);
            },
        };
        proof {
            lemma_sp_expression_advances(toks, i0 + 1);
        }
        if !matches!(self.peek_kind(), Some(TokenType::TokenTypeForIn)) {
            return Err(
                ParseError::ExpectedToken {
                    expected: TokenType::TokenTypeForIn,
                    found: self.peek_kind(),
                },
            );
        }
        let terminal_for_in = leaf_node(ParseTreeSymbol::ParseTreeSymbolTerminalForIn);
        self.consume();
        let ghost ilo = self@.index;
        let lower_bound_node = match self.parse_expression() {
            Ok(n) => n,
            Err(e) => {
                return Err(e);
            },
        };
        proof {
            lemma_sp_expression_advances(toks, ilo);
        }
        if !matches!(self.peek_kind(), Some(TokenType::TokenTypeForTo)) {
            return Err(
                ParseError::ExpectedToken {
                    expected: TokenType::TokenTypeForTo,
                    found: self.peek_kind(),
                },
            );
        }
        let terminal_for_dot = leaf_node(ParseTreeSymbol::ParseTreeSymbolTerminalForTo);
        self.consume();
        let ghost ihi = self@.index;
        let upper_bound_node = match self.parse_expression() {
            Ok(n) => n,
            Err(e) => {
                return Err(e);
            },
        };
        proof {
            lemma_sp_expression_advances(toks, ihi);
        }
        if !matches!(self.peek_kind(), Some(TokenType::TokenTypeLeftCurlyBrace)) {
            return Err(
                ParseError::ExpectedToken {
                    expected: TokenType::TokenTypeLeftCurlyBrace,
                    found: self.peek_kind(),
                },
            );
        }

        self.push_scope();

        let var_name = match self.find_terminal(&ident_node) {
            Some(t) => match clone_value(&t.value) {
                Some(s) => s,
                None => {
                    return Err(ParseError::MissingValue);
                },
            },
            None => {
                return Err(ParseError::MissingTerminal);
            },
        };
        let var_value = match self.match_expression_in_scope(&lower_bound_node) {
            Ok(v) => v,
            Err(e) => {
                return Err(e);
            },
        };
        self.insert_in_scope(var_name, VarEntry { var_type: Type::I32S, var_value });

        let block_node = match self.parse_block() {
            Ok(n) => n,
            Err(e) => {
                return Err(e);
            },
        };
        self.pop_scope();

        Ok(
            node7(
                ParseTreeSymbol::ParseTreeSymbolNodeFor,
                terminal_for,
                ident_node,
                terminal_for_in,
                lower_bound_node,
                terminal_for_dot,
                upper_bound_node,
                block_node,
            ),
        )
    }

    /// Statement → Exit | VarDecl | VarAssign | For, chosen by the leading
    /// token; any other leading token is a fatal parse error.
    fn parse_statement(&mut self) -> (r: Result<ParseTreeNode, ParseError>)
        requires
            old(self)@.scopes.len() > 0,
        ensures
            ({
                let o = sp_statement(old(self)@.tokens, old(self)@.index, old(self)@.scopes);
                &&& final(self)@.tokens == old(self)@.tokens
                &&& final(self)@.index == o.i
                &&& final(self)@.scopes == o.ss
                &&& match r {
                    Ok(n) => o.r == Ok::<PtV, ParseError>(n@),
                    Err(e) => o.r == Err::<PtV, ParseError>(e),
                }
            }),
        decreases left_of_parser(*old(self)), 2int,
    {
        let k = match self.peek_kind() {
            Some(k) => k,
            None => {
                return Err(ParseError::UnexpectedEndOfInput);
            },
        };
        let inner = if matches!(k, TokenType::TokenTypeExit) {
            self.parse_exit()
        } else if matches!(k, TokenType::TokenTypeTypeI32S) || matches!(
            k,
            TokenType::TokenTypeTypeF32S,
        ) || matches!(k, TokenType::TokenTypeTypeBool) {
            self.parse_variable_declaration()
        } else if matches!(k, TokenType::TokenTypeIdentifier) {
            self.parse_variable_assignment()
        } else if matches!(k, TokenType::TokenTypeFor) {
            self.parse_for()
        } else {
            return Err(ParseError::UnrecognizedStatement(k));
        };
        match inner {
            Ok(n) => Ok(node1(ParseTreeSymbol::ParseTreeSymbolNodeStatement, n)),
            Err(e) => Err(e),
        }
    }

    /// Entry → entry marker, then statements until the input ends or one
    /// statement fails; the first failure stops the loop and is reported
    /// beside the statements parsed so far.
    #[verifier::loop_isolation(false)]
    #[verifier::rlimit(100)]
    fn parse_entry(&mut self) -> (r: (ParseTreeNode, Option<ParseError>))
        requires
            old(self)@.index < old(self)@.tokens.len(),
            old(self)@.scopes.len() > 0,
        ensures
            ({
                let o = sp_entry(old(self)@.tokens, old(self)@.index, old(self)@.scopes);
                &&& final(self)@.tokens == old(self)@.tokens
                &&& final(self)@.index == o.i
                &&& final(self)@.scopes == o.ss
                &&& r.0@ == o.tree
                &&& r.1 == o.err
            }),
    {
        let ghost toks = self@.tokens;
        let ghost o = sp_entry(self@.tokens, self@.index, self@.scopes);
        self.consume();

        let mut children: Vec<ParseTreeNode> = Vec::new();
        let mut err: Option<ParseError> = None;
        let mut stopped = false;

        proof {
            lemma_pt_children_view(children@);
            assert(pt_children_view(children@) =~= Seq::<PtV>::empty());
        }

        while !stopped && !self.is_at_end()
            invariant
                self@.tokens == toks,
                self@.scopes.len() > 0,
                !stopped ==> err is None && sp_entry_loop(
                    toks,
                    self@.index,
                    self@.scopes,
                    pt_children_view(children@),
                ) == o,
                stopped ==> err is Some && o == (SpEntry {
                    tree: node(
                        ParseTreeSymbol::ParseTreeSymbolNodeEntryPoint,
                        pt_children_view(children@),
                    ),
                    err,
                    i: self@.index,
                    ss: self@.scopes,
                }),
            decreases crate::parse_spec::left_of(toks.len() as int, self@.index) + (if stopped {
                0int
            } else {
                1int
            }),
        {
            let ghost istep = self@.index;
            let ghost ssstep = self@.scopes;
            proof {
                lemma_sp_statement_advances(toks, istep, ssstep);
                lemma_sp_statement_scopes(toks, istep, ssstep);
            }
            match self.parse_statement() {
                Ok(stmt) => {
                    proof {
                        lemma_pt_children_view(children@.push(stmt));
                        assert(pt_children_view(children@.push(stmt)) =~= pt_children_view(
                            children@,
                        ).push(stmt@));
                    }
                    children.push(stmt);
                },
                Err(e) => {
                    err = Some(e);
                    stopped = true;
                },
            }
        }
        let ghost final_children = pt_children_view(children@);
        let entry_node = ParseTreeNode {
            symbol: ParseTreeSymbol::ParseTreeSymbolNodeEntryPoint,
            children,
            value: None,
        };
        proof {
            assert(entry_node@.children == final_children);
        }
        (entry_node, err)
    }

    /// Parses the whole token sequence: the concrete parse tree — partial
    /// when a statement failed — together with the first fatal error, if
    /// any was raised. Resolution runs during parsing: afterwards the scope
    /// stack holds each declared name's most recently captured value.
    pub fn parse(&mut self) -> (r: (ParseTreeNode, Option<ParseError>))
        requires
            old(self)@.index < old(self)@.tokens.len(),
            old(self)@.scopes.len() > 0,
        ensures
            ({
                let o = sp_entry(old(self)@.tokens, old(self)@.index, old(self)@.scopes);
                &&& final(self)@.tokens == old(self)@.tokens
                &&& final(self)@.index == o.i
                &&& final(self)@.scopes == o.ss
                &&& r.0@ == o.tree
                &&& r.1 == o.err
            }),
    {
        self.parse_entry()
    }
}


impl Parser {
    /// The `k`-th child with the given symbol, scanning from position `j`.
    fn nth_with_symbol<'a>(
        &self,
        s: &'a Vec<ParseTreeNode>,
        j: usize,
        sym: ParseTreeSymbol,
        k: usize,
    ) -> (r: Option<&'a ParseTreeNode>)
        requires
            j <= s@.len(),
        ensures
            match r {
                Some(t) => nth_with(pt_children_view(s@).skip(j as int), sym, k as int) == Some(
                    pt_view(*t),
                ),
                None => nth_with(pt_children_view(s@).skip(j as int), sym, k as int) is None,
            },
        decreases s@.len() - j,
    {
        proof {
            lemma_pt_children_view(s@);
        }
        let ghost cv = pt_children_view(s@);
        if j == s.len() {
            proof {
                assert(cv.skip(j as int) =~= Seq::<PtV>::empty());
            }
            None
        } else {
            proof {
                assert(cv.skip(j as int)[0] == cv[j as int]);
                assert(cv.skip(j as int).drop_first() =~= cv.skip(j as int + 1));
            }
            if s[j].symbol == sym {
                if k == 0 {
                    Some(&s[j])
                } else {
                    self.nth_with_symbol(s, j + 1, sym, k - 1)
                }
            } else {
                self.nth_with_symbol(s, j + 1, sym, k)
            }
        }
    }

    /// The expression value a valued terminal denotes.
    fn literal_expr(&self, t: &ParseTreeNode) -> (r: Result<Expr, AstError>)
        ensures
            match r {
                Ok(v) => spec_literal_expr(t@) == Ok::<crate::ast::ExprV, AstError>(v@),
                Err(e) => spec_literal_expr(t@) == Err::<crate::ast::ExprV, AstError>(e),
            },
    {
        match &t.value {
            None => Err(AstError::MissingValue),
            Some(text) => {
                let chars = string_to_chars(text.as_str());
                match t.symbol {
                    ParseTreeSymbol::ParseTreeSymbolTerminalIntegerLiteral => {
                        match parse_i32_chars(&chars) {
                            Some(v) => Ok(Expr::Int(v)),
                            None => Err(AstError::BadIntegerLiteral),
                        }
                    },
                    ParseTreeSymbol::ParseTreeSymbolTerminalFloatLiteral => {
                        match binary32_bits(&chars) {
                            Some(bits) => Ok(Expr::Float(bits)),
                            None => Err(AstError::BadFloatLiteral),
                        }
                    },
                    ParseTreeSymbol::ParseTreeSymbolTerminalBooleanLiteral => {
                        if chars.len() == 4 && chars[0] == 't' && chars[1] == 'r' && chars[2] == 'u'
                            && chars[3] == 'e' {
                            proof {
                                assert(text@ =~= seq!['t', 'r', 'u', 'e']);
                            }
                            Ok(Expr::Bool(true))
                        } else if chars.len() == 5 && chars[0] == 'f' && chars[1] == 'a' && chars[2]
                            == 'l' && chars[3] == 's' && chars[4] == 'e' {
                            proof {
                                assert(text@ =~= seq!['f', 'a', 'l', 's', 'e']);
                            }
                            Ok(Expr::Bool(false))
                        } else {
                            proof {
                                if text@ == seq!['t', 'r', 'u', 'e'] {
                                    assert(chars@ == seq!['t', 'r', 'u', 'e']);
                                }
                                if text@ == seq!['f', 'a', 'l', 's', 'e'] {
                                    assert(chars@ == seq!['f', 'a', 'l', 's', 'e']);
                                }
                            }
                            Err(AstError::BadBooleanLiteral)
                        }
                    },
                    ParseTreeSymbol::ParseTreeSymbolTerminalIdentifier => {
                        Ok(Expr::Ident(text.clone()))
                    },
                    _ => Err(AstError::MissingTerminal),
                }
            },
        }
    }

    /// The expression value a whole parse subtree denotes: the full
    /// expression, with binary-operator nodes carried as binary values.
    fn expr_of(&self, n: &ParseTreeNode) -> (r: Result<Expr, AstError>)
        ensures
            match r {
                Ok(v) => spec_expr_of(n@) == Ok::<crate::ast::ExprV, AstError>(v@),
                Err(e) => spec_expr_of(n@) == Err::<crate::ast::ExprV, AstError>(e),
            },
        decreases *n,
    {
        proof {
            lemma_pt_children_view(n.children@);
        }
        if valued_terminal(n.symbol) {
            self.literal_expr(n)
        } else if matches!(n.symbol, ParseTreeSymbol::ParseTreeSymbolNodeExpression) {
            if n.children.len() == 1 {
                proof {
                    assert(n@.children[0] == pt_view(n.children@[0]));
                }
                self.expr_of(&n.children[0])
            } else {
                Err(AstError::UnexpectedNode)
            }
        } else if matches!(n.symbol, ParseTreeSymbol::ParseTreeSymbolNodePrimary) {
            if n.children.len() == 1 {
                proof {
                    assert(n@.children[0] == pt_view(n.children@[0]));
                }
                self.expr_of(&n.children[0])
            } else if n.children.len() == 3 {
                proof {
                    assert(n@.children[1] == pt_view(n.children@[1]));
                }
                self.expr_of(&n.children[1])
            } else {
                Err(AstError::UnexpectedNode)
            }
        } else if matches!(n.symbol, ParseTreeSymbol::ParseTreeSymbolNodeEquality) || matches!(
            n.symbol,
            ParseTreeSymbol::ParseTreeSymbolNodeComparison,
        ) || matches!(n.symbol, ParseTreeSymbol::ParseTreeSymbolNodeAdd) {
            if n.children.len() == 3 {
                proof {
                    assert(n@.children[0] == pt_view(n.children@[0]));
                    assert(n@.children[1] == pt_view(n.children@[1]));
                    assert(n@.children[2] == pt_view(n.children@[2]));
                }
                let op = match binop_terminal(n.children[1].symbol) {
                    Some(op) => op,
                    None => {
                        return Err(AstError::UnexpectedNode);
                    },
                };
                let l = match self.expr_of(&n.children[0]) {
                    Ok(l) => l,
                    Err(e) => {
                        return Err(e);
                    },
                };
                let r = match self.expr_of(&n.children[2]) {
                    Ok(r) => r,
                    Err(e) => {
                        return Err(e);
                    },
                };
                Ok(Expr::BinaryOp { left: Box::new(l), op, right: Box::new(r) })
            } else {
                Err(AstError::UnexpectedNode)
            }
        } else {
            Err(AstError::UnexpectedNode)
        }
    }

    /// Every statement node at or below `n`, lowered in preorder and
    /// appended to `out`.
    fn build_found(&self, n: &ParseTreeNode, out: &mut Vec<AbstractSyntaxTreeNode>) -> (r: Option<
        AstError,
    >)
        ensures
            match r {
                None => ({
                    &&& spec_build_found(self@.scopes, n@) is Ok
                    &&& ast_children_view(final(out)@) == ast_children_view(old(out)@)
                        + spec_build_found(self@.scopes, n@)->Ok_0
                }),
                Some(e) => spec_build_found(self@.scopes, n@) == Err::<Seq<AstV>, AstError>(e),
            },
        decreases *n, 1int,
    {
        let ghost ssv = self@.scopes;
        let ghost base = ast_children_view(out@);
        if matches!(n.symbol, ParseTreeSymbol::ParseTreeSymbolNodeStatement) {
            let a = match self.build_ast_node(n) {
                Ok(a) => a,
                Err(e) => {
                    return Some(e);
                },
            };
            let ghost av = a@;
            let ghost before = out@;
            out.push(a);
            proof {
                lemma_ast_children_view(out@);
                lemma_ast_children_view(before);
                assert(ast_children_view(out@) =~= base.push(av));
            }
            match self.build_found_children(&n.children, out) {
                Some(e) => Some(e),
                None => {
                    proof {
                        let rest = spec_build_found_children(ssv, pt_children_view(
                            n.children@,
                        ))->Ok_0;
                        assert(n@.children == pt_children_view(n.children@));
                        assert(base.push(av) + rest =~= base + (seq![av] + rest));
                    }
                    None
                },
            }
        } else {
            let r = self.build_found_children(&n.children, out);
            proof {
                assert(n@.children == pt_children_view(n.children@));
            }
            r
        }
    }

    /// The statements found below each child, in order, appended to `out`.
    #[verifier::loop_isolation(false)]
    fn build_found_children(
        &self,
        s: &Vec<ParseTreeNode>,
        out: &mut Vec<AbstractSyntaxTreeNode>,
    ) -> (r: Option<AstError>)
        ensures
            match r {
                None => ({
                    &&& spec_build_found_children(self@.scopes, pt_children_view(s@)) is Ok
                    &&& ast_children_view(final(out)@) == ast_children_view(old(out)@)
                        + spec_build_found_children(self@.scopes, pt_children_view(s@))->Ok_0
                }),
                Some(e) => spec_build_found_children(self@.scopes, pt_children_view(s@)) == Err::<
                    Seq<AstV>,
                    AstError,
                >(e),
            },
        decreases *s, 2int,
    {
        let ghost ssv = self@.scopes;
        let ghost cv = pt_children_view(s@);
        let ghost base = ast_children_view(out@);
        let ghost mut done: Seq<AstV> = Seq::empty();
        proof {
            lemma_pt_children_view(s@);
            assert(cv.skip(0) =~= cv);
            assert(base + done =~= base);
        }
        let mut j: usize = 0;
        while j < s.len()
            invariant
                j <= s@.len(),
                ast_children_view(out@) == base + done,
                match spec_build_found_children(ssv, cv.skip(j as int)) {
                    Ok(rest) => spec_build_found_children(ssv, cv) == Ok::<Seq<AstV>, AstError>(
                        done + rest,
                    ),
                    Err(e) => spec_build_found_children(ssv, cv) == Err::<Seq<AstV>, AstError>(e),
                },
            decreases s@.len() - j,
        {
            proof {
                assert(cv.skip(j as int)[0] == cv[j as int]);
                assert(cv.skip(j as int).drop_first() =~= cv.skip(j as int + 1));
                assert(cv[j as int] == pt_view(s@[j as int]));
            }
            let ghost outb = ast_children_view(out@);
            match self.build_found(&s[j], out) {
                Some(e) => {
                    return Some(e);
                },
                None => {
                    proof {
                        let add = spec_build_found(ssv, cv[j as int])->Ok_0;
                        match spec_build_found_children(ssv, cv.skip(j as int + 1)) {
                            Ok(rest) => {
                                assert(done + (add + rest) =~= (done + add) + rest);
                            },
                            Err(_) => {},
                        }
                        done = done + add;
                        assert(ast_children_view(out@) =~= base + done);
                    }
                },
            }
            j += 1;
        }
        proof {
            assert(cv.skip(s@.len() as int) =~= Seq::<PtV>::empty());
            assert(done + Seq::<AstV>::empty() =~= done);
        }
        None
    }
}


/// A semantic tree node without children.
fn ast_leaf(sym: AbstractSyntaxTreeSymbol) -> (r: AbstractSyntaxTreeNode)
    ensures
        r@ == (AstV { symbol: crate::ast::ast_sym_view(sym), children: Seq::empty() }),
{
    let ghost sv = crate::ast::ast_sym_view(sym);
    let r = AbstractSyntaxTreeNode { symbol: sym, children: Vec::new() };
    proof {
        lemma_ast_children_view(r.children@);
        assert(r@.children =~= Seq::<AstV>::empty());
    }
    r
}

impl Parser {
    /// Lowering: projects the concrete parse tree onto the semantic tree,
    /// each declaration and assignment carrying the resolved value pulled
    /// from its scope entry, not the raw parsed expression.
    pub fn build_ast(&mut self, parse_tree: &ParseTreeNode) -> (r: Result<
        AbstractSyntaxTreeNode,
        AstError,
    >)
        ensures
            *final(self) == *old(self),
            match r {
                Ok(a) => spec_build_ast(old(self)@.scopes, parse_tree@) == Ok::<AstV, AstError>(a@),
                Err(e) => spec_build_ast(old(self)@.scopes, parse_tree@) == Err::<AstV, AstError>(
                    e,
                ),
            },
    {
        self.build_ast_node(parse_tree)
    }

    /// One node of the lowering walk.
    #[verifier::loop_isolation(false)]
    fn build_ast_node(&self, n: &ParseTreeNode) -> (r: Result<AbstractSyntaxTreeNode, AstError>)
        ensures
            match r {
                Ok(a) => spec_build_ast(self@.scopes, n@) == Ok::<AstV, AstError>(a@),
                Err(e) => spec_build_ast(self@.scopes, n@) == Err::<AstV, AstError>(e),
            },
        decreases *n, 0int,
    {
        let ghost ssv = self@.scopes;
        let ghost cv = pt_children_view(n.children@);
        proof {
            lemma_pt_children_view(n.children@);
            assert(cv.skip(0) =~= cv);
        }
        match n.symbol {
            ParseTreeSymbol::ParseTreeSymbolNodeEntryPoint => {
                let mut out: Vec<AbstractSyntaxTreeNode> = Vec::new();
                let ghost mut done: Seq<AstV> = Seq::empty();
                proof {
                    lemma_ast_children_view(out@);
                    assert(ast_children_view(out@) =~= done);
                }
                let mut j: usize = 0;
                while j < n.children.len()
                    invariant
                        j <= n.children@.len(),
                        ast_children_view(out@) == done,
                        match spec_build_entry_children(ssv, cv.skip(j as int)) {
                            Ok(rest) => spec_build_entry_children(ssv, cv) == Ok::<
                                Seq<AstV>,
                                AstError,
                            >(done + rest),
                            Err(e) => spec_build_entry_children(ssv, cv) == Err::<
                                Seq<AstV>,
                                AstError,
                            >(e),
                        },
                    decreases n.children@.len() - j,
                {
                    proof {
                        assert(cv.skip(j as int)[0] == cv[j as int]);
                        assert(cv.skip(j as int).drop_first() =~= cv.skip(j as int + 1));
                        assert(cv[j as int] == pt_view(n.children@[j as int]));
                    }
                    let child = &n.children[j];
                    if matches!(child.symbol, ParseTreeSymbol::ParseTreeSymbolNodeStatement) {
                        match self.build_ast_node(child) {
                            Err(e) => {
                                return Err(e);
                            },
                            Ok(a) => {
                                let ghost av = a@;
                                let ghost before = out@;
                                out.push(a);
                                proof {
                                    lemma_ast_children_view(out@);
                                    lemma_ast_children_view(before);
                                    assert(ast_children_view(out@) =~= done.push(av));
                                    match spec_build_entry_children(ssv, cv.skip(j as int + 1)) {
                                        Ok(rest) => {
                                            assert(done + (seq![av] + rest) =~= done.push(av)
                                                + rest);
                                        },
                                        Err(_) => {},
                                    }
                                    done = done.push(av);
                                }
                            },
                        }
                    }
                    j += 1;
                }
                proof {
                    assert(cv.skip(n.children@.len() as int) =~= Seq::<PtV>::empty());
                    assert(done + Seq::<AstV>::empty() =~= done);
                }
                Ok(
                    AbstractSyntaxTreeNode {
                        symbol: AbstractSyntaxTreeSymbol::AbstractSyntaxTreeSymbolEntry,
                        children: out,
                    },
                )
            },
            ParseTreeSymbol::ParseTreeSymbolNodeStatement => {
                if n.children.len() > 0 {
                    proof {
                        assert(cv[0] == pt_view(n.children@[0]));
                    }
                    self.build_ast_node(&n.children[0])
                } else {
                    Err(AstError::StatementWithoutChildren)
                }
            },
            ParseTreeSymbol::ParseTreeSymbolNodeExit => {
                let expr_node = match self.nth_with_symbol(
                    &n.children,
                    0,
                    ParseTreeSymbol::ParseTreeSymbolNodeExpression,
                    0,
                ) {
                    Some(t) => t,
                    None => {
                        return Err(AstError::ExitWithoutExpression);
                    },
                };
                match self.expr_of(expr_node) {
                    Ok(e) => Ok(
                        ast_leaf(AbstractSyntaxTreeSymbol::AbstractSyntaxTreeSymbolExit(e)),
                    ),
                    Err(err) => Err(err),
                }
            },
            ParseTreeSymbol::ParseTreeSymbolNodeVariableDeclaration => {
                let expr_node = match self.nth_with_symbol(
                    &n.children,
                    0,
                    ParseTreeSymbol::ParseTreeSymbolNodeExpression,
                    0,
                ) {
                    Some(t) => t,
                    None => {
                        return Err(AstError::DeclarationWithoutExpression);
                    },
                };
                let t = match self.find_terminal(expr_node) {
                    Some(t) => t,
                    None => {
                        return Err(AstError::MissingTerminal);
                    },
                };
                let name = match clone_value(&t.value) {
                    Some(s) => s,
                    None => {
                        return Err(AstError::MissingValue);
                    },
                };
                let (ty, value) = match self.lookup_in_scope(&name) {
                    Some(entry) => (entry.var_type, entry.var_value.clone()),
                    None => {
                        return Err(AstError::UndefinedName);
                    },
                };
                Ok(
                    ast_leaf(
                        AbstractSyntaxTreeSymbol::AbstractSyntaxTreeSymbolVariableDeclaration {
                            name,
                            type_: ty,
                            value,
                        },
                    ),
                )
            },
            ParseTreeSymbol::ParseTreeSymbolNodeVariableAssignment => {
                let t = match self.nth_with_symbol(
                    &n.children,
                    0,
                    ParseTreeSymbol::ParseTreeSymbolTerminalIdentifier,
                    0,
                ) {
                    Some(t) => t,
                    None => {
                        return Err(AstError::AssignmentWithoutIdentifier);
                    },
                };
                let name = match clone_value(&t.value) {
                    Some(s) => s,
                    None => {
                        return Err(AstError::MissingValue);
                    },
                };
                let value = match self.lookup_in_scope(&name) {
                    Some(entry) => entry.var_value.clone(),
                    None => {
                        return Err(AstError::UndefinedName);
                    },
                };
                Ok(
                    ast_leaf(
                        AbstractSyntaxTreeSymbol::AbstractSyntaxTreeSymbolVariableAssignment {
                            name,
                            value,
                        },
                    ),
                )
            },
            ParseTreeSymbol::ParseTreeSymbolNodeFor => {
                let id_node = match self.nth_with_symbol(
                    &n.children,
                    0,
                    ParseTreeSymbol::ParseTreeSymbolNodeExpression,
                    0,
                ) {
                    Some(t) => t,
                    None => {
                        return Err(AstError::ForMissingExpression);
                    },
                };
                let begin_node = match self.nth_with_symbol(
                    &n.children,
                    0,
                    ParseTreeSymbol::ParseTreeSymbolNodeExpression,
                    1,
                ) {
                    Some(t) => t,
                    None => {
                        return Err(AstError::ForMissingExpression);
                    },
                };
                let end_node = match self.nth_with_symbol(
                    &n.children,
                    0,
                    ParseTreeSymbol::ParseTreeSymbolNodeExpression,
                    2,
                ) {
                    Some(t) => t,
                    None => {
                        return Err(AstError::ForMissingExpression);
                    },
                };
                let t = match self.find_terminal(id_node) {
                    Some(t) => t,
                    None => {
                        return Err(AstError::MissingTerminal);
                    },
                };
                let iterator_name = match clone_value(&t.value) {
                    Some(s) => s,
                    None => {
                        return Err(AstError::MissingValue);
                    },
                };
                let iterator_begin = match self.expr_of(begin_node) {
                    Ok(v) => v,
                    Err(e) => {
                        return Err(e);
                    },
                };
                let iterator_end = match self.expr_of(end_node) {
                    Ok(v) => v,
                    Err(e) => {
                        return Err(e);
                    },
                };
                let mut body: Vec<AbstractSyntaxTreeNode> = Vec::new();
                proof {
                    lemma_ast_children_view(body@);
                }
                match self.build_found_children(&n.children, &mut body) {
                    Some(e) => {
                        return Err(e);
                    },
                    None => {},
                }
                proof {
                    assert(ast_children_view(body@) =~= spec_build_found_children(
                        ssv,
                        cv,
                    )->Ok_0);
                }
                Ok(
                    ast_leaf(
                        AbstractSyntaxTreeSymbol::AbstractSyntaxTreeSymbolFor {
                            iterator_name,
                            iterator_begin,
                            iterator_end,
                            body,
                        },
                    ),
                )
            },
            _ => Err(AstError::UnexpectedNode),
        }
    }
}


} // verus!
