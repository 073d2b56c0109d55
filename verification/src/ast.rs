//! The semantic tree: the resolved, statement-oriented tree that the code
//! generator consumes, and the expression values stored in it.

use vstd::prelude::*;

verus! {

/// A declared type. The `S` names follow the language's own spelling of its
/// scalar types.
#[derive(Debug, Clone, Copy, PartialEq, Eq, Structural)]
pub enum Type {
    I32S,
    F32S,
    Bool,
}

/// A binary operator.
#[derive(Debug, Clone, Copy, PartialEq, Eq, Structural)]
pub enum BinOpType {
    Add,
    Subtract,
    Multiply,
    Divide,
    Equal,
    NotEqual,
    LessThan,
    LessThanOrEqual,
    GreaterThan,
    GreaterThanOrEqual,
}

/// An expression value. A float literal is held as its raw IEEE-754 binary32
/// bit pattern: the code generator only ever emits that pattern as an
/// immediate, never a floating-point instruction. An identifier is a
/// reference to another variable, not that variable's value: dereferencing
/// is deferred to code generation.
#[derive(Debug, PartialEq)]
pub enum Expr {
    Int(i32),
    Float(u32),
    Bool(bool),
    Ident(String),
    BinaryOp { left: Box<Expr>, op: BinOpType, right: Box<Expr> },
}

impl Clone for Expr {
    /// A clone denotes the same expression value.
    fn clone(&self) -> (r: Self)
        ensures
            r@ == self@,
        decreases *self,
    {
        match self {
            Expr::Int(i) => Expr::Int(*i),
            Expr::Float(bits) => Expr::Float(*bits),
            Expr::Bool(b) => Expr::Bool(*b),
            Expr::Ident(name) => Expr::Ident(name.clone()),
            Expr::BinaryOp { left, op, right } => Expr::BinaryOp {
                left: Box::new((**left).clone()),
                op: *op,
                right: Box::new((**right).clone()),
            },
        }
    }
}

/// Mathematical image of an [`Expr`].
pub enum ExprV {
    Int(i32),
    Float(u32),
    Bool(bool),
    Ident(Seq<char>),
    BinaryOp { left: Box<ExprV>, op: BinOpType, right: Box<ExprV> },
}

/// The image of an expression value.
pub open spec fn expr_view(e: Expr) -> ExprV
    decreases e,
{
    match e {
        Expr::Int(i) => ExprV::Int(i),
        Expr::Float(bits) => ExprV::Float(bits),
        Expr::Bool(b) => ExprV::Bool(b),
        Expr::Ident(name) => ExprV::Ident(name@),
        Expr::BinaryOp { left, op, right } => ExprV::BinaryOp {
            left: Box::new(expr_view(*left)),
            op,
            right: Box::new(expr_view(*right)),
        },
    }
}

impl View for Expr {
    type V = ExprV;

    open spec fn view(&self) -> ExprV {
        expr_view(*self)
    }
}

/// A semantic tree node's form: the whole program, an exit, a declaration or
/// assignment carrying its resolved value, or a counting loop.
#[derive(Debug, PartialEq)]
pub enum AbstractSyntaxTreeSymbol {
    AbstractSyntaxTreeSymbolEntry,
    AbstractSyntaxTreeSymbolExit(Expr),
    AbstractSyntaxTreeSymbolVariableDeclaration { name: String, type_: Type, value: Expr },
    AbstractSyntaxTreeSymbolVariableAssignment { name: String, value: Expr },
    AbstractSyntaxTreeSymbolFor {
        iterator_name: String,
        iterator_begin: Expr,
        iterator_end: Expr,
        body: Vec<AbstractSyntaxTreeNode>,
    },
}

/// A semantic tree node. Only the entry node carries children; a loop's body
/// lives in its symbol.
#[derive(Debug, PartialEq)]
pub struct AbstractSyntaxTreeNode {
    pub symbol: AbstractSyntaxTreeSymbol,
    pub children: Vec<AbstractSyntaxTreeNode>,
}

/// Mathematical image of an [`AbstractSyntaxTreeSymbol`].
pub enum AstSymV {
    Entry,
    Exit(ExprV),
    VariableDeclaration { name: Seq<char>, type_: Type, value: ExprV },
    VariableAssignment { name: Seq<char>, value: ExprV },
    For { iterator_name: Seq<char>, iterator_begin: ExprV, iterator_end: ExprV, body: Seq<AstV> },
}

/// Mathematical image of an [`AbstractSyntaxTreeNode`].
pub struct AstV {
    pub symbol: AstSymV,
    pub children: Seq<AstV>,
}

/// The image of a semantic tree node.
pub open spec fn ast_view(n: AbstractSyntaxTreeNode) -> AstV
    decreases n,
{
    proof {
        assert(decreases_to!(n => n.children));
        assert(decreases_to!(n.children => n.children@));
        assert(decreases_to!(n => n.symbol));
    }
    AstV { symbol: ast_sym_view(n.symbol), children: ast_children_view(n.children@) }
}

/// The image of a semantic tree node's form.
pub open spec fn ast_sym_view(s: AbstractSyntaxTreeSymbol) -> AstSymV
    decreases s,
{
    match s {
        AbstractSyntaxTreeSymbol::AbstractSyntaxTreeSymbolEntry => AstSymV::Entry,
        AbstractSyntaxTreeSymbol::AbstractSyntaxTreeSymbolExit(e) => AstSymV::Exit(expr_view(e)),
        AbstractSyntaxTreeSymbol::AbstractSyntaxTreeSymbolVariableDeclaration {
            name,
            type_,
            value,
        } => AstSymV::VariableDeclaration { name: name@, type_, value: expr_view(value) },
        AbstractSyntaxTreeSymbol::AbstractSyntaxTreeSymbolVariableAssignment { name, value } => {
            AstSymV::VariableAssignment { name: name@, value: expr_view(value) }
        },
        AbstractSyntaxTreeSymbol::AbstractSyntaxTreeSymbolFor {
            iterator_name,
            iterator_begin,
            iterator_end,
            body,
        } => {
            proof {
                assert(decreases_to!(body => body@));
            }
            AstSymV::For {
                iterator_name: iterator_name@,
                iterator_begin: expr_view(iterator_begin),
                iterator_end: expr_view(iterator_end),
                body: ast_children_view(body@),
            }
        },
    }
}

/// The images of a sequence of semantic tree nodes.
pub open spec fn ast_children_view(s: Seq<AbstractSyntaxTreeNode>) -> Seq<AstV>
    decreases s,
{
    if s.len() == 0 {
        Seq::empty()
    } else {
        ast_children_view(s.drop_last()).push(ast_view(s.last()))
    }
}

/// The image of a node sequence is the pointwise image.
pub broadcast proof fn lemma_ast_children_view(s: Seq<AbstractSyntaxTreeNode>)
    ensures
        (#[trigger] ast_children_view(s)).len() == s.len(),
        forall|k: int| 0 <= k < s.len() ==> ast_children_view(s)[k] == ast_view(s[k]),
    decreases s.len(),
{
    if s.len() > 0 {
        lemma_ast_children_view(s.drop_last());
    }
}

impl View for AbstractSyntaxTreeNode {
    type V = AstV;

    open spec fn view(&self) -> AstV {
        ast_view(*self)
    }
}

} // verus!
