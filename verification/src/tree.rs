//! The concrete parse tree: one node per grammar production instance, with
//! children in exactly the order the production consumes them.

use vstd::prelude::*;

verus! {

#[derive(Debug, PartialEq, Eq, Structural, Clone, Copy)]
pub enum ParseTreeSymbol {
    ParseTreeSymbolNodeEntryPoint,
    ParseTreeSymbolNodeStatement,
    ParseTreeSymbolNodeExpression,
    ParseTreeSymbolNodeExit,
    ParseTreeSymbolNodeVariableDeclaration,
    ParseTreeSymbolNodeVariableAssignment,
    ParseTreeSymbolNodeType,
    ParseTreeSymbolNodeFor,
    ParseTreeSymbolNodeBlock,
    ParseTreeSymbolNodeEquality,
    ParseTreeSymbolNodeComparison,
    ParseTreeSymbolNodeAdd,
    ParseTreeSymbolNodePrimary,
    ParseTreeSymbolTerminalExit,
    ParseTreeSymbolTerminalSemicolon,
    ParseTreeSymbolTerminalIntegerLiteral,
    ParseTreeSymbolTerminalEquals,
    ParseTreeSymbolTerminalI32S,
    ParseTreeSymbolTerminalF32S,
    ParseTreeSymbolTerminalBool,
    ParseTreeSymbolTerminalFloatLiteral,
    ParseTreeSymbolTerminalBooleanLiteral,
    ParseTreeSymbolTerminalIdentifier,
    ParseTreeSymbolTerminalFor,
    ParseTreeSymbolTerminalForIn,
    ParseTreeSymbolTerminalForTo,
    ParseTreeSymbolTerminalLeftCurlyBrace,
    ParseTreeSymbolTerminalRightCurlyBrace,
    ParseTreeSymbolTerminalPlus,
    ParseTreeSymbolTerminalMinus,
    ParseTreeSymbolTerminalLessThan,
    ParseTreeSymbolTerminalLessThanOrEqual,
    ParseTreeSymbolTerminalGreaterThan,
    ParseTreeSymbolTerminalGreaterThanOrEqual,
    ParseTreeSymbolTerminalEqualsEquals,
    ParseTreeSymbolTerminalNotEquals,
    ParseTreeSymbolTerminalLeftParen,
    ParseTreeSymbolTerminalRightParen,
}

/// A parse tree node: which production it instantiates, its children in
/// production order, and the originating token's text for terminals that
/// carry one.
#[derive(Debug)]
pub struct ParseTreeNode {
    pub symbol: ParseTreeSymbol,
    pub children: Vec<ParseTreeNode>,
    pub value: Option<String>,
}

/// Mathematical image of a [`ParseTreeNode`].
pub struct PtV {
    pub symbol: ParseTreeSymbol,
    pub children: Seq<PtV>,
    pub value: Option<Seq<char>>,
}

/// The image of a parse tree node: the same shape, with text as character
/// sequences.
pub open spec fn pt_view(n: ParseTreeNode) -> PtV
    decreases n, 1int,
{
    proof {
        assert(decreases_to!(n => n.children));
        assert(decreases_to!(n.children => n.children@));
    }
    PtV {
        symbol: n.symbol,
        children: pt_children_view(n.children@),
        value: match n.value {
            Some(s) => Some(s@),
            None => None,
        },
    }
}

/// The images of a sequence of parse tree nodes.
pub open spec fn pt_children_view(s: Seq<ParseTreeNode>) -> Seq<PtV>
    decreases s, 0int,
{
    if s.len() == 0 {
        Seq::empty()
    } else {
        pt_children_view(s.drop_last()).push(pt_view(s.last()))
    }
}

/// The image of a node sequence is the pointwise image.
pub broadcast proof fn lemma_pt_children_view(s: Seq<ParseTreeNode>)
    ensures
        (#[trigger] pt_children_view(s)).len() == s.len(),
        forall|k: int| 0 <= k < s.len() ==> pt_children_view(s)[k] == pt_view(s[k]),
    decreases s.len(),
{
    if s.len() > 0 {
        lemma_pt_children_view(s.drop_last());
    }
}

impl View for ParseTreeNode {
    type V = PtV;

    open spec fn view(&self) -> PtV {
        pt_view(*self)
    }
}

} // verus!
