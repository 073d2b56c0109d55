//! Laws of the pipeline, stated and proved over the same specification
//! functions that the executable functions are verified against.

use vstd::prelude::*;

use crate::ast::AstSymV;
use crate::ast::AstV;
use crate::ast::ExprV;
use crate::chars::is_digit;
use crate::errors::ParseError;
use crate::generate::spec_gen;
use crate::numtext::all_digits;
use crate::numtext::dec_str_i32;
use crate::numtext::spec_parse_i32;
use crate::parse_spec::SpEntry;
use crate::parse_spec::sp_entry;
use crate::parse_spec::sp_statement;
use crate::parse_spec::sp_varassign;
use crate::parse_spec::kind_at;
use crate::parse_spec::tok_at;
use crate::resolve::spec_build_ast;
use crate::scope::EntryV;
use crate::scope::scopes_lookup;
use crate::tokenize::TokenType;
use crate::tokenize::TokenV;
use crate::tokenize::digit_end;
use crate::tokenize::alnum_end;
use crate::tokenize::spec_scan;
use crate::tokenize::spec_tokenize;
use crate::tokenize::tv;
use crate::tokenize::tval;

verus! {

/// Re-resolution is idempotent: every stage of the pipeline is a function
/// of the source text and nothing else, so two independent runs over the
/// same text yield structurally identical token sequences, trees and
/// assembly text. The executable functions are each proved equal to these
/// specification functions, so the law carries over to any two runs.
pub proof fn lemma_reresolution_idempotent(
    src: Seq<char>,
    first: (SpEntry, Result<AstV, crate::errors::AstError>),
    second: (SpEntry, Result<AstV, crate::errors::AstError>),
)
    requires
        ({
            let toks = spec_tokenize(src, 0)->Ok_0;
            let parsed = sp_entry(toks, 0, seq![Seq::<(Seq<char>, EntryV)>::empty()]);
            first == (parsed, spec_build_ast(parsed.ss, parsed.tree))
        }),
        ({
            let toks = spec_tokenize(src, 0)->Ok_0;
            let parsed = sp_entry(toks, 0, seq![Seq::<(Seq<char>, EntryV)>::empty()]);
            second == (parsed, spec_build_ast(parsed.ss, parsed.tree))
        }),
    ensures
        first == second,
{
}

/// Undefined-variable rejection: an assignment statement whose name is not
/// bound in any active scope fails with the undefined-variable resolution
/// error, whatever integer it assigns, and leaves the scope stack as it
/// was — so the statement never reaches the semantic tree or the code
/// generator.
pub proof fn lemma_undefined_assignment_rejected(
    toks: Seq<TokenV>,
    i: int,
    ss: Seq<Seq<(Seq<char>, EntryV)>>,
    name: Seq<char>,
    digits: Seq<char>,
)
    requires
        tok_at(toks, i) == Some(tval(TokenType::TokenTypeIdentifier, name)),
        kind_at(toks, i + 1) == Some(TokenType::TokenTypeEquals),
        tok_at(toks, i + 2) == Some(tval(TokenType::TokenTypeIntegerLiteral, digits)),
        kind_at(toks, i + 3) == Some(TokenType::TokenTypeSemicolon),
        spec_parse_i32(digits) is Some,
        scopes_lookup(ss, name) is None,
    ensures
        sp_statement(toks, i, ss).r == Err::<crate::tree::PtV, ParseError>(
            ParseError::UndefinedVariable,
        ),
        sp_statement(toks, i, ss).ss == ss,
{
    reveal(crate::parse_spec::sp_varassign);
}

/// In a run of digits ending the stretch `[a, b)`, the scan of digits from
/// `a` stops exactly at `b`.
proof fn lemma_digit_end_exact(s: Seq<char>, a: int, b: int)
    requires
        0 <= a <= b <= s.len(),
        forall|k: int| a <= k < b ==> is_digit(s[k]),
        b == s.len() || !is_digit(s[b]),
    ensures
        digit_end(s, a) == b,
    decreases b - a,
{
    if a < b {
        lemma_digit_end_exact(s, a + 1, b);
    }
}

/// The token sequence of an exit-literal program.
#[verifier::rlimit(100)]
proof fn lemma_exit_literal_tokens(src: Seq<char>, d: Seq<char>)
    requires
        src == "exit "@ + d + ";"@,
        d.len() > 0,
        all_digits(d),
    ensures
        spec_tokenize(src, 0) == Ok::<Seq<TokenV>, crate::tokenize::LexError>(
            seq![
                tv(TokenType::TokenTypeEntryPoint),
                tv(TokenType::TokenTypeExit),
                tval(TokenType::TokenTypeIntegerLiteral, d),
                tv(TokenType::TokenTypeSemicolon),
            ],
        ),
{
    reveal_strlit("exit ");
    reveal_strlit(";");
    let e = "exit "@;
    assert(e.len() == 5);
    assert(src.len() == d.len() + 6);
    assert(forall|k: int| 0 <= k < 5 ==> src[k] == e[k]);
    assert(forall|k: int| 0 <= k < d.len() ==> src[5 + k] == d[k]);
    assert(src[5 + d.len() as int] == ';');

    // the word `exit`
    assert(src[0] == 'e' && src[1] == 'x' && src[2] == 'i' && src[3] == 't' && src[4] == ' ');
    reveal_with_fuel(alnum_end, 6);
    assert(alnum_end(src, 1) == 4);
    assert(src.subrange(0, 4) =~= seq!['e', 'x', 'i', 't']);

    // the digit run
    assert(forall|k: int| 6 <= k < 5 + d.len() ==> is_digit(#[trigger] src[k]));
    assert(is_digit(src[5]));
    lemma_digit_end_exact(src, 6, 5 + d.len() as int);
    let j = 5 + d.len() as int;
    assert(!is_digit(src[j]) && src[j] != '.');
    assert(src.subrange(5, j) =~= d);

    // the whole scan, one position at a time
    reveal_with_fuel(spec_scan, 2);
    assert(spec_scan(src, j + 1) == Ok::<Seq<TokenV>, crate::tokenize::LexError>(Seq::empty()));
    assert(spec_scan(src, j) == Ok::<Seq<TokenV>, crate::tokenize::LexError>(
        seq![tv(TokenType::TokenTypeSemicolon)] + Seq::empty(),
    ));
    assert(spec_scan(src, 5) == Ok::<Seq<TokenV>, crate::tokenize::LexError>(
        seq![tval(TokenType::TokenTypeIntegerLiteral, d)] + (seq![
            tv(TokenType::TokenTypeSemicolon),
        ] + Seq::empty()),
    ));
    assert(spec_scan(src, 4) == spec_scan(src, 5));
    assert(spec_scan(src, 0) == Ok::<Seq<TokenV>, crate::tokenize::LexError>(
        seq![tv(TokenType::TokenTypeExit)] + (seq![tval(TokenType::TokenTypeIntegerLiteral, d)] + (
        seq![tv(TokenType::TokenTypeSemicolon)] + Seq::empty())),
    ));
    assert(seq![tv(TokenType::TokenTypeEntryPoint)] + (seq![tv(TokenType::TokenTypeExit)] + (seq![
        tval(TokenType::TokenTypeIntegerLiteral, d),
    ] + (seq![tv(TokenType::TokenTypeSemicolon)] + Seq::empty()))) =~= seq![
        tv(TokenType::TokenTypeEntryPoint),
        tv(TokenType::TokenTypeExit),
        tval(TokenType::TokenTypeIntegerLiteral, d),
        tv(TokenType::TokenTypeSemicolon),
    ]);
}

/// A program consisting solely of `exit` and an integer literal lowers to
/// an immediate load of that literal into the primary register followed by
/// the return, with no data section: when assembled and run, the process
/// exit code is the literal's low byte.
#[verifier::rlimit(100)]
pub proof fn lemma_exit_literal_program(src: Seq<char>, d: Seq<char>, v: i32)
    requires
        src == "exit "@ + d + ";"@,
        d.len() > 0,
        all_digits(d),
        spec_parse_i32(d) == Some(v),
    ensures
        spec_tokenize(src, 0) == Ok::<Seq<TokenV>, crate::tokenize::LexError>(
            seq![
                tv(TokenType::TokenTypeEntryPoint),
                tv(TokenType::TokenTypeExit),
                tval(TokenType::TokenTypeIntegerLiteral, d),
                tv(TokenType::TokenTypeSemicolon),
            ],
        ),
        ({
            let toks = spec_tokenize(src, 0)->Ok_0;
            let parsed = sp_entry(toks, 0, seq![Seq::<(Seq<char>, EntryV)>::empty()]);
            let ast = spec_build_ast(parsed.ss, parsed.tree);
            &&& parsed.err is None
            &&& ast == Ok::<AstV, crate::errors::AstError>(
                AstV {
                    symbol: AstSymV::Entry,
                    children: seq![
                        AstV { symbol: AstSymV::Exit(ExprV::Int(v)), children: Seq::empty() },
                    ],
                },
            )
            &&& spec_gen(ast->Ok_0, Seq::empty()) == (
                ("    mov "@ + "eax"@ + ", "@ + dec_str_i32(v as int) + "\n"@ + "    ret\n"@),
                Seq::<Seq<char>>::empty(),
            )
        }),
{
    lemma_exit_literal_tokens(src, d);
    let toks = seq![
        tv(TokenType::TokenTypeEntryPoint),
        tv(TokenType::TokenTypeExit),
        tval(TokenType::TokenTypeIntegerLiteral, d),
        tv(TokenType::TokenTypeSemicolon),
    ];
    assert(spec_tokenize(src, 0)->Ok_0 == toks);

    // parsing
    reveal(crate::parse_spec::sp_exit);
    reveal_with_fuel(crate::parse_spec::sp_entry_loop, 4);
    let ss0 = seq![Seq::<(Seq<char>, EntryV)>::empty()];
    let parsed = sp_entry(toks, 0, ss0);
    assert(parsed.err is None && parsed.ss == ss0);

    // lowering
    reveal_with_fuel(crate::resolve::spec_build_ast, 5);
    reveal_with_fuel(crate::resolve::spec_build_entry_children, 4);
    reveal_with_fuel(crate::resolve::nth_with, 6);
    reveal_with_fuel(crate::resolve::spec_expr_of, 6);
    let tree = parsed.tree;
    let ast = spec_build_ast(ss0, tree);
    assert(ast == Ok::<AstV, crate::errors::AstError>(
        AstV {
            symbol: AstSymV::Entry,
            children: seq![AstV { symbol: AstSymV::Exit(ExprV::Int(v)), children: Seq::empty() }],
        },
    ));

    // code generation
    reveal_with_fuel(crate::generate::spec_gen, 4);
    reveal_with_fuel(crate::generate::spec_gen_list, 4);
    let o = spec_gen(ast->Ok_0, Seq::empty());
    assert(o.0 =~= "    mov "@ + "eax"@ + ", "@ + dec_str_i32(v as int) + "\n"@ + "    ret\n"@);
    assert(o.1 =~= Seq::<Seq<char>>::empty());
}


/// The token sequence of a declare-then-exit program.
#[verifier::rlimit(100)]
proof fn lemma_declare_then_exit_tokens(src: Seq<char>, d: Seq<char>)
    requires
        src == "i32 x = "@ + d + ";exit x;"@,
        d.len() > 0,
        all_digits(d),
    ensures
        spec_tokenize(src, 0) == Ok::<Seq<TokenV>, crate::tokenize::LexError>(
            seq![
                tv(TokenType::TokenTypeEntryPoint),
                tv(TokenType::TokenTypeTypeI32S),
                tval(TokenType::TokenTypeIdentifier, seq!['x']),
                tv(TokenType::TokenTypeEquals),
                tval(TokenType::TokenTypeIntegerLiteral, d),
                tv(TokenType::TokenTypeSemicolon),
                tv(TokenType::TokenTypeExit),
                tval(TokenType::TokenTypeIdentifier, seq!['x']),
                tv(TokenType::TokenTypeSemicolon),
            ],
        ),
{
    reveal_strlit("i32 x = ");
    reveal_strlit(";exit x;");
    let h = "i32 x = "@;
    let t = ";exit x;"@;
    let lt: int = d.len() as int;
    assert(h.len() == 8 && t.len() == 8);
    assert(src.len() == lt + 16);
    assert(forall|k: int| 0 <= k < 8 ==> src[k] == h[k]);
    assert(forall|k: int| 0 <= k < lt ==> src[8 + k] == d[k]);
    assert(forall|k: int| 0 <= k < 8 ==> src[8 + lt + k] == t[k]);

    reveal_with_fuel(alnum_end, 7);
    assert(alnum_end(src, 1) == 3);
    assert(src.subrange(0, 3) =~= seq!['i', '3', '2']);
    assert(alnum_end(src, 5) == 5);
    assert(src.subrange(4, 5) =~= seq!['x']);
    assert(forall|k: int| 9 <= k < 8 + lt ==> is_digit(#[trigger] src[k]));
    lemma_digit_end_exact(src, 9, 8 + lt);
    assert(!is_digit(src[8 + lt]) && src[8 + lt] != '.');
    assert(src.subrange(8, 8 + lt) =~= d);
    assert(alnum_end(src, 10 + lt) == 13 + lt);
    assert(src.subrange(9 + lt, 13 + lt) =~= seq!['e', 'x', 'i', 't']);
    assert(alnum_end(src, 15 + lt) == 15 + lt);
    assert(src.subrange(14 + lt, 15 + lt) =~= seq!['x']);

    // the whole scan, one position at a time
    reveal_with_fuel(spec_scan, 2);
    let rest0: Seq<TokenV> = Seq::empty();
    assert(spec_scan(src, 16 + lt) == Ok::<Seq<TokenV>, crate::tokenize::LexError>(rest0));
    let rest1 = seq![tv(TokenType::TokenTypeSemicolon)] + rest0;
    assert(spec_scan(src, 15 + lt) == Ok::<Seq<TokenV>, crate::tokenize::LexError>(rest1));
    let rest2 = seq![tval(TokenType::TokenTypeIdentifier, seq!['x'])] + rest1;
    assert(spec_scan(src, 14 + lt) == Ok::<Seq<TokenV>, crate::tokenize::LexError>(rest2));
    assert(spec_scan(src, 13 + lt) == spec_scan(src, 14 + lt));
    let rest3 = seq![tv(TokenType::TokenTypeExit)] + rest2;
    assert(spec_scan(src, 9 + lt) == Ok::<Seq<TokenV>, crate::tokenize::LexError>(rest3));
    let rest4 = seq![tv(TokenType::TokenTypeSemicolon)] + rest3;
    assert(spec_scan(src, 8 + lt) == Ok::<Seq<TokenV>, crate::tokenize::LexError>(rest4));
    let rest5 = seq![tval(TokenType::TokenTypeIntegerLiteral, d)] + rest4;
    assert(spec_scan(src, 8) == Ok::<Seq<TokenV>, crate::tokenize::LexError>(rest5));
    assert(spec_scan(src, 7) == spec_scan(src, 8));
    let rest6 = seq![tv(TokenType::TokenTypeEquals)] + rest5;
    assert(spec_scan(src, 6) == Ok::<Seq<TokenV>, crate::tokenize::LexError>(rest6));
    assert(spec_scan(src, 5) == spec_scan(src, 6));
    let rest7 = seq![tval(TokenType::TokenTypeIdentifier, seq!['x'])] + rest6;
    assert(spec_scan(src, 4) == Ok::<Seq<TokenV>, crate::tokenize::LexError>(rest7));
    assert(spec_scan(src, 3) == spec_scan(src, 4));
    let rest8 = seq![tv(TokenType::TokenTypeTypeI32S)] + rest7;
    assert(spec_scan(src, 0) == Ok::<Seq<TokenV>, crate::tokenize::LexError>(rest8));
    assert(seq![tv(TokenType::TokenTypeEntryPoint)] + rest8 =~= seq![
        tv(TokenType::TokenTypeEntryPoint),
        tv(TokenType::TokenTypeTypeI32S),
        tval(TokenType::TokenTypeIdentifier, seq!['x']),
        tv(TokenType::TokenTypeEquals),
        tval(TokenType::TokenTypeIntegerLiteral, d),
        tv(TokenType::TokenTypeSemicolon),
        tv(TokenType::TokenTypeExit),
        tval(TokenType::TokenTypeIdentifier, seq!['x']),
        tv(TokenType::TokenTypeSemicolon),
    ]);
}

/// A whole declare-then-exit program scans to exactly these nine tokens,
/// whatever its literal's digits: the entry marker, the declaration of `x`,
/// and the exit that reads `x` back.
pub proof fn lemma_declare_then_exit_source(src: Seq<char>, d: Seq<char>)
    requires
        src == "i32 x = "@ + d + ";exit x;"@,
        d.len() > 0,
        all_digits(d),
    ensures
        spec_tokenize(src, 0) == Ok::<Seq<TokenV>, crate::tokenize::LexError>(
            seq![
                tv(TokenType::TokenTypeEntryPoint),
                tv(TokenType::TokenTypeTypeI32S),
                tval(TokenType::TokenTypeIdentifier, seq!['x']),
                tv(TokenType::TokenTypeEquals),
                tval(TokenType::TokenTypeIntegerLiteral, d),
                tv(TokenType::TokenTypeSemicolon),
                tv(TokenType::TokenTypeExit),
                tval(TokenType::TokenTypeIdentifier, seq!['x']),
                tv(TokenType::TokenTypeSemicolon),
            ],
        ),
{
    lemma_declare_then_exit_tokens(src, d);
}


/// A program declaring a 32-bit integer `x` with a literal value and then
/// exiting with `x` emits: a store of the literal into `x`'s cell, a load
/// of the exit value from that same cell, the return, and a data section
/// reserving exactly one cell, named `x`.
pub proof fn lemma_declare_then_exit_program(v: i32)
    ensures
        ({
            let ast = AstV {
                symbol: AstSymV::Entry,
                children: seq![
                    AstV {
                        symbol: AstSymV::VariableDeclaration {
                            name: "x"@,
                            type_: crate::ast::Type::I32S,
                            value: ExprV::Int(v),
                        },
                        children: Seq::empty(),
                    },
                    AstV { symbol: AstSymV::Exit(ExprV::Ident("x"@)), children: Seq::empty() },
                ],
            };
            spec_gen(ast, Seq::empty()) == (
                (("    mov dword ["@ + "x"@ + "], "@ + dec_str_i32(v as int) + "\n"@) + (
                "    mov "@ + "eax"@ + ", dword ["@ + "x"@ + "]\n"@) + "    ret\n"@ + ("\nsegment .bss\n"@ + ((
                "x"@ + " resd 1\n"@) + Seq::<char>::empty()))),
                seq!["x"@],
            )
        }),
{
    reveal_with_fuel(crate::generate::spec_gen, 5);
    reveal_with_fuel(crate::generate::spec_gen_list, 5);
    reveal_with_fuel(crate::generate::bss_lines, 4);
    let ast = AstV {
        symbol: AstSymV::Entry,
        children: seq![
            AstV {
                symbol: AstSymV::VariableDeclaration {
                    name: "x"@,
                    type_: crate::ast::Type::I32S,
                    value: ExprV::Int(v),
                },
                children: Seq::empty(),
            },
            AstV { symbol: AstSymV::Exit(ExprV::Ident("x"@)), children: Seq::empty() },
        ],
    };
    let o = spec_gen(ast, Seq::empty());
    assert(!Seq::<Seq<char>>::empty().contains("x"@)) by {
        if Seq::<Seq<char>>::empty().contains("x"@) {
            let j = choose|j: int|
                0 <= j < Seq::<Seq<char>>::empty().len() && Seq::<Seq<char>>::empty()[j] == "x"@;
        }
    }
    assert(o.1 =~= seq!["x"@]);
    assert(o.0 =~= (("    mov dword ["@ + "x"@ + "], "@ + dec_str_i32(v as int) + "\n"@) + (
    "    mov "@ + "eax"@ + ", dword ["@ + "x"@ + "]\n"@) + "    ret\n"@ + ("\nsegment .bss\n"@ + (("x"@
        + " resd 1\n"@) + Seq::<char>::empty()))));
}

/// Shadowing: a loop whose iterator name equals an already-declared outer
/// variable's name does not alter the outer entry as seen after the loop
/// exits. The iterator lives in a frame of its own, pushed for the body and
/// popped with it, so after a successful loop the stack is exactly as deep
/// as before and the lookup of the iterator's name finds what it found
/// before the loop.
pub proof fn lemma_for_iterator_shadowing(
    toks: Seq<TokenV>,
    i: int,
    ss: Seq<Seq<(Seq<char>, EntryV)>>,
    n: Seq<char>,
)
    requires
        crate::parse_spec::sp_for(toks, i, ss).r is Ok,
        ({
            let id = crate::parse_spec::sp_expression(toks, i + 1);
            &&& id.r is Ok
            &&& crate::resolve::spec_find_terminal(id.r->Ok_0) matches Some(t)
            &&& crate::resolve::spec_find_terminal(id.r->Ok_0)->Some_0.value == Some(n)
        }),
    ensures
        crate::parse_spec::sp_for(toks, i, ss).ss.len() == ss.len(),
        scopes_lookup(crate::parse_spec::sp_for(toks, i, ss).ss, n) == scopes_lookup(ss, n),
{
    let o = crate::parse_spec::sp_for(toks, i, ss);
    let id = crate::parse_spec::sp_expression(toks, i + 1);
    let lo = crate::parse_spec::sp_expression(toks, id.i + 1);
    let hi = crate::parse_spec::sp_expression(toks, lo.i + 1);
    let ss1 = ss.push(Seq::<(Seq<char>, EntryV)>::empty());
    let value = crate::resolve::spec_bare_expr(ss1, lo.r->Ok_0)->Ok_0;
    let entry = EntryV { var_type: crate::ast::Type::I32S, var_value: ExprV::Int(0) };
    let entry2 = EntryV { var_type: crate::ast::Type::I32S, var_value: value };
    let ss2 = crate::scope::scopes_insert(ss1, n, entry2);
    let blk = crate::parse_spec::sp_block(toks, crate::parse_spec::past(i, hi.i), ss2);

    assert(o.ss == crate::parse_spec::spec_pop(blk.ss) && blk.r is Ok);

    let lastf = ss2[ss.len() as int];
    assert(lastf =~= Seq::<(Seq<char>, EntryV)>::empty().push((n, entry2)));
    assert(ss2.len() == ss.len() + 1);
    assert(forall|k: int| 0 <= k < ss.len() ==> #[trigger] ss2[k] == ss[k]);
    assert(crate::scope::frame_find(lastf, n) == 0);
    assert(crate::scope::scopes_find_frame(ss2, n) == ss.len());

    crate::parse_spec::lemma_sp_block_shields(toks, crate::parse_spec::past(i, hi.i), ss2, n);
    assert(blk.ss.len() == ss2.len());
    assert(forall|k: int|
        crate::parse_spec::shielded(ss2, n, k) ==> crate::scope::frame_lookup(
            #[trigger] blk.ss[k],
            n,
        ) == crate::scope::frame_lookup(ss2[k], n));

    let fin = crate::parse_spec::spec_pop(blk.ss);
    assert(fin.len() == ss.len());
    assert(forall|k: int| 0 <= k < ss.len() ==> #[trigger] fin[k] == blk.ss[k]);
    assert(forall|k: int|
        0 <= k < ss.len() ==> crate::parse_spec::shielded(ss2, n, k) && crate::scope::frame_lookup(
            #[trigger] fin[k],
            n,
        ) == crate::scope::frame_lookup(ss[k], n));
    crate::scope::lemma_scopes_lookup_congruent(fin, ss, n);
}


} // verus!
