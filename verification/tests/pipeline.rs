use dlang::ast::AbstractSyntaxTreeNode;
use dlang::ast::AbstractSyntaxTreeSymbol;
use dlang::ast::BinOpType;
use dlang::ast::Expr;
use dlang::ast::Type;
use dlang::errors::ParseError;
use dlang::generate::Generator;
use dlang::parse::Parser;
use dlang::tokenize::Token;
use dlang::tokenize::TokenType;
use dlang::tokenize::Tokenizer;

fn compile(source: &str) -> (AbstractSyntaxTreeNode, Option<ParseError>, String) {
    let mut tokenizer = Tokenizer::new(source.to_string());
    let tokens = tokenizer.tokenize().expect("lexing failed");
    assert!(!tokens.is_empty());
    let mut parser = Parser::new(tokens);
    let (tree, err) = parser.parse();
    let ast = parser.build_ast(&tree).expect("lowering failed");
    let mut generator = Generator::new();
    let text = generator.generate_x64(&ast);
    (ast, err, text)
}

#[test]
fn exit_literal_program_emits_immediate_and_return() {
    let (_, err, text) = compile("exit 42;");
    assert!(err.is_none());
    assert_eq!(text, "    mov eax, 42\n    ret\n");
}

#[test]
fn exit_literal_modulo_256_shape_holds_for_other_literals() {
    let (_, err, text) = compile("exit 300;");
    assert!(err.is_none());
    assert_eq!(text, "    mov eax, 300\n    ret\n");
}

#[test]
fn boilerplate_is_fixed_header() {
    let mut generator = Generator::new();
    assert_eq!(
        generator.generate_boilerplate(),
        "bits 64\ndefault rel\n\nsegment .text\nglobal mainCRTStartup\n\nmainCRTStartup:\n"
    );
}

#[test]
fn declaration_then_exit_reserves_one_cell_and_loads_it() {
    let (_, err, text) = compile("i32 x = 5;exit x;");
    assert!(err.is_none());
    assert_eq!(
        text,
        "    mov dword [x], 5\n    mov eax, dword [x]\n    ret\n\nsegment .bss\nx resd 1\n"
    );
}

#[test]
fn shadowing_iterator_leaves_outer_entry_unchanged() {
    // The loop iterator shadows the outer declaration of the same name;
    // after the loop pops its frame, the outer entry still holds 7, so the
    // semantic tree's declaration node carries 7.
    let (ast, err, _) = compile("i32 i = 7;for i in 1 to 2 { exit i; }");
    assert!(err.is_none());
    assert_eq!(ast.children.len(), 2);
    match &ast.children[0].symbol {
        AbstractSyntaxTreeSymbol::AbstractSyntaxTreeSymbolVariableDeclaration {
            name,
            type_,
            value,
        } => {
            assert_eq!(name, "i");
            assert_eq!(*type_, Type::I32S);
            assert_eq!(*value, Expr::Int(7));
        }
        other => panic!("expected a declaration, found {:?}", other),
    }
    match &ast.children[1].symbol {
        AbstractSyntaxTreeSymbol::AbstractSyntaxTreeSymbolFor {
            iterator_name,
            iterator_begin,
            iterator_end,
            body,
        } => {
            assert_eq!(iterator_name, "i");
            assert_eq!(*iterator_begin, Expr::Int(1));
            assert_eq!(*iterator_end, Expr::Int(2));
            assert_eq!(body.len(), 1);
        }
        other => panic!("expected a loop, found {:?}", other),
    }
}

#[test]
fn assignment_inside_loop_updates_outer_entry() {
    // A body assignment to a name declared outside the loop reaches the
    // outer frame: the declaration node carries the value seen at lowering
    // time, which the body assignment overwrote.
    let (ast, err, _) = compile("i32 y = 1;for i in 1 to 2 { y = 9; }");
    assert!(err.is_none());
    match &ast.children[0].symbol {
        AbstractSyntaxTreeSymbol::AbstractSyntaxTreeSymbolVariableDeclaration { value, .. } => {
            assert_eq!(*value, Expr::Int(9));
        }
        other => panic!("expected a declaration, found {:?}", other),
    }
}

#[test]
fn undefined_variable_assignment_is_rejected() {
    let mut tokenizer = Tokenizer::new("x = 5;".to_string());
    let tokens = tokenizer.tokenize().unwrap();
    let mut parser = Parser::new(tokens);
    let (tree, err) = parser.parse();
    assert_eq!(err, Some(ParseError::UndefinedVariable));
    // The failing statement is not kept: nothing reaches code generation.
    assert_eq!(tree.children.len(), 0);
    let ast = parser.build_ast(&tree).unwrap();
    assert_eq!(ast.children.len(), 0);
    let mut generator = Generator::new();
    assert_eq!(generator.generate_x64(&ast), "    ret\n");
}

#[test]
fn binary_initializer_is_rejected_explicitly() {
    let mut tokenizer = Tokenizer::new("i32 x = 1 + 2;".to_string());
    let tokens = tokenizer.tokenize().unwrap();
    let mut parser = Parser::new(tokens);
    let (_, err) = parser.parse();
    assert_eq!(err, Some(ParseError::UnsupportedInitializer));
}

#[test]
fn division_codegen_sign_extends_and_preserves_left_operand() {
    // exit 7 / 2; as a semantic tree: the generator must evaluate 7 into
    // eax, save it across the right operand's evaluation, sign-extend with
    // cdq before idiv, and leave the quotient 3 in eax before any final move.
    let ast = AbstractSyntaxTreeNode {
        symbol: AbstractSyntaxTreeSymbol::AbstractSyntaxTreeSymbolExit(Expr::BinaryOp {
            left: Box::new(Expr::Int(7)),
            op: BinOpType::Divide,
            right: Box::new(Expr::Int(2)),
        }),
        children: Vec::new(),
    };
    let mut generator = Generator::new();
    let text = generator.generate_x64(&ast);
    assert_eq!(
        text,
        "    mov eax, 7\n    push rax\n    mov ebx, 2\n    pop rax\n    cdq\n    idiv ebx\n"
    );
}

#[test]
fn comparison_codegen_sets_flag_into_register() {
    let ast = AbstractSyntaxTreeNode {
        symbol: AbstractSyntaxTreeSymbol::AbstractSyntaxTreeSymbolExit(Expr::BinaryOp {
            left: Box::new(Expr::Int(1)),
            op: BinOpType::LessThan,
            right: Box::new(Expr::Int(2)),
        }),
        children: Vec::new(),
    };
    let mut generator = Generator::new();
    let text = generator.generate_x64(&ast);
    assert_eq!(
        text,
        "    mov eax, 1\n    push rax\n    mov ebx, 2\n    pop rax\n    cmp eax, ebx\n    setl al\n    movzx eax, al\n"
    );
}

#[test]
fn loop_codegen_uses_iterator_labels_and_counts_up() {
    let (_, err, text) = compile("for i in 1 to 3 { exit i; }");
    assert!(err.is_none());
    assert_eq!(
        text,
"    mov eax, 1\n    mov dword [i], eax\nloop_begin_i:\n    mov eax, dword [i]\n    mov ebx, 3\n    cmp eax, ebx\n    jg loop_end_i\n    mov eax, dword [i]\n    mov eax, dword [i]\n    inc eax\n    mov dword [i], eax\n    jmp loop_begin_i\nloop_end_i:\n    ret\n\nsegment .bss\ni resd 1\n"
    );
}

#[test]
fn reresolution_is_idempotent() {
    let src = "i32 a = 3;i32 b = a;exit b;";
    let t1 = Tokenizer::new(src.to_string()).tokenize().unwrap();
    let t2 = Tokenizer::new(src.to_string()).tokenize().unwrap();
    assert_eq!(t1, t2);
    let (ast1, e1, text1) = compile(src);
    let (ast2, e2, text2) = compile(src);
    assert_eq!(e1, e2);
    assert_eq!(ast1, ast2);
    assert_eq!(text1, text2);
}

#[test]
fn alias_chain_defers_dereference_to_codegen() {
    let (ast, err, text) = compile("i32 a = 3;i32 b = a;exit b;");
    assert!(err.is_none());
    match &ast.children[1].symbol {
        AbstractSyntaxTreeSymbol::AbstractSyntaxTreeSymbolVariableDeclaration { value, .. } => {
            assert_eq!(*value, Expr::Ident("a".to_string()));
        }
        other => panic!("expected a declaration, found {:?}", other),
    }
    assert_eq!(
        text,
"    mov dword [a], 3\n    mov eax, dword [a]\n    mov dword [b], eax\n    mov eax, dword [b]\n    ret\n\nsegment .bss\na resd 1\nb resd 1\n"
    );
}

#[test]
fn boolean_declaration_stores_one() {
    let (_, err, text) = compile("bool b = true;exit b;");
    assert!(err.is_none());
    assert_eq!(
        text,
        "    mov dword [b], 1\n    mov eax, dword [b]\n    ret\n\nsegment .bss\nb resd 1\n"
    );
}

#[test]
fn tokenizer_reports_lone_exclamation() {
    let mut tokenizer = Tokenizer::new("exit 1 ! 2;".to_string());
    assert_eq!(tokenizer.tokenize(), Err(dlang::tokenize::LexError::LoneExclamation));
}

#[test]
fn tokenizer_reports_unexpected_character() {
    let mut tokenizer = Tokenizer::new("exit #;".to_string());
    assert_eq!(
        tokenizer.tokenize(),
        Err(dlang::tokenize::LexError::UnexpectedCharacter('#'))
    );
}

#[test]
fn tokenizer_cursor_walks_characters() {
    let mut tokenizer = Tokenizer::new("ab".to_string());
    assert!(!tokenizer.is_at_end());
    assert_eq!(tokenizer.current(), Some('a'));
    assert_eq!(tokenizer.consume(), 'a');
    assert_eq!(tokenizer.current(), Some('b'));
    assert_eq!(tokenizer.consume(), 'b');
    assert!(tokenizer.is_at_end());
    assert_eq!(tokenizer.current(), None);
}

#[test]
fn tokens_classify_keywords_and_identifiers() {
    let mut tokenizer = Tokenizer::new("i32 fancy = 10;".to_string());
    let tokens = tokenizer.tokenize().unwrap();
    let kinds: Vec<TokenType> = tokens.iter().map(|t| t.token_type).collect();
    assert_eq!(
        kinds,
        vec![
            TokenType::TokenTypeEntryPoint,
            TokenType::TokenTypeTypeI32S,
            TokenType::TokenTypeIdentifier,
            TokenType::TokenTypeEquals,
            TokenType::TokenTypeIntegerLiteral,
            TokenType::TokenTypeSemicolon,
        ]
    );
    assert_eq!(
        tokens[2],
        Token { token_type: TokenType::TokenTypeIdentifier, value: Some("fancy".to_string()) }
    );
    assert_eq!(
        tokens[4],
        Token {
            token_type: TokenType::TokenTypeIntegerLiteral,
            value: Some("10".to_string()),
        }
    );
}

#[test]
fn exit_binary_expression_lowers_in_full() {
    // The exit operand is carried as the whole binary expression, never
    // truncated to its first terminal.
    let (ast, err, text) = compile("exit 1 + 2;");
    assert!(err.is_none());
    match &ast.children[0].symbol {
        AbstractSyntaxTreeSymbol::AbstractSyntaxTreeSymbolExit(e) => {
            assert_eq!(
                *e,
                Expr::BinaryOp {
                    left: Box::new(Expr::Int(1)),
                    op: BinOpType::Add,
                    right: Box::new(Expr::Int(2)),
                }
            );
        }
        other => panic!("expected an exit, found {:?}", other),
    }
    assert_eq!(
        text,
        "    mov eax, 1\n    push rax\n    mov ebx, 2\n    pop rax\n    add eax, ebx\n    ret\n"
    );
}

#[test]
fn exit_expression_keeps_precedence_in_the_semantic_tree() {
    let (ast, err, _) = compile("exit 1 + 2 < 5;");
    assert!(err.is_none());
    match &ast.children[0].symbol {
        AbstractSyntaxTreeSymbol::AbstractSyntaxTreeSymbolExit(e) => {
            assert_eq!(
                *e,
                Expr::BinaryOp {
                    left: Box::new(Expr::BinaryOp {
                        left: Box::new(Expr::Int(1)),
                        op: BinOpType::Add,
                        right: Box::new(Expr::Int(2)),
                    }),
                    op: BinOpType::LessThan,
                    right: Box::new(Expr::Int(5)),
                }
            );
        }
        other => panic!("expected an exit, found {:?}", other),
    }
}

#[test]
fn exit_parenthesized_literal_unwraps() {
    let (ast, err, text) = compile("exit (5);");
    assert!(err.is_none());
    match &ast.children[0].symbol {
        AbstractSyntaxTreeSymbol::AbstractSyntaxTreeSymbolExit(e) => {
            assert_eq!(*e, Expr::Int(5));
        }
        other => panic!("expected an exit, found {:?}", other),
    }
    assert_eq!(text, "    mov eax, 5\n    ret\n");
}

#[test]
fn loop_bound_can_be_an_identifier() {
    let (ast, err, text) = compile("i32 n = 3;for i in 1 to n { exit i; }");
    assert!(err.is_none());
    match &ast.children[1].symbol {
        AbstractSyntaxTreeSymbol::AbstractSyntaxTreeSymbolFor {
            iterator_begin,
            iterator_end,
            ..
        } => {
            assert_eq!(*iterator_begin, Expr::Int(1));
            assert_eq!(*iterator_end, Expr::Ident("n".to_string()));
        }
        other => panic!("expected a loop, found {:?}", other),
    }
    let expected = "    mov dword [n], 3\n    mov eax, 1\n    mov dword [i], eax\nloop_begin_i:\n    mov eax, dword [i]\n    mov ebx, dword [n]\n    cmp eax, ebx\n    jg loop_end_i\n    mov eax, dword [i]\n    mov eax, dword [i]\n    inc eax\n    mov dword [i], eax\n    jmp loop_begin_i\nloop_end_i:\n    ret\n\nsegment .bss\nn resd 1\ni resd 1\n";
    assert_eq!(text, expected);
}

#[test]
fn loop_bound_can_be_a_binary_expression() {
    let (ast, err, _) = compile("for i in 1 to 2 + 3 { exit i; }");
    assert!(err.is_none());
    match &ast.children[0].symbol {
        AbstractSyntaxTreeSymbol::AbstractSyntaxTreeSymbolFor { iterator_end, .. } => {
            assert_eq!(
                *iterator_end,
                Expr::BinaryOp {
                    left: Box::new(Expr::Int(2)),
                    op: BinOpType::Add,
                    right: Box::new(Expr::Int(3)),
                }
            );
        }
        other => panic!("expected a loop, found {:?}", other),
    }
}
