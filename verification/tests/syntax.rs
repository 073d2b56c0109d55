use dlang::binary32::binary32_bits;
use dlang::chars::string_to_chars;
use dlang::numtext::parse_i32_chars;
use dlang::parse::Parser;
use dlang::tree::ParseTreeNode;
use dlang::tree::ParseTreeSymbol;
use dlang::tokenize::Tokenizer;

fn parse_tree_of(source: &str) -> ParseTreeNode {
    let mut tokenizer = Tokenizer::new(source.to_string());
    let tokens = tokenizer.tokenize().unwrap();
    let mut parser = Parser::new(tokens);
    let (tree, err) = parser.parse();
    assert!(err.is_none(), "unexpected parse error: {:?}", err);
    tree
}

/// The expression below `exit <expr>;`.
fn exit_expression(tree: &ParseTreeNode) -> &ParseTreeNode {
    assert_eq!(tree.symbol, ParseTreeSymbol::ParseTreeSymbolNodeEntryPoint);
    let stmt = &tree.children[0];
    assert_eq!(stmt.symbol, ParseTreeSymbol::ParseTreeSymbolNodeStatement);
    let exit = &stmt.children[0];
    assert_eq!(exit.symbol, ParseTreeSymbol::ParseTreeSymbolNodeExit);
    let expr = &exit.children[1];
    assert_eq!(expr.symbol, ParseTreeSymbol::ParseTreeSymbolNodeExpression);
    &expr.children[0]
}

#[test]
fn addition_binds_tighter_than_comparison() {
    // 1 + 2 < 5 parses as (1 + 2) < 5, never 1 + (2 < 5).
    let tree = parse_tree_of("exit 1 + 2 < 5;");
    let top = exit_expression(&tree);
    assert_eq!(top.symbol, ParseTreeSymbol::ParseTreeSymbolNodeComparison);
    assert_eq!(top.children[0].symbol, ParseTreeSymbol::ParseTreeSymbolNodeAdd);
    assert_eq!(top.children[1].symbol, ParseTreeSymbol::ParseTreeSymbolTerminalLessThan);
    assert_eq!(top.children[2].symbol, ParseTreeSymbol::ParseTreeSymbolNodePrimary);
}

#[test]
fn comparison_binds_tighter_than_equality() {
    // 1 == 2 < 3 parses as 1 == (2 < 3).
    let tree = parse_tree_of("exit 1 == 2 < 3;");
    let top = exit_expression(&tree);
    assert_eq!(top.symbol, ParseTreeSymbol::ParseTreeSymbolNodeEquality);
    assert_eq!(top.children[0].symbol, ParseTreeSymbol::ParseTreeSymbolNodePrimary);
    assert_eq!(top.children[1].symbol, ParseTreeSymbol::ParseTreeSymbolTerminalEqualsEquals);
    assert_eq!(top.children[2].symbol, ParseTreeSymbol::ParseTreeSymbolNodeComparison);
}

#[test]
fn additive_chains_are_left_associative() {
    // 1 - 2 + 3 parses as (1 - 2) + 3.
    let tree = parse_tree_of("exit 1 - 2 + 3;");
    let top = exit_expression(&tree);
    assert_eq!(top.symbol, ParseTreeSymbol::ParseTreeSymbolNodeAdd);
    assert_eq!(top.children[1].symbol, ParseTreeSymbol::ParseTreeSymbolTerminalPlus);
    let left = &top.children[0];
    assert_eq!(left.symbol, ParseTreeSymbol::ParseTreeSymbolNodeAdd);
    assert_eq!(left.children[1].symbol, ParseTreeSymbol::ParseTreeSymbolTerminalMinus);
}

#[test]
fn parenthesized_expressions_nest() {
    let tree = parse_tree_of("exit (1 + 2);");
    let top = exit_expression(&tree);
    assert_eq!(top.symbol, ParseTreeSymbol::ParseTreeSymbolNodePrimary);
    assert_eq!(top.children[0].symbol, ParseTreeSymbol::ParseTreeSymbolTerminalLeftParen);
    assert_eq!(top.children[1].symbol, ParseTreeSymbol::ParseTreeSymbolNodeExpression);
    assert_eq!(top.children[2].symbol, ParseTreeSymbol::ParseTreeSymbolTerminalRightParen);
}

#[test]
fn integer_literals_read_exactly() {
    let cases: Vec<(&str, Option<i32>)> = vec![
        ("0", Some(0)),
        ("42", Some(42)),
        ("007", Some(7)),
        ("2147483647", Some(2147483647)),
        ("2147483648", None),
        ("-2147483648", Some(i32::MIN)),
        ("+5", Some(5)),
        ("", None),
        ("12a", None),
    ];
    for (text, expected) in cases {
        let chars = string_to_chars(text);
        assert_eq!(parse_i32_chars(&chars), expected, "reading {:?}", text);
    }
}

#[test]
fn float_literals_match_ieee_bit_patterns() {
    let cases: Vec<&str> = vec![
        "1.5",
        "0.25",
        "3.14",
        "2.0",
        "0.1",
        "123.456",
        "0.0",
        "0.000001",
        "0.000000001",
        "0.00000000000001",
        "0.000000000000000001",
        "0.000000000000000123",
        "7.000000000000000001",
        "0.999999999999999999",
        "999999999999999999.9",
    ];
    for text in cases {
        let chars = string_to_chars(text);
        let expected: f32 = text.parse().unwrap();
        assert_eq!(
            binary32_bits(&chars),
            Some(expected.to_bits()),
            "bit pattern of {:?}",
            text
        );
    }
}

#[test]
fn float_literal_signs_and_malformed_text() {
    assert_eq!(
        binary32_bits(&string_to_chars("-1.5")),
        Some(("-1.5".parse::<f32>().unwrap()).to_bits())
    );
    assert_eq!(binary32_bits(&string_to_chars("")), None);
    assert_eq!(binary32_bits(&string_to_chars(".")), None);
    assert_eq!(binary32_bits(&string_to_chars("1.2.3")), None);
    assert_eq!(binary32_bits(&string_to_chars("abc")), None);
    assert_eq!(
        binary32_bits(&string_to_chars(".5")),
        Some((".5".parse::<f32>().unwrap()).to_bits())
    );
    assert_eq!(
        binary32_bits(&string_to_chars("5.")),
        Some(("5.".parse::<f32>().unwrap()).to_bits())
    );
}

#[test]
fn float_declaration_stores_raw_bit_pattern() {
    let mut tokenizer = Tokenizer::new("f32 y = 1.5;exit y;".to_string());
    let tokens = tokenizer.tokenize().unwrap();
    let mut parser = Parser::new(tokens);
    let (tree, err) = parser.parse();
    assert!(err.is_none());
    let ast = parser.build_ast(&tree).unwrap();
    match &ast.children[0].symbol {
        dlang::ast::AbstractSyntaxTreeSymbol::AbstractSyntaxTreeSymbolVariableDeclaration {
            type_,
            value,
            ..
        } => {
            assert_eq!(*type_, dlang::ast::Type::F32S);
            assert_eq!(*value, dlang::ast::Expr::Float(1.5f32.to_bits()));
        }
        other => panic!("expected a declaration, found {:?}", other),
    }
    let mut generator = dlang::generate::Generator::new();
    let text = generator.generate_x64(&ast);
    assert_eq!(
        text,
        "    mov dword [y], 1069547520\n    mov eax, dword [y]\n    ret\n\nsegment .bss\ny resd 1\n"
    );
}

#[test]
fn missing_semicolon_is_reported_with_what_was_found() {
    let mut tokenizer = Tokenizer::new("exit 1".to_string());
    let tokens = tokenizer.tokenize().unwrap();
    let mut parser = Parser::new(tokens);
    let (tree, err) = parser.parse();
    assert_eq!(
        err,
        Some(dlang::errors::ParseError::ExpectedToken {
            expected: dlang::tokenize::TokenType::TokenTypeSemicolon,
            found: None,
        })
    );
    assert_eq!(tree.children.len(), 0);
}

#[test]
fn unrecognized_statement_token_is_reported() {
    let mut tokenizer = Tokenizer::new("exit 1;;".to_string());
    let tokens = tokenizer.tokenize().unwrap();
    let mut parser = Parser::new(tokens);
    let (tree, err) = parser.parse();
    // The first statement parses; the stray semicolon opens no statement.
    assert_eq!(
        err,
        Some(dlang::errors::ParseError::UnrecognizedStatement(
            dlang::tokenize::TokenType::TokenTypeSemicolon,
        ))
    );
    assert_eq!(tree.children.len(), 1);
}

#[test]
fn integer_literal_too_wide_is_a_resolution_error() {
    let mut tokenizer = Tokenizer::new("i32 x = 99999999999;".to_string());
    let tokens = tokenizer.tokenize().unwrap();
    let mut parser = Parser::new(tokens);
    let (_, err) = parser.parse();
    assert_eq!(err, Some(dlang::errors::ParseError::BadIntegerLiteral));
}

#[test]
fn digit_run_with_bare_dot_is_a_lexical_error() {
    // A dot must be followed by more digits to make a float literal: `5.`
    // lexes as the integer 5, and the dot itself begins no token.
    let mut tokenizer = Tokenizer::new("exit 5.;".to_string());
    assert_eq!(
        tokenizer.tokenize(),
        Err(dlang::tokenize::LexError::UnexpectedCharacter('.'))
    );
}
