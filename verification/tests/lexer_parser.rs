//! The scanner and the parser on their own: exact token sequences,
//! positions, error cases, precedence structure, and idempotence.

use misty_db::interpreter::ast::{BinaryOp, Expr, Statement, UnaryOp};
use misty_db::interpreter::evaluator::{Evaluator, LogEntry, Placeholder, Value};
use misty_db::interpreter::parser::{ParseError, ParseErrorKind, Parser};
use misty_db::interpreter::tokenizer::{LexError, Token, TokenKind, Tokenizer};
use misty_db::interpreter::ast::AST;

#[test]
fn test_tokenize_exact_tokens_and_positions() {
    let tokens = Tokenizer::tokenize("2 + 30".to_string()).expect("scan should succeed");
    assert_eq!(
        tokens,
        vec![
            Token { kind: TokenKind::Number(2), line: 1, col: 1 },
            Token { kind: TokenKind::Plus, line: 1, col: 3 },
            Token { kind: TokenKind::Number(30), line: 1, col: 5 },
            Token { kind: TokenKind::Eof, line: 1, col: 7 },
        ]
    );
}

#[test]
fn test_tokenize_tracks_lines_and_tabs() {
    let tokens = Tokenizer::tokenize("1\n\t2".to_string()).expect("scan should succeed");
    assert_eq!(
        tokens,
        vec![
            Token { kind: TokenKind::Number(1), line: 1, col: 1 },
            Token { kind: TokenKind::Number(2), line: 2, col: 5 },
            Token { kind: TokenKind::Eof, line: 2, col: 6 },
        ]
    );
}

#[test]
fn test_keywords_are_case_insensitive() {
    let tokens = Tokenizer::tokenize("LET Func WHERE True".to_string()).expect("scan");
    let kinds: Vec<&TokenKind> = tokens.iter().map(|t| &t.kind).collect();
    assert_eq!(
        kinds,
        vec![
            &TokenKind::KwLet,
            &TokenKind::KwFunc,
            &TokenKind::KwWhere,
            &TokenKind::Boolean(true),
            &TokenKind::Eof,
        ]
    );
}

#[test]
fn test_comments_are_skipped() {
    let tokens = Tokenizer::tokenize("// note\n1 /* a\nb */ 2".to_string()).expect("scan");
    let kinds: Vec<&TokenKind> = tokens.iter().map(|t| &t.kind).collect();
    assert_eq!(
        kinds,
        vec![&TokenKind::Number(1), &TokenKind::Number(2), &TokenKind::Eof]
    );
}

#[test]
fn test_string_literal_keeps_escaped_quote() {
    let tokens = Tokenizer::tokenize("\"a\\\"b\"".to_string()).expect("scan");
    assert_eq!(tokens[0].kind, TokenKind::StrLit("a\\\"b".to_string()));
}

#[test]
fn test_lex_error_unexpected_char() {
    assert_eq!(
        Tokenizer::tokenize("#".to_string()),
        Err(LexError::UnexpectedChar(35))
    );
}

#[test]
fn test_lex_error_malformed_not() {
    assert_eq!(
        Tokenizer::tokenize("5 ! 3".to_string()),
        Err(LexError::MalformedNot)
    );
}

#[test]
fn test_lex_error_invalid_number_with_dots() {
    assert_eq!(
        Tokenizer::tokenize("1.2.3".to_string()),
        Err(LexError::InvalidNumber)
    );
    assert_eq!(
        Tokenizer::tokenize("1.5".to_string()),
        Err(LexError::InvalidNumber)
    );
}

#[test]
fn test_lex_error_number_out_of_range() {
    assert_eq!(
        Tokenizer::tokenize("9223372036854775808".to_string()),
        Err(LexError::InvalidNumber)
    );
    assert!(Tokenizer::tokenize("9223372036854775807".to_string()).is_ok());
}

#[test]
fn test_lex_error_unterminated_string() {
    assert_eq!(
        Tokenizer::tokenize("\"abc".to_string()),
        Err(LexError::UnterminatedString)
    );
}

#[test]
fn test_lex_error_unterminated_comment() {
    assert_eq!(
        Tokenizer::tokenize("/* abc".to_string()),
        Err(LexError::UnterminatedComment)
    );
}

#[test]
fn test_lex_error_invalid_utf8_in_identifier() {
    // 0xC3 read alone is an alphabetic character, so it joins the
    // identifier, but the two bytes cut off mid-sequence are not UTF-8.
    assert_eq!(
        Tokenizer::tokenize_bytes(&vec![97u8, 0xC3u8, 0xA9u8]),
        Err(LexError::InvalidUtf8)
    );
}

#[test]
fn test_lone_ampersand_and_pipe_are_rejected() {
    assert_eq!(
        Tokenizer::tokenize("a & b".to_string()),
        Err(LexError::UnexpectedChar(38))
    );
    assert_eq!(
        Tokenizer::tokenize("a | b".to_string()),
        Err(LexError::UnexpectedChar(124))
    );
}

fn parse_program(source: &str) -> Result<AST, ParseError> {
    let tokens = Tokenizer::tokenize(source.to_string()).expect("scan should succeed");
    Parser::new(tokens).parse()
}

#[test]
fn test_and_binds_tighter_than_or() {
    // a || b && c || d parses as (a || (b && c)) || d
    let ast = parse_program("a || b && c || d").expect("parse should succeed");
    let ident = |n: &str| Box::new(Expr::Identifier(n.to_string()));
    let expected = Expr::Binary {
        left: Box::new(Expr::Binary {
            left: ident("a"),
            op: BinaryOp::Or,
            right: Box::new(Expr::Binary {
                left: ident("b"),
                op: BinaryOp::And,
                right: ident("c"),
            }),
        }),
        op: BinaryOp::Or,
        right: ident("d"),
    };
    assert_eq!(ast.statements, vec![Statement::Expr(expected)]);
}

#[test]
fn test_precedence_structure_of_sum_and_product() {
    let ast = parse_program("2 + 3 * 4").expect("parse should succeed");
    let num = |n: i64| Box::new(Expr::Number(n));
    let expected = Expr::Binary {
        left: num(2),
        op: BinaryOp::Add,
        right: Box::new(Expr::Binary { left: num(3), op: BinaryOp::Mul, right: num(4) }),
    };
    assert_eq!(ast.statements, vec![Statement::Expr(expected)]);
}

#[test]
fn test_parse_function_definition_shape() {
    let ast = parse_program("func add(a, b) { a + b; }").expect("parse should succeed");
    match &ast.statements[0] {
        Statement::FuncDef { name, params, body } => {
            assert_eq!(name, &"add".to_string());
            assert_eq!(params, &vec!["a".to_string(), "b".to_string()]);
            assert_eq!(body.len(), 1);
        }
        other => panic!("expected a function definition, got {:?}", other),
    }
}

#[test]
fn test_parse_call_with_arguments() {
    let ast = parse_program("max(1, 2)").expect("parse should succeed");
    assert_eq!(
        ast.statements,
        vec![Statement::Expr(Expr::Call {
            name: "max".to_string(),
            args: vec![Expr::Number(1), Expr::Number(2)],
        })]
    );
}

#[test]
fn test_parse_where_statement() {
    let ast = parse_program("where age > 18;").expect("parse should succeed");
    match &ast.statements[0] {
        Statement::Where { condition } => match condition {
            Expr::Binary { op, .. } => assert_eq!(*op, BinaryOp::Gt),
            other => panic!("expected a comparison, got {:?}", other),
        },
        other => panic!("expected a where statement, got {:?}", other),
    }
}

#[test]
fn test_parse_error_missing_closing_paren() {
    match parse_program("(2 + 3") {
        Err(e) => assert_eq!(e.kind, ParseErrorKind::ExpectedClosingParen),
        other => panic!("expected a parse error, got {:?}", other),
    }
}

#[test]
fn test_parse_error_let_without_name() {
    match parse_program("let = 5") {
        Err(e) => {
            assert_eq!(e.kind, ParseErrorKind::ExpectedIdentifierAfterLet);
            assert!(e.at.is_some());
        }
        other => panic!("expected a parse error, got {:?}", other),
    }
}

#[test]
fn test_parse_error_reserved_statements() {
    for source in ["get users", "set users k v", "delete users k"] {
        match parse_program(source) {
            Err(e) => assert_eq!(e.kind, ParseErrorKind::NotImplemented),
            other => panic!("expected a parse error for {:?}, got {:?}", source, other),
        }
    }
}

#[test]
fn test_parse_expression_entry_point() {
    let tokens = Tokenizer::tokenize("1 + 2; rest".to_string()).expect("scan");
    let parser = Parser::new(tokens);
    let (expr, next) = parser.parse_expression(0).expect("expression should parse");
    assert_eq!(next, 3);
    match expr {
        Expr::Binary { op, .. } => assert_eq!(op, BinaryOp::Add),
        other => panic!("expected a binary expression, got {:?}", other),
    }
}

#[test]
fn test_rerunning_scan_and_parse_is_idempotent() {
    let source = "func f(a) { let b = a * 2; b } f(21)";
    let t1 = Tokenizer::tokenize(source.to_string());
    let t2 = Tokenizer::tokenize(source.to_string());
    assert_eq!(t1, t2);
    let a1 = Parser::new(t1.unwrap()).parse();
    let a2 = Parser::new(t2.unwrap()).parse();
    assert_eq!(a1.unwrap().statements, a2.unwrap().statements);
}

#[test]
fn test_reserved_statements_evaluate_as_placeholders() {
    // The parser rejects the reserved forms, but a program built directly
    // still evaluates them as inert placeholders.
    let ast = AST {
        statements: vec![
            Statement::Get { field: Expr::Identifier("users".to_string()), filter: None },
            Statement::Where { condition: Expr::Boolean(true) },
        ],
    };
    let (output, result) = Evaluator::new().evaluate(&ast);
    assert!(result.is_ok());
    assert_eq!(
        output,
        vec![
            LogEntry::NotImplemented(Placeholder::GetOp),
            LogEntry::NotImplemented(Placeholder::WhereOp),
        ]
    );
}

#[test]
fn test_field_access_evaluates_as_placeholder() {
    let ast = AST {
        statements: vec![Statement::Expr(Expr::FieldAccess {
            field: "name".to_string(),
            object: Box::new(Expr::Identifier("row".to_string())),
        })],
    };
    let (output, result) = Evaluator::new().evaluate(&ast);
    assert!(result.is_ok());
    assert_eq!(
        output,
        vec![
            LogEntry::NotImplemented(Placeholder::FieldAccessOp),
            LogEntry::Printed(Value::Unit),
        ]
    );
}

#[test]
fn test_tokenizer_new_builds_a_scanner() {
    let _scanner = Tokenizer::new();
    assert!(Tokenizer::tokenize(String::new()).is_ok());
}

#[test]
fn test_rerunning_the_pipeline_is_idempotent() {
    let source = "func twice(x) { x * 2 } let y = twice(4); y";
    let run1 = misty_db::interpreter::Interpreter::execute_full_pipeline(source.to_string())
        .expect("pipeline should succeed");
    let run2 = misty_db::interpreter::Interpreter::execute_full_pipeline(source.to_string())
        .expect("pipeline should succeed");
    assert_eq!(run1.ast.statements, run2.ast.statements);
    assert_eq!(run1.output, run2.output);
}

#[test]
fn test_scan_never_fails_on_plain_classes() {
    // Letters, digits, whitespace, the single-character tokens, and the
    // lookahead operators: the scan succeeds on any mix of them.
    let source = "let x1 = (2 + 3) * 4 - 5 ; { } [ ] , . < > = <= >= == abc_def \t\r\n";
    assert!(Tokenizer::tokenize(source.to_string()).is_ok());
}

#[test]
fn test_token_spellings_round_trip() {
    // Re-scanning the spelling of each scanned token gives the same kinds:
    // the scan is whitespace-insensitive between tokens.
    let source = "let x=(2+30)*4;";
    let first = Tokenizer::tokenize(source.to_string()).expect("scan should succeed");
    let spelled: Vec<String> = first
        .iter()
        .map(|t| match &t.kind {
            TokenKind::KwLet => "let".to_string(),
            TokenKind::Identifier(s) => s.clone(),
            TokenKind::Number(n) => n.to_string(),
            TokenKind::Assign => "=".to_string(),
            TokenKind::LParen => "(".to_string(),
            TokenKind::RParen => ")".to_string(),
            TokenKind::Plus => "+".to_string(),
            TokenKind::Multiply => "*".to_string(),
            TokenKind::Semicolon => ";".to_string(),
            TokenKind::Eof => "".to_string(),
            other => panic!("unexpected token in this source: {:?}", other),
        })
        .collect();
    let second =
        Tokenizer::tokenize(spelled.join(" ")).expect("re-scan should succeed");
    let kinds1: Vec<&TokenKind> = first.iter().map(|t| &t.kind).collect();
    let kinds2: Vec<&TokenKind> = second.iter().map(|t| &t.kind).collect();
    assert_eq!(kinds1, kinds2);
}

#[test]
fn test_logical_not_applies_to_booleans() {
    // The scanner never spells a lone `not`, but the evaluator's unary
    // table still covers it for programs built directly.
    let ast = AST {
        statements: vec![Statement::Expr(Expr::Unary {
            op: UnaryOp::Not,
            operand: Box::new(Expr::Boolean(false)),
        })],
    };
    let (output, result) = Evaluator::new().evaluate(&ast);
    assert!(result.is_ok());
    assert_eq!(output, vec![LogEntry::Printed(Value::Boolean(true))]);
}
