use nova_lang::lexer::{tokenize, Token};
use nova_lang::parser::{Expected, Parser, SyntaxError};
use nova_lang::{AstNode, BinaryOperator};

#[test]
fn test_parse_function() {
    let tokens = vec![
        Token::Function,
        Token::Identifier("main".to_string()),
        Token::LeftParen,
        Token::RightParen,
        Token::Colon,
        Token::TypeInt,
        Token::LeftBrace,
        Token::Return,
        Token::Number(42),
        Token::Semicolon,
        Token::RightBrace,
    ];

    let mut parser = Parser::new(tokens);
    let ast = parser.parse().unwrap();

    match ast {
        AstNode::Program(nodes) => {
            assert_eq!(nodes.len(), 1);
            match &nodes[0] {
                AstNode::Function { name, params, body } => {
                    assert_eq!(name, "main");
                    assert!(params.is_empty());
                    match &**body {
                        AstNode::Program(statements) => {
                            assert_eq!(statements.len(), 1);
                            match &statements[0] {
                                AstNode::Return(expr) => match &**expr {
                                    AstNode::Number(n) => assert_eq!(*n, 42),
                                    _ => panic!("Expected number in return statement"),
                                },
                                _ => panic!("Expected return statement"),
                            }
                        },
                        _ => panic!("Expected program node for function body"),
                    }
                },
                _ => panic!("Expected function node"),
            }
        },
        _ => panic!("Expected program node"),
    }
}

#[test]
fn test_parse_let_with_annotation() {
    // `let x: i32 = 42;` carries its annotation through to the tree.
    let mut parser = Parser::new(tokenize("let x: i32 = 42;"));
    let ast = parser.parse().unwrap();
    match ast {
        AstNode::Program(nodes) => {
            assert_eq!(nodes.len(), 1);
            match &nodes[0] {
                AstNode::Let { name, type_annotation, value } => {
                    assert_eq!(name, "x");
                    assert_eq!(type_annotation.as_deref(), Some("i32"));
                    match &**value {
                        AstNode::Number(n) => assert_eq!(*n, 42),
                        _ => panic!("Expected number value"),
                    }
                },
                _ => panic!("Expected let node"),
            }
        },
        _ => panic!("Expected program node"),
    }
}

#[test]
fn test_parse_let_without_annotation() {
    let mut parser = Parser::new(tokenize("let x = true;"));
    let ast = parser.parse().unwrap();
    match ast {
        AstNode::Program(nodes) => match &nodes[0] {
            AstNode::Let { name, type_annotation, value } => {
                assert_eq!(name, "x");
                assert_eq!(*type_annotation, None);
                assert_eq!(**value, AstNode::Boolean(true));
            },
            _ => panic!("Expected let node"),
        },
        _ => panic!("Expected program node"),
    }
}

#[test]
fn test_parse_binary_expression_left_associative() {
    // A single precedence tier: 1 + 2 * 3 parses as (1 + 2) * 3.
    let mut parser = Parser::new(tokenize("let x = 1 + 2 * 3;"));
    let ast = parser.parse().unwrap();
    let expected_value = AstNode::BinaryOp {
        op: BinaryOperator::Multiply,
        left: Box::new(AstNode::BinaryOp {
            op: BinaryOperator::Add,
            left: Box::new(AstNode::Number(1)),
            right: Box::new(AstNode::Number(2)),
        }),
        right: Box::new(AstNode::Number(3)),
    };
    match ast {
        AstNode::Program(nodes) => match &nodes[0] {
            AstNode::Let { value, .. } => assert_eq!(**value, expected_value),
            _ => panic!("Expected let node"),
        },
        _ => panic!("Expected program node"),
    }
}

#[test]
fn test_parse_missing_semicolon_cites_semicolon() {
    // `fn main(): i32 { return 1 }` fails on the missing `;`, not with
    // a generic failure.
    let mut parser = Parser::new(tokenize("fn main(): i32 { return 1 }"));
    let err = parser.parse().unwrap_err();
    assert_eq!(
        err,
        SyntaxError { expected: Expected::Semicolon, found: Some(Token::RightBrace) }
    );
}

#[test]
fn test_parse_missing_return_type() {
    // Without `: i32` after the parameter list, the parse fails at the
    // colon the grammar requires there.
    let mut parser = Parser::new(tokenize("fn main() { return 1 }"));
    let err = parser.parse().unwrap_err();
    assert_eq!(
        err,
        SyntaxError { expected: Expected::ColonAfterParameters, found: Some(Token::LeftBrace) }
    );
}

#[test]
fn test_parse_let_in_function_body_rejected() {
    // A function body permits only return statements.
    let mut parser = Parser::new(tokenize("fn main(): i32 { let a: i32 = 1; return a; }"));
    let err = parser.parse().unwrap_err();
    assert_eq!(err, SyntaxError { expected: Expected::ReturnStatement, found: Some(Token::Let) });
}

#[test]
fn test_parse_unterminated_input() {
    let mut parser = Parser::new(tokenize("fn main(): i32 { return 1;"));
    let err = parser.parse().unwrap_err();
    assert_eq!(err, SyntaxError { expected: Expected::ReturnStatement, found: None });
}

#[test]
fn test_parse_function_with_params() {
    let mut parser = Parser::new(tokenize("fn add(a: i32, b: i32): i32 { return 1; }"));
    let ast = parser.parse().unwrap();
    match ast {
        AstNode::Program(nodes) => match &nodes[0] {
            AstNode::Function { name, params, .. } => {
                assert_eq!(name, "add");
                assert_eq!(
                    *params,
                    vec![
                        ("a".to_string(), "i32".to_string()),
                        ("b".to_string(), "i32".to_string()),
                    ]
                );
            },
            _ => panic!("Expected function node"),
        },
        _ => panic!("Expected program node"),
    }
}

#[test]
fn test_parse_empty_input_is_empty_program() {
    let mut parser = Parser::new(Vec::new());
    assert_eq!(parser.parse().unwrap(), AstNode::Program(Vec::new()));
}

#[test]
fn test_parse_error_variants() {
    let cases: Vec<(&str, Expected)> = vec![
        ("42", Expected::Declaration),
        ("fn (): i32 { }", Expected::FunctionName),
        ("fn main: i32 { }", Expected::LeftParen),
        ("fn f(,): i32 { }", Expected::ParameterName),
        ("fn f(a i32): i32 { }", Expected::ColonAfterParameterName),
        ("fn f(a: 5): i32 { }", Expected::TypeName),
        ("fn main() { return 1; }", Expected::ColonAfterParameters),
        ("fn main(): bool { }", Expected::ReturnType),
        ("fn main(): i32 return 1;", Expected::LeftBrace),
        ("let 5 = 1;", Expected::VariableName),
        ("let x 5;", Expected::Equals),
        ("let x: = 1;", Expected::TypeName),
        ("let x = ;", Expected::Expression),
        ("let x = 1", Expected::Semicolon),
    ];
    for (source, expected) in cases {
        let mut parser = Parser::new(tokenize(source));
        let err = parser.parse().expect_err(source);
        assert_eq!(err.expected, expected, "for source: {}", source);
    }
}
