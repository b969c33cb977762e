use nova_lang::lexer::tokenize;
use nova_lang::parser::Parser;
use nova_lang::typecheck::{TypeChecker, TypeError};
use nova_lang::types::Type;
use nova_lang::AstNode;

#[test]
fn test_type_checker() {
    let mut checker = TypeChecker::new();
    let node = AstNode::Let {
        name: "x".to_string(),
        type_annotation: Some("int".to_string()),
        value: Box::new(AstNode::Number(42)),
    };

    assert_eq!(checker.check(&node), Ok(Type::Int));

    let node_error = AstNode::Let {
        name: "y".to_string(),
        type_annotation: Some("string".to_string()),
        value: Box::new(AstNode::Number(42)),
    };

    assert!(checker.check(&node_error).is_err());
}

#[test]
fn test_type_checker_mismatch_names_both_types() {
    // `let y: string = 42;` fails with a mismatch naming String and Int.
    let mut checker = TypeChecker::new();
    let node = AstNode::Let {
        name: "y".to_string(),
        type_annotation: Some("string".to_string()),
        value: Box::new(AstNode::Number(42)),
    };
    assert_eq!(
        checker.check(&node),
        Err(TypeError::Mismatch { expected: Type::String, actual: Type::Int })
    );
}

#[test]
fn test_type_checker_parsed_let_with_keyword_annotation() {
    // The `i32` annotation written in source resolves to Int.
    let mut parser = Parser::new(tokenize("let x: i32 = 42;"));
    let ast = parser.parse().unwrap();
    let mut checker = TypeChecker::new();
    assert_eq!(checker.check(&ast), Ok(Type::Int));
}

#[test]
fn test_type_checker_unknown_type_name() {
    let mut checker = TypeChecker::new();
    let node = AstNode::Let {
        name: "z".to_string(),
        type_annotation: Some("qux".to_string()),
        value: Box::new(AstNode::Number(1)),
    };
    assert_eq!(checker.check(&node), Err(TypeError::UnknownTypeName("qux".to_string())));
}

#[test]
fn test_type_checker_literals() {
    let mut checker = TypeChecker::new();
    assert_eq!(checker.check(&AstNode::Number(7)), Ok(Type::Int));
    assert_eq!(checker.check(&AstNode::StringLiteral("s".to_string())), Ok(Type::String));
    assert_eq!(checker.check(&AstNode::Boolean(false)), Ok(Type::Bool));
}

#[test]
fn test_type_checker_bool_annotation() {
    let mut checker = TypeChecker::new();
    let node = AstNode::Let {
        name: "b".to_string(),
        type_annotation: Some("bool".to_string()),
        value: Box::new(AstNode::Boolean(true)),
    };
    assert_eq!(checker.check(&node), Ok(Type::Bool));
}

#[test]
fn test_type_checker_unsupported_node() {
    // Identifier lookup has no checking rule yet.
    let mut checker = TypeChecker::new();
    assert_eq!(
        checker.check(&AstNode::Identifier("x".to_string())),
        Err(TypeError::UnsupportedNode)
    );
}

#[test]
fn test_type_checker_empty_program_is_void() {
    let mut checker = TypeChecker::new();
    assert_eq!(checker.check(&AstNode::Program(Vec::new())), Ok(Type::Void));
}

#[test]
fn test_type_checker_return_propagates() {
    let mut checker = TypeChecker::new();
    let node = AstNode::Return(Box::new(AstNode::StringLiteral("s".to_string())));
    assert_eq!(checker.check(&node), Ok(Type::String));
}
