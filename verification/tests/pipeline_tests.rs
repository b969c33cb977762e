use nova_lang::codegen::CodeGen;
use nova_lang::lexer::tokenize;
use nova_lang::parser::Parser;
use nova_lang::typecheck::TypeChecker;
use nova_lang::types::Type;
use nova_lang::AstNode;

#[test]
fn test_single_return_function_pipeline() {
    // A program of one `fn name(): i32 { return <literal>; }` parses
    // to exactly one function whose body is one return of the number,
    // and type-checks to Int.
    let mut parser = Parser::new(tokenize("fn seven(): i32 { return 7; }"));
    let ast = parser.parse().unwrap();
    let expected = AstNode::Program(vec![AstNode::Function {
        name: "seven".to_string(),
        params: Vec::new(),
        body: Box::new(AstNode::Program(vec![AstNode::Return(Box::new(AstNode::Number(7)))])),
    }]);
    assert_eq!(ast, expected);
    let mut checker = TypeChecker::new();
    assert_eq!(checker.check(&ast), Ok(Type::Int));
}

#[test]
fn test_round_trip_to_backend_calls() {
    // Source text through every stage: tokenize, parse, type-check,
    // and plan the backend calls for the object file.
    let source = "fn main(): i32 { return 1; }";
    let tokens = tokenize(source);
    assert!(tokens.len() > 0);
    let mut parser = Parser::new(tokens);
    let ast = parser.parse().unwrap();
    let mut checker = TypeChecker::new();
    assert_eq!(checker.check(&ast), Ok(Type::Int));
    let mut codegen = CodeGen::new();
    assert!(codegen.generate(&ast).is_ok());
    assert!(codegen.ops().len() > 0);
}

#[test]
fn test_top_level_let_then_function() {
    // Identifier lookup has no type-checking rule, so a returned
    // variable fails the check; generation still resolves its slot.
    let source = "let a: i32 = 1; fn main(): i32 { return a; }";
    let mut parser = Parser::new(tokenize(source));
    let ast = parser.parse().unwrap();
    let mut checker = TypeChecker::new();
    assert_eq!(checker.check(&ast), Err(nova_lang::typecheck::TypeError::UnsupportedNode));
    let mut codegen = CodeGen::new();
    assert!(codegen.generate(&ast).is_ok());
}
