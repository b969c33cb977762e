use nova_lang::codegen::{BackendOp, CodeGen, CodeGenError, Operand};
use nova_lang::lexer::tokenize;
use nova_lang::parser::Parser;
use nova_lang::AstNode;

fn parse_source(source: &str) -> AstNode {
    let mut parser = Parser::new(tokenize(source));
    parser.parse().unwrap()
}

#[test]
fn test_codegen() {
    let mut codegen = CodeGen::new();
    let ast = AstNode::Program(vec![AstNode::Number(42)]);
    assert!(codegen.generate(&ast).is_ok());
}

#[test]
fn test_codegen_single_return_function_calls() {
    // `fn main(): i32 { return 42; }` plans exactly the module, the
    // function, its entry block, the return of the 32-bit constant,
    // and the verification request.
    let ast = parse_source("fn main(): i32 { return 42; }");
    let mut codegen = CodeGen::new();
    assert!(codegen.generate(&ast).is_ok());
    assert_eq!(
        *codegen.ops(),
        vec![
            BackendOp::CreateModule { name: "nova".to_string() },
            BackendOp::AddFunction { name: "main".to_string(), ret_bits: 32, param_bits: vec![] },
            BackendOp::AppendBlock { label: "entry".to_string() },
            BackendOp::PositionAtEnd { label: "entry".to_string() },
            BackendOp::Ret { value: Operand::ConstInt { bits: 32, value: 42 } },
            BackendOp::VerifyFunction { name: "main".to_string() },
        ]
    );
}

#[test]
fn test_codegen_empty_body_gets_implicit_return_zero() {
    // A function without a return ends with an implicit `return 0`.
    let ast = parse_source("fn main(): i32 { }");
    let mut codegen = CodeGen::new();
    assert!(codegen.generate(&ast).is_ok());
    let ops = codegen.ops();
    assert_eq!(ops[ops.len() - 1], BackendOp::VerifyFunction { name: "main".to_string() });
    assert_eq!(
        ops[ops.len() - 2],
        BackendOp::Ret { value: Operand::ConstInt { bits: 32, value: 0 } }
    );
    assert_eq!(ops[ops.len() - 3], BackendOp::ConstInt { bits: 32, value: 0 });
}

#[test]
fn test_codegen_regeneration_is_identical() {
    // Re-generating the same tree into a fresh driver produces
    // structurally identical output.
    let ast = parse_source("fn main(): i32 { return 42; }");
    let mut first = CodeGen::new();
    let mut second = CodeGen::new();
    assert!(first.generate(&ast).is_ok());
    assert!(second.generate(&ast).is_ok());
    assert_eq!(first.ops(), second.ops());
}

#[test]
fn test_codegen_undefined_variable() {
    // `return undeclared_var;` with nothing bound fails by name.
    let ast = parse_source("fn main(): i32 { return undeclared_var; }");
    let mut codegen = CodeGen::new();
    assert_eq!(
        codegen.generate(&ast),
        Err(CodeGenError::UndefinedVariable("undeclared_var".to_string()))
    );
}

#[test]
fn test_codegen_let_allocates_stores_and_loads() {
    // A top-level binding allocates a 32-bit slot for the constant and
    // stores it; a later load of the name reads 64 bits from that slot.
    let ast = AstNode::Program(vec![
        AstNode::Let {
            name: "a".to_string(),
            type_annotation: Some("i32".to_string()),
            value: Box::new(AstNode::Number(1)),
        },
        AstNode::Return(Box::new(AstNode::Identifier("a".to_string()))),
    ]);
    let mut codegen = CodeGen::new();
    assert!(codegen.generate(&ast).is_ok());
    assert_eq!(
        *codegen.ops(),
        vec![
            BackendOp::CreateModule { name: "nova".to_string() },
            BackendOp::Alloca { bits: 32, name: "a".to_string(), slot: 0 },
            BackendOp::Store { slot: 0, value: Operand::ConstInt { bits: 32, value: 1 } },
            BackendOp::Load { bits: 64, slot: 0, name: "a".to_string() },
            BackendOp::Ret { value: Operand::Load { bits: 64, slot: 0, name: "a".to_string() } },
        ]
    );
}

#[test]
fn test_codegen_double_return_fails_verification() {
    // A second return builds an instruction after the terminator, and
    // the function then fails the structural check.
    let ast = parse_source("fn main(): i32 { return 1; return 2; }");
    let mut codegen = CodeGen::new();
    assert_eq!(
        codegen.generate(&ast),
        Err(CodeGenError::VerificationFailed("main".to_string()))
    );
}

#[test]
fn test_codegen_unsupported_value() {
    // A boolean cannot yet be materialized as a value operand.
    let ast = AstNode::Return(Box::new(AstNode::Boolean(true)));
    let mut codegen = CodeGen::new();
    assert_eq!(codegen.generate(&ast), Err(CodeGenError::UnsupportedValue));
}

#[test]
fn test_codegen_statement_number_materializes_wide_constant() {
    // A number in statement position materializes a 64-bit constant
    // and nothing else.
    let ast = AstNode::Program(vec![AstNode::Number(42)]);
    let mut codegen = CodeGen::new();
    assert!(codegen.generate(&ast).is_ok());
    assert_eq!(
        *codegen.ops(),
        vec![
            BackendOp::CreateModule { name: "nova".to_string() },
            BackendOp::ConstInt { bits: 64, value: 42 },
        ]
    );
}

#[test]
fn test_codegen_create_function_binds_parameters() {
    // Opening a function with parameters allocates a slot per
    // parameter and stores the parameter value into it.
    let mut codegen = CodeGen::new();
    let args = vec![("a".to_string(), 32u32), ("b".to_string(), 64u32)];
    codegen.create_function("add", &args, 32);
    assert_eq!(
        *codegen.ops(),
        vec![
            BackendOp::CreateModule { name: "nova".to_string() },
            BackendOp::AddFunction {
                name: "add".to_string(),
                ret_bits: 32,
                param_bits: vec![32, 64],
            },
            BackendOp::AppendBlock { label: "entry".to_string() },
            BackendOp::PositionAtEnd { label: "entry".to_string() },
            BackendOp::Alloca { bits: 32, name: "a".to_string(), slot: 0 },
            BackendOp::Store { slot: 0, value: Operand::Arg { index: 0, bits: 32 } },
            BackendOp::Alloca { bits: 64, name: "b".to_string(), slot: 1 },
            BackendOp::Store { slot: 1, value: Operand::Arg { index: 1, bits: 64 } },
        ]
    );
}

#[test]
fn test_codegen_unhandled_statement_is_noop() {
    // Statement-position nodes without a rule are silently accepted.
    let ast = AstNode::Program(vec![AstNode::Boolean(true)]);
    let mut codegen = CodeGen::new();
    assert!(codegen.generate(&ast).is_ok());
    assert_eq!(
        *codegen.ops(),
        vec![BackendOp::CreateModule { name: "nova".to_string() }]
    );
}
