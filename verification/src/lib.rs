//! A small compiler front-end: tokenizer, recursive-descent parser,
//! type checker, and a code-generation driver that plans the exact
//! sequence of backend instructions for a validated syntax tree.

pub mod ast;
pub mod codegen;
pub mod laws;
pub mod lexer;
pub mod parser;
pub mod typecheck;
pub mod types;

pub use ast::AstNode;
pub use ast::BinaryOperator;
pub use codegen::CodeGen;
pub use typecheck::TypeChecker;
