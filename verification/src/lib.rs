//! An interpreter for the Atoy toy language: a lexer, a recursive-descent
//! parser, a compiler to stack-machine code and a stack virtual machine,
//! each with its behaviour stated as a contract.

pub mod text;
pub mod token;
pub mod lexer;
pub mod ast;
pub mod grammar;
pub mod parser;
pub mod value;
pub mod codegen;
pub mod compiler;
pub mod runtime;
pub mod heap;
pub mod builtin;
pub mod invoke;
pub mod machine;
pub mod vm;
pub mod laws;
