//! A small indentation-structured scripting language: a lexer, a recursive-descent
//! parser, a tree-walking interpreter, and a bytecode compiler with a stack machine.
//! Numbers are exact rationals over 64-bit integers.

pub mod number;
pub mod ast;
pub mod interpreter;
pub mod lexer;
pub mod parser;
pub mod compiler;
pub mod vm;
pub mod error;
pub mod builtins;
pub mod agreement;
