//! Translator from a small event-driven scripting dialect to the block-based
//! editor's script format: lexer, parser building an intermediate
//! representation, and a code generator emitting the nested JSON wire value.

pub mod text;
pub mod ir;
pub mod lexer;
pub mod parser;
pub mod json;
pub mod codegen;
pub mod laws;
