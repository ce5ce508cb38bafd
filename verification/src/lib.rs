pub mod token;
pub mod expr;
pub mod lexer;
pub mod stmt;
pub mod parser;
pub mod types;
pub mod semantics;
pub mod typed_ast;
pub mod literals;
pub mod cgen;
