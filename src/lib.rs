//! A tree-walking interpreter for a small, dynamically typed scripting language:
//! a scanner from text to positioned tokens, a recursive-descent parser from tokens
//! to a syntax tree, and an evaluator over a stack of scopes.

pub mod errors;
pub mod text;
pub mod tokens;
pub mod lexical;
pub mod readers;
pub mod scanner;
pub mod structure;
pub mod classes;
pub mod grammar;
pub mod parser;
pub mod parse_expr;
pub mod parse_class;
pub mod definitions;
pub mod state;
pub mod semantics;
pub mod operations;
pub mod locate;
pub mod executing;
pub mod interpreter;
pub mod diagnostics;
pub mod laws;
