//! A small interpreted language: a lexer that turns source text into
//! positioned tokens, a Pratt parser that turns tokens into an abstract
//! syntax tree while recovering from syntax errors, and a tree-walking
//! evaluator over a chained lexical environment with let-bindings,
//! conditionals, integers, booleans and first-class functions.

pub mod ast;
pub mod environment;
pub mod eval;
pub mod lexer;
pub mod object;
pub mod parser;
pub mod render;
pub mod strings;
pub mod token;
