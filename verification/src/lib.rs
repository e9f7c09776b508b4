//! Front-end parser for the NL language: source text in, abstract syntax
//! tree or located diagnostic out.
pub mod ast;
pub mod decl;
pub mod err;
pub mod lex;
pub mod expr;
pub mod laws;
pub mod literal;
pub mod root;
pub mod ty;
pub mod views;
