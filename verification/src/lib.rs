//! Semantic core of a small statically typed, expression-oriented language:
//! the syntax tree, a scanner and parser that build it, a type checker that
//! annotates it, and a code generator that lowers the annotated tree into a
//! textual, register-based intermediate representation.

pub mod text;
pub mod type_;
pub mod expr;
pub mod function;
pub mod program;
pub mod type_check;
pub mod ir;
pub mod codegen;
pub mod laws;
pub mod generator_laws;
pub mod parse;
