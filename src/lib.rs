//! Front end and typed lowering for a small imperative language: a parser
//! from spanned tokens to a span-annotated syntax tree, and a code generator
//! from that tree to a module of SSA-style functions.
pub mod ast;
pub mod compile;
pub mod grammar;
pub mod ir;
pub mod parser;
pub mod text;
