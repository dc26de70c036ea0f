//! A small arithmetic expression language: its syntax tree, its parser, and
//! the backends that walk a parsed tree.

pub mod ast;
pub mod parser;
pub mod symbols;
pub mod visitor;
