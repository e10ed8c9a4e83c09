//! A small teaching implementation of an indentation-structured pseudocode
//! language: a tokenizer, a recursive-descent parser, a lowering pass to a
//! linear register-style intermediate representation, a single-stepping
//! virtual machine for that representation, and a tree-walking interpreter
//! sharing the same value model.

pub mod compiler;
pub mod error;
pub mod interpreter;
pub mod numerics;
pub mod parser;
pub mod tokenizer;
pub mod virtualmachine;
