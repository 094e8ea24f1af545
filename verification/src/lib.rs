//! A front end and tree-walking evaluator for a small statically typed
//! scripting language with a Kotlin-like surface syntax: a lexer, a
//! recursive-descent parser producing a spanned abstract syntax tree, a
//! static type checker, and an interpreter that executes the checked tree.
//!
//! Source text is handled as a byte buffer; spans are half-open byte-offset
//! ranges into it. Every stage is specified against a pure mathematical
//! model: the lexer against a token-stream function, the parser against a
//! grammar function over token windows, the checker against a functional
//! walk that accumulates diagnostics, and the evaluator against a fuelled
//! big-step semantics.

pub mod analyzer;
pub mod ast;
pub mod interpreter;
pub mod lexer;
pub mod parser;

