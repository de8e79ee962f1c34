//! A small embedded scripting language: lexical scanning, recursive-descent
//! parsing into an abstract syntax tree, and tree-walking evaluation.
//!
//! The pipeline turns source text into a sequence of executed results:
//! source bytes -> tokens -> statements -> runtime values. Each stage is
//! specified by a mathematical model of its result and verified against it.

pub mod interpreter;
