//! An embeddable evaluator for a spreadsheet-style expression language.
//!
//! Source text is parsed into an abstract syntax tree, which a tree-walking
//! evaluator interprets against a session of named variables and a registry
//! of built-in functions.  Numbers are IEEE-754 binary64 values carried as
//! their bit patterns; rounded arithmetic is the one thing taken on trust,
//! from a soft-float library, while parsing, evaluation, comparison and the
//! built-ins are specified and verified.

pub mod ast;
pub mod engine;
pub mod evaluator;
pub mod function_registry;
pub mod functions;
pub mod laws;
pub mod lexer;
pub mod models;
pub mod numeric;
pub mod textops;
