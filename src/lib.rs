//! An interpreter for a small Scheme-like Lisp: values and expressions, an
//! arena of lexical environments, and a recursive evaluator whose behaviour is
//! stated as a big-step semantics over a mathematical model of the data.
pub mod rational;
pub mod types;
pub mod error;
pub mod environment;
pub mod builtin;
pub mod text;
pub mod evaluator;
pub mod tokenizer;
pub mod parser;
pub mod reader;
pub mod config;
pub mod laws;
