//! The evaluation engine of LV8, a small dynamically typed scripting language.
//!
//! The engine is a resumable machine: the embedding program submits a parsed
//! program, then calls [`evaluator::Evaluator::advance`] until the run is
//! finished, performing on the way what the machine asks of it (floating-point
//! arithmetic, native functions, reading imported files).
//!
//! The syntax tree of a program is built by [`parser::parse`] from the tree
//! of nodes that the parser of the grammar gives.

pub mod action;
pub mod ast;
pub mod block;
pub mod either;
pub mod error;
pub mod evaluator;
pub mod expression;
pub mod flow_control;
pub mod function;
pub mod import;
pub mod laws;
pub mod module;
pub mod number;
pub mod order;
pub mod outcome;
pub mod parser;
pub mod repl;
pub mod request;
pub mod scope;
pub mod soundness;
pub mod statement;
pub mod stdlib;
pub mod task;
pub mod text;
pub mod value;
