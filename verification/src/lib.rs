//! A small Lisp: a reader that turns text into expression trees, and an evaluator
//! that runs them against lexically scoped frames held in an arena.

pub mod eval;
pub mod printer;
pub mod reader;
pub mod session;
pub mod text;
pub mod types;
