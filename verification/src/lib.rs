//! Front-end lowering stage for a small Go-like language.
//!
//! A rule-tagged parse tree is lowered into a validated abstract syntax
//! tree (a module with its package name, import list and function table,
//! and expression trees with precedence baked into their shape), and
//! expression trees are reduced to values in two modes: a context-free
//! static evaluation used for constant folding, and a context-bound
//! runtime evaluation used when executing against live program state.

pub mod errors;
pub mod eval;
pub mod expr;
pub mod laws;
pub mod module;
pub mod names;
pub mod rules;
