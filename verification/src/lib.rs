//! An evaluator for a small Lisp-family language: a tagged tree of value
//! nodes annotated with source locations, a stack of binding levels with
//! call and loop markers, and a recursive dispatcher that resolves symbols,
//! applies forms, expands quasiquotes and macros, and carries non-local
//! control flow and error trails as explicit values. The whole engine is
//! specified by a mathematical interpreter over models of those types, and
//! the executable code is proved to follow it.

pub mod binding;
pub mod complete;
pub mod convert;
pub mod digits;
pub mod error;
pub mod eval;
pub mod float;
pub mod laws;
pub mod location;
pub mod object;
pub mod render;
pub mod scope;
pub mod semantics;
