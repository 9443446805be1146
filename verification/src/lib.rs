//! Compilation and type-inference core of an embedded expression language.
//!
//! Callers hand the registry a call site (a function identifier plus named
//! argument expressions); the matching built-in's compile step validates the
//! arguments against its parameter schema, folds the constant ones, and returns
//! an immutable expression node. Each node statically describes the value
//! kinds it can produce and whether it may fail at runtime (`TypeDef`), and is
//! resolved once per input record against a `Context` to yield a `Value` or a
//! runtime error.

pub mod expression;
pub mod function;
pub mod go_time;
pub mod kind;
pub mod parse_go_timestamp;
pub mod types;
pub mod value;
