//! Compilation and evaluation core of an expression-oriented scripting language.
//!
//! A finished token stream is rewritten into a syntax tree by a ladder of
//! parser passes working on a [`parser::buffer::Buffer`], normalised into a
//! small core form, typechecked against a scope table of types and finally
//! evaluated against a scope table of values.
pub mod ast;
pub mod errors;
pub mod instructor;
pub mod parser;
pub mod primitives;
pub mod text;
pub mod types;
