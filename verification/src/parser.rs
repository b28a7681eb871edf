//! The rewrite buffer and the parser passes that reduce it.
pub mod assignment_opr;
pub mod buffer;
pub mod expr;
pub mod grammar;
pub mod operator;
pub mod postfix;
pub mod proc_fn;
pub mod statement;
