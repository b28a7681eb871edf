//! Data shared by every stage: source positions, tokens, types, values and scopes.
pub mod bootstrap;
pub mod convert;
pub mod display;
pub mod lazy;
pub mod name_map;
pub mod namespace;
pub mod position;
pub mod sym_table;
pub mod token;
pub mod typeobj;
pub mod value;
