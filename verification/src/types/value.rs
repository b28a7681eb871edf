//! Runtime values.
use vstd::prelude::*;
use crate::ast::argument::{Argument, ArgumentView};
use crate::ast::block::{Block, BlockView};
use crate::types::typeobj::{Type, TypeView};

verus! {

/// The integer kinds whose values the library holds.
#[derive(Clone, Copy, Debug, PartialEq, Eq, Structural)]
pub enum IntKind {
    I8,
    I16,
    I32,
    I64,
    I128,
    Isize,
    U8,
    U16,
    U32,
    U64,
    Usize,
}

/// The built-in primitive types.
#[derive(Clone, Copy, Debug, PartialEq, Eq, Structural)]
pub enum Prim {
    Int(IntKind),
    Bool,
    Str,
    Unit,
    Type,
    Proc,
    /// Bound under its name as a type; no value of it is held, so it
    /// registers no operation.
    U128,
    /// A name only, as `U128`.
    Ibig,
    /// A name only, as `U128`.
    Ubig,
    /// A name only, as `U128`.
    F16,
    /// A name only, as `U128`.
    F32,
    /// A name only, as `U128`.
    F64,
}

/// The operations a primitive type may register in its namespace.
#[derive(Clone, Copy, Debug, PartialEq, Eq, Structural)]
pub enum BuiltinOp {
    Add,
    Sub,
    Mul,
    Div,
    Rem,
    Eq,
    Ne,
    Lt,
    Le,
    Gt,
    Ge,
    Concat,
    Typecast,
    Not,
    UnPlus,
    UnMinus,
}

/// One operation of one primitive type.
#[derive(Clone, Copy, Debug, PartialEq, Eq, Structural)]
pub struct Builtin {
    pub prim: Prim,
    pub op: BuiltinOp,
}

/// A procedure written in the language itself.
#[derive(Debug)]
pub struct DefinedProc {
    pub is_fn: bool,
    pub args: Vec<Argument>,
    pub return_type: Box<Type>,
    pub content: Block,
}

pub struct DefinedProcView {
    pub is_fn: bool,
    pub args: Seq<ArgumentView>,
    pub return_type: Box<TypeView>,
    pub content: BlockView,
}

/// Something that can be called.
#[derive(Debug)]
pub enum Proc {
    Builtin(Builtin),
    Defined(DefinedProc),
}

pub enum ProcView {
    Builtin(Builtin),
    Defined(DefinedProcView),
}

/// A runtime value.
#[derive(Debug)]
pub enum Value {
    Int(IntKind, i128),
    Bool(bool),
    Str(String),
    Type(Type),
    Proc(Proc),
    Unit,
    /// A value on its way out of the nearest returnable block.
    Return(Box<Value>),
}

pub enum ValueView {
    Int(IntKind, int),
    Bool(bool),
    Str(Seq<char>),
    Type(TypeView),
    Proc(ProcView),
    Unit,
    Return(Box<ValueView>),
}

} // verus!
