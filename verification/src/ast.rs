//! The syntax tree and the four operations every node offers.
pub mod argument;
pub mod assign;
pub mod binary_opr;
pub mod block;
pub mod budget;
pub mod call;
pub mod check;
pub mod class;
pub mod control;
pub mod copy;
pub mod declare;
pub mod delete;
pub mod desugar;
pub mod equal;
pub mod eval;
pub mod ident;
pub mod interpret;
pub mod literal;
pub mod member;
pub mod members;
pub mod procedure;
pub mod reconstruct;
pub mod span;
pub mod typecheck;
pub mod unary_opr;
pub mod view;

use vstd::prelude::*;
use crate::ast::binary_opr::{BinaryOpr, BinaryOprView};
use crate::ast::block::{Block, BlockView};
use crate::ast::call::{Call, CallView};
use crate::ast::class::{Class, ClassView};
use crate::ast::control::{Defer, DeferView, Return, ReturnView};
use crate::ast::declare::{Declare, DeclareView};
use crate::ast::delete::{Delete, DeleteView};
use crate::ast::ident::{Ident, IdentView};
use crate::ast::literal::{Literal, LiteralView};
use crate::ast::member::{Member, MemberView};
use crate::ast::procedure::{Procedure, ProcedureView};
use crate::ast::unary_opr::{UnaryOpr, UnaryOprView};
use crate::ast::assign::{Assign, AssignView};

verus! {

/// A tree node. A parent owns its children.
#[derive(Debug)]
pub enum Ast {
    Literal(Literal),
    Ident(Ident),
    BinaryOpr(BinaryOpr),
    Block(Block),
    Declare(Declare),
    Assign(Assign),
    Delete(Delete),
    Class(Class),
    Call(Call),
    Member(Member),
    Procedure(Procedure),
    Return(Return),
    Defer(Defer),
    UnaryOpr(UnaryOpr),
}

/// The mathematical tree that an [`Ast`] stands for.
pub enum AstView {
    Literal(LiteralView),
    Ident(IdentView),
    BinaryOpr(BinaryOprView),
    Block(BlockView),
    Declare(DeclareView),
    Assign(AssignView),
    Delete(DeleteView),
    Class(ClassView),
    Call(CallView),
    Member(MemberView),
    Procedure(ProcedureView),
    Return(ReturnView),
    Defer(DeferView),
    UnaryOpr(UnaryOprView),
}

} // verus!
