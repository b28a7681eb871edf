//! Unary operators.
use vstd::prelude::*;
use crate::ast::{Ast, AstView};
use crate::types::position::Span;
use crate::types::token::UnaryOprType;

verus! {

/// `<ty> operand`.
#[derive(Debug)]
pub struct UnaryOpr {
    pub ty: UnaryOprType,
    pub opr_span: Option<Span>,
    pub operand: Box<Ast>,
}

pub struct UnaryOprView {
    pub ty: UnaryOprType,
    pub opr_span: Option<Span>,
    pub operand: Box<AstView>,
}

} // verus!
