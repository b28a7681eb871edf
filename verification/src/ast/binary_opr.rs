//! Binary operators.
use vstd::prelude::*;
use crate::ast::{Ast, AstView};
use crate::types::position::Span;
use crate::types::token::OprType;

verus! {

/// `operand1 <ty> operand2`.
#[derive(Debug)]
pub struct BinaryOpr {
    pub ty: OprType,
    pub opr_span: Option<Span>,
    pub operand1: Box<Ast>,
    pub operand2: Box<Ast>,
}

pub struct BinaryOprView {
    pub ty: OprType,
    pub opr_span: Option<Span>,
    pub operand1: Box<AstView>,
    pub operand2: Box<AstView>,
}

} // verus!
