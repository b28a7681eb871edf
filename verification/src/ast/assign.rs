//! Assignments.
use vstd::prelude::*;
use crate::ast::{Ast, AstView};
use crate::types::position::Span;

verus! {

/// `variable = content`.
#[derive(Debug)]
pub struct Assign {
    pub variable: Box<Ast>,
    pub eq_span: Option<Span>,
    pub content: Box<Ast>,
}

pub struct AssignView {
    pub variable: Box<AstView>,
    pub eq_span: Option<Span>,
    pub content: Box<AstView>,
}

} // verus!
