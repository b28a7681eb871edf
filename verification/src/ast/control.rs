//! Statements that steer evaluation: `ret` and `defer`.
use vstd::prelude::*;
use crate::ast::{Ast, AstView};
use crate::types::position::Span;

verus! {

/// Leaves the nearest enclosing returnable block with a value.
#[derive(Debug)]
pub struct Return {
    pub kwd_span: Option<Span>,
    pub value: Box<Ast>,
}

pub struct ReturnView {
    pub kwd_span: Option<Span>,
    pub value: Box<AstView>,
}

/// Registers a statement to run when the current frame is popped.
#[derive(Debug)]
pub struct Defer {
    pub kwd_span: Option<Span>,
    pub content: Box<Ast>,
}

pub struct DeferView {
    pub kwd_span: Option<Span>,
    pub content: Box<AstView>,
}

} // verus!
