//! Declarations.
use vstd::prelude::*;
use crate::ast::{Ast, AstView};
use crate::types::position::Span;
use crate::types::token::Flag;

verus! {

/// `flags variable : ty := content`.
#[derive(Debug)]
pub struct Declare {
    pub variable: Box<Ast>,
    pub content: Box<Ast>,
    pub flags: Vec<(Flag, Span)>,
    pub ty: Option<Box<Ast>>,
    pub eq_span: Option<Span>,
}

pub struct DeclareView {
    pub variable: Box<AstView>,
    pub content: Box<AstView>,
    pub flags: Seq<(Flag, Span)>,
    pub ty: Option<Box<AstView>>,
    pub eq_span: Option<Span>,
}

} // verus!
