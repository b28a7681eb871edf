//! Calls.
use vstd::prelude::*;
use crate::ast::{Ast, AstView};
use crate::types::position::Span;

verus! {

/// `called(args...)`.
#[derive(Debug)]
pub struct Call {
    pub called: Box<Ast>,
    pub paren_spans: Option<(Span, Span)>,
    pub args: Vec<Ast>,
}

pub struct CallView {
    pub called: Box<AstView>,
    pub paren_spans: Option<(Span, Span)>,
    pub args: Seq<AstView>,
}

} // verus!
