//! Blocks of statements.
use vstd::prelude::*;
use crate::ast::{Ast, AstView};
use crate::types::position::Span;

verus! {

/// A sequence of statements, with the spans of its braces where it has any.
#[derive(Debug)]
pub struct Block {
    pub brace_spans: Option<(Span, Span)>,
    pub content: Vec<Ast>,
}

pub struct BlockView {
    pub brace_spans: Option<(Span, Span)>,
    pub content: Seq<AstView>,
}

} // verus!
