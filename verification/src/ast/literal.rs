//! Literal values.
use vstd::prelude::*;
use crate::types::position::Span;
use crate::types::value::{Value, ValueView};

verus! {

/// A value written out in the source, or placed in the tree by a pass.
#[derive(Debug)]
pub struct Literal {
    pub span: Option<Span>,
    pub content: Value,
}

pub struct LiteralView {
    pub span: Option<Span>,
    pub content: ValueView,
}

} // verus!
