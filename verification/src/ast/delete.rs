//! Deletion of names.
use vstd::prelude::*;
use crate::ast::ident::{Ident, IdentView};
use crate::types::position::Span;

verus! {

/// `del a, b, ...`.
#[derive(Debug)]
pub struct Delete {
    pub kwd_span: Option<Span>,
    pub names: Vec<Ident>,
}

pub struct DeleteView {
    pub kwd_span: Option<Span>,
    pub names: Seq<IdentView>,
}

} // verus!
