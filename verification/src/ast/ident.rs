//! Identifiers.
use vstd::prelude::*;
use crate::types::position::Span;

verus! {

/// A name as written in the source.
#[derive(Debug)]
pub struct Ident {
    pub name: String,
    pub name_span: Option<Span>,
}

pub struct IdentView {
    pub name: Seq<char>,
    pub name_span: Option<Span>,
}

impl View for Ident {
    type V = IdentView;

    open spec fn view(&self) -> IdentView {
        IdentView { name: self.name@, name_span: self.name_span }
    }
}

} // verus!
