//! Member access.
use vstd::prelude::*;
use crate::ast::{Ast, AstView};
use crate::types::position::Span;
use crate::types::token::AccessType;

verus! {

/// `parent.name`.
#[derive(Debug)]
pub struct Member {
    pub ty: AccessType,
    pub name: String,
    pub parent: Box<Ast>,
    pub name_span: Option<Span>,
    pub dot_span: Option<Span>,
}

pub struct MemberView {
    pub ty: AccessType,
    pub name: Seq<char>,
    pub parent: Box<AstView>,
    pub name_span: Option<Span>,
    pub dot_span: Option<Span>,
}

} // verus!
