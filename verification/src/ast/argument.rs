//! Named, typed parameters.
use vstd::prelude::*;
use crate::ast::{Ast, AstView};
use crate::ast::ident::{Ident, IdentView};

verus! {

/// A parameter of a procedure or a class, or an instance field of a class:
/// a name, the expression that gives its type and, where there is one, its default.
#[derive(Debug)]
pub struct Argument {
    pub name: Ident,
    pub ty: Box<Ast>,
    pub default: Option<Box<Ast>>,
}

pub struct ArgumentView {
    pub name: IdentView,
    pub ty: Box<AstView>,
    pub default: Option<Box<AstView>>,
}

} // verus!
