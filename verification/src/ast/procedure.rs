//! Procedure and function literals.
use vstd::prelude::*;
use crate::ast::{Ast, AstView};
use crate::ast::argument::{Argument, ArgumentView};
use crate::ast::block::{Block, BlockView};
use crate::types::position::Span;

verus! {

/// `proc|args|: return_type { content }`, or `fn` for a function, which closes
/// over constants only.
#[derive(Debug)]
pub struct Procedure {
    pub is_fn: bool,
    pub kwd_span: Option<Span>,
    pub args: Vec<Argument>,
    pub return_type: Option<Box<Ast>>,
    pub content: Block,
}

pub struct ProcedureView {
    pub is_fn: bool,
    pub kwd_span: Option<Span>,
    pub args: Seq<ArgumentView>,
    pub return_type: Option<Box<AstView>>,
    pub content: BlockView,
}

} // verus!
