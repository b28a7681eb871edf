//! Classes and structs.
use vstd::prelude::*;
use crate::ast::{Ast, AstView};
use crate::ast::argument::{Argument, ArgumentView};
use crate::ast::block::{Block, BlockView};

verus! {

/// A class or struct literal. The node keeps what it lists as it was
/// written; the definition that it gives holds members and fields in the
/// order of their names.
#[derive(Debug)]
pub struct Class {
    pub is_struct: bool,
    pub implementations: Vec<(String, Ast)>,
    pub inst_fields: Vec<Argument>,
    pub content: Option<Block>,
    pub args: Option<Vec<Argument>>,
}

pub struct ClassView {
    pub is_struct: bool,
    pub implementations: Seq<(Seq<char>, AstView)>,
    pub inst_fields: Seq<ArgumentView>,
    pub content: Option<BlockView>,
    pub args: Option<Seq<ArgumentView>>,
}

} // verus!
