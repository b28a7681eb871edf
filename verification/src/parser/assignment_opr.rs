//! The assignment pass.
use vstd::prelude::*;
use crate::ast::Ast;
use crate::ast::assign::Assign;
use crate::ast::binary_opr::BinaryOpr;
use crate::ast::view::ast_view;
use crate::errors::{ParseErrorKind, ZError};
use crate::parser::buffer::{Buffer, BufferWindow, Element, Item};
use crate::parser::expr::{failure, parse_sub_expr, pass_result, rewound};
use crate::parser::grammar::{assign_node, assign_spec, assignment_of, first_assignment};
use crate::types::token::{OprType, TokenType};

verus! {

/// The operator that an assignment token carries, if the item is one.
pub fn assignment(item: &Item) -> (r: Option<Option<OprType>>)
    ensures
        r == assignment_of(item@),
{
    match item {
        Item::Token(t) => match t.ty {
            Some(TokenType::AssignmentOpr(opr)) => Some(opr),
            _ => None,
        },
        Item::Node(_) => None,
    }
}

impl Buffer {
    /// The first position at which an assignment operator stands.
    pub fn find_assignment(&self) -> (r: Option<usize>)
        ensures
            match r {
                Some(k) => first_assignment(self@.content, 0) == Some(k as int) && k
                    < self@.content.len() && assignment_of(self@.content[k as int]) is Some,
                None => first_assignment(self@.content, 0) is None,
            },
    {
        let mut i: usize = 0;
        while i < self.content.len()
            invariant
                first_assignment(self@.content, i as int) == first_assignment(self@.content, 0),
            decreases self.content.len() - i,
        {
            assert(self@.content[i as int] == self.content@[i as int]@);
            if assignment(&self.content[i]).is_some() {
                return Some(i);
            }
            i += 1;
        }
        None
    }

    /// The assignment pass with the bound `n`.
    pub(crate) fn assignment_pass(&mut self, n: usize) -> (r: Result<(), ZError>)
        requires
            old(self)@.content.len() < usize::MAX,
        ensures
            pass_result(r, final(self)@.content, assign_spec(old(self)@.content, n as nat)),
            final(self)@.content.len() <= old(self)@.content.len(),
        decreases n, 3int, 0int,
    {
        let ghost items = self@.content;
        self.reset_cursor();
        let k = match self.find_assignment() {
            None => {
                return Ok(());
            },
            Some(k) => k,
        };
        let len = self.content.len();
        assert(items[k as int] == self.content@[k as int]@);
        if k < 1 {
            return Err(failure(ParseErrorKind::MissingOperand, &self.content[k]));
        }
        assert(items[k - 1] == self.content@[k - 1]@);
        let var = match &self.content[k - 1] {
            Item::Token(_) => {
                return Err(failure(ParseErrorKind::MissingOperand, &self.content[k]));
            },
            Item::Node(e) => e.duplicate(),
        };
        if k + 1 >= len {
            return Err(self.end_error());
        }
        let rest = self.window(k + 1..len);
        let rhs = match parse_sub_expr(rest.slice, n) {
            Err(e) => {
                return Err(e);
            },
            Ok(e) => e,
        };
        let eq_span = self.content[k].span();
        let content = match assignment(&self.content[k]) {
            Some(Some(opr)) => Ast::BinaryOpr(
                BinaryOpr {
                    ty: opr,
                    opr_span: eq_span,
                    operand1: Box::new(var.node.duplicate()),
                    operand2: Box::new(rhs.node),
                },
            ),
            _ => rhs.node,
        };
        let raw = self.raw_between(k - 1, len);
        let node = Item::Node(
            Element {
                raw,
                node: Ast::Assign(
                    Assign { variable: Box::new(var.node), eq_span, content: Box::new(content) },
                ),
            },
        );
        proof {
            reveal_with_fuel(ast_view, 3);
        }
        assert(node@ == assign_node(
            var@,
            items[k as int],
            rhs@,
            crate::parser::buffer::raw_text(items.subrange(k - 1, len as int)),
        ));
        let mut slice: Vec<Item> = Vec::new();
        slice.push(node);
        self.splice_buffer(BufferWindow { slice, range: k - 1..len });
        assert(self@.content =~= items.subrange(0, k - 1).push(node@));
        Ok(())
    }

    /// The assignment pass. The first assignment operator takes the node
    /// before it as its target; there has to be one, else this is a parse
    /// error. Everything behind the operator is parsed as an expression and
    /// is the content. A compound assignment `x OP= y` becomes the plain
    /// assignment `x = x OP y`. The target, the operator and the content are
    /// replaced by the one node; a buffer without an assignment operator
    /// stays as it is.
    pub fn parse_assignment_opr(&mut self) -> (r: Result<(), ZError>)
        requires
            old(self)@.content.len() < usize::MAX,
        ensures
            pass_result(
                r,
                final(self)@.content,
                assign_spec(old(self)@.content, old(self)@.content.len()),
            ),
            final(self)@.content.len() <= old(self)@.content.len(),
            final(self)@ == rewound(old(self)@, final(self)@.content),
            final(self)@.wf(),
    {
        let n = self.content.len();
        let saved = self.raw.take();
        let r = self.assignment_pass(n);
        self.rewind(saved);
        r
    }
}

} // verus!
