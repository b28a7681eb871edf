//! The pass for member accesses, calls and groups in parentheses.
use vstd::prelude::*;
use crate::ast::{Ast, AstView};
use crate::ast::call::Call;
use crate::ast::member::Member;
use crate::ast::view::asts_view;
use crate::errors::{ParseErrorKind, ZError};
use crate::parser::buffer::{closes_at, raw_text, Buffer, Element, Item, ItemView};
use crate::parser::expr::{failure, parse_sub_expr, parse_windows, pass_result, rewound};
use crate::parser::grammar::{call_item, first_postfix_trigger, is_postfix_trigger, member_item, parens, postfix_at, postfix_spec};
use crate::parser::statement::ident_of;
use crate::types::token::{AccessType, TokenType};

verus! {

/// Whether a member access, a call or a group begins at the item.
pub fn postfix_trigger(item: &Item) -> (r: bool)
    ensures
        r == is_postfix_trigger(item@),
{
    item.is_token(TokenType::DotOpr) || item.is_token(TokenType::OpenParen)
}

impl Buffer {
    /// The first position from `from` on at which a dot or an opening parenthesis stands.
    pub fn find_postfix_trigger(&self, from: usize) -> (r: Option<usize>)
        ensures
            match r {
                Some(k) => first_postfix_trigger(self@.content, from as int) == Some(k as int)
                    && from <= k < self@.content.len() && is_postfix_trigger(
                    self@.content[k as int],
                ),
                None => first_postfix_trigger(self@.content, from as int) is None,
            },
    {
        let mut i: usize = from;
        while i < self.content.len()
            invariant
                from <= i,
                first_postfix_trigger(self@.content, i as int) == first_postfix_trigger(
                    self@.content,
                    from as int,
                ),
            decreases self.content.len() - i,
        {
            assert(self@.content[i as int] == self.content@[i as int]@);
            if postfix_trigger(&self.content[i]) {
                return Some(i);
            }
            i += 1;
        }
        None
    }

    /// A copy of the node at `i`, if a node stands there.
    fn node_at(&self, i: usize) -> (r: Option<Ast>)
        requires
            i < self@.content.len(),
        ensures
            match r {
                Some(a) => self@.content[i as int] matches ItemView::Node(e) && e.node == a@,
                None => !(self@.content[i as int] is Node),
            },
    {
        assert(self@.content[i as int] == self.content@[i as int]@);
        match &self.content[i] {
            Item::Node(e) => Some(e.node.duplicate()),
            Item::Token(_) => None,
        }
    }

    /// The member access that the dot at `k` begins.
    fn parse_member_at(&self, k: usize) -> (r: Result<(Item, usize, usize), ZError>)
        requires
            self@.content.len() < usize::MAX,
            k < self@.content.len(),
            self@.content[k as int].is_token(TokenType::DotOpr),
        ensures
            (match r {
                Ok((item, start, end)) => Ok((item@, start as int, end as int)),
                Err(e) => Err(e@),
            }) == postfix_at(self@.content, k as int, 0),
            r matches Ok((_, start, end)) ==> start <= k < end <= self@.content.len(),
    {
        let ghost items = self@.content;
        let len = self.content.len();
        assert(items[k as int] == self.content@[k as int]@);
        if k < 1 {
            return Err(failure(ParseErrorKind::MissingOperand, &self.content[k]));
        }
        let parent = match self.node_at(k - 1) {
            None => {
                return Err(failure(ParseErrorKind::MissingOperand, &self.content[k]));
            },
            Some(a) => a,
        };
        if k + 1 >= len {
            return Err(self.end_error());
        }
        assert(items[k + 1] == self.content@[k + 1]@);
        let id = match ident_of(&self.content[k + 1]) {
            None => {
                return Err(failure(ParseErrorKind::UnexpectedToken, &self.content[k + 1]));
            },
            Some(id) => id,
        };
        let called = if k + 2 < len {
            assert(items[k + 2] == self.content@[k + 2]@);
            self.content[k + 2].is_token(TokenType::OpenParen)
        } else {
            false
        };
        let node = Member {
            ty: if called { AccessType::Method } else { AccessType::Field },
            name: id.name,
            parent: Box::new(parent),
            name_span: id.name_span,
            dot_span: self.content[k].span(),
        };
        let tree = Ast::Member(node);
        assert(tree@ == AstView::Member(node@));
        let item = Item::Node(Element { raw: self.raw_between(k - 1, k + 2), node: tree });
        assert(item@ == member_item(items, k as int, id@));
        Ok((item, k - 1, k + 2))
    }

    /// The call or the group that the opening parenthesis at `k` begins.
    fn parse_paren_at(&mut self, k: usize, n: usize) -> (r: Result<(Item, usize, usize), ZError>)
        requires
            old(self)@.content.len() < usize::MAX,
            k < old(self)@.content.len(),
            !old(self)@.content[k as int].is_token(TokenType::DotOpr),
        ensures
            final(self)@.content == old(self)@.content,
            (match r {
                Ok((item, start, end)) => Ok((item@, start as int, end as int)),
                Err(e) => Err(e@),
            }) == postfix_at(old(self)@.content, k as int, n as nat),
            r matches Ok((_, start, end)) ==> start <= k < end <= old(self)@.content.len(),
        decreases n, 5int, 0int,
    {
        let ghost items = self@.content;
        let called = if k >= 1 {
            self.node_at(k - 1)
        } else {
            None
        };
        self.cursor = k;
        self.started = true;
        match called {
            Some(callee) => {
                let windows = match self.get_split_between(
                    TokenType::OpenParen,
                    TokenType::CloseParen,
                    TokenType::Comma,
                ) {
                    Err(e) => {
                        return Err(e);
                    },
                    Ok(w) => w,
                };
                let c = self.cursor;
                assert(closes_at(items, parens(), k + 1, c as int));
                let args = match parse_windows(&windows.buffer_windows, n) {
                    Err(e) => {
                        return Err(e);
                    },
                    Ok(nodes) => nodes,
                };
                assert(items[k as int] == self.content@[k as int]@);
                assert(items[c as int] == self.content@[c as int]@);
                let paren_spans = match (self.content[k].span(), self.content[c].span()) {
                    (Some(open), Some(close)) => Some((open, close)),
                    _ => None,
                };
                let node = Call { called: Box::new(callee), paren_spans, args };
                let tree = Ast::Call(node);
                assert(tree@ == AstView::Call(node@));
                let item = Item::Node(
                    Element { raw: self.raw_between(k - 1, c + 1), node: tree },
                );
                assert(item@ == call_item(items, k as int, c as int, asts_view(args@)));
                Ok((item, k - 1, c + 1))
            },
            None => {
                let window = match self.get_between(TokenType::OpenParen, TokenType::CloseParen) {
                    Err(e) => {
                        return Err(e);
                    },
                    Ok(w) => w,
                };
                let c = self.cursor;
                assert(closes_at(items, parens(), k + 1, c as int));
                let inner = match parse_sub_expr(window.slice, n) {
                    Err(e) => {
                        return Err(e);
                    },
                    Ok(e) => e,
                };
                let item = Item::Node(
                    Element { raw: self.raw_between(k, c + 1), node: inner.node },
                );
                Ok((item, k, c + 1))
            },
        }
    }

    /// The pass for member accesses, calls and groups with the bound `n`.
    pub(crate) fn postfix_pass(&mut self, n: usize) -> (r: Result<(), ZError>)
        requires
            old(self)@.content.len() < usize::MAX,
        ensures
            pass_result(r, final(self)@.content, postfix_spec(old(self)@.content, 0, n as nat)),
            final(self)@.content.len() <= old(self)@.content.len(),
        decreases n, 6int, 0int,
    {
        let ghost items0 = self@.content;
        let mut from: usize = 0;
        loop
            invariant
                items0 == old(self)@.content,
                self@.content.len() <= items0.len(),
                items0.len() < usize::MAX,
                postfix_spec(self@.content, from as int, n as nat) == postfix_spec(
                    items0,
                    0,
                    n as nat,
                ),
            decreases self@.content.len() - from,
        {
            let ghost items = self@.content;
            let k = match self.find_postfix_trigger(from) {
                None => {
                    return Ok(());
                },
                Some(k) => k,
            };
            assert(items[k as int] == self.content@[k as int]@);
            let found = if self.content[k].is_token(TokenType::DotOpr) {
                proof {
                    lemma_member_needs_no_bound(items, k as int, n as nat);
                }
                self.parse_member_at(k)
            } else {
                self.parse_paren_at(k, n)
            };
            let (item, start, end) = match found {
                Err(e) => {
                    return Err(e);
                },
                Ok(found) => found,
            };
            self.reduce(start, end, item);
            from = start + 1;
        }
    }

    /// The pass for member accesses, calls and groups. From the left, a
    /// dot makes a member access of the node before it and the name behind
    /// it; an opening parenthesis behind a node makes a call of that node,
    /// with the expressions between the commas as its arguments; any other
    /// opening parenthesis groups the expression that it encloses. A
    /// parenthesis that is never closed is an unterminated-bracket error.
    pub fn parse_postfix(&mut self) -> (r: Result<(), ZError>)
        requires
            old(self)@.content.len() < usize::MAX,
        ensures
            pass_result(
                r,
                final(self)@.content,
                postfix_spec(old(self)@.content, 0, old(self)@.content.len()),
            ),
            final(self)@.content.len() <= old(self)@.content.len(),
            final(self)@ == rewound(old(self)@, final(self)@.content),
            final(self)@.wf(),
    {
        let n = self.content.len();
        let saved = self.raw.take();
        let r = self.postfix_pass(n);
        self.rewind(saved);
        r
    }
}

/// A member access parses nothing again, so the bound does not matter to it.
pub proof fn lemma_member_needs_no_bound(items: Seq<ItemView>, k: int, n: nat)
    requires
        items[k].is_token(TokenType::DotOpr),
    ensures
        postfix_at(items, k, n) == postfix_at(items, k, 0),
{
}

} // verus!
