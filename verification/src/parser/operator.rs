//! The passes for unary and binary operators.
use vstd::prelude::*;
use crate::ast::{Ast, AstView};
use crate::ast::binary_opr::BinaryOpr;
use crate::ast::unary_opr::UnaryOpr;
use crate::errors::{ParseErrorKind, ZError};
use crate::parser::buffer::{Buffer, Element, Item, ItemView};
use crate::parser::expr::{failure, pass_result, rewound};
use crate::parser::grammar::{binary_item, binary_levels, binary_spec, first_operator, is_operator, last_unary, operator_of, precedence, unary_item, unary_of, unary_spec};
use crate::types::token::{OprType, TokenType, UnaryOprType};

verus! {

/// How tightly a binary operator binds: the higher, the tighter.
pub fn precedence_of(op: OprType) -> (r: u8)
    ensures
        r == precedence(op),
{
    match op {
        OprType::TypeCast => 6,
        OprType::Mul | OprType::Div | OprType::Mod => 5,
        OprType::Add | OprType::Sub | OprType::Concat => 4,
        OprType::Lt | OprType::Le | OprType::Gt | OprType::Ge => 3,
        OprType::Eq | OprType::Ne => 2,
        OprType::And => 1,
        OprType::Or => 0,
    }
}

/// The binary operator that the item is, if it is one.
pub fn operator(item: &Item) -> (r: Option<OprType>)
    ensures
        r == operator_of(item@),
{
    match item {
        Item::Token(t) => match t.ty {
            Some(TokenType::BinaryOpr(op)) => Some(op),
            _ => None,
        },
        Item::Node(_) => None,
    }
}

/// The unary operator that the item is, if it is one.
pub fn unary_operator(item: &Item) -> (r: Option<UnaryOprType>)
    ensures
        r == unary_of(item@),
{
    match item {
        Item::Token(t) => match t.ty {
            Some(TokenType::UnaryOpr(op)) => Some(op),
            _ => None,
        },
        Item::Node(_) => None,
    }
}

/// A copy of the node that the item is.
fn node_of(item: &Item) -> (r: Option<Ast>)
    ensures
        match r {
            Some(a) => item@ matches ItemView::Node(e) && e.node == a@,
            None => !(item@ is Node),
        },
{
    match item {
        Item::Node(e) => Some(e.node.duplicate()),
        Item::Token(_) => None,
    }
}

impl Buffer {
    /// The last position before `upto` at which a unary operator stands.
    pub fn find_last_unary(&self, upto: usize) -> (r: Option<usize>)
        requires
            upto <= self@.content.len(),
        ensures
            match r {
                Some(k) => last_unary(self@.content, upto as int) == Some(k as int) && k < upto
                    && unary_of(self@.content[k as int]) is Some,
                None => last_unary(self@.content, upto as int) is None,
            },
    {
        let mut i: usize = upto;
        while i > 0
            invariant
                i <= upto <= self@.content.len(),
                last_unary(self@.content, i as int) == last_unary(self@.content, upto as int),
            decreases i,
        {
            assert(self@.content[i - 1] == self.content@[i - 1]@);
            if unary_operator(&self.content[i - 1]).is_some() {
                return Some(i - 1);
            }
            i -= 1;
        }
        None
    }

    /// The unary pass: from the right, every unary operator is reduced
    /// with the node behind it. An operator without a node behind it is a
    /// parse error.
    pub fn parse_unary_opr(&mut self) -> (r: Result<(), ZError>)
        requires
            old(self)@.content.len() < usize::MAX,
        ensures
            pass_result(r, final(self)@.content, unary_spec(old(self)@.content, old(self)@.content.len() as int)),
            final(self)@.content.len() <= old(self)@.content.len(),
            final(self)@ == rewound(old(self)@, final(self)@.content),
            final(self)@.wf(),
    {
        let saved = self.raw.take();
        let r = self.unary_pass();
        self.rewind(saved);
        r
    }

    /// The pass itself; where it leaves the cursor is not said.
    pub(crate) fn unary_pass(&mut self) -> (r: Result<(), ZError>)
        requires
            old(self)@.content.len() < usize::MAX,
        ensures
            pass_result(
                r,
                final(self)@.content,
                unary_spec(old(self)@.content, old(self)@.content.len() as int),
            ),
            final(self)@.content.len() <= old(self)@.content.len(),
    {
        let ghost items0 = self@.content;
        let mut upto: usize = self.content.len();
        loop
            invariant
                items0 == old(self)@.content,
                self@.content.len() <= items0.len(),
                items0.len() < usize::MAX,
                upto <= self@.content.len(),
                unary_spec(self@.content, upto as int) == unary_spec(items0, items0.len() as int),
            decreases upto,
        {
            let ghost items = self@.content;
            let k = match self.find_last_unary(upto) {
                None => {
                    return Ok(());
                },
                Some(k) => k,
            };
            if k + 1 >= self.content.len() {
                return Err(self.end_error());
            }
            assert(items[k as int] == self.content@[k as int]@);
            assert(items[k + 1] == self.content@[k + 1]@);
            let operand = match node_of(&self.content[k + 1]) {
                None => {
                    return Err(failure(ParseErrorKind::UnexpectedToken, &self.content[k + 1]));
                },
                Some(a) => a,
            };
            let ty = match unary_operator(&self.content[k]) {
                Some(ty) => ty,
                None => UnaryOprType::Not,
            };
            let node = UnaryOpr {
                ty,
                opr_span: self.content[k].span(),
                operand: Box::new(operand),
            };
            let tree = Ast::UnaryOpr(node);
            assert(tree@ == AstView::UnaryOpr(node@));
            let item = Item::Node(Element { raw: self.raw_between(k, k + 2), node: tree });
            assert(item@ == unary_item(items, k as int));
            self.reduce(k, k + 2, item);
            upto = k;
        }
    }

    /// The first position from `from` on at which a binary operator of
    /// precedence `level` stands.
    pub fn find_operator(&self, level: u8, from: usize) -> (r: Option<usize>)
        ensures
            match r {
                Some(k) => first_operator(self@.content, level as nat, from as int) == Some(
                    k as int,
                ) && from <= k < self@.content.len() && is_operator(
                    self@.content[k as int],
                    level as nat,
                ),
                None => first_operator(self@.content, level as nat, from as int) is None,
            },
    {
        let mut i: usize = from;
        while i < self.content.len()
            invariant
                from <= i,
                first_operator(self@.content, level as nat, i as int) == first_operator(
                    self@.content,
                    level as nat,
                    from as int,
                ),
            decreases self.content.len() - i,
        {
            assert(self@.content[i as int] == self.content@[i as int]@);
            match operator(&self.content[i]) {
                Some(op) => {
                    if precedence_of(op) == level {
                        return Some(i);
                    }
                },
                None => {},
            }
            i += 1;
        }
        None
    }

    /// The pass for the binary operators of precedence `level`: from the
    /// left, every such operator is reduced with the nodes around it.
    pub(crate) fn binary_pass(&mut self, level: u8) -> (r: Result<(), ZError>)
        requires
            old(self)@.content.len() < usize::MAX,
        ensures
            pass_result(
                r,
                final(self)@.content,
                binary_spec(old(self)@.content, level as nat, 0),
            ),
            final(self)@.content.len() <= old(self)@.content.len(),
    {
        let ghost items0 = self@.content;
        let mut from: usize = 0;
        loop
            invariant
                items0 == old(self)@.content,
                self@.content.len() <= items0.len(),
                items0.len() < usize::MAX,
                binary_spec(self@.content, level as nat, from as int) == binary_spec(
                    items0,
                    level as nat,
                    0,
                ),
            decreases self@.content.len() - from,
        {
            let ghost items = self@.content;
            let k = match self.find_operator(level, from) {
                None => {
                    return Ok(());
                },
                Some(k) => k,
            };
            assert(items[k as int] == self.content@[k as int]@);
            if k < 1 {
                return Err(failure(ParseErrorKind::MissingOperand, &self.content[k]));
            }
            assert(items[k - 1] == self.content@[k - 1]@);
            let left = match node_of(&self.content[k - 1]) {
                None => {
                    return Err(failure(ParseErrorKind::MissingOperand, &self.content[k]));
                },
                Some(a) => a,
            };
            if k + 1 >= self.content.len() {
                return Err(self.end_error());
            }
            assert(items[k + 1] == self.content@[k + 1]@);
            let right = match node_of(&self.content[k + 1]) {
                None => {
                    return Err(failure(ParseErrorKind::UnexpectedToken, &self.content[k + 1]));
                },
                Some(a) => a,
            };
            let ty = match operator(&self.content[k]) {
                Some(ty) => ty,
                None => OprType::Add,
            };
            let node = BinaryOpr {
                ty,
                opr_span: self.content[k].span(),
                operand1: Box::new(left),
                operand2: Box::new(right),
            };
            let tree = Ast::BinaryOpr(node);
            assert(tree@ == AstView::BinaryOpr(node@));
            let item = Item::Node(Element { raw: self.raw_between(k - 1, k + 2), node: tree });
            assert(item@ == binary_item(items, k as int));
            self.reduce(k - 1, k + 2, item);
            from = k;
        }
    }

    /// The passes for the binary operators, the tightest first: typecasts,
    /// then `* / %`, then `+ - ..`, then the comparisons, then `== !=`,
    /// then `&&`, then `||`. Operators of one precedence associate to the
    /// left. An operator without a node on both sides is a parse error.
    pub fn parse_binary_opr(&mut self) -> (r: Result<(), ZError>)
        requires
            old(self)@.content.len() < usize::MAX,
        ensures
            pass_result(r, final(self)@.content, binary_levels(old(self)@.content, 6)),
            final(self)@.content.len() <= old(self)@.content.len(),
            final(self)@ == rewound(old(self)@, final(self)@.content),
            final(self)@.wf(),
    {
        let saved = self.raw.take();
        let r = self.binary_levels_pass();
        self.rewind(saved);
        r
    }

    /// The pass itself; where it leaves the cursor is not said.
    pub(crate) fn binary_levels_pass(&mut self) -> (r: Result<(), ZError>)
        requires
            old(self)@.content.len() < usize::MAX,
        ensures
            pass_result(r, final(self)@.content, binary_levels(old(self)@.content, 6)),
            final(self)@.content.len() <= old(self)@.content.len(),
    {
        let ghost items0 = self@.content;
        let mut level: u8 = 6;
        loop
            invariant
                items0 == old(self)@.content,
                self@.content.len() <= items0.len(),
                items0.len() < usize::MAX,
                level <= 6,
                binary_levels(self@.content, level as nat) == binary_levels(items0, 6),
            decreases level,
        {
            match self.binary_pass(level) {
                Err(e) => {
                    return Err(e);
                },
                Ok(()) => {},
            }
            if level == 0 {
                return Ok(());
            }
            level -= 1;
        }
    }
}

} // verus!
