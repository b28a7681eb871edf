//! The passes for statements, declarations and class literals.
use vstd::prelude::*;
use crate::ast::{Ast, AstView};
use crate::ast::class::Class;
use crate::ast::control::{Defer, Return};
use crate::ast::declare::Declare;
use crate::ast::delete::Delete;
use crate::ast::ident::{Ident, IdentView};
use crate::ast::view::{ast_view, idents_view, opt_ast_view};
use crate::errors::{ParseErrorKind, ZError, ZErrorView};
use crate::parser::buffer::{duplicate_items, item_span, items_view, raw_text, Buffer, Element, Item, ItemView};
use crate::parser::expr::{failure, parse_sub_expr, pass_result, rewound};
use crate::parser::grammar::{class_item, class_spec, declare_spec, declared_type, delete_names, first_class_trigger, flag_of, flags_upto, is_block, is_class_trigger, leading_flags, name_of, parse_failure, reduced, statement_item, statement_spec};
use crate::types::position::Span;
use crate::types::token::{Flag, Keyword, TokenType};

verus! {

/// The name that the item is, if it is one.
pub fn ident_of(item: &Item) -> (r: Option<Ident>)
    ensures
        match r {
            Some(id) => name_of(item@) == Some(id@),
            None => name_of(item@) is None,
        },
{
    match item {
        Item::Node(e) => {
            match &e.node {
                Ast::Ident(id) => {
                    assert(ast_view(e.node) == AstView::Ident(id@));
                    Some(id.duplicate())
                },
                _ => {
                    assert(!(ast_view(e.node) is Ident));
                    None
                },
            }
        },
        Item::Token(_) => None,
    }
}

/// The flag that the item is, if it is one.
pub fn flag(item: &Item) -> (r: Option<(Flag, Span)>)
    ensures
        r == flag_of(item@),
{
    match item {
        Item::Token(t) => match t.ty {
            Some(TokenType::Flag(f)) => Some((f, t.span)),
            _ => None,
        },
        Item::Node(_) => None,
    }
}

/// Whether a class literal begins with the item.
pub fn class_trigger(item: &Item) -> (r: bool)
    ensures
        r == is_class_trigger(item@),
{
    item.is_token(TokenType::Keyword(Keyword::Class)) || item.is_token(
        TokenType::Keyword(Keyword::Struct),
    )
}

impl Buffer {
    /// The names from `from` on: names with commas between them.
    fn parse_names(&self, from: usize) -> (r: Result<Vec<Ident>, ZError>)
        ensures
            (match r {
                Ok(names) => Ok(idents_view(names@)),
                Err(e) => Err(e@),
            }) == delete_names(self@.content, from as int, Seq::empty()),
    {
        let ghost items = self@.content;
        let len = self.content.len();
        let mut names: Vec<Ident> = Vec::new();
        assert(idents_view(names@) =~= Seq::empty());
        let mut i: usize = from;
        let mut done = false;
        while !done
            invariant
                items == self@.content,
                len == items.len(),
                from <= i,
                !done ==> delete_names(items, i as int, idents_view(names@)) == delete_names(
                    items,
                    from as int,
                    Seq::empty(),
                ),
                done ==> Ok::<_, ZErrorView>(idents_view(names@)) == delete_names(
                    items,
                    from as int,
                    Seq::empty(),
                ),
            decreases len + 2 - i, if done { 0int } else { 1int },
        {
            if i >= len {
                return Err(self.end_error());
            }
            assert(items[i as int] == self.content@[i as int]@);
            match ident_of(&self.content[i]) {
                None => {
                    return Err(failure(ParseErrorKind::UnexpectedToken, &self.content[i]));
                },
                Some(id) => {
                    assert(idents_view(names@.push(id)) =~= idents_view(names@).push(id@));
                    names.push(id);
                    if i + 1 >= len {
                        done = true;
                    } else {
                        assert(items[i + 1] == self.content@[i + 1]@);
                        if self.content[i + 1].is_token(TokenType::Comma) {
                            i += 2;
                        } else {
                            return Err(
                                failure(ParseErrorKind::UnexpectedToken, &self.content[i + 1]),
                            );
                        }
                    }
                },
            }
        }
        Ok(names)
    }

    /// Replaces the whole content by the one node of a statement.
    fn reduce_to(&mut self, node: Ast)
        requires
            0 < old(self)@.content.len() < usize::MAX,
        ensures
            final(self)@.content == statement_item(old(self)@.content, node@),
    {
        let len = self.content.len();
        let raw = self.raw_between(0, len);
        assert(self@.content.subrange(0, len as int) =~= self@.content);
        self.reduce(0, len, Item::Node(Element { raw, node }));
        assert(self@.content =~= statement_item(old(self)@.content, node@));
    }

    /// The statement pass with the bound `n`.
    pub(crate) fn statement_pass(&mut self, n: usize) -> (r: Result<(), ZError>)
        requires
            old(self)@.content.len() < usize::MAX,
        ensures
            pass_result(r, final(self)@.content, statement_spec(old(self)@.content, n as nat)),
            final(self)@.content.len() <= old(self)@.content.len(),
        decreases n, 3int, 0int,
    {
        let ghost items = self@.content;
        let len = self.content.len();
        if len == 0 {
            return Ok(());
        }
        assert(items[0] == self.content@[0]@);
        let kwd_span = self.content[0].span();
        if self.content[0].is_token(TokenType::Keyword(Keyword::Return)) {
            let value = match parse_sub_expr(duplicate_items(&self.content, 1, len), n) {
                Err(e) => {
                    return Err(e);
                },
                Ok(e) => e,
            };
            let node = Return { kwd_span, value: Box::new(value.node) };
            let tree = Ast::Return(node);
            assert(tree@ == AstView::Return(node@));
            self.reduce_to(tree);
            Ok(())
        } else if self.content[0].is_token(TokenType::Keyword(Keyword::Defer)) {
            let content = match parse_sub_expr(duplicate_items(&self.content, 1, len), n) {
                Err(e) => {
                    return Err(e);
                },
                Ok(e) => e,
            };
            let node = Defer { kwd_span, content: Box::new(content.node) };
            let tree = Ast::Defer(node);
            assert(tree@ == AstView::Defer(node@));
            self.reduce_to(tree);
            Ok(())
        } else if self.content[0].is_token(TokenType::Keyword(Keyword::Delete)) {
            let names = match self.parse_names(1) {
                Err(e) => {
                    return Err(e);
                },
                Ok(names) => names,
            };
            let node = Delete { kwd_span, names };
            let tree = Ast::Delete(node);
            assert(tree@ == AstView::Delete(node@));
            self.reduce_to(tree);
            Ok(())
        } else {
            Ok(())
        }
    }

    /// The statement pass: `ret` and `defer` at the front take everything
    /// behind them as their expression, and `del` the names behind it, with
    /// commas between them. The statement is the one item that is left; a
    /// buffer that begins with none of them stays as it is.
    pub fn parse_statement(&mut self) -> (r: Result<(), ZError>)
        requires
            old(self)@.content.len() < usize::MAX,
        ensures
            pass_result(
                r,
                final(self)@.content,
                statement_spec(old(self)@.content, old(self)@.content.len()),
            ),
            final(self)@.content.len() <= old(self)@.content.len(),
            final(self)@ == rewound(old(self)@, final(self)@.content),
            final(self)@.wf(),
    {
        let n = self.content.len();
        let saved = self.raw.take();
        let r = self.statement_pass(n);
        self.rewind(saved);
        r
    }

    /// The flags at the front, and the position behind them.
    fn parse_flags(&self) -> (r: (Vec<(Flag, Span)>, usize))
        ensures
            r.1 == leading_flags(self@.content, 0),
            r.0@ == flags_upto(self@.content, r.1 as int),
            r.1 <= self@.content.len(),
    {
        let ghost items = self@.content;
        let mut flags: Vec<(Flag, Span)> = Vec::new();
        let mut j: usize = 0;
        let mut done = false;
        while !done && j < self.content.len()
            invariant
                items == self@.content,
                j <= items.len(),
                leading_flags(items, j as int) == leading_flags(items, 0),
                done ==> leading_flags(items, j as int) == j,
                flags@.len() == j,
                forall|i: int| 0 <= i < j ==> flag_of(items[i]) == Some(#[trigger] flags@[i]),
            decreases items.len() - j, if done { 0int } else { 1int },
        {
            assert(items[j as int] == self.content@[j as int]@);
            match flag(&self.content[j]) {
                Some(f) => {
                    flags.push(f);
                    j += 1;
                },
                None => {
                    done = true;
                },
            }
        }
        assert(flags@ =~= flags_upto(items, j as int));
        (flags, j)
    }

    /// The type that a declaration names between its name at `j` and its operator at `k`.
    fn parse_declared_type(&self, j: usize, k: usize, n: usize) -> (r: Result<
        Option<Box<Ast>>,
        ZError,
    >)
        requires
            j < k < self@.content.len(),
        ensures
            (match r {
                Ok(ty) => Ok(opt_ast_view(ty)),
                Err(e) => Err(e@),
            }) == declared_type(self@.content, j as int, k as int, n as nat),
        decreases n, 2int, 0int,
    {
        if j + 1 == k {
            return Ok(None);
        }
        assert(self@.content[j + 1] == self.content@[j + 1]@);
        if !self.content[j + 1].is_token(TokenType::Colon) {
            return Err(failure(ParseErrorKind::UnexpectedToken, &self.content[j + 1]));
        }
        match parse_sub_expr(duplicate_items(&self.content, j + 2, k), n) {
            Err(e) => Err(e),
            Ok(ty) => Ok(Some(Box::new(ty.node))),
        }
    }

    /// The declaration pass with the bound `n`.
    pub(crate) fn declaration_pass(&mut self, n: usize) -> (r: Result<(), ZError>)
        requires
            old(self)@.content.len() < usize::MAX,
        ensures
            pass_result(r, final(self)@.content, declare_spec(old(self)@.content, n as nat)),
            final(self)@.content.len() <= old(self)@.content.len(),
        decreases n, 3int, 0int,
    {
        let ghost items = self@.content;
        let len = self.content.len();
        let k = match self.find_token(TokenType::DeclarationOpr, 0) {
            None => {
                return Ok(());
            },
            Some(k) => k,
        };
        assert(items[k as int] == self.content@[k as int]@);
        let (flags, j) = self.parse_flags();
        if j >= k {
            return Err(failure(ParseErrorKind::MissingOperand, &self.content[k]));
        }
        assert(items[j as int] == self.content@[j as int]@);
        let name = match ident_of(&self.content[j]) {
            None => {
                return Err(failure(ParseErrorKind::MissingOperand, &self.content[k]));
            },
            Some(id) => id,
        };
        let ty = match self.parse_declared_type(j, k, n) {
            Err(e) => {
                return Err(e);
            },
            Ok(ty) => ty,
        };
        if k + 1 >= len {
            return Err(self.end_error());
        }
        let content = match parse_sub_expr(duplicate_items(&self.content, k + 1, len), n) {
            Err(e) => {
                return Err(e);
            },
            Ok(e) => e,
        };
        let variable = Ast::Ident(name);
        assert(variable@ == AstView::Ident(name@));
        let node = Declare {
            variable: Box::new(variable),
            content: Box::new(content.node),
            flags,
            ty,
            eq_span: self.content[k].span(),
        };
        let tree = Ast::Declare(node);
        assert(tree@ == AstView::Declare(node@));
        self.reduce_to(tree);
        Ok(())
    }

    /// The declaration pass. In front of the first declaration operator
    /// stand the flags, the name and, behind a colon, the type expression;
    /// everything behind the operator is parsed as an expression and is the
    /// content. The declaration is the one item that is left; a buffer
    /// without a declaration operator stays as it is.
    pub fn parse_declaration(&mut self) -> (r: Result<(), ZError>)
        requires
            old(self)@.content.len() < usize::MAX,
        ensures
            pass_result(
                r,
                final(self)@.content,
                declare_spec(old(self)@.content, old(self)@.content.len()),
            ),
            final(self)@.content.len() <= old(self)@.content.len(),
            final(self)@ == rewound(old(self)@, final(self)@.content),
            final(self)@.wf(),
    {
        let n = self.content.len();
        let saved = self.raw.take();
        let r = self.declaration_pass(n);
        self.rewind(saved);
        r
    }

    /// The first position from `from` on at which a class literal begins.
    pub fn find_class_trigger(&self, from: usize) -> (r: Option<usize>)
        ensures
            match r {
                Some(k) => first_class_trigger(self@.content, from as int) == Some(k as int)
                    && from <= k < self@.content.len(),
                None => first_class_trigger(self@.content, from as int) is None,
            },
    {
        let mut i: usize = from;
        while i < self.content.len()
            invariant
                from <= i,
                first_class_trigger(self@.content, i as int) == first_class_trigger(
                    self@.content,
                    from as int,
                ),
            decreases self.content.len() - i,
        {
            assert(self@.content[i as int] == self.content@[i as int]@);
            if class_trigger(&self.content[i]) {
                return Some(i);
            }
            i += 1;
        }
        None
    }

    /// The class that the keyword at `k` and the block behind it make.
    fn class_at(&self, k: usize) -> (r: Item)
        requires
            k + 1 < self@.content.len(),
            is_block(self@.content[k + 1]),
        ensures
            r@ == class_item(self@.content, k as int),
    {
        let len = self.content.len();
        assert(k + 1 < len);
        assert(self@.content[k as int] == self.content@[k as int]@);
        let node = Class {
            is_struct: self.content[k].is_token(TokenType::Keyword(Keyword::Struct)),
            implementations: Vec::new(),
            inst_fields: Vec::new(),
            content: Some(self.block_at(k + 1)),
            args: None,
        };
        assert(node@.implementations =~= Seq::empty());
        assert(node@.inst_fields =~= Seq::empty());
        let tree = Ast::Class(node);
        assert(tree@ == AstView::Class(node@));
        Item::Node(Element { raw: self.raw_between(k, k + 2), node: tree })
    }

    /// The class pass: every `class` or `struct` is reduced, with the block
    /// behind it, to a class node with that block as its body. A keyword
    /// without a block behind it is a parse error.
    pub fn parse_class(&mut self) -> (r: Result<(), ZError>)
        requires
            old(self)@.content.len() < usize::MAX,
        ensures
            pass_result(r, final(self)@.content, class_spec(old(self)@.content, 0)),
            final(self)@.content.len() <= old(self)@.content.len(),
            final(self)@ == rewound(old(self)@, final(self)@.content),
            final(self)@.wf(),
    {
        let saved = self.raw.take();
        let r = self.class_pass();
        self.rewind(saved);
        r
    }

    /// The pass itself; where it leaves the cursor is not said.
    pub(crate) fn class_pass(&mut self) -> (r: Result<(), ZError>)
        requires
            old(self)@.content.len() < usize::MAX,
        ensures
            pass_result(r, final(self)@.content, class_spec(old(self)@.content, 0)),
            final(self)@.content.len() <= old(self)@.content.len(),
    {
        let ghost items0 = self@.content;
        let mut from: usize = 0;
        loop
            invariant
                items0 == old(self)@.content,
                self@.content.len() <= items0.len(),
                items0.len() < usize::MAX,
                class_spec(self@.content, from as int) == class_spec(items0, 0),
            decreases self@.content.len() - from,
        {
            let k = match self.find_class_trigger(from) {
                None => {
                    return Ok(());
                },
                Some(k) => k,
            };
            if k + 1 >= self.content.len() {
                return Err(self.end_error());
            }
            assert(self@.content[k + 1] == self.content@[k + 1]@);
            if !crate::parser::proc_fn::block_node(&self.content[k + 1]) {
                return Err(failure(ParseErrorKind::UnexpectedToken, &self.content[k + 1]));
            }
            let node = self.class_at(k);
            self.reduce(k, k + 2, node);
            from = k + 1;
        }
    }
}

} // verus!
