//! The pass for procedure and function literals.
use vstd::prelude::*;
use crate::ast::{Ast, AstView};
use crate::ast::argument::Argument;
use crate::ast::block::Block;
use crate::ast::ident::Ident;
use crate::ast::literal::Literal;
use crate::ast::procedure::Procedure;
use crate::ast::view::{arguments_view, ast_view, asts_view, opt_ast_view};
use crate::errors::{ParseErrorKind, ZError};
use crate::parser::buffer::{closes_at, duplicate_items, items_view, windows_view, Buffer, BufferWindow, Element, Item, ItemView};
use crate::parser::expr::{failure, parse_sub_expr, pass_result, rewound};
use crate::parser::grammar::{any_type, argument_of, bars, first_block, first_proc_trigger, is_block, is_proc_trigger, parse_arguments, proc_at, proc_spec, proc_tail, reduced};
use crate::types::token::{Keyword, TokenType};
use crate::types::typeobj::Type;
use crate::types::value::{Prim, Value};

verus! {

/// Whether a procedure literal begins with the item.
pub fn proc_trigger(item: &Item) -> (r: bool)
    ensures
        r == is_proc_trigger(item@),
{
    item.is_token(TokenType::Keyword(Keyword::Proc)) || item.is_token(
        TokenType::Keyword(Keyword::Fn),
    ) || item.is_token(TokenType::Bar)
}

/// Whether the item is a block that an earlier pass has reduced.
pub fn block_node(item: &Item) -> (r: bool)
    ensures
        r == is_block(item@),
{
    proof {
        reveal_with_fuel(ast_view, 2);
    }
    match item {
        Item::Node(e) => match &e.node {
            Ast::Block(_) => true,
            _ => false,
        },
        Item::Token(_) => false,
    }
}

/// The type expression of a parameter that names no type.
pub fn any_type_ast() -> (r: Ast)
    ensures
        r@ == any_type(),
{
    proof {
        reveal_with_fuel(ast_view, 4);
    }
    Ast::Literal(Literal { span: None, content: Value::Type(Type::Any) })
}

/// The name that a parameter begins with.
fn argument_name(item: &Item) -> (r: Option<Ident>)
    ensures
        match r {
            Some(id) => item@ matches ItemView::Node(e) && e.node == AstView::Ident(id@),
            None => !(item@ matches ItemView::Node(e) && e.node is Ident),
        },
{
    match item {
        Item::Node(e) => {
            match &e.node {
                Ast::Ident(id) => {
                    assert(ast_view(e.node) == AstView::Ident(id@));
                    Some(id.duplicate())
                },
                _ => {
                    assert(!(ast_view(e.node) is Ident));
                    None
                },
            }
        },
        Item::Token(_) => None,
    }
}

/// One parameter: a name, or a name, a colon and a type expression.
pub(crate) fn parse_argument(slice: &Vec<Item>, n: usize) -> (r: Result<Argument, ZError>)
    requires
        slice@.len() > 0,
    ensures
        (match r {
            Ok(arg) => Ok(arg@),
            Err(e) => Err(e@),
        }) == argument_of(items_view(slice@), n as nat),
    decreases n, 1int, 0int,
{
    let ghost seg = items_view(slice@);
    let len = slice.len();
    assert(seg[0] == slice@[0]@);
    let name = match argument_name(&slice[0]) {
        Some(id) => id,
        None => {
            return Err(failure(ParseErrorKind::UnexpectedToken, &slice[0]));
        },
    };
    if len == 1 {
        return Ok(Argument { name, ty: Box::new(any_type_ast()), default: None });
    }
    assert(seg[1] == slice@[1]@);
    if !slice[1].is_token(TokenType::Colon) {
        return Err(failure(ParseErrorKind::UnexpectedToken, &slice[1]));
    }
    match parse_sub_expr(duplicate_items(slice, 2, len), n) {
        Err(e) => Err(e),
        Ok(e) => Ok(Argument { name, ty: Box::new(e.node), default: None }),
    }
}

/// The parameters in the windows, in order.
pub(crate) fn parse_argument_windows(windows: &Vec<BufferWindow>, n: usize) -> (r: Result<
    Vec<Argument>,
    ZError,
>)
    ensures
        (match r {
            Ok(args) => Ok(arguments_view(args@)),
            Err(e) => Err(e@),
        }) == parse_arguments(windows_view(windows@), 0, n as nat, Seq::empty()),
    decreases n, 2int, 0int,
{
    proof {
        reveal_with_fuel(ast_view, 4);
    }
    let ghost segs = windows_view(windows@);
    let mut out: Vec<Argument> = Vec::new();
    assert(arguments_view(out@) =~= Seq::empty());
    let mut i: usize = 0;
    while i < windows.len()
        invariant
            i <= windows.len(),
            segs == windows_view(windows@),
            parse_arguments(segs, i as int, n as nat, arguments_view(out@)) == parse_arguments(
                segs,
                0,
                n as nat,
                Seq::empty(),
            ),
        decreases windows.len() - i,
    {
        let w = &windows[i];
        assert(segs[i as int] == w@);
        if w.slice.len() > 0 {
            match parse_argument(&w.slice, n) {
                Err(e) => {
                    return Err(e);
                },
                Ok(arg) => {
                    assert(arguments_view(out@.push(arg)) =~= arguments_view(out@).push(arg@));
                    out.push(arg);
                },
            }
        }
        i += 1;
    }
    Ok(out)
}

impl Buffer {
    /// The first position from `from` on at which a procedure literal begins.
    pub fn find_proc_trigger(&self, from: usize) -> (r: Option<usize>)
        ensures
            match r {
                Some(k) => first_proc_trigger(self@.content, from as int) == Some(k as int) && from
                    <= k < self@.content.len() && is_proc_trigger(self@.content[k as int]),
                None => first_proc_trigger(self@.content, from as int) is None,
            },
    {
        let mut i: usize = from;
        while i < self.content.len()
            invariant
                from <= i,
                first_proc_trigger(self@.content, i as int) == first_proc_trigger(
                    self@.content,
                    from as int,
                ),
            decreases self.content.len() - i,
        {
            assert(self@.content[i as int] == self.content@[i as int]@);
            if proc_trigger(&self.content[i]) {
                return Some(i);
            }
            i += 1;
        }
        None
    }

    /// The first position from `from` on at which a block stands.
    pub fn find_block(&self, from: usize) -> (r: Option<usize>)
        ensures
            match r {
                Some(k) => first_block(self@.content, from as int) == Some(k as int) && from <= k
                    < self@.content.len() && is_block(self@.content[k as int]),
                None => first_block(self@.content, from as int) is None,
            },
    {
        let mut i: usize = from;
        while i < self.content.len()
            invariant
                from <= i,
                first_block(self@.content, i as int) == first_block(self@.content, from as int),
            decreases self.content.len() - i,
        {
            assert(self@.content[i as int] == self.content@[i as int]@);
            if block_node(&self.content[i]) {
                return Some(i);
            }
            i += 1;
        }
        None
    }

    /// A copy of the block at `d`.
    pub fn block_at(&self, d: usize) -> (r: Block)
        requires
            d < self@.content.len(),
            is_block(self@.content[d as int]),
        ensures
            r@ == self@.content[d as int]->Node_0.node->Block_0,
    {
        proof {
            reveal_with_fuel(ast_view, 2);
        }
        assert(self@.content[d as int] == self.content@[d as int]@);
        match &self.content[d] {
            Item::Node(e) => match &e.node {
                Ast::Block(b) => b.duplicate(),
                _ => Block { brace_spans: None, content: Vec::new() },
            },
            Item::Token(_) => Block { brace_spans: None, content: Vec::new() },
        }
    }

    /// What follows the argument list of a procedure literal, from `b` on.
    fn parse_proc_tail(&self, b: usize, n: usize) -> (r: Result<
        (Option<Box<Ast>>, Block, usize),
        ZError,
    >)
        requires
            self@.content.len() < usize::MAX,
        ensures
            (match r {
                Ok((ty, body, end)) => Ok((opt_ast_view(ty), body@, end as int)),
                Err(e) => Err(e@),
            }) == proc_tail(self@.content, b as int, n as nat),
            r matches Ok((_, _, end)) ==> b < end <= self@.content.len(),
        decreases n, 1int, 0int,
    {
        let len = self.content.len();
        if b >= len {
            return Err(self.end_error());
        }
        assert(self@.content[b as int] == self.content@[b as int]@);
        if self.content[b].is_token(TokenType::Colon) {
            match self.find_block(b + 1) {
                None => Err(self.end_error()),
                Some(d) => match parse_sub_expr(duplicate_items(&self.content, b + 1, d), n) {
                    Err(e) => Err(e),
                    Ok(ty) => Ok((Some(Box::new(ty.node)), self.block_at(d), d + 1)),
                },
            }
        } else if block_node(&self.content[b]) {
            Ok((Some(Box::new(Prim::Unit.ty().as_literal())), self.block_at(b), b + 1))
        } else {
            match parse_sub_expr(duplicate_items(&self.content, b, len), n) {
                Err(e) => Err(e),
                Ok(body) => {
                    let mut content: Vec<Ast> = Vec::new();
                    content.push(body.node);
                    assert(asts_view(content@) =~= seq![body.node@]);
                    Ok((Some(Box::new(Prim::Unit.ty().as_literal())), Block { brace_spans: None, content }, len))
                },
            }
        }
    }

    /// The procedure literal that begins at `k`.
    #[verifier::rlimit(40)]
    fn parse_proc_at(&mut self, k: usize, n: usize) -> (r: Result<(Item, usize), ZError>)
        requires
            old(self)@.content.len() < usize::MAX,
            k < old(self)@.content.len(),
            is_proc_trigger(old(self)@.content[k as int]),
        ensures
            final(self)@.content == old(self)@.content,
            (match r {
                Ok((node, end)) => Ok((node@, end as int)),
                Err(e) => Err(e@),
            }) == proc_at(old(self)@.content, k as int, n as nat),
            r matches Ok((_, end)) ==> k < end <= old(self)@.content.len(),
        decreases n, 3int, 0int,
    {
        let ghost items = self@.content;
        let len = self.content.len();
        assert(items[k as int] == self.content@[k as int]@);
        let keyword = !self.content[k].is_token(TokenType::Bar);
        let is_fn = self.content[k].is_token(TokenType::Keyword(Keyword::Fn));
        let kwd_span = if keyword { self.content[k].span() } else { None };
        let a = if keyword { k + 1 } else { k };
        if a >= len {
            return Err(self.end_error());
        }
        assert(items[a as int] == self.content@[a as int]@);
        let (args, b) = if self.content[a].is_token(TokenType::Bar) {
            self.cursor = a;
            self.started = true;
            let windows = match self.get_split_between(
                TokenType::Bar,
                TokenType::Bar,
                TokenType::Comma,
            ) {
                Err(e) => {
                    return Err(e);
                },
                Ok(w) => w,
            };
            let c = self.cursor;
            assert(closes_at(items, bars(), a + 1, c as int));
            match parse_argument_windows(&windows.buffer_windows, n) {
                Err(e) => {
                    return Err(e);
                },
                Ok(args) => (args, c + 1),
            }
        } else {
            let none: Vec<Argument> = Vec::new();
            assert(arguments_view(none@) =~= Seq::empty());
            (none, a)
        };
        let (return_type, content, end) = match self.parse_proc_tail(b, n) {
            Err(e) => {
                return Err(e);
            },
            Ok(tail) => tail,
        };
        let raw = self.raw_between(k, end);
        let procedure = Procedure { is_fn, kwd_span, args, return_type, content };
        let tree = Ast::Procedure(procedure);
        assert(tree@ == AstView::Procedure(procedure@));
        Ok((Item::Node(Element { raw, node: tree }), end))
    }

    /// The procedure pass with the bound `n`.
    pub(crate) fn proc_pass(&mut self, n: usize) -> (r: Result<(), ZError>)
        requires
            old(self)@.content.len() < usize::MAX,
        ensures
            pass_result(r, final(self)@.content, proc_spec(old(self)@.content, 0, n as nat)),
            final(self)@.content.len() <= old(self)@.content.len(),
        decreases n, 4int, 0int,
    {
        let ghost items0 = self@.content;
        self.reset_cursor();
        let mut from: usize = 0;
        loop
            invariant
                items0 == old(self)@.content,
                self@.content.len() <= items0.len(),
                items0.len() < usize::MAX,
                proc_spec(self@.content, from as int, n as nat) == proc_spec(items0, 0, n as nat),
            decreases self@.content.len() - from,
        {
            let k = match self.find_proc_trigger(from) {
                None => {
                    return Ok(());
                },
                Some(k) => k,
            };
            let (node, end) = match self.parse_proc_at(k, n) {
                Err(e) => {
                    return Err(e);
                },
                Ok(found) => found,
            };
            self.reduce(k, end, node);
            from = k + 1;
        }
    }

    /// The pass for procedure and function literals. A literal begins with
    /// `proc`, `fn` or an opening bar. It consists of an optional argument
    /// list between bars, an optional return type behind a colon, and a body,
    /// in that order; the body is a block, or an expression that reaches to
    /// the end of the buffer and becomes a block of one statement. Every
    /// literal is replaced by the one node that it reduces to; a buffer
    /// without one stays as it is.
    pub fn parse_proc_fn(&mut self) -> (r: Result<(), ZError>)
        requires
            old(self)@.content.len() < usize::MAX,
        ensures
            pass_result(
                r,
                final(self)@.content,
                proc_spec(old(self)@.content, 0, old(self)@.content.len()),
            ),
            final(self)@.content.len() <= old(self)@.content.len(),
            final(self)@ == rewound(old(self)@, final(self)@.content),
            final(self)@.wf(),
    {
        let n = self.content.len();
        let saved = self.raw.take();
        let r = self.proc_pass(n);
        self.rewind(saved);
        r
    }
}

} // verus!
