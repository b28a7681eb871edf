//! The ladder of passes that parses an expression, and the passes for
//! blocks and atoms.
use vstd::prelude::*;
use vstd::string::{StrSliceExecFns, StringExecFns};
use crate::ast::{Ast, AstView};
use crate::ast::block::Block;
use crate::ast::ident::Ident;
use crate::ast::literal::Literal;
use crate::ast::view::{ast_view, asts_view};
use crate::errors::{ParseErrorKind, ZError, ZErrorView};
use crate::parser::buffer::{closes_at, BufferView, items_view, raw_text, unexpected_end, windows_view, Buffer, BufferWindow, BufferWindowView, Element, ElementView, Item, ItemView};
use crate::parser::grammar::{local_stage, split_stage, atom_of, atoms_spec, block_at, block_item, block_spec, braces, empty_expression, first_invalid, first_token, parse_expr, parse_failure, parse_program, parse_segments, parse_sub, reduced, single};
use crate::text::{join, joined, strings_view};
use crate::types::token::{Token, TokenType};
use crate::types::value::{IntKind, Value};

verus! {

pub open spec fn element_result_view(r: Result<Element, ZError>) -> Result<ElementView, ZErrorView> {
    match r {
        Ok(e) => Ok(e@),
        Err(e) => Err(e@),
    }
}

/// What a pass did to a buffer, held against what it is to do.
pub open spec fn pass_result(
    r: Result<(), ZError>,
    after: Seq<ItemView>,
    expected: Result<Seq<ItemView>, ZErrorView>,
) -> bool {
    match r {
        Ok(()) => expected == Ok::<_, ZErrorView>(after),
        Err(e) => expected == Err::<Seq<ItemView>, _>(e@),
    }
}

/// What a pass leaves of a buffer: the content that it made, the cursor
/// back at the front as in a fresh buffer, and the collected source text as
/// it was before the pass.
pub open spec fn rewound(before: BufferView, content: Seq<ItemView>) -> BufferView {
    BufferView { content, cursor: 0, started: false, raw: before.raw }
}

/// Joining with nothing in between writes the parts one after another.
pub proof fn lemma_joined_without_separator(items: Seq<ItemView>)
    ensures
        joined(Seq::new(items.len(), |i: int| items[i].raw()), Seq::empty()) == raw_text(items),
    decreases items.len(),
{
    let parts = Seq::new(items.len(), |i: int| items[i].raw());
    if items.len() == 0 {
    } else if items.len() == 1 {
        assert(items.drop_last().len() == 0);
        assert(raw_text(items.drop_last()) =~= Seq::<char>::empty());
        assert(raw_text(items) =~= items[0].raw());
    } else {
        lemma_joined_without_separator(items.drop_last());
        assert(parts.drop_last() =~= Seq::new(
            items.drop_last().len(),
            |i: int| items.drop_last()[i].raw(),
        ));
        assert(joined(parts.drop_last(), Seq::empty()) + Seq::<char>::empty() + parts.last()
            =~= raw_text(items.drop_last()) + items.last().raw());
    }
}

/// A parse error placed at `at`, with its text.
pub fn failure(kind: ParseErrorKind, at: &Item) -> (r: ZError)
    ensures
        r@ == parse_failure(kind, Some(at@)),
{
    ZError::parse(kind, at.raw().clone(), at.span())
}

/// The error for a place where an expression was expected and nothing stands.
pub fn empty_expression_error() -> (r: ZError)
    ensures
        r@ == empty_expression(),
{
    ZError::parse(ParseErrorKind::EmptyExpression, String::new(), None)
}

/// What the atom pass makes of one item.
pub fn atom(item: &Item) -> (r: Result<Item, ZError>)
    ensures
        match r {
            Ok(a) => atom_of(item@) == Ok::<_, ZErrorView>(a@),
            Err(e) => atom_of(item@) == Err::<ItemView, _>(e@),
        },
{
    proof {
        reveal_with_fuel(ast_view, 3);
    }
    match item {
        Item::Node(_) => Ok(item.duplicate()),
        Item::Token(t) => match t.ty {
            Some(TokenType::Ident) => Ok(
                Item::Node(
                    Element {
                        raw: t.value.clone(),
                        node: Ast::Ident(Ident { name: t.value.clone(), name_span: Some(t.span) }),
                    },
                ),
            ),
            Some(TokenType::LiteralNumber) => match crate::text::parse_decimal(
                t.value.as_str(),
                -0x8000_0000,
                0x7fff_ffff,
            ) {
                Some(v) => Ok(
                    Item::Node(
                        Element {
                            raw: t.value.clone(),
                            node: Ast::Literal(
                                Literal { span: Some(t.span), content: Value::Int(IntKind::I32, v) },
                            ),
                        },
                    ),
                ),
                None => Err(failure(ParseErrorKind::InvalidLiteral, item)),
            },
            Some(TokenType::LiteralString) => {
                let n = t.value.as_str().unicode_len();
                let text = if n >= 2 {
                    String::from_str(t.value.as_str().substring_char(1, n - 1))
                } else {
                    t.value.clone()
                };
                Ok(
                    Item::Node(
                        Element {
                            raw: t.value.clone(),
                            node: Ast::Literal(
                                Literal { span: Some(t.span), content: Value::Str(text) },
                            ),
                        },
                    ),
                )
            },
            Some(TokenType::LiteralBool) => {
                if t.value == String::from_str("true") {
                    Ok(
                        Item::Node(
                            Element {
                                raw: t.value.clone(),
                                node: Ast::Literal(
                                    Literal { span: Some(t.span), content: Value::Bool(true) },
                                ),
                            },
                        ),
                    )
                } else if t.value == String::from_str("false") {
                    Ok(
                        Item::Node(
                            Element {
                                raw: t.value.clone(),
                                node: Ast::Literal(
                                    Literal { span: Some(t.span), content: Value::Bool(false) },
                                ),
                            },
                        ),
                    )
                } else {
                    Err(failure(ParseErrorKind::InvalidLiteral, item))
                }
            },
            _ => Ok(item.duplicate()),
        },
    }
}

/// A sub-expression, parsed by the whole ladder. The bound `n` is above the
/// length of every sub-expression; one that is not below it is not parsed.
pub(crate) fn parse_sub_expr(items: Vec<Item>, n: usize) -> (r: Result<Element, ZError>)
    ensures
        element_result_view(r) == parse_sub(items_view(items@), n as nat),
    decreases n, 0int, 0int,
{
    if items.len() < n {
        let mut buffer = Buffer::from_items(items);
        buffer.parse_as_expr()
    } else {
        Err(empty_expression_error())
    }
}

/// The statements of the windows in order. An empty window is no statement.
pub(crate) fn parse_windows(windows: &Vec<BufferWindow>, n: usize) -> (r: Result<Vec<Ast>, ZError>)
    ensures
        (match r {
            Ok(nodes) => Ok(asts_view(nodes@)),
            Err(e) => Err(e@),
        }) == parse_segments(windows_view(windows@), 0, n as nat, Seq::empty()),
    decreases n, 4int, 0int,
{
    let ghost segs = windows_view(windows@);
    let mut out: Vec<Ast> = Vec::new();
    assert(asts_view(out@) =~= Seq::empty());
    let mut i: usize = 0;
    while i < windows.len()
        invariant
            i <= windows.len(),
            segs == windows_view(windows@),
            parse_segments(segs, i as int, n as nat, asts_view(out@)) == parse_segments(
                segs,
                0,
                n as nat,
                Seq::empty(),
            ),
        decreases windows.len() - i,
    {
        let w = &windows[i];
        assert(segs[i as int] == w@);
        if w.slice.len() > 0 {
            let copy = crate::parser::buffer::duplicate_items(&w.slice, 0, w.slice.len());
            assert(items_view(w.slice@).subrange(0, w.slice@.len() as int) =~= items_view(w.slice@));
            match parse_sub_expr(copy, n) {
                Err(e) => {
                    return Err(e);
                },
                Ok(e) => {
                    assert(asts_view(out@.push(e.node)) =~= asts_view(out@).push(e.node@));
                    out.push(e.node);
                },
            }
        }
        i += 1;
    }
    Ok(out)
}

impl Buffer {
    /// Ends a pass: the cursor goes back to the front, and the collected
    /// source text that was set aside is put back.
    pub(crate) fn rewind(&mut self, saved: Option<String>)
        ensures
            final(self)@ == (BufferView {
                content: old(self)@.content,
                cursor: 0,
                started: false,
                raw: match saved {
                    Some(raw) => Some(raw@),
                    None => None,
                },
            }),
    {
        self.raw = saved;
        self.reset_cursor();
    }

    /// The first position from `from` on at which a token of kind `ty` stands.
    pub fn find_token(&self, ty: TokenType, from: usize) -> (r: Option<usize>)
        ensures
            match r {
                Some(k) => first_token(self@.content, ty, from as int) == Some(k as int) && from
                    <= k < self@.content.len() && self@.content[k as int].is_token(ty),
                None => first_token(self@.content, ty, from as int) is None,
            },
    {
        let mut i: usize = from;
        while i < self.content.len()
            invariant
                from <= i,
                first_token(self@.content, ty, i as int) == first_token(
                    self@.content,
                    ty,
                    from as int,
                ),
            decreases self.content.len() - i,
        {
            assert(self@.content[i as int] == self.content@[i as int]@);
            if self.content[i].is_token(ty) {
                return Some(i);
            }
            i += 1;
        }
        None
    }

    /// The source text of the items `from..to`.
    pub fn raw_between(&self, from: usize, to: usize) -> (r: String)
        requires
            from <= to <= self@.content.len(),
        ensures
            r@ == raw_text(self@.content.subrange(from as int, to as int)),
    {
        let ghost run = self@.content.subrange(from as int, to as int);
        let mut parts: Vec<String> = Vec::new();
        let mut i: usize = from;
        while i < to
            invariant
                from <= i <= to <= self@.content.len(),
                run == self@.content.subrange(from as int, to as int),
                parts@.len() == i - from,
                forall|j: int| 0 <= j < i - from ==> parts@[j]@ == run[j].raw(),
            decreases to - i,
        {
            assert(run[i - from] == self.content@[i as int]@);
            parts.push(self.content[i].raw().clone());
            i += 1;
        }
        proof {
            assert(strings_view(parts@) =~= Seq::new(run.len(), |i: int| run[i].raw()));
            lemma_joined_without_separator(run);
            reveal_strlit("");
            assert(""@ =~= Seq::<char>::empty());
        }
        join(&parts, "")
    }

    /// The error for input that ends where another item was expected.
    pub fn end_error(&self) -> (r: ZError)
        ensures
            r@ == unexpected_end(self@.content),
    {
        let n = self.content.len();
        if n == 0 {
            ZError::parse(ParseErrorKind::UnexpectedEnd, String::new(), None)
        } else {
            let last = &self.content[n - 1];
            assert(self@.content.last() == last@);
            ZError::parse(ParseErrorKind::UnexpectedEnd, last.raw().clone(), last.span())
        }
    }

    /// The atom pass: an identifier token becomes an identifier, a literal
    /// token the literal of its value. The first literal without a value is
    /// an error, and the buffer is then as it was.
    pub fn parse_atoms(&mut self) -> (r: Result<(), ZError>)
        requires
            old(self)@.content.len() < usize::MAX,
        ensures
            pass_result(r, final(self)@.content, atoms_spec(old(self)@.content)),
            final(self)@.content.len() == old(self)@.content.len(),
            r is Err ==> final(self)@.content == old(self)@.content,
            final(self)@ == rewound(old(self)@, final(self)@.content),
            final(self)@.wf(),
    {
        let saved = self.raw.take();
        let r = self.atoms_pass();
        self.rewind(saved);
        r
    }

    /// The pass itself; it does not touch the cursor.
    pub(crate) fn atoms_pass(&mut self) -> (r: Result<(), ZError>)
        ensures
            pass_result(r, final(self)@.content, atoms_spec(old(self)@.content)),
            final(self)@.content.len() == old(self)@.content.len(),
            r is Err ==> final(self)@ == old(self)@,
    {
        let ghost items = self@.content;
        let mut out: Vec<Item> = Vec::new();
        let mut i: usize = 0;
        while i < self.content.len()
            invariant
                i <= self.content.len(),
                self@ == old(self)@,
                items == self@.content,
                out@.len() == i,
                first_invalid(items, i as int) == first_invalid(items, 0),
                forall|j: int| 0 <= j < i ==> atom_of(items[j]) == Ok::<_, ZErrorView>(out@[j]@),
            decreases self.content.len() - i,
        {
            assert(items[i as int] == self.content@[i as int]@);
            match atom(&self.content[i]) {
                Err(e) => {
                    return Err(e);
                },
                Ok(a) => {
                    out.push(a);
                },
            }
            i += 1;
        }
        assert(items_view(out@) =~= Seq::new(items.len(), |i: int| atom_of(items[i])->Ok_0));
        self.content = out;
        Ok(())
    }

    /// What is left at the end of the ladder has to be a single node.
    pub fn single_node(&self) -> (r: Result<Element, ZError>)
        ensures
            element_result_view(r) == single(self@.content),
    {
        if self.content.len() == 0 {
            return Err(empty_expression_error());
        }
        assert(self@.content[0] == self.content@[0]@);
        match &self.content[0] {
            Item::Token(_) => Err(failure(ParseErrorKind::UnexpectedToken, &self.content[0])),
            Item::Node(e) => {
                if self.content.len() > 1 {
                    assert(self@.content[1] == self.content@[1]@);
                    Err(failure(ParseErrorKind::UnexpectedToken, &self.content[1]))
                } else {
                    Ok(e.duplicate())
                }
            },
        }
    }

    /// Replaces the items `start..end` by `item`.
    pub fn reduce(&mut self, start: usize, end: usize, item: Item)
        requires
            start < end <= old(self)@.content.len(),
            old(self)@.content.len() < usize::MAX,
        ensures
            final(self)@.content == reduced(old(self)@.content, start as int, end as int, item@),
            final(self)@.content.len() == old(self)@.content.len() - (end - start) + 1,
    {
        let mut slice: Vec<Item> = Vec::new();
        slice.push(item);
        assert(items_view(slice@) =~= seq![item@]);
        self.splice_buffer(BufferWindow { slice, range: start..end });
        assert(self@.content =~= reduced(old(self)@.content, start as int, end as int, item@));
    }

    /// The block that the opening brace at `k` begins, and where it ends.
    fn parse_block_at(&mut self, k: usize, n: usize) -> (r: Result<(Item, usize), ZError>)
        requires
            old(self)@.content.len() < usize::MAX,
            k < old(self)@.content.len(),
        ensures
            final(self)@.content == old(self)@.content,
            (match r {
                Ok((node, end)) => Ok((node@, end as int)),
                Err(e) => Err(e@),
            }) == block_at(old(self)@.content, k as int, n as nat),
            r matches Ok((_, end)) ==> k < end <= old(self)@.content.len(),
        decreases n, 5int, 0int,
    {
        let ghost items = self@.content;
        self.cursor = k;
        self.started = true;
        let windows = match self.get_split_between(
            TokenType::OpenCurlyParen,
            TokenType::CloseCurlyParen,
            TokenType::StatementEnd,
        ) {
            Err(e) => {
                return Err(e);
            },
            Ok(w) => w,
        };
        let c = self.cursor;
        assert(closes_at(items, braces(), k + 1, c as int));
        let content = match parse_windows(&windows.buffer_windows, n) {
            Err(e) => {
                return Err(e);
            },
            Ok(nodes) => nodes,
        };
        assert(items[k as int] == self.content@[k as int]@);
        assert(items[c as int] == self.content@[c as int]@);
        let brace_spans = match (self.content[k].span(), self.content[c].span()) {
            (Some(open), Some(close)) => Some((open, close)),
            _ => None,
        };
        let raw = self.raw_between(k, c + 1);
        let block = Block { brace_spans, content };
        let tree = Ast::Block(block);
        assert(tree@ == AstView::Block(block@));
        let node = Item::Node(Element { raw, node: tree });
        assert(node@ == block_item(items, k as int, c as int, asts_view(content@)));
        Ok((node, c + 1))
    }

    /// The block pass with the bound `n`.
    pub(crate) fn block_pass(&mut self, n: usize) -> (r: Result<(), ZError>)
        requires
            old(self)@.content.len() < usize::MAX,
        ensures
            pass_result(r, final(self)@.content, block_spec(old(self)@.content, 0, n as nat)),
            final(self)@.content.len() <= old(self)@.content.len(),
        decreases n, 6int, 0int,
    {
        let ghost items0 = self@.content;
        let mut from: usize = 0;
        loop
            invariant
                items0 == old(self)@.content,
                self@.content.len() <= items0.len(),
                items0.len() < usize::MAX,
                block_spec(self@.content, from as int, n as nat) == block_spec(items0, 0, n as nat),
            decreases self@.content.len() - from,
        {
            let k = match self.find_token(TokenType::OpenCurlyParen, from) {
                None => {
                    return Ok(());
                },
                Some(k) => k,
            };
            let (node, end) = match self.parse_block_at(k, n) {
                Err(e) => {
                    return Err(e);
                },
                Ok(found) => found,
            };
            self.reduce(k, end, node);
            from = k + 1;
        }
    }

    /// The block pass: every opening brace is reduced, with what it
    /// encloses, to a block of the statements between the statement ends at
    /// its top level. A brace that is never closed is an
    /// unterminated-bracket error.
    pub fn parse_block(&mut self) -> (r: Result<(), ZError>)
        requires
            old(self)@.content.len() < usize::MAX,
        ensures
            pass_result(
                r,
                final(self)@.content,
                block_spec(old(self)@.content, 0, old(self)@.content.len()),
            ),
            final(self)@.content.len() <= old(self)@.content.len(),
            final(self)@ == rewound(old(self)@, final(self)@.content),
            final(self)@.wf(),
    {
        let n = self.content.len();
        let saved = self.raw.take();
        let r = self.block_pass(n);
        self.rewind(saved);
        r
    }

    /// The passes that take everything behind their trigger as a
    /// sub-expression, lowest precedence first.
    fn split_passes(&mut self, n: usize) -> (r: Result<(), ZError>)
        requires
            old(self)@.content.len() < usize::MAX,
        ensures
            pass_result(r, final(self)@.content, split_stage(old(self)@.content, n as nat)),
            final(self)@.content.len() <= old(self)@.content.len(),
        decreases n, 7int, 0int,
    {
        match self.statement_pass(n) {
            Err(e) => {
                return Err(e);
            },
            Ok(()) => {},
        }
        match self.declaration_pass(n) {
            Err(e) => {
                return Err(e);
            },
            Ok(()) => {},
        }
        match self.assignment_pass(n) {
            Err(e) => {
                return Err(e);
            },
            Ok(()) => {},
        }
        self.proc_pass(n)
    }

    /// The passes that reduce neighbouring items without parsing anything again.
    fn local_passes(&mut self) -> (r: Result<(), ZError>)
        requires
            old(self)@.content.len() < usize::MAX,
        ensures
            pass_result(r, final(self)@.content, local_stage(old(self)@.content)),
            final(self)@.content.len() <= old(self)@.content.len(),
    {
        match self.class_pass() {
            Err(e) => {
                return Err(e);
            },
            Ok(()) => {},
        }
        match self.unary_pass() {
            Err(e) => {
                return Err(e);
            },
            Ok(()) => {},
        }
        self.binary_levels_pass()
    }

    /// Parses the content of the buffer as one expression, pass by pass:
    /// blocks, atoms, member accesses with calls and groups, statements,
    /// declarations, assignments, procedure literals, class literals, unary
    /// operators and binary operators, in this order. What is left has to be
    /// a single node, and it is then the only item of the buffer.
    pub fn parse_as_expr(&mut self) -> (r: Result<Element, ZError>)
        requires
            old(self)@.content.len() < usize::MAX,
        ensures
            element_result_view(r) == parse_expr(old(self)@.content),
            r matches Ok(e) ==> final(self)@.content == seq![ItemView::Node(e@)],
            final(self)@.content.len() <= old(self)@.content.len(),
            final(self)@ == rewound(old(self)@, final(self)@.content),
            final(self)@.wf(),
        decreases old(self)@.content.len(), 9int, 0int,
    {
        let saved = self.raw.take();
        let r = self.ladder();
        self.rewind(saved);
        r
    }

    /// The passes in their fixed order; where they leave the cursor is not said.
    fn ladder(&mut self) -> (r: Result<Element, ZError>)
        requires
            old(self)@.content.len() < usize::MAX,
        ensures
            element_result_view(r) == parse_expr(old(self)@.content),
            r matches Ok(e) ==> final(self)@.content == seq![ItemView::Node(e@)],
            final(self)@.content.len() <= old(self)@.content.len(),
        decreases old(self)@.content.len(), 8int, 1int,
    {
        let n = self.content.len();
        match self.block_pass(n) {
            Err(e) => {
                return Err(e);
            },
            Ok(()) => {},
        }
        match self.atoms_pass() {
            Err(e) => {
                return Err(e);
            },
            Ok(()) => {},
        }
        match self.postfix_pass(n) {
            Err(e) => {
                return Err(e);
            },
            Ok(()) => {},
        }
        match self.split_passes(n) {
            Err(e) => {
                return Err(e);
            },
            Ok(()) => {},
        }
        match self.local_passes() {
            Err(e) => {
                return Err(e);
            },
            Ok(()) => {},
        }
        let r = self.single_node();
        proof {
            if r is Ok {
                assert(self@.content =~= seq![self@.content[0]]);
            }
        }
        r
    }
}

impl BufferWindow {
    /// Parses the items of the window as one expression. The window then
    /// holds the one node that they reduce to, in place of the items; its
    /// range stays. Where the items do not parse, the window is as it was.
    pub fn with_as_buffer(&mut self) -> (r: Result<Element, ZError>)
        requires
            old(self)@.slice.len() < usize::MAX,
        ensures
            element_result_view(r) == parse_expr(old(self)@.slice),
            match r {
                Ok(e) => final(self)@ == (BufferWindowView {
                    slice: seq![ItemView::Node(e@)],
                    ..old(self)@
                }),
                Err(_) => final(self)@ == old(self)@,
            },
    {
        let mut buffer = self.as_buffer();
        match buffer.parse_as_expr() {
            Err(e) => Err(e),
            Ok(e) => {
                self.take_buffer(buffer);
                Ok(e)
            },
        }
    }
}

/// What the windows `windows[i..]` parse to, each as one expression, behind
/// the nodes in `acc`.
pub open spec fn parse_each(windows: Seq<BufferWindowView>, i: int, acc: Seq<ElementView>) -> Result<
    Seq<ElementView>,
    ZErrorView,
>
    decreases windows.len() - i,
{
    if i < 0 || i >= windows.len() {
        Ok(acc)
    } else {
        match parse_expr(windows[i].slice) {
            Err(e) => Err(e),
            Ok(e) => parse_each(windows, i + 1, acc.push(e)),
        }
    }
}

pub open spec fn elements_view(s: Seq<Element>) -> Seq<ElementView> {
    Seq::new(s.len(), |i: int| s[i]@)
}

impl crate::parser::buffer::BufferWindows {
    /// Parses the items of every window as one expression, in order, up to
    /// the first window that does not parse. Where all of them parse, every
    /// window then holds the one node that its items reduce to; where one
    /// does not, the windows are as they were.
    pub fn with_as_buffers(&mut self) -> (r: Result<Vec<Element>, ZError>)
        requires
            forall|i: int|
                0 <= i < old(self)@.buffer_windows.len() ==> (#[trigger] old(
                    self,
                )@.buffer_windows[i]).slice.len() < usize::MAX,
        ensures
            (match r {
                Ok(out) => Ok(elements_view(out@)),
                Err(e) => Err(e@),
            }) == parse_each(old(self)@.buffer_windows, 0, Seq::empty()),
            match r {
                Ok(out) => {
                    &&& final(self)@.start == old(self)@.start
                    &&& final(self)@.end == old(self)@.end
                    &&& final(self)@.buffer_windows.len() == old(self)@.buffer_windows.len()
                    &&& forall|i: int|
                        0 <= i < out@.len() ==> #[trigger] final(self)@.buffer_windows[i] == (
                        BufferWindowView {
                            slice: seq![ItemView::Node(out@[i]@)],
                            ..old(self)@.buffer_windows[i]
                        })
                },
                Err(_) => final(self)@ == old(self)@,
            },
    {
        assert forall|i: int| 0 <= i < self.buffer_windows@.len() implies (
        #[trigger] self.buffer_windows@[i])@.slice.len() < usize::MAX by {
            assert(self@.buffer_windows[i] == self.buffer_windows@[i]@);
        }
        let out = match parse_all(&self.buffer_windows) {
            Err(e) => {
                return Err(e);
            },
            Ok(out) => out,
        };
        let mut updated: Vec<BufferWindow> = Vec::new();
        let mut j: usize = 0;
        while j < out.len()
            invariant
                j <= out.len(),
                out.len() == self.buffer_windows.len(),
                *self == *old(self),
                updated@.len() == j,
                forall|i: int|
                    0 <= i < j ==> (#[trigger] updated@[i])@ == (BufferWindowView {
                        slice: seq![ItemView::Node(out@[i]@)],
                        ..old(self).buffer_windows@[i]@
                    }),
            decreases out.len() - j,
        {
            let mut slice: Vec<Item> = Vec::new();
            slice.push(Item::Node(out[j].duplicate()));
            assert(items_view(slice@) =~= seq![ItemView::Node(out@[j as int]@)]);
            let range = &self.buffer_windows[j].range;
            updated.push(BufferWindow { slice, range: range.start..range.end });
            j += 1;
        }
        self.buffer_windows = updated;
        Ok(out)
    }
}

/// Parses a copy of the items of every window as one expression, in order.
fn parse_all(windows: &Vec<BufferWindow>) -> (r: Result<Vec<Element>, ZError>)
    requires
        forall|i: int| 0 <= i < windows@.len() ==> (#[trigger] windows@[i])@.slice.len() < usize::MAX,
    ensures
        (match r {
            Ok(out) => Ok(elements_view(out@)),
            Err(e) => Err(e@),
        }) == parse_each(windows_view(windows@), 0, Seq::empty()),
        r matches Ok(out) ==> out@.len() == windows@.len(),
{
    let ghost views = windows_view(windows@);
    let mut out: Vec<Element> = Vec::new();
    assert(elements_view(out@) =~= Seq::empty());
    let mut i: usize = 0;
    while i < windows.len()
        invariant
            i <= windows.len(),
            out@.len() == i,
            views == windows_view(windows@),
            forall|i: int|
                0 <= i < windows@.len() ==> (#[trigger] windows@[i])@.slice.len() < usize::MAX,
            parse_each(views, i as int, elements_view(out@)) == parse_each(views, 0, Seq::empty()),
        decreases windows.len() - i,
    {
        assert(views[i as int] == windows@[i as int]@);
        let mut buffer = windows[i].as_buffer();
        match buffer.parse_as_expr() {
            Err(e) => {
                return Err(e);
            },
            Ok(e) => {
                assert(elements_view(out@.push(e)) =~= elements_view(out@).push(e@));
                out.push(e);
            },
        }
        i += 1;
    }
    Ok(out)
}

/// Parses a finished token sequence as a program: the statements between
/// the statement ends at the top level, each as one expression.
pub fn parse_token_list(input: Vec<Token>) -> (r: Result<Vec<Ast>, ZError>)
    requires
        input@.len() < usize::MAX,
    ensures
        (match r {
            Ok(nodes) => Ok(asts_view(nodes@)),
            Err(e) => Err(e@),
        }) == parse_program(crate::parser::buffer::token_items(input@)),
{
    let mut buffer = Buffer::new(input);
    let n = buffer.content.len() + 1;
    match buffer.block_pass(n) {
        Err(e) => {
            return Err(e);
        },
        Ok(()) => {},
    }
    buffer.reset_cursor();
    match buffer.get_split(TokenType::StatementEnd) {
        Err(e) => Err(e),
        Ok(windows) => parse_windows(&windows.buffer_windows, n),
    }
}

} // verus!
