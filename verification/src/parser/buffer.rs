//! The rewrite buffer: a sequence of tokens and already reduced nodes with a
//! scan cursor, from which windows can be cut and into which they are spliced back.
use std::ops::Range;
use vstd::prelude::*;
use vstd::string::StringExecFns;
use crate::ast::{Ast, AstView};
use crate::ast::span::span_of;
use crate::errors::{ParseErrorKind, ZError, ZErrorView};
use crate::types::position::Span;
use crate::types::token::{Token, TokenType, TokenView};

verus! {

/// A reduced node together with the source text it was reduced from.
#[derive(Debug)]
pub struct Element {
    pub raw: String,
    pub node: Ast,
}

pub struct ElementView {
    pub raw: Seq<char>,
    pub node: AstView,
}

impl View for Element {
    type V = ElementView;

    open spec fn view(&self) -> ElementView {
        ElementView { raw: self.raw@, node: self.node@ }
    }
}

/// One item of a buffer: a node that a pass has produced, or a token still to be reduced.
#[derive(Debug)]
pub enum Item {
    Node(Element),
    Token(Token),
}

pub enum ItemView {
    Node(ElementView),
    Token(TokenView),
}

impl View for Item {
    type V = ItemView;

    open spec fn view(&self) -> ItemView {
        match *self {
            Item::Node(e) => ItemView::Node(e@),
            Item::Token(t) => ItemView::Token(t@),
        }
    }
}

impl ItemView {
    /// The source text of the item.
    pub open spec fn raw(self) -> Seq<char> {
        match self {
            ItemView::Node(e) => e.raw,
            ItemView::Token(t) => t.value,
        }
    }

    /// Whether the item is a token of kind `ty`.
    pub open spec fn is_token(self, ty: TokenType) -> bool {
        self matches ItemView::Token(t) && t.ty == Some(ty)
    }
}

pub open spec fn items_view(s: Seq<Item>) -> Seq<ItemView> {
    Seq::new(s.len(), |i: int| s[i]@)
}

/// The source text of a run of items.
pub open spec fn raw_text(items: Seq<ItemView>) -> Seq<char>
    decreases items.len(),
{
    if items.len() == 0 {
        Seq::empty()
    } else {
        raw_text(items.drop_last()) + items.last().raw()
    }
}

impl Element {
    pub fn duplicate(&self) -> (r: Element)
        ensures
            r@ == self@,
    {
        Element { raw: self.raw.clone(), node: self.node.duplicate() }
    }
}

impl Item {
    pub fn duplicate(&self) -> (r: Item)
        ensures
            r@ == self@,
    {
        match self {
            Item::Node(e) => Item::Node(e.duplicate()),
            Item::Token(t) => Item::Token(t.duplicate()),
        }
    }

    /// The source text of the item.
    pub fn raw(&self) -> (r: &String)
        ensures
            r@ == self@.raw(),
    {
        match self {
            Item::Node(e) => &e.raw,
            Item::Token(t) => &t.value,
        }
    }

    /// Where the item stands in the source, as far as that is known.
    pub fn span(&self) -> (r: Option<Span>)
        ensures
            r == item_span(self@),
    {
        match self {
            Item::Node(e) => e.node.span(),
            Item::Token(t) => Some(t.span),
        }
    }

    /// Whether the item is a token of kind `ty`.
    pub fn is_token(&self, ty: TokenType) -> (r: bool)
        ensures
            r == self@.is_token(ty),
    {
        match self {
            Item::Node(_) => false,
            Item::Token(t) => t.is(ty),
        }
    }
}

/// Copies of the items `from..to` of `v`.
pub fn duplicate_items(v: &Vec<Item>, from: usize, to: usize) -> (r: Vec<Item>)
    requires
        from <= to <= v@.len(),
    ensures
        items_view(r@) == items_view(v@).subrange(from as int, to as int),
{
    let mut out: Vec<Item> = Vec::new();
    let mut i: usize = from;
    while i < to
        invariant
            from <= i <= to <= v@.len(),
            out@.len() == i - from,
            forall|j: int| 0 <= j < i - from ==> out@[j]@ == v@[from + j]@,
        decreases to - i,
    {
        out.push(v[i].duplicate());
        i += 1;
    }
    assert(items_view(out@) =~= items_view(v@).subrange(from as int, to as int));
    out
}

/// What a buffer holds and where its cursor stands.
pub struct BufferView {
    pub content: Seq<ItemView>,
    pub cursor: int,
    pub started: bool,
    /// The source text collected so far, while collection is switched on.
    pub raw: Option<Seq<char>>,
}

impl BufferView {
    /// The cursor lies within the content or just behind it, and a buffer that
    /// has not been started has its cursor at the front.
    pub open spec fn wf(self) -> bool {
        &&& 0 <= self.cursor <= self.content.len()
        &&& self.content.len() < usize::MAX
        &&& !self.started ==> self.cursor == 0
    }

    /// The position that the next step looks at.
    pub open spec fn next_pos(self) -> int {
        if self.started {
            self.cursor + 1
        } else {
            0
        }
    }

    /// Where the cursor stands after one step. The first step only marks the
    /// buffer as started; a cursor behind the content stays where it is.
    pub open spec fn stepped_cursor(self) -> int {
        if self.started && self.cursor < self.content.len() {
            self.cursor + 1
        } else {
            self.cursor
        }
    }

    /// The item under the cursor after one step, if the cursor is still within the content.
    pub open spec fn stepped_item(self) -> Option<ItemView> {
        if 0 <= self.stepped_cursor() < self.content.len() {
            Some(self.content[self.stepped_cursor()])
        } else {
            None
        }
    }

    /// The buffer after one step.
    pub open spec fn step(self) -> BufferView {
        BufferView {
            content: self.content,
            cursor: self.stepped_cursor(),
            started: true,
            raw: match (self.raw, self.stepped_item()) {
                (Some(r), Some(item)) => Some(r + item.raw()),
                _ => self.raw,
            },
        }
    }

    /// The item before the cursor.
    pub open spec fn prev_item(self) -> Option<ItemView> {
        if self.started && 0 < self.cursor <= self.content.len() {
            Some(self.content[self.cursor - 1])
        } else {
            None
        }
    }

    /// The item that the next step would reach, without taking the step.
    pub open spec fn peek_item(self) -> Option<ItemView> {
        if 0 <= self.next_pos() < self.content.len() {
            Some(self.content[self.next_pos()])
        } else {
            None
        }
    }

    /// The buffer with source text collection switched on. Collection that is
    /// already on goes on undisturbed; otherwise it begins with the text of the
    /// item under the cursor, if the buffer has been started and there is one.
    pub open spec fn collecting(self) -> BufferView {
        BufferView {
            raw: match self.raw {
                Some(r) => Some(r),
                None => Some(
                    if self.started && 0 <= self.cursor < self.content.len() {
                        self.content[self.cursor].raw()
                    } else {
                        Seq::empty()
                    },
                ),
            },
            ..self
        }
    }

    /// The buffer after the items `start..end` are replaced by `slice`, with
    /// the cursor just behind the replacement.
    pub open spec fn spliced(self, start: int, end: int, slice: Seq<ItemView>) -> BufferView {
        BufferView {
            content: self.content.subrange(0, start) + slice + self.content.subrange(
                end,
                self.content.len() as int,
            ),
            cursor: start + slice.len(),
            ..self
        }
    }
}

pub open spec fn opt_item_view(i: Option<Item>) -> Option<ItemView> {
    match i {
        Some(i) => Some(i@),
        None => None,
    }
}

pub open spec fn opt_item_ref_view(i: Option<&Item>) -> Option<ItemView> {
    match i {
        Some(i) => Some(i@),
        None => None,
    }
}

/// What an item does to the nesting depth of a scan between `open` and
/// `close`. Where one symbol serves as both, nesting cannot be told, and the
/// symbol always closes.
pub open spec fn depth_step(item: ItemView, nesting: Option<(TokenType, TokenType)>) -> int {
    match nesting {
        Some((open, close)) => if item.is_token(close) {
            -1
        } else if item.is_token(open) {
            1
        } else {
            0
        },
        None => 0,
    }
}

/// The nesting depth behind the item at `k`, for a scan that starts at `from`
/// with depth 1, behind an opener that was already consumed.
pub open spec fn depth_at(
    content: Seq<ItemView>,
    nesting: Option<(TokenType, TokenType)>,
    from: int,
    k: int,
) -> int
    decreases k - from + 1,
{
    if k < from {
        1
    } else {
        depth_at(content, nesting, from, k - 1) + depth_step(content[k], nesting)
    }
}

/// The item at `c` closes the opener consumed before `from`: the depth
/// reaches 0 there, and nowhere before.
pub open spec fn closes_at(
    content: Seq<ItemView>,
    nesting: Option<(TokenType, TokenType)>,
    from: int,
    c: int,
) -> bool {
    &&& from <= c < content.len()
    &&& depth_at(content, nesting, from, c) == 0
    &&& forall|k: int| from <= k < c ==> depth_at(content, nesting, from, k) != 0
}

/// Where the opener consumed before `from` is closed, if it is.
pub open spec fn closing(
    content: Seq<ItemView>,
    nesting: Option<(TokenType, TokenType)>,
    from: int,
) -> Option<int> {
    if exists|c: int| closes_at(content, nesting, from, c) {
        Some(choose|c: int| closes_at(content, nesting, from, c))
    } else {
        None
    }
}

/// The item at `k` is a divider at the top level of the scan.
pub open spec fn divides_at(
    content: Seq<ItemView>,
    nesting: Option<(TokenType, TokenType)>,
    divider: TokenType,
    from: int,
    k: int,
) -> bool {
    content[k].is_token(divider) && depth_at(content, nesting, from, k) == 1
}

/// The positions in `from..to` of the dividers at the top level, in order.
pub open spec fn split_points(
    content: Seq<ItemView>,
    nesting: Option<(TokenType, TokenType)>,
    divider: TokenType,
    from: int,
    to: int,
) -> Seq<int>
    decreases to - from,
{
    if to <= from {
        Seq::empty()
    } else {
        let before = split_points(content, nesting, divider, from, to - 1);
        if divides_at(content, nesting, divider, from, to - 1) {
            before.push(to - 1)
        } else {
            before
        }
    }
}

/// The window over the items `start..end`.
pub open spec fn window_of(content: Seq<ItemView>, start: int, end: int) -> BufferWindowView {
    BufferWindowView { slice: content.subrange(start, end), start, end }
}

/// Where the segment begins that follows the dividers at `points`.
pub open spec fn segment_start(first: int, points: Seq<int>) -> int {
    if points.len() == 0 {
        first
    } else {
        points.last() + 1
    }
}

/// The windows between the dividers at `points`, without the last one.
pub open spec fn closed_segments(content: Seq<ItemView>, first: int, points: Seq<int>) -> Seq<
    BufferWindowView,
> {
    Seq::new(
        points.len(),
        |i: int| window_of(content, segment_start(first, points.take(i)), points[i]),
    )
}

/// The windows that the dividers at `points` cut `first..end` into: one more
/// than there are dividers.
pub open spec fn segments(content: Seq<ItemView>, first: int, points: Seq<int>, end: int) -> Seq<
    BufferWindowView,
> {
    closed_segments(content, first, points).push(
        window_of(content, segment_start(first, points), end),
    )
}

/// The items from `from` on, if there are any.
pub open spec fn rest_from(content: Seq<ItemView>, from: int) -> Seq<ItemView> {
    if 0 <= from <= content.len() {
        content.subrange(from, content.len() as int)
    } else {
        Seq::empty()
    }
}

pub proof fn lemma_advance_raw_nothing(raw: Option<Seq<char>>)
    ensures
        advance_raw(raw, Seq::empty()) == raw,
{
    if raw is Some {
        assert(raw->0 + Seq::<char>::empty() =~= raw->0);
    }
}

/// The collected source text after `items` have been passed.
pub open spec fn advance_raw(raw: Option<Seq<char>>, items: Seq<ItemView>) -> Option<Seq<char>> {
    match raw {
        Some(r) => Some(r + raw_text(items)),
        None => None,
    }
}

/// The error for an opener that is never closed: it carries the text and the
/// place of the opener.
pub open spec fn unterminated(content: Seq<ItemView>, opener: int) -> ZErrorView {
    if 0 <= opener < content.len() {
        ZErrorView::Parse {
            kind: ParseErrorKind::UnterminatedBracket,
            raw: content[opener].raw(),
            span: item_span(content[opener]),
        }
    } else {
        ZErrorView::Parse {
            kind: ParseErrorKind::UnterminatedBracket,
            raw: Seq::empty(),
            span: None,
        }
    }
}

pub proof fn lemma_closing_unique(
    content: Seq<ItemView>,
    nesting: Option<(TokenType, TokenType)>,
    from: int,
    c: int,
)
    requires
        closes_at(content, nesting, from, c),
    ensures
        closing(content, nesting, from) == Some(c),
{
    let k = choose|k: int| closes_at(content, nesting, from, k);
    if k < c {
        assert(depth_at(content, nesting, from, k) != 0);
    }
    if c < k {
        assert(depth_at(content, nesting, from, c) != 0);
    }
}

pub proof fn lemma_closing_none(
    content: Seq<ItemView>,
    nesting: Option<(TokenType, TokenType)>,
    from: int,
)
    requires
        forall|k: int| from <= k < content.len() ==> depth_at(content, nesting, from, k) != 0,
    ensures
        closing(content, nesting, from) is None,
{
    if exists|c: int| closes_at(content, nesting, from, c) {
        let c = choose|c: int| closes_at(content, nesting, from, c);
        assert(depth_at(content, nesting, from, c) != 0);
    }
}

pub proof fn lemma_raw_text_push(items: Seq<ItemView>, item: ItemView)
    ensures
        raw_text(items.push(item)) == raw_text(items) + item.raw(),
{
    assert(items.push(item).drop_last() =~= items);
}

/// Passing one more item adds its text to what was collected.
pub proof fn lemma_advance_raw_step(
    raw: Option<Seq<char>>,
    content: Seq<ItemView>,
    from: int,
    to: int,
)
    requires
        0 <= from <= to < content.len(),
    ensures
        advance_raw(raw, content.subrange(from, to + 1)) == match advance_raw(
            raw,
            content.subrange(from, to),
        ) {
            Some(r) => Some(r + content[to].raw()),
            None => None,
        },
{
    assert(content.subrange(from, to + 1) =~= content.subrange(from, to).push(content[to]));
    lemma_raw_text_push(content.subrange(from, to), content[to]);
    if raw is Some {
        let r = raw->0;
        assert(r + (raw_text(content.subrange(from, to)) + content[to].raw()) =~= (r + raw_text(
            content.subrange(from, to),
        )) + content[to].raw());
    }
}

pub proof fn lemma_advance_raw_empty(raw: Option<Seq<char>>, content: Seq<ItemView>, from: int)
    requires
        0 <= from <= content.len(),
    ensures
        advance_raw(raw, content.subrange(from, from)) == raw,
{
    assert(content.subrange(from, from) =~= Seq::<ItemView>::empty());
    if raw is Some {
        assert(raw->0 + Seq::<char>::empty() =~= raw->0);
    }
}

pub proof fn lemma_closed_segments_push(
    content: Seq<ItemView>,
    first: int,
    points: Seq<int>,
    k: int,
)
    ensures
        closed_segments(content, first, points.push(k)) == closed_segments(
            content,
            first,
            points,
        ).push(window_of(content, segment_start(first, points), k)),
{
    let longer = points.push(k);
    assert forall|i: int| 0 <= i < longer.len() implies #[trigger] closed_segments(
        content,
        first,
        longer,
    )[i] == closed_segments(content, first, points).push(
        window_of(content, segment_start(first, points), k),
    )[i] by {
        if i < points.len() {
            assert(longer.take(i) =~= points.take(i));
        } else {
            assert(longer.take(i) =~= points);
        }
    }
    assert(closed_segments(content, first, longer) =~= closed_segments(
        content,
        first,
        points,
    ).push(window_of(content, segment_start(first, points), k)));
}

/// Without brackets to count, the depth stays at 1.
pub proof fn lemma_flat_scan_never_closes(content: Seq<ItemView>, from: int, k: int)
    ensures
        depth_at(content, None, from, k) == 1,
    decreases k - from + 1,
{
    if k >= from {
        lemma_flat_scan_never_closes(content, from, k - 1);
    }
}

/// Every divider found lies in the range that was scanned.
pub proof fn lemma_split_points_bounds(
    content: Seq<ItemView>,
    nesting: Option<(TokenType, TokenType)>,
    divider: TokenType,
    from: int,
    to: int,
)
    ensures
        forall|i: int|
            0 <= i < split_points(content, nesting, divider, from, to).len() ==> from
                <= #[trigger] split_points(content, nesting, divider, from, to)[i] < to,
    decreases to - from,
{
    if to > from {
        lemma_split_points_bounds(content, nesting, divider, from, to - 1);
        let before = split_points(content, nesting, divider, from, to - 1);
        let points = split_points(content, nesting, divider, from, to);
        assert forall|i: int| 0 <= i < points.len() implies from <= #[trigger] points[i] < to by {
            if i < before.len() {
                assert(points[i] == before[i]);
            }
        }
    }
}

/// A mutable, splice-able sequence of tokens and nodes with a scan cursor.
#[derive(Debug)]
pub struct Buffer {
    pub content: Vec<Item>,
    pub cursor: usize,
    pub started: bool,
    pub raw: Option<String>,
}

impl View for Buffer {
    type V = BufferView;

    open spec fn view(&self) -> BufferView {
        BufferView {
            content: items_view(self.content@),
            cursor: self.cursor as int,
            started: self.started,
            raw: match self.raw {
                Some(r) => Some(r@),
                None => None,
            },
        }
    }
}

/// The items that a run of tokens becomes when it is put into a buffer.
pub open spec fn token_items(tokens: Seq<Token>) -> Seq<ItemView> {
    Seq::new(tokens.len(), |i: int| ItemView::Token(tokens[i]@))
}

/// A copy of a cut of a buffer, with the range it was cut from.
#[derive(Debug)]
pub struct BufferWindow {
    pub slice: Vec<Item>,
    pub range: Range<usize>,
}

pub struct BufferWindowView {
    pub slice: Seq<ItemView>,
    pub start: int,
    pub end: int,
}

impl View for BufferWindow {
    type V = BufferWindowView;

    open spec fn view(&self) -> BufferWindowView {
        BufferWindowView {
            slice: items_view(self.slice@),
            start: self.range.start as int,
            end: self.range.end as int,
        }
    }
}

/// The windows between the dividers of a cut, with the range of the whole cut.
#[derive(Debug)]
pub struct BufferWindows {
    pub buffer_windows: Vec<BufferWindow>,
    pub range: Range<usize>,
}

pub struct BufferWindowsView {
    pub buffer_windows: Seq<BufferWindowView>,
    pub start: int,
    pub end: int,
}

pub open spec fn windows_view(s: Seq<BufferWindow>) -> Seq<BufferWindowView> {
    Seq::new(s.len(), |i: int| s[i]@)
}

impl View for BufferWindows {
    type V = BufferWindowsView;

    open spec fn view(&self) -> BufferWindowsView {
        BufferWindowsView {
            buffer_windows: windows_view(self.buffer_windows@),
            start: self.range.start as int,
            end: self.range.end as int,
        }
    }
}

impl Buffer {
    /// A fresh buffer over `input`, not yet started.
    pub fn new(input: Vec<Token>) -> (r: Buffer)
        requires
            input@.len() < usize::MAX,
        ensures
            r@.wf(),
            r@ == (BufferView {
                content: token_items(input@),
                cursor: 0,
                started: false,
                raw: None,
            }),
    {
        let mut content: Vec<Item> = Vec::new();
        let mut i: usize = 0;
        while i < input.len()
            invariant
                i <= input@.len(),
                content@.len() == i,
                forall|j: int| 0 <= j < i ==> content@[j]@ == ItemView::Token(input@[j]@),
            decreases input.len() - i,
        {
            content.push(Item::Token(input[i].duplicate()));
            i += 1;
        }
        assert(items_view(content@) =~= token_items(input@));
        Buffer { content, cursor: 0, started: false, raw: None }
    }

    /// A fresh buffer over items, not yet started.
    pub fn from_items(content: Vec<Item>) -> (r: Buffer)
        requires
            content@.len() < usize::MAX,
        ensures
            r@.wf(),
            r@ == (BufferView {
                content: items_view(content@),
                cursor: 0,
                started: false,
                raw: None,
            }),
    {
        Buffer { content, cursor: 0, started: false, raw: None }
    }

    /// Takes one step and hands out a copy of the item that the cursor then
    /// stands on. The first step of a buffer does not move the cursor. While
    /// source text is collected, the text of the item is added to it.
    pub fn next(&mut self) -> (r: Option<Item>)
        requires
            old(self)@.cursor <= old(self)@.content.len(),
        ensures
            old(self)@.wf() ==> final(self)@.wf(),
            final(self)@.cursor <= final(self)@.content.len(),
            final(self)@ == old(self)@.step(),
            opt_item_view(r) == old(self)@.stepped_item(),
    {
        if self.started {
            if self.cursor < self.content.len() {
                self.cursor += 1;
            }
        } else {
            self.started = true;
        }
        if self.cursor < self.content.len() {
            let item = self.content[self.cursor].duplicate();
            match self.raw.take() {
                Some(mut raw) => {
                    raw.append(item.raw().as_str());
                    self.raw = Some(raw);
                },
                None => {},
            }
            Some(item)
        } else {
            None
        }
    }

    /// Like `next`, but the end of the input is a parse error, placed at the
    /// last item and carrying its text.
    pub fn next_or_err(&mut self) -> (r: Result<Item, ZError>)
        requires
            old(self)@.wf(),
        ensures
            final(self)@.wf(),
            final(self)@ == old(self)@.step(),
            match r {
                Ok(item) => old(self)@.stepped_item() == Some(item@),
                Err(e) => old(self)@.stepped_item() is None && e@ == unexpected_end(
                    old(self)@.content,
                ),
            },
    {
        match self.next() {
            Some(item) => Ok(item),
            None => {
                let n = self.content.len();
                if n == 0 {
                    Err(ZError::parse(ParseErrorKind::UnexpectedEnd, String::new(), None))
                } else {
                    let last = &self.content[n - 1];
                    Err(
                        ZError::parse(
                            ParseErrorKind::UnexpectedEnd,
                            last.raw().clone(),
                            last.span(),
                        ),
                    )
                }
            },
        }
    }

    /// The item before the cursor, if the buffer has been started and the
    /// cursor is not at the front.
    pub fn prev(&self) -> (r: Option<&Item>)
        requires
            self@.wf(),
        ensures
            opt_item_ref_view(r) == self@.prev_item(),
    {
        if !self.started || self.cursor == 0 {
            None
        } else {
            Some(&self.content[self.cursor - 1])
        }
    }

    /// The position that the next step looks at.
    pub fn next_cursor_pos(&self) -> (r: usize)
        requires
            self@.wf(),
        ensures
            r == self@.next_pos(),
    {
        if self.started {
            self.cursor + 1
        } else {
            0
        }
    }

    /// Puts the cursor back to the front, as in a fresh buffer.
    pub fn reset_cursor(&mut self)
        ensures
            final(self)@ == (BufferView { cursor: 0, started: false, ..old(self)@ }),
    {
        self.started = false;
        self.cursor = 0;
    }

    /// The item that the next step would reach, without taking the step.
    pub fn peek(&self) -> (r: Option<&Item>)
        requires
            self@.wf(),
        ensures
            opt_item_ref_view(r) == self@.peek_item(),
    {
        let pos = self.next_cursor_pos();
        if pos < self.content.len() {
            Some(&self.content[pos])
        } else {
            None
        }
    }

    /// Switches the collection of source text on.
    pub fn start_raw_collection(&mut self)
        requires
            old(self)@.wf(),
        ensures
            final(self)@ == old(self)@.collecting(),
    {
        if self.raw.is_none() {
            let first = if self.started && self.cursor < self.content.len() {
                self.content[self.cursor].raw().clone()
            } else {
                String::new()
            };
            self.raw = Some(first);
        }
    }

    /// Switches the collection of source text off and hands out what was
    /// collected: the empty text if collection was not on.
    pub fn end_raw_collection(&mut self) -> (r: String)
        ensures
            final(self)@ == (BufferView { raw: None, ..old(self)@ }),
            r@ == match old(self)@.raw {
                Some(raw) => raw,
                None => Seq::empty(),
            },
    {
        match self.raw.take() {
            Some(raw) => raw,
            None => String::new(),
        }
    }

    /// A copy of the items in `range`, with the range.
    pub fn window(&self, range: Range<usize>) -> (r: BufferWindow)
        requires
            range.start <= range.end <= self@.content.len(),
        ensures
            r@ == (BufferWindowView {
                slice: self@.content.subrange(range.start as int, range.end as int),
                start: range.start as int,
                end: range.end as int,
            }),
    {
        BufferWindow { slice: duplicate_items(&self.content, range.start, range.end), range }
    }

    /// The window from the cursor to the end of the buffer.
    pub fn rest_incl_curr(&self) -> (r: BufferWindow)
        requires
            self@.wf(),
        ensures
            r@ == (BufferWindowView {
                slice: self@.content.subrange(self@.cursor, self@.content.len() as int),
                start: self@.cursor,
                end: self@.content.len() as int,
            }),
    {
        self.window(self.cursor..self.content.len())
    }

    /// Scans from behind the cursor, which stands on an opener that was
    /// already consumed, to the item that closes it. A buffer that has not
    /// been started counts as standing on its first item. The scan ends on
    /// every buffer whose cursor stands within it or just behind it, whatever
    /// the brackets: the cursor only moves forward, and never past the end. The nesting depth starts
    /// at 1, goes up with every further `start_token` and down with every
    /// `end_token`; the scan stops where it reaches 0. The window holds the
    /// items strictly between opener and closer, and its range covers both.
    /// Where the input ends first, this is an unterminated-bracket error.
    pub fn get_between(&mut self, start_token: TokenType, end_token: TokenType) -> (r: Result<
        BufferWindow,
        ZError,
    >)
        requires
            old(self)@.cursor <= old(self)@.content.len(),
        ensures
            old(self)@.wf() ==> final(self)@.wf(),
            old(self)@.cursor <= final(self)@.cursor <= old(self)@.content.len(),
            ({
                let b = BufferView { started: true, ..old(self)@ };
                let nesting = Some((start_token, end_token));
                match r {
                    Ok(w) => {
                        &&& closing(b.content, nesting, b.cursor + 1) matches Some(c)
                        &&& w@ == (BufferWindowView {
                            slice: b.content.subrange(b.cursor + 1, c),
                            start: b.cursor,
                            end: c + 1,
                        })
                        &&& final(self)@ == (BufferView {
                            cursor: c,
                            raw: advance_raw(b.raw, b.content.subrange(b.cursor + 1, c + 1)),
                            ..b
                        })
                    },
                    Err(e) => {
                        &&& closing(b.content, nesting, b.cursor + 1) is None
                        &&& e@ == unterminated(b.content, b.cursor)
                        &&& final(self)@ == (BufferView {
                            cursor: b.content.len() as int,
                            raw: advance_raw(b.raw, rest_from(b.content, b.cursor + 1)),
                            ..b
                        })
                    },
                }
            }),
    {
        self.started = true;
        let start = self.cursor;
        let ghost b = self@;
        let ghost nesting = Some((start_token, end_token));
        let ghost from: int = start + 1;
        let mut nest_level: usize = 1;
        if start >= self.content.len() {
            proof {
                lemma_closing_none(b.content, nesting, b.cursor + 1);
                lemma_advance_raw_nothing(b.raw);
            }
            return Err(
                ZError::parse(ParseErrorKind::UnterminatedBracket, String::new(), None),
            );
        }
        proof {
            lemma_advance_raw_empty(b.raw, b.content, start + 1);
        }
        let mut exhausted = false;
        while nest_level != 0 && !exhausted
            invariant
                old(self)@.wf() ==> self@.wf(),
                self@.started,
                self@.content == b.content,
                b.content == old(self)@.content,
                b.cursor == start,
                from == start + 1,
                nesting == Some((start_token, end_token)),
                start < b.content.len(),
                start <= self.cursor <= b.content.len(),
                exhausted ==> self.cursor == b.content.len(),
                !exhausted ==> self.cursor < b.content.len(),
                nest_level == depth_at(
                    b.content,
                    nesting,
                    from,
                    if exhausted { self.cursor - 1 } else { self.cursor as int },
                ),
                nest_level <= self.cursor - start + 1,
                forall|k: int|
                    from <= k < self.cursor ==> depth_at(b.content, nesting, from, k) != 0,
                exhausted ==> nest_level != 0,
                self@.raw == advance_raw(
                    b.raw,
                    b.content.subrange(
                        start + 1,
                        if exhausted { self.cursor as int } else { self.cursor + 1 },
                    ),
                ),
            decreases b.content.len() - self.cursor, if exhausted { 0int } else { 1int },
        {
            match self.next() {
                Some(item) => {
                    proof {
                        lemma_advance_raw_step(b.raw, b.content, start + 1, self.cursor as int);
                    }
                    let len = self.content.len();
                    assert(nest_level < len);
                    if item.is_token(end_token) {
                        nest_level -= 1;
                    } else if item.is_token(start_token) {
                        nest_level += 1;
                    }
                },
                None => {
                    exhausted = true;
                },
            }
        }
        if nest_level != 0 {
            proof {
                lemma_closing_none(b.content, nesting, b.cursor + 1);
            }
            let opener = &self.content[start];
            assert(opener@ == b.content[start as int]);
            return Err(
                ZError::parse(
                    ParseErrorKind::UnterminatedBracket,
                    opener.raw().clone(),
                    opener.span(),
                ),
            );
        }
        proof {
            lemma_closing_unique(b.content, nesting, b.cursor + 1, self.cursor as int);
        }
        Ok(
            BufferWindow {
                slice: duplicate_items(&self.content, start + 1, self.cursor),
                range: start..self.cursor + 1,
            },
        )
    }

    /// Scans on from the cursor and cuts a window at every divider at the top
    /// level, until the depth reaches 0 or the input ends. Hands back the
    /// windows cut so far, where the segment begins that was not closed by a
    /// divider, and whether the depth reached 0.
    fn scan_segments(
        &mut self,
        nesting: Option<(TokenType, TokenType)>,
        divider: TokenType,
        first: usize,
    ) -> (r: (Vec<BufferWindow>, usize, bool))
        requires
            old(self)@.wf(),
            first <= old(self)@.next_pos() <= old(self)@.content.len(),
        ensures
            final(self)@.wf(),
            ({
                let b = old(self)@;
                let from = b.next_pos();
                let last = if r.2 { final(self)@.cursor } else { b.content.len() - 1 };
                let points = split_points(b.content, nesting, divider, from, last + 1);
                &&& final(self)@ == (BufferView {
                    cursor: if r.2 { last } else { b.content.len() as int },
                    started: true,
                    raw: advance_raw(b.raw, b.content.subrange(from, last + 1)),
                    ..b
                })
                &&& from - 1 <= last < b.content.len()
                &&& r.2 ==> closing(b.content, nesting, from) == Some(last)
                &&& !r.2 ==> closing(b.content, nesting, from) is None
                &&& windows_view(r.0@) == closed_segments(b.content, first as int, points)
                &&& r.1 == segment_start(first as int, points)
                &&& first <= r.1 <= last + 1
            }),
    {
        let ghost b = self@;
        let ghost from: int = b.next_pos();
        let ghost mut last: int = from - 1;
        let ghost mut points: Seq<int> = Seq::empty();
        let mut nest_level: usize = 1;
        let mut seg_start: usize = first;
        let mut windows: Vec<BufferWindow> = Vec::new();
        let mut exhausted = false;
        proof {
            lemma_advance_raw_empty(b.raw, b.content, from);
            assert(windows_view(windows@) =~= closed_segments(b.content, first as int, points));
        }
        while nest_level != 0 && !exhausted
            invariant
                self@.wf(),
                b.wf(),
                self@.content == b.content,
                from == b.next_pos(),
                first <= from <= b.content.len(),
                from - 1 <= last < b.content.len(),
                !self@.started ==> from == 0 && last == -1 && !b.started && !exhausted,
                self@.started && !exhausted ==> self.cursor == last,
                exhausted ==> self.cursor == b.content.len() && last == b.content.len() - 1
                    && self@.started,
                nest_level == depth_at(b.content, nesting, from, last),
                nest_level <= last - from + 2,
                forall|k: int| from <= k < last ==> depth_at(b.content, nesting, from, k) != 0,
                exhausted ==> nest_level != 0,
                self@.raw == advance_raw(b.raw, b.content.subrange(from, last + 1)),
                points == split_points(b.content, nesting, divider, from, last + 1),
                windows_view(windows@) == closed_segments(b.content, first as int, points),
                seg_start == segment_start(first as int, points),
                first <= seg_start <= last + 1,
            decreases b.content.len() - last, if exhausted { 0int } else { 1int },
        {
            match self.next() {
                Some(item) => {
                    proof {
                        last = last + 1;
                        lemma_advance_raw_step(b.raw, b.content, from, last);
                    }
                    match nesting {
                        Some((open, close)) => {
                            if item.is_token(close) {
                                nest_level -= 1;
                            } else if item.is_token(open) {
                                nest_level += 1;
                            }
                        },
                        None => {},
                    }
                    if nest_level == 1 && item.is_token(divider) {
                        let w = self.window(seg_start..self.cursor);
                        proof {
                            lemma_closed_segments_push(b.content, first as int, points, last);
                            assert(windows_view(windows@.push(w)) =~= windows_view(windows@).push(
                                w@,
                            ));
                            points = points.push(last);
                        }
                        windows.push(w);
                        seg_start = self.cursor + 1;
                    }
                },
                None => {
                    exhausted = true;
                },
            }
        }
        proof {
            if nest_level != 0 {
                lemma_closing_none(b.content, nesting, from);
            } else {
                lemma_closing_unique(b.content, nesting, from, last);
            }
        }
        (windows, seg_start, nest_level == 0)
    }

    /// Cuts the rest of the buffer, from the cursor on, at every `divider`:
    /// one window for each segment, so one more than there are dividers.
    /// The scan runs to the end of the buffer.
    pub fn get_split(&mut self, divider: TokenType) -> (r: Result<BufferWindows, ZError>)
        requires
            old(self)@.wf(),
        ensures
            final(self)@.wf(),
            ({
                let b = old(self)@;
                let len = b.content.len() as int;
                let from = if b.next_pos() <= len { b.next_pos() } else { len };
                &&& r matches Ok(w)
                &&& w@ == (BufferWindowsView {
                    buffer_windows: segments(
                        b.content,
                        b.cursor,
                        split_points(b.content, None, divider, from, len),
                        len,
                    ),
                    start: b.cursor,
                    end: len,
                })
                &&& final(self)@ == (BufferView {
                    cursor: len,
                    started: true,
                    raw: advance_raw(b.raw, b.content.subrange(from, len)),
                    ..b
                })
            }),
    {
        let first = self.cursor;
        let end = self.content.len();
        let ghost b = self@;
        if self.started && first >= end {
            proof {
                lemma_advance_raw_empty(b.raw, b.content, end as int);
            }
            let w = self.window(end..end);
            let mut windows: Vec<BufferWindow> = Vec::new();
            windows.push(w);
            assert(windows_view(windows@) =~= segments(
                b.content,
                b.cursor,
                Seq::empty(),
                end as int,
            ));
            return Ok(BufferWindows { buffer_windows: windows, range: first..end });
        }
        proof {
            lemma_flat_scan_never_closes(b.content, b.next_pos(), b.content.len() as int - 1);
        }
        let (mut windows, seg_start, closed) = self.scan_segments(None, divider, first);
        proof {
            if closed {
                lemma_flat_scan_never_closes(b.content, b.next_pos(), self.cursor as int);
            }
        }
        let w = self.window(seg_start..end);
        proof {
            assert(windows_view(windows@.push(w)) =~= windows_view(windows@).push(w@));
        }
        windows.push(w);
        Ok(BufferWindows { buffer_windows: windows, range: first..end })
    }

    /// Scans like `get_between`, from behind the cursor, which stands on an
    /// opener that was already consumed (a buffer that has not been started
    /// counts as standing on its first item), to the item that closes it, and cuts
    /// what lies between them at every `divider` at the top level: one window
    /// for each segment. The range covers opener and closer. Where the input
    /// ends before the closer, this is an unterminated-bracket error.
    pub fn get_split_between(
        &mut self,
        start_token: TokenType,
        end_token: TokenType,
        divider: TokenType,
    ) -> (r: Result<BufferWindows, ZError>)
        requires
            old(self)@.wf(),
        ensures
            final(self)@.wf(),
            old(self)@.cursor <= final(self)@.cursor <= old(self)@.content.len(),
            ({
                let b = BufferView { started: true, ..old(self)@ };
                let nesting = Some((start_token, end_token));
                let from = b.cursor + 1;
                match r {
                    Ok(w) => {
                        &&& closing(b.content, nesting, from) matches Some(c)
                        &&& w@ == (BufferWindowsView {
                            buffer_windows: segments(
                                b.content,
                                from,
                                split_points(b.content, nesting, divider, from, c),
                                c,
                            ),
                            start: b.cursor,
                            end: c + 1,
                        })
                        &&& final(self)@ == (BufferView {
                            cursor: c,
                            raw: advance_raw(b.raw, b.content.subrange(from, c + 1)),
                            ..b
                        })
                    },
                    Err(e) => {
                        &&& closing(b.content, nesting, from) is None
                        &&& e@ == unterminated(b.content, b.cursor)
                        &&& final(self)@ == (BufferView {
                            cursor: b.content.len() as int,
                            raw: advance_raw(b.raw, rest_from(b.content, from)),
                            ..b
                        })
                    },
                }
            }),
    {
        self.started = true;
        let bet_start = self.cursor;
        let ghost b = self@;
        let ghost nesting = Some((start_token, end_token));
        if bet_start >= self.content.len() {
            proof {
                lemma_closing_none(b.content, nesting, b.cursor + 1);
                lemma_advance_raw_nothing(b.raw);
            }
            return Err(
                ZError::parse(ParseErrorKind::UnterminatedBracket, String::new(), None),
            );
        }
        let (mut windows, seg_start, closed) = self.scan_segments(
            Some((start_token, end_token)),
            divider,
            bet_start + 1,
        );
        if !closed {
            let opener = &self.content[bet_start];
            assert(opener@ == b.content[bet_start as int]);
            return Err(
                ZError::parse(
                    ParseErrorKind::UnterminatedBracket,
                    opener.raw().clone(),
                    opener.span(),
                ),
            );
        }
        proof {
            let c = self.cursor as int;
            assert(!divides_at(b.content, nesting, divider, b.cursor + 1, c));
            lemma_split_points_bounds(b.content, nesting, divider, b.cursor + 1, c);
        }
        let w = self.window(seg_start..self.cursor);
        proof {
            assert(windows_view(windows@.push(w)) =~= windows_view(windows@).push(w@));
        }
        windows.push(w);
        Ok(BufferWindows { buffer_windows: windows, range: bet_start..self.cursor + 1 })
    }

    /// Replaces the items in the window's range by the window's items and puts
    /// the cursor just behind the replacement, so that a scan that goes on from
    /// there does not come back to what was spliced in.
    pub fn splice_buffer(&mut self, buffer: BufferWindow)
        requires
            buffer@.start <= buffer@.end <= old(self)@.content.len(),
            old(self)@.content.len() - (buffer@.end - buffer@.start) + buffer@.slice.len()
                < usize::MAX,
        ensures
            final(self)@ == old(self)@.spliced(buffer@.start, buffer@.end, buffer@.slice),
            old(self)@.started ==> final(self)@.wf(),
    {
        let mut slice = buffer.slice;
        let mut tail = self.content.split_off(buffer.range.end);
        self.content.truncate(buffer.range.start);
        self.cursor = buffer.range.start + slice.len();
        self.content.append(&mut slice);
        self.content.append(&mut tail);
        assert(items_view(self.content@) =~= old(self)@.spliced(
            buffer@.start,
            buffer@.end,
            buffer@.slice,
        ).content);
    }
}

/// The error for input that ends where another item was expected: it carries
/// the text and the place of the last item.
pub open spec fn unexpected_end(content: Seq<ItemView>) -> ZErrorView {
    if content.len() == 0 {
        ZErrorView::Parse { kind: ParseErrorKind::UnexpectedEnd, raw: Seq::empty(), span: None }
    } else {
        ZErrorView::Parse {
            kind: ParseErrorKind::UnexpectedEnd,
            raw: content.last().raw(),
            span: item_span(content.last()),
        }
    }
}

/// Where an item stands in the source, as far as that is known.
pub open spec fn item_span(item: ItemView) -> Option<Span> {
    match item {
        ItemView::Node(e) => span_of(e.node),
        ItemView::Token(t) => Some(t.span),
    }
}

impl BufferWindow {
    /// A fresh buffer over a copy of the window's items.
    pub fn as_buffer(&self) -> (r: Buffer)
        requires
            self@.slice.len() < usize::MAX,
        ensures
            r@.wf(),
            r@ == (BufferView { content: self@.slice, cursor: 0, started: false, raw: None }),
    {
        let content = duplicate_items(&self.slice, 0, self.slice.len());
        assert(items_view(self.slice@).subrange(0, self.slice@.len() as int) =~= items_view(
            self.slice@,
        ));
        Buffer { content, cursor: 0, started: false, raw: None }
    }

    /// Takes the content of `buffer` as the window's new items; the range stays.
    pub fn take_buffer(&mut self, buffer: Buffer)
        ensures
            final(self)@ == (BufferWindowView { slice: buffer@.content, ..old(self)@ }),
    {
        self.slice = buffer.content;
    }
}

} // verus!
