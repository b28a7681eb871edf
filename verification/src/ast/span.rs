//! The span of a node: the union of the spans of its parts, never made up.
use vstd::prelude::*;
use crate::ast::{Ast, AstView};
use crate::ast::argument::{Argument, ArgumentView};
use crate::ast::assign::Assign;
use crate::ast::binary_opr::BinaryOpr;
use crate::ast::block::{Block, BlockView};
use crate::ast::call::Call;
use crate::ast::class::Class;
use crate::ast::control::{Defer, Return};
use crate::ast::declare::Declare;
use crate::ast::delete::Delete;
use crate::ast::ident::{Ident, IdentView};
use crate::ast::literal::Literal;
use crate::ast::member::Member;
use crate::ast::procedure::Procedure;
use crate::ast::unary_opr::UnaryOpr;
use crate::ast::view::{arguments_view, asts_view};
use crate::types::position::{lemma_merge_spans_is_union, merge, merge_span, merge_spans, span_covers, Span};
use crate::types::token::Flag;

verus! {

/// The union of `acc` and the spans in `s`, taken left to right.
pub open spec fn merge_onto(acc: Option<Span>, s: Seq<Option<Span>>) -> Option<Span>
    decreases s.len(),
{
    if s.len() == 0 {
        acc
    } else {
        merge_span(merge_onto(acc, s.drop_last()), s.last())
    }
}

pub open spec fn first_of(p: Option<(Span, Span)>) -> Option<Span> {
    match p {
        Some(p) => Some(p.0),
        None => None,
    }
}

pub open spec fn second_of(p: Option<(Span, Span)>) -> Option<Span> {
    match p {
        Some(p) => Some(p.1),
        None => None,
    }
}

pub open spec fn flag_spans(s: Seq<(Flag, Span)>) -> Seq<Option<Span>> {
    Seq::new(s.len(), |i: int| Some(s[i].1))
}

pub open spec fn ident_spans(s: Seq<IdentView>) -> Seq<Option<Span>> {
    Seq::new(s.len(), |i: int| s[i].name_span)
}

/// The spans of a run of nodes.
pub open spec fn spans_of(s: Seq<AstView>) -> Seq<Option<Span>>
    decreases s, 1int,
{
    Seq::new(s.len(), |i: int| if 0 <= i < s.len() { span_of(s[i]) } else { None })
}

pub open spec fn opt_span_of(a: Option<Box<AstView>>) -> Option<Span>
    decreases a, 1int,
{
    match a {
        Some(b) => span_of(*b),
        None => None,
    }
}

pub open spec fn argument_span(a: ArgumentView) -> Option<Span>
    decreases a, 1int,
{
    merge_span(merge_span(a.name.name_span, span_of(*a.ty)), opt_span_of(a.default))
}

pub open spec fn argument_spans(s: Seq<ArgumentView>) -> Seq<Option<Span>>
    decreases s, 2int,
{
    Seq::new(s.len(), |i: int| if 0 <= i < s.len() { argument_span(s[i]) } else { None })
}

pub open spec fn block_span(b: BlockView) -> Option<Span>
    decreases b, 2int,
{
    merge_span(merge_onto(first_of(b.brace_spans), spans_of(b.content)), second_of(b.brace_spans))
}

/// The spans of the parts of a node: those of its own keywords and
/// delimiters, and those of its children.
pub open spec fn part_spans(a: AstView) -> Seq<Option<Span>>
    decreases a, 3int,
{
    match a {
        AstView::Literal(n) => seq![n.span],
        AstView::Ident(n) => seq![n.name_span],
        AstView::BinaryOpr(n) => seq![span_of(*n.operand1), n.opr_span, span_of(*n.operand2)],
        AstView::Block(n) => (seq![first_of(n.brace_spans)] + spans_of(n.content)).push(
            second_of(n.brace_spans),
        ),
        AstView::Declare(n) => flag_spans(n.flags) + seq![
            span_of(*n.variable),
            opt_span_of(n.ty),
            n.eq_span,
            span_of(*n.content),
        ],
        AstView::Assign(n) => seq![span_of(*n.variable), n.eq_span, span_of(*n.content)],
        AstView::Delete(n) => seq![n.kwd_span] + ident_spans(n.names),
        AstView::Class(n) => (match n.args {
            Some(args) => argument_spans(args),
            None => Seq::empty(),
        }).push(
            match n.content {
                Some(b) => block_span(b),
                None => None,
            },
        ),
        AstView::Call(n) => (seq![span_of(*n.called), first_of(n.paren_spans)] + spans_of(
            n.args,
        )).push(second_of(n.paren_spans)),
        AstView::Member(n) => seq![span_of(*n.parent), n.dot_span, n.name_span],
        AstView::Procedure(n) => (seq![n.kwd_span] + argument_spans(n.args)).push(
            opt_span_of(n.return_type),
        ).push(block_span(n.content)),
        AstView::Return(n) => seq![n.kwd_span, span_of(*n.value)],
        AstView::Defer(n) => seq![n.kwd_span, span_of(*n.content)],
        AstView::UnaryOpr(n) => seq![n.opr_span, span_of(*n.operand)],
    }
}

/// The span of a node: the union of the spans of its parts.
pub open spec fn span_of(a: AstView) -> Option<Span>
    decreases a, 4int,
{
    merge_spans(part_spans(a))
}

pub proof fn lemma_merge_spans_push(s: Seq<Option<Span>>, x: Option<Span>)
    ensures
        merge_spans(s.push(x)) == merge_span(merge_spans(s), x),
{
    assert(s.push(x).drop_last() =~= s);
}

pub proof fn lemma_merge_spans_concat(a: Seq<Option<Span>>, b: Seq<Option<Span>>)
    ensures
        merge_spans(a + b) == merge_onto(merge_spans(a), b),
    decreases b.len(),
{
    if b.len() == 0 {
        assert(a + b =~= a);
    } else {
        lemma_merge_spans_concat(a, b.drop_last());
        assert((a + b).drop_last() =~= a + b.drop_last());
    }
}

pub proof fn lemma_merge_spans_small(x: Option<Span>, y: Option<Span>, z: Option<Span>)
    ensures
        merge_spans(Seq::empty()) == None::<Span>,
        merge_spans(seq![x]) == x,
        merge_spans(seq![x, y]) == merge_span(x, y),
        merge_spans(seq![x, y, z]) == merge_span(merge_span(x, y), z),
{
    lemma_merge_spans_push(Seq::empty(), x);
    assert(Seq::<Option<Span>>::empty().push(x) =~= seq![x]);
    lemma_merge_spans_push(seq![x], y);
    assert(seq![x].push(y) =~= seq![x, y]);
    lemma_merge_spans_push(seq![x, y], z);
    assert(seq![x, y].push(z) =~= seq![x, y, z]);
}

/// The span of a block, which is also its span as a node.
pub proof fn lemma_block_span(b: BlockView)
    ensures
        span_of(AstView::Block(b)) == block_span(b),
{
    let first = seq![first_of(b.brace_spans)];
    lemma_merge_spans_push(first + spans_of(b.content), second_of(b.brace_spans));
    lemma_merge_spans_concat(first, spans_of(b.content));
    lemma_merge_spans_small(first_of(b.brace_spans), None, None);
}

/// The span of a node is the union of the spans of its parts: it is absent
/// exactly when every part is without a span; otherwise it covers every part
/// that has one, and each of its two ends is an end of some part.
pub proof fn lemma_span_is_union_of_parts(a: AstView)
    ensures
        span_of(a) is None <==> (forall|i: int|
            0 <= i < part_spans(a).len() ==> part_spans(a)[i] is None),
        span_of(a) matches Some(u) ==> {
            &&& forall|i: int|
                0 <= i < part_spans(a).len() && part_spans(a)[i] is Some ==> span_covers(
                    u,
                    #[trigger] part_spans(a)[i]->0,
                )
            &&& exists|i: int|
                0 <= i < part_spans(a).len() && part_spans(a)[i] is Some && (#[trigger] part_spans(
                    a,
                )[i]->0).start == u.start
            &&& exists|i: int|
                0 <= i < part_spans(a).len() && part_spans(a)[i] is Some && (#[trigger] part_spans(
                    a,
                )[i]->0).end == u.end
        },
{
    lemma_merge_spans_is_union(part_spans(a));
}

/// The union of `acc` and the spans of the nodes in `v`.
#[verifier::loop_isolation(false)]
pub fn merge_asts(acc: Option<Span>, v: &Vec<Ast>) -> (r: Option<Span>)
    ensures
        r == merge_onto(acc, spans_of(asts_view(v@))),
    decreases v,
{
    let mut out = acc;
    let mut i: usize = 0;
    let ghost spans = spans_of(asts_view(v@));
    while i < v.len()
        invariant
            i <= v.len(),
            out == merge_onto(acc, spans.take(i as int)),
        decreases v.len() - i,
    {
        let s = v[i].span();
        out = merge(out, s);
        assert(spans.take(i as int + 1).drop_last() =~= spans.take(i as int));
        i += 1;
    }
    assert(spans.take(i as int) =~= spans);
    out
}

/// The union of `acc` and the spans of the arguments in `v`.
#[verifier::loop_isolation(false)]
pub fn merge_arguments(acc: Option<Span>, v: &Vec<Argument>) -> (r: Option<Span>)
    ensures
        r == merge_onto(acc, argument_spans(arguments_view(v@))),
    decreases v,
{
    let mut out = acc;
    let mut i: usize = 0;
    let ghost spans = argument_spans(arguments_view(v@));
    while i < v.len()
        invariant
            i <= v.len(),
            out == merge_onto(acc, spans.take(i as int)),
        decreases v.len() - i,
    {
        let s = v[i].span();
        out = merge(out, s);
        assert(spans.take(i as int + 1).drop_last() =~= spans.take(i as int));
        i += 1;
    }
    assert(spans.take(i as int) =~= spans);
    out
}

pub fn opt_span(a: &Option<Box<Ast>>) -> (r: Option<Span>)
    ensures
        r == opt_span_of(crate::ast::view::opt_ast_view(*a)),
    decreases a,
{
    match a {
        Some(b) => b.span(),
        None => None,
    }
}

pub fn first(p: &Option<(Span, Span)>) -> (r: Option<Span>)
    ensures
        r == first_of(*p),
{
    match p {
        Some(p) => Some(p.0),
        None => None,
    }
}

pub fn second(p: &Option<(Span, Span)>) -> (r: Option<Span>)
    ensures
        r == second_of(*p),
{
    match p {
        Some(p) => Some(p.1),
        None => None,
    }
}

impl Argument {
    /// The union of the spans of the name, the type and the default.
    pub fn span(&self) -> (r: Option<Span>)
        ensures
            r == argument_span(self@),
        decreases self,
    {
        merge(merge(self.name.name_span, self.ty.span()), opt_span(&self.default))
    }
}

impl Ast {
    /// Where the node stands in the source: the union of the spans of its parts.
    pub fn span(&self) -> (r: Option<Span>)
        ensures
            r == span_of(self@),
        decreases self,
    {
        match self {
            Ast::Literal(n) => n.span(),
            Ast::Ident(n) => n.span(),
            Ast::BinaryOpr(n) => n.span(),
            Ast::Block(n) => n.span(),
            Ast::Declare(n) => n.span(),
            Ast::Assign(n) => n.span(),
            Ast::Delete(n) => n.span(),
            Ast::Class(n) => n.span(),
            Ast::Call(n) => n.span(),
            Ast::Member(n) => n.span(),
            Ast::Procedure(n) => n.span(),
            Ast::Return(n) => n.span(),
            Ast::Defer(n) => n.span(),
            Ast::UnaryOpr(n) => n.span(),
        }
    }
}

impl Literal {
    pub fn span(&self) -> (r: Option<Span>)
        ensures
            r == span_of(AstView::Literal(self@)),
    {
        proof {
            lemma_merge_spans_small(self.span, None, None);
        }
        self.span
    }
}

impl Ident {
    pub fn span(&self) -> (r: Option<Span>)
        ensures
            r == span_of(AstView::Ident(self@)),
    {
        proof {
            lemma_merge_spans_small(self.name_span, None, None);
        }
        self.name_span
    }
}

impl BinaryOpr {
    /// The union of the spans of the two operands and of the operator.
    pub fn span(&self) -> (r: Option<Span>)
        ensures
            r == span_of(AstView::BinaryOpr(self@)),
        decreases self,
    {
        let a = self.operand1.span();
        let b = self.operand2.span();
        proof {
            lemma_merge_spans_small(a, self.opr_span, b);
        }
        merge(merge(a, self.opr_span), b)
    }
}

impl Block {
    /// The union of the spans of the braces and of the statements.
    pub fn span(&self) -> (r: Option<Span>)
        ensures
            r == span_of(AstView::Block(self@)),
            r == block_span(self@),
        decreases self,
    {
        proof {
            lemma_block_span(self@);
        }
        merge(merge_asts(first(&self.brace_spans), &self.content), second(&self.brace_spans))
    }
}

impl Declare {
    pub fn span(&self) -> (r: Option<Span>)
        ensures
            r == span_of(AstView::Declare(self@)),
        decreases self,
    {
        let mut out: Option<Span> = None;
        let mut i: usize = 0;
        let ghost spans = flag_spans(self.flags@);
        while i < self.flags.len()
            invariant
                i <= self.flags.len(),
                spans == flag_spans(self.flags@),
                out == merge_spans(spans.take(i as int)),
            decreases self.flags.len() - i,
        {
            out = merge(out, Some(self.flags[i].1));
            assert(spans.take(i as int + 1).drop_last() =~= spans.take(i as int));
            i += 1;
        }
        assert(spans.take(i as int) =~= spans);
        let v = self.variable.span();
        let t = opt_span(&self.ty);
        let c = self.content.span();
        proof {
            let s1 = spans.push(v);
            let s2 = s1.push(t);
            let s3 = s2.push(self.eq_span);
            let s4 = s3.push(c);
            lemma_merge_spans_push(spans, v);
            lemma_merge_spans_push(s1, t);
            lemma_merge_spans_push(s2, self.eq_span);
            lemma_merge_spans_push(s3, c);
            assert(s4 =~= spans + seq![v, t, self.eq_span, c]);
        }
        merge(merge(merge(merge(out, v), t), self.eq_span), c)
    }
}

impl Assign {
    pub fn span(&self) -> (r: Option<Span>)
        ensures
            r == span_of(AstView::Assign(self@)),
        decreases self,
    {
        let a = self.variable.span();
        let b = self.content.span();
        proof {
            lemma_merge_spans_small(a, self.eq_span, b);
        }
        merge(merge(a, self.eq_span), b)
    }
}

impl Delete {
    /// The union of the spans of the keyword and of the names.
    pub fn span(&self) -> (r: Option<Span>)
        ensures
            r == span_of(AstView::Delete(self@)),
    {
        let mut out: Option<Span> = self.kwd_span;
        let mut i: usize = 0;
        let ghost spans = ident_spans(self@.names);
        while i < self.names.len()
            invariant
                i <= self.names.len(),
                spans == ident_spans(self@.names),
                out == merge_onto(self.kwd_span, spans.take(i as int)),
            decreases self.names.len() - i,
        {
            out = merge(out, self.names[i].name_span);
            assert(spans.take(i as int + 1).drop_last() =~= spans.take(i as int));
            i += 1;
        }
        proof {
            assert(spans.take(i as int) =~= spans);
            lemma_merge_spans_concat(seq![self.kwd_span], spans);
            lemma_merge_spans_small(self.kwd_span, None, None);
        }
        out
    }
}

impl Class {
    /// The union of the spans of the constructor arguments and of the body.
    pub fn span(&self) -> (r: Option<Span>)
        ensures
            r == span_of(AstView::Class(self@)),
        decreases self,
    {
        let args = match &self.args {
            Some(a) => {
                proof {
                    lemma_merge_spans_concat(Seq::empty(), argument_spans(arguments_view(a@)));
                    assert(Seq::<Option<Span>>::empty() + argument_spans(arguments_view(a@))
                        =~= argument_spans(arguments_view(a@)));
                }
                merge_arguments(None, a)
            },
            None => None,
        };
        let content = match &self.content {
            Some(b) => b.span(),
            None => None,
        };
        proof {
            let a = match self@.args {
                Some(args) => argument_spans(args),
                None => Seq::empty(),
            };
            lemma_merge_spans_push(a, content);
        }
        merge(args, content)
    }
}

impl Call {
    pub fn span(&self) -> (r: Option<Span>)
        ensures
            r == span_of(AstView::Call(self@)),
        decreases self,
    {
        let c = self.called.span();
        let open = first(&self.paren_spans);
        proof {
            let head = seq![c, open];
            lemma_merge_spans_push(head + spans_of(self@.args), second_of(self.paren_spans));
            lemma_merge_spans_concat(head, spans_of(self@.args));
            lemma_merge_spans_small(c, open, None);
        }
        merge(merge_asts(merge(c, open), &self.args), second(&self.paren_spans))
    }
}

impl Member {
    pub fn span(&self) -> (r: Option<Span>)
        ensures
            r == span_of(AstView::Member(self@)),
        decreases self,
    {
        let p = self.parent.span();
        proof {
            lemma_merge_spans_small(p, self.dot_span, self.name_span);
        }
        merge(merge(p, self.dot_span), self.name_span)
    }
}

impl Procedure {
    pub fn span(&self) -> (r: Option<Span>)
        ensures
            r == span_of(AstView::Procedure(self@)),
        decreases self,
    {
        let rt = opt_span(&self.return_type);
        let body = self.content.span();
        proof {
            let head = seq![self.kwd_span];
            let with_args = head + argument_spans(self@.args);
            lemma_merge_spans_push(with_args.push(rt), body);
            lemma_merge_spans_push(with_args, rt);
            lemma_merge_spans_concat(head, argument_spans(self@.args));
            lemma_merge_spans_small(self.kwd_span, None, None);
        }
        merge(merge(merge_arguments(self.kwd_span, &self.args), rt), body)
    }
}

impl Return {
    pub fn span(&self) -> (r: Option<Span>)
        ensures
            r == span_of(AstView::Return(self@)),
        decreases self,
    {
        let v = self.value.span();
        proof {
            lemma_merge_spans_small(self.kwd_span, v, None);
        }
        merge(self.kwd_span, v)
    }
}

impl UnaryOpr {
    /// The union of the spans of the operator and of the operand.
    pub fn span(&self) -> (r: Option<Span>)
        ensures
            r == span_of(AstView::UnaryOpr(self@)),
        decreases self,
    {
        let v = self.operand.span();
        proof {
            lemma_merge_spans_small(self.opr_span, v, None);
        }
        merge(self.opr_span, v)
    }
}

impl Defer {
    pub fn span(&self) -> (r: Option<Span>)
        ensures
            r == span_of(AstView::Defer(self@)),
        decreases self,
    {
        let v = self.content.span();
        proof {
            lemma_merge_spans_small(self.kwd_span, v, None);
        }
        merge(self.kwd_span, v)
    }
}

} // verus!
