//! Desugaring: the rewriting of a tree into the core language.
//!
//! `&&` and `||` keep their node and have each operand cast to `bool`; a
//! typecast keeps its node; every other binary operator becomes a call of
//! the method that the type of its first operand registers for it.
//! Desugaring a tree that is already desugared changes nothing.
use vstd::prelude::*;
use crate::ast::{Ast, AstView};
use crate::ast::argument::{Argument, ArgumentView};
use crate::ast::assign::{Assign, AssignView};
use crate::ast::binary_opr::{BinaryOpr, BinaryOprView};
use crate::ast::block::{Block, BlockView};
use crate::ast::call::{Call, CallView};
use crate::ast::class::{Class, ClassView};
use crate::ast::control::{Defer, DeferView, Return, ReturnView};
use crate::ast::declare::{Declare, DeclareView};
use crate::ast::literal::{Literal, LiteralView};
use crate::ast::member::{Member, MemberView};
use crate::ast::procedure::{Procedure, ProcedureView};
use crate::ast::view::{argument_view, arguments_view, ast_view, asts_view, named_asts_view, opt_ast_view};
use crate::errors::ZError;
use crate::primitives::{op_name, prim_type};
use crate::types::position::Span;
use crate::ast::unary_opr::{UnaryOpr, UnaryOprView};
use crate::types::token::{AccessType, OprType, UnaryOprType};
use crate::types::value::{BuiltinOp, Prim, Value, ValueView};

verus! {

/// The literal that names the type `bool`.
pub open spec fn bool_literal() -> AstView {
    AstView::Literal(
        LiteralView { span: None, content: ValueView::Type(prim_type(Prim::Bool)) },
    )
}

/// Whether `a` is a cast to `bool`.
pub open spec fn is_bool_cast(a: AstView) -> bool {
    a matches AstView::BinaryOpr(b) && b.ty == OprType::TypeCast && *b.operand2 == bool_literal()
}

/// `a` as a boolean: `a` itself where it is a cast to `bool` already, else a cast of it.
pub open spec fn as_bool(a: AstView, opr_span: Option<Span>) -> AstView {
    if is_bool_cast(a) {
        a
    } else {
        AstView::BinaryOpr(
            BinaryOprView {
                ty: OprType::TypeCast,
                opr_span,
                operand1: Box::new(a),
                operand2: Box::new(bool_literal()),
            },
        )
    }
}

/// The operation that stands behind an operator, for the operators that
/// become method calls.
pub open spec fn operator_method(op: OprType) -> Option<BuiltinOp> {
    match op {
        OprType::Add => Some(BuiltinOp::Add),
        OprType::Sub => Some(BuiltinOp::Sub),
        OprType::Mul => Some(BuiltinOp::Mul),
        OprType::Div => Some(BuiltinOp::Div),
        OprType::Mod => Some(BuiltinOp::Rem),
        OprType::Eq => Some(BuiltinOp::Eq),
        OprType::Ne => Some(BuiltinOp::Ne),
        OprType::Lt => Some(BuiltinOp::Lt),
        OprType::Le => Some(BuiltinOp::Le),
        OprType::Gt => Some(BuiltinOp::Gt),
        OprType::Ge => Some(BuiltinOp::Ge),
        OprType::Concat => Some(BuiltinOp::Concat),
        OprType::And | OprType::Or | OprType::TypeCast => None,
    }
}

/// `parent.method(arg)`, without any span of its own.
pub open spec fn method_call(method: BuiltinOp, parent: AstView, arg: AstView) -> AstView {
    AstView::Call(
        CallView {
            called: Box::new(
                AstView::Member(
                    MemberView {
                        ty: AccessType::Method,
                        name: op_name(method),
                        parent: Box::new(parent),
                        name_span: None,
                        dot_span: None,
                    },
                ),
            ),
            paren_spans: None,
            args: seq![arg],
        },
    )
}

/// The operation that stands behind a unary operator.
pub open spec fn unary_method(op: UnaryOprType) -> BuiltinOp {
    match op {
        UnaryOprType::Not => BuiltinOp::Not,
        UnaryOprType::UnPlus => BuiltinOp::UnPlus,
        UnaryOprType::UnMinus => BuiltinOp::UnMinus,
    }
}

/// `parent.method()`, without any span of its own.
pub open spec fn unary_call(method: BuiltinOp, parent: AstView) -> AstView {
    AstView::Call(
        CallView {
            called: Box::new(
                AstView::Member(
                    MemberView {
                        ty: AccessType::Method,
                        name: op_name(method),
                        parent: Box::new(parent),
                        name_span: None,
                        dot_span: None,
                    },
                ),
            ),
            paren_spans: None,
            args: Seq::empty(),
        },
    )
}

pub open spec fn desugared_seq(s: Seq<AstView>) -> Seq<AstView>
    decreases s,
{
    Seq::new(s.len(), |i: int| if 0 <= i < s.len() { desugared(s[i]) } else { arbitrary() })
}

pub open spec fn desugared_opt(a: Option<Box<AstView>>) -> Option<Box<AstView>>
    decreases a,
{
    match a {
        Some(b) => Some(Box::new(desugared(*b))),
        None => None,
    }
}

pub open spec fn desugared_named(s: Seq<(Seq<char>, AstView)>) -> Seq<(Seq<char>, AstView)>
    decreases s,
{
    Seq::new(
        s.len(),
        |i: int| if 0 <= i < s.len() { (s[i].0, desugared(s[i].1)) } else { arbitrary() },
    )
}

pub open spec fn desugared_argument(a: ArgumentView) -> ArgumentView
    decreases a,
{
    ArgumentView { name: a.name, ty: Box::new(desugared(*a.ty)), default: desugared_opt(a.default) }
}

pub open spec fn desugared_arguments(s: Seq<ArgumentView>) -> Seq<ArgumentView>
    decreases s,
{
    Seq::new(
        s.len(),
        |i: int| if 0 <= i < s.len() { desugared_argument(s[i]) } else { arbitrary() },
    )
}

pub open spec fn desugared_block(b: BlockView) -> BlockView
    decreases b,
{
    BlockView { brace_spans: b.brace_spans, content: desugared_seq(b.content) }
}

pub open spec fn desugared_binary(n: BinaryOprView) -> AstView
    decreases n,
{
    match operator_method(n.ty) {
        Some(method) => method_call(method, desugared(*n.operand1), desugared(*n.operand2)),
        None => if n.ty == OprType::TypeCast {
            AstView::BinaryOpr(
                BinaryOprView {
                    ty: n.ty,
                    opr_span: n.opr_span,
                    operand1: Box::new(desugared(*n.operand1)),
                    operand2: Box::new(desugared(*n.operand2)),
                },
            )
        } else {
            AstView::BinaryOpr(
                BinaryOprView {
                    ty: n.ty,
                    opr_span: n.opr_span,
                    operand1: Box::new(as_bool(desugared(*n.operand1), n.opr_span)),
                    operand2: Box::new(as_bool(desugared(*n.operand2), n.opr_span)),
                },
            )
        },
    }
}

pub open spec fn desugared_class(n: ClassView) -> ClassView
    decreases n,
{
    ClassView {
        is_struct: n.is_struct,
        implementations: desugared_named(n.implementations),
        inst_fields: desugared_arguments(n.inst_fields),
        content: match n.content {
            Some(b) => Some(desugared_block(b)),
            None => None,
        },
        args: match n.args {
            Some(a) => Some(desugared_arguments(a)),
            None => None,
        },
    }
}

/// The tree in the core language.
pub open spec fn desugared(a: AstView) -> AstView
    decreases a,
{
    match a {
        AstView::Literal(_) => a,
        AstView::Ident(_) => a,
        AstView::BinaryOpr(n) => desugared_binary(n),
        AstView::Block(n) => AstView::Block(desugared_block(n)),
        AstView::Declare(n) => AstView::Declare(
            DeclareView {
                variable: Box::new(desugared(*n.variable)),
                content: Box::new(desugared(*n.content)),
                flags: n.flags,
                ty: desugared_opt(n.ty),
                eq_span: n.eq_span,
            },
        ),
        AstView::Assign(n) => AstView::Assign(
            AssignView {
                variable: Box::new(desugared(*n.variable)),
                eq_span: n.eq_span,
                content: Box::new(desugared(*n.content)),
            },
        ),
        AstView::Delete(_) => a,
        AstView::Class(n) => AstView::Class(desugared_class(n)),
        AstView::Call(n) => AstView::Call(
            CallView {
                called: Box::new(desugared(*n.called)),
                paren_spans: n.paren_spans,
                args: desugared_seq(n.args),
            },
        ),
        AstView::Member(n) => AstView::Member(
            MemberView { parent: Box::new(desugared(*n.parent)), ..n },
        ),
        AstView::Procedure(n) => AstView::Procedure(
            ProcedureView {
                is_fn: n.is_fn,
                kwd_span: n.kwd_span,
                args: desugared_arguments(n.args),
                return_type: desugared_opt(n.return_type),
                content: desugared_block(n.content),
            },
        ),
        AstView::Return(n) => AstView::Return(
            ReturnView { kwd_span: n.kwd_span, value: Box::new(desugared(*n.value)) },
        ),
        AstView::Defer(n) => AstView::Defer(
            DeferView { kwd_span: n.kwd_span, content: Box::new(desugared(*n.content)) },
        ),
        AstView::UnaryOpr(n) => unary_call(unary_method(n.ty), desugared(*n.operand)),
    }
}

proof fn lemma_idempotent_opt(a: Option<Box<AstView>>)
    ensures
        desugared_opt(desugared_opt(a)) == desugared_opt(a),
    decreases a,
{
    match a {
        Some(b) => {
            lemma_desugared_idempotent(*b);
        },
        None => {},
    }
}

proof fn lemma_idempotent_seq(s: Seq<AstView>)
    ensures
        desugared_seq(desugared_seq(s)) == desugared_seq(s),
    decreases s,
{
    assert forall|i: int| 0 <= i < s.len() implies desugared(#[trigger] desugared_seq(s)[i])
        == desugared_seq(s)[i] by {
        lemma_desugared_idempotent(s[i]);
    }
    assert(desugared_seq(desugared_seq(s)) =~= desugared_seq(s));
}

proof fn lemma_idempotent_named(s: Seq<(Seq<char>, AstView)>)
    ensures
        desugared_named(desugared_named(s)) == desugared_named(s),
    decreases s,
{
    assert forall|i: int| 0 <= i < s.len() implies desugared(
        (#[trigger] desugared_named(s)[i]).1,
    ) == desugared_named(s)[i].1 by {
        lemma_desugared_idempotent(s[i].1);
    }
    assert(desugared_named(desugared_named(s)) =~= desugared_named(s));
}

proof fn lemma_idempotent_argument(a: ArgumentView)
    ensures
        desugared_argument(desugared_argument(a)) == desugared_argument(a),
    decreases a,
{
    lemma_desugared_idempotent(*a.ty);
    lemma_idempotent_opt(a.default);
}

proof fn lemma_idempotent_arguments(s: Seq<ArgumentView>)
    ensures
        desugared_arguments(desugared_arguments(s)) == desugared_arguments(s),
    decreases s,
{
    assert forall|i: int| 0 <= i < s.len() implies desugared_argument(
        #[trigger] desugared_arguments(s)[i],
    ) == desugared_arguments(s)[i] by {
        lemma_idempotent_argument(s[i]);
    }
    assert(desugared_arguments(desugared_arguments(s)) =~= desugared_arguments(s));
}

proof fn lemma_idempotent_block(b: BlockView)
    ensures
        desugared_block(desugared_block(b)) == desugared_block(b),
    decreases b,
{
    lemma_idempotent_seq(b.content);
}

/// Casting to `bool` what is already desugared gives a tree that desugaring
/// leaves alone, and that is a cast to `bool`.
proof fn lemma_as_bool_stable(a: AstView, opr_span: Option<Span>)
    requires
        desugared(a) == a,
    ensures
        desugared(as_bool(a, opr_span)) == as_bool(a, opr_span),
        is_bool_cast(as_bool(a, opr_span)),
{
    reveal_with_fuel(desugared, 3);
    assert(desugared(bool_literal()) == bool_literal());
    if !is_bool_cast(a) {
        let cast = BinaryOprView {
            ty: OprType::TypeCast,
            opr_span,
            operand1: Box::new(a),
            operand2: Box::new(bool_literal()),
        };
        assert(as_bool(a, opr_span) == AstView::BinaryOpr(cast));
        assert(operator_method(OprType::TypeCast) is None);
        assert(desugared_binary(cast) == AstView::BinaryOpr(cast));
    }
}

proof fn lemma_idempotent_binary(n: BinaryOprView)
    ensures
        desugared(desugared_binary(n)) == desugared_binary(n),
    decreases n,
{
    lemma_desugared_idempotent(*n.operand1);
    lemma_desugared_idempotent(*n.operand2);
    let x = desugared(*n.operand1);
    let y = desugared(*n.operand2);
    match operator_method(n.ty) {
        Some(method) => {
            reveal_with_fuel(desugared, 3);
            assert(desugared_seq(seq![y]) =~= seq![y]);
        },
        None => {
            if n.ty != OprType::TypeCast {
                lemma_as_bool_stable(x, n.opr_span);
                lemma_as_bool_stable(y, n.opr_span);
                let bx = as_bool(x, n.opr_span);
                let by = as_bool(y, n.opr_span);
                let m = BinaryOprView {
                    ty: n.ty,
                    opr_span: n.opr_span,
                    operand1: Box::new(bx),
                    operand2: Box::new(by),
                };
                assert(desugared_binary(n) == AstView::BinaryOpr(m));
                assert(desugared(AstView::BinaryOpr(m)) == desugared_binary(m));
                assert(as_bool(desugared(bx), n.opr_span) == bx);
                assert(as_bool(desugared(by), n.opr_span) == by);
            } else {
                let m = BinaryOprView {
                    ty: n.ty,
                    opr_span: n.opr_span,
                    operand1: Box::new(x),
                    operand2: Box::new(y),
                };
                assert(desugared_binary(n) == AstView::BinaryOpr(m));
                assert(desugared(AstView::BinaryOpr(m)) == desugared_binary(m));
            }
        },
    }
}

proof fn lemma_idempotent_class(n: ClassView)
    ensures
        desugared_class(desugared_class(n)) == desugared_class(n),
    decreases n,
{
    lemma_idempotent_named(n.implementations);
    lemma_idempotent_arguments(n.inst_fields);
    match n.content {
        Some(b) => {
            lemma_idempotent_block(b);
        },
        None => {},
    }
    match n.args {
        Some(args) => {
            lemma_idempotent_arguments(args);
        },
        None => {},
    }
}

proof fn lemma_idempotent_unary(n: UnaryOprView)
    ensures
        desugared(desugared(AstView::UnaryOpr(n))) == desugared(AstView::UnaryOpr(n)),
    decreases n,
{
    lemma_desugared_idempotent(*n.operand);
    reveal_with_fuel(desugared, 3);
    assert(desugared_seq(Seq::<AstView>::empty()) =~= Seq::<AstView>::empty());
}

/// Desugaring is idempotent: a desugared tree is a fixed point.
pub proof fn lemma_desugared_idempotent(a: AstView)
    ensures
        desugared(desugared(a)) == desugared(a),
    decreases a,
{
    match a {
        AstView::Literal(_) => {},
        AstView::Ident(_) => {},
        AstView::BinaryOpr(n) => {
            lemma_idempotent_binary(n);
        },
        AstView::Block(n) => {
            lemma_idempotent_block(n);
        },
        AstView::Declare(n) => {
            lemma_desugared_idempotent(*n.variable);
            lemma_desugared_idempotent(*n.content);
            lemma_idempotent_opt(n.ty);
        },
        AstView::Assign(n) => {
            lemma_desugared_idempotent(*n.variable);
            lemma_desugared_idempotent(*n.content);
        },
        AstView::Delete(_) => {},
        AstView::Class(n) => {
            lemma_idempotent_class(n);
        },
        AstView::Call(n) => {
            lemma_desugared_idempotent(*n.called);
            lemma_idempotent_seq(n.args);
        },
        AstView::Member(n) => {
            lemma_desugared_idempotent(*n.parent);
        },
        AstView::Procedure(n) => {
            lemma_idempotent_arguments(n.args);
            lemma_idempotent_opt(n.return_type);
            lemma_idempotent_block(n.content);
        },
        AstView::Return(n) => {
            lemma_desugared_idempotent(*n.value);
        },
        AstView::Defer(n) => {
            lemma_desugared_idempotent(*n.content);
        },
        AstView::UnaryOpr(n) => {
            lemma_idempotent_unary(n);
        },
    }
}

/// Whether every tree of `s` is in the core language.
pub open spec fn is_core_seq(s: Seq<AstView>) -> bool
    decreases s,
{
    forall|i: int| 0 <= i < s.len() ==> is_core(#[trigger] s[i])
}

pub open spec fn is_core_opt(a: Option<Box<AstView>>) -> bool
    decreases a,
{
    match a {
        Some(b) => is_core(*b),
        None => true,
    }
}

pub open spec fn is_core_named(s: Seq<(Seq<char>, AstView)>) -> bool
    decreases s,
{
    forall|i: int| 0 <= i < s.len() ==> is_core((#[trigger] s[i]).1)
}

pub open spec fn is_core_argument(a: ArgumentView) -> bool
    decreases a,
{
    is_core(*a.ty) && is_core_opt(a.default)
}

pub open spec fn is_core_arguments(s: Seq<ArgumentView>) -> bool
    decreases s,
{
    forall|i: int| 0 <= i < s.len() ==> is_core_argument(#[trigger] s[i])
}

pub open spec fn is_core_block(b: BlockView) -> bool
    decreases b,
{
    is_core_seq(b.content)
}

/// Whether the tree is in the core language: the only binary operators in
/// it are typecasts and `&&` and `||` of casts to `bool`.
pub open spec fn is_core(a: AstView) -> bool
    decreases a,
{
    match a {
        AstView::Literal(_) => true,
        AstView::Ident(_) => true,
        AstView::BinaryOpr(n) => {
            &&& is_core(*n.operand1)
            &&& is_core(*n.operand2)
            &&& match n.ty {
                OprType::TypeCast => true,
                OprType::And | OprType::Or => is_bool_cast(*n.operand1) && is_bool_cast(
                    *n.operand2,
                ),
                _ => false,
            }
        },
        AstView::Block(n) => is_core_block(n),
        AstView::Declare(n) => is_core(*n.variable) && is_core(*n.content) && is_core_opt(n.ty),
        AstView::Assign(n) => is_core(*n.variable) && is_core(*n.content),
        AstView::Delete(_) => true,
        AstView::Class(n) => {
            &&& is_core_named(n.implementations)
            &&& is_core_arguments(n.inst_fields)
            &&& match n.content {
                Some(b) => is_core_block(b),
                None => true,
            }
            &&& match n.args {
                Some(args) => is_core_arguments(args),
                None => true,
            }
        },
        AstView::Call(n) => is_core(*n.called) && is_core_seq(n.args),
        AstView::Member(n) => is_core(*n.parent),
        AstView::Procedure(n) => is_core_arguments(n.args) && is_core_opt(n.return_type)
            && is_core_block(n.content),
        AstView::Return(n) => is_core(*n.value),
        AstView::Defer(n) => is_core(*n.content),
        AstView::UnaryOpr(_) => false,
    }
}

proof fn lemma_core_opt(a: Option<Box<AstView>>)
    ensures
        is_core_opt(desugared_opt(a)),
    decreases a,
{
    match a {
        Some(b) => {
            lemma_desugared_is_core(*b);
        },
        None => {},
    }
}

proof fn lemma_core_seq(s: Seq<AstView>)
    ensures
        is_core_seq(desugared_seq(s)),
    decreases s,
{
    assert forall|i: int| 0 <= i < s.len() implies is_core(#[trigger] desugared_seq(s)[i]) by {
        lemma_desugared_is_core(s[i]);
    }
}

proof fn lemma_core_named(s: Seq<(Seq<char>, AstView)>)
    ensures
        is_core_named(desugared_named(s)),
    decreases s,
{
    assert forall|i: int| 0 <= i < s.len() implies is_core(
        (#[trigger] desugared_named(s)[i]).1,
    ) by {
        lemma_desugared_is_core(s[i].1);
    }
}

proof fn lemma_core_arguments(s: Seq<ArgumentView>)
    ensures
        is_core_arguments(desugared_arguments(s)),
    decreases s,
{
    assert forall|i: int| 0 <= i < s.len() implies is_core_argument(
        #[trigger] desugared_arguments(s)[i],
    ) by {
        lemma_desugared_is_core(*s[i].ty);
        lemma_core_opt(s[i].default);
    }
}

proof fn lemma_core_as_bool(a: AstView, opr_span: Option<Span>)
    requires
        is_core(a),
    ensures
        is_core(as_bool(a, opr_span)),
        is_bool_cast(as_bool(a, opr_span)),
{
    reveal_with_fuel(is_core, 3);
}

proof fn lemma_core_binary(n: BinaryOprView)
    ensures
        is_core(desugared_binary(n)),
    decreases n,
{
    lemma_desugared_is_core(*n.operand1);
    lemma_desugared_is_core(*n.operand2);
    let x = desugared(*n.operand1);
    let y = desugared(*n.operand2);
    match operator_method(n.ty) {
        Some(method) => {
            reveal_with_fuel(is_core, 3);
            assert(is_core_seq(seq![y]));
        },
        None => {
            if n.ty != OprType::TypeCast {
                lemma_core_as_bool(x, n.opr_span);
                lemma_core_as_bool(y, n.opr_span);
            }
        },
    }
}

proof fn lemma_core_block(b: BlockView)
    ensures
        is_core_block(desugared_block(b)),
    decreases b,
{
    lemma_core_seq(b.content);
}

proof fn lemma_core_class(n: ClassView)
    ensures
        is_core(AstView::Class(desugared_class(n))),
    decreases n,
{
    lemma_core_named(n.implementations);
    lemma_core_arguments(n.inst_fields);
    match n.content {
        Some(b) => {
            lemma_core_block(b);
        },
        None => {},
    }
    match n.args {
        Some(args) => {
            lemma_core_arguments(args);
        },
        None => {},
    }
}

proof fn lemma_core_procedure(n: ProcedureView)
    ensures
        is_core(desugared(AstView::Procedure(n))),
    decreases n,
{
    lemma_core_arguments(n.args);
    lemma_core_opt(n.return_type);
    lemma_core_block(n.content);
}

proof fn lemma_core_declare(n: DeclareView)
    ensures
        is_core(desugared(AstView::Declare(n))),
    decreases n,
{
    lemma_desugared_is_core(*n.variable);
    lemma_desugared_is_core(*n.content);
    lemma_core_opt(n.ty);
}

proof fn lemma_core_call(n: CallView)
    ensures
        is_core(desugared(AstView::Call(n))),
    decreases n,
{
    lemma_desugared_is_core(*n.called);
    lemma_core_seq(n.args);
}

proof fn lemma_core_unary(n: UnaryOprView)
    ensures
        is_core(desugared(AstView::UnaryOpr(n))),
    decreases n,
{
    lemma_desugared_is_core(*n.operand);
    reveal_with_fuel(is_core, 3);
    assert(is_core_seq(Seq::<AstView>::empty()));
}

/// A desugared tree is in the core language.
pub proof fn lemma_desugared_is_core(a: AstView)
    ensures
        is_core(desugared(a)),
    decreases a,
{
    match a {
        AstView::Literal(_) => {},
        AstView::Ident(_) => {},
        AstView::BinaryOpr(n) => {
            lemma_core_binary(n);
        },
        AstView::Block(n) => {
            lemma_core_block(n);
        },
        AstView::Declare(n) => {
            lemma_core_declare(n);
        },
        AstView::Assign(n) => {
            lemma_desugared_is_core(*n.variable);
            lemma_desugared_is_core(*n.content);
        },
        AstView::Delete(_) => {},
        AstView::Class(n) => {
            lemma_core_class(n);
        },
        AstView::Call(n) => {
            lemma_core_call(n);
        },
        AstView::Member(n) => {
            lemma_desugared_is_core(*n.parent);
        },
        AstView::Procedure(n) => {
            lemma_core_procedure(n);
        },
        AstView::Return(n) => {
            lemma_desugared_is_core(*n.value);
        },
        AstView::Defer(n) => {
            lemma_desugared_is_core(*n.content);
        },
        AstView::UnaryOpr(n) => {
            lemma_core_unary(n);
        },
    }
}

/// The literal that names the type `bool`.
pub fn bool_literal_ast() -> (r: Ast)
    ensures
        r@ == bool_literal(),
{
    proof {
        reveal_with_fuel(ast_view, 3);
    }
    Ast::Literal(Literal { span: None, content: Value::Type(Prim::Bool.ty()) })
}

/// `a` as a boolean: `a` itself where it is a cast to `bool` already, else a cast of it.
pub fn cast_to_bool(a: Ast, opr_span: Option<Span>) -> (r: Ast)
    ensures
        r@ == as_bool(a@, opr_span),
{
    proof {
        reveal_with_fuel(ast_view, 3);
    }
    let literal = bool_literal_ast();
    let is_cast = match &a {
        Ast::BinaryOpr(b) => b.ty == OprType::TypeCast && b.operand2.same(&literal),
        _ => false,
    };
    if is_cast {
        a
    } else {
        Ast::BinaryOpr(
            BinaryOpr {
                ty: OprType::TypeCast,
                opr_span,
                operand1: Box::new(a),
                operand2: Box::new(literal),
            },
        )
    }
}

/// The operation that stands behind an operator, for the operators that become method calls.
pub fn method_of(op: OprType) -> (r: Option<BuiltinOp>)
    ensures
        r == operator_method(op),
{
    match op {
        OprType::Add => Some(BuiltinOp::Add),
        OprType::Sub => Some(BuiltinOp::Sub),
        OprType::Mul => Some(BuiltinOp::Mul),
        OprType::Div => Some(BuiltinOp::Div),
        OprType::Mod => Some(BuiltinOp::Rem),
        OprType::Eq => Some(BuiltinOp::Eq),
        OprType::Ne => Some(BuiltinOp::Ne),
        OprType::Lt => Some(BuiltinOp::Lt),
        OprType::Le => Some(BuiltinOp::Le),
        OprType::Gt => Some(BuiltinOp::Gt),
        OprType::Ge => Some(BuiltinOp::Ge),
        OprType::Concat => Some(BuiltinOp::Concat),
        OprType::And | OprType::Or | OprType::TypeCast => None,
    }
}

#[verifier::loop_isolation(false)]
fn desugar_asts(v: &Vec<Ast>) -> (r: Vec<Ast>)
    ensures
        asts_view(r@) == desugared_seq(asts_view(v@)),
    decreases v,
{
    let mut out: Vec<Ast> = Vec::new();
    let mut i: usize = 0;
    while i < v.len()
        invariant
            i <= v.len(),
            out@.len() == i,
            forall|j: int| 0 <= j < i ==> ast_view(out@[j]) == desugared(ast_view(v@[j])),
        decreases v.len() - i,
    {
        out.push(v[i].desugar());
        i += 1;
    }
    assert(asts_view(out@) =~= desugared_seq(asts_view(v@)));
    out
}

#[verifier::loop_isolation(false)]
fn desugar_named(v: &Vec<(String, Ast)>) -> (r: Vec<(String, Ast)>)
    ensures
        named_asts_view(r@) == desugared_named(named_asts_view(v@)),
    decreases v,
{
    let mut out: Vec<(String, Ast)> = Vec::new();
    let mut i: usize = 0;
    while i < v.len()
        invariant
            i <= v.len(),
            out@.len() == i,
            forall|j: int|
                0 <= j < i ==> out@[j].0@ == v@[j].0@ && ast_view(out@[j].1) == desugared(
                    ast_view(v@[j].1),
                ),
        decreases v.len() - i,
    {
        let name = v[i].0.clone();
        let node = v[i].1.desugar();
        out.push((name, node));
        i += 1;
    }
    assert(named_asts_view(out@) =~= desugared_named(named_asts_view(v@)));
    out
}

#[verifier::loop_isolation(false)]
fn desugar_arguments(v: &Vec<Argument>) -> (r: Vec<Argument>)
    ensures
        arguments_view(r@) == desugared_arguments(arguments_view(v@)),
    decreases v,
{
    let mut out: Vec<Argument> = Vec::new();
    let mut i: usize = 0;
    while i < v.len()
        invariant
            i <= v.len(),
            out@.len() == i,
            forall|j: int|
                0 <= j < i ==> argument_view(out@[j]) == desugared_argument(argument_view(v@[j])),
        decreases v.len() - i,
    {
        out.push(v[i].desugar());
        i += 1;
    }
    assert(arguments_view(out@) =~= desugared_arguments(arguments_view(v@)));
    out
}

fn desugar_opt(a: &Option<Box<Ast>>) -> (r: Option<Box<Ast>>)
    ensures
        opt_ast_view(r) == desugared_opt(opt_ast_view(*a)),
    decreases a,
{
    match a {
        Some(b) => Some(Box::new(b.desugar())),
        None => None,
    }
}

impl Argument {
    /// The argument with its type and default in the core language.
    pub fn desugar(&self) -> (r: Argument)
        ensures
            r@ == desugared_argument(self@),
        decreases self,
    {
        Argument {
            name: self.name.duplicate(),
            ty: Box::new(self.ty.desugar()),
            default: desugar_opt(&self.default),
        }
    }
}

impl Block {
    /// The block with every statement in the core language.
    pub fn desugar(&self) -> (r: Block)
        ensures
            r@ == desugared_block(self@),
        decreases self,
    {
        Block { brace_spans: self.brace_spans, content: desugar_asts(&self.content) }
    }

    /// The block in the core language, as a node.
    pub fn desugared(&self) -> (r: Result<Ast, ZError>)
        ensures
            r matches Ok(a) && a@ == desugared(AstView::Block(self@)),
    {
        Ok(Ast::Block(self.desugar()))
    }
}

impl BinaryOpr {
    /// The operator in the core language.
    pub fn desugar(&self) -> (r: Ast)
        ensures
            r@ == desugared_binary(self@),
        decreases self,
    {
        proof {
            reveal_with_fuel(ast_view, 3);
        }
        let x = self.operand1.desugar();
        let y = self.operand2.desugar();
        match method_of(self.ty) {
            Some(method) => {
                let mut args: Vec<Ast> = Vec::new();
                args.push(y);
                assert(asts_view(args@) =~= seq![y@]);
                Ast::Call(
                    Call {
                        called: Box::new(
                            Ast::Member(
                                Member {
                                    ty: AccessType::Method,
                                    name: method.name(),
                                    parent: Box::new(x),
                                    name_span: None,
                                    dot_span: None,
                                },
                            ),
                        ),
                        paren_spans: None,
                        args,
                    },
                )
            },
            None => {
                if self.ty == OprType::TypeCast {
                    Ast::BinaryOpr(
                        BinaryOpr {
                            ty: self.ty,
                            opr_span: self.opr_span,
                            operand1: Box::new(x),
                            operand2: Box::new(y),
                        },
                    )
                } else {
                    Ast::BinaryOpr(
                        BinaryOpr {
                            ty: self.ty,
                            opr_span: self.opr_span,
                            operand1: Box::new(cast_to_bool(x, self.opr_span)),
                            operand2: Box::new(cast_to_bool(y, self.opr_span)),
                        },
                    )
                }
            },
        }
    }

    /// The operator in the core language: `&&` and `||` have both operands
    /// cast to `bool`, a typecast keeps its node, and any other operator
    /// becomes a call of the method that stands behind it.
    pub fn desugared(&self) -> (r: Result<Ast, ZError>)
        ensures
            r matches Ok(a) && a@ == desugared(AstView::BinaryOpr(self@)),
    {
        Ok(self.desugar())
    }
}

/// The operation that stands behind a unary operator.
pub fn unary_method_of(op: UnaryOprType) -> (r: BuiltinOp)
    ensures
        r == unary_method(op),
{
    match op {
        UnaryOprType::Not => BuiltinOp::Not,
        UnaryOprType::UnPlus => BuiltinOp::UnPlus,
        UnaryOprType::UnMinus => BuiltinOp::UnMinus,
    }
}

impl UnaryOpr {
    /// The operator in the core language: a call of the method that stands
    /// behind it, on the operand.
    pub fn desugar(&self) -> (r: Ast)
        ensures
            r@ == desugared(AstView::UnaryOpr(self@)),
        decreases self,
    {
        proof {
            reveal_with_fuel(ast_view, 3);
        }
        let x = self.operand.desugar();
        let args: Vec<Ast> = Vec::new();
        assert(asts_view(args@) =~= Seq::empty());
        Ast::Call(
            Call {
                called: Box::new(
                    Ast::Member(
                        Member {
                            ty: AccessType::Method,
                            name: unary_method_of(self.ty).name(),
                            parent: Box::new(x),
                            name_span: None,
                            dot_span: None,
                        },
                    ),
                ),
                paren_spans: None,
                args,
            },
        )
    }

    /// The operator in the core language, as a result.
    pub fn desugared(&self) -> (r: Result<Ast, ZError>)
        ensures
            r matches Ok(a) && a@ == desugared(AstView::UnaryOpr(self@)),
    {
        Ok(self.desugar())
    }
}

impl Class {
    /// The class with its members, fields, body and arguments in the core language.
    pub fn desugar(&self) -> (r: Class)
        ensures
            r@ == desugared_class(self@),
        decreases self,
    {
        Class {
            is_struct: self.is_struct,
            implementations: desugar_named(&self.implementations),
            inst_fields: desugar_arguments(&self.inst_fields),
            content: match &self.content {
                Some(b) => Some(b.desugar()),
                None => None,
            },
            args: match &self.args {
                Some(a) => Some(desugar_arguments(a)),
                None => None,
            },
        }
    }

    /// The class in the core language, as a node.
    pub fn desugared(&self) -> (r: Result<Ast, ZError>)
        ensures
            r matches Ok(a) && a@ == desugared(AstView::Class(self@)),
    {
        Ok(Ast::Class(self.desugar()))
    }
}

impl Declare {
    /// The declaration with its parts in the core language.
    pub fn desugar(&self) -> (r: Ast)
        ensures
            r@ == desugared(AstView::Declare(self@)),
        decreases self,
    {
        let node = Declare {
            variable: Box::new(self.variable.desugar()),
            content: Box::new(self.content.desugar()),
            flags: crate::ast::copy::duplicate_flags(&self.flags),
            ty: desugar_opt(&self.ty),
            eq_span: self.eq_span,
        };
        let r = Ast::Declare(node);
        assert(r@ == AstView::Declare(node@));
        r
    }
}

impl Assign {
    /// The assignment with its parts in the core language.
    pub fn desugar(&self) -> (r: Ast)
        ensures
            r@ == desugared(AstView::Assign(self@)),
        decreases self,
    {
        let node = Assign {
            variable: Box::new(self.variable.desugar()),
            eq_span: self.eq_span,
            content: Box::new(self.content.desugar()),
        };
        let r = Ast::Assign(node);
        assert(r@ == AstView::Assign(node@));
        r
    }
}

impl Call {
    /// The call with its parts in the core language.
    pub fn desugar(&self) -> (r: Ast)
        ensures
            r@ == desugared(AstView::Call(self@)),
        decreases self,
    {
        let node = Call {
            called: Box::new(self.called.desugar()),
            paren_spans: self.paren_spans,
            args: desugar_asts(&self.args),
        };
        let r = Ast::Call(node);
        assert(r@ == AstView::Call(node@));
        r
    }
}

impl Member {
    /// The member access with its parent in the core language.
    pub fn desugar(&self) -> (r: Ast)
        ensures
            r@ == desugared(AstView::Member(self@)),
        decreases self,
    {
        let node = Member {
            ty: self.ty,
            name: self.name.clone(),
            parent: Box::new(self.parent.desugar()),
            name_span: self.name_span,
            dot_span: self.dot_span,
        };
        let r = Ast::Member(node);
        assert(r@ == AstView::Member(node@));
        r
    }
}

impl Procedure {
    /// The literal with its parts in the core language.
    pub fn desugar(&self) -> (r: Ast)
        ensures
            r@ == desugared(AstView::Procedure(self@)),
        decreases self,
    {
        let node = Procedure {
            is_fn: self.is_fn,
            kwd_span: self.kwd_span,
            args: desugar_arguments(&self.args),
            return_type: desugar_opt(&self.return_type),
            content: self.content.desugar(),
        };
        let r = Ast::Procedure(node);
        assert(r@ == AstView::Procedure(node@));
        r
    }
}

impl Return {
    /// The statement with its value in the core language.
    pub fn desugar(&self) -> (r: Ast)
        ensures
            r@ == desugared(AstView::Return(self@)),
        decreases self,
    {
        let node = Return { kwd_span: self.kwd_span, value: Box::new(self.value.desugar()) };
        let r = Ast::Return(node);
        assert(r@ == AstView::Return(node@));
        r
    }
}

impl Defer {
    /// The statement with its content in the core language.
    pub fn desugar(&self) -> (r: Ast)
        ensures
            r@ == desugared(AstView::Defer(self@)),
        decreases self,
    {
        let node = Defer { kwd_span: self.kwd_span, content: Box::new(self.content.desugar()) };
        let r = Ast::Defer(node);
        assert(r@ == AstView::Defer(node@));
        r
    }
}

impl Ast {
    /// The tree in the core language.
    pub fn desugar(&self) -> (r: Ast)
        ensures
            r@ == desugared(self@),
            is_core(r@),
        decreases self,
    {
        proof {
            lemma_desugared_is_core(self@);
        }
        match self {
            Ast::Literal(n) => {
                let r = Ast::Literal(n.duplicate());
                assert(r@ == self@);
                r
            },
            Ast::Ident(n) => {
                let r = Ast::Ident(n.duplicate());
                assert(r@ == self@);
                r
            },
            Ast::BinaryOpr(n) => n.desugar(),
            Ast::Block(n) => {
                let b = n.desugar();
                let r = Ast::Block(b);
                assert(r@ == AstView::Block(b@));
                r
            },
            Ast::Declare(n) => n.desugar(),
            Ast::Assign(n) => n.desugar(),
            Ast::Delete(n) => {
                let r = Ast::Delete(n.duplicate());
                assert(r@ == self@);
                r
            },
            Ast::Class(n) => {
                let c = n.desugar();
                let r = Ast::Class(c);
                assert(r@ == AstView::Class(c@));
                r
            },
            Ast::Call(n) => n.desugar(),
            Ast::Member(n) => n.desugar(),
            Ast::Procedure(n) => n.desugar(),
            Ast::Return(n) => n.desugar(),
            Ast::Defer(n) => n.desugar(),
            Ast::UnaryOpr(n) => n.desugar(),
        }
    }

    /// The tree in the core language. Desugaring does not fail; the result
    /// is wrapped so that it composes with the passes that can.
    pub fn desugared(&self) -> (r: Result<Ast, ZError>)
        ensures
            r matches Ok(a) && a@ == desugared(self@) && is_core(a@),
    {
        Ok(self.desugar())
    }
}

} // verus!
