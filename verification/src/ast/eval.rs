//! What evaluation means: the value of a tree in a table of frames.
//!
//! Evaluation is a function from a tree, the table before and a budget for
//! nested calls to a result and the table after. A call that goes into a
//! procedure written in the language, and a pop that runs deferred
//! statements, each take one unit of the budget; a budget that runs out is an
//! error, so that evaluation always ends. The budget decides nothing else:
//! every other result is the same under every larger budget, which the
//! module `budget` proves.
use vstd::prelude::*;
use crate::ast::AstView;
use crate::ast::argument::ArgumentView;
use crate::ast::assign::AssignView;
use crate::ast::binary_opr::BinaryOprView;
use crate::ast::block::BlockView;
use crate::ast::call::CallView;
use crate::ast::class::ClassView;
use crate::ast::declare::DeclareView;
use crate::ast::delete::DeleteView;
use crate::ast::literal::LiteralView;
use crate::ast::member::MemberView;
use crate::ast::procedure::ProcedureView;
use crate::ast::reconstruct::reconstructed;
use crate::ast::span::span_of;
use crate::errors::{EvalErrorKind, NameErrorKind, ZErrorView};
use crate::primitives::{builtin_result, implementation_of, op_name, prim_type, type_of};
use crate::types::namespace::{with_field, with_member};
use crate::types::position::Span;
use crate::types::sym_table::{assign_in, declare_in, defer_in, delete_in, drop_frame, lookup, push_frame, FrameDataView, FrameType, FrameView};
use crate::types::token::{AccessType, Flag, OprType};
use crate::types::typeobj::{FieldView, TypeDefinitionView, TypeView};
use crate::types::value::{BuiltinOp, DefinedProcView, Prim, ProcView, ValueView};

verus! {

/// The frames of a table of values.
pub type Frames = Seq<FrameView<ValueView>>;

/// A result and the frames that evaluation leaves behind.
pub type Evaluated = (Result<ValueView, ZErrorView>, Frames);

pub open spec fn eval_error(kind: EvalErrorKind, span: Option<Span>) -> ZErrorView {
    ZErrorView::Eval { kind, span }
}

pub open spec fn name_error(kind: NameErrorKind, name: Seq<char>, span: Option<Span>) -> ZErrorView {
    ZErrorView::Name { kind, name, span }
}

/// A value as a tree.
pub open spec fn literal_of(v: ValueView) -> AstView {
    AstView::Literal(LiteralView { span: None, content: v })
}

/// The first member named `name` among `members[i..]`.
pub open spec fn find_member_from(members: Seq<(Seq<char>, AstView)>, name: Seq<char>, i: int) -> Option<
    AstView,
>
    decreases members.len() - i,
{
    if i < 0 || i >= members.len() {
        None
    } else if members[i].0 == name {
        Some(members[i].1)
    } else {
        find_member_from(members, name, i + 1)
    }
}

/// The member named `name`.
pub open spec fn find_member(def: TypeDefinitionView, name: Seq<char>) -> Option<AstView> {
    find_member_from(def.implementations, name, 0)
}

/// The value of the member named `name`, where the member is a value.
pub open spec fn member_value(def: TypeDefinitionView, name: Seq<char>) -> Option<ValueView> {
    match find_member(def, name) {
        Some(AstView::Literal(l)) => Some(l.content),
        _ => None,
    }
}

/// The callable member named `name`.
pub open spec fn member_proc(def: TypeDefinitionView, name: Seq<char>) -> Option<ProcView> {
    match member_value(def, name) {
        Some(ValueView::Proc(p)) => Some(p),
        _ => None,
    }
}

/// The namespace in which a member of `v` is looked up.
pub open spec fn namespace_of(v: ValueView, access: AccessType) -> TypeDefinitionView {
    match (access, v) {
        (AccessType::Namespace, ValueView::Type(TypeView::Definition(d))) => d,
        (AccessType::Namespace, ValueView::Type(TypeView::Instance(i))) => i.implementation,
        _ => implementation_of(type_of(v)),
    }
}

/// Whether the declaration is flagged as an instance field.
pub open spec fn is_inst(flags: Seq<(Flag, Span)>) -> bool {
    exists|i: int| 0 <= i < flags.len() && (#[trigger] flags[i]).0 == Flag::Inst
}

/// The frames after the parameters `params[i..]` are bound to `args[i..]` in the innermost frame.
pub open spec fn bind_params(st: Frames, params: Seq<ArgumentView>, args: Seq<ValueView>, i: int) -> Frames
    decreases params.len() - i,
{
    if i < 0 || i >= params.len() || i >= args.len() {
        st
    } else {
        bind_params(declare_in(st, params[i].name.name, args[i]), params, args, i + 1)
    }
}

/// What a block gives: what its frame's deferred statements return, if they
/// return anything, else the value of the block itself.
pub open spec fn settle(value: ValueView, popped: (Result<Option<ValueView>, ZErrorView>, Frames)) -> Evaluated {
    match popped.0 {
        Err(e) => (Err(e), popped.1),
        Ok(Some(o)) => (Ok(o), popped.1),
        Ok(None) => (Ok(value), popped.1),
    }
}

/// The value of a tree.
pub open spec fn eval(a: AstView, st: Frames, fuel: nat) -> Evaluated
    decreases fuel * 2 + 1, a, 1int,
{
    match a {
        AstView::Literal(n) => (Ok(n.content), st),
        AstView::Ident(n) => match lookup(st, n.name) {
            Some(v) => (Ok(v), st),
            None => (Err(name_error(NameErrorKind::Undeclared, n.name, n.name_span)), st),
        },
        AstView::BinaryOpr(n) => eval_binary(n, st, fuel),
        AstView::Block(n) => eval_block(n, st, fuel, true, true),
        AstView::Declare(n) => eval_declare(n, st, fuel),
        AstView::Assign(n) => eval_assign(n, st, fuel),
        AstView::Delete(n) => eval_delete(n, 0, st),
        AstView::Class(n) => eval_class(n, st, fuel),
        AstView::Call(n) => eval_call(n, st, fuel),
        AstView::Member(n) => eval_member(n, st, fuel),
        AstView::Procedure(n) => eval_procedure(n, st, fuel),
        AstView::Return(n) => {
            let (r, st1) = eval(*n.value, st, fuel);
            match r {
                Ok(v) => (Ok(ValueView::Return(Box::new(v))), st1),
                Err(e) => (Err(e), st1),
            }
        },
        AstView::Defer(n) => (Ok(ValueView::Unit), defer_in(st, *n.content)),
        AstView::UnaryOpr(n) => {
            let (r, st1) = eval(*n.operand, st, fuel);
            match r {
                Err(e) => (Err(e), st1),
                Ok(_) => (Err(eval_error(EvalErrorKind::NotCore, span_of(a))), st1),
            }
        },
    }
}

/// `&&` and `||` evaluate their second operand only where the first does
/// not decide; a typecast calls the `_typecast` member of the type of its
/// first operand. Any other operator is sugar: its operands are evaluated,
/// first error first, and then it is an error itself.
pub open spec fn eval_binary(n: BinaryOprView, st: Frames, fuel: nat) -> Evaluated
    decreases fuel * 2 + 1, n, 0int,
{
    let node = AstView::BinaryOpr(n);
    match n.ty {
        OprType::And | OprType::Or => {
            let (r1, st1) = eval(*n.operand1, st, fuel);
            match r1 {
                Err(e) => (Err(e), st1),
                Ok(ValueView::Bool(b)) => if b == (n.ty == OprType::Or) {
                    (Ok(ValueView::Bool(b)), st1)
                } else {
                    let (r2, st2) = eval(*n.operand2, st1, fuel);
                    match r2 {
                        Err(e) => (Err(e), st2),
                        Ok(ValueView::Bool(c)) => (Ok(ValueView::Bool(c)), st2),
                        Ok(_) => (
                            Err(eval_error(EvalErrorKind::NotBool, span_of(*n.operand2))),
                            st2,
                        ),
                    }
                },
                Ok(_) => (Err(eval_error(EvalErrorKind::NotBool, span_of(*n.operand1))), st1),
            }
        },
        OprType::TypeCast => {
            let (r1, st1) = eval(*n.operand1, st, fuel);
            match r1 {
                Err(e) => (Err(e), st1),
                Ok(v1) => {
                    let (r2, st2) = eval(*n.operand2, st1, fuel);
                    match r2 {
                        Err(e) => (Err(e), st2),
                        Ok(v2) => match member_proc(
                            implementation_of(type_of(v1)),
                            op_name(BuiltinOp::Typecast),
                        ) {
                            Some(p) => call_proc(
                                p,
                                seq![v1, v2],
                                st2,
                                fuel,
                                span_of(node),
                                reconstructed(node),
                            ),
                            None => (
                                Err(eval_error(EvalErrorKind::NoSuchMember, span_of(node))),
                                st2,
                            ),
                        },
                    }
                },
            }
        },
        _ => {
            let (r1, st1) = eval(*n.operand1, st, fuel);
            match r1 {
                Err(e) => (Err(e), st1),
                Ok(_) => {
                    let (r2, st2) = eval(*n.operand2, st1, fuel);
                    match r2 {
                        Err(e) => (Err(e), st2),
                        Ok(_) => (Err(eval_error(EvalErrorKind::NotCore, span_of(node))), st2),
                    }
                },
            }
        },
    }
}

/// The statements `items[i..]` in order. A statement that gives a value on
/// its way out ends the run: the value is unwrapped where the block is
/// returnable and handed on as it is where it is not.
pub open spec fn eval_items(
    items: Seq<AstView>,
    i: int,
    st: Frames,
    fuel: nat,
    returnable: bool,
    last: ValueView,
) -> Evaluated
    decreases fuel * 2 + 1, items, items.len() - i,
{
    if i < 0 || i >= items.len() {
        (Ok(last), st)
    } else {
        let (r, st1) = eval(items[i], st, fuel);
        match r {
            Err(e) => (Err(e), st1),
            Ok(ValueView::Return(v)) => if returnable {
                (Ok(*v), st1)
            } else {
                (Ok(ValueView::Return(v)), st1)
            },
            Ok(v) => eval_items(items, i + 1, st1, fuel, returnable, v),
        }
    }
}

/// A block: in a frame of its own where `add_frame` says so, the statements
/// in order; the frame is popped at the end, and dropped at an error.
pub open spec fn eval_block(b: BlockView, st: Frames, fuel: nat, returnable: bool, add_frame: bool) -> Evaluated
    decreases fuel * 2 + 1, b, 0int,
{
    if add_frame {
        let (r, st1) = eval_items(
            b.content,
            0,
            push_frame(st, None, FrameType::Normal),
            fuel,
            returnable,
            ValueView::Unit,
        );
        match r {
            Err(e) => (Err(e), drop_frame(st1)),
            Ok(v) => settle(v, pop_frame_of(st1, fuel)),
        }
    } else {
        eval_items(b.content, 0, st, fuel, returnable, ValueView::Unit)
    }
}

/// The deferred statements `defers[i..]`, every one of them, in order.
/// `found` is what an earlier one has returned. The first value that one of
/// them gives on its way out is kept, and the statements behind it run all
/// the same. An error ends the run.
pub open spec fn run_defers(
    defers: Seq<AstView>,
    i: int,
    st: Frames,
    fuel: nat,
    found: Option<ValueView>,
) -> (Result<Option<ValueView>, ZErrorView>, Frames)
    decreases fuel * 2 + 1, defers, defers.len() - i,
{
    if i < 0 || i >= defers.len() {
        (Ok(found), st)
    } else {
        let (r, st1) = eval(defers[i], st, fuel);
        match r {
            Err(e) => (Err(e), st1),
            Ok(ValueView::Return(v)) => run_defers(
                defers,
                i + 1,
                st1,
                fuel,
                if found is Some {
                    found
                } else {
                    Some(*v)
                },
            ),
            Ok(_) => run_defers(defers, i + 1, st1, fuel, found),
        }
    }
}

/// Popping the innermost frame: every one of its deferred statements runs
/// first, in the order in which they were registered, and what the first of
/// them that returns gives takes the place of the frame's result. Then the
/// frame is gone.
pub open spec fn pop_frame_of(st: Frames, fuel: nat) -> (Result<Option<ValueView>, ZErrorView>, Frames)
    decreases fuel * 2,
{
    if st.len() == 0 {
        (Ok(None), st)
    } else if st[0].defer.len() == 0 {
        (Ok(None), drop_frame(st))
    } else if fuel == 0 {
        (Err(eval_error(EvalErrorKind::DepthExceeded, None)), drop_frame(st))
    } else {
        let (r, st1) = run_defers(st[0].defer, 0, st, (fuel - 1) as nat, None);
        (r, drop_frame(st1))
    }
}

/// The first `n` parameters with the arguments that they are bound to.
pub open spec fn bound_args(params: Seq<ArgumentView>, args: Seq<ValueView>, n: int) -> Map<
    Seq<char>,
    ValueView,
>
    decreases n,
{
    if n <= 0 {
        Map::empty()
    } else {
        bound_args(params, args, n - 1).insert(params[n - 1].name.name, args[n - 1])
    }
}

/// What the frame of a call records of where it was entered from: the
/// place and the text of the call, and the arguments under the names of the
/// parameters.
pub open spec fn call_site(
    span: Option<Span>,
    raw: Seq<char>,
    params: Seq<ArgumentView>,
    args: Seq<ValueView>,
) -> FrameDataView<ValueView> {
    FrameDataView { pos: span, raw_call: raw, args: bound_args(params, args, params.len() as int) }
}

/// A call of `p` with `args`. A built-in operation computes; a procedure
/// written in the language runs its body in a new frame with its parameters
/// bound, a function frame for a function.
pub open spec fn call_proc(
    p: ProcView,
    args: Seq<ValueView>,
    st: Frames,
    fuel: nat,
    span: Option<Span>,
    raw: Seq<char>,
) -> Evaluated
    decreases fuel * 2,
{
    match p {
        ProcView::Builtin(b) => match builtin_result(b, args) {
            Some(v) => (Ok(v), st),
            None => (Err(eval_error(EvalErrorKind::OperationFailed, span)), st),
        },
        ProcView::Defined(d) => if fuel == 0 {
            (Err(eval_error(EvalErrorKind::DepthExceeded, span)), st)
        } else if args.len() != d.args.len() {
            (Err(eval_error(EvalErrorKind::ArgumentCount, span)), st)
        } else {
            let entered = bind_params(
                push_frame(
                    st,
                    Some(call_site(span, raw, d.args, args)),
                    if d.is_fn { FrameType::Function } else { FrameType::Normal },
                ),
                d.args,
                args,
                0,
            );
            let (r, st1) = eval_block(d.content, entered, (fuel - 1) as nat, true, false);
            match r {
                Err(e) => (Err(e), drop_frame(st1)),
                Ok(v) => settle(v, pop_frame_of(st1, (fuel - 1) as nat)),
            }
        },
    }
}

/// The arguments `args[i..]` in order, behind the values in `acc`.
pub open spec fn eval_args(args: Seq<AstView>, i: int, st: Frames, fuel: nat, acc: Seq<ValueView>) -> (
    Result<Seq<ValueView>, ZErrorView>,
    Frames,
)
    decreases fuel * 2 + 1, args, args.len() - i,
{
    if i < 0 || i >= args.len() {
        (Ok(acc), st)
    } else {
        let (r, st1) = eval(args[i], st, fuel);
        match r {
            Err(e) => (Err(e), st1),
            Ok(v) => eval_args(args, i + 1, st1, fuel, acc.push(v)),
        }
    }
}

/// A call. Where the called expression is a method access, the parent is
/// evaluated, the method is looked up in the namespace of its type, and the
/// parent's value goes in front of the arguments.
pub open spec fn eval_call(n: CallView, st: Frames, fuel: nat) -> Evaluated
    decreases fuel * 2 + 1, n, 1int,
{
    match *n.called {
        AstView::Member(m) => if m.ty == AccessType::Method {
            eval_method_call(n, m, st, fuel)
        } else {
            eval_plain_call(n, st, fuel)
        },
        _ => eval_plain_call(n, st, fuel),
    }
}

/// A call of the method `m` of the value of its parent.
pub open spec fn eval_method_call(n: CallView, m: MemberView, st: Frames, fuel: nat) -> Evaluated
    recommends
        *n.called == AstView::Member(m),
    decreases fuel * 2 + 1, n, 0int,
    when *n.called == AstView::Member(m)
{
    let (r, st1) = eval(*m.parent, st, fuel);
    match r {
        Err(e) => (Err(e), st1),
        Ok(v) => match member_proc(implementation_of(type_of(v)), m.name) {
            None => (Err(eval_error(EvalErrorKind::NoSuchMember, span_of(*n.called))), st1),
            Some(p) => {
                let (ar, st2) = eval_args(n.args, 0, st1, fuel, seq![v]);
                match ar {
                    Err(e) => (Err(e), st2),
                    Ok(args) => call_proc(
                        p,
                        args,
                        st2,
                        fuel,
                        span_of(AstView::Call(n)),
                        reconstructed(AstView::Call(n)),
                    ),
                }
            },
        },
    }
}

/// A call of whatever the called expression evaluates to.
pub open spec fn eval_plain_call(n: CallView, st: Frames, fuel: nat) -> Evaluated
    decreases fuel * 2 + 1, n, 0int,
{
    let span = span_of(AstView::Call(n));
    let (r, st1) = eval(*n.called, st, fuel);
    match r {
        Err(e) => (Err(e), st1),
        Ok(ValueView::Proc(p)) => {
            let (ar, st2) = eval_args(n.args, 0, st1, fuel, Seq::empty());
            match ar {
                Err(e) => (Err(e), st2),
                Ok(args) => call_proc(p, args, st2, fuel, span, reconstructed(AstView::Call(n))),
            }
        },
        Ok(_) => (Err(eval_error(EvalErrorKind::NotCallable, span_of(*n.called))), st1),
    }
}

/// A member access: the value of the member in the namespace of the parent.
pub open spec fn eval_member(n: MemberView, st: Frames, fuel: nat) -> Evaluated
    decreases fuel * 2 + 1, n, 0int,
{
    let (r, st1) = eval(*n.parent, st, fuel);
    match r {
        Err(e) => (Err(e), st1),
        Ok(v) => match member_value(namespace_of(v, n.ty), n.name) {
            Some(w) => (Ok(w), st1),
            None => (
                Err(eval_error(EvalErrorKind::NoSuchMember, span_of(AstView::Member(n)))),
                st1,
            ),
        },
    }
}

/// A declaration binds the value of its content in the innermost frame and gives that value.
pub open spec fn eval_declare(n: DeclareView, st: Frames, fuel: nat) -> Evaluated
    decreases fuel * 2 + 1, n, 0int,
{
    match *n.variable {
        AstView::Ident(id) => {
            let (r, st1) = eval(*n.content, st, fuel);
            match r {
                Err(e) => (Err(e), st1),
                Ok(v) => (Ok(v), declare_in(st1, id.name, v)),
            }
        },
        _ => (Err(eval_error(EvalErrorKind::NotAssignable, span_of(*n.variable))), st),
    }
}

/// An assignment gives the name a new value where it is bound, and gives that value.
pub open spec fn eval_assign(n: AssignView, st: Frames, fuel: nat) -> Evaluated
    decreases fuel * 2 + 1, n, 0int,
{
    match *n.variable {
        AstView::Ident(id) => {
            let (r, st1) = eval(*n.content, st, fuel);
            match r {
                Err(e) => (Err(e), st1),
                Ok(v) => match assign_in(st1, id.name, v) {
                    Ok(st2) => (Ok(v), st2),
                    Err(kind) => (
                        Err(name_error(kind, id.name, span_of(AstView::Assign(n)))),
                        st1,
                    ),
                },
            }
        },
        _ => (Err(eval_error(EvalErrorKind::NotAssignable, span_of(*n.variable))), st),
    }
}

/// The names `names[i..]` are taken out of the innermost frame, one after
/// the other; the first that the innermost frame does not bind is an error.
pub open spec fn eval_delete(n: DeleteView, i: int, st: Frames) -> Evaluated
    decreases n.names.len() - i,
{
    if i < 0 || i >= n.names.len() {
        (Ok(ValueView::Unit), st)
    } else {
        match delete_in(st, n.names[i].name) {
            Some(st1) => eval_delete(n, i + 1, st1),
            None => (
                Err(
                    name_error(
                        NameErrorKind::Undeclared,
                        n.names[i].name,
                        span_of(AstView::Delete(n)),
                    ),
                ),
                st,
            ),
        }
    }
}

/// A procedure literal gives the procedure. Its return type is evaluated
/// now; without one the procedure returns the unit type.
pub open spec fn eval_procedure(n: ProcedureView, st: Frames, fuel: nat) -> Evaluated
    decreases fuel * 2 + 1, n, 0int,
{
    match n.return_type {
        None => (
            Ok(
                ValueView::Proc(
                    ProcView::Defined(
                        DefinedProcView {
                            is_fn: n.is_fn,
                            args: n.args,
                            return_type: Box::new(prim_type(Prim::Unit)),
                            content: n.content,
                        },
                    ),
                ),
            ),
            st,
        ),
        Some(ty) => {
            let (r, st1) = eval(*ty, st, fuel);
            match r {
                Err(e) => (Err(e), st1),
                Ok(ValueView::Type(t)) => (
                    Ok(
                        ValueView::Proc(
                            ProcView::Defined(
                                DefinedProcView {
                                    is_fn: n.is_fn,
                                    args: n.args,
                                    return_type: Box::new(t),
                                    content: n.content,
                                },
                            ),
                        ),
                    ),
                    st1,
                ),
                Ok(_) => (Err(eval_error(EvalErrorKind::NotAType, span_of(*ty))), st1),
            }
        },
    }
}

/// The members `members[i..]` evaluated in order, behind those in `acc`.
pub open spec fn eval_members(
    members: Seq<(Seq<char>, AstView)>,
    i: int,
    st: Frames,
    fuel: nat,
    acc: Seq<(Seq<char>, AstView)>,
) -> (Result<Seq<(Seq<char>, AstView)>, ZErrorView>, Frames)
    decreases fuel * 2 + 1, members, members.len() - i,
{
    if i < 0 || i >= members.len() {
        (Ok(acc), st)
    } else {
        let (r, st1) = eval(members[i].1, st, fuel);
        match r {
            Err(e) => (Err(e), st1),
            Ok(v) => eval_members(members, i + 1, st1, fuel, with_member(acc, members[i].0, literal_of(v))),
        }
    }
}

/// The type that a type expression evaluated to, or why it is none.
pub open spec fn as_type(r: Result<ValueView, ZErrorView>, span: Option<Span>) -> Result<
    TypeView,
    ZErrorView,
> {
    match r {
        Err(e) => Err(e),
        Ok(ValueView::Type(t)) => Ok(t),
        Ok(_) => Err(eval_error(EvalErrorKind::NotAType, span)),
    }
}

/// The instance fields `fields[i..]` evaluated in order, behind those in
/// `acc`. The type expression of a field has to evaluate to a type.
pub open spec fn eval_fields(
    fields: Seq<ArgumentView>,
    i: int,
    st: Frames,
    fuel: nat,
    acc: Seq<FieldView>,
) -> (Result<Seq<FieldView>, ZErrorView>, Frames)
    decreases fuel * 2 + 1, fields, fields.len() - i,
{
    if i < 0 || i >= fields.len() {
        (Ok(acc), st)
    } else {
        let f = fields[i];
        let (r, st1) = eval(*f.ty, st, fuel);
        match as_type(r, span_of(*f.ty)) {
            Err(e) => (Err(e), st1),
            Ok(t) => match f.default {
                None => eval_fields(
                    fields,
                    i + 1,
                    st1,
                    fuel,
                    with_field(acc,FieldView { name: f.name.name, ty: t, default: None }),
                ),
                Some(d) => {
                    let (r2, st2) = eval(*d, st1, fuel);
                    match r2 {
                        Err(e) => (Err(e), st2),
                        Ok(v) => eval_fields(
                            fields,
                            i + 1,
                            st2,
                            fuel,
                            with_field(acc,
                                FieldView { name: f.name.name, ty: t, default: Some(literal_of(v)) },
                            ),
                        ),
                    }
                },
            },
        }
    }
}

/// What the declarations `items[i..]` of a class body add to the members
/// and the fields collected so far: a declaration flagged as an instance
/// field adds a field, any other declaration adds a member.
pub open spec fn eval_body(
    items: Seq<AstView>,
    i: int,
    st: Frames,
    fuel: nat,
    members: Seq<(Seq<char>, AstView)>,
    fields: Seq<FieldView>,
) -> (Result<(Seq<(Seq<char>, AstView)>, Seq<FieldView>), ZErrorView>, Frames)
    decreases fuel * 2 + 1, items, items.len() - i,
{
    if i < 0 || i >= items.len() {
        (Ok((members, fields)), st)
    } else {
        match items[i] {
            AstView::Declare(d) => match *d.variable {
                AstView::Ident(id) => if is_inst(d.flags) {
                    match d.ty {
                        Some(ty) => {
                            let (r, st1) = eval(*ty, st, fuel);
                            match as_type(r, span_of(*ty)) {
                                Err(e) => (Err(e), st1),
                                Ok(t) => {
                                    let (r2, st2) = eval(*d.content, st1, fuel);
                                    match r2 {
                                        Err(e) => (Err(e), st2),
                                        Ok(v) => eval_body(
                                            items,
                                            i + 1,
                                            st2,
                                            fuel,
                                            members,
                                            with_field(fields,
                                                FieldView {
                                                    name: id.name,
                                                    ty: t,
                                                    default: Some(literal_of(v)),
                                                },
                                            ),
                                        ),
                                    }
                                },
                            }
                        },
                        None => (
                            Err(eval_error(EvalErrorKind::NotAType, span_of(items[i]))),
                            st,
                        ),
                    }
                } else {
                    let (r, st1) = eval(*d.content, st, fuel);
                    match r {
                        Err(e) => (Err(e), st1),
                        Ok(v) => eval_body(
                            items,
                            i + 1,
                            st1,
                            fuel,
                            with_member(members, id.name, literal_of(v)),
                            fields,
                        ),
                    }
                },
                _ => (Err(eval_error(EvalErrorKind::NotAssignable, span_of(*d.variable))), st),
            },
            _ => eval_body(items, i + 1, st, fuel, members, fields),
        }
    }
}

pub open spec fn class_name(is_struct: bool) -> Seq<char> {
    if is_struct {
        "struct"@
    } else {
        "class"@
    }
}

/// A class literal gives a type definition: its members and its instance
/// fields evaluated, those that the node lists first, then those that its
/// body declares.
pub open spec fn eval_class(n: ClassView, st: Frames, fuel: nat) -> Evaluated
    decreases fuel * 2 + 1, n, 0int,
{
    let (mr, st1) = eval_members(n.implementations, 0, st, fuel, Seq::empty());
    match mr {
        Err(e) => (Err(e), st1),
        Ok(members) => {
            let (fr, st2) = eval_fields(n.inst_fields, 0, st1, fuel, Seq::empty());
            match fr {
                Err(e) => (Err(e), st2),
                Ok(fields) => {
                    let (br, st3) = match n.content {
                        Some(b) => eval_body(b.content, 0, st2, fuel, members, fields),
                        None => (Ok((members, fields)), st2),
                    };
                    match br {
                        Err(e) => (Err(e), st3),
                        Ok((all_members, all_fields)) => (
                            Ok(
                                ValueView::Type(
                                    TypeView::Definition(
                                        TypeDefinitionView {
                                            inst_name: None,
                                            name: Some(class_name(n.is_struct)),
                                            generics: Seq::empty(),
                                            implementations: all_members,
                                            inst_fields: all_fields,
                                        },
                                    ),
                                ),
                            ),
                            st3,
                        ),
                    }
                },
            }
        },
    }
}

/// `a && b` is `false` where `a` is `false`, and `b` is not evaluated: the
/// result and the frames are those of `a`, whatever `b` is.
pub proof fn lemma_and_short_circuits(n: BinaryOprView, st: Frames, fuel: nat)
    requires
        n.ty == OprType::And,
        eval(*n.operand1, st, fuel).0 == Ok::<_, ZErrorView>(ValueView::Bool(false)),
    ensures
        eval(AstView::BinaryOpr(n), st, fuel) == eval(*n.operand1, st, fuel),
        forall|other: AstView|
            eval(
                AstView::BinaryOpr(BinaryOprView { operand2: Box::new(other), ..n }),
                st,
                fuel,
            ) == eval(AstView::BinaryOpr(n), st, fuel),
{
    reveal_with_fuel(eval, 2);
    assert forall|other: AstView|
        eval(
            AstView::BinaryOpr(BinaryOprView { operand2: Box::new(other), ..n }),
            st,
            fuel,
        ) == eval(AstView::BinaryOpr(n), st, fuel) by {
        let m = BinaryOprView { operand2: Box::new(other), ..n };
        assert(eval(AstView::BinaryOpr(m), st, fuel) == eval_binary(m, st, fuel));
    }
}

/// `a || b` is `true` where `a` is `true`, and `b` is not evaluated: the
/// result and the frames are those of `a`, whatever `b` is.
pub proof fn lemma_or_short_circuits(n: BinaryOprView, st: Frames, fuel: nat)
    requires
        n.ty == OprType::Or,
        eval(*n.operand1, st, fuel).0 == Ok::<_, ZErrorView>(ValueView::Bool(true)),
    ensures
        eval(AstView::BinaryOpr(n), st, fuel) == eval(*n.operand1, st, fuel),
        forall|other: AstView|
            eval(
                AstView::BinaryOpr(BinaryOprView { operand2: Box::new(other), ..n }),
                st,
                fuel,
            ) == eval(AstView::BinaryOpr(n), st, fuel),
{
    reveal_with_fuel(eval, 2);
    assert forall|other: AstView|
        eval(
            AstView::BinaryOpr(BinaryOprView { operand2: Box::new(other), ..n }),
            st,
            fuel,
        ) == eval(AstView::BinaryOpr(n), st, fuel) by {
        let m = BinaryOprView { operand2: Box::new(other), ..n };
        assert(eval(AstView::BinaryOpr(m), st, fuel) == eval_binary(m, st, fuel));
    }
}

/// Deleting a name that the innermost frame does not bind is an
/// undeclared-name error, whatever outer frames bind.
pub proof fn lemma_delete_does_not_search_outward(n: DeleteView, st: Frames)
    requires
        n.names.len() > 0,
        st.len() > 0,
        !st[0].heap.contains_key(n.names[0].name),
    ensures
        eval_delete(n, 0, st) == (
            Err::<ValueView, _>(
                name_error(
                    NameErrorKind::Undeclared,
                    n.names[0].name,
                    span_of(AstView::Delete(n)),
                ),
            ),
            st,
        ),
{
}

} // verus!
