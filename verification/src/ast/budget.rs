//! The budget for nested calls decides nothing but whether evaluation runs
//! out of it: a result that is no such failure is the result under every
//! larger budget, and so are the frames that are left behind.
use vstd::prelude::*;
use crate::ast::AstView;
use crate::ast::argument::ArgumentView;
use crate::ast::assign::AssignView;
use crate::ast::binary_opr::BinaryOprView;
use crate::ast::block::BlockView;
use crate::ast::call::CallView;
use crate::ast::class::ClassView;
use crate::ast::declare::DeclareView;
use crate::ast::eval::{as_type, bind_params, call_proc, call_site, eval, eval_args, eval_assign, eval_binary, eval_block, eval_body, eval_call, eval_class, eval_declare, eval_fields, eval_items, eval_member, eval_members, eval_method_call, eval_plain_call, eval_procedure, is_inst, literal_of, member_proc, pop_frame_of, run_defers, Frames};
use crate::ast::member::MemberView;
use crate::ast::procedure::ProcedureView;
use crate::ast::reconstruct::reconstructed;
use crate::ast::span::span_of;
use crate::errors::{EvalErrorKind, ZErrorView};
use crate::primitives::{implementation_of, op_name, type_of};
use crate::types::namespace::{with_field, with_member};
use crate::types::position::Span;
use crate::types::sym_table::{push_frame, FrameType};
use crate::types::token::{AccessType, OprType};
use crate::types::convert::{definition_value, fields_value, instance_value, type_value, types_value};
use crate::types::typeobj::{FieldView, TypeDefinitionView, TypeInstanceView, TypeView};
use crate::types::value::{BuiltinOp, ProcView, ValueView};

verus! {

/// Whether the result is the failure of a budget that ran out.
pub open spec fn out_of_budget<T>(r: Result<T, ZErrorView>) -> bool {
    r matches Err(ZErrorView::Eval { kind: EvalErrorKind::DepthExceeded, .. })
}

/// What a tree evaluates to without running out of the budget, it
/// evaluates to under every larger budget, and it leaves the same frames.
pub proof fn lemma_larger_budget_same_result(a: AstView, st: Frames, f1: nat, f2: nat)
    requires
        f1 <= f2,
        !out_of_budget(eval(a, st, f1).0),
    ensures
        eval(a, st, f2) == eval(a, st, f1),
    decreases f1 * 2 + 1, a, 1int,
{
    match a {
        AstView::BinaryOpr(n) => lemma_budget_binary(n, st, f1, f2),
        AstView::Block(n) => lemma_budget_block(n, st, f1, f2, true, true),
        AstView::Declare(n) => lemma_budget_declare(n, st, f1, f2),
        AstView::Assign(n) => lemma_budget_assign(n, st, f1, f2),
        AstView::Class(n) => lemma_budget_class(n, st, f1, f2),
        AstView::Call(n) => lemma_budget_call(n, st, f1, f2),
        AstView::Member(n) => lemma_budget_member(n, st, f1, f2),
        AstView::Procedure(n) => lemma_budget_procedure(n, st, f1, f2),
        AstView::Return(n) => lemma_larger_budget_same_result(*n.value, st, f1, f2),
        AstView::UnaryOpr(n) => lemma_larger_budget_same_result(*n.operand, st, f1, f2),
        _ => {},
    }
}

proof fn lemma_budget_binary(n: BinaryOprView, st: Frames, f1: nat, f2: nat)
    requires
        f1 <= f2,
        !out_of_budget(eval_binary(n, st, f1).0),
    ensures
        eval_binary(n, st, f2) == eval_binary(n, st, f1),
    decreases f1 * 2 + 1, n, 0int,
{
    let node = AstView::BinaryOpr(n);
    lemma_larger_budget_same_result(*n.operand1, st, f1, f2);
    let (r1, st1) = eval(*n.operand1, st, f1);
    match n.ty {
        OprType::And | OprType::Or => match r1 {
            Ok(ValueView::Bool(b)) => if b != (n.ty == OprType::Or) {
                lemma_larger_budget_same_result(*n.operand2, st1, f1, f2);
            },
            _ => {},
        },
        OprType::TypeCast => match r1 {
            Ok(v1) => {
                lemma_larger_budget_same_result(*n.operand2, st1, f1, f2);
                let (r2, st2) = eval(*n.operand2, st1, f1);
                match r2 {
                    Ok(v2) => match member_proc(
                        implementation_of(type_of(v1)),
                        op_name(BuiltinOp::Typecast),
                    ) {
                        Some(p) => lemma_budget_call_proc(
                            p,
                            seq![v1, v2],
                            st2,
                            f1,
                            f2,
                            span_of(node),
                            reconstructed(node),
                        ),
                        None => {},
                    },
                    Err(_) => {},
                }
            },
            Err(_) => {},
        },
        _ => match r1 {
            Ok(_) => lemma_larger_budget_same_result(*n.operand2, st1, f1, f2),
            Err(_) => {},
        },
    }
}

/// The statements of a program or a block give the same under every larger
/// budget, where they give anything but the failure of the budget.
pub proof fn lemma_budget_items(
    items: Seq<AstView>,
    i: int,
    st: Frames,
    f1: nat,
    f2: nat,
    returnable: bool,
    last: ValueView,
)
    requires
        f1 <= f2,
        !out_of_budget(eval_items(items, i, st, f1, returnable, last).0),
    ensures
        eval_items(items, i, st, f2, returnable, last) == eval_items(
            items,
            i,
            st,
            f1,
            returnable,
            last,
        ),
    decreases f1 * 2 + 1, items, items.len() - i,
{
    if 0 <= i < items.len() {
        lemma_larger_budget_same_result(items[i], st, f1, f2);
        let (r, st1) = eval(items[i], st, f1);
        match r {
            Ok(ValueView::Return(_)) => {},
            Ok(v) => lemma_budget_items(items, i + 1, st1, f1, f2, returnable, v),
            Err(_) => {},
        }
    }
}

proof fn lemma_budget_block(
    b: BlockView,
    st: Frames,
    f1: nat,
    f2: nat,
    returnable: bool,
    add_frame: bool,
)
    requires
        f1 <= f2,
        !out_of_budget(eval_block(b, st, f1, returnable, add_frame).0),
    ensures
        eval_block(b, st, f2, returnable, add_frame) == eval_block(
            b,
            st,
            f1,
            returnable,
            add_frame,
        ),
    decreases f1 * 2 + 1, b, 0int,
{
    if add_frame {
        let entered = push_frame(st, None, FrameType::Normal);
        lemma_budget_items(b.content, 0, entered, f1, f2, returnable, ValueView::Unit);
        let (r, st1) = eval_items(b.content, 0, entered, f1, returnable, ValueView::Unit);
        if r is Ok {
            lemma_budget_pop(st1, f1, f2);
        }
    } else {
        lemma_budget_items(b.content, 0, st, f1, f2, returnable, ValueView::Unit);
    }
}

proof fn lemma_budget_defers(
    defers: Seq<AstView>,
    i: int,
    st: Frames,
    f1: nat,
    f2: nat,
    found: Option<ValueView>,
)
    requires
        f1 <= f2,
        !out_of_budget(run_defers(defers, i, st, f1, found).0),
    ensures
        run_defers(defers, i, st, f2, found) == run_defers(defers, i, st, f1, found),
    decreases f1 * 2 + 1, defers, defers.len() - i,
{
    if 0 <= i < defers.len() {
        lemma_larger_budget_same_result(defers[i], st, f1, f2);
        let (r, st1) = eval(defers[i], st, f1);
        match r {
            Ok(ValueView::Return(v)) => lemma_budget_defers(
                defers,
                i + 1,
                st1,
                f1,
                f2,
                if found is Some {
                    found
                } else {
                    Some(*v)
                },
            ),
            Ok(_) => lemma_budget_defers(defers, i + 1, st1, f1, f2, found),
            Err(_) => {},
        }
    }
}

proof fn lemma_budget_pop(st: Frames, f1: nat, f2: nat)
    requires
        f1 <= f2,
        !out_of_budget(pop_frame_of(st, f1).0),
    ensures
        pop_frame_of(st, f2) == pop_frame_of(st, f1),
    decreases f1 * 2,
{
    if st.len() > 0 && st[0].defer.len() > 0 && f1 > 0 {
        lemma_budget_defers(st[0].defer, 0, st, (f1 - 1) as nat, (f2 - 1) as nat, None);
    }
}

proof fn lemma_budget_call_proc(
    p: ProcView,
    args: Seq<ValueView>,
    st: Frames,
    f1: nat,
    f2: nat,
    span: Option<Span>,
    raw: Seq<char>,
)
    requires
        f1 <= f2,
        !out_of_budget(call_proc(p, args, st, f1, span, raw).0),
    ensures
        call_proc(p, args, st, f2, span, raw) == call_proc(p, args, st, f1, span, raw),
    decreases f1 * 2,
{
    match p {
        ProcView::Defined(d) => if f1 > 0 && args.len() == d.args.len() {
            let entered = bind_params(
                push_frame(
                    st,
                    Some(call_site(span, raw, d.args, args)),
                    if d.is_fn {
                        FrameType::Function
                    } else {
                        FrameType::Normal
                    },
                ),
                d.args,
                args,
                0,
            );
            lemma_budget_block(d.content, entered, (f1 - 1) as nat, (f2 - 1) as nat, true, false);
            let (r, st1) = eval_block(d.content, entered, (f1 - 1) as nat, true, false);
            if r is Ok {
                lemma_budget_pop(st1, (f1 - 1) as nat, (f2 - 1) as nat);
            }
        },
        ProcView::Builtin(_) => {},
    }
}

proof fn lemma_budget_args(
    args: Seq<AstView>,
    i: int,
    st: Frames,
    f1: nat,
    f2: nat,
    acc: Seq<ValueView>,
)
    requires
        f1 <= f2,
        !out_of_budget(eval_args(args, i, st, f1, acc).0),
    ensures
        eval_args(args, i, st, f2, acc) == eval_args(args, i, st, f1, acc),
    decreases f1 * 2 + 1, args, args.len() - i,
{
    if 0 <= i < args.len() {
        lemma_larger_budget_same_result(args[i], st, f1, f2);
        let (r, st1) = eval(args[i], st, f1);
        match r {
            Ok(v) => lemma_budget_args(args, i + 1, st1, f1, f2, acc.push(v)),
            Err(_) => {},
        }
    }
}

proof fn lemma_budget_call(n: CallView, st: Frames, f1: nat, f2: nat)
    requires
        f1 <= f2,
        !out_of_budget(eval_call(n, st, f1).0),
    ensures
        eval_call(n, st, f2) == eval_call(n, st, f1),
    decreases f1 * 2 + 1, n, 1int,
{
    match *n.called {
        AstView::Member(m) => if m.ty == AccessType::Method {
            lemma_budget_method_call(n, m, st, f1, f2);
        } else {
            lemma_budget_plain_call(n, st, f1, f2);
        },
        _ => lemma_budget_plain_call(n, st, f1, f2),
    }
}

proof fn lemma_budget_method_call(n: CallView, m: MemberView, st: Frames, f1: nat, f2: nat)
    requires
        *n.called == AstView::Member(m),
        f1 <= f2,
        !out_of_budget(eval_method_call(n, m, st, f1).0),
    ensures
        eval_method_call(n, m, st, f2) == eval_method_call(n, m, st, f1),
    decreases f1 * 2 + 1, n, 0int,
{
    lemma_larger_budget_same_result(*m.parent, st, f1, f2);
    let (r, st1) = eval(*m.parent, st, f1);
    match r {
        Ok(v) => match member_proc(implementation_of(type_of(v)), m.name) {
            Some(p) => {
                lemma_budget_args(n.args, 0, st1, f1, f2, seq![v]);
                let (ar, st2) = eval_args(n.args, 0, st1, f1, seq![v]);
                match ar {
                    Ok(args) => lemma_budget_call_proc(
                        p,
                        args,
                        st2,
                        f1,
                        f2,
                        span_of(AstView::Call(n)),
                        reconstructed(AstView::Call(n)),
                    ),
                    Err(_) => {},
                }
            },
            None => {},
        },
        Err(_) => {},
    }
}

proof fn lemma_budget_plain_call(n: CallView, st: Frames, f1: nat, f2: nat)
    requires
        f1 <= f2,
        !out_of_budget(eval_plain_call(n, st, f1).0),
    ensures
        eval_plain_call(n, st, f2) == eval_plain_call(n, st, f1),
    decreases f1 * 2 + 1, n, 0int,
{
    lemma_larger_budget_same_result(*n.called, st, f1, f2);
    let (r, st1) = eval(*n.called, st, f1);
    match r {
        Ok(ValueView::Proc(p)) => {
            lemma_budget_args(n.args, 0, st1, f1, f2, Seq::empty());
            let (ar, st2) = eval_args(n.args, 0, st1, f1, Seq::empty());
            match ar {
                Ok(args) => lemma_budget_call_proc(
                    p,
                    args,
                    st2,
                    f1,
                    f2,
                    span_of(AstView::Call(n)),
                    reconstructed(AstView::Call(n)),
                ),
                Err(_) => {},
            }
        },
        _ => {},
    }
}

proof fn lemma_budget_member(n: MemberView, st: Frames, f1: nat, f2: nat)
    requires
        f1 <= f2,
        !out_of_budget(eval_member(n, st, f1).0),
    ensures
        eval_member(n, st, f2) == eval_member(n, st, f1),
    decreases f1 * 2 + 1, n, 0int,
{
    lemma_larger_budget_same_result(*n.parent, st, f1, f2);
}

proof fn lemma_budget_declare(n: DeclareView, st: Frames, f1: nat, f2: nat)
    requires
        f1 <= f2,
        !out_of_budget(eval_declare(n, st, f1).0),
    ensures
        eval_declare(n, st, f2) == eval_declare(n, st, f1),
    decreases f1 * 2 + 1, n, 0int,
{
    if *n.variable is Ident {
        lemma_larger_budget_same_result(*n.content, st, f1, f2);
    }
}

proof fn lemma_budget_assign(n: AssignView, st: Frames, f1: nat, f2: nat)
    requires
        f1 <= f2,
        !out_of_budget(eval_assign(n, st, f1).0),
    ensures
        eval_assign(n, st, f2) == eval_assign(n, st, f1),
    decreases f1 * 2 + 1, n, 0int,
{
    if *n.variable is Ident {
        lemma_larger_budget_same_result(*n.content, st, f1, f2);
    }
}

proof fn lemma_budget_procedure(n: ProcedureView, st: Frames, f1: nat, f2: nat)
    requires
        f1 <= f2,
        !out_of_budget(eval_procedure(n, st, f1).0),
    ensures
        eval_procedure(n, st, f2) == eval_procedure(n, st, f1),
    decreases f1 * 2 + 1, n, 0int,
{
    match n.return_type {
        Some(ty) => lemma_larger_budget_same_result(*ty, st, f1, f2),
        None => {},
    }
}

proof fn lemma_budget_members(
    members: Seq<(Seq<char>, AstView)>,
    i: int,
    st: Frames,
    f1: nat,
    f2: nat,
    acc: Seq<(Seq<char>, AstView)>,
)
    requires
        f1 <= f2,
        !out_of_budget(eval_members(members, i, st, f1, acc).0),
    ensures
        eval_members(members, i, st, f2, acc) == eval_members(members, i, st, f1, acc),
    decreases f1 * 2 + 1, members, members.len() - i,
{
    if 0 <= i < members.len() {
        lemma_larger_budget_same_result(members[i].1, st, f1, f2);
        let (r, st1) = eval(members[i].1, st, f1);
        match r {
            Ok(v) => lemma_budget_members(
                members,
                i + 1,
                st1,
                f1,
                f2,
                with_member(acc, members[i].0, literal_of(v)),
            ),
            Err(_) => {},
        }
    }
}

proof fn lemma_budget_fields(
    fields: Seq<ArgumentView>,
    i: int,
    st: Frames,
    f1: nat,
    f2: nat,
    acc: Seq<FieldView>,
)
    requires
        f1 <= f2,
        !out_of_budget(eval_fields(fields, i, st, f1, acc).0),
    ensures
        eval_fields(fields, i, st, f2, acc) == eval_fields(fields, i, st, f1, acc),
    decreases f1 * 2 + 1, fields, fields.len() - i,
{
    if 0 <= i < fields.len() {
        let f = fields[i];
        lemma_larger_budget_same_result(*f.ty, st, f1, f2);
        let (r, st1) = eval(*f.ty, st, f1);
        match as_type(r, span_of(*f.ty)) {
            Ok(t) => match f.default {
                None => lemma_budget_fields(
                    fields,
                    i + 1,
                    st1,
                    f1,
                    f2,
                    with_field(acc, FieldView { name: f.name.name, ty: t, default: None }),
                ),
                Some(d) => {
                    lemma_larger_budget_same_result(*d, st1, f1, f2);
                    let (r2, st2) = eval(*d, st1, f1);
                    match r2 {
                        Ok(v) => lemma_budget_fields(
                            fields,
                            i + 1,
                            st2,
                            f1,
                            f2,
                            with_field(
                                acc,
                                FieldView { name: f.name.name, ty: t, default: Some(literal_of(v)) },
                            ),
                        ),
                        Err(_) => {},
                    }
                },
            },
            Err(_) => {},
        }
    }
}

proof fn lemma_budget_body(
    items: Seq<AstView>,
    i: int,
    st: Frames,
    f1: nat,
    f2: nat,
    members: Seq<(Seq<char>, AstView)>,
    fields: Seq<FieldView>,
)
    requires
        f1 <= f2,
        !out_of_budget(eval_body(items, i, st, f1, members, fields).0),
    ensures
        eval_body(items, i, st, f2, members, fields) == eval_body(
            items,
            i,
            st,
            f1,
            members,
            fields,
        ),
    decreases f1 * 2 + 1, items, items.len() - i,
{
    if 0 <= i < items.len() {
        match items[i] {
            AstView::Declare(d) => match *d.variable {
                AstView::Ident(id) => if is_inst(d.flags) {
                    match d.ty {
                        Some(ty) => {
                            lemma_larger_budget_same_result(*ty, st, f1, f2);
                            let (r, st1) = eval(*ty, st, f1);
                            match as_type(r, span_of(*ty)) {
                                Ok(t) => {
                                    lemma_larger_budget_same_result(*d.content, st1, f1, f2);
                                    let (r2, st2) = eval(*d.content, st1, f1);
                                    match r2 {
                                        Ok(v) => lemma_budget_body(
                                            items,
                                            i + 1,
                                            st2,
                                            f1,
                                            f2,
                                            members,
                                            with_field(
                                                fields,
                                                FieldView {
                                                    name: id.name,
                                                    ty: t,
                                                    default: Some(literal_of(v)),
                                                },
                                            ),
                                        ),
                                        Err(_) => {},
                                    }
                                },
                                Err(_) => {},
                            }
                        },
                        None => {},
                    }
                } else {
                    lemma_larger_budget_same_result(*d.content, st, f1, f2);
                    let (r, st1) = eval(*d.content, st, f1);
                    match r {
                        Ok(v) => lemma_budget_body(
                            items,
                            i + 1,
                            st1,
                            f1,
                            f2,
                            with_member(members, id.name, literal_of(v)),
                            fields,
                        ),
                        Err(_) => {},
                    }
                },
                _ => {},
            },
            _ => lemma_budget_body(items, i + 1, st, f1, f2, members, fields),
        }
    }
}

proof fn lemma_budget_class(n: ClassView, st: Frames, f1: nat, f2: nat)
    requires
        f1 <= f2,
        !out_of_budget(eval_class(n, st, f1).0),
    ensures
        eval_class(n, st, f2) == eval_class(n, st, f1),
    decreases f1 * 2 + 1, n, 0int,
{
    lemma_budget_members(n.implementations, 0, st, f1, f2, Seq::empty());
    let (mr, st1) = eval_members(n.implementations, 0, st, f1, Seq::empty());
    match mr {
        Ok(members) => {
            lemma_budget_fields(n.inst_fields, 0, st1, f1, f2, Seq::empty());
            let (fr, st2) = eval_fields(n.inst_fields, 0, st1, f1, Seq::empty());
            match fr {
                Ok(fields) => match n.content {
                    Some(b) => lemma_budget_body(b.content, 0, st2, f1, f2, members, fields),
                    None => {},
                },
                Err(_) => {},
            }
        },
        Err(_) => {},
    }
}

/// What a type is at run time without running out of the budget, it is
/// under every larger budget, and the same frames are left.
pub proof fn lemma_larger_budget_same_type(t: TypeView, st: Frames, f1: nat, f2: nat)
    requires
        f1 <= f2,
        !out_of_budget(type_value(t, st, f1).0),
    ensures
        type_value(t, st, f2) == type_value(t, st, f1),
    decreases t,
{
    match t {
        TypeView::Instance(i) => lemma_budget_instance_value(i, st, f1, f2),
        TypeView::Definition(d) => lemma_budget_definition_value(d, st, f1, f2),
        TypeView::Any => {},
        TypeView::Return(inner) => lemma_larger_budget_same_type(*inner, st, f1, f2),
    }
}

proof fn lemma_budget_types_value(
    types: Seq<TypeView>,
    i: int,
    st: Frames,
    f1: nat,
    f2: nat,
    acc: Seq<TypeView>,
)
    requires
        f1 <= f2,
        !out_of_budget(types_value(types, i, st, f1, acc).0),
    ensures
        types_value(types, i, st, f2, acc) == types_value(types, i, st, f1, acc),
    decreases types, types.len() - i,
{
    if 0 <= i < types.len() {
        lemma_larger_budget_same_type(types[i], st, f1, f2);
        let (r, st1) = type_value(types[i], st, f1);
        match r {
            Ok(t) => lemma_budget_types_value(types, i + 1, st1, f1, f2, acc.push(t)),
            Err(_) => {},
        }
    }
}

proof fn lemma_budget_fields_value(
    fields: Seq<FieldView>,
    i: int,
    st: Frames,
    f1: nat,
    f2: nat,
    acc: Seq<FieldView>,
)
    requires
        f1 <= f2,
        !out_of_budget(fields_value(fields, i, st, f1, acc).0),
    ensures
        fields_value(fields, i, st, f2, acc) == fields_value(fields, i, st, f1, acc),
    decreases fields, fields.len() - i,
{
    if 0 <= i < fields.len() {
        let f = fields[i];
        lemma_larger_budget_same_type(f.ty, st, f1, f2);
        let (r, st1) = type_value(f.ty, st, f1);
        match r {
            Ok(t) => match f.default {
                None => lemma_budget_fields_value(
                    fields,
                    i + 1,
                    st1,
                    f1,
                    f2,
                    with_field(acc, FieldView { name: f.name, ty: t, default: None }),
                ),
                Some(d) => {
                    lemma_larger_budget_same_result(d, st1, f1, f2);
                    let (r2, st2) = eval(d, st1, f1);
                    match r2 {
                        Ok(v) => lemma_budget_fields_value(
                            fields,
                            i + 1,
                            st2,
                            f1,
                            f2,
                            with_field(
                                acc,
                                FieldView { name: f.name, ty: t, default: Some(literal_of(v)) },
                            ),
                        ),
                        Err(_) => {},
                    }
                },
            },
            Err(_) => {},
        }
    }
}

proof fn lemma_budget_definition_value(d: TypeDefinitionView, st: Frames, f1: nat, f2: nat)
    requires
        f1 <= f2,
        !out_of_budget(definition_value(d, st, f1).0),
    ensures
        definition_value(d, st, f2) == definition_value(d, st, f1),
    decreases d,
{
    lemma_budget_members(d.implementations, 0, st, f1, f2, Seq::empty());
    let (mr, st1) = eval_members(d.implementations, 0, st, f1, Seq::empty());
    if mr is Ok {
        lemma_budget_fields_value(d.inst_fields, 0, st1, f1, f2, Seq::empty());
    }
}

proof fn lemma_budget_instance_value(i: TypeInstanceView, st: Frames, f1: nat, f2: nat)
    requires
        f1 <= f2,
        !out_of_budget(instance_value(i, st, f1).0),
    ensures
        instance_value(i, st, f2) == instance_value(i, st, f1),
    decreases i,
{
    lemma_budget_types_value(i.type_args, 0, st, f1, f2, Seq::empty());
    let (ar, st1) = types_value(i.type_args, 0, st, f1, Seq::empty());
    if ar is Ok {
        lemma_budget_definition_value(i.implementation, st1, f1, f2);
    }
}

} // verus!
