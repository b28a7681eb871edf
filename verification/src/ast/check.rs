//! What typechecking means: the static type of a tree in a table of types.
//!
//! Typechecking is a function from a tree and the table before to the type
//! of the tree, or the first error, and the table after. A node changes the
//! table only by the declarations that it introduces itself.
use vstd::prelude::*;
use crate::ast::AstView;
use crate::ast::argument::ArgumentView;
use crate::ast::assign::AssignView;
use crate::ast::binary_opr::BinaryOprView;
use crate::ast::block::BlockView;
use crate::ast::call::CallView;
use crate::ast::class::ClassView;
use crate::ast::declare::DeclareView;
use crate::ast::eval::{class_name, find_member, is_inst, name_error};
use crate::ast::member::MemberView;
use crate::ast::procedure::ProcedureView;
use crate::ast::span::span_of;
use crate::errors::{NameErrorKind, TypeErrorKind, ZErrorView};
use crate::primitives::{implementation_of, instance_of, prim_name, prim_type, proc_type, type_of};
use crate::types::namespace::{members_of, with_field, with_member};
use crate::types::position::Span;
use crate::types::sym_table::{assign_in, drop_frame, lookup, push_frame, FrameType, FrameView};
use crate::types::token::OprType;
use crate::types::typeobj::{FieldView, TypeDefinitionView, TypeView};
use crate::types::value::{Prim, ValueView};

verus! {

/// The frames of a table of types.
pub type TypeFrames = Seq<FrameView<TypeView>>;

/// A type, or the first error, and the frames that typechecking leaves behind.
pub type Checked = (Result<TypeView, ZErrorView>, TypeFrames);

/// A type error that has no pair of types to show.
pub open spec fn type_error(kind: TypeErrorKind, span: Option<Span>) -> ZErrorView {
    ZErrorView::Type { kind, expected: TypeView::Any, found: TypeView::Any, span }
}

/// The error for two types that have to agree and do not.
pub open spec fn mismatch(expected: TypeView, found: TypeView, span: Option<Span>) -> ZErrorView {
    ZErrorView::Type { kind: TypeErrorKind::Mismatch, expected, found, span }
}

/// The table of the types that names stand for, frame by frame.
pub open spec fn typedef_frames<V>(frames: Seq<FrameView<V>>) -> TypeFrames {
    Seq::new(
        frames.len(),
        |i: int|
            FrameView {
                heap: frames[i].typedefs,
                defer: Seq::empty(),
                frame_data: None,
                typedefs: Map::empty(),
                ty: frames[i].ty,
            },
    )
}

/// The type that `name` stands for, as seen from the innermost frame.
pub open spec fn lookup_typedef<V>(frames: Seq<FrameView<V>>, name: Seq<char>) -> Option<TypeView> {
    lookup(typedef_frames(frames), name)
}

/// The type that a type expression names: a name that stands for a type,
/// or a literal type.
pub open spec fn type_named(st: TypeFrames, a: AstView) -> Result<TypeView, ZErrorView> {
    match a {
        AstView::Ident(id) => match lookup_typedef(st, id.name) {
            Some(t) => Ok(t),
            None => Err(type_error(TypeErrorKind::NotAType, id.name_span)),
        },
        AstView::Literal(l) => match l.content {
            ValueView::Type(t) => Ok(t),
            _ => Err(type_error(TypeErrorKind::NotAType, l.span)),
        },
        _ => Err(type_error(TypeErrorKind::NotAType, span_of(a))),
    }
}

/// The table after `name` is declared with type `t` in the innermost frame.
/// A name declared as a type definition also stands for the instances of it.
pub open spec fn declare_type_in(st: TypeFrames, name: Seq<char>, t: TypeView) -> TypeFrames {
    st.update(
        0,
        FrameView {
            heap: st[0].heap.insert(name, t),
            typedefs: match t {
                TypeView::Definition(d) => st[0].typedefs.insert(name, instance_of(d)),
                _ => st[0].typedefs,
            },
            ..st[0]
        },
    )
}

/// Whether a value of type `found` may stand where `expected` is asked
/// for: the two are the same type, or one of them is the wildcard.
pub open spec fn agrees(expected: TypeView, found: TypeView) -> bool {
    expected == TypeView::Any || found == TypeView::Any || expected == found
}

/// What a call of something of type `t` returns: anything for the wildcard,
/// the return type for a procedure type, and nothing for what is not callable.
pub open spec fn proc_return(t: TypeView) -> Option<TypeView> {
    match t {
        TypeView::Any => Some(TypeView::Any),
        TypeView::Instance(i) => if i.name == Some(prim_name(Prim::Proc)) && i.type_args.len() == 1 {
            Some(i.type_args[0])
        } else {
            None
        },
        _ => None,
    }
}

/// The type of the member named `name`: that of its value where the member
/// is a value, and the wildcard where it is still a tree.
pub open spec fn member_type(def: TypeDefinitionView, name: Seq<char>) -> Option<TypeView> {
    match find_member(def, name) {
        Some(AstView::Literal(l)) => Some(type_of(l.content)),
        Some(_) => Some(TypeView::Any),
        None => None,
    }
}

/// Whether a member of that name is among `members`.
pub open spec fn has_member(members: Seq<(Seq<char>, AstView)>, name: Seq<char>) -> bool {
    exists|i: int| 0 <= i < members.len() && (#[trigger] members[i]).0 == name
}

/// The static type of a tree.
pub open spec fn check(a: AstView, st: TypeFrames) -> Checked
    decreases a, 1int,
{
    match a {
        AstView::Literal(n) => (Ok(type_of(n.content)), st),
        AstView::Ident(n) => match lookup(st, n.name) {
            Some(t) => (Ok(t), st),
            None => (Err(name_error(NameErrorKind::Undeclared, n.name, n.name_span)), st),
        },
        AstView::BinaryOpr(n) => check_binary(n, st),
        AstView::Block(n) => {
            let (r, st1) = block_type(n, st, true);
            match r {
                Ok(types) => (Ok(types.0), st1),
                Err(e) => (Err(e), st1),
            }
        },
        AstView::Declare(n) => check_declare(n, st),
        AstView::Assign(n) => check_assign(n, st),
        AstView::Delete(_) => (Ok(prim_type(Prim::Unit)), st),
        AstView::Class(n) => check_class(n, st),
        AstView::Call(n) => check_call(n, st),
        AstView::Member(n) => check_member(n, st),
        AstView::Procedure(n) => check_procedure(n, st),
        AstView::Return(n) => {
            let (r, st1) = check(*n.value, st);
            match r {
                Ok(t) => (Ok(TypeView::Return(Box::new(t))), st1),
                Err(e) => (Err(e), st1),
            }
        },
        AstView::Defer(n) => {
            let (r, st1) = check(*n.content, st);
            match r {
                Ok(_) => (Ok(prim_type(Prim::Unit)), st1),
                Err(e) => (Err(e), st1),
            }
        },
        AstView::UnaryOpr(n) => {
            let (r, st1) = check(*n.operand, st);
            match r {
                Ok(_) => (Err(type_error(TypeErrorKind::NotCore, span_of(a))), st1),
                Err(e) => (Err(e), st1),
            }
        },
    }
}

/// Both operands are checked. `&&` and `||` are of type `bool`; a typecast
/// is of the type that its second operand names. Any other operator is sugar
/// and has no type.
pub open spec fn check_binary(n: BinaryOprView, st: TypeFrames) -> Checked
    decreases n, 0int,
{
    let (r1, st1) = check(*n.operand1, st);
    match r1 {
        Err(e) => (Err(e), st1),
        Ok(_) => {
            let (r2, st2) = check(*n.operand2, st1);
            match r2 {
                Err(e) => (Err(e), st2),
                Ok(_) => match n.ty {
                    OprType::And | OprType::Or => (Ok(prim_type(Prim::Bool)), st2),
                    OprType::TypeCast => (type_named(st2, *n.operand2), st2),
                    _ => (
                        Err(type_error(TypeErrorKind::NotCore, span_of(AstView::BinaryOpr(n)))),
                        st2,
                    ),
                },
            }
        },
    }
}

/// The statements `items[i..]` in order. `last` is the type of the
/// statement before, `ret` the type that the first `ret` statement so far
/// lets flow out. Every further `ret` statement has to let the same type
/// flow out; the first that does not is the error.
pub open spec fn check_items(
    items: Seq<AstView>,
    i: int,
    st: TypeFrames,
    last: TypeView,
    ret: Option<TypeView>,
) -> (Result<(TypeView, Option<TypeView>), ZErrorView>, TypeFrames)
    decreases items, items.len() - i,
{
    if i < 0 || i >= items.len() {
        (Ok((last, ret)), st)
    } else {
        let (r, st1) = check(items[i], st);
        match r {
            Err(e) => (Err(e), st1),
            Ok(TypeView::Return(v)) => match ret {
                Some(rt) => if *v != rt {
                    (Err(mismatch(rt, *v, span_of(items[i]))), st1)
                } else {
                    check_items(items, i + 1, st1, TypeView::Return(v), ret)
                },
                None => check_items(items, i + 1, st1, TypeView::Return(v), Some(*v)),
            },
            Ok(t) => check_items(items, i + 1, st1, t, ret),
        }
    }
}

/// The type of a block and the type that its `ret` statements let flow out.
/// The statements are checked in a frame of their own where `add_set` says
/// so. Where a `ret` statement lets a type flow out, that is the type of
/// the block, whatever its last statement is; else the type of the block is
/// that of its last statement, the unit type for an empty block. The
/// returned type is handed on only from a block without a frame of its own.
pub open spec fn block_type(b: BlockView, st: TypeFrames, add_set: bool) -> (
    Result<(TypeView, Option<TypeView>), ZErrorView>,
    TypeFrames,
)
    decreases b, 0int,
{
    let (r, st1) = check_items(
        b.content,
        0,
        if add_set { push_frame(st, None, FrameType::Normal) } else { st },
        prim_type(Prim::Unit),
        None,
    );
    let after = if add_set { drop_frame(st1) } else { st1 };
    match r {
        Err(e) => (Err(e), after),
        Ok((last, ret)) => match ret {
            Some(rt) => (Ok((rt, if add_set { None } else { ret })), after),
            None => (Ok((last, None)), after),
        },
    }
}

/// A declaration is of the type of its content, which has to be the type
/// that the declaration names, where it names one. The name is declared
/// with that type in the innermost frame.
pub open spec fn check_declare(n: DeclareView, st: TypeFrames) -> Checked
    decreases n, 0int,
{
    match *n.variable {
        AstView::Ident(id) => {
            let (r, st1) = check(*n.content, st);
            match r {
                Err(e) => (Err(e), st1),
                Ok(t) => match n.ty {
                    None => (Ok(t), declare_type_in(st1, id.name, t)),
                    Some(ty) => match type_named(st1, *ty) {
                        Err(e) => (Err(e), st1),
                        Ok(declared) => if declared == t {
                            (Ok(t), declare_type_in(st1, id.name, t))
                        } else {
                            (Err(mismatch(declared, t, span_of(*n.content))), st1)
                        },
                    },
                },
            }
        },
        _ => (Err(type_error(TypeErrorKind::MalformedDeclaration, span_of(*n.variable))), st),
    }
}

/// An assignment is of the type of its content, which has to agree with the
/// type of the name. The name has to be declared, and not as a constant.
pub open spec fn check_assign(n: AssignView, st: TypeFrames) -> Checked
    decreases n, 0int,
{
    match *n.variable {
        AstView::Ident(id) => {
            let (r, st1) = check(*n.content, st);
            match r {
                Err(e) => (Err(e), st1),
                Ok(t) => match assign_in(st1, id.name, t) {
                    Err(kind) => (
                        Err(name_error(kind, id.name, span_of(AstView::Assign(n)))),
                        st1,
                    ),
                    Ok(_) => if agrees(lookup(st1, id.name)->0, t) {
                        (Ok(t), st1)
                    } else {
                        (
                            Err(mismatch(lookup(st1, id.name)->0, t, span_of(*n.content))),
                            st1,
                        )
                    },
                },
            }
        },
        _ => (Err(type_error(TypeErrorKind::MalformedDeclaration, span_of(*n.variable))), st),
    }
}

/// The trees `items[i..]` are checked in order; their types do not matter.
pub open spec fn check_all(items: Seq<AstView>, i: int, st: TypeFrames) -> (
    Result<(), ZErrorView>,
    TypeFrames,
)
    decreases items, items.len() - i,
{
    if i < 0 || i >= items.len() {
        (Ok(()), st)
    } else {
        let (r, st1) = check(items[i], st);
        match r {
            Err(e) => (Err(e), st1),
            Ok(_) => check_all(items, i + 1, st1),
        }
    }
}

/// A call is of the type that the called expression returns.
pub open spec fn check_call(n: CallView, st: TypeFrames) -> Checked
    decreases n, 0int,
{
    let (r, st1) = check(*n.called, st);
    match r {
        Err(e) => (Err(e), st1),
        Ok(t) => {
            let (ar, st2) = check_all(n.args, 0, st1);
            match ar {
                Err(e) => (Err(e), st2),
                Ok(()) => match proc_return(t) {
                    Some(ret) => (Ok(ret), st2),
                    None => (Err(type_error(TypeErrorKind::NotCallable, span_of(*n.called))), st2),
                },
            }
        },
    }
}

/// A member access is of the type of the member in the namespace of the
/// type of the parent. Of a parent of the wildcard type nothing is known, and
/// its members are of the wildcard type too.
pub open spec fn check_member(n: MemberView, st: TypeFrames) -> Checked
    decreases n, 0int,
{
    let (r, st1) = check(*n.parent, st);
    match r {
        Err(e) => (Err(e), st1),
        Ok(TypeView::Any) => (Ok(TypeView::Any), st1),
        Ok(t) => match member_type(implementation_of(t), n.name) {
            Some(m) => (Ok(m), st1),
            None => (
                Err(type_error(TypeErrorKind::NoSuchMember, span_of(AstView::Member(n)))),
                st1,
            ),
        },
    }
}

/// The parameters `params[i..]` are declared in the innermost frame with the types that they name.
pub open spec fn declare_params(params: Seq<ArgumentView>, i: int, st: TypeFrames) -> (
    Result<(), ZErrorView>,
    TypeFrames,
)
    decreases params.len() - i,
{
    if i < 0 || i >= params.len() {
        (Ok(()), st)
    } else {
        match type_named(st, *params[i].ty) {
            Err(e) => (Err(e), st),
            Ok(t) => declare_params(params, i + 1, declare_type_in(st, params[i].name.name, t)),
        }
    }
}

/// What of a procedure literal is checked inside its own frame: the
/// parameters are declared, the return type is named, and the body has to be
/// of that type.
pub open spec fn check_procedure_body(n: ProcedureView, st: TypeFrames) -> Checked
    decreases n, 0int,
{
    let (pr, st1) = declare_params(n.args, 0, st);
    match pr {
        Err(e) => (Err(e), st1),
        Ok(()) => {
            let declared = match n.return_type {
                Some(ty) => type_named(st1, *ty),
                None => Ok(prim_type(Prim::Unit)),
            };
            match declared {
                Err(e) => (Err(e), st1),
                Ok(ret) => {
                    let (br, st2) = block_type(n.content, st1, false);
                    match br {
                        Err(e) => (Err(e), st2),
                        Ok((body, _)) => if agrees(ret, body) {
                            (Ok(proc_type(ret)), st2)
                        } else {
                            (
                                Err(mismatch(ret, body, span_of(AstView::Block(n.content)))),
                                st2,
                            )
                        },
                    }
                },
            }
        },
    }
}

/// A procedure literal is of the procedure type of its return type. It is
/// checked in a frame of its own, a function frame for a function.
pub open spec fn check_procedure(n: ProcedureView, st: TypeFrames) -> Checked
    decreases n, 1int,
{
    let (r, st1) = check_procedure_body(
        n,
        push_frame(st, None, if n.is_fn { FrameType::Function } else { FrameType::Normal }),
    );
    (r, drop_frame(st1))
}

/// The members `members[i..]` are checked in order.
pub open spec fn check_members(members: Seq<(Seq<char>, AstView)>, i: int, st: TypeFrames) -> (
    Result<(), ZErrorView>,
    TypeFrames,
)
    decreases members, members.len() - i,
{
    if i < 0 || i >= members.len() {
        (Ok(()), st)
    } else {
        let (r, st1) = check(members[i].1, st);
        match r {
            Err(e) => (Err(e), st1),
            Ok(_) => check_members(members, i + 1, st1),
        }
    }
}

/// The instance fields `fields[i..]` in order, behind those in `acc`. The
/// type and the default of a field are checked separately, and the type of
/// the default has to be the declared type.
pub open spec fn check_fields(
    fields: Seq<ArgumentView>,
    i: int,
    st: TypeFrames,
    acc: Seq<FieldView>,
) -> (Result<Seq<FieldView>, ZErrorView>, TypeFrames)
    decreases fields, fields.len() - i,
{
    if i < 0 || i >= fields.len() {
        (Ok(acc), st)
    } else {
        let f = fields[i];
        match type_named(st, *f.ty) {
            Err(e) => (Err(e), st),
            Ok(declared) => match f.default {
                None => check_fields(
                    fields,
                    i + 1,
                    st,
                    with_field(acc,FieldView { name: f.name.name, ty: declared, default: None }),
                ),
                Some(d) => {
                    let (r, st1) = check(*d, st);
                    match r {
                        Err(e) => (Err(e), st1),
                        Ok(t) => if declared == t {
                            check_fields(
                                fields,
                                i + 1,
                                st1,
                                with_field(acc,
                                    FieldView { name: f.name.name, ty: declared, default: Some(*d) },
                                ),
                            )
                        } else {
                            (Err(mismatch(declared, t, span_of(*d))), st1)
                        },
                    }
                },
            },
        }
    }
}

/// What the statements `items[i..]` of a class body add to the members and
/// the fields collected so far. Every statement is checked. A declaration
/// flagged as an instance field adds a field with its declared type and its
/// content as the default; there may be none beside a constructor argument
/// list. Any other declaration adds a member.
pub open spec fn check_body(
    items: Seq<AstView>,
    i: int,
    st: TypeFrames,
    has_args: bool,
    members: Seq<(Seq<char>, AstView)>,
    fields: Seq<FieldView>,
) -> (Result<(Seq<(Seq<char>, AstView)>, Seq<FieldView>), ZErrorView>, TypeFrames)
    decreases items, items.len() - i,
{
    if i < 0 || i >= items.len() {
        (Ok((members, fields)), st)
    } else {
        let (r, st1) = check(items[i], st);
        match r {
            Err(e) => (Err(e), st1),
            Ok(_) => match items[i] {
                AstView::Declare(d) => match *d.variable {
                    AstView::Ident(id) => if is_inst(d.flags) {
                        if has_args {
                            (
                                Err(
                                    type_error(
                                        TypeErrorKind::ConstructorConflict,
                                        span_of(items[i]),
                                    ),
                                ),
                                st1,
                            )
                        } else {
                            match d.ty {
                                Some(ty) => match type_named(st1, *ty) {
                                    Err(e) => (Err(e), st1),
                                    Ok(declared) => check_body(
                                        items,
                                        i + 1,
                                        st1,
                                        has_args,
                                        members,
                                        with_field(fields,
                                            FieldView {
                                                name: id.name,
                                                ty: declared,
                                                default: Some(*d.content),
                                            },
                                        ),
                                    ),
                                },
                                None => (
                                    Err(
                                        type_error(
                                            TypeErrorKind::MalformedDeclaration,
                                            span_of(items[i]),
                                        ),
                                    ),
                                    st1,
                                ),
                            }
                        }
                    } else {
                        check_body(
                            items,
                            i + 1,
                            st1,
                            has_args,
                            with_member(members, id.name, *d.content),
                            fields,
                        )
                    },
                    _ => check_body(items, i + 1, st1, has_args, members, fields),
                },
                _ => check_body(items, i + 1, st1, has_args, members, fields),
            },
        }
    }
}

/// What of a class literal is checked inside its own frame.
pub open spec fn check_class_body(n: ClassView, st: TypeFrames) -> Checked
    decreases n, 0int,
{
    let (mr, st1) = check_members(n.implementations, 0, st);
    match mr {
        Err(e) => (Err(e), st1),
        Ok(()) => {
            let (fr, st2) = check_fields(n.inst_fields, 0, st1, Seq::empty());
            match fr {
                Err(e) => (Err(e), st2),
                Ok(fields) => {
                    let (br, st3) = match n.content {
                        Some(b) => check_body(
                            b.content,
                            0,
                            st2,
                            n.args is Some,
                            members_of(n.implementations, 0, Seq::empty()),
                            fields,
                        ),
                        None => (Ok((members_of(n.implementations, 0, Seq::empty()), fields)), st2),
                    };
                    match br {
                        Err(e) => (Err(e), st3),
                        Ok((all_members, all_fields)) => if n.args is Some && has_member(
                            all_members,
                            "_init"@,
                        ) {
                            (
                                Err(
                                    type_error(
                                        TypeErrorKind::ConstructorConflict,
                                        span_of(AstView::Class(n)),
                                    ),
                                ),
                                st3,
                            )
                        } else {
                            (
                                Ok(
                                    TypeView::Definition(
                                        TypeDefinitionView {
                                            inst_name: None,
                                            name: Some(class_name(n.is_struct)),
                                            generics: Seq::empty(),
                                            implementations: all_members,
                                            inst_fields: all_fields,
                                        },
                                    ),
                                ),
                                st3,
                            )
                        },
                    }
                },
            }
        },
    }
}

/// A class literal is of the type definition that it describes. Its body
/// is checked in a frame of its own. Declarations flagged as instance fields
/// give the instance fields, every other declaration gives a member. A
/// constructor argument list beside an `_init` member is an error.
pub open spec fn check_class(n: ClassView, st: TypeFrames) -> Checked
    decreases n, 1int,
{
    let (r, st1) = check_class_body(n, push_frame(st, None, FrameType::Normal));
    (r, drop_frame(st1))
}

} // verus!
