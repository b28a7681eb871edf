//! The definitions that classes and primitive types give hold their members
//! and their fields in the order of the names, and so no name twice.
use vstd::prelude::*;
use crate::ast::AstView;
use crate::ast::argument::ArgumentView;
use crate::ast::check::{check_body, check_class, check_class_body, check_fields, TypeFrames};
use crate::ast::class::ClassView;
use crate::ast::eval::{eval_body, eval_class, eval_fields, eval_members, Frames};
use crate::primitives::{builtin_ops, members_upto, prim_definition};
use crate::types::convert::{definition_value, fields_value};
use crate::types::namespace::{ordered_fields, ordered_members, lemma_members_of_ordered, lemma_with_field_ordered, lemma_with_member_ordered, members_of};
use crate::types::typeobj::{FieldView, TypeDefinitionView, TypeView};
use crate::types::value::{Prim, ValueView};

verus! {

pub proof fn lemma_eval_members_ordered(
    members: Seq<(Seq<char>, AstView)>,
    i: int,
    st: Frames,
    fuel: nat,
    acc: Seq<(Seq<char>, AstView)>,
)
    requires
        ordered_members(acc),
    ensures
        eval_members(members, i, st, fuel, acc).0 matches Ok(r) ==> ordered_members(r),
    decreases members.len() - i,
{
    if 0 <= i < members.len() {
        let (r, st1) = crate::ast::eval::eval(members[i].1, st, fuel);
        match r {
            Ok(v) => {
                let next = crate::types::namespace::with_member(
                    acc,
                    members[i].0,
                    crate::ast::eval::literal_of(v),
                );
                lemma_with_member_ordered(acc, members[i].0, crate::ast::eval::literal_of(v));
                lemma_eval_members_ordered(members, i + 1, st1, fuel, next);
            },
            Err(_) => {},
        }
    }
}

pub proof fn lemma_eval_fields_ordered(
    fields: Seq<ArgumentView>,
    i: int,
    st: Frames,
    fuel: nat,
    acc: Seq<FieldView>,
)
    requires
        ordered_fields(acc),
    ensures
        eval_fields(fields, i, st, fuel, acc).0 matches Ok(r) ==> ordered_fields(r),
    decreases fields.len() - i,
{
    if 0 <= i < fields.len() {
        let f = fields[i];
        let (r, st1) = crate::ast::eval::eval(*f.ty, st, fuel);
        match crate::ast::eval::as_type(r, crate::ast::span::span_of(*f.ty)) {
            Err(_) => {},
            Ok(t) => match f.default {
                None => {
                    let field = FieldView { name: f.name.name, ty: t, default: None };
                    lemma_with_field_ordered(acc, field);
                    lemma_eval_fields_ordered(
                        fields,
                        i + 1,
                        st1,
                        fuel,
                        crate::types::namespace::with_field(acc, field),
                    );
                },
                Some(d) => {
                    let (r2, st2) = crate::ast::eval::eval(*d, st1, fuel);
                    match r2 {
                        Err(_) => {},
                        Ok(v) => {
                            let field = FieldView {
                                name: f.name.name,
                                ty: t,
                                default: Some(crate::ast::eval::literal_of(v)),
                            };
                            lemma_with_field_ordered(acc, field);
                            lemma_eval_fields_ordered(
                                fields,
                                i + 1,
                                st2,
                                fuel,
                                crate::types::namespace::with_field(acc, field),
                            );
                        },
                    }
                },
            },
        }
    }
}

pub proof fn lemma_eval_body_ordered(
    items: Seq<AstView>,
    i: int,
    st: Frames,
    fuel: nat,
    members: Seq<(Seq<char>, AstView)>,
    fields: Seq<FieldView>,
)
    requires
        ordered_members(members),
        ordered_fields(fields),
    ensures
        eval_body(items, i, st, fuel, members, fields).0 matches Ok(r) ==> ordered_members(r.0)
            && ordered_fields(r.1),
    decreases items.len() - i,
{
    if 0 <= i < items.len() {
        match items[i] {
            AstView::Declare(d) => match *d.variable {
                AstView::Ident(id) => if crate::ast::eval::is_inst(d.flags) {
                    match d.ty {
                        Some(ty) => {
                            let (r, st1) = crate::ast::eval::eval(*ty, st, fuel);
                            match crate::ast::eval::as_type(r, crate::ast::span::span_of(*ty)) {
                                Err(_) => {},
                                Ok(t) => {
                                    let (r2, st2) = crate::ast::eval::eval(*d.content, st1, fuel);
                                    match r2 {
                                        Err(_) => {},
                                        Ok(v) => {
                                            let field = FieldView {
                                                name: id.name,
                                                ty: t,
                                                default: Some(crate::ast::eval::literal_of(v)),
                                            };
                                            lemma_with_field_ordered(fields, field);
                                            lemma_eval_body_ordered(
                                                items,
                                                i + 1,
                                                st2,
                                                fuel,
                                                members,
                                                crate::types::namespace::with_field(fields, field),
                                            );
                                        },
                                    }
                                },
                            }
                        },
                        None => {},
                    }
                } else {
                    let (r, st1) = crate::ast::eval::eval(*d.content, st, fuel);
                    match r {
                        Err(_) => {},
                        Ok(v) => {
                            lemma_with_member_ordered(
                                members,
                                id.name,
                                crate::ast::eval::literal_of(v),
                            );
                            lemma_eval_body_ordered(
                                items,
                                i + 1,
                                st1,
                                fuel,
                                crate::types::namespace::with_member(
                                    members,
                                    id.name,
                                    crate::ast::eval::literal_of(v),
                                ),
                                fields,
                            );
                        },
                    }
                },
                _ => {},
            },
            _ => {
                lemma_eval_body_ordered(items, i + 1, st, fuel, members, fields);
            },
        }
    }
}

/// The definition that a class literal evaluates to holds its members and
/// fields in the order of their names, and no name twice: of two
/// declarations of one name the later stays.
pub proof fn lemma_eval_class_wf(n: ClassView, st: Frames, fuel: nat)
    ensures
        eval_class(n, st, fuel).0 matches Ok(ValueView::Type(TypeView::Definition(d))) ==> d.wf(),
{
    lemma_eval_members_ordered(n.implementations, 0, st, fuel, Seq::empty());
    let (mr, st1) = eval_members(n.implementations, 0, st, fuel, Seq::empty());
    match mr {
        Err(_) => {},
        Ok(members) => {
            lemma_eval_fields_ordered(n.inst_fields, 0, st1, fuel, Seq::empty());
            let (fr, st2) = eval_fields(n.inst_fields, 0, st1, fuel, Seq::empty());
            match fr {
                Err(_) => {},
                Ok(fields) => match n.content {
                    Some(b) => {
                        lemma_eval_body_ordered(b.content, 0, st2, fuel, members, fields);
                    },
                    None => {},
                },
            }
        },
    }
}

pub proof fn lemma_check_fields_ordered(
    fields: Seq<ArgumentView>,
    i: int,
    st: TypeFrames,
    acc: Seq<FieldView>,
)
    requires
        ordered_fields(acc),
    ensures
        check_fields(fields, i, st, acc).0 matches Ok(r) ==> ordered_fields(r),
    decreases fields.len() - i,
{
    if 0 <= i < fields.len() {
        let f = fields[i];
        match crate::ast::check::type_named(st, *f.ty) {
            Err(_) => {},
            Ok(declared) => match f.default {
                None => {
                    let field = FieldView { name: f.name.name, ty: declared, default: None };
                    lemma_with_field_ordered(acc, field);
                    lemma_check_fields_ordered(
                        fields,
                        i + 1,
                        st,
                        crate::types::namespace::with_field(acc, field),
                    );
                },
                Some(d) => {
                    let (r, st1) = crate::ast::check::check(*d, st);
                    match r {
                        Err(_) => {},
                        Ok(t) => if declared == t {
                            let field = FieldView {
                                name: f.name.name,
                                ty: declared,
                                default: Some(*d),
                            };
                            lemma_with_field_ordered(acc, field);
                            lemma_check_fields_ordered(
                                fields,
                                i + 1,
                                st1,
                                crate::types::namespace::with_field(acc, field),
                            );
                        },
                    }
                },
            },
        }
    }
}

pub proof fn lemma_check_body_ordered(
    items: Seq<AstView>,
    i: int,
    st: TypeFrames,
    has_args: bool,
    members: Seq<(Seq<char>, AstView)>,
    fields: Seq<FieldView>,
)
    requires
        ordered_members(members),
        ordered_fields(fields),
    ensures
        check_body(items, i, st, has_args, members, fields).0 matches Ok(r) ==> ordered_members(
            r.0,
        ) && ordered_fields(r.1),
    decreases items.len() - i,
{
    if 0 <= i < items.len() {
        let (r, st1) = crate::ast::check::check(items[i], st);
        match r {
            Err(_) => {},
            Ok(_) => match items[i] {
                AstView::Declare(d) => match *d.variable {
                    AstView::Ident(id) => if crate::ast::eval::is_inst(d.flags) {
                        if !has_args {
                            match d.ty {
                                Some(ty) => match crate::ast::check::type_named(st1, *ty) {
                                    Err(_) => {},
                                    Ok(declared) => {
                                        let field = FieldView {
                                            name: id.name,
                                            ty: declared,
                                            default: Some(*d.content),
                                        };
                                        lemma_with_field_ordered(fields, field);
                                        lemma_check_body_ordered(
                                            items,
                                            i + 1,
                                            st1,
                                            has_args,
                                            members,
                                            crate::types::namespace::with_field(fields, field),
                                        );
                                    },
                                },
                                None => {},
                            }
                        }
                    } else {
                        lemma_with_member_ordered(members, id.name, *d.content);
                        lemma_check_body_ordered(
                            items,
                            i + 1,
                            st1,
                            has_args,
                            crate::types::namespace::with_member(members, id.name, *d.content),
                            fields,
                        );
                    },
                    _ => {
                        lemma_check_body_ordered(items, i + 1, st1, has_args, members, fields);
                    },
                },
                _ => {
                    lemma_check_body_ordered(items, i + 1, st1, has_args, members, fields);
                },
            },
        }
    }
}

/// The definition that a class literal is of holds its members and fields
/// in the order of their names, and no name twice: of two declarations of
/// one name the later stays.
pub proof fn lemma_check_class_wf(n: ClassView, st: TypeFrames)
    ensures
        check_class(n, st).0 matches Ok(TypeView::Definition(d)) ==> d.wf(),
{
    let st0 = crate::types::sym_table::push_frame(
        st,
        None,
        crate::types::sym_table::FrameType::Normal,
    );
    let (mr, st1) = crate::ast::check::check_members(n.implementations, 0, st0);
    match mr {
        Err(_) => {},
        Ok(()) => {
            lemma_check_fields_ordered(n.inst_fields, 0, st1, Seq::empty());
            let (fr, st2) = check_fields(n.inst_fields, 0, st1, Seq::empty());
            lemma_members_of_ordered(n.implementations, 0, Seq::empty());
            match fr {
                Err(_) => {},
                Ok(fields) => match n.content {
                    Some(b) => {
                        lemma_check_body_ordered(
                            b.content,
                            0,
                            st2,
                            n.args is Some,
                            members_of(n.implementations, 0, Seq::empty()),
                            fields,
                        );
                    },
                    None => {},
                },
            }
        },
    }
}

pub proof fn lemma_members_upto_ordered(p: Prim, n: int)
    ensures
        ordered_members(members_upto(p, n)),
    decreases n,
{
    if n > 0 {
        lemma_members_upto_ordered(p, n - 1);
        let op = builtin_ops()[n - 1];
        lemma_with_member_ordered(
            members_upto(p, n - 1),
            crate::primitives::op_name(op),
            crate::primitives::member_literal(p, op),
        );
    }
}

/// The definition of a primitive type holds its members in the order of
/// their names, and no name twice.
pub proof fn lemma_prim_definition_wf(p: Prim)
    ensures
        prim_definition(p).wf(),
{
    lemma_members_upto_ordered(p, builtin_ops().len() as int);
}

pub proof fn lemma_fields_value_ordered(
    fields: Seq<FieldView>,
    i: int,
    st: Frames,
    fuel: nat,
    acc: Seq<FieldView>,
)
    requires
        ordered_fields(acc),
    ensures
        fields_value(fields, i, st, fuel, acc).0 matches Ok(r) ==> ordered_fields(r),
    decreases fields.len() - i,
{
    if 0 <= i < fields.len() {
        let f = fields[i];
        let (r, st1) = crate::types::convert::type_value(f.ty, st, fuel);
        match r {
            Err(_) => {},
            Ok(t) => match f.default {
                None => {
                    let field = FieldView { name: f.name, ty: t, default: None };
                    lemma_with_field_ordered(acc, field);
                    lemma_fields_value_ordered(
                        fields,
                        i + 1,
                        st1,
                        fuel,
                        crate::types::namespace::with_field(acc, field),
                    );
                },
                Some(d) => {
                    let (r2, st2) = crate::ast::eval::eval(d, st1, fuel);
                    match r2 {
                        Err(_) => {},
                        Ok(v) => {
                            let field = FieldView {
                                name: f.name,
                                ty: t,
                                default: Some(crate::ast::eval::literal_of(v)),
                            };
                            lemma_with_field_ordered(acc, field);
                            lemma_fields_value_ordered(
                                fields,
                                i + 1,
                                st2,
                                fuel,
                                crate::types::namespace::with_field(acc, field),
                            );
                        },
                    }
                },
            },
        }
    }
}

/// A definition at run time holds its members and fields in the order of
/// their names, and no name twice.
pub proof fn lemma_definition_value_wf(d: TypeDefinitionView, st: Frames, fuel: nat)
    ensures
        definition_value(d, st, fuel).0 matches Ok(v) ==> v.wf(),
{
    lemma_eval_members_ordered(d.implementations, 0, st, fuel, Seq::empty());
    let (mr, st1) = eval_members(d.implementations, 0, st, fuel, Seq::empty());
    match mr {
        Err(_) => {},
        Ok(_) => {
            lemma_fields_value_ordered(d.inst_fields, 0, st1, fuel, Seq::empty());
        },
    }
}

} // verus!
