//! Typechecking, carried out. Every function here computes what the typechecking
//! semantics says, on the table it is handed.
use vstd::prelude::*;
use vstd::string::StringExecFns;
use crate::ast::{Ast, AstView};
use crate::ast::argument::Argument;
use crate::ast::assign::Assign;
use crate::ast::binary_opr::BinaryOpr;
use crate::ast::block::Block;
use crate::ast::call::Call;
use crate::ast::check::{agrees, block_type, check, check_all, check_assign, check_binary, check_body, check_call, check_class, check_class_body, check_declare, check_fields, check_items, check_member, check_members, check_procedure, check_procedure_body, declare_params, has_member, member_type, mismatch, proc_return, type_named};
use crate::ast::class::Class;
use crate::ast::copy::duplicate_named_asts;
use crate::ast::declare::Declare;
use crate::ast::delete::Delete;
use crate::ast::interpret::{class_name_string, has_inst, type_result_view};
use crate::ast::member::Member;
use crate::ast::procedure::Procedure;
use crate::ast::view::{arguments_view, ast_view, asts_view, fields_view, named_asts_view, type_view};
use crate::errors::{TypeErrorKind, ZError, ZErrorView};
use crate::primitives::make_proc_type;
use crate::types::namespace::{collect_members, put_field, put_member};
use crate::types::sym_table::{FrameType, SymTable};
use crate::types::token::OprType;
use crate::types::typeobj::{Field, Type, TypeDefinition, TypeView};
use crate::types::value::{Prim, Value};

verus! {

pub open spec fn block_result_view(r: Result<(Type, Option<Type>), ZError>) -> Result<
    (TypeView, Option<TypeView>),
    ZErrorView,
> {
    match r {
        Ok((t, Some(ret))) => Ok((t@, Some(ret@))),
        Ok((t, None)) => Ok((t@, None)),
        Err(e) => Err(e@),
    }
}

pub open spec fn unit_result_view(r: Result<(), ZError>) -> Result<(), ZErrorView> {
    match r {
        Ok(()) => Ok(()),
        Err(e) => Err(e@),
    }
}

/// The type that a type expression names.
pub fn named_type(ty_symt: &SymTable<Type>, a: &Ast) -> (r: Result<Type, ZError>)
    requires
        ty_symt.frames_wf(),
    ensures
        type_result_view(r) == type_named(ty_symt@, a@),
{
    proof {
        reveal_with_fuel(ast_view, 3);
    }
    match a {
        Ast::Ident(id) => match ty_symt.get_typedef(&id.name) {
            Some(t) => Ok(t.duplicate()),
            None => Err(ZError::typing(TypeErrorKind::NotAType, id.name_span)),
        },
        Ast::Literal(l) => match &l.content {
            Value::Type(t) => Ok(t.duplicate()),
            _ => Err(ZError::typing(TypeErrorKind::NotAType, l.span)),
        },
        _ => Err(ZError::typing(TypeErrorKind::NotAType, a.span())),
    }
}

/// Whether a value of type `found` may stand where `expected` is asked for.
pub fn types_agree(expected: &Type, found: &Type) -> (r: bool)
    ensures
        r == agrees(expected@, found@),
{
    proof {
        reveal_with_fuel(type_view, 2);
    }
    match (expected, found) {
        (Type::Any, _) => true,
        (_, Type::Any) => true,
        _ => expected.same(found),
    }
}

/// What a call of something of type `t` returns.
pub fn return_of(t: &Type) -> (r: Option<Type>)
    ensures
        match r {
            Some(ret) => proc_return(t@) == Some(ret@),
            None => proc_return(t@) is None,
        },
{
    proof {
        reveal_with_fuel(type_view, 3);
    }
    match t {
        Type::Any => Some(Type::Any),
        Type::Instance(i) => {
            let is_proc = match &i.name {
                Some(n) => *n == Prim::Proc.name(),
                None => false,
            };
            assert(i@.type_args.len() == i.type_args@.len());
            if is_proc && i.type_args.len() == 1 {
                assert(i@.type_args[0] == i.type_args@[0]@);
                Some(i.type_args[0].duplicate())
            } else {
                None
            }
        },
        _ => None,
    }
}

impl TypeDefinition {
    /// The type of the member named `name`.
    pub fn member_type(&self, name: &String) -> (r: Option<Type>)
        ensures
            match r {
                Some(t) => member_type(self@, name@) == Some(t@),
                None => member_type(self@, name@) is None,
            },
    {
        proof {
            reveal_with_fuel(ast_view, 2);
        }
        match self.member(name) {
            Some(Ast::Literal(l)) => Some(l.content.ty()),
            Some(_) => Some(Type::Any),
            None => None,
        }
    }
}

/// Whether a member of that name is among `members`.
pub fn holds_member(members: &Vec<(String, Ast)>, name: &String) -> (r: bool)
    ensures
        r == has_member(named_asts_view(members@), name@),
{
    let ghost views = named_asts_view(members@);
    let mut i: usize = 0;
    while i < members.len()
        invariant
            i <= members.len(),
            views == named_asts_view(members@),
            forall|j: int| 0 <= j < i ==> (#[trigger] views[j]).0 != name@,
        decreases members.len() - i,
    {
        if members[i].0 == *name {
            assert(views[i as int].0 == name@);
            return true;
        }
        i += 1;
    }
    false
}

/// Checks the statements in order and hands back the type of the last one
/// and the type that the `ret` statements among them let flow out.
#[verifier::loop_isolation(false)]
fn check_statements(items: &Vec<Ast>, ty_symt: &mut SymTable<Type>) -> (r: Result<
    (Type, Option<Type>),
    ZError,
>)
    requires
        old(ty_symt).wf(),
    ensures
        final(ty_symt).wf(),
        final(ty_symt)@.len() == old(ty_symt)@.len(),
        (block_result_view(r), final(ty_symt)@) == check_items(
            asts_view(items@),
            0,
            old(ty_symt)@,
            crate::primitives::prim_type(Prim::Unit),
            None,
        ),
    decreases items, 0int,
{
    proof {
        reveal_with_fuel(type_view, 2);
    }
    let ghost st0 = ty_symt@;
    let ghost views = asts_view(items@);
    let ghost unit = crate::primitives::prim_type(Prim::Unit);
    let mut last = Prim::Unit.ty();
    let mut ret: Option<Type> = None;
    let mut i: usize = 0;
    while i < items.len()
        invariant
            ty_symt.wf(),
            ty_symt@.len() == st0.len(),
            i <= items.len(),
            check_items(
                views,
                i as int,
                ty_symt@,
                last@,
                match ret {
                    Some(t) => Some(t@),
                    None => None,
                },
            ) == check_items(views, 0, st0, unit, None),
        decreases items.len() - i,
    {
        assert(views[i as int] == items@[i as int]@);
        let t = match items[i].typecheck(ty_symt) {
            Err(e) => {
                return Err(e);
            },
            Ok(t) => t,
        };
        match &t {
            Type::Return(v) => {
                match &ret {
                    Some(rt) => {
                        if !v.same(rt) {
                            return Err(
                                ZError::mismatch(rt.duplicate(), v.duplicate(), items[i].span()),
                            );
                        }
                    },
                    None => {
                        ret = Some(v.duplicate());
                    },
                }
            },
            _ => {},
        }
        last = t;
        i += 1;
    }
    Ok((last, ret))
}

impl Block {
    /// The type of the block and the type that its `ret` statements let flow
    /// out. The statements are checked in a frame of their own where `add_set`
    /// says so. All `ret` statements have to let the same type flow out; the
    /// first that disagrees is where the error is placed. The type that they
    /// let flow out is then the type of the block, in place of that of its
    /// last statement.
    pub fn block_type(&self, ty_symt: &mut SymTable<Type>, add_set: bool) -> (r: Result<
        (Type, Option<Type>),
        ZError,
    >)
        requires
            old(ty_symt).wf(),
        ensures
            final(ty_symt).wf(),
            final(ty_symt)@.len() == old(ty_symt)@.len(),
            (block_result_view(r), final(ty_symt)@) == block_type(self@, old(ty_symt)@, add_set),
        decreases self, 0int,
    {
        if add_set {
            ty_symt.add_frame(None, FrameType::Normal);
        }
        let checked = check_statements(&self.content, ty_symt);
        if add_set {
            ty_symt.pop_frame();
        }
        match checked {
            Err(e) => Err(e),
            Ok((last, ret)) => match ret {
                Some(rt) => {
                    if add_set {
                        Ok((rt, None))
                    } else {
                        Ok((rt.duplicate(), Some(rt)))
                    }
                },
                None => Ok((last, None)),
            },
        }
    }

    /// The type of the block, checked in a frame of its own.
    pub fn typecheck(&self, ty_symt: &mut SymTable<Type>) -> (r: Result<Type, ZError>)
        requires
            old(ty_symt).wf(),
        ensures
            final(ty_symt).wf(),
            final(ty_symt)@.len() == old(ty_symt)@.len(),
            (type_result_view(r), final(ty_symt)@) == check(AstView::Block(self@), old(ty_symt)@),
        decreases self, 1int,
    {
        match self.block_type(ty_symt, true) {
            Ok(types) => Ok(types.0),
            Err(e) => Err(e),
        }
    }
}

impl BinaryOpr {
    /// The type of the operator: both operands are checked; `&&` and `||`
    /// are of type `bool`, and a typecast is of the type that its second
    /// operand names.
    pub fn typecheck(&self, ty_symt: &mut SymTable<Type>) -> (r: Result<Type, ZError>)
        requires
            old(ty_symt).wf(),
        ensures
            final(ty_symt).wf(),
            final(ty_symt)@.len() == old(ty_symt)@.len(),
            (type_result_view(r), final(ty_symt)@) == check_binary(self@, old(ty_symt)@),
        decreases self, 0int,
    {
        match self.operand1.typecheck(ty_symt) {
            Err(e) => {
                return Err(e);
            },
            Ok(_) => {},
        }
        match self.operand2.typecheck(ty_symt) {
            Err(e) => {
                return Err(e);
            },
            Ok(_) => {},
        }
        match self.ty {
            OprType::And | OprType::Or => Ok(Prim::Bool.ty()),
            OprType::TypeCast => named_type(ty_symt, &self.operand2),
            _ => Err(ZError::typing(TypeErrorKind::NotCore, self.span())),
        }
    }
}

impl Delete {
    /// A deletion is of the unit type.
    pub fn typecheck(&self, _ty_symt: &mut SymTable<Type>) -> (r: Result<Type, ZError>)
        ensures
            *final(_ty_symt) == *old(_ty_symt),
            r matches Ok(t) && t@ == crate::primitives::prim_type(Prim::Unit),
    {
        Ok(Prim::Unit.ty())
    }
}

impl Declare {
    /// The type of the declaration, which declares its name.
    pub fn typecheck(&self, ty_symt: &mut SymTable<Type>) -> (r: Result<Type, ZError>)
        requires
            old(ty_symt).wf(),
        ensures
            final(ty_symt).wf(),
            final(ty_symt)@.len() == old(ty_symt)@.len(),
            (type_result_view(r), final(ty_symt)@) == check_declare(self@, old(ty_symt)@),
        decreases self, 0int,
    {
        match &*self.variable {
            Ast::Ident(id) => {
                assert(ast_view(*self.variable) == AstView::Ident(id@));
                let t = match self.content.typecheck(ty_symt) {
                    Err(e) => {
                        return Err(e);
                    },
                    Ok(t) => t,
                };
                match &self.ty {
                    None => {},
                    Some(ty) => {
                        let declared = match named_type(ty_symt, ty) {
                            Err(e) => {
                                return Err(e);
                            },
                            Ok(d) => d,
                        };
                        if !declared.same(&t) {
                            return Err(ZError::mismatch(declared, t, self.content.span()));
                        }
                    },
                }
                ty_symt.declare_val(&id.name, t.duplicate());
                Ok(t)
            },
            _ => {
                assert(!(ast_view(*self.variable) is Ident));
                Err(ZError::typing(TypeErrorKind::MalformedDeclaration, self.variable.span()))
            },
        }
    }
}

impl Assign {
    /// The type of the assignment.
    pub fn typecheck(&self, ty_symt: &mut SymTable<Type>) -> (r: Result<Type, ZError>)
        requires
            old(ty_symt).wf(),
        ensures
            final(ty_symt).wf(),
            final(ty_symt)@.len() == old(ty_symt)@.len(),
            (type_result_view(r), final(ty_symt)@) == check_assign(self@, old(ty_symt)@),
        decreases self, 0int,
    {
        match &*self.variable {
            Ast::Ident(id) => {
                assert(ast_view(*self.variable) == AstView::Ident(id@));
                let t = match self.content.typecheck(ty_symt) {
                    Err(e) => {
                        return Err(e);
                    },
                    Ok(t) => t,
                };
                match ty_symt.resolve_frame(&id.name) {
                    None => Err(ZError::undeclared(id.name.clone(), self.span())),
                    Some(i) => {
                        assert(ty_symt@[i as int] == ty_symt.frames@[i as int]@);
                        if ty_symt.frames[i].ty == FrameType::Constants {
                            return Err(ZError::immutable(id.name.clone(), self.span()));
                        }
                        let agreed = match ty_symt.get_val(&id.name, None) {
                            Ok(existing) => {
                                if types_agree(existing, &t) {
                                    None
                                } else {
                                    Some(existing.duplicate())
                                }
                            },
                            Err(_) => None,
                        };
                        match agreed {
                            None => Ok(t),
                            Some(existing) => Err(
                                ZError::mismatch(existing, t, self.content.span()),
                            ),
                        }
                    },
                }
            },
            _ => {
                assert(!(ast_view(*self.variable) is Ident));
                Err(ZError::typing(TypeErrorKind::MalformedDeclaration, self.variable.span()))
            },
        }
    }
}

/// Checks the trees in order; their types do not matter.
#[verifier::loop_isolation(false)]
fn check_each(items: &Vec<Ast>, ty_symt: &mut SymTable<Type>) -> (r: Result<(), ZError>)
    requires
        old(ty_symt).wf(),
    ensures
        final(ty_symt).wf(),
        final(ty_symt)@.len() == old(ty_symt)@.len(),
        (unit_result_view(r), final(ty_symt)@) == check_all(asts_view(items@), 0, old(ty_symt)@),
    decreases items, 0int,
{
    let ghost st0 = ty_symt@;
    let ghost views = asts_view(items@);
    let mut i: usize = 0;
    while i < items.len()
        invariant
            ty_symt.wf(),
            ty_symt@.len() == st0.len(),
            i <= items.len(),
            check_all(views, i as int, ty_symt@) == check_all(views, 0, st0),
        decreases items.len() - i,
    {
        assert(views[i as int] == items@[i as int]@);
        match items[i].typecheck(ty_symt) {
            Err(e) => {
                return Err(e);
            },
            Ok(_) => {},
        }
        i += 1;
    }
    Ok(())
}

impl Call {
    /// The type of the call: what the called expression returns.
    pub fn typecheck(&self, ty_symt: &mut SymTable<Type>) -> (r: Result<Type, ZError>)
        requires
            old(ty_symt).wf(),
        ensures
            final(ty_symt).wf(),
            final(ty_symt)@.len() == old(ty_symt)@.len(),
            (type_result_view(r), final(ty_symt)@) == check_call(self@, old(ty_symt)@),
        decreases self, 0int,
    {
        let t = match self.called.typecheck(ty_symt) {
            Err(e) => {
                return Err(e);
            },
            Ok(t) => t,
        };
        match check_each(&self.args, ty_symt) {
            Err(e) => {
                return Err(e);
            },
            Ok(()) => {},
        }
        match return_of(&t) {
            Some(ret) => Ok(ret),
            None => Err(ZError::typing(TypeErrorKind::NotCallable, self.called.span())),
        }
    }
}

impl Member {
    /// The type of the member access.
    pub fn typecheck(&self, ty_symt: &mut SymTable<Type>) -> (r: Result<Type, ZError>)
        requires
            old(ty_symt).wf(),
        ensures
            final(ty_symt).wf(),
            final(ty_symt)@.len() == old(ty_symt)@.len(),
            (type_result_view(r), final(ty_symt)@) == check_member(self@, old(ty_symt)@),
        decreases self, 0int,
    {
        proof {
            reveal_with_fuel(type_view, 2);
        }
        match self.parent.typecheck(ty_symt) {
            Err(e) => Err(e),
            Ok(Type::Any) => Ok(Type::Any),
            Ok(t) => match t.implementation().member_type(&self.name) {
                Some(m) => Ok(m),
                None => Err(ZError::typing(TypeErrorKind::NoSuchMember, self.span())),
            },
        }
    }
}

/// Declares the parameters in the innermost frame with the types that they name.
fn declare_parameters(params: &Vec<Argument>, ty_symt: &mut SymTable<Type>) -> (r: Result<
    (),
    ZError,
>)
    requires
        old(ty_symt).wf(),
    ensures
        final(ty_symt).wf(),
        final(ty_symt)@.len() == old(ty_symt)@.len(),
        (unit_result_view(r), final(ty_symt)@) == declare_params(
            arguments_view(params@),
            0,
            old(ty_symt)@,
        ),
{
    let ghost st0 = ty_symt@;
    let ghost views = arguments_view(params@);
    let mut i: usize = 0;
    while i < params.len()
        invariant
            ty_symt.wf(),
            ty_symt@.len() == st0.len(),
            st0 == old(ty_symt)@,
            i <= params.len(),
            views == arguments_view(params@),
            declare_params(views, i as int, ty_symt@) == declare_params(views, 0, st0),
        decreases params.len() - i,
    {
        assert(views[i as int] == params@[i as int]@);
        match named_type(ty_symt, &params[i].ty) {
            Err(e) => {
                return Err(e);
            },
            Ok(t) => {
                ty_symt.declare_val(&params[i].name.name, t);
            },
        }
        i += 1;
    }
    Ok(())
}

impl Procedure {
    /// What of the literal is checked inside its own frame.
    fn typecheck_body(&self, ty_symt: &mut SymTable<Type>) -> (r: Result<Type, ZError>)
        requires
            old(ty_symt).wf(),
        ensures
            final(ty_symt).wf(),
            final(ty_symt)@.len() == old(ty_symt)@.len(),
            (type_result_view(r), final(ty_symt)@) == check_procedure_body(self@, old(ty_symt)@),
        decreases self, 0int,
    {
        match declare_parameters(&self.args, ty_symt) {
            Err(e) => {
                return Err(e);
            },
            Ok(()) => {},
        }
        let declared = match &self.return_type {
            Some(ty) => named_type(ty_symt, ty),
            None => Ok(Prim::Unit.ty()),
        };
        let ret = match declared {
            Err(e) => {
                return Err(e);
            },
            Ok(t) => t,
        };
        match self.content.block_type(ty_symt, false) {
            Err(e) => Err(e),
            Ok((body, _)) => {
                if types_agree(&ret, &body) {
                    Ok(make_proc_type(ret))
                } else {
                    Err(ZError::mismatch(ret, body, self.content.span()))
                }
            },
        }
    }

    /// The type of the literal: the procedure type of its return type. The
    /// literal is checked in a frame of its own, a function frame for a function.
    pub fn typecheck(&self, ty_symt: &mut SymTable<Type>) -> (r: Result<Type, ZError>)
        requires
            old(ty_symt).wf(),
        ensures
            final(ty_symt).wf(),
            final(ty_symt)@.len() == old(ty_symt)@.len(),
            (type_result_view(r), final(ty_symt)@) == check_procedure(self@, old(ty_symt)@),
        decreases self, 1int,
    {
        ty_symt.add_frame(
            None,
            if self.is_fn { FrameType::Function } else { FrameType::Normal },
        );
        let r = self.typecheck_body(ty_symt);
        ty_symt.pop_frame();
        r
    }
}

/// Checks the members in order.
#[verifier::loop_isolation(false)]
fn check_member_list(members: &Vec<(String, Ast)>, ty_symt: &mut SymTable<Type>) -> (r: Result<
    (),
    ZError,
>)
    requires
        old(ty_symt).wf(),
    ensures
        final(ty_symt).wf(),
        final(ty_symt)@.len() == old(ty_symt)@.len(),
        (unit_result_view(r), final(ty_symt)@) == check_members(
            named_asts_view(members@),
            0,
            old(ty_symt)@,
        ),
    decreases members, 0int,
{
    let ghost st0 = ty_symt@;
    let ghost views = named_asts_view(members@);
    let mut i: usize = 0;
    while i < members.len()
        invariant
            ty_symt.wf(),
            ty_symt@.len() == st0.len(),
            i <= members.len(),
            check_members(views, i as int, ty_symt@) == check_members(views, 0, st0),
        decreases members.len() - i,
    {
        assert(views[i as int].1 == members@[i as int].1@);
        match members[i].1.typecheck(ty_symt) {
            Err(e) => {
                return Err(e);
            },
            Ok(_) => {},
        }
        i += 1;
    }
    Ok(())
}

/// Checks the instance fields in order and hands back what they declare.
#[verifier::loop_isolation(false)]
fn check_field_list(fields: &Vec<Argument>, ty_symt: &mut SymTable<Type>) -> (r: Result<
    Vec<Field>,
    ZError,
>)
    requires
        old(ty_symt).wf(),
    ensures
        final(ty_symt).wf(),
        final(ty_symt)@.len() == old(ty_symt)@.len(),
        (match r {
            Ok(out) => Ok(fields_view(out@)),
            Err(e) => Err(e@),
        }, final(ty_symt)@) == check_fields(
            arguments_view(fields@),
            0,
            old(ty_symt)@,
            Seq::empty(),
        ),
    decreases fields, 0int,
{
    let ghost st0 = ty_symt@;
    let ghost views = arguments_view(fields@);
    let mut out: Vec<Field> = Vec::new();
    assert(fields_view(out@) =~= Seq::empty());
    let mut i: usize = 0;
    while i < fields.len()
        invariant
            ty_symt.wf(),
            ty_symt@.len() == st0.len(),
            i <= fields.len(),
            check_fields(views, i as int, ty_symt@, fields_view(out@)) == check_fields(
                views,
                0,
                st0,
                Seq::empty(),
            ),
        decreases fields.len() - i,
    {
        let f = &fields[i];
        assert(views[i as int] == f@);
        let declared = match named_type(ty_symt, &f.ty) {
            Err(e) => {
                return Err(e);
            },
            Ok(d) => d,
        };
        let default = match &f.default {
            None => None,
            Some(d) => {
                let t = match d.typecheck(ty_symt) {
                    Err(e) => {
                        return Err(e);
                    },
                    Ok(t) => t,
                };
                if !declared.same(&t) {
                    return Err(ZError::mismatch(declared, t, d.span()));
                }
                Some(d.duplicate())
            },
        };
        let field = Field { name: f.name.name.clone(), ty: declared, default };
        put_field(&mut out, field);
        i += 1;
    }
    Ok(out)
}

/// Checks the statements of a class body and collects what they declare.
#[verifier::loop_isolation(false)]
fn check_body_list(
    items: &Vec<Ast>,
    ty_symt: &mut SymTable<Type>,
    has_args: bool,
    members: Vec<(String, Ast)>,
    fields: Vec<Field>,
) -> (r: Result<(Vec<(String, Ast)>, Vec<Field>), ZError>)
    requires
        old(ty_symt).wf(),
    ensures
        final(ty_symt).wf(),
        final(ty_symt)@.len() == old(ty_symt)@.len(),
        (match r {
            Ok(out) => Ok((named_asts_view(out.0@), fields_view(out.1@))),
            Err(e) => Err(e@),
        }, final(ty_symt)@) == check_body(
            asts_view(items@),
            0,
            old(ty_symt)@,
            has_args,
            named_asts_view(members@),
            fields_view(fields@),
        ),
    decreases items, 0int,
{
    let ghost st0 = ty_symt@;
    let ghost views = asts_view(items@);
    let ghost members0 = named_asts_view(members@);
    let ghost fields0 = fields_view(fields@);
    let mut all_members = members;
    let mut all_fields = fields;
    let mut i: usize = 0;
    while i < items.len()
        invariant
            ty_symt.wf(),
            ty_symt@.len() == st0.len(),
            i <= items.len(),
            check_body(
                views,
                i as int,
                ty_symt@,
                has_args,
                named_asts_view(all_members@),
                fields_view(all_fields@),
            ) == check_body(views, 0, st0, has_args, members0, fields0),
        decreases items.len() - i,
    {
        assert(views[i as int] == items@[i as int]@);
        match items[i].typecheck(ty_symt) {
            Err(e) => {
                return Err(e);
            },
            Ok(_) => {},
        }
        match &items[i] {
            Ast::Declare(d) => {
                assert(ast_view(items@[i as int]) == AstView::Declare(d@));
                match &*d.variable {
                    Ast::Ident(id) => {
                        assert(ast_view(*d.variable) == AstView::Ident(id@));
                        if has_inst(&d.flags) {
                            if has_args {
                                return Err(
                                    ZError::typing(
                                        TypeErrorKind::ConstructorConflict,
                                        items[i].span(),
                                    ),
                                );
                            }
                            match &d.ty {
                                Some(ty) => {
                                    let declared = match named_type(ty_symt, ty) {
                                        Err(e) => {
                                            return Err(e);
                                        },
                                        Ok(t) => t,
                                    };
                                    let field = Field {
                                        name: id.name.clone(),
                                        ty: declared,
                                        default: Some(d.content.duplicate()),
                                    };
                                    put_field(&mut all_fields, field);
                                },
                                None => {
                                    return Err(
                                        ZError::typing(
                                            TypeErrorKind::MalformedDeclaration,
                                            items[i].span(),
                                        ),
                                    );
                                },
                            }
                        } else {
                            put_member(&mut all_members, id.name.clone(), d.content.duplicate());
                        }
                    },
                    _ => {
                        assert(!(ast_view(*d.variable) is Ident));
                    },
                }
            },
            _ => {
                assert(!(ast_view(items@[i as int]) is Declare));
            },
        }
        i += 1;
    }
    Ok((all_members, all_fields))
}

impl Class {
    /// What of the literal is checked inside its own frame.
    fn typecheck_body(&self, ty_symt: &mut SymTable<Type>) -> (r: Result<Type, ZError>)
        requires
            old(ty_symt).wf(),
        ensures
            final(ty_symt).wf(),
            final(ty_symt)@.len() == old(ty_symt)@.len(),
            (type_result_view(r), final(ty_symt)@) == check_class_body(self@, old(ty_symt)@),
        decreases self, 0int,
    {
        match check_member_list(&self.implementations, ty_symt) {
            Err(e) => {
                return Err(e);
            },
            Ok(()) => {},
        }
        let fields = match check_field_list(&self.inst_fields, ty_symt) {
            Err(e) => {
                return Err(e);
            },
            Ok(f) => f,
        };
        let members = collect_members(&self.implementations);
        let (all_members, all_fields) = match &self.content {
            Some(b) => match check_body_list(
                &b.content,
                ty_symt,
                self.args.is_some(),
                members,
                fields,
            ) {
                Err(e) => {
                    return Err(e);
                },
                Ok(out) => out,
            },
            None => (members, fields),
        };
        let init = String::from_str("_init");
        if self.args.is_some() && holds_member(&all_members, &init) {
            return Err(ZError::typing(TypeErrorKind::ConstructorConflict, self.span()));
        }
        let def = TypeDefinition {
            inst_name: None,
            name: Some(class_name_string(self.is_struct)),
            generics: Vec::new(),
            implementations: all_members,
            inst_fields: all_fields,
        };
        assert(def@.generics =~= Seq::empty());
        proof {
            reveal_with_fuel(type_view, 2);
        }
        Ok(Type::Definition(def))
    }

    /// The type of the literal: the type definition that it describes. The
    /// body is checked in a frame of its own. Declarations flagged as instance
    /// fields give the instance fields, with their declared types and their
    /// defaults, and the type of a default has to be the declared type; every
    /// other declaration gives a member. Of two declarations of one name the
    /// later takes the place of the earlier, and members and fields are kept
    /// in the order of their names: the definition holds no name twice, and
    /// is the same in whatever order the body declares them. A constructor
    /// argument list beside an `_init` member, or beside instance fields, is
    /// an error.
    pub fn typecheck(&self, ty_symt: &mut SymTable<Type>) -> (r: Result<Type, ZError>)
        requires
            old(ty_symt).wf(),
        ensures
            final(ty_symt).wf(),
            final(ty_symt)@.len() == old(ty_symt)@.len(),
            (type_result_view(r), final(ty_symt)@) == check_class(self@, old(ty_symt)@),
            type_result_view(r) matches Ok(TypeView::Definition(d)) ==> d.wf(),
        decreases self, 1int,
    {
        proof {
            crate::ast::members::lemma_check_class_wf(self@, old(ty_symt)@);
        }
        ty_symt.add_frame(None, FrameType::Normal);
        let r = self.typecheck_body(ty_symt);
        ty_symt.pop_frame();
        r
    }
}

impl Ast {
    /// The static type of the tree in `ty_symt`.
    pub fn typecheck(&self, ty_symt: &mut SymTable<Type>) -> (r: Result<Type, ZError>)
        requires
            old(ty_symt).wf(),
        ensures
            final(ty_symt).wf(),
            final(ty_symt)@.len() == old(ty_symt)@.len(),
            (type_result_view(r), final(ty_symt)@) == check(self@, old(ty_symt)@),
        decreases self, 1int,
    {
        proof {
            reveal_with_fuel(type_view, 2);
        }
        match self {
            Ast::Literal(n) => Ok(n.content.ty()),
            Ast::Ident(n) => match ty_symt.get_val(&n.name, n.name_span) {
                Ok(t) => Ok(t.duplicate()),
                Err(e) => Err(e),
            },
            Ast::BinaryOpr(n) => n.typecheck(ty_symt),
            Ast::Block(n) => n.typecheck(ty_symt),
            Ast::Declare(n) => n.typecheck(ty_symt),
            Ast::Assign(n) => n.typecheck(ty_symt),
            Ast::Delete(n) => n.typecheck(ty_symt),
            Ast::Class(n) => n.typecheck(ty_symt),
            Ast::Call(n) => n.typecheck(ty_symt),
            Ast::Member(n) => n.typecheck(ty_symt),
            Ast::Procedure(n) => n.typecheck(ty_symt),
            Ast::Return(n) => match n.value.typecheck(ty_symt) {
                Ok(t) => Ok(Type::Return(Box::new(t))),
                Err(e) => Err(e),
            },
            Ast::Defer(n) => match n.content.typecheck(ty_symt) {
                Ok(_) => Ok(Prim::Unit.ty()),
                Err(e) => Err(e),
            },
            Ast::UnaryOpr(n) => match n.operand.typecheck(ty_symt) {
                Ok(_) => Err(ZError::typing(TypeErrorKind::NotCore, self.span())),
                Err(e) => Err(e),
            },
        }
    }
}

} // verus!
