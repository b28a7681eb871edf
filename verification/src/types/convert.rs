//! From a type as it is when types are checked to the type as it is at run time:
//! the members and the field defaults of its definitions evaluated; and back.
use vstd::prelude::*;
use crate::ast::{Ast, AstView};
use crate::ast::eval::{eval, eval_members, literal_of, Frames};
use crate::ast::interpret::{interpret_members, literal};
use crate::ast::view::{ast_view, field_view, fields_view, named_asts_view, type_view, types_view, value_view};
use crate::errors::{ZError, ZErrorView};
use crate::types::namespace::{put_field, with_field};
use crate::types::sym_table::SymTable;
use crate::types::typeobj::{Field, FieldView, Type, TypeDefinition, TypeDefinitionView, TypeInstance, TypeInstanceView, TypeView};
use crate::types::value::{Value, ValueView};

verus! {

/// The types `types[i..]` at run time, behind those in `acc`.
pub open spec fn types_value(types: Seq<TypeView>, i: int, st: Frames, fuel: nat, acc: Seq<TypeView>) -> (
    Result<Seq<TypeView>, ZErrorView>,
    Frames,
)
    decreases types, types.len() - i,
{
    if i < 0 || i >= types.len() {
        (Ok(acc), st)
    } else {
        let (r, st1) = type_value(types[i], st, fuel);
        match r {
            Err(e) => (Err(e), st1),
            Ok(t) => types_value(types, i + 1, st1, fuel, acc.push(t)),
        }
    }
}

/// The fields `fields[i..]` at run time, behind those in `acc`: the type of
/// each at run time, and its default evaluated.
pub open spec fn fields_value(
    fields: Seq<FieldView>,
    i: int,
    st: Frames,
    fuel: nat,
    acc: Seq<FieldView>,
) -> (Result<Seq<FieldView>, ZErrorView>, Frames)
    decreases fields, fields.len() - i,
{
    if i < 0 || i >= fields.len() {
        (Ok(acc), st)
    } else {
        let f = fields[i];
        let (r, st1) = type_value(f.ty, st, fuel);
        match r {
            Err(e) => (Err(e), st1),
            Ok(t) => match f.default {
                None => fields_value(
                    fields,
                    i + 1,
                    st1,
                    fuel,
                    with_field(acc, FieldView { name: f.name, ty: t, default: None }),
                ),
                Some(d) => {
                    let (r2, st2) = eval(d, st1, fuel);
                    match r2 {
                        Err(e) => (Err(e), st2),
                        Ok(v) => fields_value(
                            fields,
                            i + 1,
                            st2,
                            fuel,
                            with_field(acc, FieldView { name: f.name, ty: t, default: Some(literal_of(v)) }),
                        ),
                    }
                },
            },
        }
    }
}

/// A definition at run time: every member evaluated, in order, and then
/// every field.
pub open spec fn definition_value(d: TypeDefinitionView, st: Frames, fuel: nat) -> (
    Result<TypeDefinitionView, ZErrorView>,
    Frames,
)
    decreases d,
{
    let (mr, st1) = eval_members(d.implementations, 0, st, fuel, Seq::empty());
    match mr {
        Err(e) => (Err(e), st1),
        Ok(members) => {
            let (fr, st2) = fields_value(d.inst_fields, 0, st1, fuel, Seq::empty());
            match fr {
                Err(e) => (Err(e), st2),
                Ok(fields) => (
                    Ok(TypeDefinitionView { implementations: members, inst_fields: fields, ..d }),
                    st2,
                ),
            }
        },
    }
}

/// An instance at run time: its type arguments and its definition at run time.
pub open spec fn instance_value(i: TypeInstanceView, st: Frames, fuel: nat) -> (
    Result<TypeInstanceView, ZErrorView>,
    Frames,
)
    decreases i,
{
    let (ar, st1) = types_value(i.type_args, 0, st, fuel, Seq::empty());
    match ar {
        Err(e) => (Err(e), st1),
        Ok(args) => {
            let (dr, st2) = definition_value(i.implementation, st1, fuel);
            match dr {
                Err(e) => (Err(e), st2),
                Ok(d) => (
                    Ok(TypeInstanceView { name: i.name, type_args: args, implementation: d }),
                    st2,
                ),
            }
        },
    }
}

/// A type at run time.
pub open spec fn type_value(t: TypeView, st: Frames, fuel: nat) -> (
    Result<TypeView, ZErrorView>,
    Frames,
)
    decreases t,
{
    match t {
        TypeView::Instance(i) => {
            let (r, st1) = instance_value(i, st, fuel);
            match r {
                Ok(v) => (Ok(TypeView::Instance(v)), st1),
                Err(e) => (Err(e), st1),
            }
        },
        TypeView::Definition(d) => {
            let (r, st1) = definition_value(d, st, fuel);
            match r {
                Ok(v) => (Ok(TypeView::Definition(v)), st1),
                Err(e) => (Err(e), st1),
            }
        },
        TypeView::Any => (Ok(TypeView::Any), st),
        TypeView::Return(inner) => {
            let (r, st1) = type_value(*inner, st, fuel);
            match r {
                Ok(v) => (Ok(TypeView::Return(Box::new(v))), st1),
                Err(e) => (Err(e), st1),
            }
        },
    }
}

#[verifier::loop_isolation(false)]
fn types_as_value(types: &Vec<Type>, val_symt: &mut SymTable<Value>, fuel: usize) -> (r: Result<
    Vec<Type>,
    ZError,
>)
    requires
        old(val_symt).wf(),
    ensures
        final(val_symt).wf(),
        final(val_symt)@.len() == old(val_symt)@.len(),
        (match r {
            Ok(out) => Ok(types_view(out@)),
            Err(e) => Err(e@),
        }, final(val_symt)@) == types_value(
            types_view(types@),
            0,
            old(val_symt)@,
            fuel as nat,
            Seq::empty(),
        ),
    decreases types,
{
    let ghost st0 = val_symt@;
    let ghost views = types_view(types@);
    let mut out: Vec<Type> = Vec::new();
    assert(types_view(out@) =~= Seq::empty());
    let mut i: usize = 0;
    while i < types.len()
        invariant
            val_symt.wf(),
            val_symt@.len() == st0.len(),
            i <= types.len(),
            types_value(views, i as int, val_symt@, fuel as nat, types_view(out@)) == types_value(
                views,
                0,
                st0,
                fuel as nat,
                Seq::empty(),
            ),
        decreases types.len() - i,
    {
        assert(views[i as int] == types@[i as int]@);
        match types[i].as_type_value(val_symt, fuel) {
            Err(e) => {
                return Err(e);
            },
            Ok(t) => {
                assert(types_view(out@.push(t)) =~= types_view(out@).push(t@));
                out.push(t);
            },
        }
        i += 1;
    }
    Ok(out)
}

#[verifier::loop_isolation(false)]
fn fields_as_value(fields: &Vec<Field>, val_symt: &mut SymTable<Value>, fuel: usize) -> (r: Result<
    Vec<Field>,
    ZError,
>)
    requires
        old(val_symt).wf(),
    ensures
        final(val_symt).wf(),
        final(val_symt)@.len() == old(val_symt)@.len(),
        (match r {
            Ok(out) => Ok(fields_view(out@)),
            Err(e) => Err(e@),
        }, final(val_symt)@) == fields_value(
            fields_view(fields@),
            0,
            old(val_symt)@,
            fuel as nat,
            Seq::empty(),
        ),
    decreases fields,
{
    let ghost st0 = val_symt@;
    let ghost views = fields_view(fields@);
    let mut out: Vec<Field> = Vec::new();
    assert(fields_view(out@) =~= Seq::empty());
    let mut i: usize = 0;
    while i < fields.len()
        invariant
            val_symt.wf(),
            val_symt@.len() == st0.len(),
            i <= fields.len(),
            fields_value(views, i as int, val_symt@, fuel as nat, fields_view(out@))
                == fields_value(views, 0, st0, fuel as nat, Seq::empty()),
        decreases fields.len() - i,
    {
        let f = &fields[i];
        assert(views[i as int] == field_view(*f));
        let t = match f.ty.as_type_value(val_symt, fuel) {
            Err(e) => {
                return Err(e);
            },
            Ok(t) => t,
        };
        let default = match &f.default {
            None => None,
            Some(d) => match d.interpret_expr(val_symt, fuel) {
                Err(e) => {
                    return Err(e);
                },
                Ok(v) => Some(literal(v)),
            },
        };
        let field = Field { name: f.name.clone(), ty: t, default };
        put_field(&mut out, field);
        i += 1;
    }
    Ok(out)
}

impl TypeDefinition {
    /// The definition at run time: every member evaluated in `val_symt`, in
    /// order, and then the type and the default of every field. The first
    /// error ends the evaluation.
    pub fn as_type_value(&self, val_symt: &mut SymTable<Value>, fuel: usize) -> (r: Result<
        TypeDefinition,
        ZError,
    >)
        requires
            old(val_symt).wf(),
        ensures
            final(val_symt).wf(),
            final(val_symt)@.len() == old(val_symt)@.len(),
            (match r {
                Ok(d) => Ok(d@),
                Err(e) => Err(e@),
            }, final(val_symt)@) == definition_value(self@, old(val_symt)@, fuel as nat),
            r matches Ok(d) ==> d@.wf(),
        decreases self,
    {
        proof {
            crate::ast::members::lemma_definition_value_wf(self@, old(val_symt)@, fuel as nat);
        }
        let none: Vec<(String, Ast)> = Vec::new();
        assert(named_asts_view(none@) =~= Seq::empty());
        let members = match interpret_members(&self.implementations, val_symt, fuel, none) {
            Err(e) => {
                return Err(e);
            },
            Ok(m) => m,
        };
        let fields = match fields_as_value(&self.inst_fields, val_symt, fuel) {
            Err(e) => {
                return Err(e);
            },
            Ok(f) => f,
        };
        Ok(
            TypeDefinition {
                inst_name: crate::ast::copy::duplicate_opt_string(&self.inst_name),
                name: crate::ast::copy::duplicate_opt_string(&self.name),
                generics: crate::ast::copy::duplicate_arguments(&self.generics),
                implementations: members,
                inst_fields: fields,
            },
        )
    }
}

impl TypeInstance {
    /// The instance at run time: its type arguments and its definition at run time.
    pub fn as_type_value(&self, val_symt: &mut SymTable<Value>, fuel: usize) -> (r: Result<
        TypeInstance,
        ZError,
    >)
        requires
            old(val_symt).wf(),
        ensures
            final(val_symt).wf(),
            final(val_symt)@.len() == old(val_symt)@.len(),
            (match r {
                Ok(i) => Ok(i@),
                Err(e) => Err(e@),
            }, final(val_symt)@) == instance_value(self@, old(val_symt)@, fuel as nat),
        decreases self,
    {
        let args = match types_as_value(&self.type_args, val_symt, fuel) {
            Err(e) => {
                return Err(e);
            },
            Ok(a) => a,
        };
        let implementation = match self.implementation.as_type_value(val_symt, fuel) {
            Err(e) => {
                return Err(e);
            },
            Ok(d) => d,
        };
        Ok(
            TypeInstance {
                name: crate::ast::copy::duplicate_opt_string(&self.name),
                type_args: args,
                implementation,
            },
        )
    }
}

impl Type {
    /// The type at run time.
    pub fn as_type_value(&self, val_symt: &mut SymTable<Value>, fuel: usize) -> (r: Result<
        Type,
        ZError,
    >)
        requires
            old(val_symt).wf(),
        ensures
            final(val_symt).wf(),
            final(val_symt)@.len() == old(val_symt)@.len(),
            (match r {
                Ok(t) => Ok(t@),
                Err(e) => Err(e@),
            }, final(val_symt)@) == type_value(self@, old(val_symt)@, fuel as nat),
        decreases self,
    {
        match self {
            Type::Instance(i) => match i.as_type_value(val_symt, fuel) {
                Ok(v) => {
                    let r = Type::Instance(v);
                    assert(r@ == TypeView::Instance(v@));
                    Ok(r)
                },
                Err(e) => Err(e),
            },
            Type::Definition(d) => match d.as_type_value(val_symt, fuel) {
                Ok(v) => {
                    let r = Type::Definition(v);
                    assert(r@ == TypeView::Definition(v@));
                    Ok(r)
                },
                Err(e) => Err(e),
            },
            Type::Any => Ok(Type::Any),
            Type::Return(inner) => match inner.as_type_value(val_symt, fuel) {
                Ok(v) => {
                    let r = Type::Return(Box::new(v));
                    assert(r@ == TypeView::Return(Box::new(v@)));
                    Ok(r)
                },
                Err(e) => Err(e),
            },
        }
    }

    /// The type as a tree: the literal that holds it.
    pub fn as_literal(&self) -> (r: Ast)
        ensures
            r@ == literal_of(ValueView::Type(self@)),
    {
        let v = Value::Type(self.duplicate());
        assert(v@ == ValueView::Type(self@)) by {
            reveal_with_fuel(value_view, 2);
        }
        literal(v)
    }
}

/// A member of a runtime type as the typechecker takes it: a value as a
/// literal without a position.
pub open spec fn member_element(a: AstView) -> AstView {
    match a {
        AstView::Literal(l) => literal_of(l.content),
        _ => a,
    }
}

pub open spec fn members_element(members: Seq<(Seq<char>, AstView)>) -> Seq<(Seq<char>, AstView)> {
    Seq::new(members.len(), |i: int| (members[i].0, member_element(members[i].1)))
}

pub open spec fn types_element(types: Seq<TypeView>) -> Seq<TypeView>
    decreases types,
{
    Seq::new(
        types.len(),
        |i: int| if 0 <= i < types.len() { type_element(types[i]) } else { TypeView::Any },
    )
}

pub open spec fn field_element(f: FieldView) -> FieldView
    decreases f,
{
    FieldView {
        name: f.name,
        ty: type_element(f.ty),
        default: match f.default {
            Some(d) => Some(member_element(d)),
            None => None,
        },
    }
}

pub open spec fn fields_element(fields: Seq<FieldView>) -> Seq<FieldView>
    decreases fields,
{
    Seq::new(
        fields.len(),
        |i: int| if 0 <= i < fields.len() { field_element(fields[i]) } else { fields[i] },
    )
}

/// A runtime definition as the typechecker takes it.
pub open spec fn definition_element(d: TypeDefinitionView) -> TypeDefinitionView
    decreases d,
{
    TypeDefinitionView {
        implementations: members_element(d.implementations),
        inst_fields: fields_element(d.inst_fields),
        ..d
    }
}

/// A runtime instance as the typechecker takes it.
pub open spec fn instance_element(i: TypeInstanceView) -> TypeInstanceView
    decreases i,
{
    TypeInstanceView {
        name: i.name,
        type_args: types_element(i.type_args),
        implementation: definition_element(i.implementation),
    }
}

/// A runtime type as the typechecker takes it: every value that it holds
/// as a literal without a position.
pub open spec fn type_element(t: TypeView) -> TypeView
    decreases t,
{
    match t {
        TypeView::Instance(i) => TypeView::Instance(instance_element(i)),
        TypeView::Definition(d) => TypeView::Definition(definition_element(d)),
        TypeView::Any => TypeView::Any,
        TypeView::Return(inner) => TypeView::Return(Box::new(type_element(*inner))),
    }
}

/// A member of a runtime type as the typechecker takes it.
fn element_of(a: &Ast) -> (r: Ast)
    ensures
        r@ == member_element(a@),
{
    match a {
        Ast::Literal(l) => {
            assert(ast_view(*a) == AstView::Literal(l@));
            literal(l.content.duplicate())
        },
        _ => {
            assert(!(ast_view(*a) is Literal));
            a.duplicate()
        },
    }
}

#[verifier::loop_isolation(false)]
fn types_as_element(types: &Vec<Type>) -> (r: Vec<Type>)
    ensures
        types_view(r@) == types_element(types_view(types@)),
    decreases types,
{
    let mut out: Vec<Type> = Vec::new();
    let mut i: usize = 0;
    while i < types.len()
        invariant
            i <= types.len(),
            out@.len() == i,
            forall|j: int| 0 <= j < i ==> type_view(out@[j]) == type_element(type_view(types@[j])),
        decreases types.len() - i,
    {
        out.push(types[i].as_type_element());
        i += 1;
    }
    assert(types_view(out@) =~= types_element(types_view(types@)));
    out
}

#[verifier::loop_isolation(false)]
fn fields_as_element(fields: &Vec<Field>) -> (r: Vec<Field>)
    ensures
        fields_view(r@) == fields_element(fields_view(fields@)),
    decreases fields,
{
    let mut out: Vec<Field> = Vec::new();
    let mut i: usize = 0;
    while i < fields.len()
        invariant
            i <= fields.len(),
            out@.len() == i,
            forall|j: int|
                0 <= j < i ==> field_view(out@[j]) == field_element(field_view(fields@[j])),
        decreases fields.len() - i,
    {
        let f = &fields[i];
        let field = Field {
            name: f.name.clone(),
            ty: f.ty.as_type_element(),
            default: match &f.default {
                Some(d) => Some(element_of(d)),
                None => None,
            },
        };
        out.push(field);
        i += 1;
    }
    assert(fields_view(out@) =~= fields_element(fields_view(fields@)));
    out
}

impl TypeDefinition {
    /// The runtime definition as the typechecker takes it: every member and
    /// every field default that is a value becomes a literal without a
    /// position.
    pub fn as_type_element(&self) -> (r: TypeDefinition)
        ensures
            r@ == definition_element(self@),
        decreases self,
    {
        let ghost members = named_asts_view(self.implementations@);
        let mut implementations: Vec<(String, Ast)> = Vec::new();
        let mut i: usize = 0;
        while i < self.implementations.len()
            invariant
                i <= self.implementations.len(),
                members == named_asts_view(self.implementations@),
                implementations@.len() == i,
                forall|j: int|
                    0 <= j < i ==> (#[trigger] implementations@[j]).0@ == members[j].0
                        && implementations@[j].1@ == member_element(members[j].1),
            decreases self.implementations.len() - i,
        {
            let name = self.implementations[i].0.clone();
            let node = element_of(&self.implementations[i].1);
            implementations.push((name, node));
            i += 1;
        }
        assert(named_asts_view(implementations@) =~= members_element(members));
        TypeDefinition {
            inst_name: crate::ast::copy::duplicate_opt_string(&self.inst_name),
            name: crate::ast::copy::duplicate_opt_string(&self.name),
            generics: crate::ast::copy::duplicate_arguments(&self.generics),
            implementations,
            inst_fields: fields_as_element(&self.inst_fields),
        }
    }
}

impl TypeInstance {
    /// The runtime instance as the typechecker takes it.
    pub fn as_type_element(&self) -> (r: TypeInstance)
        ensures
            r@ == instance_element(self@),
        decreases self,
    {
        TypeInstance {
            name: crate::ast::copy::duplicate_opt_string(&self.name),
            type_args: types_as_element(&self.type_args),
            implementation: self.implementation.as_type_element(),
        }
    }
}

impl Type {
    /// The runtime type as the typechecker takes it.
    pub fn as_type_element(&self) -> (r: Type)
        ensures
            r@ == type_element(self@),
        decreases self,
    {
        match self {
            Type::Instance(i) => {
                let v = i.as_type_element();
                let r = Type::Instance(v);
                assert(r@ == TypeView::Instance(v@));
                r
            },
            Type::Definition(d) => {
                let v = d.as_type_element();
                let r = Type::Definition(v);
                assert(r@ == TypeView::Definition(v@));
                r
            },
            Type::Any => Type::Any,
            Type::Return(inner) => {
                let v = inner.as_type_element();
                let r = Type::Return(Box::new(v));
                assert(r@ == TypeView::Return(Box::new(v@)));
                r
            },
        }
    }
}

} // verus!
