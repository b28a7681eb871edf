//! The type of a namespace member, computed when it is first asked for and
//! kept from then on in a cell that is filled once.
use vstd::prelude::*;
use once_cell::sync::OnceCell;
use crate::ast::{Ast, AstView};
use crate::ast::view::{ast_view, named_asts_view, type_view};
use crate::primitives::type_of;
use crate::types::typeobj::{Type, TypeDefinition, TypeView};
use crate::types::value::{Value, ValueView};

verus! {

/// `once_cell::sync::OnceCell`, a cell that is filled at most once. What is
/// inside is known only through `cell_content`.
#[verifier::external_type_specification]
#[verifier::external_body]
#[verifier::reject_recursive_types(T)]
pub struct ExOnceCell<T>(once_cell::sync::OnceCell<T>);

/// What a cell holds: nothing, or the one type that it was filled with.
/// Every cell here is the private field of a `LazyType` and is filled only
/// through `&mut`, so that what a cell holds changes only where the cell
/// itself is handed on as changed.
pub uninterp spec fn cell_content(cell: OnceCell<Type>) -> Option<TypeView>;

/// `OnceCell::new`: a cell that holds nothing.
#[verifier::external_body]
fn empty_cell() -> (r: OnceCell<Type>)
    ensures
        cell_content(r) is None,
{
    OnceCell::new()
}

/// `OnceCell::get`: a reference to what the cell holds, and nothing where
/// it is empty.
#[verifier::external_body]
fn cell_get(cell: &OnceCell<Type>) -> (r: Option<&Type>)
    ensures
        match r {
            Some(t) => cell_content(*cell) == Some(t@),
            None => cell_content(*cell) is None,
        },
{
    cell.get()
}

/// `OnceCell::set`: an empty cell is filled with `ty`; a cell that holds
/// something stays as it is, and `ty` comes back as the error. The cell is
/// taken by `&mut`, so that nothing else can fill it meanwhile.
#[verifier::external_body]
fn cell_set(cell: &mut OnceCell<Type>, ty: Type) -> (r: Result<(), Type>)
    ensures
        match r {
            Ok(_) => cell_content(*old(cell)) is None && cell_content(*final(cell)) == Some(ty@),
            Err(back) => cell_content(*old(cell)) is Some && back == ty && cell_content(
                *final(cell),
            ) == cell_content(*old(cell)),
        },
{
    cell.set(ty)
}

/// A type that is known already, or the value whose type it is. The type of
/// the value is computed at the first access and never again.
#[derive(Debug)]
pub struct LazyType {
    pub data: Option<Value>,
    ty: OnceCell<Type>,
}

pub struct LazyTypeView {
    pub data: Option<ValueView>,
    pub ty: Option<TypeView>,
}

impl View for LazyType {
    type V = LazyTypeView;

    closed spec fn view(&self) -> LazyTypeView {
        LazyTypeView {
            data: match self.data {
                Some(v) => Some(v@),
                None => None,
            },
            ty: cell_content(self.ty),
        }
    }
}

impl LazyTypeView {
    /// There is a type to give: one that is known, or a value to take it from.
    pub open spec fn wf(self) -> bool {
        self.ty is Some || self.data is Some
    }

    /// The type that an access gives: the one that is kept, else that of the value.
    pub open spec fn resolved(self) -> TypeView {
        match self.ty {
            Some(t) => t,
            None => type_of(self.data->0),
        }
    }
}

impl LazyType {
    /// The type of `data`, not computed yet.
    pub fn new_lazy(data: Value) -> (r: LazyType)
        ensures
            r@ == (LazyTypeView { data: Some(data@), ty: None }),
            r@.wf(),
    {
        LazyType { data: Some(data), ty: empty_cell() }
    }

    /// A type that is known already.
    pub fn from(ty: Type) -> (r: LazyType)
        ensures
            r@ == (LazyTypeView { data: None, ty: Some(ty@) }),
            r@.wf(),
    {
        let mut cell = empty_cell();
        let _ = cell_set(&mut cell, ty);
        LazyType { data: None, ty: cell }
    }

    /// Whether the type has been computed or was known from the start.
    pub fn is_resolved(&self) -> (r: bool)
        ensures
            r == (self@.ty is Some),
    {
        cell_get(&self.ty).is_some()
    }

    /// The type. The first access computes it from the value and keeps it;
    /// every later access hands out what is kept and changes nothing.
    pub fn get(&mut self) -> (r: Type)
        requires
            old(self)@.wf(),
        ensures
            r@ == old(self)@.resolved(),
            final(self)@ == (LazyTypeView { ty: Some(old(self)@.resolved()), ..old(self)@ }),
            old(self)@.ty is Some ==> final(self)@ == old(self)@,
    {
        match cell_get(&self.ty) {
            Some(t) => t.duplicate(),
            None => {
                let computed = match &self.data {
                    Some(v) => v.ty(),
                    None => Type::Any,
                };
                let copy = computed.duplicate();
                let _ = cell_set(&mut self.ty, computed);
                copy
            },
        }
    }

    /// Whether two lazy types stand for the same type, as far as both are
    /// resolved: two that are not resolved yet are taken for the same.
    pub fn same(&self, other: &LazyType) -> (r: bool)
        ensures
            r == (self@.ty == other@.ty),
    {
        match (cell_get(&self.ty), cell_get(&other.ty)) {
            (Some(a), Some(b)) => a.same(b),
            (None, None) => true,
            _ => false,
        }
    }
}

/// The lazy type of one namespace member: that of its value where the
/// member is a value, and the wildcard, known at once, where it is still a tree.
pub open spec fn lazy_member(member: AstView) -> LazyTypeView {
    match member {
        AstView::Literal(l) => LazyTypeView { data: Some(l.content), ty: None },
        _ => LazyTypeView { data: None, ty: Some(TypeView::Any) },
    }
}

/// The namespace of a definition with a lazy type for every member.
pub open spec fn lazy_members(members: Seq<(Seq<char>, AstView)>) -> Seq<(Seq<char>, LazyTypeView)> {
    Seq::new(members.len(), |i: int| (members[i].0, lazy_member(members[i].1)))
}

pub open spec fn lazies_view(s: Seq<(String, LazyType)>) -> Seq<(Seq<char>, LazyTypeView)> {
    Seq::new(s.len(), |i: int| (s[i].0@, s[i].1@))
}

impl TypeDefinition {
    /// The namespace of the definition with a lazy type for every member.
    /// No type is computed before it is asked for.
    pub fn lazy_namespace(&self) -> (r: Vec<(String, LazyType)>)
        ensures
            lazies_view(r@) == lazy_members(self@.implementations),
            forall|i: int| 0 <= i < r@.len() ==> (#[trigger] r@[i]).1@.wf(),
    {
        let ghost members = self@.implementations;
        let mut out: Vec<(String, LazyType)> = Vec::new();
        let mut i: usize = 0;
        while i < self.implementations.len()
            invariant
                i <= self.implementations.len(),
                members == named_asts_view(self.implementations@),
                out@.len() == i,
                forall|j: int|
                    0 <= j < i ==> (#[trigger] out@[j]).0@ == members[j].0 && out@[j].1@
                        == lazy_member(members[j].1) && out@[j].1@.wf(),
            decreases self.implementations.len() - i,
        {
            let name = self.implementations[i].0.clone();
            let lazy = match &self.implementations[i].1 {
                Ast::Literal(l) => {
                    assert(ast_view(self.implementations@[i as int].1) == AstView::Literal(l@));
                    LazyType::new_lazy(l.content.duplicate())
                },
                _ => {
                    assert(!(ast_view(self.implementations@[i as int].1) is Literal));
                    assert(type_view(Type::Any) == TypeView::Any);
                    LazyType::from(Type::Any)
                },
            };
            out.push((name, lazy));
            i += 1;
        }
        assert(lazies_view(out@) =~= lazy_members(members));
        out
    }
}

} // verus!
