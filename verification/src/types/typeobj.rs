//! The algebra of types, used for typechecking and for dispatch at run time.
use vstd::prelude::*;
use crate::ast::{Ast, AstView};
use crate::ast::argument::{Argument, ArgumentView};

verus! {

/// An instance field of a type: its declared type and, where there is one, its default.
#[derive(Debug)]
pub struct Field {
    pub name: String,
    pub ty: Type,
    pub default: Option<Ast>,
}

pub struct FieldView {
    pub name: Seq<char>,
    pub ty: TypeView,
    pub default: Option<AstView>,
}

/// A type constructor: a namespace of members and the shape of its instances.
/// Members and fields are lists in the order of their names, which
/// `put_member` and `put_field` keep: two definitions with the same members
/// and fields are then the same, in whatever order these were declared.
#[derive(Debug)]
pub struct TypeDefinition {
    pub inst_name: Option<String>,
    pub name: Option<String>,
    pub generics: Vec<Argument>,
    pub implementations: Vec<(String, Ast)>,
    pub inst_fields: Vec<Field>,
}

pub struct TypeDefinitionView {
    pub inst_name: Option<Seq<char>>,
    pub name: Option<Seq<char>>,
    pub generics: Seq<ArgumentView>,
    pub implementations: Seq<(Seq<char>, AstView)>,
    pub inst_fields: Seq<FieldView>,
}

/// A concrete use of a definition, with its type arguments bound.
#[derive(Debug)]
pub struct TypeInstance {
    pub name: Option<String>,
    pub type_args: Vec<Type>,
    pub implementation: TypeDefinition,
}

pub struct TypeInstanceView {
    pub name: Option<Seq<char>>,
    pub type_args: Seq<TypeView>,
    pub implementation: TypeDefinitionView,
}

/// A static type.
#[derive(Debug)]
pub enum Type {
    Instance(TypeInstance),
    Definition(TypeDefinition),
    /// The wildcard, which is also the type of the unit value's peers.
    Any,
    /// The type of a value that flows out of a `ret` statement.
    Return(Box<Type>),
}

pub enum TypeView {
    Instance(TypeInstanceView),
    Definition(TypeDefinitionView),
    Any,
    Return(Box<TypeView>),
}

} // verus!
