//! Deep copies. A copy has the same view as what it was copied from.
use vstd::prelude::*;
use crate::ast::Ast;
use crate::ast::argument::Argument;
use crate::ast::assign::Assign;
use crate::ast::binary_opr::BinaryOpr;
use crate::ast::block::Block;
use crate::ast::call::Call;
use crate::ast::class::Class;
use crate::ast::control::{Defer, Return};
use crate::ast::declare::Declare;
use crate::ast::delete::Delete;
use crate::ast::ident::Ident;
use crate::ast::literal::Literal;
use crate::ast::member::Member;
use crate::ast::procedure::Procedure;
use crate::ast::unary_opr::UnaryOpr;
use crate::ast::view::{argument_view, arguments_view, ast_view, asts_view, field_view, fields_view, idents_view, named_asts_view, opt_ast_view, opt_str_view, type_view, types_view, value_view};
use crate::types::position::Span;
use crate::types::token::Flag;
use crate::types::typeobj::{Field, Type, TypeDefinition, TypeInstance};
use crate::types::value::{DefinedProc, Proc, Value};

verus! {

pub fn duplicate_opt_string(s: &Option<String>) -> (r: Option<String>)
    ensures
        opt_str_view(r) == opt_str_view(*s),
{
    match s {
        Some(s) => Some(s.clone()),
        None => None,
    }
}

pub fn duplicate_flags(v: &Vec<(Flag, Span)>) -> (r: Vec<(Flag, Span)>)
    ensures
        r@ == v@,
{
    let mut out: Vec<(Flag, Span)> = Vec::new();
    let mut i: usize = 0;
    while i < v.len()
        invariant
            i <= v.len(),
            out@ == v@.take(i as int),
        decreases v.len() - i,
    {
        out.push(v[i]);
        assert(out@ =~= v@.take(i as int + 1));
        i += 1;
    }
    assert(v@.take(i as int) =~= v@);
    out
}

pub fn duplicate_idents(v: &Vec<Ident>) -> (r: Vec<Ident>)
    ensures
        idents_view(r@) == idents_view(v@),
{
    let mut out: Vec<Ident> = Vec::new();
    let mut i: usize = 0;
    while i < v.len()
        invariant
            i <= v.len(),
            out@.len() == i,
            forall|j: int| 0 <= j < i ==> out@[j]@ == v@[j]@,
        decreases v.len() - i,
    {
        out.push(v[i].duplicate());
        i += 1;
    }
    assert(idents_view(out@) =~= idents_view(v@));
    out
}

#[verifier::loop_isolation(false)]
pub fn duplicate_asts(v: &Vec<Ast>) -> (r: Vec<Ast>)
    ensures
        asts_view(r@) == asts_view(v@),
    decreases v,
{
    let mut out: Vec<Ast> = Vec::new();
    let mut i: usize = 0;
    while i < v.len()
        invariant
            i <= v.len(),
            out@.len() == i,
            forall|j: int| 0 <= j < i ==> ast_view(out@[j]) == ast_view(v@[j]),
        decreases v.len() - i,
    {
        out.push(v[i].duplicate());
        i += 1;
    }
    assert(asts_view(out@) =~= asts_view(v@));
    out
}

#[verifier::loop_isolation(false)]
pub fn duplicate_named_asts(v: &Vec<(String, Ast)>) -> (r: Vec<(String, Ast)>)
    ensures
        named_asts_view(r@) == named_asts_view(v@),
    decreases v,
{
    let mut out: Vec<(String, Ast)> = Vec::new();
    let mut i: usize = 0;
    while i < v.len()
        invariant
            i <= v.len(),
            out@.len() == i,
            forall|j: int|
                0 <= j < i ==> out@[j].0@ == v@[j].0@ && ast_view(out@[j].1) == ast_view(v@[j].1),
        decreases v.len() - i,
    {
        let name = v[i].0.clone();
        let node = v[i].1.duplicate();
        out.push((name, node));
        i += 1;
    }
    assert(named_asts_view(out@) =~= named_asts_view(v@));
    out
}

#[verifier::loop_isolation(false)]
pub fn duplicate_arguments(v: &Vec<Argument>) -> (r: Vec<Argument>)
    ensures
        arguments_view(r@) == arguments_view(v@),
    decreases v,
{
    let mut out: Vec<Argument> = Vec::new();
    let mut i: usize = 0;
    while i < v.len()
        invariant
            i <= v.len(),
            out@.len() == i,
            forall|j: int| 0 <= j < i ==> argument_view(out@[j]) == argument_view(v@[j]),
        decreases v.len() - i,
    {
        out.push(v[i].duplicate());
        i += 1;
    }
    assert(arguments_view(out@) =~= arguments_view(v@));
    out
}

#[verifier::loop_isolation(false)]
pub fn duplicate_types(v: &Vec<Type>) -> (r: Vec<Type>)
    ensures
        types_view(r@) == types_view(v@),
    decreases v,
{
    let mut out: Vec<Type> = Vec::new();
    let mut i: usize = 0;
    while i < v.len()
        invariant
            i <= v.len(),
            out@.len() == i,
            forall|j: int| 0 <= j < i ==> type_view(out@[j]) == type_view(v@[j]),
        decreases v.len() - i,
    {
        out.push(v[i].duplicate());
        i += 1;
    }
    assert(types_view(out@) =~= types_view(v@));
    out
}

#[verifier::loop_isolation(false)]
pub fn duplicate_fields(v: &Vec<Field>) -> (r: Vec<Field>)
    ensures
        fields_view(r@) == fields_view(v@),
    decreases v,
{
    let mut out: Vec<Field> = Vec::new();
    let mut i: usize = 0;
    while i < v.len()
        invariant
            i <= v.len(),
            out@.len() == i,
            forall|j: int| 0 <= j < i ==> field_view(out@[j]) == field_view(v@[j]),
        decreases v.len() - i,
    {
        out.push(v[i].duplicate());
        i += 1;
    }
    assert(fields_view(out@) =~= fields_view(v@));
    out
}

pub fn duplicate_opt_ast(a: &Option<Box<Ast>>) -> (r: Option<Box<Ast>>)
    ensures
        opt_ast_view(r) == opt_ast_view(*a),
    decreases a,
{
    match a {
        Some(b) => Some(Box::new(b.duplicate())),
        None => None,
    }
}

impl Ident {
    pub fn duplicate(&self) -> (r: Ident)
        ensures
            r@ == self@,
    {
        Ident { name: self.name.clone(), name_span: self.name_span }
    }
}

impl Ast {
    /// A deep copy of the tree.
    pub fn duplicate(&self) -> (r: Ast)
        ensures
            r@ == self@,
        decreases self,
    {
        match self {
            Ast::Literal(n) => Ast::Literal(n.duplicate()),
            Ast::Ident(n) => Ast::Ident(n.duplicate()),
            Ast::BinaryOpr(n) => Ast::BinaryOpr(n.duplicate()),
            Ast::Block(n) => Ast::Block(n.duplicate()),
            Ast::Declare(n) => Ast::Declare(n.duplicate()),
            Ast::Assign(n) => Ast::Assign(n.duplicate()),
            Ast::Delete(n) => Ast::Delete(n.duplicate()),
            Ast::Class(n) => Ast::Class(n.duplicate()),
            Ast::Call(n) => Ast::Call(n.duplicate()),
            Ast::Member(n) => Ast::Member(n.duplicate()),
            Ast::Procedure(n) => Ast::Procedure(n.duplicate()),
            Ast::Return(n) => Ast::Return(n.duplicate()),
            Ast::Defer(n) => Ast::Defer(n.duplicate()),
            Ast::UnaryOpr(n) => Ast::UnaryOpr(n.duplicate()),
        }
    }
}

impl Literal {
    pub fn duplicate(&self) -> (r: Literal)
        ensures
            r@ == self@,
        decreases self,
    {
        Literal { span: self.span, content: self.content.duplicate() }
    }
}

impl BinaryOpr {
    pub fn duplicate(&self) -> (r: BinaryOpr)
        ensures
            r@ == self@,
        decreases self,
    {
        BinaryOpr {
            ty: self.ty,
            opr_span: self.opr_span,
            operand1: Box::new(self.operand1.duplicate()),
            operand2: Box::new(self.operand2.duplicate()),
        }
    }
}

impl Block {
    pub fn duplicate(&self) -> (r: Block)
        ensures
            r@ == self@,
        decreases self,
    {
        Block { brace_spans: self.brace_spans, content: duplicate_asts(&self.content) }
    }
}

impl Declare {
    pub fn duplicate(&self) -> (r: Declare)
        ensures
            r@ == self@,
        decreases self,
    {
        Declare {
            variable: Box::new(self.variable.duplicate()),
            content: Box::new(self.content.duplicate()),
            flags: duplicate_flags(&self.flags),
            ty: duplicate_opt_ast(&self.ty),
            eq_span: self.eq_span,
        }
    }
}

impl Assign {
    pub fn duplicate(&self) -> (r: Assign)
        ensures
            r@ == self@,
        decreases self,
    {
        Assign {
            variable: Box::new(self.variable.duplicate()),
            eq_span: self.eq_span,
            content: Box::new(self.content.duplicate()),
        }
    }
}

impl Delete {
    pub fn duplicate(&self) -> (r: Delete)
        ensures
            r@ == self@,
    {
        Delete { kwd_span: self.kwd_span, names: duplicate_idents(&self.names) }
    }
}

impl Argument {
    pub fn duplicate(&self) -> (r: Argument)
        ensures
            r@ == self@,
        decreases self,
    {
        Argument {
            name: self.name.duplicate(),
            ty: Box::new(self.ty.duplicate()),
            default: duplicate_opt_ast(&self.default),
        }
    }
}

impl Class {
    pub fn duplicate(&self) -> (r: Class)
        ensures
            r@ == self@,
        decreases self,
    {
        Class {
            is_struct: self.is_struct,
            implementations: duplicate_named_asts(&self.implementations),
            inst_fields: duplicate_arguments(&self.inst_fields),
            content: match &self.content {
                Some(b) => Some(b.duplicate()),
                None => None,
            },
            args: match &self.args {
                Some(a) => Some(duplicate_arguments(a)),
                None => None,
            },
        }
    }
}

impl Call {
    pub fn duplicate(&self) -> (r: Call)
        ensures
            r@ == self@,
        decreases self,
    {
        Call {
            called: Box::new(self.called.duplicate()),
            paren_spans: self.paren_spans,
            args: duplicate_asts(&self.args),
        }
    }
}

impl Member {
    pub fn duplicate(&self) -> (r: Member)
        ensures
            r@ == self@,
        decreases self,
    {
        Member {
            ty: self.ty,
            name: self.name.clone(),
            parent: Box::new(self.parent.duplicate()),
            name_span: self.name_span,
            dot_span: self.dot_span,
        }
    }
}

impl Procedure {
    pub fn duplicate(&self) -> (r: Procedure)
        ensures
            r@ == self@,
        decreases self,
    {
        Procedure {
            is_fn: self.is_fn,
            kwd_span: self.kwd_span,
            args: duplicate_arguments(&self.args),
            return_type: duplicate_opt_ast(&self.return_type),
            content: self.content.duplicate(),
        }
    }
}

impl Return {
    pub fn duplicate(&self) -> (r: Return)
        ensures
            r@ == self@,
        decreases self,
    {
        Return { kwd_span: self.kwd_span, value: Box::new(self.value.duplicate()) }
    }
}

impl UnaryOpr {
    pub fn duplicate(&self) -> (r: UnaryOpr)
        ensures
            r@ == self@,
        decreases self,
    {
        UnaryOpr { ty: self.ty, opr_span: self.opr_span, operand: Box::new(self.operand.duplicate()) }
    }
}

impl Defer {
    pub fn duplicate(&self) -> (r: Defer)
        ensures
            r@ == self@,
        decreases self,
    {
        Defer { kwd_span: self.kwd_span, content: Box::new(self.content.duplicate()) }
    }
}

impl Value {
    /// A deep copy of the value.
    pub fn duplicate(&self) -> (r: Value)
        ensures
            r@ == self@,
        decreases self,
    {
        match self {
            Value::Int(k, n) => Value::Int(*k, *n),
            Value::Bool(b) => Value::Bool(*b),
            Value::Str(s) => Value::Str(s.clone()),
            Value::Type(t) => Value::Type(t.duplicate()),
            Value::Proc(p) => Value::Proc(p.duplicate()),
            Value::Unit => Value::Unit,
            Value::Return(v) => Value::Return(Box::new(v.duplicate())),
        }
    }
}

impl Proc {
    pub fn duplicate(&self) -> (r: Proc)
        ensures
            r@ == self@,
        decreases self,
    {
        match self {
            Proc::Builtin(b) => Proc::Builtin(*b),
            Proc::Defined(d) => Proc::Defined(d.duplicate()),
        }
    }
}

impl DefinedProc {
    pub fn duplicate(&self) -> (r: DefinedProc)
        ensures
            r@ == self@,
        decreases self,
    {
        DefinedProc {
            is_fn: self.is_fn,
            args: duplicate_arguments(&self.args),
            return_type: Box::new(self.return_type.duplicate()),
            content: self.content.duplicate(),
        }
    }
}

impl Type {
    /// A deep copy of the type.
    pub fn duplicate(&self) -> (r: Type)
        ensures
            r@ == self@,
        decreases self,
    {
        match self {
            Type::Instance(i) => Type::Instance(i.duplicate()),
            Type::Definition(d) => Type::Definition(d.duplicate()),
            Type::Any => Type::Any,
            Type::Return(t) => Type::Return(Box::new(t.duplicate())),
        }
    }
}

impl Field {
    pub fn duplicate(&self) -> (r: Field)
        ensures
            r@ == self@,
        decreases self,
    {
        Field {
            name: self.name.clone(),
            ty: self.ty.duplicate(),
            default: match &self.default {
                Some(a) => Some(a.duplicate()),
                None => None,
            },
        }
    }
}

impl TypeDefinition {
    pub fn duplicate(&self) -> (r: TypeDefinition)
        ensures
            r@ == self@,
        decreases self,
    {
        TypeDefinition {
            inst_name: duplicate_opt_string(&self.inst_name),
            name: duplicate_opt_string(&self.name),
            generics: duplicate_arguments(&self.generics),
            implementations: duplicate_named_asts(&self.implementations),
            inst_fields: duplicate_fields(&self.inst_fields),
        }
    }
}

impl TypeInstance {
    pub fn duplicate(&self) -> (r: TypeInstance)
        ensures
            r@ == self@,
        decreases self,
    {
        TypeInstance {
            name: duplicate_opt_string(&self.name),
            type_args: duplicate_types(&self.type_args),
            implementation: self.implementation.duplicate(),
        }
    }
}

} // verus!
