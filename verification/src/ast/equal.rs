//! Structural equality: two trees, values or types are the same exactly when
//! their views are equal.
use vstd::prelude::*;
use crate::ast::Ast;
use crate::ast::argument::Argument;
use crate::ast::assign::Assign;
use crate::ast::binary_opr::BinaryOpr;
use crate::ast::block::Block;
use crate::ast::call::Call;
use crate::ast::class::Class;
use crate::ast::control::{Defer, Return};
use crate::ast::declare::Declare;
use crate::ast::delete::Delete;
use crate::ast::ident::Ident;
use crate::ast::literal::Literal;
use crate::ast::member::Member;
use crate::ast::procedure::Procedure;
use crate::ast::unary_opr::UnaryOpr;
use crate::ast::view::{argument_view, arguments_view, ast_view, asts_view, field_view, fields_view, idents_view, named_asts_view, opt_ast_view, opt_str_view, type_view, types_view};
use crate::types::position::Span;
use crate::types::token::Flag;
use crate::types::typeobj::{Field, Type, TypeDefinition, TypeInstance};
use crate::types::value::{DefinedProc, Proc, Value};

verus! {

pub fn same_opt_span(a: &Option<Span>, b: &Option<Span>) -> (r: bool)
    ensures
        r == (*a == *b),
{
    match (a, b) {
        (Some(x), Some(y)) => *x == *y,
        (None, None) => true,
        _ => false,
    }
}

pub fn same_span_pair(a: &Option<(Span, Span)>, b: &Option<(Span, Span)>) -> (r: bool)
    ensures
        r == (*a == *b),
{
    match (a, b) {
        (Some(x), Some(y)) => x.0 == y.0 && x.1 == y.1,
        (None, None) => true,
        _ => false,
    }
}

pub fn same_opt_string(a: &Option<String>, b: &Option<String>) -> (r: bool)
    ensures
        r == (opt_str_view(*a) == opt_str_view(*b)),
{
    match (a, b) {
        (Some(x), Some(y)) => *x == *y,
        (None, None) => true,
        _ => false,
    }
}

pub fn same_flags(a: &Vec<(Flag, Span)>, b: &Vec<(Flag, Span)>) -> (r: bool)
    ensures
        r == (a@ == b@),
{
    if a.len() != b.len() {
        return false;
    }
    let mut i: usize = 0;
    while i < a.len()
        invariant
            a.len() == b.len(),
            i <= a.len(),
            forall|j: int| 0 <= j < i ==> a@[j] == b@[j],
        decreases a.len() - i,
    {
        if !(a[i].0 == b[i].0 && a[i].1 == b[i].1) {
            assert(a@[i as int] != b@[i as int]);
            return false;
        }
        i += 1;
    }
    assert(a@ =~= b@);
    true
}

pub fn same_idents(a: &Vec<Ident>, b: &Vec<Ident>) -> (r: bool)
    ensures
        r == (idents_view(a@) == idents_view(b@)),
{
    if a.len() != b.len() {
        assert(idents_view(a@).len() != idents_view(b@).len());
        return false;
    }
    let mut i: usize = 0;
    while i < a.len()
        invariant
            a.len() == b.len(),
            i <= a.len(),
            forall|j: int| 0 <= j < i ==> a@[j]@ == b@[j]@,
        decreases a.len() - i,
    {
        if !a[i].same(&b[i]) {
            assert(idents_view(a@)[i as int] != idents_view(b@)[i as int]);
            return false;
        }
        i += 1;
    }
    assert(idents_view(a@) =~= idents_view(b@));
    true
}

#[verifier::loop_isolation(false)]
pub fn same_asts(a: &Vec<Ast>, b: &Vec<Ast>) -> (r: bool)
    ensures
        r == (asts_view(a@) == asts_view(b@)),
    decreases a,
{
    if a.len() != b.len() {
        assert(asts_view(a@).len() != asts_view(b@).len());
        return false;
    }
    let mut i: usize = 0;
    while i < a.len()
        invariant
            i <= a.len(),
            forall|j: int| 0 <= j < i ==> ast_view(a@[j]) == ast_view(b@[j]),
        decreases a.len() - i,
    {
        if !a[i].same(&b[i]) {
            assert(asts_view(a@)[i as int] != asts_view(b@)[i as int]);
            return false;
        }
        i += 1;
    }
    assert(asts_view(a@) =~= asts_view(b@));
    true
}

#[verifier::loop_isolation(false)]
pub fn same_named_asts(a: &Vec<(String, Ast)>, b: &Vec<(String, Ast)>) -> (r: bool)
    ensures
        r == (named_asts_view(a@) == named_asts_view(b@)),
    decreases a,
{
    if a.len() != b.len() {
        assert(named_asts_view(a@).len() != named_asts_view(b@).len());
        return false;
    }
    let mut i: usize = 0;
    while i < a.len()
        invariant
            i <= a.len(),
            forall|j: int|
                0 <= j < i ==> a@[j].0@ == b@[j].0@ && ast_view(a@[j].1) == ast_view(b@[j].1),
        decreases a.len() - i,
    {
        if !(a[i].0 == b[i].0 && a[i].1.same(&b[i].1)) {
            assert(named_asts_view(a@)[i as int] != named_asts_view(b@)[i as int]);
            return false;
        }
        i += 1;
    }
    assert(named_asts_view(a@) =~= named_asts_view(b@));
    true
}

#[verifier::loop_isolation(false)]
pub fn same_arguments(a: &Vec<Argument>, b: &Vec<Argument>) -> (r: bool)
    ensures
        r == (arguments_view(a@) == arguments_view(b@)),
    decreases a,
{
    if a.len() != b.len() {
        assert(arguments_view(a@).len() != arguments_view(b@).len());
        return false;
    }
    let mut i: usize = 0;
    while i < a.len()
        invariant
            i <= a.len(),
            forall|j: int| 0 <= j < i ==> argument_view(a@[j]) == argument_view(b@[j]),
        decreases a.len() - i,
    {
        if !a[i].same(&b[i]) {
            assert(arguments_view(a@)[i as int] != arguments_view(b@)[i as int]);
            return false;
        }
        i += 1;
    }
    assert(arguments_view(a@) =~= arguments_view(b@));
    true
}

#[verifier::loop_isolation(false)]
pub fn same_types(a: &Vec<Type>, b: &Vec<Type>) -> (r: bool)
    ensures
        r == (types_view(a@) == types_view(b@)),
    decreases a,
{
    if a.len() != b.len() {
        assert(types_view(a@).len() != types_view(b@).len());
        return false;
    }
    let mut i: usize = 0;
    while i < a.len()
        invariant
            i <= a.len(),
            forall|j: int| 0 <= j < i ==> type_view(a@[j]) == type_view(b@[j]),
        decreases a.len() - i,
    {
        if !a[i].same(&b[i]) {
            assert(types_view(a@)[i as int] != types_view(b@)[i as int]);
            return false;
        }
        i += 1;
    }
    assert(types_view(a@) =~= types_view(b@));
    true
}

#[verifier::loop_isolation(false)]
pub fn same_fields(a: &Vec<Field>, b: &Vec<Field>) -> (r: bool)
    ensures
        r == (fields_view(a@) == fields_view(b@)),
    decreases a,
{
    if a.len() != b.len() {
        assert(fields_view(a@).len() != fields_view(b@).len());
        return false;
    }
    let mut i: usize = 0;
    while i < a.len()
        invariant
            i <= a.len(),
            forall|j: int| 0 <= j < i ==> field_view(a@[j]) == field_view(b@[j]),
        decreases a.len() - i,
    {
        if !a[i].same(&b[i]) {
            assert(fields_view(a@)[i as int] != fields_view(b@)[i as int]);
            return false;
        }
        i += 1;
    }
    assert(fields_view(a@) =~= fields_view(b@));
    true
}

pub fn same_opt_ast(a: &Option<Box<Ast>>, b: &Option<Box<Ast>>) -> (r: bool)
    ensures
        r == (opt_ast_view(*a) == opt_ast_view(*b)),
    decreases a,
{
    match (a, b) {
        (Some(x), Some(y)) => x.same(y),
        (None, None) => true,
        _ => false,
    }
}

impl Ident {
    pub fn same(&self, other: &Ident) -> (r: bool)
        ensures
            r == (self@ == other@),
    {
        self.name == other.name && same_opt_span(&self.name_span, &other.name_span)
    }
}

impl Ast {
    /// Whether two trees are structurally equal.
    pub fn same(&self, other: &Ast) -> (r: bool)
        ensures
            r == (self@ == other@),
        decreases self,
    {
        match (self, other) {
            (Ast::Literal(a), Ast::Literal(b)) => a.same(b),
            (Ast::Ident(a), Ast::Ident(b)) => a.same(b),
            (Ast::BinaryOpr(a), Ast::BinaryOpr(b)) => a.same(b),
            (Ast::Block(a), Ast::Block(b)) => a.same(b),
            (Ast::Declare(a), Ast::Declare(b)) => a.same(b),
            (Ast::Assign(a), Ast::Assign(b)) => a.same(b),
            (Ast::Delete(a), Ast::Delete(b)) => a.same(b),
            (Ast::Class(a), Ast::Class(b)) => a.same(b),
            (Ast::Call(a), Ast::Call(b)) => a.same(b),
            (Ast::Member(a), Ast::Member(b)) => a.same(b),
            (Ast::Procedure(a), Ast::Procedure(b)) => a.same(b),
            (Ast::Return(a), Ast::Return(b)) => a.same(b),
            (Ast::Defer(a), Ast::Defer(b)) => a.same(b),
            (Ast::UnaryOpr(a), Ast::UnaryOpr(b)) => a.same(b),
            _ => false,
        }
    }
}

impl Literal {
    pub fn same(&self, other: &Literal) -> (r: bool)
        ensures
            r == (self@ == other@),
        decreases self,
    {
        same_opt_span(&self.span, &other.span) && self.content.same(&other.content)
    }
}

impl BinaryOpr {
    pub fn same(&self, other: &BinaryOpr) -> (r: bool)
        ensures
            r == (self@ == other@),
        decreases self,
    {
        self.ty == other.ty && same_opt_span(&self.opr_span, &other.opr_span)
            && self.operand1.same(&other.operand1) && self.operand2.same(&other.operand2)
    }
}

impl Block {
    pub fn same(&self, other: &Block) -> (r: bool)
        ensures
            r == (self@ == other@),
        decreases self,
    {
        same_span_pair(&self.brace_spans, &other.brace_spans) && same_asts(
            &self.content,
            &other.content,
        )
    }
}

impl Declare {
    pub fn same(&self, other: &Declare) -> (r: bool)
        ensures
            r == (self@ == other@),
        decreases self,
    {
        self.variable.same(&other.variable) && self.content.same(&other.content) && same_flags(
            &self.flags,
            &other.flags,
        ) && same_opt_ast(&self.ty, &other.ty) && same_opt_span(&self.eq_span, &other.eq_span)
    }
}

impl Assign {
    pub fn same(&self, other: &Assign) -> (r: bool)
        ensures
            r == (self@ == other@),
        decreases self,
    {
        self.variable.same(&other.variable) && same_opt_span(&self.eq_span, &other.eq_span)
            && self.content.same(&other.content)
    }
}

impl Delete {
    pub fn same(&self, other: &Delete) -> (r: bool)
        ensures
            r == (self@ == other@),
    {
        same_opt_span(&self.kwd_span, &other.kwd_span) && same_idents(&self.names, &other.names)
    }
}

impl Argument {
    pub fn same(&self, other: &Argument) -> (r: bool)
        ensures
            r == (self@ == other@),
        decreases self,
    {
        self.name.same(&other.name) && self.ty.same(&other.ty) && same_opt_ast(
            &self.default,
            &other.default,
        )
    }
}

impl Class {
    pub fn same(&self, other: &Class) -> (r: bool)
        ensures
            r == (self@ == other@),
        decreases self,
    {
        let content_same = match (&self.content, &other.content) {
            (Some(a), Some(b)) => a.same(b),
            (None, None) => true,
            _ => false,
        };
        let args_same = match (&self.args, &other.args) {
            (Some(a), Some(b)) => same_arguments(a, b),
            (None, None) => true,
            _ => false,
        };
        self.is_struct == other.is_struct && same_named_asts(
            &self.implementations,
            &other.implementations,
        ) && same_arguments(&self.inst_fields, &other.inst_fields) && content_same && args_same
    }
}

impl Call {
    pub fn same(&self, other: &Call) -> (r: bool)
        ensures
            r == (self@ == other@),
        decreases self,
    {
        self.called.same(&other.called) && same_span_pair(&self.paren_spans, &other.paren_spans)
            && same_asts(&self.args, &other.args)
    }
}

impl Member {
    pub fn same(&self, other: &Member) -> (r: bool)
        ensures
            r == (self@ == other@),
        decreases self,
    {
        self.ty == other.ty && self.name == other.name && self.parent.same(&other.parent)
            && same_opt_span(&self.name_span, &other.name_span) && same_opt_span(
            &self.dot_span,
            &other.dot_span,
        )
    }
}

impl Procedure {
    pub fn same(&self, other: &Procedure) -> (r: bool)
        ensures
            r == (self@ == other@),
        decreases self,
    {
        self.is_fn == other.is_fn && same_opt_span(&self.kwd_span, &other.kwd_span)
            && same_arguments(&self.args, &other.args) && same_opt_ast(
            &self.return_type,
            &other.return_type,
        ) && self.content.same(&other.content)
    }
}

impl Return {
    pub fn same(&self, other: &Return) -> (r: bool)
        ensures
            r == (self@ == other@),
        decreases self,
    {
        same_opt_span(&self.kwd_span, &other.kwd_span) && self.value.same(&other.value)
    }
}

impl UnaryOpr {
    pub fn same(&self, other: &UnaryOpr) -> (r: bool)
        ensures
            r == (self@ == other@),
        decreases self,
    {
        self.ty == other.ty && same_opt_span(&self.opr_span, &other.opr_span) && self.operand.same(
            &other.operand,
        )
    }
}

impl Defer {
    pub fn same(&self, other: &Defer) -> (r: bool)
        ensures
            r == (self@ == other@),
        decreases self,
    {
        same_opt_span(&self.kwd_span, &other.kwd_span) && self.content.same(&other.content)
    }
}

impl Value {
    /// Whether two values are structurally equal.
    pub fn same(&self, other: &Value) -> (r: bool)
        ensures
            r == (self@ == other@),
        decreases self,
    {
        match (self, other) {
            (Value::Int(k, n), Value::Int(l, m)) => *k == *l && *n == *m,
            (Value::Bool(a), Value::Bool(b)) => *a == *b,
            (Value::Str(a), Value::Str(b)) => *a == *b,
            (Value::Type(a), Value::Type(b)) => a.same(b),
            (Value::Proc(a), Value::Proc(b)) => a.same(b),
            (Value::Unit, Value::Unit) => true,
            (Value::Return(a), Value::Return(b)) => a.same(b),
            _ => false,
        }
    }
}

impl Proc {
    pub fn same(&self, other: &Proc) -> (r: bool)
        ensures
            r == (self@ == other@),
        decreases self,
    {
        match (self, other) {
            (Proc::Builtin(a), Proc::Builtin(b)) => *a == *b,
            (Proc::Defined(a), Proc::Defined(b)) => a.same(b),
            _ => false,
        }
    }
}

impl DefinedProc {
    pub fn same(&self, other: &DefinedProc) -> (r: bool)
        ensures
            r == (self@ == other@),
        decreases self,
    {
        self.is_fn == other.is_fn && same_arguments(&self.args, &other.args)
            && self.return_type.same(&other.return_type) && self.content.same(&other.content)
    }
}

impl Type {
    /// Structural equality of types, by which every dispatch decision is made.
    pub fn same(&self, other: &Type) -> (r: bool)
        ensures
            r == (self@ == other@),
        decreases self,
    {
        match (self, other) {
            (Type::Instance(a), Type::Instance(b)) => a.same(b),
            (Type::Definition(a), Type::Definition(b)) => a.same(b),
            (Type::Any, Type::Any) => true,
            (Type::Return(a), Type::Return(b)) => a.same(b),
            _ => false,
        }
    }
}

impl Field {
    pub fn same(&self, other: &Field) -> (r: bool)
        ensures
            r == (self@ == other@),
        decreases self,
    {
        let default_same = match (&self.default, &other.default) {
            (Some(a), Some(b)) => a.same(b),
            (None, None) => true,
            _ => false,
        };
        self.name == other.name && self.ty.same(&other.ty) && default_same
    }
}

impl TypeDefinition {
    pub fn same(&self, other: &TypeDefinition) -> (r: bool)
        ensures
            r == (self@ == other@),
        decreases self,
    {
        same_opt_string(&self.inst_name, &other.inst_name) && same_opt_string(
            &self.name,
            &other.name,
        ) && same_arguments(&self.generics, &other.generics) && same_named_asts(
            &self.implementations,
            &other.implementations,
        ) && same_fields(&self.inst_fields, &other.inst_fields)
    }
}

impl TypeInstance {
    pub fn same(&self, other: &TypeInstance) -> (r: bool)
        ensures
            r == (self@ == other@),
        decreases self,
    {
        same_opt_string(&self.name, &other.name) && same_types(&self.type_args, &other.type_args)
            && self.implementation.same(&other.implementation)
    }
}

} // verus!
