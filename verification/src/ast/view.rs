//! The mathematical value of every tree, value and type.
//!
//! Contracts throughout the crate speak of these views: two trees with the
//! same view are the same tree as far as the language can tell.
use vstd::prelude::*;
use crate::ast::{Ast, AstView};
use crate::ast::argument::{Argument, ArgumentView};
use crate::ast::binary_opr::{BinaryOpr, BinaryOprView};
use crate::ast::block::{Block, BlockView};
use crate::ast::call::{Call, CallView};
use crate::ast::class::{Class, ClassView};
use crate::ast::control::{Defer, DeferView, Return, ReturnView};
use crate::ast::declare::{Declare, DeclareView};
use crate::ast::delete::{Delete, DeleteView};
use crate::ast::ident::{Ident, IdentView};
use crate::ast::literal::{Literal, LiteralView};
use crate::ast::member::{Member, MemberView};
use crate::ast::procedure::{Procedure, ProcedureView};
use crate::ast::unary_opr::{UnaryOpr, UnaryOprView};
use crate::ast::assign::{Assign, AssignView};
use crate::types::typeobj::{Field, FieldView, Type, TypeDefinition, TypeDefinitionView, TypeInstance, TypeInstanceView, TypeView};
use crate::types::value::{DefinedProc, DefinedProcView, Proc, ProcView, Value, ValueView};

verus! {

pub open spec fn opt_str_view(s: Option<String>) -> Option<Seq<char>> {
    match s {
        Some(s) => Some(s@),
        None => None,
    }
}

pub open spec fn idents_view(s: Seq<Ident>) -> Seq<IdentView> {
    Seq::new(s.len(), |i: int| s[i]@)
}

pub open spec fn ast_view(a: Ast) -> AstView
    decreases a,
{
    match a {
        Ast::Literal(n) => AstView::Literal(literal_view(n)),
        Ast::Ident(n) => AstView::Ident(n@),
        Ast::BinaryOpr(n) => AstView::BinaryOpr(binary_opr_view(n)),
        Ast::Block(n) => AstView::Block(block_view(n)),
        Ast::Declare(n) => AstView::Declare(declare_view(n)),
        Ast::Assign(n) => AstView::Assign(assign_view(n)),
        Ast::Delete(n) => AstView::Delete(delete_view(n)),
        Ast::Class(n) => AstView::Class(class_view(n)),
        Ast::Call(n) => AstView::Call(call_view(n)),
        Ast::Member(n) => AstView::Member(member_view(n)),
        Ast::Procedure(n) => AstView::Procedure(procedure_view(n)),
        Ast::Return(n) => AstView::Return(return_view(n)),
        Ast::Defer(n) => AstView::Defer(defer_view(n)),
        Ast::UnaryOpr(n) => AstView::UnaryOpr(unary_opr_view(n)),
    }
}

pub open spec fn asts_view(s: Seq<Ast>) -> Seq<AstView>
    decreases s,
{
    Seq::new(s.len(), |i: int| if 0 <= i < s.len() { ast_view(s[i]) } else { arbitrary() })
}

pub open spec fn opt_ast_view(a: Option<Box<Ast>>) -> Option<Box<AstView>>
    decreases a,
{
    match a {
        Some(b) => Some(Box::new(ast_view(*b))),
        None => None,
    }
}

pub open spec fn named_asts_view(s: Seq<(String, Ast)>) -> Seq<(Seq<char>, AstView)>
    decreases s,
{
    Seq::new(
        s.len(),
        |i: int| if 0 <= i < s.len() { (s[i].0@, ast_view(s[i].1)) } else { arbitrary() },
    )
}

pub open spec fn literal_view(n: Literal) -> LiteralView
    decreases n,
{
    LiteralView { span: n.span, content: value_view(n.content) }
}

pub open spec fn binary_opr_view(n: BinaryOpr) -> BinaryOprView
    decreases n,
{
    BinaryOprView {
        ty: n.ty,
        opr_span: n.opr_span,
        operand1: Box::new(ast_view(*n.operand1)),
        operand2: Box::new(ast_view(*n.operand2)),
    }
}

pub open spec fn block_view(n: Block) -> BlockView
    decreases n,
{
    BlockView { brace_spans: n.brace_spans, content: asts_view(n.content@) }
}

pub open spec fn declare_view(n: Declare) -> DeclareView
    decreases n,
{
    DeclareView {
        variable: Box::new(ast_view(*n.variable)),
        content: Box::new(ast_view(*n.content)),
        flags: n.flags@,
        ty: opt_ast_view(n.ty),
        eq_span: n.eq_span,
    }
}

pub open spec fn assign_view(n: Assign) -> AssignView
    decreases n,
{
    AssignView {
        variable: Box::new(ast_view(*n.variable)),
        eq_span: n.eq_span,
        content: Box::new(ast_view(*n.content)),
    }
}

pub open spec fn delete_view(n: Delete) -> DeleteView {
    DeleteView { kwd_span: n.kwd_span, names: idents_view(n.names@) }
}

pub open spec fn argument_view(n: Argument) -> ArgumentView
    decreases n,
{
    ArgumentView { name: n.name@, ty: Box::new(ast_view(*n.ty)), default: opt_ast_view(n.default) }
}

pub open spec fn arguments_view(s: Seq<Argument>) -> Seq<ArgumentView>
    decreases s,
{
    Seq::new(s.len(), |i: int| if 0 <= i < s.len() { argument_view(s[i]) } else { arbitrary() })
}

pub open spec fn class_view(n: Class) -> ClassView
    decreases n,
{
    ClassView {
        is_struct: n.is_struct,
        implementations: named_asts_view(n.implementations@),
        inst_fields: arguments_view(n.inst_fields@),
        content: match n.content {
            Some(b) => Some(block_view(b)),
            None => None,
        },
        args: match n.args {
            Some(a) => Some(arguments_view(a@)),
            None => None,
        },
    }
}

pub open spec fn call_view(n: Call) -> CallView
    decreases n,
{
    CallView {
        called: Box::new(ast_view(*n.called)),
        paren_spans: n.paren_spans,
        args: asts_view(n.args@),
    }
}

pub open spec fn member_view(n: Member) -> MemberView
    decreases n,
{
    MemberView {
        ty: n.ty,
        name: n.name@,
        parent: Box::new(ast_view(*n.parent)),
        name_span: n.name_span,
        dot_span: n.dot_span,
    }
}

pub open spec fn procedure_view(n: Procedure) -> ProcedureView
    decreases n,
{
    ProcedureView {
        is_fn: n.is_fn,
        kwd_span: n.kwd_span,
        args: arguments_view(n.args@),
        return_type: opt_ast_view(n.return_type),
        content: block_view(n.content),
    }
}

pub open spec fn return_view(n: Return) -> ReturnView
    decreases n,
{
    ReturnView { kwd_span: n.kwd_span, value: Box::new(ast_view(*n.value)) }
}

pub open spec fn unary_opr_view(n: UnaryOpr) -> UnaryOprView
    decreases n,
{
    UnaryOprView { ty: n.ty, opr_span: n.opr_span, operand: Box::new(ast_view(*n.operand)) }
}

pub open spec fn defer_view(n: Defer) -> DeferView
    decreases n,
{
    DeferView { kwd_span: n.kwd_span, content: Box::new(ast_view(*n.content)) }
}

pub open spec fn value_view(v: Value) -> ValueView
    decreases v,
{
    match v {
        Value::Int(k, n) => ValueView::Int(k, n as int),
        Value::Bool(b) => ValueView::Bool(b),
        Value::Str(s) => ValueView::Str(s@),
        Value::Type(t) => ValueView::Type(type_view(t)),
        Value::Proc(p) => ValueView::Proc(proc_view(p)),
        Value::Unit => ValueView::Unit,
        Value::Return(v) => ValueView::Return(Box::new(value_view(*v))),
    }
}

pub open spec fn values_view(s: Seq<Value>) -> Seq<ValueView> {
    Seq::new(s.len(), |i: int| value_view(s[i]))
}

pub open spec fn proc_view(p: Proc) -> ProcView
    decreases p,
{
    match p {
        Proc::Builtin(b) => ProcView::Builtin(b),
        Proc::Defined(d) => ProcView::Defined(defined_proc_view(d)),
    }
}

pub open spec fn defined_proc_view(d: DefinedProc) -> DefinedProcView
    decreases d,
{
    DefinedProcView {
        is_fn: d.is_fn,
        args: arguments_view(d.args@),
        return_type: Box::new(type_view(*d.return_type)),
        content: block_view(d.content),
    }
}

pub open spec fn type_view(t: Type) -> TypeView
    decreases t,
{
    match t {
        Type::Instance(i) => TypeView::Instance(type_instance_view(i)),
        Type::Definition(d) => TypeView::Definition(type_definition_view(d)),
        Type::Any => TypeView::Any,
        Type::Return(t) => TypeView::Return(Box::new(type_view(*t))),
    }
}

pub open spec fn types_view(s: Seq<Type>) -> Seq<TypeView>
    decreases s,
{
    Seq::new(s.len(), |i: int| if 0 <= i < s.len() { type_view(s[i]) } else { arbitrary() })
}

pub open spec fn field_view(f: Field) -> FieldView
    decreases f,
{
    FieldView {
        name: f.name@,
        ty: type_view(f.ty),
        default: match f.default {
            Some(a) => Some(ast_view(a)),
            None => None,
        },
    }
}

pub open spec fn fields_view(s: Seq<Field>) -> Seq<FieldView>
    decreases s,
{
    Seq::new(s.len(), |i: int| if 0 <= i < s.len() { field_view(s[i]) } else { arbitrary() })
}

pub open spec fn type_definition_view(d: TypeDefinition) -> TypeDefinitionView
    decreases d,
{
    TypeDefinitionView {
        inst_name: opt_str_view(d.inst_name),
        name: opt_str_view(d.name),
        generics: arguments_view(d.generics@),
        implementations: named_asts_view(d.implementations@),
        inst_fields: fields_view(d.inst_fields@),
    }
}

pub open spec fn type_instance_view(i: TypeInstance) -> TypeInstanceView
    decreases i,
{
    TypeInstanceView {
        name: opt_str_view(i.name),
        type_args: types_view(i.type_args@),
        implementation: type_definition_view(i.implementation),
    }
}

impl View for Ast {
    type V = AstView;

    open spec fn view(&self) -> AstView {
        ast_view(*self)
    }
}

impl View for Value {
    type V = ValueView;

    open spec fn view(&self) -> ValueView {
        value_view(*self)
    }
}

impl View for Type {
    type V = TypeView;

    open spec fn view(&self) -> TypeView {
        type_view(*self)
    }
}

impl View for Proc {
    type V = ProcView;

    open spec fn view(&self) -> ProcView {
        proc_view(*self)
    }
}

impl View for TypeDefinition {
    type V = TypeDefinitionView;

    open spec fn view(&self) -> TypeDefinitionView {
        type_definition_view(*self)
    }
}

impl View for TypeInstance {
    type V = TypeInstanceView;

    open spec fn view(&self) -> TypeInstanceView {
        type_instance_view(*self)
    }
}

impl View for Field {
    type V = FieldView;

    open spec fn view(&self) -> FieldView {
        field_view(*self)
    }
}

impl View for Argument {
    type V = ArgumentView;

    open spec fn view(&self) -> ArgumentView {
        argument_view(*self)
    }
}

impl View for Literal {
    type V = LiteralView;

    open spec fn view(&self) -> LiteralView {
        literal_view(*self)
    }
}

impl View for BinaryOpr {
    type V = BinaryOprView;

    open spec fn view(&self) -> BinaryOprView {
        binary_opr_view(*self)
    }
}

impl View for Block {
    type V = BlockView;

    open spec fn view(&self) -> BlockView {
        block_view(*self)
    }
}

impl View for Declare {
    type V = DeclareView;

    open spec fn view(&self) -> DeclareView {
        declare_view(*self)
    }
}

impl View for Assign {
    type V = AssignView;

    open spec fn view(&self) -> AssignView {
        assign_view(*self)
    }
}

impl View for Delete {
    type V = DeleteView;

    open spec fn view(&self) -> DeleteView {
        delete_view(*self)
    }
}

impl View for Class {
    type V = ClassView;

    open spec fn view(&self) -> ClassView {
        class_view(*self)
    }
}

impl View for Call {
    type V = CallView;

    open spec fn view(&self) -> CallView {
        call_view(*self)
    }
}

impl View for Member {
    type V = MemberView;

    open spec fn view(&self) -> MemberView {
        member_view(*self)
    }
}

impl View for Procedure {
    type V = ProcedureView;

    open spec fn view(&self) -> ProcedureView {
        procedure_view(*self)
    }
}

impl View for Return {
    type V = ReturnView;

    open spec fn view(&self) -> ReturnView {
        return_view(*self)
    }
}

impl View for UnaryOpr {
    type V = UnaryOprView;

    open spec fn view(&self) -> UnaryOprView {
        unary_opr_view(*self)
    }
}

impl View for Defer {
    type V = DeferView;

    open spec fn view(&self) -> DeferView {
        defer_view(*self)
    }
}

impl View for DefinedProc {
    type V = DefinedProcView;

    open spec fn view(&self) -> DefinedProcView {
        defined_proc_view(*self)
    }
}

} // verus!
