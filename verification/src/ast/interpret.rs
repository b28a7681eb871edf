//! The tree-walking evaluator. Every function here computes what the
//! evaluation semantics says, on the table it is handed.
use vstd::prelude::*;
use vstd::string::StringExecFns;
use crate::ast::{Ast, AstView};
use crate::ast::argument::Argument;
use crate::ast::assign::Assign;
use crate::ast::binary_opr::BinaryOpr;
use crate::ast::block::Block;
use crate::ast::call::Call;
use crate::ast::class::Class;
use crate::ast::control::{Defer, Return};
use crate::ast::copy::{duplicate_arguments, duplicate_asts};
use crate::ast::declare::Declare;
use crate::ast::delete::Delete;
use crate::ast::eval::{bound_args, as_type, bind_params, call_proc, class_name, eval, eval_args, eval_assign, eval_binary, eval_block, eval_body, eval_call, eval_class, eval_declare, eval_delete, eval_fields, eval_items, eval_member, eval_members, eval_method_call, eval_plain_call, eval_procedure, find_member, find_member_from, is_inst, literal_of, member_proc, member_value, namespace_of, pop_frame_of, run_defers};
use crate::ast::ident::Ident;
use crate::ast::literal::Literal;
use crate::ast::member::Member;
use crate::ast::procedure::Procedure;
use crate::ast::view::{arguments_view, ast_view, asts_view, fields_view, named_asts_view, value_view, values_view};
use crate::errors::{EvalErrorKind, ZError, ZErrorView};
use crate::types::namespace::{put_field, put_member};
use crate::types::position::Span;
use crate::types::name_map::NameMap;
use crate::types::sym_table::{FrameData, FrameType, SymTable};
use crate::types::token::{AccessType, Flag, OprType};
use crate::types::typeobj::{Field, Type, TypeDefinition, TypeView};
use crate::types::value::{BuiltinOp, DefinedProc, Prim, Proc, Value, ValueView};

verus! {

pub open spec fn result_view(r: Result<Value, ZError>) -> Result<ValueView, ZErrorView> {
    match r {
        Ok(v) => Ok(v@),
        Err(e) => Err(e@),
    }
}

pub open spec fn popped_view(r: Result<Option<Value>, ZError>) -> Result<Option<ValueView>, ZErrorView> {
    match r {
        Ok(Some(v)) => Ok(Some(v@)),
        Ok(None) => Ok(None),
        Err(e) => Err(e@),
    }
}

impl TypeDefinition {
    /// The member named `name`.
    pub fn member(&self, name: &String) -> (r: Option<&Ast>)
        ensures
            match r {
                Some(a) => find_member(self@, name@) == Some(a@),
                None => find_member(self@, name@) is None,
            },
    {
        let ghost members = named_asts_view(self.implementations@);
        let mut i: usize = 0;
        while i < self.implementations.len()
            invariant
                i <= self.implementations.len(),
                members == named_asts_view(self.implementations@),
                find_member_from(members, name@, i as int) == find_member(self@, name@),
            decreases self.implementations.len() - i,
        {
            if self.implementations[i].0 == *name {
                return Some(&self.implementations[i].1);
            }
            i += 1;
        }
        None
    }

    /// The value of the member named `name`, where the member is a value.
    pub fn member_value(&self, name: &String) -> (r: Option<&Value>)
        ensures
            match r {
                Some(v) => member_value(self@, name@) == Some(v@),
                None => member_value(self@, name@) is None,
            },
    {
        proof {
            reveal_with_fuel(ast_view, 2);
        }
        match self.member(name) {
            Some(Ast::Literal(l)) => Some(&l.content),
            _ => None,
        }
    }

    /// The callable member named `name`.
    pub fn member_proc(&self, name: &String) -> (r: Option<&Proc>)
        ensures
            match r {
                Some(p) => member_proc(self@, name@) == Some(p@),
                None => member_proc(self@, name@) is None,
            },
    {
        proof {
            reveal_with_fuel(value_view, 2);
        }
        match self.member_value(name) {
            Some(Value::Proc(p)) => Some(p),
            _ => None,
        }
    }
}

/// The namespace in which a member of `v` is looked up.
pub fn namespace(v: &Value, access: AccessType) -> (r: TypeDefinition)
    ensures
        r@ == namespace_of(v@, access),
{
    proof {
        reveal_with_fuel(value_view, 4);
    }
    match (access, v) {
        (AccessType::Namespace, Value::Type(Type::Definition(d))) => d.duplicate(),
        (AccessType::Namespace, Value::Type(Type::Instance(i))) => i.implementation.duplicate(),
        _ => v.ty().implementation(),
    }
}

/// Whether the flags hold the instance-field flag.
pub fn has_inst(flags: &Vec<(Flag, Span)>) -> (r: bool)
    ensures
        r == is_inst(flags@),
{
    let mut i: usize = 0;
    while i < flags.len()
        invariant
            i <= flags.len(),
            forall|j: int| 0 <= j < i ==> (#[trigger] flags@[j]).0 != Flag::Inst,
        decreases flags.len() - i,
    {
        if flags[i].0 == Flag::Inst {
            return true;
        }
        i += 1;
    }
    false
}

/// A value as a tree.
pub fn literal(v: Value) -> (r: Ast)
    ensures
        r@ == literal_of(v@),
{
    proof {
        reveal_with_fuel(ast_view, 2);
    }
    Ast::Literal(Literal { span: None, content: v })
}

impl SymTable<Value> {
    /// Pops the innermost frame. Every one of its deferred statements runs
    /// first, in the order in which they were registered, while the frame is
    /// still there. Where one of them gives a value on its way out, the
    /// first such value is handed back to take the place of the frame's own
    /// result; the statements behind it run all the same. The frame is gone
    /// afterwards, also where a deferred statement failed, which ends the run.
    #[verifier::loop_isolation(false)]
    pub fn pop_frame(&mut self, fuel: usize) -> (r: Result<Option<Value>, ZError>)
        requires
            old(self).wf(),
            old(self)@.len() >= 2,
        ensures
            final(self).wf(),
            final(self)@.len() == old(self)@.len() - 1,
            (popped_view(r), final(self)@) == pop_frame_of(old(self)@, fuel as nat),
        decreases fuel * 2,
    {
        let ghost st0 = self@;
        let defers = duplicate_asts(&self.frames[0].defer);
        assert(asts_view(defers@) == st0[0].defer);
        if defers.len() == 0 {
            self.discard_frame();
            return Ok(None);
        }
        if fuel == 0 {
            self.discard_frame();
            return Err(ZError::eval(EvalErrorKind::DepthExceeded, None));
        }
        let ghost items = asts_view(defers@);
        let mut i: usize = 0;
        let mut found: Option<Value> = None;
        while i < defers.len()
            invariant
                self.wf(),
                self@.len() == st0.len(),
                st0.len() >= 2,
                i <= defers.len(),
                items == asts_view(defers@),
                run_defers(
                    items,
                    i as int,
                    self@,
                    (fuel - 1) as nat,
                    match found {
                        Some(v) => Some(v@),
                        None => None,
                    },
                ) == run_defers(items, 0, st0, (fuel - 1) as nat, None),
            decreases defers.len() - i,
        {
            proof {
                reveal_with_fuel(value_view, 2);
            }
            match defers[i].interpret_expr(self, fuel - 1) {
                Err(e) => {
                    self.discard_frame();
                    return Err(e);
                },
                Ok(Value::Return(v)) => {
                    if found.is_none() {
                        found = Some(*v);
                    }
                },
                Ok(_) => {},
            }
            i += 1;
        }
        self.discard_frame();
        Ok(found)
    }
}

impl Proc {
    /// Calls the procedure with `args`. A built-in operation computes. A
    /// procedure written in the language takes one unit of the budget: its
    /// body runs in a new frame, a function frame for a function, in which its
    /// parameters are bound to the arguments. The frame records where the
    /// call stands (`span`), its text (`raw`) and the arguments under the
    /// names of the parameters.
    #[verifier::loop_isolation(false)]
    pub fn call(
        &self,
        args: &Vec<Value>,
        val_symt: &mut SymTable<Value>,
        fuel: usize,
        span: Option<Span>,
        raw: String,
    ) -> (r: Result<Value, ZError>)
        requires
            old(val_symt).wf(),
        ensures
            final(val_symt).wf(),
            final(val_symt)@.len() == old(val_symt)@.len(),
            (result_view(r), final(val_symt)@) == call_proc(
                self@,
                values_view(args@),
                old(val_symt)@,
                fuel as nat,
                span,
                raw@,
            ),
        decreases fuel * 2,
    {
        match self {
            Proc::Builtin(b) => match b.apply(args) {
                Some(v) => Ok(v),
                None => Err(ZError::eval(EvalErrorKind::OperationFailed, span)),
            },
            Proc::Defined(d) => {
                if fuel == 0 {
                    return Err(ZError::eval(EvalErrorKind::DepthExceeded, span));
                }
                assert(d@.args.len() == d.args@.len());
                if args.len() != d.args.len() {
                    return Err(ZError::eval(EvalErrorKind::ArgumentCount, span));
                }
                let mut bound: NameMap<Value> = NameMap::new();
                let mut k: usize = 0;
                while k < args.len()
                    invariant
                        k <= args.len(),
                        args.len() == d.args.len(),
                        bound.wf(),
                        bound@ == bound_args(d@.args, values_view(args@), k as int),
                    decreases args.len() - k,
                {
                    assert(d@.args[k as int].name == d.args@[k as int].name@);
                    bound.insert(d.args[k].name.name.clone(), args[k].duplicate());
                    k += 1;
                }
                val_symt.add_frame(
                    Some(FrameData { pos: span, raw_call: raw, args: bound }),
                    if d.is_fn { FrameType::Function } else { FrameType::Normal },
                );
                let ghost entered = val_symt@;
                let ghost params = d@.args;
                let ghost values = values_view(args@);
                let mut i: usize = 0;
                while i < args.len()
                    invariant
                        val_symt.wf(),
                        val_symt@.len() == entered.len(),
                        i <= args.len(),
                        args.len() == d.args.len(),
                        params == arguments_view(d.args@),
                        values == values_view(args@),
                        bind_params(val_symt@, params, values, i as int) == bind_params(
                            entered,
                            params,
                            values,
                            0,
                        ),
                    decreases args.len() - i,
                {
                    assert(params[i as int].name == d.args@[i as int].name@);
                    val_symt.declare_val(&d.args[i].name.name, args[i].duplicate());
                    i += 1;
                }
                match d.content.interpret_block(val_symt, true, false, fuel - 1) {
                    Err(e) => {
                        val_symt.discard_frame();
                        Err(e)
                    },
                    Ok(v) => match val_symt.pop_frame(fuel - 1) {
                        Err(e) => Err(e),
                        Ok(Some(o)) => Ok(o),
                        Ok(None) => Ok(v),
                    },
                }
            },
        }
    }
}

impl Block {
    /// Evaluates the block: the statements in order, in a frame of its own
    /// where `add_frame` says so. A statement that gives a value on its way
    /// out ends the block; the value is unwrapped where the block is
    /// `returnable`. The frame is popped at the end and dropped at an error.
    #[verifier::loop_isolation(false)]
    pub fn interpret_block(
        &self,
        val_symt: &mut SymTable<Value>,
        returnable: bool,
        add_frame: bool,
        fuel: usize,
    ) -> (r: Result<Value, ZError>)
        requires
            old(val_symt).wf(),
        ensures
            final(val_symt).wf(),
            final(val_symt)@.len() == old(val_symt)@.len(),
            (result_view(r), final(val_symt)@) == eval_block(
                self@,
                old(val_symt)@,
                fuel as nat,
                returnable,
                add_frame,
            ),
        decreases fuel * 2 + 1, self, 0int,
    {
        if add_frame {
            val_symt.add_frame(None, FrameType::Normal);
        }
        let ghost st0 = val_symt@;
        let ghost items = self@.content;
        let mut last = Value::Unit;
        let mut i: usize = 0;
        let mut outcome: Option<Result<Value, ZError>> = None;
        while i < self.content.len() && outcome.is_none()
            invariant
                val_symt.wf(),
                val_symt@.len() == st0.len(),
                i <= self.content.len(),
                match outcome {
                    None => eval_items(items, i as int, val_symt@, fuel as nat, returnable, last@)
                        == eval_items(items, 0, st0, fuel as nat, returnable, ValueView::Unit),
                    Some(res) => (result_view(res), val_symt@) == eval_items(
                        items,
                        0,
                        st0,
                        fuel as nat,
                        returnable,
                        ValueView::Unit,
                    ),
                },
            decreases self.content.len() - i, if outcome is None { 1int } else { 0int },
        {
            proof {
                reveal_with_fuel(value_view, 2);
            }
            match self.content[i].interpret_expr(val_symt, fuel) {
                Err(e) => {
                    outcome = Some(Err(e));
                },
                Ok(Value::Return(v)) => {
                    outcome = Some(Ok(if returnable { *v } else { Value::Return(v) }));
                },
                Ok(v) => {
                    last = v;
                    i += 1;
                },
            }
        }
        let res = match outcome {
            Some(res) => res,
            None => Ok(last),
        };
        if !add_frame {
            return res;
        }
        match res {
            Err(e) => {
                val_symt.discard_frame();
                Err(e)
            },
            Ok(v) => match val_symt.pop_frame(fuel) {
                Err(e) => Err(e),
                Ok(Some(o)) => Ok(o),
                Ok(None) => Ok(v),
            },
        }
    }

    /// Evaluates the block in a frame of its own, as a returnable block.
    pub fn interpret_expr(&self, val_symt: &mut SymTable<Value>, fuel: usize) -> (r: Result<
        Value,
        ZError,
    >)
        requires
            old(val_symt).wf(),
        ensures
            final(val_symt).wf(),
            final(val_symt)@.len() == old(val_symt)@.len(),
            (result_view(r), final(val_symt)@) == eval(
                AstView::Block(self@),
                old(val_symt)@,
                fuel as nat,
            ),
        decreases fuel * 2 + 1, self, 1int,
    {
        self.interpret_block(val_symt, true, true, fuel)
    }
}

impl BinaryOpr {
    /// Evaluates the operator. `&&` gives `false` without evaluating its
    /// second operand where the first is `false`, and `||` gives `true`
    /// without evaluating its second operand where the first is `true`. A
    /// typecast calls the `_typecast` member of the type of its first operand.
    /// Any other operator is sugar: its operands are evaluated, the first
    /// error of an operand is handed on, and else it is an error itself.
    pub fn interpret_expr(&self, val_symt: &mut SymTable<Value>, fuel: usize) -> (r: Result<
        Value,
        ZError,
    >)
        requires
            old(val_symt).wf(),
        ensures
            final(val_symt).wf(),
            final(val_symt)@.len() == old(val_symt)@.len(),
            (result_view(r), final(val_symt)@) == eval_binary(
                self@,
                old(val_symt)@,
                fuel as nat,
            ),
        decreases fuel * 2 + 1, self, 0int,
    {
        proof {
            reveal_with_fuel(value_view, 2);
            reveal_with_fuel(ast_view, 2);
        }
        match self.ty {
            OprType::And | OprType::Or => {
                let first = match self.operand1.interpret_expr(val_symt, fuel) {
                    Err(e) => {
                        return Err(e);
                    },
                    Ok(Value::Bool(b)) => b,
                    Ok(_) => {
                        return Err(ZError::eval(EvalErrorKind::NotBool, self.operand1.span()));
                    },
                };
                if first == (self.ty == OprType::Or) {
                    return Ok(Value::Bool(first));
                }
                match self.operand2.interpret_expr(val_symt, fuel) {
                    Err(e) => Err(e),
                    Ok(Value::Bool(c)) => Ok(Value::Bool(c)),
                    Ok(_) => Err(ZError::eval(EvalErrorKind::NotBool, self.operand2.span())),
                }
            },
            OprType::TypeCast => {
                let v1 = match self.operand1.interpret_expr(val_symt, fuel) {
                    Err(e) => {
                        return Err(e);
                    },
                    Ok(v) => v,
                };
                let v2 = match self.operand2.interpret_expr(val_symt, fuel) {
                    Err(e) => {
                        return Err(e);
                    },
                    Ok(v) => v,
                };
                let def = v1.ty().implementation();
                let name = BuiltinOp::Typecast.name();
                match def.member_proc(&name) {
                    Some(p) => {
                        let mut args: Vec<Value> = Vec::new();
                        args.push(v1);
                        args.push(v2);
                        assert(values_view(args@) =~= seq![v1@, v2@]);
                        p.call(&args, val_symt, fuel, self.span(), self.reconstruct())
                    },
                    None => Err(ZError::eval(EvalErrorKind::NoSuchMember, self.span())),
                }
            },
            _ => {
                match self.operand1.interpret_expr(val_symt, fuel) {
                    Err(e) => {
                        return Err(e);
                    },
                    Ok(_) => {},
                }
                match self.operand2.interpret_expr(val_symt, fuel) {
                    Err(e) => {
                        return Err(e);
                    },
                    Ok(_) => {},
                }
                Err(ZError::eval(EvalErrorKind::NotCore, self.span()))
            },
        }
    }
}

/// Evaluates `args` in order and puts their values behind those in `acc`.
#[verifier::loop_isolation(false)]
fn interpret_args(args: &Vec<Ast>, val_symt: &mut SymTable<Value>, fuel: usize, acc: Vec<Value>) -> (r: Result<
    Vec<Value>,
    ZError,
>)
    requires
        old(val_symt).wf(),
    ensures
        final(val_symt).wf(),
        final(val_symt)@.len() == old(val_symt)@.len(),
        match r {
            Ok(values) => (Ok::<_, ZErrorView>(values_view(values@)), final(val_symt)@) == eval_args(
                asts_view(args@),
                0,
                old(val_symt)@,
                fuel as nat,
                values_view(acc@),
            ),
            Err(e) => (Err::<Seq<ValueView>, _>(e@), final(val_symt)@) == eval_args(
                asts_view(args@),
                0,
                old(val_symt)@,
                fuel as nat,
                values_view(acc@),
            ),
        },
    decreases fuel * 2 + 1, args, 0int,
{
    let ghost st0 = val_symt@;
    let ghost items = asts_view(args@);
    let ghost acc0 = values_view(acc@);
    let mut values = acc;
    let mut i: usize = 0;
    while i < args.len()
        invariant
            val_symt.wf(),
            val_symt@.len() == st0.len(),
            i <= args.len(),
            eval_args(items, i as int, val_symt@, fuel as nat, values_view(values@)) == eval_args(
                items,
                0,
                st0,
                fuel as nat,
                acc0,
            ),
        decreases args.len() - i,
    {
        match args[i].interpret_expr(val_symt, fuel) {
            Err(e) => {
                return Err(e);
            },
            Ok(v) => {
                assert(values_view(values@.push(v)) =~= values_view(values@).push(v@));
                values.push(v);
                i += 1;
            },
        }
    }
    Ok(values)
}

impl Call {
    /// Evaluates the call.
    pub fn interpret_expr(&self, val_symt: &mut SymTable<Value>, fuel: usize) -> (r: Result<
        Value,
        ZError,
    >)
        requires
            old(val_symt).wf(),
        ensures
            final(val_symt).wf(),
            final(val_symt)@.len() == old(val_symt)@.len(),
            (result_view(r), final(val_symt)@) == eval_call(self@, old(val_symt)@, fuel as nat),
        decreases fuel * 2 + 1, self, 1int,
    {
        match &*self.called {
            Ast::Member(m) => {
                assert(ast_view(*self.called) == AstView::Member(m@));
                if m.ty == AccessType::Method {
                    self.interpret_method(val_symt, fuel)
                } else {
                    self.interpret_plain(val_symt, fuel)
                }
            },
            _ => self.interpret_plain(val_symt, fuel),
        }
    }

    /// Calls the method that the called expression names, on the value of its parent.
    fn interpret_method(&self, val_symt: &mut SymTable<Value>, fuel: usize) -> (r: Result<
        Value,
        ZError,
    >)
        requires
            old(val_symt).wf(),
            *self.called is Member,
        ensures
            final(val_symt).wf(),
            final(val_symt)@.len() == old(val_symt)@.len(),
            (result_view(r), final(val_symt)@) == eval_method_call(
                self@,
                self@.called->Member_0,
                old(val_symt)@,
                fuel as nat,
            ),
        decreases fuel * 2 + 1, self, 0int,
    {
        match &*self.called {
            Ast::Member(m) => {
                assert(ast_view(*self.called) == AstView::Member(m@));
                assert(self@.called->Member_0 == m@);
                assert(*m@.parent == m.parent@);
                let v = match m.parent.interpret_expr(val_symt, fuel) {
                    Err(e) => {
                        return Err(e);
                    },
                    Ok(v) => v,
                };
                let def = v.ty().implementation();
                match def.member_proc(&m.name) {
                    None => Err(ZError::eval(EvalErrorKind::NoSuchMember, self.called.span())),
                    Some(p) => {
                        let mut receiver: Vec<Value> = Vec::new();
                        receiver.push(v);
                        assert(values_view(receiver@) =~= seq![v@]);
                        match interpret_args(&self.args, val_symt, fuel, receiver) {
                            Err(e) => Err(e),
                            Ok(args) => p.call(
                                &args,
                                val_symt,
                                fuel,
                                self.span(),
                                self.reconstruct_call(),
                            ),
                        }
                    },
                }
            },
            _ => Err(ZError::eval(EvalErrorKind::NotCallable, None)),
        }
    }

    /// Evaluates the called expression and calls what it gives.
    fn interpret_plain(&self, val_symt: &mut SymTable<Value>, fuel: usize) -> (r: Result<
        Value,
        ZError,
    >)
        requires
            old(val_symt).wf(),
        ensures
            final(val_symt).wf(),
            final(val_symt)@.len() == old(val_symt)@.len(),
            (result_view(r), final(val_symt)@) == eval_plain_call(
                self@,
                old(val_symt)@,
                fuel as nat,
            ),
        decreases fuel * 2 + 1, self, 0int,
    {
        proof {
            reveal_with_fuel(value_view, 2);
        }
        match self.called.interpret_expr(val_symt, fuel) {
            Err(e) => Err(e),
            Ok(Value::Proc(p)) => {
                let none: Vec<Value> = Vec::new();
                assert(values_view(none@) =~= Seq::empty());
                match interpret_args(&self.args, val_symt, fuel, none) {
                    Err(e) => Err(e),
                    Ok(args) => p.call(
                        &args,
                        val_symt,
                        fuel,
                        self.span(),
                        self.reconstruct_call(),
                    ),
                }
            },
            Ok(_) => Err(ZError::eval(EvalErrorKind::NotCallable, self.called.span())),
        }
    }
}

impl Member {
    /// Evaluates the member access.
    pub fn interpret_expr(&self, val_symt: &mut SymTable<Value>, fuel: usize) -> (r: Result<
        Value,
        ZError,
    >)
        requires
            old(val_symt).wf(),
        ensures
            final(val_symt).wf(),
            final(val_symt)@.len() == old(val_symt)@.len(),
            (result_view(r), final(val_symt)@) == eval_member(self@, old(val_symt)@, fuel as nat),
        decreases fuel * 2 + 1, self, 0int,
    {
        match self.parent.interpret_expr(val_symt, fuel) {
            Err(e) => Err(e),
            Ok(v) => {
                let def = namespace(&v, self.ty);
                match def.member_value(&self.name) {
                    Some(w) => Ok(w.duplicate()),
                    None => Err(ZError::eval(EvalErrorKind::NoSuchMember, self.span())),
                }
            },
        }
    }
}

impl Declare {
    /// Evaluates the declaration: the value of the content is bound in the
    /// innermost frame, and it is the value of the declaration.
    pub fn interpret_expr(&self, val_symt: &mut SymTable<Value>, fuel: usize) -> (r: Result<
        Value,
        ZError,
    >)
        requires
            old(val_symt).wf(),
        ensures
            final(val_symt).wf(),
            final(val_symt)@.len() == old(val_symt)@.len(),
            (result_view(r), final(val_symt)@) == eval_declare(self@, old(val_symt)@, fuel as nat),
        decreases fuel * 2 + 1, self, 0int,
    {
        proof {
            reveal_with_fuel(ast_view, 2);
        }
        match &*self.variable {
            Ast::Ident(id) => match self.content.interpret_expr(val_symt, fuel) {
                Err(e) => Err(e),
                Ok(v) => {
                    let copy = v.duplicate();
                    val_symt.declare_val(&id.name, v);
                    Ok(copy)
                },
            },
            _ => Err(ZError::eval(EvalErrorKind::NotAssignable, self.variable.span())),
        }
    }
}

impl Assign {
    /// Evaluates the assignment: the name gets the value of the content where
    /// it is bound, and that is the value of the assignment.
    pub fn interpret_expr(&self, val_symt: &mut SymTable<Value>, fuel: usize) -> (r: Result<
        Value,
        ZError,
    >)
        requires
            old(val_symt).wf(),
        ensures
            final(val_symt).wf(),
            final(val_symt)@.len() == old(val_symt)@.len(),
            (result_view(r), final(val_symt)@) == eval_assign(self@, old(val_symt)@, fuel as nat),
        decreases fuel * 2 + 1, self, 0int,
    {
        proof {
            reveal_with_fuel(ast_view, 2);
        }
        match &*self.variable {
            Ast::Ident(id) => match self.content.interpret_expr(val_symt, fuel) {
                Err(e) => Err(e),
                Ok(v) => {
                    let copy = v.duplicate();
                    match val_symt.set_val(&id.name, v, None) {
                        Ok(()) => Ok(copy),
                        Err(e) => Err(e.with_span(self.span())),
                    }
                },
            },
            _ => Err(ZError::eval(EvalErrorKind::NotAssignable, self.variable.span())),
        }
    }
}

impl Delete {
    /// Takes the names out of the innermost frame, one after the other.
    /// Outer frames are not searched: a name that the innermost frame does not
    /// bind is an undeclared-name error, whatever outer frames bind.
    #[verifier::loop_isolation(false)]
    pub fn interpret_expr(&self, val_symt: &mut SymTable<Value>) -> (r: Result<Value, ZError>)
        requires
            old(val_symt).wf(),
        ensures
            final(val_symt).wf(),
            final(val_symt)@.len() == old(val_symt)@.len(),
            (result_view(r), final(val_symt)@) == eval_delete(self@, 0, old(val_symt)@),
    {
        let ghost st0 = val_symt@;
        let mut i: usize = 0;
        while i < self.names.len()
            invariant
                val_symt.wf(),
                val_symt@.len() == st0.len(),
                i <= self.names.len(),
                eval_delete(self@, i as int, val_symt@) == eval_delete(self@, 0, st0),
            decreases self.names.len() - i,
        {
            assert(self@.names[i as int] == self.names@[i as int]@);
            match val_symt.delete_val(&self.names[i].name, None) {
                Ok(_) => {
                    i += 1;
                },
                Err(e) => {
                    return Err(e.with_span(self.span()));
                },
            }
        }
        Ok(Value::Unit)
    }
}

impl Procedure {
    /// Evaluates the literal: it gives the procedure, with its return type evaluated.
    pub fn interpret_expr(&self, val_symt: &mut SymTable<Value>, fuel: usize) -> (r: Result<
        Value,
        ZError,
    >)
        requires
            old(val_symt).wf(),
        ensures
            final(val_symt).wf(),
            final(val_symt)@.len() == old(val_symt)@.len(),
            (result_view(r), final(val_symt)@) == eval_procedure(
                self@,
                old(val_symt)@,
                fuel as nat,
            ),
        decreases fuel * 2 + 1, self, 0int,
    {
        proof {
            reveal_with_fuel(value_view, 4);
        }
        let return_type = match &self.return_type {
            None => Prim::Unit.ty(),
            Some(ty) => match ty.interpret_expr(val_symt, fuel) {
                Err(e) => {
                    return Err(e);
                },
                Ok(Value::Type(t)) => t,
                Ok(_) => {
                    return Err(ZError::eval(EvalErrorKind::NotAType, ty.span()));
                },
            },
        };
        Ok(
            Value::Proc(
                Proc::Defined(
                    DefinedProc {
                        is_fn: self.is_fn,
                        args: duplicate_arguments(&self.args),
                        return_type: Box::new(return_type),
                        content: self.content.duplicate(),
                    },
                ),
            ),
        )
    }
}

pub open spec fn type_result_view(r: Result<Type, ZError>) -> Result<TypeView, ZErrorView> {
    match r {
        Ok(t) => Ok(t@),
        Err(e) => Err(e@),
    }
}

/// The type that a type expression evaluated to, or why it is none.
pub fn expect_type(r: Result<Value, ZError>, span: Option<Span>) -> (t: Result<Type, ZError>)
    ensures
        type_result_view(t) == as_type(result_view(r), span),
{
    proof {
        reveal_with_fuel(value_view, 2);
    }
    match r {
        Err(e) => Err(e),
        Ok(Value::Type(t)) => Ok(t),
        Ok(_) => Err(ZError::eval(EvalErrorKind::NotAType, span)),
    }
}

#[verifier::loop_isolation(false)]
pub fn interpret_members(
    members: &Vec<(String, Ast)>,
    val_symt: &mut SymTable<Value>,
    fuel: usize,
    acc: Vec<(String, Ast)>,
) -> (r: Result<Vec<(String, Ast)>, ZError>)
    requires
        old(val_symt).wf(),
    ensures
        final(val_symt).wf(),
        final(val_symt)@.len() == old(val_symt)@.len(),
        (match r {
            Ok(out) => Ok(named_asts_view(out@)),
            Err(e) => Err(e@),
        }, final(val_symt)@) == eval_members(
            named_asts_view(members@),
            0,
            old(val_symt)@,
            fuel as nat,
            named_asts_view(acc@),
        ),
    decreases fuel * 2 + 1, members, 0int,
{
    let ghost st0 = val_symt@;
    let ghost items = named_asts_view(members@);
    let ghost acc0 = named_asts_view(acc@);
    let mut out = acc;
    let mut i: usize = 0;
    while i < members.len()
        invariant
            val_symt.wf(),
            val_symt@.len() == st0.len(),
            i <= members.len(),
            eval_members(items, i as int, val_symt@, fuel as nat, named_asts_view(out@))
                == eval_members(items, 0, st0, fuel as nat, acc0),
        decreases members.len() - i,
    {
        match members[i].1.interpret_expr(val_symt, fuel) {
            Err(e) => {
                return Err(e);
            },
            Ok(v) => {
                put_member(&mut out, members[i].0.clone(), literal(v));
                i += 1;
            },
        }
    }
    Ok(out)
}

#[verifier::loop_isolation(false)]
fn interpret_fields(
    fields: &Vec<Argument>,
    val_symt: &mut SymTable<Value>,
    fuel: usize,
    acc: Vec<Field>,
) -> (r: Result<Vec<Field>, ZError>)
    requires
        old(val_symt).wf(),
    ensures
        final(val_symt).wf(),
        final(val_symt)@.len() == old(val_symt)@.len(),
        (match r {
            Ok(out) => Ok(fields_view(out@)),
            Err(e) => Err(e@),
        }, final(val_symt)@) == eval_fields(
            arguments_view(fields@),
            0,
            old(val_symt)@,
            fuel as nat,
            fields_view(acc@),
        ),
    decreases fuel * 2 + 1, fields, 0int,
{
    let ghost st0 = val_symt@;
    let ghost items = arguments_view(fields@);
    let ghost acc0 = fields_view(acc@);
    let mut out = acc;
    let mut i: usize = 0;
    while i < fields.len()
        invariant
            val_symt.wf(),
            val_symt@.len() == st0.len(),
            i <= fields.len(),
            eval_fields(items, i as int, val_symt@, fuel as nat, fields_view(out@)) == eval_fields(
                items,
                0,
                st0,
                fuel as nat,
                acc0,
            ),
        decreases fields.len() - i,
    {
        let f = &fields[i];
        assert(items[i as int] == f@);
        let span = f.ty.span();
        let t = match expect_type(f.ty.interpret_expr(val_symt, fuel), span) {
            Err(e) => {
                return Err(e);
            },
            Ok(t) => t,
        };
        let default = match &f.default {
            None => None,
            Some(d) => match d.interpret_expr(val_symt, fuel) {
                Err(e) => {
                    return Err(e);
                },
                Ok(v) => Some(literal(v)),
            },
        };
        let field = Field { name: f.name.name.clone(), ty: t, default };
        put_field(&mut out, field);
        i += 1;
    }
    Ok(out)
}

#[verifier::loop_isolation(false)]
fn interpret_body(
    items: &Vec<Ast>,
    val_symt: &mut SymTable<Value>,
    fuel: usize,
    members: Vec<(String, Ast)>,
    fields: Vec<Field>,
) -> (r: Result<(Vec<(String, Ast)>, Vec<Field>), ZError>)
    requires
        old(val_symt).wf(),
    ensures
        final(val_symt).wf(),
        final(val_symt)@.len() == old(val_symt)@.len(),
        (match r {
            Ok(out) => Ok((named_asts_view(out.0@), fields_view(out.1@))),
            Err(e) => Err(e@),
        }, final(val_symt)@) == eval_body(
            asts_view(items@),
            0,
            old(val_symt)@,
            fuel as nat,
            named_asts_view(members@),
            fields_view(fields@),
        ),
    decreases fuel * 2 + 1, items, 0int,
{
    proof {
        reveal_with_fuel(ast_view, 3);
    }
    let ghost st0 = val_symt@;
    let ghost views = asts_view(items@);
    let ghost members0 = named_asts_view(members@);
    let ghost fields0 = fields_view(fields@);
    let mut all_members = members;
    let mut all_fields = fields;
    let mut i: usize = 0;
    while i < items.len()
        invariant
            val_symt.wf(),
            val_symt@.len() == st0.len(),
            i <= items.len(),
            eval_body(
                views,
                i as int,
                val_symt@,
                fuel as nat,
                named_asts_view(all_members@),
                fields_view(all_fields@),
            ) == eval_body(views, 0, st0, fuel as nat, members0, fields0),
        decreases items.len() - i,
    {
        assert(views[i as int] == items@[i as int]@);
        match &items[i] {
            Ast::Declare(d) => match &*d.variable {
                Ast::Ident(id) => {
                    if has_inst(&d.flags) {
                        match &d.ty {
                            Some(ty) => {
                                let span = ty.span();
                                let t = match expect_type(
                                    ty.interpret_expr(val_symt, fuel),
                                    span,
                                ) {
                                    Err(e) => {
                                        return Err(e);
                                    },
                                    Ok(t) => t,
                                };
                                match d.content.interpret_expr(val_symt, fuel) {
                                    Err(e) => {
                                        return Err(e);
                                    },
                                    Ok(v) => {
                                        let field = Field {
                                            name: id.name.clone(),
                                            ty: t,
                                            default: Some(literal(v)),
                                        };
                                        put_field(&mut all_fields, field);
                                    },
                                }
                            },
                            None => {
                                return Err(
                                    ZError::eval(EvalErrorKind::NotAType, items[i].span()),
                                );
                            },
                        }
                    } else {
                        match d.content.interpret_expr(val_symt, fuel) {
                            Err(e) => {
                                return Err(e);
                            },
                            Ok(v) => {
                                put_member(&mut all_members, id.name.clone(), literal(v));
                            },
                        }
                    }
                },
                _ => {
                    return Err(ZError::eval(EvalErrorKind::NotAssignable, d.variable.span()));
                },
            },
            _ => {},
        }
        i += 1;
    }
    Ok((all_members, all_fields))
}

/// The name that the definition of a class or struct shows.
pub fn class_name_string(is_struct: bool) -> (r: String)
    ensures
        r@ == class_name(is_struct),
{
    if is_struct {
        String::from_str("struct")
    } else {
        String::from_str("class")
    }
}

impl Class {
    /// Evaluates the literal: it gives a type definition with the members and
    /// the instance fields evaluated, those that the node lists first, then
    /// those that its body declares. The definition keeps them in the order
    /// of their names, so that it is the same in whatever order they were
    /// declared.
    pub fn interpret_expr(&self, val_symt: &mut SymTable<Value>, fuel: usize) -> (r: Result<
        Value,
        ZError,
    >)
        requires
            old(val_symt).wf(),
        ensures
            final(val_symt).wf(),
            final(val_symt)@.len() == old(val_symt)@.len(),
            (result_view(r), final(val_symt)@) == eval_class(self@, old(val_symt)@, fuel as nat),
            result_view(r) matches Ok(ValueView::Type(TypeView::Definition(d))) ==> d.wf(),
        decreases fuel * 2 + 1, self, 0int,
    {
        proof {
            crate::ast::members::lemma_eval_class_wf(self@, old(val_symt)@, fuel as nat);
        }
        proof {
            reveal_with_fuel(value_view, 4);
        }
        let no_members: Vec<(String, Ast)> = Vec::new();
        let no_fields: Vec<Field> = Vec::new();
        assert(named_asts_view(no_members@) =~= Seq::empty());
        assert(fields_view(no_fields@) =~= Seq::empty());
        let members = match interpret_members(&self.implementations, val_symt, fuel, no_members) {
            Err(e) => {
                return Err(e);
            },
            Ok(m) => m,
        };
        let fields = match interpret_fields(&self.inst_fields, val_symt, fuel, no_fields) {
            Err(e) => {
                return Err(e);
            },
            Ok(f) => f,
        };
        let (all_members, all_fields) = match &self.content {
            Some(b) => match interpret_body(&b.content, val_symt, fuel, members, fields) {
                Err(e) => {
                    return Err(e);
                },
                Ok(out) => out,
            },
            None => (members, fields),
        };
        let def = TypeDefinition {
            inst_name: None,
            name: Some(class_name_string(self.is_struct)),
            generics: Vec::new(),
            implementations: all_members,
            inst_fields: all_fields,
        };
        assert(def@.generics =~= Seq::empty());
        Ok(Value::Type(Type::Definition(def)))
    }
}

impl Ast {
    /// Evaluates the tree in `val_symt`, with `fuel` as the budget for nested calls.
    pub fn interpret_expr(&self, val_symt: &mut SymTable<Value>, fuel: usize) -> (r: Result<
        Value,
        ZError,
    >)
        requires
            old(val_symt).wf(),
        ensures
            final(val_symt).wf(),
            final(val_symt)@.len() == old(val_symt)@.len(),
            (result_view(r), final(val_symt)@) == eval(self@, old(val_symt)@, fuel as nat),
        decreases fuel * 2 + 1, self, 1int,
    {
        proof {
            reveal_with_fuel(ast_view, 2);
            reveal_with_fuel(value_view, 2);
        }
        match self {
            Ast::Literal(n) => Ok(n.content.duplicate()),
            Ast::Ident(n) => match val_symt.get_val(&n.name, n.name_span) {
                Ok(v) => Ok(v.duplicate()),
                Err(e) => Err(e),
            },
            Ast::BinaryOpr(n) => n.interpret_expr(val_symt, fuel),
            Ast::Block(n) => n.interpret_block(val_symt, true, true, fuel),
            Ast::Declare(n) => n.interpret_expr(val_symt, fuel),
            Ast::Assign(n) => n.interpret_expr(val_symt, fuel),
            Ast::Delete(n) => n.interpret_expr(val_symt),
            Ast::Class(n) => n.interpret_expr(val_symt, fuel),
            Ast::Call(n) => n.interpret_expr(val_symt, fuel),
            Ast::Member(n) => n.interpret_expr(val_symt, fuel),
            Ast::Procedure(n) => n.interpret_expr(val_symt, fuel),
            Ast::Return(n) => match n.value.interpret_expr(val_symt, fuel) {
                Ok(v) => Ok(Value::Return(Box::new(v))),
                Err(e) => Err(e),
            },
            Ast::Defer(n) => {
                val_symt.add_defer(n.content.duplicate());
                Ok(Value::Unit)
            },
            Ast::UnaryOpr(n) => match n.operand.interpret_expr(val_symt, fuel) {
                Err(e) => Err(e),
                Ok(_) => Err(ZError::eval(EvalErrorKind::NotCore, self.span())),
            },
        }
    }
}

} // verus!
