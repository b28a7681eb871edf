//! The built-in primitive types: their names, the operations each of them
//! registers in its namespace, and what those operations compute.
use vstd::prelude::*;
use vstd::string::{StrSliceExecFns, StringExecFns};
use crate::ast::{Ast, AstView};
use crate::ast::literal::{Literal, LiteralView};
use crate::ast::view::{ast_view, named_asts_view, type_view, value_view};
use crate::types::namespace::{put_member, with_member};
use crate::text::{concat, decimal_text, format_decimal, parse_decimal, signed_decimal_value};
use crate::types::typeobj::{Type, TypeDefinition, TypeDefinitionView, TypeInstance, TypeInstanceView, TypeView};
use crate::types::value::{Builtin, BuiltinOp, IntKind, Prim, Proc, ProcView, Value, ValueView};

verus! {

pub open spec fn int_kind_name(k: IntKind) -> Seq<char> {
    match k {
        IntKind::I8 => "i8"@,
        IntKind::I16 => "i16"@,
        IntKind::I32 => "i32"@,
        IntKind::I64 => "i64"@,
        IntKind::I128 => "i128"@,
        IntKind::Isize => "isize"@,
        IntKind::U8 => "u8"@,
        IntKind::U16 => "u16"@,
        IntKind::U32 => "u32"@,
        IntKind::U64 => "u64"@,
        IntKind::Usize => "usize"@,
    }
}

/// The name under which a primitive type is bound.
pub open spec fn prim_name(p: Prim) -> Seq<char> {
    match p {
        Prim::Int(k) => int_kind_name(k),
        Prim::Bool => "bool"@,
        Prim::Str => "str"@,
        Prim::Unit => "_unit"@,
        Prim::Type => "type"@,
        Prim::Proc => "proc"@,
        Prim::U128 => "u128"@,
        Prim::Ibig => "ibig"@,
        Prim::Ubig => "ubig"@,
        Prim::F16 => "f16"@,
        Prim::F32 => "f32"@,
        Prim::F64 => "f64"@,
    }
}

/// The name that the definition of a primitive type shows.
pub open spec fn builtin_name(p: Prim) -> Seq<char> {
    "{builtin "@ + prim_name(p) + "}"@
}

/// The member name under which an operation is registered.
pub open spec fn op_name(op: BuiltinOp) -> Seq<char> {
    match op {
        BuiltinOp::Add => "_add"@,
        BuiltinOp::Sub => "_sub"@,
        BuiltinOp::Mul => "_mul"@,
        BuiltinOp::Div => "_div"@,
        BuiltinOp::Rem => "_rem"@,
        BuiltinOp::Eq => "_eq"@,
        BuiltinOp::Ne => "_ne"@,
        BuiltinOp::Lt => "_lt"@,
        BuiltinOp::Le => "_le"@,
        BuiltinOp::Gt => "_gt"@,
        BuiltinOp::Ge => "_ge"@,
        BuiltinOp::Concat => "_concat"@,
        BuiltinOp::Typecast => "_typecast"@,
        BuiltinOp::Not => "_not"@,
        BuiltinOp::UnPlus => "_un_plus"@,
        BuiltinOp::UnMinus => "_un_minus"@,
    }
}

/// Every operation. A namespace lists those that it has in the order of
/// their names.
pub open spec fn builtin_ops() -> Seq<BuiltinOp> {
    seq![
        BuiltinOp::Add,
        BuiltinOp::Sub,
        BuiltinOp::Mul,
        BuiltinOp::Div,
        BuiltinOp::Rem,
        BuiltinOp::Eq,
        BuiltinOp::Ne,
        BuiltinOp::Lt,
        BuiltinOp::Le,
        BuiltinOp::Gt,
        BuiltinOp::Ge,
        BuiltinOp::Concat,
        BuiltinOp::Typecast,
        BuiltinOp::Not,
        BuiltinOp::UnPlus,
        BuiltinOp::UnMinus,
    ]
}

/// Every primitive type that a fresh table binds, in the order in which it
/// binds them. The type of procedures is no name of the language.
pub open spec fn all_prims() -> Seq<Prim> {
    seq![
        Prim::Str,
        Prim::Bool,
        Prim::Int(IntKind::I8),
        Prim::Int(IntKind::I16),
        Prim::Int(IntKind::I32),
        Prim::Int(IntKind::I64),
        Prim::Int(IntKind::I128),
        Prim::Int(IntKind::Isize),
        Prim::Ibig,
        Prim::Int(IntKind::U8),
        Prim::Int(IntKind::U16),
        Prim::Int(IntKind::U32),
        Prim::Int(IntKind::U64),
        Prim::U128,
        Prim::Int(IntKind::Usize),
        Prim::Ubig,
        Prim::F16,
        Prim::F32,
        Prim::F64,
        Prim::Unit,
        Prim::Type,
    ]
}

/// Whether a primitive type registers an operation.
pub open spec fn prim_has(p: Prim, op: BuiltinOp) -> bool {
    match p {
        Prim::Int(_) => op != BuiltinOp::Concat && op != BuiltinOp::Not,
        Prim::Bool => op == BuiltinOp::Eq || op == BuiltinOp::Ne || op == BuiltinOp::Typecast || op
            == BuiltinOp::Not,
        Prim::Str => op == BuiltinOp::Eq || op == BuiltinOp::Ne || op == BuiltinOp::Concat || op
            == BuiltinOp::Typecast,
        Prim::Unit => op == BuiltinOp::Eq || op == BuiltinOp::Ne || op == BuiltinOp::Typecast,
        Prim::Type => op == BuiltinOp::Eq || op == BuiltinOp::Ne || op == BuiltinOp::Typecast,
        Prim::Proc => false,
        Prim::U128 | Prim::Ibig | Prim::Ubig | Prim::F16 | Prim::F32 | Prim::F64 => false,
    }
}

/// The callable binding of an operation, as it stands in a namespace.
pub open spec fn member_literal(p: Prim, op: BuiltinOp) -> AstView {
    AstView::Literal(
        LiteralView { span: None, content: ValueView::Proc(ProcView::Builtin(Builtin { prim: p, op })) },
    )
}

/// The members that the first `n` operations contribute to the namespace of
/// `p`, in the order of their names.
pub open spec fn members_upto(p: Prim, n: int) -> Seq<(Seq<char>, AstView)>
    decreases n,
{
    if n <= 0 {
        Seq::empty()
    } else {
        let before = members_upto(p, n - 1);
        let op = builtin_ops()[n - 1];
        if prim_has(p, op) {
            with_member(before, op_name(op), member_literal(p, op))
        } else {
            before
        }
    }
}

/// The definition of a primitive type.
pub open spec fn prim_definition(p: Prim) -> TypeDefinitionView {
    TypeDefinitionView {
        inst_name: Some(prim_name(p)),
        name: Some(builtin_name(p)),
        generics: Seq::empty(),
        implementations: members_upto(p, builtin_ops().len() as int),
        inst_fields: Seq::empty(),
    }
}

/// The type that a definition stands for when it is used: an instance of
/// it, except for the type of types, which is its own instance.
pub open spec fn instance_of(d: TypeDefinitionView) -> TypeView {
    if d == prim_definition(Prim::Type) {
        TypeView::Definition(d)
    } else {
        TypeView::Instance(
            TypeInstanceView { name: d.inst_name, type_args: Seq::empty(), implementation: d },
        )
    }
}

/// The instance that binds the declared parameters of a definition to
/// `args`, one argument for each parameter. Without parameters this is the
/// type that the definition stands for.
pub open spec fn instantiated(d: TypeDefinitionView, args: Seq<TypeView>) -> Option<TypeView> {
    if args.len() != d.generics.len() {
        None
    } else if args.len() == 0 {
        Some(instance_of(d))
    } else {
        Some(
            TypeView::Instance(
                TypeInstanceView { name: d.inst_name, type_args: args, implementation: d },
            ),
        )
    }
}

/// A primitive type.
pub open spec fn prim_type(p: Prim) -> TypeView {
    instance_of(prim_definition(p))
}

/// The type of procedures that return `ret`.
pub open spec fn proc_type(ret: TypeView) -> TypeView {
    TypeView::Instance(
        TypeInstanceView {
            name: Some(prim_name(Prim::Proc)),
            type_args: seq![ret],
            implementation: prim_definition(Prim::Proc),
        },
    )
}

/// What a built-in operation returns.
pub open spec fn builtin_return_type(b: Builtin) -> TypeView {
    match b.op {
        BuiltinOp::Add | BuiltinOp::Sub | BuiltinOp::Mul | BuiltinOp::Div | BuiltinOp::Rem
        | BuiltinOp::Concat | BuiltinOp::UnPlus | BuiltinOp::UnMinus => prim_type(b.prim),
        BuiltinOp::Eq | BuiltinOp::Ne | BuiltinOp::Lt | BuiltinOp::Le | BuiltinOp::Gt
        | BuiltinOp::Ge | BuiltinOp::Not => prim_type(Prim::Bool),
        BuiltinOp::Typecast => TypeView::Any,
    }
}

/// The type of a value.
pub open spec fn type_of(v: ValueView) -> TypeView
    decreases v,
{
    match v {
        ValueView::Int(k, _) => prim_type(Prim::Int(k)),
        ValueView::Bool(_) => prim_type(Prim::Bool),
        ValueView::Str(_) => prim_type(Prim::Str),
        ValueView::Type(_) => prim_type(Prim::Type),
        ValueView::Proc(ProcView::Builtin(b)) => proc_type(builtin_return_type(b)),
        ValueView::Proc(ProcView::Defined(d)) => proc_type(*d.return_type),
        ValueView::Unit => prim_type(Prim::Unit),
        ValueView::Return(v) => TypeView::Return(Box::new(type_of(*v))),
    }
}

/// The definition in whose namespace the members of a type are looked up.
pub open spec fn implementation_of(t: TypeView) -> TypeDefinitionView
    decreases t,
{
    match t {
        TypeView::Instance(i) => i.implementation,
        TypeView::Definition(_) => prim_definition(Prim::Type),
        TypeView::Any => prim_definition(Prim::Unit),
        TypeView::Return(t) => implementation_of(*t),
    }
}

/// Which primitive type `t` is, if it is one.
pub open spec fn prim_of_type_upto(t: TypeView, n: int) -> Option<Prim>
    decreases n,
{
    if n <= 0 {
        None
    } else {
        match prim_of_type_upto(t, n - 1) {
            Some(p) => Some(p),
            None => if t == prim_type(all_prims()[n - 1]) {
                Some(all_prims()[n - 1])
            } else {
                None
            },
        }
    }
}

pub proof fn lemma_prim_of_type_stable(t: TypeView, n: int, m: int)
    requires
        n <= m,
        prim_of_type_upto(t, n) is Some,
    ensures
        prim_of_type_upto(t, m) == prim_of_type_upto(t, n),
    decreases m - n,
{
    if n < m {
        lemma_prim_of_type_stable(t, n, m - 1);
    }
}

pub open spec fn prim_of_type(t: TypeView) -> Option<Prim> {
    prim_of_type_upto(t, all_prims().len() as int)
}

pub open spec fn int_min(k: IntKind) -> int {
    match k {
        IntKind::I8 => -0x80,
        IntKind::I16 => -0x8000,
        IntKind::I32 => -0x8000_0000,
        IntKind::I64 => -0x8000_0000_0000_0000,
        IntKind::I128 => -0x8000_0000_0000_0000_0000_0000_0000_0000,
        IntKind::Isize => isize::MIN as int,
        IntKind::U8 | IntKind::U16 | IntKind::U32 | IntKind::U64 | IntKind::Usize => 0,
    }
}

pub open spec fn int_max(k: IntKind) -> int {
    match k {
        IntKind::I8 => 0x7f,
        IntKind::I16 => 0x7fff,
        IntKind::I32 => 0x7fff_ffff,
        IntKind::I64 => 0x7fff_ffff_ffff_ffff,
        IntKind::I128 => 0x7fff_ffff_ffff_ffff_ffff_ffff_ffff_ffff,
        IntKind::Isize => isize::MAX as int,
        IntKind::U8 => 0xff,
        IntKind::U16 => 0xffff,
        IntKind::U32 => 0xffff_ffff,
        IntKind::U64 => 0xffff_ffff_ffff_ffff,
        IntKind::Usize => usize::MAX as int,
    }
}

/// Whether `v` is a value of the integer kind `k`.
pub open spec fn in_range(k: IntKind, v: int) -> bool {
    int_min(k) <= v <= int_max(k)
}

/// The quotient rounded toward zero.
pub open spec fn trunc_div(x: int, d: int) -> int {
    if x == 0 {
        0
    } else if x > 0 && d > 0 {
        x / d
    } else if x < 0 && d < 0 {
        ((x * -1) / (d * -1))
    } else if x < 0 {
        ((x * -1) / d) * -1
    } else {
        (x / (d * -1)) * -1
    }
}

/// The remainder that goes with `trunc_div`; it has the sign of `x`.
pub open spec fn trunc_rem(x: int, d: int) -> int {
    if x == 0 {
        0
    } else if x > 0 && d > 0 {
        x % d
    } else if x < 0 && d < 0 {
        ((x * -1) % (d * -1)) * -1
    } else if x < 0 {
        ((x * -1) % d) * -1
    } else {
        x % (d * -1)
    }
}

/// What an arithmetic operation makes of two integers, before the result is
/// held against the range of its kind. Division by zero has no result.
pub open spec fn int_arith(op: BuiltinOp, a: int, b: int) -> Option<int> {
    match op {
        BuiltinOp::Add => Some(a + b),
        BuiltinOp::Sub => Some(a - b),
        BuiltinOp::Mul => Some(a * b),
        BuiltinOp::Div => if b == 0 {
            None
        } else {
            Some(trunc_div(a, b))
        },
        BuiltinOp::Rem => if b == 0 {
            None
        } else {
            Some(trunc_rem(a, b))
        },
        _ => None,
    }
}

pub open spec fn int_compare(op: BuiltinOp, a: int, b: int) -> Option<bool> {
    match op {
        BuiltinOp::Eq => Some(a == b),
        BuiltinOp::Ne => Some(a != b),
        BuiltinOp::Lt => Some(a < b),
        BuiltinOp::Le => Some(a <= b),
        BuiltinOp::Gt => Some(a > b),
        BuiltinOp::Ge => Some(a >= b),
        _ => None,
    }
}

/// What `==` and `!=` make of the answer to "are they equal?".
pub open spec fn equality(op: BuiltinOp, equal: bool) -> Option<ValueView> {
    match op {
        BuiltinOp::Eq => Some(ValueView::Bool(equal)),
        BuiltinOp::Ne => Some(ValueView::Bool(!equal)),
        _ => None,
    }
}

pub open spec fn bool_text(b: bool) -> Seq<char> {
    if b {
        "true"@
    } else {
        "false"@
    }
}

/// The value `v` as a value of the primitive type `target`, where there is a conversion.
pub open spec fn cast_value(v: ValueView, target: Prim) -> Option<ValueView> {
    if target == Prim::Type {
        Some(ValueView::Type(type_of(v)))
    } else {
        match (v, target) {
            (ValueView::Int(_, n), Prim::Int(k)) => if in_range(k, n) {
                Some(ValueView::Int(k, n))
            } else {
                None
            },
            (ValueView::Int(_, n), Prim::Bool) => Some(ValueView::Bool(n != 0)),
            (ValueView::Int(_, n), Prim::Str) => Some(ValueView::Str(decimal_text(n))),
            (ValueView::Bool(b), Prim::Bool) => Some(v),
            (ValueView::Bool(b), Prim::Str) => Some(ValueView::Str(bool_text(b))),
            (ValueView::Bool(b), Prim::Int(k)) => Some(ValueView::Int(k, if b { 1 } else { 0 })),
            (ValueView::Str(s), Prim::Str) => Some(v),
            (ValueView::Str(s), Prim::Bool) => Some(ValueView::Bool(s.len() == 0)),
            (ValueView::Str(s), Prim::Int(k)) => match signed_decimal_value(s) {
                Some(n) => if in_range(k, n) {
                    Some(ValueView::Int(k, n))
                } else {
                    None
                },
                None => None,
            },
            (ValueView::Unit, Prim::Unit) => Some(v),
            _ => None,
        }
    }
}

/// Whether `v` is a value of the primitive type `p`.
pub open spec fn is_of_prim(v: ValueView, p: Prim) -> bool {
    match (v, p) {
        (ValueView::Int(k, _), Prim::Int(l)) => k == l,
        (ValueView::Bool(_), Prim::Bool) => true,
        (ValueView::Str(_), Prim::Str) => true,
        (ValueView::Unit, Prim::Unit) => true,
        (ValueView::Type(_), Prim::Type) => true,
        (ValueView::Proc(_), Prim::Proc) => true,
        _ => false,
    }
}

/// Whether the operation takes one argument.
pub open spec fn is_unary(op: BuiltinOp) -> bool {
    op == BuiltinOp::Not || op == BuiltinOp::UnPlus || op == BuiltinOp::UnMinus
}

/// What an operation of one argument computes.
pub open spec fn unary_result(op: BuiltinOp, v: ValueView) -> Option<ValueView> {
    match (op, v) {
        (BuiltinOp::Not, ValueView::Bool(b)) => Some(ValueView::Bool(!b)),
        (BuiltinOp::UnPlus, ValueView::Int(k, n)) => if in_range(k, n) {
            Some(ValueView::Int(k, n))
        } else {
            None
        },
        (BuiltinOp::UnMinus, ValueView::Int(k, n)) => if in_range(k, -n) {
            Some(ValueView::Int(k, -n))
        } else {
            None
        },
        _ => None,
    }
}

/// What a built-in operation computes. An operation takes two arguments, the
/// first of its own type; it has no result where it is handed anything else,
/// where the type does not register it, or where the result does not fit.
pub open spec fn builtin_result(b: Builtin, args: Seq<ValueView>) -> Option<ValueView> {
    if args.len() == 0 || !prim_has(b.prim, b.op) || !is_of_prim(args[0], b.prim) {
        None
    } else if is_unary(b.op) {
        if args.len() == 1 {
            unary_result(b.op, args[0])
        } else {
            None
        }
    } else if args.len() != 2 {
        None
    } else if b.op == BuiltinOp::Typecast {
        match args[1] {
            ValueView::Type(t) => match prim_of_type(t) {
                Some(target) => cast_value(args[0], target),
                None => None,
            },
            _ => None,
        }
    } else {
        match (args[0], args[1]) {
            (ValueView::Int(k, x), ValueView::Int(l, y)) => if k != l {
                None
            } else {
                match int_compare(b.op, x, y) {
                    Some(r) => Some(ValueView::Bool(r)),
                    None => match int_arith(b.op, x, y) {
                        Some(r) => if in_range(k, r) {
                            Some(ValueView::Int(k, r))
                        } else {
                            None
                        },
                        None => None,
                    },
                }
            },
            (ValueView::Bool(x), ValueView::Bool(y)) => equality(b.op, x == y),
            (ValueView::Str(x), ValueView::Str(y)) => if b.op == BuiltinOp::Concat {
                Some(ValueView::Str(x + y))
            } else {
                equality(b.op, x == y)
            },
            (ValueView::Unit, ValueView::Unit) => equality(b.op, true),
            (ValueView::Type(x), ValueView::Type(y)) => equality(b.op, x == y),
            _ => None,
        }
    }
}

impl IntKind {
    pub fn name(&self) -> (r: String)
        ensures
            r@ == int_kind_name(*self),
    {
        match self {
            IntKind::I8 => String::from_str("i8"),
            IntKind::I16 => String::from_str("i16"),
            IntKind::I32 => String::from_str("i32"),
            IntKind::I64 => String::from_str("i64"),
            IntKind::I128 => String::from_str("i128"),
            IntKind::Isize => String::from_str("isize"),
            IntKind::U8 => String::from_str("u8"),
            IntKind::U16 => String::from_str("u16"),
            IntKind::U32 => String::from_str("u32"),
            IntKind::U64 => String::from_str("u64"),
            IntKind::Usize => String::from_str("usize"),
        }
    }

    /// The least value of the kind.
    pub fn min(&self) -> (r: i128)
        ensures
            r == int_min(*self),
    {
        match self {
            IntKind::I8 => -0x80,
            IntKind::I16 => -0x8000,
            IntKind::I32 => -0x8000_0000,
            IntKind::I64 => -0x8000_0000_0000_0000,
            IntKind::I128 => -0x7fff_ffff_ffff_ffff_ffff_ffff_ffff_ffff - 1,
            IntKind::Isize => isize::MIN as i128,
            IntKind::U8 | IntKind::U16 | IntKind::U32 | IntKind::U64 | IntKind::Usize => 0,
        }
    }

    /// The greatest value of the kind.
    pub fn max(&self) -> (r: i128)
        ensures
            r == int_max(*self),
    {
        match self {
            IntKind::I8 => 0x7f,
            IntKind::I16 => 0x7fff,
            IntKind::I32 => 0x7fff_ffff,
            IntKind::I64 => 0x7fff_ffff_ffff_ffff,
            IntKind::I128 => 0x7fff_ffff_ffff_ffff_ffff_ffff_ffff_ffff,
            IntKind::Isize => isize::MAX as i128,
            IntKind::U8 => 0xff,
            IntKind::U16 => 0xffff,
            IntKind::U32 => 0xffff_ffff,
            IntKind::U64 => 0xffff_ffff_ffff_ffff,
            IntKind::Usize => usize::MAX as i128,
        }
    }

    /// Whether `v` is a value of the kind.
    pub fn holds(&self, v: i128) -> (r: bool)
        ensures
            r == in_range(*self, v as int),
    {
        self.min() <= v && v <= self.max()
    }
}

impl Prim {
    /// The name under which the type is bound.
    pub fn name(&self) -> (r: String)
        ensures
            r@ == prim_name(*self),
    {
        match self {
            Prim::Int(k) => k.name(),
            Prim::Bool => String::from_str("bool"),
            Prim::Str => String::from_str("str"),
            Prim::Unit => String::from_str("_unit"),
            Prim::Type => String::from_str("type"),
            Prim::Proc => String::from_str("proc"),
            Prim::U128 => String::from_str("u128"),
            Prim::Ibig => String::from_str("ibig"),
            Prim::Ubig => String::from_str("ubig"),
            Prim::F16 => String::from_str("f16"),
            Prim::F32 => String::from_str("f32"),
            Prim::F64 => String::from_str("f64"),
        }
    }

    /// Whether the type registers `op`.
    pub fn has(&self, op: BuiltinOp) -> (r: bool)
        ensures
            r == prim_has(*self, op),
    {
        match self {
            Prim::Int(_) => op != BuiltinOp::Concat && op != BuiltinOp::Not,
            Prim::Bool => op == BuiltinOp::Eq || op == BuiltinOp::Ne || op == BuiltinOp::Typecast
                || op == BuiltinOp::Not,
            Prim::Str => op == BuiltinOp::Eq || op == BuiltinOp::Ne || op == BuiltinOp::Concat
                || op == BuiltinOp::Typecast,
            Prim::Unit => op == BuiltinOp::Eq || op == BuiltinOp::Ne || op == BuiltinOp::Typecast,
            Prim::Type => op == BuiltinOp::Eq || op == BuiltinOp::Ne || op == BuiltinOp::Typecast,
            Prim::Proc => false,
            Prim::U128 | Prim::Ibig | Prim::Ubig | Prim::F16 | Prim::F32 | Prim::F64 => false,
        }
    }

    /// The definition of the type.
    pub fn definition(&self) -> (r: TypeDefinition)
        ensures
            r@ == prim_definition(*self),
            r@.wf(),
    {
        proof {
            crate::ast::members::lemma_prim_definition_wf(*self);
        }
        let mut members: Vec<(String, Ast)> = Vec::new();
        let mut i: usize = 0;
        while i < 16
            invariant
                i <= 16,
                builtin_ops().len() == 16,
                named_asts_view(members@) == members_upto(*self, i as int),
            decreases 16 - i,
        {
            let op = builtin_op_at(i);
            if self.has(op) {
                let node = Ast::Literal(
                    Literal {
                        span: None,
                        content: Value::Proc(Proc::Builtin(Builtin { prim: *self, op })),
                    },
                );
                assert(ast_view(node) == member_literal(*self, op)) by {
                    reveal_with_fuel(ast_view, 5);
                }
                put_member(&mut members, op.name(), node);
            }
            i += 1;
        }
        let name = concat(concat("{builtin ", self.name().as_str()).as_str(), "}");
        let r = TypeDefinition {
            inst_name: Some(self.name()),
            name: Some(name),
            generics: Vec::new(),
            implementations: members,
            inst_fields: Vec::new(),
        };
        assert(r@.generics =~= Seq::empty());
        assert(r@.inst_fields =~= Seq::empty());
        r
    }

    /// The type itself.
    pub fn ty(&self) -> (r: Type)
        ensures
            r@ == prim_type(*self),
    {
        self.definition().get_instance()
    }
}

impl BuiltinOp {
    /// The member name under which the operation is registered.
    pub fn name(&self) -> (r: String)
        ensures
            r@ == op_name(*self),
    {
        match self {
            BuiltinOp::Add => String::from_str("_add"),
            BuiltinOp::Sub => String::from_str("_sub"),
            BuiltinOp::Mul => String::from_str("_mul"),
            BuiltinOp::Div => String::from_str("_div"),
            BuiltinOp::Rem => String::from_str("_rem"),
            BuiltinOp::Eq => String::from_str("_eq"),
            BuiltinOp::Ne => String::from_str("_ne"),
            BuiltinOp::Lt => String::from_str("_lt"),
            BuiltinOp::Le => String::from_str("_le"),
            BuiltinOp::Gt => String::from_str("_gt"),
            BuiltinOp::Ge => String::from_str("_ge"),
            BuiltinOp::Concat => String::from_str("_concat"),
            BuiltinOp::Typecast => String::from_str("_typecast"),
            BuiltinOp::Not => String::from_str("_not"),
            BuiltinOp::UnPlus => String::from_str("_un_plus"),
            BuiltinOp::UnMinus => String::from_str("_un_minus"),
        }
    }
}

pub fn builtin_op_at(i: usize) -> (r: BuiltinOp)
    requires
        i < 16,
    ensures
        r == builtin_ops()[i as int],
{
    if i == 0 {
        BuiltinOp::Add
    } else if i == 1 {
        BuiltinOp::Sub
    } else if i == 2 {
        BuiltinOp::Mul
    } else if i == 3 {
        BuiltinOp::Div
    } else if i == 4 {
        BuiltinOp::Rem
    } else if i == 5 {
        BuiltinOp::Eq
    } else if i == 6 {
        BuiltinOp::Ne
    } else if i == 7 {
        BuiltinOp::Lt
    } else if i == 8 {
        BuiltinOp::Le
    } else if i == 9 {
        BuiltinOp::Gt
    } else if i == 10 {
        BuiltinOp::Ge
    } else if i == 11 {
        BuiltinOp::Concat
    } else if i == 12 {
        BuiltinOp::Typecast
    } else if i == 13 {
        BuiltinOp::Not
    } else if i == 14 {
        BuiltinOp::UnPlus
    } else {
        BuiltinOp::UnMinus
    }
}

pub fn prim_at(i: usize) -> (r: Prim)
    requires
        i < 21,
    ensures
        r == all_prims()[i as int],
{
    if i == 0 {
        Prim::Str
    } else if i == 1 {
        Prim::Bool
    } else if i == 2 {
        Prim::Int(IntKind::I8)
    } else if i == 3 {
        Prim::Int(IntKind::I16)
    } else if i == 4 {
        Prim::Int(IntKind::I32)
    } else if i == 5 {
        Prim::Int(IntKind::I64)
    } else if i == 6 {
        Prim::Int(IntKind::I128)
    } else if i == 7 {
        Prim::Int(IntKind::Isize)
    } else if i == 8 {
        Prim::Ibig
    } else if i == 9 {
        Prim::Int(IntKind::U8)
    } else if i == 10 {
        Prim::Int(IntKind::U16)
    } else if i == 11 {
        Prim::Int(IntKind::U32)
    } else if i == 12 {
        Prim::Int(IntKind::U64)
    } else if i == 13 {
        Prim::U128
    } else if i == 14 {
        Prim::Int(IntKind::Usize)
    } else if i == 15 {
        Prim::Ubig
    } else if i == 16 {
        Prim::F16
    } else if i == 17 {
        Prim::F32
    } else if i == 18 {
        Prim::F64
    } else if i == 19 {
        Prim::Unit
    } else {
        Prim::Type
    }
}

impl TypeDefinition {
    /// The type that the definition stands for when it is used.
    pub fn get_instance(&self) -> (r: Type)
        ensures
            r@ == instance_of(self@),
    {
        proof {
            reveal_with_fuel(type_view, 3);
        }
        if self.same(&Prim::Type.definition()) {
            Type::Definition(self.duplicate())
        } else {
            let r = Type::Instance(
                TypeInstance {
                    name: crate::ast::copy::duplicate_opt_string(&self.inst_name),
                    type_args: Vec::new(),
                    implementation: self.duplicate(),
                },
            );
            assert(r@->Instance_0.type_args =~= Seq::empty());
            r
        }
    }
}

impl TypeDefinition {
    /// Binds the declared parameters of the definition to `args` and hands
    /// back the instance, or nothing where the number of arguments is not the
    /// number of parameters.
    pub fn instantiate(&self, args: Vec<Type>) -> (r: Option<Type>)
        ensures
            match r {
                Some(t) => instantiated(self@, crate::ast::view::types_view(args@)) == Some(t@),
                None => instantiated(self@, crate::ast::view::types_view(args@)) is None,
            },
    {
        proof {
            reveal_with_fuel(type_view, 3);
        }
        assert(self@.generics.len() == self.generics@.len());
        if args.len() != self.generics.len() {
            None
        } else if args.len() == 0 {
            Some(self.get_instance())
        } else {
            Some(
                Type::Instance(
                    TypeInstance {
                        name: crate::ast::copy::duplicate_opt_string(&self.inst_name),
                        type_args: args,
                        implementation: self.duplicate(),
                    },
                ),
            )
        }
    }
}

/// The type of procedures that return `ret`.
pub fn make_proc_type(ret: Type) -> (r: Type)
    ensures
        r@ == proc_type(ret@),
{
    proof {
        reveal_with_fuel(type_view, 3);
    }
    let mut args: Vec<Type> = Vec::new();
    args.push(ret);
    let r = Type::Instance(
        TypeInstance {
            name: Some(Prim::Proc.name()),
            type_args: args,
            implementation: Prim::Proc.definition(),
        },
    );
    assert(r@->Instance_0.type_args =~= seq![ret@]);
    r
}

impl Builtin {
    /// What the operation returns.
    pub fn return_type(&self) -> (r: Type)
        ensures
            r@ == builtin_return_type(*self),
    {
        match self.op {
            BuiltinOp::Add | BuiltinOp::Sub | BuiltinOp::Mul | BuiltinOp::Div | BuiltinOp::Rem
            | BuiltinOp::Concat | BuiltinOp::UnPlus | BuiltinOp::UnMinus => self.prim.ty(),
            BuiltinOp::Eq | BuiltinOp::Ne | BuiltinOp::Lt | BuiltinOp::Le | BuiltinOp::Gt
            | BuiltinOp::Ge | BuiltinOp::Not => Prim::Bool.ty(),
            BuiltinOp::Typecast => Type::Any,
        }
    }
}

impl Value {
    /// The type of the value.
    pub fn ty(&self) -> (r: Type)
        ensures
            r@ == type_of(self@),
        decreases self,
    {
        proof {
            reveal_with_fuel(value_view, 4);
        }
        match self {
            Value::Int(k, _) => Prim::Int(*k).ty(),
            Value::Bool(_) => Prim::Bool.ty(),
            Value::Str(_) => Prim::Str.ty(),
            Value::Type(_) => Prim::Type.ty(),
            Value::Proc(Proc::Builtin(b)) => make_proc_type(b.return_type()),
            Value::Proc(Proc::Defined(d)) => make_proc_type(d.return_type.duplicate()),
            Value::Unit => Prim::Unit.ty(),
            Value::Return(v) => Type::Return(Box::new(v.ty())),
        }
    }

    /// Whether the value is of the primitive type `p`.
    pub fn is_of(&self, p: Prim) -> (r: bool)
        ensures
            r == is_of_prim(self@, p),
    {
        match (self, p) {
            (Value::Int(k, _), Prim::Int(l)) => *k == l,
            (Value::Bool(_), Prim::Bool) => true,
            (Value::Str(_), Prim::Str) => true,
            (Value::Unit, Prim::Unit) => true,
            (Value::Type(_), Prim::Type) => true,
            (Value::Proc(_), Prim::Proc) => true,
            _ => false,
        }
    }
}

impl Type {
    /// The definition in whose namespace the members of the type are looked up.
    pub fn implementation(&self) -> (r: TypeDefinition)
        ensures
            r@ == implementation_of(self@),
        decreases self,
    {
        proof {
            reveal_with_fuel(type_view, 3);
        }
        match self {
            Type::Instance(i) => i.implementation.duplicate(),
            Type::Definition(_) => Prim::Type.definition(),
            Type::Any => Prim::Unit.definition(),
            Type::Return(t) => t.implementation(),
        }
    }

    /// Which primitive type this is, if it is one.
    pub fn as_prim(&self) -> (r: Option<Prim>)
        ensures
            r == prim_of_type(self@),
    {
        let mut i: usize = 0;
        while i < 21
            invariant
                i <= 21,
                all_prims().len() == 21,
                prim_of_type_upto(self@, i as int) is None,
            decreases 21 - i,
        {
            let p = prim_at(i);
            if self.same(&p.ty()) {
                proof {
                    lemma_prim_of_type_stable(self@, i as int + 1, 21);
                }
                return Some(p);
            }
            i += 1;
        }
        None
    }
}

fn bool_string(b: bool) -> (r: String)
    ensures
        r@ == bool_text(b),
{
    if b {
        String::from_str("true")
    } else {
        String::from_str("false")
    }
}

/// The value as a value of the primitive type `target`, where there is a conversion.
pub fn cast(v: &Value, target: Prim) -> (r: Option<Value>)
    ensures
        match r {
            Some(w) => cast_value(v@, target) == Some(w@),
            None => cast_value(v@, target) is None,
        },
{
    if target == Prim::Type {
        return Some(Value::Type(v.ty()));
    }
    match (v, target) {
        (Value::Int(_, n), Prim::Int(k)) => if k.holds(*n) {
            Some(Value::Int(k, *n))
        } else {
            None
        },
        (Value::Int(_, n), Prim::Bool) => Some(Value::Bool(*n != 0)),
        (Value::Int(_, n), Prim::Str) => Some(Value::Str(format_decimal(*n))),
        (Value::Bool(b), Prim::Bool) => Some(Value::Bool(*b)),
        (Value::Bool(b), Prim::Str) => Some(Value::Str(bool_string(*b))),
        (Value::Bool(b), Prim::Int(k)) => Some(Value::Int(k, if *b { 1 } else { 0 })),
        (Value::Str(s), Prim::Str) => Some(Value::Str(s.clone())),
        (Value::Str(s), Prim::Bool) => Some(Value::Bool(s.as_str().unicode_len() == 0)),
        (Value::Str(s), Prim::Int(k)) => match parse_decimal(s.as_str(), k.min(), k.max()) {
            Some(n) => Some(Value::Int(k, n)),
            None => None,
        },
        (Value::Unit, Prim::Unit) => Some(Value::Unit),
        _ => None,
    }
}

fn equality_value(op: BuiltinOp, equal: bool) -> (r: Option<Value>)
    ensures
        match r {
            Some(w) => equality(op, equal) == Some(w@),
            None => equality(op, equal) is None,
        },
{
    match op {
        BuiltinOp::Eq => Some(Value::Bool(equal)),
        BuiltinOp::Ne => Some(Value::Bool(!equal)),
        _ => None,
    }
}

fn arith(op: BuiltinOp, k: IntKind, x: i128, y: i128) -> (r: Option<Value>)
    ensures
        match r {
            Some(w) => int_arith(op, x as int, y as int) matches Some(v) && in_range(k, v) && w@
                == ValueView::Int(k, v),
            None => match int_arith(op, x as int, y as int) {
                Some(v) => !in_range(k, v),
                None => true,
            },
        },
{
    let raw: Option<i128> = match op {
        BuiltinOp::Add => x.checked_add(y),
        BuiltinOp::Sub => x.checked_sub(y),
        BuiltinOp::Mul => x.checked_mul(y),
        BuiltinOp::Div => x.checked_div(y),
        BuiltinOp::Rem => if y == -1 {
            Some(0)
        } else {
            x.checked_rem(y)
        },
        _ => None,
    };
    match raw {
        Some(v) => if k.holds(v) {
            Some(Value::Int(k, v))
        } else {
            None
        },
        None => None,
    }
}

fn compare(op: BuiltinOp, x: i128, y: i128) -> (r: Option<bool>)
    ensures
        r == int_compare(op, x as int, y as int),
{
    match op {
        BuiltinOp::Eq => Some(x == y),
        BuiltinOp::Ne => Some(x != y),
        BuiltinOp::Lt => Some(x < y),
        BuiltinOp::Le => Some(x <= y),
        BuiltinOp::Gt => Some(x > y),
        BuiltinOp::Ge => Some(x >= y),
        _ => None,
    }
}

/// What an operation of one argument computes.
fn unary(op: BuiltinOp, v: &Value) -> (r: Option<Value>)
    ensures
        match r {
            Some(w) => unary_result(op, v@) == Some(w@),
            None => unary_result(op, v@) is None,
        },
{
    proof {
        reveal_with_fuel(value_view, 2);
    }
    match (op, v) {
        (BuiltinOp::Not, Value::Bool(b)) => Some(Value::Bool(!*b)),
        (BuiltinOp::UnPlus, Value::Int(k, n)) => if k.holds(*n) {
            Some(Value::Int(*k, *n))
        } else {
            None
        },
        (BuiltinOp::UnMinus, Value::Int(k, n)) => {
            let zero: i128 = 0;
            match zero.checked_sub(*n) {
                Some(m) => if k.holds(m) {
                    Some(Value::Int(*k, m))
                } else {
                    None
                },
                None => None,
            }
        },
        _ => None,
    }
}

impl Builtin {
    /// Runs the operation on `args`.
    pub fn apply(&self, args: &Vec<Value>) -> (r: Option<Value>)
        ensures
            match r {
                Some(w) => builtin_result(*self, crate::ast::view::values_view(args@)) == Some(w@),
                None => builtin_result(*self, crate::ast::view::values_view(args@)) is None,
            },
    {
        if args.len() == 0 || !self.prim.has(self.op) || !args[0].is_of(self.prim) {
            return None;
        }
        let ghost views = crate::ast::view::values_view(args@);
        assert(views[0] == args@[0]@);
        if self.op == BuiltinOp::Not || self.op == BuiltinOp::UnPlus || self.op
            == BuiltinOp::UnMinus {
            if args.len() != 1 {
                return None;
            }
            return unary(self.op, &args[0]);
        }
        if args.len() != 2 {
            return None;
        }
        assert(views[1] == args@[1]@);
        if self.op == BuiltinOp::Typecast {
            return match &args[1] {
                Value::Type(t) => match t.as_prim() {
                    Some(target) => cast(&args[0], target),
                    None => None,
                },
                _ => None,
            };
        }
        match (&args[0], &args[1]) {
            (Value::Int(k, x), Value::Int(l, y)) => {
                if *k != *l {
                    None
                } else {
                    match compare(self.op, *x, *y) {
                        Some(r) => Some(Value::Bool(r)),
                        None => arith(self.op, *k, *x, *y),
                    }
                }
            },
            (Value::Bool(x), Value::Bool(y)) => equality_value(self.op, *x == *y),
            (Value::Str(x), Value::Str(y)) => {
                if self.op == BuiltinOp::Concat {
                    Some(Value::Str(concat(x.as_str(), y.as_str())))
                } else {
                    equality_value(self.op, *x == *y)
                }
            },
            (Value::Unit, Value::Unit) => equality_value(self.op, true),
            (Value::Type(x), Value::Type(y)) => equality_value(self.op, x.same(y)),
            _ => None,
        }
    }
}

/// The namespace of `i32`: the operations that the type registers, each
/// under its member name.
pub fn i32_t() -> (r: Vec<(String, Ast)>)
    ensures
        named_asts_view(r@) == prim_definition(Prim::Int(IntKind::I32)).implementations,
{
    Prim::Int(IntKind::I32).definition().implementations
}

/// The namespace of `i64`.
pub fn i64_t() -> (r: Vec<(String, Ast)>)
    ensures
        named_asts_view(r@) == prim_definition(Prim::Int(IntKind::I64)).implementations,
{
    Prim::Int(IntKind::I64).definition().implementations
}

/// The namespace of `u16`.
pub fn u16_t() -> (r: Vec<(String, Ast)>)
    ensures
        named_asts_view(r@) == prim_definition(Prim::Int(IntKind::U16)).implementations,
{
    Prim::Int(IntKind::U16).definition().implementations
}

/// The namespace of `u64`.
pub fn u64_t() -> (r: Vec<(String, Ast)>)
    ensures
        named_asts_view(r@) == prim_definition(Prim::Int(IntKind::U64)).implementations,
{
    Prim::Int(IntKind::U64).definition().implementations
}

/// The namespace of `str`.
pub fn str_t() -> (r: Vec<(String, Ast)>)
    ensures
        named_asts_view(r@) == prim_definition(Prim::Str).implementations,
{
    Prim::Str.definition().implementations
}

} // verus!
