use zyxt::ast::argument::Argument;
use zyxt::ast::ident::Ident;
use zyxt::primitives::cast;
use zyxt::text::{digit, format_decimal, parse_decimal};
use zyxt::types::lazy::LazyType;
use zyxt::types::sym_table::SymTable;
use zyxt::types::typeobj::{Type, TypeInstance};
use zyxt::types::value::{Builtin, BuiltinOp, IntKind, Prim, Value};

fn i32v(n: i128) -> Value {
    Value::Int(IntKind::I32, n)
}

fn apply(prim: Prim, op: BuiltinOp, a: Value, b: Value) -> Option<Value> {
    Builtin { prim, op }.apply(&vec![a, b])
}

fn arith(op: BuiltinOp, a: i128, b: i128) -> Option<i128> {
    match apply(Prim::Int(IntKind::I32), op, i32v(a), i32v(b)) {
        Some(Value::Int(IntKind::I32, n)) => Some(n),
        None => None,
        other => panic!("unexpected: {:?}", other),
    }
}

fn compare(op: BuiltinOp, a: i128, b: i128) -> bool {
    match apply(Prim::Int(IntKind::I32), op, i32v(a), i32v(b)) {
        Some(Value::Bool(b)) => b,
        other => panic!("unexpected: {:?}", other),
    }
}

#[test]
fn integer_arithmetic() {
    assert_eq!(arith(BuiltinOp::Add, 1, 2), Some(3));
    assert_eq!(arith(BuiltinOp::Sub, 1, 2), Some(-1));
    assert_eq!(arith(BuiltinOp::Mul, -4, 5), Some(-20));
    assert_eq!(arith(BuiltinOp::Div, 7, 2), Some(3));
    assert_eq!(arith(BuiltinOp::Div, -7, 2), Some(-3));
    assert_eq!(arith(BuiltinOp::Div, 7, -2), Some(-3));
    assert_eq!(arith(BuiltinOp::Div, -7, -2), Some(3));
    assert_eq!(arith(BuiltinOp::Rem, 7, 2), Some(1));
    assert_eq!(arith(BuiltinOp::Rem, -7, 2), Some(-1));
    assert_eq!(arith(BuiltinOp::Rem, 7, -2), Some(1));
    assert_eq!(arith(BuiltinOp::Rem, -7, -2), Some(-1));
    assert_eq!(arith(BuiltinOp::Rem, 7, -1), Some(0));
}

#[test]
fn results_out_of_range_and_division_by_zero_have_no_value() {
    assert_eq!(arith(BuiltinOp::Add, 0x7fff_ffff, 1), None);
    assert_eq!(arith(BuiltinOp::Add, 0x7fff_fffe, 1), Some(0x7fff_ffff));
    assert_eq!(arith(BuiltinOp::Sub, -0x8000_0000, 1), None);
    assert_eq!(arith(BuiltinOp::Mul, 0x10000, 0x10000), None);
    assert_eq!(arith(BuiltinOp::Div, 1, 0), None);
    assert_eq!(arith(BuiltinOp::Rem, 1, 0), None);
    assert_eq!(arith(BuiltinOp::Div, -0x8000_0000, -1), None);
    assert_eq!(arith(BuiltinOp::Concat, 1, 1), None);
}

#[test]
fn wide_values_do_not_overflow_the_machine() {
    let big = Value::Int(IntKind::U64, i128::MAX);
    let r = Builtin { prim: Prim::Int(IntKind::U64), op: BuiltinOp::Mul }
        .apply(&vec![big, Value::Int(IntKind::U64, 2)]);
    assert!(r.is_none());
    let r = Builtin { prim: Prim::Int(IntKind::U64), op: BuiltinOp::Add }
        .apply(&vec![Value::Int(IntKind::U64, i128::MAX), Value::Int(IntKind::U64, 1)]);
    assert!(r.is_none());
    let r = Builtin { prim: Prim::Int(IntKind::I64), op: BuiltinOp::Rem }
        .apply(&vec![Value::Int(IntKind::I64, i128::MIN), Value::Int(IntKind::I64, -1)]);
    assert!(matches!(r, Some(Value::Int(IntKind::I64, 0))));
}

#[test]
fn integer_comparison() {
    assert!(compare(BuiltinOp::Eq, 2, 2));
    assert!(!compare(BuiltinOp::Eq, 2, 3));
    assert!(compare(BuiltinOp::Ne, 2, 3));
    assert!(compare(BuiltinOp::Lt, -1, 0));
    assert!(!compare(BuiltinOp::Lt, 0, 0));
    assert!(compare(BuiltinOp::Le, 0, 0));
    assert!(compare(BuiltinOp::Gt, 1, 0));
    assert!(compare(BuiltinOp::Ge, 1, 1));
    assert!(!compare(BuiltinOp::Ge, 0, 1));
}

#[test]
fn operands_have_to_fit_the_operation() {
    let add = Builtin { prim: Prim::Int(IntKind::I32), op: BuiltinOp::Add };
    assert!(add.apply(&vec![i32v(1)]).is_none());
    assert!(add.apply(&vec![i32v(1), i32v(2), i32v(3)]).is_none());
    assert!(add.apply(&vec![i32v(1), Value::Int(IntKind::I64, 2)]).is_none());
    assert!(add.apply(&vec![Value::Int(IntKind::I64, 1), Value::Int(IntKind::I64, 2)]).is_none());
    assert!(add.apply(&vec![Value::Bool(true), Value::Bool(true)]).is_none());
}

#[test]
fn strings_and_booleans() {
    let r = apply(Prim::Str, BuiltinOp::Concat, Value::Str("ab".into()), Value::Str("cd".into()));
    assert!(matches!(r, Some(Value::Str(s)) if s == "abcd"));
    let r = apply(Prim::Str, BuiltinOp::Eq, Value::Str("ab".into()), Value::Str("ab".into()));
    assert!(matches!(r, Some(Value::Bool(true))));
    let r = apply(Prim::Str, BuiltinOp::Ne, Value::Str("ab".into()), Value::Str("ab".into()));
    assert!(matches!(r, Some(Value::Bool(false))));
    let r = apply(Prim::Bool, BuiltinOp::Eq, Value::Bool(true), Value::Bool(false));
    assert!(matches!(r, Some(Value::Bool(false))));
    let r = apply(Prim::Bool, BuiltinOp::Add, Value::Bool(true), Value::Bool(false));
    assert!(r.is_none());
    let r = apply(Prim::Unit, BuiltinOp::Eq, Value::Unit, Value::Unit);
    assert!(matches!(r, Some(Value::Bool(true))));
    let r = apply(
        Prim::Type,
        BuiltinOp::Eq,
        Value::Type(Prim::Bool.ty()),
        Value::Type(Prim::Str.ty()),
    );
    assert!(matches!(r, Some(Value::Bool(false))));
}

#[test]
fn casts() {
    assert!(matches!(cast(&i32v(200), Prim::Int(IntKind::U8)), Some(Value::Int(IntKind::U8, 200))));
    assert!(cast(&i32v(256), Prim::Int(IntKind::U8)).is_none());
    assert!(cast(&i32v(-1), Prim::Int(IntKind::U64)).is_none());
    assert!(matches!(cast(&i32v(-1), Prim::Int(IntKind::I8)), Some(Value::Int(IntKind::I8, -1))));
    assert!(matches!(cast(&i32v(5), Prim::Bool), Some(Value::Bool(true))));
    assert!(matches!(cast(&i32v(0), Prim::Bool), Some(Value::Bool(false))));
    assert!(matches!(cast(&i32v(-42), Prim::Str), Some(Value::Str(s)) if s == "-42"));
    assert!(matches!(cast(&Value::Bool(true), Prim::Str), Some(Value::Str(s)) if s == "true"));
    assert!(matches!(cast(&Value::Bool(true), Prim::Int(IntKind::I16)), Some(Value::Int(IntKind::I16, 1))));
    assert!(matches!(cast(&Value::Str("12".into()), Prim::Int(IntKind::I32)), Some(Value::Int(IntKind::I32, 12))));
    assert!(cast(&Value::Str("12a".into()), Prim::Int(IntKind::I32)).is_none());
    assert!(cast(&Value::Str("300".into()), Prim::Int(IntKind::U8)).is_none());
    assert!(matches!(cast(&Value::Str("".into()), Prim::Bool), Some(Value::Bool(true))));
    assert!(matches!(cast(&Value::Str("x".into()), Prim::Bool), Some(Value::Bool(false))));
    assert!(cast(&Value::Unit, Prim::Bool).is_none());
    match cast(&i32v(1), Prim::Type) {
        Some(Value::Type(t)) => assert!(t.same(&Prim::Int(IntKind::I32).ty())),
        other => panic!("unexpected: {:?}", other),
    }
}

#[test]
fn typecast_operation_reads_its_target() {
    let op = Builtin { prim: Prim::Int(IntKind::I32), op: BuiltinOp::Typecast };
    let r = op.apply(&vec![i32v(7), Value::Type(Prim::Str.ty())]);
    assert!(matches!(r, Some(Value::Str(s)) if s == "7"));
    assert!(op.apply(&vec![i32v(7), i32v(7)]).is_none());
    assert!(op.apply(&vec![i32v(7), Value::Type(Type::Any)]).is_none());
}

#[test]
fn decimal_parsing() {
    assert_eq!(parse_decimal("0", -10, 10), Some(0));
    assert_eq!(parse_decimal("007", -10, 10), Some(7));
    assert_eq!(parse_decimal("-3", -10, 10), Some(-3));
    assert_eq!(parse_decimal("11", -10, 10), None);
    assert_eq!(parse_decimal("-11", -10, 10), None);
    assert_eq!(parse_decimal("", -10, 10), None);
    assert_eq!(parse_decimal("-", -10, 10), None);
    assert_eq!(parse_decimal("1-", -10, 10), None);
    assert_eq!(parse_decimal("+1", -10, 10), None);
    assert_eq!(parse_decimal("1 ", -10, 10), None);
    assert_eq!(
        parse_decimal("18446744073709551615", 0, 0xffff_ffff_ffff_ffff),
        Some(0xffff_ffff_ffff_ffff)
    );
    assert_eq!(parse_decimal("18446744073709551616", 0, 0xffff_ffff_ffff_ffff), None);
    assert_eq!(parse_decimal("99999999999999999999999999999999999999999999", 0, 10), None);
    assert_eq!(
        parse_decimal("-9223372036854775808", -0x8000_0000_0000_0000, 0),
        Some(-0x8000_0000_0000_0000)
    );
    assert_eq!(digit('7'), Some(7));
    assert_eq!(digit('a'), None);
}

#[test]
fn decimal_formatting() {
    assert_eq!(format_decimal(0), "0");
    assert_eq!(format_decimal(7), "7");
    assert_eq!(format_decimal(10), "10");
    assert_eq!(format_decimal(-1), "-1");
    assert_eq!(format_decimal(1234567890), "1234567890");
    assert_eq!(format_decimal(i128::MAX), i128::MAX.to_string());
    assert_eq!(format_decimal(i128::MIN), i128::MIN.to_string());
    assert_eq!(zyxt::text::concat("ab", "cd"), "abcd");
}

#[test]
fn types_are_written_out() {
    assert_eq!(Prim::Int(IntKind::I32).ty().to_string(), "i32");
    assert_eq!(Prim::Bool.definition().to_string(), "{builtin bool}");
    assert_eq!(Type::Any.to_string(), "_any");
    assert_eq!(Type::Return(Box::new(Prim::Str.ty())).to_string(), "str");
    // the type of types is written out as its definition
    assert_eq!(Prim::Type.ty().to_string(), "{builtin type}");
    let proc_type = Value::Proc(zyxt::types::value::Proc::Builtin(Builtin {
        prim: Prim::Int(IntKind::I32),
        op: BuiltinOp::Lt,
    }))
    .ty();
    assert_eq!(proc_type.to_string(), "proc[_: bool]");
}

#[test]
fn brackets_are_stripped_and_reapplied() {
    let inner = Prim::Str.ty();
    let mut instance = TypeInstance {
        name: Some("list[T: i32]".to_string()),
        type_args: vec![inner, Prim::Bool.ty()],
        implementation: Prim::Unit.definition(),
    };
    let first = instance.to_string();
    assert_eq!(first, "list[_: str, _: bool]");
    instance.name = Some(first.clone());
    assert_eq!(instance.to_string(), first);
    instance.type_args = vec![];
    assert_eq!(instance.to_string(), "list");
    instance.name = None;
    assert_eq!(instance.to_string(), "{unknown}");
}

#[test]
fn values_are_written_out() {
    assert_eq!(i32v(-5).to_string(), "-5");
    assert_eq!(Value::Bool(false).to_string(), "false");
    assert_eq!(Value::Str("hi".into()).to_string(), "hi");
    assert_eq!(Value::Unit.to_string(), "()");
    assert_eq!(Value::Type(Prim::Str.ty()).to_string(), "str");
    assert_eq!(Value::Return(Box::new(i32v(1))).to_string(), "1");
}

#[test]
fn table_is_written_out_frame_by_frame() {
    let mut table: SymTable<Value> = SymTable::empty();
    table.add_frame(None, zyxt::types::sym_table::FrameType::Normal);
    table.declare_val(&"a".to_string(), i32v(1));
    table.declare_val(&"b".to_string(), Value::Bool(true));
    table.add_frame(None, zyxt::types::sym_table::FrameType::Normal);
    table.declare_val(&"c".to_string(), Value::Str("x".into()));
    assert_eq!(table.heap_to_string(), "c: str = x\n-------\na: i32 = 1\nb: bool = true");
}

#[test]
fn namespaces_list_the_operations_of_the_type() {
    let names: Vec<String> = Prim::Bool.definition().implementations.into_iter().map(|m| m.0).collect();
    assert_eq!(names, vec!["_eq", "_ne", "_not", "_typecast"]);
    let names: Vec<String> =
        Prim::Int(IntKind::U8).definition().implementations.into_iter().map(|m| m.0).collect();
    assert_eq!(
        names,
        vec![
            "_add", "_div", "_eq", "_ge", "_gt", "_le", "_lt", "_mul", "_ne", "_rem", "_sub",
            "_typecast", "_un_minus", "_un_plus"
        ]
    );
    let names: Vec<String> = zyxt::primitives::str_t().into_iter().map(|m| m.0).collect();
    assert_eq!(names, vec!["_concat", "_eq", "_ne", "_typecast"]);
    assert_eq!(zyxt::primitives::i32_t().len(), 14);
    assert_eq!(zyxt::primitives::i64_t().len(), 14);
    assert_eq!(zyxt::primitives::u16_t().len(), 14);
    assert_eq!(zyxt::primitives::u64_t().len(), 14);
    assert!(Prim::Proc.definition().implementations.is_empty());
    assert_eq!(Prim::Int(IntKind::U8).definition().inst_name.unwrap(), "u8");
}

#[test]
fn instance_and_implementation() {
    let def = Prim::Str.definition();
    match def.get_instance() {
        Type::Instance(i) => {
            assert_eq!(i.name.unwrap(), "str");
            assert!(i.type_args.is_empty());
            assert!(i.implementation.same(&def));
        }
        other => panic!("unexpected: {:?}", other),
    }
    assert!(matches!(Prim::Type.definition().get_instance(), Type::Definition(_)));
    assert!(Prim::Str.ty().implementation().same(&def));
    assert!(Type::Definition(def).implementation().same(&Prim::Type.definition()));
    assert!(Type::Any.implementation().same(&Prim::Unit.definition()));
    assert!(Type::Return(Box::new(Prim::Bool.ty()))
        .implementation()
        .same(&Prim::Bool.definition()));
    assert_eq!(Prim::Bool.ty().as_prim(), Some(Prim::Bool));
    assert_eq!(Type::Any.as_prim(), None);
}

#[test]
fn lazy_type_is_computed_once() {
    let mut lazy = LazyType::new_lazy(i32v(1));
    assert!(!lazy.is_resolved());
    assert!(lazy.get().same(&Prim::Int(IntKind::I32).ty()));
    assert!(lazy.is_resolved());
    // what is kept is handed out even where the value changes afterwards
    lazy.data = Some(Value::Bool(true));
    assert!(lazy.get().same(&Prim::Int(IntKind::I32).ty()));
    let mut known = LazyType::from(Prim::Str.ty());
    assert!(known.is_resolved());
    assert!(known.get().same(&Prim::Str.ty()));
    assert!(!known.same(&lazy));
    assert!(LazyType::new_lazy(i32v(1)).same(&LazyType::new_lazy(Value::Unit)));
}

#[test]
fn structural_equality_and_copies() {
    let a = Value::Type(Prim::Int(IntKind::I32).ty());
    let b = a.duplicate();
    assert!(a.same(&b));
    assert!(!a.same(&Value::Type(Prim::Int(IntKind::I64).ty())));
    assert!(!i32v(1).same(&Value::Int(IntKind::I64, 1)));
    assert!(i32v(1).same(&i32v(1)));
    assert!(Value::Str("a".into()).same(&Value::Str("a".into())));
    assert!(!Value::Str("a".into()).same(&Value::Str("b".into())));
}

#[test]
fn operations_of_one_argument() {
    let not = Builtin { prim: Prim::Bool, op: BuiltinOp::Not };
    assert!(matches!(not.apply(&vec![Value::Bool(true)]), Some(Value::Bool(false))));
    assert!(matches!(not.apply(&vec![Value::Bool(false)]), Some(Value::Bool(true))));
    assert!(not.apply(&vec![Value::Bool(true), Value::Bool(true)]).is_none());
    assert!(not.apply(&vec![]).is_none());
    let minus = Builtin { prim: Prim::Int(IntKind::I8), op: BuiltinOp::UnMinus };
    assert!(matches!(
        minus.apply(&vec![Value::Int(IntKind::I8, 5)]),
        Some(Value::Int(IntKind::I8, -5))
    ));
    assert!(matches!(
        minus.apply(&vec![Value::Int(IntKind::I8, 127)]),
        Some(Value::Int(IntKind::I8, -127))
    ));
    assert!(minus.apply(&vec![Value::Int(IntKind::I8, -128)]).is_none());
    let unsigned = Builtin { prim: Prim::Int(IntKind::U8), op: BuiltinOp::UnMinus };
    assert!(unsigned.apply(&vec![Value::Int(IntKind::U8, 1)]).is_none());
    assert!(matches!(
        unsigned.apply(&vec![Value::Int(IntKind::U8, 0)]),
        Some(Value::Int(IntKind::U8, 0))
    ));
    let plus = Builtin { prim: Prim::Int(IntKind::I8), op: BuiltinOp::UnPlus };
    assert!(matches!(plus.apply(&vec![Value::Int(IntKind::I8, 5)]), Some(Value::Int(IntKind::I8, 5))));
    let wide = Builtin { prim: Prim::Int(IntKind::I64), op: BuiltinOp::UnMinus };
    assert!(wide.apply(&vec![Value::Int(IntKind::I64, i128::MIN)]).is_none());
    assert!(Builtin { prim: Prim::Int(IntKind::I8), op: BuiltinOp::Not }
        .apply(&vec![Value::Int(IntKind::I8, 5)])
        .is_none());
}

#[test]
fn type_as_a_literal() {
    let t = Prim::Bool.ty();
    match t.as_literal() {
        zyxt::ast::Ast::Literal(l) => {
            assert!(l.span.is_none());
            assert!(l.content.same(&Value::Type(Prim::Bool.ty())));
        }
        other => panic!("unexpected: {:?}", other),
    }
}

#[test]
fn decimal_parsing_reaches_the_widest_numbers() {
    assert_eq!(
        parse_decimal("170141183460469231731687303715884105727", i128::MIN, i128::MAX),
        Some(i128::MAX)
    );
    assert_eq!(
        parse_decimal("-170141183460469231731687303715884105728", i128::MIN, i128::MAX),
        Some(i128::MIN)
    );
    assert_eq!(parse_decimal("170141183460469231731687303715884105728", i128::MIN, i128::MAX), None);
    assert_eq!(parse_decimal("-170141183460469231731687303715884105729", i128::MIN, i128::MAX), None);
    assert_eq!(parse_decimal("5", 6, 9), None);
    assert_eq!(parse_decimal("7", 6, 9), Some(7));
    assert_eq!(parse_decimal("7", 9, 6), None);
    assert_eq!(parse_decimal("-0", -1, 1), Some(0));
}

#[test]
fn definitions_are_instantiated_with_their_arguments() {
    let mut def = Prim::Unit.definition();
    def.inst_name = Some("list".to_string());
    def.generics = vec![Argument {
        name: Ident { name: "T".to_string(), name_span: None },
        ty: Box::new(Prim::Type.ty().as_literal()),
        default: None,
    }];
    assert!(def.instantiate(vec![]).is_none());
    assert!(def.instantiate(vec![Prim::Bool.ty(), Prim::Bool.ty()]).is_none());
    let t = def.instantiate(vec![Prim::Int(IntKind::I32).ty()]).unwrap();
    assert_eq!(t.to_string(), "list[T: i32]");
    assert!(t.implementation().same(&def));
    let plain = Prim::Str.definition();
    assert!(plain.instantiate(vec![]).unwrap().same(&Prim::Str.ty()));
    assert!(plain.instantiate(vec![Prim::Bool.ty()]).is_none());
}

#[test]
fn lazy_namespace_computes_nothing_up_front() {
    let mut def = Prim::Bool.definition();
    def.implementations.push(("later".to_string(), zyxt::ast::Ast::Ident(Ident {
        name: "x".to_string(),
        name_span: None,
    })));
    let mut lazies = def.lazy_namespace();
    assert_eq!(lazies.len(), 5);
    assert_eq!(lazies[0].0, "_eq");
    assert!(!lazies[0].1.is_resolved());
    assert_eq!(lazies[0].1.get().to_string(), "proc[_: bool]");
    assert!(lazies[0].1.is_resolved());
    // a member that is still a tree is of the wildcard type, known at once
    assert!(lazies[4].1.is_resolved());
    assert!(lazies[4].1.get().same(&Type::Any));
}

#[test]
fn runtime_type_for_the_typechecker() {
    let placed = zyxt::ast::Ast::Literal(zyxt::ast::literal::Literal {
        span: Some(zyxt::types::position::Span::new(1, 2)),
        content: i32v(4),
    });
    let name = zyxt::ast::Ast::Ident(Ident { name: "n".to_string(), name_span: None });
    let mut def = Prim::Bool.definition();
    def.implementations.push(("k".to_string(), placed.duplicate()));
    def.implementations.push(("later".to_string(), name.duplicate()));
    def.inst_fields.push(zyxt::types::typeobj::Field {
        name: "x".to_string(),
        ty: Type::Return(Box::new(Prim::Str.ty())),
        default: Some(placed.duplicate()),
    });
    let out = match Type::Definition(def.duplicate()).as_type_element() {
        Type::Definition(d) => d,
        other => panic!("unexpected: {:?}", other),
    };
    assert_eq!(out.implementations.len(), def.implementations.len());
    assert!(!out.implementations[4].1.same(&placed));
    assert!(out.implementations[4].1.same(&zyxt::ast::Ast::Literal(zyxt::ast::literal::Literal {
        span: None,
        content: i32v(4),
    })));
    assert!(out.implementations[5].1.same(&name));
    assert!(out.implementations[0].1.same(&def.implementations[0].1));
    assert!(out.inst_fields[0].ty.same(&Type::Return(Box::new(Prim::Str.ty()))));
    assert!(out.inst_fields[0].default.as_ref().unwrap().span().is_none());
    assert!(Prim::Str.ty().as_type_element().same(&Prim::Str.ty()));
}

#[test]
fn wide_and_pointer_sized_kinds() {
    let add = Builtin { prim: Prim::Int(IntKind::I128), op: BuiltinOp::Add };
    assert!(matches!(
        add.apply(&vec![Value::Int(IntKind::I128, i128::MAX - 1), Value::Int(IntKind::I128, 1)]),
        Some(Value::Int(IntKind::I128, i128::MAX))
    ));
    assert!(add
        .apply(&vec![Value::Int(IntKind::I128, i128::MAX), Value::Int(IntKind::I128, 1)])
        .is_none());
    assert_eq!(IntKind::I128.min(), i128::MIN);
    assert_eq!(IntKind::I128.max(), i128::MAX);
    assert_eq!(IntKind::Isize.min(), isize::MIN as i128);
    assert_eq!(IntKind::Isize.max(), isize::MAX as i128);
    assert_eq!(IntKind::Usize.min(), 0);
    assert_eq!(IntKind::Usize.max(), usize::MAX as i128);
    assert!(cast(&i32v(-1), Prim::Int(IntKind::Usize)).is_none());
    assert!(matches!(cast(&i32v(5), Prim::Int(IntKind::Isize)), Some(Value::Int(IntKind::Isize, 5))));
    assert_eq!(Prim::Int(IntKind::I128).ty().to_string(), "i128");
    assert_eq!(Prim::Int(IntKind::Usize).definition().implementations.len(), 14);
    // a primitive type of which no value is held is a name with an empty namespace
    for p in [Prim::U128, Prim::Ibig, Prim::Ubig, Prim::F16, Prim::F32, Prim::F64] {
        assert!(p.definition().implementations.is_empty());
        assert_eq!(p.ty().as_prim(), Some(p));
        assert!(cast(&i32v(1), p).is_none());
    }
    assert_eq!(Prim::F32.ty().to_string(), "f32");
    assert_eq!(Prim::Ubig.definition().to_string(), "{builtin ubig}");
}
