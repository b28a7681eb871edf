use zyxt::ast::argument::Argument;
use zyxt::ast::assign::Assign;
use zyxt::ast::binary_opr::BinaryOpr;
use zyxt::ast::block::Block;
use zyxt::ast::call::Call;
use zyxt::ast::class::Class;
use zyxt::ast::control::Return;
use zyxt::ast::declare::Declare;
use zyxt::ast::delete::Delete;
use zyxt::ast::ident::Ident;
use zyxt::ast::literal::Literal;
use zyxt::ast::member::Member;
use zyxt::ast::procedure::Procedure;
use zyxt::ast::Ast;
use zyxt::errors::{NameErrorKind, TypeErrorKind, ZError};
use zyxt::instructor::gen_instructions;
use zyxt::types::position::{merge, Span};
use zyxt::types::sym_table::SymTable;
use zyxt::types::token::{AccessType, Flag, OprType};
use zyxt::types::typeobj::Type;
use zyxt::types::value::{IntKind, Prim, Value};

fn lit(v: Value) -> Ast {
    Ast::Literal(Literal { span: None, content: v })
}

fn num(n: i128) -> Ast {
    lit(Value::Int(IntKind::I32, n))
}

fn num_at(n: i128, start: usize, end: usize) -> Ast {
    Ast::Literal(Literal { span: Some(Span::new(start, end)), content: Value::Int(IntKind::I32, n) })
}

fn boolean(b: bool) -> Ast {
    lit(Value::Bool(b))
}

fn var(name: &str) -> Ast {
    Ast::Ident(Ident { name: name.to_string(), name_span: None })
}

fn var_at(name: &str, start: usize) -> Ast {
    Ast::Ident(Ident { name: name.to_string(), name_span: Some(Span::new(start, start + name.len())) })
}

fn bin(ty: OprType, a: Ast, b: Ast) -> Ast {
    Ast::BinaryOpr(BinaryOpr { ty, opr_span: None, operand1: Box::new(a), operand2: Box::new(b) })
}

fn declare(name: &str, ty: Option<Ast>, content: Ast, flags: Vec<(Flag, Span)>) -> Ast {
    Ast::Declare(Declare {
        variable: Box::new(var(name)),
        content: Box::new(content),
        flags,
        ty: ty.map(Box::new),
        eq_span: None,
    })
}

fn assign(name: &str, content: Ast) -> Ast {
    Ast::Assign(Assign { variable: Box::new(var(name)), eq_span: None, content: Box::new(content) })
}

fn block(content: Vec<Ast>) -> Block {
    Block { brace_spans: None, content }
}

fn ret(value: Ast) -> Ast {
    Ast::Return(Return { kwd_span: None, value: Box::new(value) })
}

fn class(body: Vec<Ast>, args: Option<Vec<Argument>>) -> Class {
    Class {
        is_struct: false,
        implementations: vec![],
        inst_fields: vec![],
        content: Some(block(body)),
        args,
    }
}

fn inst() -> Vec<(Flag, Span)> {
    vec![(Flag::Inst, Span::new(0, 4))]
}

fn i32_t() -> Type {
    Prim::Int(IntKind::I32).ty()
}

fn check(a: &Ast) -> Result<Type, ZError> {
    let mut table: SymTable<Type> = SymTable::default();
    let r = a.typecheck(&mut table);
    assert_eq!(table.depth(), 2);
    r
}

fn type_kind(e: &ZError) -> TypeErrorKind {
    match e {
        ZError::Type { kind, .. } => *kind,
        other => panic!("not a type error: {:?}", other),
    }
}

#[test]
fn class_with_an_instance_field() {
    // class { inst x: i32 = 0 }
    let c = class(vec![declare("x", Some(var("i32")), num(0), inst())], None);
    let mut table: SymTable<Type> = SymTable::default();
    let t = c.typecheck(&mut table).unwrap();
    assert_eq!(table.depth(), 2);
    // the class scope is gone
    assert!(table.get_val(&"x".to_string(), None).is_err());
    match t {
        Type::Definition(def) => {
            assert_eq!(def.name.as_deref(), Some("class"));
            assert!(def.inst_name.is_none());
            assert!(def.implementations.is_empty());
            assert_eq!(def.inst_fields.len(), 1);
            let f = &def.inst_fields[0];
            assert_eq!(f.name, "x");
            assert!(f.ty.same(&i32_t()));
            assert!(f.default.as_ref().unwrap().same(&num(0)));
        }
        other => panic!("unexpected: {:?}", other),
    }
}

#[test]
fn struct_is_named_struct() {
    let mut c = class(vec![], None);
    c.is_struct = true;
    let mut table: SymTable<Type> = SymTable::default();
    match c.typecheck(&mut table).unwrap() {
        Type::Definition(def) => assert_eq!(def.name.as_deref(), Some("struct")),
        other => panic!("unexpected: {:?}", other),
    }
}

#[test]
fn other_declarations_become_members() {
    let c = class(
        vec![
            declare("n", None, num(1), vec![]),
            declare("x", Some(var("bool")), boolean(true), inst()),
            declare("m", None, var("n"), vec![(Flag::Pub, Span::new(0, 3))]),
        ],
        None,
    );
    let mut table: SymTable<Type> = SymTable::default();
    match c.typecheck(&mut table).unwrap() {
        Type::Definition(def) => {
            let names: Vec<&str> = def.implementations.iter().map(|m| m.0.as_str()).collect();
            assert_eq!(names, vec!["m", "n"]);
            assert!(def.implementations[0].1.same(&var("n")));
            assert_eq!(def.inst_fields.len(), 1);
            assert_eq!(def.inst_fields[0].name, "x");
        }
        other => panic!("unexpected: {:?}", other),
    }
}

#[test]
fn field_default_has_to_be_of_the_declared_type() {
    let c = class(vec![declare("x", Some(var("i32")), boolean(true), inst())], None);
    let mut table: SymTable<Type> = SymTable::default();
    let e = c.typecheck(&mut table).unwrap_err();
    assert_eq!(table.depth(), 2);
    match e {
        ZError::Type { kind, expected, found, .. } => {
            assert_eq!(kind, TypeErrorKind::Mismatch);
            assert!(expected.same(&i32_t()));
            assert!(found.same(&Prim::Bool.ty()));
        }
        other => panic!("unexpected: {:?}", other),
    }
    // the same for a field that the node lists itself
    let mut c = class(vec![], None);
    c.inst_fields.push(Argument {
        name: Ident { name: "x".to_string(), name_span: None },
        ty: Box::new(var("i32")),
        default: Some(Box::new(boolean(false))),
    });
    let e = c.typecheck(&mut table).unwrap_err();
    assert_eq!(type_kind(&e), TypeErrorKind::Mismatch);
    c.inst_fields[0].default = Some(Box::new(num(3)));
    assert!(c.typecheck(&mut table).is_ok());
}

#[test]
fn constructor_arguments_exclude_instance_fields_and_init() {
    let args = Some(vec![]);
    let c = class(vec![declare("x", Some(var("i32")), num(0), inst())], args);
    let mut table: SymTable<Type> = SymTable::default();
    let e = c.typecheck(&mut table).unwrap_err();
    assert_eq!(type_kind(&e), TypeErrorKind::ConstructorConflict);
    let c = class(vec![declare("_init", None, num(0), vec![])], Some(vec![]));
    let e = c.typecheck(&mut table).unwrap_err();
    assert_eq!(type_kind(&e), TypeErrorKind::ConstructorConflict);
    let c = class(vec![declare("_init", None, num(0), vec![])], None);
    assert!(c.typecheck(&mut table).is_ok());
    let mut c = class(vec![], Some(vec![]));
    c.implementations.push(("_init".to_string(), num(1)));
    assert_eq!(
        type_kind(&c.typecheck(&mut table).unwrap_err()),
        TypeErrorKind::ConstructorConflict
    );
    assert_eq!(table.depth(), 2);
}

#[test]
fn instance_field_without_a_type() {
    let c = class(vec![declare("x", None, num(0), inst())], None);
    let mut table: SymTable<Type> = SymTable::default();
    let e = c.typecheck(&mut table).unwrap_err();
    assert_eq!(type_kind(&e), TypeErrorKind::MalformedDeclaration);
    let c = class(vec![declare("x", Some(var("nothing")), num(0), inst())], None);
    let e = c.typecheck(&mut table).unwrap_err();
    assert_eq!(type_kind(&e), TypeErrorKind::NotAType);
}

#[test]
fn literals_and_names() {
    assert!(check(&num(1)).unwrap().same(&i32_t()));
    assert!(check(&var("i32")).unwrap().same(&Prim::Type.ty()));
    let e = check(&var_at("nope", 2)).unwrap_err();
    assert!(matches!(e, ZError::Name { kind: NameErrorKind::Undeclared, .. }));
    assert_eq!(e.span(), Some(Span::new(2, 6)));
}

#[test]
fn binary_operators() {
    assert!(check(&bin(OprType::And, num(1), num(2))).unwrap().same(&Prim::Bool.ty()));
    assert!(check(&bin(OprType::Or, boolean(true), num(2))).unwrap().same(&Prim::Bool.ty()));
    assert!(check(&bin(OprType::TypeCast, num(1), var("str"))).unwrap().same(&Prim::Str.ty()));
    let by_literal = bin(OprType::TypeCast, num(1), lit(Value::Type(Prim::Bool.ty())));
    assert!(check(&by_literal).unwrap().same(&Prim::Bool.ty()));
    let e = check(&bin(OprType::TypeCast, num(1), num(2))).unwrap_err();
    assert_eq!(type_kind(&e), TypeErrorKind::NotAType);
    let e = check(&bin(OprType::Add, num(1), num(2))).unwrap_err();
    assert_eq!(type_kind(&e), TypeErrorKind::NotCore);
    assert!(check(&bin(OprType::Add, num(1), num(2)).desugar()).unwrap().same(&i32_t()));
    assert!(check(&bin(OprType::Lt, num(1), num(2)).desugar()).unwrap().same(&Prim::Bool.ty()));
    // operands are checked first
    let e = check(&bin(OprType::And, var("nope"), num(2))).unwrap_err();
    assert!(matches!(e, ZError::Name { .. }));
}

#[test]
fn block_is_of_the_type_of_its_last_statement() {
    let b = Ast::Block(block(vec![boolean(true), num(1)]));
    assert!(check(&b).unwrap().same(&i32_t()));
    assert!(check(&Ast::Block(block(vec![]))).unwrap().same(&Prim::Unit.ty()));
}

#[test]
fn returns_in_a_block_have_to_agree() {
    let b = block(vec![ret(num(1)), ret(num(2)), num(3)]);
    let mut table: SymTable<Type> = SymTable::default();
    let (t, returned) = b.block_type(&mut table, false).unwrap();
    assert!(t.same(&i32_t()));
    assert!(returned.unwrap().same(&i32_t()));
    let (t, returned) = b.block_type(&mut table, true).unwrap();
    assert!(t.same(&i32_t()));
    assert!(returned.is_none());
    assert_eq!(table.depth(), 2);

    // the second return disagrees with the first: the error is placed there
    let b = block(vec![ret(num(1)), ret(Ast::Literal(Literal {
        span: Some(Span::new(10, 14)),
        content: Value::Bool(true),
    })), num(3)]);
    let e = b.block_type(&mut table, true).unwrap_err();
    assert_eq!(table.depth(), 2);
    match e {
        ZError::Type { kind, expected, found, span } => {
            assert_eq!(kind, TypeErrorKind::Mismatch);
            assert!(expected.same(&i32_t()));
            assert!(found.same(&Prim::Bool.ty()));
            assert_eq!(span, Some(Span::new(10, 14)));
        }
        other => panic!("unexpected: {:?}", other),
    }

    // what is returned takes the place of the last statement's type
    let b = block(vec![ret(num(1)), Ast::Literal(Literal {
        span: Some(Span::new(20, 24)),
        content: Value::Bool(true),
    })]);
    let (t, returned) = b.block_type(&mut table, true).unwrap();
    assert!(t.same(&i32_t()));
    assert!(returned.is_none());
    let b = block(vec![ret(num(1)), ret(num(2)), boolean(true)]);
    let (t, returned) = b.block_type(&mut table, false).unwrap();
    assert!(t.same(&i32_t()));
    assert!(returned.unwrap().same(&i32_t()));
    assert_eq!(table.depth(), 2);

    // a block that ends with its return is fine
    let b = block(vec![boolean(true), ret(num(1))]);
    let (t, _) = b.block_type(&mut table, true).unwrap();
    assert!(t.same(&i32_t()));
}

#[test]
fn declaration_declares() {
    let program = Ast::Block(block(vec![declare("x", None, num(1), vec![]), var("x")]));
    assert!(check(&program).unwrap().same(&i32_t()));
    let program = Ast::Block(block(vec![declare("x", Some(var("i32")), num(1), vec![]), var("x")]));
    assert!(check(&program).unwrap().same(&i32_t()));
    let e = check(&declare("x", Some(var("bool")), num(1), vec![])).unwrap_err();
    assert_eq!(type_kind(&e), TypeErrorKind::Mismatch);
    let bad = Ast::Declare(Declare {
        variable: Box::new(num(1)),
        content: Box::new(num(2)),
        flags: vec![],
        ty: None,
        eq_span: None,
    });
    assert_eq!(type_kind(&check(&bad).unwrap_err()), TypeErrorKind::MalformedDeclaration);
}

#[test]
fn assignment_has_to_agree_with_the_declaration() {
    let ok = Ast::Block(block(vec![declare("x", None, num(1), vec![]), assign("x", num(2))]));
    assert!(check(&ok).unwrap().same(&i32_t()));
    let bad = Ast::Block(block(vec![declare("x", None, num(1), vec![]), assign("x", boolean(true))]));
    assert_eq!(type_kind(&check(&bad).unwrap_err()), TypeErrorKind::Mismatch);
    let e = check(&assign("nowhere", num(1))).unwrap_err();
    assert!(matches!(e, ZError::Name { kind: NameErrorKind::Undeclared, .. }));
    let e = check(&assign("i32", num(1))).unwrap_err();
    assert!(matches!(e, ZError::Name { kind: NameErrorKind::Immutable, .. }));
}

#[test]
fn delete_is_of_the_unit_type() {
    let d = Delete { kwd_span: None, names: vec![Ident { name: "x".to_string(), name_span: None }] };
    let mut table: SymTable<Type> = SymTable::default();
    assert!(d.typecheck(&mut table).unwrap().same(&Prim::Unit.ty()));
    assert_eq!(table.depth(), 2);
}

#[test]
fn procedures_and_calls() {
    let f = Ast::Procedure(Procedure {
        is_fn: true,
        kwd_span: None,
        args: vec![Argument {
            name: Ident { name: "a".to_string(), name_span: None },
            ty: Box::new(var("i32")),
            default: None,
        }],
        return_type: Some(Box::new(var("i32"))),
        content: block(vec![var("a")]),
    });
    let t = check(&f).unwrap();
    assert_eq!(t.to_string(), "proc[_: i32]");
    let call = Ast::Call(Call { called: Box::new(f.duplicate()), paren_spans: None, args: vec![num(1)] });
    assert!(check(&call).unwrap().same(&i32_t()));
    let call = Ast::Call(Call { called: Box::new(num(1)), paren_spans: None, args: vec![] });
    assert_eq!(type_kind(&check(&call).unwrap_err()), TypeErrorKind::NotCallable);

    // the body has to be of the return type
    let bad = Ast::Procedure(Procedure {
        is_fn: true,
        kwd_span: None,
        args: vec![],
        return_type: Some(Box::new(var("i32"))),
        content: block(vec![boolean(true)]),
    });
    assert_eq!(type_kind(&check(&bad).unwrap_err()), TypeErrorKind::Mismatch);

    // a function body does not see the locals of the scope around it
    let hidden = Ast::Block(block(vec![
        declare("x", None, num(1), vec![]),
        Ast::Procedure(Procedure {
            is_fn: true,
            kwd_span: None,
            args: vec![],
            return_type: Some(Box::new(lit(Value::Type(Type::Any)))),
            content: block(vec![var("x")]),
        }),
    ]));
    assert!(matches!(check(&hidden).unwrap_err(), ZError::Name { .. }));
}

#[test]
fn member_access() {
    let m = Ast::Member(Member {
        ty: AccessType::Method,
        name: "_lt".to_string(),
        parent: Box::new(num(1)),
        name_span: None,
        dot_span: None,
    });
    assert_eq!(check(&m).unwrap().to_string(), "proc[_: bool]");
    let m = Ast::Member(Member {
        ty: AccessType::Method,
        name: "_nothing".to_string(),
        parent: Box::new(num(1)),
        name_span: None,
        dot_span: None,
    });
    assert_eq!(type_kind(&check(&m).unwrap_err()), TypeErrorKind::NoSuchMember);
}

#[test]
fn instructions_are_desugared_and_checked() {
    let mut table: SymTable<Type> = SymTable::default();
    let input = vec![
        declare("x", None, num(1), vec![]),
        assign("x", bin(OprType::Add, var("x"), num(2))),
    ];
    let out = gen_instructions(input, &mut table).unwrap();
    assert_eq!(out[1].reconstruct(), "x = x._add(2)");
    assert!(table.get_val(&"x".to_string(), None).unwrap().same(&i32_t()));
    let e = gen_instructions(vec![var("nope")], &mut table).unwrap_err();
    assert!(matches!(e, ZError::Name { .. }));
}

#[test]
fn span_is_the_union_of_the_parts() {
    let b = bin(OprType::Add, num_at(1, 4, 5), num_at(2, 8, 9));
    assert_eq!(b.span(), Some(Span::new(4, 9)));
    let with_opr = Ast::BinaryOpr(BinaryOpr {
        ty: OprType::Add,
        opr_span: Some(Span::new(1, 2)),
        operand1: Box::new(num(1)),
        operand2: Box::new(num_at(2, 8, 9)),
    });
    assert_eq!(with_opr.span(), Some(Span::new(1, 9)));
    assert_eq!(bin(OprType::Add, num(1), num(2)).span(), None);
    let blk = Ast::Block(Block {
        brace_spans: Some((Span::new(0, 1), Span::new(20, 21))),
        content: vec![num_at(1, 4, 5), num(2)],
    });
    assert_eq!(blk.span(), Some(Span::new(0, 21)));
    let blk = Ast::Block(Block { brace_spans: None, content: vec![num(0), num_at(1, 4, 5), num_at(2, 2, 3)] });
    assert_eq!(blk.span(), Some(Span::new(2, 5)));
    let d = Ast::Delete(Delete {
        kwd_span: Some(Span::new(10, 13)),
        names: vec![
            Ident { name: "a".to_string(), name_span: Some(Span::new(14, 15)) },
            Ident { name: "b".to_string(), name_span: Some(Span::new(5, 6)) },
        ],
    });
    assert_eq!(d.span(), Some(Span::new(5, 15)));
    assert_eq!(merge(Some(Span::new(3, 4)), None), Some(Span::new(3, 4)));
    assert_eq!(merge(None, None), None);
    assert_eq!(Span::new(5, 9).union(&Span::new(1, 6)), Span::new(1, 9));
    // desugaring drops the span of the operator
    assert_eq!(with_opr.desugar().span(), Some(Span::new(8, 9)));
}

#[test]
fn desugaring_is_idempotent() {
    let trees = vec![
        bin(OprType::And, bin(OprType::Lt, num(1), num(2)), boolean(true)),
        bin(OprType::Or, bin(OprType::TypeCast, num(1), var("bool")), num(0)),
        bin(OprType::Mod, bin(OprType::Mul, num(1), num(2)), bin(OprType::Concat, num(3), num(4))),
        Ast::Block(block(vec![assign("x", bin(OprType::Sub, var("x"), num(1)))])),
    ];
    for t in trees {
        let once = t.desugar();
        let twice = once.desugar();
        assert!(once.same(&twice), "{}", t.reconstruct());
    }
}

#[test]
fn desugared_forms() {
    let t = bin(OprType::Mod, num(7), num(2)).desugar();
    assert_eq!(t.reconstruct(), "7._rem(2)");
    let t = bin(OprType::And, var("a"), var("b")).desugar();
    assert_eq!(t.reconstruct(), "a <@> bool <&&> b <@> bool");
    let t = bin(OprType::Or, bin(OprType::Ge, var("a"), num(1)), var("b")).desugar();
    assert_eq!(t.reconstruct(), "a._ge(1) <@> bool <||> b <@> bool");
    let t = bin(OprType::TypeCast, bin(OprType::Add, var("a"), num(1)), var("str")).desugar();
    assert_eq!(t.reconstruct(), "a._add(1) <@> str");
    let names = [
        (OprType::Add, "_add"),
        (OprType::Sub, "_sub"),
        (OprType::Mul, "_mul"),
        (OprType::Div, "_div"),
        (OprType::Mod, "_rem"),
        (OprType::Eq, "_eq"),
        (OprType::Ne, "_ne"),
        (OprType::Lt, "_lt"),
        (OprType::Le, "_le"),
        (OprType::Gt, "_gt"),
        (OprType::Ge, "_ge"),
        (OprType::Concat, "_concat"),
    ];
    for (op, name) in names {
        assert_eq!(bin(op, var("a"), var("b")).desugar().reconstruct(), format!("a.{}(b)", name));
    }
}

#[test]
fn reconstruction() {
    let d = Delete {
        kwd_span: None,
        names: vec![
            Ident { name: "a".to_string(), name_span: None },
            Ident { name: "b".to_string(), name_span: None },
        ],
    };
    assert_eq!(d.reconstruct(), "del a , b");
    let b = BinaryOpr {
        ty: OprType::Le,
        opr_span: None,
        operand1: Box::new(var("a")),
        operand2: Box::new(num(1)),
    };
    assert_eq!(b.reconstruct(), "a <<=> 1");
    assert_eq!(class(vec![num(1)], None).reconstruct(), "class { 1 }");
    assert_eq!(ret(num(1)).reconstruct(), "ret 1");
}
