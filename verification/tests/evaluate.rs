use zyxt::ast::assign::Assign;
use zyxt::ast::argument::Argument;
use zyxt::ast::binary_opr::BinaryOpr;
use zyxt::ast::block::Block;
use zyxt::ast::call::Call;
use zyxt::ast::control::{Defer, Return};
use zyxt::ast::declare::Declare;
use zyxt::ast::delete::Delete;
use zyxt::ast::ident::Ident;
use zyxt::ast::literal::Literal;
use zyxt::ast::member::Member;
use zyxt::ast::procedure::Procedure;
use zyxt::ast::Ast;
use zyxt::errors::{EvalErrorKind, NameErrorKind, ZError};
use zyxt::instructor::{exit_code, interpret};
use zyxt::types::position::Span;
use zyxt::types::sym_table::{FrameType, SymTable};
use zyxt::ast::class::Class;
use zyxt::ast::unary_opr::UnaryOpr;
use zyxt::types::token::{AccessType, Flag, OprType, UnaryOprType};
use zyxt::types::typeobj::{Field, TypeDefinition};
use zyxt::types::namespace::{before, put_member};
use zyxt::types::typeobj::Type;
use zyxt::types::value::{IntKind, Prim, Value};

const FUEL: usize = 64;

fn lit(v: Value) -> Ast {
    Ast::Literal(Literal { span: None, content: v })
}

fn num(n: i128) -> Ast {
    lit(Value::Int(IntKind::I32, n))
}

fn boolean(b: bool) -> Ast {
    lit(Value::Bool(b))
}

fn var(name: &str) -> Ast {
    Ast::Ident(Ident { name: name.to_string(), name_span: None })
}

fn var_at(name: &str, start: usize) -> Ast {
    Ast::Ident(Ident { name: name.to_string(), name_span: Some(Span::new(start, start + name.len())) })
}

fn bin(ty: OprType, a: Ast, b: Ast) -> Ast {
    Ast::BinaryOpr(BinaryOpr { ty, opr_span: None, operand1: Box::new(a), operand2: Box::new(b) })
}

fn declare(name: &str, content: Ast) -> Ast {
    Ast::Declare(Declare {
        variable: Box::new(var(name)),
        content: Box::new(content),
        flags: vec![],
        ty: None,
        eq_span: None,
    })
}

fn assign(name: &str, content: Ast) -> Ast {
    Ast::Assign(Assign { variable: Box::new(var(name)), eq_span: None, content: Box::new(content) })
}

fn block(content: Vec<Ast>) -> Ast {
    Ast::Block(Block { brace_spans: None, content })
}

fn ret(value: Ast) -> Ast {
    Ast::Return(Return { kwd_span: None, value: Box::new(value) })
}

fn defer(content: Ast) -> Ast {
    Ast::Defer(Defer { kwd_span: None, content: Box::new(content) })
}

fn del(names: &[&str]) -> Ast {
    Ast::Delete(Delete {
        kwd_span: Some(Span::new(0, 3)),
        names: names.iter().map(|n| Ident { name: n.to_string(), name_span: None }).collect(),
    })
}

fn call(called: Ast, args: Vec<Ast>) -> Ast {
    Ast::Call(Call { called: Box::new(called), paren_spans: None, args })
}

fn method(parent: Ast, name: &str) -> Ast {
    Ast::Member(Member {
        ty: AccessType::Method,
        name: name.to_string(),
        parent: Box::new(parent),
        name_span: None,
        dot_span: None,
    })
}

fn function(is_fn: bool, params: &[&str], body: Vec<Ast>) -> Ast {
    Ast::Procedure(Procedure {
        is_fn,
        kwd_span: None,
        args: params
            .iter()
            .map(|p| Argument {
                name: Ident { name: p.to_string(), name_span: None },
                ty: Box::new(lit(Value::Type(Type::Any))),
                default: None,
            })
            .collect(),
        return_type: None,
        content: Block { brace_spans: None, content: body },
    })
}

fn run(program: Vec<Ast>) -> Result<Value, ZError> {
    let mut table: SymTable<Value> = SymTable::default();
    let r = interpret(&program, &mut table, FUEL).map(|(v, _)| v);
    assert_eq!(table.depth(), 2);
    r
}

fn number(v: &Value) -> i128 {
    match v {
        Value::Int(_, n) => *n,
        other => panic!("not a number: {:?}", other),
    }
}

fn truth(v: &Value) -> bool {
    match v {
        Value::Bool(b) => *b,
        other => panic!("not a boolean: {:?}", other),
    }
}

fn eval_kind(e: &ZError) -> EvalErrorKind {
    match e {
        ZError::Eval { kind, .. } => *kind,
        other => panic!("not an evaluation error: {:?}", other),
    }
}

fn name_kind(e: &ZError) -> NameErrorKind {
    match e {
        ZError::Name { kind, .. } => *kind,
        other => panic!("not a name error: {:?}", other),
    }
}

#[test]
fn compound_assignment_adds() {
    // x := 1; x += 2; x
    let compound = assign("x", bin(OprType::Add, var("x"), num(2)));
    let program = vec![declare("x", num(1)), compound.desugar(), var("x")];
    assert_eq!(number(&run(program).unwrap()), 3);
}

#[test]
fn false_and_does_not_evaluate_the_second_operand() {
    let v = run(vec![bin(OprType::And, boolean(false), var("missing"))]).unwrap();
    assert!(!truth(&v));
}

#[test]
fn true_or_does_not_evaluate_the_second_operand() {
    let v = run(vec![bin(OprType::Or, boolean(true), var("missing"))]).unwrap();
    assert!(truth(&v));
}

#[test]
fn second_operand_is_evaluated_where_the_first_does_not_decide() {
    let e = run(vec![bin(OprType::And, boolean(true), var_at("missing", 8))]).unwrap_err();
    assert_eq!(name_kind(&e), NameErrorKind::Undeclared);
    assert_eq!(e.span(), Some(Span::new(8, 15)));
    let e = run(vec![bin(OprType::Or, boolean(false), var("missing"))]).unwrap_err();
    assert_eq!(name_kind(&e), NameErrorKind::Undeclared);
    assert!(truth(&run(vec![bin(OprType::And, boolean(true), boolean(true))]).unwrap()));
    assert!(!truth(&run(vec![bin(OprType::Or, boolean(false), boolean(false))]).unwrap()));
}

#[test]
fn side_effects_of_the_second_operand_do_not_happen() {
    let program = vec![
        declare("x", num(1)),
        bin(OprType::And, boolean(false), block(vec![assign("x", num(5)), boolean(true)])),
        var("x"),
    ];
    assert_eq!(number(&run(program).unwrap()), 1);
    let program = vec![
        declare("x", num(1)),
        bin(OprType::And, boolean(true), block(vec![assign("x", num(5)), boolean(true)])),
        var("x"),
    ];
    assert_eq!(number(&run(program).unwrap()), 5);
}

#[test]
fn and_of_a_number_is_an_error() {
    let e = run(vec![bin(OprType::And, num(1), boolean(true))]).unwrap_err();
    assert_eq!(eval_kind(&e), EvalErrorKind::NotBool);
    let e = run(vec![bin(OprType::And, boolean(true), num(1))]).unwrap_err();
    assert_eq!(eval_kind(&e), EvalErrorKind::NotBool);
}

#[test]
fn sugar_does_not_evaluate() {
    let e = run(vec![bin(OprType::Add, num(1), num(2))]).unwrap_err();
    assert_eq!(eval_kind(&e), EvalErrorKind::NotCore);
    assert_eq!(number(&run(vec![bin(OprType::Add, num(1), num(2)).desugar()]).unwrap()), 3);
}

#[test]
fn delete_in_a_block_does_not_reach_the_outer_frame() {
    let program = vec![declare("x", num(1)), block(vec![del(&["x"])])];
    let e = run(program).unwrap_err();
    assert_eq!(name_kind(&e), NameErrorKind::Undeclared);
    match e {
        ZError::Name { name, span, .. } => {
            assert_eq!(name, "x");
            assert_eq!(span, Some(Span::new(0, 3)));
        }
        _ => unreachable!(),
    }
}

#[test]
fn delete_removes_from_the_innermost_frame() {
    let program = vec![declare("x", num(1)), declare("y", num(2)), del(&["x", "y"]), var("x")];
    let e = run(program).unwrap_err();
    assert_eq!(name_kind(&e), NameErrorKind::Undeclared);
    let program = vec![
        declare("x", num(1)),
        block(vec![declare("x", num(2)), del(&["x"]), var("x")]),
    ];
    assert_eq!(number(&run(program).unwrap()), 1);
}

#[test]
fn block_gives_its_last_value_and_drops_its_names() {
    let program = vec![block(vec![declare("y", num(4)), var("y")])];
    assert_eq!(number(&run(program).unwrap()), 4);
    let program = vec![block(vec![declare("y", num(4))]), var("y")];
    assert_eq!(name_kind(&run(program).unwrap_err()), NameErrorKind::Undeclared);
    assert!(matches!(run(vec![block(vec![])]).unwrap(), Value::Unit));
}

#[test]
fn return_ends_the_block() {
    let program = vec![
        declare("x", num(1)),
        block(vec![ret(num(7)), assign("x", num(9))]),
    ];
    assert_eq!(number(&run(program).unwrap()), 7);
    let program = vec![
        declare("x", num(1)),
        block(vec![ret(num(7)), assign("x", num(9))]),
        var("x"),
    ];
    assert_eq!(number(&run(program).unwrap()), 1);
}

#[test]
fn non_returnable_block_hands_the_return_on() {
    let inner = Block { brace_spans: None, content: vec![ret(num(7)), num(8)] };
    let mut table: SymTable<Value> = SymTable::default();
    let v = inner.interpret_block(&mut table, false, true, FUEL).unwrap();
    match v {
        Value::Return(inner) => assert_eq!(number(&inner), 7),
        other => panic!("unexpected: {:?}", other),
    }
    let v = inner.interpret_block(&mut table, true, true, FUEL).unwrap();
    assert_eq!(number(&v), 7);
    assert_eq!(table.depth(), 2);
}

#[test]
fn block_without_its_own_frame_declares_in_the_callers() {
    let body = Block { brace_spans: None, content: vec![declare("z", num(3))] };
    let mut table: SymTable<Value> = SymTable::default();
    body.interpret_block(&mut table, true, false, FUEL).unwrap();
    assert_eq!(number(table.get_val(&"z".to_string(), None).unwrap()), 3);
}

#[test]
fn deferred_statements_run_at_the_pop_in_order() {
    let program = vec![
        declare("x", num(1)),
        block(vec![
            defer(assign("x", num(2))),
            defer(assign("x", bin(OprType::Mul, var("x"), num(10)).desugar())),
            assign("x", num(0)),
        ]),
        var("x"),
    ];
    // the block sets 0, then the deferred statements set 2 and multiply by 10
    assert_eq!(number(&run(program).unwrap()), 20);
}

#[test]
fn deferred_return_overrides_the_result() {
    let program = vec![block(vec![defer(ret(num(42))), num(1)])];
    assert_eq!(number(&run(program).unwrap()), 42);
    let program = vec![
        declare("x", num(1)),
        block(vec![defer(ret(num(42))), defer(assign("x", num(5))), ret(num(1))]),
        var("x"),
    ];
    // the first deferred statement returns, and the second runs all the same
    assert_eq!(number(&run(program).unwrap()), 5);
    let program = vec![block(vec![defer(ret(num(42))), defer(ret(num(43))), ret(num(1))])];
    // the first value that a deferred statement returns is kept
    assert_eq!(number(&run(program).unwrap()), 42);
}

#[test]
fn pop_runs_every_deferred_statement() {
    let mut table: SymTable<Value> = SymTable::default();
    table.declare_val(&"x".to_string(), Value::Int(IntKind::I32, 1));
    table.declare_val(&"y".to_string(), Value::Int(IntKind::I32, 1));
    table.add_frame(None, FrameType::Normal);
    table.add_defer(assign("x", num(2)));
    table.add_defer(ret(num(7)));
    table.add_defer(assign("y", num(3)));
    let popped = table.pop_frame(FUEL).unwrap();
    assert_eq!(number(&popped.unwrap()), 7);
    assert_eq!(table.depth(), 2);
    assert_eq!(number(table.get_val(&"x".to_string(), None).unwrap()), 2);
    assert_eq!(number(table.get_val(&"y".to_string(), None).unwrap()), 3);
    // an error ends the run, and the frame is gone all the same
    table.add_frame(None, FrameType::Normal);
    table.add_defer(var("missing"));
    table.add_defer(assign("x", num(9)));
    assert!(table.pop_frame(FUEL).is_err());
    assert_eq!(table.depth(), 2);
    assert_eq!(number(table.get_val(&"x".to_string(), None).unwrap()), 2);
}

#[test]
fn sugar_operator_hands_on_the_errors_of_its_operands() {
    let e = run(vec![bin(OprType::Add, var_at("missing", 2), num(1))]).unwrap_err();
    assert_eq!(name_kind(&e), NameErrorKind::Undeclared);
    assert_eq!(e.span(), Some(Span::new(2, 9)));
    let e = run(vec![bin(OprType::Add, num(1), var("missing"))]).unwrap_err();
    assert_eq!(name_kind(&e), NameErrorKind::Undeclared);
    // the first operand comes first
    let e = run(vec![bin(OprType::Add, var("first"), var("second"))]).unwrap_err();
    assert!(matches!(e, ZError::Name { ref name, .. } if name == "first"));
    // its operands are evaluated before it fails
    let program = vec![
        declare("x", num(1)),
        block(vec![defer(var("x")), num(0)]),
    ];
    assert!(run(program).is_ok());
    let mut table: SymTable<Value> = SymTable::default();
    table.declare_val(&"x".to_string(), Value::Int(IntKind::I32, 1));
    let sugar = bin(OprType::Mul, block(vec![assign("x", num(4))]), num(2));
    let e = sugar.interpret_expr(&mut table, FUEL).unwrap_err();
    assert_eq!(eval_kind(&e), EvalErrorKind::NotCore);
    assert_eq!(number(table.get_val(&"x".to_string(), None).unwrap()), 4);
    let e = run(vec![Ast::UnaryOpr(UnaryOpr {
        ty: UnaryOprType::Not,
        opr_span: None,
        operand: Box::new(var("missing")),
    })])
    .unwrap_err();
    assert_eq!(name_kind(&e), NameErrorKind::Undeclared);
}

#[test]
fn later_declaration_of_a_name_replaces_the_earlier() {
    let body = Block {
        brace_spans: None,
        content: vec![declare("n", num(1)), declare("m", num(2)), declare("n", num(3))],
    };
    let c = Class {
        is_struct: false,
        implementations: vec![("m".to_string(), num(0)), ("m".to_string(), num(9))],
        inst_fields: vec![],
        content: Some(body),
        args: None,
    };
    match run(vec![Ast::Class(c.duplicate())]).unwrap() {
        Value::Type(Type::Definition(def)) => {
            let names: Vec<&str> = def.implementations.iter().map(|m| m.0.as_str()).collect();
            assert_eq!(names, vec!["m", "n"]);
            assert!(def.implementations[0].1.same(&num(2)));
            assert!(def.implementations[1].1.same(&num(3)));
            assert!(def.member(&"n".to_string()).unwrap().same(&num(3)));
        }
        other => panic!("unexpected: {:?}", other),
    }
    let mut types: SymTable<Type> = SymTable::default();
    match c.typecheck(&mut types).unwrap() {
        Type::Definition(def) => {
            let names: Vec<&str> = def.implementations.iter().map(|m| m.0.as_str()).collect();
            assert_eq!(names, vec!["m", "n"]);
            assert!(def.implementations[0].1.same(&num(2)));
            assert!(def.implementations[1].1.same(&num(3)));
        }
        other => panic!("unexpected: {:?}", other),
    }
}

#[test]
fn order_of_declaration_leaves_no_trace_in_a_definition() {
    let class_of = |content: Vec<Ast>| Class {
        is_struct: false,
        implementations: vec![],
        inst_fields: vec![],
        content: Some(Block { brace_spans: None, content }),
        args: None,
    };
    let one = class_of(vec![declare("b", num(2)), declare("a", num(1)), declare("ab", num(3))]);
    let other = class_of(vec![declare("ab", num(3)), declare("a", num(1)), declare("b", num(2))]);
    let differs = class_of(vec![declare("ab", num(3)), declare("a", num(1)), declare("b", num(4))]);
    let first = run(vec![Ast::Class(one.duplicate())]).unwrap();
    let second = run(vec![Ast::Class(other.duplicate())]).unwrap();
    assert!(first.same(&second));
    assert!(!first.same(&run(vec![Ast::Class(differs.duplicate())]).unwrap()));
    match &first {
        Value::Type(Type::Definition(def)) => {
            let names: Vec<&str> = def.implementations.iter().map(|m| m.0.as_str()).collect();
            assert_eq!(names, vec!["a", "ab", "b"]);
        }
        other => panic!("unexpected: {:?}", other),
    }
    let mut types: SymTable<Type> = SymTable::default();
    let first = one.typecheck(&mut types).unwrap();
    let second = other.typecheck(&mut types).unwrap();
    assert!(first.same(&second));
    assert!(!first.same(&differs.typecheck(&mut types).unwrap()));
}

#[test]
fn names_are_ordered_as_in_a_dictionary() {
    let s = |t: &str| t.to_string();
    assert!(before(&s("a"), &s("b")));
    assert!(!before(&s("b"), &s("a")));
    assert!(!before(&s("a"), &s("a")));
    assert!(before(&s(""), &s("a")));
    assert!(!before(&s("a"), &s("")));
    assert!(before(&s("a"), &s("ab")));
    assert!(before(&s("ab"), &s("b")));
    assert!(before(&s("Z"), &s("a")));
    assert!(before(&s("_add"), &s("_sub")));
    let mut members = vec![];
    put_member(&mut members, s("n"), num(1));
    put_member(&mut members, s("m"), num(2));
    put_member(&mut members, s("o"), num(3));
    put_member(&mut members, s("n"), num(4));
    let names: Vec<&str> = members.iter().map(|m| m.0.as_str()).collect();
    assert_eq!(names, vec!["m", "n", "o"]);
    assert!(members[1].1.same(&num(4)));
}

#[test]
fn deferred_statements_do_not_run_when_the_block_fails() {
    let mut table: SymTable<Value> = SymTable::default();
    table.declare_val(&"x".to_string(), Value::Int(IntKind::I32, 1));
    let failing = block(vec![defer(assign("x", num(2))), var("missing")]);
    assert!(failing.interpret_expr(&mut table, FUEL).is_err());
    assert_eq!(table.depth(), 2);
    assert_eq!(number(table.get_val(&"x".to_string(), None).unwrap()), 1);
}

#[test]
fn pop_without_budget_fails_where_something_was_deferred() {
    let mut table: SymTable<Value> = SymTable::default();
    table.add_frame(None, FrameType::Normal);
    table.add_defer(num(1));
    let e = table.pop_frame(0).unwrap_err();
    assert_eq!(eval_kind(&e), EvalErrorKind::DepthExceeded);
    assert_eq!(table.depth(), 2);
    table.add_frame(None, FrameType::Normal);
    assert!(table.pop_frame(0).unwrap().is_none());
}

#[test]
fn function_sees_arguments_and_constants_but_not_locals() {
    let program = vec![
        declare("x", num(1)),
        declare("f", function(true, &["a"], vec![var("a")])),
        call(var("f"), vec![num(5)]),
    ];
    assert_eq!(number(&run(program).unwrap()), 5);
    let program = vec![
        declare("x", num(1)),
        declare("f", function(true, &[], vec![var("x")])),
        call(var("f"), vec![]),
    ];
    assert_eq!(name_kind(&run(program).unwrap_err()), NameErrorKind::Undeclared);
    let program = vec![
        declare("f", function(true, &[], vec![var("i32")])),
        call(var("f"), vec![]),
    ];
    match run(program).unwrap() {
        Value::Type(t) => assert!(t.same(&Prim::Int(IntKind::I32).ty())),
        other => panic!("unexpected: {:?}", other),
    }
}

#[test]
fn procedure_sees_the_callers_locals() {
    let program = vec![
        declare("x", num(1)),
        declare("p", function(false, &[], vec![assign("x", num(8))])),
        call(var("p"), vec![]),
        var("x"),
    ];
    assert_eq!(number(&run(program).unwrap()), 8);
}

#[test]
fn call_with_the_wrong_number_of_arguments() {
    let program = vec![
        declare("f", function(true, &["a"], vec![var("a")])),
        call(var("f"), vec![]),
    ];
    assert_eq!(eval_kind(&run(program).unwrap_err()), EvalErrorKind::ArgumentCount);
}

#[test]
fn call_of_what_is_not_callable() {
    let e = run(vec![call(num(1), vec![])]).unwrap_err();
    assert_eq!(eval_kind(&e), EvalErrorKind::NotCallable);
}

#[test]
fn method_that_the_type_does_not_have() {
    let e = run(vec![call(method(boolean(true), "_add"), vec![boolean(true)])]).unwrap_err();
    assert_eq!(eval_kind(&e), EvalErrorKind::NoSuchMember);
}

#[test]
fn larger_budget_gives_the_same_result() {
    // two nested calls and a deferred statement: three units of budget
    let program = vec![
        declare("x", num(1)),
        declare("g", function(false, &[], vec![defer(assign("x", num(7))), num(2)])),
        declare("f", function(false, &[], vec![call(var("g"), vec![])])),
        call(var("f"), vec![]),
    ];
    for budget in [0, 1, 2] {
        let mut table: SymTable<Value> = SymTable::default();
        let e = interpret(&program, &mut table, budget).unwrap_err();
        assert_eq!(eval_kind(&e), EvalErrorKind::DepthExceeded);
    }
    for budget in [3, 4, 64, 1000] {
        let mut table: SymTable<Value> = SymTable::default();
        let (v, _) = interpret(&program, &mut table, budget).unwrap();
        assert_eq!(number(&v), 2);
        assert_eq!(number(table.get_val(&"x".to_string(), None).unwrap()), 7);
        assert_eq!(table.depth(), 2);
    }
    // an error that is not about the budget stays the same error
    for budget in [0, 1, 64] {
        let mut table: SymTable<Value> = SymTable::default();
        let e = interpret(&vec![call(num(1), vec![])], &mut table, budget).unwrap_err();
        assert_eq!(eval_kind(&e), EvalErrorKind::NotCallable);
    }
}

#[test]
fn endless_recursion_runs_out_of_budget() {
    let program = vec![
        declare("f", function(false, &[], vec![call(var("f"), vec![])])),
        call(var("f"), vec![]),
    ];
    let mut table: SymTable<Value> = SymTable::default();
    let e = interpret(&program, &mut table, 5).unwrap_err();
    assert_eq!(eval_kind(&e), EvalErrorKind::DepthExceeded);
    assert_eq!(table.depth(), 2);
}

#[test]
fn return_inside_a_function_leaves_the_function() {
    let program = vec![
        declare("f", function(true, &["a"], vec![ret(var("a")), num(0)])),
        call(var("f"), vec![num(9)]),
    ];
    assert_eq!(number(&run(program).unwrap()), 9);
}

#[test]
fn assignment_to_what_is_not_a_name() {
    let bad = Ast::Assign(Assign {
        variable: Box::new(num(1)),
        eq_span: None,
        content: Box::new(num(2)),
    });
    assert_eq!(eval_kind(&run(vec![bad]).unwrap_err()), EvalErrorKind::NotAssignable);
}

#[test]
fn assignment_to_a_constant_fails() {
    let e = run(vec![assign("i32", num(1))]).unwrap_err();
    assert_eq!(name_kind(&e), NameErrorKind::Immutable);
    let e = run(vec![assign("nowhere", num(1))]).unwrap_err();
    assert_eq!(name_kind(&e), NameErrorKind::Undeclared);
}

#[test]
fn typecast_goes_through_the_method_of_the_type() {
    let cast = bin(OprType::TypeCast, num(300), var("i64"));
    match run(vec![cast]).unwrap() {
        Value::Int(IntKind::I64, 300) => {}
        other => panic!("unexpected: {:?}", other),
    }
    let cast = bin(OprType::TypeCast, num(300), var("u8"));
    assert_eq!(eval_kind(&run(vec![cast]).unwrap_err()), EvalErrorKind::OperationFailed);
    let cast = bin(OprType::TypeCast, num(0), var("bool"));
    assert!(!truth(&run(vec![cast]).unwrap()));
}

#[test]
fn desugared_and_casts_its_operands() {
    let program = vec![bin(OprType::And, num(1), num(0)).desugar()];
    assert!(!truth(&run(program).unwrap()));
    let program = vec![bin(OprType::Or, num(0), num(2)).desugar()];
    assert!(truth(&run(program).unwrap()));
}

#[test]
fn exit_status_is_the_final_number() {
    let mut table: SymTable<Value> = SymTable::default();
    let (_, code) = interpret(&vec![num(3)], &mut table, FUEL).unwrap();
    assert_eq!(code, 3);
    let (_, code) = interpret(&vec![boolean(true)], &mut table, FUEL).unwrap();
    assert_eq!(code, 0);
    let (_, code) = interpret(&vec![], &mut table, FUEL).unwrap();
    assert_eq!(code, 0);
    assert_eq!(exit_code(&Value::Int(IntKind::I64, 1 << 40)), 0);
    assert_eq!(exit_code(&Value::Int(IntKind::I64, -2)), -2);
    let (v, code) = interpret(&vec![ret(num(4)), num(5)], &mut table, FUEL).unwrap();
    assert_eq!(number(&v), 4);
    assert_eq!(code, 4);
}

#[test]
fn member_access_gives_the_member() {
    let access = Ast::Member(Member {
        ty: AccessType::Namespace,
        name: "_add".to_string(),
        parent: Box::new(var("i32")),
        name_span: None,
        dot_span: None,
    });
    let program = vec![call(access, vec![num(2), num(3)])];
    assert_eq!(number(&run(program).unwrap()), 5);
}

fn unary(ty: UnaryOprType, operand: Ast) -> Ast {
    Ast::UnaryOpr(UnaryOpr { ty, opr_span: Some(Span::new(0, 1)), operand: Box::new(operand) })
}

#[test]
fn unary_operators_become_method_calls() {
    let e = run(vec![unary(UnaryOprType::Not, boolean(true))]).unwrap_err();
    assert_eq!(eval_kind(&e), EvalErrorKind::NotCore);
    let t = unary(UnaryOprType::Not, boolean(true)).desugar();
    assert_eq!(t.reconstruct(), "true._not()");
    assert!(!truth(&run(vec![t]).unwrap()));
    let t = unary(UnaryOprType::UnMinus, bin(OprType::Add, num(2), num(3))).desugar();
    assert_eq!(t.reconstruct(), "2._add(3)._un_minus()");
    assert_eq!(number(&run(vec![t.duplicate()]).unwrap()), -5);
    assert!(t.same(&t.desugar()));
    assert_eq!(number(&run(vec![unary(UnaryOprType::UnPlus, num(4)).desugar()]).unwrap()), 4);
    assert_eq!(unary(UnaryOprType::UnMinus, var("a")).reconstruct(), "-a");
    assert_eq!(unary(UnaryOprType::Not, var_at("a", 3)).span(), Some(Span::new(0, 4)));
}

#[test]
fn frame_of_a_call_records_where_it_came_from() {
    // the body fails, so that the table can be inspected where the call left it:
    // deferred statements see the frame of the call
    let mut table: SymTable<Value> = SymTable::default();
    let body = vec![var("a")];
    let f = match function(true, &["a", "b"], body).interpret_expr(&mut table, FUEL).unwrap() {
        Value::Proc(p) => p,
        other => panic!("unexpected: {:?}", other),
    };
    let args = vec![Value::Int(IntKind::I32, 1), Value::Bool(true)];
    let r = f.call(&args, &mut table, FUEL, Some(Span::new(2, 9)), "f(1 , true)".to_string());
    assert_eq!(number(&r.unwrap()), 1);
    assert_eq!(table.depth(), 2);

    // a frame added by hand shows what a call records
    let mut bound = zyxt::types::name_map::NameMap::new();
    bound.insert("a".to_string(), Value::Int(IntKind::I32, 1));
    table.add_frame(
        Some(zyxt::types::sym_table::FrameData {
            pos: Some(Span::new(2, 9)),
            raw_call: "f(1)".to_string(),
            args: bound,
        }),
        FrameType::Function,
    );
    let data = table.frames[0].frame_data.as_ref().unwrap();
    assert_eq!(data.raw_call, "f(1)");
    assert_eq!(data.pos, Some(Span::new(2, 9)));
    assert_eq!(number(data.args.get(&"a".to_string()).unwrap()), 1);
}

#[test]
fn call_site_is_visible_to_deferred_statements() {
    // a deferred statement runs while the frame of the call is still there
    let program = vec![
        declare("f", function(false, &["a"], vec![defer(ret(var("a"))), num(0)])),
        call(var("f"), vec![num(6)]),
    ];
    assert_eq!(number(&run(program).unwrap()), 6);
}

#[test]
fn class_evaluates_to_a_definition() {
    let body = Block {
        brace_spans: None,
        content: vec![
            declare("n", num(1)),
            Ast::Declare(Declare {
                variable: Box::new(var("x")),
                content: Box::new(bin(OprType::Add, num(1), num(2)).desugar()),
                flags: vec![(Flag::Inst, Span::new(0, 4))],
                ty: Some(Box::new(var("i32"))),
                eq_span: None,
            }),
            num(5),
        ],
    };
    let c = Ast::Class(Class {
        is_struct: true,
        implementations: vec![("first".to_string(), boolean(true))],
        inst_fields: vec![],
        content: Some(body),
        args: None,
    });
    match run(vec![c]).unwrap() {
        Value::Type(Type::Definition(def)) => {
            assert_eq!(def.name.as_deref(), Some("struct"));
            let names: Vec<&str> = def.implementations.iter().map(|m| m.0.as_str()).collect();
            assert_eq!(names, vec!["first", "n"]);
            assert!(def.implementations[1].1.same(&num(1)));
            assert_eq!(def.inst_fields.len(), 1);
            assert_eq!(def.inst_fields[0].name, "x");
            assert!(def.inst_fields[0].ty.same(&Prim::Int(IntKind::I32).ty()));
            assert!(def.inst_fields[0].default.as_ref().unwrap().same(&num(3)));
        }
        other => panic!("unexpected: {:?}", other),
    }
}

#[test]
fn class_field_type_has_to_be_a_type() {
    let body = Block {
        brace_spans: None,
        content: vec![Ast::Declare(Declare {
            variable: Box::new(var("x")),
            content: Box::new(num(1)),
            flags: vec![(Flag::Inst, Span::new(0, 4))],
            ty: Some(Box::new(num(7))),
            eq_span: None,
        })],
    };
    let c = Ast::Class(Class {
        is_struct: false,
        implementations: vec![],
        inst_fields: vec![],
        content: Some(body),
        args: None,
    });
    assert_eq!(eval_kind(&run(vec![c]).unwrap_err()), EvalErrorKind::NotAType);
}

#[test]
fn static_definition_becomes_a_runtime_definition() {
    let def = TypeDefinition {
        inst_name: Some("point".to_string()),
        name: Some("class".to_string()),
        generics: vec![],
        implementations: vec![("two".to_string(), bin(OprType::Add, num(1), num(1)).desugar())],
        inst_fields: vec![Field {
            name: "x".to_string(),
            ty: Prim::Int(IntKind::I32).ty(),
            default: Some(var("seed")),
        }],
    };
    let mut table: SymTable<Value> = SymTable::default();
    table.declare_val(&"seed".to_string(), Value::Int(IntKind::I32, 9));
    let v = Type::Definition(def.duplicate()).as_type_value(&mut table, FUEL).unwrap();
    match v {
        Type::Definition(d) => {
            assert_eq!(d.inst_name.as_deref(), Some("point"));
            assert!(d.implementations[0].1.same(&num(2)));
            assert!(d.inst_fields[0].default.as_ref().unwrap().same(&num(9)));
            assert!(d.inst_fields[0].ty.same(&Prim::Int(IntKind::I32).ty()));
        }
        other => panic!("unexpected: {:?}", other),
    }
    let mut empty: SymTable<Value> = SymTable::default();
    let e = def.as_type_value(&mut empty, FUEL).unwrap_err();
    assert_eq!(name_kind(&e), NameErrorKind::Undeclared);
    assert!(Type::Any.as_type_value(&mut empty, FUEL).unwrap().same(&Type::Any));
}

#[test]
fn procedure_with_a_return_type() {
    let p = Ast::Procedure(Procedure {
        is_fn: true,
        kwd_span: None,
        args: vec![],
        return_type: Some(Box::new(var("bool"))),
        content: Block { brace_spans: None, content: vec![boolean(true)] },
    });
    match run(vec![p]).unwrap() {
        Value::Proc(zyxt::types::value::Proc::Defined(d)) => {
            assert!(d.return_type.same(&Prim::Bool.ty()));
            assert!(d.is_fn);
        }
        other => panic!("unexpected: {:?}", other),
    }
    let p = Ast::Procedure(Procedure {
        is_fn: true,
        kwd_span: None,
        args: vec![],
        return_type: Some(Box::new(num(1))),
        content: Block { brace_spans: None, content: vec![] },
    });
    assert_eq!(eval_kind(&run(vec![p]).unwrap_err()), EvalErrorKind::NotAType);
}
