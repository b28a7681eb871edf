use zyxt::errors::{NameErrorKind, ZError};
use zyxt::types::position::Span;
use zyxt::types::sym_table::{FrameType, SymTable};
use zyxt::types::typeobj::Type;
use zyxt::types::value::{IntKind, Prim, Value};

fn name(s: &str) -> String {
    s.to_string()
}

fn num(n: i128) -> Value {
    Value::Int(IntKind::I32, n)
}

fn number_of(v: &Value) -> i128 {
    match v {
        Value::Int(_, n) => *n,
        other => panic!("not an integer: {:?}", other),
    }
}

fn kind_of(e: &ZError) -> NameErrorKind {
    match e {
        ZError::Name { kind, .. } => *kind,
        other => panic!("not a name error: {:?}", other),
    }
}

#[test]
fn declared_name_is_found() {
    let mut table: SymTable<Value> = SymTable::default();
    table.declare_val(&name("x"), num(7));
    assert_eq!(number_of(table.get_val(&name("x"), None).unwrap()), 7);
}

#[test]
fn inner_binding_shadows_outer() {
    let mut table: SymTable<Value> = SymTable::default();
    table.declare_val(&name("x"), num(1));
    table.add_frame(None, FrameType::Normal);
    table.declare_val(&name("x"), num(2));
    assert_eq!(number_of(table.get_val(&name("x"), None).unwrap()), 2);
    table.discard_frame();
    assert_eq!(number_of(table.get_val(&name("x"), None).unwrap()), 1);
}

#[test]
fn name_declared_in_a_popped_frame_is_gone() {
    let mut table: SymTable<Value> = SymTable::default();
    table.add_frame(None, FrameType::Normal);
    table.declare_val(&name("n"), num(5));
    assert!(table.get_val(&name("n"), None).is_ok());
    assert_eq!(table.pop_frame(8).unwrap().map(|v| number_of(&v)), None);
    let err = table.get_val(&name("n"), Some(Span::new(1, 2))).unwrap_err();
    assert_eq!(kind_of(&err), NameErrorKind::Undeclared);
    match err {
        ZError::Name { name: n, span, .. } => {
            assert_eq!(n, "n");
            assert_eq!(span, Some(Span::new(1, 2)));
        }
        _ => unreachable!(),
    }
}

#[test]
fn set_reaches_outer_frames() {
    let mut table: SymTable<Value> = SymTable::default();
    table.declare_val(&name("x"), num(1));
    table.add_frame(None, FrameType::Normal);
    table.set_val(&name("x"), num(9), None).unwrap();
    table.discard_frame();
    assert_eq!(number_of(table.get_val(&name("x"), None).unwrap()), 9);
}

#[test]
fn set_on_undeclared_name_fails() {
    let mut table: SymTable<Value> = SymTable::default();
    let err = table.set_val(&name("nope"), num(1), None).unwrap_err();
    assert_eq!(kind_of(&err), NameErrorKind::Undeclared);
}

#[test]
fn set_on_a_constant_fails() {
    let mut table: SymTable<Value> = SymTable::default();
    let err = table.set_val(&name("i32"), num(1), None).unwrap_err();
    assert_eq!(kind_of(&err), NameErrorKind::Immutable);
    // the constant is untouched
    assert!(matches!(table.get_val(&name("i32"), None).unwrap(), Value::Type(_)));
}

#[test]
fn delete_does_not_search_outward() {
    let mut table: SymTable<Value> = SymTable::default();
    table.declare_val(&name("x"), num(1));
    table.add_frame(None, FrameType::Normal);
    let err = table.delete_val(&name("x"), None).unwrap_err();
    assert_eq!(kind_of(&err), NameErrorKind::Undeclared);
    assert_eq!(number_of(table.get_val(&name("x"), None).unwrap()), 1);
}

#[test]
fn delete_takes_the_name_out_of_the_innermost_frame() {
    let mut table: SymTable<Value> = SymTable::default();
    table.declare_val(&name("x"), num(1));
    table.add_frame(None, FrameType::Normal);
    table.declare_val(&name("x"), num(2));
    assert_eq!(number_of(&table.delete_val(&name("x"), None).unwrap()), 2);
    assert_eq!(number_of(table.get_val(&name("x"), None).unwrap()), 1);
}

#[test]
fn function_frame_hides_locals_but_not_constants() {
    let mut table: SymTable<Value> = SymTable::default();
    table.declare_val(&name("x"), num(1));
    table.add_frame(None, FrameType::Function);
    table.declare_val(&name("arg"), num(3));
    table.add_frame(None, FrameType::Normal);
    let err = table.get_val(&name("x"), None).unwrap_err();
    assert_eq!(kind_of(&err), NameErrorKind::Undeclared);
    assert!(matches!(table.get_val(&name("i32"), None).unwrap(), Value::Type(_)));
    assert_eq!(number_of(table.get_val(&name("arg"), None).unwrap()), 3);
    let err = table.set_val(&name("x"), num(5), None).unwrap_err();
    assert_eq!(kind_of(&err), NameErrorKind::Undeclared);
}

#[test]
fn normal_frame_does_not_hide_locals() {
    let mut table: SymTable<Value> = SymTable::default();
    table.declare_val(&name("x"), num(1));
    table.add_frame(None, FrameType::Normal);
    table.add_frame(None, FrameType::Normal);
    assert_eq!(number_of(table.get_val(&name("x"), None).unwrap()), 1);
}

#[test]
fn fresh_table_has_constants_below_a_normal_frame() {
    let table: SymTable<Value> = SymTable::default();
    assert_eq!(table.depth(), 2);
    assert_eq!(table.frames[0].ty, FrameType::Normal);
    assert_eq!(table.frames[1].ty, FrameType::Constants);
    assert_eq!(table.frames[0].heap.len(), 0);
    let names = [
        "str", "bool", "i8", "i16", "i32", "i64", "i128", "isize", "ibig", "u8", "u16", "u32",
        "u64", "u128", "usize", "ubig", "f16", "f32", "f64", "_unit", "_any", "type",
    ];
    for n in names {
        assert!(matches!(table.get_val(&name(n), None), Ok(Value::Type(_))), "{}", n);
    }
    assert_eq!(table.frames[1].heap.len(), 22);
    assert_eq!(table.frames[1].heap.len(), names.len());
    assert!(table.get_val(&name("proc"), None).is_err());
    let types: SymTable<Type> = SymTable::default();
    for n in names {
        assert!(types.get_val(&name(n), None).is_ok(), "{}", n);
        assert!(types.get_typedef(&name(n)).is_some(), "{}", n);
    }
    assert_eq!(types.frames[1].heap.len(), 22);
    assert_eq!(types.frames[1].typedefs.len(), 22);
    assert!(types.get_typedef(&name("f64")).unwrap().same(&Prim::F64.ty()));
    assert!(types.get_typedef(&name("i128")).unwrap().same(&Prim::Int(IntKind::I128).ty()));
    match table.get_val(&name("i32"), None).unwrap() {
        Value::Type(t) => assert!(t.same(&Prim::Int(IntKind::I32).ty())),
        other => panic!("unexpected: {:?}", other),
    }
}

#[test]
fn fresh_type_table_knows_what_the_names_stand_for() {
    let table: SymTable<Type> = SymTable::default();
    assert_eq!(table.depth(), 2);
    let bound = table.get_val(&name("bool"), None).unwrap();
    assert!(bound.same(&Prim::Type.ty()));
    let meant = table.get_typedef(&name("bool")).unwrap();
    assert!(meant.same(&Prim::Bool.ty()));
    assert!(table.get_typedef(&name("_any")).unwrap().same(&Type::Any));
    assert!(table.get_typedef(&name("nothing")).is_none());
}

#[test]
fn declaring_a_definition_gives_the_name_a_meaning_as_a_type() {
    let mut table: SymTable<Type> = SymTable::default();
    let def = Prim::Bool.definition();
    let instance = def.get_instance();
    table.declare_val(&name("flag"), Type::Definition(def));
    assert!(table.get_typedef(&name("flag")).unwrap().same(&instance));
    table.declare_val(&name("plain"), Prim::Bool.ty());
    assert!(table.get_typedef(&name("plain")).is_none());
}
