use zyxt::ast::Ast;
use zyxt::errors::{EvalErrorKind, NameErrorKind, ParseErrorKind, TypeErrorKind, ZError};
use zyxt::instructor::{compile, interpret};
use zyxt::parser::buffer::Buffer;
use zyxt::parser::expr::parse_token_list;
use zyxt::types::position::Span;
use zyxt::types::sym_table::SymTable;
use zyxt::types::token::{Flag, Keyword, OprType, Token, TokenType, UnaryOprType};
use zyxt::types::typeobj::Type;
use zyxt::types::value::{IntKind, Prim, Value};

/// Cuts a source text at its blanks. Unary operators are written `u-`, `u+` and `u!`.
fn lex(source: &str) -> Vec<Token> {
    let mut out = vec![];
    let mut at = 0;
    for word in source.split(' ') {
        if word.is_empty() {
            at += 1;
            continue;
        }
        let ty = match word {
            "=" => TokenType::AssignmentOpr(None),
            "+=" => TokenType::AssignmentOpr(Some(OprType::Add)),
            "*=" => TokenType::AssignmentOpr(Some(OprType::Mul)),
            ":=" => TokenType::DeclarationOpr,
            "+" => TokenType::BinaryOpr(OprType::Add),
            "-" => TokenType::BinaryOpr(OprType::Sub),
            "*" => TokenType::BinaryOpr(OprType::Mul),
            "/" => TokenType::BinaryOpr(OprType::Div),
            "%" => TokenType::BinaryOpr(OprType::Mod),
            "==" => TokenType::BinaryOpr(OprType::Eq),
            "!=" => TokenType::BinaryOpr(OprType::Ne),
            "<" => TokenType::BinaryOpr(OprType::Lt),
            "<=" => TokenType::BinaryOpr(OprType::Le),
            ">" => TokenType::BinaryOpr(OprType::Gt),
            ">=" => TokenType::BinaryOpr(OprType::Ge),
            ".." => TokenType::BinaryOpr(OprType::Concat),
            "&&" => TokenType::BinaryOpr(OprType::And),
            "||" => TokenType::BinaryOpr(OprType::Or),
            "@" => TokenType::BinaryOpr(OprType::TypeCast),
            "u-" => TokenType::UnaryOpr(UnaryOprType::UnMinus),
            "u+" => TokenType::UnaryOpr(UnaryOprType::UnPlus),
            "u!" => TokenType::UnaryOpr(UnaryOprType::Not),
            "proc" => TokenType::Keyword(Keyword::Proc),
            "fn" => TokenType::Keyword(Keyword::Fn),
            "class" => TokenType::Keyword(Keyword::Class),
            "struct" => TokenType::Keyword(Keyword::Struct),
            "del" => TokenType::Keyword(Keyword::Delete),
            "ret" => TokenType::Keyword(Keyword::Return),
            "defer" => TokenType::Keyword(Keyword::Defer),
            "inst" => TokenType::Flag(Flag::Inst),
            "pub" => TokenType::Flag(Flag::Pub),
            "true" | "false" => TokenType::LiteralBool,
            "|" => TokenType::Bar,
            ":" => TokenType::Colon,
            "," => TokenType::Comma,
            "." => TokenType::DotOpr,
            ";" => TokenType::StatementEnd,
            "(" => TokenType::OpenParen,
            ")" => TokenType::CloseParen,
            "{" => TokenType::OpenCurlyParen,
            "}" => TokenType::CloseCurlyParen,
            w if w.starts_with('"') => TokenType::LiteralString,
            w if w.chars().all(|c| c.is_ascii_digit()) => TokenType::LiteralNumber,
            _ => TokenType::Ident,
        };
        out.push(Token::new(Some(ty), Span::new(at, at + word.len()), word.to_string()));
        at += word.len() + 1;
    }
    out
}

fn tree(source: &str) -> Result<Ast, ZError> {
    Buffer::new(lex(source)).parse_as_expr().map(|e| e.node)
}

fn text(source: &str) -> String {
    tree(source).unwrap().reconstruct()
}

fn parse_kind(source: &str) -> ParseErrorKind {
    match tree(source).unwrap_err() {
        ZError::Parse { kind, .. } => kind,
        other => panic!("not a parse error: {:?}", other),
    }
}

/// Parses, desugars, typechecks and evaluates.
fn run(source: &str) -> Result<Value, ZError> {
    let mut types: SymTable<Type> = SymTable::default();
    let trees = compile(lex(source), &mut types)?;
    let mut values: SymTable<Value> = SymTable::default();
    let r = interpret(&trees, &mut values, 64).map(|(v, _)| v);
    assert_eq!(values.depth(), 2);
    r
}

/// Parses, desugars and evaluates, without typechecking.
fn run_unchecked(source: &str) -> Result<Value, ZError> {
    let trees: Vec<Ast> = parse_token_list(lex(source))?.iter().map(|t| t.desugar()).collect();
    let mut values: SymTable<Value> = SymTable::default();
    interpret(&trees, &mut values, 64).map(|(v, _)| v)
}

fn number(source: &str) -> i128 {
    match run(source).unwrap() {
        Value::Int(_, n) => n,
        other => panic!("not a number: {:?}", other),
    }
}

fn truth(source: &str) -> bool {
    match run(source).unwrap() {
        Value::Bool(b) => b,
        other => panic!("not a boolean: {:?}", other),
    }
}

#[test]
fn declare_then_add_then_read() {
    assert_eq!(number("x := 1 ; x += 2 ; x"), 3);
    assert_eq!(text("x += 2"), "x = x <+> 2");
    assert_eq!(tree("x += 2").unwrap().desugar().reconstruct(), "x = x._add(2)");
}

#[test]
fn delete_in_a_block_is_a_name_error() {
    let e = run("x := 1 ; { del x }").unwrap_err();
    assert!(matches!(e, ZError::Name { kind: NameErrorKind::Undeclared, ref name, .. } if name == "x"));
    assert!(matches!(run("x := 1 ; del x ; 5"), Ok(Value::Int(_, 5))));
    let e = run_unchecked("x := 1 ; del x ; x").unwrap_err();
    assert!(matches!(e, ZError::Name { kind: NameErrorKind::Undeclared, .. }));
}

#[test]
fn class_with_an_instance_field_from_source() {
    let t = tree("class { inst x : i32 := 0 }").unwrap();
    let mut types: SymTable<Type> = SymTable::default();
    match t.typecheck(&mut types).unwrap() {
        Type::Definition(def) => {
            assert_eq!(def.name.as_deref(), Some("class"));
            assert_eq!(def.inst_fields.len(), 1);
            assert_eq!(def.inst_fields[0].name, "x");
            assert!(def.inst_fields[0].ty.same(&Prim::Int(IntKind::I32).ty()));
            match def.inst_fields[0].default.as_ref().unwrap() {
                Ast::Literal(l) => assert!(matches!(l.content, Value::Int(IntKind::I32, 0))),
                other => panic!("unexpected: {:?}", other),
            }
        }
        other => panic!("unexpected: {:?}", other),
    }
    let e = tree("class { inst x : i32 := true }").unwrap().typecheck(&mut types).unwrap_err();
    assert!(matches!(e, ZError::Type { kind: TypeErrorKind::Mismatch, .. }));
    match tree("struct { }").unwrap() {
        Ast::Class(c) => assert!(c.is_struct),
        other => panic!("unexpected: {:?}", other),
    }
}

#[test]
fn short_circuit_from_source() {
    assert!(!run_unchecked("false && missing").map(|v| matches!(v, Value::Bool(true))).unwrap());
    assert!(run_unchecked("true || missing").map(|v| matches!(v, Value::Bool(true))).unwrap());
    assert!(run_unchecked("true && missing").is_err());
}

#[test]
fn function_body_does_not_see_the_callers_locals() {
    let e = run_unchecked("x := 1 ; f := fn { x } ; f ( )").unwrap_err();
    assert!(matches!(e, ZError::Name { kind: NameErrorKind::Undeclared, .. }));
    assert!(matches!(run_unchecked("f := fn { i32 } ; f ( )"), Ok(Value::Type(_))));
    assert!(matches!(run_unchecked("x := 1 ; p := proc { x } ; p ( )"), Ok(Value::Int(_, 1))));
    // the typechecker sees the same boundary
    let e = run("x := 1 ; f := fn { x } ; f ( )").unwrap_err();
    assert!(matches!(e, ZError::Name { kind: NameErrorKind::Undeclared, .. }));
}

#[test]
fn operators_bind_by_precedence() {
    assert_eq!(number("1 + 2 * 3"), 7);
    assert_eq!(number("( 1 + 2 ) * 3"), 9);
    assert_eq!(number("10 - 2 - 3"), 5);
    assert_eq!(number("10 - ( 2 - 3 )"), 11);
    assert_eq!(number("7 / 2 * 2"), 6);
    assert_eq!(number("7 % 4 + 1"), 4);
    assert!(truth("1 + 2 == 3 && 2 < 3"));
    assert!(truth("false && false || true"));
    assert!(!truth("false && ( false || true )"));
    assert!(truth("1 < 2 == true"));
    assert_eq!(text("a + b * c"), "a <+> b <*> c");
    match tree("a + b * c").unwrap() {
        Ast::BinaryOpr(b) => {
            assert_eq!(b.ty, OprType::Add);
            assert!(matches!(*b.operand2, Ast::BinaryOpr(_)));
        }
        other => panic!("unexpected: {:?}", other),
    }
    match tree("a - b - c").unwrap() {
        Ast::BinaryOpr(b) => {
            assert_eq!(b.ty, OprType::Sub);
            assert!(matches!(*b.operand1, Ast::BinaryOpr(_)));
            assert_eq!(b.opr_span, Some(Span::new(6, 7)));
        }
        other => panic!("unexpected: {:?}", other),
    }
}

#[test]
fn typecast_binds_tightest() {
    match run("1 + 2 @ i64").unwrap_err() {
        // i32 + i64 is no operation
        ZError::Eval { kind, .. } => assert_eq!(kind, EvalErrorKind::OperationFailed),
        other => panic!("unexpected: {:?}", other),
    }
    assert!(matches!(run("( 1 + 2 ) @ i64"), Ok(Value::Int(IntKind::I64, 3))));
    assert!(matches!(run("12 @ str"), Ok(Value::Str(s)) if s == "12"));
    assert!(matches!(run("\"ab\" .. \"cd\""), Ok(Value::Str(s)) if s == "abcd"));
}

#[test]
fn unary_operators() {
    assert_eq!(number("u- 1 + 3"), 2);
    assert_eq!(number("3 + u- 1"), 2);
    assert_eq!(number("u- u- 4"), 4);
    assert_eq!(number("u+ 4"), 4);
    assert!(truth("u! false"));
    assert!(truth("u! u! true"));
    assert_eq!(text("u- a * b"), "-a <*> b");
    assert_eq!(parse_kind("u-"), ParseErrorKind::UnexpectedEnd);
    assert_eq!(parse_kind("u- +"), ParseErrorKind::UnexpectedToken);
}

#[test]
fn calls_members_and_groups() {
    assert_eq!(number("f := fn | a : i32 | : i32 { a * 2 } ; f ( 4 )"), 8);
    assert_eq!(number("add := proc | a , b | a + b ; add ( 1 , 2 )"), 3);
    assert_eq!(number("1 . _add ( 2 )"), 3);
    assert_eq!(number("1 . _add ( 2 ) . _mul ( 5 )"), 15);
    assert_eq!(number("( ( 7 ) )"), 7);
    assert_eq!(text("f ( )"), "f()");
    assert_eq!(text("f ( a , b + c )"), "f(a , b <+> c)");
    assert_eq!(text("a . b . c"), "a.b.c");
    assert_eq!(text("a . b ( 1 ) . c"), "a.b(1).c");
    match tree("a . b ( 1 )").unwrap() {
        Ast::Call(c) => {
            assert_eq!(c.paren_spans, Some((Span::new(6, 7), Span::new(10, 11))));
            match *c.called {
                Ast::Member(m) => {
                    assert_eq!(m.ty, zyxt::types::token::AccessType::Method);
                    assert_eq!(m.name, "b");
                    assert_eq!(m.dot_span, Some(Span::new(2, 3)));
                    assert_eq!(m.name_span, Some(Span::new(4, 5)));
                }
                other => panic!("unexpected: {:?}", other),
            }
        }
        other => panic!("unexpected: {:?}", other),
    }
    match tree("a . b").unwrap() {
        Ast::Member(m) => assert_eq!(m.ty, zyxt::types::token::AccessType::Field),
        other => panic!("unexpected: {:?}", other),
    }
    let raw = Buffer::new(lex("( 1 )")).parse_as_expr().unwrap().raw;
    assert_eq!(raw, "(1)");
}

#[test]
fn postfix_errors() {
    assert_eq!(parse_kind("( 1"), ParseErrorKind::UnterminatedBracket);
    assert_eq!(parse_kind("f ( 1 , ( 2 )"), ParseErrorKind::UnterminatedBracket);
    assert_eq!(parse_kind("( )"), ParseErrorKind::EmptyExpression);
    assert_eq!(parse_kind(". a"), ParseErrorKind::MissingOperand);
    assert_eq!(parse_kind("a ."), ParseErrorKind::UnexpectedEnd);
    assert_eq!(parse_kind("a . 1"), ParseErrorKind::UnexpectedToken);
    assert_eq!(parse_kind("1 + )"), ParseErrorKind::UnexpectedToken);
}

#[test]
fn binary_operator_errors() {
    assert_eq!(parse_kind("+ 1"), ParseErrorKind::MissingOperand);
    assert_eq!(parse_kind("1 +"), ParseErrorKind::UnexpectedEnd);
    assert_eq!(parse_kind("1 + * 2"), ParseErrorKind::MissingOperand);
    assert_eq!(parse_kind("1 2"), ParseErrorKind::UnexpectedToken);
}

#[test]
fn declarations() {
    match tree("pub inst x : i32 := 1 + 2").unwrap() {
        Ast::Declare(d) => {
            assert_eq!(d.flags, vec![(Flag::Pub, Span::new(0, 3)), (Flag::Inst, Span::new(4, 8))]);
            assert!(matches!(&*d.variable, Ast::Ident(id) if id.name == "x"));
            assert!(matches!(d.ty.as_deref(), Some(Ast::Ident(id)) if id.name == "i32"));
            assert!(matches!(&*d.content, Ast::BinaryOpr(_)));
            assert_eq!(d.eq_span, Some(Span::new(17, 19)));
        }
        other => panic!("unexpected: {:?}", other),
    }
    assert_eq!(text("x := y := 1"), "x := y := 1");
    assert_eq!(text("x := y = 1"), "x := y = 1");
    assert_eq!(number("x : i32 := 4 ; x"), 4);
    assert!(matches!(
        run("x : bool := 4"),
        Err(ZError::Type { kind: TypeErrorKind::Mismatch, .. })
    ));
    assert_eq!(parse_kind(":= 1"), ParseErrorKind::MissingOperand);
    assert_eq!(parse_kind("inst := 1"), ParseErrorKind::MissingOperand);
    assert_eq!(parse_kind("1 := 1"), ParseErrorKind::MissingOperand);
    assert_eq!(parse_kind("x :="), ParseErrorKind::UnexpectedEnd);
    assert_eq!(parse_kind("x y := 1"), ParseErrorKind::UnexpectedToken);
    assert_eq!(parse_kind("x : := 1"), ParseErrorKind::EmptyExpression);
    let raw = Buffer::new(lex("inst x := 1")).parse_as_expr().unwrap().raw;
    assert_eq!(raw, "instx:=1");
}

#[test]
fn statements() {
    assert_eq!(text("ret 1 + 2"), "ret 1 <+> 2");
    assert_eq!(text("defer x = 1"), "defer x = 1");
    assert_eq!(text("del a , b"), "del a , b");
    assert_eq!(parse_kind("ret"), ParseErrorKind::EmptyExpression);
    assert_eq!(parse_kind("del"), ParseErrorKind::UnexpectedEnd);
    assert_eq!(parse_kind("del a ,"), ParseErrorKind::UnexpectedEnd);
    assert_eq!(parse_kind("del 1"), ParseErrorKind::UnexpectedToken);
    assert_eq!(parse_kind("del a b"), ParseErrorKind::UnexpectedToken);
    assert_eq!(parse_kind("1 ret 2"), ParseErrorKind::UnexpectedToken);
    match tree("del a , b").unwrap() {
        Ast::Delete(d) => {
            assert_eq!(d.kwd_span, Some(Span::new(0, 3)));
            assert_eq!(d.names.len(), 2);
            assert_eq!(d.names[1].name, "b");
        }
        other => panic!("unexpected: {:?}", other),
    }
    assert_eq!(number("x := 1 ; { defer x = x * 10 ; x = 2 } ; x"), 20);
    assert_eq!(number("{ ret 4 ; 5 }"), 4);
    assert_eq!(number("f := fn | a : i32 | : i32 { ret a ; 0 } ; f ( 9 )"), 9);
}

#[test]
fn class_errors() {
    assert_eq!(parse_kind("class"), ParseErrorKind::UnexpectedEnd);
    assert_eq!(parse_kind("class x"), ParseErrorKind::UnexpectedToken);
    assert_eq!(text("c := class { n := 1 }"), "c := class { n := 1 }");
    match run("c := class { n := 1 ; inst x : i32 := 2 } ; c").unwrap() {
        Value::Type(Type::Definition(def)) => {
            assert_eq!(def.implementations.len(), 1);
            assert_eq!(def.inst_fields.len(), 1);
        }
        other => panic!("unexpected: {:?}", other),
    }
}

#[test]
fn passes_alone() {
    let mut b = Buffer::new(lex("a + b ; c"));
    b.parse_atoms().unwrap();
    b.parse_binary_opr().unwrap();
    assert_eq!(b.content.len(), 3);
    assert_eq!(b.content[0].raw(), "a+b");
    let mut b = Buffer::new(lex("u! a , u- b"));
    b.parse_atoms().unwrap();
    b.parse_unary_opr().unwrap();
    assert_eq!(b.content.len(), 3);
    assert_eq!(b.content[2].raw(), "u-b");
    let mut b = Buffer::new(lex("f ( 1 ) , ( 2 )"));
    b.parse_atoms().unwrap();
    b.parse_postfix().unwrap();
    assert_eq!(b.content.len(), 3);
    assert_eq!(b.content[0].raw(), "f(1)");
    assert_eq!(b.content[2].raw(), "(2)");
    let mut b = Buffer::new(lex("x := 1"));
    b.parse_atoms().unwrap();
    b.parse_declaration().unwrap();
    assert_eq!(b.content.len(), 1);
    let mut b = Buffer::new(lex("ret 1"));
    b.parse_statement().unwrap();
    assert_eq!(b.content.len(), 1);
    let mut b = Buffer::new(lex("class { } , struct { }"));
    b.parse_block().unwrap();
    b.parse_class().unwrap();
    assert_eq!(b.content.len(), 3);
    assert_eq!(b.content[2].raw(), "struct{}");
}
