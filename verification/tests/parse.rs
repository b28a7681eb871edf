use zyxt::ast::Ast;
use zyxt::errors::{ParseErrorKind, ZError};
use zyxt::instructor::{compile, interpret};
use zyxt::parser::buffer::{Buffer, Element, Item};
use zyxt::parser::expr::parse_token_list;
use zyxt::types::position::Span;
use zyxt::types::sym_table::SymTable;
use zyxt::types::token::{Keyword, OprType, Token, TokenType};
use zyxt::types::typeobj::Type;
use zyxt::types::value::{IntKind, Prim, Value};

/// Builds tokens from texts, with spans that follow each other without gaps.
fn tokens(parts: &[(TokenType, &str)]) -> Vec<Token> {
    let mut at = 0;
    let mut out = vec![];
    for (ty, text) in parts {
        out.push(Token::new(Some(*ty), Span::new(at, at + text.len()), text.to_string()));
        at += text.len();
    }
    out
}

const ID: TokenType = TokenType::Ident;
const NUM: TokenType = TokenType::LiteralNumber;
const SET: TokenType = TokenType::AssignmentOpr(None);
const END: TokenType = TokenType::StatementEnd;
const OPEN: TokenType = TokenType::OpenCurlyParen;
const CLOSE: TokenType = TokenType::CloseCurlyParen;
const FN: TokenType = TokenType::Keyword(Keyword::Fn);
const PROC: TokenType = TokenType::Keyword(Keyword::Proc);

fn kind(e: &ZError) -> ParseErrorKind {
    match e {
        ZError::Parse { kind, .. } => *kind,
        other => panic!("not a parse error: {:?}", other),
    }
}

fn parse(parts: &[(TokenType, &str)]) -> Result<Element, ZError> {
    Buffer::new(tokens(parts)).parse_as_expr()
}

/// Whether the tree is the literal of the unit type, without a position.
fn unit_type_literal(tree: Option<&Ast>) -> bool {
    match tree {
        Some(Ast::Literal(l)) => {
            l.span.is_none() && matches!(&l.content, Value::Type(t) if t.same(&Prim::Unit.ty()))
        }
        _ => false,
    }
}

fn text(parts: &[(TokenType, &str)]) -> String {
    parse(parts).unwrap().node.reconstruct()
}

#[test]
fn atoms_become_nodes() {
    let e = parse(&[(ID, "abc")]).unwrap();
    assert_eq!(e.raw, "abc");
    match e.node {
        Ast::Ident(id) => {
            assert_eq!(id.name, "abc");
            assert_eq!(id.name_span, Some(Span::new(0, 3)));
        }
        other => panic!("unexpected: {:?}", other),
    }
    match parse(&[(NUM, "42")]).unwrap().node {
        Ast::Literal(l) => {
            assert!(matches!(l.content, Value::Int(IntKind::I32, 42)));
            assert_eq!(l.span, Some(Span::new(0, 2)));
        }
        other => panic!("unexpected: {:?}", other),
    }
    match parse(&[(TokenType::LiteralString, "\"hi\"")]).unwrap().node {
        Ast::Literal(l) => assert!(matches!(l.content, Value::Str(s) if s == "hi")),
        other => panic!("unexpected: {:?}", other),
    }
    match parse(&[(TokenType::LiteralBool, "true")]).unwrap().node {
        Ast::Literal(l) => assert!(matches!(l.content, Value::Bool(true))),
        other => panic!("unexpected: {:?}", other),
    }
    match parse(&[(TokenType::LiteralBool, "false")]).unwrap().node {
        Ast::Literal(l) => assert!(matches!(l.content, Value::Bool(false))),
        other => panic!("unexpected: {:?}", other),
    }
}

#[test]
fn literals_without_a_value_are_errors() {
    let e = parse(&[(NUM, "2147483648")]).unwrap_err();
    assert_eq!(kind(&e), ParseErrorKind::InvalidLiteral);
    assert_eq!(e.span(), Some(Span::new(0, 10)));
    assert!(parse(&[(NUM, "2147483647")]).is_ok());
    assert_eq!(kind(&parse(&[(NUM, "1x")]).unwrap_err()), ParseErrorKind::InvalidLiteral);
    assert_eq!(
        kind(&parse(&[(TokenType::LiteralBool, "maybe")]).unwrap_err()),
        ParseErrorKind::InvalidLiteral
    );
}

#[test]
fn atom_pass_leaves_the_buffer_alone_on_error() {
    let mut b = Buffer::new(tokens(&[(ID, "a"), (NUM, "x")]));
    assert!(b.parse_atoms().is_err());
    assert!(matches!(b.content[0], Item::Token(_)));
    let mut b = Buffer::new(tokens(&[(ID, "a"), (SET, "="), (NUM, "1")]));
    b.parse_atoms().unwrap();
    assert!(matches!(b.content[0], Item::Node(_)));
    assert!(matches!(b.content[1], Item::Token(_)));
    assert!(matches!(b.content[2], Item::Node(_)));
}

#[test]
fn assignment_takes_the_rest_as_its_content() {
    let e = parse(&[(ID, "x"), (SET, "="), (NUM, "1")]).unwrap();
    assert_eq!(e.raw, "x=1");
    match &e.node {
        Ast::Assign(a) => {
            assert_eq!(a.eq_span, Some(Span::new(1, 2)));
            assert!(matches!(&*a.variable, Ast::Ident(id) if id.name == "x"));
            assert!(matches!(&*a.content, Ast::Literal(_)));
        }
        other => panic!("unexpected: {:?}", other),
    }
    assert_eq!(e.node.span(), Some(Span::new(0, 3)));
}

#[test]
fn assignment_is_right_associative() {
    let parts = [(ID, "x"), (SET, "="), (ID, "y"), (SET, "="), (NUM, "1")];
    assert_eq!(text(&parts), "x = y = 1");
    let e = parse(&parts).unwrap();
    match e.node {
        Ast::Assign(a) => assert!(matches!(*a.content, Ast::Assign(_))),
        other => panic!("unexpected: {:?}", other),
    }
}

#[test]
fn compound_assignment_is_desugared_while_parsing() {
    let plus = TokenType::AssignmentOpr(Some(OprType::Add));
    let e = parse(&[(ID, "x"), (plus, "+="), (NUM, "2")]).unwrap();
    assert_eq!(e.raw, "x+=2");
    assert_eq!(e.node.reconstruct(), "x = x <+> 2");
    match &e.node {
        Ast::Assign(a) => match &*a.content {
            Ast::BinaryOpr(b) => {
                assert_eq!(b.ty, OprType::Add);
                assert_eq!(b.opr_span, Some(Span::new(1, 3)));
                assert!(matches!(&*b.operand1, Ast::Ident(id) if id.name == "x"));
            }
            other => panic!("unexpected: {:?}", other),
        },
        other => panic!("unexpected: {:?}", other),
    }
    assert_eq!(e.node.desugar().reconstruct(), "x = x._add(2)");
}

#[test]
fn assignment_pass_alone() {
    let mut b = Buffer::new(tokens(&[(ID, "x"), (SET, "="), (NUM, "1")]));
    b.parse_atoms().unwrap();
    b.parse_assignment_opr().unwrap();
    assert_eq!(b.content.len(), 1);
    // a pass leaves the buffer rewound
    assert_eq!(b.cursor, 0);
    assert!(!b.started);
    // a buffer without an assignment stays as it is
    let mut b = Buffer::new(tokens(&[(ID, "x"), (ID, "y")]));
    b.parse_atoms().unwrap();
    b.parse_assignment_opr().unwrap();
    assert_eq!(b.content.len(), 2);
}

#[test]
fn assignment_without_a_target() {
    let e = parse(&[(SET, "="), (NUM, "1")]).unwrap_err();
    assert_eq!(kind(&e), ParseErrorKind::MissingOperand);
    assert_eq!(e.span(), Some(Span::new(0, 1)));
    let e = parse(&[(END, ";"), (SET, "="), (NUM, "1")]).unwrap_err();
    assert_eq!(kind(&e), ParseErrorKind::MissingOperand);
}

#[test]
fn assignment_without_content() {
    let e = parse(&[(ID, "x"), (SET, "=")]).unwrap_err();
    assert_eq!(kind(&e), ParseErrorKind::UnexpectedEnd);
    match e {
        ZError::Parse { raw, span, .. } => {
            assert_eq!(raw, "=");
            assert_eq!(span, Some(Span::new(1, 2)));
        }
        _ => unreachable!(),
    }
}

#[test]
fn what_is_left_has_to_be_one_node() {
    assert_eq!(kind(&parse(&[]).unwrap_err()), ParseErrorKind::EmptyExpression);
    let e = parse(&[(ID, "a"), (ID, "b")]).unwrap_err();
    assert_eq!(kind(&e), ParseErrorKind::UnexpectedToken);
    assert_eq!(e.span(), Some(Span::new(1, 2)));
    let e = parse(&[(TokenType::Comma, ",")]).unwrap_err();
    assert_eq!(kind(&e), ParseErrorKind::UnexpectedToken);
}

#[test]
fn braces_become_blocks() {
    let parts = [(OPEN, "{"), (ID, "a"), (END, ";"), (ID, "b"), (SET, "="), (NUM, "1"), (CLOSE, "}")];
    let e = parse(&parts).unwrap();
    assert_eq!(e.raw, "{a;b=1}");
    match &e.node {
        Ast::Block(b) => {
            assert_eq!(b.brace_spans, Some((Span::new(0, 1), Span::new(6, 7))));
            assert_eq!(b.content.len(), 2);
        }
        other => panic!("unexpected: {:?}", other),
    }
    assert_eq!(e.node.reconstruct(), "{ a ; b = 1 }");
    assert_eq!(e.node.span(), Some(Span::new(0, 7)));
}

#[test]
fn blocks_nest_and_empty_statements_vanish() {
    let parts = [
        (OPEN, "{"),
        (END, ";"),
        (OPEN, "{"),
        (ID, "a"),
        (END, ";"),
        (CLOSE, "}"),
        (END, ";"),
        (END, ";"),
        (ID, "b"),
        (CLOSE, "}"),
    ];
    assert_eq!(text(&parts), "{ { a } ; b }");
    assert_eq!(text(&[(OPEN, "{"), (CLOSE, "}")]), "{  }");
}

#[test]
fn unterminated_brace_is_an_error() {
    let e = parse(&[(ID, "x"), (SET, "="), (OPEN, "{"), (ID, "a")]).unwrap_err();
    assert_eq!(kind(&e), ParseErrorKind::UnterminatedBracket);
    assert_eq!(e.span(), Some(Span::new(2, 3)));
    let e = parse(&[(OPEN, "{"), (OPEN, "{"), (CLOSE, "}")]).unwrap_err();
    assert_eq!(kind(&e), ParseErrorKind::UnterminatedBracket);
    assert_eq!(e.span(), Some(Span::new(0, 1)));
}

#[test]
fn function_with_a_block_body() {
    let parts = [(FN, "fn"), (OPEN, "{"), (ID, "a"), (CLOSE, "}")];
    let e = parse(&parts).unwrap();
    assert_eq!(e.raw, "fn{a}");
    match &e.node {
        Ast::Procedure(p) => {
            assert!(p.is_fn);
            assert_eq!(p.kwd_span, Some(Span::new(0, 2)));
            assert!(p.args.is_empty());
            assert!(unit_type_literal(p.return_type.as_deref()));
            assert_eq!(p.content.content.len(), 1);
            assert!(p.content.brace_spans.is_some());
        }
        other => panic!("unexpected: {:?}", other),
    }
    assert_eq!(e.node.span(), Some(Span::new(0, 5)));
}

#[test]
fn procedure_with_arguments_and_an_expression_body() {
    let parts = [
        (PROC, "proc"),
        (TokenType::Bar, "|"),
        (ID, "a"),
        (TokenType::Colon, ":"),
        (ID, "i32"),
        (TokenType::Comma, ","),
        (ID, "b"),
        (TokenType::Bar, "|"),
        (ID, "a"),
    ];
    let e = parse(&parts).unwrap();
    assert_eq!(e.raw, "proc|a:i32,b|a");
    match &e.node {
        Ast::Procedure(p) => {
            assert!(!p.is_fn);
            assert_eq!(p.args.len(), 2);
            assert_eq!(p.args[0].name.name, "a");
            assert!(matches!(&*p.args[0].ty, Ast::Ident(id) if id.name == "i32"));
            assert_eq!(p.args[1].name.name, "b");
            match &*p.args[1].ty {
                Ast::Literal(l) => assert!(matches!(&l.content, Value::Type(Type::Any))),
                other => panic!("unexpected: {:?}", other),
            }
            // the expression is promoted into a block of one statement
            assert!(p.content.brace_spans.is_none());
            assert_eq!(p.content.content.len(), 1);
        }
        other => panic!("unexpected: {:?}", other),
    }
    assert_eq!(e.node.reconstruct(), "proc |a , b| { a }");
}

#[test]
fn literal_without_a_return_type_returns_unit() {
    // `proc` and an empty block
    let e = parse(&[(PROC, "proc"), (OPEN, "{"), (CLOSE, "}")]).unwrap();
    match &e.node {
        Ast::Procedure(p) => {
            assert!(!p.is_fn);
            assert!(p.args.is_empty());
            assert!(unit_type_literal(p.return_type.as_deref()));
            assert!(p.content.content.is_empty());
        }
        other => panic!("unexpected: {:?}", other),
    }
    // `fn` and one expression
    let e = parse(&[(FN, "fn"), (ID, "a")]).unwrap();
    match &e.node {
        Ast::Procedure(p) => {
            assert!(p.is_fn);
            assert!(p.args.is_empty());
            assert!(unit_type_literal(p.return_type.as_deref()));
            assert_eq!(p.content.content.len(), 1);
            assert!(matches!(&p.content.content[0], Ast::Ident(id) if id.name == "a"));
        }
        other => panic!("unexpected: {:?}", other),
    }
    // a written return type stays as it is written
    let parts = [(PROC, "proc"), (TokenType::Colon, ":"), (ID, "i32"), (OPEN, "{"), (CLOSE, "}")];
    match &parse(&parts).unwrap().node {
        Ast::Procedure(p) => assert!(!unit_type_literal(p.return_type.as_deref())),
        other => panic!("unexpected: {:?}", other),
    }
}

#[test]
fn lambda_begins_with_a_bar() {
    let parts = [(TokenType::Bar, "|"), (ID, "x"), (TokenType::Bar, "|"), (ID, "x")];
    let e = parse(&parts).unwrap();
    match &e.node {
        Ast::Procedure(p) => {
            assert!(!p.is_fn);
            assert!(p.kwd_span.is_none());
            assert_eq!(p.args.len(), 1);
        }
        other => panic!("unexpected: {:?}", other),
    }
    let parts = [(TokenType::Bar, "|"), (TokenType::Bar, "|"), (NUM, "1")];
    assert_eq!(text(&parts), "proc || { 1 }");
}

#[test]
fn return_type_stands_between_colon_and_block() {
    let parts = [
        (FN, "fn"),
        (TokenType::Bar, "|"),
        (TokenType::Bar, "|"),
        (TokenType::Colon, ":"),
        (ID, "i32"),
        (OPEN, "{"),
        (NUM, "1"),
        (CLOSE, "}"),
    ];
    match parse(&parts).unwrap().node {
        Ast::Procedure(p) => {
            assert!(matches!(p.return_type.as_deref(), Some(Ast::Ident(id)) if id.name == "i32"));
            assert_eq!(p.content.content.len(), 1);
        }
        other => panic!("unexpected: {:?}", other),
    }
    // a return type without a block behind it
    let parts = [(FN, "fn"), (TokenType::Colon, ":"), (ID, "i32")];
    assert_eq!(kind(&parse(&parts).unwrap_err()), ParseErrorKind::UnexpectedEnd);
    // an empty return type
    let parts = [(FN, "fn"), (TokenType::Colon, ":"), (OPEN, "{"), (CLOSE, "}")];
    assert_eq!(kind(&parse(&parts).unwrap_err()), ParseErrorKind::EmptyExpression);
}

#[test]
fn procedure_errors() {
    assert_eq!(kind(&parse(&[(FN, "fn")]).unwrap_err()), ParseErrorKind::UnexpectedEnd);
    let e = parse(&[(FN, "fn"), (TokenType::Bar, "|"), (ID, "a")]).unwrap_err();
    assert_eq!(kind(&e), ParseErrorKind::UnterminatedBracket);
    assert_eq!(e.span(), Some(Span::new(2, 3)));
    let e = parse(&[(TokenType::Bar, "|"), (NUM, "1"), (TokenType::Bar, "|"), (NUM, "1")])
        .unwrap_err();
    assert_eq!(kind(&e), ParseErrorKind::UnexpectedToken);
    let parts = [(TokenType::Bar, "|"), (ID, "a"), (ID, "b"), (TokenType::Bar, "|"), (NUM, "1")];
    assert_eq!(kind(&parse(&parts).unwrap_err()), ParseErrorKind::UnexpectedToken);
    let parts = [(TokenType::Bar, "|"), (TokenType::Bar, "|")];
    assert_eq!(kind(&parse(&parts).unwrap_err()), ParseErrorKind::UnexpectedEnd);
}

#[test]
fn assignment_binds_looser_than_a_function_literal() {
    let parts = [(ID, "f"), (SET, "="), (FN, "fn"), (OPEN, "{"), (NUM, "1"), (CLOSE, "}")];
    match parse(&parts).unwrap().node {
        Ast::Assign(a) => assert!(matches!(*a.content, Ast::Procedure(_))),
        other => panic!("unexpected: {:?}", other),
    }
}

#[test]
fn two_literals_in_one_buffer_are_both_reduced() {
    let mut b = Buffer::new(tokens(&[
        (FN, "fn"),
        (OPEN, "{"),
        (CLOSE, "}"),
        (PROC, "proc"),
        (OPEN, "{"),
        (CLOSE, "}"),
    ]));
    b.parse_block().unwrap();
    assert_eq!(b.content.len(), 4);
    b.parse_proc_fn().unwrap();
    assert_eq!(b.content.len(), 2);
    assert!(matches!(&b.content[0], Item::Node(e) if matches!(e.node, Ast::Procedure(_))));
    assert!(matches!(&b.content[1], Item::Node(e) if matches!(e.node, Ast::Procedure(_))));
    assert_eq!(b.content[1].raw(), "proc{}");
}

#[test]
fn program_is_split_at_statement_ends() {
    let program = tokens(&[
        (ID, "x"),
        (SET, "="),
        (NUM, "1"),
        (END, ";"),
        (OPEN, "{"),
        (ID, "x"),
        (END, ";"),
        (CLOSE, "}"),
        (END, ";"),
        (END, ";"),
        (ID, "x"),
    ]);
    let trees = parse_token_list(program).unwrap();
    assert_eq!(trees.len(), 3);
    assert_eq!(trees[0].reconstruct(), "x = 1");
    assert_eq!(trees[1].reconstruct(), "{ x }");
    assert_eq!(trees[2].reconstruct(), "x");
    assert!(parse_token_list(vec![]).unwrap().is_empty());
    let e = parse_token_list(tokens(&[(ID, "x"), (END, ";"), (OPEN, "{")])).unwrap_err();
    assert_eq!(kind(&e), ParseErrorKind::UnterminatedBracket);
}

#[test]
fn compile_and_interpret_a_program() {
    // f = fn |a| a; -- not declared, so compiling fails on the name
    let program = tokens(&[(ID, "y"), (SET, "="), (NUM, "1")]);
    let mut types: SymTable<Type> = SymTable::default();
    assert!(matches!(compile(program, &mut types), Err(ZError::Name { .. })));

    let mut types: SymTable<Type> = SymTable::default();
    types.declare_val(&"y".to_string(), zyxt::types::value::Prim::Int(IntKind::I32).ty());
    let plus = TokenType::AssignmentOpr(Some(OprType::Add));
    let program = tokens(&[
        (ID, "y"),
        (SET, "="),
        (NUM, "1"),
        (END, ";"),
        (ID, "y"),
        (plus, "+="),
        (NUM, "2"),
        (END, ";"),
        (ID, "y"),
    ]);
    let trees = compile(program, &mut types).unwrap();
    assert_eq!(trees.len(), 3);
    assert_eq!(trees[1].reconstruct(), "y = y._add(2)");
    let mut values: SymTable<Value> = SymTable::default();
    values.declare_val(&"y".to_string(), Value::Int(IntKind::I32, 0));
    let (v, code) = interpret(&trees, &mut values, 16).unwrap();
    assert!(matches!(v, Value::Int(IntKind::I32, 3)));
    assert_eq!(code, 3);
}

#[test]
fn window_is_parsed_in_place() {
    let b = Buffer::new(tokens(&[(ID, "q"), (ID, "x"), (SET, "="), (NUM, "1")]));
    let mut w = b.window(1..4);
    let e = w.with_as_buffer().unwrap();
    assert_eq!(e.raw, "x=1");
    assert_eq!(w.range, 1..4);
    assert_eq!(w.slice.len(), 1);
    assert!(matches!(&w.slice[0], Item::Node(n) if matches!(n.node, Ast::Assign(_))));
    let mut bad = b.window(0..2);
    assert!(bad.with_as_buffer().is_err());
    assert_eq!(bad.slice.len(), 2);
}

#[test]
fn windows_are_parsed_in_order() {
    let mut b = Buffer::new(tokens(&[
        (ID, "a"),
        (TokenType::Comma, ","),
        (ID, "b"),
        (SET, "="),
        (NUM, "2"),
    ]));
    let mut ws = b.get_split(TokenType::Comma).unwrap();
    let parsed = ws.with_as_buffers().unwrap();
    assert_eq!(parsed.len(), 2);
    assert_eq!(parsed[1].node.reconstruct(), "b = 2");
    assert_eq!(ws.buffer_windows[0].slice.len(), 1);
    assert_eq!(ws.buffer_windows[1].slice.len(), 1);
    assert_eq!(ws.buffer_windows[1].range, 2..5);
    assert_eq!(ws.range, 0..5);

    let mut b = Buffer::new(tokens(&[(ID, "a"), (TokenType::Comma, ","), (SET, "=")]));
    let mut ws = b.get_split(TokenType::Comma).unwrap();
    assert_eq!(kind(&ws.with_as_buffers().unwrap_err()), ParseErrorKind::MissingOperand);
    assert!(matches!(ws.buffer_windows[0].slice[0], Item::Token(_)));
}

#[test]
fn pass_puts_the_collected_text_back() {
    let mut b = Buffer::new(tokens(&[(ID, "f"), (SET, "="), (FN, "fn"), (OPEN, "{"), (ID, "a"), (CLOSE, "}")]));
    b.next();
    b.start_raw_collection();
    b.next();
    b.parse_block().unwrap();
    assert_eq!(b.cursor, 0);
    assert!(!b.started);
    b.parse_atoms().unwrap();
    b.parse_assignment_opr().unwrap();
    assert_eq!(b.content.len(), 1);
    assert_eq!(b.cursor, 0);
    assert!(!b.started);
    // what was collected before the passes is still there, and nothing was added
    assert_eq!(b.end_raw_collection(), "f=");
    let mut b = Buffer::new(tokens(&[(SET, "="), (NUM, "1")]));
    b.next();
    b.next();
    assert!(b.parse_assignment_opr().is_err());
    assert_eq!(b.cursor, 0);
    assert!(!b.started);
}
