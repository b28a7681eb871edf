use zyxt::errors::{ParseErrorKind, ZError};
use zyxt::parser::buffer::{Buffer, BufferWindow, Item};
use zyxt::types::position::Span;
use zyxt::types::token::{Token, TokenType};

fn tok(ty: TokenType, at: usize, text: &str) -> Token {
    Token::new(Some(ty), Span::new(at, at + text.len()), text.to_string())
}

fn texts(items: &Vec<Item>) -> Vec<String> {
    items.iter().map(|i| i.raw().clone()).collect()
}

fn strs(v: &[&str]) -> Vec<String> {
    v.iter().map(|s| s.to_string()).collect()
}

/// `( a ( b ) c ) d`
fn nested() -> Buffer {
    Buffer::new(vec![
        tok(TokenType::OpenParen, 0, "("),
        tok(TokenType::Ident, 1, "a"),
        tok(TokenType::OpenParen, 2, "("),
        tok(TokenType::Ident, 3, "b"),
        tok(TokenType::CloseParen, 4, ")"),
        tok(TokenType::Ident, 5, "c"),
        tok(TokenType::CloseParen, 6, ")"),
        tok(TokenType::Ident, 7, "d"),
    ])
}

#[test]
fn first_next_does_not_advance() {
    let mut b = nested();
    assert_eq!(b.next_cursor_pos(), 0);
    let first = b.next().unwrap();
    assert_eq!(first.raw(), "(");
    assert_eq!(b.cursor, 0);
    assert_eq!(b.next_cursor_pos(), 1);
    let second = b.next().unwrap();
    assert_eq!(second.raw(), "a");
    assert_eq!(b.cursor, 1);
}

#[test]
fn prev_and_peek() {
    let mut b = nested();
    assert!(b.prev().is_none());
    assert_eq!(b.peek().unwrap().raw(), "(");
    b.next();
    assert!(b.prev().is_none());
    assert_eq!(b.peek().unwrap().raw(), "a");
    b.next();
    assert_eq!(b.prev().unwrap().raw(), "(");
    assert_eq!(b.peek().unwrap().raw(), "(");
}

#[test]
fn next_stops_at_the_end() {
    let mut b = Buffer::new(vec![tok(TokenType::Ident, 0, "a")]);
    assert!(b.next().is_some());
    assert!(b.next().is_none());
    assert!(b.next().is_none());
    assert_eq!(b.cursor, 1);
    assert!(b.peek().is_none());
}

#[test]
fn next_or_err_reports_the_last_item() {
    let mut b = Buffer::new(vec![tok(TokenType::Ident, 3, "abc")]);
    assert!(b.next_or_err().is_ok());
    match b.next_or_err() {
        Err(ZError::Parse { kind, raw, span }) => {
            assert_eq!(kind, ParseErrorKind::UnexpectedEnd);
            assert_eq!(raw, "abc");
            assert_eq!(span, Some(Span::new(3, 6)));
        }
        other => panic!("unexpected: {:?}", other),
    }
}

#[test]
fn reset_cursor_starts_over() {
    let mut b = nested();
    b.next();
    b.next();
    b.reset_cursor();
    assert_eq!(b.cursor, 0);
    assert_eq!(b.next().unwrap().raw(), "(");
    assert_eq!(b.cursor, 0);
}

#[test]
fn get_between_finds_the_matching_bracket() {
    let mut b = nested();
    b.next();
    let w = b.get_between(TokenType::OpenParen, TokenType::CloseParen).unwrap();
    assert_eq!(texts(&w.slice), strs(&["a", "(", "b", ")", "c"]));
    assert_eq!(w.range, 0..7);
    assert_eq!(b.cursor, 6);
}

#[test]
fn get_between_inner_bracket() {
    let mut b = nested();
    b.next();
    b.next();
    b.next();
    assert_eq!(b.cursor, 2);
    let w = b.get_between(TokenType::OpenParen, TokenType::CloseParen).unwrap();
    assert_eq!(texts(&w.slice), strs(&["b"]));
    assert_eq!(w.range, 2..5);
}

#[test]
fn get_between_unterminated_is_an_error() {
    let mut b = Buffer::new(vec![
        tok(TokenType::OpenParen, 0, "("),
        tok(TokenType::Ident, 1, "a"),
        tok(TokenType::OpenParen, 2, "("),
        tok(TokenType::CloseParen, 3, ")"),
    ]);
    b.next();
    match b.get_between(TokenType::OpenParen, TokenType::CloseParen) {
        Err(ZError::Parse { kind, raw, span }) => {
            assert_eq!(kind, ParseErrorKind::UnterminatedBracket);
            assert_eq!(raw, "(");
            assert_eq!(span, Some(Span::new(0, 1)));
        }
        other => panic!("unexpected: {:?}", other.map(|w| w.range)),
    }
    assert_eq!(b.cursor, 4);
}

#[test]
fn get_between_opener_at_the_very_end() {
    let mut b = Buffer::new(vec![tok(TokenType::OpenParen, 0, "(")]);
    b.next();
    let r = b.get_between(TokenType::OpenParen, TokenType::CloseParen);
    assert!(matches!(r, Err(ZError::Parse { kind: ParseErrorKind::UnterminatedBracket, .. })));
}

#[test]
fn get_between_same_symbol_closes_at_the_first() {
    let mut b = Buffer::new(vec![
        tok(TokenType::Bar, 0, "|"),
        tok(TokenType::Ident, 1, "x"),
        tok(TokenType::Bar, 2, "|"),
        tok(TokenType::Ident, 3, "y"),
        tok(TokenType::Bar, 4, "|"),
    ]);
    b.next();
    let w = b.get_between(TokenType::Bar, TokenType::Bar).unwrap();
    assert_eq!(texts(&w.slice), strs(&["x"]));
    assert_eq!(w.range, 0..3);
}

#[test]
fn get_split_cuts_at_every_divider() {
    let mut b = Buffer::new(vec![
        tok(TokenType::Ident, 0, "a"),
        tok(TokenType::Comma, 1, ","),
        tok(TokenType::Ident, 2, "b"),
        tok(TokenType::Ident, 3, "c"),
        tok(TokenType::Comma, 4, ","),
        tok(TokenType::Ident, 5, "d"),
    ]);
    let ws = b.get_split(TokenType::Comma).unwrap();
    assert_eq!(ws.buffer_windows.len(), 3);
    assert_eq!(texts(&ws.buffer_windows[0].slice), strs(&["a"]));
    assert_eq!(ws.buffer_windows[0].range, 0..1);
    assert_eq!(texts(&ws.buffer_windows[1].slice), strs(&["b", "c"]));
    assert_eq!(ws.buffer_windows[1].range, 2..4);
    assert_eq!(texts(&ws.buffer_windows[2].slice), strs(&["d"]));
    assert_eq!(ws.buffer_windows[2].range, 5..6);
    assert_eq!(ws.range, 0..6);
    assert_eq!(b.cursor, 6);
}

#[test]
fn get_split_without_divider_is_one_window() {
    let mut b = Buffer::new(vec![tok(TokenType::Ident, 0, "a"), tok(TokenType::Ident, 1, "b")]);
    let ws = b.get_split(TokenType::Comma).unwrap();
    assert_eq!(ws.buffer_windows.len(), 1);
    assert_eq!(texts(&ws.buffer_windows[0].slice), strs(&["a", "b"]));
}

#[test]
fn get_split_between_ignores_nested_dividers() {
    // ( a , ( b , c ) , d ) e
    let mut b = Buffer::new(vec![
        tok(TokenType::OpenParen, 0, "("),
        tok(TokenType::Ident, 1, "a"),
        tok(TokenType::Comma, 2, ","),
        tok(TokenType::OpenParen, 3, "("),
        tok(TokenType::Ident, 4, "b"),
        tok(TokenType::Comma, 5, ","),
        tok(TokenType::Ident, 6, "c"),
        tok(TokenType::CloseParen, 7, ")"),
        tok(TokenType::Comma, 8, ","),
        tok(TokenType::Ident, 9, "d"),
        tok(TokenType::CloseParen, 10, ")"),
        tok(TokenType::Ident, 11, "e"),
    ]);
    b.next();
    let ws = b
        .get_split_between(TokenType::OpenParen, TokenType::CloseParen, TokenType::Comma)
        .unwrap();
    assert_eq!(ws.range, 0..11);
    assert_eq!(ws.buffer_windows.len(), 3);
    assert_eq!(texts(&ws.buffer_windows[0].slice), strs(&["a"]));
    assert_eq!(texts(&ws.buffer_windows[1].slice), strs(&["(", "b", ",", "c", ")"]));
    assert_eq!(ws.buffer_windows[1].range, 3..8);
    assert_eq!(texts(&ws.buffer_windows[2].slice), strs(&["d"]));
    assert_eq!(b.cursor, 10);
}

#[test]
fn get_split_between_unterminated_is_an_error() {
    let mut b = Buffer::new(vec![
        tok(TokenType::OpenParen, 0, "("),
        tok(TokenType::Ident, 1, "a"),
        tok(TokenType::Comma, 2, ","),
    ]);
    b.next();
    let r = b.get_split_between(TokenType::OpenParen, TokenType::CloseParen, TokenType::Comma);
    assert!(matches!(r, Err(ZError::Parse { kind: ParseErrorKind::UnterminatedBracket, .. })));
}

#[test]
fn window_and_rest_copy_without_consuming() {
    let mut b = nested();
    b.next();
    b.next();
    let w = b.window(2..5);
    assert_eq!(texts(&w.slice), strs(&["(", "b", ")"]));
    let rest = b.rest_incl_curr();
    assert_eq!(rest.range, 1..8);
    assert_eq!(rest.slice.len(), 7);
    assert_eq!(b.content.len(), 8);
    assert_eq!(b.cursor, 1);
}

#[test]
fn splice_replaces_and_moves_the_cursor_behind() {
    let mut b = nested();
    b.next();
    let w = b.window(7..8);
    let replacement = BufferWindow { slice: w.slice, range: 0..7 };
    b.splice_buffer(replacement);
    assert_eq!(texts(&b.content), strs(&["d", "d"]));
    assert_eq!(b.cursor, 1);
}

#[test]
fn splice_with_a_longer_slice() {
    let mut b = Buffer::new(vec![tok(TokenType::Ident, 0, "a"), tok(TokenType::Ident, 1, "z")]);
    b.next();
    let three = nested().window(1..4);
    b.splice_buffer(BufferWindow { slice: three.slice, range: 0..1 });
    assert_eq!(texts(&b.content), strs(&["a", "(", "b", "z"]));
    assert_eq!(b.cursor, 3);
}

#[test]
fn raw_collection_gathers_what_is_consumed() {
    let mut b = nested();
    b.next();
    b.next();
    b.start_raw_collection();
    b.next();
    b.next();
    // a second start does not disturb the collection
    b.start_raw_collection();
    b.next();
    assert_eq!(b.end_raw_collection(), "a(b)");
    assert_eq!(b.end_raw_collection(), "");
}

#[test]
fn raw_collection_before_the_start_is_empty() {
    let mut b = nested();
    b.start_raw_collection();
    b.next();
    assert_eq!(b.end_raw_collection(), "(");
}

#[test]
fn window_as_buffer_is_fresh() {
    let b = nested();
    let w = b.window(1..3);
    let mut sub = w.as_buffer();
    assert_eq!(sub.cursor, 0);
    assert_eq!(sub.next().unwrap().raw(), "a");
    assert_eq!(sub.next().unwrap().raw(), "(");
    assert!(sub.next().is_none());
}

#[test]
fn get_between_on_a_buffer_that_was_not_started() {
    // the buffer counts as standing on its first item
    let mut b = nested();
    let w = b.get_between(TokenType::OpenParen, TokenType::CloseParen).unwrap();
    assert_eq!(texts(&w.slice), strs(&["a", "(", "b", ")", "c"]));
    assert_eq!(w.range, 0..7);
    assert_eq!(b.cursor, 6);
    assert!(b.started);
    let mut b = Buffer::new(vec![]);
    assert!(b.get_between(TokenType::OpenParen, TokenType::CloseParen).is_err());
    assert_eq!(b.cursor, 0);
    let mut b = Buffer::new(vec![tok(TokenType::CloseParen, 0, ")")]);
    let r = b.get_between(TokenType::OpenParen, TokenType::CloseParen);
    assert!(matches!(r, Err(ZError::Parse { kind: ParseErrorKind::UnterminatedBracket, .. })));
    assert_eq!(b.cursor, 1);
    let mut b = nested();
    let ws = b
        .get_split_between(TokenType::OpenParen, TokenType::CloseParen, TokenType::Comma)
        .unwrap();
    assert_eq!(ws.range, 0..7);
    assert_eq!(ws.buffer_windows.len(), 1);
}

#[test]
fn get_between_only_moves_forward() {
    // unbalanced in every way: the scan ends, and the cursor stays within the buffer
    let kinds = [TokenType::OpenParen, TokenType::CloseParen, TokenType::Ident];
    for a in kinds {
        for b_kind in kinds {
            for c in kinds {
                for steps in 0..5 {
                    let mut b = Buffer::new(vec![tok(a, 0, "x"), tok(b_kind, 1, "y"), tok(c, 2, "z")]);
                    for _ in 0..steps {
                        b.next();
                    }
                    let before = b.cursor;
                    let _ = b.get_between(TokenType::OpenParen, TokenType::CloseParen);
                    assert!(before <= b.cursor && b.cursor <= 3);
                }
            }
        }
    }
}

#[test]
fn get_between_from_any_cursor_within_the_buffer() {
    // the cursor was put somewhere by hand, on a buffer that was never started
    let mut b = nested();
    b.cursor = 2;
    let w = b.get_between(TokenType::OpenParen, TokenType::CloseParen).unwrap();
    assert_eq!(texts(&w.slice), strs(&["b"]));
    assert_eq!(w.range, 2..5);
    assert_eq!(b.cursor, 4);
    let mut b = nested();
    b.cursor = 8;
    assert!(b.get_between(TokenType::OpenParen, TokenType::CloseParen).is_err());
    assert_eq!(b.cursor, 8);
    let mut b = nested();
    b.cursor = 7;
    assert!(b.get_between(TokenType::OpenParen, TokenType::CloseParen).is_err());
    assert_eq!(b.cursor, 8);
}
