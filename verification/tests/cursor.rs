use sneturfahi::lex::{Selmaho, Token};
use sneturfahi::parse::cursor::Cursor;
use sneturfahi::parse::tree_node::TreeNode;
use sneturfahi::span::Span;

fn sample() -> Vec<Token> {
    vec![
        Token { experimental: false, selmaho: Selmaho::Koha, span: Span::new(0, 2) },
        Token { experimental: true, selmaho: Selmaho::Gismu, span: Span::new(3, 8) },
    ]
}

#[test]
fn cursor_next_and_peek() {
    let tokens = sample();
    let mut cursor = Cursor { input: &tokens, cursor: 0 };
    assert_eq!(cursor.peek(), Some(tokens[0]));
    assert_eq!(cursor.peek_selmaho(), Some(Selmaho::Koha));
    assert_eq!(cursor.cursor, 0);
    assert_eq!(cursor.next(), Some(tokens[0]));
    assert_eq!(cursor.cursor, 1);
    assert_eq!(cursor.next(), Some(tokens[1]));
    assert_eq!(cursor.next(), None);
    assert_eq!(cursor.cursor, 2);
    assert_eq!(cursor.peek(), None);
    assert_eq!(cursor.peek_selmaho(), None);
}

#[test]
fn cursor_next_if() {
    let tokens = sample();
    let mut cursor = Cursor { input: &tokens, cursor: 0 };
    assert_eq!(cursor.next_if(|token| token.experimental), None);
    assert_eq!(cursor.cursor, 0);
    assert_eq!(cursor.next_if(|token| !token.experimental), Some(tokens[0]));
    assert_eq!(cursor.cursor, 1);
    assert_eq!(cursor.next_if_selmaho(Selmaho::Koha), None);
    assert_eq!(cursor.cursor, 1);
    assert_eq!(cursor.next_if_selmaho(Selmaho::Gismu), Some(tokens[1]));
    assert_eq!(cursor.cursor, 2);
    assert_eq!(cursor.next_if_selmaho(Selmaho::Gismu), None);
    assert_eq!(cursor.next_if(|_| true), None);
}

#[test]
fn leaves_tell_their_place() {
    let tokens = sample();
    assert_eq!(tokens[1].experimental(), true);
    assert_eq!(tokens[1].start_location(), Some(3));
    assert_eq!(tokens[1].end_location(), Some(8));
    assert_eq!(tokens[0].experimental(), false);
}
