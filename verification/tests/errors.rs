use sneturfahi::lex::{Selmaho, Token};
use sneturfahi::parse::error::{ErrorKind, WithLocation};
use sneturfahi::parse::Error;
use sneturfahi::span::Span;

fn expected(selmaho: &[Selmaho], got: Option<Token>, location: usize) -> WithLocation {
    Error::ExpectedGot { expected: selmaho.to_vec(), got }.with_location(location)
}

fn token(selmaho: Selmaho) -> Token {
    Token { experimental: false, selmaho, span: Span::new(0, 2) }
}

#[test]
fn or_takes_the_error_that_got_further() {
    let near = Error::Combinator(ErrorKind::Not).with_location(1);
    let far = Error::Empty("Far").with_location(3);
    let both = near.or(far);
    assert_eq!(both.location, 3);
    assert!(matches!(both.error, Error::Empty("Far")));
    let near = Error::Combinator(ErrorKind::Not).with_location(1);
    let far = Error::Empty("Far").with_location(3);
    let both = far.or(near);
    assert_eq!(both.location, 3);
    assert!(matches!(both.error, Error::Empty("Far")));
}

#[test]
fn or_takes_the_second_of_two_errors_at_one_place() {
    let first = Error::Combinator(ErrorKind::Not).with_location(2);
    let second = Error::Empty("Second").with_location(2);
    let both = first.or(second);
    assert_eq!(both.location, 2);
    assert!(matches!(both.error, Error::Empty("Second")));
    let first = expected(&[Selmaho::Ku], None, 2);
    let second = Error::Combinator(ErrorKind::Eof).with_location(2);
    assert!(matches!(first.or(second).error, Error::Combinator(ErrorKind::Eof)));
    let first = Error::Combinator(ErrorKind::Eof).with_location(2);
    let second = expected(&[Selmaho::Ku], None, 2);
    assert!(matches!(first.or(second).error, Error::ExpectedGot { .. }));
}

#[test]
fn or_merges_what_was_due_for_the_same_token() {
    let first = expected(&[Selmaho::Ku, Selmaho::Kei], Some(token(Selmaho::Koha)), 2);
    let second = expected(&[Selmaho::Vau], Some(token(Selmaho::Koha)), 2);
    let both = first.or(second);
    assert_eq!(both.location, 2);
    match both.error {
        Error::ExpectedGot { expected, got } => {
            assert_eq!(expected, [Selmaho::Ku, Selmaho::Kei, Selmaho::Vau]);
            assert_eq!(got, Some(token(Selmaho::Koha)));
        }
        other => panic!("{other:?}"),
    }
    let first = expected(&[Selmaho::Ku], None, 5);
    let second = expected(&[Selmaho::Vau], None, 5);
    match first.or(second).error {
        Error::ExpectedGot { expected, got } => {
            assert_eq!(expected, [Selmaho::Ku, Selmaho::Vau]);
            assert_eq!(got, None);
        }
        other => panic!("{other:?}"),
    }
}

#[test]
fn or_does_not_merge_what_was_due_for_different_tokens() {
    let first = expected(&[Selmaho::Ku], Some(token(Selmaho::Koha)), 2);
    let second = expected(&[Selmaho::Vau], Some(token(Selmaho::Gismu)), 2);
    match first.or(second).error {
        Error::ExpectedGot { expected, got } => {
            assert_eq!(expected, [Selmaho::Vau]);
            assert_eq!(got, Some(token(Selmaho::Gismu)));
        }
        other => panic!("{other:?}"),
    }
    let first = expected(&[Selmaho::Ku], Some(token(Selmaho::Koha)), 2);
    let second = expected(&[Selmaho::Vau], None, 2);
    match first.or(second).error {
        Error::ExpectedGot { expected, got } => {
            assert_eq!(expected, [Selmaho::Vau]);
            assert_eq!(got, None);
        }
        other => panic!("{other:?}"),
    }
}
