use sneturfahi::lex::{lex, Selmaho, Token};
use sneturfahi::parse::cst::parser::{
    many0_bahe, many1_word, parse_bu_lerfu, parse_lohu_sumti, parse_paragraph_item, parse_time,
    parse_word, parse_word_with_free,
};
use sneturfahi::parse::driver::{cut, not, opt, tok, token, Parsed};
use sneturfahi::parse::error::ErrorKind;
use sneturfahi::parse::{Arena, Error};

fn lex_all(input: &str) -> Vec<Token> {
    let mut lexer = lex(input);
    let mut out = Vec::new();
    while let Some(token) = lexer.next() {
        out.push(token.expect("lexing failed"));
    }
    out
}

fn end<T>(found: &Parsed<T>) -> Option<usize> {
    found.as_ref().ok().map(|(end, _)| *end)
}

#[test]
fn driver_token() {
    let tokens = lex_all("mi klama");
    assert_eq!(end(&token(&tokens, 0)), Some(1));
    assert_eq!(token(&tokens, 1).unwrap().1, tokens[1]);
    let failed = token(&tokens, 2).unwrap_err();
    assert!(!failed.fatal);
    assert_eq!(failed.error.location, 2);
    assert!(matches!(failed.error.error, Error::Combinator(ErrorKind::Eof)));
}

#[test]
fn driver_tok() {
    let tokens = lex_all("mi klama");
    assert_eq!(tok(&tokens, 0, Selmaho::Koha).unwrap(), (1, tokens[0]));
    // the error of a token that is not the one that was due lies behind the token
    let failed = tok(&tokens, 0, Selmaho::Gismu).unwrap_err();
    assert!(!failed.fatal);
    assert_eq!(failed.error.location, 1);
    match failed.error.error {
        Error::ExpectedGot { expected, got } => {
            assert_eq!(expected, [Selmaho::Gismu]);
            assert_eq!(got, Some(tokens[0]));
        }
        other => panic!("{other:?}"),
    }
    // and at the end of the tokens where they have ended
    let failed = tok(&tokens, 2, Selmaho::Gismu).unwrap_err();
    assert_eq!(failed.error.location, 2);
    match failed.error.error {
        Error::ExpectedGot { expected, got } => {
            assert_eq!(expected, [Selmaho::Gismu]);
            assert_eq!(got, None);
        }
        other => panic!("{other:?}"),
    }
}

#[test]
fn driver_opt_cut_not() {
    let tokens = lex_all("mi klama");
    assert_eq!(opt(0, tok(&tokens, 0, Selmaho::Koha)).unwrap(), (1, Some(tokens[0])));
    assert_eq!(opt(0, tok(&tokens, 0, Selmaho::Gismu)).unwrap(), (0, None));
    let failed = opt(0, cut(0, tok(&tokens, 0, Selmaho::Gismu))).unwrap_err();
    assert!(failed.fatal);
    assert_eq!(failed.error.location, 1);
    assert_eq!(cut(0, tok(&tokens, 0, Selmaho::Koha)).unwrap(), (1, tokens[0]));
    assert_eq!(not(0, tok(&tokens, 0, Selmaho::Gismu)).unwrap(), (0, ()));
    let failed = not(0, tok(&tokens, 0, Selmaho::Koha)).unwrap_err();
    assert!(!failed.fatal);
    assert_eq!(failed.error.location, 0);
    assert!(matches!(failed.error.error, Error::Combinator(ErrorKind::Not)));
    assert!(not(0, cut(0, tok(&tokens, 0, Selmaho::Gismu))).unwrap_err().fatal);
}

#[test]
fn word_takes_emphasis_and_indicators() {
    let input = "ba'e za'e mi ui nai klama";
    let tokens = lex_all(input);
    let arena = Arena::new();
    let (end, word) = parse_word(&tokens, 0, &arena, Selmaho::Koha).unwrap();
    assert_eq!(end, 5);
    assert_eq!(word.selmaho, Selmaho::Koha);
    assert_eq!(word.span.slice(input), Some("mi"));
    assert_eq!(word.bahe.len(), 2);
    assert_eq!(word.bahe[1].span.slice(input), Some("za'e"));
    // `nai` clings to `ui`, and `ui` with it to `mi`
    let indicators = word.indicators.unwrap();
    assert!(indicators.0.is_none());
    assert_eq!(indicators.1.len(), 1);
    assert!(format!("{:?}", indicators.1[0]).contains("selmaho: Nai"));
    let (end, bahe) = many0_bahe(&tokens, 0, &arena).unwrap();
    assert_eq!((end, bahe.len()), (2, 2));
    let (end, bahe) = many0_bahe(&tokens, 2, &arena).unwrap();
    assert_eq!((end, bahe.len()), (2, 0));
}

#[test]
fn word_is_none_before_bu_or_zei() {
    let arena = Arena::new();
    let tokens = lex_all("mi bu");
    let failed = parse_word(&tokens, 0, &arena, Selmaho::Koha).unwrap_err();
    assert!(!failed.fatal);
    assert_eq!(failed.error.location, 1);
    assert!(matches!(failed.error.error, Error::Combinator(ErrorKind::Not)));
    assert_eq!(end(&parse_bu_lerfu(&tokens, 0, &arena)), Some(1));
    let tokens = lex_all("mi zei klama");
    assert!(parse_word(&tokens, 0, &arena, Selmaho::Koha).is_err());
    // `ba'e` cannot stand before `zei` itself, so no `zei` follows `mi` here
    let tokens = lex_all("mi ba'e zei klama");
    assert_eq!(end(&parse_word(&tokens, 0, &arena, Selmaho::Koha)), Some(1));
    let tokens = lex_all("mi ba'e klama");
    assert_eq!(end(&parse_word(&tokens, 0, &arena, Selmaho::Koha)), Some(1));
}

#[test]
fn bu_lerfu_takes_no_word_that_acts_on_words() {
    let arena = Arena::new();
    let tokens = lex_all("si");
    let failed = parse_bu_lerfu(&tokens, 0, &arena).unwrap_err();
    assert_eq!(failed.error.location, 0);
    assert!(matches!(failed.error.error, Error::PostConditionFailed(_)));
    let failed = parse_bu_lerfu(&tokens, 1, &arena).unwrap_err();
    assert_eq!(failed.error.location, 1);
    assert!(matches!(failed.error.error, Error::Combinator(ErrorKind::Eof)));
}

#[test]
fn word_with_free() {
    let arena = Arena::new();
    let tokens = lex_all("ke xi pa xi re broda");
    let (end, word) = parse_word_with_free(&tokens, 0, &arena, Selmaho::Ke).unwrap();
    assert_eq!(end, 5);
    assert_eq!(word.inner.selmaho, Selmaho::Ke);
    // the second subscript clings to the number of the first
    assert_eq!(word.frees.0.len(), 1);
    let tokens = lex_all("ke to mi toi to do toi broda");
    let (end, word) = parse_word_with_free(&tokens, 0, &arena, Selmaho::Ke).unwrap();
    assert_eq!(end, 7);
    assert_eq!(word.frees.0.len(), 2);
}

#[test]
fn many1_wants_one() {
    let arena = Arena::new();
    let tokens = lex_all("djan djan mi");
    let (end, names) = many1_word(&tokens, 0, &arena, Selmaho::Cmevla).unwrap();
    assert_eq!((end, names.len()), (2, 2));
    let failed = many1_word(&tokens, 2, &arena, Selmaho::Cmevla).unwrap_err();
    assert!(!failed.fatal);
    assert_eq!(failed.error.location, 3);
    assert!(matches!(failed.error.error, Error::ExpectedGot { .. }));
}

#[test]
fn time_wants_a_part() {
    let arena = Arena::new();
    let tokens = lex_all("pu zi ze'a broda");
    let (end, time) = parse_time(&tokens, 0, &arena).unwrap();
    assert_eq!(end, 3);
    assert!(time.zi.is_none());
    assert_eq!(time.offset.len(), 1);
    assert!(time.offset[0].zi.is_some());
    assert!(time.duration.is_some());
    assert!(time.properties.is_empty());
    let failed = parse_time(&tokens, 3, &arena).unwrap_err();
    assert!(!failed.fatal);
    assert_eq!(failed.error.location, 3);
    assert!(matches!(failed.error.error, Error::PostConditionFailed(_)));
}

#[test]
fn sentences_must_take_a_token() {
    let arena = Arena::new();
    let tokens = lex_all("ku");
    // sentences that take no token are none; the item is the empty one then
    let (end, item) = parse_paragraph_item(&tokens, 0, &arena).unwrap();
    assert_eq!(end, 0);
    assert!(matches!(item, sneturfahi::parse::cst::rules::ParagraphItem::Empty));
}

#[test]
fn quote_of_words() {
    let input = "lo'u li mi ku ku le'u broda";
    let arena = Arena::new();
    let tokens = lex_all(input);
    let (end, quote) = parse_lohu_sumti(&tokens, 0, &arena).unwrap();
    assert_eq!(end, 6);
    assert_eq!(quote.inner, &tokens[1..5]);
    assert_eq!(quote.lehu.span.slice(input), Some("le'u"));
    let tokens = lex_all("lo'u li mi");
    let failed = parse_lohu_sumti(&tokens, 0, &arena).unwrap_err();
    assert!(failed.fatal);
    assert_eq!(failed.error.location, 3);
    assert!(matches!(failed.error.error, Error::Combinator(ErrorKind::Eof)));
}

#[test]
fn longest_takes_the_one_that_matches_more() {
    let tokens = lex_all("mi klama do");
    let short = token(&tokens, 0);
    let long = token(&tokens, 0).and_then(|(end, _)| token(&tokens, end));
    assert_eq!(sneturfahi::parse::driver::longest(0, short, long).unwrap(), (2, tokens[1]));
    let short = token(&tokens, 0);
    let long = token(&tokens, 0).and_then(|(end, _)| token(&tokens, end));
    assert_eq!(sneturfahi::parse::driver::longest(0, long, short).unwrap(), (2, tokens[1]));
    // the first of two that match the same
    let one = tok(&tokens, 0, Selmaho::Koha);
    let other: Parsed<Token> = Ok((1, tokens[2]));
    assert_eq!(sneturfahi::parse::driver::longest(0, one, other).unwrap(), (1, tokens[0]));
    // a match before an error
    let one = tok(&tokens, 0, Selmaho::Gismu);
    let other = tok(&tokens, 0, Selmaho::Koha);
    assert_eq!(sneturfahi::parse::driver::longest(0, one, other).unwrap(), (1, tokens[0]));
    // two errors are joined
    let one = tok(&tokens, 0, Selmaho::Gismu);
    let other = tok(&tokens, 0, Selmaho::Ku);
    let failed = sneturfahi::parse::driver::longest(0, one, other).unwrap_err();
    assert!(!failed.fatal);
    match failed.error.error {
        Error::ExpectedGot { expected, .. } => assert_eq!(expected, [Selmaho::Gismu, Selmaho::Ku]),
        other => panic!("{other:?}"),
    }
    // a fatal failure decides, even behind a match
    let one = tok(&tokens, 0, Selmaho::Koha);
    let other = cut(0, tok(&tokens, 0, Selmaho::Ku));
    assert!(sneturfahi::parse::driver::longest(0, one, other).unwrap_err().fatal);
}
