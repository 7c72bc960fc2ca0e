use sneturfahi::lex::selmaho::Selmaho;
use sneturfahi::lex::{lex, Error, Token};
use sneturfahi::span::Span;

fn tokens(input: &str) -> Result<Vec<Token>, Error> {
    let mut lexer = lex(input);
    let mut out = Vec::new();
    while let Some(token) = lexer.next() {
        match token {
            Ok(token) => out.push(token),
            Err(error) => {
                for _ in 0..1000 {
                    assert!(lexer.next().is_none());
                }
                return Err(error);
            }
        }
    }
    for _ in 0..1000 {
        assert!(lexer.next().is_none());
    }
    Ok(out)
}

fn check(input: &str, expected: &[(Selmaho, &str)]) {
    let got: Vec<(Selmaho, &str)> = tokens(input)
        .unwrap()
        .iter()
        .map(|token| (token.selmaho, token.span.slice(input).unwrap()))
        .collect();
    assert_eq!(got, expected);
}

#[test]
fn lex_do_decompose_starting_delimiter() {
    check(
        "zoi fuvi text fu",
        &[(Selmaho::Zoi, "zoi"), (Selmaho::ZoiDelimiter, "fu"), (Selmaho::AnyText, "vi text"), (Selmaho::ZoiDelimiter, "fu")],
    );
}

#[test]
fn lex_dont_decompose_in_quotes() {
    check(
        "zoi gy gygy gy",
        &[(Selmaho::Zoi, "zoi"), (Selmaho::ZoiDelimiter, "gy"), (Selmaho::AnyText, "gygy"), (Selmaho::ZoiDelimiter, "gy")],
    );
}

#[test]
fn lex_basic() {
    check(
        "fuvi zoi gy broda gy fuvi",
        &[(Selmaho::Fa, "fu"), (Selmaho::Va, "vi"), (Selmaho::Zoi, "zoi"), (Selmaho::ZoiDelimiter, "gy"), (Selmaho::AnyText, "broda"), (Selmaho::ZoiDelimiter, "gy"), (Selmaho::Fa, "fu"), (Selmaho::Va, "vi")],
    );
}

#[test]
fn lex_pause_delimited_quotes() {
    check(
        "zo'oi abcdef la'oi abcdef me'oi abcdef ra'oi abcdef do'oi abcdef",
        &[(Selmaho::Zohoi, "zo'oi"), (Selmaho::AnyText, "abcdef"), (Selmaho::Zohoi, "la'oi"), (Selmaho::AnyText, "abcdef"), (Selmaho::Mehoi, "me'oi"), (Selmaho::AnyText, "abcdef"), (Selmaho::Zohoi, "ra'oi"), (Selmaho::AnyText, "abcdef"), (Selmaho::Dohoi, "do'oi"), (Selmaho::AnyText, "abcdef")],
    );
}

#[test]
fn lex_pause_delimited_delimited_by_actual_pauses() {
    check(
        "zo'oi.abcdef.la'oi.abcdef.",
        &[(Selmaho::Zohoi, "zo'oi"), (Selmaho::AnyText, "abcdef"), (Selmaho::Zohoi, "la'oi"), (Selmaho::AnyText, "abcdef")],
    );
}

#[test]
fn lex_sohehai() {
    check(
        "so'e'ai gy. cipna .gy. sipna .gy",
        &[(Selmaho::Sohehai, "so'e'ai"), (Selmaho::ZoiDelimiter, "gy"), (Selmaho::AnyText, " cipna "), (Selmaho::ZoiDelimiter, "gy"), (Selmaho::AnyText, " sipna "), (Selmaho::ZoiDelimiter, "gy")],
    );
}

#[test]
fn lex_empty_quote() {
    check(
        "zoi gy gy",
        &[(Selmaho::Zoi, "zoi"), (Selmaho::ZoiDelimiter, "gy"), (Selmaho::ZoiDelimiter, "gy")],
    );
}

#[test]
fn lex_empty_quote2() {
    check(
        "zoi gy.gy",
        &[(Selmaho::Zoi, "zoi"), (Selmaho::ZoiDelimiter, "gy"), (Selmaho::ZoiDelimiter, "gy")],
    );
}

#[test]
fn lex_whitespace_rules() {
    check(
        "zoi gy no pauses on the delimiters gy",
        &[(Selmaho::Zoi, "zoi"), (Selmaho::ZoiDelimiter, "gy"), (Selmaho::AnyText, "no pauses on the delimiters"), (Selmaho::ZoiDelimiter, "gy")],
    );
}

#[test]
fn lex_whitespace_rules2() {
    check(
        "zoi gy. pause at start gy",
        &[(Selmaho::Zoi, "zoi"), (Selmaho::ZoiDelimiter, "gy"), (Selmaho::AnyText, " pause at start"), (Selmaho::ZoiDelimiter, "gy")],
    );
}

#[test]
fn lex_whitespace_rules3() {
    check(
        "zoi gy pause at end .gy",
        &[(Selmaho::Zoi, "zoi"), (Selmaho::ZoiDelimiter, "gy"), (Selmaho::AnyText, "pause at end "), (Selmaho::ZoiDelimiter, "gy")],
    );
}

#[test]
fn lex_whitespace_rules4() {
    check(
        "zoi gy. pauses on both .gy",
        &[(Selmaho::Zoi, "zoi"), (Selmaho::ZoiDelimiter, "gy"), (Selmaho::AnyText, " pauses on both "), (Selmaho::ZoiDelimiter, "gy")],
    );
}

#[test]
fn lex_whitespace_rules5() {
    check(
        "zoi gy   gy",
        &[(Selmaho::Zoi, "zoi"), (Selmaho::ZoiDelimiter, "gy"), (Selmaho::AnyText, " "), (Selmaho::ZoiDelimiter, "gy")],
    );
}

#[test]
fn lex_whitespace_rules6() {
    check(
        "zoi gy. . . . .gy",
        &[(Selmaho::Zoi, "zoi"), (Selmaho::ZoiDelimiter, "gy"), (Selmaho::AnyText, " . . . "), (Selmaho::ZoiDelimiter, "gy")],
    );
}

#[test]
fn lex_sentence() {
    let input = "mi nelci la sneturfa'i";
    assert_eq!(
        tokens(input).unwrap(),
        [
            Token { experimental: false, selmaho: Selmaho::Koha, span: Span::new(0, 2) },
            Token { experimental: false, selmaho: Selmaho::Gismu, span: Span::new(3, 8) },
            Token { experimental: false, selmaho: Selmaho::La, span: Span::new(9, 11) },
            Token { experimental: false, selmaho: Selmaho::Lujvo, span: Span::new(12, 22) },
        ]
    );
}

#[test]
fn lex_quotes_group_text() {
    let input = "zoi gy hello world gy me'oi alobroda";
    let got: Vec<&str> =
        tokens(input).unwrap().iter().map(|token| token.span.slice(input).unwrap()).collect();
    assert_eq!(got, ["zoi", "gy", "hello world", "gy", "me'oi", "alobroda"]);
}

#[test]
fn lex_zoi_selmaho() {
    let input = "zoi gy hello world gy";
    let got = tokens(input).unwrap();
    let selmaho: Vec<Selmaho> = got.iter().map(|token| token.selmaho).collect();
    assert_eq!(
        selmaho,
        [Selmaho::Zoi, Selmaho::ZoiDelimiter, Selmaho::AnyText, Selmaho::ZoiDelimiter]
    );
    assert_eq!(got[2].span.slice(input).unwrap(), "hello world");
}

#[test]
fn lex_sohehai_selmaho() {
    let input = "so'e'ai gy cipna gy sipna gy";
    let got = tokens(input).unwrap();
    let selmaho: Vec<Selmaho> = got.iter().map(|token| token.selmaho).collect();
    assert_eq!(
        selmaho,
        [
            Selmaho::Sohehai,
            Selmaho::ZoiDelimiter,
            Selmaho::AnyText,
            Selmaho::ZoiDelimiter,
            Selmaho::AnyText,
            Selmaho::ZoiDelimiter
        ]
    );
    assert_eq!(got[2].span.slice(input).unwrap(), "cipna");
    assert_eq!(got[4].span.slice(input).unwrap(), "sipna");
}

#[test]
fn lex_mehoi_selmaho() {
    let got = tokens("me'oi broda").unwrap();
    let selmaho: Vec<Selmaho> = got.iter().map(|token| token.selmaho).collect();
    assert_eq!(selmaho, [Selmaho::Mehoi, Selmaho::AnyText]);
}

#[test]
fn lex_experimental() {
    let got = tokens("ui ca'e'ei i'au").unwrap();
    let flags: Vec<bool> = got.iter().map(|token| token.experimental).collect();
    assert_eq!(flags, [false, true, true]);
}

#[test]
fn lex_missing_separator() {
    let input = "zoi";
    match tokens(input) {
        Err(Error::DelimitedQuoteMissingSeparator { initiator_span }) => {
            assert_eq!(initiator_span.slice(input).unwrap(), "zoi");
        }
        other => panic!("{other:?}"),
    }
}

#[test]
fn lex_unclosed_quote() {
    let input = "zoi gy my nice text but no terminator";
    match tokens(input) {
        Err(Error::DelimitedQuoteUnclosed { initiator_span, starting_delimiter_span }) => {
            assert_eq!(initiator_span.slice(input).unwrap(), "zoi");
            assert_eq!(starting_delimiter_span.slice(input).unwrap(), "gy");
        }
        other => panic!("{other:?}"),
    }
}

#[test]
fn lex_pause_delimited_quote_eof() {
    let input = "me'oi";
    match tokens(input) {
        Err(Error::PauseDelimitedQuoteEof { initiator_span }) => {
            assert_eq!(initiator_span.slice(input).unwrap(), "me'oi");
        }
        other => panic!("{other:?}"),
    }
}

#[test]
fn lex_stops_at_faho() {
    let input = "mi fa'o do";
    let got: Vec<&str> =
        tokens(input).unwrap().iter().map(|token| token.span.slice(input).unwrap()).collect();
    assert_eq!(got, ["mi", "fa'o"]);
}

#[test]
fn lex_delimiters_differ_in_commas_only() {
    check(
        "zoi g,y broda gy,,",
        &[
            (Selmaho::Zoi, "zoi"),
            (Selmaho::ZoiDelimiter, "g,y"),
            (Selmaho::AnyText, "broda"),
            (Selmaho::ZoiDelimiter, "gy,,"),
        ],
    );
}

#[test]
fn lex_leaves_out_text_that_is_empty() {
    // the one stretch between the delimiters is empty
    check(
        "zoi gy  gy",
        &[(Selmaho::Zoi, "zoi"), (Selmaho::ZoiDelimiter, "gy"), (Selmaho::ZoiDelimiter, "gy")],
    );
    check(
        "so'e'ai gy  gy  gy",
        &[
            (Selmaho::Sohehai, "so'e'ai"),
            (Selmaho::ZoiDelimiter, "gy"),
            (Selmaho::ZoiDelimiter, "gy"),
            (Selmaho::ZoiDelimiter, "gy"),
        ],
    );
    // a stretch of one space is text
    check(
        "zoi gy   gy",
        &[
            (Selmaho::Zoi, "zoi"),
            (Selmaho::ZoiDelimiter, "gy"),
            (Selmaho::AnyText, " "),
            (Selmaho::ZoiDelimiter, "gy"),
        ],
    );
}

#[test]
fn lex_yields_no_empty_text() {
    for input in ["zoi gy  gy", "zoi gy gy", "zoi gy.gy", "zoi gy. .gy", "zoi gy a  b gy"] {
        for token in tokens(input).unwrap() {
            if token.selmaho == Selmaho::AnyText {
                assert!(!token.span.is_empty());
            }
        }
    }
}
