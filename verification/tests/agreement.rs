use nom::error::{ErrorKind as NomKind, ParseError};
use nom::IResult;
use sneturfahi::lex::{Selmaho, Token};
use sneturfahi::parse::cst::parser::{
    many0_bahe, many1_bu, parse_bahe, parse_bu, parse_raw, parse_word_without_indicators,
};
use sneturfahi::parse::driver::{cut, error_of, not, opt, settled, Failed, Parsed};
use sneturfahi::parse::error::ErrorKind;
use sneturfahi::parse::{Arena, Error};
use sneturfahi::span::Span;

// The steps of the parser are held against the combinators of `nom`, which
// they are modelled on, over every row of a few kinds of tokens.

#[derive(Debug, Clone, PartialEq)]
enum Kind {
    ExpectedGot { expected: Vec<Selmaho>, got: Option<Token> },
    Nom(NomKind),
}

#[derive(Debug, Clone, PartialEq)]
struct Located<'a> {
    location: &'a [Token],
    kind: Kind,
}

impl<'a> ParseError<&'a [Token]> for Located<'a> {
    fn from_error_kind(input: &'a [Token], kind: NomKind) -> Self {
        Located { location: input, kind: Kind::Nom(kind) }
    }

    fn append(_input: &'a [Token], _kind: NomKind, other: Self) -> Self {
        other
    }

    fn or(self, other: Self) -> Self {
        if self.location.as_ptr() != other.location.as_ptr() {
            return if other.location.as_ptr() >= self.location.as_ptr() { other } else { self };
        }
        match (self.kind, &other.kind) {
            (
                Kind::ExpectedGot { mut expected, got },
                Kind::ExpectedGot { expected: more, got: also },
            ) if &got == also => {
                expected.extend(more.iter().copied());
                Located { location: self.location, kind: Kind::ExpectedGot { expected, got } }
            }
            _ => other,
        }
    }
}

type Theirs<'a, T> = IResult<&'a [Token], T, Located<'a>>;

fn raw(selmaho: Selmaho, input: &[Token]) -> Theirs<'_, Token> {
    let mut rest = input.iter();
    match rest.next().copied() {
        Some(token) if token.selmaho == selmaho => Ok((rest.as_slice(), token)),
        got => Err(nom::Err::Error(Located {
            location: rest.as_slice(),
            kind: Kind::ExpectedGot { expected: vec![selmaho], got },
        })),
    }
}

fn bu(input: &[Token]) -> Theirs<'_, Token> {
    raw(Selmaho::Bu, input)
}

fn plain(selmaho: Selmaho, input: &[Token]) -> Theirs<'_, Token> {
    let (rest, token) = raw(selmaho, input)?;
    nom::combinator::not(bu)(rest)?;
    nom::combinator::not(zei)(rest)?;
    Ok((rest, token))
}

fn bahe(input: &[Token]) -> Theirs<'_, Token> {
    plain(Selmaho::Bahe, input)
}

fn lohu(input: &[Token]) -> Theirs<'_, Token> {
    plain(Selmaho::Lohu, input)
}

fn zei(input: &[Token]) -> Theirs<'_, Token> {
    let (rest, _) = nom::multi::many0(bahe)(input)?;
    let (rest, token) = raw(Selmaho::Zei, rest)?;
    nom::combinator::not(bu)(rest)?;
    nom::combinator::not(zei)(rest)?;
    Ok((rest, token))
}

fn kind_of(error: &Error) -> Kind {
    match error {
        Error::ExpectedGot { expected, got } => {
            Kind::ExpectedGot { expected: expected.clone(), got: *got }
        }
        Error::Combinator(ErrorKind::Eof) => Kind::Nom(NomKind::Eof),
        Error::Combinator(ErrorKind::Many0) => Kind::Nom(NomKind::Many0),
        Error::Combinator(ErrorKind::Many1) => Kind::Nom(NomKind::Many1),
        Error::Combinator(ErrorKind::ManyTill) => Kind::Nom(NomKind::ManyTill),
        Error::Combinator(ErrorKind::Not) => Kind::Nom(NomKind::Not),
        other => panic!("{other:?}"),
    }
}

/// What a result comes to: where it ended, or whether it is fatal, where it
/// failed and why.
type Outcome = Result<usize, (bool, usize, Kind)>;

fn mine<T>(found: Parsed<T>) -> Outcome {
    match found {
        Ok((end, _)) => Ok(end),
        Err(Failed { fatal, error }) => Err((fatal, error.location, kind_of(&error.error))),
    }
}

fn theirs<T>(tokens: &[Token], found: Theirs<'_, T>) -> Outcome {
    match found {
        Ok((rest, _)) => Ok(tokens.len() - rest.len()),
        Err(nom::Err::Error(error)) => Err((false, tokens.len() - error.location.len(), error.kind)),
        Err(nom::Err::Failure(error)) => Err((true, tokens.len() - error.location.len(), error.kind)),
        Err(nom::Err::Incomplete(_)) => panic!("incomplete"),
    }
}

fn rows(alphabet: &[Selmaho], longest: usize) -> Vec<Vec<Token>> {
    let mut out = vec![Vec::new()];
    let mut last = vec![Vec::new()];
    for _ in 0..longest {
        let mut next = Vec::new();
        for row in &last {
            for selmaho in alphabet {
                let mut row: Vec<Token> = row.clone();
                let at = row.len() as u32;
                row.push(Token {
                    experimental: false,
                    selmaho: *selmaho,
                    span: Span::new(at, at + 1),
                });
                next.push(row);
            }
        }
        out.extend(next.iter().cloned());
        last = next;
    }
    out
}

const ALPHABET: [Selmaho; 5] =
    [Selmaho::Bahe, Selmaho::Bu, Selmaho::Zei, Selmaho::Koha, Selmaho::Lohu];

#[test]
fn words_agree_with_the_combinators() {
    let arena = Arena::new();
    for tokens in rows(&ALPHABET, 5) {
        for pos in 0..=tokens.len() {
            let rest = &tokens[pos..];
            let shift = |found: Outcome| match found {
                Ok(end) => Ok(end + pos),
                Err((fatal, location, kind)) => Err((fatal, location + pos, kind)),
            };
            assert_eq!(mine(parse_bu(&tokens, pos, &arena)), shift(theirs(rest, bu(rest))));
            assert_eq!(mine(parse_bahe(&tokens, pos, &arena)), shift(theirs(rest, bahe(rest))));
            assert_eq!(
                mine(parse_raw(&tokens, pos, &arena, Selmaho::Lohu)),
                shift(theirs(rest, lohu(rest)))
            );
            assert_eq!(
                mine(parse_word_without_indicators(&tokens, pos, &arena, Selmaho::Zei)),
                shift(theirs(rest, zei(rest)))
            );
        }
    }
}

#[test]
fn repetitions_agree_with_the_combinators() {
    let arena = Arena::new();
    for tokens in rows(&ALPHABET, 5) {
        let found = many0_bahe(&tokens, 0, &arena);
        if let Ok((_, items)) = &found {
            let (_, expected) = nom::multi::many0(bahe)(&tokens[..]).unwrap();
            assert_eq!(items.len(), expected.len());
            for (item, token) in items.iter().zip(expected) {
                assert_eq!(item.span, token.span);
            }
        }
        assert_eq!(mine(found), theirs(&tokens, nom::multi::many0(bahe)(&tokens[..])));
        assert_eq!(
            mine(many1_bu(&tokens, 0, &arena)),
            theirs(&tokens, nom::multi::many1(bu)(&tokens[..]))
        );
    }
}

#[test]
fn steps_agree_with_the_combinators() {
    let arena = Arena::new();
    for tokens in rows(&ALPHABET, 4) {
        let input = &tokens[..];
        assert_eq!(
            mine(opt(0, parse_bahe(&tokens, 0, &arena))),
            theirs(input, nom::combinator::opt(bahe)(input))
        );
        assert_eq!(
            mine(cut(0, parse_bahe(&tokens, 0, &arena))),
            theirs(input, nom::combinator::cut(bahe)(input))
        );
        assert_eq!(
            mine(not(0, parse_bahe(&tokens, 0, &arena))),
            theirs(input, nom::combinator::not(bahe)(input))
        );
        assert_eq!(
            mine(opt(0, cut(0, parse_bu(&tokens, 0, &arena)))),
            theirs(input, nom::combinator::opt(nom::combinator::cut(bu))(input))
        );
        assert_eq!(
            mine(not(0, cut(0, parse_bu(&tokens, 0, &arena)))),
            theirs(input, nom::combinator::not(nom::combinator::cut(bu))(input))
        );
        // an alternation: the errors of the alternatives are joined
        let chosen = (|| {
            let tried = parse_bu(&tokens, 0, &arena).map(|(end, _)| (end, ()));
            if settled(&tried) {
                return tried;
            }
            let error = error_of(tried);
            let tried = parse_bahe(&tokens, 0, &arena).map(|(end, _)| (end, ()));
            if settled(&tried) {
                return tried;
            }
            let error = error.or(error_of(tried));
            let tried = parse_word_without_indicators(&tokens, 0, &arena, Selmaho::Zei)
                .map(|(end, _)| (end, ()));
            if settled(&tried) {
                return tried;
            }
            let error = error.or(error_of(tried));
            let tried = parse_raw(&tokens, 0, &arena, Selmaho::Lohu).map(|(end, _)| (end, ()));
            if settled(&tried) {
                return tried;
            }
            let error = error.or(error_of(tried));
            Err(Failed { fatal: false, error })
        })();
        assert_eq!(mine(chosen), theirs(input, nom::branch::alt((bu, bahe, zei, lohu))(input)));
    }
}
