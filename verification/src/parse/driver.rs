//! The steps that every production of the grammar is made of.
//!
//! A production is tried at a place in the tokens. It matches a number of
//! tokens from there, or it fails. A failure is an error, after which
//! another alternative may be tried, or it is fatal: it comes from behind a
//! cut, and ends the whole parse.

use vstd::prelude::*;

use crate::lex::{Selmaho, Token};
use crate::parse::arena::{keep, Arena};
use crate::parse::error::{Error, ErrorKind, Reason, Report, WithLocation};
use crate::span::Span;

verus! {

/// A failure of a production.
#[derive(Debug)]
pub struct Failed {
    /// Whether the failure ends the parse, so that no alternative is tried.
    pub fatal: bool,
    /// What went wrong, and where.
    pub error: WithLocation,
}

/// What a production gives: the place behind what it matched and the node
/// it made of that, or the reason why it did not match.
pub type Parsed<T> = Result<(usize, T), Failed>;

/// What the grammar says of a production at a place.
pub enum Outcome {
    /// It matches this many tokens.
    Matched(nat),
    /// It does not match, for this reason; alternatives may.
    Error(Report),
    /// It does not match, for this reason, and nothing else is tried.
    Failure(Report),
}

/// How many tokens are left at `pos`.
pub open spec fn rest(toks: Seq<Token>, pos: nat) -> nat {
    if pos <= toks.len() {
        (toks.len() - pos) as nat
    } else {
        0
    }
}

/// Whether a match of `len` tokens at `pos` took a token and stayed inside
/// the tokens.
pub open spec fn advanced(toks: Seq<Token>, pos: nat, len: nat) -> bool {
    0 < len && pos + len <= toks.len()
}

/// The outcome that a result of a production at `pos` stands for.
pub open spec fn outcome<T>(out: Parsed<T>, pos: usize) -> Outcome {
    match out {
        Ok((end, _)) => Outcome::Matched((end - pos) as nat),
        Err(failed) => if failed.fatal {
            Outcome::Failure(failed.error@)
        } else {
            Outcome::Error(failed.error@)
        },
    }
}

/// What a production gives where it is tried without the token before it
/// having been taken. The parser never tries a production so; this is the
/// value that the definitions of the grammar, which go down on the tokens
/// that are left, take in that case.
pub open spec fn stuck(pos: nat) -> Outcome {
    Outcome::Error(combinator_at(pos, ErrorKind::Eof))
}

/// The error that a step of the parser fails with at `pos`.
pub open spec fn combinator_at(pos: nat, kind: ErrorKind) -> Report {
    Report { location: pos, reason: Reason::Combinator(kind) }
}

/// The error of a production that took no token at `pos`.
pub open spec fn empty_at(pos: nat, name: &str) -> Report {
    Report { location: pos, reason: Reason::Empty(name@) }
}

/// The error of a production at `pos` whose condition is not met.
pub open spec fn condition_at(pos: nat, what: &str) -> Report {
    Report { location: pos, reason: Reason::PostConditionFailed(what@) }
}

/// The error of a token at `pos` that is not of the selmaho that was due.
/// Its place is behind the token, or at the end of the tokens.
pub open spec fn expected_at(toks: Seq<Token>, pos: nat, selmaho: Selmaho) -> Report {
    if pos < toks.len() {
        Report {
            location: pos + 1,
            reason: Reason::ExpectedGot { expected: seq![selmaho], got: Some(toks[pos as int]) },
        }
    } else {
        Report {
            location: pos,
            reason: Reason::ExpectedGot { expected: seq![selmaho], got: None },
        }
    }
}

/// A match that begins `by` tokens earlier.
pub open spec fn shifted(found: Outcome, by: nat) -> Outcome {
    match found {
        Outcome::Matched(len) => Outcome::Matched(len + by),
        other => other,
    }
}

/// Any one token.
pub open spec fn spec_token(toks: Seq<Token>, pos: nat) -> Outcome {
    if pos < toks.len() {
        Outcome::Matched(1)
    } else {
        Outcome::Error(combinator_at(pos, ErrorKind::Eof))
    }
}

/// One token of the given selmaho.
pub open spec fn spec_tok(toks: Seq<Token>, pos: nat, selmaho: Selmaho) -> Outcome {
    if pos < toks.len() && toks[pos as int].selmaho == selmaho {
        Outcome::Matched(1)
    } else {
        Outcome::Error(expected_at(toks, pos, selmaho))
    }
}

/// A part that may be missing: where it does not match, nothing is matched.
pub open spec fn spec_opt(found: Outcome) -> Outcome {
    match found {
        Outcome::Error(_) => Outcome::Matched(0),
        other => other,
    }
}

/// A part behind a cut: where it does not match, nothing else is tried.
pub open spec fn spec_cut(found: Outcome) -> Outcome {
    match found {
        Outcome::Error(report) => Outcome::Failure(report),
        other => other,
    }
}

/// A look ahead at `pos` that must fail: matches nothing, where the part does
/// not match.
pub open spec fn spec_not(pos: nat, found: Outcome) -> Outcome {
    match found {
        Outcome::Matched(_) => Outcome::Error(combinator_at(pos, ErrorKind::Not)),
        Outcome::Error(_) => Outcome::Matched(0),
        Outcome::Failure(report) => Outcome::Failure(report),
    }
}

/// Ordered choice: the first alternative, unless it fails with an error. If
/// both fail with an error, their errors are joined.
pub open spec fn spec_alt(one: Outcome, other: Outcome) -> Outcome {
    match one {
        Outcome::Error(first) => match other {
            Outcome::Error(second) => Outcome::Error(first.join(second)),
            decided => decided,
        },
        decided => decided,
    }
}

/// The choice of the longest: of two alternatives that were tried at the same
/// place, the one that matches more, and the first where both match the same.
/// Where both fail with an error, their errors are joined; a failure that is
/// fatal decides, the first one first.
pub open spec fn spec_longest(one: Outcome, other: Outcome) -> Outcome {
    match (one, other) {
        (Outcome::Failure(_), _) => one,
        (_, Outcome::Failure(_)) => other,
        (Outcome::Matched(first), Outcome::Matched(second)) => if second > first {
            other
        } else {
            one
        },
        (Outcome::Matched(_), Outcome::Error(_)) => one,
        (Outcome::Error(_), Outcome::Matched(_)) => other,
        (Outcome::Error(first), Outcome::Error(second)) => Outcome::Error(first.join(second)),
    }
}

/// A production that must take a token: a match of nothing is the error
/// `report`.
pub open spec fn spec_must_consume(found: Outcome, report: Report) -> Outcome {
    match found {
        Outcome::Matched(len) => if len == 0 {
            Outcome::Error(report)
        } else {
            found
        },
        other => other,
    }
}

/// An error at `location` that alternatives can recover from.
pub fn fail<T>(reason: Error, location: usize) -> (out: Parsed<T>)
    ensures
        out matches Err(failed) && !failed.fatal && failed.error.location == location
            && failed.error.error == reason,
        forall|pos: usize|
            #[trigger] outcome(out, pos) == Outcome::Error(
                Report { location: location as nat, reason: reason@ },
            ),
{
    Err(Failed { fatal: false, error: WithLocation { location, error: reason } })
}

/// Where a token was found wanting: behind it, or at the end of the tokens.
fn behind(toks: &[Token], pos: usize) -> (location: usize)
    requires
        pos <= toks.len(),
    ensures
        location == if pos < toks.len() {
            pos + 1
        } else {
            pos as int
        },
{
    if pos < toks.len() {
        pos + 1
    } else {
        pos
    }
}

/// Take any one token; see [`spec_token`].
pub fn token(toks: &[Token], pos: usize) -> (out: Parsed<Token>)
    requires
        pos <= toks.len(),
    ensures
        outcome(out, pos) == spec_token(toks@, pos as nat),
        out matches Ok((end, token)) ==> end == pos + 1 && token == toks@[pos as int],
{
    if pos < toks.len() {
        Ok((pos + 1, toks[pos]))
    } else {
        fail(Error::Combinator(ErrorKind::Eof), pos)
    }
}

/// Take any one token for its place in the text; see [`spec_token`].
pub fn span(toks: &[Token], pos: usize) -> (out: Parsed<Span>)
    requires
        pos <= toks.len(),
    ensures
        outcome(out, pos) == spec_token(toks@, pos as nat),
        out matches Ok((end, span)) ==> end == pos + 1 && span == toks@[pos as int].span,
{
    let (end, token) = token(toks, pos)?;
    Ok((end, token.span))
}

/// Take one token of the given selmaho; see [`spec_tok`].
pub fn tok(toks: &[Token], pos: usize, selmaho: Selmaho) -> (out: Parsed<Token>)
    requires
        pos <= toks.len(),
    ensures
        outcome(out, pos) == spec_tok(toks@, pos as nat, selmaho),
        out matches Ok((end, token)) ==> end == pos + 1 && token == toks@[pos as int],
{
    if pos < toks.len() && toks[pos].selmaho == selmaho {
        Ok((pos + 1, toks[pos]))
    } else {
        let mut expected: Vec<Selmaho> = Vec::new();
        expected.push(selmaho);
        let got = if pos < toks.len() {
            Some(toks[pos])
        } else {
            None
        };
        fail(Error::ExpectedGot { expected, got }, behind(toks, pos))
    }
}

/// Make a part optional; see [`spec_opt`].
pub fn opt<T>(pos: usize, found: Parsed<T>) -> (out: Parsed<Option<T>>)
    ensures
        outcome(out, pos) == spec_opt(outcome(found, pos)),
        found matches Ok((end, value)) ==> out == Ok::<(usize, Option<T>), Failed>(
            (end, Some(value)),
        ),
        found matches Err(failed) ==> (if failed.fatal {
            out == Err::<(usize, Option<T>), Failed>(failed)
        } else {
            out == Ok::<(usize, Option<T>), Failed>((pos, None))
        }),
{
    match found {
        Ok((end, value)) => Ok((end, Some(value))),
        Err(failed) => if failed.fatal {
            Err(failed)
        } else {
            Ok((pos, None))
        },
    }
}

/// Put a part behind a cut; see [`spec_cut`].
pub fn cut<T>(pos: usize, found: Parsed<T>) -> (out: Parsed<T>)
    ensures
        outcome(out, pos) == spec_cut(outcome(found, pos)),
        found is Ok ==> out == found,
{
    match found {
        Ok(done) => Ok(done),
        Err(failed) => Err(Failed { fatal: true, error: failed.error }),
    }
}

/// Turn a part into a look ahead that must fail; see [`spec_not`].
pub fn not<T>(pos: usize, found: Parsed<T>) -> (out: Parsed<()>)
    ensures
        outcome(out, pos) == spec_not(pos as nat, outcome(found, pos)),
        out matches Ok((end, _)) ==> end == pos,
{
    match found {
        Ok(_) => fail(Error::Combinator(ErrorKind::Not), pos),
        Err(failed) => if failed.fatal {
            Err(failed)
        } else {
            Ok((pos, ()))
        },
    }
}

/// Put the node of a part into the arena.
pub fn place<'arena, T>(arena: &'arena Arena, found: Parsed<T>) -> (out: Parsed<&'arena T>)
    ensures
        forall|pos: usize| outcome(out, pos) == outcome(found, pos),
        found matches Ok((end, value)) ==> out matches Ok((there, kept)) && there == end && *kept
            == value,
{
    match found {
        Ok((end, value)) => Ok((end, keep(arena, value))),
        Err(failed) => Err(failed),
    }
}

/// Choose the longest of two alternatives that were tried at `pos`; see
/// [`spec_longest`]. More than two are chosen from by choosing again, from
/// the choice so far and the next.
pub fn longest<T>(pos: usize, one: Parsed<T>, other: Parsed<T>) -> (out: Parsed<T>)
    requires
        one matches Ok((end, _)) ==> pos <= end,
        other matches Ok((end, _)) ==> pos <= end,
    ensures
        outcome(out, pos) == spec_longest(outcome(one, pos), outcome(other, pos)),
        out is Ok ==> out == one || out == other,
        out matches Ok((end, _)) ==> (one matches Ok((first, _)) ==> first <= end) && (
        other matches Ok((second, _)) ==> second <= end),
{
    match one {
        Ok((first, left)) => match other {
            Ok((second, right)) => if second > first {
                Ok((second, right))
            } else {
                Ok((first, left))
            },
            Err(failed) => if failed.fatal {
                Err(failed)
            } else {
                Ok((first, left))
            },
        },
        Err(failed) => if failed.fatal {
            Err(failed)
        } else {
            match other {
                Ok(done) => Ok(done),
                Err(also) => if also.fatal {
                    Err(also)
                } else {
                    Err(Failed { fatal: false, error: failed.error.or(also.error) })
                },
            }
        },
    }
}

/// Whether a result settles an alternation: a match does, and a fatal
/// failure does; an error lets the next alternative be tried.
pub fn settled<T>(found: &Parsed<T>) -> (done: bool)
    ensures
        done == !(found matches Err(failed) && !failed.fatal),
{
    match found {
        Ok(_) => true,
        Err(failed) => failed.fatal,
    }
}

/// The error of an alternative that failed.
pub fn error_of<T>(found: Parsed<T>) -> (error: WithLocation)
    requires
        found is Err,
    ensures
        found matches Err(failed) && error == failed.error,
        error@ == found->Err_0.error@,
{
    match found {
        Ok(_) => unreached(),
        Err(failed) => failed.error,
    }
}

} // verus!
