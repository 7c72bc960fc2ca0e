//! Why parsing can fail, and where.

use vstd::prelude::*;

use crate::lex::{Selmaho, Token};

verus! {

/// The steps of the parser that can fail without a word being at fault.
#[derive(Debug, Clone, Copy, PartialEq, Eq, Structural)]
pub enum ErrorKind {
    /// A token was asked for at the end of the tokens, or tokens were left
    /// over at the end of the text.
    Eof,
    /// A part that may repeat matched without taking a token.
    Many0,
    /// A part that repeats at least once matched without taking a token.
    Many1,
    /// The words of a quote ran out before its end was found.
    ManyTill,
    /// Something followed that must not follow.
    Not,
}

/// The errors that can occur while parsing.
#[derive(Debug)]
#[non_exhaustive]
pub enum Error {
    /// One of the selmaho in `expected` was due, and `got` was found.
    ExpectedGot {
        /// The selmaho that were due.
        expected: Vec<Selmaho>,
        /// The token that was found, or `None` at the end of the tokens.
        got: Option<Token>,
    },
    /// What was parsed does not meet a condition that the grammar puts on it.
    PostConditionFailed(&'static str),
    /// A step of the parser failed.
    Combinator(ErrorKind),
    /// The word that `zo` quotes was due, and the tokens ended.
    ZoQuoteEof,
    /// A production that has to take at least one token took none.
    Empty(&'static str),
}

/// An error and the place where it occurred.
#[derive(Debug)]
pub struct WithLocation {
    /// The place: the number of tokens before it.
    pub location: usize,
    /// The error itself.
    pub error: Error,
}

/// What an error says, as the grammar speaks of it.
pub enum Reason {
    /// One of the selmaho in `expected` was due, and `got` was found.
    ExpectedGot {
        /// The selmaho that were due, in the order in which they were tried.
        expected: Seq<Selmaho>,
        /// The token that was found, or `None` at the end of the tokens.
        got: Option<Token>,
    },
    /// What was parsed does not meet a condition that the grammar puts on it.
    PostConditionFailed(Seq<char>),
    /// A step of the parser failed.
    Combinator(ErrorKind),
    /// The word that `zo` quotes was due, and the tokens ended.
    ZoQuoteEof,
    /// A production that has to take at least one token took none.
    Empty(Seq<char>),
}

/// An error and its place, as the grammar speaks of them.
pub struct Report {
    /// The place: the number of tokens before it.
    pub location: nat,
    /// What went wrong there.
    pub reason: Reason,
}

impl Report {
    /// The error that is reported when two alternatives failed, with `self`
    /// and then with `other`: the one that got further. Of two errors at the
    /// same place it is the second, but where both say which selmaho were due
    /// for the same token, it says so too, of the selmaho of the first and
    /// then those of the second.
    pub open spec fn join(self, other: Report) -> Report {
        if self.location < other.location {
            other
        } else if self.location > other.location {
            self
        } else {
            match (self.reason, other.reason) {
                (
                    Reason::ExpectedGot { expected: first, got: one },
                    Reason::ExpectedGot { expected: second, got: two },
                ) => if one == two {
                    Report {
                        location: self.location,
                        reason: Reason::ExpectedGot { expected: first + second, got: one },
                    }
                } else {
                    other
                },
                _ => other,
            }
        }
    }
}

impl View for Error {
    type V = Reason;

    open spec fn view(&self) -> Reason {
        match *self {
            Error::ExpectedGot { expected, got } => Reason::ExpectedGot { expected: expected@, got },
            Error::PostConditionFailed(what) => Reason::PostConditionFailed(what@),
            Error::Combinator(kind) => Reason::Combinator(kind),
            Error::ZoQuoteEof => Reason::ZoQuoteEof,
            Error::Empty(name) => Reason::Empty(name@),
        }
    }
}

impl View for WithLocation {
    type V = Report;

    open spec fn view(&self) -> Report {
        Report { location: self.location as nat, reason: self.error@ }
    }
}

impl Error {
    /// Put a place to this error.
    #[must_use]
    pub fn with_location(self, location: usize) -> (located: WithLocation)
        ensures
            located.location == location,
            located.error == self,
            located@ == (Report { location: location as nat, reason: self@ }),
    {
        WithLocation { location, error: self }
    }
}

fn same_token(one: &Option<Token>, other: &Option<Token>) -> (same: bool)
    ensures
        same == (*one == *other),
{
    match (one, other) {
        (Some(a), Some(b)) => a.experimental == b.experimental && a.selmaho == b.selmaho
            && a.span == b.span,
        (None, None) => true,
        _ => false,
    }
}

impl WithLocation {
    /// The error that is reported when both of two alternatives fail, with
    /// `self` and then with `other`; see [`Report::join`].
    pub fn or(self, other: WithLocation) -> (both: WithLocation)
        ensures
            both@ == self@.join(other@),
    {
        if self.location != other.location {
            return if other.location >= self.location {
                other
            } else {
                self
            };
        }
        let location = self.location;
        match self.error {
            Error::ExpectedGot { expected, got } => {
                match other.error {
                    Error::ExpectedGot { expected: more, got: also } => {
                        if same_token(&got, &also) {
                            let mut expected = expected;
                            let ghost before = expected@;
                            let mut at: usize = 0;
                            while at < more.len()
                                invariant
                                    at <= more.len(),
                                    expected@ == before + more@.take(at as int),
                                decreases more.len() - at,
                            {
                                expected.push(more[at]);
                                at += 1;
                                assert(more@.take(at as int) =~= more@.take(at - 1).push(
                                    more@[at - 1],
                                ));
                                assert(expected@ =~= before + more@.take(at as int));
                            }
                            assert(more@.take(at as int) =~= more@);
                            WithLocation { location, error: Error::ExpectedGot { expected, got } }
                        } else {
                            WithLocation {
                                location,
                                error: Error::ExpectedGot { expected: more, got: also },
                            }
                        }
                    },
                    error => WithLocation { location, error },
                }
            },
            _ => other,
        }
    }
}

} // verus!
