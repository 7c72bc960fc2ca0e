//! The grammar: how many tokens each production matches at a place.
//!
//! The comment on a specification gives its production: `?` marks a part
//! that may be missing, `*` one that may repeat, `+` one that repeats at least
//! once, `!` something that must not follow, `^` a part behind a cut, and `/`
//! stands between alternatives, of which the first that matches is taken.
//!
//! The productions call one another in circles. Every definition goes down on
//! the pair of the tokens that are left and the number in its `decreases`
//! clause; where that depends on an earlier part having taken a token, the
//! definition asks for it with `advanced`. The parser proves that it always
//! holds. Beside each definition stands the lemma that unfolds it.

use vstd::prelude::*;

use crate::lex::{Selmaho, Token};
use crate::parse::driver::{
    advanced, combinator_at, condition_at, empty_at, rest, shifted, spec_alt, spec_cut,
    spec_must_consume, spec_not, spec_opt, spec_tok, spec_token, stuck, Outcome,
};
use crate::parse::error::ErrorKind;

verus! {

/// ```text
/// Bu <- token(Bu)
/// ```
#[verifier::opaque]
pub closed spec fn spec_bu(toks: Seq<Token>, pos: nat) -> Outcome
    decreases rest(toks, pos), 0nat,
{
    spec_tok(toks, pos, Selmaho::Bu)
}

/// What [`spec_bu`] says.
pub proof fn lemma_bu(toks: Seq<Token>, pos: nat)
    ensures
        spec_bu(toks, pos) == (
            spec_tok(toks, pos, Selmaho::Bu)
        ),
{
    reveal(spec_bu);
}

/// One `Bu` or more in a row. It is an error if one of them matches
/// without taking a token.
#[verifier::opaque]
pub closed spec fn spec_many1_bu(toks: Seq<Token>, pos: nat) -> Outcome
    decreases rest(toks, pos), 1nat,
{
    match spec_bu(toks, pos) {
        Outcome::Matched(len) => if advanced(toks, pos, len) {
            shifted(spec_many1_bu_more(toks, pos + len), len)
        } else {
            Outcome::Error(combinator_at(pos, ErrorKind::Many1))
        },
        other => other,
    }
}

/// What follows the first `Bu` of a row of them.
#[verifier::opaque]
pub closed spec fn spec_many1_bu_more(toks: Seq<Token>, pos: nat) -> Outcome
    decreases rest(toks, pos), 1nat,
{
    match spec_bu(toks, pos) {
        Outcome::Matched(len) => if advanced(toks, pos, len) {
            shifted(spec_many1_bu_more(toks, pos + len), len)
        } else {
            Outcome::Error(combinator_at(pos, ErrorKind::Many1))
        },
        Outcome::Error(_) => Outcome::Matched(0),
        Outcome::Failure(report) => Outcome::Failure(report),
    }
}

/// What [`spec_many1_bu`] and [`spec_many1_bu_more`] say.
pub proof fn lemma_many1_bu(toks: Seq<Token>, pos: nat)
    ensures
        spec_many1_bu(toks, pos) == (match spec_bu(toks, pos) {
            Outcome::Matched(len) => if advanced(toks, pos, len) {
                shifted(spec_many1_bu_more(toks, pos + len), len)
            } else {
                Outcome::Error(combinator_at(pos, ErrorKind::Many1))
            },
            other => other,
        }),
        spec_many1_bu_more(toks, pos) == (match spec_bu(toks, pos) {
            Outcome::Matched(len) => if advanced(toks, pos, len) {
                shifted(spec_many1_bu_more(toks, pos + len), len)
            } else {
                Outcome::Error(combinator_at(pos, ErrorKind::Many1))
            },
            Outcome::Error(_) => Outcome::Matched(0),
            Outcome::Failure(report) => Outcome::Failure(report),
        }),
{
    reveal(spec_many1_bu);
    reveal(spec_many1_bu_more);
    reveal(spec_bu);
}

/// ```text
/// Bahe <- token(Bahe) !Bu !Zei
/// ```
#[verifier::opaque]
pub closed spec fn spec_bahe(toks: Seq<Token>, pos: nat) -> Outcome
    decreases rest(toks, pos), 0nat,
{
    match spec_tok(toks, pos, Selmaho::Bahe) {
        Outcome::Matched(n1) => match spec_not(pos + n1, spec_bu(toks, pos + n1)) {
            Outcome::Matched(_) => match spec_not(
                pos + n1,
                spec_word_without_indicators(toks, pos + n1, Selmaho::Zei),
            ) {
                Outcome::Matched(_) => Outcome::Matched(n1),
                other => other,
            },
            other => other,
        },
        other => other,
    }
}

/// What [`spec_bahe`] says.
pub proof fn lemma_bahe(toks: Seq<Token>, pos: nat)
    ensures
        spec_bahe(toks, pos) == (
            match spec_tok(toks, pos, Selmaho::Bahe) {
                Outcome::Matched(n1) => match spec_not(pos + n1, spec_bu(toks, pos + n1)) {
                    Outcome::Matched(_) => match spec_not(
                        pos + n1,
                        spec_word_without_indicators(toks, pos + n1, Selmaho::Zei),
                    ) {
                        Outcome::Matched(_) => Outcome::Matched(n1),
                        other => other,
                    },
                    other => other,
                },
                other => other,
            }
        ),
{
    reveal(spec_bahe);
    reveal(spec_bu);
    reveal(spec_word_without_indicators);
}

/// As many `Bahe` as match in a row. It is an error if one of them
/// matches without taking a token.
#[verifier::opaque]
pub closed spec fn spec_many0_bahe(toks: Seq<Token>, pos: nat) -> Outcome
    decreases rest(toks, pos), 1nat,
{
    match spec_bahe(toks, pos) {
        Outcome::Matched(len) => if advanced(toks, pos, len) {
            shifted(spec_many0_bahe(toks, pos + len), len)
        } else {
            Outcome::Error(combinator_at(pos, ErrorKind::Many0))
        },
        Outcome::Error(_) => Outcome::Matched(0),
        Outcome::Failure(report) => Outcome::Failure(report),
    }
}

/// What [`spec_many0_bahe`] says.
pub proof fn lemma_many0_bahe(toks: Seq<Token>, pos: nat)
    ensures
        spec_many0_bahe(toks, pos) == (match spec_bahe(toks, pos) {
            Outcome::Matched(len) => if advanced(toks, pos, len) {
                shifted(spec_many0_bahe(toks, pos + len), len)
            } else {
                Outcome::Error(combinator_at(pos, ErrorKind::Many0))
            },
            Outcome::Error(_) => Outcome::Matched(0),
            Outcome::Failure(report) => Outcome::Failure(report),
        }),
{
    reveal(spec_many0_bahe);
    reveal(spec_bahe);
}

/// ```text
/// Raw <- token(selmaho) !Bu !Zei
/// ```
#[verifier::opaque]
pub closed spec fn spec_raw(toks: Seq<Token>, pos: nat, selmaho: Selmaho) -> Outcome
    decreases rest(toks, pos), 0nat,
{
    match spec_tok(toks, pos, selmaho) {
        Outcome::Matched(n1) => match spec_not(pos + n1, spec_bu(toks, pos + n1)) {
            Outcome::Matched(_) => match spec_not(
                pos + n1,
                spec_word_without_indicators(toks, pos + n1, Selmaho::Zei),
            ) {
                Outcome::Matched(_) => Outcome::Matched(n1),
                other => other,
            },
            other => other,
        },
        other => other,
    }
}

/// What [`spec_raw`] says.
pub proof fn lemma_raw(toks: Seq<Token>, pos: nat, selmaho: Selmaho)
    ensures
        spec_raw(toks, pos, selmaho) == (
            match spec_tok(toks, pos, selmaho) {
                Outcome::Matched(n1) => match spec_not(pos + n1, spec_bu(toks, pos + n1)) {
                    Outcome::Matched(_) => match spec_not(
                        pos + n1,
                        spec_word_without_indicators(toks, pos + n1, Selmaho::Zei),
                    ) {
                        Outcome::Matched(_) => Outcome::Matched(n1),
                        other => other,
                    },
                    other => other,
                },
                other => other,
            }
        ),
{
    reveal(spec_raw);
    reveal(spec_bu);
    reveal(spec_word_without_indicators);
}

/// ```text
/// WordWithoutIndicators <- Bahe* token(selmaho) !Bu !Zei
/// ```
#[verifier::opaque]
pub closed spec fn spec_word_without_indicators(
    toks: Seq<Token>,
    pos: nat,
    selmaho: Selmaho,
) -> Outcome
    decreases rest(toks, pos), 2nat,
{
    match spec_many0_bahe(toks, pos) {
        Outcome::Matched(n1) => match spec_tok(toks, pos + n1, selmaho) {
            Outcome::Matched(n2) => match spec_not(pos + n1 + n2, spec_bu(toks, pos + n1 + n2)) {
                Outcome::Matched(_) => match spec_not(
                    pos + n1 + n2,
                    spec_word_without_indicators(toks, pos + n1 + n2, Selmaho::Zei),
                ) {
                    Outcome::Matched(_) => Outcome::Matched(n1 + n2),
                    other => other,
                },
                other => other,
            },
            other => other,
        },
        other => other,
    }
}

/// What [`spec_word_without_indicators`] says.
pub proof fn lemma_word_without_indicators(toks: Seq<Token>, pos: nat, selmaho: Selmaho)
    ensures
        spec_word_without_indicators(toks, pos, selmaho) == (
            match spec_many0_bahe(toks, pos) {
                Outcome::Matched(n1) => match spec_tok(toks, pos + n1, selmaho) {
                    Outcome::Matched(n2) => match spec_not(
                        pos + n1 + n2,
                        spec_bu(toks, pos + n1 + n2),
                    ) {
                        Outcome::Matched(_) => match spec_not(
                            pos + n1 + n2,
                            spec_word_without_indicators(toks, pos + n1 + n2, Selmaho::Zei),
                        ) {
                            Outcome::Matched(_) => Outcome::Matched(n1 + n2),
                            other => other,
                        },
                        other => other,
                    },
                    other => other,
                },
                other => other,
            }
        ),
{
    reveal(spec_word_without_indicators);
    reveal(spec_many0_bahe);
    reveal(spec_bu);
}

/// ```text
/// Word <- Bahe* token(selmaho) Indicators? !Bu !Zei
/// ```
#[verifier::opaque]
pub closed spec fn spec_word(toks: Seq<Token>, pos: nat, selmaho: Selmaho) -> Outcome
    decreases rest(toks, pos), 2nat,
{
    match spec_many0_bahe(toks, pos) {
        Outcome::Matched(n1) => match spec_tok(toks, pos + n1, selmaho) {
            Outcome::Matched(n2) => match spec_opt(spec_indicators(toks, pos + n1 + n2)) {
                Outcome::Matched(n3) => match spec_not(
                    pos + n1 + n2 + n3,
                    spec_bu(toks, pos + n1 + n2 + n3),
                ) {
                    Outcome::Matched(_) => match spec_not(
                        pos + n1 + n2 + n3,
                        spec_word_without_indicators(toks, pos + n1 + n2 + n3, Selmaho::Zei),
                    ) {
                        Outcome::Matched(_) => Outcome::Matched(n1 + n2 + n3),
                        other => other,
                    },
                    other => other,
                },
                other => other,
            },
            other => other,
        },
        other => other,
    }
}

/// What [`spec_word`] says.
pub proof fn lemma_word(toks: Seq<Token>, pos: nat, selmaho: Selmaho)
    ensures
        spec_word(toks, pos, selmaho) == (
            match spec_many0_bahe(toks, pos) {
                Outcome::Matched(n1) => match spec_tok(toks, pos + n1, selmaho) {
                    Outcome::Matched(n2) => match spec_opt(spec_indicators(toks, pos + n1 + n2)) {
                        Outcome::Matched(n3) => match spec_not(
                            pos + n1 + n2 + n3,
                            spec_bu(toks, pos + n1 + n2 + n3),
                        ) {
                            Outcome::Matched(_) => match spec_not(
                                pos + n1 + n2 + n3,
                                spec_word_without_indicators(
                                    toks,
                                    pos + n1 + n2 + n3,
                                    Selmaho::Zei,
                                ),
                            ) {
                                Outcome::Matched(_) => Outcome::Matched(n1 + n2 + n3),
                                other => other,
                            },
                            other => other,
                        },
                        other => other,
                    },
                    other => other,
                },
                other => other,
            }
        ),
{
    reveal(spec_word);
    reveal(spec_many0_bahe);
    reveal(spec_indicators);
    reveal(spec_bu);
    reveal(spec_word_without_indicators);
}

/// One `Word` or more in a row. It is an error if one of them matches
/// without taking a token.
#[verifier::opaque]
pub closed spec fn spec_many1_word(toks: Seq<Token>, pos: nat, selmaho: Selmaho) -> Outcome
    decreases rest(toks, pos), 3nat,
{
    match spec_word(toks, pos, selmaho) {
        Outcome::Matched(len) => if advanced(toks, pos, len) {
            shifted(spec_many1_word_more(toks, pos + len, selmaho), len)
        } else {
            Outcome::Error(combinator_at(pos, ErrorKind::Many1))
        },
        other => other,
    }
}

/// What follows the first `Word` of a row of them.
#[verifier::opaque]
pub closed spec fn spec_many1_word_more(toks: Seq<Token>, pos: nat, selmaho: Selmaho) -> Outcome
    decreases rest(toks, pos), 3nat,
{
    match spec_word(toks, pos, selmaho) {
        Outcome::Matched(len) => if advanced(toks, pos, len) {
            shifted(spec_many1_word_more(toks, pos + len, selmaho), len)
        } else {
            Outcome::Error(combinator_at(pos, ErrorKind::Many1))
        },
        Outcome::Error(_) => Outcome::Matched(0),
        Outcome::Failure(report) => Outcome::Failure(report),
    }
}

/// What [`spec_many1_word`] and [`spec_many1_word_more`] say.
pub proof fn lemma_many1_word(toks: Seq<Token>, pos: nat, selmaho: Selmaho)
    ensures
        spec_many1_word(toks, pos, selmaho) == (match spec_word(toks, pos, selmaho) {
            Outcome::Matched(len) => if advanced(toks, pos, len) {
                shifted(spec_many1_word_more(toks, pos + len, selmaho), len)
            } else {
                Outcome::Error(combinator_at(pos, ErrorKind::Many1))
            },
            other => other,
        }),
        spec_many1_word_more(toks, pos, selmaho) == (match spec_word(toks, pos, selmaho) {
            Outcome::Matched(len) => if advanced(toks, pos, len) {
                shifted(spec_many1_word_more(toks, pos + len, selmaho), len)
            } else {
                Outcome::Error(combinator_at(pos, ErrorKind::Many1))
            },
            Outcome::Error(_) => Outcome::Matched(0),
            Outcome::Failure(report) => Outcome::Failure(report),
        }),
{
    reveal(spec_many1_word);
    reveal(spec_many1_word_more);
    reveal(spec_word);
}

/// ```text
/// WordWithFree <- selmaho Frees
/// ```
#[verifier::opaque]
pub closed spec fn spec_word_with_free(toks: Seq<Token>, pos: nat, selmaho: Selmaho) -> Outcome
    decreases rest(toks, pos), 3nat,
{
    match spec_word(toks, pos, selmaho) {
        Outcome::Matched(n1) => shifted(
            if advanced(toks, pos, n1) {
                spec_frees(toks, pos + n1)
            } else {
                stuck(pos)
            },
            n1,
        ),
        other => other,
    }
}

/// What [`spec_word_with_free`] says.
pub proof fn lemma_word_with_free(toks: Seq<Token>, pos: nat, selmaho: Selmaho)
    ensures
        spec_word_with_free(toks, pos, selmaho) == (
            match spec_word(toks, pos, selmaho) {
                Outcome::Matched(n1) => shifted(
                    if advanced(toks, pos, n1) {
                        spec_frees(toks, pos + n1)
                    } else {
                        stuck(pos)
                    },
                    n1,
                ),
                other => other,
            }
        ),
{
    reveal(spec_word_with_free);
    reveal(spec_word);
    reveal(spec_frees);
}

/// As many `WordWithFree` as match in a row. It is an error if one of them
/// matches without taking a token.
#[verifier::opaque]
pub closed spec fn spec_many0_word_with_free(
    toks: Seq<Token>,
    pos: nat,
    selmaho: Selmaho,
) -> Outcome
    decreases rest(toks, pos), 4nat,
{
    match spec_word_with_free(toks, pos, selmaho) {
        Outcome::Matched(len) => if advanced(toks, pos, len) {
            shifted(spec_many0_word_with_free(toks, pos + len, selmaho), len)
        } else {
            Outcome::Error(combinator_at(pos, ErrorKind::Many0))
        },
        Outcome::Error(_) => Outcome::Matched(0),
        Outcome::Failure(report) => Outcome::Failure(report),
    }
}

/// What [`spec_many0_word_with_free`] says.
pub proof fn lemma_many0_word_with_free(toks: Seq<Token>, pos: nat, selmaho: Selmaho)
    ensures
        spec_many0_word_with_free(
            toks,
            pos,
            selmaho,
        ) == (match spec_word_with_free(toks, pos, selmaho) {
            Outcome::Matched(len) => if advanced(toks, pos, len) {
                shifted(spec_many0_word_with_free(toks, pos + len, selmaho), len)
            } else {
                Outcome::Error(combinator_at(pos, ErrorKind::Many0))
            },
            Outcome::Error(_) => Outcome::Matched(0),
            Outcome::Failure(report) => Outcome::Failure(report),
        }),
{
    reveal(spec_many0_word_with_free);
    reveal(spec_word_with_free);
}

/// ```text
/// Text <- Indicators? Frees ParagraphSeparator? Paragraphs? Faho?
/// ```
#[verifier::opaque]
pub closed spec fn spec_text(toks: Seq<Token>, pos: nat) -> Outcome
    decreases rest(toks, pos), 121nat,
{
    match spec_opt(spec_indicators(toks, pos)) {
        Outcome::Matched(n1) => match spec_frees(toks, pos + n1) {
            Outcome::Matched(n2) => match spec_opt(
                spec_paragraph_separator(toks, pos + n1 + n2),
            ) {
                Outcome::Matched(n3) => match spec_opt(
                    spec_paragraphs(toks, pos + n1 + n2 + n3),
                ) {
                    Outcome::Matched(n4) => shifted(
                        spec_opt(spec_word(toks, pos + n1 + n2 + n3 + n4, Selmaho::Faho)),
                        n1 + n2 + n3 + n4,
                    ),
                    other => other,
                },
                other => other,
            },
            other => other,
        },
        other => other,
    }
}

/// What [`spec_text`] says.
pub proof fn lemma_text(toks: Seq<Token>, pos: nat)
    ensures
        spec_text(toks, pos) == (
            match spec_opt(spec_indicators(toks, pos)) {
                Outcome::Matched(n1) => match spec_frees(toks, pos + n1) {
                    Outcome::Matched(n2) => match spec_opt(
                        spec_paragraph_separator(toks, pos + n1 + n2),
                    ) {
                        Outcome::Matched(n3) => match spec_opt(
                            spec_paragraphs(toks, pos + n1 + n2 + n3),
                        ) {
                            Outcome::Matched(n4) => shifted(
                                spec_opt(spec_word(toks, pos + n1 + n2 + n3 + n4, Selmaho::Faho)),
                                n1 + n2 + n3 + n4,
                            ),
                            other => other,
                        },
                        other => other,
                    },
                    other => other,
                },
                other => other,
            }
        ),
{
    reveal(spec_text);
    reveal(spec_indicators);
    reveal(spec_frees);
    reveal(spec_paragraph_separator);
    reveal(spec_paragraphs);
    reveal(spec_word);
}

/// ```text
/// Indicators <- Fuhe? Indicator+
/// ```
#[verifier::opaque]
pub closed spec fn spec_indicators(toks: Seq<Token>, pos: nat) -> Outcome
    decreases rest(toks, pos), 7nat,
{
    match spec_opt(spec_word_without_indicators(toks, pos, Selmaho::Fuhe)) {
        Outcome::Matched(n1) => shifted(spec_many1_indicator(toks, pos + n1), n1),
        other => other,
    }
}

/// What [`spec_indicators`] says.
pub proof fn lemma_indicators(toks: Seq<Token>, pos: nat)
    ensures
        spec_indicators(toks, pos) == (
            match spec_opt(spec_word_without_indicators(toks, pos, Selmaho::Fuhe)) {
                Outcome::Matched(n1) => shifted(spec_many1_indicator(toks, pos + n1), n1),
                other => other,
            }
        ),
{
    reveal(spec_indicators);
    reveal(spec_word_without_indicators);
    reveal(spec_many1_indicator);
}

/// As many `Indicators` as match in a row. It is an error if one of them
/// matches without taking a token.
#[verifier::opaque]
pub closed spec fn spec_many0_indicators(toks: Seq<Token>, pos: nat) -> Outcome
    decreases rest(toks, pos), 8nat,
{
    match spec_indicators(toks, pos) {
        Outcome::Matched(len) => if advanced(toks, pos, len) {
            shifted(spec_many0_indicators(toks, pos + len), len)
        } else {
            Outcome::Error(combinator_at(pos, ErrorKind::Many0))
        },
        Outcome::Error(_) => Outcome::Matched(0),
        Outcome::Failure(report) => Outcome::Failure(report),
    }
}

/// What [`spec_many0_indicators`] says.
pub proof fn lemma_many0_indicators(toks: Seq<Token>, pos: nat)
    ensures
        spec_many0_indicators(toks, pos) == (match spec_indicators(toks, pos) {
            Outcome::Matched(len) => if advanced(toks, pos, len) {
                shifted(spec_many0_indicators(toks, pos + len), len)
            } else {
                Outcome::Error(combinator_at(pos, ErrorKind::Many0))
            },
            Outcome::Error(_) => Outcome::Matched(0),
            Outcome::Failure(report) => Outcome::Failure(report),
        }),
{
    reveal(spec_many0_indicators);
    reveal(spec_indicators);
}

/// ```text
/// Indicator <- IndicatorChoice !Bu
/// ```
#[verifier::opaque]
pub closed spec fn spec_indicator(toks: Seq<Token>, pos: nat) -> Outcome
    decreases rest(toks, pos), 5nat,
{
    match spec_indicator_choice(toks, pos) {
        Outcome::Matched(n1) => match spec_not(pos + n1, spec_bu(toks, pos + n1)) {
            Outcome::Matched(_) => Outcome::Matched(n1),
            other => other,
        },
        other => other,
    }
}

/// What [`spec_indicator`] says.
pub proof fn lemma_indicator(toks: Seq<Token>, pos: nat)
    ensures
        spec_indicator(toks, pos) == (
            match spec_indicator_choice(toks, pos) {
                Outcome::Matched(n1) => match spec_not(pos + n1, spec_bu(toks, pos + n1)) {
                    Outcome::Matched(_) => Outcome::Matched(n1),
                    other => other,
                },
                other => other,
            }
        ),
{
    reveal(spec_indicator);
    reveal(spec_indicator_choice);
    reveal(spec_bu);
}

/// One `Indicator` or more in a row. It is an error if one of them matches
/// without taking a token.
#[verifier::opaque]
pub closed spec fn spec_many1_indicator(toks: Seq<Token>, pos: nat) -> Outcome
    decreases rest(toks, pos), 6nat,
{
    match spec_indicator(toks, pos) {
        Outcome::Matched(len) => if advanced(toks, pos, len) {
            shifted(spec_many1_indicator_more(toks, pos + len), len)
        } else {
            Outcome::Error(combinator_at(pos, ErrorKind::Many1))
        },
        other => other,
    }
}

/// What follows the first `Indicator` of a row of them.
#[verifier::opaque]
pub closed spec fn spec_many1_indicator_more(toks: Seq<Token>, pos: nat) -> Outcome
    decreases rest(toks, pos), 6nat,
{
    match spec_indicator(toks, pos) {
        Outcome::Matched(len) => if advanced(toks, pos, len) {
            shifted(spec_many1_indicator_more(toks, pos + len), len)
        } else {
            Outcome::Error(combinator_at(pos, ErrorKind::Many1))
        },
        Outcome::Error(_) => Outcome::Matched(0),
        Outcome::Failure(report) => Outcome::Failure(report),
    }
}

/// What [`spec_many1_indicator`] and [`spec_many1_indicator_more`] say.
pub proof fn lemma_many1_indicator(toks: Seq<Token>, pos: nat)
    ensures
        spec_many1_indicator(toks, pos) == (match spec_indicator(toks, pos) {
            Outcome::Matched(len) => if advanced(toks, pos, len) {
                shifted(spec_many1_indicator_more(toks, pos + len), len)
            } else {
                Outcome::Error(combinator_at(pos, ErrorKind::Many1))
            },
            other => other,
        }),
        spec_many1_indicator_more(toks, pos) == (match spec_indicator(toks, pos) {
            Outcome::Matched(len) => if advanced(toks, pos, len) {
                shifted(spec_many1_indicator_more(toks, pos + len), len)
            } else {
                Outcome::Error(combinator_at(pos, ErrorKind::Many1))
            },
            Outcome::Error(_) => Outcome::Matched(0),
            Outcome::Failure(report) => Outcome::Failure(report),
        }),
{
    reveal(spec_many1_indicator);
    reveal(spec_many1_indicator_more);
    reveal(spec_indicator);
}

/// ```text
/// IndicatorChoice <- IndicatorUi / IndicatorCai / IndicatorNai / IndicatorDaho /
///     IndicatorFuho / IndicatorY
/// ```
#[verifier::opaque]
pub closed spec fn spec_indicator_choice(toks: Seq<Token>, pos: nat) -> Outcome
    decreases rest(toks, pos), 4nat,
{
    spec_alt(
        spec_alt(
            spec_alt(
                spec_alt(
                    spec_alt(spec_indicator_ui(toks, pos), spec_indicator_cai(toks, pos)),
                    spec_indicator_nai(toks, pos),
                ),
                spec_indicator_daho(toks, pos),
            ),
            spec_indicator_fuho(toks, pos),
        ),
        spec_indicator_y(toks, pos),
    )
}

/// What [`spec_indicator_choice`] says.
pub proof fn lemma_indicator_choice(toks: Seq<Token>, pos: nat)
    ensures
        spec_indicator_choice(toks, pos) == (
            spec_alt(
                spec_alt(
                    spec_alt(
                        spec_alt(
                            spec_alt(spec_indicator_ui(toks, pos), spec_indicator_cai(toks, pos)),
                            spec_indicator_nai(toks, pos),
                        ),
                        spec_indicator_daho(toks, pos),
                    ),
                    spec_indicator_fuho(toks, pos),
                ),
                spec_indicator_y(toks, pos),
            )
        ),
{
    reveal(spec_indicator_choice);
    reveal(spec_indicator_ui);
    reveal(spec_indicator_cai);
    reveal(spec_indicator_nai);
    reveal(spec_indicator_daho);
    reveal(spec_indicator_fuho);
    reveal(spec_indicator_y);
}

/// ```text
/// IndicatorUi <- Ui
/// ```
#[verifier::opaque]
pub closed spec fn spec_indicator_ui(toks: Seq<Token>, pos: nat) -> Outcome
    decreases rest(toks, pos), 3nat,
{
    spec_word(toks, pos, Selmaho::Ui)
}

/// What [`spec_indicator_ui`] says.
pub proof fn lemma_indicator_ui(toks: Seq<Token>, pos: nat)
    ensures
        spec_indicator_ui(toks, pos) == (
            spec_word(toks, pos, Selmaho::Ui)
        ),
{
    reveal(spec_indicator_ui);
    reveal(spec_word);
}

/// ```text
/// IndicatorCai <- Cai
/// ```
#[verifier::opaque]
pub closed spec fn spec_indicator_cai(toks: Seq<Token>, pos: nat) -> Outcome
    decreases rest(toks, pos), 3nat,
{
    spec_word(toks, pos, Selmaho::Cai)
}

/// What [`spec_indicator_cai`] says.
pub proof fn lemma_indicator_cai(toks: Seq<Token>, pos: nat)
    ensures
        spec_indicator_cai(toks, pos) == (
            spec_word(toks, pos, Selmaho::Cai)
        ),
{
    reveal(spec_indicator_cai);
    reveal(spec_word);
}

/// ```text
/// IndicatorNai <- Nai
/// ```
#[verifier::opaque]
pub closed spec fn spec_indicator_nai(toks: Seq<Token>, pos: nat) -> Outcome
    decreases rest(toks, pos), 3nat,
{
    spec_word(toks, pos, Selmaho::Nai)
}

/// What [`spec_indicator_nai`] says.
pub proof fn lemma_indicator_nai(toks: Seq<Token>, pos: nat)
    ensures
        spec_indicator_nai(toks, pos) == (
            spec_word(toks, pos, Selmaho::Nai)
        ),
{
    reveal(spec_indicator_nai);
    reveal(spec_word);
}

/// ```text
/// IndicatorDaho <- Daho
/// ```
#[verifier::opaque]
pub closed spec fn spec_indicator_daho(toks: Seq<Token>, pos: nat) -> Outcome
    decreases rest(toks, pos), 3nat,
{
    spec_word(toks, pos, Selmaho::Daho)
}

/// What [`spec_indicator_daho`] says.
pub proof fn lemma_indicator_daho(toks: Seq<Token>, pos: nat)
    ensures
        spec_indicator_daho(toks, pos) == (
            spec_word(toks, pos, Selmaho::Daho)
        ),
{
    reveal(spec_indicator_daho);
    reveal(spec_word);
}

/// ```text
/// IndicatorFuho <- Fuho
/// ```
#[verifier::opaque]
pub closed spec fn spec_indicator_fuho(toks: Seq<Token>, pos: nat) -> Outcome
    decreases rest(toks, pos), 3nat,
{
    spec_word(toks, pos, Selmaho::Fuho)
}

/// What [`spec_indicator_fuho`] says.
pub proof fn lemma_indicator_fuho(toks: Seq<Token>, pos: nat)
    ensures
        spec_indicator_fuho(toks, pos) == (
            spec_word(toks, pos, Selmaho::Fuho)
        ),
{
    reveal(spec_indicator_fuho);
    reveal(spec_word);
}

/// ```text
/// IndicatorY <- Y
/// ```
#[verifier::opaque]
pub closed spec fn spec_indicator_y(toks: Seq<Token>, pos: nat) -> Outcome
    decreases rest(toks, pos), 3nat,
{
    spec_word(toks, pos, Selmaho::Y)
}

/// What [`spec_indicator_y`] says.
pub proof fn lemma_indicator_y(toks: Seq<Token>, pos: nat)
    ensures
        spec_indicator_y(toks, pos) == (
            spec_word(toks, pos, Selmaho::Y)
        ),
{
    reveal(spec_indicator_y);
    reveal(spec_word);
}

/// ```text
/// Frees <- Free*
/// ```
#[verifier::opaque]
pub closed spec fn spec_frees(toks: Seq<Token>, pos: nat) -> Outcome
    decreases rest(toks, pos), 24nat,
{
    spec_many0_free(toks, pos)
}

/// What [`spec_frees`] says.
pub proof fn lemma_frees(toks: Seq<Token>, pos: nat)
    ensures
        spec_frees(toks, pos) == (
            spec_many0_free(toks, pos)
        ),
{
    reveal(spec_frees);
    reveal(spec_many0_free);
}

/// ```text
/// Free <- FreeSei / FreeSoi / FreeVocative / FreeMai / FreeTo / FreeXi
/// ```
#[verifier::opaque]
pub closed spec fn spec_free(toks: Seq<Token>, pos: nat) -> Outcome
    decreases rest(toks, pos), 22nat,
{
    spec_alt(
        spec_alt(
            spec_alt(
                spec_alt(
                    spec_alt(spec_free_sei(toks, pos), spec_free_soi(toks, pos)),
                    spec_free_vocative(toks, pos),
                ),
                spec_free_mai(toks, pos),
            ),
            spec_free_to(toks, pos),
        ),
        spec_free_xi(toks, pos),
    )
}

/// What [`spec_free`] says.
pub proof fn lemma_free(toks: Seq<Token>, pos: nat)
    ensures
        spec_free(toks, pos) == (
            spec_alt(
                spec_alt(
                    spec_alt(
                        spec_alt(
                            spec_alt(spec_free_sei(toks, pos), spec_free_soi(toks, pos)),
                            spec_free_vocative(toks, pos),
                        ),
                        spec_free_mai(toks, pos),
                    ),
                    spec_free_to(toks, pos),
                ),
                spec_free_xi(toks, pos),
            )
        ),
{
    reveal(spec_free);
    reveal(spec_free_sei);
    reveal(spec_free_soi);
    reveal(spec_free_vocative);
    reveal(spec_free_mai);
    reveal(spec_free_to);
    reveal(spec_free_xi);
}

/// As many `Free` as match in a row. It is an error if one of them
/// matches without taking a token.
#[verifier::opaque]
pub closed spec fn spec_many0_free(toks: Seq<Token>, pos: nat) -> Outcome
    decreases rest(toks, pos), 23nat,
{
    match spec_free(toks, pos) {
        Outcome::Matched(len) => if advanced(toks, pos, len) {
            shifted(spec_many0_free(toks, pos + len), len)
        } else {
            Outcome::Error(combinator_at(pos, ErrorKind::Many0))
        },
        Outcome::Error(_) => Outcome::Matched(0),
        Outcome::Failure(report) => Outcome::Failure(report),
    }
}

/// What [`spec_many0_free`] says.
pub proof fn lemma_many0_free(toks: Seq<Token>, pos: nat)
    ensures
        spec_many0_free(toks, pos) == (match spec_free(toks, pos) {
            Outcome::Matched(len) => if advanced(toks, pos, len) {
                shifted(spec_many0_free(toks, pos + len), len)
            } else {
                Outcome::Error(combinator_at(pos, ErrorKind::Many0))
            },
            Outcome::Error(_) => Outcome::Matched(0),
            Outcome::Failure(report) => Outcome::Failure(report),
        }),
{
    reveal(spec_many0_free);
    reveal(spec_free);
}

/// ```text
/// FreeSei <- Sei Frees Args SeiTail? Sehu Frees?
/// ```
#[verifier::opaque]
pub closed spec fn spec_free_sei(toks: Seq<Token>, pos: nat) -> Outcome
    decreases rest(toks, pos), 4nat,
{
    match spec_word_with_free(toks, pos, Selmaho::Sei) {
        Outcome::Matched(n1) => match (if advanced(toks, pos, n1) {
            spec_args(toks, pos + n1)
        } else {
            stuck(pos)
        }) {
            Outcome::Matched(n2) => match (if advanced(toks, pos, n1 + n2) {
                spec_opt(spec_sei_tail(toks, pos + n1 + n2))
            } else {
                stuck(pos)
            }) {
                Outcome::Matched(n3) => shifted(
                    spec_opt(spec_word_with_free(toks, pos + n1 + n2 + n3, Selmaho::Sehu)),
                    n1 + n2 + n3,
                ),
                other => other,
            },
            other => other,
        },
        other => other,
    }
}

/// What [`spec_free_sei`] says.
pub proof fn lemma_free_sei(toks: Seq<Token>, pos: nat)
    ensures
        spec_free_sei(toks, pos) == (
            match spec_word_with_free(toks, pos, Selmaho::Sei) {
                Outcome::Matched(n1) => match (if advanced(toks, pos, n1) {
                    spec_args(toks, pos + n1)
                } else {
                    stuck(pos)
                }) {
                    Outcome::Matched(n2) => match (if advanced(toks, pos, n1 + n2) {
                        spec_opt(spec_sei_tail(toks, pos + n1 + n2))
                    } else {
                        stuck(pos)
                    }) {
                        Outcome::Matched(n3) => shifted(
                            spec_opt(
                                spec_word_with_free(toks, pos + n1 + n2 + n3, Selmaho::Sehu),
                            ),
                            n1 + n2 + n3,
                        ),
                        other => other,
                    },
                    other => other,
                },
                other => other,
            }
        ),
{
    reveal(spec_free_sei);
    reveal(spec_word_with_free);
    reveal(spec_args);
    reveal(spec_sei_tail);
}

/// ```text
/// Args <- Arg*
/// ```
#[verifier::opaque]
pub closed spec fn spec_args(toks: Seq<Token>, pos: nat) -> Outcome
    decreases rest(toks, pos), 61nat,
{
    spec_many0_arg(toks, pos)
}

/// What [`spec_args`] says.
pub proof fn lemma_args(toks: Seq<Token>, pos: nat)
    ensures
        spec_args(toks, pos) == (
            spec_many0_arg(toks, pos)
        ),
{
    reveal(spec_args);
    reveal(spec_many0_arg);
}

/// ```text
/// Arg <- Arg1 ArgConnectedPost*
/// ```
#[verifier::opaque]
pub closed spec fn spec_arg(toks: Seq<Token>, pos: nat) -> Outcome
    decreases rest(toks, pos), 59nat,
{
    match spec_arg_1(toks, pos) {
        Outcome::Matched(n1) => shifted(spec_many0_arg_connected_post(toks, pos + n1), n1),
        other => other,
    }
}

/// What [`spec_arg`] says.
pub proof fn lemma_arg(toks: Seq<Token>, pos: nat)
    ensures
        spec_arg(toks, pos) == (
            match spec_arg_1(toks, pos) {
                Outcome::Matched(n1) => shifted(
                    spec_many0_arg_connected_post(toks, pos + n1),
                    n1,
                ),
                other => other,
            }
        ),
{
    reveal(spec_arg);
    reveal(spec_arg_1);
    reveal(spec_many0_arg_connected_post);
}

/// As many `Arg` as match in a row. It is an error if one of them
/// matches without taking a token.
#[verifier::opaque]
pub closed spec fn spec_many0_arg(toks: Seq<Token>, pos: nat) -> Outcome
    decreases rest(toks, pos), 60nat,
{
    match spec_arg(toks, pos) {
        Outcome::Matched(len) => if advanced(toks, pos, len) {
            shifted(spec_many0_arg(toks, pos + len), len)
        } else {
            Outcome::Error(combinator_at(pos, ErrorKind::Many0))
        },
        Outcome::Error(_) => Outcome::Matched(0),
        Outcome::Failure(report) => Outcome::Failure(report),
    }
}

/// What [`spec_many0_arg`] says.
pub proof fn lemma_many0_arg(toks: Seq<Token>, pos: nat)
    ensures
        spec_many0_arg(toks, pos) == (match spec_arg(toks, pos) {
            Outcome::Matched(len) => if advanced(toks, pos, len) {
                shifted(spec_many0_arg(toks, pos + len), len)
            } else {
                Outcome::Error(combinator_at(pos, ErrorKind::Many0))
            },
            Outcome::Error(_) => Outcome::Matched(0),
            Outcome::Failure(report) => Outcome::Failure(report),
        }),
{
    reveal(spec_many0_arg);
    reveal(spec_arg);
}

/// ```text
/// Arg1 <- Arg2 Arg1Next*
/// ```
#[verifier::opaque]
pub closed spec fn spec_arg_1(toks: Seq<Token>, pos: nat) -> Outcome
    decreases rest(toks, pos), 55nat,
{
    match spec_arg_2(toks, pos) {
        Outcome::Matched(n1) => shifted(spec_many0_arg_1_next(toks, pos + n1), n1),
        other => other,
    }
}

/// What [`spec_arg_1`] says.
pub proof fn lemma_arg_1(toks: Seq<Token>, pos: nat)
    ensures
        spec_arg_1(toks, pos) == (
            match spec_arg_2(toks, pos) {
                Outcome::Matched(n1) => shifted(spec_many0_arg_1_next(toks, pos + n1), n1),
                other => other,
            }
        ),
{
    reveal(spec_arg_1);
    reveal(spec_arg_2);
    reveal(spec_many0_arg_1_next);
}

/// ```text
/// Arg2 <- Arg3 Arg2Next*
/// ```
#[verifier::opaque]
pub closed spec fn spec_arg_2(toks: Seq<Token>, pos: nat) -> Outcome
    decreases rest(toks, pos), 52nat,
{
    match spec_arg_3(toks, pos) {
        Outcome::Matched(n1) => shifted(spec_many0_arg_2_next(toks, pos + n1), n1),
        other => other,
    }
}

/// What [`spec_arg_2`] says.
pub proof fn lemma_arg_2(toks: Seq<Token>, pos: nat)
    ensures
        spec_arg_2(toks, pos) == (
            match spec_arg_3(toks, pos) {
                Outcome::Matched(n1) => shifted(spec_many0_arg_2_next(toks, pos + n1), n1),
                other => other,
            }
        ),
{
    reveal(spec_arg_2);
    reveal(spec_arg_3);
    reveal(spec_many0_arg_2_next);
}

/// ```text
/// Arg3 <- Arg3Tag / Arg3Sumti / Arg3Naku / Arg3Termset
/// ```
#[verifier::opaque]
pub closed spec fn spec_arg_3(toks: Seq<Token>, pos: nat) -> Outcome
    decreases rest(toks, pos), 49nat,
{
    spec_alt(
        spec_alt(
            spec_alt(spec_arg_3_tag(toks, pos), spec_arg_3_sumti(toks, pos)),
            spec_arg_3_naku(toks, pos),
        ),
        spec_arg_3_termset(toks, pos),
    )
}

/// What [`spec_arg_3`] says.
pub proof fn lemma_arg_3(toks: Seq<Token>, pos: nat)
    ensures
        spec_arg_3(toks, pos) == (
            spec_alt(
                spec_alt(
                    spec_alt(spec_arg_3_tag(toks, pos), spec_arg_3_sumti(toks, pos)),
                    spec_arg_3_naku(toks, pos),
                ),
                spec_arg_3_termset(toks, pos),
            )
        ),
{
    reveal(spec_arg_3);
    reveal(spec_arg_3_tag);
    reveal(spec_arg_3_sumti);
    reveal(spec_arg_3_naku);
    reveal(spec_arg_3_termset);
}

/// ```text
/// Arg3Tag <- Tag
/// ```
#[verifier::opaque]
pub closed spec fn spec_arg_3_tag(toks: Seq<Token>, pos: nat) -> Outcome
    decreases rest(toks, pos), 48nat,
{
    spec_tag(toks, pos)
}

/// What [`spec_arg_3_tag`] says.
pub proof fn lemma_arg_3_tag(toks: Seq<Token>, pos: nat)
    ensures
        spec_arg_3_tag(toks, pos) == (
            spec_tag(toks, pos)
        ),
{
    reveal(spec_arg_3_tag);
    reveal(spec_tag);
}

/// ```text
/// Tag <- TagWords !Gik !Ke TagValue?
/// ```
#[verifier::opaque]
pub closed spec fn spec_tag(toks: Seq<Token>, pos: nat) -> Outcome
    decreases rest(toks, pos), 47nat,
{
    match spec_tag_words(toks, pos) {
        Outcome::Matched(n1) => match spec_not(pos + n1, spec_gik(toks, pos + n1)) {
            Outcome::Matched(_) => match spec_not(
                pos + n1,
                spec_word(toks, pos + n1, Selmaho::Ke),
            ) {
                Outcome::Matched(_) => shifted(spec_opt(spec_tag_value(toks, pos + n1)), n1),
                other => other,
            },
            other => other,
        },
        other => other,
    }
}

/// What [`spec_tag`] says.
pub proof fn lemma_tag(toks: Seq<Token>, pos: nat)
    ensures
        spec_tag(toks, pos) == (
            match spec_tag_words(toks, pos) {
                Outcome::Matched(n1) => match spec_not(pos + n1, spec_gik(toks, pos + n1)) {
                    Outcome::Matched(_) => match spec_not(
                        pos + n1,
                        spec_word(toks, pos + n1, Selmaho::Ke),
                    ) {
                        Outcome::Matched(_) => shifted(
                            spec_opt(spec_tag_value(toks, pos + n1)),
                            n1,
                        ),
                        other => other,
                    },
                    other => other,
                },
                other => other,
            }
        ),
{
    reveal(spec_tag);
    reveal(spec_tag_words);
    reveal(spec_gik);
    reveal(spec_word);
    reveal(spec_tag_value);
}

/// ```text
/// TagWords <- TagWord TagWordsNext*
/// ```
#[verifier::opaque]
pub closed spec fn spec_tag_words(toks: Seq<Token>, pos: nat) -> Outcome
    decreases rest(toks, pos), 31nat,
{
    match spec_tag_word(toks, pos) {
        Outcome::Matched(n1) => shifted(spec_many0_tag_words_next(toks, pos + n1), n1),
        other => other,
    }
}

/// What [`spec_tag_words`] says.
pub proof fn lemma_tag_words(toks: Seq<Token>, pos: nat)
    ensures
        spec_tag_words(toks, pos) == (
            match spec_tag_word(toks, pos) {
                Outcome::Matched(n1) => shifted(spec_many0_tag_words_next(toks, pos + n1), n1),
                other => other,
            }
        ),
{
    reveal(spec_tag_words);
    reveal(spec_tag_word);
    reveal(spec_many0_tag_words_next);
}

/// ```text
/// TagWord <- TagWordBai / TagWordTimeSpaceCaha / TagWordKi / TagWordCuhe /
///     TagWordConverted
/// ```
#[verifier::opaque]
pub closed spec fn spec_tag_word(toks: Seq<Token>, pos: nat) -> Outcome
    decreases rest(toks, pos), 28nat,
{
    spec_alt(
        spec_alt(
            spec_alt(
                spec_alt(spec_tag_word_bai(toks, pos), spec_tag_word_time_space_caha(toks, pos)),
                spec_tag_word_ki(toks, pos),
            ),
            spec_tag_word_cuhe(toks, pos),
        ),
        spec_tag_word_converted(toks, pos),
    )
}

/// What [`spec_tag_word`] says.
pub proof fn lemma_tag_word(toks: Seq<Token>, pos: nat)
    ensures
        spec_tag_word(toks, pos) == (
            spec_alt(
                spec_alt(
                    spec_alt(
                        spec_alt(
                            spec_tag_word_bai(toks, pos),
                            spec_tag_word_time_space_caha(toks, pos),
                        ),
                        spec_tag_word_ki(toks, pos),
                    ),
                    spec_tag_word_cuhe(toks, pos),
                ),
                spec_tag_word_converted(toks, pos),
            )
        ),
{
    reveal(spec_tag_word);
    reveal(spec_tag_word_bai);
    reveal(spec_tag_word_time_space_caha);
    reveal(spec_tag_word_ki);
    reveal(spec_tag_word_cuhe);
    reveal(spec_tag_word_converted);
}

/// ```text
/// TagWordBai <- Nahe? Se? Bai Nai? Ki? Frees
/// ```
#[verifier::opaque]
pub closed spec fn spec_tag_word_bai(toks: Seq<Token>, pos: nat) -> Outcome
    decreases rest(toks, pos), 25nat,
{
    match spec_opt(spec_word(toks, pos, Selmaho::Nahe)) {
        Outcome::Matched(n1) => match spec_opt(spec_word(toks, pos + n1, Selmaho::Se)) {
            Outcome::Matched(n2) => match spec_word(toks, pos + n1 + n2, Selmaho::Bai) {
                Outcome::Matched(n3) => match spec_opt(
                    spec_word(toks, pos + n1 + n2 + n3, Selmaho::Nai),
                ) {
                    Outcome::Matched(n4) => match spec_opt(
                        spec_word(toks, pos + n1 + n2 + n3 + n4, Selmaho::Ki),
                    ) {
                        Outcome::Matched(n5) => shifted(
                            spec_frees(toks, pos + n1 + n2 + n3 + n4 + n5),
                            n1 + n2 + n3 + n4 + n5,
                        ),
                        other => other,
                    },
                    other => other,
                },
                other => other,
            },
            other => other,
        },
        other => other,
    }
}

/// What [`spec_tag_word_bai`] says.
pub proof fn lemma_tag_word_bai(toks: Seq<Token>, pos: nat)
    ensures
        spec_tag_word_bai(toks, pos) == (
            match spec_opt(spec_word(toks, pos, Selmaho::Nahe)) {
                Outcome::Matched(n1) => match spec_opt(spec_word(toks, pos + n1, Selmaho::Se)) {
                    Outcome::Matched(n2) => match spec_word(toks, pos + n1 + n2, Selmaho::Bai) {
                        Outcome::Matched(n3) => match spec_opt(
                            spec_word(toks, pos + n1 + n2 + n3, Selmaho::Nai),
                        ) {
                            Outcome::Matched(n4) => match spec_opt(
                                spec_word(toks, pos + n1 + n2 + n3 + n4, Selmaho::Ki),
                            ) {
                                Outcome::Matched(n5) => shifted(
                                    spec_frees(toks, pos + n1 + n2 + n3 + n4 + n5),
                                    n1 + n2 + n3 + n4 + n5,
                                ),
                                other => other,
                            },
                            other => other,
                        },
                        other => other,
                    },
                    other => other,
                },
                other => other,
            }
        ),
{
    reveal(spec_tag_word_bai);
    reveal(spec_word);
    reveal(spec_frees);
}

/// ```text
/// TagWordTimeSpaceCaha <- Nahe? TimeSpaceCaha+ Ki? Frees
/// ```
#[verifier::opaque]
pub closed spec fn spec_tag_word_time_space_caha(toks: Seq<Token>, pos: nat) -> Outcome
    decreases rest(toks, pos), 27nat,
{
    match spec_opt(spec_word(toks, pos, Selmaho::Nahe)) {
        Outcome::Matched(n1) => match spec_many1_time_space_caha(toks, pos + n1) {
            Outcome::Matched(n2) => match spec_opt(spec_word(toks, pos + n1 + n2, Selmaho::Ki)) {
                Outcome::Matched(n3) => shifted(
                    spec_frees(toks, pos + n1 + n2 + n3),
                    n1 + n2 + n3,
                ),
                other => other,
            },
            other => other,
        },
        other => other,
    }
}

/// What [`spec_tag_word_time_space_caha`] says.
pub proof fn lemma_tag_word_time_space_caha(toks: Seq<Token>, pos: nat)
    ensures
        spec_tag_word_time_space_caha(toks, pos) == (
            match spec_opt(spec_word(toks, pos, Selmaho::Nahe)) {
                Outcome::Matched(n1) => match spec_many1_time_space_caha(toks, pos + n1) {
                    Outcome::Matched(n2) => match spec_opt(
                        spec_word(toks, pos + n1 + n2, Selmaho::Ki),
                    ) {
                        Outcome::Matched(n3) => shifted(
                            spec_frees(toks, pos + n1 + n2 + n3),
                            n1 + n2 + n3,
                        ),
                        other => other,
                    },
                    other => other,
                },
                other => other,
            }
        ),
{
    reveal(spec_tag_word_time_space_caha);
    reveal(spec_word);
    reveal(spec_many1_time_space_caha);
    reveal(spec_frees);
}

/// ```text
/// TimeSpaceCaha <- TimeSpaceCahaTime / TimeSpaceCahaSpace / TimeSpaceCahaCaha
/// ```
#[verifier::opaque]
pub closed spec fn spec_time_space_caha(toks: Seq<Token>, pos: nat) -> Outcome
    decreases rest(toks, pos), 25nat,
{
    spec_alt(
        spec_alt(
            spec_time_space_caha_time(toks, pos),
            spec_time_space_caha_space(toks, pos),
        ),
        spec_time_space_caha_caha(toks, pos),
    )
}

/// What [`spec_time_space_caha`] says.
pub proof fn lemma_time_space_caha(toks: Seq<Token>, pos: nat)
    ensures
        spec_time_space_caha(toks, pos) == (
            spec_alt(
                spec_alt(
                    spec_time_space_caha_time(toks, pos),
                    spec_time_space_caha_space(toks, pos),
                ),
                spec_time_space_caha_caha(toks, pos),
            )
        ),
{
    reveal(spec_time_space_caha);
    reveal(spec_time_space_caha_time);
    reveal(spec_time_space_caha_space);
    reveal(spec_time_space_caha_caha);
}

/// One `TimeSpaceCaha` or more in a row. It is an error if one of them matches
/// without taking a token.
#[verifier::opaque]
pub closed spec fn spec_many1_time_space_caha(toks: Seq<Token>, pos: nat) -> Outcome
    decreases rest(toks, pos), 26nat,
{
    match spec_time_space_caha(toks, pos) {
        Outcome::Matched(len) => if advanced(toks, pos, len) {
            shifted(spec_many1_time_space_caha_more(toks, pos + len), len)
        } else {
            Outcome::Error(combinator_at(pos, ErrorKind::Many1))
        },
        other => other,
    }
}

/// What follows the first `TimeSpaceCaha` of a row of them.
#[verifier::opaque]
pub closed spec fn spec_many1_time_space_caha_more(toks: Seq<Token>, pos: nat) -> Outcome
    decreases rest(toks, pos), 26nat,
{
    match spec_time_space_caha(toks, pos) {
        Outcome::Matched(len) => if advanced(toks, pos, len) {
            shifted(spec_many1_time_space_caha_more(toks, pos + len), len)
        } else {
            Outcome::Error(combinator_at(pos, ErrorKind::Many1))
        },
        Outcome::Error(_) => Outcome::Matched(0),
        Outcome::Failure(report) => Outcome::Failure(report),
    }
}

/// What [`spec_many1_time_space_caha`] and [`spec_many1_time_space_caha_more`] say.
pub proof fn lemma_many1_time_space_caha(toks: Seq<Token>, pos: nat)
    ensures
        spec_many1_time_space_caha(toks, pos) == (match spec_time_space_caha(toks, pos) {
            Outcome::Matched(len) => if advanced(toks, pos, len) {
                shifted(spec_many1_time_space_caha_more(toks, pos + len), len)
            } else {
                Outcome::Error(combinator_at(pos, ErrorKind::Many1))
            },
            other => other,
        }),
        spec_many1_time_space_caha_more(toks, pos) == (match spec_time_space_caha(toks, pos) {
            Outcome::Matched(len) => if advanced(toks, pos, len) {
                shifted(spec_many1_time_space_caha_more(toks, pos + len), len)
            } else {
                Outcome::Error(combinator_at(pos, ErrorKind::Many1))
            },
            Outcome::Error(_) => Outcome::Matched(0),
            Outcome::Failure(report) => Outcome::Failure(report),
        }),
{
    reveal(spec_many1_time_space_caha);
    reveal(spec_many1_time_space_caha_more);
    reveal(spec_time_space_caha);
}

/// ```text
/// TimeSpaceCahaTime <- Time
/// ```
#[verifier::opaque]
pub closed spec fn spec_time_space_caha_time(toks: Seq<Token>, pos: nat) -> Outcome
    decreases rest(toks, pos), 21nat,
{
    spec_time(toks, pos)
}

/// What [`spec_time_space_caha_time`] says.
pub proof fn lemma_time_space_caha_time(toks: Seq<Token>, pos: nat)
    ensures
        spec_time_space_caha_time(toks, pos) == (
            spec_time(toks, pos)
        ),
{
    reveal(spec_time_space_caha_time);
    reveal(spec_time);
}

/// ```text
/// Time <- (Zi? TimeOffset* TimeDuration? IntervalProperty*) that takes a token
/// ```
#[verifier::opaque]
pub closed spec fn spec_time(toks: Seq<Token>, pos: nat) -> Outcome
    decreases rest(toks, pos), 20nat,
{
    spec_must_consume(
        match spec_opt(spec_word(toks, pos, Selmaho::Zi)) {
            Outcome::Matched(n1) => match spec_many0_time_offset(toks, pos + n1) {
                Outcome::Matched(n2) => match spec_opt(spec_time_duration(toks, pos + n1 + n2)) {
                    Outcome::Matched(n3) => shifted(
                        spec_many0_interval_property(toks, pos + n1 + n2 + n3),
                        n1 + n2 + n3,
                    ),
                    other => other,
                },
                other => other,
            },
            other => other,
        },
        condition_at(pos, "a time without any part"),
    )
}

/// What [`spec_time`] says.
pub proof fn lemma_time(toks: Seq<Token>, pos: nat)
    ensures
        spec_time(toks, pos) == (
            spec_must_consume(
                match spec_opt(spec_word(toks, pos, Selmaho::Zi)) {
                    Outcome::Matched(n1) => match spec_many0_time_offset(toks, pos + n1) {
                        Outcome::Matched(n2) => match spec_opt(
                            spec_time_duration(toks, pos + n1 + n2),
                        ) {
                            Outcome::Matched(n3) => shifted(
                                spec_many0_interval_property(toks, pos + n1 + n2 + n3),
                                n1 + n2 + n3,
                            ),
                            other => other,
                        },
                        other => other,
                    },
                    other => other,
                },
                condition_at(pos, "a time without any part"),
            )
        ),
{
    reveal(spec_time);
    reveal(spec_word);
    reveal(spec_many0_time_offset);
    reveal(spec_time_duration);
    reveal(spec_many0_interval_property);
}

/// ```text
/// TimeOffset <- Pu Nai? Zi?
/// ```
#[verifier::opaque]
pub closed spec fn spec_time_offset(toks: Seq<Token>, pos: nat) -> Outcome
    decreases rest(toks, pos), 3nat,
{
    match spec_word(toks, pos, Selmaho::Pu) {
        Outcome::Matched(n1) => match spec_opt(spec_word(toks, pos + n1, Selmaho::Nai)) {
            Outcome::Matched(n2) => shifted(
                spec_opt(spec_word(toks, pos + n1 + n2, Selmaho::Zi)),
                n1 + n2,
            ),
            other => other,
        },
        other => other,
    }
}

/// What [`spec_time_offset`] says.
pub proof fn lemma_time_offset(toks: Seq<Token>, pos: nat)
    ensures
        spec_time_offset(toks, pos) == (
            match spec_word(toks, pos, Selmaho::Pu) {
                Outcome::Matched(n1) => match spec_opt(spec_word(toks, pos + n1, Selmaho::Nai)) {
                    Outcome::Matched(n2) => shifted(
                        spec_opt(spec_word(toks, pos + n1 + n2, Selmaho::Zi)),
                        n1 + n2,
                    ),
                    other => other,
                },
                other => other,
            }
        ),
{
    reveal(spec_time_offset);
    reveal(spec_word);
}

/// As many `TimeOffset` as match in a row. It is an error if one of them
/// matches without taking a token.
#[verifier::opaque]
pub closed spec fn spec_many0_time_offset(toks: Seq<Token>, pos: nat) -> Outcome
    decreases rest(toks, pos), 4nat,
{
    match spec_time_offset(toks, pos) {
        Outcome::Matched(len) => if advanced(toks, pos, len) {
            shifted(spec_many0_time_offset(toks, pos + len), len)
        } else {
            Outcome::Error(combinator_at(pos, ErrorKind::Many0))
        },
        Outcome::Error(_) => Outcome::Matched(0),
        Outcome::Failure(report) => Outcome::Failure(report),
    }
}

/// What [`spec_many0_time_offset`] says.
pub proof fn lemma_many0_time_offset(toks: Seq<Token>, pos: nat)
    ensures
        spec_many0_time_offset(toks, pos) == (match spec_time_offset(toks, pos) {
            Outcome::Matched(len) => if advanced(toks, pos, len) {
                shifted(spec_many0_time_offset(toks, pos + len), len)
            } else {
                Outcome::Error(combinator_at(pos, ErrorKind::Many0))
            },
            Outcome::Error(_) => Outcome::Matched(0),
            Outcome::Failure(report) => Outcome::Failure(report),
        }),
{
    reveal(spec_many0_time_offset);
    reveal(spec_time_offset);
}

/// ```text
/// TimeDuration <- Zeha PuNai?
/// ```
#[verifier::opaque]
pub closed spec fn spec_time_duration(toks: Seq<Token>, pos: nat) -> Outcome
    decreases rest(toks, pos), 4nat,
{
    match spec_word(toks, pos, Selmaho::Zeha) {
        Outcome::Matched(n1) => shifted(spec_opt(spec_pu_nai(toks, pos + n1)), n1),
        other => other,
    }
}

/// What [`spec_time_duration`] says.
pub proof fn lemma_time_duration(toks: Seq<Token>, pos: nat)
    ensures
        spec_time_duration(toks, pos) == (
            match spec_word(toks, pos, Selmaho::Zeha) {
                Outcome::Matched(n1) => shifted(spec_opt(spec_pu_nai(toks, pos + n1)), n1),
                other => other,
            }
        ),
{
    reveal(spec_time_duration);
    reveal(spec_word);
    reveal(spec_pu_nai);
}

/// ```text
/// PuNai <- Pu Nai?
/// ```
#[verifier::opaque]
pub closed spec fn spec_pu_nai(toks: Seq<Token>, pos: nat) -> Outcome
    decreases rest(toks, pos), 3nat,
{
    match spec_word(toks, pos, Selmaho::Pu) {
        Outcome::Matched(n1) => shifted(spec_opt(spec_word(toks, pos + n1, Selmaho::Nai)), n1),
        other => other,
    }
}

/// What [`spec_pu_nai`] says.
pub proof fn lemma_pu_nai(toks: Seq<Token>, pos: nat)
    ensures
        spec_pu_nai(toks, pos) == (
            match spec_word(toks, pos, Selmaho::Pu) {
                Outcome::Matched(n1) => shifted(
                    spec_opt(spec_word(toks, pos + n1, Selmaho::Nai)),
                    n1,
                ),
                other => other,
            }
        ),
{
    reveal(spec_pu_nai);
    reveal(spec_word);
}

/// ```text
/// IntervalProperty <- IntervalPropertyRoi / IntervalPropertyTahe / IntervalPropertyZaho
/// ```
#[verifier::opaque]
pub closed spec fn spec_interval_property(toks: Seq<Token>, pos: nat) -> Outcome
    decreases rest(toks, pos), 18nat,
{
    spec_alt(
        spec_alt(
            spec_interval_property_roi(toks, pos),
            spec_interval_property_tahe(toks, pos),
        ),
        spec_interval_property_zaho(toks, pos),
    )
}

/// What [`spec_interval_property`] says.
pub proof fn lemma_interval_property(toks: Seq<Token>, pos: nat)
    ensures
        spec_interval_property(toks, pos) == (
            spec_alt(
                spec_alt(
                    spec_interval_property_roi(toks, pos),
                    spec_interval_property_tahe(toks, pos),
                ),
                spec_interval_property_zaho(toks, pos),
            )
        ),
{
    reveal(spec_interval_property);
    reveal(spec_interval_property_roi);
    reveal(spec_interval_property_tahe);
    reveal(spec_interval_property_zaho);
}

/// As many `IntervalProperty` as match in a row. It is an error if one of them
/// matches without taking a token.
#[verifier::opaque]
pub closed spec fn spec_many0_interval_property(toks: Seq<Token>, pos: nat) -> Outcome
    decreases rest(toks, pos), 19nat,
{
    match spec_interval_property(toks, pos) {
        Outcome::Matched(len) => if advanced(toks, pos, len) {
            shifted(spec_many0_interval_property(toks, pos + len), len)
        } else {
            Outcome::Error(combinator_at(pos, ErrorKind::Many0))
        },
        Outcome::Error(_) => Outcome::Matched(0),
        Outcome::Failure(report) => Outcome::Failure(report),
    }
}

/// What [`spec_many0_interval_property`] says.
pub proof fn lemma_many0_interval_property(toks: Seq<Token>, pos: nat)
    ensures
        spec_many0_interval_property(toks, pos) == (match spec_interval_property(toks, pos) {
            Outcome::Matched(len) => if advanced(toks, pos, len) {
                shifted(spec_many0_interval_property(toks, pos + len), len)
            } else {
                Outcome::Error(combinator_at(pos, ErrorKind::Many0))
            },
            Outcome::Error(_) => Outcome::Matched(0),
            Outcome::Failure(report) => Outcome::Failure(report),
        }),
{
    reveal(spec_many0_interval_property);
    reveal(spec_interval_property);
}

/// ```text
/// IntervalPropertyRoi <- Number Roi Nai?
/// ```
#[verifier::opaque]
pub closed spec fn spec_interval_property_roi(toks: Seq<Token>, pos: nat) -> Outcome
    decreases rest(toks, pos), 17nat,
{
    match spec_number(toks, pos) {
        Outcome::Matched(n1) => match spec_word(toks, pos + n1, Selmaho::Roi) {
            Outcome::Matched(n2) => shifted(
                spec_opt(spec_word(toks, pos + n1 + n2, Selmaho::Nai)),
                n1 + n2,
            ),
            other => other,
        },
        other => other,
    }
}

/// What [`spec_interval_property_roi`] says.
pub proof fn lemma_interval_property_roi(toks: Seq<Token>, pos: nat)
    ensures
        spec_interval_property_roi(toks, pos) == (
            match spec_number(toks, pos) {
                Outcome::Matched(n1) => match spec_word(toks, pos + n1, Selmaho::Roi) {
                    Outcome::Matched(n2) => shifted(
                        spec_opt(spec_word(toks, pos + n1 + n2, Selmaho::Nai)),
                        n1 + n2,
                    ),
                    other => other,
                },
                other => other,
            }
        ),
{
    reveal(spec_interval_property_roi);
    reveal(spec_number);
    reveal(spec_word);
}

/// ```text
/// Number <- Pa NumberRest*
/// ```
#[verifier::opaque]
pub closed spec fn spec_number(toks: Seq<Token>, pos: nat) -> Outcome
    decreases rest(toks, pos), 16nat,
{
    match spec_word(toks, pos, Selmaho::Pa) {
        Outcome::Matched(n1) => shifted(spec_many0_number_rest(toks, pos + n1), n1),
        other => other,
    }
}

/// What [`spec_number`] says.
pub proof fn lemma_number(toks: Seq<Token>, pos: nat)
    ensures
        spec_number(toks, pos) == (
            match spec_word(toks, pos, Selmaho::Pa) {
                Outcome::Matched(n1) => shifted(spec_many0_number_rest(toks, pos + n1), n1),
                other => other,
            }
        ),
{
    reveal(spec_number);
    reveal(spec_word);
    reveal(spec_many0_number_rest);
}

/// ```text
/// NumberRest <- NumberRestPa / NumberRestLerfu
/// ```
#[verifier::opaque]
pub closed spec fn spec_number_rest(toks: Seq<Token>, pos: nat) -> Outcome
    decreases rest(toks, pos), 14nat,
{
    spec_alt(spec_number_rest_pa(toks, pos), spec_number_rest_lerfu(toks, pos))
}

/// What [`spec_number_rest`] says.
pub proof fn lemma_number_rest(toks: Seq<Token>, pos: nat)
    ensures
        spec_number_rest(toks, pos) == (
            spec_alt(spec_number_rest_pa(toks, pos), spec_number_rest_lerfu(toks, pos))
        ),
{
    reveal(spec_number_rest);
    reveal(spec_number_rest_pa);
    reveal(spec_number_rest_lerfu);
}

/// As many `NumberRest` as match in a row. It is an error if one of them
/// matches without taking a token.
#[verifier::opaque]
pub closed spec fn spec_many0_number_rest(toks: Seq<Token>, pos: nat) -> Outcome
    decreases rest(toks, pos), 15nat,
{
    match spec_number_rest(toks, pos) {
        Outcome::Matched(len) => if advanced(toks, pos, len) {
            shifted(spec_many0_number_rest(toks, pos + len), len)
        } else {
            Outcome::Error(combinator_at(pos, ErrorKind::Many0))
        },
        Outcome::Error(_) => Outcome::Matched(0),
        Outcome::Failure(report) => Outcome::Failure(report),
    }
}

/// What [`spec_many0_number_rest`] says.
pub proof fn lemma_many0_number_rest(toks: Seq<Token>, pos: nat)
    ensures
        spec_many0_number_rest(toks, pos) == (match spec_number_rest(toks, pos) {
            Outcome::Matched(len) => if advanced(toks, pos, len) {
                shifted(spec_many0_number_rest(toks, pos + len), len)
            } else {
                Outcome::Error(combinator_at(pos, ErrorKind::Many0))
            },
            Outcome::Error(_) => Outcome::Matched(0),
            Outcome::Failure(report) => Outcome::Failure(report),
        }),
{
    reveal(spec_many0_number_rest);
    reveal(spec_number_rest);
}

/// One `NumberRest` or more in a row. It is an error if one of them matches
/// without taking a token.
#[verifier::opaque]
pub closed spec fn spec_many1_number_rest(toks: Seq<Token>, pos: nat) -> Outcome
    decreases rest(toks, pos), 15nat,
{
    match spec_number_rest(toks, pos) {
        Outcome::Matched(len) => if advanced(toks, pos, len) {
            shifted(spec_many1_number_rest_more(toks, pos + len), len)
        } else {
            Outcome::Error(combinator_at(pos, ErrorKind::Many1))
        },
        other => other,
    }
}

/// What follows the first `NumberRest` of a row of them.
#[verifier::opaque]
pub closed spec fn spec_many1_number_rest_more(toks: Seq<Token>, pos: nat) -> Outcome
    decreases rest(toks, pos), 15nat,
{
    match spec_number_rest(toks, pos) {
        Outcome::Matched(len) => if advanced(toks, pos, len) {
            shifted(spec_many1_number_rest_more(toks, pos + len), len)
        } else {
            Outcome::Error(combinator_at(pos, ErrorKind::Many1))
        },
        Outcome::Error(_) => Outcome::Matched(0),
        Outcome::Failure(report) => Outcome::Failure(report),
    }
}

/// What [`spec_many1_number_rest`] and [`spec_many1_number_rest_more`] say.
pub proof fn lemma_many1_number_rest(toks: Seq<Token>, pos: nat)
    ensures
        spec_many1_number_rest(toks, pos) == (match spec_number_rest(toks, pos) {
            Outcome::Matched(len) => if advanced(toks, pos, len) {
                shifted(spec_many1_number_rest_more(toks, pos + len), len)
            } else {
                Outcome::Error(combinator_at(pos, ErrorKind::Many1))
            },
            other => other,
        }),
        spec_many1_number_rest_more(toks, pos) == (match spec_number_rest(toks, pos) {
            Outcome::Matched(len) => if advanced(toks, pos, len) {
                shifted(spec_many1_number_rest_more(toks, pos + len), len)
            } else {
                Outcome::Error(combinator_at(pos, ErrorKind::Many1))
            },
            Outcome::Error(_) => Outcome::Matched(0),
            Outcome::Failure(report) => Outcome::Failure(report),
        }),
{
    reveal(spec_many1_number_rest);
    reveal(spec_many1_number_rest_more);
    reveal(spec_number_rest);
}

/// ```text
/// NumberRestPa <- Pa
/// ```
#[verifier::opaque]
pub closed spec fn spec_number_rest_pa(toks: Seq<Token>, pos: nat) -> Outcome
    decreases rest(toks, pos), 3nat,
{
    spec_word(toks, pos, Selmaho::Pa)
}

/// What [`spec_number_rest_pa`] says.
pub proof fn lemma_number_rest_pa(toks: Seq<Token>, pos: nat)
    ensures
        spec_number_rest_pa(toks, pos) == (
            spec_word(toks, pos, Selmaho::Pa)
        ),
{
    reveal(spec_number_rest_pa);
    reveal(spec_word);
}

/// ```text
/// NumberRestLerfu <- LerfuWord
/// ```
#[verifier::opaque]
pub closed spec fn spec_number_rest_lerfu(toks: Seq<Token>, pos: nat) -> Outcome
    decreases rest(toks, pos), 13nat,
{
    spec_lerfu_word(toks, pos)
}

/// What [`spec_number_rest_lerfu`] says.
pub proof fn lemma_number_rest_lerfu(toks: Seq<Token>, pos: nat)
    ensures
        spec_number_rest_lerfu(toks, pos) == (
            spec_lerfu_word(toks, pos)
        ),
{
    reveal(spec_number_rest_lerfu);
    reveal(spec_lerfu_word);
}

/// ```text
/// LerfuWord <- LerfuWordLerfu / LerfuWordLau / LerfuWordTei
/// ```
#[verifier::opaque]
pub closed spec fn spec_lerfu_word(toks: Seq<Token>, pos: nat) -> Outcome
    decreases rest(toks, pos), 12nat,
{
    spec_alt(
        spec_alt(spec_lerfu_word_lerfu(toks, pos), spec_lerfu_word_lau(toks, pos)),
        spec_lerfu_word_tei(toks, pos),
    )
}

/// What [`spec_lerfu_word`] says.
pub proof fn lemma_lerfu_word(toks: Seq<Token>, pos: nat)
    ensures
        spec_lerfu_word(toks, pos) == (
            spec_alt(
                spec_alt(spec_lerfu_word_lerfu(toks, pos), spec_lerfu_word_lau(toks, pos)),
                spec_lerfu_word_tei(toks, pos),
            )
        ),
{
    reveal(spec_lerfu_word);
    reveal(spec_lerfu_word_lerfu);
    reveal(spec_lerfu_word_lau);
    reveal(spec_lerfu_word_tei);
}

/// ```text
/// LerfuWordLerfu <- Lerfu
/// ```
#[verifier::opaque]
pub closed spec fn spec_lerfu_word_lerfu(toks: Seq<Token>, pos: nat) -> Outcome
    decreases rest(toks, pos), 11nat,
{
    spec_lerfu(toks, pos)
}

/// What [`spec_lerfu_word_lerfu`] says.
pub proof fn lemma_lerfu_word_lerfu(toks: Seq<Token>, pos: nat)
    ensures
        spec_lerfu_word_lerfu(toks, pos) == (
            spec_lerfu(toks, pos)
        ),
{
    reveal(spec_lerfu_word_lerfu);
    reveal(spec_lerfu);
}

/// ```text
/// Lerfu <- LerfuBu / LerfuBy
/// ```
#[verifier::opaque]
pub closed spec fn spec_lerfu(toks: Seq<Token>, pos: nat) -> Outcome
    decreases rest(toks, pos), 10nat,
{
    spec_alt(spec_lerfu_bu(toks, pos), spec_lerfu_by(toks, pos))
}

/// What [`spec_lerfu`] says.
pub proof fn lemma_lerfu(toks: Seq<Token>, pos: nat)
    ensures
        spec_lerfu(toks, pos) == (
            spec_alt(spec_lerfu_bu(toks, pos), spec_lerfu_by(toks, pos))
        ),
{
    reveal(spec_lerfu);
    reveal(spec_lerfu_bu);
    reveal(spec_lerfu_by);
}

/// ```text
/// LerfuBu <- Bahe? BuLerfu Bu+ Indicators*
/// ```
#[verifier::opaque]
pub closed spec fn spec_lerfu_bu(toks: Seq<Token>, pos: nat) -> Outcome
    decreases rest(toks, pos), 9nat,
{
    match spec_opt(spec_bahe(toks, pos)) {
        Outcome::Matched(n1) => match spec_bu_lerfu(toks, pos + n1) {
            Outcome::Matched(n2) => match spec_many1_bu(toks, pos + n1 + n2) {
                Outcome::Matched(n3) => shifted(
                    spec_many0_indicators(toks, pos + n1 + n2 + n3),
                    n1 + n2 + n3,
                ),
                other => other,
            },
            other => other,
        },
        other => other,
    }
}

/// What [`spec_lerfu_bu`] says.
pub proof fn lemma_lerfu_bu(toks: Seq<Token>, pos: nat)
    ensures
        spec_lerfu_bu(toks, pos) == (
            match spec_opt(spec_bahe(toks, pos)) {
                Outcome::Matched(n1) => match spec_bu_lerfu(toks, pos + n1) {
                    Outcome::Matched(n2) => match spec_many1_bu(toks, pos + n1 + n2) {
                        Outcome::Matched(n3) => shifted(
                            spec_many0_indicators(toks, pos + n1 + n2 + n3),
                            n1 + n2 + n3,
                        ),
                        other => other,
                    },
                    other => other,
                },
                other => other,
            }
        ),
{
    reveal(spec_lerfu_bu);
    reveal(spec_bahe);
    reveal(spec_bu_lerfu);
    reveal(spec_many1_bu);
    reveal(spec_many0_indicators);
}

/// Whether a word can be made a letter by `bu`: any word can, but the words
/// that act on the words around them.
pub open spec fn takes_bu(selmaho: Selmaho) -> bool {
    !(selmaho == Selmaho::Bu || selmaho == Selmaho::Zei || selmaho == Selmaho::Si || selmaho
        == Selmaho::Su || selmaho == Selmaho::Sa || selmaho == Selmaho::Faho)
}

/// The word before `bu`: one token that [`takes_bu`].
pub open spec fn spec_bu_lerfu(toks: Seq<Token>, pos: nat) -> Outcome {
    if pos >= toks.len() {
        Outcome::Error(combinator_at(pos, ErrorKind::Eof))
    } else if takes_bu(toks[pos as int].selmaho) {
        Outcome::Matched(1)
    } else {
        Outcome::Error(condition_at(pos, "a word that takes no bu"))
    }
}

/// ```text
/// LerfuBy <- By
/// ```
#[verifier::opaque]
pub closed spec fn spec_lerfu_by(toks: Seq<Token>, pos: nat) -> Outcome
    decreases rest(toks, pos), 3nat,
{
    spec_word(toks, pos, Selmaho::By)
}

/// What [`spec_lerfu_by`] says.
pub proof fn lemma_lerfu_by(toks: Seq<Token>, pos: nat)
    ensures
        spec_lerfu_by(toks, pos) == (
            spec_word(toks, pos, Selmaho::By)
        ),
{
    reveal(spec_lerfu_by);
    reveal(spec_word);
}

/// ```text
/// LerfuWordLau <- Lau Lerfu
/// ```
#[verifier::opaque]
pub closed spec fn spec_lerfu_word_lau(toks: Seq<Token>, pos: nat) -> Outcome
    decreases rest(toks, pos), 11nat,
{
    match spec_word(toks, pos, Selmaho::Lau) {
        Outcome::Matched(n1) => shifted(spec_lerfu(toks, pos + n1), n1),
        other => other,
    }
}

/// What [`spec_lerfu_word_lau`] says.
pub proof fn lemma_lerfu_word_lau(toks: Seq<Token>, pos: nat)
    ensures
        spec_lerfu_word_lau(toks, pos) == (
            match spec_word(toks, pos, Selmaho::Lau) {
                Outcome::Matched(n1) => shifted(spec_lerfu(toks, pos + n1), n1),
                other => other,
            }
        ),
{
    reveal(spec_lerfu_word_lau);
    reveal(spec_word);
    reveal(spec_lerfu);
}

/// ```text
/// LerfuWordTei <- Tei LerfuString ^Foi
/// ```
#[verifier::opaque]
pub closed spec fn spec_lerfu_word_tei(toks: Seq<Token>, pos: nat) -> Outcome
    decreases rest(toks, pos), 3nat,
{
    match spec_word(toks, pos, Selmaho::Tei) {
        Outcome::Matched(n1) => match (if advanced(toks, pos, n1) {
            spec_lerfu_string(toks, pos + n1)
        } else {
            stuck(pos)
        }) {
            Outcome::Matched(n2) => shifted(
                spec_cut(spec_word(toks, pos + n1 + n2, Selmaho::Foi)),
                n1 + n2,
            ),
            other => other,
        },
        other => other,
    }
}

/// What [`spec_lerfu_word_tei`] says.
pub proof fn lemma_lerfu_word_tei(toks: Seq<Token>, pos: nat)
    ensures
        spec_lerfu_word_tei(toks, pos) == (
            match spec_word(toks, pos, Selmaho::Tei) {
                Outcome::Matched(n1) => match (if advanced(toks, pos, n1) {
                    spec_lerfu_string(toks, pos + n1)
                } else {
                    stuck(pos)
                }) {
                    Outcome::Matched(n2) => shifted(
                        spec_cut(spec_word(toks, pos + n1 + n2, Selmaho::Foi)),
                        n1 + n2,
                    ),
                    other => other,
                },
                other => other,
            }
        ),
{
    reveal(spec_lerfu_word_tei);
    reveal(spec_word);
    reveal(spec_lerfu_string);
}

/// ```text
/// LerfuString <- LerfuWord NumberRest*
/// ```
#[verifier::opaque]
pub closed spec fn spec_lerfu_string(toks: Seq<Token>, pos: nat) -> Outcome
    decreases rest(toks, pos), 16nat,
{
    match spec_lerfu_word(toks, pos) {
        Outcome::Matched(n1) => shifted(spec_many0_number_rest(toks, pos + n1), n1),
        other => other,
    }
}

/// What [`spec_lerfu_string`] says.
pub proof fn lemma_lerfu_string(toks: Seq<Token>, pos: nat)
    ensures
        spec_lerfu_string(toks, pos) == (
            match spec_lerfu_word(toks, pos) {
                Outcome::Matched(n1) => shifted(spec_many0_number_rest(toks, pos + n1), n1),
                other => other,
            }
        ),
{
    reveal(spec_lerfu_string);
    reveal(spec_lerfu_word);
    reveal(spec_many0_number_rest);
}

/// ```text
/// IntervalPropertyTahe <- Tahe Nai?
/// ```
#[verifier::opaque]
pub closed spec fn spec_interval_property_tahe(toks: Seq<Token>, pos: nat) -> Outcome
    decreases rest(toks, pos), 3nat,
{
    match spec_word(toks, pos, Selmaho::Tahe) {
        Outcome::Matched(n1) => shifted(spec_opt(spec_word(toks, pos + n1, Selmaho::Nai)), n1),
        other => other,
    }
}

/// What [`spec_interval_property_tahe`] says.
pub proof fn lemma_interval_property_tahe(toks: Seq<Token>, pos: nat)
    ensures
        spec_interval_property_tahe(toks, pos) == (
            match spec_word(toks, pos, Selmaho::Tahe) {
                Outcome::Matched(n1) => shifted(
                    spec_opt(spec_word(toks, pos + n1, Selmaho::Nai)),
                    n1,
                ),
                other => other,
            }
        ),
{
    reveal(spec_interval_property_tahe);
    reveal(spec_word);
}

/// ```text
/// IntervalPropertyZaho <- Zaho Nai?
/// ```
#[verifier::opaque]
pub closed spec fn spec_interval_property_zaho(toks: Seq<Token>, pos: nat) -> Outcome
    decreases rest(toks, pos), 3nat,
{
    match spec_word(toks, pos, Selmaho::Zaho) {
        Outcome::Matched(n1) => shifted(spec_opt(spec_word(toks, pos + n1, Selmaho::Nai)), n1),
        other => other,
    }
}

/// What [`spec_interval_property_zaho`] says.
pub proof fn lemma_interval_property_zaho(toks: Seq<Token>, pos: nat)
    ensures
        spec_interval_property_zaho(toks, pos) == (
            match spec_word(toks, pos, Selmaho::Zaho) {
                Outcome::Matched(n1) => shifted(
                    spec_opt(spec_word(toks, pos + n1, Selmaho::Nai)),
                    n1,
                ),
                other => other,
            }
        ),
{
    reveal(spec_interval_property_zaho);
    reveal(spec_word);
}

/// ```text
/// TimeSpaceCahaSpace <- Space
/// ```
#[verifier::opaque]
pub closed spec fn spec_time_space_caha_space(toks: Seq<Token>, pos: nat) -> Outcome
    decreases rest(toks, pos), 24nat,
{
    spec_space(toks, pos)
}

/// What [`spec_time_space_caha_space`] says.
pub proof fn lemma_time_space_caha_space(toks: Seq<Token>, pos: nat)
    ensures
        spec_time_space_caha_space(toks, pos) == (
            spec_space(toks, pos)
        ),
{
    reveal(spec_time_space_caha_space);
    reveal(spec_space);
}

/// ```text
/// Space <- (Va? SpaceOffset* SpaceInterval? SpaceMotion?) that takes a token
/// ```
#[verifier::opaque]
pub closed spec fn spec_space(toks: Seq<Token>, pos: nat) -> Outcome
    decreases rest(toks, pos), 23nat,
{
    spec_must_consume(
        match spec_opt(spec_word(toks, pos, Selmaho::Va)) {
            Outcome::Matched(n1) => match spec_many0_space_offset(toks, pos + n1) {
                Outcome::Matched(n2) => match spec_opt(spec_space_interval(toks, pos + n1 + n2)) {
                    Outcome::Matched(n3) => shifted(
                        spec_opt(spec_space_motion(toks, pos + n1 + n2 + n3)),
                        n1 + n2 + n3,
                    ),
                    other => other,
                },
                other => other,
            },
            other => other,
        },
        condition_at(pos, "a place without any part"),
    )
}

/// What [`spec_space`] says.
pub proof fn lemma_space(toks: Seq<Token>, pos: nat)
    ensures
        spec_space(toks, pos) == (
            spec_must_consume(
                match spec_opt(spec_word(toks, pos, Selmaho::Va)) {
                    Outcome::Matched(n1) => match spec_many0_space_offset(toks, pos + n1) {
                        Outcome::Matched(n2) => match spec_opt(
                            spec_space_interval(toks, pos + n1 + n2),
                        ) {
                            Outcome::Matched(n3) => shifted(
                                spec_opt(spec_space_motion(toks, pos + n1 + n2 + n3)),
                                n1 + n2 + n3,
                            ),
                            other => other,
                        },
                        other => other,
                    },
                    other => other,
                },
                condition_at(pos, "a place without any part"),
            )
        ),
{
    reveal(spec_space);
    reveal(spec_word);
    reveal(spec_many0_space_offset);
    reveal(spec_space_interval);
    reveal(spec_space_motion);
}

/// ```text
/// SpaceOffset <- Faha Nai? Va?
/// ```
#[verifier::opaque]
pub closed spec fn spec_space_offset(toks: Seq<Token>, pos: nat) -> Outcome
    decreases rest(toks, pos), 3nat,
{
    match spec_word(toks, pos, Selmaho::Faha) {
        Outcome::Matched(n1) => match spec_opt(spec_word(toks, pos + n1, Selmaho::Nai)) {
            Outcome::Matched(n2) => shifted(
                spec_opt(spec_word(toks, pos + n1 + n2, Selmaho::Va)),
                n1 + n2,
            ),
            other => other,
        },
        other => other,
    }
}

/// What [`spec_space_offset`] says.
pub proof fn lemma_space_offset(toks: Seq<Token>, pos: nat)
    ensures
        spec_space_offset(toks, pos) == (
            match spec_word(toks, pos, Selmaho::Faha) {
                Outcome::Matched(n1) => match spec_opt(spec_word(toks, pos + n1, Selmaho::Nai)) {
                    Outcome::Matched(n2) => shifted(
                        spec_opt(spec_word(toks, pos + n1 + n2, Selmaho::Va)),
                        n1 + n2,
                    ),
                    other => other,
                },
                other => other,
            }
        ),
{
    reveal(spec_space_offset);
    reveal(spec_word);
}

/// As many `SpaceOffset` as match in a row. It is an error if one of them
/// matches without taking a token.
#[verifier::opaque]
pub closed spec fn spec_many0_space_offset(toks: Seq<Token>, pos: nat) -> Outcome
    decreases rest(toks, pos), 4nat,
{
    match spec_space_offset(toks, pos) {
        Outcome::Matched(len) => if advanced(toks, pos, len) {
            shifted(spec_many0_space_offset(toks, pos + len), len)
        } else {
            Outcome::Error(combinator_at(pos, ErrorKind::Many0))
        },
        Outcome::Error(_) => Outcome::Matched(0),
        Outcome::Failure(report) => Outcome::Failure(report),
    }
}

/// What [`spec_many0_space_offset`] says.
pub proof fn lemma_many0_space_offset(toks: Seq<Token>, pos: nat)
    ensures
        spec_many0_space_offset(toks, pos) == (match spec_space_offset(toks, pos) {
            Outcome::Matched(len) => if advanced(toks, pos, len) {
                shifted(spec_many0_space_offset(toks, pos + len), len)
            } else {
                Outcome::Error(combinator_at(pos, ErrorKind::Many0))
            },
            Outcome::Error(_) => Outcome::Matched(0),
            Outcome::Failure(report) => Outcome::Failure(report),
        }),
{
    reveal(spec_many0_space_offset);
    reveal(spec_space_offset);
}

/// ```text
/// SpaceInterval <- SpaceIntervalInterval / SpaceIntervalProperties
/// ```
#[verifier::opaque]
pub closed spec fn spec_space_interval(toks: Seq<Token>, pos: nat) -> Outcome
    decreases rest(toks, pos), 22nat,
{
    spec_alt(
        spec_space_interval_interval(toks, pos),
        spec_space_interval_properties(toks, pos),
    )
}

/// What [`spec_space_interval`] says.
pub proof fn lemma_space_interval(toks: Seq<Token>, pos: nat)
    ensures
        spec_space_interval(toks, pos) == (
            spec_alt(
                spec_space_interval_interval(toks, pos),
                spec_space_interval_properties(toks, pos),
            )
        ),
{
    reveal(spec_space_interval);
    reveal(spec_space_interval_interval);
    reveal(spec_space_interval_properties);
}

/// ```text
/// SpaceIntervalInterval <- VehaViha FahaNai? SpaceIntervalProperty*
/// ```
#[verifier::opaque]
pub closed spec fn spec_space_interval_interval(toks: Seq<Token>, pos: nat) -> Outcome
    decreases rest(toks, pos), 21nat,
{
    match spec_veha_viha(toks, pos) {
        Outcome::Matched(n1) => match spec_opt(spec_faha_nai(toks, pos + n1)) {
            Outcome::Matched(n2) => shifted(
                spec_many0_space_interval_property(toks, pos + n1 + n2),
                n1 + n2,
            ),
            other => other,
        },
        other => other,
    }
}

/// What [`spec_space_interval_interval`] says.
pub proof fn lemma_space_interval_interval(toks: Seq<Token>, pos: nat)
    ensures
        spec_space_interval_interval(toks, pos) == (
            match spec_veha_viha(toks, pos) {
                Outcome::Matched(n1) => match spec_opt(spec_faha_nai(toks, pos + n1)) {
                    Outcome::Matched(n2) => shifted(
                        spec_many0_space_interval_property(toks, pos + n1 + n2),
                        n1 + n2,
                    ),
                    other => other,
                },
                other => other,
            }
        ),
{
    reveal(spec_space_interval_interval);
    reveal(spec_veha_viha);
    reveal(spec_faha_nai);
    reveal(spec_many0_space_interval_property);
}

/// ```text
/// VehaViha <- VehaVihaRight / VehaVihaBoth / VehaVihaLeft
/// ```
#[verifier::opaque]
pub closed spec fn spec_veha_viha(toks: Seq<Token>, pos: nat) -> Outcome
    decreases rest(toks, pos), 4nat,
{
    spec_alt(
        spec_alt(spec_veha_viha_right(toks, pos), spec_veha_viha_both(toks, pos)),
        spec_veha_viha_left(toks, pos),
    )
}

/// What [`spec_veha_viha`] says.
pub proof fn lemma_veha_viha(toks: Seq<Token>, pos: nat)
    ensures
        spec_veha_viha(toks, pos) == (
            spec_alt(
                spec_alt(spec_veha_viha_right(toks, pos), spec_veha_viha_both(toks, pos)),
                spec_veha_viha_left(toks, pos),
            )
        ),
{
    reveal(spec_veha_viha);
    reveal(spec_veha_viha_right);
    reveal(spec_veha_viha_both);
    reveal(spec_veha_viha_left);
}

/// ```text
/// VehaVihaRight <- Viha
/// ```
#[verifier::opaque]
pub closed spec fn spec_veha_viha_right(toks: Seq<Token>, pos: nat) -> Outcome
    decreases rest(toks, pos), 3nat,
{
    spec_word(toks, pos, Selmaho::Viha)
}

/// What [`spec_veha_viha_right`] says.
pub proof fn lemma_veha_viha_right(toks: Seq<Token>, pos: nat)
    ensures
        spec_veha_viha_right(toks, pos) == (
            spec_word(toks, pos, Selmaho::Viha)
        ),
{
    reveal(spec_veha_viha_right);
    reveal(spec_word);
}

/// ```text
/// VehaVihaBoth <- Veha Viha
/// ```
#[verifier::opaque]
pub closed spec fn spec_veha_viha_both(toks: Seq<Token>, pos: nat) -> Outcome
    decreases rest(toks, pos), 3nat,
{
    match spec_word(toks, pos, Selmaho::Veha) {
        Outcome::Matched(n1) => shifted(spec_word(toks, pos + n1, Selmaho::Viha), n1),
        other => other,
    }
}

/// What [`spec_veha_viha_both`] says.
pub proof fn lemma_veha_viha_both(toks: Seq<Token>, pos: nat)
    ensures
        spec_veha_viha_both(toks, pos) == (
            match spec_word(toks, pos, Selmaho::Veha) {
                Outcome::Matched(n1) => shifted(spec_word(toks, pos + n1, Selmaho::Viha), n1),
                other => other,
            }
        ),
{
    reveal(spec_veha_viha_both);
    reveal(spec_word);
}

/// ```text
/// VehaVihaLeft <- Veha
/// ```
#[verifier::opaque]
pub closed spec fn spec_veha_viha_left(toks: Seq<Token>, pos: nat) -> Outcome
    decreases rest(toks, pos), 3nat,
{
    spec_word(toks, pos, Selmaho::Veha)
}

/// What [`spec_veha_viha_left`] says.
pub proof fn lemma_veha_viha_left(toks: Seq<Token>, pos: nat)
    ensures
        spec_veha_viha_left(toks, pos) == (
            spec_word(toks, pos, Selmaho::Veha)
        ),
{
    reveal(spec_veha_viha_left);
    reveal(spec_word);
}

/// ```text
/// FahaNai <- Faha Nai?
/// ```
#[verifier::opaque]
pub closed spec fn spec_faha_nai(toks: Seq<Token>, pos: nat) -> Outcome
    decreases rest(toks, pos), 3nat,
{
    match spec_word(toks, pos, Selmaho::Faha) {
        Outcome::Matched(n1) => shifted(spec_opt(spec_word(toks, pos + n1, Selmaho::Nai)), n1),
        other => other,
    }
}

/// What [`spec_faha_nai`] says.
pub proof fn lemma_faha_nai(toks: Seq<Token>, pos: nat)
    ensures
        spec_faha_nai(toks, pos) == (
            match spec_word(toks, pos, Selmaho::Faha) {
                Outcome::Matched(n1) => shifted(
                    spec_opt(spec_word(toks, pos + n1, Selmaho::Nai)),
                    n1,
                ),
                other => other,
            }
        ),
{
    reveal(spec_faha_nai);
    reveal(spec_word);
}

/// ```text
/// SpaceIntervalProperty <- Fehe IntervalProperty
/// ```
#[verifier::opaque]
pub closed spec fn spec_space_interval_property(toks: Seq<Token>, pos: nat) -> Outcome
    decreases rest(toks, pos), 19nat,
{
    match spec_word(toks, pos, Selmaho::Fehe) {
        Outcome::Matched(n1) => shifted(spec_interval_property(toks, pos + n1), n1),
        other => other,
    }
}

/// What [`spec_space_interval_property`] says.
pub proof fn lemma_space_interval_property(toks: Seq<Token>, pos: nat)
    ensures
        spec_space_interval_property(toks, pos) == (
            match spec_word(toks, pos, Selmaho::Fehe) {
                Outcome::Matched(n1) => shifted(spec_interval_property(toks, pos + n1), n1),
                other => other,
            }
        ),
{
    reveal(spec_space_interval_property);
    reveal(spec_word);
    reveal(spec_interval_property);
}

/// As many `SpaceIntervalProperty` as match in a row. It is an error if one of them
/// matches without taking a token.
#[verifier::opaque]
pub closed spec fn spec_many0_space_interval_property(toks: Seq<Token>, pos: nat) -> Outcome
    decreases rest(toks, pos), 20nat,
{
    match spec_space_interval_property(toks, pos) {
        Outcome::Matched(len) => if advanced(toks, pos, len) {
            shifted(spec_many0_space_interval_property(toks, pos + len), len)
        } else {
            Outcome::Error(combinator_at(pos, ErrorKind::Many0))
        },
        Outcome::Error(_) => Outcome::Matched(0),
        Outcome::Failure(report) => Outcome::Failure(report),
    }
}

/// What [`spec_many0_space_interval_property`] says.
pub proof fn lemma_many0_space_interval_property(toks: Seq<Token>, pos: nat)
    ensures
        spec_many0_space_interval_property(
            toks,
            pos,
        ) == (match spec_space_interval_property(toks, pos) {
            Outcome::Matched(len) => if advanced(toks, pos, len) {
                shifted(spec_many0_space_interval_property(toks, pos + len), len)
            } else {
                Outcome::Error(combinator_at(pos, ErrorKind::Many0))
            },
            Outcome::Error(_) => Outcome::Matched(0),
            Outcome::Failure(report) => Outcome::Failure(report),
        }),
{
    reveal(spec_many0_space_interval_property);
    reveal(spec_space_interval_property);
}

/// One `SpaceIntervalProperty` or more in a row. It is an error if one of them matches
/// without taking a token.
#[verifier::opaque]
pub closed spec fn spec_many1_space_interval_property(toks: Seq<Token>, pos: nat) -> Outcome
    decreases rest(toks, pos), 20nat,
{
    match spec_space_interval_property(toks, pos) {
        Outcome::Matched(len) => if advanced(toks, pos, len) {
            shifted(spec_many1_space_interval_property_more(toks, pos + len), len)
        } else {
            Outcome::Error(combinator_at(pos, ErrorKind::Many1))
        },
        other => other,
    }
}

/// What follows the first `SpaceIntervalProperty` of a row of them.
#[verifier::opaque]
pub closed spec fn spec_many1_space_interval_property_more(toks: Seq<Token>, pos: nat) -> Outcome
    decreases rest(toks, pos), 20nat,
{
    match spec_space_interval_property(toks, pos) {
        Outcome::Matched(len) => if advanced(toks, pos, len) {
            shifted(spec_many1_space_interval_property_more(toks, pos + len), len)
        } else {
            Outcome::Error(combinator_at(pos, ErrorKind::Many1))
        },
        Outcome::Error(_) => Outcome::Matched(0),
        Outcome::Failure(report) => Outcome::Failure(report),
    }
}

/// What [`spec_many1_space_interval_property`] and [`spec_many1_space_interval_property_more`] say.
pub proof fn lemma_many1_space_interval_property(toks: Seq<Token>, pos: nat)
    ensures
        spec_many1_space_interval_property(
            toks,
            pos,
        ) == (match spec_space_interval_property(toks, pos) {
            Outcome::Matched(len) => if advanced(toks, pos, len) {
                shifted(spec_many1_space_interval_property_more(toks, pos + len), len)
            } else {
                Outcome::Error(combinator_at(pos, ErrorKind::Many1))
            },
            other => other,
        }),
        spec_many1_space_interval_property_more(
            toks,
            pos,
        ) == (match spec_space_interval_property(toks, pos) {
            Outcome::Matched(len) => if advanced(toks, pos, len) {
                shifted(spec_many1_space_interval_property_more(toks, pos + len), len)
            } else {
                Outcome::Error(combinator_at(pos, ErrorKind::Many1))
            },
            Outcome::Error(_) => Outcome::Matched(0),
            Outcome::Failure(report) => Outcome::Failure(report),
        }),
{
    reveal(spec_many1_space_interval_property);
    reveal(spec_many1_space_interval_property_more);
    reveal(spec_space_interval_property);
}

/// ```text
/// SpaceIntervalProperties <- SpaceIntervalProperty+
/// ```
#[verifier::opaque]
pub closed spec fn spec_space_interval_properties(toks: Seq<Token>, pos: nat) -> Outcome
    decreases rest(toks, pos), 21nat,
{
    spec_many1_space_interval_property(toks, pos)
}

/// What [`spec_space_interval_properties`] says.
pub proof fn lemma_space_interval_properties(toks: Seq<Token>, pos: nat)
    ensures
        spec_space_interval_properties(toks, pos) == (
            spec_many1_space_interval_property(toks, pos)
        ),
{
    reveal(spec_space_interval_properties);
    reveal(spec_many1_space_interval_property);
}

/// ```text
/// SpaceMotion <- Mohi SpaceOffset
/// ```
#[verifier::opaque]
pub closed spec fn spec_space_motion(toks: Seq<Token>, pos: nat) -> Outcome
    decreases rest(toks, pos), 4nat,
{
    match spec_word(toks, pos, Selmaho::Mohi) {
        Outcome::Matched(n1) => shifted(spec_space_offset(toks, pos + n1), n1),
        other => other,
    }
}

/// What [`spec_space_motion`] says.
pub proof fn lemma_space_motion(toks: Seq<Token>, pos: nat)
    ensures
        spec_space_motion(toks, pos) == (
            match spec_word(toks, pos, Selmaho::Mohi) {
                Outcome::Matched(n1) => shifted(spec_space_offset(toks, pos + n1), n1),
                other => other,
            }
        ),
{
    reveal(spec_space_motion);
    reveal(spec_word);
    reveal(spec_space_offset);
}

/// ```text
/// TimeSpaceCahaCaha <- Caha
/// ```
#[verifier::opaque]
pub closed spec fn spec_time_space_caha_caha(toks: Seq<Token>, pos: nat) -> Outcome
    decreases rest(toks, pos), 3nat,
{
    spec_word(toks, pos, Selmaho::Caha)
}

/// What [`spec_time_space_caha_caha`] says.
pub proof fn lemma_time_space_caha_caha(toks: Seq<Token>, pos: nat)
    ensures
        spec_time_space_caha_caha(toks, pos) == (
            spec_word(toks, pos, Selmaho::Caha)
        ),
{
    reveal(spec_time_space_caha_caha);
    reveal(spec_word);
}

/// ```text
/// TagWordKi <- Ki Frees
/// ```
#[verifier::opaque]
pub closed spec fn spec_tag_word_ki(toks: Seq<Token>, pos: nat) -> Outcome
    decreases rest(toks, pos), 25nat,
{
    match spec_word(toks, pos, Selmaho::Ki) {
        Outcome::Matched(n1) => shifted(spec_frees(toks, pos + n1), n1),
        other => other,
    }
}

/// What [`spec_tag_word_ki`] says.
pub proof fn lemma_tag_word_ki(toks: Seq<Token>, pos: nat)
    ensures
        spec_tag_word_ki(toks, pos) == (
            match spec_word(toks, pos, Selmaho::Ki) {
                Outcome::Matched(n1) => shifted(spec_frees(toks, pos + n1), n1),
                other => other,
            }
        ),
{
    reveal(spec_tag_word_ki);
    reveal(spec_word);
    reveal(spec_frees);
}

/// ```text
/// TagWordCuhe <- Cuhe Frees
/// ```
#[verifier::opaque]
pub closed spec fn spec_tag_word_cuhe(toks: Seq<Token>, pos: nat) -> Outcome
    decreases rest(toks, pos), 25nat,
{
    match spec_word(toks, pos, Selmaho::Cuhe) {
        Outcome::Matched(n1) => shifted(spec_frees(toks, pos + n1), n1),
        other => other,
    }
}

/// What [`spec_tag_word_cuhe`] says.
pub proof fn lemma_tag_word_cuhe(toks: Seq<Token>, pos: nat)
    ensures
        spec_tag_word_cuhe(toks, pos) == (
            match spec_word(toks, pos, Selmaho::Cuhe) {
                Outcome::Matched(n1) => shifted(spec_frees(toks, pos + n1), n1),
                other => other,
            }
        ),
{
    reveal(spec_tag_word_cuhe);
    reveal(spec_word);
    reveal(spec_frees);
}

/// ```text
/// TagWordConverted <- Fiho Frees Selbri Fehu? Frees
/// ```
#[verifier::opaque]
pub closed spec fn spec_tag_word_converted(toks: Seq<Token>, pos: nat) -> Outcome
    decreases rest(toks, pos), 25nat,
{
    match spec_word_with_free(toks, pos, Selmaho::Fiho) {
        Outcome::Matched(n1) => match (if advanced(toks, pos, n1) {
            spec_selbri(toks, pos + n1)
        } else {
            stuck(pos)
        }) {
            Outcome::Matched(n2) => match spec_opt(
                spec_word(toks, pos + n1 + n2, Selmaho::Fehu),
            ) {
                Outcome::Matched(n3) => shifted(
                    spec_frees(toks, pos + n1 + n2 + n3),
                    n1 + n2 + n3,
                ),
                other => other,
            },
            other => other,
        },
        other => other,
    }
}

/// What [`spec_tag_word_converted`] says.
pub proof fn lemma_tag_word_converted(toks: Seq<Token>, pos: nat)
    ensures
        spec_tag_word_converted(toks, pos) == (
            match spec_word_with_free(toks, pos, Selmaho::Fiho) {
                Outcome::Matched(n1) => match (if advanced(toks, pos, n1) {
                    spec_selbri(toks, pos + n1)
                } else {
                    stuck(pos)
                }) {
                    Outcome::Matched(n2) => match spec_opt(
                        spec_word(toks, pos + n1 + n2, Selmaho::Fehu),
                    ) {
                        Outcome::Matched(n3) => shifted(
                            spec_frees(toks, pos + n1 + n2 + n3),
                            n1 + n2 + n3,
                        ),
                        other => other,
                    },
                    other => other,
                },
                other => other,
            }
        ),
{
    reveal(spec_tag_word_converted);
    reveal(spec_word_with_free);
    reveal(spec_selbri);
    reveal(spec_word);
    reveal(spec_frees);
}

/// ```text
/// Selbri <- SelbriBefore* Selbri1
/// ```
#[verifier::opaque]
pub closed spec fn spec_selbri(toks: Seq<Token>, pos: nat) -> Outcome
    decreases rest(toks, pos), 88nat,
{
    match spec_many0_selbri_before(toks, pos) {
        Outcome::Matched(n1) => shifted(spec_selbri_1(toks, pos + n1), n1),
        other => other,
    }
}

/// What [`spec_selbri`] says.
pub proof fn lemma_selbri(toks: Seq<Token>, pos: nat)
    ensures
        spec_selbri(toks, pos) == (
            match spec_many0_selbri_before(toks, pos) {
                Outcome::Matched(n1) => shifted(spec_selbri_1(toks, pos + n1), n1),
                other => other,
            }
        ),
{
    reveal(spec_selbri);
    reveal(spec_many0_selbri_before);
    reveal(spec_selbri_1);
}

/// ```text
/// SelbriBefore <- SelbriBeforeNa / SelbriBeforeTag
/// ```
#[verifier::opaque]
pub closed spec fn spec_selbri_before(toks: Seq<Token>, pos: nat) -> Outcome
    decreases rest(toks, pos), 33nat,
{
    spec_alt(spec_selbri_before_na(toks, pos), spec_selbri_before_tag(toks, pos))
}

/// What [`spec_selbri_before`] says.
pub proof fn lemma_selbri_before(toks: Seq<Token>, pos: nat)
    ensures
        spec_selbri_before(toks, pos) == (
            spec_alt(spec_selbri_before_na(toks, pos), spec_selbri_before_tag(toks, pos))
        ),
{
    reveal(spec_selbri_before);
    reveal(spec_selbri_before_na);
    reveal(spec_selbri_before_tag);
}

/// As many `SelbriBefore` as match in a row. It is an error if one of them
/// matches without taking a token.
#[verifier::opaque]
pub closed spec fn spec_many0_selbri_before(toks: Seq<Token>, pos: nat) -> Outcome
    decreases rest(toks, pos), 34nat,
{
    match spec_selbri_before(toks, pos) {
        Outcome::Matched(len) => if advanced(toks, pos, len) {
            shifted(spec_many0_selbri_before(toks, pos + len), len)
        } else {
            Outcome::Error(combinator_at(pos, ErrorKind::Many0))
        },
        Outcome::Error(_) => Outcome::Matched(0),
        Outcome::Failure(report) => Outcome::Failure(report),
    }
}

/// What [`spec_many0_selbri_before`] says.
pub proof fn lemma_many0_selbri_before(toks: Seq<Token>, pos: nat)
    ensures
        spec_many0_selbri_before(toks, pos) == (match spec_selbri_before(toks, pos) {
            Outcome::Matched(len) => if advanced(toks, pos, len) {
                shifted(spec_many0_selbri_before(toks, pos + len), len)
            } else {
                Outcome::Error(combinator_at(pos, ErrorKind::Many0))
            },
            Outcome::Error(_) => Outcome::Matched(0),
            Outcome::Failure(report) => Outcome::Failure(report),
        }),
{
    reveal(spec_many0_selbri_before);
    reveal(spec_selbri_before);
}

/// ```text
/// SelbriBeforeNa <- Na Frees
/// ```
#[verifier::opaque]
pub closed spec fn spec_selbri_before_na(toks: Seq<Token>, pos: nat) -> Outcome
    decreases rest(toks, pos), 4nat,
{
    spec_word_with_free(toks, pos, Selmaho::Na)
}

/// What [`spec_selbri_before_na`] says.
pub proof fn lemma_selbri_before_na(toks: Seq<Token>, pos: nat)
    ensures
        spec_selbri_before_na(toks, pos) == (
            spec_word_with_free(toks, pos, Selmaho::Na)
        ),
{
    reveal(spec_selbri_before_na);
    reveal(spec_word_with_free);
}

/// ```text
/// SelbriBeforeTag <- TagWords
/// ```
#[verifier::opaque]
pub closed spec fn spec_selbri_before_tag(toks: Seq<Token>, pos: nat) -> Outcome
    decreases rest(toks, pos), 32nat,
{
    spec_tag_words(toks, pos)
}

/// What [`spec_selbri_before_tag`] says.
pub proof fn lemma_selbri_before_tag(toks: Seq<Token>, pos: nat)
    ensures
        spec_selbri_before_tag(toks, pos) == (
            spec_tag_words(toks, pos)
        ),
{
    reveal(spec_selbri_before_tag);
    reveal(spec_tag_words);
}

/// ```text
/// Selbri1 <- Selbri2List
/// ```
#[verifier::opaque]
pub closed spec fn spec_selbri_1(toks: Seq<Token>, pos: nat) -> Outcome
    decreases rest(toks, pos), 87nat,
{
    spec_selbri_2_list(toks, pos)
}

/// What [`spec_selbri_1`] says.
pub proof fn lemma_selbri_1(toks: Seq<Token>, pos: nat)
    ensures
        spec_selbri_1(toks, pos) == (
            spec_selbri_2_list(toks, pos)
        ),
{
    reveal(spec_selbri_1);
    reveal(spec_selbri_2_list);
}

/// ```text
/// Selbri2List <- Selbri2 Selbri2ListNext*
/// ```
#[verifier::opaque]
pub closed spec fn spec_selbri_2_list(toks: Seq<Token>, pos: nat) -> Outcome
    decreases rest(toks, pos), 86nat,
{
    match spec_selbri_2(toks, pos) {
        Outcome::Matched(n1) => shifted(spec_many0_selbri_2_list_next(toks, pos + n1), n1),
        other => other,
    }
}

/// What [`spec_selbri_2_list`] says.
pub proof fn lemma_selbri_2_list(toks: Seq<Token>, pos: nat)
    ensures
        spec_selbri_2_list(toks, pos) == (
            match spec_selbri_2(toks, pos) {
                Outcome::Matched(n1) => shifted(
                    spec_many0_selbri_2_list_next(toks, pos + n1),
                    n1,
                ),
                other => other,
            }
        ),
{
    reveal(spec_selbri_2_list);
    reveal(spec_selbri_2);
    reveal(spec_many0_selbri_2_list_next);
}

/// ```text
/// Selbri2 <- Selbri3+
/// ```
#[verifier::opaque]
pub closed spec fn spec_selbri_2(toks: Seq<Token>, pos: nat) -> Outcome
    decreases rest(toks, pos), 83nat,
{
    spec_many1_selbri_3(toks, pos)
}

/// What [`spec_selbri_2`] says.
pub proof fn lemma_selbri_2(toks: Seq<Token>, pos: nat)
    ensures
        spec_selbri_2(toks, pos) == (
            spec_many1_selbri_3(toks, pos)
        ),
{
    reveal(spec_selbri_2);
    reveal(spec_many1_selbri_3);
}

/// ```text
/// Selbri3 <- Selbri4 Selbri3ConnectedPost*
/// ```
#[verifier::opaque]
pub closed spec fn spec_selbri_3(toks: Seq<Token>, pos: nat) -> Outcome
    decreases rest(toks, pos), 81nat,
{
    match spec_selbri_4(toks, pos) {
        Outcome::Matched(n1) => shifted(spec_many0_selbri_3_connected_post(toks, pos + n1), n1),
        other => other,
    }
}

/// What [`spec_selbri_3`] says.
pub proof fn lemma_selbri_3(toks: Seq<Token>, pos: nat)
    ensures
        spec_selbri_3(toks, pos) == (
            match spec_selbri_4(toks, pos) {
                Outcome::Matched(n1) => shifted(
                    spec_many0_selbri_3_connected_post(toks, pos + n1),
                    n1,
                ),
                other => other,
            }
        ),
{
    reveal(spec_selbri_3);
    reveal(spec_selbri_4);
    reveal(spec_many0_selbri_3_connected_post);
}

/// One `Selbri3` or more in a row. It is an error if one of them matches
/// without taking a token.
#[verifier::opaque]
pub closed spec fn spec_many1_selbri_3(toks: Seq<Token>, pos: nat) -> Outcome
    decreases rest(toks, pos), 82nat,
{
    match spec_selbri_3(toks, pos) {
        Outcome::Matched(len) => if advanced(toks, pos, len) {
            shifted(spec_many1_selbri_3_more(toks, pos + len), len)
        } else {
            Outcome::Error(combinator_at(pos, ErrorKind::Many1))
        },
        other => other,
    }
}

/// What follows the first `Selbri3` of a row of them.
#[verifier::opaque]
pub closed spec fn spec_many1_selbri_3_more(toks: Seq<Token>, pos: nat) -> Outcome
    decreases rest(toks, pos), 82nat,
{
    match spec_selbri_3(toks, pos) {
        Outcome::Matched(len) => if advanced(toks, pos, len) {
            shifted(spec_many1_selbri_3_more(toks, pos + len), len)
        } else {
            Outcome::Error(combinator_at(pos, ErrorKind::Many1))
        },
        Outcome::Error(_) => Outcome::Matched(0),
        Outcome::Failure(report) => Outcome::Failure(report),
    }
}

/// What [`spec_many1_selbri_3`] and [`spec_many1_selbri_3_more`] say.
pub proof fn lemma_many1_selbri_3(toks: Seq<Token>, pos: nat)
    ensures
        spec_many1_selbri_3(toks, pos) == (match spec_selbri_3(toks, pos) {
            Outcome::Matched(len) => if advanced(toks, pos, len) {
                shifted(spec_many1_selbri_3_more(toks, pos + len), len)
            } else {
                Outcome::Error(combinator_at(pos, ErrorKind::Many1))
            },
            other => other,
        }),
        spec_many1_selbri_3_more(toks, pos) == (match spec_selbri_3(toks, pos) {
            Outcome::Matched(len) => if advanced(toks, pos, len) {
                shifted(spec_many1_selbri_3_more(toks, pos + len), len)
            } else {
                Outcome::Error(combinator_at(pos, ErrorKind::Many1))
            },
            Outcome::Error(_) => Outcome::Matched(0),
            Outcome::Failure(report) => Outcome::Failure(report),
        }),
{
    reveal(spec_many1_selbri_3);
    reveal(spec_many1_selbri_3_more);
    reveal(spec_selbri_3);
}

/// ```text
/// Selbri4 <- Selbri5List
/// ```
#[verifier::opaque]
pub closed spec fn spec_selbri_4(toks: Seq<Token>, pos: nat) -> Outcome
    decreases rest(toks, pos), 77nat,
{
    spec_selbri_5_list(toks, pos)
}

/// What [`spec_selbri_4`] says.
pub proof fn lemma_selbri_4(toks: Seq<Token>, pos: nat)
    ensures
        spec_selbri_4(toks, pos) == (
            spec_selbri_5_list(toks, pos)
        ),
{
    reveal(spec_selbri_4);
    reveal(spec_selbri_5_list);
}

/// ```text
/// Selbri5List <- Selbri5 Selbri5ListNext*
/// ```
#[verifier::opaque]
pub closed spec fn spec_selbri_5_list(toks: Seq<Token>, pos: nat) -> Outcome
    decreases rest(toks, pos), 76nat,
{
    match spec_selbri_5(toks, pos) {
        Outcome::Matched(n1) => shifted(spec_many0_selbri_5_list_next(toks, pos + n1), n1),
        other => other,
    }
}

/// What [`spec_selbri_5_list`] says.
pub proof fn lemma_selbri_5_list(toks: Seq<Token>, pos: nat)
    ensures
        spec_selbri_5_list(toks, pos) == (
            match spec_selbri_5(toks, pos) {
                Outcome::Matched(n1) => shifted(
                    spec_many0_selbri_5_list_next(toks, pos + n1),
                    n1,
                ),
                other => other,
            }
        ),
{
    reveal(spec_selbri_5_list);
    reveal(spec_selbri_5);
    reveal(spec_many0_selbri_5_list_next);
}

/// ```text
/// Selbri5 <- SelbriGuhek* Selbri6
/// ```
#[verifier::opaque]
pub closed spec fn spec_selbri_5(toks: Seq<Token>, pos: nat) -> Outcome
    decreases rest(toks, pos), 73nat,
{
    match spec_many0_selbri_guhek(toks, pos) {
        Outcome::Matched(n1) => shifted(spec_selbri_6(toks, pos + n1), n1),
        other => other,
    }
}

/// What [`spec_selbri_5`] says.
pub proof fn lemma_selbri_5(toks: Seq<Token>, pos: nat)
    ensures
        spec_selbri_5(toks, pos) == (
            match spec_many0_selbri_guhek(toks, pos) {
                Outcome::Matched(n1) => shifted(spec_selbri_6(toks, pos + n1), n1),
                other => other,
            }
        ),
{
    reveal(spec_selbri_5);
    reveal(spec_many0_selbri_guhek);
    reveal(spec_selbri_6);
}

/// ```text
/// SelbriGuhek <- Nahe? Frees Guhek Selbri Gik
/// ```
#[verifier::opaque]
pub closed spec fn spec_selbri_guhek(toks: Seq<Token>, pos: nat) -> Outcome
    decreases rest(toks, pos), 26nat,
{
    match spec_opt(spec_word(toks, pos, Selmaho::Nahe)) {
        Outcome::Matched(n1) => match spec_frees(toks, pos + n1) {
            Outcome::Matched(n2) => match spec_guhek(toks, pos + n1 + n2) {
                Outcome::Matched(n3) => match (if advanced(toks, pos, n1 + n2 + n3) {
                    spec_selbri(toks, pos + n1 + n2 + n3)
                } else {
                    stuck(pos)
                }) {
                    Outcome::Matched(n4) => shifted(
                        spec_gik(toks, pos + n1 + n2 + n3 + n4),
                        n1 + n2 + n3 + n4,
                    ),
                    other => other,
                },
                other => other,
            },
            other => other,
        },
        other => other,
    }
}

/// What [`spec_selbri_guhek`] says.
pub proof fn lemma_selbri_guhek(toks: Seq<Token>, pos: nat)
    ensures
        spec_selbri_guhek(toks, pos) == (
            match spec_opt(spec_word(toks, pos, Selmaho::Nahe)) {
                Outcome::Matched(n1) => match spec_frees(toks, pos + n1) {
                    Outcome::Matched(n2) => match spec_guhek(toks, pos + n1 + n2) {
                        Outcome::Matched(n3) => match (if advanced(toks, pos, n1 + n2 + n3) {
                            spec_selbri(toks, pos + n1 + n2 + n3)
                        } else {
                            stuck(pos)
                        }) {
                            Outcome::Matched(n4) => shifted(
                                spec_gik(toks, pos + n1 + n2 + n3 + n4),
                                n1 + n2 + n3 + n4,
                            ),
                            other => other,
                        },
                        other => other,
                    },
                    other => other,
                },
                other => other,
            }
        ),
{
    reveal(spec_selbri_guhek);
    reveal(spec_word);
    reveal(spec_frees);
    reveal(spec_guhek);
    reveal(spec_selbri);
    reveal(spec_gik);
}

/// As many `SelbriGuhek` as match in a row. It is an error if one of them
/// matches without taking a token.
#[verifier::opaque]
pub closed spec fn spec_many0_selbri_guhek(toks: Seq<Token>, pos: nat) -> Outcome
    decreases rest(toks, pos), 27nat,
{
    match spec_selbri_guhek(toks, pos) {
        Outcome::Matched(len) => if advanced(toks, pos, len) {
            shifted(spec_many0_selbri_guhek(toks, pos + len), len)
        } else {
            Outcome::Error(combinator_at(pos, ErrorKind::Many0))
        },
        Outcome::Error(_) => Outcome::Matched(0),
        Outcome::Failure(report) => Outcome::Failure(report),
    }
}

/// What [`spec_many0_selbri_guhek`] says.
pub proof fn lemma_many0_selbri_guhek(toks: Seq<Token>, pos: nat)
    ensures
        spec_many0_selbri_guhek(toks, pos) == (match spec_selbri_guhek(toks, pos) {
            Outcome::Matched(len) => if advanced(toks, pos, len) {
                shifted(spec_many0_selbri_guhek(toks, pos + len), len)
            } else {
                Outcome::Error(combinator_at(pos, ErrorKind::Many0))
            },
            Outcome::Error(_) => Outcome::Matched(0),
            Outcome::Failure(report) => Outcome::Failure(report),
        }),
{
    reveal(spec_many0_selbri_guhek);
    reveal(spec_selbri_guhek);
}

/// ```text
/// Guhek <- Se? Guha Nai? Frees
/// ```
#[verifier::opaque]
pub closed spec fn spec_guhek(toks: Seq<Token>, pos: nat) -> Outcome
    decreases rest(toks, pos), 25nat,
{
    match spec_opt(spec_word(toks, pos, Selmaho::Se)) {
        Outcome::Matched(n1) => match spec_word(toks, pos + n1, Selmaho::Guha) {
            Outcome::Matched(n2) => match spec_opt(spec_word(toks, pos + n1 + n2, Selmaho::Nai)) {
                Outcome::Matched(n3) => shifted(
                    spec_frees(toks, pos + n1 + n2 + n3),
                    n1 + n2 + n3,
                ),
                other => other,
            },
            other => other,
        },
        other => other,
    }
}

/// What [`spec_guhek`] says.
pub proof fn lemma_guhek(toks: Seq<Token>, pos: nat)
    ensures
        spec_guhek(toks, pos) == (
            match spec_opt(spec_word(toks, pos, Selmaho::Se)) {
                Outcome::Matched(n1) => match spec_word(toks, pos + n1, Selmaho::Guha) {
                    Outcome::Matched(n2) => match spec_opt(
                        spec_word(toks, pos + n1 + n2, Selmaho::Nai),
                    ) {
                        Outcome::Matched(n3) => shifted(
                            spec_frees(toks, pos + n1 + n2 + n3),
                            n1 + n2 + n3,
                        ),
                        other => other,
                    },
                    other => other,
                },
                other => other,
            }
        ),
{
    reveal(spec_guhek);
    reveal(spec_word);
    reveal(spec_frees);
}

/// ```text
/// Gik <- Gi Nai? Frees
/// ```
#[verifier::opaque]
pub closed spec fn spec_gik(toks: Seq<Token>, pos: nat) -> Outcome
    decreases rest(toks, pos), 25nat,
{
    match spec_word(toks, pos, Selmaho::Gi) {
        Outcome::Matched(n1) => match spec_opt(spec_word(toks, pos + n1, Selmaho::Nai)) {
            Outcome::Matched(n2) => shifted(spec_frees(toks, pos + n1 + n2), n1 + n2),
            other => other,
        },
        other => other,
    }
}

/// What [`spec_gik`] says.
pub proof fn lemma_gik(toks: Seq<Token>, pos: nat)
    ensures
        spec_gik(toks, pos) == (
            match spec_word(toks, pos, Selmaho::Gi) {
                Outcome::Matched(n1) => match spec_opt(spec_word(toks, pos + n1, Selmaho::Nai)) {
                    Outcome::Matched(n2) => shifted(spec_frees(toks, pos + n1 + n2), n1 + n2),
                    other => other,
                },
                other => other,
            }
        ),
{
    reveal(spec_gik);
    reveal(spec_word);
    reveal(spec_frees);
}

/// ```text
/// Selbri6 <- TanruUnitList
/// ```
#[verifier::opaque]
pub closed spec fn spec_selbri_6(toks: Seq<Token>, pos: nat) -> Outcome
    decreases rest(toks, pos), 72nat,
{
    spec_tanru_unit_list(toks, pos)
}

/// What [`spec_selbri_6`] says.
pub proof fn lemma_selbri_6(toks: Seq<Token>, pos: nat)
    ensures
        spec_selbri_6(toks, pos) == (
            spec_tanru_unit_list(toks, pos)
        ),
{
    reveal(spec_selbri_6);
    reveal(spec_tanru_unit_list);
}

/// ```text
/// TanruUnitList <- TanruUnit TanruUnitListNext*
/// ```
#[verifier::opaque]
pub closed spec fn spec_tanru_unit_list(toks: Seq<Token>, pos: nat) -> Outcome
    decreases rest(toks, pos), 71nat,
{
    match spec_tanru_unit(toks, pos) {
        Outcome::Matched(n1) => shifted(spec_many0_tanru_unit_list_next(toks, pos + n1), n1),
        other => other,
    }
}

/// What [`spec_tanru_unit_list`] says.
pub proof fn lemma_tanru_unit_list(toks: Seq<Token>, pos: nat)
    ensures
        spec_tanru_unit_list(toks, pos) == (
            match spec_tanru_unit(toks, pos) {
                Outcome::Matched(n1) => shifted(
                    spec_many0_tanru_unit_list_next(toks, pos + n1),
                    n1,
                ),
                other => other,
            }
        ),
{
    reveal(spec_tanru_unit_list);
    reveal(spec_tanru_unit);
    reveal(spec_many0_tanru_unit_list_next);
}

/// ```text
/// TanruUnit <- TanruUnit1List
/// ```
#[verifier::opaque]
pub closed spec fn spec_tanru_unit(toks: Seq<Token>, pos: nat) -> Outcome
    decreases rest(toks, pos), 68nat,
{
    spec_tanru_unit_1_list(toks, pos)
}

/// What [`spec_tanru_unit`] says.
pub proof fn lemma_tanru_unit(toks: Seq<Token>, pos: nat)
    ensures
        spec_tanru_unit(toks, pos) == (
            spec_tanru_unit_1_list(toks, pos)
        ),
{
    reveal(spec_tanru_unit);
    reveal(spec_tanru_unit_1_list);
}

/// ```text
/// TanruUnit1List <- TanruUnit1 TanruUnit1ListNext*
/// ```
#[verifier::opaque]
pub closed spec fn spec_tanru_unit_1_list(toks: Seq<Token>, pos: nat) -> Outcome
    decreases rest(toks, pos), 67nat,
{
    match spec_tanru_unit_1(toks, pos) {
        Outcome::Matched(n1) => shifted(spec_many0_tanru_unit_1_list_next(toks, pos + n1), n1),
        other => other,
    }
}

/// What [`spec_tanru_unit_1_list`] says.
pub proof fn lemma_tanru_unit_1_list(toks: Seq<Token>, pos: nat)
    ensures
        spec_tanru_unit_1_list(toks, pos) == (
            match spec_tanru_unit_1(toks, pos) {
                Outcome::Matched(n1) => shifted(
                    spec_many0_tanru_unit_1_list_next(toks, pos + n1),
                    n1,
                ),
                other => other,
            }
        ),
{
    reveal(spec_tanru_unit_1_list);
    reveal(spec_tanru_unit_1);
    reveal(spec_many0_tanru_unit_1_list_next);
}

/// ```text
/// TanruUnit1 <- BeforeTanruUnit* TanruUnit2 BoundArguments?
/// ```
#[verifier::opaque]
pub closed spec fn spec_tanru_unit_1(toks: Seq<Token>, pos: nat) -> Outcome
    decreases rest(toks, pos), 64nat,
{
    match spec_many0_before_tanru_unit(toks, pos) {
        Outcome::Matched(n1) => match spec_tanru_unit_2(toks, pos + n1) {
            Outcome::Matched(n2) => shifted(
                spec_opt(spec_bound_arguments(toks, pos + n1 + n2)),
                n1 + n2,
            ),
            other => other,
        },
        other => other,
    }
}

/// What [`spec_tanru_unit_1`] says.
pub proof fn lemma_tanru_unit_1(toks: Seq<Token>, pos: nat)
    ensures
        spec_tanru_unit_1(toks, pos) == (
            match spec_many0_before_tanru_unit(toks, pos) {
                Outcome::Matched(n1) => match spec_tanru_unit_2(toks, pos + n1) {
                    Outcome::Matched(n2) => shifted(
                        spec_opt(spec_bound_arguments(toks, pos + n1 + n2)),
                        n1 + n2,
                    ),
                    other => other,
                },
                other => other,
            }
        ),
{
    reveal(spec_tanru_unit_1);
    reveal(spec_many0_before_tanru_unit);
    reveal(spec_tanru_unit_2);
    reveal(spec_bound_arguments);
}

/// ```text
/// BeforeTanruUnit <- BeforeTanruUnitJai / BeforeTanruUnitNahe / BeforeTanruUnitSe
/// ```
#[verifier::opaque]
pub closed spec fn spec_before_tanru_unit(toks: Seq<Token>, pos: nat) -> Outcome
    decreases rest(toks, pos), 33nat,
{
    spec_alt(
        spec_alt(
            spec_before_tanru_unit_jai(toks, pos),
            spec_before_tanru_unit_nahe(toks, pos),
        ),
        spec_before_tanru_unit_se(toks, pos),
    )
}

/// What [`spec_before_tanru_unit`] says.
pub proof fn lemma_before_tanru_unit(toks: Seq<Token>, pos: nat)
    ensures
        spec_before_tanru_unit(toks, pos) == (
            spec_alt(
                spec_alt(
                    spec_before_tanru_unit_jai(toks, pos),
                    spec_before_tanru_unit_nahe(toks, pos),
                ),
                spec_before_tanru_unit_se(toks, pos),
            )
        ),
{
    reveal(spec_before_tanru_unit);
    reveal(spec_before_tanru_unit_jai);
    reveal(spec_before_tanru_unit_nahe);
    reveal(spec_before_tanru_unit_se);
}

/// As many `BeforeTanruUnit` as match in a row. It is an error if one of them
/// matches without taking a token.
#[verifier::opaque]
pub closed spec fn spec_many0_before_tanru_unit(toks: Seq<Token>, pos: nat) -> Outcome
    decreases rest(toks, pos), 34nat,
{
    match spec_before_tanru_unit(toks, pos) {
        Outcome::Matched(len) => if advanced(toks, pos, len) {
            shifted(spec_many0_before_tanru_unit(toks, pos + len), len)
        } else {
            Outcome::Error(combinator_at(pos, ErrorKind::Many0))
        },
        Outcome::Error(_) => Outcome::Matched(0),
        Outcome::Failure(report) => Outcome::Failure(report),
    }
}

/// What [`spec_many0_before_tanru_unit`] says.
pub proof fn lemma_many0_before_tanru_unit(toks: Seq<Token>, pos: nat)
    ensures
        spec_many0_before_tanru_unit(toks, pos) == (match spec_before_tanru_unit(toks, pos) {
            Outcome::Matched(len) => if advanced(toks, pos, len) {
                shifted(spec_many0_before_tanru_unit(toks, pos + len), len)
            } else {
                Outcome::Error(combinator_at(pos, ErrorKind::Many0))
            },
            Outcome::Error(_) => Outcome::Matched(0),
            Outcome::Failure(report) => Outcome::Failure(report),
        }),
{
    reveal(spec_many0_before_tanru_unit);
    reveal(spec_before_tanru_unit);
}

/// ```text
/// BeforeTanruUnitJai <- Jai Frees TagWords?
/// ```
#[verifier::opaque]
pub closed spec fn spec_before_tanru_unit_jai(toks: Seq<Token>, pos: nat) -> Outcome
    decreases rest(toks, pos), 32nat,
{
    match spec_word_with_free(toks, pos, Selmaho::Jai) {
        Outcome::Matched(n1) => shifted(spec_opt(spec_tag_words(toks, pos + n1)), n1),
        other => other,
    }
}

/// What [`spec_before_tanru_unit_jai`] says.
pub proof fn lemma_before_tanru_unit_jai(toks: Seq<Token>, pos: nat)
    ensures
        spec_before_tanru_unit_jai(toks, pos) == (
            match spec_word_with_free(toks, pos, Selmaho::Jai) {
                Outcome::Matched(n1) => shifted(spec_opt(spec_tag_words(toks, pos + n1)), n1),
                other => other,
            }
        ),
{
    reveal(spec_before_tanru_unit_jai);
    reveal(spec_word_with_free);
    reveal(spec_tag_words);
}

/// ```text
/// BeforeTanruUnitNahe <- Nahe Frees
/// ```
#[verifier::opaque]
pub closed spec fn spec_before_tanru_unit_nahe(toks: Seq<Token>, pos: nat) -> Outcome
    decreases rest(toks, pos), 4nat,
{
    spec_word_with_free(toks, pos, Selmaho::Nahe)
}

/// What [`spec_before_tanru_unit_nahe`] says.
pub proof fn lemma_before_tanru_unit_nahe(toks: Seq<Token>, pos: nat)
    ensures
        spec_before_tanru_unit_nahe(toks, pos) == (
            spec_word_with_free(toks, pos, Selmaho::Nahe)
        ),
{
    reveal(spec_before_tanru_unit_nahe);
    reveal(spec_word_with_free);
}

/// ```text
/// BeforeTanruUnitSe <- Se Frees
/// ```
#[verifier::opaque]
pub closed spec fn spec_before_tanru_unit_se(toks: Seq<Token>, pos: nat) -> Outcome
    decreases rest(toks, pos), 4nat,
{
    spec_word_with_free(toks, pos, Selmaho::Se)
}

/// What [`spec_before_tanru_unit_se`] says.
pub proof fn lemma_before_tanru_unit_se(toks: Seq<Token>, pos: nat)
    ensures
        spec_before_tanru_unit_se(toks, pos) == (
            spec_word_with_free(toks, pos, Selmaho::Se)
        ),
{
    reveal(spec_before_tanru_unit_se);
    reveal(spec_word_with_free);
}

/// ```text
/// TanruUnit2 <- TanruUnit2GroupedTanru / TanruUnit2Gismu / TanruUnit2Lujvo /
///     TanruUnit2Fuhivla / TanruUnit2Goha / TanruUnit2Moi / TanruUnit2Me / TanruUnit2Nu /
///     TanruUnit2Nuha
/// ```
#[verifier::opaque]
pub closed spec fn spec_tanru_unit_2(toks: Seq<Token>, pos: nat) -> Outcome
    decreases rest(toks, pos), 46nat,
{
    spec_alt(
        spec_alt(
            spec_alt(
                spec_alt(
                    spec_alt(
                        spec_alt(
                            spec_alt(
                                spec_alt(
                                    spec_tanru_unit_2_grouped_tanru(toks, pos),
                                    spec_tanru_unit_2_gismu(toks, pos),
                                ),
                                spec_tanru_unit_2_lujvo(toks, pos),
                            ),
                            spec_tanru_unit_2_fuhivla(toks, pos),
                        ),
                        spec_tanru_unit_2_goha(toks, pos),
                    ),
                    spec_tanru_unit_2_moi(toks, pos),
                ),
                spec_tanru_unit_2_me(toks, pos),
            ),
            spec_tanru_unit_2_nu(toks, pos),
        ),
        spec_tanru_unit_2_nuha(toks, pos),
    )
}

/// What [`spec_tanru_unit_2`] says.
pub proof fn lemma_tanru_unit_2(toks: Seq<Token>, pos: nat)
    ensures
        spec_tanru_unit_2(toks, pos) == (
            spec_alt(
                spec_alt(
                    spec_alt(
                        spec_alt(
                            spec_alt(
                                spec_alt(
                                    spec_alt(
                                        spec_alt(
                                            spec_tanru_unit_2_grouped_tanru(toks, pos),
                                            spec_tanru_unit_2_gismu(toks, pos),
                                        ),
                                        spec_tanru_unit_2_lujvo(toks, pos),
                                    ),
                                    spec_tanru_unit_2_fuhivla(toks, pos),
                                ),
                                spec_tanru_unit_2_goha(toks, pos),
                            ),
                            spec_tanru_unit_2_moi(toks, pos),
                        ),
                        spec_tanru_unit_2_me(toks, pos),
                    ),
                    spec_tanru_unit_2_nu(toks, pos),
                ),
                spec_tanru_unit_2_nuha(toks, pos),
            )
        ),
{
    reveal(spec_tanru_unit_2);
    reveal(spec_tanru_unit_2_grouped_tanru);
    reveal(spec_tanru_unit_2_gismu);
    reveal(spec_tanru_unit_2_lujvo);
    reveal(spec_tanru_unit_2_fuhivla);
    reveal(spec_tanru_unit_2_goha);
    reveal(spec_tanru_unit_2_moi);
    reveal(spec_tanru_unit_2_me);
    reveal(spec_tanru_unit_2_nu);
    reveal(spec_tanru_unit_2_nuha);
}

/// ```text
/// TanruUnit2GroupedTanru <- Ke Frees Selbri2 Kehe? Frees
/// ```
#[verifier::opaque]
pub closed spec fn spec_tanru_unit_2_grouped_tanru(toks: Seq<Token>, pos: nat) -> Outcome
    decreases rest(toks, pos), 25nat,
{
    match spec_word_with_free(toks, pos, Selmaho::Ke) {
        Outcome::Matched(n1) => match (if advanced(toks, pos, n1) {
            spec_selbri_2(toks, pos + n1)
        } else {
            stuck(pos)
        }) {
            Outcome::Matched(n2) => match spec_opt(
                spec_word(toks, pos + n1 + n2, Selmaho::Kehe),
            ) {
                Outcome::Matched(n3) => shifted(
                    spec_frees(toks, pos + n1 + n2 + n3),
                    n1 + n2 + n3,
                ),
                other => other,
            },
            other => other,
        },
        other => other,
    }
}

/// What [`spec_tanru_unit_2_grouped_tanru`] says.
pub proof fn lemma_tanru_unit_2_grouped_tanru(toks: Seq<Token>, pos: nat)
    ensures
        spec_tanru_unit_2_grouped_tanru(toks, pos) == (
            match spec_word_with_free(toks, pos, Selmaho::Ke) {
                Outcome::Matched(n1) => match (if advanced(toks, pos, n1) {
                    spec_selbri_2(toks, pos + n1)
                } else {
                    stuck(pos)
                }) {
                    Outcome::Matched(n2) => match spec_opt(
                        spec_word(toks, pos + n1 + n2, Selmaho::Kehe),
                    ) {
                        Outcome::Matched(n3) => shifted(
                            spec_frees(toks, pos + n1 + n2 + n3),
                            n1 + n2 + n3,
                        ),
                        other => other,
                    },
                    other => other,
                },
                other => other,
            }
        ),
{
    reveal(spec_tanru_unit_2_grouped_tanru);
    reveal(spec_word_with_free);
    reveal(spec_selbri_2);
    reveal(spec_word);
    reveal(spec_frees);
}

/// ```text
/// TanruUnit2Gismu <- Gismu Frees
/// ```
#[verifier::opaque]
pub closed spec fn spec_tanru_unit_2_gismu(toks: Seq<Token>, pos: nat) -> Outcome
    decreases rest(toks, pos), 4nat,
{
    spec_word_with_free(toks, pos, Selmaho::Gismu)
}

/// What [`spec_tanru_unit_2_gismu`] says.
pub proof fn lemma_tanru_unit_2_gismu(toks: Seq<Token>, pos: nat)
    ensures
        spec_tanru_unit_2_gismu(toks, pos) == (
            spec_word_with_free(toks, pos, Selmaho::Gismu)
        ),
{
    reveal(spec_tanru_unit_2_gismu);
    reveal(spec_word_with_free);
}

/// ```text
/// TanruUnit2Lujvo <- Lujvo Frees
/// ```
#[verifier::opaque]
pub closed spec fn spec_tanru_unit_2_lujvo(toks: Seq<Token>, pos: nat) -> Outcome
    decreases rest(toks, pos), 4nat,
{
    spec_word_with_free(toks, pos, Selmaho::Lujvo)
}

/// What [`spec_tanru_unit_2_lujvo`] says.
pub proof fn lemma_tanru_unit_2_lujvo(toks: Seq<Token>, pos: nat)
    ensures
        spec_tanru_unit_2_lujvo(toks, pos) == (
            spec_word_with_free(toks, pos, Selmaho::Lujvo)
        ),
{
    reveal(spec_tanru_unit_2_lujvo);
    reveal(spec_word_with_free);
}

/// ```text
/// TanruUnit2Fuhivla <- Fuhivla Frees
/// ```
#[verifier::opaque]
pub closed spec fn spec_tanru_unit_2_fuhivla(toks: Seq<Token>, pos: nat) -> Outcome
    decreases rest(toks, pos), 4nat,
{
    spec_word_with_free(toks, pos, Selmaho::Fuhivla)
}

/// What [`spec_tanru_unit_2_fuhivla`] says.
pub proof fn lemma_tanru_unit_2_fuhivla(toks: Seq<Token>, pos: nat)
    ensures
        spec_tanru_unit_2_fuhivla(toks, pos) == (
            spec_word_with_free(toks, pos, Selmaho::Fuhivla)
        ),
{
    reveal(spec_tanru_unit_2_fuhivla);
    reveal(spec_word_with_free);
}

/// ```text
/// TanruUnit2Goha <- Goha Raho? Frees
/// ```
#[verifier::opaque]
pub closed spec fn spec_tanru_unit_2_goha(toks: Seq<Token>, pos: nat) -> Outcome
    decreases rest(toks, pos), 25nat,
{
    match spec_word(toks, pos, Selmaho::Goha) {
        Outcome::Matched(n1) => match spec_opt(spec_word(toks, pos + n1, Selmaho::Raho)) {
            Outcome::Matched(n2) => shifted(spec_frees(toks, pos + n1 + n2), n1 + n2),
            other => other,
        },
        other => other,
    }
}

/// What [`spec_tanru_unit_2_goha`] says.
pub proof fn lemma_tanru_unit_2_goha(toks: Seq<Token>, pos: nat)
    ensures
        spec_tanru_unit_2_goha(toks, pos) == (
            match spec_word(toks, pos, Selmaho::Goha) {
                Outcome::Matched(n1) => match spec_opt(spec_word(toks, pos + n1, Selmaho::Raho)) {
                    Outcome::Matched(n2) => shifted(spec_frees(toks, pos + n1 + n2), n1 + n2),
                    other => other,
                },
                other => other,
            }
        ),
{
    reveal(spec_tanru_unit_2_goha);
    reveal(spec_word);
    reveal(spec_frees);
}

/// ```text
/// TanruUnit2Moi <- MiscNumbers Moi Frees
/// ```
#[verifier::opaque]
pub closed spec fn spec_tanru_unit_2_moi(toks: Seq<Token>, pos: nat) -> Outcome
    decreases rest(toks, pos), 25nat,
{
    match spec_misc_numbers(toks, pos) {
        Outcome::Matched(n1) => match spec_word(toks, pos + n1, Selmaho::Moi) {
            Outcome::Matched(n2) => shifted(spec_frees(toks, pos + n1 + n2), n1 + n2),
            other => other,
        },
        other => other,
    }
}

/// What [`spec_tanru_unit_2_moi`] says.
pub proof fn lemma_tanru_unit_2_moi(toks: Seq<Token>, pos: nat)
    ensures
        spec_tanru_unit_2_moi(toks, pos) == (
            match spec_misc_numbers(toks, pos) {
                Outcome::Matched(n1) => match spec_word(toks, pos + n1, Selmaho::Moi) {
                    Outcome::Matched(n2) => shifted(spec_frees(toks, pos + n1 + n2), n1 + n2),
                    other => other,
                },
                other => other,
            }
        ),
{
    reveal(spec_tanru_unit_2_moi);
    reveal(spec_misc_numbers);
    reveal(spec_word);
    reveal(spec_frees);
}

/// ```text
/// MiscNumbers <- NumberRest+
/// ```
#[verifier::opaque]
pub closed spec fn spec_misc_numbers(toks: Seq<Token>, pos: nat) -> Outcome
    decreases rest(toks, pos), 16nat,
{
    spec_many1_number_rest(toks, pos)
}

/// What [`spec_misc_numbers`] says.
pub proof fn lemma_misc_numbers(toks: Seq<Token>, pos: nat)
    ensures
        spec_misc_numbers(toks, pos) == (
            spec_many1_number_rest(toks, pos)
        ),
{
    reveal(spec_misc_numbers);
    reveal(spec_many1_number_rest);
}

/// ```text
/// TanruUnit2Me <- Me Frees Sumti Mehu? Frees Moi Frees?
/// ```
#[verifier::opaque]
pub closed spec fn spec_tanru_unit_2_me(toks: Seq<Token>, pos: nat) -> Outcome
    decreases rest(toks, pos), 45nat,
{
    match spec_word_with_free(toks, pos, Selmaho::Me) {
        Outcome::Matched(n1) => match spec_sumti(toks, pos + n1) {
            Outcome::Matched(n2) => match spec_opt(
                spec_word(toks, pos + n1 + n2, Selmaho::Mehu),
            ) {
                Outcome::Matched(n3) => match spec_frees(toks, pos + n1 + n2 + n3) {
                    Outcome::Matched(n4) => shifted(
                        spec_opt(
                            spec_word_with_free(toks, pos + n1 + n2 + n3 + n4, Selmaho::Moi),
                        ),
                        n1 + n2 + n3 + n4,
                    ),
                    other => other,
                },
                other => other,
            },
            other => other,
        },
        other => other,
    }
}

/// What [`spec_tanru_unit_2_me`] says.
pub proof fn lemma_tanru_unit_2_me(toks: Seq<Token>, pos: nat)
    ensures
        spec_tanru_unit_2_me(toks, pos) == (
            match spec_word_with_free(toks, pos, Selmaho::Me) {
                Outcome::Matched(n1) => match spec_sumti(toks, pos + n1) {
                    Outcome::Matched(n2) => match spec_opt(
                        spec_word(toks, pos + n1 + n2, Selmaho::Mehu),
                    ) {
                        Outcome::Matched(n3) => match spec_frees(toks, pos + n1 + n2 + n3) {
                            Outcome::Matched(n4) => shifted(
                                spec_opt(
                                    spec_word_with_free(
                                        toks,
                                        pos + n1 + n2 + n3 + n4,
                                        Selmaho::Moi,
                                    ),
                                ),
                                n1 + n2 + n3 + n4,
                            ),
                            other => other,
                        },
                        other => other,
                    },
                    other => other,
                },
                other => other,
            }
        ),
{
    reveal(spec_tanru_unit_2_me);
    reveal(spec_word_with_free);
    reveal(spec_sumti);
    reveal(spec_word);
    reveal(spec_frees);
}

/// ```text
/// Sumti <- Sumti1 VuhoRelative?
/// ```
#[verifier::opaque]
pub closed spec fn spec_sumti(toks: Seq<Token>, pos: nat) -> Outcome
    decreases rest(toks, pos), 44nat,
{
    match spec_sumti_1(toks, pos) {
        Outcome::Matched(n1) => shifted(spec_opt(spec_vuho_relative(toks, pos + n1)), n1),
        other => other,
    }
}

/// What [`spec_sumti`] says.
pub proof fn lemma_sumti(toks: Seq<Token>, pos: nat)
    ensures
        spec_sumti(toks, pos) == (
            match spec_sumti_1(toks, pos) {
                Outcome::Matched(n1) => shifted(spec_opt(spec_vuho_relative(toks, pos + n1)), n1),
                other => other,
            }
        ),
{
    reveal(spec_sumti);
    reveal(spec_sumti_1);
    reveal(spec_vuho_relative);
}

/// ```text
/// Sumti1 <- Sumti2 SumtiConnectedPost*
/// ```
#[verifier::opaque]
pub closed spec fn spec_sumti_1(toks: Seq<Token>, pos: nat) -> Outcome
    decreases rest(toks, pos), 43nat,
{
    match spec_sumti_2(toks, pos) {
        Outcome::Matched(n1) => shifted(spec_many0_sumti_connected_post(toks, pos + n1), n1),
        other => other,
    }
}

/// What [`spec_sumti_1`] says.
pub proof fn lemma_sumti_1(toks: Seq<Token>, pos: nat)
    ensures
        spec_sumti_1(toks, pos) == (
            match spec_sumti_2(toks, pos) {
                Outcome::Matched(n1) => shifted(
                    spec_many0_sumti_connected_post(toks, pos + n1),
                    n1,
                ),
                other => other,
            }
        ),
{
    reveal(spec_sumti_1);
    reveal(spec_sumti_2);
    reveal(spec_many0_sumti_connected_post);
}

/// ```text
/// Sumti2 <- Sumti3 Sumti2Next*
/// ```
#[verifier::opaque]
pub closed spec fn spec_sumti_2(toks: Seq<Token>, pos: nat) -> Outcome
    decreases rest(toks, pos), 39nat,
{
    match spec_sumti_3(toks, pos) {
        Outcome::Matched(n1) => shifted(spec_many0_sumti_2_next(toks, pos + n1), n1),
        other => other,
    }
}

/// What [`spec_sumti_2`] says.
pub proof fn lemma_sumti_2(toks: Seq<Token>, pos: nat)
    ensures
        spec_sumti_2(toks, pos) == (
            match spec_sumti_3(toks, pos) {
                Outcome::Matched(n1) => shifted(spec_many0_sumti_2_next(toks, pos + n1), n1),
                other => other,
            }
        ),
{
    reveal(spec_sumti_2);
    reveal(spec_sumti_3);
    reveal(spec_many0_sumti_2_next);
}

/// ```text
/// Sumti3 <- Sumti3ConnectedPre* Sumti4
/// ```
#[verifier::opaque]
pub closed spec fn spec_sumti_3(toks: Seq<Token>, pos: nat) -> Outcome
    decreases rest(toks, pos), 36nat,
{
    match spec_many0_sumti_3_connected_pre(toks, pos) {
        Outcome::Matched(n1) => shifted(spec_sumti_4(toks, pos + n1), n1),
        other => other,
    }
}

/// What [`spec_sumti_3`] says.
pub proof fn lemma_sumti_3(toks: Seq<Token>, pos: nat)
    ensures
        spec_sumti_3(toks, pos) == (
            match spec_many0_sumti_3_connected_pre(toks, pos) {
                Outcome::Matched(n1) => shifted(spec_sumti_4(toks, pos + n1), n1),
                other => other,
            }
        ),
{
    reveal(spec_sumti_3);
    reveal(spec_many0_sumti_3_connected_pre);
    reveal(spec_sumti_4);
}

/// ```text
/// Sumti3ConnectedPre <- Gek Sumti Gik
/// ```
#[verifier::opaque]
pub closed spec fn spec_sumti_3_connected_pre(toks: Seq<Token>, pos: nat) -> Outcome
    decreases rest(toks, pos), 34nat,
{
    match spec_gek(toks, pos) {
        Outcome::Matched(n1) => match (if advanced(toks, pos, n1) {
            spec_sumti(toks, pos + n1)
        } else {
            stuck(pos)
        }) {
            Outcome::Matched(n2) => shifted(spec_gik(toks, pos + n1 + n2), n1 + n2),
            other => other,
        },
        other => other,
    }
}

/// What [`spec_sumti_3_connected_pre`] says.
pub proof fn lemma_sumti_3_connected_pre(toks: Seq<Token>, pos: nat)
    ensures
        spec_sumti_3_connected_pre(toks, pos) == (
            match spec_gek(toks, pos) {
                Outcome::Matched(n1) => match (if advanced(toks, pos, n1) {
                    spec_sumti(toks, pos + n1)
                } else {
                    stuck(pos)
                }) {
                    Outcome::Matched(n2) => shifted(spec_gik(toks, pos + n1 + n2), n1 + n2),
                    other => other,
                },
                other => other,
            }
        ),
{
    reveal(spec_sumti_3_connected_pre);
    reveal(spec_gek);
    reveal(spec_sumti);
    reveal(spec_gik);
}

/// As many `Sumti3ConnectedPre` as match in a row. It is an error if one of them
/// matches without taking a token.
#[verifier::opaque]
pub closed spec fn spec_many0_sumti_3_connected_pre(toks: Seq<Token>, pos: nat) -> Outcome
    decreases rest(toks, pos), 35nat,
{
    match spec_sumti_3_connected_pre(toks, pos) {
        Outcome::Matched(len) => if advanced(toks, pos, len) {
            shifted(spec_many0_sumti_3_connected_pre(toks, pos + len), len)
        } else {
            Outcome::Error(combinator_at(pos, ErrorKind::Many0))
        },
        Outcome::Error(_) => Outcome::Matched(0),
        Outcome::Failure(report) => Outcome::Failure(report),
    }
}

/// What [`spec_many0_sumti_3_connected_pre`] says.
pub proof fn lemma_many0_sumti_3_connected_pre(toks: Seq<Token>, pos: nat)
    ensures
        spec_many0_sumti_3_connected_pre(
            toks,
            pos,
        ) == (match spec_sumti_3_connected_pre(toks, pos) {
            Outcome::Matched(len) => if advanced(toks, pos, len) {
                shifted(spec_many0_sumti_3_connected_pre(toks, pos + len), len)
            } else {
                Outcome::Error(combinator_at(pos, ErrorKind::Many0))
            },
            Outcome::Error(_) => Outcome::Matched(0),
            Outcome::Failure(report) => Outcome::Failure(report),
        }),
{
    reveal(spec_many0_sumti_3_connected_pre);
    reveal(spec_sumti_3_connected_pre);
}

/// ```text
/// Gek <- GekSeGaNai / GekJoikGi / GekTagGik
/// ```
#[verifier::opaque]
pub closed spec fn spec_gek(toks: Seq<Token>, pos: nat) -> Outcome
    decreases rest(toks, pos), 33nat,
{
    spec_alt(
        spec_alt(spec_gek_se_ga_nai(toks, pos), spec_gek_joik_gi(toks, pos)),
        spec_gek_tag_gik(toks, pos),
    )
}

/// What [`spec_gek`] says.
pub proof fn lemma_gek(toks: Seq<Token>, pos: nat)
    ensures
        spec_gek(toks, pos) == (
            spec_alt(
                spec_alt(spec_gek_se_ga_nai(toks, pos), spec_gek_joik_gi(toks, pos)),
                spec_gek_tag_gik(toks, pos),
            )
        ),
{
    reveal(spec_gek);
    reveal(spec_gek_se_ga_nai);
    reveal(spec_gek_joik_gi);
    reveal(spec_gek_tag_gik);
}

/// ```text
/// GekSeGaNai <- Se? Ga Nai? Frees
/// ```
#[verifier::opaque]
pub closed spec fn spec_gek_se_ga_nai(toks: Seq<Token>, pos: nat) -> Outcome
    decreases rest(toks, pos), 25nat,
{
    match spec_opt(spec_word(toks, pos, Selmaho::Se)) {
        Outcome::Matched(n1) => match spec_word(toks, pos + n1, Selmaho::Ga) {
            Outcome::Matched(n2) => match spec_opt(spec_word(toks, pos + n1 + n2, Selmaho::Nai)) {
                Outcome::Matched(n3) => shifted(
                    spec_frees(toks, pos + n1 + n2 + n3),
                    n1 + n2 + n3,
                ),
                other => other,
            },
            other => other,
        },
        other => other,
    }
}

/// What [`spec_gek_se_ga_nai`] says.
pub proof fn lemma_gek_se_ga_nai(toks: Seq<Token>, pos: nat)
    ensures
        spec_gek_se_ga_nai(toks, pos) == (
            match spec_opt(spec_word(toks, pos, Selmaho::Se)) {
                Outcome::Matched(n1) => match spec_word(toks, pos + n1, Selmaho::Ga) {
                    Outcome::Matched(n2) => match spec_opt(
                        spec_word(toks, pos + n1 + n2, Selmaho::Nai),
                    ) {
                        Outcome::Matched(n3) => shifted(
                            spec_frees(toks, pos + n1 + n2 + n3),
                            n1 + n2 + n3,
                        ),
                        other => other,
                    },
                    other => other,
                },
                other => other,
            }
        ),
{
    reveal(spec_gek_se_ga_nai);
    reveal(spec_word);
    reveal(spec_frees);
}

/// ```text
/// GekJoikGi <- Joik Gi Frees
/// ```
#[verifier::opaque]
pub closed spec fn spec_gek_joik_gi(toks: Seq<Token>, pos: nat) -> Outcome
    decreases rest(toks, pos), 25nat,
{
    match spec_joik(toks, pos) {
        Outcome::Matched(n1) => match spec_word(toks, pos + n1, Selmaho::Gi) {
            Outcome::Matched(n2) => shifted(spec_frees(toks, pos + n1 + n2), n1 + n2),
            other => other,
        },
        other => other,
    }
}

/// What [`spec_gek_joik_gi`] says.
pub proof fn lemma_gek_joik_gi(toks: Seq<Token>, pos: nat)
    ensures
        spec_gek_joik_gi(toks, pos) == (
            match spec_joik(toks, pos) {
                Outcome::Matched(n1) => match spec_word(toks, pos + n1, Selmaho::Gi) {
                    Outcome::Matched(n2) => shifted(spec_frees(toks, pos + n1 + n2), n1 + n2),
                    other => other,
                },
                other => other,
            }
        ),
{
    reveal(spec_gek_joik_gi);
    reveal(spec_joik);
    reveal(spec_word);
    reveal(spec_frees);
}

/// ```text
/// Joik <- JoikSeJoiNai / JoikInterval / JoikGaho
/// ```
#[verifier::opaque]
pub closed spec fn spec_joik(toks: Seq<Token>, pos: nat) -> Outcome
    decreases rest(toks, pos), 5nat,
{
    spec_alt(
        spec_alt(spec_joik_se_joi_nai(toks, pos), spec_joik_interval(toks, pos)),
        spec_joik_gaho(toks, pos),
    )
}

/// What [`spec_joik`] says.
pub proof fn lemma_joik(toks: Seq<Token>, pos: nat)
    ensures
        spec_joik(toks, pos) == (
            spec_alt(
                spec_alt(spec_joik_se_joi_nai(toks, pos), spec_joik_interval(toks, pos)),
                spec_joik_gaho(toks, pos),
            )
        ),
{
    reveal(spec_joik);
    reveal(spec_joik_se_joi_nai);
    reveal(spec_joik_interval);
    reveal(spec_joik_gaho);
}

/// ```text
/// JoikSeJoiNai <- Se? Joi Nai?
/// ```
#[verifier::opaque]
pub closed spec fn spec_joik_se_joi_nai(toks: Seq<Token>, pos: nat) -> Outcome
    decreases rest(toks, pos), 3nat,
{
    match spec_opt(spec_word(toks, pos, Selmaho::Se)) {
        Outcome::Matched(n1) => match spec_word(toks, pos + n1, Selmaho::Joi) {
            Outcome::Matched(n2) => shifted(
                spec_opt(spec_word(toks, pos + n1 + n2, Selmaho::Nai)),
                n1 + n2,
            ),
            other => other,
        },
        other => other,
    }
}

/// What [`spec_joik_se_joi_nai`] says.
pub proof fn lemma_joik_se_joi_nai(toks: Seq<Token>, pos: nat)
    ensures
        spec_joik_se_joi_nai(toks, pos) == (
            match spec_opt(spec_word(toks, pos, Selmaho::Se)) {
                Outcome::Matched(n1) => match spec_word(toks, pos + n1, Selmaho::Joi) {
                    Outcome::Matched(n2) => shifted(
                        spec_opt(spec_word(toks, pos + n1 + n2, Selmaho::Nai)),
                        n1 + n2,
                    ),
                    other => other,
                },
                other => other,
            }
        ),
{
    reveal(spec_joik_se_joi_nai);
    reveal(spec_word);
}

/// ```text
/// JoikInterval <- Interval
/// ```
#[verifier::opaque]
pub closed spec fn spec_joik_interval(toks: Seq<Token>, pos: nat) -> Outcome
    decreases rest(toks, pos), 4nat,
{
    spec_interval(toks, pos)
}

/// What [`spec_joik_interval`] says.
pub proof fn lemma_joik_interval(toks: Seq<Token>, pos: nat)
    ensures
        spec_joik_interval(toks, pos) == (
            spec_interval(toks, pos)
        ),
{
    reveal(spec_joik_interval);
    reveal(spec_interval);
}

/// ```text
/// Interval <- Se? Bihi Nai?
/// ```
#[verifier::opaque]
pub closed spec fn spec_interval(toks: Seq<Token>, pos: nat) -> Outcome
    decreases rest(toks, pos), 3nat,
{
    match spec_opt(spec_word(toks, pos, Selmaho::Se)) {
        Outcome::Matched(n1) => match spec_word(toks, pos + n1, Selmaho::Bihi) {
            Outcome::Matched(n2) => shifted(
                spec_opt(spec_word(toks, pos + n1 + n2, Selmaho::Nai)),
                n1 + n2,
            ),
            other => other,
        },
        other => other,
    }
}

/// What [`spec_interval`] says.
pub proof fn lemma_interval(toks: Seq<Token>, pos: nat)
    ensures
        spec_interval(toks, pos) == (
            match spec_opt(spec_word(toks, pos, Selmaho::Se)) {
                Outcome::Matched(n1) => match spec_word(toks, pos + n1, Selmaho::Bihi) {
                    Outcome::Matched(n2) => shifted(
                        spec_opt(spec_word(toks, pos + n1 + n2, Selmaho::Nai)),
                        n1 + n2,
                    ),
                    other => other,
                },
                other => other,
            }
        ),
{
    reveal(spec_interval);
    reveal(spec_word);
}

/// ```text
/// JoikGaho <- Gaho Interval ^Gaho
/// ```
#[verifier::opaque]
pub closed spec fn spec_joik_gaho(toks: Seq<Token>, pos: nat) -> Outcome
    decreases rest(toks, pos), 4nat,
{
    match spec_word(toks, pos, Selmaho::Gaho) {
        Outcome::Matched(n1) => match spec_interval(toks, pos + n1) {
            Outcome::Matched(n2) => shifted(
                spec_cut(spec_word(toks, pos + n1 + n2, Selmaho::Gaho)),
                n1 + n2,
            ),
            other => other,
        },
        other => other,
    }
}

/// What [`spec_joik_gaho`] says.
pub proof fn lemma_joik_gaho(toks: Seq<Token>, pos: nat)
    ensures
        spec_joik_gaho(toks, pos) == (
            match spec_word(toks, pos, Selmaho::Gaho) {
                Outcome::Matched(n1) => match spec_interval(toks, pos + n1) {
                    Outcome::Matched(n2) => shifted(
                        spec_cut(spec_word(toks, pos + n1 + n2, Selmaho::Gaho)),
                        n1 + n2,
                    ),
                    other => other,
                },
                other => other,
            }
        ),
{
    reveal(spec_joik_gaho);
    reveal(spec_word);
    reveal(spec_interval);
}

/// ```text
/// GekTagGik <- TagWords Gik
/// ```
#[verifier::opaque]
pub closed spec fn spec_gek_tag_gik(toks: Seq<Token>, pos: nat) -> Outcome
    decreases rest(toks, pos), 32nat,
{
    match spec_tag_words(toks, pos) {
        Outcome::Matched(n1) => shifted(spec_gik(toks, pos + n1), n1),
        other => other,
    }
}

/// What [`spec_gek_tag_gik`] says.
pub proof fn lemma_gek_tag_gik(toks: Seq<Token>, pos: nat)
    ensures
        spec_gek_tag_gik(toks, pos) == (
            match spec_tag_words(toks, pos) {
                Outcome::Matched(n1) => shifted(spec_gik(toks, pos + n1), n1),
                other => other,
            }
        ),
{
    reveal(spec_gek_tag_gik);
    reveal(spec_tag_words);
    reveal(spec_gik);
}

/// ```text
/// Sumti4 <- Sumti4Normal / Sumti4SelbriShorthand
/// ```
#[verifier::opaque]
pub closed spec fn spec_sumti_4(toks: Seq<Token>, pos: nat) -> Outcome
    decreases rest(toks, pos), 31nat,
{
    spec_alt(
        spec_sumti_4_normal(toks, pos),
        spec_sumti_4_selbri_shorthand(toks, pos),
    )
}

/// What [`spec_sumti_4`] says.
pub proof fn lemma_sumti_4(toks: Seq<Token>, pos: nat)
    ensures
        spec_sumti_4(toks, pos) == (
            spec_alt(
                spec_sumti_4_normal(toks, pos),
                spec_sumti_4_selbri_shorthand(toks, pos),
            )
        ),
{
    reveal(spec_sumti_4);
    reveal(spec_sumti_4_normal);
    reveal(spec_sumti_4_selbri_shorthand);
}

/// ```text
/// Sumti4Normal <- Quantifier? SumtiComponent RelativeClauses?
/// ```
#[verifier::opaque]
pub closed spec fn spec_sumti_4_normal(toks: Seq<Token>, pos: nat) -> Outcome
    decreases rest(toks, pos), 30nat,
{
    match spec_opt(spec_quantifier(toks, pos)) {
        Outcome::Matched(n1) => match spec_sumti_component(toks, pos + n1) {
            Outcome::Matched(n2) => shifted(
                spec_opt(spec_relative_clauses(toks, pos + n1 + n2)),
                n1 + n2,
            ),
            other => other,
        },
        other => other,
    }
}

/// What [`spec_sumti_4_normal`] says.
pub proof fn lemma_sumti_4_normal(toks: Seq<Token>, pos: nat)
    ensures
        spec_sumti_4_normal(toks, pos) == (
            match spec_opt(spec_quantifier(toks, pos)) {
                Outcome::Matched(n1) => match spec_sumti_component(toks, pos + n1) {
                    Outcome::Matched(n2) => shifted(
                        spec_opt(spec_relative_clauses(toks, pos + n1 + n2)),
                        n1 + n2,
                    ),
                    other => other,
                },
                other => other,
            }
        ),
{
    reveal(spec_sumti_4_normal);
    reveal(spec_quantifier);
    reveal(spec_sumti_component);
    reveal(spec_relative_clauses);
}

/// ```text
/// Quantifier <- QuantifierMekso / QuantifierNumber
/// ```
#[verifier::opaque]
pub closed spec fn spec_quantifier(toks: Seq<Token>, pos: nat) -> Outcome
    decreases rest(toks, pos), 26nat,
{
    spec_alt(spec_quantifier_mekso(toks, pos), spec_quantifier_number(toks, pos))
}

/// What [`spec_quantifier`] says.
pub proof fn lemma_quantifier(toks: Seq<Token>, pos: nat)
    ensures
        spec_quantifier(toks, pos) == (
            spec_alt(spec_quantifier_mekso(toks, pos), spec_quantifier_number(toks, pos))
        ),
{
    reveal(spec_quantifier);
    reveal(spec_quantifier_mekso);
    reveal(spec_quantifier_number);
}

/// ```text
/// QuantifierMekso <- Vei Frees Expression Veho? Frees
/// ```
#[verifier::opaque]
pub closed spec fn spec_quantifier_mekso(toks: Seq<Token>, pos: nat) -> Outcome
    decreases rest(toks, pos), 25nat,
{
    match spec_word_with_free(toks, pos, Selmaho::Vei) {
        Outcome::Matched(n1) => match (if advanced(toks, pos, n1) {
            spec_expression(toks, pos + n1)
        } else {
            stuck(pos)
        }) {
            Outcome::Matched(n2) => match spec_opt(
                spec_word(toks, pos + n1 + n2, Selmaho::Veho),
            ) {
                Outcome::Matched(n3) => shifted(
                    spec_frees(toks, pos + n1 + n2 + n3),
                    n1 + n2 + n3,
                ),
                other => other,
            },
            other => other,
        },
        other => other,
    }
}

/// What [`spec_quantifier_mekso`] says.
pub proof fn lemma_quantifier_mekso(toks: Seq<Token>, pos: nat)
    ensures
        spec_quantifier_mekso(toks, pos) == (
            match spec_word_with_free(toks, pos, Selmaho::Vei) {
                Outcome::Matched(n1) => match (if advanced(toks, pos, n1) {
                    spec_expression(toks, pos + n1)
                } else {
                    stuck(pos)
                }) {
                    Outcome::Matched(n2) => match spec_opt(
                        spec_word(toks, pos + n1 + n2, Selmaho::Veho),
                    ) {
                        Outcome::Matched(n3) => shifted(
                            spec_frees(toks, pos + n1 + n2 + n3),
                            n1 + n2 + n3,
                        ),
                        other => other,
                    },
                    other => other,
                },
                other => other,
            }
        ),
{
    reveal(spec_quantifier_mekso);
    reveal(spec_word_with_free);
    reveal(spec_expression);
    reveal(spec_word);
    reveal(spec_frees);
}

/// ```text
/// Expression <- ExpressionReversePolish / ExpressionNormal
/// ```
#[verifier::opaque]
pub closed spec fn spec_expression(toks: Seq<Token>, pos: nat) -> Outcome
    decreases rest(toks, pos), 109nat,
{
    spec_alt(
        spec_expression_reverse_polish(toks, pos),
        spec_expression_normal(toks, pos),
    )
}

/// What [`spec_expression`] says.
pub proof fn lemma_expression(toks: Seq<Token>, pos: nat)
    ensures
        spec_expression(toks, pos) == (
            spec_alt(
                spec_expression_reverse_polish(toks, pos),
                spec_expression_normal(toks, pos),
            )
        ),
{
    reveal(spec_expression);
    reveal(spec_expression_reverse_polish);
    reveal(spec_expression_normal);
}

/// ```text
/// ExpressionReversePolish <- Fuha Frees ReversePolish
/// ```
#[verifier::opaque]
pub closed spec fn spec_expression_reverse_polish(toks: Seq<Token>, pos: nat) -> Outcome
    decreases rest(toks, pos), 101nat,
{
    match spec_word_with_free(toks, pos, Selmaho::Fuha) {
        Outcome::Matched(n1) => shifted(spec_reverse_polish(toks, pos + n1), n1),
        other => other,
    }
}

/// What [`spec_expression_reverse_polish`] says.
pub proof fn lemma_expression_reverse_polish(toks: Seq<Token>, pos: nat)
    ensures
        spec_expression_reverse_polish(toks, pos) == (
            match spec_word_with_free(toks, pos, Selmaho::Fuha) {
                Outcome::Matched(n1) => shifted(spec_reverse_polish(toks, pos + n1), n1),
                other => other,
            }
        ),
{
    reveal(spec_expression_reverse_polish);
    reveal(spec_word_with_free);
    reveal(spec_reverse_polish);
}

/// ```text
/// ReversePolish <- Operand RPTail*
/// ```
#[verifier::opaque]
pub closed spec fn spec_reverse_polish(toks: Seq<Token>, pos: nat) -> Outcome
    decreases rest(toks, pos), 100nat,
{
    match spec_operand(toks, pos) {
        Outcome::Matched(n1) => shifted(
            if advanced(toks, pos, n1) {
                spec_many0_rptail(toks, pos + n1)
            } else {
                stuck(pos)
            },
            n1,
        ),
        other => other,
    }
}

/// What [`spec_reverse_polish`] says.
pub proof fn lemma_reverse_polish(toks: Seq<Token>, pos: nat)
    ensures
        spec_reverse_polish(toks, pos) == (
            match spec_operand(toks, pos) {
                Outcome::Matched(n1) => shifted(
                    if advanced(toks, pos, n1) {
                        spec_many0_rptail(toks, pos + n1)
                    } else {
                        stuck(pos)
                    },
                    n1,
                ),
                other => other,
            }
        ),
{
    reveal(spec_reverse_polish);
    reveal(spec_operand);
    reveal(spec_many0_rptail);
}

/// ```text
/// Operand <- Operand1 ConnectedOperand*
/// ```
#[verifier::opaque]
pub closed spec fn spec_operand(toks: Seq<Token>, pos: nat) -> Outcome
    decreases rest(toks, pos), 99nat,
{
    match spec_operand_1(toks, pos) {
        Outcome::Matched(n1) => shifted(spec_many0_connected_operand(toks, pos + n1), n1),
        other => other,
    }
}

/// What [`spec_operand`] says.
pub proof fn lemma_operand(toks: Seq<Token>, pos: nat)
    ensures
        spec_operand(toks, pos) == (
            match spec_operand_1(toks, pos) {
                Outcome::Matched(n1) => shifted(spec_many0_connected_operand(toks, pos + n1), n1),
                other => other,
            }
        ),
{
    reveal(spec_operand);
    reveal(spec_operand_1);
    reveal(spec_many0_connected_operand);
}

/// ```text
/// Operand1 <- Operand2List
/// ```
#[verifier::opaque]
pub closed spec fn spec_operand_1(toks: Seq<Token>, pos: nat) -> Outcome
    decreases rest(toks, pos), 95nat,
{
    spec_operand_2_list(toks, pos)
}

/// What [`spec_operand_1`] says.
pub proof fn lemma_operand_1(toks: Seq<Token>, pos: nat)
    ensures
        spec_operand_1(toks, pos) == (
            spec_operand_2_list(toks, pos)
        ),
{
    reveal(spec_operand_1);
    reveal(spec_operand_2_list);
}

/// ```text
/// Operand2List <- Operand2 Operand2ListNext*
/// ```
#[verifier::opaque]
pub closed spec fn spec_operand_2_list(toks: Seq<Token>, pos: nat) -> Outcome
    decreases rest(toks, pos), 94nat,
{
    match spec_operand_2(toks, pos) {
        Outcome::Matched(n1) => shifted(spec_many0_operand_2_list_next(toks, pos + n1), n1),
        other => other,
    }
}

/// What [`spec_operand_2_list`] says.
pub proof fn lemma_operand_2_list(toks: Seq<Token>, pos: nat)
    ensures
        spec_operand_2_list(toks, pos) == (
            match spec_operand_2(toks, pos) {
                Outcome::Matched(n1) => shifted(
                    spec_many0_operand_2_list_next(toks, pos + n1),
                    n1,
                ),
                other => other,
            }
        ),
{
    reveal(spec_operand_2_list);
    reveal(spec_operand_2);
    reveal(spec_many0_operand_2_list_next);
}

/// ```text
/// Operand2 <- Operand2ConnectedPre* Operand3
/// ```
#[verifier::opaque]
pub closed spec fn spec_operand_2(toks: Seq<Token>, pos: nat) -> Outcome
    decreases rest(toks, pos), 91nat,
{
    match spec_many0_operand_2_connected_pre(toks, pos) {
        Outcome::Matched(n1) => shifted(spec_operand_3(toks, pos + n1), n1),
        other => other,
    }
}

/// What [`spec_operand_2`] says.
pub proof fn lemma_operand_2(toks: Seq<Token>, pos: nat)
    ensures
        spec_operand_2(toks, pos) == (
            match spec_many0_operand_2_connected_pre(toks, pos) {
                Outcome::Matched(n1) => shifted(spec_operand_3(toks, pos + n1), n1),
                other => other,
            }
        ),
{
    reveal(spec_operand_2);
    reveal(spec_many0_operand_2_connected_pre);
    reveal(spec_operand_3);
}

/// ```text
/// Operand2ConnectedPre <- Gek Operand Gik
/// ```
#[verifier::opaque]
pub closed spec fn spec_operand_2_connected_pre(toks: Seq<Token>, pos: nat) -> Outcome
    decreases rest(toks, pos), 34nat,
{
    match spec_gek(toks, pos) {
        Outcome::Matched(n1) => match (if advanced(toks, pos, n1) {
            spec_operand(toks, pos + n1)
        } else {
            stuck(pos)
        }) {
            Outcome::Matched(n2) => shifted(spec_gik(toks, pos + n1 + n2), n1 + n2),
            other => other,
        },
        other => other,
    }
}

/// What [`spec_operand_2_connected_pre`] says.
pub proof fn lemma_operand_2_connected_pre(toks: Seq<Token>, pos: nat)
    ensures
        spec_operand_2_connected_pre(toks, pos) == (
            match spec_gek(toks, pos) {
                Outcome::Matched(n1) => match (if advanced(toks, pos, n1) {
                    spec_operand(toks, pos + n1)
                } else {
                    stuck(pos)
                }) {
                    Outcome::Matched(n2) => shifted(spec_gik(toks, pos + n1 + n2), n1 + n2),
                    other => other,
                },
                other => other,
            }
        ),
{
    reveal(spec_operand_2_connected_pre);
    reveal(spec_gek);
    reveal(spec_operand);
    reveal(spec_gik);
}

/// As many `Operand2ConnectedPre` as match in a row. It is an error if one of them
/// matches without taking a token.
#[verifier::opaque]
pub closed spec fn spec_many0_operand_2_connected_pre(toks: Seq<Token>, pos: nat) -> Outcome
    decreases rest(toks, pos), 35nat,
{
    match spec_operand_2_connected_pre(toks, pos) {
        Outcome::Matched(len) => if advanced(toks, pos, len) {
            shifted(spec_many0_operand_2_connected_pre(toks, pos + len), len)
        } else {
            Outcome::Error(combinator_at(pos, ErrorKind::Many0))
        },
        Outcome::Error(_) => Outcome::Matched(0),
        Outcome::Failure(report) => Outcome::Failure(report),
    }
}

/// What [`spec_many0_operand_2_connected_pre`] says.
pub proof fn lemma_many0_operand_2_connected_pre(toks: Seq<Token>, pos: nat)
    ensures
        spec_many0_operand_2_connected_pre(
            toks,
            pos,
        ) == (match spec_operand_2_connected_pre(toks, pos) {
            Outcome::Matched(len) => if advanced(toks, pos, len) {
                shifted(spec_many0_operand_2_connected_pre(toks, pos + len), len)
            } else {
                Outcome::Error(combinator_at(pos, ErrorKind::Many0))
            },
            Outcome::Error(_) => Outcome::Matched(0),
            Outcome::Failure(report) => Outcome::Failure(report),
        }),
{
    reveal(spec_many0_operand_2_connected_pre);
    reveal(spec_operand_2_connected_pre);
}

/// ```text
/// Operand3 <- Operand3Nihe / Operand3Mohe / Operand3Johi / Operand3Modified /
///     Operand3Parenthesized / Operand3Number
/// ```
#[verifier::opaque]
pub closed spec fn spec_operand_3(toks: Seq<Token>, pos: nat) -> Outcome
    decreases rest(toks, pos), 90nat,
{
    spec_alt(
        spec_alt(
            spec_alt(
                spec_alt(
                    spec_alt(spec_operand_3_nihe(toks, pos), spec_operand_3_mohe(toks, pos)),
                    spec_operand_3_johi(toks, pos),
                ),
                spec_operand_3_modified(toks, pos),
            ),
            spec_operand_3_parenthesized(toks, pos),
        ),
        spec_operand_3_number(toks, pos),
    )
}

/// What [`spec_operand_3`] says.
pub proof fn lemma_operand_3(toks: Seq<Token>, pos: nat)
    ensures
        spec_operand_3(toks, pos) == (
            spec_alt(
                spec_alt(
                    spec_alt(
                        spec_alt(
                            spec_alt(
                                spec_operand_3_nihe(toks, pos),
                                spec_operand_3_mohe(toks, pos),
                            ),
                            spec_operand_3_johi(toks, pos),
                        ),
                        spec_operand_3_modified(toks, pos),
                    ),
                    spec_operand_3_parenthesized(toks, pos),
                ),
                spec_operand_3_number(toks, pos),
            )
        ),
{
    reveal(spec_operand_3);
    reveal(spec_operand_3_nihe);
    reveal(spec_operand_3_mohe);
    reveal(spec_operand_3_johi);
    reveal(spec_operand_3_modified);
    reveal(spec_operand_3_parenthesized);
    reveal(spec_operand_3_number);
}

/// ```text
/// Operand3Nihe <- Nihe Frees Selbri Tehu? Frees
/// ```
#[verifier::opaque]
pub closed spec fn spec_operand_3_nihe(toks: Seq<Token>, pos: nat) -> Outcome
    decreases rest(toks, pos), 89nat,
{
    match spec_word_with_free(toks, pos, Selmaho::Nihe) {
        Outcome::Matched(n1) => match spec_selbri(toks, pos + n1) {
            Outcome::Matched(n2) => match spec_opt(
                spec_word(toks, pos + n1 + n2, Selmaho::Tehu),
            ) {
                Outcome::Matched(n3) => shifted(
                    spec_frees(toks, pos + n1 + n2 + n3),
                    n1 + n2 + n3,
                ),
                other => other,
            },
            other => other,
        },
        other => other,
    }
}

/// What [`spec_operand_3_nihe`] says.
pub proof fn lemma_operand_3_nihe(toks: Seq<Token>, pos: nat)
    ensures
        spec_operand_3_nihe(toks, pos) == (
            match spec_word_with_free(toks, pos, Selmaho::Nihe) {
                Outcome::Matched(n1) => match spec_selbri(toks, pos + n1) {
                    Outcome::Matched(n2) => match spec_opt(
                        spec_word(toks, pos + n1 + n2, Selmaho::Tehu),
                    ) {
                        Outcome::Matched(n3) => shifted(
                            spec_frees(toks, pos + n1 + n2 + n3),
                            n1 + n2 + n3,
                        ),
                        other => other,
                    },
                    other => other,
                },
                other => other,
            }
        ),
{
    reveal(spec_operand_3_nihe);
    reveal(spec_word_with_free);
    reveal(spec_selbri);
    reveal(spec_word);
    reveal(spec_frees);
}

/// ```text
/// Operand3Mohe <- Mohe Frees Sumti Tehu? Frees
/// ```
#[verifier::opaque]
pub closed spec fn spec_operand_3_mohe(toks: Seq<Token>, pos: nat) -> Outcome
    decreases rest(toks, pos), 45nat,
{
    match spec_word_with_free(toks, pos, Selmaho::Mohe) {
        Outcome::Matched(n1) => match spec_sumti(toks, pos + n1) {
            Outcome::Matched(n2) => match spec_opt(
                spec_word(toks, pos + n1 + n2, Selmaho::Tehu),
            ) {
                Outcome::Matched(n3) => shifted(
                    spec_frees(toks, pos + n1 + n2 + n3),
                    n1 + n2 + n3,
                ),
                other => other,
            },
            other => other,
        },
        other => other,
    }
}

/// What [`spec_operand_3_mohe`] says.
pub proof fn lemma_operand_3_mohe(toks: Seq<Token>, pos: nat)
    ensures
        spec_operand_3_mohe(toks, pos) == (
            match spec_word_with_free(toks, pos, Selmaho::Mohe) {
                Outcome::Matched(n1) => match spec_sumti(toks, pos + n1) {
                    Outcome::Matched(n2) => match spec_opt(
                        spec_word(toks, pos + n1 + n2, Selmaho::Tehu),
                    ) {
                        Outcome::Matched(n3) => shifted(
                            spec_frees(toks, pos + n1 + n2 + n3),
                            n1 + n2 + n3,
                        ),
                        other => other,
                    },
                    other => other,
                },
                other => other,
            }
        ),
{
    reveal(spec_operand_3_mohe);
    reveal(spec_word_with_free);
    reveal(spec_sumti);
    reveal(spec_word);
    reveal(spec_frees);
}

/// ```text
/// Operand3Johi <- Johi Frees Expression1+ Tehu? Frees
/// ```
#[verifier::opaque]
pub closed spec fn spec_operand_3_johi(toks: Seq<Token>, pos: nat) -> Outcome
    decreases rest(toks, pos), 25nat,
{
    match spec_word_with_free(toks, pos, Selmaho::Johi) {
        Outcome::Matched(n1) => match (if advanced(toks, pos, n1) {
            spec_many1_expression_1(toks, pos + n1)
        } else {
            stuck(pos)
        }) {
            Outcome::Matched(n2) => match spec_opt(
                spec_word(toks, pos + n1 + n2, Selmaho::Tehu),
            ) {
                Outcome::Matched(n3) => shifted(
                    spec_frees(toks, pos + n1 + n2 + n3),
                    n1 + n2 + n3,
                ),
                other => other,
            },
            other => other,
        },
        other => other,
    }
}

/// What [`spec_operand_3_johi`] says.
pub proof fn lemma_operand_3_johi(toks: Seq<Token>, pos: nat)
    ensures
        spec_operand_3_johi(toks, pos) == (
            match spec_word_with_free(toks, pos, Selmaho::Johi) {
                Outcome::Matched(n1) => match (if advanced(toks, pos, n1) {
                    spec_many1_expression_1(toks, pos + n1)
                } else {
                    stuck(pos)
                }) {
                    Outcome::Matched(n2) => match spec_opt(
                        spec_word(toks, pos + n1 + n2, Selmaho::Tehu),
                    ) {
                        Outcome::Matched(n3) => shifted(
                            spec_frees(toks, pos + n1 + n2 + n3),
                            n1 + n2 + n3,
                        ),
                        other => other,
                    },
                    other => other,
                },
                other => other,
            }
        ),
{
    reveal(spec_operand_3_johi);
    reveal(spec_word_with_free);
    reveal(spec_many1_expression_1);
    reveal(spec_word);
    reveal(spec_frees);
}

/// ```text
/// Expression1 <- Expression1Operand / Expression1Forethought
/// ```
#[verifier::opaque]
pub closed spec fn spec_expression_1(toks: Seq<Token>, pos: nat) -> Outcome
    decreases rest(toks, pos), 101nat,
{
    spec_alt(
        spec_expression_1_operand(toks, pos),
        spec_expression_1_forethought(toks, pos),
    )
}

/// What [`spec_expression_1`] says.
pub proof fn lemma_expression_1(toks: Seq<Token>, pos: nat)
    ensures
        spec_expression_1(toks, pos) == (
            spec_alt(
                spec_expression_1_operand(toks, pos),
                spec_expression_1_forethought(toks, pos),
            )
        ),
{
    reveal(spec_expression_1);
    reveal(spec_expression_1_operand);
    reveal(spec_expression_1_forethought);
}

/// One `Expression1` or more in a row. It is an error if one of them matches
/// without taking a token.
#[verifier::opaque]
pub closed spec fn spec_many1_expression_1(toks: Seq<Token>, pos: nat) -> Outcome
    decreases rest(toks, pos), 102nat,
{
    match spec_expression_1(toks, pos) {
        Outcome::Matched(len) => if advanced(toks, pos, len) {
            shifted(spec_many1_expression_1_more(toks, pos + len), len)
        } else {
            Outcome::Error(combinator_at(pos, ErrorKind::Many1))
        },
        other => other,
    }
}

/// What follows the first `Expression1` of a row of them.
#[verifier::opaque]
pub closed spec fn spec_many1_expression_1_more(toks: Seq<Token>, pos: nat) -> Outcome
    decreases rest(toks, pos), 102nat,
{
    match spec_expression_1(toks, pos) {
        Outcome::Matched(len) => if advanced(toks, pos, len) {
            shifted(spec_many1_expression_1_more(toks, pos + len), len)
        } else {
            Outcome::Error(combinator_at(pos, ErrorKind::Many1))
        },
        Outcome::Error(_) => Outcome::Matched(0),
        Outcome::Failure(report) => Outcome::Failure(report),
    }
}

/// What [`spec_many1_expression_1`] and [`spec_many1_expression_1_more`] say.
pub proof fn lemma_many1_expression_1(toks: Seq<Token>, pos: nat)
    ensures
        spec_many1_expression_1(toks, pos) == (match spec_expression_1(toks, pos) {
            Outcome::Matched(len) => if advanced(toks, pos, len) {
                shifted(spec_many1_expression_1_more(toks, pos + len), len)
            } else {
                Outcome::Error(combinator_at(pos, ErrorKind::Many1))
            },
            other => other,
        }),
        spec_many1_expression_1_more(toks, pos) == (match spec_expression_1(toks, pos) {
            Outcome::Matched(len) => if advanced(toks, pos, len) {
                shifted(spec_many1_expression_1_more(toks, pos + len), len)
            } else {
                Outcome::Error(combinator_at(pos, ErrorKind::Many1))
            },
            Outcome::Error(_) => Outcome::Matched(0),
            Outcome::Failure(report) => Outcome::Failure(report),
        }),
{
    reveal(spec_many1_expression_1);
    reveal(spec_many1_expression_1_more);
    reveal(spec_expression_1);
}

/// ```text
/// Expression1Operand <- Operand
/// ```
#[verifier::opaque]
pub closed spec fn spec_expression_1_operand(toks: Seq<Token>, pos: nat) -> Outcome
    decreases rest(toks, pos), 100nat,
{
    spec_operand(toks, pos)
}

/// What [`spec_expression_1_operand`] says.
pub proof fn lemma_expression_1_operand(toks: Seq<Token>, pos: nat)
    ensures
        spec_expression_1_operand(toks, pos) == (
            spec_operand(toks, pos)
        ),
{
    reveal(spec_expression_1_operand);
    reveal(spec_operand);
}

/// ```text
/// Expression1Forethought <- ForethoughtExpression
/// ```
#[verifier::opaque]
pub closed spec fn spec_expression_1_forethought(toks: Seq<Token>, pos: nat) -> Outcome
    decreases rest(toks, pos), 43nat,
{
    spec_forethought_expression(toks, pos)
}

/// What [`spec_expression_1_forethought`] says.
pub proof fn lemma_expression_1_forethought(toks: Seq<Token>, pos: nat)
    ensures
        spec_expression_1_forethought(toks, pos) == (
            spec_forethought_expression(toks, pos)
        ),
{
    reveal(spec_expression_1_forethought);
    reveal(spec_forethought_expression);
}

/// ```text
/// ForethoughtExpression <- Peho Frees? Operator Expression1+ Kuhe? Frees
/// ```
#[verifier::opaque]
pub closed spec fn spec_forethought_expression(toks: Seq<Token>, pos: nat) -> Outcome
    decreases rest(toks, pos), 42nat,
{
    match spec_opt(spec_word_with_free(toks, pos, Selmaho::Peho)) {
        Outcome::Matched(n1) => match spec_operator(toks, pos + n1) {
            Outcome::Matched(n2) => match (if advanced(toks, pos, n1 + n2) {
                spec_many1_expression_1(toks, pos + n1 + n2)
            } else {
                stuck(pos)
            }) {
                Outcome::Matched(n3) => match spec_opt(
                    spec_word(toks, pos + n1 + n2 + n3, Selmaho::Kuhe),
                ) {
                    Outcome::Matched(n4) => shifted(
                        spec_frees(toks, pos + n1 + n2 + n3 + n4),
                        n1 + n2 + n3 + n4,
                    ),
                    other => other,
                },
                other => other,
            },
            other => other,
        },
        other => other,
    }
}

/// What [`spec_forethought_expression`] says.
pub proof fn lemma_forethought_expression(toks: Seq<Token>, pos: nat)
    ensures
        spec_forethought_expression(toks, pos) == (
            match spec_opt(spec_word_with_free(toks, pos, Selmaho::Peho)) {
                Outcome::Matched(n1) => match spec_operator(toks, pos + n1) {
                    Outcome::Matched(n2) => match (if advanced(toks, pos, n1 + n2) {
                        spec_many1_expression_1(toks, pos + n1 + n2)
                    } else {
                        stuck(pos)
                    }) {
                        Outcome::Matched(n3) => match spec_opt(
                            spec_word(toks, pos + n1 + n2 + n3, Selmaho::Kuhe),
                        ) {
                            Outcome::Matched(n4) => shifted(
                                spec_frees(toks, pos + n1 + n2 + n3 + n4),
                                n1 + n2 + n3 + n4,
                            ),
                            other => other,
                        },
                        other => other,
                    },
                    other => other,
                },
                other => other,
            }
        ),
{
    reveal(spec_forethought_expression);
    reveal(spec_word_with_free);
    reveal(spec_operator);
    reveal(spec_many1_expression_1);
    reveal(spec_word);
    reveal(spec_frees);
}

/// ```text
/// Operator <- Operator1 ConnectedOperator*
/// ```
#[verifier::opaque]
pub closed spec fn spec_operator(toks: Seq<Token>, pos: nat) -> Outcome
    decreases rest(toks, pos), 41nat,
{
    match spec_operator_1(toks, pos) {
        Outcome::Matched(n1) => shifted(spec_many0_connected_operator(toks, pos + n1), n1),
        other => other,
    }
}

/// What [`spec_operator`] says.
pub proof fn lemma_operator(toks: Seq<Token>, pos: nat)
    ensures
        spec_operator(toks, pos) == (
            match spec_operator_1(toks, pos) {
                Outcome::Matched(n1) => shifted(
                    spec_many0_connected_operator(toks, pos + n1),
                    n1,
                ),
                other => other,
            }
        ),
{
    reveal(spec_operator);
    reveal(spec_operator_1);
    reveal(spec_many0_connected_operator);
}

/// ```text
/// Operator1 <- OperatorGuhek* Operator2
/// ```
#[verifier::opaque]
pub closed spec fn spec_operator_1(toks: Seq<Token>, pos: nat) -> Outcome
    decreases rest(toks, pos), 37nat,
{
    match spec_many0_operator_guhek(toks, pos) {
        Outcome::Matched(n1) => shifted(spec_operator_2(toks, pos + n1), n1),
        other => other,
    }
}

/// What [`spec_operator_1`] says.
pub proof fn lemma_operator_1(toks: Seq<Token>, pos: nat)
    ensures
        spec_operator_1(toks, pos) == (
            match spec_many0_operator_guhek(toks, pos) {
                Outcome::Matched(n1) => shifted(spec_operator_2(toks, pos + n1), n1),
                other => other,
            }
        ),
{
    reveal(spec_operator_1);
    reveal(spec_many0_operator_guhek);
    reveal(spec_operator_2);
}

/// ```text
/// OperatorGuhek <- Nahe? Frees Guhek Operator1 Gik
/// ```
#[verifier::opaque]
pub closed spec fn spec_operator_guhek(toks: Seq<Token>, pos: nat) -> Outcome
    decreases rest(toks, pos), 26nat,
{
    match spec_opt(spec_word(toks, pos, Selmaho::Nahe)) {
        Outcome::Matched(n1) => match spec_frees(toks, pos + n1) {
            Outcome::Matched(n2) => match spec_guhek(toks, pos + n1 + n2) {
                Outcome::Matched(n3) => match (if advanced(toks, pos, n1 + n2 + n3) {
                    spec_operator_1(toks, pos + n1 + n2 + n3)
                } else {
                    stuck(pos)
                }) {
                    Outcome::Matched(n4) => shifted(
                        spec_gik(toks, pos + n1 + n2 + n3 + n4),
                        n1 + n2 + n3 + n4,
                    ),
                    other => other,
                },
                other => other,
            },
            other => other,
        },
        other => other,
    }
}

/// What [`spec_operator_guhek`] says.
pub proof fn lemma_operator_guhek(toks: Seq<Token>, pos: nat)
    ensures
        spec_operator_guhek(toks, pos) == (
            match spec_opt(spec_word(toks, pos, Selmaho::Nahe)) {
                Outcome::Matched(n1) => match spec_frees(toks, pos + n1) {
                    Outcome::Matched(n2) => match spec_guhek(toks, pos + n1 + n2) {
                        Outcome::Matched(n3) => match (if advanced(toks, pos, n1 + n2 + n3) {
                            spec_operator_1(toks, pos + n1 + n2 + n3)
                        } else {
                            stuck(pos)
                        }) {
                            Outcome::Matched(n4) => shifted(
                                spec_gik(toks, pos + n1 + n2 + n3 + n4),
                                n1 + n2 + n3 + n4,
                            ),
                            other => other,
                        },
                        other => other,
                    },
                    other => other,
                },
                other => other,
            }
        ),
{
    reveal(spec_operator_guhek);
    reveal(spec_word);
    reveal(spec_frees);
    reveal(spec_guhek);
    reveal(spec_operator_1);
    reveal(spec_gik);
}

/// As many `OperatorGuhek` as match in a row. It is an error if one of them
/// matches without taking a token.
#[verifier::opaque]
pub closed spec fn spec_many0_operator_guhek(toks: Seq<Token>, pos: nat) -> Outcome
    decreases rest(toks, pos), 27nat,
{
    match spec_operator_guhek(toks, pos) {
        Outcome::Matched(len) => if advanced(toks, pos, len) {
            shifted(spec_many0_operator_guhek(toks, pos + len), len)
        } else {
            Outcome::Error(combinator_at(pos, ErrorKind::Many0))
        },
        Outcome::Error(_) => Outcome::Matched(0),
        Outcome::Failure(report) => Outcome::Failure(report),
    }
}

/// What [`spec_many0_operator_guhek`] says.
pub proof fn lemma_many0_operator_guhek(toks: Seq<Token>, pos: nat)
    ensures
        spec_many0_operator_guhek(toks, pos) == (match spec_operator_guhek(toks, pos) {
            Outcome::Matched(len) => if advanced(toks, pos, len) {
                shifted(spec_many0_operator_guhek(toks, pos + len), len)
            } else {
                Outcome::Error(combinator_at(pos, ErrorKind::Many0))
            },
            Outcome::Error(_) => Outcome::Matched(0),
            Outcome::Failure(report) => Outcome::Failure(report),
        }),
{
    reveal(spec_many0_operator_guhek);
    reveal(spec_operator_guhek);
}

/// ```text
/// Operator2 <- Operator3List
/// ```
#[verifier::opaque]
pub closed spec fn spec_operator_2(toks: Seq<Token>, pos: nat) -> Outcome
    decreases rest(toks, pos), 36nat,
{
    spec_operator_3_list(toks, pos)
}

/// What [`spec_operator_2`] says.
pub proof fn lemma_operator_2(toks: Seq<Token>, pos: nat)
    ensures
        spec_operator_2(toks, pos) == (
            spec_operator_3_list(toks, pos)
        ),
{
    reveal(spec_operator_2);
    reveal(spec_operator_3_list);
}

/// ```text
/// Operator3List <- Operator3 Operator3ListNext*
/// ```
#[verifier::opaque]
pub closed spec fn spec_operator_3_list(toks: Seq<Token>, pos: nat) -> Outcome
    decreases rest(toks, pos), 35nat,
{
    match spec_operator_3(toks, pos) {
        Outcome::Matched(n1) => shifted(spec_many0_operator_3_list_next(toks, pos + n1), n1),
        other => other,
    }
}

/// What [`spec_operator_3_list`] says.
pub proof fn lemma_operator_3_list(toks: Seq<Token>, pos: nat)
    ensures
        spec_operator_3_list(toks, pos) == (
            match spec_operator_3(toks, pos) {
                Outcome::Matched(n1) => shifted(
                    spec_many0_operator_3_list_next(toks, pos + n1),
                    n1,
                ),
                other => other,
            }
        ),
{
    reveal(spec_operator_3_list);
    reveal(spec_operator_3);
    reveal(spec_many0_operator_3_list_next);
}

/// ```text
/// Operator3 <- Operator3Simple / Operator3Grouped
/// ```
#[verifier::opaque]
pub closed spec fn spec_operator_3(toks: Seq<Token>, pos: nat) -> Outcome
    decreases rest(toks, pos), 29nat,
{
    spec_alt(spec_operator_3_simple(toks, pos), spec_operator_3_grouped(toks, pos))
}

/// What [`spec_operator_3`] says.
pub proof fn lemma_operator_3(toks: Seq<Token>, pos: nat)
    ensures
        spec_operator_3(toks, pos) == (
            spec_alt(spec_operator_3_simple(toks, pos), spec_operator_3_grouped(toks, pos))
        ),
{
    reveal(spec_operator_3);
    reveal(spec_operator_3_simple);
    reveal(spec_operator_3_grouped);
}

/// ```text
/// Operator3Simple <- OperatorComponent
/// ```
#[verifier::opaque]
pub closed spec fn spec_operator_3_simple(toks: Seq<Token>, pos: nat) -> Outcome
    decreases rest(toks, pos), 28nat,
{
    spec_operator_component(toks, pos)
}

/// What [`spec_operator_3_simple`] says.
pub proof fn lemma_operator_3_simple(toks: Seq<Token>, pos: nat)
    ensures
        spec_operator_3_simple(toks, pos) == (
            spec_operator_component(toks, pos)
        ),
{
    reveal(spec_operator_3_simple);
    reveal(spec_operator_component);
}

/// ```text
/// OperatorComponent <- OperatorComponentPre* OperatorComponent1
/// ```
#[verifier::opaque]
pub closed spec fn spec_operator_component(toks: Seq<Token>, pos: nat) -> Outcome
    decreases rest(toks, pos), 27nat,
{
    match spec_many0_operator_component_pre(toks, pos) {
        Outcome::Matched(n1) => shifted(spec_operator_component_1(toks, pos + n1), n1),
        other => other,
    }
}

/// What [`spec_operator_component`] says.
pub proof fn lemma_operator_component(toks: Seq<Token>, pos: nat)
    ensures
        spec_operator_component(toks, pos) == (
            match spec_many0_operator_component_pre(toks, pos) {
                Outcome::Matched(n1) => shifted(spec_operator_component_1(toks, pos + n1), n1),
                other => other,
            }
        ),
{
    reveal(spec_operator_component);
    reveal(spec_many0_operator_component_pre);
    reveal(spec_operator_component_1);
}

/// ```text
/// OperatorComponentPre <- OperatorComponentPreNahe / OperatorComponentPreSe
/// ```
#[verifier::opaque]
pub closed spec fn spec_operator_component_pre(toks: Seq<Token>, pos: nat) -> Outcome
    decreases rest(toks, pos), 5nat,
{
    spec_alt(
        spec_operator_component_pre_nahe(toks, pos),
        spec_operator_component_pre_se(toks, pos),
    )
}

/// What [`spec_operator_component_pre`] says.
pub proof fn lemma_operator_component_pre(toks: Seq<Token>, pos: nat)
    ensures
        spec_operator_component_pre(toks, pos) == (
            spec_alt(
                spec_operator_component_pre_nahe(toks, pos),
                spec_operator_component_pre_se(toks, pos),
            )
        ),
{
    reveal(spec_operator_component_pre);
    reveal(spec_operator_component_pre_nahe);
    reveal(spec_operator_component_pre_se);
}

/// As many `OperatorComponentPre` as match in a row. It is an error if one of them
/// matches without taking a token.
#[verifier::opaque]
pub closed spec fn spec_many0_operator_component_pre(toks: Seq<Token>, pos: nat) -> Outcome
    decreases rest(toks, pos), 6nat,
{
    match spec_operator_component_pre(toks, pos) {
        Outcome::Matched(len) => if advanced(toks, pos, len) {
            shifted(spec_many0_operator_component_pre(toks, pos + len), len)
        } else {
            Outcome::Error(combinator_at(pos, ErrorKind::Many0))
        },
        Outcome::Error(_) => Outcome::Matched(0),
        Outcome::Failure(report) => Outcome::Failure(report),
    }
}

/// What [`spec_many0_operator_component_pre`] says.
pub proof fn lemma_many0_operator_component_pre(toks: Seq<Token>, pos: nat)
    ensures
        spec_many0_operator_component_pre(
            toks,
            pos,
        ) == (match spec_operator_component_pre(toks, pos) {
            Outcome::Matched(len) => if advanced(toks, pos, len) {
                shifted(spec_many0_operator_component_pre(toks, pos + len), len)
            } else {
                Outcome::Error(combinator_at(pos, ErrorKind::Many0))
            },
            Outcome::Error(_) => Outcome::Matched(0),
            Outcome::Failure(report) => Outcome::Failure(report),
        }),
{
    reveal(spec_many0_operator_component_pre);
    reveal(spec_operator_component_pre);
}

/// ```text
/// OperatorComponentPreNahe <- Nahe Frees
/// ```
#[verifier::opaque]
pub closed spec fn spec_operator_component_pre_nahe(toks: Seq<Token>, pos: nat) -> Outcome
    decreases rest(toks, pos), 4nat,
{
    spec_word_with_free(toks, pos, Selmaho::Nahe)
}

/// What [`spec_operator_component_pre_nahe`] says.
pub proof fn lemma_operator_component_pre_nahe(toks: Seq<Token>, pos: nat)
    ensures
        spec_operator_component_pre_nahe(toks, pos) == (
            spec_word_with_free(toks, pos, Selmaho::Nahe)
        ),
{
    reveal(spec_operator_component_pre_nahe);
    reveal(spec_word_with_free);
}

/// ```text
/// OperatorComponentPreSe <- Se Frees
/// ```
#[verifier::opaque]
pub closed spec fn spec_operator_component_pre_se(toks: Seq<Token>, pos: nat) -> Outcome
    decreases rest(toks, pos), 4nat,
{
    spec_word_with_free(toks, pos, Selmaho::Se)
}

/// What [`spec_operator_component_pre_se`] says.
pub proof fn lemma_operator_component_pre_se(toks: Seq<Token>, pos: nat)
    ensures
        spec_operator_component_pre_se(toks, pos) == (
            spec_word_with_free(toks, pos, Selmaho::Se)
        ),
{
    reveal(spec_operator_component_pre_se);
    reveal(spec_word_with_free);
}

/// ```text
/// OperatorComponent1 <- OperatorComponent1Maho / OperatorComponent1Nahu /
///     OperatorComponent1Vuhu
/// ```
#[verifier::opaque]
pub closed spec fn spec_operator_component_1(toks: Seq<Token>, pos: nat) -> Outcome
    decreases rest(toks, pos), 26nat,
{
    spec_alt(
        spec_alt(
            spec_operator_component_1_maho(toks, pos),
            spec_operator_component_1_nahu(toks, pos),
        ),
        spec_operator_component_1_vuhu(toks, pos),
    )
}

/// What [`spec_operator_component_1`] says.
pub proof fn lemma_operator_component_1(toks: Seq<Token>, pos: nat)
    ensures
        spec_operator_component_1(toks, pos) == (
            spec_alt(
                spec_alt(
                    spec_operator_component_1_maho(toks, pos),
                    spec_operator_component_1_nahu(toks, pos),
                ),
                spec_operator_component_1_vuhu(toks, pos),
            )
        ),
{
    reveal(spec_operator_component_1);
    reveal(spec_operator_component_1_maho);
    reveal(spec_operator_component_1_nahu);
    reveal(spec_operator_component_1_vuhu);
}

/// ```text
/// OperatorComponent1Maho <- Maho Frees Expression Tehu? Frees
/// ```
#[verifier::opaque]
pub closed spec fn spec_operator_component_1_maho(toks: Seq<Token>, pos: nat) -> Outcome
    decreases rest(toks, pos), 25nat,
{
    match spec_word_with_free(toks, pos, Selmaho::Maho) {
        Outcome::Matched(n1) => match (if advanced(toks, pos, n1) {
            spec_expression(toks, pos + n1)
        } else {
            stuck(pos)
        }) {
            Outcome::Matched(n2) => match spec_opt(
                spec_word(toks, pos + n1 + n2, Selmaho::Tehu),
            ) {
                Outcome::Matched(n3) => shifted(
                    spec_frees(toks, pos + n1 + n2 + n3),
                    n1 + n2 + n3,
                ),
                other => other,
            },
            other => other,
        },
        other => other,
    }
}

/// What [`spec_operator_component_1_maho`] says.
pub proof fn lemma_operator_component_1_maho(toks: Seq<Token>, pos: nat)
    ensures
        spec_operator_component_1_maho(toks, pos) == (
            match spec_word_with_free(toks, pos, Selmaho::Maho) {
                Outcome::Matched(n1) => match (if advanced(toks, pos, n1) {
                    spec_expression(toks, pos + n1)
                } else {
                    stuck(pos)
                }) {
                    Outcome::Matched(n2) => match spec_opt(
                        spec_word(toks, pos + n1 + n2, Selmaho::Tehu),
                    ) {
                        Outcome::Matched(n3) => shifted(
                            spec_frees(toks, pos + n1 + n2 + n3),
                            n1 + n2 + n3,
                        ),
                        other => other,
                    },
                    other => other,
                },
                other => other,
            }
        ),
{
    reveal(spec_operator_component_1_maho);
    reveal(spec_word_with_free);
    reveal(spec_expression);
    reveal(spec_word);
    reveal(spec_frees);
}

/// ```text
/// OperatorComponent1Nahu <- Nahu Frees Selbri Tehu? Frees
/// ```
#[verifier::opaque]
pub closed spec fn spec_operator_component_1_nahu(toks: Seq<Token>, pos: nat) -> Outcome
    decreases rest(toks, pos), 25nat,
{
    match spec_word_with_free(toks, pos, Selmaho::Nahu) {
        Outcome::Matched(n1) => match (if advanced(toks, pos, n1) {
            spec_selbri(toks, pos + n1)
        } else {
            stuck(pos)
        }) {
            Outcome::Matched(n2) => match spec_opt(
                spec_word(toks, pos + n1 + n2, Selmaho::Tehu),
            ) {
                Outcome::Matched(n3) => shifted(
                    spec_frees(toks, pos + n1 + n2 + n3),
                    n1 + n2 + n3,
                ),
                other => other,
            },
            other => other,
        },
        other => other,
    }
}

/// What [`spec_operator_component_1_nahu`] says.
pub proof fn lemma_operator_component_1_nahu(toks: Seq<Token>, pos: nat)
    ensures
        spec_operator_component_1_nahu(toks, pos) == (
            match spec_word_with_free(toks, pos, Selmaho::Nahu) {
                Outcome::Matched(n1) => match (if advanced(toks, pos, n1) {
                    spec_selbri(toks, pos + n1)
                } else {
                    stuck(pos)
                }) {
                    Outcome::Matched(n2) => match spec_opt(
                        spec_word(toks, pos + n1 + n2, Selmaho::Tehu),
                    ) {
                        Outcome::Matched(n3) => shifted(
                            spec_frees(toks, pos + n1 + n2 + n3),
                            n1 + n2 + n3,
                        ),
                        other => other,
                    },
                    other => other,
                },
                other => other,
            }
        ),
{
    reveal(spec_operator_component_1_nahu);
    reveal(spec_word_with_free);
    reveal(spec_selbri);
    reveal(spec_word);
    reveal(spec_frees);
}

/// ```text
/// OperatorComponent1Vuhu <- Vuhu Frees
/// ```
#[verifier::opaque]
pub closed spec fn spec_operator_component_1_vuhu(toks: Seq<Token>, pos: nat) -> Outcome
    decreases rest(toks, pos), 4nat,
{
    spec_word_with_free(toks, pos, Selmaho::Vuhu)
}

/// What [`spec_operator_component_1_vuhu`] says.
pub proof fn lemma_operator_component_1_vuhu(toks: Seq<Token>, pos: nat)
    ensures
        spec_operator_component_1_vuhu(toks, pos) == (
            spec_word_with_free(toks, pos, Selmaho::Vuhu)
        ),
{
    reveal(spec_operator_component_1_vuhu);
    reveal(spec_word_with_free);
}

/// ```text
/// Operator3Grouped <- Ke Frees Operator Kehe Frees
/// ```
#[verifier::opaque]
pub closed spec fn spec_operator_3_grouped(toks: Seq<Token>, pos: nat) -> Outcome
    decreases rest(toks, pos), 25nat,
{
    match spec_word_with_free(toks, pos, Selmaho::Ke) {
        Outcome::Matched(n1) => match (if advanced(toks, pos, n1) {
            spec_operator(toks, pos + n1)
        } else {
            stuck(pos)
        }) {
            Outcome::Matched(n2) => match spec_word(toks, pos + n1 + n2, Selmaho::Kehe) {
                Outcome::Matched(n3) => shifted(
                    spec_frees(toks, pos + n1 + n2 + n3),
                    n1 + n2 + n3,
                ),
                other => other,
            },
            other => other,
        },
        other => other,
    }
}

/// What [`spec_operator_3_grouped`] says.
pub proof fn lemma_operator_3_grouped(toks: Seq<Token>, pos: nat)
    ensures
        spec_operator_3_grouped(toks, pos) == (
            match spec_word_with_free(toks, pos, Selmaho::Ke) {
                Outcome::Matched(n1) => match (if advanced(toks, pos, n1) {
                    spec_operator(toks, pos + n1)
                } else {
                    stuck(pos)
                }) {
                    Outcome::Matched(n2) => match spec_word(toks, pos + n1 + n2, Selmaho::Kehe) {
                        Outcome::Matched(n3) => shifted(
                            spec_frees(toks, pos + n1 + n2 + n3),
                            n1 + n2 + n3,
                        ),
                        other => other,
                    },
                    other => other,
                },
                other => other,
            }
        ),
{
    reveal(spec_operator_3_grouped);
    reveal(spec_word_with_free);
    reveal(spec_operator);
    reveal(spec_word);
    reveal(spec_frees);
}

/// ```text
/// Operator3ListNext <- OperatorBo Operator3
/// ```
#[verifier::opaque]
pub closed spec fn spec_operator_3_list_next(toks: Seq<Token>, pos: nat) -> Outcome
    decreases rest(toks, pos), 33nat,
{
    match spec_operator_bo(toks, pos) {
        Outcome::Matched(n1) => shifted(spec_operator_3(toks, pos + n1), n1),
        other => other,
    }
}

/// What [`spec_operator_3_list_next`] says.
pub proof fn lemma_operator_3_list_next(toks: Seq<Token>, pos: nat)
    ensures
        spec_operator_3_list_next(toks, pos) == (
            match spec_operator_bo(toks, pos) {
                Outcome::Matched(n1) => shifted(spec_operator_3(toks, pos + n1), n1),
                other => other,
            }
        ),
{
    reveal(spec_operator_3_list_next);
    reveal(spec_operator_bo);
    reveal(spec_operator_3);
}

/// As many `Operator3ListNext` as match in a row. It is an error if one of them
/// matches without taking a token.
#[verifier::opaque]
pub closed spec fn spec_many0_operator_3_list_next(toks: Seq<Token>, pos: nat) -> Outcome
    decreases rest(toks, pos), 34nat,
{
    match spec_operator_3_list_next(toks, pos) {
        Outcome::Matched(len) => if advanced(toks, pos, len) {
            shifted(spec_many0_operator_3_list_next(toks, pos + len), len)
        } else {
            Outcome::Error(combinator_at(pos, ErrorKind::Many0))
        },
        Outcome::Error(_) => Outcome::Matched(0),
        Outcome::Failure(report) => Outcome::Failure(report),
    }
}

/// What [`spec_many0_operator_3_list_next`] says.
pub proof fn lemma_many0_operator_3_list_next(toks: Seq<Token>, pos: nat)
    ensures
        spec_many0_operator_3_list_next(
            toks,
            pos,
        ) == (match spec_operator_3_list_next(toks, pos) {
            Outcome::Matched(len) => if advanced(toks, pos, len) {
                shifted(spec_many0_operator_3_list_next(toks, pos + len), len)
            } else {
                Outcome::Error(combinator_at(pos, ErrorKind::Many0))
            },
            Outcome::Error(_) => Outcome::Matched(0),
            Outcome::Failure(report) => Outcome::Failure(report),
        }),
{
    reveal(spec_many0_operator_3_list_next);
    reveal(spec_operator_3_list_next);
}

/// ```text
/// OperatorBo <- JoikJek TagWords? Bo Frees
/// ```
#[verifier::opaque]
pub closed spec fn spec_operator_bo(toks: Seq<Token>, pos: nat) -> Outcome
    decreases rest(toks, pos), 32nat,
{
    match spec_joik_jek(toks, pos) {
        Outcome::Matched(n1) => match spec_opt(spec_tag_words(toks, pos + n1)) {
            Outcome::Matched(n2) => shifted(
                spec_word_with_free(toks, pos + n1 + n2, Selmaho::Bo),
                n1 + n2,
            ),
            other => other,
        },
        other => other,
    }
}

/// What [`spec_operator_bo`] says.
pub proof fn lemma_operator_bo(toks: Seq<Token>, pos: nat)
    ensures
        spec_operator_bo(toks, pos) == (
            match spec_joik_jek(toks, pos) {
                Outcome::Matched(n1) => match spec_opt(spec_tag_words(toks, pos + n1)) {
                    Outcome::Matched(n2) => shifted(
                        spec_word_with_free(toks, pos + n1 + n2, Selmaho::Bo),
                        n1 + n2,
                    ),
                    other => other,
                },
                other => other,
            }
        ),
{
    reveal(spec_operator_bo);
    reveal(spec_joik_jek);
    reveal(spec_tag_words);
    reveal(spec_word_with_free);
}

/// ```text
/// JoikJek <- JoikJekJoik / JoikJekJek
/// ```
#[verifier::opaque]
pub closed spec fn spec_joik_jek(toks: Seq<Token>, pos: nat) -> Outcome
    decreases rest(toks, pos), 7nat,
{
    spec_alt(spec_joik_jek_joik(toks, pos), spec_joik_jek_jek(toks, pos))
}

/// What [`spec_joik_jek`] says.
pub proof fn lemma_joik_jek(toks: Seq<Token>, pos: nat)
    ensures
        spec_joik_jek(toks, pos) == (
            spec_alt(spec_joik_jek_joik(toks, pos), spec_joik_jek_jek(toks, pos))
        ),
{
    reveal(spec_joik_jek);
    reveal(spec_joik_jek_joik);
    reveal(spec_joik_jek_jek);
}

/// ```text
/// JoikJekJoik <- Joik
/// ```
#[verifier::opaque]
pub closed spec fn spec_joik_jek_joik(toks: Seq<Token>, pos: nat) -> Outcome
    decreases rest(toks, pos), 6nat,
{
    spec_joik(toks, pos)
}

/// What [`spec_joik_jek_joik`] says.
pub proof fn lemma_joik_jek_joik(toks: Seq<Token>, pos: nat)
    ensures
        spec_joik_jek_joik(toks, pos) == (
            spec_joik(toks, pos)
        ),
{
    reveal(spec_joik_jek_joik);
    reveal(spec_joik);
}

/// ```text
/// JoikJekJek <- Jek
/// ```
#[verifier::opaque]
pub closed spec fn spec_joik_jek_jek(toks: Seq<Token>, pos: nat) -> Outcome
    decreases rest(toks, pos), 5nat,
{
    spec_jek(toks, pos)
}

/// What [`spec_joik_jek_jek`] says.
pub proof fn lemma_joik_jek_jek(toks: Seq<Token>, pos: nat)
    ensures
        spec_joik_jek_jek(toks, pos) == (
            spec_jek(toks, pos)
        ),
{
    reveal(spec_joik_jek_jek);
    reveal(spec_jek);
}

/// ```text
/// Jek <- NaSeTNaiJa
/// ```
#[verifier::opaque]
pub closed spec fn spec_jek(toks: Seq<Token>, pos: nat) -> Outcome
    decreases rest(toks, pos), 4nat,
{
    spec_na_se_tnai_ja(toks, pos)
}

/// What [`spec_jek`] says.
pub proof fn lemma_jek(toks: Seq<Token>, pos: nat)
    ensures
        spec_jek(toks, pos) == (
            spec_na_se_tnai_ja(toks, pos)
        ),
{
    reveal(spec_jek);
    reveal(spec_na_se_tnai_ja);
}

/// ```text
/// NaSeTNaiJa <- Na? Se? Ja Nai?
/// ```
#[verifier::opaque]
pub closed spec fn spec_na_se_tnai_ja(toks: Seq<Token>, pos: nat) -> Outcome
    decreases rest(toks, pos), 3nat,
{
    match spec_opt(spec_word(toks, pos, Selmaho::Na)) {
        Outcome::Matched(n1) => match spec_opt(spec_word(toks, pos + n1, Selmaho::Se)) {
            Outcome::Matched(n2) => match spec_word(toks, pos + n1 + n2, Selmaho::Ja) {
                Outcome::Matched(n3) => shifted(
                    spec_opt(spec_word(toks, pos + n1 + n2 + n3, Selmaho::Nai)),
                    n1 + n2 + n3,
                ),
                other => other,
            },
            other => other,
        },
        other => other,
    }
}

/// What [`spec_na_se_tnai_ja`] says.
pub proof fn lemma_na_se_tnai_ja(toks: Seq<Token>, pos: nat)
    ensures
        spec_na_se_tnai_ja(toks, pos) == (
            match spec_opt(spec_word(toks, pos, Selmaho::Na)) {
                Outcome::Matched(n1) => match spec_opt(spec_word(toks, pos + n1, Selmaho::Se)) {
                    Outcome::Matched(n2) => match spec_word(toks, pos + n1 + n2, Selmaho::Ja) {
                        Outcome::Matched(n3) => shifted(
                            spec_opt(spec_word(toks, pos + n1 + n2 + n3, Selmaho::Nai)),
                            n1 + n2 + n3,
                        ),
                        other => other,
                    },
                    other => other,
                },
                other => other,
            }
        ),
{
    reveal(spec_na_se_tnai_ja);
    reveal(spec_word);
}

/// ```text
/// ConnectedOperator <- ConnectedOperatorNormal / ConnectedOperatorParenthesized
/// ```
#[verifier::opaque]
pub closed spec fn spec_connected_operator(toks: Seq<Token>, pos: nat) -> Outcome
    decreases rest(toks, pos), 39nat,
{
    spec_alt(
        spec_connected_operator_normal(toks, pos),
        spec_connected_operator_parenthesized(toks, pos),
    )
}

/// What [`spec_connected_operator`] says.
pub proof fn lemma_connected_operator(toks: Seq<Token>, pos: nat)
    ensures
        spec_connected_operator(toks, pos) == (
            spec_alt(
                spec_connected_operator_normal(toks, pos),
                spec_connected_operator_parenthesized(toks, pos),
            )
        ),
{
    reveal(spec_connected_operator);
    reveal(spec_connected_operator_normal);
    reveal(spec_connected_operator_parenthesized);
}

/// As many `ConnectedOperator` as match in a row. It is an error if one of them
/// matches without taking a token.
#[verifier::opaque]
pub closed spec fn spec_many0_connected_operator(toks: Seq<Token>, pos: nat) -> Outcome
    decreases rest(toks, pos), 40nat,
{
    match spec_connected_operator(toks, pos) {
        Outcome::Matched(len) => if advanced(toks, pos, len) {
            shifted(spec_many0_connected_operator(toks, pos + len), len)
        } else {
            Outcome::Error(combinator_at(pos, ErrorKind::Many0))
        },
        Outcome::Error(_) => Outcome::Matched(0),
        Outcome::Failure(report) => Outcome::Failure(report),
    }
}

/// What [`spec_many0_connected_operator`] says.
pub proof fn lemma_many0_connected_operator(toks: Seq<Token>, pos: nat)
    ensures
        spec_many0_connected_operator(toks, pos) == (match spec_connected_operator(toks, pos) {
            Outcome::Matched(len) => if advanced(toks, pos, len) {
                shifted(spec_many0_connected_operator(toks, pos + len), len)
            } else {
                Outcome::Error(combinator_at(pos, ErrorKind::Many0))
            },
            Outcome::Error(_) => Outcome::Matched(0),
            Outcome::Failure(report) => Outcome::Failure(report),
        }),
{
    reveal(spec_many0_connected_operator);
    reveal(spec_connected_operator);
}

/// ```text
/// ConnectedOperatorNormal <- JoikJek Operator1
/// ```
#[verifier::opaque]
pub closed spec fn spec_connected_operator_normal(toks: Seq<Token>, pos: nat) -> Outcome
    decreases rest(toks, pos), 38nat,
{
    match spec_joik_jek(toks, pos) {
        Outcome::Matched(n1) => shifted(spec_operator_1(toks, pos + n1), n1),
        other => other,
    }
}

/// What [`spec_connected_operator_normal`] says.
pub proof fn lemma_connected_operator_normal(toks: Seq<Token>, pos: nat)
    ensures
        spec_connected_operator_normal(toks, pos) == (
            match spec_joik_jek(toks, pos) {
                Outcome::Matched(n1) => shifted(spec_operator_1(toks, pos + n1), n1),
                other => other,
            }
        ),
{
    reveal(spec_connected_operator_normal);
    reveal(spec_joik_jek);
    reveal(spec_operator_1);
}

/// ```text
/// ConnectedOperatorParenthesized <- JoikJek TagWords? Ke Frees Operator Kehe? Frees
/// ```
#[verifier::opaque]
pub closed spec fn spec_connected_operator_parenthesized(toks: Seq<Token>, pos: nat) -> Outcome
    decreases rest(toks, pos), 32nat,
{
    match spec_joik_jek(toks, pos) {
        Outcome::Matched(n1) => match spec_opt(spec_tag_words(toks, pos + n1)) {
            Outcome::Matched(n2) => match spec_word_with_free(toks, pos + n1 + n2, Selmaho::Ke) {
                Outcome::Matched(n3) => match (if advanced(toks, pos, n1 + n2 + n3) {
                    spec_operator(toks, pos + n1 + n2 + n3)
                } else {
                    stuck(pos)
                }) {
                    Outcome::Matched(n4) => match spec_opt(
                        spec_word(toks, pos + n1 + n2 + n3 + n4, Selmaho::Kehe),
                    ) {
                        Outcome::Matched(n5) => shifted(
                            spec_frees(toks, pos + n1 + n2 + n3 + n4 + n5),
                            n1 + n2 + n3 + n4 + n5,
                        ),
                        other => other,
                    },
                    other => other,
                },
                other => other,
            },
            other => other,
        },
        other => other,
    }
}

/// What [`spec_connected_operator_parenthesized`] says.
pub proof fn lemma_connected_operator_parenthesized(toks: Seq<Token>, pos: nat)
    ensures
        spec_connected_operator_parenthesized(toks, pos) == (
            match spec_joik_jek(toks, pos) {
                Outcome::Matched(n1) => match spec_opt(spec_tag_words(toks, pos + n1)) {
                    Outcome::Matched(n2) => match spec_word_with_free(
                        toks,
                        pos + n1 + n2,
                        Selmaho::Ke,
                    ) {
                        Outcome::Matched(n3) => match (if advanced(toks, pos, n1 + n2 + n3) {
                            spec_operator(toks, pos + n1 + n2 + n3)
                        } else {
                            stuck(pos)
                        }) {
                            Outcome::Matched(n4) => match spec_opt(
                                spec_word(toks, pos + n1 + n2 + n3 + n4, Selmaho::Kehe),
                            ) {
                                Outcome::Matched(n5) => shifted(
                                    spec_frees(toks, pos + n1 + n2 + n3 + n4 + n5),
                                    n1 + n2 + n3 + n4 + n5,
                                ),
                                other => other,
                            },
                            other => other,
                        },
                        other => other,
                    },
                    other => other,
                },
                other => other,
            }
        ),
{
    reveal(spec_connected_operator_parenthesized);
    reveal(spec_joik_jek);
    reveal(spec_tag_words);
    reveal(spec_word_with_free);
    reveal(spec_operator);
    reveal(spec_word);
    reveal(spec_frees);
}

/// ```text
/// Operand3Modified <- SumtiModifier Operand Luhu?
/// ```
#[verifier::opaque]
pub closed spec fn spec_operand_3_modified(toks: Seq<Token>, pos: nat) -> Outcome
    decreases rest(toks, pos), 5nat,
{
    match spec_sumti_modifier(toks, pos) {
        Outcome::Matched(n1) => match (if advanced(toks, pos, n1) {
            spec_operand(toks, pos + n1)
        } else {
            stuck(pos)
        }) {
            Outcome::Matched(n2) => shifted(
                spec_opt(spec_word(toks, pos + n1 + n2, Selmaho::Luhu)),
                n1 + n2,
            ),
            other => other,
        },
        other => other,
    }
}

/// What [`spec_operand_3_modified`] says.
pub proof fn lemma_operand_3_modified(toks: Seq<Token>, pos: nat)
    ensures
        spec_operand_3_modified(toks, pos) == (
            match spec_sumti_modifier(toks, pos) {
                Outcome::Matched(n1) => match (if advanced(toks, pos, n1) {
                    spec_operand(toks, pos + n1)
                } else {
                    stuck(pos)
                }) {
                    Outcome::Matched(n2) => shifted(
                        spec_opt(spec_word(toks, pos + n1 + n2, Selmaho::Luhu)),
                        n1 + n2,
                    ),
                    other => other,
                },
                other => other,
            }
        ),
{
    reveal(spec_operand_3_modified);
    reveal(spec_sumti_modifier);
    reveal(spec_operand);
    reveal(spec_word);
}

/// ```text
/// SumtiModifier <- SumtiModifierLahe / SumtiModifierNaheBo
/// ```
#[verifier::opaque]
pub closed spec fn spec_sumti_modifier(toks: Seq<Token>, pos: nat) -> Outcome
    decreases rest(toks, pos), 4nat,
{
    spec_alt(
        spec_sumti_modifier_lahe(toks, pos),
        spec_sumti_modifier_nahe_bo(toks, pos),
    )
}

/// What [`spec_sumti_modifier`] says.
pub proof fn lemma_sumti_modifier(toks: Seq<Token>, pos: nat)
    ensures
        spec_sumti_modifier(toks, pos) == (
            spec_alt(
                spec_sumti_modifier_lahe(toks, pos),
                spec_sumti_modifier_nahe_bo(toks, pos),
            )
        ),
{
    reveal(spec_sumti_modifier);
    reveal(spec_sumti_modifier_lahe);
    reveal(spec_sumti_modifier_nahe_bo);
}

/// ```text
/// SumtiModifierLahe <- Lahe
/// ```
#[verifier::opaque]
pub closed spec fn spec_sumti_modifier_lahe(toks: Seq<Token>, pos: nat) -> Outcome
    decreases rest(toks, pos), 3nat,
{
    spec_word(toks, pos, Selmaho::Lahe)
}

/// What [`spec_sumti_modifier_lahe`] says.
pub proof fn lemma_sumti_modifier_lahe(toks: Seq<Token>, pos: nat)
    ensures
        spec_sumti_modifier_lahe(toks, pos) == (
            spec_word(toks, pos, Selmaho::Lahe)
        ),
{
    reveal(spec_sumti_modifier_lahe);
    reveal(spec_word);
}

/// ```text
/// SumtiModifierNaheBo <- Nahe Bo
/// ```
#[verifier::opaque]
pub closed spec fn spec_sumti_modifier_nahe_bo(toks: Seq<Token>, pos: nat) -> Outcome
    decreases rest(toks, pos), 3nat,
{
    match spec_word(toks, pos, Selmaho::Nahe) {
        Outcome::Matched(n1) => shifted(spec_word(toks, pos + n1, Selmaho::Bo), n1),
        other => other,
    }
}

/// What [`spec_sumti_modifier_nahe_bo`] says.
pub proof fn lemma_sumti_modifier_nahe_bo(toks: Seq<Token>, pos: nat)
    ensures
        spec_sumti_modifier_nahe_bo(toks, pos) == (
            match spec_word(toks, pos, Selmaho::Nahe) {
                Outcome::Matched(n1) => shifted(spec_word(toks, pos + n1, Selmaho::Bo), n1),
                other => other,
            }
        ),
{
    reveal(spec_sumti_modifier_nahe_bo);
    reveal(spec_word);
}

/// ```text
/// Operand3Parenthesized <- Vei Frees Expression Veho? Frees
/// ```
#[verifier::opaque]
pub closed spec fn spec_operand_3_parenthesized(toks: Seq<Token>, pos: nat) -> Outcome
    decreases rest(toks, pos), 25nat,
{
    match spec_word_with_free(toks, pos, Selmaho::Vei) {
        Outcome::Matched(n1) => match (if advanced(toks, pos, n1) {
            spec_expression(toks, pos + n1)
        } else {
            stuck(pos)
        }) {
            Outcome::Matched(n2) => match spec_opt(
                spec_word(toks, pos + n1 + n2, Selmaho::Veho),
            ) {
                Outcome::Matched(n3) => shifted(
                    spec_frees(toks, pos + n1 + n2 + n3),
                    n1 + n2 + n3,
                ),
                other => other,
            },
            other => other,
        },
        other => other,
    }
}

/// What [`spec_operand_3_parenthesized`] says.
pub proof fn lemma_operand_3_parenthesized(toks: Seq<Token>, pos: nat)
    ensures
        spec_operand_3_parenthesized(toks, pos) == (
            match spec_word_with_free(toks, pos, Selmaho::Vei) {
                Outcome::Matched(n1) => match (if advanced(toks, pos, n1) {
                    spec_expression(toks, pos + n1)
                } else {
                    stuck(pos)
                }) {
                    Outcome::Matched(n2) => match spec_opt(
                        spec_word(toks, pos + n1 + n2, Selmaho::Veho),
                    ) {
                        Outcome::Matched(n3) => shifted(
                            spec_frees(toks, pos + n1 + n2 + n3),
                            n1 + n2 + n3,
                        ),
                        other => other,
                    },
                    other => other,
                },
                other => other,
            }
        ),
{
    reveal(spec_operand_3_parenthesized);
    reveal(spec_word_with_free);
    reveal(spec_expression);
    reveal(spec_word);
    reveal(spec_frees);
}

/// ```text
/// Operand3Number <- MiscNumbers !Moi Boi? Frees
/// ```
#[verifier::opaque]
pub closed spec fn spec_operand_3_number(toks: Seq<Token>, pos: nat) -> Outcome
    decreases rest(toks, pos), 25nat,
{
    match spec_misc_numbers(toks, pos) {
        Outcome::Matched(n1) => match spec_not(
            pos + n1,
            spec_word(toks, pos + n1, Selmaho::Moi),
        ) {
            Outcome::Matched(_) => match spec_opt(spec_word(toks, pos + n1, Selmaho::Boi)) {
                Outcome::Matched(n2) => shifted(spec_frees(toks, pos + n1 + n2), n1 + n2),
                other => other,
            },
            other => other,
        },
        other => other,
    }
}

/// What [`spec_operand_3_number`] says.
pub proof fn lemma_operand_3_number(toks: Seq<Token>, pos: nat)
    ensures
        spec_operand_3_number(toks, pos) == (
            match spec_misc_numbers(toks, pos) {
                Outcome::Matched(n1) => match spec_not(
                    pos + n1,
                    spec_word(toks, pos + n1, Selmaho::Moi),
                ) {
                    Outcome::Matched(_) => match spec_opt(
                        spec_word(toks, pos + n1, Selmaho::Boi),
                    ) {
                        Outcome::Matched(n2) => shifted(spec_frees(toks, pos + n1 + n2), n1 + n2),
                        other => other,
                    },
                    other => other,
                },
                other => other,
            }
        ),
{
    reveal(spec_operand_3_number);
    reveal(spec_misc_numbers);
    reveal(spec_word);
    reveal(spec_frees);
}

/// ```text
/// Operand2ListNext <- OperandBo Operand2
/// ```
#[verifier::opaque]
pub closed spec fn spec_operand_2_list_next(toks: Seq<Token>, pos: nat) -> Outcome
    decreases rest(toks, pos), 92nat,
{
    match spec_operand_bo(toks, pos) {
        Outcome::Matched(n1) => shifted(spec_operand_2(toks, pos + n1), n1),
        other => other,
    }
}

/// What [`spec_operand_2_list_next`] says.
pub proof fn lemma_operand_2_list_next(toks: Seq<Token>, pos: nat)
    ensures
        spec_operand_2_list_next(toks, pos) == (
            match spec_operand_bo(toks, pos) {
                Outcome::Matched(n1) => shifted(spec_operand_2(toks, pos + n1), n1),
                other => other,
            }
        ),
{
    reveal(spec_operand_2_list_next);
    reveal(spec_operand_bo);
    reveal(spec_operand_2);
}

/// As many `Operand2ListNext` as match in a row. It is an error if one of them
/// matches without taking a token.
#[verifier::opaque]
pub closed spec fn spec_many0_operand_2_list_next(toks: Seq<Token>, pos: nat) -> Outcome
    decreases rest(toks, pos), 93nat,
{
    match spec_operand_2_list_next(toks, pos) {
        Outcome::Matched(len) => if advanced(toks, pos, len) {
            shifted(spec_many0_operand_2_list_next(toks, pos + len), len)
        } else {
            Outcome::Error(combinator_at(pos, ErrorKind::Many0))
        },
        Outcome::Error(_) => Outcome::Matched(0),
        Outcome::Failure(report) => Outcome::Failure(report),
    }
}

/// What [`spec_many0_operand_2_list_next`] says.
pub proof fn lemma_many0_operand_2_list_next(toks: Seq<Token>, pos: nat)
    ensures
        spec_many0_operand_2_list_next(toks, pos) == (match spec_operand_2_list_next(toks, pos) {
            Outcome::Matched(len) => if advanced(toks, pos, len) {
                shifted(spec_many0_operand_2_list_next(toks, pos + len), len)
            } else {
                Outcome::Error(combinator_at(pos, ErrorKind::Many0))
            },
            Outcome::Error(_) => Outcome::Matched(0),
            Outcome::Failure(report) => Outcome::Failure(report),
        }),
{
    reveal(spec_many0_operand_2_list_next);
    reveal(spec_operand_2_list_next);
}

/// ```text
/// OperandBo <- JoikEk TagWords? Bo Frees
/// ```
#[verifier::opaque]
pub closed spec fn spec_operand_bo(toks: Seq<Token>, pos: nat) -> Outcome
    decreases rest(toks, pos), 32nat,
{
    match spec_joik_ek(toks, pos) {
        Outcome::Matched(n1) => match spec_opt(spec_tag_words(toks, pos + n1)) {
            Outcome::Matched(n2) => shifted(
                spec_word_with_free(toks, pos + n1 + n2, Selmaho::Bo),
                n1 + n2,
            ),
            other => other,
        },
        other => other,
    }
}

/// What [`spec_operand_bo`] says.
pub proof fn lemma_operand_bo(toks: Seq<Token>, pos: nat)
    ensures
        spec_operand_bo(toks, pos) == (
            match spec_joik_ek(toks, pos) {
                Outcome::Matched(n1) => match spec_opt(spec_tag_words(toks, pos + n1)) {
                    Outcome::Matched(n2) => shifted(
                        spec_word_with_free(toks, pos + n1 + n2, Selmaho::Bo),
                        n1 + n2,
                    ),
                    other => other,
                },
                other => other,
            }
        ),
{
    reveal(spec_operand_bo);
    reveal(spec_joik_ek);
    reveal(spec_tag_words);
    reveal(spec_word_with_free);
}

/// ```text
/// JoikEk <- JoikEkJoik / JoikEkEk
/// ```
#[verifier::opaque]
pub closed spec fn spec_joik_ek(toks: Seq<Token>, pos: nat) -> Outcome
    decreases rest(toks, pos), 26nat,
{
    spec_alt(spec_joik_ek_joik(toks, pos), spec_joik_ek_ek(toks, pos))
}

/// What [`spec_joik_ek`] says.
pub proof fn lemma_joik_ek(toks: Seq<Token>, pos: nat)
    ensures
        spec_joik_ek(toks, pos) == (
            spec_alt(spec_joik_ek_joik(toks, pos), spec_joik_ek_ek(toks, pos))
        ),
{
    reveal(spec_joik_ek);
    reveal(spec_joik_ek_joik);
    reveal(spec_joik_ek_ek);
}

/// ```text
/// JoikEkJoik <- Joik Frees
/// ```
#[verifier::opaque]
pub closed spec fn spec_joik_ek_joik(toks: Seq<Token>, pos: nat) -> Outcome
    decreases rest(toks, pos), 25nat,
{
    match spec_joik(toks, pos) {
        Outcome::Matched(n1) => shifted(spec_frees(toks, pos + n1), n1),
        other => other,
    }
}

/// What [`spec_joik_ek_joik`] says.
pub proof fn lemma_joik_ek_joik(toks: Seq<Token>, pos: nat)
    ensures
        spec_joik_ek_joik(toks, pos) == (
            match spec_joik(toks, pos) {
                Outcome::Matched(n1) => shifted(spec_frees(toks, pos + n1), n1),
                other => other,
            }
        ),
{
    reveal(spec_joik_ek_joik);
    reveal(spec_joik);
    reveal(spec_frees);
}

/// ```text
/// JoikEkEk <- Ek Frees
/// ```
#[verifier::opaque]
pub closed spec fn spec_joik_ek_ek(toks: Seq<Token>, pos: nat) -> Outcome
    decreases rest(toks, pos), 25nat,
{
    match spec_ek(toks, pos) {
        Outcome::Matched(n1) => shifted(spec_frees(toks, pos + n1), n1),
        other => other,
    }
}

/// What [`spec_joik_ek_ek`] says.
pub proof fn lemma_joik_ek_ek(toks: Seq<Token>, pos: nat)
    ensures
        spec_joik_ek_ek(toks, pos) == (
            match spec_ek(toks, pos) {
                Outcome::Matched(n1) => shifted(spec_frees(toks, pos + n1), n1),
                other => other,
            }
        ),
{
    reveal(spec_joik_ek_ek);
    reveal(spec_ek);
    reveal(spec_frees);
}

/// ```text
/// Ek <- NaSeTNaiA
/// ```
#[verifier::opaque]
pub closed spec fn spec_ek(toks: Seq<Token>, pos: nat) -> Outcome
    decreases rest(toks, pos), 4nat,
{
    spec_na_se_tnai_a(toks, pos)
}

/// What [`spec_ek`] says.
pub proof fn lemma_ek(toks: Seq<Token>, pos: nat)
    ensures
        spec_ek(toks, pos) == (
            spec_na_se_tnai_a(toks, pos)
        ),
{
    reveal(spec_ek);
    reveal(spec_na_se_tnai_a);
}

/// ```text
/// NaSeTNaiA <- Na? Se? A Nai?
/// ```
#[verifier::opaque]
pub closed spec fn spec_na_se_tnai_a(toks: Seq<Token>, pos: nat) -> Outcome
    decreases rest(toks, pos), 3nat,
{
    match spec_opt(spec_word(toks, pos, Selmaho::Na)) {
        Outcome::Matched(n1) => match spec_opt(spec_word(toks, pos + n1, Selmaho::Se)) {
            Outcome::Matched(n2) => match spec_word(toks, pos + n1 + n2, Selmaho::A) {
                Outcome::Matched(n3) => shifted(
                    spec_opt(spec_word(toks, pos + n1 + n2 + n3, Selmaho::Nai)),
                    n1 + n2 + n3,
                ),
                other => other,
            },
            other => other,
        },
        other => other,
    }
}

/// What [`spec_na_se_tnai_a`] says.
pub proof fn lemma_na_se_tnai_a(toks: Seq<Token>, pos: nat)
    ensures
        spec_na_se_tnai_a(toks, pos) == (
            match spec_opt(spec_word(toks, pos, Selmaho::Na)) {
                Outcome::Matched(n1) => match spec_opt(spec_word(toks, pos + n1, Selmaho::Se)) {
                    Outcome::Matched(n2) => match spec_word(toks, pos + n1 + n2, Selmaho::A) {
                        Outcome::Matched(n3) => shifted(
                            spec_opt(spec_word(toks, pos + n1 + n2 + n3, Selmaho::Nai)),
                            n1 + n2 + n3,
                        ),
                        other => other,
                    },
                    other => other,
                },
                other => other,
            }
        ),
{
    reveal(spec_na_se_tnai_a);
    reveal(spec_word);
}

/// ```text
/// ConnectedOperand <- ConnectedOperandNormal / ConnectedOperandGrouped
/// ```
#[verifier::opaque]
pub closed spec fn spec_connected_operand(toks: Seq<Token>, pos: nat) -> Outcome
    decreases rest(toks, pos), 97nat,
{
    spec_alt(
        spec_connected_operand_normal(toks, pos),
        spec_connected_operand_grouped(toks, pos),
    )
}

/// What [`spec_connected_operand`] says.
pub proof fn lemma_connected_operand(toks: Seq<Token>, pos: nat)
    ensures
        spec_connected_operand(toks, pos) == (
            spec_alt(
                spec_connected_operand_normal(toks, pos),
                spec_connected_operand_grouped(toks, pos),
            )
        ),
{
    reveal(spec_connected_operand);
    reveal(spec_connected_operand_normal);
    reveal(spec_connected_operand_grouped);
}

/// As many `ConnectedOperand` as match in a row. It is an error if one of them
/// matches without taking a token.
#[verifier::opaque]
pub closed spec fn spec_many0_connected_operand(toks: Seq<Token>, pos: nat) -> Outcome
    decreases rest(toks, pos), 98nat,
{
    match spec_connected_operand(toks, pos) {
        Outcome::Matched(len) => if advanced(toks, pos, len) {
            shifted(spec_many0_connected_operand(toks, pos + len), len)
        } else {
            Outcome::Error(combinator_at(pos, ErrorKind::Many0))
        },
        Outcome::Error(_) => Outcome::Matched(0),
        Outcome::Failure(report) => Outcome::Failure(report),
    }
}

/// What [`spec_many0_connected_operand`] says.
pub proof fn lemma_many0_connected_operand(toks: Seq<Token>, pos: nat)
    ensures
        spec_many0_connected_operand(toks, pos) == (match spec_connected_operand(toks, pos) {
            Outcome::Matched(len) => if advanced(toks, pos, len) {
                shifted(spec_many0_connected_operand(toks, pos + len), len)
            } else {
                Outcome::Error(combinator_at(pos, ErrorKind::Many0))
            },
            Outcome::Error(_) => Outcome::Matched(0),
            Outcome::Failure(report) => Outcome::Failure(report),
        }),
{
    reveal(spec_many0_connected_operand);
    reveal(spec_connected_operand);
}

/// ```text
/// ConnectedOperandNormal <- JoikEk Operand1
/// ```
#[verifier::opaque]
pub closed spec fn spec_connected_operand_normal(toks: Seq<Token>, pos: nat) -> Outcome
    decreases rest(toks, pos), 96nat,
{
    match spec_joik_ek(toks, pos) {
        Outcome::Matched(n1) => shifted(spec_operand_1(toks, pos + n1), n1),
        other => other,
    }
}

/// What [`spec_connected_operand_normal`] says.
pub proof fn lemma_connected_operand_normal(toks: Seq<Token>, pos: nat)
    ensures
        spec_connected_operand_normal(toks, pos) == (
            match spec_joik_ek(toks, pos) {
                Outcome::Matched(n1) => shifted(spec_operand_1(toks, pos + n1), n1),
                other => other,
            }
        ),
{
    reveal(spec_connected_operand_normal);
    reveal(spec_joik_ek);
    reveal(spec_operand_1);
}

/// ```text
/// ConnectedOperandGrouped <- JoikEk TagWords? Ke Frees Operand Kehe? Frees
/// ```
#[verifier::opaque]
pub closed spec fn spec_connected_operand_grouped(toks: Seq<Token>, pos: nat) -> Outcome
    decreases rest(toks, pos), 32nat,
{
    match spec_joik_ek(toks, pos) {
        Outcome::Matched(n1) => match spec_opt(spec_tag_words(toks, pos + n1)) {
            Outcome::Matched(n2) => match spec_word_with_free(toks, pos + n1 + n2, Selmaho::Ke) {
                Outcome::Matched(n3) => match (if advanced(toks, pos, n1 + n2 + n3) {
                    spec_operand(toks, pos + n1 + n2 + n3)
                } else {
                    stuck(pos)
                }) {
                    Outcome::Matched(n4) => match spec_opt(
                        spec_word(toks, pos + n1 + n2 + n3 + n4, Selmaho::Kehe),
                    ) {
                        Outcome::Matched(n5) => shifted(
                            spec_frees(toks, pos + n1 + n2 + n3 + n4 + n5),
                            n1 + n2 + n3 + n4 + n5,
                        ),
                        other => other,
                    },
                    other => other,
                },
                other => other,
            },
            other => other,
        },
        other => other,
    }
}

/// What [`spec_connected_operand_grouped`] says.
pub proof fn lemma_connected_operand_grouped(toks: Seq<Token>, pos: nat)
    ensures
        spec_connected_operand_grouped(toks, pos) == (
            match spec_joik_ek(toks, pos) {
                Outcome::Matched(n1) => match spec_opt(spec_tag_words(toks, pos + n1)) {
                    Outcome::Matched(n2) => match spec_word_with_free(
                        toks,
                        pos + n1 + n2,
                        Selmaho::Ke,
                    ) {
                        Outcome::Matched(n3) => match (if advanced(toks, pos, n1 + n2 + n3) {
                            spec_operand(toks, pos + n1 + n2 + n3)
                        } else {
                            stuck(pos)
                        }) {
                            Outcome::Matched(n4) => match spec_opt(
                                spec_word(toks, pos + n1 + n2 + n3 + n4, Selmaho::Kehe),
                            ) {
                                Outcome::Matched(n5) => shifted(
                                    spec_frees(toks, pos + n1 + n2 + n3 + n4 + n5),
                                    n1 + n2 + n3 + n4 + n5,
                                ),
                                other => other,
                            },
                            other => other,
                        },
                        other => other,
                    },
                    other => other,
                },
                other => other,
            }
        ),
{
    reveal(spec_connected_operand_grouped);
    reveal(spec_joik_ek);
    reveal(spec_tag_words);
    reveal(spec_word_with_free);
    reveal(spec_operand);
    reveal(spec_word);
    reveal(spec_frees);
}

/// ```text
/// RPTail <- ReversePolish Operator
/// ```
#[verifier::opaque]
pub closed spec fn spec_rptail(toks: Seq<Token>, pos: nat) -> Outcome
    decreases rest(toks, pos), 101nat,
{
    match spec_reverse_polish(toks, pos) {
        Outcome::Matched(n1) => shifted(spec_operator(toks, pos + n1), n1),
        other => other,
    }
}

/// What [`spec_rptail`] says.
pub proof fn lemma_rptail(toks: Seq<Token>, pos: nat)
    ensures
        spec_rptail(toks, pos) == (
            match spec_reverse_polish(toks, pos) {
                Outcome::Matched(n1) => shifted(spec_operator(toks, pos + n1), n1),
                other => other,
            }
        ),
{
    reveal(spec_rptail);
    reveal(spec_reverse_polish);
    reveal(spec_operator);
}

/// As many `RPTail` as match in a row. It is an error if one of them
/// matches without taking a token.
#[verifier::opaque]
pub closed spec fn spec_many0_rptail(toks: Seq<Token>, pos: nat) -> Outcome
    decreases rest(toks, pos), 102nat,
{
    match spec_rptail(toks, pos) {
        Outcome::Matched(len) => if advanced(toks, pos, len) {
            shifted(spec_many0_rptail(toks, pos + len), len)
        } else {
            Outcome::Error(combinator_at(pos, ErrorKind::Many0))
        },
        Outcome::Error(_) => Outcome::Matched(0),
        Outcome::Failure(report) => Outcome::Failure(report),
    }
}

/// What [`spec_many0_rptail`] says.
pub proof fn lemma_many0_rptail(toks: Seq<Token>, pos: nat)
    ensures
        spec_many0_rptail(toks, pos) == (match spec_rptail(toks, pos) {
            Outcome::Matched(len) => if advanced(toks, pos, len) {
                shifted(spec_many0_rptail(toks, pos + len), len)
            } else {
                Outcome::Error(combinator_at(pos, ErrorKind::Many0))
            },
            Outcome::Error(_) => Outcome::Matched(0),
            Outcome::Failure(report) => Outcome::Failure(report),
        }),
{
    reveal(spec_many0_rptail);
    reveal(spec_rptail);
}

/// ```text
/// ExpressionNormal <- ExpressionList
/// ```
#[verifier::opaque]
pub closed spec fn spec_expression_normal(toks: Seq<Token>, pos: nat) -> Outcome
    decreases rest(toks, pos), 108nat,
{
    spec_expression_list(toks, pos)
}

/// What [`spec_expression_normal`] says.
pub proof fn lemma_expression_normal(toks: Seq<Token>, pos: nat)
    ensures
        spec_expression_normal(toks, pos) == (
            spec_expression_list(toks, pos)
        ),
{
    reveal(spec_expression_normal);
    reveal(spec_expression_list);
}

/// ```text
/// ExpressionList <- BiheList ExpressionListNext*
/// ```
#[verifier::opaque]
pub closed spec fn spec_expression_list(toks: Seq<Token>, pos: nat) -> Outcome
    decreases rest(toks, pos), 107nat,
{
    match spec_bihe_list(toks, pos) {
        Outcome::Matched(n1) => shifted(spec_many0_expression_list_next(toks, pos + n1), n1),
        other => other,
    }
}

/// What [`spec_expression_list`] says.
pub proof fn lemma_expression_list(toks: Seq<Token>, pos: nat)
    ensures
        spec_expression_list(toks, pos) == (
            match spec_bihe_list(toks, pos) {
                Outcome::Matched(n1) => shifted(
                    spec_many0_expression_list_next(toks, pos + n1),
                    n1,
                ),
                other => other,
            }
        ),
{
    reveal(spec_expression_list);
    reveal(spec_bihe_list);
    reveal(spec_many0_expression_list_next);
}

/// ```text
/// BiheList <- Expression1 BiheListNext*
/// ```
#[verifier::opaque]
pub closed spec fn spec_bihe_list(toks: Seq<Token>, pos: nat) -> Outcome
    decreases rest(toks, pos), 104nat,
{
    match spec_expression_1(toks, pos) {
        Outcome::Matched(n1) => shifted(spec_many0_bihe_list_next(toks, pos + n1), n1),
        other => other,
    }
}

/// What [`spec_bihe_list`] says.
pub proof fn lemma_bihe_list(toks: Seq<Token>, pos: nat)
    ensures
        spec_bihe_list(toks, pos) == (
            match spec_expression_1(toks, pos) {
                Outcome::Matched(n1) => shifted(spec_many0_bihe_list_next(toks, pos + n1), n1),
                other => other,
            }
        ),
{
    reveal(spec_bihe_list);
    reveal(spec_expression_1);
    reveal(spec_many0_bihe_list_next);
}

/// ```text
/// BiheListNext <- BiheOperator Expression1
/// ```
#[verifier::opaque]
pub closed spec fn spec_bihe_list_next(toks: Seq<Token>, pos: nat) -> Outcome
    decreases rest(toks, pos), 102nat,
{
    match spec_bihe_operator(toks, pos) {
        Outcome::Matched(n1) => shifted(spec_expression_1(toks, pos + n1), n1),
        other => other,
    }
}

/// What [`spec_bihe_list_next`] says.
pub proof fn lemma_bihe_list_next(toks: Seq<Token>, pos: nat)
    ensures
        spec_bihe_list_next(toks, pos) == (
            match spec_bihe_operator(toks, pos) {
                Outcome::Matched(n1) => shifted(spec_expression_1(toks, pos + n1), n1),
                other => other,
            }
        ),
{
    reveal(spec_bihe_list_next);
    reveal(spec_bihe_operator);
    reveal(spec_expression_1);
}

/// As many `BiheListNext` as match in a row. It is an error if one of them
/// matches without taking a token.
#[verifier::opaque]
pub closed spec fn spec_many0_bihe_list_next(toks: Seq<Token>, pos: nat) -> Outcome
    decreases rest(toks, pos), 103nat,
{
    match spec_bihe_list_next(toks, pos) {
        Outcome::Matched(len) => if advanced(toks, pos, len) {
            shifted(spec_many0_bihe_list_next(toks, pos + len), len)
        } else {
            Outcome::Error(combinator_at(pos, ErrorKind::Many0))
        },
        Outcome::Error(_) => Outcome::Matched(0),
        Outcome::Failure(report) => Outcome::Failure(report),
    }
}

/// What [`spec_many0_bihe_list_next`] says.
pub proof fn lemma_many0_bihe_list_next(toks: Seq<Token>, pos: nat)
    ensures
        spec_many0_bihe_list_next(toks, pos) == (match spec_bihe_list_next(toks, pos) {
            Outcome::Matched(len) => if advanced(toks, pos, len) {
                shifted(spec_many0_bihe_list_next(toks, pos + len), len)
            } else {
                Outcome::Error(combinator_at(pos, ErrorKind::Many0))
            },
            Outcome::Error(_) => Outcome::Matched(0),
            Outcome::Failure(report) => Outcome::Failure(report),
        }),
{
    reveal(spec_many0_bihe_list_next);
    reveal(spec_bihe_list_next);
}

/// ```text
/// BiheOperator <- Bihe Frees Operator
/// ```
#[verifier::opaque]
pub closed spec fn spec_bihe_operator(toks: Seq<Token>, pos: nat) -> Outcome
    decreases rest(toks, pos), 42nat,
{
    match spec_word_with_free(toks, pos, Selmaho::Bihe) {
        Outcome::Matched(n1) => shifted(spec_operator(toks, pos + n1), n1),
        other => other,
    }
}

/// What [`spec_bihe_operator`] says.
pub proof fn lemma_bihe_operator(toks: Seq<Token>, pos: nat)
    ensures
        spec_bihe_operator(toks, pos) == (
            match spec_word_with_free(toks, pos, Selmaho::Bihe) {
                Outcome::Matched(n1) => shifted(spec_operator(toks, pos + n1), n1),
                other => other,
            }
        ),
{
    reveal(spec_bihe_operator);
    reveal(spec_word_with_free);
    reveal(spec_operator);
}

/// ```text
/// ExpressionListNext <- Operator BiheList
/// ```
#[verifier::opaque]
pub closed spec fn spec_expression_list_next(toks: Seq<Token>, pos: nat) -> Outcome
    decreases rest(toks, pos), 105nat,
{
    match spec_operator(toks, pos) {
        Outcome::Matched(n1) => shifted(spec_bihe_list(toks, pos + n1), n1),
        other => other,
    }
}

/// What [`spec_expression_list_next`] says.
pub proof fn lemma_expression_list_next(toks: Seq<Token>, pos: nat)
    ensures
        spec_expression_list_next(toks, pos) == (
            match spec_operator(toks, pos) {
                Outcome::Matched(n1) => shifted(spec_bihe_list(toks, pos + n1), n1),
                other => other,
            }
        ),
{
    reveal(spec_expression_list_next);
    reveal(spec_operator);
    reveal(spec_bihe_list);
}

/// As many `ExpressionListNext` as match in a row. It is an error if one of them
/// matches without taking a token.
#[verifier::opaque]
pub closed spec fn spec_many0_expression_list_next(toks: Seq<Token>, pos: nat) -> Outcome
    decreases rest(toks, pos), 106nat,
{
    match spec_expression_list_next(toks, pos) {
        Outcome::Matched(len) => if advanced(toks, pos, len) {
            shifted(spec_many0_expression_list_next(toks, pos + len), len)
        } else {
            Outcome::Error(combinator_at(pos, ErrorKind::Many0))
        },
        Outcome::Error(_) => Outcome::Matched(0),
        Outcome::Failure(report) => Outcome::Failure(report),
    }
}

/// What [`spec_many0_expression_list_next`] says.
pub proof fn lemma_many0_expression_list_next(toks: Seq<Token>, pos: nat)
    ensures
        spec_many0_expression_list_next(
            toks,
            pos,
        ) == (match spec_expression_list_next(toks, pos) {
            Outcome::Matched(len) => if advanced(toks, pos, len) {
                shifted(spec_many0_expression_list_next(toks, pos + len), len)
            } else {
                Outcome::Error(combinator_at(pos, ErrorKind::Many0))
            },
            Outcome::Error(_) => Outcome::Matched(0),
            Outcome::Failure(report) => Outcome::Failure(report),
        }),
{
    reveal(spec_many0_expression_list_next);
    reveal(spec_expression_list_next);
}

/// ```text
/// QuantifierNumber <- Number !Moi Boi? Frees
/// ```
#[verifier::opaque]
pub closed spec fn spec_quantifier_number(toks: Seq<Token>, pos: nat) -> Outcome
    decreases rest(toks, pos), 25nat,
{
    match spec_number(toks, pos) {
        Outcome::Matched(n1) => match spec_not(
            pos + n1,
            spec_word(toks, pos + n1, Selmaho::Moi),
        ) {
            Outcome::Matched(_) => match spec_opt(spec_word(toks, pos + n1, Selmaho::Boi)) {
                Outcome::Matched(n2) => shifted(spec_frees(toks, pos + n1 + n2), n1 + n2),
                other => other,
            },
            other => other,
        },
        other => other,
    }
}

/// What [`spec_quantifier_number`] says.
pub proof fn lemma_quantifier_number(toks: Seq<Token>, pos: nat)
    ensures
        spec_quantifier_number(toks, pos) == (
            match spec_number(toks, pos) {
                Outcome::Matched(n1) => match spec_not(
                    pos + n1,
                    spec_word(toks, pos + n1, Selmaho::Moi),
                ) {
                    Outcome::Matched(_) => match spec_opt(
                        spec_word(toks, pos + n1, Selmaho::Boi),
                    ) {
                        Outcome::Matched(n2) => shifted(spec_frees(toks, pos + n1 + n2), n1 + n2),
                        other => other,
                    },
                    other => other,
                },
                other => other,
            }
        ),
{
    reveal(spec_quantifier_number);
    reveal(spec_number);
    reveal(spec_word);
    reveal(spec_frees);
}

/// ```text
/// SumtiComponent <- SumtiComponent1 Frees
/// ```
#[verifier::opaque]
pub closed spec fn spec_sumti_component(toks: Seq<Token>, pos: nat) -> Outcome
    decreases rest(toks, pos), 29nat,
{
    match spec_sumti_component_1(toks, pos) {
        Outcome::Matched(n1) => shifted(spec_frees(toks, pos + n1), n1),
        other => other,
    }
}

/// What [`spec_sumti_component`] says.
pub proof fn lemma_sumti_component(toks: Seq<Token>, pos: nat)
    ensures
        spec_sumti_component(toks, pos) == (
            match spec_sumti_component_1(toks, pos) {
                Outcome::Matched(n1) => shifted(spec_frees(toks, pos + n1), n1),
                other => other,
            }
        ),
{
    reveal(spec_sumti_component);
    reveal(spec_sumti_component_1);
    reveal(spec_frees);
}

/// ```text
/// SumtiComponent1 <- SumtiComponent1Koha / SumtiComponent1Gadri / SumtiComponent1La /
///     SumtiComponent1Lohu / SumtiComponent1Lu / SumtiComponent1Modified /
///     SumtiComponent1LerfuString / SumtiComponent1Zo / SumtiComponent1Zoi /
///     SumtiComponent1Li
/// ```
#[verifier::opaque]
pub closed spec fn spec_sumti_component_1(toks: Seq<Token>, pos: nat) -> Outcome
    decreases rest(toks, pos), 28nat,
{
    spec_alt(
        spec_alt(
            spec_alt(
                spec_alt(
                    spec_alt(
                        spec_alt(
                            spec_alt(
                                spec_alt(
                                    spec_alt(
                                        spec_sumti_component_1_koha(toks, pos),
                                        spec_sumti_component_1_gadri(toks, pos),
                                    ),
                                    spec_sumti_component_1_la(toks, pos),
                                ),
                                spec_sumti_component_1_lohu(toks, pos),
                            ),
                            spec_sumti_component_1_lu(toks, pos),
                        ),
                        spec_sumti_component_1_modified(toks, pos),
                    ),
                    spec_sumti_component_1_lerfu_string(toks, pos),
                ),
                spec_sumti_component_1_zo(toks, pos),
            ),
            spec_sumti_component_1_zoi(toks, pos),
        ),
        spec_sumti_component_1_li(toks, pos),
    )
}

/// What [`spec_sumti_component_1`] says.
pub proof fn lemma_sumti_component_1(toks: Seq<Token>, pos: nat)
    ensures
        spec_sumti_component_1(toks, pos) == (
            spec_alt(
                spec_alt(
                    spec_alt(
                        spec_alt(
                            spec_alt(
                                spec_alt(
                                    spec_alt(
                                        spec_alt(
                                            spec_alt(
                                                spec_sumti_component_1_koha(toks, pos),
                                                spec_sumti_component_1_gadri(toks, pos),
                                            ),
                                            spec_sumti_component_1_la(toks, pos),
                                        ),
                                        spec_sumti_component_1_lohu(toks, pos),
                                    ),
                                    spec_sumti_component_1_lu(toks, pos),
                                ),
                                spec_sumti_component_1_modified(toks, pos),
                            ),
                            spec_sumti_component_1_lerfu_string(toks, pos),
                        ),
                        spec_sumti_component_1_zo(toks, pos),
                    ),
                    spec_sumti_component_1_zoi(toks, pos),
                ),
                spec_sumti_component_1_li(toks, pos),
            )
        ),
{
    reveal(spec_sumti_component_1);
    reveal(spec_sumti_component_1_koha);
    reveal(spec_sumti_component_1_gadri);
    reveal(spec_sumti_component_1_la);
    reveal(spec_sumti_component_1_lohu);
    reveal(spec_sumti_component_1_lu);
    reveal(spec_sumti_component_1_modified);
    reveal(spec_sumti_component_1_lerfu_string);
    reveal(spec_sumti_component_1_zo);
    reveal(spec_sumti_component_1_zoi);
    reveal(spec_sumti_component_1_li);
}

/// ```text
/// SumtiComponent1Koha <- Koha
/// ```
#[verifier::opaque]
pub closed spec fn spec_sumti_component_1_koha(toks: Seq<Token>, pos: nat) -> Outcome
    decreases rest(toks, pos), 3nat,
{
    spec_word(toks, pos, Selmaho::Koha)
}

/// What [`spec_sumti_component_1_koha`] says.
pub proof fn lemma_sumti_component_1_koha(toks: Seq<Token>, pos: nat)
    ensures
        spec_sumti_component_1_koha(toks, pos) == (
            spec_word(toks, pos, Selmaho::Koha)
        ),
{
    reveal(spec_sumti_component_1_koha);
    reveal(spec_word);
}

/// ```text
/// SumtiComponent1Gadri <- GadriSumti
/// ```
#[verifier::opaque]
pub closed spec fn spec_sumti_component_1_gadri(toks: Seq<Token>, pos: nat) -> Outcome
    decreases rest(toks, pos), 27nat,
{
    spec_gadri_sumti(toks, pos)
}

/// What [`spec_sumti_component_1_gadri`] says.
pub proof fn lemma_sumti_component_1_gadri(toks: Seq<Token>, pos: nat)
    ensures
        spec_sumti_component_1_gadri(toks, pos) == (
            spec_gadri_sumti(toks, pos)
        ),
{
    reveal(spec_sumti_component_1_gadri);
    reveal(spec_gadri_sumti);
}

/// ```text
/// GadriSumti <- GadriWithFree GadriSumtiPre GadriSumtiContents Ku?
/// ```
#[verifier::opaque]
pub closed spec fn spec_gadri_sumti(toks: Seq<Token>, pos: nat) -> Outcome
    decreases rest(toks, pos), 26nat,
{
    match spec_gadri_with_free(toks, pos) {
        Outcome::Matched(n1) => match (if advanced(toks, pos, n1) {
            spec_gadri_sumti_pre(toks, pos + n1)
        } else {
            stuck(pos)
        }) {
            Outcome::Matched(n2) => match (if advanced(toks, pos, n1 + n2) {
                spec_gadri_sumti_contents(toks, pos + n1 + n2)
            } else {
                stuck(pos)
            }) {
                Outcome::Matched(n3) => shifted(
                    spec_opt(spec_word(toks, pos + n1 + n2 + n3, Selmaho::Ku)),
                    n1 + n2 + n3,
                ),
                other => other,
            },
            other => other,
        },
        other => other,
    }
}

/// What [`spec_gadri_sumti`] says.
pub proof fn lemma_gadri_sumti(toks: Seq<Token>, pos: nat)
    ensures
        spec_gadri_sumti(toks, pos) == (
            match spec_gadri_with_free(toks, pos) {
                Outcome::Matched(n1) => match (if advanced(toks, pos, n1) {
                    spec_gadri_sumti_pre(toks, pos + n1)
                } else {
                    stuck(pos)
                }) {
                    Outcome::Matched(n2) => match (if advanced(toks, pos, n1 + n2) {
                        spec_gadri_sumti_contents(toks, pos + n1 + n2)
                    } else {
                        stuck(pos)
                    }) {
                        Outcome::Matched(n3) => shifted(
                            spec_opt(spec_word(toks, pos + n1 + n2 + n3, Selmaho::Ku)),
                            n1 + n2 + n3,
                        ),
                        other => other,
                    },
                    other => other,
                },
                other => other,
            }
        ),
{
    reveal(spec_gadri_sumti);
    reveal(spec_gadri_with_free);
    reveal(spec_gadri_sumti_pre);
    reveal(spec_gadri_sumti_contents);
    reveal(spec_word);
}

/// ```text
/// GadriWithFree <- Gadri Frees
/// ```
#[verifier::opaque]
pub closed spec fn spec_gadri_with_free(toks: Seq<Token>, pos: nat) -> Outcome
    decreases rest(toks, pos), 25nat,
{
    match spec_gadri(toks, pos) {
        Outcome::Matched(n1) => shifted(spec_frees(toks, pos + n1), n1),
        other => other,
    }
}

/// What [`spec_gadri_with_free`] says.
pub proof fn lemma_gadri_with_free(toks: Seq<Token>, pos: nat)
    ensures
        spec_gadri_with_free(toks, pos) == (
            match spec_gadri(toks, pos) {
                Outcome::Matched(n1) => shifted(spec_frees(toks, pos + n1), n1),
                other => other,
            }
        ),
{
    reveal(spec_gadri_with_free);
    reveal(spec_gadri);
    reveal(spec_frees);
}

/// ```text
/// Gadri <- GadriLe / GadriLa
/// ```
#[verifier::opaque]
pub closed spec fn spec_gadri(toks: Seq<Token>, pos: nat) -> Outcome
    decreases rest(toks, pos), 4nat,
{
    spec_alt(spec_gadri_le(toks, pos), spec_gadri_la(toks, pos))
}

/// What [`spec_gadri`] says.
pub proof fn lemma_gadri(toks: Seq<Token>, pos: nat)
    ensures
        spec_gadri(toks, pos) == (
            spec_alt(spec_gadri_le(toks, pos), spec_gadri_la(toks, pos))
        ),
{
    reveal(spec_gadri);
    reveal(spec_gadri_le);
    reveal(spec_gadri_la);
}

/// ```text
/// GadriLe <- Le
/// ```
#[verifier::opaque]
pub closed spec fn spec_gadri_le(toks: Seq<Token>, pos: nat) -> Outcome
    decreases rest(toks, pos), 3nat,
{
    spec_word(toks, pos, Selmaho::Le)
}

/// What [`spec_gadri_le`] says.
pub proof fn lemma_gadri_le(toks: Seq<Token>, pos: nat)
    ensures
        spec_gadri_le(toks, pos) == (
            spec_word(toks, pos, Selmaho::Le)
        ),
{
    reveal(spec_gadri_le);
    reveal(spec_word);
}

/// ```text
/// GadriLa <- La
/// ```
#[verifier::opaque]
pub closed spec fn spec_gadri_la(toks: Seq<Token>, pos: nat) -> Outcome
    decreases rest(toks, pos), 3nat,
{
    spec_word(toks, pos, Selmaho::La)
}

/// What [`spec_gadri_la`] says.
pub proof fn lemma_gadri_la(toks: Seq<Token>, pos: nat)
    ensures
        spec_gadri_la(toks, pos) == (
            spec_word(toks, pos, Selmaho::La)
        ),
{
    reveal(spec_gadri_la);
    reveal(spec_word);
}

/// ```text
/// GadriSumtiPre <- GadriSumtiPreSimple / GadriSumtiPreRelative / GadriSumtiPreFullPre
/// ```
#[verifier::opaque]
pub closed spec fn spec_gadri_sumti_pre(toks: Seq<Token>, pos: nat) -> Outcome
    decreases rest(toks, pos), 46nat,
{
    spec_alt(
        spec_alt(
            spec_gadri_sumti_pre_simple(toks, pos),
            spec_gadri_sumti_pre_relative(toks, pos),
        ),
        spec_gadri_sumti_pre_full_pre(toks, pos),
    )
}

/// What [`spec_gadri_sumti_pre`] says.
pub proof fn lemma_gadri_sumti_pre(toks: Seq<Token>, pos: nat)
    ensures
        spec_gadri_sumti_pre(toks, pos) == (
            spec_alt(
                spec_alt(
                    spec_gadri_sumti_pre_simple(toks, pos),
                    spec_gadri_sumti_pre_relative(toks, pos),
                ),
                spec_gadri_sumti_pre_full_pre(toks, pos),
            )
        ),
{
    reveal(spec_gadri_sumti_pre);
    reveal(spec_gadri_sumti_pre_simple);
    reveal(spec_gadri_sumti_pre_relative);
    reveal(spec_gadri_sumti_pre_full_pre);
}

/// ```text
/// GadriSumtiPreSimple <- SumtiComponent? RelativeClauses?
/// ```
#[verifier::opaque]
pub closed spec fn spec_gadri_sumti_pre_simple(toks: Seq<Token>, pos: nat) -> Outcome
    decreases rest(toks, pos), 30nat,
{
    match spec_opt(spec_sumti_component(toks, pos)) {
        Outcome::Matched(n1) => shifted(spec_opt(spec_relative_clauses(toks, pos + n1)), n1),
        other => other,
    }
}

/// What [`spec_gadri_sumti_pre_simple`] says.
pub proof fn lemma_gadri_sumti_pre_simple(toks: Seq<Token>, pos: nat)
    ensures
        spec_gadri_sumti_pre_simple(toks, pos) == (
            match spec_opt(spec_sumti_component(toks, pos)) {
                Outcome::Matched(n1) => shifted(
                    spec_opt(spec_relative_clauses(toks, pos + n1)),
                    n1,
                ),
                other => other,
            }
        ),
{
    reveal(spec_gadri_sumti_pre_simple);
    reveal(spec_sumti_component);
    reveal(spec_relative_clauses);
}

/// ```text
/// RelativeClauses <- RelativeClauseList
/// ```
#[verifier::opaque]
pub closed spec fn spec_relative_clauses(toks: Seq<Token>, pos: nat) -> Outcome
    decreases rest(toks, pos), 10nat,
{
    spec_relative_clause_list(toks, pos)
}

/// What [`spec_relative_clauses`] says.
pub proof fn lemma_relative_clauses(toks: Seq<Token>, pos: nat)
    ensures
        spec_relative_clauses(toks, pos) == (
            spec_relative_clause_list(toks, pos)
        ),
{
    reveal(spec_relative_clauses);
    reveal(spec_relative_clause_list);
}

/// ```text
/// RelativeClauseList <- RelativeClause RelativeClauseListNext*
/// ```
#[verifier::opaque]
pub closed spec fn spec_relative_clause_list(toks: Seq<Token>, pos: nat) -> Outcome
    decreases rest(toks, pos), 9nat,
{
    match spec_relative_clause(toks, pos) {
        Outcome::Matched(n1) => shifted(spec_many0_relative_clause_list_next(toks, pos + n1), n1),
        other => other,
    }
}

/// What [`spec_relative_clause_list`] says.
pub proof fn lemma_relative_clause_list(toks: Seq<Token>, pos: nat)
    ensures
        spec_relative_clause_list(toks, pos) == (
            match spec_relative_clause(toks, pos) {
                Outcome::Matched(n1) => shifted(
                    spec_many0_relative_clause_list_next(toks, pos + n1),
                    n1,
                ),
                other => other,
            }
        ),
{
    reveal(spec_relative_clause_list);
    reveal(spec_relative_clause);
    reveal(spec_many0_relative_clause_list_next);
}

/// ```text
/// RelativeClause <- RelativeClauseGoi / RelativeClauseNoi
/// ```
#[verifier::opaque]
pub closed spec fn spec_relative_clause(toks: Seq<Token>, pos: nat) -> Outcome
    decreases rest(toks, pos), 6nat,
{
    spec_alt(
        spec_relative_clause_goi(toks, pos),
        spec_relative_clause_noi(toks, pos),
    )
}

/// What [`spec_relative_clause`] says.
pub proof fn lemma_relative_clause(toks: Seq<Token>, pos: nat)
    ensures
        spec_relative_clause(toks, pos) == (
            spec_alt(
                spec_relative_clause_goi(toks, pos),
                spec_relative_clause_noi(toks, pos),
            )
        ),
{
    reveal(spec_relative_clause);
    reveal(spec_relative_clause_goi);
    reveal(spec_relative_clause_noi);
}

/// ```text
/// RelativeClauseGoi <- GoiRelativeClause
/// ```
#[verifier::opaque]
pub closed spec fn spec_relative_clause_goi(toks: Seq<Token>, pos: nat) -> Outcome
    decreases rest(toks, pos), 5nat,
{
    spec_goi_relative_clause(toks, pos)
}

/// What [`spec_relative_clause_goi`] says.
pub proof fn lemma_relative_clause_goi(toks: Seq<Token>, pos: nat)
    ensures
        spec_relative_clause_goi(toks, pos) == (
            spec_goi_relative_clause(toks, pos)
        ),
{
    reveal(spec_relative_clause_goi);
    reveal(spec_goi_relative_clause);
}

/// ```text
/// GoiRelativeClause <- Goi Frees Arg Gehu? Frees
/// ```
#[verifier::opaque]
pub closed spec fn spec_goi_relative_clause(toks: Seq<Token>, pos: nat) -> Outcome
    decreases rest(toks, pos), 4nat,
{
    match spec_word_with_free(toks, pos, Selmaho::Goi) {
        Outcome::Matched(n1) => match (if advanced(toks, pos, n1) {
            spec_arg(toks, pos + n1)
        } else {
            stuck(pos)
        }) {
            Outcome::Matched(n2) => match spec_opt(
                spec_word(toks, pos + n1 + n2, Selmaho::Gehu),
            ) {
                Outcome::Matched(n3) => shifted(
                    if advanced(toks, pos, n1 + n2 + n3) {
                        spec_frees(toks, pos + n1 + n2 + n3)
                    } else {
                        stuck(pos)
                    },
                    n1 + n2 + n3,
                ),
                other => other,
            },
            other => other,
        },
        other => other,
    }
}

/// What [`spec_goi_relative_clause`] says.
pub proof fn lemma_goi_relative_clause(toks: Seq<Token>, pos: nat)
    ensures
        spec_goi_relative_clause(toks, pos) == (
            match spec_word_with_free(toks, pos, Selmaho::Goi) {
                Outcome::Matched(n1) => match (if advanced(toks, pos, n1) {
                    spec_arg(toks, pos + n1)
                } else {
                    stuck(pos)
                }) {
                    Outcome::Matched(n2) => match spec_opt(
                        spec_word(toks, pos + n1 + n2, Selmaho::Gehu),
                    ) {
                        Outcome::Matched(n3) => shifted(
                            if advanced(toks, pos, n1 + n2 + n3) {
                                spec_frees(toks, pos + n1 + n2 + n3)
                            } else {
                                stuck(pos)
                            },
                            n1 + n2 + n3,
                        ),
                        other => other,
                    },
                    other => other,
                },
                other => other,
            }
        ),
{
    reveal(spec_goi_relative_clause);
    reveal(spec_word_with_free);
    reveal(spec_arg);
    reveal(spec_word);
    reveal(spec_frees);
}

/// ```text
/// RelativeClauseNoi <- NoiRelativeClause
/// ```
#[verifier::opaque]
pub closed spec fn spec_relative_clause_noi(toks: Seq<Token>, pos: nat) -> Outcome
    decreases rest(toks, pos), 5nat,
{
    spec_noi_relative_clause(toks, pos)
}

/// What [`spec_relative_clause_noi`] says.
pub proof fn lemma_relative_clause_noi(toks: Seq<Token>, pos: nat)
    ensures
        spec_relative_clause_noi(toks, pos) == (
            spec_noi_relative_clause(toks, pos)
        ),
{
    reveal(spec_relative_clause_noi);
    reveal(spec_noi_relative_clause);
}

/// ```text
/// NoiRelativeClause <- Noi Frees Subsentence Kuho? Frees
/// ```
#[verifier::opaque]
pub closed spec fn spec_noi_relative_clause(toks: Seq<Token>, pos: nat) -> Outcome
    decreases rest(toks, pos), 4nat,
{
    match spec_word_with_free(toks, pos, Selmaho::Noi) {
        Outcome::Matched(n1) => match (if advanced(toks, pos, n1) {
            spec_subsentence(toks, pos + n1)
        } else {
            stuck(pos)
        }) {
            Outcome::Matched(n2) => match spec_opt(
                spec_word(toks, pos + n1 + n2, Selmaho::Kuho),
            ) {
                Outcome::Matched(n3) => shifted(
                    if advanced(toks, pos, n1 + n2 + n3) {
                        spec_frees(toks, pos + n1 + n2 + n3)
                    } else {
                        stuck(pos)
                    },
                    n1 + n2 + n3,
                ),
                other => other,
            },
            other => other,
        },
        other => other,
    }
}

/// What [`spec_noi_relative_clause`] says.
pub proof fn lemma_noi_relative_clause(toks: Seq<Token>, pos: nat)
    ensures
        spec_noi_relative_clause(toks, pos) == (
            match spec_word_with_free(toks, pos, Selmaho::Noi) {
                Outcome::Matched(n1) => match (if advanced(toks, pos, n1) {
                    spec_subsentence(toks, pos + n1)
                } else {
                    stuck(pos)
                }) {
                    Outcome::Matched(n2) => match spec_opt(
                        spec_word(toks, pos + n1 + n2, Selmaho::Kuho),
                    ) {
                        Outcome::Matched(n3) => shifted(
                            if advanced(toks, pos, n1 + n2 + n3) {
                                spec_frees(toks, pos + n1 + n2 + n3)
                            } else {
                                stuck(pos)
                            },
                            n1 + n2 + n3,
                        ),
                        other => other,
                    },
                    other => other,
                },
                other => other,
            }
        ),
{
    reveal(spec_noi_relative_clause);
    reveal(spec_word_with_free);
    reveal(spec_subsentence);
    reveal(spec_word);
    reveal(spec_frees);
}

/// ```text
/// Subsentence <- Prenex* Args SentenceTail
/// ```
#[verifier::opaque]
pub closed spec fn spec_subsentence(toks: Seq<Token>, pos: nat) -> Outcome
    decreases rest(toks, pos), 101nat,
{
    match spec_many0_prenex(toks, pos) {
        Outcome::Matched(n1) => match spec_args(toks, pos + n1) {
            Outcome::Matched(n2) => shifted(spec_sentence_tail(toks, pos + n1 + n2), n1 + n2),
            other => other,
        },
        other => other,
    }
}

/// What [`spec_subsentence`] says.
pub proof fn lemma_subsentence(toks: Seq<Token>, pos: nat)
    ensures
        spec_subsentence(toks, pos) == (
            match spec_many0_prenex(toks, pos) {
                Outcome::Matched(n1) => match spec_args(toks, pos + n1) {
                    Outcome::Matched(n2) => shifted(
                        spec_sentence_tail(toks, pos + n1 + n2),
                        n1 + n2,
                    ),
                    other => other,
                },
                other => other,
            }
        ),
{
    reveal(spec_subsentence);
    reveal(spec_many0_prenex);
    reveal(spec_args);
    reveal(spec_sentence_tail);
}

/// ```text
/// Prenex <- Args Zohu Frees
/// ```
#[verifier::opaque]
pub closed spec fn spec_prenex(toks: Seq<Token>, pos: nat) -> Outcome
    decreases rest(toks, pos), 62nat,
{
    match spec_args(toks, pos) {
        Outcome::Matched(n1) => match spec_word(toks, pos + n1, Selmaho::Zohu) {
            Outcome::Matched(n2) => shifted(spec_frees(toks, pos + n1 + n2), n1 + n2),
            other => other,
        },
        other => other,
    }
}

/// What [`spec_prenex`] says.
pub proof fn lemma_prenex(toks: Seq<Token>, pos: nat)
    ensures
        spec_prenex(toks, pos) == (
            match spec_args(toks, pos) {
                Outcome::Matched(n1) => match spec_word(toks, pos + n1, Selmaho::Zohu) {
                    Outcome::Matched(n2) => shifted(spec_frees(toks, pos + n1 + n2), n1 + n2),
                    other => other,
                },
                other => other,
            }
        ),
{
    reveal(spec_prenex);
    reveal(spec_args);
    reveal(spec_word);
    reveal(spec_frees);
}

/// As many `Prenex` as match in a row. It is an error if one of them
/// matches without taking a token.
#[verifier::opaque]
pub closed spec fn spec_many0_prenex(toks: Seq<Token>, pos: nat) -> Outcome
    decreases rest(toks, pos), 63nat,
{
    match spec_prenex(toks, pos) {
        Outcome::Matched(len) => if advanced(toks, pos, len) {
            shifted(spec_many0_prenex(toks, pos + len), len)
        } else {
            Outcome::Error(combinator_at(pos, ErrorKind::Many0))
        },
        Outcome::Error(_) => Outcome::Matched(0),
        Outcome::Failure(report) => Outcome::Failure(report),
    }
}

/// What [`spec_many0_prenex`] says.
pub proof fn lemma_many0_prenex(toks: Seq<Token>, pos: nat)
    ensures
        spec_many0_prenex(toks, pos) == (match spec_prenex(toks, pos) {
            Outcome::Matched(len) => if advanced(toks, pos, len) {
                shifted(spec_many0_prenex(toks, pos + len), len)
            } else {
                Outcome::Error(combinator_at(pos, ErrorKind::Many0))
            },
            Outcome::Error(_) => Outcome::Matched(0),
            Outcome::Failure(report) => Outcome::Failure(report),
        }),
{
    reveal(spec_many0_prenex);
    reveal(spec_prenex);
}

/// ```text
/// SentenceTail <- Cu? Frees SentenceTail1
/// ```
#[verifier::opaque]
pub closed spec fn spec_sentence_tail(toks: Seq<Token>, pos: nat) -> Outcome
    decreases rest(toks, pos), 100nat,
{
    match spec_opt(spec_word(toks, pos, Selmaho::Cu)) {
        Outcome::Matched(n1) => match spec_frees(toks, pos + n1) {
            Outcome::Matched(n2) => shifted(spec_sentence_tail_1(toks, pos + n1 + n2), n1 + n2),
            other => other,
        },
        other => other,
    }
}

/// What [`spec_sentence_tail`] says.
pub proof fn lemma_sentence_tail(toks: Seq<Token>, pos: nat)
    ensures
        spec_sentence_tail(toks, pos) == (
            match spec_opt(spec_word(toks, pos, Selmaho::Cu)) {
                Outcome::Matched(n1) => match spec_frees(toks, pos + n1) {
                    Outcome::Matched(n2) => shifted(
                        spec_sentence_tail_1(toks, pos + n1 + n2),
                        n1 + n2,
                    ),
                    other => other,
                },
                other => other,
            }
        ),
{
    reveal(spec_sentence_tail);
    reveal(spec_word);
    reveal(spec_frees);
    reveal(spec_sentence_tail_1);
}

/// ```text
/// SentenceTail1 <- SentenceTail2 SentenceTail1After?
/// ```
#[verifier::opaque]
pub closed spec fn spec_sentence_tail_1(toks: Seq<Token>, pos: nat) -> Outcome
    decreases rest(toks, pos), 99nat,
{
    match spec_sentence_tail_2(toks, pos) {
        Outcome::Matched(n1) => shifted(spec_opt(spec_sentence_tail_1_after(toks, pos + n1)), n1),
        other => other,
    }
}

/// What [`spec_sentence_tail_1`] says.
pub proof fn lemma_sentence_tail_1(toks: Seq<Token>, pos: nat)
    ensures
        spec_sentence_tail_1(toks, pos) == (
            match spec_sentence_tail_2(toks, pos) {
                Outcome::Matched(n1) => shifted(
                    spec_opt(spec_sentence_tail_1_after(toks, pos + n1)),
                    n1,
                ),
                other => other,
            }
        ),
{
    reveal(spec_sentence_tail_1);
    reveal(spec_sentence_tail_2);
    reveal(spec_sentence_tail_1_after);
}

/// ```text
/// SentenceTail2 <- SentenceTail3 SentenceTail2After?
/// ```
#[verifier::opaque]
pub closed spec fn spec_sentence_tail_2(toks: Seq<Token>, pos: nat) -> Outcome
    decreases rest(toks, pos), 98nat,
{
    match spec_sentence_tail_3(toks, pos) {
        Outcome::Matched(n1) => shifted(spec_opt(spec_sentence_tail_2_after(toks, pos + n1)), n1),
        other => other,
    }
}

/// What [`spec_sentence_tail_2`] says.
pub proof fn lemma_sentence_tail_2(toks: Seq<Token>, pos: nat)
    ensures
        spec_sentence_tail_2(toks, pos) == (
            match spec_sentence_tail_3(toks, pos) {
                Outcome::Matched(n1) => shifted(
                    spec_opt(spec_sentence_tail_2_after(toks, pos + n1)),
                    n1,
                ),
                other => other,
            }
        ),
{
    reveal(spec_sentence_tail_2);
    reveal(spec_sentence_tail_3);
    reveal(spec_sentence_tail_2_after);
}

/// ```text
/// SentenceTail3 <- SentenceTail4 SentenceTail3After?
/// ```
#[verifier::opaque]
pub closed spec fn spec_sentence_tail_3(toks: Seq<Token>, pos: nat) -> Outcome
    decreases rest(toks, pos), 94nat,
{
    match spec_sentence_tail_4(toks, pos) {
        Outcome::Matched(n1) => shifted(spec_opt(spec_sentence_tail_3_after(toks, pos + n1)), n1),
        other => other,
    }
}

/// What [`spec_sentence_tail_3`] says.
pub proof fn lemma_sentence_tail_3(toks: Seq<Token>, pos: nat)
    ensures
        spec_sentence_tail_3(toks, pos) == (
            match spec_sentence_tail_4(toks, pos) {
                Outcome::Matched(n1) => shifted(
                    spec_opt(spec_sentence_tail_3_after(toks, pos + n1)),
                    n1,
                ),
                other => other,
            }
        ),
{
    reveal(spec_sentence_tail_3);
    reveal(spec_sentence_tail_4);
    reveal(spec_sentence_tail_3_after);
}

/// ```text
/// SentenceTail4 <- SentenceTail4Single / SentenceTail4Parenthesized /
///     SentenceTail4Connected
/// ```
#[verifier::opaque]
pub closed spec fn spec_sentence_tail_4(toks: Seq<Token>, pos: nat) -> Outcome
    decreases rest(toks, pos), 90nat,
{
    spec_alt(
        spec_alt(
            spec_sentence_tail_4_single(toks, pos),
            spec_sentence_tail_4_parenthesized(toks, pos),
        ),
        spec_sentence_tail_4_connected(toks, pos),
    )
}

/// What [`spec_sentence_tail_4`] says.
pub proof fn lemma_sentence_tail_4(toks: Seq<Token>, pos: nat)
    ensures
        spec_sentence_tail_4(toks, pos) == (
            spec_alt(
                spec_alt(
                    spec_sentence_tail_4_single(toks, pos),
                    spec_sentence_tail_4_parenthesized(toks, pos),
                ),
                spec_sentence_tail_4_connected(toks, pos),
            )
        ),
{
    reveal(spec_sentence_tail_4);
    reveal(spec_sentence_tail_4_single);
    reveal(spec_sentence_tail_4_parenthesized);
    reveal(spec_sentence_tail_4_connected);
}

/// ```text
/// SentenceTail4Single <- Selbri TailArgs
/// ```
#[verifier::opaque]
pub closed spec fn spec_sentence_tail_4_single(toks: Seq<Token>, pos: nat) -> Outcome
    decreases rest(toks, pos), 89nat,
{
    match spec_selbri(toks, pos) {
        Outcome::Matched(n1) => shifted(spec_tail_args(toks, pos + n1), n1),
        other => other,
    }
}

/// What [`spec_sentence_tail_4_single`] says.
pub proof fn lemma_sentence_tail_4_single(toks: Seq<Token>, pos: nat)
    ensures
        spec_sentence_tail_4_single(toks, pos) == (
            match spec_selbri(toks, pos) {
                Outcome::Matched(n1) => shifted(spec_tail_args(toks, pos + n1), n1),
                other => other,
            }
        ),
{
    reveal(spec_sentence_tail_4_single);
    reveal(spec_selbri);
    reveal(spec_tail_args);
}

/// ```text
/// TailArgs <- Args Vau? Frees
/// ```
#[verifier::opaque]
pub closed spec fn spec_tail_args(toks: Seq<Token>, pos: nat) -> Outcome
    decreases rest(toks, pos), 62nat,
{
    match spec_args(toks, pos) {
        Outcome::Matched(n1) => match spec_opt(spec_word(toks, pos + n1, Selmaho::Vau)) {
            Outcome::Matched(n2) => shifted(spec_frees(toks, pos + n1 + n2), n1 + n2),
            other => other,
        },
        other => other,
    }
}

/// What [`spec_tail_args`] says.
pub proof fn lemma_tail_args(toks: Seq<Token>, pos: nat)
    ensures
        spec_tail_args(toks, pos) == (
            match spec_args(toks, pos) {
                Outcome::Matched(n1) => match spec_opt(spec_word(toks, pos + n1, Selmaho::Vau)) {
                    Outcome::Matched(n2) => shifted(spec_frees(toks, pos + n1 + n2), n1 + n2),
                    other => other,
                },
                other => other,
            }
        ),
{
    reveal(spec_tail_args);
    reveal(spec_args);
    reveal(spec_word);
    reveal(spec_frees);
}

/// ```text
/// SentenceTail4Parenthesized <- Na Frees* TagWords? Ke Frees GekSentence Kehe? Frees
/// ```
#[verifier::opaque]
pub closed spec fn spec_sentence_tail_4_parenthesized(toks: Seq<Token>, pos: nat) -> Outcome
    decreases rest(toks, pos), 64nat,
{
    match spec_many0_word_with_free(toks, pos, Selmaho::Na) {
        Outcome::Matched(n1) => match spec_opt(spec_tag_words(toks, pos + n1)) {
            Outcome::Matched(n2) => match spec_word_with_free(toks, pos + n1 + n2, Selmaho::Ke) {
                Outcome::Matched(n3) => match spec_gek_sentence(toks, pos + n1 + n2 + n3) {
                    Outcome::Matched(n4) => match spec_opt(
                        spec_word(toks, pos + n1 + n2 + n3 + n4, Selmaho::Kehe),
                    ) {
                        Outcome::Matched(n5) => shifted(
                            spec_frees(toks, pos + n1 + n2 + n3 + n4 + n5),
                            n1 + n2 + n3 + n4 + n5,
                        ),
                        other => other,
                    },
                    other => other,
                },
                other => other,
            },
            other => other,
        },
        other => other,
    }
}

/// What [`spec_sentence_tail_4_parenthesized`] says.
pub proof fn lemma_sentence_tail_4_parenthesized(toks: Seq<Token>, pos: nat)
    ensures
        spec_sentence_tail_4_parenthesized(toks, pos) == (
            match spec_many0_word_with_free(toks, pos, Selmaho::Na) {
                Outcome::Matched(n1) => match spec_opt(spec_tag_words(toks, pos + n1)) {
                    Outcome::Matched(n2) => match spec_word_with_free(
                        toks,
                        pos + n1 + n2,
                        Selmaho::Ke,
                    ) {
                        Outcome::Matched(n3) => match spec_gek_sentence(
                            toks,
                            pos + n1 + n2 + n3,
                        ) {
                            Outcome::Matched(n4) => match spec_opt(
                                spec_word(toks, pos + n1 + n2 + n3 + n4, Selmaho::Kehe),
                            ) {
                                Outcome::Matched(n5) => shifted(
                                    spec_frees(toks, pos + n1 + n2 + n3 + n4 + n5),
                                    n1 + n2 + n3 + n4 + n5,
                                ),
                                other => other,
                            },
                            other => other,
                        },
                        other => other,
                    },
                    other => other,
                },
                other => other,
            }
        ),
{
    reveal(spec_sentence_tail_4_parenthesized);
    reveal(spec_many0_word_with_free);
    reveal(spec_tag_words);
    reveal(spec_word_with_free);
    reveal(spec_gek_sentence);
    reveal(spec_word);
    reveal(spec_frees);
}

/// ```text
/// GekSentence <- Na Frees* Gek Subsentence Gik Subsentence TailArgs
/// ```
#[verifier::opaque]
pub closed spec fn spec_gek_sentence(toks: Seq<Token>, pos: nat) -> Outcome
    decreases rest(toks, pos), 63nat,
{
    match spec_many0_word_with_free(toks, pos, Selmaho::Na) {
        Outcome::Matched(n1) => match spec_gek(toks, pos + n1) {
            Outcome::Matched(n2) => match (if advanced(toks, pos, n1 + n2) {
                spec_subsentence(toks, pos + n1 + n2)
            } else {
                stuck(pos)
            }) {
                Outcome::Matched(n3) => match spec_gik(toks, pos + n1 + n2 + n3) {
                    Outcome::Matched(n4) => match (if advanced(toks, pos, n1 + n2 + n3 + n4) {
                        spec_subsentence(toks, pos + n1 + n2 + n3 + n4)
                    } else {
                        stuck(pos)
                    }) {
                        Outcome::Matched(n5) => shifted(
                            spec_tail_args(toks, pos + n1 + n2 + n3 + n4 + n5),
                            n1 + n2 + n3 + n4 + n5,
                        ),
                        other => other,
                    },
                    other => other,
                },
                other => other,
            },
            other => other,
        },
        other => other,
    }
}

/// What [`spec_gek_sentence`] says.
pub proof fn lemma_gek_sentence(toks: Seq<Token>, pos: nat)
    ensures
        spec_gek_sentence(toks, pos) == (
            match spec_many0_word_with_free(toks, pos, Selmaho::Na) {
                Outcome::Matched(n1) => match spec_gek(toks, pos + n1) {
                    Outcome::Matched(n2) => match (if advanced(toks, pos, n1 + n2) {
                        spec_subsentence(toks, pos + n1 + n2)
                    } else {
                        stuck(pos)
                    }) {
                        Outcome::Matched(n3) => match spec_gik(toks, pos + n1 + n2 + n3) {
                            Outcome::Matched(n4) => match (if advanced(
                                toks,
                                pos,
                                n1 + n2 + n3 + n4,
                            ) {
                                spec_subsentence(toks, pos + n1 + n2 + n3 + n4)
                            } else {
                                stuck(pos)
                            }) {
                                Outcome::Matched(n5) => shifted(
                                    spec_tail_args(toks, pos + n1 + n2 + n3 + n4 + n5),
                                    n1 + n2 + n3 + n4 + n5,
                                ),
                                other => other,
                            },
                            other => other,
                        },
                        other => other,
                    },
                    other => other,
                },
                other => other,
            }
        ),
{
    reveal(spec_gek_sentence);
    reveal(spec_many0_word_with_free);
    reveal(spec_gek);
    reveal(spec_subsentence);
    reveal(spec_gik);
    reveal(spec_tail_args);
}

/// ```text
/// SentenceTail4Connected <- GekSentence
/// ```
#[verifier::opaque]
pub closed spec fn spec_sentence_tail_4_connected(toks: Seq<Token>, pos: nat) -> Outcome
    decreases rest(toks, pos), 64nat,
{
    spec_gek_sentence(toks, pos)
}

/// What [`spec_sentence_tail_4_connected`] says.
pub proof fn lemma_sentence_tail_4_connected(toks: Seq<Token>, pos: nat)
    ensures
        spec_sentence_tail_4_connected(toks, pos) == (
            spec_gek_sentence(toks, pos)
        ),
{
    reveal(spec_sentence_tail_4_connected);
    reveal(spec_gek_sentence);
}

/// ```text
/// SentenceTail3After <- SentenceTail3Next+ TailArgs
/// ```
#[verifier::opaque]
pub closed spec fn spec_sentence_tail_3_after(toks: Seq<Token>, pos: nat) -> Outcome
    decreases rest(toks, pos), 93nat,
{
    match spec_many1_sentence_tail_3_next(toks, pos) {
        Outcome::Matched(n1) => shifted(spec_tail_args(toks, pos + n1), n1),
        other => other,
    }
}

/// What [`spec_sentence_tail_3_after`] says.
pub proof fn lemma_sentence_tail_3_after(toks: Seq<Token>, pos: nat)
    ensures
        spec_sentence_tail_3_after(toks, pos) == (
            match spec_many1_sentence_tail_3_next(toks, pos) {
                Outcome::Matched(n1) => shifted(spec_tail_args(toks, pos + n1), n1),
                other => other,
            }
        ),
{
    reveal(spec_sentence_tail_3_after);
    reveal(spec_many1_sentence_tail_3_next);
    reveal(spec_tail_args);
}

/// ```text
/// SentenceTail3Next <- SentenceTail3Connective SentenceTail4
/// ```
#[verifier::opaque]
pub closed spec fn spec_sentence_tail_3_next(toks: Seq<Token>, pos: nat) -> Outcome
    decreases rest(toks, pos), 91nat,
{
    match spec_sentence_tail_3_connective(toks, pos) {
        Outcome::Matched(n1) => shifted(spec_sentence_tail_4(toks, pos + n1), n1),
        other => other,
    }
}

/// What [`spec_sentence_tail_3_next`] says.
pub proof fn lemma_sentence_tail_3_next(toks: Seq<Token>, pos: nat)
    ensures
        spec_sentence_tail_3_next(toks, pos) == (
            match spec_sentence_tail_3_connective(toks, pos) {
                Outcome::Matched(n1) => shifted(spec_sentence_tail_4(toks, pos + n1), n1),
                other => other,
            }
        ),
{
    reveal(spec_sentence_tail_3_next);
    reveal(spec_sentence_tail_3_connective);
    reveal(spec_sentence_tail_4);
}

/// One `SentenceTail3Next` or more in a row. It is an error if one of them matches
/// without taking a token.
#[verifier::opaque]
pub closed spec fn spec_many1_sentence_tail_3_next(toks: Seq<Token>, pos: nat) -> Outcome
    decreases rest(toks, pos), 92nat,
{
    match spec_sentence_tail_3_next(toks, pos) {
        Outcome::Matched(len) => if advanced(toks, pos, len) {
            shifted(spec_many1_sentence_tail_3_next_more(toks, pos + len), len)
        } else {
            Outcome::Error(combinator_at(pos, ErrorKind::Many1))
        },
        other => other,
    }
}

/// What follows the first `SentenceTail3Next` of a row of them.
#[verifier::opaque]
pub closed spec fn spec_many1_sentence_tail_3_next_more(toks: Seq<Token>, pos: nat) -> Outcome
    decreases rest(toks, pos), 92nat,
{
    match spec_sentence_tail_3_next(toks, pos) {
        Outcome::Matched(len) => if advanced(toks, pos, len) {
            shifted(spec_many1_sentence_tail_3_next_more(toks, pos + len), len)
        } else {
            Outcome::Error(combinator_at(pos, ErrorKind::Many1))
        },
        Outcome::Error(_) => Outcome::Matched(0),
        Outcome::Failure(report) => Outcome::Failure(report),
    }
}

/// What [`spec_many1_sentence_tail_3_next`] and [`spec_many1_sentence_tail_3_next_more`] say.
pub proof fn lemma_many1_sentence_tail_3_next(toks: Seq<Token>, pos: nat)
    ensures
        spec_many1_sentence_tail_3_next(
            toks,
            pos,
        ) == (match spec_sentence_tail_3_next(toks, pos) {
            Outcome::Matched(len) => if advanced(toks, pos, len) {
                shifted(spec_many1_sentence_tail_3_next_more(toks, pos + len), len)
            } else {
                Outcome::Error(combinator_at(pos, ErrorKind::Many1))
            },
            other => other,
        }),
        spec_many1_sentence_tail_3_next_more(
            toks,
            pos,
        ) == (match spec_sentence_tail_3_next(toks, pos) {
            Outcome::Matched(len) => if advanced(toks, pos, len) {
                shifted(spec_many1_sentence_tail_3_next_more(toks, pos + len), len)
            } else {
                Outcome::Error(combinator_at(pos, ErrorKind::Many1))
            },
            Outcome::Error(_) => Outcome::Matched(0),
            Outcome::Failure(report) => Outcome::Failure(report),
        }),
{
    reveal(spec_many1_sentence_tail_3_next);
    reveal(spec_many1_sentence_tail_3_next_more);
    reveal(spec_sentence_tail_3_next);
}

/// ```text
/// SentenceTail3Connective <- Gihek TagWords? Bo Frees
/// ```
#[verifier::opaque]
pub closed spec fn spec_sentence_tail_3_connective(toks: Seq<Token>, pos: nat) -> Outcome
    decreases rest(toks, pos), 32nat,
{
    match spec_gihek(toks, pos) {
        Outcome::Matched(n1) => match spec_opt(spec_tag_words(toks, pos + n1)) {
            Outcome::Matched(n2) => match spec_word(toks, pos + n1 + n2, Selmaho::Bo) {
                Outcome::Matched(n3) => shifted(
                    spec_frees(toks, pos + n1 + n2 + n3),
                    n1 + n2 + n3,
                ),
                other => other,
            },
            other => other,
        },
        other => other,
    }
}

/// What [`spec_sentence_tail_3_connective`] says.
pub proof fn lemma_sentence_tail_3_connective(toks: Seq<Token>, pos: nat)
    ensures
        spec_sentence_tail_3_connective(toks, pos) == (
            match spec_gihek(toks, pos) {
                Outcome::Matched(n1) => match spec_opt(spec_tag_words(toks, pos + n1)) {
                    Outcome::Matched(n2) => match spec_word(toks, pos + n1 + n2, Selmaho::Bo) {
                        Outcome::Matched(n3) => shifted(
                            spec_frees(toks, pos + n1 + n2 + n3),
                            n1 + n2 + n3,
                        ),
                        other => other,
                    },
                    other => other,
                },
                other => other,
            }
        ),
{
    reveal(spec_sentence_tail_3_connective);
    reveal(spec_gihek);
    reveal(spec_tag_words);
    reveal(spec_word);
    reveal(spec_frees);
}

/// ```text
/// Gihek <- NaSeTNaiGiha
/// ```
#[verifier::opaque]
pub closed spec fn spec_gihek(toks: Seq<Token>, pos: nat) -> Outcome
    decreases rest(toks, pos), 4nat,
{
    spec_na_se_tnai_giha(toks, pos)
}

/// What [`spec_gihek`] says.
pub proof fn lemma_gihek(toks: Seq<Token>, pos: nat)
    ensures
        spec_gihek(toks, pos) == (
            spec_na_se_tnai_giha(toks, pos)
        ),
{
    reveal(spec_gihek);
    reveal(spec_na_se_tnai_giha);
}

/// ```text
/// NaSeTNaiGiha <- Na? Se? Giha Nai?
/// ```
#[verifier::opaque]
pub closed spec fn spec_na_se_tnai_giha(toks: Seq<Token>, pos: nat) -> Outcome
    decreases rest(toks, pos), 3nat,
{
    match spec_opt(spec_word(toks, pos, Selmaho::Na)) {
        Outcome::Matched(n1) => match spec_opt(spec_word(toks, pos + n1, Selmaho::Se)) {
            Outcome::Matched(n2) => match spec_word(toks, pos + n1 + n2, Selmaho::Giha) {
                Outcome::Matched(n3) => shifted(
                    spec_opt(spec_word(toks, pos + n1 + n2 + n3, Selmaho::Nai)),
                    n1 + n2 + n3,
                ),
                other => other,
            },
            other => other,
        },
        other => other,
    }
}

/// What [`spec_na_se_tnai_giha`] says.
pub proof fn lemma_na_se_tnai_giha(toks: Seq<Token>, pos: nat)
    ensures
        spec_na_se_tnai_giha(toks, pos) == (
            match spec_opt(spec_word(toks, pos, Selmaho::Na)) {
                Outcome::Matched(n1) => match spec_opt(spec_word(toks, pos + n1, Selmaho::Se)) {
                    Outcome::Matched(n2) => match spec_word(toks, pos + n1 + n2, Selmaho::Giha) {
                        Outcome::Matched(n3) => shifted(
                            spec_opt(spec_word(toks, pos + n1 + n2 + n3, Selmaho::Nai)),
                            n1 + n2 + n3,
                        ),
                        other => other,
                    },
                    other => other,
                },
                other => other,
            }
        ),
{
    reveal(spec_na_se_tnai_giha);
    reveal(spec_word);
}

/// ```text
/// SentenceTail2After <- SentenceTail2Next+ TailArgs
/// ```
#[verifier::opaque]
pub closed spec fn spec_sentence_tail_2_after(toks: Seq<Token>, pos: nat) -> Outcome
    decreases rest(toks, pos), 97nat,
{
    match spec_many1_sentence_tail_2_next(toks, pos) {
        Outcome::Matched(n1) => shifted(spec_tail_args(toks, pos + n1), n1),
        other => other,
    }
}

/// What [`spec_sentence_tail_2_after`] says.
pub proof fn lemma_sentence_tail_2_after(toks: Seq<Token>, pos: nat)
    ensures
        spec_sentence_tail_2_after(toks, pos) == (
            match spec_many1_sentence_tail_2_next(toks, pos) {
                Outcome::Matched(n1) => shifted(spec_tail_args(toks, pos + n1), n1),
                other => other,
            }
        ),
{
    reveal(spec_sentence_tail_2_after);
    reveal(spec_many1_sentence_tail_2_next);
    reveal(spec_tail_args);
}

/// ```text
/// SentenceTail2Next <- SentenceTail2Connective SentenceTail3
/// ```
#[verifier::opaque]
pub closed spec fn spec_sentence_tail_2_next(toks: Seq<Token>, pos: nat) -> Outcome
    decreases rest(toks, pos), 95nat,
{
    match spec_sentence_tail_2_connective(toks, pos) {
        Outcome::Matched(n1) => shifted(spec_sentence_tail_3(toks, pos + n1), n1),
        other => other,
    }
}

/// What [`spec_sentence_tail_2_next`] says.
pub proof fn lemma_sentence_tail_2_next(toks: Seq<Token>, pos: nat)
    ensures
        spec_sentence_tail_2_next(toks, pos) == (
            match spec_sentence_tail_2_connective(toks, pos) {
                Outcome::Matched(n1) => shifted(spec_sentence_tail_3(toks, pos + n1), n1),
                other => other,
            }
        ),
{
    reveal(spec_sentence_tail_2_next);
    reveal(spec_sentence_tail_2_connective);
    reveal(spec_sentence_tail_3);
}

/// One `SentenceTail2Next` or more in a row. It is an error if one of them matches
/// without taking a token.
#[verifier::opaque]
pub closed spec fn spec_many1_sentence_tail_2_next(toks: Seq<Token>, pos: nat) -> Outcome
    decreases rest(toks, pos), 96nat,
{
    match spec_sentence_tail_2_next(toks, pos) {
        Outcome::Matched(len) => if advanced(toks, pos, len) {
            shifted(spec_many1_sentence_tail_2_next_more(toks, pos + len), len)
        } else {
            Outcome::Error(combinator_at(pos, ErrorKind::Many1))
        },
        other => other,
    }
}

/// What follows the first `SentenceTail2Next` of a row of them.
#[verifier::opaque]
pub closed spec fn spec_many1_sentence_tail_2_next_more(toks: Seq<Token>, pos: nat) -> Outcome
    decreases rest(toks, pos), 96nat,
{
    match spec_sentence_tail_2_next(toks, pos) {
        Outcome::Matched(len) => if advanced(toks, pos, len) {
            shifted(spec_many1_sentence_tail_2_next_more(toks, pos + len), len)
        } else {
            Outcome::Error(combinator_at(pos, ErrorKind::Many1))
        },
        Outcome::Error(_) => Outcome::Matched(0),
        Outcome::Failure(report) => Outcome::Failure(report),
    }
}

/// What [`spec_many1_sentence_tail_2_next`] and [`spec_many1_sentence_tail_2_next_more`] say.
pub proof fn lemma_many1_sentence_tail_2_next(toks: Seq<Token>, pos: nat)
    ensures
        spec_many1_sentence_tail_2_next(
            toks,
            pos,
        ) == (match spec_sentence_tail_2_next(toks, pos) {
            Outcome::Matched(len) => if advanced(toks, pos, len) {
                shifted(spec_many1_sentence_tail_2_next_more(toks, pos + len), len)
            } else {
                Outcome::Error(combinator_at(pos, ErrorKind::Many1))
            },
            other => other,
        }),
        spec_many1_sentence_tail_2_next_more(
            toks,
            pos,
        ) == (match spec_sentence_tail_2_next(toks, pos) {
            Outcome::Matched(len) => if advanced(toks, pos, len) {
                shifted(spec_many1_sentence_tail_2_next_more(toks, pos + len), len)
            } else {
                Outcome::Error(combinator_at(pos, ErrorKind::Many1))
            },
            Outcome::Error(_) => Outcome::Matched(0),
            Outcome::Failure(report) => Outcome::Failure(report),
        }),
{
    reveal(spec_many1_sentence_tail_2_next);
    reveal(spec_many1_sentence_tail_2_next_more);
    reveal(spec_sentence_tail_2_next);
}

/// ```text
/// SentenceTail2Connective <- Gihek !TagKe Frees
/// ```
#[verifier::opaque]
pub closed spec fn spec_sentence_tail_2_connective(toks: Seq<Token>, pos: nat) -> Outcome
    decreases rest(toks, pos), 33nat,
{
    match spec_gihek(toks, pos) {
        Outcome::Matched(n1) => match spec_not(pos + n1, spec_tag_ke(toks, pos + n1)) {
            Outcome::Matched(_) => shifted(spec_frees(toks, pos + n1), n1),
            other => other,
        },
        other => other,
    }
}

/// What [`spec_sentence_tail_2_connective`] says.
pub proof fn lemma_sentence_tail_2_connective(toks: Seq<Token>, pos: nat)
    ensures
        spec_sentence_tail_2_connective(toks, pos) == (
            match spec_gihek(toks, pos) {
                Outcome::Matched(n1) => match spec_not(pos + n1, spec_tag_ke(toks, pos + n1)) {
                    Outcome::Matched(_) => shifted(spec_frees(toks, pos + n1), n1),
                    other => other,
                },
                other => other,
            }
        ),
{
    reveal(spec_sentence_tail_2_connective);
    reveal(spec_gihek);
    reveal(spec_tag_ke);
    reveal(spec_frees);
}

/// ```text
/// TagKe <- TagWords? Ke
/// ```
#[verifier::opaque]
pub closed spec fn spec_tag_ke(toks: Seq<Token>, pos: nat) -> Outcome
    decreases rest(toks, pos), 32nat,
{
    match spec_opt(spec_tag_words(toks, pos)) {
        Outcome::Matched(n1) => shifted(spec_word(toks, pos + n1, Selmaho::Ke), n1),
        other => other,
    }
}

/// What [`spec_tag_ke`] says.
pub proof fn lemma_tag_ke(toks: Seq<Token>, pos: nat)
    ensures
        spec_tag_ke(toks, pos) == (
            match spec_opt(spec_tag_words(toks, pos)) {
                Outcome::Matched(n1) => shifted(spec_word(toks, pos + n1, Selmaho::Ke), n1),
                other => other,
            }
        ),
{
    reveal(spec_tag_ke);
    reveal(spec_tag_words);
    reveal(spec_word);
}

/// ```text
/// SentenceTail1After <- Gihek TagWords? Ke Frees SentenceTail1 Kehe? Frees TailArgs
/// ```
#[verifier::opaque]
pub closed spec fn spec_sentence_tail_1_after(toks: Seq<Token>, pos: nat) -> Outcome
    decreases rest(toks, pos), 63nat,
{
    match spec_gihek(toks, pos) {
        Outcome::Matched(n1) => match spec_opt(spec_tag_words(toks, pos + n1)) {
            Outcome::Matched(n2) => match spec_word(toks, pos + n1 + n2, Selmaho::Ke) {
                Outcome::Matched(n3) => match spec_frees(toks, pos + n1 + n2 + n3) {
                    Outcome::Matched(n4) => match (if advanced(toks, pos, n1 + n2 + n3 + n4) {
                        spec_sentence_tail_1(toks, pos + n1 + n2 + n3 + n4)
                    } else {
                        stuck(pos)
                    }) {
                        Outcome::Matched(n5) => match spec_opt(
                            spec_word(toks, pos + n1 + n2 + n3 + n4 + n5, Selmaho::Kehe),
                        ) {
                            Outcome::Matched(n6) => match spec_frees(
                                toks,
                                pos + n1 + n2 + n3 + n4 + n5 + n6,
                            ) {
                                Outcome::Matched(n7) => shifted(
                                    spec_tail_args(toks, pos + n1 + n2 + n3 + n4 + n5 + n6 + n7),
                                    n1 + n2 + n3 + n4 + n5 + n6 + n7,
                                ),
                                other => other,
                            },
                            other => other,
                        },
                        other => other,
                    },
                    other => other,
                },
                other => other,
            },
            other => other,
        },
        other => other,
    }
}

/// What [`spec_sentence_tail_1_after`] says.
pub proof fn lemma_sentence_tail_1_after(toks: Seq<Token>, pos: nat)
    ensures
        spec_sentence_tail_1_after(toks, pos) == (
            match spec_gihek(toks, pos) {
                Outcome::Matched(n1) => match spec_opt(spec_tag_words(toks, pos + n1)) {
                    Outcome::Matched(n2) => match spec_word(toks, pos + n1 + n2, Selmaho::Ke) {
                        Outcome::Matched(n3) => match spec_frees(toks, pos + n1 + n2 + n3) {
                            Outcome::Matched(n4) => match (if advanced(
                                toks,
                                pos,
                                n1 + n2 + n3 + n4,
                            ) {
                                spec_sentence_tail_1(toks, pos + n1 + n2 + n3 + n4)
                            } else {
                                stuck(pos)
                            }) {
                                Outcome::Matched(n5) => match spec_opt(
                                    spec_word(toks, pos + n1 + n2 + n3 + n4 + n5, Selmaho::Kehe),
                                ) {
                                    Outcome::Matched(n6) => match spec_frees(
                                        toks,
                                        pos + n1 + n2 + n3 + n4 + n5 + n6,
                                    ) {
                                        Outcome::Matched(n7) => shifted(
                                            spec_tail_args(
                                                toks,
                                                pos + n1 + n2 + n3 + n4 + n5 + n6 + n7,
                                            ),
                                            n1 + n2 + n3 + n4 + n5 + n6 + n7,
                                        ),
                                        other => other,
                                    },
                                    other => other,
                                },
                                other => other,
                            },
                            other => other,
                        },
                        other => other,
                    },
                    other => other,
                },
                other => other,
            }
        ),
{
    reveal(spec_sentence_tail_1_after);
    reveal(spec_gihek);
    reveal(spec_tag_words);
    reveal(spec_word);
    reveal(spec_frees);
    reveal(spec_sentence_tail_1);
    reveal(spec_tail_args);
}

/// ```text
/// RelativeClauseListNext <- Zihe Frees RelativeClause
/// ```
#[verifier::opaque]
pub closed spec fn spec_relative_clause_list_next(toks: Seq<Token>, pos: nat) -> Outcome
    decreases rest(toks, pos), 7nat,
{
    match spec_word_with_free(toks, pos, Selmaho::Zihe) {
        Outcome::Matched(n1) => shifted(spec_relative_clause(toks, pos + n1), n1),
        other => other,
    }
}

/// What [`spec_relative_clause_list_next`] says.
pub proof fn lemma_relative_clause_list_next(toks: Seq<Token>, pos: nat)
    ensures
        spec_relative_clause_list_next(toks, pos) == (
            match spec_word_with_free(toks, pos, Selmaho::Zihe) {
                Outcome::Matched(n1) => shifted(spec_relative_clause(toks, pos + n1), n1),
                other => other,
            }
        ),
{
    reveal(spec_relative_clause_list_next);
    reveal(spec_word_with_free);
    reveal(spec_relative_clause);
}

/// As many `RelativeClauseListNext` as match in a row. It is an error if one of them
/// matches without taking a token.
#[verifier::opaque]
pub closed spec fn spec_many0_relative_clause_list_next(toks: Seq<Token>, pos: nat) -> Outcome
    decreases rest(toks, pos), 8nat,
{
    match spec_relative_clause_list_next(toks, pos) {
        Outcome::Matched(len) => if advanced(toks, pos, len) {
            shifted(spec_many0_relative_clause_list_next(toks, pos + len), len)
        } else {
            Outcome::Error(combinator_at(pos, ErrorKind::Many0))
        },
        Outcome::Error(_) => Outcome::Matched(0),
        Outcome::Failure(report) => Outcome::Failure(report),
    }
}

/// What [`spec_many0_relative_clause_list_next`] says.
pub proof fn lemma_many0_relative_clause_list_next(toks: Seq<Token>, pos: nat)
    ensures
        spec_many0_relative_clause_list_next(
            toks,
            pos,
        ) == (match spec_relative_clause_list_next(toks, pos) {
            Outcome::Matched(len) => if advanced(toks, pos, len) {
                shifted(spec_many0_relative_clause_list_next(toks, pos + len), len)
            } else {
                Outcome::Error(combinator_at(pos, ErrorKind::Many0))
            },
            Outcome::Error(_) => Outcome::Matched(0),
            Outcome::Failure(report) => Outcome::Failure(report),
        }),
{
    reveal(spec_many0_relative_clause_list_next);
    reveal(spec_relative_clause_list_next);
}

/// ```text
/// GadriSumtiPreRelative <- RelativeClauses
/// ```
#[verifier::opaque]
pub closed spec fn spec_gadri_sumti_pre_relative(toks: Seq<Token>, pos: nat) -> Outcome
    decreases rest(toks, pos), 11nat,
{
    spec_relative_clauses(toks, pos)
}

/// What [`spec_gadri_sumti_pre_relative`] says.
pub proof fn lemma_gadri_sumti_pre_relative(toks: Seq<Token>, pos: nat)
    ensures
        spec_gadri_sumti_pre_relative(toks, pos) == (
            spec_relative_clauses(toks, pos)
        ),
{
    reveal(spec_gadri_sumti_pre_relative);
    reveal(spec_relative_clauses);
}

/// ```text
/// GadriSumtiPreFullPre <- Sumti
/// ```
#[verifier::opaque]
pub closed spec fn spec_gadri_sumti_pre_full_pre(toks: Seq<Token>, pos: nat) -> Outcome
    decreases rest(toks, pos), 45nat,
{
    spec_sumti(toks, pos)
}

/// What [`spec_gadri_sumti_pre_full_pre`] says.
pub proof fn lemma_gadri_sumti_pre_full_pre(toks: Seq<Token>, pos: nat)
    ensures
        spec_gadri_sumti_pre_full_pre(toks, pos) == (
            spec_sumti(toks, pos)
        ),
{
    reveal(spec_gadri_sumti_pre_full_pre);
    reveal(spec_sumti);
}

/// ```text
/// GadriSumtiContents <- GadriSumtiContentsSelbri / GadriSumtiContentsSumti
/// ```
#[verifier::opaque]
pub closed spec fn spec_gadri_sumti_contents(toks: Seq<Token>, pos: nat) -> Outcome
    decreases rest(toks, pos), 90nat,
{
    spec_alt(
        spec_gadri_sumti_contents_selbri(toks, pos),
        spec_gadri_sumti_contents_sumti(toks, pos),
    )
}

/// What [`spec_gadri_sumti_contents`] says.
pub proof fn lemma_gadri_sumti_contents(toks: Seq<Token>, pos: nat)
    ensures
        spec_gadri_sumti_contents(toks, pos) == (
            spec_alt(
                spec_gadri_sumti_contents_selbri(toks, pos),
                spec_gadri_sumti_contents_sumti(toks, pos),
            )
        ),
{
    reveal(spec_gadri_sumti_contents);
    reveal(spec_gadri_sumti_contents_selbri);
    reveal(spec_gadri_sumti_contents_sumti);
}

/// ```text
/// GadriSumtiContentsSelbri <- Quantifier? Selbri RelativeClauses?
/// ```
#[verifier::opaque]
pub closed spec fn spec_gadri_sumti_contents_selbri(toks: Seq<Token>, pos: nat) -> Outcome
    decreases rest(toks, pos), 89nat,
{
    match spec_opt(spec_quantifier(toks, pos)) {
        Outcome::Matched(n1) => match spec_selbri(toks, pos + n1) {
            Outcome::Matched(n2) => shifted(
                spec_opt(spec_relative_clauses(toks, pos + n1 + n2)),
                n1 + n2,
            ),
            other => other,
        },
        other => other,
    }
}

/// What [`spec_gadri_sumti_contents_selbri`] says.
pub proof fn lemma_gadri_sumti_contents_selbri(toks: Seq<Token>, pos: nat)
    ensures
        spec_gadri_sumti_contents_selbri(toks, pos) == (
            match spec_opt(spec_quantifier(toks, pos)) {
                Outcome::Matched(n1) => match spec_selbri(toks, pos + n1) {
                    Outcome::Matched(n2) => shifted(
                        spec_opt(spec_relative_clauses(toks, pos + n1 + n2)),
                        n1 + n2,
                    ),
                    other => other,
                },
                other => other,
            }
        ),
{
    reveal(spec_gadri_sumti_contents_selbri);
    reveal(spec_quantifier);
    reveal(spec_selbri);
    reveal(spec_relative_clauses);
}

/// ```text
/// GadriSumtiContentsSumti <- Quantifier Sumti
/// ```
#[verifier::opaque]
pub closed spec fn spec_gadri_sumti_contents_sumti(toks: Seq<Token>, pos: nat) -> Outcome
    decreases rest(toks, pos), 45nat,
{
    match spec_quantifier(toks, pos) {
        Outcome::Matched(n1) => shifted(spec_sumti(toks, pos + n1), n1),
        other => other,
    }
}

/// What [`spec_gadri_sumti_contents_sumti`] says.
pub proof fn lemma_gadri_sumti_contents_sumti(toks: Seq<Token>, pos: nat)
    ensures
        spec_gadri_sumti_contents_sumti(toks, pos) == (
            match spec_quantifier(toks, pos) {
                Outcome::Matched(n1) => shifted(spec_sumti(toks, pos + n1), n1),
                other => other,
            }
        ),
{
    reveal(spec_gadri_sumti_contents_sumti);
    reveal(spec_quantifier);
    reveal(spec_sumti);
}

/// ```text
/// SumtiComponent1La <- LaSumti
/// ```
#[verifier::opaque]
pub closed spec fn spec_sumti_component_1_la(toks: Seq<Token>, pos: nat) -> Outcome
    decreases rest(toks, pos), 5nat,
{
    spec_la_sumti(toks, pos)
}

/// What [`spec_sumti_component_1_la`] says.
pub proof fn lemma_sumti_component_1_la(toks: Seq<Token>, pos: nat)
    ensures
        spec_sumti_component_1_la(toks, pos) == (
            spec_la_sumti(toks, pos)
        ),
{
    reveal(spec_sumti_component_1_la);
    reveal(spec_la_sumti);
}

/// ```text
/// LaSumti <- La Cmevla+
/// ```
#[verifier::opaque]
pub closed spec fn spec_la_sumti(toks: Seq<Token>, pos: nat) -> Outcome
    decreases rest(toks, pos), 4nat,
{
    match spec_word(toks, pos, Selmaho::La) {
        Outcome::Matched(n1) => shifted(spec_many1_word(toks, pos + n1, Selmaho::Cmevla), n1),
        other => other,
    }
}

/// What [`spec_la_sumti`] says.
pub proof fn lemma_la_sumti(toks: Seq<Token>, pos: nat)
    ensures
        spec_la_sumti(toks, pos) == (
            match spec_word(toks, pos, Selmaho::La) {
                Outcome::Matched(n1) => shifted(
                    spec_many1_word(toks, pos + n1, Selmaho::Cmevla),
                    n1,
                ),
                other => other,
            }
        ),
{
    reveal(spec_la_sumti);
    reveal(spec_word);
    reveal(spec_many1_word);
}

/// ```text
/// SumtiComponent1Lohu <- LohuSumti
/// ```
#[verifier::opaque]
pub closed spec fn spec_sumti_component_1_lohu(toks: Seq<Token>, pos: nat) -> Outcome
    decreases rest(toks, pos), 5nat,
{
    spec_lohu_sumti(toks, pos)
}

/// What [`spec_sumti_component_1_lohu`] says.
pub proof fn lemma_sumti_component_1_lohu(toks: Seq<Token>, pos: nat)
    ensures
        spec_sumti_component_1_lohu(toks, pos) == (
            spec_lohu_sumti(toks, pos)
        ),
{
    reveal(spec_sumti_component_1_lohu);
    reveal(spec_lohu_sumti);
}

/// ```text
/// LohuSumti <- Lohu ^QuotedWords
/// ```
#[verifier::opaque]
pub closed spec fn spec_lohu_sumti(toks: Seq<Token>, pos: nat) -> Outcome
    decreases rest(toks, pos), 4nat,
{
    match spec_raw(toks, pos, Selmaho::Lohu) {
        Outcome::Matched(n1) => shifted(spec_cut(spec_quoted_words(toks, pos + n1)), n1),
        other => other,
    }
}

/// What [`spec_lohu_sumti`] says.
pub proof fn lemma_lohu_sumti(toks: Seq<Token>, pos: nat)
    ensures
        spec_lohu_sumti(toks, pos) == (
            match spec_raw(toks, pos, Selmaho::Lohu) {
                Outcome::Matched(n1) => shifted(spec_cut(spec_quoted_words(toks, pos + n1)), n1),
                other => other,
            }
        ),
{
    reveal(spec_lohu_sumti);
    reveal(spec_raw);
    reveal(spec_quoted_words);
}

/// ```text
/// SumtiComponent1Lu <- LuSumti
/// ```
#[verifier::opaque]
pub closed spec fn spec_sumti_component_1_lu(toks: Seq<Token>, pos: nat) -> Outcome
    decreases rest(toks, pos), 4nat,
{
    spec_lu_sumti(toks, pos)
}

/// What [`spec_sumti_component_1_lu`] says.
pub proof fn lemma_sumti_component_1_lu(toks: Seq<Token>, pos: nat)
    ensures
        spec_sumti_component_1_lu(toks, pos) == (
            spec_lu_sumti(toks, pos)
        ),
{
    reveal(spec_sumti_component_1_lu);
    reveal(spec_lu_sumti);
}

/// ```text
/// LuSumti <- Lu Text Lihu?
/// ```
#[verifier::opaque]
pub closed spec fn spec_lu_sumti(toks: Seq<Token>, pos: nat) -> Outcome
    decreases rest(toks, pos), 3nat,
{
    match spec_raw(toks, pos, Selmaho::Lu) {
        Outcome::Matched(n1) => match (if advanced(toks, pos, n1) {
            spec_text(toks, pos + n1)
        } else {
            stuck(pos)
        }) {
            Outcome::Matched(n2) => shifted(
                spec_opt(spec_word(toks, pos + n1 + n2, Selmaho::Lihu)),
                n1 + n2,
            ),
            other => other,
        },
        other => other,
    }
}

/// What [`spec_lu_sumti`] says.
pub proof fn lemma_lu_sumti(toks: Seq<Token>, pos: nat)
    ensures
        spec_lu_sumti(toks, pos) == (
            match spec_raw(toks, pos, Selmaho::Lu) {
                Outcome::Matched(n1) => match (if advanced(toks, pos, n1) {
                    spec_text(toks, pos + n1)
                } else {
                    stuck(pos)
                }) {
                    Outcome::Matched(n2) => shifted(
                        spec_opt(spec_word(toks, pos + n1 + n2, Selmaho::Lihu)),
                        n1 + n2,
                    ),
                    other => other,
                },
                other => other,
            }
        ),
{
    reveal(spec_lu_sumti);
    reveal(spec_raw);
    reveal(spec_text);
    reveal(spec_word);
}

/// ```text
/// SumtiComponent1Modified <- ModifiedSumti
/// ```
#[verifier::opaque]
pub closed spec fn spec_sumti_component_1_modified(toks: Seq<Token>, pos: nat) -> Outcome
    decreases rest(toks, pos), 27nat,
{
    spec_modified_sumti(toks, pos)
}

/// What [`spec_sumti_component_1_modified`] says.
pub proof fn lemma_sumti_component_1_modified(toks: Seq<Token>, pos: nat)
    ensures
        spec_sumti_component_1_modified(toks, pos) == (
            spec_modified_sumti(toks, pos)
        ),
{
    reveal(spec_sumti_component_1_modified);
    reveal(spec_modified_sumti);
}

/// ```text
/// ModifiedSumti <- SumtiModifierWithFree RelativeClauses? Sumti Luhu?
/// ```
#[verifier::opaque]
pub closed spec fn spec_modified_sumti(toks: Seq<Token>, pos: nat) -> Outcome
    decreases rest(toks, pos), 26nat,
{
    match spec_sumti_modifier_with_free(toks, pos) {
        Outcome::Matched(n1) => match spec_opt(spec_relative_clauses(toks, pos + n1)) {
            Outcome::Matched(n2) => match (if advanced(toks, pos, n1 + n2) {
                spec_sumti(toks, pos + n1 + n2)
            } else {
                stuck(pos)
            }) {
                Outcome::Matched(n3) => shifted(
                    spec_opt(spec_word(toks, pos + n1 + n2 + n3, Selmaho::Luhu)),
                    n1 + n2 + n3,
                ),
                other => other,
            },
            other => other,
        },
        other => other,
    }
}

/// What [`spec_modified_sumti`] says.
pub proof fn lemma_modified_sumti(toks: Seq<Token>, pos: nat)
    ensures
        spec_modified_sumti(toks, pos) == (
            match spec_sumti_modifier_with_free(toks, pos) {
                Outcome::Matched(n1) => match spec_opt(spec_relative_clauses(toks, pos + n1)) {
                    Outcome::Matched(n2) => match (if advanced(toks, pos, n1 + n2) {
                        spec_sumti(toks, pos + n1 + n2)
                    } else {
                        stuck(pos)
                    }) {
                        Outcome::Matched(n3) => shifted(
                            spec_opt(spec_word(toks, pos + n1 + n2 + n3, Selmaho::Luhu)),
                            n1 + n2 + n3,
                        ),
                        other => other,
                    },
                    other => other,
                },
                other => other,
            }
        ),
{
    reveal(spec_modified_sumti);
    reveal(spec_sumti_modifier_with_free);
    reveal(spec_relative_clauses);
    reveal(spec_sumti);
    reveal(spec_word);
}

/// ```text
/// SumtiModifierWithFree <- SumtiModifier Frees
/// ```
#[verifier::opaque]
pub closed spec fn spec_sumti_modifier_with_free(toks: Seq<Token>, pos: nat) -> Outcome
    decreases rest(toks, pos), 25nat,
{
    match spec_sumti_modifier(toks, pos) {
        Outcome::Matched(n1) => shifted(spec_frees(toks, pos + n1), n1),
        other => other,
    }
}

/// What [`spec_sumti_modifier_with_free`] says.
pub proof fn lemma_sumti_modifier_with_free(toks: Seq<Token>, pos: nat)
    ensures
        spec_sumti_modifier_with_free(toks, pos) == (
            match spec_sumti_modifier(toks, pos) {
                Outcome::Matched(n1) => shifted(spec_frees(toks, pos + n1), n1),
                other => other,
            }
        ),
{
    reveal(spec_sumti_modifier_with_free);
    reveal(spec_sumti_modifier);
    reveal(spec_frees);
}

/// ```text
/// SumtiComponent1LerfuString <- LerfuString !Moi Boi?
/// ```
#[verifier::opaque]
pub closed spec fn spec_sumti_component_1_lerfu_string(toks: Seq<Token>, pos: nat) -> Outcome
    decreases rest(toks, pos), 17nat,
{
    match spec_lerfu_string(toks, pos) {
        Outcome::Matched(n1) => match spec_not(
            pos + n1,
            spec_word(toks, pos + n1, Selmaho::Moi),
        ) {
            Outcome::Matched(_) => shifted(spec_opt(spec_word(toks, pos + n1, Selmaho::Boi)), n1),
            other => other,
        },
        other => other,
    }
}

/// What [`spec_sumti_component_1_lerfu_string`] says.
pub proof fn lemma_sumti_component_1_lerfu_string(toks: Seq<Token>, pos: nat)
    ensures
        spec_sumti_component_1_lerfu_string(toks, pos) == (
            match spec_lerfu_string(toks, pos) {
                Outcome::Matched(n1) => match spec_not(
                    pos + n1,
                    spec_word(toks, pos + n1, Selmaho::Moi),
                ) {
                    Outcome::Matched(_) => shifted(
                        spec_opt(spec_word(toks, pos + n1, Selmaho::Boi)),
                        n1,
                    ),
                    other => other,
                },
                other => other,
            }
        ),
{
    reveal(spec_sumti_component_1_lerfu_string);
    reveal(spec_lerfu_string);
    reveal(spec_word);
}

/// ```text
/// SumtiComponent1Zo <- ZoSumti
/// ```
#[verifier::opaque]
pub closed spec fn spec_sumti_component_1_zo(toks: Seq<Token>, pos: nat) -> Outcome
    decreases rest(toks, pos), 2nat,
{
    spec_zo_sumti(toks, pos)
}

/// What [`spec_sumti_component_1_zo`] says.
pub proof fn lemma_sumti_component_1_zo(toks: Seq<Token>, pos: nat)
    ensures
        spec_sumti_component_1_zo(toks, pos) == (
            spec_zo_sumti(toks, pos)
        ),
{
    reveal(spec_sumti_component_1_zo);
    reveal(spec_zo_sumti);
}

/// ```text
/// ZoSumti <- Zo token
/// ```
#[verifier::opaque]
pub closed spec fn spec_zo_sumti(toks: Seq<Token>, pos: nat) -> Outcome
    decreases rest(toks, pos), 1nat,
{
    match spec_raw(toks, pos, Selmaho::Zo) {
        Outcome::Matched(n1) => shifted(spec_token(toks, pos + n1), n1),
        other => other,
    }
}

/// What [`spec_zo_sumti`] says.
pub proof fn lemma_zo_sumti(toks: Seq<Token>, pos: nat)
    ensures
        spec_zo_sumti(toks, pos) == (
            match spec_raw(toks, pos, Selmaho::Zo) {
                Outcome::Matched(n1) => shifted(spec_token(toks, pos + n1), n1),
                other => other,
            }
        ),
{
    reveal(spec_zo_sumti);
    reveal(spec_raw);
}

/// ```text
/// SumtiComponent1Zoi <- ZoiSumti
/// ```
#[verifier::opaque]
pub closed spec fn spec_sumti_component_1_zoi(toks: Seq<Token>, pos: nat) -> Outcome
    decreases rest(toks, pos), 2nat,
{
    spec_zoi_sumti(toks, pos)
}

/// What [`spec_sumti_component_1_zoi`] says.
pub proof fn lemma_sumti_component_1_zoi(toks: Seq<Token>, pos: nat)
    ensures
        spec_sumti_component_1_zoi(toks, pos) == (
            spec_zoi_sumti(toks, pos)
        ),
{
    reveal(spec_sumti_component_1_zoi);
    reveal(spec_zoi_sumti);
}

/// ```text
/// ZoiSumti <- Zoi ZoiDelimiter ZoiText ZoiDelimiter
/// ```
#[verifier::opaque]
pub closed spec fn spec_zoi_sumti(toks: Seq<Token>, pos: nat) -> Outcome
    decreases rest(toks, pos), 1nat,
{
    match spec_raw(toks, pos, Selmaho::Zoi) {
        Outcome::Matched(n1) => match spec_zoi_delimiter(toks, pos + n1) {
            Outcome::Matched(n2) => match spec_zoi_text(toks, pos + n1 + n2) {
                Outcome::Matched(n3) => shifted(
                    spec_zoi_delimiter(toks, pos + n1 + n2 + n3),
                    n1 + n2 + n3,
                ),
                other => other,
            },
            other => other,
        },
        other => other,
    }
}

/// What [`spec_zoi_sumti`] says.
pub proof fn lemma_zoi_sumti(toks: Seq<Token>, pos: nat)
    ensures
        spec_zoi_sumti(toks, pos) == (
            match spec_raw(toks, pos, Selmaho::Zoi) {
                Outcome::Matched(n1) => match spec_zoi_delimiter(toks, pos + n1) {
                    Outcome::Matched(n2) => match spec_zoi_text(toks, pos + n1 + n2) {
                        Outcome::Matched(n3) => shifted(
                            spec_zoi_delimiter(toks, pos + n1 + n2 + n3),
                            n1 + n2 + n3,
                        ),
                        other => other,
                    },
                    other => other,
                },
                other => other,
            }
        ),
{
    reveal(spec_zoi_sumti);
    reveal(spec_raw);
    reveal(spec_zoi_delimiter);
    reveal(spec_zoi_text);
}

/// ```text
/// ZoiDelimiter <- token
/// ```
#[verifier::opaque]
pub closed spec fn spec_zoi_delimiter(toks: Seq<Token>, pos: nat) -> Outcome
    decreases rest(toks, pos), 0nat,
{
    spec_token(toks, pos)
}

/// What [`spec_zoi_delimiter`] says.
pub proof fn lemma_zoi_delimiter(toks: Seq<Token>, pos: nat)
    ensures
        spec_zoi_delimiter(toks, pos) == (
            spec_token(toks, pos)
        ),
{
    reveal(spec_zoi_delimiter);
}

/// ```text
/// ZoiText <- token
/// ```
#[verifier::opaque]
pub closed spec fn spec_zoi_text(toks: Seq<Token>, pos: nat) -> Outcome
    decreases rest(toks, pos), 0nat,
{
    spec_token(toks, pos)
}

/// What [`spec_zoi_text`] says.
pub proof fn lemma_zoi_text(toks: Seq<Token>, pos: nat)
    ensures
        spec_zoi_text(toks, pos) == (
            spec_token(toks, pos)
        ),
{
    reveal(spec_zoi_text);
}

/// ```text
/// SumtiComponent1Li <- Li Frees Expression Loho?
/// ```
#[verifier::opaque]
pub closed spec fn spec_sumti_component_1_li(toks: Seq<Token>, pos: nat) -> Outcome
    decreases rest(toks, pos), 4nat,
{
    match spec_word_with_free(toks, pos, Selmaho::Li) {
        Outcome::Matched(n1) => match (if advanced(toks, pos, n1) {
            spec_expression(toks, pos + n1)
        } else {
            stuck(pos)
        }) {
            Outcome::Matched(n2) => shifted(
                spec_opt(spec_word(toks, pos + n1 + n2, Selmaho::Loho)),
                n1 + n2,
            ),
            other => other,
        },
        other => other,
    }
}

/// What [`spec_sumti_component_1_li`] says.
pub proof fn lemma_sumti_component_1_li(toks: Seq<Token>, pos: nat)
    ensures
        spec_sumti_component_1_li(toks, pos) == (
            match spec_word_with_free(toks, pos, Selmaho::Li) {
                Outcome::Matched(n1) => match (if advanced(toks, pos, n1) {
                    spec_expression(toks, pos + n1)
                } else {
                    stuck(pos)
                }) {
                    Outcome::Matched(n2) => shifted(
                        spec_opt(spec_word(toks, pos + n1 + n2, Selmaho::Loho)),
                        n1 + n2,
                    ),
                    other => other,
                },
                other => other,
            }
        ),
{
    reveal(spec_sumti_component_1_li);
    reveal(spec_word_with_free);
    reveal(spec_expression);
    reveal(spec_word);
}

/// ```text
/// Sumti4SelbriShorthand <- Quantifier Selbri Ku? Frees RelativeClauses?
/// ```
#[verifier::opaque]
pub closed spec fn spec_sumti_4_selbri_shorthand(toks: Seq<Token>, pos: nat) -> Outcome
    decreases rest(toks, pos), 27nat,
{
    match spec_quantifier(toks, pos) {
        Outcome::Matched(n1) => match (if advanced(toks, pos, n1) {
            spec_selbri(toks, pos + n1)
        } else {
            stuck(pos)
        }) {
            Outcome::Matched(n2) => match spec_opt(spec_word(toks, pos + n1 + n2, Selmaho::Ku)) {
                Outcome::Matched(n3) => match spec_frees(toks, pos + n1 + n2 + n3) {
                    Outcome::Matched(n4) => shifted(
                        spec_opt(spec_relative_clauses(toks, pos + n1 + n2 + n3 + n4)),
                        n1 + n2 + n3 + n4,
                    ),
                    other => other,
                },
                other => other,
            },
            other => other,
        },
        other => other,
    }
}

/// What [`spec_sumti_4_selbri_shorthand`] says.
pub proof fn lemma_sumti_4_selbri_shorthand(toks: Seq<Token>, pos: nat)
    ensures
        spec_sumti_4_selbri_shorthand(toks, pos) == (
            match spec_quantifier(toks, pos) {
                Outcome::Matched(n1) => match (if advanced(toks, pos, n1) {
                    spec_selbri(toks, pos + n1)
                } else {
                    stuck(pos)
                }) {
                    Outcome::Matched(n2) => match spec_opt(
                        spec_word(toks, pos + n1 + n2, Selmaho::Ku),
                    ) {
                        Outcome::Matched(n3) => match spec_frees(toks, pos + n1 + n2 + n3) {
                            Outcome::Matched(n4) => shifted(
                                spec_opt(spec_relative_clauses(toks, pos + n1 + n2 + n3 + n4)),
                                n1 + n2 + n3 + n4,
                            ),
                            other => other,
                        },
                        other => other,
                    },
                    other => other,
                },
                other => other,
            }
        ),
{
    reveal(spec_sumti_4_selbri_shorthand);
    reveal(spec_quantifier);
    reveal(spec_selbri);
    reveal(spec_word);
    reveal(spec_frees);
    reveal(spec_relative_clauses);
}

/// ```text
/// Sumti2Next <- JoikEkBo Sumti3
/// ```
#[verifier::opaque]
pub closed spec fn spec_sumti_2_next(toks: Seq<Token>, pos: nat) -> Outcome
    decreases rest(toks, pos), 37nat,
{
    match spec_joik_ek_bo(toks, pos) {
        Outcome::Matched(n1) => shifted(spec_sumti_3(toks, pos + n1), n1),
        other => other,
    }
}

/// What [`spec_sumti_2_next`] says.
pub proof fn lemma_sumti_2_next(toks: Seq<Token>, pos: nat)
    ensures
        spec_sumti_2_next(toks, pos) == (
            match spec_joik_ek_bo(toks, pos) {
                Outcome::Matched(n1) => shifted(spec_sumti_3(toks, pos + n1), n1),
                other => other,
            }
        ),
{
    reveal(spec_sumti_2_next);
    reveal(spec_joik_ek_bo);
    reveal(spec_sumti_3);
}

/// As many `Sumti2Next` as match in a row. It is an error if one of them
/// matches without taking a token.
#[verifier::opaque]
pub closed spec fn spec_many0_sumti_2_next(toks: Seq<Token>, pos: nat) -> Outcome
    decreases rest(toks, pos), 38nat,
{
    match spec_sumti_2_next(toks, pos) {
        Outcome::Matched(len) => if advanced(toks, pos, len) {
            shifted(spec_many0_sumti_2_next(toks, pos + len), len)
        } else {
            Outcome::Error(combinator_at(pos, ErrorKind::Many0))
        },
        Outcome::Error(_) => Outcome::Matched(0),
        Outcome::Failure(report) => Outcome::Failure(report),
    }
}

/// What [`spec_many0_sumti_2_next`] says.
pub proof fn lemma_many0_sumti_2_next(toks: Seq<Token>, pos: nat)
    ensures
        spec_many0_sumti_2_next(toks, pos) == (match spec_sumti_2_next(toks, pos) {
            Outcome::Matched(len) => if advanced(toks, pos, len) {
                shifted(spec_many0_sumti_2_next(toks, pos + len), len)
            } else {
                Outcome::Error(combinator_at(pos, ErrorKind::Many0))
            },
            Outcome::Error(_) => Outcome::Matched(0),
            Outcome::Failure(report) => Outcome::Failure(report),
        }),
{
    reveal(spec_many0_sumti_2_next);
    reveal(spec_sumti_2_next);
}

/// ```text
/// JoikEkBo <- JoikEk TagWords? Bo Frees
/// ```
#[verifier::opaque]
pub closed spec fn spec_joik_ek_bo(toks: Seq<Token>, pos: nat) -> Outcome
    decreases rest(toks, pos), 32nat,
{
    match spec_joik_ek(toks, pos) {
        Outcome::Matched(n1) => match spec_opt(spec_tag_words(toks, pos + n1)) {
            Outcome::Matched(n2) => match spec_word(toks, pos + n1 + n2, Selmaho::Bo) {
                Outcome::Matched(n3) => shifted(
                    spec_frees(toks, pos + n1 + n2 + n3),
                    n1 + n2 + n3,
                ),
                other => other,
            },
            other => other,
        },
        other => other,
    }
}

/// What [`spec_joik_ek_bo`] says.
pub proof fn lemma_joik_ek_bo(toks: Seq<Token>, pos: nat)
    ensures
        spec_joik_ek_bo(toks, pos) == (
            match spec_joik_ek(toks, pos) {
                Outcome::Matched(n1) => match spec_opt(spec_tag_words(toks, pos + n1)) {
                    Outcome::Matched(n2) => match spec_word(toks, pos + n1 + n2, Selmaho::Bo) {
                        Outcome::Matched(n3) => shifted(
                            spec_frees(toks, pos + n1 + n2 + n3),
                            n1 + n2 + n3,
                        ),
                        other => other,
                    },
                    other => other,
                },
                other => other,
            }
        ),
{
    reveal(spec_joik_ek_bo);
    reveal(spec_joik_ek);
    reveal(spec_tag_words);
    reveal(spec_word);
    reveal(spec_frees);
}

/// ```text
/// SumtiConnectedPost <- SumtiConnectedPostNormal / SumtiConnectedPostGrouped
/// ```
#[verifier::opaque]
pub closed spec fn spec_sumti_connected_post(toks: Seq<Token>, pos: nat) -> Outcome
    decreases rest(toks, pos), 41nat,
{
    spec_alt(
        spec_sumti_connected_post_normal(toks, pos),
        spec_sumti_connected_post_grouped(toks, pos),
    )
}

/// What [`spec_sumti_connected_post`] says.
pub proof fn lemma_sumti_connected_post(toks: Seq<Token>, pos: nat)
    ensures
        spec_sumti_connected_post(toks, pos) == (
            spec_alt(
                spec_sumti_connected_post_normal(toks, pos),
                spec_sumti_connected_post_grouped(toks, pos),
            )
        ),
{
    reveal(spec_sumti_connected_post);
    reveal(spec_sumti_connected_post_normal);
    reveal(spec_sumti_connected_post_grouped);
}

/// As many `SumtiConnectedPost` as match in a row. It is an error if one of them
/// matches without taking a token.
#[verifier::opaque]
pub closed spec fn spec_many0_sumti_connected_post(toks: Seq<Token>, pos: nat) -> Outcome
    decreases rest(toks, pos), 42nat,
{
    match spec_sumti_connected_post(toks, pos) {
        Outcome::Matched(len) => if advanced(toks, pos, len) {
            shifted(spec_many0_sumti_connected_post(toks, pos + len), len)
        } else {
            Outcome::Error(combinator_at(pos, ErrorKind::Many0))
        },
        Outcome::Error(_) => Outcome::Matched(0),
        Outcome::Failure(report) => Outcome::Failure(report),
    }
}

/// What [`spec_many0_sumti_connected_post`] says.
pub proof fn lemma_many0_sumti_connected_post(toks: Seq<Token>, pos: nat)
    ensures
        spec_many0_sumti_connected_post(
            toks,
            pos,
        ) == (match spec_sumti_connected_post(toks, pos) {
            Outcome::Matched(len) => if advanced(toks, pos, len) {
                shifted(spec_many0_sumti_connected_post(toks, pos + len), len)
            } else {
                Outcome::Error(combinator_at(pos, ErrorKind::Many0))
            },
            Outcome::Error(_) => Outcome::Matched(0),
            Outcome::Failure(report) => Outcome::Failure(report),
        }),
{
    reveal(spec_many0_sumti_connected_post);
    reveal(spec_sumti_connected_post);
}

/// ```text
/// SumtiConnectedPostNormal <- JoikEk Sumti2
/// ```
#[verifier::opaque]
pub closed spec fn spec_sumti_connected_post_normal(toks: Seq<Token>, pos: nat) -> Outcome
    decreases rest(toks, pos), 40nat,
{
    match spec_joik_ek(toks, pos) {
        Outcome::Matched(n1) => shifted(spec_sumti_2(toks, pos + n1), n1),
        other => other,
    }
}

/// What [`spec_sumti_connected_post_normal`] says.
pub proof fn lemma_sumti_connected_post_normal(toks: Seq<Token>, pos: nat)
    ensures
        spec_sumti_connected_post_normal(toks, pos) == (
            match spec_joik_ek(toks, pos) {
                Outcome::Matched(n1) => shifted(spec_sumti_2(toks, pos + n1), n1),
                other => other,
            }
        ),
{
    reveal(spec_sumti_connected_post_normal);
    reveal(spec_joik_ek);
    reveal(spec_sumti_2);
}

/// ```text
/// SumtiConnectedPostGrouped <- JoikEk TagWords? Ke Frees Sumti Kehe? Frees
/// ```
#[verifier::opaque]
pub closed spec fn spec_sumti_connected_post_grouped(toks: Seq<Token>, pos: nat) -> Outcome
    decreases rest(toks, pos), 32nat,
{
    match spec_joik_ek(toks, pos) {
        Outcome::Matched(n1) => match spec_opt(spec_tag_words(toks, pos + n1)) {
            Outcome::Matched(n2) => match spec_word_with_free(toks, pos + n1 + n2, Selmaho::Ke) {
                Outcome::Matched(n3) => match (if advanced(toks, pos, n1 + n2 + n3) {
                    spec_sumti(toks, pos + n1 + n2 + n3)
                } else {
                    stuck(pos)
                }) {
                    Outcome::Matched(n4) => match spec_opt(
                        spec_word(toks, pos + n1 + n2 + n3 + n4, Selmaho::Kehe),
                    ) {
                        Outcome::Matched(n5) => shifted(
                            spec_frees(toks, pos + n1 + n2 + n3 + n4 + n5),
                            n1 + n2 + n3 + n4 + n5,
                        ),
                        other => other,
                    },
                    other => other,
                },
                other => other,
            },
            other => other,
        },
        other => other,
    }
}

/// What [`spec_sumti_connected_post_grouped`] says.
pub proof fn lemma_sumti_connected_post_grouped(toks: Seq<Token>, pos: nat)
    ensures
        spec_sumti_connected_post_grouped(toks, pos) == (
            match spec_joik_ek(toks, pos) {
                Outcome::Matched(n1) => match spec_opt(spec_tag_words(toks, pos + n1)) {
                    Outcome::Matched(n2) => match spec_word_with_free(
                        toks,
                        pos + n1 + n2,
                        Selmaho::Ke,
                    ) {
                        Outcome::Matched(n3) => match (if advanced(toks, pos, n1 + n2 + n3) {
                            spec_sumti(toks, pos + n1 + n2 + n3)
                        } else {
                            stuck(pos)
                        }) {
                            Outcome::Matched(n4) => match spec_opt(
                                spec_word(toks, pos + n1 + n2 + n3 + n4, Selmaho::Kehe),
                            ) {
                                Outcome::Matched(n5) => shifted(
                                    spec_frees(toks, pos + n1 + n2 + n3 + n4 + n5),
                                    n1 + n2 + n3 + n4 + n5,
                                ),
                                other => other,
                            },
                            other => other,
                        },
                        other => other,
                    },
                    other => other,
                },
                other => other,
            }
        ),
{
    reveal(spec_sumti_connected_post_grouped);
    reveal(spec_joik_ek);
    reveal(spec_tag_words);
    reveal(spec_word_with_free);
    reveal(spec_sumti);
    reveal(spec_word);
    reveal(spec_frees);
}

/// ```text
/// VuhoRelative <- Vuho Frees RelativeClauses
/// ```
#[verifier::opaque]
pub closed spec fn spec_vuho_relative(toks: Seq<Token>, pos: nat) -> Outcome
    decreases rest(toks, pos), 11nat,
{
    match spec_word_with_free(toks, pos, Selmaho::Vuho) {
        Outcome::Matched(n1) => shifted(spec_relative_clauses(toks, pos + n1), n1),
        other => other,
    }
}

/// What [`spec_vuho_relative`] says.
pub proof fn lemma_vuho_relative(toks: Seq<Token>, pos: nat)
    ensures
        spec_vuho_relative(toks, pos) == (
            match spec_word_with_free(toks, pos, Selmaho::Vuho) {
                Outcome::Matched(n1) => shifted(spec_relative_clauses(toks, pos + n1), n1),
                other => other,
            }
        ),
{
    reveal(spec_vuho_relative);
    reveal(spec_word_with_free);
    reveal(spec_relative_clauses);
}

/// ```text
/// TanruUnit2Nu <- NuWordList Subsentence Kei? Frees
/// ```
#[verifier::opaque]
pub closed spec fn spec_tanru_unit_2_nu(toks: Seq<Token>, pos: nat) -> Outcome
    decreases rest(toks, pos), 29nat,
{
    match spec_nu_word_list(toks, pos) {
        Outcome::Matched(n1) => match (if advanced(toks, pos, n1) {
            spec_subsentence(toks, pos + n1)
        } else {
            stuck(pos)
        }) {
            Outcome::Matched(n2) => match spec_opt(spec_word(toks, pos + n1 + n2, Selmaho::Kei)) {
                Outcome::Matched(n3) => shifted(
                    spec_frees(toks, pos + n1 + n2 + n3),
                    n1 + n2 + n3,
                ),
                other => other,
            },
            other => other,
        },
        other => other,
    }
}

/// What [`spec_tanru_unit_2_nu`] says.
pub proof fn lemma_tanru_unit_2_nu(toks: Seq<Token>, pos: nat)
    ensures
        spec_tanru_unit_2_nu(toks, pos) == (
            match spec_nu_word_list(toks, pos) {
                Outcome::Matched(n1) => match (if advanced(toks, pos, n1) {
                    spec_subsentence(toks, pos + n1)
                } else {
                    stuck(pos)
                }) {
                    Outcome::Matched(n2) => match spec_opt(
                        spec_word(toks, pos + n1 + n2, Selmaho::Kei),
                    ) {
                        Outcome::Matched(n3) => shifted(
                            spec_frees(toks, pos + n1 + n2 + n3),
                            n1 + n2 + n3,
                        ),
                        other => other,
                    },
                    other => other,
                },
                other => other,
            }
        ),
{
    reveal(spec_tanru_unit_2_nu);
    reveal(spec_nu_word_list);
    reveal(spec_subsentence);
    reveal(spec_word);
    reveal(spec_frees);
}

/// ```text
/// NuWordList <- NuWord NuWordListNext*
/// ```
#[verifier::opaque]
pub closed spec fn spec_nu_word_list(toks: Seq<Token>, pos: nat) -> Outcome
    decreases rest(toks, pos), 28nat,
{
    match spec_nu_word(toks, pos) {
        Outcome::Matched(n1) => shifted(spec_many0_nu_word_list_next(toks, pos + n1), n1),
        other => other,
    }
}

/// What [`spec_nu_word_list`] says.
pub proof fn lemma_nu_word_list(toks: Seq<Token>, pos: nat)
    ensures
        spec_nu_word_list(toks, pos) == (
            match spec_nu_word(toks, pos) {
                Outcome::Matched(n1) => shifted(spec_many0_nu_word_list_next(toks, pos + n1), n1),
                other => other,
            }
        ),
{
    reveal(spec_nu_word_list);
    reveal(spec_nu_word);
    reveal(spec_many0_nu_word_list_next);
}

/// ```text
/// NuWord <- Nu Nai? Frees
/// ```
#[verifier::opaque]
pub closed spec fn spec_nu_word(toks: Seq<Token>, pos: nat) -> Outcome
    decreases rest(toks, pos), 25nat,
{
    match spec_word(toks, pos, Selmaho::Nu) {
        Outcome::Matched(n1) => match spec_opt(spec_word(toks, pos + n1, Selmaho::Nai)) {
            Outcome::Matched(n2) => shifted(spec_frees(toks, pos + n1 + n2), n1 + n2),
            other => other,
        },
        other => other,
    }
}

/// What [`spec_nu_word`] says.
pub proof fn lemma_nu_word(toks: Seq<Token>, pos: nat)
    ensures
        spec_nu_word(toks, pos) == (
            match spec_word(toks, pos, Selmaho::Nu) {
                Outcome::Matched(n1) => match spec_opt(spec_word(toks, pos + n1, Selmaho::Nai)) {
                    Outcome::Matched(n2) => shifted(spec_frees(toks, pos + n1 + n2), n1 + n2),
                    other => other,
                },
                other => other,
            }
        ),
{
    reveal(spec_nu_word);
    reveal(spec_word);
    reveal(spec_frees);
}

/// ```text
/// NuWordListNext <- JoikJek NuWord
/// ```
#[verifier::opaque]
pub closed spec fn spec_nu_word_list_next(toks: Seq<Token>, pos: nat) -> Outcome
    decreases rest(toks, pos), 26nat,
{
    match spec_joik_jek(toks, pos) {
        Outcome::Matched(n1) => shifted(spec_nu_word(toks, pos + n1), n1),
        other => other,
    }
}

/// What [`spec_nu_word_list_next`] says.
pub proof fn lemma_nu_word_list_next(toks: Seq<Token>, pos: nat)
    ensures
        spec_nu_word_list_next(toks, pos) == (
            match spec_joik_jek(toks, pos) {
                Outcome::Matched(n1) => shifted(spec_nu_word(toks, pos + n1), n1),
                other => other,
            }
        ),
{
    reveal(spec_nu_word_list_next);
    reveal(spec_joik_jek);
    reveal(spec_nu_word);
}

/// As many `NuWordListNext` as match in a row. It is an error if one of them
/// matches without taking a token.
#[verifier::opaque]
pub closed spec fn spec_many0_nu_word_list_next(toks: Seq<Token>, pos: nat) -> Outcome
    decreases rest(toks, pos), 27nat,
{
    match spec_nu_word_list_next(toks, pos) {
        Outcome::Matched(len) => if advanced(toks, pos, len) {
            shifted(spec_many0_nu_word_list_next(toks, pos + len), len)
        } else {
            Outcome::Error(combinator_at(pos, ErrorKind::Many0))
        },
        Outcome::Error(_) => Outcome::Matched(0),
        Outcome::Failure(report) => Outcome::Failure(report),
    }
}

/// What [`spec_many0_nu_word_list_next`] says.
pub proof fn lemma_many0_nu_word_list_next(toks: Seq<Token>, pos: nat)
    ensures
        spec_many0_nu_word_list_next(toks, pos) == (match spec_nu_word_list_next(toks, pos) {
            Outcome::Matched(len) => if advanced(toks, pos, len) {
                shifted(spec_many0_nu_word_list_next(toks, pos + len), len)
            } else {
                Outcome::Error(combinator_at(pos, ErrorKind::Many0))
            },
            Outcome::Error(_) => Outcome::Matched(0),
            Outcome::Failure(report) => Outcome::Failure(report),
        }),
{
    reveal(spec_many0_nu_word_list_next);
    reveal(spec_nu_word_list_next);
}

/// ```text
/// TanruUnit2Nuha <- Nuha Frees Operator
/// ```
#[verifier::opaque]
pub closed spec fn spec_tanru_unit_2_nuha(toks: Seq<Token>, pos: nat) -> Outcome
    decreases rest(toks, pos), 42nat,
{
    match spec_word_with_free(toks, pos, Selmaho::Nuha) {
        Outcome::Matched(n1) => shifted(spec_operator(toks, pos + n1), n1),
        other => other,
    }
}

/// What [`spec_tanru_unit_2_nuha`] says.
pub proof fn lemma_tanru_unit_2_nuha(toks: Seq<Token>, pos: nat)
    ensures
        spec_tanru_unit_2_nuha(toks, pos) == (
            match spec_word_with_free(toks, pos, Selmaho::Nuha) {
                Outcome::Matched(n1) => shifted(spec_operator(toks, pos + n1), n1),
                other => other,
            }
        ),
{
    reveal(spec_tanru_unit_2_nuha);
    reveal(spec_word_with_free);
    reveal(spec_operator);
}

/// ```text
/// BoundArguments <- Be Frees ArgList Beho? Frees
/// ```
#[verifier::opaque]
pub closed spec fn spec_bound_arguments(toks: Seq<Token>, pos: nat) -> Outcome
    decreases rest(toks, pos), 63nat,
{
    match spec_word_with_free(toks, pos, Selmaho::Be) {
        Outcome::Matched(n1) => match spec_arg_list(toks, pos + n1) {
            Outcome::Matched(n2) => match spec_opt(
                spec_word(toks, pos + n1 + n2, Selmaho::Beho),
            ) {
                Outcome::Matched(n3) => shifted(
                    spec_frees(toks, pos + n1 + n2 + n3),
                    n1 + n2 + n3,
                ),
                other => other,
            },
            other => other,
        },
        other => other,
    }
}

/// What [`spec_bound_arguments`] says.
pub proof fn lemma_bound_arguments(toks: Seq<Token>, pos: nat)
    ensures
        spec_bound_arguments(toks, pos) == (
            match spec_word_with_free(toks, pos, Selmaho::Be) {
                Outcome::Matched(n1) => match spec_arg_list(toks, pos + n1) {
                    Outcome::Matched(n2) => match spec_opt(
                        spec_word(toks, pos + n1 + n2, Selmaho::Beho),
                    ) {
                        Outcome::Matched(n3) => shifted(
                            spec_frees(toks, pos + n1 + n2 + n3),
                            n1 + n2 + n3,
                        ),
                        other => other,
                    },
                    other => other,
                },
                other => other,
            }
        ),
{
    reveal(spec_bound_arguments);
    reveal(spec_word_with_free);
    reveal(spec_arg_list);
    reveal(spec_word);
    reveal(spec_frees);
}

/// ```text
/// ArgList <- Arg ArgListNext*
/// ```
#[verifier::opaque]
pub closed spec fn spec_arg_list(toks: Seq<Token>, pos: nat) -> Outcome
    decreases rest(toks, pos), 62nat,
{
    match spec_arg(toks, pos) {
        Outcome::Matched(n1) => shifted(spec_many0_arg_list_next(toks, pos + n1), n1),
        other => other,
    }
}

/// What [`spec_arg_list`] says.
pub proof fn lemma_arg_list(toks: Seq<Token>, pos: nat)
    ensures
        spec_arg_list(toks, pos) == (
            match spec_arg(toks, pos) {
                Outcome::Matched(n1) => shifted(spec_many0_arg_list_next(toks, pos + n1), n1),
                other => other,
            }
        ),
{
    reveal(spec_arg_list);
    reveal(spec_arg);
    reveal(spec_many0_arg_list_next);
}

/// ```text
/// ArgListNext <- Bei Frees Arg
/// ```
#[verifier::opaque]
pub closed spec fn spec_arg_list_next(toks: Seq<Token>, pos: nat) -> Outcome
    decreases rest(toks, pos), 60nat,
{
    match spec_word_with_free(toks, pos, Selmaho::Bei) {
        Outcome::Matched(n1) => shifted(spec_arg(toks, pos + n1), n1),
        other => other,
    }
}

/// What [`spec_arg_list_next`] says.
pub proof fn lemma_arg_list_next(toks: Seq<Token>, pos: nat)
    ensures
        spec_arg_list_next(toks, pos) == (
            match spec_word_with_free(toks, pos, Selmaho::Bei) {
                Outcome::Matched(n1) => shifted(spec_arg(toks, pos + n1), n1),
                other => other,
            }
        ),
{
    reveal(spec_arg_list_next);
    reveal(spec_word_with_free);
    reveal(spec_arg);
}

/// As many `ArgListNext` as match in a row. It is an error if one of them
/// matches without taking a token.
#[verifier::opaque]
pub closed spec fn spec_many0_arg_list_next(toks: Seq<Token>, pos: nat) -> Outcome
    decreases rest(toks, pos), 61nat,
{
    match spec_arg_list_next(toks, pos) {
        Outcome::Matched(len) => if advanced(toks, pos, len) {
            shifted(spec_many0_arg_list_next(toks, pos + len), len)
        } else {
            Outcome::Error(combinator_at(pos, ErrorKind::Many0))
        },
        Outcome::Error(_) => Outcome::Matched(0),
        Outcome::Failure(report) => Outcome::Failure(report),
    }
}

/// What [`spec_many0_arg_list_next`] says.
pub proof fn lemma_many0_arg_list_next(toks: Seq<Token>, pos: nat)
    ensures
        spec_many0_arg_list_next(toks, pos) == (match spec_arg_list_next(toks, pos) {
            Outcome::Matched(len) => if advanced(toks, pos, len) {
                shifted(spec_many0_arg_list_next(toks, pos + len), len)
            } else {
                Outcome::Error(combinator_at(pos, ErrorKind::Many0))
            },
            Outcome::Error(_) => Outcome::Matched(0),
            Outcome::Failure(report) => Outcome::Failure(report),
        }),
{
    reveal(spec_many0_arg_list_next);
    reveal(spec_arg_list_next);
}

/// ```text
/// TanruUnit1ListNext <- Cei Frees TanruUnit1
/// ```
#[verifier::opaque]
pub closed spec fn spec_tanru_unit_1_list_next(toks: Seq<Token>, pos: nat) -> Outcome
    decreases rest(toks, pos), 65nat,
{
    match spec_word_with_free(toks, pos, Selmaho::Cei) {
        Outcome::Matched(n1) => shifted(spec_tanru_unit_1(toks, pos + n1), n1),
        other => other,
    }
}

/// What [`spec_tanru_unit_1_list_next`] says.
pub proof fn lemma_tanru_unit_1_list_next(toks: Seq<Token>, pos: nat)
    ensures
        spec_tanru_unit_1_list_next(toks, pos) == (
            match spec_word_with_free(toks, pos, Selmaho::Cei) {
                Outcome::Matched(n1) => shifted(spec_tanru_unit_1(toks, pos + n1), n1),
                other => other,
            }
        ),
{
    reveal(spec_tanru_unit_1_list_next);
    reveal(spec_word_with_free);
    reveal(spec_tanru_unit_1);
}

/// As many `TanruUnit1ListNext` as match in a row. It is an error if one of them
/// matches without taking a token.
#[verifier::opaque]
pub closed spec fn spec_many0_tanru_unit_1_list_next(toks: Seq<Token>, pos: nat) -> Outcome
    decreases rest(toks, pos), 66nat,
{
    match spec_tanru_unit_1_list_next(toks, pos) {
        Outcome::Matched(len) => if advanced(toks, pos, len) {
            shifted(spec_many0_tanru_unit_1_list_next(toks, pos + len), len)
        } else {
            Outcome::Error(combinator_at(pos, ErrorKind::Many0))
        },
        Outcome::Error(_) => Outcome::Matched(0),
        Outcome::Failure(report) => Outcome::Failure(report),
    }
}

/// What [`spec_many0_tanru_unit_1_list_next`] says.
pub proof fn lemma_many0_tanru_unit_1_list_next(toks: Seq<Token>, pos: nat)
    ensures
        spec_many0_tanru_unit_1_list_next(
            toks,
            pos,
        ) == (match spec_tanru_unit_1_list_next(toks, pos) {
            Outcome::Matched(len) => if advanced(toks, pos, len) {
                shifted(spec_many0_tanru_unit_1_list_next(toks, pos + len), len)
            } else {
                Outcome::Error(combinator_at(pos, ErrorKind::Many0))
            },
            Outcome::Error(_) => Outcome::Matched(0),
            Outcome::Failure(report) => Outcome::Failure(report),
        }),
{
    reveal(spec_many0_tanru_unit_1_list_next);
    reveal(spec_tanru_unit_1_list_next);
}

/// ```text
/// TanruUnitListNext <- Bo Frees TanruUnit
/// ```
#[verifier::opaque]
pub closed spec fn spec_tanru_unit_list_next(toks: Seq<Token>, pos: nat) -> Outcome
    decreases rest(toks, pos), 69nat,
{
    match spec_word_with_free(toks, pos, Selmaho::Bo) {
        Outcome::Matched(n1) => shifted(spec_tanru_unit(toks, pos + n1), n1),
        other => other,
    }
}

/// What [`spec_tanru_unit_list_next`] says.
pub proof fn lemma_tanru_unit_list_next(toks: Seq<Token>, pos: nat)
    ensures
        spec_tanru_unit_list_next(toks, pos) == (
            match spec_word_with_free(toks, pos, Selmaho::Bo) {
                Outcome::Matched(n1) => shifted(spec_tanru_unit(toks, pos + n1), n1),
                other => other,
            }
        ),
{
    reveal(spec_tanru_unit_list_next);
    reveal(spec_word_with_free);
    reveal(spec_tanru_unit);
}

/// As many `TanruUnitListNext` as match in a row. It is an error if one of them
/// matches without taking a token.
#[verifier::opaque]
pub closed spec fn spec_many0_tanru_unit_list_next(toks: Seq<Token>, pos: nat) -> Outcome
    decreases rest(toks, pos), 70nat,
{
    match spec_tanru_unit_list_next(toks, pos) {
        Outcome::Matched(len) => if advanced(toks, pos, len) {
            shifted(spec_many0_tanru_unit_list_next(toks, pos + len), len)
        } else {
            Outcome::Error(combinator_at(pos, ErrorKind::Many0))
        },
        Outcome::Error(_) => Outcome::Matched(0),
        Outcome::Failure(report) => Outcome::Failure(report),
    }
}

/// What [`spec_many0_tanru_unit_list_next`] says.
pub proof fn lemma_many0_tanru_unit_list_next(toks: Seq<Token>, pos: nat)
    ensures
        spec_many0_tanru_unit_list_next(
            toks,
            pos,
        ) == (match spec_tanru_unit_list_next(toks, pos) {
            Outcome::Matched(len) => if advanced(toks, pos, len) {
                shifted(spec_many0_tanru_unit_list_next(toks, pos + len), len)
            } else {
                Outcome::Error(combinator_at(pos, ErrorKind::Many0))
            },
            Outcome::Error(_) => Outcome::Matched(0),
            Outcome::Failure(report) => Outcome::Failure(report),
        }),
{
    reveal(spec_many0_tanru_unit_list_next);
    reveal(spec_tanru_unit_list_next);
}

/// ```text
/// Selbri5ListNext <- JoikJekBo Selbri5
/// ```
#[verifier::opaque]
pub closed spec fn spec_selbri_5_list_next(toks: Seq<Token>, pos: nat) -> Outcome
    decreases rest(toks, pos), 74nat,
{
    match spec_joik_jek_bo(toks, pos) {
        Outcome::Matched(n1) => shifted(spec_selbri_5(toks, pos + n1), n1),
        other => other,
    }
}

/// What [`spec_selbri_5_list_next`] says.
pub proof fn lemma_selbri_5_list_next(toks: Seq<Token>, pos: nat)
    ensures
        spec_selbri_5_list_next(toks, pos) == (
            match spec_joik_jek_bo(toks, pos) {
                Outcome::Matched(n1) => shifted(spec_selbri_5(toks, pos + n1), n1),
                other => other,
            }
        ),
{
    reveal(spec_selbri_5_list_next);
    reveal(spec_joik_jek_bo);
    reveal(spec_selbri_5);
}

/// As many `Selbri5ListNext` as match in a row. It is an error if one of them
/// matches without taking a token.
#[verifier::opaque]
pub closed spec fn spec_many0_selbri_5_list_next(toks: Seq<Token>, pos: nat) -> Outcome
    decreases rest(toks, pos), 75nat,
{
    match spec_selbri_5_list_next(toks, pos) {
        Outcome::Matched(len) => if advanced(toks, pos, len) {
            shifted(spec_many0_selbri_5_list_next(toks, pos + len), len)
        } else {
            Outcome::Error(combinator_at(pos, ErrorKind::Many0))
        },
        Outcome::Error(_) => Outcome::Matched(0),
        Outcome::Failure(report) => Outcome::Failure(report),
    }
}

/// What [`spec_many0_selbri_5_list_next`] says.
pub proof fn lemma_many0_selbri_5_list_next(toks: Seq<Token>, pos: nat)
    ensures
        spec_many0_selbri_5_list_next(toks, pos) == (match spec_selbri_5_list_next(toks, pos) {
            Outcome::Matched(len) => if advanced(toks, pos, len) {
                shifted(spec_many0_selbri_5_list_next(toks, pos + len), len)
            } else {
                Outcome::Error(combinator_at(pos, ErrorKind::Many0))
            },
            Outcome::Error(_) => Outcome::Matched(0),
            Outcome::Failure(report) => Outcome::Failure(report),
        }),
{
    reveal(spec_many0_selbri_5_list_next);
    reveal(spec_selbri_5_list_next);
}

/// ```text
/// JoikJekBo <- JoikJek TagWords? Bo Frees
/// ```
#[verifier::opaque]
pub closed spec fn spec_joik_jek_bo(toks: Seq<Token>, pos: nat) -> Outcome
    decreases rest(toks, pos), 32nat,
{
    match spec_joik_jek(toks, pos) {
        Outcome::Matched(n1) => match spec_opt(spec_tag_words(toks, pos + n1)) {
            Outcome::Matched(n2) => match spec_word(toks, pos + n1 + n2, Selmaho::Bo) {
                Outcome::Matched(n3) => shifted(
                    spec_frees(toks, pos + n1 + n2 + n3),
                    n1 + n2 + n3,
                ),
                other => other,
            },
            other => other,
        },
        other => other,
    }
}

/// What [`spec_joik_jek_bo`] says.
pub proof fn lemma_joik_jek_bo(toks: Seq<Token>, pos: nat)
    ensures
        spec_joik_jek_bo(toks, pos) == (
            match spec_joik_jek(toks, pos) {
                Outcome::Matched(n1) => match spec_opt(spec_tag_words(toks, pos + n1)) {
                    Outcome::Matched(n2) => match spec_word(toks, pos + n1 + n2, Selmaho::Bo) {
                        Outcome::Matched(n3) => shifted(
                            spec_frees(toks, pos + n1 + n2 + n3),
                            n1 + n2 + n3,
                        ),
                        other => other,
                    },
                    other => other,
                },
                other => other,
            }
        ),
{
    reveal(spec_joik_jek_bo);
    reveal(spec_joik_jek);
    reveal(spec_tag_words);
    reveal(spec_word);
    reveal(spec_frees);
}

/// ```text
/// Selbri3ConnectedPost <- Selbri3ConnectedPostNormal / Selbri3ConnectedPostParenthesized
/// ```
#[verifier::opaque]
pub closed spec fn spec_selbri_3_connected_post(toks: Seq<Token>, pos: nat) -> Outcome
    decreases rest(toks, pos), 79nat,
{
    spec_alt(
        spec_selbri_3_connected_post_normal(toks, pos),
        spec_selbri_3_connected_post_parenthesized(toks, pos),
    )
}

/// What [`spec_selbri_3_connected_post`] says.
pub proof fn lemma_selbri_3_connected_post(toks: Seq<Token>, pos: nat)
    ensures
        spec_selbri_3_connected_post(toks, pos) == (
            spec_alt(
                spec_selbri_3_connected_post_normal(toks, pos),
                spec_selbri_3_connected_post_parenthesized(toks, pos),
            )
        ),
{
    reveal(spec_selbri_3_connected_post);
    reveal(spec_selbri_3_connected_post_normal);
    reveal(spec_selbri_3_connected_post_parenthesized);
}

/// As many `Selbri3ConnectedPost` as match in a row. It is an error if one of them
/// matches without taking a token.
#[verifier::opaque]
pub closed spec fn spec_many0_selbri_3_connected_post(toks: Seq<Token>, pos: nat) -> Outcome
    decreases rest(toks, pos), 80nat,
{
    match spec_selbri_3_connected_post(toks, pos) {
        Outcome::Matched(len) => if advanced(toks, pos, len) {
            shifted(spec_many0_selbri_3_connected_post(toks, pos + len), len)
        } else {
            Outcome::Error(combinator_at(pos, ErrorKind::Many0))
        },
        Outcome::Error(_) => Outcome::Matched(0),
        Outcome::Failure(report) => Outcome::Failure(report),
    }
}

/// What [`spec_many0_selbri_3_connected_post`] says.
pub proof fn lemma_many0_selbri_3_connected_post(toks: Seq<Token>, pos: nat)
    ensures
        spec_many0_selbri_3_connected_post(
            toks,
            pos,
        ) == (match spec_selbri_3_connected_post(toks, pos) {
            Outcome::Matched(len) => if advanced(toks, pos, len) {
                shifted(spec_many0_selbri_3_connected_post(toks, pos + len), len)
            } else {
                Outcome::Error(combinator_at(pos, ErrorKind::Many0))
            },
            Outcome::Error(_) => Outcome::Matched(0),
            Outcome::Failure(report) => Outcome::Failure(report),
        }),
{
    reveal(spec_many0_selbri_3_connected_post);
    reveal(spec_selbri_3_connected_post);
}

/// ```text
/// Selbri3ConnectedPostNormal <- JoikJek Selbri4
/// ```
#[verifier::opaque]
pub closed spec fn spec_selbri_3_connected_post_normal(toks: Seq<Token>, pos: nat) -> Outcome
    decreases rest(toks, pos), 78nat,
{
    match spec_joik_jek(toks, pos) {
        Outcome::Matched(n1) => shifted(spec_selbri_4(toks, pos + n1), n1),
        other => other,
    }
}

/// What [`spec_selbri_3_connected_post_normal`] says.
pub proof fn lemma_selbri_3_connected_post_normal(toks: Seq<Token>, pos: nat)
    ensures
        spec_selbri_3_connected_post_normal(toks, pos) == (
            match spec_joik_jek(toks, pos) {
                Outcome::Matched(n1) => shifted(spec_selbri_4(toks, pos + n1), n1),
                other => other,
            }
        ),
{
    reveal(spec_selbri_3_connected_post_normal);
    reveal(spec_joik_jek);
    reveal(spec_selbri_4);
}

/// ```text
/// Selbri3ConnectedPostParenthesized <- JoikJek TagWords? Ke Frees Selbri2 Kehe? Frees
/// ```
#[verifier::opaque]
pub closed spec fn spec_selbri_3_connected_post_parenthesized(
    toks: Seq<Token>,
    pos: nat,
) -> Outcome
    decreases rest(toks, pos), 32nat,
{
    match spec_joik_jek(toks, pos) {
        Outcome::Matched(n1) => match spec_opt(spec_tag_words(toks, pos + n1)) {
            Outcome::Matched(n2) => match spec_word_with_free(toks, pos + n1 + n2, Selmaho::Ke) {
                Outcome::Matched(n3) => match (if advanced(toks, pos, n1 + n2 + n3) {
                    spec_selbri_2(toks, pos + n1 + n2 + n3)
                } else {
                    stuck(pos)
                }) {
                    Outcome::Matched(n4) => match spec_opt(
                        spec_word(toks, pos + n1 + n2 + n3 + n4, Selmaho::Kehe),
                    ) {
                        Outcome::Matched(n5) => shifted(
                            spec_frees(toks, pos + n1 + n2 + n3 + n4 + n5),
                            n1 + n2 + n3 + n4 + n5,
                        ),
                        other => other,
                    },
                    other => other,
                },
                other => other,
            },
            other => other,
        },
        other => other,
    }
}

/// What [`spec_selbri_3_connected_post_parenthesized`] says.
pub proof fn lemma_selbri_3_connected_post_parenthesized(toks: Seq<Token>, pos: nat)
    ensures
        spec_selbri_3_connected_post_parenthesized(toks, pos) == (
            match spec_joik_jek(toks, pos) {
                Outcome::Matched(n1) => match spec_opt(spec_tag_words(toks, pos + n1)) {
                    Outcome::Matched(n2) => match spec_word_with_free(
                        toks,
                        pos + n1 + n2,
                        Selmaho::Ke,
                    ) {
                        Outcome::Matched(n3) => match (if advanced(toks, pos, n1 + n2 + n3) {
                            spec_selbri_2(toks, pos + n1 + n2 + n3)
                        } else {
                            stuck(pos)
                        }) {
                            Outcome::Matched(n4) => match spec_opt(
                                spec_word(toks, pos + n1 + n2 + n3 + n4, Selmaho::Kehe),
                            ) {
                                Outcome::Matched(n5) => shifted(
                                    spec_frees(toks, pos + n1 + n2 + n3 + n4 + n5),
                                    n1 + n2 + n3 + n4 + n5,
                                ),
                                other => other,
                            },
                            other => other,
                        },
                        other => other,
                    },
                    other => other,
                },
                other => other,
            }
        ),
{
    reveal(spec_selbri_3_connected_post_parenthesized);
    reveal(spec_joik_jek);
    reveal(spec_tag_words);
    reveal(spec_word_with_free);
    reveal(spec_selbri_2);
    reveal(spec_word);
    reveal(spec_frees);
}

/// ```text
/// Selbri2ListNext <- Co Frees Selbri2
/// ```
#[verifier::opaque]
pub closed spec fn spec_selbri_2_list_next(toks: Seq<Token>, pos: nat) -> Outcome
    decreases rest(toks, pos), 84nat,
{
    match spec_word_with_free(toks, pos, Selmaho::Co) {
        Outcome::Matched(n1) => shifted(spec_selbri_2(toks, pos + n1), n1),
        other => other,
    }
}

/// What [`spec_selbri_2_list_next`] says.
pub proof fn lemma_selbri_2_list_next(toks: Seq<Token>, pos: nat)
    ensures
        spec_selbri_2_list_next(toks, pos) == (
            match spec_word_with_free(toks, pos, Selmaho::Co) {
                Outcome::Matched(n1) => shifted(spec_selbri_2(toks, pos + n1), n1),
                other => other,
            }
        ),
{
    reveal(spec_selbri_2_list_next);
    reveal(spec_word_with_free);
    reveal(spec_selbri_2);
}

/// As many `Selbri2ListNext` as match in a row. It is an error if one of them
/// matches without taking a token.
#[verifier::opaque]
pub closed spec fn spec_many0_selbri_2_list_next(toks: Seq<Token>, pos: nat) -> Outcome
    decreases rest(toks, pos), 85nat,
{
    match spec_selbri_2_list_next(toks, pos) {
        Outcome::Matched(len) => if advanced(toks, pos, len) {
            shifted(spec_many0_selbri_2_list_next(toks, pos + len), len)
        } else {
            Outcome::Error(combinator_at(pos, ErrorKind::Many0))
        },
        Outcome::Error(_) => Outcome::Matched(0),
        Outcome::Failure(report) => Outcome::Failure(report),
    }
}

/// What [`spec_many0_selbri_2_list_next`] says.
pub proof fn lemma_many0_selbri_2_list_next(toks: Seq<Token>, pos: nat)
    ensures
        spec_many0_selbri_2_list_next(toks, pos) == (match spec_selbri_2_list_next(toks, pos) {
            Outcome::Matched(len) => if advanced(toks, pos, len) {
                shifted(spec_many0_selbri_2_list_next(toks, pos + len), len)
            } else {
                Outcome::Error(combinator_at(pos, ErrorKind::Many0))
            },
            Outcome::Error(_) => Outcome::Matched(0),
            Outcome::Failure(report) => Outcome::Failure(report),
        }),
{
    reveal(spec_many0_selbri_2_list_next);
    reveal(spec_selbri_2_list_next);
}

/// ```text
/// TagWordsNext <- JoikJek TagWord
/// ```
#[verifier::opaque]
pub closed spec fn spec_tag_words_next(toks: Seq<Token>, pos: nat) -> Outcome
    decreases rest(toks, pos), 29nat,
{
    match spec_joik_jek(toks, pos) {
        Outcome::Matched(n1) => shifted(spec_tag_word(toks, pos + n1), n1),
        other => other,
    }
}

/// What [`spec_tag_words_next`] says.
pub proof fn lemma_tag_words_next(toks: Seq<Token>, pos: nat)
    ensures
        spec_tag_words_next(toks, pos) == (
            match spec_joik_jek(toks, pos) {
                Outcome::Matched(n1) => shifted(spec_tag_word(toks, pos + n1), n1),
                other => other,
            }
        ),
{
    reveal(spec_tag_words_next);
    reveal(spec_joik_jek);
    reveal(spec_tag_word);
}

/// As many `TagWordsNext` as match in a row. It is an error if one of them
/// matches without taking a token.
#[verifier::opaque]
pub closed spec fn spec_many0_tag_words_next(toks: Seq<Token>, pos: nat) -> Outcome
    decreases rest(toks, pos), 30nat,
{
    match spec_tag_words_next(toks, pos) {
        Outcome::Matched(len) => if advanced(toks, pos, len) {
            shifted(spec_many0_tag_words_next(toks, pos + len), len)
        } else {
            Outcome::Error(combinator_at(pos, ErrorKind::Many0))
        },
        Outcome::Error(_) => Outcome::Matched(0),
        Outcome::Failure(report) => Outcome::Failure(report),
    }
}

/// What [`spec_many0_tag_words_next`] says.
pub proof fn lemma_many0_tag_words_next(toks: Seq<Token>, pos: nat)
    ensures
        spec_many0_tag_words_next(toks, pos) == (match spec_tag_words_next(toks, pos) {
            Outcome::Matched(len) => if advanced(toks, pos, len) {
                shifted(spec_many0_tag_words_next(toks, pos + len), len)
            } else {
                Outcome::Error(combinator_at(pos, ErrorKind::Many0))
            },
            Outcome::Error(_) => Outcome::Matched(0),
            Outcome::Failure(report) => Outcome::Failure(report),
        }),
{
    reveal(spec_many0_tag_words_next);
    reveal(spec_tag_words_next);
}

/// ```text
/// TagValue <- TagValueKu / TagValueSumti
/// ```
#[verifier::opaque]
pub closed spec fn spec_tag_value(toks: Seq<Token>, pos: nat) -> Outcome
    decreases rest(toks, pos), 46nat,
{
    spec_alt(spec_tag_value_ku(toks, pos), spec_tag_value_sumti(toks, pos))
}

/// What [`spec_tag_value`] says.
pub proof fn lemma_tag_value(toks: Seq<Token>, pos: nat)
    ensures
        spec_tag_value(toks, pos) == (
            spec_alt(spec_tag_value_ku(toks, pos), spec_tag_value_sumti(toks, pos))
        ),
{
    reveal(spec_tag_value);
    reveal(spec_tag_value_ku);
    reveal(spec_tag_value_sumti);
}

/// ```text
/// TagValueKu <- Ku Frees
/// ```
#[verifier::opaque]
pub closed spec fn spec_tag_value_ku(toks: Seq<Token>, pos: nat) -> Outcome
    decreases rest(toks, pos), 4nat,
{
    spec_word_with_free(toks, pos, Selmaho::Ku)
}

/// What [`spec_tag_value_ku`] says.
pub proof fn lemma_tag_value_ku(toks: Seq<Token>, pos: nat)
    ensures
        spec_tag_value_ku(toks, pos) == (
            spec_word_with_free(toks, pos, Selmaho::Ku)
        ),
{
    reveal(spec_tag_value_ku);
    reveal(spec_word_with_free);
}

/// ```text
/// TagValueSumti <- Sumti
/// ```
#[verifier::opaque]
pub closed spec fn spec_tag_value_sumti(toks: Seq<Token>, pos: nat) -> Outcome
    decreases rest(toks, pos), 45nat,
{
    spec_sumti(toks, pos)
}

/// What [`spec_tag_value_sumti`] says.
pub proof fn lemma_tag_value_sumti(toks: Seq<Token>, pos: nat)
    ensures
        spec_tag_value_sumti(toks, pos) == (
            spec_sumti(toks, pos)
        ),
{
    reveal(spec_tag_value_sumti);
    reveal(spec_sumti);
}

/// ```text
/// Arg3Sumti <- Fa Frees? Sumti
/// ```
#[verifier::opaque]
pub closed spec fn spec_arg_3_sumti(toks: Seq<Token>, pos: nat) -> Outcome
    decreases rest(toks, pos), 45nat,
{
    match spec_opt(spec_word_with_free(toks, pos, Selmaho::Fa)) {
        Outcome::Matched(n1) => shifted(spec_sumti(toks, pos + n1), n1),
        other => other,
    }
}

/// What [`spec_arg_3_sumti`] says.
pub proof fn lemma_arg_3_sumti(toks: Seq<Token>, pos: nat)
    ensures
        spec_arg_3_sumti(toks, pos) == (
            match spec_opt(spec_word_with_free(toks, pos, Selmaho::Fa)) {
                Outcome::Matched(n1) => shifted(spec_sumti(toks, pos + n1), n1),
                other => other,
            }
        ),
{
    reveal(spec_arg_3_sumti);
    reveal(spec_word_with_free);
    reveal(spec_sumti);
}

/// ```text
/// Arg3Naku <- Na Ku Frees
/// ```
#[verifier::opaque]
pub closed spec fn spec_arg_3_naku(toks: Seq<Token>, pos: nat) -> Outcome
    decreases rest(toks, pos), 25nat,
{
    match spec_word(toks, pos, Selmaho::Na) {
        Outcome::Matched(n1) => match spec_word(toks, pos + n1, Selmaho::Ku) {
            Outcome::Matched(n2) => shifted(spec_frees(toks, pos + n1 + n2), n1 + n2),
            other => other,
        },
        other => other,
    }
}

/// What [`spec_arg_3_naku`] says.
pub proof fn lemma_arg_3_naku(toks: Seq<Token>, pos: nat)
    ensures
        spec_arg_3_naku(toks, pos) == (
            match spec_word(toks, pos, Selmaho::Na) {
                Outcome::Matched(n1) => match spec_word(toks, pos + n1, Selmaho::Ku) {
                    Outcome::Matched(n2) => shifted(spec_frees(toks, pos + n1 + n2), n1 + n2),
                    other => other,
                },
                other => other,
            }
        ),
{
    reveal(spec_arg_3_naku);
    reveal(spec_word);
    reveal(spec_frees);
}

/// ```text
/// Arg3Termset <- Termset
/// ```
#[verifier::opaque]
pub closed spec fn spec_arg_3_termset(toks: Seq<Token>, pos: nat) -> Outcome
    decreases rest(toks, pos), 36nat,
{
    spec_termset(toks, pos)
}

/// What [`spec_arg_3_termset`] says.
pub proof fn lemma_arg_3_termset(toks: Seq<Token>, pos: nat)
    ensures
        spec_arg_3_termset(toks, pos) == (
            spec_termset(toks, pos)
        ),
{
    reveal(spec_arg_3_termset);
    reveal(spec_termset);
}

/// ```text
/// Termset <- TermsetGek / TermsetNuhiGi / TermsetNuhi
/// ```
#[verifier::opaque]
pub closed spec fn spec_termset(toks: Seq<Token>, pos: nat) -> Outcome
    decreases rest(toks, pos), 35nat,
{
    spec_alt(
        spec_alt(spec_termset_gek(toks, pos), spec_termset_nuhi_gi(toks, pos)),
        spec_termset_nuhi(toks, pos),
    )
}

/// What [`spec_termset`] says.
pub proof fn lemma_termset(toks: Seq<Token>, pos: nat)
    ensures
        spec_termset(toks, pos) == (
            spec_alt(
                spec_alt(spec_termset_gek(toks, pos), spec_termset_nuhi_gi(toks, pos)),
                spec_termset_nuhi(toks, pos),
            )
        ),
{
    reveal(spec_termset);
    reveal(spec_termset_gek);
    reveal(spec_termset_nuhi_gi);
    reveal(spec_termset_nuhi);
}

/// ```text
/// TermsetGek <- Gek Args Gik Args
/// ```
#[verifier::opaque]
pub closed spec fn spec_termset_gek(toks: Seq<Token>, pos: nat) -> Outcome
    decreases rest(toks, pos), 34nat,
{
    match spec_gek(toks, pos) {
        Outcome::Matched(n1) => match (if advanced(toks, pos, n1) {
            spec_args(toks, pos + n1)
        } else {
            stuck(pos)
        }) {
            Outcome::Matched(n2) => match spec_gik(toks, pos + n1 + n2) {
                Outcome::Matched(n3) => shifted(
                    if advanced(toks, pos, n1 + n2 + n3) {
                        spec_args(toks, pos + n1 + n2 + n3)
                    } else {
                        stuck(pos)
                    },
                    n1 + n2 + n3,
                ),
                other => other,
            },
            other => other,
        },
        other => other,
    }
}

/// What [`spec_termset_gek`] says.
pub proof fn lemma_termset_gek(toks: Seq<Token>, pos: nat)
    ensures
        spec_termset_gek(toks, pos) == (
            match spec_gek(toks, pos) {
                Outcome::Matched(n1) => match (if advanced(toks, pos, n1) {
                    spec_args(toks, pos + n1)
                } else {
                    stuck(pos)
                }) {
                    Outcome::Matched(n2) => match spec_gik(toks, pos + n1 + n2) {
                        Outcome::Matched(n3) => shifted(
                            if advanced(toks, pos, n1 + n2 + n3) {
                                spec_args(toks, pos + n1 + n2 + n3)
                            } else {
                                stuck(pos)
                            },
                            n1 + n2 + n3,
                        ),
                        other => other,
                    },
                    other => other,
                },
                other => other,
            }
        ),
{
    reveal(spec_termset_gek);
    reveal(spec_gek);
    reveal(spec_args);
    reveal(spec_gik);
}

/// ```text
/// TermsetNuhiGi <- Nuhi Frees Gek Args Nuhu? Frees Gik Args Nuhu? Frees
/// ```
#[verifier::opaque]
pub closed spec fn spec_termset_nuhi_gi(toks: Seq<Token>, pos: nat) -> Outcome
    decreases rest(toks, pos), 34nat,
{
    match spec_word_with_free(toks, pos, Selmaho::Nuhi) {
        Outcome::Matched(n1) => match spec_gek(toks, pos + n1) {
            Outcome::Matched(n2) => match (if advanced(toks, pos, n1 + n2) {
                spec_args(toks, pos + n1 + n2)
            } else {
                stuck(pos)
            }) {
                Outcome::Matched(n3) => match spec_opt(
                    spec_word(toks, pos + n1 + n2 + n3, Selmaho::Nuhu),
                ) {
                    Outcome::Matched(n4) => match spec_frees(toks, pos + n1 + n2 + n3 + n4) {
                        Outcome::Matched(n5) => match spec_gik(
                            toks,
                            pos + n1 + n2 + n3 + n4 + n5,
                        ) {
                            Outcome::Matched(n6) => match (if advanced(
                                toks,
                                pos,
                                n1 + n2 + n3 + n4 + n5 + n6,
                            ) {
                                spec_args(toks, pos + n1 + n2 + n3 + n4 + n5 + n6)
                            } else {
                                stuck(pos)
                            }) {
                                Outcome::Matched(n7) => match spec_opt(
                                    spec_word(
                                        toks,
                                        pos + n1 + n2 + n3 + n4 + n5 + n6 + n7,
                                        Selmaho::Nuhu,
                                    ),
                                ) {
                                    Outcome::Matched(n8) => shifted(
                                        spec_frees(
                                            toks,
                                            pos + n1 + n2 + n3 + n4 + n5 + n6 + n7 + n8,
                                        ),
                                        n1 + n2 + n3 + n4 + n5 + n6 + n7 + n8,
                                    ),
                                    other => other,
                                },
                                other => other,
                            },
                            other => other,
                        },
                        other => other,
                    },
                    other => other,
                },
                other => other,
            },
            other => other,
        },
        other => other,
    }
}

/// What [`spec_termset_nuhi_gi`] says.
pub proof fn lemma_termset_nuhi_gi(toks: Seq<Token>, pos: nat)
    ensures
        spec_termset_nuhi_gi(toks, pos) == (
            match spec_word_with_free(toks, pos, Selmaho::Nuhi) {
                Outcome::Matched(n1) => match spec_gek(toks, pos + n1) {
                    Outcome::Matched(n2) => match (if advanced(toks, pos, n1 + n2) {
                        spec_args(toks, pos + n1 + n2)
                    } else {
                        stuck(pos)
                    }) {
                        Outcome::Matched(n3) => match spec_opt(
                            spec_word(toks, pos + n1 + n2 + n3, Selmaho::Nuhu),
                        ) {
                            Outcome::Matched(n4) => match spec_frees(
                                toks,
                                pos + n1 + n2 + n3 + n4,
                            ) {
                                Outcome::Matched(n5) => match spec_gik(
                                    toks,
                                    pos + n1 + n2 + n3 + n4 + n5,
                                ) {
                                    Outcome::Matched(n6) => match (if advanced(
                                        toks,
                                        pos,
                                        n1 + n2 + n3 + n4 + n5 + n6,
                                    ) {
                                        spec_args(toks, pos + n1 + n2 + n3 + n4 + n5 + n6)
                                    } else {
                                        stuck(pos)
                                    }) {
                                        Outcome::Matched(n7) => match spec_opt(
                                            spec_word(
                                                toks,
                                                pos + n1 + n2 + n3 + n4 + n5 + n6 + n7,
                                                Selmaho::Nuhu,
                                            ),
                                        ) {
                                            Outcome::Matched(n8) => shifted(
                                                spec_frees(
                                                    toks,
                                                    pos + n1 + n2 + n3 + n4 + n5 + n6 + n7 + n8,
                                                ),
                                                n1 + n2 + n3 + n4 + n5 + n6 + n7 + n8,
                                            ),
                                            other => other,
                                        },
                                        other => other,
                                    },
                                    other => other,
                                },
                                other => other,
                            },
                            other => other,
                        },
                        other => other,
                    },
                    other => other,
                },
                other => other,
            }
        ),
{
    reveal(spec_termset_nuhi_gi);
    reveal(spec_word_with_free);
    reveal(spec_gek);
    reveal(spec_args);
    reveal(spec_word);
    reveal(spec_frees);
    reveal(spec_gik);
}

/// ```text
/// TermsetNuhi <- Nuhi Frees Args Nuhu? Frees
/// ```
#[verifier::opaque]
pub closed spec fn spec_termset_nuhi(toks: Seq<Token>, pos: nat) -> Outcome
    decreases rest(toks, pos), 25nat,
{
    match spec_word_with_free(toks, pos, Selmaho::Nuhi) {
        Outcome::Matched(n1) => match (if advanced(toks, pos, n1) {
            spec_args(toks, pos + n1)
        } else {
            stuck(pos)
        }) {
            Outcome::Matched(n2) => match spec_opt(
                spec_word(toks, pos + n1 + n2, Selmaho::Nuhu),
            ) {
                Outcome::Matched(n3) => shifted(
                    spec_frees(toks, pos + n1 + n2 + n3),
                    n1 + n2 + n3,
                ),
                other => other,
            },
            other => other,
        },
        other => other,
    }
}

/// What [`spec_termset_nuhi`] says.
pub proof fn lemma_termset_nuhi(toks: Seq<Token>, pos: nat)
    ensures
        spec_termset_nuhi(toks, pos) == (
            match spec_word_with_free(toks, pos, Selmaho::Nuhi) {
                Outcome::Matched(n1) => match (if advanced(toks, pos, n1) {
                    spec_args(toks, pos + n1)
                } else {
                    stuck(pos)
                }) {
                    Outcome::Matched(n2) => match spec_opt(
                        spec_word(toks, pos + n1 + n2, Selmaho::Nuhu),
                    ) {
                        Outcome::Matched(n3) => shifted(
                            spec_frees(toks, pos + n1 + n2 + n3),
                            n1 + n2 + n3,
                        ),
                        other => other,
                    },
                    other => other,
                },
                other => other,
            }
        ),
{
    reveal(spec_termset_nuhi);
    reveal(spec_word_with_free);
    reveal(spec_args);
    reveal(spec_word);
    reveal(spec_frees);
}

/// ```text
/// Arg2Next <- Cehe Frees Arg3
/// ```
#[verifier::opaque]
pub closed spec fn spec_arg_2_next(toks: Seq<Token>, pos: nat) -> Outcome
    decreases rest(toks, pos), 50nat,
{
    match spec_word_with_free(toks, pos, Selmaho::Cehe) {
        Outcome::Matched(n1) => shifted(spec_arg_3(toks, pos + n1), n1),
        other => other,
    }
}

/// What [`spec_arg_2_next`] says.
pub proof fn lemma_arg_2_next(toks: Seq<Token>, pos: nat)
    ensures
        spec_arg_2_next(toks, pos) == (
            match spec_word_with_free(toks, pos, Selmaho::Cehe) {
                Outcome::Matched(n1) => shifted(spec_arg_3(toks, pos + n1), n1),
                other => other,
            }
        ),
{
    reveal(spec_arg_2_next);
    reveal(spec_word_with_free);
    reveal(spec_arg_3);
}

/// As many `Arg2Next` as match in a row. It is an error if one of them
/// matches without taking a token.
#[verifier::opaque]
pub closed spec fn spec_many0_arg_2_next(toks: Seq<Token>, pos: nat) -> Outcome
    decreases rest(toks, pos), 51nat,
{
    match spec_arg_2_next(toks, pos) {
        Outcome::Matched(len) => if advanced(toks, pos, len) {
            shifted(spec_many0_arg_2_next(toks, pos + len), len)
        } else {
            Outcome::Error(combinator_at(pos, ErrorKind::Many0))
        },
        Outcome::Error(_) => Outcome::Matched(0),
        Outcome::Failure(report) => Outcome::Failure(report),
    }
}

/// What [`spec_many0_arg_2_next`] says.
pub proof fn lemma_many0_arg_2_next(toks: Seq<Token>, pos: nat)
    ensures
        spec_many0_arg_2_next(toks, pos) == (match spec_arg_2_next(toks, pos) {
            Outcome::Matched(len) => if advanced(toks, pos, len) {
                shifted(spec_many0_arg_2_next(toks, pos + len), len)
            } else {
                Outcome::Error(combinator_at(pos, ErrorKind::Many0))
            },
            Outcome::Error(_) => Outcome::Matched(0),
            Outcome::Failure(report) => Outcome::Failure(report),
        }),
{
    reveal(spec_many0_arg_2_next);
    reveal(spec_arg_2_next);
}

/// ```text
/// Arg1Next <- PeheConnective Arg2
/// ```
#[verifier::opaque]
pub closed spec fn spec_arg_1_next(toks: Seq<Token>, pos: nat) -> Outcome
    decreases rest(toks, pos), 53nat,
{
    match spec_pehe_connective(toks, pos) {
        Outcome::Matched(n1) => shifted(spec_arg_2(toks, pos + n1), n1),
        other => other,
    }
}

/// What [`spec_arg_1_next`] says.
pub proof fn lemma_arg_1_next(toks: Seq<Token>, pos: nat)
    ensures
        spec_arg_1_next(toks, pos) == (
            match spec_pehe_connective(toks, pos) {
                Outcome::Matched(n1) => shifted(spec_arg_2(toks, pos + n1), n1),
                other => other,
            }
        ),
{
    reveal(spec_arg_1_next);
    reveal(spec_pehe_connective);
    reveal(spec_arg_2);
}

/// As many `Arg1Next` as match in a row. It is an error if one of them
/// matches without taking a token.
#[verifier::opaque]
pub closed spec fn spec_many0_arg_1_next(toks: Seq<Token>, pos: nat) -> Outcome
    decreases rest(toks, pos), 54nat,
{
    match spec_arg_1_next(toks, pos) {
        Outcome::Matched(len) => if advanced(toks, pos, len) {
            shifted(spec_many0_arg_1_next(toks, pos + len), len)
        } else {
            Outcome::Error(combinator_at(pos, ErrorKind::Many0))
        },
        Outcome::Error(_) => Outcome::Matched(0),
        Outcome::Failure(report) => Outcome::Failure(report),
    }
}

/// What [`spec_many0_arg_1_next`] says.
pub proof fn lemma_many0_arg_1_next(toks: Seq<Token>, pos: nat)
    ensures
        spec_many0_arg_1_next(toks, pos) == (match spec_arg_1_next(toks, pos) {
            Outcome::Matched(len) => if advanced(toks, pos, len) {
                shifted(spec_many0_arg_1_next(toks, pos + len), len)
            } else {
                Outcome::Error(combinator_at(pos, ErrorKind::Many0))
            },
            Outcome::Error(_) => Outcome::Matched(0),
            Outcome::Failure(report) => Outcome::Failure(report),
        }),
{
    reveal(spec_many0_arg_1_next);
    reveal(spec_arg_1_next);
}

/// ```text
/// PeheConnective <- Pehe Frees JoikJek
/// ```
#[verifier::opaque]
pub closed spec fn spec_pehe_connective(toks: Seq<Token>, pos: nat) -> Outcome
    decreases rest(toks, pos), 8nat,
{
    match spec_word_with_free(toks, pos, Selmaho::Pehe) {
        Outcome::Matched(n1) => shifted(spec_joik_jek(toks, pos + n1), n1),
        other => other,
    }
}

/// What [`spec_pehe_connective`] says.
pub proof fn lemma_pehe_connective(toks: Seq<Token>, pos: nat)
    ensures
        spec_pehe_connective(toks, pos) == (
            match spec_word_with_free(toks, pos, Selmaho::Pehe) {
                Outcome::Matched(n1) => shifted(spec_joik_jek(toks, pos + n1), n1),
                other => other,
            }
        ),
{
    reveal(spec_pehe_connective);
    reveal(spec_word_with_free);
    reveal(spec_joik_jek);
}

/// ```text
/// ArgConnectedPost <- ArgConnectedPostNormal / ArgConnectedPostGrouped
/// ```
#[verifier::opaque]
pub closed spec fn spec_arg_connected_post(toks: Seq<Token>, pos: nat) -> Outcome
    decreases rest(toks, pos), 57nat,
{
    spec_alt(
        spec_arg_connected_post_normal(toks, pos),
        spec_arg_connected_post_grouped(toks, pos),
    )
}

/// What [`spec_arg_connected_post`] says.
pub proof fn lemma_arg_connected_post(toks: Seq<Token>, pos: nat)
    ensures
        spec_arg_connected_post(toks, pos) == (
            spec_alt(
                spec_arg_connected_post_normal(toks, pos),
                spec_arg_connected_post_grouped(toks, pos),
            )
        ),
{
    reveal(spec_arg_connected_post);
    reveal(spec_arg_connected_post_normal);
    reveal(spec_arg_connected_post_grouped);
}

/// As many `ArgConnectedPost` as match in a row. It is an error if one of them
/// matches without taking a token.
#[verifier::opaque]
pub closed spec fn spec_many0_arg_connected_post(toks: Seq<Token>, pos: nat) -> Outcome
    decreases rest(toks, pos), 58nat,
{
    match spec_arg_connected_post(toks, pos) {
        Outcome::Matched(len) => if advanced(toks, pos, len) {
            shifted(spec_many0_arg_connected_post(toks, pos + len), len)
        } else {
            Outcome::Error(combinator_at(pos, ErrorKind::Many0))
        },
        Outcome::Error(_) => Outcome::Matched(0),
        Outcome::Failure(report) => Outcome::Failure(report),
    }
}

/// What [`spec_many0_arg_connected_post`] says.
pub proof fn lemma_many0_arg_connected_post(toks: Seq<Token>, pos: nat)
    ensures
        spec_many0_arg_connected_post(toks, pos) == (match spec_arg_connected_post(toks, pos) {
            Outcome::Matched(len) => if advanced(toks, pos, len) {
                shifted(spec_many0_arg_connected_post(toks, pos + len), len)
            } else {
                Outcome::Error(combinator_at(pos, ErrorKind::Many0))
            },
            Outcome::Error(_) => Outcome::Matched(0),
            Outcome::Failure(report) => Outcome::Failure(report),
        }),
{
    reveal(spec_many0_arg_connected_post);
    reveal(spec_arg_connected_post);
}

/// ```text
/// ArgConnectedPostNormal <- JoikEk Arg1
/// ```
#[verifier::opaque]
pub closed spec fn spec_arg_connected_post_normal(toks: Seq<Token>, pos: nat) -> Outcome
    decreases rest(toks, pos), 56nat,
{
    match spec_joik_ek(toks, pos) {
        Outcome::Matched(n1) => shifted(spec_arg_1(toks, pos + n1), n1),
        other => other,
    }
}

/// What [`spec_arg_connected_post_normal`] says.
pub proof fn lemma_arg_connected_post_normal(toks: Seq<Token>, pos: nat)
    ensures
        spec_arg_connected_post_normal(toks, pos) == (
            match spec_joik_ek(toks, pos) {
                Outcome::Matched(n1) => shifted(spec_arg_1(toks, pos + n1), n1),
                other => other,
            }
        ),
{
    reveal(spec_arg_connected_post_normal);
    reveal(spec_joik_ek);
    reveal(spec_arg_1);
}

/// ```text
/// ArgConnectedPostGrouped <- JoikEk TagWords? Ke Frees Arg Kehe? Frees
/// ```
#[verifier::opaque]
pub closed spec fn spec_arg_connected_post_grouped(toks: Seq<Token>, pos: nat) -> Outcome
    decreases rest(toks, pos), 32nat,
{
    match spec_joik_ek(toks, pos) {
        Outcome::Matched(n1) => match spec_opt(spec_tag_words(toks, pos + n1)) {
            Outcome::Matched(n2) => match spec_word_with_free(toks, pos + n1 + n2, Selmaho::Ke) {
                Outcome::Matched(n3) => match (if advanced(toks, pos, n1 + n2 + n3) {
                    spec_arg(toks, pos + n1 + n2 + n3)
                } else {
                    stuck(pos)
                }) {
                    Outcome::Matched(n4) => match spec_opt(
                        spec_word(toks, pos + n1 + n2 + n3 + n4, Selmaho::Kehe),
                    ) {
                        Outcome::Matched(n5) => shifted(
                            spec_frees(toks, pos + n1 + n2 + n3 + n4 + n5),
                            n1 + n2 + n3 + n4 + n5,
                        ),
                        other => other,
                    },
                    other => other,
                },
                other => other,
            },
            other => other,
        },
        other => other,
    }
}

/// What [`spec_arg_connected_post_grouped`] says.
pub proof fn lemma_arg_connected_post_grouped(toks: Seq<Token>, pos: nat)
    ensures
        spec_arg_connected_post_grouped(toks, pos) == (
            match spec_joik_ek(toks, pos) {
                Outcome::Matched(n1) => match spec_opt(spec_tag_words(toks, pos + n1)) {
                    Outcome::Matched(n2) => match spec_word_with_free(
                        toks,
                        pos + n1 + n2,
                        Selmaho::Ke,
                    ) {
                        Outcome::Matched(n3) => match (if advanced(toks, pos, n1 + n2 + n3) {
                            spec_arg(toks, pos + n1 + n2 + n3)
                        } else {
                            stuck(pos)
                        }) {
                            Outcome::Matched(n4) => match spec_opt(
                                spec_word(toks, pos + n1 + n2 + n3 + n4, Selmaho::Kehe),
                            ) {
                                Outcome::Matched(n5) => shifted(
                                    spec_frees(toks, pos + n1 + n2 + n3 + n4 + n5),
                                    n1 + n2 + n3 + n4 + n5,
                                ),
                                other => other,
                            },
                            other => other,
                        },
                        other => other,
                    },
                    other => other,
                },
                other => other,
            }
        ),
{
    reveal(spec_arg_connected_post_grouped);
    reveal(spec_joik_ek);
    reveal(spec_tag_words);
    reveal(spec_word_with_free);
    reveal(spec_arg);
    reveal(spec_word);
    reveal(spec_frees);
}

/// ```text
/// SeiTail <- Cu? Frees Selbri
/// ```
#[verifier::opaque]
pub closed spec fn spec_sei_tail(toks: Seq<Token>, pos: nat) -> Outcome
    decreases rest(toks, pos), 89nat,
{
    match spec_opt(spec_word(toks, pos, Selmaho::Cu)) {
        Outcome::Matched(n1) => match spec_frees(toks, pos + n1) {
            Outcome::Matched(n2) => shifted(spec_selbri(toks, pos + n1 + n2), n1 + n2),
            other => other,
        },
        other => other,
    }
}

/// What [`spec_sei_tail`] says.
pub proof fn lemma_sei_tail(toks: Seq<Token>, pos: nat)
    ensures
        spec_sei_tail(toks, pos) == (
            match spec_opt(spec_word(toks, pos, Selmaho::Cu)) {
                Outcome::Matched(n1) => match spec_frees(toks, pos + n1) {
                    Outcome::Matched(n2) => shifted(spec_selbri(toks, pos + n1 + n2), n1 + n2),
                    other => other,
                },
                other => other,
            }
        ),
{
    reveal(spec_sei_tail);
    reveal(spec_word);
    reveal(spec_frees);
    reveal(spec_selbri);
}

/// ```text
/// FreeSoi <- Soi Frees SoiArguments Sehu?
/// ```
#[verifier::opaque]
pub closed spec fn spec_free_soi(toks: Seq<Token>, pos: nat) -> Outcome
    decreases rest(toks, pos), 4nat,
{
    match spec_word_with_free(toks, pos, Selmaho::Soi) {
        Outcome::Matched(n1) => match (if advanced(toks, pos, n1) {
            spec_soi_arguments(toks, pos + n1)
        } else {
            stuck(pos)
        }) {
            Outcome::Matched(n2) => shifted(
                spec_opt(spec_word(toks, pos + n1 + n2, Selmaho::Sehu)),
                n1 + n2,
            ),
            other => other,
        },
        other => other,
    }
}

/// What [`spec_free_soi`] says.
pub proof fn lemma_free_soi(toks: Seq<Token>, pos: nat)
    ensures
        spec_free_soi(toks, pos) == (
            match spec_word_with_free(toks, pos, Selmaho::Soi) {
                Outcome::Matched(n1) => match (if advanced(toks, pos, n1) {
                    spec_soi_arguments(toks, pos + n1)
                } else {
                    stuck(pos)
                }) {
                    Outcome::Matched(n2) => shifted(
                        spec_opt(spec_word(toks, pos + n1 + n2, Selmaho::Sehu)),
                        n1 + n2,
                    ),
                    other => other,
                },
                other => other,
            }
        ),
{
    reveal(spec_free_soi);
    reveal(spec_word_with_free);
    reveal(spec_soi_arguments);
    reveal(spec_word);
}

/// ```text
/// SoiArguments <- Sumti Sumti?
/// ```
#[verifier::opaque]
pub closed spec fn spec_soi_arguments(toks: Seq<Token>, pos: nat) -> Outcome
    decreases rest(toks, pos), 45nat,
{
    match spec_sumti(toks, pos) {
        Outcome::Matched(n1) => shifted(spec_opt(spec_sumti(toks, pos + n1)), n1),
        other => other,
    }
}

/// What [`spec_soi_arguments`] says.
pub proof fn lemma_soi_arguments(toks: Seq<Token>, pos: nat)
    ensures
        spec_soi_arguments(toks, pos) == (
            match spec_sumti(toks, pos) {
                Outcome::Matched(n1) => shifted(spec_opt(spec_sumti(toks, pos + n1)), n1),
                other => other,
            }
        ),
{
    reveal(spec_soi_arguments);
    reveal(spec_sumti);
}

/// ```text
/// FreeVocative <- Vocative
/// ```
#[verifier::opaque]
pub closed spec fn spec_free_vocative(toks: Seq<Token>, pos: nat) -> Outcome
    decreases rest(toks, pos), 12nat,
{
    spec_vocative(toks, pos)
}

/// What [`spec_free_vocative`] says.
pub proof fn lemma_free_vocative(toks: Seq<Token>, pos: nat)
    ensures
        spec_free_vocative(toks, pos) == (
            spec_vocative(toks, pos)
        ),
{
    reveal(spec_free_vocative);
    reveal(spec_vocative);
}

/// ```text
/// Vocative <- VocativeWords RelativeClauses? VocativeValue RelativeClauses? Dohu?
/// ```
#[verifier::opaque]
pub closed spec fn spec_vocative(toks: Seq<Token>, pos: nat) -> Outcome
    decreases rest(toks, pos), 11nat,
{
    match spec_vocative_words(toks, pos) {
        Outcome::Matched(n1) => match spec_opt(spec_relative_clauses(toks, pos + n1)) {
            Outcome::Matched(n2) => match (if advanced(toks, pos, n1 + n2) {
                spec_vocative_value(toks, pos + n1 + n2)
            } else {
                stuck(pos)
            }) {
                Outcome::Matched(n3) => match spec_opt(
                    spec_relative_clauses(toks, pos + n1 + n2 + n3),
                ) {
                    Outcome::Matched(n4) => shifted(
                        spec_opt(spec_word(toks, pos + n1 + n2 + n3 + n4, Selmaho::Dohu)),
                        n1 + n2 + n3 + n4,
                    ),
                    other => other,
                },
                other => other,
            },
            other => other,
        },
        other => other,
    }
}

/// What [`spec_vocative`] says.
pub proof fn lemma_vocative(toks: Seq<Token>, pos: nat)
    ensures
        spec_vocative(toks, pos) == (
            match spec_vocative_words(toks, pos) {
                Outcome::Matched(n1) => match spec_opt(spec_relative_clauses(toks, pos + n1)) {
                    Outcome::Matched(n2) => match (if advanced(toks, pos, n1 + n2) {
                        spec_vocative_value(toks, pos + n1 + n2)
                    } else {
                        stuck(pos)
                    }) {
                        Outcome::Matched(n3) => match spec_opt(
                            spec_relative_clauses(toks, pos + n1 + n2 + n3),
                        ) {
                            Outcome::Matched(n4) => shifted(
                                spec_opt(spec_word(toks, pos + n1 + n2 + n3 + n4, Selmaho::Dohu)),
                                n1 + n2 + n3 + n4,
                            ),
                            other => other,
                        },
                        other => other,
                    },
                    other => other,
                },
                other => other,
            }
        ),
{
    reveal(spec_vocative);
    reveal(spec_vocative_words);
    reveal(spec_relative_clauses);
    reveal(spec_vocative_value);
    reveal(spec_word);
}

/// ```text
/// VocativeWords <- VocativeWordsCoi / VocativeWordsDoi
/// ```
#[verifier::opaque]
pub closed spec fn spec_vocative_words(toks: Seq<Token>, pos: nat) -> Outcome
    decreases rest(toks, pos), 6nat,
{
    spec_alt(spec_vocative_words_coi(toks, pos), spec_vocative_words_doi(toks, pos))
}

/// What [`spec_vocative_words`] says.
pub proof fn lemma_vocative_words(toks: Seq<Token>, pos: nat)
    ensures
        spec_vocative_words(toks, pos) == (
            spec_alt(spec_vocative_words_coi(toks, pos), spec_vocative_words_doi(toks, pos))
        ),
{
    reveal(spec_vocative_words);
    reveal(spec_vocative_words_coi);
    reveal(spec_vocative_words_doi);
}

/// ```text
/// VocativeWordsCoi <- CoiNai+ Doi?
/// ```
#[verifier::opaque]
pub closed spec fn spec_vocative_words_coi(toks: Seq<Token>, pos: nat) -> Outcome
    decreases rest(toks, pos), 5nat,
{
    match spec_many1_coi_nai(toks, pos) {
        Outcome::Matched(n1) => shifted(spec_opt(spec_word(toks, pos + n1, Selmaho::Doi)), n1),
        other => other,
    }
}

/// What [`spec_vocative_words_coi`] says.
pub proof fn lemma_vocative_words_coi(toks: Seq<Token>, pos: nat)
    ensures
        spec_vocative_words_coi(toks, pos) == (
            match spec_many1_coi_nai(toks, pos) {
                Outcome::Matched(n1) => shifted(
                    spec_opt(spec_word(toks, pos + n1, Selmaho::Doi)),
                    n1,
                ),
                other => other,
            }
        ),
{
    reveal(spec_vocative_words_coi);
    reveal(spec_many1_coi_nai);
    reveal(spec_word);
}

/// ```text
/// CoiNai <- Coi Nai?
/// ```
#[verifier::opaque]
pub closed spec fn spec_coi_nai(toks: Seq<Token>, pos: nat) -> Outcome
    decreases rest(toks, pos), 3nat,
{
    match spec_word(toks, pos, Selmaho::Coi) {
        Outcome::Matched(n1) => shifted(spec_opt(spec_word(toks, pos + n1, Selmaho::Nai)), n1),
        other => other,
    }
}

/// What [`spec_coi_nai`] says.
pub proof fn lemma_coi_nai(toks: Seq<Token>, pos: nat)
    ensures
        spec_coi_nai(toks, pos) == (
            match spec_word(toks, pos, Selmaho::Coi) {
                Outcome::Matched(n1) => shifted(
                    spec_opt(spec_word(toks, pos + n1, Selmaho::Nai)),
                    n1,
                ),
                other => other,
            }
        ),
{
    reveal(spec_coi_nai);
    reveal(spec_word);
}

/// One `CoiNai` or more in a row. It is an error if one of them matches
/// without taking a token.
#[verifier::opaque]
pub closed spec fn spec_many1_coi_nai(toks: Seq<Token>, pos: nat) -> Outcome
    decreases rest(toks, pos), 4nat,
{
    match spec_coi_nai(toks, pos) {
        Outcome::Matched(len) => if advanced(toks, pos, len) {
            shifted(spec_many1_coi_nai_more(toks, pos + len), len)
        } else {
            Outcome::Error(combinator_at(pos, ErrorKind::Many1))
        },
        other => other,
    }
}

/// What follows the first `CoiNai` of a row of them.
#[verifier::opaque]
pub closed spec fn spec_many1_coi_nai_more(toks: Seq<Token>, pos: nat) -> Outcome
    decreases rest(toks, pos), 4nat,
{
    match spec_coi_nai(toks, pos) {
        Outcome::Matched(len) => if advanced(toks, pos, len) {
            shifted(spec_many1_coi_nai_more(toks, pos + len), len)
        } else {
            Outcome::Error(combinator_at(pos, ErrorKind::Many1))
        },
        Outcome::Error(_) => Outcome::Matched(0),
        Outcome::Failure(report) => Outcome::Failure(report),
    }
}

/// What [`spec_many1_coi_nai`] and [`spec_many1_coi_nai_more`] say.
pub proof fn lemma_many1_coi_nai(toks: Seq<Token>, pos: nat)
    ensures
        spec_many1_coi_nai(toks, pos) == (match spec_coi_nai(toks, pos) {
            Outcome::Matched(len) => if advanced(toks, pos, len) {
                shifted(spec_many1_coi_nai_more(toks, pos + len), len)
            } else {
                Outcome::Error(combinator_at(pos, ErrorKind::Many1))
            },
            other => other,
        }),
        spec_many1_coi_nai_more(toks, pos) == (match spec_coi_nai(toks, pos) {
            Outcome::Matched(len) => if advanced(toks, pos, len) {
                shifted(spec_many1_coi_nai_more(toks, pos + len), len)
            } else {
                Outcome::Error(combinator_at(pos, ErrorKind::Many1))
            },
            Outcome::Error(_) => Outcome::Matched(0),
            Outcome::Failure(report) => Outcome::Failure(report),
        }),
{
    reveal(spec_many1_coi_nai);
    reveal(spec_many1_coi_nai_more);
    reveal(spec_coi_nai);
}

/// ```text
/// VocativeWordsDoi <- Doi
/// ```
#[verifier::opaque]
pub closed spec fn spec_vocative_words_doi(toks: Seq<Token>, pos: nat) -> Outcome
    decreases rest(toks, pos), 3nat,
{
    spec_word(toks, pos, Selmaho::Doi)
}

/// What [`spec_vocative_words_doi`] says.
pub proof fn lemma_vocative_words_doi(toks: Seq<Token>, pos: nat)
    ensures
        spec_vocative_words_doi(toks, pos) == (
            spec_word(toks, pos, Selmaho::Doi)
        ),
{
    reveal(spec_vocative_words_doi);
    reveal(spec_word);
}

/// ```text
/// VocativeValue <- VocativeValueSelbri / VocativeValueCmevla / VocativeValueSumti
/// ```
#[verifier::opaque]
pub closed spec fn spec_vocative_value(toks: Seq<Token>, pos: nat) -> Outcome
    decreases rest(toks, pos), 90nat,
{
    spec_alt(
        spec_alt(
            spec_vocative_value_selbri(toks, pos),
            spec_vocative_value_cmevla(toks, pos),
        ),
        spec_vocative_value_sumti(toks, pos),
    )
}

/// What [`spec_vocative_value`] says.
pub proof fn lemma_vocative_value(toks: Seq<Token>, pos: nat)
    ensures
        spec_vocative_value(toks, pos) == (
            spec_alt(
                spec_alt(
                    spec_vocative_value_selbri(toks, pos),
                    spec_vocative_value_cmevla(toks, pos),
                ),
                spec_vocative_value_sumti(toks, pos),
            )
        ),
{
    reveal(spec_vocative_value);
    reveal(spec_vocative_value_selbri);
    reveal(spec_vocative_value_cmevla);
    reveal(spec_vocative_value_sumti);
}

/// ```text
/// VocativeValueSelbri <- Selbri
/// ```
#[verifier::opaque]
pub closed spec fn spec_vocative_value_selbri(toks: Seq<Token>, pos: nat) -> Outcome
    decreases rest(toks, pos), 89nat,
{
    spec_selbri(toks, pos)
}

/// What [`spec_vocative_value_selbri`] says.
pub proof fn lemma_vocative_value_selbri(toks: Seq<Token>, pos: nat)
    ensures
        spec_vocative_value_selbri(toks, pos) == (
            spec_selbri(toks, pos)
        ),
{
    reveal(spec_vocative_value_selbri);
    reveal(spec_selbri);
}

/// ```text
/// VocativeValueCmevla <- Cmevla+
/// ```
#[verifier::opaque]
pub closed spec fn spec_vocative_value_cmevla(toks: Seq<Token>, pos: nat) -> Outcome
    decreases rest(toks, pos), 4nat,
{
    spec_many1_word(toks, pos, Selmaho::Cmevla)
}

/// What [`spec_vocative_value_cmevla`] says.
pub proof fn lemma_vocative_value_cmevla(toks: Seq<Token>, pos: nat)
    ensures
        spec_vocative_value_cmevla(toks, pos) == (
            spec_many1_word(toks, pos, Selmaho::Cmevla)
        ),
{
    reveal(spec_vocative_value_cmevla);
    reveal(spec_many1_word);
}

/// ```text
/// VocativeValueSumti <- Sumti?
/// ```
#[verifier::opaque]
pub closed spec fn spec_vocative_value_sumti(toks: Seq<Token>, pos: nat) -> Outcome
    decreases rest(toks, pos), 45nat,
{
    spec_opt(spec_sumti(toks, pos))
}

/// What [`spec_vocative_value_sumti`] says.
pub proof fn lemma_vocative_value_sumti(toks: Seq<Token>, pos: nat)
    ensures
        spec_vocative_value_sumti(toks, pos) == (
            spec_opt(spec_sumti(toks, pos))
        ),
{
    reveal(spec_vocative_value_sumti);
    reveal(spec_sumti);
}

/// ```text
/// FreeMai <- MiscNumbers Mai
/// ```
#[verifier::opaque]
pub closed spec fn spec_free_mai(toks: Seq<Token>, pos: nat) -> Outcome
    decreases rest(toks, pos), 17nat,
{
    match spec_misc_numbers(toks, pos) {
        Outcome::Matched(n1) => shifted(spec_word(toks, pos + n1, Selmaho::Mai), n1),
        other => other,
    }
}

/// What [`spec_free_mai`] says.
pub proof fn lemma_free_mai(toks: Seq<Token>, pos: nat)
    ensures
        spec_free_mai(toks, pos) == (
            match spec_misc_numbers(toks, pos) {
                Outcome::Matched(n1) => shifted(spec_word(toks, pos + n1, Selmaho::Mai), n1),
                other => other,
            }
        ),
{
    reveal(spec_free_mai);
    reveal(spec_misc_numbers);
    reveal(spec_word);
}

/// ```text
/// FreeTo <- To Text Toi?
/// ```
#[verifier::opaque]
pub closed spec fn spec_free_to(toks: Seq<Token>, pos: nat) -> Outcome
    decreases rest(toks, pos), 3nat,
{
    match spec_word(toks, pos, Selmaho::To) {
        Outcome::Matched(n1) => match (if advanced(toks, pos, n1) {
            spec_text(toks, pos + n1)
        } else {
            stuck(pos)
        }) {
            Outcome::Matched(n2) => shifted(
                spec_opt(spec_word(toks, pos + n1 + n2, Selmaho::Toi)),
                n1 + n2,
            ),
            other => other,
        },
        other => other,
    }
}

/// What [`spec_free_to`] says.
pub proof fn lemma_free_to(toks: Seq<Token>, pos: nat)
    ensures
        spec_free_to(toks, pos) == (
            match spec_word(toks, pos, Selmaho::To) {
                Outcome::Matched(n1) => match (if advanced(toks, pos, n1) {
                    spec_text(toks, pos + n1)
                } else {
                    stuck(pos)
                }) {
                    Outcome::Matched(n2) => shifted(
                        spec_opt(spec_word(toks, pos + n1 + n2, Selmaho::Toi)),
                        n1 + n2,
                    ),
                    other => other,
                },
                other => other,
            }
        ),
{
    reveal(spec_free_to);
    reveal(spec_word);
    reveal(spec_text);
}

/// ```text
/// FreeXi <- Subscript
/// ```
#[verifier::opaque]
pub closed spec fn spec_free_xi(toks: Seq<Token>, pos: nat) -> Outcome
    decreases rest(toks, pos), 21nat,
{
    spec_subscript(toks, pos)
}

/// What [`spec_free_xi`] says.
pub proof fn lemma_free_xi(toks: Seq<Token>, pos: nat)
    ensures
        spec_free_xi(toks, pos) == (
            spec_subscript(toks, pos)
        ),
{
    reveal(spec_free_xi);
    reveal(spec_subscript);
}

/// ```text
/// Subscript <- Xi Frees SubscriptValueWithFree
/// ```
#[verifier::opaque]
pub closed spec fn spec_subscript(toks: Seq<Token>, pos: nat) -> Outcome
    decreases rest(toks, pos), 20nat,
{
    match spec_word_with_free(toks, pos, Selmaho::Xi) {
        Outcome::Matched(n1) => shifted(spec_subscript_value_with_free(toks, pos + n1), n1),
        other => other,
    }
}

/// What [`spec_subscript`] says.
pub proof fn lemma_subscript(toks: Seq<Token>, pos: nat)
    ensures
        spec_subscript(toks, pos) == (
            match spec_word_with_free(toks, pos, Selmaho::Xi) {
                Outcome::Matched(n1) => shifted(
                    spec_subscript_value_with_free(toks, pos + n1),
                    n1,
                ),
                other => other,
            }
        ),
{
    reveal(spec_subscript);
    reveal(spec_word_with_free);
    reveal(spec_subscript_value_with_free);
}

/// ```text
/// SubscriptValueWithFree <- SubscriptValue Frees
/// ```
#[verifier::opaque]
pub closed spec fn spec_subscript_value_with_free(toks: Seq<Token>, pos: nat) -> Outcome
    decreases rest(toks, pos), 19nat,
{
    match spec_subscript_value(toks, pos) {
        Outcome::Matched(n1) => shifted(
            if advanced(toks, pos, n1) {
                spec_frees(toks, pos + n1)
            } else {
                stuck(pos)
            },
            n1,
        ),
        other => other,
    }
}

/// What [`spec_subscript_value_with_free`] says.
pub proof fn lemma_subscript_value_with_free(toks: Seq<Token>, pos: nat)
    ensures
        spec_subscript_value_with_free(toks, pos) == (
            match spec_subscript_value(toks, pos) {
                Outcome::Matched(n1) => shifted(
                    if advanced(toks, pos, n1) {
                        spec_frees(toks, pos + n1)
                    } else {
                        stuck(pos)
                    },
                    n1,
                ),
                other => other,
            }
        ),
{
    reveal(spec_subscript_value_with_free);
    reveal(spec_subscript_value);
    reveal(spec_frees);
}

/// ```text
/// SubscriptValue <- SubscriptValueMekso / SubscriptValueNumber
/// ```
#[verifier::opaque]
pub closed spec fn spec_subscript_value(toks: Seq<Token>, pos: nat) -> Outcome
    decreases rest(toks, pos), 18nat,
{
    spec_alt(
        spec_subscript_value_mekso(toks, pos),
        spec_subscript_value_number(toks, pos),
    )
}

/// What [`spec_subscript_value`] says.
pub proof fn lemma_subscript_value(toks: Seq<Token>, pos: nat)
    ensures
        spec_subscript_value(toks, pos) == (
            spec_alt(
                spec_subscript_value_mekso(toks, pos),
                spec_subscript_value_number(toks, pos),
            )
        ),
{
    reveal(spec_subscript_value);
    reveal(spec_subscript_value_mekso);
    reveal(spec_subscript_value_number);
}

/// ```text
/// SubscriptValueMekso <- Vei Frees Expression Veho? Frees
/// ```
#[verifier::opaque]
pub closed spec fn spec_subscript_value_mekso(toks: Seq<Token>, pos: nat) -> Outcome
    decreases rest(toks, pos), 4nat,
{
    match spec_word_with_free(toks, pos, Selmaho::Vei) {
        Outcome::Matched(n1) => match (if advanced(toks, pos, n1) {
            spec_expression(toks, pos + n1)
        } else {
            stuck(pos)
        }) {
            Outcome::Matched(n2) => match spec_opt(
                spec_word(toks, pos + n1 + n2, Selmaho::Veho),
            ) {
                Outcome::Matched(n3) => shifted(
                    if advanced(toks, pos, n1 + n2 + n3) {
                        spec_frees(toks, pos + n1 + n2 + n3)
                    } else {
                        stuck(pos)
                    },
                    n1 + n2 + n3,
                ),
                other => other,
            },
            other => other,
        },
        other => other,
    }
}

/// What [`spec_subscript_value_mekso`] says.
pub proof fn lemma_subscript_value_mekso(toks: Seq<Token>, pos: nat)
    ensures
        spec_subscript_value_mekso(toks, pos) == (
            match spec_word_with_free(toks, pos, Selmaho::Vei) {
                Outcome::Matched(n1) => match (if advanced(toks, pos, n1) {
                    spec_expression(toks, pos + n1)
                } else {
                    stuck(pos)
                }) {
                    Outcome::Matched(n2) => match spec_opt(
                        spec_word(toks, pos + n1 + n2, Selmaho::Veho),
                    ) {
                        Outcome::Matched(n3) => shifted(
                            if advanced(toks, pos, n1 + n2 + n3) {
                                spec_frees(toks, pos + n1 + n2 + n3)
                            } else {
                                stuck(pos)
                            },
                            n1 + n2 + n3,
                        ),
                        other => other,
                    },
                    other => other,
                },
                other => other,
            }
        ),
{
    reveal(spec_subscript_value_mekso);
    reveal(spec_word_with_free);
    reveal(spec_expression);
    reveal(spec_word);
    reveal(spec_frees);
}

/// ```text
/// SubscriptValueNumber <- MiscNumbers !Moi Boi? Frees
/// ```
#[verifier::opaque]
pub closed spec fn spec_subscript_value_number(toks: Seq<Token>, pos: nat) -> Outcome
    decreases rest(toks, pos), 17nat,
{
    match spec_misc_numbers(toks, pos) {
        Outcome::Matched(n1) => match spec_not(
            pos + n1,
            spec_word(toks, pos + n1, Selmaho::Moi),
        ) {
            Outcome::Matched(_) => match spec_opt(spec_word(toks, pos + n1, Selmaho::Boi)) {
                Outcome::Matched(n2) => shifted(
                    if advanced(toks, pos, n1 + n2) {
                        spec_frees(toks, pos + n1 + n2)
                    } else {
                        stuck(pos)
                    },
                    n1 + n2,
                ),
                other => other,
            },
            other => other,
        },
        other => other,
    }
}

/// What [`spec_subscript_value_number`] says.
pub proof fn lemma_subscript_value_number(toks: Seq<Token>, pos: nat)
    ensures
        spec_subscript_value_number(toks, pos) == (
            match spec_misc_numbers(toks, pos) {
                Outcome::Matched(n1) => match spec_not(
                    pos + n1,
                    spec_word(toks, pos + n1, Selmaho::Moi),
                ) {
                    Outcome::Matched(_) => match spec_opt(
                        spec_word(toks, pos + n1, Selmaho::Boi),
                    ) {
                        Outcome::Matched(n2) => shifted(
                            if advanced(toks, pos, n1 + n2) {
                                spec_frees(toks, pos + n1 + n2)
                            } else {
                                stuck(pos)
                            },
                            n1 + n2,
                        ),
                        other => other,
                    },
                    other => other,
                },
                other => other,
            }
        ),
{
    reveal(spec_subscript_value_number);
    reveal(spec_misc_numbers);
    reveal(spec_word);
    reveal(spec_frees);
}

/// ```text
/// ParagraphSeparator <- Niho+ Frees
/// ```
#[verifier::opaque]
pub closed spec fn spec_paragraph_separator(toks: Seq<Token>, pos: nat) -> Outcome
    decreases rest(toks, pos), 25nat,
{
    match spec_many1_word(toks, pos, Selmaho::Niho) {
        Outcome::Matched(n1) => shifted(spec_frees(toks, pos + n1), n1),
        other => other,
    }
}

/// What [`spec_paragraph_separator`] says.
pub proof fn lemma_paragraph_separator(toks: Seq<Token>, pos: nat)
    ensures
        spec_paragraph_separator(toks, pos) == (
            match spec_many1_word(toks, pos, Selmaho::Niho) {
                Outcome::Matched(n1) => shifted(spec_frees(toks, pos + n1), n1),
                other => other,
            }
        ),
{
    reveal(spec_paragraph_separator);
    reveal(spec_many1_word);
    reveal(spec_frees);
}

/// ```text
/// Paragraphs <- ParagraphList
/// ```
#[verifier::opaque]
pub closed spec fn spec_paragraphs(toks: Seq<Token>, pos: nat) -> Outcome
    decreases rest(toks, pos), 120nat,
{
    spec_paragraph_list(toks, pos)
}

/// What [`spec_paragraphs`] says.
pub proof fn lemma_paragraphs(toks: Seq<Token>, pos: nat)
    ensures
        spec_paragraphs(toks, pos) == (
            spec_paragraph_list(toks, pos)
        ),
{
    reveal(spec_paragraphs);
    reveal(spec_paragraph_list);
}

/// ```text
/// ParagraphList <- Paragraph ParagraphListNext*
/// ```
#[verifier::opaque]
pub closed spec fn spec_paragraph_list(toks: Seq<Token>, pos: nat) -> Outcome
    decreases rest(toks, pos), 119nat,
{
    match spec_paragraph(toks, pos) {
        Outcome::Matched(n1) => shifted(spec_many0_paragraph_list_next(toks, pos + n1), n1),
        other => other,
    }
}

/// What [`spec_paragraph_list`] says.
pub proof fn lemma_paragraph_list(toks: Seq<Token>, pos: nat)
    ensures
        spec_paragraph_list(toks, pos) == (
            match spec_paragraph(toks, pos) {
                Outcome::Matched(n1) => shifted(
                    spec_many0_paragraph_list_next(toks, pos + n1),
                    n1,
                ),
                other => other,
            }
        ),
{
    reveal(spec_paragraph_list);
    reveal(spec_paragraph);
    reveal(spec_many0_paragraph_list_next);
}

/// ```text
/// Paragraph <- SentenceSeparator? ParagraphItems
/// ```
#[verifier::opaque]
pub closed spec fn spec_paragraph(toks: Seq<Token>, pos: nat) -> Outcome
    decreases rest(toks, pos), 116nat,
{
    match spec_opt(spec_sentence_separator(toks, pos)) {
        Outcome::Matched(n1) => shifted(spec_paragraph_items(toks, pos + n1), n1),
        other => other,
    }
}

/// What [`spec_paragraph`] says.
pub proof fn lemma_paragraph(toks: Seq<Token>, pos: nat)
    ensures
        spec_paragraph(toks, pos) == (
            match spec_opt(spec_sentence_separator(toks, pos)) {
                Outcome::Matched(n1) => shifted(spec_paragraph_items(toks, pos + n1), n1),
                other => other,
            }
        ),
{
    reveal(spec_paragraph);
    reveal(spec_sentence_separator);
    reveal(spec_paragraph_items);
}

/// ```text
/// SentenceSeparator <- I !Bu Frees
/// ```
#[verifier::opaque]
pub closed spec fn spec_sentence_separator(toks: Seq<Token>, pos: nat) -> Outcome
    decreases rest(toks, pos), 25nat,
{
    match spec_word(toks, pos, Selmaho::I) {
        Outcome::Matched(n1) => match spec_not(pos + n1, spec_bu(toks, pos + n1)) {
            Outcome::Matched(_) => shifted(spec_frees(toks, pos + n1), n1),
            other => other,
        },
        other => other,
    }
}

/// What [`spec_sentence_separator`] says.
pub proof fn lemma_sentence_separator(toks: Seq<Token>, pos: nat)
    ensures
        spec_sentence_separator(toks, pos) == (
            match spec_word(toks, pos, Selmaho::I) {
                Outcome::Matched(n1) => match spec_not(pos + n1, spec_bu(toks, pos + n1)) {
                    Outcome::Matched(_) => shifted(spec_frees(toks, pos + n1), n1),
                    other => other,
                },
                other => other,
            }
        ),
{
    reveal(spec_sentence_separator);
    reveal(spec_word);
    reveal(spec_bu);
    reveal(spec_frees);
}

/// ```text
/// ParagraphItems <- ParagraphItem ParagraphItemsNext*
/// ```
#[verifier::opaque]
pub closed spec fn spec_paragraph_items(toks: Seq<Token>, pos: nat) -> Outcome
    decreases rest(toks, pos), 115nat,
{
    match spec_paragraph_item(toks, pos) {
        Outcome::Matched(n1) => shifted(spec_many0_paragraph_items_next(toks, pos + n1), n1),
        other => other,
    }
}

/// What [`spec_paragraph_items`] says.
pub proof fn lemma_paragraph_items(toks: Seq<Token>, pos: nat)
    ensures
        spec_paragraph_items(toks, pos) == (
            match spec_paragraph_item(toks, pos) {
                Outcome::Matched(n1) => shifted(
                    spec_many0_paragraph_items_next(toks, pos + n1),
                    n1,
                ),
                other => other,
            }
        ),
{
    reveal(spec_paragraph_items);
    reveal(spec_paragraph_item);
    reveal(spec_many0_paragraph_items_next);
}

/// ```text
/// ParagraphItem <- ParagraphItemSentences / ParagraphItemFragment / ParagraphItemEmpty
/// ```
#[verifier::opaque]
pub closed spec fn spec_paragraph_item(toks: Seq<Token>, pos: nat) -> Outcome
    decreases rest(toks, pos), 112nat,
{
    spec_alt(
        spec_alt(
            spec_paragraph_item_sentences(toks, pos),
            spec_paragraph_item_fragment(toks, pos),
        ),
        spec_paragraph_item_empty(toks, pos),
    )
}

/// What [`spec_paragraph_item`] says.
pub proof fn lemma_paragraph_item(toks: Seq<Token>, pos: nat)
    ensures
        spec_paragraph_item(toks, pos) == (
            spec_alt(
                spec_alt(
                    spec_paragraph_item_sentences(toks, pos),
                    spec_paragraph_item_fragment(toks, pos),
                ),
                spec_paragraph_item_empty(toks, pos),
            )
        ),
{
    reveal(spec_paragraph_item);
    reveal(spec_paragraph_item_sentences);
    reveal(spec_paragraph_item_fragment);
    reveal(spec_paragraph_item_empty);
}

/// ```text
/// ParagraphItemSentences <- (Sentences1) that takes a token
/// ```
#[verifier::opaque]
pub closed spec fn spec_paragraph_item_sentences(toks: Seq<Token>, pos: nat) -> Outcome
    decreases rest(toks, pos), 111nat,
{
    spec_must_consume(
        spec_sentences_1(toks, pos),
        empty_at(pos, "ParagraphItem::Sentences"),
    )
}

/// What [`spec_paragraph_item_sentences`] says.
pub proof fn lemma_paragraph_item_sentences(toks: Seq<Token>, pos: nat)
    ensures
        spec_paragraph_item_sentences(toks, pos) == (
            spec_must_consume(
                spec_sentences_1(toks, pos),
                empty_at(pos, "ParagraphItem::Sentences"),
            )
        ),
{
    reveal(spec_paragraph_item_sentences);
    reveal(spec_sentences_1);
}

/// ```text
/// Sentences1 <- Prenex* Sentences2List
/// ```
#[verifier::opaque]
pub closed spec fn spec_sentences_1(toks: Seq<Token>, pos: nat) -> Outcome
    decreases rest(toks, pos), 110nat,
{
    match spec_many0_prenex(toks, pos) {
        Outcome::Matched(n1) => shifted(spec_sentences_2_list(toks, pos + n1), n1),
        other => other,
    }
}

/// What [`spec_sentences_1`] says.
pub proof fn lemma_sentences_1(toks: Seq<Token>, pos: nat)
    ensures
        spec_sentences_1(toks, pos) == (
            match spec_many0_prenex(toks, pos) {
                Outcome::Matched(n1) => shifted(spec_sentences_2_list(toks, pos + n1), n1),
                other => other,
            }
        ),
{
    reveal(spec_sentences_1);
    reveal(spec_many0_prenex);
    reveal(spec_sentences_2_list);
}

/// ```text
/// Sentences2List <- Sentences2 Sentences2ListNext*
/// ```
#[verifier::opaque]
pub closed spec fn spec_sentences_2_list(toks: Seq<Token>, pos: nat) -> Outcome
    decreases rest(toks, pos), 109nat,
{
    match spec_sentences_2(toks, pos) {
        Outcome::Matched(n1) => shifted(spec_many0_sentences_2_list_next(toks, pos + n1), n1),
        other => other,
    }
}

/// What [`spec_sentences_2_list`] says.
pub proof fn lemma_sentences_2_list(toks: Seq<Token>, pos: nat)
    ensures
        spec_sentences_2_list(toks, pos) == (
            match spec_sentences_2(toks, pos) {
                Outcome::Matched(n1) => shifted(
                    spec_many0_sentences_2_list_next(toks, pos + n1),
                    n1,
                ),
                other => other,
            }
        ),
{
    reveal(spec_sentences_2_list);
    reveal(spec_sentences_2);
    reveal(spec_many0_sentences_2_list_next);
}

/// ```text
/// Sentences2 <- Sentences3 Sentences2Next*
/// ```
#[verifier::opaque]
pub closed spec fn spec_sentences_2(toks: Seq<Token>, pos: nat) -> Outcome
    decreases rest(toks, pos), 106nat,
{
    match spec_sentences_3(toks, pos) {
        Outcome::Matched(n1) => shifted(spec_many0_sentences_2_next(toks, pos + n1), n1),
        other => other,
    }
}

/// What [`spec_sentences_2`] says.
pub proof fn lemma_sentences_2(toks: Seq<Token>, pos: nat)
    ensures
        spec_sentences_2(toks, pos) == (
            match spec_sentences_3(toks, pos) {
                Outcome::Matched(n1) => shifted(spec_many0_sentences_2_next(toks, pos + n1), n1),
                other => other,
            }
        ),
{
    reveal(spec_sentences_2);
    reveal(spec_sentences_3);
    reveal(spec_many0_sentences_2_next);
}

/// ```text
/// Sentences3 <- Sentences3Grouped / Sentences3Single
/// ```
#[verifier::opaque]
pub closed spec fn spec_sentences_3(toks: Seq<Token>, pos: nat) -> Outcome
    decreases rest(toks, pos), 103nat,
{
    spec_alt(spec_sentences_3_grouped(toks, pos), spec_sentences_3_single(toks, pos))
}

/// What [`spec_sentences_3`] says.
pub proof fn lemma_sentences_3(toks: Seq<Token>, pos: nat)
    ensures
        spec_sentences_3(toks, pos) == (
            spec_alt(spec_sentences_3_grouped(toks, pos), spec_sentences_3_single(toks, pos))
        ),
{
    reveal(spec_sentences_3);
    reveal(spec_sentences_3_grouped);
    reveal(spec_sentences_3_single);
}

/// ```text
/// Sentences3Grouped <- TagWords? Tuhe Frees Paragraphs Tuhu? Frees
/// ```
#[verifier::opaque]
pub closed spec fn spec_sentences_3_grouped(toks: Seq<Token>, pos: nat) -> Outcome
    decreases rest(toks, pos), 32nat,
{
    match spec_opt(spec_tag_words(toks, pos)) {
        Outcome::Matched(n1) => match spec_word_with_free(toks, pos + n1, Selmaho::Tuhe) {
            Outcome::Matched(n2) => match (if advanced(toks, pos, n1 + n2) {
                spec_paragraphs(toks, pos + n1 + n2)
            } else {
                stuck(pos)
            }) {
                Outcome::Matched(n3) => match spec_opt(
                    spec_word(toks, pos + n1 + n2 + n3, Selmaho::Tuhu),
                ) {
                    Outcome::Matched(n4) => shifted(
                        spec_frees(toks, pos + n1 + n2 + n3 + n4),
                        n1 + n2 + n3 + n4,
                    ),
                    other => other,
                },
                other => other,
            },
            other => other,
        },
        other => other,
    }
}

/// What [`spec_sentences_3_grouped`] says.
pub proof fn lemma_sentences_3_grouped(toks: Seq<Token>, pos: nat)
    ensures
        spec_sentences_3_grouped(toks, pos) == (
            match spec_opt(spec_tag_words(toks, pos)) {
                Outcome::Matched(n1) => match spec_word_with_free(toks, pos + n1, Selmaho::Tuhe) {
                    Outcome::Matched(n2) => match (if advanced(toks, pos, n1 + n2) {
                        spec_paragraphs(toks, pos + n1 + n2)
                    } else {
                        stuck(pos)
                    }) {
                        Outcome::Matched(n3) => match spec_opt(
                            spec_word(toks, pos + n1 + n2 + n3, Selmaho::Tuhu),
                        ) {
                            Outcome::Matched(n4) => shifted(
                                spec_frees(toks, pos + n1 + n2 + n3 + n4),
                                n1 + n2 + n3 + n4,
                            ),
                            other => other,
                        },
                        other => other,
                    },
                    other => other,
                },
                other => other,
            }
        ),
{
    reveal(spec_sentences_3_grouped);
    reveal(spec_tag_words);
    reveal(spec_word_with_free);
    reveal(spec_paragraphs);
    reveal(spec_word);
    reveal(spec_frees);
}

/// ```text
/// Sentences3Single <- Sentence
/// ```
#[verifier::opaque]
pub closed spec fn spec_sentences_3_single(toks: Seq<Token>, pos: nat) -> Outcome
    decreases rest(toks, pos), 102nat,
{
    spec_sentence(toks, pos)
}

/// What [`spec_sentences_3_single`] says.
pub proof fn lemma_sentences_3_single(toks: Seq<Token>, pos: nat)
    ensures
        spec_sentences_3_single(toks, pos) == (
            spec_sentence(toks, pos)
        ),
{
    reveal(spec_sentences_3_single);
    reveal(spec_sentence);
}

/// ```text
/// Sentence <- Args SentenceTail?
/// ```
#[verifier::opaque]
pub closed spec fn spec_sentence(toks: Seq<Token>, pos: nat) -> Outcome
    decreases rest(toks, pos), 101nat,
{
    match spec_args(toks, pos) {
        Outcome::Matched(n1) => shifted(spec_opt(spec_sentence_tail(toks, pos + n1)), n1),
        other => other,
    }
}

/// What [`spec_sentence`] says.
pub proof fn lemma_sentence(toks: Seq<Token>, pos: nat)
    ensures
        spec_sentence(toks, pos) == (
            match spec_args(toks, pos) {
                Outcome::Matched(n1) => shifted(spec_opt(spec_sentence_tail(toks, pos + n1)), n1),
                other => other,
            }
        ),
{
    reveal(spec_sentence);
    reveal(spec_args);
    reveal(spec_sentence_tail);
}

/// ```text
/// Sentences2Next <- CloseSentenceSeparator Sentences3
/// ```
#[verifier::opaque]
pub closed spec fn spec_sentences_2_next(toks: Seq<Token>, pos: nat) -> Outcome
    decreases rest(toks, pos), 104nat,
{
    match spec_close_sentence_separator(toks, pos) {
        Outcome::Matched(n1) => shifted(spec_sentences_3(toks, pos + n1), n1),
        other => other,
    }
}

/// What [`spec_sentences_2_next`] says.
pub proof fn lemma_sentences_2_next(toks: Seq<Token>, pos: nat)
    ensures
        spec_sentences_2_next(toks, pos) == (
            match spec_close_sentence_separator(toks, pos) {
                Outcome::Matched(n1) => shifted(spec_sentences_3(toks, pos + n1), n1),
                other => other,
            }
        ),
{
    reveal(spec_sentences_2_next);
    reveal(spec_close_sentence_separator);
    reveal(spec_sentences_3);
}

/// As many `Sentences2Next` as match in a row. It is an error if one of them
/// matches without taking a token.
#[verifier::opaque]
pub closed spec fn spec_many0_sentences_2_next(toks: Seq<Token>, pos: nat) -> Outcome
    decreases rest(toks, pos), 105nat,
{
    match spec_sentences_2_next(toks, pos) {
        Outcome::Matched(len) => if advanced(toks, pos, len) {
            shifted(spec_many0_sentences_2_next(toks, pos + len), len)
        } else {
            Outcome::Error(combinator_at(pos, ErrorKind::Many0))
        },
        Outcome::Error(_) => Outcome::Matched(0),
        Outcome::Failure(report) => Outcome::Failure(report),
    }
}

/// What [`spec_many0_sentences_2_next`] says.
pub proof fn lemma_many0_sentences_2_next(toks: Seq<Token>, pos: nat)
    ensures
        spec_many0_sentences_2_next(toks, pos) == (match spec_sentences_2_next(toks, pos) {
            Outcome::Matched(len) => if advanced(toks, pos, len) {
                shifted(spec_many0_sentences_2_next(toks, pos + len), len)
            } else {
                Outcome::Error(combinator_at(pos, ErrorKind::Many0))
            },
            Outcome::Error(_) => Outcome::Matched(0),
            Outcome::Failure(report) => Outcome::Failure(report),
        }),
{
    reveal(spec_many0_sentences_2_next);
    reveal(spec_sentences_2_next);
}

/// ```text
/// CloseSentenceSeparator <- I JoikJek? TagWords? Bo Frees
/// ```
#[verifier::opaque]
pub closed spec fn spec_close_sentence_separator(toks: Seq<Token>, pos: nat) -> Outcome
    decreases rest(toks, pos), 32nat,
{
    match spec_word(toks, pos, Selmaho::I) {
        Outcome::Matched(n1) => match spec_opt(spec_joik_jek(toks, pos + n1)) {
            Outcome::Matched(n2) => match spec_opt(spec_tag_words(toks, pos + n1 + n2)) {
                Outcome::Matched(n3) => match spec_word(toks, pos + n1 + n2 + n3, Selmaho::Bo) {
                    Outcome::Matched(n4) => shifted(
                        spec_frees(toks, pos + n1 + n2 + n3 + n4),
                        n1 + n2 + n3 + n4,
                    ),
                    other => other,
                },
                other => other,
            },
            other => other,
        },
        other => other,
    }
}

/// What [`spec_close_sentence_separator`] says.
pub proof fn lemma_close_sentence_separator(toks: Seq<Token>, pos: nat)
    ensures
        spec_close_sentence_separator(toks, pos) == (
            match spec_word(toks, pos, Selmaho::I) {
                Outcome::Matched(n1) => match spec_opt(spec_joik_jek(toks, pos + n1)) {
                    Outcome::Matched(n2) => match spec_opt(spec_tag_words(toks, pos + n1 + n2)) {
                        Outcome::Matched(n3) => match spec_word(
                            toks,
                            pos + n1 + n2 + n3,
                            Selmaho::Bo,
                        ) {
                            Outcome::Matched(n4) => shifted(
                                spec_frees(toks, pos + n1 + n2 + n3 + n4),
                                n1 + n2 + n3 + n4,
                            ),
                            other => other,
                        },
                        other => other,
                    },
                    other => other,
                },
                other => other,
            }
        ),
{
    reveal(spec_close_sentence_separator);
    reveal(spec_word);
    reveal(spec_joik_jek);
    reveal(spec_tag_words);
    reveal(spec_frees);
}

/// ```text
/// Sentences2ListNext <- ConnectedSentenceSeparator Sentences2
/// ```
#[verifier::opaque]
pub closed spec fn spec_sentences_2_list_next(toks: Seq<Token>, pos: nat) -> Outcome
    decreases rest(toks, pos), 107nat,
{
    match spec_connected_sentence_separator(toks, pos) {
        Outcome::Matched(n1) => shifted(spec_sentences_2(toks, pos + n1), n1),
        other => other,
    }
}

/// What [`spec_sentences_2_list_next`] says.
pub proof fn lemma_sentences_2_list_next(toks: Seq<Token>, pos: nat)
    ensures
        spec_sentences_2_list_next(toks, pos) == (
            match spec_connected_sentence_separator(toks, pos) {
                Outcome::Matched(n1) => shifted(spec_sentences_2(toks, pos + n1), n1),
                other => other,
            }
        ),
{
    reveal(spec_sentences_2_list_next);
    reveal(spec_connected_sentence_separator);
    reveal(spec_sentences_2);
}

/// As many `Sentences2ListNext` as match in a row. It is an error if one of them
/// matches without taking a token.
#[verifier::opaque]
pub closed spec fn spec_many0_sentences_2_list_next(toks: Seq<Token>, pos: nat) -> Outcome
    decreases rest(toks, pos), 108nat,
{
    match spec_sentences_2_list_next(toks, pos) {
        Outcome::Matched(len) => if advanced(toks, pos, len) {
            shifted(spec_many0_sentences_2_list_next(toks, pos + len), len)
        } else {
            Outcome::Error(combinator_at(pos, ErrorKind::Many0))
        },
        Outcome::Error(_) => Outcome::Matched(0),
        Outcome::Failure(report) => Outcome::Failure(report),
    }
}

/// What [`spec_many0_sentences_2_list_next`] says.
pub proof fn lemma_many0_sentences_2_list_next(toks: Seq<Token>, pos: nat)
    ensures
        spec_many0_sentences_2_list_next(
            toks,
            pos,
        ) == (match spec_sentences_2_list_next(toks, pos) {
            Outcome::Matched(len) => if advanced(toks, pos, len) {
                shifted(spec_many0_sentences_2_list_next(toks, pos + len), len)
            } else {
                Outcome::Error(combinator_at(pos, ErrorKind::Many0))
            },
            Outcome::Error(_) => Outcome::Matched(0),
            Outcome::Failure(report) => Outcome::Failure(report),
        }),
{
    reveal(spec_many0_sentences_2_list_next);
    reveal(spec_sentences_2_list_next);
}

/// ```text
/// ConnectedSentenceSeparator <- I JoikJek Frees
/// ```
#[verifier::opaque]
pub closed spec fn spec_connected_sentence_separator(toks: Seq<Token>, pos: nat) -> Outcome
    decreases rest(toks, pos), 25nat,
{
    match spec_word(toks, pos, Selmaho::I) {
        Outcome::Matched(n1) => match spec_joik_jek(toks, pos + n1) {
            Outcome::Matched(n2) => shifted(spec_frees(toks, pos + n1 + n2), n1 + n2),
            other => other,
        },
        other => other,
    }
}

/// What [`spec_connected_sentence_separator`] says.
pub proof fn lemma_connected_sentence_separator(toks: Seq<Token>, pos: nat)
    ensures
        spec_connected_sentence_separator(toks, pos) == (
            match spec_word(toks, pos, Selmaho::I) {
                Outcome::Matched(n1) => match spec_joik_jek(toks, pos + n1) {
                    Outcome::Matched(n2) => shifted(spec_frees(toks, pos + n1 + n2), n1 + n2),
                    other => other,
                },
                other => other,
            }
        ),
{
    reveal(spec_connected_sentence_separator);
    reveal(spec_word);
    reveal(spec_joik_jek);
    reveal(spec_frees);
}

/// ```text
/// ParagraphItemFragment <- Fragment
/// ```
#[verifier::opaque]
pub closed spec fn spec_paragraph_item_fragment(toks: Seq<Token>, pos: nat) -> Outcome
    decreases rest(toks, pos), 29nat,
{
    spec_fragment(toks, pos)
}

/// What [`spec_paragraph_item_fragment`] says.
pub proof fn lemma_paragraph_item_fragment(toks: Seq<Token>, pos: nat)
    ensures
        spec_paragraph_item_fragment(toks, pos) == (
            spec_fragment(toks, pos)
        ),
{
    reveal(spec_paragraph_item_fragment);
    reveal(spec_fragment);
}

/// ```text
/// Fragment <- FragmentEk / FragmentJek / FragmentJoik / FragmentGihek / FragmentNumber /
///     FragmentNa
/// ```
#[verifier::opaque]
pub closed spec fn spec_fragment(toks: Seq<Token>, pos: nat) -> Outcome
    decreases rest(toks, pos), 28nat,
{
    spec_alt(
        spec_alt(
            spec_alt(
                spec_alt(
                    spec_alt(spec_fragment_ek(toks, pos), spec_fragment_jek(toks, pos)),
                    spec_fragment_joik(toks, pos),
                ),
                spec_fragment_gihek(toks, pos),
            ),
            spec_fragment_number(toks, pos),
        ),
        spec_fragment_na(toks, pos),
    )
}

/// What [`spec_fragment`] says.
pub proof fn lemma_fragment(toks: Seq<Token>, pos: nat)
    ensures
        spec_fragment(toks, pos) == (
            spec_alt(
                spec_alt(
                    spec_alt(
                        spec_alt(
                            spec_alt(spec_fragment_ek(toks, pos), spec_fragment_jek(toks, pos)),
                            spec_fragment_joik(toks, pos),
                        ),
                        spec_fragment_gihek(toks, pos),
                    ),
                    spec_fragment_number(toks, pos),
                ),
                spec_fragment_na(toks, pos),
            )
        ),
{
    reveal(spec_fragment);
    reveal(spec_fragment_ek);
    reveal(spec_fragment_jek);
    reveal(spec_fragment_joik);
    reveal(spec_fragment_gihek);
    reveal(spec_fragment_number);
    reveal(spec_fragment_na);
}

/// ```text
/// FragmentEk <- EkWithFree
/// ```
#[verifier::opaque]
pub closed spec fn spec_fragment_ek(toks: Seq<Token>, pos: nat) -> Outcome
    decreases rest(toks, pos), 26nat,
{
    spec_ek_with_free(toks, pos)
}

/// What [`spec_fragment_ek`] says.
pub proof fn lemma_fragment_ek(toks: Seq<Token>, pos: nat)
    ensures
        spec_fragment_ek(toks, pos) == (
            spec_ek_with_free(toks, pos)
        ),
{
    reveal(spec_fragment_ek);
    reveal(spec_ek_with_free);
}

/// ```text
/// EkWithFree <- Ek Frees
/// ```
#[verifier::opaque]
pub closed spec fn spec_ek_with_free(toks: Seq<Token>, pos: nat) -> Outcome
    decreases rest(toks, pos), 25nat,
{
    match spec_ek(toks, pos) {
        Outcome::Matched(n1) => shifted(spec_frees(toks, pos + n1), n1),
        other => other,
    }
}

/// What [`spec_ek_with_free`] says.
pub proof fn lemma_ek_with_free(toks: Seq<Token>, pos: nat)
    ensures
        spec_ek_with_free(toks, pos) == (
            match spec_ek(toks, pos) {
                Outcome::Matched(n1) => shifted(spec_frees(toks, pos + n1), n1),
                other => other,
            }
        ),
{
    reveal(spec_ek_with_free);
    reveal(spec_ek);
    reveal(spec_frees);
}

/// ```text
/// FragmentJek <- JekWithFree
/// ```
#[verifier::opaque]
pub closed spec fn spec_fragment_jek(toks: Seq<Token>, pos: nat) -> Outcome
    decreases rest(toks, pos), 26nat,
{
    spec_jek_with_free(toks, pos)
}

/// What [`spec_fragment_jek`] says.
pub proof fn lemma_fragment_jek(toks: Seq<Token>, pos: nat)
    ensures
        spec_fragment_jek(toks, pos) == (
            spec_jek_with_free(toks, pos)
        ),
{
    reveal(spec_fragment_jek);
    reveal(spec_jek_with_free);
}

/// ```text
/// JekWithFree <- Jek Frees
/// ```
#[verifier::opaque]
pub closed spec fn spec_jek_with_free(toks: Seq<Token>, pos: nat) -> Outcome
    decreases rest(toks, pos), 25nat,
{
    match spec_jek(toks, pos) {
        Outcome::Matched(n1) => shifted(spec_frees(toks, pos + n1), n1),
        other => other,
    }
}

/// What [`spec_jek_with_free`] says.
pub proof fn lemma_jek_with_free(toks: Seq<Token>, pos: nat)
    ensures
        spec_jek_with_free(toks, pos) == (
            match spec_jek(toks, pos) {
                Outcome::Matched(n1) => shifted(spec_frees(toks, pos + n1), n1),
                other => other,
            }
        ),
{
    reveal(spec_jek_with_free);
    reveal(spec_jek);
    reveal(spec_frees);
}

/// ```text
/// FragmentJoik <- JoikWithFree
/// ```
#[verifier::opaque]
pub closed spec fn spec_fragment_joik(toks: Seq<Token>, pos: nat) -> Outcome
    decreases rest(toks, pos), 26nat,
{
    spec_joik_with_free(toks, pos)
}

/// What [`spec_fragment_joik`] says.
pub proof fn lemma_fragment_joik(toks: Seq<Token>, pos: nat)
    ensures
        spec_fragment_joik(toks, pos) == (
            spec_joik_with_free(toks, pos)
        ),
{
    reveal(spec_fragment_joik);
    reveal(spec_joik_with_free);
}

/// ```text
/// JoikWithFree <- Joik Frees
/// ```
#[verifier::opaque]
pub closed spec fn spec_joik_with_free(toks: Seq<Token>, pos: nat) -> Outcome
    decreases rest(toks, pos), 25nat,
{
    match spec_joik(toks, pos) {
        Outcome::Matched(n1) => shifted(spec_frees(toks, pos + n1), n1),
        other => other,
    }
}

/// What [`spec_joik_with_free`] says.
pub proof fn lemma_joik_with_free(toks: Seq<Token>, pos: nat)
    ensures
        spec_joik_with_free(toks, pos) == (
            match spec_joik(toks, pos) {
                Outcome::Matched(n1) => shifted(spec_frees(toks, pos + n1), n1),
                other => other,
            }
        ),
{
    reveal(spec_joik_with_free);
    reveal(spec_joik);
    reveal(spec_frees);
}

/// ```text
/// FragmentGihek <- GihekWithFree
/// ```
#[verifier::opaque]
pub closed spec fn spec_fragment_gihek(toks: Seq<Token>, pos: nat) -> Outcome
    decreases rest(toks, pos), 26nat,
{
    spec_gihek_with_free(toks, pos)
}

/// What [`spec_fragment_gihek`] says.
pub proof fn lemma_fragment_gihek(toks: Seq<Token>, pos: nat)
    ensures
        spec_fragment_gihek(toks, pos) == (
            spec_gihek_with_free(toks, pos)
        ),
{
    reveal(spec_fragment_gihek);
    reveal(spec_gihek_with_free);
}

/// ```text
/// GihekWithFree <- Gihek Frees
/// ```
#[verifier::opaque]
pub closed spec fn spec_gihek_with_free(toks: Seq<Token>, pos: nat) -> Outcome
    decreases rest(toks, pos), 25nat,
{
    match spec_gihek(toks, pos) {
        Outcome::Matched(n1) => shifted(spec_frees(toks, pos + n1), n1),
        other => other,
    }
}

/// What [`spec_gihek_with_free`] says.
pub proof fn lemma_gihek_with_free(toks: Seq<Token>, pos: nat)
    ensures
        spec_gihek_with_free(toks, pos) == (
            match spec_gihek(toks, pos) {
                Outcome::Matched(n1) => shifted(spec_frees(toks, pos + n1), n1),
                other => other,
            }
        ),
{
    reveal(spec_gihek_with_free);
    reveal(spec_gihek);
    reveal(spec_frees);
}

/// ```text
/// FragmentNumber <- Quantifier
/// ```
#[verifier::opaque]
pub closed spec fn spec_fragment_number(toks: Seq<Token>, pos: nat) -> Outcome
    decreases rest(toks, pos), 27nat,
{
    spec_quantifier(toks, pos)
}

/// What [`spec_fragment_number`] says.
pub proof fn lemma_fragment_number(toks: Seq<Token>, pos: nat)
    ensures
        spec_fragment_number(toks, pos) == (
            spec_quantifier(toks, pos)
        ),
{
    reveal(spec_fragment_number);
    reveal(spec_quantifier);
}

/// ```text
/// FragmentNa <- Na !Ja Frees
/// ```
#[verifier::opaque]
pub closed spec fn spec_fragment_na(toks: Seq<Token>, pos: nat) -> Outcome
    decreases rest(toks, pos), 25nat,
{
    match spec_word(toks, pos, Selmaho::Na) {
        Outcome::Matched(n1) => match spec_not(pos + n1, spec_word(toks, pos + n1, Selmaho::Ja)) {
            Outcome::Matched(_) => shifted(spec_frees(toks, pos + n1), n1),
            other => other,
        },
        other => other,
    }
}

/// What [`spec_fragment_na`] says.
pub proof fn lemma_fragment_na(toks: Seq<Token>, pos: nat)
    ensures
        spec_fragment_na(toks, pos) == (
            match spec_word(toks, pos, Selmaho::Na) {
                Outcome::Matched(n1) => match spec_not(
                    pos + n1,
                    spec_word(toks, pos + n1, Selmaho::Ja),
                ) {
                    Outcome::Matched(_) => shifted(spec_frees(toks, pos + n1), n1),
                    other => other,
                },
                other => other,
            }
        ),
{
    reveal(spec_fragment_na);
    reveal(spec_word);
    reveal(spec_frees);
}

/// ```text
/// ParagraphItemEmpty <- nothing
/// ```
#[verifier::opaque]
pub closed spec fn spec_paragraph_item_empty(toks: Seq<Token>, pos: nat) -> Outcome
    decreases rest(toks, pos), 0nat,
{
    Outcome::Matched(0)
}

/// What [`spec_paragraph_item_empty`] says.
pub proof fn lemma_paragraph_item_empty(toks: Seq<Token>, pos: nat)
    ensures
        spec_paragraph_item_empty(toks, pos) == (
            Outcome::Matched(0)
        ),
{
    reveal(spec_paragraph_item_empty);
}

/// ```text
/// ParagraphItemsNext <- SentenceSeparator ParagraphItem
/// ```
#[verifier::opaque]
pub closed spec fn spec_paragraph_items_next(toks: Seq<Token>, pos: nat) -> Outcome
    decreases rest(toks, pos), 113nat,
{
    match spec_sentence_separator(toks, pos) {
        Outcome::Matched(n1) => shifted(spec_paragraph_item(toks, pos + n1), n1),
        other => other,
    }
}

/// What [`spec_paragraph_items_next`] says.
pub proof fn lemma_paragraph_items_next(toks: Seq<Token>, pos: nat)
    ensures
        spec_paragraph_items_next(toks, pos) == (
            match spec_sentence_separator(toks, pos) {
                Outcome::Matched(n1) => shifted(spec_paragraph_item(toks, pos + n1), n1),
                other => other,
            }
        ),
{
    reveal(spec_paragraph_items_next);
    reveal(spec_sentence_separator);
    reveal(spec_paragraph_item);
}

/// As many `ParagraphItemsNext` as match in a row. It is an error if one of them
/// matches without taking a token.
#[verifier::opaque]
pub closed spec fn spec_many0_paragraph_items_next(toks: Seq<Token>, pos: nat) -> Outcome
    decreases rest(toks, pos), 114nat,
{
    match spec_paragraph_items_next(toks, pos) {
        Outcome::Matched(len) => if advanced(toks, pos, len) {
            shifted(spec_many0_paragraph_items_next(toks, pos + len), len)
        } else {
            Outcome::Error(combinator_at(pos, ErrorKind::Many0))
        },
        Outcome::Error(_) => Outcome::Matched(0),
        Outcome::Failure(report) => Outcome::Failure(report),
    }
}

/// What [`spec_many0_paragraph_items_next`] says.
pub proof fn lemma_many0_paragraph_items_next(toks: Seq<Token>, pos: nat)
    ensures
        spec_many0_paragraph_items_next(
            toks,
            pos,
        ) == (match spec_paragraph_items_next(toks, pos) {
            Outcome::Matched(len) => if advanced(toks, pos, len) {
                shifted(spec_many0_paragraph_items_next(toks, pos + len), len)
            } else {
                Outcome::Error(combinator_at(pos, ErrorKind::Many0))
            },
            Outcome::Error(_) => Outcome::Matched(0),
            Outcome::Failure(report) => Outcome::Failure(report),
        }),
{
    reveal(spec_many0_paragraph_items_next);
    reveal(spec_paragraph_items_next);
}

/// ```text
/// ParagraphListNext <- ParagraphSeparator Paragraph
/// ```
#[verifier::opaque]
pub closed spec fn spec_paragraph_list_next(toks: Seq<Token>, pos: nat) -> Outcome
    decreases rest(toks, pos), 117nat,
{
    match spec_paragraph_separator(toks, pos) {
        Outcome::Matched(n1) => shifted(spec_paragraph(toks, pos + n1), n1),
        other => other,
    }
}

/// What [`spec_paragraph_list_next`] says.
pub proof fn lemma_paragraph_list_next(toks: Seq<Token>, pos: nat)
    ensures
        spec_paragraph_list_next(toks, pos) == (
            match spec_paragraph_separator(toks, pos) {
                Outcome::Matched(n1) => shifted(spec_paragraph(toks, pos + n1), n1),
                other => other,
            }
        ),
{
    reveal(spec_paragraph_list_next);
    reveal(spec_paragraph_separator);
    reveal(spec_paragraph);
}

/// As many `ParagraphListNext` as match in a row. It is an error if one of them
/// matches without taking a token.
#[verifier::opaque]
pub closed spec fn spec_many0_paragraph_list_next(toks: Seq<Token>, pos: nat) -> Outcome
    decreases rest(toks, pos), 118nat,
{
    match spec_paragraph_list_next(toks, pos) {
        Outcome::Matched(len) => if advanced(toks, pos, len) {
            shifted(spec_many0_paragraph_list_next(toks, pos + len), len)
        } else {
            Outcome::Error(combinator_at(pos, ErrorKind::Many0))
        },
        Outcome::Error(_) => Outcome::Matched(0),
        Outcome::Failure(report) => Outcome::Failure(report),
    }
}

/// What [`spec_many0_paragraph_list_next`] says.
pub proof fn lemma_many0_paragraph_list_next(toks: Seq<Token>, pos: nat)
    ensures
        spec_many0_paragraph_list_next(toks, pos) == (match spec_paragraph_list_next(toks, pos) {
            Outcome::Matched(len) => if advanced(toks, pos, len) {
                shifted(spec_many0_paragraph_list_next(toks, pos + len), len)
            } else {
                Outcome::Error(combinator_at(pos, ErrorKind::Many0))
            },
            Outcome::Error(_) => Outcome::Matched(0),
            Outcome::Failure(report) => Outcome::Failure(report),
        }),
{
    reveal(spec_many0_paragraph_list_next);
    reveal(spec_paragraph_list_next);
}

/// The words of a quote, up to the `le'u` that ends it: any tokens, and then
/// the first `le'u` that matches. It is an error if the tokens end first.
#[verifier::opaque]
pub closed spec fn spec_quoted_words(toks: Seq<Token>, pos: nat) -> Outcome
    decreases rest(toks, pos), 3nat,
{
    match spec_word(toks, pos, Selmaho::Lehu) {
        Outcome::Error(_) => if pos < toks.len() {
            shifted(spec_quoted_words(toks, pos + 1), 1)
        } else {
            Outcome::Error(combinator_at(pos, ErrorKind::Eof))
        },
        decided => decided,
    }
}

/// What [`spec_quoted_words`] says.
pub proof fn lemma_quoted_words(toks: Seq<Token>, pos: nat)
    ensures
        spec_quoted_words(toks, pos) == (match spec_word(toks, pos, Selmaho::Lehu) {
            Outcome::Error(_) => if pos < toks.len() {
                shifted(spec_quoted_words(toks, pos + 1), 1)
            } else {
                Outcome::Error(combinator_at(pos, ErrorKind::Eof))
            },
            decided => decided,
        }),
{
    reveal(spec_quoted_words);
    reveal(spec_word);
}

} // verus!
