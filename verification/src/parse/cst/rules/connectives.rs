//! The connectives.

use vstd::prelude::*;

use crate::parse::cst::rules::{Frees, TagWords};
use crate::parse::cst::rules::selmaho::{A, Bihi, Ga, Gaho, Gi, Giha, Guha, Ja, Joi, Na, Nai, Se};

verus! {

/// A connective word with what may stand around it: `na` and `se` before
/// it, `nai` behind it.
#[derive(Debug)]
pub struct NaSeTNai<'arena, T>(
    pub Option<Na<'arena>>,
    pub Option<Se<'arena>>,
    pub T,
    pub Option<Nai<'arena>>,
);

/// ```text
/// Ek <- NaSeTNaiA
/// ```
#[derive(Debug)]
pub struct Ek<'arena>(pub NaSeTNai<'arena, A<'arena>>);

/// ```text
/// Jek <- NaSeTNaiJa
/// ```
#[derive(Debug)]
pub struct Jek<'arena>(pub NaSeTNai<'arena, Ja<'arena>>);

/// ```text
/// Gihek <- NaSeTNaiGiha
/// ```
#[derive(Debug)]
pub struct Gihek<'arena>(pub NaSeTNai<'arena, Giha<'arena>>);

/// ```text
/// Guhek <- Se? Guha Nai? Frees
/// ```
#[derive(Debug)]
pub struct Guhek<'arena>(
    pub Option<Se<'arena>>,
    pub Guha<'arena>,
    pub Option<Nai<'arena>>,
    pub Frees<'arena>,
);

/// ```text
/// Interval <- Se? Bihi Nai?
/// ```
#[derive(Debug)]
pub struct Interval<'arena>(pub Option<Se<'arena>>, pub Bihi<'arena>, pub Option<Nai<'arena>>);

/// ```text
/// Joik <- JoikSeJoiNai / JoikInterval / JoikGaho
/// ```
#[derive(Debug)]
pub enum Joik<'arena> {
    SeJoiNai(Option<Se<'arena>>, Joi<'arena>, Option<Nai<'arena>>),
    Interval(Interval<'arena>),
    Gaho(Gaho<'arena>, Interval<'arena>, Gaho<'arena>),
}

/// ```text
/// Gik <- Gi Nai? Frees
/// ```
#[derive(Debug)]
pub struct Gik<'arena>(pub Gi<'arena>, pub Option<Nai<'arena>>, pub Frees<'arena>);

/// ```text
/// Gek <- GekSeGaNai / GekJoikGi / GekTagGik
/// ```
#[derive(Debug)]
pub enum Gek<'arena> {
    SeGaNai(Option<Se<'arena>>, Ga<'arena>, Option<Nai<'arena>>, Frees<'arena>),
    JoikGi(Joik<'arena>, Gi<'arena>, Frees<'arena>),
    TagGik(TagWords<'arena>, Gik<'arena>),
}

/// ```text
/// JoikJek <- JoikJekJoik / JoikJekJek
/// ```
#[derive(Debug)]
pub enum JoikJek<'arena> {
    Joik(Joik<'arena>),
    Jek(Jek<'arena>),
}

/// ```text
/// JoikEk <- JoikEkJoik / JoikEkEk
/// ```
#[derive(Debug)]
pub enum JoikEk<'arena> {
    Joik(Joik<'arena>, Frees<'arena>),
    Ek(Ek<'arena>, Frees<'arena>),
}

} // verus!
