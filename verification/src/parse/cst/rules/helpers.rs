//! The shapes that many productions share.

use vstd::prelude::*;


verus! {

/// A list: a first item, and then any number of separators, each with the
/// item behind it.
#[derive(Debug)]
pub struct Separated<'arena, Item, Separator> {
    pub first: &'arena Item,
    pub rest: &'arena [(Separator, Item)],
}

/// One of two things, or the first and then the second. The second alone
/// is tried first, then both, then the first alone.
#[derive(Debug)]
pub enum EitherOrBoth<L, R> {
    Right(R),
    Both(L, R),
    Left(L),
}

} // verus!
