//! The region of memory that holds the nodes of a syntax tree.

use vstd::prelude::*;

verus! {

/// `bumpalo::Bump`, the region that values are put into. Nothing is known of
/// what is inside one.
#[verifier::external_type_specification]
#[verifier::external_body]
pub struct ExBump<const MIN_ALIGN: usize>(bumpalo::Bump<MIN_ALIGN>);

/// The arena that the nodes of a syntax tree are put in. The nodes live as
/// long as the arena does, and are given up together with it.
pub struct Arena(pub(in crate::parse) bumpalo::Bump);

impl Arena {
    /// Make an empty arena.
    ///
    /// This rests on `bumpalo::Bump::new`, of which nothing is claimed.
    #[verifier::external_body]
    pub fn new() -> Arena {
        Arena(bumpalo::Bump::new())
    }

    /// The number of bytes that have been handed out of the arena.
    ///
    /// This rests on `bumpalo::Bump::allocated_bytes`, of which nothing is
    /// claimed.
    #[verifier::external_body]
    pub fn allocated_bytes(&self) -> usize {
        self.0.allocated_bytes()
    }
}

/// Put one value into the arena.
///
/// This rests on `bumpalo::Bump::alloc`, which moves the value into the arena
/// and hands out a reference to it: the reference leads to the value that
/// went in.
#[verifier::external_body]
pub(in crate::parse) fn keep<'arena, T>(arena: &'arena Arena, value: T) -> (kept: &'arena T)
    ensures
        *kept == value,
{
    arena.0.alloc(value)
}

/// Put a row of values into the arena.
///
/// This rests on `bumpalo::Bump::alloc_slice_fill_iter`, which fills a new
/// slice in the arena with the items of an iterator in their order: the
/// slice holds the values that went in, in the order they had.
#[verifier::external_body]
pub(in crate::parse) fn keep_all<'arena, T>(arena: &'arena Arena, values: Vec<T>) -> (kept:
    &'arena [T])
    ensures
        kept@ == values@,
{
    arena.0.alloc_slice_fill_iter(values.into_iter())
}

} // verus!
