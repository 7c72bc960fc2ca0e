//! What can be asked of a node of a syntax tree: whether it holds an
//! experimental word, and where it begins and ends in the text.
//!
//! The leaves of the tree answer for themselves. A node that is made of other
//! nodes is made of the tokens that its production matched, and the answers
//! are read off those tokens: it begins where the first of them begins and
//! ends where the last of them ends. The functions [`experimental`],
//! [`start_location`] and [`end_location`] take the tokens and the places
//! between which the production matched; a [`Cst`] answers for its root.

use vstd::prelude::*;

use crate::lex::Token;
use crate::parse::cst::rules::selmaho::{Bahe, Bare, Bu};
use crate::parse::cst::Cst;
use crate::span::Location;

verus! {

/// A node of the tree.
pub trait TreeNode {
    /// Whether the node holds an experimental word.
    spec fn spec_experimental(&self) -> bool;

    /// Where the node begins in the text, unless it holds no word.
    spec fn spec_start_location(&self) -> Option<Location>;

    /// Where the node ends in the text, unless it holds no word.
    spec fn spec_end_location(&self) -> Option<Location>;

    /// Whether the node holds an experimental word.
    fn experimental(&self) -> (experimental: bool)
        ensures
            experimental == self.spec_experimental(),
    ;

    /// Where the node begins in the text, or `None` if it holds no word.
    fn start_location(&self) -> (start: Option<Location>)
        ensures
            start == self.spec_start_location(),
    ;

    /// Where the node ends in the text, or `None` if it holds no word.
    fn end_location(&self) -> (end: Option<Location>)
        ensures
            end == self.spec_end_location(),
    ;
}

/// Whether one of the tokens from `from` up to `to` is experimental.
pub open spec fn spec_experimental(toks: Seq<Token>, from: int, to: int) -> bool {
    exists|i: int| from <= i < to && 0 <= i < toks.len() && (#[trigger] toks[i]).experimental
}

/// Where the tokens from `from` up to `to` begin in the text: where the first
/// of them begins, unless there is none.
pub open spec fn spec_start_location(toks: Seq<Token>, from: int, to: int) -> Option<Location> {
    if 0 <= from < to <= toks.len() {
        Some(toks[from].span.start)
    } else {
        None
    }
}

/// Where the tokens from `from` up to `to` end in the text: where the last of
/// them ends, unless there is none.
pub open spec fn spec_end_location(toks: Seq<Token>, from: int, to: int) -> Option<Location> {
    if 0 <= from < to <= toks.len() {
        Some(toks[to - 1].span.end)
    } else {
        None
    }
}

/// Whether a node that was made of the tokens from `from` up to `to` holds an
/// experimental word; see [`spec_experimental`].
pub fn experimental(toks: &[Token], from: usize, to: usize) -> (found: bool)
    requires
        from <= to <= toks.len(),
    ensures
        found == spec_experimental(toks@, from as int, to as int),
{
    let mut at: usize = from;
    while at < to
        invariant
            from <= at <= to <= toks.len(),
            forall|i: int| from <= i < at ==> !(#[trigger] toks@[i]).experimental,
        decreases to - at,
    {
        if toks[at].experimental {
            return true;
        }
        at += 1;
    }
    false
}

/// Where a node that was made of the tokens from `from` up to `to` begins in
/// the text; see [`spec_start_location`].
pub fn start_location(toks: &[Token], from: usize, to: usize) -> (start: Option<Location>)
    requires
        from <= to <= toks.len(),
    ensures
        start == spec_start_location(toks@, from as int, to as int),
{
    if from < to {
        Some(toks[from].span.start)
    } else {
        None
    }
}

/// Where a node that was made of the tokens from `from` up to `to` ends in
/// the text; see [`spec_end_location`].
pub fn end_location(toks: &[Token], from: usize, to: usize) -> (end: Option<Location>)
    requires
        from <= to <= toks.len(),
    ensures
        end == spec_end_location(toks@, from as int, to as int),
{
    if from < to {
        Some(toks[to - 1].span.end)
    } else {
        None
    }
}

impl<'arena> TreeNode for Cst<'arena> {
    /// Whether the text holds an experimental word.
    open spec fn spec_experimental(&self) -> bool {
        spec_experimental(self.spec_tokens(), 0, self.spec_tokens().len() as int)
    }

    /// Where the text begins: at its first word.
    open spec fn spec_start_location(&self) -> Option<Location> {
        spec_start_location(self.spec_tokens(), 0, self.spec_tokens().len() as int)
    }

    /// Where the text ends: at its last word.
    open spec fn spec_end_location(&self) -> Option<Location> {
        spec_end_location(self.spec_tokens(), 0, self.spec_tokens().len() as int)
    }

    fn experimental(&self) -> (experimental: bool) {
        let toks = self.tokens();
        self::experimental(toks, 0, toks.len())
    }

    fn start_location(&self) -> (start: Option<Location>) {
        let toks = self.tokens();
        self::start_location(toks, 0, toks.len())
    }

    fn end_location(&self) -> (end: Option<Location>) {
        let toks = self.tokens();
        self::end_location(toks, 0, toks.len())
    }
}

impl TreeNode for Token {
    open spec fn spec_experimental(&self) -> bool {
        self.experimental
    }

    open spec fn spec_start_location(&self) -> Option<Location> {
        Some(self.span.start)
    }

    open spec fn spec_end_location(&self) -> Option<Location> {
        Some(self.span.end)
    }

    fn experimental(&self) -> (experimental: bool) {
        self.experimental
    }

    fn start_location(&self) -> (start: Option<Location>) {
        Some(self.span.start)
    }

    fn end_location(&self) -> (end: Option<Location>) {
        Some(self.span.end)
    }
}

impl TreeNode for Bare {
    open spec fn spec_experimental(&self) -> bool {
        self.experimental
    }

    open spec fn spec_start_location(&self) -> Option<Location> {
        Some(self.span.start)
    }

    open spec fn spec_end_location(&self) -> Option<Location> {
        Some(self.span.end)
    }

    fn experimental(&self) -> (experimental: bool) {
        self.experimental
    }

    fn start_location(&self) -> (start: Option<Location>) {
        Some(self.span.start)
    }

    fn end_location(&self) -> (end: Option<Location>) {
        Some(self.span.end)
    }
}

impl TreeNode for Bahe {
    open spec fn spec_experimental(&self) -> bool {
        self.experimental
    }

    open spec fn spec_start_location(&self) -> Option<Location> {
        Some(self.span.start)
    }

    open spec fn spec_end_location(&self) -> Option<Location> {
        Some(self.span.end)
    }

    fn experimental(&self) -> (experimental: bool) {
        self.experimental
    }

    fn start_location(&self) -> (start: Option<Location>) {
        Some(self.span.start)
    }

    fn end_location(&self) -> (end: Option<Location>) {
        Some(self.span.end)
    }
}

impl TreeNode for Bu {
    open spec fn spec_experimental(&self) -> bool {
        self.experimental
    }

    open spec fn spec_start_location(&self) -> Option<Location> {
        Some(self.span.start)
    }

    open spec fn spec_end_location(&self) -> Option<Location> {
        Some(self.span.end)
    }

    fn experimental(&self) -> (experimental: bool) {
        self.experimental
    }

    fn start_location(&self) -> (start: Option<Location>) {
        Some(self.span.start)
    }

    fn end_location(&self) -> (end: Option<Location>) {
        Some(self.span.end)
    }
}

} // verus!
