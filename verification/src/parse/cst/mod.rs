//! The concrete syntax tree.

pub mod grammar;
pub mod parser;
pub mod rules;
pub mod shape;

use vstd::prelude::*;

use crate::lex::Token;
use crate::parse::arena::{keep, Arena};
use crate::parse::cst::grammar::spec_text;
use crate::parse::cst::parser::parse_text;
use crate::parse::cst::rules::Root;
use crate::parse::cst::shape::is_text;
use crate::parse::driver::{combinator_at, Outcome};
use crate::parse::error::{Error, ErrorKind, Report, WithLocation};

verus! {

/// A concrete syntax tree: every production of the grammar that matched is a
/// node of it, and a terminator that was left out is a child that is absent.
#[derive(Debug)]
pub struct Cst<'arena> {
    root: &'arena Root<'arena>,
    tokens: &'arena [Token],
}

/// Whether the tokens make up a text: the production of a text matches all
/// of them.
pub open spec fn makes_text(toks: Seq<Token>) -> bool {
    spec_text(toks, 0) == Outcome::Matched(toks.len())
}

/// The error that the tokens are turned down with, unless they make up a
/// text: the error that the production of a text fails with; or, where it
/// matches and leaves tokens over, the end that was due at the first of them.
pub open spec fn spec_parse_error(toks: Seq<Token>) -> Report {
    match spec_text(toks, 0) {
        Outcome::Matched(len) => combinator_at(len, ErrorKind::Eof),
        Outcome::Error(report) => report,
        Outcome::Failure(report) => report,
    }
}

impl<'arena> Cst<'arena> {
    /// Parse tokens into a concrete syntax tree, whose nodes are put into
    /// `arena`. There is a tree exactly if the tokens make up a text: the
    /// whole of them has to be taken, and tokens that are left over are an
    /// error. The tree is the one that the grammar makes of the tokens, which
    /// it keeps beside its root.
    pub fn parse(input: &'arena [Token], arena: &'arena Arena) -> (tree: Result<
        Cst<'arena>,
        WithLocation,
    >)
        ensures
            tree is Ok <==> makes_text(input@),
            tree matches Ok(cst) ==> is_text(*cst.spec_root(), input@, 0) && cst.spec_tokens()
                == input@,
            tree matches Err(error) ==> error@ == spec_parse_error(input@),
    {
        match parse_text(input, 0, arena) {
            Ok((end, root)) => {
                if end == input.len() {
                    Ok(Cst { root: keep(arena, root), tokens: input })
                } else {
                    Err(WithLocation { location: end, error: Error::Combinator(ErrorKind::Eof) })
                }
            },
            Err(failed) => Err(failed.error),
        }
    }

    /// The root of the tree, from which all of it can be reached.
    #[must_use]
    pub fn root(&self) -> (root: &'arena Root<'arena>)
        ensures
            root == self.spec_root(),
    {
        self.root
    }

    /// The root of the tree.
    pub closed spec fn spec_root(&self) -> &'arena Root<'arena> {
        self.root
    }

    /// The tokens that the tree was made of.
    pub closed spec fn spec_tokens(&self) -> Seq<Token> {
        self.tokens@
    }

    /// The tokens that the tree was made of.
    #[must_use]
    pub fn tokens(&self) -> (tokens: &'arena [Token])
        ensures
            tokens@ == self.spec_tokens(),
    {
        self.tokens
    }
}

} // verus!
