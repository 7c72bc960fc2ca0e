//! Parsing of tokens into a concrete syntax tree.

pub mod arena;
pub mod cst;
pub mod cursor;
pub mod driver;
pub mod error;
pub mod tree_node;

use vstd::prelude::*;

pub use arena::Arena;
pub use cst::Cst;
pub use error::Error;

use crate::lex::Token;
use crate::parse::cst::{makes_text, spec_parse_error};
use crate::parse::cst::shape::is_text;
use crate::parse::error::WithLocation;

verus! {

/// Parse tokens into a concrete syntax tree; see [`Cst::parse`].
pub fn parse<'arena>(input: &'arena [Token], arena: &'arena Arena) -> (tree: Result<
    Cst<'arena>,
    WithLocation,
>)
    ensures
        tree is Ok <==> makes_text(input@),
        tree matches Ok(cst) ==> is_text(*cst.spec_root(), input@, 0) && cst.spec_tokens()
            == input@,
        tree matches Err(error) ==> error@ == spec_parse_error(input@),
{
    Cst::parse(input, arena)
}

} // verus!
