//! The token type.

use vstd::prelude::*;

use super::selmaho::Selmaho;
use crate::span::Span;

verus! {

/// A classified word, as the lexer yields it. Two tokens are equal when
/// they agree in all three fields.
#[derive(Debug, Clone, Copy, PartialEq, Eq, Structural)]
pub struct Token {
    /// For a cmavo, whether that cmavo is experimental.
    pub experimental: bool,
    /// The class of the word.
    pub selmaho: Selmaho,
    /// Where the word stands in the text.
    pub span: Span,
}

} // verus!
