//! A front-end for Lojban text, in three stages that work on one text and
//! speak of it through byte spans:
//!
//! - [`decompose`] splits a text into its words, which need no white space
//!   between them: `minajimpe` is `mi`, `na` and `jimpe`;
//! - [`lex`] classifies the words into tokens and deals with quotes of text
//!   that is no Lojban;
//! - [`parse`] turns tokens into a concrete syntax tree.
//!
//! Every function is verified against a specification. The rules for the
//! form of words are in [`rules`], the grammar of texts in
//! [`parse::cst::grammar`] and the shape of the tree that it gives in
//! [`parse::cst::shape`].

pub mod decompose;
pub mod lex;
pub mod parse;
pub mod rules;
pub mod span;

pub use decompose::decompose;
pub use lex::lex;
pub use parse::parse;
pub use span::Span;
