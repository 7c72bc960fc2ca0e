//! A place in a row of tokens that moves on as tokens are taken.

use vstd::prelude::*;

use crate::lex::{Selmaho, Token};

verus! {

/// A row of tokens and a place in it.
pub struct Cursor<'a> {
    /// The tokens.
    pub input: &'a [Token],
    /// How many of them have been taken.
    pub cursor: usize,
}

impl<'a> Cursor<'a> {
    /// The token at the cursor, if the cursor is not at the end.
    pub open spec fn spec_peek(&self) -> Option<Token> {
        if self.cursor < self.input@.len() {
            Some(self.input@[self.cursor as int])
        } else {
            None
        }
    }

    /// The cursor one token further on.
    pub open spec fn advanced(&self) -> Cursor<'a> {
        Cursor { input: self.input, cursor: (self.cursor + 1) as usize }
    }

    /// Take the next token, if there is one.
    pub fn next(&mut self) -> (token: Option<Token>)
        ensures
            token == old(self).spec_peek(),
            *final(self) == (if token is Some {
                old(self).advanced()
            } else {
                *old(self)
            }),
    {
        if self.cursor < self.input.len() {
            let value = self.input[self.cursor];
            self.cursor += 1;
            Some(value)
        } else {
            None
        }
    }

    /// The next token, which is not taken.
    pub fn peek(&self) -> (token: Option<Token>)
        ensures
            token == self.spec_peek(),
    {
        if self.cursor < self.input.len() {
            Some(self.input[self.cursor])
        } else {
            None
        }
    }

    /// The selmaho of the next token, which is not taken.
    pub fn peek_selmaho(&self) -> (selmaho: Option<Selmaho>)
        ensures
            selmaho == (match self.spec_peek() {
                Some(token) => Some(token.selmaho),
                None => None,
            }),
    {
        match self.peek() {
            Some(token) => Some(token.selmaho),
            None => None,
        }
    }

    /// Take the next token if `condition` holds of it.
    pub fn next_if<F: FnOnce(Token) -> bool>(&mut self, condition: F) -> (token: Option<Token>)
        requires
            forall|token: Token| condition.requires((token,)),
        ensures
            token matches Some(taken) ==> old(self).spec_peek() == Some(taken)
                && condition.ensures((taken,), true) && *final(self) == old(self).advanced(),
            token is None ==> *final(self) == *old(self) && (old(self).spec_peek() matches Some(
                held,
            ) ==> condition.ensures((held,), false)),
    {
        if self.cursor < self.input.len() {
            let value = self.input[self.cursor];
            if condition(value) {
                self.cursor += 1;
                Some(value)
            } else {
                None
            }
        } else {
            None
        }
    }

    /// Take the next token if it is of the given selmaho.
    pub fn next_if_selmaho(&mut self, selmaho: Selmaho) -> (token: Option<Token>)
        ensures
            token == (match old(self).spec_peek() {
                Some(held) => if held.selmaho == selmaho {
                    Some(held)
                } else {
                    None
                },
                None => None,
            }),
            *final(self) == (if token is Some {
                old(self).advanced()
            } else {
                *old(self)
            }),
    {
        if self.cursor < self.input.len() && self.input[self.cursor].selmaho == selmaho {
            let value = self.input[self.cursor];
            self.cursor += 1;
            Some(value)
        } else {
            None
        }
    }
}

} // verus!
