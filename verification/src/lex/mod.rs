//! Tokens: the classification of words, and the lexer that yields them.

pub mod config;
pub mod selmaho;
pub mod token;

pub use selmaho::Selmaho;
pub use token::Token;

use vstd::prelude::*;
use vstd::slice::slice_subrange;
use vstd::string::StringSliceAdditionalSpecFns;
use vstd::utf8::is_char_boundary;

use crate::decompose::{
    decompose, floor, lemma_chunk_len_bounds, lemma_decomposer_is_fused, lemma_next_raw_tiles,
    lemma_next_word, Decomposer, DecomposerState,
};
use crate::lex::config::{without_commas, ZoiDelimiterComparisonStrategy};
use crate::lex::selmaho::classify::spec_classify;
use crate::span::Span;

verus! {

/// Why lexing can fail. After an error the lexer yields nothing more.
#[derive(Debug, Clone, Copy, PartialEq, Eq, Structural)]
pub enum Error {
    /// The text ended where the delimiter of a quote was due.
    DelimitedQuoteMissingSeparator {
        /// The word that began the quote.
        initiator_span: Span,
    },
    /// The text ended inside a quote.
    DelimitedQuoteUnclosed {
        /// The word that began the quote.
        initiator_span: Span,
        /// The delimiter that found no match.
        starting_delimiter_span: Span,
    },
    /// The text ended where the word quoted by a pause-delimited quote was due.
    PauseDelimitedQuoteEof {
        /// The word that began the quote.
        initiator_span: Span,
    },
}

/// A token or the reason why there is none.
pub type Result<T, E = Error> = core::result::Result<T, E>;

/// Where the lexer stands in a delimited quote.
#[derive(Debug, Clone, Copy, PartialEq, Eq, Structural)]
pub struct DelimitedQuoteState {
    /// How many quotes are still to be read, this one included; never zero.
    pub how_many: u8,
    /// The word that began the quote.
    pub initiator_span: Span,
    /// Whether this is the first quote after that word.
    pub is_first: bool,
    /// The delimiter that the end of this quote has to match.
    pub starting_delimiter_span: Span,
}

/// The states of the lexer.
#[derive(Debug, Clone, Copy, PartialEq, Eq, Structural)]
pub enum State {
    /// Between quotes: the next word is decomposed and classified.
    Normal,
    /// Before a quote whose starting delimiter has been read.
    DelimitedQuote(DelimitedQuoteState),
    /// Two tokens of a quote wait to be yielded: its text, then its end.
    TwoMoreTokensThen(Token, Token, Option<DelimitedQuoteState>),
    /// The token that ends a quote waits to be yielded.
    OneMoreTokenThen(Token, Option<DelimitedQuoteState>),
    /// Behind a word that quotes the next stretch of text as it stands.
    PauseDelimitedQuote {
        /// The word that began the quote.
        initiator_span: Span,
    },
    /// Nothing more is yielded.
    Done,
}

/// Whether a span can be cut out of a text of `len` bytes.
pub open spec fn within(span: Span, len: nat) -> bool {
    span.start <= span.end <= len
}

/// The token of a delimiter of a quote.
pub open spec fn delimiter_token(span: Span) -> Token {
    Token { experimental: false, selmaho: Selmaho::ZoiDelimiter, span }
}

/// The token of text that is quoted.
pub open spec fn text_token(span: Span) -> Token {
    Token { experimental: false, selmaho: Selmaho::AnyText, span }
}

/// Whether the word `word` closes the quote that `delimiter` opened: the two
/// are the same but for commas. `h` and `'` are different letters here.
pub open spec fn closes(delimiter: Seq<u8>, word: Seq<u8>) -> bool {
    without_commas(delimiter) == without_commas(word)
}

/// The state in which the lexer goes on after a quote.
pub open spec fn after_quote(then: Option<DelimitedQuoteState>) -> State {
    match then {
        Some(quote) => State::DelimitedQuote(quote),
        None => State::Normal,
    }
}

impl DelimitedQuoteState {
    /// The invariant: a quote is to be read, and its delimiter lies in the text.
    pub open spec fn wf(self, len: nat) -> bool {
        self.how_many >= 1 && within(self.starting_delimiter_span, len)
    }

    /// The quote that follows this one, if the word that began this one
    /// takes another: its starting delimiter is the one that ended this one.
    pub open spec fn spec_next(self, ending_delimiter_span: Span) -> Option<DelimitedQuoteState> {
        if self.how_many > 1 {
            Some(
                DelimitedQuoteState {
                    how_many: (self.how_many - 1) as u8,
                    initiator_span: self.initiator_span,
                    is_first: false,
                    starting_delimiter_span: ending_delimiter_span,
                },
            )
        } else {
            None
        }
    }

    /// The quote that follows this one; see [`DelimitedQuoteState::spec_next`].
    pub fn next(self, ending_delimiter_span: Span) -> (then: Option<DelimitedQuoteState>)
        ensures
            then == self.spec_next(ending_delimiter_span),
    {
        if self.how_many > 1 {
            Some(
                DelimitedQuoteState {
                    how_many: self.how_many - 1,
                    initiator_span: self.initiator_span,
                    is_first: false,
                    starting_delimiter_span: ending_delimiter_span,
                },
            )
        } else {
            None
        }
    }
}

impl State {
    /// The invariant: the quotes that are still to be read are well formed.
    pub open spec fn wf(self, len: nat) -> bool {
        match self {
            State::DelimitedQuote(quote) => quote.wf(len),
            State::TwoMoreTokensThen(_, _, Some(quote)) => quote.wf(len),
            State::OneMoreTokenThen(_, Some(quote)) => quote.wf(len),
            _ => true,
        }
    }
}

/// What reading a quote up to its end found.
pub struct Scan {
    /// The delimiter that ends the quote, if the text holds one.
    pub closing: Option<Span>,
    /// Where the quoted text begins, if there is any.
    pub first: Option<u32>,
    /// Where the quoted text ends, if there is any.
    pub last: Option<u32>,
    /// The decomposer behind the quote.
    pub words: DecomposerState,
}

/// Read stretches of text as they stand until one closes the quote that
/// `delimiter` opened. The stretches before that one are the quoted text:
/// it reaches from the start of the first to the end of the last.
pub open spec fn scan_quote(
    words: DecomposerState,
    delimiter: Seq<u8>,
    first: Option<u32>,
    last: Option<u32>,
) -> Scan
    decreases words.left(), words.pending.len(),
{
    match words.next_raw() {
        (Some(word), after) => if closes(delimiter, word.of(words.text)) {
            Scan { closing: Some(word), first, last, words: after }
        } else {
            scan_quote(
                after,
                delimiter,
                Some(
                    match first {
                        Some(start) => start,
                        None => word.start,
                    },
                ),
                Some(word.end),
            )
        },
        (None, after) => Scan { closing: None, first, last, words: after },
    }
}

/// The token of the text that a scan found, unless it found no text: nothing
/// stands between the delimiters, or only stretches that are empty.
pub open spec fn quoted_text(scan: Scan) -> Option<Token> {
    match (scan.first, scan.last) {
        (Some(start), Some(end)) => if start < end {
            Some(text_token(Span { start, end }))
        } else {
            None
        },
        _ => None,
    }
}

/// What a [`Lexer`] stands for.
pub struct LexerState {
    /// The decomposer that the words come from.
    pub words: DecomposerState,
    /// The state of the lexer.
    pub state: State,
}

impl LexerState {
    /// The invariant of a lexer.
    pub open spec fn wf(self) -> bool {
        self.words.wf() && self.state.wf(self.words.text.len())
    }

    /// The lexer with another decomposer and another state.
    pub open spec fn with(self, words: DecomposerState, state: State) -> LexerState {
        LexerState { words, state }
    }

    /// A step between quotes. The next word is classified and yielded. A
    /// word of ZOI, MUhOI or SOhEhAI begins a delimited quote, whose
    /// delimiter is the word after it; one of MEhOI, ZOhOI or DOhOI begins a
    /// pause-delimited quote; one of FAhO or FAhOhO ends the text.
    pub open spec fn next_normal(self) -> (Option<Result<Token>>, LexerState) {
        match self.words.next() {
            (None, words) => (None, self.with(words, State::Normal)),
            (Some(span), words) => {
                let (selmaho, experimental) = spec_classify(span.of(self.words.text));
                let token = Token { experimental, selmaho, span };
                if selmaho == Selmaho::Zoi || selmaho == Selmaho::Muhoi || selmaho
                    == Selmaho::Sohehai {
                    match words.next() {
                        (Some(delimiter), behind) => (
                            Some(Ok(token)),
                            self.with(
                                behind,
                                State::DelimitedQuote(
                                    DelimitedQuoteState {
                                        how_many: if selmaho == Selmaho::Sohehai {
                                            2
                                        } else {
                                            1
                                        },
                                        initiator_span: span,
                                        is_first: true,
                                        starting_delimiter_span: delimiter,
                                    },
                                ),
                            ),
                        ),
                        (None, behind) => (
                            Some(Err(Error::DelimitedQuoteMissingSeparator { initiator_span: span })),
                            self.with(behind, State::Done),
                        ),
                    }
                } else if selmaho == Selmaho::Mehoi || selmaho == Selmaho::Zohoi || selmaho
                    == Selmaho::Dohoi {
                    (
                        Some(Ok(token)),
                        self.with(words, State::PauseDelimitedQuote { initiator_span: span }),
                    )
                } else if selmaho == Selmaho::Faho || selmaho == Selmaho::Fahoho {
                    (Some(Ok(token)), self.with(words, State::Done))
                } else {
                    (Some(Ok(token)), self.with(words, State::Normal))
                }
            },
        }
    }

    /// A step at the start of a quote. The quote is read to its end. Of the
    /// first quote after the word that began it, the starting delimiter is
    /// yielded now, and the text and the ending delimiter wait; of a later
    /// one the starting delimiter has been yielded as the end of the quote
    /// before, so the text is yielded if there is any, else the ending
    /// delimiter. No token is yielded for text that is empty. A quote that
    /// the text does not close is an error.
    pub open spec fn next_delimited_quote(self, quote: DelimitedQuoteState) -> (
        Option<Result<Token>>,
        LexerState,
    ) {
        let scan = scan_quote(
            self.words,
            quote.starting_delimiter_span.of(self.words.text),
            None,
            None,
        );
        match scan.closing {
            None => (
                Some(
                    Err(
                        Error::DelimitedQuoteUnclosed {
                            initiator_span: quote.initiator_span,
                            starting_delimiter_span: quote.starting_delimiter_span,
                        },
                    ),
                ),
                self.with(scan.words, State::Done),
            ),
            Some(ending) => {
                let end = delimiter_token(ending);
                let then = quote.spec_next(ending);
                match quoted_text(scan) {
                    Some(text) => if quote.is_first {
                        (
                            Some(Ok(delimiter_token(quote.starting_delimiter_span))),
                            self.with(scan.words, State::TwoMoreTokensThen(text, end, then)),
                        )
                    } else {
                        (
                            Some(Ok(text)),
                            self.with(scan.words, State::OneMoreTokenThen(end, then)),
                        )
                    },
                    None => if quote.is_first {
                        (
                            Some(Ok(delimiter_token(quote.starting_delimiter_span))),
                            self.with(scan.words, State::OneMoreTokenThen(end, then)),
                        )
                    } else {
                        (Some(Ok(end)), self.with(scan.words, after_quote(then)))
                    },
                }
            },
        }
    }

    /// A step behind a word that quotes the next stretch of text: that
    /// stretch is yielded as it stands. It is an error if the text has ended.
    pub open spec fn next_pause_delimited_quote(self, initiator_span: Span) -> (
        Option<Result<Token>>,
        LexerState,
    ) {
        match self.words.next_raw() {
            (Some(word), words) => (Some(Ok(text_token(word))), self.with(words, State::Normal)),
            (None, words) => (
                Some(Err(Error::PauseDelimitedQuoteEof { initiator_span })),
                self.with(words, State::Done),
            ),
        }
    }

    /// One step of the lexer: what it yields, and the lexer after it.
    pub open spec fn next(self) -> (Option<Result<Token>>, LexerState) {
        match self.state {
            State::Normal => self.next_normal(),
            State::DelimitedQuote(quote) => self.next_delimited_quote(quote),
            State::TwoMoreTokensThen(text, end, then) => (
                Some(Ok(text)),
                self.with(self.words, State::OneMoreTokenThen(end, then)),
            ),
            State::OneMoreTokenThen(end, then) => (
                Some(Ok(end)),
                self.with(self.words, after_quote(then)),
            ),
            State::PauseDelimitedQuote { initiator_span } => self.next_pause_delimited_quote(
                initiator_span,
            ),
            State::Done => (None, self),
        }
    }

    /// The lexer after `polls` steps.
    pub open spec fn after(self, polls: nat) -> LexerState
        decreases polls,
    {
        if polls == 0 {
            self
        } else {
            self.next().1.after((polls - 1) as nat)
        }
    }
}

/// The lexer, which yields the tokens of a text one by one. [`lex`] makes one.
#[derive(Debug, Clone)]
pub struct Lexer<'input> {
    words: Decomposer<'input>,
    state: State,
}

impl<'input> View for Lexer<'input> {
    type V = LexerState;

    closed spec fn view(&self) -> LexerState {
        LexerState { words: self.words@, state: self.state }
    }
}

/// A stretch of text that is handed out as it stands begins where the one
/// before it left off or later, and lies in the text.
pub proof fn lemma_next_raw_moves_on(words: DecomposerState)
    requires
        words.wf(),
    ensures
        words.next_raw().1.wf(),
        words.next_raw().1.text == words.text,
        words.next_raw().0 matches Some(word) ==> word.start == floor(words) && word.start
            <= word.end <= floor(words.next_raw().1) <= words.text.len() && (
        words.next_raw().1.left() < words.left() || (words.next_raw().1.left() == words.left()
            && words.next_raw().1.pending.len() < words.pending.len())),
{
    if words.pending.len() == 0 {
        if let Some(at) = words.cursor {
            lemma_chunk_len_bounds(words.text, at);
        }
    } else {
        assert(words.pending[0].start <= words.pending[0].end <= words.chunk_end());
    }
}

/// Whether the spans that a quote holds can be cut out of the text.
pub open spec fn quote_fits(then: Option<DelimitedQuoteState>, text: Seq<u8>) -> bool {
    then matches Some(quote) ==> quote.starting_delimiter_span.fits(text)
}

/// Whether the spans that a state holds in store can be cut out of the text.
pub open spec fn state_fits(state: State, text: Seq<u8>) -> bool {
    match state {
        State::DelimitedQuote(quote) => quote.starting_delimiter_span.fits(text),
        State::TwoMoreTokensThen(first, second, then) => first.span.fits(text) && second.span.fits(
            text,
        ) && quote_fits(then, text),
        State::OneMoreTokenThen(token, then) => token.span.fits(text) && quote_fits(then, text),
        _ => true,
    }
}

impl<'input> Lexer<'input> {
    /// The invariant of a lexer; see [`LexerState::wf`].
    pub closed spec fn wf(&self) -> bool {
        self@.wf() && self.words.wf() && state_fits(self.state, self.words@.text)
    }

    fn word(&self, span: Span) -> (word: &'input [u8])
        requires
            within(span, self@.words.text.len()),
        ensures
            word@ == span.of(self@.words.text),
    {
        slice_subrange(self.words.text(), span.start as usize, span.end as usize)
    }

    fn next_normal(&mut self) -> (token: Option<Result<Token>>)
        requires
            old(self).wf(),
        ensures
            final(self).wf(),
            (token, final(self)@) == old(self)@.next_normal(),
            token matches Some(Ok(found)) ==> found.span.fits(final(self)@.words.text),
    {
        let span = match self.words.next() {
            Some(span) => span,
            None => {
                self.state = State::Normal;
                proof {
                    self.words.lemma_wf();
                }
                return None;
            },
        };
        proof {
            self.words.lemma_wf();
        }
        let (selmaho, experimental) = Selmaho::classify_bytes(self.word(span));
        let token = Token { experimental, selmaho, span };
        if selmaho == Selmaho::Zoi || selmaho == Selmaho::Muhoi || selmaho == Selmaho::Sohehai {
            let how_many: u8 = if selmaho == Selmaho::Sohehai {
                2
            } else {
                1
            };
            let delimiter = self.words.next();
            proof {
                self.words.lemma_wf();
            }
            match delimiter {
                Some(delimiter) => {
                    self.state = State::DelimitedQuote(
                        DelimitedQuoteState {
                            how_many,
                            initiator_span: span,
                            is_first: true,
                            starting_delimiter_span: delimiter,
                        },
                    );
                },
                None => {
                    self.state = State::Done;
                    return Some(Err(Error::DelimitedQuoteMissingSeparator { initiator_span: span }));
                },
            }
        } else if selmaho == Selmaho::Mehoi || selmaho == Selmaho::Zohoi || selmaho
            == Selmaho::Dohoi {
            self.state = State::PauseDelimitedQuote { initiator_span: span };
        } else if selmaho == Selmaho::Faho || selmaho == Selmaho::Fahoho {
            self.state = State::Done;
        } else {
            self.state = State::Normal;
        }
        Some(Ok(token))
    }

    fn next_delimited_quote(&mut self, quote: DelimitedQuoteState) -> (token: Option<
        Result<Token>,
    >)
        requires
            old(self).wf(),
            quote.wf(old(self)@.words.text.len()),
            quote.starting_delimiter_span.fits(old(self)@.words.text),
        ensures
            final(self).wf(),
            (token, final(self)@) == old(self)@.next_delimited_quote(quote),
            token matches Some(Ok(found)) ==> found.span.fits(final(self)@.words.text),
    {
        let starting_delimiter = self.word(quote.starting_delimiter_span);
        let strategy = ZoiDelimiterComparisonStrategy::default();
        let mut start_of_quote: Option<u32> = None;
        let mut end_of_quote: Option<u32> = None;
        loop
            invariant
                self.wf(),
                self@.words.text == old(self)@.words.text,
                starting_delimiter@ == quote.starting_delimiter_span.of(self@.words.text),
                strategy.ignore_commas_in_start && strategy.ignore_commas_in_end,
                quote.wf(self@.words.text.len()),
                start_of_quote is Some <==> end_of_quote is Some,
                start_of_quote matches Some(start) ==> end_of_quote matches Some(end) && start
                    <= end <= floor(self@.words),
                quote.starting_delimiter_span.fits(self@.words.text),
                start_of_quote matches Some(start) ==> is_char_boundary(
                    self@.words.text,
                    start as int,
                ),
                end_of_quote matches Some(end) ==> end <= self@.words.text.len()
                    && is_char_boundary(self@.words.text, end as int),
                scan_quote(self@.words, starting_delimiter@, start_of_quote, end_of_quote)
                    == scan_quote(old(self)@.words, starting_delimiter@, None, None),
            decreases self@.words.left(), self@.words.pending.len(),
        {
            proof {
                lemma_next_raw_moves_on(self@.words);
            }
            let raw = self.words.next_no_decomposition();
            proof {
                self.words.lemma_wf();
            }
            match raw {
                Some(word_span) => {
                    let possible_ending_delimiter = self.word(word_span);
                    if strategy.compare(starting_delimiter, possible_ending_delimiter) {
                        let start_token = Token {
                            experimental: false,
                            selmaho: Selmaho::ZoiDelimiter,
                            span: quote.starting_delimiter_span,
                        };
                        let end_token = Token {
                            experimental: false,
                            selmaho: Selmaho::ZoiDelimiter,
                            span: word_span,
                        };
                        let then = quote.next(word_span);
                        let text = match (start_of_quote, end_of_quote) {
                            (Some(start), Some(end)) => if start < end {
                                Some(
                                    Token {
                                        experimental: false,
                                        selmaho: Selmaho::AnyText,
                                        span: Span::new(start, end),
                                    },
                                )
                            } else {
                                None
                            },
                            _ => None,
                        };
                        if quote.is_first {
                            self.state = match text {
                                Some(text) => State::TwoMoreTokensThen(text, end_token, then),
                                None => State::OneMoreTokenThen(end_token, then),
                            };
                            return Some(Ok(start_token));
                        } else if let Some(text) = text {
                            self.state = State::OneMoreTokenThen(end_token, then);
                            return Some(Ok(text));
                        } else {
                            self.state = match then {
                                Some(quote) => State::DelimitedQuote(quote),
                                None => State::Normal,
                            };
                            return Some(Ok(end_token));
                        }
                    } else {
                        if start_of_quote.is_none() {
                            start_of_quote = Some(word_span.start);
                        }
                        end_of_quote = Some(word_span.end);
                    }
                },
                None => {
                    self.state = State::Done;
                    return Some(
                        Err(
                            Error::DelimitedQuoteUnclosed {
                                initiator_span: quote.initiator_span,
                                starting_delimiter_span: quote.starting_delimiter_span,
                            },
                        ),
                    );
                },
            }
        }
    }

    fn next_pause_delimited_quote(&mut self, initiator_span: Span) -> (token: Option<
        Result<Token>,
    >)
        requires
            old(self).wf(),
        ensures
            final(self).wf(),
            (token, final(self)@) == old(self)@.next_pause_delimited_quote(initiator_span),
            token matches Some(Ok(found)) ==> found.span.fits(final(self)@.words.text),
    {
        let raw = self.words.next_no_decomposition();
        proof {
            self.words.lemma_wf();
        }
        match raw {
            Some(word) => {
                self.state = State::Normal;
                Some(Ok(Token { experimental: false, selmaho: Selmaho::AnyText, span: word }))
            },
            None => {
                self.state = State::Done;
                Some(Err(Error::PauseDelimitedQuoteEof { initiator_span }))
            },
        }
    }

    /// The next token of the text, or the reason why there is none, or
    /// `None` when the text has ended; see [`LexerState::next`]. The span of
    /// a token can be cut out of the text. The lexer is fused: after an error
    /// or `None` it yields `None` for ever.
    pub fn next(&mut self) -> (token: Option<Result<Token>>)
        requires
            old(self).wf(),
        ensures
            final(self).wf(),
            (token, final(self)@) == old(self)@.next(),
            token matches Some(Ok(found)) ==> found.span.fits(final(self)@.words.text),
    {
        match self.state {
            State::Normal => self.next_normal(),
            State::DelimitedQuote(quote) => self.next_delimited_quote(quote),
            State::TwoMoreTokensThen(text, end, then) => {
                self.state = State::OneMoreTokenThen(end, then);
                Some(Ok(text))
            },
            State::OneMoreTokenThen(end, then) => {
                self.state = match then {
                    Some(quote) => State::DelimitedQuote(quote),
                    None => State::Normal,
                };
                Some(Ok(end))
            },
            State::PauseDelimitedQuote { initiator_span } => self.next_pause_delimited_quote(
                initiator_span,
            ),
            State::Done => None,
        }
    }
}

/// Lex the Lojban text `input`: make the [`Lexer`] that yields its tokens.
pub fn lex(input: &str) -> (tokens: Lexer<'_>)
    requires
        input.spec_bytes().len() <= u32::MAX,
    ensures
        tokens.wf(),
        tokens@ == (LexerState {
            words: DecomposerState {
                text: input.spec_bytes(),
                pending: Seq::empty(),
                cursor: Some(0nat),
            },
            state: State::Normal,
        }),
{
    let tokens = Lexer { words: decompose(input), state: State::Normal };
    proof {
        tokens.words.lemma_wf();
    }
    tokens
}

impl LexerState {
    /// Whether the lexer has come to its end: it is done, or it stands
    /// between quotes and no word is left.
    pub open spec fn is_finished(self) -> bool {
        self.state == State::Done || (self.state == State::Normal && self.words.next().0 is None)
    }
}

/// A lexer that has come to its end yields nothing, and stays at its end.
pub proof fn lemma_finished_stays_finished(lexer: LexerState)
    requires
        lexer.is_finished(),
    ensures
        lexer.next().0 is None,
        lexer.next().1.is_finished(),
{
    if lexer.state != State::Done {
        lemma_decomposer_is_fused(lexer.words);
    }
}

/// After the lexer has yielded `None` or an error it has come to its end.
pub proof fn lemma_none_or_error_finishes(lexer: LexerState)
    requires
        lexer.next().0 is None || lexer.next().0 matches Some(Err(_)),
    ensures
        lexer.next().1.is_finished(),
{
    match lexer.state {
        State::Normal => {
            lemma_decomposer_is_fused(lexer.words);
        },
        _ => {},
    }
}

/// A lexer that has come to its end yields nothing, however often it is asked.
pub proof fn lemma_finished_for_ever(lexer: LexerState, polls: nat)
    requires
        lexer.is_finished(),
    ensures
        lexer.after(polls).is_finished(),
        lexer.after(polls).next().0 is None,
    decreases polls,
{
    lemma_finished_stays_finished(lexer);
    if polls > 0 {
        lemma_finished_for_ever(lexer.next().1, (polls - 1) as nat);
    }
}

/// The lexer is fused: once it has yielded `None` or an error, it yields
/// `None` at every later step.
pub proof fn lemma_lex_is_fused(lexer: LexerState, polls: nat)
    requires
        lexer.next().0 is None || lexer.next().0 matches Some(Err(_)),
        polls >= 1,
    ensures
        lexer.after(polls).next().0 is None,
{
    lemma_none_or_error_finishes(lexer);
    lemma_finished_for_ever(lexer.next().1, (polls - 1) as nat);
}

/// The tokens come in the order of the text between quotes: a word that is
/// yielded as it was decomposed stands where the decomposer found it.
pub proof fn lemma_normal_token_is_next_word(lexer: LexerState)
    requires
        lexer.state == State::Normal,
        lexer.next().0 matches Some(Ok(_)),
    ensures
        lexer.words.next().0 == Some(lexer.next().0.unwrap().unwrap().span),
        (lexer.next().0.unwrap().unwrap().selmaho, lexer.next().0.unwrap().unwrap().experimental)
            == spec_classify(lexer.next().0.unwrap().unwrap().span.of(lexer.words.text)),
{
}

/// The token of the text of a quote is never empty.
pub proof fn lemma_quoted_text_is_not_empty(scan: Scan)
    ensures
        quoted_text(scan) matches Some(token) ==> token.selmaho == Selmaho::AnyText
            && token.span.start < token.span.end,
{
}

/// Whether a quote that is still to be read lies before what the decomposer
/// has not dealt with.
pub open spec fn quote_lies_before(quote: DelimitedQuoteState, words: DecomposerState) -> bool {
    quote.starting_delimiter_span.start <= quote.starting_delimiter_span.end <= floor(words)
}

impl LexerState {
    /// The invariant that the order of the tokens rests on: the state of the
    /// decomposer is as its laws ask, and the tokens and delimiters that the
    /// lexer holds in store come in the order of the text, before what the
    /// decomposer has not dealt with.
    pub open spec fn ordered(self) -> bool {
        &&& self.words.tiled()
        &&& match self.state {
            State::DelimitedQuote(quote) => quote_lies_before(quote, self.words),
            State::TwoMoreTokensThen(text, end, then) => {
                &&& text.span.start <= text.span.end <= end.span.start
                &&& end.span.start <= end.span.end <= floor(self.words)
                &&& then matches Some(quote) ==> !quote.is_first && quote_lies_before(
                    quote,
                    self.words,
                )
            },
            State::OneMoreTokenThen(end, then) => {
                &&& end.span.start <= end.span.end <= floor(self.words)
                &&& then matches Some(quote) ==> !quote.is_first && quote_lies_before(
                    quote,
                    self.words,
                )
            },
            _ => true,
        }
    }

    /// Where the next token begins at the earliest.
    pub open spec fn floor(self) -> nat {
        match self.state {
            State::DelimitedQuote(quote) => if quote.is_first {
                quote.starting_delimiter_span.start as nat
            } else {
                floor(self.words)
            },
            State::TwoMoreTokensThen(text, _, _) => text.span.start as nat,
            State::OneMoreTokenThen(end, _) => end.span.start as nat,
            _ => floor(self.words),
        }
    }
}

/// What is read of a quote comes in the order of the text: the text of the
/// quote lies behind what was read before, and its closing delimiter behind
/// the text.
pub proof fn lemma_scan_moves_on(
    words: DecomposerState,
    delimiter: Seq<u8>,
    first: Option<u32>,
    last: Option<u32>,
)
    requires
        words.tiled(),
        first is Some <==> last is Some,
        first matches Some(start) ==> last matches Some(end) && start <= end <= floor(words),
    ensures
        scan_quote(words, delimiter, first, last).words.tiled(),
        scan_quote(words, delimiter, first, last).words.text == words.text,
        scan_quote(words, delimiter, first, last).first is Some <==> scan_quote(
            words,
            delimiter,
            first,
            last,
        ).last is Some,
        first matches Some(start) ==> scan_quote(words, delimiter, first, last).first == first,
        first is None ==> (scan_quote(words, delimiter, first, last).first matches Some(start)
            ==> floor(words) <= start),
        scan_quote(words, delimiter, first, last).closing matches Some(closing) ==> floor(words)
            <= closing.start <= closing.end <= floor(
            scan_quote(words, delimiter, first, last).words,
        ) <= words.text.len() && (scan_quote(words, delimiter, first, last).first matches Some(
            start,
        ) ==> scan_quote(words, delimiter, first, last).last matches Some(end) && start <= end
            <= closing.start),
    decreases words.left(), words.pending.len(),
{
    lemma_next_raw_moves_on(words);
    lemma_next_raw_tiles(words);
    match words.next_raw() {
        (Some(word), after) => {
            if !closes(delimiter, word.of(words.text)) {
                lemma_scan_moves_on(
                    after,
                    delimiter,
                    Some(
                        match first {
                            Some(start) => start,
                            None => word.start,
                        },
                    ),
                    Some(word.end),
                );
            }
        },
        (None, _) => {},
    }
}

/// The tokens come in the order of the text and do not overlap: a token
/// begins at or after the place up to which the lexer has yielded the text,
/// and the lexer has yielded the text up to its end afterwards.
pub proof fn lemma_next_token(lexer: LexerState)
    requires
        lexer.ordered(),
    ensures
        lexer.next().1.ordered(),
        lexer.next().1.words.text == lexer.words.text,
        lexer.next().0 matches Some(Ok(token)) ==> lexer.floor() <= token.span.start
            <= token.span.end <= lexer.next().1.floor() <= lexer.words.text.len(),
{
    match lexer.state {
        State::Normal => {
            lemma_next_word(lexer.words);
            lemma_next_word(lexer.words.next().1);
        },
        State::DelimitedQuote(quote) => {
            lemma_scan_moves_on(
                lexer.words,
                quote.starting_delimiter_span.of(lexer.words.text),
                None,
                None,
            );
        },
        State::PauseDelimitedQuote { initiator_span } => {
            lemma_next_raw_moves_on(lexer.words);
            lemma_next_raw_tiles(lexer.words);
        },
        State::TwoMoreTokensThen(_, _, _) => {
            lemma_floor_in_text(lexer.words);
        },
        State::OneMoreTokenThen(_, _) => {
            lemma_floor_in_text(lexer.words);
        },
        State::Done => {},
    }
}

/// Nothing is left to be dealt with beyond the end of the text.
proof fn lemma_floor_in_text(words: DecomposerState)
    requires
        words.wf(),
    ensures
        floor(words) <= words.text.len(),
{
    if words.pending.len() > 0 {
        assert(words.pending[0].start <= words.pending[0].end <= words.chunk_end());
    }
}

/// Two tokens that are yielded one after the other do not overlap, and the
/// first ends before the second begins or where it begins.
pub proof fn lemma_tokens_do_not_overlap(lexer: LexerState)
    requires
        lexer.ordered(),
        lexer.next().0 matches Some(Ok(_)),
        lexer.next().1.next().0 matches Some(Ok(_)),
    ensures
        ({
            let first = lexer.next().0.unwrap().unwrap().span;
            let second = lexer.next().1.next().0.unwrap().unwrap().span;
            first.end <= second.start && !first.spec_overlaps_with(second)
        }),
{
    lemma_next_token(lexer);
    lemma_next_token(lexer.next().1);
}

/// A lexer that is new holds its tokens in order.
pub proof fn lemma_new_is_ordered(text: Seq<u8>)
    requires
        text.len() <= u32::MAX,
    ensures
        (LexerState {
            words: DecomposerState { text, pending: Seq::empty(), cursor: Some(0nat) },
            state: State::Normal,
        }).ordered(),
{
}

} // verus!
