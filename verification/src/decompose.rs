//! Decomposition of Lojban text into words.
//!
//! The text is first split at pauses and white space into chunks. A chunk is
//! one word, or several words written together without a pause between them:
//! `minajimpe` is `mi`, `na` and `jimpe`. The [`Decomposer`] hands the words
//! out one by one, each as the [`Span`] that it takes up in the text.

use vstd::prelude::*;
use vstd::slice::slice_subrange;
use vstd::string::StringSliceAdditionalSpecFns;
use vstd::utf8::{encode_utf8_valid_utf8, is_char_boundary, is_char_boundary_start_end_of_seq, valid_utf8};

use crate::rules::{
    advanced, cmavo_minimal, explicitly_stressed_brivla_minimal, first, fuhivla, gismu,
    lujvo_minimal, nucleus, rest, spec_cmavo_minimal, spec_explicitly_stressed_brivla_minimal,
    spec_fuhivla, spec_gismu, spec_lujvo_minimal, spec_nucleus,
};
use crate::span::{lemma_boundary_behind_plain_byte, lemma_plain_byte_is_boundary, Span};

verus! {

/// Whether a byte separates chunks: a pause, white space, `?` or `!`.
pub open spec fn is_separator(byte: u8) -> bool {
    byte == 0x2e || byte == 0x09 || byte == 0x0a || byte == 0x0d || byte == 0x3f || byte == 0x21
        || byte == 0x20
}

/// Whether a byte is a consonant of Lojban, in either case.
pub open spec fn is_consonant_byte(byte: u8) -> bool {
    let lower = if 0x41 <= byte <= 0x5a {
        (byte + 0x20) as u8
    } else {
        byte
    };
    lower == 0x62 || lower == 0x63 || lower == 0x64 || lower == 0x66 || lower == 0x67 || lower
        == 0x6a || lower == 0x6b || lower == 0x6c || lower == 0x6d || lower == 0x6e || lower
        == 0x70 || lower == 0x72 || lower == 0x73 || lower == 0x74 || lower == 0x76 || lower
        == 0x78 || lower == 0x7a
}

/// The length of `w` without the commas at its end.
pub open spec fn trimmed_len(w: Seq<u8>) -> nat
    decreases w.len(),
{
    if w.len() > 0 && w.last() == 0x2c {
        trimmed_len(w.drop_last())
    } else {
        w.len()
    }
}

/// Whether the last byte of `w` that is no comma is a consonant. A chunk
/// that ends so is a cmevla, and one word as a whole.
pub open spec fn ends_in_consonant(w: Seq<u8>) -> bool {
    trimmed_len(w) > 0 && is_consonant_byte(w[trimmed_len(w) - 1])
}

/// What may fall off the front of a chunk at `q`: a cmavo, or else a brivla
/// whose stress is written out.
pub open spec fn peel(w: Seq<u8>, q: nat) -> Option<nat> {
    first(spec_cmavo_minimal(w, q), spec_explicitly_stressed_brivla_minimal(w, q))
}

/// Where the words that fall off the front of `w` from `q` on end, one after
/// the other, until nothing falls off any more.
pub open spec fn cuts(w: Seq<u8>, q: nat) -> Seq<nat>
    decreases rest(w, q),
{
    match peel(w, q) {
        Some(len) => if advanced(w, q, len) {
            seq![q + len] + cuts(w, q + len)
        } else {
            Seq::empty()
        },
        None => Seq::empty(),
    }
}

/// Where the word that ends at the cut `i` begins: at the cut before it.
pub open spec fn cut_before(c: Seq<nat>, i: int) -> nat {
    if i <= 0 {
        0
    } else {
        c[i - 1]
    }
}

/// Whether a word begins at `q`, so that what fell off just before `q` is a
/// word of its own: no nucleus, and then a gismu, a fuhivla, a lujvo or a
/// cmavo.
pub open spec fn word_follows(w: Seq<u8>, q: nat) -> bool {
    spec_nucleus(w, q) is None && (spec_gismu(w, q) is Some || spec_fuhivla(w, q) is Some
        || spec_lujvo_minimal(w, q) is Some || spec_cmavo_minimal(w, q) is Some)
}

/// How many of the words that fell off `w` are kept. The last one is kept
/// only if a word follows it; the others are vouched for by the one that
/// fell off after them.
pub open spec fn kept(w: Seq<u8>) -> nat {
    let c = cuts(w, 0);
    if c.len() == 0 {
        0
    } else if word_follows(w, c.last()) {
        c.len()
    } else {
        (c.len() - 1) as nat
    }
}

/// Whether a word can begin or end at `at` in the chunk `w` without cutting a
/// character in two: at an end of the chunk, or before a byte that is a
/// character by itself.
pub open spec fn plain_at(w: Seq<u8>, at: int) -> bool {
    at == 0 || at == w.len() || (0 < at < w.len() && w[at] < 0x80)
}

/// The span of the bytes from `from` to `to` of a chunk that begins at `base`.
pub open spec fn span_in(base: nat, from: nat, to: nat) -> Span {
    Span { start: (base + from) as u32, end: (base + to) as u32 }
}

/// The words that were kept of those that fell off a chunk.
pub open spec fn peeled_words(w: Seq<u8>, base: nat, count: nat) -> Seq<Span> {
    Seq::new(count, |i: int| span_in(base, cut_before(cuts(w, 0), i), cuts(w, 0)[i]))
}

/// The words of one chunk that begins at `base` in the text. A chunk that
/// ends in a consonant is one word. Of any other chunk, the words that fall
/// off its front and are kept come first, and what is left is the last
/// word, without the commas at its end and unless nothing is left.
pub open spec fn spec_decompose_single(w: Seq<u8>, base: nat) -> Seq<Span> {
    if ends_in_consonant(w) {
        seq![span_in(base, 0, w.len())]
    } else {
        let from = cut_before(cuts(w, 0), kept(w) as int);
        if trimmed_len(w) > from {
            peeled_words(w, base, kept(w)).push(span_in(base, from, trimmed_len(w)))
        } else {
            peeled_words(w, base, kept(w))
        }
    }
}

/// Where the chunk that begins at `from` ends: at the next separator, or at
/// the end of the text.
pub open spec fn chunk_len(text: Seq<u8>, from: nat) -> nat
    decreases rest(text, from),
{
    if from < text.len() && !is_separator(text[from as int]) {
        1 + chunk_len(text, from + 1)
    } else {
        0
    }
}

/// Where the chunks go on after the chunk that begins at `from`: behind the
/// separator that ends it, or nowhere if the text ends it.
pub open spec fn next_chunk(text: Seq<u8>, from: nat) -> Option<nat> {
    if from + chunk_len(text, from) < text.len() {
        Some(from + chunk_len(text, from) + 1)
    } else {
        None
    }
}

/// The words of the chunk that begins at `from`: none if the chunk is empty
/// or holds commas only.
pub open spec fn chunk_words(text: Seq<u8>, from: nat) -> Seq<Span> {
    let chunk = text.subrange(from as int, (from + chunk_len(text, from)) as int);
    if trimmed_len(chunk) > 0 {
        spec_decompose_single(chunk, from)
    } else {
        Seq::empty()
    }
}

/// What a [`Decomposer`] stands for.
pub struct DecomposerState {
    /// The bytes of the text.
    pub text: Seq<u8>,
    /// The words of the current chunk that have not been handed out.
    pub pending: Seq<Span>,
    /// Where the next chunk begins, if the text holds another.
    pub cursor: Option<nat>,
}

impl DecomposerState {
    /// Where the current chunk ends, if one has been begun.
    pub open spec fn chunk_end(self) -> nat {
        match self.cursor {
            Some(at) => (at - 1) as nat,
            None => self.text.len(),
        }
    }

    /// The invariant: the text is short enough for spans, the cursor lies
    /// behind a separator in it, and the pending words lie in the current
    /// chunk.
    pub open spec fn wf(self) -> bool {
        &&& self.text.len() <= u32::MAX
        &&& self.cursor matches Some(at) ==> at <= self.text.len() && (self.pending.len() > 0
            ==> at > 0)
        &&& forall|i: int|
            0 <= i < self.pending.len() ==> (#[trigger] self.pending[i]).start
                <= self.pending[i].end <= self.chunk_end()
    }

    /// How far the decomposer is from the end of the text.
    pub open spec fn left(self) -> nat {
        match self.cursor {
            Some(at) => rest(self.text, at) + 1,
            None => 0,
        }
    }

    /// The state after the chunk at the cursor has been begun.
    pub open spec fn enter(self, at: nat) -> DecomposerState {
        DecomposerState {
            text: self.text,
            pending: chunk_words(self.text, at),
            cursor: next_chunk(self.text, at),
        }
    }

    /// The next word and the state after it was handed out: the first
    /// pending word, or else the first word of the next chunk that has one.
    pub open spec fn next(self) -> (Option<Span>, DecomposerState)
        decreases self.left(), self.pending.len(),
    {
        if self.pending.len() > 0 {
            (
                Some(self.pending[0]),
                DecomposerState {
                    text: self.text,
                    pending: self.pending.drop_first(),
                    cursor: self.cursor,
                },
            )
        } else {
            match self.cursor {
                Some(at) => if at <= self.text.len() {
                    self.enter(at).next()
                } else {
                    (None, self)
                },
                None => (None, self),
            }
        }
    }

    /// The next stretch of text when nothing is to be decomposed, and the
    /// state after it was handed out. In the middle of a chunk that is what
    /// is left of the chunk, from the first pending word to the separator;
    /// else it is the next chunk as it stands, be it empty.
    pub open spec fn next_raw(self) -> (Option<Span>, DecomposerState) {
        if self.pending.len() > 0 {
            (
                Some(Span { start: self.pending[0].start, end: self.chunk_end() as u32 }),
                DecomposerState { text: self.text, pending: Seq::empty(), cursor: self.cursor },
            )
        } else {
            match self.cursor {
                Some(at) => (
                    Some(span_in(0, at, at + chunk_len(self.text, at))),
                    DecomposerState {
                        text: self.text,
                        pending: Seq::empty(),
                        cursor: next_chunk(self.text, at),
                    },
                ),
                None => (None, self),
            }
        }
    }
}

/// The condition for splitting and trimming Lojban text: whether `ch` is a
/// pause, white space, `?` or `!`.
#[must_use]
pub fn split_or_trim_condition(ch: char) -> (splits: bool)
    ensures
        splits == (ch == '.' || ch == '\t' || ch == '\n' || ch == '\r' || ch == '?' || ch == '!'
            || ch == ' '),
{
    ch == '.' || ch == '\t' || ch == '\n' || ch == '\r' || ch == '?' || ch == '!' || ch == ' '
}

fn separates(byte: u8) -> (splits: bool)
    ensures
        splits == is_separator(byte),
{
    byte == 0x2e || byte == 0x09 || byte == 0x0a || byte == 0x0d || byte == 0x3f || byte == 0x21
        || byte == 0x20
}

/// Whether a byte is a consonant of Lojban; see [`is_consonant_byte`].
#[must_use]
pub fn is_consonant(byte: u8) -> (consonant: bool)
    ensures
        consonant == is_consonant_byte(byte),
{
    let lower: u8 = if 0x41 <= byte && byte <= 0x5a {
        byte + 0x20
    } else {
        byte
    };
    lower == 0x62 || lower == 0x63 || lower == 0x64 || lower == 0x66 || lower == 0x67 || lower
        == 0x6a || lower == 0x6b || lower == 0x6c || lower == 0x6d || lower == 0x6e || lower
        == 0x70 || lower == 0x72 || lower == 0x73 || lower == 0x74 || lower == 0x76 || lower
        == 0x78 || lower == 0x7a
}

/// Trimming looks at the end of the text only.
proof fn lemma_trimmed_len_bounds(w: Seq<u8>)
    ensures
        trimmed_len(w) <= w.len(),
        trimmed_len(w) > 0 ==> w[trimmed_len(w) - 1] != 0x2c,
        forall|i: int| trimmed_len(w) <= i < w.len() ==> w[i] == 0x2c,
    decreases w.len(),
{
    if w.len() > 0 && w.last() == 0x2c {
        let init = w.drop_last();
        lemma_trimmed_len_bounds(init);
        assert forall|i: int| trimmed_len(w) <= i < w.len() implies w[i] == 0x2c by {
            if i < init.len() {
                assert(init[i] == w[i]);
            }
        }
    }
}

/// A text that ends in commas from `to` on, and not just before `to`, is
/// trimmed to `to`.
proof fn lemma_trimmed_len_is(w: Seq<u8>, to: int)
    requires
        0 <= to <= w.len(),
        to > 0 ==> w[to - 1] != 0x2c,
        forall|i: int| to <= i < w.len() ==> w[i] == 0x2c,
    ensures
        trimmed_len(w) == to,
    decreases w.len(),
{
    if w.len() > to {
        lemma_trimmed_len_is(w.drop_last(), to);
    }
}

fn trim_commas(w: &[u8]) -> (len: usize)
    ensures
        len == trimmed_len(w@),
        len <= w.len(),
        len < w.len() ==> w@[len as int] == 0x2c,
{
    let mut len: usize = w.len();
    while len > 0 && w[len - 1] == 0x2c
        invariant
            len <= w.len(),
            forall|i: int| len <= i < w.len() ==> w@[i] == 0x2c,
        decreases len,
    {
        len -= 1;
    }
    proof {
        lemma_trimmed_len_is(w@, len as int);
    }
    len
}

fn simple_cmevla_check(w: &[u8]) -> (cmevla: bool)
    ensures
        cmevla == ends_in_consonant(w@),
{
    let len: usize = trim_commas(w);
    len > 0 && is_consonant(w[len - 1])
}

fn post_word(w: &[u8], q: usize) -> (follows: bool)
    requires
        q <= w.len(),
    ensures
        follows == word_follows(w@, q as nat),
        follows ==> q < w.len() && w@[q as int] < 0x80,
{
    nucleus(w, q).is_none() && (gismu(w, q).is_some() || fuhivla(w, q).is_some()
        || lujvo_minimal(w, q).is_some() || cmavo_minimal(w, q).is_some())
}

/// The cuts rise, and stay inside the text.
pub proof fn lemma_cuts_rise(w: Seq<u8>, q: nat)
    ensures
        forall|i: int| 0 <= i < cuts(w, q).len() ==> q < #[trigger] cuts(w, q)[i] <= w.len(),
        forall|i: int, j: int|
            0 <= i < j < cuts(w, q).len() ==> #[trigger] cuts(w, q)[i] < #[trigger] cuts(w, q)[j],
    decreases rest(w, q),
{
    match peel(w, q) {
        Some(len) => {
            if advanced(w, q, len) {
                lemma_cuts_rise(w, q + len);
                let tail = cuts(w, q + len);
                assert(cuts(w, q) =~= seq![q + len] + tail);
                assert forall|i: int| 0 <= i < cuts(w, q).len() implies q < #[trigger] cuts(
                    w,
                    q,
                )[i] <= w.len() by {
                    if i > 0 {
                        assert(cuts(w, q)[i] == tail[i - 1]);
                    }
                }
                assert forall|i: int, j: int| 0 <= i < j < cuts(w, q).len() implies #[trigger] cuts(
                    w,
                    q,
                )[i] < #[trigger] cuts(w, q)[j] by {
                    assert(cuts(w, q)[j] == tail[j - 1]);
                    if i > 0 {
                        assert(cuts(w, q)[i] == tail[i - 1]);
                    }
                }
            }
        },
        None => {},
    }
}

fn place(base: usize, from: usize, to: usize) -> (span: Span)
    requires
        from <= to,
        base + to <= u32::MAX,
    ensures
        span == span_in(base as nat, from as nat, to as nat),
        span.wf(),
{
    Span { start: (base + from) as u32, end: (base + to) as u32 }
}

/// Split one chunk, which begins at `base` in the text, into its words; see
/// [`spec_decompose_single`].
pub fn decompose_single(w: &[u8], base: usize) -> (words: Vec<Span>)
    requires
        base + w.len() <= u32::MAX,
    ensures
        words@ == spec_decompose_single(w@, base as nat),
        forall|i: int|
            0 <= i < words.len() ==> base <= (#[trigger] words[i]).start <= words[i].end <= base
                + w.len(),
        forall|i: int|
            0 <= i < words.len() ==> plain_at(w@, (#[trigger] words[i]).start - base) && plain_at(
                w@,
                words[i].end - base,
            ),
{
    if simple_cmevla_check(w) {
        let mut words: Vec<Span> = Vec::new();
        words.push(place(base, 0, w.len()));
        assert(words@ =~= seq![span_in(base as nat, 0, w@.len())]);
        return words;
    }
    let ghost c = cuts(w@, 0);
    let ghost mut done: int = 0;
    let mut words: Vec<Span> = Vec::new();
    let mut at: usize = 0;
    // where the word began that fell off last: it is kept once another one
    // falls off behind it, which is cheaper to find out than `post_word`
    let mut saved: Option<usize> = None;
    let mut more = true;
    proof {
        lemma_cuts_rise(w@, 0);
        assert(c.skip(0) =~= c);
    }
    while more
        invariant
            base + w.len() <= u32::MAX,
            c == cuts(w@, 0),
            0 <= done <= c.len(),
            at == cut_before(c, done),
            at <= w.len(),
            more ==> cuts(w@, at as nat) == c.skip(done),
            !more ==> done == c.len(),
            saved == (if done == 0 {
                None::<usize>
            } else {
                Some(cut_before(c, done - 1) as usize)
            }),
            forall|i: int| 0 <= i < c.len() ==> 0 < #[trigger] c[i] <= w.len(),
            forall|i: int, j: int| 0 <= i < j < c.len() ==> #[trigger] c[i] < #[trigger] c[j],
            words@ == peeled_words(
                w@,
                base as nat,
                (if done == 0 {
                    0
                } else {
                    done - 1
                }) as nat,
            ),
            forall|i: int|
                0 <= i < words.len() ==> base <= (#[trigger] words[i]).start <= words[i].end
                    <= base + w.len(),
            forall|i: int|
                0 <= i < words.len() ==> plain_at(w@, (#[trigger] words[i]).start - base)
                    && plain_at(w@, words[i].end - base),
            saved matches Some(from) ==> plain_at(w@, from as int),
        decreases w.len() - at + (if more { 1int } else { 0int }),
    {
        let hit = match cmavo_minimal(w, at) {
            Some(len) => Some(len),
            None => explicitly_stressed_brivla_minimal(w, at),
        };
        match hit {
            Some(len) => {
                proof {
                    assert(cuts(w@, at as nat) =~= seq![(at + len) as nat] + cuts(
                        w@,
                        (at + len) as nat,
                    ));
                    assert(c.skip(done)[0] == at + len);
                    assert(c[done] == at + len);
                    assert(c.skip(done + 1) =~= c.skip(done).skip(1));
                    assert(c.skip(done).skip(1) =~= cuts(w@, (at + len) as nat));
                }
                if let Some(from) = saved {
                    proof {
                        if done >= 2 {
                            assert(c[done - 2] < c[done - 1]);
                        }
                    }
                    words.push(place(base, from, at));
                    assert(words@ =~= peeled_words(w@, base as nat, done as nat));
                }
                saved = Some(at);
                at = at + len;
                proof {
                    done = done + 1;
                }
            },
            None => {
                proof {
                    assert(c.skip(done).len() == 0);
                }
                more = false;
            },
        }
    }
    if let Some(from) = saved {
        if post_word(w, at) {
            proof {
                if done >= 2 {
                    assert(c[done - 2] < c[done - 1]);
                }
            }
            words.push(place(base, from, at));
            assert(words@ =~= peeled_words(w@, base as nat, done as nat));
        } else {
            at = from;
        }
    }
    assert(at == cut_before(c, kept(w@) as int));
    assert(words@ == peeled_words(w@, base as nat, kept(w@)));
    let to: usize = trim_commas(w);
    if to > at {
        words.push(place(base, at, to));
    }
    words
}

/// The iterator over the words of a text. [`decompose`] makes one.
#[derive(Debug, Clone)]
pub struct Decomposer<'input> {
    /// The bytes of the text.
    input: &'input [u8],
    /// Where the next chunk begins.
    next_chunk: usize,
    /// Whether the text holds no further chunk.
    exhausted: bool,
    /// The words of the current chunk.
    current_chunk: Vec<Span>,
    /// How many words of the current chunk were handed out.
    current_at: usize,
}

impl<'input> View for Decomposer<'input> {
    type V = DecomposerState;

    closed spec fn view(&self) -> DecomposerState {
        DecomposerState {
            text: self.input@,
            pending: self.current_chunk@.skip(self.current_at as int),
            cursor: if self.exhausted {
                None
            } else {
                Some(self.next_chunk as nat)
            },
        }
    }
}

/// A chunk ends at a separator or at the end of the text, and holds no
/// separator itself.
pub proof fn lemma_chunk_len_bounds(text: Seq<u8>, from: nat)
    requires
        from <= text.len(),
    ensures
        from + chunk_len(text, from) <= text.len(),
        from + chunk_len(text, from) < text.len() ==> is_separator(
            text[(from + chunk_len(text, from)) as int],
        ),
        forall|i: int| from <= i < from + chunk_len(text, from) ==> !is_separator(text[i]),
    decreases rest(text, from),
{
    if from < text.len() && !is_separator(text[from as int]) {
        lemma_chunk_len_bounds(text, from + 1);
    }
}

impl<'input> Decomposer<'input> {
    /// The invariant of a decomposer: its state is as the laws of the
    /// decomposer ask ([`DecomposerState::tiled`]), its text is valid UTF-8,
    /// and the words and chunks in it begin and end between characters.
    pub closed spec fn wf(&self) -> bool {
        &&& self@.tiled()
        &&& self.current_at <= self.current_chunk.len()
        &&& valid_utf8(self.input@)
        &&& !self.exhausted ==> is_char_boundary(self.input@, self.next_chunk as int)
        &&& self.current_at < self.current_chunk.len() ==> is_char_boundary(
            self.input@,
            self@.chunk_end() as int,
        )
        &&& forall|i: int|
            self.current_at <= i < self.current_chunk.len() ==> (#[trigger] self.current_chunk[i]).fits(
                self.input@,
            )
    }

    /// The state of a well-formed decomposer is well formed, and its text is
    /// valid UTF-8.
    pub proof fn lemma_wf(&self)
        requires
            self.wf(),
        ensures
            self@.wf(),
            self@.tiled(),
            valid_utf8(self@.text),
    {
    }

    fn new(input: &'input str) -> (words: Decomposer<'input>)
        requires
            input.spec_bytes().len() <= u32::MAX,
        ensures
            words.wf(),
            words@ == (DecomposerState {
                text: input.spec_bytes(),
                pending: Seq::empty(),
                cursor: Some(0nat),
            }),
    {
        let words = Decomposer {
            input: input.as_bytes(),
            next_chunk: 0,
            exhausted: false,
            current_chunk: Vec::new(),
            current_at: 0,
        };
        assert(words@.pending =~= Seq::<Span>::empty());
        proof {
            encode_utf8_valid_utf8(input@);
            is_char_boundary_start_end_of_seq(words.input@);
        }
        words
    }

    /// The bytes of the text that is being decomposed.
    pub fn text(&self) -> (input: &'input [u8])
        ensures
            input@ == self@.text,
    {
        self.input
    }

    /// Take the next chunk as it stands: where it begins and ends.
    fn take_chunk(&mut self) -> (chunk: (usize, usize))
        requires
            old(self).wf(),
            !old(self).exhausted,
        ensures
            final(self).input == old(self).input,
            final(self).current_chunk == old(self).current_chunk,
            final(self).current_at == old(self).current_at,
            chunk.0 == old(self).next_chunk,
            chunk.1 == chunk.0 + chunk_len(old(self)@.text, chunk.0 as nat),
            chunk.1 <= final(self).input.len(),
            final(self)@.cursor == next_chunk(old(self)@.text, chunk.0 as nat),
            final(self).exhausted == (chunk.1 == final(self).input.len()),
            !final(self).exhausted ==> final(self).next_chunk == chunk.1 + 1,
            valid_utf8(final(self).input@),
            is_char_boundary(final(self).input@, chunk.0 as int),
            is_char_boundary(final(self).input@, chunk.1 as int),
            !final(self).exhausted ==> is_char_boundary(
                final(self).input@,
                final(self).next_chunk as int,
            ),
    {
        let from: usize = self.next_chunk;
        let mut to: usize = from;
        proof {
            lemma_chunk_len_bounds(self.input@, from as nat);
        }
        while to < self.input.len() && !separates(self.input[to])
            invariant
                from <= to <= self.input.len(),
                to - from + chunk_len(self.input@, to as nat) == chunk_len(
                    self.input@,
                    from as nat,
                ),
            decreases self.input.len() - to,
        {
            to += 1;
        }
        if to < self.input.len() {
            proof {
                lemma_plain_byte_is_boundary(self.input@, to as int);
                lemma_boundary_behind_plain_byte(self.input@, to + 1);
            }
            self.next_chunk = to + 1;
        } else {
            proof {
                is_char_boundary_start_end_of_seq(self.input@);
            }
            self.exhausted = true;
        }
        (from, to)
    }

    /// Hand out the first of the words of the current chunk.
    fn take_word(&mut self) -> (word: Span)
        requires
            old(self).wf(),
            old(self).current_at < old(self).current_chunk.len(),
        ensures
            final(self).wf(),
            (Some(word), final(self)@) == old(self)@.next(),
            final(self)@.text == old(self)@.text,
            word.wf() && word.end <= final(self)@.text.len() && word.fits(final(self)@.text),
    {
        let ghost here = self@;
        let word = self.current_chunk[self.current_at];
        self.current_at += 1;
        proof {
            lemma_next_word(here);
            let before = self.current_chunk@.skip(self.current_at - 1);
            assert(before.drop_first() =~= self.current_chunk@.skip(self.current_at as int));
            assert(before[0] == word);
            assert(self@.pending =~= here.pending.drop_first());
            assert(self@ == here.next().1);
        }
        word
    }

    /// Begin the next chunk: split it into its words.
    fn enter_chunk(&mut self)
        requires
            old(self).wf(),
            old(self).current_at >= old(self).current_chunk.len(),
            !old(self).exhausted,
        ensures
            final(self).wf(),
            final(self)@ == old(self)@.enter(old(self).next_chunk as nat),
            final(self)@.text == old(self)@.text,
    {
        let ghost here = self@;
        let (from, to) = self.take_chunk();
        let chunk = slice_subrange(self.input, from, to);
        if trim_commas(chunk) > 0 {
            self.current_chunk = decompose_single(chunk, from);
        } else {
            self.current_chunk = Vec::new();
        }
        self.current_at = 0;
        proof {
            assert(here.pending =~= Seq::<Span>::empty());
            assert(self.current_chunk@.skip(0) =~= self.current_chunk@);
            assert(self@ == here.enter(from as nat));
            lemma_enter_tiles(here, from as nat);
            assert forall|i: int| 0 <= i < self.current_chunk.len() implies (
            #[trigger] self.current_chunk[i]).fits(self.input@) by {
                let word = self.current_chunk[i];
                let start = word.start - from;
                let end = word.end - from;
                assert(plain_at(chunk@, start) && plain_at(chunk@, end));
                if 0 < start < chunk@.len() {
                    assert(chunk@[start] == self.input@[word.start as int]);
                    lemma_plain_byte_is_boundary(self.input@, word.start as int);
                }
                if 0 < end < chunk@.len() {
                    assert(chunk@[end] == self.input@[word.end as int]);
                    lemma_plain_byte_is_boundary(self.input@, word.end as int);
                }
            }
        }
    }

    /// The next word of the text, or `None` when the text holds no further
    /// word; see [`DecomposerState::next`]. The word can be cut out of the
    /// text. Once this has returned `None` it goes on returning `None`.
    pub fn next(&mut self) -> (word: Option<Span>)
        requires
            old(self).wf(),
        ensures
            final(self).wf(),
            (word, final(self)@) == old(self)@.next(),
            final(self)@.text == old(self)@.text,
            word matches Some(span) ==> span.wf() && span.end <= final(self)@.text.len()
                && span.fits(final(self)@.text),
    {
        loop
            invariant
                self.wf(),
                self@.next() == old(self)@.next(),
                self@.text == old(self)@.text,
            decreases self@.left(), self@.pending.len(),
        {
            if self.current_at < self.current_chunk.len() {
                return Some(self.take_word());
            }
            if self.exhausted {
                return None;
            }
            proof {
                lemma_chunk_len_bounds(self@.text, self.next_chunk as nat);
            }
            self.enter_chunk();
        }
    }

    /// All the words that are left, in their order; see [`all_words`]. Each
    /// of them can be cut out of the text, and with what lies between them
    /// they make up the text again ([`lemma_round_trip`]).
    pub fn collect(&mut self) -> (all: Vec<Span>)
        requires
            old(self).wf(),
        ensures
            final(self).wf(),
            all@ == all_words(old(self)@),
            final(self)@.text == old(self)@.text,
            forall|i: int| 0 <= i < all.len() ==> (#[trigger] all[i]).fits(old(self)@.text),
    {
        let mut all: Vec<Span> = Vec::new();
        loop
            invariant
                self.wf(),
                self@.text == old(self)@.text,
                all@ + all_words(self@) =~= all_words(old(self)@),
                forall|i: int| 0 <= i < all.len() ==> (#[trigger] all[i]).fits(old(self)@.text),
            decreases self@.left(), self@.pending.len(),
        {
            let ghost here = self@;
            proof {
                lemma_next_word(here);
            }
            match self.next() {
                Some(word) => {
                    all.push(word);
                    proof {
                        assert(all_words(here) =~= seq![word] + all_words(self@));
                    }
                },
                None => {
                    proof {
                        assert(all_words(here) =~= Seq::<Span>::empty());
                    }
                    return all;
                },
            }
        }
    }

    /// The next stretch of text taken as it stands, with nothing decomposed:
    /// see [`DecomposerState::next_raw`]. Chunks come out of this one by one,
    /// the empty ones too, and the decomposer can go on with words
    /// afterwards.
    pub fn next_no_decomposition(&mut self) -> (chunk: Option<Span>)
        requires
            old(self).wf(),
        ensures
            final(self).wf(),
            (chunk, final(self)@) == old(self)@.next_raw(),
            final(self)@.text == old(self)@.text,
            chunk matches Some(span) ==> span.wf() && span.end <= final(self)@.text.len()
                && span.fits(final(self)@.text),
    {
        proof {
            lemma_next_raw_tiles(self@);
        }
        if self.current_at < self.current_chunk.len() {
            let start: u32 = self.current_chunk[self.current_at].start;
            proof {
                assert(self@.pending[0] == self.current_chunk[self.current_at as int]);
            }
            let end: usize = if self.exhausted {
                self.input.len()
            } else {
                self.next_chunk - 1
            };
            self.current_chunk = Vec::new();
            self.current_at = 0;
            assert(self@.pending =~= Seq::<Span>::empty());
            Some(Span { start, end: end as u32 })
        } else if self.exhausted {
            None
        } else {
            let (from, to) = self.take_chunk();
            self.current_chunk = Vec::new();
            self.current_at = 0;
            assert(self@.pending =~= Seq::<Span>::empty());
            Some(place(0, from, to))
        }
    }
}

/// Make a [`Decomposer`] that splits the Lojban text `input` into words. The
/// words are not classified; that is what the lexer does.
#[must_use]
pub fn decompose(input: &str) -> (words: Decomposer<'_>)
    requires
        input.spec_bytes().len() <= u32::MAX,
    ensures
        words.wf(),
        words@ == (DecomposerState {
            text: input.spec_bytes(),
            pending: Seq::empty(),
            cursor: Some(0nat),
        }),
{
    Decomposer::new(input)
}

/// Whether the bytes of `text` from `from` up to `to` hold nothing of a word:
/// separators and commas only.
pub open spec fn is_gap(text: Seq<u8>, from: int, to: int) -> bool {
    forall|at: int| from <= at < to && 0 <= at < text.len() ==> is_separator(#[trigger] text[at])
        || text[at] == 0x2c
}

/// Where the next word begins at the earliest: at the first pending word,
/// or else at the cursor, or else nowhere in the text.
pub open spec fn floor(words: DecomposerState) -> nat {
    if words.pending.len() > 0 {
        words.pending[0].start as nat
    } else {
        match words.cursor {
            Some(at) => at,
            None => words.text.len(),
        }
    }
}

impl DecomposerState {
    /// The invariant that the laws of the decomposer rest on. The pending
    /// words are not empty and follow one another without a gap, only
    /// commas stand between the last of them and the end of their chunk,
    /// and a separator ends that chunk if the text goes on.
    pub open spec fn tiled(self) -> bool {
        &&& self.wf()
        &&& forall|i: int|
            0 <= i < self.pending.len() ==> (#[trigger] self.pending[i]).start
                < self.pending[i].end
        &&& forall|i: int|
            0 <= i < self.pending.len() - 1 ==> (#[trigger] self.pending[i]).end
                == self.pending[i + 1].start
        &&& self.pending.len() > 0 ==> is_gap(
            self.text,
            self.pending.last().end as int,
            self.chunk_end() as int,
        )
        &&& self.pending.len() > 0 ==> (self.cursor matches Some(at) ==> is_separator(
            self.text[at - 1],
        ))
    }
}

/// The words of one chunk are not empty, begin where the chunk begins, follow
/// one another without a gap, and leave only commas behind them.
pub proof fn lemma_decompose_single_tiles(w: Seq<u8>, base: nat)
    requires
        base + w.len() <= u32::MAX,
        trimmed_len(w) > 0,
    ensures
        spec_decompose_single(w, base).len() > 0,
        spec_decompose_single(w, base)[0].start == base,
        forall|i: int|
            0 <= i < spec_decompose_single(w, base).len() ==> (#[trigger] spec_decompose_single(
                w,
                base,
            )[i]).start < spec_decompose_single(w, base)[i].end <= base + w.len(),
        forall|i: int|
            0 <= i < spec_decompose_single(w, base).len() - 1 ==> (
            #[trigger] spec_decompose_single(w, base)[i]).end == spec_decompose_single(
                w,
                base,
            )[i + 1].start,
        trimmed_len(w) <= spec_decompose_single(w, base).last().end - base,
{
    lemma_trimmed_len_bounds(w);
    if !ends_in_consonant(w) {
        let c = cuts(w, 0);
        lemma_cuts_rise(w, 0);
        let count = kept(w);
        let words = spec_decompose_single(w, base);
        let from = cut_before(c, count as int);
        assert forall|i: int| 0 <= i < count implies cut_before(c, i) < #[trigger] c[i] by {
            if i > 0 {
                assert(c[i - 1] < c[i]);
            }
        }
        assert forall|i: int| 0 <= i < words.len() implies (#[trigger] words[i]).start
            < words[i].end <= base + w.len() by {
            if i < count {
                assert(words[i] == span_in(base, cut_before(c, i), c[i]));
                assert(cut_before(c, i) < c[i]);
            }
        }
        assert forall|i: int| 0 <= i < words.len() - 1 implies (#[trigger] words[i]).end
            == words[i + 1].start by {
            assert(words[i] == span_in(base, cut_before(c, i), c[i]));
            if i + 1 < count {
                assert(words[i + 1] == span_in(base, cut_before(c, i + 1), c[i + 1]));
            }
        }
        if count > 0 {
            assert(words[0] == span_in(base, cut_before(c, 0), c[0]));
        }
    }
}

/// A state that is tiled stays so when a chunk is begun, and what is skipped
/// up to the first word of the chunk, or all of it, holds no word.
pub proof fn lemma_enter_tiles(words: DecomposerState, at: nat)
    requires
        words.tiled(),
        words.pending.len() == 0,
        words.cursor == Some(at),
    ensures
        words.enter(at).tiled(),
        at <= floor(words.enter(at)),
        is_gap(words.text, at as int, floor(words.enter(at)) as int),
{
    let text = words.text;
    let len = chunk_len(text, at);
    let chunk = text.subrange(at as int, (at + len) as int);
    let entered = words.enter(at);
    lemma_chunk_len_bounds(text, at);
    lemma_trimmed_len_bounds(chunk);
    if trimmed_len(chunk) > 0 {
        lemma_decompose_single_tiles(chunk, at);
        let found = spec_decompose_single(chunk, at);
        assert(entered.pending == found);
        assert forall|p: int|
            found.last().end <= p < entered.chunk_end() && 0 <= p < text.len() implies is_separator(
            #[trigger] text[p],
        ) || text[p] == 0x2c by {
            assert(chunk[p - at] == text[p]);
        }
    } else {
        assert forall|p: int|
            at <= p < floor(entered) && 0 <= p < text.len() implies is_separator(
            #[trigger] text[p],
        ) || text[p] == 0x2c by {
            if p < at + len {
                assert(chunk[p - at] == text[p]);
            }
        }
    }
}

/// Whether the decomposer has come nearer to the end of the text from one
/// state to another.
pub open spec fn goes_on(before: DecomposerState, after: DecomposerState) -> bool {
    after.left() < before.left() || (after.left() == before.left() && after.pending.len()
        < before.pending.len())
}

/// The words that a decomposer yields from a state on, all of them, in the
/// order in which it yields them. It comes nearer to the end of the text
/// with every word ([`lemma_next_word`]), which is what the definition goes
/// down on.
pub open spec fn all_words(words: DecomposerState) -> Seq<Span>
    decreases words.left(), words.pending.len(),
{
    match words.next() {
        (Some(word), after) => if goes_on(words, after) {
            seq![word] + all_words(after)
        } else {
            seq![word]
        },
        (None, _) => Seq::empty(),
    }
}

/// The text from `from` on as it is put together again from words and what
/// lies before, between and behind them.
pub open spec fn rebuilt(text: Seq<u8>, words: Seq<Span>, from: int) -> Seq<u8>
    decreases words.len(),
{
    if words.len() == 0 {
        text.subrange(from, text.len() as int)
    } else {
        text.subrange(from, words[0].start as int) + words[0].of(text) + rebuilt(
            text,
            words.drop_first(),
            words[0].end as int,
        )
    }
}

/// The words come in their order and do not overlap, and between them stand
/// separators and commas only: a word begins at or after the place up to
/// which the text has been dealt with, it is not empty, the text is dealt
/// with up to its end or further afterwards, and what is passed over before
/// and behind it holds no word. When no word is left, nor does the rest
/// of the text.
pub proof fn lemma_next_word(words: DecomposerState)
    requires
        words.tiled(),
    ensures
        words.next().1.tiled(),
        words.next().1.text == words.text,
        words.next().0 matches Some(word) ==> floor(words) <= word.start < word.end <= floor(
            words.next().1,
        ) <= words.text.len() && is_gap(words.text, floor(words) as int, word.start as int)
            && is_gap(words.text, word.end as int, floor(words.next().1) as int),
        words.next().0 is None ==> is_gap(words.text, floor(words) as int, words.text.len() as int)
            && words.next().1.next() == (None::<Span>, words.next().1),
        words.next().1.left() <= words.left(),
        words.next().0 is Some ==> goes_on(words, words.next().1),
    decreases words.left(), words.pending.len(),
{
    if words.pending.len() > 0 {
        let after = words.next().1;
        assert forall|i: int| 0 <= i < after.pending.len() implies (#[trigger] after.pending[i])
            == words.pending[i + 1] by {}
        assert(words.pending[0].start <= words.pending[0].end <= words.chunk_end());
        if after.pending.len() > 0 {
            assert(after.pending.last() == words.pending.last());
            assert(words.pending[0].end == words.pending[1].start);
            assert forall|i: int| 0 <= i < after.pending.len() - 1 implies (
            #[trigger] after.pending[i]).end == after.pending[i + 1].start by {
                assert(words.pending[i + 1].end == words.pending[i + 2].start);
            }
        }
    } else {
        match words.cursor {
            Some(at) => {
                lemma_enter_tiles(words, at);
                lemma_chunk_len_bounds(words.text, at);
                lemma_next_word(words.enter(at));
            },
            None => {},
        }
    }
}

/// The decomposer is fused: once no word is left, none will ever be.
pub proof fn lemma_decomposer_is_fused(words: DecomposerState)
    ensures
        words.next().0 is None ==> words.next().1.next() == (None::<Span>, words.next().1),
    decreases words.left(), words.pending.len(),
{
    if words.pending.len() == 0 {
        match words.cursor {
            Some(at) => {
                if at <= words.text.len() {
                    lemma_decomposer_is_fused(words.enter(at));
                }
            },
            None => {},
        }
    }
}

/// Two words that come one after the other do not overlap, and the first
/// ends before the second begins or where it begins.
pub proof fn lemma_words_do_not_overlap(words: DecomposerState)
    requires
        words.tiled(),
        words.next().0 is Some,
        words.next().1.next().0 is Some,
    ensures
        words.next().0.unwrap().end <= words.next().1.next().0.unwrap().start,
        words.next().0.unwrap().start < words.next().1.next().0.unwrap().start,
        !words.next().0.unwrap().spec_overlaps_with(words.next().1.next().0.unwrap()),
{
    lemma_next_word(words);
    lemma_next_word(words.next().1);
}

/// Taking a stretch of text as it stands keeps the state tiled.
pub proof fn lemma_next_raw_tiles(words: DecomposerState)
    requires
        words.tiled(),
    ensures
        words.next_raw().1.tiled(),
{
    if words.pending.len() == 0 {
        if let Some(at) = words.cursor {
            lemma_chunk_len_bounds(words.text, at);
        }
    }
}

/// A decomposer that is new is tiled.
pub proof fn lemma_new_is_tiled(text: Seq<u8>)
    requires
        text.len() <= u32::MAX,
    ensures
        (DecomposerState { text, pending: Seq::empty(), cursor: Some(0nat) }).tiled(),
{
}

/// Putting a text together again may begin anywhere before the first word.
proof fn lemma_rebuilt_from(text: Seq<u8>, words: Seq<Span>, from: int, later: int)
    requires
        0 <= from <= later <= text.len(),
        words.len() > 0 ==> later <= words[0].start <= text.len(),
    ensures
        rebuilt(text, words, from) =~= text.subrange(from, later) + rebuilt(text, words, later),
{
}

/// The words of a text and what lies between them make up the text again:
/// put together in the order of the text, from the place up to which the
/// text has been dealt with, they are the rest of the text.
pub proof fn lemma_round_trip(words: DecomposerState)
    requires
        words.tiled(),
    ensures
        rebuilt(words.text, all_words(words), floor(words) as int) =~= words.text.subrange(
            floor(words) as int,
            words.text.len() as int,
        ),
        all_words(words).len() > 0 ==> floor(words) <= all_words(words)[0].start
            <= words.text.len(),
        floor(words) <= words.text.len(),
    decreases words.left(), words.pending.len(),
{
    lemma_next_word(words);
    let text = words.text;
    match words.next() {
        (Some(word), after) => {
            lemma_round_trip(after);
            let later = all_words(after);
            assert(all_words(words) =~= seq![word] + later);
            assert(all_words(words).drop_first() =~= later);
            lemma_rebuilt_from(text, later, word.end as int, floor(after) as int);
        },
        (None, _) => {
            if words.pending.len() == 0 && words.cursor is Some {
                assert(floor(words) <= text.len());
            }
        },
    }
}

/// The words of a whole text and what lies between them make up the text.
pub proof fn lemma_decompose_round_trip(text: Seq<u8>)
    requires
        text.len() <= u32::MAX,
    ensures
        rebuilt(
            text,
            all_words(DecomposerState { text, pending: Seq::empty(), cursor: Some(0nat) }),
            0,
        ) =~= text,
{
    let words = DecomposerState { text, pending: Seq::empty(), cursor: Some(0nat) };
    lemma_new_is_tiled(text);
    lemma_round_trip(words);
    assert(text.subrange(0, text.len() as int) =~= text);
}

} // verus!
