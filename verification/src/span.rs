//! Byte ranges into the input text.
//!
//! A [`Span`] is the only identity that a piece of text has throughout the
//! pipeline: it holds no reference to the input and is resolved against the
//! buffer that the caller knows it came from.

use vstd::prelude::*;
use vstd::string::StringSliceAdditionalSpecFns;
use vstd::utf8::*;

verus! {

broadcast use vstd::utf8::encode_utf8_valid_utf8;

/// A byte offset into the input. 32 bits are plenty for any text we handle.
pub type Location = u32;

/// A half-open range of bytes: `start` is included, `end` is not.
#[derive(Debug, Clone, Copy, PartialEq, Eq, Structural)]
pub struct Span {
    /// The index of the first byte of the span.
    pub start: Location,
    /// The index immediately after the last byte of the span.
    pub end: Location,
}

impl Span {
    /// The invariant of a span: it does not end before it starts.
    pub open spec fn wf(self) -> bool {
        self.start <= self.end
    }

    /// The number of bytes in the span.
    pub open spec fn spec_len(self) -> int {
        self.end - self.start
    }

    /// Whether `location` lies inside the span.
    pub open spec fn spec_contains(self, location: int) -> bool {
        self.start <= location < self.end
    }

    /// Whether two spans overlap: whether they share at least one byte. An
    /// empty span holds no byte, so it overlaps nothing, and two spans that
    /// merely touch do not overlap.
    pub open spec fn spec_overlaps_with(self, other: Span) -> bool {
        self.start < self.end && other.start < other.end && self.start < other.end && other.start
            < self.end
    }

    /// The order of spans: by their start, and by their end where they start
    /// at the same place.
    pub open spec fn spec_precedes(self, other: Span) -> bool {
        self.start < other.start || (self.start == other.start && self.end < other.end)
    }

    /// Whether the span can be cut out of a text with the given bytes: it is
    /// well-formed, ends inside the text, and both ends fall between characters.
    pub open spec fn fits(self, bytes: Seq<u8>) -> bool {
        &&& self.start <= self.end <= bytes.len()
        &&& is_char_boundary(bytes, self.start as int)
        &&& is_char_boundary(bytes, self.end as int)
    }

    /// The bytes that the span delineates in a text with the given bytes.
    pub open spec fn of(self, bytes: Seq<u8>) -> Seq<u8> {
        bytes.subrange(self.start as int, self.end as int)
    }

    /// Create a span that starts at `start` and ends at `end`.
    #[must_use]
    pub fn new(start: Location, end: Location) -> (span: Span)
        requires
            start <= end,
        ensures
            span.start == start,
            span.end == end,
            span.wf(),
    {
        Span { start, end }
    }

    /// Create a span that starts at `start` and has the length `len`.
    #[must_use]
    pub fn at(start: Location, len: u32) -> (span: Span)
        requires
            start + len <= u32::MAX,
        ensures
            span.start == start,
            span.end == start + len,
            span.wf(),
    {
        Span { start, end: start + len }
    }

    /// The distance between the start and the end.
    #[must_use]
    pub fn len(self) -> (len: u32)
        requires
            self.wf(),
        ensures
            len == self.spec_len(),
    {
        self.end - self.start
    }

    /// Whether the span holds no byte.
    #[must_use]
    pub fn is_empty(self) -> (empty: bool)
        ensures
            empty == (self.start == self.end),
    {
        self.end == self.start
    }

    /// The span between `before` and `after`: from the end of the first to
    /// the start of the second. There is none if the two overlap, touch, or
    /// come in the wrong order.
    #[must_use]
    pub fn between(before: Span, after: Span) -> (gap: Option<Span>)
        ensures
            gap is Some <==> !before.spec_overlaps_with(after) && before.end < after.start,
            gap matches Some(span) ==> span.start == before.end && span.end == after.start
                && span.wf(),
    {
        if before.overlaps_with(after) || before.end >= after.start {
            None
        } else {
            Some(Span { start: before.end, end: after.start })
        }
    }

    /// The span that covers all of `input`.
    #[must_use]
    pub fn entire_slice(input: &str) -> (span: Span)
        requires
            input.spec_bytes().len() <= u32::MAX,
        ensures
            span.start == 0,
            span.end == input.spec_bytes().len(),
            span.fits(input.spec_bytes()),
            span.of(input.spec_bytes()) == input.spec_bytes(),
    {
        let len: usize = input.as_bytes().len();
        proof {
            broadcast use is_char_boundary_start_end_of_seq;

            assert(valid_utf8(input.spec_bytes()));
            assert(is_char_boundary(input.spec_bytes(), 0));
            assert(is_char_boundary(input.spec_bytes(), input.spec_bytes().len() as int));
            assert(input.spec_bytes().subrange(0, len as int) =~= input.spec_bytes());
        }
        Span { start: 0, end: len as u32 }
    }

    /// The span of a piece of text that begins `offset` bytes into the buffer
    /// it was taken from.
    #[must_use]
    pub fn from_embedded_slice(offset: usize, embedded: &str) -> (span: Span)
        requires
            offset + embedded.spec_bytes().len() <= u32::MAX,
        ensures
            span.start == offset,
            span.end == offset + embedded.spec_bytes().len(),
            span.wf(),
    {
        let len: usize = embedded.as_bytes().len();
        Span { start: offset as u32, end: (offset + len) as u32 }
    }

    /// The part of `text` that the span delineates, or `None` if the span
    /// does not fit `text`.
    #[must_use]
    pub fn slice<'a>(self, text: &'a str) -> (part: Option<&'a str>)
        ensures
            part is Some <==> self.fits(text.spec_bytes()),
            part matches Some(s) ==> s.spec_bytes() == self.of(text.spec_bytes()),
    {
        let start: usize = self.start as usize;
        let end: usize = self.end as usize;
        if start > end || end > text.as_bytes().len() {
            return None;
        }
        if !text.is_char_boundary(start) || !text.is_char_boundary(end) {
            return None;
        }
        let (head, _) = text.split_at(end);
        proof {
            lemma_boundary_in_prefix(text.spec_bytes(), start as int, end as int);
        }
        let (_, part) = head.split_at(start);
        proof {
            assert(part.spec_bytes() =~= self.of(text.spec_bytes()));
        }
        Some(part)
    }

    /// The part of `text` that follows the span, or `None` if the end of the
    /// span does not fall between two characters of `text` or at its end.
    #[must_use]
    pub fn slice_after<'a>(self, text: &'a str) -> (part: Option<&'a str>)
        ensures
            part is Some <==> self.end <= text.spec_bytes().len() && is_char_boundary(
                text.spec_bytes(),
                self.end as int,
            ),
            part matches Some(s) ==> s.spec_bytes() == text.spec_bytes().subrange(
                self.end as int,
                text.spec_bytes().len() as int,
            ),
    {
        let end: usize = self.end as usize;
        if end > text.as_bytes().len() || !text.is_char_boundary(end) {
            return None;
        }
        let (_, part) = text.split_at(end);
        Some(part)
    }

    /// The part of `text` that precedes the span, or `None` if the start of
    /// the span does not fall between two characters of `text` or at its end.
    #[must_use]
    pub fn slice_before<'a>(self, text: &'a str) -> (part: Option<&'a str>)
        ensures
            part is Some <==> self.start <= text.spec_bytes().len() && is_char_boundary(
                text.spec_bytes(),
                self.start as int,
            ),
            part matches Some(s) ==> s.spec_bytes() == text.spec_bytes().subrange(
                0,
                self.start as int,
            ),
    {
        let start: usize = self.start as usize;
        if start > text.as_bytes().len() || !text.is_char_boundary(start) {
            return None;
        }
        let (part, _) = text.split_at(start);
        Some(part)
    }

    /// Whether `location` lies inside the span: at or after the start and
    /// before the end.
    #[must_use]
    pub fn contains(self, location: Location) -> (inside: bool)
        ensures
            inside == self.spec_contains(location as int),
    {
        self.start <= location && location < self.end
    }

    /// Whether the span comes before `other` in the order of spans; see
    /// [`Span::spec_precedes`].
    #[must_use]
    pub fn precedes(self, other: Span) -> (before: bool)
        ensures
            before == self.spec_precedes(other),
    {
        self.start < other.start || (self.start == other.start && self.end < other.end)
    }

    /// Whether two spans overlap; see [`Span::spec_overlaps_with`].
    #[must_use]
    pub fn overlaps_with(self, other: Span) -> (overlap: bool)
        ensures
            overlap == self.spec_overlaps_with(other),
    {
        self.start < self.end && other.start < other.end && self.start < other.end && other.start
            < self.end
    }
}

/// A character boundary of a text is also one of each prefix of the text that
/// reaches it, when the prefix itself ends at a character boundary.
proof fn lemma_boundary_in_prefix(bytes: Seq<u8>, start: int, end: int)
    requires
        valid_utf8(bytes),
        0 <= start <= end <= bytes.len(),
        is_char_boundary(bytes, start),
        is_char_boundary(bytes, end),
    ensures
        valid_utf8(bytes.subrange(0, end)),
        is_char_boundary(bytes.subrange(0, end), start),
{
    let head = bytes.subrange(0, end);
    valid_utf8_split(bytes, end);
    if start == end {
        is_char_boundary_start_end_of_seq(head);
    } else {
        is_char_boundary_iff_not_is_continuation_byte(bytes, start);
        is_char_boundary_iff_not_is_continuation_byte(head, start);
    }
}

/// A byte that is a character by itself begins a character.
pub proof fn lemma_plain_byte_is_boundary(bytes: Seq<u8>, at: int)
    requires
        valid_utf8(bytes),
        0 <= at < bytes.len(),
        bytes[at] < 0x80,
    ensures
        is_char_boundary(bytes, at),
{
    is_char_boundary_iff_not_is_continuation_byte(bytes, at);
}

/// Behind a byte that is a character by itself a character begins, or the
/// text ends.
pub proof fn lemma_boundary_behind_plain_byte(bytes: Seq<u8>, at: int)
    requires
        valid_utf8(bytes),
        0 < at <= bytes.len(),
        bytes[at - 1] < 0x80,
    ensures
        is_char_boundary(bytes, at),
{
    lemma_plain_byte_is_boundary(bytes, at - 1);
    if at == bytes.len() {
        is_char_boundary_start_end_of_seq(bytes);
    } else {
        valid_utf8_split(bytes, at - 1);
        let tail = bytes.subrange(at - 1, bytes.len() as int);
        assert(tail[0] == bytes[at - 1]);
        assert(valid_utf8(tail));
        reveal_with_fuel(valid_utf8, 2);
        let behind = pop_first_scalar(tail);
        assert(length_of_first_scalar(tail) == 1);
        assert(behind =~= bytes.subrange(at, bytes.len() as int));
        assert(valid_utf8(behind));
        assert(behind.len() > 0);
        assert(valid_first_scalar(behind));
        assert(behind[0] == bytes[at]);
        is_char_boundary_iff_is_leading_byte(bytes, at);
    }
}

/// The order of spans is total: of two spans that differ, one comes before
/// the other, and never both; and it is transitive.
pub proof fn lemma_spans_are_totally_ordered(a: Span, b: Span, c: Span)
    ensures
        a == b || a.spec_precedes(b) || b.spec_precedes(a),
        !(a.spec_precedes(b) && b.spec_precedes(a)),
        !a.spec_precedes(a),
        a.spec_precedes(b) && b.spec_precedes(c) ==> a.spec_precedes(c),
{
}

/// Overlapping is symmetric.
pub proof fn lemma_overlap_commutes(a: Span, b: Span)
    ensures
        a.spec_overlaps_with(b) == b.spec_overlaps_with(a),
{
}

/// An empty span overlaps nothing, wherever it lies.
pub proof fn lemma_empty_span_never_overlaps(empty: Span, other: Span)
    requires
        empty.start == empty.end,
    ensures
        !empty.spec_overlaps_with(other),
        !other.spec_overlaps_with(empty),
{
}

/// Two spans overlap exactly if there is a byte that both of them hold.
pub proof fn lemma_overlap_is_a_shared_byte(a: Span, b: Span)
    ensures
        a.spec_overlaps_with(b) <==> exists|at: int|
            #![trigger a.spec_contains(at)]
            a.spec_contains(at) && b.spec_contains(at),
{
    if a.spec_overlaps_with(b) {
        let at = if a.start >= b.start {
            a.start as int
        } else {
            b.start as int
        };
        assert(a.spec_contains(at) && b.spec_contains(at));
    }
}

} // verus!
