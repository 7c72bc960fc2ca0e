//! How the lexer compares the delimiters of a quote.

use vstd::prelude::*;

verus! {

/// The settings of the lexer.
#[derive(Debug, Clone, Copy)]
#[non_exhaustive]
pub struct Config {
    /// How the two delimiters of a quote are compared.
    pub zoi_delimiter_comparison: ZoiDelimiterComparisonStrategy,
}

/// How the delimiter that ends a quote is held against the one that began it.
#[derive(Debug, Clone, Copy)]
pub struct ZoiDelimiterComparisonStrategy {
    /// Whether commas in the first delimiter are passed over.
    pub ignore_commas_in_start: bool,
    /// Whether commas in the second delimiter are passed over.
    pub ignore_commas_in_end: bool,
}

/// A word without its commas.
pub open spec fn without_commas(word: Seq<u8>) -> Seq<u8>
    decreases word.len(),
{
    if word.len() == 0 {
        Seq::empty()
    } else if word.last() == 0x2c {
        without_commas(word.drop_last())
    } else {
        without_commas(word.drop_last()).push(word.last())
    }
}

/// A word as it is compared: without its commas if they are to be passed over.
pub open spec fn compared_form(word: Seq<u8>, ignore_commas: bool) -> Seq<u8> {
    if ignore_commas {
        without_commas(word)
    } else {
        word
    }
}

fn strip_commas(word: &[u8]) -> (bare: Vec<u8>)
    ensures
        bare@ == without_commas(word@),
{
    let mut bare: Vec<u8> = Vec::new();
    let mut at: usize = 0;
    assert(word@.take(0) =~= Seq::<u8>::empty());
    while at < word.len()
        invariant
            at <= word.len(),
            bare@ == without_commas(word@.take(at as int)),
        decreases word.len() - at,
    {
        proof {
            assert(word@.take(at + 1).drop_last() =~= word@.take(at as int));
        }
        if word[at] != 0x2c {
            bare.push(word[at]);
        }
        at += 1;
    }
    assert(word@.take(at as int) =~= word@);
    bare
}

fn same(left: &[u8], right: &[u8]) -> (equal: bool)
    ensures
        equal == (left@ == right@),
{
    if left.len() != right.len() {
        return false;
    }
    let mut at: usize = 0;
    while at < left.len()
        invariant
            left@.len() == right@.len(),
            at <= left@.len(),
            forall|i: int| 0 <= i < at ==> left@[i] == right@[i],
        decreases left@.len() - at,
    {
        if left[at] != right[at] {
            return false;
        }
        at += 1;
    }
    assert(left@ =~= right@);
    true
}

impl Default for ZoiDelimiterComparisonStrategy {
    /// Commas are passed over in both delimiters.
    fn default() -> (strategy: Self)
        ensures
            strategy.ignore_commas_in_start,
            strategy.ignore_commas_in_end,
    {
        ZoiDelimiterComparisonStrategy { ignore_commas_in_start: true, ignore_commas_in_end: true }
    }
}

impl Default for Config {
    fn default() -> (config: Self)
        ensures
            config.zoi_delimiter_comparison.ignore_commas_in_start,
            config.zoi_delimiter_comparison.ignore_commas_in_end,
    {
        Config { zoi_delimiter_comparison: ZoiDelimiterComparisonStrategy::default() }
    }
}

impl ZoiDelimiterComparisonStrategy {
    /// Whether `end` closes the quote that `start` opened.
    pub open spec fn spec_compare(self, start: Seq<u8>, end: Seq<u8>) -> bool {
        compared_form(start, self.ignore_commas_in_start) == compared_form(
            end,
            self.ignore_commas_in_end,
        )
    }

    /// Whether `end` closes the quote that `start` opened; see
    /// [`ZoiDelimiterComparisonStrategy::spec_compare`].
    pub fn compare(self, start: &[u8], end: &[u8]) -> (closes: bool)
        ensures
            closes == self.spec_compare(start@, end@),
    {
        if self.ignore_commas_in_start {
            let bare_start = strip_commas(start);
            if self.ignore_commas_in_end {
                let bare_end = strip_commas(end);
                same(bare_start.as_slice(), bare_end.as_slice())
            } else {
                same(bare_start.as_slice(), end)
            }
        } else if self.ignore_commas_in_end {
            let bare_end = strip_commas(end);
            same(start, bare_end.as_slice())
        } else {
            same(start, end)
        }
    }
}

} // verus!
