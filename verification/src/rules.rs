//! The morphology of Lojban words, as a grammar over bytes.
//!
//! Each rule of the grammar is a function from a text and a position in it to
//! the length of what the rule matches there, if it matches. A rule is stated
//! twice: as a specification (`spec_` and the rule's name), and as the
//! function that computes it and is proved to agree with the specification.
//!
//! Commas may stand anywhere in a word and are skipped wherever a letter is
//! looked for, so a match may begin with commas. `h` is read like `'`.
//!
//! The rules call one another in circles, but never at the same position
//! without a smaller rule in between: every definition goes down on the pair
//! of what is left of the text and the number that the rule carries in its
//! `decreases` clause. Where that depends on an earlier part of the rule
//! having matched something, the specification asks for it with [`advanced`];
//! the functions prove that it always holds.

use vstd::prelude::*;
use vstd::string::StringSliceAdditionalSpecFns;

verus! {

/// How much of the text `w` is left at position `q`.
pub open spec fn rest(w: Seq<u8>, q: nat) -> nat {
    if q <= w.len() {
        (w.len() - q) as nat
    } else {
        0
    }
}

/// Whether a match of length `len` at `q` took something and stayed inside `w`.
pub open spec fn advanced(w: Seq<u8>, q: nat, len: nat) -> bool {
    0 < len && q + len <= w.len()
}

/// The length that a function found, as the specifications count it.
pub open spec fn matched(hit: Option<usize>) -> Option<nat> {
    match hit {
        Some(len) => Some(len as nat),
        None => None,
    }
}

/// The number of commas in `w` from `q` on, up to the first other byte.
pub open spec fn commas(w: Seq<u8>, q: nat) -> nat
    decreases rest(w, q),
{
    if q < w.len() && w[q as int] == 0x2c {
        1 + commas(w, q + 1)
    } else {
        0
    }
}

/// One of `letters`, after any number of commas. The letters of Lojban are
/// ASCII: a byte of a longer character is no letter.
pub open spec fn spec_one_of(w: Seq<u8>, q: nat, letters: &str) -> Option<nat> {
    let at = q + commas(w, q);
    if at < w.len() && w[at as int] < 0x80 && letters.spec_bytes().contains(w[at as int]) {
        Some(commas(w, q) + 1)
    } else {
        None
    }
}

/// Whether a match of `len` bytes at `q` begins with a byte that is a
/// character by itself, if it holds a byte at all. Every match does: it is
/// made of commas and letters.
pub open spec fn starts_plain(w: Seq<u8>, q: nat, len: nat) -> bool {
    len > 0 ==> q < w.len() && w[q as int] < 0x80
}

/// The end of the text: matches nothing, and only where nothing is left.
pub open spec fn spec_eof(w: Seq<u8>, q: nat) -> Option<nat> {
    if q >= w.len() {
        Some(0)
    } else {
        None
    }
}

/// A look ahead that must fail: matches nothing, where `hit` is no match.
pub open spec fn spec_not(hit: Option<nat>) -> Option<nat> {
    if hit is Some {
        None
    } else {
        Some(0)
    }
}

/// A look ahead that must succeed: matches nothing, where `hit` is a match.
pub open spec fn spec_peek(hit: Option<nat>) -> Option<nat> {
    if hit is Some {
        Some(0)
    } else {
        None
    }
}

/// The length of a match, or nothing where there is none.
pub open spec fn spec_length(hit: Option<nat>) -> nat {
    match hit {
        Some(len) => len,
        None => 0,
    }
}

/// A part that may be missing: always matches, nothing if need be.
pub open spec fn spec_opt(hit: Option<nat>) -> Option<nat> {
    Some(spec_length(hit))
}

/// Ordered choice between two results: the first, unless it is no match.
pub open spec fn first(one: Option<nat>, other: Option<nat>) -> Option<nat> {
    if one is Some {
        one
    } else {
        other
    }
}

/// The longer of two matches; the first where they are equally long.
pub open spec fn spec_longest(one: Option<nat>, other: Option<nat>) -> Option<nat> {
    match (one, other) {
        (Some(a), Some(b)) => if b > a {
            other
        } else {
            one
        },
        (Some(_), None) => one,
        _ => other,
    }
}

/// Whether a rule matches all of `w`.
pub open spec fn consumes_all(hit: Option<nat>, w: Seq<u8>) -> bool {
    hit == Some(w.len())
}

fn count_commas(w: &[u8], q: usize) -> (count: usize)
    requires
        q <= w.len(),
    ensures
        count == commas(w@, q as nat),
        q + count <= w.len(),
        count > 0 ==> w@[q as int] == 0x2c,
{
    let mut count: usize = 0;
    while q + count < w.len() && w[q + count] == 0x2c
        invariant
            q + count <= w.len(),
            count + commas(w@, (q + count) as nat) == commas(w@, q as nat),
            count > 0 ==> w@[q as int] == 0x2c,
        decreases w.len() - q - count,
    {
        count += 1;
    }
    count
}

fn holds(letters: &[u8], letter: u8) -> (found: bool)
    ensures
        found == letters@.contains(letter),
{
    let mut at: usize = 0;
    while at < letters.len()
        invariant
            at <= letters.len(),
            forall|i: int| 0 <= i < at ==> letters@[i] != letter,
        decreases letters.len() - at,
    {
        if letters[at] == letter {
            return true;
        }
        at += 1;
    }
    false
}

/// Match one of `letters` at `q`, after any number of commas; see [`spec_one_of`].
pub fn one_of(w: &[u8], q: usize, letters: &str) -> (hit: Option<usize>)
    requires
        q <= w.len(),
    ensures
        matched(hit) == spec_one_of(w@, q as nat, letters),
        hit matches Some(len) ==> 0 < len && q + len <= w.len() && starts_plain(
            w@,
            q as nat,
            len as nat,
        ),
{
    let skipped: usize = count_commas(w, q);
    if q + skipped < w.len() && w[q + skipped] < 0x80 && holds(
        letters.as_bytes(),
        w[q + skipped],
    ) {
        Some(skipped + 1)
    } else {
        None
    }
}

/// Match the end of the text; see [`spec_eof`].
pub fn eof(w: &[u8], q: usize) -> (hit: Option<usize>)
    requires
        q <= w.len(),
    ensures
        matched(hit) == spec_eof(w@, q as nat),
        hit matches Some(len) ==> len == 0,
{
    if q == w.len() {
        Some(0)
    } else {
        None
    }
}

/// Turn a result into a look ahead that must fail; see [`spec_not`].
pub fn not(hit: Option<usize>) -> (ahead: Option<usize>)
    ensures
        matched(ahead) == spec_not(matched(hit)),
        ahead matches Some(len) ==> len == 0,
{
    if hit.is_some() {
        None
    } else {
        Some(0)
    }
}

/// Turn a result into a look ahead that must succeed; see [`spec_peek`].
pub fn peek(hit: Option<usize>) -> (ahead: Option<usize>)
    ensures
        matched(ahead) == spec_peek(matched(hit)),
        ahead matches Some(len) ==> len == 0,
{
    if hit.is_some() {
        Some(0)
    } else {
        None
    }
}

/// The length of a match, or nothing where there is none; see [`spec_length`].
pub fn length(hit: Option<usize>) -> (len: usize)
    ensures
        len == spec_length(matched(hit)),
{
    match hit {
        Some(len) => len,
        None => 0,
    }
}

/// Make a part optional; see [`spec_opt`].
pub fn opt(hit: Option<usize>) -> (always: Option<usize>)
    ensures
        matched(always) == spec_opt(matched(hit)),
        always is Some,
{
    Some(length(hit))
}

/// The longer of two matches; see [`spec_longest`].
pub fn longest(one: Option<usize>, other: Option<usize>) -> (best: Option<usize>)
    ensures
        matched(best) == spec_longest(matched(one), matched(other)),
        best == one || best == other,
{
    match (one, other) {
        (Some(a), Some(b)) => if b > a {
            other
        } else {
            one
        },
        (Some(_), None) => one,
        _ => other,
    }
}

/// Whether a rule matched all of `w`.
pub fn succeeded_and_consumed_all(hit: Option<usize>, w: &[u8]) -> (all: bool)
    ensures
        all == consumes_all(matched(hit), w@),
{
    match hit {
        Some(len) => len == w.len(),
        None => false,
    }
}

/// ```text
/// h <- ['h] &nucleus
/// ```
#[verifier::opaque]
pub open spec fn spec_h(w: Seq<u8>, q: nat) -> Option<nat>
    decreases rest(w, q), 0nat,
{
    match spec_one_of(w, q, "'h") {
        Some(n1) => if spec_nucleus(w, q + n1) is Some {
            Some(n1)
        } else {
            None
        },
        None => None,
    }
}

/// Match `h` at `q`; see [`spec_h`].
pub fn h(w: &[u8], q: usize) -> (hit: Option<usize>)
    requires
        q <= w.len(),
    ensures
        matched(hit) == spec_h(w@, q as nat),
        hit matches Some(len) ==> 0 < len && q + len <= w.len() && starts_plain(
            w@,
            q as nat,
            len as nat,
        ),
    decreases w.len() - q, 0nat,
{
    reveal(spec_h);
    reveal(spec_nucleus);
    let n1: usize = one_of(w, q, "'h")?;
    if nucleus(w, q + n1).is_none() {
        return None;
    }
    Some(n1)
}

/// ```text
/// b <- [bB] !(h / glide / b / unvoiced)
/// ```
#[verifier::opaque]
pub open spec fn spec_b(w: Seq<u8>, q: nat) -> Option<nat>
    decreases rest(w, q), 0nat,
{
    match spec_one_of(w, q, "bB") {
        Some(n1) => if (first(
            spec_h(w, q + n1),
            first(spec_glide(w, q + n1), first(spec_b(w, q + n1), spec_unvoiced(w, q + n1))),
        )) is None {
            Some(n1)
        } else {
            None
        },
        None => None,
    }
}

/// Match `b` at `q`; see [`spec_b`].
pub fn b(w: &[u8], q: usize) -> (hit: Option<usize>)
    requires
        q <= w.len(),
    ensures
        matched(hit) == spec_b(w@, q as nat),
        hit matches Some(len) ==> 0 < len && q + len <= w.len() && starts_plain(
            w@,
            q as nat,
            len as nat,
        ),
    decreases w.len() - q, 0nat,
{
    reveal(spec_b);
    reveal(spec_h);
    reveal(spec_glide);
    reveal(spec_unvoiced);
    let n1: usize = one_of(w, q, "bB")?;
    if (match h(w, q + n1) {
        Some(len) => Some(len),
        None => match glide(w, q + n1) {
            Some(len) => Some(len),
            None => match b(w, q + n1) {
                Some(len) => Some(len),
                None => unvoiced(w, q + n1),
            },
        },
    }).is_some() {
        return None;
    }
    Some(n1)
}

/// ```text
/// c <- [cC] !(h / glide / c / s / x / voiced)
/// ```
#[verifier::opaque]
pub open spec fn spec_c(w: Seq<u8>, q: nat) -> Option<nat>
    decreases rest(w, q), 0nat,
{
    match spec_one_of(w, q, "cC") {
        Some(n1) => if (first(
            spec_h(w, q + n1),
            first(
                spec_glide(w, q + n1),
                first(
                    spec_c(w, q + n1),
                    first(spec_s(w, q + n1), first(spec_x(w, q + n1), spec_voiced(w, q + n1))),
                ),
            ),
        )) is None {
            Some(n1)
        } else {
            None
        },
        None => None,
    }
}

/// Match `c` at `q`; see [`spec_c`].
pub fn c(w: &[u8], q: usize) -> (hit: Option<usize>)
    requires
        q <= w.len(),
    ensures
        matched(hit) == spec_c(w@, q as nat),
        hit matches Some(len) ==> 0 < len && q + len <= w.len() && starts_plain(
            w@,
            q as nat,
            len as nat,
        ),
    decreases w.len() - q, 0nat,
{
    reveal(spec_c);
    reveal(spec_h);
    reveal(spec_glide);
    reveal(spec_s);
    reveal(spec_x);
    reveal(spec_voiced);
    let n1: usize = one_of(w, q, "cC")?;
    if (match h(w, q + n1) {
        Some(len) => Some(len),
        None => match glide(w, q + n1) {
            Some(len) => Some(len),
            None => match c(w, q + n1) {
                Some(len) => Some(len),
                None => match s(w, q + n1) {
                    Some(len) => Some(len),
                    None => match x(w, q + n1) {
                        Some(len) => Some(len),
                        None => voiced(w, q + n1),
                    },
                },
            },
        },
    }).is_some() {
        return None;
    }
    Some(n1)
}

/// ```text
/// d <- [dD] !(h / glide / d / unvoiced)
/// ```
#[verifier::opaque]
pub open spec fn spec_d(w: Seq<u8>, q: nat) -> Option<nat>
    decreases rest(w, q), 0nat,
{
    match spec_one_of(w, q, "dD") {
        Some(n1) => if (first(
            spec_h(w, q + n1),
            first(spec_glide(w, q + n1), first(spec_d(w, q + n1), spec_unvoiced(w, q + n1))),
        )) is None {
            Some(n1)
        } else {
            None
        },
        None => None,
    }
}

/// Match `d` at `q`; see [`spec_d`].
pub fn d(w: &[u8], q: usize) -> (hit: Option<usize>)
    requires
        q <= w.len(),
    ensures
        matched(hit) == spec_d(w@, q as nat),
        hit matches Some(len) ==> 0 < len && q + len <= w.len() && starts_plain(
            w@,
            q as nat,
            len as nat,
        ),
    decreases w.len() - q, 0nat,
{
    reveal(spec_d);
    reveal(spec_h);
    reveal(spec_glide);
    reveal(spec_unvoiced);
    let n1: usize = one_of(w, q, "dD")?;
    if (match h(w, q + n1) {
        Some(len) => Some(len),
        None => match glide(w, q + n1) {
            Some(len) => Some(len),
            None => match d(w, q + n1) {
                Some(len) => Some(len),
                None => unvoiced(w, q + n1),
            },
        },
    }).is_some() {
        return None;
    }
    Some(n1)
}

/// ```text
/// f <- [fF] !(h / glide / f / voiced)
/// ```
#[verifier::opaque]
pub open spec fn spec_f(w: Seq<u8>, q: nat) -> Option<nat>
    decreases rest(w, q), 0nat,
{
    match spec_one_of(w, q, "fF") {
        Some(n1) => if (first(
            spec_h(w, q + n1),
            first(spec_glide(w, q + n1), first(spec_f(w, q + n1), spec_voiced(w, q + n1))),
        )) is None {
            Some(n1)
        } else {
            None
        },
        None => None,
    }
}

/// Match `f` at `q`; see [`spec_f`].
pub fn f(w: &[u8], q: usize) -> (hit: Option<usize>)
    requires
        q <= w.len(),
    ensures
        matched(hit) == spec_f(w@, q as nat),
        hit matches Some(len) ==> 0 < len && q + len <= w.len() && starts_plain(
            w@,
            q as nat,
            len as nat,
        ),
    decreases w.len() - q, 0nat,
{
    reveal(spec_f);
    reveal(spec_h);
    reveal(spec_glide);
    reveal(spec_voiced);
    let n1: usize = one_of(w, q, "fF")?;
    if (match h(w, q + n1) {
        Some(len) => Some(len),
        None => match glide(w, q + n1) {
            Some(len) => Some(len),
            None => match f(w, q + n1) {
                Some(len) => Some(len),
                None => voiced(w, q + n1),
            },
        },
    }).is_some() {
        return None;
    }
    Some(n1)
}

/// ```text
/// g <- [gG] !(h / glide / g / unvoiced)
/// ```
#[verifier::opaque]
pub open spec fn spec_g(w: Seq<u8>, q: nat) -> Option<nat>
    decreases rest(w, q), 0nat,
{
    match spec_one_of(w, q, "gG") {
        Some(n1) => if (first(
            spec_h(w, q + n1),
            first(spec_glide(w, q + n1), first(spec_g(w, q + n1), spec_unvoiced(w, q + n1))),
        )) is None {
            Some(n1)
        } else {
            None
        },
        None => None,
    }
}

/// Match `g` at `q`; see [`spec_g`].
pub fn g(w: &[u8], q: usize) -> (hit: Option<usize>)
    requires
        q <= w.len(),
    ensures
        matched(hit) == spec_g(w@, q as nat),
        hit matches Some(len) ==> 0 < len && q + len <= w.len() && starts_plain(
            w@,
            q as nat,
            len as nat,
        ),
    decreases w.len() - q, 0nat,
{
    reveal(spec_g);
    reveal(spec_h);
    reveal(spec_glide);
    reveal(spec_unvoiced);
    let n1: usize = one_of(w, q, "gG")?;
    if (match h(w, q + n1) {
        Some(len) => Some(len),
        None => match glide(w, q + n1) {
            Some(len) => Some(len),
            None => match g(w, q + n1) {
                Some(len) => Some(len),
                None => unvoiced(w, q + n1),
            },
        },
    }).is_some() {
        return None;
    }
    Some(n1)
}

/// ```text
/// j <- [jJ] !(h / glide / j / z / unvoiced)
/// ```
#[verifier::opaque]
pub open spec fn spec_j(w: Seq<u8>, q: nat) -> Option<nat>
    decreases rest(w, q), 0nat,
{
    match spec_one_of(w, q, "jJ") {
        Some(n1) => if (first(
            spec_h(w, q + n1),
            first(
                spec_glide(w, q + n1),
                first(spec_j(w, q + n1), first(spec_z(w, q + n1), spec_unvoiced(w, q + n1))),
            ),
        )) is None {
            Some(n1)
        } else {
            None
        },
        None => None,
    }
}

/// Match `j` at `q`; see [`spec_j`].
pub fn j(w: &[u8], q: usize) -> (hit: Option<usize>)
    requires
        q <= w.len(),
    ensures
        matched(hit) == spec_j(w@, q as nat),
        hit matches Some(len) ==> 0 < len && q + len <= w.len() && starts_plain(
            w@,
            q as nat,
            len as nat,
        ),
    decreases w.len() - q, 0nat,
{
    reveal(spec_j);
    reveal(spec_h);
    reveal(spec_glide);
    reveal(spec_z);
    reveal(spec_unvoiced);
    let n1: usize = one_of(w, q, "jJ")?;
    if (match h(w, q + n1) {
        Some(len) => Some(len),
        None => match glide(w, q + n1) {
            Some(len) => Some(len),
            None => match j(w, q + n1) {
                Some(len) => Some(len),
                None => match z(w, q + n1) {
                    Some(len) => Some(len),
                    None => unvoiced(w, q + n1),
                },
            },
        },
    }).is_some() {
        return None;
    }
    Some(n1)
}

/// ```text
/// k <- [kK] !(h / glide / k / x / voiced)
/// ```
#[verifier::opaque]
pub open spec fn spec_k(w: Seq<u8>, q: nat) -> Option<nat>
    decreases rest(w, q), 0nat,
{
    match spec_one_of(w, q, "kK") {
        Some(n1) => if (first(
            spec_h(w, q + n1),
            first(
                spec_glide(w, q + n1),
                first(spec_k(w, q + n1), first(spec_x(w, q + n1), spec_voiced(w, q + n1))),
            ),
        )) is None {
            Some(n1)
        } else {
            None
        },
        None => None,
    }
}

/// Match `k` at `q`; see [`spec_k`].
pub fn k(w: &[u8], q: usize) -> (hit: Option<usize>)
    requires
        q <= w.len(),
    ensures
        matched(hit) == spec_k(w@, q as nat),
        hit matches Some(len) ==> 0 < len && q + len <= w.len() && starts_plain(
            w@,
            q as nat,
            len as nat,
        ),
    decreases w.len() - q, 0nat,
{
    reveal(spec_k);
    reveal(spec_h);
    reveal(spec_glide);
    reveal(spec_x);
    reveal(spec_voiced);
    let n1: usize = one_of(w, q, "kK")?;
    if (match h(w, q + n1) {
        Some(len) => Some(len),
        None => match glide(w, q + n1) {
            Some(len) => Some(len),
            None => match k(w, q + n1) {
                Some(len) => Some(len),
                None => match x(w, q + n1) {
                    Some(len) => Some(len),
                    None => voiced(w, q + n1),
                },
            },
        },
    }).is_some() {
        return None;
    }
    Some(n1)
}

/// ```text
/// l <- [lL] !(h / glide / l)
/// ```
#[verifier::opaque]
pub open spec fn spec_l(w: Seq<u8>, q: nat) -> Option<nat>
    decreases rest(w, q), 0nat,
{
    match spec_one_of(w, q, "lL") {
        Some(n1) => if first(spec_h(w, q + n1), first(spec_glide(w, q + n1), spec_l(w, q + n1))) is None {
            Some(n1)
        } else {
            None
        },
        None => None,
    }
}

/// Match `l` at `q`; see [`spec_l`].
pub fn l(w: &[u8], q: usize) -> (hit: Option<usize>)
    requires
        q <= w.len(),
    ensures
        matched(hit) == spec_l(w@, q as nat),
        hit matches Some(len) ==> 0 < len && q + len <= w.len() && starts_plain(
            w@,
            q as nat,
            len as nat,
        ),
    decreases w.len() - q, 0nat,
{
    reveal(spec_l);
    reveal(spec_h);
    reveal(spec_glide);
    let n1: usize = one_of(w, q, "lL")?;
    if (match h(w, q + n1) {
        Some(len) => Some(len),
        None => match glide(w, q + n1) {
            Some(len) => Some(len),
            None => l(w, q + n1),
        },
    }).is_some() {
        return None;
    }
    Some(n1)
}

/// ```text
/// m <- [mM] !(h / glide / m / z)
/// ```
#[verifier::opaque]
pub open spec fn spec_m(w: Seq<u8>, q: nat) -> Option<nat>
    decreases rest(w, q), 0nat,
{
    match spec_one_of(w, q, "mM") {
        Some(n1) => if (first(
            spec_h(w, q + n1),
            first(spec_glide(w, q + n1), first(spec_m(w, q + n1), spec_z(w, q + n1))),
        )) is None {
            Some(n1)
        } else {
            None
        },
        None => None,
    }
}

/// Match `m` at `q`; see [`spec_m`].
pub fn m(w: &[u8], q: usize) -> (hit: Option<usize>)
    requires
        q <= w.len(),
    ensures
        matched(hit) == spec_m(w@, q as nat),
        hit matches Some(len) ==> 0 < len && q + len <= w.len() && starts_plain(
            w@,
            q as nat,
            len as nat,
        ),
    decreases w.len() - q, 0nat,
{
    reveal(spec_m);
    reveal(spec_h);
    reveal(spec_glide);
    reveal(spec_z);
    let n1: usize = one_of(w, q, "mM")?;
    if (match h(w, q + n1) {
        Some(len) => Some(len),
        None => match glide(w, q + n1) {
            Some(len) => Some(len),
            None => match m(w, q + n1) {
                Some(len) => Some(len),
                None => z(w, q + n1),
            },
        },
    }).is_some() {
        return None;
    }
    Some(n1)
}

/// ```text
/// n <- [nN] !(h / glide / n / affricate)
/// ```
#[verifier::opaque]
pub open spec fn spec_n(w: Seq<u8>, q: nat) -> Option<nat>
    decreases rest(w, q), 0nat,
{
    match spec_one_of(w, q, "nN") {
        Some(n1) => if (first(
            spec_h(w, q + n1),
            first(
                spec_glide(w, q + n1),
                first(spec_n(w, q + n1), spec_affricate(w, q + n1)),
            ),
        )) is None {
            Some(n1)
        } else {
            None
        },
        None => None,
    }
}

/// Match `n` at `q`; see [`spec_n`].
pub fn n(w: &[u8], q: usize) -> (hit: Option<usize>)
    requires
        q <= w.len(),
    ensures
        matched(hit) == spec_n(w@, q as nat),
        hit matches Some(len) ==> 0 < len && q + len <= w.len() && starts_plain(
            w@,
            q as nat,
            len as nat,
        ),
    decreases w.len() - q, 0nat,
{
    reveal(spec_n);
    reveal(spec_h);
    reveal(spec_glide);
    reveal(spec_affricate);
    let n1: usize = one_of(w, q, "nN")?;
    if (match h(w, q + n1) {
        Some(len) => Some(len),
        None => match glide(w, q + n1) {
            Some(len) => Some(len),
            None => match n(w, q + n1) {
                Some(len) => Some(len),
                None => affricate(w, q + n1),
            },
        },
    }).is_some() {
        return None;
    }
    Some(n1)
}

/// ```text
/// p <- [pP] !(h / glide / p / voiced)
/// ```
#[verifier::opaque]
pub open spec fn spec_p(w: Seq<u8>, q: nat) -> Option<nat>
    decreases rest(w, q), 0nat,
{
    match spec_one_of(w, q, "pP") {
        Some(n1) => if (first(
            spec_h(w, q + n1),
            first(spec_glide(w, q + n1), first(spec_p(w, q + n1), spec_voiced(w, q + n1))),
        )) is None {
            Some(n1)
        } else {
            None
        },
        None => None,
    }
}

/// Match `p` at `q`; see [`spec_p`].
pub fn p(w: &[u8], q: usize) -> (hit: Option<usize>)
    requires
        q <= w.len(),
    ensures
        matched(hit) == spec_p(w@, q as nat),
        hit matches Some(len) ==> 0 < len && q + len <= w.len() && starts_plain(
            w@,
            q as nat,
            len as nat,
        ),
    decreases w.len() - q, 0nat,
{
    reveal(spec_p);
    reveal(spec_h);
    reveal(spec_glide);
    reveal(spec_voiced);
    let n1: usize = one_of(w, q, "pP")?;
    if (match h(w, q + n1) {
        Some(len) => Some(len),
        None => match glide(w, q + n1) {
            Some(len) => Some(len),
            None => match p(w, q + n1) {
                Some(len) => Some(len),
                None => voiced(w, q + n1),
            },
        },
    }).is_some() {
        return None;
    }
    Some(n1)
}

/// ```text
/// r <- [rR] !(h / glide / r)
/// ```
#[verifier::opaque]
pub open spec fn spec_r(w: Seq<u8>, q: nat) -> Option<nat>
    decreases rest(w, q), 0nat,
{
    match spec_one_of(w, q, "rR") {
        Some(n1) => if first(spec_h(w, q + n1), first(spec_glide(w, q + n1), spec_r(w, q + n1))) is None {
            Some(n1)
        } else {
            None
        },
        None => None,
    }
}

/// Match `r` at `q`; see [`spec_r`].
pub fn r(w: &[u8], q: usize) -> (hit: Option<usize>)
    requires
        q <= w.len(),
    ensures
        matched(hit) == spec_r(w@, q as nat),
        hit matches Some(len) ==> 0 < len && q + len <= w.len() && starts_plain(
            w@,
            q as nat,
            len as nat,
        ),
    decreases w.len() - q, 0nat,
{
    reveal(spec_r);
    reveal(spec_h);
    reveal(spec_glide);
    let n1: usize = one_of(w, q, "rR")?;
    if (match h(w, q + n1) {
        Some(len) => Some(len),
        None => match glide(w, q + n1) {
            Some(len) => Some(len),
            None => r(w, q + n1),
        },
    }).is_some() {
        return None;
    }
    Some(n1)
}

/// ```text
/// s <- [sS] !(h / glide / s / c / voiced)
/// ```
#[verifier::opaque]
pub open spec fn spec_s(w: Seq<u8>, q: nat) -> Option<nat>
    decreases rest(w, q), 0nat,
{
    match spec_one_of(w, q, "sS") {
        Some(n1) => if (first(
            spec_h(w, q + n1),
            first(
                spec_glide(w, q + n1),
                first(spec_s(w, q + n1), first(spec_c(w, q + n1), spec_voiced(w, q + n1))),
            ),
        )) is None {
            Some(n1)
        } else {
            None
        },
        None => None,
    }
}

/// Match `s` at `q`; see [`spec_s`].
pub fn s(w: &[u8], q: usize) -> (hit: Option<usize>)
    requires
        q <= w.len(),
    ensures
        matched(hit) == spec_s(w@, q as nat),
        hit matches Some(len) ==> 0 < len && q + len <= w.len() && starts_plain(
            w@,
            q as nat,
            len as nat,
        ),
    decreases w.len() - q, 0nat,
{
    reveal(spec_s);
    reveal(spec_h);
    reveal(spec_glide);
    reveal(spec_c);
    reveal(spec_voiced);
    let n1: usize = one_of(w, q, "sS")?;
    if (match h(w, q + n1) {
        Some(len) => Some(len),
        None => match glide(w, q + n1) {
            Some(len) => Some(len),
            None => match s(w, q + n1) {
                Some(len) => Some(len),
                None => match c(w, q + n1) {
                    Some(len) => Some(len),
                    None => voiced(w, q + n1),
                },
            },
        },
    }).is_some() {
        return None;
    }
    Some(n1)
}

/// ```text
/// t <- [tT] !(h / glide / t / voiced)
/// ```
#[verifier::opaque]
pub open spec fn spec_t(w: Seq<u8>, q: nat) -> Option<nat>
    decreases rest(w, q), 0nat,
{
    match spec_one_of(w, q, "tT") {
        Some(n1) => if (first(
            spec_h(w, q + n1),
            first(spec_glide(w, q + n1), first(spec_t(w, q + n1), spec_voiced(w, q + n1))),
        )) is None {
            Some(n1)
        } else {
            None
        },
        None => None,
    }
}

/// Match `t` at `q`; see [`spec_t`].
pub fn t(w: &[u8], q: usize) -> (hit: Option<usize>)
    requires
        q <= w.len(),
    ensures
        matched(hit) == spec_t(w@, q as nat),
        hit matches Some(len) ==> 0 < len && q + len <= w.len() && starts_plain(
            w@,
            q as nat,
            len as nat,
        ),
    decreases w.len() - q, 0nat,
{
    reveal(spec_t);
    reveal(spec_h);
    reveal(spec_glide);
    reveal(spec_voiced);
    let n1: usize = one_of(w, q, "tT")?;
    if (match h(w, q + n1) {
        Some(len) => Some(len),
        None => match glide(w, q + n1) {
            Some(len) => Some(len),
            None => match t(w, q + n1) {
                Some(len) => Some(len),
                None => voiced(w, q + n1),
            },
        },
    }).is_some() {
        return None;
    }
    Some(n1)
}

/// ```text
/// v <- [vV] !(h / glide / v / unvoiced)
/// ```
#[verifier::opaque]
pub open spec fn spec_v(w: Seq<u8>, q: nat) -> Option<nat>
    decreases rest(w, q), 0nat,
{
    match spec_one_of(w, q, "vV") {
        Some(n1) => if (first(
            spec_h(w, q + n1),
            first(spec_glide(w, q + n1), first(spec_v(w, q + n1), spec_unvoiced(w, q + n1))),
        )) is None {
            Some(n1)
        } else {
            None
        },
        None => None,
    }
}

/// Match `v` at `q`; see [`spec_v`].
pub fn v(w: &[u8], q: usize) -> (hit: Option<usize>)
    requires
        q <= w.len(),
    ensures
        matched(hit) == spec_v(w@, q as nat),
        hit matches Some(len) ==> 0 < len && q + len <= w.len() && starts_plain(
            w@,
            q as nat,
            len as nat,
        ),
    decreases w.len() - q, 0nat,
{
    reveal(spec_v);
    reveal(spec_h);
    reveal(spec_glide);
    reveal(spec_unvoiced);
    let n1: usize = one_of(w, q, "vV")?;
    if (match h(w, q + n1) {
        Some(len) => Some(len),
        None => match glide(w, q + n1) {
            Some(len) => Some(len),
            None => match v(w, q + n1) {
                Some(len) => Some(len),
                None => unvoiced(w, q + n1),
            },
        },
    }).is_some() {
        return None;
    }
    Some(n1)
}

/// ```text
/// x <- [xX] !(h / glide / x / c / k / voiced)
/// ```
#[verifier::opaque]
pub open spec fn spec_x(w: Seq<u8>, q: nat) -> Option<nat>
    decreases rest(w, q), 0nat,
{
    match spec_one_of(w, q, "xX") {
        Some(n1) => if (first(
            spec_h(w, q + n1),
            first(
                spec_glide(w, q + n1),
                first(
                    spec_x(w, q + n1),
                    first(spec_c(w, q + n1), first(spec_k(w, q + n1), spec_voiced(w, q + n1))),
                ),
            ),
        )) is None {
            Some(n1)
        } else {
            None
        },
        None => None,
    }
}

/// Match `x` at `q`; see [`spec_x`].
pub fn x(w: &[u8], q: usize) -> (hit: Option<usize>)
    requires
        q <= w.len(),
    ensures
        matched(hit) == spec_x(w@, q as nat),
        hit matches Some(len) ==> 0 < len && q + len <= w.len() && starts_plain(
            w@,
            q as nat,
            len as nat,
        ),
    decreases w.len() - q, 0nat,
{
    reveal(spec_x);
    reveal(spec_h);
    reveal(spec_glide);
    reveal(spec_c);
    reveal(spec_k);
    reveal(spec_voiced);
    let n1: usize = one_of(w, q, "xX")?;
    if (match h(w, q + n1) {
        Some(len) => Some(len),
        None => match glide(w, q + n1) {
            Some(len) => Some(len),
            None => match x(w, q + n1) {
                Some(len) => Some(len),
                None => match c(w, q + n1) {
                    Some(len) => Some(len),
                    None => match k(w, q + n1) {
                        Some(len) => Some(len),
                        None => voiced(w, q + n1),
                    },
                },
            },
        },
    }).is_some() {
        return None;
    }
    Some(n1)
}

/// ```text
/// z <- [zZ] !(h / glide / z / j / unvoiced)
/// ```
#[verifier::opaque]
pub open spec fn spec_z(w: Seq<u8>, q: nat) -> Option<nat>
    decreases rest(w, q), 0nat,
{
    match spec_one_of(w, q, "zZ") {
        Some(n1) => if (first(
            spec_h(w, q + n1),
            first(
                spec_glide(w, q + n1),
                first(spec_z(w, q + n1), first(spec_j(w, q + n1), spec_unvoiced(w, q + n1))),
            ),
        )) is None {
            Some(n1)
        } else {
            None
        },
        None => None,
    }
}

/// Match `z` at `q`; see [`spec_z`].
pub fn z(w: &[u8], q: usize) -> (hit: Option<usize>)
    requires
        q <= w.len(),
    ensures
        matched(hit) == spec_z(w@, q as nat),
        hit matches Some(len) ==> 0 < len && q + len <= w.len() && starts_plain(
            w@,
            q as nat,
            len as nat,
        ),
    decreases w.len() - q, 0nat,
{
    reveal(spec_z);
    reveal(spec_h);
    reveal(spec_glide);
    reveal(spec_j);
    reveal(spec_unvoiced);
    let n1: usize = one_of(w, q, "zZ")?;
    if (match h(w, q + n1) {
        Some(len) => Some(len),
        None => match glide(w, q + n1) {
            Some(len) => Some(len),
            None => match z(w, q + n1) {
                Some(len) => Some(len),
                None => match j(w, q + n1) {
                    Some(len) => Some(len),
                    None => unvoiced(w, q + n1),
                },
            },
        },
    }).is_some() {
        return None;
    }
    Some(n1)
}

/// ```text
/// liquid <- l / r
/// ```
#[verifier::opaque]
pub open spec fn spec_liquid(w: Seq<u8>, q: nat) -> Option<nat>
    decreases rest(w, q), 1nat,
{
    first(spec_l(w, q), spec_r(w, q))
}

/// Match `liquid` at `q`; see [`spec_liquid`].
pub fn liquid(w: &[u8], q: usize) -> (hit: Option<usize>)
    requires
        q <= w.len(),
    ensures
        matched(hit) == spec_liquid(w@, q as nat),
        hit matches Some(len) ==> 0 < len && q + len <= w.len() && starts_plain(
            w@,
            q as nat,
            len as nat,
        ),
    decreases w.len() - q, 1nat,
{
    reveal(spec_liquid);
    reveal(spec_l);
    reveal(spec_r);
    let hit = l(w, q);
    if hit.is_some() {
        return hit;
    }
    r(w, q)
}

/// ```text
/// syllabic <- l / m / n / r
/// ```
#[verifier::opaque]
pub open spec fn spec_syllabic(w: Seq<u8>, q: nat) -> Option<nat>
    decreases rest(w, q), 1nat,
{
    first(spec_l(w, q), first(spec_m(w, q), first(spec_n(w, q), spec_r(w, q))))
}

/// Match `syllabic` at `q`; see [`spec_syllabic`].
pub fn syllabic(w: &[u8], q: usize) -> (hit: Option<usize>)
    requires
        q <= w.len(),
    ensures
        matched(hit) == spec_syllabic(w@, q as nat),
        hit matches Some(len) ==> 0 < len && q + len <= w.len() && starts_plain(
            w@,
            q as nat,
            len as nat,
        ),
    decreases w.len() - q, 1nat,
{
    reveal(spec_syllabic);
    reveal(spec_l);
    reveal(spec_m);
    reveal(spec_n);
    reveal(spec_r);
    let hit = l(w, q);
    if hit.is_some() {
        return hit;
    }
    let hit = m(w, q);
    if hit.is_some() {
        return hit;
    }
    let hit = n(w, q);
    if hit.is_some() {
        return hit;
    }
    r(w, q)
}

/// ```text
/// voiced <- b / d / g / j / v / z
/// ```
#[verifier::opaque]
pub open spec fn spec_voiced(w: Seq<u8>, q: nat) -> Option<nat>
    decreases rest(w, q), 1nat,
{
    first(
        spec_b(w, q),
        first(
            spec_d(w, q),
            first(spec_g(w, q), first(spec_j(w, q), first(spec_v(w, q), spec_z(w, q)))),
        ),
    )
}

/// Match `voiced` at `q`; see [`spec_voiced`].
pub fn voiced(w: &[u8], q: usize) -> (hit: Option<usize>)
    requires
        q <= w.len(),
    ensures
        matched(hit) == spec_voiced(w@, q as nat),
        hit matches Some(len) ==> 0 < len && q + len <= w.len() && starts_plain(
            w@,
            q as nat,
            len as nat,
        ),
    decreases w.len() - q, 1nat,
{
    reveal(spec_voiced);
    reveal(spec_b);
    reveal(spec_d);
    reveal(spec_g);
    reveal(spec_j);
    reveal(spec_v);
    reveal(spec_z);
    let hit = b(w, q);
    if hit.is_some() {
        return hit;
    }
    let hit = d(w, q);
    if hit.is_some() {
        return hit;
    }
    let hit = g(w, q);
    if hit.is_some() {
        return hit;
    }
    let hit = j(w, q);
    if hit.is_some() {
        return hit;
    }
    let hit = v(w, q);
    if hit.is_some() {
        return hit;
    }
    z(w, q)
}

/// ```text
/// unvoiced <- c / f / k / p / s / t / x
/// ```
#[verifier::opaque]
pub open spec fn spec_unvoiced(w: Seq<u8>, q: nat) -> Option<nat>
    decreases rest(w, q), 1nat,
{
    first(
        spec_c(w, q),
        first(
            spec_f(w, q),
            first(
                spec_k(w, q),
                first(spec_p(w, q), first(spec_s(w, q), first(spec_t(w, q), spec_x(w, q)))),
            ),
        ),
    )
}

/// Match `unvoiced` at `q`; see [`spec_unvoiced`].
pub fn unvoiced(w: &[u8], q: usize) -> (hit: Option<usize>)
    requires
        q <= w.len(),
    ensures
        matched(hit) == spec_unvoiced(w@, q as nat),
        hit matches Some(len) ==> 0 < len && q + len <= w.len() && starts_plain(
            w@,
            q as nat,
            len as nat,
        ),
    decreases w.len() - q, 1nat,
{
    reveal(spec_unvoiced);
    reveal(spec_c);
    reveal(spec_f);
    reveal(spec_k);
    reveal(spec_p);
    reveal(spec_s);
    reveal(spec_t);
    reveal(spec_x);
    let hit = c(w, q);
    if hit.is_some() {
        return hit;
    }
    let hit = f(w, q);
    if hit.is_some() {
        return hit;
    }
    let hit = k(w, q);
    if hit.is_some() {
        return hit;
    }
    let hit = p(w, q);
    if hit.is_some() {
        return hit;
    }
    let hit = s(w, q);
    if hit.is_some() {
        return hit;
    }
    let hit = t(w, q);
    if hit.is_some() {
        return hit;
    }
    x(w, q)
}

/// ```text
/// consonant <- voiced / unvoiced / syllabic
/// ```
#[verifier::opaque]
pub open spec fn spec_consonant(w: Seq<u8>, q: nat) -> Option<nat>
    decreases rest(w, q), 2nat,
{
    first(spec_voiced(w, q), first(spec_unvoiced(w, q), spec_syllabic(w, q)))
}

/// Match `consonant` at `q`; see [`spec_consonant`].
pub fn consonant(w: &[u8], q: usize) -> (hit: Option<usize>)
    requires
        q <= w.len(),
    ensures
        matched(hit) == spec_consonant(w@, q as nat),
        hit matches Some(len) ==> 0 < len && q + len <= w.len() && starts_plain(
            w@,
            q as nat,
            len as nat,
        ),
    decreases w.len() - q, 2nat,
{
    reveal(spec_consonant);
    reveal(spec_voiced);
    reveal(spec_unvoiced);
    reveal(spec_syllabic);
    let hit = voiced(w, q);
    if hit.is_some() {
        return hit;
    }
    let hit = unvoiced(w, q);
    if hit.is_some() {
        return hit;
    }
    syllabic(w, q)
}

/// The length of as many `consonant` as match in a row from `q`.
#[verifier::opaque]
pub open spec fn spec_many_consonant(w: Seq<u8>, q: nat) -> nat
    decreases rest(w, q), 3nat,
{
    match spec_consonant(w, q) {
        Some(len) => if advanced(w, q, len) {
            len + spec_many_consonant(w, q + len)
        } else {
            0
        },
        None => 0,
    }
}

/// Match `consonant` from `q` as often as it matches; see [`spec_many_consonant`].
pub fn many_consonant(w: &[u8], q: usize) -> (total: usize)
    requires
        q <= w.len(),
    ensures
        total == spec_many_consonant(w@, q as nat),
        q + total <= w.len(),
        starts_plain(w@, q as nat, total as nat),
    decreases w.len() - q, 3nat,
{
    let mut total: usize = 0;
    let mut more = true;
    while more
        invariant
            q + total <= w.len(),
            starts_plain(w@, q as nat, total as nat),
            more ==> total + spec_many_consonant(w@, (q + total) as nat) == spec_many_consonant(w@, q as nat),
            !more ==> total == spec_many_consonant(w@, q as nat),
        decreases w.len() - q - total + (if more { 1int } else { 0int }),
    {
        reveal(spec_many_consonant);
        reveal(spec_consonant);
        match consonant(w, q + total) {
            Some(len) => {
                total = total + len;
            },
            None => {
                more = false;
            },
        }
    }
    total
}

/// ```text
/// other <- p / k / f / x / b / g / v / m / n !liquid / (t / d) !l
/// ```
#[verifier::opaque]
pub open spec fn spec_other(w: Seq<u8>, q: nat) -> Option<nat>
    decreases rest(w, q), 2nat,
{
    first(
        spec_p(w, q),
        first(
            spec_k(w, q),
            first(
                spec_f(w, q),
                first(
                    spec_x(w, q),
                    first(
                        spec_b(w, q),
                        first(
                            spec_g(w, q),
                            first(
                                spec_v(w, q),
                                first(
                                    spec_m(w, q),
                                    first(
                                        match spec_n(w, q) {
                                            Some(n1) => if spec_liquid(w, q + n1) is None {
                                                Some(n1)
                                            } else {
                                                None
                                            },
                                            None => None,
                                        },
                                        match first(spec_t(w, q), spec_d(w, q)) {
                                            Some(n2) => if spec_l(w, q + n2) is None {
                                                Some(n2)
                                            } else {
                                                None
                                            },
                                            None => None,
                                        },
                                    ),
                                ),
                            ),
                        ),
                    ),
                ),
            ),
        ),
    )
}

/// Match `other` at `q`; see [`spec_other`].
pub fn other(w: &[u8], q: usize) -> (hit: Option<usize>)
    requires
        q <= w.len(),
    ensures
        matched(hit) == spec_other(w@, q as nat),
        hit matches Some(len) ==> 0 < len && q + len <= w.len() && starts_plain(
            w@,
            q as nat,
            len as nat,
        ),
    decreases w.len() - q, 2nat,
{
    reveal(spec_other);
    reveal(spec_p);
    reveal(spec_k);
    reveal(spec_f);
    reveal(spec_x);
    reveal(spec_b);
    reveal(spec_g);
    reveal(spec_v);
    reveal(spec_m);
    reveal(spec_n);
    reveal(spec_liquid);
    reveal(spec_t);
    reveal(spec_d);
    reveal(spec_l);
    let hit = p(w, q);
    if hit.is_some() {
        return hit;
    }
    let hit = k(w, q);
    if hit.is_some() {
        return hit;
    }
    let hit = f(w, q);
    if hit.is_some() {
        return hit;
    }
    let hit = x(w, q);
    if hit.is_some() {
        return hit;
    }
    let hit = b(w, q);
    if hit.is_some() {
        return hit;
    }
    let hit = g(w, q);
    if hit.is_some() {
        return hit;
    }
    let hit = v(w, q);
    if hit.is_some() {
        return hit;
    }
    let hit = m(w, q);
    if hit.is_some() {
        return hit;
    }
    let hit = match n(w, q) {
        Some(n1) => if liquid(w, q + n1).is_none() {
            Some(n1)
        } else {
            None
        },
        None => None,
    };
    if hit.is_some() {
        return hit;
    }
    match match t(w, q) {
        Some(len) => Some(len),
        None => d(w, q),
    } {
        Some(n2) => if l(w, q + n2).is_none() {
            Some(n2)
        } else {
            None
        },
        None => None,
    }
}

/// ```text
/// sibilant <- c / s !x / (j / z) !n !liquid
/// ```
#[verifier::opaque]
pub open spec fn spec_sibilant(w: Seq<u8>, q: nat) -> Option<nat>
    decreases rest(w, q), 2nat,
{
    first(
        spec_c(w, q),
        first(
            match spec_s(w, q) {
                Some(n1) => if spec_x(w, q + n1) is None {
                    Some(n1)
                } else {
                    None
                },
                None => None,
            },
            match first(spec_j(w, q), spec_z(w, q)) {
                Some(n2) => if spec_n(w, q + n2) is None && spec_liquid(w, q + n2) is None {
                    Some(n2)
                } else {
                    None
                },
                None => None,
            },
        ),
    )
}

/// Match `sibilant` at `q`; see [`spec_sibilant`].
pub fn sibilant(w: &[u8], q: usize) -> (hit: Option<usize>)
    requires
        q <= w.len(),
    ensures
        matched(hit) == spec_sibilant(w@, q as nat),
        hit matches Some(len) ==> 0 < len && q + len <= w.len() && starts_plain(
            w@,
            q as nat,
            len as nat,
        ),
    decreases w.len() - q, 2nat,
{
    reveal(spec_sibilant);
    reveal(spec_c);
    reveal(spec_s);
    reveal(spec_x);
    reveal(spec_j);
    reveal(spec_z);
    reveal(spec_n);
    reveal(spec_liquid);
    let hit = c(w, q);
    if hit.is_some() {
        return hit;
    }
    let hit = match s(w, q) {
        Some(n1) => if x(w, q + n1).is_none() {
            Some(n1)
        } else {
            None
        },
        None => None,
    };
    if hit.is_some() {
        return hit;
    }
    match match j(w, q) {
        Some(len) => Some(len),
        None => z(w, q),
    } {
        Some(n2) => if n(w, q + n2).is_none() && liquid(w, q + n2).is_none() {
            Some(n2)
        } else {
            None
        },
        None => None,
    }
}

/// ```text
/// affricate <- t (c / s) / d (j / z)
/// ```
#[verifier::opaque]
pub open spec fn spec_affricate(w: Seq<u8>, q: nat) -> Option<nat>
    decreases rest(w, q), 1nat,
{
    first(
        match spec_t(w, q) {
            Some(n1) => match first(spec_c(w, q + n1), spec_s(w, q + n1)) {
                Some(n2) => Some(n1 + n2),
                None => None,
            },
            None => None,
        },
        match spec_d(w, q) {
            Some(n3) => match first(spec_j(w, q + n3), spec_z(w, q + n3)) {
                Some(n4) => Some(n3 + n4),
                None => None,
            },
            None => None,
        },
    )
}

/// Match `affricate` at `q`; see [`spec_affricate`].
pub fn affricate(w: &[u8], q: usize) -> (hit: Option<usize>)
    requires
        q <= w.len(),
    ensures
        matched(hit) == spec_affricate(w@, q as nat),
        hit matches Some(len) ==> 0 < len && q + len <= w.len() && starts_plain(
            w@,
            q as nat,
            len as nat,
        ),
    decreases w.len() - q, 1nat,
{
    reveal(spec_affricate);
    reveal(spec_t);
    reveal(spec_c);
    reveal(spec_s);
    reveal(spec_d);
    reveal(spec_j);
    reveal(spec_z);
    let hit = match t(w, q) {
        Some(n1) => match match c(w, q + n1) {
            Some(len) => Some(len),
            None => s(w, q + n1),
        } {
            Some(n2) => Some(n1 + n2),
            None => None,
        },
        None => None,
    };
    if hit.is_some() {
        return hit;
    }
    match d(w, q) {
        Some(n3) => match match j(w, q + n3) {
            Some(len) => Some(len),
            None => z(w, q + n3),
        } {
            Some(n4) => Some(n3 + n4),
            None => None,
        },
        None => None,
    }
}

/// ```text
/// a <- [aA]
/// ```
pub open spec fn spec_a(w: Seq<u8>, q: nat) -> Option<nat>
{
    spec_one_of(w, q, "aA")
}

/// Match `a` at `q`; see [`spec_a`].
pub fn a(w: &[u8], q: usize) -> (hit: Option<usize>)
    requires
        q <= w.len(),
    ensures
        matched(hit) == spec_a(w@, q as nat),
        hit matches Some(len) ==> 0 < len && q + len <= w.len() && starts_plain(
            w@,
            q as nat,
            len as nat,
        ),
{
    one_of(w, q, "aA")
}

/// ```text
/// e <- [eE]
/// ```
pub open spec fn spec_e(w: Seq<u8>, q: nat) -> Option<nat>
{
    spec_one_of(w, q, "eE")
}

/// Match `e` at `q`; see [`spec_e`].
pub fn e(w: &[u8], q: usize) -> (hit: Option<usize>)
    requires
        q <= w.len(),
    ensures
        matched(hit) == spec_e(w@, q as nat),
        hit matches Some(len) ==> 0 < len && q + len <= w.len() && starts_plain(
            w@,
            q as nat,
            len as nat,
        ),
{
    one_of(w, q, "eE")
}

/// ```text
/// i <- [iI]
/// ```
pub open spec fn spec_i(w: Seq<u8>, q: nat) -> Option<nat>
{
    spec_one_of(w, q, "iI")
}

/// Match `i` at `q`; see [`spec_i`].
pub fn i(w: &[u8], q: usize) -> (hit: Option<usize>)
    requires
        q <= w.len(),
    ensures
        matched(hit) == spec_i(w@, q as nat),
        hit matches Some(len) ==> 0 < len && q + len <= w.len() && starts_plain(
            w@,
            q as nat,
            len as nat,
        ),
{
    one_of(w, q, "iI")
}

/// ```text
/// o <- [oO]
/// ```
pub open spec fn spec_o(w: Seq<u8>, q: nat) -> Option<nat>
{
    spec_one_of(w, q, "oO")
}

/// Match `o` at `q`; see [`spec_o`].
pub fn o(w: &[u8], q: usize) -> (hit: Option<usize>)
    requires
        q <= w.len(),
    ensures
        matched(hit) == spec_o(w@, q as nat),
        hit matches Some(len) ==> 0 < len && q + len <= w.len() && starts_plain(
            w@,
            q as nat,
            len as nat,
        ),
{
    one_of(w, q, "oO")
}

/// ```text
/// u <- [uU]
/// ```
pub open spec fn spec_u(w: Seq<u8>, q: nat) -> Option<nat>
{
    spec_one_of(w, q, "uU")
}

/// Match `u` at `q`; see [`spec_u`].
pub fn u(w: &[u8], q: usize) -> (hit: Option<usize>)
    requires
        q <= w.len(),
    ensures
        matched(hit) == spec_u(w@, q as nat),
        hit matches Some(len) ==> 0 < len && q + len <= w.len() && starts_plain(
            w@,
            q as nat,
            len as nat,
        ),
{
    one_of(w, q, "uU")
}

/// ```text
/// y <- [yY]
/// ```
pub open spec fn spec_y(w: Seq<u8>, q: nat) -> Option<nat>
{
    spec_one_of(w, q, "yY")
}

/// Match `y` at `q`; see [`spec_y`].
pub fn y(w: &[u8], q: usize) -> (hit: Option<usize>)
    requires
        q <= w.len(),
    ensures
        matched(hit) == spec_y(w@, q as nat),
        hit matches Some(len) ==> 0 < len && q + len <= w.len() && starts_plain(
            w@,
            q as nat,
            len as nat,
        ),
{
    one_of(w, q, "yY")
}

/// The length of as many `y` as match in a row from `q`.
#[verifier::opaque]
pub open spec fn spec_many_y(w: Seq<u8>, q: nat) -> nat
    decreases rest(w, q), 1nat,
{
    match spec_y(w, q) {
        Some(len) => if advanced(w, q, len) {
            len + spec_many_y(w, q + len)
        } else {
            0
        },
        None => 0,
    }
}

/// Match `y` from `q` as often as it matches; see [`spec_many_y`].
pub fn many_y(w: &[u8], q: usize) -> (total: usize)
    requires
        q <= w.len(),
    ensures
        total == spec_many_y(w@, q as nat),
        q + total <= w.len(),
        starts_plain(w@, q as nat, total as nat),
    decreases w.len() - q, 1nat,
{
    let mut total: usize = 0;
    let mut more = true;
    while more
        invariant
            q + total <= w.len(),
            starts_plain(w@, q as nat, total as nat),
            more ==> total + spec_many_y(w@, (q + total) as nat) == spec_many_y(w@, q as nat),
            !more ==> total == spec_many_y(w@, q as nat),
        decreases w.len() - q - total + (if more { 1int } else { 0int }),
    {
        reveal(spec_many_y);
        reveal(spec_y);
        match y(w, q + total) {
            Some(len) => {
                total = total + len;
            },
            None => {
                more = false;
            },
        }
    }
    total
}

/// ```text
/// vowel <- [aAeEiIoOuUyY] !nucleus
/// ```
#[verifier::opaque]
pub open spec fn spec_vowel(w: Seq<u8>, q: nat) -> Option<nat>
    decreases rest(w, q), 0nat,
{
    match spec_one_of(w, q, "aAeEiIoOuUyY") {
        Some(n1) => if spec_nucleus(w, q + n1) is None {
            Some(n1)
        } else {
            None
        },
        None => None,
    }
}

/// Match `vowel` at `q`; see [`spec_vowel`].
pub fn vowel(w: &[u8], q: usize) -> (hit: Option<usize>)
    requires
        q <= w.len(),
    ensures
        matched(hit) == spec_vowel(w@, q as nat),
        hit matches Some(len) ==> 0 < len && q + len <= w.len() && starts_plain(
            w@,
            q as nat,
            len as nat,
        ),
    decreases w.len() - q, 0nat,
{
    reveal(spec_vowel);
    reveal(spec_nucleus);
    let n1: usize = one_of(w, q, "aAeEiIoOuUyY")?;
    if nucleus(w, q + n1).is_some() {
        return None;
    }
    Some(n1)
}

/// ```text
/// diphthong <- (a (i / u) / (e / o) i) !nucleus
/// ```
#[verifier::opaque]
pub open spec fn spec_diphthong(w: Seq<u8>, q: nat) -> Option<nat>
    decreases rest(w, q), 1nat,
{
    match first(
        match spec_a(w, q) {
            Some(n1) => match first(spec_i(w, q + n1), spec_u(w, q + n1)) {
                Some(n2) => Some(n1 + n2),
                None => None,
            },
            None => None,
        },
        match first(spec_e(w, q), spec_o(w, q)) {
            Some(n3) => match spec_i(w, q + n3) {
                Some(n4) => Some(n3 + n4),
                None => None,
            },
            None => None,
        },
    ) {
        Some(n5) => if spec_nucleus(w, q + n5) is None {
            Some(n5)
        } else {
            None
        },
        None => None,
    }
}

/// Match `diphthong` at `q`; see [`spec_diphthong`].
pub fn diphthong(w: &[u8], q: usize) -> (hit: Option<usize>)
    requires
        q <= w.len(),
    ensures
        matched(hit) == spec_diphthong(w@, q as nat),
        hit matches Some(len) ==> 0 < len && q + len <= w.len() && starts_plain(
            w@,
            q as nat,
            len as nat,
        ),
    decreases w.len() - q, 1nat,
{
    reveal(spec_diphthong);
    reveal(spec_nucleus);
    let n5: usize = (match match a(w, q) {
        Some(n1) => match match i(w, q + n1) {
            Some(len) => Some(len),
            None => u(w, q + n1),
        } {
            Some(n2) => Some(n1 + n2),
            None => None,
        },
        None => None,
    } {
        Some(len) => Some(len),
        None => match match e(w, q) {
            Some(len) => Some(len),
            None => o(w, q),
        } {
            Some(n3) => match i(w, q + n3) {
                Some(n4) => Some(n3 + n4),
                None => None,
            },
            None => None,
        },
    })?;
    if nucleus(w, q + n5).is_some() {
        return None;
    }
    Some(n5)
}

/// ```text
/// nucleus <- vowel / diphthong / y !nucleus
/// ```
#[verifier::opaque]
pub open spec fn spec_nucleus(w: Seq<u8>, q: nat) -> Option<nat>
    decreases rest(w, q), 2nat,
{
    first(
        spec_vowel(w, q),
        first(
            spec_diphthong(w, q),
            match spec_y(w, q) {
                Some(n1) => if spec_nucleus(w, q + n1) is None {
                    Some(n1)
                } else {
                    None
                },
                None => None,
            },
        ),
    )
}

/// Match `nucleus` at `q`; see [`spec_nucleus`].
pub fn nucleus(w: &[u8], q: usize) -> (hit: Option<usize>)
    requires
        q <= w.len(),
    ensures
        matched(hit) == spec_nucleus(w@, q as nat),
        hit matches Some(len) ==> 0 < len && q + len <= w.len() && starts_plain(
            w@,
            q as nat,
            len as nat,
        ),
    decreases w.len() - q, 2nat,
{
    reveal(spec_nucleus);
    reveal(spec_vowel);
    reveal(spec_diphthong);
    let hit = vowel(w, q);
    if hit.is_some() {
        return hit;
    }
    let hit = diphthong(w, q);
    if hit.is_some() {
        return hit;
    }
    match y(w, q) {
        Some(n1) => if nucleus(w, q + n1).is_none() {
            Some(n1)
        } else {
            None
        },
        None => None,
    }
}

/// ```text
/// glide <- [iIuU] &nucleus
/// ```
#[verifier::opaque]
pub open spec fn spec_glide(w: Seq<u8>, q: nat) -> Option<nat>
    decreases rest(w, q), 0nat,
{
    match spec_one_of(w, q, "iIuU") {
        Some(n1) => if spec_nucleus(w, q + n1) is Some {
            Some(n1)
        } else {
            None
        },
        None => None,
    }
}

/// Match `glide` at `q`; see [`spec_glide`].
pub fn glide(w: &[u8], q: usize) -> (hit: Option<usize>)
    requires
        q <= w.len(),
    ensures
        matched(hit) == spec_glide(w@, q as nat),
        hit matches Some(len) ==> 0 < len && q + len <= w.len() && starts_plain(
            w@,
            q as nat,
            len as nat,
        ),
    decreases w.len() - q, 0nat,
{
    reveal(spec_glide);
    reveal(spec_nucleus);
    let n1: usize = one_of(w, q, "iIuU")?;
    if nucleus(w, q + n1).is_none() {
        return None;
    }
    Some(n1)
}

/// ```text
/// digit <- [0123456789] !(h / nucleus)
/// ```
#[verifier::opaque]
pub open spec fn spec_digit(w: Seq<u8>, q: nat) -> Option<nat>
    decreases rest(w, q), 0nat,
{
    match spec_one_of(w, q, "0123456789") {
        Some(n1) => if first(spec_h(w, q + n1), spec_nucleus(w, q + n1)) is None {
            Some(n1)
        } else {
            None
        },
        None => None,
    }
}

/// Match `digit` at `q`; see [`spec_digit`].
pub fn digit(w: &[u8], q: usize) -> (hit: Option<usize>)
    requires
        q <= w.len(),
    ensures
        matched(hit) == spec_digit(w@, q as nat),
        hit matches Some(len) ==> 0 < len && q + len <= w.len() && starts_plain(
            w@,
            q as nat,
            len as nat,
        ),
    decreases w.len() - q, 0nat,
{
    reveal(spec_digit);
    reveal(spec_h);
    reveal(spec_nucleus);
    let n1: usize = one_of(w, q, "0123456789")?;
    if (match h(w, q + n1) {
        Some(len) => Some(len),
        None => nucleus(w, q + n1),
    }).is_some() {
        return None;
    }
    Some(n1)
}

/// ```text
/// cmevla_letter <- nucleus / glide / h / consonant !end / digit
/// ```
#[verifier::opaque]
pub open spec fn spec_cmevla_letter(w: Seq<u8>, q: nat) -> Option<nat>
    decreases rest(w, q), 3nat,
{
    first(
        spec_nucleus(w, q),
        first(
            spec_glide(w, q),
            first(
                spec_h(w, q),
                first(
                    match spec_consonant(w, q) {
                        Some(n1) => if spec_eof(w, q + n1) is None {
                            Some(n1)
                        } else {
                            None
                        },
                        None => None,
                    },
                    spec_digit(w, q),
                ),
            ),
        ),
    )
}

/// Match `cmevla_letter` at `q`; see [`spec_cmevla_letter`].
pub fn cmevla_letter(w: &[u8], q: usize) -> (hit: Option<usize>)
    requires
        q <= w.len(),
    ensures
        matched(hit) == spec_cmevla_letter(w@, q as nat),
        hit matches Some(len) ==> 0 < len && q + len <= w.len() && starts_plain(
            w@,
            q as nat,
            len as nat,
        ),
    decreases w.len() - q, 3nat,
{
    reveal(spec_cmevla_letter);
    reveal(spec_nucleus);
    reveal(spec_glide);
    reveal(spec_h);
    reveal(spec_consonant);
    reveal(spec_digit);
    let hit = nucleus(w, q);
    if hit.is_some() {
        return hit;
    }
    let hit = glide(w, q);
    if hit.is_some() {
        return hit;
    }
    let hit = h(w, q);
    if hit.is_some() {
        return hit;
    }
    let hit = match consonant(w, q) {
        Some(n1) => if eof(w, q + n1).is_none() {
            Some(n1)
        } else {
            None
        },
        None => None,
    };
    if hit.is_some() {
        return hit;
    }
    digit(w, q)
}

/// The length of as many `cmevla_letter` as match in a row from `q`.
#[verifier::opaque]
pub open spec fn spec_many_cmevla_letter(w: Seq<u8>, q: nat) -> nat
    decreases rest(w, q), 4nat,
{
    match spec_cmevla_letter(w, q) {
        Some(len) => if advanced(w, q, len) {
            len + spec_many_cmevla_letter(w, q + len)
        } else {
            0
        },
        None => 0,
    }
}

/// Match `cmevla_letter` from `q` as often as it matches; see [`spec_many_cmevla_letter`].
pub fn many_cmevla_letter(w: &[u8], q: usize) -> (total: usize)
    requires
        q <= w.len(),
    ensures
        total == spec_many_cmevla_letter(w@, q as nat),
        q + total <= w.len(),
        starts_plain(w@, q as nat, total as nat),
    decreases w.len() - q, 4nat,
{
    let mut total: usize = 0;
    let mut more = true;
    while more
        invariant
            q + total <= w.len(),
            starts_plain(w@, q as nat, total as nat),
            more ==> total + spec_many_cmevla_letter(w@, (q + total) as nat) == spec_many_cmevla_letter(w@, q as nat),
            !more ==> total == spec_many_cmevla_letter(w@, q as nat),
        decreases w.len() - q - total + (if more { 1int } else { 0int }),
    {
        reveal(spec_many_cmevla_letter);
        reveal(spec_cmevla_letter);
        match cmevla_letter(w, q + total) {
            Some(len) => {
                total = total + len;
            },
            None => {
                more = false;
            },
        }
    }
    total
}

/// ```text
/// cmevla <- !h cmevla_letter* consonant end
/// ```
#[verifier::opaque]
pub open spec fn spec_cmevla(w: Seq<u8>, q: nat) -> Option<nat>
    decreases rest(w, q), 5nat,
{
    if spec_h(w, q) is None {
        let n1: nat = spec_many_cmevla_letter(w, q);
        match spec_consonant(w, q + n1) {
            Some(n2) => if spec_eof(w, q + n1 + n2) is Some {
                Some(n1 + n2)
            } else {
                None
            },
            None => None,
        }
    } else {
        None
    }
}

/// Match `cmevla` at `q`; see [`spec_cmevla`].
pub fn cmevla(w: &[u8], q: usize) -> (hit: Option<usize>)
    requires
        q <= w.len(),
    ensures
        matched(hit) == spec_cmevla(w@, q as nat),
        hit matches Some(len) ==> 0 < len && q + len <= w.len() && starts_plain(
            w@,
            q as nat,
            len as nat,
        ),
    decreases w.len() - q, 5nat,
{
    reveal(spec_cmevla);
    reveal(spec_h);
    reveal(spec_many_cmevla_letter);
    reveal(spec_consonant);
    if h(w, q).is_some() {
        return None;
    }
    let n1: usize = many_cmevla_letter(w, q);
    let n2: usize = consonant(w, q + n1)?;
    if eof(w, q + n1 + n2).is_none() {
        return None;
    }
    Some(n1 + n2)
}

/// ```text
/// cvcy_lujvo <- cvc_rafsi y h? initial_rafsi* brivla_core / stressed_cvc_rafsi y
///     short_final_rafsi
/// ```
#[verifier::opaque]
pub open spec fn spec_cvcy_lujvo(w: Seq<u8>, q: nat) -> Option<nat>
    decreases rest(w, q), 11nat,
{
    first(
        match spec_cvc_rafsi(w, q) {
            Some(n1) => match spec_y(w, q + n1) {
                Some(n2) => {
                    let n3: nat = spec_length(spec_h(w, q + n1 + n2));
                    let n4: nat = spec_many_initial_rafsi(w, q + n1 + n2 + n3);
                    match spec_brivla_core(w, q + n1 + n2 + n3 + n4) {
                        Some(n5) => Some(n1 + n2 + n3 + n4 + n5),
                        None => None,
                    }
                },
                None => None,
            },
            None => None,
        },
        match spec_stressed_cvc_rafsi(w, q) {
            Some(n6) => match spec_y(w, q + n6) {
                Some(n7) => match spec_short_final_rafsi(w, q + n6 + n7) {
                    Some(n8) => Some(n6 + n7 + n8),
                    None => None,
                },
                None => None,
            },
            None => None,
        },
    )
}

/// Match `cvcy_lujvo` at `q`; see [`spec_cvcy_lujvo`].
pub fn cvcy_lujvo(w: &[u8], q: usize) -> (hit: Option<usize>)
    requires
        q <= w.len(),
    ensures
        matched(hit) == spec_cvcy_lujvo(w@, q as nat),
        hit matches Some(len) ==> 0 < len && q + len <= w.len() && starts_plain(
            w@,
            q as nat,
            len as nat,
        ),
    decreases w.len() - q, 11nat,
{
    reveal(spec_cvcy_lujvo);
    reveal(spec_cvc_rafsi);
    reveal(spec_h);
    reveal(spec_many_initial_rafsi);
    reveal(spec_brivla_core);
    reveal(spec_stressed_cvc_rafsi);
    reveal(spec_short_final_rafsi);
    let hit = match cvc_rafsi(w, q) {
        Some(n1) => match y(w, q + n1) {
            Some(n2) => {
                let n3: usize = length(h(w, q + n1 + n2));
                let n4: usize = many_initial_rafsi(w, q + n1 + n2 + n3);
                match brivla_core(w, q + n1 + n2 + n3 + n4) {
                    Some(n5) => Some(n1 + n2 + n3 + n4 + n5),
                    None => None,
                }
            },
            None => None,
        },
        None => None,
    };
    if hit.is_some() {
        return hit;
    }
    match stressed_cvc_rafsi(w, q) {
        Some(n6) => match y(w, q + n6) {
            Some(n7) => match short_final_rafsi(w, q + n6 + n7) {
                Some(n8) => Some(n6 + n7 + n8),
                None => None,
            },
            None => None,
        },
        None => None,
    }
}

/// ```text
/// cluster <- consonant consonant consonant*
/// ```
#[verifier::opaque]
pub open spec fn spec_cluster(w: Seq<u8>, q: nat) -> Option<nat>
    decreases rest(w, q), 4nat,
{
    match spec_consonant(w, q) {
        Some(n1) => match spec_consonant(w, q + n1) {
            Some(n2) => {
                let n3: nat = spec_many_consonant(w, q + n1 + n2);
                Some(n1 + n2 + n3)
            },
            None => None,
        },
        None => None,
    }
}

/// Match `cluster` at `q`; see [`spec_cluster`].
pub fn cluster(w: &[u8], q: usize) -> (hit: Option<usize>)
    requires
        q <= w.len(),
    ensures
        matched(hit) == spec_cluster(w@, q as nat),
        hit matches Some(len) ==> 0 < len && q + len <= w.len() && starts_plain(
            w@,
            q as nat,
            len as nat,
        ),
    decreases w.len() - q, 4nat,
{
    reveal(spec_cluster);
    reveal(spec_consonant);
    reveal(spec_many_consonant);
    let n1: usize = consonant(w, q)?;
    let n2: usize = consonant(w, q + n1)?;
    let n3: usize = many_consonant(w, q + n1 + n2);
    Some(n1 + n2 + n3)
}

/// ```text
/// initial <- (affricate / sibilant? other? liquid?) !consonant !glide
/// ```
#[verifier::opaque]
pub open spec fn spec_initial(w: Seq<u8>, q: nat) -> Option<nat>
    decreases rest(w, q), 3nat,
{
    match first(
        spec_affricate(w, q),
        ({
            let n1: nat = spec_length(spec_sibilant(w, q));
            let n2: nat = spec_length(spec_other(w, q + n1));
            let n3: nat = spec_length(spec_liquid(w, q + n1 + n2));
            Some(n1 + n2 + n3)
        }),
    ) {
        Some(n4) => if spec_consonant(w, q + n4) is None && spec_glide(w, q + n4) is None {
            Some(n4)
        } else {
            None
        },
        None => None,
    }
}

/// Match `initial` at `q`; see [`spec_initial`].
pub fn initial(w: &[u8], q: usize) -> (hit: Option<usize>)
    requires
        q <= w.len(),
    ensures
        matched(hit) == spec_initial(w@, q as nat),
        hit matches Some(len) ==> q + len <= w.len() && starts_plain(
            w@,
            q as nat,
            len as nat,
        ),
    decreases w.len() - q, 3nat,
{
    reveal(spec_initial);
    reveal(spec_affricate);
    reveal(spec_sibilant);
    reveal(spec_other);
    reveal(spec_liquid);
    reveal(spec_consonant);
    reveal(spec_glide);
    let n4: usize = (match affricate(w, q) {
        Some(len) => Some(len),
        None => {
            let n1: usize = length(sibilant(w, q));
            let n2: usize = length(other(w, q + n1));
            let n3: usize = length(liquid(w, q + n1 + n2));
            Some(n1 + n2 + n3)
        },
    })?;
    if consonant(w, q + n4).is_some() {
        return None;
    }
    if glide(w, q + n4).is_some() {
        return None;
    }
    Some(n4)
}

/// ```text
/// onset <- h / glide / initial
/// ```
#[verifier::opaque]
pub open spec fn spec_onset(w: Seq<u8>, q: nat) -> Option<nat>
    decreases rest(w, q), 4nat,
{
    first(spec_h(w, q), first(spec_glide(w, q), spec_initial(w, q)))
}

/// Match `onset` at `q`; see [`spec_onset`].
pub fn onset(w: &[u8], q: usize) -> (hit: Option<usize>)
    requires
        q <= w.len(),
    ensures
        matched(hit) == spec_onset(w@, q as nat),
        hit matches Some(len) ==> q + len <= w.len() && starts_plain(
            w@,
            q as nat,
            len as nat,
        ),
    decreases w.len() - q, 4nat,
{
    reveal(spec_onset);
    reveal(spec_h);
    reveal(spec_glide);
    reveal(spec_initial);
    let hit = h(w, q);
    if hit.is_some() {
        return hit;
    }
    let hit = glide(w, q);
    if hit.is_some() {
        return hit;
    }
    initial(w, q)
}

/// ```text
/// stressed <- onset [AEIOU]
/// ```
#[verifier::opaque]
pub open spec fn spec_stressed(w: Seq<u8>, q: nat) -> Option<nat>
    decreases rest(w, q), 5nat,
{
    match spec_onset(w, q) {
        Some(n1) => match spec_one_of(w, q + n1, "AEIOU") {
            Some(n2) => Some(n1 + n2),
            None => None,
        },
        None => None,
    }
}

/// Match `stressed` at `q`; see [`spec_stressed`].
pub fn stressed(w: &[u8], q: usize) -> (hit: Option<usize>)
    requires
        q <= w.len(),
    ensures
        matched(hit) == spec_stressed(w@, q as nat),
        hit matches Some(len) ==> 0 < len && q + len <= w.len() && starts_plain(
            w@,
            q as nat,
            len as nat,
        ),
    decreases w.len() - q, 5nat,
{
    reveal(spec_stressed);
    reveal(spec_onset);
    let n1: usize = onset(w, q)?;
    let n2: usize = one_of(w, q + n1, "AEIOU")?;
    Some(n1 + n2)
}

/// ```text
/// linked_nucleus <- nucleus h
/// ```
#[verifier::opaque]
pub open spec fn spec_linked_nucleus(w: Seq<u8>, q: nat) -> Option<nat>
    decreases rest(w, q), 3nat,
{
    match spec_nucleus(w, q) {
        Some(n1) => match spec_h(w, q + n1) {
            Some(n2) => Some(n1 + n2),
            None => None,
        },
        None => None,
    }
}

/// Match `linked_nucleus` at `q`; see [`spec_linked_nucleus`].
pub fn linked_nucleus(w: &[u8], q: usize) -> (hit: Option<usize>)
    requires
        q <= w.len(),
    ensures
        matched(hit) == spec_linked_nucleus(w@, q as nat),
        hit matches Some(len) ==> 0 < len && q + len <= w.len() && starts_plain(
            w@,
            q as nat,
            len as nat,
        ),
    decreases w.len() - q, 3nat,
{
    reveal(spec_linked_nucleus);
    reveal(spec_nucleus);
    reveal(spec_h);
    let n1: usize = nucleus(w, q)?;
    let n2: usize = h(w, q + n1)?;
    Some(n1 + n2)
}

/// The length of as many `linked_nucleus` as match in a row from `q`.
#[verifier::opaque]
pub open spec fn spec_many_linked_nucleus(w: Seq<u8>, q: nat) -> nat
    decreases rest(w, q), 4nat,
{
    match spec_linked_nucleus(w, q) {
        Some(len) => if advanced(w, q, len) {
            len + spec_many_linked_nucleus(w, q + len)
        } else {
            0
        },
        None => 0,
    }
}

/// Match `linked_nucleus` from `q` as often as it matches; see [`spec_many_linked_nucleus`].
pub fn many_linked_nucleus(w: &[u8], q: usize) -> (total: usize)
    requires
        q <= w.len(),
    ensures
        total == spec_many_linked_nucleus(w@, q as nat),
        q + total <= w.len(),
        starts_plain(w@, q as nat, total as nat),
    decreases w.len() - q, 4nat,
{
    let mut total: usize = 0;
    let mut more = true;
    while more
        invariant
            q + total <= w.len(),
            starts_plain(w@, q as nat, total as nat),
            more ==> total + spec_many_linked_nucleus(w@, (q + total) as nat) == spec_many_linked_nucleus(w@, q as nat),
            !more ==> total == spec_many_linked_nucleus(w@, q as nat),
        decreases w.len() - q - total + (if more { 1int } else { 0int }),
    {
        reveal(spec_many_linked_nucleus);
        reveal(spec_linked_nucleus);
        match linked_nucleus(w, q + total) {
            Some(len) => {
                total = total + len;
            },
            None => {
                more = false;
            },
        }
    }
    total
}

/// ```text
/// cmavo_form <- longest(digit, y y*, !h !cluster onset linked_nucleus* (!stressed nucleus
///     / nucleus !cluster))
/// ```
#[verifier::opaque]
pub open spec fn spec_cmavo_form(w: Seq<u8>, q: nat) -> Option<nat>
    decreases rest(w, q), 6nat,
{
    spec_longest(
        spec_digit(w, q),
        spec_longest(
            match spec_y(w, q) {
                Some(n1) => {
                    let n2: nat = spec_many_y(w, q + n1);
                    Some(n1 + n2)
                },
                None => None,
            },
            if spec_h(w, q) is None && spec_cluster(w, q) is None {
                match spec_onset(w, q) {
                    Some(n3) => {
                        let n4: nat = spec_many_linked_nucleus(w, q + n3);
                        match first(
                            if spec_stressed(w, q + n3 + n4) is None {
                                match spec_nucleus(w, q + n3 + n4) {
                                    Some(n5) => Some(n5),
                                    None => None,
                                }
                            } else {
                                None
                            },
                            match spec_nucleus(w, q + n3 + n4) {
                                Some(n6) => if spec_cluster(w, q + n3 + n4 + n6) is None {
                                    Some(n6)
                                } else {
                                    None
                                },
                                None => None,
                            },
                        ) {
                            Some(n7) => Some(n3 + n4 + n7),
                            None => None,
                        }
                    },
                    None => None,
                }
            } else {
                None
            },
        ),
    )
}

/// Match `cmavo_form` at `q`; see [`spec_cmavo_form`].
pub fn cmavo_form(w: &[u8], q: usize) -> (hit: Option<usize>)
    requires
        q <= w.len(),
    ensures
        matched(hit) == spec_cmavo_form(w@, q as nat),
        hit matches Some(len) ==> 0 < len && q + len <= w.len() && starts_plain(
            w@,
            q as nat,
            len as nat,
        ),
    decreases w.len() - q, 6nat,
{
    reveal(spec_cmavo_form);
    reveal(spec_digit);
    reveal(spec_many_y);
    reveal(spec_h);
    reveal(spec_cluster);
    reveal(spec_onset);
    reveal(spec_many_linked_nucleus);
    reveal(spec_stressed);
    reveal(spec_nucleus);
    longest(
        digit(w, q),
        longest(
            match y(w, q) {
                Some(n1) => {
                    let n2: usize = many_y(w, q + n1);
                    Some(n1 + n2)
                },
                None => None,
            },
            if h(w, q).is_none() && cluster(w, q).is_none() {
                match onset(w, q) {
                    Some(n3) => {
                        let n4: usize = many_linked_nucleus(w, q + n3);
                        match match if stressed(w, q + n3 + n4).is_none() {
                            match nucleus(w, q + n3 + n4) {
                                Some(n5) => Some(n5),
                                None => None,
                            }
                        } else {
                            None
                        } {
                            Some(len) => Some(len),
                            None => match nucleus(w, q + n3 + n4) {
                                Some(n6) => if cluster(w, q + n3 + n4 + n6).is_none() {
                                    Some(n6)
                                } else {
                                    None
                                },
                                None => None,
                            },
                        } {
                            Some(n7) => Some(n3 + n4 + n7),
                            None => None,
                        }
                    },
                    None => None,
                }
            } else {
                None
            },
        ),
    )
}

/// ```text
/// post_word <- end / !nucleus lojban_word
/// ```
#[verifier::opaque]
pub open spec fn spec_post_word(w: Seq<u8>, q: nat) -> Option<nat>
    decreases rest(w, q), 26nat,
{
    first(
        spec_eof(w, q),
        if spec_nucleus(w, q) is None {
            match spec_lojban_word(w, q) {
                Some(n1) => Some(n1),
                None => None,
            }
        } else {
            None
        },
    )
}

/// Match `post_word` at `q`; see [`spec_post_word`].
pub fn post_word(w: &[u8], q: usize) -> (hit: Option<usize>)
    requires
        q <= w.len(),
    ensures
        matched(hit) == spec_post_word(w@, q as nat),
        hit matches Some(len) ==> q + len <= w.len() && starts_plain(
            w@,
            q as nat,
            len as nat,
        ),
    decreases w.len() - q, 26nat,
{
    reveal(spec_post_word);
    reveal(spec_nucleus);
    reveal(spec_lojban_word);
    let hit = eof(w, q);
    if hit.is_some() {
        return hit;
    }
    if nucleus(w, q).is_none() {
        match lojban_word(w, q) {
            Some(n1) => Some(n1),
            None => None,
        }
    } else {
        None
    }
}

/// ```text
/// initial_pair <- &initial consonant consonant !consonant
/// ```
#[verifier::opaque]
pub open spec fn spec_initial_pair(w: Seq<u8>, q: nat) -> Option<nat>
    decreases rest(w, q), 4nat,
{
    if spec_initial(w, q) is Some {
        match spec_consonant(w, q) {
            Some(n1) => match spec_consonant(w, q + n1) {
                Some(n2) => if spec_consonant(w, q + n1 + n2) is None {
                    Some(n1 + n2)
                } else {
                    None
                },
                None => None,
            },
            None => None,
        }
    } else {
        None
    }
}

/// Match `initial_pair` at `q`; see [`spec_initial_pair`].
pub fn initial_pair(w: &[u8], q: usize) -> (hit: Option<usize>)
    requires
        q <= w.len(),
    ensures
        matched(hit) == spec_initial_pair(w@, q as nat),
        hit matches Some(len) ==> 0 < len && q + len <= w.len() && starts_plain(
            w@,
            q as nat,
            len as nat,
        ),
    decreases w.len() - q, 4nat,
{
    reveal(spec_initial_pair);
    reveal(spec_initial);
    reveal(spec_consonant);
    if initial(w, q).is_none() {
        return None;
    }
    let n1: usize = consonant(w, q)?;
    let n2: usize = consonant(w, q + n1)?;
    if consonant(w, q + n1 + n2).is_some() {
        return None;
    }
    Some(n1 + n2)
}

/// ```text
/// consonantal_syllable <- consonant &syllabic coda
/// ```
#[verifier::opaque]
pub open spec fn spec_consonantal_syllable(w: Seq<u8>, q: nat) -> Option<nat>
    decreases rest(w, q), 3nat,
{
    match spec_consonant(w, q) {
        Some(n1) => if spec_syllabic(w, q + n1) is Some {
            match if advanced(w, q, n1) {
                spec_coda(w, q + n1)
            } else {
                None
            } {
                Some(n2) => Some(n1 + n2),
                None => None,
            }
        } else {
            None
        },
        None => None,
    }
}

/// Match `consonantal_syllable` at `q`; see [`spec_consonantal_syllable`].
pub fn consonantal_syllable(w: &[u8], q: usize) -> (hit: Option<usize>)
    requires
        q <= w.len(),
    ensures
        matched(hit) == spec_consonantal_syllable(w@, q as nat),
        hit matches Some(len) ==> 0 < len && q + len <= w.len() && starts_plain(
            w@,
            q as nat,
            len as nat,
        ),
    decreases w.len() - q, 3nat,
{
    reveal(spec_consonantal_syllable);
    reveal(spec_consonant);
    reveal(spec_syllabic);
    reveal(spec_coda);
    let n1: usize = consonant(w, q)?;
    if syllabic(w, q + n1).is_none() {
        return None;
    }
    let n2: usize = coda(w, q + n1)?;
    Some(n1 + n2)
}

/// The length of as many `consonantal_syllable` as match in a row from `q`.
#[verifier::opaque]
pub open spec fn spec_many_consonantal_syllable(w: Seq<u8>, q: nat) -> nat
    decreases rest(w, q), 4nat,
{
    match spec_consonantal_syllable(w, q) {
        Some(len) => if advanced(w, q, len) {
            len + spec_many_consonantal_syllable(w, q + len)
        } else {
            0
        },
        None => 0,
    }
}

/// Match `consonantal_syllable` from `q` as often as it matches; see [`spec_many_consonantal_syllable`].
pub fn many_consonantal_syllable(w: &[u8], q: usize) -> (total: usize)
    requires
        q <= w.len(),
    ensures
        total == spec_many_consonantal_syllable(w@, q as nat),
        q + total <= w.len(),
        starts_plain(w@, q as nat, total as nat),
    decreases w.len() - q, 4nat,
{
    let mut total: usize = 0;
    let mut more = true;
    while more
        invariant
            q + total <= w.len(),
            starts_plain(w@, q as nat, total as nat),
            more ==> total + spec_many_consonantal_syllable(w@, (q + total) as nat) == spec_many_consonantal_syllable(w@, q as nat),
            !more ==> total == spec_many_consonantal_syllable(w@, q as nat),
        decreases w.len() - q - total + (if more { 1int } else { 0int }),
    {
        reveal(spec_many_consonantal_syllable);
        reveal(spec_consonantal_syllable);
        match consonantal_syllable(w, q + total) {
            Some(len) => {
                total = total + len;
            },
            None => {
                more = false;
            },
        }
    }
    total
}

/// ```text
/// any_syllable <- onset nucleus coda? / consonantal_syllable
/// ```
#[verifier::opaque]
pub open spec fn spec_any_syllable(w: Seq<u8>, q: nat) -> Option<nat>
    decreases rest(w, q), 5nat,
{
    first(
        match spec_onset(w, q) {
            Some(n1) => match spec_nucleus(w, q + n1) {
                Some(n2) => {
                    let n3: nat = spec_length(
                        if advanced(w, q, n1 + n2) {
                            spec_coda(w, q + n1 + n2)
                        } else {
                            None
                        },
                    );
                    Some(n1 + n2 + n3)
                },
                None => None,
            },
            None => None,
        },
        spec_consonantal_syllable(w, q),
    )
}

/// Match `any_syllable` at `q`; see [`spec_any_syllable`].
pub fn any_syllable(w: &[u8], q: usize) -> (hit: Option<usize>)
    requires
        q <= w.len(),
    ensures
        matched(hit) == spec_any_syllable(w@, q as nat),
        hit matches Some(len) ==> 0 < len && q + len <= w.len() && starts_plain(
            w@,
            q as nat,
            len as nat,
        ),
    decreases w.len() - q, 5nat,
{
    reveal(spec_any_syllable);
    reveal(spec_onset);
    reveal(spec_nucleus);
    reveal(spec_coda);
    reveal(spec_consonantal_syllable);
    let hit = match onset(w, q) {
        Some(n1) => match nucleus(w, q + n1) {
            Some(n2) => {
                let n3: usize = length(coda(w, q + n1 + n2));
                Some(n1 + n2 + n3)
            },
            None => None,
        },
        None => None,
    };
    if hit.is_some() {
        return hit;
    }
    consonantal_syllable(w, q)
}

/// ```text
/// coda <- !any_syllable consonant &any_syllable / syllabic? consonant? end
/// ```
#[verifier::opaque]
pub open spec fn spec_coda(w: Seq<u8>, q: nat) -> Option<nat>
    decreases rest(w, q), 6nat,
{
    first(
        if spec_any_syllable(w, q) is None {
            match spec_consonant(w, q) {
                Some(n1) => if spec_any_syllable(w, q + n1) is Some {
                    Some(n1)
                } else {
                    None
                },
                None => None,
            }
        } else {
            None
        },
        ({
            let n2: nat = spec_length(spec_syllabic(w, q));
            let n3: nat = spec_length(spec_consonant(w, q + n2));
            if spec_eof(w, q + n2 + n3) is Some {
                Some(n2 + n3)
            } else {
                None
            }
        }),
    )
}

/// Match `coda` at `q`; see [`spec_coda`].
pub fn coda(w: &[u8], q: usize) -> (hit: Option<usize>)
    requires
        q <= w.len(),
    ensures
        matched(hit) == spec_coda(w@, q as nat),
        hit matches Some(len) ==> q + len <= w.len() && starts_plain(
            w@,
            q as nat,
            len as nat,
        ),
    decreases w.len() - q, 6nat,
{
    reveal(spec_coda);
    reveal(spec_any_syllable);
    reveal(spec_consonant);
    reveal(spec_syllabic);
    let hit = if any_syllable(w, q).is_none() {
        match consonant(w, q) {
            Some(n1) => if any_syllable(w, q + n1).is_some() {
                Some(n1)
            } else {
                None
            },
            None => None,
        }
    } else {
        None
    };
    if hit.is_some() {
        return hit;
    }
    {
        let n2: usize = length(syllabic(w, q));
        let n3: usize = length(consonant(w, q + n2));
        if eof(w, q + n2 + n3).is_some() {
            Some(n2 + n3)
        } else {
            None
        }
    }
}

/// ```text
/// syllable <- onset !y nucleus coda?
/// ```
#[verifier::opaque]
pub open spec fn spec_syllable(w: Seq<u8>, q: nat) -> Option<nat>
    decreases rest(w, q), 7nat,
{
    match spec_onset(w, q) {
        Some(n1) => if spec_y(w, q + n1) is None {
            match spec_nucleus(w, q + n1) {
                Some(n2) => {
                    let n3: nat = spec_length(spec_coda(w, q + n1 + n2));
                    Some(n1 + n2 + n3)
                },
                None => None,
            }
        } else {
            None
        },
        None => None,
    }
}

/// Match `syllable` at `q`; see [`spec_syllable`].
pub fn syllable(w: &[u8], q: usize) -> (hit: Option<usize>)
    requires
        q <= w.len(),
    ensures
        matched(hit) == spec_syllable(w@, q as nat),
        hit matches Some(len) ==> 0 < len && q + len <= w.len() && starts_plain(
            w@,
            q as nat,
            len as nat,
        ),
    decreases w.len() - q, 7nat,
{
    reveal(spec_syllable);
    reveal(spec_onset);
    reveal(spec_nucleus);
    reveal(spec_coda);
    let n1: usize = onset(w, q)?;
    if y(w, q + n1).is_some() {
        return None;
    }
    let n2: usize = nucleus(w, q + n1)?;
    let n3: usize = length(coda(w, q + n1 + n2));
    Some(n1 + n2 + n3)
}

/// ```text
/// stress <- consonant* h? y? syllable end
/// ```
#[verifier::opaque]
pub open spec fn spec_stress(w: Seq<u8>, q: nat) -> Option<nat>
    decreases rest(w, q), 8nat,
{
    let n1: nat = spec_many_consonant(w, q);
    let n2: nat = spec_length(spec_h(w, q + n1));
    let n3: nat = spec_length(spec_y(w, q + n1 + n2));
    match spec_syllable(w, q + n1 + n2 + n3) {
        Some(n4) => if spec_eof(w, q + n1 + n2 + n3 + n4) is Some {
            Some(n1 + n2 + n3 + n4)
        } else {
            None
        },
        None => None,
    }
}

/// Match `stress` at `q`; see [`spec_stress`].
pub fn stress(w: &[u8], q: usize) -> (hit: Option<usize>)
    requires
        q <= w.len(),
    ensures
        matched(hit) == spec_stress(w@, q as nat),
        hit matches Some(len) ==> 0 < len && q + len <= w.len() && starts_plain(
            w@,
            q as nat,
            len as nat,
        ),
    decreases w.len() - q, 8nat,
{
    reveal(spec_stress);
    reveal(spec_many_consonant);
    reveal(spec_h);
    reveal(spec_syllable);
    let n1: usize = many_consonant(w, q);
    let n2: usize = length(h(w, q + n1));
    let n3: usize = length(y(w, q + n1 + n2));
    let n4: usize = syllable(w, q + n1 + n2 + n3)?;
    if eof(w, q + n1 + n2 + n3 + n4).is_none() {
        return None;
    }
    Some(n1 + n2 + n3 + n4)
}

/// ```text
/// explicitly_stressed_vowel <- &stressed vowel
/// ```
#[verifier::opaque]
pub open spec fn spec_explicitly_stressed_vowel(w: Seq<u8>, q: nat) -> Option<nat>
    decreases rest(w, q), 6nat,
{
    if spec_stressed(w, q) is Some {
        match spec_vowel(w, q) {
            Some(n1) => Some(n1),
            None => None,
        }
    } else {
        None
    }
}

/// Match `explicitly_stressed_vowel` at `q`; see [`spec_explicitly_stressed_vowel`].
pub fn explicitly_stressed_vowel(w: &[u8], q: usize) -> (hit: Option<usize>)
    requires
        q <= w.len(),
    ensures
        matched(hit) == spec_explicitly_stressed_vowel(w@, q as nat),
        hit matches Some(len) ==> 0 < len && q + len <= w.len() && starts_plain(
            w@,
            q as nat,
            len as nat,
        ),
    decreases w.len() - q, 6nat,
{
    reveal(spec_explicitly_stressed_vowel);
    reveal(spec_stressed);
    reveal(spec_vowel);
    if stressed(w, q).is_none() {
        return None;
    }
    let n1: usize = vowel(w, q)?;
    Some(n1)
}

/// ```text
/// stressed_vowel <- explicitly_stressed_vowel / vowel &stress
/// ```
#[verifier::opaque]
pub open spec fn spec_stressed_vowel(w: Seq<u8>, q: nat) -> Option<nat>
    decreases rest(w, q), 9nat,
{
    first(
        spec_explicitly_stressed_vowel(w, q),
        match spec_vowel(w, q) {
            Some(n1) => if spec_stress(w, q + n1) is Some {
                Some(n1)
            } else {
                None
            },
            None => None,
        },
    )
}

/// Match `stressed_vowel` at `q`; see [`spec_stressed_vowel`].
pub fn stressed_vowel(w: &[u8], q: usize) -> (hit: Option<usize>)
    requires
        q <= w.len(),
    ensures
        matched(hit) == spec_stressed_vowel(w@, q as nat),
        hit matches Some(len) ==> 0 < len && q + len <= w.len() && starts_plain(
            w@,
            q as nat,
            len as nat,
        ),
    decreases w.len() - q, 9nat,
{
    reveal(spec_stressed_vowel);
    reveal(spec_explicitly_stressed_vowel);
    reveal(spec_vowel);
    reveal(spec_stress);
    let hit = explicitly_stressed_vowel(w, q);
    if hit.is_some() {
        return hit;
    }
    match vowel(w, q) {
        Some(n1) => if stress(w, q + n1).is_some() {
            Some(n1)
        } else {
            None
        },
        None => None,
    }
}

/// ```text
/// final_syllable <- onset !y !stressed nucleus !cmevla &post_word
/// ```
#[verifier::opaque]
pub open spec fn spec_final_syllable(w: Seq<u8>, q: nat) -> Option<nat>
    decreases rest(w, q), 6nat,
{
    match spec_onset(w, q) {
        Some(n1) => if spec_y(w, q + n1) is None && spec_stressed(w, q + n1) is None {
            match spec_nucleus(w, q + n1) {
                Some(n2) => if spec_cmevla(w, q + n1 + n2) is None
                    && advanced(w, q, n1 + n2) && spec_post_word(w, q + n1 + n2) is Some
                {
                    Some(n1 + n2)
                } else {
                    None
                },
                None => None,
            }
        } else {
            None
        },
        None => None,
    }
}

/// Match `final_syllable` at `q`; see [`spec_final_syllable`].
pub fn final_syllable(w: &[u8], q: usize) -> (hit: Option<usize>)
    requires
        q <= w.len(),
    ensures
        matched(hit) == spec_final_syllable(w@, q as nat),
        hit matches Some(len) ==> 0 < len && q + len <= w.len() && starts_plain(
            w@,
            q as nat,
            len as nat,
        ),
    decreases w.len() - q, 6nat,
{
    reveal(spec_final_syllable);
    reveal(spec_onset);
    reveal(spec_stressed);
    reveal(spec_nucleus);
    reveal(spec_cmevla);
    reveal(spec_post_word);
    let n1: usize = onset(w, q)?;
    if y(w, q + n1).is_some() {
        return None;
    }
    if stressed(w, q + n1).is_some() {
        return None;
    }
    let n2: usize = nucleus(w, q + n1)?;
    if cmevla(w, q + n1 + n2).is_some() {
        return None;
    }
    if post_word(w, q + n1 + n2).is_none() {
        return None;
    }
    Some(n1 + n2)
}

/// ```text
/// gismu <- (initial_pair stressed_vowel / consonant stressed_vowel consonant)
///     &final_syllable consonant vowel &post_word
/// ```
#[verifier::opaque]
pub open spec fn spec_gismu(w: Seq<u8>, q: nat) -> Option<nat>
    decreases rest(w, q), 10nat,
{
    match first(
        match spec_initial_pair(w, q) {
            Some(n1) => match spec_stressed_vowel(w, q + n1) {
                Some(n2) => Some(n1 + n2),
                None => None,
            },
            None => None,
        },
        match spec_consonant(w, q) {
            Some(n3) => match spec_stressed_vowel(w, q + n3) {
                Some(n4) => match spec_consonant(w, q + n3 + n4) {
                    Some(n5) => Some(n3 + n4 + n5),
                    None => None,
                },
                None => None,
            },
            None => None,
        },
    ) {
        Some(n6) => if spec_final_syllable(w, q + n6) is Some {
            match spec_consonant(w, q + n6) {
                Some(n7) => match spec_vowel(w, q + n6 + n7) {
                    Some(n8) => if advanced(w, q, n6 + n7 + n8) && spec_post_word(w, q + n6 + n7 + n8) is Some {
                        Some(n6 + n7 + n8)
                    } else {
                        None
                    },
                    None => None,
                },
                None => None,
            }
        } else {
            None
        },
        None => None,
    }
}

/// Match `gismu` at `q`; see [`spec_gismu`].
#[verifier::rlimit(60)]
pub fn gismu(w: &[u8], q: usize) -> (hit: Option<usize>)
    requires
        q <= w.len(),
    ensures
        matched(hit) == spec_gismu(w@, q as nat),
        hit matches Some(len) ==> 0 < len && q + len <= w.len() && starts_plain(
            w@,
            q as nat,
            len as nat,
        ),
    decreases w.len() - q, 10nat,
{
    reveal(spec_gismu);
    reveal(spec_initial_pair);
    reveal(spec_stressed_vowel);
    reveal(spec_consonant);
    reveal(spec_final_syllable);
    reveal(spec_vowel);
    reveal(spec_post_word);
    let n6: usize = (match match initial_pair(w, q) {
        Some(n1) => match stressed_vowel(w, q + n1) {
            Some(n2) => Some(n1 + n2),
            None => None,
        },
        None => None,
    } {
        Some(len) => Some(len),
        None => match consonant(w, q) {
            Some(n3) => match stressed_vowel(w, q + n3) {
                Some(n4) => match consonant(w, q + n3 + n4) {
                    Some(n5) => Some(n3 + n4 + n5),
                    None => None,
                },
                None => None,
            },
            None => None,
        },
    })?;
    if final_syllable(w, q + n6).is_none() {
        return None;
    }
    let n7: usize = consonant(w, q + n6)?;
    let n8: usize = vowel(w, q + n6 + n7)?;
    if post_word(w, q + n6 + n7 + n8).is_none() {
        return None;
    }
    Some(n6 + n7 + n8)
}

/// ```text
/// cvc_rafsi <- consonant unstressed_vowel consonant
/// ```
#[verifier::opaque]
pub open spec fn spec_cvc_rafsi(w: Seq<u8>, q: nat) -> Option<nat>
    decreases rest(w, q), 10nat,
{
    match spec_consonant(w, q) {
        Some(n1) => match spec_unstressed_vowel(w, q + n1) {
            Some(n2) => match spec_consonant(w, q + n1 + n2) {
                Some(n3) => Some(n1 + n2 + n3),
                None => None,
            },
            None => None,
        },
        None => None,
    }
}

/// Match `cvc_rafsi` at `q`; see [`spec_cvc_rafsi`].
pub fn cvc_rafsi(w: &[u8], q: usize) -> (hit: Option<usize>)
    requires
        q <= w.len(),
    ensures
        matched(hit) == spec_cvc_rafsi(w@, q as nat),
        hit matches Some(len) ==> 0 < len && q + len <= w.len() && starts_plain(
            w@,
            q as nat,
            len as nat,
        ),
    decreases w.len() - q, 10nat,
{
    reveal(spec_cvc_rafsi);
    reveal(spec_consonant);
    reveal(spec_unstressed_vowel);
    let n1: usize = consonant(w, q)?;
    let n2: usize = unstressed_vowel(w, q + n1)?;
    let n3: usize = consonant(w, q + n1 + n2)?;
    Some(n1 + n2 + n3)
}

/// ```text
/// ccv_rafsi <- initial_pair unstressed_vowel
/// ```
#[verifier::opaque]
pub open spec fn spec_ccv_rafsi(w: Seq<u8>, q: nat) -> Option<nat>
    decreases rest(w, q), 10nat,
{
    match spec_initial_pair(w, q) {
        Some(n1) => match spec_unstressed_vowel(w, q + n1) {
            Some(n2) => Some(n1 + n2),
            None => None,
        },
        None => None,
    }
}

/// Match `ccv_rafsi` at `q`; see [`spec_ccv_rafsi`].
pub fn ccv_rafsi(w: &[u8], q: usize) -> (hit: Option<usize>)
    requires
        q <= w.len(),
    ensures
        matched(hit) == spec_ccv_rafsi(w@, q as nat),
        hit matches Some(len) ==> 0 < len && q + len <= w.len() && starts_plain(
            w@,
            q as nat,
            len as nat,
        ),
    decreases w.len() - q, 10nat,
{
    reveal(spec_ccv_rafsi);
    reveal(spec_initial_pair);
    reveal(spec_unstressed_vowel);
    let n1: usize = initial_pair(w, q)?;
    let n2: usize = unstressed_vowel(w, q + n1)?;
    Some(n1 + n2)
}

/// ```text
/// unstressed_vowel <- !stressed vowel !stress
/// ```
#[verifier::opaque]
pub open spec fn spec_unstressed_vowel(w: Seq<u8>, q: nat) -> Option<nat>
    decreases rest(w, q), 9nat,
{
    if spec_stressed(w, q) is None {
        match spec_vowel(w, q) {
            Some(n1) => if spec_stress(w, q + n1) is None {
                Some(n1)
            } else {
                None
            },
            None => None,
        }
    } else {
        None
    }
}

/// Match `unstressed_vowel` at `q`; see [`spec_unstressed_vowel`].
pub fn unstressed_vowel(w: &[u8], q: usize) -> (hit: Option<usize>)
    requires
        q <= w.len(),
    ensures
        matched(hit) == spec_unstressed_vowel(w@, q as nat),
        hit matches Some(len) ==> 0 < len && q + len <= w.len() && starts_plain(
            w@,
            q as nat,
            len as nat,
        ),
    decreases w.len() - q, 9nat,
{
    reveal(spec_unstressed_vowel);
    reveal(spec_stressed);
    reveal(spec_vowel);
    reveal(spec_stress);
    if stressed(w, q).is_some() {
        return None;
    }
    let n1: usize = vowel(w, q)?;
    if stress(w, q + n1).is_some() {
        return None;
    }
    Some(n1)
}

/// ```text
/// unstressed_diphthong <- !stressed diphthong !stress
/// ```
#[verifier::opaque]
pub open spec fn spec_unstressed_diphthong(w: Seq<u8>, q: nat) -> Option<nat>
    decreases rest(w, q), 9nat,
{
    if spec_stressed(w, q) is None {
        match spec_diphthong(w, q) {
            Some(n1) => if spec_stress(w, q + n1) is None {
                Some(n1)
            } else {
                None
            },
            None => None,
        }
    } else {
        None
    }
}

/// Match `unstressed_diphthong` at `q`; see [`spec_unstressed_diphthong`].
pub fn unstressed_diphthong(w: &[u8], q: usize) -> (hit: Option<usize>)
    requires
        q <= w.len(),
    ensures
        matched(hit) == spec_unstressed_diphthong(w@, q as nat),
        hit matches Some(len) ==> 0 < len && q + len <= w.len() && starts_plain(
            w@,
            q as nat,
            len as nat,
        ),
    decreases w.len() - q, 9nat,
{
    reveal(spec_unstressed_diphthong);
    reveal(spec_stressed);
    reveal(spec_diphthong);
    reveal(spec_stress);
    if stressed(w, q).is_some() {
        return None;
    }
    let n1: usize = diphthong(w, q)?;
    if stress(w, q + n1).is_some() {
        return None;
    }
    Some(n1)
}

/// ```text
/// r_hyphen <- r &consonant / n &r
/// ```
#[verifier::opaque]
pub open spec fn spec_r_hyphen(w: Seq<u8>, q: nat) -> Option<nat>
    decreases rest(w, q), 3nat,
{
    first(
        match spec_r(w, q) {
            Some(n1) => if spec_consonant(w, q + n1) is Some {
                Some(n1)
            } else {
                None
            },
            None => None,
        },
        match spec_n(w, q) {
            Some(n2) => if spec_r(w, q + n2) is Some {
                Some(n2)
            } else {
                None
            },
            None => None,
        },
    )
}

/// Match `r_hyphen` at `q`; see [`spec_r_hyphen`].
pub fn r_hyphen(w: &[u8], q: usize) -> (hit: Option<usize>)
    requires
        q <= w.len(),
    ensures
        matched(hit) == spec_r_hyphen(w@, q as nat),
        hit matches Some(len) ==> 0 < len && q + len <= w.len() && starts_plain(
            w@,
            q as nat,
            len as nat,
        ),
    decreases w.len() - q, 3nat,
{
    reveal(spec_r_hyphen);
    reveal(spec_r);
    reveal(spec_consonant);
    reveal(spec_n);
    let hit = match r(w, q) {
        Some(n1) => if consonant(w, q + n1).is_some() {
            Some(n1)
        } else {
            None
        },
        None => None,
    };
    if hit.is_some() {
        return hit;
    }
    match n(w, q) {
        Some(n2) => if r(w, q + n2).is_some() {
            Some(n2)
        } else {
            None
        },
        None => None,
    }
}

/// ```text
/// cvv_rafsi <- consonant (unstressed_vowel h unstressed_vowel / unstressed_diphthong)
///     r_hyphen
/// ```
#[verifier::opaque]
pub open spec fn spec_cvv_rafsi(w: Seq<u8>, q: nat) -> Option<nat>
    decreases rest(w, q), 10nat,
{
    match spec_consonant(w, q) {
        Some(n1) => match first(
            match spec_unstressed_vowel(w, q + n1) {
                Some(n2) => match spec_h(w, q + n1 + n2) {
                    Some(n3) => match spec_unstressed_vowel(w, q + n1 + n2 + n3) {
                        Some(n4) => Some(n2 + n3 + n4),
                        None => None,
                    },
                    None => None,
                },
                None => None,
            },
            spec_unstressed_diphthong(w, q + n1),
        ) {
            Some(n5) => match spec_r_hyphen(w, q + n1 + n5) {
                Some(n6) => Some(n1 + n5 + n6),
                None => None,
            },
            None => None,
        },
        None => None,
    }
}

/// Match `cvv_rafsi` at `q`; see [`spec_cvv_rafsi`].
pub fn cvv_rafsi(w: &[u8], q: usize) -> (hit: Option<usize>)
    requires
        q <= w.len(),
    ensures
        matched(hit) == spec_cvv_rafsi(w@, q as nat),
        hit matches Some(len) ==> 0 < len && q + len <= w.len() && starts_plain(
            w@,
            q as nat,
            len as nat,
        ),
    decreases w.len() - q, 10nat,
{
    reveal(spec_cvv_rafsi);
    reveal(spec_consonant);
    reveal(spec_unstressed_vowel);
    reveal(spec_h);
    reveal(spec_unstressed_diphthong);
    reveal(spec_r_hyphen);
    let n1: usize = consonant(w, q)?;
    let n5: usize = (match match unstressed_vowel(w, q + n1) {
        Some(n2) => match h(w, q + n1 + n2) {
            Some(n3) => match unstressed_vowel(w, q + n1 + n2 + n3) {
                Some(n4) => Some(n2 + n3 + n4),
                None => None,
            },
            None => None,
        },
        None => None,
    } {
        Some(len) => Some(len),
        None => unstressed_diphthong(w, q + n1),
    })?;
    let n6: usize = r_hyphen(w, q + n1 + n5)?;
    Some(n1 + n5 + n6)
}

/// ```text
/// y_less_rafsi <- !y_rafsi !stressed_y_rafsi !hy_rafsi !stressed_hy_rafsi (cvc_rafsi /
///     ccv_rafsi / cvv_rafsi) !h
/// ```
#[verifier::opaque]
pub open spec fn spec_y_less_rafsi(w: Seq<u8>, q: nat) -> Option<nat>
    decreases rest(w, q), 12nat,
{
    if spec_y_rafsi(w, q) is None
        && spec_stressed_y_rafsi(w, q) is None
        && spec_hy_rafsi(w, q) is None
        && spec_stressed_hy_rafsi(w, q) is None
    {
        match first(spec_cvc_rafsi(w, q), first(spec_ccv_rafsi(w, q), spec_cvv_rafsi(w, q))) {
            Some(n1) => if spec_h(w, q + n1) is None {
                Some(n1)
            } else {
                None
            },
            None => None,
        }
    } else {
        None
    }
}

/// Match `y_less_rafsi` at `q`; see [`spec_y_less_rafsi`].
pub fn y_less_rafsi(w: &[u8], q: usize) -> (hit: Option<usize>)
    requires
        q <= w.len(),
    ensures
        matched(hit) == spec_y_less_rafsi(w@, q as nat),
        hit matches Some(len) ==> 0 < len && q + len <= w.len() && starts_plain(
            w@,
            q as nat,
            len as nat,
        ),
    decreases w.len() - q, 12nat,
{
    reveal(spec_y_less_rafsi);
    reveal(spec_y_rafsi);
    reveal(spec_stressed_y_rafsi);
    reveal(spec_hy_rafsi);
    reveal(spec_stressed_hy_rafsi);
    reveal(spec_cvc_rafsi);
    reveal(spec_ccv_rafsi);
    reveal(spec_cvv_rafsi);
    reveal(spec_h);
    if y_rafsi(w, q).is_some() {
        return None;
    }
    if stressed_y_rafsi(w, q).is_some() {
        return None;
    }
    if hy_rafsi(w, q).is_some() {
        return None;
    }
    if stressed_hy_rafsi(w, q).is_some() {
        return None;
    }
    let n1: usize = (match cvc_rafsi(w, q) {
        Some(len) => Some(len),
        None => match ccv_rafsi(w, q) {
            Some(len) => Some(len),
            None => cvv_rafsi(w, q),
        },
    })?;
    if h(w, q + n1).is_some() {
        return None;
    }
    Some(n1)
}

/// The length of as many `y_less_rafsi` as match in a row from `q`.
#[verifier::opaque]
pub open spec fn spec_many_y_less_rafsi(w: Seq<u8>, q: nat) -> nat
    decreases rest(w, q), 13nat,
{
    match spec_y_less_rafsi(w, q) {
        Some(len) => if advanced(w, q, len) {
            len + spec_many_y_less_rafsi(w, q + len)
        } else {
            0
        },
        None => 0,
    }
}

/// Match `y_less_rafsi` from `q` as often as it matches; see [`spec_many_y_less_rafsi`].
pub fn many_y_less_rafsi(w: &[u8], q: usize) -> (total: usize)
    requires
        q <= w.len(),
    ensures
        total == spec_many_y_less_rafsi(w@, q as nat),
        q + total <= w.len(),
        starts_plain(w@, q as nat, total as nat),
    decreases w.len() - q, 13nat,
{
    let mut total: usize = 0;
    let mut more = true;
    while more
        invariant
            q + total <= w.len(),
            starts_plain(w@, q as nat, total as nat),
            more ==> total + spec_many_y_less_rafsi(w@, (q + total) as nat) == spec_many_y_less_rafsi(w@, q as nat),
            !more ==> total == spec_many_y_less_rafsi(w@, q as nat),
        decreases w.len() - q - total + (if more { 1int } else { 0int }),
    {
        reveal(spec_many_y_less_rafsi);
        reveal(spec_y_less_rafsi);
        match y_less_rafsi(w, q + total) {
            Some(len) => {
                total = total + len;
            },
            None => {
                more = false;
            },
        }
    }
    total
}

/// ```text
/// cvv_final_rafsi <- consonant stressed_vowel h &final_syllable vowel &post_word
/// ```
#[verifier::opaque]
pub open spec fn spec_cvv_final_rafsi(w: Seq<u8>, q: nat) -> Option<nat>
    decreases rest(w, q), 10nat,
{
    match spec_consonant(w, q) {
        Some(n1) => match spec_stressed_vowel(w, q + n1) {
            Some(n2) => match spec_h(w, q + n1 + n2) {
                Some(n3) => if spec_final_syllable(w, q + n1 + n2 + n3) is Some {
                    match spec_vowel(w, q + n1 + n2 + n3) {
                        Some(n4) => if advanced(w, q, n1 + n2 + n3 + n4) && spec_post_word(w, q + n1 + n2 + n3 + n4) is Some {
                            Some(n1 + n2 + n3 + n4)
                        } else {
                            None
                        },
                        None => None,
                    }
                } else {
                    None
                },
                None => None,
            },
            None => None,
        },
        None => None,
    }
}

/// Match `cvv_final_rafsi` at `q`; see [`spec_cvv_final_rafsi`].
pub fn cvv_final_rafsi(w: &[u8], q: usize) -> (hit: Option<usize>)
    requires
        q <= w.len(),
    ensures
        matched(hit) == spec_cvv_final_rafsi(w@, q as nat),
        hit matches Some(len) ==> 0 < len && q + len <= w.len() && starts_plain(
            w@,
            q as nat,
            len as nat,
        ),
    decreases w.len() - q, 10nat,
{
    reveal(spec_cvv_final_rafsi);
    reveal(spec_consonant);
    reveal(spec_stressed_vowel);
    reveal(spec_h);
    reveal(spec_final_syllable);
    reveal(spec_vowel);
    reveal(spec_post_word);
    let n1: usize = consonant(w, q)?;
    let n2: usize = stressed_vowel(w, q + n1)?;
    let n3: usize = h(w, q + n1 + n2)?;
    if final_syllable(w, q + n1 + n2 + n3).is_none() {
        return None;
    }
    let n4: usize = vowel(w, q + n1 + n2 + n3)?;
    if post_word(w, q + n1 + n2 + n3 + n4).is_none() {
        return None;
    }
    Some(n1 + n2 + n3 + n4)
}

/// ```text
/// stressed_cvc_rafsi <- consonant stressed_vowel consonant
/// ```
#[verifier::opaque]
pub open spec fn spec_stressed_cvc_rafsi(w: Seq<u8>, q: nat) -> Option<nat>
    decreases rest(w, q), 10nat,
{
    match spec_consonant(w, q) {
        Some(n1) => match spec_stressed_vowel(w, q + n1) {
            Some(n2) => match spec_consonant(w, q + n1 + n2) {
                Some(n3) => Some(n1 + n2 + n3),
                None => None,
            },
            None => None,
        },
        None => None,
    }
}

/// Match `stressed_cvc_rafsi` at `q`; see [`spec_stressed_cvc_rafsi`].
pub fn stressed_cvc_rafsi(w: &[u8], q: usize) -> (hit: Option<usize>)
    requires
        q <= w.len(),
    ensures
        matched(hit) == spec_stressed_cvc_rafsi(w@, q as nat),
        hit matches Some(len) ==> 0 < len && q + len <= w.len() && starts_plain(
            w@,
            q as nat,
            len as nat,
        ),
    decreases w.len() - q, 10nat,
{
    reveal(spec_stressed_cvc_rafsi);
    reveal(spec_consonant);
    reveal(spec_stressed_vowel);
    let n1: usize = consonant(w, q)?;
    let n2: usize = stressed_vowel(w, q + n1)?;
    let n3: usize = consonant(w, q + n1 + n2)?;
    Some(n1 + n2 + n3)
}

/// ```text
/// stressed_ccv_rafsi <- initial_pair stressed_vowel
/// ```
#[verifier::opaque]
pub open spec fn spec_stressed_ccv_rafsi(w: Seq<u8>, q: nat) -> Option<nat>
    decreases rest(w, q), 10nat,
{
    match spec_initial_pair(w, q) {
        Some(n1) => match spec_stressed_vowel(w, q + n1) {
            Some(n2) => Some(n1 + n2),
            None => None,
        },
        None => None,
    }
}

/// Match `stressed_ccv_rafsi` at `q`; see [`spec_stressed_ccv_rafsi`].
pub fn stressed_ccv_rafsi(w: &[u8], q: usize) -> (hit: Option<usize>)
    requires
        q <= w.len(),
    ensures
        matched(hit) == spec_stressed_ccv_rafsi(w@, q as nat),
        hit matches Some(len) ==> 0 < len && q + len <= w.len() && starts_plain(
            w@,
            q as nat,
            len as nat,
        ),
    decreases w.len() - q, 10nat,
{
    reveal(spec_stressed_ccv_rafsi);
    reveal(spec_initial_pair);
    reveal(spec_stressed_vowel);
    let n1: usize = initial_pair(w, q)?;
    let n2: usize = stressed_vowel(w, q + n1)?;
    Some(n1 + n2)
}

/// ```text
/// stressed_diphthong <- &stressed diphthong / diphthong &stress
/// ```
#[verifier::opaque]
pub open spec fn spec_stressed_diphthong(w: Seq<u8>, q: nat) -> Option<nat>
    decreases rest(w, q), 9nat,
{
    first(
        if spec_stressed(w, q) is Some {
            match spec_diphthong(w, q) {
                Some(n1) => Some(n1),
                None => None,
            }
        } else {
            None
        },
        match spec_diphthong(w, q) {
            Some(n2) => if spec_stress(w, q + n2) is Some {
                Some(n2)
            } else {
                None
            },
            None => None,
        },
    )
}

/// Match `stressed_diphthong` at `q`; see [`spec_stressed_diphthong`].
pub fn stressed_diphthong(w: &[u8], q: usize) -> (hit: Option<usize>)
    requires
        q <= w.len(),
    ensures
        matched(hit) == spec_stressed_diphthong(w@, q as nat),
        hit matches Some(len) ==> 0 < len && q + len <= w.len() && starts_plain(
            w@,
            q as nat,
            len as nat,
        ),
    decreases w.len() - q, 9nat,
{
    reveal(spec_stressed_diphthong);
    reveal(spec_stressed);
    reveal(spec_diphthong);
    reveal(spec_stress);
    let hit = if stressed(w, q).is_some() {
        match diphthong(w, q) {
            Some(n1) => Some(n1),
            None => None,
        }
    } else {
        None
    };
    if hit.is_some() {
        return hit;
    }
    match diphthong(w, q) {
        Some(n2) => if stress(w, q + n2).is_some() {
            Some(n2)
        } else {
            None
        },
        None => None,
    }
}

/// ```text
/// stressed_cvv_rafsi <- consonant (unstressed_vowel h stressed_vowel / stressed_diphthong)
///     r_hyphen?
/// ```
#[verifier::opaque]
pub open spec fn spec_stressed_cvv_rafsi(w: Seq<u8>, q: nat) -> Option<nat>
    decreases rest(w, q), 10nat,
{
    match spec_consonant(w, q) {
        Some(n1) => match first(
            match spec_unstressed_vowel(w, q + n1) {
                Some(n2) => match spec_h(w, q + n1 + n2) {
                    Some(n3) => match spec_stressed_vowel(w, q + n1 + n2 + n3) {
                        Some(n4) => Some(n2 + n3 + n4),
                        None => None,
                    },
                    None => None,
                },
                None => None,
            },
            spec_stressed_diphthong(w, q + n1),
        ) {
            Some(n5) => {
                let n6: nat = spec_length(spec_r_hyphen(w, q + n1 + n5));
                Some(n1 + n5 + n6)
            },
            None => None,
        },
        None => None,
    }
}

/// Match `stressed_cvv_rafsi` at `q`; see [`spec_stressed_cvv_rafsi`].
pub fn stressed_cvv_rafsi(w: &[u8], q: usize) -> (hit: Option<usize>)
    requires
        q <= w.len(),
    ensures
        matched(hit) == spec_stressed_cvv_rafsi(w@, q as nat),
        hit matches Some(len) ==> 0 < len && q + len <= w.len() && starts_plain(
            w@,
            q as nat,
            len as nat,
        ),
    decreases w.len() - q, 10nat,
{
    reveal(spec_stressed_cvv_rafsi);
    reveal(spec_consonant);
    reveal(spec_unstressed_vowel);
    reveal(spec_h);
    reveal(spec_stressed_vowel);
    reveal(spec_stressed_diphthong);
    reveal(spec_r_hyphen);
    let n1: usize = consonant(w, q)?;
    let n5: usize = (match match unstressed_vowel(w, q + n1) {
        Some(n2) => match h(w, q + n1 + n2) {
            Some(n3) => match stressed_vowel(w, q + n1 + n2 + n3) {
                Some(n4) => Some(n2 + n3 + n4),
                None => None,
            },
            None => None,
        },
        None => None,
    } {
        Some(len) => Some(len),
        None => stressed_diphthong(w, q + n1),
    })?;
    let n6: usize = length(r_hyphen(w, q + n1 + n5));
    Some(n1 + n5 + n6)
}

/// ```text
/// stressed_y_less_rafsi <- stressed_cvc_rafsi !y / stressed_ccv_rafsi / stressed_cvv_rafsi
/// ```
#[verifier::opaque]
pub open spec fn spec_stressed_y_less_rafsi(w: Seq<u8>, q: nat) -> Option<nat>
    decreases rest(w, q), 11nat,
{
    first(
        match spec_stressed_cvc_rafsi(w, q) {
            Some(n1) => if spec_y(w, q + n1) is None {
                Some(n1)
            } else {
                None
            },
            None => None,
        },
        first(spec_stressed_ccv_rafsi(w, q), spec_stressed_cvv_rafsi(w, q)),
    )
}

/// Match `stressed_y_less_rafsi` at `q`; see [`spec_stressed_y_less_rafsi`].
pub fn stressed_y_less_rafsi(w: &[u8], q: usize) -> (hit: Option<usize>)
    requires
        q <= w.len(),
    ensures
        matched(hit) == spec_stressed_y_less_rafsi(w@, q as nat),
        hit matches Some(len) ==> 0 < len && q + len <= w.len() && starts_plain(
            w@,
            q as nat,
            len as nat,
        ),
    decreases w.len() - q, 11nat,
{
    reveal(spec_stressed_y_less_rafsi);
    reveal(spec_stressed_cvc_rafsi);
    reveal(spec_stressed_ccv_rafsi);
    reveal(spec_stressed_cvv_rafsi);
    let hit = match stressed_cvc_rafsi(w, q) {
        Some(n1) => if y(w, q + n1).is_none() {
            Some(n1)
        } else {
            None
        },
        None => None,
    };
    if hit.is_some() {
        return hit;
    }
    let hit = stressed_ccv_rafsi(w, q);
    if hit.is_some() {
        return hit;
    }
    stressed_cvv_rafsi(w, q)
}

/// ```text
/// long_rafsi <- initial_pair unstressed_vowel consonant / consonant unstressed_vowel
///     consonant consonant
/// ```
#[verifier::opaque]
pub open spec fn spec_long_rafsi(w: Seq<u8>, q: nat) -> Option<nat>
    decreases rest(w, q), 10nat,
{
    first(
        match spec_initial_pair(w, q) {
            Some(n1) => match spec_unstressed_vowel(w, q + n1) {
                Some(n2) => match spec_consonant(w, q + n1 + n2) {
                    Some(n3) => Some(n1 + n2 + n3),
                    None => None,
                },
                None => None,
            },
            None => None,
        },
        match spec_consonant(w, q) {
            Some(n4) => match spec_unstressed_vowel(w, q + n4) {
                Some(n5) => match spec_consonant(w, q + n4 + n5) {
                    Some(n6) => match spec_consonant(w, q + n4 + n5 + n6) {
                        Some(n7) => Some(n4 + n5 + n6 + n7),
                        None => None,
                    },
                    None => None,
                },
                None => None,
            },
            None => None,
        },
    )
}

/// Match `long_rafsi` at `q`; see [`spec_long_rafsi`].
pub fn long_rafsi(w: &[u8], q: usize) -> (hit: Option<usize>)
    requires
        q <= w.len(),
    ensures
        matched(hit) == spec_long_rafsi(w@, q as nat),
        hit matches Some(len) ==> 0 < len && q + len <= w.len() && starts_plain(
            w@,
            q as nat,
            len as nat,
        ),
    decreases w.len() - q, 10nat,
{
    reveal(spec_long_rafsi);
    reveal(spec_initial_pair);
    reveal(spec_unstressed_vowel);
    reveal(spec_consonant);
    let hit = match initial_pair(w, q) {
        Some(n1) => match unstressed_vowel(w, q + n1) {
            Some(n2) => match consonant(w, q + n1 + n2) {
                Some(n3) => Some(n1 + n2 + n3),
                None => None,
            },
            None => None,
        },
        None => None,
    };
    if hit.is_some() {
        return hit;
    }
    match consonant(w, q) {
        Some(n4) => match unstressed_vowel(w, q + n4) {
            Some(n5) => match consonant(w, q + n4 + n5) {
                Some(n6) => match consonant(w, q + n4 + n5 + n6) {
                    Some(n7) => Some(n4 + n5 + n6 + n7),
                    None => None,
                },
                None => None,
            },
            None => None,
        },
        None => None,
    }
}

/// ```text
/// hy_rafsi <- (long_rafsi vowel / ccv_rafsi / cvv_rafsi) h y h?
/// ```
#[verifier::opaque]
pub open spec fn spec_hy_rafsi(w: Seq<u8>, q: nat) -> Option<nat>
    decreases rest(w, q), 11nat,
{
    match first(
        match spec_long_rafsi(w, q) {
            Some(n1) => match spec_vowel(w, q + n1) {
                Some(n2) => Some(n1 + n2),
                None => None,
            },
            None => None,
        },
        first(spec_ccv_rafsi(w, q), spec_cvv_rafsi(w, q)),
    ) {
        Some(n3) => match spec_h(w, q + n3) {
            Some(n4) => match spec_y(w, q + n3 + n4) {
                Some(n5) => {
                    let n6: nat = spec_length(spec_h(w, q + n3 + n4 + n5));
                    Some(n3 + n4 + n5 + n6)
                },
                None => None,
            },
            None => None,
        },
        None => None,
    }
}

/// Match `hy_rafsi` at `q`; see [`spec_hy_rafsi`].
pub fn hy_rafsi(w: &[u8], q: usize) -> (hit: Option<usize>)
    requires
        q <= w.len(),
    ensures
        matched(hit) == spec_hy_rafsi(w@, q as nat),
        hit matches Some(len) ==> 0 < len && q + len <= w.len() && starts_plain(
            w@,
            q as nat,
            len as nat,
        ),
    decreases w.len() - q, 11nat,
{
    reveal(spec_hy_rafsi);
    reveal(spec_long_rafsi);
    reveal(spec_vowel);
    reveal(spec_ccv_rafsi);
    reveal(spec_cvv_rafsi);
    reveal(spec_h);
    let n3: usize = (match match long_rafsi(w, q) {
        Some(n1) => match vowel(w, q + n1) {
            Some(n2) => Some(n1 + n2),
            None => None,
        },
        None => None,
    } {
        Some(len) => Some(len),
        None => match ccv_rafsi(w, q) {
            Some(len) => Some(len),
            None => cvv_rafsi(w, q),
        },
    })?;
    let n4: usize = h(w, q + n3)?;
    let n5: usize = y(w, q + n3 + n4)?;
    let n6: usize = length(h(w, q + n3 + n4 + n5));
    Some(n3 + n4 + n5 + n6)
}

/// ```text
/// stressed_hy_rafsi <- (long_rafsi stressed_vowel / stressed_ccv_rafsi /
///     stressed_cvv_rafsi) h y
/// ```
#[verifier::opaque]
pub open spec fn spec_stressed_hy_rafsi(w: Seq<u8>, q: nat) -> Option<nat>
    decreases rest(w, q), 11nat,
{
    match first(
        match spec_long_rafsi(w, q) {
            Some(n1) => match spec_stressed_vowel(w, q + n1) {
                Some(n2) => Some(n1 + n2),
                None => None,
            },
            None => None,
        },
        first(spec_stressed_ccv_rafsi(w, q), spec_stressed_cvv_rafsi(w, q)),
    ) {
        Some(n3) => match spec_h(w, q + n3) {
            Some(n4) => match spec_y(w, q + n3 + n4) {
                Some(n5) => Some(n3 + n4 + n5),
                None => None,
            },
            None => None,
        },
        None => None,
    }
}

/// Match `stressed_hy_rafsi` at `q`; see [`spec_stressed_hy_rafsi`].
pub fn stressed_hy_rafsi(w: &[u8], q: usize) -> (hit: Option<usize>)
    requires
        q <= w.len(),
    ensures
        matched(hit) == spec_stressed_hy_rafsi(w@, q as nat),
        hit matches Some(len) ==> 0 < len && q + len <= w.len() && starts_plain(
            w@,
            q as nat,
            len as nat,
        ),
    decreases w.len() - q, 11nat,
{
    reveal(spec_stressed_hy_rafsi);
    reveal(spec_long_rafsi);
    reveal(spec_stressed_vowel);
    reveal(spec_stressed_ccv_rafsi);
    reveal(spec_stressed_cvv_rafsi);
    reveal(spec_h);
    let n3: usize = (match match long_rafsi(w, q) {
        Some(n1) => match stressed_vowel(w, q + n1) {
            Some(n2) => Some(n1 + n2),
            None => None,
        },
        None => None,
    } {
        Some(len) => Some(len),
        None => match stressed_ccv_rafsi(w, q) {
            Some(len) => Some(len),
            None => stressed_cvv_rafsi(w, q),
        },
    })?;
    let n4: usize = h(w, q + n3)?;
    let n5: usize = y(w, q + n3 + n4)?;
    Some(n3 + n4 + n5)
}

/// ```text
/// y_rafsi <- (long_rafsi / cvc_rafsi) y h?
/// ```
#[verifier::opaque]
pub open spec fn spec_y_rafsi(w: Seq<u8>, q: nat) -> Option<nat>
    decreases rest(w, q), 11nat,
{
    match first(spec_long_rafsi(w, q), spec_cvc_rafsi(w, q)) {
        Some(n1) => match spec_y(w, q + n1) {
            Some(n2) => {
                let n3: nat = spec_length(spec_h(w, q + n1 + n2));
                Some(n1 + n2 + n3)
            },
            None => None,
        },
        None => None,
    }
}

/// Match `y_rafsi` at `q`; see [`spec_y_rafsi`].
pub fn y_rafsi(w: &[u8], q: usize) -> (hit: Option<usize>)
    requires
        q <= w.len(),
    ensures
        matched(hit) == spec_y_rafsi(w@, q as nat),
        hit matches Some(len) ==> 0 < len && q + len <= w.len() && starts_plain(
            w@,
            q as nat,
            len as nat,
        ),
    decreases w.len() - q, 11nat,
{
    reveal(spec_y_rafsi);
    reveal(spec_long_rafsi);
    reveal(spec_cvc_rafsi);
    reveal(spec_h);
    let n1: usize = (match long_rafsi(w, q) {
        Some(len) => Some(len),
        None => cvc_rafsi(w, q),
    })?;
    let n2: usize = y(w, q + n1)?;
    let n3: usize = length(h(w, q + n1 + n2));
    Some(n1 + n2 + n3)
}

/// ```text
/// stressed_long_rafsi <- initial_pair stressed_vowel consonant / consonant stressed_vowel
///     consonant consonant
/// ```
#[verifier::opaque]
pub open spec fn spec_stressed_long_rafsi(w: Seq<u8>, q: nat) -> Option<nat>
    decreases rest(w, q), 10nat,
{
    first(
        match spec_initial_pair(w, q) {
            Some(n1) => match spec_stressed_vowel(w, q + n1) {
                Some(n2) => match spec_consonant(w, q + n1 + n2) {
                    Some(n3) => Some(n1 + n2 + n3),
                    None => None,
                },
                None => None,
            },
            None => None,
        },
        match spec_consonant(w, q) {
            Some(n4) => match spec_stressed_vowel(w, q + n4) {
                Some(n5) => match spec_consonant(w, q + n4 + n5) {
                    Some(n6) => match spec_consonant(w, q + n4 + n5 + n6) {
                        Some(n7) => Some(n4 + n5 + n6 + n7),
                        None => None,
                    },
                    None => None,
                },
                None => None,
            },
            None => None,
        },
    )
}

/// Match `stressed_long_rafsi` at `q`; see [`spec_stressed_long_rafsi`].
pub fn stressed_long_rafsi(w: &[u8], q: usize) -> (hit: Option<usize>)
    requires
        q <= w.len(),
    ensures
        matched(hit) == spec_stressed_long_rafsi(w@, q as nat),
        hit matches Some(len) ==> 0 < len && q + len <= w.len() && starts_plain(
            w@,
            q as nat,
            len as nat,
        ),
    decreases w.len() - q, 10nat,
{
    reveal(spec_stressed_long_rafsi);
    reveal(spec_initial_pair);
    reveal(spec_stressed_vowel);
    reveal(spec_consonant);
    let hit = match initial_pair(w, q) {
        Some(n1) => match stressed_vowel(w, q + n1) {
            Some(n2) => match consonant(w, q + n1 + n2) {
                Some(n3) => Some(n1 + n2 + n3),
                None => None,
            },
            None => None,
        },
        None => None,
    };
    if hit.is_some() {
        return hit;
    }
    match consonant(w, q) {
        Some(n4) => match stressed_vowel(w, q + n4) {
            Some(n5) => match consonant(w, q + n4 + n5) {
                Some(n6) => match consonant(w, q + n4 + n5 + n6) {
                    Some(n7) => Some(n4 + n5 + n6 + n7),
                    None => None,
                },
                None => None,
            },
            None => None,
        },
        None => None,
    }
}

/// ```text
/// stressed_y_rafsi <- (stressed_long_rafsi / stressed_cvc_rafsi) y
/// ```
#[verifier::opaque]
pub open spec fn spec_stressed_y_rafsi(w: Seq<u8>, q: nat) -> Option<nat>
    decreases rest(w, q), 11nat,
{
    match first(spec_stressed_long_rafsi(w, q), spec_stressed_cvc_rafsi(w, q)) {
        Some(n1) => match spec_y(w, q + n1) {
            Some(n2) => Some(n1 + n2),
            None => None,
        },
        None => None,
    }
}

/// Match `stressed_y_rafsi` at `q`; see [`spec_stressed_y_rafsi`].
pub fn stressed_y_rafsi(w: &[u8], q: usize) -> (hit: Option<usize>)
    requires
        q <= w.len(),
    ensures
        matched(hit) == spec_stressed_y_rafsi(w@, q as nat),
        hit matches Some(len) ==> 0 < len && q + len <= w.len() && starts_plain(
            w@,
            q as nat,
            len as nat,
        ),
    decreases w.len() - q, 11nat,
{
    reveal(spec_stressed_y_rafsi);
    reveal(spec_stressed_long_rafsi);
    reveal(spec_stressed_cvc_rafsi);
    let n1: usize = (match stressed_long_rafsi(w, q) {
        Some(len) => Some(len),
        None => stressed_cvc_rafsi(w, q),
    })?;
    let n2: usize = y(w, q + n1)?;
    Some(n1 + n2)
}

/// ```text
/// short_final_rafsi <- &final_syllable (consonant diphthong / initial_pair vowel)
///     &post_word
/// ```
#[verifier::opaque]
pub open spec fn spec_short_final_rafsi(w: Seq<u8>, q: nat) -> Option<nat>
    decreases rest(w, q), 7nat,
{
    if spec_final_syllable(w, q) is Some {
        match first(
            match spec_consonant(w, q) {
                Some(n1) => match spec_diphthong(w, q + n1) {
                    Some(n2) => Some(n1 + n2),
                    None => None,
                },
                None => None,
            },
            match spec_initial_pair(w, q) {
                Some(n3) => match spec_vowel(w, q + n3) {
                    Some(n4) => Some(n3 + n4),
                    None => None,
                },
                None => None,
            },
        ) {
            Some(n5) => if advanced(w, q, n5) && spec_post_word(w, q + n5) is Some {
                Some(n5)
            } else {
                None
            },
            None => None,
        }
    } else {
        None
    }
}

/// Match `short_final_rafsi` at `q`; see [`spec_short_final_rafsi`].
pub fn short_final_rafsi(w: &[u8], q: usize) -> (hit: Option<usize>)
    requires
        q <= w.len(),
    ensures
        matched(hit) == spec_short_final_rafsi(w@, q as nat),
        hit matches Some(len) ==> 0 < len && q + len <= w.len() && starts_plain(
            w@,
            q as nat,
            len as nat,
        ),
    decreases w.len() - q, 7nat,
{
    reveal(spec_short_final_rafsi);
    reveal(spec_final_syllable);
    reveal(spec_consonant);
    reveal(spec_diphthong);
    reveal(spec_initial_pair);
    reveal(spec_vowel);
    reveal(spec_post_word);
    if final_syllable(w, q).is_none() {
        return None;
    }
    let n5: usize = (match match consonant(w, q) {
        Some(n1) => match diphthong(w, q + n1) {
            Some(n2) => Some(n1 + n2),
            None => None,
        },
        None => None,
    } {
        Some(len) => Some(len),
        None => match initial_pair(w, q) {
            Some(n3) => match vowel(w, q + n3) {
                Some(n4) => Some(n3 + n4),
                None => None,
            },
            None => None,
        },
    })?;
    if post_word(w, q + n5).is_none() {
        return None;
    }
    Some(n5)
}

/// ```text
/// rafsi_string <- y_less_rafsi* (gismu / cvv_final_rafsi / stressed_y_less_rafsi
///     short_final_rafsi / y_rafsi / stressed_y_rafsi / stressed_y_less_rafsi? initial_pair
///     y / hy_rafsi / stressed_hy_rafsi)
/// ```
#[verifier::opaque]
pub open spec fn spec_rafsi_string(w: Seq<u8>, q: nat) -> Option<nat>
    decreases rest(w, q), 14nat,
{
    let n1: nat = spec_many_y_less_rafsi(w, q);
    match first(
        spec_gismu(w, q + n1),
        first(
            spec_cvv_final_rafsi(w, q + n1),
            first(
                match spec_stressed_y_less_rafsi(w, q + n1) {
                    Some(n2) => match spec_short_final_rafsi(w, q + n1 + n2) {
                        Some(n3) => Some(n2 + n3),
                        None => None,
                    },
                    None => None,
                },
                first(
                    spec_y_rafsi(w, q + n1),
                    first(
                        spec_stressed_y_rafsi(w, q + n1),
                        first(
                            ({
                                let n4: nat = spec_length(spec_stressed_y_less_rafsi(w, q + n1));
                                match spec_initial_pair(w, q + n1 + n4) {
                                    Some(n5) => match spec_y(w, q + n1 + n4 + n5) {
                                        Some(n6) => Some(n4 + n5 + n6),
                                        None => None,
                                    },
                                    None => None,
                                }
                            }),
                            first(spec_hy_rafsi(w, q + n1), spec_stressed_hy_rafsi(w, q + n1)),
                        ),
                    ),
                ),
            ),
        ),
    ) {
        Some(n7) => Some(n1 + n7),
        None => None,
    }
}

/// Match `rafsi_string` at `q`; see [`spec_rafsi_string`].
pub fn rafsi_string(w: &[u8], q: usize) -> (hit: Option<usize>)
    requires
        q <= w.len(),
    ensures
        matched(hit) == spec_rafsi_string(w@, q as nat),
        hit matches Some(len) ==> 0 < len && q + len <= w.len() && starts_plain(
            w@,
            q as nat,
            len as nat,
        ),
    decreases w.len() - q, 14nat,
{
    reveal(spec_rafsi_string);
    reveal(spec_many_y_less_rafsi);
    reveal(spec_gismu);
    reveal(spec_cvv_final_rafsi);
    reveal(spec_stressed_y_less_rafsi);
    reveal(spec_short_final_rafsi);
    reveal(spec_y_rafsi);
    reveal(spec_stressed_y_rafsi);
    reveal(spec_initial_pair);
    reveal(spec_hy_rafsi);
    reveal(spec_stressed_hy_rafsi);
    let n1: usize = many_y_less_rafsi(w, q);
    let n7: usize = (match gismu(w, q + n1) {
        Some(len) => Some(len),
        None => match cvv_final_rafsi(w, q + n1) {
            Some(len) => Some(len),
            None => match match stressed_y_less_rafsi(w, q + n1) {
                Some(n2) => match short_final_rafsi(w, q + n1 + n2) {
                    Some(n3) => Some(n2 + n3),
                    None => None,
                },
                None => None,
            } {
                Some(len) => Some(len),
                None => match y_rafsi(w, q + n1) {
                    Some(len) => Some(len),
                    None => match stressed_y_rafsi(w, q + n1) {
                        Some(len) => Some(len),
                        None => match ({
                            let n4: usize = length(stressed_y_less_rafsi(w, q + n1));
                            match initial_pair(w, q + n1 + n4) {
                                Some(n5) => match y(w, q + n1 + n4 + n5) {
                                    Some(n6) => Some(n4 + n5 + n6),
                                    None => None,
                                },
                                None => None,
                            }
                        }) {
                            Some(len) => Some(len),
                            None => match hy_rafsi(w, q + n1) {
                                Some(len) => Some(len),
                                None => stressed_hy_rafsi(w, q + n1),
                            },
                        },
                    },
                },
            },
        },
    })?;
    Some(n1 + n7)
}

/// ```text
/// slinkuhi <- !rafsi_string consonant rafsi_string
/// ```
#[verifier::opaque]
pub open spec fn spec_slinkuhi(w: Seq<u8>, q: nat) -> Option<nat>
    decreases rest(w, q), 15nat,
{
    if spec_rafsi_string(w, q) is None {
        match spec_consonant(w, q) {
            Some(n1) => match spec_rafsi_string(w, q + n1) {
                Some(n2) => Some(n1 + n2),
                None => None,
            },
            None => None,
        }
    } else {
        None
    }
}

/// Match `slinkuhi` at `q`; see [`spec_slinkuhi`].
pub fn slinkuhi(w: &[u8], q: usize) -> (hit: Option<usize>)
    requires
        q <= w.len(),
    ensures
        matched(hit) == spec_slinkuhi(w@, q as nat),
        hit matches Some(len) ==> 0 < len && q + len <= w.len() && starts_plain(
            w@,
            q as nat,
            len as nat,
        ),
    decreases w.len() - q, 15nat,
{
    reveal(spec_slinkuhi);
    reveal(spec_rafsi_string);
    reveal(spec_consonant);
    if rafsi_string(w, q).is_some() {
        return None;
    }
    let n1: usize = consonant(w, q)?;
    let n2: usize = rafsi_string(w, q + n1)?;
    Some(n1 + n2)
}

/// ```text
/// unstressed_syllable <- !stressed syllable !stress / consonantal_syllable
/// ```
#[verifier::opaque]
pub open spec fn spec_unstressed_syllable(w: Seq<u8>, q: nat) -> Option<nat>
    decreases rest(w, q), 9nat,
{
    first(
        if spec_stressed(w, q) is None {
            match spec_syllable(w, q) {
                Some(n1) => if spec_stress(w, q + n1) is None {
                    Some(n1)
                } else {
                    None
                },
                None => None,
            }
        } else {
            None
        },
        spec_consonantal_syllable(w, q),
    )
}

/// Match `unstressed_syllable` at `q`; see [`spec_unstressed_syllable`].
pub fn unstressed_syllable(w: &[u8], q: usize) -> (hit: Option<usize>)
    requires
        q <= w.len(),
    ensures
        matched(hit) == spec_unstressed_syllable(w@, q as nat),
        hit matches Some(len) ==> 0 < len && q + len <= w.len() && starts_plain(
            w@,
            q as nat,
            len as nat,
        ),
    decreases w.len() - q, 9nat,
{
    reveal(spec_unstressed_syllable);
    reveal(spec_stressed);
    reveal(spec_syllable);
    reveal(spec_stress);
    reveal(spec_consonantal_syllable);
    let hit = if stressed(w, q).is_none() {
        match syllable(w, q) {
            Some(n1) => if stress(w, q + n1).is_none() {
                Some(n1)
            } else {
                None
            },
            None => None,
        }
    } else {
        None
    };
    if hit.is_some() {
        return hit;
    }
    consonantal_syllable(w, q)
}

/// The length of as many `unstressed_syllable` as match in a row from `q`.
#[verifier::opaque]
pub open spec fn spec_many_unstressed_syllable(w: Seq<u8>, q: nat) -> nat
    decreases rest(w, q), 10nat,
{
    match spec_unstressed_syllable(w, q) {
        Some(len) => if advanced(w, q, len) {
            len + spec_many_unstressed_syllable(w, q + len)
        } else {
            0
        },
        None => 0,
    }
}

/// Match `unstressed_syllable` from `q` as often as it matches; see [`spec_many_unstressed_syllable`].
pub fn many_unstressed_syllable(w: &[u8], q: usize) -> (total: usize)
    requires
        q <= w.len(),
    ensures
        total == spec_many_unstressed_syllable(w@, q as nat),
        q + total <= w.len(),
        starts_plain(w@, q as nat, total as nat),
    decreases w.len() - q, 10nat,
{
    let mut total: usize = 0;
    let mut more = true;
    while more
        invariant
            q + total <= w.len(),
            starts_plain(w@, q as nat, total as nat),
            more ==> total + spec_many_unstressed_syllable(w@, (q + total) as nat) == spec_many_unstressed_syllable(w@, q as nat),
            !more ==> total == spec_many_unstressed_syllable(w@, q as nat),
        decreases w.len() - q - total + (if more { 1int } else { 0int }),
    {
        reveal(spec_many_unstressed_syllable);
        reveal(spec_unstressed_syllable);
        match unstressed_syllable(w, q + total) {
            Some(len) => {
                total = total + len;
            },
            None => {
                more = false;
            },
        }
    }
    total
}

/// ```text
/// brivla_head <- !cmavo !slinkuhi !h &onset unstressed_syllable*
/// ```
#[verifier::opaque]
pub open spec fn spec_brivla_head(w: Seq<u8>, q: nat) -> Option<nat>
    decreases rest(w, q), 16nat,
{
    if spec_cmavo(w, q) is None
        && spec_slinkuhi(w, q) is None
        && spec_h(w, q) is None
        && spec_onset(w, q) is Some
    {
        let n1: nat = spec_many_unstressed_syllable(w, q);
        Some(n1)
    } else {
        None
    }
}

/// Match `brivla_head` at `q`; see [`spec_brivla_head`].
pub fn brivla_head(w: &[u8], q: usize) -> (hit: Option<usize>)
    requires
        q <= w.len(),
    ensures
        matched(hit) == spec_brivla_head(w@, q as nat),
        hit matches Some(len) ==> q + len <= w.len() && starts_plain(
            w@,
            q as nat,
            len as nat,
        ),
    decreases w.len() - q, 16nat,
{
    reveal(spec_brivla_head);
    reveal(spec_cmavo);
    reveal(spec_slinkuhi);
    reveal(spec_h);
    reveal(spec_onset);
    reveal(spec_many_unstressed_syllable);
    if cmavo(w, q).is_some() {
        return None;
    }
    if slinkuhi(w, q).is_some() {
        return None;
    }
    if h(w, q).is_some() {
        return None;
    }
    if onset(w, q).is_none() {
        return None;
    }
    let n1: usize = many_unstressed_syllable(w, q);
    Some(n1)
}

/// ```text
/// fuhivla_head <- !rafsi_string brivla_head
/// ```
#[verifier::opaque]
pub open spec fn spec_fuhivla_head(w: Seq<u8>, q: nat) -> Option<nat>
    decreases rest(w, q), 17nat,
{
    if spec_rafsi_string(w, q) is None {
        match spec_brivla_head(w, q) {
            Some(n1) => Some(n1),
            None => None,
        }
    } else {
        None
    }
}

/// Match `fuhivla_head` at `q`; see [`spec_fuhivla_head`].
pub fn fuhivla_head(w: &[u8], q: usize) -> (hit: Option<usize>)
    requires
        q <= w.len(),
    ensures
        matched(hit) == spec_fuhivla_head(w@, q as nat),
        hit matches Some(len) ==> q + len <= w.len() && starts_plain(
            w@,
            q as nat,
            len as nat,
        ),
    decreases w.len() - q, 17nat,
{
    reveal(spec_fuhivla_head);
    reveal(spec_rafsi_string);
    reveal(spec_brivla_head);
    if rafsi_string(w, q).is_some() {
        return None;
    }
    let n1: usize = brivla_head(w, q)?;
    Some(n1)
}

/// ```text
/// explicitly_stressed_syllable <- &stressed syllable
/// ```
#[verifier::opaque]
pub open spec fn spec_explicitly_stressed_syllable(w: Seq<u8>, q: nat) -> Option<nat>
    decreases rest(w, q), 8nat,
{
    if spec_stressed(w, q) is Some {
        match spec_syllable(w, q) {
            Some(n1) => Some(n1),
            None => None,
        }
    } else {
        None
    }
}

/// Match `explicitly_stressed_syllable` at `q`; see [`spec_explicitly_stressed_syllable`].
pub fn explicitly_stressed_syllable(w: &[u8], q: usize) -> (hit: Option<usize>)
    requires
        q <= w.len(),
    ensures
        matched(hit) == spec_explicitly_stressed_syllable(w@, q as nat),
        hit matches Some(len) ==> 0 < len && q + len <= w.len() && starts_plain(
            w@,
            q as nat,
            len as nat,
        ),
    decreases w.len() - q, 8nat,
{
    reveal(spec_explicitly_stressed_syllable);
    reveal(spec_stressed);
    reveal(spec_syllable);
    if stressed(w, q).is_none() {
        return None;
    }
    let n1: usize = syllable(w, q)?;
    Some(n1)
}

/// ```text
/// stressed_syllable <- explicitly_stressed_syllable / syllable &stress
/// ```
#[verifier::opaque]
pub open spec fn spec_stressed_syllable(w: Seq<u8>, q: nat) -> Option<nat>
    decreases rest(w, q), 9nat,
{
    first(
        spec_explicitly_stressed_syllable(w, q),
        match spec_syllable(w, q) {
            Some(n1) => if spec_stress(w, q + n1) is Some {
                Some(n1)
            } else {
                None
            },
            None => None,
        },
    )
}

/// Match `stressed_syllable` at `q`; see [`spec_stressed_syllable`].
pub fn stressed_syllable(w: &[u8], q: usize) -> (hit: Option<usize>)
    requires
        q <= w.len(),
    ensures
        matched(hit) == spec_stressed_syllable(w@, q as nat),
        hit matches Some(len) ==> 0 < len && q + len <= w.len() && starts_plain(
            w@,
            q as nat,
            len as nat,
        ),
    decreases w.len() - q, 9nat,
{
    reveal(spec_stressed_syllable);
    reveal(spec_explicitly_stressed_syllable);
    reveal(spec_syllable);
    reveal(spec_stress);
    let hit = explicitly_stressed_syllable(w, q);
    if hit.is_some() {
        return hit;
    }
    match syllable(w, q) {
        Some(n1) => if stress(w, q + n1).is_some() {
            Some(n1)
        } else {
            None
        },
        None => None,
    }
}

/// ```text
/// fuhivla <- fuhivla_head stressed_syllable consonantal_syllable* final_syllable
/// ```
#[verifier::opaque]
pub open spec fn spec_fuhivla(w: Seq<u8>, q: nat) -> Option<nat>
    decreases rest(w, q), 18nat,
{
    match spec_fuhivla_head(w, q) {
        Some(n1) => match spec_stressed_syllable(w, q + n1) {
            Some(n2) => {
                let n3: nat = spec_many_consonantal_syllable(w, q + n1 + n2);
                match spec_final_syllable(w, q + n1 + n2 + n3) {
                    Some(n4) => Some(n1 + n2 + n3 + n4),
                    None => None,
                }
            },
            None => None,
        },
        None => None,
    }
}

/// Match `fuhivla` at `q`; see [`spec_fuhivla`].
pub fn fuhivla(w: &[u8], q: usize) -> (hit: Option<usize>)
    requires
        q <= w.len(),
    ensures
        matched(hit) == spec_fuhivla(w@, q as nat),
        hit matches Some(len) ==> 0 < len && q + len <= w.len() && starts_plain(
            w@,
            q as nat,
            len as nat,
        ),
    decreases w.len() - q, 18nat,
{
    reveal(spec_fuhivla);
    reveal(spec_fuhivla_head);
    reveal(spec_stressed_syllable);
    reveal(spec_many_consonantal_syllable);
    reveal(spec_final_syllable);
    let n1: usize = fuhivla_head(w, q)?;
    let n2: usize = stressed_syllable(w, q + n1)?;
    let n3: usize = many_consonantal_syllable(w, q + n1 + n2);
    let n4: usize = final_syllable(w, q + n1 + n2 + n3)?;
    Some(n1 + n2 + n3 + n4)
}

/// ```text
/// brivla_rafsi <- &(syllable consonantal_syllable* syllable) brivla_head h y h?
/// ```
#[verifier::opaque]
pub open spec fn spec_brivla_rafsi(w: Seq<u8>, q: nat) -> Option<nat>
    decreases rest(w, q), 17nat,
{
    if (match spec_syllable(w, q) {
        Some(n1) => {
            let n2: nat = spec_many_consonantal_syllable(w, q + n1);
            match spec_syllable(w, q + n1 + n2) {
                Some(n3) => Some(n1 + n2 + n3),
                None => None,
            }
        },
        None => None,
    }) is Some {
        match spec_brivla_head(w, q) {
            Some(n4) => match spec_h(w, q + n4) {
                Some(n5) => match spec_y(w, q + n4 + n5) {
                    Some(n6) => {
                        let n7: nat = spec_length(spec_h(w, q + n4 + n5 + n6));
                        Some(n4 + n5 + n6 + n7)
                    },
                    None => None,
                },
                None => None,
            },
            None => None,
        }
    } else {
        None
    }
}

/// Match `brivla_rafsi` at `q`; see [`spec_brivla_rafsi`].
pub fn brivla_rafsi(w: &[u8], q: usize) -> (hit: Option<usize>)
    requires
        q <= w.len(),
    ensures
        matched(hit) == spec_brivla_rafsi(w@, q as nat),
        hit matches Some(len) ==> 0 < len && q + len <= w.len() && starts_plain(
            w@,
            q as nat,
            len as nat,
        ),
    decreases w.len() - q, 17nat,
{
    reveal(spec_brivla_rafsi);
    reveal(spec_syllable);
    reveal(spec_many_consonantal_syllable);
    reveal(spec_brivla_head);
    reveal(spec_h);
    if (match syllable(w, q) {
        Some(n1) => {
            let n2: usize = many_consonantal_syllable(w, q + n1);
            match syllable(w, q + n1 + n2) {
                Some(n3) => Some(n1 + n2 + n3),
                None => None,
            }
        },
        None => None,
    }).is_none() {
        return None;
    }
    let n4: usize = brivla_head(w, q)?;
    let n5: usize = h(w, q + n4)?;
    let n6: usize = y(w, q + n4 + n5)?;
    let n7: usize = length(h(w, q + n4 + n5 + n6));
    Some(n4 + n5 + n6 + n7)
}

/// ```text
/// fuhivla_rafsi <- &unstressed_syllable fuhivla_head !h onset y h?
/// ```
#[verifier::opaque]
pub open spec fn spec_fuhivla_rafsi(w: Seq<u8>, q: nat) -> Option<nat>
    decreases rest(w, q), 18nat,
{
    if spec_unstressed_syllable(w, q) is Some {
        match spec_fuhivla_head(w, q) {
            Some(n1) => if spec_h(w, q + n1) is None {
                match spec_onset(w, q + n1) {
                    Some(n2) => match spec_y(w, q + n1 + n2) {
                        Some(n3) => {
                            let n4: nat = spec_length(spec_h(w, q + n1 + n2 + n3));
                            Some(n1 + n2 + n3 + n4)
                        },
                        None => None,
                    },
                    None => None,
                }
            } else {
                None
            },
            None => None,
        }
    } else {
        None
    }
}

/// Match `fuhivla_rafsi` at `q`; see [`spec_fuhivla_rafsi`].
pub fn fuhivla_rafsi(w: &[u8], q: usize) -> (hit: Option<usize>)
    requires
        q <= w.len(),
    ensures
        matched(hit) == spec_fuhivla_rafsi(w@, q as nat),
        hit matches Some(len) ==> 0 < len && q + len <= w.len() && starts_plain(
            w@,
            q as nat,
            len as nat,
        ),
    decreases w.len() - q, 18nat,
{
    reveal(spec_fuhivla_rafsi);
    reveal(spec_unstressed_syllable);
    reveal(spec_fuhivla_head);
    reveal(spec_h);
    reveal(spec_onset);
    if unstressed_syllable(w, q).is_none() {
        return None;
    }
    let n1: usize = fuhivla_head(w, q)?;
    if h(w, q + n1).is_some() {
        return None;
    }
    let n2: usize = onset(w, q + n1)?;
    let n3: usize = y(w, q + n1 + n2)?;
    let n4: usize = length(h(w, q + n1 + n2 + n3));
    Some(n1 + n2 + n3 + n4)
}

/// ```text
/// extended_rafsi <- brivla_rafsi / fuhivla_rafsi
/// ```
#[verifier::opaque]
pub open spec fn spec_extended_rafsi(w: Seq<u8>, q: nat) -> Option<nat>
    decreases rest(w, q), 19nat,
{
    first(spec_brivla_rafsi(w, q), spec_fuhivla_rafsi(w, q))
}

/// Match `extended_rafsi` at `q`; see [`spec_extended_rafsi`].
pub fn extended_rafsi(w: &[u8], q: usize) -> (hit: Option<usize>)
    requires
        q <= w.len(),
    ensures
        matched(hit) == spec_extended_rafsi(w@, q as nat),
        hit matches Some(len) ==> 0 < len && q + len <= w.len() && starts_plain(
            w@,
            q as nat,
            len as nat,
        ),
    decreases w.len() - q, 19nat,
{
    reveal(spec_extended_rafsi);
    reveal(spec_brivla_rafsi);
    reveal(spec_fuhivla_rafsi);
    let hit = brivla_rafsi(w, q);
    if hit.is_some() {
        return hit;
    }
    fuhivla_rafsi(w, q)
}

/// ```text
/// stressed_brivla_rafsi <- &unstressed_syllable brivla_head stressed_syllable h y
/// ```
#[verifier::opaque]
pub open spec fn spec_stressed_brivla_rafsi(w: Seq<u8>, q: nat) -> Option<nat>
    decreases rest(w, q), 17nat,
{
    if spec_unstressed_syllable(w, q) is Some {
        match spec_brivla_head(w, q) {
            Some(n1) => match spec_stressed_syllable(w, q + n1) {
                Some(n2) => match spec_h(w, q + n1 + n2) {
                    Some(n3) => match spec_y(w, q + n1 + n2 + n3) {
                        Some(n4) => Some(n1 + n2 + n3 + n4),
                        None => None,
                    },
                    None => None,
                },
                None => None,
            },
            None => None,
        }
    } else {
        None
    }
}

/// Match `stressed_brivla_rafsi` at `q`; see [`spec_stressed_brivla_rafsi`].
pub fn stressed_brivla_rafsi(w: &[u8], q: usize) -> (hit: Option<usize>)
    requires
        q <= w.len(),
    ensures
        matched(hit) == spec_stressed_brivla_rafsi(w@, q as nat),
        hit matches Some(len) ==> 0 < len && q + len <= w.len() && starts_plain(
            w@,
            q as nat,
            len as nat,
        ),
    decreases w.len() - q, 17nat,
{
    reveal(spec_stressed_brivla_rafsi);
    reveal(spec_unstressed_syllable);
    reveal(spec_brivla_head);
    reveal(spec_stressed_syllable);
    reveal(spec_h);
    if unstressed_syllable(w, q).is_none() {
        return None;
    }
    let n1: usize = brivla_head(w, q)?;
    let n2: usize = stressed_syllable(w, q + n1)?;
    let n3: usize = h(w, q + n1 + n2)?;
    let n4: usize = y(w, q + n1 + n2 + n3)?;
    Some(n1 + n2 + n3 + n4)
}

/// ```text
/// stressed_fuhivla_rafsi <- fuhivla_head stressed_syllable !h onset y
/// ```
#[verifier::opaque]
pub open spec fn spec_stressed_fuhivla_rafsi(w: Seq<u8>, q: nat) -> Option<nat>
    decreases rest(w, q), 18nat,
{
    match spec_fuhivla_head(w, q) {
        Some(n1) => match spec_stressed_syllable(w, q + n1) {
            Some(n2) => if spec_h(w, q + n1 + n2) is None {
                match spec_onset(w, q + n1 + n2) {
                    Some(n3) => match spec_y(w, q + n1 + n2 + n3) {
                        Some(n4) => Some(n1 + n2 + n3 + n4),
                        None => None,
                    },
                    None => None,
                }
            } else {
                None
            },
            None => None,
        },
        None => None,
    }
}

/// Match `stressed_fuhivla_rafsi` at `q`; see [`spec_stressed_fuhivla_rafsi`].
pub fn stressed_fuhivla_rafsi(w: &[u8], q: usize) -> (hit: Option<usize>)
    requires
        q <= w.len(),
    ensures
        matched(hit) == spec_stressed_fuhivla_rafsi(w@, q as nat),
        hit matches Some(len) ==> 0 < len && q + len <= w.len() && starts_plain(
            w@,
            q as nat,
            len as nat,
        ),
    decreases w.len() - q, 18nat,
{
    reveal(spec_stressed_fuhivla_rafsi);
    reveal(spec_fuhivla_head);
    reveal(spec_stressed_syllable);
    reveal(spec_h);
    reveal(spec_onset);
    let n1: usize = fuhivla_head(w, q)?;
    let n2: usize = stressed_syllable(w, q + n1)?;
    if h(w, q + n1 + n2).is_some() {
        return None;
    }
    let n3: usize = onset(w, q + n1 + n2)?;
    let n4: usize = y(w, q + n1 + n2 + n3)?;
    Some(n1 + n2 + n3 + n4)
}

/// ```text
/// stressed_extended_rafsi <- stressed_brivla_rafsi / stressed_fuhivla_rafsi
/// ```
#[verifier::opaque]
pub open spec fn spec_stressed_extended_rafsi(w: Seq<u8>, q: nat) -> Option<nat>
    decreases rest(w, q), 19nat,
{
    first(spec_stressed_brivla_rafsi(w, q), spec_stressed_fuhivla_rafsi(w, q))
}

/// Match `stressed_extended_rafsi` at `q`; see [`spec_stressed_extended_rafsi`].
pub fn stressed_extended_rafsi(w: &[u8], q: usize) -> (hit: Option<usize>)
    requires
        q <= w.len(),
    ensures
        matched(hit) == spec_stressed_extended_rafsi(w@, q as nat),
        hit matches Some(len) ==> 0 < len && q + len <= w.len() && starts_plain(
            w@,
            q as nat,
            len as nat,
        ),
    decreases w.len() - q, 19nat,
{
    reveal(spec_stressed_extended_rafsi);
    reveal(spec_stressed_brivla_rafsi);
    reveal(spec_stressed_fuhivla_rafsi);
    let hit = stressed_brivla_rafsi(w, q);
    if hit.is_some() {
        return hit;
    }
    stressed_fuhivla_rafsi(w, q)
}

/// ```text
/// any_extended_rafsi <- fuhivla / extended_rafsi / stressed_extended_rafsi
/// ```
#[verifier::opaque]
pub open spec fn spec_any_extended_rafsi(w: Seq<u8>, q: nat) -> Option<nat>
    decreases rest(w, q), 20nat,
{
    first(
        spec_fuhivla(w, q),
        first(spec_extended_rafsi(w, q), spec_stressed_extended_rafsi(w, q)),
    )
}

/// Match `any_extended_rafsi` at `q`; see [`spec_any_extended_rafsi`].
pub fn any_extended_rafsi(w: &[u8], q: usize) -> (hit: Option<usize>)
    requires
        q <= w.len(),
    ensures
        matched(hit) == spec_any_extended_rafsi(w@, q as nat),
        hit matches Some(len) ==> 0 < len && q + len <= w.len() && starts_plain(
            w@,
            q as nat,
            len as nat,
        ),
    decreases w.len() - q, 20nat,
{
    reveal(spec_any_extended_rafsi);
    reveal(spec_fuhivla);
    reveal(spec_extended_rafsi);
    reveal(spec_stressed_extended_rafsi);
    let hit = fuhivla(w, q);
    if hit.is_some() {
        return hit;
    }
    let hit = extended_rafsi(w, q);
    if hit.is_some() {
        return hit;
    }
    stressed_extended_rafsi(w, q)
}

/// ```text
/// initial_rafsi <- extended_rafsi / y_rafsi / !any_extended_rafsi y_less_rafsi
///     !any_extended_rafsi
/// ```
#[verifier::opaque]
pub open spec fn spec_initial_rafsi(w: Seq<u8>, q: nat) -> Option<nat>
    decreases rest(w, q), 21nat,
{
    first(
        spec_extended_rafsi(w, q),
        first(
            spec_y_rafsi(w, q),
            if spec_any_extended_rafsi(w, q) is None {
                match spec_y_less_rafsi(w, q) {
                    Some(n1) => if spec_any_extended_rafsi(w, q + n1) is None {
                        Some(n1)
                    } else {
                        None
                    },
                    None => None,
                }
            } else {
                None
            },
        ),
    )
}

/// Match `initial_rafsi` at `q`; see [`spec_initial_rafsi`].
pub fn initial_rafsi(w: &[u8], q: usize) -> (hit: Option<usize>)
    requires
        q <= w.len(),
    ensures
        matched(hit) == spec_initial_rafsi(w@, q as nat),
        hit matches Some(len) ==> 0 < len && q + len <= w.len() && starts_plain(
            w@,
            q as nat,
            len as nat,
        ),
    decreases w.len() - q, 21nat,
{
    reveal(spec_initial_rafsi);
    reveal(spec_extended_rafsi);
    reveal(spec_y_rafsi);
    reveal(spec_any_extended_rafsi);
    reveal(spec_y_less_rafsi);
    let hit = extended_rafsi(w, q);
    if hit.is_some() {
        return hit;
    }
    let hit = y_rafsi(w, q);
    if hit.is_some() {
        return hit;
    }
    if any_extended_rafsi(w, q).is_none() {
        match y_less_rafsi(w, q) {
            Some(n1) => if any_extended_rafsi(w, q + n1).is_none() {
                Some(n1)
            } else {
                None
            },
            None => None,
        }
    } else {
        None
    }
}

/// The length of as many `initial_rafsi` as match in a row from `q`.
#[verifier::opaque]
pub open spec fn spec_many_initial_rafsi(w: Seq<u8>, q: nat) -> nat
    decreases rest(w, q), 22nat,
{
    match spec_initial_rafsi(w, q) {
        Some(len) => if advanced(w, q, len) {
            len + spec_many_initial_rafsi(w, q + len)
        } else {
            0
        },
        None => 0,
    }
}

/// Match `initial_rafsi` from `q` as often as it matches; see [`spec_many_initial_rafsi`].
#[verifier::rlimit(60)]
pub fn many_initial_rafsi(w: &[u8], q: usize) -> (total: usize)
    requires
        q <= w.len(),
    ensures
        total == spec_many_initial_rafsi(w@, q as nat),
        q + total <= w.len(),
        starts_plain(w@, q as nat, total as nat),
    decreases w.len() - q, 22nat,
{
    let mut total: usize = 0;
    let mut more = true;
    while more
        invariant
            q + total <= w.len(),
            starts_plain(w@, q as nat, total as nat),
            more ==> total + spec_many_initial_rafsi(w@, (q + total) as nat) == spec_many_initial_rafsi(w@, q as nat),
            !more ==> total == spec_many_initial_rafsi(w@, q as nat),
        decreases w.len() - q - total + (if more { 1int } else { 0int }),
    {
        reveal(spec_many_initial_rafsi);
        reveal(spec_initial_rafsi);
        match initial_rafsi(w, q + total) {
            Some(len) => {
                total = total + len;
            },
            None => {
                more = false;
            },
        }
    }
    total
}

/// ```text
/// stressed_initial_rafsi <- stressed_extended_rafsi / stressed_y_rafsi /
///     stressed_y_less_rafsi
/// ```
#[verifier::opaque]
pub open spec fn spec_stressed_initial_rafsi(w: Seq<u8>, q: nat) -> Option<nat>
    decreases rest(w, q), 20nat,
{
    first(
        spec_stressed_extended_rafsi(w, q),
        first(spec_stressed_y_rafsi(w, q), spec_stressed_y_less_rafsi(w, q)),
    )
}

/// Match `stressed_initial_rafsi` at `q`; see [`spec_stressed_initial_rafsi`].
pub fn stressed_initial_rafsi(w: &[u8], q: usize) -> (hit: Option<usize>)
    requires
        q <= w.len(),
    ensures
        matched(hit) == spec_stressed_initial_rafsi(w@, q as nat),
        hit matches Some(len) ==> 0 < len && q + len <= w.len() && starts_plain(
            w@,
            q as nat,
            len as nat,
        ),
    decreases w.len() - q, 20nat,
{
    reveal(spec_stressed_initial_rafsi);
    reveal(spec_stressed_extended_rafsi);
    reveal(spec_stressed_y_rafsi);
    reveal(spec_stressed_y_less_rafsi);
    let hit = stressed_extended_rafsi(w, q);
    if hit.is_some() {
        return hit;
    }
    let hit = stressed_y_rafsi(w, q);
    if hit.is_some() {
        return hit;
    }
    stressed_y_less_rafsi(w, q)
}

/// ```text
/// brivla_core <- fuhivla / gismu / cvv_final_rafsi / stressed_initial_rafsi
///     short_final_rafsi
/// ```
#[verifier::opaque]
pub open spec fn spec_brivla_core(w: Seq<u8>, q: nat) -> Option<nat>
    decreases rest(w, q), 21nat,
{
    first(
        spec_fuhivla(w, q),
        first(
            spec_gismu(w, q),
            first(
                spec_cvv_final_rafsi(w, q),
                match spec_stressed_initial_rafsi(w, q) {
                    Some(n1) => match spec_short_final_rafsi(w, q + n1) {
                        Some(n2) => Some(n1 + n2),
                        None => None,
                    },
                    None => None,
                },
            ),
        ),
    )
}

/// Match `brivla_core` at `q`; see [`spec_brivla_core`].
pub fn brivla_core(w: &[u8], q: usize) -> (hit: Option<usize>)
    requires
        q <= w.len(),
    ensures
        matched(hit) == spec_brivla_core(w@, q as nat),
        hit matches Some(len) ==> 0 < len && q + len <= w.len() && starts_plain(
            w@,
            q as nat,
            len as nat,
        ),
    decreases w.len() - q, 21nat,
{
    reveal(spec_brivla_core);
    reveal(spec_fuhivla);
    reveal(spec_gismu);
    reveal(spec_cvv_final_rafsi);
    reveal(spec_stressed_initial_rafsi);
    reveal(spec_short_final_rafsi);
    let hit = fuhivla(w, q);
    if hit.is_some() {
        return hit;
    }
    let hit = gismu(w, q);
    if hit.is_some() {
        return hit;
    }
    let hit = cvv_final_rafsi(w, q);
    if hit.is_some() {
        return hit;
    }
    match stressed_initial_rafsi(w, q) {
        Some(n1) => match short_final_rafsi(w, q + n1) {
            Some(n2) => Some(n1 + n2),
            None => None,
        },
        None => None,
    }
}

/// ```text
/// explicitly_stressed_gismu_minimal <- (initial_pair explicitly_stressed_vowel / consonant
///     explicitly_stressed_vowel consonant) &final_syllable consonant vowel
/// ```
#[verifier::opaque]
pub open spec fn spec_explicitly_stressed_gismu_minimal(w: Seq<u8>, q: nat) -> Option<nat>
    decreases rest(w, q), 7nat,
{
    match first(
        match spec_initial_pair(w, q) {
            Some(n1) => match spec_explicitly_stressed_vowel(w, q + n1) {
                Some(n2) => Some(n1 + n2),
                None => None,
            },
            None => None,
        },
        match spec_consonant(w, q) {
            Some(n3) => match spec_explicitly_stressed_vowel(w, q + n3) {
                Some(n4) => match spec_consonant(w, q + n3 + n4) {
                    Some(n5) => Some(n3 + n4 + n5),
                    None => None,
                },
                None => None,
            },
            None => None,
        },
    ) {
        Some(n6) => if spec_final_syllable(w, q + n6) is Some {
            match spec_consonant(w, q + n6) {
                Some(n7) => match spec_vowel(w, q + n6 + n7) {
                    Some(n8) => Some(n6 + n7 + n8),
                    None => None,
                },
                None => None,
            }
        } else {
            None
        },
        None => None,
    }
}

/// Match `explicitly_stressed_gismu_minimal` at `q`; see [`spec_explicitly_stressed_gismu_minimal`].
pub fn explicitly_stressed_gismu_minimal(w: &[u8], q: usize) -> (hit: Option<usize>)
    requires
        q <= w.len(),
    ensures
        matched(hit) == spec_explicitly_stressed_gismu_minimal(w@, q as nat),
        hit matches Some(len) ==> 0 < len && q + len <= w.len() && starts_plain(
            w@,
            q as nat,
            len as nat,
        ),
    decreases w.len() - q, 7nat,
{
    reveal(spec_explicitly_stressed_gismu_minimal);
    reveal(spec_initial_pair);
    reveal(spec_explicitly_stressed_vowel);
    reveal(spec_consonant);
    reveal(spec_final_syllable);
    reveal(spec_vowel);
    let n6: usize = (match match initial_pair(w, q) {
        Some(n1) => match explicitly_stressed_vowel(w, q + n1) {
            Some(n2) => Some(n1 + n2),
            None => None,
        },
        None => None,
    } {
        Some(len) => Some(len),
        None => match consonant(w, q) {
            Some(n3) => match explicitly_stressed_vowel(w, q + n3) {
                Some(n4) => match consonant(w, q + n3 + n4) {
                    Some(n5) => Some(n3 + n4 + n5),
                    None => None,
                },
                None => None,
            },
            None => None,
        },
    })?;
    if final_syllable(w, q + n6).is_none() {
        return None;
    }
    let n7: usize = consonant(w, q + n6)?;
    let n8: usize = vowel(w, q + n6 + n7)?;
    Some(n6 + n7 + n8)
}

/// ```text
/// final_syllable_minimal <- onset !y !stressed nucleus
/// ```
#[verifier::opaque]
pub open spec fn spec_final_syllable_minimal(w: Seq<u8>, q: nat) -> Option<nat>
    decreases rest(w, q), 6nat,
{
    match spec_onset(w, q) {
        Some(n1) => if spec_y(w, q + n1) is None && spec_stressed(w, q + n1) is None {
            match spec_nucleus(w, q + n1) {
                Some(n2) => Some(n1 + n2),
                None => None,
            }
        } else {
            None
        },
        None => None,
    }
}

/// Match `final_syllable_minimal` at `q`; see [`spec_final_syllable_minimal`].
pub fn final_syllable_minimal(w: &[u8], q: usize) -> (hit: Option<usize>)
    requires
        q <= w.len(),
    ensures
        matched(hit) == spec_final_syllable_minimal(w@, q as nat),
        hit matches Some(len) ==> 0 < len && q + len <= w.len() && starts_plain(
            w@,
            q as nat,
            len as nat,
        ),
    decreases w.len() - q, 6nat,
{
    reveal(spec_final_syllable_minimal);
    reveal(spec_onset);
    reveal(spec_stressed);
    reveal(spec_nucleus);
    let n1: usize = onset(w, q)?;
    if y(w, q + n1).is_some() {
        return None;
    }
    if stressed(w, q + n1).is_some() {
        return None;
    }
    let n2: usize = nucleus(w, q + n1)?;
    Some(n1 + n2)
}

/// ```text
/// explicitly_stressed_fuhivla_minimal <- fuhivla_head explicitly_stressed_syllable
///     consonantal_syllable* final_syllable_minimal
/// ```
#[verifier::opaque]
pub open spec fn spec_explicitly_stressed_fuhivla_minimal(w: Seq<u8>, q: nat) -> Option<nat>
    decreases rest(w, q), 18nat,
{
    match spec_fuhivla_head(w, q) {
        Some(n1) => match spec_explicitly_stressed_syllable(w, q + n1) {
            Some(n2) => {
                let n3: nat = spec_many_consonantal_syllable(w, q + n1 + n2);
                match spec_final_syllable_minimal(w, q + n1 + n2 + n3) {
                    Some(n4) => Some(n1 + n2 + n3 + n4),
                    None => None,
                }
            },
            None => None,
        },
        None => None,
    }
}

/// Match `explicitly_stressed_fuhivla_minimal` at `q`; see [`spec_explicitly_stressed_fuhivla_minimal`].
pub fn explicitly_stressed_fuhivla_minimal(w: &[u8], q: usize) -> (hit: Option<usize>)
    requires
        q <= w.len(),
    ensures
        matched(hit) == spec_explicitly_stressed_fuhivla_minimal(w@, q as nat),
        hit matches Some(len) ==> 0 < len && q + len <= w.len() && starts_plain(
            w@,
            q as nat,
            len as nat,
        ),
    decreases w.len() - q, 18nat,
{
    reveal(spec_explicitly_stressed_fuhivla_minimal);
    reveal(spec_fuhivla_head);
    reveal(spec_explicitly_stressed_syllable);
    reveal(spec_many_consonantal_syllable);
    reveal(spec_final_syllable_minimal);
    let n1: usize = fuhivla_head(w, q)?;
    let n2: usize = explicitly_stressed_syllable(w, q + n1)?;
    let n3: usize = many_consonantal_syllable(w, q + n1 + n2);
    let n4: usize = final_syllable_minimal(w, q + n1 + n2 + n3)?;
    Some(n1 + n2 + n3 + n4)
}

/// ```text
/// explicitly_stressed_cvv_final_rafsi <- consonant explicitly_stressed_vowel h
///     &final_syllable vowel &post_word
/// ```
#[verifier::opaque]
pub open spec fn spec_explicitly_stressed_cvv_final_rafsi(w: Seq<u8>, q: nat) -> Option<nat>
    decreases rest(w, q), 27nat,
{
    match spec_consonant(w, q) {
        Some(n1) => match spec_explicitly_stressed_vowel(w, q + n1) {
            Some(n2) => match spec_h(w, q + n1 + n2) {
                Some(n3) => if spec_final_syllable(w, q + n1 + n2 + n3) is Some {
                    match spec_vowel(w, q + n1 + n2 + n3) {
                        Some(n4) => if spec_post_word(w, q + n1 + n2 + n3 + n4) is Some {
                            Some(n1 + n2 + n3 + n4)
                        } else {
                            None
                        },
                        None => None,
                    }
                } else {
                    None
                },
                None => None,
            },
            None => None,
        },
        None => None,
    }
}

/// Match `explicitly_stressed_cvv_final_rafsi` at `q`; see [`spec_explicitly_stressed_cvv_final_rafsi`].
pub fn explicitly_stressed_cvv_final_rafsi(w: &[u8], q: usize) -> (hit: Option<usize>)
    requires
        q <= w.len(),
    ensures
        matched(hit) == spec_explicitly_stressed_cvv_final_rafsi(w@, q as nat),
        hit matches Some(len) ==> 0 < len && q + len <= w.len() && starts_plain(
            w@,
            q as nat,
            len as nat,
        ),
    decreases w.len() - q, 27nat,
{
    reveal(spec_explicitly_stressed_cvv_final_rafsi);
    reveal(spec_consonant);
    reveal(spec_explicitly_stressed_vowel);
    reveal(spec_h);
    reveal(spec_final_syllable);
    reveal(spec_vowel);
    reveal(spec_post_word);
    let n1: usize = consonant(w, q)?;
    let n2: usize = explicitly_stressed_vowel(w, q + n1)?;
    let n3: usize = h(w, q + n1 + n2)?;
    if final_syllable(w, q + n1 + n2 + n3).is_none() {
        return None;
    }
    let n4: usize = vowel(w, q + n1 + n2 + n3)?;
    if post_word(w, q + n1 + n2 + n3 + n4).is_none() {
        return None;
    }
    Some(n1 + n2 + n3 + n4)
}

/// ```text
/// explicitly_stressed_brivla_rafsi <- &unstressed_syllable brivla_head
///     explicitly_stressed_syllable h y
/// ```
#[verifier::opaque]
pub open spec fn spec_explicitly_stressed_brivla_rafsi(w: Seq<u8>, q: nat) -> Option<nat>
    decreases rest(w, q), 17nat,
{
    if spec_unstressed_syllable(w, q) is Some {
        match spec_brivla_head(w, q) {
            Some(n1) => match spec_explicitly_stressed_syllable(w, q + n1) {
                Some(n2) => match spec_h(w, q + n1 + n2) {
                    Some(n3) => match spec_y(w, q + n1 + n2 + n3) {
                        Some(n4) => Some(n1 + n2 + n3 + n4),
                        None => None,
                    },
                    None => None,
                },
                None => None,
            },
            None => None,
        }
    } else {
        None
    }
}

/// Match `explicitly_stressed_brivla_rafsi` at `q`; see [`spec_explicitly_stressed_brivla_rafsi`].
pub fn explicitly_stressed_brivla_rafsi(w: &[u8], q: usize) -> (hit: Option<usize>)
    requires
        q <= w.len(),
    ensures
        matched(hit) == spec_explicitly_stressed_brivla_rafsi(w@, q as nat),
        hit matches Some(len) ==> 0 < len && q + len <= w.len() && starts_plain(
            w@,
            q as nat,
            len as nat,
        ),
    decreases w.len() - q, 17nat,
{
    reveal(spec_explicitly_stressed_brivla_rafsi);
    reveal(spec_unstressed_syllable);
    reveal(spec_brivla_head);
    reveal(spec_explicitly_stressed_syllable);
    reveal(spec_h);
    if unstressed_syllable(w, q).is_none() {
        return None;
    }
    let n1: usize = brivla_head(w, q)?;
    let n2: usize = explicitly_stressed_syllable(w, q + n1)?;
    let n3: usize = h(w, q + n1 + n2)?;
    let n4: usize = y(w, q + n1 + n2 + n3)?;
    Some(n1 + n2 + n3 + n4)
}

/// ```text
/// explicitly_stressed_fuhivla_rafsi <- fuhivla_head explicitly_stressed_syllable !h onset
///     y
/// ```
#[verifier::opaque]
pub open spec fn spec_explicitly_stressed_fuhivla_rafsi(w: Seq<u8>, q: nat) -> Option<nat>
    decreases rest(w, q), 18nat,
{
    match spec_fuhivla_head(w, q) {
        Some(n1) => match spec_explicitly_stressed_syllable(w, q + n1) {
            Some(n2) => if spec_h(w, q + n1 + n2) is None {
                match spec_onset(w, q + n1 + n2) {
                    Some(n3) => match spec_y(w, q + n1 + n2 + n3) {
                        Some(n4) => Some(n1 + n2 + n3 + n4),
                        None => None,
                    },
                    None => None,
                }
            } else {
                None
            },
            None => None,
        },
        None => None,
    }
}

/// Match `explicitly_stressed_fuhivla_rafsi` at `q`; see [`spec_explicitly_stressed_fuhivla_rafsi`].
pub fn explicitly_stressed_fuhivla_rafsi(w: &[u8], q: usize) -> (hit: Option<usize>)
    requires
        q <= w.len(),
    ensures
        matched(hit) == spec_explicitly_stressed_fuhivla_rafsi(w@, q as nat),
        hit matches Some(len) ==> 0 < len && q + len <= w.len() && starts_plain(
            w@,
            q as nat,
            len as nat,
        ),
    decreases w.len() - q, 18nat,
{
    reveal(spec_explicitly_stressed_fuhivla_rafsi);
    reveal(spec_fuhivla_head);
    reveal(spec_explicitly_stressed_syllable);
    reveal(spec_h);
    reveal(spec_onset);
    let n1: usize = fuhivla_head(w, q)?;
    let n2: usize = explicitly_stressed_syllable(w, q + n1)?;
    if h(w, q + n1 + n2).is_some() {
        return None;
    }
    let n3: usize = onset(w, q + n1 + n2)?;
    let n4: usize = y(w, q + n1 + n2 + n3)?;
    Some(n1 + n2 + n3 + n4)
}

/// ```text
/// explicitly_stressed_extended_rafsi <- explicitly_stressed_brivla_rafsi /
///     explicitly_stressed_fuhivla_rafsi
/// ```
#[verifier::opaque]
pub open spec fn spec_explicitly_stressed_extended_rafsi(w: Seq<u8>, q: nat) -> Option<nat>
    decreases rest(w, q), 19nat,
{
    first(
        spec_explicitly_stressed_brivla_rafsi(w, q),
        spec_explicitly_stressed_fuhivla_rafsi(w, q),
    )
}

/// Match `explicitly_stressed_extended_rafsi` at `q`; see [`spec_explicitly_stressed_extended_rafsi`].
pub fn explicitly_stressed_extended_rafsi(w: &[u8], q: usize) -> (hit: Option<usize>)
    requires
        q <= w.len(),
    ensures
        matched(hit) == spec_explicitly_stressed_extended_rafsi(w@, q as nat),
        hit matches Some(len) ==> 0 < len && q + len <= w.len() && starts_plain(
            w@,
            q as nat,
            len as nat,
        ),
    decreases w.len() - q, 19nat,
{
    reveal(spec_explicitly_stressed_extended_rafsi);
    reveal(spec_explicitly_stressed_brivla_rafsi);
    reveal(spec_explicitly_stressed_fuhivla_rafsi);
    let hit = explicitly_stressed_brivla_rafsi(w, q);
    if hit.is_some() {
        return hit;
    }
    explicitly_stressed_fuhivla_rafsi(w, q)
}

/// ```text
/// explicitly_stressed_long_rafsi <- initial_pair explicitly_stressed_vowel consonant /
///     consonant explicitly_stressed_vowel consonant consonant
/// ```
#[verifier::opaque]
pub open spec fn spec_explicitly_stressed_long_rafsi(w: Seq<u8>, q: nat) -> Option<nat>
    decreases rest(w, q), 7nat,
{
    first(
        match spec_initial_pair(w, q) {
            Some(n1) => match spec_explicitly_stressed_vowel(w, q + n1) {
                Some(n2) => match spec_consonant(w, q + n1 + n2) {
                    Some(n3) => Some(n1 + n2 + n3),
                    None => None,
                },
                None => None,
            },
            None => None,
        },
        match spec_consonant(w, q) {
            Some(n4) => match spec_explicitly_stressed_vowel(w, q + n4) {
                Some(n5) => match spec_consonant(w, q + n4 + n5) {
                    Some(n6) => match spec_consonant(w, q + n4 + n5 + n6) {
                        Some(n7) => Some(n4 + n5 + n6 + n7),
                        None => None,
                    },
                    None => None,
                },
                None => None,
            },
            None => None,
        },
    )
}

/// Match `explicitly_stressed_long_rafsi` at `q`; see [`spec_explicitly_stressed_long_rafsi`].
pub fn explicitly_stressed_long_rafsi(w: &[u8], q: usize) -> (hit: Option<usize>)
    requires
        q <= w.len(),
    ensures
        matched(hit) == spec_explicitly_stressed_long_rafsi(w@, q as nat),
        hit matches Some(len) ==> 0 < len && q + len <= w.len() && starts_plain(
            w@,
            q as nat,
            len as nat,
        ),
    decreases w.len() - q, 7nat,
{
    reveal(spec_explicitly_stressed_long_rafsi);
    reveal(spec_initial_pair);
    reveal(spec_explicitly_stressed_vowel);
    reveal(spec_consonant);
    let hit = match initial_pair(w, q) {
        Some(n1) => match explicitly_stressed_vowel(w, q + n1) {
            Some(n2) => match consonant(w, q + n1 + n2) {
                Some(n3) => Some(n1 + n2 + n3),
                None => None,
            },
            None => None,
        },
        None => None,
    };
    if hit.is_some() {
        return hit;
    }
    match consonant(w, q) {
        Some(n4) => match explicitly_stressed_vowel(w, q + n4) {
            Some(n5) => match consonant(w, q + n4 + n5) {
                Some(n6) => match consonant(w, q + n4 + n5 + n6) {
                    Some(n7) => Some(n4 + n5 + n6 + n7),
                    None => None,
                },
                None => None,
            },
            None => None,
        },
        None => None,
    }
}

/// ```text
/// explicitly_stressed_cvc_rafsi <- consonant explicitly_stressed_vowel consonant
/// ```
#[verifier::opaque]
pub open spec fn spec_explicitly_stressed_cvc_rafsi(w: Seq<u8>, q: nat) -> Option<nat>
    decreases rest(w, q), 7nat,
{
    match spec_consonant(w, q) {
        Some(n1) => match spec_explicitly_stressed_vowel(w, q + n1) {
            Some(n2) => match spec_consonant(w, q + n1 + n2) {
                Some(n3) => Some(n1 + n2 + n3),
                None => None,
            },
            None => None,
        },
        None => None,
    }
}

/// Match `explicitly_stressed_cvc_rafsi` at `q`; see [`spec_explicitly_stressed_cvc_rafsi`].
pub fn explicitly_stressed_cvc_rafsi(w: &[u8], q: usize) -> (hit: Option<usize>)
    requires
        q <= w.len(),
    ensures
        matched(hit) == spec_explicitly_stressed_cvc_rafsi(w@, q as nat),
        hit matches Some(len) ==> 0 < len && q + len <= w.len() && starts_plain(
            w@,
            q as nat,
            len as nat,
        ),
    decreases w.len() - q, 7nat,
{
    reveal(spec_explicitly_stressed_cvc_rafsi);
    reveal(spec_consonant);
    reveal(spec_explicitly_stressed_vowel);
    let n1: usize = consonant(w, q)?;
    let n2: usize = explicitly_stressed_vowel(w, q + n1)?;
    let n3: usize = consonant(w, q + n1 + n2)?;
    Some(n1 + n2 + n3)
}

/// ```text
/// explicitly_stressed_y_rafsi <- (explicitly_stressed_long_rafsi /
///     explicitly_stressed_cvc_rafsi) y
/// ```
#[verifier::opaque]
pub open spec fn spec_explicitly_stressed_y_rafsi(w: Seq<u8>, q: nat) -> Option<nat>
    decreases rest(w, q), 8nat,
{
    match first(
        spec_explicitly_stressed_long_rafsi(w, q),
        spec_explicitly_stressed_cvc_rafsi(w, q),
    ) {
        Some(n1) => match spec_y(w, q + n1) {
            Some(n2) => Some(n1 + n2),
            None => None,
        },
        None => None,
    }
}

/// Match `explicitly_stressed_y_rafsi` at `q`; see [`spec_explicitly_stressed_y_rafsi`].
pub fn explicitly_stressed_y_rafsi(w: &[u8], q: usize) -> (hit: Option<usize>)
    requires
        q <= w.len(),
    ensures
        matched(hit) == spec_explicitly_stressed_y_rafsi(w@, q as nat),
        hit matches Some(len) ==> 0 < len && q + len <= w.len() && starts_plain(
            w@,
            q as nat,
            len as nat,
        ),
    decreases w.len() - q, 8nat,
{
    reveal(spec_explicitly_stressed_y_rafsi);
    reveal(spec_explicitly_stressed_long_rafsi);
    reveal(spec_explicitly_stressed_cvc_rafsi);
    let n1: usize = (match explicitly_stressed_long_rafsi(w, q) {
        Some(len) => Some(len),
        None => explicitly_stressed_cvc_rafsi(w, q),
    })?;
    let n2: usize = y(w, q + n1)?;
    Some(n1 + n2)
}

/// ```text
/// explicitly_stressed_ccv_rafsi <- initial_pair explicitly_stressed_vowel
/// ```
#[verifier::opaque]
pub open spec fn spec_explicitly_stressed_ccv_rafsi(w: Seq<u8>, q: nat) -> Option<nat>
    decreases rest(w, q), 7nat,
{
    match spec_initial_pair(w, q) {
        Some(n1) => match spec_explicitly_stressed_vowel(w, q + n1) {
            Some(n2) => Some(n1 + n2),
            None => None,
        },
        None => None,
    }
}

/// Match `explicitly_stressed_ccv_rafsi` at `q`; see [`spec_explicitly_stressed_ccv_rafsi`].
pub fn explicitly_stressed_ccv_rafsi(w: &[u8], q: usize) -> (hit: Option<usize>)
    requires
        q <= w.len(),
    ensures
        matched(hit) == spec_explicitly_stressed_ccv_rafsi(w@, q as nat),
        hit matches Some(len) ==> 0 < len && q + len <= w.len() && starts_plain(
            w@,
            q as nat,
            len as nat,
        ),
    decreases w.len() - q, 7nat,
{
    reveal(spec_explicitly_stressed_ccv_rafsi);
    reveal(spec_initial_pair);
    reveal(spec_explicitly_stressed_vowel);
    let n1: usize = initial_pair(w, q)?;
    let n2: usize = explicitly_stressed_vowel(w, q + n1)?;
    Some(n1 + n2)
}

/// ```text
/// explicitly_stressed_diphthong <- &stressed diphthong
/// ```
#[verifier::opaque]
pub open spec fn spec_explicitly_stressed_diphthong(w: Seq<u8>, q: nat) -> Option<nat>
    decreases rest(w, q), 6nat,
{
    if spec_stressed(w, q) is Some {
        match spec_diphthong(w, q) {
            Some(n1) => Some(n1),
            None => None,
        }
    } else {
        None
    }
}

/// Match `explicitly_stressed_diphthong` at `q`; see [`spec_explicitly_stressed_diphthong`].
pub fn explicitly_stressed_diphthong(w: &[u8], q: usize) -> (hit: Option<usize>)
    requires
        q <= w.len(),
    ensures
        matched(hit) == spec_explicitly_stressed_diphthong(w@, q as nat),
        hit matches Some(len) ==> 0 < len && q + len <= w.len() && starts_plain(
            w@,
            q as nat,
            len as nat,
        ),
    decreases w.len() - q, 6nat,
{
    reveal(spec_explicitly_stressed_diphthong);
    reveal(spec_stressed);
    reveal(spec_diphthong);
    if stressed(w, q).is_none() {
        return None;
    }
    let n1: usize = diphthong(w, q)?;
    Some(n1)
}

/// ```text
/// explicitly_stressed_cvv_rafsi <- consonant (unstressed_vowel h explicitly_stressed_vowel
///     / explicitly_stressed_diphthong) r_hyphen?
/// ```
#[verifier::opaque]
pub open spec fn spec_explicitly_stressed_cvv_rafsi(w: Seq<u8>, q: nat) -> Option<nat>
    decreases rest(w, q), 10nat,
{
    match spec_consonant(w, q) {
        Some(n1) => match first(
            match spec_unstressed_vowel(w, q + n1) {
                Some(n2) => match spec_h(w, q + n1 + n2) {
                    Some(n3) => match spec_explicitly_stressed_vowel(w, q + n1 + n2 + n3) {
                        Some(n4) => Some(n2 + n3 + n4),
                        None => None,
                    },
                    None => None,
                },
                None => None,
            },
            spec_explicitly_stressed_diphthong(w, q + n1),
        ) {
            Some(n5) => {
                let n6: nat = spec_length(spec_r_hyphen(w, q + n1 + n5));
                Some(n1 + n5 + n6)
            },
            None => None,
        },
        None => None,
    }
}

/// Match `explicitly_stressed_cvv_rafsi` at `q`; see [`spec_explicitly_stressed_cvv_rafsi`].
pub fn explicitly_stressed_cvv_rafsi(w: &[u8], q: usize) -> (hit: Option<usize>)
    requires
        q <= w.len(),
    ensures
        matched(hit) == spec_explicitly_stressed_cvv_rafsi(w@, q as nat),
        hit matches Some(len) ==> 0 < len && q + len <= w.len() && starts_plain(
            w@,
            q as nat,
            len as nat,
        ),
    decreases w.len() - q, 10nat,
{
    reveal(spec_explicitly_stressed_cvv_rafsi);
    reveal(spec_consonant);
    reveal(spec_unstressed_vowel);
    reveal(spec_h);
    reveal(spec_explicitly_stressed_vowel);
    reveal(spec_explicitly_stressed_diphthong);
    reveal(spec_r_hyphen);
    let n1: usize = consonant(w, q)?;
    let n5: usize = (match match unstressed_vowel(w, q + n1) {
        Some(n2) => match h(w, q + n1 + n2) {
            Some(n3) => match explicitly_stressed_vowel(w, q + n1 + n2 + n3) {
                Some(n4) => Some(n2 + n3 + n4),
                None => None,
            },
            None => None,
        },
        None => None,
    } {
        Some(len) => Some(len),
        None => explicitly_stressed_diphthong(w, q + n1),
    })?;
    let n6: usize = length(r_hyphen(w, q + n1 + n5));
    Some(n1 + n5 + n6)
}

/// ```text
/// explicitly_stressed_y_less_rafsi <- explicitly_stressed_cvc_rafsi !y /
///     explicitly_stressed_ccv_rafsi / explicitly_stressed_cvv_rafsi
/// ```
#[verifier::opaque]
pub open spec fn spec_explicitly_stressed_y_less_rafsi(w: Seq<u8>, q: nat) -> Option<nat>
    decreases rest(w, q), 11nat,
{
    first(
        match spec_explicitly_stressed_cvc_rafsi(w, q) {
            Some(n1) => if spec_y(w, q + n1) is None {
                Some(n1)
            } else {
                None
            },
            None => None,
        },
        first(
            spec_explicitly_stressed_ccv_rafsi(w, q),
            spec_explicitly_stressed_cvv_rafsi(w, q),
        ),
    )
}

/// Match `explicitly_stressed_y_less_rafsi` at `q`; see [`spec_explicitly_stressed_y_less_rafsi`].
pub fn explicitly_stressed_y_less_rafsi(w: &[u8], q: usize) -> (hit: Option<usize>)
    requires
        q <= w.len(),
    ensures
        matched(hit) == spec_explicitly_stressed_y_less_rafsi(w@, q as nat),
        hit matches Some(len) ==> 0 < len && q + len <= w.len() && starts_plain(
            w@,
            q as nat,
            len as nat,
        ),
    decreases w.len() - q, 11nat,
{
    reveal(spec_explicitly_stressed_y_less_rafsi);
    reveal(spec_explicitly_stressed_cvc_rafsi);
    reveal(spec_explicitly_stressed_ccv_rafsi);
    reveal(spec_explicitly_stressed_cvv_rafsi);
    let hit = match explicitly_stressed_cvc_rafsi(w, q) {
        Some(n1) => if y(w, q + n1).is_none() {
            Some(n1)
        } else {
            None
        },
        None => None,
    };
    if hit.is_some() {
        return hit;
    }
    let hit = explicitly_stressed_ccv_rafsi(w, q);
    if hit.is_some() {
        return hit;
    }
    explicitly_stressed_cvv_rafsi(w, q)
}

/// ```text
/// explicitly_stressed_initial_rafsi <- explicitly_stressed_extended_rafsi /
///     explicitly_stressed_y_rafsi / explicitly_stressed_y_less_rafsi
/// ```
#[verifier::opaque]
pub open spec fn spec_explicitly_stressed_initial_rafsi(w: Seq<u8>, q: nat) -> Option<nat>
    decreases rest(w, q), 20nat,
{
    first(
        spec_explicitly_stressed_extended_rafsi(w, q),
        first(
            spec_explicitly_stressed_y_rafsi(w, q),
            spec_explicitly_stressed_y_less_rafsi(w, q),
        ),
    )
}

/// Match `explicitly_stressed_initial_rafsi` at `q`; see [`spec_explicitly_stressed_initial_rafsi`].
pub fn explicitly_stressed_initial_rafsi(w: &[u8], q: usize) -> (hit: Option<usize>)
    requires
        q <= w.len(),
    ensures
        matched(hit) == spec_explicitly_stressed_initial_rafsi(w@, q as nat),
        hit matches Some(len) ==> 0 < len && q + len <= w.len() && starts_plain(
            w@,
            q as nat,
            len as nat,
        ),
    decreases w.len() - q, 20nat,
{
    reveal(spec_explicitly_stressed_initial_rafsi);
    reveal(spec_explicitly_stressed_extended_rafsi);
    reveal(spec_explicitly_stressed_y_rafsi);
    reveal(spec_explicitly_stressed_y_less_rafsi);
    let hit = explicitly_stressed_extended_rafsi(w, q);
    if hit.is_some() {
        return hit;
    }
    let hit = explicitly_stressed_y_rafsi(w, q);
    if hit.is_some() {
        return hit;
    }
    explicitly_stressed_y_less_rafsi(w, q)
}

/// ```text
/// explicitly_stressed_brivla_core <- explicitly_stressed_fuhivla_minimal /
///     explicitly_stressed_gismu_minimal / explicitly_stressed_cvv_final_rafsi /
///     explicitly_stressed_initial_rafsi short_final_rafsi
/// ```
#[verifier::opaque]
pub open spec fn spec_explicitly_stressed_brivla_core(w: Seq<u8>, q: nat) -> Option<nat>
    decreases rest(w, q), 28nat,
{
    first(
        spec_explicitly_stressed_fuhivla_minimal(w, q),
        first(
            spec_explicitly_stressed_gismu_minimal(w, q),
            first(
                spec_explicitly_stressed_cvv_final_rafsi(w, q),
                match spec_explicitly_stressed_initial_rafsi(w, q) {
                    Some(n1) => match spec_short_final_rafsi(w, q + n1) {
                        Some(n2) => Some(n1 + n2),
                        None => None,
                    },
                    None => None,
                },
            ),
        ),
    )
}

/// Match `explicitly_stressed_brivla_core` at `q`; see [`spec_explicitly_stressed_brivla_core`].
pub fn explicitly_stressed_brivla_core(w: &[u8], q: usize) -> (hit: Option<usize>)
    requires
        q <= w.len(),
    ensures
        matched(hit) == spec_explicitly_stressed_brivla_core(w@, q as nat),
        hit matches Some(len) ==> 0 < len && q + len <= w.len() && starts_plain(
            w@,
            q as nat,
            len as nat,
        ),
    decreases w.len() - q, 28nat,
{
    reveal(spec_explicitly_stressed_brivla_core);
    reveal(spec_explicitly_stressed_fuhivla_minimal);
    reveal(spec_explicitly_stressed_gismu_minimal);
    reveal(spec_explicitly_stressed_cvv_final_rafsi);
    reveal(spec_explicitly_stressed_initial_rafsi);
    reveal(spec_short_final_rafsi);
    let hit = explicitly_stressed_fuhivla_minimal(w, q);
    if hit.is_some() {
        return hit;
    }
    let hit = explicitly_stressed_gismu_minimal(w, q);
    if hit.is_some() {
        return hit;
    }
    let hit = explicitly_stressed_cvv_final_rafsi(w, q);
    if hit.is_some() {
        return hit;
    }
    match explicitly_stressed_initial_rafsi(w, q) {
        Some(n1) => match short_final_rafsi(w, q + n1) {
            Some(n2) => Some(n1 + n2),
            None => None,
        },
        None => None,
    }
}

/// ```text
/// explicitly_stressed_brivla_minimal <- initial_rafsi* explicitly_stressed_brivla_core
/// ```
#[verifier::opaque]
pub open spec fn spec_explicitly_stressed_brivla_minimal(w: Seq<u8>, q: nat) -> Option<nat>
    decreases rest(w, q), 29nat,
{
    let n1: nat = spec_many_initial_rafsi(w, q);
    match spec_explicitly_stressed_brivla_core(w, q + n1) {
        Some(n2) => Some(n1 + n2),
        None => None,
    }
}

/// Match `explicitly_stressed_brivla_minimal` at `q`; see [`spec_explicitly_stressed_brivla_minimal`].
pub fn explicitly_stressed_brivla_minimal(w: &[u8], q: usize) -> (hit: Option<usize>)
    requires
        q <= w.len(),
    ensures
        matched(hit) == spec_explicitly_stressed_brivla_minimal(w@, q as nat),
        hit matches Some(len) ==> 0 < len && q + len <= w.len() && starts_plain(
            w@,
            q as nat,
            len as nat,
        ),
    decreases w.len() - q, 29nat,
{
    reveal(spec_explicitly_stressed_brivla_minimal);
    reveal(spec_many_initial_rafsi);
    reveal(spec_explicitly_stressed_brivla_core);
    let n1: usize = many_initial_rafsi(w, q);
    let n2: usize = explicitly_stressed_brivla_core(w, q + n1)?;
    Some(n1 + n2)
}

/// ```text
/// lujvo <- !gismu !fuhivla !cmavo initial_rafsi* brivla_core
/// ```
#[verifier::opaque]
pub open spec fn spec_lujvo(w: Seq<u8>, q: nat) -> Option<nat>
    decreases rest(w, q), 23nat,
{
    if spec_gismu(w, q) is None
        && spec_fuhivla(w, q) is None
        && spec_cmavo(w, q) is None
    {
        let n1: nat = spec_many_initial_rafsi(w, q);
        match spec_brivla_core(w, q + n1) {
            Some(n2) => Some(n1 + n2),
            None => None,
        }
    } else {
        None
    }
}

/// Match `lujvo` at `q`; see [`spec_lujvo`].
pub fn lujvo(w: &[u8], q: usize) -> (hit: Option<usize>)
    requires
        q <= w.len(),
    ensures
        matched(hit) == spec_lujvo(w@, q as nat),
        hit matches Some(len) ==> 0 < len && q + len <= w.len() && starts_plain(
            w@,
            q as nat,
            len as nat,
        ),
    decreases w.len() - q, 23nat,
{
    reveal(spec_lujvo);
    reveal(spec_gismu);
    reveal(spec_fuhivla);
    reveal(spec_cmavo);
    reveal(spec_many_initial_rafsi);
    reveal(spec_brivla_core);
    if gismu(w, q).is_some() {
        return None;
    }
    if fuhivla(w, q).is_some() {
        return None;
    }
    if cmavo(w, q).is_some() {
        return None;
    }
    let n1: usize = many_initial_rafsi(w, q);
    let n2: usize = brivla_core(w, q + n1)?;
    Some(n1 + n2)
}

/// ```text
/// lujvo_minimal <- initial_rafsi* brivla_core
/// ```
#[verifier::opaque]
pub open spec fn spec_lujvo_minimal(w: Seq<u8>, q: nat) -> Option<nat>
    decreases rest(w, q), 23nat,
{
    let n1: nat = spec_many_initial_rafsi(w, q);
    match spec_brivla_core(w, q + n1) {
        Some(n2) => Some(n1 + n2),
        None => None,
    }
}

/// Match `lujvo_minimal` at `q`; see [`spec_lujvo_minimal`].
pub fn lujvo_minimal(w: &[u8], q: usize) -> (hit: Option<usize>)
    requires
        q <= w.len(),
    ensures
        matched(hit) == spec_lujvo_minimal(w@, q as nat),
        hit matches Some(len) ==> 0 < len && q + len <= w.len() && starts_plain(
            w@,
            q as nat,
            len as nat,
        ),
    decreases w.len() - q, 23nat,
{
    reveal(spec_lujvo_minimal);
    reveal(spec_many_initial_rafsi);
    reveal(spec_brivla_core);
    let n1: usize = many_initial_rafsi(w, q);
    let n2: usize = brivla_core(w, q + n1)?;
    Some(n1 + n2)
}

/// ```text
/// brivla <- gismu / fuhivla / !cmavo lujvo_minimal
/// ```
#[verifier::opaque]
pub open spec fn spec_brivla(w: Seq<u8>, q: nat) -> Option<nat>
    decreases rest(w, q), 24nat,
{
    first(
        spec_gismu(w, q),
        first(
            spec_fuhivla(w, q),
            if spec_cmavo(w, q) is None {
                match spec_lujvo_minimal(w, q) {
                    Some(n1) => Some(n1),
                    None => None,
                }
            } else {
                None
            },
        ),
    )
}

/// Match `brivla` at `q`; see [`spec_brivla`].
pub fn brivla(w: &[u8], q: usize) -> (hit: Option<usize>)
    requires
        q <= w.len(),
    ensures
        matched(hit) == spec_brivla(w@, q as nat),
        hit matches Some(len) ==> 0 < len && q + len <= w.len() && starts_plain(
            w@,
            q as nat,
            len as nat,
        ),
    decreases w.len() - q, 24nat,
{
    reveal(spec_brivla);
    reveal(spec_gismu);
    reveal(spec_fuhivla);
    reveal(spec_cmavo);
    reveal(spec_lujvo_minimal);
    let hit = gismu(w, q);
    if hit.is_some() {
        return hit;
    }
    let hit = fuhivla(w, q);
    if hit.is_some() {
        return hit;
    }
    if cmavo(w, q).is_none() {
        match lujvo_minimal(w, q) {
            Some(n1) => Some(n1),
            None => None,
        }
    } else {
        None
    }
}

/// ```text
/// brivla_minimal <- gismu / fuhivla / lujvo_minimal
/// ```
#[verifier::opaque]
pub open spec fn spec_brivla_minimal(w: Seq<u8>, q: nat) -> Option<nat>
    decreases rest(w, q), 24nat,
{
    first(spec_gismu(w, q), first(spec_fuhivla(w, q), spec_lujvo_minimal(w, q)))
}

/// Match `brivla_minimal` at `q`; see [`spec_brivla_minimal`].
pub fn brivla_minimal(w: &[u8], q: usize) -> (hit: Option<usize>)
    requires
        q <= w.len(),
    ensures
        matched(hit) == spec_brivla_minimal(w@, q as nat),
        hit matches Some(len) ==> 0 < len && q + len <= w.len() && starts_plain(
            w@,
            q as nat,
            len as nat,
        ),
    decreases w.len() - q, 24nat,
{
    reveal(spec_brivla_minimal);
    reveal(spec_gismu);
    reveal(spec_fuhivla);
    reveal(spec_lujvo_minimal);
    let hit = gismu(w, q);
    if hit.is_some() {
        return hit;
    }
    let hit = fuhivla(w, q);
    if hit.is_some() {
        return hit;
    }
    lujvo_minimal(w, q)
}

/// ```text
/// lojban_word <- cmevla / cmavo_semi_minimal / brivla_minimal
/// ```
#[verifier::opaque]
pub open spec fn spec_lojban_word(w: Seq<u8>, q: nat) -> Option<nat>
    decreases rest(w, q), 25nat,
{
    first(
        spec_cmevla(w, q),
        first(spec_cmavo_semi_minimal(w, q), spec_brivla_minimal(w, q)),
    )
}

/// Match `lojban_word` at `q`; see [`spec_lojban_word`].
pub fn lojban_word(w: &[u8], q: usize) -> (hit: Option<usize>)
    requires
        q <= w.len(),
    ensures
        matched(hit) == spec_lojban_word(w@, q as nat),
        hit matches Some(len) ==> 0 < len && q + len <= w.len() && starts_plain(
            w@,
            q as nat,
            len as nat,
        ),
    decreases w.len() - q, 25nat,
{
    reveal(spec_lojban_word);
    reveal(spec_cmevla);
    reveal(spec_cmavo_semi_minimal);
    reveal(spec_brivla_minimal);
    let hit = cmevla(w, q);
    if hit.is_some() {
        return hit;
    }
    let hit = cmavo_semi_minimal(w, q);
    if hit.is_some() {
        return hit;
    }
    brivla_minimal(w, q)
}

/// ```text
/// cmavo <- !cmevla cmavo_semi_minimal
/// ```
#[verifier::opaque]
pub open spec fn spec_cmavo(w: Seq<u8>, q: nat) -> Option<nat>
    decreases rest(w, q), 14nat,
{
    if spec_cmevla(w, q) is None {
        match spec_cmavo_semi_minimal(w, q) {
            Some(n1) => Some(n1),
            None => None,
        }
    } else {
        None
    }
}

/// Match `cmavo` at `q`; see [`spec_cmavo`].
pub fn cmavo(w: &[u8], q: usize) -> (hit: Option<usize>)
    requires
        q <= w.len(),
    ensures
        matched(hit) == spec_cmavo(w@, q as nat),
        hit matches Some(len) ==> 0 < len && q + len <= w.len() && starts_plain(
            w@,
            q as nat,
            len as nat,
        ),
    decreases w.len() - q, 14nat,
{
    reveal(spec_cmavo);
    reveal(spec_cmevla);
    reveal(spec_cmavo_semi_minimal);
    if cmevla(w, q).is_some() {
        return None;
    }
    let n1: usize = cmavo_semi_minimal(w, q)?;
    Some(n1)
}

/// ```text
/// cmavo_minimal <- !cvcy_lujvo cmavo_form
/// ```
#[verifier::opaque]
pub open spec fn spec_cmavo_minimal(w: Seq<u8>, q: nat) -> Option<nat>
    decreases rest(w, q), 12nat,
{
    if spec_cvcy_lujvo(w, q) is None {
        match spec_cmavo_form(w, q) {
            Some(n1) => Some(n1),
            None => None,
        }
    } else {
        None
    }
}

/// Match `cmavo_minimal` at `q`; see [`spec_cmavo_minimal`].
pub fn cmavo_minimal(w: &[u8], q: usize) -> (hit: Option<usize>)
    requires
        q <= w.len(),
    ensures
        matched(hit) == spec_cmavo_minimal(w@, q as nat),
        hit matches Some(len) ==> 0 < len && q + len <= w.len() && starts_plain(
            w@,
            q as nat,
            len as nat,
        ),
    decreases w.len() - q, 12nat,
{
    reveal(spec_cmavo_minimal);
    reveal(spec_cvcy_lujvo);
    reveal(spec_cmavo_form);
    if cvcy_lujvo(w, q).is_some() {
        return None;
    }
    let n1: usize = cmavo_form(w, q)?;
    Some(n1)
}

/// ```text
/// cmavo_semi_minimal <- cmavo_minimal &post_word
/// ```
#[verifier::opaque]
pub open spec fn spec_cmavo_semi_minimal(w: Seq<u8>, q: nat) -> Option<nat>
    decreases rest(w, q), 13nat,
{
    match spec_cmavo_minimal(w, q) {
        Some(n1) => if advanced(w, q, n1) && spec_post_word(w, q + n1) is Some {
            Some(n1)
        } else {
            None
        },
        None => None,
    }
}

/// Match `cmavo_semi_minimal` at `q`; see [`spec_cmavo_semi_minimal`].
pub fn cmavo_semi_minimal(w: &[u8], q: usize) -> (hit: Option<usize>)
    requires
        q <= w.len(),
    ensures
        matched(hit) == spec_cmavo_semi_minimal(w@, q as nat),
        hit matches Some(len) ==> 0 < len && q + len <= w.len() && starts_plain(
            w@,
            q as nat,
            len as nat,
        ),
    decreases w.len() - q, 13nat,
{
    reveal(spec_cmavo_semi_minimal);
    reveal(spec_cmavo_minimal);
    reveal(spec_post_word);
    let n1: usize = cmavo_minimal(w, q)?;
    if post_word(w, q + n1).is_none() {
        return None;
    }
    Some(n1)
}

} // verus!
