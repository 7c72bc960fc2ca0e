use sneturfahi::rules::{
    cmavo_form, cmavo_minimal, cmevla, diphthong, eof, fuhivla, gismu, longest, lujvo_minimal, not,
    nucleus, one_of, opt, peek, succeeded_and_consumed_all, vowel,
};

#[test]
fn test_vowel() {
    let input = ",,,,,a".as_bytes();
    assert!(succeeded_and_consumed_all(vowel(input, 0), input));
}

#[test]
fn test_diphthong() {
    let input = ",,,,,a,,,,i".as_bytes();
    assert!(succeeded_and_consumed_all(diphthong(input, 0), input));
}

#[test]
fn test_yhy_cmavo() {
    assert_eq!(cmavo_form("y'y".as_bytes(), 0), Some(3));
}

#[test]
fn rules_letters_after_commas() {
    assert_eq!(one_of(b",,b", 0, "bB"), Some(3));
    assert_eq!(one_of(b",,b", 1, "bB"), Some(2));
    assert_eq!(one_of(b"B", 0, "bB"), Some(1));
    assert_eq!(one_of(b"c", 0, "bB"), None);
    assert_eq!(one_of(b",,,", 0, "bB"), None);
    assert_eq!(one_of(b"", 0, "bB"), None);
}

#[test]
fn rules_end_and_look_ahead() {
    assert_eq!(eof(b"", 0), Some(0));
    assert_eq!(eof(b"ab", 2), Some(0));
    assert_eq!(eof(b"ab", 1), None);
    assert_eq!(not(Some(3)), None);
    assert_eq!(not(None), Some(0));
    assert_eq!(peek(Some(3)), Some(0));
    assert_eq!(peek(None), None);
    assert_eq!(opt(Some(3)), Some(3));
    assert_eq!(opt(None), Some(0));
    assert_eq!(longest(Some(1), Some(2)), Some(2));
    assert_eq!(longest(Some(2), Some(2)), Some(2));
    assert_eq!(longest(None, Some(2)), Some(2));
    assert_eq!(longest(Some(1), None), Some(1));
    assert_eq!(longest(None, None), None);
}

#[test]
fn rules_words() {
    assert_eq!(gismu(b"nelci", 0), Some(5));
    assert_eq!(gismu(b"nelc", 0), None);
    assert_eq!(cmevla(b"djan", 0), Some(4));
    assert_eq!(cmevla(b"djana", 0), None);
    assert_eq!(cmavo_minimal(b"mi", 0), Some(2));
    assert_eq!(cmavo_minimal(b"minajimpe", 0), Some(2));
    assert_eq!(cmavo_minimal(b"minajimpe", 2), Some(2));
    // a cmavo falls off `jimpe` too: only what follows it tells that it is none
    assert_eq!(cmavo_minimal(b"minajimpe", 4), Some(2));
    assert_eq!(cmavo_minimal(b"broda", 0), None);
    assert_eq!(gismu(b"minajimpe", 4), Some(5));
    assert_eq!(fuhivla(b"blabigerku", 0), Some(10));
    assert_eq!(lujvo_minimal(b"sneturfa'i", 0), Some(10));
    assert_eq!(nucleus(b"ai", 0), Some(2));
    assert_eq!(nucleus(b"a", 0), Some(1));
    assert_eq!(nucleus(b"b", 0), None);
}
