use sneturfahi::lex::selmaho::classify::{find_cmavo, transform_for_direct_cmavo_check};
use sneturfahi::lex::selmaho::Selmaho;

#[test]
fn classify_known_cmavo() {
    assert_eq!(Selmaho::classify("a"), (Selmaho::A, false));
    assert_eq!(Selmaho::classify("e'u'a"), (Selmaho::A, true));
    assert_eq!(Selmaho::classify("mi"), (Selmaho::Koha, false));
    assert_eq!(Selmaho::classify("zo'oi"), (Selmaho::Zohoi, true));
    assert_eq!(Selmaho::classify("fa'o"), (Selmaho::Faho, false));
    assert_eq!(Selmaho::classify("la'oi"), (Selmaho::Zohoi, true));
    assert_eq!(Selmaho::classify("tu'u"), (Selmaho::Tuhu, false));
}

#[test]
fn classify_passes_over_commas_and_reads_h_as_apostrophe() {
    assert_eq!(Selmaho::classify("ko'a"), (Selmaho::Koha, false));
    assert_eq!(Selmaho::classify("koha"), (Selmaho::Koha, false));
    assert_eq!(Selmaho::classify("k,o,',a,"), (Selmaho::Koha, false));
    assert_eq!(Selmaho::classify(",,,m,,,i"), (Selmaho::Koha, false));
}

#[test]
fn classify_numbers_and_hesitation() {
    for digit in ["0", "1", "2", "3", "4", "5", "6", "7", "8", "9"] {
        assert_eq!(Selmaho::classify(digit), (Selmaho::Pa, false));
    }
    assert_eq!(Selmaho::classify("y"), (Selmaho::Y, false));
    assert_eq!(Selmaho::classify("yyy"), (Selmaho::Y, false));
    assert_eq!(Selmaho::classify("yyyyyyyyyyyyyyyy"), (Selmaho::Y, false));
    assert_eq!(Selmaho::classify("y'y"), (Selmaho::By, false));
}

#[test]
fn classify_by_form() {
    assert_eq!(Selmaho::classify("nelci"), (Selmaho::Gismu, false));
    assert_eq!(Selmaho::classify("sneturfa'i"), (Selmaho::Lujvo, false));
    assert_eq!(Selmaho::classify("blabigerku"), (Selmaho::Fuhivla, false));
    assert_eq!(Selmaho::classify("alobrodan"), (Selmaho::Cmevla, false));
    assert_eq!(Selmaho::classify("djan"), (Selmaho::Cmevla, false));
    assert_eq!(Selmaho::classify("xa'a'a"), (Selmaho::UnknownCmavo, true));
}

#[test]
fn classify_any_text() {
    assert_eq!(Selmaho::classify("hello"), (Selmaho::AnyText, false));
    assert_eq!(Selmaho::classify(""), (Selmaho::AnyText, false));
    assert_eq!(Selmaho::classify(",,,"), (Selmaho::AnyText, false));
    assert_eq!(Selmaho::classify("world"), (Selmaho::AnyText, false));
    assert_eq!(Selmaho::classify("\u{e9}t\u{e9}"), (Selmaho::AnyText, false));
}

#[test]
fn classify_spelling_longer_than_the_table_takes() {
    // known to the table, but too long to be looked up in it
    assert_eq!(Selmaho::classify("fa'u'u'u'u'u'u'u'u"), (Selmaho::UnknownCmavo, true));
}

#[test]
fn direct_form() {
    assert_eq!(transform_for_direct_cmavo_check(b"k,oh,a"), Some(b"ko'a".to_vec()));
    assert_eq!(transform_for_direct_cmavo_check(b""), Some(Vec::new()));
    assert_eq!(transform_for_direct_cmavo_check(b"0123456789abcdef"), Some(b"0123456789abcdef".to_vec()));
    assert_eq!(transform_for_direct_cmavo_check(b"0123456789abcdefg"), None);
    assert_eq!(transform_for_direct_cmavo_check(b",0123456789,abcdef,"), Some(b"0123456789abcdef".to_vec()));
}

#[test]
fn table_lookup() {
    assert_eq!(find_cmavo(b"zoi"), Some((Selmaho::Zoi, false)));
    assert_eq!(find_cmavo(b"la'o"), Some((Selmaho::Zoi, false)));
    assert_eq!(find_cmavo(b"so'e'ai"), Some((Selmaho::Sohehai, false)));
    assert_eq!(find_cmavo(b"zoh"), None);
    assert_eq!(find_cmavo(b""), None);
    assert_eq!(find_cmavo(b"nelci"), None);
}

#[test]
fn fundamentally_experimental() {
    assert!(!Selmaho::A.is_fundamentally_experimental());
    assert!(Selmaho::Xahoihahoiha.is_fundamentally_experimental());
    assert!(!Selmaho::Gismu.is_fundamentally_experimental());
    assert!(!Selmaho::ZoiDelimiter.is_fundamentally_experimental());
    assert!(Selmaho::UnknownCmavo.is_fundamentally_experimental());
    assert!(!Selmaho::AnyText.is_fundamentally_experimental());
    assert!(Selmaho::Sohehai.is_fundamentally_experimental());
}

#[test]
fn experimental_selmaho_marks_word() {
    assert_eq!(Selmaho::classify("so'e'ai"), (Selmaho::Sohehai, true));
    assert_eq!(Selmaho::classify("me'oi"), (Selmaho::Mehoi, true));
}
