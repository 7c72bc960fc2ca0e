use sneturfahi::decompose::decompose;
use sneturfahi::span::Span;

fn words(input: &str) -> Vec<&str> {
    let mut decomposer = decompose(input);
    let mut out = Vec::new();
    while let Some(span) = decomposer.next() {
        out.push(span.slice(input).unwrap());
    }
    assert!(decomposer.next().is_none());
    out
}

fn check(input: &str, expected: &[&str]) {
    assert_eq!(words(input), expected);
}

#[test]
fn decompose_basic() {
    check("gismu", &["gismu"]);
}

#[test]
fn decompose_words() {
    check("gismu ko'a jbofuvi", &["gismu", "ko'a", "jbofuvi"]);
}

#[test]
fn decompose_pauses() {
    check("gismu.ko'a.jbofuvi", &["gismu", "ko'a", "jbofuvi"]);
}

#[test]
fn decompose_whitespace() {
    check("gismu    ko'a     jbofuvi", &["gismu", "ko'a", "jbofuvi"]);
}

#[test]
fn decompose_minajimpe() {
    check("minajimpe", &["mi", "na", "jimpe"]);
}

#[test]
fn decompose_tosmabru() {
    check("tosmabru", &["to", "smabru"]);
}

#[test]
fn decompose_tosmabru2() {
    check("tosymabru", &["tosymabru"]);
}

#[test]
fn decompose_tosmabru3() {
    check("totosymabru", &["to", "tosymabru"]);
}

#[test]
fn decompose_how_many() {
    check("totototosymabru", &["to", "to", "to", "tosymabru"]);
}

#[test]
fn decompose_fuvi() {
    check("fuvi", &["fu", "vi"]);
}

#[test]
fn decompose_sekihu() {
    check("seki'u", &["se", "ki'u"]);
}

#[test]
fn decompose_setese() {
    check("setese", &["se", "te", "se"]);
}

#[test]
fn decompose_selmaho() {
    check("selma'o", &["selma'o"]);
}

#[test]
fn decompose_vowels() {
    check("kiiibroda", &["ki", "ii", "broda"]);
}

#[test]
fn decompose_slinkuhi() {
    check("loslinku'i", &["loslinku'i"]);
}

#[test]
fn decompose_vowel_prefix() {
    check("alobroda", &["a", "lo", "broda"]);
}

#[test]
fn decompose_cmevla_tricky() {
    check("alobrodan", &["alobrodan"]);
}

#[test]
fn decompose_cmevla_tricky2() {
    check("zo alobrodan alobroda zo", &["zo", "alobrodan", "a", "lo", "broda", "zo"]);
}

#[test]
fn decompose_commas() {
    check(",,,m,,,i,,,n,,a,,,j,,,i,,,m,,,p,,,e,,,", &[",,,m,,,i", ",,,n,,a", ",,,j,,,i,,,m,,,p,,,e"]);
}

#[test]
fn decompose_vrudysai() {
    check("coiiiii", &["coi", "ii", "ii"]);
}

#[test]
fn decompose_janbe() {
    check("tanjelavi", &["tanjelavi"]);
}

#[test]
fn decompose_thrig() {
    check("mablabigerku", &["ma", "blabigerku"]);
}

#[test]
fn decompose_stress1_baseline() {
    check("lojboprenu", &["lo", "jboprenu"]);
}

#[test]
fn decompose_stress1_1() {
    check("LOjboPREnu", &["LOjbo", "PREnu"]);
}

#[test]
fn decompose_stress1_2() {
    check("lojboPREnu", &["lo", "jboPREnu"]);
}

#[test]
fn decompose_stress2_baseline() {
    check("mipramido", &["mi", "pramido"]);
}

#[test]
fn decompose_stress2_1() {
    check("miPRAmido", &["mi", "PRAmi", "do"]);
}

#[test]
fn decompose_stress2_2() {
    check("MIpramido", &["MIpra", "mi", "do"]);
}

#[test]
fn decompose_numbers() {
    check("li123", &["li", "1", "2", "3"]);
}

#[test]
fn decompose_numbers1() {
    check("li 123", &["li", "1", "2", "3"]);
}

#[test]
fn decompose_numbers2() {
    check("123moi", &["1", "2", "3", "moi"]);
}

#[test]
fn decompose_yyy() {
    check("yyy", &["yyy"]);
}

#[test]
fn decompose_yyy2() {
    check("mi yyy broda", &["mi", "yyy", "broda"]);
}

#[test]
fn decompose_yyy3() {
    check("mi yyybroda", &["mi", "yyy", "broda"]);
}

#[test]
fn decompose_dont_blow_the_stack() {
    let commas = ", ".repeat(100_000);
    check(&commas, &[]);
}

#[test]
fn decompose_nothing() {
    check("", &[]);
    check(",,,,,", &[]);
    let spaces = " ".repeat(100_000);
    check(&spaces, &[]);
}

#[test]
fn decompose_splits_like_the_condition() {
    check("broda broda.broda!broda", &["broda", "broda", "broda", "broda"]);
    check("a.e?i\to\nu\ry", &["a", "e", "i", "o", "u", "y"]);
}

#[test]
fn decompose_fuhivla() {
    check("mablabigerku", &["ma", "blabigerku"]);
}

#[test]
fn decompose_yields_no_empty_span() {
    let input = "    mi     nelci        lo        canlu   ";
    let mut decomposer = decompose(input);
    while let Some(span) = decomposer.next() {
        assert!(!span.is_empty());
    }
}

#[test]
fn decompose_spans_rise_and_gaps_hold_separators_or_commas() {
    let input = ",,mi,na jimpe. ,,, .alobrodan,, zo,,i ? LOjboPREnu!li123";
    let mut decomposer = decompose(input);
    let mut at = 0usize;
    while let Some(span) = decomposer.next() {
        assert!(at <= span.start as usize);
        assert!(span.start < span.end);
        for byte in input.as_bytes()[at..span.start as usize].iter() {
            assert!(b".\t\n\r?! ,".contains(byte));
        }
        at = span.end as usize;
    }
    for byte in input.as_bytes()[at..].iter() {
        assert!(b".\t\n\r?! ,".contains(byte));
    }
}

#[test]
fn next_no_decomposition_resumes() {
    let input = "minajimpe donajimpe ko'anajimpe";
    let mut decomposer = decompose(input);
    assert_eq!(decomposer.next().unwrap().slice(input).unwrap(), "mi");
    assert_eq!(decomposer.next_no_decomposition().unwrap().slice(input).unwrap(), "najimpe");
    assert_eq!(decomposer.next_no_decomposition().unwrap().slice(input).unwrap(), "donajimpe");
    let mut rest = Vec::new();
    while let Some(span) = decomposer.next() {
        rest.push(span.slice(input).unwrap());
    }
    assert_eq!(rest, ["ko'a", "na", "jimpe"]);
}

#[test]
fn next_no_decomposition_keeps_empty_chunks() {
    let input = "zoi gy   gy";
    let mut decomposer = decompose(input);
    let mut result = Vec::new();
    while let Some(span) = decomposer.next_no_decomposition() {
        result.push(span.slice(input).unwrap());
    }
    assert_eq!(result, ["zoi", "gy", "", "", "gy"]);
}

#[test]
fn decompose_first_span() {
    let mut decomposer = decompose("  mi");
    assert_eq!(decomposer.next(), Some(Span::new(2, 4)));
    assert_eq!(decomposer.next(), None);
    assert_eq!(decomposer.next(), None);
}

#[test]
fn collect_gives_all_words() {
    let input = "zo alobrodan alobroda zo";
    let mut decomposer = decompose(input);
    let all: Vec<&str> =
        decomposer.collect().iter().map(|span| span.slice(input).unwrap()).collect();
    assert_eq!(all, ["zo", "alobrodan", "a", "lo", "broda", "zo"]);
    assert_eq!(decomposer.next(), None);
    assert!(decomposer.collect().is_empty());
    // what is left after the first word
    let mut decomposer = decompose("minajimpe");
    assert_eq!(decomposer.next(), Some(Span::new(0, 2)));
    assert_eq!(decomposer.collect(), [Span::new(2, 4), Span::new(4, 9)]);
}

#[test]
fn words_and_gaps_make_up_the_text() {
    for input in [
        "",
        ",,,",
        "  .mi,na jimpe. ,,, .alobrodan,, zo,,i ? LOjboPREnu!li123  ",
        "\u{e9}t\u{e9} mi \u{e9},, a\u{e9} mi\u{e9}.\u{4e2d}\u{6587}",
        "coi ro do .i mi'e la sneturfa'i",
    ] {
        let words = decompose(input).collect();
        let mut rebuilt = String::new();
        let mut at = 0;
        for word in &words {
            // every word can be cut out of the text
            let text = word.slice(input).unwrap();
            rebuilt += &input[at..word.start as usize];
            rebuilt += text;
            at = word.end as usize;
        }
        rebuilt += &input[at..];
        assert_eq!(rebuilt, input);
    }
}
