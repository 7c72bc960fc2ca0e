//! The table of known cmavo, and the classification of single words.

use vstd::prelude::*;
use vstd::string::StringSliceAdditionalSpecFns;

use super::Selmaho;
use crate::rules::{
    cmavo_minimal, cmevla, consumes_all, fuhivla, gismu, lujvo_minimal, spec_cmavo_minimal,
    spec_cmevla, spec_fuhivla, spec_gismu, spec_lujvo_minimal, succeeded_and_consumed_all,
};

verus! {

/// Whether `key` is exactly the text of `word`.
pub open spec fn is_word(key: Seq<u8>, word: &str) -> bool {
    key == word.spec_bytes()
}

/// Whether `key` is a run of one or more `y`.
pub open spec fn all_y(key: Seq<u8>) -> bool {
    key.len() > 0 && forall|i: int| 0 <= i < key.len() ==> key[i] == 0x79
}

fn same_bytes(left: &[u8], right: &[u8]) -> (same: bool)
    ensures
        same == (left@ == right@),
{
    if left.len() != right.len() {
        return false;
    }
    let mut at: usize = 0;
    while at < left.len()
        invariant
            left@.len() == right@.len(),
            at <= left@.len(),
            forall|i: int| 0 <= i < at ==> left@[i] == right@[i],
        decreases left@.len() - at,
    {
        if left[at] != right[at] {
            return false;
        }
        at += 1;
    }
    assert(left@ =~= right@);
    true
}

fn word_is(key: &[u8], word: &str) -> (same: bool)
    ensures
        same == is_word(key@, word),
{
    same_bytes(key, word.as_bytes())
}

fn only_y(key: &[u8]) -> (yes: bool)
    ensures
        yes == all_y(key@),
{
    if key.len() == 0 {
        return false;
    }
    let mut at: usize = 0;
    while at < key.len()
        invariant
            at <= key@.len(),
            forall|i: int| 0 <= i < at ==> key@[i] == 0x79,
        decreases key@.len() - at,
    {
        if key[at] != 0x79 {
            return false;
        }
        at += 1;
    }
    true
}

/// The known cmavo from those of A to those of Bai.
pub open spec fn known_a_to_bai(key: Seq<u8>) -> Option<(Selmaho, bool)> {
    if is_word(key, "a") || is_word(key, "e") || is_word(key, "ji") || is_word(key, "o")
        || is_word(key, "u")
    {
        Some((Selmaho::A, false))
    } else if is_word(key, "e'u'a") || is_word(key, "i'a'a") {
        Some((Selmaho::A, true))
    } else if is_word(key, "ba'i") || is_word(key, "bai") || is_word(key, "bau")
        || is_word(key, "be'i") || is_word(key, "ca'i") || is_word(key, "cau")
        || is_word(key, "ci'e") || is_word(key, "ci'o") || is_word(key, "ci'u")
        || is_word(key, "cu'u") || is_word(key, "de'i") || is_word(key, "di'o")
        || is_word(key, "do'e") || is_word(key, "du'i") || is_word(key, "du'o")
        || is_word(key, "fa'e") || is_word(key, "fi'e") || is_word(key, "ga'a")
        || is_word(key, "gau") || is_word(key, "ja'e") || is_word(key, "ji'e")
        || is_word(key, "ji'o") || is_word(key, "ji'u") || is_word(key, "ka'a")
        || is_word(key, "ka'i") || is_word(key, "kai") || is_word(key, "ki'i")
        || is_word(key, "ki'u") || is_word(key, "koi") || is_word(key, "ku'u")
        || is_word(key, "la'u") || is_word(key, "le'a") || is_word(key, "li'e")
        || is_word(key, "ma'e") || is_word(key, "ma'i") || is_word(key, "mau")
        || is_word(key, "me'a") || is_word(key, "me'e") || is_word(key, "mu'i")
        || is_word(key, "mu'u") || is_word(key, "ni'i") || is_word(key, "pa'a")
        || is_word(key, "pa'u") || is_word(key, "pi'o") || is_word(key, "pu'a")
        || is_word(key, "pu'e") || is_word(key, "ra'a") || is_word(key, "ra'i")
        || is_word(key, "rai") || is_word(key, "ri'a") || is_word(key, "ri'i")
        || is_word(key, "sau") || is_word(key, "si'u") || is_word(key, "ta'i")
        || is_word(key, "tai") || is_word(key, "ti'i") || is_word(key, "ti'u")
        || is_word(key, "tu'i") || is_word(key, "va'o") || is_word(key, "va'u")
        || is_word(key, "zau") || is_word(key, "zu'e")
    {
        Some((Selmaho::Bai, false))
    } else {
        None
    }
}

fn find_a_to_bai(key: &[u8]) -> (found: Option<(Selmaho, bool)>)
    ensures
        found == known_a_to_bai(key@),
{
    if word_is(key, "a") || word_is(key, "e") || word_is(key, "ji") || word_is(key, "o")
        || word_is(key, "u")
    {
        Some((Selmaho::A, false))
    } else if word_is(key, "e'u'a") || word_is(key, "i'a'a") {
        Some((Selmaho::A, true))
    } else if word_is(key, "ba'i") || word_is(key, "bai") || word_is(key, "bau")
        || word_is(key, "be'i") || word_is(key, "ca'i") || word_is(key, "cau")
        || word_is(key, "ci'e") || word_is(key, "ci'o") || word_is(key, "ci'u")
        || word_is(key, "cu'u") || word_is(key, "de'i") || word_is(key, "di'o")
        || word_is(key, "do'e") || word_is(key, "du'i") || word_is(key, "du'o")
        || word_is(key, "fa'e") || word_is(key, "fi'e") || word_is(key, "ga'a")
        || word_is(key, "gau") || word_is(key, "ja'e") || word_is(key, "ji'e")
        || word_is(key, "ji'o") || word_is(key, "ji'u") || word_is(key, "ka'a")
        || word_is(key, "ka'i") || word_is(key, "kai") || word_is(key, "ki'i")
        || word_is(key, "ki'u") || word_is(key, "koi") || word_is(key, "ku'u")
        || word_is(key, "la'u") || word_is(key, "le'a") || word_is(key, "li'e")
        || word_is(key, "ma'e") || word_is(key, "ma'i") || word_is(key, "mau")
        || word_is(key, "me'a") || word_is(key, "me'e") || word_is(key, "mu'i")
        || word_is(key, "mu'u") || word_is(key, "ni'i") || word_is(key, "pa'a")
        || word_is(key, "pa'u") || word_is(key, "pi'o") || word_is(key, "pu'a")
        || word_is(key, "pu'e") || word_is(key, "ra'a") || word_is(key, "ra'i")
        || word_is(key, "rai") || word_is(key, "ri'a") || word_is(key, "ri'i")
        || word_is(key, "sau") || word_is(key, "si'u") || word_is(key, "ta'i")
        || word_is(key, "tai") || word_is(key, "ti'i") || word_is(key, "ti'u")
        || word_is(key, "tu'i") || word_is(key, "va'o") || word_is(key, "va'u")
        || word_is(key, "zau") || word_is(key, "zu'e")
    {
        Some((Selmaho::Bai, false))
    } else {
        None
    }
}

/// The known cmavo from those of Bai to those of Cai.
pub open spec fn known_bai_to_cai(key: Seq<u8>) -> Option<(Selmaho, bool)> {
    if is_word(key, "be'ei") || is_word(key, "da'ai'a") || is_word(key, "de'i'a")
        || is_word(key, "de'i'e") || is_word(key, "de'i'i") || is_word(key, "de'i'o")
        || is_word(key, "de'i'u") || is_word(key, "fi'ei") || is_word(key, "gai'i")
        || is_word(key, "ja'u") || is_word(key, "ka'ai") || is_word(key, "kai'ai")
        || is_word(key, "ki'oi") || is_word(key, "ko'au") || is_word(key, "ku'ai")
        || is_word(key, "li'i'e") || is_word(key, "mu'ai") || is_word(key, "mu'e'ei")
        || is_word(key, "nai'i") || is_word(key, "nu'ai") || is_word(key, "pau'u")
        || is_word(key, "po'a") || is_word(key, "pu'ai") || is_word(key, "te'a'a")
        || is_word(key, "te'i") || is_word(key, "ti'u'a") || is_word(key, "ti'u'e")
        || is_word(key, "ti'u'i") || is_word(key, "xau")
    {
        Some((Selmaho::Bai, true))
    } else if is_word(key, "ba'e") || is_word(key, "za'e") || is_word(key, "ci'a") {
        Some((Selmaho::Bahe, false))
    } else if is_word(key, "pe'ei") || is_word(key, "zai'e") || is_word(key, "zei'e") {
        Some((Selmaho::Bahe, true))
    } else if is_word(key, "be") {
        Some((Selmaho::Be, false))
    } else if is_word(key, "bei") {
        Some((Selmaho::Bei, false))
    } else if is_word(key, "be'o") {
        Some((Selmaho::Beho, false))
    } else if is_word(key, "bi'e") {
        Some((Selmaho::Bihe, false))
    } else if is_word(key, "bi'i") || is_word(key, "bi'o") || is_word(key, "mi'i") {
        Some((Selmaho::Bihi, false))
    } else if is_word(key, "bo") {
        Some((Selmaho::Bo, false))
    } else if is_word(key, "boi") {
        Some((Selmaho::Boi, false))
    } else if is_word(key, "boi'e'u") {
        Some((Selmaho::Boi, true))
    } else if is_word(key, "bu") {
        Some((Selmaho::Bu, false))
    } else if is_word(key, "by") || is_word(key, "cy") || is_word(key, "dy") || is_word(key, "fy")
        || is_word(key, "ga'e") || is_word(key, "ge'o") || is_word(key, "gy")
        || is_word(key, "je'o") || is_word(key, "jo'o") || is_word(key, "jy")
        || is_word(key, "ky") || is_word(key, "lo'a") || is_word(key, "ly")
        || is_word(key, "my") || is_word(key, "na'a") || is_word(key, "ny")
        || is_word(key, "py") || is_word(key, "ru'o") || is_word(key, "ry")
        || is_word(key, "se'e") || is_word(key, "sy") || is_word(key, "to'a")
        || is_word(key, "ty") || is_word(key, "vy") || is_word(key, "xy")
        || is_word(key, "y'y") || is_word(key, "zy")
    {
        Some((Selmaho::By, false))
    } else if is_word(key, "bu'o'e") || is_word(key, "e'y") || is_word(key, "i'y")
        || is_word(key, "iy") || is_word(key, "iy'y") || is_word(key, "o'y")
        || is_word(key, "u'y") || is_word(key, "uy") || is_word(key, "jo'au'o")
        || is_word(key, "ro'au'o")
    {
        Some((Selmaho::By, true))
    } else if is_word(key, "cai") || is_word(key, "cu'i") || is_word(key, "pei")
        || is_word(key, "ru'e") || is_word(key, "sai")
    {
        Some((Selmaho::Cai, false))
    } else {
        None
    }
}

fn find_bai_to_cai(key: &[u8]) -> (found: Option<(Selmaho, bool)>)
    ensures
        found == known_bai_to_cai(key@),
{
    if word_is(key, "be'ei") || word_is(key, "da'ai'a") || word_is(key, "de'i'a")
        || word_is(key, "de'i'e") || word_is(key, "de'i'i") || word_is(key, "de'i'o")
        || word_is(key, "de'i'u") || word_is(key, "fi'ei") || word_is(key, "gai'i")
        || word_is(key, "ja'u") || word_is(key, "ka'ai") || word_is(key, "kai'ai")
        || word_is(key, "ki'oi") || word_is(key, "ko'au") || word_is(key, "ku'ai")
        || word_is(key, "li'i'e") || word_is(key, "mu'ai") || word_is(key, "mu'e'ei")
        || word_is(key, "nai'i") || word_is(key, "nu'ai") || word_is(key, "pau'u")
        || word_is(key, "po'a") || word_is(key, "pu'ai") || word_is(key, "te'a'a")
        || word_is(key, "te'i") || word_is(key, "ti'u'a") || word_is(key, "ti'u'e")
        || word_is(key, "ti'u'i") || word_is(key, "xau")
    {
        Some((Selmaho::Bai, true))
    } else if word_is(key, "ba'e") || word_is(key, "za'e") || word_is(key, "ci'a") {
        Some((Selmaho::Bahe, false))
    } else if word_is(key, "pe'ei") || word_is(key, "zai'e") || word_is(key, "zei'e") {
        Some((Selmaho::Bahe, true))
    } else if word_is(key, "be") {
        Some((Selmaho::Be, false))
    } else if word_is(key, "bei") {
        Some((Selmaho::Bei, false))
    } else if word_is(key, "be'o") {
        Some((Selmaho::Beho, false))
    } else if word_is(key, "bi'e") {
        Some((Selmaho::Bihe, false))
    } else if word_is(key, "bi'i") || word_is(key, "bi'o") || word_is(key, "mi'i") {
        Some((Selmaho::Bihi, false))
    } else if word_is(key, "bo") {
        Some((Selmaho::Bo, false))
    } else if word_is(key, "boi") {
        Some((Selmaho::Boi, false))
    } else if word_is(key, "boi'e'u") {
        Some((Selmaho::Boi, true))
    } else if word_is(key, "bu") {
        Some((Selmaho::Bu, false))
    } else if word_is(key, "by") || word_is(key, "cy") || word_is(key, "dy") || word_is(key, "fy")
        || word_is(key, "ga'e") || word_is(key, "ge'o") || word_is(key, "gy")
        || word_is(key, "je'o") || word_is(key, "jo'o") || word_is(key, "jy")
        || word_is(key, "ky") || word_is(key, "lo'a") || word_is(key, "ly")
        || word_is(key, "my") || word_is(key, "na'a") || word_is(key, "ny")
        || word_is(key, "py") || word_is(key, "ru'o") || word_is(key, "ry")
        || word_is(key, "se'e") || word_is(key, "sy") || word_is(key, "to'a")
        || word_is(key, "ty") || word_is(key, "vy") || word_is(key, "xy")
        || word_is(key, "y'y") || word_is(key, "zy")
    {
        Some((Selmaho::By, false))
    } else if word_is(key, "bu'o'e") || word_is(key, "e'y") || word_is(key, "i'y")
        || word_is(key, "iy") || word_is(key, "iy'y") || word_is(key, "o'y")
        || word_is(key, "u'y") || word_is(key, "uy") || word_is(key, "jo'au'o")
        || word_is(key, "ro'au'o")
    {
        Some((Selmaho::By, true))
    } else if word_is(key, "cai") || word_is(key, "cu'i") || word_is(key, "pei")
        || word_is(key, "ru'e") || word_is(key, "sai")
    {
        Some((Selmaho::Cai, false))
    } else {
        None
    }
}

/// The known cmavo from those of Cai to those of Fa.
pub open spec fn known_cai_to_fa(key: Seq<u8>) -> Option<(Selmaho, bool)> {
    if is_word(key, "cau'i") || is_word(key, "dai'i") || is_word(key, "na'oi")
        || is_word(key, "ni'au") || is_word(key, "pei'a") || is_word(key, "dau'i")
        || is_word(key, "mau'i") || is_word(key, "me'ai")
    {
        Some((Selmaho::Cai, true))
    } else if is_word(key, "ca'a") || is_word(key, "ka'e") || is_word(key, "nu'o")
        || is_word(key, "pu'i")
    {
        Some((Selmaho::Caha, false))
    } else if is_word(key, "bi'ai") {
        Some((Selmaho::Caha, true))
    } else if is_word(key, "cei") {
        Some((Selmaho::Cei, false))
    } else if is_word(key, "ce'e") {
        Some((Selmaho::Cehe, false))
    } else if is_word(key, "co") {
        Some((Selmaho::Co, false))
    } else if is_word(key, "co'ai'e") || is_word(key, "co'au'e") || is_word(key, "co'o'e") {
        Some((Selmaho::Co, true))
    } else if is_word(key, "be'e") || is_word(key, "coi") || is_word(key, "co'o")
        || is_word(key, "fe'o") || is_word(key, "fi'i") || is_word(key, "je'e")
        || is_word(key, "ju'i") || is_word(key, "ke'o") || is_word(key, "ki'e")
        || is_word(key, "mi'e") || is_word(key, "mu'o") || is_word(key, "nu'e")
        || is_word(key, "pe'u") || is_word(key, "re'i") || is_word(key, "ta'a")
        || is_word(key, "vi'o")
    {
        Some((Selmaho::Coi, false))
    } else if is_word(key, "a'oi") || is_word(key, "bu'oi") || is_word(key, "co'oi")
        || is_word(key, "de'a'ai") || is_word(key, "di'a'ai") || is_word(key, "di'ai")
        || is_word(key, "doi'oi") || is_word(key, "fau'u") || is_word(key, "fe'oi")
        || is_word(key, "fi'i'e") || is_word(key, "ke'o'a") || is_word(key, "ke'o'o")
        || is_word(key, "ke'o'u") || is_word(key, "ku'au'i") || is_word(key, "ku'o'e'a")
        || is_word(key, "o'ai") || is_word(key, "sau'ei") || is_word(key, "sau'e'u")
        || is_word(key, "sei'ai") || is_word(key, "sei'u") || is_word(key, "te'ei")
        || is_word(key, "ve'ei") || is_word(key, "xu'e") || is_word(key, "zau'e")
        || is_word(key, "ci'oi") || is_word(key, "go'au") || is_word(key, "goi'e")
        || is_word(key, "jo'au") || is_word(key, "ki'ai") || is_word(key, "sa'ei")
        || is_word(key, "tai'i")
    {
        Some((Selmaho::Coi, true))
    } else if is_word(key, "cu") {
        Some((Selmaho::Cu, false))
    } else if is_word(key, "cu'e") || is_word(key, "nau") {
        Some((Selmaho::Cuhe, false))
    } else if is_word(key, "ba'au") || is_word(key, "pu'au") {
        Some((Selmaho::Cuhe, true))
    } else if is_word(key, "da'o") {
        Some((Selmaho::Daho, false))
    } else if is_word(key, "dai'o") || is_word(key, "do'ai") || is_word(key, "xei'a")
        || is_word(key, "xei'i") || is_word(key, "xei'u")
    {
        Some((Selmaho::Daho, true))
    } else if is_word(key, "doi") {
        Some((Selmaho::Doi, false))
    } else if is_word(key, "ve'ai") || is_word(key, "da'ei") || is_word(key, "da'oi") {
        Some((Selmaho::Doi, true))
    } else if is_word(key, "do'u") {
        Some((Selmaho::Dohu, false))
    } else if is_word(key, "fa") || is_word(key, "fai") || is_word(key, "fe") || is_word(key, "fi")
        || is_word(key, "fi'a") || is_word(key, "fo") || is_word(key, "fu")
    {
        Some((Selmaho::Fa, false))
    } else {
        None
    }
}

fn find_cai_to_fa(key: &[u8]) -> (found: Option<(Selmaho, bool)>)
    ensures
        found == known_cai_to_fa(key@),
{
    if word_is(key, "cau'i") || word_is(key, "dai'i") || word_is(key, "na'oi")
        || word_is(key, "ni'au") || word_is(key, "pei'a") || word_is(key, "dau'i")
        || word_is(key, "mau'i") || word_is(key, "me'ai")
    {
        Some((Selmaho::Cai, true))
    } else if word_is(key, "ca'a") || word_is(key, "ka'e") || word_is(key, "nu'o")
        || word_is(key, "pu'i")
    {
        Some((Selmaho::Caha, false))
    } else if word_is(key, "bi'ai") {
        Some((Selmaho::Caha, true))
    } else if word_is(key, "cei") {
        Some((Selmaho::Cei, false))
    } else if word_is(key, "ce'e") {
        Some((Selmaho::Cehe, false))
    } else if word_is(key, "co") {
        Some((Selmaho::Co, false))
    } else if word_is(key, "co'ai'e") || word_is(key, "co'au'e") || word_is(key, "co'o'e") {
        Some((Selmaho::Co, true))
    } else if word_is(key, "be'e") || word_is(key, "coi") || word_is(key, "co'o")
        || word_is(key, "fe'o") || word_is(key, "fi'i") || word_is(key, "je'e")
        || word_is(key, "ju'i") || word_is(key, "ke'o") || word_is(key, "ki'e")
        || word_is(key, "mi'e") || word_is(key, "mu'o") || word_is(key, "nu'e")
        || word_is(key, "pe'u") || word_is(key, "re'i") || word_is(key, "ta'a")
        || word_is(key, "vi'o")
    {
        Some((Selmaho::Coi, false))
    } else if word_is(key, "a'oi") || word_is(key, "bu'oi") || word_is(key, "co'oi")
        || word_is(key, "de'a'ai") || word_is(key, "di'a'ai") || word_is(key, "di'ai")
        || word_is(key, "doi'oi") || word_is(key, "fau'u") || word_is(key, "fe'oi")
        || word_is(key, "fi'i'e") || word_is(key, "ke'o'a") || word_is(key, "ke'o'o")
        || word_is(key, "ke'o'u") || word_is(key, "ku'au'i") || word_is(key, "ku'o'e'a")
        || word_is(key, "o'ai") || word_is(key, "sau'ei") || word_is(key, "sau'e'u")
        || word_is(key, "sei'ai") || word_is(key, "sei'u") || word_is(key, "te'ei")
        || word_is(key, "ve'ei") || word_is(key, "xu'e") || word_is(key, "zau'e")
        || word_is(key, "ci'oi") || word_is(key, "go'au") || word_is(key, "goi'e")
        || word_is(key, "jo'au") || word_is(key, "ki'ai") || word_is(key, "sa'ei")
        || word_is(key, "tai'i")
    {
        Some((Selmaho::Coi, true))
    } else if word_is(key, "cu") {
        Some((Selmaho::Cu, false))
    } else if word_is(key, "cu'e") || word_is(key, "nau") {
        Some((Selmaho::Cuhe, false))
    } else if word_is(key, "ba'au") || word_is(key, "pu'au") {
        Some((Selmaho::Cuhe, true))
    } else if word_is(key, "da'o") {
        Some((Selmaho::Daho, false))
    } else if word_is(key, "dai'o") || word_is(key, "do'ai") || word_is(key, "xei'a")
        || word_is(key, "xei'i") || word_is(key, "xei'u")
    {
        Some((Selmaho::Daho, true))
    } else if word_is(key, "doi") {
        Some((Selmaho::Doi, false))
    } else if word_is(key, "ve'ai") || word_is(key, "da'ei") || word_is(key, "da'oi") {
        Some((Selmaho::Doi, true))
    } else if word_is(key, "do'u") {
        Some((Selmaho::Dohu, false))
    } else if word_is(key, "fa") || word_is(key, "fai") || word_is(key, "fe") || word_is(key, "fi")
        || word_is(key, "fi'a") || word_is(key, "fo") || word_is(key, "fu")
    {
        Some((Selmaho::Fa, false))
    } else {
        None
    }
}

/// The known cmavo from those of Fa to those of Goha.
pub open spec fn known_fa_to_goha(key: Seq<u8>) -> Option<(Selmaho, bool)> {
    if is_word(key, "fai'i") || is_word(key, "fa'au'u") || is_word(key, "zoi'u") {
        Some((Selmaho::Fa, true))
    } else if is_word(key, "be'a") || is_word(key, "vu'a") || is_word(key, "du'a")
        || is_word(key, "ne'u") || is_word(key, "ru'u") || is_word(key, "ri'u")
        || is_word(key, "ti'a") || is_word(key, "ga'u") || is_word(key, "ca'u")
        || is_word(key, "ni'a") || is_word(key, "zu'a") || is_word(key, "re'o")
        || is_word(key, "te'e") || is_word(key, "bu'u") || is_word(key, "ne'a")
        || is_word(key, "ne'i") || is_word(key, "pa'o") || is_word(key, "to'o")
        || is_word(key, "fa'a") || is_word(key, "ze'o") || is_word(key, "zo'a")
        || is_word(key, "zo'i")
    {
        Some((Selmaho::Faha, false))
    } else if is_word(key, "bau'u") || is_word(key, "gau'o") || is_word(key, "du'oi")
        || is_word(key, "zu'au")
    {
        Some((Selmaho::Faha, true))
    } else if is_word(key, "fa'o") {
        Some((Selmaho::Faho, false))
    } else if is_word(key, "fa'u'u'u'u'u'u'u'u") || is_word(key, "to'au") {
        Some((Selmaho::Faho, true))
    } else if is_word(key, "fe'e") {
        Some((Selmaho::Fehe, false))
    } else if is_word(key, "fe'u") {
        Some((Selmaho::Fehu, false))
    } else if is_word(key, "fi'o") {
        Some((Selmaho::Fiho, false))
    } else if is_word(key, "foi") {
        Some((Selmaho::Foi, false))
    } else if is_word(key, "fu'a") {
        Some((Selmaho::Fuha, false))
    } else if is_word(key, "fu'e") {
        Some((Selmaho::Fuhe, false))
    } else if is_word(key, "fu'ei") {
        Some((Selmaho::Fuhe, true))
    } else if is_word(key, "fu'o") {
        Some((Selmaho::Fuho, false))
    } else if is_word(key, "ga") || is_word(key, "ge") || is_word(key, "ge'i") || is_word(key, "go")
        || is_word(key, "gu")
    {
        Some((Selmaho::Ga, false))
    } else if is_word(key, "ge'u'a") || is_word(key, "gi'a'a") {
        Some((Selmaho::Ga, true))
    } else if is_word(key, "ga'o") || is_word(key, "ke'i") {
        Some((Selmaho::Gaho, false))
    } else if is_word(key, "xai'u'oi") || is_word(key, "xoi'u'oi") || is_word(key, "ma'a'u'oi")
        || is_word(key, "xau'u'oi") || is_word(key, "xei'u'oi")
    {
        Some((Selmaho::Gaho, true))
    } else if is_word(key, "ge'u") {
        Some((Selmaho::Gehu, false))
    } else if is_word(key, "gi") {
        Some((Selmaho::Gi, false))
    } else if is_word(key, "gi'a") || is_word(key, "gi'e") || is_word(key, "gi'i")
        || is_word(key, "gi'o") || is_word(key, "gi'u")
    {
        Some((Selmaho::Giha, false))
    } else if is_word(key, "gi'e'u'a") || is_word(key, "gi'i'a'a") {
        Some((Selmaho::Giha, true))
    } else if is_word(key, "goi") || is_word(key, "po") || is_word(key, "po'e")
        || is_word(key, "po'u") || is_word(key, "ne") || is_word(key, "no'u")
        || is_word(key, "pe")
    {
        Some((Selmaho::Goi, false))
    } else if is_word(key, "voi'e") {
        Some((Selmaho::Goi, true))
    } else if is_word(key, "go'a") || is_word(key, "go'e") || is_word(key, "go'i")
        || is_word(key, "go'o") || is_word(key, "go'u") || is_word(key, "bu'a")
        || is_word(key, "bu'e") || is_word(key, "bu'i") || is_word(key, "co'e")
        || is_word(key, "du") || is_word(key, "mo") || is_word(key, "nei")
        || is_word(key, "no'a")
    {
        Some((Selmaho::Goha, false))
    } else if is_word(key, "gai'o") || is_word(key, "gi'o'i") || is_word(key, "go'ai")
        || is_word(key, "ku'ai'i") || is_word(key, "cei'i") || is_word(key, "xe'u")
    {
        Some((Selmaho::Goha, true))
    } else {
        None
    }
}

fn find_fa_to_goha(key: &[u8]) -> (found: Option<(Selmaho, bool)>)
    ensures
        found == known_fa_to_goha(key@),
{
    if word_is(key, "fai'i") || word_is(key, "fa'au'u") || word_is(key, "zoi'u") {
        Some((Selmaho::Fa, true))
    } else if word_is(key, "be'a") || word_is(key, "vu'a") || word_is(key, "du'a")
        || word_is(key, "ne'u") || word_is(key, "ru'u") || word_is(key, "ri'u")
        || word_is(key, "ti'a") || word_is(key, "ga'u") || word_is(key, "ca'u")
        || word_is(key, "ni'a") || word_is(key, "zu'a") || word_is(key, "re'o")
        || word_is(key, "te'e") || word_is(key, "bu'u") || word_is(key, "ne'a")
        || word_is(key, "ne'i") || word_is(key, "pa'o") || word_is(key, "to'o")
        || word_is(key, "fa'a") || word_is(key, "ze'o") || word_is(key, "zo'a")
        || word_is(key, "zo'i")
    {
        Some((Selmaho::Faha, false))
    } else if word_is(key, "bau'u") || word_is(key, "gau'o") || word_is(key, "du'oi")
        || word_is(key, "zu'au")
    {
        Some((Selmaho::Faha, true))
    } else if word_is(key, "fa'o") {
        Some((Selmaho::Faho, false))
    } else if word_is(key, "fa'u'u'u'u'u'u'u'u") || word_is(key, "to'au") {
        Some((Selmaho::Faho, true))
    } else if word_is(key, "fe'e") {
        Some((Selmaho::Fehe, false))
    } else if word_is(key, "fe'u") {
        Some((Selmaho::Fehu, false))
    } else if word_is(key, "fi'o") {
        Some((Selmaho::Fiho, false))
    } else if word_is(key, "foi") {
        Some((Selmaho::Foi, false))
    } else if word_is(key, "fu'a") {
        Some((Selmaho::Fuha, false))
    } else if word_is(key, "fu'e") {
        Some((Selmaho::Fuhe, false))
    } else if word_is(key, "fu'ei") {
        Some((Selmaho::Fuhe, true))
    } else if word_is(key, "fu'o") {
        Some((Selmaho::Fuho, false))
    } else if word_is(key, "ga") || word_is(key, "ge") || word_is(key, "ge'i") || word_is(key, "go")
        || word_is(key, "gu")
    {
        Some((Selmaho::Ga, false))
    } else if word_is(key, "ge'u'a") || word_is(key, "gi'a'a") {
        Some((Selmaho::Ga, true))
    } else if word_is(key, "ga'o") || word_is(key, "ke'i") {
        Some((Selmaho::Gaho, false))
    } else if word_is(key, "xai'u'oi") || word_is(key, "xoi'u'oi") || word_is(key, "ma'a'u'oi")
        || word_is(key, "xau'u'oi") || word_is(key, "xei'u'oi")
    {
        Some((Selmaho::Gaho, true))
    } else if word_is(key, "ge'u") {
        Some((Selmaho::Gehu, false))
    } else if word_is(key, "gi") {
        Some((Selmaho::Gi, false))
    } else if word_is(key, "gi'a") || word_is(key, "gi'e") || word_is(key, "gi'i")
        || word_is(key, "gi'o") || word_is(key, "gi'u")
    {
        Some((Selmaho::Giha, false))
    } else if word_is(key, "gi'e'u'a") || word_is(key, "gi'i'a'a") {
        Some((Selmaho::Giha, true))
    } else if word_is(key, "goi") || word_is(key, "po") || word_is(key, "po'e")
        || word_is(key, "po'u") || word_is(key, "ne") || word_is(key, "no'u")
        || word_is(key, "pe")
    {
        Some((Selmaho::Goi, false))
    } else if word_is(key, "voi'e") {
        Some((Selmaho::Goi, true))
    } else if word_is(key, "go'a") || word_is(key, "go'e") || word_is(key, "go'i")
        || word_is(key, "go'o") || word_is(key, "go'u") || word_is(key, "bu'a")
        || word_is(key, "bu'e") || word_is(key, "bu'i") || word_is(key, "co'e")
        || word_is(key, "du") || word_is(key, "mo") || word_is(key, "nei")
        || word_is(key, "no'a")
    {
        Some((Selmaho::Goha, false))
    } else if word_is(key, "gai'o") || word_is(key, "gi'o'i") || word_is(key, "go'ai")
        || word_is(key, "ku'ai'i") || word_is(key, "cei'i") || word_is(key, "xe'u")
    {
        Some((Selmaho::Goha, true))
    } else {
        None
    }
}

/// The known cmavo from those of Guha to those of Ki.
pub open spec fn known_guha_to_ki(key: Seq<u8>) -> Option<(Selmaho, bool)> {
    if is_word(key, "gu'a") || is_word(key, "gu'e") || is_word(key, "gu'i")
        || is_word(key, "gu'o") || is_word(key, "gu'u")
    {
        Some((Selmaho::Guha, false))
    } else if is_word(key, "gu'e'u'a") || is_word(key, "gu'i'a'a") {
        Some((Selmaho::Guha, true))
    } else if is_word(key, "i") {
        Some((Selmaho::I, false))
    } else if is_word(key, "ja") || is_word(key, "je") || is_word(key, "je'i") || is_word(key, "jo")
        || is_word(key, "ju")
    {
        Some((Selmaho::Ja, false))
    } else if is_word(key, "je'u'a") || is_word(key, "ji'a'a") {
        Some((Selmaho::Ja, true))
    } else if is_word(key, "jai") {
        Some((Selmaho::Jai, false))
    } else if is_word(key, "ja'ei") || is_word(key, "jai'e") || is_word(key, "jo'ai") {
        Some((Selmaho::Jai, true))
    } else if is_word(key, "joi") || is_word(key, "fa'u") || is_word(key, "pi'u")
        || is_word(key, "jo'e") || is_word(key, "jo'u") || is_word(key, "ju'e")
        || is_word(key, "ku'a") || is_word(key, "ce") || is_word(key, "ce'o")
    {
        Some((Selmaho::Joi, false))
    } else if is_word(key, "fa'u'ai") || is_word(key, "xoi'u") || is_word(key, "jo'ei")
        || is_word(key, "jo'ei'i") || is_word(key, "joi'au'a") || is_word(key, "jo'oi")
        || is_word(key, "bo'a'oi") || is_word(key, "ce'au") || is_word(key, "ce'oi")
    {
        Some((Selmaho::Joi, true))
    } else if is_word(key, "jo'i") {
        Some((Selmaho::Johi, false))
    } else if is_word(key, "ke") {
        Some((Selmaho::Ke, false))
    } else if is_word(key, "va'au") || is_word(key, "fei'u") || is_word(key, "ke'oi")
        || is_word(key, "pi'ai")
    {
        Some((Selmaho::Ke, true))
    } else if is_word(key, "ke'e") {
        Some((Selmaho::Kehe, false))
    } else if is_word(key, "kei") {
        Some((Selmaho::Kei, false))
    } else if is_word(key, "ki") {
        Some((Selmaho::Ki, false))
    } else {
        None
    }
}

fn find_guha_to_ki(key: &[u8]) -> (found: Option<(Selmaho, bool)>)
    ensures
        found == known_guha_to_ki(key@),
{
    if word_is(key, "gu'a") || word_is(key, "gu'e") || word_is(key, "gu'i")
        || word_is(key, "gu'o") || word_is(key, "gu'u")
    {
        Some((Selmaho::Guha, false))
    } else if word_is(key, "gu'e'u'a") || word_is(key, "gu'i'a'a") {
        Some((Selmaho::Guha, true))
    } else if word_is(key, "i") {
        Some((Selmaho::I, false))
    } else if word_is(key, "ja") || word_is(key, "je") || word_is(key, "je'i") || word_is(key, "jo")
        || word_is(key, "ju")
    {
        Some((Selmaho::Ja, false))
    } else if word_is(key, "je'u'a") || word_is(key, "ji'a'a") {
        Some((Selmaho::Ja, true))
    } else if word_is(key, "jai") {
        Some((Selmaho::Jai, false))
    } else if word_is(key, "ja'ei") || word_is(key, "jai'e") || word_is(key, "jo'ai") {
        Some((Selmaho::Jai, true))
    } else if word_is(key, "joi") || word_is(key, "fa'u") || word_is(key, "pi'u")
        || word_is(key, "jo'e") || word_is(key, "jo'u") || word_is(key, "ju'e")
        || word_is(key, "ku'a") || word_is(key, "ce") || word_is(key, "ce'o")
    {
        Some((Selmaho::Joi, false))
    } else if word_is(key, "fa'u'ai") || word_is(key, "xoi'u") || word_is(key, "jo'ei")
        || word_is(key, "jo'ei'i") || word_is(key, "joi'au'a") || word_is(key, "jo'oi")
        || word_is(key, "bo'a'oi") || word_is(key, "ce'au") || word_is(key, "ce'oi")
    {
        Some((Selmaho::Joi, true))
    } else if word_is(key, "jo'i") {
        Some((Selmaho::Johi, false))
    } else if word_is(key, "ke") {
        Some((Selmaho::Ke, false))
    } else if word_is(key, "va'au") || word_is(key, "fei'u") || word_is(key, "ke'oi")
        || word_is(key, "pi'ai")
    {
        Some((Selmaho::Ke, true))
    } else if word_is(key, "ke'e") {
        Some((Selmaho::Kehe, false))
    } else if word_is(key, "kei") {
        Some((Selmaho::Kei, false))
    } else if word_is(key, "ki") {
        Some((Selmaho::Ki, false))
    } else {
        None
    }
}

/// The known cmavo from those of Koha to those of La.
pub open spec fn known_koha_to_la(key: Seq<u8>) -> Option<(Selmaho, bool)> {
    if is_word(key, "da") || is_word(key, "de") || is_word(key, "di") || is_word(key, "da'u")
        || is_word(key, "de'e") || is_word(key, "dei") || is_word(key, "de'u")
        || is_word(key, "di'e") || is_word(key, "da'e") || is_word(key, "di'u")
        || is_word(key, "do'i") || is_word(key, "ko") || is_word(key, "ma'a")
        || is_word(key, "mi") || is_word(key, "mi'a") || is_word(key, "do")
        || is_word(key, "do'o") || is_word(key, "mi'o") || is_word(key, "vo'a")
        || is_word(key, "vo'e") || is_word(key, "vo'i") || is_word(key, "vo'o")
        || is_word(key, "vo'u") || is_word(key, "fo'a") || is_word(key, "fo'e")
        || is_word(key, "fo'i") || is_word(key, "fo'o") || is_word(key, "fo'u")
        || is_word(key, "ko'a") || is_word(key, "ko'e") || is_word(key, "ko'i")
        || is_word(key, "ko'o") || is_word(key, "ko'u") || is_word(key, "ra")
        || is_word(key, "ru") || is_word(key, "ri") || is_word(key, "ti")
        || is_word(key, "tu") || is_word(key, "ta") || is_word(key, "ke'a")
        || is_word(key, "ma") || is_word(key, "zi'o") || is_word(key, "zo'e")
        || is_word(key, "zu'i") || is_word(key, "ce'u")
    {
        Some((Selmaho::Koha, false))
    } else if is_word(key, "kau'a") || is_word(key, "kau'e") || is_word(key, "kau'i")
        || is_word(key, "da'au") || is_word(key, "lau'e") || is_word(key, "lau'u")
        || is_word(key, "dei'ei") || is_word(key, "ra'au") || is_word(key, "da'ai")
        || is_word(key, "do'o'o") || is_word(key, "mi'ai") || is_word(key, "mi'oi")
        || is_word(key, "vau'a") || is_word(key, "vau'e") || is_word(key, "vau'o")
        || is_word(key, "vau'u") || is_word(key, "ri'au") || is_word(key, "xai")
        || is_word(key, "zoi'i") || is_word(key, "tu'oi") || is_word(key, "tu'oi'u")
        || is_word(key, "ca'au") || is_word(key, "di'au") || is_word(key, "di'ei")
        || is_word(key, "di'oi") || is_word(key, "do'au") || is_word(key, "do'ei")
        || is_word(key, "mai'i") || is_word(key, "nau'o") || is_word(key, "nau'u")
        || is_word(key, "zai'o") || is_word(key, "sy'y") || is_word(key, "zu'ai")
        || is_word(key, "bo'i") || is_word(key, "bo'o") || is_word(key, "bo'u")
        || is_word(key, "bo'a") || is_word(key, "bo'e")
    {
        Some((Selmaho::Koha, true))
    } else if is_word(key, "ku") {
        Some((Selmaho::Ku, false))
    } else if is_word(key, "ku'e") {
        Some((Selmaho::Kuhe, false))
    } else if is_word(key, "ku'o") {
        Some((Selmaho::Kuho, false))
    } else if is_word(key, "la") || is_word(key, "la'i") || is_word(key, "lai") {
        Some((Selmaho::La, false))
    } else {
        None
    }
}

fn find_koha_to_la(key: &[u8]) -> (found: Option<(Selmaho, bool)>)
    ensures
        found == known_koha_to_la(key@),
{
    if word_is(key, "da") || word_is(key, "de") || word_is(key, "di") || word_is(key, "da'u")
        || word_is(key, "de'e") || word_is(key, "dei") || word_is(key, "de'u")
        || word_is(key, "di'e") || word_is(key, "da'e") || word_is(key, "di'u")
        || word_is(key, "do'i") || word_is(key, "ko") || word_is(key, "ma'a")
        || word_is(key, "mi") || word_is(key, "mi'a") || word_is(key, "do")
        || word_is(key, "do'o") || word_is(key, "mi'o") || word_is(key, "vo'a")
        || word_is(key, "vo'e") || word_is(key, "vo'i") || word_is(key, "vo'o")
        || word_is(key, "vo'u") || word_is(key, "fo'a") || word_is(key, "fo'e")
        || word_is(key, "fo'i") || word_is(key, "fo'o") || word_is(key, "fo'u")
        || word_is(key, "ko'a") || word_is(key, "ko'e") || word_is(key, "ko'i")
        || word_is(key, "ko'o") || word_is(key, "ko'u") || word_is(key, "ra")
        || word_is(key, "ru") || word_is(key, "ri") || word_is(key, "ti")
        || word_is(key, "tu") || word_is(key, "ta") || word_is(key, "ke'a")
        || word_is(key, "ma") || word_is(key, "zi'o") || word_is(key, "zo'e")
        || word_is(key, "zu'i") || word_is(key, "ce'u")
    {
        Some((Selmaho::Koha, false))
    } else if word_is(key, "kau'a") || word_is(key, "kau'e") || word_is(key, "kau'i")
        || word_is(key, "da'au") || word_is(key, "lau'e") || word_is(key, "lau'u")
        || word_is(key, "dei'ei") || word_is(key, "ra'au") || word_is(key, "da'ai")
        || word_is(key, "do'o'o") || word_is(key, "mi'ai") || word_is(key, "mi'oi")
        || word_is(key, "vau'a") || word_is(key, "vau'e") || word_is(key, "vau'o")
        || word_is(key, "vau'u") || word_is(key, "ri'au") || word_is(key, "xai")
        || word_is(key, "zoi'i") || word_is(key, "tu'oi") || word_is(key, "tu'oi'u")
        || word_is(key, "ca'au") || word_is(key, "di'au") || word_is(key, "di'ei")
        || word_is(key, "di'oi") || word_is(key, "do'au") || word_is(key, "do'ei")
        || word_is(key, "mai'i") || word_is(key, "nau'o") || word_is(key, "nau'u")
        || word_is(key, "zai'o") || word_is(key, "sy'y") || word_is(key, "zu'ai")
        || word_is(key, "bo'i") || word_is(key, "bo'o") || word_is(key, "bo'u")
        || word_is(key, "bo'a") || word_is(key, "bo'e")
    {
        Some((Selmaho::Koha, true))
    } else if word_is(key, "ku") {
        Some((Selmaho::Ku, false))
    } else if word_is(key, "ku'e") {
        Some((Selmaho::Kuhe, false))
    } else if word_is(key, "ku'o") {
        Some((Selmaho::Kuho, false))
    } else if word_is(key, "la") || word_is(key, "la'i") || word_is(key, "lai") {
        Some((Selmaho::La, false))
    } else {
        None
    }
}

/// The known cmavo from those of La to those of Moi.
pub open spec fn known_la_to_moi(key: Seq<u8>) -> Option<(Selmaho, bool)> {
    if is_word(key, "lai'u") || is_word(key, "la'ei") {
        Some((Selmaho::La, true))
    } else if is_word(key, "lau") || is_word(key, "tau") || is_word(key, "zai")
        || is_word(key, "ce'a")
    {
        Some((Selmaho::Lau, false))
    } else if is_word(key, "la'e") || is_word(key, "tu'a") || is_word(key, "vu'i")
        || is_word(key, "lu'a") || is_word(key, "lu'e") || is_word(key, "lu'i")
        || is_word(key, "lu'o")
    {
        Some((Selmaho::Lahe, false))
    } else if is_word(key, "tau'e") || is_word(key, "lai'e") || is_word(key, "la'e'au")
        || is_word(key, "lu'au") || is_word(key, "cei'u") || is_word(key, "du'au")
        || is_word(key, "moi'a") || is_word(key, "zo'ei")
    {
        Some((Selmaho::Lahe, true))
    } else if is_word(key, "le") || is_word(key, "le'e") || is_word(key, "le'i")
        || is_word(key, "lei") || is_word(key, "lo") || is_word(key, "lo'e")
        || is_word(key, "lo'i") || is_word(key, "loi")
    {
        Some((Selmaho::Le, false))
    } else if is_word(key, "dau'u") || is_word(key, "ji'ai") || is_word(key, "kai'i")
        || is_word(key, "le'ei") || is_word(key, "lei'e") || is_word(key, "lei'i")
        || is_word(key, "lo'au") || is_word(key, "loi'a") || is_word(key, "loi'e")
        || is_word(key, "loi'i") || is_word(key, "lo'o'o") || is_word(key, "ly'ei")
        || is_word(key, "me'ei") || is_word(key, "moi'oi") || is_word(key, "mo'oi")
        || is_word(key, "nei'i") || is_word(key, "ri'oi") || is_word(key, "ti'oi")
        || is_word(key, "xai'i") || is_word(key, "zo'ai") || is_word(key, "zy'oi")
    {
        Some((Selmaho::Le, true))
    } else if is_word(key, "le'u") {
        Some((Selmaho::Lehu, false))
    } else if is_word(key, "li") || is_word(key, "me'o") {
        Some((Selmaho::Li, false))
    } else if is_word(key, "li'ai") || is_word(key, "na'au") {
        Some((Selmaho::Li, true))
    } else if is_word(key, "li'u") {
        Some((Selmaho::Lihu, false))
    } else if is_word(key, "lo'o") {
        Some((Selmaho::Loho, false))
    } else if is_word(key, "lo'u") {
        Some((Selmaho::Lohu, false))
    } else if is_word(key, "la'ai") {
        Some((Selmaho::Lohu, true))
    } else if is_word(key, "lu") {
        Some((Selmaho::Lu, false))
    } else if is_word(key, "lu'u") {
        Some((Selmaho::Luhu, false))
    } else if is_word(key, "la'au") || is_word(key, "tu'ai") {
        Some((Selmaho::Lu, true))
    } else if is_word(key, "mai") || is_word(key, "mo'o") {
        Some((Selmaho::Mai, false))
    } else if is_word(key, "sai'ei") || is_word(key, "ju'ai") || is_word(key, "lai'a")
        || is_word(key, "ba'ai")
    {
        Some((Selmaho::Mai, true))
    } else if is_word(key, "ma'o") {
        Some((Selmaho::Maho, false))
    } else if is_word(key, "me") {
        Some((Selmaho::Me, false))
    } else if is_word(key, "du'ai") || is_word(key, "me'au") || is_word(key, "mei'u") {
        Some((Selmaho::Me, true))
    } else if is_word(key, "me'u") {
        Some((Selmaho::Mehu, false))
    } else if is_word(key, "moi") || is_word(key, "si'e") || is_word(key, "va'e")
        || is_word(key, "mei") || is_word(key, "cu'o")
    {
        Some((Selmaho::Moi, false))
    } else {
        None
    }
}

fn find_la_to_moi(key: &[u8]) -> (found: Option<(Selmaho, bool)>)
    ensures
        found == known_la_to_moi(key@),
{
    if word_is(key, "lai'u") || word_is(key, "la'ei") {
        Some((Selmaho::La, true))
    } else if word_is(key, "lau") || word_is(key, "tau") || word_is(key, "zai")
        || word_is(key, "ce'a")
    {
        Some((Selmaho::Lau, false))
    } else if word_is(key, "la'e") || word_is(key, "tu'a") || word_is(key, "vu'i")
        || word_is(key, "lu'a") || word_is(key, "lu'e") || word_is(key, "lu'i")
        || word_is(key, "lu'o")
    {
        Some((Selmaho::Lahe, false))
    } else if word_is(key, "tau'e") || word_is(key, "lai'e") || word_is(key, "la'e'au")
        || word_is(key, "lu'au") || word_is(key, "cei'u") || word_is(key, "du'au")
        || word_is(key, "moi'a") || word_is(key, "zo'ei")
    {
        Some((Selmaho::Lahe, true))
    } else if word_is(key, "le") || word_is(key, "le'e") || word_is(key, "le'i")
        || word_is(key, "lei") || word_is(key, "lo") || word_is(key, "lo'e")
        || word_is(key, "lo'i") || word_is(key, "loi")
    {
        Some((Selmaho::Le, false))
    } else if word_is(key, "dau'u") || word_is(key, "ji'ai") || word_is(key, "kai'i")
        || word_is(key, "le'ei") || word_is(key, "lei'e") || word_is(key, "lei'i")
        || word_is(key, "lo'au") || word_is(key, "loi'a") || word_is(key, "loi'e")
        || word_is(key, "loi'i") || word_is(key, "lo'o'o") || word_is(key, "ly'ei")
        || word_is(key, "me'ei") || word_is(key, "moi'oi") || word_is(key, "mo'oi")
        || word_is(key, "nei'i") || word_is(key, "ri'oi") || word_is(key, "ti'oi")
        || word_is(key, "xai'i") || word_is(key, "zo'ai") || word_is(key, "zy'oi")
    {
        Some((Selmaho::Le, true))
    } else if word_is(key, "le'u") {
        Some((Selmaho::Lehu, false))
    } else if word_is(key, "li") || word_is(key, "me'o") {
        Some((Selmaho::Li, false))
    } else if word_is(key, "li'ai") || word_is(key, "na'au") {
        Some((Selmaho::Li, true))
    } else if word_is(key, "li'u") {
        Some((Selmaho::Lihu, false))
    } else if word_is(key, "lo'o") {
        Some((Selmaho::Loho, false))
    } else if word_is(key, "lo'u") {
        Some((Selmaho::Lohu, false))
    } else if word_is(key, "la'ai") {
        Some((Selmaho::Lohu, true))
    } else if word_is(key, "lu") {
        Some((Selmaho::Lu, false))
    } else if word_is(key, "lu'u") {
        Some((Selmaho::Luhu, false))
    } else if word_is(key, "la'au") || word_is(key, "tu'ai") {
        Some((Selmaho::Lu, true))
    } else if word_is(key, "mai") || word_is(key, "mo'o") {
        Some((Selmaho::Mai, false))
    } else if word_is(key, "sai'ei") || word_is(key, "ju'ai") || word_is(key, "lai'a")
        || word_is(key, "ba'ai")
    {
        Some((Selmaho::Mai, true))
    } else if word_is(key, "ma'o") {
        Some((Selmaho::Maho, false))
    } else if word_is(key, "me") {
        Some((Selmaho::Me, false))
    } else if word_is(key, "du'ai") || word_is(key, "me'au") || word_is(key, "mei'u") {
        Some((Selmaho::Me, true))
    } else if word_is(key, "me'u") {
        Some((Selmaho::Mehu, false))
    } else if word_is(key, "moi") || word_is(key, "si'e") || word_is(key, "va'e")
        || word_is(key, "mei") || word_is(key, "cu'o")
    {
        Some((Selmaho::Moi, false))
    } else {
        None
    }
}

/// The known cmavo from those of Moi to those of Nuhu.
pub open spec fn known_moi_to_nuhu(key: Seq<u8>) -> Option<(Selmaho, bool)> {
    if is_word(key, "jei'o") || is_word(key, "ka'oi") || is_word(key, "lei'o")
        || is_word(key, "cei'a") || is_word(key, "cu'oi'e") || is_word(key, "coi'e")
        || is_word(key, "doi'e") || is_word(key, "mei'i") || is_word(key, "moi'e")
        || is_word(key, "moi'o") || is_word(key, "moi'u") || is_word(key, "nei'o")
        || is_word(key, "soi'e")
    {
        Some((Selmaho::Moi, true))
    } else if is_word(key, "mo'e") {
        Some((Selmaho::Mohe, false))
    } else if is_word(key, "mo'i") {
        Some((Selmaho::Mohi, false))
    } else if is_word(key, "na") || is_word(key, "ja'a") {
        Some((Selmaho::Na, false))
    } else if is_word(key, "xa'au") || is_word(key, "xu'o'e") || is_word(key, "cau'a")
        || is_word(key, "mai'a") || is_word(key, "mai'e") || is_word(key, "na'ai")
    {
        Some((Selmaho::Na, true))
    } else if is_word(key, "nai") {
        Some((Selmaho::Nai, false))
    } else if is_word(key, "ja'ai") {
        Some((Selmaho::Nai, true))
    } else if is_word(key, "na'e") || is_word(key, "to'e") || is_word(key, "je'a")
        || is_word(key, "no'e")
    {
        Some((Selmaho::Nahe, false))
    } else if is_word(key, "rai'a") || is_word(key, "rei'e") || is_word(key, "sai'e")
        || is_word(key, "gu'y") || is_word(key, "je'ai") || is_word(key, "cai'e")
        || is_word(key, "cau'e") || is_word(key, "cau'o'e") || is_word(key, "na'ei")
        || is_word(key, "ni'u'u") || is_word(key, "noi'e") || is_word(key, "pai'e")
    {
        Some((Selmaho::Nahe, true))
    } else if is_word(key, "na'u") {
        Some((Selmaho::Nahu, false))
    } else if is_word(key, "ni'e") {
        Some((Selmaho::Nihe, false))
    } else if is_word(key, "ni'o") || is_word(key, "no'i") {
        Some((Selmaho::Niho, false))
    } else if is_word(key, "noi") || is_word(key, "poi") || is_word(key, "voi") {
        Some((Selmaho::Noi, false))
    } else if is_word(key, "voi'i") {
        Some((Selmaho::Noi, true))
    } else if is_word(key, "nu") || is_word(key, "si'o") || is_word(key, "jei")
        || is_word(key, "ka") || is_word(key, "li'i") || is_word(key, "du'u")
        || is_word(key, "ni") || is_word(key, "su'u") || is_word(key, "pu'u")
        || is_word(key, "za'i") || is_word(key, "mu'e") || is_word(key, "zu'o")
    {
        Some((Selmaho::Nu, false))
    } else if is_word(key, "poi'i") || is_word(key, "te'oi") || is_word(key, "ga'ei")
        || is_word(key, "ka'ei") || is_word(key, "kai'ei") || is_word(key, "kai'u")
        || is_word(key, "ka'oi'i") || is_word(key, "bu'ai") || is_word(key, "ni'ai")
        || is_word(key, "xe'ei")
    {
        Some((Selmaho::Nu, true))
    } else if is_word(key, "nu'a") {
        Some((Selmaho::Nuha, false))
    } else if is_word(key, "nu'i") {
        Some((Selmaho::Nuhi, false))
    } else if is_word(key, "nu'u") {
        Some((Selmaho::Nuhu, false))
    } else {
        None
    }
}

fn find_moi_to_nuhu(key: &[u8]) -> (found: Option<(Selmaho, bool)>)
    ensures
        found == known_moi_to_nuhu(key@),
{
    if word_is(key, "jei'o") || word_is(key, "ka'oi") || word_is(key, "lei'o")
        || word_is(key, "cei'a") || word_is(key, "cu'oi'e") || word_is(key, "coi'e")
        || word_is(key, "doi'e") || word_is(key, "mei'i") || word_is(key, "moi'e")
        || word_is(key, "moi'o") || word_is(key, "moi'u") || word_is(key, "nei'o")
        || word_is(key, "soi'e")
    {
        Some((Selmaho::Moi, true))
    } else if word_is(key, "mo'e") {
        Some((Selmaho::Mohe, false))
    } else if word_is(key, "mo'i") {
        Some((Selmaho::Mohi, false))
    } else if word_is(key, "na") || word_is(key, "ja'a") {
        Some((Selmaho::Na, false))
    } else if word_is(key, "xa'au") || word_is(key, "xu'o'e") || word_is(key, "cau'a")
        || word_is(key, "mai'a") || word_is(key, "mai'e") || word_is(key, "na'ai")
    {
        Some((Selmaho::Na, true))
    } else if word_is(key, "nai") {
        Some((Selmaho::Nai, false))
    } else if word_is(key, "ja'ai") {
        Some((Selmaho::Nai, true))
    } else if word_is(key, "na'e") || word_is(key, "to'e") || word_is(key, "je'a")
        || word_is(key, "no'e")
    {
        Some((Selmaho::Nahe, false))
    } else if word_is(key, "rai'a") || word_is(key, "rei'e") || word_is(key, "sai'e")
        || word_is(key, "gu'y") || word_is(key, "je'ai") || word_is(key, "cai'e")
        || word_is(key, "cau'e") || word_is(key, "cau'o'e") || word_is(key, "na'ei")
        || word_is(key, "ni'u'u") || word_is(key, "noi'e") || word_is(key, "pai'e")
    {
        Some((Selmaho::Nahe, true))
    } else if word_is(key, "na'u") {
        Some((Selmaho::Nahu, false))
    } else if word_is(key, "ni'e") {
        Some((Selmaho::Nihe, false))
    } else if word_is(key, "ni'o") || word_is(key, "no'i") {
        Some((Selmaho::Niho, false))
    } else if word_is(key, "noi") || word_is(key, "poi") || word_is(key, "voi") {
        Some((Selmaho::Noi, false))
    } else if word_is(key, "voi'i") {
        Some((Selmaho::Noi, true))
    } else if word_is(key, "nu") || word_is(key, "si'o") || word_is(key, "jei")
        || word_is(key, "ka") || word_is(key, "li'i") || word_is(key, "du'u")
        || word_is(key, "ni") || word_is(key, "su'u") || word_is(key, "pu'u")
        || word_is(key, "za'i") || word_is(key, "mu'e") || word_is(key, "zu'o")
    {
        Some((Selmaho::Nu, false))
    } else if word_is(key, "poi'i") || word_is(key, "te'oi") || word_is(key, "ga'ei")
        || word_is(key, "ka'ei") || word_is(key, "kai'ei") || word_is(key, "kai'u")
        || word_is(key, "ka'oi'i") || word_is(key, "bu'ai") || word_is(key, "ni'ai")
        || word_is(key, "xe'ei")
    {
        Some((Selmaho::Nu, true))
    } else if word_is(key, "nu'a") {
        Some((Selmaho::Nuha, false))
    } else if word_is(key, "nu'i") {
        Some((Selmaho::Nuhi, false))
    } else if word_is(key, "nu'u") {
        Some((Selmaho::Nuhu, false))
    } else {
        None
    }
}

/// The known cmavo of Pa.
pub open spec fn known_pa(key: Seq<u8>) -> Option<(Selmaho, bool)> {
    if is_word(key, "bi") || is_word(key, "ce'i") || is_word(key, "ci")
        || is_word(key, "ci'i") || is_word(key, "da'a") || is_word(key, "dau")
        || is_word(key, "du'e") || is_word(key, "fei") || is_word(key, "fi'u")
        || is_word(key, "gai") || is_word(key, "jau") || is_word(key, "ji'i")
        || is_word(key, "ka'o") || is_word(key, "ki'o") || is_word(key, "ma'u")
        || is_word(key, "me'i") || is_word(key, "mo'a") || is_word(key, "mu")
        || is_word(key, "ni'u") || is_word(key, "no") || is_word(key, "no'o")
        || is_word(key, "pa") || is_word(key, "pai") || is_word(key, "pi")
        || is_word(key, "pi'e") || is_word(key, "ra'e") || is_word(key, "rau")
        || is_word(key, "re") || is_word(key, "rei") || is_word(key, "ro")
        || is_word(key, "so") || is_word(key, "so'a") || is_word(key, "so'e")
        || is_word(key, "so'i") || is_word(key, "so'o") || is_word(key, "so'u")
        || is_word(key, "su'e") || is_word(key, "su'o") || is_word(key, "te'o")
        || is_word(key, "tu'o") || is_word(key, "vai") || is_word(key, "vo")
        || is_word(key, "xa") || is_word(key, "xo") || is_word(key, "za'u")
        || is_word(key, "ze") || is_word(key, "1") || is_word(key, "2") || is_word(key, "3")
        || is_word(key, "4") || is_word(key, "5") || is_word(key, "6") || is_word(key, "7")
        || is_word(key, "8") || is_word(key, "9") || is_word(key, "0")
    {
        Some((Selmaho::Pa, false))
    } else {
        None
    }
}

fn find_pa(key: &[u8]) -> (found: Option<(Selmaho, bool)>)
    ensures
        found == known_pa(key@),
{
    if word_is(key, "bi") || word_is(key, "ce'i") || word_is(key, "ci")
        || word_is(key, "ci'i") || word_is(key, "da'a") || word_is(key, "dau")
        || word_is(key, "du'e") || word_is(key, "fei") || word_is(key, "fi'u")
        || word_is(key, "gai") || word_is(key, "jau") || word_is(key, "ji'i")
        || word_is(key, "ka'o") || word_is(key, "ki'o") || word_is(key, "ma'u")
        || word_is(key, "me'i") || word_is(key, "mo'a") || word_is(key, "mu")
        || word_is(key, "ni'u") || word_is(key, "no") || word_is(key, "no'o")
        || word_is(key, "pa") || word_is(key, "pai") || word_is(key, "pi")
        || word_is(key, "pi'e") || word_is(key, "ra'e") || word_is(key, "rau")
        || word_is(key, "re") || word_is(key, "rei") || word_is(key, "ro")
        || word_is(key, "so") || word_is(key, "so'a") || word_is(key, "so'e")
        || word_is(key, "so'i") || word_is(key, "so'o") || word_is(key, "so'u")
        || word_is(key, "su'e") || word_is(key, "su'o") || word_is(key, "te'o")
        || word_is(key, "tu'o") || word_is(key, "vai") || word_is(key, "vo")
        || word_is(key, "xa") || word_is(key, "xo") || word_is(key, "za'u")
        || word_is(key, "ze") || word_is(key, "1") || word_is(key, "2") || word_is(key, "3")
        || word_is(key, "4") || word_is(key, "5") || word_is(key, "6") || word_is(key, "7")
        || word_is(key, "8") || word_is(key, "9") || word_is(key, "0")
    {
        Some((Selmaho::Pa, false))
    } else {
        None
    }
}

/// The known cmavo from those of Pa to those of Sa.
pub open spec fn known_pa_to_sa(key: Seq<u8>) -> Option<(Selmaho, bool)> {
    if is_word(key, "bi'ei") || is_word(key, "by'ai") || is_word(key, "ci'i'e")
        || is_word(key, "ci'i'o") || is_word(key, "ci'i'oi") || is_word(key, "dau'e")
        || is_word(key, "dy'ei") || is_word(key, "fai'e'au") || is_word(key, "fai'u")
        || is_word(key, "fai'u'a") || is_word(key, "fu'a'ai") || is_word(key, "fu'a'au")
        || is_word(key, "fy'ai") || is_word(key, "ga'au") || is_word(key, "gau'i'o")
        || is_word(key, "go'o'i'a") || is_word(key, "ja'au") || is_word(key, "ka'ei'a")
        || is_word(key, "ka'o'ai") || is_word(key, "ka'o'ei") || is_word(key, "kai'o")
        || is_word(key, "kau'o") || is_word(key, "kei'ei") || is_word(key, "kei'o")
        || is_word(key, "koi'o") || is_word(key, "ku'i'a") || is_word(key, "lai'ai")
        || is_word(key, "mai'e'e") || is_word(key, "mei'a") || is_word(key, "mu'i'ai")
        || is_word(key, "mu'i'u") || is_word(key, "na'a'u") || is_word(key, "ni'e'ei")
        || is_word(key, "ni'e'oi") || is_word(key, "no'ai") || is_word(key, "no'e'u")
        || is_word(key, "ny'ei") || is_word(key, "pa'au'o") || is_word(key, "pei'i'a")
        || is_word(key, "pi'au") || is_word(key, "pu'e'u'o") || is_word(key, "py'ai")
        || is_word(key, "ro'oi") || is_word(key, "ru'oi") || is_word(key, "sai'i")
        || is_word(key, "se'i'i") || is_word(key, "sei'a") || is_word(key, "sei'u'e")
        || is_word(key, "si'ei") || is_word(key, "si'i'ai") || is_word(key, "so'au")
        || is_word(key, "soi'ai") || is_word(key, "soi'au") || is_word(key, "su'ai")
        || is_word(key, "su'au") || is_word(key, "su'o'o") || is_word(key, "su'oi")
        || is_word(key, "sy'au") || is_word(key, "tau'u") || is_word(key, "va'ei'a")
        || is_word(key, "vau'au'o") || is_word(key, "vo'ei'a") || is_word(key, "vu'ai")
        || is_word(key, "xe'a") || is_word(key, "xe'e") || is_word(key, "xei")
        || is_word(key, "xi'i'ei") || is_word(key, "xo'au") || is_word(key, "xo'e")
        || is_word(key, "xy'au") || is_word(key, "zau'u") || is_word(key, "ze'au")
        || is_word(key, "zy'ei") || is_word(key, " vi'ei'e")
    {
        Some((Selmaho::Pa, true))
    } else if is_word(key, "pe'e") {
        Some((Selmaho::Pehe, false))
    } else if is_word(key, "pe'o") {
        Some((Selmaho::Peho, false))
    } else if is_word(key, "kei'ai") {
        Some((Selmaho::Peho, true))
    } else if is_word(key, "pu") || is_word(key, "ba") || is_word(key, "ca") {
        Some((Selmaho::Pu, false))
    } else if is_word(key, "xa'ei") {
        Some((Selmaho::Pu, true))
    } else if is_word(key, "ra'o") {
        Some((Selmaho::Raho, false))
    } else if is_word(key, "roi") || is_word(key, "re'u") {
        Some((Selmaho::Roi, false))
    } else if is_word(key, "va'ei") || is_word(key, "ba'oi") || is_word(key, "de'ei")
        || is_word(key, "mu'ei")
    {
        Some((Selmaho::Roi, true))
    } else if is_word(key, "sa") {
        Some((Selmaho::Sa, false))
    } else {
        None
    }
}

fn find_pa_to_sa(key: &[u8]) -> (found: Option<(Selmaho, bool)>)
    ensures
        found == known_pa_to_sa(key@),
{
    if word_is(key, "bi'ei") || word_is(key, "by'ai") || word_is(key, "ci'i'e")
        || word_is(key, "ci'i'o") || word_is(key, "ci'i'oi") || word_is(key, "dau'e")
        || word_is(key, "dy'ei") || word_is(key, "fai'e'au") || word_is(key, "fai'u")
        || word_is(key, "fai'u'a") || word_is(key, "fu'a'ai") || word_is(key, "fu'a'au")
        || word_is(key, "fy'ai") || word_is(key, "ga'au") || word_is(key, "gau'i'o")
        || word_is(key, "go'o'i'a") || word_is(key, "ja'au") || word_is(key, "ka'ei'a")
        || word_is(key, "ka'o'ai") || word_is(key, "ka'o'ei") || word_is(key, "kai'o")
        || word_is(key, "kau'o") || word_is(key, "kei'ei") || word_is(key, "kei'o")
        || word_is(key, "koi'o") || word_is(key, "ku'i'a") || word_is(key, "lai'ai")
        || word_is(key, "mai'e'e") || word_is(key, "mei'a") || word_is(key, "mu'i'ai")
        || word_is(key, "mu'i'u") || word_is(key, "na'a'u") || word_is(key, "ni'e'ei")
        || word_is(key, "ni'e'oi") || word_is(key, "no'ai") || word_is(key, "no'e'u")
        || word_is(key, "ny'ei") || word_is(key, "pa'au'o") || word_is(key, "pei'i'a")
        || word_is(key, "pi'au") || word_is(key, "pu'e'u'o") || word_is(key, "py'ai")
        || word_is(key, "ro'oi") || word_is(key, "ru'oi") || word_is(key, "sai'i")
        || word_is(key, "se'i'i") || word_is(key, "sei'a") || word_is(key, "sei'u'e")
        || word_is(key, "si'ei") || word_is(key, "si'i'ai") || word_is(key, "so'au")
        || word_is(key, "soi'ai") || word_is(key, "soi'au") || word_is(key, "su'ai")
        || word_is(key, "su'au") || word_is(key, "su'o'o") || word_is(key, "su'oi")
        || word_is(key, "sy'au") || word_is(key, "tau'u") || word_is(key, "va'ei'a")
        || word_is(key, "vau'au'o") || word_is(key, "vo'ei'a") || word_is(key, "vu'ai")
        || word_is(key, "xe'a") || word_is(key, "xe'e") || word_is(key, "xei")
        || word_is(key, "xi'i'ei") || word_is(key, "xo'au") || word_is(key, "xo'e")
        || word_is(key, "xy'au") || word_is(key, "zau'u") || word_is(key, "ze'au")
        || word_is(key, "zy'ei") || word_is(key, " vi'ei'e")
    {
        Some((Selmaho::Pa, true))
    } else if word_is(key, "pe'e") {
        Some((Selmaho::Pehe, false))
    } else if word_is(key, "pe'o") {
        Some((Selmaho::Peho, false))
    } else if word_is(key, "kei'ai") {
        Some((Selmaho::Peho, true))
    } else if word_is(key, "pu") || word_is(key, "ba") || word_is(key, "ca") {
        Some((Selmaho::Pu, false))
    } else if word_is(key, "xa'ei") {
        Some((Selmaho::Pu, true))
    } else if word_is(key, "ra'o") {
        Some((Selmaho::Raho, false))
    } else if word_is(key, "roi") || word_is(key, "re'u") {
        Some((Selmaho::Roi, false))
    } else if word_is(key, "va'ei") || word_is(key, "ba'oi") || word_is(key, "de'ei")
        || word_is(key, "mu'ei")
    {
        Some((Selmaho::Roi, true))
    } else if word_is(key, "sa") {
        Some((Selmaho::Sa, false))
    } else {
        None
    }
}

/// The known cmavo from those of Se to those of Tuhu.
pub open spec fn known_se_to_tuhu(key: Seq<u8>) -> Option<(Selmaho, bool)> {
    if is_word(key, "se") || is_word(key, "te") || is_word(key, "ve") || is_word(key, "xe") {
        Some((Selmaho::Se, false))
    } else if is_word(key, "re'au'e") || is_word(key, "se'ai'e") || is_word(key, "se'au'e")
        || is_word(key, "se'o'e") || is_word(key, "se'u'o") || is_word(key, "to'ai")
        || is_word(key, "tu'ei") || is_word(key, "vo'ai") || is_word(key, "xo'ai")
        || is_word(key, "ko'ei") || is_word(key, "lu'oi") || is_word(key, "ze'ai'e")
        || is_word(key, "ze'au'e") || is_word(key, "so'o'o'oi") || is_word(key, "su'ei")
    {
        Some((Selmaho::Se, true))
    } else if is_word(key, "sei") || is_word(key, "ti'o") {
        Some((Selmaho::Sei, false))
    } else if is_word(key, "sei'e") || is_word(key, "le'au") || is_word(key, "cei'e") {
        Some((Selmaho::Sei, true))
    } else if is_word(key, "se'u") {
        Some((Selmaho::Sehu, false))
    } else if is_word(key, "si") {
        Some((Selmaho::Si, false))
    } else if is_word(key, "si'au'i") || is_word(key, "ze'ei") {
        Some((Selmaho::Si, true))
    } else if is_word(key, "soi") {
        Some((Selmaho::Soi, false))
    } else if is_word(key, "su") {
        Some((Selmaho::Su, false))
    } else if is_word(key, "ta'e") || is_word(key, "ru'i") || is_word(key, "di'i")
        || is_word(key, "na'o")
    {
        Some((Selmaho::Tahe, false))
    } else if is_word(key, "dei'a") || is_word(key, "ze'ai") || is_word(key, "zei'a") {
        Some((Selmaho::Tahe, true))
    } else if is_word(key, "tei") {
        Some((Selmaho::Tei, false))
    } else if is_word(key, "te'u") {
        Some((Selmaho::Tehu, false))
    } else if is_word(key, "to") || is_word(key, "to'i") {
        Some((Selmaho::To, false))
    } else if is_word(key, "toi") {
        Some((Selmaho::Toi, false))
    } else if is_word(key, "tu'e") {
        Some((Selmaho::Tuhe, false))
    } else if is_word(key, "tu'u") {
        Some((Selmaho::Tuhu, false))
    } else {
        None
    }
}

fn find_se_to_tuhu(key: &[u8]) -> (found: Option<(Selmaho, bool)>)
    ensures
        found == known_se_to_tuhu(key@),
{
    if word_is(key, "se") || word_is(key, "te") || word_is(key, "ve") || word_is(key, "xe") {
        Some((Selmaho::Se, false))
    } else if word_is(key, "re'au'e") || word_is(key, "se'ai'e") || word_is(key, "se'au'e")
        || word_is(key, "se'o'e") || word_is(key, "se'u'o") || word_is(key, "to'ai")
        || word_is(key, "tu'ei") || word_is(key, "vo'ai") || word_is(key, "xo'ai")
        || word_is(key, "ko'ei") || word_is(key, "lu'oi") || word_is(key, "ze'ai'e")
        || word_is(key, "ze'au'e") || word_is(key, "so'o'o'oi") || word_is(key, "su'ei")
    {
        Some((Selmaho::Se, true))
    } else if word_is(key, "sei") || word_is(key, "ti'o") {
        Some((Selmaho::Sei, false))
    } else if word_is(key, "sei'e") || word_is(key, "le'au") || word_is(key, "cei'e") {
        Some((Selmaho::Sei, true))
    } else if word_is(key, "se'u") {
        Some((Selmaho::Sehu, false))
    } else if word_is(key, "si") {
        Some((Selmaho::Si, false))
    } else if word_is(key, "si'au'i") || word_is(key, "ze'ei") {
        Some((Selmaho::Si, true))
    } else if word_is(key, "soi") {
        Some((Selmaho::Soi, false))
    } else if word_is(key, "su") {
        Some((Selmaho::Su, false))
    } else if word_is(key, "ta'e") || word_is(key, "ru'i") || word_is(key, "di'i")
        || word_is(key, "na'o")
    {
        Some((Selmaho::Tahe, false))
    } else if word_is(key, "dei'a") || word_is(key, "ze'ai") || word_is(key, "zei'a") {
        Some((Selmaho::Tahe, true))
    } else if word_is(key, "tei") {
        Some((Selmaho::Tei, false))
    } else if word_is(key, "te'u") {
        Some((Selmaho::Tehu, false))
    } else if word_is(key, "to") || word_is(key, "to'i") {
        Some((Selmaho::To, false))
    } else if word_is(key, "toi") {
        Some((Selmaho::Toi, false))
    } else if word_is(key, "tu'e") {
        Some((Selmaho::Tuhe, false))
    } else if word_is(key, "tu'u") {
        Some((Selmaho::Tuhu, false))
    } else {
        None
    }
}

/// The known cmavo of Ui.
pub open spec fn known_ui(key: Seq<u8>) -> Option<(Selmaho, bool)> {
    if is_word(key, "a'a") || is_word(key, "a'e") || is_word(key, "a'i")
        || is_word(key, "ai") || is_word(key, "a'o") || is_word(key, "a'u")
        || is_word(key, "au") || is_word(key, "ba'a") || is_word(key, "ba'u")
        || is_word(key, "be'u") || is_word(key, "bi'u") || is_word(key, "bu'o")
        || is_word(key, "ca'e") || is_word(key, "da'i") || is_word(key, "dai")
        || is_word(key, "do'a") || is_word(key, "e'a") || is_word(key, "e'e")
        || is_word(key, "e'i") || is_word(key, "ei") || is_word(key, "e'o")
        || is_word(key, "e'u") || is_word(key, "fu'i") || is_word(key, "ga'i")
        || is_word(key, "ge'e") || is_word(key, "i'a") || is_word(key, "ia")
        || is_word(key, "i'e") || is_word(key, "ie") || is_word(key, "i'i")
        || is_word(key, "ii") || is_word(key, "i'o") || is_word(key, "io")
        || is_word(key, "i'u") || is_word(key, "iu") || is_word(key, "ja'o")
        || is_word(key, "je'u") || is_word(key, "ji'a") || is_word(key, "jo'a")
        || is_word(key, "ju'a") || is_word(key, "ju'o") || is_word(key, "ka'u")
        || is_word(key, "kau") || is_word(key, "ke'u") || is_word(key, "ki'a")
        || is_word(key, "ku'i") || is_word(key, "la'a") || is_word(key, "le'o")
        || is_word(key, "li'a") || is_word(key, "li'o") || is_word(key, "mi'u")
        || is_word(key, "mu'a") || is_word(key, "na'i") || is_word(key, "o'a")
        || is_word(key, "o'e") || is_word(key, "o'i") || is_word(key, "oi")
        || is_word(key, "o'o") || is_word(key, "o'u") || is_word(key, "pa'e")
        || is_word(key, "pau") || is_word(key, "pe'a") || is_word(key, "pe'i")
        || is_word(key, "po'o") || is_word(key, "ra'u") || is_word(key, "re'e")
        || is_word(key, "ri'e") || is_word(key, "ro'a") || is_word(key, "ro'e")
        || is_word(key, "ro'i") || is_word(key, "ro'o") || is_word(key, "ro'u")
        || is_word(key, "ru'a") || is_word(key, "sa'a") || is_word(key, "sa'e")
        || is_word(key, "sa'u") || is_word(key, "se'a") || is_word(key, "se'i")
        || is_word(key, "se'o") || is_word(key, "si'a") || is_word(key, "su'a")
        || is_word(key, "ta'o") || is_word(key, "ta'u") || is_word(key, "ti'e")
        || is_word(key, "to'u") || is_word(key, "u'a") || is_word(key, "ua")
        || is_word(key, "u'e") || is_word(key, "ue") || is_word(key, "u'i")
        || is_word(key, "ui") || is_word(key, "u'o") || is_word(key, "uo")
        || is_word(key, "u'u") || is_word(key, "uu") || is_word(key, "va'i")
        || is_word(key, "vu'e") || is_word(key, "xu") || is_word(key, "za'a")
        || is_word(key, "zo'o") || is_word(key, "zu'u")
    {
        Some((Selmaho::Ui, false))
    } else {
        None
    }
}

fn find_ui(key: &[u8]) -> (found: Option<(Selmaho, bool)>)
    ensures
        found == known_ui(key@),
{
    if word_is(key, "a'a") || word_is(key, "a'e") || word_is(key, "a'i")
        || word_is(key, "ai") || word_is(key, "a'o") || word_is(key, "a'u")
        || word_is(key, "au") || word_is(key, "ba'a") || word_is(key, "ba'u")
        || word_is(key, "be'u") || word_is(key, "bi'u") || word_is(key, "bu'o")
        || word_is(key, "ca'e") || word_is(key, "da'i") || word_is(key, "dai")
        || word_is(key, "do'a") || word_is(key, "e'a") || word_is(key, "e'e")
        || word_is(key, "e'i") || word_is(key, "ei") || word_is(key, "e'o")
        || word_is(key, "e'u") || word_is(key, "fu'i") || word_is(key, "ga'i")
        || word_is(key, "ge'e") || word_is(key, "i'a") || word_is(key, "ia")
        || word_is(key, "i'e") || word_is(key, "ie") || word_is(key, "i'i")
        || word_is(key, "ii") || word_is(key, "i'o") || word_is(key, "io")
        || word_is(key, "i'u") || word_is(key, "iu") || word_is(key, "ja'o")
        || word_is(key, "je'u") || word_is(key, "ji'a") || word_is(key, "jo'a")
        || word_is(key, "ju'a") || word_is(key, "ju'o") || word_is(key, "ka'u")
        || word_is(key, "kau") || word_is(key, "ke'u") || word_is(key, "ki'a")
        || word_is(key, "ku'i") || word_is(key, "la'a") || word_is(key, "le'o")
        || word_is(key, "li'a") || word_is(key, "li'o") || word_is(key, "mi'u")
        || word_is(key, "mu'a") || word_is(key, "na'i") || word_is(key, "o'a")
        || word_is(key, "o'e") || word_is(key, "o'i") || word_is(key, "oi")
        || word_is(key, "o'o") || word_is(key, "o'u") || word_is(key, "pa'e")
        || word_is(key, "pau") || word_is(key, "pe'a") || word_is(key, "pe'i")
        || word_is(key, "po'o") || word_is(key, "ra'u") || word_is(key, "re'e")
        || word_is(key, "ri'e") || word_is(key, "ro'a") || word_is(key, "ro'e")
        || word_is(key, "ro'i") || word_is(key, "ro'o") || word_is(key, "ro'u")
        || word_is(key, "ru'a") || word_is(key, "sa'a") || word_is(key, "sa'e")
        || word_is(key, "sa'u") || word_is(key, "se'a") || word_is(key, "se'i")
        || word_is(key, "se'o") || word_is(key, "si'a") || word_is(key, "su'a")
        || word_is(key, "ta'o") || word_is(key, "ta'u") || word_is(key, "ti'e")
        || word_is(key, "to'u") || word_is(key, "u'a") || word_is(key, "ua")
        || word_is(key, "u'e") || word_is(key, "ue") || word_is(key, "u'i")
        || word_is(key, "ui") || word_is(key, "u'o") || word_is(key, "uo")
        || word_is(key, "u'u") || word_is(key, "uu") || word_is(key, "va'i")
        || word_is(key, "vu'e") || word_is(key, "xu") || word_is(key, "za'a")
        || word_is(key, "zo'o") || word_is(key, "zu'u")
    {
        Some((Selmaho::Ui, false))
    } else {
        None
    }
}

/// The known cmavo of Ui.
pub open spec fn known_ui_2(key: Seq<u8>) -> Option<(Selmaho, bool)> {
    if is_word(key, "fai'a") || is_word(key, "rau'o") || is_word(key, "si'ai")
        || is_word(key, "tai'a") || is_word(key, "tei'i") || is_word(key, "tei'o")
        || is_word(key, "uau'o") || is_word(key, "ue'e") || is_word(key, "uei'e")
        || is_word(key, "ui'a") || is_word(key, "ui'o") || is_word(key, "va'u'au")
        || is_word(key, "fu'ei'a") || is_word(key, "fu'ei'e") || is_word(key, "fu'ei'i")
        || is_word(key, "fi'ei'o") || is_word(key, "fu'ei'u") || is_word(key, "ii'au")
        || is_word(key, "au'o") || is_word(key, "a'u'u") || is_word(key, "ca'e'ei")
        || is_word(key, "ci'ai") || is_word(key, "cu'ei") || is_word(key, "cu'ei'a")
        || is_word(key, "cu'ei'ai") || is_word(key, "cu'ei'e") || is_word(key, "cu'ei'ei")
        || is_word(key, "cu'ei'i") || is_word(key, "cu'ei'o") || is_word(key, "cu'ei'oi")
        || is_word(key, "cu'ei'u") || is_word(key, "coi'o'e") || is_word(key, "doi'au")
        || is_word(key, "e'au") || is_word(key, "ei'u") || is_word(key, "mu'au'oi")
        || is_word(key, "oi'a") || is_word(key, "pau'ai") || is_word(key, "pau'i")
        || is_word(key, "zei'i") || is_word(key, "su'a'a") || is_word(key, "zi'ei")
        || is_word(key, "u'ai") || is_word(key, "uai") || is_word(key, "uau")
        || is_word(key, "ue'i") || is_word(key, "ui'i") || is_word(key, "uo'o")
        || is_word(key, "uu'i") || is_word(key, "ia'u") || is_word(key, "ie'e")
        || is_word(key, "ie'i") || is_word(key, "a'au") || is_word(key, "ai'i")
        || is_word(key, "au'u") || is_word(key, "ci'au'u'au'i") || is_word(key, "e'ei")
        || is_word(key, "ei'au") || is_word(key, "ei'e") || is_word(key, "ei'i")
        || is_word(key, "mau'u") || is_word(key, "mi'au") || is_word(key, "ne'au")
        || is_word(key, "oi'o") || is_word(key, "oi'u") || is_word(key, "ri'ai")
        || is_word(key, "sei'i") || is_word(key, "si'au") || is_word(key, "jei'u")
        || is_word(key, "ju'oi") || is_word(key, "kai'a") || is_word(key, "kai'e")
        || is_word(key, "ki'au") || is_word(key, "lai'i") || is_word(key, "moi'i")
        || is_word(key, "pei'e") || is_word(key, "za'au") || is_word(key, "vo'oi")
        || is_word(key, "vei'i") || is_word(key, "ta'ei") || is_word(key, "te'i'o")
        || is_word(key, "xa'i") || is_word(key, "xu'a") || is_word(key, "fu'au")
        || is_word(key, "je'au") || is_word(key, "so'ei") || is_word(key, "sy'a")
        || is_word(key, "xe'o") || is_word(key, "roi'i") || is_word(key, "pei'o")
        || is_word(key, "ra'i'au") || is_word(key, "xo'o") || is_word(key, "jau'i")
        || is_word(key, "ji'ei") || is_word(key, "bo'oi") || is_word(key, "dai'a")
        || is_word(key, "noi'u") || is_word(key, "zai'a") || is_word(key, "ki'a'au'u'au'i")
        || is_word(key, "ko'oi")
        || is_word(key, "cu'u'u'u'u'u'u'u'u'u'u'u'u'u'u'u'u'u'u'u'u'u'u'u'u'u'u'u'u'u'u'u'u'u'u'u'u'u'u'u'u'u'u'u'u'u'u'u'u")
    {
        Some((Selmaho::Ui, true))
    } else {
        None
    }
}

fn find_ui_2(key: &[u8]) -> (found: Option<(Selmaho, bool)>)
    ensures
        found == known_ui_2(key@),
{
    if word_is(key, "fai'a") || word_is(key, "rau'o") || word_is(key, "si'ai")
        || word_is(key, "tai'a") || word_is(key, "tei'i") || word_is(key, "tei'o")
        || word_is(key, "uau'o") || word_is(key, "ue'e") || word_is(key, "uei'e")
        || word_is(key, "ui'a") || word_is(key, "ui'o") || word_is(key, "va'u'au")
        || word_is(key, "fu'ei'a") || word_is(key, "fu'ei'e") || word_is(key, "fu'ei'i")
        || word_is(key, "fi'ei'o") || word_is(key, "fu'ei'u") || word_is(key, "ii'au")
        || word_is(key, "au'o") || word_is(key, "a'u'u") || word_is(key, "ca'e'ei")
        || word_is(key, "ci'ai") || word_is(key, "cu'ei") || word_is(key, "cu'ei'a")
        || word_is(key, "cu'ei'ai") || word_is(key, "cu'ei'e") || word_is(key, "cu'ei'ei")
        || word_is(key, "cu'ei'i") || word_is(key, "cu'ei'o") || word_is(key, "cu'ei'oi")
        || word_is(key, "cu'ei'u") || word_is(key, "coi'o'e") || word_is(key, "doi'au")
        || word_is(key, "e'au") || word_is(key, "ei'u") || word_is(key, "mu'au'oi")
        || word_is(key, "oi'a") || word_is(key, "pau'ai") || word_is(key, "pau'i")
        || word_is(key, "zei'i") || word_is(key, "su'a'a") || word_is(key, "zi'ei")
        || word_is(key, "u'ai") || word_is(key, "uai") || word_is(key, "uau")
        || word_is(key, "ue'i") || word_is(key, "ui'i") || word_is(key, "uo'o")
        || word_is(key, "uu'i") || word_is(key, "ia'u") || word_is(key, "ie'e")
        || word_is(key, "ie'i") || word_is(key, "a'au") || word_is(key, "ai'i")
        || word_is(key, "au'u") || word_is(key, "ci'au'u'au'i") || word_is(key, "e'ei")
        || word_is(key, "ei'au") || word_is(key, "ei'e") || word_is(key, "ei'i")
        || word_is(key, "mau'u") || word_is(key, "mi'au") || word_is(key, "ne'au")
        || word_is(key, "oi'o") || word_is(key, "oi'u") || word_is(key, "ri'ai")
        || word_is(key, "sei'i") || word_is(key, "si'au") || word_is(key, "jei'u")
        || word_is(key, "ju'oi") || word_is(key, "kai'a") || word_is(key, "kai'e")
        || word_is(key, "ki'au") || word_is(key, "lai'i") || word_is(key, "moi'i")
        || word_is(key, "pei'e") || word_is(key, "za'au") || word_is(key, "vo'oi")
        || word_is(key, "vei'i") || word_is(key, "ta'ei") || word_is(key, "te'i'o")
        || word_is(key, "xa'i") || word_is(key, "xu'a") || word_is(key, "fu'au")
        || word_is(key, "je'au") || word_is(key, "so'ei") || word_is(key, "sy'a")
        || word_is(key, "xe'o") || word_is(key, "roi'i") || word_is(key, "pei'o")
        || word_is(key, "ra'i'au") || word_is(key, "xo'o") || word_is(key, "jau'i")
        || word_is(key, "ji'ei") || word_is(key, "bo'oi") || word_is(key, "dai'a")
        || word_is(key, "noi'u") || word_is(key, "zai'a") || word_is(key, "ki'a'au'u'au'i")
        || word_is(key, "ko'oi")
        || word_is(key, "cu'u'u'u'u'u'u'u'u'u'u'u'u'u'u'u'u'u'u'u'u'u'u'u'u'u'u'u'u'u'u'u'u'u'u'u'u'u'u'u'u'u'u'u'u'u'u'u'u")
    {
        Some((Selmaho::Ui, true))
    } else {
        None
    }
}

/// The known cmavo from those of Va to those of Vuhu.
pub open spec fn known_va_to_vuhu(key: Seq<u8>) -> Option<(Selmaho, bool)> {
    if is_word(key, "va") || is_word(key, "vi") || is_word(key, "vu") {
        Some((Selmaho::Va, false))
    } else if is_word(key, "xa'e") {
        Some((Selmaho::Va, true))
    } else if is_word(key, "vau") {
        Some((Selmaho::Vau, false))
    } else if is_word(key, "vei") {
        Some((Selmaho::Vei, false))
    } else if is_word(key, "ve'a") || is_word(key, "ve'e") || is_word(key, "ve'i")
        || is_word(key, "ve'u")
    {
        Some((Selmaho::Veha, false))
    } else if is_word(key, "ve'o") {
        Some((Selmaho::Veho, false))
    } else if is_word(key, "ve'oi") {
        Some((Selmaho::Veho, true))
    } else if is_word(key, "vi'a") || is_word(key, "vi'u") || is_word(key, "vi'e")
        || is_word(key, "vi'i")
    {
        Some((Selmaho::Viha, false))
    } else if is_word(key, "vu'o") {
        Some((Selmaho::Vuho, false))
    } else if is_word(key, "cu'a") || is_word(key, "de'o") || is_word(key, "fa'i")
        || is_word(key, "fe'a") || is_word(key, "fe'i") || is_word(key, "fu'u")
        || is_word(key, "ge'a") || is_word(key, "gei") || is_word(key, "ju'u")
        || is_word(key, "ne'o") || is_word(key, "pa'i") || is_word(key, "pi'a")
        || is_word(key, "pi'i") || is_word(key, "re'a") || is_word(key, "ri'o")
        || is_word(key, "sa'i") || is_word(key, "sa'o") || is_word(key, "si'i")
        || is_word(key, "su'i") || is_word(key, "te'a") || is_word(key, "va'a")
        || is_word(key, "vu'u")
    {
        Some((Selmaho::Vuhu, false))
    } else {
        None
    }
}

fn find_va_to_vuhu(key: &[u8]) -> (found: Option<(Selmaho, bool)>)
    ensures
        found == known_va_to_vuhu(key@),
{
    if word_is(key, "va") || word_is(key, "vi") || word_is(key, "vu") {
        Some((Selmaho::Va, false))
    } else if word_is(key, "xa'e") {
        Some((Selmaho::Va, true))
    } else if word_is(key, "vau") {
        Some((Selmaho::Vau, false))
    } else if word_is(key, "vei") {
        Some((Selmaho::Vei, false))
    } else if word_is(key, "ve'a") || word_is(key, "ve'e") || word_is(key, "ve'i")
        || word_is(key, "ve'u")
    {
        Some((Selmaho::Veha, false))
    } else if word_is(key, "ve'o") {
        Some((Selmaho::Veho, false))
    } else if word_is(key, "ve'oi") {
        Some((Selmaho::Veho, true))
    } else if word_is(key, "vi'a") || word_is(key, "vi'u") || word_is(key, "vi'e")
        || word_is(key, "vi'i")
    {
        Some((Selmaho::Viha, false))
    } else if word_is(key, "vu'o") {
        Some((Selmaho::Vuho, false))
    } else if word_is(key, "cu'a") || word_is(key, "de'o") || word_is(key, "fa'i")
        || word_is(key, "fe'a") || word_is(key, "fe'i") || word_is(key, "fu'u")
        || word_is(key, "ge'a") || word_is(key, "gei") || word_is(key, "ju'u")
        || word_is(key, "ne'o") || word_is(key, "pa'i") || word_is(key, "pi'a")
        || word_is(key, "pi'i") || word_is(key, "re'a") || word_is(key, "ri'o")
        || word_is(key, "sa'i") || word_is(key, "sa'o") || word_is(key, "si'i")
        || word_is(key, "su'i") || word_is(key, "te'a") || word_is(key, "va'a")
        || word_is(key, "vu'u")
    {
        Some((Selmaho::Vuhu, false))
    } else {
        None
    }
}

/// The known cmavo from those of Vuhu to those of Xi.
pub open spec fn known_vuhu_to_xi(key: Seq<u8>) -> Option<(Selmaho, bool)> {
    if is_word(key, "bai'ei") || is_word(key, "bai'i") || is_word(key, "bai'i'i")
        || is_word(key, "be'ei'oi") || is_word(key, "bei'u'i") || is_word(key, "boi'ai")
        || is_word(key, "ca'ei'a") || is_word(key, "ca'o'e") || is_word(key, "ca'oi")
        || is_word(key, "ci'ai'u") || is_word(key, "ci'au'i") || is_word(key, "ci'o'au")
        || is_word(key, "cu'ai") || is_word(key, "cu'au'ei") || is_word(key, "da'a'au")
        || is_word(key, "de'au'u") || is_word(key, "dei'au'o") || is_word(key, "di'ei'o'au")
        || is_word(key, "du'a'e") || is_word(key, "du'a'o") || is_word(key, "du'ei")
        || is_word(key, "fa'ai") || is_word(key, "fa'ai'ai") || is_word(key, "fa'au")
        || is_word(key, "fau'i") || is_word(key, "fe'au'u") || is_word(key, "fe'ei")
        || is_word(key, "fei'i") || is_word(key, "ga'ai") || is_word(key, "gau'a")
        || is_word(key, "gu'ai") || is_word(key, "gu'au'i") || is_word(key, "jau'au")
        || is_word(key, "je'e'e") || is_word(key, "ji'e'ai") || is_word(key, "ji'i'u")
        || is_word(key, "ji'i'u'u") || is_word(key, "joi'i") || is_word(key, "ka'au")
        || is_word(key, "ku'au'a") || is_word(key, "lau'au") || is_word(key, "ma'au")
        || is_word(key, "mai'u") || is_word(key, "ma'o'e") || is_word(key, "me'ei'o")
        || is_word(key, "mu'ai'au") || is_word(key, "mu'au") || is_word(key, "nei'au")
        || is_word(key, "ne'oi") || is_word(key, "no'au'au") || is_word(key, "pau'a'u")
        || is_word(key, "pau'ei") || is_word(key, "pau'oi") || is_word(key, "pei'e'a")
        || is_word(key, "pi'au'e") || is_word(key, "pi'ei") || is_word(key, "pi'ei'au")
        || is_word(key, "pi'ei'oi") || is_word(key, "po'i'oi") || is_word(key, "ra'i'e")
        || is_word(key, "rai'i") || is_word(key, "ru'ei") || is_word(key, "sau'i")
        || is_word(key, "se'i'a'o") || is_word(key, "si'oi'e") || is_word(key, "su'i'e")
        || is_word(key, "su'i'o") || is_word(key, "tai'e'i") || is_word(key, "tai'i'e")
        || is_word(key, "te'au'u") || is_word(key, "te'i'ai") || is_word(key, "tei'au")
        || is_word(key, "te'o'a") || is_word(key, "te'oi'i") || is_word(key, "to'ei'au")
        || is_word(key, "vau'i") || is_word(key, "vei'u") || is_word(key, "vi'oi'au")
        || is_word(key, "vo'au'u") || is_word(key, "xa'ai") || is_word(key, "xo'ei")
        || is_word(key, "xo'e'o'ei") || is_word(key, "za'ei") || is_word(key, "zei'i'au")
        || is_word(key, "zi'a'o") || is_word(key, "zu'oi")
    {
        Some((Selmaho::Vuhu, true))
    } else if is_word(key, "xi") {
        Some((Selmaho::Xi, false))
    } else {
        None
    }
}

fn find_vuhu_to_xi(key: &[u8]) -> (found: Option<(Selmaho, bool)>)
    ensures
        found == known_vuhu_to_xi(key@),
{
    if word_is(key, "bai'ei") || word_is(key, "bai'i") || word_is(key, "bai'i'i")
        || word_is(key, "be'ei'oi") || word_is(key, "bei'u'i") || word_is(key, "boi'ai")
        || word_is(key, "ca'ei'a") || word_is(key, "ca'o'e") || word_is(key, "ca'oi")
        || word_is(key, "ci'ai'u") || word_is(key, "ci'au'i") || word_is(key, "ci'o'au")
        || word_is(key, "cu'ai") || word_is(key, "cu'au'ei") || word_is(key, "da'a'au")
        || word_is(key, "de'au'u") || word_is(key, "dei'au'o") || word_is(key, "di'ei'o'au")
        || word_is(key, "du'a'e") || word_is(key, "du'a'o") || word_is(key, "du'ei")
        || word_is(key, "fa'ai") || word_is(key, "fa'ai'ai") || word_is(key, "fa'au")
        || word_is(key, "fau'i") || word_is(key, "fe'au'u") || word_is(key, "fe'ei")
        || word_is(key, "fei'i") || word_is(key, "ga'ai") || word_is(key, "gau'a")
        || word_is(key, "gu'ai") || word_is(key, "gu'au'i") || word_is(key, "jau'au")
        || word_is(key, "je'e'e") || word_is(key, "ji'e'ai") || word_is(key, "ji'i'u")
        || word_is(key, "ji'i'u'u") || word_is(key, "joi'i") || word_is(key, "ka'au")
        || word_is(key, "ku'au'a") || word_is(key, "lau'au") || word_is(key, "ma'au")
        || word_is(key, "mai'u") || word_is(key, "ma'o'e") || word_is(key, "me'ei'o")
        || word_is(key, "mu'ai'au") || word_is(key, "mu'au") || word_is(key, "nei'au")
        || word_is(key, "ne'oi") || word_is(key, "no'au'au") || word_is(key, "pau'a'u")
        || word_is(key, "pau'ei") || word_is(key, "pau'oi") || word_is(key, "pei'e'a")
        || word_is(key, "pi'au'e") || word_is(key, "pi'ei") || word_is(key, "pi'ei'au")
        || word_is(key, "pi'ei'oi") || word_is(key, "po'i'oi") || word_is(key, "ra'i'e")
        || word_is(key, "rai'i") || word_is(key, "ru'ei") || word_is(key, "sau'i")
        || word_is(key, "se'i'a'o") || word_is(key, "si'oi'e") || word_is(key, "su'i'e")
        || word_is(key, "su'i'o") || word_is(key, "tai'e'i") || word_is(key, "tai'i'e")
        || word_is(key, "te'au'u") || word_is(key, "te'i'ai") || word_is(key, "tei'au")
        || word_is(key, "te'o'a") || word_is(key, "te'oi'i") || word_is(key, "to'ei'au")
        || word_is(key, "vau'i") || word_is(key, "vei'u") || word_is(key, "vi'oi'au")
        || word_is(key, "vo'au'u") || word_is(key, "xa'ai") || word_is(key, "xo'ei")
        || word_is(key, "xo'e'o'ei") || word_is(key, "za'ei") || word_is(key, "zei'i'au")
        || word_is(key, "zi'a'o") || word_is(key, "zu'oi")
    {
        Some((Selmaho::Vuhu, true))
    } else if word_is(key, "xi") {
        Some((Selmaho::Xi, false))
    } else {
        None
    }
}

/// The known cmavo from those of Xi to those of Jihoi.
pub open spec fn known_xi_to_jihoi(key: Seq<u8>) -> Option<(Selmaho, bool)> {
    if is_word(key, "fau'e") || is_word(key, "te'ai") || is_word(key, "xi'e")
        || is_word(key, "xi'i")
    {
        Some((Selmaho::Xi, true))
    } else if all_y(key) {
        Some((Selmaho::Y, false))
    } else if is_word(key, "ie'o") || is_word(key, "ko'o'o'o'o") {
        Some((Selmaho::Y, true))
    } else if is_word(key, "za'o") || is_word(key, "ba'o") || is_word(key, "pu'o")
        || is_word(key, "ca'o") || is_word(key, "co'a") || is_word(key, "co'i")
        || is_word(key, "co'u") || is_word(key, "de'a") || is_word(key, "di'a")
        || is_word(key, "mo'u")
    {
        Some((Selmaho::Zaho, false))
    } else if is_word(key, "sau'a") || is_word(key, "xo'u") || is_word(key, "ca'o'a")
        || is_word(key, "co'a'a") || is_word(key, "co'au'a") || is_word(key, "co'u'a")
        || is_word(key, "xa'o")
    {
        Some((Selmaho::Zaho, true))
    } else if is_word(key, "zei") {
        Some((Selmaho::Zei, false))
    } else if is_word(key, "ze'a") || is_word(key, "ze'e") || is_word(key, "ze'i")
        || is_word(key, "ze'u")
    {
        Some((Selmaho::Zeha, false))
    } else if is_word(key, "zei'au") {
        Some((Selmaho::Zeha, true))
    } else if is_word(key, "zi") || is_word(key, "za") || is_word(key, "zu") {
        Some((Selmaho::Zi, false))
    } else if is_word(key, "za'ai") {
        Some((Selmaho::Zi, true))
    } else if is_word(key, "zi'e") {
        Some((Selmaho::Zihe, false))
    } else if is_word(key, "zo") {
        Some((Selmaho::Zo, false))
    } else if is_word(key, "ra'ai") || is_word(key, "doi'u") || is_word(key, "ma'oi")
        || is_word(key, "ma'oi'e")
    {
        Some((Selmaho::Zo, true))
    } else if is_word(key, "zoi") || is_word(key, "la'o") {
        Some((Selmaho::Zoi, false))
    } else if is_word(key, "zo'u") {
        Some((Selmaho::Zohu, false))
    } else if is_word(key, "fi'ai") || is_word(key, "ge'ai") || is_word(key, "ke'au")
        || is_word(key, "ce'ai")
    {
        Some((Selmaho::Zohu, true))
    } else if is_word(key, "ba'ei") {
        Some((Selmaho::Bahei, false))
    } else if is_word(key, "bei'e") {
        Some((Selmaho::Beihe, false))
    } else if is_word(key, "boi'oi") {
        Some((Selmaho::Boihoi, false))
    } else if is_word(key, "ca'ei") || is_word(key, "pu'ei") {
        Some((Selmaho::Cahei, false))
    } else if is_word(key, "ce'ei'oi") {
        Some((Selmaho::Ceheihoi, false))
    } else if is_word(key, "co'ai") {
        Some((Selmaho::Cohai, false))
    } else if is_word(key, "co'e'o'e") {
        Some((Selmaho::Cohehohe, false))
    } else if is_word(key, "co'u'o") {
        Some((Selmaho::Cohuho, false))
    } else if is_word(key, "cu'au") {
        Some((Selmaho::Cuhau, false))
    } else if is_word(key, "dau'o") {
        Some((Selmaho::Dauho, false))
    } else if is_word(key, "de'ai") {
        Some((Selmaho::Dehai, false))
    } else if is_word(key, "dau'a") || is_word(key, "de'au") || is_word(key, "de'oi")
        || is_word(key, "doi'a")
    {
        Some((Selmaho::Dehau, false))
    } else if is_word(key, "do'oi") {
        Some((Selmaho::Dohoi, false))
    } else if is_word(key, "fau'a") || is_word(key, "fau'ai") {
        Some((Selmaho::Fauha, false))
    } else if is_word(key, "fa'o'o") {
        Some((Selmaho::Fahoho, false))
    } else if is_word(key, "fi'oi") {
        Some((Selmaho::Fihoi, false))
    } else if is_word(key, "foi'e") {
        Some((Selmaho::Foihe, false))
    } else if is_word(key, "ga'u'au") || is_word(key, "ni'a'a") {
        Some((Selmaho::Gahuhau, false))
    } else if is_word(key, "ge'u'i") {
        Some((Selmaho::Gehuhi, false))
    } else if is_word(key, "gi'ei") {
        Some((Selmaho::Gihei, false))
    } else if is_word(key, "gi'oi") {
        Some((Selmaho::Gihoi, false))
    } else if is_word(key, "bo'ei") || is_word(key, "go'oi") || is_word(key, "sau'e")
        || is_word(key, "ta'ai") || is_word(key, "ze'oi")
    {
        Some((Selmaho::Gohoi, false))
    } else if is_word(key, "iau") || is_word(key, "i'au") {
        Some((Selmaho::Ihau, false))
    } else if is_word(key, "jai'a") {
        Some((Selmaho::Jaiha, false))
    } else if is_word(key, "jai'i") {
        Some((Selmaho::Jaihi, false))
    } else if is_word(key, "jau'u") {
        Some((Selmaho::Jauhu, false))
    } else if is_word(key, "fau'au") || is_word(key, "ja'oi") {
        Some((Selmaho::Jahoi, false))
    } else if is_word(key, "ji'oi") || is_word(key, "ni'oi") {
        Some((Selmaho::Jihoi, false))
    } else {
        None
    }
}

fn find_xi_to_jihoi(key: &[u8]) -> (found: Option<(Selmaho, bool)>)
    ensures
        found == known_xi_to_jihoi(key@),
{
    if word_is(key, "fau'e") || word_is(key, "te'ai") || word_is(key, "xi'e")
        || word_is(key, "xi'i")
    {
        Some((Selmaho::Xi, true))
    } else if only_y(key) {
        Some((Selmaho::Y, false))
    } else if word_is(key, "ie'o") || word_is(key, "ko'o'o'o'o") {
        Some((Selmaho::Y, true))
    } else if word_is(key, "za'o") || word_is(key, "ba'o") || word_is(key, "pu'o")
        || word_is(key, "ca'o") || word_is(key, "co'a") || word_is(key, "co'i")
        || word_is(key, "co'u") || word_is(key, "de'a") || word_is(key, "di'a")
        || word_is(key, "mo'u")
    {
        Some((Selmaho::Zaho, false))
    } else if word_is(key, "sau'a") || word_is(key, "xo'u") || word_is(key, "ca'o'a")
        || word_is(key, "co'a'a") || word_is(key, "co'au'a") || word_is(key, "co'u'a")
        || word_is(key, "xa'o")
    {
        Some((Selmaho::Zaho, true))
    } else if word_is(key, "zei") {
        Some((Selmaho::Zei, false))
    } else if word_is(key, "ze'a") || word_is(key, "ze'e") || word_is(key, "ze'i")
        || word_is(key, "ze'u")
    {
        Some((Selmaho::Zeha, false))
    } else if word_is(key, "zei'au") {
        Some((Selmaho::Zeha, true))
    } else if word_is(key, "zi") || word_is(key, "za") || word_is(key, "zu") {
        Some((Selmaho::Zi, false))
    } else if word_is(key, "za'ai") {
        Some((Selmaho::Zi, true))
    } else if word_is(key, "zi'e") {
        Some((Selmaho::Zihe, false))
    } else if word_is(key, "zo") {
        Some((Selmaho::Zo, false))
    } else if word_is(key, "ra'ai") || word_is(key, "doi'u") || word_is(key, "ma'oi")
        || word_is(key, "ma'oi'e")
    {
        Some((Selmaho::Zo, true))
    } else if word_is(key, "zoi") || word_is(key, "la'o") {
        Some((Selmaho::Zoi, false))
    } else if word_is(key, "zo'u") {
        Some((Selmaho::Zohu, false))
    } else if word_is(key, "fi'ai") || word_is(key, "ge'ai") || word_is(key, "ke'au")
        || word_is(key, "ce'ai")
    {
        Some((Selmaho::Zohu, true))
    } else if word_is(key, "ba'ei") {
        Some((Selmaho::Bahei, false))
    } else if word_is(key, "bei'e") {
        Some((Selmaho::Beihe, false))
    } else if word_is(key, "boi'oi") {
        Some((Selmaho::Boihoi, false))
    } else if word_is(key, "ca'ei") || word_is(key, "pu'ei") {
        Some((Selmaho::Cahei, false))
    } else if word_is(key, "ce'ei'oi") {
        Some((Selmaho::Ceheihoi, false))
    } else if word_is(key, "co'ai") {
        Some((Selmaho::Cohai, false))
    } else if word_is(key, "co'e'o'e") {
        Some((Selmaho::Cohehohe, false))
    } else if word_is(key, "co'u'o") {
        Some((Selmaho::Cohuho, false))
    } else if word_is(key, "cu'au") {
        Some((Selmaho::Cuhau, false))
    } else if word_is(key, "dau'o") {
        Some((Selmaho::Dauho, false))
    } else if word_is(key, "de'ai") {
        Some((Selmaho::Dehai, false))
    } else if word_is(key, "dau'a") || word_is(key, "de'au") || word_is(key, "de'oi")
        || word_is(key, "doi'a")
    {
        Some((Selmaho::Dehau, false))
    } else if word_is(key, "do'oi") {
        Some((Selmaho::Dohoi, false))
    } else if word_is(key, "fau'a") || word_is(key, "fau'ai") {
        Some((Selmaho::Fauha, false))
    } else if word_is(key, "fa'o'o") {
        Some((Selmaho::Fahoho, false))
    } else if word_is(key, "fi'oi") {
        Some((Selmaho::Fihoi, false))
    } else if word_is(key, "foi'e") {
        Some((Selmaho::Foihe, false))
    } else if word_is(key, "ga'u'au") || word_is(key, "ni'a'a") {
        Some((Selmaho::Gahuhau, false))
    } else if word_is(key, "ge'u'i") {
        Some((Selmaho::Gehuhi, false))
    } else if word_is(key, "gi'ei") {
        Some((Selmaho::Gihei, false))
    } else if word_is(key, "gi'oi") {
        Some((Selmaho::Gihoi, false))
    } else if word_is(key, "bo'ei") || word_is(key, "go'oi") || word_is(key, "sau'e")
        || word_is(key, "ta'ai") || word_is(key, "ze'oi")
    {
        Some((Selmaho::Gohoi, false))
    } else if word_is(key, "iau") || word_is(key, "i'au") {
        Some((Selmaho::Ihau, false))
    } else if word_is(key, "jai'a") {
        Some((Selmaho::Jaiha, false))
    } else if word_is(key, "jai'i") {
        Some((Selmaho::Jaihi, false))
    } else if word_is(key, "jau'u") {
        Some((Selmaho::Jauhu, false))
    } else if word_is(key, "fau'au") || word_is(key, "ja'oi") {
        Some((Selmaho::Jahoi, false))
    } else if word_is(key, "ji'oi") || word_is(key, "ni'oi") {
        Some((Selmaho::Jihoi, false))
    } else {
        None
    }
}

/// The known cmavo from those of Joihi to those of Tahuhi.
pub open spec fn known_joihi_to_tahuhi(key: Seq<u8>) -> Option<(Selmaho, bool)> {
    if is_word(key, "boi'au") || is_word(key, "fa'ei") || is_word(key, "gei'i'e") {
        Some((Selmaho::Joihi, false))
    } else if is_word(key, "xa'ei'o") || is_word(key, "xa'ei'u") {
        Some((Selmaho::Johe, false))
    } else if is_word(key, "ju'au") {
        Some((Selmaho::Juhau, false))
    } else if is_word(key, "ju'ei") {
        Some((Selmaho::Juhei, false))
    } else if is_word(key, "ju'u'i") {
        Some((Selmaho::Juhuhi, false))
    } else if is_word(key, "kau'ai") || is_word(key, "kau'au") {
        Some((Selmaho::Kauhai, false))
    } else if is_word(key, "kau'u") {
        Some((Selmaho::Kauhu, false))
    } else if is_word(key, "kei'au") {
        Some((Selmaho::Keihau, false))
    } else if is_word(key, "kei'i") {
        Some((Selmaho::Keihi, false))
    } else if is_word(key, "ke'ei") {
        Some((Selmaho::Kehei, false))
    } else if is_word(key, "ke'ei'a") {
        Some((Selmaho::Keheiha, false))
    } else if is_word(key, "ke'e'au") {
        Some((Selmaho::Kehehau, false))
    } else if is_word(key, "ke'e'u") {
        Some((Selmaho::Kehehu, false))
    } else if is_word(key, "ke'u'i") {
        Some((Selmaho::Kehuhi, false))
    } else if is_word(key, "ku'au") {
        Some((Selmaho::Kuhau, false))
    } else if is_word(key, "ku'ei") {
        Some((Selmaho::Kuhei, false))
    } else if is_word(key, "ku'oi'u") {
        Some((Selmaho::Kuhoihu, false))
    } else if is_word(key, "fy'oi") || is_word(key, "ky'oi") {
        Some((Selmaho::Kyhoi, false))
    } else if is_word(key, "le'ai") {
        Some((Selmaho::Lehai, false))
    } else if is_word(key, "li'au") {
        Some((Selmaho::Lihau, false))
    } else if is_word(key, "li'ei") {
        Some((Selmaho::Lihei, false))
    } else if is_word(key, "lo'ai") || is_word(key, "sa'ai") {
        Some((Selmaho::Lohai, false))
    } else if is_word(key, "fo'ai") || is_word(key, "ko'ai") || is_word(key, "koi'i")
        || is_word(key, "lo'oi") || is_word(key, "mau'a") || is_word(key, "xau'a")
        || is_word(key, "xu'u")
    {
        Some((Selmaho::Lohoi, false))
    } else if is_word(key, "lu'ei") {
        Some((Selmaho::Luhei, false))
    } else if is_word(key, "mau'au") {
        Some((Selmaho::Mauhau, false))
    } else if is_word(key, "mau'e") {
        Some((Selmaho::Mauhe, false))
    } else if is_word(key, "mau'o") {
        Some((Selmaho::Mauho, false))
    } else if is_word(key, "mei'e") {
        Some((Selmaho::Meihe, false))
    } else if is_word(key, "mei'o") {
        Some((Selmaho::Meiho, false))
    } else if is_word(key, "me'oi") {
        Some((Selmaho::Mehoi, false))
    } else if is_word(key, "mu'oi") {
        Some((Selmaho::Muhoi, false))
    } else if is_word(key, "mu'o'u") {
        Some((Selmaho::Muhohu, false))
    } else if is_word(key, "nei'ai") {
        Some((Selmaho::Neihai, false))
    } else if is_word(key, "noi'a") || is_word(key, "poi'a") || is_word(key, "poi'o'a")
        || is_word(key, "soi'a")
    {
        Some((Selmaho::Noiha, false))
    } else if is_word(key, "noi'au") || is_word(key, "poi'au") {
        Some((Selmaho::Noihau, false))
    } else if is_word(key, "noi'a'u") || is_word(key, "poi'a'u") {
        Some((Selmaho::Noihahu, false))
    } else if is_word(key, "noi'i") {
        Some((Selmaho::Noihi, false))
    } else if is_word(key, "no'oi") || is_word(key, "po'oi") {
        Some((Selmaho::Nohoi, false))
    } else if is_word(key, "rau'oi") {
        Some((Selmaho::Rauho, false))
    } else if is_word(key, "re'ai'e") {
        Some((Selmaho::Rehaihe, false))
    } else if is_word(key, "sau'u") {
        Some((Selmaho::Sauhu, false))
    } else if is_word(key, "sa'au") {
        Some((Selmaho::Sahau, false))
    } else if is_word(key, "sa'oi") {
        Some((Selmaho::Sahoi, false))
    } else if is_word(key, "sei'au") {
        Some((Selmaho::Seihau, false))
    } else if is_word(key, "sei'o") {
        Some((Selmaho::Seiho, false))
    } else if is_word(key, "se'e'i") || is_word(key, "te'e'a") || is_word(key, "te'e'i")
        || is_word(key, "ve'e'a") || is_word(key, "ve'e'i") || is_word(key, "ve'e'u")
        || is_word(key, "xe'e'i") || is_word(key, "xe'e'o") || is_word(key, "xe'e'u")
        || is_word(key, "ze'e'a") || is_word(key, "ze'e'au") || is_word(key, "ze'e'e")
        || is_word(key, "ze'e'i") || is_word(key, "ze'e'o") || is_word(key, "ze'e'u")
    {
        Some((Selmaho::Sehehi, false))
    } else if is_word(key, "se'oi'oi") {
        Some((Selmaho::Sehoihoi, false))
    } else if is_word(key, "si'i'ei") {
        Some((Selmaho::Sihihei, false))
    } else if is_word(key, "si'i'oi") {
        Some((Selmaho::Sihihoi, false))
    } else if is_word(key, "si'oi") {
        Some((Selmaho::Sihoi, false))
    } else if is_word(key, "soi'i") {
        Some((Selmaho::Soihi, false))
    } else if is_word(key, "so'e'ai") {
        Some((Selmaho::Sohehai, false))
    } else if is_word(key, "so'oi") {
        Some((Selmaho::Sohoi, false))
    } else if is_word(key, "tai'u") {
        Some((Selmaho::Taihu, false))
    } else if is_word(key, "tau'o") {
        Some((Selmaho::Tauho, false))
    } else if is_word(key, "ta'oi") {
        Some((Selmaho::Tahoi, false))
    } else if is_word(key, "ta'u'i") || is_word(key, "ta'u'u") {
        Some((Selmaho::Tahuhi, false))
    } else {
        None
    }
}

fn find_joihi_to_tahuhi(key: &[u8]) -> (found: Option<(Selmaho, bool)>)
    ensures
        found == known_joihi_to_tahuhi(key@),
{
    if word_is(key, "boi'au") || word_is(key, "fa'ei") || word_is(key, "gei'i'e") {
        Some((Selmaho::Joihi, false))
    } else if word_is(key, "xa'ei'o") || word_is(key, "xa'ei'u") {
        Some((Selmaho::Johe, false))
    } else if word_is(key, "ju'au") {
        Some((Selmaho::Juhau, false))
    } else if word_is(key, "ju'ei") {
        Some((Selmaho::Juhei, false))
    } else if word_is(key, "ju'u'i") {
        Some((Selmaho::Juhuhi, false))
    } else if word_is(key, "kau'ai") || word_is(key, "kau'au") {
        Some((Selmaho::Kauhai, false))
    } else if word_is(key, "kau'u") {
        Some((Selmaho::Kauhu, false))
    } else if word_is(key, "kei'au") {
        Some((Selmaho::Keihau, false))
    } else if word_is(key, "kei'i") {
        Some((Selmaho::Keihi, false))
    } else if word_is(key, "ke'ei") {
        Some((Selmaho::Kehei, false))
    } else if word_is(key, "ke'ei'a") {
        Some((Selmaho::Keheiha, false))
    } else if word_is(key, "ke'e'au") {
        Some((Selmaho::Kehehau, false))
    } else if word_is(key, "ke'e'u") {
        Some((Selmaho::Kehehu, false))
    } else if word_is(key, "ke'u'i") {
        Some((Selmaho::Kehuhi, false))
    } else if word_is(key, "ku'au") {
        Some((Selmaho::Kuhau, false))
    } else if word_is(key, "ku'ei") {
        Some((Selmaho::Kuhei, false))
    } else if word_is(key, "ku'oi'u") {
        Some((Selmaho::Kuhoihu, false))
    } else if word_is(key, "fy'oi") || word_is(key, "ky'oi") {
        Some((Selmaho::Kyhoi, false))
    } else if word_is(key, "le'ai") {
        Some((Selmaho::Lehai, false))
    } else if word_is(key, "li'au") {
        Some((Selmaho::Lihau, false))
    } else if word_is(key, "li'ei") {
        Some((Selmaho::Lihei, false))
    } else if word_is(key, "lo'ai") || word_is(key, "sa'ai") {
        Some((Selmaho::Lohai, false))
    } else if word_is(key, "fo'ai") || word_is(key, "ko'ai") || word_is(key, "koi'i")
        || word_is(key, "lo'oi") || word_is(key, "mau'a") || word_is(key, "xau'a")
        || word_is(key, "xu'u")
    {
        Some((Selmaho::Lohoi, false))
    } else if word_is(key, "lu'ei") {
        Some((Selmaho::Luhei, false))
    } else if word_is(key, "mau'au") {
        Some((Selmaho::Mauhau, false))
    } else if word_is(key, "mau'e") {
        Some((Selmaho::Mauhe, false))
    } else if word_is(key, "mau'o") {
        Some((Selmaho::Mauho, false))
    } else if word_is(key, "mei'e") {
        Some((Selmaho::Meihe, false))
    } else if word_is(key, "mei'o") {
        Some((Selmaho::Meiho, false))
    } else if word_is(key, "me'oi") {
        Some((Selmaho::Mehoi, false))
    } else if word_is(key, "mu'oi") {
        Some((Selmaho::Muhoi, false))
    } else if word_is(key, "mu'o'u") {
        Some((Selmaho::Muhohu, false))
    } else if word_is(key, "nei'ai") {
        Some((Selmaho::Neihai, false))
    } else if word_is(key, "noi'a") || word_is(key, "poi'a") || word_is(key, "poi'o'a")
        || word_is(key, "soi'a")
    {
        Some((Selmaho::Noiha, false))
    } else if word_is(key, "noi'au") || word_is(key, "poi'au") {
        Some((Selmaho::Noihau, false))
    } else if word_is(key, "noi'a'u") || word_is(key, "poi'a'u") {
        Some((Selmaho::Noihahu, false))
    } else if word_is(key, "noi'i") {
        Some((Selmaho::Noihi, false))
    } else if word_is(key, "no'oi") || word_is(key, "po'oi") {
        Some((Selmaho::Nohoi, false))
    } else if word_is(key, "rau'oi") {
        Some((Selmaho::Rauho, false))
    } else if word_is(key, "re'ai'e") {
        Some((Selmaho::Rehaihe, false))
    } else if word_is(key, "sau'u") {
        Some((Selmaho::Sauhu, false))
    } else if word_is(key, "sa'au") {
        Some((Selmaho::Sahau, false))
    } else if word_is(key, "sa'oi") {
        Some((Selmaho::Sahoi, false))
    } else if word_is(key, "sei'au") {
        Some((Selmaho::Seihau, false))
    } else if word_is(key, "sei'o") {
        Some((Selmaho::Seiho, false))
    } else if word_is(key, "se'e'i") || word_is(key, "te'e'a") || word_is(key, "te'e'i")
        || word_is(key, "ve'e'a") || word_is(key, "ve'e'i") || word_is(key, "ve'e'u")
        || word_is(key, "xe'e'i") || word_is(key, "xe'e'o") || word_is(key, "xe'e'u")
        || word_is(key, "ze'e'a") || word_is(key, "ze'e'au") || word_is(key, "ze'e'e")
        || word_is(key, "ze'e'i") || word_is(key, "ze'e'o") || word_is(key, "ze'e'u")
    {
        Some((Selmaho::Sehehi, false))
    } else if word_is(key, "se'oi'oi") {
        Some((Selmaho::Sehoihoi, false))
    } else if word_is(key, "si'i'ei") {
        Some((Selmaho::Sihihei, false))
    } else if word_is(key, "si'i'oi") {
        Some((Selmaho::Sihihoi, false))
    } else if word_is(key, "si'oi") {
        Some((Selmaho::Sihoi, false))
    } else if word_is(key, "soi'i") {
        Some((Selmaho::Soihi, false))
    } else if word_is(key, "so'e'ai") {
        Some((Selmaho::Sohehai, false))
    } else if word_is(key, "so'oi") {
        Some((Selmaho::Sohoi, false))
    } else if word_is(key, "tai'u") {
        Some((Selmaho::Taihu, false))
    } else if word_is(key, "tau'o") {
        Some((Selmaho::Tauho, false))
    } else if word_is(key, "ta'oi") {
        Some((Selmaho::Tahoi, false))
    } else if word_is(key, "ta'u'i") || word_is(key, "ta'u'u") {
        Some((Selmaho::Tahuhi, false))
    } else {
        None
    }
}

/// The known cmavo from those of Teihu to those of Zohoi.
pub open spec fn known_teihu_to_zohoi(key: Seq<u8>) -> Option<(Selmaho, bool)> {
    if is_word(key, "tei'u") {
        Some((Selmaho::Teihu, false))
    } else if is_word(key, "te'oi'oi") {
        Some((Selmaho::Tehoihoi, false))
    } else if is_word(key, "toi'e") {
        Some((Selmaho::Toihe, false))
    } else if is_word(key, "toi'o") {
        Some((Selmaho::Toiho, false))
    } else if is_word(key, "vau'e'oi") {
        Some((Selmaho::Vauhehoi, false))
    } else if is_word(key, "vau'o'oi") {
        Some((Selmaho::Vauhohoi, false))
    } else if is_word(key, "vu'oi") {
        Some((Selmaho::Vuhoi, false))
    } else if is_word(key, "vy'y") {
        Some((Selmaho::Vyhy, false))
    } else if is_word(key, "xau'e'o") {
        Some((Selmaho::Xauheho, false))
    } else if is_word(key, "xa'oi'a'oi'a") {
        Some((Selmaho::Xahoihahoiha, false))
    } else if is_word(key, "xe'au") {
        Some((Selmaho::Xehau, false))
    } else if is_word(key, "no'au") || is_word(key, "xoi") {
        Some((Selmaho::Xoi, false))
    } else if is_word(key, "xo'a") {
        Some((Selmaho::Xoha, false))
    } else if is_word(key, "xo'e'o'e") {
        Some((Selmaho::Xohehohe, false))
    } else if is_word(key, "xo'i") {
        Some((Selmaho::Xohi, false))
    } else if is_word(key, "xu'au") {
        Some((Selmaho::Xuhau, false))
    } else if is_word(key, "ji'o'e") || is_word(key, "y'i") {
        Some((Selmaho::Yhi, false))
    } else if is_word(key, "zai'ai") {
        Some((Selmaho::Zaihai, false))
    } else if is_word(key, "rai'o") || is_word(key, "zai'u") {
        Some((Selmaho::Zaihu, false))
    } else if is_word(key, "zau'e'u") {
        Some((Selmaho::Zauhehu, false))
    } else if is_word(key, "zei'ei") {
        Some((Selmaho::Zeihei, false))
    } else if is_word(key, "zei'oi") {
        Some((Selmaho::Zeihoi, false))
    } else if is_word(key, "zi'e'a") || is_word(key, "zi'e'e") || is_word(key, "zi'e'i")
        || is_word(key, "zi'e'o") || is_word(key, "zi'e'u")
    {
        Some((Selmaho::Ziheha, false))
    } else if is_word(key, "zi'e'au") {
        Some((Selmaho::Zihehau, false))
    } else if is_word(key, "zei'o") || is_word(key, "zi'oi") {
        Some((Selmaho::Zihoi, false))
    } else if is_word(key, "zoi'ai") {
        Some((Selmaho::Zoihai, false))
    } else if is_word(key, "zoi'ai'e") || is_word(key, "zoi'o'e") {
        Some((Selmaho::Zoihohe, false))
    } else if is_word(key, "zo'au") {
        Some((Selmaho::Zohau, false))
    } else if is_word(key, "zo'e'u") {
        Some((Selmaho::Zohehu, false))
    } else if is_word(key, "zo'i'o") {
        Some((Selmaho::Zohiho, false))
    } else if is_word(key, "la'oi") || is_word(key, "ra'oi") || is_word(key, "zo'oi") {
        Some((Selmaho::Zohoi, false))
    } else {
        None
    }
}

fn find_teihu_to_zohoi(key: &[u8]) -> (found: Option<(Selmaho, bool)>)
    ensures
        found == known_teihu_to_zohoi(key@),
{
    if word_is(key, "tei'u") {
        Some((Selmaho::Teihu, false))
    } else if word_is(key, "te'oi'oi") {
        Some((Selmaho::Tehoihoi, false))
    } else if word_is(key, "toi'e") {
        Some((Selmaho::Toihe, false))
    } else if word_is(key, "toi'o") {
        Some((Selmaho::Toiho, false))
    } else if word_is(key, "vau'e'oi") {
        Some((Selmaho::Vauhehoi, false))
    } else if word_is(key, "vau'o'oi") {
        Some((Selmaho::Vauhohoi, false))
    } else if word_is(key, "vu'oi") {
        Some((Selmaho::Vuhoi, false))
    } else if word_is(key, "vy'y") {
        Some((Selmaho::Vyhy, false))
    } else if word_is(key, "xau'e'o") {
        Some((Selmaho::Xauheho, false))
    } else if word_is(key, "xa'oi'a'oi'a") {
        Some((Selmaho::Xahoihahoiha, false))
    } else if word_is(key, "xe'au") {
        Some((Selmaho::Xehau, false))
    } else if word_is(key, "no'au") || word_is(key, "xoi") {
        Some((Selmaho::Xoi, false))
    } else if word_is(key, "xo'a") {
        Some((Selmaho::Xoha, false))
    } else if word_is(key, "xo'e'o'e") {
        Some((Selmaho::Xohehohe, false))
    } else if word_is(key, "xo'i") {
        Some((Selmaho::Xohi, false))
    } else if word_is(key, "xu'au") {
        Some((Selmaho::Xuhau, false))
    } else if word_is(key, "ji'o'e") || word_is(key, "y'i") {
        Some((Selmaho::Yhi, false))
    } else if word_is(key, "zai'ai") {
        Some((Selmaho::Zaihai, false))
    } else if word_is(key, "rai'o") || word_is(key, "zai'u") {
        Some((Selmaho::Zaihu, false))
    } else if word_is(key, "zau'e'u") {
        Some((Selmaho::Zauhehu, false))
    } else if word_is(key, "zei'ei") {
        Some((Selmaho::Zeihei, false))
    } else if word_is(key, "zei'oi") {
        Some((Selmaho::Zeihoi, false))
    } else if word_is(key, "zi'e'a") || word_is(key, "zi'e'e") || word_is(key, "zi'e'i")
        || word_is(key, "zi'e'o") || word_is(key, "zi'e'u")
    {
        Some((Selmaho::Ziheha, false))
    } else if word_is(key, "zi'e'au") {
        Some((Selmaho::Zihehau, false))
    } else if word_is(key, "zei'o") || word_is(key, "zi'oi") {
        Some((Selmaho::Zihoi, false))
    } else if word_is(key, "zoi'ai") {
        Some((Selmaho::Zoihai, false))
    } else if word_is(key, "zoi'ai'e") || word_is(key, "zoi'o'e") {
        Some((Selmaho::Zoihohe, false))
    } else if word_is(key, "zo'au") {
        Some((Selmaho::Zohau, false))
    } else if word_is(key, "zo'e'u") {
        Some((Selmaho::Zohehu, false))
    } else if word_is(key, "zo'i'o") {
        Some((Selmaho::Zohiho, false))
    } else if word_is(key, "la'oi") || word_is(key, "ra'oi") || word_is(key, "zo'oi") {
        Some((Selmaho::Zohoi, false))
    } else {
        None
    }
}

proof fn lemma_a_to_bai_holds_cmavo(key: Seq<u8>)
    ensures
        known_a_to_bai(key) matches Some((selmaho, _)) ==> selmaho.names_cmavo(),
{
}

proof fn lemma_bai_to_cai_holds_cmavo(key: Seq<u8>)
    ensures
        known_bai_to_cai(key) matches Some((selmaho, _)) ==> selmaho.names_cmavo(),
{
}

proof fn lemma_cai_to_fa_holds_cmavo(key: Seq<u8>)
    ensures
        known_cai_to_fa(key) matches Some((selmaho, _)) ==> selmaho.names_cmavo(),
{
}

proof fn lemma_fa_to_goha_holds_cmavo(key: Seq<u8>)
    ensures
        known_fa_to_goha(key) matches Some((selmaho, _)) ==> selmaho.names_cmavo(),
{
}

proof fn lemma_guha_to_ki_holds_cmavo(key: Seq<u8>)
    ensures
        known_guha_to_ki(key) matches Some((selmaho, _)) ==> selmaho.names_cmavo(),
{
}

proof fn lemma_koha_to_la_holds_cmavo(key: Seq<u8>)
    ensures
        known_koha_to_la(key) matches Some((selmaho, _)) ==> selmaho.names_cmavo(),
{
}

proof fn lemma_la_to_moi_holds_cmavo(key: Seq<u8>)
    ensures
        known_la_to_moi(key) matches Some((selmaho, _)) ==> selmaho.names_cmavo(),
{
}

proof fn lemma_moi_to_nuhu_holds_cmavo(key: Seq<u8>)
    ensures
        known_moi_to_nuhu(key) matches Some((selmaho, _)) ==> selmaho.names_cmavo(),
{
}

proof fn lemma_pa_holds_cmavo(key: Seq<u8>)
    ensures
        known_pa(key) matches Some((selmaho, _)) ==> selmaho.names_cmavo(),
{
}

proof fn lemma_pa_to_sa_holds_cmavo(key: Seq<u8>)
    ensures
        known_pa_to_sa(key) matches Some((selmaho, _)) ==> selmaho.names_cmavo(),
{
}

proof fn lemma_se_to_tuhu_holds_cmavo(key: Seq<u8>)
    ensures
        known_se_to_tuhu(key) matches Some((selmaho, _)) ==> selmaho.names_cmavo(),
{
}

proof fn lemma_ui_holds_cmavo(key: Seq<u8>)
    ensures
        known_ui(key) matches Some((selmaho, _)) ==> selmaho.names_cmavo(),
{
}

proof fn lemma_ui_2_holds_cmavo(key: Seq<u8>)
    ensures
        known_ui_2(key) matches Some((selmaho, _)) ==> selmaho.names_cmavo(),
{
}

proof fn lemma_va_to_vuhu_holds_cmavo(key: Seq<u8>)
    ensures
        known_va_to_vuhu(key) matches Some((selmaho, _)) ==> selmaho.names_cmavo(),
{
}

proof fn lemma_vuhu_to_xi_holds_cmavo(key: Seq<u8>)
    ensures
        known_vuhu_to_xi(key) matches Some((selmaho, _)) ==> selmaho.names_cmavo(),
{
}

proof fn lemma_xi_to_jihoi_holds_cmavo(key: Seq<u8>)
    ensures
        known_xi_to_jihoi(key) matches Some((selmaho, _)) ==> selmaho.names_cmavo(),
{
}

proof fn lemma_joihi_to_tahuhi_holds_cmavo(key: Seq<u8>)
    ensures
        known_joihi_to_tahuhi(key) matches Some((selmaho, _)) ==> selmaho.names_cmavo(),
{
}

proof fn lemma_teihu_to_zohoi_holds_cmavo(key: Seq<u8>)
    ensures
        known_teihu_to_zohoi(key) matches Some((selmaho, _)) ==> selmaho.names_cmavo(),
{
}

/// The table of known cmavo: the selmaho of the cmavo that `key` spells, and
/// whether that cmavo is experimental. The key is spelled with `'`, never with
/// `h`, and without commas. No two entries share a spelling.
pub open spec fn known_cmavo(key: Seq<u8>) -> Option<(Selmaho, bool)> {
    if known_a_to_bai(key) is Some {
        known_a_to_bai(key)
    } else if known_bai_to_cai(key) is Some {
        known_bai_to_cai(key)
    } else if known_cai_to_fa(key) is Some {
        known_cai_to_fa(key)
    } else if known_fa_to_goha(key) is Some {
        known_fa_to_goha(key)
    } else if known_guha_to_ki(key) is Some {
        known_guha_to_ki(key)
    } else if known_koha_to_la(key) is Some {
        known_koha_to_la(key)
    } else if known_la_to_moi(key) is Some {
        known_la_to_moi(key)
    } else if known_moi_to_nuhu(key) is Some {
        known_moi_to_nuhu(key)
    } else if known_pa(key) is Some {
        known_pa(key)
    } else if known_pa_to_sa(key) is Some {
        known_pa_to_sa(key)
    } else if known_se_to_tuhu(key) is Some {
        known_se_to_tuhu(key)
    } else if known_ui(key) is Some {
        known_ui(key)
    } else if known_ui_2(key) is Some {
        known_ui_2(key)
    } else if known_va_to_vuhu(key) is Some {
        known_va_to_vuhu(key)
    } else if known_vuhu_to_xi(key) is Some {
        known_vuhu_to_xi(key)
    } else if known_xi_to_jihoi(key) is Some {
        known_xi_to_jihoi(key)
    } else if known_joihi_to_tahuhi(key) is Some {
        known_joihi_to_tahuhi(key)
    } else if known_teihu_to_zohoi(key) is Some {
        known_teihu_to_zohoi(key)
    } else {
        None
    }
}

/// Look `key` up in the table of known cmavo.
pub fn find_cmavo(key: &[u8]) -> (found: Option<(Selmaho, bool)>)
    ensures
        found == known_cmavo(key@),
{
    let found = find_a_to_bai(key);
    if found.is_some() {
        return found;
    }
    let found = find_bai_to_cai(key);
    if found.is_some() {
        return found;
    }
    let found = find_cai_to_fa(key);
    if found.is_some() {
        return found;
    }
    let found = find_fa_to_goha(key);
    if found.is_some() {
        return found;
    }
    let found = find_guha_to_ki(key);
    if found.is_some() {
        return found;
    }
    let found = find_koha_to_la(key);
    if found.is_some() {
        return found;
    }
    let found = find_la_to_moi(key);
    if found.is_some() {
        return found;
    }
    let found = find_moi_to_nuhu(key);
    if found.is_some() {
        return found;
    }
    let found = find_pa(key);
    if found.is_some() {
        return found;
    }
    let found = find_pa_to_sa(key);
    if found.is_some() {
        return found;
    }
    let found = find_se_to_tuhu(key);
    if found.is_some() {
        return found;
    }
    let found = find_ui(key);
    if found.is_some() {
        return found;
    }
    let found = find_ui_2(key);
    if found.is_some() {
        return found;
    }
    let found = find_va_to_vuhu(key);
    if found.is_some() {
        return found;
    }
    let found = find_vuhu_to_xi(key);
    if found.is_some() {
        return found;
    }
    let found = find_xi_to_jihoi(key);
    if found.is_some() {
        return found;
    }
    let found = find_joihi_to_tahuhi(key);
    if found.is_some() {
        return found;
    }
    let found = find_teihu_to_zohoi(key);
    if found.is_some() {
        return found;
    }
    None
}

/// Every selmaho in the table is one of cmavo: none of the classes of other
/// words, and none of the technical ones.
pub proof fn lemma_table_holds_cmavo(key: Seq<u8>)
    ensures
        known_cmavo(key) matches Some((selmaho, _)) ==> selmaho.names_cmavo(),
{
    lemma_a_to_bai_holds_cmavo(key);
    lemma_bai_to_cai_holds_cmavo(key);
    lemma_cai_to_fa_holds_cmavo(key);
    lemma_fa_to_goha_holds_cmavo(key);
    lemma_guha_to_ki_holds_cmavo(key);
    lemma_koha_to_la_holds_cmavo(key);
    lemma_la_to_moi_holds_cmavo(key);
    lemma_moi_to_nuhu_holds_cmavo(key);
    lemma_pa_holds_cmavo(key);
    lemma_pa_to_sa_holds_cmavo(key);
    lemma_se_to_tuhu_holds_cmavo(key);
    lemma_ui_holds_cmavo(key);
    lemma_ui_2_holds_cmavo(key);
    lemma_va_to_vuhu_holds_cmavo(key);
    lemma_vuhu_to_xi_holds_cmavo(key);
    lemma_xi_to_jihoi_holds_cmavo(key);
    lemma_joihi_to_tahuhi_holds_cmavo(key);
    lemma_teihu_to_zohoi_holds_cmavo(key);
}

/// The longest spelling that is looked up in the table of known cmavo.
pub const DIRECT_LIMIT: usize = 16;

/// The spelling under which a word is looked up: the word without its
/// commas, and with `'` for each `h`.
pub open spec fn direct_form(word: Seq<u8>) -> Seq<u8>
    decreases word.len(),
{
    if word.len() == 0 {
        Seq::empty()
    } else {
        let before = direct_form(word.drop_last());
        let last = word.last();
        if last == 0x2c {
            before
        } else if last == 0x68 {
            before.push(0x27)
        } else {
            before.push(last)
        }
    }
}

/// The class of a word that the table does not hold, by its form alone: the
/// first of cmevla, cmavo, gismu, fuhivla and lujvo whose rule matches all of
/// the word, and `AnyText` where none does.
pub open spec fn general_class(word: Seq<u8>) -> Selmaho {
    if consumes_all(spec_cmevla(word, 0), word) {
        Selmaho::Cmevla
    } else if consumes_all(spec_cmavo_minimal(word, 0), word) {
        Selmaho::UnknownCmavo
    } else if consumes_all(spec_gismu(word, 0), word) {
        Selmaho::Gismu
    } else if consumes_all(spec_fuhivla(word, 0), word) {
        Selmaho::Fuhivla
    } else if consumes_all(spec_lujvo_minimal(word, 0), word) {
        Selmaho::Lujvo
    } else {
        Selmaho::AnyText
    }
}

/// What the table says of a word: the entry for its direct form, where that
/// form is not empty and no longer than [`DIRECT_LIMIT`].
pub open spec fn direct_class(word: Seq<u8>) -> Option<(Selmaho, bool)> {
    let key = direct_form(word);
    if 0 < key.len() <= DIRECT_LIMIT {
        known_cmavo(key)
    } else {
        None
    }
}

/// The selmaho of a word, and whether the word is experimental: the entry of
/// the table where there is one, else the class that the form of the word
/// gives. A word is experimental if its entry says so or if its selmaho is
/// experimental as a whole.
#[verifier::opaque]
pub open spec fn spec_classify(word: Seq<u8>) -> (Selmaho, bool) {
    match direct_class(word) {
        Some((selmaho, experimental)) => (
            selmaho,
            selmaho.spec_is_fundamentally_experimental() || experimental,
        ),
        None => (
            general_class(word),
            general_class(word).spec_is_fundamentally_experimental(),
        ),
    }
}

/// The direct form of a part of a word is no longer than that of the word.
proof fn lemma_direct_form_grows(word: Seq<u8>, upto: int)
    requires
        0 <= upto <= word.len(),
    ensures
        direct_form(word.take(upto)).len() <= direct_form(word).len(),
    decreases word.len(),
{
    if upto == word.len() {
        assert(word.take(upto) =~= word);
    } else {
        lemma_direct_form_grows(word.drop_last(), upto);
        assert(word.drop_last().take(upto) =~= word.take(upto));
    }
}

/// Compute the direct form of `word`, unless it is longer than
/// [`DIRECT_LIMIT`]; see [`direct_form`].
pub fn transform_for_direct_cmavo_check(word: &[u8]) -> (key: Option<Vec<u8>>)
    ensures
        key is Some <==> direct_form(word@).len() <= DIRECT_LIMIT,
        key matches Some(k) ==> k@ == direct_form(word@),
{
    let mut key: Vec<u8> = Vec::new();
    let mut at: usize = 0;
    assert(word@.take(0) =~= Seq::<u8>::empty());
    while at < word.len()
        invariant
            at <= word.len(),
            key@ == direct_form(word@.take(at as int)),
            key.len() <= DIRECT_LIMIT,
        decreases word.len() - at,
    {
        let byte: u8 = word[at];
        proof {
            assert(word@.take(at + 1).drop_last() =~= word@.take(at as int));
            assert(word@.take(at + 1).last() == byte);
            lemma_direct_form_grows(word@, at + 1);
        }
        if byte != 0x2c {
            if key.len() == DIRECT_LIMIT {
                return None;
            }
            key.push(if byte == 0x68 { 0x27 } else { byte });
        }
        at += 1;
    }
    assert(word@.take(at as int) =~= word@);
    Some(key)
}

impl Selmaho {
    /// The class of a word by its form alone; see [`general_class`].
    pub fn classify_generally(word: &[u8]) -> (selmaho: Selmaho)
        ensures
            selmaho == general_class(word@),
    {
        // the order is that of the word rules themselves
        if succeeded_and_consumed_all(cmevla(word, 0), word) {
            Selmaho::Cmevla
        } else if succeeded_and_consumed_all(cmavo_minimal(word, 0), word) {
            Selmaho::UnknownCmavo
        } else if succeeded_and_consumed_all(gismu(word, 0), word) {
            Selmaho::Gismu
        } else if succeeded_and_consumed_all(fuhivla(word, 0), word) {
            Selmaho::Fuhivla
        } else if succeeded_and_consumed_all(lujvo_minimal(word, 0), word) {
            Selmaho::Lujvo
        } else {
            Selmaho::AnyText
        }
    }

    /// Determine the selmaho of the word spelled by `word`, and whether the
    /// word is experimental; see [`spec_classify`]. The word is one that the
    /// decomposer gave: this function does not split anything.
    pub fn classify_bytes(word: &[u8]) -> (class: (Selmaho, bool))
        ensures
            class == spec_classify(word@),
    {
        reveal(spec_classify);
        let found = match transform_for_direct_cmavo_check(word) {
            Some(key) => if key.len() > 0 {
                find_cmavo(key.as_slice())
            } else {
                None
            },
            None => None,
        };
        match found {
            Some((selmaho, experimental)) => (
                selmaho,
                selmaho.is_fundamentally_experimental() || experimental,
            ),
            None => {
                let selmaho = Selmaho::classify_generally(word);
                (selmaho, selmaho.is_fundamentally_experimental())
            },
        }
    }

    /// Determine the selmaho of a word, and whether the word is experimental;
    /// see [`spec_classify`].
    #[must_use]
    pub fn classify(word: &str) -> (class: (Selmaho, bool))
        ensures
            class == spec_classify(word.spec_bytes()),
    {
        Selmaho::classify_bytes(word.as_bytes())
    }
}

/// No entry of the table gives `AnyText`, so a word is classified as
/// `AnyText` only when none of the word rules matches all of it.
pub proof fn lemma_any_text_only_without_form(word: Seq<u8>)
    requires
        spec_classify(word).0 == Selmaho::AnyText,
    ensures
        direct_class(word) is None,
        !consumes_all(spec_cmevla(word, 0), word),
        !consumes_all(spec_cmavo_minimal(word, 0), word),
        !consumes_all(spec_gismu(word, 0), word),
        !consumes_all(spec_fuhivla(word, 0), word),
        !consumes_all(spec_lujvo_minimal(word, 0), word),
{
    reveal(spec_classify);
    lemma_table_holds_cmavo(direct_form(word));
}

/// Whether a word is experimental follows from its selmaho wherever the
/// selmaho is experimental as a whole.
pub proof fn lemma_experimental_selmaho_marks_word(word: Seq<u8>)
    requires
        spec_classify(word).0.spec_is_fundamentally_experimental(),
    ensures
        spec_classify(word).1,
{
    reveal(spec_classify);
}

} // verus!
