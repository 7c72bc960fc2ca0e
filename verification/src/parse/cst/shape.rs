//! The shape of the tree: which node each production makes of the tokens.
//!
//! For each production there is a relation between a node, the tokens and a
//! place in them. It holds of the one node that the production makes of the
//! tokens there: the parts of the node are the nodes of the parts of the
//! production, each at the place where the part before it ended. The parser
//! proves that it builds just that node. Beside each relation stands the
//! lemma that unfolds it.

use vstd::prelude::*;

use crate::lex::{Selmaho, Token};
use crate::parse::cst::grammar::{
    spec_arg, spec_arg_1, spec_arg_1_next, spec_arg_2, spec_arg_2_next, spec_arg_3,
    spec_arg_3_naku, spec_arg_3_sumti, spec_arg_3_tag, spec_arg_3_termset,
    spec_arg_connected_post, spec_arg_connected_post_grouped, spec_arg_connected_post_normal,
    spec_arg_list, spec_arg_list_next, spec_args, spec_bahe, spec_before_tanru_unit,
    spec_before_tanru_unit_jai, spec_before_tanru_unit_nahe, spec_before_tanru_unit_se,
    spec_bihe_list, spec_bihe_list_next, spec_bihe_operator, spec_bound_arguments, spec_bu,
    spec_bu_lerfu, spec_close_sentence_separator, spec_coi_nai, spec_connected_operand,
    spec_connected_operand_grouped, spec_connected_operand_normal, spec_connected_operator,
    spec_connected_operator_normal, spec_connected_operator_parenthesized,
    spec_connected_sentence_separator, spec_ek, spec_ek_with_free, spec_expression,
    spec_expression_1, spec_expression_1_forethought, spec_expression_1_operand,
    spec_expression_list, spec_expression_list_next, spec_expression_normal,
    spec_expression_reverse_polish, spec_faha_nai, spec_forethought_expression, spec_fragment,
    spec_fragment_ek, spec_fragment_gihek, spec_fragment_jek, spec_fragment_joik,
    spec_fragment_na, spec_fragment_number, spec_free, spec_free_mai, spec_free_sei,
    spec_free_soi, spec_free_to, spec_free_vocative, spec_free_xi, spec_frees, spec_gadri,
    spec_gadri_la, spec_gadri_le, spec_gadri_sumti, spec_gadri_sumti_contents,
    spec_gadri_sumti_contents_selbri, spec_gadri_sumti_contents_sumti, spec_gadri_sumti_pre,
    spec_gadri_sumti_pre_full_pre, spec_gadri_sumti_pre_relative, spec_gadri_sumti_pre_simple,
    spec_gadri_with_free, spec_gek, spec_gek_joik_gi, spec_gek_se_ga_nai, spec_gek_sentence,
    spec_gek_tag_gik, spec_gihek, spec_gihek_with_free, spec_gik, spec_goi_relative_clause,
    spec_guhek, spec_indicator, spec_indicator_cai, spec_indicator_choice, spec_indicator_daho,
    spec_indicator_fuho, spec_indicator_nai, spec_indicator_ui, spec_indicator_y,
    spec_indicators, spec_interval, spec_interval_property, spec_interval_property_roi,
    spec_interval_property_tahe, spec_interval_property_zaho, spec_jek, spec_jek_with_free,
    spec_joik, spec_joik_ek, spec_joik_ek_bo, spec_joik_ek_ek, spec_joik_ek_joik,
    spec_joik_gaho, spec_joik_interval, spec_joik_jek, spec_joik_jek_bo, spec_joik_jek_jek,
    spec_joik_jek_joik, spec_joik_se_joi_nai, spec_joik_with_free, spec_la_sumti, spec_lerfu,
    spec_lerfu_bu, spec_lerfu_by, spec_lerfu_string, spec_lerfu_word, spec_lerfu_word_lau,
    spec_lerfu_word_lerfu, spec_lerfu_word_tei, spec_lohu_sumti, spec_lu_sumti, spec_many0_arg,
    spec_many0_arg_1_next, spec_many0_arg_2_next, spec_many0_arg_connected_post,
    spec_many0_arg_list_next, spec_many0_bahe, spec_many0_before_tanru_unit,
    spec_many0_bihe_list_next, spec_many0_connected_operand, spec_many0_connected_operator,
    spec_many0_expression_list_next, spec_many0_free, spec_many0_indicators,
    spec_many0_interval_property, spec_many0_nu_word_list_next, spec_many0_number_rest,
    spec_many0_operand_2_connected_pre, spec_many0_operand_2_list_next,
    spec_many0_operator_3_list_next, spec_many0_operator_component_pre,
    spec_many0_operator_guhek, spec_many0_paragraph_items_next, spec_many0_paragraph_list_next,
    spec_many0_prenex, spec_many0_relative_clause_list_next, spec_many0_rptail,
    spec_many0_selbri_2_list_next, spec_many0_selbri_3_connected_post,
    spec_many0_selbri_5_list_next, spec_many0_selbri_before, spec_many0_selbri_guhek,
    spec_many0_sentences_2_list_next, spec_many0_sentences_2_next,
    spec_many0_space_interval_property, spec_many0_space_offset, spec_many0_sumti_2_next,
    spec_many0_sumti_3_connected_pre, spec_many0_sumti_connected_post,
    spec_many0_tag_words_next, spec_many0_tanru_unit_1_list_next,
    spec_many0_tanru_unit_list_next, spec_many0_time_offset, spec_many0_word_with_free,
    spec_many1_bu, spec_many1_coi_nai, spec_many1_expression_1, spec_many1_indicator,
    spec_many1_number_rest, spec_many1_selbri_3, spec_many1_sentence_tail_2_next,
    spec_many1_sentence_tail_3_next, spec_many1_space_interval_property,
    spec_many1_time_space_caha, spec_many1_word, spec_misc_numbers, spec_modified_sumti,
    spec_na_se_tnai_a, spec_na_se_tnai_giha, spec_na_se_tnai_ja, spec_noi_relative_clause,
    spec_nu_word, spec_nu_word_list, spec_nu_word_list_next, spec_number, spec_number_rest,
    spec_number_rest_lerfu, spec_number_rest_pa, spec_operand, spec_operand_1, spec_operand_2,
    spec_operand_2_connected_pre, spec_operand_2_list, spec_operand_2_list_next, spec_operand_3,
    spec_operand_3_johi, spec_operand_3_modified, spec_operand_3_mohe, spec_operand_3_nihe,
    spec_operand_3_number, spec_operand_3_parenthesized, spec_operand_bo, spec_operator,
    spec_operator_1, spec_operator_2, spec_operator_3, spec_operator_3_grouped,
    spec_operator_3_list, spec_operator_3_list_next, spec_operator_3_simple, spec_operator_bo,
    spec_operator_component, spec_operator_component_1, spec_operator_component_1_maho,
    spec_operator_component_1_nahu, spec_operator_component_1_vuhu, spec_operator_component_pre,
    spec_operator_component_pre_nahe, spec_operator_component_pre_se, spec_operator_guhek,
    spec_paragraph, spec_paragraph_item, spec_paragraph_item_empty,
    spec_paragraph_item_fragment, spec_paragraph_item_sentences, spec_paragraph_items,
    spec_paragraph_items_next, spec_paragraph_list, spec_paragraph_list_next,
    spec_paragraph_separator, spec_paragraphs, spec_pehe_connective, spec_prenex, spec_pu_nai,
    spec_quantifier, spec_quantifier_mekso, spec_quantifier_number, spec_quoted_words, spec_raw,
    spec_relative_clause, spec_relative_clause_goi, spec_relative_clause_list,
    spec_relative_clause_list_next, spec_relative_clause_noi, spec_relative_clauses,
    spec_reverse_polish, spec_rptail, spec_sei_tail, spec_selbri, spec_selbri_1, spec_selbri_2,
    spec_selbri_2_list, spec_selbri_2_list_next, spec_selbri_3, spec_selbri_3_connected_post,
    spec_selbri_3_connected_post_normal, spec_selbri_3_connected_post_parenthesized,
    spec_selbri_4, spec_selbri_5, spec_selbri_5_list, spec_selbri_5_list_next, spec_selbri_6,
    spec_selbri_before, spec_selbri_before_na, spec_selbri_before_tag, spec_selbri_guhek,
    spec_sentence, spec_sentence_separator, spec_sentence_tail, spec_sentence_tail_1,
    spec_sentence_tail_1_after, spec_sentence_tail_2, spec_sentence_tail_2_after,
    spec_sentence_tail_2_connective, spec_sentence_tail_2_next, spec_sentence_tail_3,
    spec_sentence_tail_3_after, spec_sentence_tail_3_connective, spec_sentence_tail_3_next,
    spec_sentence_tail_4, spec_sentence_tail_4_connected, spec_sentence_tail_4_parenthesized,
    spec_sentence_tail_4_single, spec_sentences_1, spec_sentences_2, spec_sentences_2_list,
    spec_sentences_2_list_next, spec_sentences_2_next, spec_sentences_3,
    spec_sentences_3_grouped, spec_sentences_3_single, spec_soi_arguments, spec_space,
    spec_space_interval, spec_space_interval_interval, spec_space_interval_properties,
    spec_space_interval_property, spec_space_motion, spec_space_offset, spec_subscript,
    spec_subscript_value, spec_subscript_value_mekso, spec_subscript_value_number,
    spec_subscript_value_with_free, spec_subsentence, spec_sumti, spec_sumti_1, spec_sumti_2,
    spec_sumti_2_next, spec_sumti_3, spec_sumti_3_connected_pre, spec_sumti_4,
    spec_sumti_4_normal, spec_sumti_4_selbri_shorthand, spec_sumti_component,
    spec_sumti_component_1, spec_sumti_component_1_gadri, spec_sumti_component_1_koha,
    spec_sumti_component_1_la, spec_sumti_component_1_lerfu_string, spec_sumti_component_1_li,
    spec_sumti_component_1_lohu, spec_sumti_component_1_lu, spec_sumti_component_1_modified,
    spec_sumti_component_1_zo, spec_sumti_component_1_zoi, spec_sumti_connected_post,
    spec_sumti_connected_post_grouped, spec_sumti_connected_post_normal, spec_sumti_modifier,
    spec_sumti_modifier_lahe, spec_sumti_modifier_nahe_bo, spec_sumti_modifier_with_free,
    spec_tag, spec_tag_value, spec_tag_value_ku, spec_tag_value_sumti, spec_tag_word,
    spec_tag_word_bai, spec_tag_word_converted, spec_tag_word_cuhe, spec_tag_word_ki,
    spec_tag_word_time_space_caha, spec_tag_words, spec_tag_words_next, spec_tail_args,
    spec_tanru_unit, spec_tanru_unit_1, spec_tanru_unit_1_list, spec_tanru_unit_1_list_next,
    spec_tanru_unit_2, spec_tanru_unit_2_fuhivla, spec_tanru_unit_2_gismu,
    spec_tanru_unit_2_goha, spec_tanru_unit_2_grouped_tanru, spec_tanru_unit_2_lujvo,
    spec_tanru_unit_2_me, spec_tanru_unit_2_moi, spec_tanru_unit_2_nu, spec_tanru_unit_2_nuha,
    spec_tanru_unit_list, spec_tanru_unit_list_next, spec_termset, spec_termset_gek,
    spec_termset_nuhi, spec_termset_nuhi_gi, spec_text, spec_time, spec_time_duration,
    spec_time_offset, spec_time_space_caha, spec_time_space_caha_caha,
    spec_time_space_caha_space, spec_time_space_caha_time, spec_veha_viha, spec_veha_viha_both,
    spec_veha_viha_left, spec_veha_viha_right, spec_vocative, spec_vocative_value,
    spec_vocative_value_cmevla, spec_vocative_value_selbri, spec_vocative_value_sumti,
    spec_vocative_words, spec_vocative_words_coi, spec_vocative_words_doi, spec_vuho_relative,
    spec_word, spec_word_with_free, spec_word_without_indicators, spec_zo_sumti,
    spec_zoi_delimiter, spec_zoi_sumti, spec_zoi_text,
};
use crate::parse::driver::{advanced, rest, spec_cut, spec_opt, spec_tok, spec_token, Outcome};
use crate::parse::cst::rules::{
    Arg, Arg1, Arg2, Arg3, Args, BeforeTanruUnit, BoundArguments, BuLerfu,
    CloseSentenceSeparator, ConnectedSentenceSeparator, Fragment, Free, Frees, Gadri,
    GadriSumti, GadriSumtiContents, GadriSumtiPre, GekSentence, GoiRelativeClause, Indicator,
    Indicators, IntervalProperty, LaSumti, Lerfu, LerfuString, LerfuWord, LohuSumti, LuSumti,
    MiscNumbers, ModifiedSumti, NaheGuhekTGik, NoiRelativeClause, Number, NumberRest, Paragraph,
    ParagraphItem, ParagraphItems, ParagraphSeparator, Paragraphs, PeheConnective, Prenex,
    Quantifier, RelativeClause, RelativeClauses, SeiTail, Selbri, Selbri1, Selbri2, Selbri3,
    Selbri3ConnectedPost, Selbri4, Selbri5, Selbri6, SelbriBefore, SelbriLikeConnectedPost,
    Sentence, SentenceSeparator, SentenceTail, SentenceTail1, SentenceTail1After, SentenceTail2,
    SentenceTail2After, SentenceTail2Connective, SentenceTail3, SentenceTail3After,
    SentenceTail3Connective, SentenceTail4, Sentences1, Sentences2, Sentences3, Space,
    SpaceInterval, SpaceIntervalProperty, SpaceMotion, SpaceOffset, Subscript, SubscriptValue,
    Subsentence, Sumti, Sumti1, Sumti2, Sumti3, Sumti3ConnectedPre, Sumti4, SumtiComponent,
    SumtiComponent1, SumtiLikeConnectedPost, SumtiModifier, Tag, TagValue, TagWord, TagWords,
    TailArgs, TanruUnit, TanruUnit1, TanruUnit2, Termset, Text, Time, TimeDuration, TimeOffset,
    TimeSpaceCaha, Vocative, VocativeValue, VocativeWords, VuhoRelative, WithFree, ZoSumti,
    ZoiDelimiter, ZoiSumti, ZoiText,
};
use crate::parse::cst::rules::connectives::{
    Ek, Gek, Gihek, Gik, Guhek, Interval, Jek, Joik, JoikEk, JoikJek, NaSeTNai,
};
use crate::parse::cst::rules::helpers::{
    EitherOrBoth, Separated,
};
use crate::parse::cst::rules::mekso::{
    ConnectedOperand, ConnectedOperator, Expression, Expression1, ForethoughtExpression,
    Operand, Operand1, Operand2, Operand2ConnectedPre, Operand3, Operator, Operator1, Operator2,
    Operator3, OperatorComponent, OperatorComponent1, OperatorComponentPre, RPTail,
    ReversePolish,
};
use crate::parse::cst::rules::selmaho::{
    Bahe, Bare, Bu, Word,
};

verus! {

/// Whether `node` is the node that `Bu` makes of the tokens at `pos`.
#[verifier::opaque]
pub closed spec fn is_bu(node: Bu, toks: Seq<Token>, pos: nat) -> bool
    decreases rest(toks, pos), 0nat,
{
    match spec_tok(toks, pos, Selmaho::Bu) {
        Outcome::Matched(_) => {
            &&& ({
                    &&& node.experimental == toks[pos as int].experimental
                    &&& node.span == toks[pos as int].span
                })
        },
        _ => false,
    }
}

/// What [`is_bu`] says.
pub proof fn lemma_is_bu(node: Bu, toks: Seq<Token>, pos: nat)
    ensures
        is_bu(node, toks, pos) == (
            match spec_tok(toks, pos, Selmaho::Bu) {
                Outcome::Matched(_) => {
                    &&& ({
                            &&& node.experimental == toks[pos as int].experimental
                            &&& node.span == toks[pos as int].span
                        })
                },
                _ => false,
            }
        ),
{
    reveal(is_bu);
}

/// How many tokens the first `count` of a row of `Bu` take at `pos`.
pub open spec fn run_of_bu(toks: Seq<Token>, pos: nat, count: nat) -> nat
    decreases count,
{
    if count == 0 {
        0
    } else {
        let before = run_of_bu(toks, pos, (count - 1) as nat);
        before + (match spec_bu(toks, pos + before) {
            Outcome::Matched(len) => len,
            _ => 0,
        })
    }
}

/// Whether `items` are the nodes of a row of `Bu` at `pos`: each is the
/// node of the `Bu` at its place, and no further one follows them.
#[verifier::opaque]
pub closed spec fn is_row_of_bu(
    items: Seq<Bu>,
    toks: Seq<Token>,
    pos: nat,
) -> bool
    decreases rest(toks, pos), 1nat,
{
    &&& forall|i: int|
        #![trigger items[i]]
        #![trigger run_of_bu(toks, pos, i as nat)]
        0 <= i < items.len() ==> spec_bu(
            toks,
            pos + run_of_bu(toks, pos, i as nat),
        ) is Matched && is_bu(items[i], toks, pos + run_of_bu(toks, pos, i as nat))
    &&& !(spec_bu(toks, pos + run_of_bu(toks, pos, items.len())) is Matched)
}

/// What [`is_row_of_bu`] says.
pub proof fn lemma_is_row_of_bu(
    items: Seq<Bu>,
    toks: Seq<Token>,
    pos: nat,
)
    ensures
        is_row_of_bu(items, toks, pos) == ({
            &&& forall|i: int|
                #![trigger items[i]]
                #![trigger run_of_bu(toks, pos, i as nat)]
                0 <= i < items.len() ==> spec_bu(
                    toks,
                    pos + run_of_bu(toks, pos, i as nat),
                ) is Matched && is_bu(items[i], toks, pos + run_of_bu(toks, pos, i as nat))
            &&& !(spec_bu(toks, pos + run_of_bu(toks, pos, items.len())) is Matched)
        }),
{
    reveal(is_row_of_bu);
    reveal(is_bu);
}

/// Whether `node` is the node that `Bahe` makes of the tokens at `pos`.
#[verifier::opaque]
pub closed spec fn is_bahe(node: Bahe, toks: Seq<Token>, pos: nat) -> bool
    decreases rest(toks, pos), 0nat,
{
    match spec_tok(toks, pos, Selmaho::Bahe) {
        Outcome::Matched(_) => {
            &&& ({
                    &&& node.experimental == toks[pos as int].experimental
                    &&& node.span == toks[pos as int].span
                })
        },
        _ => false,
    }
}

/// What [`is_bahe`] says.
pub proof fn lemma_is_bahe(node: Bahe, toks: Seq<Token>, pos: nat)
    ensures
        is_bahe(node, toks, pos) == (
            match spec_tok(toks, pos, Selmaho::Bahe) {
                Outcome::Matched(_) => {
                    &&& ({
                            &&& node.experimental == toks[pos as int].experimental
                            &&& node.span == toks[pos as int].span
                        })
                },
                _ => false,
            }
        ),
{
    reveal(is_bahe);
}

/// How many tokens the first `count` of a row of `Bahe` take at `pos`.
pub open spec fn run_of_bahe(toks: Seq<Token>, pos: nat, count: nat) -> nat
    decreases count,
{
    if count == 0 {
        0
    } else {
        let before = run_of_bahe(toks, pos, (count - 1) as nat);
        before + (match spec_bahe(toks, pos + before) {
            Outcome::Matched(len) => len,
            _ => 0,
        })
    }
}

/// Whether `items` are the nodes of a row of `Bahe` at `pos`: each is the
/// node of the `Bahe` at its place, and no further one follows them.
#[verifier::opaque]
pub closed spec fn is_row_of_bahe(
    items: Seq<Bahe>,
    toks: Seq<Token>,
    pos: nat,
) -> bool
    decreases rest(toks, pos), 1nat,
{
    &&& forall|i: int|
        #![trigger items[i]]
        #![trigger run_of_bahe(toks, pos, i as nat)]
        0 <= i < items.len() ==> spec_bahe(
            toks,
            pos + run_of_bahe(toks, pos, i as nat),
        ) is Matched && is_bahe(items[i], toks, pos + run_of_bahe(toks, pos, i as nat))
    &&& !(spec_bahe(toks, pos + run_of_bahe(toks, pos, items.len())) is Matched)
}

/// What [`is_row_of_bahe`] says.
pub proof fn lemma_is_row_of_bahe(
    items: Seq<Bahe>,
    toks: Seq<Token>,
    pos: nat,
)
    ensures
        is_row_of_bahe(items, toks, pos) == ({
            &&& forall|i: int|
                #![trigger items[i]]
                #![trigger run_of_bahe(toks, pos, i as nat)]
                0 <= i < items.len() ==> spec_bahe(
                    toks,
                    pos + run_of_bahe(toks, pos, i as nat),
                ) is Matched && is_bahe(items[i], toks, pos + run_of_bahe(toks, pos, i as nat))
            &&& !(spec_bahe(toks, pos + run_of_bahe(toks, pos, items.len())) is Matched)
        }),
{
    reveal(is_row_of_bahe);
    reveal(is_bahe);
}

/// Whether `node` is the node that `Raw` makes of the tokens at `pos`.
#[verifier::opaque]
pub closed spec fn is_raw(node: Bare, toks: Seq<Token>, pos: nat, selmaho: Selmaho) -> bool
    decreases rest(toks, pos), 0nat,
{
    match spec_tok(toks, pos, selmaho) {
        Outcome::Matched(_) => {
            &&& ({
                    &&& node.selmaho == toks[pos as int].selmaho
                    &&& node.experimental == toks[pos as int].experimental
                    &&& node.span == toks[pos as int].span
                })
        },
        _ => false,
    }
}

/// What [`is_raw`] says.
pub proof fn lemma_is_raw(node: Bare, toks: Seq<Token>, pos: nat, selmaho: Selmaho)
    ensures
        is_raw(node, toks, pos, selmaho) == (
            match spec_tok(toks, pos, selmaho) {
                Outcome::Matched(_) => {
                    &&& ({
                            &&& node.selmaho == toks[pos as int].selmaho
                            &&& node.experimental == toks[pos as int].experimental
                            &&& node.span == toks[pos as int].span
                        })
                },
                _ => false,
            }
        ),
{
    reveal(is_raw);
}

/// Whether `node` is the node that `WordWithoutIndicators` makes of the tokens at `pos`.
#[verifier::opaque]
pub closed spec fn is_word_without_indicators<'arena>(
    node: Word<'arena>,
    toks: Seq<Token>,
    pos: nat,
    selmaho: Selmaho,
) -> bool
    decreases rest(toks, pos), 2nat,
{
    match spec_many0_bahe(toks, pos) {
        Outcome::Matched(n1) => {
            &&& is_row_of_bahe(node.bahe@, toks, pos)
            &&& match spec_tok(toks, pos + n1, selmaho) {
                    Outcome::Matched(_) => {
                        &&& ({
                                &&& node.selmaho == toks[(pos + n1) as int].selmaho
                                &&& node.experimental == toks[(pos + n1) as int].experimental
                                &&& node.span == toks[(pos + n1) as int].span
                            })
                        &&& node.indicators is None
                    },
                    _ => false,
                }
        },
        _ => false,
    }
}

/// What [`is_word_without_indicators`] says.
pub proof fn lemma_is_word_without_indicators<'arena>(
    node: Word<'arena>,
    toks: Seq<Token>,
    pos: nat,
    selmaho: Selmaho,
)
    ensures
        is_word_without_indicators(node, toks, pos, selmaho) == (
            match spec_many0_bahe(toks, pos) {
                Outcome::Matched(n1) => {
                    &&& is_row_of_bahe(node.bahe@, toks, pos)
                    &&& match spec_tok(toks, pos + n1, selmaho) {
                            Outcome::Matched(_) => {
                                &&& ({
                                        &&& node.selmaho == toks[(pos + n1) as int].selmaho
                                        &&& node.experimental == toks[(pos + n1) as int].experimental
                                        &&& node.span == toks[(pos + n1) as int].span
                                    })
                                &&& node.indicators is None
                            },
                            _ => false,
                        }
                },
                _ => false,
            }
        ),
{
    reveal(is_word_without_indicators);
    reveal(is_row_of_bahe);
}

/// Whether `node` is the node that `Word` makes of the tokens at `pos`.
#[verifier::opaque]
pub closed spec fn is_word<'arena>(
    node: Word<'arena>,
    toks: Seq<Token>,
    pos: nat,
    selmaho: Selmaho,
) -> bool
    decreases rest(toks, pos), 2nat,
{
    match spec_many0_bahe(toks, pos) {
        Outcome::Matched(n1) => {
            &&& is_row_of_bahe(node.bahe@, toks, pos)
            &&& match spec_tok(toks, pos + n1, selmaho) {
                    Outcome::Matched(n2) => {
                        &&& ({
                                &&& node.selmaho == toks[(pos + n1) as int].selmaho
                                &&& node.experimental == toks[(pos + n1) as int].experimental
                                &&& node.span == toks[(pos + n1) as int].span
                            })
                        &&& match spec_opt(spec_indicators(toks, pos + n1 + n2)) {
                                Outcome::Matched(_) => {
                                    &&& (match node.indicators {
                                            Some(inner) => {
                                                &&& spec_indicators(
                                                    toks,
                                                    pos + n1 + n2,
                                                ) is Matched
                                                &&& is_indicators(*inner, toks, pos + n1 + n2)
                                            },
                                            None => spec_indicators(toks, pos + n1 + n2) is Error,
                                        })
                                },
                                _ => false,
                            }
                    },
                    _ => false,
                }
        },
        _ => false,
    }
}

/// What [`is_word`] says.
pub proof fn lemma_is_word<'arena>(
    node: Word<'arena>,
    toks: Seq<Token>,
    pos: nat,
    selmaho: Selmaho,
)
    ensures
        is_word(node, toks, pos, selmaho) == (
            match spec_many0_bahe(toks, pos) {
                Outcome::Matched(n1) => {
                    &&& is_row_of_bahe(node.bahe@, toks, pos)
                    &&& match spec_tok(toks, pos + n1, selmaho) {
                            Outcome::Matched(n2) => {
                                &&& ({
                                        &&& node.selmaho == toks[(pos + n1) as int].selmaho
                                        &&& node.experimental == toks[(pos + n1) as int].experimental
                                        &&& node.span == toks[(pos + n1) as int].span
                                    })
                                &&& match spec_opt(spec_indicators(toks, pos + n1 + n2)) {
                                        Outcome::Matched(_) => {
                                            &&& (match node.indicators {
                                                    Some(inner) => {
                                                        &&& spec_indicators(
                                                            toks,
                                                            pos + n1 + n2,
                                                        ) is Matched
                                                        &&& is_indicators(
                                                            *inner,
                                                            toks,
                                                            pos + n1 + n2,
                                                        )
                                                    },
                                                    None => spec_indicators(
                                                        toks,
                                                        pos + n1 + n2,
                                                    ) is Error,
                                                })
                                        },
                                        _ => false,
                                    }
                            },
                            _ => false,
                        }
                },
                _ => false,
            }
        ),
{
    reveal(is_word);
    reveal(is_row_of_bahe);
    reveal(is_indicators);
}

/// How many tokens the first `count` of a row of `Word` take at `pos`.
pub open spec fn run_of_word(toks: Seq<Token>, pos: nat, count: nat, selmaho: Selmaho) -> nat
    decreases count,
{
    if count == 0 {
        0
    } else {
        let before = run_of_word(toks, pos, (count - 1) as nat, selmaho);
        before + (match spec_word(toks, pos + before, selmaho) {
            Outcome::Matched(len) => len,
            _ => 0,
        })
    }
}

/// Whether `items` are the nodes of a row of `Word` at `pos`: each is the
/// node of the `Word` at its place, and no further one follows them.
#[verifier::opaque]
pub closed spec fn is_row_of_word<'arena>(
    items: Seq<Word<'arena>>,
    toks: Seq<Token>,
    pos: nat,
    selmaho: Selmaho,
) -> bool
    decreases rest(toks, pos), 3nat,
{
    &&& forall|i: int|
        #![trigger items[i]]
        #![trigger run_of_word(toks, pos, i as nat, selmaho)]
        0 <= i < items.len() ==> spec_word(
            toks,
            pos + run_of_word(toks, pos, i as nat, selmaho),
            selmaho,
        ) is Matched && is_word(
            items[i],
            toks,
            pos + run_of_word(toks, pos, i as nat, selmaho),
            selmaho,
        )
    &&& !(spec_word(toks, pos + run_of_word(toks, pos, items.len(), selmaho), selmaho) is Matched)
}

/// What [`is_row_of_word`] says.
pub proof fn lemma_is_row_of_word<'arena>(
    items: Seq<Word<'arena>>,
    toks: Seq<Token>,
    pos: nat,
    selmaho: Selmaho,
)
    ensures
        is_row_of_word(items, toks, pos, selmaho) == ({
            &&& forall|i: int|
                #![trigger items[i]]
                #![trigger run_of_word(toks, pos, i as nat, selmaho)]
                0 <= i < items.len() ==> spec_word(
                    toks,
                    pos + run_of_word(toks, pos, i as nat, selmaho),
                    selmaho,
                ) is Matched && is_word(
                    items[i],
                    toks,
                    pos + run_of_word(toks, pos, i as nat, selmaho),
                    selmaho,
                )
            &&& !(spec_word(
                toks,
                pos + run_of_word(toks, pos, items.len(), selmaho),
                selmaho,
            ) is Matched)
        }),
{
    reveal(is_row_of_word);
    reveal(is_word);
}

/// Whether `node` is the node that `WordWithFree` makes of the tokens at `pos`.
#[verifier::opaque]
pub closed spec fn is_word_with_free<'arena>(
    node: WithFree<'arena, Word<'arena>>,
    toks: Seq<Token>,
    pos: nat,
    selmaho: Selmaho,
) -> bool
    decreases rest(toks, pos), 3nat,
{
    match spec_word(toks, pos, selmaho) {
        Outcome::Matched(n1) => {
            &&& is_word(node.inner, toks, pos, selmaho)
            &&& match spec_frees(toks, pos + n1) {
                    Outcome::Matched(_) => {
                        &&& advanced(toks, pos, n1)
                        &&& is_frees(node.frees, toks, pos + n1)
                    },
                    _ => false,
                }
        },
        _ => false,
    }
}

/// What [`is_word_with_free`] says.
pub proof fn lemma_is_word_with_free<'arena>(
    node: WithFree<'arena, Word<'arena>>,
    toks: Seq<Token>,
    pos: nat,
    selmaho: Selmaho,
)
    ensures
        is_word_with_free(node, toks, pos, selmaho) == (
            match spec_word(toks, pos, selmaho) {
                Outcome::Matched(n1) => {
                    &&& is_word(node.inner, toks, pos, selmaho)
                    &&& match spec_frees(toks, pos + n1) {
                            Outcome::Matched(_) => {
                                &&& advanced(toks, pos, n1)
                                &&& is_frees(node.frees, toks, pos + n1)
                            },
                            _ => false,
                        }
                },
                _ => false,
            }
        ),
{
    reveal(is_word_with_free);
    reveal(is_word);
    reveal(is_frees);
}

/// How many tokens the first `count` of a row of `WordWithFree` take at `pos`.
pub open spec fn run_of_word_with_free(
    toks: Seq<Token>,
    pos: nat,
    count: nat,
    selmaho: Selmaho,
) -> nat
    decreases count,
{
    if count == 0 {
        0
    } else {
        let before = run_of_word_with_free(toks, pos, (count - 1) as nat, selmaho);
        before + (match spec_word_with_free(toks, pos + before, selmaho) {
            Outcome::Matched(len) => len,
            _ => 0,
        })
    }
}

/// Whether `items` are the nodes of a row of `WordWithFree` at `pos`: each is the
/// node of the `WordWithFree` at its place, and no further one follows them.
#[verifier::opaque]
pub closed spec fn is_row_of_word_with_free<'arena>(
    items: Seq<WithFree<'arena, Word<'arena>>>,
    toks: Seq<Token>,
    pos: nat,
    selmaho: Selmaho,
) -> bool
    decreases rest(toks, pos), 4nat,
{
    &&& forall|i: int|
        #![trigger items[i]]
        #![trigger run_of_word_with_free(toks, pos, i as nat, selmaho)]
        0 <= i < items.len() ==> spec_word_with_free(
            toks,
            pos + run_of_word_with_free(toks, pos, i as nat, selmaho),
            selmaho,
        ) is Matched && is_word_with_free(
            items[i],
            toks,
            pos + run_of_word_with_free(toks, pos, i as nat, selmaho),
            selmaho,
        )
    &&& !(spec_word_with_free(
        toks,
        pos + run_of_word_with_free(toks, pos, items.len(), selmaho),
        selmaho,
    ) is Matched)
}

/// What [`is_row_of_word_with_free`] says.
pub proof fn lemma_is_row_of_word_with_free<'arena>(
    items: Seq<WithFree<'arena, Word<'arena>>>,
    toks: Seq<Token>,
    pos: nat,
    selmaho: Selmaho,
)
    ensures
        is_row_of_word_with_free(items, toks, pos, selmaho) == ({
            &&& forall|i: int|
                #![trigger items[i]]
                #![trigger run_of_word_with_free(toks, pos, i as nat, selmaho)]
                0 <= i < items.len() ==> spec_word_with_free(
                    toks,
                    pos + run_of_word_with_free(toks, pos, i as nat, selmaho),
                    selmaho,
                ) is Matched && is_word_with_free(
                    items[i],
                    toks,
                    pos + run_of_word_with_free(toks, pos, i as nat, selmaho),
                    selmaho,
                )
            &&& !(spec_word_with_free(
                toks,
                pos + run_of_word_with_free(toks, pos, items.len(), selmaho),
                selmaho,
            ) is Matched)
        }),
{
    reveal(is_row_of_word_with_free);
    reveal(is_word_with_free);
}

/// Whether `node` is the node that `Text` makes of the tokens at `pos`.
#[verifier::opaque]
pub closed spec fn is_text<'arena>(node: Text<'arena>, toks: Seq<Token>, pos: nat) -> bool
    decreases rest(toks, pos), 121nat,
{
    match spec_opt(spec_indicators(toks, pos)) {
        Outcome::Matched(n1) => {
            &&& (match node.initial_indicators {
                    Some(inner) => {
                        &&& spec_indicators(toks, pos) is Matched
                        &&& is_indicators(inner, toks, pos)
                    },
                    None => spec_indicators(toks, pos) is Error,
                })
            &&& match spec_frees(toks, pos + n1) {
                    Outcome::Matched(n2) => {
                        &&& is_frees(node.initial_frees, toks, pos + n1)
                        &&& match spec_opt(spec_paragraph_separator(toks, pos + n1 + n2)) {
                                Outcome::Matched(n3) => {
                                    &&& (match node.initial_paragraph_separator {
                                            Some(inner) => {
                                                &&& spec_paragraph_separator(
                                                    toks,
                                                    pos + n1 + n2,
                                                ) is Matched
                                                &&& is_paragraph_separator(
                                                    inner,
                                                    toks,
                                                    pos + n1 + n2,
                                                )
                                            },
                                            None => spec_paragraph_separator(
                                                toks,
                                                pos + n1 + n2,
                                            ) is Error,
                                        })
                                    &&& match spec_opt(
                                        spec_paragraphs(toks, pos + n1 + n2 + n3),
                                    ) {
                                            Outcome::Matched(n4) => {
                                                &&& (match node.paragraphs {
                                                        Some(inner) => {
                                                            &&& spec_paragraphs(
                                                                toks,
                                                                pos + n1 + n2 + n3,
                                                            ) is Matched
                                                            &&& is_paragraphs(
                                                                inner,
                                                                toks,
                                                                pos + n1 + n2 + n3,
                                                            )
                                                        },
                                                        None => spec_paragraphs(
                                                            toks,
                                                            pos + n1 + n2 + n3,
                                                        ) is Error,
                                                    })
                                                &&& match spec_opt(
                                                    spec_word(
                                                        toks,
                                                        pos + n1 + n2 + n3 + n4,
                                                        Selmaho::Faho,
                                                    ),
                                                ) {
                                                        Outcome::Matched(_) => {
                                                            &&& (match node.faho {
                                                                    Some(inner) => {
                                                                        &&& spec_word(
                                                                            toks,
                                                                            pos + n1 + n2 + n3 + n4,
                                                                            Selmaho::Faho,
                                                                        ) is Matched
                                                                        &&& is_word(
                                                                            inner,
                                                                            toks,
                                                                            pos + n1 + n2 + n3 + n4,
                                                                            Selmaho::Faho,
                                                                        )
                                                                    },
                                                                    None => spec_word(
                                                                        toks,
                                                                        pos + n1 + n2 + n3 + n4,
                                                                        Selmaho::Faho,
                                                                    ) is Error,
                                                                })
                                                        },
                                                        _ => false,
                                                    }
                                            },
                                            _ => false,
                                        }
                                },
                                _ => false,
                            }
                    },
                    _ => false,
                }
        },
        _ => false,
    }
}

/// What [`is_text`] says.
pub proof fn lemma_is_text<'arena>(node: Text<'arena>, toks: Seq<Token>, pos: nat)
    ensures
        is_text(node, toks, pos) == (
            match spec_opt(spec_indicators(toks, pos)) {
                Outcome::Matched(n1) => {
                    &&& (match node.initial_indicators {
                            Some(inner) => {
                                &&& spec_indicators(toks, pos) is Matched
                                &&& is_indicators(inner, toks, pos)
                            },
                            None => spec_indicators(toks, pos) is Error,
                        })
                    &&& match spec_frees(toks, pos + n1) {
                            Outcome::Matched(n2) => {
                                &&& is_frees(node.initial_frees, toks, pos + n1)
                                &&& match spec_opt(
                                    spec_paragraph_separator(toks, pos + n1 + n2),
                                ) {
                                        Outcome::Matched(n3) => {
                                            &&& (match node.initial_paragraph_separator {
                                                    Some(inner) => {
                                                        &&& spec_paragraph_separator(
                                                            toks,
                                                            pos + n1 + n2,
                                                        ) is Matched
                                                        &&& is_paragraph_separator(
                                                            inner,
                                                            toks,
                                                            pos + n1 + n2,
                                                        )
                                                    },
                                                    None => spec_paragraph_separator(
                                                        toks,
                                                        pos + n1 + n2,
                                                    ) is Error,
                                                })
                                            &&& match spec_opt(
                                                spec_paragraphs(toks, pos + n1 + n2 + n3),
                                            ) {
                                                    Outcome::Matched(n4) => {
                                                        &&& (match node.paragraphs {
                                                                Some(inner) => {
                                                                    &&& spec_paragraphs(
                                                                        toks,
                                                                        pos + n1 + n2 + n3,
                                                                    ) is Matched
                                                                    &&& is_paragraphs(
                                                                        inner,
                                                                        toks,
                                                                        pos + n1 + n2 + n3,
                                                                    )
                                                                },
                                                                None => spec_paragraphs(
                                                                    toks,
                                                                    pos + n1 + n2 + n3,
                                                                ) is Error,
                                                            })
                                                        &&& match spec_opt(
                                                            spec_word(
                                                                toks,
                                                                pos + n1 + n2 + n3 + n4,
                                                                Selmaho::Faho,
                                                            ),
                                                        ) {
                                                                Outcome::Matched(_) => {
                                                                    &&& (match node.faho {
                                                                            Some(inner) => {
                                                                                &&& spec_word(
                                                                                    toks,
                                                                                    pos + n1 + n2 + n3 + n4,
                                                                                    Selmaho::Faho,
                                                                                ) is Matched
                                                                                &&& is_word(
                                                                                    inner,
                                                                                    toks,
                                                                                    pos + n1 + n2 + n3 + n4,
                                                                                    Selmaho::Faho,
                                                                                )
                                                                            },
                                                                            None => spec_word(
                                                                                toks,
                                                                                pos + n1 + n2 + n3 + n4,
                                                                                Selmaho::Faho,
                                                                            ) is Error,
                                                                        })
                                                                },
                                                                _ => false,
                                                            }
                                                    },
                                                    _ => false,
                                                }
                                        },
                                        _ => false,
                                    }
                            },
                            _ => false,
                        }
                },
                _ => false,
            }
        ),
{
    reveal(is_text);
    reveal(is_indicators);
    reveal(is_frees);
    reveal(is_paragraph_separator);
    reveal(is_paragraphs);
    reveal(is_word);
}

/// Whether `node` is the node that `Indicators` makes of the tokens at `pos`.
#[verifier::opaque]
pub closed spec fn is_indicators<'arena>(
    node: Indicators<'arena>,
    toks: Seq<Token>,
    pos: nat,
) -> bool
    decreases rest(toks, pos), 7nat,
{
    match spec_opt(spec_word_without_indicators(toks, pos, Selmaho::Fuhe)) {
        Outcome::Matched(n1) => {
            &&& (match node.0 {
                    Some(inner) => {
                        &&& spec_word_without_indicators(toks, pos, Selmaho::Fuhe) is Matched
                        &&& is_word_without_indicators(inner, toks, pos, Selmaho::Fuhe)
                    },
                    None => spec_word_without_indicators(toks, pos, Selmaho::Fuhe) is Error,
                })
            &&& match spec_many1_indicator(toks, pos + n1) {
                    Outcome::Matched(_) => is_row_of_indicator(node.1@, toks, pos + n1),
                    _ => false,
                }
        },
        _ => false,
    }
}

/// What [`is_indicators`] says.
pub proof fn lemma_is_indicators<'arena>(node: Indicators<'arena>, toks: Seq<Token>, pos: nat)
    ensures
        is_indicators(node, toks, pos) == (
            match spec_opt(spec_word_without_indicators(toks, pos, Selmaho::Fuhe)) {
                Outcome::Matched(n1) => {
                    &&& (match node.0 {
                            Some(inner) => {
                                &&& spec_word_without_indicators(
                                    toks,
                                    pos,
                                    Selmaho::Fuhe,
                                ) is Matched
                                &&& is_word_without_indicators(inner, toks, pos, Selmaho::Fuhe)
                            },
                            None => spec_word_without_indicators(
                                toks,
                                pos,
                                Selmaho::Fuhe,
                            ) is Error,
                        })
                    &&& match spec_many1_indicator(toks, pos + n1) {
                            Outcome::Matched(_) => is_row_of_indicator(node.1@, toks, pos + n1),
                            _ => false,
                        }
                },
                _ => false,
            }
        ),
{
    reveal(is_indicators);
    reveal(is_word_without_indicators);
    reveal(is_row_of_indicator);
}

/// How many tokens the first `count` of a row of `Indicators` take at `pos`.
pub open spec fn run_of_indicators(toks: Seq<Token>, pos: nat, count: nat) -> nat
    decreases count,
{
    if count == 0 {
        0
    } else {
        let before = run_of_indicators(toks, pos, (count - 1) as nat);
        before + (match spec_indicators(toks, pos + before) {
            Outcome::Matched(len) => len,
            _ => 0,
        })
    }
}

/// Whether `items` are the nodes of a row of `Indicators` at `pos`: each is the
/// node of the `Indicators` at its place, and no further one follows them.
#[verifier::opaque]
pub closed spec fn is_row_of_indicators<'arena>(
    items: Seq<Indicators<'arena>>,
    toks: Seq<Token>,
    pos: nat,
) -> bool
    decreases rest(toks, pos), 8nat,
{
    &&& forall|i: int|
        #![trigger items[i]]
        #![trigger run_of_indicators(toks, pos, i as nat)]
        0 <= i < items.len() ==> spec_indicators(
            toks,
            pos + run_of_indicators(toks, pos, i as nat),
        ) is Matched && is_indicators(
            items[i],
            toks,
            pos + run_of_indicators(toks, pos, i as nat),
        )
    &&& !(spec_indicators(toks, pos + run_of_indicators(toks, pos, items.len())) is Matched)
}

/// What [`is_row_of_indicators`] says.
pub proof fn lemma_is_row_of_indicators<'arena>(
    items: Seq<Indicators<'arena>>,
    toks: Seq<Token>,
    pos: nat,
)
    ensures
        is_row_of_indicators(items, toks, pos) == ({
            &&& forall|i: int|
                #![trigger items[i]]
                #![trigger run_of_indicators(toks, pos, i as nat)]
                0 <= i < items.len() ==> spec_indicators(
                    toks,
                    pos + run_of_indicators(toks, pos, i as nat),
                ) is Matched && is_indicators(
                    items[i],
                    toks,
                    pos + run_of_indicators(toks, pos, i as nat),
                )
            &&& !(spec_indicators(
                toks,
                pos + run_of_indicators(toks, pos, items.len()),
            ) is Matched)
        }),
{
    reveal(is_row_of_indicators);
    reveal(is_indicators);
}

/// Whether `node` is the node that `Indicator` makes of the tokens at `pos`.
#[verifier::opaque]
pub closed spec fn is_indicator<'arena>(
    node: Indicator<'arena>,
    toks: Seq<Token>,
    pos: nat,
) -> bool
    decreases rest(toks, pos), 5nat,
{
    match spec_indicator_choice(toks, pos) {
        Outcome::Matched(_) => is_indicator_choice(node, toks, pos),
        _ => false,
    }
}

/// What [`is_indicator`] says.
pub proof fn lemma_is_indicator<'arena>(node: Indicator<'arena>, toks: Seq<Token>, pos: nat)
    ensures
        is_indicator(node, toks, pos) == (
            match spec_indicator_choice(toks, pos) {
                Outcome::Matched(_) => is_indicator_choice(node, toks, pos),
                _ => false,
            }
        ),
{
    reveal(is_indicator);
    reveal(is_indicator_choice);
}

/// How many tokens the first `count` of a row of `Indicator` take at `pos`.
pub open spec fn run_of_indicator(toks: Seq<Token>, pos: nat, count: nat) -> nat
    decreases count,
{
    if count == 0 {
        0
    } else {
        let before = run_of_indicator(toks, pos, (count - 1) as nat);
        before + (match spec_indicator(toks, pos + before) {
            Outcome::Matched(len) => len,
            _ => 0,
        })
    }
}

/// Whether `items` are the nodes of a row of `Indicator` at `pos`: each is the
/// node of the `Indicator` at its place, and no further one follows them.
#[verifier::opaque]
pub closed spec fn is_row_of_indicator<'arena>(
    items: Seq<Indicator<'arena>>,
    toks: Seq<Token>,
    pos: nat,
) -> bool
    decreases rest(toks, pos), 6nat,
{
    &&& forall|i: int|
        #![trigger items[i]]
        #![trigger run_of_indicator(toks, pos, i as nat)]
        0 <= i < items.len() ==> spec_indicator(
            toks,
            pos + run_of_indicator(toks, pos, i as nat),
        ) is Matched && is_indicator(items[i], toks, pos + run_of_indicator(toks, pos, i as nat))
    &&& !(spec_indicator(toks, pos + run_of_indicator(toks, pos, items.len())) is Matched)
}

/// What [`is_row_of_indicator`] says.
pub proof fn lemma_is_row_of_indicator<'arena>(
    items: Seq<Indicator<'arena>>,
    toks: Seq<Token>,
    pos: nat,
)
    ensures
        is_row_of_indicator(items, toks, pos) == ({
            &&& forall|i: int|
                #![trigger items[i]]
                #![trigger run_of_indicator(toks, pos, i as nat)]
                0 <= i < items.len() ==> spec_indicator(
                    toks,
                    pos + run_of_indicator(toks, pos, i as nat),
                ) is Matched && is_indicator(
                    items[i],
                    toks,
                    pos + run_of_indicator(toks, pos, i as nat),
                )
            &&& !(spec_indicator(toks, pos + run_of_indicator(toks, pos, items.len())) is Matched)
        }),
{
    reveal(is_row_of_indicator);
    reveal(is_indicator);
}

/// Whether `node` is the node that `IndicatorChoice` makes of the tokens at `pos`: the
/// node of the first alternative that matches.
#[verifier::opaque]
pub closed spec fn is_indicator_choice<'arena>(
    node: Indicator<'arena>,
    toks: Seq<Token>,
    pos: nat,
) -> bool
    decreases rest(toks, pos), 4nat,
{
    match spec_indicator_ui(toks, pos) {
        Outcome::Matched(_) => is_indicator_ui(node, toks, pos),
        Outcome::Error(_) => match spec_indicator_cai(toks, pos) {
            Outcome::Matched(_) => is_indicator_cai(node, toks, pos),
            Outcome::Error(_) => match spec_indicator_nai(toks, pos) {
                Outcome::Matched(_) => is_indicator_nai(node, toks, pos),
                Outcome::Error(_) => match spec_indicator_daho(toks, pos) {
                    Outcome::Matched(_) => is_indicator_daho(node, toks, pos),
                    Outcome::Error(_) => match spec_indicator_fuho(toks, pos) {
                        Outcome::Matched(_) => is_indicator_fuho(node, toks, pos),
                        Outcome::Error(
                            _,
                        ) => spec_indicator_y(
                            toks,
                            pos,
                        ) is Matched && is_indicator_y(node, toks, pos),
                        Outcome::Failure(_) => false,
                    },
                    Outcome::Failure(_) => false,
                },
                Outcome::Failure(_) => false,
            },
            Outcome::Failure(_) => false,
        },
        Outcome::Failure(_) => false,
    }
}

/// What [`is_indicator_choice`] says.
pub proof fn lemma_is_indicator_choice<'arena>(toks: Seq<Token>, pos: nat)
    ensures
        forall|node: Indicator<'arena>| #[trigger] is_indicator_choice(node, toks, pos) == (
            match spec_indicator_ui(toks, pos) {
                Outcome::Matched(_) => is_indicator_ui(node, toks, pos),
                Outcome::Error(_) => match spec_indicator_cai(toks, pos) {
                    Outcome::Matched(_) => is_indicator_cai(node, toks, pos),
                    Outcome::Error(_) => match spec_indicator_nai(toks, pos) {
                        Outcome::Matched(_) => is_indicator_nai(node, toks, pos),
                        Outcome::Error(_) => match spec_indicator_daho(toks, pos) {
                            Outcome::Matched(_) => is_indicator_daho(node, toks, pos),
                            Outcome::Error(_) => match spec_indicator_fuho(toks, pos) {
                                Outcome::Matched(_) => is_indicator_fuho(node, toks, pos),
                                Outcome::Error(
                                    _,
                                ) => spec_indicator_y(
                                    toks,
                                    pos,
                                ) is Matched && is_indicator_y(node, toks, pos),
                                Outcome::Failure(_) => false,
                            },
                            Outcome::Failure(_) => false,
                        },
                        Outcome::Failure(_) => false,
                    },
                    Outcome::Failure(_) => false,
                },
                Outcome::Failure(_) => false,
            }
        ),
{
    reveal(is_indicator_choice);
    reveal(is_indicator_ui);
    reveal(is_indicator_cai);
    reveal(is_indicator_nai);
    reveal(is_indicator_daho);
    reveal(is_indicator_fuho);
    reveal(is_indicator_y);
}

/// Whether `node` is the node that `IndicatorUi` makes of the tokens at `pos`.
#[verifier::opaque]
pub closed spec fn is_indicator_ui<'arena>(
    node: Indicator<'arena>,
    toks: Seq<Token>,
    pos: nat,
) -> bool
    decreases rest(toks, pos), 3nat,
{
    match node {
        Indicator::Ui(field_0) => match spec_word(toks, pos, Selmaho::Ui) {
            Outcome::Matched(_) => is_word(field_0, toks, pos, Selmaho::Ui),
            _ => false,
        },
        _ => false,
    }
}

/// What [`is_indicator_ui`] says.
pub proof fn lemma_is_indicator_ui<'arena>(node: Indicator<'arena>, toks: Seq<Token>, pos: nat)
    ensures
        is_indicator_ui(node, toks, pos) == (
            match node {
                Indicator::Ui(field_0) => match spec_word(toks, pos, Selmaho::Ui) {
                    Outcome::Matched(_) => is_word(field_0, toks, pos, Selmaho::Ui),
                    _ => false,
                },
                _ => false,
            }
        ),
{
    reveal(is_indicator_ui);
    reveal(is_word);
}

/// Whether `node` is the node that `IndicatorCai` makes of the tokens at `pos`.
#[verifier::opaque]
pub closed spec fn is_indicator_cai<'arena>(
    node: Indicator<'arena>,
    toks: Seq<Token>,
    pos: nat,
) -> bool
    decreases rest(toks, pos), 3nat,
{
    match node {
        Indicator::Cai(field_0) => match spec_word(toks, pos, Selmaho::Cai) {
            Outcome::Matched(_) => is_word(field_0, toks, pos, Selmaho::Cai),
            _ => false,
        },
        _ => false,
    }
}

/// What [`is_indicator_cai`] says.
pub proof fn lemma_is_indicator_cai<'arena>(node: Indicator<'arena>, toks: Seq<Token>, pos: nat)
    ensures
        is_indicator_cai(node, toks, pos) == (
            match node {
                Indicator::Cai(field_0) => match spec_word(toks, pos, Selmaho::Cai) {
                    Outcome::Matched(_) => is_word(field_0, toks, pos, Selmaho::Cai),
                    _ => false,
                },
                _ => false,
            }
        ),
{
    reveal(is_indicator_cai);
    reveal(is_word);
}

/// Whether `node` is the node that `IndicatorNai` makes of the tokens at `pos`.
#[verifier::opaque]
pub closed spec fn is_indicator_nai<'arena>(
    node: Indicator<'arena>,
    toks: Seq<Token>,
    pos: nat,
) -> bool
    decreases rest(toks, pos), 3nat,
{
    match node {
        Indicator::Nai(field_0) => match spec_word(toks, pos, Selmaho::Nai) {
            Outcome::Matched(_) => is_word(field_0, toks, pos, Selmaho::Nai),
            _ => false,
        },
        _ => false,
    }
}

/// What [`is_indicator_nai`] says.
pub proof fn lemma_is_indicator_nai<'arena>(node: Indicator<'arena>, toks: Seq<Token>, pos: nat)
    ensures
        is_indicator_nai(node, toks, pos) == (
            match node {
                Indicator::Nai(field_0) => match spec_word(toks, pos, Selmaho::Nai) {
                    Outcome::Matched(_) => is_word(field_0, toks, pos, Selmaho::Nai),
                    _ => false,
                },
                _ => false,
            }
        ),
{
    reveal(is_indicator_nai);
    reveal(is_word);
}

/// Whether `node` is the node that `IndicatorDaho` makes of the tokens at `pos`.
#[verifier::opaque]
pub closed spec fn is_indicator_daho<'arena>(
    node: Indicator<'arena>,
    toks: Seq<Token>,
    pos: nat,
) -> bool
    decreases rest(toks, pos), 3nat,
{
    match node {
        Indicator::Daho(field_0) => match spec_word(toks, pos, Selmaho::Daho) {
            Outcome::Matched(_) => is_word(field_0, toks, pos, Selmaho::Daho),
            _ => false,
        },
        _ => false,
    }
}

/// What [`is_indicator_daho`] says.
pub proof fn lemma_is_indicator_daho<'arena>(node: Indicator<'arena>, toks: Seq<Token>, pos: nat)
    ensures
        is_indicator_daho(node, toks, pos) == (
            match node {
                Indicator::Daho(field_0) => match spec_word(toks, pos, Selmaho::Daho) {
                    Outcome::Matched(_) => is_word(field_0, toks, pos, Selmaho::Daho),
                    _ => false,
                },
                _ => false,
            }
        ),
{
    reveal(is_indicator_daho);
    reveal(is_word);
}

/// Whether `node` is the node that `IndicatorFuho` makes of the tokens at `pos`.
#[verifier::opaque]
pub closed spec fn is_indicator_fuho<'arena>(
    node: Indicator<'arena>,
    toks: Seq<Token>,
    pos: nat,
) -> bool
    decreases rest(toks, pos), 3nat,
{
    match node {
        Indicator::Fuho(field_0) => match spec_word(toks, pos, Selmaho::Fuho) {
            Outcome::Matched(_) => is_word(field_0, toks, pos, Selmaho::Fuho),
            _ => false,
        },
        _ => false,
    }
}

/// What [`is_indicator_fuho`] says.
pub proof fn lemma_is_indicator_fuho<'arena>(node: Indicator<'arena>, toks: Seq<Token>, pos: nat)
    ensures
        is_indicator_fuho(node, toks, pos) == (
            match node {
                Indicator::Fuho(field_0) => match spec_word(toks, pos, Selmaho::Fuho) {
                    Outcome::Matched(_) => is_word(field_0, toks, pos, Selmaho::Fuho),
                    _ => false,
                },
                _ => false,
            }
        ),
{
    reveal(is_indicator_fuho);
    reveal(is_word);
}

/// Whether `node` is the node that `IndicatorY` makes of the tokens at `pos`.
#[verifier::opaque]
pub closed spec fn is_indicator_y<'arena>(
    node: Indicator<'arena>,
    toks: Seq<Token>,
    pos: nat,
) -> bool
    decreases rest(toks, pos), 3nat,
{
    match node {
        Indicator::Y(field_0) => match spec_word(toks, pos, Selmaho::Y) {
            Outcome::Matched(_) => is_word(field_0, toks, pos, Selmaho::Y),
            _ => false,
        },
        _ => false,
    }
}

/// What [`is_indicator_y`] says.
pub proof fn lemma_is_indicator_y<'arena>(node: Indicator<'arena>, toks: Seq<Token>, pos: nat)
    ensures
        is_indicator_y(node, toks, pos) == (
            match node {
                Indicator::Y(field_0) => match spec_word(toks, pos, Selmaho::Y) {
                    Outcome::Matched(_) => is_word(field_0, toks, pos, Selmaho::Y),
                    _ => false,
                },
                _ => false,
            }
        ),
{
    reveal(is_indicator_y);
    reveal(is_word);
}

/// Whether `node` is the node that `Frees` makes of the tokens at `pos`.
#[verifier::opaque]
pub closed spec fn is_frees<'arena>(node: Frees<'arena>, toks: Seq<Token>, pos: nat) -> bool
    decreases rest(toks, pos), 24nat,
{
    match spec_many0_free(toks, pos) {
        Outcome::Matched(_) => is_row_of_free(node.0@, toks, pos),
        _ => false,
    }
}

/// What [`is_frees`] says.
pub proof fn lemma_is_frees<'arena>(node: Frees<'arena>, toks: Seq<Token>, pos: nat)
    ensures
        is_frees(node, toks, pos) == (
            match spec_many0_free(toks, pos) {
                Outcome::Matched(_) => is_row_of_free(node.0@, toks, pos),
                _ => false,
            }
        ),
{
    reveal(is_frees);
    reveal(is_row_of_free);
}

/// Whether `node` is the node that `Free` makes of the tokens at `pos`: the
/// node of the first alternative that matches.
#[verifier::opaque]
pub closed spec fn is_free<'arena>(node: Free<'arena>, toks: Seq<Token>, pos: nat) -> bool
    decreases rest(toks, pos), 22nat,
{
    match spec_free_sei(toks, pos) {
        Outcome::Matched(_) => is_free_sei(node, toks, pos),
        Outcome::Error(_) => match spec_free_soi(toks, pos) {
            Outcome::Matched(_) => is_free_soi(node, toks, pos),
            Outcome::Error(_) => match spec_free_vocative(toks, pos) {
                Outcome::Matched(_) => is_free_vocative(node, toks, pos),
                Outcome::Error(_) => match spec_free_mai(toks, pos) {
                    Outcome::Matched(_) => is_free_mai(node, toks, pos),
                    Outcome::Error(_) => match spec_free_to(toks, pos) {
                        Outcome::Matched(_) => is_free_to(node, toks, pos),
                        Outcome::Error(
                            _,
                        ) => spec_free_xi(toks, pos) is Matched && is_free_xi(node, toks, pos),
                        Outcome::Failure(_) => false,
                    },
                    Outcome::Failure(_) => false,
                },
                Outcome::Failure(_) => false,
            },
            Outcome::Failure(_) => false,
        },
        Outcome::Failure(_) => false,
    }
}

/// What [`is_free`] says.
pub proof fn lemma_is_free<'arena>(toks: Seq<Token>, pos: nat)
    ensures
        forall|node: Free<'arena>| #[trigger] is_free(node, toks, pos) == (
            match spec_free_sei(toks, pos) {
                Outcome::Matched(_) => is_free_sei(node, toks, pos),
                Outcome::Error(_) => match spec_free_soi(toks, pos) {
                    Outcome::Matched(_) => is_free_soi(node, toks, pos),
                    Outcome::Error(_) => match spec_free_vocative(toks, pos) {
                        Outcome::Matched(_) => is_free_vocative(node, toks, pos),
                        Outcome::Error(_) => match spec_free_mai(toks, pos) {
                            Outcome::Matched(_) => is_free_mai(node, toks, pos),
                            Outcome::Error(_) => match spec_free_to(toks, pos) {
                                Outcome::Matched(_) => is_free_to(node, toks, pos),
                                Outcome::Error(
                                    _,
                                ) => spec_free_xi(
                                    toks,
                                    pos,
                                ) is Matched && is_free_xi(node, toks, pos),
                                Outcome::Failure(_) => false,
                            },
                            Outcome::Failure(_) => false,
                        },
                        Outcome::Failure(_) => false,
                    },
                    Outcome::Failure(_) => false,
                },
                Outcome::Failure(_) => false,
            }
        ),
{
    reveal(is_free);
    reveal(is_free_sei);
    reveal(is_free_soi);
    reveal(is_free_vocative);
    reveal(is_free_mai);
    reveal(is_free_to);
    reveal(is_free_xi);
}

/// How many tokens the first `count` of a row of `Free` take at `pos`.
pub open spec fn run_of_free(toks: Seq<Token>, pos: nat, count: nat) -> nat
    decreases count,
{
    if count == 0 {
        0
    } else {
        let before = run_of_free(toks, pos, (count - 1) as nat);
        before + (match spec_free(toks, pos + before) {
            Outcome::Matched(len) => len,
            _ => 0,
        })
    }
}

/// Whether `items` are the nodes of a row of `Free` at `pos`: each is the
/// node of the `Free` at its place, and no further one follows them.
#[verifier::opaque]
pub closed spec fn is_row_of_free<'arena>(
    items: Seq<Free<'arena>>,
    toks: Seq<Token>,
    pos: nat,
) -> bool
    decreases rest(toks, pos), 23nat,
{
    &&& forall|i: int|
        #![trigger items[i]]
        #![trigger run_of_free(toks, pos, i as nat)]
        0 <= i < items.len() ==> spec_free(
            toks,
            pos + run_of_free(toks, pos, i as nat),
        ) is Matched && is_free(items[i], toks, pos + run_of_free(toks, pos, i as nat))
    &&& !(spec_free(toks, pos + run_of_free(toks, pos, items.len())) is Matched)
}

/// What [`is_row_of_free`] says.
pub proof fn lemma_is_row_of_free<'arena>(
    items: Seq<Free<'arena>>,
    toks: Seq<Token>,
    pos: nat,
)
    ensures
        is_row_of_free(items, toks, pos) == ({
            &&& forall|i: int|
                #![trigger items[i]]
                #![trigger run_of_free(toks, pos, i as nat)]
                0 <= i < items.len() ==> spec_free(
                    toks,
                    pos + run_of_free(toks, pos, i as nat),
                ) is Matched && is_free(items[i], toks, pos + run_of_free(toks, pos, i as nat))
            &&& !(spec_free(toks, pos + run_of_free(toks, pos, items.len())) is Matched)
        }),
{
    reveal(is_row_of_free);
    reveal(is_free);
}

/// Whether `node` is the node that `FreeSei` makes of the tokens at `pos`.
#[verifier::opaque]
pub closed spec fn is_free_sei<'arena>(node: Free<'arena>, toks: Seq<Token>, pos: nat) -> bool
    decreases rest(toks, pos), 4nat,
{
    match node {
        Free::Sei(
            field_0,
            field_1,
            field_2,
            field_3,
        ) => match spec_word_with_free(toks, pos, Selmaho::Sei) {
            Outcome::Matched(n1) => {
                &&& is_word_with_free(field_0, toks, pos, Selmaho::Sei)
                &&& match spec_args(toks, pos + n1) {
                        Outcome::Matched(n2) => {
                            &&& advanced(toks, pos, n1)
                            &&& is_args(field_1, toks, pos + n1)
                            &&& match spec_opt(spec_sei_tail(toks, pos + n1 + n2)) {
                                    Outcome::Matched(n3) => {
                                        &&& advanced(toks, pos, n1 + n2)
                                        &&& (match field_2 {
                                                Some(inner) => {
                                                    &&& spec_sei_tail(
                                                        toks,
                                                        pos + n1 + n2,
                                                    ) is Matched
                                                    &&& is_sei_tail(inner, toks, pos + n1 + n2)
                                                },
                                                None => spec_sei_tail(
                                                    toks,
                                                    pos + n1 + n2,
                                                ) is Error,
                                            })
                                        &&& match spec_opt(
                                            spec_word_with_free(
                                                toks,
                                                pos + n1 + n2 + n3,
                                                Selmaho::Sehu,
                                            ),
                                        ) {
                                                Outcome::Matched(_) => {
                                                    &&& (match field_3 {
                                                            Some(inner) => {
                                                                &&& spec_word_with_free(
                                                                    toks,
                                                                    pos + n1 + n2 + n3,
                                                                    Selmaho::Sehu,
                                                                ) is Matched
                                                                &&& is_word_with_free(
                                                                    inner,
                                                                    toks,
                                                                    pos + n1 + n2 + n3,
                                                                    Selmaho::Sehu,
                                                                )
                                                            },
                                                            None => spec_word_with_free(
                                                                toks,
                                                                pos + n1 + n2 + n3,
                                                                Selmaho::Sehu,
                                                            ) is Error,
                                                        })
                                                },
                                                _ => false,
                                            }
                                    },
                                    _ => false,
                                }
                        },
                        _ => false,
                    }
            },
            _ => false,
        },
        _ => false,
    }
}

/// What [`is_free_sei`] says.
pub proof fn lemma_is_free_sei<'arena>(node: Free<'arena>, toks: Seq<Token>, pos: nat)
    ensures
        is_free_sei(node, toks, pos) == (
            match node {
                Free::Sei(
                    field_0,
                    field_1,
                    field_2,
                    field_3,
                ) => match spec_word_with_free(toks, pos, Selmaho::Sei) {
                    Outcome::Matched(n1) => {
                        &&& is_word_with_free(field_0, toks, pos, Selmaho::Sei)
                        &&& match spec_args(toks, pos + n1) {
                                Outcome::Matched(n2) => {
                                    &&& advanced(toks, pos, n1)
                                    &&& is_args(field_1, toks, pos + n1)
                                    &&& match spec_opt(spec_sei_tail(toks, pos + n1 + n2)) {
                                            Outcome::Matched(n3) => {
                                                &&& advanced(toks, pos, n1 + n2)
                                                &&& (match field_2 {
                                                        Some(inner) => {
                                                            &&& spec_sei_tail(
                                                                toks,
                                                                pos + n1 + n2,
                                                            ) is Matched
                                                            &&& is_sei_tail(
                                                                inner,
                                                                toks,
                                                                pos + n1 + n2,
                                                            )
                                                        },
                                                        None => spec_sei_tail(
                                                            toks,
                                                            pos + n1 + n2,
                                                        ) is Error,
                                                    })
                                                &&& match spec_opt(
                                                    spec_word_with_free(
                                                        toks,
                                                        pos + n1 + n2 + n3,
                                                        Selmaho::Sehu,
                                                    ),
                                                ) {
                                                        Outcome::Matched(_) => {
                                                            &&& (match field_3 {
                                                                    Some(inner) => {
                                                                        &&& spec_word_with_free(
                                                                            toks,
                                                                            pos + n1 + n2 + n3,
                                                                            Selmaho::Sehu,
                                                                        ) is Matched
                                                                        &&& is_word_with_free(
                                                                            inner,
                                                                            toks,
                                                                            pos + n1 + n2 + n3,
                                                                            Selmaho::Sehu,
                                                                        )
                                                                    },
                                                                    None => spec_word_with_free(
                                                                        toks,
                                                                        pos + n1 + n2 + n3,
                                                                        Selmaho::Sehu,
                                                                    ) is Error,
                                                                })
                                                        },
                                                        _ => false,
                                                    }
                                            },
                                            _ => false,
                                        }
                                },
                                _ => false,
                            }
                    },
                    _ => false,
                },
                _ => false,
            }
        ),
{
    reveal(is_free_sei);
    reveal(is_word_with_free);
    reveal(is_args);
    reveal(is_sei_tail);
}

/// Whether `node` is the node that `Args` makes of the tokens at `pos`.
#[verifier::opaque]
pub closed spec fn is_args<'arena>(node: Args<'arena>, toks: Seq<Token>, pos: nat) -> bool
    decreases rest(toks, pos), 61nat,
{
    match spec_many0_arg(toks, pos) {
        Outcome::Matched(_) => is_row_of_arg(node.0@, toks, pos),
        _ => false,
    }
}

/// What [`is_args`] says.
pub proof fn lemma_is_args<'arena>(node: Args<'arena>, toks: Seq<Token>, pos: nat)
    ensures
        is_args(node, toks, pos) == (
            match spec_many0_arg(toks, pos) {
                Outcome::Matched(_) => is_row_of_arg(node.0@, toks, pos),
                _ => false,
            }
        ),
{
    reveal(is_args);
    reveal(is_row_of_arg);
}

/// Whether `node` is the node that `Arg` makes of the tokens at `pos`.
#[verifier::opaque]
pub closed spec fn is_arg<'arena>(node: Arg<'arena>, toks: Seq<Token>, pos: nat) -> bool
    decreases rest(toks, pos), 59nat,
{
    match spec_arg_1(toks, pos) {
        Outcome::Matched(n1) => {
            &&& is_arg_1(node.0, toks, pos)
            &&& match spec_many0_arg_connected_post(toks, pos + n1) {
                    Outcome::Matched(_) => is_row_of_arg_connected_post(node.1@, toks, pos + n1),
                    _ => false,
                }
        },
        _ => false,
    }
}

/// What [`is_arg`] says.
pub proof fn lemma_is_arg<'arena>(node: Arg<'arena>, toks: Seq<Token>, pos: nat)
    ensures
        is_arg(node, toks, pos) == (
            match spec_arg_1(toks, pos) {
                Outcome::Matched(n1) => {
                    &&& is_arg_1(node.0, toks, pos)
                    &&& match spec_many0_arg_connected_post(toks, pos + n1) {
                            Outcome::Matched(_) => is_row_of_arg_connected_post(
                                node.1@,
                                toks,
                                pos + n1,
                            ),
                            _ => false,
                        }
                },
                _ => false,
            }
        ),
{
    reveal(is_arg);
    reveal(is_arg_1);
    reveal(is_row_of_arg_connected_post);
}

/// How many tokens the first `count` of a row of `Arg` take at `pos`.
pub open spec fn run_of_arg(toks: Seq<Token>, pos: nat, count: nat) -> nat
    decreases count,
{
    if count == 0 {
        0
    } else {
        let before = run_of_arg(toks, pos, (count - 1) as nat);
        before + (match spec_arg(toks, pos + before) {
            Outcome::Matched(len) => len,
            _ => 0,
        })
    }
}

/// Whether `items` are the nodes of a row of `Arg` at `pos`: each is the
/// node of the `Arg` at its place, and no further one follows them.
#[verifier::opaque]
pub closed spec fn is_row_of_arg<'arena>(
    items: Seq<Arg<'arena>>,
    toks: Seq<Token>,
    pos: nat,
) -> bool
    decreases rest(toks, pos), 60nat,
{
    &&& forall|i: int|
        #![trigger items[i]]
        #![trigger run_of_arg(toks, pos, i as nat)]
        0 <= i < items.len() ==> spec_arg(
            toks,
            pos + run_of_arg(toks, pos, i as nat),
        ) is Matched && is_arg(items[i], toks, pos + run_of_arg(toks, pos, i as nat))
    &&& !(spec_arg(toks, pos + run_of_arg(toks, pos, items.len())) is Matched)
}

/// What [`is_row_of_arg`] says.
pub proof fn lemma_is_row_of_arg<'arena>(
    items: Seq<Arg<'arena>>,
    toks: Seq<Token>,
    pos: nat,
)
    ensures
        is_row_of_arg(items, toks, pos) == ({
            &&& forall|i: int|
                #![trigger items[i]]
                #![trigger run_of_arg(toks, pos, i as nat)]
                0 <= i < items.len() ==> spec_arg(
                    toks,
                    pos + run_of_arg(toks, pos, i as nat),
                ) is Matched && is_arg(items[i], toks, pos + run_of_arg(toks, pos, i as nat))
            &&& !(spec_arg(toks, pos + run_of_arg(toks, pos, items.len())) is Matched)
        }),
{
    reveal(is_row_of_arg);
    reveal(is_arg);
}

/// Whether `node` is the node that `Arg1` makes of the tokens at `pos`.
#[verifier::opaque]
pub closed spec fn is_arg_1<'arena>(
    node: Separated<'arena, Arg2<'arena>, PeheConnective<'arena>>,
    toks: Seq<Token>,
    pos: nat,
) -> bool
    decreases rest(toks, pos), 55nat,
{
    match spec_arg_2(toks, pos) {
        Outcome::Matched(n1) => {
            &&& is_arg_2(*node.first, toks, pos)
            &&& match spec_many0_arg_1_next(toks, pos + n1) {
                    Outcome::Matched(_) => is_row_of_arg_1_next(node.rest@, toks, pos + n1),
                    _ => false,
                }
        },
        _ => false,
    }
}

/// What [`is_arg_1`] says.
pub proof fn lemma_is_arg_1<'arena>(
    node: Separated<'arena, Arg2<'arena>, PeheConnective<'arena>>,
    toks: Seq<Token>,
    pos: nat,
)
    ensures
        is_arg_1(node, toks, pos) == (
            match spec_arg_2(toks, pos) {
                Outcome::Matched(n1) => {
                    &&& is_arg_2(*node.first, toks, pos)
                    &&& match spec_many0_arg_1_next(toks, pos + n1) {
                            Outcome::Matched(_) => is_row_of_arg_1_next(
                                node.rest@,
                                toks,
                                pos + n1,
                            ),
                            _ => false,
                        }
                },
                _ => false,
            }
        ),
{
    reveal(is_arg_1);
    reveal(is_arg_2);
    reveal(is_row_of_arg_1_next);
}

/// Whether `node` is the node that `Arg2` makes of the tokens at `pos`.
#[verifier::opaque]
pub closed spec fn is_arg_2<'arena>(
    node: Separated<'arena, Arg3<'arena>, WithFree<'arena, Word<'arena>>>,
    toks: Seq<Token>,
    pos: nat,
) -> bool
    decreases rest(toks, pos), 52nat,
{
    match spec_arg_3(toks, pos) {
        Outcome::Matched(n1) => {
            &&& is_arg_3(*node.first, toks, pos)
            &&& match spec_many0_arg_2_next(toks, pos + n1) {
                    Outcome::Matched(_) => is_row_of_arg_2_next(node.rest@, toks, pos + n1),
                    _ => false,
                }
        },
        _ => false,
    }
}

/// What [`is_arg_2`] says.
pub proof fn lemma_is_arg_2<'arena>(
    node: Separated<'arena, Arg3<'arena>, WithFree<'arena, Word<'arena>>>,
    toks: Seq<Token>,
    pos: nat,
)
    ensures
        is_arg_2(node, toks, pos) == (
            match spec_arg_3(toks, pos) {
                Outcome::Matched(n1) => {
                    &&& is_arg_3(*node.first, toks, pos)
                    &&& match spec_many0_arg_2_next(toks, pos + n1) {
                            Outcome::Matched(_) => is_row_of_arg_2_next(
                                node.rest@,
                                toks,
                                pos + n1,
                            ),
                            _ => false,
                        }
                },
                _ => false,
            }
        ),
{
    reveal(is_arg_2);
    reveal(is_arg_3);
    reveal(is_row_of_arg_2_next);
}

/// Whether `node` is the node that `Arg3` makes of the tokens at `pos`: the
/// node of the first alternative that matches.
#[verifier::opaque]
pub closed spec fn is_arg_3<'arena>(node: Arg3<'arena>, toks: Seq<Token>, pos: nat) -> bool
    decreases rest(toks, pos), 49nat,
{
    match spec_arg_3_tag(toks, pos) {
        Outcome::Matched(_) => is_arg_3_tag(node, toks, pos),
        Outcome::Error(_) => match spec_arg_3_sumti(toks, pos) {
            Outcome::Matched(_) => is_arg_3_sumti(node, toks, pos),
            Outcome::Error(_) => match spec_arg_3_naku(toks, pos) {
                Outcome::Matched(_) => is_arg_3_naku(node, toks, pos),
                Outcome::Error(
                    _,
                ) => spec_arg_3_termset(
                    toks,
                    pos,
                ) is Matched && is_arg_3_termset(node, toks, pos),
                Outcome::Failure(_) => false,
            },
            Outcome::Failure(_) => false,
        },
        Outcome::Failure(_) => false,
    }
}

/// What [`is_arg_3`] says.
pub proof fn lemma_is_arg_3<'arena>(toks: Seq<Token>, pos: nat)
    ensures
        forall|node: Arg3<'arena>| #[trigger] is_arg_3(node, toks, pos) == (
            match spec_arg_3_tag(toks, pos) {
                Outcome::Matched(_) => is_arg_3_tag(node, toks, pos),
                Outcome::Error(_) => match spec_arg_3_sumti(toks, pos) {
                    Outcome::Matched(_) => is_arg_3_sumti(node, toks, pos),
                    Outcome::Error(_) => match spec_arg_3_naku(toks, pos) {
                        Outcome::Matched(_) => is_arg_3_naku(node, toks, pos),
                        Outcome::Error(
                            _,
                        ) => spec_arg_3_termset(
                            toks,
                            pos,
                        ) is Matched && is_arg_3_termset(node, toks, pos),
                        Outcome::Failure(_) => false,
                    },
                    Outcome::Failure(_) => false,
                },
                Outcome::Failure(_) => false,
            }
        ),
{
    reveal(is_arg_3);
    reveal(is_arg_3_tag);
    reveal(is_arg_3_sumti);
    reveal(is_arg_3_naku);
    reveal(is_arg_3_termset);
}

/// Whether `node` is the node that `Arg3Tag` makes of the tokens at `pos`.
#[verifier::opaque]
pub closed spec fn is_arg_3_tag<'arena>(node: Arg3<'arena>, toks: Seq<Token>, pos: nat) -> bool
    decreases rest(toks, pos), 48nat,
{
    match node {
        Arg3::Tag(field_0) => match spec_tag(toks, pos) {
            Outcome::Matched(_) => is_tag(field_0, toks, pos),
            _ => false,
        },
        _ => false,
    }
}

/// What [`is_arg_3_tag`] says.
pub proof fn lemma_is_arg_3_tag<'arena>(node: Arg3<'arena>, toks: Seq<Token>, pos: nat)
    ensures
        is_arg_3_tag(node, toks, pos) == (
            match node {
                Arg3::Tag(field_0) => match spec_tag(toks, pos) {
                    Outcome::Matched(_) => is_tag(field_0, toks, pos),
                    _ => false,
                },
                _ => false,
            }
        ),
{
    reveal(is_arg_3_tag);
    reveal(is_tag);
}

/// Whether `node` is the node that `Tag` makes of the tokens at `pos`.
#[verifier::opaque]
pub closed spec fn is_tag<'arena>(node: Tag<'arena>, toks: Seq<Token>, pos: nat) -> bool
    decreases rest(toks, pos), 47nat,
{
    match spec_tag_words(toks, pos) {
        Outcome::Matched(n1) => {
            &&& is_tag_words(node.words, toks, pos)
            &&& match spec_opt(spec_tag_value(toks, pos + n1)) {
                    Outcome::Matched(_) => {
                        &&& (match node.value {
                                Some(inner) => {
                                    &&& spec_tag_value(toks, pos + n1) is Matched
                                    &&& is_tag_value(inner, toks, pos + n1)
                                },
                                None => spec_tag_value(toks, pos + n1) is Error,
                            })
                    },
                    _ => false,
                }
        },
        _ => false,
    }
}

/// What [`is_tag`] says.
pub proof fn lemma_is_tag<'arena>(node: Tag<'arena>, toks: Seq<Token>, pos: nat)
    ensures
        is_tag(node, toks, pos) == (
            match spec_tag_words(toks, pos) {
                Outcome::Matched(n1) => {
                    &&& is_tag_words(node.words, toks, pos)
                    &&& match spec_opt(spec_tag_value(toks, pos + n1)) {
                            Outcome::Matched(_) => {
                                &&& (match node.value {
                                        Some(inner) => {
                                            &&& spec_tag_value(toks, pos + n1) is Matched
                                            &&& is_tag_value(inner, toks, pos + n1)
                                        },
                                        None => spec_tag_value(toks, pos + n1) is Error,
                                    })
                            },
                            _ => false,
                        }
                },
                _ => false,
            }
        ),
{
    reveal(is_tag);
    reveal(is_tag_words);
    reveal(is_tag_value);
}

/// Whether `node` is the node that `TagWords` makes of the tokens at `pos`.
#[verifier::opaque]
pub closed spec fn is_tag_words<'arena>(
    node: Separated<'arena, TagWord<'arena>, JoikJek<'arena>>,
    toks: Seq<Token>,
    pos: nat,
) -> bool
    decreases rest(toks, pos), 31nat,
{
    match spec_tag_word(toks, pos) {
        Outcome::Matched(n1) => {
            &&& is_tag_word(*node.first, toks, pos)
            &&& match spec_many0_tag_words_next(toks, pos + n1) {
                    Outcome::Matched(_) => is_row_of_tag_words_next(node.rest@, toks, pos + n1),
                    _ => false,
                }
        },
        _ => false,
    }
}

/// What [`is_tag_words`] says.
pub proof fn lemma_is_tag_words<'arena>(
    node: Separated<'arena, TagWord<'arena>, JoikJek<'arena>>,
    toks: Seq<Token>,
    pos: nat,
)
    ensures
        is_tag_words(node, toks, pos) == (
            match spec_tag_word(toks, pos) {
                Outcome::Matched(n1) => {
                    &&& is_tag_word(*node.first, toks, pos)
                    &&& match spec_many0_tag_words_next(toks, pos + n1) {
                            Outcome::Matched(_) => is_row_of_tag_words_next(
                                node.rest@,
                                toks,
                                pos + n1,
                            ),
                            _ => false,
                        }
                },
                _ => false,
            }
        ),
{
    reveal(is_tag_words);
    reveal(is_tag_word);
    reveal(is_row_of_tag_words_next);
}

/// Whether `node` is the node that `TagWord` makes of the tokens at `pos`: the
/// node of the first alternative that matches.
#[verifier::opaque]
pub closed spec fn is_tag_word<'arena>(node: TagWord<'arena>, toks: Seq<Token>, pos: nat) -> bool
    decreases rest(toks, pos), 28nat,
{
    match spec_tag_word_bai(toks, pos) {
        Outcome::Matched(_) => is_tag_word_bai(node, toks, pos),
        Outcome::Error(_) => match spec_tag_word_time_space_caha(toks, pos) {
            Outcome::Matched(_) => is_tag_word_time_space_caha(node, toks, pos),
            Outcome::Error(_) => match spec_tag_word_ki(toks, pos) {
                Outcome::Matched(_) => is_tag_word_ki(node, toks, pos),
                Outcome::Error(_) => match spec_tag_word_cuhe(toks, pos) {
                    Outcome::Matched(_) => is_tag_word_cuhe(node, toks, pos),
                    Outcome::Error(
                        _,
                    ) => spec_tag_word_converted(
                        toks,
                        pos,
                    ) is Matched && is_tag_word_converted(node, toks, pos),
                    Outcome::Failure(_) => false,
                },
                Outcome::Failure(_) => false,
            },
            Outcome::Failure(_) => false,
        },
        Outcome::Failure(_) => false,
    }
}

/// What [`is_tag_word`] says.
pub proof fn lemma_is_tag_word<'arena>(toks: Seq<Token>, pos: nat)
    ensures
        forall|node: TagWord<'arena>| #[trigger] is_tag_word(node, toks, pos) == (
            match spec_tag_word_bai(toks, pos) {
                Outcome::Matched(_) => is_tag_word_bai(node, toks, pos),
                Outcome::Error(_) => match spec_tag_word_time_space_caha(toks, pos) {
                    Outcome::Matched(_) => is_tag_word_time_space_caha(node, toks, pos),
                    Outcome::Error(_) => match spec_tag_word_ki(toks, pos) {
                        Outcome::Matched(_) => is_tag_word_ki(node, toks, pos),
                        Outcome::Error(_) => match spec_tag_word_cuhe(toks, pos) {
                            Outcome::Matched(_) => is_tag_word_cuhe(node, toks, pos),
                            Outcome::Error(
                                _,
                            ) => spec_tag_word_converted(
                                toks,
                                pos,
                            ) is Matched && is_tag_word_converted(node, toks, pos),
                            Outcome::Failure(_) => false,
                        },
                        Outcome::Failure(_) => false,
                    },
                    Outcome::Failure(_) => false,
                },
                Outcome::Failure(_) => false,
            }
        ),
{
    reveal(is_tag_word);
    reveal(is_tag_word_bai);
    reveal(is_tag_word_time_space_caha);
    reveal(is_tag_word_ki);
    reveal(is_tag_word_cuhe);
    reveal(is_tag_word_converted);
}

/// Whether `node` is the node that `TagWordBai` makes of the tokens at `pos`.
#[verifier::opaque]
pub closed spec fn is_tag_word_bai<'arena>(
    node: TagWord<'arena>,
    toks: Seq<Token>,
    pos: nat,
) -> bool
    decreases rest(toks, pos), 25nat,
{
    match node {
        TagWord::Bai { nahe, se, bai, nai, ki, frees } => match spec_opt(
            spec_word(toks, pos, Selmaho::Nahe),
        ) {
            Outcome::Matched(n1) => {
                &&& (match nahe {
                        Some(inner) => {
                            &&& spec_word(toks, pos, Selmaho::Nahe) is Matched
                            &&& is_word(inner, toks, pos, Selmaho::Nahe)
                        },
                        None => spec_word(toks, pos, Selmaho::Nahe) is Error,
                    })
                &&& match spec_opt(spec_word(toks, pos + n1, Selmaho::Se)) {
                        Outcome::Matched(n2) => {
                            &&& (match se {
                                    Some(inner) => {
                                        &&& spec_word(toks, pos + n1, Selmaho::Se) is Matched
                                        &&& is_word(inner, toks, pos + n1, Selmaho::Se)
                                    },
                                    None => spec_word(toks, pos + n1, Selmaho::Se) is Error,
                                })
                            &&& match spec_word(toks, pos + n1 + n2, Selmaho::Bai) {
                                    Outcome::Matched(n3) => {
                                        &&& is_word(bai, toks, pos + n1 + n2, Selmaho::Bai)
                                        &&& match spec_opt(
                                            spec_word(toks, pos + n1 + n2 + n3, Selmaho::Nai),
                                        ) {
                                                Outcome::Matched(n4) => {
                                                    &&& (match nai {
                                                            Some(inner) => {
                                                                &&& spec_word(
                                                                    toks,
                                                                    pos + n1 + n2 + n3,
                                                                    Selmaho::Nai,
                                                                ) is Matched
                                                                &&& is_word(
                                                                    inner,
                                                                    toks,
                                                                    pos + n1 + n2 + n3,
                                                                    Selmaho::Nai,
                                                                )
                                                            },
                                                            None => spec_word(
                                                                toks,
                                                                pos + n1 + n2 + n3,
                                                                Selmaho::Nai,
                                                            ) is Error,
                                                        })
                                                    &&& match spec_opt(
                                                        spec_word(
                                                            toks,
                                                            pos + n1 + n2 + n3 + n4,
                                                            Selmaho::Ki,
                                                        ),
                                                    ) {
                                                            Outcome::Matched(n5) => {
                                                                &&& (match ki {
                                                                        Some(inner) => {
                                                                            &&& spec_word(
                                                                                toks,
                                                                                pos + n1 + n2 + n3 + n4,
                                                                                Selmaho::Ki,
                                                                            ) is Matched
                                                                            &&& is_word(
                                                                                inner,
                                                                                toks,
                                                                                pos + n1 + n2 + n3 + n4,
                                                                                Selmaho::Ki,
                                                                            )
                                                                        },
                                                                        None => spec_word(
                                                                            toks,
                                                                            pos + n1 + n2 + n3 + n4,
                                                                            Selmaho::Ki,
                                                                        ) is Error,
                                                                    })
                                                                &&& match spec_frees(
                                                                    toks,
                                                                    pos + n1 + n2 + n3 + n4 + n5,
                                                                ) {
                                                                        Outcome::Matched(_) => is_frees(
                                                                            frees,
                                                                            toks,
                                                                            pos + n1 + n2 + n3 + n4 + n5,
                                                                        ),
                                                                        _ => false,
                                                                    }
                                                            },
                                                            _ => false,
                                                        }
                                                },
                                                _ => false,
                                            }
                                    },
                                    _ => false,
                                }
                        },
                        _ => false,
                    }
            },
            _ => false,
        },
        _ => false,
    }
}

/// What [`is_tag_word_bai`] says.
pub proof fn lemma_is_tag_word_bai<'arena>(node: TagWord<'arena>, toks: Seq<Token>, pos: nat)
    ensures
        is_tag_word_bai(node, toks, pos) == (
            match node {
                TagWord::Bai { nahe, se, bai, nai, ki, frees } => match spec_opt(
                    spec_word(toks, pos, Selmaho::Nahe),
                ) {
                    Outcome::Matched(n1) => {
                        &&& (match nahe {
                                Some(inner) => {
                                    &&& spec_word(toks, pos, Selmaho::Nahe) is Matched
                                    &&& is_word(inner, toks, pos, Selmaho::Nahe)
                                },
                                None => spec_word(toks, pos, Selmaho::Nahe) is Error,
                            })
                        &&& match spec_opt(spec_word(toks, pos + n1, Selmaho::Se)) {
                                Outcome::Matched(n2) => {
                                    &&& (match se {
                                            Some(inner) => {
                                                &&& spec_word(
                                                    toks,
                                                    pos + n1,
                                                    Selmaho::Se,
                                                ) is Matched
                                                &&& is_word(inner, toks, pos + n1, Selmaho::Se)
                                            },
                                            None => spec_word(
                                                toks,
                                                pos + n1,
                                                Selmaho::Se,
                                            ) is Error,
                                        })
                                    &&& match spec_word(toks, pos + n1 + n2, Selmaho::Bai) {
                                            Outcome::Matched(n3) => {
                                                &&& is_word(
                                                    bai,
                                                    toks,
                                                    pos + n1 + n2,
                                                    Selmaho::Bai,
                                                )
                                                &&& match spec_opt(
                                                    spec_word(
                                                        toks,
                                                        pos + n1 + n2 + n3,
                                                        Selmaho::Nai,
                                                    ),
                                                ) {
                                                        Outcome::Matched(n4) => {
                                                            &&& (match nai {
                                                                    Some(inner) => {
                                                                        &&& spec_word(
                                                                            toks,
                                                                            pos + n1 + n2 + n3,
                                                                            Selmaho::Nai,
                                                                        ) is Matched
                                                                        &&& is_word(
                                                                            inner,
                                                                            toks,
                                                                            pos + n1 + n2 + n3,
                                                                            Selmaho::Nai,
                                                                        )
                                                                    },
                                                                    None => spec_word(
                                                                        toks,
                                                                        pos + n1 + n2 + n3,
                                                                        Selmaho::Nai,
                                                                    ) is Error,
                                                                })
                                                            &&& match spec_opt(
                                                                spec_word(
                                                                    toks,
                                                                    pos + n1 + n2 + n3 + n4,
                                                                    Selmaho::Ki,
                                                                ),
                                                            ) {
                                                                    Outcome::Matched(n5) => {
                                                                        &&& (match ki {
                                                                                Some(inner) => {
                                                                                    &&& spec_word(
                                                                                        toks,
                                                                                        pos + n1 + n2 + n3 + n4,
                                                                                        Selmaho::Ki,
                                                                                    ) is Matched
                                                                                    &&& is_word(
                                                                                        inner,
                                                                                        toks,
                                                                                        pos + n1 + n2 + n3 + n4,
                                                                                        Selmaho::Ki,
                                                                                    )
                                                                                },
                                                                                None => spec_word(
                                                                                    toks,
                                                                                    pos + n1 + n2 + n3 + n4,
                                                                                    Selmaho::Ki,
                                                                                ) is Error,
                                                                            })
                                                                        &&& match spec_frees(
                                                                            toks,
                                                                            pos + n1 + n2 + n3 + n4 + n5,
                                                                        ) {
                                                                                Outcome::Matched(_) => is_frees(
                                                                                    frees,
                                                                                    toks,
                                                                                    pos + n1 + n2 + n3 + n4 + n5,
                                                                                ),
                                                                                _ => false,
                                                                            }
                                                                    },
                                                                    _ => false,
                                                                }
                                                        },
                                                        _ => false,
                                                    }
                                            },
                                            _ => false,
                                        }
                                },
                                _ => false,
                            }
                    },
                    _ => false,
                },
                _ => false,
            }
        ),
{
    reveal(is_tag_word_bai);
    reveal(is_word);
    reveal(is_frees);
}

/// Whether `node` is the node that `TagWordTimeSpaceCaha` makes of the tokens at `pos`.
#[verifier::opaque]
pub closed spec fn is_tag_word_time_space_caha<'arena>(
    node: TagWord<'arena>,
    toks: Seq<Token>,
    pos: nat,
) -> bool
    decreases rest(toks, pos), 27nat,
{
    match node {
        TagWord::TimeSpaceCaha { nahe, inner, ki, frees } => match spec_opt(
            spec_word(toks, pos, Selmaho::Nahe),
        ) {
            Outcome::Matched(n1) => {
                &&& (match nahe {
                        Some(inner) => {
                            &&& spec_word(toks, pos, Selmaho::Nahe) is Matched
                            &&& is_word(inner, toks, pos, Selmaho::Nahe)
                        },
                        None => spec_word(toks, pos, Selmaho::Nahe) is Error,
                    })
                &&& match spec_many1_time_space_caha(toks, pos + n1) {
                        Outcome::Matched(n2) => {
                            &&& is_row_of_time_space_caha(inner@, toks, pos + n1)
                            &&& match spec_opt(spec_word(toks, pos + n1 + n2, Selmaho::Ki)) {
                                    Outcome::Matched(n3) => {
                                        &&& (match ki {
                                                Some(inner) => {
                                                    &&& spec_word(
                                                        toks,
                                                        pos + n1 + n2,
                                                        Selmaho::Ki,
                                                    ) is Matched
                                                    &&& is_word(
                                                        inner,
                                                        toks,
                                                        pos + n1 + n2,
                                                        Selmaho::Ki,
                                                    )
                                                },
                                                None => spec_word(
                                                    toks,
                                                    pos + n1 + n2,
                                                    Selmaho::Ki,
                                                ) is Error,
                                            })
                                        &&& match spec_frees(toks, pos + n1 + n2 + n3) {
                                                Outcome::Matched(_) => is_frees(
                                                    frees,
                                                    toks,
                                                    pos + n1 + n2 + n3,
                                                ),
                                                _ => false,
                                            }
                                    },
                                    _ => false,
                                }
                        },
                        _ => false,
                    }
            },
            _ => false,
        },
        _ => false,
    }
}

/// What [`is_tag_word_time_space_caha`] says.
pub proof fn lemma_is_tag_word_time_space_caha<'arena>(
    node: TagWord<'arena>,
    toks: Seq<Token>,
    pos: nat,
)
    ensures
        is_tag_word_time_space_caha(node, toks, pos) == (
            match node {
                TagWord::TimeSpaceCaha { nahe, inner, ki, frees } => match spec_opt(
                    spec_word(toks, pos, Selmaho::Nahe),
                ) {
                    Outcome::Matched(n1) => {
                        &&& (match nahe {
                                Some(inner) => {
                                    &&& spec_word(toks, pos, Selmaho::Nahe) is Matched
                                    &&& is_word(inner, toks, pos, Selmaho::Nahe)
                                },
                                None => spec_word(toks, pos, Selmaho::Nahe) is Error,
                            })
                        &&& match spec_many1_time_space_caha(toks, pos + n1) {
                                Outcome::Matched(n2) => {
                                    &&& is_row_of_time_space_caha(inner@, toks, pos + n1)
                                    &&& match spec_opt(
                                        spec_word(toks, pos + n1 + n2, Selmaho::Ki),
                                    ) {
                                            Outcome::Matched(n3) => {
                                                &&& (match ki {
                                                        Some(inner) => {
                                                            &&& spec_word(
                                                                toks,
                                                                pos + n1 + n2,
                                                                Selmaho::Ki,
                                                            ) is Matched
                                                            &&& is_word(
                                                                inner,
                                                                toks,
                                                                pos + n1 + n2,
                                                                Selmaho::Ki,
                                                            )
                                                        },
                                                        None => spec_word(
                                                            toks,
                                                            pos + n1 + n2,
                                                            Selmaho::Ki,
                                                        ) is Error,
                                                    })
                                                &&& match spec_frees(toks, pos + n1 + n2 + n3) {
                                                        Outcome::Matched(_) => is_frees(
                                                            frees,
                                                            toks,
                                                            pos + n1 + n2 + n3,
                                                        ),
                                                        _ => false,
                                                    }
                                            },
                                            _ => false,
                                        }
                                },
                                _ => false,
                            }
                    },
                    _ => false,
                },
                _ => false,
            }
        ),
{
    reveal(is_tag_word_time_space_caha);
    reveal(is_word);
    reveal(is_row_of_time_space_caha);
    reveal(is_frees);
}

/// Whether `node` is the node that `TimeSpaceCaha` makes of the tokens at `pos`: the
/// node of the first alternative that matches.
#[verifier::opaque]
pub closed spec fn is_time_space_caha<'arena>(
    node: TimeSpaceCaha<'arena>,
    toks: Seq<Token>,
    pos: nat,
) -> bool
    decreases rest(toks, pos), 25nat,
{
    match spec_time_space_caha_time(toks, pos) {
        Outcome::Matched(_) => is_time_space_caha_time(node, toks, pos),
        Outcome::Error(_) => match spec_time_space_caha_space(toks, pos) {
            Outcome::Matched(_) => is_time_space_caha_space(node, toks, pos),
            Outcome::Error(
                _,
            ) => spec_time_space_caha_caha(
                toks,
                pos,
            ) is Matched && is_time_space_caha_caha(node, toks, pos),
            Outcome::Failure(_) => false,
        },
        Outcome::Failure(_) => false,
    }
}

/// What [`is_time_space_caha`] says.
pub proof fn lemma_is_time_space_caha<'arena>(toks: Seq<Token>, pos: nat)
    ensures
        forall|node: TimeSpaceCaha<'arena>| #[trigger] is_time_space_caha(node, toks, pos) == (
            match spec_time_space_caha_time(toks, pos) {
                Outcome::Matched(_) => is_time_space_caha_time(node, toks, pos),
                Outcome::Error(_) => match spec_time_space_caha_space(toks, pos) {
                    Outcome::Matched(_) => is_time_space_caha_space(node, toks, pos),
                    Outcome::Error(
                        _,
                    ) => spec_time_space_caha_caha(
                        toks,
                        pos,
                    ) is Matched && is_time_space_caha_caha(node, toks, pos),
                    Outcome::Failure(_) => false,
                },
                Outcome::Failure(_) => false,
            }
        ),
{
    reveal(is_time_space_caha);
    reveal(is_time_space_caha_time);
    reveal(is_time_space_caha_space);
    reveal(is_time_space_caha_caha);
}

/// How many tokens the first `count` of a row of `TimeSpaceCaha` take at `pos`.
pub open spec fn run_of_time_space_caha(toks: Seq<Token>, pos: nat, count: nat) -> nat
    decreases count,
{
    if count == 0 {
        0
    } else {
        let before = run_of_time_space_caha(toks, pos, (count - 1) as nat);
        before + (match spec_time_space_caha(toks, pos + before) {
            Outcome::Matched(len) => len,
            _ => 0,
        })
    }
}

/// Whether `items` are the nodes of a row of `TimeSpaceCaha` at `pos`: each is the
/// node of the `TimeSpaceCaha` at its place, and no further one follows them.
#[verifier::opaque]
pub closed spec fn is_row_of_time_space_caha<'arena>(
    items: Seq<TimeSpaceCaha<'arena>>,
    toks: Seq<Token>,
    pos: nat,
) -> bool
    decreases rest(toks, pos), 26nat,
{
    &&& forall|i: int|
        #![trigger items[i]]
        #![trigger run_of_time_space_caha(toks, pos, i as nat)]
        0 <= i < items.len() ==> spec_time_space_caha(
            toks,
            pos + run_of_time_space_caha(toks, pos, i as nat),
        ) is Matched && is_time_space_caha(
            items[i],
            toks,
            pos + run_of_time_space_caha(toks, pos, i as nat),
        )
    &&& !(spec_time_space_caha(
        toks,
        pos + run_of_time_space_caha(toks, pos, items.len()),
    ) is Matched)
}

/// What [`is_row_of_time_space_caha`] says.
pub proof fn lemma_is_row_of_time_space_caha<'arena>(
    items: Seq<TimeSpaceCaha<'arena>>,
    toks: Seq<Token>,
    pos: nat,
)
    ensures
        is_row_of_time_space_caha(items, toks, pos) == ({
            &&& forall|i: int|
                #![trigger items[i]]
                #![trigger run_of_time_space_caha(toks, pos, i as nat)]
                0 <= i < items.len() ==> spec_time_space_caha(
                    toks,
                    pos + run_of_time_space_caha(toks, pos, i as nat),
                ) is Matched && is_time_space_caha(
                    items[i],
                    toks,
                    pos + run_of_time_space_caha(toks, pos, i as nat),
                )
            &&& !(spec_time_space_caha(
                toks,
                pos + run_of_time_space_caha(toks, pos, items.len()),
            ) is Matched)
        }),
{
    reveal(is_row_of_time_space_caha);
    reveal(is_time_space_caha);
}

/// Whether `node` is the node that `TimeSpaceCahaTime` makes of the tokens at `pos`.
#[verifier::opaque]
pub closed spec fn is_time_space_caha_time<'arena>(
    node: TimeSpaceCaha<'arena>,
    toks: Seq<Token>,
    pos: nat,
) -> bool
    decreases rest(toks, pos), 21nat,
{
    match node {
        TimeSpaceCaha::Time(field_0) => match spec_time(toks, pos) {
            Outcome::Matched(_) => is_time(*field_0, toks, pos),
            _ => false,
        },
        _ => false,
    }
}

/// What [`is_time_space_caha_time`] says.
pub proof fn lemma_is_time_space_caha_time<'arena>(
    node: TimeSpaceCaha<'arena>,
    toks: Seq<Token>,
    pos: nat,
)
    ensures
        is_time_space_caha_time(node, toks, pos) == (
            match node {
                TimeSpaceCaha::Time(field_0) => match spec_time(toks, pos) {
                    Outcome::Matched(_) => is_time(*field_0, toks, pos),
                    _ => false,
                },
                _ => false,
            }
        ),
{
    reveal(is_time_space_caha_time);
    reveal(is_time);
}

/// Whether `node` is the node that `Time` makes of the tokens at `pos`.
#[verifier::opaque]
pub closed spec fn is_time<'arena>(node: Time<'arena>, toks: Seq<Token>, pos: nat) -> bool
    decreases rest(toks, pos), 20nat,
{
    match spec_opt(spec_word(toks, pos, Selmaho::Zi)) {
        Outcome::Matched(n1) => {
            &&& (match node.zi {
                    Some(inner) => {
                        &&& spec_word(toks, pos, Selmaho::Zi) is Matched
                        &&& is_word(inner, toks, pos, Selmaho::Zi)
                    },
                    None => spec_word(toks, pos, Selmaho::Zi) is Error,
                })
            &&& match spec_many0_time_offset(toks, pos + n1) {
                    Outcome::Matched(n2) => {
                        &&& is_row_of_time_offset(node.offset@, toks, pos + n1)
                        &&& match spec_opt(spec_time_duration(toks, pos + n1 + n2)) {
                                Outcome::Matched(n3) => {
                                    &&& (match node.duration {
                                            Some(inner) => {
                                                &&& spec_time_duration(
                                                    toks,
                                                    pos + n1 + n2,
                                                ) is Matched
                                                &&& is_time_duration(inner, toks, pos + n1 + n2)
                                            },
                                            None => spec_time_duration(
                                                toks,
                                                pos + n1 + n2,
                                            ) is Error,
                                        })
                                    &&& match spec_many0_interval_property(
                                        toks,
                                        pos + n1 + n2 + n3,
                                    ) {
                                            Outcome::Matched(_) => is_row_of_interval_property(
                                                node.properties@,
                                                toks,
                                                pos + n1 + n2 + n3,
                                            ),
                                            _ => false,
                                        }
                                },
                                _ => false,
                            }
                    },
                    _ => false,
                }
        },
        _ => false,
    }
}

/// What [`is_time`] says.
pub proof fn lemma_is_time<'arena>(node: Time<'arena>, toks: Seq<Token>, pos: nat)
    ensures
        is_time(node, toks, pos) == (
            match spec_opt(spec_word(toks, pos, Selmaho::Zi)) {
                Outcome::Matched(n1) => {
                    &&& (match node.zi {
                            Some(inner) => {
                                &&& spec_word(toks, pos, Selmaho::Zi) is Matched
                                &&& is_word(inner, toks, pos, Selmaho::Zi)
                            },
                            None => spec_word(toks, pos, Selmaho::Zi) is Error,
                        })
                    &&& match spec_many0_time_offset(toks, pos + n1) {
                            Outcome::Matched(n2) => {
                                &&& is_row_of_time_offset(node.offset@, toks, pos + n1)
                                &&& match spec_opt(spec_time_duration(toks, pos + n1 + n2)) {
                                        Outcome::Matched(n3) => {
                                            &&& (match node.duration {
                                                    Some(inner) => {
                                                        &&& spec_time_duration(
                                                            toks,
                                                            pos + n1 + n2,
                                                        ) is Matched
                                                        &&& is_time_duration(
                                                            inner,
                                                            toks,
                                                            pos + n1 + n2,
                                                        )
                                                    },
                                                    None => spec_time_duration(
                                                        toks,
                                                        pos + n1 + n2,
                                                    ) is Error,
                                                })
                                            &&& match spec_many0_interval_property(
                                                toks,
                                                pos + n1 + n2 + n3,
                                            ) {
                                                    Outcome::Matched(_) => is_row_of_interval_property(
                                                        node.properties@,
                                                        toks,
                                                        pos + n1 + n2 + n3,
                                                    ),
                                                    _ => false,
                                                }
                                        },
                                        _ => false,
                                    }
                            },
                            _ => false,
                        }
                },
                _ => false,
            }
        ),
{
    reveal(is_time);
    reveal(is_word);
    reveal(is_row_of_time_offset);
    reveal(is_time_duration);
    reveal(is_row_of_interval_property);
}

/// Whether `node` is the node that `TimeOffset` makes of the tokens at `pos`.
#[verifier::opaque]
pub closed spec fn is_time_offset<'arena>(
    node: TimeOffset<'arena>,
    toks: Seq<Token>,
    pos: nat,
) -> bool
    decreases rest(toks, pos), 3nat,
{
    match spec_word(toks, pos, Selmaho::Pu) {
        Outcome::Matched(n1) => {
            &&& is_word(node.pu, toks, pos, Selmaho::Pu)
            &&& match spec_opt(spec_word(toks, pos + n1, Selmaho::Nai)) {
                    Outcome::Matched(n2) => {
                        &&& (match node.nai {
                                Some(inner) => {
                                    &&& spec_word(toks, pos + n1, Selmaho::Nai) is Matched
                                    &&& is_word(inner, toks, pos + n1, Selmaho::Nai)
                                },
                                None => spec_word(toks, pos + n1, Selmaho::Nai) is Error,
                            })
                        &&& match spec_opt(spec_word(toks, pos + n1 + n2, Selmaho::Zi)) {
                                Outcome::Matched(_) => {
                                    &&& (match node.zi {
                                            Some(inner) => {
                                                &&& spec_word(
                                                    toks,
                                                    pos + n1 + n2,
                                                    Selmaho::Zi,
                                                ) is Matched
                                                &&& is_word(
                                                    inner,
                                                    toks,
                                                    pos + n1 + n2,
                                                    Selmaho::Zi,
                                                )
                                            },
                                            None => spec_word(
                                                toks,
                                                pos + n1 + n2,
                                                Selmaho::Zi,
                                            ) is Error,
                                        })
                                },
                                _ => false,
                            }
                    },
                    _ => false,
                }
        },
        _ => false,
    }
}

/// What [`is_time_offset`] says.
pub proof fn lemma_is_time_offset<'arena>(node: TimeOffset<'arena>, toks: Seq<Token>, pos: nat)
    ensures
        is_time_offset(node, toks, pos) == (
            match spec_word(toks, pos, Selmaho::Pu) {
                Outcome::Matched(n1) => {
                    &&& is_word(node.pu, toks, pos, Selmaho::Pu)
                    &&& match spec_opt(spec_word(toks, pos + n1, Selmaho::Nai)) {
                            Outcome::Matched(n2) => {
                                &&& (match node.nai {
                                        Some(inner) => {
                                            &&& spec_word(toks, pos + n1, Selmaho::Nai) is Matched
                                            &&& is_word(inner, toks, pos + n1, Selmaho::Nai)
                                        },
                                        None => spec_word(toks, pos + n1, Selmaho::Nai) is Error,
                                    })
                                &&& match spec_opt(spec_word(toks, pos + n1 + n2, Selmaho::Zi)) {
                                        Outcome::Matched(_) => {
                                            &&& (match node.zi {
                                                    Some(inner) => {
                                                        &&& spec_word(
                                                            toks,
                                                            pos + n1 + n2,
                                                            Selmaho::Zi,
                                                        ) is Matched
                                                        &&& is_word(
                                                            inner,
                                                            toks,
                                                            pos + n1 + n2,
                                                            Selmaho::Zi,
                                                        )
                                                    },
                                                    None => spec_word(
                                                        toks,
                                                        pos + n1 + n2,
                                                        Selmaho::Zi,
                                                    ) is Error,
                                                })
                                        },
                                        _ => false,
                                    }
                            },
                            _ => false,
                        }
                },
                _ => false,
            }
        ),
{
    reveal(is_time_offset);
    reveal(is_word);
}

/// How many tokens the first `count` of a row of `TimeOffset` take at `pos`.
pub open spec fn run_of_time_offset(toks: Seq<Token>, pos: nat, count: nat) -> nat
    decreases count,
{
    if count == 0 {
        0
    } else {
        let before = run_of_time_offset(toks, pos, (count - 1) as nat);
        before + (match spec_time_offset(toks, pos + before) {
            Outcome::Matched(len) => len,
            _ => 0,
        })
    }
}

/// Whether `items` are the nodes of a row of `TimeOffset` at `pos`: each is the
/// node of the `TimeOffset` at its place, and no further one follows them.
#[verifier::opaque]
pub closed spec fn is_row_of_time_offset<'arena>(
    items: Seq<TimeOffset<'arena>>,
    toks: Seq<Token>,
    pos: nat,
) -> bool
    decreases rest(toks, pos), 4nat,
{
    &&& forall|i: int|
        #![trigger items[i]]
        #![trigger run_of_time_offset(toks, pos, i as nat)]
        0 <= i < items.len() ==> spec_time_offset(
            toks,
            pos + run_of_time_offset(toks, pos, i as nat),
        ) is Matched && is_time_offset(
            items[i],
            toks,
            pos + run_of_time_offset(toks, pos, i as nat),
        )
    &&& !(spec_time_offset(toks, pos + run_of_time_offset(toks, pos, items.len())) is Matched)
}

/// What [`is_row_of_time_offset`] says.
pub proof fn lemma_is_row_of_time_offset<'arena>(
    items: Seq<TimeOffset<'arena>>,
    toks: Seq<Token>,
    pos: nat,
)
    ensures
        is_row_of_time_offset(items, toks, pos) == ({
            &&& forall|i: int|
                #![trigger items[i]]
                #![trigger run_of_time_offset(toks, pos, i as nat)]
                0 <= i < items.len() ==> spec_time_offset(
                    toks,
                    pos + run_of_time_offset(toks, pos, i as nat),
                ) is Matched && is_time_offset(
                    items[i],
                    toks,
                    pos + run_of_time_offset(toks, pos, i as nat),
                )
            &&& !(spec_time_offset(
                toks,
                pos + run_of_time_offset(toks, pos, items.len()),
            ) is Matched)
        }),
{
    reveal(is_row_of_time_offset);
    reveal(is_time_offset);
}

/// Whether `node` is the node that `TimeDuration` makes of the tokens at `pos`.
#[verifier::opaque]
pub closed spec fn is_time_duration<'arena>(
    node: TimeDuration<'arena>,
    toks: Seq<Token>,
    pos: nat,
) -> bool
    decreases rest(toks, pos), 4nat,
{
    match spec_word(toks, pos, Selmaho::Zeha) {
        Outcome::Matched(n1) => {
            &&& is_word(node.zeha, toks, pos, Selmaho::Zeha)
            &&& match spec_opt(spec_pu_nai(toks, pos + n1)) {
                    Outcome::Matched(_) => {
                        &&& (match node.anchor {
                                Some(inner) => {
                                    &&& spec_pu_nai(toks, pos + n1) is Matched
                                    &&& is_pu_nai(inner, toks, pos + n1)
                                },
                                None => spec_pu_nai(toks, pos + n1) is Error,
                            })
                    },
                    _ => false,
                }
        },
        _ => false,
    }
}

/// What [`is_time_duration`] says.
pub proof fn lemma_is_time_duration<'arena>(
    node: TimeDuration<'arena>,
    toks: Seq<Token>,
    pos: nat,
)
    ensures
        is_time_duration(node, toks, pos) == (
            match spec_word(toks, pos, Selmaho::Zeha) {
                Outcome::Matched(n1) => {
                    &&& is_word(node.zeha, toks, pos, Selmaho::Zeha)
                    &&& match spec_opt(spec_pu_nai(toks, pos + n1)) {
                            Outcome::Matched(_) => {
                                &&& (match node.anchor {
                                        Some(inner) => {
                                            &&& spec_pu_nai(toks, pos + n1) is Matched
                                            &&& is_pu_nai(inner, toks, pos + n1)
                                        },
                                        None => spec_pu_nai(toks, pos + n1) is Error,
                                    })
                            },
                            _ => false,
                        }
                },
                _ => false,
            }
        ),
{
    reveal(is_time_duration);
    reveal(is_word);
    reveal(is_pu_nai);
}

/// Whether `node` is the node that `PuNai` makes of the tokens at `pos`.
#[verifier::opaque]
pub closed spec fn is_pu_nai<'arena>(
    node: (Word<'arena>, Option<Word<'arena>>),
    toks: Seq<Token>,
    pos: nat,
) -> bool
    decreases rest(toks, pos), 3nat,
{
    match spec_word(toks, pos, Selmaho::Pu) {
        Outcome::Matched(n1) => {
            &&& is_word(node.0, toks, pos, Selmaho::Pu)
            &&& match spec_opt(spec_word(toks, pos + n1, Selmaho::Nai)) {
                    Outcome::Matched(_) => {
                        &&& (match node.1 {
                                Some(inner) => {
                                    &&& spec_word(toks, pos + n1, Selmaho::Nai) is Matched
                                    &&& is_word(inner, toks, pos + n1, Selmaho::Nai)
                                },
                                None => spec_word(toks, pos + n1, Selmaho::Nai) is Error,
                            })
                    },
                    _ => false,
                }
        },
        _ => false,
    }
}

/// What [`is_pu_nai`] says.
pub proof fn lemma_is_pu_nai<'arena>(
    node: (Word<'arena>, Option<Word<'arena>>),
    toks: Seq<Token>,
    pos: nat,
)
    ensures
        is_pu_nai(node, toks, pos) == (
            match spec_word(toks, pos, Selmaho::Pu) {
                Outcome::Matched(n1) => {
                    &&& is_word(node.0, toks, pos, Selmaho::Pu)
                    &&& match spec_opt(spec_word(toks, pos + n1, Selmaho::Nai)) {
                            Outcome::Matched(_) => {
                                &&& (match node.1 {
                                        Some(inner) => {
                                            &&& spec_word(toks, pos + n1, Selmaho::Nai) is Matched
                                            &&& is_word(inner, toks, pos + n1, Selmaho::Nai)
                                        },
                                        None => spec_word(toks, pos + n1, Selmaho::Nai) is Error,
                                    })
                            },
                            _ => false,
                        }
                },
                _ => false,
            }
        ),
{
    reveal(is_pu_nai);
    reveal(is_word);
}

/// Whether `node` is the node that `IntervalProperty` makes of the tokens at `pos`: the
/// node of the first alternative that matches.
#[verifier::opaque]
pub closed spec fn is_interval_property<'arena>(
    node: IntervalProperty<'arena>,
    toks: Seq<Token>,
    pos: nat,
) -> bool
    decreases rest(toks, pos), 18nat,
{
    match spec_interval_property_roi(toks, pos) {
        Outcome::Matched(_) => is_interval_property_roi(node, toks, pos),
        Outcome::Error(_) => match spec_interval_property_tahe(toks, pos) {
            Outcome::Matched(_) => is_interval_property_tahe(node, toks, pos),
            Outcome::Error(
                _,
            ) => spec_interval_property_zaho(
                toks,
                pos,
            ) is Matched && is_interval_property_zaho(node, toks, pos),
            Outcome::Failure(_) => false,
        },
        Outcome::Failure(_) => false,
    }
}

/// What [`is_interval_property`] says.
pub proof fn lemma_is_interval_property<'arena>(toks: Seq<Token>, pos: nat)
    ensures
        forall|node: IntervalProperty<'arena>| #[trigger] is_interval_property(
            node,
            toks,
            pos,
        ) == (
            match spec_interval_property_roi(toks, pos) {
                Outcome::Matched(_) => is_interval_property_roi(node, toks, pos),
                Outcome::Error(_) => match spec_interval_property_tahe(toks, pos) {
                    Outcome::Matched(_) => is_interval_property_tahe(node, toks, pos),
                    Outcome::Error(
                        _,
                    ) => spec_interval_property_zaho(
                        toks,
                        pos,
                    ) is Matched && is_interval_property_zaho(node, toks, pos),
                    Outcome::Failure(_) => false,
                },
                Outcome::Failure(_) => false,
            }
        ),
{
    reveal(is_interval_property);
    reveal(is_interval_property_roi);
    reveal(is_interval_property_tahe);
    reveal(is_interval_property_zaho);
}

/// How many tokens the first `count` of a row of `IntervalProperty` take at `pos`.
pub open spec fn run_of_interval_property(toks: Seq<Token>, pos: nat, count: nat) -> nat
    decreases count,
{
    if count == 0 {
        0
    } else {
        let before = run_of_interval_property(toks, pos, (count - 1) as nat);
        before + (match spec_interval_property(toks, pos + before) {
            Outcome::Matched(len) => len,
            _ => 0,
        })
    }
}

/// Whether `items` are the nodes of a row of `IntervalProperty` at `pos`: each is the
/// node of the `IntervalProperty` at its place, and no further one follows them.
#[verifier::opaque]
pub closed spec fn is_row_of_interval_property<'arena>(
    items: Seq<IntervalProperty<'arena>>,
    toks: Seq<Token>,
    pos: nat,
) -> bool
    decreases rest(toks, pos), 19nat,
{
    &&& forall|i: int|
        #![trigger items[i]]
        #![trigger run_of_interval_property(toks, pos, i as nat)]
        0 <= i < items.len() ==> spec_interval_property(
            toks,
            pos + run_of_interval_property(toks, pos, i as nat),
        ) is Matched && is_interval_property(
            items[i],
            toks,
            pos + run_of_interval_property(toks, pos, i as nat),
        )
    &&& !(spec_interval_property(
        toks,
        pos + run_of_interval_property(toks, pos, items.len()),
    ) is Matched)
}

/// What [`is_row_of_interval_property`] says.
pub proof fn lemma_is_row_of_interval_property<'arena>(
    items: Seq<IntervalProperty<'arena>>,
    toks: Seq<Token>,
    pos: nat,
)
    ensures
        is_row_of_interval_property(items, toks, pos) == ({
            &&& forall|i: int|
                #![trigger items[i]]
                #![trigger run_of_interval_property(toks, pos, i as nat)]
                0 <= i < items.len() ==> spec_interval_property(
                    toks,
                    pos + run_of_interval_property(toks, pos, i as nat),
                ) is Matched && is_interval_property(
                    items[i],
                    toks,
                    pos + run_of_interval_property(toks, pos, i as nat),
                )
            &&& !(spec_interval_property(
                toks,
                pos + run_of_interval_property(toks, pos, items.len()),
            ) is Matched)
        }),
{
    reveal(is_row_of_interval_property);
    reveal(is_interval_property);
}

/// Whether `node` is the node that `IntervalPropertyRoi` makes of the tokens at `pos`.
#[verifier::opaque]
pub closed spec fn is_interval_property_roi<'arena>(
    node: IntervalProperty<'arena>,
    toks: Seq<Token>,
    pos: nat,
) -> bool
    decreases rest(toks, pos), 17nat,
{
    match node {
        IntervalProperty::Roi(field_0, field_1, field_2) => match spec_number(toks, pos) {
            Outcome::Matched(n1) => {
                &&& is_number(field_0, toks, pos)
                &&& match spec_word(toks, pos + n1, Selmaho::Roi) {
                        Outcome::Matched(n2) => {
                            &&& is_word(field_1, toks, pos + n1, Selmaho::Roi)
                            &&& match spec_opt(spec_word(toks, pos + n1 + n2, Selmaho::Nai)) {
                                    Outcome::Matched(_) => {
                                        &&& (match field_2 {
                                                Some(inner) => {
                                                    &&& spec_word(
                                                        toks,
                                                        pos + n1 + n2,
                                                        Selmaho::Nai,
                                                    ) is Matched
                                                    &&& is_word(
                                                        inner,
                                                        toks,
                                                        pos + n1 + n2,
                                                        Selmaho::Nai,
                                                    )
                                                },
                                                None => spec_word(
                                                    toks,
                                                    pos + n1 + n2,
                                                    Selmaho::Nai,
                                                ) is Error,
                                            })
                                    },
                                    _ => false,
                                }
                        },
                        _ => false,
                    }
            },
            _ => false,
        },
        _ => false,
    }
}

/// What [`is_interval_property_roi`] says.
pub proof fn lemma_is_interval_property_roi<'arena>(
    node: IntervalProperty<'arena>,
    toks: Seq<Token>,
    pos: nat,
)
    ensures
        is_interval_property_roi(node, toks, pos) == (
            match node {
                IntervalProperty::Roi(field_0, field_1, field_2) => match spec_number(toks, pos) {
                    Outcome::Matched(n1) => {
                        &&& is_number(field_0, toks, pos)
                        &&& match spec_word(toks, pos + n1, Selmaho::Roi) {
                                Outcome::Matched(n2) => {
                                    &&& is_word(field_1, toks, pos + n1, Selmaho::Roi)
                                    &&& match spec_opt(
                                        spec_word(toks, pos + n1 + n2, Selmaho::Nai),
                                    ) {
                                            Outcome::Matched(_) => {
                                                &&& (match field_2 {
                                                        Some(inner) => {
                                                            &&& spec_word(
                                                                toks,
                                                                pos + n1 + n2,
                                                                Selmaho::Nai,
                                                            ) is Matched
                                                            &&& is_word(
                                                                inner,
                                                                toks,
                                                                pos + n1 + n2,
                                                                Selmaho::Nai,
                                                            )
                                                        },
                                                        None => spec_word(
                                                            toks,
                                                            pos + n1 + n2,
                                                            Selmaho::Nai,
                                                        ) is Error,
                                                    })
                                            },
                                            _ => false,
                                        }
                                },
                                _ => false,
                            }
                    },
                    _ => false,
                },
                _ => false,
            }
        ),
{
    reveal(is_interval_property_roi);
    reveal(is_number);
    reveal(is_word);
}

/// Whether `node` is the node that `Number` makes of the tokens at `pos`.
#[verifier::opaque]
pub closed spec fn is_number<'arena>(node: Number<'arena>, toks: Seq<Token>, pos: nat) -> bool
    decreases rest(toks, pos), 16nat,
{
    match spec_word(toks, pos, Selmaho::Pa) {
        Outcome::Matched(n1) => {
            &&& is_word(node.first, toks, pos, Selmaho::Pa)
            &&& match spec_many0_number_rest(toks, pos + n1) {
                    Outcome::Matched(_) => is_row_of_number_rest(node.rest@, toks, pos + n1),
                    _ => false,
                }
        },
        _ => false,
    }
}

/// What [`is_number`] says.
pub proof fn lemma_is_number<'arena>(node: Number<'arena>, toks: Seq<Token>, pos: nat)
    ensures
        is_number(node, toks, pos) == (
            match spec_word(toks, pos, Selmaho::Pa) {
                Outcome::Matched(n1) => {
                    &&& is_word(node.first, toks, pos, Selmaho::Pa)
                    &&& match spec_many0_number_rest(toks, pos + n1) {
                            Outcome::Matched(_) => is_row_of_number_rest(
                                node.rest@,
                                toks,
                                pos + n1,
                            ),
                            _ => false,
                        }
                },
                _ => false,
            }
        ),
{
    reveal(is_number);
    reveal(is_word);
    reveal(is_row_of_number_rest);
}

/// Whether `node` is the node that `NumberRest` makes of the tokens at `pos`: the
/// node of the first alternative that matches.
#[verifier::opaque]
pub closed spec fn is_number_rest<'arena>(
    node: NumberRest<'arena>,
    toks: Seq<Token>,
    pos: nat,
) -> bool
    decreases rest(toks, pos), 14nat,
{
    match spec_number_rest_pa(toks, pos) {
        Outcome::Matched(_) => is_number_rest_pa(node, toks, pos),
        Outcome::Error(
            _,
        ) => spec_number_rest_lerfu(
            toks,
            pos,
        ) is Matched && is_number_rest_lerfu(node, toks, pos),
        Outcome::Failure(_) => false,
    }
}

/// What [`is_number_rest`] says.
pub proof fn lemma_is_number_rest<'arena>(toks: Seq<Token>, pos: nat)
    ensures
        forall|node: NumberRest<'arena>| #[trigger] is_number_rest(node, toks, pos) == (
            match spec_number_rest_pa(toks, pos) {
                Outcome::Matched(_) => is_number_rest_pa(node, toks, pos),
                Outcome::Error(
                    _,
                ) => spec_number_rest_lerfu(
                    toks,
                    pos,
                ) is Matched && is_number_rest_lerfu(node, toks, pos),
                Outcome::Failure(_) => false,
            }
        ),
{
    reveal(is_number_rest);
    reveal(is_number_rest_pa);
    reveal(is_number_rest_lerfu);
}

/// How many tokens the first `count` of a row of `NumberRest` take at `pos`.
pub open spec fn run_of_number_rest(toks: Seq<Token>, pos: nat, count: nat) -> nat
    decreases count,
{
    if count == 0 {
        0
    } else {
        let before = run_of_number_rest(toks, pos, (count - 1) as nat);
        before + (match spec_number_rest(toks, pos + before) {
            Outcome::Matched(len) => len,
            _ => 0,
        })
    }
}

/// Whether `items` are the nodes of a row of `NumberRest` at `pos`: each is the
/// node of the `NumberRest` at its place, and no further one follows them.
#[verifier::opaque]
pub closed spec fn is_row_of_number_rest<'arena>(
    items: Seq<NumberRest<'arena>>,
    toks: Seq<Token>,
    pos: nat,
) -> bool
    decreases rest(toks, pos), 15nat,
{
    &&& forall|i: int|
        #![trigger items[i]]
        #![trigger run_of_number_rest(toks, pos, i as nat)]
        0 <= i < items.len() ==> spec_number_rest(
            toks,
            pos + run_of_number_rest(toks, pos, i as nat),
        ) is Matched && is_number_rest(
            items[i],
            toks,
            pos + run_of_number_rest(toks, pos, i as nat),
        )
    &&& !(spec_number_rest(toks, pos + run_of_number_rest(toks, pos, items.len())) is Matched)
}

/// What [`is_row_of_number_rest`] says.
pub proof fn lemma_is_row_of_number_rest<'arena>(
    items: Seq<NumberRest<'arena>>,
    toks: Seq<Token>,
    pos: nat,
)
    ensures
        is_row_of_number_rest(items, toks, pos) == ({
            &&& forall|i: int|
                #![trigger items[i]]
                #![trigger run_of_number_rest(toks, pos, i as nat)]
                0 <= i < items.len() ==> spec_number_rest(
                    toks,
                    pos + run_of_number_rest(toks, pos, i as nat),
                ) is Matched && is_number_rest(
                    items[i],
                    toks,
                    pos + run_of_number_rest(toks, pos, i as nat),
                )
            &&& !(spec_number_rest(
                toks,
                pos + run_of_number_rest(toks, pos, items.len()),
            ) is Matched)
        }),
{
    reveal(is_row_of_number_rest);
    reveal(is_number_rest);
}

/// Whether `node` is the node that `NumberRestPa` makes of the tokens at `pos`.
#[verifier::opaque]
pub closed spec fn is_number_rest_pa<'arena>(
    node: NumberRest<'arena>,
    toks: Seq<Token>,
    pos: nat,
) -> bool
    decreases rest(toks, pos), 3nat,
{
    match node {
        NumberRest::Pa(field_0) => match spec_word(toks, pos, Selmaho::Pa) {
            Outcome::Matched(_) => is_word(field_0, toks, pos, Selmaho::Pa),
            _ => false,
        },
        _ => false,
    }
}

/// What [`is_number_rest_pa`] says.
pub proof fn lemma_is_number_rest_pa<'arena>(node: NumberRest<'arena>, toks: Seq<Token>, pos: nat)
    ensures
        is_number_rest_pa(node, toks, pos) == (
            match node {
                NumberRest::Pa(field_0) => match spec_word(toks, pos, Selmaho::Pa) {
                    Outcome::Matched(_) => is_word(field_0, toks, pos, Selmaho::Pa),
                    _ => false,
                },
                _ => false,
            }
        ),
{
    reveal(is_number_rest_pa);
    reveal(is_word);
}

/// Whether `node` is the node that `NumberRestLerfu` makes of the tokens at `pos`.
#[verifier::opaque]
pub closed spec fn is_number_rest_lerfu<'arena>(
    node: NumberRest<'arena>,
    toks: Seq<Token>,
    pos: nat,
) -> bool
    decreases rest(toks, pos), 13nat,
{
    match node {
        NumberRest::Lerfu(field_0) => match spec_lerfu_word(toks, pos) {
            Outcome::Matched(_) => is_lerfu_word(field_0, toks, pos),
            _ => false,
        },
        _ => false,
    }
}

/// What [`is_number_rest_lerfu`] says.
pub proof fn lemma_is_number_rest_lerfu<'arena>(
    node: NumberRest<'arena>,
    toks: Seq<Token>,
    pos: nat,
)
    ensures
        is_number_rest_lerfu(node, toks, pos) == (
            match node {
                NumberRest::Lerfu(field_0) => match spec_lerfu_word(toks, pos) {
                    Outcome::Matched(_) => is_lerfu_word(field_0, toks, pos),
                    _ => false,
                },
                _ => false,
            }
        ),
{
    reveal(is_number_rest_lerfu);
    reveal(is_lerfu_word);
}

/// Whether `node` is the node that `LerfuWord` makes of the tokens at `pos`: the
/// node of the first alternative that matches.
#[verifier::opaque]
pub closed spec fn is_lerfu_word<'arena>(
    node: LerfuWord<'arena>,
    toks: Seq<Token>,
    pos: nat,
) -> bool
    decreases rest(toks, pos), 12nat,
{
    match spec_lerfu_word_lerfu(toks, pos) {
        Outcome::Matched(_) => is_lerfu_word_lerfu(node, toks, pos),
        Outcome::Error(_) => match spec_lerfu_word_lau(toks, pos) {
            Outcome::Matched(_) => is_lerfu_word_lau(node, toks, pos),
            Outcome::Error(
                _,
            ) => spec_lerfu_word_tei(toks, pos) is Matched && is_lerfu_word_tei(node, toks, pos),
            Outcome::Failure(_) => false,
        },
        Outcome::Failure(_) => false,
    }
}

/// What [`is_lerfu_word`] says.
pub proof fn lemma_is_lerfu_word<'arena>(toks: Seq<Token>, pos: nat)
    ensures
        forall|node: LerfuWord<'arena>| #[trigger] is_lerfu_word(node, toks, pos) == (
            match spec_lerfu_word_lerfu(toks, pos) {
                Outcome::Matched(_) => is_lerfu_word_lerfu(node, toks, pos),
                Outcome::Error(_) => match spec_lerfu_word_lau(toks, pos) {
                    Outcome::Matched(_) => is_lerfu_word_lau(node, toks, pos),
                    Outcome::Error(
                        _,
                    ) => spec_lerfu_word_tei(
                        toks,
                        pos,
                    ) is Matched && is_lerfu_word_tei(node, toks, pos),
                    Outcome::Failure(_) => false,
                },
                Outcome::Failure(_) => false,
            }
        ),
{
    reveal(is_lerfu_word);
    reveal(is_lerfu_word_lerfu);
    reveal(is_lerfu_word_lau);
    reveal(is_lerfu_word_tei);
}

/// Whether `node` is the node that `LerfuWordLerfu` makes of the tokens at `pos`.
#[verifier::opaque]
pub closed spec fn is_lerfu_word_lerfu<'arena>(
    node: LerfuWord<'arena>,
    toks: Seq<Token>,
    pos: nat,
) -> bool
    decreases rest(toks, pos), 11nat,
{
    match node {
        LerfuWord::Lerfu(field_0) => match spec_lerfu(toks, pos) {
            Outcome::Matched(_) => is_lerfu(field_0, toks, pos),
            _ => false,
        },
        _ => false,
    }
}

/// What [`is_lerfu_word_lerfu`] says.
pub proof fn lemma_is_lerfu_word_lerfu<'arena>(
    node: LerfuWord<'arena>,
    toks: Seq<Token>,
    pos: nat,
)
    ensures
        is_lerfu_word_lerfu(node, toks, pos) == (
            match node {
                LerfuWord::Lerfu(field_0) => match spec_lerfu(toks, pos) {
                    Outcome::Matched(_) => is_lerfu(field_0, toks, pos),
                    _ => false,
                },
                _ => false,
            }
        ),
{
    reveal(is_lerfu_word_lerfu);
    reveal(is_lerfu);
}

/// Whether `node` is the node that `Lerfu` makes of the tokens at `pos`: the
/// node of the first alternative that matches.
#[verifier::opaque]
pub closed spec fn is_lerfu<'arena>(node: Lerfu<'arena>, toks: Seq<Token>, pos: nat) -> bool
    decreases rest(toks, pos), 10nat,
{
    match spec_lerfu_bu(toks, pos) {
        Outcome::Matched(_) => is_lerfu_bu(node, toks, pos),
        Outcome::Error(_) => spec_lerfu_by(toks, pos) is Matched && is_lerfu_by(node, toks, pos),
        Outcome::Failure(_) => false,
    }
}

/// What [`is_lerfu`] says.
pub proof fn lemma_is_lerfu<'arena>(toks: Seq<Token>, pos: nat)
    ensures
        forall|node: Lerfu<'arena>| #[trigger] is_lerfu(node, toks, pos) == (
            match spec_lerfu_bu(toks, pos) {
                Outcome::Matched(_) => is_lerfu_bu(node, toks, pos),
                Outcome::Error(
                    _,
                ) => spec_lerfu_by(toks, pos) is Matched && is_lerfu_by(node, toks, pos),
                Outcome::Failure(_) => false,
            }
        ),
{
    reveal(is_lerfu);
    reveal(is_lerfu_bu);
    reveal(is_lerfu_by);
}

/// Whether `node` is the node that `LerfuBu` makes of the tokens at `pos`.
#[verifier::opaque]
pub closed spec fn is_lerfu_bu<'arena>(node: Lerfu<'arena>, toks: Seq<Token>, pos: nat) -> bool
    decreases rest(toks, pos), 9nat,
{
    match node {
        Lerfu::Bu(field_0, field_1, field_2, field_3) => match spec_opt(spec_bahe(toks, pos)) {
            Outcome::Matched(n1) => {
                &&& (match field_0 {
                        Some(inner) => {
                            &&& spec_bahe(toks, pos) is Matched
                            &&& is_bahe(inner, toks, pos)
                        },
                        None => spec_bahe(toks, pos) is Error,
                    })
                &&& match spec_bu_lerfu(toks, pos + n1) {
                        Outcome::Matched(n2) => {
                            &&& is_bu_lerfu(field_1, toks, pos + n1)
                            &&& match spec_many1_bu(toks, pos + n1 + n2) {
                                    Outcome::Matched(n3) => {
                                        &&& is_row_of_bu(field_2@, toks, pos + n1 + n2)
                                        &&& match spec_many0_indicators(
                                            toks,
                                            pos + n1 + n2 + n3,
                                        ) {
                                                Outcome::Matched(_) => is_row_of_indicators(
                                                    field_3@,
                                                    toks,
                                                    pos + n1 + n2 + n3,
                                                ),
                                                _ => false,
                                            }
                                    },
                                    _ => false,
                                }
                        },
                        _ => false,
                    }
            },
            _ => false,
        },
        _ => false,
    }
}

/// What [`is_lerfu_bu`] says.
pub proof fn lemma_is_lerfu_bu<'arena>(node: Lerfu<'arena>, toks: Seq<Token>, pos: nat)
    ensures
        is_lerfu_bu(node, toks, pos) == (
            match node {
                Lerfu::Bu(
                    field_0,
                    field_1,
                    field_2,
                    field_3,
                ) => match spec_opt(spec_bahe(toks, pos)) {
                    Outcome::Matched(n1) => {
                        &&& (match field_0 {
                                Some(inner) => {
                                    &&& spec_bahe(toks, pos) is Matched
                                    &&& is_bahe(inner, toks, pos)
                                },
                                None => spec_bahe(toks, pos) is Error,
                            })
                        &&& match spec_bu_lerfu(toks, pos + n1) {
                                Outcome::Matched(n2) => {
                                    &&& is_bu_lerfu(field_1, toks, pos + n1)
                                    &&& match spec_many1_bu(toks, pos + n1 + n2) {
                                            Outcome::Matched(n3) => {
                                                &&& is_row_of_bu(field_2@, toks, pos + n1 + n2)
                                                &&& match spec_many0_indicators(
                                                    toks,
                                                    pos + n1 + n2 + n3,
                                                ) {
                                                        Outcome::Matched(_) => is_row_of_indicators(
                                                            field_3@,
                                                            toks,
                                                            pos + n1 + n2 + n3,
                                                        ),
                                                        _ => false,
                                                    }
                                            },
                                            _ => false,
                                        }
                                },
                                _ => false,
                            }
                    },
                    _ => false,
                },
                _ => false,
            }
        ),
{
    reveal(is_lerfu_bu);
    reveal(is_bahe);
    reveal(is_bu_lerfu);
    reveal(is_row_of_bu);
    reveal(is_row_of_indicators);
}

/// Whether `node` is the node of the word before `bu` at `pos`.
pub open spec fn is_bu_lerfu(node: BuLerfu, toks: Seq<Token>, pos: nat) -> bool {
    pos < toks.len() && node.0 == toks[pos as int]
}

/// Whether `node` is the node that `LerfuBy` makes of the tokens at `pos`.
#[verifier::opaque]
pub closed spec fn is_lerfu_by<'arena>(node: Lerfu<'arena>, toks: Seq<Token>, pos: nat) -> bool
    decreases rest(toks, pos), 3nat,
{
    match node {
        Lerfu::By(field_0) => match spec_word(toks, pos, Selmaho::By) {
            Outcome::Matched(_) => is_word(field_0, toks, pos, Selmaho::By),
            _ => false,
        },
        _ => false,
    }
}

/// What [`is_lerfu_by`] says.
pub proof fn lemma_is_lerfu_by<'arena>(node: Lerfu<'arena>, toks: Seq<Token>, pos: nat)
    ensures
        is_lerfu_by(node, toks, pos) == (
            match node {
                Lerfu::By(field_0) => match spec_word(toks, pos, Selmaho::By) {
                    Outcome::Matched(_) => is_word(field_0, toks, pos, Selmaho::By),
                    _ => false,
                },
                _ => false,
            }
        ),
{
    reveal(is_lerfu_by);
    reveal(is_word);
}

/// Whether `node` is the node that `LerfuWordLau` makes of the tokens at `pos`.
#[verifier::opaque]
pub closed spec fn is_lerfu_word_lau<'arena>(
    node: LerfuWord<'arena>,
    toks: Seq<Token>,
    pos: nat,
) -> bool
    decreases rest(toks, pos), 11nat,
{
    match node {
        LerfuWord::Lau { lau, lerfu } => match spec_word(toks, pos, Selmaho::Lau) {
            Outcome::Matched(n1) => {
                &&& is_word(lau, toks, pos, Selmaho::Lau)
                &&& match spec_lerfu(toks, pos + n1) {
                        Outcome::Matched(_) => is_lerfu(lerfu, toks, pos + n1),
                        _ => false,
                    }
            },
            _ => false,
        },
        _ => false,
    }
}

/// What [`is_lerfu_word_lau`] says.
pub proof fn lemma_is_lerfu_word_lau<'arena>(node: LerfuWord<'arena>, toks: Seq<Token>, pos: nat)
    ensures
        is_lerfu_word_lau(node, toks, pos) == (
            match node {
                LerfuWord::Lau { lau, lerfu } => match spec_word(toks, pos, Selmaho::Lau) {
                    Outcome::Matched(n1) => {
                        &&& is_word(lau, toks, pos, Selmaho::Lau)
                        &&& match spec_lerfu(toks, pos + n1) {
                                Outcome::Matched(_) => is_lerfu(lerfu, toks, pos + n1),
                                _ => false,
                            }
                    },
                    _ => false,
                },
                _ => false,
            }
        ),
{
    reveal(is_lerfu_word_lau);
    reveal(is_word);
    reveal(is_lerfu);
}

/// Whether `node` is the node that `LerfuWordTei` makes of the tokens at `pos`.
#[verifier::opaque]
pub closed spec fn is_lerfu_word_tei<'arena>(
    node: LerfuWord<'arena>,
    toks: Seq<Token>,
    pos: nat,
) -> bool
    decreases rest(toks, pos), 3nat,
{
    match node {
        LerfuWord::Tei { tei, inner, foi } => match spec_word(toks, pos, Selmaho::Tei) {
            Outcome::Matched(n1) => {
                &&& is_word(tei, toks, pos, Selmaho::Tei)
                &&& match spec_lerfu_string(toks, pos + n1) {
                        Outcome::Matched(n2) => {
                            &&& advanced(toks, pos, n1)
                            &&& is_lerfu_string(*inner, toks, pos + n1)
                            &&& match spec_cut(spec_word(toks, pos + n1 + n2, Selmaho::Foi)) {
                                    Outcome::Matched(_) => is_word(
                                        foi,
                                        toks,
                                        pos + n1 + n2,
                                        Selmaho::Foi,
                                    ),
                                    _ => false,
                                }
                        },
                        _ => false,
                    }
            },
            _ => false,
        },
        _ => false,
    }
}

/// What [`is_lerfu_word_tei`] says.
pub proof fn lemma_is_lerfu_word_tei<'arena>(node: LerfuWord<'arena>, toks: Seq<Token>, pos: nat)
    ensures
        is_lerfu_word_tei(node, toks, pos) == (
            match node {
                LerfuWord::Tei { tei, inner, foi } => match spec_word(toks, pos, Selmaho::Tei) {
                    Outcome::Matched(n1) => {
                        &&& is_word(tei, toks, pos, Selmaho::Tei)
                        &&& match spec_lerfu_string(toks, pos + n1) {
                                Outcome::Matched(n2) => {
                                    &&& advanced(toks, pos, n1)
                                    &&& is_lerfu_string(*inner, toks, pos + n1)
                                    &&& match spec_cut(
                                        spec_word(toks, pos + n1 + n2, Selmaho::Foi),
                                    ) {
                                            Outcome::Matched(_) => is_word(
                                                foi,
                                                toks,
                                                pos + n1 + n2,
                                                Selmaho::Foi,
                                            ),
                                            _ => false,
                                        }
                                },
                                _ => false,
                            }
                    },
                    _ => false,
                },
                _ => false,
            }
        ),
{
    reveal(is_lerfu_word_tei);
    reveal(is_word);
    reveal(is_lerfu_string);
}

/// Whether `node` is the node that `LerfuString` makes of the tokens at `pos`.
#[verifier::opaque]
pub closed spec fn is_lerfu_string<'arena>(
    node: LerfuString<'arena>,
    toks: Seq<Token>,
    pos: nat,
) -> bool
    decreases rest(toks, pos), 16nat,
{
    match spec_lerfu_word(toks, pos) {
        Outcome::Matched(n1) => {
            &&& is_lerfu_word(node.first, toks, pos)
            &&& match spec_many0_number_rest(toks, pos + n1) {
                    Outcome::Matched(_) => is_row_of_number_rest(node.rest@, toks, pos + n1),
                    _ => false,
                }
        },
        _ => false,
    }
}

/// What [`is_lerfu_string`] says.
pub proof fn lemma_is_lerfu_string<'arena>(node: LerfuString<'arena>, toks: Seq<Token>, pos: nat)
    ensures
        is_lerfu_string(node, toks, pos) == (
            match spec_lerfu_word(toks, pos) {
                Outcome::Matched(n1) => {
                    &&& is_lerfu_word(node.first, toks, pos)
                    &&& match spec_many0_number_rest(toks, pos + n1) {
                            Outcome::Matched(_) => is_row_of_number_rest(
                                node.rest@,
                                toks,
                                pos + n1,
                            ),
                            _ => false,
                        }
                },
                _ => false,
            }
        ),
{
    reveal(is_lerfu_string);
    reveal(is_lerfu_word);
    reveal(is_row_of_number_rest);
}

/// Whether `node` is the node that `IntervalPropertyTahe` makes of the tokens at `pos`.
#[verifier::opaque]
pub closed spec fn is_interval_property_tahe<'arena>(
    node: IntervalProperty<'arena>,
    toks: Seq<Token>,
    pos: nat,
) -> bool
    decreases rest(toks, pos), 3nat,
{
    match node {
        IntervalProperty::Tahe(field_0, field_1) => match spec_word(toks, pos, Selmaho::Tahe) {
            Outcome::Matched(n1) => {
                &&& is_word(field_0, toks, pos, Selmaho::Tahe)
                &&& match spec_opt(spec_word(toks, pos + n1, Selmaho::Nai)) {
                        Outcome::Matched(_) => {
                            &&& (match field_1 {
                                    Some(inner) => {
                                        &&& spec_word(toks, pos + n1, Selmaho::Nai) is Matched
                                        &&& is_word(inner, toks, pos + n1, Selmaho::Nai)
                                    },
                                    None => spec_word(toks, pos + n1, Selmaho::Nai) is Error,
                                })
                        },
                        _ => false,
                    }
            },
            _ => false,
        },
        _ => false,
    }
}

/// What [`is_interval_property_tahe`] says.
pub proof fn lemma_is_interval_property_tahe<'arena>(
    node: IntervalProperty<'arena>,
    toks: Seq<Token>,
    pos: nat,
)
    ensures
        is_interval_property_tahe(node, toks, pos) == (
            match node {
                IntervalProperty::Tahe(
                    field_0,
                    field_1,
                ) => match spec_word(toks, pos, Selmaho::Tahe) {
                    Outcome::Matched(n1) => {
                        &&& is_word(field_0, toks, pos, Selmaho::Tahe)
                        &&& match spec_opt(spec_word(toks, pos + n1, Selmaho::Nai)) {
                                Outcome::Matched(_) => {
                                    &&& (match field_1 {
                                            Some(inner) => {
                                                &&& spec_word(
                                                    toks,
                                                    pos + n1,
                                                    Selmaho::Nai,
                                                ) is Matched
                                                &&& is_word(inner, toks, pos + n1, Selmaho::Nai)
                                            },
                                            None => spec_word(
                                                toks,
                                                pos + n1,
                                                Selmaho::Nai,
                                            ) is Error,
                                        })
                                },
                                _ => false,
                            }
                    },
                    _ => false,
                },
                _ => false,
            }
        ),
{
    reveal(is_interval_property_tahe);
    reveal(is_word);
}

/// Whether `node` is the node that `IntervalPropertyZaho` makes of the tokens at `pos`.
#[verifier::opaque]
pub closed spec fn is_interval_property_zaho<'arena>(
    node: IntervalProperty<'arena>,
    toks: Seq<Token>,
    pos: nat,
) -> bool
    decreases rest(toks, pos), 3nat,
{
    match node {
        IntervalProperty::Zaho(field_0, field_1) => match spec_word(toks, pos, Selmaho::Zaho) {
            Outcome::Matched(n1) => {
                &&& is_word(field_0, toks, pos, Selmaho::Zaho)
                &&& match spec_opt(spec_word(toks, pos + n1, Selmaho::Nai)) {
                        Outcome::Matched(_) => {
                            &&& (match field_1 {
                                    Some(inner) => {
                                        &&& spec_word(toks, pos + n1, Selmaho::Nai) is Matched
                                        &&& is_word(inner, toks, pos + n1, Selmaho::Nai)
                                    },
                                    None => spec_word(toks, pos + n1, Selmaho::Nai) is Error,
                                })
                        },
                        _ => false,
                    }
            },
            _ => false,
        },
        _ => false,
    }
}

/// What [`is_interval_property_zaho`] says.
pub proof fn lemma_is_interval_property_zaho<'arena>(
    node: IntervalProperty<'arena>,
    toks: Seq<Token>,
    pos: nat,
)
    ensures
        is_interval_property_zaho(node, toks, pos) == (
            match node {
                IntervalProperty::Zaho(
                    field_0,
                    field_1,
                ) => match spec_word(toks, pos, Selmaho::Zaho) {
                    Outcome::Matched(n1) => {
                        &&& is_word(field_0, toks, pos, Selmaho::Zaho)
                        &&& match spec_opt(spec_word(toks, pos + n1, Selmaho::Nai)) {
                                Outcome::Matched(_) => {
                                    &&& (match field_1 {
                                            Some(inner) => {
                                                &&& spec_word(
                                                    toks,
                                                    pos + n1,
                                                    Selmaho::Nai,
                                                ) is Matched
                                                &&& is_word(inner, toks, pos + n1, Selmaho::Nai)
                                            },
                                            None => spec_word(
                                                toks,
                                                pos + n1,
                                                Selmaho::Nai,
                                            ) is Error,
                                        })
                                },
                                _ => false,
                            }
                    },
                    _ => false,
                },
                _ => false,
            }
        ),
{
    reveal(is_interval_property_zaho);
    reveal(is_word);
}

/// Whether `node` is the node that `TimeSpaceCahaSpace` makes of the tokens at `pos`.
#[verifier::opaque]
pub closed spec fn is_time_space_caha_space<'arena>(
    node: TimeSpaceCaha<'arena>,
    toks: Seq<Token>,
    pos: nat,
) -> bool
    decreases rest(toks, pos), 24nat,
{
    match node {
        TimeSpaceCaha::Space(field_0) => match spec_space(toks, pos) {
            Outcome::Matched(_) => is_space(*field_0, toks, pos),
            _ => false,
        },
        _ => false,
    }
}

/// What [`is_time_space_caha_space`] says.
pub proof fn lemma_is_time_space_caha_space<'arena>(
    node: TimeSpaceCaha<'arena>,
    toks: Seq<Token>,
    pos: nat,
)
    ensures
        is_time_space_caha_space(node, toks, pos) == (
            match node {
                TimeSpaceCaha::Space(field_0) => match spec_space(toks, pos) {
                    Outcome::Matched(_) => is_space(*field_0, toks, pos),
                    _ => false,
                },
                _ => false,
            }
        ),
{
    reveal(is_time_space_caha_space);
    reveal(is_space);
}

/// Whether `node` is the node that `Space` makes of the tokens at `pos`.
#[verifier::opaque]
pub closed spec fn is_space<'arena>(node: Space<'arena>, toks: Seq<Token>, pos: nat) -> bool
    decreases rest(toks, pos), 23nat,
{
    match spec_opt(spec_word(toks, pos, Selmaho::Va)) {
        Outcome::Matched(n1) => {
            &&& (match node.va {
                    Some(inner) => {
                        &&& spec_word(toks, pos, Selmaho::Va) is Matched
                        &&& is_word(inner, toks, pos, Selmaho::Va)
                    },
                    None => spec_word(toks, pos, Selmaho::Va) is Error,
                })
            &&& match spec_many0_space_offset(toks, pos + n1) {
                    Outcome::Matched(n2) => {
                        &&& is_row_of_space_offset(node.offset@, toks, pos + n1)
                        &&& match spec_opt(spec_space_interval(toks, pos + n1 + n2)) {
                                Outcome::Matched(n3) => {
                                    &&& (match node.interval {
                                            Some(inner) => {
                                                &&& spec_space_interval(
                                                    toks,
                                                    pos + n1 + n2,
                                                ) is Matched
                                                &&& is_space_interval(inner, toks, pos + n1 + n2)
                                            },
                                            None => spec_space_interval(
                                                toks,
                                                pos + n1 + n2,
                                            ) is Error,
                                        })
                                    &&& match spec_opt(
                                        spec_space_motion(toks, pos + n1 + n2 + n3),
                                    ) {
                                            Outcome::Matched(_) => {
                                                &&& (match node.motion {
                                                        Some(inner) => {
                                                            &&& spec_space_motion(
                                                                toks,
                                                                pos + n1 + n2 + n3,
                                                            ) is Matched
                                                            &&& is_space_motion(
                                                                inner,
                                                                toks,
                                                                pos + n1 + n2 + n3,
                                                            )
                                                        },
                                                        None => spec_space_motion(
                                                            toks,
                                                            pos + n1 + n2 + n3,
                                                        ) is Error,
                                                    })
                                            },
                                            _ => false,
                                        }
                                },
                                _ => false,
                            }
                    },
                    _ => false,
                }
        },
        _ => false,
    }
}

/// What [`is_space`] says.
pub proof fn lemma_is_space<'arena>(node: Space<'arena>, toks: Seq<Token>, pos: nat)
    ensures
        is_space(node, toks, pos) == (
            match spec_opt(spec_word(toks, pos, Selmaho::Va)) {
                Outcome::Matched(n1) => {
                    &&& (match node.va {
                            Some(inner) => {
                                &&& spec_word(toks, pos, Selmaho::Va) is Matched
                                &&& is_word(inner, toks, pos, Selmaho::Va)
                            },
                            None => spec_word(toks, pos, Selmaho::Va) is Error,
                        })
                    &&& match spec_many0_space_offset(toks, pos + n1) {
                            Outcome::Matched(n2) => {
                                &&& is_row_of_space_offset(node.offset@, toks, pos + n1)
                                &&& match spec_opt(spec_space_interval(toks, pos + n1 + n2)) {
                                        Outcome::Matched(n3) => {
                                            &&& (match node.interval {
                                                    Some(inner) => {
                                                        &&& spec_space_interval(
                                                            toks,
                                                            pos + n1 + n2,
                                                        ) is Matched
                                                        &&& is_space_interval(
                                                            inner,
                                                            toks,
                                                            pos + n1 + n2,
                                                        )
                                                    },
                                                    None => spec_space_interval(
                                                        toks,
                                                        pos + n1 + n2,
                                                    ) is Error,
                                                })
                                            &&& match spec_opt(
                                                spec_space_motion(toks, pos + n1 + n2 + n3),
                                            ) {
                                                    Outcome::Matched(_) => {
                                                        &&& (match node.motion {
                                                                Some(inner) => {
                                                                    &&& spec_space_motion(
                                                                        toks,
                                                                        pos + n1 + n2 + n3,
                                                                    ) is Matched
                                                                    &&& is_space_motion(
                                                                        inner,
                                                                        toks,
                                                                        pos + n1 + n2 + n3,
                                                                    )
                                                                },
                                                                None => spec_space_motion(
                                                                    toks,
                                                                    pos + n1 + n2 + n3,
                                                                ) is Error,
                                                            })
                                                    },
                                                    _ => false,
                                                }
                                        },
                                        _ => false,
                                    }
                            },
                            _ => false,
                        }
                },
                _ => false,
            }
        ),
{
    reveal(is_space);
    reveal(is_word);
    reveal(is_row_of_space_offset);
    reveal(is_space_interval);
    reveal(is_space_motion);
}

/// Whether `node` is the node that `SpaceOffset` makes of the tokens at `pos`.
#[verifier::opaque]
pub closed spec fn is_space_offset<'arena>(
    node: SpaceOffset<'arena>,
    toks: Seq<Token>,
    pos: nat,
) -> bool
    decreases rest(toks, pos), 3nat,
{
    match spec_word(toks, pos, Selmaho::Faha) {
        Outcome::Matched(n1) => {
            &&& is_word(node.0, toks, pos, Selmaho::Faha)
            &&& match spec_opt(spec_word(toks, pos + n1, Selmaho::Nai)) {
                    Outcome::Matched(n2) => {
                        &&& (match node.1 {
                                Some(inner) => {
                                    &&& spec_word(toks, pos + n1, Selmaho::Nai) is Matched
                                    &&& is_word(inner, toks, pos + n1, Selmaho::Nai)
                                },
                                None => spec_word(toks, pos + n1, Selmaho::Nai) is Error,
                            })
                        &&& match spec_opt(spec_word(toks, pos + n1 + n2, Selmaho::Va)) {
                                Outcome::Matched(_) => {
                                    &&& (match node.2 {
                                            Some(inner) => {
                                                &&& spec_word(
                                                    toks,
                                                    pos + n1 + n2,
                                                    Selmaho::Va,
                                                ) is Matched
                                                &&& is_word(
                                                    inner,
                                                    toks,
                                                    pos + n1 + n2,
                                                    Selmaho::Va,
                                                )
                                            },
                                            None => spec_word(
                                                toks,
                                                pos + n1 + n2,
                                                Selmaho::Va,
                                            ) is Error,
                                        })
                                },
                                _ => false,
                            }
                    },
                    _ => false,
                }
        },
        _ => false,
    }
}

/// What [`is_space_offset`] says.
pub proof fn lemma_is_space_offset<'arena>(node: SpaceOffset<'arena>, toks: Seq<Token>, pos: nat)
    ensures
        is_space_offset(node, toks, pos) == (
            match spec_word(toks, pos, Selmaho::Faha) {
                Outcome::Matched(n1) => {
                    &&& is_word(node.0, toks, pos, Selmaho::Faha)
                    &&& match spec_opt(spec_word(toks, pos + n1, Selmaho::Nai)) {
                            Outcome::Matched(n2) => {
                                &&& (match node.1 {
                                        Some(inner) => {
                                            &&& spec_word(toks, pos + n1, Selmaho::Nai) is Matched
                                            &&& is_word(inner, toks, pos + n1, Selmaho::Nai)
                                        },
                                        None => spec_word(toks, pos + n1, Selmaho::Nai) is Error,
                                    })
                                &&& match spec_opt(spec_word(toks, pos + n1 + n2, Selmaho::Va)) {
                                        Outcome::Matched(_) => {
                                            &&& (match node.2 {
                                                    Some(inner) => {
                                                        &&& spec_word(
                                                            toks,
                                                            pos + n1 + n2,
                                                            Selmaho::Va,
                                                        ) is Matched
                                                        &&& is_word(
                                                            inner,
                                                            toks,
                                                            pos + n1 + n2,
                                                            Selmaho::Va,
                                                        )
                                                    },
                                                    None => spec_word(
                                                        toks,
                                                        pos + n1 + n2,
                                                        Selmaho::Va,
                                                    ) is Error,
                                                })
                                        },
                                        _ => false,
                                    }
                            },
                            _ => false,
                        }
                },
                _ => false,
            }
        ),
{
    reveal(is_space_offset);
    reveal(is_word);
}

/// How many tokens the first `count` of a row of `SpaceOffset` take at `pos`.
pub open spec fn run_of_space_offset(toks: Seq<Token>, pos: nat, count: nat) -> nat
    decreases count,
{
    if count == 0 {
        0
    } else {
        let before = run_of_space_offset(toks, pos, (count - 1) as nat);
        before + (match spec_space_offset(toks, pos + before) {
            Outcome::Matched(len) => len,
            _ => 0,
        })
    }
}

/// Whether `items` are the nodes of a row of `SpaceOffset` at `pos`: each is the
/// node of the `SpaceOffset` at its place, and no further one follows them.
#[verifier::opaque]
pub closed spec fn is_row_of_space_offset<'arena>(
    items: Seq<SpaceOffset<'arena>>,
    toks: Seq<Token>,
    pos: nat,
) -> bool
    decreases rest(toks, pos), 4nat,
{
    &&& forall|i: int|
        #![trigger items[i]]
        #![trigger run_of_space_offset(toks, pos, i as nat)]
        0 <= i < items.len() ==> spec_space_offset(
            toks,
            pos + run_of_space_offset(toks, pos, i as nat),
        ) is Matched && is_space_offset(
            items[i],
            toks,
            pos + run_of_space_offset(toks, pos, i as nat),
        )
    &&& !(spec_space_offset(toks, pos + run_of_space_offset(toks, pos, items.len())) is Matched)
}

/// What [`is_row_of_space_offset`] says.
pub proof fn lemma_is_row_of_space_offset<'arena>(
    items: Seq<SpaceOffset<'arena>>,
    toks: Seq<Token>,
    pos: nat,
)
    ensures
        is_row_of_space_offset(items, toks, pos) == ({
            &&& forall|i: int|
                #![trigger items[i]]
                #![trigger run_of_space_offset(toks, pos, i as nat)]
                0 <= i < items.len() ==> spec_space_offset(
                    toks,
                    pos + run_of_space_offset(toks, pos, i as nat),
                ) is Matched && is_space_offset(
                    items[i],
                    toks,
                    pos + run_of_space_offset(toks, pos, i as nat),
                )
            &&& !(spec_space_offset(
                toks,
                pos + run_of_space_offset(toks, pos, items.len()),
            ) is Matched)
        }),
{
    reveal(is_row_of_space_offset);
    reveal(is_space_offset);
}

/// Whether `node` is the node that `SpaceInterval` makes of the tokens at `pos`: the
/// node of the first alternative that matches.
#[verifier::opaque]
pub closed spec fn is_space_interval<'arena>(
    node: SpaceInterval<'arena>,
    toks: Seq<Token>,
    pos: nat,
) -> bool
    decreases rest(toks, pos), 22nat,
{
    match spec_space_interval_interval(toks, pos) {
        Outcome::Matched(_) => is_space_interval_interval(node, toks, pos),
        Outcome::Error(
            _,
        ) => spec_space_interval_properties(
            toks,
            pos,
        ) is Matched && is_space_interval_properties(node, toks, pos),
        Outcome::Failure(_) => false,
    }
}

/// What [`is_space_interval`] says.
pub proof fn lemma_is_space_interval<'arena>(toks: Seq<Token>, pos: nat)
    ensures
        forall|node: SpaceInterval<'arena>| #[trigger] is_space_interval(node, toks, pos) == (
            match spec_space_interval_interval(toks, pos) {
                Outcome::Matched(_) => is_space_interval_interval(node, toks, pos),
                Outcome::Error(
                    _,
                ) => spec_space_interval_properties(
                    toks,
                    pos,
                ) is Matched && is_space_interval_properties(node, toks, pos),
                Outcome::Failure(_) => false,
            }
        ),
{
    reveal(is_space_interval);
    reveal(is_space_interval_interval);
    reveal(is_space_interval_properties);
}

/// Whether `node` is the node that `SpaceIntervalInterval` makes of the tokens at `pos`.
#[verifier::opaque]
pub closed spec fn is_space_interval_interval<'arena>(
    node: SpaceInterval<'arena>,
    toks: Seq<Token>,
    pos: nat,
) -> bool
    decreases rest(toks, pos), 21nat,
{
    match node {
        SpaceInterval::Interval { interval, direction, properties } => match spec_veha_viha(
            toks,
            pos,
        ) {
            Outcome::Matched(n1) => {
                &&& is_veha_viha(interval, toks, pos)
                &&& match spec_opt(spec_faha_nai(toks, pos + n1)) {
                        Outcome::Matched(n2) => {
                            &&& (match direction {
                                    Some(inner) => {
                                        &&& spec_faha_nai(toks, pos + n1) is Matched
                                        &&& is_faha_nai(inner, toks, pos + n1)
                                    },
                                    None => spec_faha_nai(toks, pos + n1) is Error,
                                })
                            &&& match spec_many0_space_interval_property(toks, pos + n1 + n2) {
                                    Outcome::Matched(_) => is_row_of_space_interval_property(
                                        properties@,
                                        toks,
                                        pos + n1 + n2,
                                    ),
                                    _ => false,
                                }
                        },
                        _ => false,
                    }
            },
            _ => false,
        },
        _ => false,
    }
}

/// What [`is_space_interval_interval`] says.
pub proof fn lemma_is_space_interval_interval<'arena>(
    node: SpaceInterval<'arena>,
    toks: Seq<Token>,
    pos: nat,
)
    ensures
        is_space_interval_interval(node, toks, pos) == (
            match node {
                SpaceInterval::Interval { interval, direction, properties } => match spec_veha_viha(
                    toks,
                    pos,
                ) {
                    Outcome::Matched(n1) => {
                        &&& is_veha_viha(interval, toks, pos)
                        &&& match spec_opt(spec_faha_nai(toks, pos + n1)) {
                                Outcome::Matched(n2) => {
                                    &&& (match direction {
                                            Some(inner) => {
                                                &&& spec_faha_nai(toks, pos + n1) is Matched
                                                &&& is_faha_nai(inner, toks, pos + n1)
                                            },
                                            None => spec_faha_nai(toks, pos + n1) is Error,
                                        })
                                    &&& match spec_many0_space_interval_property(
                                        toks,
                                        pos + n1 + n2,
                                    ) {
                                            Outcome::Matched(_) => is_row_of_space_interval_property(
                                                properties@,
                                                toks,
                                                pos + n1 + n2,
                                            ),
                                            _ => false,
                                        }
                                },
                                _ => false,
                            }
                    },
                    _ => false,
                },
                _ => false,
            }
        ),
{
    reveal(is_space_interval_interval);
    reveal(is_veha_viha);
    reveal(is_faha_nai);
    reveal(is_row_of_space_interval_property);
}

/// Whether `node` is the node that `VehaViha` makes of the tokens at `pos`: the
/// node of the first alternative that matches.
#[verifier::opaque]
pub closed spec fn is_veha_viha<'arena>(
    node: EitherOrBoth<Word<'arena>, Word<'arena>>,
    toks: Seq<Token>,
    pos: nat,
) -> bool
    decreases rest(toks, pos), 4nat,
{
    match spec_veha_viha_right(toks, pos) {
        Outcome::Matched(_) => is_veha_viha_right(node, toks, pos),
        Outcome::Error(_) => match spec_veha_viha_both(toks, pos) {
            Outcome::Matched(_) => is_veha_viha_both(node, toks, pos),
            Outcome::Error(
                _,
            ) => spec_veha_viha_left(toks, pos) is Matched && is_veha_viha_left(node, toks, pos),
            Outcome::Failure(_) => false,
        },
        Outcome::Failure(_) => false,
    }
}

/// What [`is_veha_viha`] says.
pub proof fn lemma_is_veha_viha<'arena>(toks: Seq<Token>, pos: nat)
    ensures
        forall|node: EitherOrBoth<Word<'arena>, Word<'arena>>| #[trigger] is_veha_viha(
            node,
            toks,
            pos,
        ) == (
            match spec_veha_viha_right(toks, pos) {
                Outcome::Matched(_) => is_veha_viha_right(node, toks, pos),
                Outcome::Error(_) => match spec_veha_viha_both(toks, pos) {
                    Outcome::Matched(_) => is_veha_viha_both(node, toks, pos),
                    Outcome::Error(
                        _,
                    ) => spec_veha_viha_left(
                        toks,
                        pos,
                    ) is Matched && is_veha_viha_left(node, toks, pos),
                    Outcome::Failure(_) => false,
                },
                Outcome::Failure(_) => false,
            }
        ),
{
    reveal(is_veha_viha);
    reveal(is_veha_viha_right);
    reveal(is_veha_viha_both);
    reveal(is_veha_viha_left);
}

/// Whether `node` is the node that `VehaVihaRight` makes of the tokens at `pos`.
#[verifier::opaque]
pub closed spec fn is_veha_viha_right<'arena>(
    node: EitherOrBoth<Word<'arena>, Word<'arena>>,
    toks: Seq<Token>,
    pos: nat,
) -> bool
    decreases rest(toks, pos), 3nat,
{
    match node {
        EitherOrBoth::Right(field_0) => match spec_word(toks, pos, Selmaho::Viha) {
            Outcome::Matched(_) => is_word(field_0, toks, pos, Selmaho::Viha),
            _ => false,
        },
        _ => false,
    }
}

/// What [`is_veha_viha_right`] says.
pub proof fn lemma_is_veha_viha_right<'arena>(
    node: EitherOrBoth<Word<'arena>, Word<'arena>>,
    toks: Seq<Token>,
    pos: nat,
)
    ensures
        is_veha_viha_right(node, toks, pos) == (
            match node {
                EitherOrBoth::Right(field_0) => match spec_word(toks, pos, Selmaho::Viha) {
                    Outcome::Matched(_) => is_word(field_0, toks, pos, Selmaho::Viha),
                    _ => false,
                },
                _ => false,
            }
        ),
{
    reveal(is_veha_viha_right);
    reveal(is_word);
}

/// Whether `node` is the node that `VehaVihaBoth` makes of the tokens at `pos`.
#[verifier::opaque]
pub closed spec fn is_veha_viha_both<'arena>(
    node: EitherOrBoth<Word<'arena>, Word<'arena>>,
    toks: Seq<Token>,
    pos: nat,
) -> bool
    decreases rest(toks, pos), 3nat,
{
    match node {
        EitherOrBoth::Both(field_0, field_1) => match spec_word(toks, pos, Selmaho::Veha) {
            Outcome::Matched(n1) => {
                &&& is_word(field_0, toks, pos, Selmaho::Veha)
                &&& match spec_word(toks, pos + n1, Selmaho::Viha) {
                        Outcome::Matched(_) => is_word(field_1, toks, pos + n1, Selmaho::Viha),
                        _ => false,
                    }
            },
            _ => false,
        },
        _ => false,
    }
}

/// What [`is_veha_viha_both`] says.
pub proof fn lemma_is_veha_viha_both<'arena>(
    node: EitherOrBoth<Word<'arena>, Word<'arena>>,
    toks: Seq<Token>,
    pos: nat,
)
    ensures
        is_veha_viha_both(node, toks, pos) == (
            match node {
                EitherOrBoth::Both(
                    field_0,
                    field_1,
                ) => match spec_word(toks, pos, Selmaho::Veha) {
                    Outcome::Matched(n1) => {
                        &&& is_word(field_0, toks, pos, Selmaho::Veha)
                        &&& match spec_word(toks, pos + n1, Selmaho::Viha) {
                                Outcome::Matched(_) => is_word(
                                    field_1,
                                    toks,
                                    pos + n1,
                                    Selmaho::Viha,
                                ),
                                _ => false,
                            }
                    },
                    _ => false,
                },
                _ => false,
            }
        ),
{
    reveal(is_veha_viha_both);
    reveal(is_word);
}

/// Whether `node` is the node that `VehaVihaLeft` makes of the tokens at `pos`.
#[verifier::opaque]
pub closed spec fn is_veha_viha_left<'arena>(
    node: EitherOrBoth<Word<'arena>, Word<'arena>>,
    toks: Seq<Token>,
    pos: nat,
) -> bool
    decreases rest(toks, pos), 3nat,
{
    match node {
        EitherOrBoth::Left(field_0) => match spec_word(toks, pos, Selmaho::Veha) {
            Outcome::Matched(_) => is_word(field_0, toks, pos, Selmaho::Veha),
            _ => false,
        },
        _ => false,
    }
}

/// What [`is_veha_viha_left`] says.
pub proof fn lemma_is_veha_viha_left<'arena>(
    node: EitherOrBoth<Word<'arena>, Word<'arena>>,
    toks: Seq<Token>,
    pos: nat,
)
    ensures
        is_veha_viha_left(node, toks, pos) == (
            match node {
                EitherOrBoth::Left(field_0) => match spec_word(toks, pos, Selmaho::Veha) {
                    Outcome::Matched(_) => is_word(field_0, toks, pos, Selmaho::Veha),
                    _ => false,
                },
                _ => false,
            }
        ),
{
    reveal(is_veha_viha_left);
    reveal(is_word);
}

/// Whether `node` is the node that `FahaNai` makes of the tokens at `pos`.
#[verifier::opaque]
pub closed spec fn is_faha_nai<'arena>(
    node: (Word<'arena>, Option<Word<'arena>>),
    toks: Seq<Token>,
    pos: nat,
) -> bool
    decreases rest(toks, pos), 3nat,
{
    match spec_word(toks, pos, Selmaho::Faha) {
        Outcome::Matched(n1) => {
            &&& is_word(node.0, toks, pos, Selmaho::Faha)
            &&& match spec_opt(spec_word(toks, pos + n1, Selmaho::Nai)) {
                    Outcome::Matched(_) => {
                        &&& (match node.1 {
                                Some(inner) => {
                                    &&& spec_word(toks, pos + n1, Selmaho::Nai) is Matched
                                    &&& is_word(inner, toks, pos + n1, Selmaho::Nai)
                                },
                                None => spec_word(toks, pos + n1, Selmaho::Nai) is Error,
                            })
                    },
                    _ => false,
                }
        },
        _ => false,
    }
}

/// What [`is_faha_nai`] says.
pub proof fn lemma_is_faha_nai<'arena>(
    node: (Word<'arena>, Option<Word<'arena>>),
    toks: Seq<Token>,
    pos: nat,
)
    ensures
        is_faha_nai(node, toks, pos) == (
            match spec_word(toks, pos, Selmaho::Faha) {
                Outcome::Matched(n1) => {
                    &&& is_word(node.0, toks, pos, Selmaho::Faha)
                    &&& match spec_opt(spec_word(toks, pos + n1, Selmaho::Nai)) {
                            Outcome::Matched(_) => {
                                &&& (match node.1 {
                                        Some(inner) => {
                                            &&& spec_word(toks, pos + n1, Selmaho::Nai) is Matched
                                            &&& is_word(inner, toks, pos + n1, Selmaho::Nai)
                                        },
                                        None => spec_word(toks, pos + n1, Selmaho::Nai) is Error,
                                    })
                            },
                            _ => false,
                        }
                },
                _ => false,
            }
        ),
{
    reveal(is_faha_nai);
    reveal(is_word);
}

/// Whether `node` is the node that `SpaceIntervalProperty` makes of the tokens at `pos`.
#[verifier::opaque]
pub closed spec fn is_space_interval_property<'arena>(
    node: SpaceIntervalProperty<'arena>,
    toks: Seq<Token>,
    pos: nat,
) -> bool
    decreases rest(toks, pos), 19nat,
{
    match spec_word(toks, pos, Selmaho::Fehe) {
        Outcome::Matched(n1) => {
            &&& is_word(node.0, toks, pos, Selmaho::Fehe)
            &&& match spec_interval_property(toks, pos + n1) {
                    Outcome::Matched(_) => is_interval_property(node.1, toks, pos + n1),
                    _ => false,
                }
        },
        _ => false,
    }
}

/// What [`is_space_interval_property`] says.
pub proof fn lemma_is_space_interval_property<'arena>(
    node: SpaceIntervalProperty<'arena>,
    toks: Seq<Token>,
    pos: nat,
)
    ensures
        is_space_interval_property(node, toks, pos) == (
            match spec_word(toks, pos, Selmaho::Fehe) {
                Outcome::Matched(n1) => {
                    &&& is_word(node.0, toks, pos, Selmaho::Fehe)
                    &&& match spec_interval_property(toks, pos + n1) {
                            Outcome::Matched(_) => is_interval_property(node.1, toks, pos + n1),
                            _ => false,
                        }
                },
                _ => false,
            }
        ),
{
    reveal(is_space_interval_property);
    reveal(is_word);
    reveal(is_interval_property);
}

/// How many tokens the first `count` of a row of `SpaceIntervalProperty` take at `pos`.
pub open spec fn run_of_space_interval_property(toks: Seq<Token>, pos: nat, count: nat) -> nat
    decreases count,
{
    if count == 0 {
        0
    } else {
        let before = run_of_space_interval_property(toks, pos, (count - 1) as nat);
        before + (match spec_space_interval_property(toks, pos + before) {
            Outcome::Matched(len) => len,
            _ => 0,
        })
    }
}

/// Whether `items` are the nodes of a row of `SpaceIntervalProperty` at `pos`: each is the
/// node of the `SpaceIntervalProperty` at its place, and no further one follows them.
#[verifier::opaque]
pub closed spec fn is_row_of_space_interval_property<'arena>(
    items: Seq<SpaceIntervalProperty<'arena>>,
    toks: Seq<Token>,
    pos: nat,
) -> bool
    decreases rest(toks, pos), 20nat,
{
    &&& forall|i: int|
        #![trigger items[i]]
        #![trigger run_of_space_interval_property(toks, pos, i as nat)]
        0 <= i < items.len() ==> spec_space_interval_property(
            toks,
            pos + run_of_space_interval_property(toks, pos, i as nat),
        ) is Matched && is_space_interval_property(
            items[i],
            toks,
            pos + run_of_space_interval_property(toks, pos, i as nat),
        )
    &&& !(spec_space_interval_property(
        toks,
        pos + run_of_space_interval_property(toks, pos, items.len()),
    ) is Matched)
}

/// What [`is_row_of_space_interval_property`] says.
pub proof fn lemma_is_row_of_space_interval_property<'arena>(
    items: Seq<SpaceIntervalProperty<'arena>>,
    toks: Seq<Token>,
    pos: nat,
)
    ensures
        is_row_of_space_interval_property(items, toks, pos) == ({
            &&& forall|i: int|
                #![trigger items[i]]
                #![trigger run_of_space_interval_property(toks, pos, i as nat)]
                0 <= i < items.len() ==> spec_space_interval_property(
                    toks,
                    pos + run_of_space_interval_property(toks, pos, i as nat),
                ) is Matched && is_space_interval_property(
                    items[i],
                    toks,
                    pos + run_of_space_interval_property(toks, pos, i as nat),
                )
            &&& !(spec_space_interval_property(
                toks,
                pos + run_of_space_interval_property(toks, pos, items.len()),
            ) is Matched)
        }),
{
    reveal(is_row_of_space_interval_property);
    reveal(is_space_interval_property);
}

/// Whether `node` is the node that `SpaceIntervalProperties` makes of the tokens at `pos`.
#[verifier::opaque]
pub closed spec fn is_space_interval_properties<'arena>(
    node: SpaceInterval<'arena>,
    toks: Seq<Token>,
    pos: nat,
) -> bool
    decreases rest(toks, pos), 21nat,
{
    match node {
        SpaceInterval::Properties(
            field_0,
        ) => match spec_many1_space_interval_property(toks, pos) {
            Outcome::Matched(_) => is_row_of_space_interval_property(field_0@, toks, pos),
            _ => false,
        },
        _ => false,
    }
}

/// What [`is_space_interval_properties`] says.
pub proof fn lemma_is_space_interval_properties<'arena>(
    node: SpaceInterval<'arena>,
    toks: Seq<Token>,
    pos: nat,
)
    ensures
        is_space_interval_properties(node, toks, pos) == (
            match node {
                SpaceInterval::Properties(
                    field_0,
                ) => match spec_many1_space_interval_property(toks, pos) {
                    Outcome::Matched(_) => is_row_of_space_interval_property(field_0@, toks, pos),
                    _ => false,
                },
                _ => false,
            }
        ),
{
    reveal(is_space_interval_properties);
    reveal(is_row_of_space_interval_property);
}

/// Whether `node` is the node that `SpaceMotion` makes of the tokens at `pos`.
#[verifier::opaque]
pub closed spec fn is_space_motion<'arena>(
    node: SpaceMotion<'arena>,
    toks: Seq<Token>,
    pos: nat,
) -> bool
    decreases rest(toks, pos), 4nat,
{
    match spec_word(toks, pos, Selmaho::Mohi) {
        Outcome::Matched(n1) => {
            &&& is_word(node.mohi, toks, pos, Selmaho::Mohi)
            &&& match spec_space_offset(toks, pos + n1) {
                    Outcome::Matched(_) => is_space_offset(node.offset, toks, pos + n1),
                    _ => false,
                }
        },
        _ => false,
    }
}

/// What [`is_space_motion`] says.
pub proof fn lemma_is_space_motion<'arena>(node: SpaceMotion<'arena>, toks: Seq<Token>, pos: nat)
    ensures
        is_space_motion(node, toks, pos) == (
            match spec_word(toks, pos, Selmaho::Mohi) {
                Outcome::Matched(n1) => {
                    &&& is_word(node.mohi, toks, pos, Selmaho::Mohi)
                    &&& match spec_space_offset(toks, pos + n1) {
                            Outcome::Matched(_) => is_space_offset(node.offset, toks, pos + n1),
                            _ => false,
                        }
                },
                _ => false,
            }
        ),
{
    reveal(is_space_motion);
    reveal(is_word);
    reveal(is_space_offset);
}

/// Whether `node` is the node that `TimeSpaceCahaCaha` makes of the tokens at `pos`.
#[verifier::opaque]
pub closed spec fn is_time_space_caha_caha<'arena>(
    node: TimeSpaceCaha<'arena>,
    toks: Seq<Token>,
    pos: nat,
) -> bool
    decreases rest(toks, pos), 3nat,
{
    match node {
        TimeSpaceCaha::Caha(field_0) => match spec_word(toks, pos, Selmaho::Caha) {
            Outcome::Matched(_) => is_word(field_0, toks, pos, Selmaho::Caha),
            _ => false,
        },
        _ => false,
    }
}

/// What [`is_time_space_caha_caha`] says.
pub proof fn lemma_is_time_space_caha_caha<'arena>(
    node: TimeSpaceCaha<'arena>,
    toks: Seq<Token>,
    pos: nat,
)
    ensures
        is_time_space_caha_caha(node, toks, pos) == (
            match node {
                TimeSpaceCaha::Caha(field_0) => match spec_word(toks, pos, Selmaho::Caha) {
                    Outcome::Matched(_) => is_word(field_0, toks, pos, Selmaho::Caha),
                    _ => false,
                },
                _ => false,
            }
        ),
{
    reveal(is_time_space_caha_caha);
    reveal(is_word);
}

/// Whether `node` is the node that `TagWordKi` makes of the tokens at `pos`.
#[verifier::opaque]
pub closed spec fn is_tag_word_ki<'arena>(
    node: TagWord<'arena>,
    toks: Seq<Token>,
    pos: nat,
) -> bool
    decreases rest(toks, pos), 25nat,
{
    match node {
        TagWord::Ki(field_0, field_1) => match spec_word(toks, pos, Selmaho::Ki) {
            Outcome::Matched(n1) => {
                &&& is_word(field_0, toks, pos, Selmaho::Ki)
                &&& match spec_frees(toks, pos + n1) {
                        Outcome::Matched(_) => is_frees(field_1, toks, pos + n1),
                        _ => false,
                    }
            },
            _ => false,
        },
        _ => false,
    }
}

/// What [`is_tag_word_ki`] says.
pub proof fn lemma_is_tag_word_ki<'arena>(node: TagWord<'arena>, toks: Seq<Token>, pos: nat)
    ensures
        is_tag_word_ki(node, toks, pos) == (
            match node {
                TagWord::Ki(field_0, field_1) => match spec_word(toks, pos, Selmaho::Ki) {
                    Outcome::Matched(n1) => {
                        &&& is_word(field_0, toks, pos, Selmaho::Ki)
                        &&& match spec_frees(toks, pos + n1) {
                                Outcome::Matched(_) => is_frees(field_1, toks, pos + n1),
                                _ => false,
                            }
                    },
                    _ => false,
                },
                _ => false,
            }
        ),
{
    reveal(is_tag_word_ki);
    reveal(is_word);
    reveal(is_frees);
}

/// Whether `node` is the node that `TagWordCuhe` makes of the tokens at `pos`.
#[verifier::opaque]
pub closed spec fn is_tag_word_cuhe<'arena>(
    node: TagWord<'arena>,
    toks: Seq<Token>,
    pos: nat,
) -> bool
    decreases rest(toks, pos), 25nat,
{
    match node {
        TagWord::Cuhe(field_0, field_1) => match spec_word(toks, pos, Selmaho::Cuhe) {
            Outcome::Matched(n1) => {
                &&& is_word(field_0, toks, pos, Selmaho::Cuhe)
                &&& match spec_frees(toks, pos + n1) {
                        Outcome::Matched(_) => is_frees(field_1, toks, pos + n1),
                        _ => false,
                    }
            },
            _ => false,
        },
        _ => false,
    }
}

/// What [`is_tag_word_cuhe`] says.
pub proof fn lemma_is_tag_word_cuhe<'arena>(node: TagWord<'arena>, toks: Seq<Token>, pos: nat)
    ensures
        is_tag_word_cuhe(node, toks, pos) == (
            match node {
                TagWord::Cuhe(field_0, field_1) => match spec_word(toks, pos, Selmaho::Cuhe) {
                    Outcome::Matched(n1) => {
                        &&& is_word(field_0, toks, pos, Selmaho::Cuhe)
                        &&& match spec_frees(toks, pos + n1) {
                                Outcome::Matched(_) => is_frees(field_1, toks, pos + n1),
                                _ => false,
                            }
                    },
                    _ => false,
                },
                _ => false,
            }
        ),
{
    reveal(is_tag_word_cuhe);
    reveal(is_word);
    reveal(is_frees);
}

/// Whether `node` is the node that `TagWordConverted` makes of the tokens at `pos`.
#[verifier::opaque]
pub closed spec fn is_tag_word_converted<'arena>(
    node: TagWord<'arena>,
    toks: Seq<Token>,
    pos: nat,
) -> bool
    decreases rest(toks, pos), 25nat,
{
    match node {
        TagWord::Converted(
            field_0,
            field_1,
            field_2,
            field_3,
        ) => match spec_word_with_free(toks, pos, Selmaho::Fiho) {
            Outcome::Matched(n1) => {
                &&& is_word_with_free(field_0, toks, pos, Selmaho::Fiho)
                &&& match spec_selbri(toks, pos + n1) {
                        Outcome::Matched(n2) => {
                            &&& advanced(toks, pos, n1)
                            &&& is_selbri(field_1, toks, pos + n1)
                            &&& match spec_opt(spec_word(toks, pos + n1 + n2, Selmaho::Fehu)) {
                                    Outcome::Matched(n3) => {
                                        &&& (match field_2 {
                                                Some(inner) => {
                                                    &&& spec_word(
                                                        toks,
                                                        pos + n1 + n2,
                                                        Selmaho::Fehu,
                                                    ) is Matched
                                                    &&& is_word(
                                                        inner,
                                                        toks,
                                                        pos + n1 + n2,
                                                        Selmaho::Fehu,
                                                    )
                                                },
                                                None => spec_word(
                                                    toks,
                                                    pos + n1 + n2,
                                                    Selmaho::Fehu,
                                                ) is Error,
                                            })
                                        &&& match spec_frees(toks, pos + n1 + n2 + n3) {
                                                Outcome::Matched(_) => is_frees(
                                                    field_3,
                                                    toks,
                                                    pos + n1 + n2 + n3,
                                                ),
                                                _ => false,
                                            }
                                    },
                                    _ => false,
                                }
                        },
                        _ => false,
                    }
            },
            _ => false,
        },
        _ => false,
    }
}

/// What [`is_tag_word_converted`] says.
pub proof fn lemma_is_tag_word_converted<'arena>(
    node: TagWord<'arena>,
    toks: Seq<Token>,
    pos: nat,
)
    ensures
        is_tag_word_converted(node, toks, pos) == (
            match node {
                TagWord::Converted(
                    field_0,
                    field_1,
                    field_2,
                    field_3,
                ) => match spec_word_with_free(toks, pos, Selmaho::Fiho) {
                    Outcome::Matched(n1) => {
                        &&& is_word_with_free(field_0, toks, pos, Selmaho::Fiho)
                        &&& match spec_selbri(toks, pos + n1) {
                                Outcome::Matched(n2) => {
                                    &&& advanced(toks, pos, n1)
                                    &&& is_selbri(field_1, toks, pos + n1)
                                    &&& match spec_opt(
                                        spec_word(toks, pos + n1 + n2, Selmaho::Fehu),
                                    ) {
                                            Outcome::Matched(n3) => {
                                                &&& (match field_2 {
                                                        Some(inner) => {
                                                            &&& spec_word(
                                                                toks,
                                                                pos + n1 + n2,
                                                                Selmaho::Fehu,
                                                            ) is Matched
                                                            &&& is_word(
                                                                inner,
                                                                toks,
                                                                pos + n1 + n2,
                                                                Selmaho::Fehu,
                                                            )
                                                        },
                                                        None => spec_word(
                                                            toks,
                                                            pos + n1 + n2,
                                                            Selmaho::Fehu,
                                                        ) is Error,
                                                    })
                                                &&& match spec_frees(toks, pos + n1 + n2 + n3) {
                                                        Outcome::Matched(_) => is_frees(
                                                            field_3,
                                                            toks,
                                                            pos + n1 + n2 + n3,
                                                        ),
                                                        _ => false,
                                                    }
                                            },
                                            _ => false,
                                        }
                                },
                                _ => false,
                            }
                    },
                    _ => false,
                },
                _ => false,
            }
        ),
{
    reveal(is_tag_word_converted);
    reveal(is_word_with_free);
    reveal(is_selbri);
    reveal(is_word);
    reveal(is_frees);
}

/// Whether `node` is the node that `Selbri` makes of the tokens at `pos`.
#[verifier::opaque]
pub closed spec fn is_selbri<'arena>(node: Selbri<'arena>, toks: Seq<Token>, pos: nat) -> bool
    decreases rest(toks, pos), 88nat,
{
    match spec_many0_selbri_before(toks, pos) {
        Outcome::Matched(n1) => {
            &&& is_row_of_selbri_before(node.before@, toks, pos)
            &&& match spec_selbri_1(toks, pos + n1) {
                    Outcome::Matched(_) => is_selbri_1(node.components, toks, pos + n1),
                    _ => false,
                }
        },
        _ => false,
    }
}

/// What [`is_selbri`] says.
pub proof fn lemma_is_selbri<'arena>(node: Selbri<'arena>, toks: Seq<Token>, pos: nat)
    ensures
        is_selbri(node, toks, pos) == (
            match spec_many0_selbri_before(toks, pos) {
                Outcome::Matched(n1) => {
                    &&& is_row_of_selbri_before(node.before@, toks, pos)
                    &&& match spec_selbri_1(toks, pos + n1) {
                            Outcome::Matched(_) => is_selbri_1(node.components, toks, pos + n1),
                            _ => false,
                        }
                },
                _ => false,
            }
        ),
{
    reveal(is_selbri);
    reveal(is_row_of_selbri_before);
    reveal(is_selbri_1);
}

/// Whether `node` is the node that `SelbriBefore` makes of the tokens at `pos`: the
/// node of the first alternative that matches.
#[verifier::opaque]
pub closed spec fn is_selbri_before<'arena>(
    node: SelbriBefore<'arena>,
    toks: Seq<Token>,
    pos: nat,
) -> bool
    decreases rest(toks, pos), 33nat,
{
    match spec_selbri_before_na(toks, pos) {
        Outcome::Matched(_) => is_selbri_before_na(node, toks, pos),
        Outcome::Error(
            _,
        ) => spec_selbri_before_tag(
            toks,
            pos,
        ) is Matched && is_selbri_before_tag(node, toks, pos),
        Outcome::Failure(_) => false,
    }
}

/// What [`is_selbri_before`] says.
pub proof fn lemma_is_selbri_before<'arena>(toks: Seq<Token>, pos: nat)
    ensures
        forall|node: SelbriBefore<'arena>| #[trigger] is_selbri_before(node, toks, pos) == (
            match spec_selbri_before_na(toks, pos) {
                Outcome::Matched(_) => is_selbri_before_na(node, toks, pos),
                Outcome::Error(
                    _,
                ) => spec_selbri_before_tag(
                    toks,
                    pos,
                ) is Matched && is_selbri_before_tag(node, toks, pos),
                Outcome::Failure(_) => false,
            }
        ),
{
    reveal(is_selbri_before);
    reveal(is_selbri_before_na);
    reveal(is_selbri_before_tag);
}

/// How many tokens the first `count` of a row of `SelbriBefore` take at `pos`.
pub open spec fn run_of_selbri_before(toks: Seq<Token>, pos: nat, count: nat) -> nat
    decreases count,
{
    if count == 0 {
        0
    } else {
        let before = run_of_selbri_before(toks, pos, (count - 1) as nat);
        before + (match spec_selbri_before(toks, pos + before) {
            Outcome::Matched(len) => len,
            _ => 0,
        })
    }
}

/// Whether `items` are the nodes of a row of `SelbriBefore` at `pos`: each is the
/// node of the `SelbriBefore` at its place, and no further one follows them.
#[verifier::opaque]
pub closed spec fn is_row_of_selbri_before<'arena>(
    items: Seq<SelbriBefore<'arena>>,
    toks: Seq<Token>,
    pos: nat,
) -> bool
    decreases rest(toks, pos), 34nat,
{
    &&& forall|i: int|
        #![trigger items[i]]
        #![trigger run_of_selbri_before(toks, pos, i as nat)]
        0 <= i < items.len() ==> spec_selbri_before(
            toks,
            pos + run_of_selbri_before(toks, pos, i as nat),
        ) is Matched && is_selbri_before(
            items[i],
            toks,
            pos + run_of_selbri_before(toks, pos, i as nat),
        )
    &&& !(spec_selbri_before(toks, pos + run_of_selbri_before(toks, pos, items.len())) is Matched)
}

/// What [`is_row_of_selbri_before`] says.
pub proof fn lemma_is_row_of_selbri_before<'arena>(
    items: Seq<SelbriBefore<'arena>>,
    toks: Seq<Token>,
    pos: nat,
)
    ensures
        is_row_of_selbri_before(items, toks, pos) == ({
            &&& forall|i: int|
                #![trigger items[i]]
                #![trigger run_of_selbri_before(toks, pos, i as nat)]
                0 <= i < items.len() ==> spec_selbri_before(
                    toks,
                    pos + run_of_selbri_before(toks, pos, i as nat),
                ) is Matched && is_selbri_before(
                    items[i],
                    toks,
                    pos + run_of_selbri_before(toks, pos, i as nat),
                )
            &&& !(spec_selbri_before(
                toks,
                pos + run_of_selbri_before(toks, pos, items.len()),
            ) is Matched)
        }),
{
    reveal(is_row_of_selbri_before);
    reveal(is_selbri_before);
}

/// Whether `node` is the node that `SelbriBeforeNa` makes of the tokens at `pos`.
#[verifier::opaque]
pub closed spec fn is_selbri_before_na<'arena>(
    node: SelbriBefore<'arena>,
    toks: Seq<Token>,
    pos: nat,
) -> bool
    decreases rest(toks, pos), 4nat,
{
    match node {
        SelbriBefore::Na(field_0) => match spec_word_with_free(toks, pos, Selmaho::Na) {
            Outcome::Matched(_) => is_word_with_free(field_0, toks, pos, Selmaho::Na),
            _ => false,
        },
        _ => false,
    }
}

/// What [`is_selbri_before_na`] says.
pub proof fn lemma_is_selbri_before_na<'arena>(
    node: SelbriBefore<'arena>,
    toks: Seq<Token>,
    pos: nat,
)
    ensures
        is_selbri_before_na(node, toks, pos) == (
            match node {
                SelbriBefore::Na(field_0) => match spec_word_with_free(toks, pos, Selmaho::Na) {
                    Outcome::Matched(_) => is_word_with_free(field_0, toks, pos, Selmaho::Na),
                    _ => false,
                },
                _ => false,
            }
        ),
{
    reveal(is_selbri_before_na);
    reveal(is_word_with_free);
}

/// Whether `node` is the node that `SelbriBeforeTag` makes of the tokens at `pos`.
#[verifier::opaque]
pub closed spec fn is_selbri_before_tag<'arena>(
    node: SelbriBefore<'arena>,
    toks: Seq<Token>,
    pos: nat,
) -> bool
    decreases rest(toks, pos), 32nat,
{
    match node {
        SelbriBefore::Tag(field_0) => match spec_tag_words(toks, pos) {
            Outcome::Matched(_) => is_tag_words(field_0, toks, pos),
            _ => false,
        },
        _ => false,
    }
}

/// What [`is_selbri_before_tag`] says.
pub proof fn lemma_is_selbri_before_tag<'arena>(
    node: SelbriBefore<'arena>,
    toks: Seq<Token>,
    pos: nat,
)
    ensures
        is_selbri_before_tag(node, toks, pos) == (
            match node {
                SelbriBefore::Tag(field_0) => match spec_tag_words(toks, pos) {
                    Outcome::Matched(_) => is_tag_words(field_0, toks, pos),
                    _ => false,
                },
                _ => false,
            }
        ),
{
    reveal(is_selbri_before_tag);
    reveal(is_tag_words);
}

/// Whether `node` is the node that `Selbri1` makes of the tokens at `pos`.
#[verifier::opaque]
pub closed spec fn is_selbri_1<'arena>(node: Selbri1<'arena>, toks: Seq<Token>, pos: nat) -> bool
    decreases rest(toks, pos), 87nat,
{
    match spec_selbri_2_list(toks, pos) {
        Outcome::Matched(_) => is_selbri_2_list(node.0, toks, pos),
        _ => false,
    }
}

/// What [`is_selbri_1`] says.
pub proof fn lemma_is_selbri_1<'arena>(node: Selbri1<'arena>, toks: Seq<Token>, pos: nat)
    ensures
        is_selbri_1(node, toks, pos) == (
            match spec_selbri_2_list(toks, pos) {
                Outcome::Matched(_) => is_selbri_2_list(node.0, toks, pos),
                _ => false,
            }
        ),
{
    reveal(is_selbri_1);
    reveal(is_selbri_2_list);
}

/// Whether `node` is the node that `Selbri2List` makes of the tokens at `pos`.
#[verifier::opaque]
pub closed spec fn is_selbri_2_list<'arena>(
    node: Separated<'arena, Selbri2<'arena>, WithFree<'arena, Word<'arena>>>,
    toks: Seq<Token>,
    pos: nat,
) -> bool
    decreases rest(toks, pos), 86nat,
{
    match spec_selbri_2(toks, pos) {
        Outcome::Matched(n1) => {
            &&& is_selbri_2(*node.first, toks, pos)
            &&& match spec_many0_selbri_2_list_next(toks, pos + n1) {
                    Outcome::Matched(_) => is_row_of_selbri_2_list_next(
                        node.rest@,
                        toks,
                        pos + n1,
                    ),
                    _ => false,
                }
        },
        _ => false,
    }
}

/// What [`is_selbri_2_list`] says.
pub proof fn lemma_is_selbri_2_list<'arena>(
    node: Separated<'arena, Selbri2<'arena>, WithFree<'arena, Word<'arena>>>,
    toks: Seq<Token>,
    pos: nat,
)
    ensures
        is_selbri_2_list(node, toks, pos) == (
            match spec_selbri_2(toks, pos) {
                Outcome::Matched(n1) => {
                    &&& is_selbri_2(*node.first, toks, pos)
                    &&& match spec_many0_selbri_2_list_next(toks, pos + n1) {
                            Outcome::Matched(_) => is_row_of_selbri_2_list_next(
                                node.rest@,
                                toks,
                                pos + n1,
                            ),
                            _ => false,
                        }
                },
                _ => false,
            }
        ),
{
    reveal(is_selbri_2_list);
    reveal(is_selbri_2);
    reveal(is_row_of_selbri_2_list_next);
}

/// Whether `node` is the node that `Selbri2` makes of the tokens at `pos`.
#[verifier::opaque]
pub closed spec fn is_selbri_2<'arena>(node: Selbri2<'arena>, toks: Seq<Token>, pos: nat) -> bool
    decreases rest(toks, pos), 83nat,
{
    match spec_many1_selbri_3(toks, pos) {
        Outcome::Matched(_) => is_row_of_selbri_3(node.0@, toks, pos),
        _ => false,
    }
}

/// What [`is_selbri_2`] says.
pub proof fn lemma_is_selbri_2<'arena>(node: Selbri2<'arena>, toks: Seq<Token>, pos: nat)
    ensures
        is_selbri_2(node, toks, pos) == (
            match spec_many1_selbri_3(toks, pos) {
                Outcome::Matched(_) => is_row_of_selbri_3(node.0@, toks, pos),
                _ => false,
            }
        ),
{
    reveal(is_selbri_2);
    reveal(is_row_of_selbri_3);
}

/// Whether `node` is the node that `Selbri3` makes of the tokens at `pos`.
#[verifier::opaque]
pub closed spec fn is_selbri_3<'arena>(node: Selbri3<'arena>, toks: Seq<Token>, pos: nat) -> bool
    decreases rest(toks, pos), 81nat,
{
    match spec_selbri_4(toks, pos) {
        Outcome::Matched(n1) => {
            &&& is_selbri_4(node.0, toks, pos)
            &&& match spec_many0_selbri_3_connected_post(toks, pos + n1) {
                    Outcome::Matched(_) => is_row_of_selbri_3_connected_post(
                        node.1@,
                        toks,
                        pos + n1,
                    ),
                    _ => false,
                }
        },
        _ => false,
    }
}

/// What [`is_selbri_3`] says.
pub proof fn lemma_is_selbri_3<'arena>(node: Selbri3<'arena>, toks: Seq<Token>, pos: nat)
    ensures
        is_selbri_3(node, toks, pos) == (
            match spec_selbri_4(toks, pos) {
                Outcome::Matched(n1) => {
                    &&& is_selbri_4(node.0, toks, pos)
                    &&& match spec_many0_selbri_3_connected_post(toks, pos + n1) {
                            Outcome::Matched(_) => is_row_of_selbri_3_connected_post(
                                node.1@,
                                toks,
                                pos + n1,
                            ),
                            _ => false,
                        }
                },
                _ => false,
            }
        ),
{
    reveal(is_selbri_3);
    reveal(is_selbri_4);
    reveal(is_row_of_selbri_3_connected_post);
}

/// How many tokens the first `count` of a row of `Selbri3` take at `pos`.
pub open spec fn run_of_selbri_3(toks: Seq<Token>, pos: nat, count: nat) -> nat
    decreases count,
{
    if count == 0 {
        0
    } else {
        let before = run_of_selbri_3(toks, pos, (count - 1) as nat);
        before + (match spec_selbri_3(toks, pos + before) {
            Outcome::Matched(len) => len,
            _ => 0,
        })
    }
}

/// Whether `items` are the nodes of a row of `Selbri3` at `pos`: each is the
/// node of the `Selbri3` at its place, and no further one follows them.
#[verifier::opaque]
pub closed spec fn is_row_of_selbri_3<'arena>(
    items: Seq<Selbri3<'arena>>,
    toks: Seq<Token>,
    pos: nat,
) -> bool
    decreases rest(toks, pos), 82nat,
{
    &&& forall|i: int|
        #![trigger items[i]]
        #![trigger run_of_selbri_3(toks, pos, i as nat)]
        0 <= i < items.len() ==> spec_selbri_3(
            toks,
            pos + run_of_selbri_3(toks, pos, i as nat),
        ) is Matched && is_selbri_3(items[i], toks, pos + run_of_selbri_3(toks, pos, i as nat))
    &&& !(spec_selbri_3(toks, pos + run_of_selbri_3(toks, pos, items.len())) is Matched)
}

/// What [`is_row_of_selbri_3`] says.
pub proof fn lemma_is_row_of_selbri_3<'arena>(
    items: Seq<Selbri3<'arena>>,
    toks: Seq<Token>,
    pos: nat,
)
    ensures
        is_row_of_selbri_3(items, toks, pos) == ({
            &&& forall|i: int|
                #![trigger items[i]]
                #![trigger run_of_selbri_3(toks, pos, i as nat)]
                0 <= i < items.len() ==> spec_selbri_3(
                    toks,
                    pos + run_of_selbri_3(toks, pos, i as nat),
                ) is Matched && is_selbri_3(
                    items[i],
                    toks,
                    pos + run_of_selbri_3(toks, pos, i as nat),
                )
            &&& !(spec_selbri_3(toks, pos + run_of_selbri_3(toks, pos, items.len())) is Matched)
        }),
{
    reveal(is_row_of_selbri_3);
    reveal(is_selbri_3);
}

/// Whether `node` is the node that `Selbri4` makes of the tokens at `pos`.
#[verifier::opaque]
pub closed spec fn is_selbri_4<'arena>(node: Selbri4<'arena>, toks: Seq<Token>, pos: nat) -> bool
    decreases rest(toks, pos), 77nat,
{
    match spec_selbri_5_list(toks, pos) {
        Outcome::Matched(_) => is_selbri_5_list(node.0, toks, pos),
        _ => false,
    }
}

/// What [`is_selbri_4`] says.
pub proof fn lemma_is_selbri_4<'arena>(node: Selbri4<'arena>, toks: Seq<Token>, pos: nat)
    ensures
        is_selbri_4(node, toks, pos) == (
            match spec_selbri_5_list(toks, pos) {
                Outcome::Matched(_) => is_selbri_5_list(node.0, toks, pos),
                _ => false,
            }
        ),
{
    reveal(is_selbri_4);
    reveal(is_selbri_5_list);
}

/// Whether `node` is the node that `Selbri5List` makes of the tokens at `pos`.
#[verifier::opaque]
pub closed spec fn is_selbri_5_list<'arena>(
    node: Separated<'arena, Selbri5<'arena>, (JoikJek<'arena>, Option<TagWords<'arena>>, Word<'arena>, Frees<'arena>)>,
    toks: Seq<Token>,
    pos: nat,
) -> bool
    decreases rest(toks, pos), 76nat,
{
    match spec_selbri_5(toks, pos) {
        Outcome::Matched(n1) => {
            &&& is_selbri_5(*node.first, toks, pos)
            &&& match spec_many0_selbri_5_list_next(toks, pos + n1) {
                    Outcome::Matched(_) => is_row_of_selbri_5_list_next(
                        node.rest@,
                        toks,
                        pos + n1,
                    ),
                    _ => false,
                }
        },
        _ => false,
    }
}

/// What [`is_selbri_5_list`] says.
pub proof fn lemma_is_selbri_5_list<'arena>(
    node: Separated<'arena, Selbri5<'arena>, (JoikJek<'arena>, Option<TagWords<'arena>>, Word<'arena>, Frees<'arena>)>,
    toks: Seq<Token>,
    pos: nat,
)
    ensures
        is_selbri_5_list(node, toks, pos) == (
            match spec_selbri_5(toks, pos) {
                Outcome::Matched(n1) => {
                    &&& is_selbri_5(*node.first, toks, pos)
                    &&& match spec_many0_selbri_5_list_next(toks, pos + n1) {
                            Outcome::Matched(_) => is_row_of_selbri_5_list_next(
                                node.rest@,
                                toks,
                                pos + n1,
                            ),
                            _ => false,
                        }
                },
                _ => false,
            }
        ),
{
    reveal(is_selbri_5_list);
    reveal(is_selbri_5);
    reveal(is_row_of_selbri_5_list_next);
}

/// Whether `node` is the node that `Selbri5` makes of the tokens at `pos`.
#[verifier::opaque]
pub closed spec fn is_selbri_5<'arena>(node: Selbri5<'arena>, toks: Seq<Token>, pos: nat) -> bool
    decreases rest(toks, pos), 73nat,
{
    match spec_many0_selbri_guhek(toks, pos) {
        Outcome::Matched(n1) => {
            &&& is_row_of_selbri_guhek(node.0@, toks, pos)
            &&& match spec_selbri_6(toks, pos + n1) {
                    Outcome::Matched(_) => is_selbri_6(node.1, toks, pos + n1),
                    _ => false,
                }
        },
        _ => false,
    }
}

/// What [`is_selbri_5`] says.
pub proof fn lemma_is_selbri_5<'arena>(node: Selbri5<'arena>, toks: Seq<Token>, pos: nat)
    ensures
        is_selbri_5(node, toks, pos) == (
            match spec_many0_selbri_guhek(toks, pos) {
                Outcome::Matched(n1) => {
                    &&& is_row_of_selbri_guhek(node.0@, toks, pos)
                    &&& match spec_selbri_6(toks, pos + n1) {
                            Outcome::Matched(_) => is_selbri_6(node.1, toks, pos + n1),
                            _ => false,
                        }
                },
                _ => false,
            }
        ),
{
    reveal(is_selbri_5);
    reveal(is_row_of_selbri_guhek);
    reveal(is_selbri_6);
}

/// Whether `node` is the node that `SelbriGuhek` makes of the tokens at `pos`.
#[verifier::opaque]
pub closed spec fn is_selbri_guhek<'arena>(
    node: NaheGuhekTGik<'arena, Selbri<'arena>>,
    toks: Seq<Token>,
    pos: nat,
) -> bool
    decreases rest(toks, pos), 26nat,
{
    match spec_opt(spec_word(toks, pos, Selmaho::Nahe)) {
        Outcome::Matched(n1) => {
            &&& (match node.0 {
                    Some(inner) => {
                        &&& spec_word(toks, pos, Selmaho::Nahe) is Matched
                        &&& is_word(inner, toks, pos, Selmaho::Nahe)
                    },
                    None => spec_word(toks, pos, Selmaho::Nahe) is Error,
                })
            &&& match spec_frees(toks, pos + n1) {
                    Outcome::Matched(n2) => {
                        &&& is_frees(node.1, toks, pos + n1)
                        &&& match spec_guhek(toks, pos + n1 + n2) {
                                Outcome::Matched(n3) => {
                                    &&& is_guhek(node.2, toks, pos + n1 + n2)
                                    &&& match spec_selbri(toks, pos + n1 + n2 + n3) {
                                            Outcome::Matched(n4) => {
                                                &&& advanced(toks, pos, n1 + n2 + n3)
                                                &&& is_selbri(node.3, toks, pos + n1 + n2 + n3)
                                                &&& match spec_gik(
                                                    toks,
                                                    pos + n1 + n2 + n3 + n4,
                                                ) {
                                                        Outcome::Matched(_) => is_gik(
                                                            node.4,
                                                            toks,
                                                            pos + n1 + n2 + n3 + n4,
                                                        ),
                                                        _ => false,
                                                    }
                                            },
                                            _ => false,
                                        }
                                },
                                _ => false,
                            }
                    },
                    _ => false,
                }
        },
        _ => false,
    }
}

/// What [`is_selbri_guhek`] says.
pub proof fn lemma_is_selbri_guhek<'arena>(
    node: NaheGuhekTGik<'arena, Selbri<'arena>>,
    toks: Seq<Token>,
    pos: nat,
)
    ensures
        is_selbri_guhek(node, toks, pos) == (
            match spec_opt(spec_word(toks, pos, Selmaho::Nahe)) {
                Outcome::Matched(n1) => {
                    &&& (match node.0 {
                            Some(inner) => {
                                &&& spec_word(toks, pos, Selmaho::Nahe) is Matched
                                &&& is_word(inner, toks, pos, Selmaho::Nahe)
                            },
                            None => spec_word(toks, pos, Selmaho::Nahe) is Error,
                        })
                    &&& match spec_frees(toks, pos + n1) {
                            Outcome::Matched(n2) => {
                                &&& is_frees(node.1, toks, pos + n1)
                                &&& match spec_guhek(toks, pos + n1 + n2) {
                                        Outcome::Matched(n3) => {
                                            &&& is_guhek(node.2, toks, pos + n1 + n2)
                                            &&& match spec_selbri(toks, pos + n1 + n2 + n3) {
                                                    Outcome::Matched(n4) => {
                                                        &&& advanced(toks, pos, n1 + n2 + n3)
                                                        &&& is_selbri(
                                                            node.3,
                                                            toks,
                                                            pos + n1 + n2 + n3,
                                                        )
                                                        &&& match spec_gik(
                                                            toks,
                                                            pos + n1 + n2 + n3 + n4,
                                                        ) {
                                                                Outcome::Matched(_) => is_gik(
                                                                    node.4,
                                                                    toks,
                                                                    pos + n1 + n2 + n3 + n4,
                                                                ),
                                                                _ => false,
                                                            }
                                                    },
                                                    _ => false,
                                                }
                                        },
                                        _ => false,
                                    }
                            },
                            _ => false,
                        }
                },
                _ => false,
            }
        ),
{
    reveal(is_selbri_guhek);
    reveal(is_word);
    reveal(is_frees);
    reveal(is_guhek);
    reveal(is_selbri);
    reveal(is_gik);
}

/// How many tokens the first `count` of a row of `SelbriGuhek` take at `pos`.
pub open spec fn run_of_selbri_guhek(toks: Seq<Token>, pos: nat, count: nat) -> nat
    decreases count,
{
    if count == 0 {
        0
    } else {
        let before = run_of_selbri_guhek(toks, pos, (count - 1) as nat);
        before + (match spec_selbri_guhek(toks, pos + before) {
            Outcome::Matched(len) => len,
            _ => 0,
        })
    }
}

/// Whether `items` are the nodes of a row of `SelbriGuhek` at `pos`: each is the
/// node of the `SelbriGuhek` at its place, and no further one follows them.
#[verifier::opaque]
pub closed spec fn is_row_of_selbri_guhek<'arena>(
    items: Seq<NaheGuhekTGik<'arena, Selbri<'arena>>>,
    toks: Seq<Token>,
    pos: nat,
) -> bool
    decreases rest(toks, pos), 27nat,
{
    &&& forall|i: int|
        #![trigger items[i]]
        #![trigger run_of_selbri_guhek(toks, pos, i as nat)]
        0 <= i < items.len() ==> spec_selbri_guhek(
            toks,
            pos + run_of_selbri_guhek(toks, pos, i as nat),
        ) is Matched && is_selbri_guhek(
            items[i],
            toks,
            pos + run_of_selbri_guhek(toks, pos, i as nat),
        )
    &&& !(spec_selbri_guhek(toks, pos + run_of_selbri_guhek(toks, pos, items.len())) is Matched)
}

/// What [`is_row_of_selbri_guhek`] says.
pub proof fn lemma_is_row_of_selbri_guhek<'arena>(
    items: Seq<NaheGuhekTGik<'arena, Selbri<'arena>>>,
    toks: Seq<Token>,
    pos: nat,
)
    ensures
        is_row_of_selbri_guhek(items, toks, pos) == ({
            &&& forall|i: int|
                #![trigger items[i]]
                #![trigger run_of_selbri_guhek(toks, pos, i as nat)]
                0 <= i < items.len() ==> spec_selbri_guhek(
                    toks,
                    pos + run_of_selbri_guhek(toks, pos, i as nat),
                ) is Matched && is_selbri_guhek(
                    items[i],
                    toks,
                    pos + run_of_selbri_guhek(toks, pos, i as nat),
                )
            &&& !(spec_selbri_guhek(
                toks,
                pos + run_of_selbri_guhek(toks, pos, items.len()),
            ) is Matched)
        }),
{
    reveal(is_row_of_selbri_guhek);
    reveal(is_selbri_guhek);
}

/// Whether `node` is the node that `Guhek` makes of the tokens at `pos`.
#[verifier::opaque]
pub closed spec fn is_guhek<'arena>(node: Guhek<'arena>, toks: Seq<Token>, pos: nat) -> bool
    decreases rest(toks, pos), 25nat,
{
    match spec_opt(spec_word(toks, pos, Selmaho::Se)) {
        Outcome::Matched(n1) => {
            &&& (match node.0 {
                    Some(inner) => {
                        &&& spec_word(toks, pos, Selmaho::Se) is Matched
                        &&& is_word(inner, toks, pos, Selmaho::Se)
                    },
                    None => spec_word(toks, pos, Selmaho::Se) is Error,
                })
            &&& match spec_word(toks, pos + n1, Selmaho::Guha) {
                    Outcome::Matched(n2) => {
                        &&& is_word(node.1, toks, pos + n1, Selmaho::Guha)
                        &&& match spec_opt(spec_word(toks, pos + n1 + n2, Selmaho::Nai)) {
                                Outcome::Matched(n3) => {
                                    &&& (match node.2 {
                                            Some(inner) => {
                                                &&& spec_word(
                                                    toks,
                                                    pos + n1 + n2,
                                                    Selmaho::Nai,
                                                ) is Matched
                                                &&& is_word(
                                                    inner,
                                                    toks,
                                                    pos + n1 + n2,
                                                    Selmaho::Nai,
                                                )
                                            },
                                            None => spec_word(
                                                toks,
                                                pos + n1 + n2,
                                                Selmaho::Nai,
                                            ) is Error,
                                        })
                                    &&& match spec_frees(toks, pos + n1 + n2 + n3) {
                                            Outcome::Matched(_) => is_frees(
                                                node.3,
                                                toks,
                                                pos + n1 + n2 + n3,
                                            ),
                                            _ => false,
                                        }
                                },
                                _ => false,
                            }
                    },
                    _ => false,
                }
        },
        _ => false,
    }
}

/// What [`is_guhek`] says.
pub proof fn lemma_is_guhek<'arena>(node: Guhek<'arena>, toks: Seq<Token>, pos: nat)
    ensures
        is_guhek(node, toks, pos) == (
            match spec_opt(spec_word(toks, pos, Selmaho::Se)) {
                Outcome::Matched(n1) => {
                    &&& (match node.0 {
                            Some(inner) => {
                                &&& spec_word(toks, pos, Selmaho::Se) is Matched
                                &&& is_word(inner, toks, pos, Selmaho::Se)
                            },
                            None => spec_word(toks, pos, Selmaho::Se) is Error,
                        })
                    &&& match spec_word(toks, pos + n1, Selmaho::Guha) {
                            Outcome::Matched(n2) => {
                                &&& is_word(node.1, toks, pos + n1, Selmaho::Guha)
                                &&& match spec_opt(spec_word(toks, pos + n1 + n2, Selmaho::Nai)) {
                                        Outcome::Matched(n3) => {
                                            &&& (match node.2 {
                                                    Some(inner) => {
                                                        &&& spec_word(
                                                            toks,
                                                            pos + n1 + n2,
                                                            Selmaho::Nai,
                                                        ) is Matched
                                                        &&& is_word(
                                                            inner,
                                                            toks,
                                                            pos + n1 + n2,
                                                            Selmaho::Nai,
                                                        )
                                                    },
                                                    None => spec_word(
                                                        toks,
                                                        pos + n1 + n2,
                                                        Selmaho::Nai,
                                                    ) is Error,
                                                })
                                            &&& match spec_frees(toks, pos + n1 + n2 + n3) {
                                                    Outcome::Matched(_) => is_frees(
                                                        node.3,
                                                        toks,
                                                        pos + n1 + n2 + n3,
                                                    ),
                                                    _ => false,
                                                }
                                        },
                                        _ => false,
                                    }
                            },
                            _ => false,
                        }
                },
                _ => false,
            }
        ),
{
    reveal(is_guhek);
    reveal(is_word);
    reveal(is_frees);
}

/// Whether `node` is the node that `Gik` makes of the tokens at `pos`.
#[verifier::opaque]
pub closed spec fn is_gik<'arena>(node: Gik<'arena>, toks: Seq<Token>, pos: nat) -> bool
    decreases rest(toks, pos), 25nat,
{
    match spec_word(toks, pos, Selmaho::Gi) {
        Outcome::Matched(n1) => {
            &&& is_word(node.0, toks, pos, Selmaho::Gi)
            &&& match spec_opt(spec_word(toks, pos + n1, Selmaho::Nai)) {
                    Outcome::Matched(n2) => {
                        &&& (match node.1 {
                                Some(inner) => {
                                    &&& spec_word(toks, pos + n1, Selmaho::Nai) is Matched
                                    &&& is_word(inner, toks, pos + n1, Selmaho::Nai)
                                },
                                None => spec_word(toks, pos + n1, Selmaho::Nai) is Error,
                            })
                        &&& match spec_frees(toks, pos + n1 + n2) {
                                Outcome::Matched(_) => is_frees(node.2, toks, pos + n1 + n2),
                                _ => false,
                            }
                    },
                    _ => false,
                }
        },
        _ => false,
    }
}

/// What [`is_gik`] says.
pub proof fn lemma_is_gik<'arena>(node: Gik<'arena>, toks: Seq<Token>, pos: nat)
    ensures
        is_gik(node, toks, pos) == (
            match spec_word(toks, pos, Selmaho::Gi) {
                Outcome::Matched(n1) => {
                    &&& is_word(node.0, toks, pos, Selmaho::Gi)
                    &&& match spec_opt(spec_word(toks, pos + n1, Selmaho::Nai)) {
                            Outcome::Matched(n2) => {
                                &&& (match node.1 {
                                        Some(inner) => {
                                            &&& spec_word(toks, pos + n1, Selmaho::Nai) is Matched
                                            &&& is_word(inner, toks, pos + n1, Selmaho::Nai)
                                        },
                                        None => spec_word(toks, pos + n1, Selmaho::Nai) is Error,
                                    })
                                &&& match spec_frees(toks, pos + n1 + n2) {
                                        Outcome::Matched(_) => is_frees(
                                            node.2,
                                            toks,
                                            pos + n1 + n2,
                                        ),
                                        _ => false,
                                    }
                            },
                            _ => false,
                        }
                },
                _ => false,
            }
        ),
{
    reveal(is_gik);
    reveal(is_word);
    reveal(is_frees);
}

/// Whether `node` is the node that `Selbri6` makes of the tokens at `pos`.
#[verifier::opaque]
pub closed spec fn is_selbri_6<'arena>(node: Selbri6<'arena>, toks: Seq<Token>, pos: nat) -> bool
    decreases rest(toks, pos), 72nat,
{
    match spec_tanru_unit_list(toks, pos) {
        Outcome::Matched(_) => is_tanru_unit_list(node.0, toks, pos),
        _ => false,
    }
}

/// What [`is_selbri_6`] says.
pub proof fn lemma_is_selbri_6<'arena>(node: Selbri6<'arena>, toks: Seq<Token>, pos: nat)
    ensures
        is_selbri_6(node, toks, pos) == (
            match spec_tanru_unit_list(toks, pos) {
                Outcome::Matched(_) => is_tanru_unit_list(node.0, toks, pos),
                _ => false,
            }
        ),
{
    reveal(is_selbri_6);
    reveal(is_tanru_unit_list);
}

/// Whether `node` is the node that `TanruUnitList` makes of the tokens at `pos`.
#[verifier::opaque]
pub closed spec fn is_tanru_unit_list<'arena>(
    node: Separated<'arena, TanruUnit<'arena>, WithFree<'arena, Word<'arena>>>,
    toks: Seq<Token>,
    pos: nat,
) -> bool
    decreases rest(toks, pos), 71nat,
{
    match spec_tanru_unit(toks, pos) {
        Outcome::Matched(n1) => {
            &&& is_tanru_unit(*node.first, toks, pos)
            &&& match spec_many0_tanru_unit_list_next(toks, pos + n1) {
                    Outcome::Matched(_) => is_row_of_tanru_unit_list_next(
                        node.rest@,
                        toks,
                        pos + n1,
                    ),
                    _ => false,
                }
        },
        _ => false,
    }
}

/// What [`is_tanru_unit_list`] says.
pub proof fn lemma_is_tanru_unit_list<'arena>(
    node: Separated<'arena, TanruUnit<'arena>, WithFree<'arena, Word<'arena>>>,
    toks: Seq<Token>,
    pos: nat,
)
    ensures
        is_tanru_unit_list(node, toks, pos) == (
            match spec_tanru_unit(toks, pos) {
                Outcome::Matched(n1) => {
                    &&& is_tanru_unit(*node.first, toks, pos)
                    &&& match spec_many0_tanru_unit_list_next(toks, pos + n1) {
                            Outcome::Matched(_) => is_row_of_tanru_unit_list_next(
                                node.rest@,
                                toks,
                                pos + n1,
                            ),
                            _ => false,
                        }
                },
                _ => false,
            }
        ),
{
    reveal(is_tanru_unit_list);
    reveal(is_tanru_unit);
    reveal(is_row_of_tanru_unit_list_next);
}

/// Whether `node` is the node that `TanruUnit` makes of the tokens at `pos`.
#[verifier::opaque]
pub closed spec fn is_tanru_unit<'arena>(
    node: TanruUnit<'arena>,
    toks: Seq<Token>,
    pos: nat,
) -> bool
    decreases rest(toks, pos), 68nat,
{
    match spec_tanru_unit_1_list(toks, pos) {
        Outcome::Matched(_) => is_tanru_unit_1_list(node.0, toks, pos),
        _ => false,
    }
}

/// What [`is_tanru_unit`] says.
pub proof fn lemma_is_tanru_unit<'arena>(node: TanruUnit<'arena>, toks: Seq<Token>, pos: nat)
    ensures
        is_tanru_unit(node, toks, pos) == (
            match spec_tanru_unit_1_list(toks, pos) {
                Outcome::Matched(_) => is_tanru_unit_1_list(node.0, toks, pos),
                _ => false,
            }
        ),
{
    reveal(is_tanru_unit);
    reveal(is_tanru_unit_1_list);
}

/// Whether `node` is the node that `TanruUnit1List` makes of the tokens at `pos`.
#[verifier::opaque]
pub closed spec fn is_tanru_unit_1_list<'arena>(
    node: Separated<'arena, TanruUnit1<'arena>, WithFree<'arena, Word<'arena>>>,
    toks: Seq<Token>,
    pos: nat,
) -> bool
    decreases rest(toks, pos), 67nat,
{
    match spec_tanru_unit_1(toks, pos) {
        Outcome::Matched(n1) => {
            &&& is_tanru_unit_1(*node.first, toks, pos)
            &&& match spec_many0_tanru_unit_1_list_next(toks, pos + n1) {
                    Outcome::Matched(_) => is_row_of_tanru_unit_1_list_next(
                        node.rest@,
                        toks,
                        pos + n1,
                    ),
                    _ => false,
                }
        },
        _ => false,
    }
}

/// What [`is_tanru_unit_1_list`] says.
pub proof fn lemma_is_tanru_unit_1_list<'arena>(
    node: Separated<'arena, TanruUnit1<'arena>, WithFree<'arena, Word<'arena>>>,
    toks: Seq<Token>,
    pos: nat,
)
    ensures
        is_tanru_unit_1_list(node, toks, pos) == (
            match spec_tanru_unit_1(toks, pos) {
                Outcome::Matched(n1) => {
                    &&& is_tanru_unit_1(*node.first, toks, pos)
                    &&& match spec_many0_tanru_unit_1_list_next(toks, pos + n1) {
                            Outcome::Matched(_) => is_row_of_tanru_unit_1_list_next(
                                node.rest@,
                                toks,
                                pos + n1,
                            ),
                            _ => false,
                        }
                },
                _ => false,
            }
        ),
{
    reveal(is_tanru_unit_1_list);
    reveal(is_tanru_unit_1);
    reveal(is_row_of_tanru_unit_1_list_next);
}

/// Whether `node` is the node that `TanruUnit1` makes of the tokens at `pos`.
#[verifier::opaque]
pub closed spec fn is_tanru_unit_1<'arena>(
    node: TanruUnit1<'arena>,
    toks: Seq<Token>,
    pos: nat,
) -> bool
    decreases rest(toks, pos), 64nat,
{
    match spec_many0_before_tanru_unit(toks, pos) {
        Outcome::Matched(n1) => {
            &&& is_row_of_before_tanru_unit(node.before@, toks, pos)
            &&& match spec_tanru_unit_2(toks, pos + n1) {
                    Outcome::Matched(n2) => {
                        &&& is_tanru_unit_2(node.inner, toks, pos + n1)
                        &&& match spec_opt(spec_bound_arguments(toks, pos + n1 + n2)) {
                                Outcome::Matched(_) => {
                                    &&& (match node.bound_arguments {
                                            Some(inner) => {
                                                &&& spec_bound_arguments(
                                                    toks,
                                                    pos + n1 + n2,
                                                ) is Matched
                                                &&& is_bound_arguments(inner, toks, pos + n1 + n2)
                                            },
                                            None => spec_bound_arguments(
                                                toks,
                                                pos + n1 + n2,
                                            ) is Error,
                                        })
                                },
                                _ => false,
                            }
                    },
                    _ => false,
                }
        },
        _ => false,
    }
}

/// What [`is_tanru_unit_1`] says.
pub proof fn lemma_is_tanru_unit_1<'arena>(node: TanruUnit1<'arena>, toks: Seq<Token>, pos: nat)
    ensures
        is_tanru_unit_1(node, toks, pos) == (
            match spec_many0_before_tanru_unit(toks, pos) {
                Outcome::Matched(n1) => {
                    &&& is_row_of_before_tanru_unit(node.before@, toks, pos)
                    &&& match spec_tanru_unit_2(toks, pos + n1) {
                            Outcome::Matched(n2) => {
                                &&& is_tanru_unit_2(node.inner, toks, pos + n1)
                                &&& match spec_opt(spec_bound_arguments(toks, pos + n1 + n2)) {
                                        Outcome::Matched(_) => {
                                            &&& (match node.bound_arguments {
                                                    Some(inner) => {
                                                        &&& spec_bound_arguments(
                                                            toks,
                                                            pos + n1 + n2,
                                                        ) is Matched
                                                        &&& is_bound_arguments(
                                                            inner,
                                                            toks,
                                                            pos + n1 + n2,
                                                        )
                                                    },
                                                    None => spec_bound_arguments(
                                                        toks,
                                                        pos + n1 + n2,
                                                    ) is Error,
                                                })
                                        },
                                        _ => false,
                                    }
                            },
                            _ => false,
                        }
                },
                _ => false,
            }
        ),
{
    reveal(is_tanru_unit_1);
    reveal(is_row_of_before_tanru_unit);
    reveal(is_tanru_unit_2);
    reveal(is_bound_arguments);
}

/// Whether `node` is the node that `BeforeTanruUnit` makes of the tokens at `pos`: the
/// node of the first alternative that matches.
#[verifier::opaque]
pub closed spec fn is_before_tanru_unit<'arena>(
    node: BeforeTanruUnit<'arena>,
    toks: Seq<Token>,
    pos: nat,
) -> bool
    decreases rest(toks, pos), 33nat,
{
    match spec_before_tanru_unit_jai(toks, pos) {
        Outcome::Matched(_) => is_before_tanru_unit_jai(node, toks, pos),
        Outcome::Error(_) => match spec_before_tanru_unit_nahe(toks, pos) {
            Outcome::Matched(_) => is_before_tanru_unit_nahe(node, toks, pos),
            Outcome::Error(
                _,
            ) => spec_before_tanru_unit_se(
                toks,
                pos,
            ) is Matched && is_before_tanru_unit_se(node, toks, pos),
            Outcome::Failure(_) => false,
        },
        Outcome::Failure(_) => false,
    }
}

/// What [`is_before_tanru_unit`] says.
pub proof fn lemma_is_before_tanru_unit<'arena>(toks: Seq<Token>, pos: nat)
    ensures
        forall|node: BeforeTanruUnit<'arena>| #[trigger] is_before_tanru_unit(
            node,
            toks,
            pos,
        ) == (
            match spec_before_tanru_unit_jai(toks, pos) {
                Outcome::Matched(_) => is_before_tanru_unit_jai(node, toks, pos),
                Outcome::Error(_) => match spec_before_tanru_unit_nahe(toks, pos) {
                    Outcome::Matched(_) => is_before_tanru_unit_nahe(node, toks, pos),
                    Outcome::Error(
                        _,
                    ) => spec_before_tanru_unit_se(
                        toks,
                        pos,
                    ) is Matched && is_before_tanru_unit_se(node, toks, pos),
                    Outcome::Failure(_) => false,
                },
                Outcome::Failure(_) => false,
            }
        ),
{
    reveal(is_before_tanru_unit);
    reveal(is_before_tanru_unit_jai);
    reveal(is_before_tanru_unit_nahe);
    reveal(is_before_tanru_unit_se);
}

/// How many tokens the first `count` of a row of `BeforeTanruUnit` take at `pos`.
pub open spec fn run_of_before_tanru_unit(toks: Seq<Token>, pos: nat, count: nat) -> nat
    decreases count,
{
    if count == 0 {
        0
    } else {
        let before = run_of_before_tanru_unit(toks, pos, (count - 1) as nat);
        before + (match spec_before_tanru_unit(toks, pos + before) {
            Outcome::Matched(len) => len,
            _ => 0,
        })
    }
}

/// Whether `items` are the nodes of a row of `BeforeTanruUnit` at `pos`: each is the
/// node of the `BeforeTanruUnit` at its place, and no further one follows them.
#[verifier::opaque]
pub closed spec fn is_row_of_before_tanru_unit<'arena>(
    items: Seq<BeforeTanruUnit<'arena>>,
    toks: Seq<Token>,
    pos: nat,
) -> bool
    decreases rest(toks, pos), 34nat,
{
    &&& forall|i: int|
        #![trigger items[i]]
        #![trigger run_of_before_tanru_unit(toks, pos, i as nat)]
        0 <= i < items.len() ==> spec_before_tanru_unit(
            toks,
            pos + run_of_before_tanru_unit(toks, pos, i as nat),
        ) is Matched && is_before_tanru_unit(
            items[i],
            toks,
            pos + run_of_before_tanru_unit(toks, pos, i as nat),
        )
    &&& !(spec_before_tanru_unit(
        toks,
        pos + run_of_before_tanru_unit(toks, pos, items.len()),
    ) is Matched)
}

/// What [`is_row_of_before_tanru_unit`] says.
pub proof fn lemma_is_row_of_before_tanru_unit<'arena>(
    items: Seq<BeforeTanruUnit<'arena>>,
    toks: Seq<Token>,
    pos: nat,
)
    ensures
        is_row_of_before_tanru_unit(items, toks, pos) == ({
            &&& forall|i: int|
                #![trigger items[i]]
                #![trigger run_of_before_tanru_unit(toks, pos, i as nat)]
                0 <= i < items.len() ==> spec_before_tanru_unit(
                    toks,
                    pos + run_of_before_tanru_unit(toks, pos, i as nat),
                ) is Matched && is_before_tanru_unit(
                    items[i],
                    toks,
                    pos + run_of_before_tanru_unit(toks, pos, i as nat),
                )
            &&& !(spec_before_tanru_unit(
                toks,
                pos + run_of_before_tanru_unit(toks, pos, items.len()),
            ) is Matched)
        }),
{
    reveal(is_row_of_before_tanru_unit);
    reveal(is_before_tanru_unit);
}

/// Whether `node` is the node that `BeforeTanruUnitJai` makes of the tokens at `pos`.
#[verifier::opaque]
pub closed spec fn is_before_tanru_unit_jai<'arena>(
    node: BeforeTanruUnit<'arena>,
    toks: Seq<Token>,
    pos: nat,
) -> bool
    decreases rest(toks, pos), 32nat,
{
    match node {
        BeforeTanruUnit::Jai { jai, tag } => match spec_word_with_free(toks, pos, Selmaho::Jai) {
            Outcome::Matched(n1) => {
                &&& is_word_with_free(jai, toks, pos, Selmaho::Jai)
                &&& match spec_opt(spec_tag_words(toks, pos + n1)) {
                        Outcome::Matched(_) => {
                            &&& (match tag {
                                    Some(inner) => {
                                        &&& spec_tag_words(toks, pos + n1) is Matched
                                        &&& is_tag_words(inner, toks, pos + n1)
                                    },
                                    None => spec_tag_words(toks, pos + n1) is Error,
                                })
                        },
                        _ => false,
                    }
            },
            _ => false,
        },
        _ => false,
    }
}

/// What [`is_before_tanru_unit_jai`] says.
pub proof fn lemma_is_before_tanru_unit_jai<'arena>(
    node: BeforeTanruUnit<'arena>,
    toks: Seq<Token>,
    pos: nat,
)
    ensures
        is_before_tanru_unit_jai(node, toks, pos) == (
            match node {
                BeforeTanruUnit::Jai { jai, tag } => match spec_word_with_free(
                    toks,
                    pos,
                    Selmaho::Jai,
                ) {
                    Outcome::Matched(n1) => {
                        &&& is_word_with_free(jai, toks, pos, Selmaho::Jai)
                        &&& match spec_opt(spec_tag_words(toks, pos + n1)) {
                                Outcome::Matched(_) => {
                                    &&& (match tag {
                                            Some(inner) => {
                                                &&& spec_tag_words(toks, pos + n1) is Matched
                                                &&& is_tag_words(inner, toks, pos + n1)
                                            },
                                            None => spec_tag_words(toks, pos + n1) is Error,
                                        })
                                },
                                _ => false,
                            }
                    },
                    _ => false,
                },
                _ => false,
            }
        ),
{
    reveal(is_before_tanru_unit_jai);
    reveal(is_word_with_free);
    reveal(is_tag_words);
}

/// Whether `node` is the node that `BeforeTanruUnitNahe` makes of the tokens at `pos`.
#[verifier::opaque]
pub closed spec fn is_before_tanru_unit_nahe<'arena>(
    node: BeforeTanruUnit<'arena>,
    toks: Seq<Token>,
    pos: nat,
) -> bool
    decreases rest(toks, pos), 4nat,
{
    match node {
        BeforeTanruUnit::Nahe(field_0) => match spec_word_with_free(toks, pos, Selmaho::Nahe) {
            Outcome::Matched(_) => is_word_with_free(field_0, toks, pos, Selmaho::Nahe),
            _ => false,
        },
        _ => false,
    }
}

/// What [`is_before_tanru_unit_nahe`] says.
pub proof fn lemma_is_before_tanru_unit_nahe<'arena>(
    node: BeforeTanruUnit<'arena>,
    toks: Seq<Token>,
    pos: nat,
)
    ensures
        is_before_tanru_unit_nahe(node, toks, pos) == (
            match node {
                BeforeTanruUnit::Nahe(
                    field_0,
                ) => match spec_word_with_free(toks, pos, Selmaho::Nahe) {
                    Outcome::Matched(_) => is_word_with_free(field_0, toks, pos, Selmaho::Nahe),
                    _ => false,
                },
                _ => false,
            }
        ),
{
    reveal(is_before_tanru_unit_nahe);
    reveal(is_word_with_free);
}

/// Whether `node` is the node that `BeforeTanruUnitSe` makes of the tokens at `pos`.
#[verifier::opaque]
pub closed spec fn is_before_tanru_unit_se<'arena>(
    node: BeforeTanruUnit<'arena>,
    toks: Seq<Token>,
    pos: nat,
) -> bool
    decreases rest(toks, pos), 4nat,
{
    match node {
        BeforeTanruUnit::Se(field_0) => match spec_word_with_free(toks, pos, Selmaho::Se) {
            Outcome::Matched(_) => is_word_with_free(field_0, toks, pos, Selmaho::Se),
            _ => false,
        },
        _ => false,
    }
}

/// What [`is_before_tanru_unit_se`] says.
pub proof fn lemma_is_before_tanru_unit_se<'arena>(
    node: BeforeTanruUnit<'arena>,
    toks: Seq<Token>,
    pos: nat,
)
    ensures
        is_before_tanru_unit_se(node, toks, pos) == (
            match node {
                BeforeTanruUnit::Se(
                    field_0,
                ) => match spec_word_with_free(toks, pos, Selmaho::Se) {
                    Outcome::Matched(_) => is_word_with_free(field_0, toks, pos, Selmaho::Se),
                    _ => false,
                },
                _ => false,
            }
        ),
{
    reveal(is_before_tanru_unit_se);
    reveal(is_word_with_free);
}

/// Whether `node` is the node that `TanruUnit2` makes of the tokens at `pos`: the
/// node of the first alternative that matches.
#[verifier::opaque]
pub closed spec fn is_tanru_unit_2<'arena>(
    node: TanruUnit2<'arena>,
    toks: Seq<Token>,
    pos: nat,
) -> bool
    decreases rest(toks, pos), 46nat,
{
    match spec_tanru_unit_2_grouped_tanru(toks, pos) {
        Outcome::Matched(_) => is_tanru_unit_2_grouped_tanru(node, toks, pos),
        Outcome::Error(_) => match spec_tanru_unit_2_gismu(toks, pos) {
            Outcome::Matched(_) => is_tanru_unit_2_gismu(node, toks, pos),
            Outcome::Error(_) => match spec_tanru_unit_2_lujvo(toks, pos) {
                Outcome::Matched(_) => is_tanru_unit_2_lujvo(node, toks, pos),
                Outcome::Error(_) => match spec_tanru_unit_2_fuhivla(toks, pos) {
                    Outcome::Matched(_) => is_tanru_unit_2_fuhivla(node, toks, pos),
                    Outcome::Error(_) => match spec_tanru_unit_2_goha(toks, pos) {
                        Outcome::Matched(_) => is_tanru_unit_2_goha(node, toks, pos),
                        Outcome::Error(_) => match spec_tanru_unit_2_moi(toks, pos) {
                            Outcome::Matched(_) => is_tanru_unit_2_moi(node, toks, pos),
                            Outcome::Error(_) => match spec_tanru_unit_2_me(toks, pos) {
                                Outcome::Matched(_) => is_tanru_unit_2_me(node, toks, pos),
                                Outcome::Error(_) => match spec_tanru_unit_2_nu(toks, pos) {
                                    Outcome::Matched(_) => is_tanru_unit_2_nu(node, toks, pos),
                                    Outcome::Error(
                                        _,
                                    ) => spec_tanru_unit_2_nuha(
                                        toks,
                                        pos,
                                    ) is Matched && is_tanru_unit_2_nuha(node, toks, pos),
                                    Outcome::Failure(_) => false,
                                },
                                Outcome::Failure(_) => false,
                            },
                            Outcome::Failure(_) => false,
                        },
                        Outcome::Failure(_) => false,
                    },
                    Outcome::Failure(_) => false,
                },
                Outcome::Failure(_) => false,
            },
            Outcome::Failure(_) => false,
        },
        Outcome::Failure(_) => false,
    }
}

/// What [`is_tanru_unit_2`] says.
pub proof fn lemma_is_tanru_unit_2<'arena>(toks: Seq<Token>, pos: nat)
    ensures
        forall|node: TanruUnit2<'arena>| #[trigger] is_tanru_unit_2(node, toks, pos) == (
            match spec_tanru_unit_2_grouped_tanru(toks, pos) {
                Outcome::Matched(_) => is_tanru_unit_2_grouped_tanru(node, toks, pos),
                Outcome::Error(_) => match spec_tanru_unit_2_gismu(toks, pos) {
                    Outcome::Matched(_) => is_tanru_unit_2_gismu(node, toks, pos),
                    Outcome::Error(_) => match spec_tanru_unit_2_lujvo(toks, pos) {
                        Outcome::Matched(_) => is_tanru_unit_2_lujvo(node, toks, pos),
                        Outcome::Error(_) => match spec_tanru_unit_2_fuhivla(toks, pos) {
                            Outcome::Matched(_) => is_tanru_unit_2_fuhivla(node, toks, pos),
                            Outcome::Error(_) => match spec_tanru_unit_2_goha(toks, pos) {
                                Outcome::Matched(_) => is_tanru_unit_2_goha(node, toks, pos),
                                Outcome::Error(_) => match spec_tanru_unit_2_moi(toks, pos) {
                                    Outcome::Matched(_) => is_tanru_unit_2_moi(node, toks, pos),
                                    Outcome::Error(_) => match spec_tanru_unit_2_me(toks, pos) {
                                        Outcome::Matched(_) => is_tanru_unit_2_me(
                                            node,
                                            toks,
                                            pos,
                                        ),
                                        Outcome::Error(
                                            _,
                                        ) => match spec_tanru_unit_2_nu(toks, pos) {
                                            Outcome::Matched(_) => is_tanru_unit_2_nu(
                                                node,
                                                toks,
                                                pos,
                                            ),
                                            Outcome::Error(
                                                _,
                                            ) => spec_tanru_unit_2_nuha(
                                                toks,
                                                pos,
                                            ) is Matched && is_tanru_unit_2_nuha(node, toks, pos),
                                            Outcome::Failure(_) => false,
                                        },
                                        Outcome::Failure(_) => false,
                                    },
                                    Outcome::Failure(_) => false,
                                },
                                Outcome::Failure(_) => false,
                            },
                            Outcome::Failure(_) => false,
                        },
                        Outcome::Failure(_) => false,
                    },
                    Outcome::Failure(_) => false,
                },
                Outcome::Failure(_) => false,
            }
        ),
{
    reveal(is_tanru_unit_2);
    reveal(is_tanru_unit_2_grouped_tanru);
    reveal(is_tanru_unit_2_gismu);
    reveal(is_tanru_unit_2_lujvo);
    reveal(is_tanru_unit_2_fuhivla);
    reveal(is_tanru_unit_2_goha);
    reveal(is_tanru_unit_2_moi);
    reveal(is_tanru_unit_2_me);
    reveal(is_tanru_unit_2_nu);
    reveal(is_tanru_unit_2_nuha);
}

/// Whether `node` is the node that `TanruUnit2GroupedTanru` makes of the tokens at `pos`.
#[verifier::opaque]
pub closed spec fn is_tanru_unit_2_grouped_tanru<'arena>(
    node: TanruUnit2<'arena>,
    toks: Seq<Token>,
    pos: nat,
) -> bool
    decreases rest(toks, pos), 25nat,
{
    match node {
        TanruUnit2::GroupedTanru { ke, group, kehe, frees } => match spec_word_with_free(
            toks,
            pos,
            Selmaho::Ke,
        ) {
            Outcome::Matched(n1) => {
                &&& is_word_with_free(ke, toks, pos, Selmaho::Ke)
                &&& match spec_selbri_2(toks, pos + n1) {
                        Outcome::Matched(n2) => {
                            &&& advanced(toks, pos, n1)
                            &&& is_selbri_2(group, toks, pos + n1)
                            &&& match spec_opt(spec_word(toks, pos + n1 + n2, Selmaho::Kehe)) {
                                    Outcome::Matched(n3) => {
                                        &&& (match kehe {
                                                Some(inner) => {
                                                    &&& spec_word(
                                                        toks,
                                                        pos + n1 + n2,
                                                        Selmaho::Kehe,
                                                    ) is Matched
                                                    &&& is_word(
                                                        inner,
                                                        toks,
                                                        pos + n1 + n2,
                                                        Selmaho::Kehe,
                                                    )
                                                },
                                                None => spec_word(
                                                    toks,
                                                    pos + n1 + n2,
                                                    Selmaho::Kehe,
                                                ) is Error,
                                            })
                                        &&& match spec_frees(toks, pos + n1 + n2 + n3) {
                                                Outcome::Matched(_) => is_frees(
                                                    frees,
                                                    toks,
                                                    pos + n1 + n2 + n3,
                                                ),
                                                _ => false,
                                            }
                                    },
                                    _ => false,
                                }
                        },
                        _ => false,
                    }
            },
            _ => false,
        },
        _ => false,
    }
}

/// What [`is_tanru_unit_2_grouped_tanru`] says.
pub proof fn lemma_is_tanru_unit_2_grouped_tanru<'arena>(
    node: TanruUnit2<'arena>,
    toks: Seq<Token>,
    pos: nat,
)
    ensures
        is_tanru_unit_2_grouped_tanru(node, toks, pos) == (
            match node {
                TanruUnit2::GroupedTanru { ke, group, kehe, frees } => match spec_word_with_free(
                    toks,
                    pos,
                    Selmaho::Ke,
                ) {
                    Outcome::Matched(n1) => {
                        &&& is_word_with_free(ke, toks, pos, Selmaho::Ke)
                        &&& match spec_selbri_2(toks, pos + n1) {
                                Outcome::Matched(n2) => {
                                    &&& advanced(toks, pos, n1)
                                    &&& is_selbri_2(group, toks, pos + n1)
                                    &&& match spec_opt(
                                        spec_word(toks, pos + n1 + n2, Selmaho::Kehe),
                                    ) {
                                            Outcome::Matched(n3) => {
                                                &&& (match kehe {
                                                        Some(inner) => {
                                                            &&& spec_word(
                                                                toks,
                                                                pos + n1 + n2,
                                                                Selmaho::Kehe,
                                                            ) is Matched
                                                            &&& is_word(
                                                                inner,
                                                                toks,
                                                                pos + n1 + n2,
                                                                Selmaho::Kehe,
                                                            )
                                                        },
                                                        None => spec_word(
                                                            toks,
                                                            pos + n1 + n2,
                                                            Selmaho::Kehe,
                                                        ) is Error,
                                                    })
                                                &&& match spec_frees(toks, pos + n1 + n2 + n3) {
                                                        Outcome::Matched(_) => is_frees(
                                                            frees,
                                                            toks,
                                                            pos + n1 + n2 + n3,
                                                        ),
                                                        _ => false,
                                                    }
                                            },
                                            _ => false,
                                        }
                                },
                                _ => false,
                            }
                    },
                    _ => false,
                },
                _ => false,
            }
        ),
{
    reveal(is_tanru_unit_2_grouped_tanru);
    reveal(is_word_with_free);
    reveal(is_selbri_2);
    reveal(is_word);
    reveal(is_frees);
}

/// Whether `node` is the node that `TanruUnit2Gismu` makes of the tokens at `pos`.
#[verifier::opaque]
pub closed spec fn is_tanru_unit_2_gismu<'arena>(
    node: TanruUnit2<'arena>,
    toks: Seq<Token>,
    pos: nat,
) -> bool
    decreases rest(toks, pos), 4nat,
{
    match node {
        TanruUnit2::Gismu(field_0) => match spec_word_with_free(toks, pos, Selmaho::Gismu) {
            Outcome::Matched(_) => is_word_with_free(field_0, toks, pos, Selmaho::Gismu),
            _ => false,
        },
        _ => false,
    }
}

/// What [`is_tanru_unit_2_gismu`] says.
pub proof fn lemma_is_tanru_unit_2_gismu<'arena>(
    node: TanruUnit2<'arena>,
    toks: Seq<Token>,
    pos: nat,
)
    ensures
        is_tanru_unit_2_gismu(node, toks, pos) == (
            match node {
                TanruUnit2::Gismu(
                    field_0,
                ) => match spec_word_with_free(toks, pos, Selmaho::Gismu) {
                    Outcome::Matched(_) => is_word_with_free(field_0, toks, pos, Selmaho::Gismu),
                    _ => false,
                },
                _ => false,
            }
        ),
{
    reveal(is_tanru_unit_2_gismu);
    reveal(is_word_with_free);
}

/// Whether `node` is the node that `TanruUnit2Lujvo` makes of the tokens at `pos`.
#[verifier::opaque]
pub closed spec fn is_tanru_unit_2_lujvo<'arena>(
    node: TanruUnit2<'arena>,
    toks: Seq<Token>,
    pos: nat,
) -> bool
    decreases rest(toks, pos), 4nat,
{
    match node {
        TanruUnit2::Lujvo(field_0) => match spec_word_with_free(toks, pos, Selmaho::Lujvo) {
            Outcome::Matched(_) => is_word_with_free(field_0, toks, pos, Selmaho::Lujvo),
            _ => false,
        },
        _ => false,
    }
}

/// What [`is_tanru_unit_2_lujvo`] says.
pub proof fn lemma_is_tanru_unit_2_lujvo<'arena>(
    node: TanruUnit2<'arena>,
    toks: Seq<Token>,
    pos: nat,
)
    ensures
        is_tanru_unit_2_lujvo(node, toks, pos) == (
            match node {
                TanruUnit2::Lujvo(
                    field_0,
                ) => match spec_word_with_free(toks, pos, Selmaho::Lujvo) {
                    Outcome::Matched(_) => is_word_with_free(field_0, toks, pos, Selmaho::Lujvo),
                    _ => false,
                },
                _ => false,
            }
        ),
{
    reveal(is_tanru_unit_2_lujvo);
    reveal(is_word_with_free);
}

/// Whether `node` is the node that `TanruUnit2Fuhivla` makes of the tokens at `pos`.
#[verifier::opaque]
pub closed spec fn is_tanru_unit_2_fuhivla<'arena>(
    node: TanruUnit2<'arena>,
    toks: Seq<Token>,
    pos: nat,
) -> bool
    decreases rest(toks, pos), 4nat,
{
    match node {
        TanruUnit2::Fuhivla(field_0) => match spec_word_with_free(toks, pos, Selmaho::Fuhivla) {
            Outcome::Matched(_) => is_word_with_free(field_0, toks, pos, Selmaho::Fuhivla),
            _ => false,
        },
        _ => false,
    }
}

/// What [`is_tanru_unit_2_fuhivla`] says.
pub proof fn lemma_is_tanru_unit_2_fuhivla<'arena>(
    node: TanruUnit2<'arena>,
    toks: Seq<Token>,
    pos: nat,
)
    ensures
        is_tanru_unit_2_fuhivla(node, toks, pos) == (
            match node {
                TanruUnit2::Fuhivla(
                    field_0,
                ) => match spec_word_with_free(toks, pos, Selmaho::Fuhivla) {
                    Outcome::Matched(_) => is_word_with_free(
                        field_0,
                        toks,
                        pos,
                        Selmaho::Fuhivla,
                    ),
                    _ => false,
                },
                _ => false,
            }
        ),
{
    reveal(is_tanru_unit_2_fuhivla);
    reveal(is_word_with_free);
}

/// Whether `node` is the node that `TanruUnit2Goha` makes of the tokens at `pos`.
#[verifier::opaque]
pub closed spec fn is_tanru_unit_2_goha<'arena>(
    node: TanruUnit2<'arena>,
    toks: Seq<Token>,
    pos: nat,
) -> bool
    decreases rest(toks, pos), 25nat,
{
    match node {
        TanruUnit2::Goha { goha, raho, frees } => match spec_word(toks, pos, Selmaho::Goha) {
            Outcome::Matched(n1) => {
                &&& is_word(goha, toks, pos, Selmaho::Goha)
                &&& match spec_opt(spec_word(toks, pos + n1, Selmaho::Raho)) {
                        Outcome::Matched(n2) => {
                            &&& (match raho {
                                    Some(inner) => {
                                        &&& spec_word(toks, pos + n1, Selmaho::Raho) is Matched
                                        &&& is_word(inner, toks, pos + n1, Selmaho::Raho)
                                    },
                                    None => spec_word(toks, pos + n1, Selmaho::Raho) is Error,
                                })
                            &&& match spec_frees(toks, pos + n1 + n2) {
                                    Outcome::Matched(_) => is_frees(frees, toks, pos + n1 + n2),
                                    _ => false,
                                }
                        },
                        _ => false,
                    }
            },
            _ => false,
        },
        _ => false,
    }
}

/// What [`is_tanru_unit_2_goha`] says.
pub proof fn lemma_is_tanru_unit_2_goha<'arena>(
    node: TanruUnit2<'arena>,
    toks: Seq<Token>,
    pos: nat,
)
    ensures
        is_tanru_unit_2_goha(node, toks, pos) == (
            match node {
                TanruUnit2::Goha { goha, raho, frees } => match spec_word(
                    toks,
                    pos,
                    Selmaho::Goha,
                ) {
                    Outcome::Matched(n1) => {
                        &&& is_word(goha, toks, pos, Selmaho::Goha)
                        &&& match spec_opt(spec_word(toks, pos + n1, Selmaho::Raho)) {
                                Outcome::Matched(n2) => {
                                    &&& (match raho {
                                            Some(inner) => {
                                                &&& spec_word(
                                                    toks,
                                                    pos + n1,
                                                    Selmaho::Raho,
                                                ) is Matched
                                                &&& is_word(inner, toks, pos + n1, Selmaho::Raho)
                                            },
                                            None => spec_word(
                                                toks,
                                                pos + n1,
                                                Selmaho::Raho,
                                            ) is Error,
                                        })
                                    &&& match spec_frees(toks, pos + n1 + n2) {
                                            Outcome::Matched(_) => is_frees(
                                                frees,
                                                toks,
                                                pos + n1 + n2,
                                            ),
                                            _ => false,
                                        }
                                },
                                _ => false,
                            }
                    },
                    _ => false,
                },
                _ => false,
            }
        ),
{
    reveal(is_tanru_unit_2_goha);
    reveal(is_word);
    reveal(is_frees);
}

/// Whether `node` is the node that `TanruUnit2Moi` makes of the tokens at `pos`.
#[verifier::opaque]
pub closed spec fn is_tanru_unit_2_moi<'arena>(
    node: TanruUnit2<'arena>,
    toks: Seq<Token>,
    pos: nat,
) -> bool
    decreases rest(toks, pos), 25nat,
{
    match node {
        TanruUnit2::Moi(field_0, field_1, field_2) => match spec_misc_numbers(toks, pos) {
            Outcome::Matched(n1) => {
                &&& is_misc_numbers(field_0, toks, pos)
                &&& match spec_word(toks, pos + n1, Selmaho::Moi) {
                        Outcome::Matched(n2) => {
                            &&& is_word(field_1, toks, pos + n1, Selmaho::Moi)
                            &&& match spec_frees(toks, pos + n1 + n2) {
                                    Outcome::Matched(_) => is_frees(field_2, toks, pos + n1 + n2),
                                    _ => false,
                                }
                        },
                        _ => false,
                    }
            },
            _ => false,
        },
        _ => false,
    }
}

/// What [`is_tanru_unit_2_moi`] says.
pub proof fn lemma_is_tanru_unit_2_moi<'arena>(
    node: TanruUnit2<'arena>,
    toks: Seq<Token>,
    pos: nat,
)
    ensures
        is_tanru_unit_2_moi(node, toks, pos) == (
            match node {
                TanruUnit2::Moi(field_0, field_1, field_2) => match spec_misc_numbers(toks, pos) {
                    Outcome::Matched(n1) => {
                        &&& is_misc_numbers(field_0, toks, pos)
                        &&& match spec_word(toks, pos + n1, Selmaho::Moi) {
                                Outcome::Matched(n2) => {
                                    &&& is_word(field_1, toks, pos + n1, Selmaho::Moi)
                                    &&& match spec_frees(toks, pos + n1 + n2) {
                                            Outcome::Matched(_) => is_frees(
                                                field_2,
                                                toks,
                                                pos + n1 + n2,
                                            ),
                                            _ => false,
                                        }
                                },
                                _ => false,
                            }
                    },
                    _ => false,
                },
                _ => false,
            }
        ),
{
    reveal(is_tanru_unit_2_moi);
    reveal(is_misc_numbers);
    reveal(is_word);
    reveal(is_frees);
}

/// Whether `node` is the node that `MiscNumbers` makes of the tokens at `pos`.
#[verifier::opaque]
pub closed spec fn is_misc_numbers<'arena>(
    node: MiscNumbers<'arena>,
    toks: Seq<Token>,
    pos: nat,
) -> bool
    decreases rest(toks, pos), 16nat,
{
    match spec_many1_number_rest(toks, pos) {
        Outcome::Matched(_) => is_row_of_number_rest(node.0@, toks, pos),
        _ => false,
    }
}

/// What [`is_misc_numbers`] says.
pub proof fn lemma_is_misc_numbers<'arena>(node: MiscNumbers<'arena>, toks: Seq<Token>, pos: nat)
    ensures
        is_misc_numbers(node, toks, pos) == (
            match spec_many1_number_rest(toks, pos) {
                Outcome::Matched(_) => is_row_of_number_rest(node.0@, toks, pos),
                _ => false,
            }
        ),
{
    reveal(is_misc_numbers);
    reveal(is_row_of_number_rest);
}

/// Whether `node` is the node that `TanruUnit2Me` makes of the tokens at `pos`.
#[verifier::opaque]
pub closed spec fn is_tanru_unit_2_me<'arena>(
    node: TanruUnit2<'arena>,
    toks: Seq<Token>,
    pos: nat,
) -> bool
    decreases rest(toks, pos), 45nat,
{
    match node {
        TanruUnit2::Me { me, inner, mehu, frees, moi } => match spec_word_with_free(
            toks,
            pos,
            Selmaho::Me,
        ) {
            Outcome::Matched(n1) => {
                &&& is_word_with_free(me, toks, pos, Selmaho::Me)
                &&& match spec_sumti(toks, pos + n1) {
                        Outcome::Matched(n2) => {
                            &&& is_sumti(inner, toks, pos + n1)
                            &&& match spec_opt(spec_word(toks, pos + n1 + n2, Selmaho::Mehu)) {
                                    Outcome::Matched(n3) => {
                                        &&& (match mehu {
                                                Some(inner) => {
                                                    &&& spec_word(
                                                        toks,
                                                        pos + n1 + n2,
                                                        Selmaho::Mehu,
                                                    ) is Matched
                                                    &&& is_word(
                                                        inner,
                                                        toks,
                                                        pos + n1 + n2,
                                                        Selmaho::Mehu,
                                                    )
                                                },
                                                None => spec_word(
                                                    toks,
                                                    pos + n1 + n2,
                                                    Selmaho::Mehu,
                                                ) is Error,
                                            })
                                        &&& match spec_frees(toks, pos + n1 + n2 + n3) {
                                                Outcome::Matched(n4) => {
                                                    &&& is_frees(frees, toks, pos + n1 + n2 + n3)
                                                    &&& match spec_opt(
                                                        spec_word_with_free(
                                                            toks,
                                                            pos + n1 + n2 + n3 + n4,
                                                            Selmaho::Moi,
                                                        ),
                                                    ) {
                                                            Outcome::Matched(_) => {
                                                                &&& (match moi {
                                                                        Some(inner) => {
                                                                            &&& spec_word_with_free(
                                                                                toks,
                                                                                pos + n1 + n2 + n3 + n4,
                                                                                Selmaho::Moi,
                                                                            ) is Matched
                                                                            &&& is_word_with_free(
                                                                                inner,
                                                                                toks,
                                                                                pos + n1 + n2 + n3 + n4,
                                                                                Selmaho::Moi,
                                                                            )
                                                                        },
                                                                        None => spec_word_with_free(
                                                                            toks,
                                                                            pos + n1 + n2 + n3 + n4,
                                                                            Selmaho::Moi,
                                                                        ) is Error,
                                                                    })
                                                            },
                                                            _ => false,
                                                        }
                                                },
                                                _ => false,
                                            }
                                    },
                                    _ => false,
                                }
                        },
                        _ => false,
                    }
            },
            _ => false,
        },
        _ => false,
    }
}

/// What [`is_tanru_unit_2_me`] says.
pub proof fn lemma_is_tanru_unit_2_me<'arena>(
    node: TanruUnit2<'arena>,
    toks: Seq<Token>,
    pos: nat,
)
    ensures
        is_tanru_unit_2_me(node, toks, pos) == (
            match node {
                TanruUnit2::Me { me, inner, mehu, frees, moi } => match spec_word_with_free(
                    toks,
                    pos,
                    Selmaho::Me,
                ) {
                    Outcome::Matched(n1) => {
                        &&& is_word_with_free(me, toks, pos, Selmaho::Me)
                        &&& match spec_sumti(toks, pos + n1) {
                                Outcome::Matched(n2) => {
                                    &&& is_sumti(inner, toks, pos + n1)
                                    &&& match spec_opt(
                                        spec_word(toks, pos + n1 + n2, Selmaho::Mehu),
                                    ) {
                                            Outcome::Matched(n3) => {
                                                &&& (match mehu {
                                                        Some(inner) => {
                                                            &&& spec_word(
                                                                toks,
                                                                pos + n1 + n2,
                                                                Selmaho::Mehu,
                                                            ) is Matched
                                                            &&& is_word(
                                                                inner,
                                                                toks,
                                                                pos + n1 + n2,
                                                                Selmaho::Mehu,
                                                            )
                                                        },
                                                        None => spec_word(
                                                            toks,
                                                            pos + n1 + n2,
                                                            Selmaho::Mehu,
                                                        ) is Error,
                                                    })
                                                &&& match spec_frees(toks, pos + n1 + n2 + n3) {
                                                        Outcome::Matched(n4) => {
                                                            &&& is_frees(
                                                                frees,
                                                                toks,
                                                                pos + n1 + n2 + n3,
                                                            )
                                                            &&& match spec_opt(
                                                                spec_word_with_free(
                                                                    toks,
                                                                    pos + n1 + n2 + n3 + n4,
                                                                    Selmaho::Moi,
                                                                ),
                                                            ) {
                                                                    Outcome::Matched(_) => {
                                                                        &&& (match moi {
                                                                                Some(inner) => {
                                                                                    &&& spec_word_with_free(
                                                                                        toks,
                                                                                        pos + n1 + n2 + n3 + n4,
                                                                                        Selmaho::Moi,
                                                                                    ) is Matched
                                                                                    &&& is_word_with_free(
                                                                                        inner,
                                                                                        toks,
                                                                                        pos + n1 + n2 + n3 + n4,
                                                                                        Selmaho::Moi,
                                                                                    )
                                                                                },
                                                                                None => spec_word_with_free(
                                                                                    toks,
                                                                                    pos + n1 + n2 + n3 + n4,
                                                                                    Selmaho::Moi,
                                                                                ) is Error,
                                                                            })
                                                                    },
                                                                    _ => false,
                                                                }
                                                        },
                                                        _ => false,
                                                    }
                                            },
                                            _ => false,
                                        }
                                },
                                _ => false,
                            }
                    },
                    _ => false,
                },
                _ => false,
            }
        ),
{
    reveal(is_tanru_unit_2_me);
    reveal(is_word_with_free);
    reveal(is_sumti);
    reveal(is_word);
    reveal(is_frees);
}

/// Whether `node` is the node that `Sumti` makes of the tokens at `pos`.
#[verifier::opaque]
pub closed spec fn is_sumti<'arena>(node: Sumti<'arena>, toks: Seq<Token>, pos: nat) -> bool
    decreases rest(toks, pos), 44nat,
{
    match spec_sumti_1(toks, pos) {
        Outcome::Matched(n1) => {
            &&& is_sumti_1(node.inner, toks, pos)
            &&& match spec_opt(spec_vuho_relative(toks, pos + n1)) {
                    Outcome::Matched(_) => {
                        &&& (match node.vuho_relative {
                                Some(inner) => {
                                    &&& spec_vuho_relative(toks, pos + n1) is Matched
                                    &&& is_vuho_relative(inner, toks, pos + n1)
                                },
                                None => spec_vuho_relative(toks, pos + n1) is Error,
                            })
                    },
                    _ => false,
                }
        },
        _ => false,
    }
}

/// What [`is_sumti`] says.
pub proof fn lemma_is_sumti<'arena>(node: Sumti<'arena>, toks: Seq<Token>, pos: nat)
    ensures
        is_sumti(node, toks, pos) == (
            match spec_sumti_1(toks, pos) {
                Outcome::Matched(n1) => {
                    &&& is_sumti_1(node.inner, toks, pos)
                    &&& match spec_opt(spec_vuho_relative(toks, pos + n1)) {
                            Outcome::Matched(_) => {
                                &&& (match node.vuho_relative {
                                        Some(inner) => {
                                            &&& spec_vuho_relative(toks, pos + n1) is Matched
                                            &&& is_vuho_relative(inner, toks, pos + n1)
                                        },
                                        None => spec_vuho_relative(toks, pos + n1) is Error,
                                    })
                            },
                            _ => false,
                        }
                },
                _ => false,
            }
        ),
{
    reveal(is_sumti);
    reveal(is_sumti_1);
    reveal(is_vuho_relative);
}

/// Whether `node` is the node that `Sumti1` makes of the tokens at `pos`.
#[verifier::opaque]
pub closed spec fn is_sumti_1<'arena>(node: Sumti1<'arena>, toks: Seq<Token>, pos: nat) -> bool
    decreases rest(toks, pos), 43nat,
{
    match spec_sumti_2(toks, pos) {
        Outcome::Matched(n1) => {
            &&& is_sumti_2(node.0, toks, pos)
            &&& match spec_many0_sumti_connected_post(toks, pos + n1) {
                    Outcome::Matched(_) => is_row_of_sumti_connected_post(
                        node.1@,
                        toks,
                        pos + n1,
                    ),
                    _ => false,
                }
        },
        _ => false,
    }
}

/// What [`is_sumti_1`] says.
pub proof fn lemma_is_sumti_1<'arena>(node: Sumti1<'arena>, toks: Seq<Token>, pos: nat)
    ensures
        is_sumti_1(node, toks, pos) == (
            match spec_sumti_2(toks, pos) {
                Outcome::Matched(n1) => {
                    &&& is_sumti_2(node.0, toks, pos)
                    &&& match spec_many0_sumti_connected_post(toks, pos + n1) {
                            Outcome::Matched(_) => is_row_of_sumti_connected_post(
                                node.1@,
                                toks,
                                pos + n1,
                            ),
                            _ => false,
                        }
                },
                _ => false,
            }
        ),
{
    reveal(is_sumti_1);
    reveal(is_sumti_2);
    reveal(is_row_of_sumti_connected_post);
}

/// Whether `node` is the node that `Sumti2` makes of the tokens at `pos`.
#[verifier::opaque]
pub closed spec fn is_sumti_2<'arena>(
    node: Separated<'arena, Sumti3<'arena>, (JoikEk<'arena>, Option<TagWords<'arena>>, Word<'arena>, Frees<'arena>)>,
    toks: Seq<Token>,
    pos: nat,
) -> bool
    decreases rest(toks, pos), 39nat,
{
    match spec_sumti_3(toks, pos) {
        Outcome::Matched(n1) => {
            &&& is_sumti_3(*node.first, toks, pos)
            &&& match spec_many0_sumti_2_next(toks, pos + n1) {
                    Outcome::Matched(_) => is_row_of_sumti_2_next(node.rest@, toks, pos + n1),
                    _ => false,
                }
        },
        _ => false,
    }
}

/// What [`is_sumti_2`] says.
pub proof fn lemma_is_sumti_2<'arena>(
    node: Separated<'arena, Sumti3<'arena>, (JoikEk<'arena>, Option<TagWords<'arena>>, Word<'arena>, Frees<'arena>)>,
    toks: Seq<Token>,
    pos: nat,
)
    ensures
        is_sumti_2(node, toks, pos) == (
            match spec_sumti_3(toks, pos) {
                Outcome::Matched(n1) => {
                    &&& is_sumti_3(*node.first, toks, pos)
                    &&& match spec_many0_sumti_2_next(toks, pos + n1) {
                            Outcome::Matched(_) => is_row_of_sumti_2_next(
                                node.rest@,
                                toks,
                                pos + n1,
                            ),
                            _ => false,
                        }
                },
                _ => false,
            }
        ),
{
    reveal(is_sumti_2);
    reveal(is_sumti_3);
    reveal(is_row_of_sumti_2_next);
}

/// Whether `node` is the node that `Sumti3` makes of the tokens at `pos`.
#[verifier::opaque]
pub closed spec fn is_sumti_3<'arena>(node: Sumti3<'arena>, toks: Seq<Token>, pos: nat) -> bool
    decreases rest(toks, pos), 36nat,
{
    match spec_many0_sumti_3_connected_pre(toks, pos) {
        Outcome::Matched(n1) => {
            &&& is_row_of_sumti_3_connected_pre(node.0@, toks, pos)
            &&& match spec_sumti_4(toks, pos + n1) {
                    Outcome::Matched(_) => is_sumti_4(node.1, toks, pos + n1),
                    _ => false,
                }
        },
        _ => false,
    }
}

/// What [`is_sumti_3`] says.
pub proof fn lemma_is_sumti_3<'arena>(node: Sumti3<'arena>, toks: Seq<Token>, pos: nat)
    ensures
        is_sumti_3(node, toks, pos) == (
            match spec_many0_sumti_3_connected_pre(toks, pos) {
                Outcome::Matched(n1) => {
                    &&& is_row_of_sumti_3_connected_pre(node.0@, toks, pos)
                    &&& match spec_sumti_4(toks, pos + n1) {
                            Outcome::Matched(_) => is_sumti_4(node.1, toks, pos + n1),
                            _ => false,
                        }
                },
                _ => false,
            }
        ),
{
    reveal(is_sumti_3);
    reveal(is_row_of_sumti_3_connected_pre);
    reveal(is_sumti_4);
}

/// Whether `node` is the node that `Sumti3ConnectedPre` makes of the tokens at `pos`.
#[verifier::opaque]
pub closed spec fn is_sumti_3_connected_pre<'arena>(
    node: Sumti3ConnectedPre<'arena>,
    toks: Seq<Token>,
    pos: nat,
) -> bool
    decreases rest(toks, pos), 34nat,
{
    match spec_gek(toks, pos) {
        Outcome::Matched(n1) => {
            &&& is_gek(node.0, toks, pos)
            &&& match spec_sumti(toks, pos + n1) {
                    Outcome::Matched(n2) => {
                        &&& advanced(toks, pos, n1)
                        &&& is_sumti(node.1, toks, pos + n1)
                        &&& match spec_gik(toks, pos + n1 + n2) {
                                Outcome::Matched(_) => is_gik(node.2, toks, pos + n1 + n2),
                                _ => false,
                            }
                    },
                    _ => false,
                }
        },
        _ => false,
    }
}

/// What [`is_sumti_3_connected_pre`] says.
pub proof fn lemma_is_sumti_3_connected_pre<'arena>(
    node: Sumti3ConnectedPre<'arena>,
    toks: Seq<Token>,
    pos: nat,
)
    ensures
        is_sumti_3_connected_pre(node, toks, pos) == (
            match spec_gek(toks, pos) {
                Outcome::Matched(n1) => {
                    &&& is_gek(node.0, toks, pos)
                    &&& match spec_sumti(toks, pos + n1) {
                            Outcome::Matched(n2) => {
                                &&& advanced(toks, pos, n1)
                                &&& is_sumti(node.1, toks, pos + n1)
                                &&& match spec_gik(toks, pos + n1 + n2) {
                                        Outcome::Matched(_) => is_gik(
                                            node.2,
                                            toks,
                                            pos + n1 + n2,
                                        ),
                                        _ => false,
                                    }
                            },
                            _ => false,
                        }
                },
                _ => false,
            }
        ),
{
    reveal(is_sumti_3_connected_pre);
    reveal(is_gek);
    reveal(is_sumti);
    reveal(is_gik);
}

/// How many tokens the first `count` of a row of `Sumti3ConnectedPre` take at `pos`.
pub open spec fn run_of_sumti_3_connected_pre(toks: Seq<Token>, pos: nat, count: nat) -> nat
    decreases count,
{
    if count == 0 {
        0
    } else {
        let before = run_of_sumti_3_connected_pre(toks, pos, (count - 1) as nat);
        before + (match spec_sumti_3_connected_pre(toks, pos + before) {
            Outcome::Matched(len) => len,
            _ => 0,
        })
    }
}

/// Whether `items` are the nodes of a row of `Sumti3ConnectedPre` at `pos`: each is the
/// node of the `Sumti3ConnectedPre` at its place, and no further one follows them.
#[verifier::opaque]
pub closed spec fn is_row_of_sumti_3_connected_pre<'arena>(
    items: Seq<Sumti3ConnectedPre<'arena>>,
    toks: Seq<Token>,
    pos: nat,
) -> bool
    decreases rest(toks, pos), 35nat,
{
    &&& forall|i: int|
        #![trigger items[i]]
        #![trigger run_of_sumti_3_connected_pre(toks, pos, i as nat)]
        0 <= i < items.len() ==> spec_sumti_3_connected_pre(
            toks,
            pos + run_of_sumti_3_connected_pre(toks, pos, i as nat),
        ) is Matched && is_sumti_3_connected_pre(
            items[i],
            toks,
            pos + run_of_sumti_3_connected_pre(toks, pos, i as nat),
        )
    &&& !(spec_sumti_3_connected_pre(
        toks,
        pos + run_of_sumti_3_connected_pre(toks, pos, items.len()),
    ) is Matched)
}

/// What [`is_row_of_sumti_3_connected_pre`] says.
pub proof fn lemma_is_row_of_sumti_3_connected_pre<'arena>(
    items: Seq<Sumti3ConnectedPre<'arena>>,
    toks: Seq<Token>,
    pos: nat,
)
    ensures
        is_row_of_sumti_3_connected_pre(items, toks, pos) == ({
            &&& forall|i: int|
                #![trigger items[i]]
                #![trigger run_of_sumti_3_connected_pre(toks, pos, i as nat)]
                0 <= i < items.len() ==> spec_sumti_3_connected_pre(
                    toks,
                    pos + run_of_sumti_3_connected_pre(toks, pos, i as nat),
                ) is Matched && is_sumti_3_connected_pre(
                    items[i],
                    toks,
                    pos + run_of_sumti_3_connected_pre(toks, pos, i as nat),
                )
            &&& !(spec_sumti_3_connected_pre(
                toks,
                pos + run_of_sumti_3_connected_pre(toks, pos, items.len()),
            ) is Matched)
        }),
{
    reveal(is_row_of_sumti_3_connected_pre);
    reveal(is_sumti_3_connected_pre);
}

/// Whether `node` is the node that `Gek` makes of the tokens at `pos`: the
/// node of the first alternative that matches.
#[verifier::opaque]
pub closed spec fn is_gek<'arena>(node: Gek<'arena>, toks: Seq<Token>, pos: nat) -> bool
    decreases rest(toks, pos), 33nat,
{
    match spec_gek_se_ga_nai(toks, pos) {
        Outcome::Matched(_) => is_gek_se_ga_nai(node, toks, pos),
        Outcome::Error(_) => match spec_gek_joik_gi(toks, pos) {
            Outcome::Matched(_) => is_gek_joik_gi(node, toks, pos),
            Outcome::Error(
                _,
            ) => spec_gek_tag_gik(toks, pos) is Matched && is_gek_tag_gik(node, toks, pos),
            Outcome::Failure(_) => false,
        },
        Outcome::Failure(_) => false,
    }
}

/// What [`is_gek`] says.
pub proof fn lemma_is_gek<'arena>(toks: Seq<Token>, pos: nat)
    ensures
        forall|node: Gek<'arena>| #[trigger] is_gek(node, toks, pos) == (
            match spec_gek_se_ga_nai(toks, pos) {
                Outcome::Matched(_) => is_gek_se_ga_nai(node, toks, pos),
                Outcome::Error(_) => match spec_gek_joik_gi(toks, pos) {
                    Outcome::Matched(_) => is_gek_joik_gi(node, toks, pos),
                    Outcome::Error(
                        _,
                    ) => spec_gek_tag_gik(
                        toks,
                        pos,
                    ) is Matched && is_gek_tag_gik(node, toks, pos),
                    Outcome::Failure(_) => false,
                },
                Outcome::Failure(_) => false,
            }
        ),
{
    reveal(is_gek);
    reveal(is_gek_se_ga_nai);
    reveal(is_gek_joik_gi);
    reveal(is_gek_tag_gik);
}

/// Whether `node` is the node that `GekSeGaNai` makes of the tokens at `pos`.
#[verifier::opaque]
pub closed spec fn is_gek_se_ga_nai<'arena>(node: Gek<'arena>, toks: Seq<Token>, pos: nat) -> bool
    decreases rest(toks, pos), 25nat,
{
    match node {
        Gek::SeGaNai(
            field_0,
            field_1,
            field_2,
            field_3,
        ) => match spec_opt(spec_word(toks, pos, Selmaho::Se)) {
            Outcome::Matched(n1) => {
                &&& (match field_0 {
                        Some(inner) => {
                            &&& spec_word(toks, pos, Selmaho::Se) is Matched
                            &&& is_word(inner, toks, pos, Selmaho::Se)
                        },
                        None => spec_word(toks, pos, Selmaho::Se) is Error,
                    })
                &&& match spec_word(toks, pos + n1, Selmaho::Ga) {
                        Outcome::Matched(n2) => {
                            &&& is_word(field_1, toks, pos + n1, Selmaho::Ga)
                            &&& match spec_opt(spec_word(toks, pos + n1 + n2, Selmaho::Nai)) {
                                    Outcome::Matched(n3) => {
                                        &&& (match field_2 {
                                                Some(inner) => {
                                                    &&& spec_word(
                                                        toks,
                                                        pos + n1 + n2,
                                                        Selmaho::Nai,
                                                    ) is Matched
                                                    &&& is_word(
                                                        inner,
                                                        toks,
                                                        pos + n1 + n2,
                                                        Selmaho::Nai,
                                                    )
                                                },
                                                None => spec_word(
                                                    toks,
                                                    pos + n1 + n2,
                                                    Selmaho::Nai,
                                                ) is Error,
                                            })
                                        &&& match spec_frees(toks, pos + n1 + n2 + n3) {
                                                Outcome::Matched(_) => is_frees(
                                                    field_3,
                                                    toks,
                                                    pos + n1 + n2 + n3,
                                                ),
                                                _ => false,
                                            }
                                    },
                                    _ => false,
                                }
                        },
                        _ => false,
                    }
            },
            _ => false,
        },
        _ => false,
    }
}

/// What [`is_gek_se_ga_nai`] says.
pub proof fn lemma_is_gek_se_ga_nai<'arena>(node: Gek<'arena>, toks: Seq<Token>, pos: nat)
    ensures
        is_gek_se_ga_nai(node, toks, pos) == (
            match node {
                Gek::SeGaNai(
                    field_0,
                    field_1,
                    field_2,
                    field_3,
                ) => match spec_opt(spec_word(toks, pos, Selmaho::Se)) {
                    Outcome::Matched(n1) => {
                        &&& (match field_0 {
                                Some(inner) => {
                                    &&& spec_word(toks, pos, Selmaho::Se) is Matched
                                    &&& is_word(inner, toks, pos, Selmaho::Se)
                                },
                                None => spec_word(toks, pos, Selmaho::Se) is Error,
                            })
                        &&& match spec_word(toks, pos + n1, Selmaho::Ga) {
                                Outcome::Matched(n2) => {
                                    &&& is_word(field_1, toks, pos + n1, Selmaho::Ga)
                                    &&& match spec_opt(
                                        spec_word(toks, pos + n1 + n2, Selmaho::Nai),
                                    ) {
                                            Outcome::Matched(n3) => {
                                                &&& (match field_2 {
                                                        Some(inner) => {
                                                            &&& spec_word(
                                                                toks,
                                                                pos + n1 + n2,
                                                                Selmaho::Nai,
                                                            ) is Matched
                                                            &&& is_word(
                                                                inner,
                                                                toks,
                                                                pos + n1 + n2,
                                                                Selmaho::Nai,
                                                            )
                                                        },
                                                        None => spec_word(
                                                            toks,
                                                            pos + n1 + n2,
                                                            Selmaho::Nai,
                                                        ) is Error,
                                                    })
                                                &&& match spec_frees(toks, pos + n1 + n2 + n3) {
                                                        Outcome::Matched(_) => is_frees(
                                                            field_3,
                                                            toks,
                                                            pos + n1 + n2 + n3,
                                                        ),
                                                        _ => false,
                                                    }
                                            },
                                            _ => false,
                                        }
                                },
                                _ => false,
                            }
                    },
                    _ => false,
                },
                _ => false,
            }
        ),
{
    reveal(is_gek_se_ga_nai);
    reveal(is_word);
    reveal(is_frees);
}

/// Whether `node` is the node that `GekJoikGi` makes of the tokens at `pos`.
#[verifier::opaque]
pub closed spec fn is_gek_joik_gi<'arena>(node: Gek<'arena>, toks: Seq<Token>, pos: nat) -> bool
    decreases rest(toks, pos), 25nat,
{
    match node {
        Gek::JoikGi(field_0, field_1, field_2) => match spec_joik(toks, pos) {
            Outcome::Matched(n1) => {
                &&& is_joik(field_0, toks, pos)
                &&& match spec_word(toks, pos + n1, Selmaho::Gi) {
                        Outcome::Matched(n2) => {
                            &&& is_word(field_1, toks, pos + n1, Selmaho::Gi)
                            &&& match spec_frees(toks, pos + n1 + n2) {
                                    Outcome::Matched(_) => is_frees(field_2, toks, pos + n1 + n2),
                                    _ => false,
                                }
                        },
                        _ => false,
                    }
            },
            _ => false,
        },
        _ => false,
    }
}

/// What [`is_gek_joik_gi`] says.
pub proof fn lemma_is_gek_joik_gi<'arena>(node: Gek<'arena>, toks: Seq<Token>, pos: nat)
    ensures
        is_gek_joik_gi(node, toks, pos) == (
            match node {
                Gek::JoikGi(field_0, field_1, field_2) => match spec_joik(toks, pos) {
                    Outcome::Matched(n1) => {
                        &&& is_joik(field_0, toks, pos)
                        &&& match spec_word(toks, pos + n1, Selmaho::Gi) {
                                Outcome::Matched(n2) => {
                                    &&& is_word(field_1, toks, pos + n1, Selmaho::Gi)
                                    &&& match spec_frees(toks, pos + n1 + n2) {
                                            Outcome::Matched(_) => is_frees(
                                                field_2,
                                                toks,
                                                pos + n1 + n2,
                                            ),
                                            _ => false,
                                        }
                                },
                                _ => false,
                            }
                    },
                    _ => false,
                },
                _ => false,
            }
        ),
{
    reveal(is_gek_joik_gi);
    reveal(is_joik);
    reveal(is_word);
    reveal(is_frees);
}

/// Whether `node` is the node that `Joik` makes of the tokens at `pos`: the
/// node of the first alternative that matches.
#[verifier::opaque]
pub closed spec fn is_joik<'arena>(node: Joik<'arena>, toks: Seq<Token>, pos: nat) -> bool
    decreases rest(toks, pos), 5nat,
{
    match spec_joik_se_joi_nai(toks, pos) {
        Outcome::Matched(_) => is_joik_se_joi_nai(node, toks, pos),
        Outcome::Error(_) => match spec_joik_interval(toks, pos) {
            Outcome::Matched(_) => is_joik_interval(node, toks, pos),
            Outcome::Error(
                _,
            ) => spec_joik_gaho(toks, pos) is Matched && is_joik_gaho(node, toks, pos),
            Outcome::Failure(_) => false,
        },
        Outcome::Failure(_) => false,
    }
}

/// What [`is_joik`] says.
pub proof fn lemma_is_joik<'arena>(toks: Seq<Token>, pos: nat)
    ensures
        forall|node: Joik<'arena>| #[trigger] is_joik(node, toks, pos) == (
            match spec_joik_se_joi_nai(toks, pos) {
                Outcome::Matched(_) => is_joik_se_joi_nai(node, toks, pos),
                Outcome::Error(_) => match spec_joik_interval(toks, pos) {
                    Outcome::Matched(_) => is_joik_interval(node, toks, pos),
                    Outcome::Error(
                        _,
                    ) => spec_joik_gaho(toks, pos) is Matched && is_joik_gaho(node, toks, pos),
                    Outcome::Failure(_) => false,
                },
                Outcome::Failure(_) => false,
            }
        ),
{
    reveal(is_joik);
    reveal(is_joik_se_joi_nai);
    reveal(is_joik_interval);
    reveal(is_joik_gaho);
}

/// Whether `node` is the node that `JoikSeJoiNai` makes of the tokens at `pos`.
#[verifier::opaque]
pub closed spec fn is_joik_se_joi_nai<'arena>(
    node: Joik<'arena>,
    toks: Seq<Token>,
    pos: nat,
) -> bool
    decreases rest(toks, pos), 3nat,
{
    match node {
        Joik::SeJoiNai(
            field_0,
            field_1,
            field_2,
        ) => match spec_opt(spec_word(toks, pos, Selmaho::Se)) {
            Outcome::Matched(n1) => {
                &&& (match field_0 {
                        Some(inner) => {
                            &&& spec_word(toks, pos, Selmaho::Se) is Matched
                            &&& is_word(inner, toks, pos, Selmaho::Se)
                        },
                        None => spec_word(toks, pos, Selmaho::Se) is Error,
                    })
                &&& match spec_word(toks, pos + n1, Selmaho::Joi) {
                        Outcome::Matched(n2) => {
                            &&& is_word(field_1, toks, pos + n1, Selmaho::Joi)
                            &&& match spec_opt(spec_word(toks, pos + n1 + n2, Selmaho::Nai)) {
                                    Outcome::Matched(_) => {
                                        &&& (match field_2 {
                                                Some(inner) => {
                                                    &&& spec_word(
                                                        toks,
                                                        pos + n1 + n2,
                                                        Selmaho::Nai,
                                                    ) is Matched
                                                    &&& is_word(
                                                        inner,
                                                        toks,
                                                        pos + n1 + n2,
                                                        Selmaho::Nai,
                                                    )
                                                },
                                                None => spec_word(
                                                    toks,
                                                    pos + n1 + n2,
                                                    Selmaho::Nai,
                                                ) is Error,
                                            })
                                    },
                                    _ => false,
                                }
                        },
                        _ => false,
                    }
            },
            _ => false,
        },
        _ => false,
    }
}

/// What [`is_joik_se_joi_nai`] says.
pub proof fn lemma_is_joik_se_joi_nai<'arena>(node: Joik<'arena>, toks: Seq<Token>, pos: nat)
    ensures
        is_joik_se_joi_nai(node, toks, pos) == (
            match node {
                Joik::SeJoiNai(
                    field_0,
                    field_1,
                    field_2,
                ) => match spec_opt(spec_word(toks, pos, Selmaho::Se)) {
                    Outcome::Matched(n1) => {
                        &&& (match field_0 {
                                Some(inner) => {
                                    &&& spec_word(toks, pos, Selmaho::Se) is Matched
                                    &&& is_word(inner, toks, pos, Selmaho::Se)
                                },
                                None => spec_word(toks, pos, Selmaho::Se) is Error,
                            })
                        &&& match spec_word(toks, pos + n1, Selmaho::Joi) {
                                Outcome::Matched(n2) => {
                                    &&& is_word(field_1, toks, pos + n1, Selmaho::Joi)
                                    &&& match spec_opt(
                                        spec_word(toks, pos + n1 + n2, Selmaho::Nai),
                                    ) {
                                            Outcome::Matched(_) => {
                                                &&& (match field_2 {
                                                        Some(inner) => {
                                                            &&& spec_word(
                                                                toks,
                                                                pos + n1 + n2,
                                                                Selmaho::Nai,
                                                            ) is Matched
                                                            &&& is_word(
                                                                inner,
                                                                toks,
                                                                pos + n1 + n2,
                                                                Selmaho::Nai,
                                                            )
                                                        },
                                                        None => spec_word(
                                                            toks,
                                                            pos + n1 + n2,
                                                            Selmaho::Nai,
                                                        ) is Error,
                                                    })
                                            },
                                            _ => false,
                                        }
                                },
                                _ => false,
                            }
                    },
                    _ => false,
                },
                _ => false,
            }
        ),
{
    reveal(is_joik_se_joi_nai);
    reveal(is_word);
}

/// Whether `node` is the node that `JoikInterval` makes of the tokens at `pos`.
#[verifier::opaque]
pub closed spec fn is_joik_interval<'arena>(
    node: Joik<'arena>,
    toks: Seq<Token>,
    pos: nat,
) -> bool
    decreases rest(toks, pos), 4nat,
{
    match node {
        Joik::Interval(field_0) => match spec_interval(toks, pos) {
            Outcome::Matched(_) => is_interval(field_0, toks, pos),
            _ => false,
        },
        _ => false,
    }
}

/// What [`is_joik_interval`] says.
pub proof fn lemma_is_joik_interval<'arena>(node: Joik<'arena>, toks: Seq<Token>, pos: nat)
    ensures
        is_joik_interval(node, toks, pos) == (
            match node {
                Joik::Interval(field_0) => match spec_interval(toks, pos) {
                    Outcome::Matched(_) => is_interval(field_0, toks, pos),
                    _ => false,
                },
                _ => false,
            }
        ),
{
    reveal(is_joik_interval);
    reveal(is_interval);
}

/// Whether `node` is the node that `Interval` makes of the tokens at `pos`.
#[verifier::opaque]
pub closed spec fn is_interval<'arena>(node: Interval<'arena>, toks: Seq<Token>, pos: nat) -> bool
    decreases rest(toks, pos), 3nat,
{
    match spec_opt(spec_word(toks, pos, Selmaho::Se)) {
        Outcome::Matched(n1) => {
            &&& (match node.0 {
                    Some(inner) => {
                        &&& spec_word(toks, pos, Selmaho::Se) is Matched
                        &&& is_word(inner, toks, pos, Selmaho::Se)
                    },
                    None => spec_word(toks, pos, Selmaho::Se) is Error,
                })
            &&& match spec_word(toks, pos + n1, Selmaho::Bihi) {
                    Outcome::Matched(n2) => {
                        &&& is_word(node.1, toks, pos + n1, Selmaho::Bihi)
                        &&& match spec_opt(spec_word(toks, pos + n1 + n2, Selmaho::Nai)) {
                                Outcome::Matched(_) => {
                                    &&& (match node.2 {
                                            Some(inner) => {
                                                &&& spec_word(
                                                    toks,
                                                    pos + n1 + n2,
                                                    Selmaho::Nai,
                                                ) is Matched
                                                &&& is_word(
                                                    inner,
                                                    toks,
                                                    pos + n1 + n2,
                                                    Selmaho::Nai,
                                                )
                                            },
                                            None => spec_word(
                                                toks,
                                                pos + n1 + n2,
                                                Selmaho::Nai,
                                            ) is Error,
                                        })
                                },
                                _ => false,
                            }
                    },
                    _ => false,
                }
        },
        _ => false,
    }
}

/// What [`is_interval`] says.
pub proof fn lemma_is_interval<'arena>(node: Interval<'arena>, toks: Seq<Token>, pos: nat)
    ensures
        is_interval(node, toks, pos) == (
            match spec_opt(spec_word(toks, pos, Selmaho::Se)) {
                Outcome::Matched(n1) => {
                    &&& (match node.0 {
                            Some(inner) => {
                                &&& spec_word(toks, pos, Selmaho::Se) is Matched
                                &&& is_word(inner, toks, pos, Selmaho::Se)
                            },
                            None => spec_word(toks, pos, Selmaho::Se) is Error,
                        })
                    &&& match spec_word(toks, pos + n1, Selmaho::Bihi) {
                            Outcome::Matched(n2) => {
                                &&& is_word(node.1, toks, pos + n1, Selmaho::Bihi)
                                &&& match spec_opt(spec_word(toks, pos + n1 + n2, Selmaho::Nai)) {
                                        Outcome::Matched(_) => {
                                            &&& (match node.2 {
                                                    Some(inner) => {
                                                        &&& spec_word(
                                                            toks,
                                                            pos + n1 + n2,
                                                            Selmaho::Nai,
                                                        ) is Matched
                                                        &&& is_word(
                                                            inner,
                                                            toks,
                                                            pos + n1 + n2,
                                                            Selmaho::Nai,
                                                        )
                                                    },
                                                    None => spec_word(
                                                        toks,
                                                        pos + n1 + n2,
                                                        Selmaho::Nai,
                                                    ) is Error,
                                                })
                                        },
                                        _ => false,
                                    }
                            },
                            _ => false,
                        }
                },
                _ => false,
            }
        ),
{
    reveal(is_interval);
    reveal(is_word);
}

/// Whether `node` is the node that `JoikGaho` makes of the tokens at `pos`.
#[verifier::opaque]
pub closed spec fn is_joik_gaho<'arena>(node: Joik<'arena>, toks: Seq<Token>, pos: nat) -> bool
    decreases rest(toks, pos), 4nat,
{
    match node {
        Joik::Gaho(field_0, field_1, field_2) => match spec_word(toks, pos, Selmaho::Gaho) {
            Outcome::Matched(n1) => {
                &&& is_word(field_0, toks, pos, Selmaho::Gaho)
                &&& match spec_interval(toks, pos + n1) {
                        Outcome::Matched(n2) => {
                            &&& is_interval(field_1, toks, pos + n1)
                            &&& match spec_cut(spec_word(toks, pos + n1 + n2, Selmaho::Gaho)) {
                                    Outcome::Matched(_) => is_word(
                                        field_2,
                                        toks,
                                        pos + n1 + n2,
                                        Selmaho::Gaho,
                                    ),
                                    _ => false,
                                }
                        },
                        _ => false,
                    }
            },
            _ => false,
        },
        _ => false,
    }
}

/// What [`is_joik_gaho`] says.
pub proof fn lemma_is_joik_gaho<'arena>(node: Joik<'arena>, toks: Seq<Token>, pos: nat)
    ensures
        is_joik_gaho(node, toks, pos) == (
            match node {
                Joik::Gaho(
                    field_0,
                    field_1,
                    field_2,
                ) => match spec_word(toks, pos, Selmaho::Gaho) {
                    Outcome::Matched(n1) => {
                        &&& is_word(field_0, toks, pos, Selmaho::Gaho)
                        &&& match spec_interval(toks, pos + n1) {
                                Outcome::Matched(n2) => {
                                    &&& is_interval(field_1, toks, pos + n1)
                                    &&& match spec_cut(
                                        spec_word(toks, pos + n1 + n2, Selmaho::Gaho),
                                    ) {
                                            Outcome::Matched(_) => is_word(
                                                field_2,
                                                toks,
                                                pos + n1 + n2,
                                                Selmaho::Gaho,
                                            ),
                                            _ => false,
                                        }
                                },
                                _ => false,
                            }
                    },
                    _ => false,
                },
                _ => false,
            }
        ),
{
    reveal(is_joik_gaho);
    reveal(is_word);
    reveal(is_interval);
}

/// Whether `node` is the node that `GekTagGik` makes of the tokens at `pos`.
#[verifier::opaque]
pub closed spec fn is_gek_tag_gik<'arena>(node: Gek<'arena>, toks: Seq<Token>, pos: nat) -> bool
    decreases rest(toks, pos), 32nat,
{
    match node {
        Gek::TagGik(field_0, field_1) => match spec_tag_words(toks, pos) {
            Outcome::Matched(n1) => {
                &&& is_tag_words(field_0, toks, pos)
                &&& match spec_gik(toks, pos + n1) {
                        Outcome::Matched(_) => is_gik(field_1, toks, pos + n1),
                        _ => false,
                    }
            },
            _ => false,
        },
        _ => false,
    }
}

/// What [`is_gek_tag_gik`] says.
pub proof fn lemma_is_gek_tag_gik<'arena>(node: Gek<'arena>, toks: Seq<Token>, pos: nat)
    ensures
        is_gek_tag_gik(node, toks, pos) == (
            match node {
                Gek::TagGik(field_0, field_1) => match spec_tag_words(toks, pos) {
                    Outcome::Matched(n1) => {
                        &&& is_tag_words(field_0, toks, pos)
                        &&& match spec_gik(toks, pos + n1) {
                                Outcome::Matched(_) => is_gik(field_1, toks, pos + n1),
                                _ => false,
                            }
                    },
                    _ => false,
                },
                _ => false,
            }
        ),
{
    reveal(is_gek_tag_gik);
    reveal(is_tag_words);
    reveal(is_gik);
}

/// Whether `node` is the node that `Sumti4` makes of the tokens at `pos`: the
/// node of the first alternative that matches.
#[verifier::opaque]
pub closed spec fn is_sumti_4<'arena>(node: Sumti4<'arena>, toks: Seq<Token>, pos: nat) -> bool
    decreases rest(toks, pos), 31nat,
{
    match spec_sumti_4_normal(toks, pos) {
        Outcome::Matched(_) => is_sumti_4_normal(node, toks, pos),
        Outcome::Error(
            _,
        ) => spec_sumti_4_selbri_shorthand(
            toks,
            pos,
        ) is Matched && is_sumti_4_selbri_shorthand(node, toks, pos),
        Outcome::Failure(_) => false,
    }
}

/// What [`is_sumti_4`] says.
pub proof fn lemma_is_sumti_4<'arena>(toks: Seq<Token>, pos: nat)
    ensures
        forall|node: Sumti4<'arena>| #[trigger] is_sumti_4(node, toks, pos) == (
            match spec_sumti_4_normal(toks, pos) {
                Outcome::Matched(_) => is_sumti_4_normal(node, toks, pos),
                Outcome::Error(
                    _,
                ) => spec_sumti_4_selbri_shorthand(
                    toks,
                    pos,
                ) is Matched && is_sumti_4_selbri_shorthand(node, toks, pos),
                Outcome::Failure(_) => false,
            }
        ),
{
    reveal(is_sumti_4);
    reveal(is_sumti_4_normal);
    reveal(is_sumti_4_selbri_shorthand);
}

/// Whether `node` is the node that `Sumti4Normal` makes of the tokens at `pos`.
#[verifier::opaque]
pub closed spec fn is_sumti_4_normal<'arena>(
    node: Sumti4<'arena>,
    toks: Seq<Token>,
    pos: nat,
) -> bool
    decreases rest(toks, pos), 30nat,
{
    match node {
        Sumti4::Normal { quantifier, inner, relative_clauses } => match spec_opt(
            spec_quantifier(toks, pos),
        ) {
            Outcome::Matched(n1) => {
                &&& (match quantifier {
                        Some(inner) => {
                            &&& spec_quantifier(toks, pos) is Matched
                            &&& is_quantifier(inner, toks, pos)
                        },
                        None => spec_quantifier(toks, pos) is Error,
                    })
                &&& match spec_sumti_component(toks, pos + n1) {
                        Outcome::Matched(n2) => {
                            &&& is_sumti_component(*inner, toks, pos + n1)
                            &&& match spec_opt(spec_relative_clauses(toks, pos + n1 + n2)) {
                                    Outcome::Matched(_) => {
                                        &&& (match relative_clauses {
                                                Some(inner) => {
                                                    &&& spec_relative_clauses(
                                                        toks,
                                                        pos + n1 + n2,
                                                    ) is Matched
                                                    &&& is_relative_clauses(
                                                        inner,
                                                        toks,
                                                        pos + n1 + n2,
                                                    )
                                                },
                                                None => spec_relative_clauses(
                                                    toks,
                                                    pos + n1 + n2,
                                                ) is Error,
                                            })
                                    },
                                    _ => false,
                                }
                        },
                        _ => false,
                    }
            },
            _ => false,
        },
        _ => false,
    }
}

/// What [`is_sumti_4_normal`] says.
pub proof fn lemma_is_sumti_4_normal<'arena>(node: Sumti4<'arena>, toks: Seq<Token>, pos: nat)
    ensures
        is_sumti_4_normal(node, toks, pos) == (
            match node {
                Sumti4::Normal { quantifier, inner, relative_clauses } => match spec_opt(
                    spec_quantifier(toks, pos),
                ) {
                    Outcome::Matched(n1) => {
                        &&& (match quantifier {
                                Some(inner) => {
                                    &&& spec_quantifier(toks, pos) is Matched
                                    &&& is_quantifier(inner, toks, pos)
                                },
                                None => spec_quantifier(toks, pos) is Error,
                            })
                        &&& match spec_sumti_component(toks, pos + n1) {
                                Outcome::Matched(n2) => {
                                    &&& is_sumti_component(*inner, toks, pos + n1)
                                    &&& match spec_opt(
                                        spec_relative_clauses(toks, pos + n1 + n2),
                                    ) {
                                            Outcome::Matched(_) => {
                                                &&& (match relative_clauses {
                                                        Some(inner) => {
                                                            &&& spec_relative_clauses(
                                                                toks,
                                                                pos + n1 + n2,
                                                            ) is Matched
                                                            &&& is_relative_clauses(
                                                                inner,
                                                                toks,
                                                                pos + n1 + n2,
                                                            )
                                                        },
                                                        None => spec_relative_clauses(
                                                            toks,
                                                            pos + n1 + n2,
                                                        ) is Error,
                                                    })
                                            },
                                            _ => false,
                                        }
                                },
                                _ => false,
                            }
                    },
                    _ => false,
                },
                _ => false,
            }
        ),
{
    reveal(is_sumti_4_normal);
    reveal(is_quantifier);
    reveal(is_sumti_component);
    reveal(is_relative_clauses);
}

/// Whether `node` is the node that `Quantifier` makes of the tokens at `pos`: the
/// node of the first alternative that matches.
#[verifier::opaque]
pub closed spec fn is_quantifier<'arena>(
    node: Quantifier<'arena>,
    toks: Seq<Token>,
    pos: nat,
) -> bool
    decreases rest(toks, pos), 26nat,
{
    match spec_quantifier_mekso(toks, pos) {
        Outcome::Matched(_) => is_quantifier_mekso(node, toks, pos),
        Outcome::Error(
            _,
        ) => spec_quantifier_number(
            toks,
            pos,
        ) is Matched && is_quantifier_number(node, toks, pos),
        Outcome::Failure(_) => false,
    }
}

/// What [`is_quantifier`] says.
pub proof fn lemma_is_quantifier<'arena>(toks: Seq<Token>, pos: nat)
    ensures
        forall|node: Quantifier<'arena>| #[trigger] is_quantifier(node, toks, pos) == (
            match spec_quantifier_mekso(toks, pos) {
                Outcome::Matched(_) => is_quantifier_mekso(node, toks, pos),
                Outcome::Error(
                    _,
                ) => spec_quantifier_number(
                    toks,
                    pos,
                ) is Matched && is_quantifier_number(node, toks, pos),
                Outcome::Failure(_) => false,
            }
        ),
{
    reveal(is_quantifier);
    reveal(is_quantifier_mekso);
    reveal(is_quantifier_number);
}

/// Whether `node` is the node that `QuantifierMekso` makes of the tokens at `pos`.
#[verifier::opaque]
pub closed spec fn is_quantifier_mekso<'arena>(
    node: Quantifier<'arena>,
    toks: Seq<Token>,
    pos: nat,
) -> bool
    decreases rest(toks, pos), 25nat,
{
    match node {
        Quantifier::Mekso(
            field_0,
            field_1,
            field_2,
            field_3,
        ) => match spec_word_with_free(toks, pos, Selmaho::Vei) {
            Outcome::Matched(n1) => {
                &&& is_word_with_free(field_0, toks, pos, Selmaho::Vei)
                &&& match spec_expression(toks, pos + n1) {
                        Outcome::Matched(n2) => {
                            &&& advanced(toks, pos, n1)
                            &&& is_expression(field_1, toks, pos + n1)
                            &&& match spec_opt(spec_word(toks, pos + n1 + n2, Selmaho::Veho)) {
                                    Outcome::Matched(n3) => {
                                        &&& (match field_2 {
                                                Some(inner) => {
                                                    &&& spec_word(
                                                        toks,
                                                        pos + n1 + n2,
                                                        Selmaho::Veho,
                                                    ) is Matched
                                                    &&& is_word(
                                                        inner,
                                                        toks,
                                                        pos + n1 + n2,
                                                        Selmaho::Veho,
                                                    )
                                                },
                                                None => spec_word(
                                                    toks,
                                                    pos + n1 + n2,
                                                    Selmaho::Veho,
                                                ) is Error,
                                            })
                                        &&& match spec_frees(toks, pos + n1 + n2 + n3) {
                                                Outcome::Matched(_) => is_frees(
                                                    field_3,
                                                    toks,
                                                    pos + n1 + n2 + n3,
                                                ),
                                                _ => false,
                                            }
                                    },
                                    _ => false,
                                }
                        },
                        _ => false,
                    }
            },
            _ => false,
        },
        _ => false,
    }
}

/// What [`is_quantifier_mekso`] says.
pub proof fn lemma_is_quantifier_mekso<'arena>(
    node: Quantifier<'arena>,
    toks: Seq<Token>,
    pos: nat,
)
    ensures
        is_quantifier_mekso(node, toks, pos) == (
            match node {
                Quantifier::Mekso(
                    field_0,
                    field_1,
                    field_2,
                    field_3,
                ) => match spec_word_with_free(toks, pos, Selmaho::Vei) {
                    Outcome::Matched(n1) => {
                        &&& is_word_with_free(field_0, toks, pos, Selmaho::Vei)
                        &&& match spec_expression(toks, pos + n1) {
                                Outcome::Matched(n2) => {
                                    &&& advanced(toks, pos, n1)
                                    &&& is_expression(field_1, toks, pos + n1)
                                    &&& match spec_opt(
                                        spec_word(toks, pos + n1 + n2, Selmaho::Veho),
                                    ) {
                                            Outcome::Matched(n3) => {
                                                &&& (match field_2 {
                                                        Some(inner) => {
                                                            &&& spec_word(
                                                                toks,
                                                                pos + n1 + n2,
                                                                Selmaho::Veho,
                                                            ) is Matched
                                                            &&& is_word(
                                                                inner,
                                                                toks,
                                                                pos + n1 + n2,
                                                                Selmaho::Veho,
                                                            )
                                                        },
                                                        None => spec_word(
                                                            toks,
                                                            pos + n1 + n2,
                                                            Selmaho::Veho,
                                                        ) is Error,
                                                    })
                                                &&& match spec_frees(toks, pos + n1 + n2 + n3) {
                                                        Outcome::Matched(_) => is_frees(
                                                            field_3,
                                                            toks,
                                                            pos + n1 + n2 + n3,
                                                        ),
                                                        _ => false,
                                                    }
                                            },
                                            _ => false,
                                        }
                                },
                                _ => false,
                            }
                    },
                    _ => false,
                },
                _ => false,
            }
        ),
{
    reveal(is_quantifier_mekso);
    reveal(is_word_with_free);
    reveal(is_expression);
    reveal(is_word);
    reveal(is_frees);
}

/// Whether `node` is the node that `Expression` makes of the tokens at `pos`: the
/// node of the first alternative that matches.
#[verifier::opaque]
pub closed spec fn is_expression<'arena>(
    node: Expression<'arena>,
    toks: Seq<Token>,
    pos: nat,
) -> bool
    decreases rest(toks, pos), 109nat,
{
    match spec_expression_reverse_polish(toks, pos) {
        Outcome::Matched(_) => is_expression_reverse_polish(node, toks, pos),
        Outcome::Error(
            _,
        ) => spec_expression_normal(
            toks,
            pos,
        ) is Matched && is_expression_normal(node, toks, pos),
        Outcome::Failure(_) => false,
    }
}

/// What [`is_expression`] says.
pub proof fn lemma_is_expression<'arena>(toks: Seq<Token>, pos: nat)
    ensures
        forall|node: Expression<'arena>| #[trigger] is_expression(node, toks, pos) == (
            match spec_expression_reverse_polish(toks, pos) {
                Outcome::Matched(_) => is_expression_reverse_polish(node, toks, pos),
                Outcome::Error(
                    _,
                ) => spec_expression_normal(
                    toks,
                    pos,
                ) is Matched && is_expression_normal(node, toks, pos),
                Outcome::Failure(_) => false,
            }
        ),
{
    reveal(is_expression);
    reveal(is_expression_reverse_polish);
    reveal(is_expression_normal);
}

/// Whether `node` is the node that `ExpressionReversePolish` makes of the tokens at `pos`.
#[verifier::opaque]
pub closed spec fn is_expression_reverse_polish<'arena>(
    node: Expression<'arena>,
    toks: Seq<Token>,
    pos: nat,
) -> bool
    decreases rest(toks, pos), 101nat,
{
    match node {
        Expression::ReversePolish(
            field_0,
            field_1,
        ) => match spec_word_with_free(toks, pos, Selmaho::Fuha) {
            Outcome::Matched(n1) => {
                &&& is_word_with_free(field_0, toks, pos, Selmaho::Fuha)
                &&& match spec_reverse_polish(toks, pos + n1) {
                        Outcome::Matched(_) => is_reverse_polish(field_1, toks, pos + n1),
                        _ => false,
                    }
            },
            _ => false,
        },
        _ => false,
    }
}

/// What [`is_expression_reverse_polish`] says.
pub proof fn lemma_is_expression_reverse_polish<'arena>(
    node: Expression<'arena>,
    toks: Seq<Token>,
    pos: nat,
)
    ensures
        is_expression_reverse_polish(node, toks, pos) == (
            match node {
                Expression::ReversePolish(
                    field_0,
                    field_1,
                ) => match spec_word_with_free(toks, pos, Selmaho::Fuha) {
                    Outcome::Matched(n1) => {
                        &&& is_word_with_free(field_0, toks, pos, Selmaho::Fuha)
                        &&& match spec_reverse_polish(toks, pos + n1) {
                                Outcome::Matched(_) => is_reverse_polish(field_1, toks, pos + n1),
                                _ => false,
                            }
                    },
                    _ => false,
                },
                _ => false,
            }
        ),
{
    reveal(is_expression_reverse_polish);
    reveal(is_word_with_free);
    reveal(is_reverse_polish);
}

/// Whether `node` is the node that `ReversePolish` makes of the tokens at `pos`.
#[verifier::opaque]
pub closed spec fn is_reverse_polish<'arena>(
    node: ReversePolish<'arena>,
    toks: Seq<Token>,
    pos: nat,
) -> bool
    decreases rest(toks, pos), 100nat,
{
    match spec_operand(toks, pos) {
        Outcome::Matched(n1) => {
            &&& is_operand(node.0, toks, pos)
            &&& match spec_many0_rptail(toks, pos + n1) {
                    Outcome::Matched(_) => {
                        &&& advanced(toks, pos, n1)
                        &&& is_row_of_rptail(node.1@, toks, pos + n1)
                    },
                    _ => false,
                }
        },
        _ => false,
    }
}

/// What [`is_reverse_polish`] says.
pub proof fn lemma_is_reverse_polish<'arena>(
    node: ReversePolish<'arena>,
    toks: Seq<Token>,
    pos: nat,
)
    ensures
        is_reverse_polish(node, toks, pos) == (
            match spec_operand(toks, pos) {
                Outcome::Matched(n1) => {
                    &&& is_operand(node.0, toks, pos)
                    &&& match spec_many0_rptail(toks, pos + n1) {
                            Outcome::Matched(_) => {
                                &&& advanced(toks, pos, n1)
                                &&& is_row_of_rptail(node.1@, toks, pos + n1)
                            },
                            _ => false,
                        }
                },
                _ => false,
            }
        ),
{
    reveal(is_reverse_polish);
    reveal(is_operand);
    reveal(is_row_of_rptail);
}

/// Whether `node` is the node that `Operand` makes of the tokens at `pos`.
#[verifier::opaque]
pub closed spec fn is_operand<'arena>(node: Operand<'arena>, toks: Seq<Token>, pos: nat) -> bool
    decreases rest(toks, pos), 99nat,
{
    match spec_operand_1(toks, pos) {
        Outcome::Matched(n1) => {
            &&& is_operand_1(node.0, toks, pos)
            &&& match spec_many0_connected_operand(toks, pos + n1) {
                    Outcome::Matched(_) => is_row_of_connected_operand(node.1@, toks, pos + n1),
                    _ => false,
                }
        },
        _ => false,
    }
}

/// What [`is_operand`] says.
pub proof fn lemma_is_operand<'arena>(node: Operand<'arena>, toks: Seq<Token>, pos: nat)
    ensures
        is_operand(node, toks, pos) == (
            match spec_operand_1(toks, pos) {
                Outcome::Matched(n1) => {
                    &&& is_operand_1(node.0, toks, pos)
                    &&& match spec_many0_connected_operand(toks, pos + n1) {
                            Outcome::Matched(_) => is_row_of_connected_operand(
                                node.1@,
                                toks,
                                pos + n1,
                            ),
                            _ => false,
                        }
                },
                _ => false,
            }
        ),
{
    reveal(is_operand);
    reveal(is_operand_1);
    reveal(is_row_of_connected_operand);
}

/// Whether `node` is the node that `Operand1` makes of the tokens at `pos`.
#[verifier::opaque]
pub closed spec fn is_operand_1<'arena>(
    node: Operand1<'arena>,
    toks: Seq<Token>,
    pos: nat,
) -> bool
    decreases rest(toks, pos), 95nat,
{
    match spec_operand_2_list(toks, pos) {
        Outcome::Matched(_) => is_operand_2_list(node.0, toks, pos),
        _ => false,
    }
}

/// What [`is_operand_1`] says.
pub proof fn lemma_is_operand_1<'arena>(node: Operand1<'arena>, toks: Seq<Token>, pos: nat)
    ensures
        is_operand_1(node, toks, pos) == (
            match spec_operand_2_list(toks, pos) {
                Outcome::Matched(_) => is_operand_2_list(node.0, toks, pos),
                _ => false,
            }
        ),
{
    reveal(is_operand_1);
    reveal(is_operand_2_list);
}

/// Whether `node` is the node that `Operand2List` makes of the tokens at `pos`.
#[verifier::opaque]
pub closed spec fn is_operand_2_list<'arena>(
    node: Separated<'arena, Operand2<'arena>, (JoikEk<'arena>, Option<TagWords<'arena>>, WithFree<'arena, Word<'arena>>)>,
    toks: Seq<Token>,
    pos: nat,
) -> bool
    decreases rest(toks, pos), 94nat,
{
    match spec_operand_2(toks, pos) {
        Outcome::Matched(n1) => {
            &&& is_operand_2(*node.first, toks, pos)
            &&& match spec_many0_operand_2_list_next(toks, pos + n1) {
                    Outcome::Matched(_) => is_row_of_operand_2_list_next(
                        node.rest@,
                        toks,
                        pos + n1,
                    ),
                    _ => false,
                }
        },
        _ => false,
    }
}

/// What [`is_operand_2_list`] says.
pub proof fn lemma_is_operand_2_list<'arena>(
    node: Separated<'arena, Operand2<'arena>, (JoikEk<'arena>, Option<TagWords<'arena>>, WithFree<'arena, Word<'arena>>)>,
    toks: Seq<Token>,
    pos: nat,
)
    ensures
        is_operand_2_list(node, toks, pos) == (
            match spec_operand_2(toks, pos) {
                Outcome::Matched(n1) => {
                    &&& is_operand_2(*node.first, toks, pos)
                    &&& match spec_many0_operand_2_list_next(toks, pos + n1) {
                            Outcome::Matched(_) => is_row_of_operand_2_list_next(
                                node.rest@,
                                toks,
                                pos + n1,
                            ),
                            _ => false,
                        }
                },
                _ => false,
            }
        ),
{
    reveal(is_operand_2_list);
    reveal(is_operand_2);
    reveal(is_row_of_operand_2_list_next);
}

/// Whether `node` is the node that `Operand2` makes of the tokens at `pos`.
#[verifier::opaque]
pub closed spec fn is_operand_2<'arena>(
    node: Operand2<'arena>,
    toks: Seq<Token>,
    pos: nat,
) -> bool
    decreases rest(toks, pos), 91nat,
{
    match spec_many0_operand_2_connected_pre(toks, pos) {
        Outcome::Matched(n1) => {
            &&& is_row_of_operand_2_connected_pre(node.0@, toks, pos)
            &&& match spec_operand_3(toks, pos + n1) {
                    Outcome::Matched(_) => is_operand_3(node.1, toks, pos + n1),
                    _ => false,
                }
        },
        _ => false,
    }
}

/// What [`is_operand_2`] says.
pub proof fn lemma_is_operand_2<'arena>(node: Operand2<'arena>, toks: Seq<Token>, pos: nat)
    ensures
        is_operand_2(node, toks, pos) == (
            match spec_many0_operand_2_connected_pre(toks, pos) {
                Outcome::Matched(n1) => {
                    &&& is_row_of_operand_2_connected_pre(node.0@, toks, pos)
                    &&& match spec_operand_3(toks, pos + n1) {
                            Outcome::Matched(_) => is_operand_3(node.1, toks, pos + n1),
                            _ => false,
                        }
                },
                _ => false,
            }
        ),
{
    reveal(is_operand_2);
    reveal(is_row_of_operand_2_connected_pre);
    reveal(is_operand_3);
}

/// Whether `node` is the node that `Operand2ConnectedPre` makes of the tokens at `pos`.
#[verifier::opaque]
pub closed spec fn is_operand_2_connected_pre<'arena>(
    node: Operand2ConnectedPre<'arena>,
    toks: Seq<Token>,
    pos: nat,
) -> bool
    decreases rest(toks, pos), 34nat,
{
    match spec_gek(toks, pos) {
        Outcome::Matched(n1) => {
            &&& is_gek(node.0, toks, pos)
            &&& match spec_operand(toks, pos + n1) {
                    Outcome::Matched(n2) => {
                        &&& advanced(toks, pos, n1)
                        &&& is_operand(node.1, toks, pos + n1)
                        &&& match spec_gik(toks, pos + n1 + n2) {
                                Outcome::Matched(_) => is_gik(node.2, toks, pos + n1 + n2),
                                _ => false,
                            }
                    },
                    _ => false,
                }
        },
        _ => false,
    }
}

/// What [`is_operand_2_connected_pre`] says.
pub proof fn lemma_is_operand_2_connected_pre<'arena>(
    node: Operand2ConnectedPre<'arena>,
    toks: Seq<Token>,
    pos: nat,
)
    ensures
        is_operand_2_connected_pre(node, toks, pos) == (
            match spec_gek(toks, pos) {
                Outcome::Matched(n1) => {
                    &&& is_gek(node.0, toks, pos)
                    &&& match spec_operand(toks, pos + n1) {
                            Outcome::Matched(n2) => {
                                &&& advanced(toks, pos, n1)
                                &&& is_operand(node.1, toks, pos + n1)
                                &&& match spec_gik(toks, pos + n1 + n2) {
                                        Outcome::Matched(_) => is_gik(
                                            node.2,
                                            toks,
                                            pos + n1 + n2,
                                        ),
                                        _ => false,
                                    }
                            },
                            _ => false,
                        }
                },
                _ => false,
            }
        ),
{
    reveal(is_operand_2_connected_pre);
    reveal(is_gek);
    reveal(is_operand);
    reveal(is_gik);
}

/// How many tokens the first `count` of a row of `Operand2ConnectedPre` take at `pos`.
pub open spec fn run_of_operand_2_connected_pre(toks: Seq<Token>, pos: nat, count: nat) -> nat
    decreases count,
{
    if count == 0 {
        0
    } else {
        let before = run_of_operand_2_connected_pre(toks, pos, (count - 1) as nat);
        before + (match spec_operand_2_connected_pre(toks, pos + before) {
            Outcome::Matched(len) => len,
            _ => 0,
        })
    }
}

/// Whether `items` are the nodes of a row of `Operand2ConnectedPre` at `pos`: each is the
/// node of the `Operand2ConnectedPre` at its place, and no further one follows them.
#[verifier::opaque]
pub closed spec fn is_row_of_operand_2_connected_pre<'arena>(
    items: Seq<Operand2ConnectedPre<'arena>>,
    toks: Seq<Token>,
    pos: nat,
) -> bool
    decreases rest(toks, pos), 35nat,
{
    &&& forall|i: int|
        #![trigger items[i]]
        #![trigger run_of_operand_2_connected_pre(toks, pos, i as nat)]
        0 <= i < items.len() ==> spec_operand_2_connected_pre(
            toks,
            pos + run_of_operand_2_connected_pre(toks, pos, i as nat),
        ) is Matched && is_operand_2_connected_pre(
            items[i],
            toks,
            pos + run_of_operand_2_connected_pre(toks, pos, i as nat),
        )
    &&& !(spec_operand_2_connected_pre(
        toks,
        pos + run_of_operand_2_connected_pre(toks, pos, items.len()),
    ) is Matched)
}

/// What [`is_row_of_operand_2_connected_pre`] says.
pub proof fn lemma_is_row_of_operand_2_connected_pre<'arena>(
    items: Seq<Operand2ConnectedPre<'arena>>,
    toks: Seq<Token>,
    pos: nat,
)
    ensures
        is_row_of_operand_2_connected_pre(items, toks, pos) == ({
            &&& forall|i: int|
                #![trigger items[i]]
                #![trigger run_of_operand_2_connected_pre(toks, pos, i as nat)]
                0 <= i < items.len() ==> spec_operand_2_connected_pre(
                    toks,
                    pos + run_of_operand_2_connected_pre(toks, pos, i as nat),
                ) is Matched && is_operand_2_connected_pre(
                    items[i],
                    toks,
                    pos + run_of_operand_2_connected_pre(toks, pos, i as nat),
                )
            &&& !(spec_operand_2_connected_pre(
                toks,
                pos + run_of_operand_2_connected_pre(toks, pos, items.len()),
            ) is Matched)
        }),
{
    reveal(is_row_of_operand_2_connected_pre);
    reveal(is_operand_2_connected_pre);
}

/// Whether `node` is the node that `Operand3` makes of the tokens at `pos`: the
/// node of the first alternative that matches.
#[verifier::opaque]
pub closed spec fn is_operand_3<'arena>(
    node: Operand3<'arena>,
    toks: Seq<Token>,
    pos: nat,
) -> bool
    decreases rest(toks, pos), 90nat,
{
    match spec_operand_3_nihe(toks, pos) {
        Outcome::Matched(_) => is_operand_3_nihe(node, toks, pos),
        Outcome::Error(_) => match spec_operand_3_mohe(toks, pos) {
            Outcome::Matched(_) => is_operand_3_mohe(node, toks, pos),
            Outcome::Error(_) => match spec_operand_3_johi(toks, pos) {
                Outcome::Matched(_) => is_operand_3_johi(node, toks, pos),
                Outcome::Error(_) => match spec_operand_3_modified(toks, pos) {
                    Outcome::Matched(_) => is_operand_3_modified(node, toks, pos),
                    Outcome::Error(_) => match spec_operand_3_parenthesized(toks, pos) {
                        Outcome::Matched(_) => is_operand_3_parenthesized(node, toks, pos),
                        Outcome::Error(
                            _,
                        ) => spec_operand_3_number(
                            toks,
                            pos,
                        ) is Matched && is_operand_3_number(node, toks, pos),
                        Outcome::Failure(_) => false,
                    },
                    Outcome::Failure(_) => false,
                },
                Outcome::Failure(_) => false,
            },
            Outcome::Failure(_) => false,
        },
        Outcome::Failure(_) => false,
    }
}

/// What [`is_operand_3`] says.
pub proof fn lemma_is_operand_3<'arena>(toks: Seq<Token>, pos: nat)
    ensures
        forall|node: Operand3<'arena>| #[trigger] is_operand_3(node, toks, pos) == (
            match spec_operand_3_nihe(toks, pos) {
                Outcome::Matched(_) => is_operand_3_nihe(node, toks, pos),
                Outcome::Error(_) => match spec_operand_3_mohe(toks, pos) {
                    Outcome::Matched(_) => is_operand_3_mohe(node, toks, pos),
                    Outcome::Error(_) => match spec_operand_3_johi(toks, pos) {
                        Outcome::Matched(_) => is_operand_3_johi(node, toks, pos),
                        Outcome::Error(_) => match spec_operand_3_modified(toks, pos) {
                            Outcome::Matched(_) => is_operand_3_modified(node, toks, pos),
                            Outcome::Error(_) => match spec_operand_3_parenthesized(toks, pos) {
                                Outcome::Matched(_) => is_operand_3_parenthesized(
                                    node,
                                    toks,
                                    pos,
                                ),
                                Outcome::Error(
                                    _,
                                ) => spec_operand_3_number(
                                    toks,
                                    pos,
                                ) is Matched && is_operand_3_number(node, toks, pos),
                                Outcome::Failure(_) => false,
                            },
                            Outcome::Failure(_) => false,
                        },
                        Outcome::Failure(_) => false,
                    },
                    Outcome::Failure(_) => false,
                },
                Outcome::Failure(_) => false,
            }
        ),
{
    reveal(is_operand_3);
    reveal(is_operand_3_nihe);
    reveal(is_operand_3_mohe);
    reveal(is_operand_3_johi);
    reveal(is_operand_3_modified);
    reveal(is_operand_3_parenthesized);
    reveal(is_operand_3_number);
}

/// Whether `node` is the node that `Operand3Nihe` makes of the tokens at `pos`.
#[verifier::opaque]
pub closed spec fn is_operand_3_nihe<'arena>(
    node: Operand3<'arena>,
    toks: Seq<Token>,
    pos: nat,
) -> bool
    decreases rest(toks, pos), 89nat,
{
    match node {
        Operand3::Nihe(
            field_0,
            field_1,
            field_2,
            field_3,
        ) => match spec_word_with_free(toks, pos, Selmaho::Nihe) {
            Outcome::Matched(n1) => {
                &&& is_word_with_free(field_0, toks, pos, Selmaho::Nihe)
                &&& match spec_selbri(toks, pos + n1) {
                        Outcome::Matched(n2) => {
                            &&& is_selbri(field_1, toks, pos + n1)
                            &&& match spec_opt(spec_word(toks, pos + n1 + n2, Selmaho::Tehu)) {
                                    Outcome::Matched(n3) => {
                                        &&& (match field_2 {
                                                Some(inner) => {
                                                    &&& spec_word(
                                                        toks,
                                                        pos + n1 + n2,
                                                        Selmaho::Tehu,
                                                    ) is Matched
                                                    &&& is_word(
                                                        inner,
                                                        toks,
                                                        pos + n1 + n2,
                                                        Selmaho::Tehu,
                                                    )
                                                },
                                                None => spec_word(
                                                    toks,
                                                    pos + n1 + n2,
                                                    Selmaho::Tehu,
                                                ) is Error,
                                            })
                                        &&& match spec_frees(toks, pos + n1 + n2 + n3) {
                                                Outcome::Matched(_) => is_frees(
                                                    field_3,
                                                    toks,
                                                    pos + n1 + n2 + n3,
                                                ),
                                                _ => false,
                                            }
                                    },
                                    _ => false,
                                }
                        },
                        _ => false,
                    }
            },
            _ => false,
        },
        _ => false,
    }
}

/// What [`is_operand_3_nihe`] says.
pub proof fn lemma_is_operand_3_nihe<'arena>(node: Operand3<'arena>, toks: Seq<Token>, pos: nat)
    ensures
        is_operand_3_nihe(node, toks, pos) == (
            match node {
                Operand3::Nihe(
                    field_0,
                    field_1,
                    field_2,
                    field_3,
                ) => match spec_word_with_free(toks, pos, Selmaho::Nihe) {
                    Outcome::Matched(n1) => {
                        &&& is_word_with_free(field_0, toks, pos, Selmaho::Nihe)
                        &&& match spec_selbri(toks, pos + n1) {
                                Outcome::Matched(n2) => {
                                    &&& is_selbri(field_1, toks, pos + n1)
                                    &&& match spec_opt(
                                        spec_word(toks, pos + n1 + n2, Selmaho::Tehu),
                                    ) {
                                            Outcome::Matched(n3) => {
                                                &&& (match field_2 {
                                                        Some(inner) => {
                                                            &&& spec_word(
                                                                toks,
                                                                pos + n1 + n2,
                                                                Selmaho::Tehu,
                                                            ) is Matched
                                                            &&& is_word(
                                                                inner,
                                                                toks,
                                                                pos + n1 + n2,
                                                                Selmaho::Tehu,
                                                            )
                                                        },
                                                        None => spec_word(
                                                            toks,
                                                            pos + n1 + n2,
                                                            Selmaho::Tehu,
                                                        ) is Error,
                                                    })
                                                &&& match spec_frees(toks, pos + n1 + n2 + n3) {
                                                        Outcome::Matched(_) => is_frees(
                                                            field_3,
                                                            toks,
                                                            pos + n1 + n2 + n3,
                                                        ),
                                                        _ => false,
                                                    }
                                            },
                                            _ => false,
                                        }
                                },
                                _ => false,
                            }
                    },
                    _ => false,
                },
                _ => false,
            }
        ),
{
    reveal(is_operand_3_nihe);
    reveal(is_word_with_free);
    reveal(is_selbri);
    reveal(is_word);
    reveal(is_frees);
}

/// Whether `node` is the node that `Operand3Mohe` makes of the tokens at `pos`.
#[verifier::opaque]
pub closed spec fn is_operand_3_mohe<'arena>(
    node: Operand3<'arena>,
    toks: Seq<Token>,
    pos: nat,
) -> bool
    decreases rest(toks, pos), 45nat,
{
    match node {
        Operand3::Mohe(
            field_0,
            field_1,
            field_2,
            field_3,
        ) => match spec_word_with_free(toks, pos, Selmaho::Mohe) {
            Outcome::Matched(n1) => {
                &&& is_word_with_free(field_0, toks, pos, Selmaho::Mohe)
                &&& match spec_sumti(toks, pos + n1) {
                        Outcome::Matched(n2) => {
                            &&& is_sumti(field_1, toks, pos + n1)
                            &&& match spec_opt(spec_word(toks, pos + n1 + n2, Selmaho::Tehu)) {
                                    Outcome::Matched(n3) => {
                                        &&& (match field_2 {
                                                Some(inner) => {
                                                    &&& spec_word(
                                                        toks,
                                                        pos + n1 + n2,
                                                        Selmaho::Tehu,
                                                    ) is Matched
                                                    &&& is_word(
                                                        inner,
                                                        toks,
                                                        pos + n1 + n2,
                                                        Selmaho::Tehu,
                                                    )
                                                },
                                                None => spec_word(
                                                    toks,
                                                    pos + n1 + n2,
                                                    Selmaho::Tehu,
                                                ) is Error,
                                            })
                                        &&& match spec_frees(toks, pos + n1 + n2 + n3) {
                                                Outcome::Matched(_) => is_frees(
                                                    field_3,
                                                    toks,
                                                    pos + n1 + n2 + n3,
                                                ),
                                                _ => false,
                                            }
                                    },
                                    _ => false,
                                }
                        },
                        _ => false,
                    }
            },
            _ => false,
        },
        _ => false,
    }
}

/// What [`is_operand_3_mohe`] says.
pub proof fn lemma_is_operand_3_mohe<'arena>(node: Operand3<'arena>, toks: Seq<Token>, pos: nat)
    ensures
        is_operand_3_mohe(node, toks, pos) == (
            match node {
                Operand3::Mohe(
                    field_0,
                    field_1,
                    field_2,
                    field_3,
                ) => match spec_word_with_free(toks, pos, Selmaho::Mohe) {
                    Outcome::Matched(n1) => {
                        &&& is_word_with_free(field_0, toks, pos, Selmaho::Mohe)
                        &&& match spec_sumti(toks, pos + n1) {
                                Outcome::Matched(n2) => {
                                    &&& is_sumti(field_1, toks, pos + n1)
                                    &&& match spec_opt(
                                        spec_word(toks, pos + n1 + n2, Selmaho::Tehu),
                                    ) {
                                            Outcome::Matched(n3) => {
                                                &&& (match field_2 {
                                                        Some(inner) => {
                                                            &&& spec_word(
                                                                toks,
                                                                pos + n1 + n2,
                                                                Selmaho::Tehu,
                                                            ) is Matched
                                                            &&& is_word(
                                                                inner,
                                                                toks,
                                                                pos + n1 + n2,
                                                                Selmaho::Tehu,
                                                            )
                                                        },
                                                        None => spec_word(
                                                            toks,
                                                            pos + n1 + n2,
                                                            Selmaho::Tehu,
                                                        ) is Error,
                                                    })
                                                &&& match spec_frees(toks, pos + n1 + n2 + n3) {
                                                        Outcome::Matched(_) => is_frees(
                                                            field_3,
                                                            toks,
                                                            pos + n1 + n2 + n3,
                                                        ),
                                                        _ => false,
                                                    }
                                            },
                                            _ => false,
                                        }
                                },
                                _ => false,
                            }
                    },
                    _ => false,
                },
                _ => false,
            }
        ),
{
    reveal(is_operand_3_mohe);
    reveal(is_word_with_free);
    reveal(is_sumti);
    reveal(is_word);
    reveal(is_frees);
}

/// Whether `node` is the node that `Operand3Johi` makes of the tokens at `pos`.
#[verifier::opaque]
pub closed spec fn is_operand_3_johi<'arena>(
    node: Operand3<'arena>,
    toks: Seq<Token>,
    pos: nat,
) -> bool
    decreases rest(toks, pos), 25nat,
{
    match node {
        Operand3::Johi(
            field_0,
            field_1,
            field_2,
            field_3,
        ) => match spec_word_with_free(toks, pos, Selmaho::Johi) {
            Outcome::Matched(n1) => {
                &&& is_word_with_free(field_0, toks, pos, Selmaho::Johi)
                &&& match spec_many1_expression_1(toks, pos + n1) {
                        Outcome::Matched(n2) => {
                            &&& advanced(toks, pos, n1)
                            &&& is_row_of_expression_1(field_1@, toks, pos + n1)
                            &&& match spec_opt(spec_word(toks, pos + n1 + n2, Selmaho::Tehu)) {
                                    Outcome::Matched(n3) => {
                                        &&& (match field_2 {
                                                Some(inner) => {
                                                    &&& spec_word(
                                                        toks,
                                                        pos + n1 + n2,
                                                        Selmaho::Tehu,
                                                    ) is Matched
                                                    &&& is_word(
                                                        inner,
                                                        toks,
                                                        pos + n1 + n2,
                                                        Selmaho::Tehu,
                                                    )
                                                },
                                                None => spec_word(
                                                    toks,
                                                    pos + n1 + n2,
                                                    Selmaho::Tehu,
                                                ) is Error,
                                            })
                                        &&& match spec_frees(toks, pos + n1 + n2 + n3) {
                                                Outcome::Matched(_) => is_frees(
                                                    field_3,
                                                    toks,
                                                    pos + n1 + n2 + n3,
                                                ),
                                                _ => false,
                                            }
                                    },
                                    _ => false,
                                }
                        },
                        _ => false,
                    }
            },
            _ => false,
        },
        _ => false,
    }
}

/// What [`is_operand_3_johi`] says.
pub proof fn lemma_is_operand_3_johi<'arena>(node: Operand3<'arena>, toks: Seq<Token>, pos: nat)
    ensures
        is_operand_3_johi(node, toks, pos) == (
            match node {
                Operand3::Johi(
                    field_0,
                    field_1,
                    field_2,
                    field_3,
                ) => match spec_word_with_free(toks, pos, Selmaho::Johi) {
                    Outcome::Matched(n1) => {
                        &&& is_word_with_free(field_0, toks, pos, Selmaho::Johi)
                        &&& match spec_many1_expression_1(toks, pos + n1) {
                                Outcome::Matched(n2) => {
                                    &&& advanced(toks, pos, n1)
                                    &&& is_row_of_expression_1(field_1@, toks, pos + n1)
                                    &&& match spec_opt(
                                        spec_word(toks, pos + n1 + n2, Selmaho::Tehu),
                                    ) {
                                            Outcome::Matched(n3) => {
                                                &&& (match field_2 {
                                                        Some(inner) => {
                                                            &&& spec_word(
                                                                toks,
                                                                pos + n1 + n2,
                                                                Selmaho::Tehu,
                                                            ) is Matched
                                                            &&& is_word(
                                                                inner,
                                                                toks,
                                                                pos + n1 + n2,
                                                                Selmaho::Tehu,
                                                            )
                                                        },
                                                        None => spec_word(
                                                            toks,
                                                            pos + n1 + n2,
                                                            Selmaho::Tehu,
                                                        ) is Error,
                                                    })
                                                &&& match spec_frees(toks, pos + n1 + n2 + n3) {
                                                        Outcome::Matched(_) => is_frees(
                                                            field_3,
                                                            toks,
                                                            pos + n1 + n2 + n3,
                                                        ),
                                                        _ => false,
                                                    }
                                            },
                                            _ => false,
                                        }
                                },
                                _ => false,
                            }
                    },
                    _ => false,
                },
                _ => false,
            }
        ),
{
    reveal(is_operand_3_johi);
    reveal(is_word_with_free);
    reveal(is_row_of_expression_1);
    reveal(is_word);
    reveal(is_frees);
}

/// Whether `node` is the node that `Expression1` makes of the tokens at `pos`: the
/// node of the first alternative that matches.
#[verifier::opaque]
pub closed spec fn is_expression_1<'arena>(
    node: Expression1<'arena>,
    toks: Seq<Token>,
    pos: nat,
) -> bool
    decreases rest(toks, pos), 101nat,
{
    match spec_expression_1_operand(toks, pos) {
        Outcome::Matched(_) => is_expression_1_operand(node, toks, pos),
        Outcome::Error(
            _,
        ) => spec_expression_1_forethought(
            toks,
            pos,
        ) is Matched && is_expression_1_forethought(node, toks, pos),
        Outcome::Failure(_) => false,
    }
}

/// What [`is_expression_1`] says.
pub proof fn lemma_is_expression_1<'arena>(toks: Seq<Token>, pos: nat)
    ensures
        forall|node: Expression1<'arena>| #[trigger] is_expression_1(node, toks, pos) == (
            match spec_expression_1_operand(toks, pos) {
                Outcome::Matched(_) => is_expression_1_operand(node, toks, pos),
                Outcome::Error(
                    _,
                ) => spec_expression_1_forethought(
                    toks,
                    pos,
                ) is Matched && is_expression_1_forethought(node, toks, pos),
                Outcome::Failure(_) => false,
            }
        ),
{
    reveal(is_expression_1);
    reveal(is_expression_1_operand);
    reveal(is_expression_1_forethought);
}

/// How many tokens the first `count` of a row of `Expression1` take at `pos`.
pub open spec fn run_of_expression_1(toks: Seq<Token>, pos: nat, count: nat) -> nat
    decreases count,
{
    if count == 0 {
        0
    } else {
        let before = run_of_expression_1(toks, pos, (count - 1) as nat);
        before + (match spec_expression_1(toks, pos + before) {
            Outcome::Matched(len) => len,
            _ => 0,
        })
    }
}

/// Whether `items` are the nodes of a row of `Expression1` at `pos`: each is the
/// node of the `Expression1` at its place, and no further one follows them.
#[verifier::opaque]
pub closed spec fn is_row_of_expression_1<'arena>(
    items: Seq<Expression1<'arena>>,
    toks: Seq<Token>,
    pos: nat,
) -> bool
    decreases rest(toks, pos), 102nat,
{
    &&& forall|i: int|
        #![trigger items[i]]
        #![trigger run_of_expression_1(toks, pos, i as nat)]
        0 <= i < items.len() ==> spec_expression_1(
            toks,
            pos + run_of_expression_1(toks, pos, i as nat),
        ) is Matched && is_expression_1(
            items[i],
            toks,
            pos + run_of_expression_1(toks, pos, i as nat),
        )
    &&& !(spec_expression_1(toks, pos + run_of_expression_1(toks, pos, items.len())) is Matched)
}

/// What [`is_row_of_expression_1`] says.
pub proof fn lemma_is_row_of_expression_1<'arena>(
    items: Seq<Expression1<'arena>>,
    toks: Seq<Token>,
    pos: nat,
)
    ensures
        is_row_of_expression_1(items, toks, pos) == ({
            &&& forall|i: int|
                #![trigger items[i]]
                #![trigger run_of_expression_1(toks, pos, i as nat)]
                0 <= i < items.len() ==> spec_expression_1(
                    toks,
                    pos + run_of_expression_1(toks, pos, i as nat),
                ) is Matched && is_expression_1(
                    items[i],
                    toks,
                    pos + run_of_expression_1(toks, pos, i as nat),
                )
            &&& !(spec_expression_1(
                toks,
                pos + run_of_expression_1(toks, pos, items.len()),
            ) is Matched)
        }),
{
    reveal(is_row_of_expression_1);
    reveal(is_expression_1);
}

/// Whether `node` is the node that `Expression1Operand` makes of the tokens at `pos`.
#[verifier::opaque]
pub closed spec fn is_expression_1_operand<'arena>(
    node: Expression1<'arena>,
    toks: Seq<Token>,
    pos: nat,
) -> bool
    decreases rest(toks, pos), 100nat,
{
    match node {
        Expression1::Operand(field_0) => match spec_operand(toks, pos) {
            Outcome::Matched(_) => is_operand(field_0, toks, pos),
            _ => false,
        },
        _ => false,
    }
}

/// What [`is_expression_1_operand`] says.
pub proof fn lemma_is_expression_1_operand<'arena>(
    node: Expression1<'arena>,
    toks: Seq<Token>,
    pos: nat,
)
    ensures
        is_expression_1_operand(node, toks, pos) == (
            match node {
                Expression1::Operand(field_0) => match spec_operand(toks, pos) {
                    Outcome::Matched(_) => is_operand(field_0, toks, pos),
                    _ => false,
                },
                _ => false,
            }
        ),
{
    reveal(is_expression_1_operand);
    reveal(is_operand);
}

/// Whether `node` is the node that `Expression1Forethought` makes of the tokens at `pos`.
#[verifier::opaque]
pub closed spec fn is_expression_1_forethought<'arena>(
    node: Expression1<'arena>,
    toks: Seq<Token>,
    pos: nat,
) -> bool
    decreases rest(toks, pos), 43nat,
{
    match node {
        Expression1::Forethought(field_0) => match spec_forethought_expression(toks, pos) {
            Outcome::Matched(_) => is_forethought_expression(field_0, toks, pos),
            _ => false,
        },
        _ => false,
    }
}

/// What [`is_expression_1_forethought`] says.
pub proof fn lemma_is_expression_1_forethought<'arena>(
    node: Expression1<'arena>,
    toks: Seq<Token>,
    pos: nat,
)
    ensures
        is_expression_1_forethought(node, toks, pos) == (
            match node {
                Expression1::Forethought(
                    field_0,
                ) => match spec_forethought_expression(toks, pos) {
                    Outcome::Matched(_) => is_forethought_expression(field_0, toks, pos),
                    _ => false,
                },
                _ => false,
            }
        ),
{
    reveal(is_expression_1_forethought);
    reveal(is_forethought_expression);
}

/// Whether `node` is the node that `ForethoughtExpression` makes of the tokens at `pos`.
#[verifier::opaque]
pub closed spec fn is_forethought_expression<'arena>(
    node: ForethoughtExpression<'arena>,
    toks: Seq<Token>,
    pos: nat,
) -> bool
    decreases rest(toks, pos), 42nat,
{
    match spec_opt(spec_word_with_free(toks, pos, Selmaho::Peho)) {
        Outcome::Matched(n1) => {
            &&& (match node.peho {
                    Some(inner) => {
                        &&& spec_word_with_free(toks, pos, Selmaho::Peho) is Matched
                        &&& is_word_with_free(inner, toks, pos, Selmaho::Peho)
                    },
                    None => spec_word_with_free(toks, pos, Selmaho::Peho) is Error,
                })
            &&& match spec_operator(toks, pos + n1) {
                    Outcome::Matched(n2) => {
                        &&& is_operator(node.operator, toks, pos + n1)
                        &&& match spec_many1_expression_1(toks, pos + n1 + n2) {
                                Outcome::Matched(n3) => {
                                    &&& advanced(toks, pos, n1 + n2)
                                    &&& is_row_of_expression_1(
                                        node.operands@,
                                        toks,
                                        pos + n1 + n2,
                                    )
                                    &&& match spec_opt(
                                        spec_word(toks, pos + n1 + n2 + n3, Selmaho::Kuhe),
                                    ) {
                                            Outcome::Matched(n4) => {
                                                &&& (match node.kuhe {
                                                        Some(inner) => {
                                                            &&& spec_word(
                                                                toks,
                                                                pos + n1 + n2 + n3,
                                                                Selmaho::Kuhe,
                                                            ) is Matched
                                                            &&& is_word(
                                                                inner,
                                                                toks,
                                                                pos + n1 + n2 + n3,
                                                                Selmaho::Kuhe,
                                                            )
                                                        },
                                                        None => spec_word(
                                                            toks,
                                                            pos + n1 + n2 + n3,
                                                            Selmaho::Kuhe,
                                                        ) is Error,
                                                    })
                                                &&& match spec_frees(
                                                    toks,
                                                    pos + n1 + n2 + n3 + n4,
                                                ) {
                                                        Outcome::Matched(_) => is_frees(
                                                            node.frees,
                                                            toks,
                                                            pos + n1 + n2 + n3 + n4,
                                                        ),
                                                        _ => false,
                                                    }
                                            },
                                            _ => false,
                                        }
                                },
                                _ => false,
                            }
                    },
                    _ => false,
                }
        },
        _ => false,
    }
}

/// What [`is_forethought_expression`] says.
pub proof fn lemma_is_forethought_expression<'arena>(
    node: ForethoughtExpression<'arena>,
    toks: Seq<Token>,
    pos: nat,
)
    ensures
        is_forethought_expression(node, toks, pos) == (
            match spec_opt(spec_word_with_free(toks, pos, Selmaho::Peho)) {
                Outcome::Matched(n1) => {
                    &&& (match node.peho {
                            Some(inner) => {
                                &&& spec_word_with_free(toks, pos, Selmaho::Peho) is Matched
                                &&& is_word_with_free(inner, toks, pos, Selmaho::Peho)
                            },
                            None => spec_word_with_free(toks, pos, Selmaho::Peho) is Error,
                        })
                    &&& match spec_operator(toks, pos + n1) {
                            Outcome::Matched(n2) => {
                                &&& is_operator(node.operator, toks, pos + n1)
                                &&& match spec_many1_expression_1(toks, pos + n1 + n2) {
                                        Outcome::Matched(n3) => {
                                            &&& advanced(toks, pos, n1 + n2)
                                            &&& is_row_of_expression_1(
                                                node.operands@,
                                                toks,
                                                pos + n1 + n2,
                                            )
                                            &&& match spec_opt(
                                                spec_word(
                                                    toks,
                                                    pos + n1 + n2 + n3,
                                                    Selmaho::Kuhe,
                                                ),
                                            ) {
                                                    Outcome::Matched(n4) => {
                                                        &&& (match node.kuhe {
                                                                Some(inner) => {
                                                                    &&& spec_word(
                                                                        toks,
                                                                        pos + n1 + n2 + n3,
                                                                        Selmaho::Kuhe,
                                                                    ) is Matched
                                                                    &&& is_word(
                                                                        inner,
                                                                        toks,
                                                                        pos + n1 + n2 + n3,
                                                                        Selmaho::Kuhe,
                                                                    )
                                                                },
                                                                None => spec_word(
                                                                    toks,
                                                                    pos + n1 + n2 + n3,
                                                                    Selmaho::Kuhe,
                                                                ) is Error,
                                                            })
                                                        &&& match spec_frees(
                                                            toks,
                                                            pos + n1 + n2 + n3 + n4,
                                                        ) {
                                                                Outcome::Matched(_) => is_frees(
                                                                    node.frees,
                                                                    toks,
                                                                    pos + n1 + n2 + n3 + n4,
                                                                ),
                                                                _ => false,
                                                            }
                                                    },
                                                    _ => false,
                                                }
                                        },
                                        _ => false,
                                    }
                            },
                            _ => false,
                        }
                },
                _ => false,
            }
        ),
{
    reveal(is_forethought_expression);
    reveal(is_word_with_free);
    reveal(is_operator);
    reveal(is_row_of_expression_1);
    reveal(is_word);
    reveal(is_frees);
}

/// Whether `node` is the node that `Operator` makes of the tokens at `pos`.
#[verifier::opaque]
pub closed spec fn is_operator<'arena>(node: Operator<'arena>, toks: Seq<Token>, pos: nat) -> bool
    decreases rest(toks, pos), 41nat,
{
    match spec_operator_1(toks, pos) {
        Outcome::Matched(n1) => {
            &&& is_operator_1(node.0, toks, pos)
            &&& match spec_many0_connected_operator(toks, pos + n1) {
                    Outcome::Matched(_) => is_row_of_connected_operator(node.1@, toks, pos + n1),
                    _ => false,
                }
        },
        _ => false,
    }
}

/// What [`is_operator`] says.
pub proof fn lemma_is_operator<'arena>(node: Operator<'arena>, toks: Seq<Token>, pos: nat)
    ensures
        is_operator(node, toks, pos) == (
            match spec_operator_1(toks, pos) {
                Outcome::Matched(n1) => {
                    &&& is_operator_1(node.0, toks, pos)
                    &&& match spec_many0_connected_operator(toks, pos + n1) {
                            Outcome::Matched(_) => is_row_of_connected_operator(
                                node.1@,
                                toks,
                                pos + n1,
                            ),
                            _ => false,
                        }
                },
                _ => false,
            }
        ),
{
    reveal(is_operator);
    reveal(is_operator_1);
    reveal(is_row_of_connected_operator);
}

/// Whether `node` is the node that `Operator1` makes of the tokens at `pos`.
#[verifier::opaque]
pub closed spec fn is_operator_1<'arena>(
    node: Operator1<'arena>,
    toks: Seq<Token>,
    pos: nat,
) -> bool
    decreases rest(toks, pos), 37nat,
{
    match spec_many0_operator_guhek(toks, pos) {
        Outcome::Matched(n1) => {
            &&& is_row_of_operator_guhek(node.0@, toks, pos)
            &&& match spec_operator_2(toks, pos + n1) {
                    Outcome::Matched(_) => is_operator_2(node.1, toks, pos + n1),
                    _ => false,
                }
        },
        _ => false,
    }
}

/// What [`is_operator_1`] says.
pub proof fn lemma_is_operator_1<'arena>(node: Operator1<'arena>, toks: Seq<Token>, pos: nat)
    ensures
        is_operator_1(node, toks, pos) == (
            match spec_many0_operator_guhek(toks, pos) {
                Outcome::Matched(n1) => {
                    &&& is_row_of_operator_guhek(node.0@, toks, pos)
                    &&& match spec_operator_2(toks, pos + n1) {
                            Outcome::Matched(_) => is_operator_2(node.1, toks, pos + n1),
                            _ => false,
                        }
                },
                _ => false,
            }
        ),
{
    reveal(is_operator_1);
    reveal(is_row_of_operator_guhek);
    reveal(is_operator_2);
}

/// Whether `node` is the node that `OperatorGuhek` makes of the tokens at `pos`.
#[verifier::opaque]
pub closed spec fn is_operator_guhek<'arena>(
    node: NaheGuhekTGik<'arena, Operator1<'arena>>,
    toks: Seq<Token>,
    pos: nat,
) -> bool
    decreases rest(toks, pos), 26nat,
{
    match spec_opt(spec_word(toks, pos, Selmaho::Nahe)) {
        Outcome::Matched(n1) => {
            &&& (match node.0 {
                    Some(inner) => {
                        &&& spec_word(toks, pos, Selmaho::Nahe) is Matched
                        &&& is_word(inner, toks, pos, Selmaho::Nahe)
                    },
                    None => spec_word(toks, pos, Selmaho::Nahe) is Error,
                })
            &&& match spec_frees(toks, pos + n1) {
                    Outcome::Matched(n2) => {
                        &&& is_frees(node.1, toks, pos + n1)
                        &&& match spec_guhek(toks, pos + n1 + n2) {
                                Outcome::Matched(n3) => {
                                    &&& is_guhek(node.2, toks, pos + n1 + n2)
                                    &&& match spec_operator_1(toks, pos + n1 + n2 + n3) {
                                            Outcome::Matched(n4) => {
                                                &&& advanced(toks, pos, n1 + n2 + n3)
                                                &&& is_operator_1(
                                                    node.3,
                                                    toks,
                                                    pos + n1 + n2 + n3,
                                                )
                                                &&& match spec_gik(
                                                    toks,
                                                    pos + n1 + n2 + n3 + n4,
                                                ) {
                                                        Outcome::Matched(_) => is_gik(
                                                            node.4,
                                                            toks,
                                                            pos + n1 + n2 + n3 + n4,
                                                        ),
                                                        _ => false,
                                                    }
                                            },
                                            _ => false,
                                        }
                                },
                                _ => false,
                            }
                    },
                    _ => false,
                }
        },
        _ => false,
    }
}

/// What [`is_operator_guhek`] says.
pub proof fn lemma_is_operator_guhek<'arena>(
    node: NaheGuhekTGik<'arena, Operator1<'arena>>,
    toks: Seq<Token>,
    pos: nat,
)
    ensures
        is_operator_guhek(node, toks, pos) == (
            match spec_opt(spec_word(toks, pos, Selmaho::Nahe)) {
                Outcome::Matched(n1) => {
                    &&& (match node.0 {
                            Some(inner) => {
                                &&& spec_word(toks, pos, Selmaho::Nahe) is Matched
                                &&& is_word(inner, toks, pos, Selmaho::Nahe)
                            },
                            None => spec_word(toks, pos, Selmaho::Nahe) is Error,
                        })
                    &&& match spec_frees(toks, pos + n1) {
                            Outcome::Matched(n2) => {
                                &&& is_frees(node.1, toks, pos + n1)
                                &&& match spec_guhek(toks, pos + n1 + n2) {
                                        Outcome::Matched(n3) => {
                                            &&& is_guhek(node.2, toks, pos + n1 + n2)
                                            &&& match spec_operator_1(toks, pos + n1 + n2 + n3) {
                                                    Outcome::Matched(n4) => {
                                                        &&& advanced(toks, pos, n1 + n2 + n3)
                                                        &&& is_operator_1(
                                                            node.3,
                                                            toks,
                                                            pos + n1 + n2 + n3,
                                                        )
                                                        &&& match spec_gik(
                                                            toks,
                                                            pos + n1 + n2 + n3 + n4,
                                                        ) {
                                                                Outcome::Matched(_) => is_gik(
                                                                    node.4,
                                                                    toks,
                                                                    pos + n1 + n2 + n3 + n4,
                                                                ),
                                                                _ => false,
                                                            }
                                                    },
                                                    _ => false,
                                                }
                                        },
                                        _ => false,
                                    }
                            },
                            _ => false,
                        }
                },
                _ => false,
            }
        ),
{
    reveal(is_operator_guhek);
    reveal(is_word);
    reveal(is_frees);
    reveal(is_guhek);
    reveal(is_operator_1);
    reveal(is_gik);
}

/// How many tokens the first `count` of a row of `OperatorGuhek` take at `pos`.
pub open spec fn run_of_operator_guhek(toks: Seq<Token>, pos: nat, count: nat) -> nat
    decreases count,
{
    if count == 0 {
        0
    } else {
        let before = run_of_operator_guhek(toks, pos, (count - 1) as nat);
        before + (match spec_operator_guhek(toks, pos + before) {
            Outcome::Matched(len) => len,
            _ => 0,
        })
    }
}

/// Whether `items` are the nodes of a row of `OperatorGuhek` at `pos`: each is the
/// node of the `OperatorGuhek` at its place, and no further one follows them.
#[verifier::opaque]
pub closed spec fn is_row_of_operator_guhek<'arena>(
    items: Seq<NaheGuhekTGik<'arena, Operator1<'arena>>>,
    toks: Seq<Token>,
    pos: nat,
) -> bool
    decreases rest(toks, pos), 27nat,
{
    &&& forall|i: int|
        #![trigger items[i]]
        #![trigger run_of_operator_guhek(toks, pos, i as nat)]
        0 <= i < items.len() ==> spec_operator_guhek(
            toks,
            pos + run_of_operator_guhek(toks, pos, i as nat),
        ) is Matched && is_operator_guhek(
            items[i],
            toks,
            pos + run_of_operator_guhek(toks, pos, i as nat),
        )
    &&& !(spec_operator_guhek(
        toks,
        pos + run_of_operator_guhek(toks, pos, items.len()),
    ) is Matched)
}

/// What [`is_row_of_operator_guhek`] says.
pub proof fn lemma_is_row_of_operator_guhek<'arena>(
    items: Seq<NaheGuhekTGik<'arena, Operator1<'arena>>>,
    toks: Seq<Token>,
    pos: nat,
)
    ensures
        is_row_of_operator_guhek(items, toks, pos) == ({
            &&& forall|i: int|
                #![trigger items[i]]
                #![trigger run_of_operator_guhek(toks, pos, i as nat)]
                0 <= i < items.len() ==> spec_operator_guhek(
                    toks,
                    pos + run_of_operator_guhek(toks, pos, i as nat),
                ) is Matched && is_operator_guhek(
                    items[i],
                    toks,
                    pos + run_of_operator_guhek(toks, pos, i as nat),
                )
            &&& !(spec_operator_guhek(
                toks,
                pos + run_of_operator_guhek(toks, pos, items.len()),
            ) is Matched)
        }),
{
    reveal(is_row_of_operator_guhek);
    reveal(is_operator_guhek);
}

/// Whether `node` is the node that `Operator2` makes of the tokens at `pos`.
#[verifier::opaque]
pub closed spec fn is_operator_2<'arena>(
    node: Operator2<'arena>,
    toks: Seq<Token>,
    pos: nat,
) -> bool
    decreases rest(toks, pos), 36nat,
{
    match spec_operator_3_list(toks, pos) {
        Outcome::Matched(_) => is_operator_3_list(node.0, toks, pos),
        _ => false,
    }
}

/// What [`is_operator_2`] says.
pub proof fn lemma_is_operator_2<'arena>(node: Operator2<'arena>, toks: Seq<Token>, pos: nat)
    ensures
        is_operator_2(node, toks, pos) == (
            match spec_operator_3_list(toks, pos) {
                Outcome::Matched(_) => is_operator_3_list(node.0, toks, pos),
                _ => false,
            }
        ),
{
    reveal(is_operator_2);
    reveal(is_operator_3_list);
}

/// Whether `node` is the node that `Operator3List` makes of the tokens at `pos`.
#[verifier::opaque]
pub closed spec fn is_operator_3_list<'arena>(
    node: Separated<'arena, Operator3<'arena>, (JoikJek<'arena>, Option<TagWords<'arena>>, WithFree<'arena, Word<'arena>>)>,
    toks: Seq<Token>,
    pos: nat,
) -> bool
    decreases rest(toks, pos), 35nat,
{
    match spec_operator_3(toks, pos) {
        Outcome::Matched(n1) => {
            &&& is_operator_3(*node.first, toks, pos)
            &&& match spec_many0_operator_3_list_next(toks, pos + n1) {
                    Outcome::Matched(_) => is_row_of_operator_3_list_next(
                        node.rest@,
                        toks,
                        pos + n1,
                    ),
                    _ => false,
                }
        },
        _ => false,
    }
}

/// What [`is_operator_3_list`] says.
pub proof fn lemma_is_operator_3_list<'arena>(
    node: Separated<'arena, Operator3<'arena>, (JoikJek<'arena>, Option<TagWords<'arena>>, WithFree<'arena, Word<'arena>>)>,
    toks: Seq<Token>,
    pos: nat,
)
    ensures
        is_operator_3_list(node, toks, pos) == (
            match spec_operator_3(toks, pos) {
                Outcome::Matched(n1) => {
                    &&& is_operator_3(*node.first, toks, pos)
                    &&& match spec_many0_operator_3_list_next(toks, pos + n1) {
                            Outcome::Matched(_) => is_row_of_operator_3_list_next(
                                node.rest@,
                                toks,
                                pos + n1,
                            ),
                            _ => false,
                        }
                },
                _ => false,
            }
        ),
{
    reveal(is_operator_3_list);
    reveal(is_operator_3);
    reveal(is_row_of_operator_3_list_next);
}

/// Whether `node` is the node that `Operator3` makes of the tokens at `pos`: the
/// node of the first alternative that matches.
#[verifier::opaque]
pub closed spec fn is_operator_3<'arena>(
    node: Operator3<'arena>,
    toks: Seq<Token>,
    pos: nat,
) -> bool
    decreases rest(toks, pos), 29nat,
{
    match spec_operator_3_simple(toks, pos) {
        Outcome::Matched(_) => is_operator_3_simple(node, toks, pos),
        Outcome::Error(
            _,
        ) => spec_operator_3_grouped(
            toks,
            pos,
        ) is Matched && is_operator_3_grouped(node, toks, pos),
        Outcome::Failure(_) => false,
    }
}

/// What [`is_operator_3`] says.
pub proof fn lemma_is_operator_3<'arena>(toks: Seq<Token>, pos: nat)
    ensures
        forall|node: Operator3<'arena>| #[trigger] is_operator_3(node, toks, pos) == (
            match spec_operator_3_simple(toks, pos) {
                Outcome::Matched(_) => is_operator_3_simple(node, toks, pos),
                Outcome::Error(
                    _,
                ) => spec_operator_3_grouped(
                    toks,
                    pos,
                ) is Matched && is_operator_3_grouped(node, toks, pos),
                Outcome::Failure(_) => false,
            }
        ),
{
    reveal(is_operator_3);
    reveal(is_operator_3_simple);
    reveal(is_operator_3_grouped);
}

/// Whether `node` is the node that `Operator3Simple` makes of the tokens at `pos`.
#[verifier::opaque]
pub closed spec fn is_operator_3_simple<'arena>(
    node: Operator3<'arena>,
    toks: Seq<Token>,
    pos: nat,
) -> bool
    decreases rest(toks, pos), 28nat,
{
    match node {
        Operator3::Simple(field_0) => match spec_operator_component(toks, pos) {
            Outcome::Matched(_) => is_operator_component(field_0, toks, pos),
            _ => false,
        },
        _ => false,
    }
}

/// What [`is_operator_3_simple`] says.
pub proof fn lemma_is_operator_3_simple<'arena>(
    node: Operator3<'arena>,
    toks: Seq<Token>,
    pos: nat,
)
    ensures
        is_operator_3_simple(node, toks, pos) == (
            match node {
                Operator3::Simple(field_0) => match spec_operator_component(toks, pos) {
                    Outcome::Matched(_) => is_operator_component(field_0, toks, pos),
                    _ => false,
                },
                _ => false,
            }
        ),
{
    reveal(is_operator_3_simple);
    reveal(is_operator_component);
}

/// Whether `node` is the node that `OperatorComponent` makes of the tokens at `pos`.
#[verifier::opaque]
pub closed spec fn is_operator_component<'arena>(
    node: OperatorComponent<'arena>,
    toks: Seq<Token>,
    pos: nat,
) -> bool
    decreases rest(toks, pos), 27nat,
{
    match spec_many0_operator_component_pre(toks, pos) {
        Outcome::Matched(n1) => {
            &&& is_row_of_operator_component_pre(node.0@, toks, pos)
            &&& match spec_operator_component_1(toks, pos + n1) {
                    Outcome::Matched(_) => is_operator_component_1(node.1, toks, pos + n1),
                    _ => false,
                }
        },
        _ => false,
    }
}

/// What [`is_operator_component`] says.
pub proof fn lemma_is_operator_component<'arena>(
    node: OperatorComponent<'arena>,
    toks: Seq<Token>,
    pos: nat,
)
    ensures
        is_operator_component(node, toks, pos) == (
            match spec_many0_operator_component_pre(toks, pos) {
                Outcome::Matched(n1) => {
                    &&& is_row_of_operator_component_pre(node.0@, toks, pos)
                    &&& match spec_operator_component_1(toks, pos + n1) {
                            Outcome::Matched(_) => is_operator_component_1(
                                node.1,
                                toks,
                                pos + n1,
                            ),
                            _ => false,
                        }
                },
                _ => false,
            }
        ),
{
    reveal(is_operator_component);
    reveal(is_row_of_operator_component_pre);
    reveal(is_operator_component_1);
}

/// Whether `node` is the node that `OperatorComponentPre` makes of the tokens at `pos`: the
/// node of the first alternative that matches.
#[verifier::opaque]
pub closed spec fn is_operator_component_pre<'arena>(
    node: OperatorComponentPre<'arena>,
    toks: Seq<Token>,
    pos: nat,
) -> bool
    decreases rest(toks, pos), 5nat,
{
    match spec_operator_component_pre_nahe(toks, pos) {
        Outcome::Matched(_) => is_operator_component_pre_nahe(node, toks, pos),
        Outcome::Error(
            _,
        ) => spec_operator_component_pre_se(
            toks,
            pos,
        ) is Matched && is_operator_component_pre_se(node, toks, pos),
        Outcome::Failure(_) => false,
    }
}

/// What [`is_operator_component_pre`] says.
pub proof fn lemma_is_operator_component_pre<'arena>(toks: Seq<Token>, pos: nat)
    ensures
        forall|node: OperatorComponentPre<'arena>| #[trigger] is_operator_component_pre(
            node,
            toks,
            pos,
        ) == (
            match spec_operator_component_pre_nahe(toks, pos) {
                Outcome::Matched(_) => is_operator_component_pre_nahe(node, toks, pos),
                Outcome::Error(
                    _,
                ) => spec_operator_component_pre_se(
                    toks,
                    pos,
                ) is Matched && is_operator_component_pre_se(node, toks, pos),
                Outcome::Failure(_) => false,
            }
        ),
{
    reveal(is_operator_component_pre);
    reveal(is_operator_component_pre_nahe);
    reveal(is_operator_component_pre_se);
}

/// How many tokens the first `count` of a row of `OperatorComponentPre` take at `pos`.
pub open spec fn run_of_operator_component_pre(toks: Seq<Token>, pos: nat, count: nat) -> nat
    decreases count,
{
    if count == 0 {
        0
    } else {
        let before = run_of_operator_component_pre(toks, pos, (count - 1) as nat);
        before + (match spec_operator_component_pre(toks, pos + before) {
            Outcome::Matched(len) => len,
            _ => 0,
        })
    }
}

/// Whether `items` are the nodes of a row of `OperatorComponentPre` at `pos`: each is the
/// node of the `OperatorComponentPre` at its place, and no further one follows them.
#[verifier::opaque]
pub closed spec fn is_row_of_operator_component_pre<'arena>(
    items: Seq<OperatorComponentPre<'arena>>,
    toks: Seq<Token>,
    pos: nat,
) -> bool
    decreases rest(toks, pos), 6nat,
{
    &&& forall|i: int|
        #![trigger items[i]]
        #![trigger run_of_operator_component_pre(toks, pos, i as nat)]
        0 <= i < items.len() ==> spec_operator_component_pre(
            toks,
            pos + run_of_operator_component_pre(toks, pos, i as nat),
        ) is Matched && is_operator_component_pre(
            items[i],
            toks,
            pos + run_of_operator_component_pre(toks, pos, i as nat),
        )
    &&& !(spec_operator_component_pre(
        toks,
        pos + run_of_operator_component_pre(toks, pos, items.len()),
    ) is Matched)
}

/// What [`is_row_of_operator_component_pre`] says.
pub proof fn lemma_is_row_of_operator_component_pre<'arena>(
    items: Seq<OperatorComponentPre<'arena>>,
    toks: Seq<Token>,
    pos: nat,
)
    ensures
        is_row_of_operator_component_pre(items, toks, pos) == ({
            &&& forall|i: int|
                #![trigger items[i]]
                #![trigger run_of_operator_component_pre(toks, pos, i as nat)]
                0 <= i < items.len() ==> spec_operator_component_pre(
                    toks,
                    pos + run_of_operator_component_pre(toks, pos, i as nat),
                ) is Matched && is_operator_component_pre(
                    items[i],
                    toks,
                    pos + run_of_operator_component_pre(toks, pos, i as nat),
                )
            &&& !(spec_operator_component_pre(
                toks,
                pos + run_of_operator_component_pre(toks, pos, items.len()),
            ) is Matched)
        }),
{
    reveal(is_row_of_operator_component_pre);
    reveal(is_operator_component_pre);
}

/// Whether `node` is the node that `OperatorComponentPreNahe` makes of the tokens at `pos`.
#[verifier::opaque]
pub closed spec fn is_operator_component_pre_nahe<'arena>(
    node: OperatorComponentPre<'arena>,
    toks: Seq<Token>,
    pos: nat,
) -> bool
    decreases rest(toks, pos), 4nat,
{
    match node {
        OperatorComponentPre::Nahe(
            field_0,
        ) => match spec_word_with_free(toks, pos, Selmaho::Nahe) {
            Outcome::Matched(_) => is_word_with_free(field_0, toks, pos, Selmaho::Nahe),
            _ => false,
        },
        _ => false,
    }
}

/// What [`is_operator_component_pre_nahe`] says.
pub proof fn lemma_is_operator_component_pre_nahe<'arena>(
    node: OperatorComponentPre<'arena>,
    toks: Seq<Token>,
    pos: nat,
)
    ensures
        is_operator_component_pre_nahe(node, toks, pos) == (
            match node {
                OperatorComponentPre::Nahe(
                    field_0,
                ) => match spec_word_with_free(toks, pos, Selmaho::Nahe) {
                    Outcome::Matched(_) => is_word_with_free(field_0, toks, pos, Selmaho::Nahe),
                    _ => false,
                },
                _ => false,
            }
        ),
{
    reveal(is_operator_component_pre_nahe);
    reveal(is_word_with_free);
}

/// Whether `node` is the node that `OperatorComponentPreSe` makes of the tokens at `pos`.
#[verifier::opaque]
pub closed spec fn is_operator_component_pre_se<'arena>(
    node: OperatorComponentPre<'arena>,
    toks: Seq<Token>,
    pos: nat,
) -> bool
    decreases rest(toks, pos), 4nat,
{
    match node {
        OperatorComponentPre::Se(field_0) => match spec_word_with_free(toks, pos, Selmaho::Se) {
            Outcome::Matched(_) => is_word_with_free(field_0, toks, pos, Selmaho::Se),
            _ => false,
        },
        _ => false,
    }
}

/// What [`is_operator_component_pre_se`] says.
pub proof fn lemma_is_operator_component_pre_se<'arena>(
    node: OperatorComponentPre<'arena>,
    toks: Seq<Token>,
    pos: nat,
)
    ensures
        is_operator_component_pre_se(node, toks, pos) == (
            match node {
                OperatorComponentPre::Se(
                    field_0,
                ) => match spec_word_with_free(toks, pos, Selmaho::Se) {
                    Outcome::Matched(_) => is_word_with_free(field_0, toks, pos, Selmaho::Se),
                    _ => false,
                },
                _ => false,
            }
        ),
{
    reveal(is_operator_component_pre_se);
    reveal(is_word_with_free);
}

/// Whether `node` is the node that `OperatorComponent1` makes of the tokens at `pos`: the
/// node of the first alternative that matches.
#[verifier::opaque]
pub closed spec fn is_operator_component_1<'arena>(
    node: OperatorComponent1<'arena>,
    toks: Seq<Token>,
    pos: nat,
) -> bool
    decreases rest(toks, pos), 26nat,
{
    match spec_operator_component_1_maho(toks, pos) {
        Outcome::Matched(_) => is_operator_component_1_maho(node, toks, pos),
        Outcome::Error(_) => match spec_operator_component_1_nahu(toks, pos) {
            Outcome::Matched(_) => is_operator_component_1_nahu(node, toks, pos),
            Outcome::Error(
                _,
            ) => spec_operator_component_1_vuhu(
                toks,
                pos,
            ) is Matched && is_operator_component_1_vuhu(node, toks, pos),
            Outcome::Failure(_) => false,
        },
        Outcome::Failure(_) => false,
    }
}

/// What [`is_operator_component_1`] says.
pub proof fn lemma_is_operator_component_1<'arena>(toks: Seq<Token>, pos: nat)
    ensures
        forall|node: OperatorComponent1<'arena>| #[trigger] is_operator_component_1(
            node,
            toks,
            pos,
        ) == (
            match spec_operator_component_1_maho(toks, pos) {
                Outcome::Matched(_) => is_operator_component_1_maho(node, toks, pos),
                Outcome::Error(_) => match spec_operator_component_1_nahu(toks, pos) {
                    Outcome::Matched(_) => is_operator_component_1_nahu(node, toks, pos),
                    Outcome::Error(
                        _,
                    ) => spec_operator_component_1_vuhu(
                        toks,
                        pos,
                    ) is Matched && is_operator_component_1_vuhu(node, toks, pos),
                    Outcome::Failure(_) => false,
                },
                Outcome::Failure(_) => false,
            }
        ),
{
    reveal(is_operator_component_1);
    reveal(is_operator_component_1_maho);
    reveal(is_operator_component_1_nahu);
    reveal(is_operator_component_1_vuhu);
}

/// Whether `node` is the node that `OperatorComponent1Maho` makes of the tokens at `pos`.
#[verifier::opaque]
pub closed spec fn is_operator_component_1_maho<'arena>(
    node: OperatorComponent1<'arena>,
    toks: Seq<Token>,
    pos: nat,
) -> bool
    decreases rest(toks, pos), 25nat,
{
    match node {
        OperatorComponent1::Maho(
            field_0,
            field_1,
            field_2,
            field_3,
        ) => match spec_word_with_free(toks, pos, Selmaho::Maho) {
            Outcome::Matched(n1) => {
                &&& is_word_with_free(field_0, toks, pos, Selmaho::Maho)
                &&& match spec_expression(toks, pos + n1) {
                        Outcome::Matched(n2) => {
                            &&& advanced(toks, pos, n1)
                            &&& is_expression(field_1, toks, pos + n1)
                            &&& match spec_opt(spec_word(toks, pos + n1 + n2, Selmaho::Tehu)) {
                                    Outcome::Matched(n3) => {
                                        &&& (match field_2 {
                                                Some(inner) => {
                                                    &&& spec_word(
                                                        toks,
                                                        pos + n1 + n2,
                                                        Selmaho::Tehu,
                                                    ) is Matched
                                                    &&& is_word(
                                                        inner,
                                                        toks,
                                                        pos + n1 + n2,
                                                        Selmaho::Tehu,
                                                    )
                                                },
                                                None => spec_word(
                                                    toks,
                                                    pos + n1 + n2,
                                                    Selmaho::Tehu,
                                                ) is Error,
                                            })
                                        &&& match spec_frees(toks, pos + n1 + n2 + n3) {
                                                Outcome::Matched(_) => is_frees(
                                                    field_3,
                                                    toks,
                                                    pos + n1 + n2 + n3,
                                                ),
                                                _ => false,
                                            }
                                    },
                                    _ => false,
                                }
                        },
                        _ => false,
                    }
            },
            _ => false,
        },
        _ => false,
    }
}

/// What [`is_operator_component_1_maho`] says.
pub proof fn lemma_is_operator_component_1_maho<'arena>(
    node: OperatorComponent1<'arena>,
    toks: Seq<Token>,
    pos: nat,
)
    ensures
        is_operator_component_1_maho(node, toks, pos) == (
            match node {
                OperatorComponent1::Maho(
                    field_0,
                    field_1,
                    field_2,
                    field_3,
                ) => match spec_word_with_free(toks, pos, Selmaho::Maho) {
                    Outcome::Matched(n1) => {
                        &&& is_word_with_free(field_0, toks, pos, Selmaho::Maho)
                        &&& match spec_expression(toks, pos + n1) {
                                Outcome::Matched(n2) => {
                                    &&& advanced(toks, pos, n1)
                                    &&& is_expression(field_1, toks, pos + n1)
                                    &&& match spec_opt(
                                        spec_word(toks, pos + n1 + n2, Selmaho::Tehu),
                                    ) {
                                            Outcome::Matched(n3) => {
                                                &&& (match field_2 {
                                                        Some(inner) => {
                                                            &&& spec_word(
                                                                toks,
                                                                pos + n1 + n2,
                                                                Selmaho::Tehu,
                                                            ) is Matched
                                                            &&& is_word(
                                                                inner,
                                                                toks,
                                                                pos + n1 + n2,
                                                                Selmaho::Tehu,
                                                            )
                                                        },
                                                        None => spec_word(
                                                            toks,
                                                            pos + n1 + n2,
                                                            Selmaho::Tehu,
                                                        ) is Error,
                                                    })
                                                &&& match spec_frees(toks, pos + n1 + n2 + n3) {
                                                        Outcome::Matched(_) => is_frees(
                                                            field_3,
                                                            toks,
                                                            pos + n1 + n2 + n3,
                                                        ),
                                                        _ => false,
                                                    }
                                            },
                                            _ => false,
                                        }
                                },
                                _ => false,
                            }
                    },
                    _ => false,
                },
                _ => false,
            }
        ),
{
    reveal(is_operator_component_1_maho);
    reveal(is_word_with_free);
    reveal(is_expression);
    reveal(is_word);
    reveal(is_frees);
}

/// Whether `node` is the node that `OperatorComponent1Nahu` makes of the tokens at `pos`.
#[verifier::opaque]
pub closed spec fn is_operator_component_1_nahu<'arena>(
    node: OperatorComponent1<'arena>,
    toks: Seq<Token>,
    pos: nat,
) -> bool
    decreases rest(toks, pos), 25nat,
{
    match node {
        OperatorComponent1::Nahu(
            field_0,
            field_1,
            field_2,
            field_3,
        ) => match spec_word_with_free(toks, pos, Selmaho::Nahu) {
            Outcome::Matched(n1) => {
                &&& is_word_with_free(field_0, toks, pos, Selmaho::Nahu)
                &&& match spec_selbri(toks, pos + n1) {
                        Outcome::Matched(n2) => {
                            &&& advanced(toks, pos, n1)
                            &&& is_selbri(field_1, toks, pos + n1)
                            &&& match spec_opt(spec_word(toks, pos + n1 + n2, Selmaho::Tehu)) {
                                    Outcome::Matched(n3) => {
                                        &&& (match field_2 {
                                                Some(inner) => {
                                                    &&& spec_word(
                                                        toks,
                                                        pos + n1 + n2,
                                                        Selmaho::Tehu,
                                                    ) is Matched
                                                    &&& is_word(
                                                        inner,
                                                        toks,
                                                        pos + n1 + n2,
                                                        Selmaho::Tehu,
                                                    )
                                                },
                                                None => spec_word(
                                                    toks,
                                                    pos + n1 + n2,
                                                    Selmaho::Tehu,
                                                ) is Error,
                                            })
                                        &&& match spec_frees(toks, pos + n1 + n2 + n3) {
                                                Outcome::Matched(_) => is_frees(
                                                    field_3,
                                                    toks,
                                                    pos + n1 + n2 + n3,
                                                ),
                                                _ => false,
                                            }
                                    },
                                    _ => false,
                                }
                        },
                        _ => false,
                    }
            },
            _ => false,
        },
        _ => false,
    }
}

/// What [`is_operator_component_1_nahu`] says.
pub proof fn lemma_is_operator_component_1_nahu<'arena>(
    node: OperatorComponent1<'arena>,
    toks: Seq<Token>,
    pos: nat,
)
    ensures
        is_operator_component_1_nahu(node, toks, pos) == (
            match node {
                OperatorComponent1::Nahu(
                    field_0,
                    field_1,
                    field_2,
                    field_3,
                ) => match spec_word_with_free(toks, pos, Selmaho::Nahu) {
                    Outcome::Matched(n1) => {
                        &&& is_word_with_free(field_0, toks, pos, Selmaho::Nahu)
                        &&& match spec_selbri(toks, pos + n1) {
                                Outcome::Matched(n2) => {
                                    &&& advanced(toks, pos, n1)
                                    &&& is_selbri(field_1, toks, pos + n1)
                                    &&& match spec_opt(
                                        spec_word(toks, pos + n1 + n2, Selmaho::Tehu),
                                    ) {
                                            Outcome::Matched(n3) => {
                                                &&& (match field_2 {
                                                        Some(inner) => {
                                                            &&& spec_word(
                                                                toks,
                                                                pos + n1 + n2,
                                                                Selmaho::Tehu,
                                                            ) is Matched
                                                            &&& is_word(
                                                                inner,
                                                                toks,
                                                                pos + n1 + n2,
                                                                Selmaho::Tehu,
                                                            )
                                                        },
                                                        None => spec_word(
                                                            toks,
                                                            pos + n1 + n2,
                                                            Selmaho::Tehu,
                                                        ) is Error,
                                                    })
                                                &&& match spec_frees(toks, pos + n1 + n2 + n3) {
                                                        Outcome::Matched(_) => is_frees(
                                                            field_3,
                                                            toks,
                                                            pos + n1 + n2 + n3,
                                                        ),
                                                        _ => false,
                                                    }
                                            },
                                            _ => false,
                                        }
                                },
                                _ => false,
                            }
                    },
                    _ => false,
                },
                _ => false,
            }
        ),
{
    reveal(is_operator_component_1_nahu);
    reveal(is_word_with_free);
    reveal(is_selbri);
    reveal(is_word);
    reveal(is_frees);
}

/// Whether `node` is the node that `OperatorComponent1Vuhu` makes of the tokens at `pos`.
#[verifier::opaque]
pub closed spec fn is_operator_component_1_vuhu<'arena>(
    node: OperatorComponent1<'arena>,
    toks: Seq<Token>,
    pos: nat,
) -> bool
    decreases rest(toks, pos), 4nat,
{
    match node {
        OperatorComponent1::Vuhu(field_0) => match spec_word_with_free(toks, pos, Selmaho::Vuhu) {
            Outcome::Matched(_) => is_word_with_free(field_0, toks, pos, Selmaho::Vuhu),
            _ => false,
        },
        _ => false,
    }
}

/// What [`is_operator_component_1_vuhu`] says.
pub proof fn lemma_is_operator_component_1_vuhu<'arena>(
    node: OperatorComponent1<'arena>,
    toks: Seq<Token>,
    pos: nat,
)
    ensures
        is_operator_component_1_vuhu(node, toks, pos) == (
            match node {
                OperatorComponent1::Vuhu(
                    field_0,
                ) => match spec_word_with_free(toks, pos, Selmaho::Vuhu) {
                    Outcome::Matched(_) => is_word_with_free(field_0, toks, pos, Selmaho::Vuhu),
                    _ => false,
                },
                _ => false,
            }
        ),
{
    reveal(is_operator_component_1_vuhu);
    reveal(is_word_with_free);
}

/// Whether `node` is the node that `Operator3Grouped` makes of the tokens at `pos`.
#[verifier::opaque]
pub closed spec fn is_operator_3_grouped<'arena>(
    node: Operator3<'arena>,
    toks: Seq<Token>,
    pos: nat,
) -> bool
    decreases rest(toks, pos), 25nat,
{
    match node {
        Operator3::Grouped(
            field_0,
            field_1,
            field_2,
            field_3,
        ) => match spec_word_with_free(toks, pos, Selmaho::Ke) {
            Outcome::Matched(n1) => {
                &&& is_word_with_free(field_0, toks, pos, Selmaho::Ke)
                &&& match spec_operator(toks, pos + n1) {
                        Outcome::Matched(n2) => {
                            &&& advanced(toks, pos, n1)
                            &&& is_operator(field_1, toks, pos + n1)
                            &&& match spec_word(toks, pos + n1 + n2, Selmaho::Kehe) {
                                    Outcome::Matched(n3) => {
                                        &&& is_word(field_2, toks, pos + n1 + n2, Selmaho::Kehe)
                                        &&& match spec_frees(toks, pos + n1 + n2 + n3) {
                                                Outcome::Matched(_) => is_frees(
                                                    field_3,
                                                    toks,
                                                    pos + n1 + n2 + n3,
                                                ),
                                                _ => false,
                                            }
                                    },
                                    _ => false,
                                }
                        },
                        _ => false,
                    }
            },
            _ => false,
        },
        _ => false,
    }
}

/// What [`is_operator_3_grouped`] says.
pub proof fn lemma_is_operator_3_grouped<'arena>(
    node: Operator3<'arena>,
    toks: Seq<Token>,
    pos: nat,
)
    ensures
        is_operator_3_grouped(node, toks, pos) == (
            match node {
                Operator3::Grouped(
                    field_0,
                    field_1,
                    field_2,
                    field_3,
                ) => match spec_word_with_free(toks, pos, Selmaho::Ke) {
                    Outcome::Matched(n1) => {
                        &&& is_word_with_free(field_0, toks, pos, Selmaho::Ke)
                        &&& match spec_operator(toks, pos + n1) {
                                Outcome::Matched(n2) => {
                                    &&& advanced(toks, pos, n1)
                                    &&& is_operator(field_1, toks, pos + n1)
                                    &&& match spec_word(toks, pos + n1 + n2, Selmaho::Kehe) {
                                            Outcome::Matched(n3) => {
                                                &&& is_word(
                                                    field_2,
                                                    toks,
                                                    pos + n1 + n2,
                                                    Selmaho::Kehe,
                                                )
                                                &&& match spec_frees(toks, pos + n1 + n2 + n3) {
                                                        Outcome::Matched(_) => is_frees(
                                                            field_3,
                                                            toks,
                                                            pos + n1 + n2 + n3,
                                                        ),
                                                        _ => false,
                                                    }
                                            },
                                            _ => false,
                                        }
                                },
                                _ => false,
                            }
                    },
                    _ => false,
                },
                _ => false,
            }
        ),
{
    reveal(is_operator_3_grouped);
    reveal(is_word_with_free);
    reveal(is_operator);
    reveal(is_word);
    reveal(is_frees);
}

/// Whether `node` is the node that `Operator3ListNext` makes of the tokens at `pos`.
#[verifier::opaque]
pub closed spec fn is_operator_3_list_next<'arena>(
    node: ((JoikJek<'arena>, Option<TagWords<'arena>>, WithFree<'arena, Word<'arena>>), Operator3<'arena>),
    toks: Seq<Token>,
    pos: nat,
) -> bool
    decreases rest(toks, pos), 33nat,
{
    match spec_operator_bo(toks, pos) {
        Outcome::Matched(n1) => {
            &&& is_operator_bo(node.0, toks, pos)
            &&& match spec_operator_3(toks, pos + n1) {
                    Outcome::Matched(_) => is_operator_3(node.1, toks, pos + n1),
                    _ => false,
                }
        },
        _ => false,
    }
}

/// What [`is_operator_3_list_next`] says.
pub proof fn lemma_is_operator_3_list_next<'arena>(
    node: ((JoikJek<'arena>, Option<TagWords<'arena>>, WithFree<'arena, Word<'arena>>), Operator3<'arena>),
    toks: Seq<Token>,
    pos: nat,
)
    ensures
        is_operator_3_list_next(node, toks, pos) == (
            match spec_operator_bo(toks, pos) {
                Outcome::Matched(n1) => {
                    &&& is_operator_bo(node.0, toks, pos)
                    &&& match spec_operator_3(toks, pos + n1) {
                            Outcome::Matched(_) => is_operator_3(node.1, toks, pos + n1),
                            _ => false,
                        }
                },
                _ => false,
            }
        ),
{
    reveal(is_operator_3_list_next);
    reveal(is_operator_bo);
    reveal(is_operator_3);
}

/// How many tokens the first `count` of a row of `Operator3ListNext` take at `pos`.
pub open spec fn run_of_operator_3_list_next(toks: Seq<Token>, pos: nat, count: nat) -> nat
    decreases count,
{
    if count == 0 {
        0
    } else {
        let before = run_of_operator_3_list_next(toks, pos, (count - 1) as nat);
        before + (match spec_operator_3_list_next(toks, pos + before) {
            Outcome::Matched(len) => len,
            _ => 0,
        })
    }
}

/// Whether `items` are the nodes of a row of `Operator3ListNext` at `pos`: each is the
/// node of the `Operator3ListNext` at its place, and no further one follows them.
#[verifier::opaque]
pub closed spec fn is_row_of_operator_3_list_next<'arena>(
    items: Seq<((JoikJek<'arena>, Option<TagWords<'arena>>, WithFree<'arena, Word<'arena>>), Operator3<'arena>)>,
    toks: Seq<Token>,
    pos: nat,
) -> bool
    decreases rest(toks, pos), 34nat,
{
    &&& forall|i: int|
        #![trigger items[i]]
        #![trigger run_of_operator_3_list_next(toks, pos, i as nat)]
        0 <= i < items.len() ==> spec_operator_3_list_next(
            toks,
            pos + run_of_operator_3_list_next(toks, pos, i as nat),
        ) is Matched && is_operator_3_list_next(
            items[i],
            toks,
            pos + run_of_operator_3_list_next(toks, pos, i as nat),
        )
    &&& !(spec_operator_3_list_next(
        toks,
        pos + run_of_operator_3_list_next(toks, pos, items.len()),
    ) is Matched)
}

/// What [`is_row_of_operator_3_list_next`] says.
pub proof fn lemma_is_row_of_operator_3_list_next<'arena>(
    items: Seq<((JoikJek<'arena>, Option<TagWords<'arena>>, WithFree<'arena, Word<'arena>>), Operator3<'arena>)>,
    toks: Seq<Token>,
    pos: nat,
)
    ensures
        is_row_of_operator_3_list_next(items, toks, pos) == ({
            &&& forall|i: int|
                #![trigger items[i]]
                #![trigger run_of_operator_3_list_next(toks, pos, i as nat)]
                0 <= i < items.len() ==> spec_operator_3_list_next(
                    toks,
                    pos + run_of_operator_3_list_next(toks, pos, i as nat),
                ) is Matched && is_operator_3_list_next(
                    items[i],
                    toks,
                    pos + run_of_operator_3_list_next(toks, pos, i as nat),
                )
            &&& !(spec_operator_3_list_next(
                toks,
                pos + run_of_operator_3_list_next(toks, pos, items.len()),
            ) is Matched)
        }),
{
    reveal(is_row_of_operator_3_list_next);
    reveal(is_operator_3_list_next);
}

/// Whether `node` is the node that `OperatorBo` makes of the tokens at `pos`.
#[verifier::opaque]
pub closed spec fn is_operator_bo<'arena>(
    node: (JoikJek<'arena>, Option<TagWords<'arena>>, WithFree<'arena, Word<'arena>>),
    toks: Seq<Token>,
    pos: nat,
) -> bool
    decreases rest(toks, pos), 32nat,
{
    match spec_joik_jek(toks, pos) {
        Outcome::Matched(n1) => {
            &&& is_joik_jek(node.0, toks, pos)
            &&& match spec_opt(spec_tag_words(toks, pos + n1)) {
                    Outcome::Matched(n2) => {
                        &&& (match node.1 {
                                Some(inner) => {
                                    &&& spec_tag_words(toks, pos + n1) is Matched
                                    &&& is_tag_words(inner, toks, pos + n1)
                                },
                                None => spec_tag_words(toks, pos + n1) is Error,
                            })
                        &&& match spec_word_with_free(toks, pos + n1 + n2, Selmaho::Bo) {
                                Outcome::Matched(_) => is_word_with_free(
                                    node.2,
                                    toks,
                                    pos + n1 + n2,
                                    Selmaho::Bo,
                                ),
                                _ => false,
                            }
                    },
                    _ => false,
                }
        },
        _ => false,
    }
}

/// What [`is_operator_bo`] says.
pub proof fn lemma_is_operator_bo<'arena>(
    node: (JoikJek<'arena>, Option<TagWords<'arena>>, WithFree<'arena, Word<'arena>>),
    toks: Seq<Token>,
    pos: nat,
)
    ensures
        is_operator_bo(node, toks, pos) == (
            match spec_joik_jek(toks, pos) {
                Outcome::Matched(n1) => {
                    &&& is_joik_jek(node.0, toks, pos)
                    &&& match spec_opt(spec_tag_words(toks, pos + n1)) {
                            Outcome::Matched(n2) => {
                                &&& (match node.1 {
                                        Some(inner) => {
                                            &&& spec_tag_words(toks, pos + n1) is Matched
                                            &&& is_tag_words(inner, toks, pos + n1)
                                        },
                                        None => spec_tag_words(toks, pos + n1) is Error,
                                    })
                                &&& match spec_word_with_free(toks, pos + n1 + n2, Selmaho::Bo) {
                                        Outcome::Matched(_) => is_word_with_free(
                                            node.2,
                                            toks,
                                            pos + n1 + n2,
                                            Selmaho::Bo,
                                        ),
                                        _ => false,
                                    }
                            },
                            _ => false,
                        }
                },
                _ => false,
            }
        ),
{
    reveal(is_operator_bo);
    reveal(is_joik_jek);
    reveal(is_tag_words);
    reveal(is_word_with_free);
}

/// Whether `node` is the node that `JoikJek` makes of the tokens at `pos`: the
/// node of the first alternative that matches.
#[verifier::opaque]
pub closed spec fn is_joik_jek<'arena>(node: JoikJek<'arena>, toks: Seq<Token>, pos: nat) -> bool
    decreases rest(toks, pos), 7nat,
{
    match spec_joik_jek_joik(toks, pos) {
        Outcome::Matched(_) => is_joik_jek_joik(node, toks, pos),
        Outcome::Error(
            _,
        ) => spec_joik_jek_jek(toks, pos) is Matched && is_joik_jek_jek(node, toks, pos),
        Outcome::Failure(_) => false,
    }
}

/// What [`is_joik_jek`] says.
pub proof fn lemma_is_joik_jek<'arena>(toks: Seq<Token>, pos: nat)
    ensures
        forall|node: JoikJek<'arena>| #[trigger] is_joik_jek(node, toks, pos) == (
            match spec_joik_jek_joik(toks, pos) {
                Outcome::Matched(_) => is_joik_jek_joik(node, toks, pos),
                Outcome::Error(
                    _,
                ) => spec_joik_jek_jek(toks, pos) is Matched && is_joik_jek_jek(node, toks, pos),
                Outcome::Failure(_) => false,
            }
        ),
{
    reveal(is_joik_jek);
    reveal(is_joik_jek_joik);
    reveal(is_joik_jek_jek);
}

/// Whether `node` is the node that `JoikJekJoik` makes of the tokens at `pos`.
#[verifier::opaque]
pub closed spec fn is_joik_jek_joik<'arena>(
    node: JoikJek<'arena>,
    toks: Seq<Token>,
    pos: nat,
) -> bool
    decreases rest(toks, pos), 6nat,
{
    match node {
        JoikJek::Joik(field_0) => match spec_joik(toks, pos) {
            Outcome::Matched(_) => is_joik(field_0, toks, pos),
            _ => false,
        },
        _ => false,
    }
}

/// What [`is_joik_jek_joik`] says.
pub proof fn lemma_is_joik_jek_joik<'arena>(node: JoikJek<'arena>, toks: Seq<Token>, pos: nat)
    ensures
        is_joik_jek_joik(node, toks, pos) == (
            match node {
                JoikJek::Joik(field_0) => match spec_joik(toks, pos) {
                    Outcome::Matched(_) => is_joik(field_0, toks, pos),
                    _ => false,
                },
                _ => false,
            }
        ),
{
    reveal(is_joik_jek_joik);
    reveal(is_joik);
}

/// Whether `node` is the node that `JoikJekJek` makes of the tokens at `pos`.
#[verifier::opaque]
pub closed spec fn is_joik_jek_jek<'arena>(
    node: JoikJek<'arena>,
    toks: Seq<Token>,
    pos: nat,
) -> bool
    decreases rest(toks, pos), 5nat,
{
    match node {
        JoikJek::Jek(field_0) => match spec_jek(toks, pos) {
            Outcome::Matched(_) => is_jek(field_0, toks, pos),
            _ => false,
        },
        _ => false,
    }
}

/// What [`is_joik_jek_jek`] says.
pub proof fn lemma_is_joik_jek_jek<'arena>(node: JoikJek<'arena>, toks: Seq<Token>, pos: nat)
    ensures
        is_joik_jek_jek(node, toks, pos) == (
            match node {
                JoikJek::Jek(field_0) => match spec_jek(toks, pos) {
                    Outcome::Matched(_) => is_jek(field_0, toks, pos),
                    _ => false,
                },
                _ => false,
            }
        ),
{
    reveal(is_joik_jek_jek);
    reveal(is_jek);
}

/// Whether `node` is the node that `Jek` makes of the tokens at `pos`.
#[verifier::opaque]
pub closed spec fn is_jek<'arena>(node: Jek<'arena>, toks: Seq<Token>, pos: nat) -> bool
    decreases rest(toks, pos), 4nat,
{
    match spec_na_se_tnai_ja(toks, pos) {
        Outcome::Matched(_) => is_na_se_tnai_ja(node.0, toks, pos),
        _ => false,
    }
}

/// What [`is_jek`] says.
pub proof fn lemma_is_jek<'arena>(node: Jek<'arena>, toks: Seq<Token>, pos: nat)
    ensures
        is_jek(node, toks, pos) == (
            match spec_na_se_tnai_ja(toks, pos) {
                Outcome::Matched(_) => is_na_se_tnai_ja(node.0, toks, pos),
                _ => false,
            }
        ),
{
    reveal(is_jek);
    reveal(is_na_se_tnai_ja);
}

/// Whether `node` is the node that `NaSeTNaiJa` makes of the tokens at `pos`.
#[verifier::opaque]
pub closed spec fn is_na_se_tnai_ja<'arena>(
    node: NaSeTNai<'arena, Word<'arena>>,
    toks: Seq<Token>,
    pos: nat,
) -> bool
    decreases rest(toks, pos), 3nat,
{
    match spec_opt(spec_word(toks, pos, Selmaho::Na)) {
        Outcome::Matched(n1) => {
            &&& (match node.0 {
                    Some(inner) => {
                        &&& spec_word(toks, pos, Selmaho::Na) is Matched
                        &&& is_word(inner, toks, pos, Selmaho::Na)
                    },
                    None => spec_word(toks, pos, Selmaho::Na) is Error,
                })
            &&& match spec_opt(spec_word(toks, pos + n1, Selmaho::Se)) {
                    Outcome::Matched(n2) => {
                        &&& (match node.1 {
                                Some(inner) => {
                                    &&& spec_word(toks, pos + n1, Selmaho::Se) is Matched
                                    &&& is_word(inner, toks, pos + n1, Selmaho::Se)
                                },
                                None => spec_word(toks, pos + n1, Selmaho::Se) is Error,
                            })
                        &&& match spec_word(toks, pos + n1 + n2, Selmaho::Ja) {
                                Outcome::Matched(n3) => {
                                    &&& is_word(node.2, toks, pos + n1 + n2, Selmaho::Ja)
                                    &&& match spec_opt(
                                        spec_word(toks, pos + n1 + n2 + n3, Selmaho::Nai),
                                    ) {
                                            Outcome::Matched(_) => {
                                                &&& (match node.3 {
                                                        Some(inner) => {
                                                            &&& spec_word(
                                                                toks,
                                                                pos + n1 + n2 + n3,
                                                                Selmaho::Nai,
                                                            ) is Matched
                                                            &&& is_word(
                                                                inner,
                                                                toks,
                                                                pos + n1 + n2 + n3,
                                                                Selmaho::Nai,
                                                            )
                                                        },
                                                        None => spec_word(
                                                            toks,
                                                            pos + n1 + n2 + n3,
                                                            Selmaho::Nai,
                                                        ) is Error,
                                                    })
                                            },
                                            _ => false,
                                        }
                                },
                                _ => false,
                            }
                    },
                    _ => false,
                }
        },
        _ => false,
    }
}

/// What [`is_na_se_tnai_ja`] says.
pub proof fn lemma_is_na_se_tnai_ja<'arena>(
    node: NaSeTNai<'arena, Word<'arena>>,
    toks: Seq<Token>,
    pos: nat,
)
    ensures
        is_na_se_tnai_ja(node, toks, pos) == (
            match spec_opt(spec_word(toks, pos, Selmaho::Na)) {
                Outcome::Matched(n1) => {
                    &&& (match node.0 {
                            Some(inner) => {
                                &&& spec_word(toks, pos, Selmaho::Na) is Matched
                                &&& is_word(inner, toks, pos, Selmaho::Na)
                            },
                            None => spec_word(toks, pos, Selmaho::Na) is Error,
                        })
                    &&& match spec_opt(spec_word(toks, pos + n1, Selmaho::Se)) {
                            Outcome::Matched(n2) => {
                                &&& (match node.1 {
                                        Some(inner) => {
                                            &&& spec_word(toks, pos + n1, Selmaho::Se) is Matched
                                            &&& is_word(inner, toks, pos + n1, Selmaho::Se)
                                        },
                                        None => spec_word(toks, pos + n1, Selmaho::Se) is Error,
                                    })
                                &&& match spec_word(toks, pos + n1 + n2, Selmaho::Ja) {
                                        Outcome::Matched(n3) => {
                                            &&& is_word(node.2, toks, pos + n1 + n2, Selmaho::Ja)
                                            &&& match spec_opt(
                                                spec_word(toks, pos + n1 + n2 + n3, Selmaho::Nai),
                                            ) {
                                                    Outcome::Matched(_) => {
                                                        &&& (match node.3 {
                                                                Some(inner) => {
                                                                    &&& spec_word(
                                                                        toks,
                                                                        pos + n1 + n2 + n3,
                                                                        Selmaho::Nai,
                                                                    ) is Matched
                                                                    &&& is_word(
                                                                        inner,
                                                                        toks,
                                                                        pos + n1 + n2 + n3,
                                                                        Selmaho::Nai,
                                                                    )
                                                                },
                                                                None => spec_word(
                                                                    toks,
                                                                    pos + n1 + n2 + n3,
                                                                    Selmaho::Nai,
                                                                ) is Error,
                                                            })
                                                    },
                                                    _ => false,
                                                }
                                        },
                                        _ => false,
                                    }
                            },
                            _ => false,
                        }
                },
                _ => false,
            }
        ),
{
    reveal(is_na_se_tnai_ja);
    reveal(is_word);
}

/// Whether `node` is the node that `ConnectedOperator` makes of the tokens at `pos`: the
/// node of the first alternative that matches.
#[verifier::opaque]
pub closed spec fn is_connected_operator<'arena>(
    node: SelbriLikeConnectedPost<'arena, Operator1<'arena>, Operator<'arena>>,
    toks: Seq<Token>,
    pos: nat,
) -> bool
    decreases rest(toks, pos), 39nat,
{
    match spec_connected_operator_normal(toks, pos) {
        Outcome::Matched(_) => is_connected_operator_normal(node, toks, pos),
        Outcome::Error(
            _,
        ) => spec_connected_operator_parenthesized(
            toks,
            pos,
        ) is Matched && is_connected_operator_parenthesized(node, toks, pos),
        Outcome::Failure(_) => false,
    }
}

/// What [`is_connected_operator`] says.
pub proof fn lemma_is_connected_operator<'arena>(toks: Seq<Token>, pos: nat)
    ensures
        forall|node: SelbriLikeConnectedPost<'arena, Operator1<'arena>, Operator<'arena>>| #[trigger] is_connected_operator(
            node,
            toks,
            pos,
        ) == (
            match spec_connected_operator_normal(toks, pos) {
                Outcome::Matched(_) => is_connected_operator_normal(node, toks, pos),
                Outcome::Error(
                    _,
                ) => spec_connected_operator_parenthesized(
                    toks,
                    pos,
                ) is Matched && is_connected_operator_parenthesized(node, toks, pos),
                Outcome::Failure(_) => false,
            }
        ),
{
    reveal(is_connected_operator);
    reveal(is_connected_operator_normal);
    reveal(is_connected_operator_parenthesized);
}

/// How many tokens the first `count` of a row of `ConnectedOperator` take at `pos`.
pub open spec fn run_of_connected_operator(toks: Seq<Token>, pos: nat, count: nat) -> nat
    decreases count,
{
    if count == 0 {
        0
    } else {
        let before = run_of_connected_operator(toks, pos, (count - 1) as nat);
        before + (match spec_connected_operator(toks, pos + before) {
            Outcome::Matched(len) => len,
            _ => 0,
        })
    }
}

/// Whether `items` are the nodes of a row of `ConnectedOperator` at `pos`: each is the
/// node of the `ConnectedOperator` at its place, and no further one follows them.
#[verifier::opaque]
pub closed spec fn is_row_of_connected_operator<'arena>(
    items: Seq<SelbriLikeConnectedPost<'arena, Operator1<'arena>, Operator<'arena>>>,
    toks: Seq<Token>,
    pos: nat,
) -> bool
    decreases rest(toks, pos), 40nat,
{
    &&& forall|i: int|
        #![trigger items[i]]
        #![trigger run_of_connected_operator(toks, pos, i as nat)]
        0 <= i < items.len() ==> spec_connected_operator(
            toks,
            pos + run_of_connected_operator(toks, pos, i as nat),
        ) is Matched && is_connected_operator(
            items[i],
            toks,
            pos + run_of_connected_operator(toks, pos, i as nat),
        )
    &&& !(spec_connected_operator(
        toks,
        pos + run_of_connected_operator(toks, pos, items.len()),
    ) is Matched)
}

/// What [`is_row_of_connected_operator`] says.
pub proof fn lemma_is_row_of_connected_operator<'arena>(
    items: Seq<SelbriLikeConnectedPost<'arena, Operator1<'arena>, Operator<'arena>>>,
    toks: Seq<Token>,
    pos: nat,
)
    ensures
        is_row_of_connected_operator(items, toks, pos) == ({
            &&& forall|i: int|
                #![trigger items[i]]
                #![trigger run_of_connected_operator(toks, pos, i as nat)]
                0 <= i < items.len() ==> spec_connected_operator(
                    toks,
                    pos + run_of_connected_operator(toks, pos, i as nat),
                ) is Matched && is_connected_operator(
                    items[i],
                    toks,
                    pos + run_of_connected_operator(toks, pos, i as nat),
                )
            &&& !(spec_connected_operator(
                toks,
                pos + run_of_connected_operator(toks, pos, items.len()),
            ) is Matched)
        }),
{
    reveal(is_row_of_connected_operator);
    reveal(is_connected_operator);
}

/// Whether `node` is the node that `ConnectedOperatorNormal` makes of the tokens at `pos`.
#[verifier::opaque]
pub closed spec fn is_connected_operator_normal<'arena>(
    node: SelbriLikeConnectedPost<'arena, Operator1<'arena>, Operator<'arena>>,
    toks: Seq<Token>,
    pos: nat,
) -> bool
    decreases rest(toks, pos), 38nat,
{
    match node {
        SelbriLikeConnectedPost::Normal(field_0, field_1) => match spec_joik_jek(toks, pos) {
            Outcome::Matched(n1) => {
                &&& is_joik_jek(field_0, toks, pos)
                &&& match spec_operator_1(toks, pos + n1) {
                        Outcome::Matched(_) => is_operator_1(field_1, toks, pos + n1),
                        _ => false,
                    }
            },
            _ => false,
        },
        _ => false,
    }
}

/// What [`is_connected_operator_normal`] says.
pub proof fn lemma_is_connected_operator_normal<'arena>(
    node: SelbriLikeConnectedPost<'arena, Operator1<'arena>, Operator<'arena>>,
    toks: Seq<Token>,
    pos: nat,
)
    ensures
        is_connected_operator_normal(node, toks, pos) == (
            match node {
                SelbriLikeConnectedPost::Normal(
                    field_0,
                    field_1,
                ) => match spec_joik_jek(toks, pos) {
                    Outcome::Matched(n1) => {
                        &&& is_joik_jek(field_0, toks, pos)
                        &&& match spec_operator_1(toks, pos + n1) {
                                Outcome::Matched(_) => is_operator_1(field_1, toks, pos + n1),
                                _ => false,
                            }
                    },
                    _ => false,
                },
                _ => false,
            }
        ),
{
    reveal(is_connected_operator_normal);
    reveal(is_joik_jek);
    reveal(is_operator_1);
}

/// Whether `node` is the node that `ConnectedOperatorParenthesized` makes of the tokens at `pos`.
#[verifier::opaque]
pub closed spec fn is_connected_operator_parenthesized<'arena>(
    node: SelbriLikeConnectedPost<'arena, Operator1<'arena>, Operator<'arena>>,
    toks: Seq<Token>,
    pos: nat,
) -> bool
    decreases rest(toks, pos), 32nat,
{
    match node {
        SelbriLikeConnectedPost::Parenthesized(
            field_0,
            field_1,
            field_2,
            field_3,
            field_4,
            field_5,
        ) => match spec_joik_jek(toks, pos) {
            Outcome::Matched(n1) => {
                &&& is_joik_jek(field_0, toks, pos)
                &&& match spec_opt(spec_tag_words(toks, pos + n1)) {
                        Outcome::Matched(n2) => {
                            &&& (match field_1 {
                                    Some(inner) => {
                                        &&& spec_tag_words(toks, pos + n1) is Matched
                                        &&& is_tag_words(inner, toks, pos + n1)
                                    },
                                    None => spec_tag_words(toks, pos + n1) is Error,
                                })
                            &&& match spec_word_with_free(toks, pos + n1 + n2, Selmaho::Ke) {
                                    Outcome::Matched(n3) => {
                                        &&& is_word_with_free(
                                            field_2,
                                            toks,
                                            pos + n1 + n2,
                                            Selmaho::Ke,
                                        )
                                        &&& match spec_operator(toks, pos + n1 + n2 + n3) {
                                                Outcome::Matched(n4) => {
                                                    &&& advanced(toks, pos, n1 + n2 + n3)
                                                    &&& is_operator(
                                                        field_3,
                                                        toks,
                                                        pos + n1 + n2 + n3,
                                                    )
                                                    &&& match spec_opt(
                                                        spec_word(
                                                            toks,
                                                            pos + n1 + n2 + n3 + n4,
                                                            Selmaho::Kehe,
                                                        ),
                                                    ) {
                                                            Outcome::Matched(n5) => {
                                                                &&& (match field_4 {
                                                                        Some(inner) => {
                                                                            &&& spec_word(
                                                                                toks,
                                                                                pos + n1 + n2 + n3 + n4,
                                                                                Selmaho::Kehe,
                                                                            ) is Matched
                                                                            &&& is_word(
                                                                                inner,
                                                                                toks,
                                                                                pos + n1 + n2 + n3 + n4,
                                                                                Selmaho::Kehe,
                                                                            )
                                                                        },
                                                                        None => spec_word(
                                                                            toks,
                                                                            pos + n1 + n2 + n3 + n4,
                                                                            Selmaho::Kehe,
                                                                        ) is Error,
                                                                    })
                                                                &&& match spec_frees(
                                                                    toks,
                                                                    pos + n1 + n2 + n3 + n4 + n5,
                                                                ) {
                                                                        Outcome::Matched(_) => is_frees(
                                                                            field_5,
                                                                            toks,
                                                                            pos + n1 + n2 + n3 + n4 + n5,
                                                                        ),
                                                                        _ => false,
                                                                    }
                                                            },
                                                            _ => false,
                                                        }
                                                },
                                                _ => false,
                                            }
                                    },
                                    _ => false,
                                }
                        },
                        _ => false,
                    }
            },
            _ => false,
        },
        _ => false,
    }
}

/// What [`is_connected_operator_parenthesized`] says.
pub proof fn lemma_is_connected_operator_parenthesized<'arena>(
    node: SelbriLikeConnectedPost<'arena, Operator1<'arena>, Operator<'arena>>,
    toks: Seq<Token>,
    pos: nat,
)
    ensures
        is_connected_operator_parenthesized(node, toks, pos) == (
            match node {
                SelbriLikeConnectedPost::Parenthesized(
                    field_0,
                    field_1,
                    field_2,
                    field_3,
                    field_4,
                    field_5,
                ) => match spec_joik_jek(toks, pos) {
                    Outcome::Matched(n1) => {
                        &&& is_joik_jek(field_0, toks, pos)
                        &&& match spec_opt(spec_tag_words(toks, pos + n1)) {
                                Outcome::Matched(n2) => {
                                    &&& (match field_1 {
                                            Some(inner) => {
                                                &&& spec_tag_words(toks, pos + n1) is Matched
                                                &&& is_tag_words(inner, toks, pos + n1)
                                            },
                                            None => spec_tag_words(toks, pos + n1) is Error,
                                        })
                                    &&& match spec_word_with_free(
                                        toks,
                                        pos + n1 + n2,
                                        Selmaho::Ke,
                                    ) {
                                            Outcome::Matched(n3) => {
                                                &&& is_word_with_free(
                                                    field_2,
                                                    toks,
                                                    pos + n1 + n2,
                                                    Selmaho::Ke,
                                                )
                                                &&& match spec_operator(
                                                    toks,
                                                    pos + n1 + n2 + n3,
                                                ) {
                                                        Outcome::Matched(n4) => {
                                                            &&& advanced(toks, pos, n1 + n2 + n3)
                                                            &&& is_operator(
                                                                field_3,
                                                                toks,
                                                                pos + n1 + n2 + n3,
                                                            )
                                                            &&& match spec_opt(
                                                                spec_word(
                                                                    toks,
                                                                    pos + n1 + n2 + n3 + n4,
                                                                    Selmaho::Kehe,
                                                                ),
                                                            ) {
                                                                    Outcome::Matched(n5) => {
                                                                        &&& (match field_4 {
                                                                                Some(inner) => {
                                                                                    &&& spec_word(
                                                                                        toks,
                                                                                        pos + n1 + n2 + n3 + n4,
                                                                                        Selmaho::Kehe,
                                                                                    ) is Matched
                                                                                    &&& is_word(
                                                                                        inner,
                                                                                        toks,
                                                                                        pos + n1 + n2 + n3 + n4,
                                                                                        Selmaho::Kehe,
                                                                                    )
                                                                                },
                                                                                None => spec_word(
                                                                                    toks,
                                                                                    pos + n1 + n2 + n3 + n4,
                                                                                    Selmaho::Kehe,
                                                                                ) is Error,
                                                                            })
                                                                        &&& match spec_frees(
                                                                            toks,
                                                                            pos + n1 + n2 + n3 + n4 + n5,
                                                                        ) {
                                                                                Outcome::Matched(_) => is_frees(
                                                                                    field_5,
                                                                                    toks,
                                                                                    pos + n1 + n2 + n3 + n4 + n5,
                                                                                ),
                                                                                _ => false,
                                                                            }
                                                                    },
                                                                    _ => false,
                                                                }
                                                        },
                                                        _ => false,
                                                    }
                                            },
                                            _ => false,
                                        }
                                },
                                _ => false,
                            }
                    },
                    _ => false,
                },
                _ => false,
            }
        ),
{
    reveal(is_connected_operator_parenthesized);
    reveal(is_joik_jek);
    reveal(is_tag_words);
    reveal(is_word_with_free);
    reveal(is_operator);
    reveal(is_word);
    reveal(is_frees);
}

/// Whether `node` is the node that `Operand3Modified` makes of the tokens at `pos`.
#[verifier::opaque]
pub closed spec fn is_operand_3_modified<'arena>(
    node: Operand3<'arena>,
    toks: Seq<Token>,
    pos: nat,
) -> bool
    decreases rest(toks, pos), 5nat,
{
    match node {
        Operand3::Modified(field_0, field_1, field_2) => match spec_sumti_modifier(toks, pos) {
            Outcome::Matched(n1) => {
                &&& is_sumti_modifier(field_0, toks, pos)
                &&& match spec_operand(toks, pos + n1) {
                        Outcome::Matched(n2) => {
                            &&& advanced(toks, pos, n1)
                            &&& is_operand(field_1, toks, pos + n1)
                            &&& match spec_opt(spec_word(toks, pos + n1 + n2, Selmaho::Luhu)) {
                                    Outcome::Matched(_) => {
                                        &&& (match field_2 {
                                                Some(inner) => {
                                                    &&& spec_word(
                                                        toks,
                                                        pos + n1 + n2,
                                                        Selmaho::Luhu,
                                                    ) is Matched
                                                    &&& is_word(
                                                        inner,
                                                        toks,
                                                        pos + n1 + n2,
                                                        Selmaho::Luhu,
                                                    )
                                                },
                                                None => spec_word(
                                                    toks,
                                                    pos + n1 + n2,
                                                    Selmaho::Luhu,
                                                ) is Error,
                                            })
                                    },
                                    _ => false,
                                }
                        },
                        _ => false,
                    }
            },
            _ => false,
        },
        _ => false,
    }
}

/// What [`is_operand_3_modified`] says.
pub proof fn lemma_is_operand_3_modified<'arena>(
    node: Operand3<'arena>,
    toks: Seq<Token>,
    pos: nat,
)
    ensures
        is_operand_3_modified(node, toks, pos) == (
            match node {
                Operand3::Modified(
                    field_0,
                    field_1,
                    field_2,
                ) => match spec_sumti_modifier(toks, pos) {
                    Outcome::Matched(n1) => {
                        &&& is_sumti_modifier(field_0, toks, pos)
                        &&& match spec_operand(toks, pos + n1) {
                                Outcome::Matched(n2) => {
                                    &&& advanced(toks, pos, n1)
                                    &&& is_operand(field_1, toks, pos + n1)
                                    &&& match spec_opt(
                                        spec_word(toks, pos + n1 + n2, Selmaho::Luhu),
                                    ) {
                                            Outcome::Matched(_) => {
                                                &&& (match field_2 {
                                                        Some(inner) => {
                                                            &&& spec_word(
                                                                toks,
                                                                pos + n1 + n2,
                                                                Selmaho::Luhu,
                                                            ) is Matched
                                                            &&& is_word(
                                                                inner,
                                                                toks,
                                                                pos + n1 + n2,
                                                                Selmaho::Luhu,
                                                            )
                                                        },
                                                        None => spec_word(
                                                            toks,
                                                            pos + n1 + n2,
                                                            Selmaho::Luhu,
                                                        ) is Error,
                                                    })
                                            },
                                            _ => false,
                                        }
                                },
                                _ => false,
                            }
                    },
                    _ => false,
                },
                _ => false,
            }
        ),
{
    reveal(is_operand_3_modified);
    reveal(is_sumti_modifier);
    reveal(is_operand);
    reveal(is_word);
}

/// Whether `node` is the node that `SumtiModifier` makes of the tokens at `pos`: the
/// node of the first alternative that matches.
#[verifier::opaque]
pub closed spec fn is_sumti_modifier<'arena>(
    node: SumtiModifier<'arena>,
    toks: Seq<Token>,
    pos: nat,
) -> bool
    decreases rest(toks, pos), 4nat,
{
    match spec_sumti_modifier_lahe(toks, pos) {
        Outcome::Matched(_) => is_sumti_modifier_lahe(node, toks, pos),
        Outcome::Error(
            _,
        ) => spec_sumti_modifier_nahe_bo(
            toks,
            pos,
        ) is Matched && is_sumti_modifier_nahe_bo(node, toks, pos),
        Outcome::Failure(_) => false,
    }
}

/// What [`is_sumti_modifier`] says.
pub proof fn lemma_is_sumti_modifier<'arena>(toks: Seq<Token>, pos: nat)
    ensures
        forall|node: SumtiModifier<'arena>| #[trigger] is_sumti_modifier(node, toks, pos) == (
            match spec_sumti_modifier_lahe(toks, pos) {
                Outcome::Matched(_) => is_sumti_modifier_lahe(node, toks, pos),
                Outcome::Error(
                    _,
                ) => spec_sumti_modifier_nahe_bo(
                    toks,
                    pos,
                ) is Matched && is_sumti_modifier_nahe_bo(node, toks, pos),
                Outcome::Failure(_) => false,
            }
        ),
{
    reveal(is_sumti_modifier);
    reveal(is_sumti_modifier_lahe);
    reveal(is_sumti_modifier_nahe_bo);
}

/// Whether `node` is the node that `SumtiModifierLahe` makes of the tokens at `pos`.
#[verifier::opaque]
pub closed spec fn is_sumti_modifier_lahe<'arena>(
    node: SumtiModifier<'arena>,
    toks: Seq<Token>,
    pos: nat,
) -> bool
    decreases rest(toks, pos), 3nat,
{
    match node {
        SumtiModifier::Lahe(field_0) => match spec_word(toks, pos, Selmaho::Lahe) {
            Outcome::Matched(_) => is_word(field_0, toks, pos, Selmaho::Lahe),
            _ => false,
        },
        _ => false,
    }
}

/// What [`is_sumti_modifier_lahe`] says.
pub proof fn lemma_is_sumti_modifier_lahe<'arena>(
    node: SumtiModifier<'arena>,
    toks: Seq<Token>,
    pos: nat,
)
    ensures
        is_sumti_modifier_lahe(node, toks, pos) == (
            match node {
                SumtiModifier::Lahe(field_0) => match spec_word(toks, pos, Selmaho::Lahe) {
                    Outcome::Matched(_) => is_word(field_0, toks, pos, Selmaho::Lahe),
                    _ => false,
                },
                _ => false,
            }
        ),
{
    reveal(is_sumti_modifier_lahe);
    reveal(is_word);
}

/// Whether `node` is the node that `SumtiModifierNaheBo` makes of the tokens at `pos`.
#[verifier::opaque]
pub closed spec fn is_sumti_modifier_nahe_bo<'arena>(
    node: SumtiModifier<'arena>,
    toks: Seq<Token>,
    pos: nat,
) -> bool
    decreases rest(toks, pos), 3nat,
{
    match node {
        SumtiModifier::NaheBo(field_0, field_1) => match spec_word(toks, pos, Selmaho::Nahe) {
            Outcome::Matched(n1) => {
                &&& is_word(field_0, toks, pos, Selmaho::Nahe)
                &&& match spec_word(toks, pos + n1, Selmaho::Bo) {
                        Outcome::Matched(_) => is_word(field_1, toks, pos + n1, Selmaho::Bo),
                        _ => false,
                    }
            },
            _ => false,
        },
        _ => false,
    }
}

/// What [`is_sumti_modifier_nahe_bo`] says.
pub proof fn lemma_is_sumti_modifier_nahe_bo<'arena>(
    node: SumtiModifier<'arena>,
    toks: Seq<Token>,
    pos: nat,
)
    ensures
        is_sumti_modifier_nahe_bo(node, toks, pos) == (
            match node {
                SumtiModifier::NaheBo(
                    field_0,
                    field_1,
                ) => match spec_word(toks, pos, Selmaho::Nahe) {
                    Outcome::Matched(n1) => {
                        &&& is_word(field_0, toks, pos, Selmaho::Nahe)
                        &&& match spec_word(toks, pos + n1, Selmaho::Bo) {
                                Outcome::Matched(_) => is_word(
                                    field_1,
                                    toks,
                                    pos + n1,
                                    Selmaho::Bo,
                                ),
                                _ => false,
                            }
                    },
                    _ => false,
                },
                _ => false,
            }
        ),
{
    reveal(is_sumti_modifier_nahe_bo);
    reveal(is_word);
}

/// Whether `node` is the node that `Operand3Parenthesized` makes of the tokens at `pos`.
#[verifier::opaque]
pub closed spec fn is_operand_3_parenthesized<'arena>(
    node: Operand3<'arena>,
    toks: Seq<Token>,
    pos: nat,
) -> bool
    decreases rest(toks, pos), 25nat,
{
    match node {
        Operand3::Parenthesized(
            field_0,
            field_1,
            field_2,
            field_3,
        ) => match spec_word_with_free(toks, pos, Selmaho::Vei) {
            Outcome::Matched(n1) => {
                &&& is_word_with_free(field_0, toks, pos, Selmaho::Vei)
                &&& match spec_expression(toks, pos + n1) {
                        Outcome::Matched(n2) => {
                            &&& advanced(toks, pos, n1)
                            &&& is_expression(field_1, toks, pos + n1)
                            &&& match spec_opt(spec_word(toks, pos + n1 + n2, Selmaho::Veho)) {
                                    Outcome::Matched(n3) => {
                                        &&& (match field_2 {
                                                Some(inner) => {
                                                    &&& spec_word(
                                                        toks,
                                                        pos + n1 + n2,
                                                        Selmaho::Veho,
                                                    ) is Matched
                                                    &&& is_word(
                                                        inner,
                                                        toks,
                                                        pos + n1 + n2,
                                                        Selmaho::Veho,
                                                    )
                                                },
                                                None => spec_word(
                                                    toks,
                                                    pos + n1 + n2,
                                                    Selmaho::Veho,
                                                ) is Error,
                                            })
                                        &&& match spec_frees(toks, pos + n1 + n2 + n3) {
                                                Outcome::Matched(_) => is_frees(
                                                    field_3,
                                                    toks,
                                                    pos + n1 + n2 + n3,
                                                ),
                                                _ => false,
                                            }
                                    },
                                    _ => false,
                                }
                        },
                        _ => false,
                    }
            },
            _ => false,
        },
        _ => false,
    }
}

/// What [`is_operand_3_parenthesized`] says.
pub proof fn lemma_is_operand_3_parenthesized<'arena>(
    node: Operand3<'arena>,
    toks: Seq<Token>,
    pos: nat,
)
    ensures
        is_operand_3_parenthesized(node, toks, pos) == (
            match node {
                Operand3::Parenthesized(
                    field_0,
                    field_1,
                    field_2,
                    field_3,
                ) => match spec_word_with_free(toks, pos, Selmaho::Vei) {
                    Outcome::Matched(n1) => {
                        &&& is_word_with_free(field_0, toks, pos, Selmaho::Vei)
                        &&& match spec_expression(toks, pos + n1) {
                                Outcome::Matched(n2) => {
                                    &&& advanced(toks, pos, n1)
                                    &&& is_expression(field_1, toks, pos + n1)
                                    &&& match spec_opt(
                                        spec_word(toks, pos + n1 + n2, Selmaho::Veho),
                                    ) {
                                            Outcome::Matched(n3) => {
                                                &&& (match field_2 {
                                                        Some(inner) => {
                                                            &&& spec_word(
                                                                toks,
                                                                pos + n1 + n2,
                                                                Selmaho::Veho,
                                                            ) is Matched
                                                            &&& is_word(
                                                                inner,
                                                                toks,
                                                                pos + n1 + n2,
                                                                Selmaho::Veho,
                                                            )
                                                        },
                                                        None => spec_word(
                                                            toks,
                                                            pos + n1 + n2,
                                                            Selmaho::Veho,
                                                        ) is Error,
                                                    })
                                                &&& match spec_frees(toks, pos + n1 + n2 + n3) {
                                                        Outcome::Matched(_) => is_frees(
                                                            field_3,
                                                            toks,
                                                            pos + n1 + n2 + n3,
                                                        ),
                                                        _ => false,
                                                    }
                                            },
                                            _ => false,
                                        }
                                },
                                _ => false,
                            }
                    },
                    _ => false,
                },
                _ => false,
            }
        ),
{
    reveal(is_operand_3_parenthesized);
    reveal(is_word_with_free);
    reveal(is_expression);
    reveal(is_word);
    reveal(is_frees);
}

/// Whether `node` is the node that `Operand3Number` makes of the tokens at `pos`.
#[verifier::opaque]
pub closed spec fn is_operand_3_number<'arena>(
    node: Operand3<'arena>,
    toks: Seq<Token>,
    pos: nat,
) -> bool
    decreases rest(toks, pos), 25nat,
{
    match node {
        Operand3::Number(field_0, field_1, field_2) => match spec_misc_numbers(toks, pos) {
            Outcome::Matched(n1) => {
                &&& is_misc_numbers(field_0, toks, pos)
                &&& match spec_opt(spec_word(toks, pos + n1, Selmaho::Boi)) {
                        Outcome::Matched(n2) => {
                            &&& (match field_1 {
                                    Some(inner) => {
                                        &&& spec_word(toks, pos + n1, Selmaho::Boi) is Matched
                                        &&& is_word(inner, toks, pos + n1, Selmaho::Boi)
                                    },
                                    None => spec_word(toks, pos + n1, Selmaho::Boi) is Error,
                                })
                            &&& match spec_frees(toks, pos + n1 + n2) {
                                    Outcome::Matched(_) => is_frees(field_2, toks, pos + n1 + n2),
                                    _ => false,
                                }
                        },
                        _ => false,
                    }
            },
            _ => false,
        },
        _ => false,
    }
}

/// What [`is_operand_3_number`] says.
pub proof fn lemma_is_operand_3_number<'arena>(node: Operand3<'arena>, toks: Seq<Token>, pos: nat)
    ensures
        is_operand_3_number(node, toks, pos) == (
            match node {
                Operand3::Number(
                    field_0,
                    field_1,
                    field_2,
                ) => match spec_misc_numbers(toks, pos) {
                    Outcome::Matched(n1) => {
                        &&& is_misc_numbers(field_0, toks, pos)
                        &&& match spec_opt(spec_word(toks, pos + n1, Selmaho::Boi)) {
                                Outcome::Matched(n2) => {
                                    &&& (match field_1 {
                                            Some(inner) => {
                                                &&& spec_word(
                                                    toks,
                                                    pos + n1,
                                                    Selmaho::Boi,
                                                ) is Matched
                                                &&& is_word(inner, toks, pos + n1, Selmaho::Boi)
                                            },
                                            None => spec_word(
                                                toks,
                                                pos + n1,
                                                Selmaho::Boi,
                                            ) is Error,
                                        })
                                    &&& match spec_frees(toks, pos + n1 + n2) {
                                            Outcome::Matched(_) => is_frees(
                                                field_2,
                                                toks,
                                                pos + n1 + n2,
                                            ),
                                            _ => false,
                                        }
                                },
                                _ => false,
                            }
                    },
                    _ => false,
                },
                _ => false,
            }
        ),
{
    reveal(is_operand_3_number);
    reveal(is_misc_numbers);
    reveal(is_word);
    reveal(is_frees);
}

/// Whether `node` is the node that `Operand2ListNext` makes of the tokens at `pos`.
#[verifier::opaque]
pub closed spec fn is_operand_2_list_next<'arena>(
    node: ((JoikEk<'arena>, Option<TagWords<'arena>>, WithFree<'arena, Word<'arena>>), Operand2<'arena>),
    toks: Seq<Token>,
    pos: nat,
) -> bool
    decreases rest(toks, pos), 92nat,
{
    match spec_operand_bo(toks, pos) {
        Outcome::Matched(n1) => {
            &&& is_operand_bo(node.0, toks, pos)
            &&& match spec_operand_2(toks, pos + n1) {
                    Outcome::Matched(_) => is_operand_2(node.1, toks, pos + n1),
                    _ => false,
                }
        },
        _ => false,
    }
}

/// What [`is_operand_2_list_next`] says.
pub proof fn lemma_is_operand_2_list_next<'arena>(
    node: ((JoikEk<'arena>, Option<TagWords<'arena>>, WithFree<'arena, Word<'arena>>), Operand2<'arena>),
    toks: Seq<Token>,
    pos: nat,
)
    ensures
        is_operand_2_list_next(node, toks, pos) == (
            match spec_operand_bo(toks, pos) {
                Outcome::Matched(n1) => {
                    &&& is_operand_bo(node.0, toks, pos)
                    &&& match spec_operand_2(toks, pos + n1) {
                            Outcome::Matched(_) => is_operand_2(node.1, toks, pos + n1),
                            _ => false,
                        }
                },
                _ => false,
            }
        ),
{
    reveal(is_operand_2_list_next);
    reveal(is_operand_bo);
    reveal(is_operand_2);
}

/// How many tokens the first `count` of a row of `Operand2ListNext` take at `pos`.
pub open spec fn run_of_operand_2_list_next(toks: Seq<Token>, pos: nat, count: nat) -> nat
    decreases count,
{
    if count == 0 {
        0
    } else {
        let before = run_of_operand_2_list_next(toks, pos, (count - 1) as nat);
        before + (match spec_operand_2_list_next(toks, pos + before) {
            Outcome::Matched(len) => len,
            _ => 0,
        })
    }
}

/// Whether `items` are the nodes of a row of `Operand2ListNext` at `pos`: each is the
/// node of the `Operand2ListNext` at its place, and no further one follows them.
#[verifier::opaque]
pub closed spec fn is_row_of_operand_2_list_next<'arena>(
    items: Seq<((JoikEk<'arena>, Option<TagWords<'arena>>, WithFree<'arena, Word<'arena>>), Operand2<'arena>)>,
    toks: Seq<Token>,
    pos: nat,
) -> bool
    decreases rest(toks, pos), 93nat,
{
    &&& forall|i: int|
        #![trigger items[i]]
        #![trigger run_of_operand_2_list_next(toks, pos, i as nat)]
        0 <= i < items.len() ==> spec_operand_2_list_next(
            toks,
            pos + run_of_operand_2_list_next(toks, pos, i as nat),
        ) is Matched && is_operand_2_list_next(
            items[i],
            toks,
            pos + run_of_operand_2_list_next(toks, pos, i as nat),
        )
    &&& !(spec_operand_2_list_next(
        toks,
        pos + run_of_operand_2_list_next(toks, pos, items.len()),
    ) is Matched)
}

/// What [`is_row_of_operand_2_list_next`] says.
pub proof fn lemma_is_row_of_operand_2_list_next<'arena>(
    items: Seq<((JoikEk<'arena>, Option<TagWords<'arena>>, WithFree<'arena, Word<'arena>>), Operand2<'arena>)>,
    toks: Seq<Token>,
    pos: nat,
)
    ensures
        is_row_of_operand_2_list_next(items, toks, pos) == ({
            &&& forall|i: int|
                #![trigger items[i]]
                #![trigger run_of_operand_2_list_next(toks, pos, i as nat)]
                0 <= i < items.len() ==> spec_operand_2_list_next(
                    toks,
                    pos + run_of_operand_2_list_next(toks, pos, i as nat),
                ) is Matched && is_operand_2_list_next(
                    items[i],
                    toks,
                    pos + run_of_operand_2_list_next(toks, pos, i as nat),
                )
            &&& !(spec_operand_2_list_next(
                toks,
                pos + run_of_operand_2_list_next(toks, pos, items.len()),
            ) is Matched)
        }),
{
    reveal(is_row_of_operand_2_list_next);
    reveal(is_operand_2_list_next);
}

/// Whether `node` is the node that `OperandBo` makes of the tokens at `pos`.
#[verifier::opaque]
pub closed spec fn is_operand_bo<'arena>(
    node: (JoikEk<'arena>, Option<TagWords<'arena>>, WithFree<'arena, Word<'arena>>),
    toks: Seq<Token>,
    pos: nat,
) -> bool
    decreases rest(toks, pos), 32nat,
{
    match spec_joik_ek(toks, pos) {
        Outcome::Matched(n1) => {
            &&& is_joik_ek(node.0, toks, pos)
            &&& match spec_opt(spec_tag_words(toks, pos + n1)) {
                    Outcome::Matched(n2) => {
                        &&& (match node.1 {
                                Some(inner) => {
                                    &&& spec_tag_words(toks, pos + n1) is Matched
                                    &&& is_tag_words(inner, toks, pos + n1)
                                },
                                None => spec_tag_words(toks, pos + n1) is Error,
                            })
                        &&& match spec_word_with_free(toks, pos + n1 + n2, Selmaho::Bo) {
                                Outcome::Matched(_) => is_word_with_free(
                                    node.2,
                                    toks,
                                    pos + n1 + n2,
                                    Selmaho::Bo,
                                ),
                                _ => false,
                            }
                    },
                    _ => false,
                }
        },
        _ => false,
    }
}

/// What [`is_operand_bo`] says.
pub proof fn lemma_is_operand_bo<'arena>(
    node: (JoikEk<'arena>, Option<TagWords<'arena>>, WithFree<'arena, Word<'arena>>),
    toks: Seq<Token>,
    pos: nat,
)
    ensures
        is_operand_bo(node, toks, pos) == (
            match spec_joik_ek(toks, pos) {
                Outcome::Matched(n1) => {
                    &&& is_joik_ek(node.0, toks, pos)
                    &&& match spec_opt(spec_tag_words(toks, pos + n1)) {
                            Outcome::Matched(n2) => {
                                &&& (match node.1 {
                                        Some(inner) => {
                                            &&& spec_tag_words(toks, pos + n1) is Matched
                                            &&& is_tag_words(inner, toks, pos + n1)
                                        },
                                        None => spec_tag_words(toks, pos + n1) is Error,
                                    })
                                &&& match spec_word_with_free(toks, pos + n1 + n2, Selmaho::Bo) {
                                        Outcome::Matched(_) => is_word_with_free(
                                            node.2,
                                            toks,
                                            pos + n1 + n2,
                                            Selmaho::Bo,
                                        ),
                                        _ => false,
                                    }
                            },
                            _ => false,
                        }
                },
                _ => false,
            }
        ),
{
    reveal(is_operand_bo);
    reveal(is_joik_ek);
    reveal(is_tag_words);
    reveal(is_word_with_free);
}

/// Whether `node` is the node that `JoikEk` makes of the tokens at `pos`: the
/// node of the first alternative that matches.
#[verifier::opaque]
pub closed spec fn is_joik_ek<'arena>(node: JoikEk<'arena>, toks: Seq<Token>, pos: nat) -> bool
    decreases rest(toks, pos), 26nat,
{
    match spec_joik_ek_joik(toks, pos) {
        Outcome::Matched(_) => is_joik_ek_joik(node, toks, pos),
        Outcome::Error(
            _,
        ) => spec_joik_ek_ek(toks, pos) is Matched && is_joik_ek_ek(node, toks, pos),
        Outcome::Failure(_) => false,
    }
}

/// What [`is_joik_ek`] says.
pub proof fn lemma_is_joik_ek<'arena>(toks: Seq<Token>, pos: nat)
    ensures
        forall|node: JoikEk<'arena>| #[trigger] is_joik_ek(node, toks, pos) == (
            match spec_joik_ek_joik(toks, pos) {
                Outcome::Matched(_) => is_joik_ek_joik(node, toks, pos),
                Outcome::Error(
                    _,
                ) => spec_joik_ek_ek(toks, pos) is Matched && is_joik_ek_ek(node, toks, pos),
                Outcome::Failure(_) => false,
            }
        ),
{
    reveal(is_joik_ek);
    reveal(is_joik_ek_joik);
    reveal(is_joik_ek_ek);
}

/// Whether `node` is the node that `JoikEkJoik` makes of the tokens at `pos`.
#[verifier::opaque]
pub closed spec fn is_joik_ek_joik<'arena>(
    node: JoikEk<'arena>,
    toks: Seq<Token>,
    pos: nat,
) -> bool
    decreases rest(toks, pos), 25nat,
{
    match node {
        JoikEk::Joik(field_0, field_1) => match spec_joik(toks, pos) {
            Outcome::Matched(n1) => {
                &&& is_joik(field_0, toks, pos)
                &&& match spec_frees(toks, pos + n1) {
                        Outcome::Matched(_) => is_frees(field_1, toks, pos + n1),
                        _ => false,
                    }
            },
            _ => false,
        },
        _ => false,
    }
}

/// What [`is_joik_ek_joik`] says.
pub proof fn lemma_is_joik_ek_joik<'arena>(node: JoikEk<'arena>, toks: Seq<Token>, pos: nat)
    ensures
        is_joik_ek_joik(node, toks, pos) == (
            match node {
                JoikEk::Joik(field_0, field_1) => match spec_joik(toks, pos) {
                    Outcome::Matched(n1) => {
                        &&& is_joik(field_0, toks, pos)
                        &&& match spec_frees(toks, pos + n1) {
                                Outcome::Matched(_) => is_frees(field_1, toks, pos + n1),
                                _ => false,
                            }
                    },
                    _ => false,
                },
                _ => false,
            }
        ),
{
    reveal(is_joik_ek_joik);
    reveal(is_joik);
    reveal(is_frees);
}

/// Whether `node` is the node that `JoikEkEk` makes of the tokens at `pos`.
#[verifier::opaque]
pub closed spec fn is_joik_ek_ek<'arena>(node: JoikEk<'arena>, toks: Seq<Token>, pos: nat) -> bool
    decreases rest(toks, pos), 25nat,
{
    match node {
        JoikEk::Ek(field_0, field_1) => match spec_ek(toks, pos) {
            Outcome::Matched(n1) => {
                &&& is_ek(field_0, toks, pos)
                &&& match spec_frees(toks, pos + n1) {
                        Outcome::Matched(_) => is_frees(field_1, toks, pos + n1),
                        _ => false,
                    }
            },
            _ => false,
        },
        _ => false,
    }
}

/// What [`is_joik_ek_ek`] says.
pub proof fn lemma_is_joik_ek_ek<'arena>(node: JoikEk<'arena>, toks: Seq<Token>, pos: nat)
    ensures
        is_joik_ek_ek(node, toks, pos) == (
            match node {
                JoikEk::Ek(field_0, field_1) => match spec_ek(toks, pos) {
                    Outcome::Matched(n1) => {
                        &&& is_ek(field_0, toks, pos)
                        &&& match spec_frees(toks, pos + n1) {
                                Outcome::Matched(_) => is_frees(field_1, toks, pos + n1),
                                _ => false,
                            }
                    },
                    _ => false,
                },
                _ => false,
            }
        ),
{
    reveal(is_joik_ek_ek);
    reveal(is_ek);
    reveal(is_frees);
}

/// Whether `node` is the node that `Ek` makes of the tokens at `pos`.
#[verifier::opaque]
pub closed spec fn is_ek<'arena>(node: Ek<'arena>, toks: Seq<Token>, pos: nat) -> bool
    decreases rest(toks, pos), 4nat,
{
    match spec_na_se_tnai_a(toks, pos) {
        Outcome::Matched(_) => is_na_se_tnai_a(node.0, toks, pos),
        _ => false,
    }
}

/// What [`is_ek`] says.
pub proof fn lemma_is_ek<'arena>(node: Ek<'arena>, toks: Seq<Token>, pos: nat)
    ensures
        is_ek(node, toks, pos) == (
            match spec_na_se_tnai_a(toks, pos) {
                Outcome::Matched(_) => is_na_se_tnai_a(node.0, toks, pos),
                _ => false,
            }
        ),
{
    reveal(is_ek);
    reveal(is_na_se_tnai_a);
}

/// Whether `node` is the node that `NaSeTNaiA` makes of the tokens at `pos`.
#[verifier::opaque]
pub closed spec fn is_na_se_tnai_a<'arena>(
    node: NaSeTNai<'arena, Word<'arena>>,
    toks: Seq<Token>,
    pos: nat,
) -> bool
    decreases rest(toks, pos), 3nat,
{
    match spec_opt(spec_word(toks, pos, Selmaho::Na)) {
        Outcome::Matched(n1) => {
            &&& (match node.0 {
                    Some(inner) => {
                        &&& spec_word(toks, pos, Selmaho::Na) is Matched
                        &&& is_word(inner, toks, pos, Selmaho::Na)
                    },
                    None => spec_word(toks, pos, Selmaho::Na) is Error,
                })
            &&& match spec_opt(spec_word(toks, pos + n1, Selmaho::Se)) {
                    Outcome::Matched(n2) => {
                        &&& (match node.1 {
                                Some(inner) => {
                                    &&& spec_word(toks, pos + n1, Selmaho::Se) is Matched
                                    &&& is_word(inner, toks, pos + n1, Selmaho::Se)
                                },
                                None => spec_word(toks, pos + n1, Selmaho::Se) is Error,
                            })
                        &&& match spec_word(toks, pos + n1 + n2, Selmaho::A) {
                                Outcome::Matched(n3) => {
                                    &&& is_word(node.2, toks, pos + n1 + n2, Selmaho::A)
                                    &&& match spec_opt(
                                        spec_word(toks, pos + n1 + n2 + n3, Selmaho::Nai),
                                    ) {
                                            Outcome::Matched(_) => {
                                                &&& (match node.3 {
                                                        Some(inner) => {
                                                            &&& spec_word(
                                                                toks,
                                                                pos + n1 + n2 + n3,
                                                                Selmaho::Nai,
                                                            ) is Matched
                                                            &&& is_word(
                                                                inner,
                                                                toks,
                                                                pos + n1 + n2 + n3,
                                                                Selmaho::Nai,
                                                            )
                                                        },
                                                        None => spec_word(
                                                            toks,
                                                            pos + n1 + n2 + n3,
                                                            Selmaho::Nai,
                                                        ) is Error,
                                                    })
                                            },
                                            _ => false,
                                        }
                                },
                                _ => false,
                            }
                    },
                    _ => false,
                }
        },
        _ => false,
    }
}

/// What [`is_na_se_tnai_a`] says.
pub proof fn lemma_is_na_se_tnai_a<'arena>(
    node: NaSeTNai<'arena, Word<'arena>>,
    toks: Seq<Token>,
    pos: nat,
)
    ensures
        is_na_se_tnai_a(node, toks, pos) == (
            match spec_opt(spec_word(toks, pos, Selmaho::Na)) {
                Outcome::Matched(n1) => {
                    &&& (match node.0 {
                            Some(inner) => {
                                &&& spec_word(toks, pos, Selmaho::Na) is Matched
                                &&& is_word(inner, toks, pos, Selmaho::Na)
                            },
                            None => spec_word(toks, pos, Selmaho::Na) is Error,
                        })
                    &&& match spec_opt(spec_word(toks, pos + n1, Selmaho::Se)) {
                            Outcome::Matched(n2) => {
                                &&& (match node.1 {
                                        Some(inner) => {
                                            &&& spec_word(toks, pos + n1, Selmaho::Se) is Matched
                                            &&& is_word(inner, toks, pos + n1, Selmaho::Se)
                                        },
                                        None => spec_word(toks, pos + n1, Selmaho::Se) is Error,
                                    })
                                &&& match spec_word(toks, pos + n1 + n2, Selmaho::A) {
                                        Outcome::Matched(n3) => {
                                            &&& is_word(node.2, toks, pos + n1 + n2, Selmaho::A)
                                            &&& match spec_opt(
                                                spec_word(toks, pos + n1 + n2 + n3, Selmaho::Nai),
                                            ) {
                                                    Outcome::Matched(_) => {
                                                        &&& (match node.3 {
                                                                Some(inner) => {
                                                                    &&& spec_word(
                                                                        toks,
                                                                        pos + n1 + n2 + n3,
                                                                        Selmaho::Nai,
                                                                    ) is Matched
                                                                    &&& is_word(
                                                                        inner,
                                                                        toks,
                                                                        pos + n1 + n2 + n3,
                                                                        Selmaho::Nai,
                                                                    )
                                                                },
                                                                None => spec_word(
                                                                    toks,
                                                                    pos + n1 + n2 + n3,
                                                                    Selmaho::Nai,
                                                                ) is Error,
                                                            })
                                                    },
                                                    _ => false,
                                                }
                                        },
                                        _ => false,
                                    }
                            },
                            _ => false,
                        }
                },
                _ => false,
            }
        ),
{
    reveal(is_na_se_tnai_a);
    reveal(is_word);
}

/// Whether `node` is the node that `ConnectedOperand` makes of the tokens at `pos`: the
/// node of the first alternative that matches.
#[verifier::opaque]
pub closed spec fn is_connected_operand<'arena>(
    node: SumtiLikeConnectedPost<'arena, Operand1<'arena>, Operand<'arena>>,
    toks: Seq<Token>,
    pos: nat,
) -> bool
    decreases rest(toks, pos), 97nat,
{
    match spec_connected_operand_normal(toks, pos) {
        Outcome::Matched(_) => is_connected_operand_normal(node, toks, pos),
        Outcome::Error(
            _,
        ) => spec_connected_operand_grouped(
            toks,
            pos,
        ) is Matched && is_connected_operand_grouped(node, toks, pos),
        Outcome::Failure(_) => false,
    }
}

/// What [`is_connected_operand`] says.
pub proof fn lemma_is_connected_operand<'arena>(toks: Seq<Token>, pos: nat)
    ensures
        forall|node: SumtiLikeConnectedPost<'arena, Operand1<'arena>, Operand<'arena>>| #[trigger] is_connected_operand(
            node,
            toks,
            pos,
        ) == (
            match spec_connected_operand_normal(toks, pos) {
                Outcome::Matched(_) => is_connected_operand_normal(node, toks, pos),
                Outcome::Error(
                    _,
                ) => spec_connected_operand_grouped(
                    toks,
                    pos,
                ) is Matched && is_connected_operand_grouped(node, toks, pos),
                Outcome::Failure(_) => false,
            }
        ),
{
    reveal(is_connected_operand);
    reveal(is_connected_operand_normal);
    reveal(is_connected_operand_grouped);
}

/// How many tokens the first `count` of a row of `ConnectedOperand` take at `pos`.
pub open spec fn run_of_connected_operand(toks: Seq<Token>, pos: nat, count: nat) -> nat
    decreases count,
{
    if count == 0 {
        0
    } else {
        let before = run_of_connected_operand(toks, pos, (count - 1) as nat);
        before + (match spec_connected_operand(toks, pos + before) {
            Outcome::Matched(len) => len,
            _ => 0,
        })
    }
}

/// Whether `items` are the nodes of a row of `ConnectedOperand` at `pos`: each is the
/// node of the `ConnectedOperand` at its place, and no further one follows them.
#[verifier::opaque]
pub closed spec fn is_row_of_connected_operand<'arena>(
    items: Seq<SumtiLikeConnectedPost<'arena, Operand1<'arena>, Operand<'arena>>>,
    toks: Seq<Token>,
    pos: nat,
) -> bool
    decreases rest(toks, pos), 98nat,
{
    &&& forall|i: int|
        #![trigger items[i]]
        #![trigger run_of_connected_operand(toks, pos, i as nat)]
        0 <= i < items.len() ==> spec_connected_operand(
            toks,
            pos + run_of_connected_operand(toks, pos, i as nat),
        ) is Matched && is_connected_operand(
            items[i],
            toks,
            pos + run_of_connected_operand(toks, pos, i as nat),
        )
    &&& !(spec_connected_operand(
        toks,
        pos + run_of_connected_operand(toks, pos, items.len()),
    ) is Matched)
}

/// What [`is_row_of_connected_operand`] says.
pub proof fn lemma_is_row_of_connected_operand<'arena>(
    items: Seq<SumtiLikeConnectedPost<'arena, Operand1<'arena>, Operand<'arena>>>,
    toks: Seq<Token>,
    pos: nat,
)
    ensures
        is_row_of_connected_operand(items, toks, pos) == ({
            &&& forall|i: int|
                #![trigger items[i]]
                #![trigger run_of_connected_operand(toks, pos, i as nat)]
                0 <= i < items.len() ==> spec_connected_operand(
                    toks,
                    pos + run_of_connected_operand(toks, pos, i as nat),
                ) is Matched && is_connected_operand(
                    items[i],
                    toks,
                    pos + run_of_connected_operand(toks, pos, i as nat),
                )
            &&& !(spec_connected_operand(
                toks,
                pos + run_of_connected_operand(toks, pos, items.len()),
            ) is Matched)
        }),
{
    reveal(is_row_of_connected_operand);
    reveal(is_connected_operand);
}

/// Whether `node` is the node that `ConnectedOperandNormal` makes of the tokens at `pos`.
#[verifier::opaque]
pub closed spec fn is_connected_operand_normal<'arena>(
    node: SumtiLikeConnectedPost<'arena, Operand1<'arena>, Operand<'arena>>,
    toks: Seq<Token>,
    pos: nat,
) -> bool
    decreases rest(toks, pos), 96nat,
{
    match node {
        SumtiLikeConnectedPost::Normal(field_0, field_1) => match spec_joik_ek(toks, pos) {
            Outcome::Matched(n1) => {
                &&& is_joik_ek(field_0, toks, pos)
                &&& match spec_operand_1(toks, pos + n1) {
                        Outcome::Matched(_) => is_operand_1(field_1, toks, pos + n1),
                        _ => false,
                    }
            },
            _ => false,
        },
        _ => false,
    }
}

/// What [`is_connected_operand_normal`] says.
pub proof fn lemma_is_connected_operand_normal<'arena>(
    node: SumtiLikeConnectedPost<'arena, Operand1<'arena>, Operand<'arena>>,
    toks: Seq<Token>,
    pos: nat,
)
    ensures
        is_connected_operand_normal(node, toks, pos) == (
            match node {
                SumtiLikeConnectedPost::Normal(
                    field_0,
                    field_1,
                ) => match spec_joik_ek(toks, pos) {
                    Outcome::Matched(n1) => {
                        &&& is_joik_ek(field_0, toks, pos)
                        &&& match spec_operand_1(toks, pos + n1) {
                                Outcome::Matched(_) => is_operand_1(field_1, toks, pos + n1),
                                _ => false,
                            }
                    },
                    _ => false,
                },
                _ => false,
            }
        ),
{
    reveal(is_connected_operand_normal);
    reveal(is_joik_ek);
    reveal(is_operand_1);
}

/// Whether `node` is the node that `ConnectedOperandGrouped` makes of the tokens at `pos`.
#[verifier::opaque]
pub closed spec fn is_connected_operand_grouped<'arena>(
    node: SumtiLikeConnectedPost<'arena, Operand1<'arena>, Operand<'arena>>,
    toks: Seq<Token>,
    pos: nat,
) -> bool
    decreases rest(toks, pos), 32nat,
{
    match node {
        SumtiLikeConnectedPost::Grouped(
            field_0,
            field_1,
            field_2,
            field_3,
            field_4,
            field_5,
        ) => match spec_joik_ek(toks, pos) {
            Outcome::Matched(n1) => {
                &&& is_joik_ek(field_0, toks, pos)
                &&& match spec_opt(spec_tag_words(toks, pos + n1)) {
                        Outcome::Matched(n2) => {
                            &&& (match field_1 {
                                    Some(inner) => {
                                        &&& spec_tag_words(toks, pos + n1) is Matched
                                        &&& is_tag_words(inner, toks, pos + n1)
                                    },
                                    None => spec_tag_words(toks, pos + n1) is Error,
                                })
                            &&& match spec_word_with_free(toks, pos + n1 + n2, Selmaho::Ke) {
                                    Outcome::Matched(n3) => {
                                        &&& is_word_with_free(
                                            field_2,
                                            toks,
                                            pos + n1 + n2,
                                            Selmaho::Ke,
                                        )
                                        &&& match spec_operand(toks, pos + n1 + n2 + n3) {
                                                Outcome::Matched(n4) => {
                                                    &&& advanced(toks, pos, n1 + n2 + n3)
                                                    &&& is_operand(
                                                        field_3,
                                                        toks,
                                                        pos + n1 + n2 + n3,
                                                    )
                                                    &&& match spec_opt(
                                                        spec_word(
                                                            toks,
                                                            pos + n1 + n2 + n3 + n4,
                                                            Selmaho::Kehe,
                                                        ),
                                                    ) {
                                                            Outcome::Matched(n5) => {
                                                                &&& (match field_4 {
                                                                        Some(inner) => {
                                                                            &&& spec_word(
                                                                                toks,
                                                                                pos + n1 + n2 + n3 + n4,
                                                                                Selmaho::Kehe,
                                                                            ) is Matched
                                                                            &&& is_word(
                                                                                inner,
                                                                                toks,
                                                                                pos + n1 + n2 + n3 + n4,
                                                                                Selmaho::Kehe,
                                                                            )
                                                                        },
                                                                        None => spec_word(
                                                                            toks,
                                                                            pos + n1 + n2 + n3 + n4,
                                                                            Selmaho::Kehe,
                                                                        ) is Error,
                                                                    })
                                                                &&& match spec_frees(
                                                                    toks,
                                                                    pos + n1 + n2 + n3 + n4 + n5,
                                                                ) {
                                                                        Outcome::Matched(_) => is_frees(
                                                                            field_5,
                                                                            toks,
                                                                            pos + n1 + n2 + n3 + n4 + n5,
                                                                        ),
                                                                        _ => false,
                                                                    }
                                                            },
                                                            _ => false,
                                                        }
                                                },
                                                _ => false,
                                            }
                                    },
                                    _ => false,
                                }
                        },
                        _ => false,
                    }
            },
            _ => false,
        },
        _ => false,
    }
}

/// What [`is_connected_operand_grouped`] says.
pub proof fn lemma_is_connected_operand_grouped<'arena>(
    node: SumtiLikeConnectedPost<'arena, Operand1<'arena>, Operand<'arena>>,
    toks: Seq<Token>,
    pos: nat,
)
    ensures
        is_connected_operand_grouped(node, toks, pos) == (
            match node {
                SumtiLikeConnectedPost::Grouped(
                    field_0,
                    field_1,
                    field_2,
                    field_3,
                    field_4,
                    field_5,
                ) => match spec_joik_ek(toks, pos) {
                    Outcome::Matched(n1) => {
                        &&& is_joik_ek(field_0, toks, pos)
                        &&& match spec_opt(spec_tag_words(toks, pos + n1)) {
                                Outcome::Matched(n2) => {
                                    &&& (match field_1 {
                                            Some(inner) => {
                                                &&& spec_tag_words(toks, pos + n1) is Matched
                                                &&& is_tag_words(inner, toks, pos + n1)
                                            },
                                            None => spec_tag_words(toks, pos + n1) is Error,
                                        })
                                    &&& match spec_word_with_free(
                                        toks,
                                        pos + n1 + n2,
                                        Selmaho::Ke,
                                    ) {
                                            Outcome::Matched(n3) => {
                                                &&& is_word_with_free(
                                                    field_2,
                                                    toks,
                                                    pos + n1 + n2,
                                                    Selmaho::Ke,
                                                )
                                                &&& match spec_operand(toks, pos + n1 + n2 + n3) {
                                                        Outcome::Matched(n4) => {
                                                            &&& advanced(toks, pos, n1 + n2 + n3)
                                                            &&& is_operand(
                                                                field_3,
                                                                toks,
                                                                pos + n1 + n2 + n3,
                                                            )
                                                            &&& match spec_opt(
                                                                spec_word(
                                                                    toks,
                                                                    pos + n1 + n2 + n3 + n4,
                                                                    Selmaho::Kehe,
                                                                ),
                                                            ) {
                                                                    Outcome::Matched(n5) => {
                                                                        &&& (match field_4 {
                                                                                Some(inner) => {
                                                                                    &&& spec_word(
                                                                                        toks,
                                                                                        pos + n1 + n2 + n3 + n4,
                                                                                        Selmaho::Kehe,
                                                                                    ) is Matched
                                                                                    &&& is_word(
                                                                                        inner,
                                                                                        toks,
                                                                                        pos + n1 + n2 + n3 + n4,
                                                                                        Selmaho::Kehe,
                                                                                    )
                                                                                },
                                                                                None => spec_word(
                                                                                    toks,
                                                                                    pos + n1 + n2 + n3 + n4,
                                                                                    Selmaho::Kehe,
                                                                                ) is Error,
                                                                            })
                                                                        &&& match spec_frees(
                                                                            toks,
                                                                            pos + n1 + n2 + n3 + n4 + n5,
                                                                        ) {
                                                                                Outcome::Matched(_) => is_frees(
                                                                                    field_5,
                                                                                    toks,
                                                                                    pos + n1 + n2 + n3 + n4 + n5,
                                                                                ),
                                                                                _ => false,
                                                                            }
                                                                    },
                                                                    _ => false,
                                                                }
                                                        },
                                                        _ => false,
                                                    }
                                            },
                                            _ => false,
                                        }
                                },
                                _ => false,
                            }
                    },
                    _ => false,
                },
                _ => false,
            }
        ),
{
    reveal(is_connected_operand_grouped);
    reveal(is_joik_ek);
    reveal(is_tag_words);
    reveal(is_word_with_free);
    reveal(is_operand);
    reveal(is_word);
    reveal(is_frees);
}

/// Whether `node` is the node that `RPTail` makes of the tokens at `pos`.
#[verifier::opaque]
pub closed spec fn is_rptail<'arena>(node: RPTail<'arena>, toks: Seq<Token>, pos: nat) -> bool
    decreases rest(toks, pos), 101nat,
{
    match spec_reverse_polish(toks, pos) {
        Outcome::Matched(n1) => {
            &&& is_reverse_polish(node.0, toks, pos)
            &&& match spec_operator(toks, pos + n1) {
                    Outcome::Matched(_) => is_operator(node.1, toks, pos + n1),
                    _ => false,
                }
        },
        _ => false,
    }
}

/// What [`is_rptail`] says.
pub proof fn lemma_is_rptail<'arena>(node: RPTail<'arena>, toks: Seq<Token>, pos: nat)
    ensures
        is_rptail(node, toks, pos) == (
            match spec_reverse_polish(toks, pos) {
                Outcome::Matched(n1) => {
                    &&& is_reverse_polish(node.0, toks, pos)
                    &&& match spec_operator(toks, pos + n1) {
                            Outcome::Matched(_) => is_operator(node.1, toks, pos + n1),
                            _ => false,
                        }
                },
                _ => false,
            }
        ),
{
    reveal(is_rptail);
    reveal(is_reverse_polish);
    reveal(is_operator);
}

/// How many tokens the first `count` of a row of `RPTail` take at `pos`.
pub open spec fn run_of_rptail(toks: Seq<Token>, pos: nat, count: nat) -> nat
    decreases count,
{
    if count == 0 {
        0
    } else {
        let before = run_of_rptail(toks, pos, (count - 1) as nat);
        before + (match spec_rptail(toks, pos + before) {
            Outcome::Matched(len) => len,
            _ => 0,
        })
    }
}

/// Whether `items` are the nodes of a row of `RPTail` at `pos`: each is the
/// node of the `RPTail` at its place, and no further one follows them.
#[verifier::opaque]
pub closed spec fn is_row_of_rptail<'arena>(
    items: Seq<RPTail<'arena>>,
    toks: Seq<Token>,
    pos: nat,
) -> bool
    decreases rest(toks, pos), 102nat,
{
    &&& forall|i: int|
        #![trigger items[i]]
        #![trigger run_of_rptail(toks, pos, i as nat)]
        0 <= i < items.len() ==> spec_rptail(
            toks,
            pos + run_of_rptail(toks, pos, i as nat),
        ) is Matched && is_rptail(items[i], toks, pos + run_of_rptail(toks, pos, i as nat))
    &&& !(spec_rptail(toks, pos + run_of_rptail(toks, pos, items.len())) is Matched)
}

/// What [`is_row_of_rptail`] says.
pub proof fn lemma_is_row_of_rptail<'arena>(
    items: Seq<RPTail<'arena>>,
    toks: Seq<Token>,
    pos: nat,
)
    ensures
        is_row_of_rptail(items, toks, pos) == ({
            &&& forall|i: int|
                #![trigger items[i]]
                #![trigger run_of_rptail(toks, pos, i as nat)]
                0 <= i < items.len() ==> spec_rptail(
                    toks,
                    pos + run_of_rptail(toks, pos, i as nat),
                ) is Matched && is_rptail(
                    items[i],
                    toks,
                    pos + run_of_rptail(toks, pos, i as nat),
                )
            &&& !(spec_rptail(toks, pos + run_of_rptail(toks, pos, items.len())) is Matched)
        }),
{
    reveal(is_row_of_rptail);
    reveal(is_rptail);
}

/// Whether `node` is the node that `ExpressionNormal` makes of the tokens at `pos`.
#[verifier::opaque]
pub closed spec fn is_expression_normal<'arena>(
    node: Expression<'arena>,
    toks: Seq<Token>,
    pos: nat,
) -> bool
    decreases rest(toks, pos), 108nat,
{
    match node {
        Expression::Normal(field_0) => match spec_expression_list(toks, pos) {
            Outcome::Matched(_) => is_expression_list(field_0, toks, pos),
            _ => false,
        },
        _ => false,
    }
}

/// What [`is_expression_normal`] says.
pub proof fn lemma_is_expression_normal<'arena>(
    node: Expression<'arena>,
    toks: Seq<Token>,
    pos: nat,
)
    ensures
        is_expression_normal(node, toks, pos) == (
            match node {
                Expression::Normal(field_0) => match spec_expression_list(toks, pos) {
                    Outcome::Matched(_) => is_expression_list(field_0, toks, pos),
                    _ => false,
                },
                _ => false,
            }
        ),
{
    reveal(is_expression_normal);
    reveal(is_expression_list);
}

/// Whether `node` is the node that `ExpressionList` makes of the tokens at `pos`.
#[verifier::opaque]
pub closed spec fn is_expression_list<'arena>(
    node: Separated<'arena, Separated<'arena, Expression1<'arena>, (WithFree<'arena, Word<'arena>>, Operator<'arena>)>, Operator<'arena>>,
    toks: Seq<Token>,
    pos: nat,
) -> bool
    decreases rest(toks, pos), 107nat,
{
    match spec_bihe_list(toks, pos) {
        Outcome::Matched(n1) => {
            &&& is_bihe_list(*node.first, toks, pos)
            &&& match spec_many0_expression_list_next(toks, pos + n1) {
                    Outcome::Matched(_) => is_row_of_expression_list_next(
                        node.rest@,
                        toks,
                        pos + n1,
                    ),
                    _ => false,
                }
        },
        _ => false,
    }
}

/// What [`is_expression_list`] says.
pub proof fn lemma_is_expression_list<'arena>(
    node: Separated<'arena, Separated<'arena, Expression1<'arena>, (WithFree<'arena, Word<'arena>>, Operator<'arena>)>, Operator<'arena>>,
    toks: Seq<Token>,
    pos: nat,
)
    ensures
        is_expression_list(node, toks, pos) == (
            match spec_bihe_list(toks, pos) {
                Outcome::Matched(n1) => {
                    &&& is_bihe_list(*node.first, toks, pos)
                    &&& match spec_many0_expression_list_next(toks, pos + n1) {
                            Outcome::Matched(_) => is_row_of_expression_list_next(
                                node.rest@,
                                toks,
                                pos + n1,
                            ),
                            _ => false,
                        }
                },
                _ => false,
            }
        ),
{
    reveal(is_expression_list);
    reveal(is_bihe_list);
    reveal(is_row_of_expression_list_next);
}

/// Whether `node` is the node that `BiheList` makes of the tokens at `pos`.
#[verifier::opaque]
pub closed spec fn is_bihe_list<'arena>(
    node: Separated<'arena, Expression1<'arena>, (WithFree<'arena, Word<'arena>>, Operator<'arena>)>,
    toks: Seq<Token>,
    pos: nat,
) -> bool
    decreases rest(toks, pos), 104nat,
{
    match spec_expression_1(toks, pos) {
        Outcome::Matched(n1) => {
            &&& is_expression_1(*node.first, toks, pos)
            &&& match spec_many0_bihe_list_next(toks, pos + n1) {
                    Outcome::Matched(_) => is_row_of_bihe_list_next(node.rest@, toks, pos + n1),
                    _ => false,
                }
        },
        _ => false,
    }
}

/// What [`is_bihe_list`] says.
pub proof fn lemma_is_bihe_list<'arena>(
    node: Separated<'arena, Expression1<'arena>, (WithFree<'arena, Word<'arena>>, Operator<'arena>)>,
    toks: Seq<Token>,
    pos: nat,
)
    ensures
        is_bihe_list(node, toks, pos) == (
            match spec_expression_1(toks, pos) {
                Outcome::Matched(n1) => {
                    &&& is_expression_1(*node.first, toks, pos)
                    &&& match spec_many0_bihe_list_next(toks, pos + n1) {
                            Outcome::Matched(_) => is_row_of_bihe_list_next(
                                node.rest@,
                                toks,
                                pos + n1,
                            ),
                            _ => false,
                        }
                },
                _ => false,
            }
        ),
{
    reveal(is_bihe_list);
    reveal(is_expression_1);
    reveal(is_row_of_bihe_list_next);
}

/// Whether `node` is the node that `BiheListNext` makes of the tokens at `pos`.
#[verifier::opaque]
pub closed spec fn is_bihe_list_next<'arena>(
    node: ((WithFree<'arena, Word<'arena>>, Operator<'arena>), Expression1<'arena>),
    toks: Seq<Token>,
    pos: nat,
) -> bool
    decreases rest(toks, pos), 102nat,
{
    match spec_bihe_operator(toks, pos) {
        Outcome::Matched(n1) => {
            &&& is_bihe_operator(node.0, toks, pos)
            &&& match spec_expression_1(toks, pos + n1) {
                    Outcome::Matched(_) => is_expression_1(node.1, toks, pos + n1),
                    _ => false,
                }
        },
        _ => false,
    }
}

/// What [`is_bihe_list_next`] says.
pub proof fn lemma_is_bihe_list_next<'arena>(
    node: ((WithFree<'arena, Word<'arena>>, Operator<'arena>), Expression1<'arena>),
    toks: Seq<Token>,
    pos: nat,
)
    ensures
        is_bihe_list_next(node, toks, pos) == (
            match spec_bihe_operator(toks, pos) {
                Outcome::Matched(n1) => {
                    &&& is_bihe_operator(node.0, toks, pos)
                    &&& match spec_expression_1(toks, pos + n1) {
                            Outcome::Matched(_) => is_expression_1(node.1, toks, pos + n1),
                            _ => false,
                        }
                },
                _ => false,
            }
        ),
{
    reveal(is_bihe_list_next);
    reveal(is_bihe_operator);
    reveal(is_expression_1);
}

/// How many tokens the first `count` of a row of `BiheListNext` take at `pos`.
pub open spec fn run_of_bihe_list_next(toks: Seq<Token>, pos: nat, count: nat) -> nat
    decreases count,
{
    if count == 0 {
        0
    } else {
        let before = run_of_bihe_list_next(toks, pos, (count - 1) as nat);
        before + (match spec_bihe_list_next(toks, pos + before) {
            Outcome::Matched(len) => len,
            _ => 0,
        })
    }
}

/// Whether `items` are the nodes of a row of `BiheListNext` at `pos`: each is the
/// node of the `BiheListNext` at its place, and no further one follows them.
#[verifier::opaque]
pub closed spec fn is_row_of_bihe_list_next<'arena>(
    items: Seq<((WithFree<'arena, Word<'arena>>, Operator<'arena>), Expression1<'arena>)>,
    toks: Seq<Token>,
    pos: nat,
) -> bool
    decreases rest(toks, pos), 103nat,
{
    &&& forall|i: int|
        #![trigger items[i]]
        #![trigger run_of_bihe_list_next(toks, pos, i as nat)]
        0 <= i < items.len() ==> spec_bihe_list_next(
            toks,
            pos + run_of_bihe_list_next(toks, pos, i as nat),
        ) is Matched && is_bihe_list_next(
            items[i],
            toks,
            pos + run_of_bihe_list_next(toks, pos, i as nat),
        )
    &&& !(spec_bihe_list_next(
        toks,
        pos + run_of_bihe_list_next(toks, pos, items.len()),
    ) is Matched)
}

/// What [`is_row_of_bihe_list_next`] says.
pub proof fn lemma_is_row_of_bihe_list_next<'arena>(
    items: Seq<((WithFree<'arena, Word<'arena>>, Operator<'arena>), Expression1<'arena>)>,
    toks: Seq<Token>,
    pos: nat,
)
    ensures
        is_row_of_bihe_list_next(items, toks, pos) == ({
            &&& forall|i: int|
                #![trigger items[i]]
                #![trigger run_of_bihe_list_next(toks, pos, i as nat)]
                0 <= i < items.len() ==> spec_bihe_list_next(
                    toks,
                    pos + run_of_bihe_list_next(toks, pos, i as nat),
                ) is Matched && is_bihe_list_next(
                    items[i],
                    toks,
                    pos + run_of_bihe_list_next(toks, pos, i as nat),
                )
            &&& !(spec_bihe_list_next(
                toks,
                pos + run_of_bihe_list_next(toks, pos, items.len()),
            ) is Matched)
        }),
{
    reveal(is_row_of_bihe_list_next);
    reveal(is_bihe_list_next);
}

/// Whether `node` is the node that `BiheOperator` makes of the tokens at `pos`.
#[verifier::opaque]
pub closed spec fn is_bihe_operator<'arena>(
    node: (WithFree<'arena, Word<'arena>>, Operator<'arena>),
    toks: Seq<Token>,
    pos: nat,
) -> bool
    decreases rest(toks, pos), 42nat,
{
    match spec_word_with_free(toks, pos, Selmaho::Bihe) {
        Outcome::Matched(n1) => {
            &&& is_word_with_free(node.0, toks, pos, Selmaho::Bihe)
            &&& match spec_operator(toks, pos + n1) {
                    Outcome::Matched(_) => is_operator(node.1, toks, pos + n1),
                    _ => false,
                }
        },
        _ => false,
    }
}

/// What [`is_bihe_operator`] says.
pub proof fn lemma_is_bihe_operator<'arena>(
    node: (WithFree<'arena, Word<'arena>>, Operator<'arena>),
    toks: Seq<Token>,
    pos: nat,
)
    ensures
        is_bihe_operator(node, toks, pos) == (
            match spec_word_with_free(toks, pos, Selmaho::Bihe) {
                Outcome::Matched(n1) => {
                    &&& is_word_with_free(node.0, toks, pos, Selmaho::Bihe)
                    &&& match spec_operator(toks, pos + n1) {
                            Outcome::Matched(_) => is_operator(node.1, toks, pos + n1),
                            _ => false,
                        }
                },
                _ => false,
            }
        ),
{
    reveal(is_bihe_operator);
    reveal(is_word_with_free);
    reveal(is_operator);
}

/// Whether `node` is the node that `ExpressionListNext` makes of the tokens at `pos`.
#[verifier::opaque]
pub closed spec fn is_expression_list_next<'arena>(
    node: (Operator<'arena>, Separated<'arena, Expression1<'arena>, (WithFree<'arena, Word<'arena>>, Operator<'arena>)>),
    toks: Seq<Token>,
    pos: nat,
) -> bool
    decreases rest(toks, pos), 105nat,
{
    match spec_operator(toks, pos) {
        Outcome::Matched(n1) => {
            &&& is_operator(node.0, toks, pos)
            &&& match spec_bihe_list(toks, pos + n1) {
                    Outcome::Matched(_) => is_bihe_list(node.1, toks, pos + n1),
                    _ => false,
                }
        },
        _ => false,
    }
}

/// What [`is_expression_list_next`] says.
pub proof fn lemma_is_expression_list_next<'arena>(
    node: (Operator<'arena>, Separated<'arena, Expression1<'arena>, (WithFree<'arena, Word<'arena>>, Operator<'arena>)>),
    toks: Seq<Token>,
    pos: nat,
)
    ensures
        is_expression_list_next(node, toks, pos) == (
            match spec_operator(toks, pos) {
                Outcome::Matched(n1) => {
                    &&& is_operator(node.0, toks, pos)
                    &&& match spec_bihe_list(toks, pos + n1) {
                            Outcome::Matched(_) => is_bihe_list(node.1, toks, pos + n1),
                            _ => false,
                        }
                },
                _ => false,
            }
        ),
{
    reveal(is_expression_list_next);
    reveal(is_operator);
    reveal(is_bihe_list);
}

/// How many tokens the first `count` of a row of `ExpressionListNext` take at `pos`.
pub open spec fn run_of_expression_list_next(toks: Seq<Token>, pos: nat, count: nat) -> nat
    decreases count,
{
    if count == 0 {
        0
    } else {
        let before = run_of_expression_list_next(toks, pos, (count - 1) as nat);
        before + (match spec_expression_list_next(toks, pos + before) {
            Outcome::Matched(len) => len,
            _ => 0,
        })
    }
}

/// Whether `items` are the nodes of a row of `ExpressionListNext` at `pos`: each is the
/// node of the `ExpressionListNext` at its place, and no further one follows them.
#[verifier::opaque]
pub closed spec fn is_row_of_expression_list_next<'arena>(
    items: Seq<(Operator<'arena>, Separated<'arena, Expression1<'arena>, (WithFree<'arena, Word<'arena>>, Operator<'arena>)>)>,
    toks: Seq<Token>,
    pos: nat,
) -> bool
    decreases rest(toks, pos), 106nat,
{
    &&& forall|i: int|
        #![trigger items[i]]
        #![trigger run_of_expression_list_next(toks, pos, i as nat)]
        0 <= i < items.len() ==> spec_expression_list_next(
            toks,
            pos + run_of_expression_list_next(toks, pos, i as nat),
        ) is Matched && is_expression_list_next(
            items[i],
            toks,
            pos + run_of_expression_list_next(toks, pos, i as nat),
        )
    &&& !(spec_expression_list_next(
        toks,
        pos + run_of_expression_list_next(toks, pos, items.len()),
    ) is Matched)
}

/// What [`is_row_of_expression_list_next`] says.
pub proof fn lemma_is_row_of_expression_list_next<'arena>(
    items: Seq<(Operator<'arena>, Separated<'arena, Expression1<'arena>, (WithFree<'arena, Word<'arena>>, Operator<'arena>)>)>,
    toks: Seq<Token>,
    pos: nat,
)
    ensures
        is_row_of_expression_list_next(items, toks, pos) == ({
            &&& forall|i: int|
                #![trigger items[i]]
                #![trigger run_of_expression_list_next(toks, pos, i as nat)]
                0 <= i < items.len() ==> spec_expression_list_next(
                    toks,
                    pos + run_of_expression_list_next(toks, pos, i as nat),
                ) is Matched && is_expression_list_next(
                    items[i],
                    toks,
                    pos + run_of_expression_list_next(toks, pos, i as nat),
                )
            &&& !(spec_expression_list_next(
                toks,
                pos + run_of_expression_list_next(toks, pos, items.len()),
            ) is Matched)
        }),
{
    reveal(is_row_of_expression_list_next);
    reveal(is_expression_list_next);
}

/// Whether `node` is the node that `QuantifierNumber` makes of the tokens at `pos`.
#[verifier::opaque]
pub closed spec fn is_quantifier_number<'arena>(
    node: Quantifier<'arena>,
    toks: Seq<Token>,
    pos: nat,
) -> bool
    decreases rest(toks, pos), 25nat,
{
    match node {
        Quantifier::Number(field_0, field_1, field_2) => match spec_number(toks, pos) {
            Outcome::Matched(n1) => {
                &&& is_number(field_0, toks, pos)
                &&& match spec_opt(spec_word(toks, pos + n1, Selmaho::Boi)) {
                        Outcome::Matched(n2) => {
                            &&& (match field_1 {
                                    Some(inner) => {
                                        &&& spec_word(toks, pos + n1, Selmaho::Boi) is Matched
                                        &&& is_word(inner, toks, pos + n1, Selmaho::Boi)
                                    },
                                    None => spec_word(toks, pos + n1, Selmaho::Boi) is Error,
                                })
                            &&& match spec_frees(toks, pos + n1 + n2) {
                                    Outcome::Matched(_) => is_frees(field_2, toks, pos + n1 + n2),
                                    _ => false,
                                }
                        },
                        _ => false,
                    }
            },
            _ => false,
        },
        _ => false,
    }
}

/// What [`is_quantifier_number`] says.
pub proof fn lemma_is_quantifier_number<'arena>(
    node: Quantifier<'arena>,
    toks: Seq<Token>,
    pos: nat,
)
    ensures
        is_quantifier_number(node, toks, pos) == (
            match node {
                Quantifier::Number(field_0, field_1, field_2) => match spec_number(toks, pos) {
                    Outcome::Matched(n1) => {
                        &&& is_number(field_0, toks, pos)
                        &&& match spec_opt(spec_word(toks, pos + n1, Selmaho::Boi)) {
                                Outcome::Matched(n2) => {
                                    &&& (match field_1 {
                                            Some(inner) => {
                                                &&& spec_word(
                                                    toks,
                                                    pos + n1,
                                                    Selmaho::Boi,
                                                ) is Matched
                                                &&& is_word(inner, toks, pos + n1, Selmaho::Boi)
                                            },
                                            None => spec_word(
                                                toks,
                                                pos + n1,
                                                Selmaho::Boi,
                                            ) is Error,
                                        })
                                    &&& match spec_frees(toks, pos + n1 + n2) {
                                            Outcome::Matched(_) => is_frees(
                                                field_2,
                                                toks,
                                                pos + n1 + n2,
                                            ),
                                            _ => false,
                                        }
                                },
                                _ => false,
                            }
                    },
                    _ => false,
                },
                _ => false,
            }
        ),
{
    reveal(is_quantifier_number);
    reveal(is_number);
    reveal(is_word);
    reveal(is_frees);
}

/// Whether `node` is the node that `SumtiComponent` makes of the tokens at `pos`.
#[verifier::opaque]
pub closed spec fn is_sumti_component<'arena>(
    node: WithFree<'arena, SumtiComponent1<'arena>>,
    toks: Seq<Token>,
    pos: nat,
) -> bool
    decreases rest(toks, pos), 29nat,
{
    match spec_sumti_component_1(toks, pos) {
        Outcome::Matched(n1) => {
            &&& is_sumti_component_1(node.inner, toks, pos)
            &&& match spec_frees(toks, pos + n1) {
                    Outcome::Matched(_) => is_frees(node.frees, toks, pos + n1),
                    _ => false,
                }
        },
        _ => false,
    }
}

/// What [`is_sumti_component`] says.
pub proof fn lemma_is_sumti_component<'arena>(
    node: WithFree<'arena, SumtiComponent1<'arena>>,
    toks: Seq<Token>,
    pos: nat,
)
    ensures
        is_sumti_component(node, toks, pos) == (
            match spec_sumti_component_1(toks, pos) {
                Outcome::Matched(n1) => {
                    &&& is_sumti_component_1(node.inner, toks, pos)
                    &&& match spec_frees(toks, pos + n1) {
                            Outcome::Matched(_) => is_frees(node.frees, toks, pos + n1),
                            _ => false,
                        }
                },
                _ => false,
            }
        ),
{
    reveal(is_sumti_component);
    reveal(is_sumti_component_1);
    reveal(is_frees);
}

/// Whether `node` is the node that `SumtiComponent1` makes of the tokens at `pos`: the
/// node of the first alternative that matches.
#[verifier::opaque]
pub closed spec fn is_sumti_component_1<'arena>(
    node: SumtiComponent1<'arena>,
    toks: Seq<Token>,
    pos: nat,
) -> bool
    decreases rest(toks, pos), 28nat,
{
    match spec_sumti_component_1_koha(toks, pos) {
        Outcome::Matched(_) => is_sumti_component_1_koha(node, toks, pos),
        Outcome::Error(_) => match spec_sumti_component_1_gadri(toks, pos) {
            Outcome::Matched(_) => is_sumti_component_1_gadri(node, toks, pos),
            Outcome::Error(_) => match spec_sumti_component_1_la(toks, pos) {
                Outcome::Matched(_) => is_sumti_component_1_la(node, toks, pos),
                Outcome::Error(_) => match spec_sumti_component_1_lohu(toks, pos) {
                    Outcome::Matched(_) => is_sumti_component_1_lohu(node, toks, pos),
                    Outcome::Error(_) => match spec_sumti_component_1_lu(toks, pos) {
                        Outcome::Matched(_) => is_sumti_component_1_lu(node, toks, pos),
                        Outcome::Error(_) => match spec_sumti_component_1_modified(toks, pos) {
                            Outcome::Matched(_) => is_sumti_component_1_modified(node, toks, pos),
                            Outcome::Error(
                                _,
                            ) => match spec_sumti_component_1_lerfu_string(toks, pos) {
                                Outcome::Matched(_) => is_sumti_component_1_lerfu_string(
                                    node,
                                    toks,
                                    pos,
                                ),
                                Outcome::Error(_) => match spec_sumti_component_1_zo(toks, pos) {
                                    Outcome::Matched(_) => is_sumti_component_1_zo(
                                        node,
                                        toks,
                                        pos,
                                    ),
                                    Outcome::Error(
                                        _,
                                    ) => match spec_sumti_component_1_zoi(toks, pos) {
                                        Outcome::Matched(_) => is_sumti_component_1_zoi(
                                            node,
                                            toks,
                                            pos,
                                        ),
                                        Outcome::Error(
                                            _,
                                        ) => spec_sumti_component_1_li(
                                            toks,
                                            pos,
                                        ) is Matched && is_sumti_component_1_li(node, toks, pos),
                                        Outcome::Failure(_) => false,
                                    },
                                    Outcome::Failure(_) => false,
                                },
                                Outcome::Failure(_) => false,
                            },
                            Outcome::Failure(_) => false,
                        },
                        Outcome::Failure(_) => false,
                    },
                    Outcome::Failure(_) => false,
                },
                Outcome::Failure(_) => false,
            },
            Outcome::Failure(_) => false,
        },
        Outcome::Failure(_) => false,
    }
}

/// What [`is_sumti_component_1`] says.
pub proof fn lemma_is_sumti_component_1<'arena>(toks: Seq<Token>, pos: nat)
    ensures
        forall|node: SumtiComponent1<'arena>| #[trigger] is_sumti_component_1(
            node,
            toks,
            pos,
        ) == (
            match spec_sumti_component_1_koha(toks, pos) {
                Outcome::Matched(_) => is_sumti_component_1_koha(node, toks, pos),
                Outcome::Error(_) => match spec_sumti_component_1_gadri(toks, pos) {
                    Outcome::Matched(_) => is_sumti_component_1_gadri(node, toks, pos),
                    Outcome::Error(_) => match spec_sumti_component_1_la(toks, pos) {
                        Outcome::Matched(_) => is_sumti_component_1_la(node, toks, pos),
                        Outcome::Error(_) => match spec_sumti_component_1_lohu(toks, pos) {
                            Outcome::Matched(_) => is_sumti_component_1_lohu(node, toks, pos),
                            Outcome::Error(_) => match spec_sumti_component_1_lu(toks, pos) {
                                Outcome::Matched(_) => is_sumti_component_1_lu(node, toks, pos),
                                Outcome::Error(
                                    _,
                                ) => match spec_sumti_component_1_modified(toks, pos) {
                                    Outcome::Matched(_) => is_sumti_component_1_modified(
                                        node,
                                        toks,
                                        pos,
                                    ),
                                    Outcome::Error(
                                        _,
                                    ) => match spec_sumti_component_1_lerfu_string(toks, pos) {
                                        Outcome::Matched(_) => is_sumti_component_1_lerfu_string(
                                            node,
                                            toks,
                                            pos,
                                        ),
                                        Outcome::Error(
                                            _,
                                        ) => match spec_sumti_component_1_zo(toks, pos) {
                                            Outcome::Matched(_) => is_sumti_component_1_zo(
                                                node,
                                                toks,
                                                pos,
                                            ),
                                            Outcome::Error(
                                                _,
                                            ) => match spec_sumti_component_1_zoi(toks, pos) {
                                                Outcome::Matched(_) => is_sumti_component_1_zoi(
                                                    node,
                                                    toks,
                                                    pos,
                                                ),
                                                Outcome::Error(
                                                    _,
                                                ) => spec_sumti_component_1_li(
                                                    toks,
                                                    pos,
                                                ) is Matched && is_sumti_component_1_li(
                                                    node,
                                                    toks,
                                                    pos,
                                                ),
                                                Outcome::Failure(_) => false,
                                            },
                                            Outcome::Failure(_) => false,
                                        },
                                        Outcome::Failure(_) => false,
                                    },
                                    Outcome::Failure(_) => false,
                                },
                                Outcome::Failure(_) => false,
                            },
                            Outcome::Failure(_) => false,
                        },
                        Outcome::Failure(_) => false,
                    },
                    Outcome::Failure(_) => false,
                },
                Outcome::Failure(_) => false,
            }
        ),
{
    reveal(is_sumti_component_1);
    reveal(is_sumti_component_1_koha);
    reveal(is_sumti_component_1_gadri);
    reveal(is_sumti_component_1_la);
    reveal(is_sumti_component_1_lohu);
    reveal(is_sumti_component_1_lu);
    reveal(is_sumti_component_1_modified);
    reveal(is_sumti_component_1_lerfu_string);
    reveal(is_sumti_component_1_zo);
    reveal(is_sumti_component_1_zoi);
    reveal(is_sumti_component_1_li);
}

/// Whether `node` is the node that `SumtiComponent1Koha` makes of the tokens at `pos`.
#[verifier::opaque]
pub closed spec fn is_sumti_component_1_koha<'arena>(
    node: SumtiComponent1<'arena>,
    toks: Seq<Token>,
    pos: nat,
) -> bool
    decreases rest(toks, pos), 3nat,
{
    match node {
        SumtiComponent1::Koha(field_0) => match spec_word(toks, pos, Selmaho::Koha) {
            Outcome::Matched(_) => is_word(field_0, toks, pos, Selmaho::Koha),
            _ => false,
        },
        _ => false,
    }
}

/// What [`is_sumti_component_1_koha`] says.
pub proof fn lemma_is_sumti_component_1_koha<'arena>(
    node: SumtiComponent1<'arena>,
    toks: Seq<Token>,
    pos: nat,
)
    ensures
        is_sumti_component_1_koha(node, toks, pos) == (
            match node {
                SumtiComponent1::Koha(field_0) => match spec_word(toks, pos, Selmaho::Koha) {
                    Outcome::Matched(_) => is_word(field_0, toks, pos, Selmaho::Koha),
                    _ => false,
                },
                _ => false,
            }
        ),
{
    reveal(is_sumti_component_1_koha);
    reveal(is_word);
}

/// Whether `node` is the node that `SumtiComponent1Gadri` makes of the tokens at `pos`.
#[verifier::opaque]
pub closed spec fn is_sumti_component_1_gadri<'arena>(
    node: SumtiComponent1<'arena>,
    toks: Seq<Token>,
    pos: nat,
) -> bool
    decreases rest(toks, pos), 27nat,
{
    match node {
        SumtiComponent1::Gadri(field_0) => match spec_gadri_sumti(toks, pos) {
            Outcome::Matched(_) => is_gadri_sumti(*field_0, toks, pos),
            _ => false,
        },
        _ => false,
    }
}

/// What [`is_sumti_component_1_gadri`] says.
pub proof fn lemma_is_sumti_component_1_gadri<'arena>(
    node: SumtiComponent1<'arena>,
    toks: Seq<Token>,
    pos: nat,
)
    ensures
        is_sumti_component_1_gadri(node, toks, pos) == (
            match node {
                SumtiComponent1::Gadri(field_0) => match spec_gadri_sumti(toks, pos) {
                    Outcome::Matched(_) => is_gadri_sumti(*field_0, toks, pos),
                    _ => false,
                },
                _ => false,
            }
        ),
{
    reveal(is_sumti_component_1_gadri);
    reveal(is_gadri_sumti);
}

/// Whether `node` is the node that `GadriSumti` makes of the tokens at `pos`.
#[verifier::opaque]
pub closed spec fn is_gadri_sumti<'arena>(
    node: GadriSumti<'arena>,
    toks: Seq<Token>,
    pos: nat,
) -> bool
    decreases rest(toks, pos), 26nat,
{
    match spec_gadri_with_free(toks, pos) {
        Outcome::Matched(n1) => {
            &&& is_gadri_with_free(node.gadri, toks, pos)
            &&& match spec_gadri_sumti_pre(toks, pos + n1) {
                    Outcome::Matched(n2) => {
                        &&& advanced(toks, pos, n1)
                        &&& is_gadri_sumti_pre(node.pre, toks, pos + n1)
                        &&& match spec_gadri_sumti_contents(toks, pos + n1 + n2) {
                                Outcome::Matched(n3) => {
                                    &&& advanced(toks, pos, n1 + n2)
                                    &&& is_gadri_sumti_contents(
                                        node.contents,
                                        toks,
                                        pos + n1 + n2,
                                    )
                                    &&& match spec_opt(
                                        spec_word(toks, pos + n1 + n2 + n3, Selmaho::Ku),
                                    ) {
                                            Outcome::Matched(_) => {
                                                &&& (match node.ku {
                                                        Some(inner) => {
                                                            &&& spec_word(
                                                                toks,
                                                                pos + n1 + n2 + n3,
                                                                Selmaho::Ku,
                                                            ) is Matched
                                                            &&& is_word(
                                                                inner,
                                                                toks,
                                                                pos + n1 + n2 + n3,
                                                                Selmaho::Ku,
                                                            )
                                                        },
                                                        None => spec_word(
                                                            toks,
                                                            pos + n1 + n2 + n3,
                                                            Selmaho::Ku,
                                                        ) is Error,
                                                    })
                                            },
                                            _ => false,
                                        }
                                },
                                _ => false,
                            }
                    },
                    _ => false,
                }
        },
        _ => false,
    }
}

/// What [`is_gadri_sumti`] says.
pub proof fn lemma_is_gadri_sumti<'arena>(node: GadriSumti<'arena>, toks: Seq<Token>, pos: nat)
    ensures
        is_gadri_sumti(node, toks, pos) == (
            match spec_gadri_with_free(toks, pos) {
                Outcome::Matched(n1) => {
                    &&& is_gadri_with_free(node.gadri, toks, pos)
                    &&& match spec_gadri_sumti_pre(toks, pos + n1) {
                            Outcome::Matched(n2) => {
                                &&& advanced(toks, pos, n1)
                                &&& is_gadri_sumti_pre(node.pre, toks, pos + n1)
                                &&& match spec_gadri_sumti_contents(toks, pos + n1 + n2) {
                                        Outcome::Matched(n3) => {
                                            &&& advanced(toks, pos, n1 + n2)
                                            &&& is_gadri_sumti_contents(
                                                node.contents,
                                                toks,
                                                pos + n1 + n2,
                                            )
                                            &&& match spec_opt(
                                                spec_word(toks, pos + n1 + n2 + n3, Selmaho::Ku),
                                            ) {
                                                    Outcome::Matched(_) => {
                                                        &&& (match node.ku {
                                                                Some(inner) => {
                                                                    &&& spec_word(
                                                                        toks,
                                                                        pos + n1 + n2 + n3,
                                                                        Selmaho::Ku,
                                                                    ) is Matched
                                                                    &&& is_word(
                                                                        inner,
                                                                        toks,
                                                                        pos + n1 + n2 + n3,
                                                                        Selmaho::Ku,
                                                                    )
                                                                },
                                                                None => spec_word(
                                                                    toks,
                                                                    pos + n1 + n2 + n3,
                                                                    Selmaho::Ku,
                                                                ) is Error,
                                                            })
                                                    },
                                                    _ => false,
                                                }
                                        },
                                        _ => false,
                                    }
                            },
                            _ => false,
                        }
                },
                _ => false,
            }
        ),
{
    reveal(is_gadri_sumti);
    reveal(is_gadri_with_free);
    reveal(is_gadri_sumti_pre);
    reveal(is_gadri_sumti_contents);
    reveal(is_word);
}

/// Whether `node` is the node that `GadriWithFree` makes of the tokens at `pos`.
#[verifier::opaque]
pub closed spec fn is_gadri_with_free<'arena>(
    node: WithFree<'arena, Gadri<'arena>>,
    toks: Seq<Token>,
    pos: nat,
) -> bool
    decreases rest(toks, pos), 25nat,
{
    match spec_gadri(toks, pos) {
        Outcome::Matched(n1) => {
            &&& is_gadri(node.inner, toks, pos)
            &&& match spec_frees(toks, pos + n1) {
                    Outcome::Matched(_) => is_frees(node.frees, toks, pos + n1),
                    _ => false,
                }
        },
        _ => false,
    }
}

/// What [`is_gadri_with_free`] says.
pub proof fn lemma_is_gadri_with_free<'arena>(
    node: WithFree<'arena, Gadri<'arena>>,
    toks: Seq<Token>,
    pos: nat,
)
    ensures
        is_gadri_with_free(node, toks, pos) == (
            match spec_gadri(toks, pos) {
                Outcome::Matched(n1) => {
                    &&& is_gadri(node.inner, toks, pos)
                    &&& match spec_frees(toks, pos + n1) {
                            Outcome::Matched(_) => is_frees(node.frees, toks, pos + n1),
                            _ => false,
                        }
                },
                _ => false,
            }
        ),
{
    reveal(is_gadri_with_free);
    reveal(is_gadri);
    reveal(is_frees);
}

/// Whether `node` is the node that `Gadri` makes of the tokens at `pos`: the
/// node of the first alternative that matches.
#[verifier::opaque]
pub closed spec fn is_gadri<'arena>(node: Gadri<'arena>, toks: Seq<Token>, pos: nat) -> bool
    decreases rest(toks, pos), 4nat,
{
    match spec_gadri_le(toks, pos) {
        Outcome::Matched(_) => is_gadri_le(node, toks, pos),
        Outcome::Error(_) => spec_gadri_la(toks, pos) is Matched && is_gadri_la(node, toks, pos),
        Outcome::Failure(_) => false,
    }
}

/// What [`is_gadri`] says.
pub proof fn lemma_is_gadri<'arena>(toks: Seq<Token>, pos: nat)
    ensures
        forall|node: Gadri<'arena>| #[trigger] is_gadri(node, toks, pos) == (
            match spec_gadri_le(toks, pos) {
                Outcome::Matched(_) => is_gadri_le(node, toks, pos),
                Outcome::Error(
                    _,
                ) => spec_gadri_la(toks, pos) is Matched && is_gadri_la(node, toks, pos),
                Outcome::Failure(_) => false,
            }
        ),
{
    reveal(is_gadri);
    reveal(is_gadri_le);
    reveal(is_gadri_la);
}

/// Whether `node` is the node that `GadriLe` makes of the tokens at `pos`.
#[verifier::opaque]
pub closed spec fn is_gadri_le<'arena>(node: Gadri<'arena>, toks: Seq<Token>, pos: nat) -> bool
    decreases rest(toks, pos), 3nat,
{
    match node {
        Gadri::Le(field_0) => match spec_word(toks, pos, Selmaho::Le) {
            Outcome::Matched(_) => is_word(field_0, toks, pos, Selmaho::Le),
            _ => false,
        },
        _ => false,
    }
}

/// What [`is_gadri_le`] says.
pub proof fn lemma_is_gadri_le<'arena>(node: Gadri<'arena>, toks: Seq<Token>, pos: nat)
    ensures
        is_gadri_le(node, toks, pos) == (
            match node {
                Gadri::Le(field_0) => match spec_word(toks, pos, Selmaho::Le) {
                    Outcome::Matched(_) => is_word(field_0, toks, pos, Selmaho::Le),
                    _ => false,
                },
                _ => false,
            }
        ),
{
    reveal(is_gadri_le);
    reveal(is_word);
}

/// Whether `node` is the node that `GadriLa` makes of the tokens at `pos`.
#[verifier::opaque]
pub closed spec fn is_gadri_la<'arena>(node: Gadri<'arena>, toks: Seq<Token>, pos: nat) -> bool
    decreases rest(toks, pos), 3nat,
{
    match node {
        Gadri::La(field_0) => match spec_word(toks, pos, Selmaho::La) {
            Outcome::Matched(_) => is_word(field_0, toks, pos, Selmaho::La),
            _ => false,
        },
        _ => false,
    }
}

/// What [`is_gadri_la`] says.
pub proof fn lemma_is_gadri_la<'arena>(node: Gadri<'arena>, toks: Seq<Token>, pos: nat)
    ensures
        is_gadri_la(node, toks, pos) == (
            match node {
                Gadri::La(field_0) => match spec_word(toks, pos, Selmaho::La) {
                    Outcome::Matched(_) => is_word(field_0, toks, pos, Selmaho::La),
                    _ => false,
                },
                _ => false,
            }
        ),
{
    reveal(is_gadri_la);
    reveal(is_word);
}

/// Whether `node` is the node that `GadriSumtiPre` makes of the tokens at `pos`: the
/// node of the first alternative that matches.
#[verifier::opaque]
pub closed spec fn is_gadri_sumti_pre<'arena>(
    node: GadriSumtiPre<'arena>,
    toks: Seq<Token>,
    pos: nat,
) -> bool
    decreases rest(toks, pos), 46nat,
{
    match spec_gadri_sumti_pre_simple(toks, pos) {
        Outcome::Matched(_) => is_gadri_sumti_pre_simple(node, toks, pos),
        Outcome::Error(_) => match spec_gadri_sumti_pre_relative(toks, pos) {
            Outcome::Matched(_) => is_gadri_sumti_pre_relative(node, toks, pos),
            Outcome::Error(
                _,
            ) => spec_gadri_sumti_pre_full_pre(
                toks,
                pos,
            ) is Matched && is_gadri_sumti_pre_full_pre(node, toks, pos),
            Outcome::Failure(_) => false,
        },
        Outcome::Failure(_) => false,
    }
}

/// What [`is_gadri_sumti_pre`] says.
pub proof fn lemma_is_gadri_sumti_pre<'arena>(toks: Seq<Token>, pos: nat)
    ensures
        forall|node: GadriSumtiPre<'arena>| #[trigger] is_gadri_sumti_pre(node, toks, pos) == (
            match spec_gadri_sumti_pre_simple(toks, pos) {
                Outcome::Matched(_) => is_gadri_sumti_pre_simple(node, toks, pos),
                Outcome::Error(_) => match spec_gadri_sumti_pre_relative(toks, pos) {
                    Outcome::Matched(_) => is_gadri_sumti_pre_relative(node, toks, pos),
                    Outcome::Error(
                        _,
                    ) => spec_gadri_sumti_pre_full_pre(
                        toks,
                        pos,
                    ) is Matched && is_gadri_sumti_pre_full_pre(node, toks, pos),
                    Outcome::Failure(_) => false,
                },
                Outcome::Failure(_) => false,
            }
        ),
{
    reveal(is_gadri_sumti_pre);
    reveal(is_gadri_sumti_pre_simple);
    reveal(is_gadri_sumti_pre_relative);
    reveal(is_gadri_sumti_pre_full_pre);
}

/// Whether `node` is the node that `GadriSumtiPreSimple` makes of the tokens at `pos`.
#[verifier::opaque]
pub closed spec fn is_gadri_sumti_pre_simple<'arena>(
    node: GadriSumtiPre<'arena>,
    toks: Seq<Token>,
    pos: nat,
) -> bool
    decreases rest(toks, pos), 30nat,
{
    match node {
        GadriSumtiPre::Simple { pe_shorthand, relative_clauses } => match spec_opt(
            spec_sumti_component(toks, pos),
        ) {
            Outcome::Matched(n1) => {
                &&& (match pe_shorthand {
                        Some(inner) => {
                            &&& spec_sumti_component(toks, pos) is Matched
                            &&& is_sumti_component(*inner, toks, pos)
                        },
                        None => spec_sumti_component(toks, pos) is Error,
                    })
                &&& match spec_opt(spec_relative_clauses(toks, pos + n1)) {
                        Outcome::Matched(_) => {
                            &&& (match relative_clauses {
                                    Some(inner) => {
                                        &&& spec_relative_clauses(toks, pos + n1) is Matched
                                        &&& is_relative_clauses(inner, toks, pos + n1)
                                    },
                                    None => spec_relative_clauses(toks, pos + n1) is Error,
                                })
                        },
                        _ => false,
                    }
            },
            _ => false,
        },
        _ => false,
    }
}

/// What [`is_gadri_sumti_pre_simple`] says.
pub proof fn lemma_is_gadri_sumti_pre_simple<'arena>(
    node: GadriSumtiPre<'arena>,
    toks: Seq<Token>,
    pos: nat,
)
    ensures
        is_gadri_sumti_pre_simple(node, toks, pos) == (
            match node {
                GadriSumtiPre::Simple { pe_shorthand, relative_clauses } => match spec_opt(
                    spec_sumti_component(toks, pos),
                ) {
                    Outcome::Matched(n1) => {
                        &&& (match pe_shorthand {
                                Some(inner) => {
                                    &&& spec_sumti_component(toks, pos) is Matched
                                    &&& is_sumti_component(*inner, toks, pos)
                                },
                                None => spec_sumti_component(toks, pos) is Error,
                            })
                        &&& match spec_opt(spec_relative_clauses(toks, pos + n1)) {
                                Outcome::Matched(_) => {
                                    &&& (match relative_clauses {
                                            Some(inner) => {
                                                &&& spec_relative_clauses(
                                                    toks,
                                                    pos + n1,
                                                ) is Matched
                                                &&& is_relative_clauses(inner, toks, pos + n1)
                                            },
                                            None => spec_relative_clauses(
                                                toks,
                                                pos + n1,
                                            ) is Error,
                                        })
                                },
                                _ => false,
                            }
                    },
                    _ => false,
                },
                _ => false,
            }
        ),
{
    reveal(is_gadri_sumti_pre_simple);
    reveal(is_sumti_component);
    reveal(is_relative_clauses);
}

/// Whether `node` is the node that `RelativeClauses` makes of the tokens at `pos`.
#[verifier::opaque]
pub closed spec fn is_relative_clauses<'arena>(
    node: RelativeClauses<'arena>,
    toks: Seq<Token>,
    pos: nat,
) -> bool
    decreases rest(toks, pos), 10nat,
{
    match spec_relative_clause_list(toks, pos) {
        Outcome::Matched(_) => is_relative_clause_list(node.0, toks, pos),
        _ => false,
    }
}

/// What [`is_relative_clauses`] says.
pub proof fn lemma_is_relative_clauses<'arena>(
    node: RelativeClauses<'arena>,
    toks: Seq<Token>,
    pos: nat,
)
    ensures
        is_relative_clauses(node, toks, pos) == (
            match spec_relative_clause_list(toks, pos) {
                Outcome::Matched(_) => is_relative_clause_list(node.0, toks, pos),
                _ => false,
            }
        ),
{
    reveal(is_relative_clauses);
    reveal(is_relative_clause_list);
}

/// Whether `node` is the node that `RelativeClauseList` makes of the tokens at `pos`.
#[verifier::opaque]
pub closed spec fn is_relative_clause_list<'arena>(
    node: Separated<'arena, RelativeClause<'arena>, WithFree<'arena, Word<'arena>>>,
    toks: Seq<Token>,
    pos: nat,
) -> bool
    decreases rest(toks, pos), 9nat,
{
    match spec_relative_clause(toks, pos) {
        Outcome::Matched(n1) => {
            &&& is_relative_clause(*node.first, toks, pos)
            &&& match spec_many0_relative_clause_list_next(toks, pos + n1) {
                    Outcome::Matched(_) => is_row_of_relative_clause_list_next(
                        node.rest@,
                        toks,
                        pos + n1,
                    ),
                    _ => false,
                }
        },
        _ => false,
    }
}

/// What [`is_relative_clause_list`] says.
pub proof fn lemma_is_relative_clause_list<'arena>(
    node: Separated<'arena, RelativeClause<'arena>, WithFree<'arena, Word<'arena>>>,
    toks: Seq<Token>,
    pos: nat,
)
    ensures
        is_relative_clause_list(node, toks, pos) == (
            match spec_relative_clause(toks, pos) {
                Outcome::Matched(n1) => {
                    &&& is_relative_clause(*node.first, toks, pos)
                    &&& match spec_many0_relative_clause_list_next(toks, pos + n1) {
                            Outcome::Matched(_) => is_row_of_relative_clause_list_next(
                                node.rest@,
                                toks,
                                pos + n1,
                            ),
                            _ => false,
                        }
                },
                _ => false,
            }
        ),
{
    reveal(is_relative_clause_list);
    reveal(is_relative_clause);
    reveal(is_row_of_relative_clause_list_next);
}

/// Whether `node` is the node that `RelativeClause` makes of the tokens at `pos`: the
/// node of the first alternative that matches.
#[verifier::opaque]
pub closed spec fn is_relative_clause<'arena>(
    node: RelativeClause<'arena>,
    toks: Seq<Token>,
    pos: nat,
) -> bool
    decreases rest(toks, pos), 6nat,
{
    match spec_relative_clause_goi(toks, pos) {
        Outcome::Matched(_) => is_relative_clause_goi(node, toks, pos),
        Outcome::Error(
            _,
        ) => spec_relative_clause_noi(
            toks,
            pos,
        ) is Matched && is_relative_clause_noi(node, toks, pos),
        Outcome::Failure(_) => false,
    }
}

/// What [`is_relative_clause`] says.
pub proof fn lemma_is_relative_clause<'arena>(toks: Seq<Token>, pos: nat)
    ensures
        forall|node: RelativeClause<'arena>| #[trigger] is_relative_clause(node, toks, pos) == (
            match spec_relative_clause_goi(toks, pos) {
                Outcome::Matched(_) => is_relative_clause_goi(node, toks, pos),
                Outcome::Error(
                    _,
                ) => spec_relative_clause_noi(
                    toks,
                    pos,
                ) is Matched && is_relative_clause_noi(node, toks, pos),
                Outcome::Failure(_) => false,
            }
        ),
{
    reveal(is_relative_clause);
    reveal(is_relative_clause_goi);
    reveal(is_relative_clause_noi);
}

/// Whether `node` is the node that `RelativeClauseGoi` makes of the tokens at `pos`.
#[verifier::opaque]
pub closed spec fn is_relative_clause_goi<'arena>(
    node: RelativeClause<'arena>,
    toks: Seq<Token>,
    pos: nat,
) -> bool
    decreases rest(toks, pos), 5nat,
{
    match node {
        RelativeClause::Goi(field_0) => match spec_goi_relative_clause(toks, pos) {
            Outcome::Matched(_) => is_goi_relative_clause(field_0, toks, pos),
            _ => false,
        },
        _ => false,
    }
}

/// What [`is_relative_clause_goi`] says.
pub proof fn lemma_is_relative_clause_goi<'arena>(
    node: RelativeClause<'arena>,
    toks: Seq<Token>,
    pos: nat,
)
    ensures
        is_relative_clause_goi(node, toks, pos) == (
            match node {
                RelativeClause::Goi(field_0) => match spec_goi_relative_clause(toks, pos) {
                    Outcome::Matched(_) => is_goi_relative_clause(field_0, toks, pos),
                    _ => false,
                },
                _ => false,
            }
        ),
{
    reveal(is_relative_clause_goi);
    reveal(is_goi_relative_clause);
}

/// Whether `node` is the node that `GoiRelativeClause` makes of the tokens at `pos`.
#[verifier::opaque]
pub closed spec fn is_goi_relative_clause<'arena>(
    node: GoiRelativeClause<'arena>,
    toks: Seq<Token>,
    pos: nat,
) -> bool
    decreases rest(toks, pos), 4nat,
{
    match spec_word_with_free(toks, pos, Selmaho::Goi) {
        Outcome::Matched(n1) => {
            &&& is_word_with_free(node.goi, toks, pos, Selmaho::Goi)
            &&& match spec_arg(toks, pos + n1) {
                    Outcome::Matched(n2) => {
                        &&& advanced(toks, pos, n1)
                        &&& is_arg(node.inner, toks, pos + n1)
                        &&& match spec_opt(spec_word(toks, pos + n1 + n2, Selmaho::Gehu)) {
                                Outcome::Matched(n3) => {
                                    &&& (match node.gehu {
                                            Some(inner) => {
                                                &&& spec_word(
                                                    toks,
                                                    pos + n1 + n2,
                                                    Selmaho::Gehu,
                                                ) is Matched
                                                &&& is_word(
                                                    inner,
                                                    toks,
                                                    pos + n1 + n2,
                                                    Selmaho::Gehu,
                                                )
                                            },
                                            None => spec_word(
                                                toks,
                                                pos + n1 + n2,
                                                Selmaho::Gehu,
                                            ) is Error,
                                        })
                                    &&& match spec_frees(toks, pos + n1 + n2 + n3) {
                                            Outcome::Matched(_) => {
                                                &&& advanced(toks, pos, n1 + n2 + n3)
                                                &&& is_frees(node.frees, toks, pos + n1 + n2 + n3)
                                            },
                                            _ => false,
                                        }
                                },
                                _ => false,
                            }
                    },
                    _ => false,
                }
        },
        _ => false,
    }
}

/// What [`is_goi_relative_clause`] says.
pub proof fn lemma_is_goi_relative_clause<'arena>(
    node: GoiRelativeClause<'arena>,
    toks: Seq<Token>,
    pos: nat,
)
    ensures
        is_goi_relative_clause(node, toks, pos) == (
            match spec_word_with_free(toks, pos, Selmaho::Goi) {
                Outcome::Matched(n1) => {
                    &&& is_word_with_free(node.goi, toks, pos, Selmaho::Goi)
                    &&& match spec_arg(toks, pos + n1) {
                            Outcome::Matched(n2) => {
                                &&& advanced(toks, pos, n1)
                                &&& is_arg(node.inner, toks, pos + n1)
                                &&& match spec_opt(
                                    spec_word(toks, pos + n1 + n2, Selmaho::Gehu),
                                ) {
                                        Outcome::Matched(n3) => {
                                            &&& (match node.gehu {
                                                    Some(inner) => {
                                                        &&& spec_word(
                                                            toks,
                                                            pos + n1 + n2,
                                                            Selmaho::Gehu,
                                                        ) is Matched
                                                        &&& is_word(
                                                            inner,
                                                            toks,
                                                            pos + n1 + n2,
                                                            Selmaho::Gehu,
                                                        )
                                                    },
                                                    None => spec_word(
                                                        toks,
                                                        pos + n1 + n2,
                                                        Selmaho::Gehu,
                                                    ) is Error,
                                                })
                                            &&& match spec_frees(toks, pos + n1 + n2 + n3) {
                                                    Outcome::Matched(_) => {
                                                        &&& advanced(toks, pos, n1 + n2 + n3)
                                                        &&& is_frees(
                                                            node.frees,
                                                            toks,
                                                            pos + n1 + n2 + n3,
                                                        )
                                                    },
                                                    _ => false,
                                                }
                                        },
                                        _ => false,
                                    }
                            },
                            _ => false,
                        }
                },
                _ => false,
            }
        ),
{
    reveal(is_goi_relative_clause);
    reveal(is_word_with_free);
    reveal(is_arg);
    reveal(is_word);
    reveal(is_frees);
}

/// Whether `node` is the node that `RelativeClauseNoi` makes of the tokens at `pos`.
#[verifier::opaque]
pub closed spec fn is_relative_clause_noi<'arena>(
    node: RelativeClause<'arena>,
    toks: Seq<Token>,
    pos: nat,
) -> bool
    decreases rest(toks, pos), 5nat,
{
    match node {
        RelativeClause::Noi(field_0) => match spec_noi_relative_clause(toks, pos) {
            Outcome::Matched(_) => is_noi_relative_clause(field_0, toks, pos),
            _ => false,
        },
        _ => false,
    }
}

/// What [`is_relative_clause_noi`] says.
pub proof fn lemma_is_relative_clause_noi<'arena>(
    node: RelativeClause<'arena>,
    toks: Seq<Token>,
    pos: nat,
)
    ensures
        is_relative_clause_noi(node, toks, pos) == (
            match node {
                RelativeClause::Noi(field_0) => match spec_noi_relative_clause(toks, pos) {
                    Outcome::Matched(_) => is_noi_relative_clause(field_0, toks, pos),
                    _ => false,
                },
                _ => false,
            }
        ),
{
    reveal(is_relative_clause_noi);
    reveal(is_noi_relative_clause);
}

/// Whether `node` is the node that `NoiRelativeClause` makes of the tokens at `pos`.
#[verifier::opaque]
pub closed spec fn is_noi_relative_clause<'arena>(
    node: NoiRelativeClause<'arena>,
    toks: Seq<Token>,
    pos: nat,
) -> bool
    decreases rest(toks, pos), 4nat,
{
    match spec_word_with_free(toks, pos, Selmaho::Noi) {
        Outcome::Matched(n1) => {
            &&& is_word_with_free(node.noi, toks, pos, Selmaho::Noi)
            &&& match spec_subsentence(toks, pos + n1) {
                    Outcome::Matched(n2) => {
                        &&& advanced(toks, pos, n1)
                        &&& is_subsentence(*node.inner, toks, pos + n1)
                        &&& match spec_opt(spec_word(toks, pos + n1 + n2, Selmaho::Kuho)) {
                                Outcome::Matched(n3) => {
                                    &&& (match node.kuho {
                                            Some(inner) => {
                                                &&& spec_word(
                                                    toks,
                                                    pos + n1 + n2,
                                                    Selmaho::Kuho,
                                                ) is Matched
                                                &&& is_word(
                                                    inner,
                                                    toks,
                                                    pos + n1 + n2,
                                                    Selmaho::Kuho,
                                                )
                                            },
                                            None => spec_word(
                                                toks,
                                                pos + n1 + n2,
                                                Selmaho::Kuho,
                                            ) is Error,
                                        })
                                    &&& match spec_frees(toks, pos + n1 + n2 + n3) {
                                            Outcome::Matched(_) => {
                                                &&& advanced(toks, pos, n1 + n2 + n3)
                                                &&& is_frees(node.frees, toks, pos + n1 + n2 + n3)
                                            },
                                            _ => false,
                                        }
                                },
                                _ => false,
                            }
                    },
                    _ => false,
                }
        },
        _ => false,
    }
}

/// What [`is_noi_relative_clause`] says.
pub proof fn lemma_is_noi_relative_clause<'arena>(
    node: NoiRelativeClause<'arena>,
    toks: Seq<Token>,
    pos: nat,
)
    ensures
        is_noi_relative_clause(node, toks, pos) == (
            match spec_word_with_free(toks, pos, Selmaho::Noi) {
                Outcome::Matched(n1) => {
                    &&& is_word_with_free(node.noi, toks, pos, Selmaho::Noi)
                    &&& match spec_subsentence(toks, pos + n1) {
                            Outcome::Matched(n2) => {
                                &&& advanced(toks, pos, n1)
                                &&& is_subsentence(*node.inner, toks, pos + n1)
                                &&& match spec_opt(
                                    spec_word(toks, pos + n1 + n2, Selmaho::Kuho),
                                ) {
                                        Outcome::Matched(n3) => {
                                            &&& (match node.kuho {
                                                    Some(inner) => {
                                                        &&& spec_word(
                                                            toks,
                                                            pos + n1 + n2,
                                                            Selmaho::Kuho,
                                                        ) is Matched
                                                        &&& is_word(
                                                            inner,
                                                            toks,
                                                            pos + n1 + n2,
                                                            Selmaho::Kuho,
                                                        )
                                                    },
                                                    None => spec_word(
                                                        toks,
                                                        pos + n1 + n2,
                                                        Selmaho::Kuho,
                                                    ) is Error,
                                                })
                                            &&& match spec_frees(toks, pos + n1 + n2 + n3) {
                                                    Outcome::Matched(_) => {
                                                        &&& advanced(toks, pos, n1 + n2 + n3)
                                                        &&& is_frees(
                                                            node.frees,
                                                            toks,
                                                            pos + n1 + n2 + n3,
                                                        )
                                                    },
                                                    _ => false,
                                                }
                                        },
                                        _ => false,
                                    }
                            },
                            _ => false,
                        }
                },
                _ => false,
            }
        ),
{
    reveal(is_noi_relative_clause);
    reveal(is_word_with_free);
    reveal(is_subsentence);
    reveal(is_word);
    reveal(is_frees);
}

/// Whether `node` is the node that `Subsentence` makes of the tokens at `pos`.
#[verifier::opaque]
pub closed spec fn is_subsentence<'arena>(
    node: Subsentence<'arena>,
    toks: Seq<Token>,
    pos: nat,
) -> bool
    decreases rest(toks, pos), 101nat,
{
    match spec_many0_prenex(toks, pos) {
        Outcome::Matched(n1) => {
            &&& is_row_of_prenex(node.0@, toks, pos)
            &&& match spec_args(toks, pos + n1) {
                    Outcome::Matched(n2) => {
                        &&& is_args(node.1, toks, pos + n1)
                        &&& match spec_sentence_tail(toks, pos + n1 + n2) {
                                Outcome::Matched(_) => is_sentence_tail(
                                    node.2,
                                    toks,
                                    pos + n1 + n2,
                                ),
                                _ => false,
                            }
                    },
                    _ => false,
                }
        },
        _ => false,
    }
}

/// What [`is_subsentence`] says.
pub proof fn lemma_is_subsentence<'arena>(node: Subsentence<'arena>, toks: Seq<Token>, pos: nat)
    ensures
        is_subsentence(node, toks, pos) == (
            match spec_many0_prenex(toks, pos) {
                Outcome::Matched(n1) => {
                    &&& is_row_of_prenex(node.0@, toks, pos)
                    &&& match spec_args(toks, pos + n1) {
                            Outcome::Matched(n2) => {
                                &&& is_args(node.1, toks, pos + n1)
                                &&& match spec_sentence_tail(toks, pos + n1 + n2) {
                                        Outcome::Matched(_) => is_sentence_tail(
                                            node.2,
                                            toks,
                                            pos + n1 + n2,
                                        ),
                                        _ => false,
                                    }
                            },
                            _ => false,
                        }
                },
                _ => false,
            }
        ),
{
    reveal(is_subsentence);
    reveal(is_row_of_prenex);
    reveal(is_args);
    reveal(is_sentence_tail);
}

/// Whether `node` is the node that `Prenex` makes of the tokens at `pos`.
#[verifier::opaque]
pub closed spec fn is_prenex<'arena>(node: Prenex<'arena>, toks: Seq<Token>, pos: nat) -> bool
    decreases rest(toks, pos), 62nat,
{
    match spec_args(toks, pos) {
        Outcome::Matched(n1) => {
            &&& is_args(node.terms, toks, pos)
            &&& match spec_word(toks, pos + n1, Selmaho::Zohu) {
                    Outcome::Matched(n2) => {
                        &&& is_word(node.zohu, toks, pos + n1, Selmaho::Zohu)
                        &&& match spec_frees(toks, pos + n1 + n2) {
                                Outcome::Matched(_) => is_frees(node.frees, toks, pos + n1 + n2),
                                _ => false,
                            }
                    },
                    _ => false,
                }
        },
        _ => false,
    }
}

/// What [`is_prenex`] says.
pub proof fn lemma_is_prenex<'arena>(node: Prenex<'arena>, toks: Seq<Token>, pos: nat)
    ensures
        is_prenex(node, toks, pos) == (
            match spec_args(toks, pos) {
                Outcome::Matched(n1) => {
                    &&& is_args(node.terms, toks, pos)
                    &&& match spec_word(toks, pos + n1, Selmaho::Zohu) {
                            Outcome::Matched(n2) => {
                                &&& is_word(node.zohu, toks, pos + n1, Selmaho::Zohu)
                                &&& match spec_frees(toks, pos + n1 + n2) {
                                        Outcome::Matched(_) => is_frees(
                                            node.frees,
                                            toks,
                                            pos + n1 + n2,
                                        ),
                                        _ => false,
                                    }
                            },
                            _ => false,
                        }
                },
                _ => false,
            }
        ),
{
    reveal(is_prenex);
    reveal(is_args);
    reveal(is_word);
    reveal(is_frees);
}

/// How many tokens the first `count` of a row of `Prenex` take at `pos`.
pub open spec fn run_of_prenex(toks: Seq<Token>, pos: nat, count: nat) -> nat
    decreases count,
{
    if count == 0 {
        0
    } else {
        let before = run_of_prenex(toks, pos, (count - 1) as nat);
        before + (match spec_prenex(toks, pos + before) {
            Outcome::Matched(len) => len,
            _ => 0,
        })
    }
}

/// Whether `items` are the nodes of a row of `Prenex` at `pos`: each is the
/// node of the `Prenex` at its place, and no further one follows them.
#[verifier::opaque]
pub closed spec fn is_row_of_prenex<'arena>(
    items: Seq<Prenex<'arena>>,
    toks: Seq<Token>,
    pos: nat,
) -> bool
    decreases rest(toks, pos), 63nat,
{
    &&& forall|i: int|
        #![trigger items[i]]
        #![trigger run_of_prenex(toks, pos, i as nat)]
        0 <= i < items.len() ==> spec_prenex(
            toks,
            pos + run_of_prenex(toks, pos, i as nat),
        ) is Matched && is_prenex(items[i], toks, pos + run_of_prenex(toks, pos, i as nat))
    &&& !(spec_prenex(toks, pos + run_of_prenex(toks, pos, items.len())) is Matched)
}

/// What [`is_row_of_prenex`] says.
pub proof fn lemma_is_row_of_prenex<'arena>(
    items: Seq<Prenex<'arena>>,
    toks: Seq<Token>,
    pos: nat,
)
    ensures
        is_row_of_prenex(items, toks, pos) == ({
            &&& forall|i: int|
                #![trigger items[i]]
                #![trigger run_of_prenex(toks, pos, i as nat)]
                0 <= i < items.len() ==> spec_prenex(
                    toks,
                    pos + run_of_prenex(toks, pos, i as nat),
                ) is Matched && is_prenex(
                    items[i],
                    toks,
                    pos + run_of_prenex(toks, pos, i as nat),
                )
            &&& !(spec_prenex(toks, pos + run_of_prenex(toks, pos, items.len())) is Matched)
        }),
{
    reveal(is_row_of_prenex);
    reveal(is_prenex);
}

/// Whether `node` is the node that `SentenceTail` makes of the tokens at `pos`.
#[verifier::opaque]
pub closed spec fn is_sentence_tail<'arena>(
    node: SentenceTail<'arena>,
    toks: Seq<Token>,
    pos: nat,
) -> bool
    decreases rest(toks, pos), 100nat,
{
    match spec_opt(spec_word(toks, pos, Selmaho::Cu)) {
        Outcome::Matched(n1) => {
            &&& (match node.0 {
                    Some(inner) => {
                        &&& spec_word(toks, pos, Selmaho::Cu) is Matched
                        &&& is_word(inner, toks, pos, Selmaho::Cu)
                    },
                    None => spec_word(toks, pos, Selmaho::Cu) is Error,
                })
            &&& match spec_frees(toks, pos + n1) {
                    Outcome::Matched(n2) => {
                        &&& is_frees(node.1, toks, pos + n1)
                        &&& match spec_sentence_tail_1(toks, pos + n1 + n2) {
                                Outcome::Matched(_) => is_sentence_tail_1(
                                    node.2,
                                    toks,
                                    pos + n1 + n2,
                                ),
                                _ => false,
                            }
                    },
                    _ => false,
                }
        },
        _ => false,
    }
}

/// What [`is_sentence_tail`] says.
pub proof fn lemma_is_sentence_tail<'arena>(
    node: SentenceTail<'arena>,
    toks: Seq<Token>,
    pos: nat,
)
    ensures
        is_sentence_tail(node, toks, pos) == (
            match spec_opt(spec_word(toks, pos, Selmaho::Cu)) {
                Outcome::Matched(n1) => {
                    &&& (match node.0 {
                            Some(inner) => {
                                &&& spec_word(toks, pos, Selmaho::Cu) is Matched
                                &&& is_word(inner, toks, pos, Selmaho::Cu)
                            },
                            None => spec_word(toks, pos, Selmaho::Cu) is Error,
                        })
                    &&& match spec_frees(toks, pos + n1) {
                            Outcome::Matched(n2) => {
                                &&& is_frees(node.1, toks, pos + n1)
                                &&& match spec_sentence_tail_1(toks, pos + n1 + n2) {
                                        Outcome::Matched(_) => is_sentence_tail_1(
                                            node.2,
                                            toks,
                                            pos + n1 + n2,
                                        ),
                                        _ => false,
                                    }
                            },
                            _ => false,
                        }
                },
                _ => false,
            }
        ),
{
    reveal(is_sentence_tail);
    reveal(is_word);
    reveal(is_frees);
    reveal(is_sentence_tail_1);
}

/// Whether `node` is the node that `SentenceTail1` makes of the tokens at `pos`.
#[verifier::opaque]
pub closed spec fn is_sentence_tail_1<'arena>(
    node: SentenceTail1<'arena>,
    toks: Seq<Token>,
    pos: nat,
) -> bool
    decreases rest(toks, pos), 99nat,
{
    match spec_sentence_tail_2(toks, pos) {
        Outcome::Matched(n1) => {
            &&& is_sentence_tail_2(node.0, toks, pos)
            &&& match spec_opt(spec_sentence_tail_1_after(toks, pos + n1)) {
                    Outcome::Matched(_) => {
                        &&& (match node.1 {
                                Some(inner) => {
                                    &&& spec_sentence_tail_1_after(toks, pos + n1) is Matched
                                    &&& is_sentence_tail_1_after(inner, toks, pos + n1)
                                },
                                None => spec_sentence_tail_1_after(toks, pos + n1) is Error,
                            })
                    },
                    _ => false,
                }
        },
        _ => false,
    }
}

/// What [`is_sentence_tail_1`] says.
pub proof fn lemma_is_sentence_tail_1<'arena>(
    node: SentenceTail1<'arena>,
    toks: Seq<Token>,
    pos: nat,
)
    ensures
        is_sentence_tail_1(node, toks, pos) == (
            match spec_sentence_tail_2(toks, pos) {
                Outcome::Matched(n1) => {
                    &&& is_sentence_tail_2(node.0, toks, pos)
                    &&& match spec_opt(spec_sentence_tail_1_after(toks, pos + n1)) {
                            Outcome::Matched(_) => {
                                &&& (match node.1 {
                                        Some(inner) => {
                                            &&& spec_sentence_tail_1_after(
                                                toks,
                                                pos + n1,
                                            ) is Matched
                                            &&& is_sentence_tail_1_after(inner, toks, pos + n1)
                                        },
                                        None => spec_sentence_tail_1_after(
                                            toks,
                                            pos + n1,
                                        ) is Error,
                                    })
                            },
                            _ => false,
                        }
                },
                _ => false,
            }
        ),
{
    reveal(is_sentence_tail_1);
    reveal(is_sentence_tail_2);
    reveal(is_sentence_tail_1_after);
}

/// Whether `node` is the node that `SentenceTail2` makes of the tokens at `pos`.
#[verifier::opaque]
pub closed spec fn is_sentence_tail_2<'arena>(
    node: SentenceTail2<'arena>,
    toks: Seq<Token>,
    pos: nat,
) -> bool
    decreases rest(toks, pos), 98nat,
{
    match spec_sentence_tail_3(toks, pos) {
        Outcome::Matched(n1) => {
            &&& is_sentence_tail_3(*node.0, toks, pos)
            &&& match spec_opt(spec_sentence_tail_2_after(toks, pos + n1)) {
                    Outcome::Matched(_) => {
                        &&& (match node.1 {
                                Some(inner) => {
                                    &&& spec_sentence_tail_2_after(toks, pos + n1) is Matched
                                    &&& is_sentence_tail_2_after(inner, toks, pos + n1)
                                },
                                None => spec_sentence_tail_2_after(toks, pos + n1) is Error,
                            })
                    },
                    _ => false,
                }
        },
        _ => false,
    }
}

/// What [`is_sentence_tail_2`] says.
pub proof fn lemma_is_sentence_tail_2<'arena>(
    node: SentenceTail2<'arena>,
    toks: Seq<Token>,
    pos: nat,
)
    ensures
        is_sentence_tail_2(node, toks, pos) == (
            match spec_sentence_tail_3(toks, pos) {
                Outcome::Matched(n1) => {
                    &&& is_sentence_tail_3(*node.0, toks, pos)
                    &&& match spec_opt(spec_sentence_tail_2_after(toks, pos + n1)) {
                            Outcome::Matched(_) => {
                                &&& (match node.1 {
                                        Some(inner) => {
                                            &&& spec_sentence_tail_2_after(
                                                toks,
                                                pos + n1,
                                            ) is Matched
                                            &&& is_sentence_tail_2_after(inner, toks, pos + n1)
                                        },
                                        None => spec_sentence_tail_2_after(
                                            toks,
                                            pos + n1,
                                        ) is Error,
                                    })
                            },
                            _ => false,
                        }
                },
                _ => false,
            }
        ),
{
    reveal(is_sentence_tail_2);
    reveal(is_sentence_tail_3);
    reveal(is_sentence_tail_2_after);
}

/// Whether `node` is the node that `SentenceTail3` makes of the tokens at `pos`.
#[verifier::opaque]
pub closed spec fn is_sentence_tail_3<'arena>(
    node: SentenceTail3<'arena>,
    toks: Seq<Token>,
    pos: nat,
) -> bool
    decreases rest(toks, pos), 94nat,
{
    match spec_sentence_tail_4(toks, pos) {
        Outcome::Matched(n1) => {
            &&& is_sentence_tail_4(*node.0, toks, pos)
            &&& match spec_opt(spec_sentence_tail_3_after(toks, pos + n1)) {
                    Outcome::Matched(_) => {
                        &&& (match node.1 {
                                Some(inner) => {
                                    &&& spec_sentence_tail_3_after(toks, pos + n1) is Matched
                                    &&& is_sentence_tail_3_after(inner, toks, pos + n1)
                                },
                                None => spec_sentence_tail_3_after(toks, pos + n1) is Error,
                            })
                    },
                    _ => false,
                }
        },
        _ => false,
    }
}

/// What [`is_sentence_tail_3`] says.
pub proof fn lemma_is_sentence_tail_3<'arena>(
    node: SentenceTail3<'arena>,
    toks: Seq<Token>,
    pos: nat,
)
    ensures
        is_sentence_tail_3(node, toks, pos) == (
            match spec_sentence_tail_4(toks, pos) {
                Outcome::Matched(n1) => {
                    &&& is_sentence_tail_4(*node.0, toks, pos)
                    &&& match spec_opt(spec_sentence_tail_3_after(toks, pos + n1)) {
                            Outcome::Matched(_) => {
                                &&& (match node.1 {
                                        Some(inner) => {
                                            &&& spec_sentence_tail_3_after(
                                                toks,
                                                pos + n1,
                                            ) is Matched
                                            &&& is_sentence_tail_3_after(inner, toks, pos + n1)
                                        },
                                        None => spec_sentence_tail_3_after(
                                            toks,
                                            pos + n1,
                                        ) is Error,
                                    })
                            },
                            _ => false,
                        }
                },
                _ => false,
            }
        ),
{
    reveal(is_sentence_tail_3);
    reveal(is_sentence_tail_4);
    reveal(is_sentence_tail_3_after);
}

/// Whether `node` is the node that `SentenceTail4` makes of the tokens at `pos`: the
/// node of the first alternative that matches.
#[verifier::opaque]
pub closed spec fn is_sentence_tail_4<'arena>(
    node: SentenceTail4<'arena>,
    toks: Seq<Token>,
    pos: nat,
) -> bool
    decreases rest(toks, pos), 90nat,
{
    match spec_sentence_tail_4_single(toks, pos) {
        Outcome::Matched(_) => is_sentence_tail_4_single(node, toks, pos),
        Outcome::Error(_) => match spec_sentence_tail_4_parenthesized(toks, pos) {
            Outcome::Matched(_) => is_sentence_tail_4_parenthesized(node, toks, pos),
            Outcome::Error(
                _,
            ) => spec_sentence_tail_4_connected(
                toks,
                pos,
            ) is Matched && is_sentence_tail_4_connected(node, toks, pos),
            Outcome::Failure(_) => false,
        },
        Outcome::Failure(_) => false,
    }
}

/// What [`is_sentence_tail_4`] says.
pub proof fn lemma_is_sentence_tail_4<'arena>(toks: Seq<Token>, pos: nat)
    ensures
        forall|node: SentenceTail4<'arena>| #[trigger] is_sentence_tail_4(node, toks, pos) == (
            match spec_sentence_tail_4_single(toks, pos) {
                Outcome::Matched(_) => is_sentence_tail_4_single(node, toks, pos),
                Outcome::Error(_) => match spec_sentence_tail_4_parenthesized(toks, pos) {
                    Outcome::Matched(_) => is_sentence_tail_4_parenthesized(node, toks, pos),
                    Outcome::Error(
                        _,
                    ) => spec_sentence_tail_4_connected(
                        toks,
                        pos,
                    ) is Matched && is_sentence_tail_4_connected(node, toks, pos),
                    Outcome::Failure(_) => false,
                },
                Outcome::Failure(_) => false,
            }
        ),
{
    reveal(is_sentence_tail_4);
    reveal(is_sentence_tail_4_single);
    reveal(is_sentence_tail_4_parenthesized);
    reveal(is_sentence_tail_4_connected);
}

/// Whether `node` is the node that `SentenceTail4Single` makes of the tokens at `pos`.
#[verifier::opaque]
pub closed spec fn is_sentence_tail_4_single<'arena>(
    node: SentenceTail4<'arena>,
    toks: Seq<Token>,
    pos: nat,
) -> bool
    decreases rest(toks, pos), 89nat,
{
    match node {
        SentenceTail4::Single(field_0, field_1) => match spec_selbri(toks, pos) {
            Outcome::Matched(n1) => {
                &&& is_selbri(field_0, toks, pos)
                &&& match spec_tail_args(toks, pos + n1) {
                        Outcome::Matched(_) => is_tail_args(field_1, toks, pos + n1),
                        _ => false,
                    }
            },
            _ => false,
        },
        _ => false,
    }
}

/// What [`is_sentence_tail_4_single`] says.
pub proof fn lemma_is_sentence_tail_4_single<'arena>(
    node: SentenceTail4<'arena>,
    toks: Seq<Token>,
    pos: nat,
)
    ensures
        is_sentence_tail_4_single(node, toks, pos) == (
            match node {
                SentenceTail4::Single(field_0, field_1) => match spec_selbri(toks, pos) {
                    Outcome::Matched(n1) => {
                        &&& is_selbri(field_0, toks, pos)
                        &&& match spec_tail_args(toks, pos + n1) {
                                Outcome::Matched(_) => is_tail_args(field_1, toks, pos + n1),
                                _ => false,
                            }
                    },
                    _ => false,
                },
                _ => false,
            }
        ),
{
    reveal(is_sentence_tail_4_single);
    reveal(is_selbri);
    reveal(is_tail_args);
}

/// Whether `node` is the node that `TailArgs` makes of the tokens at `pos`.
#[verifier::opaque]
pub closed spec fn is_tail_args<'arena>(
    node: TailArgs<'arena>,
    toks: Seq<Token>,
    pos: nat,
) -> bool
    decreases rest(toks, pos), 62nat,
{
    match spec_args(toks, pos) {
        Outcome::Matched(n1) => {
            &&& is_args(node.0, toks, pos)
            &&& match spec_opt(spec_word(toks, pos + n1, Selmaho::Vau)) {
                    Outcome::Matched(n2) => {
                        &&& (match node.1 {
                                Some(inner) => {
                                    &&& spec_word(toks, pos + n1, Selmaho::Vau) is Matched
                                    &&& is_word(inner, toks, pos + n1, Selmaho::Vau)
                                },
                                None => spec_word(toks, pos + n1, Selmaho::Vau) is Error,
                            })
                        &&& match spec_frees(toks, pos + n1 + n2) {
                                Outcome::Matched(_) => is_frees(node.2, toks, pos + n1 + n2),
                                _ => false,
                            }
                    },
                    _ => false,
                }
        },
        _ => false,
    }
}

/// What [`is_tail_args`] says.
pub proof fn lemma_is_tail_args<'arena>(node: TailArgs<'arena>, toks: Seq<Token>, pos: nat)
    ensures
        is_tail_args(node, toks, pos) == (
            match spec_args(toks, pos) {
                Outcome::Matched(n1) => {
                    &&& is_args(node.0, toks, pos)
                    &&& match spec_opt(spec_word(toks, pos + n1, Selmaho::Vau)) {
                            Outcome::Matched(n2) => {
                                &&& (match node.1 {
                                        Some(inner) => {
                                            &&& spec_word(toks, pos + n1, Selmaho::Vau) is Matched
                                            &&& is_word(inner, toks, pos + n1, Selmaho::Vau)
                                        },
                                        None => spec_word(toks, pos + n1, Selmaho::Vau) is Error,
                                    })
                                &&& match spec_frees(toks, pos + n1 + n2) {
                                        Outcome::Matched(_) => is_frees(
                                            node.2,
                                            toks,
                                            pos + n1 + n2,
                                        ),
                                        _ => false,
                                    }
                            },
                            _ => false,
                        }
                },
                _ => false,
            }
        ),
{
    reveal(is_tail_args);
    reveal(is_args);
    reveal(is_word);
    reveal(is_frees);
}

/// Whether `node` is the node that `SentenceTail4Parenthesized` makes of the tokens at `pos`.
#[verifier::opaque]
pub closed spec fn is_sentence_tail_4_parenthesized<'arena>(
    node: SentenceTail4<'arena>,
    toks: Seq<Token>,
    pos: nat,
) -> bool
    decreases rest(toks, pos), 64nat,
{
    match node {
        SentenceTail4::Parenthesized(
            field_0,
            field_1,
            field_2,
            field_3,
            field_4,
            field_5,
        ) => match spec_many0_word_with_free(toks, pos, Selmaho::Na) {
            Outcome::Matched(n1) => {
                &&& is_row_of_word_with_free(field_0@, toks, pos, Selmaho::Na)
                &&& match spec_opt(spec_tag_words(toks, pos + n1)) {
                        Outcome::Matched(n2) => {
                            &&& (match field_1 {
                                    Some(inner) => {
                                        &&& spec_tag_words(toks, pos + n1) is Matched
                                        &&& is_tag_words(inner, toks, pos + n1)
                                    },
                                    None => spec_tag_words(toks, pos + n1) is Error,
                                })
                            &&& match spec_word_with_free(toks, pos + n1 + n2, Selmaho::Ke) {
                                    Outcome::Matched(n3) => {
                                        &&& is_word_with_free(
                                            field_2,
                                            toks,
                                            pos + n1 + n2,
                                            Selmaho::Ke,
                                        )
                                        &&& match spec_gek_sentence(toks, pos + n1 + n2 + n3) {
                                                Outcome::Matched(n4) => {
                                                    &&& is_gek_sentence(
                                                        *field_3,
                                                        toks,
                                                        pos + n1 + n2 + n3,
                                                    )
                                                    &&& match spec_opt(
                                                        spec_word(
                                                            toks,
                                                            pos + n1 + n2 + n3 + n4,
                                                            Selmaho::Kehe,
                                                        ),
                                                    ) {
                                                            Outcome::Matched(n5) => {
                                                                &&& (match field_4 {
                                                                        Some(inner) => {
                                                                            &&& spec_word(
                                                                                toks,
                                                                                pos + n1 + n2 + n3 + n4,
                                                                                Selmaho::Kehe,
                                                                            ) is Matched
                                                                            &&& is_word(
                                                                                inner,
                                                                                toks,
                                                                                pos + n1 + n2 + n3 + n4,
                                                                                Selmaho::Kehe,
                                                                            )
                                                                        },
                                                                        None => spec_word(
                                                                            toks,
                                                                            pos + n1 + n2 + n3 + n4,
                                                                            Selmaho::Kehe,
                                                                        ) is Error,
                                                                    })
                                                                &&& match spec_frees(
                                                                    toks,
                                                                    pos + n1 + n2 + n3 + n4 + n5,
                                                                ) {
                                                                        Outcome::Matched(_) => is_frees(
                                                                            field_5,
                                                                            toks,
                                                                            pos + n1 + n2 + n3 + n4 + n5,
                                                                        ),
                                                                        _ => false,
                                                                    }
                                                            },
                                                            _ => false,
                                                        }
                                                },
                                                _ => false,
                                            }
                                    },
                                    _ => false,
                                }
                        },
                        _ => false,
                    }
            },
            _ => false,
        },
        _ => false,
    }
}

/// What [`is_sentence_tail_4_parenthesized`] says.
pub proof fn lemma_is_sentence_tail_4_parenthesized<'arena>(
    node: SentenceTail4<'arena>,
    toks: Seq<Token>,
    pos: nat,
)
    ensures
        is_sentence_tail_4_parenthesized(node, toks, pos) == (
            match node {
                SentenceTail4::Parenthesized(
                    field_0,
                    field_1,
                    field_2,
                    field_3,
                    field_4,
                    field_5,
                ) => match spec_many0_word_with_free(toks, pos, Selmaho::Na) {
                    Outcome::Matched(n1) => {
                        &&& is_row_of_word_with_free(field_0@, toks, pos, Selmaho::Na)
                        &&& match spec_opt(spec_tag_words(toks, pos + n1)) {
                                Outcome::Matched(n2) => {
                                    &&& (match field_1 {
                                            Some(inner) => {
                                                &&& spec_tag_words(toks, pos + n1) is Matched
                                                &&& is_tag_words(inner, toks, pos + n1)
                                            },
                                            None => spec_tag_words(toks, pos + n1) is Error,
                                        })
                                    &&& match spec_word_with_free(
                                        toks,
                                        pos + n1 + n2,
                                        Selmaho::Ke,
                                    ) {
                                            Outcome::Matched(n3) => {
                                                &&& is_word_with_free(
                                                    field_2,
                                                    toks,
                                                    pos + n1 + n2,
                                                    Selmaho::Ke,
                                                )
                                                &&& match spec_gek_sentence(
                                                    toks,
                                                    pos + n1 + n2 + n3,
                                                ) {
                                                        Outcome::Matched(n4) => {
                                                            &&& is_gek_sentence(
                                                                *field_3,
                                                                toks,
                                                                pos + n1 + n2 + n3,
                                                            )
                                                            &&& match spec_opt(
                                                                spec_word(
                                                                    toks,
                                                                    pos + n1 + n2 + n3 + n4,
                                                                    Selmaho::Kehe,
                                                                ),
                                                            ) {
                                                                    Outcome::Matched(n5) => {
                                                                        &&& (match field_4 {
                                                                                Some(inner) => {
                                                                                    &&& spec_word(
                                                                                        toks,
                                                                                        pos + n1 + n2 + n3 + n4,
                                                                                        Selmaho::Kehe,
                                                                                    ) is Matched
                                                                                    &&& is_word(
                                                                                        inner,
                                                                                        toks,
                                                                                        pos + n1 + n2 + n3 + n4,
                                                                                        Selmaho::Kehe,
                                                                                    )
                                                                                },
                                                                                None => spec_word(
                                                                                    toks,
                                                                                    pos + n1 + n2 + n3 + n4,
                                                                                    Selmaho::Kehe,
                                                                                ) is Error,
                                                                            })
                                                                        &&& match spec_frees(
                                                                            toks,
                                                                            pos + n1 + n2 + n3 + n4 + n5,
                                                                        ) {
                                                                                Outcome::Matched(_) => is_frees(
                                                                                    field_5,
                                                                                    toks,
                                                                                    pos + n1 + n2 + n3 + n4 + n5,
                                                                                ),
                                                                                _ => false,
                                                                            }
                                                                    },
                                                                    _ => false,
                                                                }
                                                        },
                                                        _ => false,
                                                    }
                                            },
                                            _ => false,
                                        }
                                },
                                _ => false,
                            }
                    },
                    _ => false,
                },
                _ => false,
            }
        ),
{
    reveal(is_sentence_tail_4_parenthesized);
    reveal(is_row_of_word_with_free);
    reveal(is_tag_words);
    reveal(is_word_with_free);
    reveal(is_gek_sentence);
    reveal(is_word);
    reveal(is_frees);
}

/// Whether `node` is the node that `GekSentence` makes of the tokens at `pos`.
#[verifier::opaque]
pub closed spec fn is_gek_sentence<'arena>(
    node: GekSentence<'arena>,
    toks: Seq<Token>,
    pos: nat,
) -> bool
    decreases rest(toks, pos), 63nat,
{
    match spec_many0_word_with_free(toks, pos, Selmaho::Na) {
        Outcome::Matched(n1) => {
            &&& is_row_of_word_with_free(node.0@, toks, pos, Selmaho::Na)
            &&& match spec_gek(toks, pos + n1) {
                    Outcome::Matched(n2) => {
                        &&& is_gek(node.1, toks, pos + n1)
                        &&& match spec_subsentence(toks, pos + n1 + n2) {
                                Outcome::Matched(n3) => {
                                    &&& advanced(toks, pos, n1 + n2)
                                    &&& is_subsentence(node.2, toks, pos + n1 + n2)
                                    &&& match spec_gik(toks, pos + n1 + n2 + n3) {
                                            Outcome::Matched(n4) => {
                                                &&& is_gik(node.3, toks, pos + n1 + n2 + n3)
                                                &&& match spec_subsentence(
                                                    toks,
                                                    pos + n1 + n2 + n3 + n4,
                                                ) {
                                                        Outcome::Matched(n5) => {
                                                            &&& advanced(
                                                                toks,
                                                                pos,
                                                                n1 + n2 + n3 + n4,
                                                            )
                                                            &&& is_subsentence(
                                                                node.4,
                                                                toks,
                                                                pos + n1 + n2 + n3 + n4,
                                                            )
                                                            &&& match spec_tail_args(
                                                                toks,
                                                                pos + n1 + n2 + n3 + n4 + n5,
                                                            ) {
                                                                    Outcome::Matched(_) => is_tail_args(
                                                                        node.5,
                                                                        toks,
                                                                        pos + n1 + n2 + n3 + n4 + n5,
                                                                    ),
                                                                    _ => false,
                                                                }
                                                        },
                                                        _ => false,
                                                    }
                                            },
                                            _ => false,
                                        }
                                },
                                _ => false,
                            }
                    },
                    _ => false,
                }
        },
        _ => false,
    }
}

/// What [`is_gek_sentence`] says.
pub proof fn lemma_is_gek_sentence<'arena>(node: GekSentence<'arena>, toks: Seq<Token>, pos: nat)
    ensures
        is_gek_sentence(node, toks, pos) == (
            match spec_many0_word_with_free(toks, pos, Selmaho::Na) {
                Outcome::Matched(n1) => {
                    &&& is_row_of_word_with_free(node.0@, toks, pos, Selmaho::Na)
                    &&& match spec_gek(toks, pos + n1) {
                            Outcome::Matched(n2) => {
                                &&& is_gek(node.1, toks, pos + n1)
                                &&& match spec_subsentence(toks, pos + n1 + n2) {
                                        Outcome::Matched(n3) => {
                                            &&& advanced(toks, pos, n1 + n2)
                                            &&& is_subsentence(node.2, toks, pos + n1 + n2)
                                            &&& match spec_gik(toks, pos + n1 + n2 + n3) {
                                                    Outcome::Matched(n4) => {
                                                        &&& is_gik(
                                                            node.3,
                                                            toks,
                                                            pos + n1 + n2 + n3,
                                                        )
                                                        &&& match spec_subsentence(
                                                            toks,
                                                            pos + n1 + n2 + n3 + n4,
                                                        ) {
                                                                Outcome::Matched(n5) => {
                                                                    &&& advanced(
                                                                        toks,
                                                                        pos,
                                                                        n1 + n2 + n3 + n4,
                                                                    )
                                                                    &&& is_subsentence(
                                                                        node.4,
                                                                        toks,
                                                                        pos + n1 + n2 + n3 + n4,
                                                                    )
                                                                    &&& match spec_tail_args(
                                                                        toks,
                                                                        pos + n1 + n2 + n3 + n4 + n5,
                                                                    ) {
                                                                            Outcome::Matched(_) => is_tail_args(
                                                                                node.5,
                                                                                toks,
                                                                                pos + n1 + n2 + n3 + n4 + n5,
                                                                            ),
                                                                            _ => false,
                                                                        }
                                                                },
                                                                _ => false,
                                                            }
                                                    },
                                                    _ => false,
                                                }
                                        },
                                        _ => false,
                                    }
                            },
                            _ => false,
                        }
                },
                _ => false,
            }
        ),
{
    reveal(is_gek_sentence);
    reveal(is_row_of_word_with_free);
    reveal(is_gek);
    reveal(is_subsentence);
    reveal(is_gik);
    reveal(is_tail_args);
}

/// Whether `node` is the node that `SentenceTail4Connected` makes of the tokens at `pos`.
#[verifier::opaque]
pub closed spec fn is_sentence_tail_4_connected<'arena>(
    node: SentenceTail4<'arena>,
    toks: Seq<Token>,
    pos: nat,
) -> bool
    decreases rest(toks, pos), 64nat,
{
    match node {
        SentenceTail4::Connected(field_0) => match spec_gek_sentence(toks, pos) {
            Outcome::Matched(_) => is_gek_sentence(*field_0, toks, pos),
            _ => false,
        },
        _ => false,
    }
}

/// What [`is_sentence_tail_4_connected`] says.
pub proof fn lemma_is_sentence_tail_4_connected<'arena>(
    node: SentenceTail4<'arena>,
    toks: Seq<Token>,
    pos: nat,
)
    ensures
        is_sentence_tail_4_connected(node, toks, pos) == (
            match node {
                SentenceTail4::Connected(field_0) => match spec_gek_sentence(toks, pos) {
                    Outcome::Matched(_) => is_gek_sentence(*field_0, toks, pos),
                    _ => false,
                },
                _ => false,
            }
        ),
{
    reveal(is_sentence_tail_4_connected);
    reveal(is_gek_sentence);
}

/// Whether `node` is the node that `SentenceTail3After` makes of the tokens at `pos`.
#[verifier::opaque]
pub closed spec fn is_sentence_tail_3_after<'arena>(
    node: SentenceTail3After<'arena>,
    toks: Seq<Token>,
    pos: nat,
) -> bool
    decreases rest(toks, pos), 93nat,
{
    match spec_many1_sentence_tail_3_next(toks, pos) {
        Outcome::Matched(n1) => {
            &&& is_row_of_sentence_tail_3_next(node.0@, toks, pos)
            &&& match spec_tail_args(toks, pos + n1) {
                    Outcome::Matched(_) => is_tail_args(node.1, toks, pos + n1),
                    _ => false,
                }
        },
        _ => false,
    }
}

/// What [`is_sentence_tail_3_after`] says.
pub proof fn lemma_is_sentence_tail_3_after<'arena>(
    node: SentenceTail3After<'arena>,
    toks: Seq<Token>,
    pos: nat,
)
    ensures
        is_sentence_tail_3_after(node, toks, pos) == (
            match spec_many1_sentence_tail_3_next(toks, pos) {
                Outcome::Matched(n1) => {
                    &&& is_row_of_sentence_tail_3_next(node.0@, toks, pos)
                    &&& match spec_tail_args(toks, pos + n1) {
                            Outcome::Matched(_) => is_tail_args(node.1, toks, pos + n1),
                            _ => false,
                        }
                },
                _ => false,
            }
        ),
{
    reveal(is_sentence_tail_3_after);
    reveal(is_row_of_sentence_tail_3_next);
    reveal(is_tail_args);
}

/// Whether `node` is the node that `SentenceTail3Next` makes of the tokens at `pos`.
#[verifier::opaque]
pub closed spec fn is_sentence_tail_3_next<'arena>(
    node: (SentenceTail3Connective<'arena>, SentenceTail4<'arena>),
    toks: Seq<Token>,
    pos: nat,
) -> bool
    decreases rest(toks, pos), 91nat,
{
    match spec_sentence_tail_3_connective(toks, pos) {
        Outcome::Matched(n1) => {
            &&& is_sentence_tail_3_connective(node.0, toks, pos)
            &&& match spec_sentence_tail_4(toks, pos + n1) {
                    Outcome::Matched(_) => is_sentence_tail_4(node.1, toks, pos + n1),
                    _ => false,
                }
        },
        _ => false,
    }
}

/// What [`is_sentence_tail_3_next`] says.
pub proof fn lemma_is_sentence_tail_3_next<'arena>(
    node: (SentenceTail3Connective<'arena>, SentenceTail4<'arena>),
    toks: Seq<Token>,
    pos: nat,
)
    ensures
        is_sentence_tail_3_next(node, toks, pos) == (
            match spec_sentence_tail_3_connective(toks, pos) {
                Outcome::Matched(n1) => {
                    &&& is_sentence_tail_3_connective(node.0, toks, pos)
                    &&& match spec_sentence_tail_4(toks, pos + n1) {
                            Outcome::Matched(_) => is_sentence_tail_4(node.1, toks, pos + n1),
                            _ => false,
                        }
                },
                _ => false,
            }
        ),
{
    reveal(is_sentence_tail_3_next);
    reveal(is_sentence_tail_3_connective);
    reveal(is_sentence_tail_4);
}

/// How many tokens the first `count` of a row of `SentenceTail3Next` take at `pos`.
pub open spec fn run_of_sentence_tail_3_next(toks: Seq<Token>, pos: nat, count: nat) -> nat
    decreases count,
{
    if count == 0 {
        0
    } else {
        let before = run_of_sentence_tail_3_next(toks, pos, (count - 1) as nat);
        before + (match spec_sentence_tail_3_next(toks, pos + before) {
            Outcome::Matched(len) => len,
            _ => 0,
        })
    }
}

/// Whether `items` are the nodes of a row of `SentenceTail3Next` at `pos`: each is the
/// node of the `SentenceTail3Next` at its place, and no further one follows them.
#[verifier::opaque]
pub closed spec fn is_row_of_sentence_tail_3_next<'arena>(
    items: Seq<(SentenceTail3Connective<'arena>, SentenceTail4<'arena>)>,
    toks: Seq<Token>,
    pos: nat,
) -> bool
    decreases rest(toks, pos), 92nat,
{
    &&& forall|i: int|
        #![trigger items[i]]
        #![trigger run_of_sentence_tail_3_next(toks, pos, i as nat)]
        0 <= i < items.len() ==> spec_sentence_tail_3_next(
            toks,
            pos + run_of_sentence_tail_3_next(toks, pos, i as nat),
        ) is Matched && is_sentence_tail_3_next(
            items[i],
            toks,
            pos + run_of_sentence_tail_3_next(toks, pos, i as nat),
        )
    &&& !(spec_sentence_tail_3_next(
        toks,
        pos + run_of_sentence_tail_3_next(toks, pos, items.len()),
    ) is Matched)
}

/// What [`is_row_of_sentence_tail_3_next`] says.
pub proof fn lemma_is_row_of_sentence_tail_3_next<'arena>(
    items: Seq<(SentenceTail3Connective<'arena>, SentenceTail4<'arena>)>,
    toks: Seq<Token>,
    pos: nat,
)
    ensures
        is_row_of_sentence_tail_3_next(items, toks, pos) == ({
            &&& forall|i: int|
                #![trigger items[i]]
                #![trigger run_of_sentence_tail_3_next(toks, pos, i as nat)]
                0 <= i < items.len() ==> spec_sentence_tail_3_next(
                    toks,
                    pos + run_of_sentence_tail_3_next(toks, pos, i as nat),
                ) is Matched && is_sentence_tail_3_next(
                    items[i],
                    toks,
                    pos + run_of_sentence_tail_3_next(toks, pos, i as nat),
                )
            &&& !(spec_sentence_tail_3_next(
                toks,
                pos + run_of_sentence_tail_3_next(toks, pos, items.len()),
            ) is Matched)
        }),
{
    reveal(is_row_of_sentence_tail_3_next);
    reveal(is_sentence_tail_3_next);
}

/// Whether `node` is the node that `SentenceTail3Connective` makes of the tokens at `pos`.
#[verifier::opaque]
pub closed spec fn is_sentence_tail_3_connective<'arena>(
    node: (Gihek<'arena>, Option<TagWords<'arena>>, Word<'arena>, Frees<'arena>),
    toks: Seq<Token>,
    pos: nat,
) -> bool
    decreases rest(toks, pos), 32nat,
{
    match spec_gihek(toks, pos) {
        Outcome::Matched(n1) => {
            &&& is_gihek(node.0, toks, pos)
            &&& match spec_opt(spec_tag_words(toks, pos + n1)) {
                    Outcome::Matched(n2) => {
                        &&& (match node.1 {
                                Some(inner) => {
                                    &&& spec_tag_words(toks, pos + n1) is Matched
                                    &&& is_tag_words(inner, toks, pos + n1)
                                },
                                None => spec_tag_words(toks, pos + n1) is Error,
                            })
                        &&& match spec_word(toks, pos + n1 + n2, Selmaho::Bo) {
                                Outcome::Matched(n3) => {
                                    &&& is_word(node.2, toks, pos + n1 + n2, Selmaho::Bo)
                                    &&& match spec_frees(toks, pos + n1 + n2 + n3) {
                                            Outcome::Matched(_) => is_frees(
                                                node.3,
                                                toks,
                                                pos + n1 + n2 + n3,
                                            ),
                                            _ => false,
                                        }
                                },
                                _ => false,
                            }
                    },
                    _ => false,
                }
        },
        _ => false,
    }
}

/// What [`is_sentence_tail_3_connective`] says.
pub proof fn lemma_is_sentence_tail_3_connective<'arena>(
    node: (Gihek<'arena>, Option<TagWords<'arena>>, Word<'arena>, Frees<'arena>),
    toks: Seq<Token>,
    pos: nat,
)
    ensures
        is_sentence_tail_3_connective(node, toks, pos) == (
            match spec_gihek(toks, pos) {
                Outcome::Matched(n1) => {
                    &&& is_gihek(node.0, toks, pos)
                    &&& match spec_opt(spec_tag_words(toks, pos + n1)) {
                            Outcome::Matched(n2) => {
                                &&& (match node.1 {
                                        Some(inner) => {
                                            &&& spec_tag_words(toks, pos + n1) is Matched
                                            &&& is_tag_words(inner, toks, pos + n1)
                                        },
                                        None => spec_tag_words(toks, pos + n1) is Error,
                                    })
                                &&& match spec_word(toks, pos + n1 + n2, Selmaho::Bo) {
                                        Outcome::Matched(n3) => {
                                            &&& is_word(node.2, toks, pos + n1 + n2, Selmaho::Bo)
                                            &&& match spec_frees(toks, pos + n1 + n2 + n3) {
                                                    Outcome::Matched(_) => is_frees(
                                                        node.3,
                                                        toks,
                                                        pos + n1 + n2 + n3,
                                                    ),
                                                    _ => false,
                                                }
                                        },
                                        _ => false,
                                    }
                            },
                            _ => false,
                        }
                },
                _ => false,
            }
        ),
{
    reveal(is_sentence_tail_3_connective);
    reveal(is_gihek);
    reveal(is_tag_words);
    reveal(is_word);
    reveal(is_frees);
}

/// Whether `node` is the node that `Gihek` makes of the tokens at `pos`.
#[verifier::opaque]
pub closed spec fn is_gihek<'arena>(node: Gihek<'arena>, toks: Seq<Token>, pos: nat) -> bool
    decreases rest(toks, pos), 4nat,
{
    match spec_na_se_tnai_giha(toks, pos) {
        Outcome::Matched(_) => is_na_se_tnai_giha(node.0, toks, pos),
        _ => false,
    }
}

/// What [`is_gihek`] says.
pub proof fn lemma_is_gihek<'arena>(node: Gihek<'arena>, toks: Seq<Token>, pos: nat)
    ensures
        is_gihek(node, toks, pos) == (
            match spec_na_se_tnai_giha(toks, pos) {
                Outcome::Matched(_) => is_na_se_tnai_giha(node.0, toks, pos),
                _ => false,
            }
        ),
{
    reveal(is_gihek);
    reveal(is_na_se_tnai_giha);
}

/// Whether `node` is the node that `NaSeTNaiGiha` makes of the tokens at `pos`.
#[verifier::opaque]
pub closed spec fn is_na_se_tnai_giha<'arena>(
    node: NaSeTNai<'arena, Word<'arena>>,
    toks: Seq<Token>,
    pos: nat,
) -> bool
    decreases rest(toks, pos), 3nat,
{
    match spec_opt(spec_word(toks, pos, Selmaho::Na)) {
        Outcome::Matched(n1) => {
            &&& (match node.0 {
                    Some(inner) => {
                        &&& spec_word(toks, pos, Selmaho::Na) is Matched
                        &&& is_word(inner, toks, pos, Selmaho::Na)
                    },
                    None => spec_word(toks, pos, Selmaho::Na) is Error,
                })
            &&& match spec_opt(spec_word(toks, pos + n1, Selmaho::Se)) {
                    Outcome::Matched(n2) => {
                        &&& (match node.1 {
                                Some(inner) => {
                                    &&& spec_word(toks, pos + n1, Selmaho::Se) is Matched
                                    &&& is_word(inner, toks, pos + n1, Selmaho::Se)
                                },
                                None => spec_word(toks, pos + n1, Selmaho::Se) is Error,
                            })
                        &&& match spec_word(toks, pos + n1 + n2, Selmaho::Giha) {
                                Outcome::Matched(n3) => {
                                    &&& is_word(node.2, toks, pos + n1 + n2, Selmaho::Giha)
                                    &&& match spec_opt(
                                        spec_word(toks, pos + n1 + n2 + n3, Selmaho::Nai),
                                    ) {
                                            Outcome::Matched(_) => {
                                                &&& (match node.3 {
                                                        Some(inner) => {
                                                            &&& spec_word(
                                                                toks,
                                                                pos + n1 + n2 + n3,
                                                                Selmaho::Nai,
                                                            ) is Matched
                                                            &&& is_word(
                                                                inner,
                                                                toks,
                                                                pos + n1 + n2 + n3,
                                                                Selmaho::Nai,
                                                            )
                                                        },
                                                        None => spec_word(
                                                            toks,
                                                            pos + n1 + n2 + n3,
                                                            Selmaho::Nai,
                                                        ) is Error,
                                                    })
                                            },
                                            _ => false,
                                        }
                                },
                                _ => false,
                            }
                    },
                    _ => false,
                }
        },
        _ => false,
    }
}

/// What [`is_na_se_tnai_giha`] says.
pub proof fn lemma_is_na_se_tnai_giha<'arena>(
    node: NaSeTNai<'arena, Word<'arena>>,
    toks: Seq<Token>,
    pos: nat,
)
    ensures
        is_na_se_tnai_giha(node, toks, pos) == (
            match spec_opt(spec_word(toks, pos, Selmaho::Na)) {
                Outcome::Matched(n1) => {
                    &&& (match node.0 {
                            Some(inner) => {
                                &&& spec_word(toks, pos, Selmaho::Na) is Matched
                                &&& is_word(inner, toks, pos, Selmaho::Na)
                            },
                            None => spec_word(toks, pos, Selmaho::Na) is Error,
                        })
                    &&& match spec_opt(spec_word(toks, pos + n1, Selmaho::Se)) {
                            Outcome::Matched(n2) => {
                                &&& (match node.1 {
                                        Some(inner) => {
                                            &&& spec_word(toks, pos + n1, Selmaho::Se) is Matched
                                            &&& is_word(inner, toks, pos + n1, Selmaho::Se)
                                        },
                                        None => spec_word(toks, pos + n1, Selmaho::Se) is Error,
                                    })
                                &&& match spec_word(toks, pos + n1 + n2, Selmaho::Giha) {
                                        Outcome::Matched(n3) => {
                                            &&& is_word(
                                                node.2,
                                                toks,
                                                pos + n1 + n2,
                                                Selmaho::Giha,
                                            )
                                            &&& match spec_opt(
                                                spec_word(toks, pos + n1 + n2 + n3, Selmaho::Nai),
                                            ) {
                                                    Outcome::Matched(_) => {
                                                        &&& (match node.3 {
                                                                Some(inner) => {
                                                                    &&& spec_word(
                                                                        toks,
                                                                        pos + n1 + n2 + n3,
                                                                        Selmaho::Nai,
                                                                    ) is Matched
                                                                    &&& is_word(
                                                                        inner,
                                                                        toks,
                                                                        pos + n1 + n2 + n3,
                                                                        Selmaho::Nai,
                                                                    )
                                                                },
                                                                None => spec_word(
                                                                    toks,
                                                                    pos + n1 + n2 + n3,
                                                                    Selmaho::Nai,
                                                                ) is Error,
                                                            })
                                                    },
                                                    _ => false,
                                                }
                                        },
                                        _ => false,
                                    }
                            },
                            _ => false,
                        }
                },
                _ => false,
            }
        ),
{
    reveal(is_na_se_tnai_giha);
    reveal(is_word);
}

/// Whether `node` is the node that `SentenceTail2After` makes of the tokens at `pos`.
#[verifier::opaque]
pub closed spec fn is_sentence_tail_2_after<'arena>(
    node: SentenceTail2After<'arena>,
    toks: Seq<Token>,
    pos: nat,
) -> bool
    decreases rest(toks, pos), 97nat,
{
    match spec_many1_sentence_tail_2_next(toks, pos) {
        Outcome::Matched(n1) => {
            &&& is_row_of_sentence_tail_2_next(node.0@, toks, pos)
            &&& match spec_tail_args(toks, pos + n1) {
                    Outcome::Matched(_) => is_tail_args(node.1, toks, pos + n1),
                    _ => false,
                }
        },
        _ => false,
    }
}

/// What [`is_sentence_tail_2_after`] says.
pub proof fn lemma_is_sentence_tail_2_after<'arena>(
    node: SentenceTail2After<'arena>,
    toks: Seq<Token>,
    pos: nat,
)
    ensures
        is_sentence_tail_2_after(node, toks, pos) == (
            match spec_many1_sentence_tail_2_next(toks, pos) {
                Outcome::Matched(n1) => {
                    &&& is_row_of_sentence_tail_2_next(node.0@, toks, pos)
                    &&& match spec_tail_args(toks, pos + n1) {
                            Outcome::Matched(_) => is_tail_args(node.1, toks, pos + n1),
                            _ => false,
                        }
                },
                _ => false,
            }
        ),
{
    reveal(is_sentence_tail_2_after);
    reveal(is_row_of_sentence_tail_2_next);
    reveal(is_tail_args);
}

/// Whether `node` is the node that `SentenceTail2Next` makes of the tokens at `pos`.
#[verifier::opaque]
pub closed spec fn is_sentence_tail_2_next<'arena>(
    node: (SentenceTail2Connective<'arena>, SentenceTail3<'arena>),
    toks: Seq<Token>,
    pos: nat,
) -> bool
    decreases rest(toks, pos), 95nat,
{
    match spec_sentence_tail_2_connective(toks, pos) {
        Outcome::Matched(n1) => {
            &&& is_sentence_tail_2_connective(node.0, toks, pos)
            &&& match spec_sentence_tail_3(toks, pos + n1) {
                    Outcome::Matched(_) => is_sentence_tail_3(node.1, toks, pos + n1),
                    _ => false,
                }
        },
        _ => false,
    }
}

/// What [`is_sentence_tail_2_next`] says.
pub proof fn lemma_is_sentence_tail_2_next<'arena>(
    node: (SentenceTail2Connective<'arena>, SentenceTail3<'arena>),
    toks: Seq<Token>,
    pos: nat,
)
    ensures
        is_sentence_tail_2_next(node, toks, pos) == (
            match spec_sentence_tail_2_connective(toks, pos) {
                Outcome::Matched(n1) => {
                    &&& is_sentence_tail_2_connective(node.0, toks, pos)
                    &&& match spec_sentence_tail_3(toks, pos + n1) {
                            Outcome::Matched(_) => is_sentence_tail_3(node.1, toks, pos + n1),
                            _ => false,
                        }
                },
                _ => false,
            }
        ),
{
    reveal(is_sentence_tail_2_next);
    reveal(is_sentence_tail_2_connective);
    reveal(is_sentence_tail_3);
}

/// How many tokens the first `count` of a row of `SentenceTail2Next` take at `pos`.
pub open spec fn run_of_sentence_tail_2_next(toks: Seq<Token>, pos: nat, count: nat) -> nat
    decreases count,
{
    if count == 0 {
        0
    } else {
        let before = run_of_sentence_tail_2_next(toks, pos, (count - 1) as nat);
        before + (match spec_sentence_tail_2_next(toks, pos + before) {
            Outcome::Matched(len) => len,
            _ => 0,
        })
    }
}

/// Whether `items` are the nodes of a row of `SentenceTail2Next` at `pos`: each is the
/// node of the `SentenceTail2Next` at its place, and no further one follows them.
#[verifier::opaque]
pub closed spec fn is_row_of_sentence_tail_2_next<'arena>(
    items: Seq<(SentenceTail2Connective<'arena>, SentenceTail3<'arena>)>,
    toks: Seq<Token>,
    pos: nat,
) -> bool
    decreases rest(toks, pos), 96nat,
{
    &&& forall|i: int|
        #![trigger items[i]]
        #![trigger run_of_sentence_tail_2_next(toks, pos, i as nat)]
        0 <= i < items.len() ==> spec_sentence_tail_2_next(
            toks,
            pos + run_of_sentence_tail_2_next(toks, pos, i as nat),
        ) is Matched && is_sentence_tail_2_next(
            items[i],
            toks,
            pos + run_of_sentence_tail_2_next(toks, pos, i as nat),
        )
    &&& !(spec_sentence_tail_2_next(
        toks,
        pos + run_of_sentence_tail_2_next(toks, pos, items.len()),
    ) is Matched)
}

/// What [`is_row_of_sentence_tail_2_next`] says.
pub proof fn lemma_is_row_of_sentence_tail_2_next<'arena>(
    items: Seq<(SentenceTail2Connective<'arena>, SentenceTail3<'arena>)>,
    toks: Seq<Token>,
    pos: nat,
)
    ensures
        is_row_of_sentence_tail_2_next(items, toks, pos) == ({
            &&& forall|i: int|
                #![trigger items[i]]
                #![trigger run_of_sentence_tail_2_next(toks, pos, i as nat)]
                0 <= i < items.len() ==> spec_sentence_tail_2_next(
                    toks,
                    pos + run_of_sentence_tail_2_next(toks, pos, i as nat),
                ) is Matched && is_sentence_tail_2_next(
                    items[i],
                    toks,
                    pos + run_of_sentence_tail_2_next(toks, pos, i as nat),
                )
            &&& !(spec_sentence_tail_2_next(
                toks,
                pos + run_of_sentence_tail_2_next(toks, pos, items.len()),
            ) is Matched)
        }),
{
    reveal(is_row_of_sentence_tail_2_next);
    reveal(is_sentence_tail_2_next);
}

/// Whether `node` is the node that `SentenceTail2Connective` makes of the tokens at `pos`.
#[verifier::opaque]
pub closed spec fn is_sentence_tail_2_connective<'arena>(
    node: SentenceTail2Connective<'arena>,
    toks: Seq<Token>,
    pos: nat,
) -> bool
    decreases rest(toks, pos), 33nat,
{
    match spec_gihek(toks, pos) {
        Outcome::Matched(n1) => {
            &&& is_gihek(node.0, toks, pos)
            &&& match spec_frees(toks, pos + n1) {
                    Outcome::Matched(_) => is_frees(node.1, toks, pos + n1),
                    _ => false,
                }
        },
        _ => false,
    }
}

/// What [`is_sentence_tail_2_connective`] says.
pub proof fn lemma_is_sentence_tail_2_connective<'arena>(
    node: SentenceTail2Connective<'arena>,
    toks: Seq<Token>,
    pos: nat,
)
    ensures
        is_sentence_tail_2_connective(node, toks, pos) == (
            match spec_gihek(toks, pos) {
                Outcome::Matched(n1) => {
                    &&& is_gihek(node.0, toks, pos)
                    &&& match spec_frees(toks, pos + n1) {
                            Outcome::Matched(_) => is_frees(node.1, toks, pos + n1),
                            _ => false,
                        }
                },
                _ => false,
            }
        ),
{
    reveal(is_sentence_tail_2_connective);
    reveal(is_gihek);
    reveal(is_frees);
}

/// Whether `node` is the node that `TagKe` makes of the tokens at `pos`.
#[verifier::opaque]
pub closed spec fn is_tag_ke<'arena>(
    node: (Option<TagWords<'arena>>, Word<'arena>),
    toks: Seq<Token>,
    pos: nat,
) -> bool
    decreases rest(toks, pos), 32nat,
{
    match spec_opt(spec_tag_words(toks, pos)) {
        Outcome::Matched(n1) => {
            &&& (match node.0 {
                    Some(inner) => {
                        &&& spec_tag_words(toks, pos) is Matched
                        &&& is_tag_words(inner, toks, pos)
                    },
                    None => spec_tag_words(toks, pos) is Error,
                })
            &&& match spec_word(toks, pos + n1, Selmaho::Ke) {
                    Outcome::Matched(_) => is_word(node.1, toks, pos + n1, Selmaho::Ke),
                    _ => false,
                }
        },
        _ => false,
    }
}

/// What [`is_tag_ke`] says.
pub proof fn lemma_is_tag_ke<'arena>(
    node: (Option<TagWords<'arena>>, Word<'arena>),
    toks: Seq<Token>,
    pos: nat,
)
    ensures
        is_tag_ke(node, toks, pos) == (
            match spec_opt(spec_tag_words(toks, pos)) {
                Outcome::Matched(n1) => {
                    &&& (match node.0 {
                            Some(inner) => {
                                &&& spec_tag_words(toks, pos) is Matched
                                &&& is_tag_words(inner, toks, pos)
                            },
                            None => spec_tag_words(toks, pos) is Error,
                        })
                    &&& match spec_word(toks, pos + n1, Selmaho::Ke) {
                            Outcome::Matched(_) => is_word(node.1, toks, pos + n1, Selmaho::Ke),
                            _ => false,
                        }
                },
                _ => false,
            }
        ),
{
    reveal(is_tag_ke);
    reveal(is_tag_words);
    reveal(is_word);
}

/// Whether `node` is the node that `SentenceTail1After` makes of the tokens at `pos`.
#[verifier::opaque]
pub closed spec fn is_sentence_tail_1_after<'arena>(
    node: SentenceTail1After<'arena>,
    toks: Seq<Token>,
    pos: nat,
) -> bool
    decreases rest(toks, pos), 63nat,
{
    match spec_gihek(toks, pos) {
        Outcome::Matched(n1) => {
            &&& is_gihek(node.0, toks, pos)
            &&& match spec_opt(spec_tag_words(toks, pos + n1)) {
                    Outcome::Matched(n2) => {
                        &&& (match node.1 {
                                Some(inner) => {
                                    &&& spec_tag_words(toks, pos + n1) is Matched
                                    &&& is_tag_words(inner, toks, pos + n1)
                                },
                                None => spec_tag_words(toks, pos + n1) is Error,
                            })
                        &&& match spec_word(toks, pos + n1 + n2, Selmaho::Ke) {
                                Outcome::Matched(n3) => {
                                    &&& is_word(node.2, toks, pos + n1 + n2, Selmaho::Ke)
                                    &&& match spec_frees(toks, pos + n1 + n2 + n3) {
                                            Outcome::Matched(n4) => {
                                                &&& is_frees(node.3, toks, pos + n1 + n2 + n3)
                                                &&& match spec_sentence_tail_1(
                                                    toks,
                                                    pos + n1 + n2 + n3 + n4,
                                                ) {
                                                        Outcome::Matched(n5) => {
                                                            &&& advanced(
                                                                toks,
                                                                pos,
                                                                n1 + n2 + n3 + n4,
                                                            )
                                                            &&& is_sentence_tail_1(
                                                                *node.4,
                                                                toks,
                                                                pos + n1 + n2 + n3 + n4,
                                                            )
                                                            &&& match spec_opt(
                                                                spec_word(
                                                                    toks,
                                                                    pos + n1 + n2 + n3 + n4 + n5,
                                                                    Selmaho::Kehe,
                                                                ),
                                                            ) {
                                                                    Outcome::Matched(n6) => {
                                                                        &&& (match node.5 {
                                                                                Some(inner) => {
                                                                                    &&& spec_word(
                                                                                        toks,
                                                                                        pos + n1 + n2 + n3 + n4 + n5,
                                                                                        Selmaho::Kehe,
                                                                                    ) is Matched
                                                                                    &&& is_word(
                                                                                        inner,
                                                                                        toks,
                                                                                        pos + n1 + n2 + n3 + n4 + n5,
                                                                                        Selmaho::Kehe,
                                                                                    )
                                                                                },
                                                                                None => spec_word(
                                                                                    toks,
                                                                                    pos + n1 + n2 + n3 + n4 + n5,
                                                                                    Selmaho::Kehe,
                                                                                ) is Error,
                                                                            })
                                                                        &&& match spec_frees(
                                                                            toks,
                                                                            pos + n1 + n2 + n3 + n4 + n5 + n6,
                                                                        ) {
                                                                                Outcome::Matched(n7) => {
                                                                                    &&& is_frees(
                                                                                        node.6,
                                                                                        toks,
                                                                                        pos + n1 + n2 + n3 + n4 + n5 + n6,
                                                                                    )
                                                                                    &&& match spec_tail_args(
                                                                                        toks,
                                                                                        pos + n1 + n2 + n3 + n4 + n5 + n6 + n7,
                                                                                    ) {
                                                                                            Outcome::Matched(_) => is_tail_args(
                                                                                                node.7,
                                                                                                toks,
                                                                                                pos + n1 + n2 + n3 + n4 + n5 + n6 + n7,
                                                                                            ),
                                                                                            _ => false,
                                                                                        }
                                                                                },
                                                                                _ => false,
                                                                            }
                                                                    },
                                                                    _ => false,
                                                                }
                                                        },
                                                        _ => false,
                                                    }
                                            },
                                            _ => false,
                                        }
                                },
                                _ => false,
                            }
                    },
                    _ => false,
                }
        },
        _ => false,
    }
}

/// What [`is_sentence_tail_1_after`] says.
pub proof fn lemma_is_sentence_tail_1_after<'arena>(
    node: SentenceTail1After<'arena>,
    toks: Seq<Token>,
    pos: nat,
)
    ensures
        is_sentence_tail_1_after(node, toks, pos) == (
            match spec_gihek(toks, pos) {
                Outcome::Matched(n1) => {
                    &&& is_gihek(node.0, toks, pos)
                    &&& match spec_opt(spec_tag_words(toks, pos + n1)) {
                            Outcome::Matched(n2) => {
                                &&& (match node.1 {
                                        Some(inner) => {
                                            &&& spec_tag_words(toks, pos + n1) is Matched
                                            &&& is_tag_words(inner, toks, pos + n1)
                                        },
                                        None => spec_tag_words(toks, pos + n1) is Error,
                                    })
                                &&& match spec_word(toks, pos + n1 + n2, Selmaho::Ke) {
                                        Outcome::Matched(n3) => {
                                            &&& is_word(node.2, toks, pos + n1 + n2, Selmaho::Ke)
                                            &&& match spec_frees(toks, pos + n1 + n2 + n3) {
                                                    Outcome::Matched(n4) => {
                                                        &&& is_frees(
                                                            node.3,
                                                            toks,
                                                            pos + n1 + n2 + n3,
                                                        )
                                                        &&& match spec_sentence_tail_1(
                                                            toks,
                                                            pos + n1 + n2 + n3 + n4,
                                                        ) {
                                                                Outcome::Matched(n5) => {
                                                                    &&& advanced(
                                                                        toks,
                                                                        pos,
                                                                        n1 + n2 + n3 + n4,
                                                                    )
                                                                    &&& is_sentence_tail_1(
                                                                        *node.4,
                                                                        toks,
                                                                        pos + n1 + n2 + n3 + n4,
                                                                    )
                                                                    &&& match spec_opt(
                                                                        spec_word(
                                                                            toks,
                                                                            pos + n1 + n2 + n3 + n4 + n5,
                                                                            Selmaho::Kehe,
                                                                        ),
                                                                    ) {
                                                                            Outcome::Matched(n6) => {
                                                                                &&& (match node.5 {
                                                                                        Some(inner) => {
                                                                                            &&& spec_word(
                                                                                                toks,
                                                                                                pos + n1 + n2 + n3 + n4 + n5,
                                                                                                Selmaho::Kehe,
                                                                                            ) is Matched
                                                                                            &&& is_word(
                                                                                                inner,
                                                                                                toks,
                                                                                                pos + n1 + n2 + n3 + n4 + n5,
                                                                                                Selmaho::Kehe,
                                                                                            )
                                                                                        },
                                                                                        None => spec_word(
                                                                                            toks,
                                                                                            pos + n1 + n2 + n3 + n4 + n5,
                                                                                            Selmaho::Kehe,
                                                                                        ) is Error,
                                                                                    })
                                                                                &&& match spec_frees(
                                                                                    toks,
                                                                                    pos + n1 + n2 + n3 + n4 + n5 + n6,
                                                                                ) {
                                                                                        Outcome::Matched(n7) => {
                                                                                            &&& is_frees(
                                                                                                node.6,
                                                                                                toks,
                                                                                                pos + n1 + n2 + n3 + n4 + n5 + n6,
                                                                                            )
                                                                                            &&& match spec_tail_args(
                                                                                                toks,
                                                                                                pos + n1 + n2 + n3 + n4 + n5 + n6 + n7,
                                                                                            ) {
                                                                                                    Outcome::Matched(_) => is_tail_args(
                                                                                                        node.7,
                                                                                                        toks,
                                                                                                        pos + n1 + n2 + n3 + n4 + n5 + n6 + n7,
                                                                                                    ),
                                                                                                    _ => false,
                                                                                                }
                                                                                        },
                                                                                        _ => false,
                                                                                    }
                                                                            },
                                                                            _ => false,
                                                                        }
                                                                },
                                                                _ => false,
                                                            }
                                                    },
                                                    _ => false,
                                                }
                                        },
                                        _ => false,
                                    }
                            },
                            _ => false,
                        }
                },
                _ => false,
            }
        ),
{
    reveal(is_sentence_tail_1_after);
    reveal(is_gihek);
    reveal(is_tag_words);
    reveal(is_word);
    reveal(is_frees);
    reveal(is_sentence_tail_1);
    reveal(is_tail_args);
}

/// Whether `node` is the node that `RelativeClauseListNext` makes of the tokens at `pos`.
#[verifier::opaque]
pub closed spec fn is_relative_clause_list_next<'arena>(
    node: (WithFree<'arena, Word<'arena>>, RelativeClause<'arena>),
    toks: Seq<Token>,
    pos: nat,
) -> bool
    decreases rest(toks, pos), 7nat,
{
    match spec_word_with_free(toks, pos, Selmaho::Zihe) {
        Outcome::Matched(n1) => {
            &&& is_word_with_free(node.0, toks, pos, Selmaho::Zihe)
            &&& match spec_relative_clause(toks, pos + n1) {
                    Outcome::Matched(_) => is_relative_clause(node.1, toks, pos + n1),
                    _ => false,
                }
        },
        _ => false,
    }
}

/// What [`is_relative_clause_list_next`] says.
pub proof fn lemma_is_relative_clause_list_next<'arena>(
    node: (WithFree<'arena, Word<'arena>>, RelativeClause<'arena>),
    toks: Seq<Token>,
    pos: nat,
)
    ensures
        is_relative_clause_list_next(node, toks, pos) == (
            match spec_word_with_free(toks, pos, Selmaho::Zihe) {
                Outcome::Matched(n1) => {
                    &&& is_word_with_free(node.0, toks, pos, Selmaho::Zihe)
                    &&& match spec_relative_clause(toks, pos + n1) {
                            Outcome::Matched(_) => is_relative_clause(node.1, toks, pos + n1),
                            _ => false,
                        }
                },
                _ => false,
            }
        ),
{
    reveal(is_relative_clause_list_next);
    reveal(is_word_with_free);
    reveal(is_relative_clause);
}

/// How many tokens the first `count` of a row of `RelativeClauseListNext` take at `pos`.
pub open spec fn run_of_relative_clause_list_next(toks: Seq<Token>, pos: nat, count: nat) -> nat
    decreases count,
{
    if count == 0 {
        0
    } else {
        let before = run_of_relative_clause_list_next(toks, pos, (count - 1) as nat);
        before + (match spec_relative_clause_list_next(toks, pos + before) {
            Outcome::Matched(len) => len,
            _ => 0,
        })
    }
}

/// Whether `items` are the nodes of a row of `RelativeClauseListNext` at `pos`: each is the
/// node of the `RelativeClauseListNext` at its place, and no further one follows them.
#[verifier::opaque]
pub closed spec fn is_row_of_relative_clause_list_next<'arena>(
    items: Seq<(WithFree<'arena, Word<'arena>>, RelativeClause<'arena>)>,
    toks: Seq<Token>,
    pos: nat,
) -> bool
    decreases rest(toks, pos), 8nat,
{
    &&& forall|i: int|
        #![trigger items[i]]
        #![trigger run_of_relative_clause_list_next(toks, pos, i as nat)]
        0 <= i < items.len() ==> spec_relative_clause_list_next(
            toks,
            pos + run_of_relative_clause_list_next(toks, pos, i as nat),
        ) is Matched && is_relative_clause_list_next(
            items[i],
            toks,
            pos + run_of_relative_clause_list_next(toks, pos, i as nat),
        )
    &&& !(spec_relative_clause_list_next(
        toks,
        pos + run_of_relative_clause_list_next(toks, pos, items.len()),
    ) is Matched)
}

/// What [`is_row_of_relative_clause_list_next`] says.
pub proof fn lemma_is_row_of_relative_clause_list_next<'arena>(
    items: Seq<(WithFree<'arena, Word<'arena>>, RelativeClause<'arena>)>,
    toks: Seq<Token>,
    pos: nat,
)
    ensures
        is_row_of_relative_clause_list_next(items, toks, pos) == ({
            &&& forall|i: int|
                #![trigger items[i]]
                #![trigger run_of_relative_clause_list_next(toks, pos, i as nat)]
                0 <= i < items.len() ==> spec_relative_clause_list_next(
                    toks,
                    pos + run_of_relative_clause_list_next(toks, pos, i as nat),
                ) is Matched && is_relative_clause_list_next(
                    items[i],
                    toks,
                    pos + run_of_relative_clause_list_next(toks, pos, i as nat),
                )
            &&& !(spec_relative_clause_list_next(
                toks,
                pos + run_of_relative_clause_list_next(toks, pos, items.len()),
            ) is Matched)
        }),
{
    reveal(is_row_of_relative_clause_list_next);
    reveal(is_relative_clause_list_next);
}

/// Whether `node` is the node that `GadriSumtiPreRelative` makes of the tokens at `pos`.
#[verifier::opaque]
pub closed spec fn is_gadri_sumti_pre_relative<'arena>(
    node: GadriSumtiPre<'arena>,
    toks: Seq<Token>,
    pos: nat,
) -> bool
    decreases rest(toks, pos), 11nat,
{
    match node {
        GadriSumtiPre::Relative { relative_clauses } => match spec_relative_clauses(toks, pos) {
            Outcome::Matched(_) => is_relative_clauses(relative_clauses, toks, pos),
            _ => false,
        },
        _ => false,
    }
}

/// What [`is_gadri_sumti_pre_relative`] says.
pub proof fn lemma_is_gadri_sumti_pre_relative<'arena>(
    node: GadriSumtiPre<'arena>,
    toks: Seq<Token>,
    pos: nat,
)
    ensures
        is_gadri_sumti_pre_relative(node, toks, pos) == (
            match node {
                GadriSumtiPre::Relative { relative_clauses } => match spec_relative_clauses(
                    toks,
                    pos,
                ) {
                    Outcome::Matched(_) => is_relative_clauses(relative_clauses, toks, pos),
                    _ => false,
                },
                _ => false,
            }
        ),
{
    reveal(is_gadri_sumti_pre_relative);
    reveal(is_relative_clauses);
}

/// Whether `node` is the node that `GadriSumtiPreFullPre` makes of the tokens at `pos`.
#[verifier::opaque]
pub closed spec fn is_gadri_sumti_pre_full_pre<'arena>(
    node: GadriSumtiPre<'arena>,
    toks: Seq<Token>,
    pos: nat,
) -> bool
    decreases rest(toks, pos), 45nat,
{
    match node {
        GadriSumtiPre::FullPre { pe_shorthand } => match spec_sumti(toks, pos) {
            Outcome::Matched(_) => is_sumti(*pe_shorthand, toks, pos),
            _ => false,
        },
        _ => false,
    }
}

/// What [`is_gadri_sumti_pre_full_pre`] says.
pub proof fn lemma_is_gadri_sumti_pre_full_pre<'arena>(
    node: GadriSumtiPre<'arena>,
    toks: Seq<Token>,
    pos: nat,
)
    ensures
        is_gadri_sumti_pre_full_pre(node, toks, pos) == (
            match node {
                GadriSumtiPre::FullPre { pe_shorthand } => match spec_sumti(toks, pos) {
                    Outcome::Matched(_) => is_sumti(*pe_shorthand, toks, pos),
                    _ => false,
                },
                _ => false,
            }
        ),
{
    reveal(is_gadri_sumti_pre_full_pre);
    reveal(is_sumti);
}

/// Whether `node` is the node that `GadriSumtiContents` makes of the tokens at `pos`: the
/// node of the first alternative that matches.
#[verifier::opaque]
pub closed spec fn is_gadri_sumti_contents<'arena>(
    node: GadriSumtiContents<'arena>,
    toks: Seq<Token>,
    pos: nat,
) -> bool
    decreases rest(toks, pos), 90nat,
{
    match spec_gadri_sumti_contents_selbri(toks, pos) {
        Outcome::Matched(_) => is_gadri_sumti_contents_selbri(node, toks, pos),
        Outcome::Error(
            _,
        ) => spec_gadri_sumti_contents_sumti(
            toks,
            pos,
        ) is Matched && is_gadri_sumti_contents_sumti(node, toks, pos),
        Outcome::Failure(_) => false,
    }
}

/// What [`is_gadri_sumti_contents`] says.
pub proof fn lemma_is_gadri_sumti_contents<'arena>(toks: Seq<Token>, pos: nat)
    ensures
        forall|node: GadriSumtiContents<'arena>| #[trigger] is_gadri_sumti_contents(
            node,
            toks,
            pos,
        ) == (
            match spec_gadri_sumti_contents_selbri(toks, pos) {
                Outcome::Matched(_) => is_gadri_sumti_contents_selbri(node, toks, pos),
                Outcome::Error(
                    _,
                ) => spec_gadri_sumti_contents_sumti(
                    toks,
                    pos,
                ) is Matched && is_gadri_sumti_contents_sumti(node, toks, pos),
                Outcome::Failure(_) => false,
            }
        ),
{
    reveal(is_gadri_sumti_contents);
    reveal(is_gadri_sumti_contents_selbri);
    reveal(is_gadri_sumti_contents_sumti);
}

/// Whether `node` is the node that `GadriSumtiContentsSelbri` makes of the tokens at `pos`.
#[verifier::opaque]
pub closed spec fn is_gadri_sumti_contents_selbri<'arena>(
    node: GadriSumtiContents<'arena>,
    toks: Seq<Token>,
    pos: nat,
) -> bool
    decreases rest(toks, pos), 89nat,
{
    match node {
        GadriSumtiContents::Selbri(
            field_0,
            field_1,
            field_2,
        ) => match spec_opt(spec_quantifier(toks, pos)) {
            Outcome::Matched(n1) => {
                &&& (match field_0 {
                        Some(inner) => {
                            &&& spec_quantifier(toks, pos) is Matched
                            &&& is_quantifier(inner, toks, pos)
                        },
                        None => spec_quantifier(toks, pos) is Error,
                    })
                &&& match spec_selbri(toks, pos + n1) {
                        Outcome::Matched(n2) => {
                            &&& is_selbri(field_1, toks, pos + n1)
                            &&& match spec_opt(spec_relative_clauses(toks, pos + n1 + n2)) {
                                    Outcome::Matched(_) => {
                                        &&& (match field_2 {
                                                Some(inner) => {
                                                    &&& spec_relative_clauses(
                                                        toks,
                                                        pos + n1 + n2,
                                                    ) is Matched
                                                    &&& is_relative_clauses(
                                                        inner,
                                                        toks,
                                                        pos + n1 + n2,
                                                    )
                                                },
                                                None => spec_relative_clauses(
                                                    toks,
                                                    pos + n1 + n2,
                                                ) is Error,
                                            })
                                    },
                                    _ => false,
                                }
                        },
                        _ => false,
                    }
            },
            _ => false,
        },
        _ => false,
    }
}

/// What [`is_gadri_sumti_contents_selbri`] says.
pub proof fn lemma_is_gadri_sumti_contents_selbri<'arena>(
    node: GadriSumtiContents<'arena>,
    toks: Seq<Token>,
    pos: nat,
)
    ensures
        is_gadri_sumti_contents_selbri(node, toks, pos) == (
            match node {
                GadriSumtiContents::Selbri(
                    field_0,
                    field_1,
                    field_2,
                ) => match spec_opt(spec_quantifier(toks, pos)) {
                    Outcome::Matched(n1) => {
                        &&& (match field_0 {
                                Some(inner) => {
                                    &&& spec_quantifier(toks, pos) is Matched
                                    &&& is_quantifier(inner, toks, pos)
                                },
                                None => spec_quantifier(toks, pos) is Error,
                            })
                        &&& match spec_selbri(toks, pos + n1) {
                                Outcome::Matched(n2) => {
                                    &&& is_selbri(field_1, toks, pos + n1)
                                    &&& match spec_opt(
                                        spec_relative_clauses(toks, pos + n1 + n2),
                                    ) {
                                            Outcome::Matched(_) => {
                                                &&& (match field_2 {
                                                        Some(inner) => {
                                                            &&& spec_relative_clauses(
                                                                toks,
                                                                pos + n1 + n2,
                                                            ) is Matched
                                                            &&& is_relative_clauses(
                                                                inner,
                                                                toks,
                                                                pos + n1 + n2,
                                                            )
                                                        },
                                                        None => spec_relative_clauses(
                                                            toks,
                                                            pos + n1 + n2,
                                                        ) is Error,
                                                    })
                                            },
                                            _ => false,
                                        }
                                },
                                _ => false,
                            }
                    },
                    _ => false,
                },
                _ => false,
            }
        ),
{
    reveal(is_gadri_sumti_contents_selbri);
    reveal(is_quantifier);
    reveal(is_selbri);
    reveal(is_relative_clauses);
}

/// Whether `node` is the node that `GadriSumtiContentsSumti` makes of the tokens at `pos`.
#[verifier::opaque]
pub closed spec fn is_gadri_sumti_contents_sumti<'arena>(
    node: GadriSumtiContents<'arena>,
    toks: Seq<Token>,
    pos: nat,
) -> bool
    decreases rest(toks, pos), 45nat,
{
    match node {
        GadriSumtiContents::Sumti(field_0, field_1) => match spec_quantifier(toks, pos) {
            Outcome::Matched(n1) => {
                &&& is_quantifier(field_0, toks, pos)
                &&& match spec_sumti(toks, pos + n1) {
                        Outcome::Matched(_) => is_sumti(field_1, toks, pos + n1),
                        _ => false,
                    }
            },
            _ => false,
        },
        _ => false,
    }
}

/// What [`is_gadri_sumti_contents_sumti`] says.
pub proof fn lemma_is_gadri_sumti_contents_sumti<'arena>(
    node: GadriSumtiContents<'arena>,
    toks: Seq<Token>,
    pos: nat,
)
    ensures
        is_gadri_sumti_contents_sumti(node, toks, pos) == (
            match node {
                GadriSumtiContents::Sumti(field_0, field_1) => match spec_quantifier(toks, pos) {
                    Outcome::Matched(n1) => {
                        &&& is_quantifier(field_0, toks, pos)
                        &&& match spec_sumti(toks, pos + n1) {
                                Outcome::Matched(_) => is_sumti(field_1, toks, pos + n1),
                                _ => false,
                            }
                    },
                    _ => false,
                },
                _ => false,
            }
        ),
{
    reveal(is_gadri_sumti_contents_sumti);
    reveal(is_quantifier);
    reveal(is_sumti);
}

/// Whether `node` is the node that `SumtiComponent1La` makes of the tokens at `pos`.
#[verifier::opaque]
pub closed spec fn is_sumti_component_1_la<'arena>(
    node: SumtiComponent1<'arena>,
    toks: Seq<Token>,
    pos: nat,
) -> bool
    decreases rest(toks, pos), 5nat,
{
    match node {
        SumtiComponent1::La(field_0) => match spec_la_sumti(toks, pos) {
            Outcome::Matched(_) => is_la_sumti(field_0, toks, pos),
            _ => false,
        },
        _ => false,
    }
}

/// What [`is_sumti_component_1_la`] says.
pub proof fn lemma_is_sumti_component_1_la<'arena>(
    node: SumtiComponent1<'arena>,
    toks: Seq<Token>,
    pos: nat,
)
    ensures
        is_sumti_component_1_la(node, toks, pos) == (
            match node {
                SumtiComponent1::La(field_0) => match spec_la_sumti(toks, pos) {
                    Outcome::Matched(_) => is_la_sumti(field_0, toks, pos),
                    _ => false,
                },
                _ => false,
            }
        ),
{
    reveal(is_sumti_component_1_la);
    reveal(is_la_sumti);
}

/// Whether `node` is the node that `LaSumti` makes of the tokens at `pos`.
#[verifier::opaque]
pub closed spec fn is_la_sumti<'arena>(node: LaSumti<'arena>, toks: Seq<Token>, pos: nat) -> bool
    decreases rest(toks, pos), 4nat,
{
    match spec_word(toks, pos, Selmaho::La) {
        Outcome::Matched(n1) => {
            &&& is_word(node.la, toks, pos, Selmaho::La)
            &&& match spec_many1_word(toks, pos + n1, Selmaho::Cmevla) {
                    Outcome::Matched(_) => is_row_of_word(
                        node.inner@,
                        toks,
                        pos + n1,
                        Selmaho::Cmevla,
                    ),
                    _ => false,
                }
        },
        _ => false,
    }
}

/// What [`is_la_sumti`] says.
pub proof fn lemma_is_la_sumti<'arena>(node: LaSumti<'arena>, toks: Seq<Token>, pos: nat)
    ensures
        is_la_sumti(node, toks, pos) == (
            match spec_word(toks, pos, Selmaho::La) {
                Outcome::Matched(n1) => {
                    &&& is_word(node.la, toks, pos, Selmaho::La)
                    &&& match spec_many1_word(toks, pos + n1, Selmaho::Cmevla) {
                            Outcome::Matched(_) => is_row_of_word(
                                node.inner@,
                                toks,
                                pos + n1,
                                Selmaho::Cmevla,
                            ),
                            _ => false,
                        }
                },
                _ => false,
            }
        ),
{
    reveal(is_la_sumti);
    reveal(is_word);
    reveal(is_row_of_word);
}

/// Whether `node` is the node that `SumtiComponent1Lohu` makes of the tokens at `pos`.
#[verifier::opaque]
pub closed spec fn is_sumti_component_1_lohu<'arena>(
    node: SumtiComponent1<'arena>,
    toks: Seq<Token>,
    pos: nat,
) -> bool
    decreases rest(toks, pos), 5nat,
{
    match node {
        SumtiComponent1::Lohu(field_0) => match spec_lohu_sumti(toks, pos) {
            Outcome::Matched(_) => is_lohu_sumti(field_0, toks, pos),
            _ => false,
        },
        _ => false,
    }
}

/// What [`is_sumti_component_1_lohu`] says.
pub proof fn lemma_is_sumti_component_1_lohu<'arena>(
    node: SumtiComponent1<'arena>,
    toks: Seq<Token>,
    pos: nat,
)
    ensures
        is_sumti_component_1_lohu(node, toks, pos) == (
            match node {
                SumtiComponent1::Lohu(field_0) => match spec_lohu_sumti(toks, pos) {
                    Outcome::Matched(_) => is_lohu_sumti(field_0, toks, pos),
                    _ => false,
                },
                _ => false,
            }
        ),
{
    reveal(is_sumti_component_1_lohu);
    reveal(is_lohu_sumti);
}

/// Whether `node` is the node that `LohuSumti` makes of the tokens at `pos`.
#[verifier::opaque]
pub closed spec fn is_lohu_sumti<'arena>(
    node: LohuSumti<'arena>,
    toks: Seq<Token>,
    pos: nat,
) -> bool
    decreases rest(toks, pos), 4nat,
{
    match spec_raw(toks, pos, Selmaho::Lohu) {
        Outcome::Matched(n1) => {
            &&& is_raw(node.lohu, toks, pos, Selmaho::Lohu)
            &&& match spec_cut(spec_quoted_words(toks, pos + n1)) {
                    Outcome::Matched(_) => is_quoted_words(
                        (node.inner, node.lehu),
                        toks,
                        pos + n1,
                    ),
                    _ => false,
                }
        },
        _ => false,
    }
}

/// What [`is_lohu_sumti`] says.
pub proof fn lemma_is_lohu_sumti<'arena>(node: LohuSumti<'arena>, toks: Seq<Token>, pos: nat)
    ensures
        is_lohu_sumti(node, toks, pos) == (
            match spec_raw(toks, pos, Selmaho::Lohu) {
                Outcome::Matched(n1) => {
                    &&& is_raw(node.lohu, toks, pos, Selmaho::Lohu)
                    &&& match spec_cut(spec_quoted_words(toks, pos + n1)) {
                            Outcome::Matched(_) => is_quoted_words(
                                (node.inner, node.lehu),
                                toks,
                                pos + n1,
                            ),
                            _ => false,
                        }
                },
                _ => false,
            }
        ),
{
    reveal(is_lohu_sumti);
    reveal(is_raw);
    reveal(is_quoted_words);
}

/// Whether `node` is the node that `SumtiComponent1Lu` makes of the tokens at `pos`.
#[verifier::opaque]
pub closed spec fn is_sumti_component_1_lu<'arena>(
    node: SumtiComponent1<'arena>,
    toks: Seq<Token>,
    pos: nat,
) -> bool
    decreases rest(toks, pos), 4nat,
{
    match node {
        SumtiComponent1::Lu(field_0) => match spec_lu_sumti(toks, pos) {
            Outcome::Matched(_) => is_lu_sumti(field_0, toks, pos),
            _ => false,
        },
        _ => false,
    }
}

/// What [`is_sumti_component_1_lu`] says.
pub proof fn lemma_is_sumti_component_1_lu<'arena>(
    node: SumtiComponent1<'arena>,
    toks: Seq<Token>,
    pos: nat,
)
    ensures
        is_sumti_component_1_lu(node, toks, pos) == (
            match node {
                SumtiComponent1::Lu(field_0) => match spec_lu_sumti(toks, pos) {
                    Outcome::Matched(_) => is_lu_sumti(field_0, toks, pos),
                    _ => false,
                },
                _ => false,
            }
        ),
{
    reveal(is_sumti_component_1_lu);
    reveal(is_lu_sumti);
}

/// Whether `node` is the node that `LuSumti` makes of the tokens at `pos`.
#[verifier::opaque]
pub closed spec fn is_lu_sumti<'arena>(node: LuSumti<'arena>, toks: Seq<Token>, pos: nat) -> bool
    decreases rest(toks, pos), 3nat,
{
    match spec_raw(toks, pos, Selmaho::Lu) {
        Outcome::Matched(n1) => {
            &&& is_raw(node.lu, toks, pos, Selmaho::Lu)
            &&& match spec_text(toks, pos + n1) {
                    Outcome::Matched(n2) => {
                        &&& advanced(toks, pos, n1)
                        &&& is_text(node.text, toks, pos + n1)
                        &&& match spec_opt(spec_word(toks, pos + n1 + n2, Selmaho::Lihu)) {
                                Outcome::Matched(_) => {
                                    &&& (match node.lihu {
                                            Some(inner) => {
                                                &&& spec_word(
                                                    toks,
                                                    pos + n1 + n2,
                                                    Selmaho::Lihu,
                                                ) is Matched
                                                &&& is_word(
                                                    inner,
                                                    toks,
                                                    pos + n1 + n2,
                                                    Selmaho::Lihu,
                                                )
                                            },
                                            None => spec_word(
                                                toks,
                                                pos + n1 + n2,
                                                Selmaho::Lihu,
                                            ) is Error,
                                        })
                                },
                                _ => false,
                            }
                    },
                    _ => false,
                }
        },
        _ => false,
    }
}

/// What [`is_lu_sumti`] says.
pub proof fn lemma_is_lu_sumti<'arena>(node: LuSumti<'arena>, toks: Seq<Token>, pos: nat)
    ensures
        is_lu_sumti(node, toks, pos) == (
            match spec_raw(toks, pos, Selmaho::Lu) {
                Outcome::Matched(n1) => {
                    &&& is_raw(node.lu, toks, pos, Selmaho::Lu)
                    &&& match spec_text(toks, pos + n1) {
                            Outcome::Matched(n2) => {
                                &&& advanced(toks, pos, n1)
                                &&& is_text(node.text, toks, pos + n1)
                                &&& match spec_opt(
                                    spec_word(toks, pos + n1 + n2, Selmaho::Lihu),
                                ) {
                                        Outcome::Matched(_) => {
                                            &&& (match node.lihu {
                                                    Some(inner) => {
                                                        &&& spec_word(
                                                            toks,
                                                            pos + n1 + n2,
                                                            Selmaho::Lihu,
                                                        ) is Matched
                                                        &&& is_word(
                                                            inner,
                                                            toks,
                                                            pos + n1 + n2,
                                                            Selmaho::Lihu,
                                                        )
                                                    },
                                                    None => spec_word(
                                                        toks,
                                                        pos + n1 + n2,
                                                        Selmaho::Lihu,
                                                    ) is Error,
                                                })
                                        },
                                        _ => false,
                                    }
                            },
                            _ => false,
                        }
                },
                _ => false,
            }
        ),
{
    reveal(is_lu_sumti);
    reveal(is_raw);
    reveal(is_text);
    reveal(is_word);
}

/// Whether `node` is the node that `SumtiComponent1Modified` makes of the tokens at `pos`.
#[verifier::opaque]
pub closed spec fn is_sumti_component_1_modified<'arena>(
    node: SumtiComponent1<'arena>,
    toks: Seq<Token>,
    pos: nat,
) -> bool
    decreases rest(toks, pos), 27nat,
{
    match node {
        SumtiComponent1::Modified(field_0) => match spec_modified_sumti(toks, pos) {
            Outcome::Matched(_) => is_modified_sumti(field_0, toks, pos),
            _ => false,
        },
        _ => false,
    }
}

/// What [`is_sumti_component_1_modified`] says.
pub proof fn lemma_is_sumti_component_1_modified<'arena>(
    node: SumtiComponent1<'arena>,
    toks: Seq<Token>,
    pos: nat,
)
    ensures
        is_sumti_component_1_modified(node, toks, pos) == (
            match node {
                SumtiComponent1::Modified(field_0) => match spec_modified_sumti(toks, pos) {
                    Outcome::Matched(_) => is_modified_sumti(field_0, toks, pos),
                    _ => false,
                },
                _ => false,
            }
        ),
{
    reveal(is_sumti_component_1_modified);
    reveal(is_modified_sumti);
}

/// Whether `node` is the node that `ModifiedSumti` makes of the tokens at `pos`.
#[verifier::opaque]
pub closed spec fn is_modified_sumti<'arena>(
    node: ModifiedSumti<'arena>,
    toks: Seq<Token>,
    pos: nat,
) -> bool
    decreases rest(toks, pos), 26nat,
{
    match spec_sumti_modifier_with_free(toks, pos) {
        Outcome::Matched(n1) => {
            &&& is_sumti_modifier_with_free(node.modifier, toks, pos)
            &&& match spec_opt(spec_relative_clauses(toks, pos + n1)) {
                    Outcome::Matched(n2) => {
                        &&& (match node.relative_clauses {
                                Some(inner) => {
                                    &&& spec_relative_clauses(toks, pos + n1) is Matched
                                    &&& is_relative_clauses(inner, toks, pos + n1)
                                },
                                None => spec_relative_clauses(toks, pos + n1) is Error,
                            })
                        &&& match spec_sumti(toks, pos + n1 + n2) {
                                Outcome::Matched(n3) => {
                                    &&& advanced(toks, pos, n1 + n2)
                                    &&& is_sumti(node.sumti, toks, pos + n1 + n2)
                                    &&& match spec_opt(
                                        spec_word(toks, pos + n1 + n2 + n3, Selmaho::Luhu),
                                    ) {
                                            Outcome::Matched(_) => {
                                                &&& (match node.luhu {
                                                        Some(inner) => {
                                                            &&& spec_word(
                                                                toks,
                                                                pos + n1 + n2 + n3,
                                                                Selmaho::Luhu,
                                                            ) is Matched
                                                            &&& is_word(
                                                                inner,
                                                                toks,
                                                                pos + n1 + n2 + n3,
                                                                Selmaho::Luhu,
                                                            )
                                                        },
                                                        None => spec_word(
                                                            toks,
                                                            pos + n1 + n2 + n3,
                                                            Selmaho::Luhu,
                                                        ) is Error,
                                                    })
                                            },
                                            _ => false,
                                        }
                                },
                                _ => false,
                            }
                    },
                    _ => false,
                }
        },
        _ => false,
    }
}

/// What [`is_modified_sumti`] says.
pub proof fn lemma_is_modified_sumti<'arena>(
    node: ModifiedSumti<'arena>,
    toks: Seq<Token>,
    pos: nat,
)
    ensures
        is_modified_sumti(node, toks, pos) == (
            match spec_sumti_modifier_with_free(toks, pos) {
                Outcome::Matched(n1) => {
                    &&& is_sumti_modifier_with_free(node.modifier, toks, pos)
                    &&& match spec_opt(spec_relative_clauses(toks, pos + n1)) {
                            Outcome::Matched(n2) => {
                                &&& (match node.relative_clauses {
                                        Some(inner) => {
                                            &&& spec_relative_clauses(toks, pos + n1) is Matched
                                            &&& is_relative_clauses(inner, toks, pos + n1)
                                        },
                                        None => spec_relative_clauses(toks, pos + n1) is Error,
                                    })
                                &&& match spec_sumti(toks, pos + n1 + n2) {
                                        Outcome::Matched(n3) => {
                                            &&& advanced(toks, pos, n1 + n2)
                                            &&& is_sumti(node.sumti, toks, pos + n1 + n2)
                                            &&& match spec_opt(
                                                spec_word(
                                                    toks,
                                                    pos + n1 + n2 + n3,
                                                    Selmaho::Luhu,
                                                ),
                                            ) {
                                                    Outcome::Matched(_) => {
                                                        &&& (match node.luhu {
                                                                Some(inner) => {
                                                                    &&& spec_word(
                                                                        toks,
                                                                        pos + n1 + n2 + n3,
                                                                        Selmaho::Luhu,
                                                                    ) is Matched
                                                                    &&& is_word(
                                                                        inner,
                                                                        toks,
                                                                        pos + n1 + n2 + n3,
                                                                        Selmaho::Luhu,
                                                                    )
                                                                },
                                                                None => spec_word(
                                                                    toks,
                                                                    pos + n1 + n2 + n3,
                                                                    Selmaho::Luhu,
                                                                ) is Error,
                                                            })
                                                    },
                                                    _ => false,
                                                }
                                        },
                                        _ => false,
                                    }
                            },
                            _ => false,
                        }
                },
                _ => false,
            }
        ),
{
    reveal(is_modified_sumti);
    reveal(is_sumti_modifier_with_free);
    reveal(is_relative_clauses);
    reveal(is_sumti);
    reveal(is_word);
}

/// Whether `node` is the node that `SumtiModifierWithFree` makes of the tokens at `pos`.
#[verifier::opaque]
pub closed spec fn is_sumti_modifier_with_free<'arena>(
    node: WithFree<'arena, SumtiModifier<'arena>>,
    toks: Seq<Token>,
    pos: nat,
) -> bool
    decreases rest(toks, pos), 25nat,
{
    match spec_sumti_modifier(toks, pos) {
        Outcome::Matched(n1) => {
            &&& is_sumti_modifier(node.inner, toks, pos)
            &&& match spec_frees(toks, pos + n1) {
                    Outcome::Matched(_) => is_frees(node.frees, toks, pos + n1),
                    _ => false,
                }
        },
        _ => false,
    }
}

/// What [`is_sumti_modifier_with_free`] says.
pub proof fn lemma_is_sumti_modifier_with_free<'arena>(
    node: WithFree<'arena, SumtiModifier<'arena>>,
    toks: Seq<Token>,
    pos: nat,
)
    ensures
        is_sumti_modifier_with_free(node, toks, pos) == (
            match spec_sumti_modifier(toks, pos) {
                Outcome::Matched(n1) => {
                    &&& is_sumti_modifier(node.inner, toks, pos)
                    &&& match spec_frees(toks, pos + n1) {
                            Outcome::Matched(_) => is_frees(node.frees, toks, pos + n1),
                            _ => false,
                        }
                },
                _ => false,
            }
        ),
{
    reveal(is_sumti_modifier_with_free);
    reveal(is_sumti_modifier);
    reveal(is_frees);
}

/// Whether `node` is the node that `SumtiComponent1LerfuString` makes of the tokens at `pos`.
#[verifier::opaque]
pub closed spec fn is_sumti_component_1_lerfu_string<'arena>(
    node: SumtiComponent1<'arena>,
    toks: Seq<Token>,
    pos: nat,
) -> bool
    decreases rest(toks, pos), 17nat,
{
    match node {
        SumtiComponent1::LerfuString(field_0, field_1) => match spec_lerfu_string(toks, pos) {
            Outcome::Matched(n1) => {
                &&& is_lerfu_string(field_0, toks, pos)
                &&& match spec_opt(spec_word(toks, pos + n1, Selmaho::Boi)) {
                        Outcome::Matched(_) => {
                            &&& (match field_1 {
                                    Some(inner) => {
                                        &&& spec_word(toks, pos + n1, Selmaho::Boi) is Matched
                                        &&& is_word(inner, toks, pos + n1, Selmaho::Boi)
                                    },
                                    None => spec_word(toks, pos + n1, Selmaho::Boi) is Error,
                                })
                        },
                        _ => false,
                    }
            },
            _ => false,
        },
        _ => false,
    }
}

/// What [`is_sumti_component_1_lerfu_string`] says.
pub proof fn lemma_is_sumti_component_1_lerfu_string<'arena>(
    node: SumtiComponent1<'arena>,
    toks: Seq<Token>,
    pos: nat,
)
    ensures
        is_sumti_component_1_lerfu_string(node, toks, pos) == (
            match node {
                SumtiComponent1::LerfuString(
                    field_0,
                    field_1,
                ) => match spec_lerfu_string(toks, pos) {
                    Outcome::Matched(n1) => {
                        &&& is_lerfu_string(field_0, toks, pos)
                        &&& match spec_opt(spec_word(toks, pos + n1, Selmaho::Boi)) {
                                Outcome::Matched(_) => {
                                    &&& (match field_1 {
                                            Some(inner) => {
                                                &&& spec_word(
                                                    toks,
                                                    pos + n1,
                                                    Selmaho::Boi,
                                                ) is Matched
                                                &&& is_word(inner, toks, pos + n1, Selmaho::Boi)
                                            },
                                            None => spec_word(
                                                toks,
                                                pos + n1,
                                                Selmaho::Boi,
                                            ) is Error,
                                        })
                                },
                                _ => false,
                            }
                    },
                    _ => false,
                },
                _ => false,
            }
        ),
{
    reveal(is_sumti_component_1_lerfu_string);
    reveal(is_lerfu_string);
    reveal(is_word);
}

/// Whether `node` is the node that `SumtiComponent1Zo` makes of the tokens at `pos`.
#[verifier::opaque]
pub closed spec fn is_sumti_component_1_zo<'arena>(
    node: SumtiComponent1<'arena>,
    toks: Seq<Token>,
    pos: nat,
) -> bool
    decreases rest(toks, pos), 2nat,
{
    match node {
        SumtiComponent1::Zo(field_0) => match spec_zo_sumti(toks, pos) {
            Outcome::Matched(_) => is_zo_sumti(field_0, toks, pos),
            _ => false,
        },
        _ => false,
    }
}

/// What [`is_sumti_component_1_zo`] says.
pub proof fn lemma_is_sumti_component_1_zo<'arena>(
    node: SumtiComponent1<'arena>,
    toks: Seq<Token>,
    pos: nat,
)
    ensures
        is_sumti_component_1_zo(node, toks, pos) == (
            match node {
                SumtiComponent1::Zo(field_0) => match spec_zo_sumti(toks, pos) {
                    Outcome::Matched(_) => is_zo_sumti(field_0, toks, pos),
                    _ => false,
                },
                _ => false,
            }
        ),
{
    reveal(is_sumti_component_1_zo);
    reveal(is_zo_sumti);
}

/// Whether `node` is the node that `ZoSumti` makes of the tokens at `pos`.
#[verifier::opaque]
pub closed spec fn is_zo_sumti(node: ZoSumti, toks: Seq<Token>, pos: nat) -> bool
    decreases rest(toks, pos), 1nat,
{
    match spec_raw(toks, pos, Selmaho::Zo) {
        Outcome::Matched(n1) => {
            &&& is_raw(node.zo, toks, pos, Selmaho::Zo)
            &&& match spec_token(toks, pos + n1) {
                    Outcome::Matched(_) => node.quoted == toks[(pos + n1) as int],
                    _ => false,
                }
        },
        _ => false,
    }
}

/// What [`is_zo_sumti`] says.
pub proof fn lemma_is_zo_sumti(node: ZoSumti, toks: Seq<Token>, pos: nat)
    ensures
        is_zo_sumti(node, toks, pos) == (
            match spec_raw(toks, pos, Selmaho::Zo) {
                Outcome::Matched(n1) => {
                    &&& is_raw(node.zo, toks, pos, Selmaho::Zo)
                    &&& match spec_token(toks, pos + n1) {
                            Outcome::Matched(_) => node.quoted == toks[(pos + n1) as int],
                            _ => false,
                        }
                },
                _ => false,
            }
        ),
{
    reveal(is_zo_sumti);
    reveal(is_raw);
}

/// Whether `node` is the node that `SumtiComponent1Zoi` makes of the tokens at `pos`.
#[verifier::opaque]
pub closed spec fn is_sumti_component_1_zoi<'arena>(
    node: SumtiComponent1<'arena>,
    toks: Seq<Token>,
    pos: nat,
) -> bool
    decreases rest(toks, pos), 2nat,
{
    match node {
        SumtiComponent1::Zoi(field_0) => match spec_zoi_sumti(toks, pos) {
            Outcome::Matched(_) => is_zoi_sumti(field_0, toks, pos),
            _ => false,
        },
        _ => false,
    }
}

/// What [`is_sumti_component_1_zoi`] says.
pub proof fn lemma_is_sumti_component_1_zoi<'arena>(
    node: SumtiComponent1<'arena>,
    toks: Seq<Token>,
    pos: nat,
)
    ensures
        is_sumti_component_1_zoi(node, toks, pos) == (
            match node {
                SumtiComponent1::Zoi(field_0) => match spec_zoi_sumti(toks, pos) {
                    Outcome::Matched(_) => is_zoi_sumti(field_0, toks, pos),
                    _ => false,
                },
                _ => false,
            }
        ),
{
    reveal(is_sumti_component_1_zoi);
    reveal(is_zoi_sumti);
}

/// Whether `node` is the node that `ZoiSumti` makes of the tokens at `pos`.
#[verifier::opaque]
pub closed spec fn is_zoi_sumti(node: ZoiSumti, toks: Seq<Token>, pos: nat) -> bool
    decreases rest(toks, pos), 1nat,
{
    match spec_raw(toks, pos, Selmaho::Zoi) {
        Outcome::Matched(n1) => {
            &&& is_raw(node.zoi, toks, pos, Selmaho::Zoi)
            &&& match spec_zoi_delimiter(toks, pos + n1) {
                    Outcome::Matched(n2) => {
                        &&& is_zoi_delimiter(node.starting_delimiter, toks, pos + n1)
                        &&& match spec_zoi_text(toks, pos + n1 + n2) {
                                Outcome::Matched(n3) => {
                                    &&& is_zoi_text(node.text, toks, pos + n1 + n2)
                                    &&& match spec_zoi_delimiter(toks, pos + n1 + n2 + n3) {
                                            Outcome::Matched(_) => is_zoi_delimiter(
                                                node.ending_delimiter,
                                                toks,
                                                pos + n1 + n2 + n3,
                                            ),
                                            _ => false,
                                        }
                                },
                                _ => false,
                            }
                    },
                    _ => false,
                }
        },
        _ => false,
    }
}

/// What [`is_zoi_sumti`] says.
pub proof fn lemma_is_zoi_sumti(node: ZoiSumti, toks: Seq<Token>, pos: nat)
    ensures
        is_zoi_sumti(node, toks, pos) == (
            match spec_raw(toks, pos, Selmaho::Zoi) {
                Outcome::Matched(n1) => {
                    &&& is_raw(node.zoi, toks, pos, Selmaho::Zoi)
                    &&& match spec_zoi_delimiter(toks, pos + n1) {
                            Outcome::Matched(n2) => {
                                &&& is_zoi_delimiter(node.starting_delimiter, toks, pos + n1)
                                &&& match spec_zoi_text(toks, pos + n1 + n2) {
                                        Outcome::Matched(n3) => {
                                            &&& is_zoi_text(node.text, toks, pos + n1 + n2)
                                            &&& match spec_zoi_delimiter(
                                                toks,
                                                pos + n1 + n2 + n3,
                                            ) {
                                                    Outcome::Matched(_) => is_zoi_delimiter(
                                                        node.ending_delimiter,
                                                        toks,
                                                        pos + n1 + n2 + n3,
                                                    ),
                                                    _ => false,
                                                }
                                        },
                                        _ => false,
                                    }
                            },
                            _ => false,
                        }
                },
                _ => false,
            }
        ),
{
    reveal(is_zoi_sumti);
    reveal(is_raw);
    reveal(is_zoi_delimiter);
    reveal(is_zoi_text);
}

/// Whether `node` is the node that `ZoiDelimiter` makes of the tokens at `pos`.
#[verifier::opaque]
pub closed spec fn is_zoi_delimiter(node: ZoiDelimiter, toks: Seq<Token>, pos: nat) -> bool
    decreases rest(toks, pos), 0nat,
{
    match spec_token(toks, pos) {
        Outcome::Matched(_) => node.0 == toks[pos as int].span,
        _ => false,
    }
}

/// What [`is_zoi_delimiter`] says.
pub proof fn lemma_is_zoi_delimiter(node: ZoiDelimiter, toks: Seq<Token>, pos: nat)
    ensures
        is_zoi_delimiter(node, toks, pos) == (
            match spec_token(toks, pos) {
                Outcome::Matched(_) => node.0 == toks[pos as int].span,
                _ => false,
            }
        ),
{
    reveal(is_zoi_delimiter);
}

/// Whether `node` is the node that `ZoiText` makes of the tokens at `pos`.
#[verifier::opaque]
pub closed spec fn is_zoi_text(node: ZoiText, toks: Seq<Token>, pos: nat) -> bool
    decreases rest(toks, pos), 0nat,
{
    match spec_token(toks, pos) {
        Outcome::Matched(_) => node.0 == toks[pos as int].span,
        _ => false,
    }
}

/// What [`is_zoi_text`] says.
pub proof fn lemma_is_zoi_text(node: ZoiText, toks: Seq<Token>, pos: nat)
    ensures
        is_zoi_text(node, toks, pos) == (
            match spec_token(toks, pos) {
                Outcome::Matched(_) => node.0 == toks[pos as int].span,
                _ => false,
            }
        ),
{
    reveal(is_zoi_text);
}

/// Whether `node` is the node that `SumtiComponent1Li` makes of the tokens at `pos`.
#[verifier::opaque]
pub closed spec fn is_sumti_component_1_li<'arena>(
    node: SumtiComponent1<'arena>,
    toks: Seq<Token>,
    pos: nat,
) -> bool
    decreases rest(toks, pos), 4nat,
{
    match node {
        SumtiComponent1::Li(
            field_0,
            field_1,
            field_2,
        ) => match spec_word_with_free(toks, pos, Selmaho::Li) {
            Outcome::Matched(n1) => {
                &&& is_word_with_free(field_0, toks, pos, Selmaho::Li)
                &&& match spec_expression(toks, pos + n1) {
                        Outcome::Matched(n2) => {
                            &&& advanced(toks, pos, n1)
                            &&& is_expression(field_1, toks, pos + n1)
                            &&& match spec_opt(spec_word(toks, pos + n1 + n2, Selmaho::Loho)) {
                                    Outcome::Matched(_) => {
                                        &&& (match field_2 {
                                                Some(inner) => {
                                                    &&& spec_word(
                                                        toks,
                                                        pos + n1 + n2,
                                                        Selmaho::Loho,
                                                    ) is Matched
                                                    &&& is_word(
                                                        inner,
                                                        toks,
                                                        pos + n1 + n2,
                                                        Selmaho::Loho,
                                                    )
                                                },
                                                None => spec_word(
                                                    toks,
                                                    pos + n1 + n2,
                                                    Selmaho::Loho,
                                                ) is Error,
                                            })
                                    },
                                    _ => false,
                                }
                        },
                        _ => false,
                    }
            },
            _ => false,
        },
        _ => false,
    }
}

/// What [`is_sumti_component_1_li`] says.
pub proof fn lemma_is_sumti_component_1_li<'arena>(
    node: SumtiComponent1<'arena>,
    toks: Seq<Token>,
    pos: nat,
)
    ensures
        is_sumti_component_1_li(node, toks, pos) == (
            match node {
                SumtiComponent1::Li(
                    field_0,
                    field_1,
                    field_2,
                ) => match spec_word_with_free(toks, pos, Selmaho::Li) {
                    Outcome::Matched(n1) => {
                        &&& is_word_with_free(field_0, toks, pos, Selmaho::Li)
                        &&& match spec_expression(toks, pos + n1) {
                                Outcome::Matched(n2) => {
                                    &&& advanced(toks, pos, n1)
                                    &&& is_expression(field_1, toks, pos + n1)
                                    &&& match spec_opt(
                                        spec_word(toks, pos + n1 + n2, Selmaho::Loho),
                                    ) {
                                            Outcome::Matched(_) => {
                                                &&& (match field_2 {
                                                        Some(inner) => {
                                                            &&& spec_word(
                                                                toks,
                                                                pos + n1 + n2,
                                                                Selmaho::Loho,
                                                            ) is Matched
                                                            &&& is_word(
                                                                inner,
                                                                toks,
                                                                pos + n1 + n2,
                                                                Selmaho::Loho,
                                                            )
                                                        },
                                                        None => spec_word(
                                                            toks,
                                                            pos + n1 + n2,
                                                            Selmaho::Loho,
                                                        ) is Error,
                                                    })
                                            },
                                            _ => false,
                                        }
                                },
                                _ => false,
                            }
                    },
                    _ => false,
                },
                _ => false,
            }
        ),
{
    reveal(is_sumti_component_1_li);
    reveal(is_word_with_free);
    reveal(is_expression);
    reveal(is_word);
}

/// Whether `node` is the node that `Sumti4SelbriShorthand` makes of the tokens at `pos`.
#[verifier::opaque]
pub closed spec fn is_sumti_4_selbri_shorthand<'arena>(
    node: Sumti4<'arena>,
    toks: Seq<Token>,
    pos: nat,
) -> bool
    decreases rest(toks, pos), 27nat,
{
    match node {
        Sumti4::SelbriShorthand { quantifier, inner, ku, frees, relative_clauses } => match spec_quantifier(
            toks,
            pos,
        ) {
            Outcome::Matched(n1) => {
                &&& is_quantifier(quantifier, toks, pos)
                &&& match spec_selbri(toks, pos + n1) {
                        Outcome::Matched(n2) => {
                            &&& advanced(toks, pos, n1)
                            &&& is_selbri(inner, toks, pos + n1)
                            &&& match spec_opt(spec_word(toks, pos + n1 + n2, Selmaho::Ku)) {
                                    Outcome::Matched(n3) => {
                                        &&& (match ku {
                                                Some(inner) => {
                                                    &&& spec_word(
                                                        toks,
                                                        pos + n1 + n2,
                                                        Selmaho::Ku,
                                                    ) is Matched
                                                    &&& is_word(
                                                        inner,
                                                        toks,
                                                        pos + n1 + n2,
                                                        Selmaho::Ku,
                                                    )
                                                },
                                                None => spec_word(
                                                    toks,
                                                    pos + n1 + n2,
                                                    Selmaho::Ku,
                                                ) is Error,
                                            })
                                        &&& match spec_frees(toks, pos + n1 + n2 + n3) {
                                                Outcome::Matched(n4) => {
                                                    &&& is_frees(frees, toks, pos + n1 + n2 + n3)
                                                    &&& match spec_opt(
                                                        spec_relative_clauses(
                                                            toks,
                                                            pos + n1 + n2 + n3 + n4,
                                                        ),
                                                    ) {
                                                            Outcome::Matched(_) => {
                                                                &&& (match relative_clauses {
                                                                        Some(inner) => {
                                                                            &&& spec_relative_clauses(
                                                                                toks,
                                                                                pos + n1 + n2 + n3 + n4,
                                                                            ) is Matched
                                                                            &&& is_relative_clauses(
                                                                                inner,
                                                                                toks,
                                                                                pos + n1 + n2 + n3 + n4,
                                                                            )
                                                                        },
                                                                        None => spec_relative_clauses(
                                                                            toks,
                                                                            pos + n1 + n2 + n3 + n4,
                                                                        ) is Error,
                                                                    })
                                                            },
                                                            _ => false,
                                                        }
                                                },
                                                _ => false,
                                            }
                                    },
                                    _ => false,
                                }
                        },
                        _ => false,
                    }
            },
            _ => false,
        },
        _ => false,
    }
}

/// What [`is_sumti_4_selbri_shorthand`] says.
pub proof fn lemma_is_sumti_4_selbri_shorthand<'arena>(
    node: Sumti4<'arena>,
    toks: Seq<Token>,
    pos: nat,
)
    ensures
        is_sumti_4_selbri_shorthand(node, toks, pos) == (
            match node {
                Sumti4::SelbriShorthand { quantifier, inner, ku, frees, relative_clauses } => match spec_quantifier(
                    toks,
                    pos,
                ) {
                    Outcome::Matched(n1) => {
                        &&& is_quantifier(quantifier, toks, pos)
                        &&& match spec_selbri(toks, pos + n1) {
                                Outcome::Matched(n2) => {
                                    &&& advanced(toks, pos, n1)
                                    &&& is_selbri(inner, toks, pos + n1)
                                    &&& match spec_opt(
                                        spec_word(toks, pos + n1 + n2, Selmaho::Ku),
                                    ) {
                                            Outcome::Matched(n3) => {
                                                &&& (match ku {
                                                        Some(inner) => {
                                                            &&& spec_word(
                                                                toks,
                                                                pos + n1 + n2,
                                                                Selmaho::Ku,
                                                            ) is Matched
                                                            &&& is_word(
                                                                inner,
                                                                toks,
                                                                pos + n1 + n2,
                                                                Selmaho::Ku,
                                                            )
                                                        },
                                                        None => spec_word(
                                                            toks,
                                                            pos + n1 + n2,
                                                            Selmaho::Ku,
                                                        ) is Error,
                                                    })
                                                &&& match spec_frees(toks, pos + n1 + n2 + n3) {
                                                        Outcome::Matched(n4) => {
                                                            &&& is_frees(
                                                                frees,
                                                                toks,
                                                                pos + n1 + n2 + n3,
                                                            )
                                                            &&& match spec_opt(
                                                                spec_relative_clauses(
                                                                    toks,
                                                                    pos + n1 + n2 + n3 + n4,
                                                                ),
                                                            ) {
                                                                    Outcome::Matched(_) => {
                                                                        &&& (match relative_clauses {
                                                                                Some(inner) => {
                                                                                    &&& spec_relative_clauses(
                                                                                        toks,
                                                                                        pos + n1 + n2 + n3 + n4,
                                                                                    ) is Matched
                                                                                    &&& is_relative_clauses(
                                                                                        inner,
                                                                                        toks,
                                                                                        pos + n1 + n2 + n3 + n4,
                                                                                    )
                                                                                },
                                                                                None => spec_relative_clauses(
                                                                                    toks,
                                                                                    pos + n1 + n2 + n3 + n4,
                                                                                ) is Error,
                                                                            })
                                                                    },
                                                                    _ => false,
                                                                }
                                                        },
                                                        _ => false,
                                                    }
                                            },
                                            _ => false,
                                        }
                                },
                                _ => false,
                            }
                    },
                    _ => false,
                },
                _ => false,
            }
        ),
{
    reveal(is_sumti_4_selbri_shorthand);
    reveal(is_quantifier);
    reveal(is_selbri);
    reveal(is_word);
    reveal(is_frees);
    reveal(is_relative_clauses);
}

/// Whether `node` is the node that `Sumti2Next` makes of the tokens at `pos`.
#[verifier::opaque]
pub closed spec fn is_sumti_2_next<'arena>(
    node: ((JoikEk<'arena>, Option<TagWords<'arena>>, Word<'arena>, Frees<'arena>), Sumti3<'arena>),
    toks: Seq<Token>,
    pos: nat,
) -> bool
    decreases rest(toks, pos), 37nat,
{
    match spec_joik_ek_bo(toks, pos) {
        Outcome::Matched(n1) => {
            &&& is_joik_ek_bo(node.0, toks, pos)
            &&& match spec_sumti_3(toks, pos + n1) {
                    Outcome::Matched(_) => is_sumti_3(node.1, toks, pos + n1),
                    _ => false,
                }
        },
        _ => false,
    }
}

/// What [`is_sumti_2_next`] says.
pub proof fn lemma_is_sumti_2_next<'arena>(
    node: ((JoikEk<'arena>, Option<TagWords<'arena>>, Word<'arena>, Frees<'arena>), Sumti3<'arena>),
    toks: Seq<Token>,
    pos: nat,
)
    ensures
        is_sumti_2_next(node, toks, pos) == (
            match spec_joik_ek_bo(toks, pos) {
                Outcome::Matched(n1) => {
                    &&& is_joik_ek_bo(node.0, toks, pos)
                    &&& match spec_sumti_3(toks, pos + n1) {
                            Outcome::Matched(_) => is_sumti_3(node.1, toks, pos + n1),
                            _ => false,
                        }
                },
                _ => false,
            }
        ),
{
    reveal(is_sumti_2_next);
    reveal(is_joik_ek_bo);
    reveal(is_sumti_3);
}

/// How many tokens the first `count` of a row of `Sumti2Next` take at `pos`.
pub open spec fn run_of_sumti_2_next(toks: Seq<Token>, pos: nat, count: nat) -> nat
    decreases count,
{
    if count == 0 {
        0
    } else {
        let before = run_of_sumti_2_next(toks, pos, (count - 1) as nat);
        before + (match spec_sumti_2_next(toks, pos + before) {
            Outcome::Matched(len) => len,
            _ => 0,
        })
    }
}

/// Whether `items` are the nodes of a row of `Sumti2Next` at `pos`: each is the
/// node of the `Sumti2Next` at its place, and no further one follows them.
#[verifier::opaque]
pub closed spec fn is_row_of_sumti_2_next<'arena>(
    items: Seq<((JoikEk<'arena>, Option<TagWords<'arena>>, Word<'arena>, Frees<'arena>), Sumti3<'arena>)>,
    toks: Seq<Token>,
    pos: nat,
) -> bool
    decreases rest(toks, pos), 38nat,
{
    &&& forall|i: int|
        #![trigger items[i]]
        #![trigger run_of_sumti_2_next(toks, pos, i as nat)]
        0 <= i < items.len() ==> spec_sumti_2_next(
            toks,
            pos + run_of_sumti_2_next(toks, pos, i as nat),
        ) is Matched && is_sumti_2_next(
            items[i],
            toks,
            pos + run_of_sumti_2_next(toks, pos, i as nat),
        )
    &&& !(spec_sumti_2_next(toks, pos + run_of_sumti_2_next(toks, pos, items.len())) is Matched)
}

/// What [`is_row_of_sumti_2_next`] says.
pub proof fn lemma_is_row_of_sumti_2_next<'arena>(
    items: Seq<((JoikEk<'arena>, Option<TagWords<'arena>>, Word<'arena>, Frees<'arena>), Sumti3<'arena>)>,
    toks: Seq<Token>,
    pos: nat,
)
    ensures
        is_row_of_sumti_2_next(items, toks, pos) == ({
            &&& forall|i: int|
                #![trigger items[i]]
                #![trigger run_of_sumti_2_next(toks, pos, i as nat)]
                0 <= i < items.len() ==> spec_sumti_2_next(
                    toks,
                    pos + run_of_sumti_2_next(toks, pos, i as nat),
                ) is Matched && is_sumti_2_next(
                    items[i],
                    toks,
                    pos + run_of_sumti_2_next(toks, pos, i as nat),
                )
            &&& !(spec_sumti_2_next(
                toks,
                pos + run_of_sumti_2_next(toks, pos, items.len()),
            ) is Matched)
        }),
{
    reveal(is_row_of_sumti_2_next);
    reveal(is_sumti_2_next);
}

/// Whether `node` is the node that `JoikEkBo` makes of the tokens at `pos`.
#[verifier::opaque]
pub closed spec fn is_joik_ek_bo<'arena>(
    node: (JoikEk<'arena>, Option<TagWords<'arena>>, Word<'arena>, Frees<'arena>),
    toks: Seq<Token>,
    pos: nat,
) -> bool
    decreases rest(toks, pos), 32nat,
{
    match spec_joik_ek(toks, pos) {
        Outcome::Matched(n1) => {
            &&& is_joik_ek(node.0, toks, pos)
            &&& match spec_opt(spec_tag_words(toks, pos + n1)) {
                    Outcome::Matched(n2) => {
                        &&& (match node.1 {
                                Some(inner) => {
                                    &&& spec_tag_words(toks, pos + n1) is Matched
                                    &&& is_tag_words(inner, toks, pos + n1)
                                },
                                None => spec_tag_words(toks, pos + n1) is Error,
                            })
                        &&& match spec_word(toks, pos + n1 + n2, Selmaho::Bo) {
                                Outcome::Matched(n3) => {
                                    &&& is_word(node.2, toks, pos + n1 + n2, Selmaho::Bo)
                                    &&& match spec_frees(toks, pos + n1 + n2 + n3) {
                                            Outcome::Matched(_) => is_frees(
                                                node.3,
                                                toks,
                                                pos + n1 + n2 + n3,
                                            ),
                                            _ => false,
                                        }
                                },
                                _ => false,
                            }
                    },
                    _ => false,
                }
        },
        _ => false,
    }
}

/// What [`is_joik_ek_bo`] says.
pub proof fn lemma_is_joik_ek_bo<'arena>(
    node: (JoikEk<'arena>, Option<TagWords<'arena>>, Word<'arena>, Frees<'arena>),
    toks: Seq<Token>,
    pos: nat,
)
    ensures
        is_joik_ek_bo(node, toks, pos) == (
            match spec_joik_ek(toks, pos) {
                Outcome::Matched(n1) => {
                    &&& is_joik_ek(node.0, toks, pos)
                    &&& match spec_opt(spec_tag_words(toks, pos + n1)) {
                            Outcome::Matched(n2) => {
                                &&& (match node.1 {
                                        Some(inner) => {
                                            &&& spec_tag_words(toks, pos + n1) is Matched
                                            &&& is_tag_words(inner, toks, pos + n1)
                                        },
                                        None => spec_tag_words(toks, pos + n1) is Error,
                                    })
                                &&& match spec_word(toks, pos + n1 + n2, Selmaho::Bo) {
                                        Outcome::Matched(n3) => {
                                            &&& is_word(node.2, toks, pos + n1 + n2, Selmaho::Bo)
                                            &&& match spec_frees(toks, pos + n1 + n2 + n3) {
                                                    Outcome::Matched(_) => is_frees(
                                                        node.3,
                                                        toks,
                                                        pos + n1 + n2 + n3,
                                                    ),
                                                    _ => false,
                                                }
                                        },
                                        _ => false,
                                    }
                            },
                            _ => false,
                        }
                },
                _ => false,
            }
        ),
{
    reveal(is_joik_ek_bo);
    reveal(is_joik_ek);
    reveal(is_tag_words);
    reveal(is_word);
    reveal(is_frees);
}

/// Whether `node` is the node that `SumtiConnectedPost` makes of the tokens at `pos`: the
/// node of the first alternative that matches.
#[verifier::opaque]
pub closed spec fn is_sumti_connected_post<'arena>(
    node: SumtiLikeConnectedPost<'arena, Sumti2<'arena>, Sumti<'arena>>,
    toks: Seq<Token>,
    pos: nat,
) -> bool
    decreases rest(toks, pos), 41nat,
{
    match spec_sumti_connected_post_normal(toks, pos) {
        Outcome::Matched(_) => is_sumti_connected_post_normal(node, toks, pos),
        Outcome::Error(
            _,
        ) => spec_sumti_connected_post_grouped(
            toks,
            pos,
        ) is Matched && is_sumti_connected_post_grouped(node, toks, pos),
        Outcome::Failure(_) => false,
    }
}

/// What [`is_sumti_connected_post`] says.
pub proof fn lemma_is_sumti_connected_post<'arena>(toks: Seq<Token>, pos: nat)
    ensures
        forall|node: SumtiLikeConnectedPost<'arena, Sumti2<'arena>, Sumti<'arena>>| #[trigger] is_sumti_connected_post(
            node,
            toks,
            pos,
        ) == (
            match spec_sumti_connected_post_normal(toks, pos) {
                Outcome::Matched(_) => is_sumti_connected_post_normal(node, toks, pos),
                Outcome::Error(
                    _,
                ) => spec_sumti_connected_post_grouped(
                    toks,
                    pos,
                ) is Matched && is_sumti_connected_post_grouped(node, toks, pos),
                Outcome::Failure(_) => false,
            }
        ),
{
    reveal(is_sumti_connected_post);
    reveal(is_sumti_connected_post_normal);
    reveal(is_sumti_connected_post_grouped);
}

/// How many tokens the first `count` of a row of `SumtiConnectedPost` take at `pos`.
pub open spec fn run_of_sumti_connected_post(toks: Seq<Token>, pos: nat, count: nat) -> nat
    decreases count,
{
    if count == 0 {
        0
    } else {
        let before = run_of_sumti_connected_post(toks, pos, (count - 1) as nat);
        before + (match spec_sumti_connected_post(toks, pos + before) {
            Outcome::Matched(len) => len,
            _ => 0,
        })
    }
}

/// Whether `items` are the nodes of a row of `SumtiConnectedPost` at `pos`: each is the
/// node of the `SumtiConnectedPost` at its place, and no further one follows them.
#[verifier::opaque]
pub closed spec fn is_row_of_sumti_connected_post<'arena>(
    items: Seq<SumtiLikeConnectedPost<'arena, Sumti2<'arena>, Sumti<'arena>>>,
    toks: Seq<Token>,
    pos: nat,
) -> bool
    decreases rest(toks, pos), 42nat,
{
    &&& forall|i: int|
        #![trigger items[i]]
        #![trigger run_of_sumti_connected_post(toks, pos, i as nat)]
        0 <= i < items.len() ==> spec_sumti_connected_post(
            toks,
            pos + run_of_sumti_connected_post(toks, pos, i as nat),
        ) is Matched && is_sumti_connected_post(
            items[i],
            toks,
            pos + run_of_sumti_connected_post(toks, pos, i as nat),
        )
    &&& !(spec_sumti_connected_post(
        toks,
        pos + run_of_sumti_connected_post(toks, pos, items.len()),
    ) is Matched)
}

/// What [`is_row_of_sumti_connected_post`] says.
pub proof fn lemma_is_row_of_sumti_connected_post<'arena>(
    items: Seq<SumtiLikeConnectedPost<'arena, Sumti2<'arena>, Sumti<'arena>>>,
    toks: Seq<Token>,
    pos: nat,
)
    ensures
        is_row_of_sumti_connected_post(items, toks, pos) == ({
            &&& forall|i: int|
                #![trigger items[i]]
                #![trigger run_of_sumti_connected_post(toks, pos, i as nat)]
                0 <= i < items.len() ==> spec_sumti_connected_post(
                    toks,
                    pos + run_of_sumti_connected_post(toks, pos, i as nat),
                ) is Matched && is_sumti_connected_post(
                    items[i],
                    toks,
                    pos + run_of_sumti_connected_post(toks, pos, i as nat),
                )
            &&& !(spec_sumti_connected_post(
                toks,
                pos + run_of_sumti_connected_post(toks, pos, items.len()),
            ) is Matched)
        }),
{
    reveal(is_row_of_sumti_connected_post);
    reveal(is_sumti_connected_post);
}

/// Whether `node` is the node that `SumtiConnectedPostNormal` makes of the tokens at `pos`.
#[verifier::opaque]
pub closed spec fn is_sumti_connected_post_normal<'arena>(
    node: SumtiLikeConnectedPost<'arena, Sumti2<'arena>, Sumti<'arena>>,
    toks: Seq<Token>,
    pos: nat,
) -> bool
    decreases rest(toks, pos), 40nat,
{
    match node {
        SumtiLikeConnectedPost::Normal(field_0, field_1) => match spec_joik_ek(toks, pos) {
            Outcome::Matched(n1) => {
                &&& is_joik_ek(field_0, toks, pos)
                &&& match spec_sumti_2(toks, pos + n1) {
                        Outcome::Matched(_) => is_sumti_2(field_1, toks, pos + n1),
                        _ => false,
                    }
            },
            _ => false,
        },
        _ => false,
    }
}

/// What [`is_sumti_connected_post_normal`] says.
pub proof fn lemma_is_sumti_connected_post_normal<'arena>(
    node: SumtiLikeConnectedPost<'arena, Sumti2<'arena>, Sumti<'arena>>,
    toks: Seq<Token>,
    pos: nat,
)
    ensures
        is_sumti_connected_post_normal(node, toks, pos) == (
            match node {
                SumtiLikeConnectedPost::Normal(
                    field_0,
                    field_1,
                ) => match spec_joik_ek(toks, pos) {
                    Outcome::Matched(n1) => {
                        &&& is_joik_ek(field_0, toks, pos)
                        &&& match spec_sumti_2(toks, pos + n1) {
                                Outcome::Matched(_) => is_sumti_2(field_1, toks, pos + n1),
                                _ => false,
                            }
                    },
                    _ => false,
                },
                _ => false,
            }
        ),
{
    reveal(is_sumti_connected_post_normal);
    reveal(is_joik_ek);
    reveal(is_sumti_2);
}

/// Whether `node` is the node that `SumtiConnectedPostGrouped` makes of the tokens at `pos`.
#[verifier::opaque]
pub closed spec fn is_sumti_connected_post_grouped<'arena>(
    node: SumtiLikeConnectedPost<'arena, Sumti2<'arena>, Sumti<'arena>>,
    toks: Seq<Token>,
    pos: nat,
) -> bool
    decreases rest(toks, pos), 32nat,
{
    match node {
        SumtiLikeConnectedPost::Grouped(
            field_0,
            field_1,
            field_2,
            field_3,
            field_4,
            field_5,
        ) => match spec_joik_ek(toks, pos) {
            Outcome::Matched(n1) => {
                &&& is_joik_ek(field_0, toks, pos)
                &&& match spec_opt(spec_tag_words(toks, pos + n1)) {
                        Outcome::Matched(n2) => {
                            &&& (match field_1 {
                                    Some(inner) => {
                                        &&& spec_tag_words(toks, pos + n1) is Matched
                                        &&& is_tag_words(inner, toks, pos + n1)
                                    },
                                    None => spec_tag_words(toks, pos + n1) is Error,
                                })
                            &&& match spec_word_with_free(toks, pos + n1 + n2, Selmaho::Ke) {
                                    Outcome::Matched(n3) => {
                                        &&& is_word_with_free(
                                            field_2,
                                            toks,
                                            pos + n1 + n2,
                                            Selmaho::Ke,
                                        )
                                        &&& match spec_sumti(toks, pos + n1 + n2 + n3) {
                                                Outcome::Matched(n4) => {
                                                    &&& advanced(toks, pos, n1 + n2 + n3)
                                                    &&& is_sumti(
                                                        field_3,
                                                        toks,
                                                        pos + n1 + n2 + n3,
                                                    )
                                                    &&& match spec_opt(
                                                        spec_word(
                                                            toks,
                                                            pos + n1 + n2 + n3 + n4,
                                                            Selmaho::Kehe,
                                                        ),
                                                    ) {
                                                            Outcome::Matched(n5) => {
                                                                &&& (match field_4 {
                                                                        Some(inner) => {
                                                                            &&& spec_word(
                                                                                toks,
                                                                                pos + n1 + n2 + n3 + n4,
                                                                                Selmaho::Kehe,
                                                                            ) is Matched
                                                                            &&& is_word(
                                                                                inner,
                                                                                toks,
                                                                                pos + n1 + n2 + n3 + n4,
                                                                                Selmaho::Kehe,
                                                                            )
                                                                        },
                                                                        None => spec_word(
                                                                            toks,
                                                                            pos + n1 + n2 + n3 + n4,
                                                                            Selmaho::Kehe,
                                                                        ) is Error,
                                                                    })
                                                                &&& match spec_frees(
                                                                    toks,
                                                                    pos + n1 + n2 + n3 + n4 + n5,
                                                                ) {
                                                                        Outcome::Matched(_) => is_frees(
                                                                            field_5,
                                                                            toks,
                                                                            pos + n1 + n2 + n3 + n4 + n5,
                                                                        ),
                                                                        _ => false,
                                                                    }
                                                            },
                                                            _ => false,
                                                        }
                                                },
                                                _ => false,
                                            }
                                    },
                                    _ => false,
                                }
                        },
                        _ => false,
                    }
            },
            _ => false,
        },
        _ => false,
    }
}

/// What [`is_sumti_connected_post_grouped`] says.
pub proof fn lemma_is_sumti_connected_post_grouped<'arena>(
    node: SumtiLikeConnectedPost<'arena, Sumti2<'arena>, Sumti<'arena>>,
    toks: Seq<Token>,
    pos: nat,
)
    ensures
        is_sumti_connected_post_grouped(node, toks, pos) == (
            match node {
                SumtiLikeConnectedPost::Grouped(
                    field_0,
                    field_1,
                    field_2,
                    field_3,
                    field_4,
                    field_5,
                ) => match spec_joik_ek(toks, pos) {
                    Outcome::Matched(n1) => {
                        &&& is_joik_ek(field_0, toks, pos)
                        &&& match spec_opt(spec_tag_words(toks, pos + n1)) {
                                Outcome::Matched(n2) => {
                                    &&& (match field_1 {
                                            Some(inner) => {
                                                &&& spec_tag_words(toks, pos + n1) is Matched
                                                &&& is_tag_words(inner, toks, pos + n1)
                                            },
                                            None => spec_tag_words(toks, pos + n1) is Error,
                                        })
                                    &&& match spec_word_with_free(
                                        toks,
                                        pos + n1 + n2,
                                        Selmaho::Ke,
                                    ) {
                                            Outcome::Matched(n3) => {
                                                &&& is_word_with_free(
                                                    field_2,
                                                    toks,
                                                    pos + n1 + n2,
                                                    Selmaho::Ke,
                                                )
                                                &&& match spec_sumti(toks, pos + n1 + n2 + n3) {
                                                        Outcome::Matched(n4) => {
                                                            &&& advanced(toks, pos, n1 + n2 + n3)
                                                            &&& is_sumti(
                                                                field_3,
                                                                toks,
                                                                pos + n1 + n2 + n3,
                                                            )
                                                            &&& match spec_opt(
                                                                spec_word(
                                                                    toks,
                                                                    pos + n1 + n2 + n3 + n4,
                                                                    Selmaho::Kehe,
                                                                ),
                                                            ) {
                                                                    Outcome::Matched(n5) => {
                                                                        &&& (match field_4 {
                                                                                Some(inner) => {
                                                                                    &&& spec_word(
                                                                                        toks,
                                                                                        pos + n1 + n2 + n3 + n4,
                                                                                        Selmaho::Kehe,
                                                                                    ) is Matched
                                                                                    &&& is_word(
                                                                                        inner,
                                                                                        toks,
                                                                                        pos + n1 + n2 + n3 + n4,
                                                                                        Selmaho::Kehe,
                                                                                    )
                                                                                },
                                                                                None => spec_word(
                                                                                    toks,
                                                                                    pos + n1 + n2 + n3 + n4,
                                                                                    Selmaho::Kehe,
                                                                                ) is Error,
                                                                            })
                                                                        &&& match spec_frees(
                                                                            toks,
                                                                            pos + n1 + n2 + n3 + n4 + n5,
                                                                        ) {
                                                                                Outcome::Matched(_) => is_frees(
                                                                                    field_5,
                                                                                    toks,
                                                                                    pos + n1 + n2 + n3 + n4 + n5,
                                                                                ),
                                                                                _ => false,
                                                                            }
                                                                    },
                                                                    _ => false,
                                                                }
                                                        },
                                                        _ => false,
                                                    }
                                            },
                                            _ => false,
                                        }
                                },
                                _ => false,
                            }
                    },
                    _ => false,
                },
                _ => false,
            }
        ),
{
    reveal(is_sumti_connected_post_grouped);
    reveal(is_joik_ek);
    reveal(is_tag_words);
    reveal(is_word_with_free);
    reveal(is_sumti);
    reveal(is_word);
    reveal(is_frees);
}

/// Whether `node` is the node that `VuhoRelative` makes of the tokens at `pos`.
#[verifier::opaque]
pub closed spec fn is_vuho_relative<'arena>(
    node: VuhoRelative<'arena>,
    toks: Seq<Token>,
    pos: nat,
) -> bool
    decreases rest(toks, pos), 11nat,
{
    match spec_word_with_free(toks, pos, Selmaho::Vuho) {
        Outcome::Matched(n1) => {
            &&& is_word_with_free(node.vuho, toks, pos, Selmaho::Vuho)
            &&& match spec_relative_clauses(toks, pos + n1) {
                    Outcome::Matched(_) => is_relative_clauses(
                        node.relative_clauses,
                        toks,
                        pos + n1,
                    ),
                    _ => false,
                }
        },
        _ => false,
    }
}

/// What [`is_vuho_relative`] says.
pub proof fn lemma_is_vuho_relative<'arena>(
    node: VuhoRelative<'arena>,
    toks: Seq<Token>,
    pos: nat,
)
    ensures
        is_vuho_relative(node, toks, pos) == (
            match spec_word_with_free(toks, pos, Selmaho::Vuho) {
                Outcome::Matched(n1) => {
                    &&& is_word_with_free(node.vuho, toks, pos, Selmaho::Vuho)
                    &&& match spec_relative_clauses(toks, pos + n1) {
                            Outcome::Matched(_) => is_relative_clauses(
                                node.relative_clauses,
                                toks,
                                pos + n1,
                            ),
                            _ => false,
                        }
                },
                _ => false,
            }
        ),
{
    reveal(is_vuho_relative);
    reveal(is_word_with_free);
    reveal(is_relative_clauses);
}

/// Whether `node` is the node that `TanruUnit2Nu` makes of the tokens at `pos`.
#[verifier::opaque]
pub closed spec fn is_tanru_unit_2_nu<'arena>(
    node: TanruUnit2<'arena>,
    toks: Seq<Token>,
    pos: nat,
) -> bool
    decreases rest(toks, pos), 29nat,
{
    match node {
        TanruUnit2::Nu { nus, inner, kei, frees } => match spec_nu_word_list(toks, pos) {
            Outcome::Matched(n1) => {
                &&& is_nu_word_list(nus, toks, pos)
                &&& match spec_subsentence(toks, pos + n1) {
                        Outcome::Matched(n2) => {
                            &&& advanced(toks, pos, n1)
                            &&& is_subsentence(*inner, toks, pos + n1)
                            &&& match spec_opt(spec_word(toks, pos + n1 + n2, Selmaho::Kei)) {
                                    Outcome::Matched(n3) => {
                                        &&& (match kei {
                                                Some(inner) => {
                                                    &&& spec_word(
                                                        toks,
                                                        pos + n1 + n2,
                                                        Selmaho::Kei,
                                                    ) is Matched
                                                    &&& is_word(
                                                        inner,
                                                        toks,
                                                        pos + n1 + n2,
                                                        Selmaho::Kei,
                                                    )
                                                },
                                                None => spec_word(
                                                    toks,
                                                    pos + n1 + n2,
                                                    Selmaho::Kei,
                                                ) is Error,
                                            })
                                        &&& match spec_frees(toks, pos + n1 + n2 + n3) {
                                                Outcome::Matched(_) => is_frees(
                                                    frees,
                                                    toks,
                                                    pos + n1 + n2 + n3,
                                                ),
                                                _ => false,
                                            }
                                    },
                                    _ => false,
                                }
                        },
                        _ => false,
                    }
            },
            _ => false,
        },
        _ => false,
    }
}

/// What [`is_tanru_unit_2_nu`] says.
pub proof fn lemma_is_tanru_unit_2_nu<'arena>(
    node: TanruUnit2<'arena>,
    toks: Seq<Token>,
    pos: nat,
)
    ensures
        is_tanru_unit_2_nu(node, toks, pos) == (
            match node {
                TanruUnit2::Nu { nus, inner, kei, frees } => match spec_nu_word_list(toks, pos) {
                    Outcome::Matched(n1) => {
                        &&& is_nu_word_list(nus, toks, pos)
                        &&& match spec_subsentence(toks, pos + n1) {
                                Outcome::Matched(n2) => {
                                    &&& advanced(toks, pos, n1)
                                    &&& is_subsentence(*inner, toks, pos + n1)
                                    &&& match spec_opt(
                                        spec_word(toks, pos + n1 + n2, Selmaho::Kei),
                                    ) {
                                            Outcome::Matched(n3) => {
                                                &&& (match kei {
                                                        Some(inner) => {
                                                            &&& spec_word(
                                                                toks,
                                                                pos + n1 + n2,
                                                                Selmaho::Kei,
                                                            ) is Matched
                                                            &&& is_word(
                                                                inner,
                                                                toks,
                                                                pos + n1 + n2,
                                                                Selmaho::Kei,
                                                            )
                                                        },
                                                        None => spec_word(
                                                            toks,
                                                            pos + n1 + n2,
                                                            Selmaho::Kei,
                                                        ) is Error,
                                                    })
                                                &&& match spec_frees(toks, pos + n1 + n2 + n3) {
                                                        Outcome::Matched(_) => is_frees(
                                                            frees,
                                                            toks,
                                                            pos + n1 + n2 + n3,
                                                        ),
                                                        _ => false,
                                                    }
                                            },
                                            _ => false,
                                        }
                                },
                                _ => false,
                            }
                    },
                    _ => false,
                },
                _ => false,
            }
        ),
{
    reveal(is_tanru_unit_2_nu);
    reveal(is_nu_word_list);
    reveal(is_subsentence);
    reveal(is_word);
    reveal(is_frees);
}

/// Whether `node` is the node that `NuWordList` makes of the tokens at `pos`.
#[verifier::opaque]
pub closed spec fn is_nu_word_list<'arena>(
    node: Separated<'arena, (Word<'arena>, Option<Word<'arena>>, Frees<'arena>), JoikJek<'arena>>,
    toks: Seq<Token>,
    pos: nat,
) -> bool
    decreases rest(toks, pos), 28nat,
{
    match spec_nu_word(toks, pos) {
        Outcome::Matched(n1) => {
            &&& is_nu_word(*node.first, toks, pos)
            &&& match spec_many0_nu_word_list_next(toks, pos + n1) {
                    Outcome::Matched(_) => is_row_of_nu_word_list_next(
                        node.rest@,
                        toks,
                        pos + n1,
                    ),
                    _ => false,
                }
        },
        _ => false,
    }
}

/// What [`is_nu_word_list`] says.
pub proof fn lemma_is_nu_word_list<'arena>(
    node: Separated<'arena, (Word<'arena>, Option<Word<'arena>>, Frees<'arena>), JoikJek<'arena>>,
    toks: Seq<Token>,
    pos: nat,
)
    ensures
        is_nu_word_list(node, toks, pos) == (
            match spec_nu_word(toks, pos) {
                Outcome::Matched(n1) => {
                    &&& is_nu_word(*node.first, toks, pos)
                    &&& match spec_many0_nu_word_list_next(toks, pos + n1) {
                            Outcome::Matched(_) => is_row_of_nu_word_list_next(
                                node.rest@,
                                toks,
                                pos + n1,
                            ),
                            _ => false,
                        }
                },
                _ => false,
            }
        ),
{
    reveal(is_nu_word_list);
    reveal(is_nu_word);
    reveal(is_row_of_nu_word_list_next);
}

/// Whether `node` is the node that `NuWord` makes of the tokens at `pos`.
#[verifier::opaque]
pub closed spec fn is_nu_word<'arena>(
    node: (Word<'arena>, Option<Word<'arena>>, Frees<'arena>),
    toks: Seq<Token>,
    pos: nat,
) -> bool
    decreases rest(toks, pos), 25nat,
{
    match spec_word(toks, pos, Selmaho::Nu) {
        Outcome::Matched(n1) => {
            &&& is_word(node.0, toks, pos, Selmaho::Nu)
            &&& match spec_opt(spec_word(toks, pos + n1, Selmaho::Nai)) {
                    Outcome::Matched(n2) => {
                        &&& (match node.1 {
                                Some(inner) => {
                                    &&& spec_word(toks, pos + n1, Selmaho::Nai) is Matched
                                    &&& is_word(inner, toks, pos + n1, Selmaho::Nai)
                                },
                                None => spec_word(toks, pos + n1, Selmaho::Nai) is Error,
                            })
                        &&& match spec_frees(toks, pos + n1 + n2) {
                                Outcome::Matched(_) => is_frees(node.2, toks, pos + n1 + n2),
                                _ => false,
                            }
                    },
                    _ => false,
                }
        },
        _ => false,
    }
}

/// What [`is_nu_word`] says.
pub proof fn lemma_is_nu_word<'arena>(
    node: (Word<'arena>, Option<Word<'arena>>, Frees<'arena>),
    toks: Seq<Token>,
    pos: nat,
)
    ensures
        is_nu_word(node, toks, pos) == (
            match spec_word(toks, pos, Selmaho::Nu) {
                Outcome::Matched(n1) => {
                    &&& is_word(node.0, toks, pos, Selmaho::Nu)
                    &&& match spec_opt(spec_word(toks, pos + n1, Selmaho::Nai)) {
                            Outcome::Matched(n2) => {
                                &&& (match node.1 {
                                        Some(inner) => {
                                            &&& spec_word(toks, pos + n1, Selmaho::Nai) is Matched
                                            &&& is_word(inner, toks, pos + n1, Selmaho::Nai)
                                        },
                                        None => spec_word(toks, pos + n1, Selmaho::Nai) is Error,
                                    })
                                &&& match spec_frees(toks, pos + n1 + n2) {
                                        Outcome::Matched(_) => is_frees(
                                            node.2,
                                            toks,
                                            pos + n1 + n2,
                                        ),
                                        _ => false,
                                    }
                            },
                            _ => false,
                        }
                },
                _ => false,
            }
        ),
{
    reveal(is_nu_word);
    reveal(is_word);
    reveal(is_frees);
}

/// Whether `node` is the node that `NuWordListNext` makes of the tokens at `pos`.
#[verifier::opaque]
pub closed spec fn is_nu_word_list_next<'arena>(
    node: (JoikJek<'arena>, (Word<'arena>, Option<Word<'arena>>, Frees<'arena>)),
    toks: Seq<Token>,
    pos: nat,
) -> bool
    decreases rest(toks, pos), 26nat,
{
    match spec_joik_jek(toks, pos) {
        Outcome::Matched(n1) => {
            &&& is_joik_jek(node.0, toks, pos)
            &&& match spec_nu_word(toks, pos + n1) {
                    Outcome::Matched(_) => is_nu_word(node.1, toks, pos + n1),
                    _ => false,
                }
        },
        _ => false,
    }
}

/// What [`is_nu_word_list_next`] says.
pub proof fn lemma_is_nu_word_list_next<'arena>(
    node: (JoikJek<'arena>, (Word<'arena>, Option<Word<'arena>>, Frees<'arena>)),
    toks: Seq<Token>,
    pos: nat,
)
    ensures
        is_nu_word_list_next(node, toks, pos) == (
            match spec_joik_jek(toks, pos) {
                Outcome::Matched(n1) => {
                    &&& is_joik_jek(node.0, toks, pos)
                    &&& match spec_nu_word(toks, pos + n1) {
                            Outcome::Matched(_) => is_nu_word(node.1, toks, pos + n1),
                            _ => false,
                        }
                },
                _ => false,
            }
        ),
{
    reveal(is_nu_word_list_next);
    reveal(is_joik_jek);
    reveal(is_nu_word);
}

/// How many tokens the first `count` of a row of `NuWordListNext` take at `pos`.
pub open spec fn run_of_nu_word_list_next(toks: Seq<Token>, pos: nat, count: nat) -> nat
    decreases count,
{
    if count == 0 {
        0
    } else {
        let before = run_of_nu_word_list_next(toks, pos, (count - 1) as nat);
        before + (match spec_nu_word_list_next(toks, pos + before) {
            Outcome::Matched(len) => len,
            _ => 0,
        })
    }
}

/// Whether `items` are the nodes of a row of `NuWordListNext` at `pos`: each is the
/// node of the `NuWordListNext` at its place, and no further one follows them.
#[verifier::opaque]
pub closed spec fn is_row_of_nu_word_list_next<'arena>(
    items: Seq<(JoikJek<'arena>, (Word<'arena>, Option<Word<'arena>>, Frees<'arena>))>,
    toks: Seq<Token>,
    pos: nat,
) -> bool
    decreases rest(toks, pos), 27nat,
{
    &&& forall|i: int|
        #![trigger items[i]]
        #![trigger run_of_nu_word_list_next(toks, pos, i as nat)]
        0 <= i < items.len() ==> spec_nu_word_list_next(
            toks,
            pos + run_of_nu_word_list_next(toks, pos, i as nat),
        ) is Matched && is_nu_word_list_next(
            items[i],
            toks,
            pos + run_of_nu_word_list_next(toks, pos, i as nat),
        )
    &&& !(spec_nu_word_list_next(
        toks,
        pos + run_of_nu_word_list_next(toks, pos, items.len()),
    ) is Matched)
}

/// What [`is_row_of_nu_word_list_next`] says.
pub proof fn lemma_is_row_of_nu_word_list_next<'arena>(
    items: Seq<(JoikJek<'arena>, (Word<'arena>, Option<Word<'arena>>, Frees<'arena>))>,
    toks: Seq<Token>,
    pos: nat,
)
    ensures
        is_row_of_nu_word_list_next(items, toks, pos) == ({
            &&& forall|i: int|
                #![trigger items[i]]
                #![trigger run_of_nu_word_list_next(toks, pos, i as nat)]
                0 <= i < items.len() ==> spec_nu_word_list_next(
                    toks,
                    pos + run_of_nu_word_list_next(toks, pos, i as nat),
                ) is Matched && is_nu_word_list_next(
                    items[i],
                    toks,
                    pos + run_of_nu_word_list_next(toks, pos, i as nat),
                )
            &&& !(spec_nu_word_list_next(
                toks,
                pos + run_of_nu_word_list_next(toks, pos, items.len()),
            ) is Matched)
        }),
{
    reveal(is_row_of_nu_word_list_next);
    reveal(is_nu_word_list_next);
}

/// Whether `node` is the node that `TanruUnit2Nuha` makes of the tokens at `pos`.
#[verifier::opaque]
pub closed spec fn is_tanru_unit_2_nuha<'arena>(
    node: TanruUnit2<'arena>,
    toks: Seq<Token>,
    pos: nat,
) -> bool
    decreases rest(toks, pos), 42nat,
{
    match node {
        TanruUnit2::Nuha { nuha, operator } => match spec_word_with_free(
            toks,
            pos,
            Selmaho::Nuha,
        ) {
            Outcome::Matched(n1) => {
                &&& is_word_with_free(nuha, toks, pos, Selmaho::Nuha)
                &&& match spec_operator(toks, pos + n1) {
                        Outcome::Matched(_) => is_operator(operator, toks, pos + n1),
                        _ => false,
                    }
            },
            _ => false,
        },
        _ => false,
    }
}

/// What [`is_tanru_unit_2_nuha`] says.
pub proof fn lemma_is_tanru_unit_2_nuha<'arena>(
    node: TanruUnit2<'arena>,
    toks: Seq<Token>,
    pos: nat,
)
    ensures
        is_tanru_unit_2_nuha(node, toks, pos) == (
            match node {
                TanruUnit2::Nuha { nuha, operator } => match spec_word_with_free(
                    toks,
                    pos,
                    Selmaho::Nuha,
                ) {
                    Outcome::Matched(n1) => {
                        &&& is_word_with_free(nuha, toks, pos, Selmaho::Nuha)
                        &&& match spec_operator(toks, pos + n1) {
                                Outcome::Matched(_) => is_operator(operator, toks, pos + n1),
                                _ => false,
                            }
                    },
                    _ => false,
                },
                _ => false,
            }
        ),
{
    reveal(is_tanru_unit_2_nuha);
    reveal(is_word_with_free);
    reveal(is_operator);
}

/// Whether `node` is the node that `BoundArguments` makes of the tokens at `pos`.
#[verifier::opaque]
pub closed spec fn is_bound_arguments<'arena>(
    node: BoundArguments<'arena>,
    toks: Seq<Token>,
    pos: nat,
) -> bool
    decreases rest(toks, pos), 63nat,
{
    match spec_word_with_free(toks, pos, Selmaho::Be) {
        Outcome::Matched(n1) => {
            &&& is_word_with_free(node.be, toks, pos, Selmaho::Be)
            &&& match spec_arg_list(toks, pos + n1) {
                    Outcome::Matched(n2) => {
                        &&& is_arg_list(node.args, toks, pos + n1)
                        &&& match spec_opt(spec_word(toks, pos + n1 + n2, Selmaho::Beho)) {
                                Outcome::Matched(n3) => {
                                    &&& (match node.beho {
                                            Some(inner) => {
                                                &&& spec_word(
                                                    toks,
                                                    pos + n1 + n2,
                                                    Selmaho::Beho,
                                                ) is Matched
                                                &&& is_word(
                                                    inner,
                                                    toks,
                                                    pos + n1 + n2,
                                                    Selmaho::Beho,
                                                )
                                            },
                                            None => spec_word(
                                                toks,
                                                pos + n1 + n2,
                                                Selmaho::Beho,
                                            ) is Error,
                                        })
                                    &&& match spec_frees(toks, pos + n1 + n2 + n3) {
                                            Outcome::Matched(_) => is_frees(
                                                node.frees,
                                                toks,
                                                pos + n1 + n2 + n3,
                                            ),
                                            _ => false,
                                        }
                                },
                                _ => false,
                            }
                    },
                    _ => false,
                }
        },
        _ => false,
    }
}

/// What [`is_bound_arguments`] says.
pub proof fn lemma_is_bound_arguments<'arena>(
    node: BoundArguments<'arena>,
    toks: Seq<Token>,
    pos: nat,
)
    ensures
        is_bound_arguments(node, toks, pos) == (
            match spec_word_with_free(toks, pos, Selmaho::Be) {
                Outcome::Matched(n1) => {
                    &&& is_word_with_free(node.be, toks, pos, Selmaho::Be)
                    &&& match spec_arg_list(toks, pos + n1) {
                            Outcome::Matched(n2) => {
                                &&& is_arg_list(node.args, toks, pos + n1)
                                &&& match spec_opt(
                                    spec_word(toks, pos + n1 + n2, Selmaho::Beho),
                                ) {
                                        Outcome::Matched(n3) => {
                                            &&& (match node.beho {
                                                    Some(inner) => {
                                                        &&& spec_word(
                                                            toks,
                                                            pos + n1 + n2,
                                                            Selmaho::Beho,
                                                        ) is Matched
                                                        &&& is_word(
                                                            inner,
                                                            toks,
                                                            pos + n1 + n2,
                                                            Selmaho::Beho,
                                                        )
                                                    },
                                                    None => spec_word(
                                                        toks,
                                                        pos + n1 + n2,
                                                        Selmaho::Beho,
                                                    ) is Error,
                                                })
                                            &&& match spec_frees(toks, pos + n1 + n2 + n3) {
                                                    Outcome::Matched(_) => is_frees(
                                                        node.frees,
                                                        toks,
                                                        pos + n1 + n2 + n3,
                                                    ),
                                                    _ => false,
                                                }
                                        },
                                        _ => false,
                                    }
                            },
                            _ => false,
                        }
                },
                _ => false,
            }
        ),
{
    reveal(is_bound_arguments);
    reveal(is_word_with_free);
    reveal(is_arg_list);
    reveal(is_word);
    reveal(is_frees);
}

/// Whether `node` is the node that `ArgList` makes of the tokens at `pos`.
#[verifier::opaque]
pub closed spec fn is_arg_list<'arena>(
    node: Separated<'arena, Arg<'arena>, WithFree<'arena, Word<'arena>>>,
    toks: Seq<Token>,
    pos: nat,
) -> bool
    decreases rest(toks, pos), 62nat,
{
    match spec_arg(toks, pos) {
        Outcome::Matched(n1) => {
            &&& is_arg(*node.first, toks, pos)
            &&& match spec_many0_arg_list_next(toks, pos + n1) {
                    Outcome::Matched(_) => is_row_of_arg_list_next(node.rest@, toks, pos + n1),
                    _ => false,
                }
        },
        _ => false,
    }
}

/// What [`is_arg_list`] says.
pub proof fn lemma_is_arg_list<'arena>(
    node: Separated<'arena, Arg<'arena>, WithFree<'arena, Word<'arena>>>,
    toks: Seq<Token>,
    pos: nat,
)
    ensures
        is_arg_list(node, toks, pos) == (
            match spec_arg(toks, pos) {
                Outcome::Matched(n1) => {
                    &&& is_arg(*node.first, toks, pos)
                    &&& match spec_many0_arg_list_next(toks, pos + n1) {
                            Outcome::Matched(_) => is_row_of_arg_list_next(
                                node.rest@,
                                toks,
                                pos + n1,
                            ),
                            _ => false,
                        }
                },
                _ => false,
            }
        ),
{
    reveal(is_arg_list);
    reveal(is_arg);
    reveal(is_row_of_arg_list_next);
}

/// Whether `node` is the node that `ArgListNext` makes of the tokens at `pos`.
#[verifier::opaque]
pub closed spec fn is_arg_list_next<'arena>(
    node: (WithFree<'arena, Word<'arena>>, Arg<'arena>),
    toks: Seq<Token>,
    pos: nat,
) -> bool
    decreases rest(toks, pos), 60nat,
{
    match spec_word_with_free(toks, pos, Selmaho::Bei) {
        Outcome::Matched(n1) => {
            &&& is_word_with_free(node.0, toks, pos, Selmaho::Bei)
            &&& match spec_arg(toks, pos + n1) {
                    Outcome::Matched(_) => is_arg(node.1, toks, pos + n1),
                    _ => false,
                }
        },
        _ => false,
    }
}

/// What [`is_arg_list_next`] says.
pub proof fn lemma_is_arg_list_next<'arena>(
    node: (WithFree<'arena, Word<'arena>>, Arg<'arena>),
    toks: Seq<Token>,
    pos: nat,
)
    ensures
        is_arg_list_next(node, toks, pos) == (
            match spec_word_with_free(toks, pos, Selmaho::Bei) {
                Outcome::Matched(n1) => {
                    &&& is_word_with_free(node.0, toks, pos, Selmaho::Bei)
                    &&& match spec_arg(toks, pos + n1) {
                            Outcome::Matched(_) => is_arg(node.1, toks, pos + n1),
                            _ => false,
                        }
                },
                _ => false,
            }
        ),
{
    reveal(is_arg_list_next);
    reveal(is_word_with_free);
    reveal(is_arg);
}

/// How many tokens the first `count` of a row of `ArgListNext` take at `pos`.
pub open spec fn run_of_arg_list_next(toks: Seq<Token>, pos: nat, count: nat) -> nat
    decreases count,
{
    if count == 0 {
        0
    } else {
        let before = run_of_arg_list_next(toks, pos, (count - 1) as nat);
        before + (match spec_arg_list_next(toks, pos + before) {
            Outcome::Matched(len) => len,
            _ => 0,
        })
    }
}

/// Whether `items` are the nodes of a row of `ArgListNext` at `pos`: each is the
/// node of the `ArgListNext` at its place, and no further one follows them.
#[verifier::opaque]
pub closed spec fn is_row_of_arg_list_next<'arena>(
    items: Seq<(WithFree<'arena, Word<'arena>>, Arg<'arena>)>,
    toks: Seq<Token>,
    pos: nat,
) -> bool
    decreases rest(toks, pos), 61nat,
{
    &&& forall|i: int|
        #![trigger items[i]]
        #![trigger run_of_arg_list_next(toks, pos, i as nat)]
        0 <= i < items.len() ==> spec_arg_list_next(
            toks,
            pos + run_of_arg_list_next(toks, pos, i as nat),
        ) is Matched && is_arg_list_next(
            items[i],
            toks,
            pos + run_of_arg_list_next(toks, pos, i as nat),
        )
    &&& !(spec_arg_list_next(toks, pos + run_of_arg_list_next(toks, pos, items.len())) is Matched)
}

/// What [`is_row_of_arg_list_next`] says.
pub proof fn lemma_is_row_of_arg_list_next<'arena>(
    items: Seq<(WithFree<'arena, Word<'arena>>, Arg<'arena>)>,
    toks: Seq<Token>,
    pos: nat,
)
    ensures
        is_row_of_arg_list_next(items, toks, pos) == ({
            &&& forall|i: int|
                #![trigger items[i]]
                #![trigger run_of_arg_list_next(toks, pos, i as nat)]
                0 <= i < items.len() ==> spec_arg_list_next(
                    toks,
                    pos + run_of_arg_list_next(toks, pos, i as nat),
                ) is Matched && is_arg_list_next(
                    items[i],
                    toks,
                    pos + run_of_arg_list_next(toks, pos, i as nat),
                )
            &&& !(spec_arg_list_next(
                toks,
                pos + run_of_arg_list_next(toks, pos, items.len()),
            ) is Matched)
        }),
{
    reveal(is_row_of_arg_list_next);
    reveal(is_arg_list_next);
}

/// Whether `node` is the node that `TanruUnit1ListNext` makes of the tokens at `pos`.
#[verifier::opaque]
pub closed spec fn is_tanru_unit_1_list_next<'arena>(
    node: (WithFree<'arena, Word<'arena>>, TanruUnit1<'arena>),
    toks: Seq<Token>,
    pos: nat,
) -> bool
    decreases rest(toks, pos), 65nat,
{
    match spec_word_with_free(toks, pos, Selmaho::Cei) {
        Outcome::Matched(n1) => {
            &&& is_word_with_free(node.0, toks, pos, Selmaho::Cei)
            &&& match spec_tanru_unit_1(toks, pos + n1) {
                    Outcome::Matched(_) => is_tanru_unit_1(node.1, toks, pos + n1),
                    _ => false,
                }
        },
        _ => false,
    }
}

/// What [`is_tanru_unit_1_list_next`] says.
pub proof fn lemma_is_tanru_unit_1_list_next<'arena>(
    node: (WithFree<'arena, Word<'arena>>, TanruUnit1<'arena>),
    toks: Seq<Token>,
    pos: nat,
)
    ensures
        is_tanru_unit_1_list_next(node, toks, pos) == (
            match spec_word_with_free(toks, pos, Selmaho::Cei) {
                Outcome::Matched(n1) => {
                    &&& is_word_with_free(node.0, toks, pos, Selmaho::Cei)
                    &&& match spec_tanru_unit_1(toks, pos + n1) {
                            Outcome::Matched(_) => is_tanru_unit_1(node.1, toks, pos + n1),
                            _ => false,
                        }
                },
                _ => false,
            }
        ),
{
    reveal(is_tanru_unit_1_list_next);
    reveal(is_word_with_free);
    reveal(is_tanru_unit_1);
}

/// How many tokens the first `count` of a row of `TanruUnit1ListNext` take at `pos`.
pub open spec fn run_of_tanru_unit_1_list_next(toks: Seq<Token>, pos: nat, count: nat) -> nat
    decreases count,
{
    if count == 0 {
        0
    } else {
        let before = run_of_tanru_unit_1_list_next(toks, pos, (count - 1) as nat);
        before + (match spec_tanru_unit_1_list_next(toks, pos + before) {
            Outcome::Matched(len) => len,
            _ => 0,
        })
    }
}

/// Whether `items` are the nodes of a row of `TanruUnit1ListNext` at `pos`: each is the
/// node of the `TanruUnit1ListNext` at its place, and no further one follows them.
#[verifier::opaque]
pub closed spec fn is_row_of_tanru_unit_1_list_next<'arena>(
    items: Seq<(WithFree<'arena, Word<'arena>>, TanruUnit1<'arena>)>,
    toks: Seq<Token>,
    pos: nat,
) -> bool
    decreases rest(toks, pos), 66nat,
{
    &&& forall|i: int|
        #![trigger items[i]]
        #![trigger run_of_tanru_unit_1_list_next(toks, pos, i as nat)]
        0 <= i < items.len() ==> spec_tanru_unit_1_list_next(
            toks,
            pos + run_of_tanru_unit_1_list_next(toks, pos, i as nat),
        ) is Matched && is_tanru_unit_1_list_next(
            items[i],
            toks,
            pos + run_of_tanru_unit_1_list_next(toks, pos, i as nat),
        )
    &&& !(spec_tanru_unit_1_list_next(
        toks,
        pos + run_of_tanru_unit_1_list_next(toks, pos, items.len()),
    ) is Matched)
}

/// What [`is_row_of_tanru_unit_1_list_next`] says.
pub proof fn lemma_is_row_of_tanru_unit_1_list_next<'arena>(
    items: Seq<(WithFree<'arena, Word<'arena>>, TanruUnit1<'arena>)>,
    toks: Seq<Token>,
    pos: nat,
)
    ensures
        is_row_of_tanru_unit_1_list_next(items, toks, pos) == ({
            &&& forall|i: int|
                #![trigger items[i]]
                #![trigger run_of_tanru_unit_1_list_next(toks, pos, i as nat)]
                0 <= i < items.len() ==> spec_tanru_unit_1_list_next(
                    toks,
                    pos + run_of_tanru_unit_1_list_next(toks, pos, i as nat),
                ) is Matched && is_tanru_unit_1_list_next(
                    items[i],
                    toks,
                    pos + run_of_tanru_unit_1_list_next(toks, pos, i as nat),
                )
            &&& !(spec_tanru_unit_1_list_next(
                toks,
                pos + run_of_tanru_unit_1_list_next(toks, pos, items.len()),
            ) is Matched)
        }),
{
    reveal(is_row_of_tanru_unit_1_list_next);
    reveal(is_tanru_unit_1_list_next);
}

/// Whether `node` is the node that `TanruUnitListNext` makes of the tokens at `pos`.
#[verifier::opaque]
pub closed spec fn is_tanru_unit_list_next<'arena>(
    node: (WithFree<'arena, Word<'arena>>, TanruUnit<'arena>),
    toks: Seq<Token>,
    pos: nat,
) -> bool
    decreases rest(toks, pos), 69nat,
{
    match spec_word_with_free(toks, pos, Selmaho::Bo) {
        Outcome::Matched(n1) => {
            &&& is_word_with_free(node.0, toks, pos, Selmaho::Bo)
            &&& match spec_tanru_unit(toks, pos + n1) {
                    Outcome::Matched(_) => is_tanru_unit(node.1, toks, pos + n1),
                    _ => false,
                }
        },
        _ => false,
    }
}

/// What [`is_tanru_unit_list_next`] says.
pub proof fn lemma_is_tanru_unit_list_next<'arena>(
    node: (WithFree<'arena, Word<'arena>>, TanruUnit<'arena>),
    toks: Seq<Token>,
    pos: nat,
)
    ensures
        is_tanru_unit_list_next(node, toks, pos) == (
            match spec_word_with_free(toks, pos, Selmaho::Bo) {
                Outcome::Matched(n1) => {
                    &&& is_word_with_free(node.0, toks, pos, Selmaho::Bo)
                    &&& match spec_tanru_unit(toks, pos + n1) {
                            Outcome::Matched(_) => is_tanru_unit(node.1, toks, pos + n1),
                            _ => false,
                        }
                },
                _ => false,
            }
        ),
{
    reveal(is_tanru_unit_list_next);
    reveal(is_word_with_free);
    reveal(is_tanru_unit);
}

/// How many tokens the first `count` of a row of `TanruUnitListNext` take at `pos`.
pub open spec fn run_of_tanru_unit_list_next(toks: Seq<Token>, pos: nat, count: nat) -> nat
    decreases count,
{
    if count == 0 {
        0
    } else {
        let before = run_of_tanru_unit_list_next(toks, pos, (count - 1) as nat);
        before + (match spec_tanru_unit_list_next(toks, pos + before) {
            Outcome::Matched(len) => len,
            _ => 0,
        })
    }
}

/// Whether `items` are the nodes of a row of `TanruUnitListNext` at `pos`: each is the
/// node of the `TanruUnitListNext` at its place, and no further one follows them.
#[verifier::opaque]
pub closed spec fn is_row_of_tanru_unit_list_next<'arena>(
    items: Seq<(WithFree<'arena, Word<'arena>>, TanruUnit<'arena>)>,
    toks: Seq<Token>,
    pos: nat,
) -> bool
    decreases rest(toks, pos), 70nat,
{
    &&& forall|i: int|
        #![trigger items[i]]
        #![trigger run_of_tanru_unit_list_next(toks, pos, i as nat)]
        0 <= i < items.len() ==> spec_tanru_unit_list_next(
            toks,
            pos + run_of_tanru_unit_list_next(toks, pos, i as nat),
        ) is Matched && is_tanru_unit_list_next(
            items[i],
            toks,
            pos + run_of_tanru_unit_list_next(toks, pos, i as nat),
        )
    &&& !(spec_tanru_unit_list_next(
        toks,
        pos + run_of_tanru_unit_list_next(toks, pos, items.len()),
    ) is Matched)
}

/// What [`is_row_of_tanru_unit_list_next`] says.
pub proof fn lemma_is_row_of_tanru_unit_list_next<'arena>(
    items: Seq<(WithFree<'arena, Word<'arena>>, TanruUnit<'arena>)>,
    toks: Seq<Token>,
    pos: nat,
)
    ensures
        is_row_of_tanru_unit_list_next(items, toks, pos) == ({
            &&& forall|i: int|
                #![trigger items[i]]
                #![trigger run_of_tanru_unit_list_next(toks, pos, i as nat)]
                0 <= i < items.len() ==> spec_tanru_unit_list_next(
                    toks,
                    pos + run_of_tanru_unit_list_next(toks, pos, i as nat),
                ) is Matched && is_tanru_unit_list_next(
                    items[i],
                    toks,
                    pos + run_of_tanru_unit_list_next(toks, pos, i as nat),
                )
            &&& !(spec_tanru_unit_list_next(
                toks,
                pos + run_of_tanru_unit_list_next(toks, pos, items.len()),
            ) is Matched)
        }),
{
    reveal(is_row_of_tanru_unit_list_next);
    reveal(is_tanru_unit_list_next);
}

/// Whether `node` is the node that `Selbri5ListNext` makes of the tokens at `pos`.
#[verifier::opaque]
pub closed spec fn is_selbri_5_list_next<'arena>(
    node: ((JoikJek<'arena>, Option<TagWords<'arena>>, Word<'arena>, Frees<'arena>), Selbri5<'arena>),
    toks: Seq<Token>,
    pos: nat,
) -> bool
    decreases rest(toks, pos), 74nat,
{
    match spec_joik_jek_bo(toks, pos) {
        Outcome::Matched(n1) => {
            &&& is_joik_jek_bo(node.0, toks, pos)
            &&& match spec_selbri_5(toks, pos + n1) {
                    Outcome::Matched(_) => is_selbri_5(node.1, toks, pos + n1),
                    _ => false,
                }
        },
        _ => false,
    }
}

/// What [`is_selbri_5_list_next`] says.
pub proof fn lemma_is_selbri_5_list_next<'arena>(
    node: ((JoikJek<'arena>, Option<TagWords<'arena>>, Word<'arena>, Frees<'arena>), Selbri5<'arena>),
    toks: Seq<Token>,
    pos: nat,
)
    ensures
        is_selbri_5_list_next(node, toks, pos) == (
            match spec_joik_jek_bo(toks, pos) {
                Outcome::Matched(n1) => {
                    &&& is_joik_jek_bo(node.0, toks, pos)
                    &&& match spec_selbri_5(toks, pos + n1) {
                            Outcome::Matched(_) => is_selbri_5(node.1, toks, pos + n1),
                            _ => false,
                        }
                },
                _ => false,
            }
        ),
{
    reveal(is_selbri_5_list_next);
    reveal(is_joik_jek_bo);
    reveal(is_selbri_5);
}

/// How many tokens the first `count` of a row of `Selbri5ListNext` take at `pos`.
pub open spec fn run_of_selbri_5_list_next(toks: Seq<Token>, pos: nat, count: nat) -> nat
    decreases count,
{
    if count == 0 {
        0
    } else {
        let before = run_of_selbri_5_list_next(toks, pos, (count - 1) as nat);
        before + (match spec_selbri_5_list_next(toks, pos + before) {
            Outcome::Matched(len) => len,
            _ => 0,
        })
    }
}

/// Whether `items` are the nodes of a row of `Selbri5ListNext` at `pos`: each is the
/// node of the `Selbri5ListNext` at its place, and no further one follows them.
#[verifier::opaque]
pub closed spec fn is_row_of_selbri_5_list_next<'arena>(
    items: Seq<((JoikJek<'arena>, Option<TagWords<'arena>>, Word<'arena>, Frees<'arena>), Selbri5<'arena>)>,
    toks: Seq<Token>,
    pos: nat,
) -> bool
    decreases rest(toks, pos), 75nat,
{
    &&& forall|i: int|
        #![trigger items[i]]
        #![trigger run_of_selbri_5_list_next(toks, pos, i as nat)]
        0 <= i < items.len() ==> spec_selbri_5_list_next(
            toks,
            pos + run_of_selbri_5_list_next(toks, pos, i as nat),
        ) is Matched && is_selbri_5_list_next(
            items[i],
            toks,
            pos + run_of_selbri_5_list_next(toks, pos, i as nat),
        )
    &&& !(spec_selbri_5_list_next(
        toks,
        pos + run_of_selbri_5_list_next(toks, pos, items.len()),
    ) is Matched)
}

/// What [`is_row_of_selbri_5_list_next`] says.
pub proof fn lemma_is_row_of_selbri_5_list_next<'arena>(
    items: Seq<((JoikJek<'arena>, Option<TagWords<'arena>>, Word<'arena>, Frees<'arena>), Selbri5<'arena>)>,
    toks: Seq<Token>,
    pos: nat,
)
    ensures
        is_row_of_selbri_5_list_next(items, toks, pos) == ({
            &&& forall|i: int|
                #![trigger items[i]]
                #![trigger run_of_selbri_5_list_next(toks, pos, i as nat)]
                0 <= i < items.len() ==> spec_selbri_5_list_next(
                    toks,
                    pos + run_of_selbri_5_list_next(toks, pos, i as nat),
                ) is Matched && is_selbri_5_list_next(
                    items[i],
                    toks,
                    pos + run_of_selbri_5_list_next(toks, pos, i as nat),
                )
            &&& !(spec_selbri_5_list_next(
                toks,
                pos + run_of_selbri_5_list_next(toks, pos, items.len()),
            ) is Matched)
        }),
{
    reveal(is_row_of_selbri_5_list_next);
    reveal(is_selbri_5_list_next);
}

/// Whether `node` is the node that `JoikJekBo` makes of the tokens at `pos`.
#[verifier::opaque]
pub closed spec fn is_joik_jek_bo<'arena>(
    node: (JoikJek<'arena>, Option<TagWords<'arena>>, Word<'arena>, Frees<'arena>),
    toks: Seq<Token>,
    pos: nat,
) -> bool
    decreases rest(toks, pos), 32nat,
{
    match spec_joik_jek(toks, pos) {
        Outcome::Matched(n1) => {
            &&& is_joik_jek(node.0, toks, pos)
            &&& match spec_opt(spec_tag_words(toks, pos + n1)) {
                    Outcome::Matched(n2) => {
                        &&& (match node.1 {
                                Some(inner) => {
                                    &&& spec_tag_words(toks, pos + n1) is Matched
                                    &&& is_tag_words(inner, toks, pos + n1)
                                },
                                None => spec_tag_words(toks, pos + n1) is Error,
                            })
                        &&& match spec_word(toks, pos + n1 + n2, Selmaho::Bo) {
                                Outcome::Matched(n3) => {
                                    &&& is_word(node.2, toks, pos + n1 + n2, Selmaho::Bo)
                                    &&& match spec_frees(toks, pos + n1 + n2 + n3) {
                                            Outcome::Matched(_) => is_frees(
                                                node.3,
                                                toks,
                                                pos + n1 + n2 + n3,
                                            ),
                                            _ => false,
                                        }
                                },
                                _ => false,
                            }
                    },
                    _ => false,
                }
        },
        _ => false,
    }
}

/// What [`is_joik_jek_bo`] says.
pub proof fn lemma_is_joik_jek_bo<'arena>(
    node: (JoikJek<'arena>, Option<TagWords<'arena>>, Word<'arena>, Frees<'arena>),
    toks: Seq<Token>,
    pos: nat,
)
    ensures
        is_joik_jek_bo(node, toks, pos) == (
            match spec_joik_jek(toks, pos) {
                Outcome::Matched(n1) => {
                    &&& is_joik_jek(node.0, toks, pos)
                    &&& match spec_opt(spec_tag_words(toks, pos + n1)) {
                            Outcome::Matched(n2) => {
                                &&& (match node.1 {
                                        Some(inner) => {
                                            &&& spec_tag_words(toks, pos + n1) is Matched
                                            &&& is_tag_words(inner, toks, pos + n1)
                                        },
                                        None => spec_tag_words(toks, pos + n1) is Error,
                                    })
                                &&& match spec_word(toks, pos + n1 + n2, Selmaho::Bo) {
                                        Outcome::Matched(n3) => {
                                            &&& is_word(node.2, toks, pos + n1 + n2, Selmaho::Bo)
                                            &&& match spec_frees(toks, pos + n1 + n2 + n3) {
                                                    Outcome::Matched(_) => is_frees(
                                                        node.3,
                                                        toks,
                                                        pos + n1 + n2 + n3,
                                                    ),
                                                    _ => false,
                                                }
                                        },
                                        _ => false,
                                    }
                            },
                            _ => false,
                        }
                },
                _ => false,
            }
        ),
{
    reveal(is_joik_jek_bo);
    reveal(is_joik_jek);
    reveal(is_tag_words);
    reveal(is_word);
    reveal(is_frees);
}

/// Whether `node` is the node that `Selbri3ConnectedPost` makes of the tokens at `pos`: the
/// node of the first alternative that matches.
#[verifier::opaque]
pub closed spec fn is_selbri_3_connected_post<'arena>(
    node: SelbriLikeConnectedPost<'arena, Selbri4<'arena>, Selbri2<'arena>>,
    toks: Seq<Token>,
    pos: nat,
) -> bool
    decreases rest(toks, pos), 79nat,
{
    match spec_selbri_3_connected_post_normal(toks, pos) {
        Outcome::Matched(_) => is_selbri_3_connected_post_normal(node, toks, pos),
        Outcome::Error(
            _,
        ) => spec_selbri_3_connected_post_parenthesized(
            toks,
            pos,
        ) is Matched && is_selbri_3_connected_post_parenthesized(node, toks, pos),
        Outcome::Failure(_) => false,
    }
}

/// What [`is_selbri_3_connected_post`] says.
pub proof fn lemma_is_selbri_3_connected_post<'arena>(toks: Seq<Token>, pos: nat)
    ensures
        forall|node: SelbriLikeConnectedPost<'arena, Selbri4<'arena>, Selbri2<'arena>>| #[trigger] is_selbri_3_connected_post(
            node,
            toks,
            pos,
        ) == (
            match spec_selbri_3_connected_post_normal(toks, pos) {
                Outcome::Matched(_) => is_selbri_3_connected_post_normal(node, toks, pos),
                Outcome::Error(
                    _,
                ) => spec_selbri_3_connected_post_parenthesized(
                    toks,
                    pos,
                ) is Matched && is_selbri_3_connected_post_parenthesized(node, toks, pos),
                Outcome::Failure(_) => false,
            }
        ),
{
    reveal(is_selbri_3_connected_post);
    reveal(is_selbri_3_connected_post_normal);
    reveal(is_selbri_3_connected_post_parenthesized);
}

/// How many tokens the first `count` of a row of `Selbri3ConnectedPost` take at `pos`.
pub open spec fn run_of_selbri_3_connected_post(toks: Seq<Token>, pos: nat, count: nat) -> nat
    decreases count,
{
    if count == 0 {
        0
    } else {
        let before = run_of_selbri_3_connected_post(toks, pos, (count - 1) as nat);
        before + (match spec_selbri_3_connected_post(toks, pos + before) {
            Outcome::Matched(len) => len,
            _ => 0,
        })
    }
}

/// Whether `items` are the nodes of a row of `Selbri3ConnectedPost` at `pos`: each is the
/// node of the `Selbri3ConnectedPost` at its place, and no further one follows them.
#[verifier::opaque]
pub closed spec fn is_row_of_selbri_3_connected_post<'arena>(
    items: Seq<SelbriLikeConnectedPost<'arena, Selbri4<'arena>, Selbri2<'arena>>>,
    toks: Seq<Token>,
    pos: nat,
) -> bool
    decreases rest(toks, pos), 80nat,
{
    &&& forall|i: int|
        #![trigger items[i]]
        #![trigger run_of_selbri_3_connected_post(toks, pos, i as nat)]
        0 <= i < items.len() ==> spec_selbri_3_connected_post(
            toks,
            pos + run_of_selbri_3_connected_post(toks, pos, i as nat),
        ) is Matched && is_selbri_3_connected_post(
            items[i],
            toks,
            pos + run_of_selbri_3_connected_post(toks, pos, i as nat),
        )
    &&& !(spec_selbri_3_connected_post(
        toks,
        pos + run_of_selbri_3_connected_post(toks, pos, items.len()),
    ) is Matched)
}

/// What [`is_row_of_selbri_3_connected_post`] says.
pub proof fn lemma_is_row_of_selbri_3_connected_post<'arena>(
    items: Seq<SelbriLikeConnectedPost<'arena, Selbri4<'arena>, Selbri2<'arena>>>,
    toks: Seq<Token>,
    pos: nat,
)
    ensures
        is_row_of_selbri_3_connected_post(items, toks, pos) == ({
            &&& forall|i: int|
                #![trigger items[i]]
                #![trigger run_of_selbri_3_connected_post(toks, pos, i as nat)]
                0 <= i < items.len() ==> spec_selbri_3_connected_post(
                    toks,
                    pos + run_of_selbri_3_connected_post(toks, pos, i as nat),
                ) is Matched && is_selbri_3_connected_post(
                    items[i],
                    toks,
                    pos + run_of_selbri_3_connected_post(toks, pos, i as nat),
                )
            &&& !(spec_selbri_3_connected_post(
                toks,
                pos + run_of_selbri_3_connected_post(toks, pos, items.len()),
            ) is Matched)
        }),
{
    reveal(is_row_of_selbri_3_connected_post);
    reveal(is_selbri_3_connected_post);
}

/// Whether `node` is the node that `Selbri3ConnectedPostNormal` makes of the tokens at `pos`.
#[verifier::opaque]
pub closed spec fn is_selbri_3_connected_post_normal<'arena>(
    node: SelbriLikeConnectedPost<'arena, Selbri4<'arena>, Selbri2<'arena>>,
    toks: Seq<Token>,
    pos: nat,
) -> bool
    decreases rest(toks, pos), 78nat,
{
    match node {
        SelbriLikeConnectedPost::Normal(field_0, field_1) => match spec_joik_jek(toks, pos) {
            Outcome::Matched(n1) => {
                &&& is_joik_jek(field_0, toks, pos)
                &&& match spec_selbri_4(toks, pos + n1) {
                        Outcome::Matched(_) => is_selbri_4(field_1, toks, pos + n1),
                        _ => false,
                    }
            },
            _ => false,
        },
        _ => false,
    }
}

/// What [`is_selbri_3_connected_post_normal`] says.
pub proof fn lemma_is_selbri_3_connected_post_normal<'arena>(
    node: SelbriLikeConnectedPost<'arena, Selbri4<'arena>, Selbri2<'arena>>,
    toks: Seq<Token>,
    pos: nat,
)
    ensures
        is_selbri_3_connected_post_normal(node, toks, pos) == (
            match node {
                SelbriLikeConnectedPost::Normal(
                    field_0,
                    field_1,
                ) => match spec_joik_jek(toks, pos) {
                    Outcome::Matched(n1) => {
                        &&& is_joik_jek(field_0, toks, pos)
                        &&& match spec_selbri_4(toks, pos + n1) {
                                Outcome::Matched(_) => is_selbri_4(field_1, toks, pos + n1),
                                _ => false,
                            }
                    },
                    _ => false,
                },
                _ => false,
            }
        ),
{
    reveal(is_selbri_3_connected_post_normal);
    reveal(is_joik_jek);
    reveal(is_selbri_4);
}

/// Whether `node` is the node that `Selbri3ConnectedPostParenthesized` makes of the tokens at `pos`.
#[verifier::opaque]
pub closed spec fn is_selbri_3_connected_post_parenthesized<'arena>(
    node: SelbriLikeConnectedPost<'arena, Selbri4<'arena>, Selbri2<'arena>>,
    toks: Seq<Token>,
    pos: nat,
) -> bool
    decreases rest(toks, pos), 32nat,
{
    match node {
        SelbriLikeConnectedPost::Parenthesized(
            field_0,
            field_1,
            field_2,
            field_3,
            field_4,
            field_5,
        ) => match spec_joik_jek(toks, pos) {
            Outcome::Matched(n1) => {
                &&& is_joik_jek(field_0, toks, pos)
                &&& match spec_opt(spec_tag_words(toks, pos + n1)) {
                        Outcome::Matched(n2) => {
                            &&& (match field_1 {
                                    Some(inner) => {
                                        &&& spec_tag_words(toks, pos + n1) is Matched
                                        &&& is_tag_words(inner, toks, pos + n1)
                                    },
                                    None => spec_tag_words(toks, pos + n1) is Error,
                                })
                            &&& match spec_word_with_free(toks, pos + n1 + n2, Selmaho::Ke) {
                                    Outcome::Matched(n3) => {
                                        &&& is_word_with_free(
                                            field_2,
                                            toks,
                                            pos + n1 + n2,
                                            Selmaho::Ke,
                                        )
                                        &&& match spec_selbri_2(toks, pos + n1 + n2 + n3) {
                                                Outcome::Matched(n4) => {
                                                    &&& advanced(toks, pos, n1 + n2 + n3)
                                                    &&& is_selbri_2(
                                                        field_3,
                                                        toks,
                                                        pos + n1 + n2 + n3,
                                                    )
                                                    &&& match spec_opt(
                                                        spec_word(
                                                            toks,
                                                            pos + n1 + n2 + n3 + n4,
                                                            Selmaho::Kehe,
                                                        ),
                                                    ) {
                                                            Outcome::Matched(n5) => {
                                                                &&& (match field_4 {
                                                                        Some(inner) => {
                                                                            &&& spec_word(
                                                                                toks,
                                                                                pos + n1 + n2 + n3 + n4,
                                                                                Selmaho::Kehe,
                                                                            ) is Matched
                                                                            &&& is_word(
                                                                                inner,
                                                                                toks,
                                                                                pos + n1 + n2 + n3 + n4,
                                                                                Selmaho::Kehe,
                                                                            )
                                                                        },
                                                                        None => spec_word(
                                                                            toks,
                                                                            pos + n1 + n2 + n3 + n4,
                                                                            Selmaho::Kehe,
                                                                        ) is Error,
                                                                    })
                                                                &&& match spec_frees(
                                                                    toks,
                                                                    pos + n1 + n2 + n3 + n4 + n5,
                                                                ) {
                                                                        Outcome::Matched(_) => is_frees(
                                                                            field_5,
                                                                            toks,
                                                                            pos + n1 + n2 + n3 + n4 + n5,
                                                                        ),
                                                                        _ => false,
                                                                    }
                                                            },
                                                            _ => false,
                                                        }
                                                },
                                                _ => false,
                                            }
                                    },
                                    _ => false,
                                }
                        },
                        _ => false,
                    }
            },
            _ => false,
        },
        _ => false,
    }
}

/// What [`is_selbri_3_connected_post_parenthesized`] says.
pub proof fn lemma_is_selbri_3_connected_post_parenthesized<'arena>(
    node: SelbriLikeConnectedPost<'arena, Selbri4<'arena>, Selbri2<'arena>>,
    toks: Seq<Token>,
    pos: nat,
)
    ensures
        is_selbri_3_connected_post_parenthesized(node, toks, pos) == (
            match node {
                SelbriLikeConnectedPost::Parenthesized(
                    field_0,
                    field_1,
                    field_2,
                    field_3,
                    field_4,
                    field_5,
                ) => match spec_joik_jek(toks, pos) {
                    Outcome::Matched(n1) => {
                        &&& is_joik_jek(field_0, toks, pos)
                        &&& match spec_opt(spec_tag_words(toks, pos + n1)) {
                                Outcome::Matched(n2) => {
                                    &&& (match field_1 {
                                            Some(inner) => {
                                                &&& spec_tag_words(toks, pos + n1) is Matched
                                                &&& is_tag_words(inner, toks, pos + n1)
                                            },
                                            None => spec_tag_words(toks, pos + n1) is Error,
                                        })
                                    &&& match spec_word_with_free(
                                        toks,
                                        pos + n1 + n2,
                                        Selmaho::Ke,
                                    ) {
                                            Outcome::Matched(n3) => {
                                                &&& is_word_with_free(
                                                    field_2,
                                                    toks,
                                                    pos + n1 + n2,
                                                    Selmaho::Ke,
                                                )
                                                &&& match spec_selbri_2(
                                                    toks,
                                                    pos + n1 + n2 + n3,
                                                ) {
                                                        Outcome::Matched(n4) => {
                                                            &&& advanced(toks, pos, n1 + n2 + n3)
                                                            &&& is_selbri_2(
                                                                field_3,
                                                                toks,
                                                                pos + n1 + n2 + n3,
                                                            )
                                                            &&& match spec_opt(
                                                                spec_word(
                                                                    toks,
                                                                    pos + n1 + n2 + n3 + n4,
                                                                    Selmaho::Kehe,
                                                                ),
                                                            ) {
                                                                    Outcome::Matched(n5) => {
                                                                        &&& (match field_4 {
                                                                                Some(inner) => {
                                                                                    &&& spec_word(
                                                                                        toks,
                                                                                        pos + n1 + n2 + n3 + n4,
                                                                                        Selmaho::Kehe,
                                                                                    ) is Matched
                                                                                    &&& is_word(
                                                                                        inner,
                                                                                        toks,
                                                                                        pos + n1 + n2 + n3 + n4,
                                                                                        Selmaho::Kehe,
                                                                                    )
                                                                                },
                                                                                None => spec_word(
                                                                                    toks,
                                                                                    pos + n1 + n2 + n3 + n4,
                                                                                    Selmaho::Kehe,
                                                                                ) is Error,
                                                                            })
                                                                        &&& match spec_frees(
                                                                            toks,
                                                                            pos + n1 + n2 + n3 + n4 + n5,
                                                                        ) {
                                                                                Outcome::Matched(_) => is_frees(
                                                                                    field_5,
                                                                                    toks,
                                                                                    pos + n1 + n2 + n3 + n4 + n5,
                                                                                ),
                                                                                _ => false,
                                                                            }
                                                                    },
                                                                    _ => false,
                                                                }
                                                        },
                                                        _ => false,
                                                    }
                                            },
                                            _ => false,
                                        }
                                },
                                _ => false,
                            }
                    },
                    _ => false,
                },
                _ => false,
            }
        ),
{
    reveal(is_selbri_3_connected_post_parenthesized);
    reveal(is_joik_jek);
    reveal(is_tag_words);
    reveal(is_word_with_free);
    reveal(is_selbri_2);
    reveal(is_word);
    reveal(is_frees);
}

/// Whether `node` is the node that `Selbri2ListNext` makes of the tokens at `pos`.
#[verifier::opaque]
pub closed spec fn is_selbri_2_list_next<'arena>(
    node: (WithFree<'arena, Word<'arena>>, Selbri2<'arena>),
    toks: Seq<Token>,
    pos: nat,
) -> bool
    decreases rest(toks, pos), 84nat,
{
    match spec_word_with_free(toks, pos, Selmaho::Co) {
        Outcome::Matched(n1) => {
            &&& is_word_with_free(node.0, toks, pos, Selmaho::Co)
            &&& match spec_selbri_2(toks, pos + n1) {
                    Outcome::Matched(_) => is_selbri_2(node.1, toks, pos + n1),
                    _ => false,
                }
        },
        _ => false,
    }
}

/// What [`is_selbri_2_list_next`] says.
pub proof fn lemma_is_selbri_2_list_next<'arena>(
    node: (WithFree<'arena, Word<'arena>>, Selbri2<'arena>),
    toks: Seq<Token>,
    pos: nat,
)
    ensures
        is_selbri_2_list_next(node, toks, pos) == (
            match spec_word_with_free(toks, pos, Selmaho::Co) {
                Outcome::Matched(n1) => {
                    &&& is_word_with_free(node.0, toks, pos, Selmaho::Co)
                    &&& match spec_selbri_2(toks, pos + n1) {
                            Outcome::Matched(_) => is_selbri_2(node.1, toks, pos + n1),
                            _ => false,
                        }
                },
                _ => false,
            }
        ),
{
    reveal(is_selbri_2_list_next);
    reveal(is_word_with_free);
    reveal(is_selbri_2);
}

/// How many tokens the first `count` of a row of `Selbri2ListNext` take at `pos`.
pub open spec fn run_of_selbri_2_list_next(toks: Seq<Token>, pos: nat, count: nat) -> nat
    decreases count,
{
    if count == 0 {
        0
    } else {
        let before = run_of_selbri_2_list_next(toks, pos, (count - 1) as nat);
        before + (match spec_selbri_2_list_next(toks, pos + before) {
            Outcome::Matched(len) => len,
            _ => 0,
        })
    }
}

/// Whether `items` are the nodes of a row of `Selbri2ListNext` at `pos`: each is the
/// node of the `Selbri2ListNext` at its place, and no further one follows them.
#[verifier::opaque]
pub closed spec fn is_row_of_selbri_2_list_next<'arena>(
    items: Seq<(WithFree<'arena, Word<'arena>>, Selbri2<'arena>)>,
    toks: Seq<Token>,
    pos: nat,
) -> bool
    decreases rest(toks, pos), 85nat,
{
    &&& forall|i: int|
        #![trigger items[i]]
        #![trigger run_of_selbri_2_list_next(toks, pos, i as nat)]
        0 <= i < items.len() ==> spec_selbri_2_list_next(
            toks,
            pos + run_of_selbri_2_list_next(toks, pos, i as nat),
        ) is Matched && is_selbri_2_list_next(
            items[i],
            toks,
            pos + run_of_selbri_2_list_next(toks, pos, i as nat),
        )
    &&& !(spec_selbri_2_list_next(
        toks,
        pos + run_of_selbri_2_list_next(toks, pos, items.len()),
    ) is Matched)
}

/// What [`is_row_of_selbri_2_list_next`] says.
pub proof fn lemma_is_row_of_selbri_2_list_next<'arena>(
    items: Seq<(WithFree<'arena, Word<'arena>>, Selbri2<'arena>)>,
    toks: Seq<Token>,
    pos: nat,
)
    ensures
        is_row_of_selbri_2_list_next(items, toks, pos) == ({
            &&& forall|i: int|
                #![trigger items[i]]
                #![trigger run_of_selbri_2_list_next(toks, pos, i as nat)]
                0 <= i < items.len() ==> spec_selbri_2_list_next(
                    toks,
                    pos + run_of_selbri_2_list_next(toks, pos, i as nat),
                ) is Matched && is_selbri_2_list_next(
                    items[i],
                    toks,
                    pos + run_of_selbri_2_list_next(toks, pos, i as nat),
                )
            &&& !(spec_selbri_2_list_next(
                toks,
                pos + run_of_selbri_2_list_next(toks, pos, items.len()),
            ) is Matched)
        }),
{
    reveal(is_row_of_selbri_2_list_next);
    reveal(is_selbri_2_list_next);
}

/// Whether `node` is the node that `TagWordsNext` makes of the tokens at `pos`.
#[verifier::opaque]
pub closed spec fn is_tag_words_next<'arena>(
    node: (JoikJek<'arena>, TagWord<'arena>),
    toks: Seq<Token>,
    pos: nat,
) -> bool
    decreases rest(toks, pos), 29nat,
{
    match spec_joik_jek(toks, pos) {
        Outcome::Matched(n1) => {
            &&& is_joik_jek(node.0, toks, pos)
            &&& match spec_tag_word(toks, pos + n1) {
                    Outcome::Matched(_) => is_tag_word(node.1, toks, pos + n1),
                    _ => false,
                }
        },
        _ => false,
    }
}

/// What [`is_tag_words_next`] says.
pub proof fn lemma_is_tag_words_next<'arena>(
    node: (JoikJek<'arena>, TagWord<'arena>),
    toks: Seq<Token>,
    pos: nat,
)
    ensures
        is_tag_words_next(node, toks, pos) == (
            match spec_joik_jek(toks, pos) {
                Outcome::Matched(n1) => {
                    &&& is_joik_jek(node.0, toks, pos)
                    &&& match spec_tag_word(toks, pos + n1) {
                            Outcome::Matched(_) => is_tag_word(node.1, toks, pos + n1),
                            _ => false,
                        }
                },
                _ => false,
            }
        ),
{
    reveal(is_tag_words_next);
    reveal(is_joik_jek);
    reveal(is_tag_word);
}

/// How many tokens the first `count` of a row of `TagWordsNext` take at `pos`.
pub open spec fn run_of_tag_words_next(toks: Seq<Token>, pos: nat, count: nat) -> nat
    decreases count,
{
    if count == 0 {
        0
    } else {
        let before = run_of_tag_words_next(toks, pos, (count - 1) as nat);
        before + (match spec_tag_words_next(toks, pos + before) {
            Outcome::Matched(len) => len,
            _ => 0,
        })
    }
}

/// Whether `items` are the nodes of a row of `TagWordsNext` at `pos`: each is the
/// node of the `TagWordsNext` at its place, and no further one follows them.
#[verifier::opaque]
pub closed spec fn is_row_of_tag_words_next<'arena>(
    items: Seq<(JoikJek<'arena>, TagWord<'arena>)>,
    toks: Seq<Token>,
    pos: nat,
) -> bool
    decreases rest(toks, pos), 30nat,
{
    &&& forall|i: int|
        #![trigger items[i]]
        #![trigger run_of_tag_words_next(toks, pos, i as nat)]
        0 <= i < items.len() ==> spec_tag_words_next(
            toks,
            pos + run_of_tag_words_next(toks, pos, i as nat),
        ) is Matched && is_tag_words_next(
            items[i],
            toks,
            pos + run_of_tag_words_next(toks, pos, i as nat),
        )
    &&& !(spec_tag_words_next(
        toks,
        pos + run_of_tag_words_next(toks, pos, items.len()),
    ) is Matched)
}

/// What [`is_row_of_tag_words_next`] says.
pub proof fn lemma_is_row_of_tag_words_next<'arena>(
    items: Seq<(JoikJek<'arena>, TagWord<'arena>)>,
    toks: Seq<Token>,
    pos: nat,
)
    ensures
        is_row_of_tag_words_next(items, toks, pos) == ({
            &&& forall|i: int|
                #![trigger items[i]]
                #![trigger run_of_tag_words_next(toks, pos, i as nat)]
                0 <= i < items.len() ==> spec_tag_words_next(
                    toks,
                    pos + run_of_tag_words_next(toks, pos, i as nat),
                ) is Matched && is_tag_words_next(
                    items[i],
                    toks,
                    pos + run_of_tag_words_next(toks, pos, i as nat),
                )
            &&& !(spec_tag_words_next(
                toks,
                pos + run_of_tag_words_next(toks, pos, items.len()),
            ) is Matched)
        }),
{
    reveal(is_row_of_tag_words_next);
    reveal(is_tag_words_next);
}

/// Whether `node` is the node that `TagValue` makes of the tokens at `pos`: the
/// node of the first alternative that matches.
#[verifier::opaque]
pub closed spec fn is_tag_value<'arena>(
    node: TagValue<'arena>,
    toks: Seq<Token>,
    pos: nat,
) -> bool
    decreases rest(toks, pos), 46nat,
{
    match spec_tag_value_ku(toks, pos) {
        Outcome::Matched(_) => is_tag_value_ku(node, toks, pos),
        Outcome::Error(
            _,
        ) => spec_tag_value_sumti(toks, pos) is Matched && is_tag_value_sumti(node, toks, pos),
        Outcome::Failure(_) => false,
    }
}

/// What [`is_tag_value`] says.
pub proof fn lemma_is_tag_value<'arena>(toks: Seq<Token>, pos: nat)
    ensures
        forall|node: TagValue<'arena>| #[trigger] is_tag_value(node, toks, pos) == (
            match spec_tag_value_ku(toks, pos) {
                Outcome::Matched(_) => is_tag_value_ku(node, toks, pos),
                Outcome::Error(
                    _,
                ) => spec_tag_value_sumti(
                    toks,
                    pos,
                ) is Matched && is_tag_value_sumti(node, toks, pos),
                Outcome::Failure(_) => false,
            }
        ),
{
    reveal(is_tag_value);
    reveal(is_tag_value_ku);
    reveal(is_tag_value_sumti);
}

/// Whether `node` is the node that `TagValueKu` makes of the tokens at `pos`.
#[verifier::opaque]
pub closed spec fn is_tag_value_ku<'arena>(
    node: TagValue<'arena>,
    toks: Seq<Token>,
    pos: nat,
) -> bool
    decreases rest(toks, pos), 4nat,
{
    match node {
        TagValue::Ku(field_0) => match spec_word_with_free(toks, pos, Selmaho::Ku) {
            Outcome::Matched(_) => is_word_with_free(field_0, toks, pos, Selmaho::Ku),
            _ => false,
        },
        _ => false,
    }
}

/// What [`is_tag_value_ku`] says.
pub proof fn lemma_is_tag_value_ku<'arena>(node: TagValue<'arena>, toks: Seq<Token>, pos: nat)
    ensures
        is_tag_value_ku(node, toks, pos) == (
            match node {
                TagValue::Ku(field_0) => match spec_word_with_free(toks, pos, Selmaho::Ku) {
                    Outcome::Matched(_) => is_word_with_free(field_0, toks, pos, Selmaho::Ku),
                    _ => false,
                },
                _ => false,
            }
        ),
{
    reveal(is_tag_value_ku);
    reveal(is_word_with_free);
}

/// Whether `node` is the node that `TagValueSumti` makes of the tokens at `pos`.
#[verifier::opaque]
pub closed spec fn is_tag_value_sumti<'arena>(
    node: TagValue<'arena>,
    toks: Seq<Token>,
    pos: nat,
) -> bool
    decreases rest(toks, pos), 45nat,
{
    match node {
        TagValue::Sumti(field_0) => match spec_sumti(toks, pos) {
            Outcome::Matched(_) => is_sumti(field_0, toks, pos),
            _ => false,
        },
        _ => false,
    }
}

/// What [`is_tag_value_sumti`] says.
pub proof fn lemma_is_tag_value_sumti<'arena>(node: TagValue<'arena>, toks: Seq<Token>, pos: nat)
    ensures
        is_tag_value_sumti(node, toks, pos) == (
            match node {
                TagValue::Sumti(field_0) => match spec_sumti(toks, pos) {
                    Outcome::Matched(_) => is_sumti(field_0, toks, pos),
                    _ => false,
                },
                _ => false,
            }
        ),
{
    reveal(is_tag_value_sumti);
    reveal(is_sumti);
}

/// Whether `node` is the node that `Arg3Sumti` makes of the tokens at `pos`.
#[verifier::opaque]
pub closed spec fn is_arg_3_sumti<'arena>(node: Arg3<'arena>, toks: Seq<Token>, pos: nat) -> bool
    decreases rest(toks, pos), 45nat,
{
    match node {
        Arg3::Sumti { fa, sumti } => match spec_opt(spec_word_with_free(toks, pos, Selmaho::Fa)) {
            Outcome::Matched(n1) => {
                &&& (match fa {
                        Some(inner) => {
                            &&& spec_word_with_free(toks, pos, Selmaho::Fa) is Matched
                            &&& is_word_with_free(inner, toks, pos, Selmaho::Fa)
                        },
                        None => spec_word_with_free(toks, pos, Selmaho::Fa) is Error,
                    })
                &&& match spec_sumti(toks, pos + n1) {
                        Outcome::Matched(_) => is_sumti(sumti, toks, pos + n1),
                        _ => false,
                    }
            },
            _ => false,
        },
        _ => false,
    }
}

/// What [`is_arg_3_sumti`] says.
pub proof fn lemma_is_arg_3_sumti<'arena>(node: Arg3<'arena>, toks: Seq<Token>, pos: nat)
    ensures
        is_arg_3_sumti(node, toks, pos) == (
            match node {
                Arg3::Sumti { fa, sumti } => match spec_opt(
                    spec_word_with_free(toks, pos, Selmaho::Fa),
                ) {
                    Outcome::Matched(n1) => {
                        &&& (match fa {
                                Some(inner) => {
                                    &&& spec_word_with_free(toks, pos, Selmaho::Fa) is Matched
                                    &&& is_word_with_free(inner, toks, pos, Selmaho::Fa)
                                },
                                None => spec_word_with_free(toks, pos, Selmaho::Fa) is Error,
                            })
                        &&& match spec_sumti(toks, pos + n1) {
                                Outcome::Matched(_) => is_sumti(sumti, toks, pos + n1),
                                _ => false,
                            }
                    },
                    _ => false,
                },
                _ => false,
            }
        ),
{
    reveal(is_arg_3_sumti);
    reveal(is_word_with_free);
    reveal(is_sumti);
}

/// Whether `node` is the node that `Arg3Naku` makes of the tokens at `pos`.
#[verifier::opaque]
pub closed spec fn is_arg_3_naku<'arena>(node: Arg3<'arena>, toks: Seq<Token>, pos: nat) -> bool
    decreases rest(toks, pos), 25nat,
{
    match node {
        Arg3::Naku(field_0, field_1, field_2) => match spec_word(toks, pos, Selmaho::Na) {
            Outcome::Matched(n1) => {
                &&& is_word(field_0, toks, pos, Selmaho::Na)
                &&& match spec_word(toks, pos + n1, Selmaho::Ku) {
                        Outcome::Matched(n2) => {
                            &&& is_word(field_1, toks, pos + n1, Selmaho::Ku)
                            &&& match spec_frees(toks, pos + n1 + n2) {
                                    Outcome::Matched(_) => is_frees(field_2, toks, pos + n1 + n2),
                                    _ => false,
                                }
                        },
                        _ => false,
                    }
            },
            _ => false,
        },
        _ => false,
    }
}

/// What [`is_arg_3_naku`] says.
pub proof fn lemma_is_arg_3_naku<'arena>(node: Arg3<'arena>, toks: Seq<Token>, pos: nat)
    ensures
        is_arg_3_naku(node, toks, pos) == (
            match node {
                Arg3::Naku(field_0, field_1, field_2) => match spec_word(toks, pos, Selmaho::Na) {
                    Outcome::Matched(n1) => {
                        &&& is_word(field_0, toks, pos, Selmaho::Na)
                        &&& match spec_word(toks, pos + n1, Selmaho::Ku) {
                                Outcome::Matched(n2) => {
                                    &&& is_word(field_1, toks, pos + n1, Selmaho::Ku)
                                    &&& match spec_frees(toks, pos + n1 + n2) {
                                            Outcome::Matched(_) => is_frees(
                                                field_2,
                                                toks,
                                                pos + n1 + n2,
                                            ),
                                            _ => false,
                                        }
                                },
                                _ => false,
                            }
                    },
                    _ => false,
                },
                _ => false,
            }
        ),
{
    reveal(is_arg_3_naku);
    reveal(is_word);
    reveal(is_frees);
}

/// Whether `node` is the node that `Arg3Termset` makes of the tokens at `pos`.
#[verifier::opaque]
pub closed spec fn is_arg_3_termset<'arena>(
    node: Arg3<'arena>,
    toks: Seq<Token>,
    pos: nat,
) -> bool
    decreases rest(toks, pos), 36nat,
{
    match node {
        Arg3::Termset(field_0) => match spec_termset(toks, pos) {
            Outcome::Matched(_) => is_termset(*field_0, toks, pos),
            _ => false,
        },
        _ => false,
    }
}

/// What [`is_arg_3_termset`] says.
pub proof fn lemma_is_arg_3_termset<'arena>(node: Arg3<'arena>, toks: Seq<Token>, pos: nat)
    ensures
        is_arg_3_termset(node, toks, pos) == (
            match node {
                Arg3::Termset(field_0) => match spec_termset(toks, pos) {
                    Outcome::Matched(_) => is_termset(*field_0, toks, pos),
                    _ => false,
                },
                _ => false,
            }
        ),
{
    reveal(is_arg_3_termset);
    reveal(is_termset);
}

/// Whether `node` is the node that `Termset` makes of the tokens at `pos`: the
/// node of the first alternative that matches.
#[verifier::opaque]
pub closed spec fn is_termset<'arena>(node: Termset<'arena>, toks: Seq<Token>, pos: nat) -> bool
    decreases rest(toks, pos), 35nat,
{
    match spec_termset_gek(toks, pos) {
        Outcome::Matched(_) => is_termset_gek(node, toks, pos),
        Outcome::Error(_) => match spec_termset_nuhi_gi(toks, pos) {
            Outcome::Matched(_) => is_termset_nuhi_gi(node, toks, pos),
            Outcome::Error(
                _,
            ) => spec_termset_nuhi(toks, pos) is Matched && is_termset_nuhi(node, toks, pos),
            Outcome::Failure(_) => false,
        },
        Outcome::Failure(_) => false,
    }
}

/// What [`is_termset`] says.
pub proof fn lemma_is_termset<'arena>(toks: Seq<Token>, pos: nat)
    ensures
        forall|node: Termset<'arena>| #[trigger] is_termset(node, toks, pos) == (
            match spec_termset_gek(toks, pos) {
                Outcome::Matched(_) => is_termset_gek(node, toks, pos),
                Outcome::Error(_) => match spec_termset_nuhi_gi(toks, pos) {
                    Outcome::Matched(_) => is_termset_nuhi_gi(node, toks, pos),
                    Outcome::Error(
                        _,
                    ) => spec_termset_nuhi(
                        toks,
                        pos,
                    ) is Matched && is_termset_nuhi(node, toks, pos),
                    Outcome::Failure(_) => false,
                },
                Outcome::Failure(_) => false,
            }
        ),
{
    reveal(is_termset);
    reveal(is_termset_gek);
    reveal(is_termset_nuhi_gi);
    reveal(is_termset_nuhi);
}

/// Whether `node` is the node that `TermsetGek` makes of the tokens at `pos`.
#[verifier::opaque]
pub closed spec fn is_termset_gek<'arena>(
    node: Termset<'arena>,
    toks: Seq<Token>,
    pos: nat,
) -> bool
    decreases rest(toks, pos), 34nat,
{
    match node {
        Termset::Gek(field_0, field_1, field_2, field_3) => match spec_gek(toks, pos) {
            Outcome::Matched(n1) => {
                &&& is_gek(field_0, toks, pos)
                &&& match spec_args(toks, pos + n1) {
                        Outcome::Matched(n2) => {
                            &&& advanced(toks, pos, n1)
                            &&& is_args(field_1, toks, pos + n1)
                            &&& match spec_gik(toks, pos + n1 + n2) {
                                    Outcome::Matched(n3) => {
                                        &&& is_gik(field_2, toks, pos + n1 + n2)
                                        &&& match spec_args(toks, pos + n1 + n2 + n3) {
                                                Outcome::Matched(_) => {
                                                    &&& advanced(toks, pos, n1 + n2 + n3)
                                                    &&& is_args(field_3, toks, pos + n1 + n2 + n3)
                                                },
                                                _ => false,
                                            }
                                    },
                                    _ => false,
                                }
                        },
                        _ => false,
                    }
            },
            _ => false,
        },
        _ => false,
    }
}

/// What [`is_termset_gek`] says.
pub proof fn lemma_is_termset_gek<'arena>(node: Termset<'arena>, toks: Seq<Token>, pos: nat)
    ensures
        is_termset_gek(node, toks, pos) == (
            match node {
                Termset::Gek(field_0, field_1, field_2, field_3) => match spec_gek(toks, pos) {
                    Outcome::Matched(n1) => {
                        &&& is_gek(field_0, toks, pos)
                        &&& match spec_args(toks, pos + n1) {
                                Outcome::Matched(n2) => {
                                    &&& advanced(toks, pos, n1)
                                    &&& is_args(field_1, toks, pos + n1)
                                    &&& match spec_gik(toks, pos + n1 + n2) {
                                            Outcome::Matched(n3) => {
                                                &&& is_gik(field_2, toks, pos + n1 + n2)
                                                &&& match spec_args(toks, pos + n1 + n2 + n3) {
                                                        Outcome::Matched(_) => {
                                                            &&& advanced(toks, pos, n1 + n2 + n3)
                                                            &&& is_args(
                                                                field_3,
                                                                toks,
                                                                pos + n1 + n2 + n3,
                                                            )
                                                        },
                                                        _ => false,
                                                    }
                                            },
                                            _ => false,
                                        }
                                },
                                _ => false,
                            }
                    },
                    _ => false,
                },
                _ => false,
            }
        ),
{
    reveal(is_termset_gek);
    reveal(is_gek);
    reveal(is_args);
    reveal(is_gik);
}

/// Whether `node` is the node that `TermsetNuhiGi` makes of the tokens at `pos`.
#[verifier::opaque]
pub closed spec fn is_termset_nuhi_gi<'arena>(
    node: Termset<'arena>,
    toks: Seq<Token>,
    pos: nat,
) -> bool
    decreases rest(toks, pos), 34nat,
{
    match node {
        Termset::NuhiGi(
            field_0,
            field_1,
            field_2,
            field_3,
            field_4,
            field_5,
            field_6,
            field_7,
            field_8,
        ) => match spec_word_with_free(toks, pos, Selmaho::Nuhi) {
            Outcome::Matched(n1) => {
                &&& is_word_with_free(field_0, toks, pos, Selmaho::Nuhi)
                &&& match spec_gek(toks, pos + n1) {
                        Outcome::Matched(n2) => {
                            &&& is_gek(field_1, toks, pos + n1)
                            &&& match spec_args(toks, pos + n1 + n2) {
                                    Outcome::Matched(n3) => {
                                        &&& advanced(toks, pos, n1 + n2)
                                        &&& is_args(field_2, toks, pos + n1 + n2)
                                        &&& match spec_opt(
                                            spec_word(toks, pos + n1 + n2 + n3, Selmaho::Nuhu),
                                        ) {
                                                Outcome::Matched(n4) => {
                                                    &&& (match field_3 {
                                                            Some(inner) => {
                                                                &&& spec_word(
                                                                    toks,
                                                                    pos + n1 + n2 + n3,
                                                                    Selmaho::Nuhu,
                                                                ) is Matched
                                                                &&& is_word(
                                                                    inner,
                                                                    toks,
                                                                    pos + n1 + n2 + n3,
                                                                    Selmaho::Nuhu,
                                                                )
                                                            },
                                                            None => spec_word(
                                                                toks,
                                                                pos + n1 + n2 + n3,
                                                                Selmaho::Nuhu,
                                                            ) is Error,
                                                        })
                                                    &&& match spec_frees(
                                                        toks,
                                                        pos + n1 + n2 + n3 + n4,
                                                    ) {
                                                            Outcome::Matched(n5) => {
                                                                &&& is_frees(
                                                                    field_4,
                                                                    toks,
                                                                    pos + n1 + n2 + n3 + n4,
                                                                )
                                                                &&& match spec_gik(
                                                                    toks,
                                                                    pos + n1 + n2 + n3 + n4 + n5,
                                                                ) {
                                                                        Outcome::Matched(n6) => {
                                                                            &&& is_gik(
                                                                                field_5,
                                                                                toks,
                                                                                pos + n1 + n2 + n3 + n4 + n5,
                                                                            )
                                                                            &&& match spec_args(
                                                                                toks,
                                                                                pos + n1 + n2 + n3 + n4 + n5 + n6,
                                                                            ) {
                                                                                    Outcome::Matched(n7) => {
                                                                                        &&& advanced(
                                                                                            toks,
                                                                                            pos,
                                                                                            n1 + n2 + n3 + n4 + n5 + n6,
                                                                                        )
                                                                                        &&& is_args(
                                                                                            field_6,
                                                                                            toks,
                                                                                            pos + n1 + n2 + n3 + n4 + n5 + n6,
                                                                                        )
                                                                                        &&& match spec_opt(
                                                                                            spec_word(
                                                                                                toks,
                                                                                                pos + n1 + n2 + n3 + n4 + n5 + n6 + n7,
                                                                                                Selmaho::Nuhu,
                                                                                            ),
                                                                                        ) {
                                                                                                Outcome::Matched(n8) => {
                                                                                                    &&& (match field_7 {
                                                                                                            Some(inner) => {
                                                                                                                &&& spec_word(
                                                                                                                    toks,
                                                                                                                    pos + n1 + n2 + n3 + n4 + n5 + n6 + n7,
                                                                                                                    Selmaho::Nuhu,
                                                                                                                ) is Matched
                                                                                                                &&& is_word(
                                                                                                                    inner,
                                                                                                                    toks,
                                                                                                                    pos + n1 + n2 + n3 + n4 + n5 + n6 + n7,
                                                                                                                    Selmaho::Nuhu,
                                                                                                                )
                                                                                                            },
                                                                                                            None => spec_word(
                                                                                                                toks,
                                                                                                                pos + n1 + n2 + n3 + n4 + n5 + n6 + n7,
                                                                                                                Selmaho::Nuhu,
                                                                                                            ) is Error,
                                                                                                        })
                                                                                                    &&& match spec_frees(
                                                                                                        toks,
                                                                                                        pos + n1 + n2 + n3 + n4 + n5 + n6 + n7 + n8,
                                                                                                    ) {
                                                                                                            Outcome::Matched(_) => is_frees(
                                                                                                                field_8,
                                                                                                                toks,
                                                                                                                pos + n1 + n2 + n3 + n4 + n5 + n6 + n7 + n8,
                                                                                                            ),
                                                                                                            _ => false,
                                                                                                        }
                                                                                                },
                                                                                                _ => false,
                                                                                            }
                                                                                    },
                                                                                    _ => false,
                                                                                }
                                                                        },
                                                                        _ => false,
                                                                    }
                                                            },
                                                            _ => false,
                                                        }
                                                },
                                                _ => false,
                                            }
                                    },
                                    _ => false,
                                }
                        },
                        _ => false,
                    }
            },
            _ => false,
        },
        _ => false,
    }
}

/// What [`is_termset_nuhi_gi`] says.
pub proof fn lemma_is_termset_nuhi_gi<'arena>(node: Termset<'arena>, toks: Seq<Token>, pos: nat)
    ensures
        is_termset_nuhi_gi(node, toks, pos) == (
            match node {
                Termset::NuhiGi(
                    field_0,
                    field_1,
                    field_2,
                    field_3,
                    field_4,
                    field_5,
                    field_6,
                    field_7,
                    field_8,
                ) => match spec_word_with_free(toks, pos, Selmaho::Nuhi) {
                    Outcome::Matched(n1) => {
                        &&& is_word_with_free(field_0, toks, pos, Selmaho::Nuhi)
                        &&& match spec_gek(toks, pos + n1) {
                                Outcome::Matched(n2) => {
                                    &&& is_gek(field_1, toks, pos + n1)
                                    &&& match spec_args(toks, pos + n1 + n2) {
                                            Outcome::Matched(n3) => {
                                                &&& advanced(toks, pos, n1 + n2)
                                                &&& is_args(field_2, toks, pos + n1 + n2)
                                                &&& match spec_opt(
                                                    spec_word(
                                                        toks,
                                                        pos + n1 + n2 + n3,
                                                        Selmaho::Nuhu,
                                                    ),
                                                ) {
                                                        Outcome::Matched(n4) => {
                                                            &&& (match field_3 {
                                                                    Some(inner) => {
                                                                        &&& spec_word(
                                                                            toks,
                                                                            pos + n1 + n2 + n3,
                                                                            Selmaho::Nuhu,
                                                                        ) is Matched
                                                                        &&& is_word(
                                                                            inner,
                                                                            toks,
                                                                            pos + n1 + n2 + n3,
                                                                            Selmaho::Nuhu,
                                                                        )
                                                                    },
                                                                    None => spec_word(
                                                                        toks,
                                                                        pos + n1 + n2 + n3,
                                                                        Selmaho::Nuhu,
                                                                    ) is Error,
                                                                })
                                                            &&& match spec_frees(
                                                                toks,
                                                                pos + n1 + n2 + n3 + n4,
                                                            ) {
                                                                    Outcome::Matched(n5) => {
                                                                        &&& is_frees(
                                                                            field_4,
                                                                            toks,
                                                                            pos + n1 + n2 + n3 + n4,
                                                                        )
                                                                        &&& match spec_gik(
                                                                            toks,
                                                                            pos + n1 + n2 + n3 + n4 + n5,
                                                                        ) {
                                                                                Outcome::Matched(n6) => {
                                                                                    &&& is_gik(
                                                                                        field_5,
                                                                                        toks,
                                                                                        pos + n1 + n2 + n3 + n4 + n5,
                                                                                    )
                                                                                    &&& match spec_args(
                                                                                        toks,
                                                                                        pos + n1 + n2 + n3 + n4 + n5 + n6,
                                                                                    ) {
                                                                                            Outcome::Matched(n7) => {
                                                                                                &&& advanced(
                                                                                                    toks,
                                                                                                    pos,
                                                                                                    n1 + n2 + n3 + n4 + n5 + n6,
                                                                                                )
                                                                                                &&& is_args(
                                                                                                    field_6,
                                                                                                    toks,
                                                                                                    pos + n1 + n2 + n3 + n4 + n5 + n6,
                                                                                                )
                                                                                                &&& match spec_opt(
                                                                                                    spec_word(
                                                                                                        toks,
                                                                                                        pos + n1 + n2 + n3 + n4 + n5 + n6 + n7,
                                                                                                        Selmaho::Nuhu,
                                                                                                    ),
                                                                                                ) {
                                                                                                        Outcome::Matched(n8) => {
                                                                                                            &&& (match field_7 {
                                                                                                                    Some(inner) => {
                                                                                                                        &&& spec_word(
                                                                                                                            toks,
                                                                                                                            pos + n1 + n2 + n3 + n4 + n5 + n6 + n7,
                                                                                                                            Selmaho::Nuhu,
                                                                                                                        ) is Matched
                                                                                                                        &&& is_word(
                                                                                                                            inner,
                                                                                                                            toks,
                                                                                                                            pos + n1 + n2 + n3 + n4 + n5 + n6 + n7,
                                                                                                                            Selmaho::Nuhu,
                                                                                                                        )
                                                                                                                    },
                                                                                                                    None => spec_word(
                                                                                                                        toks,
                                                                                                                        pos + n1 + n2 + n3 + n4 + n5 + n6 + n7,
                                                                                                                        Selmaho::Nuhu,
                                                                                                                    ) is Error,
                                                                                                                })
                                                                                                            &&& match spec_frees(
                                                                                                                toks,
                                                                                                                pos + n1 + n2 + n3 + n4 + n5 + n6 + n7 + n8,
                                                                                                            ) {
                                                                                                                    Outcome::Matched(_) => is_frees(
                                                                                                                        field_8,
                                                                                                                        toks,
                                                                                                                        pos + n1 + n2 + n3 + n4 + n5 + n6 + n7 + n8,
                                                                                                                    ),
                                                                                                                    _ => false,
                                                                                                                }
                                                                                                        },
                                                                                                        _ => false,
                                                                                                    }
                                                                                            },
                                                                                            _ => false,
                                                                                        }
                                                                                },
                                                                                _ => false,
                                                                            }
                                                                    },
                                                                    _ => false,
                                                                }
                                                        },
                                                        _ => false,
                                                    }
                                            },
                                            _ => false,
                                        }
                                },
                                _ => false,
                            }
                    },
                    _ => false,
                },
                _ => false,
            }
        ),
{
    reveal(is_termset_nuhi_gi);
    reveal(is_word_with_free);
    reveal(is_gek);
    reveal(is_args);
    reveal(is_word);
    reveal(is_frees);
    reveal(is_gik);
}

/// Whether `node` is the node that `TermsetNuhi` makes of the tokens at `pos`.
#[verifier::opaque]
pub closed spec fn is_termset_nuhi<'arena>(
    node: Termset<'arena>,
    toks: Seq<Token>,
    pos: nat,
) -> bool
    decreases rest(toks, pos), 25nat,
{
    match node {
        Termset::Nuhi(
            field_0,
            field_1,
            field_2,
            field_3,
        ) => match spec_word_with_free(toks, pos, Selmaho::Nuhi) {
            Outcome::Matched(n1) => {
                &&& is_word_with_free(field_0, toks, pos, Selmaho::Nuhi)
                &&& match spec_args(toks, pos + n1) {
                        Outcome::Matched(n2) => {
                            &&& advanced(toks, pos, n1)
                            &&& is_args(field_1, toks, pos + n1)
                            &&& match spec_opt(spec_word(toks, pos + n1 + n2, Selmaho::Nuhu)) {
                                    Outcome::Matched(n3) => {
                                        &&& (match field_2 {
                                                Some(inner) => {
                                                    &&& spec_word(
                                                        toks,
                                                        pos + n1 + n2,
                                                        Selmaho::Nuhu,
                                                    ) is Matched
                                                    &&& is_word(
                                                        inner,
                                                        toks,
                                                        pos + n1 + n2,
                                                        Selmaho::Nuhu,
                                                    )
                                                },
                                                None => spec_word(
                                                    toks,
                                                    pos + n1 + n2,
                                                    Selmaho::Nuhu,
                                                ) is Error,
                                            })
                                        &&& match spec_frees(toks, pos + n1 + n2 + n3) {
                                                Outcome::Matched(_) => is_frees(
                                                    field_3,
                                                    toks,
                                                    pos + n1 + n2 + n3,
                                                ),
                                                _ => false,
                                            }
                                    },
                                    _ => false,
                                }
                        },
                        _ => false,
                    }
            },
            _ => false,
        },
        _ => false,
    }
}

/// What [`is_termset_nuhi`] says.
pub proof fn lemma_is_termset_nuhi<'arena>(node: Termset<'arena>, toks: Seq<Token>, pos: nat)
    ensures
        is_termset_nuhi(node, toks, pos) == (
            match node {
                Termset::Nuhi(
                    field_0,
                    field_1,
                    field_2,
                    field_3,
                ) => match spec_word_with_free(toks, pos, Selmaho::Nuhi) {
                    Outcome::Matched(n1) => {
                        &&& is_word_with_free(field_0, toks, pos, Selmaho::Nuhi)
                        &&& match spec_args(toks, pos + n1) {
                                Outcome::Matched(n2) => {
                                    &&& advanced(toks, pos, n1)
                                    &&& is_args(field_1, toks, pos + n1)
                                    &&& match spec_opt(
                                        spec_word(toks, pos + n1 + n2, Selmaho::Nuhu),
                                    ) {
                                            Outcome::Matched(n3) => {
                                                &&& (match field_2 {
                                                        Some(inner) => {
                                                            &&& spec_word(
                                                                toks,
                                                                pos + n1 + n2,
                                                                Selmaho::Nuhu,
                                                            ) is Matched
                                                            &&& is_word(
                                                                inner,
                                                                toks,
                                                                pos + n1 + n2,
                                                                Selmaho::Nuhu,
                                                            )
                                                        },
                                                        None => spec_word(
                                                            toks,
                                                            pos + n1 + n2,
                                                            Selmaho::Nuhu,
                                                        ) is Error,
                                                    })
                                                &&& match spec_frees(toks, pos + n1 + n2 + n3) {
                                                        Outcome::Matched(_) => is_frees(
                                                            field_3,
                                                            toks,
                                                            pos + n1 + n2 + n3,
                                                        ),
                                                        _ => false,
                                                    }
                                            },
                                            _ => false,
                                        }
                                },
                                _ => false,
                            }
                    },
                    _ => false,
                },
                _ => false,
            }
        ),
{
    reveal(is_termset_nuhi);
    reveal(is_word_with_free);
    reveal(is_args);
    reveal(is_word);
    reveal(is_frees);
}

/// Whether `node` is the node that `Arg2Next` makes of the tokens at `pos`.
#[verifier::opaque]
pub closed spec fn is_arg_2_next<'arena>(
    node: (WithFree<'arena, Word<'arena>>, Arg3<'arena>),
    toks: Seq<Token>,
    pos: nat,
) -> bool
    decreases rest(toks, pos), 50nat,
{
    match spec_word_with_free(toks, pos, Selmaho::Cehe) {
        Outcome::Matched(n1) => {
            &&& is_word_with_free(node.0, toks, pos, Selmaho::Cehe)
            &&& match spec_arg_3(toks, pos + n1) {
                    Outcome::Matched(_) => is_arg_3(node.1, toks, pos + n1),
                    _ => false,
                }
        },
        _ => false,
    }
}

/// What [`is_arg_2_next`] says.
pub proof fn lemma_is_arg_2_next<'arena>(
    node: (WithFree<'arena, Word<'arena>>, Arg3<'arena>),
    toks: Seq<Token>,
    pos: nat,
)
    ensures
        is_arg_2_next(node, toks, pos) == (
            match spec_word_with_free(toks, pos, Selmaho::Cehe) {
                Outcome::Matched(n1) => {
                    &&& is_word_with_free(node.0, toks, pos, Selmaho::Cehe)
                    &&& match spec_arg_3(toks, pos + n1) {
                            Outcome::Matched(_) => is_arg_3(node.1, toks, pos + n1),
                            _ => false,
                        }
                },
                _ => false,
            }
        ),
{
    reveal(is_arg_2_next);
    reveal(is_word_with_free);
    reveal(is_arg_3);
}

/// How many tokens the first `count` of a row of `Arg2Next` take at `pos`.
pub open spec fn run_of_arg_2_next(toks: Seq<Token>, pos: nat, count: nat) -> nat
    decreases count,
{
    if count == 0 {
        0
    } else {
        let before = run_of_arg_2_next(toks, pos, (count - 1) as nat);
        before + (match spec_arg_2_next(toks, pos + before) {
            Outcome::Matched(len) => len,
            _ => 0,
        })
    }
}

/// Whether `items` are the nodes of a row of `Arg2Next` at `pos`: each is the
/// node of the `Arg2Next` at its place, and no further one follows them.
#[verifier::opaque]
pub closed spec fn is_row_of_arg_2_next<'arena>(
    items: Seq<(WithFree<'arena, Word<'arena>>, Arg3<'arena>)>,
    toks: Seq<Token>,
    pos: nat,
) -> bool
    decreases rest(toks, pos), 51nat,
{
    &&& forall|i: int|
        #![trigger items[i]]
        #![trigger run_of_arg_2_next(toks, pos, i as nat)]
        0 <= i < items.len() ==> spec_arg_2_next(
            toks,
            pos + run_of_arg_2_next(toks, pos, i as nat),
        ) is Matched && is_arg_2_next(
            items[i],
            toks,
            pos + run_of_arg_2_next(toks, pos, i as nat),
        )
    &&& !(spec_arg_2_next(toks, pos + run_of_arg_2_next(toks, pos, items.len())) is Matched)
}

/// What [`is_row_of_arg_2_next`] says.
pub proof fn lemma_is_row_of_arg_2_next<'arena>(
    items: Seq<(WithFree<'arena, Word<'arena>>, Arg3<'arena>)>,
    toks: Seq<Token>,
    pos: nat,
)
    ensures
        is_row_of_arg_2_next(items, toks, pos) == ({
            &&& forall|i: int|
                #![trigger items[i]]
                #![trigger run_of_arg_2_next(toks, pos, i as nat)]
                0 <= i < items.len() ==> spec_arg_2_next(
                    toks,
                    pos + run_of_arg_2_next(toks, pos, i as nat),
                ) is Matched && is_arg_2_next(
                    items[i],
                    toks,
                    pos + run_of_arg_2_next(toks, pos, i as nat),
                )
            &&& !(spec_arg_2_next(
                toks,
                pos + run_of_arg_2_next(toks, pos, items.len()),
            ) is Matched)
        }),
{
    reveal(is_row_of_arg_2_next);
    reveal(is_arg_2_next);
}

/// Whether `node` is the node that `Arg1Next` makes of the tokens at `pos`.
#[verifier::opaque]
pub closed spec fn is_arg_1_next<'arena>(
    node: (PeheConnective<'arena>, Arg2<'arena>),
    toks: Seq<Token>,
    pos: nat,
) -> bool
    decreases rest(toks, pos), 53nat,
{
    match spec_pehe_connective(toks, pos) {
        Outcome::Matched(n1) => {
            &&& is_pehe_connective(node.0, toks, pos)
            &&& match spec_arg_2(toks, pos + n1) {
                    Outcome::Matched(_) => is_arg_2(node.1, toks, pos + n1),
                    _ => false,
                }
        },
        _ => false,
    }
}

/// What [`is_arg_1_next`] says.
pub proof fn lemma_is_arg_1_next<'arena>(
    node: (PeheConnective<'arena>, Arg2<'arena>),
    toks: Seq<Token>,
    pos: nat,
)
    ensures
        is_arg_1_next(node, toks, pos) == (
            match spec_pehe_connective(toks, pos) {
                Outcome::Matched(n1) => {
                    &&& is_pehe_connective(node.0, toks, pos)
                    &&& match spec_arg_2(toks, pos + n1) {
                            Outcome::Matched(_) => is_arg_2(node.1, toks, pos + n1),
                            _ => false,
                        }
                },
                _ => false,
            }
        ),
{
    reveal(is_arg_1_next);
    reveal(is_pehe_connective);
    reveal(is_arg_2);
}

/// How many tokens the first `count` of a row of `Arg1Next` take at `pos`.
pub open spec fn run_of_arg_1_next(toks: Seq<Token>, pos: nat, count: nat) -> nat
    decreases count,
{
    if count == 0 {
        0
    } else {
        let before = run_of_arg_1_next(toks, pos, (count - 1) as nat);
        before + (match spec_arg_1_next(toks, pos + before) {
            Outcome::Matched(len) => len,
            _ => 0,
        })
    }
}

/// Whether `items` are the nodes of a row of `Arg1Next` at `pos`: each is the
/// node of the `Arg1Next` at its place, and no further one follows them.
#[verifier::opaque]
pub closed spec fn is_row_of_arg_1_next<'arena>(
    items: Seq<(PeheConnective<'arena>, Arg2<'arena>)>,
    toks: Seq<Token>,
    pos: nat,
) -> bool
    decreases rest(toks, pos), 54nat,
{
    &&& forall|i: int|
        #![trigger items[i]]
        #![trigger run_of_arg_1_next(toks, pos, i as nat)]
        0 <= i < items.len() ==> spec_arg_1_next(
            toks,
            pos + run_of_arg_1_next(toks, pos, i as nat),
        ) is Matched && is_arg_1_next(
            items[i],
            toks,
            pos + run_of_arg_1_next(toks, pos, i as nat),
        )
    &&& !(spec_arg_1_next(toks, pos + run_of_arg_1_next(toks, pos, items.len())) is Matched)
}

/// What [`is_row_of_arg_1_next`] says.
pub proof fn lemma_is_row_of_arg_1_next<'arena>(
    items: Seq<(PeheConnective<'arena>, Arg2<'arena>)>,
    toks: Seq<Token>,
    pos: nat,
)
    ensures
        is_row_of_arg_1_next(items, toks, pos) == ({
            &&& forall|i: int|
                #![trigger items[i]]
                #![trigger run_of_arg_1_next(toks, pos, i as nat)]
                0 <= i < items.len() ==> spec_arg_1_next(
                    toks,
                    pos + run_of_arg_1_next(toks, pos, i as nat),
                ) is Matched && is_arg_1_next(
                    items[i],
                    toks,
                    pos + run_of_arg_1_next(toks, pos, i as nat),
                )
            &&& !(spec_arg_1_next(
                toks,
                pos + run_of_arg_1_next(toks, pos, items.len()),
            ) is Matched)
        }),
{
    reveal(is_row_of_arg_1_next);
    reveal(is_arg_1_next);
}

/// Whether `node` is the node that `PeheConnective` makes of the tokens at `pos`.
#[verifier::opaque]
pub closed spec fn is_pehe_connective<'arena>(
    node: PeheConnective<'arena>,
    toks: Seq<Token>,
    pos: nat,
) -> bool
    decreases rest(toks, pos), 8nat,
{
    match spec_word_with_free(toks, pos, Selmaho::Pehe) {
        Outcome::Matched(n1) => {
            &&& is_word_with_free(node.0, toks, pos, Selmaho::Pehe)
            &&& match spec_joik_jek(toks, pos + n1) {
                    Outcome::Matched(_) => is_joik_jek(node.1, toks, pos + n1),
                    _ => false,
                }
        },
        _ => false,
    }
}

/// What [`is_pehe_connective`] says.
pub proof fn lemma_is_pehe_connective<'arena>(
    node: PeheConnective<'arena>,
    toks: Seq<Token>,
    pos: nat,
)
    ensures
        is_pehe_connective(node, toks, pos) == (
            match spec_word_with_free(toks, pos, Selmaho::Pehe) {
                Outcome::Matched(n1) => {
                    &&& is_word_with_free(node.0, toks, pos, Selmaho::Pehe)
                    &&& match spec_joik_jek(toks, pos + n1) {
                            Outcome::Matched(_) => is_joik_jek(node.1, toks, pos + n1),
                            _ => false,
                        }
                },
                _ => false,
            }
        ),
{
    reveal(is_pehe_connective);
    reveal(is_word_with_free);
    reveal(is_joik_jek);
}

/// Whether `node` is the node that `ArgConnectedPost` makes of the tokens at `pos`: the
/// node of the first alternative that matches.
#[verifier::opaque]
pub closed spec fn is_arg_connected_post<'arena>(
    node: SumtiLikeConnectedPost<'arena, Arg1<'arena>, Arg<'arena>>,
    toks: Seq<Token>,
    pos: nat,
) -> bool
    decreases rest(toks, pos), 57nat,
{
    match spec_arg_connected_post_normal(toks, pos) {
        Outcome::Matched(_) => is_arg_connected_post_normal(node, toks, pos),
        Outcome::Error(
            _,
        ) => spec_arg_connected_post_grouped(
            toks,
            pos,
        ) is Matched && is_arg_connected_post_grouped(node, toks, pos),
        Outcome::Failure(_) => false,
    }
}

/// What [`is_arg_connected_post`] says.
pub proof fn lemma_is_arg_connected_post<'arena>(toks: Seq<Token>, pos: nat)
    ensures
        forall|node: SumtiLikeConnectedPost<'arena, Arg1<'arena>, Arg<'arena>>| #[trigger] is_arg_connected_post(
            node,
            toks,
            pos,
        ) == (
            match spec_arg_connected_post_normal(toks, pos) {
                Outcome::Matched(_) => is_arg_connected_post_normal(node, toks, pos),
                Outcome::Error(
                    _,
                ) => spec_arg_connected_post_grouped(
                    toks,
                    pos,
                ) is Matched && is_arg_connected_post_grouped(node, toks, pos),
                Outcome::Failure(_) => false,
            }
        ),
{
    reveal(is_arg_connected_post);
    reveal(is_arg_connected_post_normal);
    reveal(is_arg_connected_post_grouped);
}

/// How many tokens the first `count` of a row of `ArgConnectedPost` take at `pos`.
pub open spec fn run_of_arg_connected_post(toks: Seq<Token>, pos: nat, count: nat) -> nat
    decreases count,
{
    if count == 0 {
        0
    } else {
        let before = run_of_arg_connected_post(toks, pos, (count - 1) as nat);
        before + (match spec_arg_connected_post(toks, pos + before) {
            Outcome::Matched(len) => len,
            _ => 0,
        })
    }
}

/// Whether `items` are the nodes of a row of `ArgConnectedPost` at `pos`: each is the
/// node of the `ArgConnectedPost` at its place, and no further one follows them.
#[verifier::opaque]
pub closed spec fn is_row_of_arg_connected_post<'arena>(
    items: Seq<SumtiLikeConnectedPost<'arena, Arg1<'arena>, Arg<'arena>>>,
    toks: Seq<Token>,
    pos: nat,
) -> bool
    decreases rest(toks, pos), 58nat,
{
    &&& forall|i: int|
        #![trigger items[i]]
        #![trigger run_of_arg_connected_post(toks, pos, i as nat)]
        0 <= i < items.len() ==> spec_arg_connected_post(
            toks,
            pos + run_of_arg_connected_post(toks, pos, i as nat),
        ) is Matched && is_arg_connected_post(
            items[i],
            toks,
            pos + run_of_arg_connected_post(toks, pos, i as nat),
        )
    &&& !(spec_arg_connected_post(
        toks,
        pos + run_of_arg_connected_post(toks, pos, items.len()),
    ) is Matched)
}

/// What [`is_row_of_arg_connected_post`] says.
pub proof fn lemma_is_row_of_arg_connected_post<'arena>(
    items: Seq<SumtiLikeConnectedPost<'arena, Arg1<'arena>, Arg<'arena>>>,
    toks: Seq<Token>,
    pos: nat,
)
    ensures
        is_row_of_arg_connected_post(items, toks, pos) == ({
            &&& forall|i: int|
                #![trigger items[i]]
                #![trigger run_of_arg_connected_post(toks, pos, i as nat)]
                0 <= i < items.len() ==> spec_arg_connected_post(
                    toks,
                    pos + run_of_arg_connected_post(toks, pos, i as nat),
                ) is Matched && is_arg_connected_post(
                    items[i],
                    toks,
                    pos + run_of_arg_connected_post(toks, pos, i as nat),
                )
            &&& !(spec_arg_connected_post(
                toks,
                pos + run_of_arg_connected_post(toks, pos, items.len()),
            ) is Matched)
        }),
{
    reveal(is_row_of_arg_connected_post);
    reveal(is_arg_connected_post);
}

/// Whether `node` is the node that `ArgConnectedPostNormal` makes of the tokens at `pos`.
#[verifier::opaque]
pub closed spec fn is_arg_connected_post_normal<'arena>(
    node: SumtiLikeConnectedPost<'arena, Arg1<'arena>, Arg<'arena>>,
    toks: Seq<Token>,
    pos: nat,
) -> bool
    decreases rest(toks, pos), 56nat,
{
    match node {
        SumtiLikeConnectedPost::Normal(field_0, field_1) => match spec_joik_ek(toks, pos) {
            Outcome::Matched(n1) => {
                &&& is_joik_ek(field_0, toks, pos)
                &&& match spec_arg_1(toks, pos + n1) {
                        Outcome::Matched(_) => is_arg_1(field_1, toks, pos + n1),
                        _ => false,
                    }
            },
            _ => false,
        },
        _ => false,
    }
}

/// What [`is_arg_connected_post_normal`] says.
pub proof fn lemma_is_arg_connected_post_normal<'arena>(
    node: SumtiLikeConnectedPost<'arena, Arg1<'arena>, Arg<'arena>>,
    toks: Seq<Token>,
    pos: nat,
)
    ensures
        is_arg_connected_post_normal(node, toks, pos) == (
            match node {
                SumtiLikeConnectedPost::Normal(
                    field_0,
                    field_1,
                ) => match spec_joik_ek(toks, pos) {
                    Outcome::Matched(n1) => {
                        &&& is_joik_ek(field_0, toks, pos)
                        &&& match spec_arg_1(toks, pos + n1) {
                                Outcome::Matched(_) => is_arg_1(field_1, toks, pos + n1),
                                _ => false,
                            }
                    },
                    _ => false,
                },
                _ => false,
            }
        ),
{
    reveal(is_arg_connected_post_normal);
    reveal(is_joik_ek);
    reveal(is_arg_1);
}

/// Whether `node` is the node that `ArgConnectedPostGrouped` makes of the tokens at `pos`.
#[verifier::opaque]
pub closed spec fn is_arg_connected_post_grouped<'arena>(
    node: SumtiLikeConnectedPost<'arena, Arg1<'arena>, Arg<'arena>>,
    toks: Seq<Token>,
    pos: nat,
) -> bool
    decreases rest(toks, pos), 32nat,
{
    match node {
        SumtiLikeConnectedPost::Grouped(
            field_0,
            field_1,
            field_2,
            field_3,
            field_4,
            field_5,
        ) => match spec_joik_ek(toks, pos) {
            Outcome::Matched(n1) => {
                &&& is_joik_ek(field_0, toks, pos)
                &&& match spec_opt(spec_tag_words(toks, pos + n1)) {
                        Outcome::Matched(n2) => {
                            &&& (match field_1 {
                                    Some(inner) => {
                                        &&& spec_tag_words(toks, pos + n1) is Matched
                                        &&& is_tag_words(inner, toks, pos + n1)
                                    },
                                    None => spec_tag_words(toks, pos + n1) is Error,
                                })
                            &&& match spec_word_with_free(toks, pos + n1 + n2, Selmaho::Ke) {
                                    Outcome::Matched(n3) => {
                                        &&& is_word_with_free(
                                            field_2,
                                            toks,
                                            pos + n1 + n2,
                                            Selmaho::Ke,
                                        )
                                        &&& match spec_arg(toks, pos + n1 + n2 + n3) {
                                                Outcome::Matched(n4) => {
                                                    &&& advanced(toks, pos, n1 + n2 + n3)
                                                    &&& is_arg(field_3, toks, pos + n1 + n2 + n3)
                                                    &&& match spec_opt(
                                                        spec_word(
                                                            toks,
                                                            pos + n1 + n2 + n3 + n4,
                                                            Selmaho::Kehe,
                                                        ),
                                                    ) {
                                                            Outcome::Matched(n5) => {
                                                                &&& (match field_4 {
                                                                        Some(inner) => {
                                                                            &&& spec_word(
                                                                                toks,
                                                                                pos + n1 + n2 + n3 + n4,
                                                                                Selmaho::Kehe,
                                                                            ) is Matched
                                                                            &&& is_word(
                                                                                inner,
                                                                                toks,
                                                                                pos + n1 + n2 + n3 + n4,
                                                                                Selmaho::Kehe,
                                                                            )
                                                                        },
                                                                        None => spec_word(
                                                                            toks,
                                                                            pos + n1 + n2 + n3 + n4,
                                                                            Selmaho::Kehe,
                                                                        ) is Error,
                                                                    })
                                                                &&& match spec_frees(
                                                                    toks,
                                                                    pos + n1 + n2 + n3 + n4 + n5,
                                                                ) {
                                                                        Outcome::Matched(_) => is_frees(
                                                                            field_5,
                                                                            toks,
                                                                            pos + n1 + n2 + n3 + n4 + n5,
                                                                        ),
                                                                        _ => false,
                                                                    }
                                                            },
                                                            _ => false,
                                                        }
                                                },
                                                _ => false,
                                            }
                                    },
                                    _ => false,
                                }
                        },
                        _ => false,
                    }
            },
            _ => false,
        },
        _ => false,
    }
}

/// What [`is_arg_connected_post_grouped`] says.
pub proof fn lemma_is_arg_connected_post_grouped<'arena>(
    node: SumtiLikeConnectedPost<'arena, Arg1<'arena>, Arg<'arena>>,
    toks: Seq<Token>,
    pos: nat,
)
    ensures
        is_arg_connected_post_grouped(node, toks, pos) == (
            match node {
                SumtiLikeConnectedPost::Grouped(
                    field_0,
                    field_1,
                    field_2,
                    field_3,
                    field_4,
                    field_5,
                ) => match spec_joik_ek(toks, pos) {
                    Outcome::Matched(n1) => {
                        &&& is_joik_ek(field_0, toks, pos)
                        &&& match spec_opt(spec_tag_words(toks, pos + n1)) {
                                Outcome::Matched(n2) => {
                                    &&& (match field_1 {
                                            Some(inner) => {
                                                &&& spec_tag_words(toks, pos + n1) is Matched
                                                &&& is_tag_words(inner, toks, pos + n1)
                                            },
                                            None => spec_tag_words(toks, pos + n1) is Error,
                                        })
                                    &&& match spec_word_with_free(
                                        toks,
                                        pos + n1 + n2,
                                        Selmaho::Ke,
                                    ) {
                                            Outcome::Matched(n3) => {
                                                &&& is_word_with_free(
                                                    field_2,
                                                    toks,
                                                    pos + n1 + n2,
                                                    Selmaho::Ke,
                                                )
                                                &&& match spec_arg(toks, pos + n1 + n2 + n3) {
                                                        Outcome::Matched(n4) => {
                                                            &&& advanced(toks, pos, n1 + n2 + n3)
                                                            &&& is_arg(
                                                                field_3,
                                                                toks,
                                                                pos + n1 + n2 + n3,
                                                            )
                                                            &&& match spec_opt(
                                                                spec_word(
                                                                    toks,
                                                                    pos + n1 + n2 + n3 + n4,
                                                                    Selmaho::Kehe,
                                                                ),
                                                            ) {
                                                                    Outcome::Matched(n5) => {
                                                                        &&& (match field_4 {
                                                                                Some(inner) => {
                                                                                    &&& spec_word(
                                                                                        toks,
                                                                                        pos + n1 + n2 + n3 + n4,
                                                                                        Selmaho::Kehe,
                                                                                    ) is Matched
                                                                                    &&& is_word(
                                                                                        inner,
                                                                                        toks,
                                                                                        pos + n1 + n2 + n3 + n4,
                                                                                        Selmaho::Kehe,
                                                                                    )
                                                                                },
                                                                                None => spec_word(
                                                                                    toks,
                                                                                    pos + n1 + n2 + n3 + n4,
                                                                                    Selmaho::Kehe,
                                                                                ) is Error,
                                                                            })
                                                                        &&& match spec_frees(
                                                                            toks,
                                                                            pos + n1 + n2 + n3 + n4 + n5,
                                                                        ) {
                                                                                Outcome::Matched(_) => is_frees(
                                                                                    field_5,
                                                                                    toks,
                                                                                    pos + n1 + n2 + n3 + n4 + n5,
                                                                                ),
                                                                                _ => false,
                                                                            }
                                                                    },
                                                                    _ => false,
                                                                }
                                                        },
                                                        _ => false,
                                                    }
                                            },
                                            _ => false,
                                        }
                                },
                                _ => false,
                            }
                    },
                    _ => false,
                },
                _ => false,
            }
        ),
{
    reveal(is_arg_connected_post_grouped);
    reveal(is_joik_ek);
    reveal(is_tag_words);
    reveal(is_word_with_free);
    reveal(is_arg);
    reveal(is_word);
    reveal(is_frees);
}

/// Whether `node` is the node that `SeiTail` makes of the tokens at `pos`.
#[verifier::opaque]
pub closed spec fn is_sei_tail<'arena>(node: SeiTail<'arena>, toks: Seq<Token>, pos: nat) -> bool
    decreases rest(toks, pos), 89nat,
{
    match spec_opt(spec_word(toks, pos, Selmaho::Cu)) {
        Outcome::Matched(n1) => {
            &&& (match node.0 {
                    Some(inner) => {
                        &&& spec_word(toks, pos, Selmaho::Cu) is Matched
                        &&& is_word(inner, toks, pos, Selmaho::Cu)
                    },
                    None => spec_word(toks, pos, Selmaho::Cu) is Error,
                })
            &&& match spec_frees(toks, pos + n1) {
                    Outcome::Matched(n2) => {
                        &&& is_frees(node.1, toks, pos + n1)
                        &&& match spec_selbri(toks, pos + n1 + n2) {
                                Outcome::Matched(_) => is_selbri(node.2, toks, pos + n1 + n2),
                                _ => false,
                            }
                    },
                    _ => false,
                }
        },
        _ => false,
    }
}

/// What [`is_sei_tail`] says.
pub proof fn lemma_is_sei_tail<'arena>(node: SeiTail<'arena>, toks: Seq<Token>, pos: nat)
    ensures
        is_sei_tail(node, toks, pos) == (
            match spec_opt(spec_word(toks, pos, Selmaho::Cu)) {
                Outcome::Matched(n1) => {
                    &&& (match node.0 {
                            Some(inner) => {
                                &&& spec_word(toks, pos, Selmaho::Cu) is Matched
                                &&& is_word(inner, toks, pos, Selmaho::Cu)
                            },
                            None => spec_word(toks, pos, Selmaho::Cu) is Error,
                        })
                    &&& match spec_frees(toks, pos + n1) {
                            Outcome::Matched(n2) => {
                                &&& is_frees(node.1, toks, pos + n1)
                                &&& match spec_selbri(toks, pos + n1 + n2) {
                                        Outcome::Matched(_) => is_selbri(
                                            node.2,
                                            toks,
                                            pos + n1 + n2,
                                        ),
                                        _ => false,
                                    }
                            },
                            _ => false,
                        }
                },
                _ => false,
            }
        ),
{
    reveal(is_sei_tail);
    reveal(is_word);
    reveal(is_frees);
    reveal(is_selbri);
}

/// Whether `node` is the node that `FreeSoi` makes of the tokens at `pos`.
#[verifier::opaque]
pub closed spec fn is_free_soi<'arena>(node: Free<'arena>, toks: Seq<Token>, pos: nat) -> bool
    decreases rest(toks, pos), 4nat,
{
    match node {
        Free::Soi(
            field_0,
            field_1,
            field_2,
        ) => match spec_word_with_free(toks, pos, Selmaho::Soi) {
            Outcome::Matched(n1) => {
                &&& is_word_with_free(field_0, toks, pos, Selmaho::Soi)
                &&& match spec_soi_arguments(toks, pos + n1) {
                        Outcome::Matched(n2) => {
                            &&& advanced(toks, pos, n1)
                            &&& is_soi_arguments(*field_1, toks, pos + n1)
                            &&& match spec_opt(spec_word(toks, pos + n1 + n2, Selmaho::Sehu)) {
                                    Outcome::Matched(_) => {
                                        &&& (match field_2 {
                                                Some(inner) => {
                                                    &&& spec_word(
                                                        toks,
                                                        pos + n1 + n2,
                                                        Selmaho::Sehu,
                                                    ) is Matched
                                                    &&& is_word(
                                                        inner,
                                                        toks,
                                                        pos + n1 + n2,
                                                        Selmaho::Sehu,
                                                    )
                                                },
                                                None => spec_word(
                                                    toks,
                                                    pos + n1 + n2,
                                                    Selmaho::Sehu,
                                                ) is Error,
                                            })
                                    },
                                    _ => false,
                                }
                        },
                        _ => false,
                    }
            },
            _ => false,
        },
        _ => false,
    }
}

/// What [`is_free_soi`] says.
pub proof fn lemma_is_free_soi<'arena>(node: Free<'arena>, toks: Seq<Token>, pos: nat)
    ensures
        is_free_soi(node, toks, pos) == (
            match node {
                Free::Soi(
                    field_0,
                    field_1,
                    field_2,
                ) => match spec_word_with_free(toks, pos, Selmaho::Soi) {
                    Outcome::Matched(n1) => {
                        &&& is_word_with_free(field_0, toks, pos, Selmaho::Soi)
                        &&& match spec_soi_arguments(toks, pos + n1) {
                                Outcome::Matched(n2) => {
                                    &&& advanced(toks, pos, n1)
                                    &&& is_soi_arguments(*field_1, toks, pos + n1)
                                    &&& match spec_opt(
                                        spec_word(toks, pos + n1 + n2, Selmaho::Sehu),
                                    ) {
                                            Outcome::Matched(_) => {
                                                &&& (match field_2 {
                                                        Some(inner) => {
                                                            &&& spec_word(
                                                                toks,
                                                                pos + n1 + n2,
                                                                Selmaho::Sehu,
                                                            ) is Matched
                                                            &&& is_word(
                                                                inner,
                                                                toks,
                                                                pos + n1 + n2,
                                                                Selmaho::Sehu,
                                                            )
                                                        },
                                                        None => spec_word(
                                                            toks,
                                                            pos + n1 + n2,
                                                            Selmaho::Sehu,
                                                        ) is Error,
                                                    })
                                            },
                                            _ => false,
                                        }
                                },
                                _ => false,
                            }
                    },
                    _ => false,
                },
                _ => false,
            }
        ),
{
    reveal(is_free_soi);
    reveal(is_word_with_free);
    reveal(is_soi_arguments);
    reveal(is_word);
}

/// Whether `node` is the node that `SoiArguments` makes of the tokens at `pos`.
#[verifier::opaque]
pub closed spec fn is_soi_arguments<'arena>(
    node: (Sumti<'arena>, Option<Sumti<'arena>>),
    toks: Seq<Token>,
    pos: nat,
) -> bool
    decreases rest(toks, pos), 45nat,
{
    match spec_sumti(toks, pos) {
        Outcome::Matched(n1) => {
            &&& is_sumti(node.0, toks, pos)
            &&& match spec_opt(spec_sumti(toks, pos + n1)) {
                    Outcome::Matched(_) => {
                        &&& (match node.1 {
                                Some(inner) => {
                                    &&& spec_sumti(toks, pos + n1) is Matched
                                    &&& is_sumti(inner, toks, pos + n1)
                                },
                                None => spec_sumti(toks, pos + n1) is Error,
                            })
                    },
                    _ => false,
                }
        },
        _ => false,
    }
}

/// What [`is_soi_arguments`] says.
pub proof fn lemma_is_soi_arguments<'arena>(
    node: (Sumti<'arena>, Option<Sumti<'arena>>),
    toks: Seq<Token>,
    pos: nat,
)
    ensures
        is_soi_arguments(node, toks, pos) == (
            match spec_sumti(toks, pos) {
                Outcome::Matched(n1) => {
                    &&& is_sumti(node.0, toks, pos)
                    &&& match spec_opt(spec_sumti(toks, pos + n1)) {
                            Outcome::Matched(_) => {
                                &&& (match node.1 {
                                        Some(inner) => {
                                            &&& spec_sumti(toks, pos + n1) is Matched
                                            &&& is_sumti(inner, toks, pos + n1)
                                        },
                                        None => spec_sumti(toks, pos + n1) is Error,
                                    })
                            },
                            _ => false,
                        }
                },
                _ => false,
            }
        ),
{
    reveal(is_soi_arguments);
    reveal(is_sumti);
}

/// Whether `node` is the node that `FreeVocative` makes of the tokens at `pos`.
#[verifier::opaque]
pub closed spec fn is_free_vocative<'arena>(
    node: Free<'arena>,
    toks: Seq<Token>,
    pos: nat,
) -> bool
    decreases rest(toks, pos), 12nat,
{
    match node {
        Free::Vocative(field_0) => match spec_vocative(toks, pos) {
            Outcome::Matched(_) => is_vocative(field_0, toks, pos),
            _ => false,
        },
        _ => false,
    }
}

/// What [`is_free_vocative`] says.
pub proof fn lemma_is_free_vocative<'arena>(node: Free<'arena>, toks: Seq<Token>, pos: nat)
    ensures
        is_free_vocative(node, toks, pos) == (
            match node {
                Free::Vocative(field_0) => match spec_vocative(toks, pos) {
                    Outcome::Matched(_) => is_vocative(field_0, toks, pos),
                    _ => false,
                },
                _ => false,
            }
        ),
{
    reveal(is_free_vocative);
    reveal(is_vocative);
}

/// Whether `node` is the node that `Vocative` makes of the tokens at `pos`.
#[verifier::opaque]
pub closed spec fn is_vocative<'arena>(node: Vocative<'arena>, toks: Seq<Token>, pos: nat) -> bool
    decreases rest(toks, pos), 11nat,
{
    match spec_vocative_words(toks, pos) {
        Outcome::Matched(n1) => {
            &&& is_vocative_words(node.0, toks, pos)
            &&& match spec_opt(spec_relative_clauses(toks, pos + n1)) {
                    Outcome::Matched(n2) => {
                        &&& (match node.1 {
                                Some(inner) => {
                                    &&& spec_relative_clauses(toks, pos + n1) is Matched
                                    &&& is_relative_clauses(inner, toks, pos + n1)
                                },
                                None => spec_relative_clauses(toks, pos + n1) is Error,
                            })
                        &&& match spec_vocative_value(toks, pos + n1 + n2) {
                                Outcome::Matched(n3) => {
                                    &&& advanced(toks, pos, n1 + n2)
                                    &&& is_vocative_value(node.2, toks, pos + n1 + n2)
                                    &&& match spec_opt(
                                        spec_relative_clauses(toks, pos + n1 + n2 + n3),
                                    ) {
                                            Outcome::Matched(n4) => {
                                                &&& (match node.3 {
                                                        Some(inner) => {
                                                            &&& spec_relative_clauses(
                                                                toks,
                                                                pos + n1 + n2 + n3,
                                                            ) is Matched
                                                            &&& is_relative_clauses(
                                                                inner,
                                                                toks,
                                                                pos + n1 + n2 + n3,
                                                            )
                                                        },
                                                        None => spec_relative_clauses(
                                                            toks,
                                                            pos + n1 + n2 + n3,
                                                        ) is Error,
                                                    })
                                                &&& match spec_opt(
                                                    spec_word(
                                                        toks,
                                                        pos + n1 + n2 + n3 + n4,
                                                        Selmaho::Dohu,
                                                    ),
                                                ) {
                                                        Outcome::Matched(_) => {
                                                            &&& (match node.4 {
                                                                    Some(inner) => {
                                                                        &&& spec_word(
                                                                            toks,
                                                                            pos + n1 + n2 + n3 + n4,
                                                                            Selmaho::Dohu,
                                                                        ) is Matched
                                                                        &&& is_word(
                                                                            inner,
                                                                            toks,
                                                                            pos + n1 + n2 + n3 + n4,
                                                                            Selmaho::Dohu,
                                                                        )
                                                                    },
                                                                    None => spec_word(
                                                                        toks,
                                                                        pos + n1 + n2 + n3 + n4,
                                                                        Selmaho::Dohu,
                                                                    ) is Error,
                                                                })
                                                        },
                                                        _ => false,
                                                    }
                                            },
                                            _ => false,
                                        }
                                },
                                _ => false,
                            }
                    },
                    _ => false,
                }
        },
        _ => false,
    }
}

/// What [`is_vocative`] says.
pub proof fn lemma_is_vocative<'arena>(node: Vocative<'arena>, toks: Seq<Token>, pos: nat)
    ensures
        is_vocative(node, toks, pos) == (
            match spec_vocative_words(toks, pos) {
                Outcome::Matched(n1) => {
                    &&& is_vocative_words(node.0, toks, pos)
                    &&& match spec_opt(spec_relative_clauses(toks, pos + n1)) {
                            Outcome::Matched(n2) => {
                                &&& (match node.1 {
                                        Some(inner) => {
                                            &&& spec_relative_clauses(toks, pos + n1) is Matched
                                            &&& is_relative_clauses(inner, toks, pos + n1)
                                        },
                                        None => spec_relative_clauses(toks, pos + n1) is Error,
                                    })
                                &&& match spec_vocative_value(toks, pos + n1 + n2) {
                                        Outcome::Matched(n3) => {
                                            &&& advanced(toks, pos, n1 + n2)
                                            &&& is_vocative_value(node.2, toks, pos + n1 + n2)
                                            &&& match spec_opt(
                                                spec_relative_clauses(toks, pos + n1 + n2 + n3),
                                            ) {
                                                    Outcome::Matched(n4) => {
                                                        &&& (match node.3 {
                                                                Some(inner) => {
                                                                    &&& spec_relative_clauses(
                                                                        toks,
                                                                        pos + n1 + n2 + n3,
                                                                    ) is Matched
                                                                    &&& is_relative_clauses(
                                                                        inner,
                                                                        toks,
                                                                        pos + n1 + n2 + n3,
                                                                    )
                                                                },
                                                                None => spec_relative_clauses(
                                                                    toks,
                                                                    pos + n1 + n2 + n3,
                                                                ) is Error,
                                                            })
                                                        &&& match spec_opt(
                                                            spec_word(
                                                                toks,
                                                                pos + n1 + n2 + n3 + n4,
                                                                Selmaho::Dohu,
                                                            ),
                                                        ) {
                                                                Outcome::Matched(_) => {
                                                                    &&& (match node.4 {
                                                                            Some(inner) => {
                                                                                &&& spec_word(
                                                                                    toks,
                                                                                    pos + n1 + n2 + n3 + n4,
                                                                                    Selmaho::Dohu,
                                                                                ) is Matched
                                                                                &&& is_word(
                                                                                    inner,
                                                                                    toks,
                                                                                    pos + n1 + n2 + n3 + n4,
                                                                                    Selmaho::Dohu,
                                                                                )
                                                                            },
                                                                            None => spec_word(
                                                                                toks,
                                                                                pos + n1 + n2 + n3 + n4,
                                                                                Selmaho::Dohu,
                                                                            ) is Error,
                                                                        })
                                                                },
                                                                _ => false,
                                                            }
                                                    },
                                                    _ => false,
                                                }
                                        },
                                        _ => false,
                                    }
                            },
                            _ => false,
                        }
                },
                _ => false,
            }
        ),
{
    reveal(is_vocative);
    reveal(is_vocative_words);
    reveal(is_relative_clauses);
    reveal(is_vocative_value);
    reveal(is_word);
}

/// Whether `node` is the node that `VocativeWords` makes of the tokens at `pos`: the
/// node of the first alternative that matches.
#[verifier::opaque]
pub closed spec fn is_vocative_words<'arena>(
    node: VocativeWords<'arena>,
    toks: Seq<Token>,
    pos: nat,
) -> bool
    decreases rest(toks, pos), 6nat,
{
    match spec_vocative_words_coi(toks, pos) {
        Outcome::Matched(_) => is_vocative_words_coi(node, toks, pos),
        Outcome::Error(
            _,
        ) => spec_vocative_words_doi(
            toks,
            pos,
        ) is Matched && is_vocative_words_doi(node, toks, pos),
        Outcome::Failure(_) => false,
    }
}

/// What [`is_vocative_words`] says.
pub proof fn lemma_is_vocative_words<'arena>(toks: Seq<Token>, pos: nat)
    ensures
        forall|node: VocativeWords<'arena>| #[trigger] is_vocative_words(node, toks, pos) == (
            match spec_vocative_words_coi(toks, pos) {
                Outcome::Matched(_) => is_vocative_words_coi(node, toks, pos),
                Outcome::Error(
                    _,
                ) => spec_vocative_words_doi(
                    toks,
                    pos,
                ) is Matched && is_vocative_words_doi(node, toks, pos),
                Outcome::Failure(_) => false,
            }
        ),
{
    reveal(is_vocative_words);
    reveal(is_vocative_words_coi);
    reveal(is_vocative_words_doi);
}

/// Whether `node` is the node that `VocativeWordsCoi` makes of the tokens at `pos`.
#[verifier::opaque]
pub closed spec fn is_vocative_words_coi<'arena>(
    node: VocativeWords<'arena>,
    toks: Seq<Token>,
    pos: nat,
) -> bool
    decreases rest(toks, pos), 5nat,
{
    match node {
        VocativeWords::Coi(field_0, field_1) => match spec_many1_coi_nai(toks, pos) {
            Outcome::Matched(n1) => {
                &&& is_row_of_coi_nai(field_0@, toks, pos)
                &&& match spec_opt(spec_word(toks, pos + n1, Selmaho::Doi)) {
                        Outcome::Matched(_) => {
                            &&& (match field_1 {
                                    Some(inner) => {
                                        &&& spec_word(toks, pos + n1, Selmaho::Doi) is Matched
                                        &&& is_word(inner, toks, pos + n1, Selmaho::Doi)
                                    },
                                    None => spec_word(toks, pos + n1, Selmaho::Doi) is Error,
                                })
                        },
                        _ => false,
                    }
            },
            _ => false,
        },
        _ => false,
    }
}

/// What [`is_vocative_words_coi`] says.
pub proof fn lemma_is_vocative_words_coi<'arena>(
    node: VocativeWords<'arena>,
    toks: Seq<Token>,
    pos: nat,
)
    ensures
        is_vocative_words_coi(node, toks, pos) == (
            match node {
                VocativeWords::Coi(field_0, field_1) => match spec_many1_coi_nai(toks, pos) {
                    Outcome::Matched(n1) => {
                        &&& is_row_of_coi_nai(field_0@, toks, pos)
                        &&& match spec_opt(spec_word(toks, pos + n1, Selmaho::Doi)) {
                                Outcome::Matched(_) => {
                                    &&& (match field_1 {
                                            Some(inner) => {
                                                &&& spec_word(
                                                    toks,
                                                    pos + n1,
                                                    Selmaho::Doi,
                                                ) is Matched
                                                &&& is_word(inner, toks, pos + n1, Selmaho::Doi)
                                            },
                                            None => spec_word(
                                                toks,
                                                pos + n1,
                                                Selmaho::Doi,
                                            ) is Error,
                                        })
                                },
                                _ => false,
                            }
                    },
                    _ => false,
                },
                _ => false,
            }
        ),
{
    reveal(is_vocative_words_coi);
    reveal(is_row_of_coi_nai);
    reveal(is_word);
}

/// Whether `node` is the node that `CoiNai` makes of the tokens at `pos`.
#[verifier::opaque]
pub closed spec fn is_coi_nai<'arena>(
    node: (Word<'arena>, Option<Word<'arena>>),
    toks: Seq<Token>,
    pos: nat,
) -> bool
    decreases rest(toks, pos), 3nat,
{
    match spec_word(toks, pos, Selmaho::Coi) {
        Outcome::Matched(n1) => {
            &&& is_word(node.0, toks, pos, Selmaho::Coi)
            &&& match spec_opt(spec_word(toks, pos + n1, Selmaho::Nai)) {
                    Outcome::Matched(_) => {
                        &&& (match node.1 {
                                Some(inner) => {
                                    &&& spec_word(toks, pos + n1, Selmaho::Nai) is Matched
                                    &&& is_word(inner, toks, pos + n1, Selmaho::Nai)
                                },
                                None => spec_word(toks, pos + n1, Selmaho::Nai) is Error,
                            })
                    },
                    _ => false,
                }
        },
        _ => false,
    }
}

/// What [`is_coi_nai`] says.
pub proof fn lemma_is_coi_nai<'arena>(
    node: (Word<'arena>, Option<Word<'arena>>),
    toks: Seq<Token>,
    pos: nat,
)
    ensures
        is_coi_nai(node, toks, pos) == (
            match spec_word(toks, pos, Selmaho::Coi) {
                Outcome::Matched(n1) => {
                    &&& is_word(node.0, toks, pos, Selmaho::Coi)
                    &&& match spec_opt(spec_word(toks, pos + n1, Selmaho::Nai)) {
                            Outcome::Matched(_) => {
                                &&& (match node.1 {
                                        Some(inner) => {
                                            &&& spec_word(toks, pos + n1, Selmaho::Nai) is Matched
                                            &&& is_word(inner, toks, pos + n1, Selmaho::Nai)
                                        },
                                        None => spec_word(toks, pos + n1, Selmaho::Nai) is Error,
                                    })
                            },
                            _ => false,
                        }
                },
                _ => false,
            }
        ),
{
    reveal(is_coi_nai);
    reveal(is_word);
}

/// How many tokens the first `count` of a row of `CoiNai` take at `pos`.
pub open spec fn run_of_coi_nai(toks: Seq<Token>, pos: nat, count: nat) -> nat
    decreases count,
{
    if count == 0 {
        0
    } else {
        let before = run_of_coi_nai(toks, pos, (count - 1) as nat);
        before + (match spec_coi_nai(toks, pos + before) {
            Outcome::Matched(len) => len,
            _ => 0,
        })
    }
}

/// Whether `items` are the nodes of a row of `CoiNai` at `pos`: each is the
/// node of the `CoiNai` at its place, and no further one follows them.
#[verifier::opaque]
pub closed spec fn is_row_of_coi_nai<'arena>(
    items: Seq<(Word<'arena>, Option<Word<'arena>>)>,
    toks: Seq<Token>,
    pos: nat,
) -> bool
    decreases rest(toks, pos), 4nat,
{
    &&& forall|i: int|
        #![trigger items[i]]
        #![trigger run_of_coi_nai(toks, pos, i as nat)]
        0 <= i < items.len() ==> spec_coi_nai(
            toks,
            pos + run_of_coi_nai(toks, pos, i as nat),
        ) is Matched && is_coi_nai(items[i], toks, pos + run_of_coi_nai(toks, pos, i as nat))
    &&& !(spec_coi_nai(toks, pos + run_of_coi_nai(toks, pos, items.len())) is Matched)
}

/// What [`is_row_of_coi_nai`] says.
pub proof fn lemma_is_row_of_coi_nai<'arena>(
    items: Seq<(Word<'arena>, Option<Word<'arena>>)>,
    toks: Seq<Token>,
    pos: nat,
)
    ensures
        is_row_of_coi_nai(items, toks, pos) == ({
            &&& forall|i: int|
                #![trigger items[i]]
                #![trigger run_of_coi_nai(toks, pos, i as nat)]
                0 <= i < items.len() ==> spec_coi_nai(
                    toks,
                    pos + run_of_coi_nai(toks, pos, i as nat),
                ) is Matched && is_coi_nai(
                    items[i],
                    toks,
                    pos + run_of_coi_nai(toks, pos, i as nat),
                )
            &&& !(spec_coi_nai(toks, pos + run_of_coi_nai(toks, pos, items.len())) is Matched)
        }),
{
    reveal(is_row_of_coi_nai);
    reveal(is_coi_nai);
}

/// Whether `node` is the node that `VocativeWordsDoi` makes of the tokens at `pos`.
#[verifier::opaque]
pub closed spec fn is_vocative_words_doi<'arena>(
    node: VocativeWords<'arena>,
    toks: Seq<Token>,
    pos: nat,
) -> bool
    decreases rest(toks, pos), 3nat,
{
    match node {
        VocativeWords::Doi(field_0) => match spec_word(toks, pos, Selmaho::Doi) {
            Outcome::Matched(_) => is_word(field_0, toks, pos, Selmaho::Doi),
            _ => false,
        },
        _ => false,
    }
}

/// What [`is_vocative_words_doi`] says.
pub proof fn lemma_is_vocative_words_doi<'arena>(
    node: VocativeWords<'arena>,
    toks: Seq<Token>,
    pos: nat,
)
    ensures
        is_vocative_words_doi(node, toks, pos) == (
            match node {
                VocativeWords::Doi(field_0) => match spec_word(toks, pos, Selmaho::Doi) {
                    Outcome::Matched(_) => is_word(field_0, toks, pos, Selmaho::Doi),
                    _ => false,
                },
                _ => false,
            }
        ),
{
    reveal(is_vocative_words_doi);
    reveal(is_word);
}

/// Whether `node` is the node that `VocativeValue` makes of the tokens at `pos`: the
/// node of the first alternative that matches.
#[verifier::opaque]
pub closed spec fn is_vocative_value<'arena>(
    node: VocativeValue<'arena>,
    toks: Seq<Token>,
    pos: nat,
) -> bool
    decreases rest(toks, pos), 90nat,
{
    match spec_vocative_value_selbri(toks, pos) {
        Outcome::Matched(_) => is_vocative_value_selbri(node, toks, pos),
        Outcome::Error(_) => match spec_vocative_value_cmevla(toks, pos) {
            Outcome::Matched(_) => is_vocative_value_cmevla(node, toks, pos),
            Outcome::Error(
                _,
            ) => spec_vocative_value_sumti(
                toks,
                pos,
            ) is Matched && is_vocative_value_sumti(node, toks, pos),
            Outcome::Failure(_) => false,
        },
        Outcome::Failure(_) => false,
    }
}

/// What [`is_vocative_value`] says.
pub proof fn lemma_is_vocative_value<'arena>(toks: Seq<Token>, pos: nat)
    ensures
        forall|node: VocativeValue<'arena>| #[trigger] is_vocative_value(node, toks, pos) == (
            match spec_vocative_value_selbri(toks, pos) {
                Outcome::Matched(_) => is_vocative_value_selbri(node, toks, pos),
                Outcome::Error(_) => match spec_vocative_value_cmevla(toks, pos) {
                    Outcome::Matched(_) => is_vocative_value_cmevla(node, toks, pos),
                    Outcome::Error(
                        _,
                    ) => spec_vocative_value_sumti(
                        toks,
                        pos,
                    ) is Matched && is_vocative_value_sumti(node, toks, pos),
                    Outcome::Failure(_) => false,
                },
                Outcome::Failure(_) => false,
            }
        ),
{
    reveal(is_vocative_value);
    reveal(is_vocative_value_selbri);
    reveal(is_vocative_value_cmevla);
    reveal(is_vocative_value_sumti);
}

/// Whether `node` is the node that `VocativeValueSelbri` makes of the tokens at `pos`.
#[verifier::opaque]
pub closed spec fn is_vocative_value_selbri<'arena>(
    node: VocativeValue<'arena>,
    toks: Seq<Token>,
    pos: nat,
) -> bool
    decreases rest(toks, pos), 89nat,
{
    match node {
        VocativeValue::Selbri(field_0) => match spec_selbri(toks, pos) {
            Outcome::Matched(_) => is_selbri(*field_0, toks, pos),
            _ => false,
        },
        _ => false,
    }
}

/// What [`is_vocative_value_selbri`] says.
pub proof fn lemma_is_vocative_value_selbri<'arena>(
    node: VocativeValue<'arena>,
    toks: Seq<Token>,
    pos: nat,
)
    ensures
        is_vocative_value_selbri(node, toks, pos) == (
            match node {
                VocativeValue::Selbri(field_0) => match spec_selbri(toks, pos) {
                    Outcome::Matched(_) => is_selbri(*field_0, toks, pos),
                    _ => false,
                },
                _ => false,
            }
        ),
{
    reveal(is_vocative_value_selbri);
    reveal(is_selbri);
}

/// Whether `node` is the node that `VocativeValueCmevla` makes of the tokens at `pos`.
#[verifier::opaque]
pub closed spec fn is_vocative_value_cmevla<'arena>(
    node: VocativeValue<'arena>,
    toks: Seq<Token>,
    pos: nat,
) -> bool
    decreases rest(toks, pos), 4nat,
{
    match node {
        VocativeValue::Cmevla(field_0) => match spec_many1_word(toks, pos, Selmaho::Cmevla) {
            Outcome::Matched(_) => is_row_of_word(field_0@, toks, pos, Selmaho::Cmevla),
            _ => false,
        },
        _ => false,
    }
}

/// What [`is_vocative_value_cmevla`] says.
pub proof fn lemma_is_vocative_value_cmevla<'arena>(
    node: VocativeValue<'arena>,
    toks: Seq<Token>,
    pos: nat,
)
    ensures
        is_vocative_value_cmevla(node, toks, pos) == (
            match node {
                VocativeValue::Cmevla(
                    field_0,
                ) => match spec_many1_word(toks, pos, Selmaho::Cmevla) {
                    Outcome::Matched(_) => is_row_of_word(field_0@, toks, pos, Selmaho::Cmevla),
                    _ => false,
                },
                _ => false,
            }
        ),
{
    reveal(is_vocative_value_cmevla);
    reveal(is_row_of_word);
}

/// Whether `node` is the node that `VocativeValueSumti` makes of the tokens at `pos`.
#[verifier::opaque]
pub closed spec fn is_vocative_value_sumti<'arena>(
    node: VocativeValue<'arena>,
    toks: Seq<Token>,
    pos: nat,
) -> bool
    decreases rest(toks, pos), 45nat,
{
    match node {
        VocativeValue::Sumti(field_0) => match spec_opt(spec_sumti(toks, pos)) {
            Outcome::Matched(_) => {
                &&& (match field_0 {
                        Some(inner) => {
                            &&& spec_sumti(toks, pos) is Matched
                            &&& is_sumti(*inner, toks, pos)
                        },
                        None => spec_sumti(toks, pos) is Error,
                    })
            },
            _ => false,
        },
        _ => false,
    }
}

/// What [`is_vocative_value_sumti`] says.
pub proof fn lemma_is_vocative_value_sumti<'arena>(
    node: VocativeValue<'arena>,
    toks: Seq<Token>,
    pos: nat,
)
    ensures
        is_vocative_value_sumti(node, toks, pos) == (
            match node {
                VocativeValue::Sumti(field_0) => match spec_opt(spec_sumti(toks, pos)) {
                    Outcome::Matched(_) => {
                        &&& (match field_0 {
                                Some(inner) => {
                                    &&& spec_sumti(toks, pos) is Matched
                                    &&& is_sumti(*inner, toks, pos)
                                },
                                None => spec_sumti(toks, pos) is Error,
                            })
                    },
                    _ => false,
                },
                _ => false,
            }
        ),
{
    reveal(is_vocative_value_sumti);
    reveal(is_sumti);
}

/// Whether `node` is the node that `FreeMai` makes of the tokens at `pos`.
#[verifier::opaque]
pub closed spec fn is_free_mai<'arena>(node: Free<'arena>, toks: Seq<Token>, pos: nat) -> bool
    decreases rest(toks, pos), 17nat,
{
    match node {
        Free::Mai(field_0, field_1) => match spec_misc_numbers(toks, pos) {
            Outcome::Matched(n1) => {
                &&& is_misc_numbers(field_0, toks, pos)
                &&& match spec_word(toks, pos + n1, Selmaho::Mai) {
                        Outcome::Matched(_) => is_word(field_1, toks, pos + n1, Selmaho::Mai),
                        _ => false,
                    }
            },
            _ => false,
        },
        _ => false,
    }
}

/// What [`is_free_mai`] says.
pub proof fn lemma_is_free_mai<'arena>(node: Free<'arena>, toks: Seq<Token>, pos: nat)
    ensures
        is_free_mai(node, toks, pos) == (
            match node {
                Free::Mai(field_0, field_1) => match spec_misc_numbers(toks, pos) {
                    Outcome::Matched(n1) => {
                        &&& is_misc_numbers(field_0, toks, pos)
                        &&& match spec_word(toks, pos + n1, Selmaho::Mai) {
                                Outcome::Matched(_) => is_word(
                                    field_1,
                                    toks,
                                    pos + n1,
                                    Selmaho::Mai,
                                ),
                                _ => false,
                            }
                    },
                    _ => false,
                },
                _ => false,
            }
        ),
{
    reveal(is_free_mai);
    reveal(is_misc_numbers);
    reveal(is_word);
}

/// Whether `node` is the node that `FreeTo` makes of the tokens at `pos`.
#[verifier::opaque]
pub closed spec fn is_free_to<'arena>(node: Free<'arena>, toks: Seq<Token>, pos: nat) -> bool
    decreases rest(toks, pos), 3nat,
{
    match node {
        Free::To(field_0, field_1, field_2) => match spec_word(toks, pos, Selmaho::To) {
            Outcome::Matched(n1) => {
                &&& is_word(field_0, toks, pos, Selmaho::To)
                &&& match spec_text(toks, pos + n1) {
                        Outcome::Matched(n2) => {
                            &&& advanced(toks, pos, n1)
                            &&& is_text(field_1, toks, pos + n1)
                            &&& match spec_opt(spec_word(toks, pos + n1 + n2, Selmaho::Toi)) {
                                    Outcome::Matched(_) => {
                                        &&& (match field_2 {
                                                Some(inner) => {
                                                    &&& spec_word(
                                                        toks,
                                                        pos + n1 + n2,
                                                        Selmaho::Toi,
                                                    ) is Matched
                                                    &&& is_word(
                                                        inner,
                                                        toks,
                                                        pos + n1 + n2,
                                                        Selmaho::Toi,
                                                    )
                                                },
                                                None => spec_word(
                                                    toks,
                                                    pos + n1 + n2,
                                                    Selmaho::Toi,
                                                ) is Error,
                                            })
                                    },
                                    _ => false,
                                }
                        },
                        _ => false,
                    }
            },
            _ => false,
        },
        _ => false,
    }
}

/// What [`is_free_to`] says.
pub proof fn lemma_is_free_to<'arena>(node: Free<'arena>, toks: Seq<Token>, pos: nat)
    ensures
        is_free_to(node, toks, pos) == (
            match node {
                Free::To(field_0, field_1, field_2) => match spec_word(toks, pos, Selmaho::To) {
                    Outcome::Matched(n1) => {
                        &&& is_word(field_0, toks, pos, Selmaho::To)
                        &&& match spec_text(toks, pos + n1) {
                                Outcome::Matched(n2) => {
                                    &&& advanced(toks, pos, n1)
                                    &&& is_text(field_1, toks, pos + n1)
                                    &&& match spec_opt(
                                        spec_word(toks, pos + n1 + n2, Selmaho::Toi),
                                    ) {
                                            Outcome::Matched(_) => {
                                                &&& (match field_2 {
                                                        Some(inner) => {
                                                            &&& spec_word(
                                                                toks,
                                                                pos + n1 + n2,
                                                                Selmaho::Toi,
                                                            ) is Matched
                                                            &&& is_word(
                                                                inner,
                                                                toks,
                                                                pos + n1 + n2,
                                                                Selmaho::Toi,
                                                            )
                                                        },
                                                        None => spec_word(
                                                            toks,
                                                            pos + n1 + n2,
                                                            Selmaho::Toi,
                                                        ) is Error,
                                                    })
                                            },
                                            _ => false,
                                        }
                                },
                                _ => false,
                            }
                    },
                    _ => false,
                },
                _ => false,
            }
        ),
{
    reveal(is_free_to);
    reveal(is_word);
    reveal(is_text);
}

/// Whether `node` is the node that `FreeXi` makes of the tokens at `pos`.
#[verifier::opaque]
pub closed spec fn is_free_xi<'arena>(node: Free<'arena>, toks: Seq<Token>, pos: nat) -> bool
    decreases rest(toks, pos), 21nat,
{
    match node {
        Free::Xi(field_0) => match spec_subscript(toks, pos) {
            Outcome::Matched(_) => is_subscript(field_0, toks, pos),
            _ => false,
        },
        _ => false,
    }
}

/// What [`is_free_xi`] says.
pub proof fn lemma_is_free_xi<'arena>(node: Free<'arena>, toks: Seq<Token>, pos: nat)
    ensures
        is_free_xi(node, toks, pos) == (
            match node {
                Free::Xi(field_0) => match spec_subscript(toks, pos) {
                    Outcome::Matched(_) => is_subscript(field_0, toks, pos),
                    _ => false,
                },
                _ => false,
            }
        ),
{
    reveal(is_free_xi);
    reveal(is_subscript);
}

/// Whether `node` is the node that `Subscript` makes of the tokens at `pos`.
#[verifier::opaque]
pub closed spec fn is_subscript<'arena>(
    node: Subscript<'arena>,
    toks: Seq<Token>,
    pos: nat,
) -> bool
    decreases rest(toks, pos), 20nat,
{
    match spec_word_with_free(toks, pos, Selmaho::Xi) {
        Outcome::Matched(n1) => {
            &&& is_word_with_free(node.0, toks, pos, Selmaho::Xi)
            &&& match spec_subscript_value_with_free(toks, pos + n1) {
                    Outcome::Matched(_) => is_subscript_value_with_free(node.1, toks, pos + n1),
                    _ => false,
                }
        },
        _ => false,
    }
}

/// What [`is_subscript`] says.
pub proof fn lemma_is_subscript<'arena>(node: Subscript<'arena>, toks: Seq<Token>, pos: nat)
    ensures
        is_subscript(node, toks, pos) == (
            match spec_word_with_free(toks, pos, Selmaho::Xi) {
                Outcome::Matched(n1) => {
                    &&& is_word_with_free(node.0, toks, pos, Selmaho::Xi)
                    &&& match spec_subscript_value_with_free(toks, pos + n1) {
                            Outcome::Matched(_) => is_subscript_value_with_free(
                                node.1,
                                toks,
                                pos + n1,
                            ),
                            _ => false,
                        }
                },
                _ => false,
            }
        ),
{
    reveal(is_subscript);
    reveal(is_word_with_free);
    reveal(is_subscript_value_with_free);
}

/// Whether `node` is the node that `SubscriptValueWithFree` makes of the tokens at `pos`.
#[verifier::opaque]
pub closed spec fn is_subscript_value_with_free<'arena>(
    node: WithFree<'arena, SubscriptValue<'arena>>,
    toks: Seq<Token>,
    pos: nat,
) -> bool
    decreases rest(toks, pos), 19nat,
{
    match spec_subscript_value(toks, pos) {
        Outcome::Matched(n1) => {
            &&& is_subscript_value(node.inner, toks, pos)
            &&& match spec_frees(toks, pos + n1) {
                    Outcome::Matched(_) => {
                        &&& advanced(toks, pos, n1)
                        &&& is_frees(node.frees, toks, pos + n1)
                    },
                    _ => false,
                }
        },
        _ => false,
    }
}

/// What [`is_subscript_value_with_free`] says.
pub proof fn lemma_is_subscript_value_with_free<'arena>(
    node: WithFree<'arena, SubscriptValue<'arena>>,
    toks: Seq<Token>,
    pos: nat,
)
    ensures
        is_subscript_value_with_free(node, toks, pos) == (
            match spec_subscript_value(toks, pos) {
                Outcome::Matched(n1) => {
                    &&& is_subscript_value(node.inner, toks, pos)
                    &&& match spec_frees(toks, pos + n1) {
                            Outcome::Matched(_) => {
                                &&& advanced(toks, pos, n1)
                                &&& is_frees(node.frees, toks, pos + n1)
                            },
                            _ => false,
                        }
                },
                _ => false,
            }
        ),
{
    reveal(is_subscript_value_with_free);
    reveal(is_subscript_value);
    reveal(is_frees);
}

/// Whether `node` is the node that `SubscriptValue` makes of the tokens at `pos`: the
/// node of the first alternative that matches.
#[verifier::opaque]
pub closed spec fn is_subscript_value<'arena>(
    node: SubscriptValue<'arena>,
    toks: Seq<Token>,
    pos: nat,
) -> bool
    decreases rest(toks, pos), 18nat,
{
    match spec_subscript_value_mekso(toks, pos) {
        Outcome::Matched(_) => is_subscript_value_mekso(node, toks, pos),
        Outcome::Error(
            _,
        ) => spec_subscript_value_number(
            toks,
            pos,
        ) is Matched && is_subscript_value_number(node, toks, pos),
        Outcome::Failure(_) => false,
    }
}

/// What [`is_subscript_value`] says.
pub proof fn lemma_is_subscript_value<'arena>(toks: Seq<Token>, pos: nat)
    ensures
        forall|node: SubscriptValue<'arena>| #[trigger] is_subscript_value(node, toks, pos) == (
            match spec_subscript_value_mekso(toks, pos) {
                Outcome::Matched(_) => is_subscript_value_mekso(node, toks, pos),
                Outcome::Error(
                    _,
                ) => spec_subscript_value_number(
                    toks,
                    pos,
                ) is Matched && is_subscript_value_number(node, toks, pos),
                Outcome::Failure(_) => false,
            }
        ),
{
    reveal(is_subscript_value);
    reveal(is_subscript_value_mekso);
    reveal(is_subscript_value_number);
}

/// Whether `node` is the node that `SubscriptValueMekso` makes of the tokens at `pos`.
#[verifier::opaque]
pub closed spec fn is_subscript_value_mekso<'arena>(
    node: SubscriptValue<'arena>,
    toks: Seq<Token>,
    pos: nat,
) -> bool
    decreases rest(toks, pos), 4nat,
{
    match node {
        SubscriptValue::Mekso(
            field_0,
            field_1,
            field_2,
            field_3,
        ) => match spec_word_with_free(toks, pos, Selmaho::Vei) {
            Outcome::Matched(n1) => {
                &&& is_word_with_free(field_0, toks, pos, Selmaho::Vei)
                &&& match spec_expression(toks, pos + n1) {
                        Outcome::Matched(n2) => {
                            &&& advanced(toks, pos, n1)
                            &&& is_expression(field_1, toks, pos + n1)
                            &&& match spec_opt(spec_word(toks, pos + n1 + n2, Selmaho::Veho)) {
                                    Outcome::Matched(n3) => {
                                        &&& (match field_2 {
                                                Some(inner) => {
                                                    &&& spec_word(
                                                        toks,
                                                        pos + n1 + n2,
                                                        Selmaho::Veho,
                                                    ) is Matched
                                                    &&& is_word(
                                                        inner,
                                                        toks,
                                                        pos + n1 + n2,
                                                        Selmaho::Veho,
                                                    )
                                                },
                                                None => spec_word(
                                                    toks,
                                                    pos + n1 + n2,
                                                    Selmaho::Veho,
                                                ) is Error,
                                            })
                                        &&& match spec_frees(toks, pos + n1 + n2 + n3) {
                                                Outcome::Matched(_) => {
                                                    &&& advanced(toks, pos, n1 + n2 + n3)
                                                    &&& is_frees(
                                                        field_3,
                                                        toks,
                                                        pos + n1 + n2 + n3,
                                                    )
                                                },
                                                _ => false,
                                            }
                                    },
                                    _ => false,
                                }
                        },
                        _ => false,
                    }
            },
            _ => false,
        },
        _ => false,
    }
}

/// What [`is_subscript_value_mekso`] says.
pub proof fn lemma_is_subscript_value_mekso<'arena>(
    node: SubscriptValue<'arena>,
    toks: Seq<Token>,
    pos: nat,
)
    ensures
        is_subscript_value_mekso(node, toks, pos) == (
            match node {
                SubscriptValue::Mekso(
                    field_0,
                    field_1,
                    field_2,
                    field_3,
                ) => match spec_word_with_free(toks, pos, Selmaho::Vei) {
                    Outcome::Matched(n1) => {
                        &&& is_word_with_free(field_0, toks, pos, Selmaho::Vei)
                        &&& match spec_expression(toks, pos + n1) {
                                Outcome::Matched(n2) => {
                                    &&& advanced(toks, pos, n1)
                                    &&& is_expression(field_1, toks, pos + n1)
                                    &&& match spec_opt(
                                        spec_word(toks, pos + n1 + n2, Selmaho::Veho),
                                    ) {
                                            Outcome::Matched(n3) => {
                                                &&& (match field_2 {
                                                        Some(inner) => {
                                                            &&& spec_word(
                                                                toks,
                                                                pos + n1 + n2,
                                                                Selmaho::Veho,
                                                            ) is Matched
                                                            &&& is_word(
                                                                inner,
                                                                toks,
                                                                pos + n1 + n2,
                                                                Selmaho::Veho,
                                                            )
                                                        },
                                                        None => spec_word(
                                                            toks,
                                                            pos + n1 + n2,
                                                            Selmaho::Veho,
                                                        ) is Error,
                                                    })
                                                &&& match spec_frees(toks, pos + n1 + n2 + n3) {
                                                        Outcome::Matched(_) => {
                                                            &&& advanced(toks, pos, n1 + n2 + n3)
                                                            &&& is_frees(
                                                                field_3,
                                                                toks,
                                                                pos + n1 + n2 + n3,
                                                            )
                                                        },
                                                        _ => false,
                                                    }
                                            },
                                            _ => false,
                                        }
                                },
                                _ => false,
                            }
                    },
                    _ => false,
                },
                _ => false,
            }
        ),
{
    reveal(is_subscript_value_mekso);
    reveal(is_word_with_free);
    reveal(is_expression);
    reveal(is_word);
    reveal(is_frees);
}

/// Whether `node` is the node that `SubscriptValueNumber` makes of the tokens at `pos`.
#[verifier::opaque]
pub closed spec fn is_subscript_value_number<'arena>(
    node: SubscriptValue<'arena>,
    toks: Seq<Token>,
    pos: nat,
) -> bool
    decreases rest(toks, pos), 17nat,
{
    match node {
        SubscriptValue::Number(field_0, field_1, field_2) => match spec_misc_numbers(toks, pos) {
            Outcome::Matched(n1) => {
                &&& is_misc_numbers(field_0, toks, pos)
                &&& match spec_opt(spec_word(toks, pos + n1, Selmaho::Boi)) {
                        Outcome::Matched(n2) => {
                            &&& (match field_1 {
                                    Some(inner) => {
                                        &&& spec_word(toks, pos + n1, Selmaho::Boi) is Matched
                                        &&& is_word(inner, toks, pos + n1, Selmaho::Boi)
                                    },
                                    None => spec_word(toks, pos + n1, Selmaho::Boi) is Error,
                                })
                            &&& match spec_frees(toks, pos + n1 + n2) {
                                    Outcome::Matched(_) => {
                                        &&& advanced(toks, pos, n1 + n2)
                                        &&& is_frees(field_2, toks, pos + n1 + n2)
                                    },
                                    _ => false,
                                }
                        },
                        _ => false,
                    }
            },
            _ => false,
        },
        _ => false,
    }
}

/// What [`is_subscript_value_number`] says.
pub proof fn lemma_is_subscript_value_number<'arena>(
    node: SubscriptValue<'arena>,
    toks: Seq<Token>,
    pos: nat,
)
    ensures
        is_subscript_value_number(node, toks, pos) == (
            match node {
                SubscriptValue::Number(
                    field_0,
                    field_1,
                    field_2,
                ) => match spec_misc_numbers(toks, pos) {
                    Outcome::Matched(n1) => {
                        &&& is_misc_numbers(field_0, toks, pos)
                        &&& match spec_opt(spec_word(toks, pos + n1, Selmaho::Boi)) {
                                Outcome::Matched(n2) => {
                                    &&& (match field_1 {
                                            Some(inner) => {
                                                &&& spec_word(
                                                    toks,
                                                    pos + n1,
                                                    Selmaho::Boi,
                                                ) is Matched
                                                &&& is_word(inner, toks, pos + n1, Selmaho::Boi)
                                            },
                                            None => spec_word(
                                                toks,
                                                pos + n1,
                                                Selmaho::Boi,
                                            ) is Error,
                                        })
                                    &&& match spec_frees(toks, pos + n1 + n2) {
                                            Outcome::Matched(_) => {
                                                &&& advanced(toks, pos, n1 + n2)
                                                &&& is_frees(field_2, toks, pos + n1 + n2)
                                            },
                                            _ => false,
                                        }
                                },
                                _ => false,
                            }
                    },
                    _ => false,
                },
                _ => false,
            }
        ),
{
    reveal(is_subscript_value_number);
    reveal(is_misc_numbers);
    reveal(is_word);
    reveal(is_frees);
}

/// Whether `node` is the node that `ParagraphSeparator` makes of the tokens at `pos`.
#[verifier::opaque]
pub closed spec fn is_paragraph_separator<'arena>(
    node: ParagraphSeparator<'arena>,
    toks: Seq<Token>,
    pos: nat,
) -> bool
    decreases rest(toks, pos), 25nat,
{
    match spec_many1_word(toks, pos, Selmaho::Niho) {
        Outcome::Matched(n1) => {
            &&& is_row_of_word(node.0@, toks, pos, Selmaho::Niho)
            &&& match spec_frees(toks, pos + n1) {
                    Outcome::Matched(_) => is_frees(node.1, toks, pos + n1),
                    _ => false,
                }
        },
        _ => false,
    }
}

/// What [`is_paragraph_separator`] says.
pub proof fn lemma_is_paragraph_separator<'arena>(
    node: ParagraphSeparator<'arena>,
    toks: Seq<Token>,
    pos: nat,
)
    ensures
        is_paragraph_separator(node, toks, pos) == (
            match spec_many1_word(toks, pos, Selmaho::Niho) {
                Outcome::Matched(n1) => {
                    &&& is_row_of_word(node.0@, toks, pos, Selmaho::Niho)
                    &&& match spec_frees(toks, pos + n1) {
                            Outcome::Matched(_) => is_frees(node.1, toks, pos + n1),
                            _ => false,
                        }
                },
                _ => false,
            }
        ),
{
    reveal(is_paragraph_separator);
    reveal(is_row_of_word);
    reveal(is_frees);
}

/// Whether `node` is the node that `Paragraphs` makes of the tokens at `pos`.
#[verifier::opaque]
pub closed spec fn is_paragraphs<'arena>(
    node: Paragraphs<'arena>,
    toks: Seq<Token>,
    pos: nat,
) -> bool
    decreases rest(toks, pos), 120nat,
{
    match spec_paragraph_list(toks, pos) {
        Outcome::Matched(_) => is_paragraph_list(node.0, toks, pos),
        _ => false,
    }
}

/// What [`is_paragraphs`] says.
pub proof fn lemma_is_paragraphs<'arena>(node: Paragraphs<'arena>, toks: Seq<Token>, pos: nat)
    ensures
        is_paragraphs(node, toks, pos) == (
            match spec_paragraph_list(toks, pos) {
                Outcome::Matched(_) => is_paragraph_list(node.0, toks, pos),
                _ => false,
            }
        ),
{
    reveal(is_paragraphs);
    reveal(is_paragraph_list);
}

/// Whether `node` is the node that `ParagraphList` makes of the tokens at `pos`.
#[verifier::opaque]
pub closed spec fn is_paragraph_list<'arena>(
    node: Separated<'arena, Paragraph<'arena>, ParagraphSeparator<'arena>>,
    toks: Seq<Token>,
    pos: nat,
) -> bool
    decreases rest(toks, pos), 119nat,
{
    match spec_paragraph(toks, pos) {
        Outcome::Matched(n1) => {
            &&& is_paragraph(*node.first, toks, pos)
            &&& match spec_many0_paragraph_list_next(toks, pos + n1) {
                    Outcome::Matched(_) => is_row_of_paragraph_list_next(
                        node.rest@,
                        toks,
                        pos + n1,
                    ),
                    _ => false,
                }
        },
        _ => false,
    }
}

/// What [`is_paragraph_list`] says.
pub proof fn lemma_is_paragraph_list<'arena>(
    node: Separated<'arena, Paragraph<'arena>, ParagraphSeparator<'arena>>,
    toks: Seq<Token>,
    pos: nat,
)
    ensures
        is_paragraph_list(node, toks, pos) == (
            match spec_paragraph(toks, pos) {
                Outcome::Matched(n1) => {
                    &&& is_paragraph(*node.first, toks, pos)
                    &&& match spec_many0_paragraph_list_next(toks, pos + n1) {
                            Outcome::Matched(_) => is_row_of_paragraph_list_next(
                                node.rest@,
                                toks,
                                pos + n1,
                            ),
                            _ => false,
                        }
                },
                _ => false,
            }
        ),
{
    reveal(is_paragraph_list);
    reveal(is_paragraph);
    reveal(is_row_of_paragraph_list_next);
}

/// Whether `node` is the node that `Paragraph` makes of the tokens at `pos`.
#[verifier::opaque]
pub closed spec fn is_paragraph<'arena>(
    node: Paragraph<'arena>,
    toks: Seq<Token>,
    pos: nat,
) -> bool
    decreases rest(toks, pos), 116nat,
{
    match spec_opt(spec_sentence_separator(toks, pos)) {
        Outcome::Matched(n1) => {
            &&& (match node.initial_sentence_separator {
                    Some(inner) => {
                        &&& spec_sentence_separator(toks, pos) is Matched
                        &&& is_sentence_separator(inner, toks, pos)
                    },
                    None => spec_sentence_separator(toks, pos) is Error,
                })
            &&& match spec_paragraph_items(toks, pos + n1) {
                    Outcome::Matched(_) => is_paragraph_items(node.sentences, toks, pos + n1),
                    _ => false,
                }
        },
        _ => false,
    }
}

/// What [`is_paragraph`] says.
pub proof fn lemma_is_paragraph<'arena>(node: Paragraph<'arena>, toks: Seq<Token>, pos: nat)
    ensures
        is_paragraph(node, toks, pos) == (
            match spec_opt(spec_sentence_separator(toks, pos)) {
                Outcome::Matched(n1) => {
                    &&& (match node.initial_sentence_separator {
                            Some(inner) => {
                                &&& spec_sentence_separator(toks, pos) is Matched
                                &&& is_sentence_separator(inner, toks, pos)
                            },
                            None => spec_sentence_separator(toks, pos) is Error,
                        })
                    &&& match spec_paragraph_items(toks, pos + n1) {
                            Outcome::Matched(_) => is_paragraph_items(
                                node.sentences,
                                toks,
                                pos + n1,
                            ),
                            _ => false,
                        }
                },
                _ => false,
            }
        ),
{
    reveal(is_paragraph);
    reveal(is_sentence_separator);
    reveal(is_paragraph_items);
}

/// Whether `node` is the node that `SentenceSeparator` makes of the tokens at `pos`.
#[verifier::opaque]
pub closed spec fn is_sentence_separator<'arena>(
    node: SentenceSeparator<'arena>,
    toks: Seq<Token>,
    pos: nat,
) -> bool
    decreases rest(toks, pos), 25nat,
{
    match spec_word(toks, pos, Selmaho::I) {
        Outcome::Matched(n1) => {
            &&& is_word(node.0, toks, pos, Selmaho::I)
            &&& match spec_frees(toks, pos + n1) {
                    Outcome::Matched(_) => is_frees(node.1, toks, pos + n1),
                    _ => false,
                }
        },
        _ => false,
    }
}

/// What [`is_sentence_separator`] says.
pub proof fn lemma_is_sentence_separator<'arena>(
    node: SentenceSeparator<'arena>,
    toks: Seq<Token>,
    pos: nat,
)
    ensures
        is_sentence_separator(node, toks, pos) == (
            match spec_word(toks, pos, Selmaho::I) {
                Outcome::Matched(n1) => {
                    &&& is_word(node.0, toks, pos, Selmaho::I)
                    &&& match spec_frees(toks, pos + n1) {
                            Outcome::Matched(_) => is_frees(node.1, toks, pos + n1),
                            _ => false,
                        }
                },
                _ => false,
            }
        ),
{
    reveal(is_sentence_separator);
    reveal(is_word);
    reveal(is_frees);
}

/// Whether `node` is the node that `ParagraphItems` makes of the tokens at `pos`.
#[verifier::opaque]
pub closed spec fn is_paragraph_items<'arena>(
    node: Separated<'arena, ParagraphItem<'arena>, SentenceSeparator<'arena>>,
    toks: Seq<Token>,
    pos: nat,
) -> bool
    decreases rest(toks, pos), 115nat,
{
    match spec_paragraph_item(toks, pos) {
        Outcome::Matched(n1) => {
            &&& is_paragraph_item(*node.first, toks, pos)
            &&& match spec_many0_paragraph_items_next(toks, pos + n1) {
                    Outcome::Matched(_) => is_row_of_paragraph_items_next(
                        node.rest@,
                        toks,
                        pos + n1,
                    ),
                    _ => false,
                }
        },
        _ => false,
    }
}

/// What [`is_paragraph_items`] says.
pub proof fn lemma_is_paragraph_items<'arena>(
    node: Separated<'arena, ParagraphItem<'arena>, SentenceSeparator<'arena>>,
    toks: Seq<Token>,
    pos: nat,
)
    ensures
        is_paragraph_items(node, toks, pos) == (
            match spec_paragraph_item(toks, pos) {
                Outcome::Matched(n1) => {
                    &&& is_paragraph_item(*node.first, toks, pos)
                    &&& match spec_many0_paragraph_items_next(toks, pos + n1) {
                            Outcome::Matched(_) => is_row_of_paragraph_items_next(
                                node.rest@,
                                toks,
                                pos + n1,
                            ),
                            _ => false,
                        }
                },
                _ => false,
            }
        ),
{
    reveal(is_paragraph_items);
    reveal(is_paragraph_item);
    reveal(is_row_of_paragraph_items_next);
}

/// Whether `node` is the node that `ParagraphItem` makes of the tokens at `pos`: the
/// node of the first alternative that matches.
#[verifier::opaque]
pub closed spec fn is_paragraph_item<'arena>(
    node: ParagraphItem<'arena>,
    toks: Seq<Token>,
    pos: nat,
) -> bool
    decreases rest(toks, pos), 112nat,
{
    match spec_paragraph_item_sentences(toks, pos) {
        Outcome::Matched(_) => is_paragraph_item_sentences(node, toks, pos),
        Outcome::Error(_) => match spec_paragraph_item_fragment(toks, pos) {
            Outcome::Matched(_) => is_paragraph_item_fragment(node, toks, pos),
            Outcome::Error(
                _,
            ) => spec_paragraph_item_empty(
                toks,
                pos,
            ) is Matched && is_paragraph_item_empty(node, toks, pos),
            Outcome::Failure(_) => false,
        },
        Outcome::Failure(_) => false,
    }
}

/// What [`is_paragraph_item`] says.
pub proof fn lemma_is_paragraph_item<'arena>(toks: Seq<Token>, pos: nat)
    ensures
        forall|node: ParagraphItem<'arena>| #[trigger] is_paragraph_item(node, toks, pos) == (
            match spec_paragraph_item_sentences(toks, pos) {
                Outcome::Matched(_) => is_paragraph_item_sentences(node, toks, pos),
                Outcome::Error(_) => match spec_paragraph_item_fragment(toks, pos) {
                    Outcome::Matched(_) => is_paragraph_item_fragment(node, toks, pos),
                    Outcome::Error(
                        _,
                    ) => spec_paragraph_item_empty(
                        toks,
                        pos,
                    ) is Matched && is_paragraph_item_empty(node, toks, pos),
                    Outcome::Failure(_) => false,
                },
                Outcome::Failure(_) => false,
            }
        ),
{
    reveal(is_paragraph_item);
    reveal(is_paragraph_item_sentences);
    reveal(is_paragraph_item_fragment);
    reveal(is_paragraph_item_empty);
}

/// Whether `node` is the node that `ParagraphItemSentences` makes of the tokens at `pos`.
#[verifier::opaque]
pub closed spec fn is_paragraph_item_sentences<'arena>(
    node: ParagraphItem<'arena>,
    toks: Seq<Token>,
    pos: nat,
) -> bool
    decreases rest(toks, pos), 111nat,
{
    match node {
        ParagraphItem::Sentences(field_0) => match spec_sentences_1(toks, pos) {
            Outcome::Matched(_) => is_sentences_1(field_0, toks, pos),
            _ => false,
        },
        _ => false,
    }
}

/// What [`is_paragraph_item_sentences`] says.
pub proof fn lemma_is_paragraph_item_sentences<'arena>(
    node: ParagraphItem<'arena>,
    toks: Seq<Token>,
    pos: nat,
)
    ensures
        is_paragraph_item_sentences(node, toks, pos) == (
            match node {
                ParagraphItem::Sentences(field_0) => match spec_sentences_1(toks, pos) {
                    Outcome::Matched(_) => is_sentences_1(field_0, toks, pos),
                    _ => false,
                },
                _ => false,
            }
        ),
{
    reveal(is_paragraph_item_sentences);
    reveal(is_sentences_1);
}

/// Whether `node` is the node that `Sentences1` makes of the tokens at `pos`.
#[verifier::opaque]
pub closed spec fn is_sentences_1<'arena>(
    node: Sentences1<'arena>,
    toks: Seq<Token>,
    pos: nat,
) -> bool
    decreases rest(toks, pos), 110nat,
{
    match spec_many0_prenex(toks, pos) {
        Outcome::Matched(n1) => {
            &&& is_row_of_prenex(node.0@, toks, pos)
            &&& match spec_sentences_2_list(toks, pos + n1) {
                    Outcome::Matched(_) => is_sentences_2_list(node.1, toks, pos + n1),
                    _ => false,
                }
        },
        _ => false,
    }
}

/// What [`is_sentences_1`] says.
pub proof fn lemma_is_sentences_1<'arena>(node: Sentences1<'arena>, toks: Seq<Token>, pos: nat)
    ensures
        is_sentences_1(node, toks, pos) == (
            match spec_many0_prenex(toks, pos) {
                Outcome::Matched(n1) => {
                    &&& is_row_of_prenex(node.0@, toks, pos)
                    &&& match spec_sentences_2_list(toks, pos + n1) {
                            Outcome::Matched(_) => is_sentences_2_list(node.1, toks, pos + n1),
                            _ => false,
                        }
                },
                _ => false,
            }
        ),
{
    reveal(is_sentences_1);
    reveal(is_row_of_prenex);
    reveal(is_sentences_2_list);
}

/// Whether `node` is the node that `Sentences2List` makes of the tokens at `pos`.
#[verifier::opaque]
pub closed spec fn is_sentences_2_list<'arena>(
    node: Separated<'arena, Sentences2<'arena>, ConnectedSentenceSeparator<'arena>>,
    toks: Seq<Token>,
    pos: nat,
) -> bool
    decreases rest(toks, pos), 109nat,
{
    match spec_sentences_2(toks, pos) {
        Outcome::Matched(n1) => {
            &&& is_sentences_2(*node.first, toks, pos)
            &&& match spec_many0_sentences_2_list_next(toks, pos + n1) {
                    Outcome::Matched(_) => is_row_of_sentences_2_list_next(
                        node.rest@,
                        toks,
                        pos + n1,
                    ),
                    _ => false,
                }
        },
        _ => false,
    }
}

/// What [`is_sentences_2_list`] says.
pub proof fn lemma_is_sentences_2_list<'arena>(
    node: Separated<'arena, Sentences2<'arena>, ConnectedSentenceSeparator<'arena>>,
    toks: Seq<Token>,
    pos: nat,
)
    ensures
        is_sentences_2_list(node, toks, pos) == (
            match spec_sentences_2(toks, pos) {
                Outcome::Matched(n1) => {
                    &&& is_sentences_2(*node.first, toks, pos)
                    &&& match spec_many0_sentences_2_list_next(toks, pos + n1) {
                            Outcome::Matched(_) => is_row_of_sentences_2_list_next(
                                node.rest@,
                                toks,
                                pos + n1,
                            ),
                            _ => false,
                        }
                },
                _ => false,
            }
        ),
{
    reveal(is_sentences_2_list);
    reveal(is_sentences_2);
    reveal(is_row_of_sentences_2_list_next);
}

/// Whether `node` is the node that `Sentences2` makes of the tokens at `pos`.
#[verifier::opaque]
pub closed spec fn is_sentences_2<'arena>(
    node: Separated<'arena, Sentences3<'arena>, CloseSentenceSeparator<'arena>>,
    toks: Seq<Token>,
    pos: nat,
) -> bool
    decreases rest(toks, pos), 106nat,
{
    match spec_sentences_3(toks, pos) {
        Outcome::Matched(n1) => {
            &&& is_sentences_3(*node.first, toks, pos)
            &&& match spec_many0_sentences_2_next(toks, pos + n1) {
                    Outcome::Matched(_) => is_row_of_sentences_2_next(node.rest@, toks, pos + n1),
                    _ => false,
                }
        },
        _ => false,
    }
}

/// What [`is_sentences_2`] says.
pub proof fn lemma_is_sentences_2<'arena>(
    node: Separated<'arena, Sentences3<'arena>, CloseSentenceSeparator<'arena>>,
    toks: Seq<Token>,
    pos: nat,
)
    ensures
        is_sentences_2(node, toks, pos) == (
            match spec_sentences_3(toks, pos) {
                Outcome::Matched(n1) => {
                    &&& is_sentences_3(*node.first, toks, pos)
                    &&& match spec_many0_sentences_2_next(toks, pos + n1) {
                            Outcome::Matched(_) => is_row_of_sentences_2_next(
                                node.rest@,
                                toks,
                                pos + n1,
                            ),
                            _ => false,
                        }
                },
                _ => false,
            }
        ),
{
    reveal(is_sentences_2);
    reveal(is_sentences_3);
    reveal(is_row_of_sentences_2_next);
}

/// Whether `node` is the node that `Sentences3` makes of the tokens at `pos`: the
/// node of the first alternative that matches.
#[verifier::opaque]
pub closed spec fn is_sentences_3<'arena>(
    node: Sentences3<'arena>,
    toks: Seq<Token>,
    pos: nat,
) -> bool
    decreases rest(toks, pos), 103nat,
{
    match spec_sentences_3_grouped(toks, pos) {
        Outcome::Matched(_) => is_sentences_3_grouped(node, toks, pos),
        Outcome::Error(
            _,
        ) => spec_sentences_3_single(
            toks,
            pos,
        ) is Matched && is_sentences_3_single(node, toks, pos),
        Outcome::Failure(_) => false,
    }
}

/// What [`is_sentences_3`] says.
pub proof fn lemma_is_sentences_3<'arena>(toks: Seq<Token>, pos: nat)
    ensures
        forall|node: Sentences3<'arena>| #[trigger] is_sentences_3(node, toks, pos) == (
            match spec_sentences_3_grouped(toks, pos) {
                Outcome::Matched(_) => is_sentences_3_grouped(node, toks, pos),
                Outcome::Error(
                    _,
                ) => spec_sentences_3_single(
                    toks,
                    pos,
                ) is Matched && is_sentences_3_single(node, toks, pos),
                Outcome::Failure(_) => false,
            }
        ),
{
    reveal(is_sentences_3);
    reveal(is_sentences_3_grouped);
    reveal(is_sentences_3_single);
}

/// Whether `node` is the node that `Sentences3Grouped` makes of the tokens at `pos`.
#[verifier::opaque]
pub closed spec fn is_sentences_3_grouped<'arena>(
    node: Sentences3<'arena>,
    toks: Seq<Token>,
    pos: nat,
) -> bool
    decreases rest(toks, pos), 32nat,
{
    match node {
        Sentences3::Grouped(
            field_0,
            field_1,
            field_2,
            field_3,
            field_4,
        ) => match spec_opt(spec_tag_words(toks, pos)) {
            Outcome::Matched(n1) => {
                &&& (match field_0 {
                        Some(inner) => {
                            &&& spec_tag_words(toks, pos) is Matched
                            &&& is_tag_words(inner, toks, pos)
                        },
                        None => spec_tag_words(toks, pos) is Error,
                    })
                &&& match spec_word_with_free(toks, pos + n1, Selmaho::Tuhe) {
                        Outcome::Matched(n2) => {
                            &&& is_word_with_free(field_1, toks, pos + n1, Selmaho::Tuhe)
                            &&& match spec_paragraphs(toks, pos + n1 + n2) {
                                    Outcome::Matched(n3) => {
                                        &&& advanced(toks, pos, n1 + n2)
                                        &&& is_paragraphs(field_2, toks, pos + n1 + n2)
                                        &&& match spec_opt(
                                            spec_word(toks, pos + n1 + n2 + n3, Selmaho::Tuhu),
                                        ) {
                                                Outcome::Matched(n4) => {
                                                    &&& (match field_3 {
                                                            Some(inner) => {
                                                                &&& spec_word(
                                                                    toks,
                                                                    pos + n1 + n2 + n3,
                                                                    Selmaho::Tuhu,
                                                                ) is Matched
                                                                &&& is_word(
                                                                    inner,
                                                                    toks,
                                                                    pos + n1 + n2 + n3,
                                                                    Selmaho::Tuhu,
                                                                )
                                                            },
                                                            None => spec_word(
                                                                toks,
                                                                pos + n1 + n2 + n3,
                                                                Selmaho::Tuhu,
                                                            ) is Error,
                                                        })
                                                    &&& match spec_frees(
                                                        toks,
                                                        pos + n1 + n2 + n3 + n4,
                                                    ) {
                                                            Outcome::Matched(_) => is_frees(
                                                                field_4,
                                                                toks,
                                                                pos + n1 + n2 + n3 + n4,
                                                            ),
                                                            _ => false,
                                                        }
                                                },
                                                _ => false,
                                            }
                                    },
                                    _ => false,
                                }
                        },
                        _ => false,
                    }
            },
            _ => false,
        },
        _ => false,
    }
}

/// What [`is_sentences_3_grouped`] says.
pub proof fn lemma_is_sentences_3_grouped<'arena>(
    node: Sentences3<'arena>,
    toks: Seq<Token>,
    pos: nat,
)
    ensures
        is_sentences_3_grouped(node, toks, pos) == (
            match node {
                Sentences3::Grouped(
                    field_0,
                    field_1,
                    field_2,
                    field_3,
                    field_4,
                ) => match spec_opt(spec_tag_words(toks, pos)) {
                    Outcome::Matched(n1) => {
                        &&& (match field_0 {
                                Some(inner) => {
                                    &&& spec_tag_words(toks, pos) is Matched
                                    &&& is_tag_words(inner, toks, pos)
                                },
                                None => spec_tag_words(toks, pos) is Error,
                            })
                        &&& match spec_word_with_free(toks, pos + n1, Selmaho::Tuhe) {
                                Outcome::Matched(n2) => {
                                    &&& is_word_with_free(field_1, toks, pos + n1, Selmaho::Tuhe)
                                    &&& match spec_paragraphs(toks, pos + n1 + n2) {
                                            Outcome::Matched(n3) => {
                                                &&& advanced(toks, pos, n1 + n2)
                                                &&& is_paragraphs(field_2, toks, pos + n1 + n2)
                                                &&& match spec_opt(
                                                    spec_word(
                                                        toks,
                                                        pos + n1 + n2 + n3,
                                                        Selmaho::Tuhu,
                                                    ),
                                                ) {
                                                        Outcome::Matched(n4) => {
                                                            &&& (match field_3 {
                                                                    Some(inner) => {
                                                                        &&& spec_word(
                                                                            toks,
                                                                            pos + n1 + n2 + n3,
                                                                            Selmaho::Tuhu,
                                                                        ) is Matched
                                                                        &&& is_word(
                                                                            inner,
                                                                            toks,
                                                                            pos + n1 + n2 + n3,
                                                                            Selmaho::Tuhu,
                                                                        )
                                                                    },
                                                                    None => spec_word(
                                                                        toks,
                                                                        pos + n1 + n2 + n3,
                                                                        Selmaho::Tuhu,
                                                                    ) is Error,
                                                                })
                                                            &&& match spec_frees(
                                                                toks,
                                                                pos + n1 + n2 + n3 + n4,
                                                            ) {
                                                                    Outcome::Matched(_) => is_frees(
                                                                        field_4,
                                                                        toks,
                                                                        pos + n1 + n2 + n3 + n4,
                                                                    ),
                                                                    _ => false,
                                                                }
                                                        },
                                                        _ => false,
                                                    }
                                            },
                                            _ => false,
                                        }
                                },
                                _ => false,
                            }
                    },
                    _ => false,
                },
                _ => false,
            }
        ),
{
    reveal(is_sentences_3_grouped);
    reveal(is_tag_words);
    reveal(is_word_with_free);
    reveal(is_paragraphs);
    reveal(is_word);
    reveal(is_frees);
}

/// Whether `node` is the node that `Sentences3Single` makes of the tokens at `pos`.
#[verifier::opaque]
pub closed spec fn is_sentences_3_single<'arena>(
    node: Sentences3<'arena>,
    toks: Seq<Token>,
    pos: nat,
) -> bool
    decreases rest(toks, pos), 102nat,
{
    match node {
        Sentences3::Single(field_0) => match spec_sentence(toks, pos) {
            Outcome::Matched(_) => is_sentence(*field_0, toks, pos),
            _ => false,
        },
        _ => false,
    }
}

/// What [`is_sentences_3_single`] says.
pub proof fn lemma_is_sentences_3_single<'arena>(
    node: Sentences3<'arena>,
    toks: Seq<Token>,
    pos: nat,
)
    ensures
        is_sentences_3_single(node, toks, pos) == (
            match node {
                Sentences3::Single(field_0) => match spec_sentence(toks, pos) {
                    Outcome::Matched(_) => is_sentence(*field_0, toks, pos),
                    _ => false,
                },
                _ => false,
            }
        ),
{
    reveal(is_sentences_3_single);
    reveal(is_sentence);
}

/// Whether `node` is the node that `Sentence` makes of the tokens at `pos`.
#[verifier::opaque]
pub closed spec fn is_sentence<'arena>(node: Sentence<'arena>, toks: Seq<Token>, pos: nat) -> bool
    decreases rest(toks, pos), 101nat,
{
    match spec_args(toks, pos) {
        Outcome::Matched(n1) => {
            &&& is_args(node.before_args, toks, pos)
            &&& match spec_opt(spec_sentence_tail(toks, pos + n1)) {
                    Outcome::Matched(_) => {
                        &&& (match node.tail {
                                Some(inner) => {
                                    &&& spec_sentence_tail(toks, pos + n1) is Matched
                                    &&& is_sentence_tail(inner, toks, pos + n1)
                                },
                                None => spec_sentence_tail(toks, pos + n1) is Error,
                            })
                    },
                    _ => false,
                }
        },
        _ => false,
    }
}

/// What [`is_sentence`] says.
pub proof fn lemma_is_sentence<'arena>(node: Sentence<'arena>, toks: Seq<Token>, pos: nat)
    ensures
        is_sentence(node, toks, pos) == (
            match spec_args(toks, pos) {
                Outcome::Matched(n1) => {
                    &&& is_args(node.before_args, toks, pos)
                    &&& match spec_opt(spec_sentence_tail(toks, pos + n1)) {
                            Outcome::Matched(_) => {
                                &&& (match node.tail {
                                        Some(inner) => {
                                            &&& spec_sentence_tail(toks, pos + n1) is Matched
                                            &&& is_sentence_tail(inner, toks, pos + n1)
                                        },
                                        None => spec_sentence_tail(toks, pos + n1) is Error,
                                    })
                            },
                            _ => false,
                        }
                },
                _ => false,
            }
        ),
{
    reveal(is_sentence);
    reveal(is_args);
    reveal(is_sentence_tail);
}

/// Whether `node` is the node that `Sentences2Next` makes of the tokens at `pos`.
#[verifier::opaque]
pub closed spec fn is_sentences_2_next<'arena>(
    node: (CloseSentenceSeparator<'arena>, Sentences3<'arena>),
    toks: Seq<Token>,
    pos: nat,
) -> bool
    decreases rest(toks, pos), 104nat,
{
    match spec_close_sentence_separator(toks, pos) {
        Outcome::Matched(n1) => {
            &&& is_close_sentence_separator(node.0, toks, pos)
            &&& match spec_sentences_3(toks, pos + n1) {
                    Outcome::Matched(_) => is_sentences_3(node.1, toks, pos + n1),
                    _ => false,
                }
        },
        _ => false,
    }
}

/// What [`is_sentences_2_next`] says.
pub proof fn lemma_is_sentences_2_next<'arena>(
    node: (CloseSentenceSeparator<'arena>, Sentences3<'arena>),
    toks: Seq<Token>,
    pos: nat,
)
    ensures
        is_sentences_2_next(node, toks, pos) == (
            match spec_close_sentence_separator(toks, pos) {
                Outcome::Matched(n1) => {
                    &&& is_close_sentence_separator(node.0, toks, pos)
                    &&& match spec_sentences_3(toks, pos + n1) {
                            Outcome::Matched(_) => is_sentences_3(node.1, toks, pos + n1),
                            _ => false,
                        }
                },
                _ => false,
            }
        ),
{
    reveal(is_sentences_2_next);
    reveal(is_close_sentence_separator);
    reveal(is_sentences_3);
}

/// How many tokens the first `count` of a row of `Sentences2Next` take at `pos`.
pub open spec fn run_of_sentences_2_next(toks: Seq<Token>, pos: nat, count: nat) -> nat
    decreases count,
{
    if count == 0 {
        0
    } else {
        let before = run_of_sentences_2_next(toks, pos, (count - 1) as nat);
        before + (match spec_sentences_2_next(toks, pos + before) {
            Outcome::Matched(len) => len,
            _ => 0,
        })
    }
}

/// Whether `items` are the nodes of a row of `Sentences2Next` at `pos`: each is the
/// node of the `Sentences2Next` at its place, and no further one follows them.
#[verifier::opaque]
pub closed spec fn is_row_of_sentences_2_next<'arena>(
    items: Seq<(CloseSentenceSeparator<'arena>, Sentences3<'arena>)>,
    toks: Seq<Token>,
    pos: nat,
) -> bool
    decreases rest(toks, pos), 105nat,
{
    &&& forall|i: int|
        #![trigger items[i]]
        #![trigger run_of_sentences_2_next(toks, pos, i as nat)]
        0 <= i < items.len() ==> spec_sentences_2_next(
            toks,
            pos + run_of_sentences_2_next(toks, pos, i as nat),
        ) is Matched && is_sentences_2_next(
            items[i],
            toks,
            pos + run_of_sentences_2_next(toks, pos, i as nat),
        )
    &&& !(spec_sentences_2_next(
        toks,
        pos + run_of_sentences_2_next(toks, pos, items.len()),
    ) is Matched)
}

/// What [`is_row_of_sentences_2_next`] says.
pub proof fn lemma_is_row_of_sentences_2_next<'arena>(
    items: Seq<(CloseSentenceSeparator<'arena>, Sentences3<'arena>)>,
    toks: Seq<Token>,
    pos: nat,
)
    ensures
        is_row_of_sentences_2_next(items, toks, pos) == ({
            &&& forall|i: int|
                #![trigger items[i]]
                #![trigger run_of_sentences_2_next(toks, pos, i as nat)]
                0 <= i < items.len() ==> spec_sentences_2_next(
                    toks,
                    pos + run_of_sentences_2_next(toks, pos, i as nat),
                ) is Matched && is_sentences_2_next(
                    items[i],
                    toks,
                    pos + run_of_sentences_2_next(toks, pos, i as nat),
                )
            &&& !(spec_sentences_2_next(
                toks,
                pos + run_of_sentences_2_next(toks, pos, items.len()),
            ) is Matched)
        }),
{
    reveal(is_row_of_sentences_2_next);
    reveal(is_sentences_2_next);
}

/// Whether `node` is the node that `CloseSentenceSeparator` makes of the tokens at `pos`.
#[verifier::opaque]
pub closed spec fn is_close_sentence_separator<'arena>(
    node: CloseSentenceSeparator<'arena>,
    toks: Seq<Token>,
    pos: nat,
) -> bool
    decreases rest(toks, pos), 32nat,
{
    match spec_word(toks, pos, Selmaho::I) {
        Outcome::Matched(n1) => {
            &&& is_word(node.0, toks, pos, Selmaho::I)
            &&& match spec_opt(spec_joik_jek(toks, pos + n1)) {
                    Outcome::Matched(n2) => {
                        &&& (match node.1 {
                                Some(inner) => {
                                    &&& spec_joik_jek(toks, pos + n1) is Matched
                                    &&& is_joik_jek(inner, toks, pos + n1)
                                },
                                None => spec_joik_jek(toks, pos + n1) is Error,
                            })
                        &&& match spec_opt(spec_tag_words(toks, pos + n1 + n2)) {
                                Outcome::Matched(n3) => {
                                    &&& (match node.2 {
                                            Some(inner) => {
                                                &&& spec_tag_words(toks, pos + n1 + n2) is Matched
                                                &&& is_tag_words(inner, toks, pos + n1 + n2)
                                            },
                                            None => spec_tag_words(toks, pos + n1 + n2) is Error,
                                        })
                                    &&& match spec_word(toks, pos + n1 + n2 + n3, Selmaho::Bo) {
                                            Outcome::Matched(n4) => {
                                                &&& is_word(
                                                    node.3,
                                                    toks,
                                                    pos + n1 + n2 + n3,
                                                    Selmaho::Bo,
                                                )
                                                &&& match spec_frees(
                                                    toks,
                                                    pos + n1 + n2 + n3 + n4,
                                                ) {
                                                        Outcome::Matched(_) => is_frees(
                                                            node.4,
                                                            toks,
                                                            pos + n1 + n2 + n3 + n4,
                                                        ),
                                                        _ => false,
                                                    }
                                            },
                                            _ => false,
                                        }
                                },
                                _ => false,
                            }
                    },
                    _ => false,
                }
        },
        _ => false,
    }
}

/// What [`is_close_sentence_separator`] says.
pub proof fn lemma_is_close_sentence_separator<'arena>(
    node: CloseSentenceSeparator<'arena>,
    toks: Seq<Token>,
    pos: nat,
)
    ensures
        is_close_sentence_separator(node, toks, pos) == (
            match spec_word(toks, pos, Selmaho::I) {
                Outcome::Matched(n1) => {
                    &&& is_word(node.0, toks, pos, Selmaho::I)
                    &&& match spec_opt(spec_joik_jek(toks, pos + n1)) {
                            Outcome::Matched(n2) => {
                                &&& (match node.1 {
                                        Some(inner) => {
                                            &&& spec_joik_jek(toks, pos + n1) is Matched
                                            &&& is_joik_jek(inner, toks, pos + n1)
                                        },
                                        None => spec_joik_jek(toks, pos + n1) is Error,
                                    })
                                &&& match spec_opt(spec_tag_words(toks, pos + n1 + n2)) {
                                        Outcome::Matched(n3) => {
                                            &&& (match node.2 {
                                                    Some(inner) => {
                                                        &&& spec_tag_words(
                                                            toks,
                                                            pos + n1 + n2,
                                                        ) is Matched
                                                        &&& is_tag_words(
                                                            inner,
                                                            toks,
                                                            pos + n1 + n2,
                                                        )
                                                    },
                                                    None => spec_tag_words(
                                                        toks,
                                                        pos + n1 + n2,
                                                    ) is Error,
                                                })
                                            &&& match spec_word(
                                                toks,
                                                pos + n1 + n2 + n3,
                                                Selmaho::Bo,
                                            ) {
                                                    Outcome::Matched(n4) => {
                                                        &&& is_word(
                                                            node.3,
                                                            toks,
                                                            pos + n1 + n2 + n3,
                                                            Selmaho::Bo,
                                                        )
                                                        &&& match spec_frees(
                                                            toks,
                                                            pos + n1 + n2 + n3 + n4,
                                                        ) {
                                                                Outcome::Matched(_) => is_frees(
                                                                    node.4,
                                                                    toks,
                                                                    pos + n1 + n2 + n3 + n4,
                                                                ),
                                                                _ => false,
                                                            }
                                                    },
                                                    _ => false,
                                                }
                                        },
                                        _ => false,
                                    }
                            },
                            _ => false,
                        }
                },
                _ => false,
            }
        ),
{
    reveal(is_close_sentence_separator);
    reveal(is_word);
    reveal(is_joik_jek);
    reveal(is_tag_words);
    reveal(is_frees);
}

/// Whether `node` is the node that `Sentences2ListNext` makes of the tokens at `pos`.
#[verifier::opaque]
pub closed spec fn is_sentences_2_list_next<'arena>(
    node: (ConnectedSentenceSeparator<'arena>, Sentences2<'arena>),
    toks: Seq<Token>,
    pos: nat,
) -> bool
    decreases rest(toks, pos), 107nat,
{
    match spec_connected_sentence_separator(toks, pos) {
        Outcome::Matched(n1) => {
            &&& is_connected_sentence_separator(node.0, toks, pos)
            &&& match spec_sentences_2(toks, pos + n1) {
                    Outcome::Matched(_) => is_sentences_2(node.1, toks, pos + n1),
                    _ => false,
                }
        },
        _ => false,
    }
}

/// What [`is_sentences_2_list_next`] says.
pub proof fn lemma_is_sentences_2_list_next<'arena>(
    node: (ConnectedSentenceSeparator<'arena>, Sentences2<'arena>),
    toks: Seq<Token>,
    pos: nat,
)
    ensures
        is_sentences_2_list_next(node, toks, pos) == (
            match spec_connected_sentence_separator(toks, pos) {
                Outcome::Matched(n1) => {
                    &&& is_connected_sentence_separator(node.0, toks, pos)
                    &&& match spec_sentences_2(toks, pos + n1) {
                            Outcome::Matched(_) => is_sentences_2(node.1, toks, pos + n1),
                            _ => false,
                        }
                },
                _ => false,
            }
        ),
{
    reveal(is_sentences_2_list_next);
    reveal(is_connected_sentence_separator);
    reveal(is_sentences_2);
}

/// How many tokens the first `count` of a row of `Sentences2ListNext` take at `pos`.
pub open spec fn run_of_sentences_2_list_next(toks: Seq<Token>, pos: nat, count: nat) -> nat
    decreases count,
{
    if count == 0 {
        0
    } else {
        let before = run_of_sentences_2_list_next(toks, pos, (count - 1) as nat);
        before + (match spec_sentences_2_list_next(toks, pos + before) {
            Outcome::Matched(len) => len,
            _ => 0,
        })
    }
}

/// Whether `items` are the nodes of a row of `Sentences2ListNext` at `pos`: each is the
/// node of the `Sentences2ListNext` at its place, and no further one follows them.
#[verifier::opaque]
pub closed spec fn is_row_of_sentences_2_list_next<'arena>(
    items: Seq<(ConnectedSentenceSeparator<'arena>, Sentences2<'arena>)>,
    toks: Seq<Token>,
    pos: nat,
) -> bool
    decreases rest(toks, pos), 108nat,
{
    &&& forall|i: int|
        #![trigger items[i]]
        #![trigger run_of_sentences_2_list_next(toks, pos, i as nat)]
        0 <= i < items.len() ==> spec_sentences_2_list_next(
            toks,
            pos + run_of_sentences_2_list_next(toks, pos, i as nat),
        ) is Matched && is_sentences_2_list_next(
            items[i],
            toks,
            pos + run_of_sentences_2_list_next(toks, pos, i as nat),
        )
    &&& !(spec_sentences_2_list_next(
        toks,
        pos + run_of_sentences_2_list_next(toks, pos, items.len()),
    ) is Matched)
}

/// What [`is_row_of_sentences_2_list_next`] says.
pub proof fn lemma_is_row_of_sentences_2_list_next<'arena>(
    items: Seq<(ConnectedSentenceSeparator<'arena>, Sentences2<'arena>)>,
    toks: Seq<Token>,
    pos: nat,
)
    ensures
        is_row_of_sentences_2_list_next(items, toks, pos) == ({
            &&& forall|i: int|
                #![trigger items[i]]
                #![trigger run_of_sentences_2_list_next(toks, pos, i as nat)]
                0 <= i < items.len() ==> spec_sentences_2_list_next(
                    toks,
                    pos + run_of_sentences_2_list_next(toks, pos, i as nat),
                ) is Matched && is_sentences_2_list_next(
                    items[i],
                    toks,
                    pos + run_of_sentences_2_list_next(toks, pos, i as nat),
                )
            &&& !(spec_sentences_2_list_next(
                toks,
                pos + run_of_sentences_2_list_next(toks, pos, items.len()),
            ) is Matched)
        }),
{
    reveal(is_row_of_sentences_2_list_next);
    reveal(is_sentences_2_list_next);
}

/// Whether `node` is the node that `ConnectedSentenceSeparator` makes of the tokens at `pos`.
#[verifier::opaque]
pub closed spec fn is_connected_sentence_separator<'arena>(
    node: ConnectedSentenceSeparator<'arena>,
    toks: Seq<Token>,
    pos: nat,
) -> bool
    decreases rest(toks, pos), 25nat,
{
    match spec_word(toks, pos, Selmaho::I) {
        Outcome::Matched(n1) => {
            &&& is_word(node.0, toks, pos, Selmaho::I)
            &&& match spec_joik_jek(toks, pos + n1) {
                    Outcome::Matched(n2) => {
                        &&& is_joik_jek(node.1, toks, pos + n1)
                        &&& match spec_frees(toks, pos + n1 + n2) {
                                Outcome::Matched(_) => is_frees(node.2, toks, pos + n1 + n2),
                                _ => false,
                            }
                    },
                    _ => false,
                }
        },
        _ => false,
    }
}

/// What [`is_connected_sentence_separator`] says.
pub proof fn lemma_is_connected_sentence_separator<'arena>(
    node: ConnectedSentenceSeparator<'arena>,
    toks: Seq<Token>,
    pos: nat,
)
    ensures
        is_connected_sentence_separator(node, toks, pos) == (
            match spec_word(toks, pos, Selmaho::I) {
                Outcome::Matched(n1) => {
                    &&& is_word(node.0, toks, pos, Selmaho::I)
                    &&& match spec_joik_jek(toks, pos + n1) {
                            Outcome::Matched(n2) => {
                                &&& is_joik_jek(node.1, toks, pos + n1)
                                &&& match spec_frees(toks, pos + n1 + n2) {
                                        Outcome::Matched(_) => is_frees(
                                            node.2,
                                            toks,
                                            pos + n1 + n2,
                                        ),
                                        _ => false,
                                    }
                            },
                            _ => false,
                        }
                },
                _ => false,
            }
        ),
{
    reveal(is_connected_sentence_separator);
    reveal(is_word);
    reveal(is_joik_jek);
    reveal(is_frees);
}

/// Whether `node` is the node that `ParagraphItemFragment` makes of the tokens at `pos`.
#[verifier::opaque]
pub closed spec fn is_paragraph_item_fragment<'arena>(
    node: ParagraphItem<'arena>,
    toks: Seq<Token>,
    pos: nat,
) -> bool
    decreases rest(toks, pos), 29nat,
{
    match node {
        ParagraphItem::Fragment(field_0) => match spec_fragment(toks, pos) {
            Outcome::Matched(_) => is_fragment(*field_0, toks, pos),
            _ => false,
        },
        _ => false,
    }
}

/// What [`is_paragraph_item_fragment`] says.
pub proof fn lemma_is_paragraph_item_fragment<'arena>(
    node: ParagraphItem<'arena>,
    toks: Seq<Token>,
    pos: nat,
)
    ensures
        is_paragraph_item_fragment(node, toks, pos) == (
            match node {
                ParagraphItem::Fragment(field_0) => match spec_fragment(toks, pos) {
                    Outcome::Matched(_) => is_fragment(*field_0, toks, pos),
                    _ => false,
                },
                _ => false,
            }
        ),
{
    reveal(is_paragraph_item_fragment);
    reveal(is_fragment);
}

/// Whether `node` is the node that `Fragment` makes of the tokens at `pos`: the
/// node of the first alternative that matches.
#[verifier::opaque]
pub closed spec fn is_fragment<'arena>(node: Fragment<'arena>, toks: Seq<Token>, pos: nat) -> bool
    decreases rest(toks, pos), 28nat,
{
    match spec_fragment_ek(toks, pos) {
        Outcome::Matched(_) => is_fragment_ek(node, toks, pos),
        Outcome::Error(_) => match spec_fragment_jek(toks, pos) {
            Outcome::Matched(_) => is_fragment_jek(node, toks, pos),
            Outcome::Error(_) => match spec_fragment_joik(toks, pos) {
                Outcome::Matched(_) => is_fragment_joik(node, toks, pos),
                Outcome::Error(_) => match spec_fragment_gihek(toks, pos) {
                    Outcome::Matched(_) => is_fragment_gihek(node, toks, pos),
                    Outcome::Error(_) => match spec_fragment_number(toks, pos) {
                        Outcome::Matched(_) => is_fragment_number(node, toks, pos),
                        Outcome::Error(
                            _,
                        ) => spec_fragment_na(
                            toks,
                            pos,
                        ) is Matched && is_fragment_na(node, toks, pos),
                        Outcome::Failure(_) => false,
                    },
                    Outcome::Failure(_) => false,
                },
                Outcome::Failure(_) => false,
            },
            Outcome::Failure(_) => false,
        },
        Outcome::Failure(_) => false,
    }
}

/// What [`is_fragment`] says.
pub proof fn lemma_is_fragment<'arena>(toks: Seq<Token>, pos: nat)
    ensures
        forall|node: Fragment<'arena>| #[trigger] is_fragment(node, toks, pos) == (
            match spec_fragment_ek(toks, pos) {
                Outcome::Matched(_) => is_fragment_ek(node, toks, pos),
                Outcome::Error(_) => match spec_fragment_jek(toks, pos) {
                    Outcome::Matched(_) => is_fragment_jek(node, toks, pos),
                    Outcome::Error(_) => match spec_fragment_joik(toks, pos) {
                        Outcome::Matched(_) => is_fragment_joik(node, toks, pos),
                        Outcome::Error(_) => match spec_fragment_gihek(toks, pos) {
                            Outcome::Matched(_) => is_fragment_gihek(node, toks, pos),
                            Outcome::Error(_) => match spec_fragment_number(toks, pos) {
                                Outcome::Matched(_) => is_fragment_number(node, toks, pos),
                                Outcome::Error(
                                    _,
                                ) => spec_fragment_na(
                                    toks,
                                    pos,
                                ) is Matched && is_fragment_na(node, toks, pos),
                                Outcome::Failure(_) => false,
                            },
                            Outcome::Failure(_) => false,
                        },
                        Outcome::Failure(_) => false,
                    },
                    Outcome::Failure(_) => false,
                },
                Outcome::Failure(_) => false,
            }
        ),
{
    reveal(is_fragment);
    reveal(is_fragment_ek);
    reveal(is_fragment_jek);
    reveal(is_fragment_joik);
    reveal(is_fragment_gihek);
    reveal(is_fragment_number);
    reveal(is_fragment_na);
}

/// Whether `node` is the node that `FragmentEk` makes of the tokens at `pos`.
#[verifier::opaque]
pub closed spec fn is_fragment_ek<'arena>(
    node: Fragment<'arena>,
    toks: Seq<Token>,
    pos: nat,
) -> bool
    decreases rest(toks, pos), 26nat,
{
    match node {
        Fragment::Ek(field_0) => match spec_ek_with_free(toks, pos) {
            Outcome::Matched(_) => is_ek_with_free(field_0, toks, pos),
            _ => false,
        },
        _ => false,
    }
}

/// What [`is_fragment_ek`] says.
pub proof fn lemma_is_fragment_ek<'arena>(node: Fragment<'arena>, toks: Seq<Token>, pos: nat)
    ensures
        is_fragment_ek(node, toks, pos) == (
            match node {
                Fragment::Ek(field_0) => match spec_ek_with_free(toks, pos) {
                    Outcome::Matched(_) => is_ek_with_free(field_0, toks, pos),
                    _ => false,
                },
                _ => false,
            }
        ),
{
    reveal(is_fragment_ek);
    reveal(is_ek_with_free);
}

/// Whether `node` is the node that `EkWithFree` makes of the tokens at `pos`.
#[verifier::opaque]
pub closed spec fn is_ek_with_free<'arena>(
    node: WithFree<'arena, Ek<'arena>>,
    toks: Seq<Token>,
    pos: nat,
) -> bool
    decreases rest(toks, pos), 25nat,
{
    match spec_ek(toks, pos) {
        Outcome::Matched(n1) => {
            &&& is_ek(node.inner, toks, pos)
            &&& match spec_frees(toks, pos + n1) {
                    Outcome::Matched(_) => is_frees(node.frees, toks, pos + n1),
                    _ => false,
                }
        },
        _ => false,
    }
}

/// What [`is_ek_with_free`] says.
pub proof fn lemma_is_ek_with_free<'arena>(
    node: WithFree<'arena, Ek<'arena>>,
    toks: Seq<Token>,
    pos: nat,
)
    ensures
        is_ek_with_free(node, toks, pos) == (
            match spec_ek(toks, pos) {
                Outcome::Matched(n1) => {
                    &&& is_ek(node.inner, toks, pos)
                    &&& match spec_frees(toks, pos + n1) {
                            Outcome::Matched(_) => is_frees(node.frees, toks, pos + n1),
                            _ => false,
                        }
                },
                _ => false,
            }
        ),
{
    reveal(is_ek_with_free);
    reveal(is_ek);
    reveal(is_frees);
}

/// Whether `node` is the node that `FragmentJek` makes of the tokens at `pos`.
#[verifier::opaque]
pub closed spec fn is_fragment_jek<'arena>(
    node: Fragment<'arena>,
    toks: Seq<Token>,
    pos: nat,
) -> bool
    decreases rest(toks, pos), 26nat,
{
    match node {
        Fragment::Jek(field_0) => match spec_jek_with_free(toks, pos) {
            Outcome::Matched(_) => is_jek_with_free(field_0, toks, pos),
            _ => false,
        },
        _ => false,
    }
}

/// What [`is_fragment_jek`] says.
pub proof fn lemma_is_fragment_jek<'arena>(node: Fragment<'arena>, toks: Seq<Token>, pos: nat)
    ensures
        is_fragment_jek(node, toks, pos) == (
            match node {
                Fragment::Jek(field_0) => match spec_jek_with_free(toks, pos) {
                    Outcome::Matched(_) => is_jek_with_free(field_0, toks, pos),
                    _ => false,
                },
                _ => false,
            }
        ),
{
    reveal(is_fragment_jek);
    reveal(is_jek_with_free);
}

/// Whether `node` is the node that `JekWithFree` makes of the tokens at `pos`.
#[verifier::opaque]
pub closed spec fn is_jek_with_free<'arena>(
    node: WithFree<'arena, Jek<'arena>>,
    toks: Seq<Token>,
    pos: nat,
) -> bool
    decreases rest(toks, pos), 25nat,
{
    match spec_jek(toks, pos) {
        Outcome::Matched(n1) => {
            &&& is_jek(node.inner, toks, pos)
            &&& match spec_frees(toks, pos + n1) {
                    Outcome::Matched(_) => is_frees(node.frees, toks, pos + n1),
                    _ => false,
                }
        },
        _ => false,
    }
}

/// What [`is_jek_with_free`] says.
pub proof fn lemma_is_jek_with_free<'arena>(
    node: WithFree<'arena, Jek<'arena>>,
    toks: Seq<Token>,
    pos: nat,
)
    ensures
        is_jek_with_free(node, toks, pos) == (
            match spec_jek(toks, pos) {
                Outcome::Matched(n1) => {
                    &&& is_jek(node.inner, toks, pos)
                    &&& match spec_frees(toks, pos + n1) {
                            Outcome::Matched(_) => is_frees(node.frees, toks, pos + n1),
                            _ => false,
                        }
                },
                _ => false,
            }
        ),
{
    reveal(is_jek_with_free);
    reveal(is_jek);
    reveal(is_frees);
}

/// Whether `node` is the node that `FragmentJoik` makes of the tokens at `pos`.
#[verifier::opaque]
pub closed spec fn is_fragment_joik<'arena>(
    node: Fragment<'arena>,
    toks: Seq<Token>,
    pos: nat,
) -> bool
    decreases rest(toks, pos), 26nat,
{
    match node {
        Fragment::Joik(field_0) => match spec_joik_with_free(toks, pos) {
            Outcome::Matched(_) => is_joik_with_free(field_0, toks, pos),
            _ => false,
        },
        _ => false,
    }
}

/// What [`is_fragment_joik`] says.
pub proof fn lemma_is_fragment_joik<'arena>(node: Fragment<'arena>, toks: Seq<Token>, pos: nat)
    ensures
        is_fragment_joik(node, toks, pos) == (
            match node {
                Fragment::Joik(field_0) => match spec_joik_with_free(toks, pos) {
                    Outcome::Matched(_) => is_joik_with_free(field_0, toks, pos),
                    _ => false,
                },
                _ => false,
            }
        ),
{
    reveal(is_fragment_joik);
    reveal(is_joik_with_free);
}

/// Whether `node` is the node that `JoikWithFree` makes of the tokens at `pos`.
#[verifier::opaque]
pub closed spec fn is_joik_with_free<'arena>(
    node: WithFree<'arena, Joik<'arena>>,
    toks: Seq<Token>,
    pos: nat,
) -> bool
    decreases rest(toks, pos), 25nat,
{
    match spec_joik(toks, pos) {
        Outcome::Matched(n1) => {
            &&& is_joik(node.inner, toks, pos)
            &&& match spec_frees(toks, pos + n1) {
                    Outcome::Matched(_) => is_frees(node.frees, toks, pos + n1),
                    _ => false,
                }
        },
        _ => false,
    }
}

/// What [`is_joik_with_free`] says.
pub proof fn lemma_is_joik_with_free<'arena>(
    node: WithFree<'arena, Joik<'arena>>,
    toks: Seq<Token>,
    pos: nat,
)
    ensures
        is_joik_with_free(node, toks, pos) == (
            match spec_joik(toks, pos) {
                Outcome::Matched(n1) => {
                    &&& is_joik(node.inner, toks, pos)
                    &&& match spec_frees(toks, pos + n1) {
                            Outcome::Matched(_) => is_frees(node.frees, toks, pos + n1),
                            _ => false,
                        }
                },
                _ => false,
            }
        ),
{
    reveal(is_joik_with_free);
    reveal(is_joik);
    reveal(is_frees);
}

/// Whether `node` is the node that `FragmentGihek` makes of the tokens at `pos`.
#[verifier::opaque]
pub closed spec fn is_fragment_gihek<'arena>(
    node: Fragment<'arena>,
    toks: Seq<Token>,
    pos: nat,
) -> bool
    decreases rest(toks, pos), 26nat,
{
    match node {
        Fragment::Gihek(field_0) => match spec_gihek_with_free(toks, pos) {
            Outcome::Matched(_) => is_gihek_with_free(field_0, toks, pos),
            _ => false,
        },
        _ => false,
    }
}

/// What [`is_fragment_gihek`] says.
pub proof fn lemma_is_fragment_gihek<'arena>(node: Fragment<'arena>, toks: Seq<Token>, pos: nat)
    ensures
        is_fragment_gihek(node, toks, pos) == (
            match node {
                Fragment::Gihek(field_0) => match spec_gihek_with_free(toks, pos) {
                    Outcome::Matched(_) => is_gihek_with_free(field_0, toks, pos),
                    _ => false,
                },
                _ => false,
            }
        ),
{
    reveal(is_fragment_gihek);
    reveal(is_gihek_with_free);
}

/// Whether `node` is the node that `GihekWithFree` makes of the tokens at `pos`.
#[verifier::opaque]
pub closed spec fn is_gihek_with_free<'arena>(
    node: WithFree<'arena, Gihek<'arena>>,
    toks: Seq<Token>,
    pos: nat,
) -> bool
    decreases rest(toks, pos), 25nat,
{
    match spec_gihek(toks, pos) {
        Outcome::Matched(n1) => {
            &&& is_gihek(node.inner, toks, pos)
            &&& match spec_frees(toks, pos + n1) {
                    Outcome::Matched(_) => is_frees(node.frees, toks, pos + n1),
                    _ => false,
                }
        },
        _ => false,
    }
}

/// What [`is_gihek_with_free`] says.
pub proof fn lemma_is_gihek_with_free<'arena>(
    node: WithFree<'arena, Gihek<'arena>>,
    toks: Seq<Token>,
    pos: nat,
)
    ensures
        is_gihek_with_free(node, toks, pos) == (
            match spec_gihek(toks, pos) {
                Outcome::Matched(n1) => {
                    &&& is_gihek(node.inner, toks, pos)
                    &&& match spec_frees(toks, pos + n1) {
                            Outcome::Matched(_) => is_frees(node.frees, toks, pos + n1),
                            _ => false,
                        }
                },
                _ => false,
            }
        ),
{
    reveal(is_gihek_with_free);
    reveal(is_gihek);
    reveal(is_frees);
}

/// Whether `node` is the node that `FragmentNumber` makes of the tokens at `pos`.
#[verifier::opaque]
pub closed spec fn is_fragment_number<'arena>(
    node: Fragment<'arena>,
    toks: Seq<Token>,
    pos: nat,
) -> bool
    decreases rest(toks, pos), 27nat,
{
    match node {
        Fragment::Number(field_0) => match spec_quantifier(toks, pos) {
            Outcome::Matched(_) => is_quantifier(field_0, toks, pos),
            _ => false,
        },
        _ => false,
    }
}

/// What [`is_fragment_number`] says.
pub proof fn lemma_is_fragment_number<'arena>(node: Fragment<'arena>, toks: Seq<Token>, pos: nat)
    ensures
        is_fragment_number(node, toks, pos) == (
            match node {
                Fragment::Number(field_0) => match spec_quantifier(toks, pos) {
                    Outcome::Matched(_) => is_quantifier(field_0, toks, pos),
                    _ => false,
                },
                _ => false,
            }
        ),
{
    reveal(is_fragment_number);
    reveal(is_quantifier);
}

/// Whether `node` is the node that `FragmentNa` makes of the tokens at `pos`.
#[verifier::opaque]
pub closed spec fn is_fragment_na<'arena>(
    node: Fragment<'arena>,
    toks: Seq<Token>,
    pos: nat,
) -> bool
    decreases rest(toks, pos), 25nat,
{
    match node {
        Fragment::Na(field_0, field_1) => match spec_word(toks, pos, Selmaho::Na) {
            Outcome::Matched(n1) => {
                &&& is_word(field_0, toks, pos, Selmaho::Na)
                &&& match spec_frees(toks, pos + n1) {
                        Outcome::Matched(_) => is_frees(field_1, toks, pos + n1),
                        _ => false,
                    }
            },
            _ => false,
        },
        _ => false,
    }
}

/// What [`is_fragment_na`] says.
pub proof fn lemma_is_fragment_na<'arena>(node: Fragment<'arena>, toks: Seq<Token>, pos: nat)
    ensures
        is_fragment_na(node, toks, pos) == (
            match node {
                Fragment::Na(field_0, field_1) => match spec_word(toks, pos, Selmaho::Na) {
                    Outcome::Matched(n1) => {
                        &&& is_word(field_0, toks, pos, Selmaho::Na)
                        &&& match spec_frees(toks, pos + n1) {
                                Outcome::Matched(_) => is_frees(field_1, toks, pos + n1),
                                _ => false,
                            }
                    },
                    _ => false,
                },
                _ => false,
            }
        ),
{
    reveal(is_fragment_na);
    reveal(is_word);
    reveal(is_frees);
}

/// Whether `node` is the node that `ParagraphItemEmpty` makes of the tokens at `pos`.
#[verifier::opaque]
pub closed spec fn is_paragraph_item_empty<'arena>(
    node: ParagraphItem<'arena>,
    toks: Seq<Token>,
    pos: nat,
) -> bool
    decreases rest(toks, pos), 0nat,
{
    node is Empty
}

/// What [`is_paragraph_item_empty`] says.
pub proof fn lemma_is_paragraph_item_empty<'arena>(
    node: ParagraphItem<'arena>,
    toks: Seq<Token>,
    pos: nat,
)
    ensures
        is_paragraph_item_empty(node, toks, pos) == (
            node is Empty
        ),
{
    reveal(is_paragraph_item_empty);
}

/// Whether `node` is the node that `ParagraphItemsNext` makes of the tokens at `pos`.
#[verifier::opaque]
pub closed spec fn is_paragraph_items_next<'arena>(
    node: (SentenceSeparator<'arena>, ParagraphItem<'arena>),
    toks: Seq<Token>,
    pos: nat,
) -> bool
    decreases rest(toks, pos), 113nat,
{
    match spec_sentence_separator(toks, pos) {
        Outcome::Matched(n1) => {
            &&& is_sentence_separator(node.0, toks, pos)
            &&& match spec_paragraph_item(toks, pos + n1) {
                    Outcome::Matched(_) => is_paragraph_item(node.1, toks, pos + n1),
                    _ => false,
                }
        },
        _ => false,
    }
}

/// What [`is_paragraph_items_next`] says.
pub proof fn lemma_is_paragraph_items_next<'arena>(
    node: (SentenceSeparator<'arena>, ParagraphItem<'arena>),
    toks: Seq<Token>,
    pos: nat,
)
    ensures
        is_paragraph_items_next(node, toks, pos) == (
            match spec_sentence_separator(toks, pos) {
                Outcome::Matched(n1) => {
                    &&& is_sentence_separator(node.0, toks, pos)
                    &&& match spec_paragraph_item(toks, pos + n1) {
                            Outcome::Matched(_) => is_paragraph_item(node.1, toks, pos + n1),
                            _ => false,
                        }
                },
                _ => false,
            }
        ),
{
    reveal(is_paragraph_items_next);
    reveal(is_sentence_separator);
    reveal(is_paragraph_item);
}

/// How many tokens the first `count` of a row of `ParagraphItemsNext` take at `pos`.
pub open spec fn run_of_paragraph_items_next(toks: Seq<Token>, pos: nat, count: nat) -> nat
    decreases count,
{
    if count == 0 {
        0
    } else {
        let before = run_of_paragraph_items_next(toks, pos, (count - 1) as nat);
        before + (match spec_paragraph_items_next(toks, pos + before) {
            Outcome::Matched(len) => len,
            _ => 0,
        })
    }
}

/// Whether `items` are the nodes of a row of `ParagraphItemsNext` at `pos`: each is the
/// node of the `ParagraphItemsNext` at its place, and no further one follows them.
#[verifier::opaque]
pub closed spec fn is_row_of_paragraph_items_next<'arena>(
    items: Seq<(SentenceSeparator<'arena>, ParagraphItem<'arena>)>,
    toks: Seq<Token>,
    pos: nat,
) -> bool
    decreases rest(toks, pos), 114nat,
{
    &&& forall|i: int|
        #![trigger items[i]]
        #![trigger run_of_paragraph_items_next(toks, pos, i as nat)]
        0 <= i < items.len() ==> spec_paragraph_items_next(
            toks,
            pos + run_of_paragraph_items_next(toks, pos, i as nat),
        ) is Matched && is_paragraph_items_next(
            items[i],
            toks,
            pos + run_of_paragraph_items_next(toks, pos, i as nat),
        )
    &&& !(spec_paragraph_items_next(
        toks,
        pos + run_of_paragraph_items_next(toks, pos, items.len()),
    ) is Matched)
}

/// What [`is_row_of_paragraph_items_next`] says.
pub proof fn lemma_is_row_of_paragraph_items_next<'arena>(
    items: Seq<(SentenceSeparator<'arena>, ParagraphItem<'arena>)>,
    toks: Seq<Token>,
    pos: nat,
)
    ensures
        is_row_of_paragraph_items_next(items, toks, pos) == ({
            &&& forall|i: int|
                #![trigger items[i]]
                #![trigger run_of_paragraph_items_next(toks, pos, i as nat)]
                0 <= i < items.len() ==> spec_paragraph_items_next(
                    toks,
                    pos + run_of_paragraph_items_next(toks, pos, i as nat),
                ) is Matched && is_paragraph_items_next(
                    items[i],
                    toks,
                    pos + run_of_paragraph_items_next(toks, pos, i as nat),
                )
            &&& !(spec_paragraph_items_next(
                toks,
                pos + run_of_paragraph_items_next(toks, pos, items.len()),
            ) is Matched)
        }),
{
    reveal(is_row_of_paragraph_items_next);
    reveal(is_paragraph_items_next);
}

/// Whether `node` is the node that `ParagraphListNext` makes of the tokens at `pos`.
#[verifier::opaque]
pub closed spec fn is_paragraph_list_next<'arena>(
    node: (ParagraphSeparator<'arena>, Paragraph<'arena>),
    toks: Seq<Token>,
    pos: nat,
) -> bool
    decreases rest(toks, pos), 117nat,
{
    match spec_paragraph_separator(toks, pos) {
        Outcome::Matched(n1) => {
            &&& is_paragraph_separator(node.0, toks, pos)
            &&& match spec_paragraph(toks, pos + n1) {
                    Outcome::Matched(_) => is_paragraph(node.1, toks, pos + n1),
                    _ => false,
                }
        },
        _ => false,
    }
}

/// What [`is_paragraph_list_next`] says.
pub proof fn lemma_is_paragraph_list_next<'arena>(
    node: (ParagraphSeparator<'arena>, Paragraph<'arena>),
    toks: Seq<Token>,
    pos: nat,
)
    ensures
        is_paragraph_list_next(node, toks, pos) == (
            match spec_paragraph_separator(toks, pos) {
                Outcome::Matched(n1) => {
                    &&& is_paragraph_separator(node.0, toks, pos)
                    &&& match spec_paragraph(toks, pos + n1) {
                            Outcome::Matched(_) => is_paragraph(node.1, toks, pos + n1),
                            _ => false,
                        }
                },
                _ => false,
            }
        ),
{
    reveal(is_paragraph_list_next);
    reveal(is_paragraph_separator);
    reveal(is_paragraph);
}

/// How many tokens the first `count` of a row of `ParagraphListNext` take at `pos`.
pub open spec fn run_of_paragraph_list_next(toks: Seq<Token>, pos: nat, count: nat) -> nat
    decreases count,
{
    if count == 0 {
        0
    } else {
        let before = run_of_paragraph_list_next(toks, pos, (count - 1) as nat);
        before + (match spec_paragraph_list_next(toks, pos + before) {
            Outcome::Matched(len) => len,
            _ => 0,
        })
    }
}

/// Whether `items` are the nodes of a row of `ParagraphListNext` at `pos`: each is the
/// node of the `ParagraphListNext` at its place, and no further one follows them.
#[verifier::opaque]
pub closed spec fn is_row_of_paragraph_list_next<'arena>(
    items: Seq<(ParagraphSeparator<'arena>, Paragraph<'arena>)>,
    toks: Seq<Token>,
    pos: nat,
) -> bool
    decreases rest(toks, pos), 118nat,
{
    &&& forall|i: int|
        #![trigger items[i]]
        #![trigger run_of_paragraph_list_next(toks, pos, i as nat)]
        0 <= i < items.len() ==> spec_paragraph_list_next(
            toks,
            pos + run_of_paragraph_list_next(toks, pos, i as nat),
        ) is Matched && is_paragraph_list_next(
            items[i],
            toks,
            pos + run_of_paragraph_list_next(toks, pos, i as nat),
        )
    &&& !(spec_paragraph_list_next(
        toks,
        pos + run_of_paragraph_list_next(toks, pos, items.len()),
    ) is Matched)
}

/// What [`is_row_of_paragraph_list_next`] says.
pub proof fn lemma_is_row_of_paragraph_list_next<'arena>(
    items: Seq<(ParagraphSeparator<'arena>, Paragraph<'arena>)>,
    toks: Seq<Token>,
    pos: nat,
)
    ensures
        is_row_of_paragraph_list_next(items, toks, pos) == ({
            &&& forall|i: int|
                #![trigger items[i]]
                #![trigger run_of_paragraph_list_next(toks, pos, i as nat)]
                0 <= i < items.len() ==> spec_paragraph_list_next(
                    toks,
                    pos + run_of_paragraph_list_next(toks, pos, i as nat),
                ) is Matched && is_paragraph_list_next(
                    items[i],
                    toks,
                    pos + run_of_paragraph_list_next(toks, pos, i as nat),
                )
            &&& !(spec_paragraph_list_next(
                toks,
                pos + run_of_paragraph_list_next(toks, pos, items.len()),
            ) is Matched)
        }),
{
    reveal(is_row_of_paragraph_list_next);
    reveal(is_paragraph_list_next);
}

/// Whether `words` and `lehu` are what the words of a quote at `pos` are
/// made into: the tokens up to the first `le'u` that matches, and the node of
/// that `le'u`.
#[verifier::opaque]
pub closed spec fn is_quoted_words<'arena>(
    node: (&'arena [Token], Word<'arena>),
    toks: Seq<Token>,
    pos: nat,
) -> bool
    decreases rest(toks, pos), 3nat,
{
    &&& forall|i: int|
        #![trigger node.0@[i]]
        #![trigger spec_word(toks, (pos + i) as nat, Selmaho::Lehu)]
        0 <= i < node.0@.len() ==> spec_word(
            toks,
            (pos + i) as nat,
            Selmaho::Lehu,
        ) is Error && pos
            + i < toks.len() && node.0@[i] == toks[pos + i]
    &&& spec_word(toks, pos + node.0@.len(), Selmaho::Lehu) is Matched
    &&& is_word(node.1, toks, pos + node.0@.len(), Selmaho::Lehu)
}

/// What [`is_quoted_words`] says.
pub proof fn lemma_is_quoted_words<'arena>(
    node: (&'arena [Token], Word<'arena>),
    toks: Seq<Token>,
    pos: nat,
)
    ensures
        is_quoted_words(node, toks, pos) == ({
            &&& forall|i: int|
                #![trigger node.0@[i]]
                #![trigger spec_word(toks, (pos + i) as nat, Selmaho::Lehu)]
                0 <= i < node.0@.len() ==> spec_word(
                    toks,
                    (pos + i) as nat,
                    Selmaho::Lehu,
                ) is Error
                    && pos + i < toks.len() && node.0@[i] == toks[pos + i]
            &&& spec_word(toks, pos + node.0@.len(), Selmaho::Lehu) is Matched
            &&& is_word(node.1, toks, pos + node.0@.len(), Selmaho::Lehu)
        }),
{
    reveal(is_quoted_words);
    reveal(is_word);
}

} // verus!
