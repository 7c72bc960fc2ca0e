//! The parser: for each production of the grammar, the function that
//! parses it and builds its node. Each function is proved to match what the
//! grammar says of its production.

use vstd::prelude::*;

use crate::lex::{Selmaho, Token};
use crate::parse::arena::{keep_all, Arena};
use crate::parse::cst::grammar::{
    lemma_arg, lemma_arg_1, lemma_arg_1_next, lemma_arg_2, lemma_arg_2_next, lemma_arg_3,
    lemma_arg_3_naku, lemma_arg_3_sumti, lemma_arg_3_tag, lemma_arg_3_termset,
    lemma_arg_connected_post, lemma_arg_connected_post_grouped, lemma_arg_connected_post_normal,
    lemma_arg_list, lemma_arg_list_next, lemma_args, lemma_bahe, lemma_before_tanru_unit,
    lemma_before_tanru_unit_jai, lemma_before_tanru_unit_nahe, lemma_before_tanru_unit_se,
    lemma_bihe_list, lemma_bihe_list_next, lemma_bihe_operator, lemma_bound_arguments, lemma_bu,
    lemma_close_sentence_separator, lemma_coi_nai, lemma_connected_operand,
    lemma_connected_operand_grouped, lemma_connected_operand_normal, lemma_connected_operator,
    lemma_connected_operator_normal, lemma_connected_operator_parenthesized,
    lemma_connected_sentence_separator, lemma_ek, lemma_ek_with_free, lemma_expression,
    lemma_expression_1, lemma_expression_1_forethought, lemma_expression_1_operand,
    lemma_expression_list, lemma_expression_list_next, lemma_expression_normal,
    lemma_expression_reverse_polish, lemma_faha_nai, lemma_forethought_expression,
    lemma_fragment, lemma_fragment_ek, lemma_fragment_gihek, lemma_fragment_jek,
    lemma_fragment_joik, lemma_fragment_na, lemma_fragment_number, lemma_free, lemma_free_mai,
    lemma_free_sei, lemma_free_soi, lemma_free_to, lemma_free_vocative, lemma_free_xi,
    lemma_frees, lemma_gadri, lemma_gadri_la, lemma_gadri_le, lemma_gadri_sumti,
    lemma_gadri_sumti_contents, lemma_gadri_sumti_contents_selbri,
    lemma_gadri_sumti_contents_sumti, lemma_gadri_sumti_pre, lemma_gadri_sumti_pre_full_pre,
    lemma_gadri_sumti_pre_relative, lemma_gadri_sumti_pre_simple, lemma_gadri_with_free,
    lemma_gek, lemma_gek_joik_gi, lemma_gek_se_ga_nai, lemma_gek_sentence, lemma_gek_tag_gik,
    lemma_gihek, lemma_gihek_with_free, lemma_gik, lemma_goi_relative_clause, lemma_guhek,
    lemma_indicator, lemma_indicator_cai, lemma_indicator_choice, lemma_indicator_daho,
    lemma_indicator_fuho, lemma_indicator_nai, lemma_indicator_ui, lemma_indicator_y,
    lemma_indicators, lemma_interval, lemma_interval_property, lemma_interval_property_roi,
    lemma_interval_property_tahe, lemma_interval_property_zaho, lemma_jek, lemma_jek_with_free,
    lemma_joik, lemma_joik_ek, lemma_joik_ek_bo, lemma_joik_ek_ek, lemma_joik_ek_joik,
    lemma_joik_gaho, lemma_joik_interval, lemma_joik_jek, lemma_joik_jek_bo, lemma_joik_jek_jek,
    lemma_joik_jek_joik, lemma_joik_se_joi_nai, lemma_joik_with_free, lemma_la_sumti,
    lemma_lerfu, lemma_lerfu_bu, lemma_lerfu_by, lemma_lerfu_string, lemma_lerfu_word,
    lemma_lerfu_word_lau, lemma_lerfu_word_lerfu, lemma_lerfu_word_tei, lemma_lohu_sumti,
    lemma_lu_sumti, lemma_many0_arg, lemma_many0_arg_1_next, lemma_many0_arg_2_next,
    lemma_many0_arg_connected_post, lemma_many0_arg_list_next, lemma_many0_bahe,
    lemma_many0_before_tanru_unit, lemma_many0_bihe_list_next, lemma_many0_connected_operand,
    lemma_many0_connected_operator, lemma_many0_expression_list_next, lemma_many0_free,
    lemma_many0_indicators, lemma_many0_interval_property, lemma_many0_nu_word_list_next,
    lemma_many0_number_rest, lemma_many0_operand_2_connected_pre,
    lemma_many0_operand_2_list_next, lemma_many0_operator_3_list_next,
    lemma_many0_operator_component_pre, lemma_many0_operator_guhek,
    lemma_many0_paragraph_items_next, lemma_many0_paragraph_list_next, lemma_many0_prenex,
    lemma_many0_relative_clause_list_next, lemma_many0_rptail, lemma_many0_selbri_2_list_next,
    lemma_many0_selbri_3_connected_post, lemma_many0_selbri_5_list_next,
    lemma_many0_selbri_before, lemma_many0_selbri_guhek, lemma_many0_sentences_2_list_next,
    lemma_many0_sentences_2_next, lemma_many0_space_interval_property, lemma_many0_space_offset,
    lemma_many0_sumti_2_next, lemma_many0_sumti_3_connected_pre,
    lemma_many0_sumti_connected_post, lemma_many0_tag_words_next,
    lemma_many0_tanru_unit_1_list_next, lemma_many0_tanru_unit_list_next,
    lemma_many0_time_offset, lemma_many0_word_with_free, lemma_many1_bu, lemma_many1_coi_nai,
    lemma_many1_expression_1, lemma_many1_indicator, lemma_many1_number_rest,
    lemma_many1_selbri_3, lemma_many1_sentence_tail_2_next, lemma_many1_sentence_tail_3_next,
    lemma_many1_space_interval_property, lemma_many1_time_space_caha, lemma_many1_word,
    lemma_misc_numbers, lemma_modified_sumti, lemma_na_se_tnai_a, lemma_na_se_tnai_giha,
    lemma_na_se_tnai_ja, lemma_noi_relative_clause, lemma_nu_word, lemma_nu_word_list,
    lemma_nu_word_list_next, lemma_number, lemma_number_rest, lemma_number_rest_lerfu,
    lemma_number_rest_pa, lemma_operand, lemma_operand_1, lemma_operand_2,
    lemma_operand_2_connected_pre, lemma_operand_2_list, lemma_operand_2_list_next,
    lemma_operand_3, lemma_operand_3_johi, lemma_operand_3_modified, lemma_operand_3_mohe,
    lemma_operand_3_nihe, lemma_operand_3_number, lemma_operand_3_parenthesized,
    lemma_operand_bo, lemma_operator, lemma_operator_1, lemma_operator_2, lemma_operator_3,
    lemma_operator_3_grouped, lemma_operator_3_list, lemma_operator_3_list_next,
    lemma_operator_3_simple, lemma_operator_bo, lemma_operator_component,
    lemma_operator_component_1, lemma_operator_component_1_maho,
    lemma_operator_component_1_nahu, lemma_operator_component_1_vuhu,
    lemma_operator_component_pre, lemma_operator_component_pre_nahe,
    lemma_operator_component_pre_se, lemma_operator_guhek, lemma_paragraph,
    lemma_paragraph_item, lemma_paragraph_item_empty, lemma_paragraph_item_fragment,
    lemma_paragraph_item_sentences, lemma_paragraph_items, lemma_paragraph_items_next,
    lemma_paragraph_list, lemma_paragraph_list_next, lemma_paragraph_separator,
    lemma_paragraphs, lemma_pehe_connective, lemma_prenex, lemma_pu_nai, lemma_quantifier,
    lemma_quantifier_mekso, lemma_quantifier_number, lemma_quoted_words, lemma_raw,
    lemma_relative_clause, lemma_relative_clause_goi, lemma_relative_clause_list,
    lemma_relative_clause_list_next, lemma_relative_clause_noi, lemma_relative_clauses,
    lemma_reverse_polish, lemma_rptail, lemma_sei_tail, lemma_selbri, lemma_selbri_1,
    lemma_selbri_2, lemma_selbri_2_list, lemma_selbri_2_list_next, lemma_selbri_3,
    lemma_selbri_3_connected_post, lemma_selbri_3_connected_post_normal,
    lemma_selbri_3_connected_post_parenthesized, lemma_selbri_4, lemma_selbri_5,
    lemma_selbri_5_list, lemma_selbri_5_list_next, lemma_selbri_6, lemma_selbri_before,
    lemma_selbri_before_na, lemma_selbri_before_tag, lemma_selbri_guhek, lemma_sentence,
    lemma_sentence_separator, lemma_sentence_tail, lemma_sentence_tail_1,
    lemma_sentence_tail_1_after, lemma_sentence_tail_2, lemma_sentence_tail_2_after,
    lemma_sentence_tail_2_connective, lemma_sentence_tail_2_next, lemma_sentence_tail_3,
    lemma_sentence_tail_3_after, lemma_sentence_tail_3_connective, lemma_sentence_tail_3_next,
    lemma_sentence_tail_4, lemma_sentence_tail_4_connected, lemma_sentence_tail_4_parenthesized,
    lemma_sentence_tail_4_single, lemma_sentences_1, lemma_sentences_2, lemma_sentences_2_list,
    lemma_sentences_2_list_next, lemma_sentences_2_next, lemma_sentences_3,
    lemma_sentences_3_grouped, lemma_sentences_3_single, lemma_soi_arguments, lemma_space,
    lemma_space_interval, lemma_space_interval_interval, lemma_space_interval_properties,
    lemma_space_interval_property, lemma_space_motion, lemma_space_offset, lemma_subscript,
    lemma_subscript_value, lemma_subscript_value_mekso, lemma_subscript_value_number,
    lemma_subscript_value_with_free, lemma_subsentence, lemma_sumti, lemma_sumti_1,
    lemma_sumti_2, lemma_sumti_2_next, lemma_sumti_3, lemma_sumti_3_connected_pre,
    lemma_sumti_4, lemma_sumti_4_normal, lemma_sumti_4_selbri_shorthand, lemma_sumti_component,
    lemma_sumti_component_1, lemma_sumti_component_1_gadri, lemma_sumti_component_1_koha,
    lemma_sumti_component_1_la, lemma_sumti_component_1_lerfu_string,
    lemma_sumti_component_1_li, lemma_sumti_component_1_lohu, lemma_sumti_component_1_lu,
    lemma_sumti_component_1_modified, lemma_sumti_component_1_zo, lemma_sumti_component_1_zoi,
    lemma_sumti_connected_post, lemma_sumti_connected_post_grouped,
    lemma_sumti_connected_post_normal, lemma_sumti_modifier, lemma_sumti_modifier_lahe,
    lemma_sumti_modifier_nahe_bo, lemma_sumti_modifier_with_free, lemma_tag, lemma_tag_ke,
    lemma_tag_value, lemma_tag_value_ku, lemma_tag_value_sumti, lemma_tag_word,
    lemma_tag_word_bai, lemma_tag_word_converted, lemma_tag_word_cuhe, lemma_tag_word_ki,
    lemma_tag_word_time_space_caha, lemma_tag_words, lemma_tag_words_next, lemma_tail_args,
    lemma_tanru_unit, lemma_tanru_unit_1, lemma_tanru_unit_1_list, lemma_tanru_unit_1_list_next,
    lemma_tanru_unit_2, lemma_tanru_unit_2_fuhivla, lemma_tanru_unit_2_gismu,
    lemma_tanru_unit_2_goha, lemma_tanru_unit_2_grouped_tanru, lemma_tanru_unit_2_lujvo,
    lemma_tanru_unit_2_me, lemma_tanru_unit_2_moi, lemma_tanru_unit_2_nu,
    lemma_tanru_unit_2_nuha, lemma_tanru_unit_list, lemma_tanru_unit_list_next, lemma_termset,
    lemma_termset_gek, lemma_termset_nuhi, lemma_termset_nuhi_gi, lemma_text, lemma_time,
    lemma_time_duration, lemma_time_offset, lemma_time_space_caha, lemma_time_space_caha_caha,
    lemma_time_space_caha_space, lemma_time_space_caha_time, lemma_veha_viha,
    lemma_veha_viha_both, lemma_veha_viha_left, lemma_veha_viha_right, lemma_vocative,
    lemma_vocative_value, lemma_vocative_value_cmevla, lemma_vocative_value_selbri,
    lemma_vocative_value_sumti, lemma_vocative_words, lemma_vocative_words_coi,
    lemma_vocative_words_doi, lemma_vuho_relative, lemma_word, lemma_word_with_free,
    lemma_word_without_indicators, lemma_zo_sumti, lemma_zoi_delimiter, lemma_zoi_sumti,
    lemma_zoi_text, spec_arg, spec_arg_1, spec_arg_1_next, spec_arg_2, spec_arg_2_next,
    spec_arg_3, spec_arg_3_naku, spec_arg_3_sumti, spec_arg_3_tag, spec_arg_3_termset,
    spec_arg_connected_post, spec_arg_connected_post_grouped, spec_arg_connected_post_normal,
    spec_arg_list, spec_arg_list_next, spec_args, spec_bahe, spec_before_tanru_unit,
    spec_before_tanru_unit_jai, spec_before_tanru_unit_nahe, spec_before_tanru_unit_se,
    spec_bihe_list, spec_bihe_list_next, spec_bihe_operator, spec_bound_arguments, spec_bu,
    spec_bu_lerfu, spec_close_sentence_separator, spec_coi_nai, spec_connected_operand,
    spec_connected_operand_grouped, spec_connected_operand_normal, spec_connected_operator,
    spec_connected_operator_normal, spec_connected_operator_parenthesized,
    spec_connected_sentence_separator, spec_ek, spec_ek_with_free, spec_expression,
    spec_expression_1, spec_expression_1_forethought, spec_expression_1_operand,
    spec_expression_list, spec_expression_list_next, spec_expression_normal,
    spec_expression_reverse_polish, spec_faha_nai, spec_forethought_expression, spec_fragment,
    spec_fragment_ek, spec_fragment_gihek, spec_fragment_jek, spec_fragment_joik,
    spec_fragment_na, spec_fragment_number, spec_free, spec_free_mai, spec_free_sei,
    spec_free_soi, spec_free_to, spec_free_vocative, spec_free_xi, spec_frees, spec_gadri,
    spec_gadri_la, spec_gadri_le, spec_gadri_sumti, spec_gadri_sumti_contents,
    spec_gadri_sumti_contents_selbri, spec_gadri_sumti_contents_sumti, spec_gadri_sumti_pre,
    spec_gadri_sumti_pre_full_pre, spec_gadri_sumti_pre_relative, spec_gadri_sumti_pre_simple,
    spec_gadri_with_free, spec_gek, spec_gek_joik_gi, spec_gek_se_ga_nai, spec_gek_sentence,
    spec_gek_tag_gik, spec_gihek, spec_gihek_with_free, spec_gik, spec_goi_relative_clause,
    spec_guhek, spec_indicator, spec_indicator_cai, spec_indicator_choice, spec_indicator_daho,
    spec_indicator_fuho, spec_indicator_nai, spec_indicator_ui, spec_indicator_y,
    spec_indicators, spec_interval, spec_interval_property, spec_interval_property_roi,
    spec_interval_property_tahe, spec_interval_property_zaho, spec_jek, spec_jek_with_free,
    spec_joik, spec_joik_ek, spec_joik_ek_bo, spec_joik_ek_ek, spec_joik_ek_joik,
    spec_joik_gaho, spec_joik_interval, spec_joik_jek, spec_joik_jek_bo, spec_joik_jek_jek,
    spec_joik_jek_joik, spec_joik_se_joi_nai, spec_joik_with_free, spec_la_sumti, spec_lerfu,
    spec_lerfu_bu, spec_lerfu_by, spec_lerfu_string, spec_lerfu_word, spec_lerfu_word_lau,
    spec_lerfu_word_lerfu, spec_lerfu_word_tei, spec_lohu_sumti, spec_lu_sumti, spec_many0_arg,
    spec_many0_arg_1_next, spec_many0_arg_2_next, spec_many0_arg_connected_post,
    spec_many0_arg_list_next, spec_many0_bahe, spec_many0_before_tanru_unit,
    spec_many0_bihe_list_next, spec_many0_connected_operand, spec_many0_connected_operator,
    spec_many0_expression_list_next, spec_many0_free, spec_many0_indicators,
    spec_many0_interval_property, spec_many0_nu_word_list_next, spec_many0_number_rest,
    spec_many0_operand_2_connected_pre, spec_many0_operand_2_list_next,
    spec_many0_operator_3_list_next, spec_many0_operator_component_pre,
    spec_many0_operator_guhek, spec_many0_paragraph_items_next, spec_many0_paragraph_list_next,
    spec_many0_prenex, spec_many0_relative_clause_list_next, spec_many0_rptail,
    spec_many0_selbri_2_list_next, spec_many0_selbri_3_connected_post,
    spec_many0_selbri_5_list_next, spec_many0_selbri_before, spec_many0_selbri_guhek,
    spec_many0_sentences_2_list_next, spec_many0_sentences_2_next,
    spec_many0_space_interval_property, spec_many0_space_offset, spec_many0_sumti_2_next,
    spec_many0_sumti_3_connected_pre, spec_many0_sumti_connected_post,
    spec_many0_tag_words_next, spec_many0_tanru_unit_1_list_next,
    spec_many0_tanru_unit_list_next, spec_many0_time_offset, spec_many0_word_with_free,
    spec_many1_bu, spec_many1_bu_more, spec_many1_coi_nai, spec_many1_coi_nai_more,
    spec_many1_expression_1, spec_many1_expression_1_more, spec_many1_indicator,
    spec_many1_indicator_more, spec_many1_number_rest, spec_many1_number_rest_more,
    spec_many1_selbri_3, spec_many1_selbri_3_more, spec_many1_sentence_tail_2_next,
    spec_many1_sentence_tail_2_next_more, spec_many1_sentence_tail_3_next,
    spec_many1_sentence_tail_3_next_more, spec_many1_space_interval_property,
    spec_many1_space_interval_property_more, spec_many1_time_space_caha,
    spec_many1_time_space_caha_more, spec_many1_word, spec_many1_word_more, spec_misc_numbers,
    spec_modified_sumti, spec_na_se_tnai_a, spec_na_se_tnai_giha, spec_na_se_tnai_ja,
    spec_noi_relative_clause, spec_nu_word, spec_nu_word_list, spec_nu_word_list_next,
    spec_number, spec_number_rest, spec_number_rest_lerfu, spec_number_rest_pa, spec_operand,
    spec_operand_1, spec_operand_2, spec_operand_2_connected_pre, spec_operand_2_list,
    spec_operand_2_list_next, spec_operand_3, spec_operand_3_johi, spec_operand_3_modified,
    spec_operand_3_mohe, spec_operand_3_nihe, spec_operand_3_number,
    spec_operand_3_parenthesized, spec_operand_bo, spec_operator, spec_operator_1,
    spec_operator_2, spec_operator_3, spec_operator_3_grouped, spec_operator_3_list,
    spec_operator_3_list_next, spec_operator_3_simple, spec_operator_bo,
    spec_operator_component, spec_operator_component_1, spec_operator_component_1_maho,
    spec_operator_component_1_nahu, spec_operator_component_1_vuhu, spec_operator_component_pre,
    spec_operator_component_pre_nahe, spec_operator_component_pre_se, spec_operator_guhek,
    spec_paragraph, spec_paragraph_item, spec_paragraph_item_empty,
    spec_paragraph_item_fragment, spec_paragraph_item_sentences, spec_paragraph_items,
    spec_paragraph_items_next, spec_paragraph_list, spec_paragraph_list_next,
    spec_paragraph_separator, spec_paragraphs, spec_pehe_connective, spec_prenex, spec_pu_nai,
    spec_quantifier, spec_quantifier_mekso, spec_quantifier_number, spec_quoted_words, spec_raw,
    spec_relative_clause, spec_relative_clause_goi, spec_relative_clause_list,
    spec_relative_clause_list_next, spec_relative_clause_noi, spec_relative_clauses,
    spec_reverse_polish, spec_rptail, spec_sei_tail, spec_selbri, spec_selbri_1, spec_selbri_2,
    spec_selbri_2_list, spec_selbri_2_list_next, spec_selbri_3, spec_selbri_3_connected_post,
    spec_selbri_3_connected_post_normal, spec_selbri_3_connected_post_parenthesized,
    spec_selbri_4, spec_selbri_5, spec_selbri_5_list, spec_selbri_5_list_next, spec_selbri_6,
    spec_selbri_before, spec_selbri_before_na, spec_selbri_before_tag, spec_selbri_guhek,
    spec_sentence, spec_sentence_separator, spec_sentence_tail, spec_sentence_tail_1,
    spec_sentence_tail_1_after, spec_sentence_tail_2, spec_sentence_tail_2_after,
    spec_sentence_tail_2_connective, spec_sentence_tail_2_next, spec_sentence_tail_3,
    spec_sentence_tail_3_after, spec_sentence_tail_3_connective, spec_sentence_tail_3_next,
    spec_sentence_tail_4, spec_sentence_tail_4_connected, spec_sentence_tail_4_parenthesized,
    spec_sentence_tail_4_single, spec_sentences_1, spec_sentences_2, spec_sentences_2_list,
    spec_sentences_2_list_next, spec_sentences_2_next, spec_sentences_3,
    spec_sentences_3_grouped, spec_sentences_3_single, spec_soi_arguments, spec_space,
    spec_space_interval, spec_space_interval_interval, spec_space_interval_properties,
    spec_space_interval_property, spec_space_motion, spec_space_offset, spec_subscript,
    spec_subscript_value, spec_subscript_value_mekso, spec_subscript_value_number,
    spec_subscript_value_with_free, spec_subsentence, spec_sumti, spec_sumti_1, spec_sumti_2,
    spec_sumti_2_next, spec_sumti_3, spec_sumti_3_connected_pre, spec_sumti_4,
    spec_sumti_4_normal, spec_sumti_4_selbri_shorthand, spec_sumti_component,
    spec_sumti_component_1, spec_sumti_component_1_gadri, spec_sumti_component_1_koha,
    spec_sumti_component_1_la, spec_sumti_component_1_lerfu_string, spec_sumti_component_1_li,
    spec_sumti_component_1_lohu, spec_sumti_component_1_lu, spec_sumti_component_1_modified,
    spec_sumti_component_1_zo, spec_sumti_component_1_zoi, spec_sumti_connected_post,
    spec_sumti_connected_post_grouped, spec_sumti_connected_post_normal, spec_sumti_modifier,
    spec_sumti_modifier_lahe, spec_sumti_modifier_nahe_bo, spec_sumti_modifier_with_free,
    spec_tag, spec_tag_ke, spec_tag_value, spec_tag_value_ku, spec_tag_value_sumti,
    spec_tag_word, spec_tag_word_bai, spec_tag_word_converted, spec_tag_word_cuhe,
    spec_tag_word_ki, spec_tag_word_time_space_caha, spec_tag_words, spec_tag_words_next,
    spec_tail_args, spec_tanru_unit, spec_tanru_unit_1, spec_tanru_unit_1_list,
    spec_tanru_unit_1_list_next, spec_tanru_unit_2, spec_tanru_unit_2_fuhivla,
    spec_tanru_unit_2_gismu, spec_tanru_unit_2_goha, spec_tanru_unit_2_grouped_tanru,
    spec_tanru_unit_2_lujvo, spec_tanru_unit_2_me, spec_tanru_unit_2_moi, spec_tanru_unit_2_nu,
    spec_tanru_unit_2_nuha, spec_tanru_unit_list, spec_tanru_unit_list_next, spec_termset,
    spec_termset_gek, spec_termset_nuhi, spec_termset_nuhi_gi, spec_text, spec_time,
    spec_time_duration, spec_time_offset, spec_time_space_caha, spec_time_space_caha_caha,
    spec_time_space_caha_space, spec_time_space_caha_time, spec_veha_viha, spec_veha_viha_both,
    spec_veha_viha_left, spec_veha_viha_right, spec_vocative, spec_vocative_value,
    spec_vocative_value_cmevla, spec_vocative_value_selbri, spec_vocative_value_sumti,
    spec_vocative_words, spec_vocative_words_coi, spec_vocative_words_doi, spec_vuho_relative,
    spec_word, spec_word_with_free, spec_word_without_indicators, spec_zo_sumti,
    spec_zoi_delimiter, spec_zoi_sumti, spec_zoi_text,
};
use crate::parse::cst::shape::{
    is_arg, is_arg_1, is_arg_1_next, is_arg_2, is_arg_2_next, is_arg_3, is_arg_3_naku,
    is_arg_3_sumti, is_arg_3_tag, is_arg_3_termset, is_arg_connected_post,
    is_arg_connected_post_grouped, is_arg_connected_post_normal, is_arg_list, is_arg_list_next,
    is_args, is_bahe, is_before_tanru_unit, is_before_tanru_unit_jai, is_before_tanru_unit_nahe,
    is_before_tanru_unit_se, is_bihe_list, is_bihe_list_next, is_bihe_operator,
    is_bound_arguments, is_bu, is_bu_lerfu, is_close_sentence_separator, is_coi_nai,
    is_connected_operand, is_connected_operand_grouped, is_connected_operand_normal,
    is_connected_operator, is_connected_operator_normal, is_connected_operator_parenthesized,
    is_connected_sentence_separator, is_ek, is_ek_with_free, is_expression, is_expression_1,
    is_expression_1_forethought, is_expression_1_operand, is_expression_list,
    is_expression_list_next, is_expression_normal, is_expression_reverse_polish, is_faha_nai,
    is_forethought_expression, is_fragment, is_fragment_ek, is_fragment_gihek, is_fragment_jek,
    is_fragment_joik, is_fragment_na, is_fragment_number, is_free, is_free_mai, is_free_sei,
    is_free_soi, is_free_to, is_free_vocative, is_free_xi, is_frees, is_gadri, is_gadri_la,
    is_gadri_le, is_gadri_sumti, is_gadri_sumti_contents, is_gadri_sumti_contents_selbri,
    is_gadri_sumti_contents_sumti, is_gadri_sumti_pre, is_gadri_sumti_pre_full_pre,
    is_gadri_sumti_pre_relative, is_gadri_sumti_pre_simple, is_gadri_with_free, is_gek,
    is_gek_joik_gi, is_gek_se_ga_nai, is_gek_sentence, is_gek_tag_gik, is_gihek,
    is_gihek_with_free, is_gik, is_goi_relative_clause, is_guhek, is_indicator,
    is_indicator_cai, is_indicator_choice, is_indicator_daho, is_indicator_fuho,
    is_indicator_nai, is_indicator_ui, is_indicator_y, is_indicators, is_interval,
    is_interval_property, is_interval_property_roi, is_interval_property_tahe,
    is_interval_property_zaho, is_jek, is_jek_with_free, is_joik, is_joik_ek, is_joik_ek_bo,
    is_joik_ek_ek, is_joik_ek_joik, is_joik_gaho, is_joik_interval, is_joik_jek, is_joik_jek_bo,
    is_joik_jek_jek, is_joik_jek_joik, is_joik_se_joi_nai, is_joik_with_free, is_la_sumti,
    is_lerfu, is_lerfu_bu, is_lerfu_by, is_lerfu_string, is_lerfu_word, is_lerfu_word_lau,
    is_lerfu_word_lerfu, is_lerfu_word_tei, is_lohu_sumti, is_lu_sumti, is_misc_numbers,
    is_modified_sumti, is_na_se_tnai_a, is_na_se_tnai_giha, is_na_se_tnai_ja,
    is_noi_relative_clause, is_nu_word, is_nu_word_list, is_nu_word_list_next, is_number,
    is_number_rest, is_number_rest_lerfu, is_number_rest_pa, is_operand, is_operand_1,
    is_operand_2, is_operand_2_connected_pre, is_operand_2_list, is_operand_2_list_next,
    is_operand_3, is_operand_3_johi, is_operand_3_modified, is_operand_3_mohe,
    is_operand_3_nihe, is_operand_3_number, is_operand_3_parenthesized, is_operand_bo,
    is_operator, is_operator_1, is_operator_2, is_operator_3, is_operator_3_grouped,
    is_operator_3_list, is_operator_3_list_next, is_operator_3_simple, is_operator_bo,
    is_operator_component, is_operator_component_1, is_operator_component_1_maho,
    is_operator_component_1_nahu, is_operator_component_1_vuhu, is_operator_component_pre,
    is_operator_component_pre_nahe, is_operator_component_pre_se, is_operator_guhek,
    is_paragraph, is_paragraph_item, is_paragraph_item_empty, is_paragraph_item_fragment,
    is_paragraph_item_sentences, is_paragraph_items, is_paragraph_items_next, is_paragraph_list,
    is_paragraph_list_next, is_paragraph_separator, is_paragraphs, is_pehe_connective,
    is_prenex, is_pu_nai, is_quantifier, is_quantifier_mekso, is_quantifier_number,
    is_quoted_words, is_raw, is_relative_clause, is_relative_clause_goi,
    is_relative_clause_list, is_relative_clause_list_next, is_relative_clause_noi,
    is_relative_clauses, is_reverse_polish, is_row_of_arg, is_row_of_arg_1_next,
    is_row_of_arg_2_next, is_row_of_arg_connected_post, is_row_of_arg_list_next, is_row_of_bahe,
    is_row_of_before_tanru_unit, is_row_of_bihe_list_next, is_row_of_bu, is_row_of_coi_nai,
    is_row_of_connected_operand, is_row_of_connected_operator, is_row_of_expression_1,
    is_row_of_expression_list_next, is_row_of_free, is_row_of_indicator, is_row_of_indicators,
    is_row_of_interval_property, is_row_of_nu_word_list_next, is_row_of_number_rest,
    is_row_of_operand_2_connected_pre, is_row_of_operand_2_list_next,
    is_row_of_operator_3_list_next, is_row_of_operator_component_pre, is_row_of_operator_guhek,
    is_row_of_paragraph_items_next, is_row_of_paragraph_list_next, is_row_of_prenex,
    is_row_of_relative_clause_list_next, is_row_of_rptail, is_row_of_selbri_2_list_next,
    is_row_of_selbri_3, is_row_of_selbri_3_connected_post, is_row_of_selbri_5_list_next,
    is_row_of_selbri_before, is_row_of_selbri_guhek, is_row_of_sentence_tail_2_next,
    is_row_of_sentence_tail_3_next, is_row_of_sentences_2_list_next, is_row_of_sentences_2_next,
    is_row_of_space_interval_property, is_row_of_space_offset, is_row_of_sumti_2_next,
    is_row_of_sumti_3_connected_pre, is_row_of_sumti_connected_post, is_row_of_tag_words_next,
    is_row_of_tanru_unit_1_list_next, is_row_of_tanru_unit_list_next, is_row_of_time_offset,
    is_row_of_time_space_caha, is_row_of_word, is_row_of_word_with_free, is_rptail, is_sei_tail,
    is_selbri, is_selbri_1, is_selbri_2, is_selbri_2_list, is_selbri_2_list_next, is_selbri_3,
    is_selbri_3_connected_post, is_selbri_3_connected_post_normal,
    is_selbri_3_connected_post_parenthesized, is_selbri_4, is_selbri_5, is_selbri_5_list,
    is_selbri_5_list_next, is_selbri_6, is_selbri_before, is_selbri_before_na,
    is_selbri_before_tag, is_selbri_guhek, is_sentence, is_sentence_separator, is_sentence_tail,
    is_sentence_tail_1, is_sentence_tail_1_after, is_sentence_tail_2, is_sentence_tail_2_after,
    is_sentence_tail_2_connective, is_sentence_tail_2_next, is_sentence_tail_3,
    is_sentence_tail_3_after, is_sentence_tail_3_connective, is_sentence_tail_3_next,
    is_sentence_tail_4, is_sentence_tail_4_connected, is_sentence_tail_4_parenthesized,
    is_sentence_tail_4_single, is_sentences_1, is_sentences_2, is_sentences_2_list,
    is_sentences_2_list_next, is_sentences_2_next, is_sentences_3, is_sentences_3_grouped,
    is_sentences_3_single, is_soi_arguments, is_space, is_space_interval,
    is_space_interval_interval, is_space_interval_properties, is_space_interval_property,
    is_space_motion, is_space_offset, is_subscript, is_subscript_value,
    is_subscript_value_mekso, is_subscript_value_number, is_subscript_value_with_free,
    is_subsentence, is_sumti, is_sumti_1, is_sumti_2, is_sumti_2_next, is_sumti_3,
    is_sumti_3_connected_pre, is_sumti_4, is_sumti_4_normal, is_sumti_4_selbri_shorthand,
    is_sumti_component, is_sumti_component_1, is_sumti_component_1_gadri,
    is_sumti_component_1_koha, is_sumti_component_1_la, is_sumti_component_1_lerfu_string,
    is_sumti_component_1_li, is_sumti_component_1_lohu, is_sumti_component_1_lu,
    is_sumti_component_1_modified, is_sumti_component_1_zo, is_sumti_component_1_zoi,
    is_sumti_connected_post, is_sumti_connected_post_grouped, is_sumti_connected_post_normal,
    is_sumti_modifier, is_sumti_modifier_lahe, is_sumti_modifier_nahe_bo,
    is_sumti_modifier_with_free, is_tag, is_tag_ke, is_tag_value, is_tag_value_ku,
    is_tag_value_sumti, is_tag_word, is_tag_word_bai, is_tag_word_converted, is_tag_word_cuhe,
    is_tag_word_ki, is_tag_word_time_space_caha, is_tag_words, is_tag_words_next, is_tail_args,
    is_tanru_unit, is_tanru_unit_1, is_tanru_unit_1_list, is_tanru_unit_1_list_next,
    is_tanru_unit_2, is_tanru_unit_2_fuhivla, is_tanru_unit_2_gismu, is_tanru_unit_2_goha,
    is_tanru_unit_2_grouped_tanru, is_tanru_unit_2_lujvo, is_tanru_unit_2_me,
    is_tanru_unit_2_moi, is_tanru_unit_2_nu, is_tanru_unit_2_nuha, is_tanru_unit_list,
    is_tanru_unit_list_next, is_termset, is_termset_gek, is_termset_nuhi, is_termset_nuhi_gi,
    is_text, is_time, is_time_duration, is_time_offset, is_time_space_caha,
    is_time_space_caha_caha, is_time_space_caha_space, is_time_space_caha_time, is_veha_viha,
    is_veha_viha_both, is_veha_viha_left, is_veha_viha_right, is_vocative, is_vocative_value,
    is_vocative_value_cmevla, is_vocative_value_selbri, is_vocative_value_sumti,
    is_vocative_words, is_vocative_words_coi, is_vocative_words_doi, is_vuho_relative, is_word,
    is_word_with_free, is_word_without_indicators, is_zo_sumti, is_zoi_delimiter, is_zoi_sumti,
    is_zoi_text, lemma_is_arg, lemma_is_arg_1, lemma_is_arg_1_next, lemma_is_arg_2,
    lemma_is_arg_2_next, lemma_is_arg_3, lemma_is_arg_3_naku, lemma_is_arg_3_sumti,
    lemma_is_arg_3_tag, lemma_is_arg_3_termset, lemma_is_arg_connected_post,
    lemma_is_arg_connected_post_grouped, lemma_is_arg_connected_post_normal, lemma_is_arg_list,
    lemma_is_arg_list_next, lemma_is_args, lemma_is_bahe, lemma_is_before_tanru_unit,
    lemma_is_before_tanru_unit_jai, lemma_is_before_tanru_unit_nahe,
    lemma_is_before_tanru_unit_se, lemma_is_bihe_list, lemma_is_bihe_list_next,
    lemma_is_bihe_operator, lemma_is_bound_arguments, lemma_is_bu,
    lemma_is_close_sentence_separator, lemma_is_coi_nai, lemma_is_connected_operand,
    lemma_is_connected_operand_grouped, lemma_is_connected_operand_normal,
    lemma_is_connected_operator, lemma_is_connected_operator_normal,
    lemma_is_connected_operator_parenthesized, lemma_is_connected_sentence_separator,
    lemma_is_ek, lemma_is_ek_with_free, lemma_is_expression, lemma_is_expression_1,
    lemma_is_expression_1_forethought, lemma_is_expression_1_operand, lemma_is_expression_list,
    lemma_is_expression_list_next, lemma_is_expression_normal,
    lemma_is_expression_reverse_polish, lemma_is_faha_nai, lemma_is_forethought_expression,
    lemma_is_fragment, lemma_is_fragment_ek, lemma_is_fragment_gihek, lemma_is_fragment_jek,
    lemma_is_fragment_joik, lemma_is_fragment_na, lemma_is_fragment_number, lemma_is_free,
    lemma_is_free_mai, lemma_is_free_sei, lemma_is_free_soi, lemma_is_free_to,
    lemma_is_free_vocative, lemma_is_free_xi, lemma_is_frees, lemma_is_gadri, lemma_is_gadri_la,
    lemma_is_gadri_le, lemma_is_gadri_sumti, lemma_is_gadri_sumti_contents,
    lemma_is_gadri_sumti_contents_selbri, lemma_is_gadri_sumti_contents_sumti,
    lemma_is_gadri_sumti_pre, lemma_is_gadri_sumti_pre_full_pre,
    lemma_is_gadri_sumti_pre_relative, lemma_is_gadri_sumti_pre_simple,
    lemma_is_gadri_with_free, lemma_is_gek, lemma_is_gek_joik_gi, lemma_is_gek_se_ga_nai,
    lemma_is_gek_sentence, lemma_is_gek_tag_gik, lemma_is_gihek, lemma_is_gihek_with_free,
    lemma_is_gik, lemma_is_goi_relative_clause, lemma_is_guhek, lemma_is_indicator,
    lemma_is_indicator_cai, lemma_is_indicator_choice, lemma_is_indicator_daho,
    lemma_is_indicator_fuho, lemma_is_indicator_nai, lemma_is_indicator_ui,
    lemma_is_indicator_y, lemma_is_indicators, lemma_is_interval, lemma_is_interval_property,
    lemma_is_interval_property_roi, lemma_is_interval_property_tahe,
    lemma_is_interval_property_zaho, lemma_is_jek, lemma_is_jek_with_free, lemma_is_joik,
    lemma_is_joik_ek, lemma_is_joik_ek_bo, lemma_is_joik_ek_ek, lemma_is_joik_ek_joik,
    lemma_is_joik_gaho, lemma_is_joik_interval, lemma_is_joik_jek, lemma_is_joik_jek_bo,
    lemma_is_joik_jek_jek, lemma_is_joik_jek_joik, lemma_is_joik_se_joi_nai,
    lemma_is_joik_with_free, lemma_is_la_sumti, lemma_is_lerfu, lemma_is_lerfu_bu,
    lemma_is_lerfu_by, lemma_is_lerfu_string, lemma_is_lerfu_word, lemma_is_lerfu_word_lau,
    lemma_is_lerfu_word_lerfu, lemma_is_lerfu_word_tei, lemma_is_lohu_sumti, lemma_is_lu_sumti,
    lemma_is_misc_numbers, lemma_is_modified_sumti, lemma_is_na_se_tnai_a,
    lemma_is_na_se_tnai_giha, lemma_is_na_se_tnai_ja, lemma_is_noi_relative_clause,
    lemma_is_nu_word, lemma_is_nu_word_list, lemma_is_nu_word_list_next, lemma_is_number,
    lemma_is_number_rest, lemma_is_number_rest_lerfu, lemma_is_number_rest_pa, lemma_is_operand,
    lemma_is_operand_1, lemma_is_operand_2, lemma_is_operand_2_connected_pre,
    lemma_is_operand_2_list, lemma_is_operand_2_list_next, lemma_is_operand_3,
    lemma_is_operand_3_johi, lemma_is_operand_3_modified, lemma_is_operand_3_mohe,
    lemma_is_operand_3_nihe, lemma_is_operand_3_number, lemma_is_operand_3_parenthesized,
    lemma_is_operand_bo, lemma_is_operator, lemma_is_operator_1, lemma_is_operator_2,
    lemma_is_operator_3, lemma_is_operator_3_grouped, lemma_is_operator_3_list,
    lemma_is_operator_3_list_next, lemma_is_operator_3_simple, lemma_is_operator_bo,
    lemma_is_operator_component, lemma_is_operator_component_1,
    lemma_is_operator_component_1_maho, lemma_is_operator_component_1_nahu,
    lemma_is_operator_component_1_vuhu, lemma_is_operator_component_pre,
    lemma_is_operator_component_pre_nahe, lemma_is_operator_component_pre_se,
    lemma_is_operator_guhek, lemma_is_paragraph, lemma_is_paragraph_item,
    lemma_is_paragraph_item_empty, lemma_is_paragraph_item_fragment,
    lemma_is_paragraph_item_sentences, lemma_is_paragraph_items, lemma_is_paragraph_items_next,
    lemma_is_paragraph_list, lemma_is_paragraph_list_next, lemma_is_paragraph_separator,
    lemma_is_paragraphs, lemma_is_pehe_connective, lemma_is_prenex, lemma_is_pu_nai,
    lemma_is_quantifier, lemma_is_quantifier_mekso, lemma_is_quantifier_number,
    lemma_is_quoted_words, lemma_is_raw, lemma_is_relative_clause, lemma_is_relative_clause_goi,
    lemma_is_relative_clause_list, lemma_is_relative_clause_list_next,
    lemma_is_relative_clause_noi, lemma_is_relative_clauses, lemma_is_reverse_polish,
    lemma_is_row_of_arg, lemma_is_row_of_arg_1_next, lemma_is_row_of_arg_2_next,
    lemma_is_row_of_arg_connected_post, lemma_is_row_of_arg_list_next, lemma_is_row_of_bahe,
    lemma_is_row_of_before_tanru_unit, lemma_is_row_of_bihe_list_next, lemma_is_row_of_bu,
    lemma_is_row_of_coi_nai, lemma_is_row_of_connected_operand,
    lemma_is_row_of_connected_operator, lemma_is_row_of_expression_1,
    lemma_is_row_of_expression_list_next, lemma_is_row_of_free, lemma_is_row_of_indicator,
    lemma_is_row_of_indicators, lemma_is_row_of_interval_property,
    lemma_is_row_of_nu_word_list_next, lemma_is_row_of_number_rest,
    lemma_is_row_of_operand_2_connected_pre, lemma_is_row_of_operand_2_list_next,
    lemma_is_row_of_operator_3_list_next, lemma_is_row_of_operator_component_pre,
    lemma_is_row_of_operator_guhek, lemma_is_row_of_paragraph_items_next,
    lemma_is_row_of_paragraph_list_next, lemma_is_row_of_prenex,
    lemma_is_row_of_relative_clause_list_next, lemma_is_row_of_rptail,
    lemma_is_row_of_selbri_2_list_next, lemma_is_row_of_selbri_3,
    lemma_is_row_of_selbri_3_connected_post, lemma_is_row_of_selbri_5_list_next,
    lemma_is_row_of_selbri_before, lemma_is_row_of_selbri_guhek,
    lemma_is_row_of_sentence_tail_2_next, lemma_is_row_of_sentence_tail_3_next,
    lemma_is_row_of_sentences_2_list_next, lemma_is_row_of_sentences_2_next,
    lemma_is_row_of_space_interval_property, lemma_is_row_of_space_offset,
    lemma_is_row_of_sumti_2_next, lemma_is_row_of_sumti_3_connected_pre,
    lemma_is_row_of_sumti_connected_post, lemma_is_row_of_tag_words_next,
    lemma_is_row_of_tanru_unit_1_list_next, lemma_is_row_of_tanru_unit_list_next,
    lemma_is_row_of_time_offset, lemma_is_row_of_time_space_caha, lemma_is_row_of_word,
    lemma_is_row_of_word_with_free, lemma_is_rptail, lemma_is_sei_tail, lemma_is_selbri,
    lemma_is_selbri_1, lemma_is_selbri_2, lemma_is_selbri_2_list, lemma_is_selbri_2_list_next,
    lemma_is_selbri_3, lemma_is_selbri_3_connected_post,
    lemma_is_selbri_3_connected_post_normal, lemma_is_selbri_3_connected_post_parenthesized,
    lemma_is_selbri_4, lemma_is_selbri_5, lemma_is_selbri_5_list, lemma_is_selbri_5_list_next,
    lemma_is_selbri_6, lemma_is_selbri_before, lemma_is_selbri_before_na,
    lemma_is_selbri_before_tag, lemma_is_selbri_guhek, lemma_is_sentence,
    lemma_is_sentence_separator, lemma_is_sentence_tail, lemma_is_sentence_tail_1,
    lemma_is_sentence_tail_1_after, lemma_is_sentence_tail_2, lemma_is_sentence_tail_2_after,
    lemma_is_sentence_tail_2_connective, lemma_is_sentence_tail_2_next,
    lemma_is_sentence_tail_3, lemma_is_sentence_tail_3_after,
    lemma_is_sentence_tail_3_connective, lemma_is_sentence_tail_3_next,
    lemma_is_sentence_tail_4, lemma_is_sentence_tail_4_connected,
    lemma_is_sentence_tail_4_parenthesized, lemma_is_sentence_tail_4_single,
    lemma_is_sentences_1, lemma_is_sentences_2, lemma_is_sentences_2_list,
    lemma_is_sentences_2_list_next, lemma_is_sentences_2_next, lemma_is_sentences_3,
    lemma_is_sentences_3_grouped, lemma_is_sentences_3_single, lemma_is_soi_arguments,
    lemma_is_space, lemma_is_space_interval, lemma_is_space_interval_interval,
    lemma_is_space_interval_properties, lemma_is_space_interval_property, lemma_is_space_motion,
    lemma_is_space_offset, lemma_is_subscript, lemma_is_subscript_value,
    lemma_is_subscript_value_mekso, lemma_is_subscript_value_number,
    lemma_is_subscript_value_with_free, lemma_is_subsentence, lemma_is_sumti, lemma_is_sumti_1,
    lemma_is_sumti_2, lemma_is_sumti_2_next, lemma_is_sumti_3, lemma_is_sumti_3_connected_pre,
    lemma_is_sumti_4, lemma_is_sumti_4_normal, lemma_is_sumti_4_selbri_shorthand,
    lemma_is_sumti_component, lemma_is_sumti_component_1, lemma_is_sumti_component_1_gadri,
    lemma_is_sumti_component_1_koha, lemma_is_sumti_component_1_la,
    lemma_is_sumti_component_1_lerfu_string, lemma_is_sumti_component_1_li,
    lemma_is_sumti_component_1_lohu, lemma_is_sumti_component_1_lu,
    lemma_is_sumti_component_1_modified, lemma_is_sumti_component_1_zo,
    lemma_is_sumti_component_1_zoi, lemma_is_sumti_connected_post,
    lemma_is_sumti_connected_post_grouped, lemma_is_sumti_connected_post_normal,
    lemma_is_sumti_modifier, lemma_is_sumti_modifier_lahe, lemma_is_sumti_modifier_nahe_bo,
    lemma_is_sumti_modifier_with_free, lemma_is_tag, lemma_is_tag_ke, lemma_is_tag_value,
    lemma_is_tag_value_ku, lemma_is_tag_value_sumti, lemma_is_tag_word, lemma_is_tag_word_bai,
    lemma_is_tag_word_converted, lemma_is_tag_word_cuhe, lemma_is_tag_word_ki,
    lemma_is_tag_word_time_space_caha, lemma_is_tag_words, lemma_is_tag_words_next,
    lemma_is_tail_args, lemma_is_tanru_unit, lemma_is_tanru_unit_1, lemma_is_tanru_unit_1_list,
    lemma_is_tanru_unit_1_list_next, lemma_is_tanru_unit_2, lemma_is_tanru_unit_2_fuhivla,
    lemma_is_tanru_unit_2_gismu, lemma_is_tanru_unit_2_goha,
    lemma_is_tanru_unit_2_grouped_tanru, lemma_is_tanru_unit_2_lujvo, lemma_is_tanru_unit_2_me,
    lemma_is_tanru_unit_2_moi, lemma_is_tanru_unit_2_nu, lemma_is_tanru_unit_2_nuha,
    lemma_is_tanru_unit_list, lemma_is_tanru_unit_list_next, lemma_is_termset,
    lemma_is_termset_gek, lemma_is_termset_nuhi, lemma_is_termset_nuhi_gi, lemma_is_text,
    lemma_is_time, lemma_is_time_duration, lemma_is_time_offset, lemma_is_time_space_caha,
    lemma_is_time_space_caha_caha, lemma_is_time_space_caha_space,
    lemma_is_time_space_caha_time, lemma_is_veha_viha, lemma_is_veha_viha_both,
    lemma_is_veha_viha_left, lemma_is_veha_viha_right, lemma_is_vocative,
    lemma_is_vocative_value, lemma_is_vocative_value_cmevla, lemma_is_vocative_value_selbri,
    lemma_is_vocative_value_sumti, lemma_is_vocative_words, lemma_is_vocative_words_coi,
    lemma_is_vocative_words_doi, lemma_is_vuho_relative, lemma_is_word, lemma_is_word_with_free,
    lemma_is_word_without_indicators, lemma_is_zo_sumti, lemma_is_zoi_delimiter,
    lemma_is_zoi_sumti, lemma_is_zoi_text, run_of_arg, run_of_arg_1_next, run_of_arg_2_next,
    run_of_arg_connected_post, run_of_arg_list_next, run_of_bahe, run_of_before_tanru_unit,
    run_of_bihe_list_next, run_of_bu, run_of_coi_nai, run_of_connected_operand,
    run_of_connected_operator, run_of_expression_1, run_of_expression_list_next, run_of_free,
    run_of_indicator, run_of_indicators, run_of_interval_property, run_of_nu_word_list_next,
    run_of_number_rest, run_of_operand_2_connected_pre, run_of_operand_2_list_next,
    run_of_operator_3_list_next, run_of_operator_component_pre, run_of_operator_guhek,
    run_of_paragraph_items_next, run_of_paragraph_list_next, run_of_prenex,
    run_of_relative_clause_list_next, run_of_rptail, run_of_selbri_2_list_next, run_of_selbri_3,
    run_of_selbri_3_connected_post, run_of_selbri_5_list_next, run_of_selbri_before,
    run_of_selbri_guhek, run_of_sentence_tail_2_next, run_of_sentence_tail_3_next,
    run_of_sentences_2_list_next, run_of_sentences_2_next, run_of_space_interval_property,
    run_of_space_offset, run_of_sumti_2_next, run_of_sumti_3_connected_pre,
    run_of_sumti_connected_post, run_of_tag_words_next, run_of_tanru_unit_1_list_next,
    run_of_tanru_unit_list_next, run_of_time_offset, run_of_time_space_caha, run_of_word,
    run_of_word_with_free,
};
use crate::parse::driver::{
    combinator_at, cut, error_of, fail, not, opt, outcome, place, settled, shifted, span, tok,
    token, Failed, Outcome, Parsed,
};
use crate::parse::error::{Error, ErrorKind};
use crate::parse::cst::rules::{
    Arg, Arg1, Arg2, Arg3, Args, BeforeTanruUnit, BoundArguments, BuLerfu,
    CloseSentenceSeparator, ConnectedSentenceSeparator, Fragment, Free, Frees, Gadri,
    GadriSumti, GadriSumtiContents, GadriSumtiPre, GekSentence, GoiRelativeClause, Indicator,
    Indicators, IntervalProperty, LaSumti, Lerfu, LerfuString, LerfuWord, LohuSumti, LuSumti,
    MiscNumbers, ModifiedSumti, NaheGuhekTGik, NoiRelativeClause, Number, NumberRest, Paragraph,
    ParagraphItem, ParagraphItems, ParagraphSeparator, Paragraphs, PeheConnective, Prenex,
    Quantifier, RelativeClause, RelativeClauses, SeiTail, Selbri, Selbri1, Selbri2, Selbri3,
    Selbri3ConnectedPost, Selbri4, Selbri5, Selbri6, SelbriBefore, SelbriLikeConnectedPost,
    Sentence, SentenceSeparator, SentenceTail, SentenceTail1, SentenceTail1After, SentenceTail2,
    SentenceTail2After, SentenceTail2Connective, SentenceTail3, SentenceTail3After,
    SentenceTail3Connective, SentenceTail4, Sentences1, Sentences2, Sentences3, Space,
    SpaceInterval, SpaceIntervalProperty, SpaceMotion, SpaceOffset, Subscript, SubscriptValue,
    Subsentence, Sumti, Sumti1, Sumti2, Sumti3, Sumti3ConnectedPre, Sumti4, SumtiComponent,
    SumtiComponent1, SumtiLikeConnectedPost, SumtiModifier, Tag, TagValue, TagWord, TagWords,
    TailArgs, TanruUnit, TanruUnit1, TanruUnit2, Termset, Text, Time, TimeDuration, TimeOffset,
    TimeSpaceCaha, Vocative, VocativeValue, VocativeWords, VuhoRelative, WithFree, ZoSumti,
    ZoiDelimiter, ZoiSumti, ZoiText,
};
use crate::parse::cst::rules::connectives::{
    Ek, Gek, Gihek, Gik, Guhek, Interval, Jek, Joik, JoikEk, JoikJek, NaSeTNai,
};
use crate::parse::cst::rules::helpers::{
    EitherOrBoth, Separated,
};
use crate::parse::cst::rules::mekso::{
    ConnectedOperand, ConnectedOperator, Expression, Expression1, ForethoughtExpression,
    Operand, Operand1, Operand2, Operand2ConnectedPre, Operand3, Operator, Operator1, Operator2,
    Operator3, OperatorComponent, OperatorComponent1, OperatorComponentPre, RPTail,
    ReversePolish,
};
use crate::parse::cst::rules::selmaho::{
    Bahe, Bare, Bu, Word,
};

verus! {

/// Parse `Bu` at `pos`; see [`spec_bu`].
pub fn parse_bu<'arena>(toks: &[Token], pos: usize, arena: &'arena Arena) -> (out: Parsed<Bu>)
    requires
        pos <= toks.len(),
    ensures
        outcome(out, pos) == spec_bu(toks@, pos as nat),
        out matches Ok((end, node)) ==> pos < end <= toks.len() && is_bu(
            node,
            toks@,
            pos as nat,
        ),
    decreases toks.len() - pos, 0nat,
{
    proof {
        lemma_bu(toks@, pos as nat);
    }
    let (at1, token) = tok(toks, pos, Selmaho::Bu)?;
    let node = Bu { experimental: token.experimental, span: token.span };
    proof {
        lemma_is_bu(node, toks@, pos as nat);
    }
    Ok((at1, node))
}

/// Parse `Bu` from `pos` on as often as it matches, and at least once;
/// see [`spec_many1_bu`].
pub fn many1_bu<'arena>(toks: &[Token], pos: usize, arena: &'arena Arena) -> (out: Parsed<
    &'arena [Bu],
>)
    requires
        pos <= toks.len(),
    ensures
        outcome(out, pos) == spec_many1_bu(toks@, pos as nat),
        out matches Ok((end, items)) ==> pos < end <= toks.len() && items@.len() > 0 && is_row_of_bu(
            items@,
            toks@,
            pos as nat,
        ),
    decreases toks.len() - pos, 1nat,
{
    proof {
        lemma_many1_bu(toks@, pos as nat);
    }
    let mut items: Vec<Bu> = Vec::new();
    let (first_end, first) = parse_bu(toks, pos, arena)?;
    items.push(first);
    let mut at: usize = first_end;
    assert(run_of_bu(toks@, pos as nat, 0) == 0);
    loop
        invariant
            pos <= at <= toks.len(),
            items@.len() > 0,
            at == pos + run_of_bu(toks@, pos as nat, items@.len()),
            forall|i: int|
                #![trigger items@[i]]
                #![trigger run_of_bu(toks@, pos as nat, i as nat)]
                0 <= i < items@.len() ==> spec_bu(
                    toks@,
                    pos as nat + run_of_bu(toks@, pos as nat, i as nat),
                ) is Matched && is_bu(
                    items@[i],
                    toks@,
                    pos as nat + run_of_bu(toks@, pos as nat, i as nat),
                ),
            at == pos ==> spec_bu(toks@, pos as nat) == Outcome::Matched(0),
            at > pos ==> shifted(spec_many1_bu_more(toks@, at as nat), (at - pos) as nat)
                == spec_many1_bu(toks@, pos as nat),
            at == pos ==> spec_many1_bu(toks@, pos as nat) == Outcome::Error(
                combinator_at(pos as nat, ErrorKind::Many1),
            ),
        decreases toks.len() - at,
    {
        proof {
            lemma_many1_bu(toks@, at as nat);
        }
        match parse_bu(toks, at, arena) {
            Ok((end, item)) => {
                if end == at {
                    return fail(Error::Combinator(ErrorKind::Many1), at);
                }
                items.push(item);
                at = end;
            },
            Err(failed) => {
                if failed.fatal {
                    return Err(failed);
                }
                proof {
                    lemma_is_row_of_bu(items@, toks@, pos as nat);
                }
                return Ok((at, keep_all(arena, items)));
            },
        }
    }
}

/// Parse `Bahe` at `pos`; see [`spec_bahe`].
pub fn parse_bahe<'arena>(toks: &[Token], pos: usize, arena: &'arena Arena) -> (out: Parsed<
    Bahe,
>)
    requires
        pos <= toks.len(),
    ensures
        outcome(out, pos) == spec_bahe(toks@, pos as nat),
        out matches Ok((end, node)) ==> pos < end <= toks.len() && is_bahe(
            node,
            toks@,
            pos as nat,
        ),
    decreases toks.len() - pos, 0nat,
{
    proof {
        lemma_bahe(toks@, pos as nat);
    }
    let (at1, token) = tok(toks, pos, Selmaho::Bahe)?;
    not(at1, parse_bu(toks, at1, arena))?;
    not(at1, parse_word_without_indicators(toks, at1, arena, Selmaho::Zei))?;
    let node = Bahe { experimental: token.experimental, span: token.span };
    proof {
        lemma_is_bahe(node, toks@, pos as nat);
    }
    Ok((at1, node))
}

/// Parse `Bahe` from `pos` on as often as it matches; see [`spec_many0_bahe`].
pub fn many0_bahe<'arena>(toks: &[Token], pos: usize, arena: &'arena Arena) -> (out: Parsed<
    &'arena [Bahe],
>)
    requires
        pos <= toks.len(),
    ensures
        outcome(out, pos) == spec_many0_bahe(toks@, pos as nat),
        out matches Ok((end, items)) ==> pos <= end <= toks.len() && (items@.len() == 0 <==> end
            == pos) && is_row_of_bahe(items@, toks@, pos as nat),
    decreases toks.len() - pos, 1nat,
{
    let mut items: Vec<Bahe> = Vec::new();
    let mut at: usize = pos;
    loop
        invariant
            pos <= at <= toks.len(),
            items@.len() == 0 <==> at == pos,
            at == pos + run_of_bahe(toks@, pos as nat, items@.len()),
            forall|i: int|
                #![trigger items@[i]]
                #![trigger run_of_bahe(toks@, pos as nat, i as nat)]
                0 <= i < items@.len() ==> spec_bahe(
                    toks@,
                    pos as nat + run_of_bahe(toks@, pos as nat, i as nat),
                ) is Matched && is_bahe(
                    items@[i],
                    toks@,
                    pos as nat + run_of_bahe(toks@, pos as nat, i as nat),
                ),
            shifted(spec_many0_bahe(toks@, at as nat), (at - pos) as nat) == spec_many0_bahe(
                toks@,
                pos as nat,
            ),
        decreases toks.len() - at,
    {
        proof {
            lemma_many0_bahe(toks@, at as nat);
        }
        match parse_bahe(toks, at, arena) {
            Ok((end, item)) => {
                if end == at {
                    return fail(Error::Combinator(ErrorKind::Many0), at);
                }
                items.push(item);
                at = end;
            },
            Err(failed) => {
                if failed.fatal {
                    return Err(failed);
                }
                proof {
                    lemma_is_row_of_bahe(items@, toks@, pos as nat);
                }
                return Ok((at, keep_all(arena, items)));
            },
        }
    }
}

/// Parse `Raw` at `pos`; see [`spec_raw`].
pub fn parse_raw<'arena>(
    toks: &[Token],
    pos: usize,
    arena: &'arena Arena,
    selmaho: Selmaho,
) -> (out: Parsed<
    Bare,
>)
    requires
        pos <= toks.len(),
    ensures
        outcome(out, pos) == spec_raw(toks@, pos as nat, selmaho),
        out matches Ok((end, node)) ==> pos < end <= toks.len() && is_raw(
            node,
            toks@,
            pos as nat,
            selmaho,
        ),
    decreases toks.len() - pos, 0nat,
{
    proof {
        lemma_raw(toks@, pos as nat, selmaho);
    }
    let (at1, token) = tok(toks, pos, selmaho)?;
    not(at1, parse_bu(toks, at1, arena))?;
    not(at1, parse_word_without_indicators(toks, at1, arena, Selmaho::Zei))?;
    let node = Bare { selmaho, experimental: token.experimental, span: token.span };
    proof {
        lemma_is_raw(node, toks@, pos as nat, selmaho);
    }
    Ok((at1, node))
}

/// Parse `WordWithoutIndicators` at `pos`; see [`spec_word_without_indicators`].
pub fn parse_word_without_indicators<'arena>(
    toks: &[Token],
    pos: usize,
    arena: &'arena Arena,
    selmaho: Selmaho,
) -> (out: Parsed<
    Word<'arena>,
>)
    requires
        pos <= toks.len(),
    ensures
        outcome(out, pos) == spec_word_without_indicators(toks@, pos as nat, selmaho),
        out matches Ok((end, node)) ==> pos < end <= toks.len() && is_word_without_indicators(
            node,
            toks@,
            pos as nat,
            selmaho,
        ),
    decreases toks.len() - pos, 2nat,
{
    proof {
        lemma_word_without_indicators(toks@, pos as nat, selmaho);
    }
    let (at1, bahe) = many0_bahe(toks, pos, arena)?;
    let (at2, token) = tok(toks, at1, selmaho)?;
    not(at2, parse_bu(toks, at2, arena))?;
    not(at2, parse_word_without_indicators(toks, at2, arena, Selmaho::Zei))?;
    let node = Word { selmaho, bahe, experimental: token.experimental, span: token.span, indicators: None };
    proof {
        lemma_is_word_without_indicators(node, toks@, pos as nat, selmaho);
    }
    Ok((at2, node))
}

/// Parse `Word` at `pos`; see [`spec_word`].
pub fn parse_word<'arena>(
    toks: &[Token],
    pos: usize,
    arena: &'arena Arena,
    selmaho: Selmaho,
) -> (out: Parsed<
    Word<'arena>,
>)
    requires
        pos <= toks.len(),
    ensures
        outcome(out, pos) == spec_word(toks@, pos as nat, selmaho),
        out matches Ok((end, node)) ==> pos < end <= toks.len() && is_word(
            node,
            toks@,
            pos as nat,
            selmaho,
        ),
    decreases toks.len() - pos, 2nat,
{
    proof {
        lemma_word(toks@, pos as nat, selmaho);
    }
    let (at1, bahe) = many0_bahe(toks, pos, arena)?;
    let (at2, token) = tok(toks, at1, selmaho)?;
    let (at3, indicators) = opt(at2, place(arena, parse_indicators(toks, at2, arena)))?;
    not(at3, parse_bu(toks, at3, arena))?;
    not(at3, parse_word_without_indicators(toks, at3, arena, Selmaho::Zei))?;
    let node = Word { selmaho, bahe, experimental: token.experimental, span: token.span, indicators };
    proof {
        lemma_is_word(node, toks@, pos as nat, selmaho);
    }
    Ok((at3, node))
}

/// Parse `Word` from `pos` on as often as it matches, and at least once;
/// see [`spec_many1_word`].
pub fn many1_word<'arena>(
    toks: &[Token],
    pos: usize,
    arena: &'arena Arena,
    selmaho: Selmaho,
) -> (out: Parsed<
    &'arena [Word<'arena>],
>)
    requires
        pos <= toks.len(),
    ensures
        outcome(out, pos) == spec_many1_word(toks@, pos as nat, selmaho),
        out matches Ok((end, items)) ==> pos < end <= toks.len() && items@.len() > 0 && is_row_of_word(
            items@,
            toks@,
            pos as nat, selmaho,
        ),
    decreases toks.len() - pos, 3nat,
{
    proof {
        lemma_many1_word(toks@, pos as nat, selmaho);
    }
    let mut items: Vec<Word<'arena>> = Vec::new();
    let (first_end, first) = parse_word(toks, pos, arena, selmaho)?;
    items.push(first);
    let mut at: usize = first_end;
    assert(run_of_word(toks@, pos as nat, 0, selmaho) == 0);
    loop
        invariant
            pos <= at <= toks.len(),
            items@.len() > 0,
            at == pos + run_of_word(toks@, pos as nat, items@.len(), selmaho),
            forall|i: int|
                #![trigger items@[i]]
                #![trigger run_of_word(toks@, pos as nat, i as nat, selmaho)]
                0 <= i < items@.len() ==> spec_word(
                    toks@,
                    pos as nat + run_of_word(toks@, pos as nat, i as nat, selmaho),
                    selmaho,
                ) is Matched && is_word(
                    items@[i],
                    toks@,
                    pos as nat + run_of_word(toks@, pos as nat, i as nat, selmaho),
                    selmaho,
                ),
            at == pos ==> spec_word(toks@, pos as nat, selmaho) == Outcome::Matched(0),
            at > pos ==> shifted(
                spec_many1_word_more(toks@, at as nat, selmaho),
                (at - pos) as nat,
            )
                == spec_many1_word(toks@, pos as nat, selmaho),
            at == pos ==> spec_many1_word(toks@, pos as nat, selmaho) == Outcome::Error(
                combinator_at(pos as nat, ErrorKind::Many1),
            ),
        decreases toks.len() - at,
    {
        proof {
            lemma_many1_word(toks@, at as nat, selmaho);
        }
        match parse_word(toks, at, arena, selmaho) {
            Ok((end, item)) => {
                if end == at {
                    return fail(Error::Combinator(ErrorKind::Many1), at);
                }
                items.push(item);
                at = end;
            },
            Err(failed) => {
                if failed.fatal {
                    return Err(failed);
                }
                proof {
                    lemma_is_row_of_word(items@, toks@, pos as nat, selmaho);
                }
                return Ok((at, keep_all(arena, items)));
            },
        }
    }
}

/// Parse `WordWithFree` at `pos`; see [`spec_word_with_free`].
pub fn parse_word_with_free<'arena>(
    toks: &[Token],
    pos: usize,
    arena: &'arena Arena,
    selmaho: Selmaho,
) -> (out: Parsed<
    WithFree<'arena, Word<'arena>>,
>)
    requires
        pos <= toks.len(),
    ensures
        outcome(out, pos) == spec_word_with_free(toks@, pos as nat, selmaho),
        out matches Ok((end, node)) ==> pos < end <= toks.len() && is_word_with_free(
            node,
            toks@,
            pos as nat,
            selmaho,
        ),
    decreases toks.len() - pos, 3nat,
{
    proof {
        lemma_word_with_free(toks@, pos as nat, selmaho);
    }
    let (at1, inner) = parse_word(toks, pos, arena, selmaho)?;
    let (at2, frees) = parse_frees(toks, at1, arena)?;
    let node = WithFree { inner, frees };
    proof {
        lemma_is_word_with_free(node, toks@, pos as nat, selmaho);
    }
    Ok((at2, node))
}

/// Parse `WordWithFree` from `pos` on as often as it matches; see [`spec_many0_word_with_free`].
pub fn many0_word_with_free<'arena>(
    toks: &[Token],
    pos: usize,
    arena: &'arena Arena,
    selmaho: Selmaho,
) -> (out: Parsed<
    &'arena [WithFree<'arena, Word<'arena>>],
>)
    requires
        pos <= toks.len(),
    ensures
        outcome(out, pos) == spec_many0_word_with_free(toks@, pos as nat, selmaho),
        out matches Ok((end, items)) ==> pos <= end <= toks.len() && (items@.len() == 0 <==> end
            == pos) && is_row_of_word_with_free(items@, toks@, pos as nat, selmaho),
    decreases toks.len() - pos, 4nat,
{
    let mut items: Vec<WithFree<'arena, Word<'arena>>> = Vec::new();
    let mut at: usize = pos;
    loop
        invariant
            pos <= at <= toks.len(),
            items@.len() == 0 <==> at == pos,
            at == pos + run_of_word_with_free(toks@, pos as nat, items@.len(), selmaho),
            forall|i: int|
                #![trigger items@[i]]
                #![trigger run_of_word_with_free(toks@, pos as nat, i as nat, selmaho)]
                0 <= i < items@.len() ==> spec_word_with_free(
                    toks@,
                    pos as nat + run_of_word_with_free(toks@, pos as nat, i as nat, selmaho),
                    selmaho,
                ) is Matched && is_word_with_free(
                    items@[i],
                    toks@,
                    pos as nat + run_of_word_with_free(toks@, pos as nat, i as nat, selmaho),
                    selmaho,
                ),
            shifted(
                spec_many0_word_with_free(toks@, at as nat, selmaho),
                (at - pos) as nat,
            ) == spec_many0_word_with_free(
                toks@,
                pos as nat, selmaho,
            ),
        decreases toks.len() - at,
    {
        proof {
            lemma_many0_word_with_free(toks@, at as nat, selmaho);
        }
        match parse_word_with_free(toks, at, arena, selmaho) {
            Ok((end, item)) => {
                if end == at {
                    return fail(Error::Combinator(ErrorKind::Many0), at);
                }
                items.push(item);
                at = end;
            },
            Err(failed) => {
                if failed.fatal {
                    return Err(failed);
                }
                proof {
                    lemma_is_row_of_word_with_free(items@, toks@, pos as nat, selmaho);
                }
                return Ok((at, keep_all(arena, items)));
            },
        }
    }
}

/// Parse `Text` at `pos`; see [`spec_text`].
pub fn parse_text<'arena>(toks: &[Token], pos: usize, arena: &'arena Arena) -> (out: Parsed<
    Text<'arena>,
>)
    requires
        pos <= toks.len(),
    ensures
        outcome(out, pos) == spec_text(toks@, pos as nat),
        out matches Ok((end, node)) ==> pos <= end <= toks.len() && is_text(
            node,
            toks@,
            pos as nat,
        ),
    decreases toks.len() - pos, 121nat,
{
    proof {
        lemma_text(toks@, pos as nat);
    }
    let (at1, initial_indicators) = opt(pos, parse_indicators(toks, pos, arena))?;
    let (at2, initial_frees) = parse_frees(toks, at1, arena)?;
    let (at3, initial_paragraph_separator) = opt(
        at2,
        parse_paragraph_separator(toks, at2, arena),
    )?;
    let (at4, paragraphs) = opt(at3, parse_paragraphs(toks, at3, arena))?;
    let (at5, faho) = opt(at4, parse_word(toks, at4, arena, Selmaho::Faho))?;
    let node = Text { initial_indicators, initial_frees, initial_paragraph_separator, paragraphs, faho };
    proof {
        lemma_is_text(node, toks@, pos as nat);
    }
    Ok((at5, node))
}

/// Parse `Indicators` at `pos`; see [`spec_indicators`].
pub fn parse_indicators<'arena>(toks: &[Token], pos: usize, arena: &'arena Arena) -> (out: Parsed<
    Indicators<'arena>,
>)
    requires
        pos <= toks.len(),
    ensures
        outcome(out, pos) == spec_indicators(toks@, pos as nat),
        out matches Ok((end, node)) ==> pos < end <= toks.len() && is_indicators(
            node,
            toks@,
            pos as nat,
        ),
    decreases toks.len() - pos, 7nat,
{
    proof {
        lemma_indicators(toks@, pos as nat);
    }
    let (at1, field_0) = opt(
        pos,
        parse_word_without_indicators(toks, pos, arena, Selmaho::Fuhe),
    )?;
    let (at2, field_1) = many1_indicator(toks, at1, arena)?;
    let node = Indicators(field_0, field_1);
    proof {
        lemma_is_indicators(node, toks@, pos as nat);
    }
    Ok((at2, node))
}

/// Parse `Indicators` from `pos` on as often as it matches; see [`spec_many0_indicators`].
pub fn many0_indicators<'arena>(toks: &[Token], pos: usize, arena: &'arena Arena) -> (out: Parsed<
    &'arena [Indicators<'arena>],
>)
    requires
        pos <= toks.len(),
    ensures
        outcome(out, pos) == spec_many0_indicators(toks@, pos as nat),
        out matches Ok((end, items)) ==> pos <= end <= toks.len() && (items@.len() == 0 <==> end
            == pos) && is_row_of_indicators(items@, toks@, pos as nat),
    decreases toks.len() - pos, 8nat,
{
    let mut items: Vec<Indicators<'arena>> = Vec::new();
    let mut at: usize = pos;
    loop
        invariant
            pos <= at <= toks.len(),
            items@.len() == 0 <==> at == pos,
            at == pos + run_of_indicators(toks@, pos as nat, items@.len()),
            forall|i: int|
                #![trigger items@[i]]
                #![trigger run_of_indicators(toks@, pos as nat, i as nat)]
                0 <= i < items@.len() ==> spec_indicators(
                    toks@,
                    pos as nat + run_of_indicators(toks@, pos as nat, i as nat),
                ) is Matched && is_indicators(
                    items@[i],
                    toks@,
                    pos as nat + run_of_indicators(toks@, pos as nat, i as nat),
                ),
            shifted(
                spec_many0_indicators(toks@, at as nat),
                (at - pos) as nat,
            ) == spec_many0_indicators(
                toks@,
                pos as nat,
            ),
        decreases toks.len() - at,
    {
        proof {
            lemma_many0_indicators(toks@, at as nat);
        }
        match parse_indicators(toks, at, arena) {
            Ok((end, item)) => {
                if end == at {
                    return fail(Error::Combinator(ErrorKind::Many0), at);
                }
                items.push(item);
                at = end;
            },
            Err(failed) => {
                if failed.fatal {
                    return Err(failed);
                }
                proof {
                    lemma_is_row_of_indicators(items@, toks@, pos as nat);
                }
                return Ok((at, keep_all(arena, items)));
            },
        }
    }
}

/// Parse `Indicator` at `pos`; see [`spec_indicator`].
pub fn parse_indicator<'arena>(toks: &[Token], pos: usize, arena: &'arena Arena) -> (out: Parsed<
    Indicator<'arena>,
>)
    requires
        pos <= toks.len(),
    ensures
        outcome(out, pos) == spec_indicator(toks@, pos as nat),
        out matches Ok((end, node)) ==> pos < end <= toks.len() && is_indicator(
            node,
            toks@,
            pos as nat,
        ),
    decreases toks.len() - pos, 5nat,
{
    proof {
        lemma_indicator(toks@, pos as nat);
    }
    let (at1, chosen) = parse_indicator_choice(toks, pos, arena)?;
    not(at1, parse_bu(toks, at1, arena))?;
    let node = chosen;
    proof {
        lemma_is_indicator(node, toks@, pos as nat);
    }
    Ok((at1, node))
}

/// Parse `Indicator` from `pos` on as often as it matches, and at least once;
/// see [`spec_many1_indicator`].
pub fn many1_indicator<'arena>(toks: &[Token], pos: usize, arena: &'arena Arena) -> (out: Parsed<
    &'arena [Indicator<'arena>],
>)
    requires
        pos <= toks.len(),
    ensures
        outcome(out, pos) == spec_many1_indicator(toks@, pos as nat),
        out matches Ok((end, items)) ==> pos < end <= toks.len() && items@.len() > 0 && is_row_of_indicator(
            items@,
            toks@,
            pos as nat,
        ),
    decreases toks.len() - pos, 6nat,
{
    proof {
        lemma_many1_indicator(toks@, pos as nat);
    }
    let mut items: Vec<Indicator<'arena>> = Vec::new();
    let (first_end, first) = parse_indicator(toks, pos, arena)?;
    items.push(first);
    let mut at: usize = first_end;
    assert(run_of_indicator(toks@, pos as nat, 0) == 0);
    loop
        invariant
            pos <= at <= toks.len(),
            items@.len() > 0,
            at == pos + run_of_indicator(toks@, pos as nat, items@.len()),
            forall|i: int|
                #![trigger items@[i]]
                #![trigger run_of_indicator(toks@, pos as nat, i as nat)]
                0 <= i < items@.len() ==> spec_indicator(
                    toks@,
                    pos as nat + run_of_indicator(toks@, pos as nat, i as nat),
                ) is Matched && is_indicator(
                    items@[i],
                    toks@,
                    pos as nat + run_of_indicator(toks@, pos as nat, i as nat),
                ),
            at == pos ==> spec_indicator(toks@, pos as nat) == Outcome::Matched(0),
            at > pos ==> shifted(spec_many1_indicator_more(toks@, at as nat), (at - pos) as nat)
                == spec_many1_indicator(toks@, pos as nat),
            at == pos ==> spec_many1_indicator(toks@, pos as nat) == Outcome::Error(
                combinator_at(pos as nat, ErrorKind::Many1),
            ),
        decreases toks.len() - at,
    {
        proof {
            lemma_many1_indicator(toks@, at as nat);
        }
        match parse_indicator(toks, at, arena) {
            Ok((end, item)) => {
                if end == at {
                    return fail(Error::Combinator(ErrorKind::Many1), at);
                }
                items.push(item);
                at = end;
            },
            Err(failed) => {
                if failed.fatal {
                    return Err(failed);
                }
                proof {
                    lemma_is_row_of_indicator(items@, toks@, pos as nat);
                }
                return Ok((at, keep_all(arena, items)));
            },
        }
    }
}

/// Parse `IndicatorChoice` at `pos`; see [`spec_indicator_choice`].
pub fn parse_indicator_choice<'arena>(
    toks: &[Token],
    pos: usize,
    arena: &'arena Arena,
) -> (out: Parsed<
    Indicator<'arena>,
>)
    requires
        pos <= toks.len(),
    ensures
        outcome(out, pos) == spec_indicator_choice(toks@, pos as nat),
        out matches Ok((end, node)) ==> pos < end <= toks.len() && is_indicator_choice(
            node,
            toks@,
            pos as nat,
        ),
    decreases toks.len() - pos, 4nat,
{
    proof {
        lemma_indicator_choice(toks@, pos as nat);
        lemma_is_indicator_choice(toks@, pos as nat);
    }
    let tried = parse_indicator_ui(toks, pos, arena);
    if settled(&tried) {
        return tried;
    }
    let error = error_of(tried);
    let tried = parse_indicator_cai(toks, pos, arena);
    if settled(&tried) {
        return tried;
    }
    let error = error.or(error_of(tried));
    let tried = parse_indicator_nai(toks, pos, arena);
    if settled(&tried) {
        return tried;
    }
    let error = error.or(error_of(tried));
    let tried = parse_indicator_daho(toks, pos, arena);
    if settled(&tried) {
        return tried;
    }
    let error = error.or(error_of(tried));
    let tried = parse_indicator_fuho(toks, pos, arena);
    if settled(&tried) {
        return tried;
    }
    let error = error.or(error_of(tried));
    let tried = parse_indicator_y(toks, pos, arena);
    if settled(&tried) {
        return tried;
    }
    let error = error.or(error_of(tried));
    Err(Failed { fatal: false, error })
}

/// Parse `IndicatorUi` at `pos`; see [`spec_indicator_ui`].
pub fn parse_indicator_ui<'arena>(
    toks: &[Token],
    pos: usize,
    arena: &'arena Arena,
) -> (out: Parsed<
    Indicator<'arena>,
>)
    requires
        pos <= toks.len(),
    ensures
        outcome(out, pos) == spec_indicator_ui(toks@, pos as nat),
        out matches Ok((end, node)) ==> pos < end <= toks.len() && is_indicator_ui(
            node,
            toks@,
            pos as nat,
        ),
    decreases toks.len() - pos, 3nat,
{
    proof {
        lemma_indicator_ui(toks@, pos as nat);
    }
    let (at1, field_0) = parse_word(toks, pos, arena, Selmaho::Ui)?;
    let node = Indicator::Ui(field_0);
    proof {
        lemma_is_indicator_ui(node, toks@, pos as nat);
    }
    Ok((at1, node))
}

/// Parse `IndicatorCai` at `pos`; see [`spec_indicator_cai`].
pub fn parse_indicator_cai<'arena>(
    toks: &[Token],
    pos: usize,
    arena: &'arena Arena,
) -> (out: Parsed<
    Indicator<'arena>,
>)
    requires
        pos <= toks.len(),
    ensures
        outcome(out, pos) == spec_indicator_cai(toks@, pos as nat),
        out matches Ok((end, node)) ==> pos < end <= toks.len() && is_indicator_cai(
            node,
            toks@,
            pos as nat,
        ),
    decreases toks.len() - pos, 3nat,
{
    proof {
        lemma_indicator_cai(toks@, pos as nat);
    }
    let (at1, field_0) = parse_word(toks, pos, arena, Selmaho::Cai)?;
    let node = Indicator::Cai(field_0);
    proof {
        lemma_is_indicator_cai(node, toks@, pos as nat);
    }
    Ok((at1, node))
}

/// Parse `IndicatorNai` at `pos`; see [`spec_indicator_nai`].
pub fn parse_indicator_nai<'arena>(
    toks: &[Token],
    pos: usize,
    arena: &'arena Arena,
) -> (out: Parsed<
    Indicator<'arena>,
>)
    requires
        pos <= toks.len(),
    ensures
        outcome(out, pos) == spec_indicator_nai(toks@, pos as nat),
        out matches Ok((end, node)) ==> pos < end <= toks.len() && is_indicator_nai(
            node,
            toks@,
            pos as nat,
        ),
    decreases toks.len() - pos, 3nat,
{
    proof {
        lemma_indicator_nai(toks@, pos as nat);
    }
    let (at1, field_0) = parse_word(toks, pos, arena, Selmaho::Nai)?;
    let node = Indicator::Nai(field_0);
    proof {
        lemma_is_indicator_nai(node, toks@, pos as nat);
    }
    Ok((at1, node))
}

/// Parse `IndicatorDaho` at `pos`; see [`spec_indicator_daho`].
pub fn parse_indicator_daho<'arena>(
    toks: &[Token],
    pos: usize,
    arena: &'arena Arena,
) -> (out: Parsed<
    Indicator<'arena>,
>)
    requires
        pos <= toks.len(),
    ensures
        outcome(out, pos) == spec_indicator_daho(toks@, pos as nat),
        out matches Ok((end, node)) ==> pos < end <= toks.len() && is_indicator_daho(
            node,
            toks@,
            pos as nat,
        ),
    decreases toks.len() - pos, 3nat,
{
    proof {
        lemma_indicator_daho(toks@, pos as nat);
    }
    let (at1, field_0) = parse_word(toks, pos, arena, Selmaho::Daho)?;
    let node = Indicator::Daho(field_0);
    proof {
        lemma_is_indicator_daho(node, toks@, pos as nat);
    }
    Ok((at1, node))
}

/// Parse `IndicatorFuho` at `pos`; see [`spec_indicator_fuho`].
pub fn parse_indicator_fuho<'arena>(
    toks: &[Token],
    pos: usize,
    arena: &'arena Arena,
) -> (out: Parsed<
    Indicator<'arena>,
>)
    requires
        pos <= toks.len(),
    ensures
        outcome(out, pos) == spec_indicator_fuho(toks@, pos as nat),
        out matches Ok((end, node)) ==> pos < end <= toks.len() && is_indicator_fuho(
            node,
            toks@,
            pos as nat,
        ),
    decreases toks.len() - pos, 3nat,
{
    proof {
        lemma_indicator_fuho(toks@, pos as nat);
    }
    let (at1, field_0) = parse_word(toks, pos, arena, Selmaho::Fuho)?;
    let node = Indicator::Fuho(field_0);
    proof {
        lemma_is_indicator_fuho(node, toks@, pos as nat);
    }
    Ok((at1, node))
}

/// Parse `IndicatorY` at `pos`; see [`spec_indicator_y`].
pub fn parse_indicator_y<'arena>(
    toks: &[Token],
    pos: usize,
    arena: &'arena Arena,
) -> (out: Parsed<
    Indicator<'arena>,
>)
    requires
        pos <= toks.len(),
    ensures
        outcome(out, pos) == spec_indicator_y(toks@, pos as nat),
        out matches Ok((end, node)) ==> pos < end <= toks.len() && is_indicator_y(
            node,
            toks@,
            pos as nat,
        ),
    decreases toks.len() - pos, 3nat,
{
    proof {
        lemma_indicator_y(toks@, pos as nat);
    }
    let (at1, field_0) = parse_word(toks, pos, arena, Selmaho::Y)?;
    let node = Indicator::Y(field_0);
    proof {
        lemma_is_indicator_y(node, toks@, pos as nat);
    }
    Ok((at1, node))
}

/// Parse `Frees` at `pos`; see [`spec_frees`].
pub fn parse_frees<'arena>(toks: &[Token], pos: usize, arena: &'arena Arena) -> (out: Parsed<
    Frees<'arena>,
>)
    requires
        pos <= toks.len(),
    ensures
        outcome(out, pos) == spec_frees(toks@, pos as nat),
        out matches Ok((end, node)) ==> pos <= end <= toks.len() && is_frees(
            node,
            toks@,
            pos as nat,
        ),
    decreases toks.len() - pos, 24nat,
{
    proof {
        lemma_frees(toks@, pos as nat);
    }
    let (at1, field_0) = many0_free(toks, pos, arena)?;
    let node = Frees(field_0);
    proof {
        lemma_is_frees(node, toks@, pos as nat);
    }
    Ok((at1, node))
}

/// Parse `Free` at `pos`; see [`spec_free`].
pub fn parse_free<'arena>(toks: &[Token], pos: usize, arena: &'arena Arena) -> (out: Parsed<
    Free<'arena>,
>)
    requires
        pos <= toks.len(),
    ensures
        outcome(out, pos) == spec_free(toks@, pos as nat),
        out matches Ok((end, node)) ==> pos < end <= toks.len() && is_free(
            node,
            toks@,
            pos as nat,
        ),
    decreases toks.len() - pos, 22nat,
{
    proof {
        lemma_free(toks@, pos as nat);
        lemma_is_free(toks@, pos as nat);
    }
    let tried = parse_free_sei(toks, pos, arena);
    if settled(&tried) {
        return tried;
    }
    let error = error_of(tried);
    let tried = parse_free_soi(toks, pos, arena);
    if settled(&tried) {
        return tried;
    }
    let error = error.or(error_of(tried));
    let tried = parse_free_vocative(toks, pos, arena);
    if settled(&tried) {
        return tried;
    }
    let error = error.or(error_of(tried));
    let tried = parse_free_mai(toks, pos, arena);
    if settled(&tried) {
        return tried;
    }
    let error = error.or(error_of(tried));
    let tried = parse_free_to(toks, pos, arena);
    if settled(&tried) {
        return tried;
    }
    let error = error.or(error_of(tried));
    let tried = parse_free_xi(toks, pos, arena);
    if settled(&tried) {
        return tried;
    }
    let error = error.or(error_of(tried));
    Err(Failed { fatal: false, error })
}

/// Parse `Free` from `pos` on as often as it matches; see [`spec_many0_free`].
pub fn many0_free<'arena>(toks: &[Token], pos: usize, arena: &'arena Arena) -> (out: Parsed<
    &'arena [Free<'arena>],
>)
    requires
        pos <= toks.len(),
    ensures
        outcome(out, pos) == spec_many0_free(toks@, pos as nat),
        out matches Ok((end, items)) ==> pos <= end <= toks.len() && (items@.len() == 0 <==> end
            == pos) && is_row_of_free(items@, toks@, pos as nat),
    decreases toks.len() - pos, 23nat,
{
    let mut items: Vec<Free<'arena>> = Vec::new();
    let mut at: usize = pos;
    loop
        invariant
            pos <= at <= toks.len(),
            items@.len() == 0 <==> at == pos,
            at == pos + run_of_free(toks@, pos as nat, items@.len()),
            forall|i: int|
                #![trigger items@[i]]
                #![trigger run_of_free(toks@, pos as nat, i as nat)]
                0 <= i < items@.len() ==> spec_free(
                    toks@,
                    pos as nat + run_of_free(toks@, pos as nat, i as nat),
                ) is Matched && is_free(
                    items@[i],
                    toks@,
                    pos as nat + run_of_free(toks@, pos as nat, i as nat),
                ),
            shifted(spec_many0_free(toks@, at as nat), (at - pos) as nat) == spec_many0_free(
                toks@,
                pos as nat,
            ),
        decreases toks.len() - at,
    {
        proof {
            lemma_many0_free(toks@, at as nat);
        }
        match parse_free(toks, at, arena) {
            Ok((end, item)) => {
                if end == at {
                    return fail(Error::Combinator(ErrorKind::Many0), at);
                }
                items.push(item);
                at = end;
            },
            Err(failed) => {
                if failed.fatal {
                    return Err(failed);
                }
                proof {
                    lemma_is_row_of_free(items@, toks@, pos as nat);
                }
                return Ok((at, keep_all(arena, items)));
            },
        }
    }
}

/// Parse `FreeSei` at `pos`; see [`spec_free_sei`].
pub fn parse_free_sei<'arena>(toks: &[Token], pos: usize, arena: &'arena Arena) -> (out: Parsed<
    Free<'arena>,
>)
    requires
        pos <= toks.len(),
    ensures
        outcome(out, pos) == spec_free_sei(toks@, pos as nat),
        out matches Ok((end, node)) ==> pos < end <= toks.len() && is_free_sei(
            node,
            toks@,
            pos as nat,
        ),
    decreases toks.len() - pos, 4nat,
{
    proof {
        lemma_free_sei(toks@, pos as nat);
    }
    let (at1, field_0) = parse_word_with_free(toks, pos, arena, Selmaho::Sei)?;
    let (at2, field_1) = parse_args(toks, at1, arena)?;
    let (at3, field_2) = opt(at2, parse_sei_tail(toks, at2, arena))?;
    let (at4, field_3) = opt(at3, parse_word_with_free(toks, at3, arena, Selmaho::Sehu))?;
    let node = Free::Sei(field_0, field_1, field_2, field_3);
    proof {
        lemma_is_free_sei(node, toks@, pos as nat);
    }
    Ok((at4, node))
}

/// Parse `Args` at `pos`; see [`spec_args`].
pub fn parse_args<'arena>(toks: &[Token], pos: usize, arena: &'arena Arena) -> (out: Parsed<
    Args<'arena>,
>)
    requires
        pos <= toks.len(),
    ensures
        outcome(out, pos) == spec_args(toks@, pos as nat),
        out matches Ok((end, node)) ==> pos <= end <= toks.len() && is_args(
            node,
            toks@,
            pos as nat,
        ),
    decreases toks.len() - pos, 61nat,
{
    proof {
        lemma_args(toks@, pos as nat);
    }
    let (at1, field_0) = many0_arg(toks, pos, arena)?;
    let node = Args(field_0);
    proof {
        lemma_is_args(node, toks@, pos as nat);
    }
    Ok((at1, node))
}

/// Parse `Arg` at `pos`; see [`spec_arg`].
pub fn parse_arg<'arena>(toks: &[Token], pos: usize, arena: &'arena Arena) -> (out: Parsed<
    Arg<'arena>,
>)
    requires
        pos <= toks.len(),
    ensures
        outcome(out, pos) == spec_arg(toks@, pos as nat),
        out matches Ok((end, node)) ==> pos < end <= toks.len() && is_arg(
            node,
            toks@,
            pos as nat,
        ),
    decreases toks.len() - pos, 59nat,
{
    proof {
        lemma_arg(toks@, pos as nat);
    }
    let (at1, field_0) = parse_arg_1(toks, pos, arena)?;
    let (at2, field_1) = many0_arg_connected_post(toks, at1, arena)?;
    let node = Arg(field_0, field_1);
    proof {
        lemma_is_arg(node, toks@, pos as nat);
    }
    Ok((at2, node))
}

/// Parse `Arg` from `pos` on as often as it matches; see [`spec_many0_arg`].
pub fn many0_arg<'arena>(toks: &[Token], pos: usize, arena: &'arena Arena) -> (out: Parsed<
    &'arena [Arg<'arena>],
>)
    requires
        pos <= toks.len(),
    ensures
        outcome(out, pos) == spec_many0_arg(toks@, pos as nat),
        out matches Ok((end, items)) ==> pos <= end <= toks.len() && (items@.len() == 0 <==> end
            == pos) && is_row_of_arg(items@, toks@, pos as nat),
    decreases toks.len() - pos, 60nat,
{
    let mut items: Vec<Arg<'arena>> = Vec::new();
    let mut at: usize = pos;
    loop
        invariant
            pos <= at <= toks.len(),
            items@.len() == 0 <==> at == pos,
            at == pos + run_of_arg(toks@, pos as nat, items@.len()),
            forall|i: int|
                #![trigger items@[i]]
                #![trigger run_of_arg(toks@, pos as nat, i as nat)]
                0 <= i < items@.len() ==> spec_arg(
                    toks@,
                    pos as nat + run_of_arg(toks@, pos as nat, i as nat),
                ) is Matched && is_arg(
                    items@[i],
                    toks@,
                    pos as nat + run_of_arg(toks@, pos as nat, i as nat),
                ),
            shifted(spec_many0_arg(toks@, at as nat), (at - pos) as nat) == spec_many0_arg(
                toks@,
                pos as nat,
            ),
        decreases toks.len() - at,
    {
        proof {
            lemma_many0_arg(toks@, at as nat);
        }
        match parse_arg(toks, at, arena) {
            Ok((end, item)) => {
                if end == at {
                    return fail(Error::Combinator(ErrorKind::Many0), at);
                }
                items.push(item);
                at = end;
            },
            Err(failed) => {
                if failed.fatal {
                    return Err(failed);
                }
                proof {
                    lemma_is_row_of_arg(items@, toks@, pos as nat);
                }
                return Ok((at, keep_all(arena, items)));
            },
        }
    }
}

/// Parse `Arg1` at `pos`; see [`spec_arg_1`].
pub fn parse_arg_1<'arena>(toks: &[Token], pos: usize, arena: &'arena Arena) -> (out: Parsed<
    Separated<'arena, Arg2<'arena>, PeheConnective<'arena>>,
>)
    requires
        pos <= toks.len(),
    ensures
        outcome(out, pos) == spec_arg_1(toks@, pos as nat),
        out matches Ok((end, node)) ==> pos < end <= toks.len() && is_arg_1(
            node,
            toks@,
            pos as nat,
        ),
    decreases toks.len() - pos, 55nat,
{
    proof {
        lemma_arg_1(toks@, pos as nat);
    }
    let (at1, first) = place(arena, parse_arg_2(toks, pos, arena))?;
    let (at2, rest) = many0_arg_1_next(toks, at1, arena)?;
    let node = Separated { first, rest };
    proof {
        lemma_is_arg_1(node, toks@, pos as nat);
    }
    Ok((at2, node))
}

/// Parse `Arg2` at `pos`; see [`spec_arg_2`].
pub fn parse_arg_2<'arena>(toks: &[Token], pos: usize, arena: &'arena Arena) -> (out: Parsed<
    Separated<'arena, Arg3<'arena>, WithFree<'arena, Word<'arena>>>,
>)
    requires
        pos <= toks.len(),
    ensures
        outcome(out, pos) == spec_arg_2(toks@, pos as nat),
        out matches Ok((end, node)) ==> pos < end <= toks.len() && is_arg_2(
            node,
            toks@,
            pos as nat,
        ),
    decreases toks.len() - pos, 52nat,
{
    proof {
        lemma_arg_2(toks@, pos as nat);
    }
    let (at1, first) = place(arena, parse_arg_3(toks, pos, arena))?;
    let (at2, rest) = many0_arg_2_next(toks, at1, arena)?;
    let node = Separated { first, rest };
    proof {
        lemma_is_arg_2(node, toks@, pos as nat);
    }
    Ok((at2, node))
}

/// Parse `Arg3` at `pos`; see [`spec_arg_3`].
pub fn parse_arg_3<'arena>(toks: &[Token], pos: usize, arena: &'arena Arena) -> (out: Parsed<
    Arg3<'arena>,
>)
    requires
        pos <= toks.len(),
    ensures
        outcome(out, pos) == spec_arg_3(toks@, pos as nat),
        out matches Ok((end, node)) ==> pos < end <= toks.len() && is_arg_3(
            node,
            toks@,
            pos as nat,
        ),
    decreases toks.len() - pos, 49nat,
{
    proof {
        lemma_arg_3(toks@, pos as nat);
        lemma_is_arg_3(toks@, pos as nat);
    }
    let tried = parse_arg_3_tag(toks, pos, arena);
    if settled(&tried) {
        return tried;
    }
    let error = error_of(tried);
    let tried = parse_arg_3_sumti(toks, pos, arena);
    if settled(&tried) {
        return tried;
    }
    let error = error.or(error_of(tried));
    let tried = parse_arg_3_naku(toks, pos, arena);
    if settled(&tried) {
        return tried;
    }
    let error = error.or(error_of(tried));
    let tried = parse_arg_3_termset(toks, pos, arena);
    if settled(&tried) {
        return tried;
    }
    let error = error.or(error_of(tried));
    Err(Failed { fatal: false, error })
}

/// Parse `Arg3Tag` at `pos`; see [`spec_arg_3_tag`].
pub fn parse_arg_3_tag<'arena>(toks: &[Token], pos: usize, arena: &'arena Arena) -> (out: Parsed<
    Arg3<'arena>,
>)
    requires
        pos <= toks.len(),
    ensures
        outcome(out, pos) == spec_arg_3_tag(toks@, pos as nat),
        out matches Ok((end, node)) ==> pos < end <= toks.len() && is_arg_3_tag(
            node,
            toks@,
            pos as nat,
        ),
    decreases toks.len() - pos, 48nat,
{
    proof {
        lemma_arg_3_tag(toks@, pos as nat);
    }
    let (at1, field_0) = parse_tag(toks, pos, arena)?;
    let node = Arg3::Tag(field_0);
    proof {
        lemma_is_arg_3_tag(node, toks@, pos as nat);
    }
    Ok((at1, node))
}

/// Parse `Tag` at `pos`; see [`spec_tag`].
pub fn parse_tag<'arena>(toks: &[Token], pos: usize, arena: &'arena Arena) -> (out: Parsed<
    Tag<'arena>,
>)
    requires
        pos <= toks.len(),
    ensures
        outcome(out, pos) == spec_tag(toks@, pos as nat),
        out matches Ok((end, node)) ==> pos < end <= toks.len() && is_tag(
            node,
            toks@,
            pos as nat,
        ),
    decreases toks.len() - pos, 47nat,
{
    proof {
        lemma_tag(toks@, pos as nat);
    }
    let (at1, words) = parse_tag_words(toks, pos, arena)?;
    not(at1, parse_gik(toks, at1, arena))?;
    not(at1, parse_word(toks, at1, arena, Selmaho::Ke))?;
    let (at2, value) = opt(at1, parse_tag_value(toks, at1, arena))?;
    let node = Tag { words, value };
    proof {
        lemma_is_tag(node, toks@, pos as nat);
    }
    Ok((at2, node))
}

/// Parse `TagWords` at `pos`; see [`spec_tag_words`].
pub fn parse_tag_words<'arena>(toks: &[Token], pos: usize, arena: &'arena Arena) -> (out: Parsed<
    Separated<'arena, TagWord<'arena>, JoikJek<'arena>>,
>)
    requires
        pos <= toks.len(),
    ensures
        outcome(out, pos) == spec_tag_words(toks@, pos as nat),
        out matches Ok((end, node)) ==> pos < end <= toks.len() && is_tag_words(
            node,
            toks@,
            pos as nat,
        ),
    decreases toks.len() - pos, 31nat,
{
    proof {
        lemma_tag_words(toks@, pos as nat);
    }
    let (at1, first) = place(arena, parse_tag_word(toks, pos, arena))?;
    let (at2, rest) = many0_tag_words_next(toks, at1, arena)?;
    let node = Separated { first, rest };
    proof {
        lemma_is_tag_words(node, toks@, pos as nat);
    }
    Ok((at2, node))
}

/// Parse `TagWord` at `pos`; see [`spec_tag_word`].
pub fn parse_tag_word<'arena>(toks: &[Token], pos: usize, arena: &'arena Arena) -> (out: Parsed<
    TagWord<'arena>,
>)
    requires
        pos <= toks.len(),
    ensures
        outcome(out, pos) == spec_tag_word(toks@, pos as nat),
        out matches Ok((end, node)) ==> pos < end <= toks.len() && is_tag_word(
            node,
            toks@,
            pos as nat,
        ),
    decreases toks.len() - pos, 28nat,
{
    proof {
        lemma_tag_word(toks@, pos as nat);
        lemma_is_tag_word(toks@, pos as nat);
    }
    let tried = parse_tag_word_bai(toks, pos, arena);
    if settled(&tried) {
        return tried;
    }
    let error = error_of(tried);
    let tried = parse_tag_word_time_space_caha(toks, pos, arena);
    if settled(&tried) {
        return tried;
    }
    let error = error.or(error_of(tried));
    let tried = parse_tag_word_ki(toks, pos, arena);
    if settled(&tried) {
        return tried;
    }
    let error = error.or(error_of(tried));
    let tried = parse_tag_word_cuhe(toks, pos, arena);
    if settled(&tried) {
        return tried;
    }
    let error = error.or(error_of(tried));
    let tried = parse_tag_word_converted(toks, pos, arena);
    if settled(&tried) {
        return tried;
    }
    let error = error.or(error_of(tried));
    Err(Failed { fatal: false, error })
}

/// Parse `TagWordBai` at `pos`; see [`spec_tag_word_bai`].
pub fn parse_tag_word_bai<'arena>(
    toks: &[Token],
    pos: usize,
    arena: &'arena Arena,
) -> (out: Parsed<
    TagWord<'arena>,
>)
    requires
        pos <= toks.len(),
    ensures
        outcome(out, pos) == spec_tag_word_bai(toks@, pos as nat),
        out matches Ok((end, node)) ==> pos < end <= toks.len() && is_tag_word_bai(
            node,
            toks@,
            pos as nat,
        ),
    decreases toks.len() - pos, 25nat,
{
    proof {
        lemma_tag_word_bai(toks@, pos as nat);
    }
    let (at1, nahe) = opt(pos, parse_word(toks, pos, arena, Selmaho::Nahe))?;
    let (at2, se) = opt(at1, parse_word(toks, at1, arena, Selmaho::Se))?;
    let (at3, bai) = parse_word(toks, at2, arena, Selmaho::Bai)?;
    let (at4, nai) = opt(at3, parse_word(toks, at3, arena, Selmaho::Nai))?;
    let (at5, ki) = opt(at4, parse_word(toks, at4, arena, Selmaho::Ki))?;
    let (at6, frees) = parse_frees(toks, at5, arena)?;
    let node = TagWord::Bai { nahe, se, bai, nai, ki, frees };
    proof {
        lemma_is_tag_word_bai(node, toks@, pos as nat);
    }
    Ok((at6, node))
}

/// Parse `TagWordTimeSpaceCaha` at `pos`; see [`spec_tag_word_time_space_caha`].
pub fn parse_tag_word_time_space_caha<'arena>(
    toks: &[Token],
    pos: usize,
    arena: &'arena Arena,
) -> (out: Parsed<
    TagWord<'arena>,
>)
    requires
        pos <= toks.len(),
    ensures
        outcome(out, pos) == spec_tag_word_time_space_caha(toks@, pos as nat),
        out matches Ok((end, node)) ==> pos < end <= toks.len() && is_tag_word_time_space_caha(
            node,
            toks@,
            pos as nat,
        ),
    decreases toks.len() - pos, 27nat,
{
    proof {
        lemma_tag_word_time_space_caha(toks@, pos as nat);
    }
    let (at1, nahe) = opt(pos, parse_word(toks, pos, arena, Selmaho::Nahe))?;
    let (at2, inner) = many1_time_space_caha(toks, at1, arena)?;
    let (at3, ki) = opt(at2, parse_word(toks, at2, arena, Selmaho::Ki))?;
    let (at4, frees) = parse_frees(toks, at3, arena)?;
    let node = TagWord::TimeSpaceCaha { nahe, inner, ki, frees };
    proof {
        lemma_is_tag_word_time_space_caha(node, toks@, pos as nat);
    }
    Ok((at4, node))
}

/// Parse `TimeSpaceCaha` at `pos`; see [`spec_time_space_caha`].
pub fn parse_time_space_caha<'arena>(
    toks: &[Token],
    pos: usize,
    arena: &'arena Arena,
) -> (out: Parsed<
    TimeSpaceCaha<'arena>,
>)
    requires
        pos <= toks.len(),
    ensures
        outcome(out, pos) == spec_time_space_caha(toks@, pos as nat),
        out matches Ok((end, node)) ==> pos < end <= toks.len() && is_time_space_caha(
            node,
            toks@,
            pos as nat,
        ),
    decreases toks.len() - pos, 25nat,
{
    proof {
        lemma_time_space_caha(toks@, pos as nat);
        lemma_is_time_space_caha(toks@, pos as nat);
    }
    let tried = parse_time_space_caha_time(toks, pos, arena);
    if settled(&tried) {
        return tried;
    }
    let error = error_of(tried);
    let tried = parse_time_space_caha_space(toks, pos, arena);
    if settled(&tried) {
        return tried;
    }
    let error = error.or(error_of(tried));
    let tried = parse_time_space_caha_caha(toks, pos, arena);
    if settled(&tried) {
        return tried;
    }
    let error = error.or(error_of(tried));
    Err(Failed { fatal: false, error })
}

/// Parse `TimeSpaceCaha` from `pos` on as often as it matches, and at least once;
/// see [`spec_many1_time_space_caha`].
pub fn many1_time_space_caha<'arena>(
    toks: &[Token],
    pos: usize,
    arena: &'arena Arena,
) -> (out: Parsed<
    &'arena [TimeSpaceCaha<'arena>],
>)
    requires
        pos <= toks.len(),
    ensures
        outcome(out, pos) == spec_many1_time_space_caha(toks@, pos as nat),
        out matches Ok((end, items)) ==> pos < end <= toks.len() && items@.len() > 0 && is_row_of_time_space_caha(
            items@,
            toks@,
            pos as nat,
        ),
    decreases toks.len() - pos, 26nat,
{
    proof {
        lemma_many1_time_space_caha(toks@, pos as nat);
    }
    let mut items: Vec<TimeSpaceCaha<'arena>> = Vec::new();
    let (first_end, first) = parse_time_space_caha(toks, pos, arena)?;
    items.push(first);
    let mut at: usize = first_end;
    assert(run_of_time_space_caha(toks@, pos as nat, 0) == 0);
    loop
        invariant
            pos <= at <= toks.len(),
            items@.len() > 0,
            at == pos + run_of_time_space_caha(toks@, pos as nat, items@.len()),
            forall|i: int|
                #![trigger items@[i]]
                #![trigger run_of_time_space_caha(toks@, pos as nat, i as nat)]
                0 <= i < items@.len() ==> spec_time_space_caha(
                    toks@,
                    pos as nat + run_of_time_space_caha(toks@, pos as nat, i as nat),
                ) is Matched && is_time_space_caha(
                    items@[i],
                    toks@,
                    pos as nat + run_of_time_space_caha(toks@, pos as nat, i as nat),
                ),
            at == pos ==> spec_time_space_caha(toks@, pos as nat) == Outcome::Matched(0),
            at > pos ==> shifted(
                spec_many1_time_space_caha_more(toks@, at as nat),
                (at - pos) as nat,
            )
                == spec_many1_time_space_caha(toks@, pos as nat),
            at == pos ==> spec_many1_time_space_caha(toks@, pos as nat) == Outcome::Error(
                combinator_at(pos as nat, ErrorKind::Many1),
            ),
        decreases toks.len() - at,
    {
        proof {
            lemma_many1_time_space_caha(toks@, at as nat);
        }
        match parse_time_space_caha(toks, at, arena) {
            Ok((end, item)) => {
                if end == at {
                    return fail(Error::Combinator(ErrorKind::Many1), at);
                }
                items.push(item);
                at = end;
            },
            Err(failed) => {
                if failed.fatal {
                    return Err(failed);
                }
                proof {
                    lemma_is_row_of_time_space_caha(items@, toks@, pos as nat);
                }
                return Ok((at, keep_all(arena, items)));
            },
        }
    }
}

/// Parse `TimeSpaceCahaTime` at `pos`; see [`spec_time_space_caha_time`].
pub fn parse_time_space_caha_time<'arena>(
    toks: &[Token],
    pos: usize,
    arena: &'arena Arena,
) -> (out: Parsed<
    TimeSpaceCaha<'arena>,
>)
    requires
        pos <= toks.len(),
    ensures
        outcome(out, pos) == spec_time_space_caha_time(toks@, pos as nat),
        out matches Ok((end, node)) ==> pos < end <= toks.len() && is_time_space_caha_time(
            node,
            toks@,
            pos as nat,
        ),
    decreases toks.len() - pos, 21nat,
{
    proof {
        lemma_time_space_caha_time(toks@, pos as nat);
    }
    let (at1, field_0) = place(arena, parse_time(toks, pos, arena))?;
    let node = TimeSpaceCaha::Time(field_0);
    proof {
        lemma_is_time_space_caha_time(node, toks@, pos as nat);
    }
    Ok((at1, node))
}

/// Parse `Time` at `pos`; see [`spec_time`].
pub fn parse_time<'arena>(toks: &[Token], pos: usize, arena: &'arena Arena) -> (out: Parsed<
    Time<'arena>,
>)
    requires
        pos <= toks.len(),
    ensures
        outcome(out, pos) == spec_time(toks@, pos as nat),
        out matches Ok((end, node)) ==> pos < end <= toks.len() && is_time(
            node,
            toks@,
            pos as nat,
        ),
    decreases toks.len() - pos, 20nat,
{
    proof {
        lemma_time(toks@, pos as nat);
    }
    let (at1, zi) = opt(pos, parse_word(toks, pos, arena, Selmaho::Zi))?;
    let (at2, offset) = many0_time_offset(toks, at1, arena)?;
    let (at3, duration) = opt(at2, parse_time_duration(toks, at2, arena))?;
    let (at4, properties) = many0_interval_property(toks, at3, arena)?;
    if !(zi.is_some() || offset.len() > 0 || duration.is_some() || properties.len() > 0) {
        return fail(Error::PostConditionFailed("a time without any part"), pos);
    }
    let node = Time { zi, offset, duration, properties };
    proof {
        lemma_is_time(node, toks@, pos as nat);
    }
    Ok((at4, node))
}

/// Parse `TimeOffset` at `pos`; see [`spec_time_offset`].
pub fn parse_time_offset<'arena>(
    toks: &[Token],
    pos: usize,
    arena: &'arena Arena,
) -> (out: Parsed<
    TimeOffset<'arena>,
>)
    requires
        pos <= toks.len(),
    ensures
        outcome(out, pos) == spec_time_offset(toks@, pos as nat),
        out matches Ok((end, node)) ==> pos < end <= toks.len() && is_time_offset(
            node,
            toks@,
            pos as nat,
        ),
    decreases toks.len() - pos, 3nat,
{
    proof {
        lemma_time_offset(toks@, pos as nat);
    }
    let (at1, pu) = parse_word(toks, pos, arena, Selmaho::Pu)?;
    let (at2, nai) = opt(at1, parse_word(toks, at1, arena, Selmaho::Nai))?;
    let (at3, zi) = opt(at2, parse_word(toks, at2, arena, Selmaho::Zi))?;
    let node = TimeOffset { pu, nai, zi };
    proof {
        lemma_is_time_offset(node, toks@, pos as nat);
    }
    Ok((at3, node))
}

/// Parse `TimeOffset` from `pos` on as often as it matches; see [`spec_many0_time_offset`].
pub fn many0_time_offset<'arena>(
    toks: &[Token],
    pos: usize,
    arena: &'arena Arena,
) -> (out: Parsed<
    &'arena [TimeOffset<'arena>],
>)
    requires
        pos <= toks.len(),
    ensures
        outcome(out, pos) == spec_many0_time_offset(toks@, pos as nat),
        out matches Ok((end, items)) ==> pos <= end <= toks.len() && (items@.len() == 0 <==> end
            == pos) && is_row_of_time_offset(items@, toks@, pos as nat),
    decreases toks.len() - pos, 4nat,
{
    let mut items: Vec<TimeOffset<'arena>> = Vec::new();
    let mut at: usize = pos;
    loop
        invariant
            pos <= at <= toks.len(),
            items@.len() == 0 <==> at == pos,
            at == pos + run_of_time_offset(toks@, pos as nat, items@.len()),
            forall|i: int|
                #![trigger items@[i]]
                #![trigger run_of_time_offset(toks@, pos as nat, i as nat)]
                0 <= i < items@.len() ==> spec_time_offset(
                    toks@,
                    pos as nat + run_of_time_offset(toks@, pos as nat, i as nat),
                ) is Matched && is_time_offset(
                    items@[i],
                    toks@,
                    pos as nat + run_of_time_offset(toks@, pos as nat, i as nat),
                ),
            shifted(
                spec_many0_time_offset(toks@, at as nat),
                (at - pos) as nat,
            ) == spec_many0_time_offset(
                toks@,
                pos as nat,
            ),
        decreases toks.len() - at,
    {
        proof {
            lemma_many0_time_offset(toks@, at as nat);
        }
        match parse_time_offset(toks, at, arena) {
            Ok((end, item)) => {
                if end == at {
                    return fail(Error::Combinator(ErrorKind::Many0), at);
                }
                items.push(item);
                at = end;
            },
            Err(failed) => {
                if failed.fatal {
                    return Err(failed);
                }
                proof {
                    lemma_is_row_of_time_offset(items@, toks@, pos as nat);
                }
                return Ok((at, keep_all(arena, items)));
            },
        }
    }
}

/// Parse `TimeDuration` at `pos`; see [`spec_time_duration`].
pub fn parse_time_duration<'arena>(
    toks: &[Token],
    pos: usize,
    arena: &'arena Arena,
) -> (out: Parsed<
    TimeDuration<'arena>,
>)
    requires
        pos <= toks.len(),
    ensures
        outcome(out, pos) == spec_time_duration(toks@, pos as nat),
        out matches Ok((end, node)) ==> pos < end <= toks.len() && is_time_duration(
            node,
            toks@,
            pos as nat,
        ),
    decreases toks.len() - pos, 4nat,
{
    proof {
        lemma_time_duration(toks@, pos as nat);
    }
    let (at1, zeha) = parse_word(toks, pos, arena, Selmaho::Zeha)?;
    let (at2, anchor) = opt(at1, parse_pu_nai(toks, at1, arena))?;
    let node = TimeDuration { zeha, anchor };
    proof {
        lemma_is_time_duration(node, toks@, pos as nat);
    }
    Ok((at2, node))
}

/// Parse `PuNai` at `pos`; see [`spec_pu_nai`].
pub fn parse_pu_nai<'arena>(toks: &[Token], pos: usize, arena: &'arena Arena) -> (out: Parsed<
    (Word<'arena>, Option<Word<'arena>>),
>)
    requires
        pos <= toks.len(),
    ensures
        outcome(out, pos) == spec_pu_nai(toks@, pos as nat),
        out matches Ok((end, node)) ==> pos < end <= toks.len() && is_pu_nai(
            node,
            toks@,
            pos as nat,
        ),
    decreases toks.len() - pos, 3nat,
{
    proof {
        lemma_pu_nai(toks@, pos as nat);
    }
    let (at1, item_0) = parse_word(toks, pos, arena, Selmaho::Pu)?;
    let (at2, item_1) = opt(at1, parse_word(toks, at1, arena, Selmaho::Nai))?;
    let node = (item_0, item_1);
    proof {
        lemma_is_pu_nai(node, toks@, pos as nat);
    }
    Ok((at2, node))
}

/// Parse `IntervalProperty` at `pos`; see [`spec_interval_property`].
pub fn parse_interval_property<'arena>(
    toks: &[Token],
    pos: usize,
    arena: &'arena Arena,
) -> (out: Parsed<
    IntervalProperty<'arena>,
>)
    requires
        pos <= toks.len(),
    ensures
        outcome(out, pos) == spec_interval_property(toks@, pos as nat),
        out matches Ok((end, node)) ==> pos < end <= toks.len() && is_interval_property(
            node,
            toks@,
            pos as nat,
        ),
    decreases toks.len() - pos, 18nat,
{
    proof {
        lemma_interval_property(toks@, pos as nat);
        lemma_is_interval_property(toks@, pos as nat);
    }
    let tried = parse_interval_property_roi(toks, pos, arena);
    if settled(&tried) {
        return tried;
    }
    let error = error_of(tried);
    let tried = parse_interval_property_tahe(toks, pos, arena);
    if settled(&tried) {
        return tried;
    }
    let error = error.or(error_of(tried));
    let tried = parse_interval_property_zaho(toks, pos, arena);
    if settled(&tried) {
        return tried;
    }
    let error = error.or(error_of(tried));
    Err(Failed { fatal: false, error })
}

/// Parse `IntervalProperty` from `pos` on as often as it matches; see [`spec_many0_interval_property`].
pub fn many0_interval_property<'arena>(
    toks: &[Token],
    pos: usize,
    arena: &'arena Arena,
) -> (out: Parsed<
    &'arena [IntervalProperty<'arena>],
>)
    requires
        pos <= toks.len(),
    ensures
        outcome(out, pos) == spec_many0_interval_property(toks@, pos as nat),
        out matches Ok((end, items)) ==> pos <= end <= toks.len() && (items@.len() == 0 <==> end
            == pos) && is_row_of_interval_property(items@, toks@, pos as nat),
    decreases toks.len() - pos, 19nat,
{
    let mut items: Vec<IntervalProperty<'arena>> = Vec::new();
    let mut at: usize = pos;
    loop
        invariant
            pos <= at <= toks.len(),
            items@.len() == 0 <==> at == pos,
            at == pos + run_of_interval_property(toks@, pos as nat, items@.len()),
            forall|i: int|
                #![trigger items@[i]]
                #![trigger run_of_interval_property(toks@, pos as nat, i as nat)]
                0 <= i < items@.len() ==> spec_interval_property(
                    toks@,
                    pos as nat + run_of_interval_property(toks@, pos as nat, i as nat),
                ) is Matched && is_interval_property(
                    items@[i],
                    toks@,
                    pos as nat + run_of_interval_property(toks@, pos as nat, i as nat),
                ),
            shifted(
                spec_many0_interval_property(toks@, at as nat),
                (at - pos) as nat,
            ) == spec_many0_interval_property(
                toks@,
                pos as nat,
            ),
        decreases toks.len() - at,
    {
        proof {
            lemma_many0_interval_property(toks@, at as nat);
        }
        match parse_interval_property(toks, at, arena) {
            Ok((end, item)) => {
                if end == at {
                    return fail(Error::Combinator(ErrorKind::Many0), at);
                }
                items.push(item);
                at = end;
            },
            Err(failed) => {
                if failed.fatal {
                    return Err(failed);
                }
                proof {
                    lemma_is_row_of_interval_property(items@, toks@, pos as nat);
                }
                return Ok((at, keep_all(arena, items)));
            },
        }
    }
}

/// Parse `IntervalPropertyRoi` at `pos`; see [`spec_interval_property_roi`].
pub fn parse_interval_property_roi<'arena>(
    toks: &[Token],
    pos: usize,
    arena: &'arena Arena,
) -> (out: Parsed<
    IntervalProperty<'arena>,
>)
    requires
        pos <= toks.len(),
    ensures
        outcome(out, pos) == spec_interval_property_roi(toks@, pos as nat),
        out matches Ok((end, node)) ==> pos < end <= toks.len() && is_interval_property_roi(
            node,
            toks@,
            pos as nat,
        ),
    decreases toks.len() - pos, 17nat,
{
    proof {
        lemma_interval_property_roi(toks@, pos as nat);
    }
    let (at1, field_0) = parse_number(toks, pos, arena)?;
    let (at2, field_1) = parse_word(toks, at1, arena, Selmaho::Roi)?;
    let (at3, field_2) = opt(at2, parse_word(toks, at2, arena, Selmaho::Nai))?;
    let node = IntervalProperty::Roi(field_0, field_1, field_2);
    proof {
        lemma_is_interval_property_roi(node, toks@, pos as nat);
    }
    Ok((at3, node))
}

/// Parse `Number` at `pos`; see [`spec_number`].
pub fn parse_number<'arena>(toks: &[Token], pos: usize, arena: &'arena Arena) -> (out: Parsed<
    Number<'arena>,
>)
    requires
        pos <= toks.len(),
    ensures
        outcome(out, pos) == spec_number(toks@, pos as nat),
        out matches Ok((end, node)) ==> pos < end <= toks.len() && is_number(
            node,
            toks@,
            pos as nat,
        ),
    decreases toks.len() - pos, 16nat,
{
    proof {
        lemma_number(toks@, pos as nat);
    }
    let (at1, first) = parse_word(toks, pos, arena, Selmaho::Pa)?;
    let (at2, rest) = many0_number_rest(toks, at1, arena)?;
    let node = Number { first, rest };
    proof {
        lemma_is_number(node, toks@, pos as nat);
    }
    Ok((at2, node))
}

/// Parse `NumberRest` at `pos`; see [`spec_number_rest`].
pub fn parse_number_rest<'arena>(
    toks: &[Token],
    pos: usize,
    arena: &'arena Arena,
) -> (out: Parsed<
    NumberRest<'arena>,
>)
    requires
        pos <= toks.len(),
    ensures
        outcome(out, pos) == spec_number_rest(toks@, pos as nat),
        out matches Ok((end, node)) ==> pos < end <= toks.len() && is_number_rest(
            node,
            toks@,
            pos as nat,
        ),
    decreases toks.len() - pos, 14nat,
{
    proof {
        lemma_number_rest(toks@, pos as nat);
        lemma_is_number_rest(toks@, pos as nat);
    }
    let tried = parse_number_rest_pa(toks, pos, arena);
    if settled(&tried) {
        return tried;
    }
    let error = error_of(tried);
    let tried = parse_number_rest_lerfu(toks, pos, arena);
    if settled(&tried) {
        return tried;
    }
    let error = error.or(error_of(tried));
    Err(Failed { fatal: false, error })
}

/// Parse `NumberRest` from `pos` on as often as it matches; see [`spec_many0_number_rest`].
pub fn many0_number_rest<'arena>(
    toks: &[Token],
    pos: usize,
    arena: &'arena Arena,
) -> (out: Parsed<
    &'arena [NumberRest<'arena>],
>)
    requires
        pos <= toks.len(),
    ensures
        outcome(out, pos) == spec_many0_number_rest(toks@, pos as nat),
        out matches Ok((end, items)) ==> pos <= end <= toks.len() && (items@.len() == 0 <==> end
            == pos) && is_row_of_number_rest(items@, toks@, pos as nat),
    decreases toks.len() - pos, 15nat,
{
    let mut items: Vec<NumberRest<'arena>> = Vec::new();
    let mut at: usize = pos;
    loop
        invariant
            pos <= at <= toks.len(),
            items@.len() == 0 <==> at == pos,
            at == pos + run_of_number_rest(toks@, pos as nat, items@.len()),
            forall|i: int|
                #![trigger items@[i]]
                #![trigger run_of_number_rest(toks@, pos as nat, i as nat)]
                0 <= i < items@.len() ==> spec_number_rest(
                    toks@,
                    pos as nat + run_of_number_rest(toks@, pos as nat, i as nat),
                ) is Matched && is_number_rest(
                    items@[i],
                    toks@,
                    pos as nat + run_of_number_rest(toks@, pos as nat, i as nat),
                ),
            shifted(
                spec_many0_number_rest(toks@, at as nat),
                (at - pos) as nat,
            ) == spec_many0_number_rest(
                toks@,
                pos as nat,
            ),
        decreases toks.len() - at,
    {
        proof {
            lemma_many0_number_rest(toks@, at as nat);
        }
        match parse_number_rest(toks, at, arena) {
            Ok((end, item)) => {
                if end == at {
                    return fail(Error::Combinator(ErrorKind::Many0), at);
                }
                items.push(item);
                at = end;
            },
            Err(failed) => {
                if failed.fatal {
                    return Err(failed);
                }
                proof {
                    lemma_is_row_of_number_rest(items@, toks@, pos as nat);
                }
                return Ok((at, keep_all(arena, items)));
            },
        }
    }
}

/// Parse `NumberRest` from `pos` on as often as it matches, and at least once;
/// see [`spec_many1_number_rest`].
pub fn many1_number_rest<'arena>(
    toks: &[Token],
    pos: usize,
    arena: &'arena Arena,
) -> (out: Parsed<
    &'arena [NumberRest<'arena>],
>)
    requires
        pos <= toks.len(),
    ensures
        outcome(out, pos) == spec_many1_number_rest(toks@, pos as nat),
        out matches Ok((end, items)) ==> pos < end <= toks.len() && items@.len() > 0 && is_row_of_number_rest(
            items@,
            toks@,
            pos as nat,
        ),
    decreases toks.len() - pos, 15nat,
{
    proof {
        lemma_many1_number_rest(toks@, pos as nat);
    }
    let mut items: Vec<NumberRest<'arena>> = Vec::new();
    let (first_end, first) = parse_number_rest(toks, pos, arena)?;
    items.push(first);
    let mut at: usize = first_end;
    assert(run_of_number_rest(toks@, pos as nat, 0) == 0);
    loop
        invariant
            pos <= at <= toks.len(),
            items@.len() > 0,
            at == pos + run_of_number_rest(toks@, pos as nat, items@.len()),
            forall|i: int|
                #![trigger items@[i]]
                #![trigger run_of_number_rest(toks@, pos as nat, i as nat)]
                0 <= i < items@.len() ==> spec_number_rest(
                    toks@,
                    pos as nat + run_of_number_rest(toks@, pos as nat, i as nat),
                ) is Matched && is_number_rest(
                    items@[i],
                    toks@,
                    pos as nat + run_of_number_rest(toks@, pos as nat, i as nat),
                ),
            at == pos ==> spec_number_rest(toks@, pos as nat) == Outcome::Matched(0),
            at > pos ==> shifted(spec_many1_number_rest_more(toks@, at as nat), (at - pos) as nat)
                == spec_many1_number_rest(toks@, pos as nat),
            at == pos ==> spec_many1_number_rest(toks@, pos as nat) == Outcome::Error(
                combinator_at(pos as nat, ErrorKind::Many1),
            ),
        decreases toks.len() - at,
    {
        proof {
            lemma_many1_number_rest(toks@, at as nat);
        }
        match parse_number_rest(toks, at, arena) {
            Ok((end, item)) => {
                if end == at {
                    return fail(Error::Combinator(ErrorKind::Many1), at);
                }
                items.push(item);
                at = end;
            },
            Err(failed) => {
                if failed.fatal {
                    return Err(failed);
                }
                proof {
                    lemma_is_row_of_number_rest(items@, toks@, pos as nat);
                }
                return Ok((at, keep_all(arena, items)));
            },
        }
    }
}

/// Parse `NumberRestPa` at `pos`; see [`spec_number_rest_pa`].
pub fn parse_number_rest_pa<'arena>(
    toks: &[Token],
    pos: usize,
    arena: &'arena Arena,
) -> (out: Parsed<
    NumberRest<'arena>,
>)
    requires
        pos <= toks.len(),
    ensures
        outcome(out, pos) == spec_number_rest_pa(toks@, pos as nat),
        out matches Ok((end, node)) ==> pos < end <= toks.len() && is_number_rest_pa(
            node,
            toks@,
            pos as nat,
        ),
    decreases toks.len() - pos, 3nat,
{
    proof {
        lemma_number_rest_pa(toks@, pos as nat);
    }
    let (at1, field_0) = parse_word(toks, pos, arena, Selmaho::Pa)?;
    let node = NumberRest::Pa(field_0);
    proof {
        lemma_is_number_rest_pa(node, toks@, pos as nat);
    }
    Ok((at1, node))
}

/// Parse `NumberRestLerfu` at `pos`; see [`spec_number_rest_lerfu`].
pub fn parse_number_rest_lerfu<'arena>(
    toks: &[Token],
    pos: usize,
    arena: &'arena Arena,
) -> (out: Parsed<
    NumberRest<'arena>,
>)
    requires
        pos <= toks.len(),
    ensures
        outcome(out, pos) == spec_number_rest_lerfu(toks@, pos as nat),
        out matches Ok((end, node)) ==> pos < end <= toks.len() && is_number_rest_lerfu(
            node,
            toks@,
            pos as nat,
        ),
    decreases toks.len() - pos, 13nat,
{
    proof {
        lemma_number_rest_lerfu(toks@, pos as nat);
    }
    let (at1, field_0) = parse_lerfu_word(toks, pos, arena)?;
    let node = NumberRest::Lerfu(field_0);
    proof {
        lemma_is_number_rest_lerfu(node, toks@, pos as nat);
    }
    Ok((at1, node))
}

/// Parse `LerfuWord` at `pos`; see [`spec_lerfu_word`].
pub fn parse_lerfu_word<'arena>(toks: &[Token], pos: usize, arena: &'arena Arena) -> (out: Parsed<
    LerfuWord<'arena>,
>)
    requires
        pos <= toks.len(),
    ensures
        outcome(out, pos) == spec_lerfu_word(toks@, pos as nat),
        out matches Ok((end, node)) ==> pos < end <= toks.len() && is_lerfu_word(
            node,
            toks@,
            pos as nat,
        ),
    decreases toks.len() - pos, 12nat,
{
    proof {
        lemma_lerfu_word(toks@, pos as nat);
        lemma_is_lerfu_word(toks@, pos as nat);
    }
    let tried = parse_lerfu_word_lerfu(toks, pos, arena);
    if settled(&tried) {
        return tried;
    }
    let error = error_of(tried);
    let tried = parse_lerfu_word_lau(toks, pos, arena);
    if settled(&tried) {
        return tried;
    }
    let error = error.or(error_of(tried));
    let tried = parse_lerfu_word_tei(toks, pos, arena);
    if settled(&tried) {
        return tried;
    }
    let error = error.or(error_of(tried));
    Err(Failed { fatal: false, error })
}

/// Parse `LerfuWordLerfu` at `pos`; see [`spec_lerfu_word_lerfu`].
pub fn parse_lerfu_word_lerfu<'arena>(
    toks: &[Token],
    pos: usize,
    arena: &'arena Arena,
) -> (out: Parsed<
    LerfuWord<'arena>,
>)
    requires
        pos <= toks.len(),
    ensures
        outcome(out, pos) == spec_lerfu_word_lerfu(toks@, pos as nat),
        out matches Ok((end, node)) ==> pos < end <= toks.len() && is_lerfu_word_lerfu(
            node,
            toks@,
            pos as nat,
        ),
    decreases toks.len() - pos, 11nat,
{
    proof {
        lemma_lerfu_word_lerfu(toks@, pos as nat);
    }
    let (at1, field_0) = parse_lerfu(toks, pos, arena)?;
    let node = LerfuWord::Lerfu(field_0);
    proof {
        lemma_is_lerfu_word_lerfu(node, toks@, pos as nat);
    }
    Ok((at1, node))
}

/// Parse `Lerfu` at `pos`; see [`spec_lerfu`].
pub fn parse_lerfu<'arena>(toks: &[Token], pos: usize, arena: &'arena Arena) -> (out: Parsed<
    Lerfu<'arena>,
>)
    requires
        pos <= toks.len(),
    ensures
        outcome(out, pos) == spec_lerfu(toks@, pos as nat),
        out matches Ok((end, node)) ==> pos < end <= toks.len() && is_lerfu(
            node,
            toks@,
            pos as nat,
        ),
    decreases toks.len() - pos, 10nat,
{
    proof {
        lemma_lerfu(toks@, pos as nat);
        lemma_is_lerfu(toks@, pos as nat);
    }
    let tried = parse_lerfu_bu(toks, pos, arena);
    if settled(&tried) {
        return tried;
    }
    let error = error_of(tried);
    let tried = parse_lerfu_by(toks, pos, arena);
    if settled(&tried) {
        return tried;
    }
    let error = error.or(error_of(tried));
    Err(Failed { fatal: false, error })
}

/// Parse `LerfuBu` at `pos`; see [`spec_lerfu_bu`].
pub fn parse_lerfu_bu<'arena>(toks: &[Token], pos: usize, arena: &'arena Arena) -> (out: Parsed<
    Lerfu<'arena>,
>)
    requires
        pos <= toks.len(),
    ensures
        outcome(out, pos) == spec_lerfu_bu(toks@, pos as nat),
        out matches Ok((end, node)) ==> pos < end <= toks.len() && is_lerfu_bu(
            node,
            toks@,
            pos as nat,
        ),
    decreases toks.len() - pos, 9nat,
{
    proof {
        lemma_lerfu_bu(toks@, pos as nat);
    }
    let (at1, field_0) = opt(pos, parse_bahe(toks, pos, arena))?;
    let (at2, field_1) = parse_bu_lerfu(toks, at1, arena)?;
    let (at3, field_2) = many1_bu(toks, at2, arena)?;
    let (at4, field_3) = many0_indicators(toks, at3, arena)?;
    let node = Lerfu::Bu(field_0, field_1, field_2, field_3);
    proof {
        lemma_is_lerfu_bu(node, toks@, pos as nat);
    }
    Ok((at4, node))
}

/// Parse the word before `bu`; see [`spec_bu_lerfu`].
pub fn parse_bu_lerfu<'arena>(toks: &[Token], pos: usize, arena: &'arena Arena) -> (out: Parsed<
    BuLerfu,
>)
    requires
        pos <= toks.len(),
    ensures
        outcome(out, pos) == spec_bu_lerfu(toks@, pos as nat),
        out matches Ok((end, node)) ==> pos < end <= toks.len() && is_bu_lerfu(
            node,
            toks@,
            pos as nat,
        ),
{
    let (end, word) = token(toks, pos)?;
    let selmaho = word.selmaho;
    if selmaho == Selmaho::Bu || selmaho == Selmaho::Zei || selmaho == Selmaho::Si || selmaho
        == Selmaho::Su || selmaho == Selmaho::Sa || selmaho == Selmaho::Faho {
        return fail(Error::PostConditionFailed("a word that takes no bu"), pos);
    }
    Ok((end, BuLerfu(word)))
}

/// Parse `LerfuBy` at `pos`; see [`spec_lerfu_by`].
pub fn parse_lerfu_by<'arena>(toks: &[Token], pos: usize, arena: &'arena Arena) -> (out: Parsed<
    Lerfu<'arena>,
>)
    requires
        pos <= toks.len(),
    ensures
        outcome(out, pos) == spec_lerfu_by(toks@, pos as nat),
        out matches Ok((end, node)) ==> pos < end <= toks.len() && is_lerfu_by(
            node,
            toks@,
            pos as nat,
        ),
    decreases toks.len() - pos, 3nat,
{
    proof {
        lemma_lerfu_by(toks@, pos as nat);
    }
    let (at1, field_0) = parse_word(toks, pos, arena, Selmaho::By)?;
    let node = Lerfu::By(field_0);
    proof {
        lemma_is_lerfu_by(node, toks@, pos as nat);
    }
    Ok((at1, node))
}

/// Parse `LerfuWordLau` at `pos`; see [`spec_lerfu_word_lau`].
pub fn parse_lerfu_word_lau<'arena>(
    toks: &[Token],
    pos: usize,
    arena: &'arena Arena,
) -> (out: Parsed<
    LerfuWord<'arena>,
>)
    requires
        pos <= toks.len(),
    ensures
        outcome(out, pos) == spec_lerfu_word_lau(toks@, pos as nat),
        out matches Ok((end, node)) ==> pos < end <= toks.len() && is_lerfu_word_lau(
            node,
            toks@,
            pos as nat,
        ),
    decreases toks.len() - pos, 11nat,
{
    proof {
        lemma_lerfu_word_lau(toks@, pos as nat);
    }
    let (at1, lau) = parse_word(toks, pos, arena, Selmaho::Lau)?;
    let (at2, lerfu) = parse_lerfu(toks, at1, arena)?;
    let node = LerfuWord::Lau { lau, lerfu };
    proof {
        lemma_is_lerfu_word_lau(node, toks@, pos as nat);
    }
    Ok((at2, node))
}

/// Parse `LerfuWordTei` at `pos`; see [`spec_lerfu_word_tei`].
pub fn parse_lerfu_word_tei<'arena>(
    toks: &[Token],
    pos: usize,
    arena: &'arena Arena,
) -> (out: Parsed<
    LerfuWord<'arena>,
>)
    requires
        pos <= toks.len(),
    ensures
        outcome(out, pos) == spec_lerfu_word_tei(toks@, pos as nat),
        out matches Ok((end, node)) ==> pos < end <= toks.len() && is_lerfu_word_tei(
            node,
            toks@,
            pos as nat,
        ),
    decreases toks.len() - pos, 3nat,
{
    proof {
        lemma_lerfu_word_tei(toks@, pos as nat);
    }
    let (at1, tei) = parse_word(toks, pos, arena, Selmaho::Tei)?;
    let (at2, inner) = place(arena, parse_lerfu_string(toks, at1, arena))?;
    let (at3, foi) = cut(at2, parse_word(toks, at2, arena, Selmaho::Foi))?;
    let node = LerfuWord::Tei { tei, inner, foi };
    proof {
        lemma_is_lerfu_word_tei(node, toks@, pos as nat);
    }
    Ok((at3, node))
}

/// Parse `LerfuString` at `pos`; see [`spec_lerfu_string`].
pub fn parse_lerfu_string<'arena>(
    toks: &[Token],
    pos: usize,
    arena: &'arena Arena,
) -> (out: Parsed<
    LerfuString<'arena>,
>)
    requires
        pos <= toks.len(),
    ensures
        outcome(out, pos) == spec_lerfu_string(toks@, pos as nat),
        out matches Ok((end, node)) ==> pos < end <= toks.len() && is_lerfu_string(
            node,
            toks@,
            pos as nat,
        ),
    decreases toks.len() - pos, 16nat,
{
    proof {
        lemma_lerfu_string(toks@, pos as nat);
    }
    let (at1, first) = parse_lerfu_word(toks, pos, arena)?;
    let (at2, rest) = many0_number_rest(toks, at1, arena)?;
    let node = LerfuString { first, rest };
    proof {
        lemma_is_lerfu_string(node, toks@, pos as nat);
    }
    Ok((at2, node))
}

/// Parse `IntervalPropertyTahe` at `pos`; see [`spec_interval_property_tahe`].
pub fn parse_interval_property_tahe<'arena>(
    toks: &[Token],
    pos: usize,
    arena: &'arena Arena,
) -> (out: Parsed<
    IntervalProperty<'arena>,
>)
    requires
        pos <= toks.len(),
    ensures
        outcome(out, pos) == spec_interval_property_tahe(toks@, pos as nat),
        out matches Ok((end, node)) ==> pos < end <= toks.len() && is_interval_property_tahe(
            node,
            toks@,
            pos as nat,
        ),
    decreases toks.len() - pos, 3nat,
{
    proof {
        lemma_interval_property_tahe(toks@, pos as nat);
    }
    let (at1, field_0) = parse_word(toks, pos, arena, Selmaho::Tahe)?;
    let (at2, field_1) = opt(at1, parse_word(toks, at1, arena, Selmaho::Nai))?;
    let node = IntervalProperty::Tahe(field_0, field_1);
    proof {
        lemma_is_interval_property_tahe(node, toks@, pos as nat);
    }
    Ok((at2, node))
}

/// Parse `IntervalPropertyZaho` at `pos`; see [`spec_interval_property_zaho`].
pub fn parse_interval_property_zaho<'arena>(
    toks: &[Token],
    pos: usize,
    arena: &'arena Arena,
) -> (out: Parsed<
    IntervalProperty<'arena>,
>)
    requires
        pos <= toks.len(),
    ensures
        outcome(out, pos) == spec_interval_property_zaho(toks@, pos as nat),
        out matches Ok((end, node)) ==> pos < end <= toks.len() && is_interval_property_zaho(
            node,
            toks@,
            pos as nat,
        ),
    decreases toks.len() - pos, 3nat,
{
    proof {
        lemma_interval_property_zaho(toks@, pos as nat);
    }
    let (at1, field_0) = parse_word(toks, pos, arena, Selmaho::Zaho)?;
    let (at2, field_1) = opt(at1, parse_word(toks, at1, arena, Selmaho::Nai))?;
    let node = IntervalProperty::Zaho(field_0, field_1);
    proof {
        lemma_is_interval_property_zaho(node, toks@, pos as nat);
    }
    Ok((at2, node))
}

/// Parse `TimeSpaceCahaSpace` at `pos`; see [`spec_time_space_caha_space`].
pub fn parse_time_space_caha_space<'arena>(
    toks: &[Token],
    pos: usize,
    arena: &'arena Arena,
) -> (out: Parsed<
    TimeSpaceCaha<'arena>,
>)
    requires
        pos <= toks.len(),
    ensures
        outcome(out, pos) == spec_time_space_caha_space(toks@, pos as nat),
        out matches Ok((end, node)) ==> pos < end <= toks.len() && is_time_space_caha_space(
            node,
            toks@,
            pos as nat,
        ),
    decreases toks.len() - pos, 24nat,
{
    proof {
        lemma_time_space_caha_space(toks@, pos as nat);
    }
    let (at1, field_0) = place(arena, parse_space(toks, pos, arena))?;
    let node = TimeSpaceCaha::Space(field_0);
    proof {
        lemma_is_time_space_caha_space(node, toks@, pos as nat);
    }
    Ok((at1, node))
}

/// Parse `Space` at `pos`; see [`spec_space`].
pub fn parse_space<'arena>(toks: &[Token], pos: usize, arena: &'arena Arena) -> (out: Parsed<
    Space<'arena>,
>)
    requires
        pos <= toks.len(),
    ensures
        outcome(out, pos) == spec_space(toks@, pos as nat),
        out matches Ok((end, node)) ==> pos < end <= toks.len() && is_space(
            node,
            toks@,
            pos as nat,
        ),
    decreases toks.len() - pos, 23nat,
{
    proof {
        lemma_space(toks@, pos as nat);
    }
    let (at1, va) = opt(pos, parse_word(toks, pos, arena, Selmaho::Va))?;
    let (at2, offset) = many0_space_offset(toks, at1, arena)?;
    let (at3, interval) = opt(at2, parse_space_interval(toks, at2, arena))?;
    let (at4, motion) = opt(at3, parse_space_motion(toks, at3, arena))?;
    if !(va.is_some() || offset.len() > 0 || interval.is_some() || motion.is_some()) {
        return fail(Error::PostConditionFailed("a place without any part"), pos);
    }
    let node = Space { va, offset, interval, motion };
    proof {
        lemma_is_space(node, toks@, pos as nat);
    }
    Ok((at4, node))
}

/// Parse `SpaceOffset` at `pos`; see [`spec_space_offset`].
pub fn parse_space_offset<'arena>(
    toks: &[Token],
    pos: usize,
    arena: &'arena Arena,
) -> (out: Parsed<
    SpaceOffset<'arena>,
>)
    requires
        pos <= toks.len(),
    ensures
        outcome(out, pos) == spec_space_offset(toks@, pos as nat),
        out matches Ok((end, node)) ==> pos < end <= toks.len() && is_space_offset(
            node,
            toks@,
            pos as nat,
        ),
    decreases toks.len() - pos, 3nat,
{
    proof {
        lemma_space_offset(toks@, pos as nat);
    }
    let (at1, field_0) = parse_word(toks, pos, arena, Selmaho::Faha)?;
    let (at2, field_1) = opt(at1, parse_word(toks, at1, arena, Selmaho::Nai))?;
    let (at3, field_2) = opt(at2, parse_word(toks, at2, arena, Selmaho::Va))?;
    let node = SpaceOffset(field_0, field_1, field_2);
    proof {
        lemma_is_space_offset(node, toks@, pos as nat);
    }
    Ok((at3, node))
}

/// Parse `SpaceOffset` from `pos` on as often as it matches; see [`spec_many0_space_offset`].
pub fn many0_space_offset<'arena>(
    toks: &[Token],
    pos: usize,
    arena: &'arena Arena,
) -> (out: Parsed<
    &'arena [SpaceOffset<'arena>],
>)
    requires
        pos <= toks.len(),
    ensures
        outcome(out, pos) == spec_many0_space_offset(toks@, pos as nat),
        out matches Ok((end, items)) ==> pos <= end <= toks.len() && (items@.len() == 0 <==> end
            == pos) && is_row_of_space_offset(items@, toks@, pos as nat),
    decreases toks.len() - pos, 4nat,
{
    let mut items: Vec<SpaceOffset<'arena>> = Vec::new();
    let mut at: usize = pos;
    loop
        invariant
            pos <= at <= toks.len(),
            items@.len() == 0 <==> at == pos,
            at == pos + run_of_space_offset(toks@, pos as nat, items@.len()),
            forall|i: int|
                #![trigger items@[i]]
                #![trigger run_of_space_offset(toks@, pos as nat, i as nat)]
                0 <= i < items@.len() ==> spec_space_offset(
                    toks@,
                    pos as nat + run_of_space_offset(toks@, pos as nat, i as nat),
                ) is Matched && is_space_offset(
                    items@[i],
                    toks@,
                    pos as nat + run_of_space_offset(toks@, pos as nat, i as nat),
                ),
            shifted(
                spec_many0_space_offset(toks@, at as nat),
                (at - pos) as nat,
            ) == spec_many0_space_offset(
                toks@,
                pos as nat,
            ),
        decreases toks.len() - at,
    {
        proof {
            lemma_many0_space_offset(toks@, at as nat);
        }
        match parse_space_offset(toks, at, arena) {
            Ok((end, item)) => {
                if end == at {
                    return fail(Error::Combinator(ErrorKind::Many0), at);
                }
                items.push(item);
                at = end;
            },
            Err(failed) => {
                if failed.fatal {
                    return Err(failed);
                }
                proof {
                    lemma_is_row_of_space_offset(items@, toks@, pos as nat);
                }
                return Ok((at, keep_all(arena, items)));
            },
        }
    }
}

/// Parse `SpaceInterval` at `pos`; see [`spec_space_interval`].
pub fn parse_space_interval<'arena>(
    toks: &[Token],
    pos: usize,
    arena: &'arena Arena,
) -> (out: Parsed<
    SpaceInterval<'arena>,
>)
    requires
        pos <= toks.len(),
    ensures
        outcome(out, pos) == spec_space_interval(toks@, pos as nat),
        out matches Ok((end, node)) ==> pos < end <= toks.len() && is_space_interval(
            node,
            toks@,
            pos as nat,
        ),
    decreases toks.len() - pos, 22nat,
{
    proof {
        lemma_space_interval(toks@, pos as nat);
        lemma_is_space_interval(toks@, pos as nat);
    }
    let tried = parse_space_interval_interval(toks, pos, arena);
    if settled(&tried) {
        return tried;
    }
    let error = error_of(tried);
    let tried = parse_space_interval_properties(toks, pos, arena);
    if settled(&tried) {
        return tried;
    }
    let error = error.or(error_of(tried));
    Err(Failed { fatal: false, error })
}

/// Parse `SpaceIntervalInterval` at `pos`; see [`spec_space_interval_interval`].
pub fn parse_space_interval_interval<'arena>(
    toks: &[Token],
    pos: usize,
    arena: &'arena Arena,
) -> (out: Parsed<
    SpaceInterval<'arena>,
>)
    requires
        pos <= toks.len(),
    ensures
        outcome(out, pos) == spec_space_interval_interval(toks@, pos as nat),
        out matches Ok((end, node)) ==> pos < end <= toks.len() && is_space_interval_interval(
            node,
            toks@,
            pos as nat,
        ),
    decreases toks.len() - pos, 21nat,
{
    proof {
        lemma_space_interval_interval(toks@, pos as nat);
    }
    let (at1, interval) = parse_veha_viha(toks, pos, arena)?;
    let (at2, direction) = opt(at1, parse_faha_nai(toks, at1, arena))?;
    let (at3, properties) = many0_space_interval_property(toks, at2, arena)?;
    let node = SpaceInterval::Interval { interval, direction, properties };
    proof {
        lemma_is_space_interval_interval(node, toks@, pos as nat);
    }
    Ok((at3, node))
}

/// Parse `VehaViha` at `pos`; see [`spec_veha_viha`].
pub fn parse_veha_viha<'arena>(toks: &[Token], pos: usize, arena: &'arena Arena) -> (out: Parsed<
    EitherOrBoth<Word<'arena>, Word<'arena>>,
>)
    requires
        pos <= toks.len(),
    ensures
        outcome(out, pos) == spec_veha_viha(toks@, pos as nat),
        out matches Ok((end, node)) ==> pos < end <= toks.len() && is_veha_viha(
            node,
            toks@,
            pos as nat,
        ),
    decreases toks.len() - pos, 4nat,
{
    proof {
        lemma_veha_viha(toks@, pos as nat);
        lemma_is_veha_viha(toks@, pos as nat);
    }
    let tried = parse_veha_viha_right(toks, pos, arena);
    if settled(&tried) {
        return tried;
    }
    let error = error_of(tried);
    let tried = parse_veha_viha_both(toks, pos, arena);
    if settled(&tried) {
        return tried;
    }
    let error = error.or(error_of(tried));
    let tried = parse_veha_viha_left(toks, pos, arena);
    if settled(&tried) {
        return tried;
    }
    let error = error.or(error_of(tried));
    Err(Failed { fatal: false, error })
}

/// Parse `VehaVihaRight` at `pos`; see [`spec_veha_viha_right`].
pub fn parse_veha_viha_right<'arena>(
    toks: &[Token],
    pos: usize,
    arena: &'arena Arena,
) -> (out: Parsed<
    EitherOrBoth<Word<'arena>, Word<'arena>>,
>)
    requires
        pos <= toks.len(),
    ensures
        outcome(out, pos) == spec_veha_viha_right(toks@, pos as nat),
        out matches Ok((end, node)) ==> pos < end <= toks.len() && is_veha_viha_right(
            node,
            toks@,
            pos as nat,
        ),
    decreases toks.len() - pos, 3nat,
{
    proof {
        lemma_veha_viha_right(toks@, pos as nat);
    }
    let (at1, field_0) = parse_word(toks, pos, arena, Selmaho::Viha)?;
    let node = EitherOrBoth::Right(field_0);
    proof {
        lemma_is_veha_viha_right(node, toks@, pos as nat);
    }
    Ok((at1, node))
}

/// Parse `VehaVihaBoth` at `pos`; see [`spec_veha_viha_both`].
pub fn parse_veha_viha_both<'arena>(
    toks: &[Token],
    pos: usize,
    arena: &'arena Arena,
) -> (out: Parsed<
    EitherOrBoth<Word<'arena>, Word<'arena>>,
>)
    requires
        pos <= toks.len(),
    ensures
        outcome(out, pos) == spec_veha_viha_both(toks@, pos as nat),
        out matches Ok((end, node)) ==> pos < end <= toks.len() && is_veha_viha_both(
            node,
            toks@,
            pos as nat,
        ),
    decreases toks.len() - pos, 3nat,
{
    proof {
        lemma_veha_viha_both(toks@, pos as nat);
    }
    let (at1, field_0) = parse_word(toks, pos, arena, Selmaho::Veha)?;
    let (at2, field_1) = parse_word(toks, at1, arena, Selmaho::Viha)?;
    let node = EitherOrBoth::Both(field_0, field_1);
    proof {
        lemma_is_veha_viha_both(node, toks@, pos as nat);
    }
    Ok((at2, node))
}

/// Parse `VehaVihaLeft` at `pos`; see [`spec_veha_viha_left`].
pub fn parse_veha_viha_left<'arena>(
    toks: &[Token],
    pos: usize,
    arena: &'arena Arena,
) -> (out: Parsed<
    EitherOrBoth<Word<'arena>, Word<'arena>>,
>)
    requires
        pos <= toks.len(),
    ensures
        outcome(out, pos) == spec_veha_viha_left(toks@, pos as nat),
        out matches Ok((end, node)) ==> pos < end <= toks.len() && is_veha_viha_left(
            node,
            toks@,
            pos as nat,
        ),
    decreases toks.len() - pos, 3nat,
{
    proof {
        lemma_veha_viha_left(toks@, pos as nat);
    }
    let (at1, field_0) = parse_word(toks, pos, arena, Selmaho::Veha)?;
    let node = EitherOrBoth::Left(field_0);
    proof {
        lemma_is_veha_viha_left(node, toks@, pos as nat);
    }
    Ok((at1, node))
}

/// Parse `FahaNai` at `pos`; see [`spec_faha_nai`].
pub fn parse_faha_nai<'arena>(toks: &[Token], pos: usize, arena: &'arena Arena) -> (out: Parsed<
    (Word<'arena>, Option<Word<'arena>>),
>)
    requires
        pos <= toks.len(),
    ensures
        outcome(out, pos) == spec_faha_nai(toks@, pos as nat),
        out matches Ok((end, node)) ==> pos < end <= toks.len() && is_faha_nai(
            node,
            toks@,
            pos as nat,
        ),
    decreases toks.len() - pos, 3nat,
{
    proof {
        lemma_faha_nai(toks@, pos as nat);
    }
    let (at1, item_0) = parse_word(toks, pos, arena, Selmaho::Faha)?;
    let (at2, item_1) = opt(at1, parse_word(toks, at1, arena, Selmaho::Nai))?;
    let node = (item_0, item_1);
    proof {
        lemma_is_faha_nai(node, toks@, pos as nat);
    }
    Ok((at2, node))
}

/// Parse `SpaceIntervalProperty` at `pos`; see [`spec_space_interval_property`].
pub fn parse_space_interval_property<'arena>(
    toks: &[Token],
    pos: usize,
    arena: &'arena Arena,
) -> (out: Parsed<
    SpaceIntervalProperty<'arena>,
>)
    requires
        pos <= toks.len(),
    ensures
        outcome(out, pos) == spec_space_interval_property(toks@, pos as nat),
        out matches Ok((end, node)) ==> pos < end <= toks.len() && is_space_interval_property(
            node,
            toks@,
            pos as nat,
        ),
    decreases toks.len() - pos, 19nat,
{
    proof {
        lemma_space_interval_property(toks@, pos as nat);
    }
    let (at1, field_0) = parse_word(toks, pos, arena, Selmaho::Fehe)?;
    let (at2, field_1) = parse_interval_property(toks, at1, arena)?;
    let node = SpaceIntervalProperty(field_0, field_1);
    proof {
        lemma_is_space_interval_property(node, toks@, pos as nat);
    }
    Ok((at2, node))
}

/// Parse `SpaceIntervalProperty` from `pos` on as often as it matches; see [`spec_many0_space_interval_property`].
pub fn many0_space_interval_property<'arena>(
    toks: &[Token],
    pos: usize,
    arena: &'arena Arena,
) -> (out: Parsed<
    &'arena [SpaceIntervalProperty<'arena>],
>)
    requires
        pos <= toks.len(),
    ensures
        outcome(out, pos) == spec_many0_space_interval_property(toks@, pos as nat),
        out matches Ok((end, items)) ==> pos <= end <= toks.len() && (items@.len() == 0 <==> end
            == pos) && is_row_of_space_interval_property(items@, toks@, pos as nat),
    decreases toks.len() - pos, 20nat,
{
    let mut items: Vec<SpaceIntervalProperty<'arena>> = Vec::new();
    let mut at: usize = pos;
    loop
        invariant
            pos <= at <= toks.len(),
            items@.len() == 0 <==> at == pos,
            at == pos + run_of_space_interval_property(toks@, pos as nat, items@.len()),
            forall|i: int|
                #![trigger items@[i]]
                #![trigger run_of_space_interval_property(toks@, pos as nat, i as nat)]
                0 <= i < items@.len() ==> spec_space_interval_property(
                    toks@,
                    pos as nat + run_of_space_interval_property(toks@, pos as nat, i as nat),
                ) is Matched && is_space_interval_property(
                    items@[i],
                    toks@,
                    pos as nat + run_of_space_interval_property(toks@, pos as nat, i as nat),
                ),
            shifted(
                spec_many0_space_interval_property(toks@, at as nat),
                (at - pos) as nat,
            ) == spec_many0_space_interval_property(
                toks@,
                pos as nat,
            ),
        decreases toks.len() - at,
    {
        proof {
            lemma_many0_space_interval_property(toks@, at as nat);
        }
        match parse_space_interval_property(toks, at, arena) {
            Ok((end, item)) => {
                if end == at {
                    return fail(Error::Combinator(ErrorKind::Many0), at);
                }
                items.push(item);
                at = end;
            },
            Err(failed) => {
                if failed.fatal {
                    return Err(failed);
                }
                proof {
                    lemma_is_row_of_space_interval_property(items@, toks@, pos as nat);
                }
                return Ok((at, keep_all(arena, items)));
            },
        }
    }
}

/// Parse `SpaceIntervalProperty` from `pos` on as often as it matches, and at least once;
/// see [`spec_many1_space_interval_property`].
pub fn many1_space_interval_property<'arena>(
    toks: &[Token],
    pos: usize,
    arena: &'arena Arena,
) -> (out: Parsed<
    &'arena [SpaceIntervalProperty<'arena>],
>)
    requires
        pos <= toks.len(),
    ensures
        outcome(out, pos) == spec_many1_space_interval_property(toks@, pos as nat),
        out matches Ok((end, items)) ==> pos < end <= toks.len() && items@.len() > 0 && is_row_of_space_interval_property(
            items@,
            toks@,
            pos as nat,
        ),
    decreases toks.len() - pos, 20nat,
{
    proof {
        lemma_many1_space_interval_property(toks@, pos as nat);
    }
    let mut items: Vec<SpaceIntervalProperty<'arena>> = Vec::new();
    let (first_end, first) = parse_space_interval_property(toks, pos, arena)?;
    items.push(first);
    let mut at: usize = first_end;
    assert(run_of_space_interval_property(toks@, pos as nat, 0) == 0);
    loop
        invariant
            pos <= at <= toks.len(),
            items@.len() > 0,
            at == pos + run_of_space_interval_property(toks@, pos as nat, items@.len()),
            forall|i: int|
                #![trigger items@[i]]
                #![trigger run_of_space_interval_property(toks@, pos as nat, i as nat)]
                0 <= i < items@.len() ==> spec_space_interval_property(
                    toks@,
                    pos as nat + run_of_space_interval_property(toks@, pos as nat, i as nat),
                ) is Matched && is_space_interval_property(
                    items@[i],
                    toks@,
                    pos as nat + run_of_space_interval_property(toks@, pos as nat, i as nat),
                ),
            at == pos ==> spec_space_interval_property(toks@, pos as nat) == Outcome::Matched(0),
            at > pos ==> shifted(
                spec_many1_space_interval_property_more(toks@, at as nat),
                (at - pos) as nat,
            )
                == spec_many1_space_interval_property(toks@, pos as nat),
            at == pos ==> spec_many1_space_interval_property(toks@, pos as nat) == Outcome::Error(
                combinator_at(pos as nat, ErrorKind::Many1),
            ),
        decreases toks.len() - at,
    {
        proof {
            lemma_many1_space_interval_property(toks@, at as nat);
        }
        match parse_space_interval_property(toks, at, arena) {
            Ok((end, item)) => {
                if end == at {
                    return fail(Error::Combinator(ErrorKind::Many1), at);
                }
                items.push(item);
                at = end;
            },
            Err(failed) => {
                if failed.fatal {
                    return Err(failed);
                }
                proof {
                    lemma_is_row_of_space_interval_property(items@, toks@, pos as nat);
                }
                return Ok((at, keep_all(arena, items)));
            },
        }
    }
}

/// Parse `SpaceIntervalProperties` at `pos`; see [`spec_space_interval_properties`].
pub fn parse_space_interval_properties<'arena>(
    toks: &[Token],
    pos: usize,
    arena: &'arena Arena,
) -> (out: Parsed<
    SpaceInterval<'arena>,
>)
    requires
        pos <= toks.len(),
    ensures
        outcome(out, pos) == spec_space_interval_properties(toks@, pos as nat),
        out matches Ok((end, node)) ==> pos < end <= toks.len() && is_space_interval_properties(
            node,
            toks@,
            pos as nat,
        ),
    decreases toks.len() - pos, 21nat,
{
    proof {
        lemma_space_interval_properties(toks@, pos as nat);
    }
    let (at1, field_0) = many1_space_interval_property(toks, pos, arena)?;
    let node = SpaceInterval::Properties(field_0);
    proof {
        lemma_is_space_interval_properties(node, toks@, pos as nat);
    }
    Ok((at1, node))
}

/// Parse `SpaceMotion` at `pos`; see [`spec_space_motion`].
pub fn parse_space_motion<'arena>(
    toks: &[Token],
    pos: usize,
    arena: &'arena Arena,
) -> (out: Parsed<
    SpaceMotion<'arena>,
>)
    requires
        pos <= toks.len(),
    ensures
        outcome(out, pos) == spec_space_motion(toks@, pos as nat),
        out matches Ok((end, node)) ==> pos < end <= toks.len() && is_space_motion(
            node,
            toks@,
            pos as nat,
        ),
    decreases toks.len() - pos, 4nat,
{
    proof {
        lemma_space_motion(toks@, pos as nat);
    }
    let (at1, mohi) = parse_word(toks, pos, arena, Selmaho::Mohi)?;
    let (at2, offset) = parse_space_offset(toks, at1, arena)?;
    let node = SpaceMotion { mohi, offset };
    proof {
        lemma_is_space_motion(node, toks@, pos as nat);
    }
    Ok((at2, node))
}

/// Parse `TimeSpaceCahaCaha` at `pos`; see [`spec_time_space_caha_caha`].
pub fn parse_time_space_caha_caha<'arena>(
    toks: &[Token],
    pos: usize,
    arena: &'arena Arena,
) -> (out: Parsed<
    TimeSpaceCaha<'arena>,
>)
    requires
        pos <= toks.len(),
    ensures
        outcome(out, pos) == spec_time_space_caha_caha(toks@, pos as nat),
        out matches Ok((end, node)) ==> pos < end <= toks.len() && is_time_space_caha_caha(
            node,
            toks@,
            pos as nat,
        ),
    decreases toks.len() - pos, 3nat,
{
    proof {
        lemma_time_space_caha_caha(toks@, pos as nat);
    }
    let (at1, field_0) = parse_word(toks, pos, arena, Selmaho::Caha)?;
    let node = TimeSpaceCaha::Caha(field_0);
    proof {
        lemma_is_time_space_caha_caha(node, toks@, pos as nat);
    }
    Ok((at1, node))
}

/// Parse `TagWordKi` at `pos`; see [`spec_tag_word_ki`].
pub fn parse_tag_word_ki<'arena>(
    toks: &[Token],
    pos: usize,
    arena: &'arena Arena,
) -> (out: Parsed<
    TagWord<'arena>,
>)
    requires
        pos <= toks.len(),
    ensures
        outcome(out, pos) == spec_tag_word_ki(toks@, pos as nat),
        out matches Ok((end, node)) ==> pos < end <= toks.len() && is_tag_word_ki(
            node,
            toks@,
            pos as nat,
        ),
    decreases toks.len() - pos, 25nat,
{
    proof {
        lemma_tag_word_ki(toks@, pos as nat);
    }
    let (at1, field_0) = parse_word(toks, pos, arena, Selmaho::Ki)?;
    let (at2, field_1) = parse_frees(toks, at1, arena)?;
    let node = TagWord::Ki(field_0, field_1);
    proof {
        lemma_is_tag_word_ki(node, toks@, pos as nat);
    }
    Ok((at2, node))
}

/// Parse `TagWordCuhe` at `pos`; see [`spec_tag_word_cuhe`].
pub fn parse_tag_word_cuhe<'arena>(
    toks: &[Token],
    pos: usize,
    arena: &'arena Arena,
) -> (out: Parsed<
    TagWord<'arena>,
>)
    requires
        pos <= toks.len(),
    ensures
        outcome(out, pos) == spec_tag_word_cuhe(toks@, pos as nat),
        out matches Ok((end, node)) ==> pos < end <= toks.len() && is_tag_word_cuhe(
            node,
            toks@,
            pos as nat,
        ),
    decreases toks.len() - pos, 25nat,
{
    proof {
        lemma_tag_word_cuhe(toks@, pos as nat);
    }
    let (at1, field_0) = parse_word(toks, pos, arena, Selmaho::Cuhe)?;
    let (at2, field_1) = parse_frees(toks, at1, arena)?;
    let node = TagWord::Cuhe(field_0, field_1);
    proof {
        lemma_is_tag_word_cuhe(node, toks@, pos as nat);
    }
    Ok((at2, node))
}

/// Parse `TagWordConverted` at `pos`; see [`spec_tag_word_converted`].
pub fn parse_tag_word_converted<'arena>(
    toks: &[Token],
    pos: usize,
    arena: &'arena Arena,
) -> (out: Parsed<
    TagWord<'arena>,
>)
    requires
        pos <= toks.len(),
    ensures
        outcome(out, pos) == spec_tag_word_converted(toks@, pos as nat),
        out matches Ok((end, node)) ==> pos < end <= toks.len() && is_tag_word_converted(
            node,
            toks@,
            pos as nat,
        ),
    decreases toks.len() - pos, 25nat,
{
    proof {
        lemma_tag_word_converted(toks@, pos as nat);
    }
    let (at1, field_0) = parse_word_with_free(toks, pos, arena, Selmaho::Fiho)?;
    let (at2, field_1) = parse_selbri(toks, at1, arena)?;
    let (at3, field_2) = opt(at2, parse_word(toks, at2, arena, Selmaho::Fehu))?;
    let (at4, field_3) = parse_frees(toks, at3, arena)?;
    let node = TagWord::Converted(field_0, field_1, field_2, field_3);
    proof {
        lemma_is_tag_word_converted(node, toks@, pos as nat);
    }
    Ok((at4, node))
}

/// Parse `Selbri` at `pos`; see [`spec_selbri`].
pub fn parse_selbri<'arena>(toks: &[Token], pos: usize, arena: &'arena Arena) -> (out: Parsed<
    Selbri<'arena>,
>)
    requires
        pos <= toks.len(),
    ensures
        outcome(out, pos) == spec_selbri(toks@, pos as nat),
        out matches Ok((end, node)) ==> pos < end <= toks.len() && is_selbri(
            node,
            toks@,
            pos as nat,
        ),
    decreases toks.len() - pos, 88nat,
{
    proof {
        lemma_selbri(toks@, pos as nat);
    }
    let (at1, before) = many0_selbri_before(toks, pos, arena)?;
    let (at2, components) = parse_selbri_1(toks, at1, arena)?;
    let node = Selbri { before, components };
    proof {
        lemma_is_selbri(node, toks@, pos as nat);
    }
    Ok((at2, node))
}

/// Parse `SelbriBefore` at `pos`; see [`spec_selbri_before`].
pub fn parse_selbri_before<'arena>(
    toks: &[Token],
    pos: usize,
    arena: &'arena Arena,
) -> (out: Parsed<
    SelbriBefore<'arena>,
>)
    requires
        pos <= toks.len(),
    ensures
        outcome(out, pos) == spec_selbri_before(toks@, pos as nat),
        out matches Ok((end, node)) ==> pos < end <= toks.len() && is_selbri_before(
            node,
            toks@,
            pos as nat,
        ),
    decreases toks.len() - pos, 33nat,
{
    proof {
        lemma_selbri_before(toks@, pos as nat);
        lemma_is_selbri_before(toks@, pos as nat);
    }
    let tried = parse_selbri_before_na(toks, pos, arena);
    if settled(&tried) {
        return tried;
    }
    let error = error_of(tried);
    let tried = parse_selbri_before_tag(toks, pos, arena);
    if settled(&tried) {
        return tried;
    }
    let error = error.or(error_of(tried));
    Err(Failed { fatal: false, error })
}

/// Parse `SelbriBefore` from `pos` on as often as it matches; see [`spec_many0_selbri_before`].
pub fn many0_selbri_before<'arena>(
    toks: &[Token],
    pos: usize,
    arena: &'arena Arena,
) -> (out: Parsed<
    &'arena [SelbriBefore<'arena>],
>)
    requires
        pos <= toks.len(),
    ensures
        outcome(out, pos) == spec_many0_selbri_before(toks@, pos as nat),
        out matches Ok((end, items)) ==> pos <= end <= toks.len() && (items@.len() == 0 <==> end
            == pos) && is_row_of_selbri_before(items@, toks@, pos as nat),
    decreases toks.len() - pos, 34nat,
{
    let mut items: Vec<SelbriBefore<'arena>> = Vec::new();
    let mut at: usize = pos;
    loop
        invariant
            pos <= at <= toks.len(),
            items@.len() == 0 <==> at == pos,
            at == pos + run_of_selbri_before(toks@, pos as nat, items@.len()),
            forall|i: int|
                #![trigger items@[i]]
                #![trigger run_of_selbri_before(toks@, pos as nat, i as nat)]
                0 <= i < items@.len() ==> spec_selbri_before(
                    toks@,
                    pos as nat + run_of_selbri_before(toks@, pos as nat, i as nat),
                ) is Matched && is_selbri_before(
                    items@[i],
                    toks@,
                    pos as nat + run_of_selbri_before(toks@, pos as nat, i as nat),
                ),
            shifted(
                spec_many0_selbri_before(toks@, at as nat),
                (at - pos) as nat,
            ) == spec_many0_selbri_before(
                toks@,
                pos as nat,
            ),
        decreases toks.len() - at,
    {
        proof {
            lemma_many0_selbri_before(toks@, at as nat);
        }
        match parse_selbri_before(toks, at, arena) {
            Ok((end, item)) => {
                if end == at {
                    return fail(Error::Combinator(ErrorKind::Many0), at);
                }
                items.push(item);
                at = end;
            },
            Err(failed) => {
                if failed.fatal {
                    return Err(failed);
                }
                proof {
                    lemma_is_row_of_selbri_before(items@, toks@, pos as nat);
                }
                return Ok((at, keep_all(arena, items)));
            },
        }
    }
}

/// Parse `SelbriBeforeNa` at `pos`; see [`spec_selbri_before_na`].
pub fn parse_selbri_before_na<'arena>(
    toks: &[Token],
    pos: usize,
    arena: &'arena Arena,
) -> (out: Parsed<
    SelbriBefore<'arena>,
>)
    requires
        pos <= toks.len(),
    ensures
        outcome(out, pos) == spec_selbri_before_na(toks@, pos as nat),
        out matches Ok((end, node)) ==> pos < end <= toks.len() && is_selbri_before_na(
            node,
            toks@,
            pos as nat,
        ),
    decreases toks.len() - pos, 4nat,
{
    proof {
        lemma_selbri_before_na(toks@, pos as nat);
    }
    let (at1, field_0) = parse_word_with_free(toks, pos, arena, Selmaho::Na)?;
    let node = SelbriBefore::Na(field_0);
    proof {
        lemma_is_selbri_before_na(node, toks@, pos as nat);
    }
    Ok((at1, node))
}

/// Parse `SelbriBeforeTag` at `pos`; see [`spec_selbri_before_tag`].
pub fn parse_selbri_before_tag<'arena>(
    toks: &[Token],
    pos: usize,
    arena: &'arena Arena,
) -> (out: Parsed<
    SelbriBefore<'arena>,
>)
    requires
        pos <= toks.len(),
    ensures
        outcome(out, pos) == spec_selbri_before_tag(toks@, pos as nat),
        out matches Ok((end, node)) ==> pos < end <= toks.len() && is_selbri_before_tag(
            node,
            toks@,
            pos as nat,
        ),
    decreases toks.len() - pos, 32nat,
{
    proof {
        lemma_selbri_before_tag(toks@, pos as nat);
    }
    let (at1, field_0) = parse_tag_words(toks, pos, arena)?;
    let node = SelbriBefore::Tag(field_0);
    proof {
        lemma_is_selbri_before_tag(node, toks@, pos as nat);
    }
    Ok((at1, node))
}

/// Parse `Selbri1` at `pos`; see [`spec_selbri_1`].
pub fn parse_selbri_1<'arena>(toks: &[Token], pos: usize, arena: &'arena Arena) -> (out: Parsed<
    Selbri1<'arena>,
>)
    requires
        pos <= toks.len(),
    ensures
        outcome(out, pos) == spec_selbri_1(toks@, pos as nat),
        out matches Ok((end, node)) ==> pos < end <= toks.len() && is_selbri_1(
            node,
            toks@,
            pos as nat,
        ),
    decreases toks.len() - pos, 87nat,
{
    proof {
        lemma_selbri_1(toks@, pos as nat);
    }
    let (at1, field_0) = parse_selbri_2_list(toks, pos, arena)?;
    let node = Selbri1(field_0);
    proof {
        lemma_is_selbri_1(node, toks@, pos as nat);
    }
    Ok((at1, node))
}

/// Parse `Selbri2List` at `pos`; see [`spec_selbri_2_list`].
pub fn parse_selbri_2_list<'arena>(
    toks: &[Token],
    pos: usize,
    arena: &'arena Arena,
) -> (out: Parsed<
    Separated<'arena, Selbri2<'arena>, WithFree<'arena, Word<'arena>>>,
>)
    requires
        pos <= toks.len(),
    ensures
        outcome(out, pos) == spec_selbri_2_list(toks@, pos as nat),
        out matches Ok((end, node)) ==> pos < end <= toks.len() && is_selbri_2_list(
            node,
            toks@,
            pos as nat,
        ),
    decreases toks.len() - pos, 86nat,
{
    proof {
        lemma_selbri_2_list(toks@, pos as nat);
    }
    let (at1, first) = place(arena, parse_selbri_2(toks, pos, arena))?;
    let (at2, rest) = many0_selbri_2_list_next(toks, at1, arena)?;
    let node = Separated { first, rest };
    proof {
        lemma_is_selbri_2_list(node, toks@, pos as nat);
    }
    Ok((at2, node))
}

/// Parse `Selbri2` at `pos`; see [`spec_selbri_2`].
pub fn parse_selbri_2<'arena>(toks: &[Token], pos: usize, arena: &'arena Arena) -> (out: Parsed<
    Selbri2<'arena>,
>)
    requires
        pos <= toks.len(),
    ensures
        outcome(out, pos) == spec_selbri_2(toks@, pos as nat),
        out matches Ok((end, node)) ==> pos < end <= toks.len() && is_selbri_2(
            node,
            toks@,
            pos as nat,
        ),
    decreases toks.len() - pos, 83nat,
{
    proof {
        lemma_selbri_2(toks@, pos as nat);
    }
    let (at1, field_0) = many1_selbri_3(toks, pos, arena)?;
    let node = Selbri2(field_0);
    proof {
        lemma_is_selbri_2(node, toks@, pos as nat);
    }
    Ok((at1, node))
}

/// Parse `Selbri3` at `pos`; see [`spec_selbri_3`].
pub fn parse_selbri_3<'arena>(toks: &[Token], pos: usize, arena: &'arena Arena) -> (out: Parsed<
    Selbri3<'arena>,
>)
    requires
        pos <= toks.len(),
    ensures
        outcome(out, pos) == spec_selbri_3(toks@, pos as nat),
        out matches Ok((end, node)) ==> pos < end <= toks.len() && is_selbri_3(
            node,
            toks@,
            pos as nat,
        ),
    decreases toks.len() - pos, 81nat,
{
    proof {
        lemma_selbri_3(toks@, pos as nat);
    }
    let (at1, field_0) = parse_selbri_4(toks, pos, arena)?;
    let (at2, field_1) = many0_selbri_3_connected_post(toks, at1, arena)?;
    let node = Selbri3(field_0, field_1);
    proof {
        lemma_is_selbri_3(node, toks@, pos as nat);
    }
    Ok((at2, node))
}

/// Parse `Selbri3` from `pos` on as often as it matches, and at least once;
/// see [`spec_many1_selbri_3`].
pub fn many1_selbri_3<'arena>(toks: &[Token], pos: usize, arena: &'arena Arena) -> (out: Parsed<
    &'arena [Selbri3<'arena>],
>)
    requires
        pos <= toks.len(),
    ensures
        outcome(out, pos) == spec_many1_selbri_3(toks@, pos as nat),
        out matches Ok((end, items)) ==> pos < end <= toks.len() && items@.len() > 0 && is_row_of_selbri_3(
            items@,
            toks@,
            pos as nat,
        ),
    decreases toks.len() - pos, 82nat,
{
    proof {
        lemma_many1_selbri_3(toks@, pos as nat);
    }
    let mut items: Vec<Selbri3<'arena>> = Vec::new();
    let (first_end, first) = parse_selbri_3(toks, pos, arena)?;
    items.push(first);
    let mut at: usize = first_end;
    assert(run_of_selbri_3(toks@, pos as nat, 0) == 0);
    loop
        invariant
            pos <= at <= toks.len(),
            items@.len() > 0,
            at == pos + run_of_selbri_3(toks@, pos as nat, items@.len()),
            forall|i: int|
                #![trigger items@[i]]
                #![trigger run_of_selbri_3(toks@, pos as nat, i as nat)]
                0 <= i < items@.len() ==> spec_selbri_3(
                    toks@,
                    pos as nat + run_of_selbri_3(toks@, pos as nat, i as nat),
                ) is Matched && is_selbri_3(
                    items@[i],
                    toks@,
                    pos as nat + run_of_selbri_3(toks@, pos as nat, i as nat),
                ),
            at == pos ==> spec_selbri_3(toks@, pos as nat) == Outcome::Matched(0),
            at > pos ==> shifted(spec_many1_selbri_3_more(toks@, at as nat), (at - pos) as nat)
                == spec_many1_selbri_3(toks@, pos as nat),
            at == pos ==> spec_many1_selbri_3(toks@, pos as nat) == Outcome::Error(
                combinator_at(pos as nat, ErrorKind::Many1),
            ),
        decreases toks.len() - at,
    {
        proof {
            lemma_many1_selbri_3(toks@, at as nat);
        }
        match parse_selbri_3(toks, at, arena) {
            Ok((end, item)) => {
                if end == at {
                    return fail(Error::Combinator(ErrorKind::Many1), at);
                }
                items.push(item);
                at = end;
            },
            Err(failed) => {
                if failed.fatal {
                    return Err(failed);
                }
                proof {
                    lemma_is_row_of_selbri_3(items@, toks@, pos as nat);
                }
                return Ok((at, keep_all(arena, items)));
            },
        }
    }
}

/// Parse `Selbri4` at `pos`; see [`spec_selbri_4`].
pub fn parse_selbri_4<'arena>(toks: &[Token], pos: usize, arena: &'arena Arena) -> (out: Parsed<
    Selbri4<'arena>,
>)
    requires
        pos <= toks.len(),
    ensures
        outcome(out, pos) == spec_selbri_4(toks@, pos as nat),
        out matches Ok((end, node)) ==> pos < end <= toks.len() && is_selbri_4(
            node,
            toks@,
            pos as nat,
        ),
    decreases toks.len() - pos, 77nat,
{
    proof {
        lemma_selbri_4(toks@, pos as nat);
    }
    let (at1, field_0) = parse_selbri_5_list(toks, pos, arena)?;
    let node = Selbri4(field_0);
    proof {
        lemma_is_selbri_4(node, toks@, pos as nat);
    }
    Ok((at1, node))
}

/// Parse `Selbri5List` at `pos`; see [`spec_selbri_5_list`].
pub fn parse_selbri_5_list<'arena>(
    toks: &[Token],
    pos: usize,
    arena: &'arena Arena,
) -> (out: Parsed<
    Separated<'arena, Selbri5<'arena>, (JoikJek<'arena>, Option<TagWords<'arena>>, Word<'arena>, Frees<'arena>)>,
>)
    requires
        pos <= toks.len(),
    ensures
        outcome(out, pos) == spec_selbri_5_list(toks@, pos as nat),
        out matches Ok((end, node)) ==> pos < end <= toks.len() && is_selbri_5_list(
            node,
            toks@,
            pos as nat,
        ),
    decreases toks.len() - pos, 76nat,
{
    proof {
        lemma_selbri_5_list(toks@, pos as nat);
    }
    let (at1, first) = place(arena, parse_selbri_5(toks, pos, arena))?;
    let (at2, rest) = many0_selbri_5_list_next(toks, at1, arena)?;
    let node = Separated { first, rest };
    proof {
        lemma_is_selbri_5_list(node, toks@, pos as nat);
    }
    Ok((at2, node))
}

/// Parse `Selbri5` at `pos`; see [`spec_selbri_5`].
pub fn parse_selbri_5<'arena>(toks: &[Token], pos: usize, arena: &'arena Arena) -> (out: Parsed<
    Selbri5<'arena>,
>)
    requires
        pos <= toks.len(),
    ensures
        outcome(out, pos) == spec_selbri_5(toks@, pos as nat),
        out matches Ok((end, node)) ==> pos < end <= toks.len() && is_selbri_5(
            node,
            toks@,
            pos as nat,
        ),
    decreases toks.len() - pos, 73nat,
{
    proof {
        lemma_selbri_5(toks@, pos as nat);
    }
    let (at1, field_0) = many0_selbri_guhek(toks, pos, arena)?;
    let (at2, field_1) = parse_selbri_6(toks, at1, arena)?;
    let node = Selbri5(field_0, field_1);
    proof {
        lemma_is_selbri_5(node, toks@, pos as nat);
    }
    Ok((at2, node))
}

/// Parse `SelbriGuhek` at `pos`; see [`spec_selbri_guhek`].
pub fn parse_selbri_guhek<'arena>(
    toks: &[Token],
    pos: usize,
    arena: &'arena Arena,
) -> (out: Parsed<
    NaheGuhekTGik<'arena, Selbri<'arena>>,
>)
    requires
        pos <= toks.len(),
    ensures
        outcome(out, pos) == spec_selbri_guhek(toks@, pos as nat),
        out matches Ok((end, node)) ==> pos < end <= toks.len() && is_selbri_guhek(
            node,
            toks@,
            pos as nat,
        ),
    decreases toks.len() - pos, 26nat,
{
    proof {
        lemma_selbri_guhek(toks@, pos as nat);
    }
    let (at1, field_0) = opt(pos, parse_word(toks, pos, arena, Selmaho::Nahe))?;
    let (at2, field_1) = parse_frees(toks, at1, arena)?;
    let (at3, field_2) = parse_guhek(toks, at2, arena)?;
    let (at4, field_3) = parse_selbri(toks, at3, arena)?;
    let (at5, field_4) = parse_gik(toks, at4, arena)?;
    let node = NaheGuhekTGik(field_0, field_1, field_2, field_3, field_4);
    proof {
        lemma_is_selbri_guhek(node, toks@, pos as nat);
    }
    Ok((at5, node))
}

/// Parse `SelbriGuhek` from `pos` on as often as it matches; see [`spec_many0_selbri_guhek`].
pub fn many0_selbri_guhek<'arena>(
    toks: &[Token],
    pos: usize,
    arena: &'arena Arena,
) -> (out: Parsed<
    &'arena [NaheGuhekTGik<'arena, Selbri<'arena>>],
>)
    requires
        pos <= toks.len(),
    ensures
        outcome(out, pos) == spec_many0_selbri_guhek(toks@, pos as nat),
        out matches Ok((end, items)) ==> pos <= end <= toks.len() && (items@.len() == 0 <==> end
            == pos) && is_row_of_selbri_guhek(items@, toks@, pos as nat),
    decreases toks.len() - pos, 27nat,
{
    let mut items: Vec<NaheGuhekTGik<'arena, Selbri<'arena>>> = Vec::new();
    let mut at: usize = pos;
    loop
        invariant
            pos <= at <= toks.len(),
            items@.len() == 0 <==> at == pos,
            at == pos + run_of_selbri_guhek(toks@, pos as nat, items@.len()),
            forall|i: int|
                #![trigger items@[i]]
                #![trigger run_of_selbri_guhek(toks@, pos as nat, i as nat)]
                0 <= i < items@.len() ==> spec_selbri_guhek(
                    toks@,
                    pos as nat + run_of_selbri_guhek(toks@, pos as nat, i as nat),
                ) is Matched && is_selbri_guhek(
                    items@[i],
                    toks@,
                    pos as nat + run_of_selbri_guhek(toks@, pos as nat, i as nat),
                ),
            shifted(
                spec_many0_selbri_guhek(toks@, at as nat),
                (at - pos) as nat,
            ) == spec_many0_selbri_guhek(
                toks@,
                pos as nat,
            ),
        decreases toks.len() - at,
    {
        proof {
            lemma_many0_selbri_guhek(toks@, at as nat);
        }
        match parse_selbri_guhek(toks, at, arena) {
            Ok((end, item)) => {
                if end == at {
                    return fail(Error::Combinator(ErrorKind::Many0), at);
                }
                items.push(item);
                at = end;
            },
            Err(failed) => {
                if failed.fatal {
                    return Err(failed);
                }
                proof {
                    lemma_is_row_of_selbri_guhek(items@, toks@, pos as nat);
                }
                return Ok((at, keep_all(arena, items)));
            },
        }
    }
}

/// Parse `Guhek` at `pos`; see [`spec_guhek`].
pub fn parse_guhek<'arena>(toks: &[Token], pos: usize, arena: &'arena Arena) -> (out: Parsed<
    Guhek<'arena>,
>)
    requires
        pos <= toks.len(),
    ensures
        outcome(out, pos) == spec_guhek(toks@, pos as nat),
        out matches Ok((end, node)) ==> pos < end <= toks.len() && is_guhek(
            node,
            toks@,
            pos as nat,
        ),
    decreases toks.len() - pos, 25nat,
{
    proof {
        lemma_guhek(toks@, pos as nat);
    }
    let (at1, field_0) = opt(pos, parse_word(toks, pos, arena, Selmaho::Se))?;
    let (at2, field_1) = parse_word(toks, at1, arena, Selmaho::Guha)?;
    let (at3, field_2) = opt(at2, parse_word(toks, at2, arena, Selmaho::Nai))?;
    let (at4, field_3) = parse_frees(toks, at3, arena)?;
    let node = Guhek(field_0, field_1, field_2, field_3);
    proof {
        lemma_is_guhek(node, toks@, pos as nat);
    }
    Ok((at4, node))
}

/// Parse `Gik` at `pos`; see [`spec_gik`].
pub fn parse_gik<'arena>(toks: &[Token], pos: usize, arena: &'arena Arena) -> (out: Parsed<
    Gik<'arena>,
>)
    requires
        pos <= toks.len(),
    ensures
        outcome(out, pos) == spec_gik(toks@, pos as nat),
        out matches Ok((end, node)) ==> pos < end <= toks.len() && is_gik(
            node,
            toks@,
            pos as nat,
        ),
    decreases toks.len() - pos, 25nat,
{
    proof {
        lemma_gik(toks@, pos as nat);
    }
    let (at1, field_0) = parse_word(toks, pos, arena, Selmaho::Gi)?;
    let (at2, field_1) = opt(at1, parse_word(toks, at1, arena, Selmaho::Nai))?;
    let (at3, field_2) = parse_frees(toks, at2, arena)?;
    let node = Gik(field_0, field_1, field_2);
    proof {
        lemma_is_gik(node, toks@, pos as nat);
    }
    Ok((at3, node))
}

/// Parse `Selbri6` at `pos`; see [`spec_selbri_6`].
pub fn parse_selbri_6<'arena>(toks: &[Token], pos: usize, arena: &'arena Arena) -> (out: Parsed<
    Selbri6<'arena>,
>)
    requires
        pos <= toks.len(),
    ensures
        outcome(out, pos) == spec_selbri_6(toks@, pos as nat),
        out matches Ok((end, node)) ==> pos < end <= toks.len() && is_selbri_6(
            node,
            toks@,
            pos as nat,
        ),
    decreases toks.len() - pos, 72nat,
{
    proof {
        lemma_selbri_6(toks@, pos as nat);
    }
    let (at1, field_0) = parse_tanru_unit_list(toks, pos, arena)?;
    let node = Selbri6(field_0);
    proof {
        lemma_is_selbri_6(node, toks@, pos as nat);
    }
    Ok((at1, node))
}

/// Parse `TanruUnitList` at `pos`; see [`spec_tanru_unit_list`].
pub fn parse_tanru_unit_list<'arena>(
    toks: &[Token],
    pos: usize,
    arena: &'arena Arena,
) -> (out: Parsed<
    Separated<'arena, TanruUnit<'arena>, WithFree<'arena, Word<'arena>>>,
>)
    requires
        pos <= toks.len(),
    ensures
        outcome(out, pos) == spec_tanru_unit_list(toks@, pos as nat),
        out matches Ok((end, node)) ==> pos < end <= toks.len() && is_tanru_unit_list(
            node,
            toks@,
            pos as nat,
        ),
    decreases toks.len() - pos, 71nat,
{
    proof {
        lemma_tanru_unit_list(toks@, pos as nat);
    }
    let (at1, first) = place(arena, parse_tanru_unit(toks, pos, arena))?;
    let (at2, rest) = many0_tanru_unit_list_next(toks, at1, arena)?;
    let node = Separated { first, rest };
    proof {
        lemma_is_tanru_unit_list(node, toks@, pos as nat);
    }
    Ok((at2, node))
}

/// Parse `TanruUnit` at `pos`; see [`spec_tanru_unit`].
pub fn parse_tanru_unit<'arena>(toks: &[Token], pos: usize, arena: &'arena Arena) -> (out: Parsed<
    TanruUnit<'arena>,
>)
    requires
        pos <= toks.len(),
    ensures
        outcome(out, pos) == spec_tanru_unit(toks@, pos as nat),
        out matches Ok((end, node)) ==> pos < end <= toks.len() && is_tanru_unit(
            node,
            toks@,
            pos as nat,
        ),
    decreases toks.len() - pos, 68nat,
{
    proof {
        lemma_tanru_unit(toks@, pos as nat);
    }
    let (at1, field_0) = parse_tanru_unit_1_list(toks, pos, arena)?;
    let node = TanruUnit(field_0);
    proof {
        lemma_is_tanru_unit(node, toks@, pos as nat);
    }
    Ok((at1, node))
}

/// Parse `TanruUnit1List` at `pos`; see [`spec_tanru_unit_1_list`].
pub fn parse_tanru_unit_1_list<'arena>(
    toks: &[Token],
    pos: usize,
    arena: &'arena Arena,
) -> (out: Parsed<
    Separated<'arena, TanruUnit1<'arena>, WithFree<'arena, Word<'arena>>>,
>)
    requires
        pos <= toks.len(),
    ensures
        outcome(out, pos) == spec_tanru_unit_1_list(toks@, pos as nat),
        out matches Ok((end, node)) ==> pos < end <= toks.len() && is_tanru_unit_1_list(
            node,
            toks@,
            pos as nat,
        ),
    decreases toks.len() - pos, 67nat,
{
    proof {
        lemma_tanru_unit_1_list(toks@, pos as nat);
    }
    let (at1, first) = place(arena, parse_tanru_unit_1(toks, pos, arena))?;
    let (at2, rest) = many0_tanru_unit_1_list_next(toks, at1, arena)?;
    let node = Separated { first, rest };
    proof {
        lemma_is_tanru_unit_1_list(node, toks@, pos as nat);
    }
    Ok((at2, node))
}

/// Parse `TanruUnit1` at `pos`; see [`spec_tanru_unit_1`].
pub fn parse_tanru_unit_1<'arena>(
    toks: &[Token],
    pos: usize,
    arena: &'arena Arena,
) -> (out: Parsed<
    TanruUnit1<'arena>,
>)
    requires
        pos <= toks.len(),
    ensures
        outcome(out, pos) == spec_tanru_unit_1(toks@, pos as nat),
        out matches Ok((end, node)) ==> pos < end <= toks.len() && is_tanru_unit_1(
            node,
            toks@,
            pos as nat,
        ),
    decreases toks.len() - pos, 64nat,
{
    proof {
        lemma_tanru_unit_1(toks@, pos as nat);
    }
    let (at1, before) = many0_before_tanru_unit(toks, pos, arena)?;
    let (at2, inner) = parse_tanru_unit_2(toks, at1, arena)?;
    let (at3, bound_arguments) = opt(at2, parse_bound_arguments(toks, at2, arena))?;
    let node = TanruUnit1 { before, inner, bound_arguments };
    proof {
        lemma_is_tanru_unit_1(node, toks@, pos as nat);
    }
    Ok((at3, node))
}

/// Parse `BeforeTanruUnit` at `pos`; see [`spec_before_tanru_unit`].
pub fn parse_before_tanru_unit<'arena>(
    toks: &[Token],
    pos: usize,
    arena: &'arena Arena,
) -> (out: Parsed<
    BeforeTanruUnit<'arena>,
>)
    requires
        pos <= toks.len(),
    ensures
        outcome(out, pos) == spec_before_tanru_unit(toks@, pos as nat),
        out matches Ok((end, node)) ==> pos < end <= toks.len() && is_before_tanru_unit(
            node,
            toks@,
            pos as nat,
        ),
    decreases toks.len() - pos, 33nat,
{
    proof {
        lemma_before_tanru_unit(toks@, pos as nat);
        lemma_is_before_tanru_unit(toks@, pos as nat);
    }
    let tried = parse_before_tanru_unit_jai(toks, pos, arena);
    if settled(&tried) {
        return tried;
    }
    let error = error_of(tried);
    let tried = parse_before_tanru_unit_nahe(toks, pos, arena);
    if settled(&tried) {
        return tried;
    }
    let error = error.or(error_of(tried));
    let tried = parse_before_tanru_unit_se(toks, pos, arena);
    if settled(&tried) {
        return tried;
    }
    let error = error.or(error_of(tried));
    Err(Failed { fatal: false, error })
}

/// Parse `BeforeTanruUnit` from `pos` on as often as it matches; see [`spec_many0_before_tanru_unit`].
pub fn many0_before_tanru_unit<'arena>(
    toks: &[Token],
    pos: usize,
    arena: &'arena Arena,
) -> (out: Parsed<
    &'arena [BeforeTanruUnit<'arena>],
>)
    requires
        pos <= toks.len(),
    ensures
        outcome(out, pos) == spec_many0_before_tanru_unit(toks@, pos as nat),
        out matches Ok((end, items)) ==> pos <= end <= toks.len() && (items@.len() == 0 <==> end
            == pos) && is_row_of_before_tanru_unit(items@, toks@, pos as nat),
    decreases toks.len() - pos, 34nat,
{
    let mut items: Vec<BeforeTanruUnit<'arena>> = Vec::new();
    let mut at: usize = pos;
    loop
        invariant
            pos <= at <= toks.len(),
            items@.len() == 0 <==> at == pos,
            at == pos + run_of_before_tanru_unit(toks@, pos as nat, items@.len()),
            forall|i: int|
                #![trigger items@[i]]
                #![trigger run_of_before_tanru_unit(toks@, pos as nat, i as nat)]
                0 <= i < items@.len() ==> spec_before_tanru_unit(
                    toks@,
                    pos as nat + run_of_before_tanru_unit(toks@, pos as nat, i as nat),
                ) is Matched && is_before_tanru_unit(
                    items@[i],
                    toks@,
                    pos as nat + run_of_before_tanru_unit(toks@, pos as nat, i as nat),
                ),
            shifted(
                spec_many0_before_tanru_unit(toks@, at as nat),
                (at - pos) as nat,
            ) == spec_many0_before_tanru_unit(
                toks@,
                pos as nat,
            ),
        decreases toks.len() - at,
    {
        proof {
            lemma_many0_before_tanru_unit(toks@, at as nat);
        }
        match parse_before_tanru_unit(toks, at, arena) {
            Ok((end, item)) => {
                if end == at {
                    return fail(Error::Combinator(ErrorKind::Many0), at);
                }
                items.push(item);
                at = end;
            },
            Err(failed) => {
                if failed.fatal {
                    return Err(failed);
                }
                proof {
                    lemma_is_row_of_before_tanru_unit(items@, toks@, pos as nat);
                }
                return Ok((at, keep_all(arena, items)));
            },
        }
    }
}

/// Parse `BeforeTanruUnitJai` at `pos`; see [`spec_before_tanru_unit_jai`].
pub fn parse_before_tanru_unit_jai<'arena>(
    toks: &[Token],
    pos: usize,
    arena: &'arena Arena,
) -> (out: Parsed<
    BeforeTanruUnit<'arena>,
>)
    requires
        pos <= toks.len(),
    ensures
        outcome(out, pos) == spec_before_tanru_unit_jai(toks@, pos as nat),
        out matches Ok((end, node)) ==> pos < end <= toks.len() && is_before_tanru_unit_jai(
            node,
            toks@,
            pos as nat,
        ),
    decreases toks.len() - pos, 32nat,
{
    proof {
        lemma_before_tanru_unit_jai(toks@, pos as nat);
    }
    let (at1, jai) = parse_word_with_free(toks, pos, arena, Selmaho::Jai)?;
    let (at2, tag) = opt(at1, parse_tag_words(toks, at1, arena))?;
    let node = BeforeTanruUnit::Jai { jai, tag };
    proof {
        lemma_is_before_tanru_unit_jai(node, toks@, pos as nat);
    }
    Ok((at2, node))
}

/// Parse `BeforeTanruUnitNahe` at `pos`; see [`spec_before_tanru_unit_nahe`].
pub fn parse_before_tanru_unit_nahe<'arena>(
    toks: &[Token],
    pos: usize,
    arena: &'arena Arena,
) -> (out: Parsed<
    BeforeTanruUnit<'arena>,
>)
    requires
        pos <= toks.len(),
    ensures
        outcome(out, pos) == spec_before_tanru_unit_nahe(toks@, pos as nat),
        out matches Ok((end, node)) ==> pos < end <= toks.len() && is_before_tanru_unit_nahe(
            node,
            toks@,
            pos as nat,
        ),
    decreases toks.len() - pos, 4nat,
{
    proof {
        lemma_before_tanru_unit_nahe(toks@, pos as nat);
    }
    let (at1, field_0) = parse_word_with_free(toks, pos, arena, Selmaho::Nahe)?;
    let node = BeforeTanruUnit::Nahe(field_0);
    proof {
        lemma_is_before_tanru_unit_nahe(node, toks@, pos as nat);
    }
    Ok((at1, node))
}

/// Parse `BeforeTanruUnitSe` at `pos`; see [`spec_before_tanru_unit_se`].
pub fn parse_before_tanru_unit_se<'arena>(
    toks: &[Token],
    pos: usize,
    arena: &'arena Arena,
) -> (out: Parsed<
    BeforeTanruUnit<'arena>,
>)
    requires
        pos <= toks.len(),
    ensures
        outcome(out, pos) == spec_before_tanru_unit_se(toks@, pos as nat),
        out matches Ok((end, node)) ==> pos < end <= toks.len() && is_before_tanru_unit_se(
            node,
            toks@,
            pos as nat,
        ),
    decreases toks.len() - pos, 4nat,
{
    proof {
        lemma_before_tanru_unit_se(toks@, pos as nat);
    }
    let (at1, field_0) = parse_word_with_free(toks, pos, arena, Selmaho::Se)?;
    let node = BeforeTanruUnit::Se(field_0);
    proof {
        lemma_is_before_tanru_unit_se(node, toks@, pos as nat);
    }
    Ok((at1, node))
}

/// Parse `TanruUnit2` at `pos`; see [`spec_tanru_unit_2`].
pub fn parse_tanru_unit_2<'arena>(
    toks: &[Token],
    pos: usize,
    arena: &'arena Arena,
) -> (out: Parsed<
    TanruUnit2<'arena>,
>)
    requires
        pos <= toks.len(),
    ensures
        outcome(out, pos) == spec_tanru_unit_2(toks@, pos as nat),
        out matches Ok((end, node)) ==> pos < end <= toks.len() && is_tanru_unit_2(
            node,
            toks@,
            pos as nat,
        ),
    decreases toks.len() - pos, 46nat,
{
    proof {
        lemma_tanru_unit_2(toks@, pos as nat);
        lemma_is_tanru_unit_2(toks@, pos as nat);
    }
    let tried = parse_tanru_unit_2_grouped_tanru(toks, pos, arena);
    if settled(&tried) {
        return tried;
    }
    let error = error_of(tried);
    let tried = parse_tanru_unit_2_gismu(toks, pos, arena);
    if settled(&tried) {
        return tried;
    }
    let error = error.or(error_of(tried));
    let tried = parse_tanru_unit_2_lujvo(toks, pos, arena);
    if settled(&tried) {
        return tried;
    }
    let error = error.or(error_of(tried));
    let tried = parse_tanru_unit_2_fuhivla(toks, pos, arena);
    if settled(&tried) {
        return tried;
    }
    let error = error.or(error_of(tried));
    let tried = parse_tanru_unit_2_goha(toks, pos, arena);
    if settled(&tried) {
        return tried;
    }
    let error = error.or(error_of(tried));
    let tried = parse_tanru_unit_2_moi(toks, pos, arena);
    if settled(&tried) {
        return tried;
    }
    let error = error.or(error_of(tried));
    let tried = parse_tanru_unit_2_me(toks, pos, arena);
    if settled(&tried) {
        return tried;
    }
    let error = error.or(error_of(tried));
    let tried = parse_tanru_unit_2_nu(toks, pos, arena);
    if settled(&tried) {
        return tried;
    }
    let error = error.or(error_of(tried));
    let tried = parse_tanru_unit_2_nuha(toks, pos, arena);
    if settled(&tried) {
        return tried;
    }
    let error = error.or(error_of(tried));
    Err(Failed { fatal: false, error })
}

/// Parse `TanruUnit2GroupedTanru` at `pos`; see [`spec_tanru_unit_2_grouped_tanru`].
pub fn parse_tanru_unit_2_grouped_tanru<'arena>(
    toks: &[Token],
    pos: usize,
    arena: &'arena Arena,
) -> (out: Parsed<
    TanruUnit2<'arena>,
>)
    requires
        pos <= toks.len(),
    ensures
        outcome(out, pos) == spec_tanru_unit_2_grouped_tanru(toks@, pos as nat),
        out matches Ok((end, node)) ==> pos < end <= toks.len() && is_tanru_unit_2_grouped_tanru(
            node,
            toks@,
            pos as nat,
        ),
    decreases toks.len() - pos, 25nat,
{
    proof {
        lemma_tanru_unit_2_grouped_tanru(toks@, pos as nat);
    }
    let (at1, ke) = parse_word_with_free(toks, pos, arena, Selmaho::Ke)?;
    let (at2, group) = parse_selbri_2(toks, at1, arena)?;
    let (at3, kehe) = opt(at2, parse_word(toks, at2, arena, Selmaho::Kehe))?;
    let (at4, frees) = parse_frees(toks, at3, arena)?;
    let node = TanruUnit2::GroupedTanru { ke, group, kehe, frees };
    proof {
        lemma_is_tanru_unit_2_grouped_tanru(node, toks@, pos as nat);
    }
    Ok((at4, node))
}

/// Parse `TanruUnit2Gismu` at `pos`; see [`spec_tanru_unit_2_gismu`].
pub fn parse_tanru_unit_2_gismu<'arena>(
    toks: &[Token],
    pos: usize,
    arena: &'arena Arena,
) -> (out: Parsed<
    TanruUnit2<'arena>,
>)
    requires
        pos <= toks.len(),
    ensures
        outcome(out, pos) == spec_tanru_unit_2_gismu(toks@, pos as nat),
        out matches Ok((end, node)) ==> pos < end <= toks.len() && is_tanru_unit_2_gismu(
            node,
            toks@,
            pos as nat,
        ),
    decreases toks.len() - pos, 4nat,
{
    proof {
        lemma_tanru_unit_2_gismu(toks@, pos as nat);
    }
    let (at1, field_0) = parse_word_with_free(toks, pos, arena, Selmaho::Gismu)?;
    let node = TanruUnit2::Gismu(field_0);
    proof {
        lemma_is_tanru_unit_2_gismu(node, toks@, pos as nat);
    }
    Ok((at1, node))
}

/// Parse `TanruUnit2Lujvo` at `pos`; see [`spec_tanru_unit_2_lujvo`].
pub fn parse_tanru_unit_2_lujvo<'arena>(
    toks: &[Token],
    pos: usize,
    arena: &'arena Arena,
) -> (out: Parsed<
    TanruUnit2<'arena>,
>)
    requires
        pos <= toks.len(),
    ensures
        outcome(out, pos) == spec_tanru_unit_2_lujvo(toks@, pos as nat),
        out matches Ok((end, node)) ==> pos < end <= toks.len() && is_tanru_unit_2_lujvo(
            node,
            toks@,
            pos as nat,
        ),
    decreases toks.len() - pos, 4nat,
{
    proof {
        lemma_tanru_unit_2_lujvo(toks@, pos as nat);
    }
    let (at1, field_0) = parse_word_with_free(toks, pos, arena, Selmaho::Lujvo)?;
    let node = TanruUnit2::Lujvo(field_0);
    proof {
        lemma_is_tanru_unit_2_lujvo(node, toks@, pos as nat);
    }
    Ok((at1, node))
}

/// Parse `TanruUnit2Fuhivla` at `pos`; see [`spec_tanru_unit_2_fuhivla`].
pub fn parse_tanru_unit_2_fuhivla<'arena>(
    toks: &[Token],
    pos: usize,
    arena: &'arena Arena,
) -> (out: Parsed<
    TanruUnit2<'arena>,
>)
    requires
        pos <= toks.len(),
    ensures
        outcome(out, pos) == spec_tanru_unit_2_fuhivla(toks@, pos as nat),
        out matches Ok((end, node)) ==> pos < end <= toks.len() && is_tanru_unit_2_fuhivla(
            node,
            toks@,
            pos as nat,
        ),
    decreases toks.len() - pos, 4nat,
{
    proof {
        lemma_tanru_unit_2_fuhivla(toks@, pos as nat);
    }
    let (at1, field_0) = parse_word_with_free(toks, pos, arena, Selmaho::Fuhivla)?;
    let node = TanruUnit2::Fuhivla(field_0);
    proof {
        lemma_is_tanru_unit_2_fuhivla(node, toks@, pos as nat);
    }
    Ok((at1, node))
}

/// Parse `TanruUnit2Goha` at `pos`; see [`spec_tanru_unit_2_goha`].
pub fn parse_tanru_unit_2_goha<'arena>(
    toks: &[Token],
    pos: usize,
    arena: &'arena Arena,
) -> (out: Parsed<
    TanruUnit2<'arena>,
>)
    requires
        pos <= toks.len(),
    ensures
        outcome(out, pos) == spec_tanru_unit_2_goha(toks@, pos as nat),
        out matches Ok((end, node)) ==> pos < end <= toks.len() && is_tanru_unit_2_goha(
            node,
            toks@,
            pos as nat,
        ),
    decreases toks.len() - pos, 25nat,
{
    proof {
        lemma_tanru_unit_2_goha(toks@, pos as nat);
    }
    let (at1, goha) = parse_word(toks, pos, arena, Selmaho::Goha)?;
    let (at2, raho) = opt(at1, parse_word(toks, at1, arena, Selmaho::Raho))?;
    let (at3, frees) = parse_frees(toks, at2, arena)?;
    let node = TanruUnit2::Goha { goha, raho, frees };
    proof {
        lemma_is_tanru_unit_2_goha(node, toks@, pos as nat);
    }
    Ok((at3, node))
}

/// Parse `TanruUnit2Moi` at `pos`; see [`spec_tanru_unit_2_moi`].
pub fn parse_tanru_unit_2_moi<'arena>(
    toks: &[Token],
    pos: usize,
    arena: &'arena Arena,
) -> (out: Parsed<
    TanruUnit2<'arena>,
>)
    requires
        pos <= toks.len(),
    ensures
        outcome(out, pos) == spec_tanru_unit_2_moi(toks@, pos as nat),
        out matches Ok((end, node)) ==> pos < end <= toks.len() && is_tanru_unit_2_moi(
            node,
            toks@,
            pos as nat,
        ),
    decreases toks.len() - pos, 25nat,
{
    proof {
        lemma_tanru_unit_2_moi(toks@, pos as nat);
    }
    let (at1, field_0) = parse_misc_numbers(toks, pos, arena)?;
    let (at2, field_1) = parse_word(toks, at1, arena, Selmaho::Moi)?;
    let (at3, field_2) = parse_frees(toks, at2, arena)?;
    let node = TanruUnit2::Moi(field_0, field_1, field_2);
    proof {
        lemma_is_tanru_unit_2_moi(node, toks@, pos as nat);
    }
    Ok((at3, node))
}

/// Parse `MiscNumbers` at `pos`; see [`spec_misc_numbers`].
pub fn parse_misc_numbers<'arena>(
    toks: &[Token],
    pos: usize,
    arena: &'arena Arena,
) -> (out: Parsed<
    MiscNumbers<'arena>,
>)
    requires
        pos <= toks.len(),
    ensures
        outcome(out, pos) == spec_misc_numbers(toks@, pos as nat),
        out matches Ok((end, node)) ==> pos < end <= toks.len() && is_misc_numbers(
            node,
            toks@,
            pos as nat,
        ),
    decreases toks.len() - pos, 16nat,
{
    proof {
        lemma_misc_numbers(toks@, pos as nat);
    }
    let (at1, field_0) = many1_number_rest(toks, pos, arena)?;
    let node = MiscNumbers(field_0);
    proof {
        lemma_is_misc_numbers(node, toks@, pos as nat);
    }
    Ok((at1, node))
}

/// Parse `TanruUnit2Me` at `pos`; see [`spec_tanru_unit_2_me`].
pub fn parse_tanru_unit_2_me<'arena>(
    toks: &[Token],
    pos: usize,
    arena: &'arena Arena,
) -> (out: Parsed<
    TanruUnit2<'arena>,
>)
    requires
        pos <= toks.len(),
    ensures
        outcome(out, pos) == spec_tanru_unit_2_me(toks@, pos as nat),
        out matches Ok((end, node)) ==> pos < end <= toks.len() && is_tanru_unit_2_me(
            node,
            toks@,
            pos as nat,
        ),
    decreases toks.len() - pos, 45nat,
{
    proof {
        lemma_tanru_unit_2_me(toks@, pos as nat);
    }
    let (at1, me) = parse_word_with_free(toks, pos, arena, Selmaho::Me)?;
    let (at2, inner) = parse_sumti(toks, at1, arena)?;
    let (at3, mehu) = opt(at2, parse_word(toks, at2, arena, Selmaho::Mehu))?;
    let (at4, frees) = parse_frees(toks, at3, arena)?;
    let (at5, moi) = opt(at4, parse_word_with_free(toks, at4, arena, Selmaho::Moi))?;
    let node = TanruUnit2::Me { me, inner, mehu, frees, moi };
    proof {
        lemma_is_tanru_unit_2_me(node, toks@, pos as nat);
    }
    Ok((at5, node))
}

/// Parse `Sumti` at `pos`; see [`spec_sumti`].
pub fn parse_sumti<'arena>(toks: &[Token], pos: usize, arena: &'arena Arena) -> (out: Parsed<
    Sumti<'arena>,
>)
    requires
        pos <= toks.len(),
    ensures
        outcome(out, pos) == spec_sumti(toks@, pos as nat),
        out matches Ok((end, node)) ==> pos < end <= toks.len() && is_sumti(
            node,
            toks@,
            pos as nat,
        ),
    decreases toks.len() - pos, 44nat,
{
    proof {
        lemma_sumti(toks@, pos as nat);
    }
    let (at1, inner) = parse_sumti_1(toks, pos, arena)?;
    let (at2, vuho_relative) = opt(at1, parse_vuho_relative(toks, at1, arena))?;
    let node = Sumti { inner, vuho_relative };
    proof {
        lemma_is_sumti(node, toks@, pos as nat);
    }
    Ok((at2, node))
}

/// Parse `Sumti1` at `pos`; see [`spec_sumti_1`].
pub fn parse_sumti_1<'arena>(toks: &[Token], pos: usize, arena: &'arena Arena) -> (out: Parsed<
    Sumti1<'arena>,
>)
    requires
        pos <= toks.len(),
    ensures
        outcome(out, pos) == spec_sumti_1(toks@, pos as nat),
        out matches Ok((end, node)) ==> pos < end <= toks.len() && is_sumti_1(
            node,
            toks@,
            pos as nat,
        ),
    decreases toks.len() - pos, 43nat,
{
    proof {
        lemma_sumti_1(toks@, pos as nat);
    }
    let (at1, field_0) = parse_sumti_2(toks, pos, arena)?;
    let (at2, field_1) = many0_sumti_connected_post(toks, at1, arena)?;
    let node = Sumti1(field_0, field_1);
    proof {
        lemma_is_sumti_1(node, toks@, pos as nat);
    }
    Ok((at2, node))
}

/// Parse `Sumti2` at `pos`; see [`spec_sumti_2`].
pub fn parse_sumti_2<'arena>(toks: &[Token], pos: usize, arena: &'arena Arena) -> (out: Parsed<
    Separated<'arena, Sumti3<'arena>, (JoikEk<'arena>, Option<TagWords<'arena>>, Word<'arena>, Frees<'arena>)>,
>)
    requires
        pos <= toks.len(),
    ensures
        outcome(out, pos) == spec_sumti_2(toks@, pos as nat),
        out matches Ok((end, node)) ==> pos < end <= toks.len() && is_sumti_2(
            node,
            toks@,
            pos as nat,
        ),
    decreases toks.len() - pos, 39nat,
{
    proof {
        lemma_sumti_2(toks@, pos as nat);
    }
    let (at1, first) = place(arena, parse_sumti_3(toks, pos, arena))?;
    let (at2, rest) = many0_sumti_2_next(toks, at1, arena)?;
    let node = Separated { first, rest };
    proof {
        lemma_is_sumti_2(node, toks@, pos as nat);
    }
    Ok((at2, node))
}

/// Parse `Sumti3` at `pos`; see [`spec_sumti_3`].
pub fn parse_sumti_3<'arena>(toks: &[Token], pos: usize, arena: &'arena Arena) -> (out: Parsed<
    Sumti3<'arena>,
>)
    requires
        pos <= toks.len(),
    ensures
        outcome(out, pos) == spec_sumti_3(toks@, pos as nat),
        out matches Ok((end, node)) ==> pos < end <= toks.len() && is_sumti_3(
            node,
            toks@,
            pos as nat,
        ),
    decreases toks.len() - pos, 36nat,
{
    proof {
        lemma_sumti_3(toks@, pos as nat);
    }
    let (at1, field_0) = many0_sumti_3_connected_pre(toks, pos, arena)?;
    let (at2, field_1) = parse_sumti_4(toks, at1, arena)?;
    let node = Sumti3(field_0, field_1);
    proof {
        lemma_is_sumti_3(node, toks@, pos as nat);
    }
    Ok((at2, node))
}

/// Parse `Sumti3ConnectedPre` at `pos`; see [`spec_sumti_3_connected_pre`].
pub fn parse_sumti_3_connected_pre<'arena>(
    toks: &[Token],
    pos: usize,
    arena: &'arena Arena,
) -> (out: Parsed<
    Sumti3ConnectedPre<'arena>,
>)
    requires
        pos <= toks.len(),
    ensures
        outcome(out, pos) == spec_sumti_3_connected_pre(toks@, pos as nat),
        out matches Ok((end, node)) ==> pos < end <= toks.len() && is_sumti_3_connected_pre(
            node,
            toks@,
            pos as nat,
        ),
    decreases toks.len() - pos, 34nat,
{
    proof {
        lemma_sumti_3_connected_pre(toks@, pos as nat);
    }
    let (at1, field_0) = parse_gek(toks, pos, arena)?;
    let (at2, field_1) = parse_sumti(toks, at1, arena)?;
    let (at3, field_2) = parse_gik(toks, at2, arena)?;
    let node = Sumti3ConnectedPre(field_0, field_1, field_2);
    proof {
        lemma_is_sumti_3_connected_pre(node, toks@, pos as nat);
    }
    Ok((at3, node))
}

/// Parse `Sumti3ConnectedPre` from `pos` on as often as it matches; see [`spec_many0_sumti_3_connected_pre`].
pub fn many0_sumti_3_connected_pre<'arena>(
    toks: &[Token],
    pos: usize,
    arena: &'arena Arena,
) -> (out: Parsed<
    &'arena [Sumti3ConnectedPre<'arena>],
>)
    requires
        pos <= toks.len(),
    ensures
        outcome(out, pos) == spec_many0_sumti_3_connected_pre(toks@, pos as nat),
        out matches Ok((end, items)) ==> pos <= end <= toks.len() && (items@.len() == 0 <==> end
            == pos) && is_row_of_sumti_3_connected_pre(items@, toks@, pos as nat),
    decreases toks.len() - pos, 35nat,
{
    let mut items: Vec<Sumti3ConnectedPre<'arena>> = Vec::new();
    let mut at: usize = pos;
    loop
        invariant
            pos <= at <= toks.len(),
            items@.len() == 0 <==> at == pos,
            at == pos + run_of_sumti_3_connected_pre(toks@, pos as nat, items@.len()),
            forall|i: int|
                #![trigger items@[i]]
                #![trigger run_of_sumti_3_connected_pre(toks@, pos as nat, i as nat)]
                0 <= i < items@.len() ==> spec_sumti_3_connected_pre(
                    toks@,
                    pos as nat + run_of_sumti_3_connected_pre(toks@, pos as nat, i as nat),
                ) is Matched && is_sumti_3_connected_pre(
                    items@[i],
                    toks@,
                    pos as nat + run_of_sumti_3_connected_pre(toks@, pos as nat, i as nat),
                ),
            shifted(
                spec_many0_sumti_3_connected_pre(toks@, at as nat),
                (at - pos) as nat,
            ) == spec_many0_sumti_3_connected_pre(
                toks@,
                pos as nat,
            ),
        decreases toks.len() - at,
    {
        proof {
            lemma_many0_sumti_3_connected_pre(toks@, at as nat);
        }
        match parse_sumti_3_connected_pre(toks, at, arena) {
            Ok((end, item)) => {
                if end == at {
                    return fail(Error::Combinator(ErrorKind::Many0), at);
                }
                items.push(item);
                at = end;
            },
            Err(failed) => {
                if failed.fatal {
                    return Err(failed);
                }
                proof {
                    lemma_is_row_of_sumti_3_connected_pre(items@, toks@, pos as nat);
                }
                return Ok((at, keep_all(arena, items)));
            },
        }
    }
}

/// Parse `Gek` at `pos`; see [`spec_gek`].
pub fn parse_gek<'arena>(toks: &[Token], pos: usize, arena: &'arena Arena) -> (out: Parsed<
    Gek<'arena>,
>)
    requires
        pos <= toks.len(),
    ensures
        outcome(out, pos) == spec_gek(toks@, pos as nat),
        out matches Ok((end, node)) ==> pos < end <= toks.len() && is_gek(
            node,
            toks@,
            pos as nat,
        ),
    decreases toks.len() - pos, 33nat,
{
    proof {
        lemma_gek(toks@, pos as nat);
        lemma_is_gek(toks@, pos as nat);
    }
    let tried = parse_gek_se_ga_nai(toks, pos, arena);
    if settled(&tried) {
        return tried;
    }
    let error = error_of(tried);
    let tried = parse_gek_joik_gi(toks, pos, arena);
    if settled(&tried) {
        return tried;
    }
    let error = error.or(error_of(tried));
    let tried = parse_gek_tag_gik(toks, pos, arena);
    if settled(&tried) {
        return tried;
    }
    let error = error.or(error_of(tried));
    Err(Failed { fatal: false, error })
}

/// Parse `GekSeGaNai` at `pos`; see [`spec_gek_se_ga_nai`].
pub fn parse_gek_se_ga_nai<'arena>(
    toks: &[Token],
    pos: usize,
    arena: &'arena Arena,
) -> (out: Parsed<
    Gek<'arena>,
>)
    requires
        pos <= toks.len(),
    ensures
        outcome(out, pos) == spec_gek_se_ga_nai(toks@, pos as nat),
        out matches Ok((end, node)) ==> pos < end <= toks.len() && is_gek_se_ga_nai(
            node,
            toks@,
            pos as nat,
        ),
    decreases toks.len() - pos, 25nat,
{
    proof {
        lemma_gek_se_ga_nai(toks@, pos as nat);
    }
    let (at1, field_0) = opt(pos, parse_word(toks, pos, arena, Selmaho::Se))?;
    let (at2, field_1) = parse_word(toks, at1, arena, Selmaho::Ga)?;
    let (at3, field_2) = opt(at2, parse_word(toks, at2, arena, Selmaho::Nai))?;
    let (at4, field_3) = parse_frees(toks, at3, arena)?;
    let node = Gek::SeGaNai(field_0, field_1, field_2, field_3);
    proof {
        lemma_is_gek_se_ga_nai(node, toks@, pos as nat);
    }
    Ok((at4, node))
}

/// Parse `GekJoikGi` at `pos`; see [`spec_gek_joik_gi`].
pub fn parse_gek_joik_gi<'arena>(
    toks: &[Token],
    pos: usize,
    arena: &'arena Arena,
) -> (out: Parsed<
    Gek<'arena>,
>)
    requires
        pos <= toks.len(),
    ensures
        outcome(out, pos) == spec_gek_joik_gi(toks@, pos as nat),
        out matches Ok((end, node)) ==> pos < end <= toks.len() && is_gek_joik_gi(
            node,
            toks@,
            pos as nat,
        ),
    decreases toks.len() - pos, 25nat,
{
    proof {
        lemma_gek_joik_gi(toks@, pos as nat);
    }
    let (at1, field_0) = parse_joik(toks, pos, arena)?;
    let (at2, field_1) = parse_word(toks, at1, arena, Selmaho::Gi)?;
    let (at3, field_2) = parse_frees(toks, at2, arena)?;
    let node = Gek::JoikGi(field_0, field_1, field_2);
    proof {
        lemma_is_gek_joik_gi(node, toks@, pos as nat);
    }
    Ok((at3, node))
}

/// Parse `Joik` at `pos`; see [`spec_joik`].
pub fn parse_joik<'arena>(toks: &[Token], pos: usize, arena: &'arena Arena) -> (out: Parsed<
    Joik<'arena>,
>)
    requires
        pos <= toks.len(),
    ensures
        outcome(out, pos) == spec_joik(toks@, pos as nat),
        out matches Ok((end, node)) ==> pos < end <= toks.len() && is_joik(
            node,
            toks@,
            pos as nat,
        ),
    decreases toks.len() - pos, 5nat,
{
    proof {
        lemma_joik(toks@, pos as nat);
        lemma_is_joik(toks@, pos as nat);
    }
    let tried = parse_joik_se_joi_nai(toks, pos, arena);
    if settled(&tried) {
        return tried;
    }
    let error = error_of(tried);
    let tried = parse_joik_interval(toks, pos, arena);
    if settled(&tried) {
        return tried;
    }
    let error = error.or(error_of(tried));
    let tried = parse_joik_gaho(toks, pos, arena);
    if settled(&tried) {
        return tried;
    }
    let error = error.or(error_of(tried));
    Err(Failed { fatal: false, error })
}

/// Parse `JoikSeJoiNai` at `pos`; see [`spec_joik_se_joi_nai`].
pub fn parse_joik_se_joi_nai<'arena>(
    toks: &[Token],
    pos: usize,
    arena: &'arena Arena,
) -> (out: Parsed<
    Joik<'arena>,
>)
    requires
        pos <= toks.len(),
    ensures
        outcome(out, pos) == spec_joik_se_joi_nai(toks@, pos as nat),
        out matches Ok((end, node)) ==> pos < end <= toks.len() && is_joik_se_joi_nai(
            node,
            toks@,
            pos as nat,
        ),
    decreases toks.len() - pos, 3nat,
{
    proof {
        lemma_joik_se_joi_nai(toks@, pos as nat);
    }
    let (at1, field_0) = opt(pos, parse_word(toks, pos, arena, Selmaho::Se))?;
    let (at2, field_1) = parse_word(toks, at1, arena, Selmaho::Joi)?;
    let (at3, field_2) = opt(at2, parse_word(toks, at2, arena, Selmaho::Nai))?;
    let node = Joik::SeJoiNai(field_0, field_1, field_2);
    proof {
        lemma_is_joik_se_joi_nai(node, toks@, pos as nat);
    }
    Ok((at3, node))
}

/// Parse `JoikInterval` at `pos`; see [`spec_joik_interval`].
pub fn parse_joik_interval<'arena>(
    toks: &[Token],
    pos: usize,
    arena: &'arena Arena,
) -> (out: Parsed<
    Joik<'arena>,
>)
    requires
        pos <= toks.len(),
    ensures
        outcome(out, pos) == spec_joik_interval(toks@, pos as nat),
        out matches Ok((end, node)) ==> pos < end <= toks.len() && is_joik_interval(
            node,
            toks@,
            pos as nat,
        ),
    decreases toks.len() - pos, 4nat,
{
    proof {
        lemma_joik_interval(toks@, pos as nat);
    }
    let (at1, field_0) = parse_interval(toks, pos, arena)?;
    let node = Joik::Interval(field_0);
    proof {
        lemma_is_joik_interval(node, toks@, pos as nat);
    }
    Ok((at1, node))
}

/// Parse `Interval` at `pos`; see [`spec_interval`].
pub fn parse_interval<'arena>(toks: &[Token], pos: usize, arena: &'arena Arena) -> (out: Parsed<
    Interval<'arena>,
>)
    requires
        pos <= toks.len(),
    ensures
        outcome(out, pos) == spec_interval(toks@, pos as nat),
        out matches Ok((end, node)) ==> pos < end <= toks.len() && is_interval(
            node,
            toks@,
            pos as nat,
        ),
    decreases toks.len() - pos, 3nat,
{
    proof {
        lemma_interval(toks@, pos as nat);
    }
    let (at1, field_0) = opt(pos, parse_word(toks, pos, arena, Selmaho::Se))?;
    let (at2, field_1) = parse_word(toks, at1, arena, Selmaho::Bihi)?;
    let (at3, field_2) = opt(at2, parse_word(toks, at2, arena, Selmaho::Nai))?;
    let node = Interval(field_0, field_1, field_2);
    proof {
        lemma_is_interval(node, toks@, pos as nat);
    }
    Ok((at3, node))
}

/// Parse `JoikGaho` at `pos`; see [`spec_joik_gaho`].
pub fn parse_joik_gaho<'arena>(toks: &[Token], pos: usize, arena: &'arena Arena) -> (out: Parsed<
    Joik<'arena>,
>)
    requires
        pos <= toks.len(),
    ensures
        outcome(out, pos) == spec_joik_gaho(toks@, pos as nat),
        out matches Ok((end, node)) ==> pos < end <= toks.len() && is_joik_gaho(
            node,
            toks@,
            pos as nat,
        ),
    decreases toks.len() - pos, 4nat,
{
    proof {
        lemma_joik_gaho(toks@, pos as nat);
    }
    let (at1, field_0) = parse_word(toks, pos, arena, Selmaho::Gaho)?;
    let (at2, field_1) = parse_interval(toks, at1, arena)?;
    let (at3, field_2) = cut(at2, parse_word(toks, at2, arena, Selmaho::Gaho))?;
    let node = Joik::Gaho(field_0, field_1, field_2);
    proof {
        lemma_is_joik_gaho(node, toks@, pos as nat);
    }
    Ok((at3, node))
}

/// Parse `GekTagGik` at `pos`; see [`spec_gek_tag_gik`].
pub fn parse_gek_tag_gik<'arena>(
    toks: &[Token],
    pos: usize,
    arena: &'arena Arena,
) -> (out: Parsed<
    Gek<'arena>,
>)
    requires
        pos <= toks.len(),
    ensures
        outcome(out, pos) == spec_gek_tag_gik(toks@, pos as nat),
        out matches Ok((end, node)) ==> pos < end <= toks.len() && is_gek_tag_gik(
            node,
            toks@,
            pos as nat,
        ),
    decreases toks.len() - pos, 32nat,
{
    proof {
        lemma_gek_tag_gik(toks@, pos as nat);
    }
    let (at1, field_0) = parse_tag_words(toks, pos, arena)?;
    let (at2, field_1) = parse_gik(toks, at1, arena)?;
    let node = Gek::TagGik(field_0, field_1);
    proof {
        lemma_is_gek_tag_gik(node, toks@, pos as nat);
    }
    Ok((at2, node))
}

/// Parse `Sumti4` at `pos`; see [`spec_sumti_4`].
pub fn parse_sumti_4<'arena>(toks: &[Token], pos: usize, arena: &'arena Arena) -> (out: Parsed<
    Sumti4<'arena>,
>)
    requires
        pos <= toks.len(),
    ensures
        outcome(out, pos) == spec_sumti_4(toks@, pos as nat),
        out matches Ok((end, node)) ==> pos < end <= toks.len() && is_sumti_4(
            node,
            toks@,
            pos as nat,
        ),
    decreases toks.len() - pos, 31nat,
{
    proof {
        lemma_sumti_4(toks@, pos as nat);
        lemma_is_sumti_4(toks@, pos as nat);
    }
    let tried = parse_sumti_4_normal(toks, pos, arena);
    if settled(&tried) {
        return tried;
    }
    let error = error_of(tried);
    let tried = parse_sumti_4_selbri_shorthand(toks, pos, arena);
    if settled(&tried) {
        return tried;
    }
    let error = error.or(error_of(tried));
    Err(Failed { fatal: false, error })
}

/// Parse `Sumti4Normal` at `pos`; see [`spec_sumti_4_normal`].
pub fn parse_sumti_4_normal<'arena>(
    toks: &[Token],
    pos: usize,
    arena: &'arena Arena,
) -> (out: Parsed<
    Sumti4<'arena>,
>)
    requires
        pos <= toks.len(),
    ensures
        outcome(out, pos) == spec_sumti_4_normal(toks@, pos as nat),
        out matches Ok((end, node)) ==> pos < end <= toks.len() && is_sumti_4_normal(
            node,
            toks@,
            pos as nat,
        ),
    decreases toks.len() - pos, 30nat,
{
    proof {
        lemma_sumti_4_normal(toks@, pos as nat);
    }
    let (at1, quantifier) = opt(pos, parse_quantifier(toks, pos, arena))?;
    let (at2, inner) = place(arena, parse_sumti_component(toks, at1, arena))?;
    let (at3, relative_clauses) = opt(at2, parse_relative_clauses(toks, at2, arena))?;
    let node = Sumti4::Normal { quantifier, inner, relative_clauses };
    proof {
        lemma_is_sumti_4_normal(node, toks@, pos as nat);
    }
    Ok((at3, node))
}

/// Parse `Quantifier` at `pos`; see [`spec_quantifier`].
pub fn parse_quantifier<'arena>(toks: &[Token], pos: usize, arena: &'arena Arena) -> (out: Parsed<
    Quantifier<'arena>,
>)
    requires
        pos <= toks.len(),
    ensures
        outcome(out, pos) == spec_quantifier(toks@, pos as nat),
        out matches Ok((end, node)) ==> pos < end <= toks.len() && is_quantifier(
            node,
            toks@,
            pos as nat,
        ),
    decreases toks.len() - pos, 26nat,
{
    proof {
        lemma_quantifier(toks@, pos as nat);
        lemma_is_quantifier(toks@, pos as nat);
    }
    let tried = parse_quantifier_mekso(toks, pos, arena);
    if settled(&tried) {
        return tried;
    }
    let error = error_of(tried);
    let tried = parse_quantifier_number(toks, pos, arena);
    if settled(&tried) {
        return tried;
    }
    let error = error.or(error_of(tried));
    Err(Failed { fatal: false, error })
}

/// Parse `QuantifierMekso` at `pos`; see [`spec_quantifier_mekso`].
pub fn parse_quantifier_mekso<'arena>(
    toks: &[Token],
    pos: usize,
    arena: &'arena Arena,
) -> (out: Parsed<
    Quantifier<'arena>,
>)
    requires
        pos <= toks.len(),
    ensures
        outcome(out, pos) == spec_quantifier_mekso(toks@, pos as nat),
        out matches Ok((end, node)) ==> pos < end <= toks.len() && is_quantifier_mekso(
            node,
            toks@,
            pos as nat,
        ),
    decreases toks.len() - pos, 25nat,
{
    proof {
        lemma_quantifier_mekso(toks@, pos as nat);
    }
    let (at1, field_0) = parse_word_with_free(toks, pos, arena, Selmaho::Vei)?;
    let (at2, field_1) = parse_expression(toks, at1, arena)?;
    let (at3, field_2) = opt(at2, parse_word(toks, at2, arena, Selmaho::Veho))?;
    let (at4, field_3) = parse_frees(toks, at3, arena)?;
    let node = Quantifier::Mekso(field_0, field_1, field_2, field_3);
    proof {
        lemma_is_quantifier_mekso(node, toks@, pos as nat);
    }
    Ok((at4, node))
}

/// Parse `Expression` at `pos`; see [`spec_expression`].
pub fn parse_expression<'arena>(toks: &[Token], pos: usize, arena: &'arena Arena) -> (out: Parsed<
    Expression<'arena>,
>)
    requires
        pos <= toks.len(),
    ensures
        outcome(out, pos) == spec_expression(toks@, pos as nat),
        out matches Ok((end, node)) ==> pos < end <= toks.len() && is_expression(
            node,
            toks@,
            pos as nat,
        ),
    decreases toks.len() - pos, 109nat,
{
    proof {
        lemma_expression(toks@, pos as nat);
        lemma_is_expression(toks@, pos as nat);
    }
    let tried = parse_expression_reverse_polish(toks, pos, arena);
    if settled(&tried) {
        return tried;
    }
    let error = error_of(tried);
    let tried = parse_expression_normal(toks, pos, arena);
    if settled(&tried) {
        return tried;
    }
    let error = error.or(error_of(tried));
    Err(Failed { fatal: false, error })
}

/// Parse `ExpressionReversePolish` at `pos`; see [`spec_expression_reverse_polish`].
pub fn parse_expression_reverse_polish<'arena>(
    toks: &[Token],
    pos: usize,
    arena: &'arena Arena,
) -> (out: Parsed<
    Expression<'arena>,
>)
    requires
        pos <= toks.len(),
    ensures
        outcome(out, pos) == spec_expression_reverse_polish(toks@, pos as nat),
        out matches Ok((end, node)) ==> pos < end <= toks.len() && is_expression_reverse_polish(
            node,
            toks@,
            pos as nat,
        ),
    decreases toks.len() - pos, 101nat,
{
    proof {
        lemma_expression_reverse_polish(toks@, pos as nat);
    }
    let (at1, field_0) = parse_word_with_free(toks, pos, arena, Selmaho::Fuha)?;
    let (at2, field_1) = parse_reverse_polish(toks, at1, arena)?;
    let node = Expression::ReversePolish(field_0, field_1);
    proof {
        lemma_is_expression_reverse_polish(node, toks@, pos as nat);
    }
    Ok((at2, node))
}

/// Parse `ReversePolish` at `pos`; see [`spec_reverse_polish`].
pub fn parse_reverse_polish<'arena>(
    toks: &[Token],
    pos: usize,
    arena: &'arena Arena,
) -> (out: Parsed<
    ReversePolish<'arena>,
>)
    requires
        pos <= toks.len(),
    ensures
        outcome(out, pos) == spec_reverse_polish(toks@, pos as nat),
        out matches Ok((end, node)) ==> pos < end <= toks.len() && is_reverse_polish(
            node,
            toks@,
            pos as nat,
        ),
    decreases toks.len() - pos, 100nat,
{
    proof {
        lemma_reverse_polish(toks@, pos as nat);
    }
    let (at1, field_0) = parse_operand(toks, pos, arena)?;
    let (at2, field_1) = many0_rptail(toks, at1, arena)?;
    let node = ReversePolish(field_0, field_1);
    proof {
        lemma_is_reverse_polish(node, toks@, pos as nat);
    }
    Ok((at2, node))
}

/// Parse `Operand` at `pos`; see [`spec_operand`].
pub fn parse_operand<'arena>(toks: &[Token], pos: usize, arena: &'arena Arena) -> (out: Parsed<
    Operand<'arena>,
>)
    requires
        pos <= toks.len(),
    ensures
        outcome(out, pos) == spec_operand(toks@, pos as nat),
        out matches Ok((end, node)) ==> pos < end <= toks.len() && is_operand(
            node,
            toks@,
            pos as nat,
        ),
    decreases toks.len() - pos, 99nat,
{
    proof {
        lemma_operand(toks@, pos as nat);
    }
    let (at1, field_0) = parse_operand_1(toks, pos, arena)?;
    let (at2, field_1) = many0_connected_operand(toks, at1, arena)?;
    let node = Operand(field_0, field_1);
    proof {
        lemma_is_operand(node, toks@, pos as nat);
    }
    Ok((at2, node))
}

/// Parse `Operand1` at `pos`; see [`spec_operand_1`].
pub fn parse_operand_1<'arena>(toks: &[Token], pos: usize, arena: &'arena Arena) -> (out: Parsed<
    Operand1<'arena>,
>)
    requires
        pos <= toks.len(),
    ensures
        outcome(out, pos) == spec_operand_1(toks@, pos as nat),
        out matches Ok((end, node)) ==> pos < end <= toks.len() && is_operand_1(
            node,
            toks@,
            pos as nat,
        ),
    decreases toks.len() - pos, 95nat,
{
    proof {
        lemma_operand_1(toks@, pos as nat);
    }
    let (at1, field_0) = parse_operand_2_list(toks, pos, arena)?;
    let node = Operand1(field_0);
    proof {
        lemma_is_operand_1(node, toks@, pos as nat);
    }
    Ok((at1, node))
}

/// Parse `Operand2List` at `pos`; see [`spec_operand_2_list`].
pub fn parse_operand_2_list<'arena>(
    toks: &[Token],
    pos: usize,
    arena: &'arena Arena,
) -> (out: Parsed<
    Separated<'arena, Operand2<'arena>, (JoikEk<'arena>, Option<TagWords<'arena>>, WithFree<'arena, Word<'arena>>)>,
>)
    requires
        pos <= toks.len(),
    ensures
        outcome(out, pos) == spec_operand_2_list(toks@, pos as nat),
        out matches Ok((end, node)) ==> pos < end <= toks.len() && is_operand_2_list(
            node,
            toks@,
            pos as nat,
        ),
    decreases toks.len() - pos, 94nat,
{
    proof {
        lemma_operand_2_list(toks@, pos as nat);
    }
    let (at1, first) = place(arena, parse_operand_2(toks, pos, arena))?;
    let (at2, rest) = many0_operand_2_list_next(toks, at1, arena)?;
    let node = Separated { first, rest };
    proof {
        lemma_is_operand_2_list(node, toks@, pos as nat);
    }
    Ok((at2, node))
}

/// Parse `Operand2` at `pos`; see [`spec_operand_2`].
pub fn parse_operand_2<'arena>(toks: &[Token], pos: usize, arena: &'arena Arena) -> (out: Parsed<
    Operand2<'arena>,
>)
    requires
        pos <= toks.len(),
    ensures
        outcome(out, pos) == spec_operand_2(toks@, pos as nat),
        out matches Ok((end, node)) ==> pos < end <= toks.len() && is_operand_2(
            node,
            toks@,
            pos as nat,
        ),
    decreases toks.len() - pos, 91nat,
{
    proof {
        lemma_operand_2(toks@, pos as nat);
    }
    let (at1, field_0) = many0_operand_2_connected_pre(toks, pos, arena)?;
    let (at2, field_1) = parse_operand_3(toks, at1, arena)?;
    let node = Operand2(field_0, field_1);
    proof {
        lemma_is_operand_2(node, toks@, pos as nat);
    }
    Ok((at2, node))
}

/// Parse `Operand2ConnectedPre` at `pos`; see [`spec_operand_2_connected_pre`].
pub fn parse_operand_2_connected_pre<'arena>(
    toks: &[Token],
    pos: usize,
    arena: &'arena Arena,
) -> (out: Parsed<
    Operand2ConnectedPre<'arena>,
>)
    requires
        pos <= toks.len(),
    ensures
        outcome(out, pos) == spec_operand_2_connected_pre(toks@, pos as nat),
        out matches Ok((end, node)) ==> pos < end <= toks.len() && is_operand_2_connected_pre(
            node,
            toks@,
            pos as nat,
        ),
    decreases toks.len() - pos, 34nat,
{
    proof {
        lemma_operand_2_connected_pre(toks@, pos as nat);
    }
    let (at1, field_0) = parse_gek(toks, pos, arena)?;
    let (at2, field_1) = parse_operand(toks, at1, arena)?;
    let (at3, field_2) = parse_gik(toks, at2, arena)?;
    let node = Operand2ConnectedPre(field_0, field_1, field_2);
    proof {
        lemma_is_operand_2_connected_pre(node, toks@, pos as nat);
    }
    Ok((at3, node))
}

/// Parse `Operand2ConnectedPre` from `pos` on as often as it matches; see [`spec_many0_operand_2_connected_pre`].
pub fn many0_operand_2_connected_pre<'arena>(
    toks: &[Token],
    pos: usize,
    arena: &'arena Arena,
) -> (out: Parsed<
    &'arena [Operand2ConnectedPre<'arena>],
>)
    requires
        pos <= toks.len(),
    ensures
        outcome(out, pos) == spec_many0_operand_2_connected_pre(toks@, pos as nat),
        out matches Ok((end, items)) ==> pos <= end <= toks.len() && (items@.len() == 0 <==> end
            == pos) && is_row_of_operand_2_connected_pre(items@, toks@, pos as nat),
    decreases toks.len() - pos, 35nat,
{
    let mut items: Vec<Operand2ConnectedPre<'arena>> = Vec::new();
    let mut at: usize = pos;
    loop
        invariant
            pos <= at <= toks.len(),
            items@.len() == 0 <==> at == pos,
            at == pos + run_of_operand_2_connected_pre(toks@, pos as nat, items@.len()),
            forall|i: int|
                #![trigger items@[i]]
                #![trigger run_of_operand_2_connected_pre(toks@, pos as nat, i as nat)]
                0 <= i < items@.len() ==> spec_operand_2_connected_pre(
                    toks@,
                    pos as nat + run_of_operand_2_connected_pre(toks@, pos as nat, i as nat),
                ) is Matched && is_operand_2_connected_pre(
                    items@[i],
                    toks@,
                    pos as nat + run_of_operand_2_connected_pre(toks@, pos as nat, i as nat),
                ),
            shifted(
                spec_many0_operand_2_connected_pre(toks@, at as nat),
                (at - pos) as nat,
            ) == spec_many0_operand_2_connected_pre(
                toks@,
                pos as nat,
            ),
        decreases toks.len() - at,
    {
        proof {
            lemma_many0_operand_2_connected_pre(toks@, at as nat);
        }
        match parse_operand_2_connected_pre(toks, at, arena) {
            Ok((end, item)) => {
                if end == at {
                    return fail(Error::Combinator(ErrorKind::Many0), at);
                }
                items.push(item);
                at = end;
            },
            Err(failed) => {
                if failed.fatal {
                    return Err(failed);
                }
                proof {
                    lemma_is_row_of_operand_2_connected_pre(items@, toks@, pos as nat);
                }
                return Ok((at, keep_all(arena, items)));
            },
        }
    }
}

/// Parse `Operand3` at `pos`; see [`spec_operand_3`].
pub fn parse_operand_3<'arena>(toks: &[Token], pos: usize, arena: &'arena Arena) -> (out: Parsed<
    Operand3<'arena>,
>)
    requires
        pos <= toks.len(),
    ensures
        outcome(out, pos) == spec_operand_3(toks@, pos as nat),
        out matches Ok((end, node)) ==> pos < end <= toks.len() && is_operand_3(
            node,
            toks@,
            pos as nat,
        ),
    decreases toks.len() - pos, 90nat,
{
    proof {
        lemma_operand_3(toks@, pos as nat);
        lemma_is_operand_3(toks@, pos as nat);
    }
    let tried = parse_operand_3_nihe(toks, pos, arena);
    if settled(&tried) {
        return tried;
    }
    let error = error_of(tried);
    let tried = parse_operand_3_mohe(toks, pos, arena);
    if settled(&tried) {
        return tried;
    }
    let error = error.or(error_of(tried));
    let tried = parse_operand_3_johi(toks, pos, arena);
    if settled(&tried) {
        return tried;
    }
    let error = error.or(error_of(tried));
    let tried = parse_operand_3_modified(toks, pos, arena);
    if settled(&tried) {
        return tried;
    }
    let error = error.or(error_of(tried));
    let tried = parse_operand_3_parenthesized(toks, pos, arena);
    if settled(&tried) {
        return tried;
    }
    let error = error.or(error_of(tried));
    let tried = parse_operand_3_number(toks, pos, arena);
    if settled(&tried) {
        return tried;
    }
    let error = error.or(error_of(tried));
    Err(Failed { fatal: false, error })
}

/// Parse `Operand3Nihe` at `pos`; see [`spec_operand_3_nihe`].
pub fn parse_operand_3_nihe<'arena>(
    toks: &[Token],
    pos: usize,
    arena: &'arena Arena,
) -> (out: Parsed<
    Operand3<'arena>,
>)
    requires
        pos <= toks.len(),
    ensures
        outcome(out, pos) == spec_operand_3_nihe(toks@, pos as nat),
        out matches Ok((end, node)) ==> pos < end <= toks.len() && is_operand_3_nihe(
            node,
            toks@,
            pos as nat,
        ),
    decreases toks.len() - pos, 89nat,
{
    proof {
        lemma_operand_3_nihe(toks@, pos as nat);
    }
    let (at1, field_0) = parse_word_with_free(toks, pos, arena, Selmaho::Nihe)?;
    let (at2, field_1) = parse_selbri(toks, at1, arena)?;
    let (at3, field_2) = opt(at2, parse_word(toks, at2, arena, Selmaho::Tehu))?;
    let (at4, field_3) = parse_frees(toks, at3, arena)?;
    let node = Operand3::Nihe(field_0, field_1, field_2, field_3);
    proof {
        lemma_is_operand_3_nihe(node, toks@, pos as nat);
    }
    Ok((at4, node))
}

/// Parse `Operand3Mohe` at `pos`; see [`spec_operand_3_mohe`].
pub fn parse_operand_3_mohe<'arena>(
    toks: &[Token],
    pos: usize,
    arena: &'arena Arena,
) -> (out: Parsed<
    Operand3<'arena>,
>)
    requires
        pos <= toks.len(),
    ensures
        outcome(out, pos) == spec_operand_3_mohe(toks@, pos as nat),
        out matches Ok((end, node)) ==> pos < end <= toks.len() && is_operand_3_mohe(
            node,
            toks@,
            pos as nat,
        ),
    decreases toks.len() - pos, 45nat,
{
    proof {
        lemma_operand_3_mohe(toks@, pos as nat);
    }
    let (at1, field_0) = parse_word_with_free(toks, pos, arena, Selmaho::Mohe)?;
    let (at2, field_1) = parse_sumti(toks, at1, arena)?;
    let (at3, field_2) = opt(at2, parse_word(toks, at2, arena, Selmaho::Tehu))?;
    let (at4, field_3) = parse_frees(toks, at3, arena)?;
    let node = Operand3::Mohe(field_0, field_1, field_2, field_3);
    proof {
        lemma_is_operand_3_mohe(node, toks@, pos as nat);
    }
    Ok((at4, node))
}

/// Parse `Operand3Johi` at `pos`; see [`spec_operand_3_johi`].
pub fn parse_operand_3_johi<'arena>(
    toks: &[Token],
    pos: usize,
    arena: &'arena Arena,
) -> (out: Parsed<
    Operand3<'arena>,
>)
    requires
        pos <= toks.len(),
    ensures
        outcome(out, pos) == spec_operand_3_johi(toks@, pos as nat),
        out matches Ok((end, node)) ==> pos < end <= toks.len() && is_operand_3_johi(
            node,
            toks@,
            pos as nat,
        ),
    decreases toks.len() - pos, 25nat,
{
    proof {
        lemma_operand_3_johi(toks@, pos as nat);
    }
    let (at1, field_0) = parse_word_with_free(toks, pos, arena, Selmaho::Johi)?;
    let (at2, field_1) = many1_expression_1(toks, at1, arena)?;
    let (at3, field_2) = opt(at2, parse_word(toks, at2, arena, Selmaho::Tehu))?;
    let (at4, field_3) = parse_frees(toks, at3, arena)?;
    let node = Operand3::Johi(field_0, field_1, field_2, field_3);
    proof {
        lemma_is_operand_3_johi(node, toks@, pos as nat);
    }
    Ok((at4, node))
}

/// Parse `Expression1` at `pos`; see [`spec_expression_1`].
pub fn parse_expression_1<'arena>(
    toks: &[Token],
    pos: usize,
    arena: &'arena Arena,
) -> (out: Parsed<
    Expression1<'arena>,
>)
    requires
        pos <= toks.len(),
    ensures
        outcome(out, pos) == spec_expression_1(toks@, pos as nat),
        out matches Ok((end, node)) ==> pos < end <= toks.len() && is_expression_1(
            node,
            toks@,
            pos as nat,
        ),
    decreases toks.len() - pos, 101nat,
{
    proof {
        lemma_expression_1(toks@, pos as nat);
        lemma_is_expression_1(toks@, pos as nat);
    }
    let tried = parse_expression_1_operand(toks, pos, arena);
    if settled(&tried) {
        return tried;
    }
    let error = error_of(tried);
    let tried = parse_expression_1_forethought(toks, pos, arena);
    if settled(&tried) {
        return tried;
    }
    let error = error.or(error_of(tried));
    Err(Failed { fatal: false, error })
}

/// Parse `Expression1` from `pos` on as often as it matches, and at least once;
/// see [`spec_many1_expression_1`].
pub fn many1_expression_1<'arena>(
    toks: &[Token],
    pos: usize,
    arena: &'arena Arena,
) -> (out: Parsed<
    &'arena [Expression1<'arena>],
>)
    requires
        pos <= toks.len(),
    ensures
        outcome(out, pos) == spec_many1_expression_1(toks@, pos as nat),
        out matches Ok((end, items)) ==> pos < end <= toks.len() && items@.len() > 0 && is_row_of_expression_1(
            items@,
            toks@,
            pos as nat,
        ),
    decreases toks.len() - pos, 102nat,
{
    proof {
        lemma_many1_expression_1(toks@, pos as nat);
    }
    let mut items: Vec<Expression1<'arena>> = Vec::new();
    let (first_end, first) = parse_expression_1(toks, pos, arena)?;
    items.push(first);
    let mut at: usize = first_end;
    assert(run_of_expression_1(toks@, pos as nat, 0) == 0);
    loop
        invariant
            pos <= at <= toks.len(),
            items@.len() > 0,
            at == pos + run_of_expression_1(toks@, pos as nat, items@.len()),
            forall|i: int|
                #![trigger items@[i]]
                #![trigger run_of_expression_1(toks@, pos as nat, i as nat)]
                0 <= i < items@.len() ==> spec_expression_1(
                    toks@,
                    pos as nat + run_of_expression_1(toks@, pos as nat, i as nat),
                ) is Matched && is_expression_1(
                    items@[i],
                    toks@,
                    pos as nat + run_of_expression_1(toks@, pos as nat, i as nat),
                ),
            at == pos ==> spec_expression_1(toks@, pos as nat) == Outcome::Matched(0),
            at > pos ==> shifted(
                spec_many1_expression_1_more(toks@, at as nat),
                (at - pos) as nat,
            )
                == spec_many1_expression_1(toks@, pos as nat),
            at == pos ==> spec_many1_expression_1(toks@, pos as nat) == Outcome::Error(
                combinator_at(pos as nat, ErrorKind::Many1),
            ),
        decreases toks.len() - at,
    {
        proof {
            lemma_many1_expression_1(toks@, at as nat);
        }
        match parse_expression_1(toks, at, arena) {
            Ok((end, item)) => {
                if end == at {
                    return fail(Error::Combinator(ErrorKind::Many1), at);
                }
                items.push(item);
                at = end;
            },
            Err(failed) => {
                if failed.fatal {
                    return Err(failed);
                }
                proof {
                    lemma_is_row_of_expression_1(items@, toks@, pos as nat);
                }
                return Ok((at, keep_all(arena, items)));
            },
        }
    }
}

/// Parse `Expression1Operand` at `pos`; see [`spec_expression_1_operand`].
pub fn parse_expression_1_operand<'arena>(
    toks: &[Token],
    pos: usize,
    arena: &'arena Arena,
) -> (out: Parsed<
    Expression1<'arena>,
>)
    requires
        pos <= toks.len(),
    ensures
        outcome(out, pos) == spec_expression_1_operand(toks@, pos as nat),
        out matches Ok((end, node)) ==> pos < end <= toks.len() && is_expression_1_operand(
            node,
            toks@,
            pos as nat,
        ),
    decreases toks.len() - pos, 100nat,
{
    proof {
        lemma_expression_1_operand(toks@, pos as nat);
    }
    let (at1, field_0) = parse_operand(toks, pos, arena)?;
    let node = Expression1::Operand(field_0);
    proof {
        lemma_is_expression_1_operand(node, toks@, pos as nat);
    }
    Ok((at1, node))
}

/// Parse `Expression1Forethought` at `pos`; see [`spec_expression_1_forethought`].
pub fn parse_expression_1_forethought<'arena>(
    toks: &[Token],
    pos: usize,
    arena: &'arena Arena,
) -> (out: Parsed<
    Expression1<'arena>,
>)
    requires
        pos <= toks.len(),
    ensures
        outcome(out, pos) == spec_expression_1_forethought(toks@, pos as nat),
        out matches Ok((end, node)) ==> pos < end <= toks.len() && is_expression_1_forethought(
            node,
            toks@,
            pos as nat,
        ),
    decreases toks.len() - pos, 43nat,
{
    proof {
        lemma_expression_1_forethought(toks@, pos as nat);
    }
    let (at1, field_0) = parse_forethought_expression(toks, pos, arena)?;
    let node = Expression1::Forethought(field_0);
    proof {
        lemma_is_expression_1_forethought(node, toks@, pos as nat);
    }
    Ok((at1, node))
}

/// Parse `ForethoughtExpression` at `pos`; see [`spec_forethought_expression`].
pub fn parse_forethought_expression<'arena>(
    toks: &[Token],
    pos: usize,
    arena: &'arena Arena,
) -> (out: Parsed<
    ForethoughtExpression<'arena>,
>)
    requires
        pos <= toks.len(),
    ensures
        outcome(out, pos) == spec_forethought_expression(toks@, pos as nat),
        out matches Ok((end, node)) ==> pos < end <= toks.len() && is_forethought_expression(
            node,
            toks@,
            pos as nat,
        ),
    decreases toks.len() - pos, 42nat,
{
    proof {
        lemma_forethought_expression(toks@, pos as nat);
    }
    let (at1, peho) = opt(pos, parse_word_with_free(toks, pos, arena, Selmaho::Peho))?;
    let (at2, operator) = parse_operator(toks, at1, arena)?;
    let (at3, operands) = many1_expression_1(toks, at2, arena)?;
    let (at4, kuhe) = opt(at3, parse_word(toks, at3, arena, Selmaho::Kuhe))?;
    let (at5, frees) = parse_frees(toks, at4, arena)?;
    let node = ForethoughtExpression { peho, operator, operands, kuhe, frees };
    proof {
        lemma_is_forethought_expression(node, toks@, pos as nat);
    }
    Ok((at5, node))
}

/// Parse `Operator` at `pos`; see [`spec_operator`].
pub fn parse_operator<'arena>(toks: &[Token], pos: usize, arena: &'arena Arena) -> (out: Parsed<
    Operator<'arena>,
>)
    requires
        pos <= toks.len(),
    ensures
        outcome(out, pos) == spec_operator(toks@, pos as nat),
        out matches Ok((end, node)) ==> pos < end <= toks.len() && is_operator(
            node,
            toks@,
            pos as nat,
        ),
    decreases toks.len() - pos, 41nat,
{
    proof {
        lemma_operator(toks@, pos as nat);
    }
    let (at1, field_0) = parse_operator_1(toks, pos, arena)?;
    let (at2, field_1) = many0_connected_operator(toks, at1, arena)?;
    let node = Operator(field_0, field_1);
    proof {
        lemma_is_operator(node, toks@, pos as nat);
    }
    Ok((at2, node))
}

/// Parse `Operator1` at `pos`; see [`spec_operator_1`].
pub fn parse_operator_1<'arena>(toks: &[Token], pos: usize, arena: &'arena Arena) -> (out: Parsed<
    Operator1<'arena>,
>)
    requires
        pos <= toks.len(),
    ensures
        outcome(out, pos) == spec_operator_1(toks@, pos as nat),
        out matches Ok((end, node)) ==> pos < end <= toks.len() && is_operator_1(
            node,
            toks@,
            pos as nat,
        ),
    decreases toks.len() - pos, 37nat,
{
    proof {
        lemma_operator_1(toks@, pos as nat);
    }
    let (at1, field_0) = many0_operator_guhek(toks, pos, arena)?;
    let (at2, field_1) = parse_operator_2(toks, at1, arena)?;
    let node = Operator1(field_0, field_1);
    proof {
        lemma_is_operator_1(node, toks@, pos as nat);
    }
    Ok((at2, node))
}

/// Parse `OperatorGuhek` at `pos`; see [`spec_operator_guhek`].
pub fn parse_operator_guhek<'arena>(
    toks: &[Token],
    pos: usize,
    arena: &'arena Arena,
) -> (out: Parsed<
    NaheGuhekTGik<'arena, Operator1<'arena>>,
>)
    requires
        pos <= toks.len(),
    ensures
        outcome(out, pos) == spec_operator_guhek(toks@, pos as nat),
        out matches Ok((end, node)) ==> pos < end <= toks.len() && is_operator_guhek(
            node,
            toks@,
            pos as nat,
        ),
    decreases toks.len() - pos, 26nat,
{
    proof {
        lemma_operator_guhek(toks@, pos as nat);
    }
    let (at1, field_0) = opt(pos, parse_word(toks, pos, arena, Selmaho::Nahe))?;
    let (at2, field_1) = parse_frees(toks, at1, arena)?;
    let (at3, field_2) = parse_guhek(toks, at2, arena)?;
    let (at4, field_3) = parse_operator_1(toks, at3, arena)?;
    let (at5, field_4) = parse_gik(toks, at4, arena)?;
    let node = NaheGuhekTGik(field_0, field_1, field_2, field_3, field_4);
    proof {
        lemma_is_operator_guhek(node, toks@, pos as nat);
    }
    Ok((at5, node))
}

/// Parse `OperatorGuhek` from `pos` on as often as it matches; see [`spec_many0_operator_guhek`].
pub fn many0_operator_guhek<'arena>(
    toks: &[Token],
    pos: usize,
    arena: &'arena Arena,
) -> (out: Parsed<
    &'arena [NaheGuhekTGik<'arena, Operator1<'arena>>],
>)
    requires
        pos <= toks.len(),
    ensures
        outcome(out, pos) == spec_many0_operator_guhek(toks@, pos as nat),
        out matches Ok((end, items)) ==> pos <= end <= toks.len() && (items@.len() == 0 <==> end
            == pos) && is_row_of_operator_guhek(items@, toks@, pos as nat),
    decreases toks.len() - pos, 27nat,
{
    let mut items: Vec<NaheGuhekTGik<'arena, Operator1<'arena>>> = Vec::new();
    let mut at: usize = pos;
    loop
        invariant
            pos <= at <= toks.len(),
            items@.len() == 0 <==> at == pos,
            at == pos + run_of_operator_guhek(toks@, pos as nat, items@.len()),
            forall|i: int|
                #![trigger items@[i]]
                #![trigger run_of_operator_guhek(toks@, pos as nat, i as nat)]
                0 <= i < items@.len() ==> spec_operator_guhek(
                    toks@,
                    pos as nat + run_of_operator_guhek(toks@, pos as nat, i as nat),
                ) is Matched && is_operator_guhek(
                    items@[i],
                    toks@,
                    pos as nat + run_of_operator_guhek(toks@, pos as nat, i as nat),
                ),
            shifted(
                spec_many0_operator_guhek(toks@, at as nat),
                (at - pos) as nat,
            ) == spec_many0_operator_guhek(
                toks@,
                pos as nat,
            ),
        decreases toks.len() - at,
    {
        proof {
            lemma_many0_operator_guhek(toks@, at as nat);
        }
        match parse_operator_guhek(toks, at, arena) {
            Ok((end, item)) => {
                if end == at {
                    return fail(Error::Combinator(ErrorKind::Many0), at);
                }
                items.push(item);
                at = end;
            },
            Err(failed) => {
                if failed.fatal {
                    return Err(failed);
                }
                proof {
                    lemma_is_row_of_operator_guhek(items@, toks@, pos as nat);
                }
                return Ok((at, keep_all(arena, items)));
            },
        }
    }
}

/// Parse `Operator2` at `pos`; see [`spec_operator_2`].
pub fn parse_operator_2<'arena>(toks: &[Token], pos: usize, arena: &'arena Arena) -> (out: Parsed<
    Operator2<'arena>,
>)
    requires
        pos <= toks.len(),
    ensures
        outcome(out, pos) == spec_operator_2(toks@, pos as nat),
        out matches Ok((end, node)) ==> pos < end <= toks.len() && is_operator_2(
            node,
            toks@,
            pos as nat,
        ),
    decreases toks.len() - pos, 36nat,
{
    proof {
        lemma_operator_2(toks@, pos as nat);
    }
    let (at1, field_0) = parse_operator_3_list(toks, pos, arena)?;
    let node = Operator2(field_0);
    proof {
        lemma_is_operator_2(node, toks@, pos as nat);
    }
    Ok((at1, node))
}

/// Parse `Operator3List` at `pos`; see [`spec_operator_3_list`].
pub fn parse_operator_3_list<'arena>(
    toks: &[Token],
    pos: usize,
    arena: &'arena Arena,
) -> (out: Parsed<
    Separated<'arena, Operator3<'arena>, (JoikJek<'arena>, Option<TagWords<'arena>>, WithFree<'arena, Word<'arena>>)>,
>)
    requires
        pos <= toks.len(),
    ensures
        outcome(out, pos) == spec_operator_3_list(toks@, pos as nat),
        out matches Ok((end, node)) ==> pos < end <= toks.len() && is_operator_3_list(
            node,
            toks@,
            pos as nat,
        ),
    decreases toks.len() - pos, 35nat,
{
    proof {
        lemma_operator_3_list(toks@, pos as nat);
    }
    let (at1, first) = place(arena, parse_operator_3(toks, pos, arena))?;
    let (at2, rest) = many0_operator_3_list_next(toks, at1, arena)?;
    let node = Separated { first, rest };
    proof {
        lemma_is_operator_3_list(node, toks@, pos as nat);
    }
    Ok((at2, node))
}

/// Parse `Operator3` at `pos`; see [`spec_operator_3`].
pub fn parse_operator_3<'arena>(toks: &[Token], pos: usize, arena: &'arena Arena) -> (out: Parsed<
    Operator3<'arena>,
>)
    requires
        pos <= toks.len(),
    ensures
        outcome(out, pos) == spec_operator_3(toks@, pos as nat),
        out matches Ok((end, node)) ==> pos < end <= toks.len() && is_operator_3(
            node,
            toks@,
            pos as nat,
        ),
    decreases toks.len() - pos, 29nat,
{
    proof {
        lemma_operator_3(toks@, pos as nat);
        lemma_is_operator_3(toks@, pos as nat);
    }
    let tried = parse_operator_3_simple(toks, pos, arena);
    if settled(&tried) {
        return tried;
    }
    let error = error_of(tried);
    let tried = parse_operator_3_grouped(toks, pos, arena);
    if settled(&tried) {
        return tried;
    }
    let error = error.or(error_of(tried));
    Err(Failed { fatal: false, error })
}

/// Parse `Operator3Simple` at `pos`; see [`spec_operator_3_simple`].
pub fn parse_operator_3_simple<'arena>(
    toks: &[Token],
    pos: usize,
    arena: &'arena Arena,
) -> (out: Parsed<
    Operator3<'arena>,
>)
    requires
        pos <= toks.len(),
    ensures
        outcome(out, pos) == spec_operator_3_simple(toks@, pos as nat),
        out matches Ok((end, node)) ==> pos < end <= toks.len() && is_operator_3_simple(
            node,
            toks@,
            pos as nat,
        ),
    decreases toks.len() - pos, 28nat,
{
    proof {
        lemma_operator_3_simple(toks@, pos as nat);
    }
    let (at1, field_0) = parse_operator_component(toks, pos, arena)?;
    let node = Operator3::Simple(field_0);
    proof {
        lemma_is_operator_3_simple(node, toks@, pos as nat);
    }
    Ok((at1, node))
}

/// Parse `OperatorComponent` at `pos`; see [`spec_operator_component`].
pub fn parse_operator_component<'arena>(
    toks: &[Token],
    pos: usize,
    arena: &'arena Arena,
) -> (out: Parsed<
    OperatorComponent<'arena>,
>)
    requires
        pos <= toks.len(),
    ensures
        outcome(out, pos) == spec_operator_component(toks@, pos as nat),
        out matches Ok((end, node)) ==> pos < end <= toks.len() && is_operator_component(
            node,
            toks@,
            pos as nat,
        ),
    decreases toks.len() - pos, 27nat,
{
    proof {
        lemma_operator_component(toks@, pos as nat);
    }
    let (at1, field_0) = many0_operator_component_pre(toks, pos, arena)?;
    let (at2, field_1) = parse_operator_component_1(toks, at1, arena)?;
    let node = OperatorComponent(field_0, field_1);
    proof {
        lemma_is_operator_component(node, toks@, pos as nat);
    }
    Ok((at2, node))
}

/// Parse `OperatorComponentPre` at `pos`; see [`spec_operator_component_pre`].
pub fn parse_operator_component_pre<'arena>(
    toks: &[Token],
    pos: usize,
    arena: &'arena Arena,
) -> (out: Parsed<
    OperatorComponentPre<'arena>,
>)
    requires
        pos <= toks.len(),
    ensures
        outcome(out, pos) == spec_operator_component_pre(toks@, pos as nat),
        out matches Ok((end, node)) ==> pos < end <= toks.len() && is_operator_component_pre(
            node,
            toks@,
            pos as nat,
        ),
    decreases toks.len() - pos, 5nat,
{
    proof {
        lemma_operator_component_pre(toks@, pos as nat);
        lemma_is_operator_component_pre(toks@, pos as nat);
    }
    let tried = parse_operator_component_pre_nahe(toks, pos, arena);
    if settled(&tried) {
        return tried;
    }
    let error = error_of(tried);
    let tried = parse_operator_component_pre_se(toks, pos, arena);
    if settled(&tried) {
        return tried;
    }
    let error = error.or(error_of(tried));
    Err(Failed { fatal: false, error })
}

/// Parse `OperatorComponentPre` from `pos` on as often as it matches; see [`spec_many0_operator_component_pre`].
pub fn many0_operator_component_pre<'arena>(
    toks: &[Token],
    pos: usize,
    arena: &'arena Arena,
) -> (out: Parsed<
    &'arena [OperatorComponentPre<'arena>],
>)
    requires
        pos <= toks.len(),
    ensures
        outcome(out, pos) == spec_many0_operator_component_pre(toks@, pos as nat),
        out matches Ok((end, items)) ==> pos <= end <= toks.len() && (items@.len() == 0 <==> end
            == pos) && is_row_of_operator_component_pre(items@, toks@, pos as nat),
    decreases toks.len() - pos, 6nat,
{
    let mut items: Vec<OperatorComponentPre<'arena>> = Vec::new();
    let mut at: usize = pos;
    loop
        invariant
            pos <= at <= toks.len(),
            items@.len() == 0 <==> at == pos,
            at == pos + run_of_operator_component_pre(toks@, pos as nat, items@.len()),
            forall|i: int|
                #![trigger items@[i]]
                #![trigger run_of_operator_component_pre(toks@, pos as nat, i as nat)]
                0 <= i < items@.len() ==> spec_operator_component_pre(
                    toks@,
                    pos as nat + run_of_operator_component_pre(toks@, pos as nat, i as nat),
                ) is Matched && is_operator_component_pre(
                    items@[i],
                    toks@,
                    pos as nat + run_of_operator_component_pre(toks@, pos as nat, i as nat),
                ),
            shifted(
                spec_many0_operator_component_pre(toks@, at as nat),
                (at - pos) as nat,
            ) == spec_many0_operator_component_pre(
                toks@,
                pos as nat,
            ),
        decreases toks.len() - at,
    {
        proof {
            lemma_many0_operator_component_pre(toks@, at as nat);
        }
        match parse_operator_component_pre(toks, at, arena) {
            Ok((end, item)) => {
                if end == at {
                    return fail(Error::Combinator(ErrorKind::Many0), at);
                }
                items.push(item);
                at = end;
            },
            Err(failed) => {
                if failed.fatal {
                    return Err(failed);
                }
                proof {
                    lemma_is_row_of_operator_component_pre(items@, toks@, pos as nat);
                }
                return Ok((at, keep_all(arena, items)));
            },
        }
    }
}

/// Parse `OperatorComponentPreNahe` at `pos`; see [`spec_operator_component_pre_nahe`].
pub fn parse_operator_component_pre_nahe<'arena>(
    toks: &[Token],
    pos: usize,
    arena: &'arena Arena,
) -> (out: Parsed<
    OperatorComponentPre<'arena>,
>)
    requires
        pos <= toks.len(),
    ensures
        outcome(out, pos) == spec_operator_component_pre_nahe(toks@, pos as nat),
        out matches Ok((end, node)) ==> pos < end <= toks.len() && is_operator_component_pre_nahe(
            node,
            toks@,
            pos as nat,
        ),
    decreases toks.len() - pos, 4nat,
{
    proof {
        lemma_operator_component_pre_nahe(toks@, pos as nat);
    }
    let (at1, field_0) = parse_word_with_free(toks, pos, arena, Selmaho::Nahe)?;
    let node = OperatorComponentPre::Nahe(field_0);
    proof {
        lemma_is_operator_component_pre_nahe(node, toks@, pos as nat);
    }
    Ok((at1, node))
}

/// Parse `OperatorComponentPreSe` at `pos`; see [`spec_operator_component_pre_se`].
pub fn parse_operator_component_pre_se<'arena>(
    toks: &[Token],
    pos: usize,
    arena: &'arena Arena,
) -> (out: Parsed<
    OperatorComponentPre<'arena>,
>)
    requires
        pos <= toks.len(),
    ensures
        outcome(out, pos) == spec_operator_component_pre_se(toks@, pos as nat),
        out matches Ok((end, node)) ==> pos < end <= toks.len() && is_operator_component_pre_se(
            node,
            toks@,
            pos as nat,
        ),
    decreases toks.len() - pos, 4nat,
{
    proof {
        lemma_operator_component_pre_se(toks@, pos as nat);
    }
    let (at1, field_0) = parse_word_with_free(toks, pos, arena, Selmaho::Se)?;
    let node = OperatorComponentPre::Se(field_0);
    proof {
        lemma_is_operator_component_pre_se(node, toks@, pos as nat);
    }
    Ok((at1, node))
}

/// Parse `OperatorComponent1` at `pos`; see [`spec_operator_component_1`].
pub fn parse_operator_component_1<'arena>(
    toks: &[Token],
    pos: usize,
    arena: &'arena Arena,
) -> (out: Parsed<
    OperatorComponent1<'arena>,
>)
    requires
        pos <= toks.len(),
    ensures
        outcome(out, pos) == spec_operator_component_1(toks@, pos as nat),
        out matches Ok((end, node)) ==> pos < end <= toks.len() && is_operator_component_1(
            node,
            toks@,
            pos as nat,
        ),
    decreases toks.len() - pos, 26nat,
{
    proof {
        lemma_operator_component_1(toks@, pos as nat);
        lemma_is_operator_component_1(toks@, pos as nat);
    }
    let tried = parse_operator_component_1_maho(toks, pos, arena);
    if settled(&tried) {
        return tried;
    }
    let error = error_of(tried);
    let tried = parse_operator_component_1_nahu(toks, pos, arena);
    if settled(&tried) {
        return tried;
    }
    let error = error.or(error_of(tried));
    let tried = parse_operator_component_1_vuhu(toks, pos, arena);
    if settled(&tried) {
        return tried;
    }
    let error = error.or(error_of(tried));
    Err(Failed { fatal: false, error })
}

/// Parse `OperatorComponent1Maho` at `pos`; see [`spec_operator_component_1_maho`].
pub fn parse_operator_component_1_maho<'arena>(
    toks: &[Token],
    pos: usize,
    arena: &'arena Arena,
) -> (out: Parsed<
    OperatorComponent1<'arena>,
>)
    requires
        pos <= toks.len(),
    ensures
        outcome(out, pos) == spec_operator_component_1_maho(toks@, pos as nat),
        out matches Ok((end, node)) ==> pos < end <= toks.len() && is_operator_component_1_maho(
            node,
            toks@,
            pos as nat,
        ),
    decreases toks.len() - pos, 25nat,
{
    proof {
        lemma_operator_component_1_maho(toks@, pos as nat);
    }
    let (at1, field_0) = parse_word_with_free(toks, pos, arena, Selmaho::Maho)?;
    let (at2, field_1) = parse_expression(toks, at1, arena)?;
    let (at3, field_2) = opt(at2, parse_word(toks, at2, arena, Selmaho::Tehu))?;
    let (at4, field_3) = parse_frees(toks, at3, arena)?;
    let node = OperatorComponent1::Maho(field_0, field_1, field_2, field_3);
    proof {
        lemma_is_operator_component_1_maho(node, toks@, pos as nat);
    }
    Ok((at4, node))
}

/// Parse `OperatorComponent1Nahu` at `pos`; see [`spec_operator_component_1_nahu`].
pub fn parse_operator_component_1_nahu<'arena>(
    toks: &[Token],
    pos: usize,
    arena: &'arena Arena,
) -> (out: Parsed<
    OperatorComponent1<'arena>,
>)
    requires
        pos <= toks.len(),
    ensures
        outcome(out, pos) == spec_operator_component_1_nahu(toks@, pos as nat),
        out matches Ok((end, node)) ==> pos < end <= toks.len() && is_operator_component_1_nahu(
            node,
            toks@,
            pos as nat,
        ),
    decreases toks.len() - pos, 25nat,
{
    proof {
        lemma_operator_component_1_nahu(toks@, pos as nat);
    }
    let (at1, field_0) = parse_word_with_free(toks, pos, arena, Selmaho::Nahu)?;
    let (at2, field_1) = parse_selbri(toks, at1, arena)?;
    let (at3, field_2) = opt(at2, parse_word(toks, at2, arena, Selmaho::Tehu))?;
    let (at4, field_3) = parse_frees(toks, at3, arena)?;
    let node = OperatorComponent1::Nahu(field_0, field_1, field_2, field_3);
    proof {
        lemma_is_operator_component_1_nahu(node, toks@, pos as nat);
    }
    Ok((at4, node))
}

/// Parse `OperatorComponent1Vuhu` at `pos`; see [`spec_operator_component_1_vuhu`].
pub fn parse_operator_component_1_vuhu<'arena>(
    toks: &[Token],
    pos: usize,
    arena: &'arena Arena,
) -> (out: Parsed<
    OperatorComponent1<'arena>,
>)
    requires
        pos <= toks.len(),
    ensures
        outcome(out, pos) == spec_operator_component_1_vuhu(toks@, pos as nat),
        out matches Ok((end, node)) ==> pos < end <= toks.len() && is_operator_component_1_vuhu(
            node,
            toks@,
            pos as nat,
        ),
    decreases toks.len() - pos, 4nat,
{
    proof {
        lemma_operator_component_1_vuhu(toks@, pos as nat);
    }
    let (at1, field_0) = parse_word_with_free(toks, pos, arena, Selmaho::Vuhu)?;
    let node = OperatorComponent1::Vuhu(field_0);
    proof {
        lemma_is_operator_component_1_vuhu(node, toks@, pos as nat);
    }
    Ok((at1, node))
}

/// Parse `Operator3Grouped` at `pos`; see [`spec_operator_3_grouped`].
pub fn parse_operator_3_grouped<'arena>(
    toks: &[Token],
    pos: usize,
    arena: &'arena Arena,
) -> (out: Parsed<
    Operator3<'arena>,
>)
    requires
        pos <= toks.len(),
    ensures
        outcome(out, pos) == spec_operator_3_grouped(toks@, pos as nat),
        out matches Ok((end, node)) ==> pos < end <= toks.len() && is_operator_3_grouped(
            node,
            toks@,
            pos as nat,
        ),
    decreases toks.len() - pos, 25nat,
{
    proof {
        lemma_operator_3_grouped(toks@, pos as nat);
    }
    let (at1, field_0) = parse_word_with_free(toks, pos, arena, Selmaho::Ke)?;
    let (at2, field_1) = parse_operator(toks, at1, arena)?;
    let (at3, field_2) = parse_word(toks, at2, arena, Selmaho::Kehe)?;
    let (at4, field_3) = parse_frees(toks, at3, arena)?;
    let node = Operator3::Grouped(field_0, field_1, field_2, field_3);
    proof {
        lemma_is_operator_3_grouped(node, toks@, pos as nat);
    }
    Ok((at4, node))
}

/// Parse `Operator3ListNext` at `pos`; see [`spec_operator_3_list_next`].
pub fn parse_operator_3_list_next<'arena>(
    toks: &[Token],
    pos: usize,
    arena: &'arena Arena,
) -> (out: Parsed<
    ((JoikJek<'arena>, Option<TagWords<'arena>>, WithFree<'arena, Word<'arena>>), Operator3<'arena>),
>)
    requires
        pos <= toks.len(),
    ensures
        outcome(out, pos) == spec_operator_3_list_next(toks@, pos as nat),
        out matches Ok((end, node)) ==> pos < end <= toks.len() && is_operator_3_list_next(
            node,
            toks@,
            pos as nat,
        ),
    decreases toks.len() - pos, 33nat,
{
    proof {
        lemma_operator_3_list_next(toks@, pos as nat);
    }
    let (at1, item_0) = parse_operator_bo(toks, pos, arena)?;
    let (at2, item_1) = parse_operator_3(toks, at1, arena)?;
    let node = (item_0, item_1);
    proof {
        lemma_is_operator_3_list_next(node, toks@, pos as nat);
    }
    Ok((at2, node))
}

/// Parse `Operator3ListNext` from `pos` on as often as it matches; see [`spec_many0_operator_3_list_next`].
pub fn many0_operator_3_list_next<'arena>(
    toks: &[Token],
    pos: usize,
    arena: &'arena Arena,
) -> (out: Parsed<
    &'arena [((JoikJek<'arena>, Option<TagWords<'arena>>, WithFree<'arena, Word<'arena>>), Operator3<'arena>)],
>)
    requires
        pos <= toks.len(),
    ensures
        outcome(out, pos) == spec_many0_operator_3_list_next(toks@, pos as nat),
        out matches Ok((end, items)) ==> pos <= end <= toks.len() && (items@.len() == 0 <==> end
            == pos) && is_row_of_operator_3_list_next(items@, toks@, pos as nat),
    decreases toks.len() - pos, 34nat,
{
    let mut items: Vec<((JoikJek<'arena>, Option<TagWords<'arena>>, WithFree<'arena, Word<'arena>>), Operator3<'arena>)> = Vec::new();
    let mut at: usize = pos;
    loop
        invariant
            pos <= at <= toks.len(),
            items@.len() == 0 <==> at == pos,
            at == pos + run_of_operator_3_list_next(toks@, pos as nat, items@.len()),
            forall|i: int|
                #![trigger items@[i]]
                #![trigger run_of_operator_3_list_next(toks@, pos as nat, i as nat)]
                0 <= i < items@.len() ==> spec_operator_3_list_next(
                    toks@,
                    pos as nat + run_of_operator_3_list_next(toks@, pos as nat, i as nat),
                ) is Matched && is_operator_3_list_next(
                    items@[i],
                    toks@,
                    pos as nat + run_of_operator_3_list_next(toks@, pos as nat, i as nat),
                ),
            shifted(
                spec_many0_operator_3_list_next(toks@, at as nat),
                (at - pos) as nat,
            ) == spec_many0_operator_3_list_next(
                toks@,
                pos as nat,
            ),
        decreases toks.len() - at,
    {
        proof {
            lemma_many0_operator_3_list_next(toks@, at as nat);
        }
        match parse_operator_3_list_next(toks, at, arena) {
            Ok((end, item)) => {
                if end == at {
                    return fail(Error::Combinator(ErrorKind::Many0), at);
                }
                items.push(item);
                at = end;
            },
            Err(failed) => {
                if failed.fatal {
                    return Err(failed);
                }
                proof {
                    lemma_is_row_of_operator_3_list_next(items@, toks@, pos as nat);
                }
                return Ok((at, keep_all(arena, items)));
            },
        }
    }
}

/// Parse `OperatorBo` at `pos`; see [`spec_operator_bo`].
pub fn parse_operator_bo<'arena>(
    toks: &[Token],
    pos: usize,
    arena: &'arena Arena,
) -> (out: Parsed<
    (JoikJek<'arena>, Option<TagWords<'arena>>, WithFree<'arena, Word<'arena>>),
>)
    requires
        pos <= toks.len(),
    ensures
        outcome(out, pos) == spec_operator_bo(toks@, pos as nat),
        out matches Ok((end, node)) ==> pos < end <= toks.len() && is_operator_bo(
            node,
            toks@,
            pos as nat,
        ),
    decreases toks.len() - pos, 32nat,
{
    proof {
        lemma_operator_bo(toks@, pos as nat);
    }
    let (at1, item_0) = parse_joik_jek(toks, pos, arena)?;
    let (at2, item_1) = opt(at1, parse_tag_words(toks, at1, arena))?;
    let (at3, item_2) = parse_word_with_free(toks, at2, arena, Selmaho::Bo)?;
    let node = (item_0, item_1, item_2);
    proof {
        lemma_is_operator_bo(node, toks@, pos as nat);
    }
    Ok((at3, node))
}

/// Parse `JoikJek` at `pos`; see [`spec_joik_jek`].
pub fn parse_joik_jek<'arena>(toks: &[Token], pos: usize, arena: &'arena Arena) -> (out: Parsed<
    JoikJek<'arena>,
>)
    requires
        pos <= toks.len(),
    ensures
        outcome(out, pos) == spec_joik_jek(toks@, pos as nat),
        out matches Ok((end, node)) ==> pos < end <= toks.len() && is_joik_jek(
            node,
            toks@,
            pos as nat,
        ),
    decreases toks.len() - pos, 7nat,
{
    proof {
        lemma_joik_jek(toks@, pos as nat);
        lemma_is_joik_jek(toks@, pos as nat);
    }
    let tried = parse_joik_jek_joik(toks, pos, arena);
    if settled(&tried) {
        return tried;
    }
    let error = error_of(tried);
    let tried = parse_joik_jek_jek(toks, pos, arena);
    if settled(&tried) {
        return tried;
    }
    let error = error.or(error_of(tried));
    Err(Failed { fatal: false, error })
}

/// Parse `JoikJekJoik` at `pos`; see [`spec_joik_jek_joik`].
pub fn parse_joik_jek_joik<'arena>(
    toks: &[Token],
    pos: usize,
    arena: &'arena Arena,
) -> (out: Parsed<
    JoikJek<'arena>,
>)
    requires
        pos <= toks.len(),
    ensures
        outcome(out, pos) == spec_joik_jek_joik(toks@, pos as nat),
        out matches Ok((end, node)) ==> pos < end <= toks.len() && is_joik_jek_joik(
            node,
            toks@,
            pos as nat,
        ),
    decreases toks.len() - pos, 6nat,
{
    proof {
        lemma_joik_jek_joik(toks@, pos as nat);
    }
    let (at1, field_0) = parse_joik(toks, pos, arena)?;
    let node = JoikJek::Joik(field_0);
    proof {
        lemma_is_joik_jek_joik(node, toks@, pos as nat);
    }
    Ok((at1, node))
}

/// Parse `JoikJekJek` at `pos`; see [`spec_joik_jek_jek`].
pub fn parse_joik_jek_jek<'arena>(
    toks: &[Token],
    pos: usize,
    arena: &'arena Arena,
) -> (out: Parsed<
    JoikJek<'arena>,
>)
    requires
        pos <= toks.len(),
    ensures
        outcome(out, pos) == spec_joik_jek_jek(toks@, pos as nat),
        out matches Ok((end, node)) ==> pos < end <= toks.len() && is_joik_jek_jek(
            node,
            toks@,
            pos as nat,
        ),
    decreases toks.len() - pos, 5nat,
{
    proof {
        lemma_joik_jek_jek(toks@, pos as nat);
    }
    let (at1, field_0) = parse_jek(toks, pos, arena)?;
    let node = JoikJek::Jek(field_0);
    proof {
        lemma_is_joik_jek_jek(node, toks@, pos as nat);
    }
    Ok((at1, node))
}

/// Parse `Jek` at `pos`; see [`spec_jek`].
pub fn parse_jek<'arena>(toks: &[Token], pos: usize, arena: &'arena Arena) -> (out: Parsed<
    Jek<'arena>,
>)
    requires
        pos <= toks.len(),
    ensures
        outcome(out, pos) == spec_jek(toks@, pos as nat),
        out matches Ok((end, node)) ==> pos < end <= toks.len() && is_jek(
            node,
            toks@,
            pos as nat,
        ),
    decreases toks.len() - pos, 4nat,
{
    proof {
        lemma_jek(toks@, pos as nat);
    }
    let (at1, field_0) = parse_na_se_tnai_ja(toks, pos, arena)?;
    let node = Jek(field_0);
    proof {
        lemma_is_jek(node, toks@, pos as nat);
    }
    Ok((at1, node))
}

/// Parse `NaSeTNaiJa` at `pos`; see [`spec_na_se_tnai_ja`].
pub fn parse_na_se_tnai_ja<'arena>(
    toks: &[Token],
    pos: usize,
    arena: &'arena Arena,
) -> (out: Parsed<
    NaSeTNai<'arena, Word<'arena>>,
>)
    requires
        pos <= toks.len(),
    ensures
        outcome(out, pos) == spec_na_se_tnai_ja(toks@, pos as nat),
        out matches Ok((end, node)) ==> pos < end <= toks.len() && is_na_se_tnai_ja(
            node,
            toks@,
            pos as nat,
        ),
    decreases toks.len() - pos, 3nat,
{
    proof {
        lemma_na_se_tnai_ja(toks@, pos as nat);
    }
    let (at1, field_0) = opt(pos, parse_word(toks, pos, arena, Selmaho::Na))?;
    let (at2, field_1) = opt(at1, parse_word(toks, at1, arena, Selmaho::Se))?;
    let (at3, field_2) = parse_word(toks, at2, arena, Selmaho::Ja)?;
    let (at4, field_3) = opt(at3, parse_word(toks, at3, arena, Selmaho::Nai))?;
    let node = NaSeTNai(field_0, field_1, field_2, field_3);
    proof {
        lemma_is_na_se_tnai_ja(node, toks@, pos as nat);
    }
    Ok((at4, node))
}

/// Parse `ConnectedOperator` at `pos`; see [`spec_connected_operator`].
pub fn parse_connected_operator<'arena>(
    toks: &[Token],
    pos: usize,
    arena: &'arena Arena,
) -> (out: Parsed<
    SelbriLikeConnectedPost<'arena, Operator1<'arena>, Operator<'arena>>,
>)
    requires
        pos <= toks.len(),
    ensures
        outcome(out, pos) == spec_connected_operator(toks@, pos as nat),
        out matches Ok((end, node)) ==> pos < end <= toks.len() && is_connected_operator(
            node,
            toks@,
            pos as nat,
        ),
    decreases toks.len() - pos, 39nat,
{
    proof {
        lemma_connected_operator(toks@, pos as nat);
        lemma_is_connected_operator(toks@, pos as nat);
    }
    let tried = parse_connected_operator_normal(toks, pos, arena);
    if settled(&tried) {
        return tried;
    }
    let error = error_of(tried);
    let tried = parse_connected_operator_parenthesized(toks, pos, arena);
    if settled(&tried) {
        return tried;
    }
    let error = error.or(error_of(tried));
    Err(Failed { fatal: false, error })
}

/// Parse `ConnectedOperator` from `pos` on as often as it matches; see [`spec_many0_connected_operator`].
pub fn many0_connected_operator<'arena>(
    toks: &[Token],
    pos: usize,
    arena: &'arena Arena,
) -> (out: Parsed<
    &'arena [SelbriLikeConnectedPost<'arena, Operator1<'arena>, Operator<'arena>>],
>)
    requires
        pos <= toks.len(),
    ensures
        outcome(out, pos) == spec_many0_connected_operator(toks@, pos as nat),
        out matches Ok((end, items)) ==> pos <= end <= toks.len() && (items@.len() == 0 <==> end
            == pos) && is_row_of_connected_operator(items@, toks@, pos as nat),
    decreases toks.len() - pos, 40nat,
{
    let mut items: Vec<SelbriLikeConnectedPost<'arena, Operator1<'arena>, Operator<'arena>>> = Vec::new();
    let mut at: usize = pos;
    loop
        invariant
            pos <= at <= toks.len(),
            items@.len() == 0 <==> at == pos,
            at == pos + run_of_connected_operator(toks@, pos as nat, items@.len()),
            forall|i: int|
                #![trigger items@[i]]
                #![trigger run_of_connected_operator(toks@, pos as nat, i as nat)]
                0 <= i < items@.len() ==> spec_connected_operator(
                    toks@,
                    pos as nat + run_of_connected_operator(toks@, pos as nat, i as nat),
                ) is Matched && is_connected_operator(
                    items@[i],
                    toks@,
                    pos as nat + run_of_connected_operator(toks@, pos as nat, i as nat),
                ),
            shifted(
                spec_many0_connected_operator(toks@, at as nat),
                (at - pos) as nat,
            ) == spec_many0_connected_operator(
                toks@,
                pos as nat,
            ),
        decreases toks.len() - at,
    {
        proof {
            lemma_many0_connected_operator(toks@, at as nat);
        }
        match parse_connected_operator(toks, at, arena) {
            Ok((end, item)) => {
                if end == at {
                    return fail(Error::Combinator(ErrorKind::Many0), at);
                }
                items.push(item);
                at = end;
            },
            Err(failed) => {
                if failed.fatal {
                    return Err(failed);
                }
                proof {
                    lemma_is_row_of_connected_operator(items@, toks@, pos as nat);
                }
                return Ok((at, keep_all(arena, items)));
            },
        }
    }
}

/// Parse `ConnectedOperatorNormal` at `pos`; see [`spec_connected_operator_normal`].
pub fn parse_connected_operator_normal<'arena>(
    toks: &[Token],
    pos: usize,
    arena: &'arena Arena,
) -> (out: Parsed<
    SelbriLikeConnectedPost<'arena, Operator1<'arena>, Operator<'arena>>,
>)
    requires
        pos <= toks.len(),
    ensures
        outcome(out, pos) == spec_connected_operator_normal(toks@, pos as nat),
        out matches Ok((end, node)) ==> pos < end <= toks.len() && is_connected_operator_normal(
            node,
            toks@,
            pos as nat,
        ),
    decreases toks.len() - pos, 38nat,
{
    proof {
        lemma_connected_operator_normal(toks@, pos as nat);
    }
    let (at1, field_0) = parse_joik_jek(toks, pos, arena)?;
    let (at2, field_1) = parse_operator_1(toks, at1, arena)?;
    let node = SelbriLikeConnectedPost::Normal(field_0, field_1);
    proof {
        lemma_is_connected_operator_normal(node, toks@, pos as nat);
    }
    Ok((at2, node))
}

/// Parse `ConnectedOperatorParenthesized` at `pos`; see [`spec_connected_operator_parenthesized`].
pub fn parse_connected_operator_parenthesized<'arena>(
    toks: &[Token],
    pos: usize,
    arena: &'arena Arena,
) -> (out: Parsed<
    SelbriLikeConnectedPost<'arena, Operator1<'arena>, Operator<'arena>>,
>)
    requires
        pos <= toks.len(),
    ensures
        outcome(out, pos) == spec_connected_operator_parenthesized(toks@, pos as nat),
        out matches Ok((end, node)) ==> pos < end <= toks.len() && is_connected_operator_parenthesized(
            node,
            toks@,
            pos as nat,
        ),
    decreases toks.len() - pos, 32nat,
{
    proof {
        lemma_connected_operator_parenthesized(toks@, pos as nat);
    }
    let (at1, field_0) = parse_joik_jek(toks, pos, arena)?;
    let (at2, field_1) = opt(at1, parse_tag_words(toks, at1, arena))?;
    let (at3, field_2) = parse_word_with_free(toks, at2, arena, Selmaho::Ke)?;
    let (at4, field_3) = parse_operator(toks, at3, arena)?;
    let (at5, field_4) = opt(at4, parse_word(toks, at4, arena, Selmaho::Kehe))?;
    let (at6, field_5) = parse_frees(toks, at5, arena)?;
    let node = SelbriLikeConnectedPost::Parenthesized(
        field_0,
        field_1,
        field_2,
        field_3,
        field_4,
        field_5,
    );
    proof {
        lemma_is_connected_operator_parenthesized(node, toks@, pos as nat);
    }
    Ok((at6, node))
}

/// Parse `Operand3Modified` at `pos`; see [`spec_operand_3_modified`].
pub fn parse_operand_3_modified<'arena>(
    toks: &[Token],
    pos: usize,
    arena: &'arena Arena,
) -> (out: Parsed<
    Operand3<'arena>,
>)
    requires
        pos <= toks.len(),
    ensures
        outcome(out, pos) == spec_operand_3_modified(toks@, pos as nat),
        out matches Ok((end, node)) ==> pos < end <= toks.len() && is_operand_3_modified(
            node,
            toks@,
            pos as nat,
        ),
    decreases toks.len() - pos, 5nat,
{
    proof {
        lemma_operand_3_modified(toks@, pos as nat);
    }
    let (at1, field_0) = parse_sumti_modifier(toks, pos, arena)?;
    let (at2, field_1) = parse_operand(toks, at1, arena)?;
    let (at3, field_2) = opt(at2, parse_word(toks, at2, arena, Selmaho::Luhu))?;
    let node = Operand3::Modified(field_0, field_1, field_2);
    proof {
        lemma_is_operand_3_modified(node, toks@, pos as nat);
    }
    Ok((at3, node))
}

/// Parse `SumtiModifier` at `pos`; see [`spec_sumti_modifier`].
pub fn parse_sumti_modifier<'arena>(
    toks: &[Token],
    pos: usize,
    arena: &'arena Arena,
) -> (out: Parsed<
    SumtiModifier<'arena>,
>)
    requires
        pos <= toks.len(),
    ensures
        outcome(out, pos) == spec_sumti_modifier(toks@, pos as nat),
        out matches Ok((end, node)) ==> pos < end <= toks.len() && is_sumti_modifier(
            node,
            toks@,
            pos as nat,
        ),
    decreases toks.len() - pos, 4nat,
{
    proof {
        lemma_sumti_modifier(toks@, pos as nat);
        lemma_is_sumti_modifier(toks@, pos as nat);
    }
    let tried = parse_sumti_modifier_lahe(toks, pos, arena);
    if settled(&tried) {
        return tried;
    }
    let error = error_of(tried);
    let tried = parse_sumti_modifier_nahe_bo(toks, pos, arena);
    if settled(&tried) {
        return tried;
    }
    let error = error.or(error_of(tried));
    Err(Failed { fatal: false, error })
}

/// Parse `SumtiModifierLahe` at `pos`; see [`spec_sumti_modifier_lahe`].
pub fn parse_sumti_modifier_lahe<'arena>(
    toks: &[Token],
    pos: usize,
    arena: &'arena Arena,
) -> (out: Parsed<
    SumtiModifier<'arena>,
>)
    requires
        pos <= toks.len(),
    ensures
        outcome(out, pos) == spec_sumti_modifier_lahe(toks@, pos as nat),
        out matches Ok((end, node)) ==> pos < end <= toks.len() && is_sumti_modifier_lahe(
            node,
            toks@,
            pos as nat,
        ),
    decreases toks.len() - pos, 3nat,
{
    proof {
        lemma_sumti_modifier_lahe(toks@, pos as nat);
    }
    let (at1, field_0) = parse_word(toks, pos, arena, Selmaho::Lahe)?;
    let node = SumtiModifier::Lahe(field_0);
    proof {
        lemma_is_sumti_modifier_lahe(node, toks@, pos as nat);
    }
    Ok((at1, node))
}

/// Parse `SumtiModifierNaheBo` at `pos`; see [`spec_sumti_modifier_nahe_bo`].
pub fn parse_sumti_modifier_nahe_bo<'arena>(
    toks: &[Token],
    pos: usize,
    arena: &'arena Arena,
) -> (out: Parsed<
    SumtiModifier<'arena>,
>)
    requires
        pos <= toks.len(),
    ensures
        outcome(out, pos) == spec_sumti_modifier_nahe_bo(toks@, pos as nat),
        out matches Ok((end, node)) ==> pos < end <= toks.len() && is_sumti_modifier_nahe_bo(
            node,
            toks@,
            pos as nat,
        ),
    decreases toks.len() - pos, 3nat,
{
    proof {
        lemma_sumti_modifier_nahe_bo(toks@, pos as nat);
    }
    let (at1, field_0) = parse_word(toks, pos, arena, Selmaho::Nahe)?;
    let (at2, field_1) = parse_word(toks, at1, arena, Selmaho::Bo)?;
    let node = SumtiModifier::NaheBo(field_0, field_1);
    proof {
        lemma_is_sumti_modifier_nahe_bo(node, toks@, pos as nat);
    }
    Ok((at2, node))
}

/// Parse `Operand3Parenthesized` at `pos`; see [`spec_operand_3_parenthesized`].
pub fn parse_operand_3_parenthesized<'arena>(
    toks: &[Token],
    pos: usize,
    arena: &'arena Arena,
) -> (out: Parsed<
    Operand3<'arena>,
>)
    requires
        pos <= toks.len(),
    ensures
        outcome(out, pos) == spec_operand_3_parenthesized(toks@, pos as nat),
        out matches Ok((end, node)) ==> pos < end <= toks.len() && is_operand_3_parenthesized(
            node,
            toks@,
            pos as nat,
        ),
    decreases toks.len() - pos, 25nat,
{
    proof {
        lemma_operand_3_parenthesized(toks@, pos as nat);
    }
    let (at1, field_0) = parse_word_with_free(toks, pos, arena, Selmaho::Vei)?;
    let (at2, field_1) = parse_expression(toks, at1, arena)?;
    let (at3, field_2) = opt(at2, parse_word(toks, at2, arena, Selmaho::Veho))?;
    let (at4, field_3) = parse_frees(toks, at3, arena)?;
    let node = Operand3::Parenthesized(field_0, field_1, field_2, field_3);
    proof {
        lemma_is_operand_3_parenthesized(node, toks@, pos as nat);
    }
    Ok((at4, node))
}

/// Parse `Operand3Number` at `pos`; see [`spec_operand_3_number`].
pub fn parse_operand_3_number<'arena>(
    toks: &[Token],
    pos: usize,
    arena: &'arena Arena,
) -> (out: Parsed<
    Operand3<'arena>,
>)
    requires
        pos <= toks.len(),
    ensures
        outcome(out, pos) == spec_operand_3_number(toks@, pos as nat),
        out matches Ok((end, node)) ==> pos < end <= toks.len() && is_operand_3_number(
            node,
            toks@,
            pos as nat,
        ),
    decreases toks.len() - pos, 25nat,
{
    proof {
        lemma_operand_3_number(toks@, pos as nat);
    }
    let (at1, field_0) = parse_misc_numbers(toks, pos, arena)?;
    not(at1, parse_word(toks, at1, arena, Selmaho::Moi))?;
    let (at2, field_1) = opt(at1, parse_word(toks, at1, arena, Selmaho::Boi))?;
    let (at3, field_2) = parse_frees(toks, at2, arena)?;
    let node = Operand3::Number(field_0, field_1, field_2);
    proof {
        lemma_is_operand_3_number(node, toks@, pos as nat);
    }
    Ok((at3, node))
}

/// Parse `Operand2ListNext` at `pos`; see [`spec_operand_2_list_next`].
pub fn parse_operand_2_list_next<'arena>(
    toks: &[Token],
    pos: usize,
    arena: &'arena Arena,
) -> (out: Parsed<
    ((JoikEk<'arena>, Option<TagWords<'arena>>, WithFree<'arena, Word<'arena>>), Operand2<'arena>),
>)
    requires
        pos <= toks.len(),
    ensures
        outcome(out, pos) == spec_operand_2_list_next(toks@, pos as nat),
        out matches Ok((end, node)) ==> pos < end <= toks.len() && is_operand_2_list_next(
            node,
            toks@,
            pos as nat,
        ),
    decreases toks.len() - pos, 92nat,
{
    proof {
        lemma_operand_2_list_next(toks@, pos as nat);
    }
    let (at1, item_0) = parse_operand_bo(toks, pos, arena)?;
    let (at2, item_1) = parse_operand_2(toks, at1, arena)?;
    let node = (item_0, item_1);
    proof {
        lemma_is_operand_2_list_next(node, toks@, pos as nat);
    }
    Ok((at2, node))
}

/// Parse `Operand2ListNext` from `pos` on as often as it matches; see [`spec_many0_operand_2_list_next`].
pub fn many0_operand_2_list_next<'arena>(
    toks: &[Token],
    pos: usize,
    arena: &'arena Arena,
) -> (out: Parsed<
    &'arena [((JoikEk<'arena>, Option<TagWords<'arena>>, WithFree<'arena, Word<'arena>>), Operand2<'arena>)],
>)
    requires
        pos <= toks.len(),
    ensures
        outcome(out, pos) == spec_many0_operand_2_list_next(toks@, pos as nat),
        out matches Ok((end, items)) ==> pos <= end <= toks.len() && (items@.len() == 0 <==> end
            == pos) && is_row_of_operand_2_list_next(items@, toks@, pos as nat),
    decreases toks.len() - pos, 93nat,
{
    let mut items: Vec<((JoikEk<'arena>, Option<TagWords<'arena>>, WithFree<'arena, Word<'arena>>), Operand2<'arena>)> = Vec::new();
    let mut at: usize = pos;
    loop
        invariant
            pos <= at <= toks.len(),
            items@.len() == 0 <==> at == pos,
            at == pos + run_of_operand_2_list_next(toks@, pos as nat, items@.len()),
            forall|i: int|
                #![trigger items@[i]]
                #![trigger run_of_operand_2_list_next(toks@, pos as nat, i as nat)]
                0 <= i < items@.len() ==> spec_operand_2_list_next(
                    toks@,
                    pos as nat + run_of_operand_2_list_next(toks@, pos as nat, i as nat),
                ) is Matched && is_operand_2_list_next(
                    items@[i],
                    toks@,
                    pos as nat + run_of_operand_2_list_next(toks@, pos as nat, i as nat),
                ),
            shifted(
                spec_many0_operand_2_list_next(toks@, at as nat),
                (at - pos) as nat,
            ) == spec_many0_operand_2_list_next(
                toks@,
                pos as nat,
            ),
        decreases toks.len() - at,
    {
        proof {
            lemma_many0_operand_2_list_next(toks@, at as nat);
        }
        match parse_operand_2_list_next(toks, at, arena) {
            Ok((end, item)) => {
                if end == at {
                    return fail(Error::Combinator(ErrorKind::Many0), at);
                }
                items.push(item);
                at = end;
            },
            Err(failed) => {
                if failed.fatal {
                    return Err(failed);
                }
                proof {
                    lemma_is_row_of_operand_2_list_next(items@, toks@, pos as nat);
                }
                return Ok((at, keep_all(arena, items)));
            },
        }
    }
}

/// Parse `OperandBo` at `pos`; see [`spec_operand_bo`].
pub fn parse_operand_bo<'arena>(toks: &[Token], pos: usize, arena: &'arena Arena) -> (out: Parsed<
    (JoikEk<'arena>, Option<TagWords<'arena>>, WithFree<'arena, Word<'arena>>),
>)
    requires
        pos <= toks.len(),
    ensures
        outcome(out, pos) == spec_operand_bo(toks@, pos as nat),
        out matches Ok((end, node)) ==> pos < end <= toks.len() && is_operand_bo(
            node,
            toks@,
            pos as nat,
        ),
    decreases toks.len() - pos, 32nat,
{
    proof {
        lemma_operand_bo(toks@, pos as nat);
    }
    let (at1, item_0) = parse_joik_ek(toks, pos, arena)?;
    let (at2, item_1) = opt(at1, parse_tag_words(toks, at1, arena))?;
    let (at3, item_2) = parse_word_with_free(toks, at2, arena, Selmaho::Bo)?;
    let node = (item_0, item_1, item_2);
    proof {
        lemma_is_operand_bo(node, toks@, pos as nat);
    }
    Ok((at3, node))
}

/// Parse `JoikEk` at `pos`; see [`spec_joik_ek`].
pub fn parse_joik_ek<'arena>(toks: &[Token], pos: usize, arena: &'arena Arena) -> (out: Parsed<
    JoikEk<'arena>,
>)
    requires
        pos <= toks.len(),
    ensures
        outcome(out, pos) == spec_joik_ek(toks@, pos as nat),
        out matches Ok((end, node)) ==> pos < end <= toks.len() && is_joik_ek(
            node,
            toks@,
            pos as nat,
        ),
    decreases toks.len() - pos, 26nat,
{
    proof {
        lemma_joik_ek(toks@, pos as nat);
        lemma_is_joik_ek(toks@, pos as nat);
    }
    let tried = parse_joik_ek_joik(toks, pos, arena);
    if settled(&tried) {
        return tried;
    }
    let error = error_of(tried);
    let tried = parse_joik_ek_ek(toks, pos, arena);
    if settled(&tried) {
        return tried;
    }
    let error = error.or(error_of(tried));
    Err(Failed { fatal: false, error })
}

/// Parse `JoikEkJoik` at `pos`; see [`spec_joik_ek_joik`].
pub fn parse_joik_ek_joik<'arena>(
    toks: &[Token],
    pos: usize,
    arena: &'arena Arena,
) -> (out: Parsed<
    JoikEk<'arena>,
>)
    requires
        pos <= toks.len(),
    ensures
        outcome(out, pos) == spec_joik_ek_joik(toks@, pos as nat),
        out matches Ok((end, node)) ==> pos < end <= toks.len() && is_joik_ek_joik(
            node,
            toks@,
            pos as nat,
        ),
    decreases toks.len() - pos, 25nat,
{
    proof {
        lemma_joik_ek_joik(toks@, pos as nat);
    }
    let (at1, field_0) = parse_joik(toks, pos, arena)?;
    let (at2, field_1) = parse_frees(toks, at1, arena)?;
    let node = JoikEk::Joik(field_0, field_1);
    proof {
        lemma_is_joik_ek_joik(node, toks@, pos as nat);
    }
    Ok((at2, node))
}

/// Parse `JoikEkEk` at `pos`; see [`spec_joik_ek_ek`].
pub fn parse_joik_ek_ek<'arena>(toks: &[Token], pos: usize, arena: &'arena Arena) -> (out: Parsed<
    JoikEk<'arena>,
>)
    requires
        pos <= toks.len(),
    ensures
        outcome(out, pos) == spec_joik_ek_ek(toks@, pos as nat),
        out matches Ok((end, node)) ==> pos < end <= toks.len() && is_joik_ek_ek(
            node,
            toks@,
            pos as nat,
        ),
    decreases toks.len() - pos, 25nat,
{
    proof {
        lemma_joik_ek_ek(toks@, pos as nat);
    }
    let (at1, field_0) = parse_ek(toks, pos, arena)?;
    let (at2, field_1) = parse_frees(toks, at1, arena)?;
    let node = JoikEk::Ek(field_0, field_1);
    proof {
        lemma_is_joik_ek_ek(node, toks@, pos as nat);
    }
    Ok((at2, node))
}

/// Parse `Ek` at `pos`; see [`spec_ek`].
pub fn parse_ek<'arena>(toks: &[Token], pos: usize, arena: &'arena Arena) -> (out: Parsed<
    Ek<'arena>,
>)
    requires
        pos <= toks.len(),
    ensures
        outcome(out, pos) == spec_ek(toks@, pos as nat),
        out matches Ok((end, node)) ==> pos < end <= toks.len() && is_ek(
            node,
            toks@,
            pos as nat,
        ),
    decreases toks.len() - pos, 4nat,
{
    proof {
        lemma_ek(toks@, pos as nat);
    }
    let (at1, field_0) = parse_na_se_tnai_a(toks, pos, arena)?;
    let node = Ek(field_0);
    proof {
        lemma_is_ek(node, toks@, pos as nat);
    }
    Ok((at1, node))
}

/// Parse `NaSeTNaiA` at `pos`; see [`spec_na_se_tnai_a`].
pub fn parse_na_se_tnai_a<'arena>(
    toks: &[Token],
    pos: usize,
    arena: &'arena Arena,
) -> (out: Parsed<
    NaSeTNai<'arena, Word<'arena>>,
>)
    requires
        pos <= toks.len(),
    ensures
        outcome(out, pos) == spec_na_se_tnai_a(toks@, pos as nat),
        out matches Ok((end, node)) ==> pos < end <= toks.len() && is_na_se_tnai_a(
            node,
            toks@,
            pos as nat,
        ),
    decreases toks.len() - pos, 3nat,
{
    proof {
        lemma_na_se_tnai_a(toks@, pos as nat);
    }
    let (at1, field_0) = opt(pos, parse_word(toks, pos, arena, Selmaho::Na))?;
    let (at2, field_1) = opt(at1, parse_word(toks, at1, arena, Selmaho::Se))?;
    let (at3, field_2) = parse_word(toks, at2, arena, Selmaho::A)?;
    let (at4, field_3) = opt(at3, parse_word(toks, at3, arena, Selmaho::Nai))?;
    let node = NaSeTNai(field_0, field_1, field_2, field_3);
    proof {
        lemma_is_na_se_tnai_a(node, toks@, pos as nat);
    }
    Ok((at4, node))
}

/// Parse `ConnectedOperand` at `pos`; see [`spec_connected_operand`].
pub fn parse_connected_operand<'arena>(
    toks: &[Token],
    pos: usize,
    arena: &'arena Arena,
) -> (out: Parsed<
    SumtiLikeConnectedPost<'arena, Operand1<'arena>, Operand<'arena>>,
>)
    requires
        pos <= toks.len(),
    ensures
        outcome(out, pos) == spec_connected_operand(toks@, pos as nat),
        out matches Ok((end, node)) ==> pos < end <= toks.len() && is_connected_operand(
            node,
            toks@,
            pos as nat,
        ),
    decreases toks.len() - pos, 97nat,
{
    proof {
        lemma_connected_operand(toks@, pos as nat);
        lemma_is_connected_operand(toks@, pos as nat);
    }
    let tried = parse_connected_operand_normal(toks, pos, arena);
    if settled(&tried) {
        return tried;
    }
    let error = error_of(tried);
    let tried = parse_connected_operand_grouped(toks, pos, arena);
    if settled(&tried) {
        return tried;
    }
    let error = error.or(error_of(tried));
    Err(Failed { fatal: false, error })
}

/// Parse `ConnectedOperand` from `pos` on as often as it matches; see [`spec_many0_connected_operand`].
pub fn many0_connected_operand<'arena>(
    toks: &[Token],
    pos: usize,
    arena: &'arena Arena,
) -> (out: Parsed<
    &'arena [SumtiLikeConnectedPost<'arena, Operand1<'arena>, Operand<'arena>>],
>)
    requires
        pos <= toks.len(),
    ensures
        outcome(out, pos) == spec_many0_connected_operand(toks@, pos as nat),
        out matches Ok((end, items)) ==> pos <= end <= toks.len() && (items@.len() == 0 <==> end
            == pos) && is_row_of_connected_operand(items@, toks@, pos as nat),
    decreases toks.len() - pos, 98nat,
{
    let mut items: Vec<SumtiLikeConnectedPost<'arena, Operand1<'arena>, Operand<'arena>>> = Vec::new();
    let mut at: usize = pos;
    loop
        invariant
            pos <= at <= toks.len(),
            items@.len() == 0 <==> at == pos,
            at == pos + run_of_connected_operand(toks@, pos as nat, items@.len()),
            forall|i: int|
                #![trigger items@[i]]
                #![trigger run_of_connected_operand(toks@, pos as nat, i as nat)]
                0 <= i < items@.len() ==> spec_connected_operand(
                    toks@,
                    pos as nat + run_of_connected_operand(toks@, pos as nat, i as nat),
                ) is Matched && is_connected_operand(
                    items@[i],
                    toks@,
                    pos as nat + run_of_connected_operand(toks@, pos as nat, i as nat),
                ),
            shifted(
                spec_many0_connected_operand(toks@, at as nat),
                (at - pos) as nat,
            ) == spec_many0_connected_operand(
                toks@,
                pos as nat,
            ),
        decreases toks.len() - at,
    {
        proof {
            lemma_many0_connected_operand(toks@, at as nat);
        }
        match parse_connected_operand(toks, at, arena) {
            Ok((end, item)) => {
                if end == at {
                    return fail(Error::Combinator(ErrorKind::Many0), at);
                }
                items.push(item);
                at = end;
            },
            Err(failed) => {
                if failed.fatal {
                    return Err(failed);
                }
                proof {
                    lemma_is_row_of_connected_operand(items@, toks@, pos as nat);
                }
                return Ok((at, keep_all(arena, items)));
            },
        }
    }
}

/// Parse `ConnectedOperandNormal` at `pos`; see [`spec_connected_operand_normal`].
pub fn parse_connected_operand_normal<'arena>(
    toks: &[Token],
    pos: usize,
    arena: &'arena Arena,
) -> (out: Parsed<
    SumtiLikeConnectedPost<'arena, Operand1<'arena>, Operand<'arena>>,
>)
    requires
        pos <= toks.len(),
    ensures
        outcome(out, pos) == spec_connected_operand_normal(toks@, pos as nat),
        out matches Ok((end, node)) ==> pos < end <= toks.len() && is_connected_operand_normal(
            node,
            toks@,
            pos as nat,
        ),
    decreases toks.len() - pos, 96nat,
{
    proof {
        lemma_connected_operand_normal(toks@, pos as nat);
    }
    let (at1, field_0) = parse_joik_ek(toks, pos, arena)?;
    let (at2, field_1) = parse_operand_1(toks, at1, arena)?;
    let node = SumtiLikeConnectedPost::Normal(field_0, field_1);
    proof {
        lemma_is_connected_operand_normal(node, toks@, pos as nat);
    }
    Ok((at2, node))
}

/// Parse `ConnectedOperandGrouped` at `pos`; see [`spec_connected_operand_grouped`].
pub fn parse_connected_operand_grouped<'arena>(
    toks: &[Token],
    pos: usize,
    arena: &'arena Arena,
) -> (out: Parsed<
    SumtiLikeConnectedPost<'arena, Operand1<'arena>, Operand<'arena>>,
>)
    requires
        pos <= toks.len(),
    ensures
        outcome(out, pos) == spec_connected_operand_grouped(toks@, pos as nat),
        out matches Ok((end, node)) ==> pos < end <= toks.len() && is_connected_operand_grouped(
            node,
            toks@,
            pos as nat,
        ),
    decreases toks.len() - pos, 32nat,
{
    proof {
        lemma_connected_operand_grouped(toks@, pos as nat);
    }
    let (at1, field_0) = parse_joik_ek(toks, pos, arena)?;
    let (at2, field_1) = opt(at1, parse_tag_words(toks, at1, arena))?;
    let (at3, field_2) = parse_word_with_free(toks, at2, arena, Selmaho::Ke)?;
    let (at4, field_3) = parse_operand(toks, at3, arena)?;
    let (at5, field_4) = opt(at4, parse_word(toks, at4, arena, Selmaho::Kehe))?;
    let (at6, field_5) = parse_frees(toks, at5, arena)?;
    let node = SumtiLikeConnectedPost::Grouped(
        field_0,
        field_1,
        field_2,
        field_3,
        field_4,
        field_5,
    );
    proof {
        lemma_is_connected_operand_grouped(node, toks@, pos as nat);
    }
    Ok((at6, node))
}

/// Parse `RPTail` at `pos`; see [`spec_rptail`].
pub fn parse_rptail<'arena>(toks: &[Token], pos: usize, arena: &'arena Arena) -> (out: Parsed<
    RPTail<'arena>,
>)
    requires
        pos <= toks.len(),
    ensures
        outcome(out, pos) == spec_rptail(toks@, pos as nat),
        out matches Ok((end, node)) ==> pos < end <= toks.len() && is_rptail(
            node,
            toks@,
            pos as nat,
        ),
    decreases toks.len() - pos, 101nat,
{
    proof {
        lemma_rptail(toks@, pos as nat);
    }
    let (at1, field_0) = parse_reverse_polish(toks, pos, arena)?;
    let (at2, field_1) = parse_operator(toks, at1, arena)?;
    let node = RPTail(field_0, field_1);
    proof {
        lemma_is_rptail(node, toks@, pos as nat);
    }
    Ok((at2, node))
}

/// Parse `RPTail` from `pos` on as often as it matches; see [`spec_many0_rptail`].
pub fn many0_rptail<'arena>(toks: &[Token], pos: usize, arena: &'arena Arena) -> (out: Parsed<
    &'arena [RPTail<'arena>],
>)
    requires
        pos <= toks.len(),
    ensures
        outcome(out, pos) == spec_many0_rptail(toks@, pos as nat),
        out matches Ok((end, items)) ==> pos <= end <= toks.len() && (items@.len() == 0 <==> end
            == pos) && is_row_of_rptail(items@, toks@, pos as nat),
    decreases toks.len() - pos, 102nat,
{
    let mut items: Vec<RPTail<'arena>> = Vec::new();
    let mut at: usize = pos;
    loop
        invariant
            pos <= at <= toks.len(),
            items@.len() == 0 <==> at == pos,
            at == pos + run_of_rptail(toks@, pos as nat, items@.len()),
            forall|i: int|
                #![trigger items@[i]]
                #![trigger run_of_rptail(toks@, pos as nat, i as nat)]
                0 <= i < items@.len() ==> spec_rptail(
                    toks@,
                    pos as nat + run_of_rptail(toks@, pos as nat, i as nat),
                ) is Matched && is_rptail(
                    items@[i],
                    toks@,
                    pos as nat + run_of_rptail(toks@, pos as nat, i as nat),
                ),
            shifted(spec_many0_rptail(toks@, at as nat), (at - pos) as nat) == spec_many0_rptail(
                toks@,
                pos as nat,
            ),
        decreases toks.len() - at,
    {
        proof {
            lemma_many0_rptail(toks@, at as nat);
        }
        match parse_rptail(toks, at, arena) {
            Ok((end, item)) => {
                if end == at {
                    return fail(Error::Combinator(ErrorKind::Many0), at);
                }
                items.push(item);
                at = end;
            },
            Err(failed) => {
                if failed.fatal {
                    return Err(failed);
                }
                proof {
                    lemma_is_row_of_rptail(items@, toks@, pos as nat);
                }
                return Ok((at, keep_all(arena, items)));
            },
        }
    }
}

/// Parse `ExpressionNormal` at `pos`; see [`spec_expression_normal`].
pub fn parse_expression_normal<'arena>(
    toks: &[Token],
    pos: usize,
    arena: &'arena Arena,
) -> (out: Parsed<
    Expression<'arena>,
>)
    requires
        pos <= toks.len(),
    ensures
        outcome(out, pos) == spec_expression_normal(toks@, pos as nat),
        out matches Ok((end, node)) ==> pos < end <= toks.len() && is_expression_normal(
            node,
            toks@,
            pos as nat,
        ),
    decreases toks.len() - pos, 108nat,
{
    proof {
        lemma_expression_normal(toks@, pos as nat);
    }
    let (at1, field_0) = parse_expression_list(toks, pos, arena)?;
    let node = Expression::Normal(field_0);
    proof {
        lemma_is_expression_normal(node, toks@, pos as nat);
    }
    Ok((at1, node))
}

/// Parse `ExpressionList` at `pos`; see [`spec_expression_list`].
pub fn parse_expression_list<'arena>(
    toks: &[Token],
    pos: usize,
    arena: &'arena Arena,
) -> (out: Parsed<
    Separated<'arena, Separated<'arena, Expression1<'arena>, (WithFree<'arena, Word<'arena>>, Operator<'arena>)>, Operator<'arena>>,
>)
    requires
        pos <= toks.len(),
    ensures
        outcome(out, pos) == spec_expression_list(toks@, pos as nat),
        out matches Ok((end, node)) ==> pos < end <= toks.len() && is_expression_list(
            node,
            toks@,
            pos as nat,
        ),
    decreases toks.len() - pos, 107nat,
{
    proof {
        lemma_expression_list(toks@, pos as nat);
    }
    let (at1, first) = place(arena, parse_bihe_list(toks, pos, arena))?;
    let (at2, rest) = many0_expression_list_next(toks, at1, arena)?;
    let node = Separated { first, rest };
    proof {
        lemma_is_expression_list(node, toks@, pos as nat);
    }
    Ok((at2, node))
}

/// Parse `BiheList` at `pos`; see [`spec_bihe_list`].
pub fn parse_bihe_list<'arena>(toks: &[Token], pos: usize, arena: &'arena Arena) -> (out: Parsed<
    Separated<'arena, Expression1<'arena>, (WithFree<'arena, Word<'arena>>, Operator<'arena>)>,
>)
    requires
        pos <= toks.len(),
    ensures
        outcome(out, pos) == spec_bihe_list(toks@, pos as nat),
        out matches Ok((end, node)) ==> pos < end <= toks.len() && is_bihe_list(
            node,
            toks@,
            pos as nat,
        ),
    decreases toks.len() - pos, 104nat,
{
    proof {
        lemma_bihe_list(toks@, pos as nat);
    }
    let (at1, first) = place(arena, parse_expression_1(toks, pos, arena))?;
    let (at2, rest) = many0_bihe_list_next(toks, at1, arena)?;
    let node = Separated { first, rest };
    proof {
        lemma_is_bihe_list(node, toks@, pos as nat);
    }
    Ok((at2, node))
}

/// Parse `BiheListNext` at `pos`; see [`spec_bihe_list_next`].
pub fn parse_bihe_list_next<'arena>(
    toks: &[Token],
    pos: usize,
    arena: &'arena Arena,
) -> (out: Parsed<
    ((WithFree<'arena, Word<'arena>>, Operator<'arena>), Expression1<'arena>),
>)
    requires
        pos <= toks.len(),
    ensures
        outcome(out, pos) == spec_bihe_list_next(toks@, pos as nat),
        out matches Ok((end, node)) ==> pos < end <= toks.len() && is_bihe_list_next(
            node,
            toks@,
            pos as nat,
        ),
    decreases toks.len() - pos, 102nat,
{
    proof {
        lemma_bihe_list_next(toks@, pos as nat);
    }
    let (at1, item_0) = parse_bihe_operator(toks, pos, arena)?;
    let (at2, item_1) = parse_expression_1(toks, at1, arena)?;
    let node = (item_0, item_1);
    proof {
        lemma_is_bihe_list_next(node, toks@, pos as nat);
    }
    Ok((at2, node))
}

/// Parse `BiheListNext` from `pos` on as often as it matches; see [`spec_many0_bihe_list_next`].
pub fn many0_bihe_list_next<'arena>(
    toks: &[Token],
    pos: usize,
    arena: &'arena Arena,
) -> (out: Parsed<
    &'arena [((WithFree<'arena, Word<'arena>>, Operator<'arena>), Expression1<'arena>)],
>)
    requires
        pos <= toks.len(),
    ensures
        outcome(out, pos) == spec_many0_bihe_list_next(toks@, pos as nat),
        out matches Ok((end, items)) ==> pos <= end <= toks.len() && (items@.len() == 0 <==> end
            == pos) && is_row_of_bihe_list_next(items@, toks@, pos as nat),
    decreases toks.len() - pos, 103nat,
{
    let mut items: Vec<((WithFree<'arena, Word<'arena>>, Operator<'arena>), Expression1<'arena>)> = Vec::new();
    let mut at: usize = pos;
    loop
        invariant
            pos <= at <= toks.len(),
            items@.len() == 0 <==> at == pos,
            at == pos + run_of_bihe_list_next(toks@, pos as nat, items@.len()),
            forall|i: int|
                #![trigger items@[i]]
                #![trigger run_of_bihe_list_next(toks@, pos as nat, i as nat)]
                0 <= i < items@.len() ==> spec_bihe_list_next(
                    toks@,
                    pos as nat + run_of_bihe_list_next(toks@, pos as nat, i as nat),
                ) is Matched && is_bihe_list_next(
                    items@[i],
                    toks@,
                    pos as nat + run_of_bihe_list_next(toks@, pos as nat, i as nat),
                ),
            shifted(
                spec_many0_bihe_list_next(toks@, at as nat),
                (at - pos) as nat,
            ) == spec_many0_bihe_list_next(
                toks@,
                pos as nat,
            ),
        decreases toks.len() - at,
    {
        proof {
            lemma_many0_bihe_list_next(toks@, at as nat);
        }
        match parse_bihe_list_next(toks, at, arena) {
            Ok((end, item)) => {
                if end == at {
                    return fail(Error::Combinator(ErrorKind::Many0), at);
                }
                items.push(item);
                at = end;
            },
            Err(failed) => {
                if failed.fatal {
                    return Err(failed);
                }
                proof {
                    lemma_is_row_of_bihe_list_next(items@, toks@, pos as nat);
                }
                return Ok((at, keep_all(arena, items)));
            },
        }
    }
}

/// Parse `BiheOperator` at `pos`; see [`spec_bihe_operator`].
pub fn parse_bihe_operator<'arena>(
    toks: &[Token],
    pos: usize,
    arena: &'arena Arena,
) -> (out: Parsed<
    (WithFree<'arena, Word<'arena>>, Operator<'arena>),
>)
    requires
        pos <= toks.len(),
    ensures
        outcome(out, pos) == spec_bihe_operator(toks@, pos as nat),
        out matches Ok((end, node)) ==> pos < end <= toks.len() && is_bihe_operator(
            node,
            toks@,
            pos as nat,
        ),
    decreases toks.len() - pos, 42nat,
{
    proof {
        lemma_bihe_operator(toks@, pos as nat);
    }
    let (at1, item_0) = parse_word_with_free(toks, pos, arena, Selmaho::Bihe)?;
    let (at2, item_1) = parse_operator(toks, at1, arena)?;
    let node = (item_0, item_1);
    proof {
        lemma_is_bihe_operator(node, toks@, pos as nat);
    }
    Ok((at2, node))
}

/// Parse `ExpressionListNext` at `pos`; see [`spec_expression_list_next`].
pub fn parse_expression_list_next<'arena>(
    toks: &[Token],
    pos: usize,
    arena: &'arena Arena,
) -> (out: Parsed<
    (Operator<'arena>, Separated<'arena, Expression1<'arena>, (WithFree<'arena, Word<'arena>>, Operator<'arena>)>),
>)
    requires
        pos <= toks.len(),
    ensures
        outcome(out, pos) == spec_expression_list_next(toks@, pos as nat),
        out matches Ok((end, node)) ==> pos < end <= toks.len() && is_expression_list_next(
            node,
            toks@,
            pos as nat,
        ),
    decreases toks.len() - pos, 105nat,
{
    proof {
        lemma_expression_list_next(toks@, pos as nat);
    }
    let (at1, item_0) = parse_operator(toks, pos, arena)?;
    let (at2, item_1) = parse_bihe_list(toks, at1, arena)?;
    let node = (item_0, item_1);
    proof {
        lemma_is_expression_list_next(node, toks@, pos as nat);
    }
    Ok((at2, node))
}

/// Parse `ExpressionListNext` from `pos` on as often as it matches; see [`spec_many0_expression_list_next`].
pub fn many0_expression_list_next<'arena>(
    toks: &[Token],
    pos: usize,
    arena: &'arena Arena,
) -> (out: Parsed<
    &'arena [(Operator<'arena>, Separated<'arena, Expression1<'arena>, (WithFree<'arena, Word<'arena>>, Operator<'arena>)>)],
>)
    requires
        pos <= toks.len(),
    ensures
        outcome(out, pos) == spec_many0_expression_list_next(toks@, pos as nat),
        out matches Ok((end, items)) ==> pos <= end <= toks.len() && (items@.len() == 0 <==> end
            == pos) && is_row_of_expression_list_next(items@, toks@, pos as nat),
    decreases toks.len() - pos, 106nat,
{
    let mut items: Vec<(Operator<'arena>, Separated<'arena, Expression1<'arena>, (WithFree<'arena, Word<'arena>>, Operator<'arena>)>)> = Vec::new();
    let mut at: usize = pos;
    loop
        invariant
            pos <= at <= toks.len(),
            items@.len() == 0 <==> at == pos,
            at == pos + run_of_expression_list_next(toks@, pos as nat, items@.len()),
            forall|i: int|
                #![trigger items@[i]]
                #![trigger run_of_expression_list_next(toks@, pos as nat, i as nat)]
                0 <= i < items@.len() ==> spec_expression_list_next(
                    toks@,
                    pos as nat + run_of_expression_list_next(toks@, pos as nat, i as nat),
                ) is Matched && is_expression_list_next(
                    items@[i],
                    toks@,
                    pos as nat + run_of_expression_list_next(toks@, pos as nat, i as nat),
                ),
            shifted(
                spec_many0_expression_list_next(toks@, at as nat),
                (at - pos) as nat,
            ) == spec_many0_expression_list_next(
                toks@,
                pos as nat,
            ),
        decreases toks.len() - at,
    {
        proof {
            lemma_many0_expression_list_next(toks@, at as nat);
        }
        match parse_expression_list_next(toks, at, arena) {
            Ok((end, item)) => {
                if end == at {
                    return fail(Error::Combinator(ErrorKind::Many0), at);
                }
                items.push(item);
                at = end;
            },
            Err(failed) => {
                if failed.fatal {
                    return Err(failed);
                }
                proof {
                    lemma_is_row_of_expression_list_next(items@, toks@, pos as nat);
                }
                return Ok((at, keep_all(arena, items)));
            },
        }
    }
}

/// Parse `QuantifierNumber` at `pos`; see [`spec_quantifier_number`].
pub fn parse_quantifier_number<'arena>(
    toks: &[Token],
    pos: usize,
    arena: &'arena Arena,
) -> (out: Parsed<
    Quantifier<'arena>,
>)
    requires
        pos <= toks.len(),
    ensures
        outcome(out, pos) == spec_quantifier_number(toks@, pos as nat),
        out matches Ok((end, node)) ==> pos < end <= toks.len() && is_quantifier_number(
            node,
            toks@,
            pos as nat,
        ),
    decreases toks.len() - pos, 25nat,
{
    proof {
        lemma_quantifier_number(toks@, pos as nat);
    }
    let (at1, field_0) = parse_number(toks, pos, arena)?;
    not(at1, parse_word(toks, at1, arena, Selmaho::Moi))?;
    let (at2, field_1) = opt(at1, parse_word(toks, at1, arena, Selmaho::Boi))?;
    let (at3, field_2) = parse_frees(toks, at2, arena)?;
    let node = Quantifier::Number(field_0, field_1, field_2);
    proof {
        lemma_is_quantifier_number(node, toks@, pos as nat);
    }
    Ok((at3, node))
}

/// Parse `SumtiComponent` at `pos`; see [`spec_sumti_component`].
pub fn parse_sumti_component<'arena>(
    toks: &[Token],
    pos: usize,
    arena: &'arena Arena,
) -> (out: Parsed<
    WithFree<'arena, SumtiComponent1<'arena>>,
>)
    requires
        pos <= toks.len(),
    ensures
        outcome(out, pos) == spec_sumti_component(toks@, pos as nat),
        out matches Ok((end, node)) ==> pos < end <= toks.len() && is_sumti_component(
            node,
            toks@,
            pos as nat,
        ),
    decreases toks.len() - pos, 29nat,
{
    proof {
        lemma_sumti_component(toks@, pos as nat);
    }
    let (at1, inner) = parse_sumti_component_1(toks, pos, arena)?;
    let (at2, frees) = parse_frees(toks, at1, arena)?;
    let node = WithFree { inner, frees };
    proof {
        lemma_is_sumti_component(node, toks@, pos as nat);
    }
    Ok((at2, node))
}

/// Parse `SumtiComponent1` at `pos`; see [`spec_sumti_component_1`].
pub fn parse_sumti_component_1<'arena>(
    toks: &[Token],
    pos: usize,
    arena: &'arena Arena,
) -> (out: Parsed<
    SumtiComponent1<'arena>,
>)
    requires
        pos <= toks.len(),
    ensures
        outcome(out, pos) == spec_sumti_component_1(toks@, pos as nat),
        out matches Ok((end, node)) ==> pos < end <= toks.len() && is_sumti_component_1(
            node,
            toks@,
            pos as nat,
        ),
    decreases toks.len() - pos, 28nat,
{
    proof {
        lemma_sumti_component_1(toks@, pos as nat);
        lemma_is_sumti_component_1(toks@, pos as nat);
    }
    let tried = parse_sumti_component_1_koha(toks, pos, arena);
    if settled(&tried) {
        return tried;
    }
    let error = error_of(tried);
    let tried = parse_sumti_component_1_gadri(toks, pos, arena);
    if settled(&tried) {
        return tried;
    }
    let error = error.or(error_of(tried));
    let tried = parse_sumti_component_1_la(toks, pos, arena);
    if settled(&tried) {
        return tried;
    }
    let error = error.or(error_of(tried));
    let tried = parse_sumti_component_1_lohu(toks, pos, arena);
    if settled(&tried) {
        return tried;
    }
    let error = error.or(error_of(tried));
    let tried = parse_sumti_component_1_lu(toks, pos, arena);
    if settled(&tried) {
        return tried;
    }
    let error = error.or(error_of(tried));
    let tried = parse_sumti_component_1_modified(toks, pos, arena);
    if settled(&tried) {
        return tried;
    }
    let error = error.or(error_of(tried));
    let tried = parse_sumti_component_1_lerfu_string(toks, pos, arena);
    if settled(&tried) {
        return tried;
    }
    let error = error.or(error_of(tried));
    let tried = parse_sumti_component_1_zo(toks, pos, arena);
    if settled(&tried) {
        return tried;
    }
    let error = error.or(error_of(tried));
    let tried = parse_sumti_component_1_zoi(toks, pos, arena);
    if settled(&tried) {
        return tried;
    }
    let error = error.or(error_of(tried));
    let tried = parse_sumti_component_1_li(toks, pos, arena);
    if settled(&tried) {
        return tried;
    }
    let error = error.or(error_of(tried));
    Err(Failed { fatal: false, error })
}

/// Parse `SumtiComponent1Koha` at `pos`; see [`spec_sumti_component_1_koha`].
pub fn parse_sumti_component_1_koha<'arena>(
    toks: &[Token],
    pos: usize,
    arena: &'arena Arena,
) -> (out: Parsed<
    SumtiComponent1<'arena>,
>)
    requires
        pos <= toks.len(),
    ensures
        outcome(out, pos) == spec_sumti_component_1_koha(toks@, pos as nat),
        out matches Ok((end, node)) ==> pos < end <= toks.len() && is_sumti_component_1_koha(
            node,
            toks@,
            pos as nat,
        ),
    decreases toks.len() - pos, 3nat,
{
    proof {
        lemma_sumti_component_1_koha(toks@, pos as nat);
    }
    let (at1, field_0) = parse_word(toks, pos, arena, Selmaho::Koha)?;
    let node = SumtiComponent1::Koha(field_0);
    proof {
        lemma_is_sumti_component_1_koha(node, toks@, pos as nat);
    }
    Ok((at1, node))
}

/// Parse `SumtiComponent1Gadri` at `pos`; see [`spec_sumti_component_1_gadri`].
pub fn parse_sumti_component_1_gadri<'arena>(
    toks: &[Token],
    pos: usize,
    arena: &'arena Arena,
) -> (out: Parsed<
    SumtiComponent1<'arena>,
>)
    requires
        pos <= toks.len(),
    ensures
        outcome(out, pos) == spec_sumti_component_1_gadri(toks@, pos as nat),
        out matches Ok((end, node)) ==> pos < end <= toks.len() && is_sumti_component_1_gadri(
            node,
            toks@,
            pos as nat,
        ),
    decreases toks.len() - pos, 27nat,
{
    proof {
        lemma_sumti_component_1_gadri(toks@, pos as nat);
    }
    let (at1, field_0) = place(arena, parse_gadri_sumti(toks, pos, arena))?;
    let node = SumtiComponent1::Gadri(field_0);
    proof {
        lemma_is_sumti_component_1_gadri(node, toks@, pos as nat);
    }
    Ok((at1, node))
}

/// Parse `GadriSumti` at `pos`; see [`spec_gadri_sumti`].
pub fn parse_gadri_sumti<'arena>(
    toks: &[Token],
    pos: usize,
    arena: &'arena Arena,
) -> (out: Parsed<
    GadriSumti<'arena>,
>)
    requires
        pos <= toks.len(),
    ensures
        outcome(out, pos) == spec_gadri_sumti(toks@, pos as nat),
        out matches Ok((end, node)) ==> pos < end <= toks.len() && is_gadri_sumti(
            node,
            toks@,
            pos as nat,
        ),
    decreases toks.len() - pos, 26nat,
{
    proof {
        lemma_gadri_sumti(toks@, pos as nat);
    }
    let (at1, gadri) = parse_gadri_with_free(toks, pos, arena)?;
    let (at2, pre) = parse_gadri_sumti_pre(toks, at1, arena)?;
    let (at3, contents) = parse_gadri_sumti_contents(toks, at2, arena)?;
    let (at4, ku) = opt(at3, parse_word(toks, at3, arena, Selmaho::Ku))?;
    let node = GadriSumti { gadri, pre, contents, ku };
    proof {
        lemma_is_gadri_sumti(node, toks@, pos as nat);
    }
    Ok((at4, node))
}

/// Parse `GadriWithFree` at `pos`; see [`spec_gadri_with_free`].
pub fn parse_gadri_with_free<'arena>(
    toks: &[Token],
    pos: usize,
    arena: &'arena Arena,
) -> (out: Parsed<
    WithFree<'arena, Gadri<'arena>>,
>)
    requires
        pos <= toks.len(),
    ensures
        outcome(out, pos) == spec_gadri_with_free(toks@, pos as nat),
        out matches Ok((end, node)) ==> pos < end <= toks.len() && is_gadri_with_free(
            node,
            toks@,
            pos as nat,
        ),
    decreases toks.len() - pos, 25nat,
{
    proof {
        lemma_gadri_with_free(toks@, pos as nat);
    }
    let (at1, inner) = parse_gadri(toks, pos, arena)?;
    let (at2, frees) = parse_frees(toks, at1, arena)?;
    let node = WithFree { inner, frees };
    proof {
        lemma_is_gadri_with_free(node, toks@, pos as nat);
    }
    Ok((at2, node))
}

/// Parse `Gadri` at `pos`; see [`spec_gadri`].
pub fn parse_gadri<'arena>(toks: &[Token], pos: usize, arena: &'arena Arena) -> (out: Parsed<
    Gadri<'arena>,
>)
    requires
        pos <= toks.len(),
    ensures
        outcome(out, pos) == spec_gadri(toks@, pos as nat),
        out matches Ok((end, node)) ==> pos < end <= toks.len() && is_gadri(
            node,
            toks@,
            pos as nat,
        ),
    decreases toks.len() - pos, 4nat,
{
    proof {
        lemma_gadri(toks@, pos as nat);
        lemma_is_gadri(toks@, pos as nat);
    }
    let tried = parse_gadri_le(toks, pos, arena);
    if settled(&tried) {
        return tried;
    }
    let error = error_of(tried);
    let tried = parse_gadri_la(toks, pos, arena);
    if settled(&tried) {
        return tried;
    }
    let error = error.or(error_of(tried));
    Err(Failed { fatal: false, error })
}

/// Parse `GadriLe` at `pos`; see [`spec_gadri_le`].
pub fn parse_gadri_le<'arena>(toks: &[Token], pos: usize, arena: &'arena Arena) -> (out: Parsed<
    Gadri<'arena>,
>)
    requires
        pos <= toks.len(),
    ensures
        outcome(out, pos) == spec_gadri_le(toks@, pos as nat),
        out matches Ok((end, node)) ==> pos < end <= toks.len() && is_gadri_le(
            node,
            toks@,
            pos as nat,
        ),
    decreases toks.len() - pos, 3nat,
{
    proof {
        lemma_gadri_le(toks@, pos as nat);
    }
    let (at1, field_0) = parse_word(toks, pos, arena, Selmaho::Le)?;
    let node = Gadri::Le(field_0);
    proof {
        lemma_is_gadri_le(node, toks@, pos as nat);
    }
    Ok((at1, node))
}

/// Parse `GadriLa` at `pos`; see [`spec_gadri_la`].
pub fn parse_gadri_la<'arena>(toks: &[Token], pos: usize, arena: &'arena Arena) -> (out: Parsed<
    Gadri<'arena>,
>)
    requires
        pos <= toks.len(),
    ensures
        outcome(out, pos) == spec_gadri_la(toks@, pos as nat),
        out matches Ok((end, node)) ==> pos < end <= toks.len() && is_gadri_la(
            node,
            toks@,
            pos as nat,
        ),
    decreases toks.len() - pos, 3nat,
{
    proof {
        lemma_gadri_la(toks@, pos as nat);
    }
    let (at1, field_0) = parse_word(toks, pos, arena, Selmaho::La)?;
    let node = Gadri::La(field_0);
    proof {
        lemma_is_gadri_la(node, toks@, pos as nat);
    }
    Ok((at1, node))
}

/// Parse `GadriSumtiPre` at `pos`; see [`spec_gadri_sumti_pre`].
pub fn parse_gadri_sumti_pre<'arena>(
    toks: &[Token],
    pos: usize,
    arena: &'arena Arena,
) -> (out: Parsed<
    GadriSumtiPre<'arena>,
>)
    requires
        pos <= toks.len(),
    ensures
        outcome(out, pos) == spec_gadri_sumti_pre(toks@, pos as nat),
        out matches Ok((end, node)) ==> pos <= end <= toks.len() && is_gadri_sumti_pre(
            node,
            toks@,
            pos as nat,
        ),
    decreases toks.len() - pos, 46nat,
{
    proof {
        lemma_gadri_sumti_pre(toks@, pos as nat);
        lemma_is_gadri_sumti_pre(toks@, pos as nat);
    }
    let tried = parse_gadri_sumti_pre_simple(toks, pos, arena);
    if settled(&tried) {
        return tried;
    }
    let error = error_of(tried);
    let tried = parse_gadri_sumti_pre_relative(toks, pos, arena);
    if settled(&tried) {
        return tried;
    }
    let error = error.or(error_of(tried));
    let tried = parse_gadri_sumti_pre_full_pre(toks, pos, arena);
    if settled(&tried) {
        return tried;
    }
    let error = error.or(error_of(tried));
    Err(Failed { fatal: false, error })
}

/// Parse `GadriSumtiPreSimple` at `pos`; see [`spec_gadri_sumti_pre_simple`].
pub fn parse_gadri_sumti_pre_simple<'arena>(
    toks: &[Token],
    pos: usize,
    arena: &'arena Arena,
) -> (out: Parsed<
    GadriSumtiPre<'arena>,
>)
    requires
        pos <= toks.len(),
    ensures
        outcome(out, pos) == spec_gadri_sumti_pre_simple(toks@, pos as nat),
        out matches Ok((end, node)) ==> pos <= end <= toks.len() && is_gadri_sumti_pre_simple(
            node,
            toks@,
            pos as nat,
        ),
    decreases toks.len() - pos, 30nat,
{
    proof {
        lemma_gadri_sumti_pre_simple(toks@, pos as nat);
    }
    let (at1, pe_shorthand) = opt(pos, place(arena, parse_sumti_component(toks, pos, arena)))?;
    let (at2, relative_clauses) = opt(at1, parse_relative_clauses(toks, at1, arena))?;
    let node = GadriSumtiPre::Simple { pe_shorthand, relative_clauses };
    proof {
        lemma_is_gadri_sumti_pre_simple(node, toks@, pos as nat);
    }
    Ok((at2, node))
}

/// Parse `RelativeClauses` at `pos`; see [`spec_relative_clauses`].
pub fn parse_relative_clauses<'arena>(
    toks: &[Token],
    pos: usize,
    arena: &'arena Arena,
) -> (out: Parsed<
    RelativeClauses<'arena>,
>)
    requires
        pos <= toks.len(),
    ensures
        outcome(out, pos) == spec_relative_clauses(toks@, pos as nat),
        out matches Ok((end, node)) ==> pos < end <= toks.len() && is_relative_clauses(
            node,
            toks@,
            pos as nat,
        ),
    decreases toks.len() - pos, 10nat,
{
    proof {
        lemma_relative_clauses(toks@, pos as nat);
    }
    let (at1, field_0) = parse_relative_clause_list(toks, pos, arena)?;
    let node = RelativeClauses(field_0);
    proof {
        lemma_is_relative_clauses(node, toks@, pos as nat);
    }
    Ok((at1, node))
}

/// Parse `RelativeClauseList` at `pos`; see [`spec_relative_clause_list`].
pub fn parse_relative_clause_list<'arena>(
    toks: &[Token],
    pos: usize,
    arena: &'arena Arena,
) -> (out: Parsed<
    Separated<'arena, RelativeClause<'arena>, WithFree<'arena, Word<'arena>>>,
>)
    requires
        pos <= toks.len(),
    ensures
        outcome(out, pos) == spec_relative_clause_list(toks@, pos as nat),
        out matches Ok((end, node)) ==> pos < end <= toks.len() && is_relative_clause_list(
            node,
            toks@,
            pos as nat,
        ),
    decreases toks.len() - pos, 9nat,
{
    proof {
        lemma_relative_clause_list(toks@, pos as nat);
    }
    let (at1, first) = place(arena, parse_relative_clause(toks, pos, arena))?;
    let (at2, rest) = many0_relative_clause_list_next(toks, at1, arena)?;
    let node = Separated { first, rest };
    proof {
        lemma_is_relative_clause_list(node, toks@, pos as nat);
    }
    Ok((at2, node))
}

/// Parse `RelativeClause` at `pos`; see [`spec_relative_clause`].
pub fn parse_relative_clause<'arena>(
    toks: &[Token],
    pos: usize,
    arena: &'arena Arena,
) -> (out: Parsed<
    RelativeClause<'arena>,
>)
    requires
        pos <= toks.len(),
    ensures
        outcome(out, pos) == spec_relative_clause(toks@, pos as nat),
        out matches Ok((end, node)) ==> pos < end <= toks.len() && is_relative_clause(
            node,
            toks@,
            pos as nat,
        ),
    decreases toks.len() - pos, 6nat,
{
    proof {
        lemma_relative_clause(toks@, pos as nat);
        lemma_is_relative_clause(toks@, pos as nat);
    }
    let tried = parse_relative_clause_goi(toks, pos, arena);
    if settled(&tried) {
        return tried;
    }
    let error = error_of(tried);
    let tried = parse_relative_clause_noi(toks, pos, arena);
    if settled(&tried) {
        return tried;
    }
    let error = error.or(error_of(tried));
    Err(Failed { fatal: false, error })
}

/// Parse `RelativeClauseGoi` at `pos`; see [`spec_relative_clause_goi`].
pub fn parse_relative_clause_goi<'arena>(
    toks: &[Token],
    pos: usize,
    arena: &'arena Arena,
) -> (out: Parsed<
    RelativeClause<'arena>,
>)
    requires
        pos <= toks.len(),
    ensures
        outcome(out, pos) == spec_relative_clause_goi(toks@, pos as nat),
        out matches Ok((end, node)) ==> pos < end <= toks.len() && is_relative_clause_goi(
            node,
            toks@,
            pos as nat,
        ),
    decreases toks.len() - pos, 5nat,
{
    proof {
        lemma_relative_clause_goi(toks@, pos as nat);
    }
    let (at1, field_0) = parse_goi_relative_clause(toks, pos, arena)?;
    let node = RelativeClause::Goi(field_0);
    proof {
        lemma_is_relative_clause_goi(node, toks@, pos as nat);
    }
    Ok((at1, node))
}

/// Parse `GoiRelativeClause` at `pos`; see [`spec_goi_relative_clause`].
pub fn parse_goi_relative_clause<'arena>(
    toks: &[Token],
    pos: usize,
    arena: &'arena Arena,
) -> (out: Parsed<
    GoiRelativeClause<'arena>,
>)
    requires
        pos <= toks.len(),
    ensures
        outcome(out, pos) == spec_goi_relative_clause(toks@, pos as nat),
        out matches Ok((end, node)) ==> pos < end <= toks.len() && is_goi_relative_clause(
            node,
            toks@,
            pos as nat,
        ),
    decreases toks.len() - pos, 4nat,
{
    proof {
        lemma_goi_relative_clause(toks@, pos as nat);
    }
    let (at1, goi) = parse_word_with_free(toks, pos, arena, Selmaho::Goi)?;
    let (at2, inner) = parse_arg(toks, at1, arena)?;
    let (at3, gehu) = opt(at2, parse_word(toks, at2, arena, Selmaho::Gehu))?;
    let (at4, frees) = parse_frees(toks, at3, arena)?;
    let node = GoiRelativeClause { goi, inner, gehu, frees };
    proof {
        lemma_is_goi_relative_clause(node, toks@, pos as nat);
    }
    Ok((at4, node))
}

/// Parse `RelativeClauseNoi` at `pos`; see [`spec_relative_clause_noi`].
pub fn parse_relative_clause_noi<'arena>(
    toks: &[Token],
    pos: usize,
    arena: &'arena Arena,
) -> (out: Parsed<
    RelativeClause<'arena>,
>)
    requires
        pos <= toks.len(),
    ensures
        outcome(out, pos) == spec_relative_clause_noi(toks@, pos as nat),
        out matches Ok((end, node)) ==> pos < end <= toks.len() && is_relative_clause_noi(
            node,
            toks@,
            pos as nat,
        ),
    decreases toks.len() - pos, 5nat,
{
    proof {
        lemma_relative_clause_noi(toks@, pos as nat);
    }
    let (at1, field_0) = parse_noi_relative_clause(toks, pos, arena)?;
    let node = RelativeClause::Noi(field_0);
    proof {
        lemma_is_relative_clause_noi(node, toks@, pos as nat);
    }
    Ok((at1, node))
}

/// Parse `NoiRelativeClause` at `pos`; see [`spec_noi_relative_clause`].
pub fn parse_noi_relative_clause<'arena>(
    toks: &[Token],
    pos: usize,
    arena: &'arena Arena,
) -> (out: Parsed<
    NoiRelativeClause<'arena>,
>)
    requires
        pos <= toks.len(),
    ensures
        outcome(out, pos) == spec_noi_relative_clause(toks@, pos as nat),
        out matches Ok((end, node)) ==> pos < end <= toks.len() && is_noi_relative_clause(
            node,
            toks@,
            pos as nat,
        ),
    decreases toks.len() - pos, 4nat,
{
    proof {
        lemma_noi_relative_clause(toks@, pos as nat);
    }
    let (at1, noi) = parse_word_with_free(toks, pos, arena, Selmaho::Noi)?;
    let (at2, inner) = place(arena, parse_subsentence(toks, at1, arena))?;
    let (at3, kuho) = opt(at2, parse_word(toks, at2, arena, Selmaho::Kuho))?;
    let (at4, frees) = parse_frees(toks, at3, arena)?;
    let node = NoiRelativeClause { noi, inner, kuho, frees };
    proof {
        lemma_is_noi_relative_clause(node, toks@, pos as nat);
    }
    Ok((at4, node))
}

/// Parse `Subsentence` at `pos`; see [`spec_subsentence`].
pub fn parse_subsentence<'arena>(
    toks: &[Token],
    pos: usize,
    arena: &'arena Arena,
) -> (out: Parsed<
    Subsentence<'arena>,
>)
    requires
        pos <= toks.len(),
    ensures
        outcome(out, pos) == spec_subsentence(toks@, pos as nat),
        out matches Ok((end, node)) ==> pos < end <= toks.len() && is_subsentence(
            node,
            toks@,
            pos as nat,
        ),
    decreases toks.len() - pos, 101nat,
{
    proof {
        lemma_subsentence(toks@, pos as nat);
    }
    let (at1, field_0) = many0_prenex(toks, pos, arena)?;
    let (at2, field_1) = parse_args(toks, at1, arena)?;
    let (at3, field_2) = parse_sentence_tail(toks, at2, arena)?;
    let node = Subsentence(field_0, field_1, field_2);
    proof {
        lemma_is_subsentence(node, toks@, pos as nat);
    }
    Ok((at3, node))
}

/// Parse `Prenex` at `pos`; see [`spec_prenex`].
pub fn parse_prenex<'arena>(toks: &[Token], pos: usize, arena: &'arena Arena) -> (out: Parsed<
    Prenex<'arena>,
>)
    requires
        pos <= toks.len(),
    ensures
        outcome(out, pos) == spec_prenex(toks@, pos as nat),
        out matches Ok((end, node)) ==> pos < end <= toks.len() && is_prenex(
            node,
            toks@,
            pos as nat,
        ),
    decreases toks.len() - pos, 62nat,
{
    proof {
        lemma_prenex(toks@, pos as nat);
    }
    let (at1, terms) = parse_args(toks, pos, arena)?;
    let (at2, zohu) = parse_word(toks, at1, arena, Selmaho::Zohu)?;
    let (at3, frees) = parse_frees(toks, at2, arena)?;
    let node = Prenex { terms, zohu, frees };
    proof {
        lemma_is_prenex(node, toks@, pos as nat);
    }
    Ok((at3, node))
}

/// Parse `Prenex` from `pos` on as often as it matches; see [`spec_many0_prenex`].
pub fn many0_prenex<'arena>(toks: &[Token], pos: usize, arena: &'arena Arena) -> (out: Parsed<
    &'arena [Prenex<'arena>],
>)
    requires
        pos <= toks.len(),
    ensures
        outcome(out, pos) == spec_many0_prenex(toks@, pos as nat),
        out matches Ok((end, items)) ==> pos <= end <= toks.len() && (items@.len() == 0 <==> end
            == pos) && is_row_of_prenex(items@, toks@, pos as nat),
    decreases toks.len() - pos, 63nat,
{
    let mut items: Vec<Prenex<'arena>> = Vec::new();
    let mut at: usize = pos;
    loop
        invariant
            pos <= at <= toks.len(),
            items@.len() == 0 <==> at == pos,
            at == pos + run_of_prenex(toks@, pos as nat, items@.len()),
            forall|i: int|
                #![trigger items@[i]]
                #![trigger run_of_prenex(toks@, pos as nat, i as nat)]
                0 <= i < items@.len() ==> spec_prenex(
                    toks@,
                    pos as nat + run_of_prenex(toks@, pos as nat, i as nat),
                ) is Matched && is_prenex(
                    items@[i],
                    toks@,
                    pos as nat + run_of_prenex(toks@, pos as nat, i as nat),
                ),
            shifted(spec_many0_prenex(toks@, at as nat), (at - pos) as nat) == spec_many0_prenex(
                toks@,
                pos as nat,
            ),
        decreases toks.len() - at,
    {
        proof {
            lemma_many0_prenex(toks@, at as nat);
        }
        match parse_prenex(toks, at, arena) {
            Ok((end, item)) => {
                if end == at {
                    return fail(Error::Combinator(ErrorKind::Many0), at);
                }
                items.push(item);
                at = end;
            },
            Err(failed) => {
                if failed.fatal {
                    return Err(failed);
                }
                proof {
                    lemma_is_row_of_prenex(items@, toks@, pos as nat);
                }
                return Ok((at, keep_all(arena, items)));
            },
        }
    }
}

/// Parse `SentenceTail` at `pos`; see [`spec_sentence_tail`].
pub fn parse_sentence_tail<'arena>(
    toks: &[Token],
    pos: usize,
    arena: &'arena Arena,
) -> (out: Parsed<
    SentenceTail<'arena>,
>)
    requires
        pos <= toks.len(),
    ensures
        outcome(out, pos) == spec_sentence_tail(toks@, pos as nat),
        out matches Ok((end, node)) ==> pos < end <= toks.len() && is_sentence_tail(
            node,
            toks@,
            pos as nat,
        ),
    decreases toks.len() - pos, 100nat,
{
    proof {
        lemma_sentence_tail(toks@, pos as nat);
    }
    let (at1, field_0) = opt(pos, parse_word(toks, pos, arena, Selmaho::Cu))?;
    let (at2, field_1) = parse_frees(toks, at1, arena)?;
    let (at3, field_2) = parse_sentence_tail_1(toks, at2, arena)?;
    let node = SentenceTail(field_0, field_1, field_2);
    proof {
        lemma_is_sentence_tail(node, toks@, pos as nat);
    }
    Ok((at3, node))
}

/// Parse `SentenceTail1` at `pos`; see [`spec_sentence_tail_1`].
pub fn parse_sentence_tail_1<'arena>(
    toks: &[Token],
    pos: usize,
    arena: &'arena Arena,
) -> (out: Parsed<
    SentenceTail1<'arena>,
>)
    requires
        pos <= toks.len(),
    ensures
        outcome(out, pos) == spec_sentence_tail_1(toks@, pos as nat),
        out matches Ok((end, node)) ==> pos < end <= toks.len() && is_sentence_tail_1(
            node,
            toks@,
            pos as nat,
        ),
    decreases toks.len() - pos, 99nat,
{
    proof {
        lemma_sentence_tail_1(toks@, pos as nat);
    }
    let (at1, field_0) = parse_sentence_tail_2(toks, pos, arena)?;
    let (at2, field_1) = opt(at1, parse_sentence_tail_1_after(toks, at1, arena))?;
    let node = SentenceTail1(field_0, field_1);
    proof {
        lemma_is_sentence_tail_1(node, toks@, pos as nat);
    }
    Ok((at2, node))
}

/// Parse `SentenceTail2` at `pos`; see [`spec_sentence_tail_2`].
pub fn parse_sentence_tail_2<'arena>(
    toks: &[Token],
    pos: usize,
    arena: &'arena Arena,
) -> (out: Parsed<
    SentenceTail2<'arena>,
>)
    requires
        pos <= toks.len(),
    ensures
        outcome(out, pos) == spec_sentence_tail_2(toks@, pos as nat),
        out matches Ok((end, node)) ==> pos < end <= toks.len() && is_sentence_tail_2(
            node,
            toks@,
            pos as nat,
        ),
    decreases toks.len() - pos, 98nat,
{
    proof {
        lemma_sentence_tail_2(toks@, pos as nat);
    }
    let (at1, field_0) = place(arena, parse_sentence_tail_3(toks, pos, arena))?;
    let (at2, field_1) = opt(at1, parse_sentence_tail_2_after(toks, at1, arena))?;
    let node = SentenceTail2(field_0, field_1);
    proof {
        lemma_is_sentence_tail_2(node, toks@, pos as nat);
    }
    Ok((at2, node))
}

/// Parse `SentenceTail3` at `pos`; see [`spec_sentence_tail_3`].
pub fn parse_sentence_tail_3<'arena>(
    toks: &[Token],
    pos: usize,
    arena: &'arena Arena,
) -> (out: Parsed<
    SentenceTail3<'arena>,
>)
    requires
        pos <= toks.len(),
    ensures
        outcome(out, pos) == spec_sentence_tail_3(toks@, pos as nat),
        out matches Ok((end, node)) ==> pos < end <= toks.len() && is_sentence_tail_3(
            node,
            toks@,
            pos as nat,
        ),
    decreases toks.len() - pos, 94nat,
{
    proof {
        lemma_sentence_tail_3(toks@, pos as nat);
    }
    let (at1, field_0) = place(arena, parse_sentence_tail_4(toks, pos, arena))?;
    let (at2, field_1) = opt(at1, parse_sentence_tail_3_after(toks, at1, arena))?;
    let node = SentenceTail3(field_0, field_1);
    proof {
        lemma_is_sentence_tail_3(node, toks@, pos as nat);
    }
    Ok((at2, node))
}

/// Parse `SentenceTail4` at `pos`; see [`spec_sentence_tail_4`].
pub fn parse_sentence_tail_4<'arena>(
    toks: &[Token],
    pos: usize,
    arena: &'arena Arena,
) -> (out: Parsed<
    SentenceTail4<'arena>,
>)
    requires
        pos <= toks.len(),
    ensures
        outcome(out, pos) == spec_sentence_tail_4(toks@, pos as nat),
        out matches Ok((end, node)) ==> pos < end <= toks.len() && is_sentence_tail_4(
            node,
            toks@,
            pos as nat,
        ),
    decreases toks.len() - pos, 90nat,
{
    proof {
        lemma_sentence_tail_4(toks@, pos as nat);
        lemma_is_sentence_tail_4(toks@, pos as nat);
    }
    let tried = parse_sentence_tail_4_single(toks, pos, arena);
    if settled(&tried) {
        return tried;
    }
    let error = error_of(tried);
    let tried = parse_sentence_tail_4_parenthesized(toks, pos, arena);
    if settled(&tried) {
        return tried;
    }
    let error = error.or(error_of(tried));
    let tried = parse_sentence_tail_4_connected(toks, pos, arena);
    if settled(&tried) {
        return tried;
    }
    let error = error.or(error_of(tried));
    Err(Failed { fatal: false, error })
}

/// Parse `SentenceTail4Single` at `pos`; see [`spec_sentence_tail_4_single`].
pub fn parse_sentence_tail_4_single<'arena>(
    toks: &[Token],
    pos: usize,
    arena: &'arena Arena,
) -> (out: Parsed<
    SentenceTail4<'arena>,
>)
    requires
        pos <= toks.len(),
    ensures
        outcome(out, pos) == spec_sentence_tail_4_single(toks@, pos as nat),
        out matches Ok((end, node)) ==> pos < end <= toks.len() && is_sentence_tail_4_single(
            node,
            toks@,
            pos as nat,
        ),
    decreases toks.len() - pos, 89nat,
{
    proof {
        lemma_sentence_tail_4_single(toks@, pos as nat);
    }
    let (at1, field_0) = parse_selbri(toks, pos, arena)?;
    let (at2, field_1) = parse_tail_args(toks, at1, arena)?;
    let node = SentenceTail4::Single(field_0, field_1);
    proof {
        lemma_is_sentence_tail_4_single(node, toks@, pos as nat);
    }
    Ok((at2, node))
}

/// Parse `TailArgs` at `pos`; see [`spec_tail_args`].
pub fn parse_tail_args<'arena>(toks: &[Token], pos: usize, arena: &'arena Arena) -> (out: Parsed<
    TailArgs<'arena>,
>)
    requires
        pos <= toks.len(),
    ensures
        outcome(out, pos) == spec_tail_args(toks@, pos as nat),
        out matches Ok((end, node)) ==> pos <= end <= toks.len() && is_tail_args(
            node,
            toks@,
            pos as nat,
        ),
    decreases toks.len() - pos, 62nat,
{
    proof {
        lemma_tail_args(toks@, pos as nat);
    }
    let (at1, field_0) = parse_args(toks, pos, arena)?;
    let (at2, field_1) = opt(at1, parse_word(toks, at1, arena, Selmaho::Vau))?;
    let (at3, field_2) = parse_frees(toks, at2, arena)?;
    let node = TailArgs(field_0, field_1, field_2);
    proof {
        lemma_is_tail_args(node, toks@, pos as nat);
    }
    Ok((at3, node))
}

/// Parse `SentenceTail4Parenthesized` at `pos`; see [`spec_sentence_tail_4_parenthesized`].
pub fn parse_sentence_tail_4_parenthesized<'arena>(
    toks: &[Token],
    pos: usize,
    arena: &'arena Arena,
) -> (out: Parsed<
    SentenceTail4<'arena>,
>)
    requires
        pos <= toks.len(),
    ensures
        outcome(out, pos) == spec_sentence_tail_4_parenthesized(toks@, pos as nat),
        out matches Ok((end, node)) ==> pos < end <= toks.len() && is_sentence_tail_4_parenthesized(
            node,
            toks@,
            pos as nat,
        ),
    decreases toks.len() - pos, 64nat,
{
    proof {
        lemma_sentence_tail_4_parenthesized(toks@, pos as nat);
    }
    let (at1, field_0) = many0_word_with_free(toks, pos, arena, Selmaho::Na)?;
    let (at2, field_1) = opt(at1, parse_tag_words(toks, at1, arena))?;
    let (at3, field_2) = parse_word_with_free(toks, at2, arena, Selmaho::Ke)?;
    let (at4, field_3) = place(arena, parse_gek_sentence(toks, at3, arena))?;
    let (at5, field_4) = opt(at4, parse_word(toks, at4, arena, Selmaho::Kehe))?;
    let (at6, field_5) = parse_frees(toks, at5, arena)?;
    let node = SentenceTail4::Parenthesized(field_0, field_1, field_2, field_3, field_4, field_5);
    proof {
        lemma_is_sentence_tail_4_parenthesized(node, toks@, pos as nat);
    }
    Ok((at6, node))
}

/// Parse `GekSentence` at `pos`; see [`spec_gek_sentence`].
pub fn parse_gek_sentence<'arena>(
    toks: &[Token],
    pos: usize,
    arena: &'arena Arena,
) -> (out: Parsed<
    GekSentence<'arena>,
>)
    requires
        pos <= toks.len(),
    ensures
        outcome(out, pos) == spec_gek_sentence(toks@, pos as nat),
        out matches Ok((end, node)) ==> pos < end <= toks.len() && is_gek_sentence(
            node,
            toks@,
            pos as nat,
        ),
    decreases toks.len() - pos, 63nat,
{
    proof {
        lemma_gek_sentence(toks@, pos as nat);
    }
    let (at1, field_0) = many0_word_with_free(toks, pos, arena, Selmaho::Na)?;
    let (at2, field_1) = parse_gek(toks, at1, arena)?;
    let (at3, field_2) = parse_subsentence(toks, at2, arena)?;
    let (at4, field_3) = parse_gik(toks, at3, arena)?;
    let (at5, field_4) = parse_subsentence(toks, at4, arena)?;
    let (at6, field_5) = parse_tail_args(toks, at5, arena)?;
    let node = GekSentence(field_0, field_1, field_2, field_3, field_4, field_5);
    proof {
        lemma_is_gek_sentence(node, toks@, pos as nat);
    }
    Ok((at6, node))
}

/// Parse `SentenceTail4Connected` at `pos`; see [`spec_sentence_tail_4_connected`].
pub fn parse_sentence_tail_4_connected<'arena>(
    toks: &[Token],
    pos: usize,
    arena: &'arena Arena,
) -> (out: Parsed<
    SentenceTail4<'arena>,
>)
    requires
        pos <= toks.len(),
    ensures
        outcome(out, pos) == spec_sentence_tail_4_connected(toks@, pos as nat),
        out matches Ok((end, node)) ==> pos < end <= toks.len() && is_sentence_tail_4_connected(
            node,
            toks@,
            pos as nat,
        ),
    decreases toks.len() - pos, 64nat,
{
    proof {
        lemma_sentence_tail_4_connected(toks@, pos as nat);
    }
    let (at1, field_0) = place(arena, parse_gek_sentence(toks, pos, arena))?;
    let node = SentenceTail4::Connected(field_0);
    proof {
        lemma_is_sentence_tail_4_connected(node, toks@, pos as nat);
    }
    Ok((at1, node))
}

/// Parse `SentenceTail3After` at `pos`; see [`spec_sentence_tail_3_after`].
pub fn parse_sentence_tail_3_after<'arena>(
    toks: &[Token],
    pos: usize,
    arena: &'arena Arena,
) -> (out: Parsed<
    SentenceTail3After<'arena>,
>)
    requires
        pos <= toks.len(),
    ensures
        outcome(out, pos) == spec_sentence_tail_3_after(toks@, pos as nat),
        out matches Ok((end, node)) ==> pos < end <= toks.len() && is_sentence_tail_3_after(
            node,
            toks@,
            pos as nat,
        ),
    decreases toks.len() - pos, 93nat,
{
    proof {
        lemma_sentence_tail_3_after(toks@, pos as nat);
    }
    let (at1, field_0) = many1_sentence_tail_3_next(toks, pos, arena)?;
    let (at2, field_1) = parse_tail_args(toks, at1, arena)?;
    let node = SentenceTail3After(field_0, field_1);
    proof {
        lemma_is_sentence_tail_3_after(node, toks@, pos as nat);
    }
    Ok((at2, node))
}

/// Parse `SentenceTail3Next` at `pos`; see [`spec_sentence_tail_3_next`].
pub fn parse_sentence_tail_3_next<'arena>(
    toks: &[Token],
    pos: usize,
    arena: &'arena Arena,
) -> (out: Parsed<
    (SentenceTail3Connective<'arena>, SentenceTail4<'arena>),
>)
    requires
        pos <= toks.len(),
    ensures
        outcome(out, pos) == spec_sentence_tail_3_next(toks@, pos as nat),
        out matches Ok((end, node)) ==> pos < end <= toks.len() && is_sentence_tail_3_next(
            node,
            toks@,
            pos as nat,
        ),
    decreases toks.len() - pos, 91nat,
{
    proof {
        lemma_sentence_tail_3_next(toks@, pos as nat);
    }
    let (at1, item_0) = parse_sentence_tail_3_connective(toks, pos, arena)?;
    let (at2, item_1) = parse_sentence_tail_4(toks, at1, arena)?;
    let node = (item_0, item_1);
    proof {
        lemma_is_sentence_tail_3_next(node, toks@, pos as nat);
    }
    Ok((at2, node))
}

/// Parse `SentenceTail3Next` from `pos` on as often as it matches, and at least once;
/// see [`spec_many1_sentence_tail_3_next`].
pub fn many1_sentence_tail_3_next<'arena>(
    toks: &[Token],
    pos: usize,
    arena: &'arena Arena,
) -> (out: Parsed<
    &'arena [(SentenceTail3Connective<'arena>, SentenceTail4<'arena>)],
>)
    requires
        pos <= toks.len(),
    ensures
        outcome(out, pos) == spec_many1_sentence_tail_3_next(toks@, pos as nat),
        out matches Ok((end, items)) ==> pos < end <= toks.len() && items@.len() > 0 && is_row_of_sentence_tail_3_next(
            items@,
            toks@,
            pos as nat,
        ),
    decreases toks.len() - pos, 92nat,
{
    proof {
        lemma_many1_sentence_tail_3_next(toks@, pos as nat);
    }
    let mut items: Vec<(SentenceTail3Connective<'arena>, SentenceTail4<'arena>)> = Vec::new();
    let (first_end, first) = parse_sentence_tail_3_next(toks, pos, arena)?;
    items.push(first);
    let mut at: usize = first_end;
    assert(run_of_sentence_tail_3_next(toks@, pos as nat, 0) == 0);
    loop
        invariant
            pos <= at <= toks.len(),
            items@.len() > 0,
            at == pos + run_of_sentence_tail_3_next(toks@, pos as nat, items@.len()),
            forall|i: int|
                #![trigger items@[i]]
                #![trigger run_of_sentence_tail_3_next(toks@, pos as nat, i as nat)]
                0 <= i < items@.len() ==> spec_sentence_tail_3_next(
                    toks@,
                    pos as nat + run_of_sentence_tail_3_next(toks@, pos as nat, i as nat),
                ) is Matched && is_sentence_tail_3_next(
                    items@[i],
                    toks@,
                    pos as nat + run_of_sentence_tail_3_next(toks@, pos as nat, i as nat),
                ),
            at == pos ==> spec_sentence_tail_3_next(toks@, pos as nat) == Outcome::Matched(0),
            at > pos ==> shifted(
                spec_many1_sentence_tail_3_next_more(toks@, at as nat),
                (at - pos) as nat,
            )
                == spec_many1_sentence_tail_3_next(toks@, pos as nat),
            at == pos ==> spec_many1_sentence_tail_3_next(toks@, pos as nat) == Outcome::Error(
                combinator_at(pos as nat, ErrorKind::Many1),
            ),
        decreases toks.len() - at,
    {
        proof {
            lemma_many1_sentence_tail_3_next(toks@, at as nat);
        }
        match parse_sentence_tail_3_next(toks, at, arena) {
            Ok((end, item)) => {
                if end == at {
                    return fail(Error::Combinator(ErrorKind::Many1), at);
                }
                items.push(item);
                at = end;
            },
            Err(failed) => {
                if failed.fatal {
                    return Err(failed);
                }
                proof {
                    lemma_is_row_of_sentence_tail_3_next(items@, toks@, pos as nat);
                }
                return Ok((at, keep_all(arena, items)));
            },
        }
    }
}

/// Parse `SentenceTail3Connective` at `pos`; see [`spec_sentence_tail_3_connective`].
pub fn parse_sentence_tail_3_connective<'arena>(
    toks: &[Token],
    pos: usize,
    arena: &'arena Arena,
) -> (out: Parsed<
    (Gihek<'arena>, Option<TagWords<'arena>>, Word<'arena>, Frees<'arena>),
>)
    requires
        pos <= toks.len(),
    ensures
        outcome(out, pos) == spec_sentence_tail_3_connective(toks@, pos as nat),
        out matches Ok((end, node)) ==> pos < end <= toks.len() && is_sentence_tail_3_connective(
            node,
            toks@,
            pos as nat,
        ),
    decreases toks.len() - pos, 32nat,
{
    proof {
        lemma_sentence_tail_3_connective(toks@, pos as nat);
    }
    let (at1, item_0) = parse_gihek(toks, pos, arena)?;
    let (at2, item_1) = opt(at1, parse_tag_words(toks, at1, arena))?;
    let (at3, item_2) = parse_word(toks, at2, arena, Selmaho::Bo)?;
    let (at4, item_3) = parse_frees(toks, at3, arena)?;
    let node = (item_0, item_1, item_2, item_3);
    proof {
        lemma_is_sentence_tail_3_connective(node, toks@, pos as nat);
    }
    Ok((at4, node))
}

/// Parse `Gihek` at `pos`; see [`spec_gihek`].
pub fn parse_gihek<'arena>(toks: &[Token], pos: usize, arena: &'arena Arena) -> (out: Parsed<
    Gihek<'arena>,
>)
    requires
        pos <= toks.len(),
    ensures
        outcome(out, pos) == spec_gihek(toks@, pos as nat),
        out matches Ok((end, node)) ==> pos < end <= toks.len() && is_gihek(
            node,
            toks@,
            pos as nat,
        ),
    decreases toks.len() - pos, 4nat,
{
    proof {
        lemma_gihek(toks@, pos as nat);
    }
    let (at1, field_0) = parse_na_se_tnai_giha(toks, pos, arena)?;
    let node = Gihek(field_0);
    proof {
        lemma_is_gihek(node, toks@, pos as nat);
    }
    Ok((at1, node))
}

/// Parse `NaSeTNaiGiha` at `pos`; see [`spec_na_se_tnai_giha`].
pub fn parse_na_se_tnai_giha<'arena>(
    toks: &[Token],
    pos: usize,
    arena: &'arena Arena,
) -> (out: Parsed<
    NaSeTNai<'arena, Word<'arena>>,
>)
    requires
        pos <= toks.len(),
    ensures
        outcome(out, pos) == spec_na_se_tnai_giha(toks@, pos as nat),
        out matches Ok((end, node)) ==> pos < end <= toks.len() && is_na_se_tnai_giha(
            node,
            toks@,
            pos as nat,
        ),
    decreases toks.len() - pos, 3nat,
{
    proof {
        lemma_na_se_tnai_giha(toks@, pos as nat);
    }
    let (at1, field_0) = opt(pos, parse_word(toks, pos, arena, Selmaho::Na))?;
    let (at2, field_1) = opt(at1, parse_word(toks, at1, arena, Selmaho::Se))?;
    let (at3, field_2) = parse_word(toks, at2, arena, Selmaho::Giha)?;
    let (at4, field_3) = opt(at3, parse_word(toks, at3, arena, Selmaho::Nai))?;
    let node = NaSeTNai(field_0, field_1, field_2, field_3);
    proof {
        lemma_is_na_se_tnai_giha(node, toks@, pos as nat);
    }
    Ok((at4, node))
}

/// Parse `SentenceTail2After` at `pos`; see [`spec_sentence_tail_2_after`].
pub fn parse_sentence_tail_2_after<'arena>(
    toks: &[Token],
    pos: usize,
    arena: &'arena Arena,
) -> (out: Parsed<
    SentenceTail2After<'arena>,
>)
    requires
        pos <= toks.len(),
    ensures
        outcome(out, pos) == spec_sentence_tail_2_after(toks@, pos as nat),
        out matches Ok((end, node)) ==> pos < end <= toks.len() && is_sentence_tail_2_after(
            node,
            toks@,
            pos as nat,
        ),
    decreases toks.len() - pos, 97nat,
{
    proof {
        lemma_sentence_tail_2_after(toks@, pos as nat);
    }
    let (at1, field_0) = many1_sentence_tail_2_next(toks, pos, arena)?;
    let (at2, field_1) = parse_tail_args(toks, at1, arena)?;
    let node = SentenceTail2After(field_0, field_1);
    proof {
        lemma_is_sentence_tail_2_after(node, toks@, pos as nat);
    }
    Ok((at2, node))
}

/// Parse `SentenceTail2Next` at `pos`; see [`spec_sentence_tail_2_next`].
pub fn parse_sentence_tail_2_next<'arena>(
    toks: &[Token],
    pos: usize,
    arena: &'arena Arena,
) -> (out: Parsed<
    (SentenceTail2Connective<'arena>, SentenceTail3<'arena>),
>)
    requires
        pos <= toks.len(),
    ensures
        outcome(out, pos) == spec_sentence_tail_2_next(toks@, pos as nat),
        out matches Ok((end, node)) ==> pos < end <= toks.len() && is_sentence_tail_2_next(
            node,
            toks@,
            pos as nat,
        ),
    decreases toks.len() - pos, 95nat,
{
    proof {
        lemma_sentence_tail_2_next(toks@, pos as nat);
    }
    let (at1, item_0) = parse_sentence_tail_2_connective(toks, pos, arena)?;
    let (at2, item_1) = parse_sentence_tail_3(toks, at1, arena)?;
    let node = (item_0, item_1);
    proof {
        lemma_is_sentence_tail_2_next(node, toks@, pos as nat);
    }
    Ok((at2, node))
}

/// Parse `SentenceTail2Next` from `pos` on as often as it matches, and at least once;
/// see [`spec_many1_sentence_tail_2_next`].
pub fn many1_sentence_tail_2_next<'arena>(
    toks: &[Token],
    pos: usize,
    arena: &'arena Arena,
) -> (out: Parsed<
    &'arena [(SentenceTail2Connective<'arena>, SentenceTail3<'arena>)],
>)
    requires
        pos <= toks.len(),
    ensures
        outcome(out, pos) == spec_many1_sentence_tail_2_next(toks@, pos as nat),
        out matches Ok((end, items)) ==> pos < end <= toks.len() && items@.len() > 0 && is_row_of_sentence_tail_2_next(
            items@,
            toks@,
            pos as nat,
        ),
    decreases toks.len() - pos, 96nat,
{
    proof {
        lemma_many1_sentence_tail_2_next(toks@, pos as nat);
    }
    let mut items: Vec<(SentenceTail2Connective<'arena>, SentenceTail3<'arena>)> = Vec::new();
    let (first_end, first) = parse_sentence_tail_2_next(toks, pos, arena)?;
    items.push(first);
    let mut at: usize = first_end;
    assert(run_of_sentence_tail_2_next(toks@, pos as nat, 0) == 0);
    loop
        invariant
            pos <= at <= toks.len(),
            items@.len() > 0,
            at == pos + run_of_sentence_tail_2_next(toks@, pos as nat, items@.len()),
            forall|i: int|
                #![trigger items@[i]]
                #![trigger run_of_sentence_tail_2_next(toks@, pos as nat, i as nat)]
                0 <= i < items@.len() ==> spec_sentence_tail_2_next(
                    toks@,
                    pos as nat + run_of_sentence_tail_2_next(toks@, pos as nat, i as nat),
                ) is Matched && is_sentence_tail_2_next(
                    items@[i],
                    toks@,
                    pos as nat + run_of_sentence_tail_2_next(toks@, pos as nat, i as nat),
                ),
            at == pos ==> spec_sentence_tail_2_next(toks@, pos as nat) == Outcome::Matched(0),
            at > pos ==> shifted(
                spec_many1_sentence_tail_2_next_more(toks@, at as nat),
                (at - pos) as nat,
            )
                == spec_many1_sentence_tail_2_next(toks@, pos as nat),
            at == pos ==> spec_many1_sentence_tail_2_next(toks@, pos as nat) == Outcome::Error(
                combinator_at(pos as nat, ErrorKind::Many1),
            ),
        decreases toks.len() - at,
    {
        proof {
            lemma_many1_sentence_tail_2_next(toks@, at as nat);
        }
        match parse_sentence_tail_2_next(toks, at, arena) {
            Ok((end, item)) => {
                if end == at {
                    return fail(Error::Combinator(ErrorKind::Many1), at);
                }
                items.push(item);
                at = end;
            },
            Err(failed) => {
                if failed.fatal {
                    return Err(failed);
                }
                proof {
                    lemma_is_row_of_sentence_tail_2_next(items@, toks@, pos as nat);
                }
                return Ok((at, keep_all(arena, items)));
            },
        }
    }
}

/// Parse `SentenceTail2Connective` at `pos`; see [`spec_sentence_tail_2_connective`].
pub fn parse_sentence_tail_2_connective<'arena>(
    toks: &[Token],
    pos: usize,
    arena: &'arena Arena,
) -> (out: Parsed<
    SentenceTail2Connective<'arena>,
>)
    requires
        pos <= toks.len(),
    ensures
        outcome(out, pos) == spec_sentence_tail_2_connective(toks@, pos as nat),
        out matches Ok((end, node)) ==> pos < end <= toks.len() && is_sentence_tail_2_connective(
            node,
            toks@,
            pos as nat,
        ),
    decreases toks.len() - pos, 33nat,
{
    proof {
        lemma_sentence_tail_2_connective(toks@, pos as nat);
    }
    let (at1, field_0) = parse_gihek(toks, pos, arena)?;
    not(at1, parse_tag_ke(toks, at1, arena))?;
    let (at2, field_1) = parse_frees(toks, at1, arena)?;
    let node = SentenceTail2Connective(field_0, field_1);
    proof {
        lemma_is_sentence_tail_2_connective(node, toks@, pos as nat);
    }
    Ok((at2, node))
}

/// Parse `TagKe` at `pos`; see [`spec_tag_ke`].
pub fn parse_tag_ke<'arena>(toks: &[Token], pos: usize, arena: &'arena Arena) -> (out: Parsed<
    (Option<TagWords<'arena>>, Word<'arena>),
>)
    requires
        pos <= toks.len(),
    ensures
        outcome(out, pos) == spec_tag_ke(toks@, pos as nat),
        out matches Ok((end, node)) ==> pos < end <= toks.len() && is_tag_ke(
            node,
            toks@,
            pos as nat,
        ),
    decreases toks.len() - pos, 32nat,
{
    proof {
        lemma_tag_ke(toks@, pos as nat);
    }
    let (at1, item_0) = opt(pos, parse_tag_words(toks, pos, arena))?;
    let (at2, item_1) = parse_word(toks, at1, arena, Selmaho::Ke)?;
    let node = (item_0, item_1);
    proof {
        lemma_is_tag_ke(node, toks@, pos as nat);
    }
    Ok((at2, node))
}

/// Parse `SentenceTail1After` at `pos`; see [`spec_sentence_tail_1_after`].
pub fn parse_sentence_tail_1_after<'arena>(
    toks: &[Token],
    pos: usize,
    arena: &'arena Arena,
) -> (out: Parsed<
    SentenceTail1After<'arena>,
>)
    requires
        pos <= toks.len(),
    ensures
        outcome(out, pos) == spec_sentence_tail_1_after(toks@, pos as nat),
        out matches Ok((end, node)) ==> pos < end <= toks.len() && is_sentence_tail_1_after(
            node,
            toks@,
            pos as nat,
        ),
    decreases toks.len() - pos, 63nat,
{
    proof {
        lemma_sentence_tail_1_after(toks@, pos as nat);
    }
    let (at1, field_0) = parse_gihek(toks, pos, arena)?;
    let (at2, field_1) = opt(at1, parse_tag_words(toks, at1, arena))?;
    let (at3, field_2) = parse_word(toks, at2, arena, Selmaho::Ke)?;
    let (at4, field_3) = parse_frees(toks, at3, arena)?;
    let (at5, field_4) = place(arena, parse_sentence_tail_1(toks, at4, arena))?;
    let (at6, field_5) = opt(at5, parse_word(toks, at5, arena, Selmaho::Kehe))?;
    let (at7, field_6) = parse_frees(toks, at6, arena)?;
    let (at8, field_7) = parse_tail_args(toks, at7, arena)?;
    let node = SentenceTail1After(
        field_0,
        field_1,
        field_2,
        field_3,
        field_4,
        field_5,
        field_6,
        field_7,
    );
    proof {
        lemma_is_sentence_tail_1_after(node, toks@, pos as nat);
    }
    Ok((at8, node))
}

/// Parse `RelativeClauseListNext` at `pos`; see [`spec_relative_clause_list_next`].
pub fn parse_relative_clause_list_next<'arena>(
    toks: &[Token],
    pos: usize,
    arena: &'arena Arena,
) -> (out: Parsed<
    (WithFree<'arena, Word<'arena>>, RelativeClause<'arena>),
>)
    requires
        pos <= toks.len(),
    ensures
        outcome(out, pos) == spec_relative_clause_list_next(toks@, pos as nat),
        out matches Ok((end, node)) ==> pos < end <= toks.len() && is_relative_clause_list_next(
            node,
            toks@,
            pos as nat,
        ),
    decreases toks.len() - pos, 7nat,
{
    proof {
        lemma_relative_clause_list_next(toks@, pos as nat);
    }
    let (at1, item_0) = parse_word_with_free(toks, pos, arena, Selmaho::Zihe)?;
    let (at2, item_1) = parse_relative_clause(toks, at1, arena)?;
    let node = (item_0, item_1);
    proof {
        lemma_is_relative_clause_list_next(node, toks@, pos as nat);
    }
    Ok((at2, node))
}

/// Parse `RelativeClauseListNext` from `pos` on as often as it matches; see [`spec_many0_relative_clause_list_next`].
pub fn many0_relative_clause_list_next<'arena>(
    toks: &[Token],
    pos: usize,
    arena: &'arena Arena,
) -> (out: Parsed<
    &'arena [(WithFree<'arena, Word<'arena>>, RelativeClause<'arena>)],
>)
    requires
        pos <= toks.len(),
    ensures
        outcome(out, pos) == spec_many0_relative_clause_list_next(toks@, pos as nat),
        out matches Ok((end, items)) ==> pos <= end <= toks.len() && (items@.len() == 0 <==> end
            == pos) && is_row_of_relative_clause_list_next(items@, toks@, pos as nat),
    decreases toks.len() - pos, 8nat,
{
    let mut items: Vec<(WithFree<'arena, Word<'arena>>, RelativeClause<'arena>)> = Vec::new();
    let mut at: usize = pos;
    loop
        invariant
            pos <= at <= toks.len(),
            items@.len() == 0 <==> at == pos,
            at == pos + run_of_relative_clause_list_next(toks@, pos as nat, items@.len()),
            forall|i: int|
                #![trigger items@[i]]
                #![trigger run_of_relative_clause_list_next(toks@, pos as nat, i as nat)]
                0 <= i < items@.len() ==> spec_relative_clause_list_next(
                    toks@,
                    pos as nat + run_of_relative_clause_list_next(toks@, pos as nat, i as nat),
                ) is Matched && is_relative_clause_list_next(
                    items@[i],
                    toks@,
                    pos as nat + run_of_relative_clause_list_next(toks@, pos as nat, i as nat),
                ),
            shifted(
                spec_many0_relative_clause_list_next(toks@, at as nat),
                (at - pos) as nat,
            ) == spec_many0_relative_clause_list_next(
                toks@,
                pos as nat,
            ),
        decreases toks.len() - at,
    {
        proof {
            lemma_many0_relative_clause_list_next(toks@, at as nat);
        }
        match parse_relative_clause_list_next(toks, at, arena) {
            Ok((end, item)) => {
                if end == at {
                    return fail(Error::Combinator(ErrorKind::Many0), at);
                }
                items.push(item);
                at = end;
            },
            Err(failed) => {
                if failed.fatal {
                    return Err(failed);
                }
                proof {
                    lemma_is_row_of_relative_clause_list_next(items@, toks@, pos as nat);
                }
                return Ok((at, keep_all(arena, items)));
            },
        }
    }
}

/// Parse `GadriSumtiPreRelative` at `pos`; see [`spec_gadri_sumti_pre_relative`].
pub fn parse_gadri_sumti_pre_relative<'arena>(
    toks: &[Token],
    pos: usize,
    arena: &'arena Arena,
) -> (out: Parsed<
    GadriSumtiPre<'arena>,
>)
    requires
        pos <= toks.len(),
    ensures
        outcome(out, pos) == spec_gadri_sumti_pre_relative(toks@, pos as nat),
        out matches Ok((end, node)) ==> pos < end <= toks.len() && is_gadri_sumti_pre_relative(
            node,
            toks@,
            pos as nat,
        ),
    decreases toks.len() - pos, 11nat,
{
    proof {
        lemma_gadri_sumti_pre_relative(toks@, pos as nat);
    }
    let (at1, relative_clauses) = parse_relative_clauses(toks, pos, arena)?;
    let node = GadriSumtiPre::Relative { relative_clauses };
    proof {
        lemma_is_gadri_sumti_pre_relative(node, toks@, pos as nat);
    }
    Ok((at1, node))
}

/// Parse `GadriSumtiPreFullPre` at `pos`; see [`spec_gadri_sumti_pre_full_pre`].
pub fn parse_gadri_sumti_pre_full_pre<'arena>(
    toks: &[Token],
    pos: usize,
    arena: &'arena Arena,
) -> (out: Parsed<
    GadriSumtiPre<'arena>,
>)
    requires
        pos <= toks.len(),
    ensures
        outcome(out, pos) == spec_gadri_sumti_pre_full_pre(toks@, pos as nat),
        out matches Ok((end, node)) ==> pos < end <= toks.len() && is_gadri_sumti_pre_full_pre(
            node,
            toks@,
            pos as nat,
        ),
    decreases toks.len() - pos, 45nat,
{
    proof {
        lemma_gadri_sumti_pre_full_pre(toks@, pos as nat);
    }
    let (at1, pe_shorthand) = place(arena, parse_sumti(toks, pos, arena))?;
    let node = GadriSumtiPre::FullPre { pe_shorthand };
    proof {
        lemma_is_gadri_sumti_pre_full_pre(node, toks@, pos as nat);
    }
    Ok((at1, node))
}

/// Parse `GadriSumtiContents` at `pos`; see [`spec_gadri_sumti_contents`].
pub fn parse_gadri_sumti_contents<'arena>(
    toks: &[Token],
    pos: usize,
    arena: &'arena Arena,
) -> (out: Parsed<
    GadriSumtiContents<'arena>,
>)
    requires
        pos <= toks.len(),
    ensures
        outcome(out, pos) == spec_gadri_sumti_contents(toks@, pos as nat),
        out matches Ok((end, node)) ==> pos < end <= toks.len() && is_gadri_sumti_contents(
            node,
            toks@,
            pos as nat,
        ),
    decreases toks.len() - pos, 90nat,
{
    proof {
        lemma_gadri_sumti_contents(toks@, pos as nat);
        lemma_is_gadri_sumti_contents(toks@, pos as nat);
    }
    let tried = parse_gadri_sumti_contents_selbri(toks, pos, arena);
    if settled(&tried) {
        return tried;
    }
    let error = error_of(tried);
    let tried = parse_gadri_sumti_contents_sumti(toks, pos, arena);
    if settled(&tried) {
        return tried;
    }
    let error = error.or(error_of(tried));
    Err(Failed { fatal: false, error })
}

/// Parse `GadriSumtiContentsSelbri` at `pos`; see [`spec_gadri_sumti_contents_selbri`].
pub fn parse_gadri_sumti_contents_selbri<'arena>(
    toks: &[Token],
    pos: usize,
    arena: &'arena Arena,
) -> (out: Parsed<
    GadriSumtiContents<'arena>,
>)
    requires
        pos <= toks.len(),
    ensures
        outcome(out, pos) == spec_gadri_sumti_contents_selbri(toks@, pos as nat),
        out matches Ok((end, node)) ==> pos < end <= toks.len() && is_gadri_sumti_contents_selbri(
            node,
            toks@,
            pos as nat,
        ),
    decreases toks.len() - pos, 89nat,
{
    proof {
        lemma_gadri_sumti_contents_selbri(toks@, pos as nat);
    }
    let (at1, field_0) = opt(pos, parse_quantifier(toks, pos, arena))?;
    let (at2, field_1) = parse_selbri(toks, at1, arena)?;
    let (at3, field_2) = opt(at2, parse_relative_clauses(toks, at2, arena))?;
    let node = GadriSumtiContents::Selbri(field_0, field_1, field_2);
    proof {
        lemma_is_gadri_sumti_contents_selbri(node, toks@, pos as nat);
    }
    Ok((at3, node))
}

/// Parse `GadriSumtiContentsSumti` at `pos`; see [`spec_gadri_sumti_contents_sumti`].
pub fn parse_gadri_sumti_contents_sumti<'arena>(
    toks: &[Token],
    pos: usize,
    arena: &'arena Arena,
) -> (out: Parsed<
    GadriSumtiContents<'arena>,
>)
    requires
        pos <= toks.len(),
    ensures
        outcome(out, pos) == spec_gadri_sumti_contents_sumti(toks@, pos as nat),
        out matches Ok((end, node)) ==> pos < end <= toks.len() && is_gadri_sumti_contents_sumti(
            node,
            toks@,
            pos as nat,
        ),
    decreases toks.len() - pos, 45nat,
{
    proof {
        lemma_gadri_sumti_contents_sumti(toks@, pos as nat);
    }
    let (at1, field_0) = parse_quantifier(toks, pos, arena)?;
    let (at2, field_1) = parse_sumti(toks, at1, arena)?;
    let node = GadriSumtiContents::Sumti(field_0, field_1);
    proof {
        lemma_is_gadri_sumti_contents_sumti(node, toks@, pos as nat);
    }
    Ok((at2, node))
}

/// Parse `SumtiComponent1La` at `pos`; see [`spec_sumti_component_1_la`].
pub fn parse_sumti_component_1_la<'arena>(
    toks: &[Token],
    pos: usize,
    arena: &'arena Arena,
) -> (out: Parsed<
    SumtiComponent1<'arena>,
>)
    requires
        pos <= toks.len(),
    ensures
        outcome(out, pos) == spec_sumti_component_1_la(toks@, pos as nat),
        out matches Ok((end, node)) ==> pos < end <= toks.len() && is_sumti_component_1_la(
            node,
            toks@,
            pos as nat,
        ),
    decreases toks.len() - pos, 5nat,
{
    proof {
        lemma_sumti_component_1_la(toks@, pos as nat);
    }
    let (at1, field_0) = parse_la_sumti(toks, pos, arena)?;
    let node = SumtiComponent1::La(field_0);
    proof {
        lemma_is_sumti_component_1_la(node, toks@, pos as nat);
    }
    Ok((at1, node))
}

/// Parse `LaSumti` at `pos`; see [`spec_la_sumti`].
pub fn parse_la_sumti<'arena>(toks: &[Token], pos: usize, arena: &'arena Arena) -> (out: Parsed<
    LaSumti<'arena>,
>)
    requires
        pos <= toks.len(),
    ensures
        outcome(out, pos) == spec_la_sumti(toks@, pos as nat),
        out matches Ok((end, node)) ==> pos < end <= toks.len() && is_la_sumti(
            node,
            toks@,
            pos as nat,
        ),
    decreases toks.len() - pos, 4nat,
{
    proof {
        lemma_la_sumti(toks@, pos as nat);
    }
    let (at1, la) = parse_word(toks, pos, arena, Selmaho::La)?;
    let (at2, inner) = many1_word(toks, at1, arena, Selmaho::Cmevla)?;
    let node = LaSumti { la, inner };
    proof {
        lemma_is_la_sumti(node, toks@, pos as nat);
    }
    Ok((at2, node))
}

/// Parse `SumtiComponent1Lohu` at `pos`; see [`spec_sumti_component_1_lohu`].
pub fn parse_sumti_component_1_lohu<'arena>(
    toks: &[Token],
    pos: usize,
    arena: &'arena Arena,
) -> (out: Parsed<
    SumtiComponent1<'arena>,
>)
    requires
        pos <= toks.len(),
    ensures
        outcome(out, pos) == spec_sumti_component_1_lohu(toks@, pos as nat),
        out matches Ok((end, node)) ==> pos < end <= toks.len() && is_sumti_component_1_lohu(
            node,
            toks@,
            pos as nat,
        ),
    decreases toks.len() - pos, 5nat,
{
    proof {
        lemma_sumti_component_1_lohu(toks@, pos as nat);
    }
    let (at1, field_0) = parse_lohu_sumti(toks, pos, arena)?;
    let node = SumtiComponent1::Lohu(field_0);
    proof {
        lemma_is_sumti_component_1_lohu(node, toks@, pos as nat);
    }
    Ok((at1, node))
}

/// Parse `LohuSumti` at `pos`; see [`spec_lohu_sumti`].
pub fn parse_lohu_sumti<'arena>(toks: &[Token], pos: usize, arena: &'arena Arena) -> (out: Parsed<
    LohuSumti<'arena>,
>)
    requires
        pos <= toks.len(),
    ensures
        outcome(out, pos) == spec_lohu_sumti(toks@, pos as nat),
        out matches Ok((end, node)) ==> pos < end <= toks.len() && is_lohu_sumti(
            node,
            toks@,
            pos as nat,
        ),
    decreases toks.len() - pos, 4nat,
{
    proof {
        lemma_lohu_sumti(toks@, pos as nat);
    }
    let (at1, lohu) = parse_raw(toks, pos, arena, Selmaho::Lohu)?;
    let (at2, quoted) = cut(at1, parse_quoted_words(toks, at1, arena))?;
    let node = LohuSumti { lohu, inner: quoted.0, lehu: quoted.1 };
    proof {
        lemma_is_lohu_sumti(node, toks@, pos as nat);
    }
    Ok((at2, node))
}

/// Parse `SumtiComponent1Lu` at `pos`; see [`spec_sumti_component_1_lu`].
pub fn parse_sumti_component_1_lu<'arena>(
    toks: &[Token],
    pos: usize,
    arena: &'arena Arena,
) -> (out: Parsed<
    SumtiComponent1<'arena>,
>)
    requires
        pos <= toks.len(),
    ensures
        outcome(out, pos) == spec_sumti_component_1_lu(toks@, pos as nat),
        out matches Ok((end, node)) ==> pos < end <= toks.len() && is_sumti_component_1_lu(
            node,
            toks@,
            pos as nat,
        ),
    decreases toks.len() - pos, 4nat,
{
    proof {
        lemma_sumti_component_1_lu(toks@, pos as nat);
    }
    let (at1, field_0) = parse_lu_sumti(toks, pos, arena)?;
    let node = SumtiComponent1::Lu(field_0);
    proof {
        lemma_is_sumti_component_1_lu(node, toks@, pos as nat);
    }
    Ok((at1, node))
}

/// Parse `LuSumti` at `pos`; see [`spec_lu_sumti`].
pub fn parse_lu_sumti<'arena>(toks: &[Token], pos: usize, arena: &'arena Arena) -> (out: Parsed<
    LuSumti<'arena>,
>)
    requires
        pos <= toks.len(),
    ensures
        outcome(out, pos) == spec_lu_sumti(toks@, pos as nat),
        out matches Ok((end, node)) ==> pos < end <= toks.len() && is_lu_sumti(
            node,
            toks@,
            pos as nat,
        ),
    decreases toks.len() - pos, 3nat,
{
    proof {
        lemma_lu_sumti(toks@, pos as nat);
    }
    let (at1, lu) = parse_raw(toks, pos, arena, Selmaho::Lu)?;
    let (at2, text) = parse_text(toks, at1, arena)?;
    let (at3, lihu) = opt(at2, parse_word(toks, at2, arena, Selmaho::Lihu))?;
    let node = LuSumti { lu, text, lihu };
    proof {
        lemma_is_lu_sumti(node, toks@, pos as nat);
    }
    Ok((at3, node))
}

/// Parse `SumtiComponent1Modified` at `pos`; see [`spec_sumti_component_1_modified`].
pub fn parse_sumti_component_1_modified<'arena>(
    toks: &[Token],
    pos: usize,
    arena: &'arena Arena,
) -> (out: Parsed<
    SumtiComponent1<'arena>,
>)
    requires
        pos <= toks.len(),
    ensures
        outcome(out, pos) == spec_sumti_component_1_modified(toks@, pos as nat),
        out matches Ok((end, node)) ==> pos < end <= toks.len() && is_sumti_component_1_modified(
            node,
            toks@,
            pos as nat,
        ),
    decreases toks.len() - pos, 27nat,
{
    proof {
        lemma_sumti_component_1_modified(toks@, pos as nat);
    }
    let (at1, field_0) = parse_modified_sumti(toks, pos, arena)?;
    let node = SumtiComponent1::Modified(field_0);
    proof {
        lemma_is_sumti_component_1_modified(node, toks@, pos as nat);
    }
    Ok((at1, node))
}

/// Parse `ModifiedSumti` at `pos`; see [`spec_modified_sumti`].
pub fn parse_modified_sumti<'arena>(
    toks: &[Token],
    pos: usize,
    arena: &'arena Arena,
) -> (out: Parsed<
    ModifiedSumti<'arena>,
>)
    requires
        pos <= toks.len(),
    ensures
        outcome(out, pos) == spec_modified_sumti(toks@, pos as nat),
        out matches Ok((end, node)) ==> pos < end <= toks.len() && is_modified_sumti(
            node,
            toks@,
            pos as nat,
        ),
    decreases toks.len() - pos, 26nat,
{
    proof {
        lemma_modified_sumti(toks@, pos as nat);
    }
    let (at1, modifier) = parse_sumti_modifier_with_free(toks, pos, arena)?;
    let (at2, relative_clauses) = opt(at1, parse_relative_clauses(toks, at1, arena))?;
    let (at3, sumti) = parse_sumti(toks, at2, arena)?;
    let (at4, luhu) = opt(at3, parse_word(toks, at3, arena, Selmaho::Luhu))?;
    let node = ModifiedSumti { modifier, relative_clauses, sumti, luhu };
    proof {
        lemma_is_modified_sumti(node, toks@, pos as nat);
    }
    Ok((at4, node))
}

/// Parse `SumtiModifierWithFree` at `pos`; see [`spec_sumti_modifier_with_free`].
pub fn parse_sumti_modifier_with_free<'arena>(
    toks: &[Token],
    pos: usize,
    arena: &'arena Arena,
) -> (out: Parsed<
    WithFree<'arena, SumtiModifier<'arena>>,
>)
    requires
        pos <= toks.len(),
    ensures
        outcome(out, pos) == spec_sumti_modifier_with_free(toks@, pos as nat),
        out matches Ok((end, node)) ==> pos < end <= toks.len() && is_sumti_modifier_with_free(
            node,
            toks@,
            pos as nat,
        ),
    decreases toks.len() - pos, 25nat,
{
    proof {
        lemma_sumti_modifier_with_free(toks@, pos as nat);
    }
    let (at1, inner) = parse_sumti_modifier(toks, pos, arena)?;
    let (at2, frees) = parse_frees(toks, at1, arena)?;
    let node = WithFree { inner, frees };
    proof {
        lemma_is_sumti_modifier_with_free(node, toks@, pos as nat);
    }
    Ok((at2, node))
}

/// Parse `SumtiComponent1LerfuString` at `pos`; see [`spec_sumti_component_1_lerfu_string`].
pub fn parse_sumti_component_1_lerfu_string<'arena>(
    toks: &[Token],
    pos: usize,
    arena: &'arena Arena,
) -> (out: Parsed<
    SumtiComponent1<'arena>,
>)
    requires
        pos <= toks.len(),
    ensures
        outcome(out, pos) == spec_sumti_component_1_lerfu_string(toks@, pos as nat),
        out matches Ok((end, node)) ==> pos < end <= toks.len() && is_sumti_component_1_lerfu_string(
            node,
            toks@,
            pos as nat,
        ),
    decreases toks.len() - pos, 17nat,
{
    proof {
        lemma_sumti_component_1_lerfu_string(toks@, pos as nat);
    }
    let (at1, field_0) = parse_lerfu_string(toks, pos, arena)?;
    not(at1, parse_word(toks, at1, arena, Selmaho::Moi))?;
    let (at2, field_1) = opt(at1, parse_word(toks, at1, arena, Selmaho::Boi))?;
    let node = SumtiComponent1::LerfuString(field_0, field_1);
    proof {
        lemma_is_sumti_component_1_lerfu_string(node, toks@, pos as nat);
    }
    Ok((at2, node))
}

/// Parse `SumtiComponent1Zo` at `pos`; see [`spec_sumti_component_1_zo`].
pub fn parse_sumti_component_1_zo<'arena>(
    toks: &[Token],
    pos: usize,
    arena: &'arena Arena,
) -> (out: Parsed<
    SumtiComponent1<'arena>,
>)
    requires
        pos <= toks.len(),
    ensures
        outcome(out, pos) == spec_sumti_component_1_zo(toks@, pos as nat),
        out matches Ok((end, node)) ==> pos < end <= toks.len() && is_sumti_component_1_zo(
            node,
            toks@,
            pos as nat,
        ),
    decreases toks.len() - pos, 2nat,
{
    proof {
        lemma_sumti_component_1_zo(toks@, pos as nat);
    }
    let (at1, field_0) = parse_zo_sumti(toks, pos, arena)?;
    let node = SumtiComponent1::Zo(field_0);
    proof {
        lemma_is_sumti_component_1_zo(node, toks@, pos as nat);
    }
    Ok((at1, node))
}

/// Parse `ZoSumti` at `pos`; see [`spec_zo_sumti`].
pub fn parse_zo_sumti<'arena>(toks: &[Token], pos: usize, arena: &'arena Arena) -> (out: Parsed<
    ZoSumti,
>)
    requires
        pos <= toks.len(),
    ensures
        outcome(out, pos) == spec_zo_sumti(toks@, pos as nat),
        out matches Ok((end, node)) ==> pos < end <= toks.len() && is_zo_sumti(
            node,
            toks@,
            pos as nat,
        ),
    decreases toks.len() - pos, 1nat,
{
    proof {
        lemma_zo_sumti(toks@, pos as nat);
    }
    let (at1, zo) = parse_raw(toks, pos, arena, Selmaho::Zo)?;
    let (at2, quoted) = token(toks, at1)?;
    let node = ZoSumti { zo, quoted };
    proof {
        lemma_is_zo_sumti(node, toks@, pos as nat);
    }
    Ok((at2, node))
}

/// Parse `SumtiComponent1Zoi` at `pos`; see [`spec_sumti_component_1_zoi`].
pub fn parse_sumti_component_1_zoi<'arena>(
    toks: &[Token],
    pos: usize,
    arena: &'arena Arena,
) -> (out: Parsed<
    SumtiComponent1<'arena>,
>)
    requires
        pos <= toks.len(),
    ensures
        outcome(out, pos) == spec_sumti_component_1_zoi(toks@, pos as nat),
        out matches Ok((end, node)) ==> pos < end <= toks.len() && is_sumti_component_1_zoi(
            node,
            toks@,
            pos as nat,
        ),
    decreases toks.len() - pos, 2nat,
{
    proof {
        lemma_sumti_component_1_zoi(toks@, pos as nat);
    }
    let (at1, field_0) = parse_zoi_sumti(toks, pos, arena)?;
    let node = SumtiComponent1::Zoi(field_0);
    proof {
        lemma_is_sumti_component_1_zoi(node, toks@, pos as nat);
    }
    Ok((at1, node))
}

/// Parse `ZoiSumti` at `pos`; see [`spec_zoi_sumti`].
pub fn parse_zoi_sumti<'arena>(toks: &[Token], pos: usize, arena: &'arena Arena) -> (out: Parsed<
    ZoiSumti,
>)
    requires
        pos <= toks.len(),
    ensures
        outcome(out, pos) == spec_zoi_sumti(toks@, pos as nat),
        out matches Ok((end, node)) ==> pos < end <= toks.len() && is_zoi_sumti(
            node,
            toks@,
            pos as nat,
        ),
    decreases toks.len() - pos, 1nat,
{
    proof {
        lemma_zoi_sumti(toks@, pos as nat);
    }
    let (at1, zoi) = parse_raw(toks, pos, arena, Selmaho::Zoi)?;
    let (at2, starting_delimiter) = parse_zoi_delimiter(toks, at1, arena)?;
    let (at3, text) = parse_zoi_text(toks, at2, arena)?;
    let (at4, ending_delimiter) = parse_zoi_delimiter(toks, at3, arena)?;
    let node = ZoiSumti { zoi, starting_delimiter, text, ending_delimiter };
    proof {
        lemma_is_zoi_sumti(node, toks@, pos as nat);
    }
    Ok((at4, node))
}

/// Parse `ZoiDelimiter` at `pos`; see [`spec_zoi_delimiter`].
pub fn parse_zoi_delimiter<'arena>(
    toks: &[Token],
    pos: usize,
    arena: &'arena Arena,
) -> (out: Parsed<
    ZoiDelimiter,
>)
    requires
        pos <= toks.len(),
    ensures
        outcome(out, pos) == spec_zoi_delimiter(toks@, pos as nat),
        out matches Ok((end, node)) ==> pos < end <= toks.len() && is_zoi_delimiter(
            node,
            toks@,
            pos as nat,
        ),
    decreases toks.len() - pos, 0nat,
{
    proof {
        lemma_zoi_delimiter(toks@, pos as nat);
    }
    let (at1, field_0) = span(toks, pos)?;
    let node = ZoiDelimiter(field_0);
    proof {
        lemma_is_zoi_delimiter(node, toks@, pos as nat);
    }
    Ok((at1, node))
}

/// Parse `ZoiText` at `pos`; see [`spec_zoi_text`].
pub fn parse_zoi_text<'arena>(toks: &[Token], pos: usize, arena: &'arena Arena) -> (out: Parsed<
    ZoiText,
>)
    requires
        pos <= toks.len(),
    ensures
        outcome(out, pos) == spec_zoi_text(toks@, pos as nat),
        out matches Ok((end, node)) ==> pos < end <= toks.len() && is_zoi_text(
            node,
            toks@,
            pos as nat,
        ),
    decreases toks.len() - pos, 0nat,
{
    proof {
        lemma_zoi_text(toks@, pos as nat);
    }
    let (at1, field_0) = span(toks, pos)?;
    let node = ZoiText(field_0);
    proof {
        lemma_is_zoi_text(node, toks@, pos as nat);
    }
    Ok((at1, node))
}

/// Parse `SumtiComponent1Li` at `pos`; see [`spec_sumti_component_1_li`].
pub fn parse_sumti_component_1_li<'arena>(
    toks: &[Token],
    pos: usize,
    arena: &'arena Arena,
) -> (out: Parsed<
    SumtiComponent1<'arena>,
>)
    requires
        pos <= toks.len(),
    ensures
        outcome(out, pos) == spec_sumti_component_1_li(toks@, pos as nat),
        out matches Ok((end, node)) ==> pos < end <= toks.len() && is_sumti_component_1_li(
            node,
            toks@,
            pos as nat,
        ),
    decreases toks.len() - pos, 4nat,
{
    proof {
        lemma_sumti_component_1_li(toks@, pos as nat);
    }
    let (at1, field_0) = parse_word_with_free(toks, pos, arena, Selmaho::Li)?;
    let (at2, field_1) = parse_expression(toks, at1, arena)?;
    let (at3, field_2) = opt(at2, parse_word(toks, at2, arena, Selmaho::Loho))?;
    let node = SumtiComponent1::Li(field_0, field_1, field_2);
    proof {
        lemma_is_sumti_component_1_li(node, toks@, pos as nat);
    }
    Ok((at3, node))
}

/// Parse `Sumti4SelbriShorthand` at `pos`; see [`spec_sumti_4_selbri_shorthand`].
pub fn parse_sumti_4_selbri_shorthand<'arena>(
    toks: &[Token],
    pos: usize,
    arena: &'arena Arena,
) -> (out: Parsed<
    Sumti4<'arena>,
>)
    requires
        pos <= toks.len(),
    ensures
        outcome(out, pos) == spec_sumti_4_selbri_shorthand(toks@, pos as nat),
        out matches Ok((end, node)) ==> pos < end <= toks.len() && is_sumti_4_selbri_shorthand(
            node,
            toks@,
            pos as nat,
        ),
    decreases toks.len() - pos, 27nat,
{
    proof {
        lemma_sumti_4_selbri_shorthand(toks@, pos as nat);
    }
    let (at1, quantifier) = parse_quantifier(toks, pos, arena)?;
    let (at2, inner) = parse_selbri(toks, at1, arena)?;
    let (at3, ku) = opt(at2, parse_word(toks, at2, arena, Selmaho::Ku))?;
    let (at4, frees) = parse_frees(toks, at3, arena)?;
    let (at5, relative_clauses) = opt(at4, parse_relative_clauses(toks, at4, arena))?;
    let node = Sumti4::SelbriShorthand { quantifier, inner, ku, frees, relative_clauses };
    proof {
        lemma_is_sumti_4_selbri_shorthand(node, toks@, pos as nat);
    }
    Ok((at5, node))
}

/// Parse `Sumti2Next` at `pos`; see [`spec_sumti_2_next`].
pub fn parse_sumti_2_next<'arena>(
    toks: &[Token],
    pos: usize,
    arena: &'arena Arena,
) -> (out: Parsed<
    ((JoikEk<'arena>, Option<TagWords<'arena>>, Word<'arena>, Frees<'arena>), Sumti3<'arena>),
>)
    requires
        pos <= toks.len(),
    ensures
        outcome(out, pos) == spec_sumti_2_next(toks@, pos as nat),
        out matches Ok((end, node)) ==> pos < end <= toks.len() && is_sumti_2_next(
            node,
            toks@,
            pos as nat,
        ),
    decreases toks.len() - pos, 37nat,
{
    proof {
        lemma_sumti_2_next(toks@, pos as nat);
    }
    let (at1, item_0) = parse_joik_ek_bo(toks, pos, arena)?;
    let (at2, item_1) = parse_sumti_3(toks, at1, arena)?;
    let node = (item_0, item_1);
    proof {
        lemma_is_sumti_2_next(node, toks@, pos as nat);
    }
    Ok((at2, node))
}

/// Parse `Sumti2Next` from `pos` on as often as it matches; see [`spec_many0_sumti_2_next`].
pub fn many0_sumti_2_next<'arena>(
    toks: &[Token],
    pos: usize,
    arena: &'arena Arena,
) -> (out: Parsed<
    &'arena [((JoikEk<'arena>, Option<TagWords<'arena>>, Word<'arena>, Frees<'arena>), Sumti3<'arena>)],
>)
    requires
        pos <= toks.len(),
    ensures
        outcome(out, pos) == spec_many0_sumti_2_next(toks@, pos as nat),
        out matches Ok((end, items)) ==> pos <= end <= toks.len() && (items@.len() == 0 <==> end
            == pos) && is_row_of_sumti_2_next(items@, toks@, pos as nat),
    decreases toks.len() - pos, 38nat,
{
    let mut items: Vec<((JoikEk<'arena>, Option<TagWords<'arena>>, Word<'arena>, Frees<'arena>), Sumti3<'arena>)> = Vec::new();
    let mut at: usize = pos;
    loop
        invariant
            pos <= at <= toks.len(),
            items@.len() == 0 <==> at == pos,
            at == pos + run_of_sumti_2_next(toks@, pos as nat, items@.len()),
            forall|i: int|
                #![trigger items@[i]]
                #![trigger run_of_sumti_2_next(toks@, pos as nat, i as nat)]
                0 <= i < items@.len() ==> spec_sumti_2_next(
                    toks@,
                    pos as nat + run_of_sumti_2_next(toks@, pos as nat, i as nat),
                ) is Matched && is_sumti_2_next(
                    items@[i],
                    toks@,
                    pos as nat + run_of_sumti_2_next(toks@, pos as nat, i as nat),
                ),
            shifted(
                spec_many0_sumti_2_next(toks@, at as nat),
                (at - pos) as nat,
            ) == spec_many0_sumti_2_next(
                toks@,
                pos as nat,
            ),
        decreases toks.len() - at,
    {
        proof {
            lemma_many0_sumti_2_next(toks@, at as nat);
        }
        match parse_sumti_2_next(toks, at, arena) {
            Ok((end, item)) => {
                if end == at {
                    return fail(Error::Combinator(ErrorKind::Many0), at);
                }
                items.push(item);
                at = end;
            },
            Err(failed) => {
                if failed.fatal {
                    return Err(failed);
                }
                proof {
                    lemma_is_row_of_sumti_2_next(items@, toks@, pos as nat);
                }
                return Ok((at, keep_all(arena, items)));
            },
        }
    }
}

/// Parse `JoikEkBo` at `pos`; see [`spec_joik_ek_bo`].
pub fn parse_joik_ek_bo<'arena>(toks: &[Token], pos: usize, arena: &'arena Arena) -> (out: Parsed<
    (JoikEk<'arena>, Option<TagWords<'arena>>, Word<'arena>, Frees<'arena>),
>)
    requires
        pos <= toks.len(),
    ensures
        outcome(out, pos) == spec_joik_ek_bo(toks@, pos as nat),
        out matches Ok((end, node)) ==> pos < end <= toks.len() && is_joik_ek_bo(
            node,
            toks@,
            pos as nat,
        ),
    decreases toks.len() - pos, 32nat,
{
    proof {
        lemma_joik_ek_bo(toks@, pos as nat);
    }
    let (at1, item_0) = parse_joik_ek(toks, pos, arena)?;
    let (at2, item_1) = opt(at1, parse_tag_words(toks, at1, arena))?;
    let (at3, item_2) = parse_word(toks, at2, arena, Selmaho::Bo)?;
    let (at4, item_3) = parse_frees(toks, at3, arena)?;
    let node = (item_0, item_1, item_2, item_3);
    proof {
        lemma_is_joik_ek_bo(node, toks@, pos as nat);
    }
    Ok((at4, node))
}

/// Parse `SumtiConnectedPost` at `pos`; see [`spec_sumti_connected_post`].
pub fn parse_sumti_connected_post<'arena>(
    toks: &[Token],
    pos: usize,
    arena: &'arena Arena,
) -> (out: Parsed<
    SumtiLikeConnectedPost<'arena, Sumti2<'arena>, Sumti<'arena>>,
>)
    requires
        pos <= toks.len(),
    ensures
        outcome(out, pos) == spec_sumti_connected_post(toks@, pos as nat),
        out matches Ok((end, node)) ==> pos < end <= toks.len() && is_sumti_connected_post(
            node,
            toks@,
            pos as nat,
        ),
    decreases toks.len() - pos, 41nat,
{
    proof {
        lemma_sumti_connected_post(toks@, pos as nat);
        lemma_is_sumti_connected_post(toks@, pos as nat);
    }
    let tried = parse_sumti_connected_post_normal(toks, pos, arena);
    if settled(&tried) {
        return tried;
    }
    let error = error_of(tried);
    let tried = parse_sumti_connected_post_grouped(toks, pos, arena);
    if settled(&tried) {
        return tried;
    }
    let error = error.or(error_of(tried));
    Err(Failed { fatal: false, error })
}

/// Parse `SumtiConnectedPost` from `pos` on as often as it matches; see [`spec_many0_sumti_connected_post`].
pub fn many0_sumti_connected_post<'arena>(
    toks: &[Token],
    pos: usize,
    arena: &'arena Arena,
) -> (out: Parsed<
    &'arena [SumtiLikeConnectedPost<'arena, Sumti2<'arena>, Sumti<'arena>>],
>)
    requires
        pos <= toks.len(),
    ensures
        outcome(out, pos) == spec_many0_sumti_connected_post(toks@, pos as nat),
        out matches Ok((end, items)) ==> pos <= end <= toks.len() && (items@.len() == 0 <==> end
            == pos) && is_row_of_sumti_connected_post(items@, toks@, pos as nat),
    decreases toks.len() - pos, 42nat,
{
    let mut items: Vec<SumtiLikeConnectedPost<'arena, Sumti2<'arena>, Sumti<'arena>>> = Vec::new();
    let mut at: usize = pos;
    loop
        invariant
            pos <= at <= toks.len(),
            items@.len() == 0 <==> at == pos,
            at == pos + run_of_sumti_connected_post(toks@, pos as nat, items@.len()),
            forall|i: int|
                #![trigger items@[i]]
                #![trigger run_of_sumti_connected_post(toks@, pos as nat, i as nat)]
                0 <= i < items@.len() ==> spec_sumti_connected_post(
                    toks@,
                    pos as nat + run_of_sumti_connected_post(toks@, pos as nat, i as nat),
                ) is Matched && is_sumti_connected_post(
                    items@[i],
                    toks@,
                    pos as nat + run_of_sumti_connected_post(toks@, pos as nat, i as nat),
                ),
            shifted(
                spec_many0_sumti_connected_post(toks@, at as nat),
                (at - pos) as nat,
            ) == spec_many0_sumti_connected_post(
                toks@,
                pos as nat,
            ),
        decreases toks.len() - at,
    {
        proof {
            lemma_many0_sumti_connected_post(toks@, at as nat);
        }
        match parse_sumti_connected_post(toks, at, arena) {
            Ok((end, item)) => {
                if end == at {
                    return fail(Error::Combinator(ErrorKind::Many0), at);
                }
                items.push(item);
                at = end;
            },
            Err(failed) => {
                if failed.fatal {
                    return Err(failed);
                }
                proof {
                    lemma_is_row_of_sumti_connected_post(items@, toks@, pos as nat);
                }
                return Ok((at, keep_all(arena, items)));
            },
        }
    }
}

/// Parse `SumtiConnectedPostNormal` at `pos`; see [`spec_sumti_connected_post_normal`].
pub fn parse_sumti_connected_post_normal<'arena>(
    toks: &[Token],
    pos: usize,
    arena: &'arena Arena,
) -> (out: Parsed<
    SumtiLikeConnectedPost<'arena, Sumti2<'arena>, Sumti<'arena>>,
>)
    requires
        pos <= toks.len(),
    ensures
        outcome(out, pos) == spec_sumti_connected_post_normal(toks@, pos as nat),
        out matches Ok((end, node)) ==> pos < end <= toks.len() && is_sumti_connected_post_normal(
            node,
            toks@,
            pos as nat,
        ),
    decreases toks.len() - pos, 40nat,
{
    proof {
        lemma_sumti_connected_post_normal(toks@, pos as nat);
    }
    let (at1, field_0) = parse_joik_ek(toks, pos, arena)?;
    let (at2, field_1) = parse_sumti_2(toks, at1, arena)?;
    let node = SumtiLikeConnectedPost::Normal(field_0, field_1);
    proof {
        lemma_is_sumti_connected_post_normal(node, toks@, pos as nat);
    }
    Ok((at2, node))
}

/// Parse `SumtiConnectedPostGrouped` at `pos`; see [`spec_sumti_connected_post_grouped`].
pub fn parse_sumti_connected_post_grouped<'arena>(
    toks: &[Token],
    pos: usize,
    arena: &'arena Arena,
) -> (out: Parsed<
    SumtiLikeConnectedPost<'arena, Sumti2<'arena>, Sumti<'arena>>,
>)
    requires
        pos <= toks.len(),
    ensures
        outcome(out, pos) == spec_sumti_connected_post_grouped(toks@, pos as nat),
        out matches Ok((end, node)) ==> pos < end <= toks.len() && is_sumti_connected_post_grouped(
            node,
            toks@,
            pos as nat,
        ),
    decreases toks.len() - pos, 32nat,
{
    proof {
        lemma_sumti_connected_post_grouped(toks@, pos as nat);
    }
    let (at1, field_0) = parse_joik_ek(toks, pos, arena)?;
    let (at2, field_1) = opt(at1, parse_tag_words(toks, at1, arena))?;
    let (at3, field_2) = parse_word_with_free(toks, at2, arena, Selmaho::Ke)?;
    let (at4, field_3) = parse_sumti(toks, at3, arena)?;
    let (at5, field_4) = opt(at4, parse_word(toks, at4, arena, Selmaho::Kehe))?;
    let (at6, field_5) = parse_frees(toks, at5, arena)?;
    let node = SumtiLikeConnectedPost::Grouped(
        field_0,
        field_1,
        field_2,
        field_3,
        field_4,
        field_5,
    );
    proof {
        lemma_is_sumti_connected_post_grouped(node, toks@, pos as nat);
    }
    Ok((at6, node))
}

/// Parse `VuhoRelative` at `pos`; see [`spec_vuho_relative`].
pub fn parse_vuho_relative<'arena>(
    toks: &[Token],
    pos: usize,
    arena: &'arena Arena,
) -> (out: Parsed<
    VuhoRelative<'arena>,
>)
    requires
        pos <= toks.len(),
    ensures
        outcome(out, pos) == spec_vuho_relative(toks@, pos as nat),
        out matches Ok((end, node)) ==> pos < end <= toks.len() && is_vuho_relative(
            node,
            toks@,
            pos as nat,
        ),
    decreases toks.len() - pos, 11nat,
{
    proof {
        lemma_vuho_relative(toks@, pos as nat);
    }
    let (at1, vuho) = parse_word_with_free(toks, pos, arena, Selmaho::Vuho)?;
    let (at2, relative_clauses) = parse_relative_clauses(toks, at1, arena)?;
    let node = VuhoRelative { vuho, relative_clauses };
    proof {
        lemma_is_vuho_relative(node, toks@, pos as nat);
    }
    Ok((at2, node))
}

/// Parse `TanruUnit2Nu` at `pos`; see [`spec_tanru_unit_2_nu`].
pub fn parse_tanru_unit_2_nu<'arena>(
    toks: &[Token],
    pos: usize,
    arena: &'arena Arena,
) -> (out: Parsed<
    TanruUnit2<'arena>,
>)
    requires
        pos <= toks.len(),
    ensures
        outcome(out, pos) == spec_tanru_unit_2_nu(toks@, pos as nat),
        out matches Ok((end, node)) ==> pos < end <= toks.len() && is_tanru_unit_2_nu(
            node,
            toks@,
            pos as nat,
        ),
    decreases toks.len() - pos, 29nat,
{
    proof {
        lemma_tanru_unit_2_nu(toks@, pos as nat);
    }
    let (at1, nus) = parse_nu_word_list(toks, pos, arena)?;
    let (at2, inner) = place(arena, parse_subsentence(toks, at1, arena))?;
    let (at3, kei) = opt(at2, parse_word(toks, at2, arena, Selmaho::Kei))?;
    let (at4, frees) = parse_frees(toks, at3, arena)?;
    let node = TanruUnit2::Nu { nus, inner, kei, frees };
    proof {
        lemma_is_tanru_unit_2_nu(node, toks@, pos as nat);
    }
    Ok((at4, node))
}

/// Parse `NuWordList` at `pos`; see [`spec_nu_word_list`].
pub fn parse_nu_word_list<'arena>(
    toks: &[Token],
    pos: usize,
    arena: &'arena Arena,
) -> (out: Parsed<
    Separated<'arena, (Word<'arena>, Option<Word<'arena>>, Frees<'arena>), JoikJek<'arena>>,
>)
    requires
        pos <= toks.len(),
    ensures
        outcome(out, pos) == spec_nu_word_list(toks@, pos as nat),
        out matches Ok((end, node)) ==> pos < end <= toks.len() && is_nu_word_list(
            node,
            toks@,
            pos as nat,
        ),
    decreases toks.len() - pos, 28nat,
{
    proof {
        lemma_nu_word_list(toks@, pos as nat);
    }
    let (at1, first) = place(arena, parse_nu_word(toks, pos, arena))?;
    let (at2, rest) = many0_nu_word_list_next(toks, at1, arena)?;
    let node = Separated { first, rest };
    proof {
        lemma_is_nu_word_list(node, toks@, pos as nat);
    }
    Ok((at2, node))
}

/// Parse `NuWord` at `pos`; see [`spec_nu_word`].
pub fn parse_nu_word<'arena>(toks: &[Token], pos: usize, arena: &'arena Arena) -> (out: Parsed<
    (Word<'arena>, Option<Word<'arena>>, Frees<'arena>),
>)
    requires
        pos <= toks.len(),
    ensures
        outcome(out, pos) == spec_nu_word(toks@, pos as nat),
        out matches Ok((end, node)) ==> pos < end <= toks.len() && is_nu_word(
            node,
            toks@,
            pos as nat,
        ),
    decreases toks.len() - pos, 25nat,
{
    proof {
        lemma_nu_word(toks@, pos as nat);
    }
    let (at1, item_0) = parse_word(toks, pos, arena, Selmaho::Nu)?;
    let (at2, item_1) = opt(at1, parse_word(toks, at1, arena, Selmaho::Nai))?;
    let (at3, item_2) = parse_frees(toks, at2, arena)?;
    let node = (item_0, item_1, item_2);
    proof {
        lemma_is_nu_word(node, toks@, pos as nat);
    }
    Ok((at3, node))
}

/// Parse `NuWordListNext` at `pos`; see [`spec_nu_word_list_next`].
pub fn parse_nu_word_list_next<'arena>(
    toks: &[Token],
    pos: usize,
    arena: &'arena Arena,
) -> (out: Parsed<
    (JoikJek<'arena>, (Word<'arena>, Option<Word<'arena>>, Frees<'arena>)),
>)
    requires
        pos <= toks.len(),
    ensures
        outcome(out, pos) == spec_nu_word_list_next(toks@, pos as nat),
        out matches Ok((end, node)) ==> pos < end <= toks.len() && is_nu_word_list_next(
            node,
            toks@,
            pos as nat,
        ),
    decreases toks.len() - pos, 26nat,
{
    proof {
        lemma_nu_word_list_next(toks@, pos as nat);
    }
    let (at1, item_0) = parse_joik_jek(toks, pos, arena)?;
    let (at2, item_1) = parse_nu_word(toks, at1, arena)?;
    let node = (item_0, item_1);
    proof {
        lemma_is_nu_word_list_next(node, toks@, pos as nat);
    }
    Ok((at2, node))
}

/// Parse `NuWordListNext` from `pos` on as often as it matches; see [`spec_many0_nu_word_list_next`].
pub fn many0_nu_word_list_next<'arena>(
    toks: &[Token],
    pos: usize,
    arena: &'arena Arena,
) -> (out: Parsed<
    &'arena [(JoikJek<'arena>, (Word<'arena>, Option<Word<'arena>>, Frees<'arena>))],
>)
    requires
        pos <= toks.len(),
    ensures
        outcome(out, pos) == spec_many0_nu_word_list_next(toks@, pos as nat),
        out matches Ok((end, items)) ==> pos <= end <= toks.len() && (items@.len() == 0 <==> end
            == pos) && is_row_of_nu_word_list_next(items@, toks@, pos as nat),
    decreases toks.len() - pos, 27nat,
{
    let mut items: Vec<(JoikJek<'arena>, (Word<'arena>, Option<Word<'arena>>, Frees<'arena>))> = Vec::new();
    let mut at: usize = pos;
    loop
        invariant
            pos <= at <= toks.len(),
            items@.len() == 0 <==> at == pos,
            at == pos + run_of_nu_word_list_next(toks@, pos as nat, items@.len()),
            forall|i: int|
                #![trigger items@[i]]
                #![trigger run_of_nu_word_list_next(toks@, pos as nat, i as nat)]
                0 <= i < items@.len() ==> spec_nu_word_list_next(
                    toks@,
                    pos as nat + run_of_nu_word_list_next(toks@, pos as nat, i as nat),
                ) is Matched && is_nu_word_list_next(
                    items@[i],
                    toks@,
                    pos as nat + run_of_nu_word_list_next(toks@, pos as nat, i as nat),
                ),
            shifted(
                spec_many0_nu_word_list_next(toks@, at as nat),
                (at - pos) as nat,
            ) == spec_many0_nu_word_list_next(
                toks@,
                pos as nat,
            ),
        decreases toks.len() - at,
    {
        proof {
            lemma_many0_nu_word_list_next(toks@, at as nat);
        }
        match parse_nu_word_list_next(toks, at, arena) {
            Ok((end, item)) => {
                if end == at {
                    return fail(Error::Combinator(ErrorKind::Many0), at);
                }
                items.push(item);
                at = end;
            },
            Err(failed) => {
                if failed.fatal {
                    return Err(failed);
                }
                proof {
                    lemma_is_row_of_nu_word_list_next(items@, toks@, pos as nat);
                }
                return Ok((at, keep_all(arena, items)));
            },
        }
    }
}

/// Parse `TanruUnit2Nuha` at `pos`; see [`spec_tanru_unit_2_nuha`].
pub fn parse_tanru_unit_2_nuha<'arena>(
    toks: &[Token],
    pos: usize,
    arena: &'arena Arena,
) -> (out: Parsed<
    TanruUnit2<'arena>,
>)
    requires
        pos <= toks.len(),
    ensures
        outcome(out, pos) == spec_tanru_unit_2_nuha(toks@, pos as nat),
        out matches Ok((end, node)) ==> pos < end <= toks.len() && is_tanru_unit_2_nuha(
            node,
            toks@,
            pos as nat,
        ),
    decreases toks.len() - pos, 42nat,
{
    proof {
        lemma_tanru_unit_2_nuha(toks@, pos as nat);
    }
    let (at1, nuha) = parse_word_with_free(toks, pos, arena, Selmaho::Nuha)?;
    let (at2, operator) = parse_operator(toks, at1, arena)?;
    let node = TanruUnit2::Nuha { nuha, operator };
    proof {
        lemma_is_tanru_unit_2_nuha(node, toks@, pos as nat);
    }
    Ok((at2, node))
}

/// Parse `BoundArguments` at `pos`; see [`spec_bound_arguments`].
pub fn parse_bound_arguments<'arena>(
    toks: &[Token],
    pos: usize,
    arena: &'arena Arena,
) -> (out: Parsed<
    BoundArguments<'arena>,
>)
    requires
        pos <= toks.len(),
    ensures
        outcome(out, pos) == spec_bound_arguments(toks@, pos as nat),
        out matches Ok((end, node)) ==> pos < end <= toks.len() && is_bound_arguments(
            node,
            toks@,
            pos as nat,
        ),
    decreases toks.len() - pos, 63nat,
{
    proof {
        lemma_bound_arguments(toks@, pos as nat);
    }
    let (at1, be) = parse_word_with_free(toks, pos, arena, Selmaho::Be)?;
    let (at2, args) = parse_arg_list(toks, at1, arena)?;
    let (at3, beho) = opt(at2, parse_word(toks, at2, arena, Selmaho::Beho))?;
    let (at4, frees) = parse_frees(toks, at3, arena)?;
    let node = BoundArguments { be, args, beho, frees };
    proof {
        lemma_is_bound_arguments(node, toks@, pos as nat);
    }
    Ok((at4, node))
}

/// Parse `ArgList` at `pos`; see [`spec_arg_list`].
pub fn parse_arg_list<'arena>(toks: &[Token], pos: usize, arena: &'arena Arena) -> (out: Parsed<
    Separated<'arena, Arg<'arena>, WithFree<'arena, Word<'arena>>>,
>)
    requires
        pos <= toks.len(),
    ensures
        outcome(out, pos) == spec_arg_list(toks@, pos as nat),
        out matches Ok((end, node)) ==> pos < end <= toks.len() && is_arg_list(
            node,
            toks@,
            pos as nat,
        ),
    decreases toks.len() - pos, 62nat,
{
    proof {
        lemma_arg_list(toks@, pos as nat);
    }
    let (at1, first) = place(arena, parse_arg(toks, pos, arena))?;
    let (at2, rest) = many0_arg_list_next(toks, at1, arena)?;
    let node = Separated { first, rest };
    proof {
        lemma_is_arg_list(node, toks@, pos as nat);
    }
    Ok((at2, node))
}

/// Parse `ArgListNext` at `pos`; see [`spec_arg_list_next`].
pub fn parse_arg_list_next<'arena>(
    toks: &[Token],
    pos: usize,
    arena: &'arena Arena,
) -> (out: Parsed<
    (WithFree<'arena, Word<'arena>>, Arg<'arena>),
>)
    requires
        pos <= toks.len(),
    ensures
        outcome(out, pos) == spec_arg_list_next(toks@, pos as nat),
        out matches Ok((end, node)) ==> pos < end <= toks.len() && is_arg_list_next(
            node,
            toks@,
            pos as nat,
        ),
    decreases toks.len() - pos, 60nat,
{
    proof {
        lemma_arg_list_next(toks@, pos as nat);
    }
    let (at1, item_0) = parse_word_with_free(toks, pos, arena, Selmaho::Bei)?;
    let (at2, item_1) = parse_arg(toks, at1, arena)?;
    let node = (item_0, item_1);
    proof {
        lemma_is_arg_list_next(node, toks@, pos as nat);
    }
    Ok((at2, node))
}

/// Parse `ArgListNext` from `pos` on as often as it matches; see [`spec_many0_arg_list_next`].
pub fn many0_arg_list_next<'arena>(
    toks: &[Token],
    pos: usize,
    arena: &'arena Arena,
) -> (out: Parsed<
    &'arena [(WithFree<'arena, Word<'arena>>, Arg<'arena>)],
>)
    requires
        pos <= toks.len(),
    ensures
        outcome(out, pos) == spec_many0_arg_list_next(toks@, pos as nat),
        out matches Ok((end, items)) ==> pos <= end <= toks.len() && (items@.len() == 0 <==> end
            == pos) && is_row_of_arg_list_next(items@, toks@, pos as nat),
    decreases toks.len() - pos, 61nat,
{
    let mut items: Vec<(WithFree<'arena, Word<'arena>>, Arg<'arena>)> = Vec::new();
    let mut at: usize = pos;
    loop
        invariant
            pos <= at <= toks.len(),
            items@.len() == 0 <==> at == pos,
            at == pos + run_of_arg_list_next(toks@, pos as nat, items@.len()),
            forall|i: int|
                #![trigger items@[i]]
                #![trigger run_of_arg_list_next(toks@, pos as nat, i as nat)]
                0 <= i < items@.len() ==> spec_arg_list_next(
                    toks@,
                    pos as nat + run_of_arg_list_next(toks@, pos as nat, i as nat),
                ) is Matched && is_arg_list_next(
                    items@[i],
                    toks@,
                    pos as nat + run_of_arg_list_next(toks@, pos as nat, i as nat),
                ),
            shifted(
                spec_many0_arg_list_next(toks@, at as nat),
                (at - pos) as nat,
            ) == spec_many0_arg_list_next(
                toks@,
                pos as nat,
            ),
        decreases toks.len() - at,
    {
        proof {
            lemma_many0_arg_list_next(toks@, at as nat);
        }
        match parse_arg_list_next(toks, at, arena) {
            Ok((end, item)) => {
                if end == at {
                    return fail(Error::Combinator(ErrorKind::Many0), at);
                }
                items.push(item);
                at = end;
            },
            Err(failed) => {
                if failed.fatal {
                    return Err(failed);
                }
                proof {
                    lemma_is_row_of_arg_list_next(items@, toks@, pos as nat);
                }
                return Ok((at, keep_all(arena, items)));
            },
        }
    }
}

/// Parse `TanruUnit1ListNext` at `pos`; see [`spec_tanru_unit_1_list_next`].
pub fn parse_tanru_unit_1_list_next<'arena>(
    toks: &[Token],
    pos: usize,
    arena: &'arena Arena,
) -> (out: Parsed<
    (WithFree<'arena, Word<'arena>>, TanruUnit1<'arena>),
>)
    requires
        pos <= toks.len(),
    ensures
        outcome(out, pos) == spec_tanru_unit_1_list_next(toks@, pos as nat),
        out matches Ok((end, node)) ==> pos < end <= toks.len() && is_tanru_unit_1_list_next(
            node,
            toks@,
            pos as nat,
        ),
    decreases toks.len() - pos, 65nat,
{
    proof {
        lemma_tanru_unit_1_list_next(toks@, pos as nat);
    }
    let (at1, item_0) = parse_word_with_free(toks, pos, arena, Selmaho::Cei)?;
    let (at2, item_1) = parse_tanru_unit_1(toks, at1, arena)?;
    let node = (item_0, item_1);
    proof {
        lemma_is_tanru_unit_1_list_next(node, toks@, pos as nat);
    }
    Ok((at2, node))
}

/// Parse `TanruUnit1ListNext` from `pos` on as often as it matches; see [`spec_many0_tanru_unit_1_list_next`].
pub fn many0_tanru_unit_1_list_next<'arena>(
    toks: &[Token],
    pos: usize,
    arena: &'arena Arena,
) -> (out: Parsed<
    &'arena [(WithFree<'arena, Word<'arena>>, TanruUnit1<'arena>)],
>)
    requires
        pos <= toks.len(),
    ensures
        outcome(out, pos) == spec_many0_tanru_unit_1_list_next(toks@, pos as nat),
        out matches Ok((end, items)) ==> pos <= end <= toks.len() && (items@.len() == 0 <==> end
            == pos) && is_row_of_tanru_unit_1_list_next(items@, toks@, pos as nat),
    decreases toks.len() - pos, 66nat,
{
    let mut items: Vec<(WithFree<'arena, Word<'arena>>, TanruUnit1<'arena>)> = Vec::new();
    let mut at: usize = pos;
    loop
        invariant
            pos <= at <= toks.len(),
            items@.len() == 0 <==> at == pos,
            at == pos + run_of_tanru_unit_1_list_next(toks@, pos as nat, items@.len()),
            forall|i: int|
                #![trigger items@[i]]
                #![trigger run_of_tanru_unit_1_list_next(toks@, pos as nat, i as nat)]
                0 <= i < items@.len() ==> spec_tanru_unit_1_list_next(
                    toks@,
                    pos as nat + run_of_tanru_unit_1_list_next(toks@, pos as nat, i as nat),
                ) is Matched && is_tanru_unit_1_list_next(
                    items@[i],
                    toks@,
                    pos as nat + run_of_tanru_unit_1_list_next(toks@, pos as nat, i as nat),
                ),
            shifted(
                spec_many0_tanru_unit_1_list_next(toks@, at as nat),
                (at - pos) as nat,
            ) == spec_many0_tanru_unit_1_list_next(
                toks@,
                pos as nat,
            ),
        decreases toks.len() - at,
    {
        proof {
            lemma_many0_tanru_unit_1_list_next(toks@, at as nat);
        }
        match parse_tanru_unit_1_list_next(toks, at, arena) {
            Ok((end, item)) => {
                if end == at {
                    return fail(Error::Combinator(ErrorKind::Many0), at);
                }
                items.push(item);
                at = end;
            },
            Err(failed) => {
                if failed.fatal {
                    return Err(failed);
                }
                proof {
                    lemma_is_row_of_tanru_unit_1_list_next(items@, toks@, pos as nat);
                }
                return Ok((at, keep_all(arena, items)));
            },
        }
    }
}

/// Parse `TanruUnitListNext` at `pos`; see [`spec_tanru_unit_list_next`].
pub fn parse_tanru_unit_list_next<'arena>(
    toks: &[Token],
    pos: usize,
    arena: &'arena Arena,
) -> (out: Parsed<
    (WithFree<'arena, Word<'arena>>, TanruUnit<'arena>),
>)
    requires
        pos <= toks.len(),
    ensures
        outcome(out, pos) == spec_tanru_unit_list_next(toks@, pos as nat),
        out matches Ok((end, node)) ==> pos < end <= toks.len() && is_tanru_unit_list_next(
            node,
            toks@,
            pos as nat,
        ),
    decreases toks.len() - pos, 69nat,
{
    proof {
        lemma_tanru_unit_list_next(toks@, pos as nat);
    }
    let (at1, item_0) = parse_word_with_free(toks, pos, arena, Selmaho::Bo)?;
    let (at2, item_1) = parse_tanru_unit(toks, at1, arena)?;
    let node = (item_0, item_1);
    proof {
        lemma_is_tanru_unit_list_next(node, toks@, pos as nat);
    }
    Ok((at2, node))
}

/// Parse `TanruUnitListNext` from `pos` on as often as it matches; see [`spec_many0_tanru_unit_list_next`].
pub fn many0_tanru_unit_list_next<'arena>(
    toks: &[Token],
    pos: usize,
    arena: &'arena Arena,
) -> (out: Parsed<
    &'arena [(WithFree<'arena, Word<'arena>>, TanruUnit<'arena>)],
>)
    requires
        pos <= toks.len(),
    ensures
        outcome(out, pos) == spec_many0_tanru_unit_list_next(toks@, pos as nat),
        out matches Ok((end, items)) ==> pos <= end <= toks.len() && (items@.len() == 0 <==> end
            == pos) && is_row_of_tanru_unit_list_next(items@, toks@, pos as nat),
    decreases toks.len() - pos, 70nat,
{
    let mut items: Vec<(WithFree<'arena, Word<'arena>>, TanruUnit<'arena>)> = Vec::new();
    let mut at: usize = pos;
    loop
        invariant
            pos <= at <= toks.len(),
            items@.len() == 0 <==> at == pos,
            at == pos + run_of_tanru_unit_list_next(toks@, pos as nat, items@.len()),
            forall|i: int|
                #![trigger items@[i]]
                #![trigger run_of_tanru_unit_list_next(toks@, pos as nat, i as nat)]
                0 <= i < items@.len() ==> spec_tanru_unit_list_next(
                    toks@,
                    pos as nat + run_of_tanru_unit_list_next(toks@, pos as nat, i as nat),
                ) is Matched && is_tanru_unit_list_next(
                    items@[i],
                    toks@,
                    pos as nat + run_of_tanru_unit_list_next(toks@, pos as nat, i as nat),
                ),
            shifted(
                spec_many0_tanru_unit_list_next(toks@, at as nat),
                (at - pos) as nat,
            ) == spec_many0_tanru_unit_list_next(
                toks@,
                pos as nat,
            ),
        decreases toks.len() - at,
    {
        proof {
            lemma_many0_tanru_unit_list_next(toks@, at as nat);
        }
        match parse_tanru_unit_list_next(toks, at, arena) {
            Ok((end, item)) => {
                if end == at {
                    return fail(Error::Combinator(ErrorKind::Many0), at);
                }
                items.push(item);
                at = end;
            },
            Err(failed) => {
                if failed.fatal {
                    return Err(failed);
                }
                proof {
                    lemma_is_row_of_tanru_unit_list_next(items@, toks@, pos as nat);
                }
                return Ok((at, keep_all(arena, items)));
            },
        }
    }
}

/// Parse `Selbri5ListNext` at `pos`; see [`spec_selbri_5_list_next`].
pub fn parse_selbri_5_list_next<'arena>(
    toks: &[Token],
    pos: usize,
    arena: &'arena Arena,
) -> (out: Parsed<
    ((JoikJek<'arena>, Option<TagWords<'arena>>, Word<'arena>, Frees<'arena>), Selbri5<'arena>),
>)
    requires
        pos <= toks.len(),
    ensures
        outcome(out, pos) == spec_selbri_5_list_next(toks@, pos as nat),
        out matches Ok((end, node)) ==> pos < end <= toks.len() && is_selbri_5_list_next(
            node,
            toks@,
            pos as nat,
        ),
    decreases toks.len() - pos, 74nat,
{
    proof {
        lemma_selbri_5_list_next(toks@, pos as nat);
    }
    let (at1, item_0) = parse_joik_jek_bo(toks, pos, arena)?;
    let (at2, item_1) = parse_selbri_5(toks, at1, arena)?;
    let node = (item_0, item_1);
    proof {
        lemma_is_selbri_5_list_next(node, toks@, pos as nat);
    }
    Ok((at2, node))
}

/// Parse `Selbri5ListNext` from `pos` on as often as it matches; see [`spec_many0_selbri_5_list_next`].
pub fn many0_selbri_5_list_next<'arena>(
    toks: &[Token],
    pos: usize,
    arena: &'arena Arena,
) -> (out: Parsed<
    &'arena [((JoikJek<'arena>, Option<TagWords<'arena>>, Word<'arena>, Frees<'arena>), Selbri5<'arena>)],
>)
    requires
        pos <= toks.len(),
    ensures
        outcome(out, pos) == spec_many0_selbri_5_list_next(toks@, pos as nat),
        out matches Ok((end, items)) ==> pos <= end <= toks.len() && (items@.len() == 0 <==> end
            == pos) && is_row_of_selbri_5_list_next(items@, toks@, pos as nat),
    decreases toks.len() - pos, 75nat,
{
    let mut items: Vec<((JoikJek<'arena>, Option<TagWords<'arena>>, Word<'arena>, Frees<'arena>), Selbri5<'arena>)> = Vec::new();
    let mut at: usize = pos;
    loop
        invariant
            pos <= at <= toks.len(),
            items@.len() == 0 <==> at == pos,
            at == pos + run_of_selbri_5_list_next(toks@, pos as nat, items@.len()),
            forall|i: int|
                #![trigger items@[i]]
                #![trigger run_of_selbri_5_list_next(toks@, pos as nat, i as nat)]
                0 <= i < items@.len() ==> spec_selbri_5_list_next(
                    toks@,
                    pos as nat + run_of_selbri_5_list_next(toks@, pos as nat, i as nat),
                ) is Matched && is_selbri_5_list_next(
                    items@[i],
                    toks@,
                    pos as nat + run_of_selbri_5_list_next(toks@, pos as nat, i as nat),
                ),
            shifted(
                spec_many0_selbri_5_list_next(toks@, at as nat),
                (at - pos) as nat,
            ) == spec_many0_selbri_5_list_next(
                toks@,
                pos as nat,
            ),
        decreases toks.len() - at,
    {
        proof {
            lemma_many0_selbri_5_list_next(toks@, at as nat);
        }
        match parse_selbri_5_list_next(toks, at, arena) {
            Ok((end, item)) => {
                if end == at {
                    return fail(Error::Combinator(ErrorKind::Many0), at);
                }
                items.push(item);
                at = end;
            },
            Err(failed) => {
                if failed.fatal {
                    return Err(failed);
                }
                proof {
                    lemma_is_row_of_selbri_5_list_next(items@, toks@, pos as nat);
                }
                return Ok((at, keep_all(arena, items)));
            },
        }
    }
}

/// Parse `JoikJekBo` at `pos`; see [`spec_joik_jek_bo`].
pub fn parse_joik_jek_bo<'arena>(
    toks: &[Token],
    pos: usize,
    arena: &'arena Arena,
) -> (out: Parsed<
    (JoikJek<'arena>, Option<TagWords<'arena>>, Word<'arena>, Frees<'arena>),
>)
    requires
        pos <= toks.len(),
    ensures
        outcome(out, pos) == spec_joik_jek_bo(toks@, pos as nat),
        out matches Ok((end, node)) ==> pos < end <= toks.len() && is_joik_jek_bo(
            node,
            toks@,
            pos as nat,
        ),
    decreases toks.len() - pos, 32nat,
{
    proof {
        lemma_joik_jek_bo(toks@, pos as nat);
    }
    let (at1, item_0) = parse_joik_jek(toks, pos, arena)?;
    let (at2, item_1) = opt(at1, parse_tag_words(toks, at1, arena))?;
    let (at3, item_2) = parse_word(toks, at2, arena, Selmaho::Bo)?;
    let (at4, item_3) = parse_frees(toks, at3, arena)?;
    let node = (item_0, item_1, item_2, item_3);
    proof {
        lemma_is_joik_jek_bo(node, toks@, pos as nat);
    }
    Ok((at4, node))
}

/// Parse `Selbri3ConnectedPost` at `pos`; see [`spec_selbri_3_connected_post`].
pub fn parse_selbri_3_connected_post<'arena>(
    toks: &[Token],
    pos: usize,
    arena: &'arena Arena,
) -> (out: Parsed<
    SelbriLikeConnectedPost<'arena, Selbri4<'arena>, Selbri2<'arena>>,
>)
    requires
        pos <= toks.len(),
    ensures
        outcome(out, pos) == spec_selbri_3_connected_post(toks@, pos as nat),
        out matches Ok((end, node)) ==> pos < end <= toks.len() && is_selbri_3_connected_post(
            node,
            toks@,
            pos as nat,
        ),
    decreases toks.len() - pos, 79nat,
{
    proof {
        lemma_selbri_3_connected_post(toks@, pos as nat);
        lemma_is_selbri_3_connected_post(toks@, pos as nat);
    }
    let tried = parse_selbri_3_connected_post_normal(toks, pos, arena);
    if settled(&tried) {
        return tried;
    }
    let error = error_of(tried);
    let tried = parse_selbri_3_connected_post_parenthesized(toks, pos, arena);
    if settled(&tried) {
        return tried;
    }
    let error = error.or(error_of(tried));
    Err(Failed { fatal: false, error })
}

/// Parse `Selbri3ConnectedPost` from `pos` on as often as it matches; see [`spec_many0_selbri_3_connected_post`].
pub fn many0_selbri_3_connected_post<'arena>(
    toks: &[Token],
    pos: usize,
    arena: &'arena Arena,
) -> (out: Parsed<
    &'arena [SelbriLikeConnectedPost<'arena, Selbri4<'arena>, Selbri2<'arena>>],
>)
    requires
        pos <= toks.len(),
    ensures
        outcome(out, pos) == spec_many0_selbri_3_connected_post(toks@, pos as nat),
        out matches Ok((end, items)) ==> pos <= end <= toks.len() && (items@.len() == 0 <==> end
            == pos) && is_row_of_selbri_3_connected_post(items@, toks@, pos as nat),
    decreases toks.len() - pos, 80nat,
{
    let mut items: Vec<SelbriLikeConnectedPost<'arena, Selbri4<'arena>, Selbri2<'arena>>> = Vec::new();
    let mut at: usize = pos;
    loop
        invariant
            pos <= at <= toks.len(),
            items@.len() == 0 <==> at == pos,
            at == pos + run_of_selbri_3_connected_post(toks@, pos as nat, items@.len()),
            forall|i: int|
                #![trigger items@[i]]
                #![trigger run_of_selbri_3_connected_post(toks@, pos as nat, i as nat)]
                0 <= i < items@.len() ==> spec_selbri_3_connected_post(
                    toks@,
                    pos as nat + run_of_selbri_3_connected_post(toks@, pos as nat, i as nat),
                ) is Matched && is_selbri_3_connected_post(
                    items@[i],
                    toks@,
                    pos as nat + run_of_selbri_3_connected_post(toks@, pos as nat, i as nat),
                ),
            shifted(
                spec_many0_selbri_3_connected_post(toks@, at as nat),
                (at - pos) as nat,
            ) == spec_many0_selbri_3_connected_post(
                toks@,
                pos as nat,
            ),
        decreases toks.len() - at,
    {
        proof {
            lemma_many0_selbri_3_connected_post(toks@, at as nat);
        }
        match parse_selbri_3_connected_post(toks, at, arena) {
            Ok((end, item)) => {
                if end == at {
                    return fail(Error::Combinator(ErrorKind::Many0), at);
                }
                items.push(item);
                at = end;
            },
            Err(failed) => {
                if failed.fatal {
                    return Err(failed);
                }
                proof {
                    lemma_is_row_of_selbri_3_connected_post(items@, toks@, pos as nat);
                }
                return Ok((at, keep_all(arena, items)));
            },
        }
    }
}

/// Parse `Selbri3ConnectedPostNormal` at `pos`; see [`spec_selbri_3_connected_post_normal`].
pub fn parse_selbri_3_connected_post_normal<'arena>(
    toks: &[Token],
    pos: usize,
    arena: &'arena Arena,
) -> (out: Parsed<
    SelbriLikeConnectedPost<'arena, Selbri4<'arena>, Selbri2<'arena>>,
>)
    requires
        pos <= toks.len(),
    ensures
        outcome(out, pos) == spec_selbri_3_connected_post_normal(toks@, pos as nat),
        out matches Ok((end, node)) ==> pos < end <= toks.len() && is_selbri_3_connected_post_normal(
            node,
            toks@,
            pos as nat,
        ),
    decreases toks.len() - pos, 78nat,
{
    proof {
        lemma_selbri_3_connected_post_normal(toks@, pos as nat);
    }
    let (at1, field_0) = parse_joik_jek(toks, pos, arena)?;
    let (at2, field_1) = parse_selbri_4(toks, at1, arena)?;
    let node = SelbriLikeConnectedPost::Normal(field_0, field_1);
    proof {
        lemma_is_selbri_3_connected_post_normal(node, toks@, pos as nat);
    }
    Ok((at2, node))
}

/// Parse `Selbri3ConnectedPostParenthesized` at `pos`; see [`spec_selbri_3_connected_post_parenthesized`].
pub fn parse_selbri_3_connected_post_parenthesized<'arena>(
    toks: &[Token],
    pos: usize,
    arena: &'arena Arena,
) -> (out: Parsed<
    SelbriLikeConnectedPost<'arena, Selbri4<'arena>, Selbri2<'arena>>,
>)
    requires
        pos <= toks.len(),
    ensures
        outcome(out, pos) == spec_selbri_3_connected_post_parenthesized(toks@, pos as nat),
        out matches Ok((end, node)) ==> pos < end <= toks.len() && is_selbri_3_connected_post_parenthesized(
            node,
            toks@,
            pos as nat,
        ),
    decreases toks.len() - pos, 32nat,
{
    proof {
        lemma_selbri_3_connected_post_parenthesized(toks@, pos as nat);
    }
    let (at1, field_0) = parse_joik_jek(toks, pos, arena)?;
    let (at2, field_1) = opt(at1, parse_tag_words(toks, at1, arena))?;
    let (at3, field_2) = parse_word_with_free(toks, at2, arena, Selmaho::Ke)?;
    let (at4, field_3) = parse_selbri_2(toks, at3, arena)?;
    let (at5, field_4) = opt(at4, parse_word(toks, at4, arena, Selmaho::Kehe))?;
    let (at6, field_5) = parse_frees(toks, at5, arena)?;
    let node = SelbriLikeConnectedPost::Parenthesized(
        field_0,
        field_1,
        field_2,
        field_3,
        field_4,
        field_5,
    );
    proof {
        lemma_is_selbri_3_connected_post_parenthesized(node, toks@, pos as nat);
    }
    Ok((at6, node))
}

/// Parse `Selbri2ListNext` at `pos`; see [`spec_selbri_2_list_next`].
pub fn parse_selbri_2_list_next<'arena>(
    toks: &[Token],
    pos: usize,
    arena: &'arena Arena,
) -> (out: Parsed<
    (WithFree<'arena, Word<'arena>>, Selbri2<'arena>),
>)
    requires
        pos <= toks.len(),
    ensures
        outcome(out, pos) == spec_selbri_2_list_next(toks@, pos as nat),
        out matches Ok((end, node)) ==> pos < end <= toks.len() && is_selbri_2_list_next(
            node,
            toks@,
            pos as nat,
        ),
    decreases toks.len() - pos, 84nat,
{
    proof {
        lemma_selbri_2_list_next(toks@, pos as nat);
    }
    let (at1, item_0) = parse_word_with_free(toks, pos, arena, Selmaho::Co)?;
    let (at2, item_1) = parse_selbri_2(toks, at1, arena)?;
    let node = (item_0, item_1);
    proof {
        lemma_is_selbri_2_list_next(node, toks@, pos as nat);
    }
    Ok((at2, node))
}

/// Parse `Selbri2ListNext` from `pos` on as often as it matches; see [`spec_many0_selbri_2_list_next`].
pub fn many0_selbri_2_list_next<'arena>(
    toks: &[Token],
    pos: usize,
    arena: &'arena Arena,
) -> (out: Parsed<
    &'arena [(WithFree<'arena, Word<'arena>>, Selbri2<'arena>)],
>)
    requires
        pos <= toks.len(),
    ensures
        outcome(out, pos) == spec_many0_selbri_2_list_next(toks@, pos as nat),
        out matches Ok((end, items)) ==> pos <= end <= toks.len() && (items@.len() == 0 <==> end
            == pos) && is_row_of_selbri_2_list_next(items@, toks@, pos as nat),
    decreases toks.len() - pos, 85nat,
{
    let mut items: Vec<(WithFree<'arena, Word<'arena>>, Selbri2<'arena>)> = Vec::new();
    let mut at: usize = pos;
    loop
        invariant
            pos <= at <= toks.len(),
            items@.len() == 0 <==> at == pos,
            at == pos + run_of_selbri_2_list_next(toks@, pos as nat, items@.len()),
            forall|i: int|
                #![trigger items@[i]]
                #![trigger run_of_selbri_2_list_next(toks@, pos as nat, i as nat)]
                0 <= i < items@.len() ==> spec_selbri_2_list_next(
                    toks@,
                    pos as nat + run_of_selbri_2_list_next(toks@, pos as nat, i as nat),
                ) is Matched && is_selbri_2_list_next(
                    items@[i],
                    toks@,
                    pos as nat + run_of_selbri_2_list_next(toks@, pos as nat, i as nat),
                ),
            shifted(
                spec_many0_selbri_2_list_next(toks@, at as nat),
                (at - pos) as nat,
            ) == spec_many0_selbri_2_list_next(
                toks@,
                pos as nat,
            ),
        decreases toks.len() - at,
    {
        proof {
            lemma_many0_selbri_2_list_next(toks@, at as nat);
        }
        match parse_selbri_2_list_next(toks, at, arena) {
            Ok((end, item)) => {
                if end == at {
                    return fail(Error::Combinator(ErrorKind::Many0), at);
                }
                items.push(item);
                at = end;
            },
            Err(failed) => {
                if failed.fatal {
                    return Err(failed);
                }
                proof {
                    lemma_is_row_of_selbri_2_list_next(items@, toks@, pos as nat);
                }
                return Ok((at, keep_all(arena, items)));
            },
        }
    }
}

/// Parse `TagWordsNext` at `pos`; see [`spec_tag_words_next`].
pub fn parse_tag_words_next<'arena>(
    toks: &[Token],
    pos: usize,
    arena: &'arena Arena,
) -> (out: Parsed<
    (JoikJek<'arena>, TagWord<'arena>),
>)
    requires
        pos <= toks.len(),
    ensures
        outcome(out, pos) == spec_tag_words_next(toks@, pos as nat),
        out matches Ok((end, node)) ==> pos < end <= toks.len() && is_tag_words_next(
            node,
            toks@,
            pos as nat,
        ),
    decreases toks.len() - pos, 29nat,
{
    proof {
        lemma_tag_words_next(toks@, pos as nat);
    }
    let (at1, item_0) = parse_joik_jek(toks, pos, arena)?;
    let (at2, item_1) = parse_tag_word(toks, at1, arena)?;
    let node = (item_0, item_1);
    proof {
        lemma_is_tag_words_next(node, toks@, pos as nat);
    }
    Ok((at2, node))
}

/// Parse `TagWordsNext` from `pos` on as often as it matches; see [`spec_many0_tag_words_next`].
pub fn many0_tag_words_next<'arena>(
    toks: &[Token],
    pos: usize,
    arena: &'arena Arena,
) -> (out: Parsed<
    &'arena [(JoikJek<'arena>, TagWord<'arena>)],
>)
    requires
        pos <= toks.len(),
    ensures
        outcome(out, pos) == spec_many0_tag_words_next(toks@, pos as nat),
        out matches Ok((end, items)) ==> pos <= end <= toks.len() && (items@.len() == 0 <==> end
            == pos) && is_row_of_tag_words_next(items@, toks@, pos as nat),
    decreases toks.len() - pos, 30nat,
{
    let mut items: Vec<(JoikJek<'arena>, TagWord<'arena>)> = Vec::new();
    let mut at: usize = pos;
    loop
        invariant
            pos <= at <= toks.len(),
            items@.len() == 0 <==> at == pos,
            at == pos + run_of_tag_words_next(toks@, pos as nat, items@.len()),
            forall|i: int|
                #![trigger items@[i]]
                #![trigger run_of_tag_words_next(toks@, pos as nat, i as nat)]
                0 <= i < items@.len() ==> spec_tag_words_next(
                    toks@,
                    pos as nat + run_of_tag_words_next(toks@, pos as nat, i as nat),
                ) is Matched && is_tag_words_next(
                    items@[i],
                    toks@,
                    pos as nat + run_of_tag_words_next(toks@, pos as nat, i as nat),
                ),
            shifted(
                spec_many0_tag_words_next(toks@, at as nat),
                (at - pos) as nat,
            ) == spec_many0_tag_words_next(
                toks@,
                pos as nat,
            ),
        decreases toks.len() - at,
    {
        proof {
            lemma_many0_tag_words_next(toks@, at as nat);
        }
        match parse_tag_words_next(toks, at, arena) {
            Ok((end, item)) => {
                if end == at {
                    return fail(Error::Combinator(ErrorKind::Many0), at);
                }
                items.push(item);
                at = end;
            },
            Err(failed) => {
                if failed.fatal {
                    return Err(failed);
                }
                proof {
                    lemma_is_row_of_tag_words_next(items@, toks@, pos as nat);
                }
                return Ok((at, keep_all(arena, items)));
            },
        }
    }
}

/// Parse `TagValue` at `pos`; see [`spec_tag_value`].
pub fn parse_tag_value<'arena>(toks: &[Token], pos: usize, arena: &'arena Arena) -> (out: Parsed<
    TagValue<'arena>,
>)
    requires
        pos <= toks.len(),
    ensures
        outcome(out, pos) == spec_tag_value(toks@, pos as nat),
        out matches Ok((end, node)) ==> pos < end <= toks.len() && is_tag_value(
            node,
            toks@,
            pos as nat,
        ),
    decreases toks.len() - pos, 46nat,
{
    proof {
        lemma_tag_value(toks@, pos as nat);
        lemma_is_tag_value(toks@, pos as nat);
    }
    let tried = parse_tag_value_ku(toks, pos, arena);
    if settled(&tried) {
        return tried;
    }
    let error = error_of(tried);
    let tried = parse_tag_value_sumti(toks, pos, arena);
    if settled(&tried) {
        return tried;
    }
    let error = error.or(error_of(tried));
    Err(Failed { fatal: false, error })
}

/// Parse `TagValueKu` at `pos`; see [`spec_tag_value_ku`].
pub fn parse_tag_value_ku<'arena>(
    toks: &[Token],
    pos: usize,
    arena: &'arena Arena,
) -> (out: Parsed<
    TagValue<'arena>,
>)
    requires
        pos <= toks.len(),
    ensures
        outcome(out, pos) == spec_tag_value_ku(toks@, pos as nat),
        out matches Ok((end, node)) ==> pos < end <= toks.len() && is_tag_value_ku(
            node,
            toks@,
            pos as nat,
        ),
    decreases toks.len() - pos, 4nat,
{
    proof {
        lemma_tag_value_ku(toks@, pos as nat);
    }
    let (at1, field_0) = parse_word_with_free(toks, pos, arena, Selmaho::Ku)?;
    let node = TagValue::Ku(field_0);
    proof {
        lemma_is_tag_value_ku(node, toks@, pos as nat);
    }
    Ok((at1, node))
}

/// Parse `TagValueSumti` at `pos`; see [`spec_tag_value_sumti`].
pub fn parse_tag_value_sumti<'arena>(
    toks: &[Token],
    pos: usize,
    arena: &'arena Arena,
) -> (out: Parsed<
    TagValue<'arena>,
>)
    requires
        pos <= toks.len(),
    ensures
        outcome(out, pos) == spec_tag_value_sumti(toks@, pos as nat),
        out matches Ok((end, node)) ==> pos < end <= toks.len() && is_tag_value_sumti(
            node,
            toks@,
            pos as nat,
        ),
    decreases toks.len() - pos, 45nat,
{
    proof {
        lemma_tag_value_sumti(toks@, pos as nat);
    }
    let (at1, field_0) = parse_sumti(toks, pos, arena)?;
    let node = TagValue::Sumti(field_0);
    proof {
        lemma_is_tag_value_sumti(node, toks@, pos as nat);
    }
    Ok((at1, node))
}

/// Parse `Arg3Sumti` at `pos`; see [`spec_arg_3_sumti`].
pub fn parse_arg_3_sumti<'arena>(
    toks: &[Token],
    pos: usize,
    arena: &'arena Arena,
) -> (out: Parsed<
    Arg3<'arena>,
>)
    requires
        pos <= toks.len(),
    ensures
        outcome(out, pos) == spec_arg_3_sumti(toks@, pos as nat),
        out matches Ok((end, node)) ==> pos < end <= toks.len() && is_arg_3_sumti(
            node,
            toks@,
            pos as nat,
        ),
    decreases toks.len() - pos, 45nat,
{
    proof {
        lemma_arg_3_sumti(toks@, pos as nat);
    }
    let (at1, fa) = opt(pos, parse_word_with_free(toks, pos, arena, Selmaho::Fa))?;
    let (at2, sumti) = parse_sumti(toks, at1, arena)?;
    let node = Arg3::Sumti { fa, sumti };
    proof {
        lemma_is_arg_3_sumti(node, toks@, pos as nat);
    }
    Ok((at2, node))
}

/// Parse `Arg3Naku` at `pos`; see [`spec_arg_3_naku`].
pub fn parse_arg_3_naku<'arena>(toks: &[Token], pos: usize, arena: &'arena Arena) -> (out: Parsed<
    Arg3<'arena>,
>)
    requires
        pos <= toks.len(),
    ensures
        outcome(out, pos) == spec_arg_3_naku(toks@, pos as nat),
        out matches Ok((end, node)) ==> pos < end <= toks.len() && is_arg_3_naku(
            node,
            toks@,
            pos as nat,
        ),
    decreases toks.len() - pos, 25nat,
{
    proof {
        lemma_arg_3_naku(toks@, pos as nat);
    }
    let (at1, field_0) = parse_word(toks, pos, arena, Selmaho::Na)?;
    let (at2, field_1) = parse_word(toks, at1, arena, Selmaho::Ku)?;
    let (at3, field_2) = parse_frees(toks, at2, arena)?;
    let node = Arg3::Naku(field_0, field_1, field_2);
    proof {
        lemma_is_arg_3_naku(node, toks@, pos as nat);
    }
    Ok((at3, node))
}

/// Parse `Arg3Termset` at `pos`; see [`spec_arg_3_termset`].
pub fn parse_arg_3_termset<'arena>(
    toks: &[Token],
    pos: usize,
    arena: &'arena Arena,
) -> (out: Parsed<
    Arg3<'arena>,
>)
    requires
        pos <= toks.len(),
    ensures
        outcome(out, pos) == spec_arg_3_termset(toks@, pos as nat),
        out matches Ok((end, node)) ==> pos < end <= toks.len() && is_arg_3_termset(
            node,
            toks@,
            pos as nat,
        ),
    decreases toks.len() - pos, 36nat,
{
    proof {
        lemma_arg_3_termset(toks@, pos as nat);
    }
    let (at1, field_0) = place(arena, parse_termset(toks, pos, arena))?;
    let node = Arg3::Termset(field_0);
    proof {
        lemma_is_arg_3_termset(node, toks@, pos as nat);
    }
    Ok((at1, node))
}

/// Parse `Termset` at `pos`; see [`spec_termset`].
pub fn parse_termset<'arena>(toks: &[Token], pos: usize, arena: &'arena Arena) -> (out: Parsed<
    Termset<'arena>,
>)
    requires
        pos <= toks.len(),
    ensures
        outcome(out, pos) == spec_termset(toks@, pos as nat),
        out matches Ok((end, node)) ==> pos < end <= toks.len() && is_termset(
            node,
            toks@,
            pos as nat,
        ),
    decreases toks.len() - pos, 35nat,
{
    proof {
        lemma_termset(toks@, pos as nat);
        lemma_is_termset(toks@, pos as nat);
    }
    let tried = parse_termset_gek(toks, pos, arena);
    if settled(&tried) {
        return tried;
    }
    let error = error_of(tried);
    let tried = parse_termset_nuhi_gi(toks, pos, arena);
    if settled(&tried) {
        return tried;
    }
    let error = error.or(error_of(tried));
    let tried = parse_termset_nuhi(toks, pos, arena);
    if settled(&tried) {
        return tried;
    }
    let error = error.or(error_of(tried));
    Err(Failed { fatal: false, error })
}

/// Parse `TermsetGek` at `pos`; see [`spec_termset_gek`].
pub fn parse_termset_gek<'arena>(
    toks: &[Token],
    pos: usize,
    arena: &'arena Arena,
) -> (out: Parsed<
    Termset<'arena>,
>)
    requires
        pos <= toks.len(),
    ensures
        outcome(out, pos) == spec_termset_gek(toks@, pos as nat),
        out matches Ok((end, node)) ==> pos < end <= toks.len() && is_termset_gek(
            node,
            toks@,
            pos as nat,
        ),
    decreases toks.len() - pos, 34nat,
{
    proof {
        lemma_termset_gek(toks@, pos as nat);
    }
    let (at1, field_0) = parse_gek(toks, pos, arena)?;
    let (at2, field_1) = parse_args(toks, at1, arena)?;
    let (at3, field_2) = parse_gik(toks, at2, arena)?;
    let (at4, field_3) = parse_args(toks, at3, arena)?;
    let node = Termset::Gek(field_0, field_1, field_2, field_3);
    proof {
        lemma_is_termset_gek(node, toks@, pos as nat);
    }
    Ok((at4, node))
}

/// Parse `TermsetNuhiGi` at `pos`; see [`spec_termset_nuhi_gi`].
pub fn parse_termset_nuhi_gi<'arena>(
    toks: &[Token],
    pos: usize,
    arena: &'arena Arena,
) -> (out: Parsed<
    Termset<'arena>,
>)
    requires
        pos <= toks.len(),
    ensures
        outcome(out, pos) == spec_termset_nuhi_gi(toks@, pos as nat),
        out matches Ok((end, node)) ==> pos < end <= toks.len() && is_termset_nuhi_gi(
            node,
            toks@,
            pos as nat,
        ),
    decreases toks.len() - pos, 34nat,
{
    proof {
        lemma_termset_nuhi_gi(toks@, pos as nat);
    }
    let (at1, field_0) = parse_word_with_free(toks, pos, arena, Selmaho::Nuhi)?;
    let (at2, field_1) = parse_gek(toks, at1, arena)?;
    let (at3, field_2) = parse_args(toks, at2, arena)?;
    let (at4, field_3) = opt(at3, parse_word(toks, at3, arena, Selmaho::Nuhu))?;
    let (at5, field_4) = parse_frees(toks, at4, arena)?;
    let (at6, field_5) = parse_gik(toks, at5, arena)?;
    let (at7, field_6) = parse_args(toks, at6, arena)?;
    let (at8, field_7) = opt(at7, parse_word(toks, at7, arena, Selmaho::Nuhu))?;
    let (at9, field_8) = parse_frees(toks, at8, arena)?;
    let node = Termset::NuhiGi(
        field_0,
        field_1,
        field_2,
        field_3,
        field_4,
        field_5,
        field_6,
        field_7,
        field_8,
    );
    proof {
        lemma_is_termset_nuhi_gi(node, toks@, pos as nat);
    }
    Ok((at9, node))
}

/// Parse `TermsetNuhi` at `pos`; see [`spec_termset_nuhi`].
pub fn parse_termset_nuhi<'arena>(
    toks: &[Token],
    pos: usize,
    arena: &'arena Arena,
) -> (out: Parsed<
    Termset<'arena>,
>)
    requires
        pos <= toks.len(),
    ensures
        outcome(out, pos) == spec_termset_nuhi(toks@, pos as nat),
        out matches Ok((end, node)) ==> pos < end <= toks.len() && is_termset_nuhi(
            node,
            toks@,
            pos as nat,
        ),
    decreases toks.len() - pos, 25nat,
{
    proof {
        lemma_termset_nuhi(toks@, pos as nat);
    }
    let (at1, field_0) = parse_word_with_free(toks, pos, arena, Selmaho::Nuhi)?;
    let (at2, field_1) = parse_args(toks, at1, arena)?;
    let (at3, field_2) = opt(at2, parse_word(toks, at2, arena, Selmaho::Nuhu))?;
    let (at4, field_3) = parse_frees(toks, at3, arena)?;
    let node = Termset::Nuhi(field_0, field_1, field_2, field_3);
    proof {
        lemma_is_termset_nuhi(node, toks@, pos as nat);
    }
    Ok((at4, node))
}

/// Parse `Arg2Next` at `pos`; see [`spec_arg_2_next`].
pub fn parse_arg_2_next<'arena>(toks: &[Token], pos: usize, arena: &'arena Arena) -> (out: Parsed<
    (WithFree<'arena, Word<'arena>>, Arg3<'arena>),
>)
    requires
        pos <= toks.len(),
    ensures
        outcome(out, pos) == spec_arg_2_next(toks@, pos as nat),
        out matches Ok((end, node)) ==> pos < end <= toks.len() && is_arg_2_next(
            node,
            toks@,
            pos as nat,
        ),
    decreases toks.len() - pos, 50nat,
{
    proof {
        lemma_arg_2_next(toks@, pos as nat);
    }
    let (at1, item_0) = parse_word_with_free(toks, pos, arena, Selmaho::Cehe)?;
    let (at2, item_1) = parse_arg_3(toks, at1, arena)?;
    let node = (item_0, item_1);
    proof {
        lemma_is_arg_2_next(node, toks@, pos as nat);
    }
    Ok((at2, node))
}

/// Parse `Arg2Next` from `pos` on as often as it matches; see [`spec_many0_arg_2_next`].
pub fn many0_arg_2_next<'arena>(toks: &[Token], pos: usize, arena: &'arena Arena) -> (out: Parsed<
    &'arena [(WithFree<'arena, Word<'arena>>, Arg3<'arena>)],
>)
    requires
        pos <= toks.len(),
    ensures
        outcome(out, pos) == spec_many0_arg_2_next(toks@, pos as nat),
        out matches Ok((end, items)) ==> pos <= end <= toks.len() && (items@.len() == 0 <==> end
            == pos) && is_row_of_arg_2_next(items@, toks@, pos as nat),
    decreases toks.len() - pos, 51nat,
{
    let mut items: Vec<(WithFree<'arena, Word<'arena>>, Arg3<'arena>)> = Vec::new();
    let mut at: usize = pos;
    loop
        invariant
            pos <= at <= toks.len(),
            items@.len() == 0 <==> at == pos,
            at == pos + run_of_arg_2_next(toks@, pos as nat, items@.len()),
            forall|i: int|
                #![trigger items@[i]]
                #![trigger run_of_arg_2_next(toks@, pos as nat, i as nat)]
                0 <= i < items@.len() ==> spec_arg_2_next(
                    toks@,
                    pos as nat + run_of_arg_2_next(toks@, pos as nat, i as nat),
                ) is Matched && is_arg_2_next(
                    items@[i],
                    toks@,
                    pos as nat + run_of_arg_2_next(toks@, pos as nat, i as nat),
                ),
            shifted(
                spec_many0_arg_2_next(toks@, at as nat),
                (at - pos) as nat,
            ) == spec_many0_arg_2_next(
                toks@,
                pos as nat,
            ),
        decreases toks.len() - at,
    {
        proof {
            lemma_many0_arg_2_next(toks@, at as nat);
        }
        match parse_arg_2_next(toks, at, arena) {
            Ok((end, item)) => {
                if end == at {
                    return fail(Error::Combinator(ErrorKind::Many0), at);
                }
                items.push(item);
                at = end;
            },
            Err(failed) => {
                if failed.fatal {
                    return Err(failed);
                }
                proof {
                    lemma_is_row_of_arg_2_next(items@, toks@, pos as nat);
                }
                return Ok((at, keep_all(arena, items)));
            },
        }
    }
}

/// Parse `Arg1Next` at `pos`; see [`spec_arg_1_next`].
pub fn parse_arg_1_next<'arena>(toks: &[Token], pos: usize, arena: &'arena Arena) -> (out: Parsed<
    (PeheConnective<'arena>, Arg2<'arena>),
>)
    requires
        pos <= toks.len(),
    ensures
        outcome(out, pos) == spec_arg_1_next(toks@, pos as nat),
        out matches Ok((end, node)) ==> pos < end <= toks.len() && is_arg_1_next(
            node,
            toks@,
            pos as nat,
        ),
    decreases toks.len() - pos, 53nat,
{
    proof {
        lemma_arg_1_next(toks@, pos as nat);
    }
    let (at1, item_0) = parse_pehe_connective(toks, pos, arena)?;
    let (at2, item_1) = parse_arg_2(toks, at1, arena)?;
    let node = (item_0, item_1);
    proof {
        lemma_is_arg_1_next(node, toks@, pos as nat);
    }
    Ok((at2, node))
}

/// Parse `Arg1Next` from `pos` on as often as it matches; see [`spec_many0_arg_1_next`].
pub fn many0_arg_1_next<'arena>(toks: &[Token], pos: usize, arena: &'arena Arena) -> (out: Parsed<
    &'arena [(PeheConnective<'arena>, Arg2<'arena>)],
>)
    requires
        pos <= toks.len(),
    ensures
        outcome(out, pos) == spec_many0_arg_1_next(toks@, pos as nat),
        out matches Ok((end, items)) ==> pos <= end <= toks.len() && (items@.len() == 0 <==> end
            == pos) && is_row_of_arg_1_next(items@, toks@, pos as nat),
    decreases toks.len() - pos, 54nat,
{
    let mut items: Vec<(PeheConnective<'arena>, Arg2<'arena>)> = Vec::new();
    let mut at: usize = pos;
    loop
        invariant
            pos <= at <= toks.len(),
            items@.len() == 0 <==> at == pos,
            at == pos + run_of_arg_1_next(toks@, pos as nat, items@.len()),
            forall|i: int|
                #![trigger items@[i]]
                #![trigger run_of_arg_1_next(toks@, pos as nat, i as nat)]
                0 <= i < items@.len() ==> spec_arg_1_next(
                    toks@,
                    pos as nat + run_of_arg_1_next(toks@, pos as nat, i as nat),
                ) is Matched && is_arg_1_next(
                    items@[i],
                    toks@,
                    pos as nat + run_of_arg_1_next(toks@, pos as nat, i as nat),
                ),
            shifted(
                spec_many0_arg_1_next(toks@, at as nat),
                (at - pos) as nat,
            ) == spec_many0_arg_1_next(
                toks@,
                pos as nat,
            ),
        decreases toks.len() - at,
    {
        proof {
            lemma_many0_arg_1_next(toks@, at as nat);
        }
        match parse_arg_1_next(toks, at, arena) {
            Ok((end, item)) => {
                if end == at {
                    return fail(Error::Combinator(ErrorKind::Many0), at);
                }
                items.push(item);
                at = end;
            },
            Err(failed) => {
                if failed.fatal {
                    return Err(failed);
                }
                proof {
                    lemma_is_row_of_arg_1_next(items@, toks@, pos as nat);
                }
                return Ok((at, keep_all(arena, items)));
            },
        }
    }
}

/// Parse `PeheConnective` at `pos`; see [`spec_pehe_connective`].
pub fn parse_pehe_connective<'arena>(
    toks: &[Token],
    pos: usize,
    arena: &'arena Arena,
) -> (out: Parsed<
    PeheConnective<'arena>,
>)
    requires
        pos <= toks.len(),
    ensures
        outcome(out, pos) == spec_pehe_connective(toks@, pos as nat),
        out matches Ok((end, node)) ==> pos < end <= toks.len() && is_pehe_connective(
            node,
            toks@,
            pos as nat,
        ),
    decreases toks.len() - pos, 8nat,
{
    proof {
        lemma_pehe_connective(toks@, pos as nat);
    }
    let (at1, field_0) = parse_word_with_free(toks, pos, arena, Selmaho::Pehe)?;
    let (at2, field_1) = parse_joik_jek(toks, at1, arena)?;
    let node = PeheConnective(field_0, field_1);
    proof {
        lemma_is_pehe_connective(node, toks@, pos as nat);
    }
    Ok((at2, node))
}

/// Parse `ArgConnectedPost` at `pos`; see [`spec_arg_connected_post`].
pub fn parse_arg_connected_post<'arena>(
    toks: &[Token],
    pos: usize,
    arena: &'arena Arena,
) -> (out: Parsed<
    SumtiLikeConnectedPost<'arena, Arg1<'arena>, Arg<'arena>>,
>)
    requires
        pos <= toks.len(),
    ensures
        outcome(out, pos) == spec_arg_connected_post(toks@, pos as nat),
        out matches Ok((end, node)) ==> pos < end <= toks.len() && is_arg_connected_post(
            node,
            toks@,
            pos as nat,
        ),
    decreases toks.len() - pos, 57nat,
{
    proof {
        lemma_arg_connected_post(toks@, pos as nat);
        lemma_is_arg_connected_post(toks@, pos as nat);
    }
    let tried = parse_arg_connected_post_normal(toks, pos, arena);
    if settled(&tried) {
        return tried;
    }
    let error = error_of(tried);
    let tried = parse_arg_connected_post_grouped(toks, pos, arena);
    if settled(&tried) {
        return tried;
    }
    let error = error.or(error_of(tried));
    Err(Failed { fatal: false, error })
}

/// Parse `ArgConnectedPost` from `pos` on as often as it matches; see [`spec_many0_arg_connected_post`].
pub fn many0_arg_connected_post<'arena>(
    toks: &[Token],
    pos: usize,
    arena: &'arena Arena,
) -> (out: Parsed<
    &'arena [SumtiLikeConnectedPost<'arena, Arg1<'arena>, Arg<'arena>>],
>)
    requires
        pos <= toks.len(),
    ensures
        outcome(out, pos) == spec_many0_arg_connected_post(toks@, pos as nat),
        out matches Ok((end, items)) ==> pos <= end <= toks.len() && (items@.len() == 0 <==> end
            == pos) && is_row_of_arg_connected_post(items@, toks@, pos as nat),
    decreases toks.len() - pos, 58nat,
{
    let mut items: Vec<SumtiLikeConnectedPost<'arena, Arg1<'arena>, Arg<'arena>>> = Vec::new();
    let mut at: usize = pos;
    loop
        invariant
            pos <= at <= toks.len(),
            items@.len() == 0 <==> at == pos,
            at == pos + run_of_arg_connected_post(toks@, pos as nat, items@.len()),
            forall|i: int|
                #![trigger items@[i]]
                #![trigger run_of_arg_connected_post(toks@, pos as nat, i as nat)]
                0 <= i < items@.len() ==> spec_arg_connected_post(
                    toks@,
                    pos as nat + run_of_arg_connected_post(toks@, pos as nat, i as nat),
                ) is Matched && is_arg_connected_post(
                    items@[i],
                    toks@,
                    pos as nat + run_of_arg_connected_post(toks@, pos as nat, i as nat),
                ),
            shifted(
                spec_many0_arg_connected_post(toks@, at as nat),
                (at - pos) as nat,
            ) == spec_many0_arg_connected_post(
                toks@,
                pos as nat,
            ),
        decreases toks.len() - at,
    {
        proof {
            lemma_many0_arg_connected_post(toks@, at as nat);
        }
        match parse_arg_connected_post(toks, at, arena) {
            Ok((end, item)) => {
                if end == at {
                    return fail(Error::Combinator(ErrorKind::Many0), at);
                }
                items.push(item);
                at = end;
            },
            Err(failed) => {
                if failed.fatal {
                    return Err(failed);
                }
                proof {
                    lemma_is_row_of_arg_connected_post(items@, toks@, pos as nat);
                }
                return Ok((at, keep_all(arena, items)));
            },
        }
    }
}

/// Parse `ArgConnectedPostNormal` at `pos`; see [`spec_arg_connected_post_normal`].
pub fn parse_arg_connected_post_normal<'arena>(
    toks: &[Token],
    pos: usize,
    arena: &'arena Arena,
) -> (out: Parsed<
    SumtiLikeConnectedPost<'arena, Arg1<'arena>, Arg<'arena>>,
>)
    requires
        pos <= toks.len(),
    ensures
        outcome(out, pos) == spec_arg_connected_post_normal(toks@, pos as nat),
        out matches Ok((end, node)) ==> pos < end <= toks.len() && is_arg_connected_post_normal(
            node,
            toks@,
            pos as nat,
        ),
    decreases toks.len() - pos, 56nat,
{
    proof {
        lemma_arg_connected_post_normal(toks@, pos as nat);
    }
    let (at1, field_0) = parse_joik_ek(toks, pos, arena)?;
    let (at2, field_1) = parse_arg_1(toks, at1, arena)?;
    let node = SumtiLikeConnectedPost::Normal(field_0, field_1);
    proof {
        lemma_is_arg_connected_post_normal(node, toks@, pos as nat);
    }
    Ok((at2, node))
}

/// Parse `ArgConnectedPostGrouped` at `pos`; see [`spec_arg_connected_post_grouped`].
pub fn parse_arg_connected_post_grouped<'arena>(
    toks: &[Token],
    pos: usize,
    arena: &'arena Arena,
) -> (out: Parsed<
    SumtiLikeConnectedPost<'arena, Arg1<'arena>, Arg<'arena>>,
>)
    requires
        pos <= toks.len(),
    ensures
        outcome(out, pos) == spec_arg_connected_post_grouped(toks@, pos as nat),
        out matches Ok((end, node)) ==> pos < end <= toks.len() && is_arg_connected_post_grouped(
            node,
            toks@,
            pos as nat,
        ),
    decreases toks.len() - pos, 32nat,
{
    proof {
        lemma_arg_connected_post_grouped(toks@, pos as nat);
    }
    let (at1, field_0) = parse_joik_ek(toks, pos, arena)?;
    let (at2, field_1) = opt(at1, parse_tag_words(toks, at1, arena))?;
    let (at3, field_2) = parse_word_with_free(toks, at2, arena, Selmaho::Ke)?;
    let (at4, field_3) = parse_arg(toks, at3, arena)?;
    let (at5, field_4) = opt(at4, parse_word(toks, at4, arena, Selmaho::Kehe))?;
    let (at6, field_5) = parse_frees(toks, at5, arena)?;
    let node = SumtiLikeConnectedPost::Grouped(
        field_0,
        field_1,
        field_2,
        field_3,
        field_4,
        field_5,
    );
    proof {
        lemma_is_arg_connected_post_grouped(node, toks@, pos as nat);
    }
    Ok((at6, node))
}

/// Parse `SeiTail` at `pos`; see [`spec_sei_tail`].
pub fn parse_sei_tail<'arena>(toks: &[Token], pos: usize, arena: &'arena Arena) -> (out: Parsed<
    SeiTail<'arena>,
>)
    requires
        pos <= toks.len(),
    ensures
        outcome(out, pos) == spec_sei_tail(toks@, pos as nat),
        out matches Ok((end, node)) ==> pos < end <= toks.len() && is_sei_tail(
            node,
            toks@,
            pos as nat,
        ),
    decreases toks.len() - pos, 89nat,
{
    proof {
        lemma_sei_tail(toks@, pos as nat);
    }
    let (at1, field_0) = opt(pos, parse_word(toks, pos, arena, Selmaho::Cu))?;
    let (at2, field_1) = parse_frees(toks, at1, arena)?;
    let (at3, field_2) = parse_selbri(toks, at2, arena)?;
    let node = SeiTail(field_0, field_1, field_2);
    proof {
        lemma_is_sei_tail(node, toks@, pos as nat);
    }
    Ok((at3, node))
}

/// Parse `FreeSoi` at `pos`; see [`spec_free_soi`].
pub fn parse_free_soi<'arena>(toks: &[Token], pos: usize, arena: &'arena Arena) -> (out: Parsed<
    Free<'arena>,
>)
    requires
        pos <= toks.len(),
    ensures
        outcome(out, pos) == spec_free_soi(toks@, pos as nat),
        out matches Ok((end, node)) ==> pos < end <= toks.len() && is_free_soi(
            node,
            toks@,
            pos as nat,
        ),
    decreases toks.len() - pos, 4nat,
{
    proof {
        lemma_free_soi(toks@, pos as nat);
    }
    let (at1, field_0) = parse_word_with_free(toks, pos, arena, Selmaho::Soi)?;
    let (at2, field_1) = place(arena, parse_soi_arguments(toks, at1, arena))?;
    let (at3, field_2) = opt(at2, parse_word(toks, at2, arena, Selmaho::Sehu))?;
    let node = Free::Soi(field_0, field_1, field_2);
    proof {
        lemma_is_free_soi(node, toks@, pos as nat);
    }
    Ok((at3, node))
}

/// Parse `SoiArguments` at `pos`; see [`spec_soi_arguments`].
pub fn parse_soi_arguments<'arena>(
    toks: &[Token],
    pos: usize,
    arena: &'arena Arena,
) -> (out: Parsed<
    (Sumti<'arena>, Option<Sumti<'arena>>),
>)
    requires
        pos <= toks.len(),
    ensures
        outcome(out, pos) == spec_soi_arguments(toks@, pos as nat),
        out matches Ok((end, node)) ==> pos < end <= toks.len() && is_soi_arguments(
            node,
            toks@,
            pos as nat,
        ),
    decreases toks.len() - pos, 45nat,
{
    proof {
        lemma_soi_arguments(toks@, pos as nat);
    }
    let (at1, item_0) = parse_sumti(toks, pos, arena)?;
    let (at2, item_1) = opt(at1, parse_sumti(toks, at1, arena))?;
    let node = (item_0, item_1);
    proof {
        lemma_is_soi_arguments(node, toks@, pos as nat);
    }
    Ok((at2, node))
}

/// Parse `FreeVocative` at `pos`; see [`spec_free_vocative`].
pub fn parse_free_vocative<'arena>(
    toks: &[Token],
    pos: usize,
    arena: &'arena Arena,
) -> (out: Parsed<
    Free<'arena>,
>)
    requires
        pos <= toks.len(),
    ensures
        outcome(out, pos) == spec_free_vocative(toks@, pos as nat),
        out matches Ok((end, node)) ==> pos < end <= toks.len() && is_free_vocative(
            node,
            toks@,
            pos as nat,
        ),
    decreases toks.len() - pos, 12nat,
{
    proof {
        lemma_free_vocative(toks@, pos as nat);
    }
    let (at1, field_0) = parse_vocative(toks, pos, arena)?;
    let node = Free::Vocative(field_0);
    proof {
        lemma_is_free_vocative(node, toks@, pos as nat);
    }
    Ok((at1, node))
}

/// Parse `Vocative` at `pos`; see [`spec_vocative`].
pub fn parse_vocative<'arena>(toks: &[Token], pos: usize, arena: &'arena Arena) -> (out: Parsed<
    Vocative<'arena>,
>)
    requires
        pos <= toks.len(),
    ensures
        outcome(out, pos) == spec_vocative(toks@, pos as nat),
        out matches Ok((end, node)) ==> pos < end <= toks.len() && is_vocative(
            node,
            toks@,
            pos as nat,
        ),
    decreases toks.len() - pos, 11nat,
{
    proof {
        lemma_vocative(toks@, pos as nat);
    }
    let (at1, field_0) = parse_vocative_words(toks, pos, arena)?;
    let (at2, field_1) = opt(at1, parse_relative_clauses(toks, at1, arena))?;
    let (at3, field_2) = parse_vocative_value(toks, at2, arena)?;
    let (at4, field_3) = opt(at3, parse_relative_clauses(toks, at3, arena))?;
    let (at5, field_4) = opt(at4, parse_word(toks, at4, arena, Selmaho::Dohu))?;
    let node = Vocative(field_0, field_1, field_2, field_3, field_4);
    proof {
        lemma_is_vocative(node, toks@, pos as nat);
    }
    Ok((at5, node))
}

/// Parse `VocativeWords` at `pos`; see [`spec_vocative_words`].
pub fn parse_vocative_words<'arena>(
    toks: &[Token],
    pos: usize,
    arena: &'arena Arena,
) -> (out: Parsed<
    VocativeWords<'arena>,
>)
    requires
        pos <= toks.len(),
    ensures
        outcome(out, pos) == spec_vocative_words(toks@, pos as nat),
        out matches Ok((end, node)) ==> pos < end <= toks.len() && is_vocative_words(
            node,
            toks@,
            pos as nat,
        ),
    decreases toks.len() - pos, 6nat,
{
    proof {
        lemma_vocative_words(toks@, pos as nat);
        lemma_is_vocative_words(toks@, pos as nat);
    }
    let tried = parse_vocative_words_coi(toks, pos, arena);
    if settled(&tried) {
        return tried;
    }
    let error = error_of(tried);
    let tried = parse_vocative_words_doi(toks, pos, arena);
    if settled(&tried) {
        return tried;
    }
    let error = error.or(error_of(tried));
    Err(Failed { fatal: false, error })
}

/// Parse `VocativeWordsCoi` at `pos`; see [`spec_vocative_words_coi`].
pub fn parse_vocative_words_coi<'arena>(
    toks: &[Token],
    pos: usize,
    arena: &'arena Arena,
) -> (out: Parsed<
    VocativeWords<'arena>,
>)
    requires
        pos <= toks.len(),
    ensures
        outcome(out, pos) == spec_vocative_words_coi(toks@, pos as nat),
        out matches Ok((end, node)) ==> pos < end <= toks.len() && is_vocative_words_coi(
            node,
            toks@,
            pos as nat,
        ),
    decreases toks.len() - pos, 5nat,
{
    proof {
        lemma_vocative_words_coi(toks@, pos as nat);
    }
    let (at1, field_0) = many1_coi_nai(toks, pos, arena)?;
    let (at2, field_1) = opt(at1, parse_word(toks, at1, arena, Selmaho::Doi))?;
    let node = VocativeWords::Coi(field_0, field_1);
    proof {
        lemma_is_vocative_words_coi(node, toks@, pos as nat);
    }
    Ok((at2, node))
}

/// Parse `CoiNai` at `pos`; see [`spec_coi_nai`].
pub fn parse_coi_nai<'arena>(toks: &[Token], pos: usize, arena: &'arena Arena) -> (out: Parsed<
    (Word<'arena>, Option<Word<'arena>>),
>)
    requires
        pos <= toks.len(),
    ensures
        outcome(out, pos) == spec_coi_nai(toks@, pos as nat),
        out matches Ok((end, node)) ==> pos < end <= toks.len() && is_coi_nai(
            node,
            toks@,
            pos as nat,
        ),
    decreases toks.len() - pos, 3nat,
{
    proof {
        lemma_coi_nai(toks@, pos as nat);
    }
    let (at1, item_0) = parse_word(toks, pos, arena, Selmaho::Coi)?;
    let (at2, item_1) = opt(at1, parse_word(toks, at1, arena, Selmaho::Nai))?;
    let node = (item_0, item_1);
    proof {
        lemma_is_coi_nai(node, toks@, pos as nat);
    }
    Ok((at2, node))
}

/// Parse `CoiNai` from `pos` on as often as it matches, and at least once;
/// see [`spec_many1_coi_nai`].
pub fn many1_coi_nai<'arena>(toks: &[Token], pos: usize, arena: &'arena Arena) -> (out: Parsed<
    &'arena [(Word<'arena>, Option<Word<'arena>>)],
>)
    requires
        pos <= toks.len(),
    ensures
        outcome(out, pos) == spec_many1_coi_nai(toks@, pos as nat),
        out matches Ok((end, items)) ==> pos < end <= toks.len() && items@.len() > 0 && is_row_of_coi_nai(
            items@,
            toks@,
            pos as nat,
        ),
    decreases toks.len() - pos, 4nat,
{
    proof {
        lemma_many1_coi_nai(toks@, pos as nat);
    }
    let mut items: Vec<(Word<'arena>, Option<Word<'arena>>)> = Vec::new();
    let (first_end, first) = parse_coi_nai(toks, pos, arena)?;
    items.push(first);
    let mut at: usize = first_end;
    assert(run_of_coi_nai(toks@, pos as nat, 0) == 0);
    loop
        invariant
            pos <= at <= toks.len(),
            items@.len() > 0,
            at == pos + run_of_coi_nai(toks@, pos as nat, items@.len()),
            forall|i: int|
                #![trigger items@[i]]
                #![trigger run_of_coi_nai(toks@, pos as nat, i as nat)]
                0 <= i < items@.len() ==> spec_coi_nai(
                    toks@,
                    pos as nat + run_of_coi_nai(toks@, pos as nat, i as nat),
                ) is Matched && is_coi_nai(
                    items@[i],
                    toks@,
                    pos as nat + run_of_coi_nai(toks@, pos as nat, i as nat),
                ),
            at == pos ==> spec_coi_nai(toks@, pos as nat) == Outcome::Matched(0),
            at > pos ==> shifted(spec_many1_coi_nai_more(toks@, at as nat), (at - pos) as nat)
                == spec_many1_coi_nai(toks@, pos as nat),
            at == pos ==> spec_many1_coi_nai(toks@, pos as nat) == Outcome::Error(
                combinator_at(pos as nat, ErrorKind::Many1),
            ),
        decreases toks.len() - at,
    {
        proof {
            lemma_many1_coi_nai(toks@, at as nat);
        }
        match parse_coi_nai(toks, at, arena) {
            Ok((end, item)) => {
                if end == at {
                    return fail(Error::Combinator(ErrorKind::Many1), at);
                }
                items.push(item);
                at = end;
            },
            Err(failed) => {
                if failed.fatal {
                    return Err(failed);
                }
                proof {
                    lemma_is_row_of_coi_nai(items@, toks@, pos as nat);
                }
                return Ok((at, keep_all(arena, items)));
            },
        }
    }
}

/// Parse `VocativeWordsDoi` at `pos`; see [`spec_vocative_words_doi`].
pub fn parse_vocative_words_doi<'arena>(
    toks: &[Token],
    pos: usize,
    arena: &'arena Arena,
) -> (out: Parsed<
    VocativeWords<'arena>,
>)
    requires
        pos <= toks.len(),
    ensures
        outcome(out, pos) == spec_vocative_words_doi(toks@, pos as nat),
        out matches Ok((end, node)) ==> pos < end <= toks.len() && is_vocative_words_doi(
            node,
            toks@,
            pos as nat,
        ),
    decreases toks.len() - pos, 3nat,
{
    proof {
        lemma_vocative_words_doi(toks@, pos as nat);
    }
    let (at1, field_0) = parse_word(toks, pos, arena, Selmaho::Doi)?;
    let node = VocativeWords::Doi(field_0);
    proof {
        lemma_is_vocative_words_doi(node, toks@, pos as nat);
    }
    Ok((at1, node))
}

/// Parse `VocativeValue` at `pos`; see [`spec_vocative_value`].
pub fn parse_vocative_value<'arena>(
    toks: &[Token],
    pos: usize,
    arena: &'arena Arena,
) -> (out: Parsed<
    VocativeValue<'arena>,
>)
    requires
        pos <= toks.len(),
    ensures
        outcome(out, pos) == spec_vocative_value(toks@, pos as nat),
        out matches Ok((end, node)) ==> pos <= end <= toks.len() && is_vocative_value(
            node,
            toks@,
            pos as nat,
        ),
    decreases toks.len() - pos, 90nat,
{
    proof {
        lemma_vocative_value(toks@, pos as nat);
        lemma_is_vocative_value(toks@, pos as nat);
    }
    let tried = parse_vocative_value_selbri(toks, pos, arena);
    if settled(&tried) {
        return tried;
    }
    let error = error_of(tried);
    let tried = parse_vocative_value_cmevla(toks, pos, arena);
    if settled(&tried) {
        return tried;
    }
    let error = error.or(error_of(tried));
    let tried = parse_vocative_value_sumti(toks, pos, arena);
    if settled(&tried) {
        return tried;
    }
    let error = error.or(error_of(tried));
    Err(Failed { fatal: false, error })
}

/// Parse `VocativeValueSelbri` at `pos`; see [`spec_vocative_value_selbri`].
pub fn parse_vocative_value_selbri<'arena>(
    toks: &[Token],
    pos: usize,
    arena: &'arena Arena,
) -> (out: Parsed<
    VocativeValue<'arena>,
>)
    requires
        pos <= toks.len(),
    ensures
        outcome(out, pos) == spec_vocative_value_selbri(toks@, pos as nat),
        out matches Ok((end, node)) ==> pos < end <= toks.len() && is_vocative_value_selbri(
            node,
            toks@,
            pos as nat,
        ),
    decreases toks.len() - pos, 89nat,
{
    proof {
        lemma_vocative_value_selbri(toks@, pos as nat);
    }
    let (at1, field_0) = place(arena, parse_selbri(toks, pos, arena))?;
    let node = VocativeValue::Selbri(field_0);
    proof {
        lemma_is_vocative_value_selbri(node, toks@, pos as nat);
    }
    Ok((at1, node))
}

/// Parse `VocativeValueCmevla` at `pos`; see [`spec_vocative_value_cmevla`].
pub fn parse_vocative_value_cmevla<'arena>(
    toks: &[Token],
    pos: usize,
    arena: &'arena Arena,
) -> (out: Parsed<
    VocativeValue<'arena>,
>)
    requires
        pos <= toks.len(),
    ensures
        outcome(out, pos) == spec_vocative_value_cmevla(toks@, pos as nat),
        out matches Ok((end, node)) ==> pos < end <= toks.len() && is_vocative_value_cmevla(
            node,
            toks@,
            pos as nat,
        ),
    decreases toks.len() - pos, 4nat,
{
    proof {
        lemma_vocative_value_cmevla(toks@, pos as nat);
    }
    let (at1, field_0) = many1_word(toks, pos, arena, Selmaho::Cmevla)?;
    let node = VocativeValue::Cmevla(field_0);
    proof {
        lemma_is_vocative_value_cmevla(node, toks@, pos as nat);
    }
    Ok((at1, node))
}

/// Parse `VocativeValueSumti` at `pos`; see [`spec_vocative_value_sumti`].
pub fn parse_vocative_value_sumti<'arena>(
    toks: &[Token],
    pos: usize,
    arena: &'arena Arena,
) -> (out: Parsed<
    VocativeValue<'arena>,
>)
    requires
        pos <= toks.len(),
    ensures
        outcome(out, pos) == spec_vocative_value_sumti(toks@, pos as nat),
        out matches Ok((end, node)) ==> pos <= end <= toks.len() && is_vocative_value_sumti(
            node,
            toks@,
            pos as nat,
        ),
    decreases toks.len() - pos, 45nat,
{
    proof {
        lemma_vocative_value_sumti(toks@, pos as nat);
    }
    let (at1, field_0) = opt(pos, place(arena, parse_sumti(toks, pos, arena)))?;
    let node = VocativeValue::Sumti(field_0);
    proof {
        lemma_is_vocative_value_sumti(node, toks@, pos as nat);
    }
    Ok((at1, node))
}

/// Parse `FreeMai` at `pos`; see [`spec_free_mai`].
pub fn parse_free_mai<'arena>(toks: &[Token], pos: usize, arena: &'arena Arena) -> (out: Parsed<
    Free<'arena>,
>)
    requires
        pos <= toks.len(),
    ensures
        outcome(out, pos) == spec_free_mai(toks@, pos as nat),
        out matches Ok((end, node)) ==> pos < end <= toks.len() && is_free_mai(
            node,
            toks@,
            pos as nat,
        ),
    decreases toks.len() - pos, 17nat,
{
    proof {
        lemma_free_mai(toks@, pos as nat);
    }
    let (at1, field_0) = parse_misc_numbers(toks, pos, arena)?;
    let (at2, field_1) = parse_word(toks, at1, arena, Selmaho::Mai)?;
    let node = Free::Mai(field_0, field_1);
    proof {
        lemma_is_free_mai(node, toks@, pos as nat);
    }
    Ok((at2, node))
}

/// Parse `FreeTo` at `pos`; see [`spec_free_to`].
pub fn parse_free_to<'arena>(toks: &[Token], pos: usize, arena: &'arena Arena) -> (out: Parsed<
    Free<'arena>,
>)
    requires
        pos <= toks.len(),
    ensures
        outcome(out, pos) == spec_free_to(toks@, pos as nat),
        out matches Ok((end, node)) ==> pos < end <= toks.len() && is_free_to(
            node,
            toks@,
            pos as nat,
        ),
    decreases toks.len() - pos, 3nat,
{
    proof {
        lemma_free_to(toks@, pos as nat);
    }
    let (at1, field_0) = parse_word(toks, pos, arena, Selmaho::To)?;
    let (at2, field_1) = parse_text(toks, at1, arena)?;
    let (at3, field_2) = opt(at2, parse_word(toks, at2, arena, Selmaho::Toi))?;
    let node = Free::To(field_0, field_1, field_2);
    proof {
        lemma_is_free_to(node, toks@, pos as nat);
    }
    Ok((at3, node))
}

/// Parse `FreeXi` at `pos`; see [`spec_free_xi`].
pub fn parse_free_xi<'arena>(toks: &[Token], pos: usize, arena: &'arena Arena) -> (out: Parsed<
    Free<'arena>,
>)
    requires
        pos <= toks.len(),
    ensures
        outcome(out, pos) == spec_free_xi(toks@, pos as nat),
        out matches Ok((end, node)) ==> pos < end <= toks.len() && is_free_xi(
            node,
            toks@,
            pos as nat,
        ),
    decreases toks.len() - pos, 21nat,
{
    proof {
        lemma_free_xi(toks@, pos as nat);
    }
    let (at1, field_0) = parse_subscript(toks, pos, arena)?;
    let node = Free::Xi(field_0);
    proof {
        lemma_is_free_xi(node, toks@, pos as nat);
    }
    Ok((at1, node))
}

/// Parse `Subscript` at `pos`; see [`spec_subscript`].
pub fn parse_subscript<'arena>(toks: &[Token], pos: usize, arena: &'arena Arena) -> (out: Parsed<
    Subscript<'arena>,
>)
    requires
        pos <= toks.len(),
    ensures
        outcome(out, pos) == spec_subscript(toks@, pos as nat),
        out matches Ok((end, node)) ==> pos < end <= toks.len() && is_subscript(
            node,
            toks@,
            pos as nat,
        ),
    decreases toks.len() - pos, 20nat,
{
    proof {
        lemma_subscript(toks@, pos as nat);
    }
    let (at1, field_0) = parse_word_with_free(toks, pos, arena, Selmaho::Xi)?;
    let (at2, field_1) = parse_subscript_value_with_free(toks, at1, arena)?;
    let node = Subscript(field_0, field_1);
    proof {
        lemma_is_subscript(node, toks@, pos as nat);
    }
    Ok((at2, node))
}

/// Parse `SubscriptValueWithFree` at `pos`; see [`spec_subscript_value_with_free`].
pub fn parse_subscript_value_with_free<'arena>(
    toks: &[Token],
    pos: usize,
    arena: &'arena Arena,
) -> (out: Parsed<
    WithFree<'arena, SubscriptValue<'arena>>,
>)
    requires
        pos <= toks.len(),
    ensures
        outcome(out, pos) == spec_subscript_value_with_free(toks@, pos as nat),
        out matches Ok((end, node)) ==> pos < end <= toks.len() && is_subscript_value_with_free(
            node,
            toks@,
            pos as nat,
        ),
    decreases toks.len() - pos, 19nat,
{
    proof {
        lemma_subscript_value_with_free(toks@, pos as nat);
    }
    let (at1, inner) = parse_subscript_value(toks, pos, arena)?;
    let (at2, frees) = parse_frees(toks, at1, arena)?;
    let node = WithFree { inner, frees };
    proof {
        lemma_is_subscript_value_with_free(node, toks@, pos as nat);
    }
    Ok((at2, node))
}

/// Parse `SubscriptValue` at `pos`; see [`spec_subscript_value`].
pub fn parse_subscript_value<'arena>(
    toks: &[Token],
    pos: usize,
    arena: &'arena Arena,
) -> (out: Parsed<
    SubscriptValue<'arena>,
>)
    requires
        pos <= toks.len(),
    ensures
        outcome(out, pos) == spec_subscript_value(toks@, pos as nat),
        out matches Ok((end, node)) ==> pos < end <= toks.len() && is_subscript_value(
            node,
            toks@,
            pos as nat,
        ),
    decreases toks.len() - pos, 18nat,
{
    proof {
        lemma_subscript_value(toks@, pos as nat);
        lemma_is_subscript_value(toks@, pos as nat);
    }
    let tried = parse_subscript_value_mekso(toks, pos, arena);
    if settled(&tried) {
        return tried;
    }
    let error = error_of(tried);
    let tried = parse_subscript_value_number(toks, pos, arena);
    if settled(&tried) {
        return tried;
    }
    let error = error.or(error_of(tried));
    Err(Failed { fatal: false, error })
}

/// Parse `SubscriptValueMekso` at `pos`; see [`spec_subscript_value_mekso`].
pub fn parse_subscript_value_mekso<'arena>(
    toks: &[Token],
    pos: usize,
    arena: &'arena Arena,
) -> (out: Parsed<
    SubscriptValue<'arena>,
>)
    requires
        pos <= toks.len(),
    ensures
        outcome(out, pos) == spec_subscript_value_mekso(toks@, pos as nat),
        out matches Ok((end, node)) ==> pos < end <= toks.len() && is_subscript_value_mekso(
            node,
            toks@,
            pos as nat,
        ),
    decreases toks.len() - pos, 4nat,
{
    proof {
        lemma_subscript_value_mekso(toks@, pos as nat);
    }
    let (at1, field_0) = parse_word_with_free(toks, pos, arena, Selmaho::Vei)?;
    let (at2, field_1) = parse_expression(toks, at1, arena)?;
    let (at3, field_2) = opt(at2, parse_word(toks, at2, arena, Selmaho::Veho))?;
    let (at4, field_3) = parse_frees(toks, at3, arena)?;
    let node = SubscriptValue::Mekso(field_0, field_1, field_2, field_3);
    proof {
        lemma_is_subscript_value_mekso(node, toks@, pos as nat);
    }
    Ok((at4, node))
}

/// Parse `SubscriptValueNumber` at `pos`; see [`spec_subscript_value_number`].
pub fn parse_subscript_value_number<'arena>(
    toks: &[Token],
    pos: usize,
    arena: &'arena Arena,
) -> (out: Parsed<
    SubscriptValue<'arena>,
>)
    requires
        pos <= toks.len(),
    ensures
        outcome(out, pos) == spec_subscript_value_number(toks@, pos as nat),
        out matches Ok((end, node)) ==> pos < end <= toks.len() && is_subscript_value_number(
            node,
            toks@,
            pos as nat,
        ),
    decreases toks.len() - pos, 17nat,
{
    proof {
        lemma_subscript_value_number(toks@, pos as nat);
    }
    let (at1, field_0) = parse_misc_numbers(toks, pos, arena)?;
    not(at1, parse_word(toks, at1, arena, Selmaho::Moi))?;
    let (at2, field_1) = opt(at1, parse_word(toks, at1, arena, Selmaho::Boi))?;
    let (at3, field_2) = parse_frees(toks, at2, arena)?;
    let node = SubscriptValue::Number(field_0, field_1, field_2);
    proof {
        lemma_is_subscript_value_number(node, toks@, pos as nat);
    }
    Ok((at3, node))
}

/// Parse `ParagraphSeparator` at `pos`; see [`spec_paragraph_separator`].
pub fn parse_paragraph_separator<'arena>(
    toks: &[Token],
    pos: usize,
    arena: &'arena Arena,
) -> (out: Parsed<
    ParagraphSeparator<'arena>,
>)
    requires
        pos <= toks.len(),
    ensures
        outcome(out, pos) == spec_paragraph_separator(toks@, pos as nat),
        out matches Ok((end, node)) ==> pos < end <= toks.len() && is_paragraph_separator(
            node,
            toks@,
            pos as nat,
        ),
    decreases toks.len() - pos, 25nat,
{
    proof {
        lemma_paragraph_separator(toks@, pos as nat);
    }
    let (at1, field_0) = many1_word(toks, pos, arena, Selmaho::Niho)?;
    let (at2, field_1) = parse_frees(toks, at1, arena)?;
    let node = ParagraphSeparator(field_0, field_1);
    proof {
        lemma_is_paragraph_separator(node, toks@, pos as nat);
    }
    Ok((at2, node))
}

/// Parse `Paragraphs` at `pos`; see [`spec_paragraphs`].
pub fn parse_paragraphs<'arena>(toks: &[Token], pos: usize, arena: &'arena Arena) -> (out: Parsed<
    Paragraphs<'arena>,
>)
    requires
        pos <= toks.len(),
    ensures
        outcome(out, pos) == spec_paragraphs(toks@, pos as nat),
        out matches Ok((end, node)) ==> pos <= end <= toks.len() && is_paragraphs(
            node,
            toks@,
            pos as nat,
        ),
    decreases toks.len() - pos, 120nat,
{
    proof {
        lemma_paragraphs(toks@, pos as nat);
    }
    let (at1, field_0) = parse_paragraph_list(toks, pos, arena)?;
    let node = Paragraphs(field_0);
    proof {
        lemma_is_paragraphs(node, toks@, pos as nat);
    }
    Ok((at1, node))
}

/// Parse `ParagraphList` at `pos`; see [`spec_paragraph_list`].
pub fn parse_paragraph_list<'arena>(
    toks: &[Token],
    pos: usize,
    arena: &'arena Arena,
) -> (out: Parsed<
    Separated<'arena, Paragraph<'arena>, ParagraphSeparator<'arena>>,
>)
    requires
        pos <= toks.len(),
    ensures
        outcome(out, pos) == spec_paragraph_list(toks@, pos as nat),
        out matches Ok((end, node)) ==> pos <= end <= toks.len() && is_paragraph_list(
            node,
            toks@,
            pos as nat,
        ),
    decreases toks.len() - pos, 119nat,
{
    proof {
        lemma_paragraph_list(toks@, pos as nat);
    }
    let (at1, first) = place(arena, parse_paragraph(toks, pos, arena))?;
    let (at2, rest) = many0_paragraph_list_next(toks, at1, arena)?;
    let node = Separated { first, rest };
    proof {
        lemma_is_paragraph_list(node, toks@, pos as nat);
    }
    Ok((at2, node))
}

/// Parse `Paragraph` at `pos`; see [`spec_paragraph`].
pub fn parse_paragraph<'arena>(toks: &[Token], pos: usize, arena: &'arena Arena) -> (out: Parsed<
    Paragraph<'arena>,
>)
    requires
        pos <= toks.len(),
    ensures
        outcome(out, pos) == spec_paragraph(toks@, pos as nat),
        out matches Ok((end, node)) ==> pos <= end <= toks.len() && is_paragraph(
            node,
            toks@,
            pos as nat,
        ),
    decreases toks.len() - pos, 116nat,
{
    proof {
        lemma_paragraph(toks@, pos as nat);
    }
    let (at1, initial_sentence_separator) = opt(pos, parse_sentence_separator(toks, pos, arena))?;
    let (at2, sentences) = parse_paragraph_items(toks, at1, arena)?;
    let node = Paragraph { initial_sentence_separator, sentences };
    proof {
        lemma_is_paragraph(node, toks@, pos as nat);
    }
    Ok((at2, node))
}

/// Parse `SentenceSeparator` at `pos`; see [`spec_sentence_separator`].
pub fn parse_sentence_separator<'arena>(
    toks: &[Token],
    pos: usize,
    arena: &'arena Arena,
) -> (out: Parsed<
    SentenceSeparator<'arena>,
>)
    requires
        pos <= toks.len(),
    ensures
        outcome(out, pos) == spec_sentence_separator(toks@, pos as nat),
        out matches Ok((end, node)) ==> pos < end <= toks.len() && is_sentence_separator(
            node,
            toks@,
            pos as nat,
        ),
    decreases toks.len() - pos, 25nat,
{
    proof {
        lemma_sentence_separator(toks@, pos as nat);
    }
    let (at1, field_0) = parse_word(toks, pos, arena, Selmaho::I)?;
    not(at1, parse_bu(toks, at1, arena))?;
    let (at2, field_1) = parse_frees(toks, at1, arena)?;
    let node = SentenceSeparator(field_0, field_1);
    proof {
        lemma_is_sentence_separator(node, toks@, pos as nat);
    }
    Ok((at2, node))
}

/// Parse `ParagraphItems` at `pos`; see [`spec_paragraph_items`].
pub fn parse_paragraph_items<'arena>(
    toks: &[Token],
    pos: usize,
    arena: &'arena Arena,
) -> (out: Parsed<
    Separated<'arena, ParagraphItem<'arena>, SentenceSeparator<'arena>>,
>)
    requires
        pos <= toks.len(),
    ensures
        outcome(out, pos) == spec_paragraph_items(toks@, pos as nat),
        out matches Ok((end, node)) ==> pos <= end <= toks.len() && is_paragraph_items(
            node,
            toks@,
            pos as nat,
        ),
    decreases toks.len() - pos, 115nat,
{
    proof {
        lemma_paragraph_items(toks@, pos as nat);
    }
    let (at1, first) = place(arena, parse_paragraph_item(toks, pos, arena))?;
    let (at2, rest) = many0_paragraph_items_next(toks, at1, arena)?;
    let node = Separated { first, rest };
    proof {
        lemma_is_paragraph_items(node, toks@, pos as nat);
    }
    Ok((at2, node))
}

/// Parse `ParagraphItem` at `pos`; see [`spec_paragraph_item`].
pub fn parse_paragraph_item<'arena>(
    toks: &[Token],
    pos: usize,
    arena: &'arena Arena,
) -> (out: Parsed<
    ParagraphItem<'arena>,
>)
    requires
        pos <= toks.len(),
    ensures
        outcome(out, pos) == spec_paragraph_item(toks@, pos as nat),
        out matches Ok((end, node)) ==> pos <= end <= toks.len() && is_paragraph_item(
            node,
            toks@,
            pos as nat,
        ),
    decreases toks.len() - pos, 112nat,
{
    proof {
        lemma_paragraph_item(toks@, pos as nat);
        lemma_is_paragraph_item(toks@, pos as nat);
    }
    let tried = parse_paragraph_item_sentences(toks, pos, arena);
    if settled(&tried) {
        return tried;
    }
    let error = error_of(tried);
    let tried = parse_paragraph_item_fragment(toks, pos, arena);
    if settled(&tried) {
        return tried;
    }
    let error = error.or(error_of(tried));
    let tried = parse_paragraph_item_empty(toks, pos, arena);
    if settled(&tried) {
        return tried;
    }
    let error = error.or(error_of(tried));
    Err(Failed { fatal: false, error })
}

/// Parse `ParagraphItemSentences` at `pos`; see [`spec_paragraph_item_sentences`].
pub fn parse_paragraph_item_sentences<'arena>(
    toks: &[Token],
    pos: usize,
    arena: &'arena Arena,
) -> (out: Parsed<
    ParagraphItem<'arena>,
>)
    requires
        pos <= toks.len(),
    ensures
        outcome(out, pos) == spec_paragraph_item_sentences(toks@, pos as nat),
        out matches Ok((end, node)) ==> pos < end <= toks.len() && is_paragraph_item_sentences(
            node,
            toks@,
            pos as nat,
        ),
    decreases toks.len() - pos, 111nat,
{
    proof {
        lemma_paragraph_item_sentences(toks@, pos as nat);
    }
    let (at1, field_0) = parse_sentences_1(toks, pos, arena)?;
    if at1 == pos {
        return fail(Error::Empty("ParagraphItem::Sentences"), pos);
    }
    let node = ParagraphItem::Sentences(field_0);
    proof {
        lemma_is_paragraph_item_sentences(node, toks@, pos as nat);
    }
    Ok((at1, node))
}

/// Parse `Sentences1` at `pos`; see [`spec_sentences_1`].
pub fn parse_sentences_1<'arena>(
    toks: &[Token],
    pos: usize,
    arena: &'arena Arena,
) -> (out: Parsed<
    Sentences1<'arena>,
>)
    requires
        pos <= toks.len(),
    ensures
        outcome(out, pos) == spec_sentences_1(toks@, pos as nat),
        out matches Ok((end, node)) ==> pos <= end <= toks.len() && is_sentences_1(
            node,
            toks@,
            pos as nat,
        ),
    decreases toks.len() - pos, 110nat,
{
    proof {
        lemma_sentences_1(toks@, pos as nat);
    }
    let (at1, field_0) = many0_prenex(toks, pos, arena)?;
    let (at2, field_1) = parse_sentences_2_list(toks, at1, arena)?;
    let node = Sentences1(field_0, field_1);
    proof {
        lemma_is_sentences_1(node, toks@, pos as nat);
    }
    Ok((at2, node))
}

/// Parse `Sentences2List` at `pos`; see [`spec_sentences_2_list`].
pub fn parse_sentences_2_list<'arena>(
    toks: &[Token],
    pos: usize,
    arena: &'arena Arena,
) -> (out: Parsed<
    Separated<'arena, Sentences2<'arena>, ConnectedSentenceSeparator<'arena>>,
>)
    requires
        pos <= toks.len(),
    ensures
        outcome(out, pos) == spec_sentences_2_list(toks@, pos as nat),
        out matches Ok((end, node)) ==> pos <= end <= toks.len() && is_sentences_2_list(
            node,
            toks@,
            pos as nat,
        ),
    decreases toks.len() - pos, 109nat,
{
    proof {
        lemma_sentences_2_list(toks@, pos as nat);
    }
    let (at1, first) = place(arena, parse_sentences_2(toks, pos, arena))?;
    let (at2, rest) = many0_sentences_2_list_next(toks, at1, arena)?;
    let node = Separated { first, rest };
    proof {
        lemma_is_sentences_2_list(node, toks@, pos as nat);
    }
    Ok((at2, node))
}

/// Parse `Sentences2` at `pos`; see [`spec_sentences_2`].
pub fn parse_sentences_2<'arena>(
    toks: &[Token],
    pos: usize,
    arena: &'arena Arena,
) -> (out: Parsed<
    Separated<'arena, Sentences3<'arena>, CloseSentenceSeparator<'arena>>,
>)
    requires
        pos <= toks.len(),
    ensures
        outcome(out, pos) == spec_sentences_2(toks@, pos as nat),
        out matches Ok((end, node)) ==> pos <= end <= toks.len() && is_sentences_2(
            node,
            toks@,
            pos as nat,
        ),
    decreases toks.len() - pos, 106nat,
{
    proof {
        lemma_sentences_2(toks@, pos as nat);
    }
    let (at1, first) = place(arena, parse_sentences_3(toks, pos, arena))?;
    let (at2, rest) = many0_sentences_2_next(toks, at1, arena)?;
    let node = Separated { first, rest };
    proof {
        lemma_is_sentences_2(node, toks@, pos as nat);
    }
    Ok((at2, node))
}

/// Parse `Sentences3` at `pos`; see [`spec_sentences_3`].
pub fn parse_sentences_3<'arena>(
    toks: &[Token],
    pos: usize,
    arena: &'arena Arena,
) -> (out: Parsed<
    Sentences3<'arena>,
>)
    requires
        pos <= toks.len(),
    ensures
        outcome(out, pos) == spec_sentences_3(toks@, pos as nat),
        out matches Ok((end, node)) ==> pos <= end <= toks.len() && is_sentences_3(
            node,
            toks@,
            pos as nat,
        ),
    decreases toks.len() - pos, 103nat,
{
    proof {
        lemma_sentences_3(toks@, pos as nat);
        lemma_is_sentences_3(toks@, pos as nat);
    }
    let tried = parse_sentences_3_grouped(toks, pos, arena);
    if settled(&tried) {
        return tried;
    }
    let error = error_of(tried);
    let tried = parse_sentences_3_single(toks, pos, arena);
    if settled(&tried) {
        return tried;
    }
    let error = error.or(error_of(tried));
    Err(Failed { fatal: false, error })
}

/// Parse `Sentences3Grouped` at `pos`; see [`spec_sentences_3_grouped`].
pub fn parse_sentences_3_grouped<'arena>(
    toks: &[Token],
    pos: usize,
    arena: &'arena Arena,
) -> (out: Parsed<
    Sentences3<'arena>,
>)
    requires
        pos <= toks.len(),
    ensures
        outcome(out, pos) == spec_sentences_3_grouped(toks@, pos as nat),
        out matches Ok((end, node)) ==> pos < end <= toks.len() && is_sentences_3_grouped(
            node,
            toks@,
            pos as nat,
        ),
    decreases toks.len() - pos, 32nat,
{
    proof {
        lemma_sentences_3_grouped(toks@, pos as nat);
    }
    let (at1, field_0) = opt(pos, parse_tag_words(toks, pos, arena))?;
    let (at2, field_1) = parse_word_with_free(toks, at1, arena, Selmaho::Tuhe)?;
    let (at3, field_2) = parse_paragraphs(toks, at2, arena)?;
    let (at4, field_3) = opt(at3, parse_word(toks, at3, arena, Selmaho::Tuhu))?;
    let (at5, field_4) = parse_frees(toks, at4, arena)?;
    let node = Sentences3::Grouped(field_0, field_1, field_2, field_3, field_4);
    proof {
        lemma_is_sentences_3_grouped(node, toks@, pos as nat);
    }
    Ok((at5, node))
}

/// Parse `Sentences3Single` at `pos`; see [`spec_sentences_3_single`].
pub fn parse_sentences_3_single<'arena>(
    toks: &[Token],
    pos: usize,
    arena: &'arena Arena,
) -> (out: Parsed<
    Sentences3<'arena>,
>)
    requires
        pos <= toks.len(),
    ensures
        outcome(out, pos) == spec_sentences_3_single(toks@, pos as nat),
        out matches Ok((end, node)) ==> pos <= end <= toks.len() && is_sentences_3_single(
            node,
            toks@,
            pos as nat,
        ),
    decreases toks.len() - pos, 102nat,
{
    proof {
        lemma_sentences_3_single(toks@, pos as nat);
    }
    let (at1, field_0) = place(arena, parse_sentence(toks, pos, arena))?;
    let node = Sentences3::Single(field_0);
    proof {
        lemma_is_sentences_3_single(node, toks@, pos as nat);
    }
    Ok((at1, node))
}

/// Parse `Sentence` at `pos`; see [`spec_sentence`].
pub fn parse_sentence<'arena>(toks: &[Token], pos: usize, arena: &'arena Arena) -> (out: Parsed<
    Sentence<'arena>,
>)
    requires
        pos <= toks.len(),
    ensures
        outcome(out, pos) == spec_sentence(toks@, pos as nat),
        out matches Ok((end, node)) ==> pos <= end <= toks.len() && is_sentence(
            node,
            toks@,
            pos as nat,
        ),
    decreases toks.len() - pos, 101nat,
{
    proof {
        lemma_sentence(toks@, pos as nat);
    }
    let (at1, before_args) = parse_args(toks, pos, arena)?;
    let (at2, tail) = opt(at1, parse_sentence_tail(toks, at1, arena))?;
    let node = Sentence { before_args, tail };
    proof {
        lemma_is_sentence(node, toks@, pos as nat);
    }
    Ok((at2, node))
}

/// Parse `Sentences2Next` at `pos`; see [`spec_sentences_2_next`].
pub fn parse_sentences_2_next<'arena>(
    toks: &[Token],
    pos: usize,
    arena: &'arena Arena,
) -> (out: Parsed<
    (CloseSentenceSeparator<'arena>, Sentences3<'arena>),
>)
    requires
        pos <= toks.len(),
    ensures
        outcome(out, pos) == spec_sentences_2_next(toks@, pos as nat),
        out matches Ok((end, node)) ==> pos < end <= toks.len() && is_sentences_2_next(
            node,
            toks@,
            pos as nat,
        ),
    decreases toks.len() - pos, 104nat,
{
    proof {
        lemma_sentences_2_next(toks@, pos as nat);
    }
    let (at1, item_0) = parse_close_sentence_separator(toks, pos, arena)?;
    let (at2, item_1) = parse_sentences_3(toks, at1, arena)?;
    let node = (item_0, item_1);
    proof {
        lemma_is_sentences_2_next(node, toks@, pos as nat);
    }
    Ok((at2, node))
}

/// Parse `Sentences2Next` from `pos` on as often as it matches; see [`spec_many0_sentences_2_next`].
pub fn many0_sentences_2_next<'arena>(
    toks: &[Token],
    pos: usize,
    arena: &'arena Arena,
) -> (out: Parsed<
    &'arena [(CloseSentenceSeparator<'arena>, Sentences3<'arena>)],
>)
    requires
        pos <= toks.len(),
    ensures
        outcome(out, pos) == spec_many0_sentences_2_next(toks@, pos as nat),
        out matches Ok((end, items)) ==> pos <= end <= toks.len() && (items@.len() == 0 <==> end
            == pos) && is_row_of_sentences_2_next(items@, toks@, pos as nat),
    decreases toks.len() - pos, 105nat,
{
    let mut items: Vec<(CloseSentenceSeparator<'arena>, Sentences3<'arena>)> = Vec::new();
    let mut at: usize = pos;
    loop
        invariant
            pos <= at <= toks.len(),
            items@.len() == 0 <==> at == pos,
            at == pos + run_of_sentences_2_next(toks@, pos as nat, items@.len()),
            forall|i: int|
                #![trigger items@[i]]
                #![trigger run_of_sentences_2_next(toks@, pos as nat, i as nat)]
                0 <= i < items@.len() ==> spec_sentences_2_next(
                    toks@,
                    pos as nat + run_of_sentences_2_next(toks@, pos as nat, i as nat),
                ) is Matched && is_sentences_2_next(
                    items@[i],
                    toks@,
                    pos as nat + run_of_sentences_2_next(toks@, pos as nat, i as nat),
                ),
            shifted(
                spec_many0_sentences_2_next(toks@, at as nat),
                (at - pos) as nat,
            ) == spec_many0_sentences_2_next(
                toks@,
                pos as nat,
            ),
        decreases toks.len() - at,
    {
        proof {
            lemma_many0_sentences_2_next(toks@, at as nat);
        }
        match parse_sentences_2_next(toks, at, arena) {
            Ok((end, item)) => {
                if end == at {
                    return fail(Error::Combinator(ErrorKind::Many0), at);
                }
                items.push(item);
                at = end;
            },
            Err(failed) => {
                if failed.fatal {
                    return Err(failed);
                }
                proof {
                    lemma_is_row_of_sentences_2_next(items@, toks@, pos as nat);
                }
                return Ok((at, keep_all(arena, items)));
            },
        }
    }
}

/// Parse `CloseSentenceSeparator` at `pos`; see [`spec_close_sentence_separator`].
pub fn parse_close_sentence_separator<'arena>(
    toks: &[Token],
    pos: usize,
    arena: &'arena Arena,
) -> (out: Parsed<
    CloseSentenceSeparator<'arena>,
>)
    requires
        pos <= toks.len(),
    ensures
        outcome(out, pos) == spec_close_sentence_separator(toks@, pos as nat),
        out matches Ok((end, node)) ==> pos < end <= toks.len() && is_close_sentence_separator(
            node,
            toks@,
            pos as nat,
        ),
    decreases toks.len() - pos, 32nat,
{
    proof {
        lemma_close_sentence_separator(toks@, pos as nat);
    }
    let (at1, field_0) = parse_word(toks, pos, arena, Selmaho::I)?;
    let (at2, field_1) = opt(at1, parse_joik_jek(toks, at1, arena))?;
    let (at3, field_2) = opt(at2, parse_tag_words(toks, at2, arena))?;
    let (at4, field_3) = parse_word(toks, at3, arena, Selmaho::Bo)?;
    let (at5, field_4) = parse_frees(toks, at4, arena)?;
    let node = CloseSentenceSeparator(field_0, field_1, field_2, field_3, field_4);
    proof {
        lemma_is_close_sentence_separator(node, toks@, pos as nat);
    }
    Ok((at5, node))
}

/// Parse `Sentences2ListNext` at `pos`; see [`spec_sentences_2_list_next`].
pub fn parse_sentences_2_list_next<'arena>(
    toks: &[Token],
    pos: usize,
    arena: &'arena Arena,
) -> (out: Parsed<
    (ConnectedSentenceSeparator<'arena>, Sentences2<'arena>),
>)
    requires
        pos <= toks.len(),
    ensures
        outcome(out, pos) == spec_sentences_2_list_next(toks@, pos as nat),
        out matches Ok((end, node)) ==> pos < end <= toks.len() && is_sentences_2_list_next(
            node,
            toks@,
            pos as nat,
        ),
    decreases toks.len() - pos, 107nat,
{
    proof {
        lemma_sentences_2_list_next(toks@, pos as nat);
    }
    let (at1, item_0) = parse_connected_sentence_separator(toks, pos, arena)?;
    let (at2, item_1) = parse_sentences_2(toks, at1, arena)?;
    let node = (item_0, item_1);
    proof {
        lemma_is_sentences_2_list_next(node, toks@, pos as nat);
    }
    Ok((at2, node))
}

/// Parse `Sentences2ListNext` from `pos` on as often as it matches; see [`spec_many0_sentences_2_list_next`].
pub fn many0_sentences_2_list_next<'arena>(
    toks: &[Token],
    pos: usize,
    arena: &'arena Arena,
) -> (out: Parsed<
    &'arena [(ConnectedSentenceSeparator<'arena>, Sentences2<'arena>)],
>)
    requires
        pos <= toks.len(),
    ensures
        outcome(out, pos) == spec_many0_sentences_2_list_next(toks@, pos as nat),
        out matches Ok((end, items)) ==> pos <= end <= toks.len() && (items@.len() == 0 <==> end
            == pos) && is_row_of_sentences_2_list_next(items@, toks@, pos as nat),
    decreases toks.len() - pos, 108nat,
{
    let mut items: Vec<(ConnectedSentenceSeparator<'arena>, Sentences2<'arena>)> = Vec::new();
    let mut at: usize = pos;
    loop
        invariant
            pos <= at <= toks.len(),
            items@.len() == 0 <==> at == pos,
            at == pos + run_of_sentences_2_list_next(toks@, pos as nat, items@.len()),
            forall|i: int|
                #![trigger items@[i]]
                #![trigger run_of_sentences_2_list_next(toks@, pos as nat, i as nat)]
                0 <= i < items@.len() ==> spec_sentences_2_list_next(
                    toks@,
                    pos as nat + run_of_sentences_2_list_next(toks@, pos as nat, i as nat),
                ) is Matched && is_sentences_2_list_next(
                    items@[i],
                    toks@,
                    pos as nat + run_of_sentences_2_list_next(toks@, pos as nat, i as nat),
                ),
            shifted(
                spec_many0_sentences_2_list_next(toks@, at as nat),
                (at - pos) as nat,
            ) == spec_many0_sentences_2_list_next(
                toks@,
                pos as nat,
            ),
        decreases toks.len() - at,
    {
        proof {
            lemma_many0_sentences_2_list_next(toks@, at as nat);
        }
        match parse_sentences_2_list_next(toks, at, arena) {
            Ok((end, item)) => {
                if end == at {
                    return fail(Error::Combinator(ErrorKind::Many0), at);
                }
                items.push(item);
                at = end;
            },
            Err(failed) => {
                if failed.fatal {
                    return Err(failed);
                }
                proof {
                    lemma_is_row_of_sentences_2_list_next(items@, toks@, pos as nat);
                }
                return Ok((at, keep_all(arena, items)));
            },
        }
    }
}

/// Parse `ConnectedSentenceSeparator` at `pos`; see [`spec_connected_sentence_separator`].
pub fn parse_connected_sentence_separator<'arena>(
    toks: &[Token],
    pos: usize,
    arena: &'arena Arena,
) -> (out: Parsed<
    ConnectedSentenceSeparator<'arena>,
>)
    requires
        pos <= toks.len(),
    ensures
        outcome(out, pos) == spec_connected_sentence_separator(toks@, pos as nat),
        out matches Ok((end, node)) ==> pos < end <= toks.len() && is_connected_sentence_separator(
            node,
            toks@,
            pos as nat,
        ),
    decreases toks.len() - pos, 25nat,
{
    proof {
        lemma_connected_sentence_separator(toks@, pos as nat);
    }
    let (at1, field_0) = parse_word(toks, pos, arena, Selmaho::I)?;
    let (at2, field_1) = parse_joik_jek(toks, at1, arena)?;
    let (at3, field_2) = parse_frees(toks, at2, arena)?;
    let node = ConnectedSentenceSeparator(field_0, field_1, field_2);
    proof {
        lemma_is_connected_sentence_separator(node, toks@, pos as nat);
    }
    Ok((at3, node))
}

/// Parse `ParagraphItemFragment` at `pos`; see [`spec_paragraph_item_fragment`].
pub fn parse_paragraph_item_fragment<'arena>(
    toks: &[Token],
    pos: usize,
    arena: &'arena Arena,
) -> (out: Parsed<
    ParagraphItem<'arena>,
>)
    requires
        pos <= toks.len(),
    ensures
        outcome(out, pos) == spec_paragraph_item_fragment(toks@, pos as nat),
        out matches Ok((end, node)) ==> pos < end <= toks.len() && is_paragraph_item_fragment(
            node,
            toks@,
            pos as nat,
        ),
    decreases toks.len() - pos, 29nat,
{
    proof {
        lemma_paragraph_item_fragment(toks@, pos as nat);
    }
    let (at1, field_0) = place(arena, parse_fragment(toks, pos, arena))?;
    let node = ParagraphItem::Fragment(field_0);
    proof {
        lemma_is_paragraph_item_fragment(node, toks@, pos as nat);
    }
    Ok((at1, node))
}

/// Parse `Fragment` at `pos`; see [`spec_fragment`].
pub fn parse_fragment<'arena>(toks: &[Token], pos: usize, arena: &'arena Arena) -> (out: Parsed<
    Fragment<'arena>,
>)
    requires
        pos <= toks.len(),
    ensures
        outcome(out, pos) == spec_fragment(toks@, pos as nat),
        out matches Ok((end, node)) ==> pos < end <= toks.len() && is_fragment(
            node,
            toks@,
            pos as nat,
        ),
    decreases toks.len() - pos, 28nat,
{
    proof {
        lemma_fragment(toks@, pos as nat);
        lemma_is_fragment(toks@, pos as nat);
    }
    let tried = parse_fragment_ek(toks, pos, arena);
    if settled(&tried) {
        return tried;
    }
    let error = error_of(tried);
    let tried = parse_fragment_jek(toks, pos, arena);
    if settled(&tried) {
        return tried;
    }
    let error = error.or(error_of(tried));
    let tried = parse_fragment_joik(toks, pos, arena);
    if settled(&tried) {
        return tried;
    }
    let error = error.or(error_of(tried));
    let tried = parse_fragment_gihek(toks, pos, arena);
    if settled(&tried) {
        return tried;
    }
    let error = error.or(error_of(tried));
    let tried = parse_fragment_number(toks, pos, arena);
    if settled(&tried) {
        return tried;
    }
    let error = error.or(error_of(tried));
    let tried = parse_fragment_na(toks, pos, arena);
    if settled(&tried) {
        return tried;
    }
    let error = error.or(error_of(tried));
    Err(Failed { fatal: false, error })
}

/// Parse `FragmentEk` at `pos`; see [`spec_fragment_ek`].
pub fn parse_fragment_ek<'arena>(
    toks: &[Token],
    pos: usize,
    arena: &'arena Arena,
) -> (out: Parsed<
    Fragment<'arena>,
>)
    requires
        pos <= toks.len(),
    ensures
        outcome(out, pos) == spec_fragment_ek(toks@, pos as nat),
        out matches Ok((end, node)) ==> pos < end <= toks.len() && is_fragment_ek(
            node,
            toks@,
            pos as nat,
        ),
    decreases toks.len() - pos, 26nat,
{
    proof {
        lemma_fragment_ek(toks@, pos as nat);
    }
    let (at1, field_0) = parse_ek_with_free(toks, pos, arena)?;
    let node = Fragment::Ek(field_0);
    proof {
        lemma_is_fragment_ek(node, toks@, pos as nat);
    }
    Ok((at1, node))
}

/// Parse `EkWithFree` at `pos`; see [`spec_ek_with_free`].
pub fn parse_ek_with_free<'arena>(
    toks: &[Token],
    pos: usize,
    arena: &'arena Arena,
) -> (out: Parsed<
    WithFree<'arena, Ek<'arena>>,
>)
    requires
        pos <= toks.len(),
    ensures
        outcome(out, pos) == spec_ek_with_free(toks@, pos as nat),
        out matches Ok((end, node)) ==> pos < end <= toks.len() && is_ek_with_free(
            node,
            toks@,
            pos as nat,
        ),
    decreases toks.len() - pos, 25nat,
{
    proof {
        lemma_ek_with_free(toks@, pos as nat);
    }
    let (at1, inner) = parse_ek(toks, pos, arena)?;
    let (at2, frees) = parse_frees(toks, at1, arena)?;
    let node = WithFree { inner, frees };
    proof {
        lemma_is_ek_with_free(node, toks@, pos as nat);
    }
    Ok((at2, node))
}

/// Parse `FragmentJek` at `pos`; see [`spec_fragment_jek`].
pub fn parse_fragment_jek<'arena>(
    toks: &[Token],
    pos: usize,
    arena: &'arena Arena,
) -> (out: Parsed<
    Fragment<'arena>,
>)
    requires
        pos <= toks.len(),
    ensures
        outcome(out, pos) == spec_fragment_jek(toks@, pos as nat),
        out matches Ok((end, node)) ==> pos < end <= toks.len() && is_fragment_jek(
            node,
            toks@,
            pos as nat,
        ),
    decreases toks.len() - pos, 26nat,
{
    proof {
        lemma_fragment_jek(toks@, pos as nat);
    }
    let (at1, field_0) = parse_jek_with_free(toks, pos, arena)?;
    let node = Fragment::Jek(field_0);
    proof {
        lemma_is_fragment_jek(node, toks@, pos as nat);
    }
    Ok((at1, node))
}

/// Parse `JekWithFree` at `pos`; see [`spec_jek_with_free`].
pub fn parse_jek_with_free<'arena>(
    toks: &[Token],
    pos: usize,
    arena: &'arena Arena,
) -> (out: Parsed<
    WithFree<'arena, Jek<'arena>>,
>)
    requires
        pos <= toks.len(),
    ensures
        outcome(out, pos) == spec_jek_with_free(toks@, pos as nat),
        out matches Ok((end, node)) ==> pos < end <= toks.len() && is_jek_with_free(
            node,
            toks@,
            pos as nat,
        ),
    decreases toks.len() - pos, 25nat,
{
    proof {
        lemma_jek_with_free(toks@, pos as nat);
    }
    let (at1, inner) = parse_jek(toks, pos, arena)?;
    let (at2, frees) = parse_frees(toks, at1, arena)?;
    let node = WithFree { inner, frees };
    proof {
        lemma_is_jek_with_free(node, toks@, pos as nat);
    }
    Ok((at2, node))
}

/// Parse `FragmentJoik` at `pos`; see [`spec_fragment_joik`].
pub fn parse_fragment_joik<'arena>(
    toks: &[Token],
    pos: usize,
    arena: &'arena Arena,
) -> (out: Parsed<
    Fragment<'arena>,
>)
    requires
        pos <= toks.len(),
    ensures
        outcome(out, pos) == spec_fragment_joik(toks@, pos as nat),
        out matches Ok((end, node)) ==> pos < end <= toks.len() && is_fragment_joik(
            node,
            toks@,
            pos as nat,
        ),
    decreases toks.len() - pos, 26nat,
{
    proof {
        lemma_fragment_joik(toks@, pos as nat);
    }
    let (at1, field_0) = parse_joik_with_free(toks, pos, arena)?;
    let node = Fragment::Joik(field_0);
    proof {
        lemma_is_fragment_joik(node, toks@, pos as nat);
    }
    Ok((at1, node))
}

/// Parse `JoikWithFree` at `pos`; see [`spec_joik_with_free`].
pub fn parse_joik_with_free<'arena>(
    toks: &[Token],
    pos: usize,
    arena: &'arena Arena,
) -> (out: Parsed<
    WithFree<'arena, Joik<'arena>>,
>)
    requires
        pos <= toks.len(),
    ensures
        outcome(out, pos) == spec_joik_with_free(toks@, pos as nat),
        out matches Ok((end, node)) ==> pos < end <= toks.len() && is_joik_with_free(
            node,
            toks@,
            pos as nat,
        ),
    decreases toks.len() - pos, 25nat,
{
    proof {
        lemma_joik_with_free(toks@, pos as nat);
    }
    let (at1, inner) = parse_joik(toks, pos, arena)?;
    let (at2, frees) = parse_frees(toks, at1, arena)?;
    let node = WithFree { inner, frees };
    proof {
        lemma_is_joik_with_free(node, toks@, pos as nat);
    }
    Ok((at2, node))
}

/// Parse `FragmentGihek` at `pos`; see [`spec_fragment_gihek`].
pub fn parse_fragment_gihek<'arena>(
    toks: &[Token],
    pos: usize,
    arena: &'arena Arena,
) -> (out: Parsed<
    Fragment<'arena>,
>)
    requires
        pos <= toks.len(),
    ensures
        outcome(out, pos) == spec_fragment_gihek(toks@, pos as nat),
        out matches Ok((end, node)) ==> pos < end <= toks.len() && is_fragment_gihek(
            node,
            toks@,
            pos as nat,
        ),
    decreases toks.len() - pos, 26nat,
{
    proof {
        lemma_fragment_gihek(toks@, pos as nat);
    }
    let (at1, field_0) = parse_gihek_with_free(toks, pos, arena)?;
    let node = Fragment::Gihek(field_0);
    proof {
        lemma_is_fragment_gihek(node, toks@, pos as nat);
    }
    Ok((at1, node))
}

/// Parse `GihekWithFree` at `pos`; see [`spec_gihek_with_free`].
pub fn parse_gihek_with_free<'arena>(
    toks: &[Token],
    pos: usize,
    arena: &'arena Arena,
) -> (out: Parsed<
    WithFree<'arena, Gihek<'arena>>,
>)
    requires
        pos <= toks.len(),
    ensures
        outcome(out, pos) == spec_gihek_with_free(toks@, pos as nat),
        out matches Ok((end, node)) ==> pos < end <= toks.len() && is_gihek_with_free(
            node,
            toks@,
            pos as nat,
        ),
    decreases toks.len() - pos, 25nat,
{
    proof {
        lemma_gihek_with_free(toks@, pos as nat);
    }
    let (at1, inner) = parse_gihek(toks, pos, arena)?;
    let (at2, frees) = parse_frees(toks, at1, arena)?;
    let node = WithFree { inner, frees };
    proof {
        lemma_is_gihek_with_free(node, toks@, pos as nat);
    }
    Ok((at2, node))
}

/// Parse `FragmentNumber` at `pos`; see [`spec_fragment_number`].
pub fn parse_fragment_number<'arena>(
    toks: &[Token],
    pos: usize,
    arena: &'arena Arena,
) -> (out: Parsed<
    Fragment<'arena>,
>)
    requires
        pos <= toks.len(),
    ensures
        outcome(out, pos) == spec_fragment_number(toks@, pos as nat),
        out matches Ok((end, node)) ==> pos < end <= toks.len() && is_fragment_number(
            node,
            toks@,
            pos as nat,
        ),
    decreases toks.len() - pos, 27nat,
{
    proof {
        lemma_fragment_number(toks@, pos as nat);
    }
    let (at1, field_0) = parse_quantifier(toks, pos, arena)?;
    let node = Fragment::Number(field_0);
    proof {
        lemma_is_fragment_number(node, toks@, pos as nat);
    }
    Ok((at1, node))
}

/// Parse `FragmentNa` at `pos`; see [`spec_fragment_na`].
pub fn parse_fragment_na<'arena>(
    toks: &[Token],
    pos: usize,
    arena: &'arena Arena,
) -> (out: Parsed<
    Fragment<'arena>,
>)
    requires
        pos <= toks.len(),
    ensures
        outcome(out, pos) == spec_fragment_na(toks@, pos as nat),
        out matches Ok((end, node)) ==> pos < end <= toks.len() && is_fragment_na(
            node,
            toks@,
            pos as nat,
        ),
    decreases toks.len() - pos, 25nat,
{
    proof {
        lemma_fragment_na(toks@, pos as nat);
    }
    let (at1, field_0) = parse_word(toks, pos, arena, Selmaho::Na)?;
    not(at1, parse_word(toks, at1, arena, Selmaho::Ja))?;
    let (at2, field_1) = parse_frees(toks, at1, arena)?;
    let node = Fragment::Na(field_0, field_1);
    proof {
        lemma_is_fragment_na(node, toks@, pos as nat);
    }
    Ok((at2, node))
}

/// Parse `ParagraphItemEmpty` at `pos`; see [`spec_paragraph_item_empty`].
pub fn parse_paragraph_item_empty<'arena>(
    toks: &[Token],
    pos: usize,
    arena: &'arena Arena,
) -> (out: Parsed<
    ParagraphItem<'arena>,
>)
    requires
        pos <= toks.len(),
    ensures
        outcome(out, pos) == spec_paragraph_item_empty(toks@, pos as nat),
        out matches Ok((end, node)) ==> pos <= end <= toks.len() && is_paragraph_item_empty(
            node,
            toks@,
            pos as nat,
        ),
    decreases toks.len() - pos, 0nat,
{
    proof {
        lemma_paragraph_item_empty(toks@, pos as nat);
    }
    let node = ParagraphItem::Empty;
    proof {
        lemma_is_paragraph_item_empty(node, toks@, pos as nat);
    }
    Ok((pos, node))
}

/// Parse `ParagraphItemsNext` at `pos`; see [`spec_paragraph_items_next`].
pub fn parse_paragraph_items_next<'arena>(
    toks: &[Token],
    pos: usize,
    arena: &'arena Arena,
) -> (out: Parsed<
    (SentenceSeparator<'arena>, ParagraphItem<'arena>),
>)
    requires
        pos <= toks.len(),
    ensures
        outcome(out, pos) == spec_paragraph_items_next(toks@, pos as nat),
        out matches Ok((end, node)) ==> pos < end <= toks.len() && is_paragraph_items_next(
            node,
            toks@,
            pos as nat,
        ),
    decreases toks.len() - pos, 113nat,
{
    proof {
        lemma_paragraph_items_next(toks@, pos as nat);
    }
    let (at1, item_0) = parse_sentence_separator(toks, pos, arena)?;
    let (at2, item_1) = parse_paragraph_item(toks, at1, arena)?;
    let node = (item_0, item_1);
    proof {
        lemma_is_paragraph_items_next(node, toks@, pos as nat);
    }
    Ok((at2, node))
}

/// Parse `ParagraphItemsNext` from `pos` on as often as it matches; see [`spec_many0_paragraph_items_next`].
pub fn many0_paragraph_items_next<'arena>(
    toks: &[Token],
    pos: usize,
    arena: &'arena Arena,
) -> (out: Parsed<
    &'arena [(SentenceSeparator<'arena>, ParagraphItem<'arena>)],
>)
    requires
        pos <= toks.len(),
    ensures
        outcome(out, pos) == spec_many0_paragraph_items_next(toks@, pos as nat),
        out matches Ok((end, items)) ==> pos <= end <= toks.len() && (items@.len() == 0 <==> end
            == pos) && is_row_of_paragraph_items_next(items@, toks@, pos as nat),
    decreases toks.len() - pos, 114nat,
{
    let mut items: Vec<(SentenceSeparator<'arena>, ParagraphItem<'arena>)> = Vec::new();
    let mut at: usize = pos;
    loop
        invariant
            pos <= at <= toks.len(),
            items@.len() == 0 <==> at == pos,
            at == pos + run_of_paragraph_items_next(toks@, pos as nat, items@.len()),
            forall|i: int|
                #![trigger items@[i]]
                #![trigger run_of_paragraph_items_next(toks@, pos as nat, i as nat)]
                0 <= i < items@.len() ==> spec_paragraph_items_next(
                    toks@,
                    pos as nat + run_of_paragraph_items_next(toks@, pos as nat, i as nat),
                ) is Matched && is_paragraph_items_next(
                    items@[i],
                    toks@,
                    pos as nat + run_of_paragraph_items_next(toks@, pos as nat, i as nat),
                ),
            shifted(
                spec_many0_paragraph_items_next(toks@, at as nat),
                (at - pos) as nat,
            ) == spec_many0_paragraph_items_next(
                toks@,
                pos as nat,
            ),
        decreases toks.len() - at,
    {
        proof {
            lemma_many0_paragraph_items_next(toks@, at as nat);
        }
        match parse_paragraph_items_next(toks, at, arena) {
            Ok((end, item)) => {
                if end == at {
                    return fail(Error::Combinator(ErrorKind::Many0), at);
                }
                items.push(item);
                at = end;
            },
            Err(failed) => {
                if failed.fatal {
                    return Err(failed);
                }
                proof {
                    lemma_is_row_of_paragraph_items_next(items@, toks@, pos as nat);
                }
                return Ok((at, keep_all(arena, items)));
            },
        }
    }
}

/// Parse `ParagraphListNext` at `pos`; see [`spec_paragraph_list_next`].
pub fn parse_paragraph_list_next<'arena>(
    toks: &[Token],
    pos: usize,
    arena: &'arena Arena,
) -> (out: Parsed<
    (ParagraphSeparator<'arena>, Paragraph<'arena>),
>)
    requires
        pos <= toks.len(),
    ensures
        outcome(out, pos) == spec_paragraph_list_next(toks@, pos as nat),
        out matches Ok((end, node)) ==> pos < end <= toks.len() && is_paragraph_list_next(
            node,
            toks@,
            pos as nat,
        ),
    decreases toks.len() - pos, 117nat,
{
    proof {
        lemma_paragraph_list_next(toks@, pos as nat);
    }
    let (at1, item_0) = parse_paragraph_separator(toks, pos, arena)?;
    let (at2, item_1) = parse_paragraph(toks, at1, arena)?;
    let node = (item_0, item_1);
    proof {
        lemma_is_paragraph_list_next(node, toks@, pos as nat);
    }
    Ok((at2, node))
}

/// Parse `ParagraphListNext` from `pos` on as often as it matches; see [`spec_many0_paragraph_list_next`].
pub fn many0_paragraph_list_next<'arena>(
    toks: &[Token],
    pos: usize,
    arena: &'arena Arena,
) -> (out: Parsed<
    &'arena [(ParagraphSeparator<'arena>, Paragraph<'arena>)],
>)
    requires
        pos <= toks.len(),
    ensures
        outcome(out, pos) == spec_many0_paragraph_list_next(toks@, pos as nat),
        out matches Ok((end, items)) ==> pos <= end <= toks.len() && (items@.len() == 0 <==> end
            == pos) && is_row_of_paragraph_list_next(items@, toks@, pos as nat),
    decreases toks.len() - pos, 118nat,
{
    let mut items: Vec<(ParagraphSeparator<'arena>, Paragraph<'arena>)> = Vec::new();
    let mut at: usize = pos;
    loop
        invariant
            pos <= at <= toks.len(),
            items@.len() == 0 <==> at == pos,
            at == pos + run_of_paragraph_list_next(toks@, pos as nat, items@.len()),
            forall|i: int|
                #![trigger items@[i]]
                #![trigger run_of_paragraph_list_next(toks@, pos as nat, i as nat)]
                0 <= i < items@.len() ==> spec_paragraph_list_next(
                    toks@,
                    pos as nat + run_of_paragraph_list_next(toks@, pos as nat, i as nat),
                ) is Matched && is_paragraph_list_next(
                    items@[i],
                    toks@,
                    pos as nat + run_of_paragraph_list_next(toks@, pos as nat, i as nat),
                ),
            shifted(
                spec_many0_paragraph_list_next(toks@, at as nat),
                (at - pos) as nat,
            ) == spec_many0_paragraph_list_next(
                toks@,
                pos as nat,
            ),
        decreases toks.len() - at,
    {
        proof {
            lemma_many0_paragraph_list_next(toks@, at as nat);
        }
        match parse_paragraph_list_next(toks, at, arena) {
            Ok((end, item)) => {
                if end == at {
                    return fail(Error::Combinator(ErrorKind::Many0), at);
                }
                items.push(item);
                at = end;
            },
            Err(failed) => {
                if failed.fatal {
                    return Err(failed);
                }
                proof {
                    lemma_is_row_of_paragraph_list_next(items@, toks@, pos as nat);
                }
                return Ok((at, keep_all(arena, items)));
            },
        }
    }
}

/// Parse the words of a quote and the `le'u` that ends it; see
/// [`spec_quoted_words`].
pub fn parse_quoted_words<'arena>(
    toks: &[Token],
    pos: usize,
    arena: &'arena Arena,
) -> (out: Parsed<
    (&'arena [Token], Word<'arena>),
>)
    requires
        pos <= toks.len(),
    ensures
        outcome(out, pos) == spec_quoted_words(toks@, pos as nat),
        out matches Ok((end, node)) ==> pos < end <= toks.len() && is_quoted_words(
            node,
            toks@,
            pos as nat,
        ),
    decreases toks.len() - pos, 3nat,
{
    let mut words: Vec<Token> = Vec::new();
    let mut at: usize = pos;
    loop
        invariant
            pos <= at <= toks.len(),
            at == pos + words@.len(),
            forall|i: int|
                #![trigger words@[i]]
                #![trigger spec_word(toks@, (pos + i) as nat, Selmaho::Lehu)]
                0 <= i < words@.len() ==> spec_word(
                    toks@,
                    (pos + i) as nat,
                    Selmaho::Lehu,
                ) is Error
                    && words@[i] == toks@[pos + i],
            shifted(spec_quoted_words(toks@, at as nat), (at - pos) as nat) == spec_quoted_words(
                toks@,
                pos as nat,
            ),
        decreases toks.len() - at,
    {
        proof {
            lemma_quoted_words(toks@, at as nat);
        }
        match parse_word(toks, at, arena, Selmaho::Lehu) {
            Ok((end, lehu)) => {
                let node = (keep_all(arena, words), lehu);
                proof {
                    lemma_is_quoted_words(node, toks@, pos as nat);
                }
                return Ok((end, node));
            },
            Err(failed) => {
                if failed.fatal {
                    return Err(failed);
                }
                if at < toks.len() {
                    words.push(toks[at]);
                    at = at + 1;
                } else {
                    return fail(Error::Combinator(ErrorKind::Eof), at);
                }
            },
        }
    }
}

} // verus!
