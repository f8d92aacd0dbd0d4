//! Merging and removing spans, and what stays of a text.
use handy::text::boundary::{
    clean_removed_boundary, is_sentence_punctuation, is_soft_punctuation,
    remove_ranges_with_boundary_cleanup, trim_horizontal_end, trim_horizontal_start,
};
use handy::text::bytes::text_before_zero;
use handy::text::fillers::{
    canonical_sound_form, collect_builtin_filler_matches, collect_removal_matches,
    get_filler_words_for_language, has_hesitation_rendering, is_generated_hesitation_variant,
    is_uppercase_acronym, resolve_filler_language,
};
use handy::text::filter::{clear_spans, filter_transcription_output};
use handy::text::patterns::{byte_ranges_of, find_spans, spans_of_matches, Span};
use handy::text::spans::merge_spans;
use handy::text::strings::{decimal_text, join, split_words, trim};

fn chars(text: &str) -> Vec<char> {
    text.chars().collect()
}

fn text(chars: &[char]) -> String {
    chars.iter().collect()
}

fn span(start: usize, end: usize) -> Span {
    Span { start, end }
}

/// `left` and `right` after something between them was removed.
fn rejoin(left: &str, right: &str) -> String {
    let mut whole = chars(left);
    whole.extend(right.chars());
    clean_removed_boundary(&mut whole, left.chars().count());
    text(&whole)
}

#[test]
fn overlapping_and_touching_spans_become_one() {
    assert_eq!(merge_spans(&vec![]), vec![]);
    assert_eq!(
        merge_spans(&vec![span(5, 8), span(0, 3), span(2, 4), span(8, 9)]),
        vec![span(0, 4), span(5, 9)]
    );
    assert_eq!(
        merge_spans(&vec![span(0, 9), span(2, 3)]),
        vec![span(0, 9)]
    );
    assert_eq!(merge_spans(&vec![span(4, 4), span(1, 2)]), vec![span(1, 2), span(4, 4)]);
}

#[test]
fn merging_does_not_depend_on_the_order() {
    let spans = [span(3, 5), span(3, 9), span(0, 1), span(9, 10)];
    let expected = vec![span(0, 1), span(3, 10)];
    for shift in 0..spans.len() {
        let mut turned = spans.to_vec();
        turned.rotate_left(shift);
        assert_eq!(merge_spans(&turned), expected);
        turned.reverse();
        assert_eq!(merge_spans(&turned), expected);
    }
}

#[test]
fn boundary_keeps_one_space_where_there_was_one() {
    assert_eq!(rejoin("so ", " I was"), "so I was");
    assert_eq!(rejoin("so", "I was"), "soI was");
    assert_eq!(rejoin("", " , I was"), "I was");
    assert_eq!(rejoin("I was, ", ""), "I was");
    assert_eq!(rejoin("I was", " "), "I was");
    assert_eq!(rejoin("", ""), "");
}

#[test]
fn boundary_keeps_line_ends() {
    assert_eq!(rejoin("one\n", " two"), "one\ntwo");
    assert_eq!(rejoin("one ", "\ntwo"), "one\ntwo");
    assert_eq!(rejoin("one\r\n", ", two"), "one\r\ntwo");
}

#[test]
fn boundary_drops_redundant_punctuation() {
    // A comma before a lowercase continuation is redundant, before a name it is not.
    assert_eq!(rejoin("I was, ", ", thinking"), "I was thinking");
    assert_eq!(rejoin("Well, ", ", I think"), "Well, I think");
    assert_eq!(rejoin("I think, ", ". that"), "I think. that");
    assert_eq!(rejoin("这是，", "，吧"), "这是， 吧");
    assert_eq!(rejoin(", ", " a"), ", a");
    assert_eq!(rejoin(",", ", a"), " a");
}

#[test]
fn text_inside_the_sides_is_copied() {
    assert_eq!(rejoin("std::io, x ", " y, std::fs"), "std::io, x y, std::fs");
    assert_eq!(rejoin(":root ", " a"), ":root a");
}

#[test]
fn punctuation_classes() {
    for c in [',', '，', ';', '；', ':', '：'] {
        assert!(is_soft_punctuation(c));
        assert!(!is_sentence_punctuation(c));
    }
    for c in ['.', '!', '?', '。', '！', '？'] {
        assert!(is_sentence_punctuation(c));
        assert!(!is_soft_punctuation(c));
    }
    assert!(!is_soft_punctuation('a'));
    assert!(!is_sentence_punctuation('-'));
}

#[test]
fn blanks_are_spaces_and_tabs() {
    let line = chars("ab \t\u{a0}");
    assert_eq!(trim_horizontal_start(&line, 2), 4);
    assert_eq!(trim_horizontal_end(&line, 4), 2);
    assert_eq!(trim_horizontal_end(&line, 5), 5);
}

#[test]
fn spans_are_removed_from_the_last_to_the_first() {
    let spans = vec![span(12, 14), span(0, 2), span(6, 8)];
    assert_eq!(
        remove_ranges_with_boundary_cleanup("um a, um, b um", &spans),
        "a b"
    );
    assert_eq!(clear_spans("  a   b  ", &vec![]), "a b");
    assert_eq!(clear_spans("так, э, вот", &vec![span(5, 6)]), "так вот");
}

#[test]
fn ranges_are_counted_in_bytes_of_what_is_left() {
    // The first removal takes the wide comma before it along, so that the offsets of
    // the comma cover other characters by its turn.
    assert_eq!(
        remove_ranges_with_boundary_cleanup("a， bc.defg", &vec![span(1, 4), span(5, 7)]),
        "afg"
    );
    assert_eq!(
        remove_ranges_with_boundary_cleanup("так э вот", &vec![span(7, 9)]),
        "так вот"
    );
    assert_eq!(remove_ranges_with_boundary_cleanup("э", &vec![]), "э");
}

#[test]
fn backward_ranges_inside_others_change_nothing() {
    assert_eq!(merge_spans(&vec![span(7, 3), span(1, 2)]), vec![span(1, 2)]);
    let ranges = vec![span(5, 3), span(3, 5)];
    assert_eq!(remove_ranges_with_boundary_cleanup("so um yes", &ranges), "so yes");
}

#[test]
fn positions_of_characters_become_byte_offsets() {
    assert_eq!(
        byte_ranges_of("Это э 。", &vec![span(4, 5), span(0, 3), span(6, 7)]),
        vec![span(7, 9), span(0, 6), span(10, 13)]
    );
}

#[test]
fn moved_spans_are_joined_alike() {
    let line = "аб в гд";
    let spans = vec![span(3, 4), span(0, 2), span(1, 3), span(5, 5)];
    assert_eq!(
        merge_spans(&byte_ranges_of(line, &spans)),
        byte_ranges_of(line, &merge_spans(&spans))
    );
}

#[test]
fn listed_words_are_taken_literally() {
    let words = Some(vec!["u.m".to_string()]);
    assert_eq!(filter_transcription_output("u.m uxm yes", "en", &words), "uxm yes");
}

#[test]
fn byte_offsets_become_positions_of_characters() {
    let line = chars("Это э пример");
    assert_eq!(
        spans_of_matches(&line, &vec![(7, 9), (0, 6)]),
        vec![span(4, 5), span(0, 3)]
    );
    assert_eq!(find_spans(r"\p{L}+", "Это э"), vec![span(0, 3), span(4, 5)]);
    assert_eq!(find_spans(r"(", "Это"), vec![]);
}

#[test]
fn fillers_of_a_language() {
    assert_eq!(get_filler_words_for_language("tr"), vec!["hmm", "mmm", "hm"]);
    assert_eq!(get_filler_words_for_language("pt-BR"), get_filler_words_for_language("pt"));
    assert_eq!(get_filler_words_for_language("pt_BR"), get_filler_words_for_language("pt"));
    assert_eq!(
        get_filler_words_for_language("tlh"),
        vec!["uh", "uhm", "uhh", "uhhh", "hmm", "mmm"]
    );
    for (lang, count) in [
        ("en", 14),
        ("es", 6),
        ("fr", 5),
        ("de", 5),
        ("it", 5),
        ("cs", 5),
        ("pl", 5),
        ("ru", 9),
        ("uk", 9),
        ("ar", 2),
        ("ja", 2),
        ("ko", 2),
        ("vi", 3),
        ("zh", 2),
    ] {
        assert_eq!(get_filler_words_for_language(lang).len(), count, "{lang}");
    }
}

#[test]
fn undetermined_language_goes_by_the_script() {
    assert_eq!(resolve_filler_language("auto", "это"), "ru");
    assert_eq!(resolve_filler_language("", "Ӂ"), "ru");
    assert_eq!(resolve_filler_language("und-x", "text"), "und");
    assert_eq!(resolve_filler_language("en-US", "это"), "en");
    assert_eq!(resolve_filler_language("unknown", "text"), "unknown");
}

#[test]
fn sounds_are_compared_without_repetition() {
    assert_eq!(text(&canonical_sound_form(&chars("Uh-HHh"))), "uh");
    assert_eq!(text(&canonical_sound_form(&chars("э-э-м"))), "эм");
    assert_eq!(text(&canonical_sound_form(&chars("12"))), "");
    assert!(has_hesitation_rendering(&chars("Aah")));
    assert!(has_hesitation_rendering(&chars("a-h")));
    assert!(!has_hesitation_rendering(&chars("ah")));
    assert!(is_generated_hesitation_variant(&chars("eeh"), "en"));
    assert!(is_generated_hesitation_variant(&chars("hhmm"), "en"));
    assert!(!is_generated_hesitation_variant(&chars("noo"), "en"));
    assert!(!is_generated_hesitation_variant(&chars("heyyy"), "en"));
    assert!(is_generated_hesitation_variant(&chars("ыыы"), "ru"));
    assert!(!is_generated_hesitation_variant(&chars("ыыы"), "en"));
}

#[test]
fn abbreviations_are_told_from_fillers() {
    assert!(is_uppercase_acronym(&chars("ER")));
    assert!(is_uppercase_acronym(&chars("AAA")));
    assert!(!is_uppercase_acronym(&chars("UH")));
    assert!(!is_uppercase_acronym(&chars("ЭМ")));
    assert!(!is_uppercase_acronym(&chars("E")));
    assert!(!is_uppercase_acronym(&chars("Er")));
    assert!(!is_uppercase_acronym(&chars("E-R")));
}

#[test]
fn collected_matches_leave_abbreviations_out() {
    let line = chars("AAA aaah er ER");
    let found = vec![span(0, 3), span(4, 8)];
    let mut ranges = vec![span(9, 9)];
    collect_removal_matches(&mut ranges, &line, &found, true);
    assert_eq!(ranges, vec![span(9, 9), span(4, 8)]);
    collect_removal_matches(&mut ranges, &line, &found, false);
    assert_eq!(ranges, vec![span(9, 9), span(4, 8), span(0, 3), span(4, 8)]);

    let tokens = vec![span(0, 3), span(4, 8), span(9, 11), span(12, 14)];
    let mut ranges = vec![];
    collect_builtin_filler_matches(&mut ranges, &line, &tokens, "en");
    assert_eq!(ranges, vec![span(4, 8), span(9, 11)]);
}

#[test]
fn custom_words_are_taken_literally() {
    let custom = Some(vec![" a.b ".to_string(), "  ".to_string()]);
    assert_eq!(
        filter_transcription_output("say a.b now axb", "en", &custom),
        "say now axb"
    );
    // A list stands in for the fillers of every language.
    for lang in ["en", "ru", "auto"] {
        assert_eq!(
            filter_transcription_output("um say A.B now", lang, &custom),
            "um say now"
        );
    }
}

#[test]
fn custom_words_may_be_abbreviations() {
    let custom = Some(vec!["er".to_string()]);
    assert_eq!(filter_transcription_output("the ER er", "en", &custom), "the");
}

#[test]
fn filtering_twice_changes_nothing_more() {
    let once = filter_transcription_output("  Uhm, so I was, uh, thinking  ", "en", &None);
    assert_eq!(once, "so I was thinking");
    assert_eq!(filter_transcription_output(&once, "en", &None), once);
}

#[test]
fn ordinary_characters_stay_in_order() {
    let said = "Well, um, std::io (uh) x=1; er... done!";
    let kept = filter_transcription_output(said, "en", &None);
    let ordinary = |s: &str| -> String {
        s.chars()
            .filter(|c| !c.is_whitespace() && !is_soft_punctuation(*c))
            .collect()
    };
    let without_fillers = said.replacen("um", "", 1).replacen("uh", "", 1).replacen("er", "", 1);
    assert_eq!(ordinary(&kept), ordinary(&without_fillers));
    assert!(kept.contains("std::io"));
}

#[test]
fn line_ends_are_no_horizontal_space() {
    assert_eq!(
        filter_transcription_output("one\n\n\u{2003} \ttwo", "en", &None),
        "one\n\n two"
    );
}

#[test]
fn text_before_a_zero_byte() {
    assert_eq!(text_before_zero(&b"AXTextField\0\0".to_vec()), Some("AXTextField".to_string()));
    assert_eq!(text_before_zero(&"поле\0x".as_bytes().to_vec()), Some("поле".to_string()));
    assert_eq!(text_before_zero(&b"\0".to_vec()), Some(String::new()));
    assert_eq!(text_before_zero(&b"no end".to_vec()), None);
    assert_eq!(text_before_zero(&vec![0xC3, 0x28, 0]), None);
}

#[test]
fn small_text_helpers() {
    assert_eq!(text(&trim(&chars(" \u{2003}a b\n"))), "a b");
    assert_eq!(text(&trim(&chars("  "))), "");
    let words = split_words(&chars("  Charge B,\tche  "));
    let words: Vec<String> = words.iter().map(|word| text(word)).collect();
    assert_eq!(words, ["Charge", "B,", "che"]);
    assert_eq!(text(&join(&vec![chars("a"), chars("b")], &chars(", "))), "a, b");
    assert_eq!(text(&join(&vec![], &chars(", "))), "");
    for n in [0, 7, 10, 127, -1, -255, i32::MAX, i32::MIN] {
        assert_eq!(decimal_text(n), n.to_string());
    }
}
