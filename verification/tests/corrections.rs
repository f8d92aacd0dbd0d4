//! How close a word must be to a custom word.
use handy::binary64::Binary64;
use handy::text::custom_words::{
    apply_custom_words, build_custom_word_match_keys, build_match_key, build_ngram,
    find_best_match, is_supported_fuzzy_key, preserve_case_pattern, supports_soundex,
};

/// The double `x`.
fn number(x: f64) -> Binary64 {
    Binary64 { bits: x.to_bits() }
}

fn words(list: &[&str]) -> Vec<String> {
    list.iter().map(|word| word.to_string()).collect()
}

/// The best match and its score.
fn best(candidate: &str, list: &[&str], threshold: f64) -> Option<(String, f64)> {
    let list = words(list);
    let mut keys = Vec::new();
    for (index, word) in list.iter().enumerate() {
        keys.extend(build_custom_word_match_keys(word, index));
    }
    find_best_match(candidate, &list, &keys, number(threshold))
        .map(|(word, score)| (word.clone(), f64::from_bits(score.bits)))
}

#[test]
fn scores_are_edit_distance_over_length() {
    // Three edits over seven characters, and no sound in common.
    assert_eq!(best("kitten", &["sitting"], 1.0), Some(("sitting".to_string(), 3.0 / 7.0)));
    // One edit over five characters, and the same sound.
    assert_eq!(best("hello", &["hallo"], 1.0), Some(("hallo".to_string(), (1.0 / 5.0) * 0.3)));
    assert_eq!(best("gpt4", &["GPT-4"], 0.5), Some(("GPT-4".to_string(), 0.0)));
    assert_eq!(best("gpt5", &["GPT-4"], 0.5), Some(("GPT-4".to_string(), 0.25)));
}

#[test]
fn threshold_of_zero_takes_equal_words_only() {
    assert_eq!(best("hello", &["Hello"], 0.0), Some(("Hello".to_string(), 0.0)));
    assert_eq!(best("helo", &["Hello"], 0.0), None);
    let list = words(&["ChargeBee"]);
    assert_eq!(apply_custom_words("charge bee, ok", &list, number(0.0)), "ChargeBee, ok");
    assert_eq!(apply_custom_words("charge be, ok", &list, number(0.0)), "charge be, ok");
}

#[test]
fn threshold_of_one_takes_any_comparable_word() {
    assert_eq!(best("abc", &["xyz"], 1.0), Some(("xyz".to_string(), 1.0)));
    assert_eq!(best("abc", &["xyzuvw"], 1.0), None);
}

#[test]
fn threshold_below_zero_or_no_number_takes_nothing() {
    for threshold in [-0.5, f64::NEG_INFINITY, f64::NAN] {
        assert_eq!(best("hello", &["hello"], threshold), None);
        assert_eq!(
            apply_custom_words("  hello   world ", &words(&["Hello"]), number(threshold)),
            "hello world"
        );
    }
}

#[test]
fn threshold_is_the_highest_score_taken() {
    assert_eq!(best("gpt5", &["GPT-4"], 0.25), Some(("GPT-4".to_string(), 0.25)));
    assert_eq!(best("gpt5", &["GPT-4"], 0.2499999999999999), None);
}

#[test]
fn closest_word_wins_and_the_first_of_equals() {
    assert_eq!(
        best("gpt4", &["GPT-5", "GPT-4"], 0.5),
        Some(("GPT-4".to_string(), 0.0))
    );
    assert_eq!(
        best("gpt4", &["gpt-5", "gpt-6"], 0.5),
        Some(("gpt-5".to_string(), 0.25))
    );
}

#[test]
fn long_or_foreign_candidates_match_nothing() {
    let long = "a".repeat(51);
    assert_eq!(best(&long, &[long.as_str()], 1.0), None);
    let fits = "a".repeat(50);
    assert_eq!(best(&fits, &[fits.as_str()], 1.0).map(|found| found.1), Some(0.0));
    assert_eq!(best("naïve", &["naïve"], 1.0), None);
    assert_eq!(best("", &["a"], 1.0), None);
}

#[test]
fn lengths_may_differ_by_two_or_a_quarter() {
    assert!(best("ab", &["abcd"], 1.0).is_some());
    assert!(best("ab", &["abcde"], 1.0).is_none());
    assert!(best("abcdefghi", &["abcdefghijkl"], 1.0).is_some());
    assert!(best("abcdefgh", &["abcdefghijk"], 1.0).is_none());
}

#[test]
fn keys_are_letters_and_digits_in_lowercase() {
    assert_eq!(build_match_key("R&D-Ä9!"), "rdä9");
    assert_eq!(build_match_key("İ"), "i\u{307}");
    let split: Vec<Vec<char>> = ["Charge", "B,", "che"]
        .iter()
        .map(|word| word.chars().collect())
        .collect();
    assert_eq!(build_ngram(&split, 0, 2), "chargeb");
    assert_eq!(build_ngram(&split, 1, 2), "bche");
    assert!(is_supported_fuzzy_key("gpt4"));
    assert!(!is_supported_fuzzy_key(""));
    assert!(!is_supported_fuzzy_key("你好"));
    assert!(supports_soundex("gpt"));
    assert!(!supports_soundex("gpt4"));
    let keys = build_custom_word_match_keys("R&D", 3);
    let keys: Vec<(usize, String)> = keys.into_iter().map(|k| (k.word_index, k.key)).collect();
    assert_eq!(keys, [(3, "rd".to_string()), (3, "randd".to_string())]);
    assert!(build_custom_word_match_keys("你号", 0).is_empty());
}

#[test]
fn keys_of_words_in_a_row_run_together() {
    let split: Vec<Vec<char>> = ["Charge", "B,", "", "é"]
        .iter()
        .map(|word| word.chars().collect())
        .collect();
    assert_eq!(build_ngram(&vec![], 0, 0), "");
    assert_eq!(build_ngram(&split, 2, 0), "");
    assert_eq!(build_ngram(&split, 0, 2), "chargeb");
    for first in 0..=split.len() {
        assert_eq!(
            build_ngram(&split, 0, first) + &build_ngram(&split, first, split.len() - first),
            "chargebé"
        );
    }
}

#[test]
fn keys_that_cannot_match_may_lead_nowhere() {
    let list = words(&["Hello"]);
    let mut keys = build_custom_word_match_keys("Hello", 0);
    keys.extend(build_custom_word_match_keys("somethingelse", 9));
    keys.extend(build_custom_word_match_keys("world", 9));
    let found = find_best_match("hello", &list, &keys, number(0.2));
    assert_eq!(found.map(|(word, score)| (word.as_str(), score.bits)), Some(("Hello", 0)));
}

#[test]
fn matches_do_not_reach_across_punctuation() {
    let list = words(&["ChargeBee"]);
    assert_eq!(
        apply_custom_words("charge, bee", &list, number(0.1)),
        "charge, bee"
    );
}

#[test]
fn case_pattern_of_special_letters() {
    assert_eq!(preserve_case_pattern("ABC", "straße"), "STRASSE");
    assert_eq!(preserve_case_pattern("Abc", "ßa"), "Sa");
    assert_eq!(preserve_case_pattern("Abc", ""), "");
    assert_eq!(preserve_case_pattern("abc", "mIxEd"), "mIxEd");
}
