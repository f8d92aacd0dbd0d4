//! Correction of transcribed words and removal of fillers.
use handy::binary64::Binary64;
use handy::text::custom_words::{apply_custom_words, extract_punctuation, preserve_case_pattern};
use handy::text::filter::filter_transcription_output;

/// The double `x`.
fn number(x: f64) -> Binary64 {
    Binary64 { bits: x.to_bits() }
}

#[test]
fn test_apply_custom_words_exact_match() {
    let text = "hello world";
    let custom_words = vec!["Hello".to_string(), "World".to_string()];
    let result = apply_custom_words(text, &custom_words, number(0.5));
    assert_eq!(result, "Hello World");
}

#[test]
fn test_apply_custom_words_fuzzy_match() {
    let text = "helo wrold";
    let custom_words = vec!["hello".to_string(), "world".to_string()];
    let result = apply_custom_words(text, &custom_words, number(0.5));
    assert_eq!(result, "hello world");
}

#[test]
fn test_preserve_case_pattern() {
    assert_eq!(preserve_case_pattern("HELLO", "world"), "WORLD");
    assert_eq!(preserve_case_pattern("Hello", "world"), "World");
    assert_eq!(preserve_case_pattern("hello", "WORLD"), "WORLD");
}

#[test]
fn test_extract_punctuation() {
    assert_eq!(extract_punctuation("hello"), ("", ""));
    assert_eq!(extract_punctuation("!hello?"), ("!", "?"));
    assert_eq!(extract_punctuation("...hello..."), ("...", "..."));
}

#[test]
fn test_extract_punctuation_uses_unicode_boundaries() {
    assert_eq!(extract_punctuation("你好。"), ("", "。"));
    assert_eq!(extract_punctuation("「你好」"), ("「", "」"));
    assert_eq!(extract_punctuation("你好！"), ("", "！"));
}

#[test]
fn test_empty_custom_words() {
    let text = "hello world";
    let custom_words = vec![];
    let result = apply_custom_words(text, &custom_words, number(0.5));
    assert_eq!(result, "hello world");
}

#[test]
fn test_filter_filler_words() {
    let text = "So uhm I was thinking uh about this";
    let result = filter_transcription_output(text, "en", &None);
    assert_eq!(result, "So I was thinking about this");
}

#[test]
fn test_filter_filler_words_case_insensitive() {
    let text = "UHM this is UH a test";
    let result = filter_transcription_output(text, "en", &None);
    assert_eq!(result, "this is a test");
}

#[test]
fn test_filter_filler_words_with_punctuation() {
    let text = "Well, uhm, I think, uh. that's right";
    let result = filter_transcription_output(text, "en", &None);
    assert_eq!(result, "Well, I think. that's right");
}

#[test]
fn test_filter_cleans_whitespace() {
    let text = "Hello    world   test";
    let result = filter_transcription_output(text, "en", &None);
    assert_eq!(result, "Hello world test");
}

#[test]
fn test_filter_trims() {
    let text = "  Hello world  ";
    let result = filter_transcription_output(text, "en", &None);
    assert_eq!(result, "Hello world");
}

#[test]
fn test_filter_combined() {
    let text = "  Uhm, so I was, uh, thinking about this  ";
    let result = filter_transcription_output(text, "en", &None);
    assert_eq!(result, "so I was thinking about this");
}

#[test]
fn test_filter_preserves_valid_text() {
    let text = "This is a completely normal sentence.";
    let result = filter_transcription_output(text, "en", &None);
    assert_eq!(result, "This is a completely normal sentence.");
}

#[test]
fn test_filter_removes_repeated_filler_sounds() {
    let text = "Well uh uh uh I think um-um-um this works";
    let result = filter_transcription_output(text, "en", &None);
    assert_eq!(result, "Well I think this works");
}

#[test]
fn test_filter_removes_russian_repeated_filler_sounds() {
    let text = "Это а-а-а пример э э э текста и-и-и всё";
    let result = filter_transcription_output(text, "auto", &None);
    assert_eq!(result, "Это пример текста всё");
}

#[test]
fn test_filter_removes_elongated_filler_sounds() {
    let text = "So uhhh this is эээ useful";
    let result = filter_transcription_output(text, "auto", &None);
    assert_eq!(result, "So this is useful");
}

#[test]
fn test_filter_auto_detects_cyrillic_fillers() {
    let text = "ЭМ, это, э, должно работать, хм, всегда";
    let result = filter_transcription_output(text, "auto", &None);
    assert_eq!(result, "это должно работать всегда");
}

#[test]
fn test_filter_canonicalizes_unseen_filler_renderings() {
    let text = "Эээээмммм, это ааааххх, пример ыыы и э-э-м";
    let result = filter_transcription_output(text, "auto", &None);
    assert_eq!(result, "это пример и");
}

#[test]
fn test_filter_canonicalizes_unseen_english_renderings() {
    let text = "Uhhhhhhhh, this is ummmmmmmmm, still eeeerrrr fine";
    let result = filter_transcription_output(text, "en", &None);
    assert_eq!(result, "this is still fine");
}

#[test]
fn test_filter_preserves_elongated_ordinary_words() {
    let text = "Это длиииинный текст and heyyy noooo";
    let result = filter_transcription_output(text, "auto", &None);
    assert_eq!(result, text);
}

#[test]
fn test_filter_does_not_reduce_canonical_mmm_to_letter_m() {
    let text = "Use m as the variable";
    let result = filter_transcription_output(text, "en", &None);
    assert_eq!(result, text);
}

#[test]
fn test_filter_preserves_meaningful_repetition() {
    let text = "I I I really mean very very very important";
    let result = filter_transcription_output(text, "en", &None);
    assert_eq!(result, text);
}

#[test]
fn test_filter_preserves_russian_conjunctions() {
    let text = "А я и ты";
    let result = filter_transcription_output(text, "ru", &None);
    assert_eq!(result, text);
}

#[test]
fn test_filter_preserves_mixed_russian_tokens() {
    let text = "а и а";
    let result = filter_transcription_output(text, "ru", &None);
    assert_eq!(result, text);
}

#[test]
fn test_filter_preserves_uppercase_er_abbreviation() {
    let text = "er I went to the ER";
    let result = filter_transcription_output(text, "en", &None);
    assert_eq!(result, "I went to the ER");
}

#[test]
fn test_filter_preserves_uppercase_acronyms() {
    let text = "AAA battery reported ERR";
    let result = filter_transcription_output(text, "en", &None);
    assert_eq!(result, text);
}

#[test]
fn test_filter_does_not_repair_unrelated_punctuation() {
    let text = ":root uses std::io";
    let result = filter_transcription_output(text, "en", &None);
    assert_eq!(result, text);
}

#[test]
fn test_filter_repairs_only_the_removed_filler_boundary() {
    let text = "um, std::io handles ERR";
    let result = filter_transcription_output(text, "en", &None);
    assert_eq!(result, "std::io handles ERR");
}

#[test]
fn test_filter_english_removes_um() {
    let text = "um I think um this is good";
    let result = filter_transcription_output(text, "en", &None);
    assert_eq!(result, "I think this is good");
}

#[test]
fn test_filter_portuguese_preserves_um() {
    // "um" means "a/an" in Portuguese
    let text = "um gato bonito";
    let result = filter_transcription_output(text, "pt", &None);
    assert_eq!(result, "um gato bonito");
}

#[test]
fn test_filter_spanish_preserves_ha() {
    // "ha" means "has" in Spanish
    let text = "ha sido un buen día";
    let result = filter_transcription_output(text, "es", &None);
    assert_eq!(result, "ha sido un buen día");
}

#[test]
fn test_filter_language_code_with_region() {
    // "pt-BR" should normalize to "pt"
    let text = "um gato bonito";
    let result = filter_transcription_output(text, "pt-BR", &None);
    assert_eq!(result, "um gato bonito");
}

#[test]
fn test_filter_custom_filler_words_override() {
    let custom = Some(vec!["okay".to_string(), "right".to_string()]);
    let text = "okay so I think right this works";
    let result = filter_transcription_output(text, "en", &custom);
    assert_eq!(result, "so I think this works");
}

#[test]
fn test_filter_custom_filler_words_empty_disables() {
    let custom = Some(vec![]);
    let text = "So uhm I was thinking uh about this";
    let result = filter_transcription_output(text, "en", &custom);
    // No filler words removed since custom list is empty
    assert_eq!(result, "So uhm I was thinking uh about this");
}

#[test]
fn test_filter_unknown_language_uses_fallback() {
    let text = "uh I think uhm this works";
    let result = filter_transcription_output(text, "xx", &None);
    assert_eq!(result, "I think this works");
}

#[test]
fn test_filter_fallback_does_not_remove_um() {
    // Fallback (unknown language) should not remove "um" since it's a real word in some languages
    let text = "um I think this works";
    let result = filter_transcription_output(text, "xx", &None);
    assert_eq!(result, "um I think this works");
}

#[test]
fn test_apply_custom_words_ngram_two_words() {
    let text = "il cui nome è Charge B, che permette";
    let custom_words = vec!["ChargeBee".to_string()];
    let result = apply_custom_words(text, &custom_words, number(0.5));
    assert!(result.contains("ChargeBee,"), "unexpected result: {result}");
    assert!(!result.contains("Charge B"));
}

#[test]
fn test_apply_custom_words_ngram_three_words() {
    let text = "use Chat G P T for this";
    let custom_words = vec!["ChatGPT".to_string()];
    let result = apply_custom_words(text, &custom_words, number(0.5));
    assert!(result.contains("ChatGPT"));
}

#[test]
fn test_apply_custom_words_prefers_longer_ngram() {
    let text = "Open AI GPT model";
    let custom_words = vec!["OpenAI".to_string(), "GPT".to_string()];
    let result = apply_custom_words(text, &custom_words, number(0.5));
    assert_eq!(result, "OpenAI GPT model");
}

#[test]
fn test_apply_custom_words_ngram_preserves_case() {
    let text = "CHARGE B is great";
    let custom_words = vec!["ChargeBee".to_string()];
    let result = apply_custom_words(text, &custom_words, number(0.5));
    assert!(result.contains("CHARGEBEE"));
}

#[test]
fn test_apply_custom_words_ngram_with_spaces_in_custom() {
    // Custom word with space should also match against split words
    let text = "using Mac Book Pro";
    let custom_words = vec!["MacBook Pro".to_string()];
    let result = apply_custom_words(text, &custom_words, number(0.5));
    assert!(result.contains("MacBook"));
}

#[test]
fn test_apply_custom_words_trailing_number_not_doubled() {
    // Verify that trailing non-alpha chars (like numbers) aren't double-counted
    // between build_ngram stripping them and extract_punctuation capturing them
    let text = "use GPT4 for this";
    let custom_words = vec!["GPT-4".to_string()];
    let result = apply_custom_words(text, &custom_words, number(0.5));
    // Should NOT produce "GPT-44" (double-counting the trailing 4)
    assert!(
        !result.contains("GPT-44"),
        "got double-counted result: {}",
        result
    );
}

#[test]
fn test_apply_custom_words_matches_ampersand_word() {
    let text = "send it to RD for review";
    let custom_words = vec!["R&D".to_string()];
    let result = apply_custom_words(text, &custom_words, number(0.18));
    assert_eq!(result, "send it to R&D for review");
}

#[test]
fn test_apply_custom_words_matches_spoken_ampersand_word() {
    let text = "send it to R and D for review";
    let custom_words = vec!["R&D".to_string()];
    let result = apply_custom_words(text, &custom_words, number(0.18));
    assert_eq!(result, "send it to R&D for review");
}

#[test]
fn test_apply_custom_words_preserves_ampersand_word() {
    let text = "send it to R&D for review";
    let custom_words = vec!["R&D".to_string()];
    let result = apply_custom_words(text, &custom_words, number(0.18));
    assert_eq!(result, "send it to R&D for review");
}

#[test]
fn test_apply_custom_words_handles_unicode_punctuation() {
    let text = "「Handee。」";
    let custom_words = vec!["Handy".to_string()];
    let result = apply_custom_words(text, &custom_words, number(0.5));
    assert_eq!(result, "「Handy。」");
}

#[test]
fn test_apply_custom_words_skips_cjk_fuzzy_matching() {
    let text = "你好。";
    let custom_words = vec!["你号".to_string()];
    let result = apply_custom_words(text, &custom_words, number(1.0));
    assert_eq!(result, text);
}
