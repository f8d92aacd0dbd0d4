//! Removal of filler sounds and filler words from transcribed text.
use super::boundary::{remove_ranges_with_boundary_cleanup, without_spans};
use super::fillers::{
    acronym, base_language, collect_builtin_filler_matches, collect_removal_matches,
    filler_language, filler_span, removable, resolve_filler_language,
};
use super::kept::{
    anchored, anchored_at, anchored_spans_are_removable, ordinary, ordinary_text_is_kept, outside,
    untouched_stretch_is_copied,
};
use super::patterns::{
    all_within, byte_ranges_of, collapsed_from, find_spans, horizontal_space, literal_word,
    pattern_spans, repeatable_sounds, repeated_sound, repetition, replace_all, spaces_collapsed,
    Span, ELONGATED_SOUND, MULTI_HORIZONTAL_SPACE, SEPARATOR, TOKEN,
};
use super::spans::{covered, is_merge, merge_is_unique, merged, merged_is_a_merge};
use super::strings::{
    back_while, back_while_is_a_run, chars_of, contains_text, join, occurs_at, skip_while,
    skip_while_is_a_run, space, strings, text_of, texts, trim, trimmed,
};
use super::unicode::whitespace;
use vstd::prelude::*;

verus! {

/// The drawn out and repeated filler sounds of a text that are no abbreviations.
pub open spec fn sound_spans(text: Seq<char>) -> Seq<Span> {
    pattern_spans(repeated_sound(), text).filter(removable(text, true)) + pattern_spans(
        ELONGATED_SOUND@,
        text,
    ).filter(removable(text, true))
}

/// The occurrences in a text of the words of a list, each without the white space
/// around it; empty words do not occur.
pub open spec fn custom_spans(text: Seq<char>, words: Seq<Seq<char>>) -> Seq<Span>
    decreases words.len(),
{
    if words.len() == 0 {
        Seq::empty()
    } else {
        let word = trimmed(words.last());
        custom_spans(text, words.drop_last()) + (if word.len() == 0 {
            Seq::empty()
        } else {
            pattern_spans(literal_word(word), text)
        })
    }
}

/// What is to be removed from a text: filler sounds, and the words of the given list
/// or, without a list, the fillers of the language.
pub open spec fn removal_spans(
    text: Seq<char>,
    lang: Seq<char>,
    custom: Option<Seq<Seq<char>>>,
) -> Seq<Span> {
    sound_spans(text) + (match custom {
        Some(words) => custom_spans(text, words),
        None => pattern_spans(TOKEN@, text).filter(
            filler_span(text, filler_language(lang, text)),
        ),
    })
}

/// `text` without the parts that the spans cover, with single spaces between words
/// and without white space at its ends.
pub open spec fn cleared(text: Seq<char>, spans: Seq<Span>) -> Seq<char> {
    trimmed(spaces_collapsed(without_spans(text, merged(spans))))
}

/// `text` without fillers.
pub open spec fn filtered(
    text: Seq<char>,
    lang: Seq<char>,
    custom: Option<Seq<Seq<char>>>,
) -> Seq<char> {
    cleared(text, removal_spans(text, lang, custom))
}

/// The contents of an optional word list.
pub open spec fn word_list(words: Option<Vec<String>>) -> Option<Seq<Seq<char>>> {
    match words {
        Some(list) => Some(strings(list@)),
        None => None,
    }
}

/// The text without the parts that the spans cover, with single spaces between words
/// and without white space at its ends.
pub fn clear_spans(text: &str, spans: &Vec<Span>) -> (r: String)
    requires
        all_within(spans@, text@.len()),
        anchored(text@, spans@),
    ensures
        r@ == cleared(text@, spans@),
{
    let ranges: Vec<Span> = byte_ranges_of(text, spans);
    proof {
        anchored_spans_are_removable(text@, spans@);
    }
    let shorter: String = remove_ranges_with_boundary_cleanup(text, &ranges);
    let single: String = replace_all(MULTI_HORIZONTAL_SPACE, shorter.as_str(), " ");
    let chars: Vec<char> = chars_of(single.as_str());
    let ends: Vec<char> = trim(&chars);
    text_of(&ends)
}

/// The pattern of a sound that comes three times or more.
fn repetition_of(sound: &str) -> (r: Vec<char>)
    ensures
        r@ == repetition(sound@),
{
    let mut pattern: String = String::new();
    pattern.push_str(sound);
    pattern.push_str("(?:");
    pattern.push_str(SEPARATOR);
    pattern.push_str(sound);
    pattern.push_str("){2,}");
    assert(pattern@ =~= repetition(sound@));
    chars_of(pattern.as_str())
}

/// The pattern of filler sounds that come three times or more.
fn repeated_sound_pattern() -> (r: String)
    ensures
        r@ == repeated_sound(),
{
    let mut sounds: Vec<Vec<char>> = Vec::new();
    sounds.push(repetition_of("a+h+"));
    sounds.push(repetition_of("u+h+"));
    sounds.push(repetition_of("u+m+"));
    sounds.push(repetition_of("e+r+"));
    sounds.push(repetition_of("а+"));
    sounds.push(repetition_of("э+"));
    sounds.push(repetition_of("и+"));
    sounds.push(repetition_of("эм+"));
    assert(texts(sounds@) =~= repeatable_sounds().map_values(
        |sound: Seq<char>| repetition(sound),
    ));
    let bar: Vec<char> = chars_of("|");
    let alternatives: Vec<char> = join(&sounds, &bar);
    let body: String = text_of(&alternatives);
    let mut pattern: String = String::new();
    pattern.push_str(r"(?iu)\b(?:");
    pattern.push_str(body.as_str());
    pattern.push_str(r")\b");
    assert(pattern@ =~= repeated_sound());
    pattern
}

/// A filter that keeps everything changes nothing.
proof fn lemma_filter_keeps_all(spans: Seq<Span>, keep: spec_fn(Span) -> bool)
    requires
        forall|i: int| 0 <= i < spans.len() ==> keep(#[trigger] spans[i]),
    ensures
        spans.filter(keep) == spans,
    decreases spans.len(),
{
    reveal(Seq::filter);
    if spans.len() > 0 {
        lemma_filter_keeps_all(spans.drop_last(), keep);
        assert(keep(spans[spans.len() - 1]));
        assert(spans.drop_last().push(spans.last()) =~= spans);
    } else {
        assert(spans.filter(keep) =~= spans);
    }
}

/// Spans kept by a filter are among the spans.
proof fn lemma_filter_is_part(text: Seq<char>, spans: Seq<Span>, keep: spec_fn(Span) -> bool)
    requires
        all_within(spans, text.len()),
        anchored(text, spans),
    ensures
        all_within(spans.filter(keep), text.len()),
        anchored(text, spans.filter(keep)),
    decreases spans.len(),
{
    reveal(Seq::filter);
    if spans.len() > 0 {
        let rest = spans.drop_last();
        assert forall|i: int| 0 <= i < rest.len() implies #[trigger] rest[i] == spans[i] by {}
        assert(spans[spans.len() - 1].within(text.len()));
        lemma_filter_is_part(text, rest, keep);
    }
}

/// Adds the occurrences of the words of the list.
fn collect_custom_matches(ranges: &mut Vec<Span>, text: &Vec<char>, words: &Vec<String>)
    requires
        all_within(old(ranges)@, text@.len()),
        anchored(text@, old(ranges)@),
    ensures
        final(ranges)@ == old(ranges)@ + custom_spans(text@, strings(words@)),
        all_within(final(ranges)@, text@.len()),
        anchored(text@, final(ranges)@),
{
    let whole: String = text_of(text);
    let ghost list = strings(words@);
    let mut i: usize = 0;
    assert(old(ranges)@ + Seq::<Span>::empty() =~= old(ranges)@);
    while i < words.len()
        invariant
            i <= words@.len(),
            whole@ == text@,
            list == strings(words@),
            ranges@ == old(ranges)@ + custom_spans(text@, list.take(i as int)),
            all_within(ranges@, text@.len()),
            anchored(text@, ranges@),
        decreases words@.len() - i,
    {
        let word: Vec<char> = chars_of(words[i].as_str());
        let inner: Vec<char> = trim(&word);
        let ghost before = ranges@;
        proof {
            assert(list.take(i + 1).drop_last() =~= list.take(i as int));
            assert(list.take(i + 1).last() == words@[i as int]@);
        }
        if inner.len() > 0 {
            let name: String = text_of(&inner);
            let literal: String = regex::escape(name.as_str());
            let mut pattern: String = String::new();
            pattern.push_str(r"(?iu)\b");
            pattern.push_str(literal.as_str());
            pattern.push_str(r"\b");
            assert(pattern@ =~= literal_word(inner@));
            let found: Vec<Span> = find_spans(pattern.as_str(), whole.as_str());
            collect_removal_matches(ranges, text, &found, false);
            proof {
                lemma_filter_keeps_all(found@, removable(text@, false));
                assert(ranges@ =~= before + found@);
                assert forall|k: int| 0 <= k < ranges@.len() implies (
                #[trigger] ranges@[k]).within(text@.len()) && anchored_at(
                    text@,
                    ranges@[k].end as int,
                ) by {
                    if k < before.len() {
                        assert(ranges@[k] == before[k]);
                    } else {
                        assert(ranges@[k] == found@[k - before.len()]);
                    }
                }
                assert(old(ranges)@ + (custom_spans(text@, list.take(i as int)) + found@) =~= (old(
                    ranges,
                )@ + custom_spans(text@, list.take(i as int))) + found@);
            }
        } else {
            assert(custom_spans(text@, list.take(i as int)) + Seq::<Span>::empty() =~= custom_spans(
                text@,
                list.take(i as int),
            ));
        }
        i = i + 1;
    }
    assert(list.take(list.len() as int) =~= list);
}

/// White space adds nothing ordinary.
proof fn lemma_no_ordinary_space(s: Seq<char>)
    requires
        forall|k: int| 0 <= k < s.len() ==> whitespace(#[trigger] s[k]),
    ensures
        s.filter(ordinary()) == Seq::<char>::empty(),
    decreases s.len(),
{
    reveal(Seq::filter);
    if s.len() > 0 {
        assert(whitespace(s[s.len() - 1]));
        lemma_no_ordinary_space(s.drop_last());
    }
}

/// Collapsing runs of white space keeps the ordinary characters.
proof fn lemma_collapsing_keeps_ordinary(text: Seq<char>, i: int)
    requires
        0 <= i <= text.len(),
    ensures
        collapsed_from(text, i).filter(ordinary()) == text.skip(i).filter(ordinary()),
    decreases text.len() - i,
{
    let o = ordinary();
    let end = skip_while(text, i, horizontal_space());
    skip_while_is_a_run(text, i, horizontal_space());
    if i >= text.len() {
        assert(text.skip(i) =~= Seq::empty());
    } else {
        let next = if i + 2 <= end {
            end
        } else {
            i + 1
        };
        let head = if i + 2 <= end {
            seq![' ']
        } else {
            seq![text[i]]
        };
        let gone = text.subrange(i, next);
        lemma_collapsing_keeps_ordinary(text, next);
        Seq::filter_distributes_over_add(head, collapsed_from(text, next), o);
        Seq::filter_distributes_over_add(gone, text.skip(next), o);
        assert(text.skip(i) =~= gone + text.skip(next));
        if i + 2 <= end {
            assert forall|k: int| 0 <= k < gone.len() implies whitespace(#[trigger] gone[k]) by {
                assert(horizontal_space()(text[i + k]));
            }
            lemma_no_ordinary_space(gone);
            assert(head.filter(o) =~= Seq::empty()) by {
                reveal_with_fuel(Seq::filter, 2);
                assert(head.last() == ' ');
            }
        } else {
            assert(gone =~= head);
        }
    }
}

/// Trimming keeps the ordinary characters.
proof fn lemma_trimming_keeps_ordinary(text: Seq<char>)
    ensures
        trimmed(text).filter(ordinary()) == text.filter(ordinary()),
{
    let o = ordinary();
    let n = text.len() as int;
    let start = skip_while(text, 0, space());
    let end = back_while(text, n, space());
    skip_while_is_a_run(text, 0, space());
    back_while_is_a_run(text, n, space());
    if start < end {
        let a = text.take(start);
        let b = text.subrange(start, end);
        let c = text.skip(end);
        assert forall|k: int| 0 <= k < a.len() implies whitespace(#[trigger] a[k]) by {
            assert(space()(text[k]));
        }
        assert forall|k: int| 0 <= k < c.len() implies whitespace(#[trigger] c[k]) by {
            assert(space()(text[end + k]));
        }
        lemma_no_ordinary_space(a);
        lemma_no_ordinary_space(c);
        assert(text =~= (a + b) + c);
        Seq::filter_distributes_over_add(a + b, c, o);
        Seq::filter_distributes_over_add(a, b, o);
        assert(text.filter(o) =~= b.filter(o));
    } else {
        assert forall|k: int| 0 <= k < n implies whitespace(#[trigger] text[k]) by {
            if k < start {
                assert(space()(text[k]));
            } else {
                assert(space()(text[k]));
            }
        }
        lemma_no_ordinary_space(text);
        lemma_no_ordinary_space(Seq::empty());
    }
}

/// Collapsing runs of white space and trimming keeps the other characters.
pub proof fn clearing_keeps_ordinary_text(text: Seq<char>)
    ensures
        trimmed(spaces_collapsed(text)).filter(ordinary()) == text.filter(ordinary()),
{
    lemma_collapsing_keeps_ordinary(text, 0);
    assert(text.skip(0) =~= text);
    lemma_trimming_keeps_ordinary(spaces_collapsed(text));
}

/// Both lists together lie in the text and are anchored if each is.
proof fn lemma_both(text: Seq<char>, a: Seq<Span>, b: Seq<Span>)
    requires
        all_within(a, text.len()),
        all_within(b, text.len()),
        anchored(text, a),
        anchored(text, b),
    ensures
        all_within(a + b, text.len()),
        anchored(text, a + b),
{
    assert forall|k: int| 0 <= k < (a + b).len() implies (#[trigger] (a + b)[k]).within(text.len())
        && anchored_at(text, (a + b)[k].end as int) by {
        if k < a.len() {
            assert((a + b)[k] == a[k]);
        } else {
            assert((a + b)[k] == b[k - a.len()]);
        }
    }
}

/// The text without filler sounds, and without the words of the given list or, where
/// there is none, without the fillers of the language.
pub fn filter_transcription_output(
    text: &str,
    lang: &str,
    custom_filler_words: &Option<Vec<String>>,
) -> (r: String)
    ensures
        r@ == filtered(text@, lang@, word_list(*custom_filler_words)),
        all_within(
            removal_spans(text@, lang@, word_list(*custom_filler_words)),
            text@.len(),
        ),
        anchored(text@, removal_spans(text@, lang@, word_list(*custom_filler_words))),
        r@.filter(ordinary()) == outside(
            text@,
            removal_spans(text@, lang@, word_list(*custom_filler_words)),
        ).filter(ordinary()),
{
    let lang: &str = resolve_filler_language(lang, text);
    let chars: Vec<char> = chars_of(text);
    let mut ranges: Vec<Span> = Vec::new();
    let repeated_pattern: String = repeated_sound_pattern();
    let repeated: Vec<Span> = find_spans(repeated_pattern.as_str(), text);
    collect_removal_matches(&mut ranges, &chars, &repeated, true);
    let elongated: Vec<Span> = find_spans(ELONGATED_SOUND, text);
    collect_removal_matches(&mut ranges, &chars, &elongated, true);
    proof {
        let keep = removable(text@, true);
        lemma_filter_is_part(text@, repeated@, keep);
        lemma_filter_is_part(text@, elongated@, keep);
        lemma_both(text@, repeated@.filter(keep), elongated@.filter(keep));
        assert(ranges@ =~= sound_spans(text@));
    }
    match custom_filler_words {
        Some(words) => {
            collect_custom_matches(&mut ranges, &chars, words);
        },
        None => {
            let tokens: Vec<Span> = find_spans(TOKEN, text);
            let ghost sounds = ranges@;
            collect_builtin_filler_matches(&mut ranges, &chars, &tokens, lang);
            proof {
                let keep = filler_span(text@, lang@);
                lemma_filter_is_part(text@, tokens@, keep);
                lemma_both(text@, sounds, tokens@.filter(keep));
            }
        },
    }
    proof {
        ordinary_text_is_kept(text@, ranges@);
        clearing_keeps_ordinary_text(without_spans(text@, merged(ranges@)));
    }
    clear_spans(text, &ranges)
}

/// No two horizontal white space characters stand side by side.
pub open spec fn singly_spaced(text: Seq<char>) -> bool {
    forall|i: int|
        0 <= i < text.len() - 1 ==> !(horizontal_space()(#[trigger] text[i])
            && horizontal_space()(text[i + 1]))
}

/// A text without white space at its ends and without doubled white space in it.
pub open spec fn tidy(text: Seq<char>) -> bool {
    &&& text.len() > 0 ==> !whitespace(text[0]) && !whitespace(text.last())
    &&& singly_spaced(text)
}

/// Collapsing leaves no doubled white space.
proof fn lemma_collapsed_is_singly_spaced(text: Seq<char>, i: int)
    requires
        0 <= i <= text.len(),
    ensures
        singly_spaced(collapsed_from(text, i)),
        i < text.len() ==> collapsed_from(text, i).len() > 0,
        i < text.len() && !horizontal_space()(text[i]) ==> collapsed_from(text, i)[0] == text[i],
    decreases text.len() - i,
{
    let h = horizontal_space();
    let end = skip_while(text, i, h);
    skip_while_is_a_run(text, i, h);
    if i < text.len() {
        let next = if i + 2 <= end {
            end
        } else {
            i + 1
        };
        lemma_collapsed_is_singly_spaced(text, next);
        let r = collapsed_from(text, i);
        let rest = collapsed_from(text, next);
        assert(r.skip(1) =~= rest);
        assert forall|k: int| 0 <= k < r.len() - 1 implies !(h(#[trigger] r[k]) && h(
            r[k + 1],
        )) by {
            if k == 0 {
                assert(r[1] == rest[0]);
                if next >= text.len() {
                    assert(rest.len() == 0);
                } else if i + 2 <= end {
                    assert(!h(text[end]));
                } else if h(text[i]) {
                    assert(skip_while(text, i, h) == skip_while(text, i + 1, h));
                    skip_while_is_a_run(text, i + 1, h);
                    assert(!h(text[i + 1]));
                }
            } else {
                assert(r[k] == rest[k - 1]);
                assert(r[k + 1] == rest[k]);
            }
        }
    }
}

/// Collapsing changes nothing where no white space is doubled.
proof fn lemma_singly_spaced_is_kept(text: Seq<char>, i: int)
    requires
        0 <= i <= text.len(),
        singly_spaced(text),
    ensures
        collapsed_from(text, i) == text.skip(i),
    decreases text.len() - i,
{
    let h = horizontal_space();
    let end = skip_while(text, i, h);
    skip_while_is_a_run(text, i, h);
    if i < text.len() {
        if i + 2 <= end {
            assert(h(text[i]) && h(text[i + 1]));
        }
        lemma_singly_spaced_is_kept(text, i + 1);
        assert(text.skip(i) =~= seq![text[i]] + text.skip(i + 1));
    } else {
        assert(text.skip(i) =~= Seq::empty());
    }
}

/// The result has no white space at its ends and no doubled white space in it,
/// whatever is removed.
pub proof fn cleared_text_is_tidy(text: Seq<char>, spans: Seq<Span>)
    ensures
        tidy(cleared(text, spans)),
{
    let shorter = without_spans(text, merged(spans));
    lemma_collapsed_is_singly_spaced(shorter, 0);
    let c = spaces_collapsed(shorter);
    let n = c.len() as int;
    skip_while_is_a_run(c, 0, space());
    back_while_is_a_run(c, n, space());
    let start = skip_while(c, 0, space());
    let end = back_while(c, n, space());
    let r = cleared(text, spans);
    if start < end {
        assert(!space()(c[start]));
        assert(!space()(c[end - 1]));
        assert forall|i: int| 0 <= i < r.len() - 1 implies !(horizontal_space()(#[trigger] r[i])
            && horizontal_space()(r[i + 1])) by {
            assert(r[i] == c[start + i]);
            assert(r[i + 1] == c[start + i + 1]);
        }
    }
}

/// Nothing to remove leaves the text as it is, but for runs of white space and white
/// space at the ends.
pub proof fn clearing_nothing_only_tidies(text: Seq<char>)
    ensures
        cleared(text, Seq::empty()) == trimmed(spaces_collapsed(text)),
        tidy(text) ==> cleared(text, Seq::empty()) == text,
{
    let none = Seq::<Span>::empty();
    merged_is_a_merge(none);
    assert(is_merge(none, none));
    merge_is_unique(merged(none), none, none);
    if tidy(text) {
        lemma_singly_spaced_is_kept(text, 0);
        assert(text.skip(0) =~= text);
        if text.len() > 0 {
            assert(skip_while(text, 0, space()) == 0);
            assert(back_while(text, text.len() as int, space()) == text.len());
            assert(text.subrange(0, text.len() as int) =~= text);
        } else {
            assert(trimmed(text) =~= text);
        }
    }
}

/// Filtering a filtered text changes nothing where it holds no filler.
pub proof fn filtering_again_changes_nothing(
    text: Seq<char>,
    lang: Seq<char>,
    custom: Option<Seq<Seq<char>>>,
)
    requires
        removal_spans(filtered(text, lang, custom), lang, custom).len() == 0,
    ensures
        filtered(filtered(text, lang, custom), lang, custom) == filtered(text, lang, custom),
{
    let once = filtered(text, lang, custom);
    cleared_text_is_tidy(text, removal_spans(text, lang, custom));
    assert(removal_spans(once, lang, custom) =~= Seq::empty());
    clearing_nothing_only_tidies(once);
}

/// A language code counts up to its region only.
pub proof fn region_does_not_matter(
    text: Seq<char>,
    a: Seq<char>,
    b: Seq<char>,
    custom: Option<Seq<Seq<char>>>,
)
    requires
        base_language(a) == base_language(b),
    ensures
        filtered(text, a, custom) == filtered(text, b, custom),
{
}

/// A word list takes the place of the fillers of the language: with one, the
/// language does not matter.
pub proof fn word_list_overrides_language(
    text: Seq<char>,
    a: Seq<char>,
    b: Seq<char>,
    words: Seq<Seq<char>>,
)
    ensures
        filtered(text, a, Some(words)) == filtered(text, b, Some(words)),
{
}

/// An empty word list, or one of blank words, leaves only filler sounds to be
/// removed.
pub proof fn blank_word_list_disables_fillers(
    text: Seq<char>,
    lang: Seq<char>,
    words: Seq<Seq<char>>,
)
    requires
        forall|i: int| 0 <= i < words.len() ==> trimmed(#[trigger] words[i]).len() == 0,
    ensures
        removal_spans(text, lang, Some(words)) == sound_spans(text),
{
    lemma_blank_words(text, words);
    assert(sound_spans(text) + Seq::<Span>::empty() =~= sound_spans(text));
}

/// Blank words do not occur.
proof fn lemma_blank_words(text: Seq<char>, words: Seq<Seq<char>>)
    requires
        forall|i: int| 0 <= i < words.len() ==> trimmed(#[trigger] words[i]).len() == 0,
    ensures
        custom_spans(text, words) == Seq::<Span>::empty(),
    decreases words.len(),
{
    if words.len() > 0 {
        assert(trimmed(words[words.len() - 1]).len() == 0);
        lemma_blank_words(text, words.drop_last());
        assert(custom_spans(text, words) =~= Seq::empty());
    }
}

/// Without a word list no abbreviation is removed as such.
pub proof fn abbreviations_are_no_fillers(text: Seq<char>, lang: Seq<char>, i: int)
    requires
        0 <= i < removal_spans(text, lang, None).len(),
    ensures
        !acronym(removal_spans(text, lang, None)[i].of(text)),
{
    broadcast use vstd::seq_lib::group_filter_ensures;

    let repeated = pattern_spans(repeated_sound(), text);
    let elongated = pattern_spans(ELONGATED_SOUND@, text);
    let tokens = pattern_spans(TOKEN@, text);
    let keep = removable(text, true);
    let filler = filler_span(text, filler_language(lang, text));
    let (a, b, c) = (repeated.filter(keep), elongated.filter(keep), tokens.filter(filler));
    if i < a.len() {
        assert(removal_spans(text, lang, None)[i] == a[i]);
        assert(keep(a[i]));
    } else if i < a.len() + b.len() {
        assert(removal_spans(text, lang, None)[i] == b[i - a.len()]);
        assert(keep(b[i - a.len()]));
    } else {
        assert(removal_spans(text, lang, None)[i] == c[i - a.len() - b.len()]);
        assert(filler(c[i - a.len() - b.len()]));
    }
}

/// Collapsing copies a text without doubled white space one by one.
proof fn lemma_collapsing_copies(text: Seq<char>, part: Seq<char>, x: int, k: int)
    requires
        occurs_at(text, part, x),
        0 <= k <= part.len(),
        part.len() > 0,
        singly_spaced(part),
        !horizontal_space()(part.last()),
    ensures
        collapsed_from(text, x + k) == part.skip(k) + collapsed_from(text, x + part.len()),
    decreases part.len() - k,
{
    let h = horizontal_space();
    let n = part.len() as int;
    if k == n {
        assert(part.skip(k) =~= Seq::empty());
        assert(Seq::<char>::empty() + collapsed_from(text, x + n) =~= collapsed_from(text, x + n));
    } else {
        let i = x + k;
        assert(text.subrange(x, x + n)[k] == text[i]);
        lemma_collapsing_copies(text, part, x, k + 1);
        skip_while_is_a_run(text, i, h);
        if i + 2 <= skip_while(text, i, h) {
            assert(h(text[i]) && h(text[i + 1]));
            if k + 1 < n {
                assert(text.subrange(x, x + n)[k + 1] == text[i + 1]);
                assert(h(part[k]) && h(part[k + 1]));
            }
        }
        assert(part.skip(k) =~= seq![part[k]] + part.skip(k + 1));
        assert(collapsed_from(text, i) =~= seq![part[k]] + (part.skip(k + 1) + collapsed_from(
            text,
            x + n,
        )));
        assert(seq![part[k]] + (part.skip(k + 1) + collapsed_from(text, x + n)) =~= (seq![part[k]]
            + part.skip(k + 1)) + collapsed_from(text, x + n));
    }
}

/// Collapsing keeps a text without doubled white space that stands at `x`.
proof fn lemma_collapsing_keeps(text: Seq<char>, part: Seq<char>, x: int, i: int)
    requires
        occurs_at(text, part, x),
        0 <= i <= x,
        part.len() > 0,
        singly_spaced(part),
        !horizontal_space()(part[0]),
        !horizontal_space()(part.last()),
    ensures
        contains_text(collapsed_from(text, i), part),
    decreases x - i,
{
    let h = horizontal_space();
    let n = part.len() as int;
    assert(text.subrange(x, x + n)[0] == text[x]);
    if i == x {
        lemma_collapsing_copies(text, part, x, 0);
        assert(part.skip(0) =~= part);
        let c = collapsed_from(text, x);
        assert(c.subrange(0, n) =~= part);
        assert(occurs_at(c, part, 0));
    } else {
        skip_while_is_a_run(text, i, h);
        let end = skip_while(text, i, h);
        if end > x {
            assert(h(text[x]));
        }
        let next = if i + 2 <= end {
            end
        } else {
            i + 1
        };
        lemma_collapsing_keeps(text, part, x, next);
        let rest = collapsed_from(text, next);
        let c = collapsed_from(text, i);
        let y = choose|y: int| occurs_at(rest, part, y);
        assert(c.subrange(y + 1, y + 1 + n) =~= rest.subrange(y, y + n));
        assert(occurs_at(c, part, y + 1));
    }
}

/// Trimming keeps a text that starts and ends without white space.
proof fn lemma_trimming_keeps(text: Seq<char>, part: Seq<char>)
    requires
        contains_text(text, part),
        part.len() > 0,
        !whitespace(part[0]),
        !whitespace(part.last()),
    ensures
        contains_text(trimmed(text), part),
{
    let x = choose|x: int| occurs_at(text, part, x);
    let n = part.len() as int;
    let start = skip_while(text, 0, space());
    let end = back_while(text, text.len() as int, space());
    skip_while_is_a_run(text, 0, space());
    back_while_is_a_run(text, text.len() as int, space());
    assert(text.subrange(x, x + n)[0] == text[x]);
    assert(text.subrange(x, x + n)[n - 1] == text[x + n - 1]);
    if x < start {
        assert(space()(text[x]));
    }
    if x + n > end {
        assert(space()(text[x + n - 1]));
    }
    assert(trimmed(text).subrange(x - start, x - start + n) =~= text.subrange(x, x + n));
    assert(occurs_at(trimmed(text), part, x - start));
}

/// What is said and not removed stays: a stretch of the text that no span covers or
/// touches is in the result as it stands, if it starts and ends with an ordinary
/// character and holds no doubled white space.
pub proof fn untouched_stretch_stays(text: Seq<char>, spans: Seq<Span>, a: int, b: int)
    requires
        all_within(spans, text.len()),
        anchored(text, spans),
        0 <= a < b <= text.len(),
        ordinary()(text[a]),
        ordinary()(text[b - 1]),
        singly_spaced(text.subrange(a, b)),
        forall|x: int| 2 * a < x < 2 * b ==> !#[trigger] covered(spans, x),
    ensures
        contains_text(cleared(text, spans), text.subrange(a, b)),
{
    let part = text.subrange(a, b);
    let shorter = without_spans(text, merged(spans));
    untouched_stretch_is_copied(text, spans, a, b);
    let x = choose|x: int| occurs_at(shorter, part, x);
    lemma_collapsing_keeps(shorter, part, x, 0);
    lemma_trimming_keeps(spaces_collapsed(shorter), part);
}

} // verus!
