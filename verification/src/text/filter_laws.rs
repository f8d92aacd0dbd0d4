//! What holds of removing fillers from a transcript.
use super::filler_laws::{all_capitals, loud_filler, ordinary_word, ordinary_words_are_no_fillers};
use super::fillers::{filler_language, filler_span, filler_token, removable};
use super::filter::{
    cleared, clearing_keeps_ordinary_text, custom_spans, filtered, removal_spans, singly_spaced, sound_spans,
    untouched_stretch_stays,
};
use super::boundary::without_spans;
use super::kept::{anchored, ordinary, ordinary_text_is_kept, outside};
use super::patterns::{
    all_within, literal_word, pattern_spans, repeated_sound, Span, ELONGATED_SOUND, TOKEN,
};
use super::spans::{covered, merged};
use super::strings::{contains_text, trimmed};
use vstd::prelude::*;

verus! {

/// A filter keeps exactly the members that satisfy it.
proof fn lemma_filter_members(spans: Seq<Span>, keep: spec_fn(Span) -> bool, span: Span)
    ensures
        spans.filter(keep).contains(span) <==> spans.contains(span) && keep(span),
    decreases spans.len(),
{
    reveal(Seq::filter);
    if spans.len() > 0 {
        let rest = spans.drop_last();
        let last = spans.last();
        lemma_filter_members(rest, keep, span);
        lemma_sum_members(rest, seq![last], span);
        assert(rest + seq![last] =~= spans);
        assert(seq![last].contains(span) <==> last == span) by {
            assert(seq![last][0] == last);
        }
        if keep(last) {
            lemma_sum_members(rest.filter(keep), seq![last], span);
            assert(rest.filter(keep) + seq![last] =~= spans.filter(keep));
        }
    }
}

/// A list put together holds what its parts hold.
proof fn lemma_sum_members(a: Seq<Span>, b: Seq<Span>, span: Span)
    ensures
        (a + b).contains(span) <==> a.contains(span) || b.contains(span),
{
    if a.contains(span) {
        let i = a.index_of(span);
        assert((a + b)[i] == span);
    }
    if b.contains(span) {
        let i = b.index_of(span);
        assert((a + b)[a.len() + i] == span);
    }
    if (a + b).contains(span) {
        let i = (a + b).index_of(span);
        if i < a.len() {
            assert(a[i] == span);
        } else {
            assert(b[i - a.len()] == span);
        }
    }
}

/// A stretched or repeated sound that is no abbreviation.
pub open spec fn sound_at(text: Seq<char>, span: Span) -> bool {
    &&& pattern_spans(repeated_sound(), text).contains(span) || pattern_spans(
        ELONGATED_SOUND@,
        text,
    ).contains(span)
    &&& !all_capitals(span.of(text)) || loud_filler(span.of(text))
}

/// Without a word list, what is removed is exactly the stretched and repeated sounds
/// that are no abbreviations, and the tokens that are fillers of the language.
pub proof fn fillers_are_what_is_removed(text: Seq<char>, lang: Seq<char>, span: Span)
    ensures
        removal_spans(text, lang, None).contains(span) <==> sound_at(text, span) || (pattern_spans(
            TOKEN@,
            text,
        ).contains(span) && filler_token(span.of(text), filler_language(lang, text))),
        sound_spans(text).contains(span) <==> sound_at(text, span),
{
    let a = pattern_spans(repeated_sound(), text);
    let b = pattern_spans(ELONGATED_SOUND@, text);
    let t = pattern_spans(TOKEN@, text);
    let keep = removable(text, true);
    let filler = filler_span(text, filler_language(lang, text));
    lemma_filter_members(a, keep, span);
    lemma_filter_members(b, keep, span);
    lemma_filter_members(t, filler, span);
    lemma_sum_members(a.filter(keep), b.filter(keep), span);
    lemma_sum_members(sound_spans(text), t.filter(filler), span);
}

/// With a word list, what is removed is exactly the sounds and the occurrences of the
/// words of the list that are not blank, whatever the language.
pub proof fn listed_words_are_what_is_removed(
    text: Seq<char>,
    lang: Seq<char>,
    words: Seq<Seq<char>>,
    span: Span,
)
    ensures
        removal_spans(text, lang, Some(words)).contains(span) <==> sound_at(text, span) || (exists|
            k: int,
        |
            0 <= k < words.len() && occurrence(text, #[trigger] words[k], span)),
{
    fillers_are_what_is_removed(text, lang, span);
    lemma_sum_members(sound_spans(text), custom_spans(text, words), span);
    lemma_custom_members(text, words, span);
}

/// The span is an occurrence of the word, without the white space around it.
pub open spec fn occurrence(text: Seq<char>, word: Seq<char>, span: Span) -> bool {
    trimmed(word).len() > 0 && pattern_spans(literal_word(trimmed(word)), text).contains(span)
}

/// The occurrences of the words of a list are those of each of them.
proof fn lemma_custom_members(text: Seq<char>, words: Seq<Seq<char>>, span: Span)
    ensures
        custom_spans(text, words).contains(span) <==> exists|k: int|
            0 <= k < words.len() && occurrence(text, #[trigger] words[k], span),
    decreases words.len(),
{
    if words.len() > 0 {
        let rest = words.drop_last();
        let n = words.len() - 1;
        lemma_custom_members(text, rest, span);
        let word = trimmed(words.last());
        let added = if word.len() == 0 {
            Seq::empty()
        } else {
            pattern_spans(literal_word(word), text)
        };
        lemma_sum_members(custom_spans(text, rest), added, span);
        assert(words[n] == words.last());
        if exists|k: int| 0 <= k < words.len() && occurrence(text, #[trigger] words[k], span) {
            let k = choose|k: int|
                0 <= k < words.len() && occurrence(text, #[trigger] words[k], span);
            if k < n {
                assert(rest[k] == words[k]);
            }
        }
        if exists|k: int| 0 <= k < rest.len() && occurrence(text, #[trigger] rest[k], span) {
            let k = choose|k: int| 0 <= k < rest.len() && occurrence(text, #[trigger] rest[k], span);
            assert(words[k] == rest[k]);
        }
    }
}

/// The span reaches into the part of a text from `a` to `b`.
pub open spec fn reaches(span: Span, a: int, b: int) -> bool {
    span.start < b && a < span.end || (a < span.start == span.end < b)
}

/// Ordinary words stay as they stand: a stretch of the transcript into which no
/// stretched sound reaches, and of whose tokens each is an ordinary word of the
/// language, is in the result unchanged.
pub proof fn ordinary_words_stay(text: Seq<char>, lang: Seq<char>, a: int, b: int)
    requires
        all_within(removal_spans(text, lang, None), text.len()),
        anchored(text, removal_spans(text, lang, None)),
        0 <= a < b <= text.len(),
        ordinary()(text[a]),
        ordinary()(text[b - 1]),
        singly_spaced(text.subrange(a, b)),
        forall|span: Span|
            reaches(span, a, b) ==> !#[trigger] sound_at(text, span),
        forall|span: Span|
            reaches(span, a, b) && #[trigger] pattern_spans(TOKEN@, text).contains(span)
                ==> ordinary_word(span.of(text), filler_language(lang, text)),
    ensures
        contains_text(filtered(text, lang, None), text.subrange(a, b)),
{
    let spans = removal_spans(text, lang, None);
    assert forall|x: int| 2 * a < x < 2 * b implies !#[trigger] covered(spans, x) by {
        if covered(spans, x) {
            let i = choose|i: int|
                0 <= i < spans.len() && 2 * (#[trigger] spans[i]).start <= x && x <= 2
                    * spans[i].end;
            let span = spans[i];
            assert(span.within(text.len()));
            assert(reaches(span, a, b));
            assert(spans.contains(span));
            fillers_are_what_is_removed(text, lang, span);
            if pattern_spans(TOKEN@, text).contains(span) {
                ordinary_words_are_no_fillers(span.of(text), filler_language(lang, text));
            }
            assert(!sound_at(text, span));
        }
    }
    untouched_stretch_stays(text, spans, a, b);
}

/// Nothing but what is to be removed, white space and soft punctuation gets lost, and
/// what is to be removed does: the other characters of the result are, in their order,
/// those of the transcript outside of it.
pub proof fn only_fillers_get_lost(
    text: Seq<char>,
    lang: Seq<char>,
    custom: Option<Seq<Seq<char>>>,
)
    requires
        all_within(removal_spans(text, lang, custom), text.len()),
        anchored(text, removal_spans(text, lang, custom)),
    ensures
        filtered(text, lang, custom).filter(ordinary()) == outside(
            text,
            removal_spans(text, lang, custom),
        ).filter(ordinary()),
{
    let spans = removal_spans(text, lang, custom);
    ordinary_text_is_kept(text, spans);
    clearing_keeps_ordinary_text(without_spans(text, merged(spans)));
}

/// What stands outside of spans goes character by character: a character in one of them
/// is not there, and every other is.
pub proof fn outside_goes_by_characters(text: Seq<char>, c: char, spans: Seq<Span>, k: int)
    ensures
        outside(Seq::empty(), spans) == Seq::<char>::empty(),
        0 <= k < spans.len() && spans[k].start <= text.len() < spans[k].end ==> outside(
            text.push(c),
            spans,
        ) == outside(text, spans),
        (forall|i: int|
            0 <= i < spans.len() ==> !((#[trigger] spans[i]).start <= text.len() < spans[i].end))
            ==> outside(text.push(c), spans) == outside(text, spans).push(c),
{
    assert(text.push(c).drop_last() =~= text);
    let x = 2 * (text.len() as int) + 1;
    if 0 <= k < spans.len() && spans[k].start <= text.len() < spans[k].end {
        assert(2 * spans[k].start <= x && x <= 2 * spans[k].end);
        assert(covered(spans, x));
    }
    if covered(spans, x) {
        let i = choose|i: int|
            0 <= i < spans.len() && 2 * (#[trigger] spans[i]).start <= x && x <= 2 * spans[i].end;
        assert(spans[i].start <= text.len() < spans[i].end);
    }
}

/// A transcript of ordinary words without a stretched sound is not touched, but for
/// its white space.
pub proof fn transcript_without_fillers_stays(text: Seq<char>, lang: Seq<char>)
    requires
        forall|span: Span| !#[trigger] sound_at(text, span),
        forall|span: Span| #[trigger]
            pattern_spans(TOKEN@, text).contains(span) ==> ordinary_word(
                span.of(text),
                filler_language(lang, text),
            ),
    ensures
        filtered(text, lang, None) == cleared(text, Seq::empty()),
{
    let spans = removal_spans(text, lang, None);
    if spans.len() > 0 {
        let span = spans[0];
        assert(spans.contains(span));
        fillers_are_what_is_removed(text, lang, span);
        assert(!sound_at(text, span));
        ordinary_words_are_no_fillers(span.of(text), filler_language(lang, text));
    }
    assert(spans =~= Seq::empty());
}

} // verus!
