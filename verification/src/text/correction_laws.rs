//! What a correction takes from the transcript and what from the custom words.
use super::custom_word_laws::closest_key_is_first_of_closest;
use super::custom_words::{
    acceptable, ampersands_spelt, ascii_alphanumeric, ascii_letter, best_match, best_ngram,
    case_preserved, closest_key, corrected, corrected_from, crosses_punctuation, edit_distance, key_score,
    keys_of_word, keys_of_words, mark, match_key, ngram_key, prefix_of, score, sounds_alike,
    soundable_key, suffix_of, supported_key, too_different,
};
use super::strings::{
    back_while, back_while_is_a_run, joined, skip_while, skip_while_is_a_run, words_of,
};
use super::unicode::{alphanumeric, lowercase_mapping, uppercase, uppercase_mapping, uppercased};
use crate::binary64::Binary64;
use vstd::prelude::*;

verus! {

/// The first letter or digit of `word` stands at `a`, or there is none and `a` is its
/// end.
pub open spec fn leads(word: Seq<char>, a: int) -> bool {
    &&& 0 <= a <= word.len()
    &&& forall|k: int| 0 <= k < a ==> !alphanumeric(#[trigger] word[k])
    &&& a < word.len() ==> alphanumeric(word[a])
}

/// The last letter or digit of `word` stands before `b`, or there is none and `b` is
/// its start.
pub open spec fn trails(word: Seq<char>, b: int) -> bool {
    &&& 0 <= b <= word.len()
    &&& forall|k: int| b <= k < word.len() ==> !alphanumeric(#[trigger] word[k])
    &&& b > 0 ==> alphanumeric(word[b - 1])
}

/// No punctuation stands at the end of any of the `n` words from `i` on but the last.
pub open spec fn unbroken(words: Seq<Seq<char>>, i: int, n: int) -> bool {
    forall|j: int|
        i <= j < i + n - 1 && (#[trigger] words[j]).len() > 0 ==> alphanumeric(words[j].last())
}

/// The punctuation at the ends of a word is what stands before its first and behind its
/// last letter or digit.
pub proof fn ends_are_what_is_no_letter(word: Seq<char>, a: int, b: int)
    ensures
        leads(word, a) ==> prefix_of(word) == word.take(a),
        trails(word, b) ==> suffix_of(word) == word.skip(b),
        suffix_of(word).len() == 0 <==> word.len() == 0 || alphanumeric(word.last()),
{
    let n = word.len() as int;
    let s = skip_while(word, 0, mark());
    let e = back_while(word, n, mark());
    skip_while_is_a_run(word, 0, mark());
    back_while_is_a_run(word, n, mark());
    if leads(word, a) {
        if s < a {
            assert(!alphanumeric(word[s]));
        } else if s > a {
            assert(mark()(word[a]));
        }
    }
    if trails(word, b) {
        if e > b {
            assert(!alphanumeric(word[e - 1]));
        } else if e < b {
            assert(mark()(word[b - 1]));
        }
    }
    if n > 0 && alphanumeric(word.last()) && e < n {
        assert(mark()(word[n - 1]));
    }
}

/// A match is named by the closest of the acceptable keys, the first of those that are
/// equally close: the word is that of the key, and the score that of the candidate for
/// it.
pub proof fn match_is_that_of_the_closest_key(
    candidate: Seq<char>,
    keys: Seq<(int, Seq<char>)>,
    threshold: Binary64,
) -> (k: int)
    requires
        best_match(candidate, keys, threshold) is Some,
    ensures
        0 <= k < keys.len(),
        best_match(candidate, keys, threshold) == Some(
            (keys[k].0, key_score(candidate, keys[k].1)->0),
        ),
        acceptable(candidate, keys[k].1, threshold),
        forall|j: int|
            0 <= j < keys.len() && acceptable(candidate, (#[trigger] keys[j]).1, threshold) ==> {
                let least = key_score(candidate, keys[k].1)->0;
                let other = key_score(candidate, keys[j].1)->0;
                if j < k {
                    least.below(other)
                } else {
                    !other.below(least)
                }
            },
{
    closest_key_is_first_of_closest(candidate, keys, threshold, keys.len() as int);
    closest_key(candidate, keys, threshold, keys.len() as int)->0
}

/// Where words are replaced by a custom word, the punctuation around them stays: the
/// replacement begins with all that stands before the first letter or digit of the
/// first word and ends with all that stands behind the last one of the last word, and
/// between them is just the custom word in the case pattern of the first word. The
/// correction goes on behind the replaced words.
pub proof fn correction_keeps_the_punctuation(
    words: Seq<Seq<char>>,
    i: int,
    custom_words: Seq<Seq<char>>,
    keys: Seq<(int, Seq<char>)>,
    threshold: Binary64,
    a: int,
    b: int,
)
    requires
        0 <= i < words.len(),
        best_ngram(words, i, keys, threshold) matches Some((n, _, _)) && leads(words[i], a)
            && trails(words[i + n - 1], b),
    ensures
        ({
            let (n, word, _) = best_ngram(words, i, keys, threshold)->0;
            let r = corrected_from(words, i, custom_words, keys, threshold);
            &&& 1 <= n <= 3
            &&& i + n <= words.len()
            &&& r.len() > 0
            &&& r[0] == words[i].take(a) + case_preserved(words[i], custom_words[word]) + words[i
                + n - 1].skip(b)
            &&& r.skip(1) == corrected_from(words, i + n, custom_words, keys, threshold)
        }),
{
    let (n, word, _) = best_ngram(words, i, keys, threshold)->0;
    ends_are_what_is_no_letter(words[i], a, 0);
    ends_are_what_is_no_letter(words[i + n - 1], 0, b);
    let r = corrected_from(words, i, custom_words, keys, threshold);
    assert(r.skip(1) =~= corrected_from(words, i + n, custom_words, keys, threshold));
}

/// A word at which no match begins stays as it is, and the correction goes on with the
/// next word.
pub proof fn word_without_match_stays(
    words: Seq<Seq<char>>,
    i: int,
    custom_words: Seq<Seq<char>>,
    keys: Seq<(int, Seq<char>)>,
    threshold: Binary64,
)
    requires
        0 <= i < words.len(),
        best_ngram(words, i, keys, threshold) is None,
    ensures
        ({
            let r = corrected_from(words, i, custom_words, keys, threshold);
            &&& r.len() > 0
            &&& r[0] == words[i]
            &&& r.skip(1) == corrected_from(words, i + 1, custom_words, keys, threshold)
        }),
{
    let r = corrected_from(words, i, custom_words, keys, threshold);
    assert(r.skip(1) =~= corrected_from(words, i + 1, custom_words, keys, threshold));
}

/// `cuts` parts the words from `i` on into runs of one to three.
pub open spec fn parts(words: Seq<Seq<char>>, i: int, cuts: Seq<int>) -> bool {
    &&& cuts.len() >= 1
    &&& cuts[0] == i
    &&& cuts.last() == words.len()
    &&& forall|k: int| 0 <= k < cuts.len() - 1 ==> #[trigger] run_at(cuts, k)
}

/// The run at `k` is one to three words long.
pub open spec fn run_at(cuts: Seq<int>, k: int) -> bool {
    cuts[k] + 1 <= cuts[k + 1] <= cuts[k] + 3
}

/// The run at `k` is one word that stays.
pub open spec fn stays(
    words: Seq<Seq<char>>,
    cuts: Seq<int>,
    result: Seq<Seq<char>>,
    k: int,
) -> bool {
    cuts[k + 1] == cuts[k] + 1 && result[k] == words[cuts[k]]
}

/// The run at `k` is replaced by the custom word at `w`, between the punctuation at the
/// ends of the run.
pub open spec fn replaced(
    words: Seq<Seq<char>>,
    custom_words: Seq<Seq<char>>,
    cuts: Seq<int>,
    result: Seq<Seq<char>>,
    k: int,
    w: int,
) -> bool {
    let first = words[cuts[k]];
    let last = words[cuts[k + 1] - 1];
    exists|a: int, b: int|
        #![trigger leads(first, a), trails(last, b)]
        leads(first, a) && trails(last, b) && result[k] == first.take(a) + case_preserved(
            first,
            custom_words[w],
        ) + last.skip(b)
}

/// What comes of the run at `k`: where no match begins, a word that stays, and else the
/// custom word of the best match.
pub open spec fn comes_of_run(
    words: Seq<Seq<char>>,
    custom_words: Seq<Seq<char>>,
    keys: Seq<(int, Seq<char>)>,
    threshold: Binary64,
    cuts: Seq<int>,
    result: Seq<Seq<char>>,
    k: int,
) -> bool {
    match best_ngram(words, cuts[k], keys, threshold) {
        None => stays(words, cuts, result, k),
        Some((n, w, _)) => cuts[k + 1] == cuts[k] + n && replaced(
            words,
            custom_words,
            cuts,
            result,
            k,
            w,
        ),
    }
}

/// A correction takes the words of the transcript one run after the other, each word in
/// one run, and gives one word for each run: the word itself, or a custom word with the
/// punctuation at the ends of the run around it.
pub proof fn correction_goes_run_by_run(
    words: Seq<Seq<char>>,
    i: int,
    custom_words: Seq<Seq<char>>,
    keys: Seq<(int, Seq<char>)>,
    threshold: Binary64,
) -> (cuts: Seq<int>)
    requires
        0 <= i <= words.len(),
    ensures
        parts(words, i, cuts),
        ({
            let r = corrected_from(words, i, custom_words, keys, threshold);
            &&& r.len() == cuts.len() - 1
            &&& forall|k: int|
                0 <= k < r.len() ==> #[trigger] comes_of_run(
                    words,
                    custom_words,
                    keys,
                    threshold,
                    cuts,
                    r,
                    k,
                )
        }),
    decreases words.len() - i,
{
    let r = corrected_from(words, i, custom_words, keys, threshold);
    if i == words.len() {
        assert(r =~= Seq::empty());
        seq![i]
    } else {
        let n = match best_ngram(words, i, keys, threshold) {
            Some((n, _, _)) => n,
            None => 1,
        };
        let later = correction_goes_run_by_run(words, i + n, custom_words, keys, threshold);
        let rest = corrected_from(words, i + n, custom_words, keys, threshold);
        let cuts = seq![i] + later;
        assert(r.len() == rest.len() + 1 && r.skip(1) =~= rest);
        assert(cuts.last() == later.last());
        assert forall|k: int| 0 <= k < cuts.len() - 1 implies #[trigger] run_at(cuts, k) by {
            assert(cuts[k + 1] == later[k]);
            if k > 0 {
                assert(cuts[k] == later[k - 1]);
                assert(run_at(later, k - 1));
            }
        }
        assert forall|k: int| 0 <= k < r.len() implies #[trigger] comes_of_run(
            words,
            custom_words,
            keys,
            threshold,
            cuts,
            r,
            k,
        ) by {
            assert(cuts[k + 1] == later[k]);
            if k > 0 {
                assert(cuts[k] == later[k - 1]);
                assert(r[k] == rest[k - 1]);
                assert(comes_of_run(words, custom_words, keys, threshold, later, rest, k - 1));
                match best_ngram(words, cuts[k], keys, threshold) {
                    None => {
                        assert(stays(words, later, rest, k - 1));
                    },
                    Some((_, w, _)) => {
                        assert(replaced(words, custom_words, later, rest, k - 1, w));
                        let first = words[cuts[k]];
                        let last = words[cuts[k + 1] - 1];
                        let (a, b) = choose|a: int, b: int|
                            #![trigger leads(first, a), trails(last, b)]
                            leads(first, a) && trails(last, b) && rest[k - 1] == first.take(a)
                                + case_preserved(first, custom_words[w]) + last.skip(b);
                        assert(leads(first, a) && trails(last, b));
                        assert(replaced(words, custom_words, cuts, r, k, w));
                    },
                }
            } else if best_ngram(words, i, keys, threshold) is Some {
                let w = (best_ngram(words, i, keys, threshold)->0).1;
                let first = words[i];
                let last = words[i + n - 1];
                let a = skip_while(first, 0, mark());
                let b = back_while(last, last.len() as int, mark());
                skip_while_is_a_run(first, 0, mark());
                back_while_is_a_run(last, last.len() as int, mark());
                assert(leads(first, a)) by {
                    assert forall|j: int| 0 <= j < a implies !alphanumeric(
                        #[trigger] first[j],
                    ) by {
                        assert(mark()(first[j]));
                    }
                }
                assert(trails(last, b)) by {
                    assert forall|j: int| b <= j < last.len() implies !alphanumeric(
                        #[trigger] last[j],
                    ) by {
                        assert(mark()(last[j]));
                    }
                }
                assert(r[0] == first.take(a) + case_preserved(first, custom_words[w]) + last.skip(
                    b,
                ));
            }
        }
        cuts
    }
}

/// The word is spelt like the custom word at `j`, as far as letters and digits go.
pub open spec fn spelt_like(word: Seq<char>, custom_words: Seq<Seq<char>>, j: int) -> bool {
    let key = match_key(word);
    &&& 0 <= j < custom_words.len()
    &&& match_key(custom_words[j]) == key
    &&& 0 < key.len() <= 50
    &&& forall|i: int| 0 <= i < key.len() ==> plain_letter_or_digit(#[trigger] key[i])
}

/// A transcript is corrected run by run: its words are parted into runs of one to
/// three, each gives one word, and single spaces join those. A run that is not replaced
/// is one word that stays, and a word that is spelt like one of the custom words never
/// is such a run under a threshold from zero on.
pub proof fn transcript_is_corrected_run_by_run(
    text: Seq<char>,
    custom_words: Seq<Seq<char>>,
    threshold: Binary64,
) -> (r: (Seq<int>, Seq<Seq<char>>))
    requires
        custom_words.len() > 0,
    ensures
        parts(words_of(text), 0, r.0),
        r.1.len() == r.0.len() - 1,
        corrected(text, custom_words, threshold) == joined(r.1, seq![' ']),
        forall|k: int|
            0 <= k < r.1.len() ==> #[trigger] stays(words_of(text), r.0, r.1, k) || exists|w: int|
                0 <= w < custom_words.len() && #[trigger] replaced(
                    words_of(text),
                    custom_words,
                    r.0,
                    r.1,
                    k,
                    w,
                ),
        !threshold.nan() && threshold.value() >= 0 ==> forall|k: int, j: int|
            0 <= k < r.1.len() && #[trigger] spelt_like(words_of(text)[r.0[k]], custom_words, j)
                ==> exists|w: int|
                0 <= w < custom_words.len() && #[trigger] replaced(
                    words_of(text),
                    custom_words,
                    r.0,
                    r.1,
                    k,
                    w,
                ),
{
    let words = words_of(text);
    let keys = keys_of_words(custom_words, custom_words.len() as int);
    let result = corrected_from(words, 0, custom_words, keys, threshold);
    let cuts = correction_goes_run_by_run(words, 0, custom_words, keys, threshold);
    reveal_strlit(" ");
    assert(" "@ =~= seq![' ']);
    assert forall|k: int| 0 <= k < result.len() implies #[trigger] stays(words, cuts, result, k)
        || exists|w: int|
        0 <= w < custom_words.len() && #[trigger] replaced(
            words,
            custom_words,
            cuts,
            result,
            k,
            w,
        ) by {
        assert(comes_of_run(words, custom_words, keys, threshold, cuts, result, k));
        lemma_match_is_a_custom_word(words, cuts[k], custom_words, threshold);
    }
    if !threshold.nan() && threshold.value() >= 0 {
        assert forall|k: int, j: int|
            0 <= k < result.len() && #[trigger] spelt_like(
                words[cuts[k]],
                custom_words,
                j,
            ) implies exists|w: int|
            0 <= w < custom_words.len() && #[trigger] replaced(
                words,
                custom_words,
                cuts,
                result,
                k,
                w,
            ) by {
            let i = cuts[k];
            let key = match_key(words[i]);
            lemma_cuts_are_in_range(words, 0, cuts, k);
            keys_are_plain(key);
            custom_word_has_its_keys(custom_words[j], j, key);
            every_custom_word_has_its_keys(custom_words, custom_words.len() as int, j, key);
            let at = keys.index_of((j, key));
            assert(keys[at] == (j, key));
            let one = words.subrange(i, i + 1);
            assert(one.drop_last() =~= Seq::empty());
            assert(one.last() == words[i]);
            assert(ngram_key(one.drop_last()) =~= Seq::empty());
            assert(ngram_key(one) =~= key);
            equal_words_are_corrected(words, i, keys, threshold, 1, at);
            assert(comes_of_run(words, custom_words, keys, threshold, cuts, result, k));
            lemma_match_is_a_custom_word(words, i, custom_words, threshold);
        }
    }
    (cuts, result)
}

/// A match names one of the custom words.
proof fn lemma_match_is_a_custom_word(
    words: Seq<Seq<char>>,
    i: int,
    custom_words: Seq<Seq<char>>,
    threshold: Binary64,
)
    ensures
        ({
            let keys = keys_of_words(custom_words, custom_words.len() as int);
            best_ngram(words, i, keys, threshold) matches Some((_, w, _)) ==> 0 <= w
                < custom_words.len()
        }),
{
    let count = custom_words.len() as int;
    let keys = keys_of_words(custom_words, count);
    if best_ngram(words, i, keys, threshold) is Some {
        match_is_of_the_words(words, i, keys, threshold);
        let (n, w, _) = best_ngram(words, i, keys, threshold)->0;
        let k = match_is_that_of_the_closest_key(
            ngram_key(words.subrange(i, i + n)),
            keys,
            threshold,
        );
        assert(keys.contains(keys[k]));
        every_custom_word_has_its_keys(custom_words, count, keys[k].0, keys[k].1);
    }
}

/// Runs begin at words that are there.
proof fn lemma_cuts_are_in_range(words: Seq<Seq<char>>, i: int, cuts: Seq<int>, k: int)
    requires
        0 <= i,
        parts(words, i, cuts),
        0 <= k < cuts.len() - 1,
    ensures
        i <= cuts[k] < words.len(),
    decreases cuts.len(),
{
    lemma_cuts_grow(cuts, 0, k);
    lemma_cuts_grow(cuts, k, cuts.len() - 1);
}

/// Later runs begin later.
proof fn lemma_cuts_grow(cuts: Seq<int>, a: int, b: int)
    requires
        0 <= a <= b < cuts.len(),
        forall|k: int| 0 <= k < cuts.len() - 1 ==> #[trigger] run_at(cuts, k),
    ensures
        cuts[a] + (b - a) <= cuts[b],
    decreases b - a,
{
    if a < b {
        lemma_cuts_grow(cuts, a, b - 1);
        assert(run_at(cuts, b - 1));
    }
}

/// A match takes one, two or three words that are all there, with no punctuation at the
/// end of any but the last.
pub proof fn match_is_unbroken(
    words: Seq<Seq<char>>,
    i: int,
    keys: Seq<(int, Seq<char>)>,
    threshold: Binary64,
)
    ensures
        best_ngram(words, i, keys, threshold) matches Some((n, _, _)) ==> 1 <= n <= 3 && i + n
            <= words.len() && unbroken(words, i, n),
{
    if best_ngram(words, i, keys, threshold) is Some {
        let n = (best_ngram(words, i, keys, threshold)->0).0;
        assert forall|j: int| i <= j < i + n - 1 && (#[trigger] words[j]).len() > 0 implies
            alphanumeric(words[j].last()) by {
            ends_are_what_is_no_letter(words[j], 0, 0);
            assert(suffix_of(words[j]).len() == 0);
        }
    }
}

/// Words without punctuation between them are not kept from matching.
proof fn lemma_unbroken(words: Seq<Seq<char>>, i: int, n: int)
    requires
        unbroken(words, i, n),
    ensures
        !crosses_punctuation(words, i, n),
{
    if crosses_punctuation(words, i, n) {
        let j = choose|j: int| i <= j < i + n - 1 && suffix_of(#[trigger] words[j]).len() > 0;
        ends_are_what_is_no_letter(words[j], 0, 0);
    }
}

/// No run of one, two or three unbroken words is passed over: what is taken is at least
/// as close as the best match of each, and closer where it is shorter.
pub proof fn no_run_is_passed_over(
    words: Seq<Seq<char>>,
    i: int,
    keys: Seq<(int, Seq<char>)>,
    threshold: Binary64,
    m: int,
)
    requires
        1 <= m <= 3,
        i + m <= words.len(),
        unbroken(words, i, m),
        best_match(ngram_key(words.subrange(i, i + m)), keys, threshold) is Some,
    ensures
        ({
            let (_, other) = best_match(ngram_key(words.subrange(i, i + m)), keys, threshold)->0;
            best_ngram(words, i, keys, threshold) matches Some((n, _, least)) && !other.below(least)
                && (n < m ==> least.below(other))
        }),
{
    lemma_unbroken(words, i, m);
    super::custom_word_laws::match_is_closest_then_longest(words, i, keys, threshold, m);
}

/// What is taken is a match of the words that it takes, by their key.
pub proof fn match_is_of_the_words(
    words: Seq<Seq<char>>,
    i: int,
    keys: Seq<(int, Seq<char>)>,
    threshold: Binary64,
)
    ensures
        best_ngram(words, i, keys, threshold) matches Some((n, word, least)) ==> best_match(
            ngram_key(words.subrange(i, i + n)),
            keys,
            threshold,
        ) == Some((word, least)),
{
}

/// Words that spell the key of a custom word are always corrected, and to nothing less
/// close than that.
pub proof fn equal_words_are_corrected(
    words: Seq<Seq<char>>,
    i: int,
    keys: Seq<(int, Seq<char>)>,
    threshold: Binary64,
    m: int,
    k: int,
)
    requires
        1 <= m <= 3,
        0 <= i,
        i + m <= words.len(),
        unbroken(words, i, m),
        0 <= k < keys.len(),
        keys[k].1 == ngram_key(words.subrange(i, i + m)),
        0 < keys[k].1.len() <= 50,
        forall|j: int|
            0 <= j < keys[k].1.len() ==> plain_letter_or_digit(#[trigger] keys[k].1[j]),
        !threshold.nan(),
        threshold.value() >= 0,
    ensures
        best_ngram(words, i, keys, threshold) matches Some((_, _, least)) && least.value() <= 0,
{
    let key = keys[k].1;
    assert forall|j: int| 0 <= j < key.len() implies ascii_alphanumeric(#[trigger] key[j]) by {
        assert(plain_letter_or_digit(key[j]));
    }
    super::custom_word_laws::equal_key_is_matched(key, keys, threshold, k);
    no_run_is_passed_over(words, i, keys, threshold, m);
    let (_, other) = best_match(key, keys, threshold)->0;
    let least = (best_ngram(words, i, keys, threshold)->0).2;
    lemma_match_is_acceptable(key, keys, threshold);
    match_is_of_the_words(words, i, keys, threshold);
    let n = (best_ngram(words, i, keys, threshold)->0).0;
    lemma_match_is_acceptable(ngram_key(words.subrange(i, i + n)), keys, threshold);
}

/// The score of a match is a number, no higher than the threshold.
proof fn lemma_match_is_acceptable(
    candidate: Seq<char>,
    keys: Seq<(int, Seq<char>)>,
    threshold: Binary64,
)
    ensures
        best_match(candidate, keys, threshold) matches Some((_, least)) ==> least.at_most(
            threshold,
        ),
{
    closest_key_is_first_of_closest(candidate, keys, threshold, keys.len() as int);
}

/// A letter or digit of the plain alphabet.
pub open spec fn plain_letter_or_digit(c: char) -> bool {
    ('a' <= c && c <= 'z') || ('A' <= c && c <= 'Z') || ('0' <= c && c <= '9')
}

/// A key can be compared exactly where it is of plain letters and digits, and has a
/// sound exactly where it is of plain letters; an empty key is neither.
pub proof fn keys_are_plain(key: Seq<char>)
    ensures
        supported_key(key) <==> key.len() > 0 && (forall|i: int|
            0 <= i < key.len() ==> plain_letter_or_digit(#[trigger] key[i])),
        soundable_key(key) <==> key.len() > 0 && (forall|i: int|
            0 <= i < key.len() ==> plain_letter_or_digit(#[trigger] key[i]) && !('0' <= key[i]
                && key[i] <= '9')),
{
    if supported_key(key) {
        assert forall|i: int| 0 <= i < key.len() implies plain_letter_or_digit(
            #[trigger] key[i],
        ) by {
            assert(ascii_alphanumeric(key[i]));
        }
    }
    if soundable_key(key) {
        assert forall|i: int| 0 <= i < key.len() implies plain_letter_or_digit(#[trigger] key[i])
            && !('0' <= key[i] && key[i] <= '9') by {
            assert(ascii_letter(key[i]));
        }
    }
    if key.len() > 0 && (forall|i: int|
        0 <= i < key.len() ==> plain_letter_or_digit(#[trigger] key[i])) {
        assert forall|i: int| 0 <= i < key.len() implies ascii_alphanumeric(#[trigger] key[i]) by {
            assert(plain_letter_or_digit(key[i]));
        }
    }
    if key.len() > 0 && (forall|i: int|
        0 <= i < key.len() ==> plain_letter_or_digit(#[trigger] key[i]) && !('0' <= key[i] && key[i]
            <= '9')) {
        assert forall|i: int| 0 <= i < key.len() implies ascii_letter(#[trigger] key[i]) by {
            assert(plain_letter_or_digit(key[i]));
        }
    }
}

/// Candidates longer than fifty characters, or not of plain letters and digits, match
/// nothing; all others are compared with every key.
pub proof fn candidates_are_compared(
    candidate: Seq<char>,
    keys: Seq<(int, Seq<char>)>,
    threshold: Binary64,
)
    ensures
        candidate.len() > 50 ==> best_match(candidate, keys, threshold) is None,
        best_match(candidate, keys, threshold) is Some ==> supported_key(candidate),
        supported_key(candidate) && candidate.len() <= 50 && (exists|k: int|
            0 <= k < keys.len() && acceptable(candidate, (#[trigger] keys[k]).1, threshold))
            ==> best_match(candidate, keys, threshold) is Some,
{
    closest_key_is_first_of_closest(candidate, keys, threshold, keys.len() as int);
}

/// A word all in capitals, or without any letter, puts its replacement all in capitals;
/// one with a first capital puts only the first character there; any other leaves it
/// as it is.
pub proof fn case_goes_by_the_first_word(original: Seq<char>, replacement: Seq<char>)
    ensures
        (forall|i: int| 0 <= i < original.len() ==> uppercase(#[trigger] original[i]))
            ==> case_preserved(original, replacement) == uppercased(replacement),
        (exists|i: int| 0 <= i < original.len() && !uppercase(#[trigger] original[i])) ==> {
            let r = case_preserved(original, replacement);
            &&& r.len() == replacement.len()
            &&& forall|i: int| 1 <= i < r.len() ==> #[trigger] r[i] == replacement[i]
            &&& r.len() > 0 ==> r[0] == (if uppercase(original[0]) {
                uppercase_mapping(replacement[0])[0]
            } else {
                replacement[0]
            })
        },
{
}

/// The key of a word is made of the keys of its characters: a letter or digit gives its
/// lowercase form, and anything else nothing.
pub proof fn key_goes_by_characters(a: Seq<char>, b: Seq<char>, c: char)
    ensures
        match_key(a + b) == match_key(a) + match_key(b),
        match_key(seq![c]) == (if alphanumeric(c) {
            lowercase_mapping(c)
        } else {
            Seq::empty()
        }),
    decreases b.len(),
{
    assert(seq![c].drop_last() =~= Seq::<char>::empty());
    assert(match_key(Seq::<char>::empty()) =~= Seq::empty());
    assert(seq![c].last() == c);
    assert(Seq::<char>::empty() + lowercase_mapping(c) =~= lowercase_mapping(c));
    if b.len() == 0 {
        assert(a + b =~= a);
        assert(match_key(a) + match_key(b) =~= match_key(a));
    } else {
        key_goes_by_characters(a, b.drop_last(), c);
        assert((a + b).drop_last() =~= a + b.drop_last());
        assert((a + b).last() == b.last());
        assert(match_key(a) + (match_key(b.drop_last()) + lowercase_mapping(b.last()))
            =~= match_key(a) + match_key(b.drop_last()) + lowercase_mapping(b.last()));
    }
}

/// Spelling out goes character by character, and only the ampersand changes.
pub proof fn only_ampersands_are_spelt_out(a: Seq<char>, b: Seq<char>, c: char)
    ensures
        ampersands_spelt(a + b) == ampersands_spelt(a) + ampersands_spelt(b),
        ampersands_spelt(seq![c]) == (if c == '&' {
            " and "@
        } else {
            seq![c]
        }),
    decreases b.len(),
{
    assert(seq![c].drop_last() =~= Seq::<char>::empty());
    assert(ampersands_spelt(Seq::<char>::empty()) =~= Seq::empty());
    assert(seq![c].last() == c);
    assert(Seq::<char>::empty() + " and "@ =~= " and "@);
    assert(Seq::<char>::empty().push(c) =~= seq![c]);
    if b.len() == 0 {
        assert(a + b =~= a);
        assert(ampersands_spelt(a) + ampersands_spelt(b) =~= ampersands_spelt(a));
    } else {
        only_ampersands_are_spelt_out(a, b.drop_last(), c);
        let rest = ampersands_spelt(b.drop_last());
        assert((a + b).drop_last() =~= a + b.drop_last());
        assert((a + b).last() == b.last());
        assert(ampersands_spelt(a) + (rest + " and "@) =~= ampersands_spelt(a) + rest + " and "@);
        assert(ampersands_spelt(a) + rest.push(b.last()) =~= (ampersands_spelt(a) + rest).push(
            b.last(),
        ));
    }
}

/// A custom word is found under its own key wherever that can be compared, and under
/// the key of the word with its ampersands spelt out where it has any; and under
/// nothing else.
pub proof fn custom_word_has_its_keys(word: Seq<char>, index: int, key: Seq<char>)
    ensures
        keys_of_word(word, index).contains((index, key)) <==> supported_key(key) && (key
            == match_key(word) || (word.contains('&') && key == match_key(ampersands_spelt(word)))),
        forall|k: int|
            0 <= k < keys_of_word(word, index).len() ==> (#[trigger] keys_of_word(word, index)[k]).0
                == index,
{
    let list = keys_of_word(word, index);
    let primary = match_key(word);
    let spelt = match_key(ampersands_spelt(word));
    if supported_key(primary) {
        assert(list[0] == (index, primary));
    }
    if word.contains('&') && supported_key(spelt) && spelt != primary {
        assert(list.last() == (index, spelt));
        assert(list[list.len() - 1] == (index, spelt));
    }
    if list.contains((index, key)) {
        let k = list.index_of((index, key));
        assert(list[k] == (index, key));
    }
}

/// Every custom word has its keys among those of all, and every key there belongs to
/// one of the words.
pub proof fn every_custom_word_has_its_keys(words: Seq<Seq<char>>, n: int, j: int, key: Seq<char>)
    requires
        0 <= n <= words.len(),
    ensures
        keys_of_words(words, n).contains((j, key)) <==> 0 <= j < n && keys_of_word(
            words[j],
            j,
        ).contains((j, key)),
    decreases n,
{
    if n > 0 {
        every_custom_word_has_its_keys(words, n - 1, j, key);
        let before = keys_of_words(words, n - 1);
        let added = keys_of_word(words[n - 1], n - 1);
        let list = keys_of_words(words, n);
        custom_word_has_its_keys(words[n - 1], n - 1, key);
        if list.contains((j, key)) {
            let k = list.index_of((j, key));
            if k < before.len() {
                assert(before[k] == (j, key));
            } else {
                assert(added[k - before.len()] == (j, key));
            }
        }
        if before.contains((j, key)) {
            let k = before.index_of((j, key));
            assert(list[k] == (j, key));
        }
        if added.contains((j, key)) {
            let k = added.index_of((j, key));
            assert(list[before.len() + k] == (j, key));
        }
    }
}

/// Lengths are near enough to compare exactly where they differ by two at most, or by
/// no more than a quarter of the longer one; which is the candidate does not matter.
pub proof fn near_lengths_are_compared(a: nat, b: nat)
    ensures
        too_different(a, b) == too_different(b, a),
        a <= b && b - a <= 2 ==> !too_different(a, b),
        a <= b && 4 * (b - a) <= b ==> !too_different(a, b),
        a <= b && b - a > 2 && 4 * (b - a) > b ==> too_different(a, b),
{
}

/// The score of a candidate for a key goes by their edit distance and the longer of
/// their lengths, with the bonus exactly where both have a sound and sound alike.
pub proof fn score_goes_by_distance_and_sound(candidate: Seq<char>, key: Seq<char>)
    requires
        !too_different(candidate.len(), key.len()),
    ensures
        ({
            let longer = vstd::math::max(candidate.len() as int, key.len() as int) as nat;
            let distance = edit_distance(candidate, key);
            let alike = soundable_key(candidate) && soundable_key(key) && sounds_alike(
                candidate,
                key,
            );
            key_score(candidate, key) == Some(score(distance, longer, alike))
        }),
{
}

} // verus!
