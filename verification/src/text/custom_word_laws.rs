//! What holds of the correction towards custom words.
use super::custom_words::{
    acceptable, best_match, best_ngram, closest_key, corrected, corrected_from,
    crosses_punctuation, edit_distance, edit_distance_is_bounded, key_score, keys_of_word,
    keys_of_words, match_key, ngram_key, ampersands_spelt, score, sounds_alike, soundable_key,
    supported_key, too_different, MAX_CANDIDATE,
};
use super::strings::{joined, words_of};
use crate::binary64::{
    magnitude, nearest, nearest_exists, nearest_is_at_least, nearest_is_at_most,
    nearest_to_zero_is_zero, one_is_one, three_tenths_is_a_fraction, Binary64, ONE, THREE_TENTHS,
};
use vstd::arithmetic::power2::{
    lemma2_to64, lemma2_to64_rest, lemma_pow2_adds, lemma_pow2_pos, pow2,
};
use vstd::prelude::*;

verus! {

/// Without custom words the text stays as it is.
pub proof fn no_custom_words_change_nothing(text: Seq<char>, threshold: Binary64)
    ensures
        corrected(text, Seq::empty(), threshold) == text,
{
}

/// The position that [`closest_key`] gives is that of an acceptable key; no acceptable
/// key before it is as close, and none after it is closer.
pub open spec fn first_of_closest(
    candidate: Seq<char>,
    keys: Seq<(int, Seq<char>)>,
    threshold: Binary64,
    n: int,
    k: int,
) -> bool {
    let least = key_score(candidate, keys[k].1)->0;
    &&& 0 <= k < n
    &&& acceptable(candidate, keys[k].1, threshold)
    &&& forall|j: int|
        0 <= j < n && acceptable(candidate, (#[trigger] keys[j]).1, threshold) ==> {
            let other = key_score(candidate, keys[j].1)->0;
            if j < k {
                least.below(other)
            } else {
                !other.below(least)
            }
        }
}

/// A match is found exactly where one of the keys is acceptable, and it is the
/// closest of the acceptable ones, the first where several are equally close.
pub proof fn closest_key_is_first_of_closest(
    candidate: Seq<char>,
    keys: Seq<(int, Seq<char>)>,
    threshold: Binary64,
    n: int,
)
    requires
        0 <= n <= keys.len(),
    ensures
        match closest_key(candidate, keys, threshold, n) {
            None => forall|j: int|
                0 <= j < n ==> !acceptable(candidate, (#[trigger] keys[j]).1, threshold),
            Some(k) => first_of_closest(candidate, keys, threshold, n, k),
        },
    decreases n,
{
    if n > 0 {
        closest_key_is_first_of_closest(candidate, keys, threshold, n - 1);
        let key = keys[n - 1].1;
        match closest_key(candidate, keys, threshold, n - 1) {
            None => {},
            Some(k) => {
                let least = key_score(candidate, keys[k].1)->0;
                let other = key_score(candidate, key)->0;
                if acceptable(candidate, key, threshold) && other.below(least) {
                    assert forall|j: int|
                        0 <= j < n && acceptable(
                            candidate,
                            (#[trigger] keys[j]).1,
                            threshold,
                        ) implies {
                        let s = key_score(candidate, keys[j].1)->0;
                        if j < n - 1 {
                            other.below(s)
                        } else {
                            !s.below(other)
                        }
                    } by {
                        let s = key_score(candidate, keys[j].1)->0;
                        if j < n - 1 {
                            assert(!s.below(least));
                        }
                    }
                }
            },
        }
    }
}

/// A text whose key holds anything but ASCII letters and digits matches nothing.
pub proof fn unsupported_text_matches_nothing(
    candidate: Seq<char>,
    keys: Seq<(int, Seq<char>)>,
    threshold: Binary64,
)
    requires
        !supported_key(candidate),
    ensures
        best_match(candidate, keys, threshold) is None,
{
}

/// Scores are never negative and never NaN.
pub proof fn score_is_a_number(distance: nat, length: nat, alike: bool)
    requires
        length > 0,
    ensures
        !score(distance, length, alike).nan(),
        score(distance, length, alike).value() >= 0,
{
    lemma_pow2_pos(1074);
    nearest_exists(distance * pow2(1074), length);
    let plain = nearest(distance * pow2(1074), length);
    nearest_exists(magnitude(plain.bits) * magnitude(THREE_TENTHS), pow2(1074));
}

/// A negative threshold, or one that is no number, accepts nothing.
pub proof fn negative_threshold_accepts_nothing(
    candidate: Seq<char>,
    key: Seq<char>,
    threshold: Binary64,
)
    requires
        threshold.nan() || threshold.value() < 0,
        key.len() > 0,
    ensures
        !acceptable(candidate, key, threshold),
{
    let longer = if candidate.len() <= key.len() {
        key.len()
    } else {
        candidate.len()
    };
    let alike = soundable_key(candidate) && soundable_key(key) && sounds_alike(candidate, key);
    score_is_a_number(edit_distance(candidate, key), longer, alike);
}

/// A text is at no distance from itself.
pub proof fn edit_distance_to_itself_is_zero(a: Seq<char>)
    ensures
        edit_distance(a, a) == 0,
    decreases a.len(),
{
    if a.len() > 0 {
        edit_distance_to_itself_is_zero(a.drop_last());
    }
}

/// Texts at no distance from each other are the same.
pub proof fn no_distance_means_equal(a: Seq<char>, b: Seq<char>)
    requires
        edit_distance(a, b) == 0,
    ensures
        a == b,
    decreases a.len() + b.len(),
{
    if a.len() > 0 && b.len() > 0 {
        no_distance_means_equal(a.drop_last(), b.drop_last());
        assert(a =~= a.drop_last().push(a.last()));
        assert(b =~= b.drop_last().push(b.last()));
    } else {
        assert(a =~= b);
    }
}

/// A key that equals the candidate is accepted under every threshold from zero on,
/// and nothing is closer.
pub proof fn equal_key_is_accepted(candidate: Seq<char>, threshold: Binary64)
    requires
        candidate.len() > 0,
        !threshold.nan(),
        threshold.value() >= 0,
    ensures
        acceptable(candidate, candidate, threshold),
        key_score(candidate, candidate)->0.value() == 0,
{
    edit_distance_to_itself_is_zero(candidate);
    lemma_pow2_pos(1074);
    let length = candidate.len();
    assert(0 * pow2(1074) == 0);
    nearest_to_zero_is_zero(length);
    nearest_exists(0, length);
    let plain = nearest(0, length);
    assert(magnitude(plain.bits) * magnitude(THREE_TENTHS) == 0) by (nonlinear_arith)
        requires
            magnitude(plain.bits) == 0,
    ;
    nearest_to_zero_is_zero(pow2(1074));
    nearest_exists(0, pow2(1074));
}

/// The score of a distance other than zero is above zero, for lengths that a text can
/// have.
pub proof fn distance_has_a_score(distance: nat, length: nat, alike: bool)
    requires
        distance > 0,
        0 < length <= 0xFFFF_FFFF_FFFF_FFFF,
    ensures
        score(distance, length, alike).value() > 0,
{
    let big = pow2(1074);
    lemma_pow2_pos(1074);
    lemma_pow2_pos(1072);
    let four = Binary64 { bits: 4 };
    assert(magnitude(four.bits) == 4);
    assert(four.finite());
    lemma2_to64_rest();
    lemma_pow2_adds(64, 2);
    lemma_pow2_adds(66, 1008);
    lemma_pow2_pos(1008);
    assert(big >= pow2(66)) by (nonlinear_arith)
        requires
            big == pow2(66) * pow2(1008),
            pow2(1008) >= 1,
    ;
    lemma2_to64();
    assert(pow2(66) == pow2(64) * 4);
    assert(distance * big >= 4 * length) by (nonlinear_arith)
        requires
            distance >= 1,
            big >= 4 * length,
    ;
    nearest_is_at_least(distance * big, length, four);
    nearest_exists(distance * big, length);
    let plain = nearest(distance * big, length);
    three_tenths_is_a_fraction();
    let n = magnitude(plain.bits) * magnitude(THREE_TENTHS);
    lemma_pow2_adds(1072, 2);
    assert(n >= 1 * big) by (nonlinear_arith)
        requires
            n == magnitude(plain.bits) * magnitude(THREE_TENTHS),
            magnitude(plain.bits) >= 4,
            magnitude(THREE_TENTHS) >= pow2(1072),
            big == pow2(1072) * 4,
    ;
    let one = Binary64 { bits: 1 };
    assert(magnitude(one.bits) == 1);
    nearest_is_at_least(n, big, one);
    nearest_exists(n, big);
}

/// A threshold of zero means exact matches: it accepts a key if and only if that
/// equals the candidate.
pub proof fn threshold_of_zero_is_exact(
    candidate: Seq<char>,
    key: Seq<char>,
    threshold: Binary64,
)
    requires
        !threshold.nan(),
        threshold.value() == 0,
        0 < candidate.len() <= 0xFFFF_FFFF_FFFF_FFFF,
        0 < key.len() <= 0xFFFF_FFFF_FFFF_FFFF,
    ensures
        acceptable(candidate, key, threshold) <==> candidate == key,
{
    if candidate == key {
        equal_key_is_accepted(candidate, threshold);
    } else {
        if edit_distance(candidate, key) == 0 {
            no_distance_means_equal(candidate, key);
        }
        let longer = if candidate.len() <= key.len() {
            key.len()
        } else {
            candidate.len()
        };
        let alike = soundable_key(candidate) && soundable_key(key) && sounds_alike(candidate, key);
        distance_has_a_score(edit_distance(candidate, key), longer, alike);
    }
}

/// A threshold of one accepts every key whose length is near enough to compare it.
pub proof fn threshold_of_one_accepts_any(
    candidate: Seq<char>,
    key: Seq<char>,
    threshold: Binary64,
)
    requires
        !threshold.nan(),
        threshold.value() >= pow2(1074),
        candidate.len() > 0,
        key.len() > 0,
        !too_different(candidate.len(), key.len()),
    ensures
        acceptable(candidate, key, threshold),
{
    let big = pow2(1074);
    lemma_pow2_pos(1074);
    let longer = if candidate.len() <= key.len() {
        key.len()
    } else {
        candidate.len()
    };
    let distance = edit_distance(candidate, key);
    edit_distance_is_bounded(candidate, key);
    one_is_one();
    three_tenths_is_a_fraction();
    let one = Binary64 { bits: ONE };
    assert(distance * big <= big * longer) by (nonlinear_arith)
        requires
            distance <= longer,
            big >= 0,
    ;
    nearest_is_at_most(distance * big, longer, one);
    nearest_exists(distance * big, longer);
    let plain = nearest(distance * big, longer);
    let n = magnitude(plain.bits) * magnitude(THREE_TENTHS);
    assert(n <= big * big) by (nonlinear_arith)
        requires
            n == magnitude(plain.bits) * magnitude(THREE_TENTHS),
            magnitude(plain.bits) <= big,
            magnitude(THREE_TENTHS) <= big,
    ;
    nearest_is_at_most(n, big, one);
    nearest_exists(n, big);
}

/// Equal words are found: where one of the keys equals the candidate, the match has
/// a score of zero.
pub proof fn equal_key_is_matched(
    candidate: Seq<char>,
    keys: Seq<(int, Seq<char>)>,
    threshold: Binary64,
    k: int,
)
    requires
        supported_key(candidate),
        candidate.len() <= MAX_CANDIDATE,
        0 <= k < keys.len(),
        keys[k].1 == candidate,
        !threshold.nan(),
        threshold.value() >= 0,
    ensures
        best_match(candidate, keys, threshold) matches Some((_, least)) && least.value() <= 0,
{
    equal_key_is_accepted(candidate, threshold);
    closest_key_is_first_of_closest(candidate, keys, threshold, keys.len() as int);
    let best = closest_key(candidate, keys, threshold, keys.len() as int);
    assert(acceptable(candidate, keys[k].1, threshold));
    assert(best is Some);
}

/// The number of words that a match takes is one, two or three; they are all there,
/// and no punctuation closes one of them before the last.
pub proof fn match_keeps_within_punctuation(
    words: Seq<Seq<char>>,
    i: int,
    keys: Seq<(int, Seq<char>)>,
    threshold: Binary64,
)
    ensures
        best_ngram(words, i, keys, threshold) matches Some((n, _, _)) ==> 1 <= n <= 3 && i + n
            <= words.len() && !crosses_punctuation(words, i, n),
{
}

/// Of the matches of one, two and three words the closest is taken, and the longest
/// of equally close ones.
pub proof fn match_is_closest_then_longest(
    words: Seq<Seq<char>>,
    i: int,
    keys: Seq<(int, Seq<char>)>,
    threshold: Binary64,
    m: int,
)
    requires
        1 <= m <= 3,
        i + m <= words.len(),
        !crosses_punctuation(words, i, m),
        best_match(ngram_key(words.subrange(i, i + m)), keys, threshold) is Some,
    ensures
        ({
            let (_, other) = best_match(ngram_key(words.subrange(i, i + m)), keys, threshold)->0;
            best_ngram(words, i, keys, threshold) matches Some((n, _, least)) && !other.below(least)
                && (n < m ==> least.below(other))
        }),
{
    let n = keys.len() as int;
    closest_key_is_first_of_closest(ngram_key(words.subrange(i, i + 1)), keys, threshold, n);
    closest_key_is_first_of_closest(ngram_key(words.subrange(i, i + 2)), keys, threshold, n);
    closest_key_is_first_of_closest(ngram_key(words.subrange(i, i + 3)), keys, threshold, n);
}

/// Words among which no match is found stay as they are.
pub proof fn unmatched_words_stay(
    words: Seq<Seq<char>>,
    i: int,
    custom_words: Seq<Seq<char>>,
    keys: Seq<(int, Seq<char>)>,
    threshold: Binary64,
)
    requires
        0 <= i <= words.len(),
        forall|k: int|
            0 <= k < words.len() ==> #[trigger] best_ngram(words, k, keys, threshold) is None,
    ensures
        corrected_from(words, i, custom_words, keys, threshold) == words.skip(i),
    decreases words.len() - i,
{
    if i < words.len() {
        unmatched_words_stay(words, i + 1, custom_words, keys, threshold);
        assert(best_ngram(words, i, keys, threshold) is None);
        assert(words.skip(i) =~= seq![words[i]] + words.skip(i + 1));
    } else {
        assert(words.skip(i) =~= Seq::empty());
    }
}

/// Every key of the custom words can be compared.
proof fn lemma_keys_are_supported(words: Seq<Seq<char>>, n: int)
    requires
        0 <= n <= words.len(),
    ensures
        forall|k: int|
            0 <= k < keys_of_words(words, n).len() ==> supported_key(
                (#[trigger] keys_of_words(words, n)[k]).1,
            ),
    decreases n,
{
    if n > 0 {
        lemma_keys_are_supported(words, n - 1);
        let before = keys_of_words(words, n - 1);
        let added = keys_of_word(words[n - 1], n - 1);
        assert forall|k: int| 0 <= k < keys_of_words(words, n).len() implies supported_key(
            (#[trigger] keys_of_words(words, n)[k]).1,
        ) by {
            if k < before.len() {
                assert(keys_of_words(words, n)[k] == before[k]);
            } else {
                assert(keys_of_words(words, n)[k] == added[k - before.len()]);
            }
        }
    }
}

/// Without an acceptable key the text keeps its words, with single spaces between
/// them.
proof fn lemma_nothing_acceptable(
    text: Seq<char>,
    custom_words: Seq<Seq<char>>,
    keys: Seq<(int, Seq<char>)>,
    threshold: Binary64,
)
    requires
        custom_words.len() > 0,
        keys == keys_of_words(custom_words, custom_words.len() as int),
        forall|c: Seq<char>, k: int|
            0 <= k < keys.len() ==> !#[trigger] acceptable(c, keys[k].1, threshold),
    ensures
        corrected(text, custom_words, threshold) == joined(words_of(text), " "@),
{
    let words = words_of(text);
    assert forall|c: Seq<char>| #[trigger] best_match(c, keys, threshold) is None by {
        closest_key_is_first_of_closest(c, keys, threshold, keys.len() as int);
        match closest_key(c, keys, threshold, keys.len() as int) {
            None => {},
            Some(k) => {
                assert(!acceptable(c, keys[k].1, threshold));
            },
        }
    }
    assert forall|k: int| 0 <= k < words.len() implies #[trigger] best_ngram(
        words,
        k,
        keys,
        threshold,
    ) is None by {
        assert(best_match(ngram_key(words.subrange(k, k + 1)), keys, threshold) is None);
        assert(best_match(ngram_key(words.subrange(k, k + 2)), keys, threshold) is None);
        assert(best_match(ngram_key(words.subrange(k, k + 3)), keys, threshold) is None);
    }
    unmatched_words_stay(words, 0, custom_words, keys, threshold);
    assert(words.skip(0) =~= words);
}

/// Under a negative threshold, or one that is no number, the text keeps its words.
pub proof fn negative_threshold_keeps_the_words(
    text: Seq<char>,
    custom_words: Seq<Seq<char>>,
    threshold: Binary64,
)
    requires
        custom_words.len() > 0,
        threshold.nan() || threshold.value() < 0,
    ensures
        corrected(text, custom_words, threshold) == joined(words_of(text), " "@),
{
    let keys = keys_of_words(custom_words, custom_words.len() as int);
    lemma_keys_are_supported(custom_words, custom_words.len() as int);
    assert forall|c: Seq<char>, k: int| 0 <= k < keys.len() implies !#[trigger] acceptable(
        c,
        keys[k].1,
        threshold,
    ) by {
        assert(supported_key(keys[k].1));
        negative_threshold_accepts_nothing(c, keys[k].1, threshold);
    }
    lemma_nothing_acceptable(text, custom_words, keys, threshold);
}

/// Custom words that are not of ASCII letters and digits are skipped: where all are
/// such, the text keeps its words.
pub proof fn unsupported_custom_words_are_skipped(
    text: Seq<char>,
    custom_words: Seq<Seq<char>>,
    threshold: Binary64,
)
    requires
        custom_words.len() > 0,
        forall|i: int|
            0 <= i < custom_words.len() ==> !supported_key(match_key(#[trigger] custom_words[i]))
                && !supported_key(match_key(ampersands_spelt(custom_words[i]))),
    ensures
        corrected(text, custom_words, threshold) == joined(words_of(text), " "@),
{
    let keys = keys_of_words(custom_words, custom_words.len() as int);
    lemma_no_keys(custom_words, custom_words.len() as int);
    lemma_nothing_acceptable(text, custom_words, keys, threshold);
}

/// Custom words without a key that can be compared have none.
proof fn lemma_no_keys(words: Seq<Seq<char>>, n: int)
    requires
        0 <= n <= words.len(),
        forall|i: int|
            0 <= i < words.len() ==> !supported_key(match_key(#[trigger] words[i]))
                && !supported_key(match_key(ampersands_spelt(words[i]))),
    ensures
        keys_of_words(words, n).len() == 0,
    decreases n,
{
    if n > 0 {
        lemma_no_keys(words, n - 1);
        assert(!supported_key(match_key(words[n - 1])));
    }
}

} // verus!
