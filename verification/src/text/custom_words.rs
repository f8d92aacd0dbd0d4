//! Correction of transcribed words towards a list of custom words.
//!
//! Runs of up to three transcribed words are compared with the custom words by edit
//! distance and sound, and the closest acceptable one takes their place.
use super::strings::{append_chars, chars_of, join, joined, part_of, split_words, strings, text_of};
use super::strings::{back_while, has_char, skip_while, texts, words_of};
use super::unicode::{
    alphanumeric, lowercase_mapping, to_lowercase, to_uppercase, uppercase, uppercase_mapping,
    uppercase_text, uppercased,
};
use crate::binary64::{magnitude, nearest, ratio, three_tenths_of, Binary64, THREE_TENTHS};
use vstd::arithmetic::power2::pow2;
use vstd::prelude::*;

verus! {

/// The longest candidate that is compared, in characters.
pub const MAX_CANDIDATE: usize = 50;

/// The least number of insertions, deletions and substitutions of one character
/// that turn `a` into `b`.
pub open spec fn edit_distance(a: Seq<char>, b: Seq<char>) -> nat
    decreases a.len() + b.len(),
{
    if a.len() == 0 {
        b.len()
    } else if b.len() == 0 {
        a.len()
    } else {
        let last: nat = if a.last() == b.last() {
            0
        } else {
            1
        };
        let deleted = edit_distance(a.drop_last(), b) + 1;
        let inserted = edit_distance(a, b.drop_last()) + 1;
        let kept = edit_distance(a.drop_last(), b.drop_last()) + last;
        if kept <= deleted && kept <= inserted {
            kept
        } else if deleted <= inserted {
            deleted
        } else {
            inserted
        }
    }
}

/// Whether the Soundex codes of two words agree.
pub uninterp spec fn sounds_alike(a: Seq<char>, b: Seq<char>) -> bool;

/// `strsim::levenshtein` counts the least number of insertions, deletions and
/// substitutions of one character that turn one text into the other.
pub assume_specification[ strsim::levenshtein ](a: &str, b: &str) -> (r: usize)
    ensures
        r == edit_distance(a@, b@),
;

/// `natural::phonetics::soundex` compares the Soundex codes of two words, which
/// depend on the words alone; the answer is named [`sounds_alike`]. It indexes the
/// first character of each word, so neither may be empty.
pub assume_specification[ natural::phonetics::soundex ](word1: &str, word2: &str) -> (r: bool)
    requires
        word1@.len() > 0,
        word2@.len() > 0,
    ensures
        r == sounds_alike(word1@, word2@),
;

/// An ASCII letter.
pub open spec fn ascii_letter(c: char) -> bool {
    ('a' <= c && c <= 'z') || ('A' <= c && c <= 'Z')
}

/// An ASCII letter or digit.
pub open spec fn ascii_alphanumeric(c: char) -> bool {
    ascii_letter(c) || ('0' <= c && c <= '9')
}

/// What of a word is compared: its letters and digits, lowercased.
pub open spec fn match_key(word: Seq<char>) -> Seq<char>
    decreases word.len(),
{
    if word.len() == 0 {
        Seq::empty()
    } else if alphanumeric(word.last()) {
        match_key(word.drop_last()) + lowercase_mapping(word.last())
    } else {
        match_key(word.drop_last())
    }
}

/// What of several words in a row is compared: their keys, run together.
pub open spec fn ngram_key(words: Seq<Seq<char>>) -> Seq<char>
    decreases words.len(),
{
    if words.len() == 0 {
        Seq::empty()
    } else {
        ngram_key(words.drop_last()) + match_key(words.last())
    }
}

/// The key of words in a row is that of the first of them followed by that of the
/// rest, and no words have the empty key.
pub proof fn ngram_keys_run_together(first: Seq<Seq<char>>, rest: Seq<Seq<char>>)
    ensures
        ngram_key(first + rest) == ngram_key(first) + ngram_key(rest),
        ngram_key(Seq::empty()) == Seq::<char>::empty(),
    decreases rest.len(),
{
    if rest.len() == 0 {
        assert(first + rest =~= first);
        assert(ngram_key(first) + Seq::<char>::empty() =~= ngram_key(first));
    } else {
        ngram_keys_run_together(first, rest.drop_last());
        assert((first + rest).drop_last() =~= first + rest.drop_last());
        assert((first + rest).last() == rest.last());
        assert(ngram_key(first) + (ngram_key(rest.drop_last()) + match_key(rest.last()))
            =~= ngram_key(first) + ngram_key(rest.drop_last()) + match_key(rest.last()));
    }
}

/// A key that can be compared: not empty, and of ASCII letters and digits.
pub open spec fn supported_key(key: Seq<char>) -> bool {
    key.len() > 0 && forall|i: int| 0 <= i < key.len() ==> ascii_alphanumeric(#[trigger] key[i])
}

/// A key that has a sound: not empty, and of ASCII letters.
pub open spec fn soundable_key(key: Seq<char>) -> bool {
    key.len() > 0 && forall|i: int| 0 <= i < key.len() ==> ascii_letter(#[trigger] key[i])
}

/// The word with each `&` spelt out.
pub open spec fn ampersands_spelt(word: Seq<char>) -> Seq<char>
    decreases word.len(),
{
    if word.len() == 0 {
        Seq::empty()
    } else if word.last() == '&' {
        ampersands_spelt(word.drop_last()) + " and "@
    } else {
        ampersands_spelt(word.drop_last()).push(word.last())
    }
}

/// The keys under which the custom word at `index` is found: that of the word, and
/// that of the word with each `&` spelt out where that differs.
pub open spec fn keys_of_word(word: Seq<char>, index: int) -> Seq<(int, Seq<char>)> {
    let primary = match_key(word);
    let spelt = match_key(ampersands_spelt(word));
    let first = if supported_key(primary) {
        seq![(index, primary)]
    } else {
        Seq::empty()
    };
    if word.contains('&') && supported_key(spelt) && spelt != primary {
        first.push((index, spelt))
    } else {
        first
    }
}

/// The keys of the first `n` custom words, in order.
pub open spec fn keys_of_words(words: Seq<Seq<char>>, n: int) -> Seq<(int, Seq<char>)>
    decreases n,
{
    if n <= 0 {
        Seq::empty()
    } else {
        keys_of_words(words, n - 1) + keys_of_word(words[n - 1], n - 1)
    }
}

/// Two lengths that differ by more than two and by more than a quarter of the
/// longer one.
pub open spec fn too_different(a: nat, b: nat) -> bool {
    let diff = if a <= b {
        b - a
    } else {
        a - b
    };
    let longer = if a <= b {
        b
    } else {
        a
    };
    diff > 2 && 4 * diff > longer
}

/// The score of an edit distance over a length: their quotient as a double, of
/// which three tenths count where the sounds agree.
pub open spec fn score(distance: nat, length: nat, alike: bool) -> Binary64 {
    let plain = nearest(distance * pow2(1074), length);
    if alike {
        nearest(magnitude(plain.bits) * magnitude(THREE_TENTHS), pow2(1074))
    } else {
        plain
    }
}

/// How far `candidate` is from `key`, if their lengths are near enough to compare
/// them. Smaller is closer.
pub open spec fn key_score(candidate: Seq<char>, key: Seq<char>) -> Option<Binary64> {
    if too_different(candidate.len(), key.len()) {
        None
    } else {
        let longer = if candidate.len() <= key.len() {
            key.len()
        } else {
            candidate.len()
        };
        let alike = soundable_key(candidate) && soundable_key(key) && sounds_alike(candidate, key);
        Some(score(edit_distance(candidate, key), longer, alike))
    }
}

/// A key acceptable for `candidate`: comparable, and no further than the threshold.
pub open spec fn acceptable(candidate: Seq<char>, key: Seq<char>, threshold: Binary64) -> bool {
    key_score(candidate, key) is Some && key_score(candidate, key)->0.at_most(threshold)
}

/// A key that may be acceptable for `candidate`, as far as that can be told without
/// comparing their sounds.
pub open spec fn may_match(candidate: Seq<char>, key: Seq<char>, threshold: Binary64) -> bool {
    let longer = if candidate.len() <= key.len() {
        key.len()
    } else {
        candidate.len()
    };
    let distance = edit_distance(candidate, key);
    &&& supported_key(candidate)
    &&& candidate.len() <= MAX_CANDIDATE
    &&& !too_different(candidate.len(), key.len())
    &&& (score(distance, longer, false).at_most(threshold) || (soundable_key(candidate)
        && soundable_key(key) && score(distance, longer, true).at_most(threshold)))
}

/// The position of the closest acceptable key among the first `n`; of several that
/// are equally close, the first.
pub open spec fn closest_key(
    candidate: Seq<char>,
    keys: Seq<(int, Seq<char>)>,
    threshold: Binary64,
    n: int,
) -> Option<int>
    decreases n,
{
    if n <= 0 {
        None
    } else {
        let before = closest_key(candidate, keys, threshold, n - 1);
        let key = keys[n - 1].1;
        if acceptable(candidate, key, threshold) && (before is None || key_score(
            candidate,
            key,
        )->0.below(key_score(candidate, keys[before->0].1)->0)) {
            Some(n - 1)
        } else {
            before
        }
    }
}

/// The custom word that is the best match for `candidate`, by its position, and the
/// score of the match.
pub open spec fn best_match(
    candidate: Seq<char>,
    keys: Seq<(int, Seq<char>)>,
    threshold: Binary64,
) -> Option<(int, Binary64)> {
    if !supported_key(candidate) || candidate.len() > MAX_CANDIDATE {
        None
    } else {
        match closest_key(candidate, keys, threshold, keys.len() as int) {
            None => None,
            Some(k) => Some((keys[k].0, key_score(candidate, keys[k].1)->0)),
        }
    }
}

/// A key under which a custom word is found.
pub struct CustomWordMatchKey {
    /// The position of the word in the list of custom words.
    pub word_index: usize,
    /// The key itself.
    pub key: String,
}

impl View for CustomWordMatchKey {
    type V = (int, Seq<char>);

    open spec fn view(&self) -> (int, Seq<char>) {
        (self.word_index as int, self.key@)
    }
}

/// The contents of a list of keys.
pub open spec fn key_views(keys: Seq<CustomWordMatchKey>) -> Seq<(int, Seq<char>)> {
    keys.map_values(|k: CustomWordMatchKey| k@)
}

/// Builds what of a word is compared: its letters and digits, lowercased.
pub fn build_match_key(word: &str) -> (r: String)
    ensures
        r@ == match_key(word@),
{
    let chars: Vec<char> = chars_of(word);
    let mut key: Vec<char> = Vec::new();
    let mut i: usize = 0;
    while i < chars.len()
        invariant
            chars@ == word@,
            i <= chars@.len(),
            key@ == match_key(word@.take(i as int)),
        decreases chars@.len() - i,
    {
        let c: char = chars[i];
        assert(word@.take(i + 1).drop_last() =~= word@.take(i as int));
        if c.is_alphanumeric() {
            let lower: Vec<char> = to_lowercase(c);
            append_chars(&mut key, &lower);
        }
        i = i + 1;
    }
    assert(word@.take(word@.len() as int) =~= word@);
    text_of(&key)
}

/// Builds what of several words in a row is compared: their keys, run together, so
/// that "Charge B" can match "ChargeBee".
pub fn build_ngram(words: &Vec<Vec<char>>, start: usize, count: usize) -> (r: String)
    requires
        start + count <= words@.len(),
    ensures
        r@ == ngram_key(texts(words@).subrange(start as int, start + count)),
{
    let mut key: String = String::new();
    let mut n: usize = 0;
    while n < count
        invariant
            n <= count,
            start + count <= words.len(),
            key@ == ngram_key(texts(words@).subrange(start as int, start + n)),
        decreases count - n,
    {
        let word: String = text_of(&words[start + n]);
        let part: String = build_match_key(word.as_str());
        key.push_str(part.as_str());
        proof {
            let more = texts(words@).subrange(start as int, start + n + 1);
            assert(more.drop_last() =~= texts(words@).subrange(start as int, start + n));
        }
        n = n + 1;
    }
    key
}

/// Whether a key can be compared: not empty, and of ASCII letters and digits.
pub fn is_supported_fuzzy_key(key: &str) -> (r: bool)
    ensures
        r == supported_key(key@),
{
    let chars: Vec<char> = chars_of(key);
    let mut i: usize = 0;
    while i < chars.len()
        invariant
            chars@ == key@,
            i <= chars@.len(),
            forall|k: int| 0 <= k < i ==> ascii_alphanumeric(#[trigger] chars@[k]),
        decreases chars@.len() - i,
    {
        let c: char = chars[i];
        let letter: bool = ('a' <= c && c <= 'z') || ('A' <= c && c <= 'Z');
        if !letter && !('0' <= c && c <= '9') {
            assert(!ascii_alphanumeric(chars@[i as int]));
            return false;
        }
        i = i + 1;
    }
    chars.len() > 0
}

/// Whether a key has a sound: not empty, and of ASCII letters.
pub fn supports_soundex(key: &str) -> (r: bool)
    ensures
        r == soundable_key(key@),
{
    let chars: Vec<char> = chars_of(key);
    let mut i: usize = 0;
    while i < chars.len()
        invariant
            chars@ == key@,
            i <= chars@.len(),
            forall|k: int| 0 <= k < i ==> ascii_letter(#[trigger] chars@[k]),
        decreases chars@.len() - i,
    {
        let c: char = chars[i];
        if !(('a' <= c && c <= 'z') || ('A' <= c && c <= 'Z')) {
            assert(!ascii_letter(chars@[i as int]));
            return false;
        }
        i = i + 1;
    }
    chars.len() > 0
}

/// Spells out each `&` of a word.
fn spell_ampersands(chars: &Vec<char>) -> (r: String)
    ensures
        r@ == ampersands_spelt(chars@),
{
    let mut spelt: String = String::new();
    let mut i: usize = 0;
    while i < chars.len()
        invariant
            i <= chars@.len(),
            spelt@ == ampersands_spelt(chars@.take(i as int)),
        decreases chars@.len() - i,
    {
        assert(chars@.take(i + 1).drop_last() =~= chars@.take(i as int));
        if chars[i] == '&' {
            spelt.push_str(" and ");
        } else {
            spelt.push(chars[i]);
        }
        i = i + 1;
    }
    assert(chars@.take(chars@.len() as int) =~= chars@);
    spelt
}

/// Builds the keys under which a custom word is found. A word whose key is not of
/// ASCII letters and digits has none: neither word splitting nor Soundex suits it.
pub fn build_custom_word_match_keys(word: &str, word_index: usize) -> (r: Vec<CustomWordMatchKey>)
    ensures
        key_views(r@) == keys_of_word(word@, word_index as int),
{
    let chars: Vec<char> = chars_of(word);
    let primary: String = build_match_key(word);
    let mut keys: Vec<CustomWordMatchKey> = Vec::new();
    if is_supported_fuzzy_key(primary.as_str()) {
        keys.push(CustomWordMatchKey { word_index, key: primary.clone() });
    }
    if has_char(&chars, '&') {
        let spelt: String = spell_ampersands(&chars);
        let expanded: String = build_match_key(spelt.as_str());
        if is_supported_fuzzy_key(expanded.as_str()) && !(expanded == primary) {
            keys.push(CustomWordMatchKey { word_index, key: expanded });
        }
    }
    assert(key_views(keys@) =~= keys_of_word(word@, word_index as int));
    keys
}

/// An edit distance is at most the longer of the two lengths.
pub proof fn edit_distance_is_bounded(a: Seq<char>, b: Seq<char>)
    ensures
        edit_distance(a, b) <= if a.len() <= b.len() {
            b.len()
        } else {
            a.len()
        },
    decreases a.len() + b.len(),
{
    if a.len() > 0 && b.len() > 0 {
        edit_distance_is_bounded(a.drop_last(), b);
        edit_distance_is_bounded(a, b.drop_last());
        edit_distance_is_bounded(a.drop_last(), b.drop_last());
    }
}

/// Scores how far `candidate` is from `key`, if their lengths are near enough.
fn score_key(candidate: &str, key: &str) -> (r: Option<Binary64>)
    requires
        supported_key(candidate@),
        candidate@.len() <= MAX_CANDIDATE,
    ensures
        r == key_score(candidate@, key@),
{
    let candidate_len: usize = candidate.unicode_len();
    let key_len: usize = key.unicode_len();
    let (diff, longer): (usize, usize) = if candidate_len <= key_len {
        (key_len - candidate_len, key_len)
    } else {
        (candidate_len - key_len, candidate_len)
    };
    // A quarter of the longer length may differ, and always two characters.
    if diff > 2 && diff > longer / 4 {
        return None;
    }
    proof {
        edit_distance_is_bounded(candidate@, key@);
    }
    let distance: usize = strsim::levenshtein(candidate, key);
    let plain: Binary64 = ratio(distance as u64, longer as u64);
    let alike: bool = supports_soundex(candidate) && supports_soundex(key)
        && natural::phonetics::soundex(candidate, key);
    if alike {
        Some(three_tenths_of(plain))
    } else {
        Some(plain)
    }
}

/// Finds the custom word that matches `candidate` best, and the score of the match.
///
/// A match must score `threshold` at most; of equally close keys the first wins.
pub fn find_best_match<'a>(
    candidate: &str,
    custom_words: &'a [String],
    keys: &Vec<CustomWordMatchKey>,
    threshold: Binary64,
) -> (r: Option<(&'a String, Binary64)>)
    requires
        forall|i: int|
            0 <= i < keys@.len() && may_match(candidate@, (#[trigger] keys@[i]).key@, threshold)
                ==> keys@[i].word_index < custom_words@.len(),
    ensures
        match best_match(candidate@, key_views(keys@), threshold) {
            None => r is None,
            Some((word, score)) => r matches Some((found, found_score)) && found_score == score
                && *found == custom_words@[word],
        },
{
    match find_match_index(candidate, keys, threshold) {
        None => None,
        Some((k, score)) => Some((&custom_words[keys[k].word_index], score)),
    }
}

/// Finds the key that matches `candidate` best, and the score of the match.
fn find_match_index(candidate: &str, keys: &Vec<CustomWordMatchKey>, threshold: Binary64) -> (r:
    Option<(usize, Binary64)>)
    ensures
        match best_match(candidate@, key_views(keys@), threshold) {
            None => r is None,
            Some((word, score)) => r matches Some((k, found_score)) && k < keys@.len()
                && found_score == score && keys@[k as int].word_index == word,
        },
        r matches Some((k, _)) ==> may_match(candidate@, keys@[k as int].key@, threshold),
{
    if !is_supported_fuzzy_key(candidate) || candidate.unicode_len() > MAX_CANDIDATE {
        return None;
    }
    let ghost views = key_views(keys@);
    let mut best: Option<(usize, Binary64)> = None;
    let mut i: usize = 0;
    while i < keys.len()
        invariant
            supported_key(candidate@),
            candidate@.len() <= MAX_CANDIDATE,
            views == key_views(keys@),
            i <= keys@.len(),
            match closest_key(candidate@, views, threshold, i as int) {
                None => best is None,
                Some(k) => best matches Some((at, least)) && at == k && 0 <= k < i && Some(least)
                    == key_score(candidate@, views[k].1) && acceptable(
                    candidate@,
                    views[k].1,
                    threshold,
                ),
            },
        decreases keys@.len() - i,
    {
        assert(views[i as int].1 == keys@[i as int].key@);
        match score_key(candidate, keys[i].key.as_str()) {
            None => {},
            Some(found) => {
                let better: bool = match best {
                    None => true,
                    Some((_, least)) => found.lt(least),
                };
                if found.le(threshold) && better {
                    best = Some((i, found));
                }
            },
        }
        i = i + 1;
    }
    best
}

/// The characters that are neither letters nor digits.
pub open spec fn mark() -> spec_fn(char) -> bool {
    |c: char| !alphanumeric(c)
}

/// The punctuation that a word begins with.
pub open spec fn prefix_of(word: Seq<char>) -> Seq<char> {
    word.take(skip_while(word, 0, mark()))
}

/// The punctuation that a word ends with.
pub open spec fn suffix_of(word: Seq<char>) -> Seq<char> {
    word.skip(back_while(word, word.len() as int, mark()))
}

/// The end of the leading punctuation and the start of the trailing punctuation.
fn punctuation_bounds(word: &Vec<char>) -> (r: (usize, usize))
    ensures
        r.0 == skip_while(word@, 0, mark()),
        r.1 == back_while(word@, word@.len() as int, mark()),
        r.0 <= word@.len(),
        r.1 <= word@.len(),
{
    let mut end: usize = 0;
    while end < word.len() && !word[end].is_alphanumeric()
        invariant
            end <= word@.len(),
            skip_while(word@, end as int, mark()) == skip_while(word@, 0, mark()),
        decreases word@.len() - end,
    {
        end = end + 1;
    }
    let mut start: usize = word.len();
    while start > 0 && !word[start - 1].is_alphanumeric()
        invariant
            start <= word@.len(),
            back_while(word@, start as int, mark()) == back_while(
                word@,
                word@.len() as int,
                mark(),
            ),
        decreases start,
    {
        start = start - 1;
    }
    (end, start)
}

/// Extracts the punctuation that a word begins with and that it ends with. A word
/// without letters and digits is all of both.
pub fn extract_punctuation<'a>(word: &'a str) -> (r: (&'a str, &'a str))
    ensures
        r.0@ == prefix_of(word@),
        r.1@ == suffix_of(word@),
{
    let chars: Vec<char> = chars_of(word);
    let (end, start): (usize, usize) = punctuation_bounds(&chars);
    let prefix: &str = word.substring_char(0, end);
    let suffix: &str = word.substring_char(start, chars.len());
    assert(prefix@ =~= prefix_of(word@));
    assert(suffix@ =~= suffix_of(word@));
    (prefix, suffix)
}

/// `replacement` in the case pattern of `original`: all uppercase, with a first
/// uppercase letter, or as it is.
pub open spec fn case_preserved(original: Seq<char>, replacement: Seq<char>) -> Seq<char> {
    if forall|i: int| 0 <= i < original.len() ==> uppercase(#[trigger] original[i]) {
        uppercased(replacement)
    } else if uppercase(original[0]) && replacement.len() > 0 {
        replacement.update(0, uppercase_mapping(replacement[0])[0])
    } else {
        replacement
    }
}

/// Preserves the case pattern of the original word in its replacement.
pub fn preserve_case_pattern(original: &str, replacement: &str) -> (r: String)
    ensures
        r@ == case_preserved(original@, replacement@),
{
    let pattern: Vec<char> = chars_of(original);
    let mut all: bool = true;
    let mut i: usize = 0;
    while i < pattern.len()
        invariant
            pattern@ == original@,
            i <= pattern@.len(),
            all == (forall|k: int| 0 <= k < i ==> uppercase(#[trigger] original@[k])),
        decreases pattern@.len() - i,
    {
        if !pattern[i].is_uppercase() {
            assert(!uppercase(original@[i as int]));
            all = false;
        }
        i = i + 1;
    }
    if all {
        return uppercase_text(replacement);
    }
    let mut chars: Vec<char> = chars_of(replacement);
    if pattern[0].is_uppercase() && chars.len() > 0 {
        let upper: Vec<char> = to_uppercase(chars[0]);
        chars.set(0, upper[0]);
    }
    text_of(&chars)
}

/// Punctuation closes one of the words from `i` on before the last of `n`.
pub open spec fn crosses_punctuation(words: Seq<Seq<char>>, i: int, n: int) -> bool {
    exists|j: int| i <= j < i + n - 1 && suffix_of(#[trigger] words[j]).len() > 0
}

/// The better of `before` and the match of the `n` words from `i` on, as the number
/// of words, the position of the custom word and the score.
pub open spec fn better_ngram(
    words: Seq<Seq<char>>,
    i: int,
    n: int,
    keys: Seq<(int, Seq<char>)>,
    threshold: Binary64,
    before: Option<(int, int, Binary64)>,
) -> Option<(int, int, Binary64)> {
    if i + n > words.len() || crosses_punctuation(words, i, n) {
        before
    } else {
        match best_match(ngram_key(words.subrange(i, i + n)), keys, threshold) {
            None => before,
            Some((word, score)) => match before {
                Some((_, _, least)) if !score.below(least) => before,
                _ => Some((n, word, score)),
            },
        }
    }
}

/// The best match of one, two or three words from `i` on. The closest wins, and of
/// equally close ones that of more words.
pub open spec fn best_ngram(
    words: Seq<Seq<char>>,
    i: int,
    keys: Seq<(int, Seq<char>)>,
    threshold: Binary64,
) -> Option<(int, int, Binary64)> {
    let three = better_ngram(words, i, 3, keys, threshold, None);
    let two = better_ngram(words, i, 2, keys, threshold, three);
    better_ngram(words, i, 1, keys, threshold, two)
}

/// The words from `i` on, with each best match replaced by its custom word in the
/// case pattern of the first word and the punctuation around the match.
pub open spec fn corrected_from(
    words: Seq<Seq<char>>,
    i: int,
    custom_words: Seq<Seq<char>>,
    keys: Seq<(int, Seq<char>)>,
    threshold: Binary64,
) -> Seq<Seq<char>>
    decreases words.len() - i,
{
    if i < 0 || i >= words.len() {
        Seq::empty()
    } else {
        match best_ngram(words, i, keys, threshold) {
            Some((n, word, _)) if 1 <= n => {
                let replacement = prefix_of(words[i]) + case_preserved(words[i], custom_words[word])
                    + suffix_of(words[i + n - 1]);
                seq![replacement] + corrected_from(words, i + n, custom_words, keys, threshold)
            },
            _ => seq![words[i]] + corrected_from(words, i + 1, custom_words, keys, threshold),
        }
    }
}

/// The text with its words corrected towards the custom words.
pub open spec fn corrected(
    text: Seq<char>,
    custom_words: Seq<Seq<char>>,
    threshold: Binary64,
) -> Seq<char> {
    if custom_words.len() == 0 {
        text
    } else {
        let keys = keys_of_words(custom_words, custom_words.len() as int);
        joined(corrected_from(words_of(text), 0, custom_words, keys, threshold), " "@)
    }
}

/// Every key belongs to one of the custom words.
pub open spec fn keys_in_range(keys: Seq<(int, Seq<char>)>, count: int) -> bool {
    forall|k: int| 0 <= k < keys.len() ==> 0 <= (#[trigger] keys[k]).0 < count
}

/// Builds the keys of all custom words.
fn build_all_keys(custom_words: &[String]) -> (r: Vec<CustomWordMatchKey>)
    ensures
        key_views(r@) == keys_of_words(strings(custom_words@), custom_words@.len() as int),
        keys_in_range(key_views(r@), custom_words@.len() as int),
{
    let mut keys: Vec<CustomWordMatchKey> = Vec::new();
    let mut i: usize = 0;
    assert(key_views(keys@) =~= Seq::empty());
    while i < custom_words.len()
        invariant
            i <= custom_words@.len(),
            key_views(keys@) == keys_of_words(strings(custom_words@), i as int),
            keys_in_range(key_views(keys@), i as int),
        decreases custom_words@.len() - i,
    {
        let mut more: Vec<CustomWordMatchKey> = build_custom_word_match_keys(
            custom_words[i].as_str(),
            i,
        );
        let ghost before = key_views(keys@);
        let ghost added = key_views(more@);
        keys.append(&mut more);
        proof {
            assert(key_views(keys@) =~= before + added);
            assert forall|k: int| 0 <= k < key_views(keys@).len() implies 0 <= (
            #[trigger] key_views(keys@)[k]).0 < i + 1 by {
                if k < before.len() {
                    assert(before[k].0 < i);
                } else {
                    assert(added[k - before.len()].0 == i);
                }
            }
        }
        i = i + 1;
    }
    keys
}

/// Whether punctuation closes one of the words from `i` on before the last of `n`.
fn is_crossing_punctuation(words: &Vec<Vec<char>>, i: usize, n: usize) -> (r: bool)
    requires
        1 <= n,
        i + n <= words@.len(),
    ensures
        r == crosses_punctuation(texts(words@), i as int, n as int),
{
    let mut j: usize = i;
    while j < i + n - 1
        invariant
            1 <= n,
            i <= j <= i + n - 1,
            i + n <= words.len(),
            forall|k: int| i <= k < j ==> suffix_of(#[trigger] texts(words@)[k]).len() == 0,
        decreases i + n - 1 - j,
    {
        let (_, start): (usize, usize) = punctuation_bounds(&words[j]);
        assert(texts(words@)[j as int] == words@[j as int]@);
        if start < words[j].len() {
            assert(suffix_of(texts(words@)[j as int]).len() > 0);
            return true;
        }
        j = j + 1;
    }
    false
}

/// The best match of one, two or three words from `i` on, as the number of words,
/// the position of the custom word and the score.
fn find_best_ngram(
    words: &Vec<Vec<char>>,
    i: usize,
    keys: &Vec<CustomWordMatchKey>,
    threshold: Binary64,
) -> (r: Option<(usize, usize, Binary64)>)
    requires
        i < words@.len(),
    ensures
        match best_ngram(texts(words@), i as int, key_views(keys@), threshold) {
            None => r is None,
            Some((n, word, score)) => r matches Some((rn, rword, rscore)) && rn == n && rword
                == word && rscore == score && 1 <= n <= words@.len() - i && exists|k: int|
                0 <= k < keys@.len() && (#[trigger] keys@[k]).word_index == word,
        },
{
    let ghost views = key_views(keys@);
    let ghost model = texts(words@);
    let mut best: Option<(usize, usize, Binary64)> = None;
    let mut n: usize = 3;
    let ghost mut found: Option<(int, int, Binary64)> = None;
    while n > 0
        invariant
            i < words@.len(),
            n <= 3,
            views == key_views(keys@),
            model == texts(words@),
            n == 3 ==> found is None,
            n == 2 ==> found == better_ngram(model, i as int, 3, views, threshold, None),
            n == 1 ==> found == better_ngram(
                model,
                i as int,
                2,
                views,
                threshold,
                better_ngram(model, i as int, 3, views, threshold, None),
            ),
            n == 0 ==> found == best_ngram(model, i as int, views, threshold),
            match found {
                None => best is None,
                Some((fn_, word, score)) => best matches Some((rn, rword, rscore)) && rn == fn_
                    && rword == word && rscore == score && 1 <= fn_ <= words@.len() - i && exists|
                    k: int,
                |
                    0 <= k < keys@.len() && (#[trigger] keys@[k]).word_index == word,
            },
        decreases n,
    {
        proof {
            found = better_ngram(model, i as int, n as int, views, threshold, found);
        }
        if n <= words.len() - i && !is_crossing_punctuation(words, i, n) {
            let ngram: String = build_ngram(words, i, n);
            match find_match_index(ngram.as_str(), keys, threshold) {
                None => {},
                Some((k, score)) => {
                    let better: bool = match best {
                        None => true,
                        Some((_, _, least)) => score.lt(least),
                    };
                    if better {
                        best = Some((n, keys[k].word_index, score));
                    }
                },
            }
        }
        n = n - 1;
    }
    best
}

/// Corrects the words of a transcription towards a list of custom words.
///
/// Up to three words in a row are taken together, so that speech split over several
/// words ("Charge B") can match one custom word ("ChargeBee"); a match never reaches
/// across punctuation. Case and surrounding punctuation of the transcription are
/// kept. `threshold` is the highest score that is accepted: zero accepts
/// equal words only, and one accepts any word of about the same length.
pub fn apply_custom_words(text: &str, custom_words: &[String], threshold: Binary64) -> (r: String)
    ensures
        r@ == corrected(text@, strings(custom_words@), threshold),
{
    if custom_words.len() == 0 {
        return text.to_owned();
    }
    let keys: Vec<CustomWordMatchKey> = build_all_keys(custom_words);
    let chars: Vec<char> = chars_of(text);
    let words: Vec<Vec<char>> = split_words(&chars);
    let ghost custom = strings(custom_words@);
    let ghost views = key_views(keys@);
    let ghost model = texts(words@);
    let ghost goal = corrected_from(model, 0, custom, views, threshold);
    let mut result: Vec<Vec<char>> = Vec::new();
    let mut i: usize = 0;
    assert(texts(result@) + goal =~= goal);
    while i < words.len()
        invariant
            custom == strings(custom_words@),
            views == key_views(keys@),
            keys_in_range(views, custom_words@.len() as int),
            model == texts(words@),
            i <= words@.len(),
            texts(result@) + corrected_from(model, i as int, custom, views, threshold) == goal,
        decreases words@.len() - i,
    {
        let ghost done = texts(result@);
        match find_best_ngram(&words, i, &keys, threshold) {
            Some((n, word, _)) => {
                proof {
                    let k = choose|k: int|
                        0 <= k < keys@.len() && (#[trigger] keys@[k]).word_index == word;
                    assert(views[k].0 == word);
                }
                let (end, _): (usize, usize) = punctuation_bounds(&words[i]);
                let (_, start): (usize, usize) = punctuation_bounds(&words[i + n - 1]);
                let first: String = text_of(&words[i]);
                let cased: String = preserve_case_pattern(
                    first.as_str(),
                    custom_words[word].as_str(),
                );
                let body: Vec<char> = chars_of(cased.as_str());
                let mut replacement: Vec<char> = part_of(&words[i], 0, end);
                let last: usize = words[i + n - 1].len();
                let suffix: Vec<char> = part_of(&words[i + n - 1], start, last);
                append_chars(&mut replacement, &body);
                append_chars(&mut replacement, &suffix);
                let ghost w = replacement@;
                result.push(replacement);
                proof {
                    assert(w =~= prefix_of(model[i as int]) + case_preserved(
                        model[i as int],
                        custom[word as int],
                    ) + suffix_of(model[i + n - 1]));
                    assert(texts(result@) =~= done.push(w));
                    let rest = corrected_from(model, i + n, custom, views, threshold);
                    assert(done + (seq![w] + rest) =~= done.push(w) + rest);
                }
                i = i + n;
            },
            None => {
                let last: usize = words[i].len();
                let kept: Vec<char> = part_of(&words[i], 0, last);
                let ghost w = kept@;
                result.push(kept);
                proof {
                    assert(w =~= model[i as int]);
                    assert(texts(result@) =~= done.push(w));
                    let rest = corrected_from(model, i + 1, custom, views, threshold);
                    assert(done + (seq![w] + rest) =~= done.push(w) + rest);
                }
                i = i + 1;
            },
        }
    }
    assert(texts(result@) + Seq::<Seq<char>>::empty() =~= texts(result@));
    let separator: Vec<char> = chars_of(" ");
    let line: Vec<char> = join(&result, &separator);
    text_of(&line)
}

} // verus!
