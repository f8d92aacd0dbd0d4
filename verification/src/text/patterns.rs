//! Regular expression matches as spans of characters.
use super::kept::{anchored, anchored_at};
use super::spans::{merged, merged_after_moving, moved};
use super::strings::{chars_of, joined, skip_while};
use super::unicode::whitespace;
use regex::Regex;
use vstd::prelude::*;
use vstd::utf8::{
    encode_scalar, encode_utf8, encode_utf8_first_scalar, encode_utf8_valid_utf8, is_char_boundary,
    pop_first_scalar,
};

verus! {

/// A part of a text, from position `start` up to position `end`. Positions count
/// characters, except where byte offsets are spoken of.
#[derive(Debug, Clone, Copy, PartialEq, Eq, Structural)]
pub struct Span {
    pub start: usize,
    pub end: usize,
}

impl Span {
    /// The span lies in a text of the given length.
    pub open spec fn within(self, len: nat) -> bool {
        self.start <= self.end <= len
    }

    /// The part of `text` that the span covers.
    pub open spec fn of(self, text: Seq<char>) -> Seq<char> {
        text.subrange(self.start as int, self.end as int)
    }
}

/// Every span lies in a text of the given length.
pub open spec fn all_within(spans: Seq<Span>, len: nat) -> bool {
    forall|i: int| 0 <= i < spans.len() ==> (#[trigger] spans[i]).within(len)
}

/// The matches of a regular expression in a text, from left to right, as the byte
/// offsets of their starts and ends; nothing if the expression is none.
pub uninterp spec fn regex_matches(pattern: Seq<char>, text: Seq<char>) -> Option<
    Seq<(usize, usize)>,
>;

/// The characters that mean something else in a pattern than themselves.
pub open spec fn meta_character(c: char) -> bool {
    r"\.+*?()|[]{}^$#&-~"@.contains(c)
}

/// The text as a pattern that matches it literally: with a backslash before each
/// character that means something else.
pub open spec fn escaped(text: Seq<char>) -> Seq<char>
    decreases text.len(),
{
    if text.len() == 0 {
        Seq::empty()
    } else if meta_character(text.last()) {
        escaped(text.drop_last()).push('\\').push(text.last())
    } else {
        escaped(text.drop_last()).push(text.last())
    }
}

/// Words of letters, with dashes inside.
pub const TOKEN: &'static str = r"(?iu)\b\p{L}+(?:[-‐‑‒–—]\p{L}+)*\b";

/// Filler sounds that are drawn out.
pub const ELONGATED_SOUND: &'static str =
    r"(?iu)\b(?:a{3,}h*|ah{2,}|u{2,}h+|uh{2,}|u{2,}m+|um{2,}|e{2,}r+|er{2,}|а{3,}|э{2,}|и{3,}|м{3,}|эм{2,})\b";

/// What may stand between repetitions of a filler sound: white space or a dash.
pub const SEPARATOR: &'static str = r"(?:[ \t]*[-‐‑‒–—][ \t]*|[ \t]+)";

/// The filler sounds whose repetition is a filler, as patterns.
pub open spec fn repeatable_sounds() -> Seq<Seq<char>> {
    seq!["a+h+"@, "u+h+"@, "u+m+"@, "e+r+"@, "а+"@, "э+"@, "и+"@, "эм+"@]
}

/// The pattern of a sound that comes three times or more.
pub open spec fn repetition(sound: Seq<char>) -> Seq<char> {
    sound + "(?:"@ + SEPARATOR@ + sound + "){2,}"@
}

/// The pattern of filler sounds that come three times or more. Each alternative
/// repeats one sound, so that different sounds in a row do not match.
pub open spec fn repeated_sound() -> Seq<char> {
    r"(?iu)\b(?:"@ + joined(
        repeatable_sounds().map_values(|sound: Seq<char>| repetition(sound)),
        "|"@,
    ) + r")\b"@
}

/// The pattern of a given word as it stands.
pub open spec fn literal_word(word: Seq<char>) -> Seq<char> {
    r"(?iu)\b"@ + escaped(word) + r"\b"@
}

/// The patterns that a match fits only where it ends at a word boundary.
pub open spec fn word_pattern(pattern: Seq<char>) -> bool {
    ||| pattern == TOKEN@
    ||| pattern == ELONGATED_SOUND@
    ||| pattern == repeated_sound()
    ||| exists|word: Seq<char>| pattern == #[trigger] literal_word(word)
}

/// Byte offsets that start and end on character boundaries of `text`, each range
/// after the one before it.
pub open spec fn well_placed(matches: Seq<(usize, usize)>, text: Seq<char>) -> bool {
    &&& forall|i: int|
        0 <= i < matches.len() ==> {
            let (start, end) = #[trigger] matches[i];
            &&& start <= end
            &&& is_char_boundary(encode_utf8(text), start as int)
            &&& is_char_boundary(encode_utf8(text), end as int)
        }
    &&& forall|i: int, j: int|
        0 <= i < j < matches.len() ==> (#[trigger] matches[i]).1 <= (#[trigger] matches[j]).0
}

/// `regex::Regex::new` and `regex::Regex::find_iter`: compiles the pattern, and
/// lists its matches in the text as byte offsets. Which matches there are depends on
/// the pattern and the text alone and is named [`regex_matches`]; there is no list
/// where the pattern does not compile. Matches come in order, do not overlap and fall
/// on character boundaries. A match of one of the word patterns ends at a word
/// boundary, next to a word character, which is no blank and no soft punctuation.
#[verifier::external_body]
fn find_matches(pattern: &str, text: &str) -> (r: Option<Vec<(usize, usize)>>)
    ensures
        r is Some <==> regex_matches(pattern@, text@) is Some,
        r matches Some(list) ==> Some(list@) == regex_matches(pattern@, text@),
        r matches Some(list) ==> well_placed(list@, text@),
        r matches Some(list) ==> word_pattern(pattern@) ==> forall|i: int|
            0 <= i < list@.len() ==> anchored_at(
                text@,
                chars_before(text@, (#[trigger] list@[i]).1 as int) as int,
            ),
{
    let regex = Regex::new(pattern).ok()?;
    Some(regex.find_iter(text).map(|m| (m.start(), m.end())).collect())
}

/// `regex::escape` puts a backslash before each meta character of the text and leaves
/// the others as they are.
pub assume_specification[ regex::escape ](pattern: &str) -> (r: String)
    ensures
        r@ == escaped(pattern@),
;

/// Two or more horizontal white space characters in a row.
pub const MULTI_HORIZONTAL_SPACE: &'static str = r"[^\S\r\n]{2,}";

/// White space that does not end a line.
pub open spec fn horizontal_space() -> spec_fn(char) -> bool {
    |c: char| whitespace(c) && c != '\r' && c != '\n'
}

/// `text` from position `i` on with each run of two or more horizontal white space
/// characters replaced by one space.
pub open spec fn collapsed_from(text: Seq<char>, i: int) -> Seq<char>
    decreases text.len() - i,
{
    let end = skip_while(text, i, horizontal_space());
    if i < 0 || i >= text.len() {
        Seq::empty()
    } else if i + 2 <= end <= text.len() {
        seq![' '] + collapsed_from(text, end)
    } else {
        seq![text[i]] + collapsed_from(text, i + 1)
    }
}

/// `text` with each run of two or more horizontal white space characters replaced by
/// one space.
pub open spec fn spaces_collapsed(text: Seq<char>) -> Seq<char> {
    collapsed_from(text, 0)
}

/// `regex::Regex::new` and `regex::Regex::replace_all` with
/// [`MULTI_HORIZONTAL_SPACE`] and one space: every longest run of two or more white
/// space characters other than line ends becomes one space, and the rest of the text
/// stays.
#[verifier::external_body]
pub(crate) fn replace_all(pattern: &str, text: &str, replacement: &str) -> (r: String)
    requires
        pattern@ == MULTI_HORIZONTAL_SPACE@,
        replacement@ == " "@,
    ensures
        r@ == spaces_collapsed(text@),
{
    Regex::new(pattern).unwrap().replace_all(text, replacement).into_owned()
}

/// The number of bytes that encode a character.
pub open spec fn width(c: char) -> nat {
    encode_scalar(c as u32).len()
}

/// The number of characters of `text` that start before the byte offset `offset`.
pub open spec fn chars_before(text: Seq<char>, offset: int) -> nat
    decreases text.len(),
{
    if text.len() == 0 || offset <= 0 {
        0
    } else {
        1 + chars_before(text.skip(1), offset - width(text[0]))
    }
}

/// The spans of characters that byte ranges cover.
pub open spec fn char_spans(text: Seq<char>, matches: Seq<(usize, usize)>) -> Seq<Span> {
    matches.map_values(
        |m: (usize, usize)|
            Span {
                start: chars_before(text, m.0 as int) as usize,
                end: chars_before(text, m.1 as int) as usize,
            },
    )
}

/// The matches of a regular expression in a text as spans of characters.
pub open spec fn pattern_spans(pattern: Seq<char>, text: Seq<char>) -> Seq<Span> {
    match regex_matches(pattern, text) {
        None => Seq::empty(),
        Some(matches) => char_spans(text, matches),
    }
}

/// The number of characters before an offset is at most all of them, and does not
/// fall as the offset grows.
pub proof fn chars_before_keeps_order(text: Seq<char>, a: int, b: int)
    requires
        a <= b,
    ensures
        chars_before(text, a) <= chars_before(text, b) <= text.len(),
    decreases text.len(),
{
    if text.len() > 0 {
        chars_before_keeps_order(text.skip(1), a - width(text[0]), b - width(text[0]));
    }
}

/// The characters before an offset that falls on a boundary are encoded by exactly
/// as many bytes as the offset counts.
pub proof fn boundary_offset_is_exact(text: Seq<char>, offset: int)
    requires
        is_char_boundary(encode_utf8(text), offset),
    ensures
        encode_utf8(text.take(chars_before(text, offset) as int)).len() == offset,
    decreases text.len(),
{
    let bytes = encode_utf8(text);
    encode_utf8_valid_utf8(text);
    if text.len() == 0 {
        assert(text.take(0) =~= text);
    } else if offset == 0 {
        assert(text.take(0) =~= Seq::<char>::empty());
    } else {
        encode_utf8_first_scalar(text);
        let rest = text.skip(1);
        assert(text.drop_first() =~= rest);
        let k = chars_before(text, offset) as int;
        assert(pop_first_scalar(bytes) =~= encode_utf8(rest));
        boundary_offset_is_exact(rest, offset - width(text[0]));
        chars_before_keeps_order(rest, offset - width(text[0]), offset);
        assert(text.take(k).drop_first() =~= rest.take(k - 1));
    }
}

/// The number of bytes that encode the first `n` characters of `text`.
pub open spec fn bytes_before(text: Seq<char>, n: int) -> nat {
    encode_utf8(text.take(n)).len()
}

/// The byte offsets between which `span` lies in `text`.
pub open spec fn byte_range(text: Seq<char>, span: Span) -> Span {
    Span {
        start: bytes_before(text, span.start as int) as usize,
        end: bytes_before(text, span.end as int) as usize,
    }
}

/// The byte offsets between which the spans lie in `text`.
pub open spec fn byte_ranges(text: Seq<char>, spans: Seq<Span>) -> Seq<Span> {
    spans.map_values(|s: Span| byte_range(text, s))
}

/// The first of the counted characters is encoded before the others.
proof fn lemma_bytes_before_unfold(text: Seq<char>, n: int)
    requires
        0 < n <= text.len(),
    ensures
        bytes_before(text, n) == width(text[0]) + bytes_before(text.skip(1), n - 1),
        width(text[0]) > 0,
{
    assert(text.take(n).drop_first() =~= text.skip(1).take(n - 1));
}

/// The offset of a character is where it starts: a boundary, with all the characters
/// before it and no others on its left.
pub proof fn character_offset_is_a_boundary(text: Seq<char>, n: int)
    requires
        0 <= n <= text.len(),
    ensures
        chars_before(text, bytes_before(text, n) as int) == n,
        is_char_boundary(encode_utf8(text), bytes_before(text, n) as int),
        bytes_before(text, n) <= encode_utf8(text).len(),
    decreases n,
{
    encode_utf8_valid_utf8(text);
    if n == 0 {
        assert(text.take(0) =~= Seq::<char>::empty());
    } else {
        lemma_bytes_before_unfold(text, n);
        encode_utf8_first_scalar(text);
        let rest = text.skip(1);
        assert(text.drop_first() =~= rest);
        assert(pop_first_scalar(encode_utf8(text)) =~= encode_utf8(rest));
        character_offset_is_a_boundary(rest, n - 1);
    }
}

/// Later characters have greater offsets.
proof fn lemma_bytes_before_order(text: Seq<char>, a: int, b: int)
    requires
        0 <= a < b <= text.len(),
    ensures
        bytes_before(text, a) < bytes_before(text, b),
    decreases a,
{
    lemma_bytes_before_unfold(text, b);
    if a == 0 {
        assert(text.take(0) =~= Seq::<char>::empty());
    } else {
        lemma_bytes_before_unfold(text, a);
        lemma_bytes_before_order(text.skip(1), a - 1, b - 1);
    }
}

/// One more character takes as many more bytes as encode it.
proof fn lemma_bytes_before_step(text: Seq<char>, n: int)
    requires
        0 <= n < text.len(),
    ensures
        bytes_before(text, n + 1) == bytes_before(text, n) + width(text[n]),
    decreases n,
{
    lemma_bytes_before_unfold(text, n + 1);
    if n == 0 {
        assert(text.take(0) =~= Seq::<char>::empty());
        assert(text.skip(1).take(0) =~= Seq::<char>::empty());
    } else {
        lemma_bytes_before_unfold(text, n);
        lemma_bytes_before_step(text.skip(1), n - 1);
    }
}

/// Spans of characters can be joined before or after they become byte ranges.
pub proof fn merged_byte_ranges(text: Seq<char>, spans: Seq<Span>)
    requires
        all_within(spans, text.len()),
        encode_utf8(text).len() <= usize::MAX,
    ensures
        merged(byte_ranges(text, spans)) == byte_ranges(text, merged(spans)),
{
    let f = |n: int| bytes_before(text, n) as int;
    let n = text.len() as int;
    assert forall|a: int, b: int| 0 <= a < b <= n implies #[trigger] f(a) < #[trigger] f(b) by {
        lemma_bytes_before_order(text, a, b);
    }
    assert forall|a: int| 0 <= a <= n implies 0 <= #[trigger] f(a) <= usize::MAX by {
        character_offset_is_a_boundary(text, a);
    }
    merged_after_moving(spans, f, n);
    assert(spans.map_values(|s: Span| moved(s, f)) =~= byte_ranges(text, spans));
    assert(merged(spans).map_values(|s: Span| moved(s, f)) =~= byte_ranges(text, merged(spans)));
}

/// The number of bytes that encode a character.
fn width_of(c: char) -> (r: usize)
    ensures
        r == width(c),
        1 <= r <= 4,
{
    let code: u32 = c as u32;
    if code < 0x80 {
        1
    } else if code < 0x800 {
        2
    } else if code < 0x1_0000 {
        3
    } else {
        4
    }
}

/// The number of bytes that encode the first `n` characters of a text.
fn count_bytes_before(text: &Vec<char>, n: usize) -> (r: usize)
    requires
        n <= text@.len(),
        encode_utf8(text@).len() <= usize::MAX,
    ensures
        r == bytes_before(text@, n as int),
{
    let mut bytes: usize = 0;
    let mut i: usize = 0;
    assert(text@.take(0) =~= Seq::<char>::empty());
    while i < n
        invariant
            i <= n <= text@.len(),
            encode_utf8(text@).len() <= usize::MAX,
            bytes == bytes_before(text@, i as int),
        decreases n - i,
    {
        proof {
            lemma_bytes_before_step(text@, i as int);
            character_offset_is_a_boundary(text@, i + 1);
        }
        bytes = bytes + width_of(text[i]);
        i = i + 1;
    }
    bytes
}

/// The byte ranges of spans of characters.
pub fn byte_ranges_of(text: &str, spans: &Vec<Span>) -> (r: Vec<Span>)
    requires
        all_within(spans@, text@.len()),
    ensures
        r@ == byte_ranges(text@, spans@),
        encode_utf8(text@).len() <= usize::MAX,
{
    let _size: usize = text.as_bytes().len();
    assert(_size == encode_utf8(text@).len());
    let chars: Vec<char> = chars_of(text);
    let mut ranges: Vec<Span> = Vec::new();
    let mut i: usize = 0;
    while i < spans.len()
        invariant
            chars@ == text@,
            encode_utf8(text@).len() <= usize::MAX,
            all_within(spans@, text@.len()),
            i <= spans@.len(),
            ranges@ == byte_ranges(text@, spans@.take(i as int)),
        decreases spans@.len() - i,
    {
        let span: Span = spans[i];
        assert(spans@[i as int].within(text@.len()));
        let start: usize = count_bytes_before(&chars, span.start);
        let end: usize = count_bytes_before(&chars, span.end);
        ranges.push(Span { start, end });
        assert(spans@.take(i + 1) =~= spans@.take(i as int).push(span));
        assert(ranges@ =~= byte_ranges(text@, spans@.take(i + 1)));
        i = i + 1;
    }
    assert(spans@.take(spans@.len() as int) =~= spans@);
    ranges
}

/// The number of characters that start before a byte offset.
pub(crate) fn count_chars_before(text: &Vec<char>, offset: usize) -> (r: usize)
    ensures
        r == chars_before(text@, offset as int),
{
    let mut left: usize = offset;
    let mut i: usize = 0;
    assert(text@.skip(0) =~= text@);
    while i < text.len() && left > 0
        invariant
            i <= text@.len(),
            chars_before(text@, offset as int) == i + chars_before(text@.skip(i as int), left as int),
        decreases text@.len() - i,
    {
        let bytes: usize = width_of(text[i]);
        assert(text@.skip(i as int).skip(1) =~= text@.skip(i + 1));
        if left <= bytes {
            assert(chars_before(text@.skip(i + 1), left - bytes) == 0);
            return i + 1;
        }
        left = left - bytes;
        i = i + 1;
    }
    i
}

/// The matches of a regular expression in a text as spans of characters. A pattern
/// that does not compile has none.
pub fn find_spans(pattern: &str, text: &str) -> (r: Vec<Span>)
    ensures
        r@ == pattern_spans(pattern@, text@),
        all_within(r@, text@.len()),
        word_pattern(pattern@) ==> anchored(text@, r@),
{
    match find_matches(pattern, text) {
        None => Vec::new(),
        Some(matches) => {
            let chars: Vec<char> = chars_of(text);
            let spans: Vec<Span> = spans_of_matches(&chars, &matches);
            proof {
                if word_pattern(pattern@) {
                    assert forall|i: int| 0 <= i < spans@.len() implies anchored_at(
                        text@,
                        (#[trigger] spans@[i]).end as int,
                    ) by {
                        assert(anchored_at(
                            text@,
                            chars_before(text@, matches@[i].1 as int) as int,
                        ));
                        chars_before_keeps_order(text@, 0, matches@[i].1 as int);
                    }
                }
            }
            spans
        },
    }
}

/// The spans of characters that byte ranges cover.
pub fn spans_of_matches(text: &Vec<char>, matches: &Vec<(usize, usize)>) -> (r: Vec<Span>)
    requires
        forall|i: int| 0 <= i < matches@.len() ==> (#[trigger] matches@[i]).0 <= matches@[i].1,
    ensures
        r@ == char_spans(text@, matches@),
        all_within(r@, text@.len()),
{
    let mut spans: Vec<Span> = Vec::new();
    let mut i: usize = 0;
    while i < matches.len()
        invariant
            forall|k: int| 0 <= k < matches@.len() ==> (#[trigger] matches@[k]).0 <= matches@[k].1,
            i <= matches@.len(),
            spans@ == char_spans(text@, matches@.take(i as int)),
            all_within(spans@, text@.len()),
        decreases matches@.len() - i,
    {
        let (from, to): (usize, usize) = matches[i];
        let start: usize = count_chars_before(text, from);
        let end: usize = count_chars_before(text, to);
        proof {
            assert(matches@[i as int].0 <= matches@[i as int].1);
            chars_before_keeps_order(text@, from as int, to as int);
            assert(matches@.take(i + 1) =~= matches@.take(i as int).push(matches@[i as int]));
        }
        spans.push(Span { start, end });
        assert(spans@ =~= char_spans(text@, matches@.take(i + 1)));
        i = i + 1;
    }
    assert(matches@.take(matches@.len() as int) =~= matches@);
    spans
}

} // verus!
