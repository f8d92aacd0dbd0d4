//! Removal of spans from a text, with the spacing and punctuation that a removal
//! leaves behind.
use super::patterns::{chars_before, chars_before_keeps_order, count_chars_before, Span};
use super::spans::{merge_spans, merged};
use super::strings::{
    back_while, chars_of, part_of, skip_while, skip_while_is_a_run, text_of,
};
use super::unicode::lowercase;
use vstd::prelude::*;
use vstd::utf8::{encode_utf8, is_char_boundary};

verus! {

/// The characters that space words on a line.
pub open spec fn blank() -> spec_fn(char) -> bool {
    |c: char| c == ' ' || c == '\t'
}

/// Punctuation that separates parts of a sentence.
pub open spec fn soft(c: char) -> bool {
    c == ',' || c == '，' || c == ';' || c == '；' || c == ':' || c == '：'
}

/// Punctuation that ends a sentence.
pub open spec fn sentence_end(c: char) -> bool {
    c == '.' || c == '!' || c == '?' || c == '。' || c == '！' || c == '？'
}

/// The characters that end a line.
pub open spec fn line_end(c: char) -> bool {
    c == '\r' || c == '\n'
}

/// The characters that a removal may make redundant: blanks and soft punctuation.
pub open spec fn joint() -> spec_fn(char) -> bool {
    |c: char| c == ' ' || c == '\t' || soft(c)
}

/// `s` without the blanks at its end.
pub open spec fn blanks_off_end(s: Seq<char>) -> Seq<char> {
    s.take(back_while(s, s.len() as int, blank()))
}

/// `s` without the characters satisfying `p` at its start.
pub open spec fn off_start(s: Seq<char>, p: spec_fn(char) -> bool) -> Seq<char> {
    s.skip(skip_while(s, 0, p))
}

/// `s` without one soft punctuation mark at its end and the blanks before that.
pub open spec fn soft_off_end(s: Seq<char>) -> Seq<char> {
    if s.len() > 0 && soft(s.last()) {
        blanks_off_end(s.drop_last())
    } else {
        s
    }
}

/// The text that `left` and `right` make where something between them is gone.
///
/// Blanks on both sides go, and on the right soft punctuation among them. A soft mark
/// at the end of `left` goes too where nothing follows, where a sentence ends, or where
/// a soft mark went on the right and a lowercase letter continues. One space joins
/// the two sides where there was a blank or a soft mark, but not before the end of a
/// sentence and not at a line end.
pub open spec fn rejoined(left: Seq<char>, right: Seq<char>) -> Seq<char> {
    let l = blanks_off_end(left);
    let unspaced = off_start(right, blank());
    let r = off_start(right, joint());
    let gap = l.len() != left.len() || unspaced.len() != right.len();
    let softened = unspaced.len() > 0 && soft(unspaced[0]);
    if l.len() == 0 {
        r
    } else if r.len() == 0 {
        soft_off_end(l)
    } else {
        let before_end = if sentence_end(r[0]) {
            soft_off_end(l)
        } else {
            l
        };
        let head = if softened && lowercase(r[0]) {
            soft_off_end(before_end)
        } else {
            before_end
        };
        let spaced = (gap || softened) && !sentence_end(r[0]) && !(head.len() > 0 && line_end(
            head.last(),
        )) && !line_end(r[0]);
        head + (if spaced {
            seq![' ']
        } else {
            Seq::empty()
        }) + r
    }
}

/// Whether a character is soft punctuation.
pub fn is_soft_punctuation(character: char) -> (r: bool)
    ensures
        r == soft(character),
{
    matches!(character, ',' | '，' | ';' | '；' | ':' | '：')
}

/// Whether a character ends a sentence.
pub fn is_sentence_punctuation(character: char) -> (r: bool)
    ensures
        r == sentence_end(character),
{
    matches!(character, '.' | '!' | '?' | '。' | '！' | '？')
}

/// Whether a character spaces words on a line.
fn is_blank(c: char) -> (r: bool)
    ensures
        r == blank()(c),
{
    c == ' ' || c == '\t'
}

/// Whether a character ends a line.
fn is_line_end(c: char) -> (r: bool)
    ensures
        r == line_end(c),
{
    c == '\r' || c == '\n'
}

/// The first position at or after `i` that holds no blank.
pub fn trim_horizontal_start(text: &Vec<char>, i: usize) -> (r: usize)
    requires
        i <= text@.len(),
    ensures
        i <= r <= text@.len(),
        r == skip_while(text@, i as int, blank()),
{
    let mut k: usize = i;
    while k < text.len() && is_blank(text[k])
        invariant
            i <= k <= text@.len(),
            skip_while(text@, k as int, blank()) == skip_while(text@, i as int, blank()),
        decreases text@.len() - k,
    {
        k = k + 1;
    }
    k
}

/// The end of what stands before the blanks that end at `j`.
pub fn trim_horizontal_end(text: &Vec<char>, j: usize) -> (r: usize)
    requires
        j <= text@.len(),
    ensures
        r <= j,
        r == back_while(text@, j as int, blank()),
{
    let mut k: usize = j;
    while k > 0 && is_blank(text[k - 1])
        invariant
            k <= j <= text@.len(),
            back_while(text@, k as int, blank()) == back_while(text@, j as int, blank()),
        decreases k,
    {
        k = k - 1;
    }
    k
}

/// Runs that end at `j` do not depend on what follows.
proof fn lemma_back_while_prefix(s: Seq<char>, n: int, j: int, p: spec_fn(char) -> bool)
    requires
        0 <= j <= n <= s.len(),
    ensures
        back_while(s.take(n), j, p) == back_while(s, j, p),
    decreases j,
{
    if j > 0 && p(s[j - 1]) {
        lemma_back_while_prefix(s, n, j - 1, p);
    }
}

/// Runs in the rest of a text are runs in the text.
proof fn lemma_skip_while_suffix(s: Seq<char>, n: int, i: int, p: spec_fn(char) -> bool)
    requires
        0 <= n <= s.len(),
        0 <= i <= s.len() - n,
    ensures
        skip_while(s.skip(n), i, p) == skip_while(s, n + i, p) - n,
    decreases s.len() - i,
{
    if i < s.len() - n && p(s[n + i]) {
        lemma_skip_while_suffix(s, n, i + 1, p);
    }
}

/// Blanks are the start of a run of blanks and soft punctuation.
proof fn lemma_joint_run_after_blanks(s: Seq<char>, i: int)
    requires
        0 <= i <= s.len(),
    ensures
        skip_while(s, skip_while(s, i, blank()), joint()) == skip_while(s, i, joint()),
    decreases s.len() - i,
{
    if i < s.len() && blank()(s[i]) {
        lemma_joint_run_after_blanks(s, i + 1);
    }
}

/// The end of `text` up to `j` without one soft mark and the blanks before that.
fn drop_soft_end(text: &Vec<char>, j: usize) -> (r: usize)
    requires
        j <= text@.len(),
    ensures
        r <= j,
        text@.take(r as int) == soft_off_end(text@.take(j as int)),
{
    if j > 0 && is_soft_punctuation(text[j - 1]) {
        let r: usize = trim_horizontal_end(text, j - 1);
        proof {
            let cut = text@.take(j as int);
            assert(cut.drop_last() =~= text@.take(j - 1));
            lemma_back_while_prefix(text@, j - 1, j - 1, blank());
            assert(text@.take(j - 1).take(r as int) =~= text@.take(r as int));
        }
        r
    } else {
        j
    }
}

/// The first position from `start` on, where no blank stands, that holds neither a
/// blank nor soft punctuation.
fn skip_soft(text: &Vec<char>, start: usize) -> (r: usize)
    requires
        start <= text@.len(),
        start < text@.len() ==> !blank()(text@[start as int]),
    ensures
        start <= r <= text@.len(),
        r == skip_while(text@, start as int, joint()),
        r > start <==> start < text@.len() && soft(text@[start as int]),
{
    let mut tail: usize = start;
    while tail < text.len() && is_soft_punctuation(text[tail])
        invariant
            start <= tail <= text@.len(),
            skip_while(text@, tail as int, joint()) == skip_while(text@, start as int, joint()),
            tail < text@.len() ==> !blank()(text@[tail as int]),
            start < tail ==> soft(text@[start as int]),
        decreases text@.len() - tail,
    {
        proof {
            lemma_joint_run_after_blanks(text@, tail + 1);
            skip_while_is_a_run(text@, tail + 1, blank());
        }
        tail = trim_horizontal_start(text, tail + 1);
    }
    tail
}

/// Cleans up the spacing and punctuation made redundant at `boundary`, where
/// something was removed.
pub fn clean_removed_boundary(text: &mut Vec<char>, boundary: usize)
    requires
        boundary <= old(text)@.len(),
    ensures
        final(text)@ == rejoined(
            old(text)@.take(boundary as int),
            old(text)@.skip(boundary as int),
        ),
{
    let ghost s = text@;
    let ghost left = s.take(boundary as int);
    let ghost right = s.skip(boundary as int);
    let mut head: usize = trim_horizontal_end(text, boundary);
    let unspaced: usize = trim_horizontal_start(text, boundary);
    let gap: bool = head != boundary || unspaced != boundary;
    proof {
        lemma_back_while_prefix(s, boundary as int, boundary as int, blank());
        lemma_skip_while_suffix(s, boundary as int, 0, blank());
        lemma_skip_while_suffix(s, boundary as int, 0, joint());
        lemma_joint_run_after_blanks(s, boundary as int);
        skip_while_is_a_run(s, boundary as int, blank());
    }
    let tail: usize = skip_soft(text, unspaced);
    let softened: bool = tail > unspaced;
    let ghost l = blanks_off_end(left);
    let ghost r = off_start(right, joint());
    assert(l =~= s.take(head as int));
    assert(r =~= s.skip(tail as int));
    assert(off_start(right, blank()) =~= s.skip(unspaced as int));
    if head == 0 {
        let rest: Vec<char> = part_of(text, tail, text.len());
        assert(rest@ =~= r);
        *text = rest;
        return;
    }
    if tail == text.len() {
        let end: usize = drop_soft_end(text, head);
        let rest: Vec<char> = part_of(text, 0, end);
        assert(rest@ =~= s.take(end as int));
        *text = rest;
        return;
    }
    let next: char = text[tail];
    if is_sentence_punctuation(next) {
        head = drop_soft_end(text, head);
    }
    if softened && next.is_lowercase() {
        head = drop_soft_end(text, head);
    }
    let spaced: bool = (gap || softened) && !is_sentence_punctuation(next) && !(head > 0
        && is_line_end(text[head - 1])) && !is_line_end(next);
    let mut cleaned: Vec<char> = part_of(text, 0, head);
    if spaced {
        cleaned.push(' ');
    }
    let mut rest: Vec<char> = part_of(text, tail, text.len());
    assert(rest@ =~= r);
    cleaned.append(&mut rest);
    assert(s.subrange(0, head as int) =~= s.take(head as int));
    assert(cleaned@ =~= rejoined(left, right));
    *text = cleaned;
}

/// `text` without the part that `span` covers, and with what its removal made
/// redundant cleaned up.
pub open spec fn without_span(text: Seq<char>, span: Span) -> Seq<char> {
    rejoined(text.take(span.start as int), text.skip(span.end as int))
}

/// `text` without the parts that `spans` cover, removed from the last to the first.
pub open spec fn without_spans(text: Seq<char>, spans: Seq<Span>) -> Seq<char>
    decreases spans.len(),
{
    if spans.len() == 0 {
        text
    } else {
        without_spans(without_span(text, spans.last()), spans.drop_last())
    }
}

/// `text` without the bytes of `range`, and with what their removal made redundant
/// cleaned up.
pub open spec fn without_range(text: Seq<char>, range: Span) -> Seq<char> {
    rejoined(
        text.take(chars_before(text, range.start as int) as int),
        text.skip(chars_before(text, range.end as int) as int),
    )
}

/// `text` without the bytes of `ranges`, removed from the last range to the first.
/// The offsets of each range count in what is left by then.
pub open spec fn without_ranges(text: Seq<char>, ranges: Seq<Span>) -> Seq<char>
    decreases ranges.len(),
{
    if ranges.len() == 0 {
        text
    } else {
        without_ranges(without_range(text, ranges.last()), ranges.drop_last())
    }
}

/// Each range starts and ends on a character boundary of what is left of the text
/// when its turn to be removed comes.
pub open spec fn on_boundaries_in_turn(text: Seq<char>, ranges: Seq<Span>) -> bool
    decreases ranges.len(),
{
    ranges.len() == 0 || {
        &&& ranges.last().start <= ranges.last().end
        &&& is_char_boundary(encode_utf8(text), ranges.last().start as int)
        &&& is_char_boundary(encode_utf8(text), ranges.last().end as int)
        &&& on_boundaries_in_turn(without_range(text, ranges.last()), ranges.drop_last())
    }
}

/// A range that ends before it starts does so inside or at the end of one that starts
/// before it, and so adds nothing.
pub open spec fn backward_ranges_vanish(ranges: Seq<Span>) -> bool {
    forall|i: int|
        0 <= i < ranges.len() ==> (#[trigger] ranges[i]).start <= ranges[i].end || exists|j: int|
            0 <= j < ranges.len() && (#[trigger] ranges[j]).start < ranges[i].start
                && ranges[i].start <= ranges[j].end
}

/// The text without the bytes of the ranges. Ranges may come in any order and
/// overlap.
pub fn remove_ranges_with_boundary_cleanup(text: &str, ranges: &Vec<Span>) -> (r: String)
    requires
        backward_ranges_vanish(ranges@),
        on_boundaries_in_turn(text@, merged(ranges@)),
    ensures
        r@ == without_ranges(text@, merged(ranges@)),
{
    let merge: Vec<Span> = merge_spans(ranges);
    let mut filtered: Vec<char> = chars_of(text);
    let mut n: usize = merge.len();
    assert(merge@.take(n as int) =~= merge@);
    while n > 0
        invariant
            n <= merge@.len(),
            on_boundaries_in_turn(filtered@, merge@.take(n as int)),
            without_ranges(filtered@, merge@.take(n as int)) == without_ranges(text@, merge@),
        decreases n,
    {
        n = n - 1;
        let range: Span = merge[n];
        let ghost todo = merge@.take(n + 1);
        assert(todo.last() == range);
        assert(todo.drop_last() =~= merge@.take(n as int));
        let ghost before = filtered@;
        let start: usize = count_chars_before(&filtered, range.start);
        let end: usize = count_chars_before(&filtered, range.end);
        proof {
            chars_before_keeps_order(before, range.start as int, range.end as int);
        }
        let mut shorter: Vec<char> = part_of(&filtered, 0, start);
        let mut rest: Vec<char> = part_of(&filtered, end, filtered.len());
        shorter.append(&mut rest);
        proof {
            assert(before.subrange(0, start as int) =~= before.take(start as int));
            assert(before.subrange(end as int, before.len() as int) =~= before.skip(end as int));
            assert(shorter@.take(start as int) =~= before.take(start as int));
            assert(shorter@.skip(start as int) =~= before.skip(end as int));
        }
        clean_removed_boundary(&mut shorter, start);
        filtered = shorter;
    }
    text_of(&filtered)
}

} // verus!
