//! What is left of a text after spans were removed from it.
use super::boundary::{
    backward_ranges_vanish, blank, blanks_off_end, joint, line_end, off_start,
    on_boundaries_in_turn, rejoined, sentence_end, soft, soft_off_end, without_ranges,
    without_span, without_spans,
};
use super::patterns::{
    all_within, byte_range, byte_ranges, bytes_before, character_offset_is_a_boundary,
    chars_before, chars_before_keeps_order, merged_byte_ranges, Span,
};
use super::spans::{
    covered, merged, merged_ends_are_ends, merged_is_a_merge, ordered, separated,
};
use super::strings::{
    back_while_is_a_run, contains_text, occurs_at, skip_while, skip_while_is_a_run,
};
use super::unicode::{lowercase, whitespace};
use vstd::prelude::*;
use vstd::utf8::{encode_utf8, is_char_boundary};

verus! {

/// The two sides are joined by keeping the first `p` characters of `left`, then
/// `middle`, then `right` from its character `q` on; only blanks and soft punctuation
/// get lost, and `middle` is one space or nothing.
pub open spec fn joins(
    left: Seq<char>,
    right: Seq<char>,
    p: int,
    middle: Seq<char>,
    q: int,
) -> bool {
    &&& 0 <= p <= left.len()
    &&& 0 <= q <= right.len()
    &&& middle == Seq::<char>::empty() || middle == seq![' ']
    &&& rejoined(left, right) == left.take(p) + middle + right.skip(q)
    &&& forall|k: int| p <= k < left.len() ==> joint()(#[trigger] left[k])
    &&& forall|k: int| 0 <= k < q ==> joint()(#[trigger] right[k])
}

/// `part` is `whole` without some blanks and soft punctuation at its end.
spec fn joint_tail(part: Seq<char>, whole: Seq<char>) -> bool {
    &&& part.len() <= whole.len()
    &&& part == whole.take(part.len() as int)
    &&& forall|k: int| part.len() <= k < whole.len() ==> joint()(#[trigger] whole[k])
}

/// Blanks at the end are blanks and soft punctuation.
proof fn lemma_blanks_off_end(s: Seq<char>)
    ensures
        joint_tail(blanks_off_end(s), s),
{
    back_while_is_a_run(s, s.len() as int, blank());
}

/// Taking off a soft mark and blanks takes off blanks and soft punctuation.
proof fn lemma_soft_off_end(s: Seq<char>, whole: Seq<char>)
    requires
        joint_tail(s, whole),
    ensures
        joint_tail(soft_off_end(s), whole),
{
    if s.len() > 0 && soft(s.last()) {
        lemma_blanks_off_end(s.drop_last());
        let r = soft_off_end(s);
        assert(r =~= whole.take(r.len() as int));
        assert forall|k: int| r.len() <= k < whole.len() implies joint()(#[trigger] whole[k]) by {
            if k < s.len() - 1 {
                assert(whole[k] == s.drop_last()[k]);
            } else if k < s.len() {
                assert(whole[k] == s.last());
            }
        }
    }
}

/// Text away from a removal stays as it is: what the two sides make is a start of the
/// left one and an end of the right one, with one space between them or nothing, and
/// only blanks and soft punctuation get lost.
pub proof fn text_away_from_a_removal_is_kept(left: Seq<char>, right: Seq<char>) -> (r: (
    int,
    Seq<char>,
    int,
))
    ensures
        joins(left, right, r.0, r.1, r.2),
{
    let l = blanks_off_end(left);
    let q = skip_while(right, 0, joint());
    skip_while_is_a_run(right, 0, joint());
    lemma_blanks_off_end(left);
    lemma_soft_off_end(l, left);
    lemma_soft_off_end(soft_off_end(l), left);
    let rest = off_start(right, joint());
    if l.len() == 0 {
        assert(rejoined(left, right) =~= left.take(0) + Seq::<char>::empty() + right.skip(q));
        (0, Seq::empty(), q)
    } else if rest.len() == 0 {
        let head = soft_off_end(l);
        assert(rejoined(left, right) =~= left.take(head.len() as int) + Seq::<char>::empty()
            + right.skip(q));
        (head.len() as int, Seq::empty(), q)
    } else {
        let before_end = if sentence_end(rest[0]) {
            soft_off_end(l)
        } else {
            l
        };
        let unspaced = off_start(right, blank());
        let softened = unspaced.len() > 0 && soft(unspaced[0]);
        let head = if softened && lowercase(rest[0]) {
            soft_off_end(before_end)
        } else {
            before_end
        };
        assert(joint_tail(head, left));
        let gap = l.len() != left.len() || unspaced.len() != right.len();
        let spaced = (gap || softened) && !sentence_end(rest[0]) && !(head.len()
            > 0 && line_end(head.last())) && !line_end(rest[0]);
        let middle = if spaced {
            seq![' ']
        } else {
            Seq::<char>::empty()
        };
        assert(rejoined(left, right) =~= left.take(head.len() as int) + middle + right.skip(q));
        (head.len() as int, middle, q)
    }
}

/// Next to position `i` of `text` stands a character that no removal takes for
/// redundant.
pub open spec fn anchored_at(text: Seq<char>, i: int) -> bool {
    ||| 0 < i <= text.len() && !joint()(text[i - 1])
    ||| 0 <= i < text.len() && !joint()(text[i])
}

/// The end of every span is anchored in the text.
pub open spec fn anchored(text: Seq<char>, spans: Seq<Span>) -> bool {
    forall|i: int| 0 <= i < spans.len() ==> anchored_at(text, (#[trigger] spans[i]).end as int)
}

/// `now` still starts with the first `p` characters of `text`, and the spans that are
/// left end among them.
spec fn untouched(text: Seq<char>, now: Seq<char>, p: int, spans: Seq<Span>) -> bool {
    &&& 0 <= p <= text.len()
    &&& p <= now.len()
    &&& now.take(p) == text.take(p)
    &&& ordered(spans)
    &&& separated(spans)
    &&& anchored(text, spans)
    &&& forall|i: int| 0 <= i < spans.len() ==> (#[trigger] spans[i]).end <= p
}

/// Removing the last span leaves the text before it untouched but for redundant
/// characters right before it.
proof fn lemma_step_untouched(text: Seq<char>, now: Seq<char>, p: int, spans: Seq<Span>) -> (r: (
    int,
    Seq<char>,
    int,
))
    requires
        untouched(text, now, p, spans),
        spans.len() > 0,
    ensures
        joins(
            text.take(spans.last().start as int),
            now.skip(spans.last().end as int),
            r.0,
            r.1,
            r.2,
        ),
        now.take(spans.last().start as int) == text.take(spans.last().start as int),
        untouched(text, without_span(now, spans.last()), r.0, spans.drop_last()),
{
    let last = spans.last();
    let rest = spans.drop_last();
    let n = spans.len() as int;
    assert(spans[n - 1] == last);
    assert(last.start <= last.end && last.end <= p);
    let left = text.take(last.start as int);
    let right = now.skip(last.end as int);
    assert(now.take(last.start as int) =~= left) by {
        assert(now.take(p).take(last.start as int) =~= now.take(last.start as int));
        assert(text.take(p).take(last.start as int) =~= left);
    }
    let r = text_away_from_a_removal_is_kept(left, right);
    let next = without_span(now, last);
    assert(next.take(r.0) =~= text.take(r.0));
    assert forall|i: int| 0 <= i < rest.len() implies (#[trigger] rest[i]).end <= r.0 by {
        assert(rest[i] == spans[i]);
        assert(spans[i].end < spans[n - 1].start);
        let e = rest[i].end as int;
        assert(anchored_at(text, e));
        if e > r.0 {
            assert(left[e - 1] == text[e - 1]);
            assert(left[e] == text[e] || e == left.len());
        }
    }
    assert forall|i: int| 0 <= i < rest.len() implies (#[trigger] rest[i]).start
        <= rest[i].end && anchored_at(text, rest[i].end as int) by {
        assert(rest[i] == spans[i]);
    }
    assert forall|i: int, j: int| 0 <= i < j < rest.len() implies (#[trigger] rest[i]).end < (
    #[trigger] rest[j]).start by {
        assert(rest[i] == spans[i] && rest[j] == spans[j]);
    }
    r
}

/// Spans that end at anchors can be removed one after the other by the offsets that
/// they had at first.
proof fn lemma_untouched_is_removable(text: Seq<char>, now: Seq<char>, p: int, spans: Seq<Span>)
    requires
        untouched(text, now, p, spans),
        encode_utf8(text).len() <= usize::MAX,
    ensures
        on_boundaries_in_turn(now, byte_ranges(text, spans)),
        without_ranges(now, byte_ranges(text, spans)) == without_spans(now, spans),
    decreases spans.len(),
{
    let ranges = byte_ranges(text, spans);
    if spans.len() > 0 {
        let r = lemma_step_untouched(text, now, p, spans);
        let last = spans.last();
        assert(spans[spans.len() - 1] == last);
        assert(last.start <= last.end && last.end <= p);
        lemma_offset_in_untouched(text, now, p, last.start as int);
        lemma_offset_in_untouched(text, now, p, last.end as int);
        assert(ranges.last() == byte_range(text, last));
        assert(ranges.drop_last() =~= byte_ranges(text, spans.drop_last()));
        if last.start < last.end {
            assert(ranges.last().start <= ranges.last().end) by {
                if ranges.last().end < ranges.last().start {
                    chars_before_keeps_order(
                        now,
                        ranges.last().end as int,
                        ranges.last().start as int,
                    );
                }
            }
        }
        lemma_untouched_is_removable(text, without_span(now, last), r.0, spans.drop_last());
    }
}

/// A character in the part that is untouched has the offset that it had at first.
proof fn lemma_offset_in_untouched(text: Seq<char>, now: Seq<char>, p: int, n: int)
    requires
        0 <= n <= p <= text.len(),
        p <= now.len(),
        now.take(p) == text.take(p),
        encode_utf8(text).len() <= usize::MAX,
    ensures
        bytes_before(text, n) <= usize::MAX,
        chars_before(now, bytes_before(text, n) as int) == n,
        is_char_boundary(encode_utf8(now), bytes_before(text, n) as int),
{
    assert(now.take(p).take(n) =~= now.take(n));
    assert(text.take(p).take(n) =~= text.take(n));
    character_offset_is_a_boundary(text, n);
    character_offset_is_a_boundary(now, n);
}

/// The joined spans lie in the text and are anchored where the spans are.
proof fn lemma_merged_untouched(text: Seq<char>, spans: Seq<Span>)
    requires
        all_within(spans, text.len()),
        anchored(text, spans),
    ensures
        untouched(text, text, text.len() as int, merged(spans)),
{
    merged_is_a_merge(spans);
    let m = merged(spans);
    assert forall|i: int| 0 <= i < m.len() implies (#[trigger] m[i]).end <= text.len()
        && anchored_at(text, m[i].end as int) by {
        let j = merged_ends_are_ends(spans, i);
        assert(spans[j].within(text.len()));
    }
}

/// Spans of a text that end at anchors can be joined and removed one after the other
/// by their byte offsets, and that takes away just the characters that they cover.
pub proof fn anchored_spans_are_removable(text: Seq<char>, spans: Seq<Span>)
    requires
        all_within(spans, text.len()),
        anchored(text, spans),
        encode_utf8(text).len() <= usize::MAX,
    ensures
        backward_ranges_vanish(byte_ranges(text, spans)),
        on_boundaries_in_turn(text, merged(byte_ranges(text, spans))),
        without_ranges(text, merged(byte_ranges(text, spans))) == without_spans(
            text,
            merged(spans),
        ),
{
    lemma_merged_untouched(text, spans);
    merged_byte_ranges(text, spans);
    lemma_untouched_is_removable(text, text, text.len() as int, merged(spans));
    let ranges = byte_ranges(text, spans);
    assert forall|i: int| 0 <= i < ranges.len() implies (#[trigger] ranges[i]).start
        <= ranges[i].end by {
        let s = spans[i];
        assert(s.within(text.len()));
        assert(ranges[i] == byte_range(text, s));
        character_offset_is_a_boundary(text, s.start as int);
        character_offset_is_a_boundary(text, s.end as int);
        if ranges[i].end < ranges[i].start {
            chars_before_keeps_order(text, ranges[i].end as int, ranges[i].start as int);
        }
    }
}

/// The characters that are neither white space nor soft punctuation.
pub open spec fn ordinary() -> spec_fn(char) -> bool {
    |c: char| !whitespace(c) && !joint()(c)
}

/// The characters of `text` that no span covers.
pub open spec fn outside(text: Seq<char>, spans: Seq<Span>) -> Seq<char>
    decreases text.len(),
{
    if text.len() == 0 {
        Seq::empty()
    } else {
        let rest = outside(text.drop_last(), spans);
        if covered(spans, 2 * (text.len() - 1) + 1) {
            rest
        } else {
            rest.push(text.last())
        }
    }
}

/// Spans that cover the same positions leave the same characters outside.
proof fn lemma_outside_by_coverage(text: Seq<char>, a: Seq<Span>, b: Seq<Span>)
    requires
        forall|x: int| #[trigger] covered(a, x) == covered(b, x),
    ensures
        outside(text, a) == outside(text, b),
    decreases text.len(),
{
    if text.len() > 0 {
        lemma_outside_by_coverage(text.drop_last(), a, b);
        assert(covered(a, 2 * (text.len() - 1) + 1) == covered(b, 2 * (text.len() - 1) + 1));
    }
}

/// Without spans all characters are outside.
proof fn lemma_outside_nothing(text: Seq<char>)
    ensures
        outside(text, Seq::empty()) == text,
    decreases text.len(),
{
    if text.len() > 0 {
        lemma_outside_nothing(text.drop_last());
        assert(text.drop_last().push(text.last()) =~= text);
    }
}

/// What stands outside all spans is what stands outside all but the last before that
/// one starts, and what follows it.
proof fn lemma_outside_last(text: Seq<char>, n: int, spans: Seq<Span>)
    requires
        0 <= n <= text.len(),
        spans.len() > 0,
        ordered(spans),
        separated(spans),
        spans.last().end <= text.len(),
    ensures
        ({
            let s = spans.last().start as int;
            let e = spans.last().end as int;
            &&& n <= s ==> outside(text.take(n), spans) == outside(
                text.take(n),
                spans.drop_last(),
            )
            &&& s <= n <= e ==> outside(text.take(n), spans) == outside(
                text.take(s),
                spans.drop_last(),
            )
            &&& e <= n ==> outside(text.take(n), spans) == outside(
                text.take(s),
                spans.drop_last(),
            ) + text.subrange(e, n)
        }),
    decreases n,
{
    let s = spans.last().start as int;
    let e = spans.last().end as int;
    let rest = spans.drop_last();
    let k = spans.len() - 1;
    assert(spans[k] == spans.last());
    assert(s <= e);
    if n == 0 {
        if e == 0 {
            assert(text.subrange(0, 0) =~= Seq::empty());
            assert(outside(text.take(0), rest) + text.subrange(0, 0) =~= outside(
                text.take(0),
                rest,
            ));
        }
    } else {
        lemma_outside_last(text, n - 1, spans);
        let cut = text.take(n);
        let x = 2 * (n - 1) + 1;
        assert(cut.drop_last() =~= text.take(n - 1));
        assert(cut.last() == text[n - 1]);
        assert(covered(spans, x) == (covered(rest, x) || (2 * s <= x && x <= 2 * e))) by {
            if covered(spans, x) {
                let i = choose|i: int|
                    0 <= i < spans.len() && 2 * (#[trigger] spans[i]).start <= x && x <= 2
                        * spans[i].end;
                if i < k {
                    assert(rest[i] == spans[i]);
                }
            }
            if covered(rest, x) {
                let i = choose|i: int|
                    0 <= i < rest.len() && 2 * (#[trigger] rest[i]).start <= x && x <= 2
                        * rest[i].end;
                assert(rest[i] == spans[i]);
            }
        }
        if n > s {
            assert(!covered(rest, x)) by {
                if covered(rest, x) {
                    let i = choose|i: int|
                        0 <= i < rest.len() && 2 * (#[trigger] rest[i]).start <= x && x <= 2
                            * rest[i].end;
                    assert(rest[i] == spans[i]);
                    assert(spans[i].end < spans[k].start);
                }
            }
        }
        if n > e {
            assert(text.subrange(e, n) =~= text.subrange(e, n - 1).push(text[n - 1]));
            let head = outside(text.take(s), rest);
            assert((head + text.subrange(e, n - 1)).push(text[n - 1]) =~= head + text.subrange(
                e,
                n,
            ));
            if n - 1 == e {
                assert(text.subrange(e, e) =~= Seq::empty());
                assert(head + Seq::<char>::empty() =~= head);
            }
        } else if n == e {
            assert(text.subrange(e, e) =~= Seq::empty());
            assert(outside(text.take(s), rest) + Seq::<char>::empty() =~= outside(
                text.take(s),
                rest,
            ));
        }
    }
}

/// Characters that are not ordinary add nothing ordinary.
proof fn lemma_no_ordinary(s: Seq<char>)
    requires
        forall|k: int| 0 <= k < s.len() ==> joint()(#[trigger] s[k]),
    ensures
        s.filter(ordinary()) == Seq::<char>::empty(),
    decreases s.len(),
{
    reveal(Seq::filter);
    if s.len() > 0 {
        assert(joint()(s[s.len() - 1]));
        lemma_no_ordinary(s.drop_last());
    }
}

/// Redundant characters at the end of a text add nothing ordinary outside spans.
proof fn lemma_outside_joint_tail(text: Seq<char>, p: int, n: int, spans: Seq<Span>)
    requires
        0 <= p <= n <= text.len(),
        forall|k: int| p <= k < n ==> joint()(#[trigger] text[k]),
    ensures
        outside(text.take(n), spans).filter(ordinary()) == outside(text.take(p), spans).filter(
            ordinary(),
        ),
    decreases n,
{
    if p < n {
        lemma_outside_joint_tail(text, p, n - 1, spans);
        let cut = text.take(n);
        assert(cut.drop_last() =~= text.take(n - 1));
        assert(joint()(text[n - 1]));
        let rest = outside(text.take(n - 1), spans);
        assert(rest.push(text[n - 1]).drop_last() =~= rest);
        reveal(Seq::filter);
    }
}

/// Joining two sides takes nothing ordinary from the right one.
proof fn lemma_ordinary_on_the_right(
    left: Seq<char>,
    right: Seq<char>,
    p: int,
    middle: Seq<char>,
    q: int,
)
    requires
        joins(left, right, p, middle, q),
    ensures
        rejoined(left, right).skip(p).filter(ordinary()) == right.filter(ordinary()),
{
    let o = ordinary();
    assert(rejoined(left, right).skip(p) =~= middle + right.skip(q));
    Seq::filter_distributes_over_add(middle, right.skip(q), o);
    lemma_no_ordinary(middle);
    assert(right =~= right.take(q) + right.skip(q));
    Seq::filter_distributes_over_add(right.take(q), right.skip(q), o);
    lemma_no_ordinary(right.take(q));
    assert(rejoined(left, right).skip(p).filter(o) =~= right.filter(o));
}

/// The ordinary characters after a removal are those outside the removed spans.
proof fn lemma_ordinary_kept(text: Seq<char>, now: Seq<char>, p: int, spans: Seq<Span>)
    requires
        untouched(text, now, p, spans),
    ensures
        without_spans(now, spans).filter(ordinary()) == outside(text.take(p), spans).filter(
            ordinary(),
        ) + now.skip(p).filter(ordinary()),
    decreases spans.len(),
{
    let o = ordinary();
    if spans.len() == 0 {
        assert(spans =~= Seq::empty());
        lemma_outside_nothing(text.take(p));
        assert(now =~= text.take(p) + now.skip(p));
        Seq::filter_distributes_over_add(text.take(p), now.skip(p), o);
    } else {
        let last = spans.last();
        let rest = spans.drop_last();
        let (s, e) = (last.start as int, last.end as int);
        let (kept, middle, q) = lemma_step_untouched(text, now, p, spans);
        assert(spans[spans.len() - 1] == last);
        let next = without_span(now, last);
        let left = text.take(s);
        let right = now.skip(e);
        lemma_ordinary_kept(text, next, kept, rest);
        // The right side after the removal.
        lemma_ordinary_on_the_right(left, right, kept, middle, q);
        assert(next == rejoined(left, right));
        assert(right =~= text.subrange(e, p) + now.skip(p)) by {
            assert(now.take(p).subrange(e, p) =~= now.subrange(e, p));
            assert(text.take(p).subrange(e, p) =~= text.subrange(e, p));
        }
        Seq::filter_distributes_over_add(text.subrange(e, p), now.skip(p), o);
        // The left side after the removal.
        lemma_outside_last(text, p, spans);
        assert forall|k: int| kept <= k < s implies joint()(#[trigger] text[k]) by {
            assert(left[k] == text[k]);
        }
        lemma_outside_joint_tail(text, kept, s, rest);
        Seq::filter_distributes_over_add(outside(left, rest), text.subrange(e, p), o);
        let head = outside(left, rest).filter(o);
        assert(head + (text.subrange(e, p).filter(o) + now.skip(p).filter(o)) =~= (head
            + text.subrange(e, p).filter(o)) + now.skip(p).filter(o));
    }
}

/// Removing spans takes nothing but what they cover, white space and soft
/// punctuation: the other characters stay, in their order.
pub proof fn ordinary_text_is_kept(text: Seq<char>, spans: Seq<Span>)
    requires
        all_within(spans, text.len()),
        anchored(text, spans),
    ensures
        without_spans(text, merged(spans)).filter(ordinary()) == outside(text, spans).filter(
            ordinary(),
        ),
{
    let n = text.len() as int;
    lemma_merged_untouched(text, spans);
    merged_is_a_merge(spans);
    lemma_ordinary_kept(text, text, n, merged(spans));
    lemma_outside_by_coverage(text, merged(spans), spans);
    assert(text.take(n) =~= text);
    assert(text.skip(n) =~= Seq::empty());
    assert(Seq::<char>::empty().filter(ordinary()) =~= Seq::empty()) by {
        reveal(Seq::filter);
    }
    assert(outside(text, spans).filter(ordinary()) + Seq::<char>::empty() =~= outside(
        text,
        spans,
    ).filter(ordinary()));
}

/// A text that stands behind what is left to be worked on stays.
proof fn lemma_tail_stays(
    text: Seq<char>,
    now: Seq<char>,
    p: int,
    spans: Seq<Span>,
    part: Seq<char>,
    x: int,
)
    requires
        untouched(text, now, p, spans),
        p <= x,
        occurs_at(now, part, x),
        part.len() > 0,
        !joint()(part[0]),
    ensures
        contains_text(without_spans(now, spans), part),
    decreases spans.len(),
{
    if spans.len() == 0 {
        assert(without_spans(now, spans) == now);
    } else {
        let last = spans.last();
        let e = last.end as int;
        assert(spans[spans.len() - 1] == last);
        let (kept, middle, q) = lemma_step_untouched(text, now, p, spans);
        let next = without_span(now, last);
        let right = now.skip(e);
        assert(right[x - e] == now.subrange(x, x + part.len())[0]);
        assert(x - e >= q);
        let y = kept + middle.len() + (x - e - q);
        assert(next.subrange(y, y + part.len()) =~= now.subrange(x, x + part.len()));
        lemma_tail_stays(text, next, kept, spans.drop_last(), part, y);
    }
}

/// A stretch before what is left to be worked on stays where no span touches it.
proof fn lemma_stretch_stays(
    text: Seq<char>,
    now: Seq<char>,
    p: int,
    spans: Seq<Span>,
    a: int,
    b: int,
)
    requires
        untouched(text, now, p, spans),
        0 <= a < b <= p,
        !joint()(text[a]),
        !joint()(text[b - 1]),
        forall|i: int|
            0 <= i < spans.len() ==> (#[trigger] spans[i]).end <= a || b <= spans[i].start,
    ensures
        contains_text(without_spans(now, spans), text.subrange(a, b)),
    decreases spans.len(),
{
    let part = text.subrange(a, b);
    assert(now.subrange(a, b) =~= part) by {
        assert(now.take(p).subrange(a, b) =~= now.subrange(a, b));
        assert(text.take(p).subrange(a, b) =~= part);
    }
    if spans.len() == 0 {
        assert(without_spans(now, spans) == now);
        assert(occurs_at(now, part, a));
    } else {
        let last = spans.last();
        let rest = spans.drop_last();
        let (s, e) = (last.start as int, last.end as int);
        assert(spans[spans.len() - 1] == last);
        let (kept, middle, q) = lemma_step_untouched(text, now, p, spans);
        let next = without_span(now, last);
        if b <= s {
            assert(text.take(s)[b - 1] == text[b - 1]);
            assert(b <= kept);
            assert forall|i: int| 0 <= i < rest.len() implies (#[trigger] rest[i]).end <= a || b
                <= rest[i].start by {
                assert(rest[i] == spans[i]);
            }
            lemma_stretch_stays(text, next, kept, rest, a, b);
        } else {
            let right = now.skip(e);
            assert(right[a - e] == now.subrange(a, b)[0]);
            assert(a - e >= q);
            let y = kept + middle.len() + (a - e - q);
            assert(next.subrange(y, y + part.len()) =~= now.subrange(a, b));
            lemma_tail_stays(text, next, kept, rest, part, y);
        }
    }
}

/// A stretch of the text that no span covers or touches is copied as it stands, with
/// the punctuation and spacing inside it, if it starts and ends with a character that
/// is neither a blank nor soft punctuation.
pub proof fn untouched_stretch_is_copied(text: Seq<char>, spans: Seq<Span>, a: int, b: int)
    requires
        all_within(spans, text.len()),
        anchored(text, spans),
        0 <= a < b <= text.len(),
        !joint()(text[a]),
        !joint()(text[b - 1]),
        forall|x: int| 2 * a < x < 2 * b ==> !#[trigger] covered(spans, x),
    ensures
        contains_text(without_spans(text, merged(spans)), text.subrange(a, b)),
{
    lemma_merged_untouched(text, spans);
    merged_is_a_merge(spans);
    let m = merged(spans);
    assert forall|i: int| 0 <= i < m.len() implies (#[trigger] m[i]).end <= a || b <= m[i].start by {
        if m[i].end > a && m[i].start < b {
            let x = if m[i].start > a {
                2 * m[i].start
            } else {
                2 * a + 1
            };
            assert(m[i].start <= m[i].end);
            assert(2 * m[i].start <= x && x <= 2 * m[i].end);
            assert(covered(m, x));
            assert(covered(spans, x));
        }
    }
    lemma_stretch_stays(text, text, text.len() as int, m, a, b);
}

} // verus!
