//! Merging of overlapping and touching spans.
use super::patterns::{all_within, Span};
use vstd::prelude::*;

verus! {

/// The half-step position `x` lies in one of the spans or at the edge of one. Even
/// positions stand between characters, odd ones on a character.
pub open spec fn covered(spans: Seq<Span>, x: int) -> bool {
    exists|i: int|
        0 <= i < spans.len() && 2 * (#[trigger] spans[i]).start <= x && x <= 2 * spans[i].end
}

/// No span ends before it starts.
pub open spec fn ordered(spans: Seq<Span>) -> bool {
    forall|i: int| 0 <= i < spans.len() ==> (#[trigger] spans[i]).start <= spans[i].end
}

/// Each span ends before the next one starts, with something between them.
pub open spec fn separated(spans: Seq<Span>) -> bool {
    forall|i: int, j: int|
        0 <= i < j < spans.len() ==> (#[trigger] spans[i]).end < (#[trigger] spans[j]).start
}

/// `merge` is `spans` with overlapping and touching spans joined: it covers the same
/// positions with spans that are apart from each other.
pub open spec fn is_merge(merge: Seq<Span>, spans: Seq<Span>) -> bool {
    &&& ordered(merge)
    &&& separated(merge)
    &&& forall|x: int| #[trigger] covered(merge, x) == covered(spans, x)
}

/// The spans with overlapping and touching ones joined, from left to right.
pub open spec fn merged(spans: Seq<Span>) -> Seq<Span> {
    choose|merge: Seq<Span>| is_merge(merge, spans)
}

/// There is only one way to join the spans of a list.
pub proof fn merge_is_unique(a: Seq<Span>, b: Seq<Span>, spans: Seq<Span>)
    requires
        is_merge(a, spans),
        is_merge(b, spans),
    ensures
        a == b,
{
    lemma_prefixes_agree(a, b, spans, a.len() as int);
    lemma_prefixes_agree(b, a, spans, b.len() as int);
    assert(a =~= b);
}

/// The first `n` spans of one merge are the first spans of any other.
proof fn lemma_prefixes_agree(a: Seq<Span>, b: Seq<Span>, spans: Seq<Span>, n: int)
    requires
        is_merge(a, spans),
        is_merge(b, spans),
        0 <= n <= a.len(),
    ensures
        n <= b.len(),
        forall|i: int| 0 <= i < n ==> a[i] == b[i],
    decreases n,
{
    if n > 0 {
        lemma_prefixes_agree(a, b, spans, n - 1);
        let s = a[n - 1];
        assert(2 * s.start <= 2 * s.start && 2 * s.start <= 2 * s.end);
        assert(covered(a, 2 * s.start));
        assert(covered(b, 2 * s.start));
        let k = choose|k: int|
            0 <= k < b.len() && 2 * (#[trigger] b[k]).start <= 2 * s.start && 2 * s.start <= 2
                * b[k].end;
        if k < n - 1 {
            assert(a[k] == b[k]);
            assert(a[k].end < a[n - 1].start);
        }
        let t = b[n - 1];
        if n - 1 < k {
            assert(b[n - 1].end < b[k].start);
        }
        assert(t.start <= s.start);
        assert(covered(b, 2 * t.start));
        assert(covered(a, 2 * t.start));
        let j = choose|j: int|
            0 <= j < a.len() && 2 * (#[trigger] a[j]).start <= 2 * t.start && 2 * t.start <= 2
                * a[j].end;
        if j < n - 1 {
            assert(a[j] == b[j]);
            assert(b[j].end < b[n - 1].start);
        }
        if j > n - 1 {
            assert(a[n - 1].end < a[j].start);
        }
        assert(s.start <= t.start);
        // Neither may end before the other.
        if s.end < t.end {
            assert(covered(b, 2 * s.end + 1));
            assert(covered(a, 2 * s.end + 1));
            let l = choose|l: int|
                0 <= l < a.len() && 2 * (#[trigger] a[l]).start <= 2 * s.end + 1 && 2 * s.end + 1
                    <= 2 * a[l].end;
            if l < n - 1 {
                assert(a[l].end < a[n - 1].start);
            } else if l > n - 1 {
                assert(a[n - 1].end < a[l].start);
            }
        }
        if t.end < s.end {
            assert(covered(a, 2 * t.end + 1));
            assert(covered(b, 2 * t.end + 1));
            let l = choose|l: int|
                0 <= l < b.len() && 2 * (#[trigger] b[l]).start <= 2 * t.end + 1 && 2 * t.end + 1
                    <= 2 * b[l].end;
            if l < n - 1 {
                assert(b[l].end < b[n - 1].start);
            } else if l > n - 1 {
                assert(b[n - 1].end < b[l].start);
            }
        }
    }
}

/// The first position from `i` on whose span does not end before `start`.
spec fn first_reaching(spans: Seq<Span>, i: int, start: int) -> int
    decreases spans.len() - i,
{
    if 0 <= i < spans.len() && spans[i].end < start {
        first_reaching(spans, i + 1, start)
    } else {
        i
    }
}

/// The first position from `i` on whose span starts after `end`.
spec fn first_after(spans: Seq<Span>, i: int, end: int) -> int
    decreases spans.len() - i,
{
    if 0 <= i < spans.len() && spans[i].start <= end {
        first_after(spans, i + 1, end)
    } else {
        i
    }
}

/// All before [`first_reaching`] end before `start`.
proof fn lemma_first_reaching(spans: Seq<Span>, i: int, start: int)
    requires
        0 <= i <= spans.len(),
    ensures
        i <= first_reaching(spans, i, start) <= spans.len(),
        forall|k: int| i <= k < first_reaching(spans, i, start) ==> (#[trigger] spans[k]).end < start,
        first_reaching(spans, i, start) < spans.len() ==> spans[first_reaching(
            spans,
            i,
            start,
        )].end >= start,
    decreases spans.len() - i,
{
    if i < spans.len() && spans[i].end < start {
        lemma_first_reaching(spans, i + 1, start);
    }
}

/// All before [`first_after`] start at `end` or before it.
proof fn lemma_first_after(spans: Seq<Span>, i: int, end: int)
    requires
        0 <= i <= spans.len(),
    ensures
        i <= first_after(spans, i, end) <= spans.len(),
        forall|k: int| i <= k < first_after(spans, i, end) ==> (#[trigger] spans[k]).start <= end,
        first_after(spans, i, end) < spans.len() ==> spans[first_after(spans, i, end)].start > end,
    decreases spans.len() - i,
{
    if i < spans.len() && spans[i].start <= end {
        lemma_first_after(spans, i + 1, end);
    }
}

/// One more span can be joined to spans that are apart from each other.
proof fn lemma_merge_one(merge: Seq<Span>, spans: Seq<Span>, span: Span) -> (r: Seq<Span>)
    requires
        is_merge(merge, spans),
        span.start <= span.end,
    ensures
        is_merge(r, spans.push(span)),
{
    let a = first_reaching(merge, 0, span.start as int);
    let b = first_after(merge, a, span.end as int);
    lemma_first_reaching(merge, 0, span.start as int);
    lemma_first_after(merge, a, span.end as int);
    let start = if a < b && merge[a].start < span.start {
        merge[a].start
    } else {
        span.start
    };
    let end = if a < b && span.end < merge[b - 1].end {
        merge[b - 1].end
    } else {
        span.end
    };
    let hull = Span { start, end };
    let r = merge.take(a).push(hull) + merge.skip(b);
    assert forall|i: int| 0 <= i < r.len() implies (#[trigger] r[i]).start <= r[i].end by {
        if i < a {
            assert(r[i] == merge[i]);
        } else if i > a {
            assert(r[i] == merge[i - a - 1 + b]);
        }
    }
    assert forall|i: int, j: int| 0 <= i < j < r.len() implies (#[trigger] r[i]).end < (
    #[trigger] r[j]).start by {
        if a < b {
            assert(merge[a].start <= merge[a].end);
            if a < b - 1 {
                assert(merge[a].end < merge[b - 1].start);
            }
        }
        if i < a {
            assert(r[i] == merge[i]);
            if j == a {
                if a < b {
                    assert(merge[i].end < merge[a].start);
                }
            } else if j < a {
                assert(r[j] == merge[j]);
            } else {
                assert(r[j] == merge[j - a - 1 + b]);
            }
        } else {
            assert(r[j] == merge[j - a - 1 + b]);
            if i == a {
                if j - a - 1 > 0 {
                    assert(merge[b].end < merge[j - a - 1 + b].start);
                    assert(merge[b].start <= merge[b].end);
                }
                if a < b {
                    assert(merge[b - 1].end < merge[j - a - 1 + b].start);
                }
            } else {
                assert(r[i] == merge[i - a - 1 + b]);
            }
        }
    }
    assert forall|x: int| #[trigger] covered(r, x) == covered(spans.push(span), x) by {
        assert(covered(merge, x) == covered(spans, x));
        assert(spans.push(span) =~= spans.insert(spans.len() as int, span));
        lemma_covered_insert(spans, spans.len() as int, span, x);
        if covered(r, x) {
            let k = choose|k: int|
                0 <= k < r.len() && 2 * (#[trigger] r[k]).start <= x && x <= 2 * r[k].end;
            if k < a {
                assert(r[k] == merge[k]);
            } else if k > a {
                assert(r[k] == merge[k - a - 1 + b]);
            } else if a < b {
                if x < 2 * span.start {
                    assert(merge[a].end >= span.start);
                    assert(2 * merge[a].start <= x && x <= 2 * merge[a].end);
                } else if x > 2 * span.end {
                    assert(2 * merge[b - 1].start <= x && x <= 2 * merge[b - 1].end);
                }
            }
        }
        if covered(merge, x) {
            let k = choose|k: int|
                0 <= k < merge.len() && 2 * (#[trigger] merge[k]).start <= x && x <= 2
                    * merge[k].end;
            if k < a {
                assert(r[k] == merge[k]);
            } else if k >= b {
                assert(r[k - b + a + 1] == merge[k]);
            } else {
                if a < k {
                    assert(merge[a].end < merge[k].start);
                    assert(merge[a].start <= merge[a].end);
                }
                if k < b - 1 {
                    assert(merge[k].end < merge[b - 1].start);
                    assert(merge[b - 1].start <= merge[b - 1].end);
                }
                assert(r[a] == hull);
            }
        }
        if 2 * span.start <= x && x <= 2 * span.end {
            assert(r[a] == hull);
        }
    }
    r
}

/// Every list of spans can be joined, and [`merged`] is the way to do it. A span that
/// ends before it starts covers nothing.
pub proof fn merged_is_a_merge(spans: Seq<Span>)
    ensures
        is_merge(merged(spans), spans),
    decreases spans.len(),
{
    if spans.len() == 0 {
        assert(is_merge(spans, spans));
    } else {
        let rest = spans.drop_last();
        merged_is_a_merge(rest);
        let last = spans.last();
        assert(rest.push(last) =~= spans);
        if last.start <= last.end {
            let r = lemma_merge_one(merged(rest), rest, last);
            assert(is_merge(r, spans));
        } else {
            assert forall|x: int| #[trigger] covered(merged(rest), x) == covered(spans, x) by {
                assert(covered(merged(rest), x) == covered(rest, x));
                assert(rest.insert(rest.len() as int, last) =~= spans);
                lemma_covered_insert(rest, rest.len() as int, last, x);
            }
            assert(is_merge(merged(rest), spans));
        }
    }
}

/// The join of spans that cover the same positions is the same, whatever their order
/// and number.
pub proof fn merged_goes_by_coverage(a: Seq<Span>, b: Seq<Span>)
    requires
        forall|x: int| #[trigger] covered(a, x) == covered(b, x),
    ensures
        merged(a) == merged(b),
{
    merged_is_a_merge(a);
    merged_is_a_merge(b);
    assert forall|x: int| #[trigger] covered(merged(a), x) == covered(b, x) by {
        assert(covered(a, x) == covered(b, x));
    }
    merge_is_unique(merged(a), merged(b), b);
}

/// Each joined span ends where one of the spans ends.
pub proof fn merged_ends_are_ends(spans: Seq<Span>, i: int) -> (j: int)
    requires
        0 <= i < merged(spans).len(),
    ensures
        0 <= j < spans.len(),
        merged(spans)[i].end == spans[j].end,
{
    merged_is_a_merge(spans);
    let m = merged(spans);
    let end = m[i].end as int;
    assert(m[i].start <= m[i].end);
    assert(covered(m, 2 * end));
    assert(covered(spans, 2 * end));
    let j = choose|j: int|
        0 <= j < spans.len() && 2 * (#[trigger] spans[j]).start <= 2 * end && 2 * end <= 2
            * spans[j].end;
    if spans[j].end > end {
        assert(covered(spans, 2 * end + 1));
        assert(covered(m, 2 * end + 1));
        let k = choose|k: int|
            0 <= k < m.len() && 2 * (#[trigger] m[k]).start <= 2 * end + 1 && 2 * end + 1 <= 2
                * m[k].end;
        if k < i {
            assert(m[k].end < m[i].start);
        } else if i < k {
            assert(m[i].end < m[k].start);
        }
    }
    j
}

/// The join that was found is the one that [`merged`] denotes.
proof fn lemma_merged_is(merge: Seq<Span>, spans: Seq<Span>)
    requires
        is_merge(merge, spans),
    ensures
        merged(spans) == merge,
{
    merge_is_unique(merged(spans), merge, spans);
}

/// The span with its ends moved by `f`.
pub open spec fn moved(span: Span, f: spec_fn(int) -> int) -> Span {
    Span { start: f(span.start as int) as usize, end: f(span.end as int) as usize }
}

/// `f` keeps the order of the positions up to `n`, and gives positions.
pub open spec fn keeps_order(f: spec_fn(int) -> int, n: int) -> bool {
    &&& forall|a: int, b: int| 0 <= a < b <= n ==> #[trigger] f(a) < #[trigger] f(b)
    &&& forall|a: int| 0 <= a <= n ==> 0 <= #[trigger] f(a) <= usize::MAX
}

/// What moved spans cover, spans cover that covered the same before they were moved.
proof fn lemma_moved_cover(
    a: Seq<Span>,
    b: Seq<Span>,
    f: spec_fn(int) -> int,
    n: int,
    x: int,
)
    requires
        keeps_order(f, n),
        all_within(a, n as nat),
        all_within(b, n as nat),
        n >= 0,
        forall|y: int| #[trigger] covered(a, y) ==> covered(b, y),
        covered(a.map_values(|s: Span| moved(s, f)), x),
    ensures
        covered(b.map_values(|s: Span| moved(s, f)), x),
{
    let fa = a.map_values(|s: Span| moved(s, f));
    let fb = b.map_values(|s: Span| moved(s, f));
    let i = choose|i: int|
        0 <= i < fa.len() && 2 * (#[trigger] fa[i]).start <= x && x <= 2 * fa[i].end;
    assert(fa[i] == moved(a[i], f));
    assert(a[i].within(n as nat));
    let k = lemma_step_below(f, n, a[i].start as int, a[i].end as int, x);
    let y = if 2 * f(k) == x {
        2 * k
    } else {
        2 * k + 1
    };
    assert(2 * a[i].start <= y && y <= 2 * a[i].end);
    assert(covered(a, y));
    assert(covered(b, y));
    let j = choose|j: int|
        0 <= j < b.len() && 2 * (#[trigger] b[j]).start <= y && y <= 2 * b[j].end;
    assert(fb[j] == moved(b[j], f));
    assert(b[j].within(n as nat));
    assert(f(b[j].start as int) <= f(k));
    if y == 2 * k {
        assert(f(k) <= f(b[j].end as int));
    } else {
        assert(f(k + 1) <= f(b[j].end as int));
    }
    assert(2 * fb[j].start <= x && x <= 2 * fb[j].end);
}

/// The last position whose image does not pass the half-step position `x`.
proof fn lemma_step_below(f: spec_fn(int) -> int, n: int, start: int, end: int, x: int) -> (k: int)
    requires
        keeps_order(f, n),
        0 <= start <= end <= n,
        2 * f(start) <= x <= 2 * f(end),
    ensures
        start <= k <= end,
        2 * f(k) <= x,
        2 * f(k) < x ==> k < end && x < 2 * f(k + 1),
    decreases end - start,
{
    if start == end || x < 2 * f(start + 1) {
        start
    } else {
        lemma_step_below(f, n, start + 1, end, x)
    }
}

/// Moving spans without changing the order of positions, and joining them, can be
/// done in either order.
pub proof fn merged_after_moving(spans: Seq<Span>, f: spec_fn(int) -> int, n: int)
    requires
        keeps_order(f, n),
        all_within(spans, n as nat),
        n >= 0,
    ensures
        merged(spans.map_values(|s: Span| moved(s, f))) == merged(spans).map_values(
            |s: Span| moved(s, f),
        ),
{
    merged_is_a_merge(spans);
    let m = merged(spans);
    let fm = m.map_values(|s: Span| moved(s, f));
    let fs = spans.map_values(|s: Span| moved(s, f));
    assert forall|i: int| 0 <= i < m.len() implies (#[trigger] m[i]).within(n as nat) by {
        let j = merged_ends_are_ends(spans, i);
        assert(spans[j].within(n as nat));
        assert(m[i].start <= m[i].end);
    }
    assert forall|i: int| 0 <= i < fm.len() implies (#[trigger] fm[i]).start <= fm[i].end by {
        assert(m[i].within(n as nat));
        assert(f(m[i].start as int) <= f(m[i].end as int));
    }
    assert forall|i: int, j: int| 0 <= i < j < fm.len() implies (#[trigger] fm[i]).end < (
    #[trigger] fm[j]).start by {
        assert(m[i].within(n as nat) && m[j].within(n as nat));
        assert(m[i].end < m[j].start);
        assert(f(m[i].end as int) < f(m[j].start as int));
    }
    assert forall|x: int| #[trigger] covered(fm, x) == covered(fs, x) by {
        if covered(fm, x) {
            lemma_moved_cover(m, spans, f, n, x);
        }
        if covered(fs, x) {
            lemma_moved_cover(spans, m, f, n, x);
        }
    }
    lemma_merged_is(fm, fs);
}

/// Spans in the order of their starts.
pub open spec fn sorted_by_start(spans: Seq<Span>) -> bool {
    forall|i: int, j: int|
        0 <= i < j < spans.len() ==> (#[trigger] spans[i]).start <= (#[trigger] spans[j]).start
}

/// Inserting a span adds the positions that it covers.
proof fn lemma_covered_insert(spans: Seq<Span>, at: int, span: Span, x: int)
    requires
        0 <= at <= spans.len(),
    ensures
        covered(spans.insert(at, span), x) == (covered(spans, x) || (2 * span.start <= x && x <= 2
            * span.end)),
{
    let more = spans.insert(at, span);
    if covered(more, x) {
        let k = choose|k: int|
            0 <= k < more.len() && 2 * (#[trigger] more[k]).start <= x && x <= 2 * more[k].end;
        if k < at {
            assert(spans[k] == more[k]);
        } else if k > at {
            assert(spans[k - 1] == more[k]);
        }
    }
    if covered(spans, x) {
        let k = choose|k: int|
            0 <= k < spans.len() && 2 * (#[trigger] spans[k]).start <= x && x <= 2 * spans[k].end;
        if k < at {
            assert(more[k] == spans[k]);
        } else {
            assert(more[k + 1] == spans[k]);
        }
    }
    if 2 * span.start <= x && x <= 2 * span.end {
        assert(more[at] == span);
    }
}

/// Puts spans in the order of their starts.
fn sort_spans(spans: &Vec<Span>) -> (r: Vec<Span>)
    ensures
        sorted_by_start(r@),
        forall|x: int| #[trigger] covered(r@, x) == covered(spans@, x),
{
    let mut sorted: Vec<Span> = Vec::new();
    let mut i: usize = 0;
    while i < spans.len()
        invariant
            i <= spans@.len(),
            sorted@.len() == i,
            sorted_by_start(sorted@),
            forall|x: int| #[trigger] covered(sorted@, x) == covered(spans@.take(i as int), x),
        decreases spans@.len() - i,
    {
        let span: Span = spans[i];
        let mut at: usize = i;
        while at > 0 && sorted[at - 1].start > span.start
            invariant
                at <= sorted@.len(),
                sorted_by_start(sorted@),
                forall|k: int| at <= k < sorted@.len() ==> (#[trigger] sorted@[k]).start > span.start,
            decreases at,
        {
            at = at - 1;
        }
        let ghost before = sorted@;
        sorted.insert(at, span);
        proof {
            assert forall|j: int, k: int| 0 <= j < k < sorted@.len() implies (
            #[trigger] sorted@[j]).start <= (#[trigger] sorted@[k]).start by {
                let old_j = if j < at {
                    j
                } else {
                    j - 1
                };
                let old_k = if k < at {
                    k
                } else {
                    k - 1
                };
                if j != at && k != at {
                    assert(before[old_j].start <= before[old_k].start);
                } else if j == at {
                    assert(before[old_k].start > span.start);
                } else {
                    assert(before[j].start <= before[at - 1].start);
                }
            }
            let done = spans@.take(i as int);
            assert(spans@.take(i + 1) =~= done.insert(i as int, span));
            assert forall|x: int| #[trigger]
                covered(sorted@, x) == covered(spans@.take(i + 1), x) by {
                assert(covered(before, x) == covered(done, x));
                lemma_covered_insert(before, at as int, span, x);
                lemma_covered_insert(done, i as int, span, x);
            }
        }
        i = i + 1;
    }
    assert(spans@.take(spans@.len() as int) =~= spans@);
    sorted
}

/// Joins overlapping and touching spans, whatever order they come in. A span that
/// ends before it starts covers nothing.
pub fn merge_spans(spans: &Vec<Span>) -> (r: Vec<Span>)
    ensures
        r@ == merged(spans@),
        is_merge(r@, spans@),
{
    let sorted: Vec<Span> = sort_spans(spans);
    let mut merge: Vec<Span> = Vec::new();
    let mut i: usize = 0;
    while i < sorted.len()
        invariant
            sorted_by_start(sorted@),
            i <= sorted@.len(),
            ordered(merge@),
            separated(merge@),
            forall|k: int, j: int|
                0 <= k < merge@.len() && i <= j < sorted@.len() ==> (#[trigger] merge@[k]).start
                    <= (#[trigger] sorted@[j]).start,
            forall|x: int| #[trigger] covered(merge@, x) == covered(sorted@.take(i as int), x),
        decreases sorted@.len() - i,
    {
        let span: Span = sorted[i];
        let ghost before = merge@;
        let ghost done = sorted@.take(i as int);
        assert(sorted@.take(i + 1) =~= done.insert(i as int, span));
        if span.end < span.start {
            assert forall|x: int| #[trigger]
                covered(merge@, x) == covered(sorted@.take(i + 1), x) by {
                assert(covered(before, x) == covered(done, x));
                lemma_covered_insert(done, i as int, span, x);
            }
        } else if merge.len() > 0 && span.start <= merge[merge.len() - 1].end {
            let last: usize = merge.len() - 1;
            let previous: Span = merge[last];
            if previous.end < span.end {
                merge.set(last, Span { start: previous.start, end: span.end });
            }
            proof {
                assert(before[last as int].start <= sorted@[i as int].start);
                assert(merge@ =~= before.drop_last().push(merge@[last as int]));
                assert forall|x: int| #[trigger]
                    covered(merge@, x) == covered(sorted@.take(i + 1), x) by {
                    let rest = before.drop_last();
                    assert(covered(before, x) == covered(done, x));
                    assert(before =~= rest.insert(rest.len() as int, previous));
                    assert(merge@ =~= rest.insert(rest.len() as int, merge@[last as int]));
                    lemma_covered_insert(rest, rest.len() as int, previous, x);
                    lemma_covered_insert(rest, rest.len() as int, merge@[last as int], x);
                    lemma_covered_insert(done, i as int, span, x);
                }
            }
        } else {
            merge.push(span);
            proof {
                assert forall|j: int, k: int| 0 <= j < k < merge@.len() implies (
                #[trigger] merge@[j]).end < (#[trigger] merge@[k]).start by {
                    if k == before.len() {
                        let last = before.len() - 1;
                        if j < last {
                            assert(before[j].end < before[last].start);
                        }
                        assert(before[last].start <= before[last].end);
                    } else {
                        assert(before[j].end < before[k].start);
                    }
                }
                assert forall|x: int| #[trigger]
                    covered(merge@, x) == covered(sorted@.take(i + 1), x) by {
                    assert(covered(before, x) == covered(done, x));
                    assert(merge@ =~= before.insert(before.len() as int, span));
                    lemma_covered_insert(before, before.len() as int, span, x);
                    lemma_covered_insert(done, i as int, span, x);
                }
            }
        }
        i = i + 1;
    }
    proof {
        assert(sorted@.take(sorted@.len() as int) =~= sorted@);
        assert forall|x: int| #[trigger] covered(merge@, x) == covered(spans@, x) by {
            assert(covered(sorted@, x) == covered(spans@, x));
        }
        lemma_merged_is(merge@, spans@);
    }
    merge
}

} // verus!
