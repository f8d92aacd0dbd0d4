//! What holds of the text around a removal.
use super::boundary::{
    blank, blanks_off_end, joint, line_end, off_start, rejoined, sentence_end, soft, soft_off_end,
    without_range, without_ranges,
};
use super::patterns::{boundary_offset_is_exact, chars_before, chars_before_keeps_order, Span};
use super::strings::{back_while, back_while_is_a_run, skip_while, skip_while_is_a_run};
use super::unicode::lowercase;
use vstd::prelude::*;
use vstd::utf8::{encode_utf8, is_char_boundary};

verus! {

/// A space or a tab.
pub open spec fn is_blank(c: char) -> bool {
    c == ' ' || c == '\t'
}

/// A comma, semicolon or colon, narrow or wide.
pub open spec fn is_soft(c: char) -> bool {
    c == ',' || c == '，' || c == ';' || c == '；' || c == ':' || c == '：'
}

/// A full stop, exclamation mark or question mark, narrow or wide.
pub open spec fn is_stop(c: char) -> bool {
    c == '.' || c == '!' || c == '?' || c == '。' || c == '！' || c == '？'
}

/// The end of a line.
pub open spec fn is_line_end(c: char) -> bool {
    c == '\r' || c == '\n'
}

/// All of `s` are blanks.
pub open spec fn all_blank(s: Seq<char>) -> bool {
    forall|i: int| 0 <= i < s.len() ==> is_blank(#[trigger] s[i])
}

/// All of `s` are blanks and soft punctuation.
pub open spec fn all_joint(s: Seq<char>) -> bool {
    forall|i: int| 0 <= i < s.len() ==> is_blank(#[trigger] s[i]) || is_soft(s[i])
}

/// One of `s` is soft punctuation.
pub open spec fn some_soft(s: Seq<char>) -> bool {
    exists|i: int| 0 <= i < s.len() && is_soft(#[trigger] s[i])
}

/// `left` is `l` and blanks behind it; `right` is `r` and blanks and soft punctuation
/// before it; and `l` and `r` cannot be shorter.
pub open spec fn sides(
    left: Seq<char>,
    right: Seq<char>,
    l: Seq<char>,
    bl: Seq<char>,
    br: Seq<char>,
    r: Seq<char>,
) -> bool {
    &&& left == l + bl
    &&& right == br + r
    &&& all_blank(bl)
    &&& all_joint(br)
    &&& l.len() > 0 ==> !is_blank(l.last())
    &&& r.len() > 0 ==> !is_blank(r[0]) && !is_soft(r[0])
}

/// One space where the sides were apart, unless a sentence or a line ends there.
pub open spec fn spacing(apart: bool, head: Seq<char>, r: Seq<char>) -> Seq<char> {
    if apart && !is_stop(r[0]) && !is_line_end(r[0]) && (head.len() == 0 || !is_line_end(
        head.last(),
    )) {
        seq![' ']
    } else {
        Seq::empty()
    }
}

/// Taking the blanks off the end of a text that ends in just those.
proof fn lemma_blanks_off(l: Seq<char>, bl: Seq<char>)
    requires
        all_blank(bl),
        l.len() > 0 ==> !is_blank(l.last()),
    ensures
        blanks_off_end(l + bl) == l,
{
    let s = l + bl;
    let n = s.len() as int;
    let e = back_while(s, n, blank());
    back_while_is_a_run(s, n, blank());
    if e > l.len() {
        assert(s[e - 1] == bl[e - 1 - l.len()]);
    }
    if e < l.len() {
        assert(blank()(s[l.len() - 1]));
    }
    assert(s.take(l.len() as int) =~= l);
}

/// Taking blanks and soft punctuation off the start of a text that starts with just
/// those.
proof fn lemma_joints_off(br: Seq<char>, r: Seq<char>)
    requires
        all_joint(br),
        r.len() > 0 ==> !is_blank(r[0]) && !is_soft(r[0]),
    ensures
        off_start(br + r, joint()) == r,
        off_start(br + r, blank()).len() == (br + r).len() <==> br.len() == 0 || !is_blank(br[0]),
        (off_start(br + r, blank()).len() > 0 && soft(off_start(br + r, blank())[0]))
            == some_soft(br),
{
    let s = br + r;
    let e = skip_while(s, 0, joint());
    skip_while_is_a_run(s, 0, joint());
    if e < br.len() {
        assert(s[e] == br[e]);
    }
    if e > br.len() {
        assert(s[br.len() as int] == r[0]);
        assert(joint()(s[br.len() as int]));
    }
    assert(s.skip(br.len() as int) =~= r);
    let f = skip_while(s, 0, blank());
    skip_while_is_a_run(s, 0, blank());
    if br.len() > 0 {
        assert(s[0] == br[0]);
        if is_blank(br[0]) {
            assert(skip_while(s, 0, blank()) == skip_while(s, 1, blank()));
            skip_while_is_a_run(s, 1, blank());
        }
    }
    if f > br.len() {
        assert(blank()(s[br.len() as int]));
        assert(s[br.len() as int] == r[0]);
    }
    if f < br.len() {
        assert(s[f] == br[f]);
        assert(is_soft(br[f]));
        assert(off_start(s, blank())[0] == s[f]);
    } else {
        assert forall|i: int| 0 <= i < br.len() implies !is_soft(#[trigger] br[i]) by {
            assert(blank()(s[i]));
            assert(s[i] == br[i]);
        }
        if f < s.len() {
            assert(off_start(s, blank())[0] == s[f]);
            assert(s[f] == r[0]);
        }
    }
}

/// Taking a soft mark and the blanks before it off the end of a text.
proof fn lemma_soft_off(h: Seq<char>, m: Seq<char>, s: char)
    requires
        all_blank(m),
        h.len() > 0 ==> !is_blank(h.last()),
        is_soft(s),
    ensures
        soft_off_end(h + m + seq![s]) == h,
{
    let l = h + m + seq![s];
    assert(l.last() == s);
    assert(l.drop_last() =~= h + m);
    lemma_blanks_off(h, m);
}

/// At the start of a text, nothing is left of what stood before the removal but the
/// text behind it.
pub proof fn removal_at_the_start(
    left: Seq<char>,
    right: Seq<char>,
    bl: Seq<char>,
    br: Seq<char>,
    r: Seq<char>,
)
    requires
        sides(left, right, Seq::empty(), bl, br, r),
    ensures
        rejoined(left, right) == r,
{
    lemma_blanks_off(Seq::empty(), bl);
    lemma_joints_off(br, r);
}

/// A removal between words leaves both sides as they are, with one space between them
/// where they were apart, but none before the end of a sentence or at a line end.
pub proof fn removal_between_words(
    left: Seq<char>,
    right: Seq<char>,
    l: Seq<char>,
    bl: Seq<char>,
    br: Seq<char>,
    r: Seq<char>,
)
    requires
        sides(left, right, l, bl, br, r),
        l.len() > 0,
        !is_soft(l.last()),
    ensures
        r.len() == 0 ==> rejoined(left, right) == l,
        r.len() > 0 ==> rejoined(left, right) == l + spacing(bl.len() > 0 || br.len() > 0, l, r)
            + r,
{
    lemma_blanks_off(l, bl);
    lemma_joints_off(br, r);
    lemma_apart(br);
    assert(soft_off_end(l) == l);
    if r.len() > 0 {
        assert(rejoined(left, right) =~= l + spacing(bl.len() > 0 || br.len() > 0, l, r) + r);
    }
}

/// What is not empty starts with a blank or holds soft punctuation.
proof fn lemma_apart(br: Seq<char>)
    requires
        all_joint(br),
    ensures
        br.len() > 0 <==> (br.len() > 0 && is_blank(br[0])) || some_soft(br),
{
    if br.len() > 0 && !is_blank(br[0]) {
        assert(is_soft(br[0]));
    }
}

/// A removal behind a comma or its like drops that mark where nothing follows, where
/// the sentence ends, and where another such mark stood behind the removal and a small
/// letter goes on; in all other cases the mark stays.
pub proof fn removal_behind_a_comma(
    left: Seq<char>,
    right: Seq<char>,
    h: Seq<char>,
    m: Seq<char>,
    s: char,
    bl: Seq<char>,
    br: Seq<char>,
    r: Seq<char>,
)
    requires
        sides(left, right, h + m + seq![s], bl, br, r),
        all_blank(m),
        is_soft(s),
        h.len() > 0 ==> !is_blank(h.last()),
        r.len() > 0 && is_stop(r[0]) ==> !lowercase(r[0]),
    ensures
        r.len() == 0 ==> rejoined(left, right) == h,
        r.len() > 0 ==> rejoined(left, right) == ({
            let apart = bl.len() > 0 || br.len() > 0;
            let head = if is_stop(r[0]) || (some_soft(br) && lowercase(r[0])) {
                h
            } else {
                h + m + seq![s]
            };
            head + spacing(apart, head, r) + r
        }),
{
    let l = h + m + seq![s];
    lemma_blanks_off(l, bl);
    lemma_joints_off(br, r);
    lemma_apart(br);
    lemma_soft_off(h, m, s);
    assert(l.last() == s);
    if r.len() > 0 {
        let apart = bl.len() > 0 || br.len() > 0;
        let head = if is_stop(r[0]) || (some_soft(br) && lowercase(r[0])) {
            h
        } else {
            l
        };
        assert(rejoined(left, right) =~= head + spacing(apart, head, r) + r);
    }
}

/// A range is cut out by its bytes: what stands before as many bytes as its start says
/// and what stands behind as many as its end says come together, and nothing between
/// them is left.
pub proof fn range_is_cut_out_by_bytes(text: Seq<char>, range: Span) -> (r: (
    Seq<char>,
    Seq<char>,
    Seq<char>,
))
    requires
        range.start <= range.end,
        is_char_boundary(encode_utf8(text), range.start as int),
        is_char_boundary(encode_utf8(text), range.end as int),
    ensures
        text == r.0 + r.1 + r.2,
        encode_utf8(r.0).len() == range.start,
        encode_utf8(r.0 + r.1).len() == range.end,
        without_range(text, range) == rejoined(r.0, r.2),
{
    let a = chars_before(text, range.start as int) as int;
    let b = chars_before(text, range.end as int) as int;
    boundary_offset_is_exact(text, range.start as int);
    boundary_offset_is_exact(text, range.end as int);
    chars_before_keeps_order(text, range.start as int, range.end as int);
    let r = (text.take(a), text.subrange(a, b), text.skip(b));
    assert(text =~= r.0 + r.1 + r.2);
    assert(r.0 + r.1 =~= text.take(b));
    r
}

/// Ranges are cut out from the last to the first, each from what the ones behind it
/// left.
pub proof fn ranges_are_cut_out_from_behind(text: Seq<char>, ranges: Seq<Span>, last: Span)
    ensures
        without_ranges(text, Seq::empty()) == text,
        without_ranges(text, ranges.push(last)) == without_ranges(
            without_range(text, last),
            ranges,
        ),
{
    assert(ranges.push(last).drop_last() =~= ranges);
    assert(ranges.push(last).last() == last);
}

/// The marks are those that separate parts of a sentence, and those that end one.
pub proof fn marks_are_told_apart(c: char)
    ensures
        soft(c) == is_soft(c),
        sentence_end(c) == is_stop(c),
        line_end(c) == is_line_end(c),
        blank()(c) == is_blank(c),
        joint()(c) == (is_blank(c) || is_soft(c)),
{
}

} // verus!
