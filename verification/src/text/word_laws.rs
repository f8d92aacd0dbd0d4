//! What holds of splitting, joining and trimming texts.
use super::strings::{
    back_while, back_while_is_a_run, ink, joined, skip_while, skip_while_is_a_run, space, trimmed,
    words_from, words_of,
};
use super::unicode::whitespace;
use vstd::prelude::*;

verus! {

/// A run in a text stays where it is when something is put before the text.
proof fn lemma_run_moves(head: Seq<char>, s: Seq<char>, i: int, p: spec_fn(char) -> bool)
    requires
        0 <= i <= s.len(),
    ensures
        skip_while(head + s, head.len() + i, p) == head.len() + skip_while(s, i, p),
    decreases s.len() - i,
{
    if i < s.len() && p(s[i]) {
        lemma_run_moves(head, s, i + 1, p);
    }
}

/// The words of the rest of a text do not depend on what stands before.
proof fn lemma_words_move(head: Seq<char>, s: Seq<char>, i: int)
    requires
        0 <= i <= s.len(),
    ensures
        words_from(head + s, head.len() + i) == words_from(s, i),
    decreases s.len() - i,
{
    let start = skip_while(s, i, space());
    lemma_run_moves(head, s, i, space());
    skip_while_is_a_run(s, i, space());
    lemma_run_moves(head, s, start, ink());
    skip_while_is_a_run(s, start, ink());
    let end = skip_while(s, start, ink());
    if start < end {
        lemma_words_move(head, s, end);
        assert((head + s).subrange(head.len() + start, head.len() + end) =~= s.subrange(
            start,
            end,
        ));
    }
}

/// A run inside `a` is the same before `c`, where `c` does not belong to it.
proof fn lemma_run_stays(
    a: Seq<char>,
    c: char,
    b: Seq<char>,
    i: int,
    p: spec_fn(char) -> bool,
)
    requires
        0 <= i <= a.len(),
        skip_while(a, i, p) < a.len() || !p(c),
    ensures
        skip_while(a + seq![c] + b, i, p) == skip_while(a, i, p),
    decreases a.len() - i,
{
    let s = a + seq![c] + b;
    skip_while_is_a_run(a, i, p);
    if i < a.len() {
        assert(s[i] == a[i]);
        if p(a[i]) {
            lemma_run_stays(a, c, b, i + 1, p);
        }
    } else {
        assert(s[i] == c);
    }
}

/// White space up to the end of `a` goes on over white space behind it.
proof fn lemma_space_goes_on(a: Seq<char>, c: char, b: Seq<char>, i: int)
    requires
        0 <= i <= a.len(),
        whitespace(c),
        skip_while(a, i, space()) == a.len(),
    ensures
        skip_while(a + seq![c] + b, i, space()) == skip_while(
            a + seq![c] + b,
            a.len() as int + 1,
            space(),
        ),
    decreases a.len() - i,
{
    let s = a + seq![c] + b;
    skip_while_is_a_run(a, i, space());
    if i < a.len() {
        assert(s[i] == a[i]);
        assert(space()(a[i]));
        lemma_space_goes_on(a, c, b, i + 1);
    } else {
        assert(s[i] == c);
    }
}

/// The words from `i` on of a text with white space in it.
proof fn lemma_words_split(a: Seq<char>, c: char, b: Seq<char>, i: int)
    requires
        0 <= i <= a.len(),
        whitespace(c),
    ensures
        words_from(a + seq![c] + b, i) == words_from(a, i) + words_of(b),
    decreases a.len() - i,
{
    let s = a + seq![c] + b;
    let start = skip_while(a, i, space());
    skip_while_is_a_run(a, i, space());
    if start == a.len() {
        lemma_space_goes_on(a, c, b, i);
        skip_while_is_a_run(s, a.len() as int + 1, space());
        assert(skip_while(a, start, ink()) == start);
        assert(words_from(a, i) =~= Seq::empty());
        let head = a + seq![c];
        assert(head + b =~= s);
        lemma_words_move(head, b, 0);
        assert(words_from(s, i) == words_from(s, a.len() as int + 1));
        assert(words_from(a, i) + words_of(b) =~= words_of(b));
    } else {
        let end = skip_while(a, start, ink());
        skip_while_is_a_run(a, start, ink());
        lemma_run_stays(a, c, b, i, space());
        lemma_run_stays(a, c, b, start, ink());
        assert(!space()(a[start]));
        assert(ink()(a[start]));
        assert(end > start);
        lemma_words_split(a, c, b, end);
        assert(s.subrange(start, end) =~= a.subrange(start, end));
        let word = seq![a.subrange(start, end)];
        assert(word + (words_from(a, end) + words_of(b)) =~= (word + words_from(a, end))
            + words_of(b));
    }
}

/// White space separates words: those of a text are the words before it and the words
/// behind it.
pub proof fn words_split_at_white_space(a: Seq<char>, c: char, b: Seq<char>)
    requires
        whitespace(c),
    ensures
        words_of(a + seq![c] + b) == words_of(a) + words_of(b),
{
    lemma_words_split(a, c, b, 0);
}

/// A text without white space is one word, and an empty text has none.
pub proof fn unspaced_text_is_one_word(text: Seq<char>)
    requires
        forall|i: int| 0 <= i < text.len() ==> !whitespace(#[trigger] text[i]),
    ensures
        words_of(text) == (if text.len() > 0 {
            seq![text]
        } else {
            Seq::empty()
        }),
{
    let n = text.len() as int;
    skip_while_is_a_run(text, 0, space());
    let start = skip_while(text, 0, space());
    if n > 0 {
        assert(!whitespace(text[0]));
        assert(start == 0) by {
            if start > 0 {
                assert(space()(text[0]));
            }
        }
        skip_while_is_a_run(text, 0, ink());
        let end = skip_while(text, 0, ink());
        assert(end == n) by {
            if end < n {
                assert(!ink()(text[end]));
                assert(!whitespace(text[end]));
            }
        }
        skip_while_is_a_run(text, n, space());
        assert(skip_while(text, n, space()) == n);
        assert(skip_while(text, n, ink()) == n);
        assert(words_from(text, n) =~= Seq::empty());
        assert(text.subrange(0, n) =~= text);
        assert(words_of(text) =~= seq![text]);
    } else {
        assert(words_of(text) =~= Seq::empty());
    }
}

/// Joining goes part by part: one separator stands between what is joined before and
/// after, one part is itself, and none is nothing.
pub proof fn joining_goes_part_by_part(
    a: Seq<Seq<char>>,
    b: Seq<Seq<char>>,
    part: Seq<char>,
    separator: Seq<char>,
)
    ensures
        joined(Seq::empty(), separator) == Seq::<char>::empty(),
        joined(seq![part], separator) == part,
        a.len() > 0 && b.len() > 0 ==> joined(a + b, separator) == joined(a, separator) + separator
            + joined(b, separator),
    decreases b.len(),
{
    if a.len() > 0 && b.len() > 0 {
        assert((a + b).drop_last() =~= a + b.drop_last());
        assert((a + b).last() == b.last());
        if b.len() == 1 {
            assert(a + b.drop_last() =~= a);
            assert(joined(b, separator) == b.last());
        } else {
            joining_goes_part_by_part(a, b.drop_last(), part, separator);
            assert(joined(a, separator) + separator + (joined(b.drop_last(), separator)
                + separator + b.last()) =~= joined(a, separator) + separator + joined(
                b.drop_last(),
                separator,
            ) + separator + b.last());
        }
    }
}

/// Trimming takes off the white space at both ends and nothing else.
pub proof fn trimming_takes_off_the_ends(a: Seq<char>, core: Seq<char>, b: Seq<char>)
    requires
        forall|i: int| 0 <= i < a.len() ==> whitespace(#[trigger] a[i]),
        forall|i: int| 0 <= i < b.len() ==> whitespace(#[trigger] b[i]),
        core.len() > 0 ==> !whitespace(core[0]) && !whitespace(core.last()),
    ensures
        trimmed(a + core + b) == core,
{
    let s = a + core + b;
    let n = s.len() as int;
    let start = skip_while(s, 0, space());
    let end = back_while(s, n, space());
    skip_while_is_a_run(s, 0, space());
    back_while_is_a_run(s, n, space());
    if core.len() > 0 {
        let k = a.len() as int;
        let m = k + core.len();
        assert(s[k] == core[0]);
        assert(s[m - 1] == core.last());
        if start < k {
            assert(s[start] == a[start]);
        }
        if start > k {
            assert(space()(s[k]));
        }
        if end > m {
            assert(s[end - 1] == b[end - 1 - m]);
        }
        if end < m {
            assert(space()(s[m - 1]));
        }
        assert(s.subrange(k, m) =~= core);
    } else {
        assert forall|i: int| 0 <= i < n implies whitespace(#[trigger] s[i]) by {
            if i < a.len() {
                assert(s[i] == a[i]);
            } else {
                assert(s[i] == b[i - a.len()]);
            }
        }
        if start < n {
            assert(whitespace(s[start]));
        }
        assert(core =~= Seq::empty());
    }
}

} // verus!
