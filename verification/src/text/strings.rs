//! Texts as sequences of characters: conversion, comparison, searching, trimming,
//! splitting into words and joining.
use super::unicode::whitespace;
use vstd::prelude::*;

verus! {

/// The end of the run of characters satisfying `p` that starts at `i`.
pub open spec fn skip_while(s: Seq<char>, i: int, p: spec_fn(char) -> bool) -> int
    decreases s.len() - i,
{
    if 0 <= i < s.len() && p(s[i]) {
        skip_while(s, i + 1, p)
    } else {
        i
    }
}

/// The start of the run of characters satisfying `p` that ends at `j`.
pub open spec fn back_while(s: Seq<char>, j: int, p: spec_fn(char) -> bool) -> int
    decreases j,
{
    if 0 < j <= s.len() && p(s[j - 1]) {
        back_while(s, j - 1, p)
    } else {
        j
    }
}

/// A run found by [`skip_while`] stays in the text, satisfies `p` throughout and
/// cannot be extended.
pub proof fn skip_while_is_a_run(s: Seq<char>, i: int, p: spec_fn(char) -> bool)
    requires
        0 <= i <= s.len(),
    ensures
        i <= skip_while(s, i, p) <= s.len(),
        forall|k: int| i <= k < skip_while(s, i, p) ==> p(#[trigger] s[k]),
        skip_while(s, i, p) < s.len() ==> !p(s[skip_while(s, i, p)]),
    decreases s.len() - i,
{
    if i < s.len() && p(s[i]) {
        skip_while_is_a_run(s, i + 1, p);
    }
}

/// A run found by [`back_while`] stays in the text, satisfies `p` throughout and
/// cannot be extended.
pub proof fn back_while_is_a_run(s: Seq<char>, j: int, p: spec_fn(char) -> bool)
    requires
        0 <= j <= s.len(),
    ensures
        0 <= back_while(s, j, p) <= j,
        forall|k: int| back_while(s, j, p) <= k < j ==> p(#[trigger] s[k]),
        back_while(s, j, p) > 0 ==> !p(s[back_while(s, j, p) - 1]),
    decreases j,
{
    if 0 < j && p(s[j - 1]) {
        back_while_is_a_run(s, j - 1, p);
    }
}

/// The white space characters.
pub open spec fn space() -> spec_fn(char) -> bool {
    |c: char| whitespace(c)
}

/// The characters that are no white space.
pub open spec fn ink() -> spec_fn(char) -> bool {
    |c: char| !whitespace(c)
}

/// `s` without the white space at either end.
pub open spec fn trimmed(s: Seq<char>) -> Seq<char> {
    let start = skip_while(s, 0, space());
    let end = back_while(s, s.len() as int, space());
    if start < end {
        s.subrange(start, end)
    } else {
        Seq::empty()
    }
}

/// The words of `s` from position `i` on: its maximal runs without white space.
pub open spec fn words_from(s: Seq<char>, i: int) -> Seq<Seq<char>>
    decreases s.len() - i,
    when 0 <= i <= s.len()
{
    let start = skip_while(s, i, space());
    let end = skip_while(s, start, ink());
    if i <= start < end <= s.len() {
        seq![s.subrange(start, end)] + words_from(s, end)
    } else {
        Seq::empty()
    }
}

/// The words of `s`.
pub open spec fn words_of(s: Seq<char>) -> Seq<Seq<char>> {
    words_from(s, 0)
}

/// The texts `parts` with `separator` between each and the next.
pub open spec fn joined(parts: Seq<Seq<char>>, separator: Seq<char>) -> Seq<char>
    decreases parts.len(),
{
    if parts.len() == 0 {
        Seq::empty()
    } else if parts.len() == 1 {
        parts[0]
    } else {
        joined(parts.drop_last(), separator) + separator + parts.last()
    }
}

/// `needle` stands in `s` at position `i`.
pub open spec fn occurs_at(s: Seq<char>, needle: Seq<char>, i: int) -> bool {
    0 <= i && i + needle.len() <= s.len() && s.subrange(i, i + needle.len()) == needle
}

/// `needle` stands somewhere in `s`.
pub open spec fn contains_text(s: Seq<char>, needle: Seq<char>) -> bool {
    exists|i: int| occurs_at(s, needle, i)
}

/// The contents of a list of texts.
pub open spec fn texts(list: Seq<Vec<char>>) -> Seq<Seq<char>> {
    list.map_values(|t: Vec<char>| t@)
}

/// The contents of a list of strings.
pub open spec fn strings(list: Seq<String>) -> Seq<Seq<char>> {
    list.map_values(|t: String| t@)
}

/// The characters of a text.
pub fn chars_of(s: &str) -> (r: Vec<char>)
    ensures
        r@ == s@,
{
    let mut r: Vec<char> = Vec::new();
    for c in it: s.chars()
        invariant
            it.seq() == s@,
            r@ == it.seq().take(it.index()),
    {
        r.push(c);
        assert(it.seq().take(it.index() + 1) =~= it.seq().take(it.index()).push(c));
    }
    assert(s@.take(s@.len() as int) =~= s@);
    r
}

/// The text made of the given characters.
pub fn text_of(v: &Vec<char>) -> (r: String)
    ensures
        r@ == v@,
{
    let mut r: String = String::new();
    let mut i: usize = 0;
    while i < v.len()
        invariant
            i <= v@.len(),
            r@ == v@.take(i as int),
        decreases v@.len() - i,
    {
        r.push(v[i]);
        assert(v@.take(i + 1) =~= v@.take(i as int).push(v@[i as int]));
        i = i + 1;
    }
    assert(v@.take(v@.len() as int) =~= v@);
    r
}

/// The part of `v` from `start` up to `end`.
pub fn part_of(v: &Vec<char>, start: usize, end: usize) -> (r: Vec<char>)
    requires
        start <= end <= v@.len(),
    ensures
        r@ == v@.subrange(start as int, end as int),
{
    let mut r: Vec<char> = Vec::new();
    let mut i: usize = start;
    while i < end
        invariant
            start <= i <= end <= v@.len(),
            r@ == v@.subrange(start as int, i as int),
        decreases end - i,
    {
        r.push(v[i]);
        assert(v@.subrange(start as int, i + 1) =~= v@.subrange(start as int, i as int).push(
            v@[i as int],
        ));
        i = i + 1;
    }
    r
}

/// Appends the characters of `tail` to `v`.
pub fn append_chars(v: &mut Vec<char>, tail: &Vec<char>)
    ensures
        final(v)@ == old(v)@ + tail@,
{
    let mut i: usize = 0;
    while i < tail.len()
        invariant
            i <= tail@.len(),
            v@ == old(v)@ + tail@.take(i as int),
        decreases tail@.len() - i,
    {
        v.push(tail[i]);
        assert(tail@.take(i + 1) =~= tail@.take(i as int).push(tail@[i as int]));
        assert(v@ =~= old(v)@ + tail@.take(i + 1));
        i = i + 1;
    }
    assert(tail@.take(tail@.len() as int) =~= tail@);
}

/// Whether two texts hold the same characters.
pub fn same_chars(a: &Vec<char>, b: &Vec<char>) -> (r: bool)
    ensures
        r == (a@ == b@),
{
    if a.len() != b.len() {
        return false;
    }
    let mut i: usize = 0;
    while i < a.len()
        invariant
            i <= a@.len(),
            a@.len() == b@.len(),
            forall|k: int| 0 <= k < i ==> a@[k] == b@[k],
        decreases a@.len() - i,
    {
        if a[i] != b[i] {
            return false;
        }
        i = i + 1;
    }
    assert(a@ =~= b@);
    true
}

/// Whether two strings hold the same characters.
pub fn same_text(a: &str, b: &str) -> (r: bool)
    ensures
        r == (a@ == b@),
{
    let left: Vec<char> = chars_of(a);
    let right: Vec<char> = chars_of(b);
    same_chars(&left, &right)
}

/// Whether `v` spells the text `s`.
pub fn spells(v: &Vec<char>, s: &str) -> (r: bool)
    ensures
        r == (v@ == s@),
{
    let other: Vec<char> = chars_of(s);
    same_chars(v, &other)
}

/// Whether `c` is one of the characters of `v`.
pub fn has_char(v: &Vec<char>, c: char) -> (r: bool)
    ensures
        r == v@.contains(c),
{
    let mut i: usize = 0;
    while i < v.len()
        invariant
            i <= v@.len(),
            forall|k: int| 0 <= k < i ==> v@[k] != c,
        decreases v@.len() - i,
    {
        if v[i] == c {
            return true;
        }
        i = i + 1;
    }
    false
}

/// Whether `needle` stands in `s` at position `i`.
fn stands_at(s: &Vec<char>, needle: &Vec<char>, i: usize) -> (r: bool)
    requires
        i <= s@.len(),
    ensures
        r == occurs_at(s@, needle@, i as int),
{
    if s.len() - i < needle.len() {
        return false;
    }
    let mut k: usize = 0;
    while k < needle.len()
        invariant
            k <= needle@.len(),
            i + needle@.len() <= s.len(),
            forall|x: int| 0 <= x < k ==> s@[i + x] == needle@[x],
        decreases needle@.len() - k,
    {
        if s[i + k] != needle[k] {
            assert(s@.subrange(i as int, i + needle@.len())[k as int] != needle@[k as int]);
            return false;
        }
        k = k + 1;
    }
    assert(s@.subrange(i as int, i + needle@.len()) =~= needle@);
    true
}

/// Whether `needle` stands somewhere in `s`.
pub fn has_text(s: &str, needle: &str) -> (r: bool)
    ensures
        r == contains_text(s@, needle@),
{
    let hay: Vec<char> = chars_of(s);
    let pin: Vec<char> = chars_of(needle);
    let mut i: usize = 0;
    while i <= hay.len()
        invariant
            i <= hay@.len() + 1,
            hay@ == s@,
            pin@ == needle@,
            forall|k: int| 0 <= k < i ==> !occurs_at(hay@, pin@, k),
        decreases hay@.len() + 1 - i,
    {
        if stands_at(&hay, &pin, i) {
            return true;
        }
        if i == hay.len() {
            return false;
        }
        i = i + 1;
    }
    false
}

/// The first position at or after `i` that holds no white space.
fn skip_space(v: &Vec<char>, i: usize) -> (r: usize)
    requires
        i <= v@.len(),
    ensures
        i <= r <= v@.len(),
        r == skip_while(v@, i as int, space()),
{
    let mut k: usize = i;
    proof {
        skip_while_is_a_run(v@, i as int, space());
    }
    while k < v.len() && v[k].is_whitespace()
        invariant
            i <= k <= v@.len(),
            skip_while(v@, k as int, space()) == skip_while(v@, i as int, space()),
        decreases v@.len() - k,
    {
        k = k + 1;
    }
    k
}

/// The first position at or after `i` that holds white space.
fn skip_ink(v: &Vec<char>, i: usize) -> (r: usize)
    requires
        i <= v@.len(),
    ensures
        i <= r <= v@.len(),
        r == skip_while(v@, i as int, ink()),
{
    let mut k: usize = i;
    while k < v.len() && !v[k].is_whitespace()
        invariant
            i <= k <= v@.len(),
            skip_while(v@, k as int, ink()) == skip_while(v@, i as int, ink()),
        decreases v@.len() - k,
    {
        k = k + 1;
    }
    k
}

/// The text without the white space at either end.
pub fn trim(v: &Vec<char>) -> (r: Vec<char>)
    ensures
        r@ == trimmed(v@),
{
    let start: usize = skip_space(v, 0);
    let mut end: usize = v.len();
    while end > 0 && v[end - 1].is_whitespace()
        invariant
            end <= v@.len(),
            back_while(v@, end as int, space()) == back_while(v@, v@.len() as int, space()),
        decreases end,
    {
        end = end - 1;
    }
    if start < end {
        part_of(v, start, end)
    } else {
        Vec::new()
    }
}

/// The words of a text.
pub fn split_words(v: &Vec<char>) -> (r: Vec<Vec<char>>)
    ensures
        texts(r@) == words_of(v@),
{
    let mut r: Vec<Vec<char>> = Vec::new();
    let mut i: usize = 0;
    assert(texts(r@) =~= Seq::<Seq<char>>::empty());
    assert(texts(r@) + words_from(v@, 0) =~= words_of(v@));
    loop
        invariant
            i <= v@.len(),
            texts(r@) + words_from(v@, i as int) == words_of(v@),
        ensures
            texts(r@) == words_of(v@),
        decreases v@.len() - i,
    {
        let start: usize = skip_space(v, i);
        if start == v.len() {
            assert(skip_while(v@, start as int, ink()) == start);
            assert(texts(r@) + Seq::<Seq<char>>::empty() =~= texts(r@));
            break;
        }
        let end: usize = skip_ink(v, start);
        proof {
            skip_while_is_a_run(v@, i as int, space());
            skip_while_is_a_run(v@, start as int, ink());
        }
        let ghost before = texts(r@);
        let word: Vec<char> = part_of(v, start, end);
        let ghost w = word@;
        r.push(word);
        proof {
            assert(texts(r@) =~= before.push(w));
            assert(before + (seq![w] + words_from(v@, end as int)) =~= before.push(w)
                + words_from(v@, end as int));
        }
        i = end;
    }
    r
}

/// The texts `parts` with `separator` between each and the next.
pub fn join(parts: &Vec<Vec<char>>, separator: &Vec<char>) -> (r: Vec<char>)
    ensures
        r@ == joined(texts(parts@), separator@),
{
    let mut r: Vec<char> = Vec::new();
    let mut i: usize = 0;
    while i < parts.len()
        invariant
            i <= parts@.len(),
            r@ == joined(texts(parts@).take(i as int), separator@),
        decreases parts@.len() - i,
    {
        let ghost done = texts(parts@).take(i as int);
        let ghost more = texts(parts@).take(i + 1);
        assert(more.drop_last() =~= done);
        if i > 0 {
            append_chars(&mut r, separator);
        }
        append_chars(&mut r, &parts[i]);
        assert(i == 0 ==> r@ =~= parts@[0]@);
        i = i + 1;
    }
    assert(texts(parts@).take(parts@.len() as int) =~= texts(parts@));
    r
}

/// The text `tail` after `head`.
pub fn prefixed(head: &str, tail: &str) -> (r: String)
    ensures
        r@ == head@ + tail@,
{
    let mut r: String = String::new();
    r.push_str(head);
    r.push_str(tail);
    assert(r@ =~= head@ + tail@);
    r
}

/// The digit for a number below ten.
pub open spec fn digit(d: int) -> char {
    if d == 0 {
        '0'
    } else if d == 1 {
        '1'
    } else if d == 2 {
        '2'
    } else if d == 3 {
        '3'
    } else if d == 4 {
        '4'
    } else if d == 5 {
        '5'
    } else if d == 6 {
        '6'
    } else if d == 7 {
        '7'
    } else if d == 8 {
        '8'
    } else {
        '9'
    }
}

/// The decimal digits of a number.
pub open spec fn digits(n: nat) -> Seq<char>
    decreases n,
{
    if n < 10 {
        seq![digit(n as int)]
    } else {
        digits(n / 10).push(digit((n % 10) as int))
    }
}

/// A number in decimal, with a sign where it is negative.
pub open spec fn decimal(n: int) -> Seq<char> {
    if n < 0 {
        seq!['-'] + digits((-n) as nat)
    } else {
        digits(n as nat)
    }
}

/// The digit for a number below ten.
fn digit_of(d: u32) -> (r: char)
    ensures
        r == digit(d as int),
{
    match d {
        0 => '0',
        1 => '1',
        2 => '2',
        3 => '3',
        4 => '4',
        5 => '5',
        6 => '6',
        7 => '7',
        8 => '8',
        _ => '9',
    }
}

/// Appends the decimal digits of a number.
fn push_digits(text: &mut String, n: u32)
    ensures
        final(text)@ == old(text)@ + digits(n as nat),
    decreases n,
{
    if n >= 10 {
        push_digits(text, n / 10);
    }
    text.push(digit_of(n % 10));
    assert(text@ =~= old(text)@ + digits(n as nat));
}

/// A number in decimal.
pub fn decimal_text(n: i32) -> (r: String)
    ensures
        r@ == decimal(n as int),
{
    let mut r: String = String::new();
    let size: u32 = if n < 0 {
        r.push('-');
        (-(n as i64)) as u32
    } else {
        n as u32
    };
    push_digits(&mut r, size);
    assert(r@ =~= decimal(n as int));
    r
}

} // verus!
