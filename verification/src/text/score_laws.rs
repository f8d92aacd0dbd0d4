//! What holds of scores.
use super::custom_words::{
    acceptable, edit_distance, key_score, may_match, score, soundable_key, sounds_alike,
    supported_key,
};
use crate::binary64::{
    fraction, gap, is_nearest, magnitude, nearest, nearest_exists, nearest_is_at_most,
    three_tenths_is_a_fraction, Binary64, HIDDEN_BIT, THREE_TENTHS,
};
use vstd::arithmetic::power2::{lemma2_to64, lemma2_to64_rest, lemma_pow2_adds, lemma_pow2_pos, pow2};
use vstd::prelude::*;

verus! {

/// The score of a distance over a length is the double nearest to their quotient, and
/// with the bonus the double nearest to three tenths of that.
pub proof fn score_is_the_rounded_quotient(distance: nat, length: nat)
    requires
        length > 0,
    ensures
        is_nearest(score(distance, length, false), distance * pow2(1074), length),
        is_nearest(
            score(distance, length, true),
            magnitude(score(distance, length, false).bits) * magnitude(0x3FD3_3333_3333_3333),
            pow2(1074),
        ),
{
    lemma_pow2_pos(1074);
    nearest_exists(distance * pow2(1074), length);
    let plain = nearest(distance * pow2(1074), length);
    nearest_exists(magnitude(plain.bits) * magnitude(THREE_TENTHS), pow2(1074));
}

/// The factor of the bonus is three tenths, to the precision of a double: off by less
/// than half of the last place.
pub proof fn bonus_is_three_tenths()
    ensures
        gap(magnitude(THREE_TENTHS), 3 * pow2(1074), 10) < 5 * pow2(1020),
{
    lemma2_to64();
    lemma2_to64_rest();
    assert(THREE_TENTHS / HIDDEN_BIT == 0x3FD && THREE_TENTHS % HIDDEN_BIT == 0x3_3333_3333_3333);
    lemma_pow2_adds(54, 1020);
    lemma_pow2_pos(1020);
    let m = (HIDDEN_BIT + fraction(THREE_TENTHS)) as nat;
    assert(magnitude(THREE_TENTHS) == m * pow2(1020));
    let big = pow2(1020);
    assert(pow2(1074) == 0x40_0000_0000_0000 * big);
    assert(m == 0x13_3333_3333_3333);
    assert((m * big) * 10 == (10 * m) * big) by (nonlinear_arith);
    assert(10 * m == 3 * 0x40_0000_0000_0000 - 2);
    assert((3 * 0x40_0000_0000_0000 - 2) * big == 3 * (0x40_0000_0000_0000 * big) - 2 * big)
        by (nonlinear_arith);
}

/// Rounding keeps the order.
proof fn lemma_rounding_keeps_order(low: nat, high: nat, d: nat)
    requires
        low <= high,
        d > 0,
    ensures
        magnitude(nearest(low, d).bits) <= magnitude(nearest(high, d).bits),
{
    nearest_exists(low, d);
    nearest_exists(high, d);
    let a = nearest(low, d);
    let b = nearest(high, d);
    let x = magnitude(a.bits);
    let y = magnitude(b.bits);
    if low == high {
    } else if x > y {
        assert(gap(x, low, d) <= gap(y, low, d));
        assert(gap(y, high, d) <= gap(x, high, d));
        assert(x * d > y * d) by (nonlinear_arith)
            requires
                x > y,
                d > 0,
        ;
    }
}

/// More edits over one length never score lower, and words that sound alike never score
/// higher than others at the same distance.
pub proof fn score_follows_the_distance(few: nat, many: nat, length: nat, alike: bool)
    requires
        few <= many,
        length > 0,
    ensures
        score(few, length, alike).value() <= score(many, length, alike).value(),
        score(few, length, true).value() <= score(few, length, false).value(),
{
    let big = pow2(1074);
    lemma_pow2_pos(1074);
    assert(few * big <= many * big) by (nonlinear_arith)
        requires
            few <= many,
    ;
    nearest_exists(few * big, length);
    nearest_exists(many * big, length);
    lemma_rounding_keeps_order(few * big, many * big, length);
    let a = nearest(few * big, length);
    let b = nearest(many * big, length);
    let t = magnitude(THREE_TENTHS);
    three_tenths_is_a_fraction();
    let x = magnitude(a.bits);
    let y = magnitude(b.bits);
    assert(x * t <= y * t) by (nonlinear_arith)
        requires
            x <= y,
    ;
    nearest_exists(x * t, big);
    nearest_exists(y * t, big);
    lemma_rounding_keeps_order(x * t, y * t, big);
    assert(x * t <= x * big) by (nonlinear_arith)
        requires
            t <= big,
    ;
    nearest_is_at_most(x * t, big, a);
}

/// Two texts are apart by the least number of changes: taking off the last character of
/// one counts for one, exchanging the last characters for one, and keeping them where
/// they are alike for none. Only equal texts are not apart.
pub proof fn distance_is_the_least_count(a: Seq<char>, b: Seq<char>)
    ensures
        edit_distance(a, Seq::empty()) == a.len(),
        edit_distance(Seq::empty(), b) == b.len(),
        edit_distance(a, b) == 0 <==> a == b,
        a.len() > 0 && b.len() > 0 ==> {
            let deleted = edit_distance(a.drop_last(), b) + 1;
            let inserted = edit_distance(a, b.drop_last()) + 1;
            let replaced = edit_distance(a.drop_last(), b.drop_last()) + (if a.last() == b.last() {
                0int
            } else {
                1int
            });
            let distance = edit_distance(a, b);
            &&& distance <= deleted && distance <= inserted && distance <= replaced
            &&& distance == deleted || distance == inserted || distance == replaced
        },
    decreases a.len() + b.len(),
{
    if a.len() > 0 && b.len() > 0 {
        distance_is_the_least_count(a.drop_last(), b.drop_last());
        assert(a =~= a.drop_last().push(a.last()));
        assert(b =~= b.drop_last().push(b.last()));
    } else if a.len() == 0 {
        assert(a =~= Seq::empty());
        if b.len() == 0 {
            assert(b =~= Seq::empty());
        }
    } else {
        assert(b =~= Seq::empty());
    }
}

/// A key that is acceptable for a candidate that is looked up may match it, and no other
/// candidate is matched. One that may match is compared, and it is
/// acceptable where the two have no sounds to compare, and where they sound alike and
/// the score with the bonus is within the threshold.
pub proof fn acceptable_keys_may_match(
    candidate: Seq<char>,
    key: Seq<char>,
    threshold: Binary64,
)
    ensures
        may_match(candidate, key, threshold) ==> supported_key(candidate) && candidate.len() <= 50,
        acceptable(candidate, key, threshold) && supported_key(candidate) && candidate.len() <= 50
            ==> may_match(candidate, key, threshold),
        may_match(candidate, key, threshold) && !(soundable_key(candidate) && soundable_key(key))
            ==> acceptable(candidate, key, threshold),
        may_match(candidate, key, threshold) && sounds_alike(candidate, key) && soundable_key(
            candidate,
        ) && soundable_key(key) ==> acceptable(candidate, key, threshold) || !score(
            edit_distance(candidate, key),
            if candidate.len() <= key.len() {
                key.len()
            } else {
                candidate.len()
            },
            true,
        ).at_most(threshold),
        may_match(candidate, key, threshold) ==> key_score(candidate, key) is Some,
{
}

} // verus!
