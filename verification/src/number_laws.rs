//! What holds of comparing doubles.
use crate::binary64::Binary64;
use vstd::prelude::*;

verus! {

/// Two numbers are in exactly one order: the one is less, or they are the same, or the
/// other is less; and something that is no number is in none.
pub proof fn numbers_are_ordered(a: Binary64, b: Binary64)
    ensures
        a.nan() || b.nan() ==> !a.below(b) && !a.same(b) && !b.below(a) && !a.at_most(b),
        !a.nan() && !b.nan() ==> (a.below(b) || a.same(b) || b.below(a)) && !(a.below(b) && a.same(
            b,
        )) && !(a.below(b) && b.below(a)) && !(a.same(b) && b.below(a)),
        a.at_most(b) == (a.below(b) || a.same(b)),
{
}

/// The order goes on from one pair to the next.
pub proof fn order_goes_on(a: Binary64, b: Binary64, c: Binary64)
    ensures
        a.below(b) && b.below(c) ==> a.below(c),
        a.at_most(b) && b.at_most(c) ==> a.at_most(c),
        a.same(b) && b.same(c) ==> a.same(c),
{
}

/// A number and the one of the other sign stand on opposite sides of zero, and zero is
/// the same with either sign.
pub proof fn sign_turns_the_value(a: Binary64)
    requires
        a.bits < 0x8000_0000_0000_0000,
    ensures
        (Binary64 { bits: (a.bits + 0x8000_0000_0000_0000) as u64 }).value() == -a.value(),
        (Binary64 { bits: 0 }).value() == 0,
        a.value() >= 0,
{
    let b = Binary64 { bits: (a.bits + 0x8000_0000_0000_0000) as u64 };
    assert(0x8000_0000_0000_0000 == 0x800 * crate::binary64::HIDDEN_BIT);
    assert(b.bits % crate::binary64::HIDDEN_BIT == a.bits % crate::binary64::HIDDEN_BIT);
    assert((b.bits / crate::binary64::HIDDEN_BIT) % 0x800 == (a.bits / crate::binary64::HIDDEN_BIT)
        % 0x800);
}

} // verus!
