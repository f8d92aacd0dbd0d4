//! Double-precision numbers by their bits.
//!
//! A [`Binary64`] stands for the IEEE 754 double whose bits it holds. Its value is
//! a whole number of units, one unit being the smallest positive double (two to
//! the power of minus 1074), so that order and rounding are facts about integers.
use vstd::arithmetic::div_mod::lemma_fundamental_div_mod;
use vstd::arithmetic::mul::{
    lemma_mul_inequality, lemma_mul_is_associative, lemma_mul_strict_inequality,
};
use vstd::arithmetic::power2::{
    lemma2_to64, lemma2_to64_rest, lemma_pow2_adds, lemma_pow2_pos, lemma_pow2_unfold, pow2,
};
use vstd::prelude::*;
use vstd::std_specs::cmp::PartialEqSpecImpl;

verus! {

/// Two to the power of 52: the weight of the hidden bit of a significand.
pub const HIDDEN_BIT: u64 = 0x10_0000_0000_0000;

/// The sign bit of a double.
pub const SIGN_BIT: u64 = 0x8000_0000_0000_0000;

/// A double-precision number, held as its bits. Numbers are equal by value: a NaN
/// equals nothing, and zero equals zero whatever its sign.
#[derive(Debug, Clone, Copy)]
pub struct Binary64 {
    pub bits: u64,
}

impl PartialEq for Binary64 {
    fn eq(&self, other: &Self) -> (r: bool) {
        self.le(*other) && other.le(*self)
    }
}

impl PartialEqSpecImpl for Binary64 {
    open spec fn obeys_eq_spec() -> bool {
        true
    }

    open spec fn eq_spec(&self, other: &Self) -> bool {
        self.same(*other)
    }
}

/// The bits of the double nearest to three tenths.
pub const THREE_TENTHS: u64 = 0x3FD3_3333_3333_3333;

/// The bits of the double that is exactly one.
pub const ONE: u64 = 0x3FF0_0000_0000_0000;

/// The fraction field of a bit pattern.
pub open spec fn fraction(bits: u64) -> nat {
    (bits % HIDDEN_BIT) as nat
}

/// The exponent field of a bit pattern.
pub open spec fn exponent(bits: u64) -> nat {
    ((bits / HIDDEN_BIT) % 0x800) as nat
}

/// The distance from zero of a bit pattern's value, in units. An infinity counts
/// as the number that its fields would spell, which exceeds every finite one.
pub open spec fn magnitude(bits: u64) -> nat {
    if exponent(bits) == 0 {
        fraction(bits)
    } else {
        (HIDDEN_BIT + fraction(bits)) as nat * pow2((exponent(bits) - 1) as nat)
    }
}

/// How far `units` is from the quotient `n / d`, times `d`.
pub open spec fn gap(units: nat, n: nat, d: nat) -> int {
    if units * d >= n {
        units * d - n
    } else {
        n - units * d
    }
}

/// `r` is the quotient `n / d` (in units) rounded to the nearest double, with a tie
/// going to the double whose significand is even.
pub open spec fn is_nearest(r: Binary64, n: nat, d: nat) -> bool {
    &&& r.finite()
    &&& !r.negative()
    &&& forall|o: Binary64|
        #![trigger magnitude(o.bits)]
        o.finite() && !o.negative() ==> {
            &&& gap(magnitude(r.bits), n, d) <= gap(magnitude(o.bits), n, d)
            &&& gap(magnitude(r.bits), n, d) == gap(magnitude(o.bits), n, d) && o != r
                ==> r.bits % 2 == 0
        }
}

/// The quotient `n / d` (in units) rounded to the nearest double.
pub open spec fn nearest(n: nat, d: nat) -> Binary64 {
    choose|r: Binary64| is_nearest(r, n, d)
}

impl Binary64 {
    /// The sign bit is set.
    pub open spec fn negative(self) -> bool {
        self.bits >= SIGN_BIT
    }

    /// Neither an infinity nor a NaN.
    pub open spec fn finite(self) -> bool {
        exponent(self.bits) != 0x7FF
    }

    /// Not a number.
    pub open spec fn nan(self) -> bool {
        exponent(self.bits) == 0x7FF && fraction(self.bits) != 0
    }

    /// The signed value, in units.
    pub open spec fn value(self) -> int {
        if self.negative() {
            -(magnitude(self.bits) as int)
        } else {
            magnitude(self.bits) as int
        }
    }

    /// `self < other` as doubles compare: never with a NaN, otherwise by value.
    pub open spec fn below(self, other: Binary64) -> bool {
        !self.nan() && !other.nan() && self.value() < other.value()
    }

    /// `self <= other` as doubles compare: never with a NaN, otherwise by value.
    pub open spec fn at_most(self, other: Binary64) -> bool {
        !self.nan() && !other.nan() && self.value() <= other.value()
    }

    /// `self == other` as doubles compare: never with a NaN, otherwise by value.
    pub open spec fn same(self, other: Binary64) -> bool {
        !self.nan() && !other.nan() && self.value() == other.value()
    }

    /// Whether the number is neither an infinity nor a NaN.
    pub fn is_finite(self) -> (r: bool)
        ensures
            r == self.finite(),
    {
        (self.bits / HIDDEN_BIT) % 0x800 != 0x7FF
    }

    /// Whether the bits spell no number.
    pub fn is_nan(self) -> (r: bool)
        ensures
            r == self.nan(),
    {
        (self.bits / HIDDEN_BIT) % 0x800 == 0x7FF && self.bits % HIDDEN_BIT != 0
    }

    /// Whether `self` is less than `other` or equal to it.
    pub fn le(self, other: Binary64) -> (r: bool)
        ensures
            r == self.at_most(other),
    {
        !self.is_nan() && !other.is_nan() && !other.lt(self)
    }

    /// Whether `self` is less than `other`.
    pub fn lt(self, other: Binary64) -> (r: bool)
        ensures
            r == self.below(other),
    {
        if self.is_nan() || other.is_nan() {
            return false;
        }
        let negative: bool = self.bits >= SIGN_BIT;
        let other_negative: bool = other.bits >= SIGN_BIT;
        let size: u64 = if negative {
            self.bits - SIGN_BIT
        } else {
            self.bits
        };
        let other_size: u64 = if other_negative {
            other.bits - SIGN_BIT
        } else {
            other.bits
        };
        proof {
            if negative {
                lemma_magnitude_ignores_sign(self.bits);
            }
            if other_negative {
                lemma_magnitude_ignores_sign(other.bits);
            }
            lemma_magnitude_order(size, other_size);
            lemma_magnitude_order(0, size);
            lemma_magnitude_order(0, other_size);
            assert(magnitude(0) == 0);
        }
        if negative && other_negative {
            other_size < size
        } else if negative {
            size != 0 || other_size != 0
        } else if other_negative {
            false
        } else {
            size < other_size
        }
    }
}

/// Clearing the sign bit leaves the distance from zero as it is.
proof fn lemma_magnitude_ignores_sign(bits: u64)
    requires
        bits >= SIGN_BIT,
    ensures
        magnitude(bits) == magnitude((bits - SIGN_BIT) as u64),
{
    assert(SIGN_BIT == 0x800 * HIDDEN_BIT);
}

/// Without the sign bit, larger bits mean a larger number.
proof fn lemma_magnitude_order(a: u64, b: u64)
    requires
        a < SIGN_BIT,
        b < SIGN_BIT,
    ensures
        a < b ==> magnitude(a) < magnitude(b),
        b < a ==> magnitude(b) < magnitude(a),
        a == b <==> magnitude(a) == magnitude(b),
{
    if a < b {
        lemma_magnitude_grows(a, b);
    }
    if b < a {
        lemma_magnitude_grows(b, a);
    }
}

proof fn lemma_magnitude_grows(a: u64, b: u64)
    requires
        a < b < SIGN_BIT,
    ensures
        magnitude(a) < magnitude(b),
{
    let ea = exponent(a);
    let eb = exponent(b);
    assert(ea == a / HIDDEN_BIT && eb == b / HIDDEN_BIT);
    assert(ea <= eb);
    if ea == eb {
        if ea > 0 {
            lemma_pow2_pos((ea - 1) as nat);
            lemma_mul_strict_inequality(
                HIDDEN_BIT + fraction(a) as int,
                HIDDEN_BIT + fraction(b) as int,
                pow2((ea - 1) as nat) as int,
            );
        }
    } else {
        lemma_magnitude_below_binade(a, (eb - 1) as nat);
        lemma_pow2_pos((eb - 1) as nat);
        lemma_mul_inequality(
            HIDDEN_BIT as int,
            HIDDEN_BIT + fraction(b) as int,
            pow2((eb - 1) as nat) as int,
        );
    }
}

/// A number whose exponent field is at most `s` is below the first number of the
/// next binade.
proof fn lemma_magnitude_below_binade(bits: u64, s: nat)
    requires
        exponent(bits) <= s,
    ensures
        magnitude(bits) < HIDDEN_BIT * pow2(s),
{
    let e = exponent(bits);
    lemma_pow2_pos(s);
    if e == 0 {
        assert(HIDDEN_BIT * pow2(s) >= HIDDEN_BIT) by (nonlinear_arith)
            requires
                pow2(s) >= 1,
        ;
    } else {
        lemma_pow2_pos((e - 1) as nat);
        lemma_pow2_unfold(e);
        lemma_pow2_adds(e, (s - e) as nat);
        lemma_pow2_pos((s - e) as nat);
        let p = pow2((e - 1) as nat) as int;
        let f = fraction(bits) as int;
        assert((HIDDEN_BIT + f) * p < (2 * HIDDEN_BIT) * p) by (nonlinear_arith)
            requires
                f < HIDDEN_BIT,
                p > 0,
        ;
        assert((2 * HIDDEN_BIT) * p == HIDDEN_BIT * (2 * p)) by (nonlinear_arith);
        let q = pow2(e) as int;
        let t = pow2((s - e) as nat) as int;
        assert(HIDDEN_BIT * q <= HIDDEN_BIT * (q * t)) by (nonlinear_arith)
            requires
                q > 0,
                t >= 1,
        ;
    }
}

/// The bits that spell the significand `m` in units of two to the power of `s`.
proof fn lemma_pack(m: u64, s: nat, bits: u64)
    requires
        HIDDEN_BIT <= m <= 2 * HIDDEN_BIT,
        s <= 2000,
        bits == s * HIDDEN_BIT + m,
    ensures
        magnitude(bits) == m * pow2(s),
        bits < SIGN_BIT,
        exponent(bits) != 0x7FF,
        exponent(bits) == if m == 2 * HIDDEN_BIT {
            s + 2
        } else {
            s + 1
        },
{
    if m == 2 * HIDDEN_BIT {
        assert(bits == (s + 2) * HIDDEN_BIT);
        assert(bits / HIDDEN_BIT == s + 2 && bits % HIDDEN_BIT == 0);
        lemma_pow2_unfold((s + 1) as nat);
        assert(HIDDEN_BIT * (2 * pow2(s)) == (2 * HIDDEN_BIT) * pow2(s)) by (nonlinear_arith);
    } else {
        assert(bits == (s + 1) * HIDDEN_BIT + (m - HIDDEN_BIT));
        assert(bits / HIDDEN_BIT == s + 1 && bits % HIDDEN_BIT == m - HIDDEN_BIT);
    }
}

/// A number whose exponent field exceeds `s` is a whole multiple of two to the
/// power of `s` units.
proof fn lemma_magnitude_multiple(bits: u64, s: nat) -> (j: nat)
    requires
        exponent(bits) > s,
    ensures
        magnitude(bits) == j * pow2(s),
{
    let e = (exponent(bits) - 1) as nat;
    lemma_pow2_adds((e - s) as nat, s);
    let m = (HIDDEN_BIT + fraction(bits)) as nat;
    lemma_mul_is_associative(m as int, pow2((e - s) as nat) as int, pow2(s) as int);
    m * pow2((e - s) as nat)
}

/// The distance of a multiple of the spacing from `n`, as plain arithmetic.
proof fn lemma_gap_of_multiple(units: nat, j: nat, p: nat, n: nat, d: nat, q: nat)
    requires
        units == j * p,
        q == p * d,
    ensures
        units * d == j * q,
{
    lemma_mul_is_associative(j as int, p as int, d as int);
}

/// Among the whole multiples of `q`, one that lies within half of `q` from `n` is
/// nearest to it, and a tie is possible at exactly half of `q` only.
proof fn lemma_closest_multiple(m: nat, j: nat, n: nat, q: nat)
    requires
        j != m,
        -(q as int) <= 2 * (m * q - n) <= q,
        q > 0,
    ensures
        ({
            let mine = if m * q >= n { m * q - n } else { n - m * q };
            let theirs = if j * q >= n { j * q - n } else { n - j * q };
            mine <= theirs && (mine == theirs ==> 2 * mine == q)
        }),
{
    if j > m {
        assert(j * q >= m * q + q) by (nonlinear_arith)
            requires
                j >= m + 1,
        ;
    } else {
        assert(j * q <= m * q - q) by (nonlinear_arith)
            requires
                j + 1 <= m,
        ;
    }
}

/// Rounding a quotient to 53 significant bits, ties to even, gives the nearest
/// double.
proof fn lemma_rounded_is_nearest(m: u64, s: nat, n: nat, d: nat, r: Binary64)
    requires
        d > 0,
        s <= 2000,
        HIDDEN_BIT <= m <= 2 * HIDDEN_BIT,
        HIDDEN_BIT * (pow2(s) * d) <= n < (2 * HIDDEN_BIT) * (pow2(s) * d),
        -((pow2(s) * d) as int) <= 2 * (m * (pow2(s) * d) - n) <= pow2(s) * d,
        2 * (m * (pow2(s) * d) - n) == pow2(s) * d ==> m % 2 == 0,
        2 * (n - m * (pow2(s) * d)) == pow2(s) * d ==> m % 2 == 0,
        r.bits == s * HIDDEN_BIT + m,
    ensures
        is_nearest(r, n, d),
        magnitude(r.bits) == m * pow2(s),
{
    lemma_pack(m, s, r.bits);
    lemma_pow2_pos(s);
    let p = pow2(s);
    let q = p * d;
    assert(q > 0) by (nonlinear_arith)
        requires
            p > 0,
            d > 0,
            q == p * d,
    ;
    lemma_gap_of_multiple(magnitude(r.bits), m as nat, p, n, d, q);
    assert(r.bits % 2 == m % 2) by {
        assert(s * HIDDEN_BIT == 2 * (s * 0x8_0000_0000_0000)) by (nonlinear_arith);
    }
    assert forall|o: Binary64|
        #![trigger magnitude(o.bits)]
        o.finite() && !o.negative() implies {
        &&& gap(magnitude(r.bits), n, d) <= gap(magnitude(o.bits), n, d)
        &&& gap(magnitude(r.bits), n, d) == gap(magnitude(o.bits), n, d) && o != r
            ==> r.bits % 2 == 0
    } by {
        if exponent(o.bits) > s {
            let j = lemma_magnitude_multiple(o.bits, s);
            lemma_gap_of_multiple(magnitude(o.bits), j, p, n, d, q);
            if j == m {
                lemma_magnitude_order(o.bits, r.bits);
            } else {
                lemma_closest_multiple(m as nat, j, n, q);
            }
        } else {
            lemma_magnitude_below_binade(o.bits, s);
            let u = magnitude(o.bits);
            assert(u * d < HIDDEN_BIT * q) by (nonlinear_arith)
                requires
                    u < HIDDEN_BIT * p,
                    d > 0,
                    q == p * d,
            ;
            if m != HIDDEN_BIT {
                lemma_closest_multiple(m as nat, HIDDEN_BIT as nat, n, q);
            }
        }
    }
}

/// Two doubles that are both nearest to the same quotient are the same.
pub proof fn nearest_is_unique(a: Binary64, b: Binary64, n: nat, d: nat)
    requires
        d > 0,
        is_nearest(a, n, d),
        is_nearest(b, n, d),
    ensures
        a == b,
{
    if a != b {
        let (x, y) = if a.bits < b.bits {
            (a, b)
        } else {
            (b, a)
        };
        assert(magnitude(x.bits) >= 0 && magnitude(y.bits) >= 0);
        let mid = Binary64 { bits: (x.bits + 1) as u64 };
        assert(mid.bits != y.bits);
        lemma_magnitude_order(x.bits, mid.bits);
        lemma_magnitude_order(mid.bits, y.bits);
        let ux = magnitude(x.bits);
        let um = magnitude(mid.bits);
        let uy = magnitude(y.bits);
        assert(ux * d < um * d && um * d < uy * d) by (nonlinear_arith)
            requires
                ux < um < uy,
                d > 0,
        ;
        assert(exponent(mid.bits) <= exponent(y.bits));
    }
}

/// Among the first `k` bit patterns there is a first one that is closest to `n / d`.
proof fn lemma_first_closest(k: u64, n: nat, d: nat) -> (r: u64)
    requires
        0 < k,
    ensures
        r < k,
        forall|o: u64|
            o < k ==> gap(magnitude(r), n, d) <= gap(#[trigger] magnitude(o), n, d),
        forall|o: u64| o < r ==> gap(magnitude(r), n, d) < gap(#[trigger] magnitude(o), n, d),
    decreases k,
{
    if k == 1 {
        0
    } else {
        let last = (k - 1) as u64;
        let before = lemma_first_closest(last, n, d);
        if gap(magnitude(last), n, d) < gap(magnitude(before), n, d) {
            last
        } else {
            before
        }
    }
}

/// Every quotient has a nearest double, which [`nearest`] denotes.
pub proof fn nearest_exists(n: nat, d: nat)
    requires
        d > 0,
    ensures
        is_nearest(nearest(n, d), n, d),
{
    let end: u64 = 0x7FF0_0000_0000_0000;
    assert forall|o: Binary64| o.finite() && !o.negative() implies o.bits < end by {
        assert(o.bits / HIDDEN_BIT < 0x800);
        assert(o.bits / HIDDEN_BIT != 0x7FF);
    }
    assert forall|b: u64| b < end implies exponent(b) != 0x7FF by {
        assert(b / HIDDEN_BIT < 0x7FF);
    }
    let first = lemma_first_closest(end, n, d);
    let next = (first + 1) as u64;
    let tie = next < end && gap(magnitude(next), n, d) == gap(magnitude(first), n, d);
    let r = Binary64 {
        bits: if first % 2 != 0 && tie {
            next
        } else {
            first
        },
    };
    assert forall|o: Binary64|
        #![trigger magnitude(o.bits)]
        o.finite() && !o.negative() implies {
        &&& gap(magnitude(r.bits), n, d) <= gap(magnitude(o.bits), n, d)
        &&& gap(magnitude(r.bits), n, d) == gap(magnitude(o.bits), n, d) && o != r ==> r.bits % 2
            == 0
    } by {
        if o != r && gap(magnitude(r.bits), n, d) == gap(magnitude(o.bits), n, d) && first % 2 != 0
            && !tie {
            assert(first < o.bits);
            assert(next < o.bits);
            lemma_magnitude_order(first, next);
            lemma_magnitude_order(next, o.bits);
            let (a, b, c) = (magnitude(first), magnitude(next), magnitude(o.bits));
            assert(a * d < b * d && b * d < c * d) by (nonlinear_arith)
                requires
                    a < b < c,
                    d > 0,
            ;
            assert(gap(b, n, d) <= gap(a, n, d));
        }
    }
    assert(is_nearest(r, n, d));
}

/// A quotient that is at most a double rounds to at most that.
pub proof fn nearest_is_at_most(n: nat, d: nat, x: Binary64)
    requires
        d > 0,
        x.finite(),
        !x.negative(),
        n <= magnitude(x.bits) * d,
    ensures
        magnitude(nearest(n, d).bits) <= magnitude(x.bits),
{
    nearest_exists(n, d);
    let r = nearest(n, d);
    let (a, b) = (magnitude(r.bits), magnitude(x.bits));
    if a > b {
        assert(a * d > b * d) by (nonlinear_arith)
            requires
                a > b,
                d > 0,
        ;
        assert(gap(a, n, d) <= gap(b, n, d));
    }
}

/// A quotient that is at least a double rounds to at least that.
pub proof fn nearest_is_at_least(n: nat, d: nat, x: Binary64)
    requires
        d > 0,
        x.finite(),
        !x.negative(),
        n >= magnitude(x.bits) * d,
    ensures
        magnitude(nearest(n, d).bits) >= magnitude(x.bits),
{
    nearest_exists(n, d);
    let r = nearest(n, d);
    let (a, b) = (magnitude(r.bits), magnitude(x.bits));
    if a < b {
        assert(a * d < b * d) by (nonlinear_arith)
            requires
                a < b,
                d > 0,
        ;
        assert(gap(a, n, d) <= gap(b, n, d));
    }
}

/// The bits of [`THREE_TENTHS`] spell a number between a quarter and one.
pub proof fn three_tenths_is_a_fraction()
    ensures
        pow2(1072) <= magnitude(THREE_TENTHS) <= pow2(1074),
        (Binary64 { bits: THREE_TENTHS }).finite(),
{
    lemma2_to64();
    lemma2_to64_rest();
    assert(THREE_TENTHS / HIDDEN_BIT == 0x3FD && THREE_TENTHS % HIDDEN_BIT == 0x3_3333_3333_3333);
    lemma_pow2_adds(52, 1020);
    lemma_pow2_adds(54, 1020);
    let m = (HIDDEN_BIT + fraction(THREE_TENTHS)) as nat;
    assert(pow2(52) <= m <= pow2(54));
    assert(pow2(52) * pow2(1020) <= m * pow2(1020) <= pow2(54) * pow2(1020)) by (nonlinear_arith)
        requires
            pow2(52) <= m <= pow2(54),
            pow2(1020) >= 0,
    ;
}

/// A quotient of zero rounds to zero.
pub proof fn nearest_to_zero_is_zero(d: nat)
    requires
        d > 0,
    ensures
        magnitude(nearest(0, d).bits) == 0,
{
    nearest_exists(0, d);
    let r = nearest(0, d);
    let zero = Binary64 { bits: 0 };
    assert(magnitude(zero.bits) == 0);
    assert(gap(magnitude(r.bits), 0, d) <= gap(0, 0, d));
    assert(magnitude(r.bits) == 0) by (nonlinear_arith)
        requires
            magnitude(r.bits) * d <= 0,
            d > 0,
    ;
}

/// The nearest double is the one that [`nearest`] denotes.
pub proof fn nearest_is(r: Binary64, n: nat, d: nat)
    requires
        d > 0,
        is_nearest(r, n, d),
    ensures
        nearest(n, d) == r,
{
    nearest_is_unique(nearest(n, d), r, n, d);
}

/// Scaling both sides of a division by `big` keeps what rounding needs of it.
proof fn lemma_rounded_at_scale(m: u64, n: nat, q: nat, big: nat)
    requires
        HIDDEN_BIT * q <= n < (2 * HIDDEN_BIT) * q,
        -(q as int) <= 2 * (m * q - n) <= q,
        2 * (m * q - n) == q ==> m % 2 == 0,
        2 * (n - m * q) == q ==> m % 2 == 0,
        big > 0,
    ensures
        HIDDEN_BIT * (big * q) <= n * big < (2 * HIDDEN_BIT) * (big * q),
        -((big * q) as int) <= 2 * (m * (big * q) - n * big) <= big * q,
        2 * (m * (big * q) - n * big) == big * q ==> m % 2 == 0,
        2 * (n * big - m * (big * q)) == big * q ==> m % 2 == 0,
{
    let x = 2 * (m * q - n);
    assert(m * (big * q) - n * big == (m * q - n) * big) by (nonlinear_arith);
    assert(x * big <= q * big) by (nonlinear_arith)
        requires
            x <= q,
            big > 0,
    ;
    assert((-q) * big <= x * big) by (nonlinear_arith)
        requires
            -(q as int) <= x,
            big > 0,
    ;
    assert(x * big == q * big ==> x == q) by (nonlinear_arith)
        requires
            big > 0,
    ;
    assert(x * big == (-q) * big ==> x == -q) by (nonlinear_arith)
        requires
            big > 0,
    ;
    assert(x * big == 2 * ((m * q - n) * big)) by (nonlinear_arith)
        requires
            x == 2 * (m * q - n),
    ;
    assert((-q) * big == -(big * q) && q * big == big * q) by (nonlinear_arith);
    assert(HIDDEN_BIT * (big * q) <= n * big) by (nonlinear_arith)
        requires
            HIDDEN_BIT * q <= n,
            big > 0,
    ;
    assert(n * big < (2 * HIDDEN_BIT) * (big * q)) by (nonlinear_arith)
        requires
            n < (2 * HIDDEN_BIT) * q,
            big > 0,
    ;
}

/// Rounds half to even: the whole number nearest to `n / d`.
fn divide_half_even(n: u128, d: u128) -> (m: u128)
    requires
        0 < d < 0x8000_0000_0000_0000_0000_0000_0000_0000,
        n / d < 0x8000_0000_0000_0000_0000_0000_0000_0000,
    ensures
        n / d <= m <= n / d + 1,
        -(d as int) <= 2 * (m * d - n) <= d,
        2 * (m * d - n) == d ==> m % 2 == 0,
        2 * (n - m * d) == d ==> m % 2 == 0,
{
    let q: u128 = n / d;
    let rem: u128 = n % d;
    proof {
        lemma_fundamental_div_mod(n as int, d as int);
        assert(d * q == q * d) by (nonlinear_arith);
        assert((q + 1) * d == q * d + d) by (nonlinear_arith);
    }
    if 2 * rem > d || (2 * rem == d && q % 2 == 1) {
        q + 1
    } else {
        q
    }
}

/// The double nearest to `p / q`, for a quotient from zero to one.
pub fn ratio(p: u64, q: u64) -> (r: Binary64)
    requires
        p <= q,
        0 < q <= 0x7FFF_FFFF_FFFF_FFFF,
    ensures
        r == nearest((p * pow2(1074)) as nat, q as nat),
        is_nearest(r, (p * pow2(1074)) as nat, q as nat),
        p == 0 ==> r.bits == 0,
        p > 0 ==> 900 <= exponent(r.bits) <= 1023 && !r.negative(),
{
    if p == 0 {
        let zero: Binary64 = Binary64 { bits: 0 };
        proof {
            assert(0 * pow2(1074) == 0);
            assert forall|o: Binary64|
                #![trigger magnitude(o.bits)]
                o.finite() && !o.negative() implies gap(magnitude(0), 0, q as nat) <= gap(
                magnitude(o.bits),
                0,
                q as nat,
            ) by {
                assert(magnitude(0) == 0);
                assert(magnitude(o.bits) * q >= 0) by (nonlinear_arith)
                    requires
                        magnitude(o.bits) >= 0,
                        q > 0,
                ;
            }
            assert(is_nearest(zero, 0, q as nat));
            nearest_is(zero, 0, q as nat);
        }
        return zero;
    }
    let wide: u128 = q as u128;
    let low: u128 = wide * 0x10_0000_0000_0000;
    let mut n: u128 = (p as u128) * 0x10_0000_0000_0000;
    let mut k: u64 = 52;
    proof {
        lemma2_to64();
        lemma2_to64_rest();
        lemma_pow2_adds(52, 63);
    }
    while n < low
        invariant
            0 < p <= q <= 0x7FFF_FFFF_FFFF_FFFF,
            wide == q,
            low == wide * 0x10_0000_0000_0000,
            52 <= k <= 115,
            n == p * pow2(k as nat),
            n < 2 * low,
            low < 0x8_0000_0000_0000_0000_0000_0000_0000,
            pow2(115) == 0x8_0000_0000_0000_0000_0000_0000_0000,
        decreases 115 - k,
    {
        proof {
            if k == 115 {
                assert(p * pow2(115) >= pow2(115)) by (nonlinear_arith)
                    requires
                        p >= 1,
                        pow2(115) >= 0,
                ;
            }
            lemma_pow2_unfold((k + 1) as nat);
            assert(p * (2 * pow2(k as nat)) == 2 * (p * pow2(k as nat))) by (nonlinear_arith);
        }
        n = n * 2;
        k = k + 1;
    }
    proof {
        lemma_fundamental_div_mod(n as int, wide as int);
        let quotient = n as int / wide as int;
        assert(HIDDEN_BIT <= quotient < 2 * HIDDEN_BIT) by (nonlinear_arith)
            requires
                HIDDEN_BIT * wide <= n < (2 * HIDDEN_BIT) * wide,
                n == wide * quotient + n as int % wide as int,
                0 <= n as int % wide as int,
                (n as int % wide as int) < wide,
                wide > 0,
        ;
    }
    let m: u128 = divide_half_even(n, wide);
    let s: u64 = 1074 - k;
    let r: Binary64 = Binary64 { bits: s * HIDDEN_BIT + m as u64 };
    proof {
        let num = (p * pow2(1074)) as nat;
        lemma_pow2_adds(k as nat, s as nat);
        lemma_pow2_pos(s as nat);
        let big = pow2(s as nat) as int;
        lemma_mul_is_associative(p as int, pow2(k as nat) as int, big);
        assert(num == n * big);
        lemma_rounded_at_scale(m as u64, n as nat, q as nat, big as nat);
        lemma_rounded_is_nearest(m as u64, s as nat, num, q as nat, r);
        lemma_pack(m as u64, s as nat, r.bits);
        nearest_is(r, num, q as nat);
    }
    r
}

/// Three tenths of a number that is zero or well inside the normal range, rounded
/// to the nearest double.
pub fn three_tenths_of(a: Binary64) -> (r: Binary64)
    requires
        a.bits == 0 || (900 <= exponent(a.bits) <= 1023 && !a.negative()),
    ensures
        r == nearest(magnitude(a.bits) * magnitude(THREE_TENTHS), pow2(1074)),
        is_nearest(r, magnitude(a.bits) * magnitude(THREE_TENTHS), pow2(1074)),
{
    let ghost d = pow2(1074);
    let ghost num = magnitude(a.bits) * magnitude(THREE_TENTHS);
    proof {
        lemma_pow2_pos(1074);
    }
    if a.bits == 0 {
        let zero: Binary64 = Binary64 { bits: 0 };
        proof {
            assert(magnitude(0) == 0);
            assert(num == 0) by (nonlinear_arith)
                requires
                    num == magnitude(0) * magnitude(THREE_TENTHS),
                    magnitude(0) == 0,
            ;
            assert forall|o: Binary64|
                #![trigger magnitude(o.bits)]
                o.finite() && !o.negative() implies gap(magnitude(0), 0, d) <= gap(
                magnitude(o.bits),
                0,
                d,
            ) by {
                assert(magnitude(o.bits) * d >= 0) by (nonlinear_arith)
                    requires
                        magnitude(o.bits) >= 0,
                        d > 0,
                ;
            }
            assert(is_nearest(zero, 0, d));
            nearest_is(zero, 0, d);
        }
        return zero;
    }
    let e: u64 = (a.bits / HIDDEN_BIT) % 0x800;
    let m: u128 = (HIDDEN_BIT + a.bits % HIDDEN_BIT) as u128;
    let t: u128 = m * 0x13_3333_3333_3333;
    // The product has 105 or 106 significant bits; 52 or 53 of them are cut off.
    let wide: bool = t >= 0x200_0000_0000_0000_0000_0000_0000;
    let cut: u128 = if wide {
        0x20_0000_0000_0000
    } else {
        0x10_0000_0000_0000
    };
    let rounded: u128 = divide_half_even(t, cut);
    let s: u64 = if wide {
        e - 2
    } else {
        e - 3
    };
    let r: Binary64 = Binary64 { bits: s * HIDDEN_BIT + rounded as u64 };
    proof {
        lemma2_to64_rest();
        let shift = (e - 1 + 1020) as nat;
        let big = pow2(shift);
        lemma_pow2_pos(shift);
        lemma_pow2_adds((e - 1) as nat, 1020);
        assert(magnitude(THREE_TENTHS) == 0x13_3333_3333_3333 * pow2(1020));
        let pe = pow2((e - 1) as nat) as int;
        let pc = pow2(1020) as int;
        assert(num == t * big) by (nonlinear_arith)
            requires
                num == (m * pe) * (0x13_3333_3333_3333 * pc),
                t == m * 0x13_3333_3333_3333,
                big == pe * pc,
        ;
        let cut_bits: nat = if wide {
            53
        } else {
            52
        };
        lemma_pow2_adds(s as nat, 1074);
        lemma_pow2_adds(shift, cut_bits);
        assert(s + 1074 == shift + cut_bits);
        assert(pow2(cut_bits) == cut);
        assert(pow2(s as nat) * d == pow2((s + 1074) as nat));
        assert(big * cut == pow2((shift + cut_bits) as nat));
        lemma_rounded_at_scale(rounded as u64, t as nat, cut as nat, big);
        lemma_rounded_is_nearest(rounded as u64, s as nat, num, d, r);
        nearest_is(r, num, d);
    }
    r
}

/// The bits of [`ONE`] spell one.
pub proof fn one_is_one()
    ensures
        (Binary64 { bits: ONE }).value() == pow2(1074),
        (Binary64 { bits: ONE }).finite(),
{
    lemma2_to64();
    lemma2_to64_rest();
    assert(ONE / HIDDEN_BIT == 0x3FF && ONE % HIDDEN_BIT == 0);
    lemma_pow2_adds(52, 1022);
}

/// The double that is exactly the whole number `x`. Zero has no sign.
pub fn of_i32(x: i32) -> (r: Binary64)
    ensures
        r.value() == x * pow2(1074),
        r.negative() == (x < 0),
        r.finite(),
        !r.nan(),
{
    if x == 0 {
        return Binary64 { bits: 0 };
    }
    let size: u64 = if x < 0 {
        (-(x as i64)) as u64
    } else {
        x as u64
    };
    let mut m: u64 = size;
    let mut k: u64 = 0;
    proof {
        lemma2_to64();
        lemma2_to64_rest();
    }
    while m < HIDDEN_BIT
        invariant
            1 <= size <= 0x8000_0000,
            m == size * pow2(k as nat),
            1 <= m < 2 * HIDDEN_BIT,
            k <= 52,
            pow2(52) == HIDDEN_BIT,
        decreases 52 - k,
    {
        proof {
            if k == 52 {
                assert(size * pow2(52) >= pow2(52)) by (nonlinear_arith)
                    requires
                        size >= 1,
                        pow2(52) >= 0,
                ;
            }
            lemma_pow2_unfold((k + 1) as nat);
            assert(size * (2 * pow2(k as nat)) == 2 * (size * pow2(k as nat)))
                by (nonlinear_arith);
        }
        m = m * 2;
        k = k + 1;
    }
    let s: u64 = 1074 - k;
    let bits: u64 = s * HIDDEN_BIT + m;
    proof {
        lemma_pack(m, s as nat, bits);
        lemma_pow2_adds(k as nat, s as nat);
        lemma_mul_is_associative(size as int, pow2(k as nat) as int, pow2(s as nat) as int);
        assert(magnitude(bits) == size * pow2(1074));
    }
    if x < 0 {
        proof {
            lemma_magnitude_ignores_sign((bits + SIGN_BIT) as u64);
            assert(((bits + SIGN_BIT) / (HIDDEN_BIT as int)) % 0x800 == (bits / HIDDEN_BIT)
                % 0x800) by {
                assert(SIGN_BIT == 0x800 * HIDDEN_BIT);
            }
            assert(-(size * pow2(1074)) == x * pow2(1074)) by (nonlinear_arith)
                requires
                    size == -x,
            ;
        }
        Binary64 { bits: bits + SIGN_BIT }
    } else {
        Binary64 { bits }
    }
}

} // verus!
