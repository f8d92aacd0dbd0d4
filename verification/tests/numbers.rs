//! Doubles by their bits, against the machine's own.
use handy::binary64::{of_i32, ratio, three_tenths_of, Binary64};

/// The double `x`.
fn number(x: f64) -> Binary64 {
    Binary64 { bits: x.to_bits() }
}

#[test]
fn quotients_round_as_the_machine_rounds() {
    for q in 1_u64..=130 {
        for p in 0..=q {
            let quotient = p as f64 / q as f64;
            assert_eq!(ratio(p, q).bits, quotient.to_bits(), "{p} / {q}");
            assert_eq!(
                three_tenths_of(ratio(p, q)).bits,
                (quotient * 0.3).to_bits(),
                "{p} / {q} * 0.3"
            );
        }
    }
    assert_eq!(ratio(1, 3).bits, 0x3FD5_5555_5555_5555);
    assert_eq!(ratio(1, 1).bits, 1.0_f64.to_bits());
    assert_eq!(ratio(0, 7).bits, 0);
}

#[test]
fn large_quotients_round_as_the_machine_rounds() {
    let big = 0x7FFF_FFFF_FFFF_FFFF_u64;
    assert_eq!(ratio(big, big).bits, 1.0_f64.to_bits());
    for p in [1_u64, 2, 3, 1 << 52, (1 << 53) - 1] {
        let q = 1_u64 << 53;
        assert_eq!(ratio(p, q).bits, (p as f64 / q as f64).to_bits());
    }
}

#[test]
fn order_is_that_of_the_machine() {
    let values = [
        f64::NEG_INFINITY,
        -1.5,
        -1.0,
        -f64::MIN_POSITIVE,
        -0.0,
        0.0,
        5e-324,
        0.3,
        1.0,
        1.0000000000000002,
        f64::MAX,
        f64::INFINITY,
        f64::NAN,
    ];
    for a in values {
        for b in values {
            assert_eq!(number(a).lt(number(b)), a < b, "{a} < {b}");
            assert_eq!(number(a).le(number(b)), a <= b, "{a} <= {b}");
        }
        assert_eq!(number(a).is_finite(), a.is_finite());
        assert_eq!(number(a).is_nan(), a.is_nan());
    }
}

#[test]
fn whole_numbers_are_exact() {
    for x in [0, 1, -1, 2, 3, 10, -1200, 420, 65_535, i32::MAX, i32::MIN] {
        assert_eq!(of_i32(x).bits, f64::from(x).to_bits(), "{x}");
    }
}

#[test]
fn numbers_are_equal_as_the_machine_compares() {
    let samples = [
        0.0,
        -0.0,
        1.0,
        -1.0,
        f64::MIN_POSITIVE,
        5e-324,
        f64::INFINITY,
        f64::NEG_INFINITY,
        f64::NAN,
        -f64::NAN,
    ];
    for a in samples {
        for b in samples {
            assert_eq!(number(a) == number(b), a == b, "{a} == {b}");
        }
    }
}

#[test]
fn whole_zero_has_no_sign() {
    assert_eq!(of_i32(0).bits, 0);
}
