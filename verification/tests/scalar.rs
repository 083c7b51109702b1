use boids::scalar::{INFINITY_BITS, MIN_NORMAL_BITS, SIGN_BIT};
use boids::Scalar;

fn scalar(value: f32) -> Scalar {
    Scalar::from_bits(value.to_bits())
}

fn samples() -> Vec<f32> {
    vec![
        0.0,
        -0.0,
        f32::from_bits(1),
        -f32::from_bits(1),
        f32::from_bits(0x007f_ffff),
        f32::MIN_POSITIVE,
        -f32::MIN_POSITIVE,
        1.0e-20,
        0.2,
        0.99999994,
        1.0,
        1.0000001,
        -1.0,
        1.4,
        5.0,
        7.0,
        10.0,
        25.0,
        -25.0,
        1.0e20,
        f32::MAX,
        f32::MIN,
        f32::INFINITY,
        f32::NEG_INFINITY,
        f32::NAN,
        -f32::NAN,
        f32::from_bits(0x7f80_0001),
    ]
}

#[test]
fn bit_pattern_round_trips() {
    for value in samples() {
        assert_eq!(scalar(value).to_bits(), value.to_bits());
    }
    assert_eq!(Scalar::from_bits(0x40a0_0000).to_bits(), 5.0f32.to_bits());
}

#[test]
fn named_patterns_are_the_numbers_they_name() {
    assert_eq!(SIGN_BIT, (-0.0f32).to_bits());
    assert_eq!(INFINITY_BITS, f32::INFINITY.to_bits());
    assert_eq!(MIN_NORMAL_BITS, f32::MIN_POSITIVE.to_bits());
    assert_eq!(Scalar::zero().to_bits(), 0.0f32.to_bits());
}

#[test]
fn lt_agrees_with_the_numbers() {
    for a in samples() {
        for b in samples() {
            assert_eq!(scalar(a).lt(scalar(b)), a < b, "{a:?} < {b:?}");
        }
    }
}

#[test]
fn ge_agrees_with_the_numbers() {
    for a in samples() {
        for b in samples() {
            assert_eq!(scalar(a).ge(scalar(b)), a >= b, "{a:?} >= {b:?}");
        }
    }
}

#[test]
fn the_two_zeros_are_equal_in_order() {
    assert!(!scalar(-0.0).lt(scalar(0.0)));
    assert!(!scalar(0.0).lt(scalar(-0.0)));
    assert!(scalar(-0.0).ge(scalar(0.0)));
    assert!(scalar(0.0).ge(scalar(-0.0)));
}

#[test]
fn nan_is_neither_below_nor_at_least() {
    for value in samples() {
        assert!(!scalar(f32::NAN).lt(scalar(value)));
        assert!(!scalar(value).lt(scalar(f32::NAN)));
        assert!(!scalar(f32::NAN).ge(scalar(value)));
        assert!(!scalar(value).ge(scalar(f32::NAN)));
        assert!(!scalar(f32::NAN).is_below_fifth_of(scalar(value)));
        assert!(!scalar(value).is_below_fifth_of(scalar(f32::NAN)));
    }
}

#[test]
fn classification_agrees_with_the_numbers() {
    for value in samples() {
        assert_eq!(scalar(value).is_nan(), value.is_nan(), "{value:?}");
        assert_eq!(
            scalar(value).is_positive_normal(),
            value.is_normal() && value > 0.0,
            "{value:?}"
        );
    }
}

#[test]
fn positive_normal_edges() {
    assert!(scalar(f32::MIN_POSITIVE).is_positive_normal());
    assert!(!Scalar::from_bits(0x007f_ffff).is_positive_normal());
    assert!(scalar(f32::MAX).is_positive_normal());
    assert!(!scalar(f32::INFINITY).is_positive_normal());
    assert!(!scalar(0.0).is_positive_normal());
    assert!(!scalar(-1.0).is_positive_normal());
}

// The exact value of a finite single-precision number, in units of 2^-149,
// as a pair (significand, binary shift).
fn parts(value: f32) -> (i128, u32) {
    let bits = value.to_bits();
    let magnitude = bits & 0x7fff_ffff;
    let exponent = magnitude >> 23;
    let fraction = (magnitude & 0x007f_ffff) as i128;
    let (significand, shift) =
        if exponent == 0 { (fraction, 0) } else { (fraction + 0x0080_0000, exponent - 1) };
    (if bits >> 31 == 1 { -significand } else { significand }, shift)
}

// Whether 5 * a < b, for finite numbers that are zero or at most 90 binades apart.
fn five_times_below(a: f32, b: f32) -> bool {
    let (sa, mut ha) = parts(a);
    let (sb, mut hb) = parts(b);
    if sa == 0 {
        ha = hb;
    }
    if sb == 0 {
        hb = ha;
    }
    let base = ha.min(hb);
    5 * (sa << (ha - base)) < (sb << (hb - base))
}

#[test]
fn is_below_fifth_of_is_exact() {
    let values: Vec<f32> = vec![
        0.0, -0.0, 0.19999999, 0.2, 0.99999994, 1.0, 1.0000001, 1.3999999, 1.4, 1.4000001, 4.9999995,
        5.0, 7.0, 25.0, -0.2, -1.0, -1.4, -5.0, -7.0, 0.5, 2.5, 1024.0, 204.8, 204.79999,
    ];
    for a in values.iter() {
        for b in values.iter() {
            assert_eq!(
                scalar(*a).is_below_fifth_of(scalar(*b)),
                five_times_below(*a, *b),
                "5 * {a:?} < {b:?}"
            );
        }
    }
}

#[test]
fn is_below_fifth_of_agrees_with_the_division_where_it_is_exact() {
    // Dividing by five is exact for these, and an infinity stays what it is.
    let wholes: Vec<f32> =
        vec![5.0, 10.0, 2.5, 25.0, 0.0, -5.0, -25.0, f32::INFINITY, f32::NEG_INFINITY];
    for whole in wholes {
        for value in samples() {
            assert_eq!(
                scalar(value).is_below_fifth_of(scalar(whole)),
                value < whole / 5.0,
                "{value:?} < {whole:?} / 5"
            );
        }
    }
}

#[test]
fn fifth_of_five_is_one() {
    assert!(!scalar(1.0).is_below_fifth_of(scalar(5.0)));
    assert!(scalar(0.99999994).is_below_fifth_of(scalar(5.0)));
    assert!(!scalar(1.0000001).is_below_fifth_of(scalar(5.0)));
}

#[test]
fn fifth_is_not_rounded() {
    // A fifth of 7 is 1.4, which lies between two representable numbers. The
    // nearer one is below 1.4 and therefore below a fifth of 7.
    let nearest = 7.0f32 / 5.0;
    assert_eq!(nearest.to_bits(), 0x3fb3_3333);
    assert!(scalar(nearest).is_below_fifth_of(scalar(7.0)));
    assert!(!Scalar::from_bits(0x3fb3_3334).is_below_fifth_of(scalar(7.0)));
}

#[test]
fn fifth_across_distant_binades() {
    assert!(scalar(1.0e-30).is_below_fifth_of(scalar(1.0e30)));
    assert!(!scalar(1.0e30).is_below_fifth_of(scalar(1.0e-30)));
    assert!(scalar(f32::from_bits(1)).is_below_fifth_of(scalar(f32::MAX)));
    assert!(!scalar(f32::MAX).is_below_fifth_of(scalar(f32::from_bits(1))));
    assert!(scalar(f32::MAX).is_below_fifth_of(scalar(f32::INFINITY)));
    assert!(scalar(f32::NEG_INFINITY).is_below_fifth_of(scalar(f32::MIN)));
    assert!(!scalar(f32::INFINITY).is_below_fifth_of(scalar(f32::INFINITY)));
    assert!(!scalar(f32::MIN).is_below_fifth_of(scalar(f32::NEG_INFINITY)));
    assert!(!scalar(f32::INFINITY).is_below_fifth_of(scalar(f32::MAX)));
    assert!(scalar(0.0).is_below_fifth_of(scalar(f32::from_bits(1))));
    assert!(!scalar(0.0).is_below_fifth_of(scalar(0.0)));
    assert!(!scalar(f32::from_bits(1)).is_below_fifth_of(scalar(f32::from_bits(5))));
    assert!(scalar(f32::from_bits(1)).is_below_fifth_of(scalar(f32::from_bits(6))));
}

#[test]
fn fifth_with_negative_numbers() {
    assert!(scalar(-1.0).is_below_fifth_of(scalar(0.0)));
    assert!(scalar(-1.0).is_below_fifth_of(scalar(-4.0)));
    assert!(!scalar(-1.0).is_below_fifth_of(scalar(-5.0)));
    assert!(!scalar(-1.0).is_below_fifth_of(scalar(-6.0)));
    assert!(!scalar(1.0).is_below_fifth_of(scalar(-6.0)));
    assert!(!scalar(-0.0).is_below_fifth_of(scalar(0.0)));
    assert!(scalar(-0.0).is_below_fifth_of(scalar(1.0)));
}
