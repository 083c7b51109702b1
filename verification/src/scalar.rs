//! Single-precision numbers as the flock's rules see them.
//!
//! The steering rules never do arithmetic on their own: they compare measured
//! lengths with thresholds and decide. A [`Scalar`] therefore carries an
//! IEEE-754 binary32 number as its bit pattern, and this module gives the
//! pattern its numeric meaning and an ordering that is proved to agree with it.

use vstd::prelude::*;
use vstd::arithmetic::power2::{
    lemma2_to64, lemma_pow2_adds, lemma_pow2_pos, lemma_pow2_strictly_increases, lemma_pow2_unfold,
    pow2,
};

verus! {

/// Bit pattern of the sign bit.
pub const SIGN_BIT: u32 = 0x8000_0000;

/// Bit pattern of positive infinity; every larger magnitude is a NaN.
pub const INFINITY_BITS: u32 = 0x7f80_0000;

/// Bit pattern of the smallest positive normal number, `2^-126`.
pub const MIN_NORMAL_BITS: u32 = 0x0080_0000;

/// The significand of the number whose bit pattern without the sign is
/// `magnitude`: the 23 fraction bits, with the implicit leading one of a
/// normal number put in front.
pub open spec fn significand_of(magnitude: nat) -> nat {
    if magnitude / 0x80_0000 == 0 {
        magnitude % 0x80_0000
    } else {
        0x80_0000 + magnitude % 0x80_0000
    }
}

/// The binade of the number whose bit pattern without the sign is
/// `magnitude`: the biased exponent less one, and zero for a subnormal.
pub open spec fn binade_of(magnitude: nat) -> nat {
    if magnitude / 0x80_0000 == 0 {
        0
    } else {
        (magnitude / 0x80_0000 - 1) as nat
    }
}

/// The absolute value, in units of `2^-149`, of the number whose bit pattern
/// without the sign is `magnitude`: its significand times two to its binade.
///
/// The pattern of infinity is measured by the same formula, which puts it one
/// binade above the largest finite number.
pub open spec fn units_of(magnitude: nat) -> nat {
    significand_of(magnitude) * pow2(binade_of(magnitude))
}

/// A larger magnitude pattern stands for a larger absolute value.
pub proof fn lemma_units_increase(a: nat, b: nat)
    requires
        a < b,
    ensures
        units_of(a) < units_of(b),
{
    let ea = a / 0x80_0000;
    let eb = b / 0x80_0000;
    let sa = significand_of(a);
    let sb = significand_of(b);
    let p = pow2(binade_of(a));
    let q = pow2(binade_of(b));
    assert(a == ea * 0x80_0000 + a % 0x80_0000 && b == eb * 0x80_0000 + b % 0x80_0000);
    assert(ea <= eb);
    lemma_pow2_pos(binade_of(a));
    lemma_pow2_pos(binade_of(b));
    if ea == eb {
        assert(sa * p < sb * p) by (nonlinear_arith)
            requires
                sa < sb,
                p > 0,
        ;
    } else if ea == 0 {
        assert(p == 1) by {
            lemma2_to64();
        }
        assert(sa * 1 < sb * q) by (nonlinear_arith)
            requires
                sa < 0x80_0000,
                0x80_0000 <= sb,
                q >= 1,
        ;
    } else {
        lemma_pow2_unfold(ea);
        if ea < eb - 1 {
            lemma_pow2_strictly_increases(ea, (eb - 1) as nat);
        }
        assert(2 * p <= q);
        assert(sa * p < sb * q) by (nonlinear_arith)
            requires
                sa < 2 * 0x80_0000,
                0x80_0000 <= sb,
                p > 0,
                2 * p <= q,
        ;
    }
}

/// Only the all-zero magnitude stands for zero.
pub proof fn lemma_units_zero(a: nat)
    ensures
        units_of(a) == 0 <==> a == 0,
{
    assert(units_of(0) == 0) by {
        assert(significand_of(0) == 0);
        assert(0 * pow2(binade_of(0)) == 0) by (nonlinear_arith);
    }
    if a > 0 {
        lemma_units_increase(0, a);
    }
}

/// Significand and binade of a magnitude pattern.
fn split(magnitude: u32) -> (parts: (u64, u32))
    requires
        magnitude < SIGN_BIT,
    ensures
        parts.0 == significand_of(magnitude as nat),
        parts.1 == binade_of(magnitude as nat),
        parts.0 < 0x100_0000,
        parts.1 <= 254,
{
    let e: u32 = magnitude / 0x80_0000;
    let f: u32 = magnitude % 0x80_0000;
    if e == 0 {
        (f as u64, 0)
    } else {
        ((0x80_0000 + f) as u64, e - 1)
    }
}

/// Two to the power `k`.
fn two_to(k: u32) -> (p: u64)
    requires
        k < 27,
    ensures
        p == pow2(k as nat),
        0 < p <= 0x400_0000,
{
    let mut p: u64 = 1;
    let mut i: u32 = 0;
    proof {
        lemma2_to64();
    }
    while i < k
        invariant
            i <= k < 27,
            p == pow2(i as nat),
            0 < p,
            pow2(26) == 0x400_0000,
        decreases k - i,
    {
        proof {
            lemma_pow2_unfold((i + 1) as nat);
            if i + 1 < 26 {
                lemma_pow2_strictly_increases((i + 1) as nat, 26);
            }
        }
        p = p * 2;
        i += 1;
    }
    proof {
        if k < 26 {
            lemma_pow2_strictly_increases(k as nat, 26);
        }
    }
    p
}

/// Compares `wx * 2^hx` with `wy * 2^hy` for `hx >= hy`: the result is -1, 0
/// or 1 as the first is less than, equal to or greater than the second.
fn weigh_aligned(wx: u64, hx: u32, wy: u64, hy: u32) -> (sign: i8)
    requires
        hy <= hx <= 254,
        wx < 0x800_0000,
        wy < 0x800_0000,
    ensures
        sign == -1 <==> wx * pow2(hx as nat) < wy * pow2(hy as nat),
        sign == 0 <==> wx * pow2(hx as nat) == wy * pow2(hy as nat),
        sign == 1 <==> wx * pow2(hx as nat) > wy * pow2(hy as nat),
        -1 <= sign <= 1,
{
    let k: u32 = hx - hy;
    let ghost base = pow2(hy as nat);
    let ghost lift = pow2(k as nat);
    proof {
        lemma_pow2_adds(k as nat, hy as nat);
        lemma_pow2_pos(hy as nat);
        lemma_pow2_pos(k as nat);
        assert(wx * pow2(hx as nat) == (wx * lift) * base) by (nonlinear_arith)
            requires
                pow2(hx as nat) == lift * base,
        ;
    }
    if k >= 27 {
        proof {
            lemma2_to64();
            if k > 27 {
                lemma_pow2_strictly_increases(27, k as nat);
            }
            assert(wx > 0 ==> (wx * lift) * base > wy * base) by (nonlinear_arith)
                requires
                    lift >= 0x800_0000,
                    wy < 0x800_0000,
                    base > 0,
            ;
            assert(wx == 0 ==> (wx * lift) * base == 0) by (nonlinear_arith);
            assert(wy > 0 ==> wy * base > 0) by (nonlinear_arith)
                requires
                    base > 0,
            ;
            assert(wy == 0 ==> wy * base == 0) by (nonlinear_arith);
        }
        if wx == 0 {
            if wy == 0 {
                0
            } else {
                -1
            }
        } else {
            1
        }
    } else {
        let p: u64 = two_to(k);
        assert(wx * p < 0x20_0000_0000_0000) by (nonlinear_arith)
            requires
                wx < 0x800_0000,
                p <= 0x400_0000,
        ;
        let lifted: u64 = wx * p;
        proof {
            let l = lifted as int;
            let r = wy as int;
            let b = base as int;
            assert(l < r <==> l * b < r * b) by (nonlinear_arith)
                requires
                    b > 0,
            ;
            assert(l == r <==> l * b == r * b) by (nonlinear_arith)
                requires
                    b > 0,
            ;
        }
        if lifted < wy {
            -1
        } else if lifted == wy {
            0
        } else {
            1
        }
    }
}

/// Compares `cx` times the value of magnitude `x` with `cy` times the value
/// of magnitude `y`: the result is -1, 0 or 1 as the first is less than,
/// equal to or greater than the second.
fn weigh(cx: u64, x: u32, cy: u64, y: u32) -> (sign: i8)
    requires
        x < SIGN_BIT,
        y < SIGN_BIT,
        1 <= cx <= 5,
        1 <= cy <= 5,
    ensures
        sign == -1 <==> cx * units_of(x as nat) < cy * units_of(y as nat),
        sign == 0 <==> cx * units_of(x as nat) == cy * units_of(y as nat),
        sign == 1 <==> cx * units_of(x as nat) > cy * units_of(y as nat),
        -1 <= sign <= 1,
{
    let (sx, hx) = split(x);
    let (sy, hy) = split(y);
    assert(cx * sx < 0x800_0000 && cy * sy < 0x800_0000) by (nonlinear_arith)
        requires
            cx <= 5,
            cy <= 5,
            sx < 0x100_0000,
            sy < 0x100_0000,
    ;
    let wx: u64 = cx * sx;
    let wy: u64 = cy * sy;
    proof {
        assert(cx * units_of(x as nat) == wx * pow2(hx as nat)) by (nonlinear_arith)
            requires
                units_of(x as nat) == sx * pow2(hx as nat),
                wx == cx * sx,
        ;
        assert(cy * units_of(y as nat) == wy * pow2(hy as nat)) by (nonlinear_arith)
            requires
                units_of(y as nat) == sy * pow2(hy as nat),
                wy == cy * sy,
        ;
    }
    if hx >= hy {
        weigh_aligned(wx, hx, wy, hy)
    } else {
        let mirrored: i8 = weigh_aligned(wy, hy, wx, hx);
        -mirrored
    }
}

/// An IEEE-754 binary32 number, held as its bit pattern.
#[derive(Clone, Copy, Debug, PartialEq, Eq, Structural)]
pub struct Scalar {
    pub bits: u32,
}

impl Scalar {
    /// The bit pattern with the sign bit cleared.
    pub open spec fn magnitude(self) -> nat {
        if self.bits >= SIGN_BIT {
            (self.bits - SIGN_BIT) as nat
        } else {
            self.bits as nat
        }
    }

    /// Whether the sign bit is set.
    pub open spec fn is_negative(self) -> bool {
        self.bits >= SIGN_BIT
    }

    /// Whether the pattern is a NaN: exponent all ones, fraction not zero.
    pub open spec fn nan(self) -> bool {
        self.magnitude() > INFINITY_BITS
    }

    /// Whether the pattern is a positive or negative zero.
    pub open spec fn zero_valued(self) -> bool {
        self.magnitude() == 0
    }

    /// Whether the number is positive, finite and normal, so that its
    /// reciprocal is finite too and a vector of this length can be scaled to
    /// unit length.
    pub open spec fn positive_normal(self) -> bool {
        MIN_NORMAL_BITS <= self.bits < INFINITY_BITS
    }

    /// The number held, in units of `2^-149`. Meaningful unless `nan()`.
    pub open spec fn units(self) -> int {
        if self.is_negative() {
            -(units_of(self.magnitude()) as int)
        } else {
            units_of(self.magnitude()) as int
        }
    }

    /// Numeric `<`: false as soon as either side is a NaN.
    pub open spec fn less_than(self, other: Scalar) -> bool {
        !self.nan() && !other.nan() && self.units() < other.units()
    }

    /// Numeric `>=`: false as soon as either side is a NaN.
    pub open spec fn at_least(self, other: Scalar) -> bool {
        !self.nan() && !other.nan() && self.units() >= other.units()
    }

    /// Whether the number is neither an infinity nor a NaN.
    pub open spec fn finite(self) -> bool {
        self.magnitude() < INFINITY_BITS
    }

    /// Whether the number is positive or negative infinity.
    pub open spec fn infinite(self) -> bool {
        self.magnitude() == INFINITY_BITS
    }

    /// Whether this number is less than a fifth of `whole`, with no rounding
    /// of the fifth: five times this number is still less than `whole`. A
    /// fifth of an infinity is that infinity. False as soon as either side
    /// is a NaN.
    pub open spec fn less_than_fifth_of(self, whole: Scalar) -> bool {
        if self.infinite() || whole.infinite() {
            self.less_than(whole)
        } else {
            !self.nan() && !whole.nan() && 5 * self.units() < whole.units()
        }
    }

    /// Wraps a bit pattern.
    pub fn from_bits(bits: u32) -> (s: Scalar)
        ensures
            s.bits == bits,
    {
        Scalar { bits }
    }

    /// The bit pattern.
    pub fn to_bits(self) -> (bits: u32)
        ensures
            bits == self.bits,
    {
        self.bits
    }

    /// Positive zero, the value every accumulator is cleared to.
    pub fn zero() -> (s: Scalar)
        ensures
            s.bits == 0,
            s.zero_valued(),
            !s.is_negative(),
    {
        Scalar { bits: 0 }
    }

    fn magnitude_bits(self) -> (m: u32)
        ensures
            m == self.magnitude(),
            m < SIGN_BIT,
    {
        if self.bits >= SIGN_BIT {
            self.bits - SIGN_BIT
        } else {
            self.bits
        }
    }

    /// Whether the pattern is a NaN.
    pub fn is_nan(self) -> (r: bool)
        ensures
            r == self.nan(),
    {
        self.magnitude_bits() > INFINITY_BITS
    }

    /// Whether the number is positive, finite and normal.
    pub fn is_positive_normal(self) -> (r: bool)
        ensures
            r == self.positive_normal(),
    {
        MIN_NORMAL_BITS <= self.bits && self.bits < INFINITY_BITS
    }

    /// The position of the number on the number line among all patterns: the
    /// magnitude pattern, negated under a sign bit.
    fn rank(self) -> (k: i64)
        ensures
            k == rank_of(self),
    {
        let m: u32 = self.magnitude_bits();
        if self.bits >= SIGN_BIT {
            -(m as i64)
        } else {
            m as i64
        }
    }

    /// Numeric `<` on two patterns.
    pub fn lt(self, other: Scalar) -> (r: bool)
        ensures
            r == self.less_than(other),
    {
        if self.is_nan() || other.is_nan() {
            return false;
        }
        let a: i64 = self.rank();
        let b: i64 = other.rank();
        proof {
            lemma_rank_orders(self, other);
        }
        a < b
    }

    /// Numeric `>=` on two patterns.
    pub fn ge(self, other: Scalar) -> (r: bool)
        ensures
            r == self.at_least(other),
    {
        if self.is_nan() || other.is_nan() {
            return false;
        }
        let a: i64 = self.rank();
        let b: i64 = other.rank();
        proof {
            lemma_rank_orders(self, other);
        }
        a >= b
    }

    /// Whether this number is less than a fifth of `whole`.
    pub fn is_below_fifth_of(self, whole: Scalar) -> (r: bool)
        ensures
            r == self.less_than_fifth_of(whole),
    {
        if self.is_nan() || whole.is_nan() {
            return false;
        }
        let a: u32 = self.magnitude_bits();
        let b: u32 = whole.magnitude_bits();
        if a == INFINITY_BITS || b == INFINITY_BITS {
            return self.lt(whole);
        }
        proof {
            lemma_units_zero(a as nat);
            lemma_units_zero(b as nat);
        }
        if self.bits >= SIGN_BIT {
            if whole.bits >= SIGN_BIT {
                weigh(1, b, 5, a) == -1
            } else {
                !(a == 0 && b == 0)
            }
        } else {
            if whole.bits >= SIGN_BIT {
                false
            } else {
                weigh(5, a, 1, b) == -1
            }
        }
    }
}

/// The signed magnitude pattern of a scalar.
pub open spec fn rank_of(s: Scalar) -> int {
    if s.is_negative() {
        -(s.magnitude() as int)
    } else {
        s.magnitude() as int
    }
}

/// Signed magnitude patterns are ordered exactly as the numbers they stand
/// for, the two zeros being one place.
pub proof fn lemma_rank_orders(a: Scalar, b: Scalar)
    ensures
        rank_of(a) < rank_of(b) <==> a.units() < b.units(),
{
    let ma = a.magnitude();
    let mb = b.magnitude();
    lemma_units_zero(ma);
    lemma_units_zero(mb);
    if ma < mb {
        lemma_units_increase(ma, mb);
    }
    if mb < ma {
        lemma_units_increase(mb, ma);
    }
}

} // verus!
