//! The floating-point formats that distribution parameters come in, and the
//! IEEE-754 operations the constructors perform on them.
//!
//! A parameter is the bit pattern of an `f64` (a `u64`, from `f64::to_bits`)
//! or of an `f32` (a `u32`, from `f32::to_bits`).  `Binary` gives each its
//! format and a few primitive reads of its fields; the comparisons, halving
//! and the sign of a reciprocal are written once over those primitives and
//! proved against the model in `ieee`.
use crate::ieee::{
    float_eq, float_lt, half_is_positive, infinity_bits, is_finite, is_half_of, is_nan,
    is_pattern, lemma_classes, lemma_compare_by_bits, lemma_lower_exponent,
    lemma_reciprocal_of_finite, lemma_small_magnitude, one_pattern,
    reciprocal_is_positive, sign_is_negative, sign_weight, two_pattern, unsigned_bits,
    valid_format,
};
use vstd::arithmetic::power2::{lemma2_to64, lemma2_to64_rest, lemma_pow2_adds, pow2};
use vstd::prelude::*;

verus! {

/// A binary interchange format held as its bit pattern.
pub trait Binary: Copy + Sized {
    /// The width of the exponent field.
    spec fn exponent_width() -> nat;

    /// The width of the fraction field.
    spec fn fraction_width() -> nat;

    /// The number that the bits spell.
    spec fn pattern(self) -> nat;

    /// `+0.0`.
    spec fn zero_value() -> Self;

    /// `1.0`.
    spec fn one_value() -> Self;

    /// `2.0`.
    spec fn two_value() -> Self;

    /// The format is one the model holds for, its sign bit fits below 2^63,
    /// and the constants have their patterns.
    proof fn lemma_format()
        ensures
            valid_format(Self::exponent_width(), Self::fraction_width()),
            sign_weight(Self::exponent_width(), Self::fraction_width()) <= pow2(63),
            Self::zero_value().pattern() == 0,
            Self::one_value().pattern() == one_pattern(
                Self::exponent_width(),
                Self::fraction_width(),
            ),
            Self::two_value().pattern() == two_pattern(
                Self::exponent_width(),
                Self::fraction_width(),
            ),
    ;

    /// Every value is a pattern of the format, and no two values share one.
    proof fn lemma_pattern(x: Self, y: Self)
        ensures
            is_pattern(Self::exponent_width(), Self::fraction_width(), x.pattern()),
            x.pattern() == y.pattern() ==> x == y,
    ;

    /// The pattern without its sign bit.
    fn unsigned_part(self) -> (u: u64)
        ensures
            u == unsigned_bits(Self::exponent_width(), Self::fraction_width(), self.pattern()),
    ;

    /// Whether the sign bit is set.
    fn sign_negative(self) -> (r: bool)
        ensures
            r == sign_is_negative(Self::exponent_width(), Self::fraction_width(), self.pattern()),
    ;

    /// The value with the given sign bit and unsigned bits.
    fn from_parts(negative: bool, unsigned: u64) -> (r: Self)
        requires
            unsigned < sign_weight(Self::exponent_width(), Self::fraction_width()),
        ensures
            r.pattern() == if negative {
                sign_weight(Self::exponent_width(), Self::fraction_width()) + unsigned as nat
            } else {
                unsigned as nat
            },
    ;

    /// The unsigned bits of an infinity.
    fn infinity_unsigned() -> (r: u64)
        ensures
            r == infinity_bits(Self::exponent_width(), Self::fraction_width()),
    ;

    /// The weight of the lowest exponent bit, `2^p`.
    fn exponent_unit() -> (r: u64)
        ensures
            r == pow2(Self::fraction_width()),
    ;

    /// `+0.0`.
    fn zero() -> (r: Self)
        ensures
            r == Self::zero_value(),
    ;

    /// `1.0`.
    fn one() -> (r: Self)
        ensures
            r == Self::one_value(),
    ;

    /// `2.0`.
    fn two() -> (r: Self)
        ensures
            r == Self::two_value(),
    ;
}

/// IEEE-754 `a < b`.
pub open spec fn lt<N: Binary>(a: N, b: N) -> bool {
    float_lt(N::exponent_width(), N::fraction_width(), a.pattern(), b.pattern())
}

/// IEEE-754 `a == b`.
pub open spec fn eq<N: Binary>(a: N, b: N) -> bool {
    float_eq(N::exponent_width(), N::fraction_width(), a.pattern(), b.pattern())
}

/// IEEE-754 `a > 0.0`.
pub open spec fn positive<N: Binary>(a: N) -> bool {
    lt(N::zero_value(), a)
}

/// `a` is a NaN.
pub open spec fn nan<N: Binary>(a: N) -> bool {
    is_nan(N::exponent_width(), N::fraction_width(), a.pattern())
}

/// `a` is `+inf`.
pub open spec fn positive_infinity<N: Binary>(a: N) -> bool {
    a.pattern() == infinity_bits(N::exponent_width(), N::fraction_width())
}

/// `a` is the smallest positive subnormal (whose pattern is 1).
pub open spec fn smallest_subnormal<N: Binary>(a: N) -> bool {
    a.pattern() == 1
}

/// `h` is the IEEE-754 result of `0.5 * k`.
pub open spec fn half_of<N: Binary>(h: N, k: N) -> bool {
    is_half_of(N::exponent_width(), N::fraction_width(), h.pattern(), k.pattern())
}

/// IEEE-754 `0.5 * k > 0.0`.
pub open spec fn half_positive<N: Binary>(k: N) -> bool {
    half_is_positive(N::exponent_width(), N::fraction_width(), k.pattern())
}

/// IEEE-754 `1.0 / a > 0.0`.
pub open spec fn reciprocal_of_positive<N: Binary>(a: N) -> bool {
    reciprocal_is_positive(N::exponent_width(), N::fraction_width(), a.pattern())
}

/// Whether `a` is a NaN (`f64::is_nan`).
pub fn is_nan_value<N: Binary>(a: N) -> (r: bool)
    ensures
        r == nan(a),
{
    proof {
        N::lemma_format();
        N::lemma_pattern(a, a);
        lemma_classes(N::exponent_width(), N::fraction_width(), a.pattern());
    }
    a.unsigned_part() > N::infinity_unsigned()
}

/// IEEE-754 `a < b`.
pub fn less_than<N: Binary>(a: N, b: N) -> (r: bool)
    ensures
        r == lt(a, b),
{
    let w = Ghost(N::exponent_width());
    let p = Ghost(N::fraction_width());
    if is_nan_value(a) || is_nan_value(b) {
        return false;
    }
    proof {
        N::lemma_format();
        N::lemma_pattern(a, b);
        N::lemma_pattern(b, a);
        lemma_compare_by_bits(w@, p@, a.pattern(), b.pattern());
    }
    let ua = a.unsigned_part();
    let ub = b.unsigned_part();
    let na = a.sign_negative();
    let nb = b.sign_negative();
    if na && nb {
        ub < ua
    } else if na {
        !(ua == 0 && ub == 0)
    } else if nb {
        false
    } else {
        ua < ub
    }
}

/// IEEE-754 `a == b`.
pub fn equal<N: Binary>(a: N, b: N) -> (r: bool)
    ensures
        r == eq(a, b),
{
    let w = Ghost(N::exponent_width());
    let p = Ghost(N::fraction_width());
    if is_nan_value(a) || is_nan_value(b) {
        return false;
    }
    proof {
        N::lemma_format();
        N::lemma_pattern(a, b);
        N::lemma_pattern(b, a);
        lemma_compare_by_bits(w@, p@, a.pattern(), b.pattern());
    }
    let ua = a.unsigned_part();
    let ub = b.unsigned_part();
    if a.sign_negative() == b.sign_negative() {
        ua == ub
    } else {
        ua == 0 && ub == 0
    }
}

/// IEEE-754 `a > 0.0`.
pub fn is_positive<N: Binary>(a: N) -> (r: bool)
    ensures
        r == positive(a),
{
    less_than(N::zero(), a)
}

/// IEEE-754 `0.5 * b`.
pub fn halve<N: Binary>(b: N) -> (r: N)
    ensures
        half_of(r, b),
{
    let w = Ghost(N::exponent_width());
    let p = Ghost(N::fraction_width());
    proof {
        N::lemma_format();
        N::lemma_pattern(b, b);
        lemma_classes(w@, p@, b.pattern());
        lemma_pow2_adds(w@, p@);
    }
    let u = b.unsigned_part();
    let unit = N::exponent_unit();
    if u >= N::infinity_unsigned() {
        return b;
    }
    let negative = b.sign_negative();
    proof {
        assert(pow2(w@ + p@) == pow2(w@) * pow2(p@));
        lemma2_to64_rest();
        assert(2 * unit <= sign_weight(w@, p@)) by {
            vstd::arithmetic::power2::lemma_pow2_unfold(w@);
            vstd::arithmetic::power2::lemma_pow2_pos((w@ - 1) as nat);
            vstd::arithmetic::mul::lemma_mul_inequality(
                2,
                pow2(w@) as int,
                pow2(p@) as int,
            );
        }
    }
    let h = if u >= 2 * unit {
        proof {
            lemma_lower_exponent(p@, u as nat);
        }
        u - unit
    } else {
        proof {
            lemma_small_magnitude(p@, u as nat);
        }
        let q = u / 2;
        let h = if u % 2 == 0 || q % 2 == 0 {
            q
        } else {
            q + 1
        };
        proof {
            lemma_small_magnitude(p@, h as nat);
        }
        h
    };
    let r = N::from_parts(negative, h);
    proof {
        N::lemma_pattern(r, r);
        lemma_classes(w@, p@, r.pattern());
        if negative {
            vstd::arithmetic::div_mod::lemma_fundamental_div_mod_converse(
                r.pattern() as int,
                sign_weight(w@, p@) as int,
                1,
                h as int,
            );
        } else {
            vstd::arithmetic::div_mod::lemma_small_mod(h as nat, sign_weight(w@, p@));
        }
        assert(unsigned_bits(w@, p@, r.pattern()) == h);
    }
    r
}

/// IEEE-754 `1.0 / a > 0.0`.
pub fn reciprocal_positive<N: Binary>(a: N) -> (r: bool)
    ensures
        r == reciprocal_of_positive(a),
{
    let w = Ghost(N::exponent_width());
    let p = Ghost(N::fraction_width());
    proof {
        N::lemma_format();
        N::lemma_pattern(a, a);
        lemma_classes(w@, p@, a.pattern());
        if !sign_is_negative(w@, p@, a.pattern()) && is_finite(w@, p@, a.pattern()) {
            lemma_reciprocal_of_finite(w@, p@, a.pattern());
        }
    }
    !a.sign_negative() && a.unsigned_part() < N::infinity_unsigned()
}

/// Facts about the binary64 format.
pub proof fn lemma_binary64()
    ensures
        pow2(52) == 0x10_0000_0000_0000,
        pow2(63) == 0x8000_0000_0000_0000,
        sign_weight(11, 52) == 0x8000_0000_0000_0000,
        infinity_bits(11, 52) == 0x7FF0_0000_0000_0000,
        one_pattern(11, 52) == 0x3FF0_0000_0000_0000,
        two_pattern(11, 52) == 0x4000_0000_0000_0000,
{
    lemma2_to64();
    lemma2_to64_rest();
    lemma_pow2_adds(11, 52);
}

/// binary64: an `f64` held as `f64::to_bits`.
impl Binary for u64 {
    open spec fn exponent_width() -> nat {
        11
    }

    open spec fn fraction_width() -> nat {
        52
    }

    open spec fn pattern(self) -> nat {
        self as nat
    }

    open spec fn zero_value() -> u64 {
        0
    }

    open spec fn one_value() -> u64 {
        0x3FF0_0000_0000_0000
    }

    open spec fn two_value() -> u64 {
        0x4000_0000_0000_0000
    }

    proof fn lemma_format() {
        lemma_binary64();
    }

    proof fn lemma_pattern(x: u64, y: u64) {
        lemma_binary64();
    }

    fn unsigned_part(self) -> (u: u64) {
        proof {
            lemma_binary64();
        }
        self % 0x8000_0000_0000_0000
    }

    fn sign_negative(self) -> (r: bool) {
        proof {
            lemma_binary64();
        }
        self >= 0x8000_0000_0000_0000
    }

    fn from_parts(negative: bool, unsigned: u64) -> (r: u64) {
        proof {
            lemma_binary64();
        }
        if negative {
            0x8000_0000_0000_0000 + unsigned
        } else {
            unsigned
        }
    }

    fn infinity_unsigned() -> (r: u64) {
        proof {
            lemma_binary64();
        }
        0x7FF0_0000_0000_0000
    }

    fn exponent_unit() -> (r: u64) {
        proof {
            lemma_binary64();
        }
        0x10_0000_0000_0000
    }

    fn zero() -> (r: u64) {
        0
    }

    fn one() -> (r: u64) {
        0x3FF0_0000_0000_0000
    }

    fn two() -> (r: u64) {
        0x4000_0000_0000_0000
    }
}

/// Facts about the binary32 format.
pub proof fn lemma_binary32()
    ensures
        pow2(23) == 0x80_0000,
        pow2(31) == 0x8000_0000,
        pow2(63) == 0x8000_0000_0000_0000,
        sign_weight(8, 23) == 0x8000_0000,
        infinity_bits(8, 23) == 0x7F80_0000,
        one_pattern(8, 23) == 0x3F80_0000,
        two_pattern(8, 23) == 0x4000_0000,
{
    lemma2_to64();
    lemma2_to64_rest();
    lemma_pow2_adds(8, 23);
}

/// binary32: an `f32` held as `f32::to_bits`.
impl Binary for u32 {
    open spec fn exponent_width() -> nat {
        8
    }

    open spec fn fraction_width() -> nat {
        23
    }

    open spec fn pattern(self) -> nat {
        self as nat
    }

    open spec fn zero_value() -> u32 {
        0
    }

    open spec fn one_value() -> u32 {
        0x3F80_0000
    }

    open spec fn two_value() -> u32 {
        0x4000_0000
    }

    proof fn lemma_format() {
        lemma_binary32();
    }

    proof fn lemma_pattern(x: u32, y: u32) {
        lemma_binary32();
    }

    fn unsigned_part(self) -> (u: u64) {
        proof {
            lemma_binary32();
        }
        (self % 0x8000_0000) as u64
    }

    fn sign_negative(self) -> (r: bool) {
        proof {
            lemma_binary32();
        }
        self >= 0x8000_0000
    }

    fn from_parts(negative: bool, unsigned: u64) -> (r: u32) {
        proof {
            lemma_binary32();
        }
        let u = unsigned as u32;
        if negative {
            0x8000_0000 + u
        } else {
            u
        }
    }

    fn infinity_unsigned() -> (r: u64) {
        proof {
            lemma_binary32();
        }
        0x7F80_0000
    }

    fn exponent_unit() -> (r: u64) {
        proof {
            lemma_binary32();
        }
        0x80_0000
    }

    fn zero() -> (r: u32) {
        0
    }

    fn one() -> (r: u32) {
        0x3F80_0000
    }

    fn two() -> (r: u32) {
        0x4000_0000
    }
}

} // verus!
