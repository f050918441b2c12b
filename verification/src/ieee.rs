//! IEEE-754 binary interchange formats, read off their bit patterns.
//!
//! A format has a sign bit, a biased exponent field of `w` bits and a
//! fraction field of `p` bits (binary64: `w = 11`, `p = 52`; binary32:
//! `w = 8`, `p = 23`).  A pattern is the natural number that its bits spell.
//! Every finite value is an integer multiple of the smallest subnormal
//! `2^(1 - bias - p)`, so a finite magnitude is stated as that integer
//! (`magnitude`), and the value of a pattern is
//! `scaled_value * 2^(1 - bias - p)`.
use vstd::arithmetic::div_mod::*;
use vstd::arithmetic::mul::*;
use vstd::arithmetic::power2::*;
use vstd::prelude::*;

verus! {

/// The widths the lemmas below hold for: at least two exponent bits and one
/// fraction bit.
pub open spec fn valid_format(w: nat, p: nat) -> bool {
    w >= 2 && p >= 1
}

/// A pattern of the format: a number below `2^(1 + w + p)`.
pub open spec fn is_pattern(w: nat, p: nat, b: nat) -> bool {
    b < 2 * pow2(w + p)
}

/// The weight of the sign bit, `2^(w + p)`.
pub open spec fn sign_weight(w: nat, p: nat) -> nat {
    pow2(w + p)
}

/// The exponent field with all bits set, `2^w - 1`.
pub open spec fn exponent_all_ones(w: nat) -> nat {
    (pow2(w) - 1) as nat
}

/// The exponent bias, `2^(w - 1) - 1`.
pub open spec fn bias(w: nat) -> nat {
    (pow2((w - 1) as nat) - 1) as nat
}

/// The unsigned bits of an infinity: exponent all ones, fraction zero.
pub open spec fn infinity_bits(w: nat, p: nat) -> nat {
    exponent_all_ones(w) * pow2(p)
}

/// The pattern of `1.0`: the exponent field holds the bias.
pub open spec fn one_pattern(w: nat, p: nat) -> nat {
    bias(w) * pow2(p)
}

/// The pattern of `2.0`: the exponent field holds the bias plus one.
pub open spec fn two_pattern(w: nat, p: nat) -> nat {
    (bias(w) + 1) * pow2(p)
}

/// `1.0` counted in units of the smallest subnormal is `2^unit_shift`.
pub open spec fn unit_shift(w: nat, p: nat) -> nat {
    (p + bias(w) - 1) as nat
}

/// Whether the sign bit is set.
pub open spec fn sign_is_negative(w: nat, p: nat, b: nat) -> bool {
    b >= sign_weight(w, p)
}

/// The pattern without its sign bit.
pub open spec fn unsigned_bits(w: nat, p: nat, b: nat) -> nat {
    b % sign_weight(w, p)
}

/// The exponent field of the unsigned bits `u`.
pub open spec fn exponent_field(p: nat, u: nat) -> nat {
    u / pow2(p)
}

/// The fraction field of the unsigned bits `u`.
pub open spec fn fraction_field(p: nat, u: nat) -> nat {
    u % pow2(p)
}

/// The magnitude of a finite pattern whose unsigned bits are `u`, in units of
/// the smallest subnormal: a subnormal is its fraction, a normal number is
/// `(2^p + fraction) * 2^(exponent - 1)`.
pub open spec fn magnitude_of(p: nat, u: nat) -> nat {
    let e = exponent_field(p, u);
    let f = fraction_field(p, u);
    if e == 0 {
        f
    } else {
        (pow2(p) + f) * pow2((e - 1) as nat)
    }
}

/// The magnitude of `b` (meaningful when `b` is finite).
pub open spec fn magnitude(w: nat, p: nat, b: nat) -> nat {
    magnitude_of(p, unsigned_bits(w, p, b))
}

/// The value of a finite `b`, in units of the smallest subnormal.
pub open spec fn scaled_value(w: nat, p: nat, b: nat) -> int {
    if sign_is_negative(w, p, b) {
        -magnitude(w, p, b)
    } else {
        magnitude(w, p, b) as int
    }
}

/// `b` is a NaN: exponent field all ones and a nonzero fraction.
pub open spec fn is_nan(w: nat, p: nat, b: nat) -> bool {
    exponent_field(p, unsigned_bits(w, p, b)) == exponent_all_ones(w) && fraction_field(
        p,
        unsigned_bits(w, p, b),
    ) != 0
}

/// `b` is an infinity: exponent field all ones and a zero fraction.
pub open spec fn is_infinite(w: nat, p: nat, b: nat) -> bool {
    exponent_field(p, unsigned_bits(w, p, b)) == exponent_all_ones(w) && fraction_field(
        p,
        unsigned_bits(w, p, b),
    ) == 0
}

/// `b` is neither a NaN nor an infinity.
pub open spec fn is_finite(w: nat, p: nat, b: nat) -> bool {
    exponent_field(p, unsigned_bits(w, p, b)) < exponent_all_ones(w)
}

/// IEEE-754 `a < b`: false when either side is a NaN, otherwise the order of
/// the extended reals.
pub open spec fn float_lt(w: nat, p: nat, a: nat, b: nat) -> bool {
    &&& !is_nan(w, p, a)
    &&& !is_nan(w, p, b)
    &&& if is_infinite(w, p, a) && is_infinite(w, p, b) {
        sign_is_negative(w, p, a) && !sign_is_negative(w, p, b)
    } else if is_infinite(w, p, a) {
        sign_is_negative(w, p, a)
    } else if is_infinite(w, p, b) {
        !sign_is_negative(w, p, b)
    } else {
        scaled_value(w, p, a) < scaled_value(w, p, b)
    }
}

/// IEEE-754 `a == b`: false when either side is a NaN; `+0.0 == -0.0`.
pub open spec fn float_eq(w: nat, p: nat, a: nat, b: nat) -> bool {
    &&& !is_nan(w, p, a)
    &&& !is_nan(w, p, b)
    &&& if is_infinite(w, p, a) || is_infinite(w, p, b) {
        is_infinite(w, p, a) && is_infinite(w, p, b) && sign_is_negative(w, p, a)
            == sign_is_negative(w, p, b)
    } else {
        scaled_value(w, p, a) == scaled_value(w, p, b)
    }
}

/// The integer nearest to `v / 2`, ties going to the even one.
pub open spec fn rounded_half(v: nat) -> nat {
    if v % 2 == 0 || (v / 2) % 2 == 0 {
        v / 2
    } else {
        v / 2 + 1
    }
}

/// `r` is the IEEE-754 result of `0.5 * b` (round to nearest, ties to even).
/// The exact half of a finite magnitude `v` is `v / 2` units; above the
/// subnormal range it is representable, and below it every whole number of
/// units is, so the rounded result is `rounded_half(v)`.  A NaN stays a NaN;
/// signs and infinities are kept.
pub open spec fn is_half_of(w: nat, p: nat, r: nat, b: nat) -> bool {
    if is_nan(w, p, b) {
        is_nan(w, p, r)
    } else {
        &&& !is_nan(w, p, r)
        &&& sign_is_negative(w, p, r) == sign_is_negative(w, p, b)
        &&& is_infinite(w, p, r) == is_infinite(w, p, b)
        &&& is_finite(w, p, b) ==> magnitude(w, p, r) == rounded_half(magnitude(w, p, b))
    }
}

/// IEEE-754 `0.5 * k > 0.0`: `k` has a clear sign bit, is not a NaN, and its
/// half does not round to zero.
pub open spec fn half_is_positive(w: nat, p: nat, k: nat) -> bool {
    &&& !is_nan(w, p, k)
    &&& !sign_is_negative(w, p, k)
    &&& is_infinite(w, p, k) || rounded_half(magnitude(w, p, k)) > 0
}

/// A positive real `num / den`, counted in units of the smallest subnormal,
/// rounds to `+0.0` exactly when it is at most half of one unit (a tie goes
/// to the even neighbour, which is zero).
pub open spec fn rounds_to_zero(num: nat, den: nat) -> bool {
    2 * num <= den
}

/// IEEE-754 `1.0 / b > 0.0`.  For a finite positive `b` of magnitude `v` the
/// exact quotient is `2^(2 * unit_shift) / v` units; `1.0 / +0.0` is `+inf`;
/// `1.0 / +inf` is `+0.0`; a negative sign gives a negative quotient.
pub open spec fn reciprocal_is_positive(w: nat, p: nat, b: nat) -> bool {
    if is_nan(w, p, b) || sign_is_negative(w, p, b) || is_infinite(w, p, b) {
        false
    } else if magnitude(w, p, b) == 0 {
        true
    } else {
        !rounds_to_zero(pow2(2 * unit_shift(w, p)), magnitude(w, p, b))
    }
}

/// A number splits into whole multiples of `s` and a remainder.
pub proof fn lemma_split(u: nat, s: nat)
    requires
        s > 0,
    ensures
        u == (u / s) * s + u % s,
        u % s < s,
        forall|k: nat| #![trigger k * s] (u / s >= k) <==> (u >= k * s),
{
    lemma_fundamental_div_mod(u as int, s as int);
    lemma_mod_pos_bound(u as int, s as int);
    lemma_mul_is_commutative(s as int, (u / s) as int);
    let q = u / s;
    let r = u % s;
    assert forall|k: nat| #![trigger k * s] (u / s >= k) <==> (u >= k * s) by {
        if q >= k {
            lemma_mul_inequality(k as int, q as int, s as int);
        } else {
            lemma_mul_inequality((q + 1) as int, k as int, s as int);
            lemma_mul_is_distributive_add_other_way(s as int, q as int, 1);
        }
    }
}

/// The three classes of a pattern, read off its unsigned bits.
pub proof fn lemma_classes(w: nat, p: nat, b: nat)
    requires
        valid_format(w, p),
        is_pattern(w, p, b),
    ensures
        unsigned_bits(w, p, b) < sign_weight(w, p),
        2 <= pow2(p) <= infinity_bits(w, p) < sign_weight(w, p),
        is_nan(w, p, b) <==> unsigned_bits(w, p, b) > infinity_bits(w, p),
        is_infinite(w, p, b) <==> unsigned_bits(w, p, b) == infinity_bits(w, p),
        is_finite(w, p, b) <==> unsigned_bits(w, p, b) < infinity_bits(w, p),
        sign_is_negative(w, p, b) ==> b == sign_weight(w, p) + unsigned_bits(w, p, b),
        !sign_is_negative(w, p, b) ==> b == unsigned_bits(w, p, b),
{
    let s = pow2(p);
    let sw = sign_weight(w, p);
    lemma_pow2_adds(w, p);
    lemma_pow2_pos(w);
    lemma_pow2_pos(p);
    assert(sw == pow2(w) * s);
    if b >= sw {
        lemma_fundamental_div_mod_converse(b as int, sw as int, 1, b - sw);
    } else {
        lemma_fundamental_div_mod_converse(b as int, sw as int, 0, b as int);
    }
    let u = unsigned_bits(w, p, b);
    lemma_split(u, s);
    let ones = exponent_all_ones(w);
    assert(u / s >= pow2(w) <==> u >= pow2(w) * s);
    assert(u / s >= ones <==> u >= ones * s);
    lemma_mul_is_distributive_sub_other_way(s as int, pow2(w) as int, 1);
    assert(infinity_bits(w, p) == sw - s);
    lemma_pow2_strictly_increases(0, w);
    assert(pow2(0) == 1) by {
        lemma2_to64();
    }
    lemma_mul_strict_inequality(1, pow2(w) as int, s as int);
    lemma_pow2_strictly_increases(0, p);
    lemma_mul_inequality(1, ones as int, s as int);
    if u / s == ones {
        assert(u == infinity_bits(w, p) + u % s);
    }
}

/// Bounds of the magnitude within its binade.
pub proof fn lemma_magnitude_bounds(p: nat, u: nat)
    ensures
        exponent_field(p, u) == 0 ==> magnitude_of(p, u) == u && u < pow2(p),
        exponent_field(p, u) > 0 ==> pow2(p) * pow2((exponent_field(p, u) - 1) as nat)
            <= magnitude_of(p, u),
        exponent_field(p, u) > 0 ==> magnitude_of(p, u) < pow2(p + exponent_field(p, u)),
        magnitude_of(p, u) == 0 <==> u == 0,
{
    let s = pow2(p);
    lemma_pow2_pos(p);
    lemma_split(u, s);
    let e = exponent_field(p, u);
    let f = fraction_field(p, u);
    if e == 0 {
        assert(u < 1 * s);
        lemma_small_mod(u, s);
    } else {
        let q = pow2((e - 1) as nat);
        lemma_pow2_pos((e - 1) as nat);
        lemma_mul_inequality(s as int, (s + f) as int, q as int);
        lemma_mul_strict_inequality((s + f) as int, (2 * s) as int, q as int);
        lemma_pow2_unfold(e);
        lemma_pow2_adds(p, e);
        assert((2 * s) * q == s * pow2(e)) by (nonlinear_arith)
            requires
                pow2(e) == 2 * q,
        ;
        assert(s * q > 0) by (nonlinear_arith)
            requires
                s > 0,
                q > 0,
        ;
        assert(u >= 1 * s);
    }
}

/// The magnitude grows strictly with the unsigned bits.
pub proof fn lemma_magnitude_strictly_increasing(p: nat, u1: nat, u2: nat)
    requires
        u1 < u2,
    ensures
        magnitude_of(p, u1) < magnitude_of(p, u2),
{
    let s = pow2(p);
    lemma_pow2_pos(p);
    lemma_split(u1, s);
    lemma_split(u2, s);
    let e1 = exponent_field(p, u1);
    let e2 = exponent_field(p, u2);
    let f1 = fraction_field(p, u1);
    let f2 = fraction_field(p, u2);
    lemma_magnitude_bounds(p, u1);
    lemma_magnitude_bounds(p, u2);
    lemma_div_is_ordered(u1 as int, u2 as int, s as int);
    if e1 == e2 {
        assert(f1 < f2);
        if e1 > 0 {
            let q = pow2((e1 - 1) as nat);
            lemma_pow2_pos((e1 - 1) as nat);
            lemma_mul_strict_inequality((s + f1) as int, (s + f2) as int, q as int);
        }
    } else {
        let q2 = pow2((e2 - 1) as nat);
        lemma_pow2_pos((e2 - 1) as nat);
        if e1 == 0 {
            assert(s <= s * q2) by (nonlinear_arith)
                requires
                    q2 >= 1,
            ;
        } else {
            lemma_pow2_adds(p, e1);
            lemma_pow2_adds(p, (e2 - 1) as nat);
            if p + e1 < p + e2 - 1 {
                lemma_pow2_strictly_increases(p + e1, (p + e2 - 1) as nat);
            }
        }
    }
}

/// The magnitude orders exactly as the unsigned bits do.
pub proof fn lemma_magnitude_order(p: nat, u1: nat, u2: nat)
    ensures
        u1 < u2 <==> magnitude_of(p, u1) < magnitude_of(p, u2),
        u1 == u2 <==> magnitude_of(p, u1) == magnitude_of(p, u2),
{
    if u1 < u2 {
        lemma_magnitude_strictly_increasing(p, u1, u2);
    } else if u2 < u1 {
        lemma_magnitude_strictly_increasing(p, u2, u1);
    }
}

/// IEEE `<` and `==` on two non-NaN patterns, read off their sign bits and
/// unsigned bits.
pub proof fn lemma_compare_by_bits(w: nat, p: nat, a: nat, b: nat)
    requires
        valid_format(w, p),
        is_pattern(w, p, a),
        is_pattern(w, p, b),
        !is_nan(w, p, a),
        !is_nan(w, p, b),
    ensures
        float_lt(w, p, a, b) == (if sign_is_negative(w, p, a) && sign_is_negative(w, p, b) {
            unsigned_bits(w, p, b) < unsigned_bits(w, p, a)
        } else if sign_is_negative(w, p, a) {
            !(unsigned_bits(w, p, a) == 0 && unsigned_bits(w, p, b) == 0)
        } else if sign_is_negative(w, p, b) {
            false
        } else {
            unsigned_bits(w, p, a) < unsigned_bits(w, p, b)
        }),
        float_eq(w, p, a, b) == (if sign_is_negative(w, p, a) == sign_is_negative(w, p, b) {
            unsigned_bits(w, p, a) == unsigned_bits(w, p, b)
        } else {
            unsigned_bits(w, p, a) == 0 && unsigned_bits(w, p, b) == 0
        }),
{
    lemma_classes(w, p, a);
    lemma_classes(w, p, b);
    let ua = unsigned_bits(w, p, a);
    let ub = unsigned_bits(w, p, b);
    lemma_magnitude_order(p, ua, ub);
    lemma_magnitude_bounds(p, ua);
    lemma_magnitude_bounds(p, ub);
}

/// Two non-NaN values compare in exactly one of three ways.
pub proof fn lemma_trichotomy(w: nat, p: nat, a: nat, b: nat)
    requires
        !is_nan(w, p, a),
        !is_nan(w, p, b),
    ensures
        float_lt(w, p, a, b) || float_eq(w, p, a, b) || float_lt(w, p, b, a),
        !(float_lt(w, p, a, b) && float_eq(w, p, a, b)),
        !(float_lt(w, p, a, b) && float_lt(w, p, b, a)),
        !(float_eq(w, p, a, b) && float_lt(w, p, b, a)),
{
}

/// A non-NaN pattern is fixed by its sign, whether it is infinite, and its
/// magnitude.
pub proof fn lemma_value_determines_bits(w: nat, p: nat, a: nat, b: nat)
    requires
        valid_format(w, p),
        is_pattern(w, p, a),
        is_pattern(w, p, b),
        !is_nan(w, p, a),
        !is_nan(w, p, b),
        sign_is_negative(w, p, a) == sign_is_negative(w, p, b),
        is_infinite(w, p, a) == is_infinite(w, p, b),
        is_finite(w, p, a) ==> magnitude(w, p, a) == magnitude(w, p, b),
    ensures
        a == b,
{
    lemma_classes(w, p, a);
    lemma_classes(w, p, b);
    lemma_magnitude_order(p, unsigned_bits(w, p, a), unsigned_bits(w, p, b));
}

/// Halving has exactly one result on a non-NaN value.
pub proof fn lemma_half_unique(w: nat, p: nat, h1: nat, h2: nat, k: nat)
    requires
        valid_format(w, p),
        is_pattern(w, p, h1),
        is_pattern(w, p, h2),
        is_pattern(w, p, k),
        !is_nan(w, p, k),
        is_half_of(w, p, h1, k),
        is_half_of(w, p, h2, k),
    ensures
        h1 == h2,
{
    lemma_classes(w, p, h1);
    lemma_classes(w, p, k);
    lemma_value_determines_bits(w, p, h1, h2);
}

/// Magnitudes below two binades' worth of units are the unsigned bits.
pub proof fn lemma_small_magnitude(p: nat, u: nat)
    requires
        u < 2 * pow2(p),
    ensures
        magnitude_of(p, u) == u,
{
    let s = pow2(p);
    lemma_pow2_pos(p);
    lemma_split(u, s);
    lemma_magnitude_bounds(p, u);
    if u >= 1 * s {
        assert(!(u >= 2 * s));
        assert(exponent_field(p, u) == 1);
        lemma_pow2_unfold(1);
        assert(pow2(0) == 1) by {
            lemma2_to64();
        }
    }
}

/// Taking one from the exponent field of a normal number above the lowest
/// binade halves its magnitude exactly.
pub proof fn lemma_lower_exponent(p: nat, u: nat)
    requires
        u >= 2 * pow2(p),
    ensures
        magnitude_of(p, u) == 2 * magnitude_of(p, (u - pow2(p)) as nat),
{
    let s = pow2(p);
    lemma_pow2_pos(p);
    lemma_split(u, s);
    let e = exponent_field(p, u);
    let f = fraction_field(p, u);
    assert(e >= 2);
    let v = (u - s) as nat;
    lemma_mul_is_distributive_sub_other_way(s as int, e as int, 1);
    lemma_fundamental_div_mod_converse(v as int, s as int, (e - 1) as int, f as int);
    lemma_pow2_unfold((e - 1) as nat);
    let q = pow2((e - 2) as nat);
    assert((s + f) * pow2((e - 1) as nat) == 2 * ((s + f) * q)) by (nonlinear_arith)
        requires
            pow2((e - 1) as nat) == 2 * q,
    ;
}

/// Every finite magnitude lies below `2^(p + 2^w - 2)`.
pub proof fn lemma_finite_magnitude_bound(w: nat, p: nat, u: nat)
    requires
        valid_format(w, p),
        u < infinity_bits(w, p),
    ensures
        magnitude_of(p, u) < pow2((p + pow2(w) - 2) as nat),
{
    let s = pow2(p);
    lemma_pow2_pos(p);
    lemma_pow2_unfold(w);
    lemma_pow2_pos((w - 1) as nat);
    lemma_split(u, s);
    lemma_magnitude_bounds(p, u);
    let e = exponent_field(p, u);
    assert(e < exponent_all_ones(w));
    if e == 0 {
        if p < p + pow2(w) - 2 {
            lemma_pow2_strictly_increases(p, (p + pow2(w) - 2) as nat);
        }
    } else if p + e < p + pow2(w) - 2 {
        lemma_pow2_strictly_increases(p + e, (p + pow2(w) - 2) as nat);
    }
}

/// The reciprocal of a finite value with a clear sign bit is positive: no
/// finite quotient is small enough to round to zero.
pub proof fn lemma_reciprocal_of_finite(w: nat, p: nat, b: nat)
    requires
        valid_format(w, p),
        is_pattern(w, p, b),
        is_finite(w, p, b),
        !sign_is_negative(w, p, b),
    ensures
        reciprocal_is_positive(w, p, b),
{
    lemma_classes(w, p, b);
    lemma_finite_magnitude_bound(w, p, unsigned_bits(w, p, b));
    lemma_pow2_unfold(w);
    lemma_pow2_pos((w - 1) as nat);
    let n = 2 * unit_shift(w, p);
    lemma_pow2_unfold(n + 1);
    if p + pow2(w) - 2 < n + 1 {
        lemma_pow2_strictly_increases((p + pow2(w) - 2) as nat, n + 1);
    }
}

/// Comparing a computed half with zero is `half_is_positive`.
pub proof fn lemma_half_is_positive(w: nat, p: nat, h: nat, k: nat)
    requires
        valid_format(w, p),
        is_pattern(w, p, h),
        is_pattern(w, p, k),
        is_half_of(w, p, h, k),
    ensures
        float_lt(w, p, 0, h) == half_is_positive(w, p, k),
{
    lemma_zero(w, p);
    lemma_classes(w, p, h);
    lemma_classes(w, p, k);
}

/// The half of a positive value is zero only for the smallest subnormal.
pub proof fn lemma_half_vanishes(w: nat, p: nat, k: nat)
    requires
        valid_format(w, p),
        is_pattern(w, p, k),
        float_lt(w, p, 0, k),
    ensures
        half_is_positive(w, p, k) <==> is_infinite(w, p, k) || magnitude(w, p, k) >= 2,
        !half_is_positive(w, p, k) <==> k == 1,
{
    lemma_zero(w, p);
    lemma_classes(w, p, k);
    lemma_pow2_pos(p);
    let u = unsigned_bits(w, p, k);
    if is_finite(w, p, k) {
        lemma_magnitude_bounds(p, u);
        lemma_small_magnitude(p, 1);
        if u >= 2 {
            lemma_magnitude_order(p, 1, u);
        }
    }
}

/// The pattern 0 is `+0.0`.
pub proof fn lemma_zero(w: nat, p: nat)
    requires
        valid_format(w, p),
    ensures
        is_pattern(w, p, 0),
        !is_nan(w, p, 0),
        is_finite(w, p, 0),
        !sign_is_negative(w, p, 0),
        unsigned_bits(w, p, 0) == 0,
        magnitude(w, p, 0) == 0,
{
    lemma_pow2_pos(w + p);
    lemma_pow2_pos(p);
    lemma_pow2_strictly_increases(0, w);
    assert(pow2(0) == 1) by {
        lemma2_to64();
    }
    lemma_classes(w, p, 0);
    lemma_magnitude_bounds(p, 0);
}

/// What the library needs to know of `1.0` and `2.0`.
pub proof fn lemma_one_and_two(w: nat, p: nat)
    requires
        valid_format(w, p),
    ensures
        is_pattern(w, p, one_pattern(w, p)),
        is_pattern(w, p, two_pattern(w, p)),
        is_finite(w, p, one_pattern(w, p)),
        is_finite(w, p, two_pattern(w, p)),
        !is_nan(w, p, one_pattern(w, p)),
        !is_nan(w, p, two_pattern(w, p)),
        !sign_is_negative(w, p, one_pattern(w, p)),
        !sign_is_negative(w, p, two_pattern(w, p)),
        magnitude(w, p, one_pattern(w, p)) == pow2(unit_shift(w, p)),
        magnitude(w, p, two_pattern(w, p)) == pow2(unit_shift(w, p) + 1),
        pow2(unit_shift(w, p)) >= 2,
        float_lt(w, p, 0, one_pattern(w, p)),
        float_lt(w, p, 0, two_pattern(w, p)),
        float_lt(w, p, one_pattern(w, p), two_pattern(w, p)),
        reciprocal_is_positive(w, p, one_pattern(w, p)),
        reciprocal_is_positive(w, p, two_pattern(w, p)),
{
    let s = pow2(p);
    let bw = bias(w);
    lemma_pow2_pos(p);
    lemma_pow2_unfold(w);
    lemma_pow2_unfold((w - 1) as nat);
    lemma_pow2_pos((w - 2) as nat);
    lemma_pow2_adds(w, p);
    let one = one_pattern(w, p);
    let two = two_pattern(w, p);
    // both exponent fields lie strictly between 0 and all ones
    assert(1 <= bw && bw + 1 < exponent_all_ones(w));
    lemma_mul_strict_inequality((bw + 1) as int, exponent_all_ones(w) as int, s as int);
    lemma_mul_strict_inequality(exponent_all_ones(w) as int, pow2(w) as int, s as int);
    lemma_mul_strict_inequality(bw as int, (bw + 1) as int, s as int);
    lemma_mul_is_distributive_add_other_way(s as int, bw as int, 1);
    lemma_small_mod(one, sign_weight(w, p));
    lemma_small_mod(two, sign_weight(w, p));
    lemma_fundamental_div_mod_converse(one as int, s as int, bw as int, 0);
    lemma_fundamental_div_mod_converse(two as int, s as int, (bw + 1) as int, 0);
    lemma_classes(w, p, one);
    lemma_classes(w, p, two);
    lemma_zero(w, p);
    lemma_pow2_adds(p, (bw - 1) as nat);
    lemma_pow2_adds(p, bw);
    lemma_pow2_strictly_increases(unit_shift(w, p), unit_shift(w, p) + 1);
    lemma_pow2_unfold(1);
    if 1 < unit_shift(w, p) {
        lemma_pow2_strictly_increases(1, unit_shift(w, p));
    }
    assert(pow2(0) == 1) by {
        lemma2_to64();
    }
    lemma_reciprocal_of_finite(w, p, one);
    lemma_reciprocal_of_finite(w, p, two);
}

} // verus!
