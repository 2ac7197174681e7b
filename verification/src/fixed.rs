//! Fixed-point scalar arithmetic: an `i64` holds a real value scaled by
//! `FX_ONE` (2^32).  Multiplication and division round toward zero; every
//! executable operation is specified exactly by a matching spec function.

use vstd::prelude::*;
use vstd::arithmetic::div_mod::lemma_div_is_ordered;
use vstd::arithmetic::power2::{
    pow2, lemma_pow2_adds, lemma_pow2_strictly_increases, lemma2_to64, lemma2_to64_rest,
};

verus! {

/// The fixed-point representation of 1.0.
pub const FX_ONE: i64 = 4294967296;

/// The fixed-point representation of 0.5.
pub const FX_HALF: i64 = 2147483648;

/// Cap on a sampling density (the value 16384.0): near-singular
/// denominators clamp instead of overflowing.
pub const FX_PDF_CAP: i64 = 70368744177664;

/// Cap on the reciprocal of a cosine sum (the value 256.0): fully grazing
/// pairs clamp instead of overflowing.
pub const FX_INV_COS_CAP: i64 = 1099511627776;

/// Absolute value over the mathematical integers.
pub open spec fn iabs(a: int) -> int {
    if a >= 0 {
        a
    } else {
        -a
    }
}

/// Division rounding toward zero, the rounding of the executable operations.
pub open spec fn div_trunc(n: int, d: int) -> int {
    if (n >= 0) == (d >= 0) {
        iabs(n) / iabs(d)
    } else {
        -(iabs(n) / iabs(d))
    }
}

/// The exact value of fixed-point multiplication.
pub open spec fn fx_mul_s(a: int, b: int) -> int {
    div_trunc(a * b, FX_ONE as int)
}

/// The exact value of fixed-point division.
pub open spec fn fx_div_s(a: int, b: int) -> int {
    div_trunc(a * (FX_ONE as int), b)
}

/// The exact value of the saturating fixed-point division.
pub open spec fn fx_div_sat_s(a: int, b: int, cap: int) -> int {
    if fx_div_s(a, b) > cap {
        cap
    } else {
        fx_div_s(a, b)
    }
}

/// Fixed-point product, rounded toward zero.
pub fn fx_mul(a: i64, b: i64) -> (r: i64)
    requires
        -0x7fffffffffffffff <= fx_mul_s(a as int, b as int) <= 0x7fffffffffffffff,
    ensures
        r == fx_mul_s(a as int, b as int),
{
    proof {
        assert((a as i128) * (b as i128) <= 0x40000000000000000000000000000000
            && (a as i128) * (b as i128) >= -0x40000000000000000000000000000000) by (nonlinear_arith)
            requires
                -0x8000000000000000 <= a <= 0x7fffffffffffffff,
                -0x8000000000000000 <= b <= 0x7fffffffffffffff,
        ;
    }
    let p: i128 = (a as i128) * (b as i128);
    if p >= 0 {
        (p / (FX_ONE as i128)) as i64
    } else {
        (-((-p) / (FX_ONE as i128))) as i64
    }
}

/// Fixed-point quotient, rounded toward zero.
pub fn fx_div(a: i64, b: i64) -> (r: i64)
    requires
        b != 0,
        -0x7fffffffffffffff <= fx_div_s(a as int, b as int) <= 0x7fffffffffffffff,
    ensures
        r == fx_div_s(a as int, b as int),
{
    proof {
        assert((a as i128) * (FX_ONE as i128) <= 0x80000000000000000000000000
            && (a as i128) * (FX_ONE as i128) >= -0x80000000000000000000000000) by (nonlinear_arith)
            requires
                -0x8000000000000000 <= a <= 0x7fffffffffffffff,
        ;
    }
    let n: i128 = (a as i128) * (FX_ONE as i128);
    let d: i128 = b as i128;
    if n >= 0 {
        if d > 0 {
            (n / d) as i64
        } else {
            (-(n / (-d))) as i64
        }
    } else {
        if d > 0 {
            (-((-n) / d)) as i64
        } else {
            ((-n) / (-d)) as i64
        }
    }
}

/// Fixed-point quotient of non-negative operands, capped at `cap`: a
/// vanishing denominator yields a huge but representable value, never an
/// overflow.
pub fn fx_div_sat(a: i64, b: i64, cap: i64) -> (r: i64)
    requires
        a >= 0,
        b >= 1,
        cap >= 0,
    ensures
        r == fx_div_sat_s(a as int, b as int, cap as int),
        0 <= r <= cap,
{
    proof {
        assert((a as i128) * (FX_ONE as i128) <= 0x80000000000000000000000000
            && (a as i128) * (FX_ONE as i128) >= 0) by (nonlinear_arith)
            requires
                0 <= a <= 0x7fffffffffffffff,
        ;
    }
    let n: i128 = (a as i128) * (FX_ONE as i128);
    let q: i128 = n / (b as i128);
    if q > cap as i128 {
        cap
    } else {
        q as i64
    }
}

/// The smaller of two scalars.
pub fn fx_min(a: i64, b: i64) -> (r: i64)
    ensures
        r == if a <= b { a as int } else { b as int },
{
    if a <= b {
        a
    } else {
        b
    }
}

/// The larger of two scalars.
pub fn fx_max(a: i64, b: i64) -> (r: i64)
    ensures
        r == if a >= b { a as int } else { b as int },
{
    if a >= b {
        a
    } else {
        b
    }
}

/// The exact value of clamping into `[lo, hi]`.
pub open spec fn fx_clamp_s(x: int, lo: int, hi: int) -> int {
    if x < lo {
        lo
    } else if x > hi {
        hi
    } else {
        x
    }
}

/// Clamp a scalar into `[lo, hi]`.
pub fn fx_clamp(x: i64, lo: i64, hi: i64) -> (r: i64)
    requires
        lo <= hi,
    ensures
        r == fx_clamp_s(x as int, lo as int, hi as int),
        lo <= r <= hi,
{
    if x < lo {
        lo
    } else if x > hi {
        hi
    } else {
        x
    }
}

/// The exact value of the fixed-point linear interpolation
/// `(1 - t) * a + t * b`.
pub open spec fn fx_lerp_s(t: int, a: int, b: int) -> int {
    fx_mul_s(FX_ONE - t, a) + fx_mul_s(t, b)
}

/// Linear interpolation `(1 - t) * a + t * b`.
pub fn fx_lerp(t: i64, a: i64, b: i64) -> (r: i64)
    requires
        0 <= t <= FX_ONE,
        -0x100000000000000 <= a <= 0x100000000000000,
        -0x100000000000000 <= b <= 0x100000000000000,
    ensures
        r == fx_lerp_s(t as int, a as int, b as int),
{
    proof {
        lemma_fx_mul_bound(FX_ONE - t, a as int, FX_ONE as int, 0x100000000000000);
        lemma_fx_mul_bound(t as int, b as int, FX_ONE as int, 0x100000000000000);
    }
    fx_mul(FX_ONE - t, a) + fx_mul(t, b)
}

/// Interpolating between values in `[lo, hi]` stays within
/// `[lo - 2, hi]`: truncation can lose at most one unit per term.
pub proof fn lemma_fx_lerp_range(t: int, a: int, b: int, lo: int, hi: int)
    requires
        0 <= t <= FX_ONE,
        0 <= lo <= a <= hi,
        lo <= b <= hi,
    ensures
        lo - 2 <= fx_lerp_s(t, a, b) <= hi,
{
    let s = FX_ONE as int;
    lemma_fx_mul_nonneg(s - t, a);
    lemma_fx_mul_nonneg(t, b);
    assert((s - t) * a <= (s - t) * hi && t * b <= t * hi) by (nonlinear_arith)
        requires
            0 <= t <= s,
            a <= hi,
            b <= hi,
            0 <= a,
            0 <= b,
    ;
    lemma_div_is_ordered((s - t) * a, (s - t) * hi, s);
    lemma_div_is_ordered(t * b, t * hi, s);
    assert((s - t) * hi / s + t * hi / s <= hi) by (nonlinear_arith)
        requires
            0 <= t <= s,
            hi >= 0,
            s > 0,
    ;
    assert((s - t) * a >= (s - t) * lo && t * b >= t * lo) by (nonlinear_arith)
        requires
            0 <= t <= s,
            lo <= a,
            lo <= b,
            lo >= 0,
    ;
    lemma_div_is_ordered((s - t) * lo, (s - t) * a, s);
    lemma_div_is_ordered(t * lo, t * b, s);
    assert((s - t) * lo / s + t * lo / s >= lo - 2) by (nonlinear_arith)
        requires
            0 <= t <= s,
            lo >= 0,
            s > 0,
    ;
}

/// Bounded factors give a product within the multiplier's precondition.
pub proof fn lemma_mul_fits(a: int, b: int, ma: int, mb: int)
    requires
        iabs(a) <= ma,
        iabs(b) <= mb,
        0 <= ma,
        0 <= mb,
        ma * mb <= 0x7fffffffffffffff * (FX_ONE as int),
    ensures
        iabs(a) * iabs(b) <= 0x7fffffffffffffff * (FX_ONE as int),
{
    assert(iabs(a) * iabs(b) <= ma * mb) by (nonlinear_arith)
        requires
            0 <= iabs(a) <= ma,
            0 <= iabs(b) <= mb,
    ;
}

/// Magnitude bound for a truncated product: if the factors are bounded in
/// magnitude by `ma` and `mb`, the fixed-point product is bounded by
/// `ma * mb / FX_ONE`.
pub proof fn lemma_fx_mul_bound(a: int, b: int, ma: int, mb: int)
    requires
        iabs(a) <= ma,
        iabs(b) <= mb,
    ensures
        iabs(fx_mul_s(a, b)) <= (ma * mb) / (FX_ONE as int),
        iabs(fx_mul_s(a, b)) <= iabs(a) * iabs(b) / (FX_ONE as int),
{
    let s = FX_ONE as int;
    assert(iabs(a * b) == iabs(a) * iabs(b)) by (nonlinear_arith);
    assert(iabs(a) * iabs(b) <= ma * mb) by (nonlinear_arith)
        requires
            0 <= iabs(a) <= ma,
            0 <= iabs(b) <= mb,
    ;
    lemma_div_is_ordered(iabs(a) * iabs(b), ma * mb, s);
    assert(iabs(fx_mul_s(a, b)) == iabs(a * b) / s);
}

/// Sign and bound for a truncated product of non-negative factors.
pub proof fn lemma_fx_mul_nonneg(a: int, b: int)
    requires
        0 <= a,
        0 <= b,
    ensures
        0 <= fx_mul_s(a, b) <= a * b / (FX_ONE as int),
{
    assert(0 <= a * b) by (nonlinear_arith)
        requires
            0 <= a,
            0 <= b,
    ;
    assert(fx_mul_s(a, b) == (a * b) / (FX_ONE as int));
    vstd::arithmetic::div_mod::lemma_div_pos_is_pos(a * b, FX_ONE as int);
}

/// A product of factors in `[0, 1]` stays in `[0, 1]`, and below each factor.
pub proof fn lemma_fx_mul_unit(a: int, b: int)
    requires
        0 <= a <= FX_ONE,
        0 <= b <= FX_ONE,
    ensures
        0 <= fx_mul_s(a, b),
        fx_mul_s(a, b) <= a,
        fx_mul_s(a, b) <= b,
{
    let s = FX_ONE as int;
    lemma_fx_mul_nonneg(a, b);
    assert(a * b <= a * s) by (nonlinear_arith)
        requires
            0 <= a,
            b <= s,
    ;
    assert(a * b <= b * s) by (nonlinear_arith)
        requires
            0 <= b,
            a <= s,
    ;
    lemma_div_is_ordered(a * b, a * s, s);
    lemma_div_is_ordered(a * b, b * s, s);
    assert(a * s / s == a) by (nonlinear_arith)
        requires
            s > 0,
    ;
    assert(b * s / s == b) by (nonlinear_arith)
        requires
            s > 0,
    ;
}

/// Multiplying a non-positive scalar by a factor in `[0, 1]` cannot go
/// below the scalar.
pub proof fn lemma_fx_mul_neg_unit(d: int, c: int)
    requires
        d <= 0,
        0 <= c <= FX_ONE,
    ensures
        d <= fx_mul_s(d, c) <= 0,
{
    let s = FX_ONE as int;
    assert(iabs(d * c) == iabs(d) * c) by (nonlinear_arith)
        requires
            d <= 0,
            0 <= c,
    ;
    assert(iabs(d) * c <= iabs(d) * s) by (nonlinear_arith)
        requires
            0 <= iabs(d),
            c <= s,
    ;
    lemma_div_is_ordered(iabs(d) * c, iabs(d) * s, s);
    assert(iabs(d) * s / s == iabs(d)) by (nonlinear_arith)
        requires
            s > 0,
    ;
    assert(iabs(d) * c >= 0) by (nonlinear_arith)
        requires
            0 <= iabs(d),
            0 <= c,
    ;
    vstd::arithmetic::div_mod::lemma_div_pos_is_pos(iabs(d) * c, s);
    if d * c == 0 {
        assert(fx_mul_s(d, c) == 0);
    } else {
        assert(d * c < 0) by (nonlinear_arith)
            requires
                d <= 0,
                c >= 0,
                d * c != 0,
        ;
        assert(fx_mul_s(d, c) == -(iabs(d * c) / s));
    }
}

/// A product of a factor below `-ma` with a factor above `mb` lies below
/// `-(ma * mb / FX_ONE)`.
pub proof fn lemma_fx_mul_neg_lower(a: int, b: int, ma: int, mb: int)
    requires
        a <= -ma,
        ma >= 0,
        b >= mb,
        mb >= 0,
    ensures
        fx_mul_s(a, b) <= -((ma * mb) / (FX_ONE as int)),
{
    let s = FX_ONE as int;
    if ma == 0 || mb == 0 {
        assert(ma * mb == 0) by (nonlinear_arith)
            requires
                ma == 0 || mb == 0,
        ;
        lemma_fx_mul_neg_unit_helper(a, b);
    } else {
        assert(iabs(a * b) == iabs(a) * b) by (nonlinear_arith)
            requires
                a <= 0,
                0 <= b,
        ;
        assert(iabs(a) * b >= ma * mb) by (nonlinear_arith)
            requires
                iabs(a) >= ma,
                b >= mb,
                ma >= 0,
                mb >= 0,
        ;
        lemma_div_is_ordered(ma * mb, iabs(a) * b, s);
        assert(a * b < 0) by (nonlinear_arith)
            requires
                a <= -ma,
                b >= mb,
                ma > 0,
                mb > 0,
        ;
        assert(ma * mb >= 0) by (nonlinear_arith)
            requires
                ma >= 0,
                mb >= 0,
        ;
        vstd::arithmetic::div_mod::lemma_div_pos_is_pos(ma * mb, s);
        assert(fx_mul_s(a, b) == -(iabs(a * b) / s));
    }
}

/// A product of a non-positive and a non-negative scalar is non-positive.
proof fn lemma_fx_mul_neg_unit_helper(a: int, b: int)
    requires
        a <= 0,
        0 <= b,
    ensures
        fx_mul_s(a, b) <= 0,
{
    let s = FX_ONE as int;
    if a * b == 0 {
        assert(fx_mul_s(a, b) == 0);
    } else {
        assert(a * b < 0) by (nonlinear_arith)
            requires
                a <= 0,
                b >= 0,
                a * b != 0,
        ;
        vstd::arithmetic::div_mod::lemma_div_pos_is_pos(iabs(a * b), s);
        assert(fx_mul_s(a, b) == -(iabs(a * b) / s));
    }
}

/// Monotonicity and bound for the truncated quotient of non-negative
/// operands: the quotient of `a <= ma` by `b >= bmin >= 1` is at most
/// `ma * FX_ONE / bmin`.
pub proof fn lemma_fx_div_bound(a: int, b: int, ma: int, bmin: int)
    requires
        0 <= a <= ma,
        1 <= bmin <= b,
    ensures
        0 <= fx_div_s(a, b) <= (ma * (FX_ONE as int)) / bmin,
{
    let s = FX_ONE as int;
    assert(a * s >= 0) by (nonlinear_arith)
        requires
            a >= 0,
            s > 0,
    ;
    assert(fx_div_s(a, b) == (a * s) / b);
    vstd::arithmetic::div_mod::lemma_div_pos_is_pos(a * s, b);
    assert(a * s <= ma * s) by (nonlinear_arith)
        requires
            a <= ma,
            s > 0,
    ;
    lemma_div_is_ordered(a * s, ma * s, b);
    vstd::arithmetic::div_mod::lemma_div_is_ordered_by_denominator(ma * s, bmin, b);
}

/// A quotient of two negative scalars is non-negative and bounded by the
/// quotient of the magnitude bounds.
pub proof fn lemma_fx_div_neg_neg(a: int, b: int, ma: int, bmin: int)
    requires
        -ma <= a <= 0,
        0 <= ma,
        1 <= bmin,
        b <= -bmin,
    ensures
        0 <= fx_div_s(a, b) <= (ma * (FX_ONE as int)) / bmin,
{
    let s = FX_ONE as int;
    assert(a * s <= 0 && iabs(a * s) == iabs(a) * s) by (nonlinear_arith)
        requires
            a <= 0,
            s > 0,
    ;
    if a * s == 0 {
        assert(fx_div_s(a, b) == 0 || fx_div_s(a, b) == -(iabs(a * s) / iabs(b)));
        assert(iabs(a * s) / iabs(b) == 0) by {
            vstd::arithmetic::div_mod::lemma_basic_div(0, iabs(b));
        }
        assert(ma * s >= 0) by (nonlinear_arith)
            requires
                ma >= 0,
                s > 0,
        ;
        vstd::arithmetic::div_mod::lemma_div_pos_is_pos(ma * s, bmin);
    } else {
        assert(fx_div_s(a, b) == iabs(a * s) / iabs(b));
        vstd::arithmetic::div_mod::lemma_div_pos_is_pos(iabs(a * s), iabs(b));
        assert(iabs(a) * s <= ma * s) by (nonlinear_arith)
            requires
                iabs(a) <= ma,
                s > 0,
        ;
        assert(ma * s >= 0) by (nonlinear_arith)
            requires
                ma >= 0,
                s > 0,
        ;
        lemma_div_is_ordered(iabs(a) * s, ma * s, iabs(b));
        vstd::arithmetic::div_mod::lemma_div_is_ordered_by_denominator(ma * s, bmin, iabs(b));
    }
}

/// Squaring is monotone: a factor at least `m` squares to at least
/// `m * m / FX_ONE`.
pub proof fn lemma_fx_sq_lower(a: int, m: int)
    requires
        0 <= m <= a,
    ensures
        fx_mul_s(a, a) >= (m * m) / (FX_ONE as int),
{
    assert(a * a >= m * m) by (nonlinear_arith)
        requires
            0 <= m <= a,
    ;
    assert(m * m >= 0) by (nonlinear_arith);
    lemma_div_is_ordered(m * m, a * a, FX_ONE as int);
}

/// The truncated product does not depend on the order of its factors.
pub proof fn lemma_fx_mul_comm(a: int, b: int)
    ensures
        fx_mul_s(a, b) == fx_mul_s(b, a),
{
    assert(a * b == b * a) by (nonlinear_arith);
}

/// A truncated square is non-negative.
pub proof fn lemma_fx_sq_nonneg(a: int)
    ensures
        fx_mul_s(a, a) >= 0,
{
    assert(a * a >= 0) by (nonlinear_arith);
    vstd::arithmetic::div_mod::lemma_div_pos_is_pos(a * a, FX_ONE as int);
}

/// The truncated quotient of non-negative operands shrinks as the
/// denominator grows: a denominator at most `bmax` keeps the quotient at
/// least `a * FX_ONE / bmax`.
pub proof fn lemma_fx_div_lower(a: int, b: int, bmax: int)
    requires
        0 <= a,
        1 <= b <= bmax,
    ensures
        fx_div_s(a, b) >= (a * (FX_ONE as int)) / bmax,
{
    let s = FX_ONE as int;
    assert(a * s >= 0) by (nonlinear_arith)
        requires
            a >= 0,
            s > 0,
    ;
    assert(fx_div_s(a, b) == (a * s) / b);
    vstd::arithmetic::div_mod::lemma_div_is_ordered_by_denominator(a * s, b, bmax);
}

/// `r` is the fixed-point square root of `a`: the greatest integer whose
/// square does not exceed `a * FX_ONE`.
pub open spec fn is_fx_sqrt(a: int, r: int) -> bool {
    0 <= r && r * r <= a * (FX_ONE as int) && a * (FX_ONE as int) < (r + 1) * (r + 1)
}

/// The exact value of the fixed-point square root.
pub open spec fn fx_sqrt_s(a: int) -> int {
    choose|r: int| is_fx_sqrt(a, r)
}

/// Only one integer satisfies the square-root characterization.
pub proof fn lemma_fx_sqrt_unique(a: int, r1: int, r2: int)
    requires
        is_fx_sqrt(a, r1),
        is_fx_sqrt(a, r2),
    ensures
        r1 == r2,
{
    assert(r1 == r2) by (nonlinear_arith)
        requires
            0 <= r1,
            0 <= r2,
            r1 * r1 <= a * (FX_ONE as int),
            a * (FX_ONE as int) < (r1 + 1) * (r1 + 1),
            r2 * r2 <= a * (FX_ONE as int),
            a * (FX_ONE as int) < (r2 + 1) * (r2 + 1),
    ;
}

/// A witness below the root: if `b * b <= a * FX_ONE` then the root is at
/// least `b`.
pub proof fn lemma_fx_sqrt_lower(a: int, r: int, b: int)
    requires
        is_fx_sqrt(a, r),
        0 <= b,
        b * b <= a * (FX_ONE as int),
    ensures
        r >= b,
{
    assert(r >= b) by (nonlinear_arith)
        requires
            0 <= r,
            0 <= b,
            b * b <= a * (FX_ONE as int),
            a * (FX_ONE as int) < (r + 1) * (r + 1),
    ;
}

/// A witness above the root: if `a * FX_ONE < (b + 1) * (b + 1)` then the
/// root is at most `b`.
pub proof fn lemma_fx_sqrt_upper(a: int, r: int, b: int)
    requires
        is_fx_sqrt(a, r),
        0 <= b,
        a * (FX_ONE as int) < (b + 1) * (b + 1),
    ensures
        r <= b,
{
    assert(r <= b) by (nonlinear_arith)
        requires
            0 <= r,
            0 <= b,
            r * r <= a * (FX_ONE as int),
            a * (FX_ONE as int) < (b + 1) * (b + 1),
    ;
}

/// Fixed-point square root of a non-negative scalar, rounded down.
pub fn fx_sqrt(a: i64) -> (r: i64)
    requires
        0 <= a,
    ensures
        r == fx_sqrt_s(a as int),
        is_fx_sqrt(a as int, r as int),
        0 <= r,
        a <= FX_ONE ==> r <= FX_ONE,
{
    proof {
        assert((a as i128) * (FX_ONE as i128) >= 0
            && (a as i128) * (FX_ONE as i128) < 281474976710656i128 * 281474976710656i128)
            by (nonlinear_arith)
            requires
                0 <= a <= 0x7fffffffffffffff,
        ;
    }
    let t: i128 = (a as i128) * (FX_ONE as i128);
    let mut lo: i64 = 0;
    let mut hi: i64 = 281474976710656;
    proof {
        assert((lo as i128) * (lo as i128) == 0) by (nonlinear_arith)
            requires
                lo == 0,
        ;
    }
    while lo + 1 < hi
        invariant
            0 <= lo < hi <= 281474976710656,
            (lo as i128) * (lo as i128) <= t,
            t < (hi as i128) * (hi as i128),
            t == (a as i128) * (FX_ONE as i128),
            0 <= a,
        decreases hi - lo,
    {
        let mid: i64 = lo + (hi - lo) / 2;
        proof {
            assert((mid as i128) * (mid as i128) < 0x40000000000000000000000000000000)
                by (nonlinear_arith)
                requires
                    0 <= mid <= 281474976710656,
            ;
        }
        if (mid as i128) * (mid as i128) <= t {
            lo = mid;
        } else {
            hi = mid;
        }
    }
    proof {
        assert(hi == lo + 1);
        assert((lo as int) * (lo as int) == (lo as i128) * (lo as i128)) by (nonlinear_arith);
        assert((hi as int) * (hi as int) == (hi as i128) * (hi as i128)) by (nonlinear_arith);
        assert((a as int) * (FX_ONE as int) == (a as i128) * (FX_ONE as i128))
            by (nonlinear_arith);
        assert(is_fx_sqrt(a as int, lo as int));
        lemma_fx_sqrt_unique(a as int, lo as int, fx_sqrt_s(a as int));
        if a <= FX_ONE {
            assert((a as int) * (FX_ONE as int) < (FX_ONE as int + 1) * (FX_ONE as int + 1))
                by (nonlinear_arith)
                requires
                    0 <= a <= FX_ONE,
            ;
            lemma_fx_sqrt_upper(a as int, lo as int, FX_ONE as int);
        }
    }
    lo
}

/// The fixed-point representation of log10(2).
pub const FX_LOG10_2: i64 = 1292913986;

/// Number of doublings that bring a positive scalar below 1.0 into
/// `[FX_ONE, 2 * FX_ONE)`.
pub open spec fn norm_steps(x: int) -> nat
    decreases 2 * FX_ONE - x,
{
    if x < 1 || x >= FX_ONE {
        0
    } else {
        1 + norm_steps(2 * x)
    }
}

/// The normalized mantissa reached by those doublings.
pub open spec fn norm_y(x: int) -> int
    decreases 2 * FX_ONE - x,
{
    if x < 1 || x >= FX_ONE {
        x
    } else {
        norm_y(2 * x)
    }
}

/// Fractional bits of the base-two logarithm of a mantissa in
/// `[FX_ONE, 2 * FX_ONE)`, produced by `n` squaring steps; the result is the
/// fraction scaled by `pow2(n)`.
pub open spec fn log2_frac_s(y: int, n: nat) -> int
    decreases n,
{
    if n == 0 {
        0
    } else {
        let y2 = fx_mul_s(y, y);
        if y2 >= 2 * FX_ONE {
            pow2((n - 1) as nat) + log2_frac_s(y2 / 2, (n - 1) as nat)
        } else {
            log2_frac_s(y2, (n - 1) as nat)
        }
    }
}

/// The exact value of the fixed-point base-two logarithm of a scalar
/// below 1.0.
pub open spec fn fx_log2_s(x: int) -> int {
    log2_frac_s(norm_y(x), 32) - norm_steps(x) * (FX_ONE as int)
}

/// The exact value of the fixed-point base-ten logarithm of a scalar
/// below 1.0.
pub open spec fn fx_log10_s(x: int) -> int {
    fx_mul_s(fx_log2_s(x), FX_LOG10_2 as int)
}

/// Normalization lands in `[FX_ONE, 2 * FX_ONE)` after 1 to 32 doublings.
pub proof fn lemma_norm_props(x: int)
    requires
        1 <= x < FX_ONE,
    ensures
        FX_ONE <= norm_y(x) < 2 * FX_ONE,
        1 <= norm_steps(x) <= 32,
        norm_y(x) == x * pow2(norm_steps(x)),
    decreases 2 * FX_ONE - x,
{
    lemma2_to64();
    lemma2_to64_rest();
    if 2 * x >= FX_ONE {
        assert(norm_steps(2 * x) == 0);
        assert(norm_y(x) == norm_y(2 * x));
        assert(norm_y(2 * x) == 2 * x);
        assert(norm_steps(x) == 1);
        assert(pow2(1) == 2);
        assert(x * pow2(1) == 2 * x) by (nonlinear_arith)
            requires
                pow2(1) == 2,
        ;
    } else {
        lemma_norm_props(2 * x);
        let s = norm_steps(2 * x);
        assert(norm_y(2 * x) == (2 * x) * pow2(s));
        lemma_pow2_adds(1, s);
        assert((2 * x) * pow2(s) == x * (2 * pow2(s))) by (nonlinear_arith);
        assert(norm_steps(x) == s + 1);
        assert(pow2(s + 1) == 2 * pow2(s));
        assert(x * pow2(s + 1) == norm_y(x));
        if s + 1 > 32 {
            assert(s + 1 >= 33);
            if s + 1 > 33 {
                lemma_pow2_strictly_increases(33, s + 1);
            }
            assert(pow2(33) == 0x200000000);
            assert(pow2(s + 1) >= 0x200000000);
            assert(x * pow2(s + 1) >= pow2(s + 1)) by (nonlinear_arith)
                requires
                    x >= 1,
                    pow2(s + 1) >= 0,
            ;
            assert(false);
        }
    }
}

/// The fractional bits stay within `[0, pow2(n))`.
pub proof fn lemma_log2_frac_range(y: int, n: nat)
    requires
        FX_ONE <= y < 2 * FX_ONE,
    ensures
        0 <= log2_frac_s(y, n) < pow2(n),
    decreases n,
{
    if n == 0 {
        assert(pow2(0) == 1) by {
            lemma2_to64();
        }
    } else {
        let s = FX_ONE as int;
        let y2 = fx_mul_s(y, y);
        assert(y * y >= s * s) by (nonlinear_arith)
            requires
                y >= s,
                s > 0,
        ;
        assert(y * y < (2 * s) * (2 * s)) by (nonlinear_arith)
            requires
                s <= y < 2 * s,
        ;
        assert(y2 == (y * y) / s);
        lemma_div_is_ordered(s * s, y * y, s);
        assert(s * s / s == s) by (nonlinear_arith)
            requires
                s > 0,
        ;
        assert(y * y <= 4 * s * s - 1) by (nonlinear_arith)
            requires
                y * y < (2 * s) * (2 * s),
        ;
        lemma_div_is_ordered(y * y, 4 * s * s - 1, s);
        assert((4 * s * s - 1) / s < 4 * s) by (nonlinear_arith)
            requires
                s > 1,
        ;
        assert(s <= y2 < 4 * s);
        lemma_pow2_adds(1, (n - 1) as nat);
        lemma2_to64();
        if y2 >= 2 * s {
            lemma_log2_frac_range(y2 / 2, (n - 1) as nat);
        } else {
            lemma_log2_frac_range(y2, (n - 1) as nat);
        }
    }
}

/// The mantissa 1.0 has no fractional logarithm bits.
pub proof fn lemma_log2_frac_one(n: nat)
    ensures
        log2_frac_s(FX_ONE as int, n) == 0,
    decreases n,
{
    if n > 0 {
        let s = FX_ONE as int;
        assert(fx_mul_s(s, s) == s) by (nonlinear_arith)
            requires
                s > 0,
                fx_mul_s(s, s) == div_trunc(s * s, s),
        ;
        lemma_log2_frac_one((n - 1) as nat);
    }
}

/// Fixed-point base-two logarithm of a scalar in `(0, 1)`; the result is
/// negative, and at most -1.0 for inputs at or below one half.
pub fn fx_log2(x: i64) -> (r: i64)
    requires
        1 <= x < FX_ONE,
    ensures
        r == fx_log2_s(x as int),
        -32 * FX_ONE <= r <= -1,
        x <= FX_HALF ==> r <= -FX_ONE,
{
    proof {
        lemma_norm_props(x as int);
    }
    let mut y: i64 = x;
    let mut steps: i64 = 0;
    while y < FX_ONE
        invariant
            1 <= y < 2 * FX_ONE,
            0 <= steps,
            norm_y(y as int) == norm_y(x as int),
            norm_steps(x as int) == steps + norm_steps(y as int),
            norm_steps(x as int) <= 32,
        decreases 2 * FX_ONE - y,
    {
        proof {
            assert(norm_y((2 * y) as int) == norm_y(y as int));
            assert(norm_steps(y as int) == 1 + norm_steps((2 * y) as int));
        }
        y = 2 * y;
        steps = steps + 1;
    }
    proof {
        assert(norm_steps(y as int) == 0);
        assert(norm_y(y as int) == y);
        assert(y == norm_y(x as int));
        assert(steps == norm_steps(x as int));
    }
    let ghost y0 = y as int;
    let mut frac: i64 = 0;
    let mut i: i64 = 0;
    proof {
        lemma2_to64();
    }
    while i < 32
        invariant
            0 <= i <= 32,
            FX_ONE <= y < 2 * FX_ONE,
            0 <= frac < pow2(i as nat),
            i <= 32 ==> pow2(i as nat) <= 0x100000000,
            log2_frac_s(y0, 32) == frac * pow2((32 - i) as nat) + log2_frac_s(
                y as int,
                (32 - i) as nat,
            ),
        decreases 32 - i,
    {
        proof {
            lemma_fx_mul_bound(y as int, y as int, 2 * FX_ONE as int, 2 * FX_ONE as int);
            lemma_log2_frac_bounds_step(y as int);
            lemma_pow2_adds(1, (32 - i - 1) as nat);
            lemma_pow2_adds(1, i as nat);
            if i + 1 < 32 {
                lemma_pow2_strictly_increases((i + 1) as nat, 32nat);
            }
            lemma2_to64();
        }
        let y2 = fx_mul(y, y);
        let ghost n = (32 - i) as nat;
        proof {
            assert(log2_frac_s(y as int, n) == if fx_mul_s(y as int, y as int) >= 2 * FX_ONE {
                pow2((n - 1) as nat) + log2_frac_s(fx_mul_s(y as int, y as int) / 2, (n - 1) as nat)
            } else {
                log2_frac_s(fx_mul_s(y as int, y as int), (n - 1) as nat)
            });
            assert((frac * 2) * pow2((n - 1) as nat) == frac * pow2(n)) by (nonlinear_arith)
                requires
                    pow2(n) == 2 * pow2((n - 1) as nat),
            ;
            assert((frac * 2 + 1) * pow2((n - 1) as nat) == (frac * 2) * pow2((n - 1) as nat)
                + pow2((n - 1) as nat)) by (nonlinear_arith);
        }
        frac = frac * 2;
        if y2 >= 2 * FX_ONE {
            y = y2 / 2;
            frac = frac + 1;
        } else {
            y = y2;
        }
        i = i + 1;
    }
    proof {
        assert(pow2(0) == 1);
        assert(log2_frac_s(y0, 32) == frac);
        assert(frac < 0x100000000);
        assert(frac * 1 == frac) by (nonlinear_arith);
        assert(norm_steps(x as int) * (FX_ONE as int) <= 32 * (FX_ONE as int))
            by (nonlinear_arith)
            requires
                norm_steps(x as int) <= 32,
        ;
        assert(norm_steps(x as int) * (FX_ONE as int) >= 1 * (FX_ONE as int)) by (nonlinear_arith)
            requires
                norm_steps(x as int) >= 1,
        ;
        if x <= FX_HALF {
            if steps == 1 {
                assert(norm_y(x as int) == norm_y((2 * x) as int));
                assert(norm_steps((2 * x) as int) == 0);
                assert(2 * x >= FX_ONE);
                assert(norm_y((2 * x) as int) == 2 * x);
                assert(y0 == FX_ONE);
                lemma_log2_frac_one(32);
            } else {
                assert(norm_steps(x as int) * (FX_ONE as int) >= 2 * (FX_ONE as int))
                    by (nonlinear_arith)
                    requires
                        norm_steps(x as int) >= 2,
                ;
            }
        }
    }
    frac - steps * FX_ONE
}

/// One squaring step keeps the mantissa bounded.
proof fn lemma_log2_frac_bounds_step(y: int)
    requires
        FX_ONE <= y < 2 * FX_ONE,
    ensures
        FX_ONE <= fx_mul_s(y, y) < 4 * FX_ONE,
        fx_mul_s(y, y) >= 2 * FX_ONE ==> FX_ONE <= fx_mul_s(y, y) / 2 < 2 * FX_ONE,
        fx_mul_s(y, y) < 2 * FX_ONE ==> FX_ONE <= fx_mul_s(y, y) < 2 * FX_ONE,
{
    let s = FX_ONE as int;
    assert(y * y >= s * s) by (nonlinear_arith)
        requires
            y >= s,
            s > 0,
    ;
    assert(y * y <= 4 * s * s - 1) by (nonlinear_arith)
        requires
            s <= y < 2 * s,
    ;
    assert(fx_mul_s(y, y) == (y * y) / s);
    lemma_div_is_ordered(s * s, y * y, s);
    lemma_div_is_ordered(y * y, 4 * s * s - 1, s);
    assert(s * s / s == s) by (nonlinear_arith)
        requires
            s > 0,
    ;
    assert((4 * s * s - 1) / s < 4 * s) by (nonlinear_arith)
        requires
            s > 1,
    ;
}

/// Fixed-point base-ten logarithm of a scalar in `(0, 1)`; non-positive,
/// and at most -log10(2) for inputs at or below one half.
pub fn fx_log10(x: i64) -> (r: i64)
    requires
        1 <= x < FX_ONE,
    ensures
        r == fx_log10_s(x as int),
        -32 * FX_ONE <= r <= 0,
        x <= FX_HALF ==> r <= -FX_LOG10_2,
{
    let l2 = fx_log2(x);
    proof {
        lemma_fx_mul_neg_unit(l2 as int, FX_LOG10_2 as int);
        if x <= FX_HALF {
            lemma_fx_mul_neg_lower(l2 as int, FX_LOG10_2 as int, FX_ONE as int,
                FX_LOG10_2 as int);
            assert(((FX_ONE as int) * (FX_LOG10_2 as int)) / (FX_ONE as int) == FX_LOG10_2 as int)
                by (nonlinear_arith)
                requires
                    FX_ONE > 0,
            ;
        }
    }
    fx_mul(l2, FX_LOG10_2)
}

/// One step of the square-root chain for a fractional power: `tt` is a
/// 32-bit register holding the remaining exponent bits, highest first.
pub open spec fn pow_frac_acc(r: int, cur: int, tt: int, j: nat) -> int
    decreases 32 - j,
{
    if j >= 32 {
        r
    } else {
        let c = fx_sqrt_s(cur);
        let r2 = if tt / 0x80000000 == 1 {
            fx_mul_s(r, c)
        } else {
            r
        };
        pow_frac_acc(r2, c, (tt % 0x80000000) * 2, j + 1)
    }
}

/// The exact value of `b` raised to the fractional exponent `t` (both in
/// `[0, 1]`), computed by binary decomposition of the exponent over a
/// chain of square roots.
pub open spec fn fx_pow_frac_s(b: int, t: int) -> int {
    if t == FX_ONE {
        b
    } else {
        pow_frac_acc(FX_ONE as int, b, t, 0)
    }
}

/// `b` raised to the exponent `t`, both fixed-point values in `[0, 1]`.
pub fn fx_pow_frac(b: i64, t: i64) -> (r: i64)
    requires
        0 <= b <= FX_ONE,
        0 <= t <= FX_ONE,
    ensures
        r == fx_pow_frac_s(b as int, t as int),
        0 <= r <= FX_ONE,
{
    if t == FX_ONE {
        return b;
    }
    let mut r: i64 = FX_ONE;
    let mut cur: i64 = b;
    let mut tt: i64 = t;
    let mut j: i64 = 0;
    while j < 32
        invariant
            0 <= j <= 32,
            0 <= r <= FX_ONE,
            0 <= cur <= FX_ONE,
            0 <= tt < 0x100000000,
            t != FX_ONE,
            0 <= b <= FX_ONE,
            0 <= t <= FX_ONE,
            fx_pow_frac_s(b as int, t as int) == pow_frac_acc(r as int, cur as int, tt as int,
                j as nat,
            ),
        decreases 32 - j,
    {
        proof {
            assert(pow_frac_acc(r as int, cur as int, tt as int, j as nat) == {
                let c = fx_sqrt_s(cur as int);
                let r2 = if (tt as int) / 0x80000000 == 1 {
                    fx_mul_s(r as int, c)
                } else {
                    r as int
                };
                pow_frac_acc(r2, c, ((tt as int) % 0x80000000) * 2, (j + 1) as nat)
            });
        }
        let c = fx_sqrt(cur);
        proof {
            lemma_fx_mul_unit(r as int, c as int);
        }
        cur = c;
        if tt / 0x80000000 == 1 {
            r = fx_mul(r, cur);
        }
        tt = (tt % 0x80000000) * 2;
        j = j + 1;
    }
    r
}

/// The fixed-point representation of 0.25.
pub const FX_QUARTER: i64 = 1073741824;

/// The exact value of the rational half-turn sine approximation on
/// `[0, 1]` (the sine of `x` half turns).
pub open spec fn fx_half_sine_s(x: int) -> int {
    let s = fx_mul_s(x, FX_ONE - x);
    fx_div_s(16 * s, 5 * FX_ONE - 4 * s)
}

/// The exact value of the sine of `u` full turns, `u` in `[0, 1]`.
pub open spec fn fx_sin_turn_s(u: int) -> int {
    if u <= FX_HALF {
        fx_half_sine_s(2 * u)
    } else {
        -fx_half_sine_s(2 * u - FX_ONE)
    }
}

/// The exact value of the cosine of `u` full turns, `u` in `[0, 1]`.
pub open spec fn fx_cos_turn_s(u: int) -> int {
    let v = if u + FX_QUARTER > FX_ONE {
        u + FX_QUARTER - FX_ONE
    } else {
        u + FX_QUARTER
    };
    fx_sin_turn_s(v)
}

/// Sine of `x` half turns for `x` in `[0, 1]`, by a rational approximation.
fn fx_half_sine(x: i64) -> (r: i64)
    requires
        0 <= x <= FX_ONE,
    ensures
        r == fx_half_sine_s(x as int),
        0 <= r <= FX_ONE,
{
    proof {
        lemma_fx_mul_nonneg(x as int, FX_ONE - x as int);
        assert((x as int) * (FX_ONE - x as int) <= (FX_HALF as int) * (FX_HALF as int))
            by (nonlinear_arith)
            requires
                0 <= x <= FX_ONE,
                FX_ONE == 2 * FX_HALF,
        ;
        lemma_div_is_ordered((x as int) * (FX_ONE - x as int),
            (FX_HALF as int) * (FX_HALF as int), FX_ONE as int);
        assert((FX_HALF as int) * (FX_HALF as int) / (FX_ONE as int) == FX_QUARTER as int)
            by (nonlinear_arith);
    }
    let s = fx_mul(x, FX_ONE - x);
    let num = 16 * s;
    let den = 5 * FX_ONE - 4 * s;
    proof {
        lemma_fx_div_bound(num as int, den as int, den as int, den as int);
        assert((den as int) * (FX_ONE as int) / (den as int) == FX_ONE as int)
            by (nonlinear_arith)
            requires
                den > 0,
        ;
    }
    fx_div(num, den)
}

/// Sine of `u` full turns for `u` in `[0, 1]`.
pub fn fx_sin_turn(u: i64) -> (r: i64)
    requires
        0 <= u <= FX_ONE,
    ensures
        r == fx_sin_turn_s(u as int),
        -FX_ONE <= r <= FX_ONE,
{
    if u <= FX_HALF {
        fx_half_sine(2 * u)
    } else {
        let p = fx_half_sine(2 * u - FX_ONE);
        -p
    }
}

/// Cosine of `u` full turns for `u` in `[0, 1]`.
pub fn fx_cos_turn(u: i64) -> (r: i64)
    requires
        0 <= u <= FX_ONE,
    ensures
        r == fx_cos_turn_s(u as int),
        -FX_ONE <= r <= FX_ONE,
{
    let v = if u + FX_QUARTER > FX_ONE {
        u + FX_QUARTER - FX_ONE
    } else {
        u + FX_QUARTER
    };
    fx_sin_turn(v)
}

} // verus!
