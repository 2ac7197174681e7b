//! Tristimulus spectra with component-wise fixed-point arithmetic.

use vstd::prelude::*;
use crate::fixed::{
    fx_mul, fx_mul_s, fx_div, fx_div_s, fx_sqrt, fx_sqrt_s, fx_lerp, fx_lerp_s, iabs,
    lemma_fx_mul_bound, FX_ONE,
};

verus! {

/// Luminance weight of the red channel.
pub const FX_LUM_R: i64 = 913414989;

/// Luminance weight of the green channel.
pub const FX_LUM_G: i64 = 3071588811;

/// Luminance weight of the blue channel.
pub const FX_LUM_B: i64 = 309963494;

/// Magnitude bound on spectrum components accepted by the material factory
/// (the value 2^13); keeps every blend free of overflow.
pub const FX_SPECTRUM_MAX: i64 = 35184372088832;

/// A tristimulus color or weight; each channel is a fixed-point scalar.
#[derive(Clone, Copy, Debug, PartialEq, Eq, Structural)]
pub struct Spectrum {
    pub r: i64,
    pub g: i64,
    pub b: i64,
}

/// Channel `i` of a spectrum (0 red, 1 green, 2 blue).
pub open spec fn ch(s: Spectrum, i: int) -> int {
    if i == 0 {
        s.r as int
    } else if i == 1 {
        s.g as int
    } else {
        s.b as int
    }
}

/// Builds a spectrum in specifications from three channel values.
pub open spec fn spec_rgb(r: int, g: int, b: int) -> Spectrum {
    Spectrum { r: r as i64, g: g as i64, b: b as i64 }
}

/// Every channel is non-negative.
pub open spec fn spectrum_nonneg(s: Spectrum) -> bool {
    s.r >= 0 && s.g >= 0 && s.b >= 0
}

/// Every channel has magnitude at most `m`.
pub open spec fn spectrum_bounded(s: Spectrum, m: int) -> bool {
    iabs(s.r as int) <= m && iabs(s.g as int) <= m && iabs(s.b as int) <= m
}

/// The exact value of the luminance of a spectrum.
pub open spec fn spec_luminance(s: Spectrum) -> int {
    fx_mul_s(FX_LUM_R as int, s.r as int) + fx_mul_s(FX_LUM_G as int, s.g as int) + fx_mul_s(
        FX_LUM_B as int,
        s.b as int,
    )
}

impl Spectrum {
    /// The spectrum with every channel equal to `v`.
    pub fn new(v: i64) -> (s: Spectrum)
        ensures
            s.r == v && s.g == v && s.b == v,
    {
        Spectrum { r: v, g: v, b: v }
    }

    /// The zero spectrum.
    pub fn zero() -> (s: Spectrum)
        ensures
            s.r == 0 && s.g == 0 && s.b == 0,
    {
        Spectrum { r: 0, g: 0, b: 0 }
    }

    /// The spectrum with the given channels.
    pub fn rgb(r: i64, g: i64, b: i64) -> (s: Spectrum)
        ensures
            s == spec_rgb(r as int, g as int, b as int),
    {
        Spectrum { r, g, b }
    }

    /// Whether every channel is zero.
    pub fn is_black(&self) -> (res: bool)
        ensures
            res == (self.r == 0 && self.g == 0 && self.b == 0),
    {
        self.r == 0 && self.g == 0 && self.b == 0
    }

    /// Channels clamped below at zero.
    pub fn clamp_zero(&self) -> (s: Spectrum)
        ensures
            s.r == if self.r >= 0 { self.r as int } else { 0 },
            s.g == if self.g >= 0 { self.g as int } else { 0 },
            s.b == if self.b >= 0 { self.b as int } else { 0 },
    {
        Spectrum {
            r: if self.r >= 0 { self.r } else { 0 },
            g: if self.g >= 0 { self.g } else { 0 },
            b: if self.b >= 0 { self.b } else { 0 },
        }
    }

    /// Component-wise product of two spectra.
    pub fn cmul(&self, o: &Spectrum) -> (s: Spectrum)
        requires
            iabs(self.r as int) * iabs(o.r as int) <= 0x7fffffffffffffff * (FX_ONE as int),
            iabs(self.g as int) * iabs(o.g as int) <= 0x7fffffffffffffff * (FX_ONE as int),
            iabs(self.b as int) * iabs(o.b as int) <= 0x7fffffffffffffff * (FX_ONE as int),
        ensures
            s.r == fx_mul_s(self.r as int, o.r as int),
            s.g == fx_mul_s(self.g as int, o.g as int),
            s.b == fx_mul_s(self.b as int, o.b as int),
    {
        proof {
            lemma_fx_mul_bound(self.r as int, o.r as int, iabs(self.r as int), iabs(o.r as int));
            lemma_fx_mul_bound(self.g as int, o.g as int, iabs(self.g as int), iabs(o.g as int));
            lemma_fx_mul_bound(self.b as int, o.b as int, iabs(self.b as int), iabs(o.b as int));
            lemma_iabs_mul_div_bound(self.r as int, o.r as int);
            lemma_iabs_mul_div_bound(self.g as int, o.g as int);
            lemma_iabs_mul_div_bound(self.b as int, o.b as int);
        }
        Spectrum { r: fx_mul(self.r, o.r), g: fx_mul(self.g, o.g), b: fx_mul(self.b, o.b) }
    }

    /// Every channel multiplied by the scalar `k`.
    pub fn scale(&self, k: i64) -> (s: Spectrum)
        requires
            iabs(self.r as int) * iabs(k as int) <= 0x7fffffffffffffff * (FX_ONE as int),
            iabs(self.g as int) * iabs(k as int) <= 0x7fffffffffffffff * (FX_ONE as int),
            iabs(self.b as int) * iabs(k as int) <= 0x7fffffffffffffff * (FX_ONE as int),
        ensures
            s.r == fx_mul_s(self.r as int, k as int),
            s.g == fx_mul_s(self.g as int, k as int),
            s.b == fx_mul_s(self.b as int, k as int),
    {
        proof {
            lemma_fx_mul_bound(self.r as int, k as int, iabs(self.r as int), iabs(k as int));
            lemma_fx_mul_bound(self.g as int, k as int, iabs(self.g as int), iabs(k as int));
            lemma_fx_mul_bound(self.b as int, k as int, iabs(self.b as int), iabs(k as int));
            lemma_iabs_mul_div_bound(self.r as int, k as int);
            lemma_iabs_mul_div_bound(self.g as int, k as int);
            lemma_iabs_mul_div_bound(self.b as int, k as int);
        }
        Spectrum { r: fx_mul(self.r, k), g: fx_mul(self.g, k), b: fx_mul(self.b, k) }
    }

    /// Every channel divided by the scalar `k`.
    pub fn div_by(&self, k: i64) -> (s: Spectrum)
        requires
            k >= 1,
            -0x7fffffffffffffff <= fx_div_s(self.r as int, k as int) <= 0x7fffffffffffffff,
            -0x7fffffffffffffff <= fx_div_s(self.g as int, k as int) <= 0x7fffffffffffffff,
            -0x7fffffffffffffff <= fx_div_s(self.b as int, k as int) <= 0x7fffffffffffffff,
        ensures
            s.r == fx_div_s(self.r as int, k as int),
            s.g == fx_div_s(self.g as int, k as int),
            s.b == fx_div_s(self.b as int, k as int),
    {
        Spectrum { r: fx_div(self.r, k), g: fx_div(self.g, k), b: fx_div(self.b, k) }
    }

    /// Component-wise square root of a non-negative spectrum.
    pub fn sqrt(&self) -> (s: Spectrum)
        requires
            spectrum_nonneg(*self),
        ensures
            s.r == fx_sqrt_s(self.r as int),
            s.g == fx_sqrt_s(self.g as int),
            s.b == fx_sqrt_s(self.b as int),
            spectrum_nonneg(s),
    {
        Spectrum { r: fx_sqrt(self.r), g: fx_sqrt(self.g), b: fx_sqrt(self.b) }
    }

    /// Luminance: the weighted sum of the channels.
    pub fn y(&self) -> (lum: i64)
        requires
            spectrum_bounded(*self, 0x400000000000000),
        ensures
            lum == spec_luminance(*self),
    {
        proof {
            lemma_fx_mul_bound(FX_LUM_R as int, self.r as int, FX_ONE as int, 0x400000000000000);
            lemma_fx_mul_bound(FX_LUM_G as int, self.g as int, FX_ONE as int, 0x400000000000000);
            lemma_fx_mul_bound(FX_LUM_B as int, self.b as int, FX_ONE as int, 0x400000000000000);
        }
        fx_mul(FX_LUM_R, self.r) + fx_mul(FX_LUM_G, self.g) + fx_mul(FX_LUM_B, self.b)
    }
}

/// Whether every channel is zero.
pub open spec fn spec_is_black(s: Spectrum) -> bool {
    s.r == 0 && s.g == 0 && s.b == 0
}

/// Every channel multiplied by the scalar `k`, in specifications.
pub open spec fn spec_scale_spectrum(s: Spectrum, k: int) -> Spectrum {
    spec_rgb(
        fx_mul_s(s.r as int, k),
        fx_mul_s(s.g as int, k),
        fx_mul_s(s.b as int, k),
    )
}

/// The component-wise square root, in specifications.
pub open spec fn spec_sqrt_spectrum(s: Spectrum) -> Spectrum {
    spec_rgb(fx_sqrt_s(s.r as int), fx_sqrt_s(s.g as int), fx_sqrt_s(s.b as int))
}

/// The exact value of the component-wise interpolation
/// `(1 - t) * a + t * b`.
pub open spec fn spec_spectrum_lerp(t: int, a: Spectrum, b: Spectrum) -> Spectrum {
    spec_rgb(
        fx_lerp_s(t, a.r as int, b.r as int),
        fx_lerp_s(t, a.g as int, b.g as int),
        fx_lerp_s(t, a.b as int, b.b as int),
    )
}

/// Component-wise interpolation `(1 - t) * a + t * b` between two spectra.
pub fn spectrum_lerp(t: i64, a: &Spectrum, b: &Spectrum) -> (s: Spectrum)
    requires
        0 <= t <= FX_ONE,
        spectrum_bounded(*a, 0x100000000000000),
        spectrum_bounded(*b, 0x100000000000000),
    ensures
        s == spec_spectrum_lerp(t as int, *a, *b),
        s.r == fx_lerp_s(t as int, a.r as int, b.r as int),
        s.g == fx_lerp_s(t as int, a.g as int, b.g as int),
        s.b == fx_lerp_s(t as int, a.b as int, b.b as int),
{
    Spectrum {
        r: fx_lerp(t, a.r, b.r),
        g: fx_lerp(t, a.g, b.g),
        b: fx_lerp(t, a.b, b.b),
    }
}

/// From the magnitude precondition of a component product, the truncated
/// product itself fits the scalar range.
proof fn lemma_iabs_mul_div_bound(a: int, b: int)
    requires
        iabs(a) * iabs(b) <= 0x7fffffffffffffff * (FX_ONE as int),
    ensures
        -0x7fffffffffffffff <= fx_mul_s(a, b) <= 0x7fffffffffffffff,
{
    lemma_fx_mul_bound(a, b, iabs(a), iabs(b));
    assert((iabs(a) * iabs(b)) / (FX_ONE as int) <= 0x7fffffffffffffff) by {
        vstd::arithmetic::div_mod::lemma_div_is_ordered(iabs(a) * iabs(b), 0x7fffffffffffffff * (
        FX_ONE as int), FX_ONE as int);
        assert((0x7fffffffffffffff * (FX_ONE as int)) / (FX_ONE as int) == 0x7fffffffffffffff)
            by (nonlinear_arith);
    }
}

} // verus!
