//! Shared scalar helpers of the principled shading model: the Schlick
//! grazing-angle weight, the Schlick normal-incidence reflectance, the GTR1
//! normal distribution and the Smith GGX masking term.

use vstd::prelude::*;
use crate::fixed::{
    fx_mul, fx_mul_s, fx_div, fx_div_s, fx_clamp, fx_clamp_s, fx_lerp, fx_lerp_s, fx_log10,
    fx_log10_s, fx_sqrt, fx_sqrt_s, iabs, lemma_fx_mul_bound, lemma_fx_mul_unit,
    lemma_fx_mul_neg_unit, lemma_fx_mul_neg_lower, lemma_fx_div_bound, lemma_fx_div_neg_neg,
    lemma_fx_sq_lower, lemma_fx_sqrt_lower, lemma_fx_sqrt_upper, FX_ONE, FX_LOG10_2,
};

verus! {

/// The fixed-point representation of pi.
pub const FX_PI: i64 = 13493037704;

/// The fixed-point representation of 1 / pi.
pub const FX_INV_PI: i64 = 1367130551;

/// Smallest distribution width the GTR1 and Smith helpers accept
/// (the value 1/1024); keeps their denominators away from zero.
pub const FX_ALPHA_MIN: i64 = 4194304;

/// Largest width the GTR1 helper accepts (the value 0.5); keeps the
/// logarithm in its denominator away from zero.
pub const FX_GTR1_ALPHA_MAX: i64 = 2147483648;

/// Upper bound on any GTR1 value under the accepted widths.
pub const FX_GTR1_MAX: i64 = 9007199254740992;

/// The exact value of the fixed-point square.
pub open spec fn spec_sqr(x: int) -> int {
    fx_mul_s(x, x)
}

/// The square of a scalar.
pub fn sqr(x: i64) -> (r: i64)
    requires
        iabs(x as int) <= 0x800000000000,
    ensures
        r == spec_sqr(x as int),
        0 <= r,
        iabs(x as int) <= FX_ONE ==> r <= FX_ONE,
{
    proof {
        lemma_fx_mul_bound(x as int, x as int, 0x800000000000, 0x800000000000);
        lemma_fx_sq_lower(iabs(x as int), 0);
        assert(fx_mul_s(x as int, x as int) == fx_mul_s(iabs(x as int), iabs(x as int)))
            by (nonlinear_arith);
        if iabs(x as int) <= FX_ONE {
            lemma_fx_mul_unit(iabs(x as int), iabs(x as int));
        }
    }
    fx_mul(x, x)
}

/// The exact value of the Schlick grazing weight `(1 - cos)^5`, with the
/// base clamped into `[0, 1]`.
pub open spec fn spec_schlick_weight(cos_theta: int) -> int {
    let m = fx_clamp_s(FX_ONE - cos_theta, 0, FX_ONE as int);
    let m2 = fx_mul_s(m, m);
    fx_mul_s(fx_mul_s(m2, m2), m)
}

/// The Schlick grazing-angle weight `clamp(1 - cos, 0, 1)^5`; zero at
/// normal incidence, one at grazing incidence.
pub fn schlick_weight(cos_theta: i64) -> (r: i64)
    requires
        -0x4000000000000000 <= cos_theta <= 0x4000000000000000,
    ensures
        r == spec_schlick_weight(cos_theta as int),
        0 <= r <= FX_ONE,
{
    let m = fx_clamp(FX_ONE - cos_theta, 0, FX_ONE);
    proof {
        lemma_fx_mul_unit(m as int, m as int);
    }
    let m2 = fx_mul(m, m);
    proof {
        lemma_fx_mul_unit(m2 as int, m2 as int);
    }
    let m4 = fx_mul(m2, m2);
    proof {
        lemma_fx_mul_unit(m4 as int, m as int);
    }
    fx_mul(m4, m)
}

/// The exact value of the dielectric normal-incidence reflectance
/// `(eta - 1)^2 / (eta + 1)^2`.
pub open spec fn spec_schlick_r0_from_eta(eta: int) -> int {
    fx_div_s(spec_sqr(eta - FX_ONE), spec_sqr(eta + FX_ONE))
}

/// Normal-incidence reflectance of a dielectric of relative index `eta`,
/// seen from air.
pub fn schlick_r0_from_eta(eta: i64) -> (r: i64)
    requires
        0 <= eta <= 0x10000000000,
    ensures
        r == spec_schlick_r0_from_eta(eta as int),
        0 <= r <= FX_ONE,
{
    let num = sqr(eta - FX_ONE);
    let den = sqr(eta + FX_ONE);
    proof {
        lemma_fx_sq_lower((eta + FX_ONE) as int, FX_ONE as int);
        assert((FX_ONE as int) * (FX_ONE as int) / (FX_ONE as int) == FX_ONE as int)
            by (nonlinear_arith);
        assert((eta as int - FX_ONE) * (eta as int - FX_ONE) <= (eta as int + FX_ONE) * (eta
            as int + FX_ONE)) by (nonlinear_arith)
            requires
                eta >= 0,
        ;
        vstd::arithmetic::div_mod::lemma_div_is_ordered((eta as int - FX_ONE) * (eta as int
            - FX_ONE), (eta as int + FX_ONE) * (eta as int + FX_ONE), FX_ONE as int);
        assert(fx_mul_s(eta as int - FX_ONE, eta as int - FX_ONE) == ((eta as int - FX_ONE) * (
        eta as int - FX_ONE)) / (FX_ONE as int)) by (nonlinear_arith);
        assert(num <= den);
        lemma_fx_div_bound(num as int, den as int, den as int, den as int);
        assert((den as int) * (FX_ONE as int) / (den as int) == FX_ONE as int)
            by (nonlinear_arith)
            requires
                den >= 1,
        ;
    }
    fx_div(num, den)
}

/// The exact value of the Schlick Fresnel interpolation
/// `r0 + (1 - r0) (1 - cos)^5`.
pub open spec fn spec_fr_schlick(r0: int, cos_theta: int) -> int {
    fx_lerp_s(spec_schlick_weight(cos_theta), r0, FX_ONE as int)
}

/// Schlick's Fresnel approximation: reflectance `r0` at normal incidence
/// rising to one at grazing incidence.
pub fn fr_schlick(r0: i64, cos_theta: i64) -> (r: i64)
    requires
        0 <= r0 <= FX_ONE,
        -0x4000000000000000 <= cos_theta <= 0x4000000000000000,
    ensures
        r == spec_fr_schlick(r0 as int, cos_theta as int),
        0 <= r <= FX_ONE,
{
    let w = schlick_weight(cos_theta);
    proof {
        lemma_fx_mul_unit((FX_ONE - w) as int, r0 as int);
        lemma_fx_mul_unit(w as int, FX_ONE as int);
    }
    fx_lerp(w, r0, FX_ONE)
}

/// The exact value of the GTR1 normal distribution at a half-vector cosine,
/// with the cosine clamped into `[0, 1]`.
pub open spec fn spec_gtr1(cos_theta: int, alpha: int) -> int {
    let c = fx_clamp_s(cos_theta, 0, FX_ONE as int);
    let a2 = fx_mul_s(alpha, alpha);
    let inner = FX_ONE + fx_mul_s(a2 - FX_ONE, fx_mul_s(c, c));
    fx_div_s(a2 - FX_ONE, fx_mul_s(fx_mul_s(FX_PI as int, fx_log10_s(a2)), inner))
}

/// The GTR1 normal distribution with width `alpha`; non-negative for every
/// cosine, positive denominator kept away from zero by the width bounds.
pub fn gtr1(cos_theta: i64, alpha: i64) -> (r: i64)
    requires
        FX_ALPHA_MIN <= alpha <= FX_GTR1_ALPHA_MAX,
        -0x4000000000000000 <= cos_theta <= 0x4000000000000000,
    ensures
        r == spec_gtr1(cos_theta as int, alpha as int),
        0 <= r <= FX_GTR1_MAX,
{
    let c = fx_clamp(cos_theta, 0, FX_ONE);
    proof {
        lemma_fx_mul_unit(alpha as int, alpha as int);
        lemma_fx_sq_lower(alpha as int, FX_ALPHA_MIN as int);
        lemma_fx_mul_unit(c as int, c as int);
    }
    let a2 = fx_mul(alpha, alpha);
    let c2 = fx_mul(c, c);
    proof {
        lemma_fx_mul_neg_unit((a2 - FX_ONE) as int, c2 as int);
    }
    let scaled = fx_mul(a2 - FX_ONE, c2);
    let inner = FX_ONE + scaled;
    let l = fx_log10(a2);
    proof {
        assert((FX_PI as int) * (l as int) == (l as int) * (FX_PI as int)) by (nonlinear_arith);
        lemma_fx_mul_neg_lower(l as int, FX_PI as int, FX_LOG10_2 as int, FX_PI as int);
        lemma_fx_mul_bound(FX_PI as int, l as int, FX_PI as int, 32 * FX_ONE as int);
    }
    let d1 = fx_mul(FX_PI, l);
    proof {
        lemma_fx_mul_neg_lower(d1 as int, inner as int, ((FX_LOG10_2 as int) * (FX_PI as int))
            / (FX_ONE as int), 4096);
        lemma_fx_mul_bound(d1 as int, inner as int, iabs(d1 as int), FX_ONE as int);
    }
    let den = fx_mul(d1, inner);
    proof {
        lemma_fx_div_neg_neg((a2 - FX_ONE) as int, den as int, FX_ONE as int, 3873);
    }
    fx_div(a2 - FX_ONE, den)
}

/// The exact value of the Smith GGX masking term, with the cosine clamped
/// into `[0, 1]`.
pub open spec fn spec_smith_g_ggx(cos_theta: int, alpha: int) -> int {
    let c = fx_clamp_s(cos_theta, 0, FX_ONE as int);
    let a2 = fx_mul_s(alpha, alpha);
    let c2 = fx_mul_s(c, c);
    fx_div_s(FX_ONE as int, c + fx_sqrt_s(a2 + c2 - fx_mul_s(a2, c2)))
}

/// The separable Smith GGX masking term
/// `1 / (cos + sqrt(alpha^2 + cos^2 - alpha^2 cos^2))`.
pub fn smith_g_ggx(cos_theta: i64, alpha: i64) -> (r: i64)
    requires
        FX_ALPHA_MIN <= alpha <= FX_ONE,
        -0x4000000000000000 <= cos_theta <= 0x4000000000000000,
    ensures
        r == spec_smith_g_ggx(cos_theta as int, alpha as int),
        0 <= r <= 0x40000000000,
        fx_mul_s(alpha as int, alpha as int) >= 0x10000000 ==> r <= 0x400000000,
{
    let c = fx_clamp(cos_theta, 0, FX_ONE);
    proof {
        lemma_fx_mul_unit(alpha as int, alpha as int);
        lemma_fx_sq_lower(alpha as int, FX_ALPHA_MIN as int);
        lemma_fx_mul_unit(c as int, c as int);
    }
    let a2 = fx_mul(alpha, alpha);
    let c2 = fx_mul(c, c);
    proof {
        lemma_fx_mul_unit(a2 as int, c2 as int);
    }
    let prod = fx_mul(a2, c2);
    let inner = a2 + c2 - prod;
    let root = fx_sqrt(inner);
    proof {
        assert(0x400000 * 0x400000 <= (inner as int) * (FX_ONE as int)) by (nonlinear_arith)
            requires
                inner >= 4096,
        ;
        lemma_fx_sqrt_lower(inner as int, root as int, 0x400000);
        assert((inner as int) * (FX_ONE as int) < (2 * FX_ONE as int + 1) * (2 * FX_ONE as int
            + 1)) by (nonlinear_arith)
            requires
                inner <= 2 * FX_ONE,
        ;
        lemma_fx_sqrt_upper(inner as int, root as int, 2 * FX_ONE as int);
    }
    let den = c + root;
    proof {
        lemma_fx_div_bound(FX_ONE as int, den as int, FX_ONE as int, 0x400000);
        if fx_mul_s(alpha as int, alpha as int) >= 0x10000000 {
            assert(0x40000000 * 0x40000000 <= (inner as int) * (FX_ONE as int))
                by (nonlinear_arith)
                requires
                    inner >= 0x10000000,
            ;
            lemma_fx_sqrt_lower(inner as int, root as int, 0x40000000);
            lemma_fx_div_bound(FX_ONE as int, den as int, FX_ONE as int, 0x40000000);
        }
    }
    fx_div(FX_ONE, den)
}

} // verus!
