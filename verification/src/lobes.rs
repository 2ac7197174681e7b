//! The scattering lobes of the principled shading model.  Each lobe is a
//! pure value; `f` evaluates it for a pair of directions in the local
//! shading frame, and the clear-coat lobe also importance-samples itself.
//!
//! Degenerate geometry (a vanishing half vector, grazing incidence, a
//! rejected sample) yields an exact zero value and zero density.

use vstd::prelude::*;
use crate::fixed::{
    fx_mul, fx_mul_s, fx_div, fx_div_s, fx_sqrt, fx_sqrt_s, fx_clamp, fx_clamp_s, fx_pow_frac,
    fx_pow_frac_s, iabs, lemma_fx_mul_bound, lemma_fx_mul_nonneg, lemma_fx_mul_unit,
    lemma_fx_mul_comm, lemma_fx_sq_nonneg, lemma_fx_sqrt_lower, lemma_fx_sqrt_upper,
    lemma_fx_div_lower, lemma_fx_div_bound, lemma_fx_lerp_range, fx_div_sat, fx_div_sat_s,
    fx_lerp, fx_lerp_s, fx_max, FX_ONE, FX_HALF, FX_QUARTER, FX_INV_COS_CAP, FX_PDF_CAP,
};
use crate::geometry::{
    Vector3, Point2, vec3_add, vec3_dot_vec3, vec3_div_scalar, vec3_neg, abs_cos_theta,
    vec3_same_hemisphere_vec3, reflect, spherical_direction, spec_add, spec_dot, spec_reflect,
    spec_spherical_direction, spec_same_hemisphere, vec_bounded, dir_wf, sample_wf,
    lemma_normalize_bound, FX_DIR_MAX,
};
use crate::spectrum::{Spectrum, ch, spectrum_nonneg, spectrum_bounded, FX_SPECTRUM_MAX};
use crate::shading_math::{
    schlick_weight, spec_schlick_weight, fr_schlick, spec_fr_schlick, gtr1, spec_gtr1,
    smith_g_ggx, spec_smith_g_ggx, FX_INV_PI, FX_ALPHA_MIN, FX_GTR1_ALPHA_MAX, FX_GTR1_MAX,
};

verus! {

/// Lobe flag: reflective.
pub const BSDF_REFLECTION: u8 = 1;

/// Lobe flag: transmissive.
pub const BSDF_TRANSMISSION: u8 = 2;

/// Lobe flag: diffuse distribution.
pub const BSDF_DIFFUSE: u8 = 4;

/// Lobe flag: glossy distribution.
pub const BSDF_GLOSSY: u8 = 8;

/// Lobe flag: perfectly specular distribution.
pub const BSDF_SPECULAR: u8 = 16;

/// The fixed-point representation of 1.25, the albedo-preserving scale of
/// the fake-subsurface term.
pub const FX_1_25: i64 = 5368709120;

/// Magnitude bound accepted for the channels of a uniform scale spectrum.
pub const FX_SCALE_MAX: i64 = 68719476736;

/// A well-formed optional uniform scale: absent, or non-negative and
/// bounded.
pub open spec fn scale_opt_wf(sc_opt: Option<Spectrum>) -> bool {
    match sc_opt {
        Some(sc) => spectrum_nonneg(sc) && spectrum_bounded(sc, FX_SCALE_MAX as int),
        None => true,
    }
}

/// The channel `i` of a base value after an optional uniform scale.
pub open spec fn spec_apply_scale(sc_opt: Option<Spectrum>, i: int, base: int) -> int {
    match sc_opt {
        Some(sc) => fx_mul_s(ch(sc, i), base),
        None => base,
    }
}

/// Applies an optional uniform scale to an evaluated spectrum.
fn apply_scale(sc_opt: &Option<Spectrum>, base: &Spectrum) -> (s: Spectrum)
    requires
        scale_opt_wf(*sc_opt),
        spectrum_bounded(*base, 0x400000000000000),
    ensures
        ch(s, 0) == spec_apply_scale(*sc_opt, 0, ch(*base, 0)),
        ch(s, 1) == spec_apply_scale(*sc_opt, 1, ch(*base, 1)),
        ch(s, 2) == spec_apply_scale(*sc_opt, 2, ch(*base, 2)),
        spectrum_nonneg(*base) ==> spectrum_nonneg(s),
    {
    match sc_opt {
        Some(sc) => {
            proof {
                lemma_scale_product_fits(sc.r as int, base.r as int);
                lemma_scale_product_fits(sc.g as int, base.g as int);
                lemma_scale_product_fits(sc.b as int, base.b as int);
                if spectrum_nonneg(*base) {
                    lemma_fx_mul_nonneg(sc.r as int, base.r as int);
                    lemma_fx_mul_nonneg(sc.g as int, base.g as int);
                    lemma_fx_mul_nonneg(sc.b as int, base.b as int);
                }
            }
            sc.cmul(base)
        },
        None => { *base },
    }
}

/// A bounded scale channel times a bounded base channel fits the scalar
/// range.
proof fn lemma_scale_product_fits(a: int, b: int)
    requires
        0 <= a <= FX_SCALE_MAX,
        iabs(b) <= 0x400000000000000,
    ensures
        iabs(a) * iabs(b) <= 0x7fffffffffffffff * (FX_ONE as int),
{
    assert(iabs(a) * iabs(b) <= 0x1000000000 * 0x400000000000000) by (nonlinear_arith)
        requires
            0 <= iabs(a) <= 0x1000000000,
            0 <= iabs(b) <= 0x400000000000000,
    ;
}

/// The half-vector data of a direction pair: the squared length of
/// `wi + wo` and its rounded length.
pub open spec fn spec_half_len2(wo: Vector3, wi: Vector3) -> int {
    let h = spec_add(wi, wo);
    spec_dot(h, h)
}

/// The rounded length of the half vector `wi + wo`.
pub open spec fn spec_half_len(wo: Vector3, wi: Vector3) -> int {
    fx_sqrt_s(spec_half_len2(wo, wi))
}

/// The cosine between `wi` and the normalized half vector, computed as half
/// the length of `wi + wo`; for unit directions the two agree, and this
/// form is exactly symmetric in its arguments.
pub open spec fn spec_cos_half(wo: Vector3, wi: Vector3) -> int {
    spec_half_len(wo, wi) / 2
}

/// Computes the squared half-vector length and, when it is not zero, the
/// rounded length.
fn half_len2_len(wo: &Vector3, wi: &Vector3) -> (r: (i64, i64))
    requires
        vec_bounded(*wo, FX_ONE as int),
        vec_bounded(*wi, FX_ONE as int),
    ensures
        r.0 == spec_half_len2(*wo, *wi),
        0 <= r.0 <= 0xc00000000,
        r.0 >= 1 ==> r.1 == spec_half_len(*wo, *wi) && 0x10000 <= r.1 <= 0x400000000,
{
    let h = vec3_add(wi, wo);
    let l2 = vec3_dot_vec3(&h, &h);
    proof {
        lemma_fx_sq_nonneg(h.x as int);
        lemma_fx_sq_nonneg(h.y as int);
        lemma_fx_sq_nonneg(h.z as int);
        lemma_fx_mul_bound(h.x as int, h.x as int, 2 * FX_ONE as int, 2 * FX_ONE as int);
        lemma_fx_mul_bound(h.y as int, h.y as int, 2 * FX_ONE as int, 2 * FX_ONE as int);
        lemma_fx_mul_bound(h.z as int, h.z as int, 2 * FX_ONE as int, 2 * FX_ONE as int);
    }
    if l2 == 0 {
        (0, 0)
    } else {
        let len = fx_sqrt(l2);
        proof {
            assert(0x10000 * 0x10000 <= (l2 as int) * (FX_ONE as int)) by (nonlinear_arith)
                requires
                    l2 >= 1,
            ;
            lemma_fx_sqrt_lower(l2 as int, len as int, 0x10000);
            assert((l2 as int) * (FX_ONE as int) < (0x400000000 + 1) * (0x400000000 + 1))
                by (nonlinear_arith)
                requires
                    l2 <= 0xc00000000,
            ;
            lemma_fx_sqrt_upper(l2 as int, len as int, 0x400000000);
        }
        (l2, len)
    }
}

// ---------------------------------------------------------------------
// Diffuse lobe
// ---------------------------------------------------------------------

/// The diffuse lobe: a Lambertian base modulated by Schlick grazing
/// weights, going from full strength at normal incidence to half at
/// grazing incidence.
#[derive(Clone, Copy, Debug, PartialEq, Eq, Structural)]
pub struct DisneyDiffuse {
    pub r: Spectrum,
    pub sc_opt: Option<Spectrum>,
}

/// The unscaled channel value of the diffuse lobe.
pub open spec fn spec_diffuse_base(rc: int, wo: Vector3, wi: Vector3) -> int {
    let fo = spec_schlick_weight(iabs(wo.z as int));
    let fi = spec_schlick_weight(iabs(wi.z as int));
    let w = fx_mul_s(FX_ONE - fo / 2, FX_ONE - fi / 2);
    fx_mul_s(fx_mul_s(rc, FX_INV_PI as int), w)
}

impl DisneyDiffuse {
    /// A well-formed lobe: non-negative bounded weight and scale.
    pub open spec fn wf(self) -> bool {
        spectrum_nonneg(self.r) && spectrum_bounded(self.r, FX_SPECTRUM_MAX as int)
            && scale_opt_wf(self.sc_opt)
    }

    /// Channel `i` of the lobe's value for a direction pair.
    pub open spec fn spec_f(self, wo: Vector3, wi: Vector3, i: int) -> int {
        spec_apply_scale(self.sc_opt, i, spec_diffuse_base(ch(self.r, i), wo, wi))
    }

    /// Builds the lobe from its weight spectrum and optional uniform scale.
    pub fn new(r: Spectrum, sc_opt: Option<Spectrum>) -> (l: DisneyDiffuse)
        ensures
            l.r == r,
            l.sc_opt == sc_opt,
    {
        DisneyDiffuse { r, sc_opt }
    }

    /// Evaluates the lobe: `r / pi * (1 - fo/2) * (1 - fi/2)` with the
    /// Schlick weights `fo`, `fi` of the two directions.  Non-negative on
    /// every channel.
    pub fn f(&self, wo: &Vector3, wi: &Vector3) -> (val: Spectrum)
        requires
            self.wf(),
            vec_bounded(*wo, FX_ONE as int),
            vec_bounded(*wi, FX_ONE as int),
        ensures
            ch(val, 0) == self.spec_f(*wo, *wi, 0),
            ch(val, 1) == self.spec_f(*wo, *wi, 1),
            ch(val, 2) == self.spec_f(*wo, *wi, 2),
            spectrum_nonneg(val),
    {
        let fo = schlick_weight(abs_cos_theta(wo));
        let fi = schlick_weight(abs_cos_theta(wi));
        proof {
            lemma_fx_mul_unit(FX_ONE - fo as int / 2, FX_ONE - fi as int / 2);
        }
        let w = fx_mul(FX_ONE - fo / 2, FX_ONE - fi / 2);
        let base = diffuse_scaled(&self.r, w);
        apply_scale(&self.sc_opt, &base)
    }

    /// The flags of the lobe: diffuse reflection.
    pub fn get_type(&self) -> (t: u8)
        ensures
            t == (BSDF_REFLECTION | BSDF_DIFFUSE),
    {
        BSDF_REFLECTION | BSDF_DIFFUSE
    }
}

/// Multiplies a weight spectrum by `1/pi` and then by a factor in
/// `[0, 1]`, channel by channel.
fn diffuse_scaled(r: &Spectrum, w: i64) -> (s: Spectrum)
    requires
        spectrum_nonneg(*r),
        spectrum_bounded(*r, FX_SPECTRUM_MAX as int),
        0 <= w <= FX_ONE,
    ensures
        ch(s, 0) == fx_mul_s(fx_mul_s(r.r as int, FX_INV_PI as int), w as int),
        ch(s, 1) == fx_mul_s(fx_mul_s(r.g as int, FX_INV_PI as int), w as int),
        ch(s, 2) == fx_mul_s(fx_mul_s(r.b as int, FX_INV_PI as int), w as int),
        spectrum_nonneg(s),
        spectrum_bounded(s, FX_SPECTRUM_MAX as int),
{
    proof {
        lemma_diffuse_scaled_bounds(r.r as int, w as int);
        lemma_diffuse_scaled_bounds(r.g as int, w as int);
        lemma_diffuse_scaled_bounds(r.b as int, w as int);
    }
    let t = r.scale(FX_INV_PI);
    t.scale(w)
}

/// Channel bounds for the diffuse scaling chain.
proof fn lemma_diffuse_scaled_bounds(rc: int, w: int)
    requires
        0 <= rc <= FX_SPECTRUM_MAX,
        0 <= w <= FX_ONE,
    ensures
        iabs(rc) * iabs(FX_INV_PI as int) <= 0x7fffffffffffffff * (FX_ONE as int),
        0 <= fx_mul_s(rc, FX_INV_PI as int) <= FX_SPECTRUM_MAX,
        iabs(fx_mul_s(rc, FX_INV_PI as int)) * iabs(w) <= 0x7fffffffffffffff * (FX_ONE as int),
        0 <= fx_mul_s(fx_mul_s(rc, FX_INV_PI as int), w) <= FX_SPECTRUM_MAX,
{
    lemma_fx_mul_nonneg(rc, FX_INV_PI as int);
    lemma_fx_mul_bound(rc, FX_INV_PI as int, FX_SPECTRUM_MAX as int, FX_ONE as int);
    assert(iabs(rc) * iabs(FX_INV_PI as int) <= 0x200000000000 * 0x100000000)
        by (nonlinear_arith)
        requires
            0 <= iabs(rc) <= 0x200000000000,
            iabs(FX_INV_PI as int) <= 0x100000000,
    ;
    assert(((FX_SPECTRUM_MAX as int) * (FX_ONE as int)) / (FX_ONE as int) == FX_SPECTRUM_MAX
        as int) by (nonlinear_arith);
    let m = fx_mul_s(rc, FX_INV_PI as int);
    lemma_fx_mul_nonneg(m, w);
    lemma_fx_mul_bound(m, w, FX_SPECTRUM_MAX as int, FX_ONE as int);
    assert(iabs(m) * iabs(w) <= 0x200000000000 * 0x100000000) by (nonlinear_arith)
        requires
            0 <= iabs(m) <= 0x200000000000,
            iabs(w) <= 0x100000000,
    ;
}

/// The diffuse lobe is reciprocal: swapping the two directions leaves its
/// value unchanged, on every channel.
pub proof fn lemma_diffuse_f_symmetric(d: DisneyDiffuse, wo: Vector3, wi: Vector3, i: int)
    ensures
        d.spec_f(wo, wi, i) == d.spec_f(wi, wo, i),
{
    let fo = spec_schlick_weight(iabs(wo.z as int));
    let fi = spec_schlick_weight(iabs(wi.z as int));
    lemma_fx_mul_comm(FX_ONE - fo / 2, FX_ONE - fi / 2);
}

// ---------------------------------------------------------------------
// Fake-subsurface lobe
// ---------------------------------------------------------------------

/// The fake-subsurface lobe: a Hanrahan-Krueger-style blend of forward and
/// backward scattering, flattened by roughness and rescaled to roughly
/// preserve albedo.
#[derive(Clone, Copy, Debug, PartialEq, Eq, Structural)]
pub struct DisneyFakeSS {
    pub r: Spectrum,
    pub roughness: i64,
    pub sc_opt: Option<Spectrum>,
}

/// The unscaled channel value of the fake-subsurface lobe.
pub open spec fn spec_fakess_base(rc: int, rough: int, wo: Vector3, wi: Vector3) -> int {
    let l2 = spec_half_len2(wo, wi);
    if l2 == 0 {
        0
    } else {
        let cosd = spec_cos_half(wo, wi);
        let fss90 = fx_mul_s(fx_mul_s(cosd, cosd), rough);
        let fo = spec_schlick_weight(iabs(wo.z as int));
        let fi = spec_schlick_weight(iabs(wi.z as int));
        let fss = fx_mul_s(
            fx_lerp_s(fo, FX_ONE as int, fss90),
            fx_lerp_s(fi, FX_ONE as int, fss90),
        );
        let d = iabs(wo.z as int) + iabs(wi.z as int);
        if d == 0 {
            0
        } else {
            let ss = fx_mul_s(
                FX_1_25 as int,
                fx_mul_s(fss, fx_div_sat_s(FX_ONE as int, d, FX_INV_COS_CAP as int) - FX_HALF) + FX_HALF,
            );
            fx_mul_s(fx_mul_s(rc, FX_INV_PI as int), ss)
        }
    }
}

impl DisneyFakeSS {
    /// A well-formed lobe: non-negative bounded weight, roughness in
    /// `[0, 1]`, well-formed scale.
    pub open spec fn wf(self) -> bool {
        spectrum_nonneg(self.r) && spectrum_bounded(self.r, FX_SPECTRUM_MAX as int) && 0
            <= self.roughness <= FX_ONE && scale_opt_wf(self.sc_opt)
    }

    /// Channel `i` of the lobe's value for a direction pair.
    pub open spec fn spec_f(self, wo: Vector3, wi: Vector3, i: int) -> int {
        spec_apply_scale(self.sc_opt, i, spec_fakess_base(ch(self.r, i), self.roughness as int,
            wo, wi))
    }

    /// Builds the lobe from its weight, roughness and optional scale.
    pub fn new(r: Spectrum, roughness: i64, sc_opt: Option<Spectrum>) -> (l: DisneyFakeSS)
        ensures
            l.r == r,
            l.roughness == roughness,
            l.sc_opt == sc_opt,
    {
        DisneyFakeSS { r, roughness, sc_opt }
    }

    /// Evaluates the lobe.  A vanishing half vector or fully grazing pair
    /// yields exact zero; otherwise every channel is non-negative.
    pub fn f(&self, wo: &Vector3, wi: &Vector3) -> (val: Spectrum)
        requires
            self.wf(),
            vec_bounded(*wo, FX_ONE as int),
            vec_bounded(*wi, FX_ONE as int),
        ensures
            ch(val, 0) == self.spec_f(*wo, *wi, 0),
            ch(val, 1) == self.spec_f(*wo, *wi, 1),
            ch(val, 2) == self.spec_f(*wo, *wi, 2),
            spectrum_nonneg(val),
    {
        let (l2, len) = half_len2_len(wo, wi);
        if l2 == 0 {
            let z = Spectrum::zero();
            proof {
                lemma_apply_scale_zero(self.sc_opt);
            }
            return apply_scale(&self.sc_opt, &z);
        }
        let cosd = len / 2;
        proof {
            lemma_fx_mul_bound(cosd as int, cosd as int, 2 * FX_ONE as int, 2 * FX_ONE as int);
            lemma_fx_mul_nonneg(cosd as int, cosd as int);
        }
        let c2 = fx_mul(cosd, cosd);
        proof {
            lemma_fx_mul_nonneg(c2 as int, self.roughness as int);
            lemma_fx_mul_bound(c2 as int, self.roughness as int, 4 * FX_ONE as int,
                FX_ONE as int);
        }
        let fss90 = fx_mul(c2, self.roughness);
        let fo = schlick_weight(abs_cos_theta(wo));
        let fi = schlick_weight(abs_cos_theta(wi));
        proof {
            lemma_fx_lerp_range(fo as int, FX_ONE as int, fss90 as int, 0, 4 * FX_ONE as int);
            lemma_fx_lerp_range(fi as int, FX_ONE as int, fss90 as int, 0, 4 * FX_ONE as int);
            lemma_fx_mul_nonneg(FX_ONE - fo as int, FX_ONE as int);
            lemma_fx_mul_nonneg(fo as int, fss90 as int);
            lemma_fx_mul_nonneg(FX_ONE - fi as int, FX_ONE as int);
            lemma_fx_mul_nonneg(fi as int, fss90 as int);
        }
        let la = fx_lerp(fo, FX_ONE, fss90);
        let lb = fx_lerp(fi, FX_ONE, fss90);
        proof {
            lemma_fx_mul_nonneg(la as int, lb as int);
            lemma_fx_mul_bound(la as int, lb as int, 4 * FX_ONE as int, 4 * FX_ONE as int);
        }
        let fss = fx_mul(la, lb);
        let acwo = abs_cos_theta(wo);
        let acwi = abs_cos_theta(wi);
        let d = acwo + acwi;
        if d == 0 {
            let z = Spectrum::zero();
            proof {
                lemma_apply_scale_zero(self.sc_opt);
            }
            return apply_scale(&self.sc_opt, &z);
        }
        proof {
            lemma_fx_div_lower(FX_ONE as int, d as int, 2 * FX_ONE as int);
            assert(((FX_ONE as int) * (FX_ONE as int)) / (2 * FX_ONE as int) == FX_HALF as int)
                by (nonlinear_arith);
        }
        let inv = fx_div_sat(FX_ONE, d, FX_INV_COS_CAP);
        proof {
            lemma_fx_mul_nonneg(fss as int, (inv - FX_HALF) as int);
            lemma_fx_mul_bound(fss as int, (inv - FX_HALF) as int, 16 * FX_ONE as int,
                FX_INV_COS_CAP as int);
        }
        let t1 = fx_mul(fss, inv - FX_HALF);
        proof {
            lemma_fx_mul_nonneg(FX_1_25 as int, (t1 + FX_HALF) as int);
            lemma_fx_mul_bound(FX_1_25 as int, (t1 + FX_HALF) as int, 2 * FX_ONE as int,
                17594333528064);
        }
        let ss = fx_mul(FX_1_25, t1 + FX_HALF);
        let base = fakess_scaled(&self.r, ss);
        apply_scale(&self.sc_opt, &base)
    }

    /// The flags of the lobe: diffuse reflection.
    pub fn get_type(&self) -> (t: u8)
        ensures
            t == (BSDF_REFLECTION | BSDF_DIFFUSE),
    {
        BSDF_REFLECTION | BSDF_DIFFUSE
    }
}

/// An optional scale applied to the zero spectrum yields zero channels.
proof fn lemma_apply_scale_zero(sc_opt: Option<Spectrum>)
    ensures
        forall|i: int| spec_apply_scale(sc_opt, i, 0) == 0,
{
    assert forall|i: int| spec_apply_scale(sc_opt, i, 0) == 0 by {
        match sc_opt {
            Some(sc) => {
                assert(ch(sc, i) * 0 == 0) by (nonlinear_arith);
            },
            None => {},
        }
    }
}

/// Multiplies a weight spectrum by `1/pi` and then by a non-negative
/// subsurface factor, channel by channel.
fn fakess_scaled(r: &Spectrum, ss: i64) -> (s: Spectrum)
    requires
        spectrum_nonneg(*r),
        spectrum_bounded(*r, FX_SPECTRUM_MAX as int),
        0 <= ss <= 30000000000000,
    ensures
        ch(s, 0) == fx_mul_s(fx_mul_s(r.r as int, FX_INV_PI as int), ss as int),
        ch(s, 1) == fx_mul_s(fx_mul_s(r.g as int, FX_INV_PI as int), ss as int),
        ch(s, 2) == fx_mul_s(fx_mul_s(r.b as int, FX_INV_PI as int), ss as int),
        spectrum_nonneg(s),
        spectrum_bounded(s, 0x400000000000000),
{
    proof {
        lemma_fakess_scaled_bounds(r.r as int, ss as int);
        lemma_fakess_scaled_bounds(r.g as int, ss as int);
        lemma_fakess_scaled_bounds(r.b as int, ss as int);
    }
    let t = r.scale(FX_INV_PI);
    t.scale(ss)
}

/// Channel bounds for the fake-subsurface scaling chain.
proof fn lemma_fakess_scaled_bounds(rc: int, ss: int)
    requires
        0 <= rc <= FX_SPECTRUM_MAX,
        0 <= ss <= 30000000000000,
    ensures
        iabs(rc) * iabs(FX_INV_PI as int) <= 0x7fffffffffffffff * (FX_ONE as int),
        0 <= fx_mul_s(rc, FX_INV_PI as int) <= FX_SPECTRUM_MAX,
        iabs(fx_mul_s(rc, FX_INV_PI as int)) * iabs(ss) <= 0x7fffffffffffffff * (FX_ONE as int),
        0 <= fx_mul_s(fx_mul_s(rc, FX_INV_PI as int), ss) <= 0x400000000000000,
{
    lemma_fx_mul_nonneg(rc, FX_INV_PI as int);
    lemma_fx_mul_bound(rc, FX_INV_PI as int, FX_SPECTRUM_MAX as int, FX_ONE as int);
    assert(iabs(rc) * iabs(FX_INV_PI as int) <= 0x200000000000 * 0x100000000)
        by (nonlinear_arith)
        requires
            0 <= iabs(rc) <= 0x200000000000,
            iabs(FX_INV_PI as int) <= 0x100000000,
    ;
    assert(((FX_SPECTRUM_MAX as int) * (FX_ONE as int)) / (FX_ONE as int) == FX_SPECTRUM_MAX
        as int) by (nonlinear_arith);
    let m = fx_mul_s(rc, FX_INV_PI as int);
    lemma_fx_mul_nonneg(m, ss);
    lemma_fx_mul_bound(m, ss, FX_SPECTRUM_MAX as int, 30000000000000);
    assert(iabs(m) * iabs(ss) <= 0x200000000000 * 30000000000000) by (nonlinear_arith)
        requires
            0 <= iabs(m) <= 0x200000000000,
            iabs(ss) <= 30000000000000,
    ;
    assert(((FX_SPECTRUM_MAX as int) * 30000000000000) / (FX_ONE as int)
        <= 0x400000000000000) by (nonlinear_arith);
}

/// The fake-subsurface lobe is reciprocal: swapping the two directions
/// leaves its value unchanged, on every channel.
pub proof fn lemma_fakess_f_symmetric(l: DisneyFakeSS, wo: Vector3, wi: Vector3, i: int)
    ensures
        l.spec_f(wo, wi, i) == l.spec_f(wi, wo, i),
{
    assert(spec_add(wi, wo) == spec_add(wo, wi));
    let fo = spec_schlick_weight(iabs(wo.z as int));
    let fi = spec_schlick_weight(iabs(wi.z as int));
    let cosd = spec_cos_half(wo, wi);
    let fss90 = fx_mul_s(fx_mul_s(cosd, cosd), l.roughness as int);
    lemma_fx_mul_comm(
        fx_lerp_s(fo, FX_ONE as int, fss90),
        fx_lerp_s(fi, FX_ONE as int, fss90),
    );
}

// ---------------------------------------------------------------------
// Retro-reflection lobe
// ---------------------------------------------------------------------

/// The retro-reflection lobe: roughness-driven glow around the
/// retro-reflective direction.
#[derive(Clone, Copy, Debug, PartialEq, Eq, Structural)]
pub struct DisneyRetro {
    pub r: Spectrum,
    pub roughness: i64,
    pub sc_opt: Option<Spectrum>,
}

/// The unscaled channel value of the retro-reflection lobe.
pub open spec fn spec_retro_base(rc: int, rough: int, wo: Vector3, wi: Vector3) -> int {
    let l2 = spec_half_len2(wo, wi);
    if l2 == 0 {
        0
    } else {
        let cosd = spec_cos_half(wo, wi);
        let fo = spec_schlick_weight(iabs(wo.z as int));
        let fi = spec_schlick_weight(iabs(wi.z as int));
        let rr = fx_mul_s(fx_mul_s(fx_mul_s(2 * FX_ONE, rough), cosd), cosd);
        let inner = fo + fi + fx_mul_s(fx_mul_s(fo, fi), rr - FX_ONE);
        fx_mul_s(fx_mul_s(fx_mul_s(rc, FX_INV_PI as int), rr), inner)
    }
}

impl DisneyRetro {
    /// A well-formed lobe: non-negative bounded weight, roughness in
    /// `[0, 1]`, well-formed scale.
    pub open spec fn wf(self) -> bool {
        spectrum_nonneg(self.r) && spectrum_bounded(self.r, FX_SPECTRUM_MAX as int) && 0
            <= self.roughness <= FX_ONE && scale_opt_wf(self.sc_opt)
    }

    /// Channel `i` of the lobe's value for a direction pair.
    pub open spec fn spec_f(self, wo: Vector3, wi: Vector3, i: int) -> int {
        spec_apply_scale(self.sc_opt, i, spec_retro_base(ch(self.r, i), self.roughness as int,
            wo, wi))
    }

    /// Builds the lobe from its weight, roughness and optional scale.
    pub fn new(r: Spectrum, roughness: i64, sc_opt: Option<Spectrum>) -> (l: DisneyRetro)
        ensures
            l.r == r,
            l.roughness == roughness,
            l.sc_opt == sc_opt,
    {
        DisneyRetro { r, roughness, sc_opt }
    }

    /// Evaluates the lobe: `r / pi * rr * (fo + fi + fo fi (rr - 1))` with
    /// the Schlick weights of the two directions.  A vanishing half vector
    /// yields exact zero; otherwise every channel is non-negative.
    pub fn f(&self, wo: &Vector3, wi: &Vector3) -> (val: Spectrum)
        requires
            self.wf(),
            vec_bounded(*wo, FX_ONE as int),
            vec_bounded(*wi, FX_ONE as int),
        ensures
            ch(val, 0) == self.spec_f(*wo, *wi, 0),
            ch(val, 1) == self.spec_f(*wo, *wi, 1),
            ch(val, 2) == self.spec_f(*wo, *wi, 2),
            spectrum_nonneg(val),
    {
        let (l2, len) = half_len2_len(wo, wi);
        if l2 == 0 {
            let z = Spectrum::zero();
            proof {
                lemma_apply_scale_zero(self.sc_opt);
            }
            return apply_scale(&self.sc_opt, &z);
        }
        let cosd = len / 2;
        let fo = schlick_weight(abs_cos_theta(wo));
        let fi = schlick_weight(abs_cos_theta(wi));
        proof {
            lemma_fx_mul_nonneg(2 * FX_ONE as int, self.roughness as int);
            lemma_fx_mul_unit(FX_ONE as int, self.roughness as int);
            assert(fx_mul_s(2 * FX_ONE, self.roughness as int) <= 2 * FX_ONE) by {
                assert((2 * FX_ONE as int) * (self.roughness as int) <= (2 * FX_ONE as int) * (
                FX_ONE as int)) by (nonlinear_arith)
                    requires
                        0 <= self.roughness <= FX_ONE,
                ;
                vstd::arithmetic::div_mod::lemma_div_is_ordered((2 * FX_ONE as int) * (
                self.roughness as int), (2 * FX_ONE as int) * (FX_ONE as int), FX_ONE as int);
                assert(((2 * FX_ONE as int) * (FX_ONE as int)) / (FX_ONE as int) == 2 * FX_ONE
                    as int) by (nonlinear_arith);
            }
        }
        let t2r = fx_mul(2 * FX_ONE, self.roughness);
        proof {
            lemma_fx_mul_nonneg(t2r as int, cosd as int);
            lemma_fx_mul_bound(t2r as int, cosd as int, 2 * FX_ONE as int, 2 * FX_ONE as int);
        }
        let t2 = fx_mul(t2r, cosd);
        proof {
            lemma_fx_mul_nonneg(t2 as int, cosd as int);
            lemma_fx_mul_bound(t2 as int, cosd as int, 4 * FX_ONE as int, 2 * FX_ONE as int);
        }
        let rr = fx_mul(t2, cosd);
        proof {
            lemma_fx_mul_unit(fo as int, fi as int);
        }
        let p = fx_mul(fo, fi);
        proof {
            lemma_fx_mul_bound(p as int, (rr - FX_ONE) as int, FX_ONE as int, 8 * FX_ONE as int);
            if rr < FX_ONE {
                lemma_fx_mul_bound(p as int, (rr - FX_ONE) as int, p as int, FX_ONE as int);
                assert(((p as int) * (FX_ONE as int)) / (FX_ONE as int) == p as int)
                    by (nonlinear_arith);
            } else {
                lemma_fx_mul_nonneg(p as int, (rr - FX_ONE) as int);
            }
        }
        let q = fx_mul(p, rr - FX_ONE);
        let inner = fo + fi + q;
        let base = retro_scaled(&self.r, rr, inner);
        apply_scale(&self.sc_opt, &base)
    }

    /// The flags of the lobe: diffuse reflection.
    pub fn get_type(&self) -> (t: u8)
        ensures
            t == (BSDF_REFLECTION | BSDF_DIFFUSE),
    {
        BSDF_REFLECTION | BSDF_DIFFUSE
    }
}

/// Multiplies a weight spectrum by `1/pi`, then by the retro term and the
/// grazing sum, channel by channel.
fn retro_scaled(r: &Spectrum, rr: i64, inner: i64) -> (s: Spectrum)
    requires
        spectrum_nonneg(*r),
        spectrum_bounded(*r, FX_SPECTRUM_MAX as int),
        0 <= rr <= 8 * FX_ONE,
        0 <= inner <= 11 * FX_ONE,
    ensures
        ch(s, 0) == fx_mul_s(fx_mul_s(fx_mul_s(r.r as int, FX_INV_PI as int), rr as int),
            inner as int),
        ch(s, 1) == fx_mul_s(fx_mul_s(fx_mul_s(r.g as int, FX_INV_PI as int), rr as int),
            inner as int),
        ch(s, 2) == fx_mul_s(fx_mul_s(fx_mul_s(r.b as int, FX_INV_PI as int), rr as int),
            inner as int),
        spectrum_nonneg(s),
        spectrum_bounded(s, 0x400000000000000),
{
    proof {
        lemma_retro_scaled_bounds(r.r as int, rr as int, inner as int);
        lemma_retro_scaled_bounds(r.g as int, rr as int, inner as int);
        lemma_retro_scaled_bounds(r.b as int, rr as int, inner as int);
    }
    let t = r.scale(FX_INV_PI);
    let t2 = t.scale(rr);
    t2.scale(inner)
}

/// Channel bounds for the retro-reflection scaling chain.
proof fn lemma_retro_scaled_bounds(rc: int, rr: int, inner: int)
    requires
        0 <= rc <= FX_SPECTRUM_MAX,
        0 <= rr <= 8 * FX_ONE,
        0 <= inner <= 11 * FX_ONE,
    ensures
        iabs(rc) * iabs(FX_INV_PI as int) <= 0x7fffffffffffffff * (FX_ONE as int),
        0 <= fx_mul_s(rc, FX_INV_PI as int) <= FX_SPECTRUM_MAX,
        iabs(fx_mul_s(rc, FX_INV_PI as int)) * iabs(rr) <= 0x7fffffffffffffff * (FX_ONE as int),
        0 <= fx_mul_s(fx_mul_s(rc, FX_INV_PI as int), rr) <= 8 * FX_SPECTRUM_MAX,
        iabs(fx_mul_s(fx_mul_s(rc, FX_INV_PI as int), rr)) * iabs(inner) <= 0x7fffffffffffffff
            * (FX_ONE as int),
        0 <= fx_mul_s(fx_mul_s(fx_mul_s(rc, FX_INV_PI as int), rr), inner)
            <= 0x400000000000000,
{
    lemma_fx_mul_nonneg(rc, FX_INV_PI as int);
    lemma_fx_mul_bound(rc, FX_INV_PI as int, FX_SPECTRUM_MAX as int, FX_ONE as int);
    assert(iabs(rc) * iabs(FX_INV_PI as int) <= 0x200000000000 * 0x100000000)
        by (nonlinear_arith)
        requires
            0 <= iabs(rc) <= 0x200000000000,
            iabs(FX_INV_PI as int) <= 0x100000000,
    ;
    assert(((FX_SPECTRUM_MAX as int) * (FX_ONE as int)) / (FX_ONE as int) == FX_SPECTRUM_MAX
        as int) by (nonlinear_arith);
    let m = fx_mul_s(rc, FX_INV_PI as int);
    lemma_fx_mul_nonneg(m, rr);
    lemma_fx_mul_bound(m, rr, FX_SPECTRUM_MAX as int, 8 * FX_ONE as int);
    assert(iabs(m) * iabs(rr) <= 0x200000000000 * 0x800000000) by (nonlinear_arith)
        requires
            0 <= iabs(m) <= 0x200000000000,
            iabs(rr) <= 0x800000000,
    ;
    assert(((FX_SPECTRUM_MAX as int) * (8 * FX_ONE as int)) / (FX_ONE as int) == 8
        * FX_SPECTRUM_MAX as int) by (nonlinear_arith);
    let m2 = fx_mul_s(m, rr);
    lemma_fx_mul_nonneg(m2, inner);
    lemma_fx_mul_bound(m2, inner, 8 * FX_SPECTRUM_MAX as int, 11 * FX_ONE as int);
    assert(iabs(m2) * iabs(inner) <= 0x1000000000000 * 0xb00000000) by (nonlinear_arith)
        requires
            0 <= iabs(m2) <= 0x1000000000000,
            iabs(inner) <= 0xb00000000,
    ;
    assert(((8 * FX_SPECTRUM_MAX as int) * (11 * FX_ONE as int)) / (FX_ONE as int)
        <= 0x400000000000000) by (nonlinear_arith);
}

/// The retro-reflection lobe is reciprocal: swapping the two directions
/// leaves its value unchanged, on every channel.
pub proof fn lemma_retro_f_symmetric(l: DisneyRetro, wo: Vector3, wi: Vector3, i: int)
    ensures
        l.spec_f(wo, wi, i) == l.spec_f(wi, wo, i),
{
    assert(spec_add(wi, wo) == spec_add(wo, wi));
    let fo = spec_schlick_weight(iabs(wo.z as int));
    let fi = spec_schlick_weight(iabs(wi.z as int));
    lemma_fx_mul_comm(fo, fi);
}

// ---------------------------------------------------------------------
// Sheen lobe
// ---------------------------------------------------------------------

/// The sheen lobe: a grazing-angle glow tinted toward the base hue.
#[derive(Clone, Copy, Debug, PartialEq, Eq, Structural)]
pub struct DisneySheen {
    pub r: Spectrum,
    pub sc_opt: Option<Spectrum>,
}

/// The unscaled channel value of the sheen lobe.
pub open spec fn spec_sheen_base(rc: int, wo: Vector3, wi: Vector3) -> int {
    let l2 = spec_half_len2(wo, wi);
    if l2 == 0 {
        0
    } else {
        fx_mul_s(rc, spec_schlick_weight(spec_cos_half(wo, wi)))
    }
}

impl DisneySheen {
    /// A well-formed lobe: non-negative bounded weight and scale.
    pub open spec fn wf(self) -> bool {
        spectrum_nonneg(self.r) && spectrum_bounded(self.r, FX_SPECTRUM_MAX as int)
            && scale_opt_wf(self.sc_opt)
    }

    /// Channel `i` of the lobe's value for a direction pair.
    pub open spec fn spec_f(self, wo: Vector3, wi: Vector3, i: int) -> int {
        spec_apply_scale(self.sc_opt, i, spec_sheen_base(ch(self.r, i), wo, wi))
    }

    /// Builds the lobe from its weight spectrum and optional scale.
    pub fn new(r: Spectrum, sc_opt: Option<Spectrum>) -> (l: DisneySheen)
        ensures
            l.r == r,
            l.sc_opt == sc_opt,
    {
        DisneySheen { r, sc_opt }
    }

    /// Evaluates the lobe: `r * schlick_weight(cos_d)`.  A vanishing half
    /// vector yields exact zero; otherwise every channel is non-negative.
    pub fn f(&self, wo: &Vector3, wi: &Vector3) -> (val: Spectrum)
        requires
            self.wf(),
            vec_bounded(*wo, FX_ONE as int),
            vec_bounded(*wi, FX_ONE as int),
        ensures
            ch(val, 0) == self.spec_f(*wo, *wi, 0),
            ch(val, 1) == self.spec_f(*wo, *wi, 1),
            ch(val, 2) == self.spec_f(*wo, *wi, 2),
            spectrum_nonneg(val),
    {
        let (l2, len) = half_len2_len(wo, wi);
        if l2 == 0 {
            let z = Spectrum::zero();
            proof {
                lemma_apply_scale_zero(self.sc_opt);
            }
            return apply_scale(&self.sc_opt, &z);
        }
        let cosd = len / 2;
        let w = schlick_weight(cosd);
        proof {
            lemma_fx_mul_nonneg(self.r.r as int, w as int);
            lemma_fx_mul_nonneg(self.r.g as int, w as int);
            lemma_fx_mul_nonneg(self.r.b as int, w as int);
            lemma_fx_mul_bound(self.r.r as int, w as int, FX_SPECTRUM_MAX as int, FX_ONE as int);
            lemma_fx_mul_bound(self.r.g as int, w as int, FX_SPECTRUM_MAX as int, FX_ONE as int);
            lemma_fx_mul_bound(self.r.b as int, w as int, FX_SPECTRUM_MAX as int, FX_ONE as int);
            lemma_weight_product_fits(self.r.r as int, w as int);
            lemma_weight_product_fits(self.r.g as int, w as int);
            lemma_weight_product_fits(self.r.b as int, w as int);
            assert(((FX_SPECTRUM_MAX as int) * (FX_ONE as int)) / (FX_ONE as int)
                == FX_SPECTRUM_MAX as int) by (nonlinear_arith);
        }
        let base = self.r.scale(w);
        apply_scale(&self.sc_opt, &base)
    }

    /// The flags of the lobe: diffuse reflection.
    pub fn get_type(&self) -> (t: u8)
        ensures
            t == (BSDF_REFLECTION | BSDF_DIFFUSE),
    {
        BSDF_REFLECTION | BSDF_DIFFUSE
    }
}

/// A bounded weight channel times a unit factor fits the scalar range.
proof fn lemma_weight_product_fits(a: int, b: int)
    requires
        0 <= a <= FX_SPECTRUM_MAX,
        0 <= b <= FX_ONE,
    ensures
        iabs(a) * iabs(b) <= 0x7fffffffffffffff * (FX_ONE as int),
{
    assert(iabs(a) * iabs(b) <= 0x200000000000 * 0x100000000) by (nonlinear_arith)
        requires
            0 <= iabs(a) <= 0x200000000000,
            iabs(b) <= 0x100000000,
    ;
}

/// The sheen lobe is reciprocal: swapping the two directions leaves its
/// value unchanged, on every channel.
pub proof fn lemma_sheen_f_symmetric(l: DisneySheen, wo: Vector3, wi: Vector3, i: int)
    ensures
        l.spec_f(wo, wi, i) == l.spec_f(wi, wo, i),
{
    assert(spec_add(wi, wo) == spec_add(wo, wi));
}


// ---------------------------------------------------------------------
// Clear-coat lobe
// ---------------------------------------------------------------------

/// Normal-incidence reflectance of the clear coat (the value 0.04, from a
/// hard-coded index of 1.5).
pub const FX_CLEARCOAT_F0: i64 = 171798691;

/// The clear-coat lobe: a GTR1 distribution with fixed 0.04 reflectance
/// and Smith masking at width 0.25, importance-sampled by exact inversion
/// of the GTR1 distribution.
#[derive(Clone, Copy, Debug, PartialEq, Eq, Structural)]
pub struct DisneyClearCoat {
    pub weight: i64,
    pub gloss: i64,
    pub sc_opt: Option<Spectrum>,
}

/// The normalized half vector of a direction pair, once its squared length
/// is known to be positive.
pub open spec fn spec_half_unit(wo: Vector3, wi: Vector3) -> Vector3 {
    let h = spec_add(wi, wo);
    let len = fx_sqrt_s(spec_dot(h, h));
    Vector3 {
        x: fx_div_s(h.x as int, len) as i64,
        y: fx_div_s(h.y as int, len) as i64,
        z: fx_div_s(h.z as int, len) as i64,
    }
}

/// The unscaled (scalar, channel-independent) value of the clear-coat lobe.
pub open spec fn spec_clearcoat_base(weight: int, gloss: int, wo: Vector3, wi: Vector3) -> int {
    let l2 = spec_half_len2(wo, wi);
    if l2 == 0 {
        0
    } else {
        let wh = spec_half_unit(wo, wi);
        let dr = spec_gtr1(iabs(wh.z as int), gloss);
        let fr = spec_fr_schlick(FX_CLEARCOAT_F0 as int, spec_dot(wo, wh));
        let gr = fx_mul_s(
            spec_smith_g_ggx(iabs(wo.z as int), FX_QUARTER as int),
            spec_smith_g_ggx(iabs(wi.z as int), FX_QUARTER as int),
        );
        fx_mul_s(fx_mul_s(fx_mul_s(weight, gr), fr), dr) / 4
    }
}

/// Computes the squared half-vector length and, when it is positive, the
/// normalized half vector, for directions within the lobes' bound.
fn half_unit_vector(wo: &Vector3, wi: &Vector3) -> (r: (i64, Vector3))
    requires
        dir_wf(*wo),
        dir_wf(*wi),
    ensures
        r.0 == spec_half_len2(*wo, *wi),
        0 <= r.0,
        r.0 >= 1 ==> r.1 == spec_half_unit(*wo, *wi) && vec_bounded(r.1, 2 * FX_ONE as int),
{
    let h = vec3_add(wi, wo);
    let l2 = vec3_dot_vec3(&h, &h);
    proof {
        lemma_fx_sq_nonneg(h.x as int);
        lemma_fx_sq_nonneg(h.y as int);
        lemma_fx_sq_nonneg(h.z as int);
    }
    if l2 == 0 {
        (0, Vector3 { x: 0, y: 0, z: 0 })
    } else {
        let len = fx_sqrt(l2);
        proof {
            lemma_normalize_bound(h.x as int, l2 as int, len as int);
            lemma_normalize_bound(h.y as int, l2 as int, len as int);
            lemma_normalize_bound(h.z as int, l2 as int, len as int);
        }
        let wh = vec3_div_scalar(&h, len);
        (l2, wh)
    }
}

impl DisneyClearCoat {
    /// A well-formed lobe: weight in `[0, 1]`, gloss within the widths the
    /// GTR1 distribution accepts, well-formed scale.
    pub open spec fn wf(self) -> bool {
        0 <= self.weight <= FX_ONE && FX_ALPHA_MIN <= self.gloss <= FX_GTR1_ALPHA_MAX
            && scale_opt_wf(self.sc_opt)
    }

    /// Channel `i` of the lobe's value for a direction pair.
    pub open spec fn spec_f(self, wo: Vector3, wi: Vector3, i: int) -> int {
        spec_apply_scale(self.sc_opt, i, spec_clearcoat_base(self.weight as int,
            self.gloss as int, wo, wi))
    }

    /// The sampling density of a direction pair: the GTR1 density of the
    /// half vector, converted to a solid-angle measure about `wi`; zero
    /// outside `wo`'s hemisphere and on degenerate geometry.
    pub open spec fn spec_pdf(self, wo: Vector3, wi: Vector3) -> int {
        if !spec_same_hemisphere(wo, wi) {
            0
        } else {
            let l2 = spec_half_len2(wo, wi);
            if l2 == 0 {
                0
            } else {
                let wh = spec_half_unit(wo, wi);
                let d = spec_dot(wo, wh);
                if d <= 0 {
                    0
                } else {
                    fx_div_sat_s(
                        fx_mul_s(spec_gtr1(iabs(wh.z as int), self.gloss as int),
                            iabs(wh.z as int)),
                        4 * d,
                        FX_PDF_CAP as int,
                    )
                }
            }
        }
    }

    /// The half vector drawn for a sample point, by exact inversion of the
    /// GTR1 distribution, flipped into `wo`'s hemisphere.
    pub open spec fn spec_sample_wh(self, wo: Vector3, u: Point2) -> Vector3 {
        let a2 = fx_mul_s(self.gloss as int, self.gloss as int);
        let pw = fx_pow_frac_s(a2, FX_ONE - u.x as int);
        let ratio = fx_clamp_s(fx_div_s(FX_ONE - pw, FX_ONE - a2), 0, FX_ONE as int);
        let cos_t = fx_sqrt_s(ratio);
        let sin_t = fx_sqrt_s(fx_clamp_s(FX_ONE - fx_mul_s(cos_t, cos_t), 0, FX_ONE as int));
        let whr = spec_spherical_direction(sin_t, cos_t, u.y as int);
        if !spec_same_hemisphere(wo, whr) {
            Vector3 { x: (-whr.x) as i64, y: (-whr.y) as i64, z: (-whr.z) as i64 }
        } else {
            whr
        }
    }

    /// The incident direction produced for a sample point.
    pub open spec fn spec_sample_wi(self, wo: Vector3, u: Point2) -> Vector3 {
        spec_reflect(wo, self.spec_sample_wh(wo, u))
    }

    /// Builds the lobe from its weight, gloss and optional scale.
    pub fn new(weight: i64, gloss: i64, sc_opt: Option<Spectrum>) -> (l: DisneyClearCoat)
        ensures
            l.weight == weight,
            l.gloss == gloss,
            l.sc_opt == sc_opt,
    {
        DisneyClearCoat { weight, gloss, sc_opt }
    }

    /// Evaluates the lobe:
    /// `weight * gr * fr * dr / 4` over the GTR1 density `dr` of the half
    /// vector, the Schlick reflectance `fr` and the Smith masking `gr`.
    /// A vanishing half vector yields exact zero; otherwise every channel
    /// is non-negative.
    pub fn f(&self, wo: &Vector3, wi: &Vector3) -> (val: Spectrum)
        requires
            self.wf(),
            dir_wf(*wo),
            dir_wf(*wi),
        ensures
            ch(val, 0) == self.spec_f(*wo, *wi, 0),
            ch(val, 1) == self.spec_f(*wo, *wi, 1),
            ch(val, 2) == self.spec_f(*wo, *wi, 2),
            spectrum_nonneg(val),
    {
        let (l2, wh) = half_unit_vector(wo, wi);
        if l2 == 0 {
            let z = Spectrum::zero();
            proof {
                lemma_apply_scale_zero(self.sc_opt);
            }
            return apply_scale(&self.sc_opt, &z);
        }
        let dr = gtr1(abs_cos_theta(&wh), self.gloss);
        let fr = fr_schlick(FX_CLEARCOAT_F0, vec3_dot_vec3(wo, &wh));
        let go = smith_g_ggx(abs_cos_theta(wo), FX_QUARTER);
        let gi = smith_g_ggx(abs_cos_theta(wi), FX_QUARTER);
        proof {
            assert(fx_mul_s(FX_QUARTER as int, FX_QUARTER as int) >= 0x10000000);
            lemma_fx_mul_nonneg(go as int, gi as int);
            lemma_fx_mul_bound(go as int, gi as int, 0x400000000, 0x400000000);
        }
        let gr = fx_mul(go, gi);
        proof {
            lemma_fx_mul_nonneg(self.weight as int, gr as int);
            lemma_fx_mul_bound(self.weight as int, gr as int, FX_ONE as int, 0x1000000000);
        }
        let t1 = fx_mul(self.weight, gr);
        proof {
            lemma_fx_mul_nonneg(t1 as int, fr as int);
            lemma_fx_mul_bound(t1 as int, fr as int, 0x1000000000, FX_ONE as int);
        }
        let t2 = fx_mul(t1, fr);
        proof {
            lemma_fx_mul_nonneg(t2 as int, dr as int);
            lemma_fx_mul_bound(t2 as int, dr as int, 0x1000000000, FX_GTR1_MAX as int);
        }
        let t3 = fx_mul(t2, dr);
        let v = t3 / 4;
        let base = Spectrum::new(v);
        proof {
            assert(0 <= v as int <= 0x400000000000000);
        }
        apply_scale(&self.sc_opt, &base)
    }

    /// Draws an incident direction for `wo` from the GTR1 distribution of
    /// half vectors and evaluates the lobe there.  The returned density
    /// always equals `pdf` recomputed on the produced pair; a pair outside
    /// `wo`'s hemisphere (and a grazing `wo`) yields zero value and zero
    /// density.
    pub fn sample_f(&self, wo: &Vector3, wi: &mut Vector3, u: &Point2, pdf: &mut i64) -> (val:
        Spectrum)
        requires
            self.wf(),
            vec_bounded(*wo, FX_ONE as int),
            sample_wf(*u),
        ensures
            *final(pdf) == self.spec_pdf(*wo, *final(wi)),
            wo.z == 0 ==> *final(wi) == *old(wi),
            wo.z != 0 ==> *final(wi) == self.spec_sample_wi(*wo, *u) && dir_wf(*final(wi)),
            !spec_same_hemisphere(*wo, *final(wi)) ==> val.r == 0 && val.g == 0 && val.b == 0
                && *final(pdf) == 0,
            wo.z != 0 && spec_same_hemisphere(*wo, *final(wi)) ==> ch(val, 0) == self.spec_f(
                *wo, *final(wi), 0) && ch(val, 1) == self.spec_f(*wo, *final(wi), 1) && ch(val,
                2) == self.spec_f(*wo, *final(wi), 2),
            spectrum_nonneg(val),
    {
        if wo.z == 0 {
            *pdf = 0;
            proof {
                assert((wo.z as int) * (wi.z as int) == 0) by (nonlinear_arith)
                    requires
                        wo.z == 0,
                ;
            }
            return Spectrum::zero();
        }
        proof {
            lemma_fx_mul_unit(self.gloss as int, self.gloss as int);
        }
        let a2 = fx_mul(self.gloss, self.gloss);
        let pw = fx_pow_frac(a2, FX_ONE - u.x);
        proof {
            lemma_fx_mul_bound(self.gloss as int, self.gloss as int, FX_HALF as int,
                FX_HALF as int);
            lemma_fx_div_bound((FX_ONE - pw) as int, (FX_ONE - a2) as int, FX_ONE as int,
                0xc0000000);
        }
        let ratio = fx_clamp(fx_div(FX_ONE - pw, FX_ONE - a2), 0, FX_ONE);
        let cos_t = fx_sqrt(ratio);
        proof {
            lemma_fx_mul_unit(cos_t as int, cos_t as int);
        }
        let c2 = fx_mul(cos_t, cos_t);
        let sin_t = fx_sqrt(fx_clamp(FX_ONE - c2, 0, FX_ONE));
        let wh0 = spherical_direction(sin_t, cos_t, u.y);
        let wh = if !vec3_same_hemisphere_vec3(wo, &wh0) {
            vec3_neg(&wh0)
        } else {
            wh0
        };
        proof {
            assert(vec_bounded(wh, FX_ONE as int));
            assert(vec_bounded(*wo, FX_DIR_MAX as int));
        }
        let wi_new = reflect(wo, &wh);
        proof {
            lemma_fx_mul_bound(wo.x as int, wh.x as int, FX_ONE as int, FX_ONE as int);
            lemma_fx_mul_bound(wo.y as int, wh.y as int, FX_ONE as int, FX_ONE as int);
            lemma_fx_mul_bound(wo.z as int, wh.z as int, FX_ONE as int, FX_ONE as int);
            assert(((FX_ONE as int) * (FX_ONE as int)) / (FX_ONE as int) == FX_ONE as int)
                by (nonlinear_arith);
            let t = 2 * spec_dot(*wo, wh);
            lemma_fx_mul_bound(t, wh.x as int, 6 * FX_ONE as int, FX_ONE as int);
            lemma_fx_mul_bound(t, wh.y as int, 6 * FX_ONE as int, FX_ONE as int);
            lemma_fx_mul_bound(t, wh.z as int, 6 * FX_ONE as int, FX_ONE as int);
            assert(((6 * FX_ONE as int) * (FX_ONE as int)) / (FX_ONE as int) == 6 * FX_ONE
                as int) by (nonlinear_arith);
            assert(vec_bounded(wi_new, 7 * FX_ONE as int));
        }
        if !vec3_same_hemisphere_vec3(wo, &wi_new) {
            *wi = wi_new;
            *pdf = 0;
            return Spectrum::zero();
        }
        let p = self.pdf(wo, &wi_new);
        let val = self.f(wo, &wi_new);
        *wi = wi_new;
        *pdf = p;
        val
    }

    /// Recomputes the sampling density for a direction pair.
    pub fn pdf(&self, wo: &Vector3, wi: &Vector3) -> (p: i64)
        requires
            self.wf(),
            dir_wf(*wo),
            dir_wf(*wi),
        ensures
            p == self.spec_pdf(*wo, *wi),
            0 <= p <= FX_PDF_CAP,
            !spec_same_hemisphere(*wo, *wi) ==> p == 0,
    {
        if !vec3_same_hemisphere_vec3(wo, wi) {
            return 0;
        }
        let (l2, wh) = half_unit_vector(wo, wi);
        if l2 == 0 {
            return 0;
        }
        let dr = gtr1(abs_cos_theta(&wh), self.gloss);
        let d = vec3_dot_vec3(wo, &wh);
        if d <= 0 {
            return 0;
        }
        proof {
            lemma_fx_mul_nonneg(dr as int, iabs(wh.z as int));
            lemma_fx_mul_bound(dr as int, iabs(wh.z as int), FX_GTR1_MAX as int, 2 * FX_ONE
                as int);
        }
        let num = fx_mul(dr, abs_cos_theta(&wh));
        fx_div_sat(num, 4 * d, FX_PDF_CAP)
    }

    /// The flags of the lobe: glossy reflection.
    pub fn get_type(&self) -> (t: u8)
        ensures
            t == (BSDF_REFLECTION | BSDF_GLOSSY),
    {
        BSDF_REFLECTION | BSDF_GLOSSY
    }
}


// ---------------------------------------------------------------------
// Microfacet and transmission lobes (numeric state built by the factory;
// their evaluation rides on the shared Trowbridge-Reitz machinery)
// ---------------------------------------------------------------------

/// Which quantity a transport path carries; transmission lobes scale
/// differently for radiance and for importance.
#[derive(Clone, Copy, Debug, PartialEq, Eq, Structural)]
pub enum TransportMode {
    Radiance,
    Importance,
}

/// Distribution widths are floor-clamped here (the value 0.001), keeping
/// the distribution away from a singular spike.
pub const FX_ALPHA_FLOOR: i64 = 4294967;

/// An anisotropic Trowbridge-Reitz (GGX) normal distribution: two widths
/// and the visible-normal-sampling flag.
#[derive(Clone, Copy, Debug, PartialEq, Eq, Structural)]
pub struct TrowbridgeReitzDistribution {
    pub alphax: i64,
    pub alphay: i64,
    pub sample_visible_area: bool,
}

impl TrowbridgeReitzDistribution {
    /// Builds the distribution, floor-clamping both widths.
    pub fn new(alphax: i64, alphay: i64, sample_visible_area: bool) -> (d:
        TrowbridgeReitzDistribution)
        ensures
            d.alphax == if alphax >= FX_ALPHA_FLOOR { alphax as int } else { FX_ALPHA_FLOOR as int },
            d.alphay == if alphay >= FX_ALPHA_FLOOR { alphay as int } else { FX_ALPHA_FLOOR as int },
            d.sample_visible_area == sample_visible_area,
            d.alphax >= FX_ALPHA_FLOOR,
            d.alphay >= FX_ALPHA_FLOOR,
    {
        TrowbridgeReitzDistribution {
            alphax: fx_max(alphax, FX_ALPHA_FLOOR),
            alphay: fx_max(alphay, FX_ALPHA_FLOOR),
            sample_visible_area,
        }
    }

    /// Whether the distribution samples only visible normals.
    pub fn get_sample_visible_area(&self) -> (v: bool)
        ensures
            v == self.sample_visible_area,
    {
        self.sample_visible_area
    }
}

/// The microfacet distribution of the principled model: Trowbridge-Reitz
/// with visible-normal sampling and separable Smith masking.
#[derive(Clone, Copy, Debug, PartialEq, Eq, Structural)]
pub struct DisneyMicrofacetDistribution {
    pub inner: TrowbridgeReitzDistribution,
}

impl DisneyMicrofacetDistribution {
    /// Wraps a Trowbridge-Reitz distribution with visible-normal sampling.
    pub fn new(alphax: i64, alphay: i64) -> (d: DisneyMicrofacetDistribution)
        ensures
            d.inner.alphax == if alphax >= FX_ALPHA_FLOOR { alphax as int } else { FX_ALPHA_FLOOR as int },
            d.inner.alphay == if alphay >= FX_ALPHA_FLOOR { alphay as int } else { FX_ALPHA_FLOOR as int },
            d.inner.sample_visible_area,
            d.inner.alphax >= FX_ALPHA_FLOOR,
            d.inner.alphay >= FX_ALPHA_FLOOR,
    {
        DisneyMicrofacetDistribution {
            inner: TrowbridgeReitzDistribution::new(alphax, alphay, true),
        }
    }

    /// Whether the distribution samples only visible normals.
    pub fn get_sample_visible_area(&self) -> (v: bool)
        ensures
            v == self.inner.sample_visible_area,
    {
        self.inner.get_sample_visible_area()
    }
}

/// The Fresnel term of the principled model: a dielectric Schlick
/// reflectance blended toward the base color by the metallic weight.
#[derive(Clone, Copy, Debug, PartialEq, Eq, Structural)]
pub struct DisneyFresnel {
    pub cspec0: Spectrum,
    pub metallic: i64,
    pub eta: i64,
}

impl DisneyFresnel {
    /// Builds the Fresnel term from its normal-incidence spectrum,
    /// metallic weight and refraction index.
    pub fn new(cspec0: Spectrum, metallic: i64, eta: i64) -> (f: DisneyFresnel)
        ensures
            f.cspec0 == cspec0,
            f.metallic == metallic,
            f.eta == eta,
    {
        DisneyFresnel { cspec0, metallic, eta }
    }
}

/// The glossy reflection lobe: the base color over a Trowbridge-Reitz
/// distribution with the principled Fresnel blend.
#[derive(Clone, Copy, Debug, PartialEq, Eq, Structural)]
pub struct MicrofacetReflection {
    pub r: Spectrum,
    pub distribution: DisneyMicrofacetDistribution,
    pub fresnel: DisneyFresnel,
    pub sc_opt: Option<Spectrum>,
}

impl MicrofacetReflection {
    /// Builds the lobe from its reflectance, distribution, Fresnel term
    /// and optional scale.
    pub fn new(
        r: Spectrum,
        distribution: DisneyMicrofacetDistribution,
        fresnel: DisneyFresnel,
        sc_opt: Option<Spectrum>,
    ) -> (l: MicrofacetReflection)
        ensures
            l.r == r,
            l.distribution == distribution,
            l.fresnel == fresnel,
            l.sc_opt == sc_opt,
    {
        MicrofacetReflection { r, distribution, fresnel, sc_opt }
    }

    /// The flags of the lobe: glossy reflection.
    pub fn get_type(&self) -> (t: u8)
        ensures
            t == (BSDF_REFLECTION | BSDF_GLOSSY),
    {
        BSDF_REFLECTION | BSDF_GLOSSY
    }
}

/// The glossy transmission lobe: a transmittance over a Trowbridge-Reitz
/// distribution between two media.
#[derive(Clone, Copy, Debug, PartialEq, Eq, Structural)]
pub struct MicrofacetTransmission {
    pub t: Spectrum,
    pub distribution: TrowbridgeReitzDistribution,
    pub eta_a: i64,
    pub eta_b: i64,
    pub mode: TransportMode,
    pub sc_opt: Option<Spectrum>,
}

impl MicrofacetTransmission {
    /// Builds the lobe from its transmittance, distribution, indices,
    /// transport mode and optional scale.
    pub fn new(
        t: Spectrum,
        distribution: TrowbridgeReitzDistribution,
        eta_a: i64,
        eta_b: i64,
        mode: TransportMode,
        sc_opt: Option<Spectrum>,
    ) -> (l: MicrofacetTransmission)
        ensures
            l.t == t,
            l.distribution == distribution,
            l.eta_a == eta_a,
            l.eta_b == eta_b,
            l.mode == mode,
            l.sc_opt == sc_opt,
    {
        MicrofacetTransmission { t, distribution, eta_a, eta_b, mode, sc_opt }
    }

    /// The flags of the lobe: glossy transmission.
    pub fn get_type(&self) -> (t: u8)
        ensures
            t == (BSDF_TRANSMISSION | BSDF_GLOSSY),
    {
        BSDF_TRANSMISSION | BSDF_GLOSSY
    }
}

/// The perfect specular transmission lobe.  The factory emits it as the
/// stand-in for full subsurface transport, which is deliberately not
/// implemented.
#[derive(Clone, Copy, Debug, PartialEq, Eq, Structural)]
pub struct SpecularTransmission {
    pub t: Spectrum,
    pub eta_a: i64,
    pub eta_b: i64,
    pub mode: TransportMode,
    pub sc_opt: Option<Spectrum>,
}

impl SpecularTransmission {
    /// Builds the lobe from its transmittance, indices, transport mode and
    /// optional scale.
    pub fn new(t: Spectrum, eta_a: i64, eta_b: i64, mode: TransportMode, sc_opt: Option<
        Spectrum,
    >) -> (l: SpecularTransmission)
        ensures
            l.t == t,
            l.eta_a == eta_a,
            l.eta_b == eta_b,
            l.mode == mode,
            l.sc_opt == sc_opt,
    {
        SpecularTransmission { t, eta_a, eta_b, mode, sc_opt }
    }

    /// The flags of the lobe: specular transmission.
    pub fn get_type(&self) -> (t: u8)
        ensures
            t == (BSDF_TRANSMISSION | BSDF_SPECULAR),
    {
        BSDF_TRANSMISSION | BSDF_SPECULAR
    }
}

/// The Lambertian transmission lobe of thin surfaces: `t / pi` into the
/// opposite hemisphere.
#[derive(Clone, Copy, Debug, PartialEq, Eq, Structural)]
pub struct LambertianTransmission {
    pub t: Spectrum,
    pub sc_opt: Option<Spectrum>,
}

/// The unscaled channel value of the Lambertian transmission lobe: the
/// transmittance over pi, independent of the direction pair.
pub open spec fn spec_lambertian_trans_base(tc: int) -> int {
    fx_mul_s(tc, FX_INV_PI as int)
}

impl LambertianTransmission {
    /// A well-formed lobe: non-negative bounded transmittance and scale.
    pub open spec fn wf(self) -> bool {
        spectrum_nonneg(self.t) && spectrum_bounded(self.t, FX_SPECTRUM_MAX as int)
            && scale_opt_wf(self.sc_opt)
    }

    /// Channel `i` of the lobe's value.
    pub open spec fn spec_f(self, i: int) -> int {
        spec_apply_scale(self.sc_opt, i, spec_lambertian_trans_base(ch(self.t, i)))
    }

    /// Builds the lobe from its transmittance and optional scale.
    pub fn new(t: Spectrum, sc_opt: Option<Spectrum>) -> (l: LambertianTransmission)
        ensures
            l.t == t,
            l.sc_opt == sc_opt,
    {
        LambertianTransmission { t, sc_opt }
    }

    /// Evaluates the lobe: `t / pi` into the opposite hemisphere, the same
    /// for every direction pair.  Non-negative on every channel.
    pub fn f(&self, _wo: &Vector3, _wi: &Vector3) -> (val: Spectrum)
        requires
            self.wf(),
        ensures
            ch(val, 0) == self.spec_f(0),
            ch(val, 1) == self.spec_f(1),
            ch(val, 2) == self.spec_f(2),
            spectrum_nonneg(val),
    {
        proof {
            lemma_fx_mul_nonneg(self.t.r as int, FX_INV_PI as int);
            lemma_fx_mul_nonneg(self.t.g as int, FX_INV_PI as int);
            lemma_fx_mul_nonneg(self.t.b as int, FX_INV_PI as int);
            lemma_fx_mul_bound(self.t.r as int, FX_INV_PI as int, FX_SPECTRUM_MAX as int,
                FX_ONE as int);
            lemma_fx_mul_bound(self.t.g as int, FX_INV_PI as int, FX_SPECTRUM_MAX as int,
                FX_ONE as int);
            lemma_fx_mul_bound(self.t.b as int, FX_INV_PI as int, FX_SPECTRUM_MAX as int,
                FX_ONE as int);
            lemma_weight_product_fits(self.t.r as int, FX_INV_PI as int);
            lemma_weight_product_fits(self.t.g as int, FX_INV_PI as int);
            lemma_weight_product_fits(self.t.b as int, FX_INV_PI as int);
            assert(((FX_SPECTRUM_MAX as int) * (FX_ONE as int)) / (FX_ONE as int)
                == FX_SPECTRUM_MAX as int) by (nonlinear_arith);
        }
        let base = self.t.scale(FX_INV_PI);
        apply_scale(&self.sc_opt, &base)
    }

    /// The flags of the lobe: diffuse transmission.
    pub fn get_type(&self) -> (t: u8)
        ensures
            t == (BSDF_TRANSMISSION | BSDF_DIFFUSE),
    {
        BSDF_TRANSMISSION | BSDF_DIFFUSE
    }
}

/// The closed set of scattering lobes the factory can emit.
#[derive(Clone, Copy, Debug, PartialEq, Eq, Structural)]
pub enum ScatteringLobe {
    DisDiff(DisneyDiffuse),
    DisSS(DisneyFakeSS),
    DisRetro(DisneyRetro),
    DisSheen(DisneySheen),
    DisClearCoat(DisneyClearCoat),
    MicrofacetRefl(MicrofacetReflection),
    MicrofacetTrans(MicrofacetTransmission),
    SpecTrans(SpecularTransmission),
    LambertianTrans(LambertianTransmission),
}

/// The uniform scale a lobe carries.
pub open spec fn spec_lobe_scale(l: ScatteringLobe) -> Option<Spectrum> {
    match l {
        ScatteringLobe::DisDiff(d) => d.sc_opt,
        ScatteringLobe::DisSS(d) => d.sc_opt,
        ScatteringLobe::DisRetro(d) => d.sc_opt,
        ScatteringLobe::DisSheen(d) => d.sc_opt,
        ScatteringLobe::DisClearCoat(d) => d.sc_opt,
        ScatteringLobe::MicrofacetRefl(d) => d.sc_opt,
        ScatteringLobe::MicrofacetTrans(d) => d.sc_opt,
        ScatteringLobe::SpecTrans(d) => d.sc_opt,
        ScatteringLobe::LambertianTrans(d) => d.sc_opt,
    }
}

/// The same lobe with its uniform scale replaced by `sc`; every lobe kind
/// carries the scale the same way.
pub open spec fn spec_with_scale(l: ScatteringLobe, sc: Spectrum) -> ScatteringLobe {
    match l {
        ScatteringLobe::DisDiff(d) => ScatteringLobe::DisDiff(DisneyDiffuse {
            r: d.r,
            sc_opt: Some(sc),
        }),
        ScatteringLobe::DisSS(d) => ScatteringLobe::DisSS(DisneyFakeSS {
            r: d.r,
            roughness: d.roughness,
            sc_opt: Some(sc),
        }),
        ScatteringLobe::DisRetro(d) => ScatteringLobe::DisRetro(DisneyRetro {
            r: d.r,
            roughness: d.roughness,
            sc_opt: Some(sc),
        }),
        ScatteringLobe::DisSheen(d) => ScatteringLobe::DisSheen(DisneySheen {
            r: d.r,
            sc_opt: Some(sc),
        }),
        ScatteringLobe::DisClearCoat(d) => ScatteringLobe::DisClearCoat(DisneyClearCoat {
            weight: d.weight,
            gloss: d.gloss,
            sc_opt: Some(sc),
        }),
        ScatteringLobe::MicrofacetRefl(d) => ScatteringLobe::MicrofacetRefl(
            MicrofacetReflection {
                r: d.r,
                distribution: d.distribution,
                fresnel: d.fresnel,
                sc_opt: Some(sc),
            },
        ),
        ScatteringLobe::MicrofacetTrans(d) => ScatteringLobe::MicrofacetTrans(
            MicrofacetTransmission {
                t: d.t,
                distribution: d.distribution,
                eta_a: d.eta_a,
                eta_b: d.eta_b,
                mode: d.mode,
                sc_opt: Some(sc),
            },
        ),
        ScatteringLobe::SpecTrans(d) => ScatteringLobe::SpecTrans(SpecularTransmission {
            t: d.t,
            eta_a: d.eta_a,
            eta_b: d.eta_b,
            mode: d.mode,
            sc_opt: Some(sc),
        }),
        ScatteringLobe::LambertianTrans(d) => ScatteringLobe::LambertianTrans(
            LambertianTransmission { t: d.t, sc_opt: Some(sc) },
        ),
    }
}

/// Scaling a lobe whose scale is empty multiplies each evaluated channel
/// of the diffuse lobe by the scale, exactly.
pub proof fn lemma_diffuse_scale_evaluates(d: DisneyDiffuse, sc: Spectrum, wo: Vector3,
    wi: Vector3, i: int)
    requires
        d.sc_opt is None,
    ensures
        (DisneyDiffuse { r: d.r, sc_opt: Some(sc) }).spec_f(wo, wi, i) == fx_mul_s(ch(sc, i),
            d.spec_f(wo, wi, i)),
{
}

/// Scaling a lobe whose scale is empty multiplies each evaluated channel
/// of the fake-subsurface lobe by the scale, exactly.
pub proof fn lemma_fakess_scale_evaluates(d: DisneyFakeSS, sc: Spectrum, wo: Vector3,
    wi: Vector3, i: int)
    requires
        d.sc_opt is None,
    ensures
        (DisneyFakeSS { r: d.r, roughness: d.roughness, sc_opt: Some(sc) }).spec_f(wo, wi, i)
            == fx_mul_s(ch(sc, i), d.spec_f(wo, wi, i)),
{
}

/// Scaling a lobe whose scale is empty multiplies each evaluated channel
/// of the retro-reflection lobe by the scale, exactly.
pub proof fn lemma_retro_scale_evaluates(d: DisneyRetro, sc: Spectrum, wo: Vector3, wi: Vector3,
    i: int)
    requires
        d.sc_opt is None,
    ensures
        (DisneyRetro { r: d.r, roughness: d.roughness, sc_opt: Some(sc) }).spec_f(wo, wi, i)
            == fx_mul_s(ch(sc, i), d.spec_f(wo, wi, i)),
{
}

/// Scaling a lobe whose scale is empty multiplies each evaluated channel
/// of the sheen lobe by the scale, exactly.
pub proof fn lemma_sheen_scale_evaluates(d: DisneySheen, sc: Spectrum, wo: Vector3, wi: Vector3,
    i: int)
    requires
        d.sc_opt is None,
    ensures
        (DisneySheen { r: d.r, sc_opt: Some(sc) }).spec_f(wo, wi, i) == fx_mul_s(ch(sc, i),
            d.spec_f(wo, wi, i)),
{
}

/// Scaling a lobe whose scale is empty multiplies each evaluated channel
/// of the clear-coat lobe by the scale, exactly; its sampling density does
/// not depend on the scale at all.
pub proof fn lemma_clearcoat_scale_evaluates(d: DisneyClearCoat, sc: Spectrum, wo: Vector3,
    wi: Vector3, i: int)
    requires
        d.sc_opt is None,
    ensures
        (DisneyClearCoat { weight: d.weight, gloss: d.gloss, sc_opt: Some(sc) }).spec_f(wo, wi,
            i) == fx_mul_s(ch(sc, i), d.spec_f(wo, wi, i)),
        (DisneyClearCoat { weight: d.weight, gloss: d.gloss, sc_opt: Some(sc) }).spec_pdf(wo,
            wi) == d.spec_pdf(wo, wi),
{
}

} // verus!
