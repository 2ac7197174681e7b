//! The principled material and its lobe factory: resolves the surface
//! parameters, weighs the lobes and returns the lobe sequence for one
//! shading point.

use vstd::prelude::*;
use crate::fixed::{
    fx_mul, fx_mul_s, fx_div, fx_div_s, fx_sqrt, fx_sqrt_s, fx_lerp, fx_lerp_s, fx_max, iabs,
    lemma_fx_mul_bound, lemma_fx_mul_nonneg, lemma_fx_mul_unit, lemma_fx_sqrt_lower,
    lemma_fx_sqrt_upper, lemma_fx_div_bound, lemma_fx_lerp_range, lemma_mul_fits, FX_ONE,
    FX_HALF,
};
use crate::spectrum::{
    Spectrum, spec_rgb, spec_is_black, spec_scale_spectrum, spec_sqrt_spectrum,
    spec_spectrum_lerp, spec_luminance, spectrum_lerp, spectrum_nonneg, spectrum_bounded,
    FX_SPECTRUM_MAX, FX_LUM_R, FX_LUM_G, FX_LUM_B,
};
use crate::shading_math::{sqr, spec_sqr, schlick_r0_from_eta, spec_schlick_r0_from_eta};
use crate::lobes::{
    ScatteringLobe, DisneyDiffuse, DisneyFakeSS, DisneyRetro, DisneySheen, DisneyClearCoat,
    MicrofacetReflection, MicrofacetTransmission, SpecularTransmission, LambertianTransmission,
    DisneyMicrofacetDistribution, TrowbridgeReitzDistribution, DisneyFresnel, TransportMode,
    scale_opt_wf, spec_with_scale, spec_lobe_scale, FX_ALPHA_FLOOR,
};
use crate::params::{
    TextureParams, ParamName, spec_find_float, spec_find_spectrum, spec_find_bool,
    spec_find_float_opt,
};

verus! {

/// The fixed-point representation of 0.9, the anisotropy strength.
pub const FX_0_9: i64 = 3865470566;

/// The fixed-point representation of 0.65 (thin roughness rescale).
pub const FX_0_65: i64 = 2791728742;

/// The fixed-point representation of 0.35 (thin roughness rescale).
pub const FX_0_35: i64 = 1503238553;

/// The default relative index of refraction, 1.5.
pub const FX_ETA_DEFAULT: i64 = 6442450944;

/// The widest clear-coat gloss (the value 0.1).
pub const FX_GLOSS_WIDE: i64 = 429496729;

/// The tightest clear-coat gloss (the value 0.001).
pub const FX_GLOSS_TIGHT: i64 = 4294967;

/// Bound on a hue-and-saturation tint channel: a channel divided by a
/// luminance that the channel itself feeds cannot exceed twice the
/// reciprocal of the smallest luminance weight.
pub const FX_TINT_MAX: i64 = 137438953472;

/// The principled material: the parameter values of one surface, resolved
/// once at build time and read by every shading call.
pub struct DisneyMaterial {
    pub color: Spectrum,
    pub metallic: i64,
    pub eta: i64,
    pub roughness: i64,
    pub specular_tint: i64,
    pub anisotropic: i64,
    pub sheen: i64,
    pub sheen_tint: i64,
    pub clearcoat: i64,
    pub clearcoat_gloss: i64,
    pub spec_trans: i64,
    pub scatter_distance: Spectrum,
    pub flatness: i64,
    pub diff_trans: i64,
    pub bump_map: Option<i64>,
    pub thin: bool,
}

/// The range a float parameter must lie in: the refraction index may reach
/// 16, every other parameter is a weight in `[0, 1]`.
pub open spec fn float_param_in_range(name: ParamName, v: i64) -> bool {
    if name == ParamName::Eta {
        0 <= v <= 0x1000000000
    } else {
        0 <= v <= FX_ONE
    }
}

/// A well-formed parameter table: every float binding within its range,
/// every spectrum binding bounded.
pub open spec fn tp_wf(tp: TextureParams) -> bool {
    &&& forall|j: int|
        0 <= j < tp.floats@.len() ==> float_param_in_range(
            #[trigger] tp.floats@[j].0,
            tp.floats@[j].1,
        )
    &&& forall|j: int|
        0 <= j < tp.spectra@.len() ==> spectrum_bounded(
            #[trigger] tp.spectra@[j].1,
            FX_SPECTRUM_MAX as int,
        )
}

/// Defaulted float lookup stays within the parameter's range.
proof fn lemma_find_float_in_range(s: Seq<(ParamName, i64)>, name: ParamName, default: i64)
    requires
        forall|j: int| 0 <= j < s.len() ==> float_param_in_range(#[trigger] s[j].0, s[j].1),
        float_param_in_range(name, default),
    ensures
        float_param_in_range(name, spec_find_float(s, name, default)),
    decreases s.len(),
{
    if s.len() == 0 {
    } else if s[0].0 == name {
        assert(float_param_in_range(s[0].0, s[0].1));
    } else {
        assert(forall|j: int|
            0 <= j < s.drop_first().len() ==> float_param_in_range(
                #[trigger] s.drop_first()[j].0,
                s.drop_first()[j].1,
            )) by {
            assert(forall|j: int|
                0 <= j < s.drop_first().len() ==> s.drop_first()[j] == s[j + 1]);
        }
        lemma_find_float_in_range(s.drop_first(), name, default);
    }
}

/// Defaulted spectrum lookup stays bounded.
proof fn lemma_find_spectrum_bounded(s: Seq<(ParamName, Spectrum)>, name: ParamName,
    default: Spectrum)
    requires
        forall|j: int|
            0 <= j < s.len() ==> spectrum_bounded(#[trigger] s[j].1, FX_SPECTRUM_MAX as int),
        spectrum_bounded(default, FX_SPECTRUM_MAX as int),
    ensures
        spectrum_bounded(spec_find_spectrum(s, name, default), FX_SPECTRUM_MAX as int),
    decreases s.len(),
{
    if s.len() == 0 {
    } else if s[0].0 == name {
        assert(spectrum_bounded(s[0].1, FX_SPECTRUM_MAX as int));
    } else {
        assert(forall|j: int|
            0 <= j < s.drop_first().len() ==> spectrum_bounded(
                #[trigger] s.drop_first()[j].1,
                FX_SPECTRUM_MAX as int,
            )) by {
            assert(forall|j: int|
                0 <= j < s.drop_first().len() ==> s.drop_first()[j] == s[j + 1]);
        }
        lemma_find_spectrum_bounded(s.drop_first(), name, default);
    }
}

impl DisneyMaterial {
    /// A well-formed material: every weight in `[0, 1]`, the refraction
    /// index and the color bounded.
    pub open spec fn wf(self) -> bool {
        &&& 0 <= self.metallic <= FX_ONE
        &&& 0 <= self.roughness <= FX_ONE
        &&& 0 <= self.specular_tint <= FX_ONE
        &&& 0 <= self.anisotropic <= FX_ONE
        &&& 0 <= self.sheen <= FX_ONE
        &&& 0 <= self.sheen_tint <= FX_ONE
        &&& 0 <= self.clearcoat <= FX_ONE
        &&& 0 <= self.clearcoat_gloss <= FX_ONE
        &&& 0 <= self.spec_trans <= FX_ONE
        &&& 0 <= self.flatness <= FX_ONE
        &&& 0 <= self.diff_trans <= FX_ONE
        &&& 0 <= self.eta <= 0x1000000000
        &&& spectrum_bounded(self.color, FX_SPECTRUM_MAX as int)
    }

    /// Resolves the material's parameters against a table, with the
    /// model's defaults.  A well-formed table yields a well-formed
    /// material.
    pub fn create(mp: &TextureParams) -> (m: DisneyMaterial)
        ensures
            m.color == spec_find_spectrum(mp.spectra@, ParamName::Color, spec_rgb(
                FX_HALF as int,
                FX_HALF as int,
                FX_HALF as int,
            )),
            m.metallic == spec_find_float(mp.floats@, ParamName::Metallic, 0),
            m.eta == spec_find_float(mp.floats@, ParamName::Eta, FX_ETA_DEFAULT),
            m.roughness == spec_find_float(mp.floats@, ParamName::Roughness, FX_HALF),
            m.specular_tint == spec_find_float(mp.floats@, ParamName::SpecularTint, 0),
            m.anisotropic == spec_find_float(mp.floats@, ParamName::Anisotropic, 0),
            m.sheen == spec_find_float(mp.floats@, ParamName::Sheen, 0),
            m.sheen_tint == spec_find_float(mp.floats@, ParamName::SheenTint, FX_HALF),
            m.clearcoat == spec_find_float(mp.floats@, ParamName::Clearcoat, 0),
            m.clearcoat_gloss == spec_find_float(mp.floats@, ParamName::ClearcoatGloss, FX_ONE),
            m.spec_trans == spec_find_float(mp.floats@, ParamName::SpecTrans, 0),
            m.scatter_distance == spec_find_spectrum(mp.spectra@, ParamName::ScatterDistance,
                spec_rgb(0, 0, 0)),
            m.thin == spec_find_bool(mp.bools@, ParamName::Thin, false),
            m.flatness == spec_find_float(mp.floats@, ParamName::Flatness, 0),
            m.diff_trans == spec_find_float(mp.floats@, ParamName::DiffTrans, FX_ONE),
            m.bump_map == spec_find_float_opt(mp.floats@, ParamName::BumpMap),
            tp_wf(*mp) ==> m.wf(),
    {
        proof {
            if tp_wf(*mp) {
                lemma_find_float_in_range(mp.floats@, ParamName::Metallic, 0);
                lemma_find_float_in_range(mp.floats@, ParamName::Eta, FX_ETA_DEFAULT);
                lemma_find_float_in_range(mp.floats@, ParamName::Roughness, FX_HALF);
                lemma_find_float_in_range(mp.floats@, ParamName::SpecularTint, 0);
                lemma_find_float_in_range(mp.floats@, ParamName::Anisotropic, 0);
                lemma_find_float_in_range(mp.floats@, ParamName::Sheen, 0);
                lemma_find_float_in_range(mp.floats@, ParamName::SheenTint, FX_HALF);
                lemma_find_float_in_range(mp.floats@, ParamName::Clearcoat, 0);
                lemma_find_float_in_range(mp.floats@, ParamName::ClearcoatGloss, FX_ONE);
                lemma_find_float_in_range(mp.floats@, ParamName::SpecTrans, 0);
                lemma_find_float_in_range(mp.floats@, ParamName::Flatness, 0);
                lemma_find_float_in_range(mp.floats@, ParamName::DiffTrans, FX_ONE);
                lemma_find_spectrum_bounded(mp.spectra@, ParamName::Color, spec_rgb(
                    FX_HALF as int,
                    FX_HALF as int,
                    FX_HALF as int,
                ));
            }
        }
        DisneyMaterial {
            color: mp.get_spectrum_texture(ParamName::Color, Spectrum::new(FX_HALF)),
            metallic: mp.get_float_texture(ParamName::Metallic, 0),
            eta: mp.get_float_texture(ParamName::Eta, FX_ETA_DEFAULT),
            roughness: mp.get_float_texture(ParamName::Roughness, FX_HALF),
            specular_tint: mp.get_float_texture(ParamName::SpecularTint, 0),
            anisotropic: mp.get_float_texture(ParamName::Anisotropic, 0),
            sheen: mp.get_float_texture(ParamName::Sheen, 0),
            sheen_tint: mp.get_float_texture(ParamName::SheenTint, FX_HALF),
            clearcoat: mp.get_float_texture(ParamName::Clearcoat, 0),
            clearcoat_gloss: mp.get_float_texture(ParamName::ClearcoatGloss, FX_ONE),
            spec_trans: mp.get_float_texture(ParamName::SpecTrans, 0),
            scatter_distance: mp.get_spectrum_texture(ParamName::ScatterDistance,
                Spectrum::zero()),
            thin: mp.find_bool(ParamName::Thin, false),
            flatness: mp.get_float_texture(ParamName::Flatness, 0),
            diff_trans: mp.get_float_texture(ParamName::DiffTrans, FX_ONE),
            bump_map: mp.get_float_texture_or_null(ParamName::BumpMap),
        }
    }

    /// The base color, clamped non-negative.
    pub open spec fn spec_clamped_color(self) -> Spectrum {
        Spectrum {
            r: if self.color.r >= 0 { self.color.r } else { 0i64 },
            g: if self.color.g >= 0 { self.color.g } else { 0i64 },
            b: if self.color.b >= 0 { self.color.b } else { 0i64 },
        }
    }

    /// The diffuse weight `(1 - metallic) (1 - spec_trans)`.
    pub open spec fn spec_diffuse_weight(self) -> int {
        fx_mul_s(FX_ONE - self.metallic as int, FX_ONE - self.spec_trans as int)
    }

    /// Half the diffuse-transmission weight.
    pub open spec fn spec_dt(self) -> int {
        (self.diff_trans as int) / 2
    }

    /// The hue-and-saturation tint: the clamped color divided by its
    /// luminance, or white when the luminance vanishes.
    pub open spec fn spec_tint(self) -> Spectrum {
        let c = self.spec_clamped_color();
        let lum = spec_luminance(c);
        if lum > 0 {
            spec_rgb(
                fx_div_s(c.r as int, lum),
                fx_div_s(c.g as int, lum),
                fx_div_s(c.b as int, lum),
            )
        } else {
            spec_rgb(FX_ONE as int, FX_ONE as int, FX_ONE as int)
        }
    }

    /// The sheen tint spectrum, or zero when sheen is off.
    pub open spec fn spec_csheen(self) -> Spectrum {
        if self.sheen > 0 {
            spec_spectrum_lerp(
                self.sheen_tint as int,
                spec_rgb(FX_ONE as int, FX_ONE as int, FX_ONE as int),
                self.spec_tint(),
            )
        } else {
            spec_rgb(0, 0, 0)
        }
    }

    /// The anisotropy aspect `sqrt(1 - 0.9 anisotropic)`.
    pub open spec fn spec_aspect(self) -> int {
        fx_sqrt_s(FX_ONE - fx_mul_s(self.anisotropic as int, FX_0_9 as int))
    }

    /// The distribution width along x, floor-clamped.
    pub open spec fn spec_ax(self) -> int {
        let v = fx_div_s(spec_sqr(self.roughness as int), self.spec_aspect());
        if FX_ALPHA_FLOOR >= v {
            FX_ALPHA_FLOOR as int
        } else {
            v
        }
    }

    /// The distribution width along y, floor-clamped.
    pub open spec fn spec_ay(self) -> int {
        let v = fx_mul_s(spec_sqr(self.roughness as int), self.spec_aspect());
        if FX_ALPHA_FLOOR >= v {
            FX_ALPHA_FLOOR as int
        } else {
            v
        }
    }

    /// The normal-incidence spectrum of the principled Fresnel blend.
    pub open spec fn spec_cspec0(self) -> Spectrum {
        let white = spec_rgb(FX_ONE as int, FX_ONE as int, FX_ONE as int);
        let r0 = spec_schlick_r0_from_eta(self.eta as int);
        let tinted = spec_scale_spectrum(
            spec_spectrum_lerp(self.specular_tint as int, white, self.spec_tint()),
            r0,
        );
        spec_spectrum_lerp(self.metallic as int, tinted, self.spec_clamped_color())
    }

    /// The clear-coat gloss `lerp(clearcoat_gloss, 0.1, 0.001)`.
    pub open spec fn spec_gloss(self) -> int {
        fx_lerp_s(self.clearcoat_gloss as int, FX_GLOSS_WIDE as int, FX_GLOSS_TIGHT as int)
    }

    /// The transmission tint `spec_trans * sqrt(color)`.
    pub open spec fn spec_trans_tint(self) -> Spectrum {
        spec_scale_spectrum(spec_sqrt_spectrum(self.spec_clamped_color()),
            self.spec_trans as int)
    }

    /// The thin-surface rescaled roughness `(0.65 eta - 0.35) roughness`.
    pub open spec fn spec_rscaled(self) -> int {
        fx_mul_s(fx_mul_s(FX_0_65 as int, self.eta as int) - FX_0_35, self.roughness as int)
    }

    /// The thin transmission width along x, floor-clamped.
    pub open spec fn spec_ax_thin(self) -> int {
        let v = fx_div_s(spec_sqr(self.spec_rscaled()), self.spec_aspect());
        if FX_ALPHA_FLOOR >= v {
            FX_ALPHA_FLOOR as int
        } else {
            v
        }
    }

    /// The thin transmission width along y, floor-clamped.
    pub open spec fn spec_ay_thin(self) -> int {
        let v = fx_mul_s(spec_sqr(self.spec_rscaled()), self.spec_aspect());
        if FX_ALPHA_FLOOR >= v {
            FX_ALPHA_FLOOR as int
        } else {
            v
        }
    }

    /// The diffuse family the factory emits: diffuse or fake subsurface or
    /// the subsurface stand-in, then retro-reflection and sheen; empty when
    /// the diffuse weight vanishes.
    pub open spec fn spec_diffuse_part(self, mode: TransportMode, scale_opt: Option<Spectrum>)
        -> Seq<ScatteringLobe> {
        let c = self.spec_clamped_color();
        let dw = self.spec_diffuse_weight();
        let dt = self.spec_dt();
        let diffuse_head: Seq<ScatteringLobe> = if self.thin {
            let w1 = fx_mul_s(fx_mul_s(dw, FX_ONE - self.flatness as int), FX_ONE - dt);
            let w2 = fx_mul_s(fx_mul_s(dw, self.flatness as int), FX_ONE - dt);
            seq![
                ScatteringLobe::DisDiff(DisneyDiffuse {
                    r: spec_scale_spectrum(c, w1),
                    sc_opt: scale_opt,
                }),
                ScatteringLobe::DisSS(DisneyFakeSS {
                    r: spec_scale_spectrum(c, w2),
                    roughness: self.roughness,
                    sc_opt: scale_opt,
                }),
            ]
        } else if spec_is_black(self.scatter_distance) {
            seq![
                ScatteringLobe::DisDiff(DisneyDiffuse {
                    r: spec_scale_spectrum(c, dw),
                    sc_opt: scale_opt,
                }),
            ]
        } else {
            seq![
                ScatteringLobe::SpecTrans(SpecularTransmission {
                    t: spec_rgb(FX_ONE as int, FX_ONE as int, FX_ONE as int),
                    eta_a: FX_ONE,
                    eta_b: self.eta,
                    mode: mode,
                    sc_opt: scale_opt,
                }),
            ]
        };
        let sheen_part: Seq<ScatteringLobe> = if self.sheen > 0 {
            seq![
                ScatteringLobe::DisSheen(DisneySheen {
                    r: spec_scale_spectrum(self.spec_csheen(), fx_mul_s(dw, self.sheen as int)),
                    sc_opt: scale_opt,
                }),
            ]
        } else {
            Seq::empty()
        };
        if dw > 0 {
            diffuse_head + seq![
                ScatteringLobe::DisRetro(DisneyRetro {
                    r: spec_scale_spectrum(c, dw),
                    roughness: self.roughness,
                    sc_opt: scale_opt,
                }),
            ] + sheen_part
        } else {
            Seq::empty()
        }
    }

    /// The microfacet distribution the reflection lobe carries.
    pub open spec fn spec_distrib(self) -> DisneyMicrofacetDistribution {
        DisneyMicrofacetDistribution {
            inner: TrowbridgeReitzDistribution {
                alphax: self.spec_ax() as i64,
                alphay: self.spec_ay() as i64,
                sample_visible_area: true,
            },
        }
    }

    /// The one microfacet reflection lobe the factory always emits.
    pub open spec fn spec_micro_part(self, scale_opt: Option<Spectrum>) -> Seq<ScatteringLobe> {
        seq![
            ScatteringLobe::MicrofacetRefl(MicrofacetReflection {
                r: self.spec_clamped_color(),
                distribution: self.spec_distrib(),
                fresnel: DisneyFresnel {
                    cspec0: self.spec_cspec0(),
                    metallic: self.metallic,
                    eta: self.eta,
                },
                sc_opt: scale_opt,
            }),
        ]
    }

    /// The clear-coat lobe, under its weight.
    pub open spec fn spec_cc_part(self, scale_opt: Option<Spectrum>) -> Seq<ScatteringLobe> {
        if self.clearcoat > 0 {
            seq![
                ScatteringLobe::DisClearCoat(DisneyClearCoat {
                    weight: self.clearcoat,
                    gloss: self.spec_gloss() as i64,
                    sc_opt: scale_opt,
                }),
            ]
        } else {
            Seq::empty()
        }
    }

    /// The microfacet transmission lobe, under the transmission weight.
    pub open spec fn spec_st_part(self, mode: TransportMode, scale_opt: Option<Spectrum>)
        -> Seq<ScatteringLobe> {
        if self.spec_trans > 0 {
            let d = if self.thin {
                TrowbridgeReitzDistribution {
                    alphax: self.spec_ax_thin() as i64,
                    alphay: self.spec_ay_thin() as i64,
                    sample_visible_area: true,
                }
            } else {
                self.spec_distrib().inner
            };
            seq![
                ScatteringLobe::MicrofacetTrans(MicrofacetTransmission {
                    t: self.spec_trans_tint(),
                    distribution: d,
                    eta_a: FX_ONE,
                    eta_b: self.eta,
                    mode: mode,
                    sc_opt: scale_opt,
                }),
            ]
        } else {
            Seq::empty()
        }
    }

    /// The Lambertian transmission lobe of thin surfaces.
    pub open spec fn spec_lam_part(self, scale_opt: Option<Spectrum>) -> Seq<ScatteringLobe> {
        if self.thin {
            seq![
                ScatteringLobe::LambertianTrans(LambertianTransmission {
                    t: spec_scale_spectrum(self.spec_clamped_color(), self.spec_dt()),
                    sc_opt: scale_opt,
                }),
            ]
        } else {
            Seq::empty()
        }
    }

    /// The exact lobe sequence the factory emits for a shading point.
    pub open spec fn spec_lobes(self, mode: TransportMode, scale_opt: Option<Spectrum>)
        -> Seq<ScatteringLobe> {
        self.spec_diffuse_part(mode, scale_opt) + self.spec_micro_part(scale_opt)
            + self.spec_cc_part(scale_opt) + self.spec_st_part(mode, scale_opt)
            + self.spec_lam_part(scale_opt)
    }
}

/// A tint channel is bounded: the luminance at least carries the channel's
/// own weighted contribution, so dividing the channel by it cannot exceed
/// `FX_TINT_MAX`.
proof fn lemma_tint_bound(cv: int, lum: int, w: int)
    requires
        0 <= cv,
        1 <= lum,
        268435456 <= w,
        fx_mul_s(w, cv) <= lum,
    ensures
        0 <= fx_div_s(cv, lum) <= FX_TINT_MAX,
{
    let s = FX_ONE as int;
    assert(w * cv >= 0) by (nonlinear_arith)
        requires
            w >= 0,
            cv >= 0,
    ;
    assert(fx_mul_s(w, cv) == (w * cv) / s);
    assert(w * cv < (lum + 1) * s) by {
        vstd::arithmetic::div_mod::lemma_fundamental_div_mod(w * cv, s);
        vstd::arithmetic::div_mod::lemma_mod_bound(w * cv, s);
        assert((w * cv) / s * s <= lum * s && (lum + 1) * s == lum * s + s) by (nonlinear_arith)
            requires
                (w * cv) / s <= lum,
                s > 0,
    ;
    }
    assert(cv * s <= FX_TINT_MAX * lum) by (nonlinear_arith)
        requires
            w * cv < (lum + 1) * s,
            lum >= 1,
            w >= 268435456,
            s == 0x100000000,
            FX_TINT_MAX == 0x2000000000,
            cv >= 0,
    ;
    assert(fx_div_s(cv, lum) == (cv * s) / lum) by {
        assert(cv * s >= 0) by (nonlinear_arith)
            requires
                cv >= 0,
                s > 0,
        ;
    }
    vstd::arithmetic::div_mod::lemma_div_pos_is_pos(cv * s, lum);
    vstd::arithmetic::div_mod::lemma_div_is_ordered(cv * s, FX_TINT_MAX * lum, lum);
    assert((FX_TINT_MAX * lum) / lum == FX_TINT_MAX) by (nonlinear_arith)
        requires
            lum >= 1,
    ;
}

impl DisneyMaterial {
    /// Builds the weighted lobe stack for one shading point.  The result
    /// is exactly the sequence `spec_lobes` describes: the diffuse family
    /// only when the diffuse weight is positive (with the thin and
    /// subsurface substitutions), always one microfacet reflection, and
    /// the clear-coat, transmission and thin lobes under their governing
    /// weights.  Every emitted lobe carries the optional uniform scale.
    #[verifier::rlimit(60)]
    #[verifier::spinoff_prover]
    pub fn compute_scattering_functions(
        &self,
        mode: TransportMode,
        _allow_multiple_lobes: bool,
        scale_opt: Option<Spectrum>,
    ) -> (lobes: Vec<ScatteringLobe>)
        requires
            self.wf(),
            scale_opt_wf(scale_opt),
        ensures
            lobes@ == self.spec_lobes(mode, scale_opt),
    {
        let mut bxdfs: Vec<ScatteringLobe> = Vec::new();
        let c = self.color.clamp_zero();
        proof {
            assert(c == self.spec_clamped_color());
            lemma_fx_mul_unit(FX_ONE - self.metallic as int, FX_ONE - self.spec_trans as int);
        }
        let metallic_weight = self.metallic;
        let e = self.eta;
        let strans = self.spec_trans;
        let diffuse_weight = fx_mul(FX_ONE - metallic_weight, FX_ONE - strans);
        let dt = self.diff_trans / 2;
        let rough = self.roughness;
        let lum = c.y();
        proof {
            lemma_fx_mul_nonneg(FX_LUM_R as int, c.r as int);
            lemma_fx_mul_nonneg(FX_LUM_G as int, c.g as int);
            lemma_fx_mul_nonneg(FX_LUM_B as int, c.b as int);
            if lum > 0 {
                lemma_tint_bound(c.r as int, lum as int, FX_LUM_B as int);
                lemma_tint_bound(c.g as int, lum as int, FX_LUM_B as int);
                lemma_tint_bound(c.b as int, lum as int, FX_LUM_B as int);
                lemma_tint_mul_below(c.r as int, lum as int);
                lemma_tint_mul_below(c.g as int, lum as int);
                lemma_tint_mul_below(c.b as int, lum as int);
            }
        }
        let c_tint = if lum > 0 {
            c.div_by(lum)
        } else {
            Spectrum::new(FX_ONE)
        };
        proof {
            assert(c_tint == self.spec_tint());
            assert(spectrum_nonneg(c_tint) && spectrum_bounded(c_tint, FX_TINT_MAX as int)) by {
                if lum > 0 {
                } else {
                }
            }
        }
        let white = Spectrum::new(FX_ONE);
        let sheen_weight = self.sheen;
        let c_sheen = if sheen_weight > 0 {
            proof {
                lemma_lerp_spectrum_range(self.sheen_tint as int, white, c_tint);
            }
            spectrum_lerp(self.sheen_tint, &white, &c_tint)
        } else {
            Spectrum::zero()
        };
        proof {
            assert(c_sheen == self.spec_csheen());
            if sheen_weight > 0 {
                lemma_lerp_spectrum_range(self.sheen_tint as int, white, c_tint);
            }
            assert(spectrum_nonneg(c_sheen) && spectrum_bounded(c_sheen, FX_TINT_MAX as int));
        }
        if diffuse_weight > 0 {
            if self.thin {
                let flat = self.flatness;
                proof {
                    lemma_fx_mul_unit(diffuse_weight as int, FX_ONE - flat as int);
                    lemma_fx_mul_unit(fx_mul_s(diffuse_weight as int, FX_ONE - flat as int),
                        FX_ONE - dt as int);
                    lemma_fx_mul_unit(diffuse_weight as int, flat as int);
                    lemma_fx_mul_unit(fx_mul_s(diffuse_weight as int, flat as int),
                        FX_ONE - dt as int);
                    lemma_scale_color_fits(c, fx_mul_s(fx_mul_s(diffuse_weight as int,
                        FX_ONE - flat as int), FX_ONE - dt as int));
                    lemma_scale_color_fits(c, fx_mul_s(fx_mul_s(diffuse_weight as int,
                        flat as int), FX_ONE - dt as int));
                }
                let w1 = fx_mul(fx_mul(diffuse_weight, FX_ONE - flat), FX_ONE - dt);
                bxdfs.push(ScatteringLobe::DisDiff(DisneyDiffuse::new(c.scale(w1), scale_opt)));
                let w2 = fx_mul(fx_mul(diffuse_weight, flat), FX_ONE - dt);
                bxdfs.push(ScatteringLobe::DisSS(DisneyFakeSS::new(c.scale(w2), rough,
                    scale_opt)));
            } else {
                if self.scatter_distance.is_black() {
                    proof {
                        lemma_scale_color_fits(c, diffuse_weight as int);
                    }
                    bxdfs.push(ScatteringLobe::DisDiff(DisneyDiffuse::new(
                        c.scale(diffuse_weight), scale_opt)));
                } else {
                    bxdfs.push(ScatteringLobe::SpecTrans(SpecularTransmission::new(
                        Spectrum::new(FX_ONE), FX_ONE, e, mode, scale_opt)));
                }
            }
            proof {
                lemma_scale_color_fits(c, diffuse_weight as int);
            }
            bxdfs.push(ScatteringLobe::DisRetro(DisneyRetro::new(c.scale(diffuse_weight),
                rough, scale_opt)));
            if sheen_weight > 0 {
                proof {
                    lemma_fx_mul_unit(diffuse_weight as int, sheen_weight as int);
                    lemma_scale_tint_fits(c_sheen, fx_mul_s(diffuse_weight as int,
                        sheen_weight as int));
                }
                let ws = fx_mul(diffuse_weight, sheen_weight);
                bxdfs.push(ScatteringLobe::DisSheen(DisneySheen::new(c_sheen.scale(ws),
                    scale_opt)));
            }
        }
        proof {
            assert(bxdfs@ =~= self.spec_diffuse_part(mode, scale_opt));
            lemma_fx_mul_unit(self.anisotropic as int, FX_0_9 as int);
        }
        let aniso_part = fx_mul(self.anisotropic, FX_0_9);
        let aspect_arg = FX_ONE - aniso_part;
        let aspect = fx_sqrt(aspect_arg);
        proof {
            assert(0x40000000 * 0x40000000 <= (aspect_arg as int) * (FX_ONE as int))
                by (nonlinear_arith)
                requires
                    aspect_arg >= 429496730,
            ;
            lemma_fx_sqrt_lower(aspect_arg as int, aspect as int, 0x40000000);
        }
        let sq_rough = sqr(rough);
        proof {
            lemma_fx_div_bound(sq_rough as int, aspect as int, FX_ONE as int, 0x40000000);
            lemma_fx_mul_unit(sq_rough as int, aspect as int);
        }
        let ax = fx_max(FX_ALPHA_FLOOR, fx_div(sq_rough, aspect));
        let ay = fx_max(FX_ALPHA_FLOOR, fx_mul(sq_rough, aspect));
        let distrib = DisneyMicrofacetDistribution::new(ax, ay);
        proof {
            assert(distrib.inner.alphax == self.spec_ax());
            assert(distrib.inner.alphay == self.spec_ay());
        }
        let spec_tint_w = self.specular_tint;
        let r0 = schlick_r0_from_eta(e);
        proof {
            lemma_lerp_spectrum_range(spec_tint_w as int, white, c_tint);
        }
        let tint_lerp = spectrum_lerp(spec_tint_w, &white, &c_tint);
        proof {
            lemma_scale_tint_fits(tint_lerp, r0 as int);
            lemma_lerp_spectrum_range(spec_tint_w as int, white, c_tint);
        }
        let r0_spectrum = tint_lerp.scale(r0);
        proof {
            lemma_mul_fits(tint_lerp.r as int, r0 as int, FX_TINT_MAX as int, FX_ONE as int);
            lemma_mul_fits(tint_lerp.g as int, r0 as int, FX_TINT_MAX as int, FX_ONE as int);
            lemma_mul_fits(tint_lerp.b as int, r0 as int, FX_TINT_MAX as int, FX_ONE as int);
            lemma_fx_mul_bound(tint_lerp.r as int, r0 as int, FX_TINT_MAX as int, FX_ONE as int);
            lemma_fx_mul_bound(tint_lerp.g as int, r0 as int, FX_TINT_MAX as int, FX_ONE as int);
            lemma_fx_mul_bound(tint_lerp.b as int, r0 as int, FX_TINT_MAX as int, FX_ONE as int);
            assert(((FX_TINT_MAX as int) * (FX_ONE as int)) / (FX_ONE as int) == FX_TINT_MAX
                as int) by (nonlinear_arith);
        }
        let cspec0 = spectrum_lerp(metallic_weight, &r0_spectrum, &c);
        proof {
            assert(cspec0 == self.spec_cspec0());
        }
        let fresnel = DisneyFresnel::new(cspec0, metallic_weight, e);
        bxdfs.push(ScatteringLobe::MicrofacetRefl(MicrofacetReflection::new(c, distrib,
            fresnel, scale_opt)));
        proof {
            assert(distrib == self.spec_distrib());
            assert(bxdfs@ =~= self.spec_diffuse_part(mode, scale_opt) + self.spec_micro_part(
                scale_opt,
            ));
        }
        let cc = self.clearcoat;
        if cc > 0 {
            let gloss = fx_lerp(self.clearcoat_gloss, FX_GLOSS_WIDE, FX_GLOSS_TIGHT);
            bxdfs.push(ScatteringLobe::DisClearCoat(DisneyClearCoat::new(cc, gloss,
                scale_opt)));
        }
        proof {
            assert(bxdfs@ =~= self.spec_diffuse_part(mode, scale_opt) + self.spec_micro_part(
                scale_opt,
            ) + self.spec_cc_part(scale_opt));
        }
        if strans > 0 {
            let sqrt_c = c.sqrt();
            proof {
                lemma_sqrt_color_bound(c);
                lemma_scale_color_fits(sqrt_c, strans as int);
            }
            let t = sqrt_c.scale(strans);
            proof {
                assert(t == self.spec_trans_tint());
            }
            if self.thin {
                proof {
                    lemma_fx_mul_bound(FX_0_65 as int, e as int, FX_ONE as int, 0x1000000000);
                }
                let e_part = fx_mul(FX_0_65, e);
                proof {
                    lemma_fx_mul_bound((e_part - FX_0_35) as int, rough as int, 0x1000000000,
                        FX_ONE as int);
                }
                let rscaled = fx_mul(e_part - FX_0_35, rough);
                let sq_rs = sqr(rscaled);
                proof {
                    lemma_fx_mul_bound(rscaled as int, rscaled as int, 0x1000000000,
                        0x1000000000);
                    lemma_fx_div_bound(sq_rs as int, aspect as int, 0x10000000000, 0x40000000);
                    lemma_fx_mul_nonneg(sq_rs as int, aspect as int);
                    lemma_fx_mul_bound(sq_rs as int, aspect as int, 0x10000000000,
                        FX_ONE as int);
                }
                let ax2 = fx_max(FX_ALPHA_FLOOR, fx_div(sq_rs, aspect));
                let ay2 = fx_max(FX_ALPHA_FLOOR, fx_mul(sq_rs, aspect));
                let sdist = TrowbridgeReitzDistribution::new(ax2, ay2, true);
                proof {
                    assert(sdist.alphax == self.spec_ax_thin());
                    assert(sdist.alphay == self.spec_ay_thin());
                }
                bxdfs.push(ScatteringLobe::MicrofacetTrans(MicrofacetTransmission::new(t,
                    sdist, FX_ONE, e, mode, scale_opt)));
            } else {
                bxdfs.push(ScatteringLobe::MicrofacetTrans(MicrofacetTransmission::new(t,
                    distrib.inner, FX_ONE, e, mode, scale_opt)));
            }
        }
        proof {
            assert(bxdfs@ =~= self.spec_diffuse_part(mode, scale_opt) + self.spec_micro_part(
                scale_opt,
            ) + self.spec_cc_part(scale_opt) + self.spec_st_part(mode, scale_opt));
        }
        if self.thin {
            proof {
                lemma_scale_color_fits(c, dt as int);
            }
            bxdfs.push(ScatteringLobe::LambertianTrans(LambertianTransmission::new(c.scale(dt),
                scale_opt)));
        }
        proof {
            assert(bxdfs@ =~= self.spec_lobes(mode, scale_opt));
        }
        bxdfs
    }
}

/// The weighted channel contribution sits below the luminance times one,
/// so the division precondition holds.
proof fn lemma_tint_mul_below(cv: int, lum: int)
    requires
        0 <= cv,
        1 <= lum,
    ensures
        -0x7fffffffffffffff <= fx_div_s(cv, lum),
{
    let s = FX_ONE as int;
    assert(cv * s >= 0) by (nonlinear_arith)
        requires
            cv >= 0,
            s > 0,
    ;
    vstd::arithmetic::div_mod::lemma_div_pos_is_pos(cv * s, lum);
}

/// Scaling a clamped color channel by a weight in `[0, 1]` fits and stays
/// within the color bound.
proof fn lemma_scale_color_fits(c: Spectrum, w: int)
    requires
        spectrum_nonneg(c),
        spectrum_bounded(c, 0x200000000000),
        0 <= w <= FX_ONE,
    ensures
        iabs(c.r as int) * iabs(w) <= 0x7fffffffffffffff * (FX_ONE as int),
        iabs(c.g as int) * iabs(w) <= 0x7fffffffffffffff * (FX_ONE as int),
        iabs(c.b as int) * iabs(w) <= 0x7fffffffffffffff * (FX_ONE as int),
        0 <= fx_mul_s(c.r as int, w) <= 0x200000000000,
        0 <= fx_mul_s(c.g as int, w) <= 0x200000000000,
        0 <= fx_mul_s(c.b as int, w) <= 0x200000000000,
{
    lemma_mul_fits(c.r as int, w, 0x200000000000, FX_ONE as int);
    lemma_mul_fits(c.g as int, w, 0x200000000000, FX_ONE as int);
    lemma_mul_fits(c.b as int, w, 0x200000000000, FX_ONE as int);
    lemma_fx_mul_nonneg(c.r as int, w);
    lemma_fx_mul_nonneg(c.g as int, w);
    lemma_fx_mul_nonneg(c.b as int, w);
    lemma_fx_mul_bound(c.r as int, w, 0x200000000000, FX_ONE as int);
    lemma_fx_mul_bound(c.g as int, w, 0x200000000000, FX_ONE as int);
    lemma_fx_mul_bound(c.b as int, w, 0x200000000000, FX_ONE as int);
    assert((0x200000000000 * (FX_ONE as int)) / (FX_ONE as int) == 0x200000000000)
        by (nonlinear_arith);
}

/// Scaling a tint-bounded spectrum by a weight in `[0, 1]` fits.
proof fn lemma_scale_tint_fits(c: Spectrum, w: int)
    requires
        spectrum_nonneg(c),
        spectrum_bounded(c, FX_TINT_MAX as int),
        0 <= w <= FX_ONE,
    ensures
        iabs(c.r as int) * iabs(w) <= 0x7fffffffffffffff * (FX_ONE as int),
        iabs(c.g as int) * iabs(w) <= 0x7fffffffffffffff * (FX_ONE as int),
        iabs(c.b as int) * iabs(w) <= 0x7fffffffffffffff * (FX_ONE as int),
        0 <= fx_mul_s(c.r as int, w) <= FX_TINT_MAX,
        0 <= fx_mul_s(c.g as int, w) <= FX_TINT_MAX,
        0 <= fx_mul_s(c.b as int, w) <= FX_TINT_MAX,
{
    lemma_mul_fits(c.r as int, w, FX_TINT_MAX as int, FX_ONE as int);
    lemma_mul_fits(c.g as int, w, FX_TINT_MAX as int, FX_ONE as int);
    lemma_mul_fits(c.b as int, w, FX_TINT_MAX as int, FX_ONE as int);
    lemma_fx_mul_nonneg(c.r as int, w);
    lemma_fx_mul_nonneg(c.g as int, w);
    lemma_fx_mul_nonneg(c.b as int, w);
    lemma_fx_mul_bound(c.r as int, w, FX_TINT_MAX as int, FX_ONE as int);
    lemma_fx_mul_bound(c.g as int, w, FX_TINT_MAX as int, FX_ONE as int);
    lemma_fx_mul_bound(c.b as int, w, FX_TINT_MAX as int, FX_ONE as int);
    assert(((FX_TINT_MAX as int) * (FX_ONE as int)) / (FX_ONE as int) == FX_TINT_MAX as int)
        by (nonlinear_arith);
}

/// Interpolating between white and a tint stays non-negative and within
/// the tint bound.
proof fn lemma_lerp_spectrum_range(t: int, white: Spectrum, tint: Spectrum)
    requires
        0 <= t <= FX_ONE,
        white.r == FX_ONE && white.g == FX_ONE && white.b == FX_ONE,
        spectrum_nonneg(tint),
        spectrum_bounded(tint, FX_TINT_MAX as int),
    ensures
        0 <= fx_lerp_s(t, white.r as int, tint.r as int) <= FX_TINT_MAX,
        0 <= fx_lerp_s(t, white.g as int, tint.g as int) <= FX_TINT_MAX,
        0 <= fx_lerp_s(t, white.b as int, tint.b as int) <= FX_TINT_MAX,
{
    lemma_fx_lerp_range(t, white.r as int, tint.r as int, 0, FX_TINT_MAX as int);
    lemma_fx_lerp_range(t, white.g as int, tint.g as int, 0, FX_TINT_MAX as int);
    lemma_fx_lerp_range(t, white.b as int, tint.b as int, 0, FX_TINT_MAX as int);
    lemma_fx_mul_nonneg(FX_ONE - t, white.r as int);
    lemma_fx_mul_nonneg(t, tint.r as int);
    lemma_fx_mul_nonneg(FX_ONE - t, white.g as int);
    lemma_fx_mul_nonneg(t, tint.g as int);
    lemma_fx_mul_nonneg(FX_ONE - t, white.b as int);
    lemma_fx_mul_nonneg(t, tint.b as int);
}

/// The square root of a bounded non-negative spectrum is bounded by the
/// root of the bound.
proof fn lemma_sqrt_color_bound(c: Spectrum)
    requires
        spectrum_nonneg(c),
        spectrum_bounded(c, 0x200000000000),
    ensures
        spectrum_nonneg(Spectrum {
            r: fx_sqrt_s(c.r as int) as i64,
            g: fx_sqrt_s(c.g as int) as i64,
            b: fx_sqrt_s(c.b as int) as i64,
        }),
        0 <= fx_sqrt_s(c.r as int) <= 0x200000000000,
        0 <= fx_sqrt_s(c.g as int) <= 0x200000000000,
        0 <= fx_sqrt_s(c.b as int) <= 0x200000000000,
{
    lemma_sqrt_channel_bound(c.r as int);
    lemma_sqrt_channel_bound(c.g as int);
    lemma_sqrt_channel_bound(c.b as int);
}

/// One channel of the square-root bound.
proof fn lemma_sqrt_channel_bound(v: int)
    requires
        0 <= v <= 0x200000000000,
    ensures
        0 <= fx_sqrt_s(v) <= 0x200000000000,
{
    let r = fx_sqrt_s(v);
    lemma_sqrt_exists(v);
    assert(v * (FX_ONE as int) < (0x200000000000 + 1) * (0x200000000000 + 1))
        by (nonlinear_arith)
        requires
            v <= 0x200000000000,
    ;
    lemma_fx_sqrt_upper(v, r, 0x200000000000);
}

/// The square-root characterization has a witness for bounded inputs, so
/// the chosen root satisfies it.
proof fn lemma_sqrt_exists(v: int)
    requires
        0 <= v <= 0x7fffffffffffffff,
    ensures
        crate::fixed::is_fx_sqrt(v, fx_sqrt_s(v)),
{
    lemma_sqrt_exists_rec(v, 0);
    let r = choose|r: int| crate::fixed::is_fx_sqrt(v, r);
    assert(crate::fixed::is_fx_sqrt(v, r));
}

/// Climbing witness for square-root existence: from any candidate whose
/// square is still below the target, a true root can be reached.
proof fn lemma_sqrt_exists_rec(v: int, lo: int)
    requires
        0 <= v <= 0x7fffffffffffffff,
        0 <= lo,
        lo * lo <= v * (FX_ONE as int),
    ensures
        exists|r: int| crate::fixed::is_fx_sqrt(v, r),
    decreases 0x1000000000000 - lo,
{
    assert(v * (FX_ONE as int) < 0x1000000000000 * 0x1000000000000) by (nonlinear_arith)
        requires
            v <= 0x7fffffffffffffff,
    ;
    assert(lo < 0x1000000000000) by (nonlinear_arith)
        requires
            lo * lo <= v * (FX_ONE as int),
            v * (FX_ONE as int) < 0x1000000000000 * 0x1000000000000,
            lo >= 0,
    ;
    if v * (FX_ONE as int) < (lo + 1) * (lo + 1) {
        assert(crate::fixed::is_fx_sqrt(v, lo));
    } else {
        lemma_sqrt_exists_rec(v, lo + 1);
    }
}

/// The diffuse weight is the product `(1 - metallic)(1 - spec_trans)` and
/// lies in `[0, 1]` whenever both parameters do.
pub proof fn lemma_diffuse_weight_range(m: DisneyMaterial)
    requires
        0 <= m.metallic <= FX_ONE,
        0 <= m.spec_trans <= FX_ONE,
    ensures
        m.spec_diffuse_weight() == fx_mul_s(FX_ONE - m.metallic as int,
            FX_ONE - m.spec_trans as int),
        0 <= m.spec_diffuse_weight() <= FX_ONE,
{
    lemma_fx_mul_unit(FX_ONE - m.metallic as int, FX_ONE - m.spec_trans as int);
}

/// A vanishing diffuse weight suppresses the whole diffuse family: no
/// diffuse, fake-subsurface, retro-reflection or sheen lobe is emitted.
pub proof fn lemma_zero_diffuse_weight_suppresses(
    m: DisneyMaterial,
    mode: TransportMode,
    scale_opt: Option<Spectrum>,
)
    requires
        m.spec_diffuse_weight() <= 0,
    ensures
        forall|k: int|
            0 <= k < m.spec_lobes(mode, scale_opt).len() ==> {
                let l = #[trigger] m.spec_lobes(mode, scale_opt)[k];
                !(l is DisDiff) && !(l is DisSS) && !(l is DisRetro) && !(l is DisSheen)
            },
{
    let lobes = m.spec_lobes(mode, scale_opt);
    assert(m.spec_diffuse_part(mode, scale_opt) =~= Seq::<ScatteringLobe>::empty());
    assert forall|k: int| 0 <= k < lobes.len() implies {
        let l = #[trigger] lobes[k];
        !(l is DisDiff) && !(l is DisSS) && !(l is DisRetro) && !(l is DisSheen)
    } by {
        let d = m.spec_diffuse_part(mode, scale_opt);
        let mi = m.spec_micro_part(scale_opt);
        let cc = m.spec_cc_part(scale_opt);
        let st = m.spec_st_part(mode, scale_opt);
        let la = m.spec_lam_part(scale_opt);
        assert(lobes == d + mi + cc + st + la);
        assert(d.len() == 0);
        if k < mi.len() {
            assert(lobes[k] == mi[k]);
        } else if k < mi.len() + cc.len() {
            assert(lobes[k] == cc[k - mi.len()]);
        } else if k < mi.len() + cc.len() + st.len() {
            assert(lobes[k] == st[k - mi.len() - cc.len()]);
        } else {
            assert(lobes[k] == la[k - mi.len() - cc.len() - st.len()]);
        }
    }
}

/// Building with a uniform scale is the same as building without one and
/// installing the scale into every emitted lobe: the two sequences have
/// the same length and agree lobe by lobe up to `spec_with_scale`.
/// Together with the per-lobe scale lemmas, a scaled build evaluates to
/// the channel-wise product of the scale with the unscaled build.
pub proof fn lemma_uniform_scale(m: DisneyMaterial, mode: TransportMode, sc: Spectrum)
    ensures
        m.spec_lobes(mode, Some(sc)).len() == m.spec_lobes(mode, None).len(),
        forall|k: int|
            0 <= k < m.spec_lobes(mode, None).len() ==> #[trigger] m.spec_lobes(mode, Some(sc))[k]
                == spec_with_scale(m.spec_lobes(mode, None)[k], sc),
{
    let a = m.spec_lobes(mode, Some(sc));
    let b = m.spec_lobes(mode, None);
    let da = m.spec_diffuse_part(mode, Some(sc));
    let db = m.spec_diffuse_part(mode, None);
    let ma = m.spec_micro_part(Some(sc));
    let mb = m.spec_micro_part(None);
    let ca = m.spec_cc_part(Some(sc));
    let cb = m.spec_cc_part(None);
    let sa = m.spec_st_part(mode, Some(sc));
    let sb = m.spec_st_part(mode, None);
    let la = m.spec_lam_part(Some(sc));
    let lb = m.spec_lam_part(None);
    assert(da.len() == db.len());
    assert(ma.len() == mb.len());
    assert(ca.len() == cb.len());
    assert(sa.len() == sb.len());
    assert(la.len() == lb.len());
    assert(forall|k: int| 0 <= k < db.len() ==> #[trigger] da[k] == spec_with_scale(db[k], sc));
    assert(forall|k: int| 0 <= k < mb.len() ==> #[trigger] ma[k] == spec_with_scale(mb[k], sc));
    assert(forall|k: int| 0 <= k < cb.len() ==> #[trigger] ca[k] == spec_with_scale(cb[k], sc));
    assert(forall|k: int| 0 <= k < sb.len() ==> #[trigger] sa[k] == spec_with_scale(sb[k], sc));
    assert(forall|k: int| 0 <= k < lb.len() ==> #[trigger] la[k] == spec_with_scale(lb[k], sc));
    assert forall|k: int| 0 <= k < b.len() implies #[trigger] a[k] == spec_with_scale(b[k], sc)
    by {
        assert(a == da + ma + ca + sa + la);
        assert(b == db + mb + cb + sb + lb);
        if k < db.len() {
            assert(a[k] == da[k] && b[k] == db[k]);
        } else if k < db.len() + mb.len() {
            assert(a[k] == ma[k - db.len()] && b[k] == mb[k - db.len()]);
        } else if k < db.len() + mb.len() + cb.len() {
            assert(a[k] == ca[k - db.len() - mb.len()] && b[k] == cb[k - db.len() - mb.len()]);
        } else if k < db.len() + mb.len() + cb.len() + sb.len() {
            assert(a[k] == sa[k - db.len() - mb.len() - cb.len()] && b[k] == sb[k - db.len()
                - mb.len() - cb.len()]);
        } else {
            assert(a[k] == la[k - db.len() - mb.len() - cb.len() - sb.len()] && b[k] == lb[k
                - db.len() - mb.len() - cb.len() - sb.len()]);
        }
    }
}

/// Every lobe the factory emits carries the factory's uniform scale,
/// whatever that scale is.
pub proof fn lemma_every_lobe_carries_scale(
    m: DisneyMaterial,
    mode: TransportMode,
    scale_opt: Option<Spectrum>,
)
    ensures
        forall|k: int|
            0 <= k < m.spec_lobes(mode, scale_opt).len() ==> spec_lobe_scale(
                #[trigger] m.spec_lobes(mode, scale_opt)[k],
            ) == scale_opt,
{
    let lobes = m.spec_lobes(mode, scale_opt);
    assert forall|k: int| 0 <= k < lobes.len() implies spec_lobe_scale(#[trigger] lobes[k])
        == scale_opt by {
        let d = m.spec_diffuse_part(mode, scale_opt);
        let mi = m.spec_micro_part(scale_opt);
        let cc = m.spec_cc_part(scale_opt);
        let st = m.spec_st_part(mode, scale_opt);
        let la = m.spec_lam_part(scale_opt);
        assert(lobes == d + mi + cc + st + la);
        if k < d.len() {
            assert(lobes[k] == d[k]);
        } else if k < d.len() + mi.len() {
            assert(lobes[k] == mi[k - d.len()]);
        } else if k < d.len() + mi.len() + cc.len() {
            assert(lobes[k] == cc[k - d.len() - mi.len()]);
        } else if k < d.len() + mi.len() + cc.len() + st.len() {
            assert(lobes[k] == st[k - d.len() - mi.len() - cc.len()]);
        } else {
            assert(lobes[k] == la[k - d.len() - mi.len() - cc.len() - st.len()]);
        }
    }
}

} // verus!
