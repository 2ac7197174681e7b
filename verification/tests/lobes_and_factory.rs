//! Tests of the scattering lobes and the lobe factory: lobe values,
//! reciprocity, sampling consistency, and the factory scenarios.

use disney_bsdf::fixed::{FX_HALF, FX_ONE, FX_QUARTER};
use disney_bsdf::geometry::{Point2, Vector3};
use disney_bsdf::lobes::{
    DisneyClearCoat, DisneyDiffuse, DisneyFakeSS, DisneyRetro, DisneySheen, ScatteringLobe,
    TransportMode, BSDF_DIFFUSE, BSDF_GLOSSY, BSDF_REFLECTION,
};
use disney_bsdf::material::DisneyMaterial;
use disney_bsdf::params::{ParamName, TextureParams};
use disney_bsdf::spectrum::Spectrum;

const S: f64 = 4294967296.0;

fn to_fx(v: f64) -> i64 {
    (v * S) as i64
}

fn dir(x: f64, y: f64, z: f64) -> Vector3 {
    Vector3 { x: to_fx(x), y: to_fx(y), z: to_fx(z) }
}

fn up() -> Vector3 {
    Vector3 { x: 0, y: 0, z: FX_ONE }
}

fn grey(v: i64) -> Spectrum {
    Spectrum { r: v, g: v, b: v }
}

#[test]
fn diffuse_at_normal_incidence_is_reflectance_over_pi() {
    let d = DisneyDiffuse::new(grey(FX_ONE), None);
    let v = d.f(&up(), &up());
    let inv_pi = (S / std::f64::consts::PI) as i64;
    assert_eq!(v.r, inv_pi);
    assert_eq!(v.g, inv_pi);
    assert_eq!(v.b, inv_pi);
}

#[test]
fn diffuse_fake_ss_retro_sheen_are_reciprocal() {
    let wo = dir(0.6, 0.0, 0.8);
    let wi = dir(0.0, -0.36, 0.932);
    let cd = DisneyDiffuse::new(Spectrum { r: to_fx(0.8), g: to_fx(0.4), b: to_fx(0.1) }, None);
    assert_eq!(cd.f(&wo, &wi), cd.f(&wi, &wo));
    let ss = DisneyFakeSS::new(grey(to_fx(0.5)), to_fx(0.3), None);
    assert_eq!(ss.f(&wo, &wi), ss.f(&wi, &wo));
    let re = DisneyRetro::new(grey(to_fx(0.5)), to_fx(0.3), None);
    assert_eq!(re.f(&wo, &wi), re.f(&wi, &wo));
    let sh = DisneySheen::new(grey(to_fx(0.5)), None);
    assert_eq!(sh.f(&wo, &wi), sh.f(&wi, &wo));
}

#[test]
fn lobe_values_are_nonnegative_everywhere() {
    let pairs = [
        (dir(0.6, 0.0, 0.8), dir(0.0, -0.36, 0.932)),
        (dir(0.0, 0.0, 1.0), dir(0.0, 0.0, -1.0)),
        (dir(1.0, 0.0, 0.0), dir(-1.0, 0.0, 0.0)),
        (dir(0.99, 0.0, 0.02), dir(-0.3, 0.9, 0.3)),
    ];
    for (wo, wi) in pairs {
        let cd = DisneyDiffuse::new(grey(to_fx(0.9)), None).f(&wo, &wi);
        assert!(cd.r >= 0 && cd.g >= 0 && cd.b >= 0);
        let ss = DisneyFakeSS::new(grey(to_fx(0.9)), to_fx(0.7), None).f(&wo, &wi);
        assert!(ss.r >= 0 && ss.g >= 0 && ss.b >= 0);
        let re = DisneyRetro::new(grey(to_fx(0.9)), to_fx(0.7), None).f(&wo, &wi);
        assert!(re.r >= 0 && re.g >= 0 && re.b >= 0);
        let sh = DisneySheen::new(grey(to_fx(0.9)), None).f(&wo, &wi);
        assert!(sh.r >= 0 && sh.g >= 0 && sh.b >= 0);
        let cc = DisneyClearCoat::new(FX_ONE, to_fx(0.05), None).f(&wo, &wi);
        assert!(cc.r >= 0 && cc.g >= 0 && cc.b >= 0);
    }
}

#[test]
fn opposite_directions_yield_zero() {
    let wo = up();
    let wi = Vector3 { x: 0, y: 0, z: -FX_ONE };
    assert_eq!(DisneyDiffuse::new(grey(FX_ONE), None).f(&wo, &wi).r >= 0, true);
    assert_eq!(DisneySheen::new(grey(FX_ONE), None).f(&wo, &wi), grey(0));
    assert_eq!(DisneyRetro::new(grey(FX_ONE), to_fx(0.5), None).f(&wo, &wi), grey(0));
    assert_eq!(DisneyFakeSS::new(grey(FX_ONE), to_fx(0.5), None).f(&wo, &wi), grey(0));
}

#[test]
fn clearcoat_sample_pdf_matches_recomputed_pdf() {
    let cc = DisneyClearCoat::new(FX_ONE, to_fx(0.1), None);
    let samples = [
        (to_fx(0.3), to_fx(0.7)),
        (to_fx(0.9), to_fx(0.1)),
        (to_fx(0.01), to_fx(0.99)),
        (FX_HALF, FX_QUARTER),
    ];
    for (ux, uy) in samples {
        let wo = dir(0.48, 0.0, 0.877);
        let mut wi = Vector3 { x: 0, y: 0, z: 0 };
        let mut pdf: i64 = -1;
        let val = cc.sample_f(&wo, &mut wi, &Point2 { x: ux, y: uy }, &mut pdf);
        assert_eq!(pdf, cc.pdf(&wo, &wi));
        assert!(val.r >= 0 && val.g >= 0 && val.b >= 0);
        let same_hemisphere = (wo.z > 0 && wi.z > 0) || (wo.z < 0 && wi.z < 0);
        if !same_hemisphere {
            assert_eq!(val, grey(0));
            assert_eq!(pdf, 0);
        }
    }
}

#[test]
fn clearcoat_rejects_outside_hemisphere() {
    let cc = DisneyClearCoat::new(FX_ONE, to_fx(0.1), None);
    let wo = dir(0.0, 0.0, 1.0);
    let below = dir(0.1, 0.0, -0.99);
    assert_eq!(cc.pdf(&wo, &below), 0);
    assert_eq!(cc.f(&wo, &wo).r >= 0, true);
    let grazing = Vector3 { x: FX_ONE, y: 0, z: 0 };
    let mut wi = dir(0.3, 0.3, 0.9);
    let kept = wi;
    let mut pdf: i64 = 77;
    let val = cc.sample_f(&grazing, &mut wi, &Point2 { x: FX_HALF, y: FX_HALF }, &mut pdf);
    assert_eq!(val, grey(0));
    assert_eq!(pdf, 0);
    assert_eq!(wi, kept);
}

#[test]
fn lobe_type_flags() {
    assert_eq!(
        DisneyDiffuse::new(grey(0), None).get_type(),
        BSDF_REFLECTION | BSDF_DIFFUSE
    );
    assert_eq!(
        DisneyClearCoat::new(0, to_fx(0.05), None).get_type(),
        BSDF_REFLECTION | BSDF_GLOSSY
    );
}

#[test]
fn resolver_returns_bindings_and_defaults() {
    let mut tp = TextureParams::new();
    tp.floats.push((ParamName::Metallic, to_fx(0.25)));
    tp.floats.push((ParamName::Sheen, to_fx(1.0)));
    tp.spectra.push((ParamName::Color, grey(to_fx(0.3))));
    tp.bools.push((ParamName::Thin, true));
    assert_eq!(tp.get_float_texture(ParamName::Metallic, 0), to_fx(0.25));
    assert_eq!(tp.get_float_texture(ParamName::Roughness, FX_HALF), FX_HALF);
    assert_eq!(tp.get_spectrum_texture(ParamName::Color, grey(0)), grey(to_fx(0.3)));
    assert_eq!(tp.get_spectrum_texture(ParamName::ScatterDistance, grey(7)), grey(7));
    assert_eq!(tp.find_bool(ParamName::Thin, false), true);
    assert_eq!(tp.get_float_texture_or_null(ParamName::BumpMap), None);
    tp.floats.push((ParamName::BumpMap, 42));
    assert_eq!(tp.get_float_texture_or_null(ParamName::BumpMap), Some(42));
}

#[test]
fn material_defaults() {
    let tp = TextureParams::new();
    let m = DisneyMaterial::create(&tp);
    assert_eq!(m.color, grey(FX_HALF));
    assert_eq!(m.metallic, 0);
    assert_eq!(m.eta, to_fx(1.5));
    assert_eq!(m.roughness, FX_HALF);
    assert_eq!(m.sheen_tint, FX_HALF);
    assert_eq!(m.clearcoat_gloss, FX_ONE);
    assert_eq!(m.diff_trans, FX_ONE);
    assert_eq!(m.thin, false);
    assert_eq!(m.bump_map, None);
}

fn scenario_a_material() -> DisneyMaterial {
    let mut tp = TextureParams::new();
    tp.floats.push((ParamName::Metallic, 0));
    tp.floats.push((ParamName::SpecTrans, 0));
    tp.floats.push((ParamName::Roughness, FX_HALF));
    tp.spectra.push((ParamName::Color, grey(FX_HALF)));
    tp.spectra.push((ParamName::ScatterDistance, grey(0)));
    tp.bools.push((ParamName::Thin, false));
    DisneyMaterial::create(&tp)
}

#[test]
fn scenario_matte_emits_exactly_diffuse_retro_and_reflection() {
    let m = scenario_a_material();
    let lobes = m.compute_scattering_functions(TransportMode::Radiance, true, None);
    assert_eq!(lobes.len(), 3);
    assert!(matches!(lobes[0], ScatteringLobe::DisDiff(_)));
    assert!(matches!(lobes[1], ScatteringLobe::DisRetro(_)));
    assert!(matches!(lobes[2], ScatteringLobe::MicrofacetRefl(_)));
    if let ScatteringLobe::DisDiff(d) = lobes[0] {
        assert_eq!(d.r, grey(FX_HALF));
        assert_eq!(d.sc_opt, None);
    }
    for l in lobes.iter() {
        assert!(!matches!(l, ScatteringLobe::DisClearCoat(_)));
        assert!(!matches!(l, ScatteringLobe::MicrofacetTrans(_)));
        assert!(!matches!(l, ScatteringLobe::LambertianTrans(_)));
        assert!(!matches!(l, ScatteringLobe::SpecTrans(_)));
    }
}

#[test]
fn scenario_thin_full_diff_trans_halves_both_sides() {
    let mut tp = TextureParams::new();
    tp.bools.push((ParamName::Thin, true));
    tp.floats.push((ParamName::DiffTrans, FX_ONE));
    tp.floats.push((ParamName::Flatness, 0));
    tp.spectra.push((ParamName::Color, grey(FX_HALF)));
    let m = DisneyMaterial::create(&tp);
    let lobes = m.compute_scattering_functions(TransportMode::Radiance, true, None);
    let mut lambertian_weight = None;
    let mut diffuse_weight = None;
    for l in lobes.iter() {
        if let ScatteringLobe::LambertianTrans(lt) = l {
            lambertian_weight = Some(lt.t);
        }
        if let ScatteringLobe::DisDiff(d) = l {
            diffuse_weight = Some(d.r);
        }
    }
    // dt = 0.5, so the transmitted side carries 0.5 * color and the diffuse
    // side is scaled by (1 - 0.5).
    assert_eq!(lambertian_weight, Some(grey(FX_QUARTER)));
    assert_eq!(diffuse_weight, Some(grey(FX_QUARTER)));
}

#[test]
fn scenario_transmissive_emits_scaled_microfacet_transmission() {
    let mut tp = TextureParams::new();
    tp.floats.push((ParamName::SpecTrans, to_fx(0.8)));
    tp.bools.push((ParamName::Thin, false));
    tp.spectra.push((ParamName::Color, grey(FX_QUARTER)));
    let m = DisneyMaterial::create(&tp);
    let lobes = m.compute_scattering_functions(TransportMode::Radiance, true, None);
    let mut trans_tint = None;
    for l in lobes.iter() {
        assert!(!matches!(l, ScatteringLobe::LambertianTrans(_)));
        if let ScatteringLobe::MicrofacetTrans(mt) = l {
            trans_tint = Some(mt.t);
        }
    }
    // sqrt(0.25) = 0.5 exactly, so the tint is 0.8 * 0.5 of each channel.
    let expected = to_fx(0.8) / 2;
    assert_eq!(trans_tint, Some(grey(expected)));
}

#[test]
fn zero_diffuse_weight_suppresses_the_diffuse_family() {
    let mut tp = TextureParams::new();
    tp.floats.push((ParamName::Metallic, FX_ONE));
    tp.floats.push((ParamName::Sheen, FX_ONE));
    let m = DisneyMaterial::create(&tp);
    let lobes = m.compute_scattering_functions(TransportMode::Radiance, true, None);
    for l in lobes.iter() {
        assert!(!matches!(l, ScatteringLobe::DisDiff(_)));
        assert!(!matches!(l, ScatteringLobe::DisSS(_)));
        assert!(!matches!(l, ScatteringLobe::DisRetro(_)));
        assert!(!matches!(l, ScatteringLobe::DisSheen(_)));
    }
}

#[test]
fn clearcoat_weight_emits_clearcoat_lobe() {
    let mut tp = TextureParams::new();
    tp.floats.push((ParamName::Clearcoat, FX_ONE));
    let m = DisneyMaterial::create(&tp);
    let lobes = m.compute_scattering_functions(TransportMode::Radiance, true, None);
    let mut found = None;
    for l in lobes.iter() {
        if let ScatteringLobe::DisClearCoat(cc) = l {
            found = Some(*cc);
        }
    }
    let cc = found.expect("clear coat lobe missing");
    assert_eq!(cc.weight, FX_ONE);
    // default gloss parameter 1.0 maps to the tightest width, 0.001
    assert_eq!(cc.gloss, to_fx(0.001));
}

#[test]
fn uniform_scale_is_installed_into_every_lobe() {
    let mut tp = TextureParams::new();
    tp.floats.push((ParamName::Sheen, FX_HALF));
    tp.floats.push((ParamName::Clearcoat, FX_HALF));
    tp.floats.push((ParamName::SpecTrans, to_fx(0.3)));
    tp.bools.push((ParamName::Thin, true));
    let m = DisneyMaterial::create(&tp);
    let sc = Spectrum { r: to_fx(2.0), g: FX_ONE, b: FX_HALF };
    let with = m.compute_scattering_functions(TransportMode::Radiance, true, Some(sc));
    let without = m.compute_scattering_functions(TransportMode::Radiance, true, None);
    assert_eq!(with.len(), without.len());
    for (a, b) in with.iter().zip(without.iter()) {
        match (a, b) {
            (ScatteringLobe::DisDiff(x), ScatteringLobe::DisDiff(y)) => {
                assert_eq!(x.sc_opt, Some(sc));
                assert_eq!(x.r, y.r);
            },
            (ScatteringLobe::DisSS(x), ScatteringLobe::DisSS(y)) => {
                assert_eq!(x.sc_opt, Some(sc));
                assert_eq!(x.r, y.r);
            },
            (ScatteringLobe::DisRetro(x), ScatteringLobe::DisRetro(y)) => {
                assert_eq!(x.sc_opt, Some(sc));
                assert_eq!(x.r, y.r);
            },
            (ScatteringLobe::DisSheen(x), ScatteringLobe::DisSheen(y)) => {
                assert_eq!(x.sc_opt, Some(sc));
                assert_eq!(x.r, y.r);
            },
            (ScatteringLobe::DisClearCoat(x), ScatteringLobe::DisClearCoat(y)) => {
                assert_eq!(x.sc_opt, Some(sc));
                assert_eq!(x.weight, y.weight);
            },
            (ScatteringLobe::MicrofacetRefl(x), ScatteringLobe::MicrofacetRefl(y)) => {
                assert_eq!(x.sc_opt, Some(sc));
                assert_eq!(x.r, y.r);
            },
            (ScatteringLobe::MicrofacetTrans(x), ScatteringLobe::MicrofacetTrans(y)) => {
                assert_eq!(x.sc_opt, Some(sc));
                assert_eq!(x.t, y.t);
            },
            (ScatteringLobe::SpecTrans(x), ScatteringLobe::SpecTrans(y)) => {
                assert_eq!(x.sc_opt, Some(sc));
                assert_eq!(x.t, y.t);
            },
            (ScatteringLobe::LambertianTrans(x), ScatteringLobe::LambertianTrans(y)) => {
                assert_eq!(x.sc_opt, Some(sc));
                assert_eq!(x.t, y.t);
            },
            _ => panic!("lobe kinds differ between scaled and unscaled builds"),
        }
    }
}

#[test]
fn scaled_lobe_evaluates_to_scaled_value() {
    let wo = dir(0.6, 0.0, 0.8);
    let wi = dir(0.0, -0.36, 0.932);
    let sc = Spectrum { r: to_fx(2.0), g: FX_ONE, b: FX_HALF };
    let plain = DisneyDiffuse::new(grey(to_fx(0.7)), None);
    let scaled = DisneyDiffuse::new(grey(to_fx(0.7)), Some(sc));
    let pv = plain.f(&wo, &wi);
    let sv = scaled.f(&wo, &wi);
    // channel-wise product with the scale, exactly
    assert_eq!(sv.r, ((sc.r as i128 * pv.r as i128) / (FX_ONE as i128)) as i64);
    assert_eq!(sv.g, ((sc.g as i128 * pv.g as i128) / (FX_ONE as i128)) as i64);
    assert_eq!(sv.b, ((sc.b as i128 * pv.b as i128) / (FX_ONE as i128)) as i64);
}

#[test]
fn diffuse_weight_formula() {
    let mut tp = TextureParams::new();
    tp.floats.push((ParamName::Metallic, to_fx(0.25)));
    tp.floats.push((ParamName::SpecTrans, FX_HALF));
    let m = DisneyMaterial::create(&tp);
    let lobes = m.compute_scattering_functions(TransportMode::Radiance, true, None);
    let mut retro_weight = None;
    for l in lobes.iter() {
        if let ScatteringLobe::DisRetro(r) = l {
            retro_weight = Some(r.r);
        }
    }
    // (1 - 0.25) * (1 - 0.5) = 0.375 of the default 0.5 color: 0.1875
    assert_eq!(retro_weight, Some(grey(to_fx(0.1875))));
}
