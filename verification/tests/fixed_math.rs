//! Tests of the fixed-point scalar kernel and the shared shading helpers.

use disney_bsdf::fixed::{
    fx_clamp, fx_cos_turn, fx_div, fx_div_sat, fx_lerp, fx_log10, fx_max, fx_min, fx_mul,
    fx_pow_frac, fx_sin_turn, fx_sqrt, FX_HALF, FX_ONE, FX_QUARTER,
};
use disney_bsdf::shading_math::{
    fr_schlick, gtr1, schlick_r0_from_eta, schlick_weight, smith_g_ggx, sqr, FX_INV_PI,
};

const S: f64 = 4294967296.0;

fn to_fx(v: f64) -> i64 {
    (v * S) as i64
}

fn from_fx(v: i64) -> f64 {
    (v as f64) / S
}

#[test]
fn mul_and_div_are_exact_on_powers_of_two() {
    assert_eq!(fx_mul(FX_HALF, FX_HALF), FX_QUARTER);
    assert_eq!(fx_mul(FX_ONE, 12345), 12345);
    assert_eq!(fx_mul(-FX_HALF, FX_HALF), -FX_QUARTER);
    assert_eq!(fx_div(FX_QUARTER, FX_HALF), FX_HALF);
    assert_eq!(fx_div(FX_ONE, FX_ONE), FX_ONE);
    assert_eq!(fx_div(-FX_QUARTER, FX_HALF), -FX_HALF);
}

#[test]
fn mul_rounds_toward_zero() {
    assert_eq!(fx_mul(1, 1), 0);
    assert_eq!(fx_mul(-1, 1), 0);
    assert_eq!(fx_mul(3, FX_HALF), 1);
    assert_eq!(fx_mul(-3, FX_HALF), -1);
}

#[test]
fn div_sat_caps_near_singular_denominators() {
    let cap: i64 = 1099511627776;
    assert_eq!(fx_div_sat(FX_ONE, 1, cap), cap);
    assert_eq!(fx_div_sat(FX_ONE, 2 * FX_ONE, cap), FX_HALF);
}

#[test]
fn sqrt_is_exact_on_perfect_squares() {
    assert_eq!(fx_sqrt(FX_ONE), FX_ONE);
    assert_eq!(fx_sqrt(FX_QUARTER), FX_HALF);
    assert_eq!(fx_sqrt(0), 0);
    assert_eq!(fx_sqrt(4 * FX_ONE), 2 * FX_ONE);
}

#[test]
fn sqrt_matches_float_reference() {
    for v in [0.07f64, 0.3, 0.9, 2.5, 100.0] {
        let got = from_fx(fx_sqrt(to_fx(v)));
        assert!((got - v.sqrt()).abs() < 1e-6, "sqrt({v}) = {got}");
    }
}

#[test]
fn log10_matches_float_reference() {
    for v in [0.0001f64, 0.001, 0.01, 0.25, 0.5, 0.9] {
        let got = from_fx(fx_log10(to_fx(v)));
        assert!((got - v.log10()).abs() < 1e-4, "log10({v}) = {got}");
    }
}

#[test]
fn pow_frac_is_exact_on_square_roots() {
    assert_eq!(fx_pow_frac(FX_QUARTER, FX_HALF), FX_HALF);
    assert_eq!(fx_pow_frac(FX_QUARTER, FX_ONE), FX_QUARTER);
    assert_eq!(fx_pow_frac(FX_QUARTER, 0), FX_ONE);
}

#[test]
fn pow_frac_matches_float_reference() {
    for (b, t) in [(0.3f64, 0.7f64), (0.01, 0.25), (0.9, 0.9)] {
        let got = from_fx(fx_pow_frac(to_fx(b), to_fx(t)));
        assert!((got - b.powf(t)).abs() < 1e-4, "{b}^{t} = {got}");
    }
}

#[test]
fn sine_and_cosine_hit_the_cardinal_points() {
    assert_eq!(fx_sin_turn(0), 0);
    assert_eq!(fx_sin_turn(FX_QUARTER), FX_ONE);
    assert_eq!(fx_sin_turn(FX_HALF), 0);
    assert_eq!(fx_cos_turn(0), FX_ONE);
    assert_eq!(fx_cos_turn(FX_HALF), -FX_ONE);
}

#[test]
fn sine_stays_close_to_the_float_sine() {
    for i in 0..32 {
        let u = i as f64 / 32.0;
        let got = from_fx(fx_sin_turn(to_fx(u)));
        let want = (2.0 * std::f64::consts::PI * u).sin();
        assert!((got - want).abs() < 4e-3, "sin({u} turns) = {got}, want {want}");
    }
}

#[test]
fn min_max_clamp_lerp() {
    assert_eq!(fx_min(3, -5), -5);
    assert_eq!(fx_max(3, -5), 3);
    assert_eq!(fx_clamp(7, 0, 5), 5);
    assert_eq!(fx_clamp(-7, 0, 5), 0);
    assert_eq!(fx_lerp(0, 100, 200), 100);
    assert_eq!(fx_lerp(FX_ONE, 100, 200), 200);
    assert_eq!(fx_lerp(FX_HALF, 0, FX_ONE), FX_HALF);
}

#[test]
fn schlick_weight_endpoints_are_exact() {
    assert_eq!(schlick_weight(FX_ONE), 0);
    assert_eq!(schlick_weight(0), FX_ONE);
    assert_eq!(schlick_weight(2 * FX_ONE), 0);
    assert_eq!(schlick_weight(-FX_ONE), FX_ONE);
}

#[test]
fn schlick_weight_matches_float_reference() {
    for c in [0.1f64, 0.5, 0.77] {
        let got = from_fx(schlick_weight(to_fx(c)));
        let want = (1.0 - c).powi(5);
        assert!((got - want).abs() < 1e-6, "weight({c}) = {got}");
    }
}

#[test]
fn r0_of_glass_is_four_percent() {
    let got = from_fx(schlick_r0_from_eta(to_fx(1.5)));
    assert!((got - 0.04).abs() < 1e-6, "r0 = {got}");
}

#[test]
fn fr_schlick_interpolates_to_one_at_grazing() {
    let f0 = to_fx(0.04);
    assert_eq!(fr_schlick(f0, 0), FX_ONE);
    let got = from_fx(fr_schlick(f0, FX_ONE));
    assert!((got - 0.04).abs() < 1e-6, "fr = {got}");
}

#[test]
fn sqr_squares() {
    assert_eq!(sqr(FX_HALF), FX_QUARTER);
    assert_eq!(sqr(-FX_HALF), FX_QUARTER);
}

#[test]
fn inv_pi_constant_matches_float() {
    assert_eq!(FX_INV_PI, (S / std::f64::consts::PI) as i64);
}

#[test]
fn gtr1_matches_float_reference() {
    for (c, a) in [(1.0f64, 0.1f64), (0.5, 0.1), (0.0, 0.1), (0.8, 0.01), (0.3, 0.25)] {
        let got = from_fx(gtr1(to_fx(c), to_fx(a)));
        let a2 = a * a;
        let want = (a2 - 1.0)
            / (std::f64::consts::PI * a2.log10() * (1.0 + (a2 - 1.0) * c * c));
        assert!(got >= 0.0);
        assert!((got - want).abs() < 2e-3 * want.abs().max(1.0), "gtr1({c},{a}) = {got}, want {want}");
    }
}

#[test]
fn smith_matches_float_reference() {
    for (c, a) in [(1.0f64, 0.25f64), (0.5, 0.25), (0.0, 0.25), (0.9, 0.7)] {
        let got = from_fx(smith_g_ggx(to_fx(c), to_fx(a)));
        let a2 = a * a;
        let want = 1.0 / (c + (a2 + c * c - a2 * c * c).sqrt());
        assert!((got - want).abs() < 1e-5, "smith({c},{a}) = {got}, want {want}");
    }
}
