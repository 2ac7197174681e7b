//! Directions and 2D samples in the local shading frame; fixed-point
//! components, z along the shading normal.

use vstd::prelude::*;
use crate::fixed::{
    fx_mul, fx_mul_s, fx_div, fx_div_s, fx_sin_turn, fx_sin_turn_s, fx_cos_turn, fx_cos_turn_s,
    iabs, lemma_fx_mul_bound, FX_ONE,
};

verus! {

/// A direction in the local shading frame.
#[derive(Clone, Copy, Debug, PartialEq, Eq, Structural)]
pub struct Vector3 {
    pub x: i64,
    pub y: i64,
    pub z: i64,
}

/// A 2D sample, both coordinates in `[0, 1]`.
#[derive(Clone, Copy, Debug, PartialEq, Eq, Structural)]
pub struct Point2 {
    pub x: i64,
    pub y: i64,
}

/// Magnitude bound accepted for direction components handed to the lobes;
/// unit directions satisfy it with room for reflected directions.
pub const FX_DIR_MAX: i64 = 68719476736;

/// Every component has magnitude at most `m`.
pub open spec fn vec_bounded(v: Vector3, m: int) -> bool {
    iabs(v.x as int) <= m && iabs(v.y as int) <= m && iabs(v.z as int) <= m
}

/// A direction the lobes accept: components bounded by `FX_DIR_MAX`.
pub open spec fn dir_wf(v: Vector3) -> bool {
    vec_bounded(v, FX_DIR_MAX as int)
}

/// A sample the lobes accept: both coordinates in `[0, 1]`.
pub open spec fn sample_wf(u: Point2) -> bool {
    0 <= u.x <= FX_ONE && 0 <= u.y <= FX_ONE
}

/// The exact value of the fixed-point dot product.
pub open spec fn spec_dot(a: Vector3, b: Vector3) -> int {
    fx_mul_s(a.x as int, b.x as int) + fx_mul_s(a.y as int, b.y as int) + fx_mul_s(
        a.z as int,
        b.z as int,
    )
}

/// The component-wise sum of two directions.
pub open spec fn spec_add(a: Vector3, b: Vector3) -> Vector3 {
    Vector3 { x: (a.x + b.x) as i64, y: (a.y + b.y) as i64, z: (a.z + b.z) as i64 }
}

/// Whether two directions lie in the same hemisphere of the shading frame.
pub open spec fn spec_same_hemisphere(a: Vector3, b: Vector3) -> bool {
    (a.z as int) * (b.z as int) > 0
}

/// Dot product of two bounded directions.
pub fn vec3_dot_vec3(a: &Vector3, b: &Vector3) -> (d: i64)
    requires
        vec_bounded(*a, 0x100000000000),
        vec_bounded(*b, 0x100000000000),
    ensures
        d == spec_dot(*a, *b),
        iabs(d as int) <= 0x300000000000000,
{
    proof {
        lemma_fx_mul_bound(a.x as int, b.x as int, 0x100000000000, 0x100000000000);
        lemma_fx_mul_bound(a.y as int, b.y as int, 0x100000000000, 0x100000000000);
        lemma_fx_mul_bound(a.z as int, b.z as int, 0x100000000000, 0x100000000000);
    }
    fx_mul(a.x, b.x) + fx_mul(a.y, b.y) + fx_mul(a.z, b.z)
}

/// Component-wise sum of two directions.
pub fn vec3_add(a: &Vector3, b: &Vector3) -> (s: Vector3)
    requires
        vec_bounded(*a, 0x1000000000000000),
        vec_bounded(*b, 0x1000000000000000),
    ensures
        s == spec_add(*a, *b),
        s.x == a.x + b.x,
        s.y == a.y + b.y,
        s.z == a.z + b.z,
{
    Vector3 { x: a.x + b.x, y: a.y + b.y, z: a.z + b.z }
}

/// Every component divided by the scalar `k`.
pub fn vec3_div_scalar(v: &Vector3, k: i64) -> (s: Vector3)
    requires
        k >= 1,
        -0x7fffffffffffffff <= fx_div_s(v.x as int, k as int) <= 0x7fffffffffffffff,
        -0x7fffffffffffffff <= fx_div_s(v.y as int, k as int) <= 0x7fffffffffffffff,
        -0x7fffffffffffffff <= fx_div_s(v.z as int, k as int) <= 0x7fffffffffffffff,
    ensures
        s.x == fx_div_s(v.x as int, k as int),
        s.y == fx_div_s(v.y as int, k as int),
        s.z == fx_div_s(v.z as int, k as int),
{
    Vector3 { x: fx_div(v.x, k), y: fx_div(v.y, k), z: fx_div(v.z, k) }
}

/// The magnitude of the z component: the absolute cosine of the angle to
/// the shading normal, for a unit direction.
pub fn abs_cos_theta(v: &Vector3) -> (c: i64)
    requires
        v.z > -0x7fffffffffffffff,
    ensures
        c == iabs(v.z as int),
        c >= 0,
{
    if v.z >= 0 {
        v.z
    } else {
        -v.z
    }
}

/// Whether two directions lie in the same hemisphere.
pub fn vec3_same_hemisphere_vec3(a: &Vector3, b: &Vector3) -> (r: bool)
    ensures
        r == spec_same_hemisphere(*a, *b),
{
    proof {
        assert(((a.z as int) * (b.z as int) > 0) == ((a.z > 0 && b.z > 0) || (a.z < 0 && b.z
            < 0))) by (nonlinear_arith);
    }
    (a.z > 0 && b.z > 0) || (a.z < 0 && b.z < 0)
}

/// The exact value of the reflection of `wo` about `wh`.
pub open spec fn spec_reflect(wo: Vector3, wh: Vector3) -> Vector3 {
    let t = 2 * spec_dot(wo, wh);
    Vector3 {
        x: (-wo.x + fx_mul_s(t, wh.x as int)) as i64,
        y: (-wo.y + fx_mul_s(t, wh.y as int)) as i64,
        z: (-wo.z + fx_mul_s(t, wh.z as int)) as i64,
    }
}

/// Reflection of `wo` about the half vector `wh`:
/// `-wo + 2 (wo . wh) wh`.
pub fn reflect(wo: &Vector3, wh: &Vector3) -> (wi: Vector3)
    requires
        vec_bounded(*wo, FX_DIR_MAX as int),
        vec_bounded(*wh, FX_ONE as int),
    ensures
        wi == spec_reflect(*wo, *wh),
        vec_bounded(wi, 7 * FX_DIR_MAX as int),
{
    let d = vec3_dot_vec3(wo, wh);
    proof {
        lemma_fx_mul_bound(wo.x as int, wh.x as int, FX_DIR_MAX as int, FX_ONE as int);
        lemma_fx_mul_bound(wo.y as int, wh.y as int, FX_DIR_MAX as int, FX_ONE as int);
        lemma_fx_mul_bound(wo.z as int, wh.z as int, FX_DIR_MAX as int, FX_ONE as int);
        assert(((FX_DIR_MAX as int) * (FX_ONE as int)) / (FX_ONE as int) == FX_DIR_MAX as int)
            by (nonlinear_arith);
        assert(iabs(d as int) <= 3 * FX_DIR_MAX);
    }
    let t = 2 * d;
    proof {
        lemma_fx_mul_bound(t as int, wh.x as int, 6 * FX_DIR_MAX as int, FX_ONE as int);
        lemma_fx_mul_bound(t as int, wh.y as int, 6 * FX_DIR_MAX as int, FX_ONE as int);
        lemma_fx_mul_bound(t as int, wh.z as int, 6 * FX_DIR_MAX as int, FX_ONE as int);
        assert(((6 * FX_DIR_MAX as int) * (FX_ONE as int)) / (FX_ONE as int) == 6 * FX_DIR_MAX
            as int) by (nonlinear_arith);
    }
    Vector3 {
        x: -wo.x + fx_mul(t, wh.x),
        y: -wo.y + fx_mul(t, wh.y),
        z: -wo.z + fx_mul(t, wh.z),
    }
}

/// The exact value of the direction with the given spherical coordinates.
pub open spec fn spec_spherical_direction(sin_theta: int, cos_theta: int, phi_turns: int)
    -> Vector3 {
    Vector3 {
        x: fx_mul_s(sin_theta, fx_cos_turn_s(phi_turns)) as i64,
        y: fx_mul_s(sin_theta, fx_sin_turn_s(phi_turns)) as i64,
        z: cos_theta as i64,
    }
}

/// The direction with polar sine and cosine `sin_theta`, `cos_theta` and
/// azimuth `phi_turns` full turns.
pub fn spherical_direction(sin_theta: i64, cos_theta: i64, phi_turns: i64) -> (v: Vector3)
    requires
        0 <= sin_theta <= FX_ONE,
        -FX_ONE <= cos_theta <= FX_ONE,
        0 <= phi_turns <= FX_ONE,
    ensures
        v == spec_spherical_direction(sin_theta as int, cos_theta as int, phi_turns as int),
        vec_bounded(v, FX_ONE as int),
{
    let cp = fx_cos_turn(phi_turns);
    let sp = fx_sin_turn(phi_turns);
    proof {
        lemma_fx_mul_bound(sin_theta as int, cp as int, FX_ONE as int, FX_ONE as int);
        lemma_fx_mul_bound(sin_theta as int, sp as int, FX_ONE as int, FX_ONE as int);
        assert(((FX_ONE as int) * (FX_ONE as int)) / (FX_ONE as int) == FX_ONE as int)
            by (nonlinear_arith);
    }
    Vector3 { x: fx_mul(sin_theta, cp), y: fx_mul(sin_theta, sp), z: cos_theta }
}

/// Normalizing keeps components within twice the unit: a component whose
/// truncated square is below the squared length divides by the rounded
/// length into at most two units.
pub proof fn lemma_normalize_bound(hc: int, l2: int, len: int)
    requires
        fx_mul_s(hc, hc) <= l2,
        1 <= l2,
        crate::fixed::is_fx_sqrt(l2, len),
    ensures
        iabs(fx_div_s(hc, len)) <= 2 * FX_ONE,
        len >= 0x10000,
{
    let s = FX_ONE as int;
    assert(hc * hc >= 0) by (nonlinear_arith);
    assert(fx_mul_s(hc, hc) == hc * hc / s);
    assert(hc * hc < (l2 + 1) * s) by (nonlinear_arith)
        requires
            hc * hc / s <= l2,
            hc * hc >= 0,
            s > 0,
    ;
    assert(len + 1 > 0x10000) by (nonlinear_arith)
        requires
            l2 * s < (len + 1) * (len + 1),
            l2 >= 1,
            s == 0x100000000,
            len >= 0,
    ;
    assert(iabs(hc) * iabs(hc) == hc * hc) by (nonlinear_arith);
    assert(iabs(hc) <= 2 * len) by (nonlinear_arith)
        requires
            hc * hc < (l2 + 1) * s,
            len * len <= l2 * s,
            l2 * s < (len + 1) * (len + 1),
            len >= 0x10000,
            s == 0x100000000,
            iabs(hc) * iabs(hc) == hc * hc,
            iabs(hc) >= 0,
    ;
    assert(iabs(hc * s) == iabs(hc) * s) by (nonlinear_arith)
        requires
            s > 0,
    ;
    assert(iabs(hc) * s >= 0) by (nonlinear_arith)
        requires
            iabs(hc) >= 0,
            s > 0,
    ;
    assert(iabs(fx_div_s(hc, len)) == iabs(hc) * s / len) by {
        vstd::arithmetic::div_mod::lemma_div_pos_is_pos(iabs(hc) * s, len);
    }
    assert(iabs(hc) * s <= (2 * len) * s) by (nonlinear_arith)
        requires
            iabs(hc) <= 2 * len,
            s > 0,
    ;
    vstd::arithmetic::div_mod::lemma_div_is_ordered(iabs(hc) * s, (2 * len) * s, len);
    assert((2 * len) * s / len == 2 * s) by (nonlinear_arith)
        requires
            len > 0,
    ;
}

/// Negation of a direction.
pub fn vec3_neg(v: &Vector3) -> (n: Vector3)
    requires
        vec_bounded(*v, 0x1000000000000000),
    ensures
        n.x == -v.x && n.y == -v.y && n.z == -v.z,
{
    Vector3 { x: -v.x, y: -v.y, z: -v.z }
}

} // verus!
