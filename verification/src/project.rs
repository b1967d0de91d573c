//! Perspective projection from camera space to screen space.
//!
//! The field of view is fixed at 90 degrees, whose focal factor
//! `1 / tan(fov / 2)` is exactly 1, so the projection is pure rational
//! arithmetic: `x` is divided by the aspect ratio `width / height` and by
//! the depth, `y` by the depth alone, and both are then mapped from the
//! `[-1, 1]` normalized range onto the viewport. The camera-space depth is
//! carried through unchanged in `z` for the caller's benefit.
//!
//! The caller must place the point strictly in front of the camera
//! (`z > 0`); rather than let an extreme point overflow the fixed-point
//! range, a point whose projection leaves the supported screen region is
//! reported as `None` and can be skipped — the bounding-box clamp would
//! have discarded it anyway.

use vstd::prelude::*;
use vstd::arithmetic::div_mod::lemma_fundamental_div_mod;
use vstd::arithmetic::div_mod::lemma_mod_bound;
use crate::fixed::FX_ONE;
use crate::fixed::floor_div;
use crate::vec3::Vec3;

verus! {

/// Magnitude bound on the camera-space coordinates accepted here.
pub const PROJ_COORD_BOUND: i64 = 0x4000_0000;

/// Largest viewport dimension accepted here.
pub const PROJ_DIM_BOUND: i64 = 0x4000;

/// Magnitude cap on the normalized device coordinates.
pub const NDC_CAP: i64 = 0x100_0000_0000;

/// Magnitude cap on the projected screen coordinates; matches the
/// rasterizer's vertex bound.
pub const SCREEN_CAP: i64 = 0x2000_0000;

/// The normalized device `x` of `v`: `v.x / aspect / v.z` in fixed point,
/// rounding each division toward negative infinity.
pub open spec fn proj_xn(v: Vec3, w: int, h: int) -> int {
    let xb = (v.x * h) / w;
    (xb * FX_ONE) / (v.z as int)
}

/// The normalized device `y` of `v`: `v.y / v.z` in fixed point.
pub open spec fn proj_yn(v: Vec3) -> int {
    (v.y * FX_ONE) / (v.z as int)
}

/// The screen `x` of `v`: `(xn + 1) * w / 2` in fixed point.
pub open spec fn proj_sx(v: Vec3, w: int, h: int) -> int {
    ((proj_xn(v, w, h) + FX_ONE) * w) / 2
}

/// The screen `y` of `v`: `(1 - yn) * h / 2` in fixed point, so that
/// positive camera `y` points up the screen.
pub open spec fn proj_sy(v: Vec3, h: int) -> int {
    ((FX_ONE - proj_yn(v)) * h) / 2
}

/// The projection of `v` stays within the supported fixed-point screen
/// region; exactly these points project to `Some`.
pub open spec fn proj_in_range(v: Vec3, w: int, h: int) -> bool {
    &&& -NDC_CAP <= proj_xn(v, w, h) <= NDC_CAP
    &&& -NDC_CAP <= proj_yn(v) <= NDC_CAP
    &&& -SCREEN_CAP <= proj_sx(v, w, h) <= SCREEN_CAP
    &&& -SCREEN_CAP <= proj_sy(v, h) <= SCREEN_CAP
}

/// Euclidean division by a positive divisor cannot grow a value's
/// magnitude.
proof fn lemma_div_magnitude(a: int, b: int)
    requires
        1 <= b,
    ensures
        a >= 0 ==> 0 <= a / b <= a,
        a < 0 ==> a <= a / b <= 0,
{
    lemma_fundamental_div_mod(a, b);
    lemma_mod_bound(a, b);
    let q = a / b;
    let r = a % b;
    if a >= 0 {
        assert(0 <= q <= a) by (nonlinear_arith)
            requires a == b * q + r, 0 <= r < b, 1 <= b, a >= 0;
    } else {
        assert(a <= q <= 0) by (nonlinear_arith)
            requires a == b * q + r, 0 <= r < b, 1 <= b, a < 0;
    }
}

/// Projects a camera-space point in front of the camera to screen space.
/// Returns `None` exactly when the projection leaves the supported screen
/// region (a point far off screen or extremely close to the camera plane).
pub fn project_vertex(v: Vec3, width: usize, height: usize) -> (r: Option<Vec3>)
    requires
        0 < width <= PROJ_DIM_BOUND,
        0 < height <= PROJ_DIM_BOUND,
        v.within(PROJ_COORD_BOUND as int),
        v.z > 0,
    ensures
        r is Some <==> proj_in_range(v, width as int, height as int),
        (r matches Some(p) ==> {
            &&& p.x == proj_sx(v, width as int, height as int)
            &&& p.y == proj_sy(v, height as int)
            &&& p.z == v.z
        }),
{
    let w64: i64 = width as i64;
    let h64: i64 = height as i64;
    proof {
        assert(-0x1000_0000_0000 <= v.x * h64 <= 0x1000_0000_0000) by (nonlinear_arith)
            requires -0x4000_0000 <= v.x <= 0x4000_0000, 0 < h64 <= 0x4000;
        assert(-0x4000_0000_0000_0000 <= v.y * FX_ONE <= 0x4000_0000_0000_0000) by (nonlinear_arith)
            requires -0x4000_0000 <= v.y <= 0x4000_0000;
    }
    let xa: i64 = v.x * h64;
    let xb: i64 = floor_div(xa, w64);
    proof {
        lemma_div_magnitude(xa as int, w64 as int);
        assert(-0x4000_0000_0000_0000 <= xb * FX_ONE <= 0x4000_0000_0000_0000) by (nonlinear_arith)
            requires -0x4000_0000_0000 <= xb <= 0x4000_0000_0000;
    }
    let xs: i64 = xb * FX_ONE;
    let xn: i64 = floor_div(xs, v.z);
    let ya: i64 = v.y * FX_ONE;
    let yn: i64 = floor_div(ya, v.z);
    if xn < -NDC_CAP || xn > NDC_CAP || yn < -NDC_CAP || yn > NDC_CAP {
        return None;
    }
    proof {
        assert(-0x4000_0000_0000_0000 <= (xn + FX_ONE) * w64 <= 0x4000_0000_0000_0000)
            by (nonlinear_arith)
            requires -0x100_0000_0000 <= xn <= 0x100_0000_0000, 0 < w64 <= 0x4000,
                FX_ONE == 0x1_0000i64;
        assert(-0x4000_0000_0000_0000 <= (FX_ONE - yn) * h64 <= 0x4000_0000_0000_0000)
            by (nonlinear_arith)
            requires -0x100_0000_0000 <= yn <= 0x100_0000_0000, 0 < h64 <= 0x4000,
                FX_ONE == 0x1_0000i64;
    }
    let sxn: i64 = (xn + FX_ONE) * w64;
    let sx: i64 = floor_div(sxn, 2);
    let syn: i64 = (FX_ONE - yn) * h64;
    let sy: i64 = floor_div(syn, 2);
    if sx < -SCREEN_CAP || sx > SCREEN_CAP || sy < -SCREEN_CAP || sy > SCREEN_CAP {
        return None;
    }
    Some(Vec3 { x: sx, y: sy, z: v.z })
}

} // verus!
