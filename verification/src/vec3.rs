//! Three-component vectors over fixed-point coordinates. The same type
//! carries model-space vertices, camera-space points, and projected screen
//! points (where `z` retains the camera-space depth).

use vstd::prelude::*;

verus! {

/// A 3D point or vector in fixed-point units (see [`crate::fixed::FX_ONE`]).
#[derive(Clone, Copy, PartialEq, Eq, Structural, Debug)]
pub struct Vec3 {
    pub x: i64,
    pub y: i64,
    pub z: i64,
}

impl Vec3 {
    /// Both screen-plane components lie within `bound` in magnitude.
    pub open spec fn xy_within(self, bound: int) -> bool {
        -bound <= self.x <= bound && -bound <= self.y <= bound
    }

    /// All three components lie within `bound` in magnitude.
    pub open spec fn within(self, bound: int) -> bool {
        self.xy_within(bound) && -bound <= self.z <= bound
    }

    pub fn new(x: i64, y: i64, z: i64) -> (v: Vec3)
        ensures
            v == (Vec3 { x, y, z }),
    {
        Vec3 { x, y, z }
    }
}

/// The componentwise minimum of two vectors.
pub open spec fn vmin(a: Vec3, b: Vec3) -> Vec3 {
    Vec3 {
        x: if b.x < a.x { b.x } else { a.x },
        y: if b.y < a.y { b.y } else { a.y },
        z: if b.z < a.z { b.z } else { a.z },
    }
}

/// The componentwise maximum of two vectors.
pub open spec fn vmax(a: Vec3, b: Vec3) -> Vec3 {
    Vec3 {
        x: if b.x > a.x { b.x } else { a.x },
        y: if b.y > a.y { b.y } else { a.y },
        z: if b.z > a.z { b.z } else { a.z },
    }
}

/// Computes the componentwise minimum of two vectors.
pub fn vec_min(a: Vec3, b: Vec3) -> (r: Vec3)
    ensures
        r == vmin(a, b),
{
    Vec3 {
        x: if b.x < a.x { b.x } else { a.x },
        y: if b.y < a.y { b.y } else { a.y },
        z: if b.z < a.z { b.z } else { a.z },
    }
}

/// Computes the componentwise maximum of two vectors.
pub fn vec_max(a: Vec3, b: Vec3) -> (r: Vec3)
    ensures
        r == vmax(a, b),
{
    Vec3 {
        x: if b.x > a.x { b.x } else { a.x },
        y: if b.y > a.y { b.y } else { a.y },
        z: if b.z > a.z { b.z } else { a.z },
    }
}

} // verus!
