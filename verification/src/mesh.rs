//! Triangle meshes and their one-time preparation: normalization to a
//! unit-sized, origin-centered box, and uniform scaling.

use vstd::prelude::*;
use crate::fixed::FX_ONE;
use crate::fixed::floor_div;
use crate::fixed::isqrt;
use crate::fixed::sqrt_floor;
use crate::vec3::Vec3;
use crate::vec3::vmin;
use crate::vec3::vmax;
use crate::vec3::vec_min;
use crate::vec3::vec_max;

verus! {

/// Magnitude bound on mesh vertex coordinates accepted by the mesh
/// preparation passes.
pub const MESH_COORD_BOUND: i64 = 0x2000_0000;

/// Largest uniform scale factor accepted by [`scale_vertices`]
/// (fixed-point, so `16 * FX_ONE` is a factor of sixteen).
pub const SCALE_BOUND: i64 = 0x10_0000;

/// Every face holds three valid indices into the vertex list.
pub open spec fn faces_valid(verts: Seq<Vec3>, faces: Seq<[usize; 3]>) -> bool {
    forall|k: int| 0 <= k < faces.len() ==> {
        &&& #[trigger] faces[k][0] < verts.len()
        &&& faces[k][1] < verts.len()
        &&& faces[k][2] < verts.len()
    }
}

/// An indexed triangle mesh: an ordered vertex list and an ordered list of
/// faces, each face three indices into the vertex list.
pub struct Mesh {
    pub vertices: Vec<Vec3>,
    pub indices: Vec<[usize; 3]>,
}

impl Mesh {
    /// Every face holds three valid vertex indices.
    pub open spec fn wf(self) -> bool {
        faces_valid(self.vertices@, self.indices@)
    }

    /// Every vertex coordinate lies within `bound` in magnitude.
    pub open spec fn vertices_within(self, bound: int) -> bool {
        forall|i: int| 0 <= i < self.vertices@.len()
            ==> #[trigger] self.vertices@[i].within(bound)
    }
}

/// The componentwise minimum of the first `n` vertices.
pub open spec fn bbox_min_seq(s: Seq<Vec3>, n: int) -> Vec3
    decreases n,
{
    if n <= 1 {
        s[0]
    } else {
        vmin(bbox_min_seq(s, n - 1), s[n - 1])
    }
}

/// The componentwise maximum of the first `n` vertices.
pub open spec fn bbox_max_seq(s: Seq<Vec3>, n: int) -> Vec3
    decreases n,
{
    if n <= 1 {
        s[0]
    } else {
        vmax(bbox_max_seq(s, n - 1), s[n - 1])
    }
}

/// The center of the bounding box: the componentwise average of its
/// corners, rounded toward negative infinity.
pub open spec fn bbox_center(bmin: Vec3, bmax: Vec3) -> Vec3 {
    Vec3 {
        x: ((bmin.x + bmax.x) / 2) as i64,
        y: ((bmin.y + bmax.y) / 2) as i64,
        z: ((bmin.z + bmax.z) / 2) as i64,
    }
}

/// The squared Euclidean length of the bounding-box diagonal.
pub open spec fn diag_norm_sq(bmin: Vec3, bmax: Vec3) -> int {
    (bmax.x - bmin.x) * (bmax.x - bmin.x)
        + (bmax.y - bmin.y) * (bmax.y - bmin.y)
        + (bmax.z - bmin.z) * (bmax.z - bmin.z)
}

/// A vertex after normalization: recentered on the bounding-box center and
/// divided by the diagonal length `size` (in fixed point, rounding toward
/// negative infinity).
pub open spec fn normalized_vertex(v: Vec3, center: Vec3, size: int) -> Vec3 {
    Vec3 {
        x: (((v.x - center.x) * FX_ONE) / size) as i64,
        y: (((v.y - center.y) * FX_ONE) / size) as i64,
        z: (((v.z - center.z) * FX_ONE) / size) as i64,
    }
}

/// A vertex after uniform scaling by the fixed-point factor.
pub open spec fn scaled_vertex(v: Vec3, factor: int) -> Vec3 {
    Vec3 {
        x: ((v.x * factor) / (FX_ONE as int)) as i64,
        y: ((v.y * factor) / (FX_ONE as int)) as i64,
        z: ((v.z * factor) / (FX_ONE as int)) as i64,
    }
}

/// Centers the mesh on its bounding-box center and scales it by the
/// reciprocal of the bounding-box diagonal, so that it fits a box of unit
/// diagonal around the origin. An empty mesh is left untouched, as is a
/// degenerate single-point mesh (whose diagonal rounds to zero) — the
/// explicit guard that keeps the division well defined.
#[verifier::loop_isolation(false)]
pub fn normalize_model(mesh: &mut Mesh)
    requires
        old(mesh).vertices_within(MESH_COORD_BOUND as int),
    ensures
        final(mesh).indices@ == old(mesh).indices@,
        final(mesh).vertices@.len() == old(mesh).vertices@.len(),
        old(mesh).vertices@.len() == 0 ==> final(mesh).vertices@ == old(mesh).vertices@,
        old(mesh).vertices@.len() > 0 ==> {
            let n = old(mesh).vertices@.len() as int;
            let bmin = bbox_min_seq(old(mesh).vertices@, n);
            let bmax = bbox_max_seq(old(mesh).vertices@, n);
            let size = sqrt_floor(diag_norm_sq(bmin, bmax));
            if size == 0 {
                final(mesh).vertices@ == old(mesh).vertices@
            } else {
                forall|i: int| 0 <= i < n ==> final(mesh).vertices@[i]
                    == normalized_vertex(
                        old(mesh).vertices@[i],
                        bbox_center(bmin, bmax),
                        size,
                    )
            }
        },
{
    let n: usize = mesh.vertices.len();
    if n == 0 {
        return;
    }
    let ghost verts0: Seq<Vec3> = mesh.vertices@;

    let mut bmin: Vec3 = mesh.vertices[0];
    let mut bmax: Vec3 = mesh.vertices[0];
    let mut i: usize = 1;
    while i < n
        invariant
            1 <= i <= n,
            mesh.vertices@ == verts0,
            mesh.indices@ == old(mesh).indices@,
            bmin == bbox_min_seq(verts0, i as int),
            bmax == bbox_max_seq(verts0, i as int),
            bmin.within(MESH_COORD_BOUND as int),
            bmax.within(MESH_COORD_BOUND as int),
        decreases n - i,
    {
        let v = mesh.vertices[i];
        proof {
            assert(old(mesh).vertices@[i as int].within(MESH_COORD_BOUND as int));
        }
        bmin = vec_min(bmin, v);
        bmax = vec_max(bmax, v);
        i = i + 1;
    }

    let cx: i64 = floor_div(bmin.x + bmax.x, 2);
    let cy: i64 = floor_div(bmin.y + bmax.y, 2);
    let cz: i64 = floor_div(bmin.z + bmax.z, 2);
    let ghost center: Vec3 = bbox_center(bmin, bmax);

    let dx: i64 = bmax.x - bmin.x;
    let dy: i64 = bmax.y - bmin.y;
    let dz: i64 = bmax.z - bmin.z;
    proof {
        assert(0 <= dx * dx <= 0x1000_0000_0000_0000) by (nonlinear_arith)
            requires -0x4000_0000 <= dx <= 0x4000_0000;
        assert(0 <= dy * dy <= 0x1000_0000_0000_0000) by (nonlinear_arith)
            requires -0x4000_0000 <= dy <= 0x4000_0000;
        assert(0 <= dz * dz <= 0x1000_0000_0000_0000) by (nonlinear_arith)
            requires -0x4000_0000 <= dz <= 0x4000_0000;
    }
    let nsq: i64 = dx * dx + dy * dy + dz * dz;
    let size: i64 = isqrt(nsq);
    if size == 0 {
        return;
    }

    let mut j: usize = 0;
    while j < n
        invariant
            0 <= j <= n,
            mesh.vertices@.len() == n,
            mesh.indices@ == old(mesh).indices@,
            0 < size < 0x8000_0000,
            size == sqrt_floor(diag_norm_sq(bmin, bmax)),
            center == bbox_center(bmin, bmax),
            center.within(MESH_COORD_BOUND as int),
            forall|k: int| j <= k < n ==> mesh.vertices@[k] == verts0[k],
            forall|k: int| 0 <= k < j ==> mesh.vertices@[k]
                == normalized_vertex(verts0[k], center, size as int),
        decreases n - j,
    {
        let v = mesh.vertices[j];
        proof {
            assert(old(mesh).vertices@[j as int].within(MESH_COORD_BOUND as int));
        }
        let nx: i64 = floor_div((v.x - cx) * FX_ONE, size);
        let ny: i64 = floor_div((v.y - cy) * FX_ONE, size);
        let nz: i64 = floor_div((v.z - cz) * FX_ONE, size);
        mesh.vertices.set(j, Vec3 { x: nx, y: ny, z: nz });
        j = j + 1;
    }
}

/// Multiplies every vertex by the uniform fixed-point factor (`2 * FX_ONE`
/// doubles the model). Faces are untouched.
#[verifier::loop_isolation(false)]
pub fn scale_vertices(mesh: &mut Mesh, factor: i64)
    requires
        old(mesh).vertices_within(MESH_COORD_BOUND as int),
        0 <= factor <= SCALE_BOUND,
    ensures
        final(mesh).indices@ == old(mesh).indices@,
        final(mesh).vertices@.len() == old(mesh).vertices@.len(),
        forall|i: int| 0 <= i < old(mesh).vertices@.len() ==> final(mesh).vertices@[i]
            == scaled_vertex(old(mesh).vertices@[i], factor as int),
{
    let n: usize = mesh.vertices.len();
    let mut i: usize = 0;
    while i < n
        invariant
            0 <= i <= n,
            mesh.vertices@.len() == n,
            mesh.indices@ == old(mesh).indices@,
            forall|k: int| i <= k < n ==> mesh.vertices@[k] == old(mesh).vertices@[k],
            forall|k: int| 0 <= k < i ==> mesh.vertices@[k]
                == scaled_vertex(old(mesh).vertices@[k], factor as int),
        decreases n - i,
    {
        let v = mesh.vertices[i];
        proof {
            assert(old(mesh).vertices@[i as int].within(MESH_COORD_BOUND as int));
            assert(-0x2000_0000_0010_0000 <= v.x * factor <= 0x2000_0000_0010_0000)
                by (nonlinear_arith)
                requires -0x2000_0000 <= v.x <= 0x2000_0000, 0 <= factor <= 0x10_0000;
            assert(-0x2000_0000_0010_0000 <= v.y * factor <= 0x2000_0000_0010_0000)
                by (nonlinear_arith)
                requires -0x2000_0000 <= v.y <= 0x2000_0000, 0 <= factor <= 0x10_0000;
            assert(-0x2000_0000_0010_0000 <= v.z * factor <= 0x2000_0000_0010_0000)
                by (nonlinear_arith)
                requires -0x2000_0000 <= v.z <= 0x2000_0000, 0 <= factor <= 0x10_0000;
        }
        let sx: i64 = floor_div(v.x * factor, FX_ONE);
        let sy: i64 = floor_div(v.y * factor, FX_ONE);
        let sz: i64 = floor_div(v.z * factor, FX_ONE);
        mesh.vertices.set(i, Vec3 { x: sx, y: sy, z: sz });
        i = i + 1;
    }
}

} // verus!
