//! Per-frame orchestration: the run/close state machine of the display
//! loop, and the render pass that turns one rotated copy of the mesh into
//! filled pixels.
//!
//! The caller (the windowing shell) owns the clock, the input polling and
//! the rotation; this module owns every decision after that: translating
//! the model in front of the camera, projecting each face's vertices, and
//! rasterizing the faces strictly in mesh-index order (painter's order —
//! deliberately no depth test).

use vstd::prelude::*;
use crate::color::Color;
use crate::fixed::FX_ONE;
use crate::framebuffer::Framebuffer;
use crate::mesh::faces_valid;
use crate::project::proj_in_range;
use crate::project::proj_sx;
use crate::project::proj_sy;
use crate::project::project_vertex;
use crate::triangle::DIM_BOUND;
use crate::triangle::draw_triangle;
use crate::triangle::painted;
use crate::vec3::Vec3;

verus! {

/// The display loop is either still running or has been closed for good.
#[derive(Clone, Copy, PartialEq, Eq, Structural, Debug)]
pub enum LoopState {
    Running,
    Closed,
}

/// The loop's sole transition: it keeps running exactly while the window
/// reports itself open and the escape key is not pressed.
pub fn next_state(open: bool, escape: bool) -> (s: LoopState)
    ensures
        s == (if open && !escape { LoopState::Running } else { LoopState::Closed }),
{
    if open && !escape {
        LoopState::Running
    } else {
        LoopState::Closed
    }
}

/// Fixed forward translation placing the model in front of the camera
/// (two model units down the camera axis).
pub const CAM_OFFSET_Z: i64 = 2 * FX_ONE;

/// Magnitude bound on the rotated model-space coordinates accepted by the
/// render pass.
pub const RENDER_COORD_BOUND: i64 = 0x2000_0000;

/// A model-space vertex moved into camera space: pushed forward by the
/// fixed camera offset.
pub open spec fn cam_vertex(v: Vec3) -> Vec3 {
    Vec3 { x: v.x, y: v.y, z: (v.z + CAM_OFFSET_Z) as i64 }
}

/// The screen point of a projected camera-space vertex.
pub open spec fn proj_pt(v: Vec3, w: int, h: int) -> Vec3 {
    Vec3 { x: proj_sx(v, w, h) as i64, y: proj_sy(v, h) as i64, z: v.z }
}

/// A face whose three camera-space vertices sit strictly in front of the
/// camera and project into the supported screen region; only such faces
/// are rasterized.
pub open spec fn face_visible(a: Vec3, b: Vec3, c: Vec3, w: int, h: int) -> bool {
    &&& a.z > 0
    &&& b.z > 0
    &&& c.z > 0
    &&& proj_in_range(a, w, h)
    &&& proj_in_range(b, w, h)
    &&& proj_in_range(c, w, h)
}

/// The buffer after rendering one face over `buf`: the rasterized image of
/// its projected triangle when the face is visible, the buffer unchanged
/// otherwise.
pub open spec fn face_image(
    buf: Seq<u32>,
    w: int,
    h: int,
    verts: Seq<Vec3>,
    f: [usize; 3],
    col: u32,
) -> Seq<u32> {
    let a = cam_vertex(verts[f[0] as int]);
    let b = cam_vertex(verts[f[1] as int]);
    let c = cam_vertex(verts[f[2] as int]);
    if face_visible(a, b, c, w, h) {
        painted(buf, w, h, proj_pt(a, w, h), proj_pt(b, w, h), proj_pt(c, w, h), col)
    } else {
        buf
    }
}

/// The buffer after rendering the first `n` faces in mesh-index order.
pub open spec fn render_seq(
    buf: Seq<u32>,
    w: int,
    h: int,
    verts: Seq<Vec3>,
    faces: Seq<[usize; 3]>,
    n: int,
    col: u32,
) -> Seq<u32>
    decreases n,
{
    if n <= 0 {
        buf
    } else {
        face_image(render_seq(buf, w, h, verts, faces, n - 1, col), w, h, verts, faces[n - 1], col)
    }
}

/// Renders every face of the mesh into the framebuffer, in mesh-index
/// order: each face's vertices are translated in front of the camera,
/// perspective-projected, and the resulting screen triangle rasterized in
/// the given color. A face with a vertex behind the camera plane or
/// projecting outside the supported screen region is skipped whole.
#[verifier::loop_isolation(false)]
pub fn render_mesh(
    frame: &mut Framebuffer,
    vertices: &Vec<Vec3>,
    faces: &Vec<[usize; 3]>,
    color: Color,
)
    requires
        old(frame).wf(),
        0 < old(frame).width <= DIM_BOUND,
        0 < old(frame).height <= DIM_BOUND,
        forall|i: int| 0 <= i < vertices@.len()
            ==> #[trigger] vertices@[i].within(RENDER_COORD_BOUND as int),
        faces_valid(vertices@, faces@),
    ensures
        final(frame).wf(),
        final(frame).width == old(frame).width,
        final(frame).height == old(frame).height,
        final(frame).buffer@ == render_seq(
            old(frame).buffer@,
            old(frame).width as int,
            old(frame).height as int,
            vertices@,
            faces@,
            faces@.len() as int,
            color.packed(),
        ),
{
    let ghost buf0: Seq<u32> = frame.buffer@;
    let ghost wi: int = frame.width as int;
    let ghost hi: int = frame.height as int;
    let ghost col: u32 = color.packed();
    let m: usize = faces.len();
    let mut k: usize = 0;
    while k < m
        invariant
            0 <= k <= m,
            frame.wf(),
            frame.width == old(frame).width,
            frame.height == old(frame).height,
            frame.buffer@ == render_seq(buf0, wi, hi, vertices@, faces@, k as int, col),
        decreases m - k,
    {
        let f: [usize; 3] = faces[k];
        let v0 = vertices[f[0]];
        let v1 = vertices[f[1]];
        let v2 = vertices[f[2]];
        proof {
            assert(vertices@[f[0] as int].within(RENDER_COORD_BOUND as int));
            assert(vertices@[f[1] as int].within(RENDER_COORD_BOUND as int));
            assert(vertices@[f[2] as int].within(RENDER_COORD_BOUND as int));
        }
        let a = Vec3 { x: v0.x, y: v0.y, z: v0.z + CAM_OFFSET_Z };
        let b = Vec3 { x: v1.x, y: v1.y, z: v1.z + CAM_OFFSET_Z };
        let c = Vec3 { x: v2.x, y: v2.y, z: v2.z + CAM_OFFSET_Z };
        if a.z > 0 && b.z > 0 && c.z > 0 {
            let pa = project_vertex(a, frame.width, frame.height);
            let pb = project_vertex(b, frame.width, frame.height);
            let pc = project_vertex(c, frame.width, frame.height);
            match (pa, pb, pc) {
                (Some(sa), Some(sb), Some(sc)) => {
                    draw_triangle(frame, sa, sb, sc, color);
                },
                _ => {},
            }
        }
        proof {
            assert(frame.buffer@ == render_seq(buf0, wi, hi, vertices@, faces@, k as int + 1, col));
        }
        k = k + 1;
    }
}

} // verus!
