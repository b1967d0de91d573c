//! Triangle rasterization: a bounding-box scan with the standard
//! edge-function inside test, over fixed-point screen coordinates.
//!
//! A pixel is filled when all three oriented edge values share a sign
//! (both closed half-spaces are accepted), which makes the fill agnostic
//! to the triangle's winding order. The integer bounding box is clamped to
//! the framebuffer; that clamp is the only screen-space clipping performed.

use vstd::prelude::*;
use vstd::arithmetic::div_mod::lemma_fundamental_div_mod;
use vstd::arithmetic::div_mod::lemma_fundamental_div_mod_converse;
use crate::color::Color;
use crate::fixed::FX_ONE;
use crate::fixed::FX_HALF;
use crate::fixed::floor_div;
use crate::framebuffer::Framebuffer;
use crate::framebuffer::pix_in_bounds;
use crate::vec3::Vec3;

verus! {

/// Magnitude bound on the screen coordinates of triangle vertices.
pub const VERT_BOUND: i64 = 0x2000_0000;

/// Magnitude bound on the point tested against an edge (pixel centers).
pub const PT_BOUND: i64 = 0x4000_0000;

/// Largest framebuffer dimension the rasterizer accepts.
pub const DIM_BOUND: i64 = 0x4000;

/// The oriented edge function: twice the signed area of the triangle
/// `(a, b, c)`, positive when `c` lies to one side of the directed line
/// `a -> b` and negative on the other.
pub open spec fn edge_fn(a: Vec3, b: Vec3, c: Vec3) -> int {
    (c.x - a.x) * (b.y - a.y) - (c.y - a.y) * (b.x - a.x)
}

/// `p` lies inside the closed triangle `(a, b, c)`: all three edge values
/// are non-negative, or all three are non-positive, so both winding orders
/// fill the same pixels.
pub open spec fn inside_tri(p: Vec3, a: Vec3, b: Vec3, c: Vec3) -> bool {
    let w0 = edge_fn(b, c, p);
    let w1 = edge_fn(c, a, p);
    let w2 = edge_fn(a, b, p);
    (w0 >= 0 && w1 >= 0 && w2 >= 0) || (w0 <= 0 && w1 <= 0 && w2 <= 0)
}

/// The center of pixel `(px, py)` in fixed-point screen coordinates.
pub open spec fn pix_center(px: int, py: int) -> Vec3 {
    Vec3 {
        x: (px * FX_ONE + FX_HALF) as i64,
        y: (py * FX_ONE + FX_HALF) as i64,
        z: 0,
    }
}

pub open spec fn min3(a: int, b: int, c: int) -> int {
    let m = if b < a { b } else { a };
    if c < m { c } else { m }
}

pub open spec fn max3(a: int, b: int, c: int) -> int {
    let m = if b > a { b } else { a };
    if c > m { c } else { m }
}

/// First pixel column of the scanned bounding box: the floor of the least
/// vertex `x`, clamped from below to the screen.
pub open spec fn bb_min_x(v0: Vec3, v1: Vec3, v2: Vec3) -> int {
    let f = min3(v0.x as int, v1.x as int, v2.x as int) / (FX_ONE as int);
    if f < 0 { 0 } else { f }
}

/// Last pixel column of the scanned bounding box: the floor of the greatest
/// vertex `x`, clamped from above to the screen.
pub open spec fn bb_max_x(v0: Vec3, v1: Vec3, v2: Vec3, w: int) -> int {
    let f = max3(v0.x as int, v1.x as int, v2.x as int) / (FX_ONE as int);
    if f > w - 1 { w - 1 } else { f }
}

pub open spec fn bb_min_y(v0: Vec3, v1: Vec3, v2: Vec3) -> int {
    let f = min3(v0.y as int, v1.y as int, v2.y as int) / (FX_ONE as int);
    if f < 0 { 0 } else { f }
}

pub open spec fn bb_max_y(v0: Vec3, v1: Vec3, v2: Vec3, h: int) -> int {
    let f = max3(v0.y as int, v1.y as int, v2.y as int) / (FX_ONE as int);
    if f > h - 1 { h - 1 } else { f }
}

/// `(px, py)` lies in the clamped bounding box of the triangle.
pub open spec fn in_bbox(px: int, py: int, v0: Vec3, v1: Vec3, v2: Vec3, w: int, h: int) -> bool {
    bb_min_x(v0, v1, v2) <= px <= bb_max_x(v0, v1, v2, w)
        && bb_min_y(v0, v1, v2) <= py <= bb_max_y(v0, v1, v2, h)
}

/// Rasterization fills pixel `(px, py)`: it is scanned (inside the clamped
/// bounding box) and its center passes the edge-function inside test.
pub open spec fn covered(px: int, py: int, v0: Vec3, v1: Vec3, v2: Vec3, w: int, h: int) -> bool {
    in_bbox(px, py, v0, v1, v2, w, h) && inside_tri(pix_center(px, py), v0, v1, v2)
}

/// The buffer after rasterizing the triangle over `buf`: covered pixels
/// take the color, every other pixel keeps its old value.
pub open spec fn painted(
    buf: Seq<u32>,
    w: int,
    h: int,
    v0: Vec3,
    v1: Vec3,
    v2: Vec3,
    c: u32,
) -> Seq<u32> {
    Seq::new(buf.len(), |i: int| if covered(i % w, i / w, v0, v1, v2, w, h) { c } else { buf[i] })
}

/// A scanned cell during the row-major sweep: filled if covered and already
/// passed by the scan position `(x, y)`, otherwise still the old value.
pub open spec fn scan_cell(
    buf: Seq<u32>,
    px: int,
    py: int,
    v0: Vec3,
    v1: Vec3,
    v2: Vec3,
    w: int,
    h: int,
    c: u32,
    x: int,
    y: int,
) -> u32 {
    if covered(px, py, v0, v1, v2, w, h) && (py < y || (py == y && px < x)) {
        c
    } else {
        buf[py * w + px]
    }
}

/// Evaluates the edge function exactly.
pub fn edge(a: Vec3, b: Vec3, c: Vec3) -> (w: i64)
    requires
        a.xy_within(VERT_BOUND as int),
        b.xy_within(VERT_BOUND as int),
        c.xy_within(PT_BOUND as int),
    ensures
        w == edge_fn(a, b, c),
{
    let dx: i64 = c.x - a.x;
    let ey: i64 = b.y - a.y;
    let dy: i64 = c.y - a.y;
    let ex: i64 = b.x - a.x;
    proof {
        assert(-0x1800_0000_0000_0000 <= dx * ey <= 0x1800_0000_0000_0000) by (nonlinear_arith)
            requires -0x6000_0000 <= dx <= 0x6000_0000, -0x4000_0000 <= ey <= 0x4000_0000;
        assert(-0x1800_0000_0000_0000 <= dy * ex <= 0x1800_0000_0000_0000) by (nonlinear_arith)
            requires -0x6000_0000 <= dy <= 0x6000_0000, -0x4000_0000 <= ex <= 0x4000_0000;
    }
    dx * ey - dy * ex
}

/// Tests whether `p` lies inside the closed triangle `(a, b, c)`,
/// accepting both winding orders.
pub fn inside_triangle(p: Vec3, a: Vec3, b: Vec3, c: Vec3) -> (r: bool)
    requires
        a.xy_within(VERT_BOUND as int),
        b.xy_within(VERT_BOUND as int),
        c.xy_within(VERT_BOUND as int),
        p.xy_within(PT_BOUND as int),
    ensures
        r == inside_tri(p, a, b, c),
{
    let w0 = edge(b, c, p);
    let w1 = edge(c, a, p);
    let w2 = edge(a, b, p);
    (w0 >= 0 && w1 >= 0 && w2 >= 0) || (w0 <= 0 && w1 <= 0 && w2 <= 0)
}

fn min3_i64(a: i64, b: i64, c: i64) -> (r: i64)
    ensures
        r == min3(a as int, b as int, c as int),
{
    let m: i64 = if b < a { b } else { a };
    if c < m { c } else { m }
}

fn max3_i64(a: i64, b: i64, c: i64) -> (r: i64)
    ensures
        r == max3(a as int, b as int, c as int),
{
    let m: i64 = if b > a { b } else { a };
    if c > m { c } else { m }
}

/// Builds the center of pixel `(px, py)` in fixed-point coordinates.
fn pixel_center(px: i64, py: i64) -> (p: Vec3)
    requires
        0 <= px < DIM_BOUND,
        0 <= py < DIM_BOUND,
    ensures
        p == pix_center(px as int, py as int),
        p.xy_within(PT_BOUND as int),
{
    Vec3 { x: px * FX_ONE + FX_HALF, y: py * FX_ONE + FX_HALF, z: 0 }
}

/// Rasterizes one solid triangle into the framebuffer: scans the clamped
/// integer bounding box of the three screen-space vertices and writes the
/// color at every pixel whose center passes the inside test. Pixels outside
/// the bounding box — in particular everything off screen — keep their old
/// value.
#[verifier::loop_isolation(false)]
#[verifier::rlimit(60)]
pub fn draw_triangle(frame: &mut Framebuffer, v0: Vec3, v1: Vec3, v2: Vec3, color: Color)
    requires
        old(frame).wf(),
        0 < old(frame).width <= DIM_BOUND,
        0 < old(frame).height <= DIM_BOUND,
        v0.xy_within(VERT_BOUND as int),
        v1.xy_within(VERT_BOUND as int),
        v2.xy_within(VERT_BOUND as int),
    ensures
        final(frame).wf(),
        final(frame).width == old(frame).width,
        final(frame).height == old(frame).height,
        final(frame).buffer@ == painted(
            old(frame).buffer@,
            old(frame).width as int,
            old(frame).height as int,
            v0,
            v1,
            v2,
            color.packed(),
        ),
{
    let w: i64 = self_width_i64(frame);
    let h: i64 = self_height_i64(frame);
    let ghost wi: int = w as int;
    let ghost hi: int = h as int;
    let ghost buf0: Seq<u32> = frame.buffer@;
    let ghost c: u32 = color.packed();

    let fx0: i64 = floor_div(min3_i64(v0.x, v1.x, v2.x), FX_ONE);
    let bx0: i64 = if fx0 < 0 { 0 } else { fx0 };
    let fx1: i64 = floor_div(max3_i64(v0.x, v1.x, v2.x), FX_ONE);
    let bx1: i64 = if fx1 > w - 1 { w - 1 } else { fx1 };
    let fy0: i64 = floor_div(min3_i64(v0.y, v1.y, v2.y), FX_ONE);
    let by0: i64 = if fy0 < 0 { 0 } else { fy0 };
    let fy1: i64 = floor_div(max3_i64(v0.y, v1.y, v2.y), FX_ONE);
    let by1: i64 = if fy1 > h - 1 { h - 1 } else { fy1 };

    proof {
        assert(bx0 as int == bb_min_x(v0, v1, v2));
        assert(bx1 as int == bb_max_x(v0, v1, v2, wi));
        assert(by0 as int == bb_min_y(v0, v1, v2));
        assert(by1 as int == bb_max_y(v0, v1, v2, hi));
    }

    let mut y: i64 = by0;
    while y <= by1
        invariant
            by0 <= y,
            frame.wf(),
            frame.width == old(frame).width,
            frame.height == old(frame).height,
            frame.buffer@.len() == buf0.len(),
            forall|px: int, py: int|
                pix_in_bounds(px, py, wi, hi) ==> frame.buffer@[py * wi + px]
                    == #[trigger] scan_cell(buf0, px, py, v0, v1, v2, wi, hi, c, 0, y as int),
        decreases by1 + 1 - y,
    {
        proof {
            let yi = y as int;
            assert forall|px: int, py: int| pix_in_bounds(px, py, wi, hi)
                implies frame.buffer@[py * wi + px]
                    == scan_cell(buf0, px, py, v0, v1, v2, wi, hi, c, bx0 as int, yi) by {
                lemma_pix_index_bound(px, py, wi, hi);
                assert(frame.buffer@[py * wi + px]
                    == scan_cell(buf0, px, py, v0, v1, v2, wi, hi, c, 0, yi));
            }
        }
        let mut x: i64 = bx0;
        while x <= bx1
            invariant
                bx0 <= x,
                by0 <= y <= by1,
                frame.wf(),
                frame.width == old(frame).width,
                frame.height == old(frame).height,
                frame.buffer@.len() == buf0.len(),
                forall|px: int, py: int|
                    pix_in_bounds(px, py, wi, hi) ==> frame.buffer@[py * wi + px]
                        == #[trigger] scan_cell(buf0, px, py, v0, v1, v2, wi, hi, c, x as int, y as int),
            decreases bx1 + 1 - x,
        {
            let p = pixel_center(x, y);
            let hit = inside_triangle(p, v0, v1, v2);
            let ghost pre: Seq<u32> = frame.buffer@;
            if hit {
                frame.draw_pixel(x as i32, y as i32, color);
            }
            proof {
                let xi = x as int;
                let yi = y as int;
                assert forall|px: int, py: int| pix_in_bounds(px, py, wi, hi)
                    implies frame.buffer@[py * wi + px]
                        == scan_cell(buf0, px, py, v0, v1, v2, wi, hi, c, xi + 1, yi) by {
                    assert(pre[py * wi + px]
                        == scan_cell(buf0, px, py, v0, v1, v2, wi, hi, c, xi, yi));
                    lemma_pix_index_bound(px, py, wi, hi);
                    lemma_pix_index_bound(xi, yi, wi, hi);
                    lemma_cell_index_unique(px, py, xi, yi, wi, hi);
                    if px == xi && py == yi {
                        assert(in_bbox(xi, yi, v0, v1, v2, wi, hi));
                        if hit {
                            assert(frame.buffer@ == pre.update(yi * wi + xi, c));
                            assert(covered(xi, yi, v0, v1, v2, wi, hi));
                        } else {
                            assert(!covered(xi, yi, v0, v1, v2, wi, hi));
                        }
                    } else {
                        if hit {
                            assert(frame.buffer@ == pre.update(yi * wi + xi, c));
                            assert(py * wi + px != yi * wi + xi);
                        }
                        assert(frame.buffer@[py * wi + px] == pre[py * wi + px]);
                    }
                }
            }
            x = x + 1;
        }
        proof {
            let yi = y as int;
            assert forall|px: int, py: int| pix_in_bounds(px, py, wi, hi)
                implies frame.buffer@[py * wi + px]
                    == scan_cell(buf0, px, py, v0, v1, v2, wi, hi, c, 0, yi + 1) by {
                lemma_pix_index_bound(px, py, wi, hi);
                assert(frame.buffer@[py * wi + px]
                    == scan_cell(buf0, px, py, v0, v1, v2, wi, hi, c, x as int, yi));
            }
        }
        y = y + 1;
    }
    proof {
        let len = buf0.len() as int;
        assert forall|i: int| 0 <= i < len
            implies frame.buffer@[i] == painted(buf0, wi, hi, v0, v1, v2, c)[i] by {
            let px = i % wi;
            let py = i / wi;
            lemma_flat_index(i, wi, hi, len);
            assert(frame.buffer@[py * wi + px]
                == scan_cell(buf0, px, py, v0, v1, v2, wi, hi, c, 0, y as int));
        }
        assert(frame.buffer@ =~= painted(buf0, wi, hi, v0, v1, v2, c));
    }
}

/// Reads the framebuffer width as `i64` (the rasterizer's working type).
fn self_width_i64(frame: &Framebuffer) -> (w: i64)
    requires
        frame.width <= DIM_BOUND,
    ensures
        w == frame.width as int,
{
    frame.width as i64
}

/// Reads the framebuffer height as `i64`.
fn self_height_i64(frame: &Framebuffer) -> (h: i64)
    requires
        frame.height <= DIM_BOUND,
    ensures
        h == frame.height as int,
{
    frame.height as i64
}

/// The flat index of an in-bounds pixel lies within the buffer.
proof fn lemma_pix_index_bound(px: int, py: int, w: int, h: int)
    requires
        0 <= px < w,
        0 <= py < h,
    ensures
        0 <= py * w + px < w * h,
{
    assert(0 <= py * w + px < w * h) by (nonlinear_arith)
        requires 0 <= px < w, 0 <= py < h;
}

/// Two distinct in-bounds pixels have distinct flat indices.
proof fn lemma_cell_index_unique(px: int, py: int, x: int, y: int, w: int, h: int)
    requires
        0 <= px < w,
        0 <= py < h,
        0 <= x < w,
        0 <= y < h,
    ensures
        (py * w + px == y * w + x) ==> (px == x && py == y),
{
    if py * w + px == y * w + x {
        lemma_fundamental_div_mod_converse(py * w + px, w, py, px);
        lemma_fundamental_div_mod_converse(y * w + x, w, y, x);
    }
}

/// A flat index `i` of a `w × h` buffer decomposes into the in-bounds pixel
/// `(i % w, i / w)`, and recomposes to `i`.
proof fn lemma_flat_index(i: int, w: int, h: int, len: int)
    requires
        0 < w,
        0 < h,
        len == w * h,
        0 <= i < len,
    ensures
        0 <= i % w < w,
        0 <= i / w < h,
        (i / w) * w + (i % w) == i,
{
    lemma_fundamental_div_mod(i, w);
    assert(0 <= i % w < w) by (nonlinear_arith)
        requires 0 < w, 0 <= i;
    assert(i / w < h) by (nonlinear_arith)
        requires 0 < w, 0 < h, i < w * h, i == w * (i / w) + i % w, 0 <= i % w;
    assert((i / w) * w + (i % w) == i) by (nonlinear_arith)
        requires i == w * (i / w) + i % w;
}

/// Reversing an edge's direction negates its edge function.
pub proof fn lemma_edge_antisymmetric(a: Vec3, b: Vec3, p: Vec3)
    ensures
        edge_fn(b, a, p) == -edge_fn(a, b, p),
{
    assert((p.x - b.x) * (a.y - b.y) - (p.y - b.y) * (a.x - b.x)
        == -((p.x - a.x) * (b.y - a.y) - (p.y - a.y) * (b.x - a.x))) by (nonlinear_arith);
}

/// The inside test is invariant under swapping the triangle into the
/// opposite winding order: reversing the winding negates all three edge
/// values, and the test accepts all-non-negative and all-non-positive alike.
pub proof fn lemma_winding_flip_inside(p: Vec3, v0: Vec3, v1: Vec3, v2: Vec3)
    ensures
        inside_tri(p, v0, v1, v2) == inside_tri(p, v0, v2, v1),
{
    lemma_edge_antisymmetric(v1, v2, p);
    lemma_edge_antisymmetric(v2, v0, p);
    lemma_edge_antisymmetric(v0, v1, p);
}

/// A filled pixel is invariant under swapping the triangle into the
/// opposite winding order: the bounding box sees the same vertex set and
/// the inside test is winding-agnostic.
pub proof fn lemma_winding_flip_covered(
    px: int,
    py: int,
    v0: Vec3,
    v1: Vec3,
    v2: Vec3,
    w: int,
    h: int,
)
    ensures
        covered(px, py, v0, v1, v2, w, h) == covered(px, py, v0, v2, v1, w, h),
{
    lemma_winding_flip_inside(pix_center(px, py), v0, v1, v2);
}

/// The set of filled pixels of a whole rasterized triangle is invariant
/// under swapping the triangle into the opposite winding order.
pub proof fn lemma_winding_flip_painted(
    buf: Seq<u32>,
    w: int,
    h: int,
    v0: Vec3,
    v1: Vec3,
    v2: Vec3,
    c: u32,
)
    ensures
        painted(buf, w, h, v0, v1, v2, c) == painted(buf, w, h, v0, v2, v1, c),
{
    assert forall|i: int| 0 <= i < buf.len()
        implies painted(buf, w, h, v0, v1, v2, c)[i] == painted(buf, w, h, v0, v2, v1, c)[i] by {
        lemma_winding_flip_covered(i % w, i / w, v0, v1, v2, w, h);
    }
    assert(painted(buf, w, h, v0, v1, v2, c) =~= painted(buf, w, h, v0, v2, v1, c));
}

/// The three edge values of any point sum to the triangle's own edge value
/// (twice its signed area), independently of the point.
pub proof fn lemma_edge_sum(p: Vec3, a: Vec3, b: Vec3, c: Vec3)
    ensures
        edge_fn(b, c, p) + edge_fn(c, a, p) + edge_fn(a, b, p) == edge_fn(a, b, c),
{
    assert(((p.x - b.x) * (c.y - b.y) - (p.y - b.y) * (c.x - b.x))
        + ((p.x - c.x) * (a.y - c.y) - (p.y - c.y) * (a.x - c.x))
        + ((p.x - a.x) * (b.y - a.y) - (p.y - a.y) * (b.x - a.x))
        == (c.x - a.x) * (b.y - a.y) - (c.y - a.y) * (b.x - a.x)) by (nonlinear_arith);
}

/// For a degenerate (zero-area) triangle, any point passing the inside test
/// has all three edge values exactly zero: it lies on the common line of
/// the collinear vertices, so at most a thin line of pixels can be filled.
pub proof fn lemma_degenerate_fill_on_line(p: Vec3, v0: Vec3, v1: Vec3, v2: Vec3)
    requires
        edge_fn(v0, v1, v2) == 0,
        inside_tri(p, v0, v1, v2),
    ensures
        edge_fn(v1, v2, p) == 0,
        edge_fn(v2, v0, p) == 0,
        edge_fn(v0, v1, p) == 0,
{
    lemma_edge_sum(p, v0, v1, v2);
}

/// A pixel outside the clamped bounding box is never filled; in particular
/// the whole buffer outside the box keeps its old value.
pub proof fn lemma_outside_bbox_unfilled(
    buf: Seq<u32>,
    w: int,
    h: int,
    v0: Vec3,
    v1: Vec3,
    v2: Vec3,
    c: u32,
    i: int,
)
    requires
        0 < w,
        0 <= i < buf.len(),
        !in_bbox(i % w, i / w, v0, v1, v2, w, h),
    ensures
        painted(buf, w, h, v0, v1, v2, c)[i] == buf[i],
{
}

} // verus!
