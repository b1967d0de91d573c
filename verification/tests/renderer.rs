use softrender::color::Color;
use softrender::fixed::{floor_div, isqrt, FX_ONE};
use softrender::frame::{next_state, render_mesh, LoopState, CAM_OFFSET_Z};
use softrender::framebuffer::Framebuffer;
use softrender::mesh::{normalize_model, scale_vertices, Mesh};
use softrender::project::project_vertex;
use softrender::triangle::{draw_triangle, inside_triangle};
use softrender::vec3::Vec3;

fn v(x: i64, y: i64, z: i64) -> Vec3 {
    Vec3 { x, y, z }
}

/// Pixel-space coordinate expressed in fixed-point units, from halves
/// (so `fx_half_units(7)` is 3.5 pixels).
fn halves(n: i64) -> i64 {
    n * FX_ONE / 2
}

fn red() -> Color {
    Color::new(255, 0, 0)
}

fn black() -> Color {
    Color::new(0, 0, 0)
}

#[test]
fn color_packs_0x00rrggbb() {
    assert_eq!(red().to_u32(), 0x00FF_0000);
    assert_eq!(Color::new(0, 255, 0).to_u32(), 0x0000_FF00);
    assert_eq!(Color::new(0, 0, 255).to_u32(), 0x0000_00FF);
    assert_eq!(Color::new(87, 199, 199).to_u32(), 0x0057_C7C7);
    assert_eq!(black().to_u32(), 0);
}

#[test]
fn new_framebuffer_is_black() {
    let fb = Framebuffer::new(7, 5);
    assert_eq!(fb.width, 7);
    assert_eq!(fb.height, 5);
    assert_eq!(fb.buffer.len(), 35);
    assert!(fb.buffer.iter().all(|&p| p == 0));
}

#[test]
fn clear_fills_every_pixel() {
    let mut fb = Framebuffer::new(4, 3);
    fb.clear(Color::new(87, 199, 199));
    assert_eq!(fb.buffer.len(), 12);
    assert!(fb.buffer.iter().all(|&p| p == 0x0057_C7C7));
}

#[test]
fn clear_twice_equals_clear_once() {
    let c = Color::new(10, 20, 30);
    let mut once = Framebuffer::new(6, 6);
    once.clear(c);
    let mut twice = Framebuffer::new(6, 6);
    twice.clear(c);
    twice.clear(c);
    assert_eq!(once.buffer, twice.buffer);
}

#[test]
fn draw_pixel_writes_in_bounds() {
    let mut fb = Framebuffer::new(4, 4);
    fb.draw_pixel(2, 1, red());
    assert_eq!(fb.buffer[1 * 4 + 2], 0x00FF_0000);
    assert_eq!(fb.buffer.iter().filter(|&&p| p != 0).count(), 1);
}

#[test]
fn draw_pixel_out_of_bounds_is_ignored() {
    let mut fb = Framebuffer::new(4, 4);
    let before = fb.buffer.clone();
    fb.draw_pixel(-1, 0, red());
    fb.draw_pixel(0, 4, red());
    fb.draw_pixel(4, 0, red());
    fb.draw_pixel(0, -1, red());
    fb.draw_pixel(i32::MIN, i32::MAX, red());
    assert_eq!(fb.buffer, before);
}

#[test]
fn triangle_fills_lower_left_of_4x4() {
    // Vertices (0.5, 0.5), (3.5, 0.5), (0.5, 3.5): the filled region is the
    // lower-left right triangle, pixels with x + y <= 3 (the hypotenuse
    // passes exactly through the centers with x + y == 3, which the closed
    // edge rule includes).
    let mut fb = Framebuffer::new(4, 4);
    fb.clear(black());
    draw_triangle(
        &mut fb,
        v(halves(1), halves(1), 0),
        v(halves(7), halves(1), 0),
        v(halves(1), halves(7), 0),
        red(),
    );
    for y in 0..4i64 {
        for x in 0..4i64 {
            let expect = if x + y <= 3 { 0x00FF_0000 } else { 0 };
            assert_eq!(fb.buffer[(y * 4 + x) as usize], expect, "pixel ({x}, {y})");
        }
    }
}

#[test]
fn triangle_winding_order_does_not_change_fill() {
    let a = v(halves(3), halves(2), 0);
    let b = v(halves(25), halves(5), 0);
    let c = v(halves(9), halves(27), 0);
    let mut fwd = Framebuffer::new(16, 16);
    draw_triangle(&mut fwd, a, b, c, red());
    let mut rev = Framebuffer::new(16, 16);
    draw_triangle(&mut rev, a, c, b, red());
    assert_eq!(fwd.buffer, rev.buffer);
    assert!(fwd.buffer.iter().any(|&p| p != 0));

    let p = v(halves(9), halves(9), 0);
    assert_eq!(inside_triangle(p, a, b, c), inside_triangle(p, a, c, b));
}

#[test]
fn triangle_fill_count_tracks_area_and_stays_in_bbox() {
    // Right triangle with legs of 8 pixels: geometric area 32. The closed
    // edge rule includes boundary centers, so the observed count runs a
    // little high but stays near the area.
    let mut fb = Framebuffer::new(16, 16);
    draw_triangle(
        &mut fb,
        v(FX_ONE, FX_ONE, 0),
        v(9 * FX_ONE, FX_ONE, 0),
        v(FX_ONE, 9 * FX_ONE, 0),
        red(),
    );
    let mut count = 0;
    for y in 0..16i64 {
        for x in 0..16i64 {
            if fb.buffer[(y * 16 + x) as usize] != 0 {
                count += 1;
                assert!((1..=9).contains(&x) && (1..=9).contains(&y),
                    "filled pixel ({x}, {y}) outside the bounding box");
            }
        }
    }
    assert!((24..=40).contains(&count), "filled {count} pixels for area 32");
}

#[test]
fn degenerate_triangle_fills_at_most_a_thin_line() {
    // All three vertices on the diagonal y = x: only pixels whose center
    // lies exactly on that line pass the inside test.
    let mut fb = Framebuffer::new(8, 8);
    draw_triangle(
        &mut fb,
        v(halves(3), halves(3), 0),
        v(halves(7), halves(7), 0),
        v(halves(11), halves(11), 0),
        red(),
    );
    for y in 0..8i64 {
        for x in 0..8i64 {
            let expect = if x == y && (1..=5).contains(&x) { 0x00FF_0000 } else { 0 };
            assert_eq!(fb.buffer[(y * 8 + x) as usize], expect, "pixel ({x}, {y})");
        }
    }
}

#[test]
fn projection_maps_axis_point_to_viewport_center() {
    // A point on the camera axis at depth 2 lands exactly on the center of
    // a square viewport, with its depth carried through.
    let p = project_vertex(v(0, 0, 2 * FX_ONE), 100, 100).unwrap();
    assert_eq!(p.x, 50 * FX_ONE);
    assert_eq!(p.y, 50 * FX_ONE);
    assert_eq!(p.z, 2 * FX_ONE);
}

#[test]
fn projection_rejects_point_blowing_up_at_the_camera_plane() {
    // Depth of one fixed-point unit: the normalized x coordinate leaves the
    // supported range, so the point is reported unprojectable.
    assert!(project_vertex(v(0x2000_0000, 0, 1), 100, 100).is_none());
}

#[test]
fn projection_keeps_aspect_ratio() {
    // Width 200, height 100: aspect 2, so x is halved in normalized space.
    // v.x/aspect/v.z = 0.25, giving x = (0.25 + 1) * 100; y = (1 - 0.5) * 50.
    let p = project_vertex(v(FX_ONE, FX_ONE, 2 * FX_ONE), 200, 100).unwrap();
    assert_eq!(p.x, 125 * FX_ONE);
    assert_eq!(p.y, 25 * FX_ONE);
}

#[test]
fn normalize_centers_and_unit_sizes_the_mesh() {
    // Vertices (0,0,0), (2,0,0), (0,2,0): bounding box [0,2]^2 x {0},
    // diagonal 2*sqrt(2). After normalization the bounding box is centered
    // at the origin and its diagonal has length 1 (up to fixed-point
    // rounding).
    let mut mesh = Mesh {
        vertices: vec![v(0, 0, 0), v(2 * FX_ONE, 0, 0), v(0, 2 * FX_ONE, 0)],
        indices: vec![[0, 1, 2]],
    };
    normalize_model(&mut mesh);
    assert_eq!(mesh.indices, vec![[0, 1, 2]]);
    assert_eq!(mesh.vertices.len(), 3);

    let min_x = mesh.vertices.iter().map(|p| p.x).min().unwrap();
    let max_x = mesh.vertices.iter().map(|p| p.x).max().unwrap();
    let min_y = mesh.vertices.iter().map(|p| p.y).min().unwrap();
    let max_y = mesh.vertices.iter().map(|p| p.y).max().unwrap();
    // Centered at the origin, within one rounding step.
    assert!((min_x + max_x).abs() <= 2, "x center {}", min_x + max_x);
    assert!((min_y + max_y).abs() <= 2, "y center {}", min_y + max_y);
    assert!(mesh.vertices.iter().all(|p| p.z == 0));
    // Diagonal length 1 (FX_ONE in fixed point), within a small tolerance.
    let dx = (max_x - min_x) as f64;
    let dy = (max_y - min_y) as f64;
    let diag = (dx * dx + dy * dy).sqrt();
    assert!((diag - FX_ONE as f64).abs() < 16.0, "diagonal {diag}");
}

#[test]
fn normalize_leaves_empty_and_degenerate_meshes_alone() {
    let mut empty = Mesh { vertices: vec![], indices: vec![] };
    normalize_model(&mut empty);
    assert!(empty.vertices.is_empty());

    let mut point = Mesh { vertices: vec![v(5, 5, 5), v(5, 5, 5)], indices: vec![] };
    normalize_model(&mut point);
    assert_eq!(point.vertices, vec![v(5, 5, 5), v(5, 5, 5)]);
}

#[test]
fn scale_doubles_with_factor_two() {
    let mut mesh = Mesh {
        vertices: vec![v(FX_ONE, -FX_ONE, 3), v(0, 7, -9)],
        indices: vec![[0, 1, 0]],
    };
    scale_vertices(&mut mesh, 2 * FX_ONE);
    assert_eq!(mesh.vertices[0], v(2 * FX_ONE, -2 * FX_ONE, 6));
    assert_eq!(mesh.vertices[1], v(0, 14, -18));
    assert_eq!(mesh.indices, vec![[0, 1, 0]]);
}

#[test]
fn loop_state_follows_window_and_escape() {
    assert_eq!(next_state(true, false), LoopState::Running);
    assert_eq!(next_state(true, true), LoopState::Closed);
    assert_eq!(next_state(false, false), LoopState::Closed);
    assert_eq!(next_state(false, true), LoopState::Closed);
}

#[test]
fn render_mesh_paints_a_front_facing_triangle() {
    // A triangle straddling the camera axis at model depth 0 sits at
    // camera depth 2 (the fixed forward offset) and projects around the
    // viewport center.
    let vertices = vec![
        v(-FX_ONE / 2, -FX_ONE / 2, 0),
        v(FX_ONE / 2, -FX_ONE / 2, 0),
        v(0, FX_ONE / 2, 0),
    ];
    let faces = vec![[0usize, 1, 2]];
    let mut fb = Framebuffer::new(100, 100);
    fb.clear(black());
    render_mesh(&mut fb, &vertices, &faces, red());
    assert_eq!(fb.buffer[50 * 100 + 50], 0x00FF_0000, "viewport center filled");
    assert_eq!(fb.buffer[0], 0, "far corner untouched");
    assert!(fb.buffer.iter().filter(|&&p| p != 0).count() > 100);
}

#[test]
fn render_mesh_skips_faces_behind_the_camera() {
    // Model depth -3 puts the face at camera depth -1, behind the camera:
    // nothing may be drawn.
    let vertices = vec![
        v(-FX_ONE, -FX_ONE, -3 * FX_ONE),
        v(FX_ONE, -FX_ONE, -3 * FX_ONE),
        v(0, FX_ONE, -3 * FX_ONE),
    ];
    let faces = vec![[0usize, 1, 2]];
    let mut fb = Framebuffer::new(50, 50);
    render_mesh(&mut fb, &vertices, &faces, red());
    assert!(fb.buffer.iter().all(|&p| p == 0));
    assert_eq!(CAM_OFFSET_Z, 2 * FX_ONE);
}

#[test]
fn floor_div_rounds_toward_negative_infinity() {
    assert_eq!(floor_div(7, 2), 3);
    assert_eq!(floor_div(-7, 2), -4);
    assert_eq!(floor_div(-8, 2), -4);
    assert_eq!(floor_div(0, 5), 0);
    assert_eq!(floor_div(-1, 65536), -1);
}

#[test]
fn isqrt_is_the_floor_square_root() {
    assert_eq!(isqrt(0), 0);
    assert_eq!(isqrt(15), 3);
    assert_eq!(isqrt(16), 4);
    assert_eq!(isqrt(17), 4);
    assert_eq!(isqrt(34_359_738_368), 185_363);
}
