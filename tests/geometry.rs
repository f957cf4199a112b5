use raster_core::constants::PARAMETRIC_STEPS;
use raster_core::coordinate_stack::CoordinateStack;
use raster_core::mesh::{box_triangles, sphere_triangles, torus_triangles};

#[test]
fn sphere_triangle_count_matches_closed_form() {
    let steps = 10;
    let tris = sphere_triangles(steps);
    assert_eq!(tris.len(), 2 * steps * (steps - 2) + 2 * steps);
    let grid = (steps + 1) * (steps + 1);
    assert!(tris.iter().all(|t| t.iter().all(|&i| i < grid)));
    let tris = sphere_triangles(PARAMETRIC_STEPS);
    assert_eq!(tris.len(), 2 * PARAMETRIC_STEPS * (PARAMETRIC_STEPS - 2) + 2 * PARAMETRIC_STEPS);
}

#[test]
fn sphere_fans_around_the_poles() {
    let tris = sphere_triangles(4);
    // block of longitude 0: two bands of quads, then the two pole triangles
    assert_eq!(tris[0], [1, 2, 7]);
    assert_eq!(tris[1], [1, 7, 6]);
    assert_eq!(tris[4], [0, 1, 6]);
    assert_eq!(tris[5], [4, 8, 3]);
    // the last longitude wraps around to the first
    assert_eq!(tris[18], [16, 17, 2]);
    assert_eq!(tris[19], [16, 2, 1]);
}

#[test]
fn torus_has_two_triangles_per_quad() {
    let steps = 10;
    let tris = torus_triangles(steps);
    assert_eq!(tris.len(), 2 * steps * steps);
    assert_eq!(tris[0], [0, 1, 12]);
    assert_eq!(tris[1], [0, 12, 11]);
    let last = tris[tris.len() - 1];
    assert_eq!(last, [9 * 11 + 9, 10, 9]);
}

#[test]
fn empty_tessellation_has_no_triangles() {
    assert!(sphere_triangles(0).is_empty());
    assert!(torus_triangles(0).is_empty());
}

#[test]
fn box_has_twelve_triangles() {
    let tris = box_triangles();
    assert_eq!(tris.len(), 12);
    assert_eq!(tris[0], [0, 2, 1]);
    assert_eq!(tris[11], [7, 4, 5]);
}

#[test]
fn push_then_pop_keeps_the_top() {
    let mut stack = CoordinateStack::new(1i64);
    stack.apply_transformation(3, |top, delta| top * delta);
    assert_eq!(stack.peek(), 3);
    stack.push();
    stack.apply_transformation(5, |top, delta| top * delta);
    assert_eq!(stack.peek(), 15);
    stack.pop();
    assert_eq!(stack.peek(), 3);
}

#[test]
fn popping_the_last_frame_is_a_no_op() {
    let mut stack = CoordinateStack::new(7u8);
    stack.pop();
    stack.pop();
    assert_eq!(stack.peek(), 7);
}

#[test]
fn transform_composes_parent_first() {
    let mut stack = CoordinateStack::new((0i32, 0i32));
    stack.apply_transformation((1, 2), |top: (i32, i32), d: (i32, i32)| (top.0 * 10 + d.0, top.1 * 10 + d.1));
    stack.apply_transformation((3, 4), |top: (i32, i32), d: (i32, i32)| (top.0 * 10 + d.0, top.1 * 10 + d.1));
    assert_eq!(stack.peek(), (13, 24));
}
