use raster_core::constants::{RED, WHITE};
use raster_core::picture::Picture;
use raster_core::render::{render_edges, render_polygons, render_shaded_polygons};
use raster_core::scan_line::{faces_viewer, flat, gouraud, sort_corners, Vertex};

fn v(x: i32, y: i32, z: i64) -> Vertex {
    Vertex { x, y, z }
}

fn count_red(p: &Picture) -> usize {
    p.data().chunks(3).filter(|c| c[0] == 255 && c[1] == 0 && c[2] == 0).count()
}

#[test]
fn counter_clockwise_triangle_faces_viewer() {
    assert!(faces_viewer(&v(0, 0, 0), &v(1, 0, 0), &v(0, 1, 0)));
    assert!(!faces_viewer(&v(0, 0, 0), &v(0, 1, 0), &v(1, 0, 0)));
    assert!(!faces_viewer(&v(0, 0, 0), &v(1, 1, 0), &v(2, 2, 0)));
}

#[test]
fn backface_is_culled_when_rendering() {
    let mut kept = Picture::new(10, 10, 255, &WHITE);
    render_polygons(&vec![v(0, 0, 0), v(5, 0, 0), v(0, 5, 0)], &mut kept, &RED);
    assert!(count_red(&kept) > 0);
    let mut culled = Picture::new(10, 10, 255, &WHITE);
    render_polygons(&vec![v(0, 0, 0), v(0, 5, 0), v(5, 0, 0)], &mut culled, &RED);
    assert_eq!(count_red(&culled), 0);
}

#[test]
fn corners_sort_bottom_to_top_with_their_data() {
    let (b, m, t) = sort_corners((v(0, 9, 0), 'a'), (v(0, 1, 0), 'b'), (v(0, 5, 0), 'c'));
    assert_eq!((b.0.y, b.1), (1, 'b'));
    assert_eq!((m.0.y, m.1), (5, 'c'));
    assert_eq!((t.0.y, t.1), (9, 'a'));
}

#[test]
fn flat_triangle_on_one_row_draws_one_span() {
    let mut p = Picture::new(12, 12, 255, &WHITE);
    flat(&mut p, &[v(2, 5, 0), v(8, 5, 0), v(4, 5, 0)], &RED);
    for x in 2..=8 {
        assert_eq!(p.pixel(x, 5), Some((255, 0, 0)));
    }
    assert_eq!(count_red(&p), 7);
}

#[test]
fn flat_triangle_fills_rows_between_corners() {
    let mut p = Picture::new(12, 12, 255, &WHITE);
    flat(&mut p, &[v(0, 0, 0), v(6, 0, 0), v(0, 6, 0)], &RED);
    for y in 0..=6 {
        assert_eq!(p.pixel(0, y), Some((255, 0, 0)), "row {}", y);
    }
    assert_eq!(p.pixel(0, 7), Some((255, 255, 255)));
    assert_eq!(p.pixel(6, 0), Some((255, 0, 0)));
    assert_eq!(p.pixel(7, 0), Some((255, 255, 255)));
}

#[test]
fn gouraud_keeps_corner_colors() {
    let mut p = Picture::new(12, 12, 255, &WHITE);
    gouraud(&mut p, &[v(0, 0, 0), v(8, 0, 0), v(0, 8, 0)], &[(200, 0, 0), (0, 200, 0), (0, 0, 200)]);
    assert_eq!(p.pixel(0, 0), Some((200, 0, 0)));
    // the top row holds the top corner alone
    assert_eq!(p.pixel(0, 8), Some((23, 0, 177)));
}

#[test]
fn shaded_polygons_cull_backfaces() {
    let mut p = Picture::new(10, 10, 255, &WHITE);
    let colors = vec![(1, 2, 3); 3];
    render_shaded_polygons(&vec![v(0, 0, 0), v(0, 5, 0), v(5, 0, 0)], &colors, &mut p);
    assert!(p.data().iter().all(|&b| b == 255));
    render_shaded_polygons(&vec![v(0, 0, 0), v(5, 0, 0), v(0, 5, 0)], &colors, &mut p);
    assert_eq!(p.pixel(0, 0), Some((1, 2, 3)));
}

#[test]
fn edges_are_drawn_in_pairs() {
    let mut p = Picture::new(10, 10, 255, &WHITE);
    render_edges(&vec![v(0, 0, 0), v(3, 0, 0), v(9, 9, 0)], &mut p, &RED);
    assert_eq!(count_red(&p), 4);
    assert_eq!(p.pixel(9, 9), Some((255, 255, 255)));
}
