use raster_core::constants::{BLUE, RED, WHITE};
use raster_core::interpolate::lerp_i64;
use raster_core::output::{image_format, ImageFormat, SaveError};
use raster_core::picture::Picture;

fn red() -> Option<(u8, u8, u8)> {
    Some((255, 0, 0))
}

fn white() -> Option<(u8, u8, u8)> {
    Some((255, 255, 255))
}

#[test]
fn new_picture_is_background_without_depth() {
    let p = Picture::new(4, 3, 255, &WHITE);
    assert_eq!(p.xres(), 4);
    assert_eq!(p.yres(), 3);
    assert_eq!(p.max_color(), 255);
    assert_eq!(p.data().len(), 4 * 3 * 3);
    assert!(p.data().iter().all(|&b| b == 255));
    assert_eq!(p.depth(0, 0), None);
    assert_eq!(p.pixel(4, 0), None);
    assert_eq!(p.pixel(-1, 0), None);
}

#[test]
fn horizontal_line_plots_eleven_pixels() {
    let mut p = Picture::new(20, 20, 255, &WHITE);
    p.draw_line(0, 0, 0, 10, 0, 0, &RED);
    for x in 0..=10 {
        assert_eq!(p.pixel(x, 0), red(), "x = {}", x);
    }
    assert_eq!(p.pixel(11, 0), white());
    let changed = p.data().chunks(3).filter(|c| c[0] == 255 && c[1] == 0 && c[2] == 0).count();
    assert_eq!(changed, 11);
    for x in 0..20 {
        assert_eq!(p.pixel(x, 1), white());
    }
}

#[test]
fn steep_line_follows_midpoint_rule() {
    let mut p = Picture::new(10, 10, 255, &WHITE);
    p.draw_line(0, 0, 0, 2, 5, 0, &RED);
    let expected = [(0, 0), (0, 1), (1, 2), (1, 3), (2, 4), (2, 5)];
    for &(x, y) in expected.iter() {
        assert_eq!(p.pixel(x, y), red(), "({}, {})", x, y);
    }
    let changed = p.data().chunks(3).filter(|c| c[1] == 0).count();
    assert_eq!(changed, expected.len());
}

#[test]
fn reversed_line_covers_same_ends() {
    let mut p = Picture::new(10, 10, 255, &WHITE);
    p.draw_line(7, 3, 0, 1, 1, 0, &RED);
    assert_eq!(p.pixel(7, 3), red());
    assert_eq!(p.pixel(1, 1), red());
    let changed = p.data().chunks(3).filter(|c| c[1] == 0).count();
    assert_eq!(changed, 7);
}

#[test]
fn line_depth_is_interpolated() {
    let mut p = Picture::new(10, 10, 255, &WHITE);
    p.draw_line(0, 0, 0, 3, 0, 400, &RED);
    // four pixels, each 400 / 4 deeper than the one before
    assert_eq!(p.depth(0, 0), Some(0));
    assert_eq!(p.depth(1, 0), Some(100));
    assert_eq!(p.depth(2, 0), Some(200));
    assert_eq!(p.depth(3, 0), Some(300));
}

#[test]
fn larger_depth_wins_the_depth_test() {
    let mut p = Picture::new(10, 10, 255, &WHITE);
    p.plot(5, 5, 10000, &RED);
    p.plot(5, 5, 5000, &BLUE);
    assert_eq!(p.pixel(5, 5), red());
    assert_eq!(p.depth(5, 5), Some(10000));
    p.plot(5, 5, 10000, &BLUE);
    assert_eq!(p.pixel(5, 5), Some((0, 0, 255)));
}

#[test]
fn plots_outside_are_dropped() {
    let mut p = Picture::new(3, 3, 255, &WHITE);
    p.plot(3, 0, 0, &RED);
    p.plot(0, -1, 0, &RED);
    assert!(p.data().iter().all(|&b| b == 255));
}

#[test]
fn origin_is_bottom_left() {
    let mut p = Picture::new(2, 2, 255, &WHITE);
    p.plot(0, 0, 0, &RED);
    // stored top row first: logical row 0 is the second stored row
    assert_eq!(&p.data()[6..9], &[255, 0, 0]);
    assert_eq!(&p.data()[0..3], &[255, 255, 255]);
}

#[test]
fn clear_restores_background_and_depth() {
    let mut p = Picture::new(4, 4, 255, &WHITE);
    p.draw_line(0, 0, 5, 3, 3, 5, &RED);
    p.clear();
    assert!(p.data().iter().all(|&b| b == 255));
    assert_eq!(p.depth(0, 0), None);
}

#[test]
fn channels_are_stored_as_bytes() {
    let mut p = Picture::new(1, 1, 255, &WHITE);
    p.plot(0, 0, 0, &(256 + 7, 0, 0));
    assert_eq!(p.pixel(0, 0), Some((7, 0, 0)));
}

#[test]
fn lerp_rounds_toward_start() {
    assert_eq!(lerp_i64(0, 10, 1, 3), 3);
    assert_eq!(lerp_i64(10, 0, 1, 3), 7);
    assert_eq!(lerp_i64(-5, 5, 3, 3), 5);
    assert_eq!(lerp_i64(i64::MIN, i64::MAX, 1, 2), -1);
}

#[test]
fn save_format_follows_the_extension() {
    assert_eq!(image_format("out.ppm"), Ok(ImageFormat::Ppm));
    assert_eq!(image_format("dir.v2/Picture.PNG"), Ok(ImageFormat::Png));
    assert_eq!(image_format("picture"), Err(SaveError::NoExtension));
    assert_eq!(image_format("dir.d/picture"), Err(SaveError::NoExtension));
    assert_eq!(image_format(".hidden"), Err(SaveError::NoExtension));
    assert_eq!(image_format("name."), Err(SaveError::NoExtension));
    assert_eq!(image_format("out.jpg"), Err(SaveError::Unsupported));
}
