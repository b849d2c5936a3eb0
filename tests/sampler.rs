use yoinkctl::color::Rgb;
use yoinkctl::magnifier::Point;
use yoinkctl::sampler::{magnified_grid, sample, sample_color, CapturedScreen, GRID_SIDE};

/// A 3 x 2 capture whose pixel (x, y) is (10 * x, 100 + y, 7).
fn capture(offset_x: i32, offset_y: i32) -> CapturedScreen {
    let mut pixels = Vec::new();
    for y in 0..2u8 {
        for x in 0..3u8 {
            pixels.extend_from_slice(&[10 * x, 100 + y, 7, 255]);
        }
    }
    CapturedScreen::new(3, 2, pixels, offset_x, offset_y).unwrap()
}

fn at(x: u8, y: u8) -> Rgb {
    Rgb { r: 10 * x, g: 100 + y, b: 7 }
}

#[test]
fn capture_needs_four_bytes_per_pixel() {
    assert!(CapturedScreen::new(3, 2, vec![0; 23], 0, 0).is_none());
    assert!(CapturedScreen::new(3, 2, vec![0; 24], 0, 0).is_some());
    assert!(CapturedScreen::new(0, 0, Vec::new(), 0, 0).is_some());
}

#[test]
fn sample_reads_pixel_under_cursor() {
    let s = capture(0, 0);
    assert_eq!(sample_color(&s, Point { x: 150, y: 50 }), Some(at(1, 0)));
    assert_eq!(sample_color(&s, Point { x: 299, y: 199 }), Some(at(2, 1)));
    let full = sample(&s, Point { x: 250, y: 150 }).unwrap();
    assert_eq!(full.rgb, at(2, 1));
    assert_eq!(full.hex, "#146507");
}

#[test]
fn sample_applies_capture_offset() {
    let s = capture(1, 1);
    assert_eq!(sample_color(&s, Point { x: 150, y: 0 }), Some(at(2, 1)));
}

#[test]
fn negative_coordinates_clamp_to_zero() {
    let s = capture(0, 0);
    assert_eq!(sample_color(&s, Point { x: -50, y: 0 }), Some(at(0, 0)));
    assert_eq!(sample_color(&s, Point { x: -250, y: -999 }), Some(at(0, 0)));
}

#[test]
fn out_of_bounds_gives_no_sample() {
    let s = capture(0, 0);
    assert_eq!(sample_color(&s, Point { x: 300, y: 0 }), None);
    assert_eq!(sample_color(&s, Point { x: 0, y: 200 }), None);
    assert!(sample(&s, Point { x: i32::MAX, y: i32::MAX }).is_none());
    let shifted = capture(3, 0);
    assert_eq!(sample_color(&shifted, Point { x: 0, y: 0 }), None);
    let empty = CapturedScreen::new(0, 0, Vec::new(), 0, 0).unwrap();
    assert_eq!(sample_color(&empty, Point { x: 0, y: 0 }), None);
}

#[test]
fn grid_centres_on_cursor_pixel() {
    let s = capture(0, 0);
    let cells = magnified_grid(&s, Point { x: 0, y: 0 });
    assert_eq!(cells.len(), GRID_SIDE * GRID_SIDE);
    let cell = |row: usize, col: usize| cells[row * GRID_SIDE + col];
    assert_eq!(cell(5, 5), Some(at(0, 0)));
    assert_eq!(cell(5, 6), Some(at(1, 0)));
    assert_eq!(cell(5, 7), Some(at(2, 0)));
    assert_eq!(cell(5, 8), None);
    assert_eq!(cell(5, 4), Some(at(0, 0)));
    assert_eq!(cell(4, 5), Some(at(0, 0)));
    assert_eq!(cell(6, 5), Some(at(0, 1)));
    assert_eq!(cell(7, 5), None);
    assert_eq!(cell(10, 10), None);
}
