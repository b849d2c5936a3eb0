use yoinkctl::color::Rgb;
use yoinkctl::config::Config;
use yoinkctl::magnifier::{Offset, Point, ScreenRect, MARGIN};
use yoinkctl::sampler::{CapturedScreen, GRID_SIDE};
use yoinkctl::session::{FrameInput, FrameOutcome, PickerSession, SessionPhase};

/// A 2 x 2 capture whose pixel (x, y) is (x, y, 9).
fn capture() -> CapturedScreen {
    let mut pixels = Vec::new();
    for y in 0..2u8 {
        for x in 0..2u8 {
            pixels.extend_from_slice(&[x, y, 9, 255]);
        }
    }
    CapturedScreen::new(2, 2, pixels, 0, 0).unwrap()
}

fn rect() -> ScreenRect {
    ScreenRect { left: 0, top: 0, right: 192000, bottom: 108000 }
}

fn input(x: i32, y: i32, click: bool, escape: bool) -> FrameInput {
    FrameInput {
        pointer: Some(Point { x, y }),
        primary_clicked: click,
        escape_pressed: escape,
        screen_rect: rect(),
    }
}

#[test]
fn new_session_starts_active_at_origin() {
    let s = PickerSession::new(&Config::default(), Some(capture()));
    assert_eq!(s.phase, SessionPhase::Active);
    assert_eq!(s.cursor, Point { x: 0, y: 0 });
    assert_eq!(s.magnifier_offset, Offset { dx: MARGIN, dy: MARGIN });
    assert_eq!(s.preview_size, 120);
}

#[test]
fn hover_lays_out_magnifier() {
    let mut s = PickerSession::new(&Config::default(), Some(capture()));
    match s.frame(&input(100, 100, false, false)) {
        FrameOutcome::Draw { crosshair, magnifier } => {
            assert_eq!(crosshair, Point { x: 100, y: 100 });
            let v = magnifier.unwrap();
            assert_eq!(v.color, Rgb { r: 1, g: 1, b: 9 });
            assert_eq!((v.x, v.y), (3015, 3015));
            assert_eq!(v.size, 12000);
            assert_eq!(v.info_height, 7500);
            assert_eq!(v.info_top, 3015 + 12000 + 1000);
            assert_eq!(v.lines, vec!["#010109", "RGB(1, 1, 9)", "HSL(240, 80%, 2%)"]);
            assert_eq!(v.cells.len(), GRID_SIDE * GRID_SIDE);
            assert_eq!(v.cells[5 * GRID_SIDE + 5], Some(Rgb { r: 1, g: 1, b: 9 }));
        }
        _ => panic!("expected a frame to draw"),
    }
    assert_eq!(s.magnifier_pos, Point { x: 15, y: 15 });
    assert_eq!(s.phase, SessionPhase::Active);
}

#[test]
fn only_enabled_lines_are_shown() {
    let config = Config { show_hex: false, show_rgb: true, show_hsl: false, ..Config::default() };
    let mut s = PickerSession::new(&config, Some(capture()));
    match s.frame(&input(0, 0, false, false)) {
        FrameOutcome::Draw { magnifier: Some(v), .. } => {
            assert_eq!(v.lines, vec!["RGB(0, 0, 9)"]);
            assert_eq!(v.info_height, 3500);
        }
        _ => panic!("expected a magnifier"),
    }
    let none = Config { show_hex: false, show_rgb: false, show_hsl: false, ..Config::default() };
    let mut s = PickerSession::new(&none, Some(capture()));
    match s.frame(&input(0, 0, false, false)) {
        FrameOutcome::Draw { magnifier: Some(v), .. } => {
            assert!(v.lines.is_empty());
            assert_eq!(v.info_height, 0);
        }
        _ => panic!("expected a magnifier"),
    }
}

#[test]
fn click_commits_sampled_colour() {
    let mut s = PickerSession::new(&Config::default(), Some(capture()));
    match s.frame(&input(150, 50, true, false)) {
        FrameOutcome::Commit { hex, rgb } => {
            assert_eq!(rgb, Rgb { r: 1, g: 0, b: 9 });
            assert_eq!(hex, "#010009");
        }
        _ => panic!("expected a commit"),
    }
    assert_eq!(s.phase, SessionPhase::Committing);
    assert!(matches!(s.frame(&input(0, 0, false, false)), FrameOutcome::Close));
    assert!(s.close());
    assert!(!s.close());
    assert_eq!(s.phase, SessionPhase::Closed);
}

#[test]
fn click_off_image_is_ignored() {
    let mut s = PickerSession::new(&Config::default(), Some(capture()));
    match s.frame(&input(5000, 5000, true, false)) {
        FrameOutcome::Draw { magnifier, .. } => assert!(magnifier.is_none()),
        _ => panic!("expected a frame to draw"),
    }
    assert_eq!(s.phase, SessionPhase::Active);
    // The magnifier trails at (750, 750): the target stays below-right.
    assert_eq!(s.magnifier_offset, Offset { dx: MARGIN, dy: MARGIN });
}

#[test]
fn offset_eases_without_a_sample() {
    let mut s = PickerSession::new(&Config::default(), None);
    s.cursor = Point { x: 191900, y: 5000 };
    s.magnifier_pos = Point { x: 191900, y: 5000 };
    let frame = input(191900, 5000, false, false);
    match s.frame(&frame) {
        FrameOutcome::Draw { magnifier, .. } => assert!(magnifier.is_none()),
        _ => panic!("expected a frame to draw"),
    }
    // Target is -(12000 + 3000); a quarter of the gap from 3000 is -4500.
    assert_eq!(s.magnifier_offset, Offset { dx: 3000 - 4500, dy: MARGIN });
}

#[test]
fn escape_cancels() {
    let mut s = PickerSession::new(&Config::default(), Some(capture()));
    assert!(matches!(s.frame(&input(10, 10, true, true)), FrameOutcome::Close));
    assert_eq!(s.phase, SessionPhase::Cancelling);
    assert!(s.close());
}

#[test]
fn without_capture_only_crosshair_is_drawn() {
    let mut s = PickerSession::new(&Config::default(), None);
    match s.frame(&input(10, 20, true, false)) {
        FrameOutcome::Draw { crosshair, magnifier } => {
            assert_eq!(crosshair, Point { x: 10, y: 20 });
            assert!(magnifier.is_none());
        }
        _ => panic!("expected a frame to draw"),
    }
    assert_eq!(s.phase, SessionPhase::Active);
}

#[test]
fn pointer_absent_keeps_last_cursor() {
    let mut s = PickerSession::new(&Config::default(), Some(capture()));
    s.frame(&input(100, 100, false, false));
    let away = FrameInput { pointer: None, primary_clicked: false, escape_pressed: false, screen_rect: rect() };
    match s.frame(&away) {
        FrameOutcome::Draw { crosshair, .. } => assert_eq!(crosshair, Point { x: 100, y: 100 }),
        _ => panic!("expected a frame to draw"),
    }
    assert_eq!(s.cursor, Point { x: 100, y: 100 });
}
