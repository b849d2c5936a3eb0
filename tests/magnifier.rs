use yoinkctl::magnifier::{
    ease_axis, ease_offset, follow, target_offset, Offset, Point, ScreenRect, MARGIN,
    MAX_DISTANCE, SMALL_MARGIN, SUBPIXELS,
};

fn px(v: i32) -> i32 {
    v * SUBPIXELS
}

fn full_hd() -> ScreenRect {
    ScreenRect { left: 0, top: 0, right: px(1920), bottom: px(1080) }
}

#[test]
fn offset_flips_left_near_right_edge() {
    let anchor = Point { x: px(1900), y: px(50) };
    let o = target_offset(anchor, px(150) as i64, px(55) as i64, full_hd());
    assert!(o.dx < 0);
    assert_eq!(o.dx, -(px(150) as i64 + MARGIN));
    assert_eq!(o.dy, MARGIN);
}

#[test]
fn offset_defaults_below_right() {
    let o = target_offset(Point { x: 0, y: 0 }, px(150) as i64, px(55) as i64, full_hd());
    assert_eq!(o, Offset { dx: MARGIN, dy: MARGIN });
}

#[test]
fn offset_flips_up_near_bottom_right_corner() {
    let anchor = Point { x: px(1910), y: px(1070) };
    let o = target_offset(anchor, px(150) as i64, px(55) as i64, full_hd());
    assert_eq!(o.dx, -(px(150) as i64 + MARGIN));
    assert_eq!(o.dy, -(px(150) as i64 + SMALL_MARGIN));
}

#[test]
fn offset_pins_to_top_left_on_small_screen() {
    let rect = ScreenRect { left: 0, top: 0, right: px(200), bottom: px(200) };
    let o = target_offset(Point { x: px(100), y: px(100) }, px(150) as i64, 0, rect);
    assert_eq!(o.dx, -(px(100) as i64) + MARGIN);
    assert_eq!(o.dy, -(px(100) as i64) + SMALL_MARGIN);
}

#[test]
fn box_stays_on_screen_near_edges_and_corners() {
    let rect = full_hd();
    let size = px(150) as i64;
    let xs = [0, px(5), px(960), px(1800), px(1890), px(1919), px(1920)];
    let ys = [0, px(5), px(540), px(900), px(1000), px(1079), px(1080)];
    for &x in xs.iter() {
        for &y in ys.iter() {
            let o = target_offset(Point { x, y }, size, px(75) as i64, rect);
            let left = x as i64 + o.dx;
            let top = y as i64 + o.dy;
            assert!(left >= rect.left as i64 && left + size <= rect.right as i64);
            assert!(top >= rect.top as i64 && top + size <= rect.bottom as i64);
        }
    }
}

#[test]
fn follow_eases_small_moves() {
    assert_eq!(follow(Point { x: 0, y: 0 }, Point { x: 1000, y: 2000 }), Point { x: 150, y: 300 });
    assert_eq!(follow(Point { x: 0, y: 0 }, Point { x: -1000, y: -7 }), Point { x: -150, y: -1 });
}

#[test]
fn follow_pulls_in_a_far_magnifier() {
    assert_eq!(follow(Point { x: 0, y: 0 }, Point { x: 100000, y: 0 }), Point { x: 87250, y: 0 });
    assert_eq!(
        follow(Point { x: 0, y: 0 }, Point { x: 30000, y: 40000 }),
        Point { x: 22350, y: 29800 }
    );
}

#[test]
fn follow_never_trails_beyond_max_distance() {
    let jumps = [
        Point { x: 0, y: 0 },
        Point { x: px(1920), y: px(1080) },
        Point { x: -px(5000), y: px(3) },
        Point { x: i32::MAX, y: i32::MIN },
        Point { x: i32::MIN, y: i32::MAX },
        Point { x: px(10), y: px(10) },
        Point { x: px(700), y: -px(900) },
    ];
    let mut mag = Point { x: 0, y: 0 };
    for _ in 0..3 {
        for &c in jumps.iter() {
            mag = follow(mag, c);
            let dx = (mag.x as i128) - (c.x as i128);
            let dy = (mag.y as i128) - (c.y as i128);
            let m = MAX_DISTANCE as i128;
            assert!(dx * dx + dy * dy <= m * m);
        }
    }
}

#[test]
fn easing_steps_a_share_of_the_gap() {
    assert_eq!(ease_axis(0, 100, 25), 25);
    assert_eq!(ease_axis(100, 0, 25), 75);
    assert_eq!(ease_axis(0, -3, 25), 0);
    let o = ease_offset(Offset { dx: 3000, dy: 3000 }, Offset { dx: -18000, dy: 3000 });
    assert_eq!(o, Offset { dx: -2250, dy: 3000 });
}
