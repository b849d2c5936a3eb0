//! Magnifier placement: the edge-avoiding offset of the magnifier box, and the
//! per-frame easing of its position and offset.
//!
//! Lengths are in sub-pixels: `SUBPIXELS` of them make one screen pixel.
use vstd::prelude::*;

verus! {

/// Sub-pixel units in one screen pixel.
pub const SUBPIXELS: i32 = 100;

/// Gap between anchor and magnifier in the default, below-right placement.
pub const MARGIN: i64 = 3000;

/// Gap between anchor and magnifier when it is placed above the anchor.
pub const SMALL_MARGIN: i64 = 1000;

/// Gap between the magnifier box and the info box.
pub const INFO_GAP: i64 = 1000;

/// Largest distance the smoothed magnifier position may trail the cursor.
pub const MAX_DISTANCE: i64 = 15000;

/// Share of the remaining gap, in percent, that the position closes per frame.
pub const POSITION_RATE: i64 = 15;

/// Share of the remaining gap, in percent, that the offset closes per frame.
pub const OFFSET_RATE: i64 = 25;

/// Bound on box sizes: any `u32` pixel count in sub-pixels stays below it.
pub const SIZE_LIMIT: i64 = 0x80_0000_0000;

/// Bound on offset components, above any offset that the sizes produce.
pub const OFFSET_LIMIT: i64 = 0x100_0000_0000;

/// A position in the overlay, in sub-pixels.
#[derive(Clone, Copy, Debug, PartialEq, Eq, Structural)]
pub struct Point {
    pub x: i32,
    pub y: i32,
}

/// A displacement, in sub-pixels.
#[derive(Clone, Copy, Debug, PartialEq, Eq, Structural)]
pub struct Offset {
    pub dx: i64,
    pub dy: i64,
}

/// The visible screen rectangle, in sub-pixels; `left..right`, `top..bottom`.
#[derive(Clone, Copy, Debug, PartialEq, Eq, Structural)]
pub struct ScreenRect {
    pub left: i32,
    pub top: i32,
    pub right: i32,
    pub bottom: i32,
}

/// Division of integers rounding toward zero.
pub open spec fn trunc_div(a: int, b: int) -> int {
    if a >= 0 {
        a / b
    } else {
        -((-a) / b)
    }
}

/// One easing step: `current + (target - current) * rate / 100`, the step
/// rounded toward zero.
pub open spec fn ease(current: int, target: int, rate: int) -> int {
    current + trunc_div((target - current) * rate, 100)
}

pub open spec fn offset_ok(o: Offset) -> bool {
    -OFFSET_LIMIT <= o.dx <= OFFSET_LIMIT && -OFFSET_LIMIT <= o.dy <= OFFSET_LIMIT
}

/// The offset that keeps the magnifier beside `anchor` and on the screen:
/// below-right by default, flipped left past the right edge, flipped up past
/// the bottom edge (room for the info box included), then pinned at the top
/// and left edges.
pub open spec fn target_offset_of(
    anchor: Point,
    box_size: int,
    info_height: int,
    screen: ScreenRect,
) -> Offset {
    let total_height = box_size + info_height + INFO_GAP;
    let ox = if anchor.x + MARGIN + box_size > screen.right {
        -(box_size + MARGIN)
    } else {
        MARGIN as int
    };
    let oy = if anchor.y + MARGIN + total_height > screen.bottom {
        -(box_size + SMALL_MARGIN)
    } else {
        MARGIN as int
    };
    let oy2 = if anchor.y + oy < screen.top {
        -anchor.y + SMALL_MARGIN + screen.top
    } else {
        oy
    };
    let ox2 = if anchor.x + ox < screen.left {
        -anchor.x + MARGIN + screen.left
    } else {
        ox
    };
    Offset { dx: ox2 as i64, dy: oy2 as i64 }
}

/// The target offset for a magnifier box of side `box_size` with an info box
/// of `info_height` beneath it.
pub fn target_offset(anchor: Point, box_size: i64, info_height: i64, screen: ScreenRect) -> (o:
    Offset)
    requires
        0 <= box_size <= SIZE_LIMIT,
        0 <= info_height <= SIZE_LIMIT,
    ensures
        o == target_offset_of(anchor, box_size as int, info_height as int, screen),
        offset_ok(o),
{
    let ax = anchor.x as i64;
    let ay = anchor.y as i64;
    let size = box_size;
    let total_height = size + info_height + INFO_GAP;
    let mut ox: i64 = MARGIN;
    let mut oy: i64 = MARGIN;
    if ax + MARGIN + size > screen.right as i64 {
        ox = -(size + MARGIN);
    }
    if ay + MARGIN + total_height > screen.bottom as i64 {
        oy = -(size + SMALL_MARGIN);
    }
    if ay + oy < screen.top as i64 {
        oy = -ay + SMALL_MARGIN + screen.top as i64;
    }
    if ax + ox < screen.left as i64 {
        ox = -ax + MARGIN + screen.left as i64;
    }
    Offset { dx: ox, dy: oy }
}

/// For an anchor on the screen and a box that fits beside the margins, the
/// magnifier box at the target offset lies wholly inside the screen.
pub proof fn lemma_box_stays_on_screen(
    anchor: Point,
    box_size: int,
    info_height: int,
    screen: ScreenRect,
)
    requires
        screen.left <= anchor.x <= screen.right,
        screen.top <= anchor.y <= screen.bottom,
        0 <= box_size,
        0 <= info_height,
        box_size + MARGIN <= screen.right - screen.left,
        box_size + SMALL_MARGIN <= screen.bottom - screen.top,
    ensures
        ({
            let o = target_offset_of(anchor, box_size, info_height, screen);
            &&& screen.left <= anchor.x + o.dx
            &&& anchor.x + o.dx + box_size <= screen.right
            &&& screen.top <= anchor.y + o.dy
            &&& anchor.y + o.dy + box_size <= screen.bottom
        }),
{
}

/// Division rounding toward zero, for a positive divisor.
fn trunc_div_i64(a: i64, b: i64) -> (q: i64)
    requires
        b > 0,
        a > i64::MIN,
    ensures
        q == trunc_div(a as int, b as int),
{
    if a >= 0 {
        ((a as u64) / (b as u64)) as i64
    } else {
        -((((-a) as u64) / (b as u64)) as i64)
    }
}

/// One easing step on a single axis.
pub fn ease_axis(current: i64, target: i64, rate: i64) -> (r: i64)
    requires
        -OFFSET_LIMIT <= current <= OFFSET_LIMIT,
        -OFFSET_LIMIT <= target <= OFFSET_LIMIT,
        0 <= rate <= 100,
    ensures
        r == ease(current as int, target as int, rate as int),
        current <= target ==> current <= r <= target,
        target <= current ==> target <= r <= current,
{
    let g = target - current;
    proof {
        if g >= 0 {
            assert(0 <= g * rate <= g * 100) by (nonlinear_arith)
                requires
                    g >= 0,
                    0 <= rate <= 100,
            ;
        } else {
            assert(g * 100 <= g * rate <= 0) by (nonlinear_arith)
                requires
                    g < 0,
                    0 <= rate <= 100,
            ;
        }
    }
    let step = g * rate;
    current + trunc_div_i64(step, 100)
}

/// Eases an offset toward its target by `OFFSET_RATE` percent on each axis.
pub fn ease_offset(current: Offset, target: Offset) -> (r: Offset)
    requires
        offset_ok(current),
        offset_ok(target),
    ensures
        r.dx == ease(current.dx as int, target.dx as int, OFFSET_RATE as int),
        r.dy == ease(current.dy as int, target.dy as int, OFFSET_RATE as int),
        offset_ok(r),
{
    Offset {
        dx: ease_axis(current.dx, target.dx, OFFSET_RATE),
        dy: ease_axis(current.dy, target.dy, OFFSET_RATE),
    }
}

/// Squared distance between two points.
pub open spec fn dist2(a: Point, b: Point) -> int {
    (a.x - b.x) * (a.x - b.x) + (a.y - b.y) * (a.y - b.y)
}

/// `d` is the least natural number whose square reaches `n`.
pub open spec fn is_ceil_sqrt(n: int, d: int) -> bool {
    &&& d >= 0
    &&& d * d >= n
    &&& (d == 0 || (d - 1) * (d - 1) < n)
}

/// The least natural number whose square reaches `n`.
pub open spec fn ceil_sqrt(n: int) -> int {
    choose|d: int| is_ceil_sqrt(n, d)
}

proof fn lemma_ceil_sqrt_unique(n: int, d1: int, d2: int)
    requires
        is_ceil_sqrt(n, d1),
        is_ceil_sqrt(n, d2),
    ensures
        d1 == d2,
{
    if d1 < d2 {
        assert(d1 * d1 <= (d2 - 1) * (d2 - 1)) by (nonlinear_arith)
            requires
                0 <= d1 <= d2 - 1,
        ;
    } else if d2 < d1 {
        assert(d2 * d2 <= (d1 - 1) * (d1 - 1)) by (nonlinear_arith)
            requires
                0 <= d2 <= d1 - 1,
        ;
    }
}

proof fn lemma_ceil_sqrt_exists(n: int, w: int)
    requires
        w >= 0,
        w * w >= n,
    ensures
        exists|d: int| is_ceil_sqrt(n, d),
    decreases w,
{
    if w == 0 || (w - 1) * (w - 1) < n {
        assert(is_ceil_sqrt(n, w));
    } else {
        lemma_ceil_sqrt_exists(n, w - 1);
    }
}

/// The least `d` with `d * d >= n`, by bisection.
fn ceil_sqrt_u128(n: u128) -> (d: u64)
    requires
        n <= 0x4_0000_0000_0000_0000u128,
    ensures
        d as int == ceil_sqrt(n as int),
        is_ceil_sqrt(n as int, d as int),
        d <= 0x4_0000_0000u64,
{
    let mut lo: u64 = 0;
    let mut hi: u64 = 0x4_0000_0000;
    assert(hi as int * hi as int >= n as int) by (nonlinear_arith)
        requires
            hi == 0x4_0000_0000u64,
            n <= 0x4_0000_0000_0000_0000u128,
    ;
    while lo < hi
        invariant
            lo <= hi <= 0x4_0000_0000u64,
            hi as int * hi as int >= n as int,
            lo == 0 || (lo as int - 1) * (lo as int - 1) < n as int,
        decreases hi - lo,
    {
        let mid: u64 = lo + (hi - lo) / 2;
        assert(mid as int * mid as int <= 0x10_0000_0000_0000_0000int) by (nonlinear_arith)
            requires
                0 <= mid <= 0x4_0000_0000int,
        ;
        let sq: u128 = mid as u128 * mid as u128;
        if sq >= n {
            hi = mid;
        } else {
            lo = mid + 1;
        }
    }
    proof {
        assert(is_ceil_sqrt(n as int, lo as int));
        lemma_ceil_sqrt_unique(n as int, lo as int, ceil_sqrt(n as int));
    }
    lo
}

/// The magnifier position pulled along the line to the cursor so that it is
/// no farther than `MAX_DISTANCE` from it.
pub open spec fn pulled_within(mag: Point, cursor: Point) -> Point {
    let d2 = dist2(mag, cursor);
    if d2 > MAX_DISTANCE * MAX_DISTANCE {
        let d = ceil_sqrt(d2);
        Point {
            x: (cursor.x - trunc_div((cursor.x - mag.x) * MAX_DISTANCE, d)) as i32,
            y: (cursor.y - trunc_div((cursor.y - mag.y) * MAX_DISTANCE, d)) as i32,
        }
    } else {
        mag
    }
}

/// One frame of magnifier motion: pull within reach of the cursor, then ease
/// toward it by `POSITION_RATE` percent.
pub open spec fn follow_of(mag: Point, cursor: Point) -> Point {
    let p = pulled_within(mag, cursor);
    Point {
        x: ease(p.x as int, cursor.x as int, POSITION_RATE as int) as i32,
        y: ease(p.y as int, cursor.y as int, POSITION_RATE as int) as i32,
    }
}

/// Positions of the magnifier after each cursor reading in turn.
pub open spec fn track(mag: Point, cursors: Seq<Point>) -> Point
    decreases cursors.len(),
{
    if cursors.len() == 0 {
        mag
    } else {
        follow_of(track(mag, cursors.drop_last()), cursors.last())
    }
}

proof fn lemma_trunc_div_bound(a: int, m: int, d: int)
    requires
        m >= 0,
        d > 0,
    ensures
        trunc_div(a * m, d) * trunc_div(a * m, d) * d * d <= a * a * m * m,
        m <= d ==> -a <= trunc_div(a * m, d) <= a || a <= trunc_div(a * m, d) <= -a,
        a >= 0 ==> 0 <= trunc_div(a * m, d),
        a <= 0 ==> trunc_div(a * m, d) <= 0,
{
    let q = trunc_div(a * m, d);
    if a >= 0 {
        assert(a * m >= 0) by (nonlinear_arith)
            requires
                a >= 0,
                m >= 0,
        ;
        assert(0 <= q * d <= a * m) by (nonlinear_arith)
            requires
                q == (a * m) / d,
                a * m >= 0,
                d > 0,
        ;
        assert(q * q * d * d <= a * a * m * m) by (nonlinear_arith)
            requires
                0 <= q * d <= a * m,
                q >= 0,
                d > 0,
        ;
        if m <= d {
            assert(q <= a) by (nonlinear_arith)
                requires
                    q * d <= a * m,
                    m <= d,
                    a >= 0,
                    d > 0,
            ;
        }
    } else {
        let b = -a;
        assert(b * m >= 0) by (nonlinear_arith)
            requires
                b >= 0,
                m >= 0,
        ;
        assert(a * m == -(b * m)) by (nonlinear_arith)
            requires
                b == -a,
        ;
        let p = (b * m) / d;
        assert(q == -p);
        assert(0 <= p * d <= b * m) by (nonlinear_arith)
            requires
                p == (b * m) / d,
                b * m >= 0,
                d > 0,
        ;
        assert(p * p * d * d <= b * b * m * m) by (nonlinear_arith)
            requires
                0 <= p * d <= b * m,
                p >= 0,
                d > 0,
        ;
        assert(q * q * d * d == p * p * d * d) by (nonlinear_arith)
            requires
                q == -p,
        ;
        assert(a * a * m * m == b * b * m * m) by (nonlinear_arith)
            requires
                b == -a,
        ;
        if m <= d {
            assert(p <= b) by (nonlinear_arith)
                requires
                    p * d <= b * m,
                    m <= d,
                    b >= 0,
                    d > 0,
            ;
        }
    }
}

proof fn lemma_ease_shrinks(p: int, t: int, rate: int)
    requires
        0 <= rate <= 100,
    ensures
        t - ease(p, t, rate) <= t - p && t - ease(p, t, rate) >= 0 || t - ease(p, t, rate) >= t
            - p && t - ease(p, t, rate) <= 0,
        (t - ease(p, t, rate)) * (t - ease(p, t, rate)) <= (t - p) * (t - p),
{
    let g = t - p;
    if g >= 0 {
        assert(0 <= g * rate <= g * 100) by (nonlinear_arith)
            requires
                g >= 0,
                0 <= rate <= 100,
        ;
    } else {
        assert(g * 100 <= g * rate <= 0) by (nonlinear_arith)
            requires
                g < 0,
                0 <= rate <= 100,
        ;
    }
    let e = t - ease(p, t, rate);
    assert(e * e <= g * g) by (nonlinear_arith)
        requires
            0 <= e <= g || g <= e <= 0,
    ;
}

/// After one frame the magnifier is within `MAX_DISTANCE` of the cursor,
/// whatever its position before.
pub proof fn lemma_follow_within_reach(mag: Point, cursor: Point)
    ensures
        dist2(follow_of(mag, cursor), cursor) <= MAX_DISTANCE * MAX_DISTANCE,
{
    let m = MAX_DISTANCE as int;
    let d2 = dist2(mag, cursor);
    let dx = cursor.x - mag.x;
    let dy = cursor.y - mag.y;
    let p = pulled_within(mag, cursor);
    assert(d2 == dx * dx + dy * dy) by (nonlinear_arith)
        requires
            dx == cursor.x - mag.x,
            dy == cursor.y - mag.y,
            d2 == (mag.x - cursor.x) * (mag.x - cursor.x) + (mag.y - cursor.y) * (mag.y - cursor.y),
    ;
    if d2 > m * m {
        let d = ceil_sqrt(d2);
        assert(is_ceil_sqrt(d2, d)) by {
            let w = d2 + 1;
            assert(w >= 0 && w * w >= d2) by (nonlinear_arith)
                requires
                    w == d2 + 1,
                    d2 >= 0,
            ;
            lemma_ceil_sqrt_exists(d2, w);
        }
        assert(d > m) by (nonlinear_arith)
            requires
                d * d >= d2,
                d2 > m * m,
                d >= 0,
                m > 0,
        ;
        lemma_trunc_div_bound(dx, m, d);
        lemma_trunc_div_bound(dy, m, d);
        let qx = trunc_div(dx * m, d);
        let qy = trunc_div(dy * m, d);
        assert(p.x == cursor.x - qx);
        assert(p.y == cursor.y - qy);
        assert((qx * qx + qy * qy) * (d * d) <= (dx * dx + dy * dy) * (m * m)) by (nonlinear_arith)
            requires
                qx * qx * d * d <= dx * dx * m * m,
                qy * qy * d * d <= dy * dy * m * m,
        ;
        assert((dx * dx + dy * dy) * (m * m) <= (d * d) * (m * m)) by (nonlinear_arith)
            requires
                dx * dx + dy * dy <= d * d,
        ;
        assert(qx * qx + qy * qy <= m * m) by (nonlinear_arith)
            requires
                (qx * qx + qy * qy) * (d * d) <= (d * d) * (m * m),
                d > 0,
        ;
        assert(dist2(p, cursor) == qx * qx + qy * qy) by (nonlinear_arith)
            requires
                p.x == cursor.x - qx,
                p.y == cursor.y - qy,
                dist2(p, cursor) == (p.x - cursor.x) * (p.x - cursor.x) + (p.y - cursor.y) * (
                p.y - cursor.y),
        ;
    }
    let px = cursor.x - p.x;
    let py = cursor.y - p.y;
    assert(px * px + py * py <= m * m) by (nonlinear_arith)
        requires
            dist2(p, cursor) <= m * m,
            px == cursor.x - p.x,
            py == cursor.y - p.y,
            dist2(p, cursor) == (p.x - cursor.x) * (p.x - cursor.x) + (p.y - cursor.y) * (p.y
                - cursor.y),
    ;
    lemma_ease_shrinks(p.x as int, cursor.x as int, POSITION_RATE as int);
    lemma_ease_shrinks(p.y as int, cursor.y as int, POSITION_RATE as int);
    let f = follow_of(mag, cursor);
    let ex = cursor.x - f.x;
    let ey = cursor.y - f.y;
    assert(ex * ex + ey * ey <= m * m) by (nonlinear_arith)
        requires
            ex * ex <= px * px,
            ey * ey <= py * py,
            px * px + py * py <= m * m,
    ;
    assert(dist2(f, cursor) == ex * ex + ey * ey) by (nonlinear_arith)
        requires
            ex == cursor.x - f.x,
            ey == cursor.y - f.y,
            dist2(f, cursor) == (f.x - cursor.x) * (f.x - cursor.x) + (f.y - cursor.y) * (f.y
                - cursor.y),
    ;
}

/// One frame of magnifier motion toward the cursor.
pub fn follow(mag: Point, cursor: Point) -> (r: Point)
    ensures
        r == follow_of(mag, cursor),
        dist2(r, cursor) <= MAX_DISTANCE * MAX_DISTANCE,
{
    proof {
        lemma_follow_within_reach(mag, cursor);
    }
    let dx: i64 = cursor.x as i64 - mag.x as i64;
    let dy: i64 = cursor.y as i64 - mag.y as i64;
    assert(dx * dx <= 0x1_0000_0000_0000_0000int && dy * dy <= 0x1_0000_0000_0000_0000int)
        by (nonlinear_arith)
        requires
            -0x1_0000_0000 <= dx <= 0x1_0000_0000,
            -0x1_0000_0000 <= dy <= 0x1_0000_0000,
    ;
    assert(dx * dx >= 0 && dy * dy >= 0) by (nonlinear_arith);
    let d2: u128 = (dx as i128 * dx as i128 + dy as i128 * dy as i128) as u128;
    assert(d2 as int == dist2(mag, cursor)) by (nonlinear_arith)
        requires
            d2 as int == dx * dx + dy * dy,
            dx == cursor.x - mag.x,
            dy == cursor.y - mag.y,
    ;
    let mut px: i32 = mag.x;
    let mut py: i32 = mag.y;
    if d2 > (MAX_DISTANCE * MAX_DISTANCE) as u128 {
        let d = ceil_sqrt_u128(d2) as i64;
        assert(d > MAX_DISTANCE) by (nonlinear_arith)
            requires
                d * d >= d2,
                d2 > MAX_DISTANCE * MAX_DISTANCE,
                d >= 0,
        ;
        proof {
            lemma_trunc_div_bound(dx as int, MAX_DISTANCE as int, d as int);
            lemma_trunc_div_bound(dy as int, MAX_DISTANCE as int, d as int);
        }
        assert(-0x10_0000_0000_0000 <= dx * MAX_DISTANCE <= 0x10_0000_0000_0000) by (
        nonlinear_arith)
            requires
                -0x1_0000_0000 <= dx <= 0x1_0000_0000,
        ;
        assert(-0x10_0000_0000_0000 <= dy * MAX_DISTANCE <= 0x10_0000_0000_0000) by (
        nonlinear_arith)
            requires
                -0x1_0000_0000 <= dy <= 0x1_0000_0000,
        ;
        let qx = trunc_div_i64(dx * MAX_DISTANCE, d);
        let qy = trunc_div_i64(dy * MAX_DISTANCE, d);
        px = (cursor.x as i64 - qx) as i32;
        py = (cursor.y as i64 - qy) as i32;
    }
    let ex = ease_axis(px as i64, cursor.x as i64, POSITION_RATE);
    let ey = ease_axis(py as i64, cursor.y as i64, POSITION_RATE);
    Point { x: ex as i32, y: ey as i32 }
}

/// However the cursor jumps, the magnifier ends each frame within
/// `MAX_DISTANCE` of where the cursor then is.
pub proof fn lemma_track_within_reach(mag: Point, cursors: Seq<Point>)
    requires
        cursors.len() > 0,
    ensures
        dist2(track(mag, cursors), cursors.last()) <= MAX_DISTANCE * MAX_DISTANCE,
{
    lemma_follow_within_reach(track(mag, cursors.drop_last()), cursors.last());
}

} // verus!
