//! Sampling the captured screen under the cursor.
use vstd::prelude::*;
use crate::color::{Hsl, Rgb, hex_of, is_hsl_of};
use crate::magnifier::{Point, SUBPIXELS, trunc_div};

verus! {

/// A raster capture of one monitor: `width * height` pixels, four bytes each
/// (red, green, blue, alpha), row by row, and where its origin lies on the
/// desktop.
pub struct CapturedScreen {
    pub width: u32,
    pub height: u32,
    pub pixels: Vec<u8>,
    pub offset_x: i32,
    pub offset_y: i32,
}

/// Half the side of the magnified grid: it spans `2 * ZOOM + 1` pixels.
pub const ZOOM: i64 = 5;

/// Number of cells on a side of the magnified grid.
pub const GRID_SIDE: usize = 11;

impl CapturedScreen {
    /// The pixel buffer holds four bytes for each pixel.
    pub open spec fn wf(&self) -> bool {
        self.pixels@.len() == self.width * self.height * 4
    }

    /// The colour of the pixel in column `x`, row `y`.
    pub open spec fn pixel_at(&self, x: int, y: int) -> Rgb {
        let i = (y * self.width + x) * 4;
        Rgb { r: self.pixels@[i], g: self.pixels@[i + 1], b: self.pixels@[i + 2] }
    }

    /// The colour at desktop column `x`, row `y`, negative indices taken as
    /// zero; none outside the image.
    pub open spec fn texel_of(&self, x: int, y: int) -> Option<Rgb> {
        let cx = if x < 0 { 0 } else { x };
        let cy = if y < 0 { 0 } else { y };
        if cx < self.width && cy < self.height {
            Some(self.pixel_at(cx, cy))
        } else {
            None
        }
    }

    /// A capture, if the buffer holds exactly four bytes per pixel.
    pub fn new(width: u32, height: u32, pixels: Vec<u8>, offset_x: i32, offset_y: i32) -> (r:
        Option<CapturedScreen>)
        ensures
            r.is_some() <==> pixels@.len() == width * height * 4,
            r matches Some(s) ==> s.wf() && s.width == width && s.height == height && s.pixels@
                == pixels@ && s.offset_x == offset_x && s.offset_y == offset_y,
    {
        assert(width * height * 4 <= 0x4_0000_0000_0000_0000int) by (nonlinear_arith)
            requires
                width <= 0xffff_ffffu32,
                height <= 0xffff_ffffu32,
        ;
        let expected = width as u128 * height as u128 * 4;
        if pixels.len() as u128 == expected {
            Some(CapturedScreen { width, height, pixels, offset_x, offset_y })
        } else {
            None
        }
    }

    /// The colour at desktop column `x`, row `y`, as `texel_of` says.
    pub fn texel(&self, x: i64, y: i64) -> (r: Option<Rgb>)
        requires
            self.wf(),
        ensures
            r == self.texel_of(x as int, y as int),
    {
        let cx: i64 = if x < 0 { 0 } else { x };
        let cy: i64 = if y < 0 { 0 } else { y };
        if cx < self.width as i64 && cy < self.height as i64 {
            let w = self.width as usize;
            let col = cx as usize;
            let row = cy as usize;
            let n = self.pixels.len();
            assert(0 <= row * w <= row * w + col && (row * w + col) * 4 + 2 < n) by (
            nonlinear_arith)
                requires
                    0 <= row < self.height,
                    0 <= col < w,
                    w == self.width,
                    n == self.width * self.height * 4,
            ;
            let i = (row * w + col) * 4;
            Some(Rgb { r: self.pixels[i], g: self.pixels[i + 1], b: self.pixels[i + 2] })
        } else {
            None
        }
    }
}

/// The whole pixel under a sub-pixel coordinate, rounded toward zero.
pub open spec fn pixel_coord(v: int) -> int {
    trunc_div(v, SUBPIXELS as int)
}

/// The capture's column and row under the cursor: its pixel shifted by the
/// capture's offset, negative results taken as zero.
pub open spec fn cursor_pixel(screen: &CapturedScreen, cursor: Point) -> (int, int) {
    let x = pixel_coord(cursor.x as int) + screen.offset_x;
    let y = pixel_coord(cursor.y as int) + screen.offset_y;
    (if x < 0 { 0 } else { x }, if y < 0 { 0 } else { y })
}

/// The colour under the cursor: its pixel shifted by the capture's offset.
pub open spec fn sample_of(screen: &CapturedScreen, cursor: Point) -> Option<Rgb> {
    screen.texel_of(
        pixel_coord(cursor.x as int) + screen.offset_x,
        pixel_coord(cursor.y as int) + screen.offset_y,
    )
}

/// A sampled colour with its derived forms.
pub struct ColorSample {
    pub rgb: Rgb,
    pub hex: String,
    pub hsl: Hsl,
}

impl ColorSample {
    pub open spec fn describes(&self, c: Rgb) -> bool {
        &&& self.rgb == c
        &&& self.hex@ == hex_of(c)
        &&& is_hsl_of(self.hsl, c)
    }

    /// The sample of a colour: hex text and HSL computed from it.
    pub fn of(c: Rgb) -> (s: ColorSample)
        ensures
            s.describes(c),
    {
        ColorSample { rgb: c, hex: c.to_hex(), hsl: c.to_hsl() }
    }
}

fn pixel_coord_exec(v: i32) -> (r: i64)
    ensures
        r == pixel_coord(v as int),
        -0x8000_0000 <= r < 0x8000_0000,
{
    let s = SUBPIXELS as i64;
    if v >= 0 {
        (v as i64) / s
    } else {
        -((-(v as i64)) / s)
    }
}

/// The colour under the cursor, or none where its pixel lies outside the
/// image (negative indices count as zero).
pub fn sample_color(screen: &CapturedScreen, cursor: Point) -> (r: Option<Rgb>)
    requires
        screen.wf(),
    ensures
        r == sample_of(screen, cursor),
{
    let x = pixel_coord_exec(cursor.x) + screen.offset_x as i64;
    let y = pixel_coord_exec(cursor.y) + screen.offset_y as i64;
    screen.texel(x, y)
}

/// The colour under the cursor with its hex text and HSL form, or none where
/// the cursor's pixel lies outside the image.
pub fn sample(screen: &CapturedScreen, cursor: Point) -> (r: Option<ColorSample>)
    requires
        screen.wf(),
    ensures
        r.is_some() <==> sample_of(screen, cursor).is_some(),
        r matches Some(s) ==> s.describes(sample_of(screen, cursor).unwrap()),
        r.is_none() <==> (cursor_pixel(screen, cursor).0 >= screen.width
            || cursor_pixel(screen, cursor).1 >= screen.height),
{
    match sample_color(screen, cursor) {
        Some(c) => Some(ColorSample::of(c)),
        None => None,
    }
}

/// The cell of the magnified grid in row `row`, column `col` (both counted
/// from the top left, `0..GRID_SIDE`): the pixel that far from the one under
/// the cursor.
pub open spec fn grid_cell_of(screen: &CapturedScreen, cursor: Point, row: int, col: int) -> Option<
    Rgb,
> {
    screen.texel_of(
        pixel_coord(cursor.x as int) + col - ZOOM + screen.offset_x,
        pixel_coord(cursor.y as int) + row - ZOOM + screen.offset_y,
    )
}

/// The magnified grid around the cursor, row by row.
pub fn magnified_grid(screen: &CapturedScreen, cursor: Point) -> (cells: Vec<Option<Rgb>>)
    requires
        screen.wf(),
    ensures
        cells@.len() == GRID_SIDE * GRID_SIDE,
        forall|row: int, col: int|
            0 <= row < GRID_SIDE && 0 <= col < GRID_SIDE ==> #[trigger] cells@[row * GRID_SIDE
                + col] == grid_cell_of(screen, cursor, row, col),
{
    let base_x = pixel_coord_exec(cursor.x) + screen.offset_x as i64 - ZOOM;
    let base_y = pixel_coord_exec(cursor.y) + screen.offset_y as i64 - ZOOM;
    let mut cells: Vec<Option<Rgb>> = Vec::new();
    let mut row: usize = 0;
    while row < GRID_SIDE
        invariant
            screen.wf(),
            row <= GRID_SIDE,
            cells@.len() == row * GRID_SIDE,
            base_x == pixel_coord(cursor.x as int) + screen.offset_x - ZOOM,
            base_y == pixel_coord(cursor.y as int) + screen.offset_y - ZOOM,
            forall|r: int, c: int|
                0 <= r < row && 0 <= c < GRID_SIDE ==> #[trigger] cells@[r * GRID_SIDE + c]
                    == grid_cell_of(screen, cursor, r, c),
        decreases GRID_SIDE - row,
    {
        let mut col: usize = 0;
        while col < GRID_SIDE
            invariant
                screen.wf(),
                row < GRID_SIDE,
                col <= GRID_SIDE,
                cells@.len() == row * GRID_SIDE + col,
                base_x == pixel_coord(cursor.x as int) + screen.offset_x - ZOOM,
                base_y == pixel_coord(cursor.y as int) + screen.offset_y - ZOOM,
                forall|r: int, c: int|
                    0 <= r < row && 0 <= c < GRID_SIDE ==> #[trigger] cells@[r * GRID_SIDE + c]
                        == grid_cell_of(screen, cursor, r, c),
                forall|c: int|
                    0 <= c < col ==> #[trigger] cells@[row * GRID_SIDE + c] == grid_cell_of(
                        screen,
                        cursor,
                        row as int,
                        c,
                    ),
            decreases GRID_SIDE - col,
        {
            let cell = screen.texel(base_x + col as i64, base_y + row as i64);
            proof {
                assert forall|r: int, c: int|
                    0 <= r < row && 0 <= c < GRID_SIDE implies #[trigger] cells@.push(cell)[r
                    * GRID_SIDE + c] == grid_cell_of(screen, cursor, r, c) by {
                    assert(r * GRID_SIDE + c < row * GRID_SIDE) by (nonlinear_arith)
                        requires
                            0 <= r < row,
                            0 <= c < GRID_SIDE,
                    ;
                }
            }
            cells.push(cell);
            col += 1;
        }
        row += 1;
    }
    cells
}

} // verus!
