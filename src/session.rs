//! One picker session: per frame it tracks the cursor, moves the magnifier,
//! samples the screen and lays out what to draw, until the user commits a
//! colour or cancels.
use vstd::prelude::*;
use crate::color::{Rgb, hex_of, hsl_text_of, rgb_text_of};
use crate::config::Config;
use crate::magnifier::{
    Offset,
    Point,
    ScreenRect,
    SUBPIXELS,
    MARGIN,
    MAX_DISTANCE,
    dist2,
    INFO_GAP,
    OFFSET_RATE,
    ease,
    ease_offset,
    follow,
    follow_of,
    offset_ok,
    target_offset,
    target_offset_of,
};
use crate::sampler::{CapturedScreen, GRID_SIDE, grid_cell_of, magnified_grid, sample_color, sample_of};

verus! {

/// Where a session stands.
#[derive(Clone, Copy, Debug, PartialEq, Eq, Structural)]
pub enum SessionPhase {
    /// The overlay is up and follows the cursor.
    Active,
    /// A colour was chosen; its side effect is due, then the session closes.
    Committing,
    /// The user cancelled; the session closes with no side effect.
    Cancelling,
    /// The session is over and its lock released.
    Closed,
}

/// What the overlay read from the user in one frame.
#[derive(Clone, Copy, Debug, PartialEq, Eq, Structural)]
pub struct FrameInput {
    /// The pointer position, where the pointer is over the overlay.
    pub pointer: Option<Point>,
    /// Whether the primary button was clicked.
    pub primary_clicked: bool,
    /// Whether escape was pressed.
    pub escape_pressed: bool,
    /// The visible screen rectangle.
    pub screen_rect: ScreenRect,
}

/// The magnifier as it is to be drawn this frame.
pub struct MagnifierView {
    /// Top-left corner of the magnifier box.
    pub x: i64,
    pub y: i64,
    /// Side of the magnifier box.
    pub size: i64,
    /// The magnified pixels, `GRID_SIDE` rows of `GRID_SIDE`, row by row;
    /// none where a pixel lies outside the capture. The centre one is the
    /// sampled pixel.
    pub cells: Vec<Option<Rgb>>,
    /// The colour under the cursor.
    pub color: Rgb,
    /// Text lines to show, in the order hex, RGB, HSL, each where enabled.
    pub lines: Vec<String>,
    /// Top and height of the info box; the height is zero with no lines.
    pub info_top: i64,
    pub info_height: i64,
}

/// What the caller does after a frame.
pub enum FrameOutcome {
    /// Draw the crosshair at `crosshair` and the magnifier where there is one.
    Draw { crosshair: Point, magnifier: Option<MagnifierView> },
    /// Copy `hex` to the clipboard and record the colour, then close.
    Commit { hex: String, rgb: Rgb },
    /// Close the overlay.
    Close,
}

/// The colour under the cursor, none without a capture.
pub open spec fn session_sample(screen: Option<CapturedScreen>, cursor: Point) -> Option<Rgb> {
    match screen {
        Some(s) => sample_of(&s, cursor),
        None => None,
    }
}

/// Number of text lines that the options enable.
pub open spec fn line_count(show_hex: bool, show_rgb: bool, show_hsl: bool) -> int {
    (if show_hex { 1int } else { 0int }) + (if show_rgb { 1int } else { 0int }) + (if show_hsl {
        1int
    } else {
        0int
    })
}

/// Height of the info box: fifteen pixels plus twenty per line, or nothing.
pub open spec fn info_height_of(lines: int) -> int {
    if lines > 0 {
        (15 + 20 * lines) * SUBPIXELS
    } else {
        0
    }
}

/// The text lines for colour `c`: hex, RGB and HSL, each where enabled.
pub open spec fn info_lines_of(show_hex: bool, show_rgb: bool, show_hsl: bool, c: Rgb) -> Seq<
    Seq<char>,
> {
    (if show_hex { seq![hex_of(c)] } else { Seq::empty() }) + (if show_rgb {
        seq![rgb_text_of(c)]
    } else {
        Seq::empty()
    }) + (if show_hsl { seq![hsl_text_of(c)] } else { Seq::empty() })
}

/// Side of the magnifier box for a preview size in pixels.
pub open spec fn box_size_of(preview_size: u32) -> int {
    preview_size * SUBPIXELS
}

/// The top of the info box: above the magnifier where it sits above the
/// anchor, below it otherwise.
pub open spec fn info_top_of(box_y: int, box_size: int, info_height: int, offset_dy: int) -> int {
    if offset_dy < 0 {
        box_y - info_height - INFO_GAP
    } else {
        box_y + box_size + INFO_GAP
    }
}

/// A picker session.
pub struct PickerSession {
    /// The capture taken at the start, none where capturing failed.
    pub screen: Option<CapturedScreen>,
    pub cursor: Point,
    pub magnifier_pos: Point,
    pub magnifier_offset: Offset,
    pub phase: SessionPhase,
    pub show_hex: bool,
    pub show_rgb: bool,
    pub show_hsl: bool,
    /// Side of the magnifier box in pixels.
    pub preview_size: u32,
}

impl PickerSession {
    pub open spec fn wf(&self) -> bool {
        &&& self.screen matches Some(s) ==> s.wf()
        &&& offset_ok(self.magnifier_offset)
    }

    /// A session over a capture (or none), with the display settings of
    /// `config`; cursor and magnifier start at the origin, the offset at its
    /// default.
    pub fn new(config: &Config, screen: Option<CapturedScreen>) -> (s: PickerSession)
        requires
            screen matches Some(c) ==> c.wf(),
        ensures
            s.wf(),
            s.screen == screen,
            s.cursor == (Point { x: 0, y: 0 }),
            s.magnifier_pos == (Point { x: 0, y: 0 }),
            s.magnifier_offset == (Offset { dx: MARGIN, dy: MARGIN }),
            s.phase == SessionPhase::Active,
            s.show_hex == config.show_hex,
            s.show_rgb == config.show_rgb,
            s.show_hsl == config.show_hsl,
            s.preview_size == config.preview_size,
    {
        PickerSession {
            screen,
            cursor: Point { x: 0, y: 0 },
            magnifier_pos: Point { x: 0, y: 0 },
            magnifier_offset: Offset { dx: MARGIN, dy: MARGIN },
            phase: SessionPhase::Active,
            show_hex: config.show_hex,
            show_rgb: config.show_rgb,
            show_hsl: config.show_hsl,
            preview_size: config.preview_size,
        }
    }

    /// The colour under the cursor, none without a capture or off the image.
    pub fn current_color(&self) -> (r: Option<Rgb>)
        requires
            self.wf(),
        ensures
            r == session_sample(self.screen, self.cursor),
    {
        match &self.screen {
            Some(s) => sample_color(s, self.cursor),
            None => None,
        }
    }

    /// The enabled text lines for colour `c`.
    pub fn info_lines(&self, c: Rgb) -> (lines: Vec<String>)
        ensures
            lines@.map_values(|l: String| l@) == info_lines_of(
                self.show_hex,
                self.show_rgb,
                self.show_hsl,
                c,
            ),
    {
        let mut lines: Vec<String> = Vec::new();
        let ghost want = info_lines_of(self.show_hex, self.show_rgb, self.show_hsl, c);
        if self.show_hex {
            lines.push(c.to_hex());
        }
        if self.show_rgb {
            lines.push(c.rgb_text());
        }
        if self.show_hsl {
            lines.push(c.hsl_text());
        }
        assert(lines@.map_values(|l: String| l@) =~= want);
        lines
    }

    /// Ends the session; true exactly when this call closed it, which is when
    /// the caller releases the lock.
    pub fn close(&mut self) -> (newly_closed: bool)
        ensures
            *final(self) == (PickerSession { phase: SessionPhase::Closed, ..*old(self) }),
            newly_closed == (old(self).phase != SessionPhase::Closed),
    {
        let newly_closed = self.phase != SessionPhase::Closed;
        self.phase = SessionPhase::Closed;
        newly_closed
    }

    /// One frame. Outside `Active` it only asks to close. Otherwise: take
    /// the pointer position (keeping the last one where there is none), move
    /// the magnifier toward it; on escape cancel; on a click over a sampled
    /// colour commit that colour; else ease the magnifier's offset toward the
    /// on-screen target, and lay out the magnifier where there is a colour.
    pub fn frame(&mut self, input: &FrameInput) -> (out: FrameOutcome)
        requires
            old(self).wf(),
        ensures
            final(self).wf(),
            final(self).screen == old(self).screen,
            old(self).phase != SessionPhase::Active ==> out is Close && *final(self) == *old(
                self,
            ),
            old(self).phase == SessionPhase::Active ==> ({
                let cursor = match input.pointer {
                    Some(p) => p,
                    None => old(self).cursor,
                };
                let mag = follow_of(old(self).magnifier_pos, cursor);
                let color = session_sample(old(self).screen, cursor);
                &&& final(self).cursor == cursor
                &&& final(self).magnifier_pos == mag
                &&& dist2(final(self).magnifier_pos, final(self).cursor) <= MAX_DISTANCE
                    * MAX_DISTANCE
                &&& input.escape_pressed ==> out is Close && final(self).phase
                    == SessionPhase::Cancelling && final(self).magnifier_offset == old(
                    self,
                ).magnifier_offset
                &&& !input.escape_pressed && input.primary_clicked && color is Some ==> (
                out matches FrameOutcome::Commit { hex, rgb } && rgb == color.unwrap() && hex@
                    == hex_of(rgb)) && final(self).phase == SessionPhase::Committing
                    && final(self).magnifier_offset == old(self).magnifier_offset
                &&& !input.escape_pressed && !(input.primary_clicked && color is Some) ==> (
                out matches FrameOutcome::Draw { crosshair, magnifier } && crosshair == cursor
                    && final(self).phase == SessionPhase::Active && final(self).offset_eased(
                    old(self).magnifier_offset,
                    input.screen_rect,
                ) && (magnifier is Some <==> color is Some) && (magnifier matches Some(v)
                    ==> final(self).view_matches(v)))
            }),
            final(self).show_hex == old(self).show_hex,
            final(self).show_rgb == old(self).show_rgb,
            final(self).show_hsl == old(self).show_hsl,
            final(self).preview_size == old(self).preview_size,
    {
        if self.phase != SessionPhase::Active {
            return FrameOutcome::Close;
        }
        if let Some(p) = input.pointer {
            self.cursor = p;
        }
        self.magnifier_pos = follow(self.magnifier_pos, self.cursor);
        if input.escape_pressed {
            self.phase = SessionPhase::Cancelling;
            return FrameOutcome::Close;
        }
        let color = self.current_color();
        if input.primary_clicked {
            if let Some(c) = color {
                self.phase = SessionPhase::Committing;
                return FrameOutcome::Commit { hex: c.to_hex(), rgb: c };
            }
        }
        self.ease_toward_target(input.screen_rect);
        let magnifier = match color {
            Some(c) => Some(self.lay_out(c)),
            None => None,
        };
        FrameOutcome::Draw { crosshair: self.cursor, magnifier }
    }

    /// The offset is `previous` eased by `OFFSET_RATE` percent toward the
    /// on-screen target for the magnifier at its current position in `rect`.
    pub open spec fn offset_eased(self, previous: Offset, rect: ScreenRect) -> bool {
        let size = box_size_of(self.preview_size);
        let info_height = info_height_of(line_count(self.show_hex, self.show_rgb, self.show_hsl));
        let target = target_offset_of(self.magnifier_pos, size, info_height, rect);
        &&& self.magnifier_offset.dx == ease(previous.dx as int, target.dx as int, OFFSET_RATE as int)
        &&& self.magnifier_offset.dy == ease(previous.dy as int, target.dy as int, OFFSET_RATE as int)
    }

    /// `v` is the magnifier laid out for the session as it ends the frame.
    pub open spec fn view_matches(self, v: MagnifierView) -> bool {
        let size = box_size_of(self.preview_size);
        let info_height = info_height_of(line_count(self.show_hex, self.show_rgb, self.show_hsl));
        let c = session_sample(self.screen, self.cursor).unwrap();
        &&& v.x == self.magnifier_pos.x + self.magnifier_offset.dx
        &&& v.y == self.magnifier_pos.y + self.magnifier_offset.dy
        &&& v.size == size
        &&& v.color == c
        &&& v.lines@.map_values(|l: String| l@) == info_lines_of(
            self.show_hex,
            self.show_rgb,
            self.show_hsl,
            c,
        )
        &&& v.info_height == info_height
        &&& v.info_top == info_top_of(v.y as int, size, info_height, self.magnifier_offset.dy as int)
        &&& v.cells@.len() == GRID_SIDE * GRID_SIDE
        &&& self.screen matches Some(s) && forall|row: int, col: int|
            0 <= row < GRID_SIDE && 0 <= col < GRID_SIDE ==> #[trigger] v.cells@[row * GRID_SIDE
                + col] == grid_cell_of(&s, self.cursor, row, col)
    }

    /// Height of the info box for the enabled lines.
    fn info_height(&self) -> (h: i64)
        ensures
            h == info_height_of(line_count(self.show_hex, self.show_rgb, self.show_hsl)),
    {
        let a: i64 = if self.show_hex { 1 } else { 0 };
        let b: i64 = if self.show_rgb { 1 } else { 0 };
        let c: i64 = if self.show_hsl { 1 } else { 0 };
        let n: i64 = a + b + c;
        let unit: i64 = SUBPIXELS as i64;
        assert(0 <= n <= 3 && unit == 100);
        if n > 0 {
            (15 + 20 * n) * unit
        } else {
            0
        }
    }

    /// Eases the offset toward the on-screen target.
    fn ease_toward_target(&mut self, rect: ScreenRect)
        requires
            old(self).wf(),
        ensures
            *final(self) == (PickerSession { magnifier_offset: final(self).magnifier_offset, ..*old(self) }),
            final(self).wf(),
            final(self).offset_eased(old(self).magnifier_offset, rect),
    {
        let size = self.preview_size as i64 * SUBPIXELS as i64;
        let target = target_offset(self.magnifier_pos, size, self.info_height(), rect);
        self.magnifier_offset = ease_offset(self.magnifier_offset, target);
    }

    /// Lays out the magnifier for colour `c`.
    fn lay_out(&self, c: Rgb) -> (v: MagnifierView)
        requires
            self.wf(),
            session_sample(self.screen, self.cursor) == Some(c),
        ensures
            self.view_matches(v),
    {
        let info_height = self.info_height();
        let size = self.preview_size as i64 * SUBPIXELS as i64;
        let x = self.magnifier_pos.x as i64 + self.magnifier_offset.dx;
        let y = self.magnifier_pos.y as i64 + self.magnifier_offset.dy;
        let info_top = if self.magnifier_offset.dy < 0 {
            y - info_height - INFO_GAP
        } else {
            y + size + INFO_GAP
        };
        let cells = match &self.screen {
            Some(s) => magnified_grid(s, self.cursor),
            None => Vec::new(),
        };
        let lines = self.info_lines(c);
        MagnifierView { x, y, size, cells, color: c, lines, info_top, info_height }
    }
}

} // verus!
