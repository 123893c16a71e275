//! A frame-rate readout drawn into the top-left corner of the screen.
use vstd::prelude::*;

verus! {

/// Width of the readout in pixels.
pub const OVERLAY_WIDTH: usize = 56;
/// Height of the readout in screen rows.
pub const OVERLAY_HEIGHT: usize = 14;
/// Each glyph bit becomes a square of this many pixels.
pub const GLYPH_SCALE: usize = 2;
/// Horizontal distance between consecutive glyphs.
pub const GLYPH_ADVANCE: usize = 8;
/// Column of the `FPS` label.
pub const LABEL_X: usize = 2;
/// Column of the first digit.
pub const DIGITS_X: usize = 30;
/// First screen row of the glyphs.
pub const GLYPH_Y: usize = 2;
/// The rate is recomputed once this many microseconds have passed.
pub const UPDATE_INTERVAL_US: u64 = 500_000;
/// Black; the same in either byte order.
pub const BACKGROUND: u16 = 0x0000;
/// White; the same in either byte order.
pub const FOREGROUND: u16 = 0xffff;

/// Rows of the letter F, top to bottom, three bits wide.
pub open spec fn label_f() -> Seq<u8> {
    seq![0b111u8, 0b100u8, 0b110u8, 0b100u8, 0b100u8]
}

/// Rows of the letter P.
pub open spec fn label_p() -> Seq<u8> {
    seq![0b110u8, 0b101u8, 0b110u8, 0b100u8, 0b100u8]
}

/// Rows of the letter S.
pub open spec fn label_s() -> Seq<u8> {
    seq![0b111u8, 0b100u8, 0b111u8, 0b001u8, 0b111u8]
}

/// Rows of the decimal digit `d`.
pub open spec fn digit_rows(d: int) -> Seq<u8> {
    if d == 0 {
        seq![0b111u8, 0b101u8, 0b101u8, 0b101u8, 0b111u8]
    } else if d == 1 {
        seq![0b010u8, 0b110u8, 0b010u8, 0b010u8, 0b111u8]
    } else if d == 2 {
        seq![0b110u8, 0b001u8, 0b010u8, 0b100u8, 0b111u8]
    } else if d == 3 {
        seq![0b110u8, 0b001u8, 0b010u8, 0b001u8, 0b110u8]
    } else if d == 4 {
        seq![0b101u8, 0b101u8, 0b111u8, 0b001u8, 0b001u8]
    } else if d == 5 {
        seq![0b111u8, 0b100u8, 0b110u8, 0b001u8, 0b110u8]
    } else if d == 6 {
        seq![0b011u8, 0b100u8, 0b111u8, 0b101u8, 0b111u8]
    } else if d == 7 {
        seq![0b111u8, 0b001u8, 0b010u8, 0b010u8, 0b010u8]
    } else if d == 8 {
        seq![0b111u8, 0b101u8, 0b111u8, 0b101u8, 0b111u8]
    } else {
        seq![0b111u8, 0b101u8, 0b111u8, 0b001u8, 0b110u8]
    }
}

/// Whether bit `column` (0 is the leftmost of three) of a glyph row is set.
pub open spec fn glyph_bit(bits: u8, column: int) -> bool {
    (bits >> ((2 - column) as u8)) & 1u8 == 1u8
}

/// Whether the glyph with rows `rows`, drawn at column `gx`, covers the
/// screen pixel at row `sy` and column `sx`.
pub open spec fn glyph_covers(rows: Seq<u8>, gx: int, sy: int, sx: int) -> bool {
    &&& GLYPH_Y <= sy < GLYPH_Y + 5 * GLYPH_SCALE
    &&& gx <= sx < gx + 3 * GLYPH_SCALE
    &&& glyph_bit(rows[(sy - GLYPH_Y) / 2], (sx - gx) / 2)
}

/// The rate that is shown: at most three digits.
pub open spec fn shown_fps(fps: u16) -> int {
    if fps > 999 { 999 } else { fps as int }
}

/// Whether the readout for `fps` lights the screen pixel at (`sy`, `sx`):
/// the label `FPS`, then the rate in decimal without leading zeros.
pub open spec fn overlay_lit(fps: u16, sy: int, sx: int) -> bool {
    let f = shown_fps(fps);
    let hundreds = f / 100;
    let tens = f / 10 % 10;
    let ones = f % 10;
    let tens_x = if hundreds != 0 { DIGITS_X + GLYPH_ADVANCE } else { DIGITS_X as int };
    let ones_x = if hundreds != 0 {
        DIGITS_X + 2 * GLYPH_ADVANCE
    } else if tens != 0 {
        DIGITS_X + GLYPH_ADVANCE
    } else {
        DIGITS_X as int
    };
    ||| glyph_covers(label_f(), LABEL_X as int, sy, sx)
    ||| glyph_covers(label_p(), LABEL_X + GLYPH_ADVANCE, sy, sx)
    ||| glyph_covers(label_s(), LABEL_X + 2 * GLYPH_ADVANCE, sy, sx)
    ||| (hundreds != 0 && glyph_covers(digit_rows(hundreds), DIGITS_X as int, sy, sx))
    ||| ((hundreds != 0 || tens != 0) && glyph_covers(digit_rows(tens), tens_x, sy, sx))
    ||| glyph_covers(digit_rows(ones), ones_x, sy, sx)
}

/// The pixel at row `r` and column `c` of a band stored `stride` pixels per row.
pub open spec fn cell(pixels: Seq<u16>, stride: int, r: int, c: int) -> u16 {
    pixels[r * stride + c]
}

/// How many rows of a band that starts at screen row `y` and holds `rows`
/// rows lie inside the readout.
pub open spec fn visible_rows(y: int, rows: int) -> int {
    if rows < OVERLAY_HEIGHT - y { rows } else { OVERLAY_HEIGHT - y }
}

/// Whether a band starting at screen row `y`, `rows` rows high, stored
/// `stride` pixels per row in `len` pixels, is drawn into at all.
pub open spec fn band_is_drawn(len: int, stride: int, y: int, rows: int) -> bool {
    &&& y < OVERLAY_HEIGHT
    &&& rows > 0
    &&& stride >= OVERLAY_WIDTH
    &&& len >= stride * visible_rows(y, rows)
}

proof fn lemma_cell_distinct(stride: int, r1: int, c1: int, r2: int, c2: int)
    requires
        0 <= r1,
        0 <= r2,
        0 <= c1 < stride,
        0 <= c2 < stride,
    ensures
        (r1 * stride + c1 == r2 * stride + c2) <==> (r1 == r2 && c1 == c2),
{
    if r1 < r2 {
        assert(r1 * stride + c1 < r2 * stride) by (nonlinear_arith)
            requires
                r1 < r2,
                0 <= c1 < stride,
        ;
    } else if r2 < r1 {
        assert(r2 * stride + c2 < r1 * stride) by (nonlinear_arith)
            requires
                r2 < r1,
                0 <= c2 < stride,
        ;
    }
}

proof fn lemma_cell_bound(stride: int, r: int, c: int, rows: int)
    requires
        0 <= r < rows,
        0 <= c < stride,
    ensures
        0 <= r * stride + c < stride * rows,
{
    assert(0 <= r * stride) by (nonlinear_arith)
        requires
            0 <= r,
            0 <= stride,
    ;
    assert(r * stride + c < stride * rows) by (nonlinear_arith)
        requires
            r < rows,
            0 <= c < stride,
    ;
}

/// A running frame-rate counter and the readout that shows it.
#[derive(Clone, Copy)]
pub struct DebugOverlay {
    /// When the current measuring period began; `None` before the first frame.
    pub period_started_us: Option<u64>,
    /// Frames begun since the period began, not counting its first.
    pub frame_intervals: u32,
    /// The last computed rate, in frames per second.
    pub fps: u16,
}

/// The counter after a frame begins at `now_us`.
pub open spec fn begin_frame_spec(s: DebugOverlay, now_us: u64) -> DebugOverlay {
    match s.period_started_us {
        None => DebugOverlay { period_started_us: Some(now_us), ..s },
        Some(started_us) => {
            let intervals = if s.frame_intervals == u32::MAX {
                u32::MAX
            } else {
                (s.frame_intervals + 1) as u32
            };
            let elapsed = if now_us >= started_us { now_us - started_us } else { 0 };
            if elapsed < UPDATE_INTERVAL_US {
                DebugOverlay { frame_intervals: intervals, ..s }
            } else {
                let rounded = (intervals * 1_000_000 + elapsed / 2) / elapsed;
                DebugOverlay {
                    period_started_us: Some(now_us),
                    frame_intervals: 0,
                    fps: if rounded > 999 { 999 } else { rounded as u16 },
                }
            }
        },
    }
}

fn label_f_rows() -> (g: [u8; 5])
    ensures
        g@ == label_f(),
{
    let g = [0b111u8, 0b100, 0b110, 0b100, 0b100];
    assert(g@ =~= label_f());
    g
}

fn label_p_rows() -> (g: [u8; 5])
    ensures
        g@ == label_p(),
{
    let g = [0b110u8, 0b101, 0b110, 0b100, 0b100];
    assert(g@ =~= label_p());
    g
}

fn label_s_rows() -> (g: [u8; 5])
    ensures
        g@ == label_s(),
{
    let g = [0b111u8, 0b100, 0b111, 0b001, 0b111];
    assert(g@ =~= label_s());
    g
}

fn digit_glyph(d: u16) -> (g: [u8; 5])
    requires
        d < 10,
    ensures
        g@ == digit_rows(d as int),
{
    let g = if d == 0 {
        [0b111u8, 0b101, 0b101, 0b101, 0b111]
    } else if d == 1 {
        [0b010u8, 0b110, 0b010, 0b010, 0b111]
    } else if d == 2 {
        [0b110u8, 0b001, 0b010, 0b100, 0b111]
    } else if d == 3 {
        [0b110u8, 0b001, 0b010, 0b001, 0b110]
    } else if d == 4 {
        [0b101u8, 0b101, 0b111, 0b001, 0b001]
    } else if d == 5 {
        [0b111u8, 0b100, 0b110, 0b001, 0b110]
    } else if d == 6 {
        [0b011u8, 0b100, 0b111, 0b101, 0b111]
    } else if d == 7 {
        [0b111u8, 0b001, 0b010, 0b010, 0b010]
    } else if d == 8 {
        [0b111u8, 0b101, 0b111, 0b101, 0b111]
    } else {
        [0b111u8, 0b101, 0b111, 0b001, 0b110]
    };
    assert(g@ =~= digit_rows(d as int));
    g
}

impl DebugOverlay {
    /// Counts a frame that begins at `now_us`. The first frame starts a
    /// measuring period; once a period has lasted `UPDATE_INTERVAL_US`, the
    /// rate becomes the frames counted in it per second, rounded to the
    /// nearest integer and capped at 999, and a new period begins.
    pub fn begin_frame(&mut self, now_us: u64)
        ensures
            *final(self) == begin_frame_spec(*old(self), now_us),
    {
        let started_us = match self.period_started_us {
            None => {
                self.period_started_us = Some(now_us);
                return;
            },
            Some(started_us) => started_us,
        };
        self.frame_intervals = self.frame_intervals.saturating_add(1);
        let elapsed_us = now_us.saturating_sub(started_us);
        if elapsed_us < UPDATE_INTERVAL_US {
            return;
        }
        let intervals = self.frame_intervals as u64;
        assert(intervals * 1_000_000 <= 0xffff_ffffu64 * 1_000_000) by (nonlinear_arith)
            requires
                intervals <= 0xffff_ffffu64,
        ;
        let rounded = (intervals * 1_000_000 + elapsed_us / 2) / elapsed_us;
        self.fps = if rounded > 999 { 999 } else { rounded as u16 };
        self.period_started_us = Some(now_us);
        self.frame_intervals = 0;
    }

    /// Draws the readout into a band of the screen that starts at screen row
    /// `y`, holds `rows` rows and stores `stride` pixels per row. Within the
    /// readout's rows the first `OVERLAY_WIDTH` pixels of each row are
    /// painted opaquely: the label `FPS` and the rate, white on black. All
    /// other pixels keep their value. A band that lies below the readout, is
    /// empty, is narrower than the readout or is shorter than its visible
    /// rows is left as it is.
    pub fn draw_band(self, pixels: &mut [u16], stride: usize, y: usize, rows: usize)
        ensures
            band_is_drawn(old(pixels)@.len() as int, stride as int, y as int, rows as int) ==> {
                &&& final(pixels)@.len() == old(pixels)@.len()
                &&& forall|r: int, c: int|
                    0 <= r < visible_rows(y as int, rows as int) && 0 <= c < stride
                        ==> #[trigger] cell(final(pixels)@, stride as int, r, c) == if c
                        < OVERLAY_WIDTH {
                        if overlay_lit(self.fps, y + r, c) {
                            FOREGROUND
                        } else {
                            BACKGROUND
                        }
                    } else {
                        cell(old(pixels)@, stride as int, r, c)
                    }
                &&& forall|i: int|
                    stride * visible_rows(y as int, rows as int) <= i < old(pixels)@.len()
                        ==> final(pixels)@[i] == old(pixels)@[i]
            },
            !band_is_drawn(old(pixels)@.len() as int, stride as int, y as int, rows as int)
                ==> final(pixels)@ == old(pixels)@,
    {
        if y >= OVERLAY_HEIGHT || rows == 0 || stride < OVERLAY_WIDTH {
            return;
        }
        let vis = if rows < OVERLAY_HEIGHT - y { rows } else { OVERLAY_HEIGHT - y };
        let len = pixels.len();
        match stride.checked_mul(vis) {
            None => {
                assert(len < stride * vis);
                return;
            },
            Some(needed) => {
                if len < needed {
                    return;
                }
            },
        }
        fill_background(pixels, stride, vis);
        self.draw_glyph(pixels, stride, y, rows, LABEL_X, label_f_rows());
        self.draw_glyph(pixels, stride, y, rows, LABEL_X + GLYPH_ADVANCE, label_p_rows());
        self.draw_glyph(pixels, stride, y, rows, LABEL_X + GLYPH_ADVANCE * 2, label_s_rows());
        let fps = if self.fps > 999 { 999 } else { self.fps };
        let hundreds = fps / 100;
        let tens = fps / 10 % 10;
        let ones = fps % 10;
        let mut x = DIGITS_X;
        if hundreds != 0 {
            self.draw_glyph(pixels, stride, y, rows, x, digit_glyph(hundreds));
            x += GLYPH_ADVANCE;
        }
        if hundreds != 0 || tens != 0 {
            self.draw_glyph(pixels, stride, y, rows, x, digit_glyph(tens));
            x += GLYPH_ADVANCE;
        }
        self.draw_glyph(pixels, stride, y, rows, x, digit_glyph(ones));
    }

    /// Paints the set bits of `glyph`, each as a `GLYPH_SCALE` square, at
    /// column `x` of the readout, in the rows of the band that starts at
    /// screen row `band_y` and holds `band_rows` rows.
    fn draw_glyph(
        self,
        pixels: &mut [u16],
        stride: usize,
        band_y: usize,
        band_rows: usize,
        x: usize,
        glyph: [u8; 5],
    )
        requires
            band_y < OVERLAY_HEIGHT,
            x + 3 * GLYPH_SCALE <= stride,
            old(pixels)@.len() >= stride * visible_rows(band_y as int, band_rows as int),
        ensures
            final(pixels)@.len() == old(pixels)@.len(),
            forall|r: int, c: int|
                0 <= r < visible_rows(band_y as int, band_rows as int) && 0 <= c < stride
                    ==> #[trigger] cell(final(pixels)@, stride as int, r, c) == if glyph_covers(
                    glyph@,
                    x as int,
                    band_y + r,
                    c,
                ) {
                    FOREGROUND
                } else {
                    cell(old(pixels)@, stride as int, r, c)
                },
            forall|i: int|
                stride * visible_rows(band_y as int, band_rows as int) <= i < old(pixels)@.len()
                    ==> final(pixels)@[i] == old(pixels)@[i],
    {
        let ghost original = pixels@;
        let len = pixels.len();
        let vis = if band_rows < OVERLAY_HEIGHT - band_y {
            band_rows
        } else {
            OVERLAY_HEIGHT - band_y
        };
        let first = if band_y > GLYPH_Y { band_y } else { GLYPH_Y };
        let glyph_end = GLYPH_Y + 5 * GLYPH_SCALE;
        let end_y = if band_y + vis < glyph_end { band_y + vis } else { glyph_end };
        let mut sy = first;
        while sy < end_y
            invariant
                len == original.len(),
                pixels@.len() == original.len(),
                vis == visible_rows(band_y as int, band_rows as int),
                band_y < OVERLAY_HEIGHT,
                x + 3 * GLYPH_SCALE <= stride,
                original.len() >= stride * vis,
                band_y <= first,
                GLYPH_Y <= first,
                first <= sy,
                end_y <= band_y + vis,
                glyph_end == GLYPH_Y + 5 * GLYPH_SCALE,
                end_y <= glyph_end,
                forall|r: int, c: int|
                    0 <= r < vis && 0 <= c < stride ==> #[trigger] cell(pixels@, stride as int, r, c)
                        == if band_y + r < sy && glyph_covers(glyph@, x as int, band_y + r, c) {
                        FOREGROUND
                    } else {
                        cell(original, stride as int, r, c)
                    },
                forall|i: int| stride * vis <= i < original.len() ==> pixels@[i] == original[i],
            decreases end_y - sy,
        {
            let r0 = sy - band_y;
            proof {
                lemma_cell_bound(stride as int, r0 as int, 0, vis as int);
            }
            let base = r0 * stride;
            let bits = glyph[(sy - GLYPH_Y) / GLYPH_SCALE];
            let mut c = x;
            while c < x + 3 * GLYPH_SCALE
                invariant
                    len == original.len(),
                    pixels@.len() == original.len(),
                    vis == visible_rows(band_y as int, band_rows as int),
                    band_y < OVERLAY_HEIGHT,
                    x + 3 * GLYPH_SCALE <= stride,
                    original.len() >= stride * vis,
                    GLYPH_Y <= sy,
                    band_y <= sy,
                    sy < band_y + vis,
                    sy < glyph_end,
                    glyph_end == GLYPH_Y + 5 * GLYPH_SCALE,
                    r0 == sy - band_y,
                    base == r0 * stride,
                    bits == glyph@[(sy - GLYPH_Y) / GLYPH_SCALE as int],
                    x <= c <= x + 3 * GLYPH_SCALE,
                    forall|r: int, c2: int|
                        0 <= r < vis && 0 <= c2 < stride ==> #[trigger] cell(pixels@, stride as int, r, c2)
                            == if (band_y + r < sy || (r == r0 && c2 < c)) && glyph_covers(
                            glyph@,
                            x as int,
                            band_y + r,
                            c2,
                        ) {
                            FOREGROUND
                        } else {
                            cell(original, stride as int, r, c2)
                        },
                    forall|i: int| stride * vis <= i < original.len() ==> pixels@[i] == original[i],
                decreases x + 3 * GLYPH_SCALE - c,
            {
                proof {
                    lemma_cell_bound(stride as int, r0 as int, c as int, vis as int);
                }
                let column = ((c - x) / GLYPH_SCALE) as u8;
                let lit = (bits >> (2 - column)) & 1u8 == 1u8;
                assert(glyph_covers(glyph@, x as int, band_y + r0, c as int) == lit);
                let ghost before = pixels@;
                if lit {
                    pixels[base + c] = FOREGROUND;
                }
                proof {
                    assert forall|r: int, c2: int|
                        0 <= r < vis && 0 <= c2 < stride implies #[trigger] cell(pixels@, stride as int, r, c2)
                            == if (band_y + r < sy || (r == r0 && c2 < c + 1)) && glyph_covers(
                            glyph@,
                            x as int,
                            band_y + r,
                            c2,
                        ) {
                            FOREGROUND
                        } else {
                            cell(original, stride as int, r, c2)
                        } by {
                        lemma_cell_distinct(stride as int, r, c2, r0 as int, c as int);
                        lemma_cell_bound(stride as int, r, c2, vis as int);
                        assert(cell(before, stride as int, r, c2) == if (band_y + r < sy || (r == r0
                            && c2 < c)) && glyph_covers(glyph@, x as int, band_y + r, c2) {
                            FOREGROUND
                        } else {
                            cell(original, stride as int, r, c2)
                        });
                    }
                }
                c += 1;
            }
            sy += 1;
        }
    }
}

/// Paints the first `OVERLAY_WIDTH` pixels of each of the first `vis` rows
/// with the background.
fn fill_background(pixels: &mut [u16], stride: usize, vis: usize)
    requires
        OVERLAY_WIDTH <= stride,
        old(pixels)@.len() >= stride * vis,
    ensures
        final(pixels)@.len() == old(pixels)@.len(),
        forall|r: int, c: int|
            0 <= r < vis && 0 <= c < stride ==> #[trigger] cell(final(pixels)@, stride as int, r, c)
                == if c < OVERLAY_WIDTH {
                BACKGROUND
            } else {
                cell(old(pixels)@, stride as int, r, c)
            },
        forall|i: int|
            stride * vis <= i < old(pixels)@.len() ==> final(pixels)@[i] == old(pixels)@[i],
{
    let ghost original = pixels@;
    let len = pixels.len();
    let mut row: usize = 0;
    while row < vis
        invariant
            row <= vis,
            len == original.len(),
            OVERLAY_WIDTH <= stride,
            original.len() >= stride * vis,
            pixels@.len() == original.len(),
            forall|r: int, c: int|
                0 <= r < vis && 0 <= c < stride ==> #[trigger] cell(pixels@, stride as int, r, c)
                    == if r < row && c < OVERLAY_WIDTH {
                    BACKGROUND
                } else {
                    cell(original, stride as int, r, c)
                },
            forall|i: int| stride * vis <= i < original.len() ==> pixels@[i] == original[i],
        decreases vis - row,
    {
        proof {
            lemma_cell_bound(stride as int, row as int, 0, vis as int);
        }
        let base = row * stride;
        let mut c: usize = 0;
        while c < OVERLAY_WIDTH
            invariant
                row < vis,
                len == original.len(),
                c <= OVERLAY_WIDTH,
                OVERLAY_WIDTH <= stride,
                base == row * stride,
                original.len() >= stride * vis,
                pixels@.len() == original.len(),
                forall|r: int, c2: int|
                    0 <= r < vis && 0 <= c2 < stride ==> #[trigger] cell(pixels@, stride as int, r, c2)
                        == if (r < row || (r == row && c2 < c)) && c2 < OVERLAY_WIDTH {
                        BACKGROUND
                    } else {
                        cell(original, stride as int, r, c2)
                    },
                forall|i: int| stride * vis <= i < original.len() ==> pixels@[i] == original[i],
            decreases OVERLAY_WIDTH - c,
        {
            proof {
                lemma_cell_bound(stride as int, row as int, c as int, vis as int);
            }
            let ghost before = pixels@;
            pixels[base + c] = BACKGROUND;
            proof {
                assert forall|r: int, c2: int|
                    0 <= r < vis && 0 <= c2 < stride implies #[trigger] cell(pixels@, stride as int, r, c2)
                        == if (r < row || (r == row && c2 < c + 1)) && c2 < OVERLAY_WIDTH {
                        BACKGROUND
                    } else {
                        cell(original, stride as int, r, c2)
                    } by {
                    lemma_cell_distinct(stride as int, r, c2, row as int, c as int);
                    lemma_cell_bound(stride as int, r, c2, vis as int);
                    assert(cell(before, stride as int, r, c2) == if (r < row || (r == row && c2 < c)) && c2 < OVERLAY_WIDTH {
                        BACKGROUND
                    } else {
                        cell(original, stride as int, r, c2)
                    });
                }
            }
            c += 1;
        }
        row += 1;
    }
}

impl Default for DebugOverlay {
    fn default() -> (result: Self)
        ensures
            result.period_started_us.is_none(),
            result.frame_intervals == 0,
            result.fps == 0,
    {
        DebugOverlay { period_started_us: None, frame_intervals: 0, fps: 0 }
    }
}

} // verus!
