//! Drawing into the one-bit pixel buffer of the 128 x 64 Norns OLED screen.
//!
//! Pixels are packed eight to a byte: the byte at `(y / 8) * width + x` holds
//! column `x` of the eight rows of band `y / 8`, row `y % 8` in bit `y % 8`.

use vstd::prelude::*;
use vstd::string::*;
use crate::text::{decimal, push_decimal};

verus! {

/// Screen width in pixels.
pub const SCREEN_WIDTH: usize = 128;
/// Screen height in pixels.
pub const SCREEN_HEIGHT: usize = 64;
/// Bytes of the packed pixel buffer.
pub const SCREEN_BYTES: usize = 1024;
/// Pixels on the screen (width times height).
pub const SCREEN_PIXELS: usize = 8192;

/// The byte of a pixel in a 16-bit frame: both bytes of white (0xFFFF)
/// when lit, of black (0x0000) when dark.
pub open spec fn rgb565_byte(on: bool) -> u8 {
    if on {
        0xFF
    } else {
        0x00
    }
}
/// Glyphs in the font table.
pub const FONT_GLYPHS: usize = 59;

/// Column bitmaps of the 6 x 8 font, bit `r` of a column being row `r`.
/// The table runs from the space character to 'Z', one glyph per character
/// code, so that a character code `c` in 32..=90 selects entry `c - 32`.
pub const FONT_6X8: [[u8; 6]; 59] = [
    // Space (32)
    [0x00, 0x00, 0x00, 0x00, 0x00, 0x00],
    // ! (33)
    [0x00, 0x00, 0x5F, 0x00, 0x00, 0x00],
    // " (34)
    [0x00, 0x07, 0x00, 0x07, 0x00, 0x00],
    // # (35)
    [0x14, 0x7F, 0x14, 0x7F, 0x14, 0x00],
    // $ (36)
    [0x24, 0x2A, 0x7F, 0x2A, 0x12, 0x00],
    // % (37)
    [0x23, 0x13, 0x08, 0x64, 0x62, 0x00],
    // & (38)
    [0x36, 0x49, 0x55, 0x22, 0x50, 0x00],
    // ' (39)
    [0x00, 0x05, 0x03, 0x00, 0x00, 0x00],
    // ( (40)
    [0x00, 0x1C, 0x22, 0x41, 0x00, 0x00],
    // ) (41)
    [0x00, 0x41, 0x22, 0x1C, 0x00, 0x00],
    // * (42)
    [0x08, 0x2A, 0x1C, 0x2A, 0x08, 0x00],
    // + (43)
    [0x08, 0x08, 0x3E, 0x08, 0x08, 0x00],
    // , (44)
    [0x00, 0x50, 0x30, 0x00, 0x00, 0x00],
    // - (45)
    [0x08, 0x08, 0x08, 0x08, 0x08, 0x00],
    // . (46)
    [0x00, 0x60, 0x60, 0x00, 0x00, 0x00],
    // / (47)
    [0x20, 0x10, 0x08, 0x04, 0x02, 0x00],
    // 0 (48)
    [0x3E, 0x51, 0x49, 0x45, 0x3E, 0x00],
    // 1 (49)
    [0x00, 0x42, 0x7F, 0x40, 0x00, 0x00],
    // 2 (50)
    [0x42, 0x61, 0x51, 0x49, 0x46, 0x00],
    // 3 (51)
    [0x21, 0x41, 0x45, 0x4B, 0x31, 0x00],
    // 4 (52)
    [0x18, 0x14, 0x12, 0x7F, 0x10, 0x00],
    // 5 (53)
    [0x27, 0x45, 0x45, 0x45, 0x39, 0x00],
    // 6 (54)
    [0x3C, 0x4A, 0x49, 0x49, 0x30, 0x00],
    // 7 (55)
    [0x01, 0x71, 0x09, 0x05, 0x03, 0x00],
    // 8 (56)
    [0x36, 0x49, 0x49, 0x49, 0x36, 0x00],
    // 9 (57)
    [0x06, 0x49, 0x49, 0x29, 0x1E, 0x00],
    // : (58)
    [0x00, 0x36, 0x36, 0x00, 0x00, 0x00],
    // ; (59)
    [0x00, 0x56, 0x36, 0x00, 0x00, 0x00],
    // < (60)
    [0x00, 0x08, 0x14, 0x22, 0x41, 0x00],
    // = (61)
    [0x14, 0x14, 0x14, 0x14, 0x14, 0x00],
    // > (62)
    [0x41, 0x22, 0x14, 0x08, 0x00, 0x00],
    // ? (63)
    [0x02, 0x01, 0x51, 0x09, 0x06, 0x00],
    // @ (64)
    [0x32, 0x49, 0x79, 0x41, 0x3E, 0x00],
    // A (65)
    [0x7E, 0x11, 0x11, 0x11, 0x7E, 0x00],
    // B (66)
    [0x7F, 0x49, 0x49, 0x49, 0x36, 0x00],
    // C (67)
    [0x3E, 0x41, 0x41, 0x41, 0x22, 0x00],
    // D (68)
    [0x7F, 0x41, 0x41, 0x22, 0x1C, 0x00],
    // E (69)
    [0x7F, 0x49, 0x49, 0x49, 0x41, 0x00],
    // F (70)
    [0x7F, 0x09, 0x09, 0x01, 0x01, 0x00],
    // G (71)
    [0x3E, 0x41, 0x41, 0x51, 0x32, 0x00],
    // H (72)
    [0x7F, 0x08, 0x08, 0x08, 0x7F, 0x00],
    // I (73)
    [0x00, 0x41, 0x7F, 0x41, 0x00, 0x00],
    // J (74)
    [0x20, 0x40, 0x41, 0x3F, 0x01, 0x00],
    // K (75)
    [0x7F, 0x08, 0x14, 0x22, 0x41, 0x00],
    // L (76)
    [0x7F, 0x40, 0x40, 0x40, 0x40, 0x00],
    // M (77)
    [0x7F, 0x02, 0x04, 0x02, 0x7F, 0x00],
    // N (78)
    [0x7F, 0x04, 0x08, 0x10, 0x7F, 0x00],
    // O (79)
    [0x3E, 0x41, 0x41, 0x41, 0x3E, 0x00],
    // P (80)
    [0x7F, 0x09, 0x09, 0x09, 0x06, 0x00],
    // Q (81)
    [0x3E, 0x41, 0x51, 0x21, 0x5E, 0x00],
    // R (82)
    [0x7F, 0x09, 0x19, 0x29, 0x46, 0x00],
    // S (83)
    [0x46, 0x49, 0x49, 0x49, 0x31, 0x00],
    // T (84)
    [0x01, 0x01, 0x7F, 0x01, 0x01, 0x00],
    // U (85)
    [0x3F, 0x40, 0x40, 0x40, 0x3F, 0x00],
    // V (86)
    [0x1F, 0x20, 0x40, 0x20, 0x1F, 0x00],
    // W (87)
    [0x7F, 0x20, 0x18, 0x20, 0x7F, 0x00],
    // X (88)
    [0x63, 0x14, 0x08, 0x14, 0x63, 0x00],
    // Y (89)
    [0x03, 0x04, 0x78, 0x04, 0x03, 0x00],
    // Z (90)
    [0x61, 0x51, 0x49, 0x45, 0x43, 0x00],
];

/// Bit `bit` of a buffer byte, as the screen reads it.
pub open spec fn byte_bit(b: u8, bit: int) -> bool {
    b & (1u8 << (bit as u8)) != 0u8
}

/// A pixel position that lies on the screen.
pub open spec fn on_screen(x: int, y: int) -> bool {
    0 <= x < SCREEN_WIDTH && 0 <= y < SCREEN_HEIGHT
}

/// The rectangle of `w` x `h` pixels whose top-left pixel is (x, y).
pub open spec fn in_rect(px: int, py: int, x: int, y: int, w: int, h: int) -> bool {
    x <= px < x + w && y <= py < y + h
}

/// The pixels that outlining a `w` x `h` rectangle at (x, y) turns on: the
/// top row and the left column always, the bottom row and the right column
/// when the rectangle is taller, respectively wider, than one pixel.
pub open spec fn on_outline(px: int, py: int, x: int, y: int, w: int, h: int) -> bool {
    ||| (py == y && x <= px < x + w)
    ||| (h > 1 && py == y + h - 1 && x <= px < x + w)
    ||| (px == x && y <= py < y + h)
    ||| (w > 1 && px == x + w - 1 && y <= py < y + h)
}

/// Font entry that a character selects: its own glyph (entry code minus 32)
/// for codes 32..=90, the space glyph otherwise.
pub open spec fn font_index(c: char) -> int {
    if 32 <= (c as int) <= 90 {
        (c as int) - 32
    } else {
        0
    }
}

/// Whether glyph `index` lights the pixel at column `col`, row `row` of its cell.
pub open spec fn glyph_pixel(index: int, col: int, row: int) -> bool {
    byte_bit(FONT_6X8[index][col], row)
}

/// Whether drawing `text` with its first character at (x, y) puts a glyph
/// pixel at (px, py): characters stand six pixels apart, those that would not
/// fit whole on the screen are left out with all that follow.
pub open spec fn text_covers(text: Seq<char>, x: int, y: int, px: int, py: int) -> bool {
    let k = (px - x) / 6;
    &&& on_screen(px, py)
    &&& x <= px
    &&& k < text.len()
    &&& x + 6 * k + 6 <= SCREEN_WIDTH
    &&& y <= py < y + 8
}

/// The glyph pixel that `text` drawn at (x, y) puts at (px, py).
pub open spec fn text_pixel(text: Seq<char>, x: int, y: int, px: int, py: int) -> bool {
    glyph_pixel(font_index(text[(px - x) / 6]), (px - x) % 6, py - y)
}

proof fn lemma_text_cell(px: int, x: int, i: int)
    requires
        x <= px,
        0 <= i,
    ensures
        (x + 6 * i <= px < x + 6 * i + 6) <==> ((px - x) / 6 == i),
        (px - x) / 6 == i ==> (px - x) % 6 == px - (x + 6 * i),
        (px - x) / 6 >= 0,
        (px - x) / 6 < i ==> px < x + 6 * i,
{
}

/// Whether the sequencer view shows cell (c, r) of `grid` (indexed
/// `[column][row]`): the first 16 columns and 7 rows are shown, a cell when it
/// is set or stands in the current step's column (steps count from 1).
pub open spec fn grid_cell_shown(grid: Seq<Vec<u8>>, current_step: int, c: int, r: int) -> bool {
    &&& 0 <= c < 16
    &&& c < grid.len()
    &&& 0 <= r < 7
    &&& r < grid[c]@.len()
    &&& (c + 1 == current_step || grid[c]@[r] > 0)
}

/// Whether the sequencer view lights (px, py): each shown cell is a block of
/// 2 x 5 pixels, columns 3 pixels apart from x = 64, rows 6 apart from y = 8.
pub open spec fn grid_covers(grid: Seq<Vec<u8>>, current_step: int, px: int, py: int) -> bool {
    exists|c: int, r: int|
        #[trigger] grid_cell_shown(grid, current_step, c, r) && in_rect(
            px,
            py,
            64 + 3 * c,
            8 + 6 * r,
            2,
            5,
        )
}

spec fn grid_covers_upto(
    grid: Seq<Vec<u8>>,
    current_step: int,
    col: int,
    row: int,
    px: int,
    py: int,
) -> bool {
    exists|c: int, r: int|
        #[trigger] grid_cell_shown(grid, current_step, c, r) && (c < col || (c == col && r < row))
            && in_rect(px, py, 64 + 3 * c, 8 + 6 * r, 2, 5)
}

/// Dot `i` (1 to 4) of the beat indicator: a 3 x 3 square at x = 108 + 4(i - 1),
/// y = 2, whose centre is lit only when `i` is the beat shown.
pub open spec fn beat_dot(i: int, beat: int, px: int, py: int) -> bool {
    let x = 108 + 4 * (i - 1);
    &&& in_rect(px, py, x, 2, 3, 3)
    &&& (px != x + 1 || py != 3 || i == beat)
}

/// Whether the beat indicator lights (px, py).
pub open spec fn beat_covers(beat: int, px: int, py: int) -> bool {
    exists|i: int| 1 <= i <= 4 && #[trigger] beat_dot(i, beat, px, py)
}

/// Step box `s` (counted from 1) of `total` along the bottom edge: boxes are
/// `128 / total` pixels apart and one pixel narrower, six pixels high from
/// y = 56; the current step's box is filled, the others outlined.
pub open spec fn step_box(s: int, current: int, total: int, px: int, py: int) -> bool {
    let w = (SCREEN_WIDTH as int) / total;
    let x = (s - 1) * w;
    if s == current {
        in_rect(px, py, x, 56, w - 1, 6)
    } else {
        on_outline(px, py, x, 56, w - 1, 6)
    }
}

/// Whether the step indicators light (px, py).
pub open spec fn steps_cover(current: int, total: int, px: int, py: int) -> bool {
    &&& on_screen(px, py)
    &&& exists|s: int| 1 <= s <= total && #[trigger] step_box(s, current, total, px, py)
}

proof fn lemma_step_box_x(s: int, total: int)
    requires
        1 <= total <= 128int,
        1 <= s <= total,
    ensures
        0 <= (s - 1) * (128int / total),
        (s - 1) * (128int / total) + (128int / total) <= 128int,
        1 <= 128int / total,
{
    assert(1 <= 128int / total) by (nonlinear_arith)
        requires
            1 <= total <= 128int,
    ;
    assert((128int / total) * total <= 128) by (nonlinear_arith)
        requires
            1 <= total <= 128int,
    ;
    assert(0 <= (s - 1) * (128int / total)) by (nonlinear_arith)
        requires
            1 <= s,
            1 <= 128int / total,
    ;
    assert((s - 1) * (128int / total) + (128int / total) <= total * (128int / total)) by (nonlinear_arith)
        requires
            s <= total,
            1 <= 128int / total,
    ;
}

/// The status lines of the screen: the step at (1, 21), the transport at
/// (1, 35) and the last MIDI note, if any, at (1, 49).
pub open spec fn status_lines(step: usize, running: bool, last_note: Option<Seq<char>>) -> Seq<(Seq<char>, int)> {
    let lines = seq![
        ("Step: "@ + decimal(step as nat), 21int),
        (if running { "RUNNING"@ } else { "STOPPED"@ }, 35int),
    ];
    match last_note {
        Some(n) => lines.push(("MIDI: "@ + n, 49int)),
        None => lines,
    }
}

/// The status screen at (px, py): the glyph pixel of a status line there,
/// else whether the beat indicator lights it.
pub open spec fn status_pixel(lines: Seq<(Seq<char>, int)>, beat: int, px: int, py: int) -> bool {
    if exists|k: int| 0 <= k < lines.len() && text_covers(lines[k].0, 1, lines[k].1, px, py) {
        let k = choose|k: int| 0 <= k < lines.len() && text_covers(lines[k].0, 1, lines[k].1, px, py);
        text_pixel(lines[k].0, 1, lines[k].1, px, py)
    } else {
        beat_covers(beat, px, py)
    }
}

/// The status lines and the beat indicator occupy separate bands of rows,
/// so at most one of them covers a pixel.
proof fn lemma_status_regions(lines: Seq<(Seq<char>, int)>, beat: int, px: int, py: int)
    requires
        2 <= lines.len() <= 3,
        lines[0].1 == 21,
        lines[1].1 == 35,
        lines.len() == 3 ==> lines[2].1 == 49,
    ensures
        text_covers(lines[0].0, 1, 21, px, py) ==> 21 <= py < 29,
        text_covers(lines[1].0, 1, 35, px, py) ==> 35 <= py < 43,
        lines.len() == 3 && text_covers(lines[2].0, 1, 49, px, py) ==> 49 <= py < 57,
        beat_covers(beat, px, py) ==> 2 <= py < 5,
        status_pixel(lines, beat, px, py) == if text_covers(lines[0].0, 1, 21, px, py) {
            text_pixel(lines[0].0, 1, 21, px, py)
        } else if text_covers(lines[1].0, 1, 35, px, py) {
            text_pixel(lines[1].0, 1, 35, px, py)
        } else if lines.len() == 3 && text_covers(lines[2].0, 1, 49, px, py) {
            text_pixel(lines[2].0, 1, 49, px, py)
        } else {
            beat_covers(beat, px, py)
        },
{
    if beat_covers(beat, px, py) {
        let i = choose|i: int| 1 <= i <= 4 && #[trigger] beat_dot(i, beat, px, py);
    }
    if exists|k: int| 0 <= k < lines.len() && text_covers(lines[k].0, 1, lines[k].1, px, py) {
        let k = choose|k: int| 0 <= k < lines.len() && text_covers(lines[k].0, 1, lines[k].1, px, py);
        assert(k == 0 || k == 1 || k == 2);
    } else {
        assert(!text_covers(lines[0].0, 1, lines[0].1, px, py));
        assert(!text_covers(lines[1].0, 1, lines[1].1, px, py));
        if lines.len() == 3 {
            assert(!text_covers(lines[2].0, 1, lines[2].1, px, py));
        }
    }
}

proof fn lemma_bit_or(b: u8, i: u8, j: u8)
    requires
        i < 8,
        j < 8,
    ensures
        ((b | (1u8 << i)) & (1u8 << j) != 0u8) == (i == j || b & (1u8 << j) != 0u8),
        ((b & !(1u8 << i)) & (1u8 << j) != 0u8) == (i != j && b & (1u8 << j) != 0u8),
{
    assert(((b | (1u8 << i)) & (1u8 << j) != 0u8) == (i == j || b & (1u8 << j) != 0u8))
        by (bit_vector)
        requires
            i < 8,
            j < 8,
    ;
    assert(((b & !(1u8 << i)) & (1u8 << j) != 0u8) == (i != j && b & (1u8 << j) != 0u8))
        by (bit_vector)
        requires
            i < 8,
            j < 8,
    ;
}

proof fn lemma_zero_byte(j: u8)
    ensures
        0u8 & (1u8 << j) == 0u8,
{
    assert(0u8 & (1u8 << j) == 0u8) by (bit_vector);
}

/// Two on-screen pixels share a buffer byte only within one column and band.
proof fn lemma_byte_index(x: int, y: int, px: int, py: int)
    requires
        on_screen(x, y),
        on_screen(px, py),
    ensures
        0 <= (y / 8) * 128 + x < 1024,
        (y / 8) * 128 + x == (py / 8) * 128 + px ==> x == px && y / 8 == py / 8,
        x == px && y / 8 == py / 8 && y % 8 == py % 8 ==> y == py,
{
}

/// `after` is `before` with pixel (x, y) set to `on` when it lies on the
/// screen, and nothing else changed.
pub open spec fn pixel_written(before: ScreenManager, after: ScreenManager, x: int, y: int, on: bool) -> bool {
    &&& after.same_settings(&before)
    &&& forall|px: int, py: int|
        #[trigger] after.pixel_on(px, py) == if px == x && py == y && on_screen(px, py) {
            on
        } else {
            before.pixel_on(px, py)
        }
}

/// Reading a pixel back gives what was last written to it, and writing a
/// pixel off the screen changes no pixel and lights nothing.
pub proof fn law_pixel_read_back(before: ScreenManager, after: ScreenManager, x: int, y: int, on: bool)
    requires
        pixel_written(before, after, x, y, on),
    ensures
        on_screen(x, y) ==> after.pixel_on(x, y) == on,
        !on_screen(x, y) ==> !after.pixel_on(x, y),
        forall|px: int, py: int| (px != x || py != y) ==> #[trigger] after.pixel_on(px, py) == before.pixel_on(px, py),
{
    assert(after.pixel_on(x, y) == if on_screen(x, y) { on } else { before.pixel_on(x, y) });
    if !on_screen(x, y) {
        after.lemma_off_screen_dark(x, y);
    }
}

/// The pixel buffer of the screen and what is drawn next to it.
pub struct ScreenManager {
    width: usize,
    height: usize,
    buffer: Vec<u8>,
    cursor_x: usize,
    cursor_y: usize,
    beat_indicator: usize,
}

impl ScreenManager {
    /// The dimensions are those of the Norns screen and the buffer holds one
    /// bit per pixel.
    pub closed spec fn wf(&self) -> bool {
        &&& self.width == SCREEN_WIDTH
        &&& self.height == SCREEN_HEIGHT
        &&& self.buffer@.len() == SCREEN_BYTES
    }

    /// Whether pixel (x, y) is lit; every pixel off the screen is dark.
    pub closed spec fn pixel_on(&self, x: int, y: int) -> bool {
        &&& 0 <= x < self.width
        &&& 0 <= y < self.height
        &&& byte_bit(self.buffer@[(y / 8) * self.width + x], y % 8)
    }

    /// The text cursor (column, row).
    pub closed spec fn cursor(&self) -> (int, int) {
        (self.cursor_x as int, self.cursor_y as int)
    }

    /// The beat that the indicator shows (1 to 4 light one of its dots).
    pub closed spec fn beat(&self) -> int {
        self.beat_indicator as int
    }

    /// Width and height in pixels.
    pub closed spec fn dimensions(&self) -> (int, int) {
        (self.width as int, self.height as int)
    }

    /// A pixel off the screen is never lit.
    pub proof fn lemma_off_screen_dark(&self, x: int, y: int)
        requires
            self.wf(),
            !on_screen(x, y),
        ensures
            !self.pixel_on(x, y),
    {
    }

    /// Everything but the pixels is as in `other`.
    pub open spec fn same_settings(&self, other: &ScreenManager) -> bool {
        &&& self.wf()
        &&& self.cursor() == other.cursor()
        &&& self.beat() == other.beat()
    }

    /// A blank screen with the cursor at the origin and no beat shown.
    pub fn new() -> (r: Result<ScreenManager, String>)
        ensures
            r is Ok,
            r matches Ok(s) ==> {
                &&& s.wf()
                &&& s.cursor() == (0int, 0int)
                &&& s.beat() == 0
                &&& forall|px: int, py: int| !(#[trigger] s.pixel_on(px, py))
            },
    {
        let mut buffer: Vec<u8> = Vec::new();
        let mut i: usize = 0;
        while i < SCREEN_BYTES
            invariant
                i <= SCREEN_BYTES,
                buffer@.len() == i,
                forall|k: int| 0 <= k < i ==> buffer@[k] == 0u8,
            decreases SCREEN_BYTES - i,
        {
            buffer.push(0u8);
            i = i + 1;
        }
        let s = ScreenManager {
            width: SCREEN_WIDTH,
            height: SCREEN_HEIGHT,
            buffer,
            cursor_x: 0,
            cursor_y: 0,
            beat_indicator: 0,
        };
        assert forall|px: int, py: int| !(#[trigger] s.pixel_on(px, py)) by {
            if on_screen(px, py) {
                lemma_byte_index(px, py, px, py);
                lemma_zero_byte((py % 8) as u8);
            }
        }
        Ok(s)
    }

    /// Darkens every pixel and puts the cursor back at the origin.
    pub fn clear(&mut self)
        requires
            old(self).wf(),
        ensures
            final(self).wf(),
            final(self).cursor() == (0int, 0int),
            final(self).beat() == old(self).beat(),
            forall|px: int, py: int| !(#[trigger] final(self).pixel_on(px, py)),
    {
        let mut i: usize = 0;
        while i < self.buffer.len()
            invariant
                self.wf(),
                i <= self.buffer@.len(),
                forall|k: int| 0 <= k < i ==> self.buffer@[k] == 0u8,
                self.beat_indicator == old(self).beat_indicator,
            decreases self.buffer@.len() - i,
        {
            self.buffer.set(i, 0u8);
            i = i + 1;
        }
        self.cursor_x = 0;
        self.cursor_y = 0;
        assert forall|px: int, py: int| !(#[trigger] self.pixel_on(px, py)) by {
            if on_screen(px, py) {
                lemma_byte_index(px, py, px, py);
                lemma_zero_byte((py % 8) as u8);
            }
        }
    }

    /// Lights or darkens one pixel; a position off the screen changes nothing.
    pub fn set_pixel(&mut self, x: usize, y: usize, on: bool)
        requires
            old(self).wf(),
        ensures
            pixel_written(*old(self), *final(self), x as int, y as int, on),
    {
        if x >= self.width || y >= self.height {
            return;
        }
        let byte_index = (y / 8) * self.width + x;
        let bit_index = y % 8;
        proof {
            lemma_byte_index(x as int, y as int, x as int, y as int);
        }
        if byte_index < self.buffer.len() {
            let ghost before = *self;
            let bit: u8 = 1u8 << (bit_index as u8);
            let old_byte = self.buffer[byte_index];
            let new_byte = if on {
                old_byte | bit
            } else {
                old_byte & !bit
            };
            self.buffer.set(byte_index, new_byte);
            assert forall|px: int, py: int|
                #[trigger] self.pixel_on(px, py) == if px == x && py == y && on_screen(px, py) {
                    on
                } else {
                    before.pixel_on(px, py)
                } by {
                if on_screen(px, py) {
                    lemma_byte_index(x as int, y as int, px, py);
                    lemma_bit_or(old_byte, bit_index as u8, (py % 8) as u8);
                    let k = (py / 8) * 128 + px;
                    if k == byte_index {
                        assert(self.buffer@[k] == new_byte);
                    } else {
                        assert(self.buffer@[k] == before.buffer@[k]);
                    }
                }
            }
        }
    }

    /// Whether the pixel at (x, y) is lit; `false` off the screen.
    pub fn get_pixel(&self, x: usize, y: usize) -> (on: bool)
        requires
            self.wf(),
        ensures
            on == self.pixel_on(x as int, y as int),
    {
        if x >= self.width || y >= self.height {
            return false;
        }
        let byte_index = (y / 8) * self.width + x;
        let bit_index = y % 8;
        proof {
            lemma_byte_index(x as int, y as int, x as int, y as int);
        }
        if byte_index < self.buffer.len() {
            (self.buffer[byte_index] & (1u8 << (bit_index as u8))) != 0
        } else {
            false
        }
    }

    /// The screen as a 16-bit RGB565 frame, row by row, two little-endian
    /// bytes per pixel: white (0xFFFF) for a lit pixel, black otherwise.
    #[verifier::spinoff_prover]
    pub fn convert_buffer_to_framebuffer(&self) -> (frame: Vec<u8>)
        requires
            self.wf(),
        ensures
            frame@.len() == 2 * SCREEN_PIXELS,
            forall|k: int|
                0 <= k < SCREEN_PIXELS ==> #[trigger] frame@[2 * k] == rgb565_byte(self.pixel_on(k % 128, k / 128))
                    && frame@[2 * k + 1] == rgb565_byte(self.pixel_on(k % 128, k / 128)),
    {
        let mut frame: Vec<u8> = Vec::new();
        let mut k: usize = 0;
        while k < SCREEN_PIXELS
            invariant
                self.wf(),
                k <= SCREEN_PIXELS,
                frame@.len() == 2 * k,
                forall|j: int|
                    0 <= j < k ==> #[trigger] frame@[2 * j] == rgb565_byte(self.pixel_on(j % 128, j / 128))
                        && frame@[2 * j + 1] == rgb565_byte(self.pixel_on(j % 128, j / 128)),
            decreases SCREEN_PIXELS - k,
        {
            let on = self.get_pixel(k % 128, k / 128);
            let b: u8 = if on { 0xFF } else { 0x00 };
            let ghost before = frame@;
            frame.push(b);
            frame.push(b);
            assert(frame@ == before.push(b).push(b));
            assert forall|j: int| 0 <= j < k + 1 implies #[trigger] frame@[2 * j] == rgb565_byte(
                self.pixel_on(j % 128, j / 128),
            ) && frame@[2 * j + 1] == rgb565_byte(self.pixel_on(j % 128, j / 128)) by {
                if j < k {
                    assert(frame@[2 * j] == before[2 * j]);
                    assert(frame@[2 * j + 1] == before[2 * j + 1]);
                }
            }
            k = k + 1;
        }
        frame
    }

    /// Width and height of the screen in pixels.
    pub fn get_dimensions(&self) -> (d: (usize, usize))
        requires
            self.wf(),
        ensures
            d == (SCREEN_WIDTH, SCREEN_HEIGHT),
            (d.0 as int, d.1 as int) == self.dimensions(),
    {
        (self.width, self.height)
    }

    /// Lights the `width` pixels of row `y` from column `x` rightwards, as far
    /// as they lie on the screen.
    pub fn draw_hline(&mut self, x: usize, y: usize, width: usize)
        requires
            old(self).wf(),
            x + width <= usize::MAX + 1,
        ensures
            final(self).same_settings(old(self)),
            forall|px: int, py: int|
                #[trigger] final(self).pixel_on(px, py) == (old(self).pixel_on(px, py) || (
                on_screen(px, py) && in_rect(px, py, x as int, y as int, width as int, 1))),
    {
        let ghost start = *self;
        let mut i: usize = 0;
        while i < width && x + i < self.width
            invariant
                self.same_settings(&start),
                i <= width,
                i > 0 ==> x + i <= SCREEN_WIDTH,
                x + width <= usize::MAX + 1,
                forall|px: int, py: int|
                    #[trigger] self.pixel_on(px, py) == (start.pixel_on(px, py) || (on_screen(
                        px,
                        py,
                    ) && in_rect(px, py, x as int, y as int, i as int, 1))),
            decreases width - i,
        {
            self.set_pixel(x + i, y, true);
            i = i + 1;
        }
    }

    /// Lights the `height` pixels of column `x` from row `y` downwards, as far
    /// as they lie on the screen.
    pub fn draw_vline(&mut self, x: usize, y: usize, height: usize)
        requires
            old(self).wf(),
            y + height <= usize::MAX + 1,
        ensures
            final(self).same_settings(old(self)),
            forall|px: int, py: int|
                #[trigger] final(self).pixel_on(px, py) == (old(self).pixel_on(px, py) || (
                on_screen(px, py) && in_rect(px, py, x as int, y as int, 1, height as int))),
    {
        let ghost start = *self;
        let mut i: usize = 0;
        while i < height && y + i < self.height
            invariant
                self.same_settings(&start),
                i <= height,
                i > 0 ==> y + i <= SCREEN_HEIGHT,
                y + height <= usize::MAX + 1,
                forall|px: int, py: int|
                    #[trigger] self.pixel_on(px, py) == (start.pixel_on(px, py) || (on_screen(
                        px,
                        py,
                    ) && in_rect(px, py, x as int, y as int, 1, i as int))),
            decreases height - i,
        {
            self.set_pixel(x, y + i, true);
            i = i + 1;
        }
    }

    /// Lights the outline of the `width` x `height` rectangle at (x, y).
    pub fn draw_rect(&mut self, x: usize, y: usize, width: usize, height: usize)
        requires
            old(self).wf(),
            x + width <= usize::MAX + 1,
            y + height <= usize::MAX + 1,
            width > 1 ==> x + width <= usize::MAX,
            height > 1 ==> y + height <= usize::MAX,
        ensures
            final(self).same_settings(old(self)),
            forall|px: int, py: int|
                #[trigger] final(self).pixel_on(px, py) == (old(self).pixel_on(px, py) || (
                on_screen(px, py) && on_outline(
                    px,
                    py,
                    x as int,
                    y as int,
                    width as int,
                    height as int,
                ))),
    {
        self.draw_hline(x, y, width);
        if height > 1 {
            self.draw_hline(x, y + height - 1, width);
        }
        self.draw_vline(x, y, height);
        if width > 1 {
            self.draw_vline(x + width - 1, y, height);
        }
    }

    /// Lights every pixel of the `width` x `height` rectangle at (x, y).
    pub fn fill_rect(&mut self, x: usize, y: usize, width: usize, height: usize)
        requires
            old(self).wf(),
            y + height <= usize::MAX + 1,
            y < SCREEN_HEIGHT && height > 0 ==> x + width <= usize::MAX + 1,
        ensures
            final(self).same_settings(old(self)),
            forall|px: int, py: int|
                #[trigger] final(self).pixel_on(px, py) == (old(self).pixel_on(px, py) || (
                on_screen(px, py) && in_rect(
                    px,
                    py,
                    x as int,
                    y as int,
                    width as int,
                    height as int,
                ))),
    {
        let ghost start = *self;
        let mut row: usize = 0;
        while row < height && y + row < self.height
            invariant
                self.same_settings(&start),
                row <= height,
                row > 0 ==> y + row <= SCREEN_HEIGHT,
                y + height <= usize::MAX + 1,
                y < SCREEN_HEIGHT && height > 0 ==> x + width <= usize::MAX + 1,
                forall|px: int, py: int|
                    #[trigger] self.pixel_on(px, py) == (start.pixel_on(px, py) || (on_screen(
                        px,
                        py,
                    ) && in_rect(px, py, x as int, y as int, width as int, row as int))),
            decreases height - row,
        {
            self.draw_hline(x, y + row, width);
            row = row + 1;
        }
    }

    /// Draws one character cell, six pixels wide and eight high, whose
    /// top-left pixel is (x, y); every pixel of the cell is set to the glyph.
    fn draw_char(&mut self, x: usize, y: usize, ch: char)
        requires
            old(self).wf(),
        ensures
            final(self).same_settings(old(self)),
            forall|px: int, py: int|
                #[trigger] final(self).pixel_on(px, py) == if on_screen(px, py) && in_rect(
                    px,
                    py,
                    x as int,
                    y as int,
                    6,
                    8,
                ) {
                    glyph_pixel(font_index(ch), px - x, py - y)
                } else {
                    old(self).pixel_on(px, py)
                },
    {
        let code = ch as u32;
        let index: usize = if code >= 32 && code <= 90 {
            (code - 32) as usize
        } else {
            0
        };
        if index < FONT_GLYPHS {
            let ghost start = *self;
            let mut col: usize = 0;
            while col < 6 && x + col < self.width
                invariant
                    self.same_settings(&start),
                    col <= 6,
                    col > 0 ==> x + col <= SCREEN_WIDTH,
                    index == font_index(ch),
                    index < FONT_GLYPHS,
                    forall|px: int, py: int|
                        #[trigger] self.pixel_on(px, py) == if on_screen(px, py) && in_rect(
                            px,
                            py,
                            x as int,
                            y as int,
                            col as int,
                            8,
                        ) {
                            glyph_pixel(index as int, px - x, py - y)
                        } else {
                            start.pixel_on(px, py)
                        },
                decreases 6 - col,
            {
                let byte = FONT_6X8[index][col];
                let mut row: usize = 0;
                while row < 8 && y + row < self.height
                    invariant
                        self.same_settings(&start),
                        col < 6,
                        x + col < SCREEN_WIDTH,
                        row <= 8,
                        row > 0 ==> y + row <= SCREEN_HEIGHT,
                        index == font_index(ch),
                        index < FONT_GLYPHS,
                        byte == FONT_6X8[index as int][col as int],
                        forall|px: int, py: int|
                            #[trigger] self.pixel_on(px, py) == if on_screen(px, py) && (in_rect(
                                px,
                                py,
                                x as int,
                                y as int,
                                col as int,
                                8,
                            ) || (px == x + col && y <= py < y + row)) {
                                glyph_pixel(index as int, px - x, py - y)
                            } else {
                                start.pixel_on(px, py)
                            },
                    decreases 8 - row,
                {
                    let lit = (byte & (1u8 << (row as u8))) != 0;
                    self.set_pixel(x + col, y + row, lit);
                    row = row + 1;
                }
                col = col + 1;
            }
        }
    }

    /// Draws `text` with its first character cell at (x, y), six pixels per
    /// character, stopping at the first character that would not fit whole
    /// on the screen.
    pub fn draw_text(&mut self, x: usize, y: usize, text: &str)
        requires
            old(self).wf(),
            text@.len() > 0 ==> x + 6 <= usize::MAX,
        ensures
            final(self).same_settings(old(self)),
            forall|px: int, py: int|
                #[trigger] final(self).pixel_on(px, py) == if text_covers(
                    text@,
                    x as int,
                    y as int,
                    px,
                    py,
                ) {
                    text_pixel(text@, x as int, y as int, px, py)
                } else {
                    old(self).pixel_on(px, py)
                },
    {
        let ghost start = *self;
        let n = text.unicode_len();
        let mut current_x = x;
        let mut i: usize = 0;
        while i < n && current_x + 6 <= self.width
            invariant
                self.same_settings(&start),
                n == text@.len(),
                i <= n,
                current_x == x + 6 * i,
                i > 0 ==> current_x <= SCREEN_WIDTH,
                n > 0 ==> x + 6 <= usize::MAX,
                forall|px: int, py: int|
                    #[trigger] self.pixel_on(px, py) == if text_covers(
                        text@,
                        x as int,
                        y as int,
                        px,
                        py,
                    ) && (px - x) / 6 < i {
                        text_pixel(text@, x as int, y as int, px, py)
                    } else {
                        start.pixel_on(px, py)
                    },
            decreases n - i,
        {
            let ch = text.get_char(i);
            let ghost before = *self;
            self.draw_char(current_x, y, ch);
            assert forall|px: int, py: int|
                #[trigger] self.pixel_on(px, py) == if text_covers(
                    text@,
                    x as int,
                    y as int,
                    px,
                    py,
                ) && (px - x) / 6 < i + 1 {
                    text_pixel(text@, x as int, y as int, px, py)
                } else {
                    start.pixel_on(px, py)
                } by {
                if x <= px {
                    lemma_text_cell(px, x as int, i as int);
                }
            }
            i = i + 1;
            current_x = current_x + 6;
        }
        assert forall|px: int, py: int|
            #[trigger] self.pixel_on(px, py) == if text_covers(
                text@,
                x as int,
                y as int,
                px,
                py,
            ) {
                text_pixel(text@, x as int, y as int, px, py)
            } else {
                start.pixel_on(px, py)
            } by {
            if x <= px {
                lemma_text_cell(px, x as int, i as int);
            }
        }
    }

    /// Draws the sequencer view of `grid` (indexed `[column][row]`): a 2 x 5
    /// block for each shown cell, see `grid_covers`.
    pub fn draw_grid(&mut self, grid: &[Vec<u8>], current_step: usize, _current_bar: usize)
        requires
            old(self).wf(),
        ensures
            final(self).same_settings(old(self)),
            forall|px: int, py: int|
                #[trigger] final(self).pixel_on(px, py) == (old(self).pixel_on(px, py)
                    || grid_covers(grid@, current_step as int, px, py)),
    {
        let ghost start = *self;
        let ghost g = grid@;
        let mut col: usize = 0;
        while col < grid.len() && col < 16
            invariant
                self.same_settings(&start),
                g == grid@,
                col <= 16,
                col <= g.len(),
                forall|px: int, py: int|
                    #[trigger] self.pixel_on(px, py) == (start.pixel_on(px, py) || grid_covers_upto(
                        g,
                        current_step as int,
                        col as int,
                        0,
                        px,
                        py,
                    )),
            decreases 16 - col,
        {
            let column = &grid[col];
            let mut row: usize = 0;
            while row < column.len() && row < 7
                invariant
                    self.same_settings(&start),
                    g == grid@,
                    col < 16,
                    col < g.len(),
                    column@ == g[col as int]@,
                    row <= 7,
                    row <= column@.len(),
                    forall|px: int, py: int|
                        #[trigger] self.pixel_on(px, py) == (start.pixel_on(px, py)
                            || grid_covers_upto(
                            g,
                            current_step as int,
                            col as int,
                            row as int,
                            px,
                            py,
                        )),
                decreases 7 - row,
            {
                let value = column[row];
                let cell_x = 64 + col * 3;
                let cell_y = 8 + row * 6;
                let ghost before = *self;
                if col + 1 == current_step {
                    if value > 0 {
                        self.fill_rect(cell_x, cell_y, 2, 5);
                    } else {
                        self.draw_rect(cell_x, cell_y, 2, 5);
                    }
                } else if value > 0 {
                    let brightness: u8 = if value >= 2 {
                        2
                    } else {
                        1
                    };
                    if brightness == 2 {
                        self.fill_rect(cell_x, cell_y, 2, 5);
                    } else {
                        self.draw_rect(cell_x, cell_y, 2, 5);
                        self.set_pixel(cell_x + 1, cell_y + 1, true);
                    }
                }
                assert forall|px: int, py: int|
                    #[trigger] self.pixel_on(px, py) == (start.pixel_on(px, py) || grid_covers_upto(
                        g,
                        current_step as int,
                        col as int,
                        row as int + 1,
                        px,
                        py,
                    )) by {
                    if in_rect(px, py, cell_x as int, cell_y as int, 2, 5) && grid_cell_shown(
                        g,
                        current_step as int,
                        col as int,
                        row as int,
                    ) {
                        assert(grid_covers_upto(
                            g,
                            current_step as int,
                            col as int,
                            row as int + 1,
                            px,
                            py,
                        ));
                    }
                    if grid_covers_upto(
                        g,
                        current_step as int,
                        col as int,
                        row as int + 1,
                        px,
                        py,
                    ) {
                        let (c, r) = choose|c: int, r: int|
                            #[trigger] grid_cell_shown(g, current_step as int, c, r) && (c < col
                                || (c == col && r < row + 1)) && in_rect(
                                px,
                                py,
                                64 + 3 * c,
                                8 + 6 * r,
                                2,
                                5,
                            );
                        if !(c == col && r == row) {
                            assert(grid_covers_upto(
                                g,
                                current_step as int,
                                col as int,
                                row as int,
                                px,
                                py,
                            ));
                        }
                    }
                }
                row = row + 1;
            }
            assert forall|px: int, py: int|
                #[trigger] self.pixel_on(px, py) == (start.pixel_on(px, py) || grid_covers_upto(
                    g,
                    current_step as int,
                    col as int + 1,
                    0,
                    px,
                    py,
                )) by {
                if grid_covers_upto(g, current_step as int, col as int + 1, 0, px, py) {
                    let (c, r) = choose|c: int, r: int|
                        #[trigger] grid_cell_shown(g, current_step as int, c, r) && (c < col + 1 || (
                        c == col + 1 && r < 0)) && in_rect(px, py, 64 + 3 * c, 8 + 6 * r, 2, 5);
                    assert(grid_covers_upto(
                        g,
                        current_step as int,
                        col as int,
                        row as int,
                        px,
                        py,
                    ));
                }
                if grid_covers_upto(g, current_step as int, col as int, row as int, px, py) {
                    let (c, r) = choose|c: int, r: int|
                        #[trigger] grid_cell_shown(g, current_step as int, c, r) && (c < col || (c
                            == col && r < row)) && in_rect(px, py, 64 + 3 * c, 8 + 6 * r, 2, 5);
                    assert(grid_covers_upto(g, current_step as int, col as int + 1, 0, px, py));
                }
            }
            col = col + 1;
        }
        assert forall|px: int, py: int|
            #[trigger] self.pixel_on(px, py) == (start.pixel_on(px, py) || grid_covers(
                g,
                current_step as int,
                px,
                py,
            )) by {
            if grid_covers(g, current_step as int, px, py) {
                let (c, r) = choose|c: int, r: int|
                    #[trigger] grid_cell_shown(g, current_step as int, c, r) && in_rect(
                        px,
                        py,
                        64 + 3 * c,
                        8 + 6 * r,
                        2,
                        5,
                    );
                assert(grid_covers_upto(g, current_step as int, col as int, 0, px, py));
            }
            if grid_covers_upto(g, current_step as int, col as int, 0, px, py) {
                let (c, r) = choose|c: int, r: int|
                    #[trigger] grid_cell_shown(g, current_step as int, c, r) && (c < col || (c
                        == col && r < 0)) && in_rect(px, py, 64 + 3 * c, 8 + 6 * r, 2, 5);
                assert(grid_covers(g, current_step as int, px, py));
            }
        }
    }

    /// Draws the four dots of the beat indicator in the top right corner.
    pub fn draw_beat_indicator(&mut self)
        requires
            old(self).wf(),
        ensures
            final(self).same_settings(old(self)),
            forall|px: int, py: int|
                #[trigger] final(self).pixel_on(px, py) == (old(self).pixel_on(px, py)
                    || beat_covers(old(self).beat(), px, py)),
    {
        let ghost start = *self;
        let base_x = self.width - 20;
        let y: usize = 2;
        let mut i: usize = 1;
        while i <= 4
            invariant
                self.same_settings(&start),
                base_x == 108,
                y == 2,
                1 <= i <= 5,
                forall|px: int, py: int|
                    #[trigger] self.pixel_on(px, py) == (start.pixel_on(px, py) || exists|j: int|
                        1 <= j < i && #[trigger] beat_dot(j, start.beat(), px, py)),
            decreases 5 - i,
        {
            let x = base_x + (i - 1) * 4;
            if i == self.beat_indicator {
                self.fill_rect(x, y, 3, 3);
            } else {
                self.draw_rect(x, y, 3, 3);
            }
            assert forall|px: int, py: int|
                #[trigger] self.pixel_on(px, py) == (start.pixel_on(px, py) || exists|j: int|
                    1 <= j < i + 1 && #[trigger] beat_dot(j, start.beat(), px, py)) by {
                if beat_dot(i as int, start.beat(), px, py) {
                    assert(exists|j: int|
                        1 <= j < i + 1 && #[trigger] beat_dot(j, start.beat(), px, py));
                }
                if exists|j: int| 1 <= j < i + 1 && #[trigger] beat_dot(j, start.beat(), px, py) {
                    let j = choose|j: int|
                        1 <= j < i + 1 && #[trigger] beat_dot(j, start.beat(), px, py);
                    if j < i {
                        assert(exists|j: int|
                            1 <= j < i && #[trigger] beat_dot(j, start.beat(), px, py));
                    }
                }
            }
            i = i + 1;
        }
    }

    /// Brings the beat indicator up to date; without a framebuffer device
    /// there is nothing further to copy out.
    pub fn update(&mut self) -> (r: Result<(), String>)
        requires
            old(self).wf(),
        ensures
            r is Ok,
            final(self).same_settings(old(self)),
            forall|px: int, py: int|
                #[trigger] final(self).pixel_on(px, py) == (old(self).pixel_on(px, py)
                    || beat_covers(old(self).beat(), px, py)),
    {
        self.draw_beat_indicator();
        Ok(())
    }

    /// Draws the tempo bar: an outline of 40 x 4 pixels at (64, 2) and, when
    /// `fill_width` is positive, a bar two pixels high and `fill_width - 2`
    /// wide inside it.
    pub fn draw_tempo_bar(&mut self, fill_width: usize)
        requires
            old(self).wf(),
            fill_width <= 40,
        ensures
            final(self).same_settings(old(self)),
            forall|px: int, py: int|
                #[trigger] final(self).pixel_on(px, py) == (old(self).pixel_on(px, py) || (
                on_screen(px, py) && (on_outline(px, py, 64, 2, 40, 4) || (fill_width > 0
                    && in_rect(px, py, 65, 3, fill_width - 2, 2))))),
    {
        let bar_x: usize = 64;
        let bar_y: usize = 2;
        let bar_width: usize = 40;
        let bar_height: usize = 4;
        self.draw_rect(bar_x, bar_y, bar_width, bar_height);
        if fill_width > 0 {
            self.fill_rect(bar_x + 1, bar_y + 1, fill_width.saturating_sub(2), bar_height - 2);
        }
    }

    /// Draws a progress bar: the outline of the `width` x `height` rectangle
    /// at (x, y) and, when `fill_width` exceeds 2, a filled bar inside it
    /// `fill_width - 2` wide.
    pub fn draw_progress_frame(
        &mut self,
        x: usize,
        y: usize,
        width: usize,
        height: usize,
        fill_width: usize,
    )
        requires
            old(self).wf(),
            x + width <= usize::MAX,
            y + height <= usize::MAX,
            fill_width <= width,
            fill_width > 2 ==> height >= 2,
        ensures
            final(self).same_settings(old(self)),
            forall|px: int, py: int|
                #[trigger] final(self).pixel_on(px, py) == (old(self).pixel_on(px, py) || (
                on_screen(px, py) && (on_outline(
                    px,
                    py,
                    x as int,
                    y as int,
                    width as int,
                    height as int,
                ) || (fill_width > 2 && in_rect(
                    px,
                    py,
                    x + 1,
                    y + 1,
                    fill_width - 2,
                    height - 2,
                ))))),
    {
        self.draw_rect(x, y, width, height);
        if fill_width > 2 {
            self.fill_rect(x + 1, y + 1, fill_width - 2, height - 2);
        }
    }

    /// Draws `total_steps` step boxes along the bottom edge, the current
    /// step's filled and the others outlined (see `step_box`).
    pub fn draw_step_indicators(&mut self, current_step: usize, total_steps: usize)
        requires
            old(self).wf(),
            1 <= total_steps <= SCREEN_WIDTH,
        ensures
            final(self).same_settings(old(self)),
            forall|px: int, py: int|
                #[trigger] final(self).pixel_on(px, py) == (old(self).pixel_on(px, py)
                    || steps_cover(current_step as int, total_steps as int, px, py)),
    {
        let ghost start = *self;
        let indicator_y = self.height - 8;
        let indicator_width = self.width / total_steps;
        let mut step: usize = 1;
        while step <= total_steps
            invariant
                self.same_settings(&start),
                1 <= total_steps <= SCREEN_WIDTH,
                1 <= step <= total_steps + 1,
                indicator_y == 56,
                indicator_width == SCREEN_WIDTH / total_steps,
                forall|px: int, py: int|
                    #[trigger] self.pixel_on(px, py) == (start.pixel_on(px, py) || (on_screen(
                        px,
                        py,
                    ) && exists|s: int|
                        1 <= s < step && #[trigger] step_box(
                            s,
                            current_step as int,
                            total_steps as int,
                            px,
                            py,
                        ))),
            decreases total_steps + 1 - step,
        {
            proof {
                lemma_step_box_x(step as int, total_steps as int);
            }
            let x = (step - 1) * indicator_width;
            if step == current_step {
                self.fill_rect(x, indicator_y, indicator_width - 1, 6);
            } else {
                self.draw_rect(x, indicator_y, indicator_width - 1, 6);
            }
            assert forall|px: int, py: int|
                #[trigger] self.pixel_on(px, py) == (start.pixel_on(px, py) || (on_screen(px, py)
                    && exists|s: int|
                    1 <= s < step + 1 && #[trigger] step_box(
                        s,
                        current_step as int,
                        total_steps as int,
                        px,
                        py,
                    ))) by {
                if step_box(step as int, current_step as int, total_steps as int, px, py) {
                    assert(exists|s: int|
                        1 <= s < step + 1 && #[trigger] step_box(
                            s,
                            current_step as int,
                            total_steps as int,
                            px,
                            py,
                        ));
                }
            }
            step = step + 1;
        }
    }

    /// Redraws the status screen: a blank screen with the step number, the
    /// transport state and the last MIDI note (see `status_lines`), then the
    /// beat indicator, drawn also when the indicators are switched off (the
    /// update draws it).
    pub fn update_screen(&mut self, step: usize, running: bool, last_note: Option<&str>, show_beat_indicators: bool) -> (r: Result<(), String>)
        requires
            old(self).wf(),
        ensures
            r is Ok,
            final(self).wf(),
            final(self).cursor() == (0int, 0int),
            final(self).beat() == old(self).beat(),
            forall|px: int, py: int|
                #[trigger] final(self).pixel_on(px, py) == status_pixel(
                    status_lines(step, running, match last_note { Some(n) => Some(n@), None => None }),
                    old(self).beat(),
                    px,
                    py,
                ),
    {
        let ghost lines = status_lines(step, running, match last_note { Some(n) => Some(n@), None => None });
        self.clear();
        let ghost blank = *self;
        let mut step_text = String::from_str("Step: ");
        push_decimal(&mut step_text, step as u64);
        self.draw_text(1, 21, step_text.as_str());
        let ghost after_step = *self;
        let transport_text = if running {
            "RUNNING"
        } else {
            "STOPPED"
        };
        self.draw_text(1, 35, transport_text);
        let ghost after_transport = *self;
        match last_note {
            Some(n) => {
                let mut note_text = String::from_str("MIDI: ");
                note_text.append(n);
                self.draw_text(1, 49, note_text.as_str());
            },
            None => {},
        }
        let ghost texts = *self;
        if show_beat_indicators {
            self.draw_beat_indicator();
        }
        let r = self.update();
        proof {
            assert(lines[0] == (step_text@, 21int));
            assert(lines[1] == (transport_text@, 35int));
            assert forall|px: int, py: int|
                #[trigger] self.pixel_on(px, py) == status_pixel(lines, blank.beat(), px, py) by {
                lemma_status_regions(lines, blank.beat(), px, py);
                if text_covers(lines[0].0, 1, 21, px, py) {
                    assert(status_pixel(lines, blank.beat(), px, py) == text_pixel(lines[0].0, 1, 21, px, py));
                } else if text_covers(lines[1].0, 1, 35, px, py) {
                    assert(status_pixel(lines, blank.beat(), px, py) == text_pixel(lines[1].0, 1, 35, px, py));
                } else if lines.len() == 3 && text_covers(lines[2].0, 1, 49, px, py) {
                    assert(status_pixel(lines, blank.beat(), px, py) == text_pixel(lines[2].0, 1, 49, px, py));
                } else {
                    assert(!blank.pixel_on(px, py));
                }
            }
        }
        r
    }

    /// Chooses the beat that the indicator shows.
    pub fn set_beat_indicator(&mut self, beat: usize)
        requires
            old(self).wf(),
        ensures
            final(self).wf(),
            final(self).beat() == beat,
            final(self).cursor() == old(self).cursor(),
            forall|px: int, py: int|
                #[trigger] final(self).pixel_on(px, py) == old(self).pixel_on(px, py),
    {
        self.beat_indicator = beat;
    }
}

} // verus!
