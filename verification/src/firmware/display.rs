//! Dot-matrix display: an off-screen framebuffer for the 32x8 panel made of
//! four cascaded MAX7219 8x8 modules, the `HH:MM` and `--:--` layouts, and the
//! SPI frames that push it to the chips.
//!
//! The worker that owns the SPI link writes [`init_frames`] once, then each
//! frame calls [`Matrix::render_for`] with the shared phase and time and
//! writes the frames [`Matrix::flush`] returns.

use vstd::prelude::*;

use crate::firmware::state::Phase;

verus! {

/// Number of cascaded MAX7219 chips.
pub const CHIPS: usize = 4;
/// Panel width in columns.
pub const W: usize = 32;
/// Panel height in rows.
pub const H: usize = 8;
/// Intensity register value (0x00..=0x0F).
pub const BRIGHTNESS: u8 = 0x02;
/// Column of the colon dots.
pub const COLON_X: usize = 15;
/// Orientation knob: which chip drives the leftmost 8 columns.
pub const REVERSE_MODULES: bool = true;
/// Orientation knob: column bit order within a chip (mirror left/right).
pub const FLIP_X: bool = false;
/// Orientation knob: top vs bottom row as digit register 1 (mirror up/down).
pub const FLIP_ROWS: bool = false;

/// Left edge of each of the four `HH:MM` digits.
pub open spec fn digit_x(j: int) -> int {
    if j == 0 {
        5
    } else if j == 1 {
        10
    } else if j == 2 {
        19
    } else {
        24
    }
}

/// The 3x5 digit font: row `r` of digit `d`, low three bits, bit 2 leftmost.
pub open spec fn glyph_row(d: int, r: int) -> u8 {
    if d == 0 {
        if r == 0 || r == 4 { 0b111u8 } else { 0b101u8 }
    } else if d == 1 {
        if r == 1 { 0b110u8 } else if r == 4 { 0b111u8 } else { 0b010u8 }
    } else if d == 2 {
        if r == 1 { 0b001u8 } else if r == 3 { 0b100u8 } else { 0b111u8 }
    } else if d == 3 {
        if r == 1 || r == 3 { 0b001u8 } else { 0b111u8 }
    } else if d == 4 {
        if r <= 1 { 0b101u8 } else if r == 2 { 0b111u8 } else { 0b001u8 }
    } else if d == 5 {
        if r == 1 { 0b100u8 } else if r == 3 { 0b001u8 } else { 0b111u8 }
    } else if d == 6 {
        if r == 1 { 0b100u8 } else if r == 3 { 0b101u8 } else { 0b111u8 }
    } else if d == 7 {
        if r == 0 { 0b111u8 } else { 0b001u8 }
    } else if d == 8 {
        if r == 1 || r == 3 { 0b101u8 } else { 0b111u8 }
    } else {
        if r == 1 { 0b101u8 } else if r == 3 { 0b001u8 } else { 0b111u8 }
    }
}

/// Row `r` of the glyph for digit `d`.
pub fn font_row(d: usize, r: usize) -> (bits: u8)
    requires
        d < 10,
        r < 5,
    ensures
        bits == glyph_row(d as int, r as int),
{
    if d == 0 {
        if r == 0 || r == 4 { 0b111 } else { 0b101 }
    } else if d == 1 {
        if r == 1 { 0b110 } else if r == 4 { 0b111 } else { 0b010 }
    } else if d == 2 {
        if r == 1 { 0b001 } else if r == 3 { 0b100 } else { 0b111 }
    } else if d == 3 {
        if r == 1 || r == 3 { 0b001 } else { 0b111 }
    } else if d == 4 {
        if r <= 1 { 0b101 } else if r == 2 { 0b111 } else { 0b001 }
    } else if d == 5 {
        if r == 1 { 0b100 } else if r == 3 { 0b001 } else { 0b111 }
    } else if d == 6 {
        if r == 1 { 0b100 } else if r == 3 { 0b101 } else { 0b111 }
    } else if d == 7 {
        if r == 0 { 0b111 } else { 0b001 }
    } else if d == 8 {
        if r == 1 || r == 3 { 0b101 } else { 0b111 }
    } else {
        if r == 1 { 0b101 } else if r == 3 { 0b001 } else { 0b111 }
    }
}

/// Index of pixel (`y`, `x`) in the framebuffer.
pub open spec fn at(y: int, x: int) -> int {
    y * 32 + x
}

/// Whether glyph `d` drawn with its left column at `x0` (rows 1..=5) lights
/// pixel (`y`, `x`).
pub open spec fn digit_pixel(d: int, x0: int, y: int, x: int) -> bool {
    1 <= y <= 5 && x0 <= x < x0 + 3 && (glyph_row(d, y - 1) >> ((2 - (x - x0)) as u8)) & 1u8
        == 1u8
}

/// The `HH:MM` picture, with the two colon dots when `colon` is set.
pub open spec fn time_pixel(hh: int, mm: int, colon: bool, y: int, x: int) -> bool {
    ||| digit_pixel(hh / 10, digit_x(0), y, x)
    ||| digit_pixel(hh % 10, digit_x(1), y, x)
    ||| digit_pixel(mm / 10, digit_x(2), y, x)
    ||| digit_pixel(mm % 10, digit_x(3), y, x)
    ||| colon && x == COLON_X && (y == 2 || y == 4)
}

/// Whether column `x` belongs to one of the four digit cells.
pub open spec fn in_digit_cell(x: int) -> bool {
    ||| digit_x(0) <= x < digit_x(0) + 3
    ||| digit_x(1) <= x < digit_x(1) + 3
    ||| digit_x(2) <= x < digit_x(2) + 3
    ||| digit_x(3) <= x < digit_x(3) + 3
}

/// The `--:--` placeholder (dashes on the middle row plus the colon), or a
/// dark panel when `on` is unset.
pub open spec fn syncing_pixel(on: bool, y: int, x: int) -> bool {
    on && ((y == 3 && in_digit_cell(x)) || (x == COLON_X && (y == 2 || y == 4)))
}

/// The framebuffer picture given by a pixel predicate.
pub open spec fn picture(p: spec_fn(int, int) -> bool) -> Seq<bool> {
    Seq::new(256, |k: int| p(k / 32, k % 32))
}

proof fn lemma_at_parts(y: int, x: int)
    requires
        0 <= x < 32,
    ensures
        at(y, x) / 32 == y,
        at(y, x) % 32 == x,
{
    assert((y * 32 + x) / 32 == y && (y * 32 + x) % 32 == x) by (nonlinear_arith)
        requires
            0 <= x < 32,
    ;
}

proof fn lemma_or_bit(b: u8, k: u8, j: u8)
    by (bit_vector)
    requires
        k < 8,
        j < 8,
    ensures
        ((b | (1u8 << k)) >> j) & 1u8 == (if j == k {
            1u8
        } else {
            (b >> j) & 1u8
        }),
{
}

/// Whether byte `b` lights column `c` (0..8, leftmost is bit 7).
pub open spec fn column_bit(b: u8, c: int) -> bool {
    (b >> ((7 - c) as u8)) & 1u8 == 1u8
}

/// Byte `b` shows row `y` of `chip`'s eight columns, leftmost in bit 7.
pub open spec fn byte_shows(b: u8, fb: Seq<bool>, y: int, chip: int) -> bool {
    forall|c: int| 0 <= c < 8 ==> #[trigger] column_bit(b, c) == fb[at(y, chip * 8 + c)]
}

/// The `i`-th (register, bits) pair of frame `f` addresses digit register
/// `y + 1` and carries row `y` of the columns `8i..8i+8`.
pub open spec fn pair_shows(f: Seq<u8>, fb: Seq<bool>, y: int, i: int) -> bool {
    f[2 * i] == y + 1 && byte_shows(f[2 * i + 1], fb, y, i)
}

/// Frame `f` carries row `y` of the framebuffer to all four chips.
pub open spec fn frame_shows(f: Seq<u8>, fb: Seq<bool>, y: int) -> bool {
    &&& f.len() == 8
    &&& forall|i: int| 0 <= i < 4 ==> #[trigger] pair_shows(f, fb, y, i)
}

/// The frames determine the picture: two framebuffers flushed to the same
/// frames hold the same pixels, so nothing drawn is lost on the way out.
pub proof fn lemma_frames_determine_pixels(frames: Seq<Seq<u8>>, a: Seq<bool>, b: Seq<bool>)
    requires
        a.len() == 256,
        b.len() == 256,
        frames.len() == 8,
        forall|y: int| 0 <= y < 8 ==> frame_shows(#[trigger] frames[y], a, y),
        forall|y: int| 0 <= y < 8 ==> frame_shows(#[trigger] frames[y], b, y),
    ensures
        a == b,
{
    assert forall|k: int| 0 <= k < 256 implies a[k] == b[k] by {
        let y = k / 32;
        let x = k % 32;
        let i = x / 8;
        let c = x % 8;
        assert(0 <= i < 4 && 0 <= c < 8 && x == i * 8 + c);
        lemma_at_parts(y, x);
        assert(frame_shows(frames[y], a, y));
        assert(frame_shows(frames[y], b, y));
        assert(pair_shows(frames[y], a, y, i));
        assert(pair_shows(frames[y], b, y, i));
        let byte = frames[y][2 * i + 1];
        assert(byte_shows(byte, a, y, i));
        assert(byte_shows(byte, b, y, i));
        assert(column_bit(byte, c) == a[at(y, i * 8 + c)]);
        assert(column_bit(byte, c) == b[at(y, i * 8 + c)]);
    }
    assert(a =~= b);
}

/// The 3x5 font as a picture: rows top to bottom, bit 2 the leftmost column.
pub open spec fn font_picture() -> Seq<Seq<u8>> {
    seq![
        seq![0b111u8, 0b101, 0b101, 0b101, 0b111],
        seq![0b010u8, 0b110, 0b010, 0b010, 0b111],
        seq![0b111u8, 0b001, 0b111, 0b100, 0b111],
        seq![0b111u8, 0b001, 0b111, 0b001, 0b111],
        seq![0b101u8, 0b101, 0b111, 0b001, 0b001],
        seq![0b111u8, 0b100, 0b111, 0b001, 0b111],
        seq![0b111u8, 0b100, 0b111, 0b101, 0b111],
        seq![0b111u8, 0b001, 0b001, 0b001, 0b001],
        seq![0b111u8, 0b101, 0b111, 0b101, 0b111],
        seq![0b111u8, 0b101, 0b111, 0b001, 0b111],
    ]
}

/// Every digit is drawn with its glyph from the font picture.
pub proof fn lemma_font_is_picture(d: int, r: int)
    requires
        0 <= d < 10,
        0 <= r < 5,
    ensures
        glyph_row(d, r) == font_picture()[d][r],
{
}

/// Distinct digits look different: their glyphs differ in some row.
pub proof fn lemma_glyphs_distinct(d1: int, d2: int)
    requires
        0 <= d1 < 10,
        0 <= d2 < 10,
        d1 != d2,
    ensures
        exists|r: int| 0 <= r < 5 && #[trigger] glyph_row(d1, r) != glyph_row(d2, r),
{
    assert(glyph_row(d1, 0) != glyph_row(d2, 0) || glyph_row(d1, 1) != glyph_row(d2, 1)
        || glyph_row(d1, 2) != glyph_row(d2, 2) || glyph_row(d1, 3) != glyph_row(d2, 3)
        || glyph_row(d1, 4) != glyph_row(d2, 4));
}

proof fn lemma_bits_differ(a: u8, b: u8)
    by (bit_vector)
    requires
        a < 8,
        b < 8,
        a != b,
    ensures
        (a >> 2u8) & 1u8 != (b >> 2u8) & 1u8 || (a >> 1u8) & 1u8 != (b >> 1u8) & 1u8 || (a
            >> 0u8) & 1u8 != (b >> 0u8) & 1u8,
{
}

proof fn lemma_bit_is_01(g: u8, sh: u8)
    by (bit_vector)
    ensures
        (g >> sh) & 1u8 <= 1u8,
{
}

/// The digit shown in cell `j` (0, 1: hours; 2, 3: minutes) of `HH:MM`.
pub open spec fn cell_digit(hh: int, mm: int, j: int) -> int {
    if j == 0 {
        hh / 10
    } else if j == 1 {
        hh % 10
    } else if j == 2 {
        mm / 10
    } else {
        mm % 10
    }
}

proof fn lemma_cell_pixel(hh: int, mm: int, colon: bool, j: int, r: int, c: int)
    requires
        0 <= hh < 100,
        0 <= mm < 100,
        0 <= j < 4,
        0 <= r < 5,
        0 <= c < 3,
    ensures
        time_pixel(hh, mm, colon, r + 1, digit_x(j) + c) == ((glyph_row(cell_digit(hh, mm, j), r)
            >> ((2 - c) as u8)) & 1u8 == 1u8),
{
}

/// Different times look different: `HH:MM` pictures of two different times
/// (hours and minutes below 100) differ in some pixel, whatever the colons.
pub proof fn lemma_distinct_times_distinct_pictures(
    h1: int,
    m1: int,
    c1: bool,
    h2: int,
    m2: int,
    c2: bool,
)
    requires
        0 <= h1 < 100,
        0 <= m1 < 100,
        0 <= h2 < 100,
        0 <= m2 < 100,
        h1 != h2 || m1 != m2,
    ensures
        picture(|y: int, x: int| time_pixel(h1, m1, c1, y, x)) != picture(
            |y: int, x: int| time_pixel(h2, m2, c2, y, x),
        ),
{
    let j = if h1 / 10 != h2 / 10 {
        0
    } else if h1 % 10 != h2 % 10 {
        1
    } else if m1 / 10 != m2 / 10 {
        2
    } else {
        3
    };
    let d1 = cell_digit(h1, m1, j);
    let d2 = cell_digit(h2, m2, j);
    assert(d1 != d2);
    lemma_glyphs_distinct(d1, d2);
    let r = choose|r: int| 0 <= r < 5 && #[trigger] glyph_row(d1, r) != glyph_row(d2, r);
    let g1 = glyph_row(d1, r);
    let g2 = glyph_row(d2, r);
    lemma_bits_differ(g1, g2);
    let c: int = if (g1 >> 2u8) & 1u8 != (g2 >> 2u8) & 1u8 {
        0
    } else if (g1 >> 1u8) & 1u8 != (g2 >> 1u8) & 1u8 {
        1
    } else {
        2
    };
    lemma_cell_pixel(h1, m1, c1, j, r, c);
    lemma_cell_pixel(h2, m2, c2, j, r, c);
    let y = r + 1;
    let x = digit_x(j) + c;
    lemma_at_parts(y, x);
    assert(((2 - c) as u8) == 2u8 || ((2 - c) as u8) == 1u8 || ((2 - c) as u8) == 0u8);
    assert((g1 >> ((2 - c) as u8)) & 1u8 != (g2 >> ((2 - c) as u8)) & 1u8);
    lemma_bit_is_01(g1, (2 - c) as u8);
    lemma_bit_is_01(g2, (2 - c) as u8);
    assert(time_pixel(h1, m1, c1, y, x) != time_pixel(h2, m2, c2, y, x));
    let pa = picture(|y: int, x: int| time_pixel(h1, m1, c1, y, x));
    let pb = picture(|y: int, x: int| time_pixel(h2, m2, c2, y, x));
    let k = at(y, x);
    assert(0 <= k < 256);
    assert(pa[k] == time_pixel(h1, m1, c1, y, x));
    assert(pb[k] == time_pixel(h2, m2, c2, y, x));
}

/// Different times are sent differently: the frames that carry two different
/// `HH:MM` pictures to the panel are not the same frames.
pub proof fn lemma_distinct_times_distinct_frames(
    h1: int,
    m1: int,
    c1: bool,
    fa: Seq<Seq<u8>>,
    h2: int,
    m2: int,
    c2: bool,
    fb: Seq<Seq<u8>>,
)
    requires
        0 <= h1 < 100,
        0 <= m1 < 100,
        0 <= h2 < 100,
        0 <= m2 < 100,
        h1 != h2 || m1 != m2,
        fa.len() == 8,
        fb.len() == 8,
        forall|y: int|
            0 <= y < 8 ==> frame_shows(
                #[trigger] fa[y],
                picture(|y: int, x: int| time_pixel(h1, m1, c1, y, x)),
                y,
            ),
        forall|y: int|
            0 <= y < 8 ==> frame_shows(
                #[trigger] fb[y],
                picture(|y: int, x: int| time_pixel(h2, m2, c2, y, x)),
                y,
            ),
    ensures
        fa != fb,
{
    lemma_distinct_times_distinct_pictures(h1, m1, c1, h2, m2, c2);
    if fa == fb {
        lemma_frames_determine_pixels(
            fa,
            picture(|y: int, x: int| time_pixel(h1, m1, c1, y, x)),
            picture(|y: int, x: int| time_pixel(h2, m2, c2, y, x)),
        );
    }
}

/// A register command `{reg, val}` broadcast to all four cascaded chips.
pub fn broadcast(reg: u8, val: u8) -> (f: Vec<u8>)
    ensures
        f@ == seq![reg, val, reg, val, reg, val, reg, val],
{
    let mut f: Vec<u8> = Vec::new();
    let mut i: usize = 0;
    while i < CHIPS
        invariant
            i <= CHIPS,
            f@ == seq![reg, val, reg, val, reg, val, reg, val].take(2 * i),
        decreases CHIPS - i,
    {
        f.push(reg);
        f.push(val);
        assert(f@ =~= seq![reg, val, reg, val, reg, val, reg, val].take(2 * i + 2));
        i = i + 1;
    }
    f
}

/// The panel's bring-up sequence, each broadcast to all chips: display test
/// off, no BCD decode, scan all 8 rows, intensity, leave shutdown.
pub fn init_frames() -> (frames: Vec<Vec<u8>>)
    ensures
        frames@.len() == 5,
        frames@[0]@ == seq![0x0Fu8, 0x00u8, 0x0F, 0x00, 0x0F, 0x00, 0x0F, 0x00],
        frames@[1]@ == seq![0x09u8, 0x00u8, 0x09, 0x00, 0x09, 0x00, 0x09, 0x00],
        frames@[2]@ == seq![0x0Bu8, 0x07u8, 0x0B, 0x07, 0x0B, 0x07, 0x0B, 0x07],
        frames@[3]@ == seq![0x0Au8, BRIGHTNESS, 0x0A, BRIGHTNESS, 0x0A, BRIGHTNESS, 0x0A, BRIGHTNESS],
        frames@[4]@ == seq![0x0Cu8, 0x01u8, 0x0C, 0x01, 0x0C, 0x01, 0x0C, 0x01],
{
    let mut frames: Vec<Vec<u8>> = Vec::new();
    frames.push(broadcast(0x0F, 0x00));
    frames.push(broadcast(0x09, 0x00));
    frames.push(broadcast(0x0B, 0x07));
    frames.push(broadcast(0x0A, BRIGHTNESS));
    frames.push(broadcast(0x0C, 0x01));
    frames
}

/// A 4-module MAX7219 matrix's off-screen framebuffer. Draw into it, then
/// send the frames of [`Matrix::flush`] to the panel.
pub struct Matrix {
    fb: Vec<bool>,
}

impl View for Matrix {
    type V = Seq<bool>;

    closed spec fn view(&self) -> Seq<bool> {
        self.fb@
    }
}

impl Matrix {
    /// A dark framebuffer.
    pub fn new() -> (m: Self)
        ensures
            m@ == Seq::new(256, |k: int| false),
    {
        let mut fb: Vec<bool> = Vec::new();
        let mut k: usize = 0;
        while k < 256
            invariant
                k <= 256,
                fb@ == Seq::new(k as nat, |i: int| false),
            decreases 256 - k,
        {
            fb.push(false);
            assert(fb@ =~= Seq::new((k + 1) as nat, |i: int| false));
            k = k + 1;
        }
        Matrix { fb }
    }

    /// Draws one 3x5 digit with its left column at `x0`, in rows 1..=5.
    fn draw_digit(&mut self, digit: usize, x0: usize)
        requires
            old(self)@.len() == 256,
            digit < 10,
            x0 + 3 <= W,
        ensures
            final(self)@ == Seq::new(
                256,
                |k: int| old(self)@[k] || digit_pixel(digit as int, x0 as int, k / 32, k % 32),
            ),
    {
        let ghost start = self@;
        let mut r: usize = 0;
        while r < 5
            invariant
                digit < 10,
                x0 + 3 <= W,
                r <= 5,
                start.len() == 256,
                self@ == Seq::new(
                    256,
                    |k: int|
                        start[k] || (digit_pixel(digit as int, x0 as int, k / 32, k % 32) && k / 32
                            - 1 < r),
                ),
            decreases 5 - r,
        {
            let bits = font_row(digit, r);
            let mut col: usize = 0;
            while col < 3
                invariant
                    digit < 10,
                    x0 + 3 <= W,
                    r < 5,
                    col <= 3,
                    start.len() == 256,
                    bits == glyph_row(digit as int, r as int),
                    self@ == Seq::new(
                        256,
                        |k: int|
                            start[k] || (digit_pixel(digit as int, x0 as int, k / 32, k % 32) && (k
                                / 32 - 1 < r || (k / 32 - 1 == r && k % 32 - x0 < col))),
                    ),
                decreases 3 - col,
            {
                let shift = (2 - col) as u8;
                let lit = bits & (1u8 << shift) != 0;
                assert(lit == ((bits >> shift) & 1u8 == 1u8)) by (bit_vector)
                    requires
                        shift < 3,
                        lit == (bits & (1u8 << shift) != 0),
                ;
                let idx = (1 + r) * 32 + x0 + col;
                proof {
                    lemma_at_parts((1 + r) as int, (x0 + col) as int);
                }
                if lit {
                    self.fb.set(idx, true);
                }
                proof {
                    let target = Seq::new(
                        256,
                        |k: int|
                            start[k] || (digit_pixel(digit as int, x0 as int, k / 32, k % 32) && (k
                                / 32 - 1 < r || (k / 32 - 1 == r && k % 32 - x0 < col + 1))),
                    );
                    assert forall|k: int| 0 <= k < 256 implies self@[k] == target[k] by {
                        lemma_at_parts(k / 32, k % 32);
                    }
                    assert(self@ =~= target);
                }
                col = col + 1;
            }
            proof {
                let target = Seq::new(
                    256,
                    |k: int|
                        start[k] || (digit_pixel(digit as int, x0 as int, k / 32, k % 32) && k / 32
                            - 1 < r + 1),
                );
                assert forall|k: int| 0 <= k < 256 implies self@[k] == target[k] by {
                    lemma_at_parts(k / 32, k % 32);
                }
                assert(self@ =~= target);
            }
            r = r + 1;
        }
        proof {
            let target = Seq::new(
                256,
                |k: int| start[k] || digit_pixel(digit as int, x0 as int, k / 32, k % 32),
            );
            assert forall|k: int| 0 <= k < 256 implies self@[k] == target[k] by {
                lemma_at_parts(k / 32, k % 32);
            }
            assert(self@ =~= target);
        }
    }

    /// Lights one pixel.
    fn set_pixel(&mut self, y: usize, x: usize)
        requires
            old(self)@.len() == 256,
            y < H,
            x < W,
        ensures
            final(self)@ == Seq::new(256, |k: int| old(self)@[k] || k == at(y as int, x as int)),
    {
        self.fb.set(y * 32 + x, true);
        assert(self@ =~= Seq::new(256, |k: int| old(self)@[k] || k == at(y as int, x as int)));
    }

    /// Composes `HH:MM` into the framebuffer; `colon` shows the two colon dots.
    pub fn render_time(&mut self, hh: u32, mm: u32, colon: bool)
        requires
            old(self)@.len() == 256,
            hh < 100,
            mm < 100,
        ensures
            final(self)@ == picture(|y: int, x: int| time_pixel(hh as int, mm as int, colon, y, x)),
    {
        self.clear();
        self.draw_digit((hh / 10) as usize, 5);
        self.draw_digit((hh % 10) as usize, 10);
        self.draw_digit((mm / 10) as usize, 19);
        self.draw_digit((mm % 10) as usize, 24);
        let ghost before_colon = self@;
        if colon {
            self.set_pixel(2, COLON_X);
            self.set_pixel(4, COLON_X);
        }
        proof {
            let target = picture(|y: int, x: int| time_pixel(hh as int, mm as int, colon, y, x));
            assert forall|k: int| 0 <= k < 256 implies self@[k] == target[k] by {
                lemma_at_parts(k / 32, k % 32);
                lemma_at_parts(2, 15);
                lemma_at_parts(4, 15);
            }
            assert(self@ =~= target);
        }
    }

    /// Lights the three dash pixels of the digit cell starting at `x0`.
    fn dash(&mut self, x0: usize)
        requires
            old(self)@.len() == 256,
            x0 + 3 <= W,
        ensures
            final(self)@ == Seq::new(
                256,
                |k: int| old(self)@[k] || (k / 32 == 3 && x0 <= k % 32 < x0 + 3),
            ),
    {
        self.set_pixel(3, x0);
        self.set_pixel(3, x0 + 1);
        self.set_pixel(3, x0 + 2);
        proof {
            let target = Seq::new(
                256,
                |k: int| old(self)@[k] || (k / 32 == 3 && x0 <= k % 32 < x0 + 3),
            );
            assert forall|k: int| 0 <= k < 256 implies self@[k] == target[k] by {
                lemma_at_parts(k / 32, k % 32);
                lemma_at_parts(3, x0 as int);
                lemma_at_parts(3, x0 + 1);
                lemma_at_parts(3, x0 + 2);
            }
            assert(self@ =~= target);
        }
    }

    /// Composes the `--:--` placeholder shown until the clock is synced, or a
    /// dark panel when `on` is unset (the placeholder blinks).
    pub fn render_syncing(&mut self, on: bool)
        requires
            old(self)@.len() == 256,
        ensures
            final(self)@ == picture(|y: int, x: int| syncing_pixel(on, y, x)),
    {
        self.clear();
        if on {
            self.dash(5);
            self.dash(10);
            self.dash(19);
            self.dash(24);
            self.set_pixel(2, COLON_X);
            self.set_pixel(4, COLON_X);
        }
        proof {
            let target = picture(|y: int, x: int| syncing_pixel(on, y, x));
            assert forall|k: int| 0 <= k < 256 implies self@[k] == target[k] by {
                lemma_at_parts(k / 32, k % 32);
                lemma_at_parts(2, 15);
                lemma_at_parts(4, 15);
            }
            assert(self@ =~= target);
        }
    }

    /// The byte for `chip`'s eight columns of row `y`: bit 7 is its leftmost
    /// column.
    fn column_byte(&self, y: usize, chip: usize) -> (b: u8)
        requires
            self@.len() == 256,
            y < H,
            chip < CHIPS,
        ensures
            byte_shows(b, self@, y as int, chip as int),
    {
        let mut b: u8 = 0;
        let mut cx: usize = 0;
        proof {
            assert forall|c: int| 0 <= c < 8 implies #[trigger] column_bit(0u8, c) == false by {
                let j = (7 - c) as u8;
                assert((0u8 >> j) & 1u8 == 0u8) by (bit_vector);
            }
        }
        while cx < 8
            invariant
                self@.len() == 256,
                y < H,
                chip < CHIPS,
                cx <= 8,
                forall|c: int|
                    0 <= c < 8 ==> #[trigger] column_bit(b, c) == (c < cx && self@[at(
                        y as int,
                        chip * 8 + c,
                    )]),
            decreases 8 - cx,
        {
            let x = chip * 8 + cx;
            let bit = if FLIP_X {
                cx as u8
            } else {
                (7 - cx) as u8
            };
            let old_b = b;
            if self.fb[y * 32 + x] {
                b = b | (1u8 << bit);
            }
            proof {
                assert(self.fb@[y * 32 + x] == self@[at(y as int, chip * 8 + cx)]);
                assert forall|c: int| 0 <= c < 8 implies #[trigger] column_bit(b, c) == (c < cx + 1
                    && self@[at(y as int, chip * 8 + c)]) by {
                    let j = (7 - c) as u8;
                    assert(column_bit(old_b, c) == (c < cx && self@[at(y as int, chip * 8 + c)]));
                    lemma_or_bit(old_b, bit, j);
                    assert(j == bit <==> c == cx);
                }
            }
            cx = cx + 1;
        }
        b
    }

    /// The SPI frames that push the framebuffer to the four chips, one per
    /// row. Each frame holds a (digit register, bits) pair per chip; the
    /// digit register is the row number plus one, and the pair for the chip
    /// showing columns `8i..8i+8` comes `i`-th.
    pub fn flush(&self) -> (frames: Vec<Vec<u8>>)
        requires
            self@.len() == 256,
        ensures
            frames@.len() == 8,
            forall|y: int| 0 <= y < 8 ==> frame_shows(#[trigger] frames@[y]@, self@, y),
    {
        let mut frames: Vec<Vec<u8>> = Vec::new();
        let mut y: usize = 0;
        while y < H
            invariant
                self@.len() == 256,
                y <= H,
                frames@.len() == y,
                forall|j: int| 0 <= j < y ==> frame_shows(#[trigger] frames@[j]@, self@, j),
            decreases H - y,
        {
            let dreg = (if FLIP_ROWS {
                H - y
            } else {
                y + 1
            }) as u8;
            let mut f: Vec<u8> = Vec::new();
            let mut i: usize = 0;
            while i < CHIPS
                invariant
                    self@.len() == 256,
                    y < H,
                    dreg == y + 1,
                    i <= CHIPS,
                    f@.len() == 2 * i,
                    forall|j: int| 0 <= j < i ==> #[trigger] pair_shows(f@, self@, y as int, j),
                decreases CHIPS - i,
            {
                let pos = CHIPS - 1 - i;
                let dc = if REVERSE_MODULES {
                    CHIPS - 1 - pos
                } else {
                    pos
                };
                let b = self.column_byte(y, dc);
                let ghost prev = f@;
                f.push(dreg);
                f.push(b);
                proof {
                    assert(dc == i);
                    assert(f@[2 * i as int] == dreg);
                    assert(f@[2 * i + 1] == b);
                    assert forall|j: int| 0 <= j < i + 1 implies #[trigger] pair_shows(
                        f@,
                        self@,
                        y as int,
                        j,
                    ) by {
                        if j < i {
                            assert(pair_shows(prev, self@, y as int, j));
                            assert(f@[2 * j] == prev[2 * j]);
                            assert(f@[2 * j + 1] == prev[2 * j + 1]);
                        }
                    }
                }
                i = i + 1;
            }
            let ghost fv = f@;
            let ghost prev_frames = frames@;
            frames.push(f);
            proof {
                assert(frames@[y as int]@ == fv);
                assert(frame_shows(fv, self@, y as int));
                assert forall|j: int| 0 <= j < y + 1 implies frame_shows(
                    #[trigger] frames@[j]@,
                    self@,
                    j,
                ) by {
                    if j < y {
                        assert(frames@[j] == prev_frames[j]);
                    }
                }
            }
            y = y + 1;
        }
        frames
    }

    /// Renders what the display worker shows for the shared `phase` and time:
    /// the blinking placeholder while syncing (on for two frames, off for
    /// two), else `HH:MM` with the colon lit on even seconds.
    pub fn render_for(&mut self, phase: Phase, now_secs: u32, frame: u32)
        requires
            old(self)@.len() == 256,
            phase == Phase::Syncing || now_secs < 360000,
        ensures
            final(self)@ == (if phase == Phase::Syncing {
                picture(|y: int, x: int| syncing_pixel((frame / 2) % 2 == 0, y, x))
            } else {
                picture(
                    |y: int, x: int|
                        time_pixel(
                            (now_secs / 3600) as int,
                            ((now_secs % 3600) / 60) as int,
                            now_secs % 2 == 0,
                            y,
                            x,
                        ),
                )
            }),
    {
        if phase == Phase::Syncing {
            self.render_syncing((frame / 2) % 2 == 0);
        } else {
            let colon = now_secs % 2 == 0;
            self.render_time(now_secs / 3600, (now_secs % 3600) / 60, colon);
        }
    }

    fn clear(&mut self)
        ensures
            final(self)@ == Seq::new(256, |k: int| false),
    {
        let mut fb = Matrix::new();
        std::mem::swap(self, &mut fb);
    }
}

} // verus!
