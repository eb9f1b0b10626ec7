//! The G13's 160x43 monochrome LCD: a frame buffer of six 8-pixel bands,
//! a 5x7 font, the status pages, and the output report that carries a
//! frame to the device.
use vstd::prelude::*;
use crate::config::LcdAlign;
use crate::text::{chars_of, concat_str, decimal, decimal_chars, digit, digit_char, extend_chars, to_upper, trim, trim_chars, upper, views};

verus! {

pub const W: usize = 160;
pub const H: usize = 43;
pub const BANDS: usize = 6;
pub const BUFFER: usize = 960;
pub const REPORT_SIZE: usize = 992;
pub const IMAGE_OFFSET: usize = 32;

/// Bit `k` of `b`.
pub open spec fn bit(b: u8, k: int) -> bool {
    (b >> (k as u8)) & 1u8 == 1u8
}

/// The byte of the buffer that holds pixel (x, y): band `y / 8`, column
/// `x`.
pub open spec fn byte_index(x: int, y: int) -> int {
    (y / 8) * 160 + x
}

/// Whether the buffer has pixel (x, y) on, for x in 0..160 and y in 0..48
/// (rows 43..48 of the last band lie below the screen).
pub open spec fn lit(buf: Seq<u8>, x: int, y: int) -> bool {
    bit(buf[byte_index(x, y)], y % 8)
}

/// The pixel positions of a buffer, screen rows and the hidden ones.
pub open spec fn in_buffer(x: int, y: int) -> bool {
    0 <= x < 160 && 0 <= y < 48
}

/// Pixels of the screen.
pub open spec fn on_screen(x: int, y: int) -> bool {
    0 <= x < 160 && 0 <= y < 43
}

proof fn lemma_bits(b: u8, k: u8)
    requires
        k < 8,
    ensures
        forall|j: u8| j < 8 ==> #[trigger] bit(b | (1u8 << k), j as int) == (j == k || bit(b, j as int)),
        forall|j: u8| j < 8 ==> #[trigger] bit(b & !(1u8 << k), j as int) == (j != k && bit(b, j as int)),
{
    assert(forall|j: u8| j < 8 ==> (#[trigger] ((b | (1u8 << k)) >> j) & 1u8 == 1u8) == (j == k || (b >> j) & 1u8 == 1u8)) by (bit_vector)
        requires k < 8;
    assert(forall|j: u8| j < 8 ==> (#[trigger] ((b & !(1u8 << k)) >> j) & 1u8 == 1u8) == (j != k && (b >> j) & 1u8 == 1u8)) by (bit_vector)
        requires k < 8;
}

proof fn lemma_bits_equal(a: u8, b: u8)
    requires
        forall|j: u8| j < 8 ==> #[trigger] bit(a, j as int) == bit(b, j as int),
    ensures
        a == b,
{
    assert(bit(a, 0) == bit(b, 0));
    assert(bit(a, 1) == bit(b, 1));
    assert(bit(a, 2) == bit(b, 2));
    assert(bit(a, 3) == bit(b, 3));
    assert(bit(a, 4) == bit(b, 4));
    assert(bit(a, 5) == bit(b, 5));
    assert(bit(a, 6) == bit(b, 6));
    assert(bit(a, 7) == bit(b, 7));
    assert(a == b) by (bit_vector)
        requires
            ((a >> 0u8) & 1u8 == 1u8) == ((b >> 0u8) & 1u8 == 1u8),
            ((a >> 1u8) & 1u8 == 1u8) == ((b >> 1u8) & 1u8 == 1u8),
            ((a >> 2u8) & 1u8 == 1u8) == ((b >> 2u8) & 1u8 == 1u8),
            ((a >> 3u8) & 1u8 == 1u8) == ((b >> 3u8) & 1u8 == 1u8),
            ((a >> 4u8) & 1u8 == 1u8) == ((b >> 4u8) & 1u8 == 1u8),
            ((a >> 5u8) & 1u8 == 1u8) == ((b >> 5u8) & 1u8 == 1u8),
            ((a >> 6u8) & 1u8 == 1u8) == ((b >> 6u8) & 1u8 == 1u8),
            ((a >> 7u8) & 1u8 == 1u8) == ((b >> 7u8) & 1u8 == 1u8),
    ;
}

proof fn lemma_zero_bits()
    ensures
        forall|j: int| 0 <= j < 8 ==> !#[trigger] bit(0u8, j),
{
    assert(forall|j: u8| j < 8 ==> ((0u8 >> j) & 1u8) == 0u8) by (bit_vector);
    assert forall|j: int| 0 <= j < 8 implies !#[trigger] bit(0u8, j) by {
        assert(((0u8 >> (j as u8)) & 1u8) == 0u8);
    }
}

/// Every pixel position lies in one byte and one bit of it.
proof fn lemma_index(x: int, y: int)
    requires
        in_buffer(x, y),
    ensures
        0 <= byte_index(x, y) < 960,
        0 <= y % 8 < 8,
{
}

/// Distinct pixel positions differ in byte or in bit.
proof fn lemma_index_distinct(x1: int, y1: int, x2: int, y2: int)
    requires
        in_buffer(x1, y1),
        in_buffer(x2, y2),
        byte_index(x1, y1) == byte_index(x2, y2),
        y1 % 8 == y2 % 8,
    ensures
        x1 == x2 && y1 == y2,
{
}

/// A frame of the LCD.
pub struct Frame {
    pub buffer: [u8; 960],
}

/// `b` is `a` with pixel (x, y) set to `on`, where that pixel is on the
/// screen; else `a`.
pub open spec fn set_pixel(a: Seq<u8>, b: Seq<u8>, x: int, y: int, on: bool) -> bool {
    forall|px: int, py: int|
        in_buffer(px, py) ==> #[trigger] lit(b, px, py) == if on_screen(x, y) && px == x && py == y {
            on
        } else {
            lit(a, px, py)
        }
}

/// Two buffers with the same pixels are the same buffer.
pub proof fn lemma_same_pixels(a: Seq<u8>, b: Seq<u8>)
    requires
        a.len() == 960,
        b.len() == 960,
        forall|px: int, py: int| in_buffer(px, py) ==> #[trigger] lit(a, px, py) == lit(b, px, py),
    ensures
        a == b,
{
    assert forall|i: int| 0 <= i < 960 implies a[i] == b[i] by {
        let x = i % 160;
        let band = i / 160;
        assert forall|j: u8| j < 8 implies #[trigger] bit(a[i], j as int) == bit(b[i], j as int) by {
            let y = band * 8 + j;
            assert(byte_index(x, y) == i);
            assert(y % 8 == j);
            assert(lit(a, x, y) == lit(b, x, y));
        }
        lemma_bits_equal(a[i], b[i]);
    }
    assert(a =~= b);
}

/// What `set` writes, `pixel` reads back: after setting an on-screen pixel
/// it reads as set, and every other pixel reads as before.
pub proof fn lemma_pixel_after_set(a: Seq<u8>, b: Seq<u8>, x: int, y: int, on: bool)
    requires
        set_pixel(a, b, x, y, on),
        on_screen(x, y),
    ensures
        lit(b, x, y) == on,
        forall|px: int, py: int|
            on_screen(px, py) && (px != x || py != y) ==> #[trigger] lit(b, px, py) == lit(a, px, py),
{
    assert(in_buffer(x, y));
    assert(lit(b, x, y) == on);
}

impl Frame {
    /// A blank frame.
    pub fn new() -> (f: Frame)
        ensures
            f.buffer@ == Seq::new(960, |i: int| 0u8),
            forall|px: int, py: int| in_buffer(px, py) ==> !#[trigger] lit(f.buffer@, px, py),
    {
        let f = Frame { buffer: [0u8; 960] };
        assert(f.buffer@ =~= Seq::new(960, |i: int| 0u8));
        proof {
            lemma_zero_bits();
            assert forall|px: int, py: int| in_buffer(px, py) implies !#[trigger] lit(f.buffer@, px, py) by {
                lemma_index(px, py);
            }
        }
        f
    }

    /// Sets pixel (x, y) on or off; a position off the screen changes
    /// nothing.
    pub fn set(&mut self, x: i32, y: i32, on: bool)
        ensures
            set_pixel(old(self).buffer@, final(self).buffer@, x as int, y as int, on),
            !on_screen(x as int, y as int) ==> final(self).buffer@ == old(self).buffer@,
            on_screen(x as int, y as int) ==> final(self).buffer@ == old(self).buffer@.update(
                byte_index(x as int, y as int),
                if on {
                    old(self).buffer@[byte_index(x as int, y as int)] | (1u8 << ((y % 8) as u8))
                } else {
                    old(self).buffer@[byte_index(x as int, y as int)] & !(1u8 << ((y % 8) as u8))
                },
            ),
    {
        if x < 0 || y < 0 || x as usize >= W || y as usize >= H {
            return;
        }
        let index = (y as usize / 8) * W + x as usize;
        let k = (y as usize % 8) as u8;
        let mask = 1u8 << k;
        let b = self.buffer[index];
        let nb = if on {
            b | mask
        } else {
            b & !mask
        };
        self.buffer[index] = nb;
        proof {
            lemma_bits(b, k);
            let ob = old(self).buffer@;
            let nbuf = self.buffer@;
            assert(nbuf == ob.update(index as int, nb));
            assert forall|px: int, py: int| in_buffer(px, py) implies #[trigger] lit(nbuf, px, py) == if on_screen(x as int, y as int) && px == x && py == y {
                on
            } else {
                lit(ob, px, py)
            } by {
                lemma_index(px, py);
                if byte_index(px, py) == index {
                    let j = (py % 8) as u8;
                    assert(bit(nb, j as int) == if on { j == k || bit(b, j as int) } else { j != k && bit(b, j as int) });
                    if j == k {
                        lemma_index_distinct(px, py, x as int, y as int);
                    }
                }
            }
        }
    }

    /// Whether pixel (x, y) is on; off the screen it is off.
    pub fn pixel(&self, x: usize, y: usize) -> (r: bool)
        ensures
            r == (on_screen(x as int, y as int) && lit(self.buffer@, x as int, y as int)),
    {
        if x >= W || y >= H {
            return false;
        }
        let index = (y / 8) * W + x;
        let k = (y % 8) as u8;
        let b = self.buffer[index];
        proof {
            assert(((b & (1u8 << k)) != 0u8) == ((b >> k) & 1u8 == 1u8)) by (bit_vector)
                requires k < 8;
        }
        b & (1u8 << k) != 0
    }

    /// Turns on the whole screen row `y`.
    pub fn hline(&mut self, y: i32)
        ensures
            forall|px: int, py: int|
                in_buffer(px, py) ==> #[trigger] lit(final(self).buffer@, px, py) == (lit(
                    old(self).buffer@,
                    px,
                    py,
                ) || (py == y && py < 43)),
    {
        let mut x: i32 = 0;
        while x < 160
            invariant
                0 <= x <= 160,
                forall|px: int, py: int|
                    in_buffer(px, py) ==> #[trigger] lit(self.buffer@, px, py) == (lit(
                        old(self).buffer@,
                        px,
                        py,
                    ) || (py == y && py < 43 && px < x)),
            decreases 160 - x,
        {
            self.set(x, y, true);
            x = x + 1;
        }
    }

    /// The output report that shows this frame: report id 3, the buffer
    /// from byte 32 on, zeros elsewhere.
    pub fn report(&self) -> (r: [u8; 992])
        ensures
            r@[0] == 3u8,
            forall|i: int| 1 <= i < 32 ==> r@[i] == 0u8,
            r@.subrange(32, 992) == self.buffer@,
    {
        let mut r = [0u8; 992];
        r[0] = 3;
        let mut i: usize = 0;
        while i < 960
            invariant
                i <= 960,
                r@.len() == 992,
                r@[0] == 3u8,
                forall|j: int| 1 <= j < 32 ==> r@[j] == 0u8,
                forall|j: int| 0 <= j < i ==> r@[32 + j] == self.buffer@[j],
            decreases 960 - i,
        {
            r[32 + i] = self.buffer[i];
            i = i + 1;
        }
        assert(r@.subrange(32, 992) =~= self.buffer@);
        r
    }
}

/// The 5x7 font: five columns, bit `r` of a column is row `r`. Letters are
/// drawn in upper case; a character the font lacks is drawn as `?`.
pub open spec fn spec_glyph(c: char) -> Seq<u8> {
    match upper(c) {
        'A' => seq![0x7eu8, 0x11u8, 0x11u8, 0x11u8, 0x7eu8],
        'B' => seq![0x7fu8, 0x49u8, 0x49u8, 0x49u8, 0x36u8],
        'C' => seq![0x3eu8, 0x41u8, 0x41u8, 0x41u8, 0x22u8],
        'D' => seq![0x7fu8, 0x41u8, 0x41u8, 0x22u8, 0x1cu8],
        'E' => seq![0x7fu8, 0x49u8, 0x49u8, 0x49u8, 0x41u8],
        'F' => seq![0x7fu8, 0x09u8, 0x09u8, 0x09u8, 0x01u8],
        'G' => seq![0x3eu8, 0x41u8, 0x49u8, 0x49u8, 0x7au8],
        'H' => seq![0x7fu8, 0x08u8, 0x08u8, 0x08u8, 0x7fu8],
        'I' => seq![0x00u8, 0x41u8, 0x7fu8, 0x41u8, 0x00u8],
        'J' => seq![0x20u8, 0x40u8, 0x41u8, 0x3fu8, 0x01u8],
        'K' => seq![0x7fu8, 0x08u8, 0x14u8, 0x22u8, 0x41u8],
        'L' => seq![0x7fu8, 0x40u8, 0x40u8, 0x40u8, 0x40u8],
        'M' => seq![0x7fu8, 0x02u8, 0x0cu8, 0x02u8, 0x7fu8],
        'N' => seq![0x7fu8, 0x04u8, 0x08u8, 0x10u8, 0x7fu8],
        'O' => seq![0x3eu8, 0x41u8, 0x41u8, 0x41u8, 0x3eu8],
        'P' => seq![0x7fu8, 0x09u8, 0x09u8, 0x09u8, 0x06u8],
        'Q' => seq![0x3eu8, 0x41u8, 0x51u8, 0x21u8, 0x5eu8],
        'R' => seq![0x7fu8, 0x09u8, 0x19u8, 0x29u8, 0x46u8],
        'S' => seq![0x46u8, 0x49u8, 0x49u8, 0x49u8, 0x31u8],
        'T' => seq![0x01u8, 0x01u8, 0x7fu8, 0x01u8, 0x01u8],
        'U' => seq![0x3fu8, 0x40u8, 0x40u8, 0x40u8, 0x3fu8],
        'V' => seq![0x1fu8, 0x20u8, 0x40u8, 0x20u8, 0x1fu8],
        'W' => seq![0x3fu8, 0x40u8, 0x38u8, 0x40u8, 0x3fu8],
        'X' => seq![0x63u8, 0x14u8, 0x08u8, 0x14u8, 0x63u8],
        'Y' => seq![0x07u8, 0x08u8, 0x70u8, 0x08u8, 0x07u8],
        'Z' => seq![0x61u8, 0x51u8, 0x49u8, 0x45u8, 0x43u8],
        '0' => seq![0x3eu8, 0x51u8, 0x49u8, 0x45u8, 0x3eu8],
        '1' => seq![0x00u8, 0x42u8, 0x7fu8, 0x40u8, 0x00u8],
        '2' => seq![0x42u8, 0x61u8, 0x51u8, 0x49u8, 0x46u8],
        '3' => seq![0x21u8, 0x41u8, 0x45u8, 0x4bu8, 0x31u8],
        '4' => seq![0x18u8, 0x14u8, 0x12u8, 0x7fu8, 0x10u8],
        '5' => seq![0x27u8, 0x45u8, 0x45u8, 0x45u8, 0x39u8],
        '6' => seq![0x3cu8, 0x4au8, 0x49u8, 0x49u8, 0x30u8],
        '7' => seq![0x01u8, 0x71u8, 0x09u8, 0x05u8, 0x03u8],
        '8' => seq![0x36u8, 0x49u8, 0x49u8, 0x49u8, 0x36u8],
        '9' => seq![0x06u8, 0x49u8, 0x49u8, 0x29u8, 0x1eu8],
        '-' => seq![0x08u8, 0x08u8, 0x08u8, 0x08u8, 0x08u8],
        ':' => seq![0x00u8, 0x36u8, 0x36u8, 0x00u8, 0x00u8],
        '.' => seq![0x00u8, 0x60u8, 0x60u8, 0x00u8, 0x00u8],
        '/' => seq![0x20u8, 0x10u8, 0x08u8, 0x04u8, 0x02u8],
        '+' => seq![0x08u8, 0x08u8, 0x3eu8, 0x08u8, 0x08u8],
        ' ' => seq![0x00u8, 0x00u8, 0x00u8, 0x00u8, 0x00u8],
        _ => seq![0x02u8, 0x01u8, 0x51u8, 0x09u8, 0x06u8],
    }
}

/// The font columns of a character.
pub fn glyph(c: char) -> (g: [u8; 5])
    ensures
        g@ == spec_glyph(c),
{
    let g = match to_upper(c) {
        'A' => [0x7e, 0x11, 0x11, 0x11, 0x7e],
        'B' => [0x7f, 0x49, 0x49, 0x49, 0x36],
        'C' => [0x3e, 0x41, 0x41, 0x41, 0x22],
        'D' => [0x7f, 0x41, 0x41, 0x22, 0x1c],
        'E' => [0x7f, 0x49, 0x49, 0x49, 0x41],
        'F' => [0x7f, 0x09, 0x09, 0x09, 0x01],
        'G' => [0x3e, 0x41, 0x49, 0x49, 0x7a],
        'H' => [0x7f, 0x08, 0x08, 0x08, 0x7f],
        'I' => [0x00, 0x41, 0x7f, 0x41, 0x00],
        'J' => [0x20, 0x40, 0x41, 0x3f, 0x01],
        'K' => [0x7f, 0x08, 0x14, 0x22, 0x41],
        'L' => [0x7f, 0x40, 0x40, 0x40, 0x40],
        'M' => [0x7f, 0x02, 0x0c, 0x02, 0x7f],
        'N' => [0x7f, 0x04, 0x08, 0x10, 0x7f],
        'O' => [0x3e, 0x41, 0x41, 0x41, 0x3e],
        'P' => [0x7f, 0x09, 0x09, 0x09, 0x06],
        'Q' => [0x3e, 0x41, 0x51, 0x21, 0x5e],
        'R' => [0x7f, 0x09, 0x19, 0x29, 0x46],
        'S' => [0x46, 0x49, 0x49, 0x49, 0x31],
        'T' => [0x01, 0x01, 0x7f, 0x01, 0x01],
        'U' => [0x3f, 0x40, 0x40, 0x40, 0x3f],
        'V' => [0x1f, 0x20, 0x40, 0x20, 0x1f],
        'W' => [0x3f, 0x40, 0x38, 0x40, 0x3f],
        'X' => [0x63, 0x14, 0x08, 0x14, 0x63],
        'Y' => [0x07, 0x08, 0x70, 0x08, 0x07],
        'Z' => [0x61, 0x51, 0x49, 0x45, 0x43],
        '0' => [0x3e, 0x51, 0x49, 0x45, 0x3e],
        '1' => [0x00, 0x42, 0x7f, 0x40, 0x00],
        '2' => [0x42, 0x61, 0x51, 0x49, 0x46],
        '3' => [0x21, 0x41, 0x45, 0x4b, 0x31],
        '4' => [0x18, 0x14, 0x12, 0x7f, 0x10],
        '5' => [0x27, 0x45, 0x45, 0x45, 0x39],
        '6' => [0x3c, 0x4a, 0x49, 0x49, 0x30],
        '7' => [0x01, 0x71, 0x09, 0x05, 0x03],
        '8' => [0x36, 0x49, 0x49, 0x49, 0x36],
        '9' => [0x06, 0x49, 0x49, 0x29, 0x1e],
        '-' => [0x08, 0x08, 0x08, 0x08, 0x08],
        ':' => [0x00, 0x36, 0x36, 0x00, 0x00],
        '.' => [0x00, 0x60, 0x60, 0x00, 0x00],
        '/' => [0x20, 0x10, 0x08, 0x04, 0x02],
        '+' => [0x08, 0x08, 0x3e, 0x08, 0x08],
        ' ' => [0x00, 0x00, 0x00, 0x00, 0x00],
        _ => [0x02, 0x01, 0x51, 0x09, 0x06],
    };
    assert(g@ =~= spec_glyph(c));
    g
}

/// Whether a character drawn at scale `s` covers the pixel at offset
/// (dx, dy) from its top-left corner: each font bit is an `s` by `s`
/// square.
pub open spec fn glyph_covers(c: char, s: int, dx: int, dy: int) -> bool {
    0 <= dx < 5 * s && 0 <= dy < 7 * s && bit(spec_glyph(c)[dx / s], dy / s)
}

/// The scale a drawing call uses: at least 1.
pub open spec fn eff_scale(scale: int) -> int {
    if scale < 1 {
        1
    } else {
        scale
    }
}

/// Where the `i`-th character of a text starting at `x0` goes.
pub open spec fn char_x(x0: int, s: int, i: int) -> int {
    x0 + 6 * s * i
}

/// Whether the `i`-th character is drawn: text stops once a character
/// would start at column 156 or later.
pub open spec fn drawn(x0: int, s: int, i: int) -> bool {
    i == 0 || char_x(x0, s, i) < 156
}

/// Whether text `t` drawn at (x0, y0) and scale `s` covers pixel (px, py).
pub open spec fn text_covers(t: Seq<char>, x0: int, y0: int, s: int, px: int, py: int) -> bool {
    exists|i: int|
        0 <= i < t.len() && drawn(x0, s, i) && #[trigger] glyph_covers(
            t[i],
            s,
            px - char_x(x0, s, i),
            py - y0,
        )
}

/// What drawing adds to a buffer: the pixels on the screen that `cov`
/// holds for, turned on.
pub open spec fn drawn_over(a: Seq<u8>, b: Seq<u8>, cov: spec_fn(int, int) -> bool) -> bool {
    forall|px: int, py: int|
        in_buffer(px, py) ==> #[trigger] lit(b, px, py) == (lit(a, px, py) || (py < 43 && cov(
            px,
            py,
        )))
}

/// Whether some column of the glyph of `c` has font row `row` set.
pub open spec fn row_used(c: char, row: int) -> bool {
    let g = spec_glyph(c);
    bit(g[0], row) || bit(g[1], row) || bit(g[2], row) || bit(g[3], row) || bit(g[4], row)
}

/// How many font rows of `c` are drawn, counted down to its lowest set
/// row: 0 for a blank glyph, at most 7.
pub open spec fn glyph_height(c: char) -> int {
    if row_used(c, 6) {
        7
    } else if row_used(c, 5) {
        6
    } else if row_used(c, 4) {
        5
    } else if row_used(c, 3) {
        4
    } else if row_used(c, 2) {
        3
    } else if row_used(c, 1) {
        2
    } else if row_used(c, 0) {
        1
    } else {
        0
    }
}

proof fn lemma_row_below_height(c: char, col: int, row: int)
    requires
        0 <= col < 5,
        0 <= row < 7,
        bit(spec_glyph(c)[col], row),
    ensures
        row < glyph_height(c),
{
    assert(row_used(c, row));
}

/// Exactly the inputs on which drawing text `t` at (x, y) and scale `s`
/// stays in `i32`: after each character drawn, the next column
/// `char_x + 6 * s` is computed, and each pixel of a character lies at
/// most `6 * s - 1` columns right of it and `glyph_height * s - 1` rows
/// below `y`.
pub open spec fn text_fits(x: int, y: int, s: int, t: Seq<char>) -> bool {
    t.len() > 0 ==> {
        &&& 6 * s <= i32::MAX
        &&& forall|k: int|
            0 <= k < t.len() && drawn(x, s, k) ==> #[trigger] char_x(x, s, k) + 6 * s <= i32::MAX
                && y + glyph_height(t[k]) * s - 1 <= i32::MAX
    }
}

impl Frame {
    /// Draws character `c` with its top-left corner at (x, y).
    fn character(&mut self, x: i32, y: i32, c: char, scale: i32)
        requires
            1 <= scale,
            6 * scale <= i32::MAX,
            x + 6 * scale <= i32::MAX,
            y + glyph_height(c) * scale - 1 <= i32::MAX,
        ensures
            drawn_over(
                old(self).buffer@,
                final(self).buffer@,
                |px: int, py: int| glyph_covers(c, scale as int, px - x, py - y),
            ),
    {
        let g = glyph(c);
        let ghost orig = self.buffer@;
        let s: i64 = scale as i64;
        let mut dy: i64 = 0;
        while dy < 7 * s
            invariant
                0 <= dy <= 7 * s,
                s == scale,
                1 <= scale,
                6 * scale <= i32::MAX,
                x + 6 * scale <= i32::MAX,
                y + glyph_height(c) * scale - 1 <= i32::MAX,
                g@ == spec_glyph(c),
                forall|px: int, py: int|
                    in_buffer(px, py) ==> #[trigger] lit(self.buffer@, px, py) == (lit(orig, px, py)
                        || (py < 43 && glyph_covers(c, scale as int, px - x, py - y) && py - y < dy)),
            decreases 7 * s - dy,
        {
            let mut dx: i64 = 0;
            while dx < 5 * s
                invariant
                    0 <= dx <= 5 * s,
                    0 <= dy < 7 * s,
                    s == scale,
                    1 <= scale,
                    6 * scale <= i32::MAX,
                    x + 6 * scale <= i32::MAX,
                    y + glyph_height(c) * scale - 1 <= i32::MAX,
                    g@ == spec_glyph(c),
                    forall|px: int, py: int|
                        in_buffer(px, py) ==> #[trigger] lit(self.buffer@, px, py) == (lit(
                            orig,
                            px,
                            py,
                        ) || (py < 43 && glyph_covers(c, scale as int, px - x, py - y) && (py - y
                            < dy || (py - y == dy && px - x < dx)))),
                decreases 5 * s - dx,
            {
                proof {
                    assert(0 <= dx / s < 5) by (nonlinear_arith)
                        requires
                            0 <= dx < 5 * s,
                            1 <= s,
                    ;
                    assert(0 <= dy / s < 7) by (nonlinear_arith)
                        requires
                            0 <= dy < 7 * s,
                            1 <= s,
                    ;
                }
                let col = (dx / s) as usize;
                let row = (dy / s) as u8;
                let on = (g[col] >> row) & 1u8 == 1u8;
                proof {
                    assert(on == bit(spec_glyph(c)[dx / s], dy / s));
                }
                if on {
                    proof {
                        let h = glyph_height(c);
                        lemma_row_below_height(c, dx / s, dy / s);
                        assert(dy <= h * s - 1) by (nonlinear_arith)
                            requires
                                0 <= dy,
                                1 <= s,
                                dy / s < h,
                        ;
                    }
                    self.set((x as i64 + dx) as i32, (y as i64 + dy) as i32, true);
                }
                dx = dx + 1;
            }
            dy = dy + 1;
        }
    }

    /// Draws `t` from (x, y) at scale `scale` (at least 1), six columns per
    /// character, stopping once a character would start at column 156 or
    /// later.
    pub fn text_chars(&mut self, x: i32, y: i32, t: &Vec<char>, scale: i32)
        requires
            text_fits(x as int, y as int, eff_scale(scale as int), t@),
        ensures
            drawn_over(
                old(self).buffer@,
                final(self).buffer@,
                |px: int, py: int| text_covers(t@, x as int, y as int, eff_scale(scale as int), px, py),
            ),
    {
        let s: i32 = if scale < 1 {
            1
        } else {
            scale
        };
        let ghost orig = self.buffer@;
        let mut cx: i32 = x;
        let mut i: usize = 0;
        proof {
            assert(char_x(x as int, s as int, 0) == x);
        }
        while i < t.len()
            invariant_except_break
                i <= t@.len(),
                cx == char_x(x as int, s as int, i as int),
                i > 0 ==> cx < 156,
            invariant
                1 <= s,
                s == eff_scale(scale as int),
                text_fits(x as int, y as int, s as int, t@),
                i <= t@.len(),
                forall|px: int, py: int|
                    in_buffer(px, py) ==> #[trigger] lit(self.buffer@, px, py) == (lit(orig, px, py)
                        || (py < 43 && exists|j: int|
                        0 <= j < i && drawn(x as int, s as int, j) && #[trigger] glyph_covers(
                            t@[j],
                            s as int,
                            px - char_x(x as int, s as int, j),
                            py - y,
                        ))),
            ensures
                forall|j: int| i <= j < t@.len() ==> !drawn(x as int, s as int, j),
            decreases t@.len() - i,
        {
            proof {
                assert(i == 0 || cx < 156);
                if i == 0 {
                    assert(char_x(x as int, s as int, 0) == x) by (nonlinear_arith);
                }
                assert(drawn(x as int, s as int, i as int));
                assert(cx + 6 * s <= i32::MAX);
                assert(y + glyph_height(t@[i as int]) * s - 1 <= i32::MAX);
            }
            let ghost ci = i as int;
            self.character(cx, y, t[i], s);
            proof {
                assert(drawn(x as int, s as int, ci));
                assert forall|px: int, py: int| in_buffer(px, py) implies #[trigger] lit(self.buffer@, px, py) == (lit(orig, px, py)
                    || (py < 43 && exists|j: int|
                    0 <= j < ci + 1 && drawn(x as int, s as int, j) && #[trigger] glyph_covers(
                        t@[j],
                        s as int,
                        px - char_x(x as int, s as int, j),
                        py - y,
                    ))) by {
                    if py < 43 && glyph_covers(t@[ci], s as int, px - cx, py - y) {
                        assert(glyph_covers(t@[ci], s as int, px - char_x(x as int, s as int, ci), py - y));
                    }
                }
            }
            cx = cx + 6 * s;
            i = i + 1;
            proof {
                assert(char_x(x as int, s as int, i as int) == char_x(x as int, s as int, ci) + 6 * s) by (nonlinear_arith)
                    requires i == ci + 1;
            }
            if cx >= 156 {
                proof {
                    assert forall|j: int| i <= j < t@.len() implies !drawn(x as int, s as int, j) by {
                        assert(char_x(x as int, s as int, j) >= char_x(x as int, s as int, i as int)) by (nonlinear_arith)
                            requires j >= i, s >= 1;
                    }
                }
                break;
            }
        }
    }

    /// Draws text from (x, y); see `text_chars`.
    pub fn text(&mut self, x: i32, y: i32, text: &str, scale: i32)
        requires
            text_fits(x as int, y as int, eff_scale(scale as int), text@),
        ensures
            drawn_over(
                old(self).buffer@,
                final(self).buffer@,
                |px: int, py: int| text_covers(text@, x as int, y as int, eff_scale(scale as int), px, py),
            ),
    {
        let t = chars_of(text);
        self.text_chars(x, y, &t, scale);
    }
}

/// Drawing text only turns pixels on: every pixel that was on stays on,
/// and an empty text leaves the buffer as it was.
pub proof fn lemma_text_only_sets(before: Frame, after: Frame, t: Seq<char>, x: int, y: int, scale: int)
    requires
        drawn_over(
            before.buffer@,
            after.buffer@,
            |px: int, py: int| text_covers(t, x, y, eff_scale(scale), px, py),
        ),
    ensures
        forall|px: int, py: int|
            in_buffer(px, py) && lit(before.buffer@, px, py) ==> #[trigger] lit(after.buffer@, px, py),
        t.len() == 0 ==> after == before,
{
    if t.len() == 0 {
        assert forall|px: int, py: int| in_buffer(px, py) implies #[trigger] lit(before.buffer@, px, py) == lit(after.buffer@, px, py) by {
            assert(!text_covers(t, x, y, eff_scale(scale), px, py));
        }
        lemma_same_pixels(before.buffer@, after.buffer@);
        assert(after.buffer == before.buffer);
    }
}

/// A scale of 0 or below draws as scale 1 does: from the same frame, text
/// drawn at such a scale and the same text drawn at scale 1 give the same
/// frame.
pub proof fn lemma_text_scale_floor(
    before: Frame,
    low: Frame,
    one: Frame,
    t: Seq<char>,
    x: int,
    y: int,
    scale: int,
)
    requires
        scale <= 0,
        drawn_over(
            before.buffer@,
            low.buffer@,
            |px: int, py: int| text_covers(t, x, y, eff_scale(scale), px, py),
        ),
        drawn_over(
            before.buffer@,
            one.buffer@,
            |px: int, py: int| text_covers(t, x, y, eff_scale(1), px, py),
        ),
    ensures
        low == one,
{
    assert(eff_scale(scale) == eff_scale(1));
    assert forall|px: int, py: int| in_buffer(px, py) implies #[trigger] lit(low.buffer@, px, py) == lit(one.buffer@, px, py) by {
        assert(lit(low.buffer@, px, py) == (lit(before.buffer@, px, py) || (py < 43 && text_covers(t, x, y, eff_scale(scale), px, py))));
        assert(lit(one.buffer@, px, py) == (lit(before.buffer@, px, py) || (py < 43 && text_covers(t, x, y, eff_scale(1), px, py))));
    }
    lemma_same_pixels(low.buffer@, one.buffer@);
    assert(low.buffer == one.buffer);
}

/// The column where aligned text of `n` characters at scale `s` starts:
/// two columns in from the left or right edge, or centered.
pub open spec fn aligned_x(n: int, s: int, align: LcdAlign) -> int {
    let width = n * 6 * s - s;
    match align {
        LcdAlign::Left => 2,
        LcdAlign::Center => if 160 - width >= 0 {
            (160 - width) / 2
        } else {
            0
        },
        LcdAlign::Right => if 158 - width >= 0 {
            158 - width
        } else {
            0
        },
    }
}

/// Text at scale 1 from a column at most 160 and a row at most 1000 stays
/// in `i32`.
proof fn lemma_fits_at_scale_one(x: int, y: int, t: Seq<char>)
    requires
        x <= 160,
        y <= 1000,
    ensures
        text_fits(x, y, 1, t),
{
    assert forall|k: int| 0 <= k < t.len() && drawn(x, 1, k) implies #[trigger] char_x(x, 1, k) + 6 * 1
        <= i32::MAX && y + glyph_height(t[k]) * 1 - 1 <= i32::MAX by {
        assert(glyph_height(t[k]) <= 7);
    }
}

/// Aligned text at scale 1 starts at column 160 or before.
proof fn lemma_aligned_on_screen(n: int, align: LcdAlign)
    requires
        n >= 0,
    ensures
        aligned_x(n, 1, align) <= 160,
{
}

impl Frame {
    /// Draws `t` on row `y`, aligned left, centered or right.
    pub fn text_aligned_chars(&mut self, y: i32, t: &Vec<char>, scale: i32, align: LcdAlign)
        requires
            t@.len() * 6 * eff_scale(scale as int) <= i32::MAX,
            t@.len() == 0 && align == LcdAlign::Center ==> 160 + eff_scale(scale as int) <= i32::MAX,
            t@.len() == 0 && align == LcdAlign::Right ==> 158 + eff_scale(scale as int) <= i32::MAX,
            text_fits(
                aligned_x(t@.len() as int, eff_scale(scale as int), align),
                y as int,
                eff_scale(scale as int),
                t@,
            ),
        ensures
            drawn_over(
                old(self).buffer@,
                final(self).buffer@,
                |px: int, py: int|
                    text_covers(
                        t@,
                        aligned_x(t@.len() as int, eff_scale(scale as int), align),
                        y as int,
                        eff_scale(scale as int),
                        px,
                        py,
                    ),
            ),
    {
        let s: i32 = if scale < 1 {
            1
        } else {
            scale
        };
        let n = t.len();
        proof {
            assert(n * 6 * s >= 0) by (nonlinear_arith)
                requires s >= 1;
            assert(n <= n * 6 * s) by (nonlinear_arith)
                requires s >= 1;
            assert(n * 6 <= n * 6 * s) by (nonlinear_arith)
                requires s >= 1;
        }
        let width: i32 = (n as i32) * 6 * s - s;
        let x: i32 = match align {
            LcdAlign::Left => 2,
            LcdAlign::Center => if 160 - width >= 0 {
                (160 - width) / 2
            } else {
                0
            },
            LcdAlign::Right => if 158 - width >= 0 {
                158 - width
            } else {
                0
            },
        };
        self.text_chars(x, y, t, scale);
    }

    /// Draws `text` on row `y`, aligned left, centered or right.
    pub fn text_aligned(&mut self, y: i32, text: &str, scale: i32, align: LcdAlign)
        requires
            text@.len() * 6 * eff_scale(scale as int) <= i32::MAX,
            text@.len() == 0 && align == LcdAlign::Center ==> 160 + eff_scale(scale as int) <= i32::MAX,
            text@.len() == 0 && align == LcdAlign::Right ==> 158 + eff_scale(scale as int) <= i32::MAX,
            text_fits(
                aligned_x(text@.len() as int, eff_scale(scale as int), align),
                y as int,
                eff_scale(scale as int),
                text@,
            ),
        ensures
            drawn_over(
                old(self).buffer@,
                final(self).buffer@,
                |px: int, py: int|
                    text_covers(
                        text@,
                        aligned_x(text@.len() as int, eff_scale(scale as int), align),
                        y as int,
                        eff_scale(scale as int),
                        px,
                        py,
                    ),
            ),
    {
        let t = chars_of(text);
        self.text_aligned_chars(y, &t, scale, align);
    }
}

/// No pixel of the frame is on.
pub open spec fn blank(f: Frame) -> bool {
    forall|px: int, py: int| in_buffer(px, py) ==> !#[trigger] lit(f.buffer@, px, py)
}

/// A blank frame, as shown when the LCD is cleared.
pub fn clear() -> (f: Frame)
    ensures
        blank(f),
{
    Frame::new()
}

/// A number of 0..=255 in three digits, with leading zeros.
pub open spec fn pad3(n: u8) -> Seq<char> {
    seq![digit((n / 100) as int), digit(((n / 10) % 10) as int), digit((n % 10) as int)]
}

/// Parts joined with `+`.
pub open spec fn join_plus(parts: Seq<Seq<char>>) -> Seq<char>
    decreases parts.len(),
{
    if parts.len() == 0 {
        Seq::empty()
    } else if parts.len() == 1 {
        parts[0]
    } else {
        join_plus(parts.drop_last()) + seq!['+'] + parts.last()
    }
}

/// Text at scale 1 from column 2 covers the pixel.
pub open spec fn line_at(t: Seq<char>, y: int, px: int, py: int) -> bool {
    text_covers(t, 2, y, 1, px, py)
}

/// Centered text at scale 1 covers the pixel.
pub open spec fn centered_at(t: Seq<char>, y: int, px: int, py: int) -> bool {
    text_covers(t, aligned_x(t.len() as int, 1, LcdAlign::Center), y, 1, px, py)
}

/// The status page: name, profile, bank and recorder state under a rule.
pub open spec fn status_page(profile: Seq<char>, bank: u8, recording: bool, px: int, py: int) -> bool {
    ||| line_at("G13 NEXUS"@, 1, px, py)
    ||| py == 9
    ||| line_at("PROFILE: "@ + profile, 12, px, py)
    ||| line_at("BANK: M"@ + decimal(bank as nat), 22, px, py)
    ||| line_at(
        if recording {
            "MR: RECORDING"@
        } else {
            "MR: READY"@
        },
        32,
        px,
        py,
    )
}

/// The custom page: four lines, each with its alignment.
pub open spec fn custom_page(lines: Seq<Seq<char>>, align: Seq<LcdAlign>, px: int, py: int) -> bool {
    exists|r: int|
        0 <= r < 4 && #[trigger] text_covers(
            lines[r],
            aligned_x(lines[r].len() as int, 1, align[r]),
            1 + r * 10,
            1,
            px,
            py,
        )
}

/// The input monitor page: stick position, pressed controls, bank and
/// profile.
pub open spec fn monitor_page(profile: Seq<char>, bank: u8, x: u8, y: u8, pressed: Seq<Seq<char>>, px: int, py: int) -> bool {
    ||| line_at("INPUT MONITOR"@, 1, px, py)
    ||| py == 9
    ||| line_at("X:"@ + pad3(x) + " Y:"@ + pad3(y), 12, px, py)
    ||| line_at(
        if pressed.len() == 0 {
            "NONE"@
        } else {
            join_plus(pressed)
        },
        22,
        px,
        py,
    )
    ||| line_at(seq!['M'] + decimal(bank as nat) + seq![' '] + profile, 32, px, py)
}

/// The image page where no image is drawn: a note that there is none, or
/// that it could not be read.
pub open spec fn image_note_page(no_path: bool, px: int, py: int) -> bool {
    if no_path {
        centered_at("NO IMAGE"@, 17, px, py)
    } else {
        centered_at("IMAGE ERROR"@, 12, px, py) || centered_at("CHECK PATH"@, 24, px, py)
    }
}

fn lit_chars(s: &str) -> (v: Vec<char>)
    ensures
        v@ == s@,
{
    chars_of(s)
}

fn push_str(v: &mut Vec<char>, s: &str)
    ensures
        final(v)@ == old(v)@ + s@,
{
    let t = chars_of(s);
    extend_chars(v, &t);
}

/// Whether the LCD would show the image: it is on, on page 3, and the
/// image path is not blank. Only then does `show` use the image frame.
pub fn wants_image(enabled: bool, page: u8, image_path: &str) -> (r: bool)
    ensures
        r == (enabled && page % 4 == 3 && trim(image_path@).len() > 0),
{
    enabled && page % 4 == 3 && trim_chars(&chars_of(image_path)).len() > 0
}

/// Whether `f` is the frame the LCD shows: blank when it is off; on page
/// 3 with an image path that is not blank, the image frame where there is
/// one; else the page `page % 4`, drawn on a blank frame.
pub open spec fn shows(
    profile: Seq<char>,
    bank: u8,
    recording: bool,
    enabled: bool,
    page: u8,
    custom: Seq<Seq<char>>,
    align: Seq<LcdAlign>,
    image_path: Seq<char>,
    image: Option<Frame>,
    x: u8,
    y: u8,
    pressed: Seq<Seq<char>>,
    f: Frame,
) -> bool {
    let no_path = trim(image_path).len() == 0;
    if !enabled {
        blank(f)
    } else if page % 4 == 3 && !no_path && image is Some {
        f == image->0
    } else {
        forall|px: int, py: int|
            in_buffer(px, py) ==> #[trigger] lit(f.buffer@, px, py) == (py < 43 && if page % 4 == 0 {
                status_page(profile, bank, recording, px, py)
            } else if page % 4 == 1 {
                custom_page(custom, align, px, py)
            } else if page % 4 == 2 {
                monitor_page(profile, bank, x, y, pressed, px, py)
            } else {
                image_note_page(no_path, px, py)
            })
    }
}

/// With the LCD off, `show` gives the frame that `clear` gives, whatever
/// else it is handed.
pub proof fn lemma_show_off_is_clear(
    profile: Seq<char>,
    bank: u8,
    recording: bool,
    page: u8,
    custom: Seq<Seq<char>>,
    align: Seq<LcdAlign>,
    image_path: Seq<char>,
    image: Option<Frame>,
    x: u8,
    y: u8,
    pressed: Seq<Seq<char>>,
    f: Frame,
    cleared: Frame,
)
    requires
        shows(profile, bank, recording, false, page, custom, align, image_path, image, x, y, pressed, f),
        blank(cleared),
    ensures
        f == cleared,
{
    assert forall|px: int, py: int| in_buffer(px, py) implies #[trigger] lit(f.buffer@, px, py) == lit(cleared.buffer@, px, py) by {
        assert(!lit(f.buffer@, px, py));
        assert(!lit(cleared.buffer@, px, py));
    }
    lemma_same_pixels(f.buffer@, cleared.buffer@);
    assert(f.buffer == cleared.buffer);
}

/// Pages wrap around: page `page` shows what page `page % 4` shows.
pub proof fn lemma_show_page_wraps(
    profile: Seq<char>,
    bank: u8,
    recording: bool,
    enabled: bool,
    page: u8,
    custom: Seq<Seq<char>>,
    align: Seq<LcdAlign>,
    image_path: Seq<char>,
    image: Option<Frame>,
    x: u8,
    y: u8,
    pressed: Seq<Seq<char>>,
    f: Frame,
    g: Frame,
)
    requires
        shows(profile, bank, recording, enabled, page, custom, align, image_path, image, x, y, pressed, f),
        shows(
            profile,
            bank,
            recording,
            enabled,
            page % 4,
            custom,
            align,
            image_path,
            image,
            x,
            y,
            pressed,
            g,
        ),
    ensures
        f == g,
{
    let no_path = trim(image_path).len() == 0;
    assert((page % 4) % 4 == page % 4);
    if enabled && page % 4 == 3 && !no_path && image is Some {
    } else {
        assert forall|px: int, py: int| in_buffer(px, py) implies #[trigger] lit(f.buffer@, px, py) == lit(g.buffer@, px, py) by {
            if !enabled {
                assert(!lit(f.buffer@, px, py));
                assert(!lit(g.buffer@, px, py));
            }
        }
        lemma_same_pixels(f.buffer@, g.buffer@);
        assert(f.buffer == g.buffer);
    }
}

/// The frame that the LCD shows. `image` is the frame drawn from the image
/// file of page 3 (the application decodes and scales it), `None` where
/// that failed; it is used only on page 3 with an image path that is not
/// blank.
pub fn show(
    profile: &str,
    bank: u8,
    recording: bool,
    enabled: bool,
    page: u8,
    custom: &[String; 4],
    align: &[LcdAlign; 4],
    image_path: &str,
    image: Option<Frame>,
    x: u8,
    y: u8,
    pressed: &Vec<String>,
) -> (f: Frame)
    requires
        enabled && page % 4 == 1 ==> forall|r: int|
            0 <= r < 4 ==> (#[trigger] custom@[r])@.len() * 6 <= i32::MAX,
    ensures
        shows(
            profile@,
            bank,
            recording,
            enabled,
            page,
            custom@.map_values(|s: String| s@),
            align@,
            image_path@,
            image,
            x,
            y,
            views(pressed@),
            f,
        ),
{
    if !enabled {
        return clear();
    }
    let mut frame = Frame::new();
    let ghost blank = frame.buffer@;
    let p = page % 4;
    if p == 0 {
        proof {
            lemma_fits_at_scale_one(2, 1, "G13 NEXUS"@);
        }
        frame.text(2, 1, "G13 NEXUS", 1);
        let ghost f1 = frame.buffer@;
        frame.hline(9);
        let ghost f2 = frame.buffer@;
        let mut t = lit_chars("PROFILE: ");
        push_str(&mut t, profile);
        proof {
            lemma_fits_at_scale_one(2, 12, t@);
        }
        frame.text_chars(2, 12, &t, 1);
        let ghost f3 = frame.buffer@;
        let mut b = lit_chars("BANK: M");
        extend_chars(&mut b, &decimal_chars(bank as u64));
        proof {
            lemma_fits_at_scale_one(2, 22, b@);
        }
        frame.text_chars(2, 22, &b, 1);
        let ghost f4 = frame.buffer@;
        if recording {
            proof {
                lemma_fits_at_scale_one(2, 32, "MR: RECORDING"@);
            }
            frame.text(2, 32, "MR: RECORDING", 1);
        } else {
            proof {
                lemma_fits_at_scale_one(2, 32, "MR: READY"@);
            }
            frame.text(2, 32, "MR: READY", 1);
        }
        proof {
            assert forall|px: int, py: int| in_buffer(px, py) implies #[trigger] lit(frame.buffer@, px, py) == (py < 43 && status_page(profile@, bank, recording, px, py)) by {
                assert(lit(f1, px, py) == (lit(blank, px, py) || (py < 43 && text_covers("G13 NEXUS"@, 2, 1, 1, px, py))));
                assert(lit(f2, px, py) == (lit(f1, px, py) || (py == 9 && py < 43)));
                assert(lit(f3, px, py) == (lit(f2, px, py) || (py < 43 && text_covers(t@, 2, 12, 1, px, py))));
                assert(lit(f4, px, py) == (lit(f3, px, py) || (py < 43 && text_covers(b@, 2, 22, 1, px, py))));
            }
        }
    } else if p == 1 {
        let mut r: usize = 0;
        while r < 4
            invariant
                r <= 4,
                forall|q: int| 0 <= q < 4 ==> (#[trigger] custom@[q])@.len() * 6 <= i32::MAX,
                forall|px: int, py: int|
                    in_buffer(px, py) ==> #[trigger] lit(frame.buffer@, px, py) == (py < 43 && exists|q: int|
                        0 <= q < r && #[trigger] text_covers(
                            custom@[q]@,
                            aligned_x(custom@[q]@.len() as int, 1, align@[q]),
                            1 + q * 10,
                            1,
                            px,
                            py,
                        )),
            decreases 4 - r,
        {
            let ghost before = frame.buffer@;
            let line = chars_of(custom[r].as_str());
            assert(eff_scale(1) == 1);
            assert(line@.len() * 6 * 1 == line@.len() * 6) by (nonlinear_arith);
            assert(line@ == custom@[r as int]@);
            proof {
                lemma_aligned_on_screen(line@.len() as int, align@[r as int]);
                lemma_fits_at_scale_one(aligned_x(line@.len() as int, 1, align@[r as int]), 1 + r * 10, line@);
            }
            frame.text_aligned_chars(1 + (r as i32) * 10, &line, 1, align[r]);
            proof {
                assert forall|px: int, py: int| in_buffer(px, py) implies #[trigger] lit(frame.buffer@, px, py) == (py < 43 && exists|q: int|
                    0 <= q < r + 1 && #[trigger] text_covers(
                        custom@[q]@,
                        aligned_x(custom@[q]@.len() as int, 1, align@[q]),
                        1 + q * 10,
                        1,
                        px,
                        py,
                    )) by {
                    assert(lit(before, px, py) == (py < 43 && exists|q: int|
                        0 <= q < r && #[trigger] text_covers(
                            custom@[q]@,
                            aligned_x(custom@[q]@.len() as int, 1, align@[q]),
                            1 + q * 10,
                            1,
                            px,
                            py,
                        )));
                }
            }
            r = r + 1;
        }
        proof {
            let lines = custom@.map_values(|s: String| s@);
            assert forall|px: int, py: int| in_buffer(px, py) implies #[trigger] lit(frame.buffer@, px, py) == (py < 43 && custom_page(lines, align@, px, py)) by {
                if custom_page(lines, align@, px, py) {
                    let q = choose|q: int| 0 <= q < 4 && #[trigger] text_covers(
                        lines[q],
                        aligned_x(lines[q].len() as int, 1, align@[q]),
                        1 + q * 10,
                        1,
                        px,
                        py,
                    );
                    assert(lines[q] == custom@[q]@);
                }
                if exists|q: int|
                    0 <= q < 4 && #[trigger] text_covers(
                        custom@[q]@,
                        aligned_x(custom@[q]@.len() as int, 1, align@[q]),
                        1 + q * 10,
                        1,
                        px,
                        py,
                    ) {
                    let q = choose|q: int|
                        0 <= q < 4 && #[trigger] text_covers(
                            custom@[q]@,
                            aligned_x(custom@[q]@.len() as int, 1, align@[q]),
                            1 + q * 10,
                            1,
                            px,
                            py,
                        );
                    assert(lines[q] == custom@[q]@);
                }
            }
        }
    } else if p == 2 {
        proof {
            lemma_fits_at_scale_one(2, 1, "INPUT MONITOR"@);
        }
        frame.text(2, 1, "INPUT MONITOR", 1);
        let ghost f1 = frame.buffer@;
        frame.hline(9);
        let ghost f2 = frame.buffer@;
        let mut xy = lit_chars("X:");
        let xd = vec![digit_char((x / 100) as u64), digit_char(((x / 10) % 10) as u64), digit_char((x % 10) as u64)];
        let yd = vec![digit_char((y / 100) as u64), digit_char(((y / 10) % 10) as u64), digit_char((y % 10) as u64)];
        extend_chars(&mut xy, &xd);
        push_str(&mut xy, " Y:");
        extend_chars(&mut xy, &yd);
        proof {
            assert(xd@ =~= pad3(x));
            assert(yd@ =~= pad3(y));
        }
        proof {
            lemma_fits_at_scale_one(2, 12, xy@);
        }
        frame.text_chars(2, 12, &xy, 1);
        let ghost f3 = frame.buffer@;
        let pl = pressed_line(pressed);
        proof {
            lemma_fits_at_scale_one(2, 22, pl@);
        }
        frame.text_chars(2, 22, &pl, 1);
        let ghost f4 = frame.buffer@;
        let mut mb: Vec<char> = vec!['M'];
        extend_chars(&mut mb, &decimal_chars(bank as u64));
        mb.push(' ');
        push_str(&mut mb, profile);
        proof {
            assert(mb@ =~= seq!['M'] + decimal(bank as nat) + seq![' '] + profile@);
        }
        proof {
            lemma_fits_at_scale_one(2, 32, mb@);
        }
        frame.text_chars(2, 32, &mb, 1);
        proof {
            assert forall|px: int, py: int| in_buffer(px, py) implies #[trigger] lit(frame.buffer@, px, py) == (py < 43 && monitor_page(profile@, bank, x, y, views(pressed@), px, py)) by {
                assert(lit(f1, px, py) == (lit(blank, px, py) || (py < 43 && text_covers("INPUT MONITOR"@, 2, 1, 1, px, py))));
                assert(lit(f2, px, py) == (lit(f1, px, py) || (py == 9 && py < 43)));
                assert(lit(f3, px, py) == (lit(f2, px, py) || (py < 43 && text_covers(xy@, 2, 12, 1, px, py))));
                assert(lit(f4, px, py) == (lit(f3, px, py) || (py < 43 && text_covers(pl@, 2, 22, 1, px, py))));
            }
        }
    } else {
        let no_path = trim_chars(&chars_of(image_path)).len() == 0;
        if no_path {
            proof {
                reveal_strlit("NO IMAGE");
                assert(eff_scale(1) == 1);
                assert("NO IMAGE"@.len() * 6 * 1 == 48) by (nonlinear_arith)
                    requires "NO IMAGE"@.len() == 8;
            }
            proof {
                lemma_aligned_on_screen("NO IMAGE"@.len() as int, LcdAlign::Center);
                lemma_fits_at_scale_one(aligned_x("NO IMAGE"@.len() as int, 1, LcdAlign::Center), 17, "NO IMAGE"@);
            }
            frame.text_aligned(17, "NO IMAGE", 1, LcdAlign::Center);
        } else {
            match image {
                Some(img) => {
                    return img;
                },
                None => {
                    proof {
                        reveal_strlit("IMAGE ERROR");
                        reveal_strlit("CHECK PATH");
                        assert(eff_scale(1) == 1);
                        assert("IMAGE ERROR"@.len() * 6 * 1 == 66) by (nonlinear_arith)
                            requires "IMAGE ERROR"@.len() == 11;
                        assert("CHECK PATH"@.len() * 6 * 1 == 60) by (nonlinear_arith)
                            requires "CHECK PATH"@.len() == 10;
                    }
                    proof {
                        lemma_aligned_on_screen("IMAGE ERROR"@.len() as int, LcdAlign::Center);
                        lemma_fits_at_scale_one(aligned_x("IMAGE ERROR"@.len() as int, 1, LcdAlign::Center), 12, "IMAGE ERROR"@);
                    }
                    frame.text_aligned(12, "IMAGE ERROR", 1, LcdAlign::Center);
                    let ghost f1 = frame.buffer@;
                    proof {
                        lemma_aligned_on_screen("CHECK PATH"@.len() as int, LcdAlign::Center);
                        lemma_fits_at_scale_one(aligned_x("CHECK PATH"@.len() as int, 1, LcdAlign::Center), 24, "CHECK PATH"@);
                    }
                    frame.text_aligned(24, "CHECK PATH", 1, LcdAlign::Center);
                    proof {
                        assert forall|px: int, py: int| in_buffer(px, py) implies #[trigger] lit(frame.buffer@, px, py) == (py < 43 && image_note_page(false, px, py)) by {
                            assert(lit(f1, px, py) == (lit(blank, px, py) || (py < 43 && centered_at("IMAGE ERROR"@, 12, px, py))));
                        }
                    }
                },
            }
        }
    }
    frame
}

/// The pressed controls joined with `+`, or `NONE`.
fn pressed_line(pressed: &Vec<String>) -> (r: Vec<char>)
    ensures
        r@ == if pressed@.len() == 0 {
            "NONE"@
        } else {
            join_plus(views(pressed@))
        },
{
    if pressed.len() == 0 {
        return lit_chars("NONE");
    }
    let mut r = chars_of(pressed[0].as_str());
    let mut i: usize = 1;
    proof {
        assert(views(pressed@).take(1) =~= seq![pressed@[0]@]);
    }
    while i < pressed.len()
        invariant
            1 <= i <= pressed@.len(),
            r@ == join_plus(views(pressed@).take(i as int)),
        decreases pressed@.len() - i,
    {
        r.push('+');
        let t = chars_of(pressed[i].as_str());
        extend_chars(&mut r, &t);
        proof {
            let k = views(pressed@).take(i + 1);
            assert(k.drop_last() =~= views(pressed@).take(i as int));
        }
        i = i + 1;
    }
    assert(views(pressed@).take(pressed@.len() as int) =~= views(pressed@));
    r
}

/// Whether the gray value at column `gx`, row `gy` of an image `w` pixels
/// wide is dark (below 128), so that its LCD pixel is on.
pub open spec fn dark_at(pix: Seq<u8>, w: int, gx: int, gy: int) -> bool {
    pix[gy * w + gx] < 128
}

/// Whether screen pixel (px, py) lies in the image placed at (ox, oy) with
/// its first `rows` rows, and in the row after them its first `cols`
/// columns.
pub open spec fn in_placed(px: int, py: int, ox: int, oy: int, w: int, rows: int, cols: int) -> bool {
    on_screen(px, py) && ox <= px < ox + w && ((oy <= py < oy + rows) || (py == oy + rows && px < ox
        + cols))
}

impl Frame {
    /// Draws a gray image, given row by row, `w` by `h` pixels, with its
    /// top left corner at (ox, oy): a pixel is on where the gray is below
    /// 128, off elsewhere; what falls off the screen is cut.
    pub fn blit_gray(&mut self, pix: &Vec<u8>, w: u32, h: u32, ox: i32, oy: i32)
        requires
            pix@.len() == w * h,
            w <= 0x8000,
            h <= 0x8000,
            -0x4000_0000 <= ox <= 0x4000_0000,
            -0x4000_0000 <= oy <= 0x4000_0000,
        ensures
            forall|px: int, py: int|
                in_buffer(px, py) ==> #[trigger] lit(final(self).buffer@, px, py) == if on_screen(
                    px,
                    py,
                ) && ox <= px < ox + w && oy <= py < oy + h {
                    dark_at(pix@, w as int, px - ox, py - oy)
                } else {
                    lit(old(self).buffer@, px, py)
                },
    {
        let mut yy: u32 = 0;
        while yy < h
            invariant
                yy <= h,
                pix@.len() == w * h,
                w <= 0x8000,
                h <= 0x8000,
                -0x4000_0000 <= ox <= 0x4000_0000,
                -0x4000_0000 <= oy <= 0x4000_0000,
                forall|px: int, py: int|
                    in_buffer(px, py) ==> #[trigger] lit(self.buffer@, px, py) == if in_placed(
                        px,
                        py,
                        ox as int,
                        oy as int,
                        w as int,
                        yy as int,
                        0,
                    ) {
                        dark_at(pix@, w as int, px - ox, py - oy)
                    } else {
                        lit(old(self).buffer@, px, py)
                    },
            decreases h - yy,
        {
            let mut xx: u32 = 0;
            assert((yy as int) * (w as int) <= 0x4000_0000) by (nonlinear_arith)
                requires
                    yy < h,
                    h <= 0x8000,
                    w <= 0x8000,
            ;
            let row: usize = (yy as usize) * (w as usize);
            assert(row + w <= w * h) by (nonlinear_arith)
                requires
                    row == yy * w,
                    yy < h,
            ;
            while xx < w
                invariant
                    xx <= w,
                    yy < h,
                    row == yy * w,
                    row + w <= w * h,
                    row <= 0x4000_0000,
                    pix@.len() == w * h,
                    h <= 0x8000,
                    w <= 0x8000,
                    -0x4000_0000 <= ox <= 0x4000_0000,
                    -0x4000_0000 <= oy <= 0x4000_0000,
                    forall|px: int, py: int|
                        in_buffer(px, py) ==> #[trigger] lit(self.buffer@, px, py) == if in_placed(
                            px,
                            py,
                            ox as int,
                            oy as int,
                            w as int,
                            yy as int,
                            xx as int,
                        ) {
                            dark_at(pix@, w as int, px - ox, py - oy)
                        } else {
                            lit(old(self).buffer@, px, py)
                        },
                decreases w - xx,
            {
                let g = pix[row + xx as usize];
                let ghost before = self.buffer@;
                let sx = ox + xx as i32;
                let sy = oy + yy as i32;
                self.set(sx, sy, g < 128);
                proof {
                    assert(dark_at(pix@, w as int, xx as int, yy as int) == (g < 128));
                    assert forall|px: int, py: int| in_buffer(px, py) implies #[trigger] lit(
                        self.buffer@,
                        px,
                        py,
                    ) == if in_placed(px, py, ox as int, oy as int, w as int, yy as int, xx + 1) {
                        dark_at(pix@, w as int, px - ox, py - oy)
                    } else {
                        lit(old(self).buffer@, px, py)
                    } by {
                        assert(lit(before, px, py) == if in_placed(
                            px,
                            py,
                            ox as int,
                            oy as int,
                            w as int,
                            yy as int,
                            xx as int,
                        ) {
                            dark_at(pix@, w as int, px - ox, py - oy)
                        } else {
                            lit(old(self).buffer@, px, py)
                        });
                        if px == sx && py == sy {
                            assert(px - ox == xx && py - oy == yy);
                        } else {
                            assert(in_placed(px, py, ox as int, oy as int, w as int, yy as int, xx + 1)
                                == in_placed(px, py, ox as int, oy as int, w as int, yy as int, xx as int));
                        }
                    }
                }
                xx = xx + 1;
            }
            proof {
                assert forall|px: int, py: int| in_buffer(px, py) implies #[trigger] lit(
                    self.buffer@,
                    px,
                    py,
                ) == if in_placed(px, py, ox as int, oy as int, w as int, yy + 1, 0) {
                    dark_at(pix@, w as int, px - ox, py - oy)
                } else {
                    lit(old(self).buffer@, px, py)
                } by {
                    assert(in_placed(px, py, ox as int, oy as int, w as int, yy + 1, 0) == in_placed(
                        px,
                        py,
                        ox as int,
                        oy as int,
                        w as int,
                        yy as int,
                        w as int,
                    ));
                }
            }
            yy = yy + 1;
        }
    }

    /// Every pixel of the screen, row by row, as a preview shows them.
    pub fn pixels(&self) -> (r: Vec<bool>)
        ensures
            r@.len() == 160 * 43,
            forall|x: int, y: int|
                0 <= x < 160 && 0 <= y < 43 ==> #[trigger] r@[y * 160 + x] == lit(self.buffer@, x, y),
    {
        let mut r: Vec<bool> = Vec::new();
        let mut y: usize = 0;
        while y < H
            invariant
                y <= 43,
                r@.len() == y * 160,
                forall|px: int, py: int|
                    0 <= px < 160 && 0 <= py < y ==> #[trigger] r@[py * 160 + px] == lit(
                        self.buffer@,
                        px,
                        py,
                    ),
            decreases 43 - y,
        {
            let mut x: usize = 0;
            while x < W
                invariant
                    x <= 160,
                    y < 43,
                    r@.len() == y * 160 + x,
                    forall|px: int, py: int|
                        ((0 <= px < 160 && 0 <= py < y) || (py == y && 0 <= px < x)) ==> #[trigger] r@[py
                            * 160 + px] == lit(self.buffer@, px, py),
                decreases 160 - x,
            {
                r.push(self.pixel(x, y));
                x = x + 1;
            }
            y = y + 1;
        }
        r
    }
}

/// The gray values, row by row, of the `dw` by `dh` image that
/// `image::imageops::resize` with the triangle filter makes of the `w` by
/// `h` gray image `gray`.
pub uninterp spec fn resized_gray(gray: Seq<u8>, w: u32, h: u32, dw: u32, dh: u32) -> Seq<u8>;

/// Scales a gray image with `image::imageops::resize` and the triangle
/// filter. Trusted: the result is `resized_gray` of the arguments; it has
/// `dw * dh` values (the crate allocates the result at that size); an image
/// kept at its own size comes back unchanged (the crate copies it then).
#[verifier::external_body]
fn resize_gray(gray: &Vec<u8>, w: u32, h: u32, dw: u32, dh: u32) -> (r: Vec<u8>)
    requires
        gray@.len() == w * h,
    ensures
        r@ == resized_gray(gray@, w, h, dw, dh),
        r@.len() == dw * dh,
        (dw == w && dh == h && w > 0 && h > 0) ==> r@ == gray@,
{
    match image::GrayImage::from_raw(w, h, gray.clone()) {
        Some(img) => image::imageops::resize(&img, dw, dh, image::imageops::FilterType::Triangle).into_raw(),
        None => Vec::new(),
    }
}

impl Frame {
    /// Draws a gray image of `w` by `h` pixels scaled to `dw` by `dh` (at
    /// most eight screens wide and high), with its top left corner at
    /// (ox, oy): where the scaled gray is below 128
    /// the pixel is on, elsewhere off; what falls off the screen is cut.
    pub fn draw_image(
        &mut self,
        gray: &Vec<u8>,
        w: u32,
        h: u32,
        dw: u32,
        dh: u32,
        ox: i32,
        oy: i32,
    )
        requires
            gray@.len() == w * h,
            dw <= 1280,
            dh <= 344,
            -0x4000_0000 <= ox <= 0x4000_0000,
            -0x4000_0000 <= oy <= 0x4000_0000,
        ensures
            forall|px: int, py: int|
                in_buffer(px, py) ==> #[trigger] lit(final(self).buffer@, px, py) == if on_screen(
                    px,
                    py,
                ) && ox <= px < ox + dw && oy <= py < oy + dh {
                    dark_at(resized_gray(gray@, w, h, dw, dh), dw as int, px - ox, py - oy)
                } else {
                    lit(old(self).buffer@, px, py)
                },
    {
        let scaled = resize_gray(gray, w, h, dw, dh);
        self.blit_gray(&scaled, dw, dh, ox, oy);
    }
}

/// Whether a hidraw node's device path names the G13 (`046D:C21C`).
pub open spec fn names_g13(device: Seq<char>) -> bool {
    exists|i: int| 0 <= i <= device.len() - 9 && #[trigger] device.subrange(i, i + 9) == "046D:C21C"@
}

fn mentions_g13(device: &str) -> (r: bool)
    ensures
        r == names_g13(device@),
{
    let v = chars_of(device);
    let pat = chars_of("046D:C21C");
    proof {
        reveal_strlit("046D:C21C");
    }
    if v.len() < 9 {
        assert forall|i: int| 0 <= i <= device@.len() - 9 implies #[trigger] device@.subrange(i, i + 9) != "046D:C21C"@ by {}
        return false;
    }
    let mut i: usize = 0;
    let n = v.len();
    while i <= n - 9
        invariant
            n == v@.len(),
            v@ == device@,
            pat@ == "046D:C21C"@,
            pat@.len() == 9,
            9 <= v@.len(),
            i <= v@.len() - 8,
            forall|k: int| 0 <= k < i ==> #[trigger] device@.subrange(k, k + 9) != "046D:C21C"@,
        decreases v@.len() - i,
    {
        let mut j: usize = 0;
        while j < 9 && v[i + j] == pat[j]
            invariant
                j <= 9,
                n == v@.len(),
                i + 9 <= n,
                v@ == device@,
                pat@ == "046D:C21C"@,
                pat@.len() == 9,
                forall|m: int| 0 <= m < j ==> v@[i + m] == pat@[m],
            decreases 9 - j,
        {
            j = j + 1;
        }
        if j == 9 {
            assert(device@.subrange(i as int, i + 9) =~= "046D:C21C"@);
            return true;
        }
        assert(device@.subrange(i as int, i + 9)[j as int] != "046D:C21C"@[j as int]);
        i = i + 1;
    }
    false
}

/// The G13's hidraw device file, given the hidraw entries as `(name,
/// device path)` pairs in the order the system lists them: `/dev/` and the
/// name of the first entry whose device path names the G13.
pub fn discover(entries: &Vec<(String, String)>) -> (r: Option<String>)
    ensures
        match r {
            Some(p) => exists|i: int|
                0 <= i < entries@.len() && names_g13(entries@[i].1@) && p@ == "/dev/"@
                    + entries@[i].0@ && forall|j: int|
                    0 <= j < i ==> !names_g13(#[trigger] entries@[j].1@),
            None => forall|i: int| 0 <= i < entries@.len() ==> !names_g13(#[trigger] entries@[i].1@),
        },
{
    let mut i: usize = 0;
    while i < entries.len()
        invariant
            i <= entries@.len(),
            forall|j: int| 0 <= j < i ==> !names_g13(#[trigger] entries@[j].1@),
        decreases entries@.len() - i,
    {
        if mentions_g13(entries[i].1.as_str()) {
            let p = concat_str("/dev/", entries[i].0.as_str());
            assert(names_g13(entries@[i as int].1@));
            return Some(p);
        }
        i = i + 1;
    }
    None
}

} // verus!
