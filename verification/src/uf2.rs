//! The packed bitmap-font codec and the glyph-level text primitives:
//! decoding a byte stream into a 256-entry glyph table, measuring byte
//! text, rasterizing glyphs into point draw operations, and greedy
//! word-wrapped text drawing.

use vstd::prelude::*;

use crate::draw::DrawOp;
use crate::draw::add_sat;
use crate::draw::sat_add;

verus! {

/// One 8x8-pixel bitmap tile: 64 bits, row-major top to bottom, and
/// within a row bit 0 is the rightmost column (MSB-first per row).
#[derive(Clone, Copy, Debug, PartialEq, Eq)]
pub struct Icn {
    pub raw: u64,
}

/// One glyph: its advance width in pixels and its `side * side` tiles,
/// which form the square bitmap cell.
#[derive(Clone, Debug, PartialEq, Eq)]
pub struct UfGlyph {
    pub width: u8,
    pub inner: Vec<Icn>,
}

/// A decoded font: a fixed table of 256 glyphs indexed by byte value,
/// the tile-grid dimension `side` (cell is `side * 8` pixels square),
/// and the nominal line height supplied alongside the byte stream.
#[derive(Clone, Debug, PartialEq, Eq)]
pub struct Ufx {
    pub height: usize,
    pub side: usize,
    pub glyphs: Vec<UfGlyph>,
}

/// Largest accepted tile-grid dimension; keeps all tile-offset
/// arithmetic within `usize` on every platform.
pub const MAX_SIDE: usize = 256;

impl UfGlyph {
    /// The glyph has one tile per slot of a `side * side` grid.
    pub open spec fn wf(&self, side: usize) -> bool {
        self.inner@.len() == side * side
    }

    /// The default glyph: zero advance width, all tiles empty.
    pub fn empty(side: usize) -> (g: UfGlyph)
        requires
            1 <= side <= MAX_SIDE,
        ensures
            g.wf(side),
            g.width == 0,
            forall|s: int| 0 <= s < side * side ==> g.inner@[s].raw == 0,
    {
        proof {
            assert(side * side <= MAX_SIDE * MAX_SIDE) by (nonlinear_arith)
                requires
                    1 <= side <= MAX_SIDE,
            ;
        }
        let mut inner: Vec<Icn> = Vec::new();
        let n = side * side;
        while inner.len() < n
            invariant
                inner@.len() <= n,
                forall|s: int| 0 <= s < inner@.len() ==> inner@[s].raw == 0,
            decreases n - inner@.len(),
        {
            inner.push(Icn { raw: 0 });
        }
        UfGlyph { width: 0, inner }
    }
}

impl Ufx {
    /// Well-formedness: the table always has exactly 256 glyphs, each
    /// with a full `side * side` tile grid.
    pub open spec fn wf(&self) -> bool {
        &&& 1 <= self.side <= MAX_SIDE
        &&& self.glyphs@.len() == 256
        &&& forall|g: int| 0 <= g < 256 ==> self.glyphs@[g].wf(self.side)
    }

    /// Advance width of the glyph for byte `ch`.
    pub open spec fn glyph_width(&self, ch: u8) -> u8 {
        self.glyphs@[ch as int].width
    }
}

/// The width assigned to glyph `g` by decoding `bytes`: the first 256
/// bytes are the width table, in glyph order; missing entries stay 0.
pub open spec fn decoded_width(bytes: Seq<u8>, g: int) -> u8 {
    if 0 <= g < 256 && g < bytes.len() {
        bytes[g]
    } else {
        0
    }
}

/// A 64-bit tile assembled from 8 consecutive stream bytes, the byte at
/// `off` occupying the low bits (the top pixel row of the tile).
pub open spec fn tile_from_bytes(bytes: Seq<u8>, off: int) -> u64 {
    (bytes[off] as u64) | ((bytes[off + 1] as u64) << 8) | ((bytes[off + 2] as u64) << 16) | ((
    bytes[off + 3] as u64) << 24) | ((bytes[off + 4] as u64) << 32) | ((bytes[off + 5] as u64)
        << 40) | ((bytes[off + 6] as u64) << 48) | ((bytes[off + 7] as u64) << 56)
}

/// The tile decoded into glyph `g`, slot `s`: tiles follow the width
/// table 8 bytes at a time, filling each glyph's slots in order before
/// advancing to the next glyph; an incomplete trailing group, or a
/// truncated stream, leaves the slot at the empty default.
pub open spec fn decoded_tile(bytes: Seq<u8>, side: usize, g: int, s: int) -> u64 {
    let t = g * (side * side) + s;
    if 256 + 8 * t + 8 <= bytes.len() {
        tile_from_bytes(bytes, 256 + 8 * t)
    } else {
        0
    }
}

/// Decode a packed font stream. The first 256 bytes are per-glyph
/// advance widths; the rest are consumed as 8-byte tiles as described
/// at [`decoded_tile`]. Truncated input is never an error: decoding
/// stops early and the remaining glyphs keep the default (empty, zero
/// width) value.
pub fn parse(bytes: &[u8], side: usize, pxheight: usize) -> (ufx: Ufx)
    requires
        1 <= side <= MAX_SIDE,
    ensures
        ufx.wf(),
        ufx.side == side,
        ufx.height == pxheight,
        forall|g: int| 0 <= g < 256 ==> ufx.glyphs@[g].width == decoded_width(bytes@, g),
        forall|g: int, s: int|
            0 <= g < 256 && 0 <= s < side * side ==> ufx.glyphs@[g].inner@[s].raw == decoded_tile(
                bytes@,
                side,
                g,
                s,
            ),
{
    proof {
        assert(side * side <= MAX_SIDE * MAX_SIDE) by (nonlinear_arith)
            requires
                1 <= side <= MAX_SIDE,
        ;
    }
    let ss = side * side;
    let mut glyphs: Vec<UfGlyph> = Vec::new();
    let mut g: usize = 0;
    while g < 256
        invariant
            1 <= side <= MAX_SIDE,
            ss == side * side,
            glyphs@.len() == g,
            g <= 256,
            forall|i: int| 0 <= i < g ==> glyphs@[i].wf(side),
            forall|i: int| 0 <= i < g ==> glyphs@[i].width == decoded_width(bytes@, i),
            forall|i: int, s: int|
                0 <= i < g && 0 <= s < side * side ==> glyphs@[i].inner@[s].raw == decoded_tile(
                    bytes@,
                    side,
                    i,
                    s,
                ),
        decreases 256 - g,
    {
        let width: u8 = if g < bytes.len() && g < 256 {
            bytes[g]
        } else {
            0
        };
        let mut inner: Vec<Icn> = Vec::new();
        let mut s: usize = 0;
        while s < ss
            invariant
                1 <= side <= MAX_SIDE,
                ss == side * side,
                g < 256,
                inner@.len() == s,
                s <= ss,
                forall|j: int| 0 <= j < s ==> inner@[j].raw == decoded_tile(bytes@, side, g as int, j),
            decreases ss - s,
        {
            let raw = read_tile(bytes, side, g, s);
            inner.push(Icn { raw });
            s = s + 1;
        }
        glyphs.push(UfGlyph { width, inner });
        g = g + 1;
    }
    Ufx { height: pxheight, side, glyphs }
}

/// Read the complete 8-byte group for glyph `g`, slot `s`, or 0 when
/// the stream ends before it.
fn read_tile(bytes: &[u8], side: usize, g: usize, s: usize) -> (raw: u64)
    requires
        1 <= side <= MAX_SIDE,
        g < 256,
        s < side * side,
    ensures
        raw == decoded_tile(bytes@, side, g as int, s as int),
{
    proof {
        assert(side * side <= MAX_SIDE * MAX_SIDE && g * (side * side) + s < 256 * (MAX_SIDE
            * MAX_SIDE)) by (nonlinear_arith)
            requires
                g < 256,
                s < side * side,
                1 <= side <= MAX_SIDE,
        ;
    }
    let t = g * (side * side) + s;
    let off = 256 + 8 * t;
    if off + 8 <= bytes.len() {
        (bytes[off] as u64) | ((bytes[off + 1] as u64) << 8) | ((bytes[off + 2] as u64) << 16) | ((
        bytes[off + 3] as u64) << 24) | ((bytes[off + 4] as u64) << 32) | ((bytes[off + 5] as u64)
            << 40) | ((bytes[off + 6] as u64) << 48) | ((bytes[off + 7] as u64) << 56)
    } else {
        0
    }
}

/// The truncation law of the codec: [`parse`] accepts every byte
/// stream whole or cut short — it has no failure case — and whatever
/// the stream ends before stays at the default value: a glyph whose
/// width byte is missing has width zero, and a tile slot whose 8-byte
/// group is incomplete keeps the empty bitmap.
pub proof fn lemma_decode_truncation(bytes: Seq<u8>, side: usize, g: int, s: int)
    requires
        1 <= side <= MAX_SIDE,
        0 <= g < 256,
        0 <= s < side * side,
    ensures
        bytes.len() <= g ==> decoded_width(bytes, g) == 0,
        bytes.len() < 256 + 8 * (g * (side * side) + s) + 8 ==> decoded_tile(bytes, side, g, s)
            == 0,
{
}

/// Whether the glyph cell pixel at `(x, y)` is set: the tile at index
/// `(x/8)*side + ((y/8) % side)` holds it, at bit `(y%8)*8 + (7 - x%8)`
/// (rows top to bottom, bit 0 the rightmost column of its row).
/// Coordinates outside the `side*8` square cell are unset.
pub open spec fn glyph_pixel(font: Ufx, ch: u8, x: int, y: int) -> bool {
    let side = font.side as int;
    &&& 0 <= x < side * 8
    &&& 0 <= y < side * 8
    &&& {
        let sprite = (x / 8) * side + ((y / 8) % side);
        let pixel = (y % 8) * 8 + (7 - (x % 8));
        (font.glyphs@[ch as int].inner@[sprite].raw >> (pixel as u64)) & 1 == 1
    }
}

/// Executable pixel lookup, defined for every coordinate.
pub fn glyph_pixel_at(font: &Ufx, ch: u8, x: usize, y: usize) -> (b: bool)
    requires
        font.wf(),
    ensures
        b == glyph_pixel(*font, ch, x as int, y as int),
{
    let side = font.side;
    if x >= side * 8 || y >= side * 8 {
        return false;
    }
    proof {
        assert(((x as int) / 8) * (side as int) + (((y as int) / 8) % (side as int)) < (side as int)
            * (side as int) && (side as int) * (side as int) <= MAX_SIDE * MAX_SIDE)
            by (nonlinear_arith)
            requires
                1 <= (side as int) <= MAX_SIDE,
                0 <= (x as int) < (side as int) * 8,
                0 <= (y as int),
        ;
    }
    let sprite = (x / 8) * side + ((y / 8) % side);
    let pixel = (y % 8) * 8 + (7 - (x % 8));
    (font.glyphs[ch as usize].inner[sprite].raw >> (pixel as u64)) & 1 == 1
}

/// The point operations for rows `[0, y)` of glyph cell column `x`,
/// top to bottom, at screen offset `(sx, sy)`: one `Point` per set
/// pixel, its coordinates clamped into `usize`.
pub open spec fn char_col_ops(font: Ufx, ch: u8, sx: usize, sy: usize, x: int, y: int) -> Seq<
    DrawOp,
>
    decreases y,
{
    if y <= 0 {
        Seq::empty()
    } else {
        let rest = char_col_ops(font, ch, sx, sy, x, y - 1);
        if glyph_pixel(font, ch, x, y - 1) {
            rest + seq![
                DrawOp::Point {
                    x: sat_add(sx, x as usize),
                    y: sat_add(sy, (y - 1) as usize),
                },
            ]
        } else {
            rest
        }
    }
}

/// The point operations for columns `[0, x)` of the glyph for `ch`,
/// left to right, each column's rows top to bottom.
pub open spec fn char_ops_upto(font: Ufx, ch: u8, sx: usize, sy: usize, x: int) -> Seq<DrawOp>
    decreases x,
{
    if x <= 0 {
        Seq::empty()
    } else {
        char_ops_upto(font, ch, sx, sy, x - 1) + char_col_ops(
            font,
            ch,
            sx,
            sy,
            x - 1,
            font.side * 8,
        )
    }
}

/// Every point operation the glyph for `ch` produces at `(sx, sy)`:
/// one per set pixel in columns `[0, width)`.
pub open spec fn char_ops(font: Ufx, ch: u8, sx: usize, sy: usize) -> Seq<DrawOp> {
    char_ops_upto(font, ch, sx, sy, font.glyph_width(ch) as int)
}

/// Rasterize one glyph: append a `Point` at `(sx + x, sy + y)` for
/// every set pixel `(x, y)` with `x` below the advance width, in
/// column-major order. The caller owns the draw surface.
#[verifier::loop_isolation(false)]
pub fn draw_char(ops: &mut Vec<DrawOp>, font: &Ufx, sx: usize, sy: usize, ch: u8)
    requires
        font.wf(),
    ensures
        final(ops)@ == old(ops)@ + char_ops(*font, ch, sx, sy),
{
    let w = font.glyphs[ch as usize].width as usize;
    let h = font.side * 8;
    let mut x: usize = 0;
    while x < w
        invariant
            x <= w,
            ops@ == old(ops)@ + char_ops_upto(*font, ch, sx, sy, x as int),
        decreases w - x,
    {
        let mut y: usize = 0;
        while y < h
            invariant
                y <= h,
                ops@ == old(ops)@ + char_ops_upto(*font, ch, sx, sy, x as int) + char_col_ops(
                    *font,
                    ch,
                    sx,
                    sy,
                    x as int,
                    y as int,
                ),
            decreases h - y,
        {
            if glyph_pixel_at(font, ch, x, y) {
                let px = add_sat(sx, x);
                let py = add_sat(sy, y);
                ops.push(DrawOp::Point { x: px, y: py });
            }
            proof {
                assert(ops@ =~= old(ops)@ + char_ops_upto(*font, ch, sx, sy, x as int)
                    + char_col_ops(*font, ch, sx, sy, x as int, y as int + 1));
            }
            y = y + 1;
        }
        proof {
            assert(ops@ =~= old(ops)@ + char_ops_upto(*font, ch, sx, sy, x as int + 1));
        }
        x = x + 1;
    }
    proof {
        assert(ops@ =~= old(ops)@ + char_ops(*font, ch, sx, sy));
    }
}

/// Byte `k` (low to high) of a 64-bit tile value.
pub open spec fn tile_byte(v: u64, k: int) -> u8 {
    ((v >> ((8 * k) as u64)) & 0xff) as u8
}

/// Encode a font back into the packed byte stream: the 256-byte width
/// table, then every glyph's tiles in glyph-major, slot-minor order,
/// 8 bytes each, low byte first.
pub fn encode(font: &Ufx) -> (bytes: Vec<u8>)
    requires
        font.wf(),
    ensures
        bytes@.len() == 256 + 256 * (font.side * font.side) * 8,
        forall|g: int| 0 <= g < 256 ==> bytes@[g] == font.glyphs@[g].width,
        forall|g: int, s: int, k: int|
            0 <= g < 256 && 0 <= s < font.side * font.side && 0 <= k < 8 ==> bytes@[256 + 8 * (g * (
            font.side * font.side) + s) + k] == tile_byte(font.glyphs@[g].inner@[s].raw, k),
{
    proof {
        assert(font.side * font.side <= MAX_SIDE * MAX_SIDE) by (nonlinear_arith)
            requires
                1 <= font.side <= MAX_SIDE,
        ;
    }
    let ss = font.side * font.side;
    let mut bytes: Vec<u8> = Vec::new();
    let mut g: usize = 0;
    while g < 256
        invariant
            font.wf(),
            ss == font.side * font.side,
            ss <= MAX_SIDE * MAX_SIDE,
            g <= 256,
            bytes@.len() == g,
            forall|i: int| 0 <= i < g ==> bytes@[i] == font.glyphs@[i].width,
        decreases 256 - g,
    {
        bytes.push(font.glyphs[g].width);
        g = g + 1;
    }
    let mut g: usize = 0;
    while g < 256
        invariant
            font.wf(),
            ss == font.side * font.side,
            ss <= MAX_SIDE * MAX_SIDE,
            g <= 256,
            bytes@.len() == 256 + 8 * (g * ss),
            forall|i: int| 0 <= i < 256 ==> bytes@[i] == font.glyphs@[i].width,
            forall|i: int, s: int, k: int|
                0 <= i < g && 0 <= s < ss && 0 <= k < 8 ==> bytes@[256 + 8 * (i * ss + s) + k]
                    == tile_byte(font.glyphs@[i].inner@[s].raw, k),
        decreases 256 - g,
    {
        proof {
            assert(g * ss + ss <= 256 * ss && 256 * ss <= 256 * (MAX_SIDE * MAX_SIDE))
                by (nonlinear_arith)
                requires
                    g < 256,
                    0 <= ss <= MAX_SIDE * MAX_SIDE,
            ;
        }
        let mut s: usize = 0;
        while s < ss
            invariant
                font.wf(),
                ss == font.side * font.side,
                g < 256,
                s <= ss,
                g * ss + ss <= 256 * (MAX_SIDE * MAX_SIDE),
                bytes@.len() == 256 + 8 * (g * ss + s),
                forall|i: int| 0 <= i < 256 ==> bytes@[i] == font.glyphs@[i].width,
                forall|i: int, t: int, k: int|
                    0 <= i < g && 0 <= t < ss && 0 <= k < 8 ==> bytes@[256 + 8 * (i * ss + t) + k]
                        == tile_byte(font.glyphs@[i].inner@[t].raw, k),
                forall|t: int, k: int|
                    0 <= t < s && 0 <= k < 8 ==> bytes@[256 + 8 * (g * ss + t) + k] == tile_byte(
                        font.glyphs@[g as int].inner@[t].raw,
                        k,
                    ),
            decreases ss - s,
        {
            assert(8 * (g as int * ss + s as int) + 8 <= 8 * (256 * (MAX_SIDE * MAX_SIDE)));
            let v = font.glyphs[g].inner[s].raw;
            let ghost len0 = bytes@.len() as int;
            bytes.push((v & 0xff) as u8);
            bytes.push(((v >> 8) & 0xff) as u8);
            bytes.push(((v >> 16) & 0xff) as u8);
            bytes.push(((v >> 24) & 0xff) as u8);
            bytes.push(((v >> 32) & 0xff) as u8);
            bytes.push(((v >> 40) & 0xff) as u8);
            bytes.push(((v >> 48) & 0xff) as u8);
            bytes.push(((v >> 56) & 0xff) as u8);
            proof {
                assert forall|k: int| 0 <= k < 8 implies bytes@[len0 + k] == tile_byte(v, k) by {
                    assert((v >> 0) == v) by (bit_vector);
                }
                assert forall|i: int, t: int, k: int|
                    0 <= i < g && 0 <= t < ss && 0 <= k < 8 implies bytes@[256 + 8 * (i * ss + t)
                    + k] == #[trigger] tile_byte(font.glyphs@[i].inner@[t].raw, k) by {
                    assert(i * ss + t + 1 <= g as int * ss + s as int) by (nonlinear_arith)
                        requires
                            0 <= i < g as int,
                            0 <= t < ss,
                            0 <= s as int,
                    ;
                }
            }
            s = s + 1;
        }
        proof {
            assert((g + 1) * ss == g * ss + ss) by (nonlinear_arith);
        }
        g = g + 1;
    }
    proof {
        assert(256 * ss * 8 == 8 * (256 * ss)) by (nonlinear_arith);
    }
    bytes
}

/// Decoding an encoded font reproduces every glyph's advance width and
/// every tile bit-for-bit: the byte stream laid out by [`encode`]
/// decodes, per [`decoded_width`] and [`decoded_tile`], to exactly the
/// font it came from.
pub proof fn lemma_encode_parse_roundtrip(font: Ufx, bytes: Seq<u8>)
    requires
        font.wf(),
        bytes.len() == 256 + 256 * (font.side * font.side) * 8,
        forall|g: int| 0 <= g < 256 ==> bytes[g] == font.glyphs@[g].width,
        forall|g: int, s: int, k: int|
            0 <= g < 256 && 0 <= s < font.side * font.side && 0 <= k < 8 ==> bytes[256 + 8 * (g * (
            font.side * font.side) + s) + k] == tile_byte(font.glyphs@[g].inner@[s].raw, k),
    ensures
        forall|g: int| 0 <= g < 256 ==> decoded_width(bytes, g) == font.glyphs@[g].width,
        forall|g: int, s: int|
            0 <= g < 256 && 0 <= s < font.side * font.side ==> decoded_tile(bytes, font.side, g, s)
                == font.glyphs@[g].inner@[s].raw,
{
    let ss = font.side * font.side;
    assert forall|g: int, s: int| 0 <= g < 256 && 0 <= s < ss implies decoded_tile(
        bytes,
        font.side,
        g,
        s,
    ) == font.glyphs@[g].inner@[s].raw by {
        let t = g * ss + s;
        let v = font.glyphs@[g].inner@[s].raw;
        assert(t + 1 <= 256 * ss) by (nonlinear_arith)
            requires
                0 <= g < 256,
                0 <= s < ss,
                t == g * ss + s,
        ;
        assert(256 + 8 * t + 8 <= bytes.len()) by (nonlinear_arith)
            requires
                t + 1 <= 256 * ss,
                bytes.len() == 256 + 256 * ss * 8,
        ;
        let off = 256 + 8 * t;
        assert(bytes[off] == tile_byte(v, 0) && bytes[off + 1] == tile_byte(v, 1) && bytes[off + 2]
            == tile_byte(v, 2) && bytes[off + 3] == tile_byte(v, 3) && bytes[off + 4] == tile_byte(
            v,
            4,
        ) && bytes[off + 5] == tile_byte(v, 5) && bytes[off + 6] == tile_byte(v, 6) && bytes[off
            + 7] == tile_byte(v, 7));
        assert((((v >> 0) & 0xff) as u8 as u64) | ((((v >> 8) & 0xff) as u8 as u64) << 8) | ((((v
            >> 16) & 0xff) as u8 as u64) << 16) | ((((v >> 24) & 0xff) as u8 as u64) << 24) | ((((v
            >> 32) & 0xff) as u8 as u64) << 32) | ((((v >> 40) & 0xff) as u8 as u64) << 40) | ((((v
            >> 48) & 0xff) as u8 as u64) << 48) | ((((v >> 56) & 0xff) as u8 as u64) << 56) == v)
            by (bit_vector);
    }
}

/// Sum of the advance widths of `text[from..to]` (no kerning).
pub open spec fn text_width(font: Ufx, text: Seq<u8>, from: int, to: int) -> nat
    decreases to - from,
{
    if from >= to {
        0
    } else {
        font.glyph_width(text[from]) as nat + text_width(font, text, from + 1, to)
    }
}

/// Clamp a mathematical integer into the `usize` range.
pub open spec fn clamp_usize(n: int) -> usize {
    if n > usize::MAX {
        usize::MAX
    } else if n < 0 {
        0
    } else {
        n as usize
    }
}

/// Measure `text[from..to]`: the width sum, clamped to `usize`.
pub fn measure_range(font: &Ufx, text: &[u8], from: usize, to: usize) -> (w: usize)
    requires
        font.wf(),
        from <= to <= text@.len(),
    ensures
        w == clamp_usize(text_width(*font, text@, from as int, to as int) as int),
{
    let mut w: usize = 0;
    let mut i: usize = to;
    while i > from
        invariant
            font.wf(),
            from <= i <= to <= text@.len(),
            w == clamp_usize(text_width(*font, text@, i as int, to as int) as int),
        decreases i,
    {
        i = i - 1;
        w = add_sat(w, font.glyphs[text[i] as usize].width as usize);
    }
    w
}

/// Measure a whole text: the sum of each byte's glyph width. The sum
/// is exact whenever it fits in `usize`, and clamps to `usize::MAX`
/// otherwise.
pub fn measure(font: &Ufx, text: &[u8]) -> (w: usize)
    requires
        font.wf(),
    ensures
        w == clamp_usize(text_width(*font, text@, 0, text@.len() as int) as int),
{
    measure_range(font, text, 0, text.len())
}

/// Whether a byte ends a word-wrap group (it stays in the group).
pub open spec fn is_group_break(b: u8) -> bool {
    b == 32 || b == 10
}

/// Length of the group starting at `start`: up to and including the
/// first space or newline, or to the end of the text.
pub open spec fn group_len(text: Seq<u8>, start: int) -> nat
    decreases text.len() - start,
{
    if !(0 <= start < text.len()) {
        0
    } else if is_group_break(text[start]) {
        1
    } else {
        1 + group_len(text, start + 1)
    }
}

/// One past the last byte of the group starting at `start`. A group
/// holds at least one byte and ends within the text, so for any
/// position inside the text this equals `start + group_len(text,
/// start)`; the two guards only keep that visible to the termination
/// checker.
pub open spec fn group_end(text: Seq<u8>, start: int) -> int {
    let e = if group_len(text, start) == 0 {
        start + 1
    } else {
        start + group_len(text, start) as int
    };
    if e > text.len() {
        text.len() as int
    } else {
        e
    }
}

/// The byte a group member is rendered as: a newline is rendered as a
/// single space-width advance, every other byte as itself.
pub open spec fn render_byte(b: u8) -> u8 {
    if b == 10 {
        32
    } else {
        b
    }
}

/// The x cursor after rendering bytes `[start, i)` of a group that
/// began at x position `x`: each byte advances by its rendered glyph's
/// width, clamped into `usize`.
pub open spec fn advance_x(font: Ufx, text: Seq<u8>, start: int, i: int, x: usize) -> usize
    decreases i - start,
{
    if i <= start {
        x
    } else {
        sat_add(
            advance_x(font, text, start, i - 1, x),
            font.glyph_width(render_byte(text[i - 1])) as usize,
        )
    }
}

/// The glyph operations for bytes `[start, i)` of a group rendered at
/// `(x, y)`, in byte order.
pub open spec fn run_ops(font: Ufx, text: Seq<u8>, start: int, i: int, x: usize, y: usize) -> Seq<
    DrawOp,
>
    decreases i - start,
{
    if i <= start {
        Seq::empty()
    } else {
        run_ops(font, text, start, i - 1, x, y) + char_ops(
            font,
            render_byte(text[i - 1]),
            advance_x(font, text, start, i - 1, x),
            y,
        )
    }
}

/// Where a group of measured width `w` starts: at the running x when
/// it still stays below the right bound `ex`, else at the left bound
/// `lx` after a line break.
pub open spec fn group_x(x: usize, w: usize, lx: usize, ex: usize) -> usize {
    if sat_add(x, w) >= ex {
        lx
    } else {
        x
    }
}

/// The y row a group is rendered on: unchanged, unless the line break
/// advances it by the font's line height.
pub open spec fn group_y(x: usize, w: usize, y: usize, ex: usize, height: usize) -> usize {
    if sat_add(x, w) >= ex {
        sat_add(y, height)
    } else {
        y
    }
}

/// The whole word-wrap layout from text position `start` with cursor
/// `(x, y)`: the operations emitted and the final cursor. Groups are
/// rendered in order; before each group the cursor wraps to
/// `(lx, y + line height)` if the group would not stay below `ex`.
pub open spec fn text_ops_from(
    font: Ufx,
    text: Seq<u8>,
    lx: usize,
    ex: usize,
    start: int,
    x: usize,
    y: usize,
) -> (Seq<DrawOp>, usize, usize)
    decreases text.len() - start,
{
    if !(0 <= start < text.len()) {
        (Seq::empty(), x, y)
    } else {
        let end = group_end(text, start);
        let w = clamp_usize(text_width(font, text, start, end) as int);
        let x1 = group_x(x, w, lx, ex);
        let y1 = group_y(x, w, y, ex, font.height);
        let gops = run_ops(font, text, start, end, x1, y1);
        let x2 = advance_x(font, text, start, end, x1);
        let rest = text_ops_from(font, text, lx, ex, end, x2, y1);
        (gops + rest.0, rest.1, rest.2)
    }
}

/// Word-wrap safety from position `start` with running x `x`: every
/// group later in the text is placed so that its starting x plus its
/// measured width stays below the right bound, unless the group alone
/// is too wide to fit the `[lx, ex)` span from the left bound.
pub open spec fn groups_fit(
    font: Ufx,
    text: Seq<u8>,
    lx: usize,
    ex: usize,
    start: int,
    x: usize,
) -> bool
    decreases text.len() - start,
{
    if !(0 <= start < text.len()) {
        true
    } else {
        let end = group_end(text, start);
        let w = clamp_usize(text_width(font, text, start, end) as int);
        let x1 = group_x(x, w, lx, ex);
        &&& (x1 + w < ex || lx + w >= ex)
        &&& groups_fit(font, text, lx, ex, end, advance_x(font, text, start, end, x1))
    }
}

/// The word-wrap law: however a layout pass starts, no rendered group
/// overruns the right bound `ex` — a group's starting x plus its
/// measured width stays below `ex` — except for a group that alone is
/// at least as wide as the whole `[lx, ex)` span, which is rendered
/// from the left bound without truncation.
pub proof fn lemma_word_wrap(
    font: Ufx,
    text: Seq<u8>,
    lx: usize,
    ex: usize,
    start: int,
    x: usize,
)
    ensures
        groups_fit(font, text, lx, ex, start, x),
    decreases text.len() - start,
{
    if 0 <= start < text.len() {
        let end = group_end(text, start);
        let w = clamp_usize(text_width(font, text, start, end) as int);
        let x1 = group_x(x, w, lx, ex);
        assert(end > start);
        lemma_word_wrap(font, text, lx, ex, end, advance_x(font, text, start, end, x1));
    }
}

/// One past the last byte of the group starting at `start`.
fn find_group_end(s: &[u8], start: usize) -> (end: usize)
    requires
        start <= s@.len(),
    ensures
        end == group_end(s@, start as int),
        start <= end <= s@.len(),
        start < s@.len() ==> start < end,
{
    let mut j = start;
    while j < s.len()
        invariant
            start <= j <= s@.len(),
            group_len(s@, start as int) == j - start + group_len(s@, j as int),
            forall|k: int| start <= k < j ==> !is_group_break(s@[k]),
        decreases s@.len() - j,
    {
        if s[j] == 32 || s[j] == 10 {
            assert(group_len(s@, j as int) == 1);
            return j + 1;
        }
        j = j + 1;
    }
    assert(group_len(s@, j as int) == 0);
    j
}

/// Draw `s` with greedy word wrap between the bounds `lx` and `ex`,
/// starting at `(sx, sy)`: groups end at (and include) a space or
/// newline; a group that would reach `ex` first breaks the line,
/// resetting x to `lx` and advancing y by the line height; newlines
/// inside a group render as a single space-width advance. Returns the
/// final cursor.
#[verifier::loop_isolation(false)]
pub fn draw(
    ops: &mut Vec<DrawOp>,
    font: &Ufx,
    lx: usize,
    ex: usize,
    sx: usize,
    sy: usize,
    s: &[u8],
) -> (cur: (usize, usize))
    requires
        font.wf(),
    ensures
        ({
            let r = text_ops_from(*font, s@, lx, ex, 0, sx, sy);
            &&& final(ops)@ == old(ops)@ + r.0
            &&& cur.0 == r.1
            &&& cur.1 == r.2
        }),
{
    let ghost total = text_ops_from(*font, s@, lx, ex, 0, sx, sy);
    let mut x = sx;
    let mut y = sy;
    let mut start: usize = 0;
    proof {
        assert(total.0 =~= Seq::<DrawOp>::empty() + total.0);
    }
    while start < s.len()
        invariant
            start <= s@.len(),
            old(ops)@.len() <= ops@.len(),
            ops@.subrange(0, old(ops)@.len() as int) == old(ops)@,
            ({
                let rest = text_ops_from(*font, s@, lx, ex, start as int, x, y);
                &&& total.0 == ops@.skip(old(ops)@.len() as int) + rest.0
                &&& total.1 == rest.1
                &&& total.2 == rest.2
            }),
        decreases s@.len() - start,
    {
        let ghost rest = text_ops_from(*font, s@, lx, ex, start as int, x, y);
        let end = find_group_end(s, start);
        let w = measure_range(font, s, start, end);
        if add_sat(x, w) >= ex {
            y = add_sat(y, font.height);
            x = lx;
        }
        let ghost x1 = x;
        let ghost y1 = y;
        let ghost pre_group = ops@;
        let mut i = start;
        while i < end
            invariant
                start <= i <= end,
                x == advance_x(*font, s@, start as int, i as int, x1),
                ops@ == pre_group + run_ops(*font, s@, start as int, i as int, x1, y1),
            decreases end - i,
        {
            let b = s[i];
            let eff: u8 = if b == 10 {
                32
            } else {
                b
            };
            draw_char(ops, font, x, y, eff);
            x = add_sat(x, font.glyphs[eff as usize].width as usize);
            proof {
                assert(ops@ =~= pre_group + run_ops(
                    *font,
                    s@,
                    start as int,
                    i as int + 1,
                    x1,
                    y1,
                ));
            }
            i = i + 1;
        }
        proof {
            let emitted0 = pre_group.skip(old(ops)@.len() as int);
            let gops = run_ops(*font, s@, start as int, end as int, x1, y1);
            let rest2 = text_ops_from(*font, s@, lx, ex, end as int, x, y);
            assert(rest.0 == gops + rest2.0);
            assert(ops@.skip(old(ops)@.len() as int) =~= emitted0 + gops);
            assert(total.0 =~= ops@.skip(old(ops)@.len() as int) + rest2.0);
            assert(ops@.subrange(0, old(ops)@.len() as int) =~= old(ops)@);
        }
        start = end;
    }
    proof {
        assert(final(ops)@ =~= old(ops)@ + total.0);
    }
    (x, y)
}

} // verus!
