//! The draw-call stream: the primitives the renderer emits, and the
//! saturating coordinate arithmetic it uses so that no layout pass can
//! abort on pathological inputs.

use vstd::prelude::*;

verus! {

/// Color of the default foreground (ink).
pub const COLOR_BLACK: u32 = 0x000000;
/// Color the surface is cleared to.
pub const COLOR_WHITE: u32 = 0xFFFFFF;
/// Color of the heading background panel and its underline bar.
pub const COLOR_PANEL: u32 = 0x232334;
/// Color heading text is re-rendered in, on top of the panel.
pub const COLOR_HEAD_TEXT: u32 = 0xDCDCC8;
/// Muted color of the block-quote side bar.
pub const COLOR_QUOTE_BAR: u32 = 0xBABBBA;

/// One pixel-level operation on the external canvas. Coordinates are in
/// the fixed logical resolution; colors are packed 0xRRGGBB.
#[derive(Clone, Copy, PartialEq, Eq, Debug)]
pub enum DrawOp {
    /// Set one pixel in the current foreground color.
    Point { x: usize, y: usize },
    /// Fill a rectangle in the given color, leaving the current
    /// foreground color unchanged.
    Rect { x: usize, y: usize, w: usize, h: usize, color: u32 },
    /// Copy a source region of a loaded image to a destination region,
    /// scaling if the regions differ in size.
    Blit {
        image: usize,
        src_x: usize,
        src_y: usize,
        src_w: usize,
        src_h: usize,
        dst_x: usize,
        dst_y: usize,
        dst_w: usize,
        dst_h: usize,
    },
    /// Change the current foreground color.
    SetColor { color: u32 },
    /// Clear the whole surface to the given color.
    Clear { color: u32 },
}

/// Addition clamped to the top of `usize`.
pub open spec fn sat_add(a: usize, b: usize) -> usize {
    if a + b > usize::MAX {
        usize::MAX
    } else {
        (a + b) as usize
    }
}

/// Subtraction clamped to zero.
pub open spec fn sat_sub(a: usize, b: usize) -> usize {
    if a >= b {
        (a - b) as usize
    } else {
        0
    }
}

/// Executable form of [`sat_add`].
pub fn add_sat(a: usize, b: usize) -> (r: usize)
    ensures
        r == sat_add(a, b),
{
    if a <= usize::MAX - b {
        a + b
    } else {
        usize::MAX
    }
}

/// Executable form of [`sat_sub`].
pub fn sub_sat(a: usize, b: usize) -> (r: usize)
    ensures
        r == sat_sub(a, b),
{
    if a >= b {
        a - b
    } else {
        0
    }
}

/// Addition on `u64` clamped to the top of the range.
pub open spec fn sat_add64(a: u64, b: u64) -> u64 {
    if a + b > u64::MAX {
        u64::MAX
    } else {
        (a + b) as u64
    }
}

/// Executable form of [`sat_add64`].
pub fn add_sat64(a: u64, b: u64) -> (r: u64)
    ensures
        r == sat_add64(a, b),
{
    if a <= u64::MAX - b {
        a + b
    } else {
        u64::MAX
    }
}

/// `a * b / d` computed without intermediate overflow; the quotient
/// must fit in `usize`.
pub fn mul_div(a: usize, b: usize, d: usize) -> (r: usize)
    requires
        d >= 1,
        a * b / (d as int) <= usize::MAX,
    ensures
        r == a * b / (d as int),
{
    proof {
        assert((a as int) * (b as int) <= (u64::MAX as int) * (u64::MAX as int))
            by (nonlinear_arith)
            requires
                0 <= a <= u64::MAX,
                0 <= b <= u64::MAX,
        ;
    }
    ((a as u128 * b as u128) / (d as u128)) as usize
}

} // verus!
