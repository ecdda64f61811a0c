use vstd::prelude::*;

verus! {

/// One LED colour, 8 bits per channel.
#[derive(Clone, Copy, Debug, PartialEq, Eq, Structural)]
pub struct SkydimoRgb {
    pub r: u8,
    pub g: u8,
    pub b: u8,
}

/// The colour that every effect treats as "off".
pub open spec fn black() -> SkydimoRgb {
    SkydimoRgb { r: 0, g: 0, b: 0 }
}

pub open spec fn rgb(r: u8, g: u8, b: u8) -> SkydimoRgb {
    SkydimoRgb { r, g, b }
}

impl Default for SkydimoRgb {
    fn default() -> (c: Self)
        ensures
            c == black(),
    {
        SkydimoRgb { r: 0, g: 0, b: 0 }
    }
}

/// A colour addressed to one LED of an output.
#[derive(Clone, Copy, Debug, PartialEq, Eq, Structural)]
pub struct SkydimoLedColorV1 {
    pub index: usize,
    pub color: SkydimoRgb,
}

/// Mirroring flags of an output layout (non-zero means "flip").
#[derive(Clone, Copy, Debug, PartialEq, Eq, Structural)]
pub struct SkydimoLayoutTransformV1 {
    pub flip_horizontal: u8,
    pub flip_vertical: u8,
}

/// Pure white.
pub fn white() -> (c: SkydimoRgb)
    ensures
        c == rgb(255, 255, 255),
{
    SkydimoRgb { r: 255, g: 255, b: 255 }
}

/// Sets every pixel of `buffer` to `color`.
pub fn fill_rgb(buffer: &mut [SkydimoRgb], color: SkydimoRgb)
    ensures
        final(buffer)@.len() == old(buffer)@.len(),
        forall|i: int| 0 <= i < final(buffer)@.len() ==> final(buffer)@[i] == color,
{
    let len = buffer.len();
    let mut i: usize = 0;
    while i < len
        invariant
            len == buffer@.len(),
            i <= len,
            forall|j: int| 0 <= j < i ==> buffer@[j] == color,
        decreases len - i,
    {
        buffer[i] = color;
        i += 1;
    }
}

/// Turns every pixel off.
pub fn fill_black(pixels: &mut [SkydimoRgb])
    ensures
        final(pixels)@.len() == old(pixels)@.len(),
        forall|i: int| 0 <= i < final(pixels)@.len() ==> final(pixels)@[i] == black(),
{
    fill_rgb(pixels, SkydimoRgb { r: 0, g: 0, b: 0 });
}

/// Tiles `row` over `pixels`: pixel `i` takes the colour `row[i % row.len()]`.
/// Nothing is written when either slice is empty.
pub fn copy_row_pattern(row: &[SkydimoRgb], pixels: &mut [SkydimoRgb])
    ensures
        final(pixels)@.len() == old(pixels)@.len(),
        row@.len() == 0 ==> final(pixels)@ == old(pixels)@,
        row@.len() > 0 ==> forall|i: int|
            0 <= i < final(pixels)@.len() ==> final(pixels)@[i] == row@[i % (row@.len() as int)],
{
    let width = row.len();
    if width == 0 {
        return;
    }
    let len = pixels.len();
    let mut i: usize = 0;
    while i < len
        invariant
            len == pixels@.len(),
            width == row@.len(),
            width > 0,
            i <= len,
            forall|j: int| 0 <= j < i ==> pixels@[j] == row@[j % (width as int)],
        decreases len - i,
    {
        pixels[i] = row[i % width];
        i += 1;
    }
}

/// Like [`copy_row_pattern`], except that an empty row turns every pixel off.
pub fn repeat_row(row: &[SkydimoRgb], pixels: &mut [SkydimoRgb])
    ensures
        final(pixels)@.len() == old(pixels)@.len(),
        row@.len() == 0 ==> forall|i: int|
            0 <= i < final(pixels)@.len() ==> final(pixels)@[i] == black(),
        row@.len() > 0 ==> forall|i: int|
            0 <= i < final(pixels)@.len() ==> final(pixels)@[i] == row@[i % (row@.len() as int)],
{
    if row.len() == 0 {
        fill_black(pixels);
    } else {
        copy_row_pattern(row, pixels);
    }
}

/// Screen blend of two channels, rounded to nearest with integer arithmetic:
/// `round((a + b) - a * b / 255)`.
pub open spec fn screen_channel_value(a: u8, b: u8) -> int {
    ((a + b) * 255 - a * b + 127) / 255
}

pub proof fn lemma_screen_channel_bounds(a: u8, b: u8)
    ensures
        0 <= (a + b) * 255 - a * b,
        (a + b) * 255 - a * b <= 65025,
        0 <= screen_channel_value(a, b) <= 255,
        screen_channel_value(a, b) >= a,
        screen_channel_value(a, b) >= b,
{
    assert(0 <= (a + b) * 255 - a * b <= 65025) by (nonlinear_arith)
        requires
            0 <= a <= 255,
            0 <= b <= 255,
    ;
    assert((a + b) * 255 - a * b >= 255 * a) by (nonlinear_arith)
        requires
            0 <= a <= 255,
            0 <= b <= 255,
    ;
    assert((a + b) * 255 - a * b >= 255 * b) by (nonlinear_arith)
        requires
            0 <= a <= 255,
            0 <= b <= 255,
    ;
}

pub open spec fn screen_blend_value(color: SkydimoRgb, background: SkydimoRgb) -> SkydimoRgb {
    SkydimoRgb {
        r: screen_channel_value(color.r, background.r) as u8,
        g: screen_channel_value(color.g, background.g) as u8,
        b: screen_channel_value(color.b, background.b) as u8,
    }
}

/// Integer screen blend of one channel.
pub fn screen_blend_channel(a: u8, b: u8) -> (c: u8)
    ensures
        c == screen_channel_value(a, b),
{
    proof {
        lemma_screen_channel_bounds(a, b);
    }
    let a = a as u32;
    let b = b as u32;
    assert(a * b <= 65025) by (nonlinear_arith)
        requires
            a <= 255,
            b <= 255,
    ;
    let sum = (a + b) * 255;
    let prod = a * b;
    let value = (sum - prod + 127) / 255;
    if value > 255 {
        255
    } else {
        value as u8
    }
}

/// Integer screen blend of two colours, channel by channel.
pub fn screen_blend(color: SkydimoRgb, background: SkydimoRgb) -> (c: SkydimoRgb)
    ensures
        c == screen_blend_value(color, background),
{
    SkydimoRgb {
        r: screen_blend_channel(color.r, background.r),
        g: screen_blend_channel(color.g, background.g),
        b: screen_blend_channel(color.b, background.b),
    }
}

/// Squared Euclidean distance of two colours.
pub fn rgb_distance_sq(a: SkydimoRgb, b: SkydimoRgb) -> (d: i32)
    ensures
        d == (a.r - b.r) * (a.r - b.r) + (a.g - b.g) * (a.g - b.g) + (a.b - b.b) * (a.b - b.b),
{
    let dr = a.r as i32 - b.r as i32;
    let dg = a.g as i32 - b.g as i32;
    let db = a.b as i32 - b.b as i32;
    assert(dr * dr <= 65025 && dg * dg <= 65025 && db * db <= 65025 && dr * dr >= 0 && dg * dg
        >= 0 && db * db >= 0) by (nonlinear_arith)
        requires
            -255 <= dr <= 255,
            -255 <= dg <= 255,
            -255 <= db <= 255,
    ;
    dr * dr + dg * dg + db * db
}

} // verus!
