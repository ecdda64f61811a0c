//! How the effects size their frame from what the host reports.
use vstd::prelude::*;

use crate::rgb::{black, SkydimoRgb};

verus! {

pub open spec fn max_one(x: int) -> int {
    if x < 1 {
        1
    } else {
        x
    }
}

/// Width and height an effect keeps after a resize: a zero width falls back to
/// the LED count (at least 1), a zero height to 1.
pub open spec fn resized_dims(width: u32, height: u32, led_count: u32) -> (usize, usize) {
    (
        (if width == 0 {
            max_one(led_count as int)
        } else {
            width as int
        }) as usize,
        max_one(height as int) as usize,
    )
}

pub fn resize_dims(width: u32, height: u32, led_count: u32) -> (r: (usize, usize))
    ensures
        r == resized_dims(width, height, led_count),
        r.0 >= 1,
        r.1 >= 1,
{
    let fallback: usize = if led_count == 0 { 1 } else { led_count as usize };
    let w: usize = if width == 0 { fallback } else { width as usize };
    let h: usize = if height == 0 { 1 } else { height as usize };
    (w, h)
}

pub open spec fn saturating_product(a: usize, b: usize) -> int {
    if a * b > usize::MAX {
        usize::MAX as int
    } else {
        a * b
    }
}

/// The extent one frame covers: the stored width (or the pixel count when no
/// width is stored), at least 1; the stored height, at least 1; and how many of
/// the pixels the `width x height` grid covers.
pub open spec fn frame_extent_spec(stored_width: usize, stored_height: usize, pixel_count: usize) -> (
    usize,
    usize,
    usize,
) {
    let w = max_one(
        if stored_width == 0 {
            pixel_count as int
        } else {
            stored_width as int
        },
    ) as usize;
    let h = max_one(stored_height as int) as usize;
    let p = saturating_product(w, h);
    (w, h, (if pixel_count < p {
        pixel_count as int
    } else {
        p
    }) as usize)
}

pub fn frame_extent(stored_width: usize, stored_height: usize, pixel_count: usize) -> (r: (
    usize,
    usize,
    usize,
))
    ensures
        r == frame_extent_spec(stored_width, stored_height, pixel_count),
        r.0 >= 1,
        r.1 >= 1,
        r.2 <= pixel_count,
{
    let raw = if stored_width == 0 { pixel_count } else { stored_width };
    let w: usize = if raw == 0 { 1 } else { raw };
    let h: usize = if stored_height == 0 { 1 } else { stored_height };
    let p = w.checked_mul(h);
    let area: usize = match p {
        Some(a) => a,
        None => usize::MAX,
    };
    let covered = if pixel_count < area { pixel_count } else { area };
    (w, h, covered)
}

/// Repeats the first `row_len` pixels over the first `render_len` pixels and
/// turns the rest off.
pub fn tile_first_row(pixels: &mut [SkydimoRgb], row_len: usize, render_len: usize)
    requires
        0 < row_len <= render_len <= old(pixels)@.len(),
    ensures
        final(pixels)@.len() == old(pixels)@.len(),
        forall|i: int|
            0 <= i < render_len ==> final(pixels)@[i] == old(pixels)@[i % (row_len as int)],
        forall|i: int| render_len <= i < final(pixels)@.len() ==> final(pixels)@[i] == black(),
{
    let len = pixels.len();
    let mut i: usize = row_len;
    assert forall|j: int| 0 <= j < row_len implies #[trigger] (j % (row_len as int)) == j by {
        vstd::arithmetic::div_mod::lemma_small_mod(j as nat, row_len as nat);
    }
    while i < render_len
        invariant
            len == pixels@.len(),
            0 < row_len <= render_len <= len,
            row_len <= i <= render_len,
            pixels@.len() == old(pixels)@.len(),
            forall|j: int| 0 <= j < row_len ==> pixels@[j] == old(pixels)@[j],
            forall|j: int| 0 <= j < i ==> pixels@[j] == old(pixels)@[j % (row_len as int)],
        decreases render_len - i,
    {
        let c = pixels[i % row_len];
        pixels[i] = c;
        i += 1;
    }
    while i < len
        invariant
            len == pixels@.len(),
            render_len <= i <= len,
            pixels@.len() == old(pixels)@.len(),
            forall|j: int|
                0 <= j < render_len ==> pixels@[j] == old(pixels)@[j % (row_len as int)],
            forall|j: int| render_len <= j < i ==> pixels@[j] == black(),
        decreases len - i,
    {
        pixels[i] = SkydimoRgb { r: 0, g: 0, b: 0 };
        i += 1;
    }
}

/// Grid the breathing circle draws on: its stored size (each side at least 1),
/// or a single row of `len` pixels when either side was never set.
pub open spec fn dimensions_spec(width: usize, height: usize, len: usize) -> (usize, usize) {
    if width == 0 || height == 0 {
        (max_one(len as int) as usize, 1)
    } else {
        (width, height)
    }
}

pub fn dimensions(width: usize, height: usize, len: usize) -> (r: (usize, usize))
    ensures
        r == dimensions_spec(width, height, len),
        r.0 >= 1,
        r.1 >= 1,
{
    if width == 0 || height == 0 {
        (if len == 0 { 1 } else { len }, 1)
    } else {
        (width, height)
    }
}

/// Grid the colour wheel lays its LEDs on: the stored size (each side at
/// least 1), or one row of all LEDs when that grid holds fewer LEDs than there
/// are.
pub open spec fn effective_dimensions_spec(width: usize, height: usize, led_count: usize) -> (
    usize,
    usize,
) {
    let w = max_one(width as int) as usize;
    let h = max_one(height as int) as usize;
    if saturating_product(w, h) < led_count {
        (max_one(led_count as int) as usize, 1)
    } else {
        (w, h)
    }
}

pub fn effective_dimensions(width: usize, height: usize, led_count: usize) -> (r: (usize, usize))
    ensures
        r == effective_dimensions_spec(width, height, led_count),
        r.0 >= 1,
        r.1 >= 1,
{
    let w = if width == 0 { 1 } else { width };
    let h = if height == 0 { 1 } else { height };
    let area = match w.checked_mul(h) {
        Some(a) => a,
        None => usize::MAX,
    };
    if area < led_count {
        (if led_count == 0 { 1 } else { led_count }, 1)
    } else {
        (w, h)
    }
}

/// Size an audio effect keeps after a resize: when either side is zero, one
/// row of the LED count (at least 1); otherwise the sides, each at least 1.
pub open spec fn audio_resized_dims(width: u32, height: u32, led_count: u32) -> (usize, usize) {
    if width == 0 || height == 0 {
        (max_one(led_count as int) as usize, 1)
    } else {
        (width as usize, height as usize)
    }
}

pub fn audio_resize_dims(width: u32, height: u32, led_count: u32) -> (r: (usize, usize))
    ensures
        r == audio_resized_dims(width, height, led_count),
        r.0 >= 1,
        r.1 >= 1,
{
    if width == 0 || height == 0 {
        (if led_count == 0 { 1 } else { led_count as usize }, 1)
    } else {
        (width as usize, height as usize)
    }
}

} // verus!
