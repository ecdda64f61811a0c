//! Integer colour arithmetic and canvas mapping of the audio visualizer, which
//! draws on a 256 x 64 canvas and maps it onto the LEDs.
use vstd::prelude::*;

use crate::rgb::{rgb, SkydimoRgb};

verus! {

/// Canvas width.
pub const VIS_W: usize = 256;

/// Canvas height.
pub const VIS_H: usize = 64;

/// Canvas size.
pub const TOTAL_PX: usize = 16384;

/// Colour of a solid single-colour mode (0 black ... 9 electric aquamarine),
/// packed as `0xRRGGBB`; the other modes have none.
pub open spec fn single_color_spec(mode: i32) -> Option<u32> {
    if mode == 0 {
        Some(0x000000)
    } else if mode == 1 {
        Some(0xFFFFFF)
    } else if mode == 2 {
        Some(0xFF0000)
    } else if mode == 3 {
        Some(0xFFA500)
    } else if mode == 4 {
        Some(0xFFFF00)
    } else if mode == 5 {
        Some(0x00FF00)
    } else if mode == 6 {
        Some(0x00FFFF)
    } else if mode == 7 {
        Some(0x0000FF)
    } else if mode == 8 {
        Some(0x800080)
    } else if mode == 9 {
        Some(0x4000FF)
    } else {
        None
    }
}

pub fn single_color(mode: i32) -> (c: Option<u32>)
    ensures
        c == single_color_spec(mode),
{
    match mode {
        0 => Some(0x000000),
        1 => Some(0xFFFFFF),
        2 => Some(0xFF0000),
        3 => Some(0xFFA500),
        4 => Some(0xFFFF00),
        5 => Some(0x00FF00),
        6 => Some(0x00FFFF),
        7 => Some(0x0000FF),
        8 => Some(0x800080),
        9 => Some(0x4000FF),
        _ => None,
    }
}

/// The colour of `0xRRGGBB` (higher bits ignored).
pub open spec fn unpacked(color: u32) -> SkydimoRgb {
    rgb(((color / 65536) % 256) as u8, ((color / 256) % 256) as u8, (color % 256) as u8)
}

pub fn unpack_rgb(color: u32) -> (c: SkydimoRgb)
    ensures
        c == unpacked(color),
{
    assert((color >> 16u32) & 0xFF == (color / 65536) % 256) by (bit_vector);
    assert((color >> 8u32) & 0xFF == (color / 256) % 256) by (bit_vector);
    assert(color & 0xFF == color % 256) by (bit_vector);
    SkydimoRgb {
        r: ((color >> 16u32) & 0xFF) as u8,
        g: ((color >> 8u32) & 0xFF) as u8,
        b: (color & 0xFF) as u8,
    }
}

pub open spec fn clamp_byte(x: int) -> int {
    if x < 0 {
        0
    } else if x > 255 {
        255
    } else {
        x
    }
}

/// Each channel times `brightness / 256` (brightness clamped to 0..=255), rounded down.
pub open spec fn scaled_256(color: SkydimoRgb, brightness: i32) -> SkydimoRgb {
    let b = clamp_byte(brightness as int);
    rgb((b * color.r / 256) as u8, (b * color.g / 256) as u8, (b * color.b / 256) as u8)
}

fn scale_channel(b: i32, c: u8) -> (r: u8)
    requires
        0 <= b <= 255,
    ensures
        r == b * c / 256,
{
    assert(0 <= b * c <= 65025) by (nonlinear_arith)
        requires
            0 <= b <= 255,
            c <= 255,
    ;
    ((b * c as i32) / 256) as u8
}

pub fn scale_color_256(color: SkydimoRgb, brightness: i32) -> (c: SkydimoRgb)
    ensures
        c == scaled_256(color, brightness),
{
    let b = if brightness < 0 {
        0
    } else if brightness > 255 {
        255
    } else {
        brightness
    };
    SkydimoRgb {
        r: scale_channel(b, color.r),
        g: scale_channel(b, color.g),
        b: scale_channel(b, color.b),
    }
}

/// Canvas index of column `x`, row `y`.
pub fn px_idx(x: usize, y: usize) -> (i: usize)
    requires
        y * VIS_W + x <= usize::MAX,
    ensures
        i == y * VIS_W + x,
{
    y * VIS_W + x
}

/// Integer HSV (hue in degrees, saturation and value 0..=255) to RGB, the way
/// the visualizer's palette tables are built.
pub open spec fn hsv255(hue: int, saturation: int, value: int) -> SkydimoRgb {
    let h = hue % 360;
    let s = clamp_byte(saturation);
    let v = clamp_byte(value);
    if s == 0 {
        rgb(v as u8, v as u8, v as u8)
    } else {
        let region = h / 60;
        let remainder = (h - region * 60) * 6;
        let p = (v * (255 - s)) / 255;
        let q = (v * (255 - (s * remainder) / 360)) / 255;
        let t = (v * (255 - (s * (360 - remainder)) / 360)) / 255;
        let (r, g, b) = if region == 0 {
            (v, t, p)
        } else if region == 1 {
            (q, v, p)
        } else if region == 2 {
            (p, v, t)
        } else if region == 3 {
            (p, q, v)
        } else if region == 4 {
            (t, p, v)
        } else {
            (v, p, q)
        };
        rgb(clamp_byte(r) as u8, clamp_byte(g) as u8, clamp_byte(b) as u8)
    }
}

/// `hue` brought into `0..360`.
fn hue_mod_360(hue: i32) -> (h: i32)
    ensures
        h == hue as int % 360,
        0 <= h < 360,
{
    if hue >= 0 {
        hue % 360
    } else {
        let m = (-(hue + 1)) % 360;
        assert(hue as int % 360 == 359 - m) by (nonlinear_arith)
            requires
                hue < 0,
                m == (-(hue + 1)) % 360,
        ;
        359 - m
    }
}

fn clamp_i32_byte(x: i32) -> (r: u8)
    ensures
        r == clamp_byte(x as int),
{
    if x < 0 {
        0
    } else if x > 255 {
        255
    } else {
        x as u8
    }
}

pub fn hsv_to_rgb_255(hue: i32, saturation: i32, value: i32) -> (c: SkydimoRgb)
    ensures
        c == hsv255(hue as int, saturation as int, value as int),
{
    let h = hue_mod_360(hue);
    let s: i32 = if saturation < 0 {
        0
    } else if saturation > 255 {
        255
    } else {
        saturation
    };
    let v: i32 = if value < 0 {
        0
    } else if value > 255 {
        255
    } else {
        value
    };
    if s == 0 {
        return SkydimoRgb { r: v as u8, g: v as u8, b: v as u8 };
    }
    let region = h / 60;
    let remainder = (h - region * 60) * 6;
    assert(0 <= remainder <= 354);
    assert(0 <= v * (255 - s) <= 65025) by (nonlinear_arith)
        requires
            0 <= v <= 255,
            0 <= s <= 255,
    ;
    assert(0 <= s * remainder <= 255 * 354) by (nonlinear_arith)
        requires
            0 <= s <= 255,
            0 <= remainder <= 354,
    ;
    assert(0 <= s * (360 - remainder) <= 255 * 360) by (nonlinear_arith)
        requires
            0 <= s <= 255,
            0 <= remainder <= 354,
    ;
    let qs = 255 - (s * remainder) / 360;
    let ts = 255 - (s * (360 - remainder)) / 360;
    assert(0 <= v * qs <= 65025) by (nonlinear_arith)
        requires
            0 <= v <= 255,
            0 <= qs <= 255,
    ;
    assert(0 <= v * ts <= 65025) by (nonlinear_arith)
        requires
            0 <= v <= 255,
            0 <= ts <= 255,
    ;
    let p = (v * (255 - s)) / 255;
    let q = (v * qs) / 255;
    let t = (v * ts) / 255;
    let (r, g, b) = match region {
        0 => (v, t, p),
        1 => (q, v, p),
        2 => (p, v, t),
        3 => (p, q, v),
        4 => (t, p, v),
        _ => (v, p, q),
    };
    SkydimoRgb { r: clamp_i32_byte(r), g: clamp_i32_byte(g), b: clamp_i32_byte(b) }
}

/// The 360-entry hue table at one value.
pub fn build_hsv_lut(value: i32) -> (t: Vec<SkydimoRgb>)
    ensures
        t@.len() == 360,
        forall|h: int| 0 <= h < 360 ==> #[trigger] t@[h] == hsv255(h, 255, value as int),
{
    let mut table: Vec<SkydimoRgb> = Vec::new();
    let mut h: i32 = 0;
    while h < 360
        invariant
            0 <= h <= 360,
            table@.len() == h,
            forall|k: int| 0 <= k < h ==> #[trigger] table@[k] == hsv255(k, 255, value as int),
        decreases 360 - h,
    {
        table.push(hsv_to_rgb_255(h, 255, value));
        h += 1;
    }
    table
}

/// LEDs of a `width` x `height` matrix take, row by row, the canvas pixel at
/// their column's and row's grid positions; LEDs past the matrix turn black.
pub open spec fn matrix_led(
    canvas: Seq<SkydimoRgb>,
    xs: Seq<usize>,
    ys: Seq<usize>,
    width: int,
    led: int,
) -> SkydimoRgb {
    canvas[ys[led / width] * VIS_W + xs[led % width]]
}

pub fn map_matrix(
    canvas: &[SkydimoRgb],
    xs: &[usize],
    ys: &[usize],
    width: usize,
    height: usize,
    pixels: &mut [SkydimoRgb],
)
    requires
        canvas@.len() == TOTAL_PX,
        width >= 1,
        xs@.len() == width,
        ys@.len() == height,
        forall|i: int| 0 <= i < width ==> #[trigger] xs@[i] < VIS_W,
        forall|i: int| 0 <= i < height ==> #[trigger] ys@[i] < VIS_H,
    ensures
        final(pixels)@.len() == old(pixels)@.len(),
        forall|led: int|
            0 <= led < old(pixels)@.len() && led < width * height ==> #[trigger] final(pixels)@[led]
                == matrix_led(canvas@, xs@, ys@, width as int, led),
        forall|led: int|
            width * height <= led < old(pixels)@.len() ==> #[trigger] final(pixels)@[led]
                == rgb(0, 0, 0),
{
    let n = pixels.len();
    let mut led: usize = 0;
    let mut y: usize = 0;
    while y < height
        invariant
            n == pixels@.len(),
            pixels@.len() == old(pixels)@.len(),
            canvas@.len() == TOTAL_PX,
            width >= 1,
            xs@.len() == width,
            ys@.len() == height,
            forall|i: int| 0 <= i < width ==> #[trigger] xs@[i] < VIS_W,
            forall|i: int| 0 <= i < height ==> #[trigger] ys@[i] < VIS_H,
            y <= height,
            led == y * width,
            led <= n,
            forall|k: int|
                0 <= k < led ==> #[trigger] pixels@[k] == matrix_led(
                    canvas@,
                    xs@,
                    ys@,
                    width as int,
                    k,
                ),
        decreases height - y,
    {
        let mut x: usize = 0;
        while x < width
            invariant
                n == pixels@.len(),
                pixels@.len() == old(pixels)@.len(),
                canvas@.len() == TOTAL_PX,
                width >= 1,
                xs@.len() == width,
                ys@.len() == height,
                forall|i: int| 0 <= i < width ==> #[trigger] xs@[i] < VIS_W,
                forall|i: int| 0 <= i < height ==> #[trigger] ys@[i] < VIS_H,
                y < height,
                x <= width,
                led == y * width + x,
                led <= n,
                forall|k: int|
                    0 <= k < led ==> #[trigger] pixels@[k] == matrix_led(
                        canvas@,
                        xs@,
                        ys@,
                        width as int,
                        k,
                    ),
            decreases width - x,
        {
            if led >= n {
                proof {
                    assert(y * width + x <= width * height) by (nonlinear_arith)
                        requires
                            y < height,
                            x <= width,
                    ;
                    assert(forall|k: int|
                        0 <= k < n && k < width * height ==> #[trigger] pixels@[k] == matrix_led(
                            canvas@,
                            xs@,
                            ys@,
                            width as int,
                            k,
                        ));
                }
                return;
            }
            let cx = xs[x];
            let cy = ys[y];
            proof {
                assert((y * width + x) / (width as int) == y && (y * width + x) % (width as int)
                    == x) by (nonlinear_arith)
                    requires
                        x < width,
                        width >= 1,
                ;
            }
            pixels[led] = canvas[cy * VIS_W + cx];
            led += 1;
            x += 1;
        }
        assert(led == (y + 1) * width) by (nonlinear_arith)
            requires
                led == y * width + width,
        ;
        y += 1;
    }
    let end = led;
    while led < n
        invariant
            n == pixels@.len(),
            pixels@.len() == old(pixels)@.len(),
            end <= led <= n,
            end == height * width,
            forall|k: int|
                0 <= k < end ==> #[trigger] pixels@[k] == matrix_led(
                    canvas@,
                    xs@,
                    ys@,
                    width as int,
                    k,
                ),
            forall|k: int| end <= k < led ==> #[trigger] pixels@[k] == rgb(0, 0, 0),
        decreases n - led,
    {
        pixels[led] = SkydimoRgb { r: 0, g: 0, b: 0 };
        led += 1;
    }
    assert(width * height == height * width) by (nonlinear_arith);
}

/// A strip LED takes the bar-graph row at its grid column (column 0 past the
/// end of the grid).
pub fn map_linear(canvas: &[SkydimoRgb], xs: &[usize], pixels: &mut [SkydimoRgb])
    requires
        canvas@.len() == TOTAL_PX,
        forall|i: int| 0 <= i < xs@.len() ==> #[trigger] xs@[i] < VIS_W,
    ensures
        final(pixels)@.len() == old(pixels)@.len(),
        forall|i: int|
            0 <= i < old(pixels)@.len() ==> #[trigger] final(pixels)@[i] == canvas@[if i
                < xs@.len() {
                xs@[i] as int
            } else {
                0
            }],
{
    let n = pixels.len();
    let mut i: usize = 0;
    while i < n
        invariant
            n == pixels@.len(),
            pixels@.len() == old(pixels)@.len(),
            canvas@.len() == TOTAL_PX,
            forall|j: int| 0 <= j < xs@.len() ==> #[trigger] xs@[j] < VIS_W,
            i <= n,
            forall|j: int|
                0 <= j < i ==> #[trigger] pixels@[j] == canvas@[if j < xs@.len() {
                    xs@[j] as int
                } else {
                    0
                }],
        decreases n - i,
    {
        let x = if i < xs.len() { xs[i] } else { 0 };
        pixels[i] = canvas[x];
        i += 1;
    }
}

/// How the canvas reaches the LEDs.
#[derive(Clone, Copy, Debug, PartialEq, Eq, Structural)]
pub enum OutputLayout {
    /// A matrix wider and taller than one LED.
    Matrix,
    /// One LED (or a 1 x 1 layout): every LED shows the single-colour row.
    Single,
    /// A strip: each LED shows one column of the bar graph.
    Linear,
}

pub open spec fn layout_spec(width: usize, height: usize, led_count: usize) -> OutputLayout {
    let w = if width == 0 { 1 } else { width };
    let h = if height == 0 { 1 } else { height };
    if h > 1 && w > 1 {
        OutputLayout::Matrix
    } else if (w == 1 && h == 1) || led_count == 1 {
        OutputLayout::Single
    } else {
        OutputLayout::Linear
    }
}

pub fn output_layout(width: usize, height: usize, led_count: usize) -> (l: OutputLayout)
    ensures
        l == layout_spec(width, height, led_count),
{
    let w = if width == 0 { 1 } else { width };
    let h = if height == 0 { 1 } else { height };
    if h > 1 && w > 1 {
        OutputLayout::Matrix
    } else if (w == 1 && h == 1) || led_count == 1 {
        OutputLayout::Single
    } else {
        OutputLayout::Linear
    }
}

} // verus!
