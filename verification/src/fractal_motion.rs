//! Colour parameter of the fractal motion effect: eight digits drop their
//! alpha pair, and a text of another length keeps the fallback colour.
use vstd::prelude::*;
use vstd::string::StringSliceAdditionalSpecFns;

use crate::audio_sine::is_char_start;
use crate::hex::{color_from_digits, color_from_hex_digits, strip_one_hash};
use crate::json_text::{json_bool, json_bool_spec, json_string, json_string_spec};
use crate::rgb::{rgb, SkydimoRgb};
use crate::text::{trim_unicode, trim_unicode_spec};

verus! {

/// Seed used when the clock cannot be read.
pub const CLOCK_FALLBACK: u64 = 0x6A09_E667_F3BC_C909;

/// The digits of a colour text: trimmed, one `#` dropped.
pub open spec fn fractal_digits(text: Seq<u8>) -> Seq<u8> {
    strip_one_hash(trim_unicode_spec(text))
}

/// `rrggbbaa` keeps `rrggbb`; any other text is kept whole.
pub open spec fn without_alpha(d: Seq<u8>) -> Seq<u8> {
    if d.len() == 8 {
        d.take(6)
    } else {
        d
    }
}

/// Three or six digits give their colour (`None` for a non-hex digit); any
/// other length gives the fallback.
pub open spec fn fractal_color(d: Seq<u8>, fallback: SkydimoRgb) -> Option<SkydimoRgb> {
    if d.len() == 3 || d.len() == 6 {
        color_from_hex_digits(d)
    } else {
        Some(fallback)
    }
}

pub fn parse_hex_color(raw: &str, fallback: SkydimoRgb) -> (r: Option<SkydimoRgb>)
    requires
        fractal_digits(raw.spec_bytes()).len() == 8 ==> is_char_start(
            fractal_digits(raw.spec_bytes()),
            6,
        ),
    ensures
        r == fractal_color(without_alpha(fractal_digits(raw.spec_bytes())), fallback),
{
    parse_hex_color_bytes(raw.as_bytes(), fallback)
}

/// [`parse_hex_color`] over the UTF-8 bytes of the text.
pub fn parse_hex_color_bytes(raw: &[u8], fallback: SkydimoRgb) -> (r: Option<SkydimoRgb>)
    requires
        fractal_digits(raw@).len() == 8 ==> is_char_start(fractal_digits(raw@), 6),
    ensures
        r == fractal_color(without_alpha(fractal_digits(raw@)), fallback),
{
    let trimmed = trim_unicode(raw);
    let mut hex = if trimmed.len() > 0 && trimmed[0] == 35 {
        &trimmed[1..trimmed.len()]
    } else {
        trimmed
    };
    assert(hex@ == fractal_digits(raw@));
    if hex.len() == 8 {
        hex = &hex[0..6];
    }
    if hex.len() == 3 || hex.len() == 6 {
        color_from_digits(hex)
    } else {
        Some(fallback)
    }
}

/// The numeric settings, in the order thickness, speed, amplitude, frequency,
/// then the twelve frequency multipliers.
pub const FRACTAL_NUMBER_COUNT: usize = 16;

/// Lowest value of each numeric setting.
pub open spec fn fractal_lo(i: int) -> u32 {
    seq![2u32, 20u32, 1u32, 1u32, 1u32, 1u32, 1u32, 1u32, 1u32, 1u32, 1u32, 1u32, 1u32, 1u32, 1u32, 1u32][i]
}

/// Highest value of each numeric setting.
pub open spec fn fractal_hi(i: int) -> u32 {
    seq![20u32, 200u32, 10000u32, 10000u32, 10000u32, 10000u32, 10000u32, 1000u32, 10000u32, 10000u32, 100u32, 10000u32, 10000u32, 10000u32, 10000u32, 100u32][i]
}

pub open spec fn clamp_u32(x: u32, lo: u32, hi: u32) -> u32 {
    if x < lo {
        lo
    } else if x > hi {
        hi
    } else {
        x
    }
}

/// The settings of the fractal motion effect.
pub struct FractalConfig {
    pub background: SkydimoRgb,
    pub numbers: [u32; 16],
    pub random: bool,
    pub color: SkydimoRgb,
}

/// A colour parameter of a text: the string value of `key` read with
/// [`fractal_color`]; `None` when there is no string or it is not a colour.
pub open spec fn fractal_color_param(s: Seq<u8>, key: Seq<u8>, fallback: SkydimoRgb) -> Option<
    SkydimoRgb,
> {
    match json_string_spec(s, key) {
        Some(b) => fractal_color(without_alpha(fractal_digits(b)), fallback),
        None => None,
    }
}

/// The string value of `key` can be read without cutting a character apart.
pub open spec fn color_text_readable(s: Seq<u8>, key: Seq<u8>) -> bool {
    json_string_spec(s, key) matches Some(b) ==> (fractal_digits(b).len() == 8 ==> is_char_start(
        fractal_digits(b),
        6,
    ))
}

pub open spec fn background_key() -> Seq<u8> {
    seq![98u8, 97u8, 99u8, 107u8, 103u8, 114u8, 111u8, 117u8, 110u8, 100u8]
}

pub open spec fn color_key() -> Seq<u8> {
    seq![99u8, 111u8, 108u8, 111u8, 114u8]
}

pub open spec fn random_key() -> Seq<u8> {
    seq![114u8, 97u8, 110u8, 100u8, 111u8, 109u8]
}

pub open spec fn keep_color(next: Option<SkydimoRgb>, current: SkydimoRgb) -> SkydimoRgb {
    match next {
        Some(c) => c,
        None => current,
    }
}

impl FractalConfig {
    pub fn new() -> (c: Self)
        ensures
            c.background == rgb(0, 0, 0),
            c.numbers@ == seq![2u32, 50u32, 100u32, 100u32, 210u32, 450u32, 172u32, 112u32, 400u32, 222u32, 43u32, 500u32, 211u32, 150u32, 172u32, 6u32],
            !c.random,
            c.color == rgb(255, 0, 0),
    {
        FractalConfig {
            background: SkydimoRgb { r: 0, g: 0, b: 0 },
            numbers: [2, 50, 100, 100, 210, 450, 172, 112, 400, 222, 43, 500, 211, 150, 172, 6],
            random: false,
            color: SkydimoRgb { r: 255, g: 0, b: 0 },
        }
    }
}

/// Applies a parameter text. `numbers` holds the sixteen numeric parameters
/// (`thickness`, `speed`, `amplitude`, `frequency`, `freq_m1` ... `freq_m12`)
/// rounded half up to a `u32`, `None` where absent: each sets its setting,
/// kept to its range. `random` follows a `true`/`false` value; `background`
/// and `color` take their colour when their string reads as one (a text of
/// another length gives black and red).
pub fn apply_fractal_params(cfg: &mut FractalConfig, json: &[u8], numbers: [Option<u32>; 16])
    requires
        color_text_readable(json@, background_key()),
        color_text_readable(json@, color_key()),
    ensures
        forall|i: int|
            0 <= i < 16 ==> #[trigger] final(cfg).numbers@[i] == (match numbers@[i] {
                Some(n) => clamp_u32(n, fractal_lo(i), fractal_hi(i)),
                None => old(cfg).numbers@[i],
            }),
        final(cfg).random == (match json_bool_spec(json@, random_key()) {
            Some(b) => b,
            None => old(cfg).random,
        }),
        final(cfg).background == keep_color(
            fractal_color_param(json@, background_key(), rgb(0, 0, 0)),
            old(cfg).background,
        ),
        final(cfg).color == keep_color(
            fractal_color_param(json@, color_key(), rgb(255, 0, 0)),
            old(cfg).color,
        ),
{
    let lo: [u32; 16] = [2, 20, 1, 1, 1, 1, 1, 1, 1, 1, 1, 1, 1, 1, 1, 1];
    let hi: [u32; 16] = [20, 200, 10000, 10000, 10000, 10000, 10000, 1000, 10000, 10000, 100, 10000, 10000, 10000, 10000, 100];
    assert(forall|i: int| 0 <= i < 16 ==> lo@[i] == #[trigger] fractal_lo(i));
    assert(forall|i: int| 0 <= i < 16 ==> hi@[i] == #[trigger] fractal_hi(i));
    let ghost before = cfg.numbers@;
    let mut i: usize = 0;
    while i < 16
        invariant
            i <= 16,
            before == old(cfg).numbers@,
            cfg.background == old(cfg).background,
            cfg.random == old(cfg).random,
            cfg.color == old(cfg).color,
            forall|k: int| 0 <= k < 16 ==> lo@[k] == #[trigger] fractal_lo(k),
            forall|k: int| 0 <= k < 16 ==> hi@[k] == #[trigger] fractal_hi(k),
            forall|k: int|
                0 <= k < i ==> #[trigger] cfg.numbers@[k] == (match numbers@[k] {
                    Some(n) => clamp_u32(n, fractal_lo(k), fractal_hi(k)),
                    None => before[k],
                }),
            forall|k: int| i <= k < 16 ==> #[trigger] cfg.numbers@[k] == before[k],
        decreases 16 - i,
    {
        if let Some(n) = numbers[i] {
            let v = if n < lo[i] {
                lo[i]
            } else if n > hi[i] {
                hi[i]
            } else {
                n
            };
            cfg.numbers[i] = v;
        }
        i += 1;
    }
    let random_k: [u8; 6] = [114, 97, 110, 100, 111, 109];
    let background_k: [u8; 10] = [98, 97, 99, 107, 103, 114, 111, 117, 110, 100];
    let color_k: [u8; 5] = [99, 111, 108, 111, 114];
    assert(random_k@ == random_key());
    assert(background_k@ == background_key());
    assert(color_k@ == color_key());
    if let Some(b) = json_bool(json, random_k.as_slice()) {
        cfg.random = b;
    }
    if let Some(text) = json_string(json, background_k.as_slice()) {
        if let Some(c) = parse_hex_color_bytes(text, SkydimoRgb { r: 0, g: 0, b: 0 }) {
            cfg.background = c;
        }
    }
    if let Some(text) = json_string(json, color_k.as_slice()) {
        if let Some(c) = parse_hex_color_bytes(text, SkydimoRgb { r: 255, g: 0, b: 0 }) {
            cfg.color = c;
        }
    }
}

} // verus!
