//! Colour parameter of the audio sine effect: exactly six digits read two at a
//! time the way `u8::from_str_radix(_, 16)` reads them.
use vstd::prelude::*;
use vstd::string::StringSliceAdditionalSpecFns;

use crate::hex::{hex_digit, hex_pair_value, parse_hex_byte, parse_hex_nibble, strip_one_hash};
use crate::rgb::{black, rgb, SkydimoRgb};
use crate::text::{trim_unicode, trim_unicode_spec};

verus! {

/// Value of a two-character base-16 field as `u8::from_str_radix` gives it: a
/// leading `+` is allowed before a single digit.
pub open spec fn radix_pair(a: u8, b: u8) -> Option<u8> {
    if a == 43 {
        hex_digit(b)
    } else {
        hex_pair_value(a, b)
    }
}

/// Byte `i` of UTF-8 text starts a character (or is its end).
pub open spec fn is_char_start(d: Seq<u8>, i: int) -> bool {
    i == d.len() || d[i] < 0x80 || d[i] >= 0xC0
}

/// The digits of a colour parameter: trimmed, one `#` dropped.
pub open spec fn sine_digits(text: Seq<u8>) -> Seq<u8> {
    strip_one_hash(trim_unicode_spec(text))
}

/// Six bytes whose two-byte fields cannot be cut out of the text: the first
/// cut falls inside a character, or the first field reads and the second cut
/// does.
pub open spec fn splits_a_character(d: Seq<u8>) -> bool {
    d.len() == 6 && (!is_char_start(d, 2) || (radix_pair(d[0], d[1]) is Some && !is_char_start(
        d,
        4,
    )))
}

/// Colour of six digits; black for any other length or any field that does not read.
pub open spec fn sine_color(d: Seq<u8>) -> SkydimoRgb {
    if d.len() != 6 {
        black()
    } else {
        match (radix_pair(d[0], d[1]), radix_pair(d[2], d[3]), radix_pair(d[4], d[5])) {
            (Some(r), Some(g), Some(b)) => rgb(r, g, b),
            _ => black(),
        }
    }
}

fn parse_radix_pair(a: u8, b: u8) -> (r: Option<u8>)
    ensures
        r == radix_pair(a, b),
{
    if a == 43 {
        parse_hex_nibble(b)
    } else {
        parse_hex_byte(a, b)
    }
}

pub fn hex_to_rgb(raw: &str) -> (c: SkydimoRgb)
    requires
        !splits_a_character(sine_digits(raw.spec_bytes())),
    ensures
        c == sine_color(sine_digits(raw.spec_bytes())),
{
    let trimmed = trim_unicode(raw.as_bytes());
    let hex = if trimmed.len() > 0 && trimmed[0] == 35 {
        &trimmed[1..trimmed.len()]
    } else {
        trimmed
    };
    assert(hex@ == sine_digits(raw.spec_bytes()));
    if hex.len() != 6 {
        return SkydimoRgb { r: 0, g: 0, b: 0 };
    }
    let r = match parse_radix_pair(hex[0], hex[1]) {
        Some(v) => v,
        None => return SkydimoRgb { r: 0, g: 0, b: 0 },
    };
    let g = match parse_radix_pair(hex[2], hex[3]) {
        Some(v) => v,
        None => return SkydimoRgb { r: 0, g: 0, b: 0 },
    };
    let b = match parse_radix_pair(hex[4], hex[5]) {
        Some(v) => v,
        None => return SkydimoRgb { r: 0, g: 0, b: 0 },
    };
    SkydimoRgb { r, g, b }
}

} // verus!
