//! Parameter reading of the expanding-bubbles effect.
use vstd::prelude::*;

use crate::hex::{parse_compact_hex, parse_compact_hex_spec};
use crate::json_arrays::{collect_lenient_colors, lenient_colors};
use crate::json_bytes::{json_string_at, json_value_start, value_start_spec};
use crate::rgb::{rgb, SkydimoRgb};
use crate::text::string_end_from;

verus! {

/// Colour used for colour strings that do not parse (white).
pub open spec fn fallback_color() -> SkydimoRgb {
    rgb(255, 255, 255)
}

/// The colour of `key`: a string value reads as a colour (white when it does
/// not parse); any other value is white; an unterminated string or a missing
/// key gives `None`.
pub open spec fn json_color_spec(s: Seq<u8>, key: Seq<u8>) -> Option<SkydimoRgb> {
    match value_start_spec(s, key) {
        Some(p) => if p < s.len() && s[p] == 34 {
            match string_end_from(s, p + 1, false) {
                Some(e) => Some(
                    match parse_compact_hex_spec(s.subrange(p + 1, e)) {
                        Some(c) => c,
                        None => fallback_color(),
                    },
                ),
                None => None,
            }
        } else {
            Some(fallback_color())
        },
        None => None,
    }
}

pub fn json_color(bytes: &[u8], key: &[u8]) -> (r: Option<SkydimoRgb>)
    ensures
        r == json_color_spec(bytes@, key@),
{
    let start = match json_value_start(bytes, key) {
        Some(p) => p,
        None => return None,
    };
    let fallback = SkydimoRgb { r: 255, g: 255, b: 255 };
    if start >= bytes.len() || bytes[start] != 34 {
        return Some(fallback);
    }
    match json_string_at(bytes, start + 1) {
        Some((raw, _)) => match parse_compact_hex(raw) {
            Some(c) => Some(c),
            None => Some(fallback),
        },
        None => None,
    }
}

/// Whether `key` holds an array, and the colours appended for it: every string
/// element gives its colour (white when it does not parse).
pub open spec fn json_color_array_spec(s: Seq<u8>, key: Seq<u8>) -> (bool, Seq<SkydimoRgb>) {
    match value_start_spec(s, key) {
        Some(p) => if p < s.len() && s[p] == 91 {
            (true, lenient_colors(s, p + 1, Some(fallback_color())))
        } else {
            (false, Seq::empty())
        },
        None => (false, Seq::empty()),
    }
}

pub fn json_color_array(bytes: &[u8], key: &[u8], out: &mut Vec<SkydimoRgb>) -> (found: bool)
    ensures
        found == json_color_array_spec(bytes@, key@).0,
        final(out)@ == old(out)@ + json_color_array_spec(bytes@, key@).1,
{
    let pos = match json_value_start(bytes, key) {
        Some(p) => p,
        None => {
            assert(old(out)@ + Seq::<SkydimoRgb>::empty() =~= old(out)@);
            return false;
        },
    };
    if pos >= bytes.len() || bytes[pos] != 91 {
        assert(old(out)@ + Seq::<SkydimoRgb>::empty() =~= old(out)@);
        return false;
    }
    collect_lenient_colors(bytes, pos + 1, Some(SkydimoRgb { r: 255, g: 255, b: 255 }), out);
    true
}

} // verus!
