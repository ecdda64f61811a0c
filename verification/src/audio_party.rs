//! Colour helpers of the audio party effect.
use vstd::prelude::*;
use vstd::string::StringSliceAdditionalSpecFns;

use crate::hex::{parse_after_hashes, parse_after_hashes_spec};
use crate::rgb::{rgb, white, SkydimoRgb};

verus! {

/// Colour of a parameter text: three or six hex digits after trimming and
/// dropping every leading `#`; white for anything else.
pub open spec fn hex_to_rgb_spec(text: Seq<u8>) -> SkydimoRgb {
    match parse_after_hashes_spec(text) {
        Some(c) => c,
        None => rgb(255, 255, 255),
    }
}

pub fn hex_to_rgb(hex: &str) -> (c: SkydimoRgb)
    ensures
        c == hex_to_rgb_spec(hex.spec_bytes()),
{
    hex_bytes_to_rgb(hex.as_bytes())
}

/// [`hex_to_rgb`] over the UTF-8 bytes of the text.
pub fn hex_bytes_to_rgb(raw: &[u8]) -> (c: SkydimoRgb)
    ensures
        c == hex_to_rgb_spec(raw@),
{
    match parse_after_hashes(raw) {
        Some(c) => c,
        None => white(),
    }
}

} // verus!
