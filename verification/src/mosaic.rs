//! Parameter reading of the mosaic effect.
use vstd::prelude::*;

use crate::json_arrays::{collect_lenient_colors, lenient_colors};
use crate::json_bytes::{json_value_start, value_start_spec};
use crate::rgb::{rgb, SkydimoRgb};
use crate::rng::{at_least_one, xorshift64_step, XorShift64};

verus! {

/// Whether `key` holds an array, and the colours of its string elements that
/// parse (the others are dropped), before the effect brightens them.
pub open spec fn json_color_palette_spec(s: Seq<u8>, key: Seq<u8>) -> (bool, Seq<SkydimoRgb>) {
    match value_start_spec(s, key) {
        Some(p) => if p < s.len() && s[p] == 91 {
            (true, lenient_colors(s, p + 1, None))
        } else {
            (false, Seq::empty())
        },
        None => (false, Seq::empty()),
    }
}

pub fn json_color_palette(bytes: &[u8], key: &[u8], out: &mut Vec<SkydimoRgb>) -> (found: bool)
    ensures
        found == json_color_palette_spec(bytes@, key@).0,
        final(out)@ == old(out)@ + json_color_palette_spec(bytes@, key@).1,
{
    let pos = match json_value_start(bytes, key) {
        Some(p) => p,
        None => {
            assert(old(out)@ + Seq::<SkydimoRgb>::empty() =~= old(out)@);
            return false;
        },
    };
    if pos >= bytes.len() || bytes[pos] != 91 {
        assert(old(out)@ + Seq::<SkydimoRgb>::empty() =~= old(out)@);
        return false;
    }
    collect_lenient_colors(bytes, pos + 1, None, out);
    true
}

/// Colour a tile takes when no palette colour can be drawn (red).
pub open spec fn default_tile_color() -> SkydimoRgb {
    rgb(255, 0, 0)
}

/// A palette colour for a new tile: a random entry, the only entry of a
/// one-colour palette (drawn without using the generator), or red for an
/// empty palette.
pub fn pick_palette_color(rng: &mut XorShift64, palette: &[SkydimoRgb]) -> (c: SkydimoRgb)
    ensures
        palette@.len() == 0 ==> c == default_tile_color() && final(rng)@ == old(rng)@,
        palette@.len() == 1 ==> c == palette@[0] && final(rng)@ == old(rng)@,
        palette@.len() > 1 ==> c == palette@[(xorshift64_step(old(rng)@) % (palette@.len() as u64)) as int]
            && final(rng)@ == at_least_one(xorshift64_step(old(rng)@)),
{
    if palette.len() == 0 {
        return SkydimoRgb { r: 255, g: 0, b: 0 };
    }
    let idx = rng.range_usize(palette.len());
    palette[idx]
}

} // verus!
