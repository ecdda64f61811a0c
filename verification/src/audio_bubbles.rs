//! Palette of the audio bubbles effect: a numbered preset, or the colours of a
//! string array parameter.
use vstd::prelude::*;

use crate::audio_party::{hex_bytes_to_rgb, hex_to_rgb_spec};
use crate::custom_gradient_wave::{preset_palette, preset_palette_spec};
use crate::json_fields::{string_array_field, string_array_field_spec};
use crate::rgb::SkydimoRgb;

verus! {

/// Number of presets.
pub const PRESET_COUNT: usize = 12;

/// The preset palettes (the gradient presets, numbered from 0); an index past
/// the last gives the first.
pub open spec fn preset_colors_spec(index: usize) -> Seq<SkydimoRgb> {
    preset_palette_spec(
        if index < PRESET_COUNT {
            (index + 1) as u8
        } else {
            1u8
        },
    ).unwrap()
}

pub fn preset_colors(index: usize) -> (c: Vec<SkydimoRgb>)
    ensures
        c@ == preset_colors_spec(index),
{
    let n: u8 = if index < PRESET_COUNT { (index + 1) as u8 } else { 1 };
    match preset_palette(n) {
        Some(v) => v,
        None => Vec::new(),
    }
}

/// UTF-8 encoding of one character below 256.
pub open spec fn utf8_of_code(b: u8) -> Seq<u8> {
    if b < 0x80 {
        seq![b]
    } else {
        seq![(0xC0 + b / 64) as u8, (0x80 + b % 64) as u8]
    }
}

/// UTF-8 encoding of a string whose characters are all below 256.
pub open spec fn utf8_of_codes(v: Seq<u8>) -> Seq<u8>
    decreases v.len(),
{
    if v.len() == 0 {
        Seq::empty()
    } else {
        utf8_of_codes(v.drop_last()) + utf8_of_code(v.last())
    }
}

/// The UTF-8 text of a string of character codes below 256.
pub fn codes_to_utf8(v: &[u8]) -> (out: Vec<u8>)
    ensures
        out@ == utf8_of_codes(v@),
{
    let mut out: Vec<u8> = Vec::new();
    let mut i: usize = 0;
    while i < v.len()
        invariant
            i <= v@.len(),
            out@ == utf8_of_codes(v@.take(i as int)),
        decreases v@.len() - i,
    {
        let b = v[i];
        let ghost before = out@;
        if b < 0x80 {
            out.push(b);
        } else {
            out.push(0xC0 + b / 64);
            out.push(0x80 + b % 64);
        }
        proof {
            assert(v@.take(i + 1).drop_last() =~= v@.take(i as int));
            assert(out@ =~= before + utf8_of_code(b));
        }
        i += 1;
    }
    assert(v@.take(v@.len() as int) =~= v@);
    out
}

/// The colours of a list of strings, each read as a colour (white when it is
/// not one).
pub open spec fn string_colors(strings: Seq<Seq<u8>>) -> Seq<SkydimoRgb> {
    Seq::new(strings.len(), |k: int| hex_to_rgb_spec(utf8_of_codes(strings[k])))
}

/// The bubbles' palette: the chosen preset and the colours in use.
pub struct BubblePalette {
    pub preset: usize,
    pub colors: Vec<SkydimoRgb>,
}

/// The preset after a selection, kept to the preset range.
pub open spec fn chosen_preset(current: usize, select: Option<isize>) -> usize {
    match select {
        Some(p) => if p < 0 {
            0
        } else if p > PRESET_COUNT - 1 {
            (PRESET_COUNT - 1) as usize
        } else {
            p as usize
        },
        None => current,
    }
}

impl BubblePalette {
    pub fn new() -> (p: Self)
        ensures
            p.preset == 0,
            p.colors@ == preset_colors_spec(0),
    {
        BubblePalette { preset: 0, colors: preset_colors(0) }
    }

    /// Applies the palette parameters of a text. `preset_select` is the `preset`
    /// number rounded to an integer (`None` when absent): it picks a preset
    /// (kept to the range) and its colours. A `colors` array of strings then
    /// replaces the colours when it reads completely and holds a string that
    /// is not all whitespace.
    pub fn apply(&mut self, json: &[u8], preset_select: Option<isize>)
        ensures
            final(self).preset == chosen_preset(old(self).preset, preset_select),
            final(self).colors@ == (match string_array_field_spec(
                json@,
                seq![99u8, 111u8, 108u8, 111u8, 114u8, 115u8],
            ) {
                Some((true, strings)) => if strings.len() > 0 {
                    string_colors(strings)
                } else if preset_select is Some {
                    preset_colors_spec(chosen_preset(old(self).preset, preset_select))
                } else {
                    old(self).colors@
                },
                _ => if preset_select is Some {
                    preset_colors_spec(chosen_preset(old(self).preset, preset_select))
                } else {
                    old(self).colors@
                },
            }),
    {
        if let Some(p) = preset_select {
            let preset: usize = if p < 0 {
                0
            } else if p > (PRESET_COUNT - 1) as isize {
                PRESET_COUNT - 1
            } else {
                p as usize
            };
            self.preset = preset;
            self.colors = preset_colors(preset);
        }
        let key: [u8; 6] = [99, 111, 108, 111, 114, 115];
        assert(key@ == seq![99u8, 111u8, 108u8, 111u8, 114u8, 115u8]);
        let mut strings: Vec<Vec<u8>> = Vec::new();
        if string_array_field(json, key.as_slice(), &mut strings) {
            let ghost spec_strings = string_array_field_spec(json@, key@).unwrap().1;
            let mut colors: Vec<SkydimoRgb> = Vec::new();
            let mut k: usize = 0;
            while k < strings.len()
                invariant
                    k <= strings@.len(),
                    strings@.len() == spec_strings.len(),
                    forall|j: int| 0 <= j < spec_strings.len() ==> #[trigger] strings@[j]@
                        == spec_strings[j],
                    colors@ =~= string_colors(spec_strings).take(k as int),
                decreases strings@.len() - k,
            {
                let text = codes_to_utf8(strings[k].as_slice());
                colors.push(hex_bytes_to_rgb(text.as_slice()));
                k += 1;
            }
            if colors.len() > 0 {
                assert(string_colors(spec_strings).take(k as int) =~= string_colors(spec_strings));
                self.colors = colors;
            }
        }
    }
}

} // verus!
