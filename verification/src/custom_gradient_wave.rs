//! Parameter reading and palettes of the custom gradient wave effect.
use vstd::prelude::*;

use crate::json_arrays::{collect_strict_colors, strict_colors};
use crate::json_bytes::{json_value_start, value_start_spec};
use crate::rgb::{rgb, SkydimoRgb};

verus! {

/// The built-in palettes, by preset number (1 is also the default custom palette).
pub open spec fn preset_palette_spec(preset: u8) -> Option<Seq<SkydimoRgb>> {
    match preset {
        1 => Some(seq![rgb(0xFF, 0x00, 0x00), rgb(0xFF, 0x00, 0xE6), rgb(0x00, 0x00, 0xFF), rgb(0x00, 0xB3, 0xFF), rgb(0x00, 0xFF, 0x51), rgb(0xEA, 0xFF, 0x00), rgb(0xFF, 0xB3, 0x00), rgb(0xFF, 0x00, 0x00)]),
        2 => Some(seq![rgb(0x14, 0xE8, 0x1E), rgb(0x00, 0xEA, 0x8D), rgb(0x01, 0x7E, 0xD5), rgb(0xB5, 0x3D, 0xFF), rgb(0x8D, 0x00, 0xC4), rgb(0x14, 0xE8, 0x1E)]),
        3 => Some(seq![rgb(0x00, 0x00, 0x7F), rgb(0x00, 0x00, 0xFF), rgb(0x00, 0xFF, 0xFF), rgb(0x00, 0xAA, 0xFF), rgb(0x00, 0x00, 0x7F)]),
        4 => Some(seq![rgb(0xFE, 0x00, 0xC5), rgb(0x00, 0xC5, 0xFF), rgb(0x00, 0xC5, 0xFF), rgb(0xFE, 0x00, 0xC5)]),
        5 => Some(seq![rgb(0xFE, 0xE0, 0x00), rgb(0xFE, 0x00, 0xFE), rgb(0xFE, 0x00, 0xFE), rgb(0xFE, 0xE0, 0x00)]),
        6 => Some(seq![rgb(0xFF, 0x55, 0x00), rgb(0x00, 0x00, 0x00), rgb(0x00, 0x00, 0x00), rgb(0x00, 0x00, 0x00), rgb(0xFF, 0x55, 0x00)]),
        7 => Some(seq![rgb(0xFF, 0x21, 0x00), rgb(0xAA, 0x00, 0xFF), rgb(0xAA, 0x00, 0xFF), rgb(0xFF, 0x21, 0x00), rgb(0xFF, 0x21, 0x00), rgb(0xFF, 0x21, 0x00)]),
        8 => Some(seq![rgb(0x03, 0xFF, 0xFA), rgb(0x55, 0x00, 0x7F), rgb(0x55, 0x00, 0x7F), rgb(0x03, 0xFF, 0xFA)]),
        9 => Some(seq![rgb(0xFF, 0x00, 0x00), rgb(0x00, 0x00, 0xFF), rgb(0x00, 0x00, 0xFF), rgb(0xFF, 0x00, 0x00), rgb(0xFF, 0x00, 0x00)]),
        10 => Some(seq![rgb(0x00, 0xFF, 0x00), rgb(0x00, 0x32, 0xFF), rgb(0x00, 0x32, 0xFF), rgb(0x00, 0xFF, 0x00), rgb(0x00, 0xFF, 0x00)]),
        11 => Some(seq![rgb(0xFF, 0x21, 0x00), rgb(0xAB, 0x00, 0x6D), rgb(0xC0, 0x1C, 0x52), rgb(0xD5, 0x37, 0x37), rgb(0xEA, 0x53, 0x1B), rgb(0xFF, 0x6E, 0x00), rgb(0xFF, 0x00, 0x00), rgb(0xFF, 0x21, 0x00)]),
        12 => Some(seq![rgb(0xFF, 0x71, 0xCE), rgb(0xB9, 0x67, 0xFF), rgb(0x01, 0xCD, 0xFE), rgb(0x05, 0xFF, 0xA1), rgb(0xFF, 0xFB, 0x96), rgb(0xFF, 0x71, 0xCE)]),
        _ => None,
    }
}

pub fn preset_palette(preset: u8) -> (r: Option<Vec<SkydimoRgb>>)
    ensures
        r matches Some(v) ==> preset_palette_spec(preset) == Some(v@),
        r is None ==> preset_palette_spec(preset) is None,
{
    match preset {
        1 => Some(vec![SkydimoRgb { r: 0xFF, g: 0x00, b: 0x00 }, SkydimoRgb { r: 0xFF, g: 0x00, b: 0xE6 }, SkydimoRgb { r: 0x00, g: 0x00, b: 0xFF }, SkydimoRgb { r: 0x00, g: 0xB3, b: 0xFF }, SkydimoRgb { r: 0x00, g: 0xFF, b: 0x51 }, SkydimoRgb { r: 0xEA, g: 0xFF, b: 0x00 }, SkydimoRgb { r: 0xFF, g: 0xB3, b: 0x00 }, SkydimoRgb { r: 0xFF, g: 0x00, b: 0x00 }]),
        2 => Some(vec![SkydimoRgb { r: 0x14, g: 0xE8, b: 0x1E }, SkydimoRgb { r: 0x00, g: 0xEA, b: 0x8D }, SkydimoRgb { r: 0x01, g: 0x7E, b: 0xD5 }, SkydimoRgb { r: 0xB5, g: 0x3D, b: 0xFF }, SkydimoRgb { r: 0x8D, g: 0x00, b: 0xC4 }, SkydimoRgb { r: 0x14, g: 0xE8, b: 0x1E }]),
        3 => Some(vec![SkydimoRgb { r: 0x00, g: 0x00, b: 0x7F }, SkydimoRgb { r: 0x00, g: 0x00, b: 0xFF }, SkydimoRgb { r: 0x00, g: 0xFF, b: 0xFF }, SkydimoRgb { r: 0x00, g: 0xAA, b: 0xFF }, SkydimoRgb { r: 0x00, g: 0x00, b: 0x7F }]),
        4 => Some(vec![SkydimoRgb { r: 0xFE, g: 0x00, b: 0xC5 }, SkydimoRgb { r: 0x00, g: 0xC5, b: 0xFF }, SkydimoRgb { r: 0x00, g: 0xC5, b: 0xFF }, SkydimoRgb { r: 0xFE, g: 0x00, b: 0xC5 }]),
        5 => Some(vec![SkydimoRgb { r: 0xFE, g: 0xE0, b: 0x00 }, SkydimoRgb { r: 0xFE, g: 0x00, b: 0xFE }, SkydimoRgb { r: 0xFE, g: 0x00, b: 0xFE }, SkydimoRgb { r: 0xFE, g: 0xE0, b: 0x00 }]),
        6 => Some(vec![SkydimoRgb { r: 0xFF, g: 0x55, b: 0x00 }, SkydimoRgb { r: 0x00, g: 0x00, b: 0x00 }, SkydimoRgb { r: 0x00, g: 0x00, b: 0x00 }, SkydimoRgb { r: 0x00, g: 0x00, b: 0x00 }, SkydimoRgb { r: 0xFF, g: 0x55, b: 0x00 }]),
        7 => Some(vec![SkydimoRgb { r: 0xFF, g: 0x21, b: 0x00 }, SkydimoRgb { r: 0xAA, g: 0x00, b: 0xFF }, SkydimoRgb { r: 0xAA, g: 0x00, b: 0xFF }, SkydimoRgb { r: 0xFF, g: 0x21, b: 0x00 }, SkydimoRgb { r: 0xFF, g: 0x21, b: 0x00 }, SkydimoRgb { r: 0xFF, g: 0x21, b: 0x00 }]),
        8 => Some(vec![SkydimoRgb { r: 0x03, g: 0xFF, b: 0xFA }, SkydimoRgb { r: 0x55, g: 0x00, b: 0x7F }, SkydimoRgb { r: 0x55, g: 0x00, b: 0x7F }, SkydimoRgb { r: 0x03, g: 0xFF, b: 0xFA }]),
        9 => Some(vec![SkydimoRgb { r: 0xFF, g: 0x00, b: 0x00 }, SkydimoRgb { r: 0x00, g: 0x00, b: 0xFF }, SkydimoRgb { r: 0x00, g: 0x00, b: 0xFF }, SkydimoRgb { r: 0xFF, g: 0x00, b: 0x00 }, SkydimoRgb { r: 0xFF, g: 0x00, b: 0x00 }]),
        10 => Some(vec![SkydimoRgb { r: 0x00, g: 0xFF, b: 0x00 }, SkydimoRgb { r: 0x00, g: 0x32, b: 0xFF }, SkydimoRgb { r: 0x00, g: 0x32, b: 0xFF }, SkydimoRgb { r: 0x00, g: 0xFF, b: 0x00 }, SkydimoRgb { r: 0x00, g: 0xFF, b: 0x00 }]),
        11 => Some(vec![SkydimoRgb { r: 0xFF, g: 0x21, b: 0x00 }, SkydimoRgb { r: 0xAB, g: 0x00, b: 0x6D }, SkydimoRgb { r: 0xC0, g: 0x1C, b: 0x52 }, SkydimoRgb { r: 0xD5, g: 0x37, b: 0x37 }, SkydimoRgb { r: 0xEA, g: 0x53, b: 0x1B }, SkydimoRgb { r: 0xFF, g: 0x6E, b: 0x00 }, SkydimoRgb { r: 0xFF, g: 0x00, b: 0x00 }, SkydimoRgb { r: 0xFF, g: 0x21, b: 0x00 }]),
        12 => Some(vec![SkydimoRgb { r: 0xFF, g: 0x71, b: 0xCE }, SkydimoRgb { r: 0xB9, g: 0x67, b: 0xFF }, SkydimoRgb { r: 0x01, g: 0xCD, b: 0xFE }, SkydimoRgb { r: 0x05, g: 0xFF, b: 0xA1 }, SkydimoRgb { r: 0xFF, g: 0xFB, b: 0x96 }, SkydimoRgb { r: 0xFF, g: 0x71, b: 0xCE }]),
        _ => None,
    }
}

/// The colours of the array held by `key`, read strictly (see [`strict_colors`]).
pub open spec fn json_color_array_spec(s: Seq<u8>, key: Seq<u8>) -> Option<Seq<SkydimoRgb>> {
    match value_start_spec(s, key) {
        Some(p) => if p < s.len() && s[p] == 91 {
            strict_colors(s, p + 1)
        } else {
            None
        },
        None => None,
    }
}

pub fn json_color_array(bytes: &[u8], key: &[u8]) -> (r: Option<Vec<SkydimoRgb>>)
    ensures
        r matches Some(v) ==> json_color_array_spec(bytes@, key@) == Some(v@),
        r is None ==> json_color_array_spec(bytes@, key@) is None,
{
    let pos = match json_value_start(bytes, key) {
        Some(p) => p,
        None => return None,
    };
    if pos >= bytes.len() || bytes[pos] != 91 {
        return None;
    }
    collect_strict_colors(bytes, pos + 1)
}

/// Preset number of the user's own palette.
pub const CUSTOM_PRESET: u8 = 0;

/// Highest direction number (radial, inwards).
pub const RADIAL_IN: u8 = 3;

/// The palette choices of the effect: preset, direction and the user palette.
pub struct GradientChoice {
    pub preset: u8,
    pub direction: u8,
    pub custom_colors: Vec<SkydimoRgb>,
}

/// A user palette of fewer than two colours falls back to the default palette.
pub open spec fn custom_or_default(colors: Seq<SkydimoRgb>) -> Seq<SkydimoRgb> {
    if colors.len() < 2 {
        preset_palette_spec(1).unwrap()
    } else {
        colors
    }
}

/// The palette the gradient is built from: the preset's, or the user palette
/// when the preset number names none.
pub open spec fn active_palette_spec(preset: u8, custom: Seq<SkydimoRgb>) -> Seq<SkydimoRgb> {
    match preset_palette_spec(preset) {
        Some(p) => p,
        None => custom,
    }
}

/// The preset after a selection: a selection is taken when it is the custom
/// preset or names a palette.
pub open spec fn chosen_preset(current: u8, select: Option<u8>) -> u8 {
    match select {
        Some(p) => if p == CUSTOM_PRESET || preset_palette_spec(p) is Some {
            p
        } else {
            current
        },
        None => current,
    }
}

/// The direction after a selection: a selection is taken when it is at most
/// [`RADIAL_IN`].
pub open spec fn chosen_direction(current: u8, select: Option<u8>) -> u8 {
    match select {
        Some(d) => if d <= RADIAL_IN {
            d
        } else {
            current
        },
        None => current,
    }
}

/// A preset the effect can draw: the custom one or a named palette.
pub open spec fn known_preset(p: u8) -> bool {
    p == CUSTOM_PRESET || preset_palette_spec(p) is Some
}

/// Selections keep the preset drawable and the direction one of the four.
pub proof fn law_gradient_choice_stays_valid(
    preset: u8,
    direction: u8,
    preset_select: Option<u8>,
    direction_select: Option<u8>,
)
    requires
        known_preset(preset),
        direction <= RADIAL_IN,
    ensures
        known_preset(chosen_preset(preset, preset_select)),
        chosen_direction(direction, direction_select) <= RADIAL_IN,
{
}

impl GradientChoice {
    pub fn new() -> (g: Self)
        ensures
            g.preset == 1,
            g.direction == 0,
            g.custom_colors@ == preset_palette_spec(1).unwrap(),
    {
        let colors = match preset_palette(1) {
            Some(v) => v,
            None => Vec::new(),
        };
        GradientChoice { preset: 1, direction: 0, custom_colors: colors }
    }

    /// Applies the palette parameters of a text. `preset_select` and
    /// `direction_select` are the `preset` and `direction` numbers rounded to a
    /// byte (`None` when absent). A preset is taken when it is the custom
    /// preset or names a palette; a direction when it is at most
    /// [`RADIAL_IN`]; the `colors` array replaces the user palette. Returns
    /// whether the gradient must be rebuilt: the preset changed, or the user
    /// palette changed while it is the one in use.
    pub fn apply(&mut self, bytes: &[u8], preset_select: Option<u8>, direction_select: Option<u8>) -> (rebuild: bool)
        ensures
            final(self).preset == chosen_preset(old(self).preset, preset_select),
            final(self).custom_colors@ == (match json_color_array_spec(bytes@, seq![99u8, 111u8, 108u8, 111u8, 114u8, 115u8]) {
                Some(c) => custom_or_default(c),
                None => old(self).custom_colors@,
            }),
            final(self).direction == chosen_direction(old(self).direction, direction_select),
            rebuild == ((final(self).preset != old(self).preset) || (json_color_array_spec(
                bytes@,
                seq![99u8, 111u8, 108u8, 111u8, 114u8, 115u8],
            ) is Some && final(self).preset == CUSTOM_PRESET)),
    {
        let mut rebuild = false;
        if let Some(next) = preset_select {
            let known = match preset_palette(next) {
                Some(_) => true,
                None => false,
            };
            if (next == CUSTOM_PRESET || known) && self.preset != next {
                self.preset = next;
                rebuild = true;
            }
        }
        let key: [u8; 6] = [99, 111, 108, 111, 114, 115];
        assert(key@ == seq![99u8, 111u8, 108u8, 111u8, 114u8, 115u8]);
        if let Some(colors) = json_color_array(bytes, key.as_slice()) {
            self.custom_colors = if colors.len() < 2 {
                match preset_palette(1) {
                    Some(v) => v,
                    None => Vec::new(),
                }
            } else {
                colors
            };
            if self.preset == CUSTOM_PRESET {
                rebuild = true;
            }
        }
        if let Some(d) = direction_select {
            if d <= RADIAL_IN {
                self.direction = d;
            }
        }
        rebuild
    }

    /// The palette the gradient is built from.
    pub fn active_palette(&self) -> (p: Vec<SkydimoRgb>)
        ensures
            p@ == active_palette_spec(self.preset, self.custom_colors@),
    {
        match preset_palette(self.preset) {
            Some(p) => p,
            None => self.custom_colors.clone(),
        }
    }
}

} // verus!
