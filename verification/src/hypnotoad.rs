//! The palette parameter of the hypnotoad effect.
use vstd::prelude::*;

use crate::hex::{parse_compact_hex, parse_compact_hex_spec};
use crate::json_text::{json_value_after_key, next_quoted_item, quoted_items, value_after_key_spec};
use crate::rgb::{black, SkydimoRgb};

verus! {

/// Most palette colours the effect keeps.
pub const GRADIENT_SAMPLES: usize = 100;

/// The colours of the items that read as colours (whitespace and a leading `#`
/// ignored, three or six digits), in order; the others are dropped.
pub open spec fn readable_colors(items: Seq<Seq<u8>>) -> Seq<SkydimoRgb>
    decreases items.len(),
{
    if items.len() == 0 {
        Seq::empty()
    } else {
        let prev = readable_colors(items.drop_last());
        match parse_compact_hex_spec(items.last()) {
            Some(c) => prev.push(c),
            None => prev,
        }
    }
}

pub proof fn lemma_readable_colors_grow(items: Seq<Seq<u8>>, j: int, k: int)
    requires
        0 <= j <= k <= items.len(),
    ensures
        readable_colors(items.take(j)).len() <= readable_colors(items.take(k)).len(),
        readable_colors(items.take(k)).take(readable_colors(items.take(j)).len() as int)
            == readable_colors(items.take(j)),
    decreases k - j,
{
    if j < k {
        lemma_readable_colors_grow(items, j, k - 1);
        assert(items.take(k).drop_last() =~= items.take(k - 1));
        let a = readable_colors(items.take(j));
        let b = readable_colors(items.take(k - 1));
        let c = readable_colors(items.take(k));
        assert(c.take(a.len() as int) =~= b.take(a.len() as int));
    } else {
        let a = readable_colors(items.take(j));
        assert(a.take(a.len() as int) =~= a);
    }
}

/// The palette of `key`: `None` when the key is missing; a single black entry
/// when its value is not an array; otherwise the first
/// [`GRADIENT_SAMPLES`] readable colours of the array's strings.
pub open spec fn palette_spec(s: Seq<u8>, key: Seq<u8>) -> Option<Seq<SkydimoRgb>> {
    match value_after_key_spec(s, key) {
        Some(v) => if v.len() > 0 && v[0] == 91 {
            let all = readable_colors(quoted_items(v.drop_first()));
            Some(
                all.take(
                    if all.len() < GRADIENT_SAMPLES {
                        all.len() as int
                    } else {
                        GRADIENT_SAMPLES as int
                    },
                ),
            )
        } else {
            Some(seq![black()])
        },
        None => None,
    }
}

pub fn json_color_array(json: &[u8], key: &[u8]) -> (r: Option<Vec<SkydimoRgb>>)
    ensures
        r matches Some(v) ==> palette_spec(json@, key@) == Some(v@),
        r is None ==> palette_spec(json@, key@) is None,
{
    let v = match json_value_after_key(json, key) {
        Some(v) => v,
        None => return None,
    };
    if v.len() == 0 || v[0] != 91 {
        return Some(vec![SkydimoRgb { r: 0, g: 0, b: 0 }]);
    }
    let start = &v[1..v.len()];
    assert(start@ =~= v@.drop_first());
    let ghost items = quoted_items(start@);
    let mut colors: Vec<SkydimoRgb> = Vec::new();
    let mut cur = start;
    let ghost mut done: Seq<Seq<u8>> = Seq::empty();
    loop
        invariant_except_break
            colors@.len() < GRADIENT_SAMPLES,
        invariant
            items == quoted_items(start@),
            items == done + quoted_items(cur@),
            colors@ == readable_colors(done),
        ensures
            items == quoted_items(start@),
            items.take(done.len() as int) == done,
            done.len() <= items.len(),
            colors@ == readable_colors(done),
            colors@.len() <= GRADIENT_SAMPLES,
            colors@.len() < GRADIENT_SAMPLES ==> done == items,
        decreases cur@.len(),
    {
        match next_quoted_item(cur) {
            Some((item, after)) => {
                let parsed = parse_compact_hex(item);
                proof {
                    let nd = done.push(item@);
                    assert(nd.drop_last() =~= done);
                    assert(nd + quoted_items(after@) =~= done + (seq![item@] + quoted_items(
                        after@,
                    )));
                    done = nd;
                }
                cur = after;
                if let Some(c) = parsed {
                    colors.push(c);
                    if colors.len() >= GRADIENT_SAMPLES {
                        assert(items.take(done.len() as int) =~= done);
                        break;
                    }
                }
            },
            None => {
                assert(done + quoted_items(cur@) =~= done);
                assert(items.take(done.len() as int) =~= done);
                break;
            },
        }
    }
    proof {
        let all = readable_colors(items);
        assert(items.take(items.len() as int) =~= items);
        lemma_readable_colors_grow(items, done.len() as int, items.len() as int);
        if colors@.len() < GRADIENT_SAMPLES {
            assert(all.take(all.len() as int) =~= all);
        }
    }
    Some(colors)
}

/// The integer settings of the hypnotoad effect and its custom palette.
pub struct HypnotoadSettings {
    pub color_mode: u32,
    pub animation_speed: u32,
    pub color_rotation_speed: u32,
    pub animation_direction: u32,
    pub color_rotation_direction: u32,
    pub spacing: u32,
    pub thickness: u32,
    pub cx_shift: u32,
    pub cy_shift: u32,
    pub custom_colors: Vec<SkydimoRgb>,
}

impl HypnotoadSettings {
    pub fn new() -> (s: Self)
        ensures
            s.color_mode == 0 && s.animation_direction == 0 && s.color_rotation_direction == 0,
            s.animation_speed == 10 && s.color_rotation_speed == 10,
            s.spacing == 1 && s.thickness == 1,
            s.cx_shift == 50 && s.cy_shift == 50,
            s.custom_colors@ == seq![black()],
    {
        HypnotoadSettings {
            color_mode: 0,
            animation_speed: 10,
            color_rotation_speed: 10,
            animation_direction: 0,
            color_rotation_direction: 0,
            spacing: 1,
            thickness: 1,
            cx_shift: 50,
            cy_shift: 50,
            custom_colors: vec![SkydimoRgb { r: 0, g: 0, b: 0 }],
        }
    }
}

/// The numeric parameters of a text, each truncated towards zero to an
/// integer (`None` where absent).
pub struct HypnotoadNumbers {
    pub color_mode: Option<i64>,
    pub animation_speed: Option<i64>,
    pub animation_direction: Option<i64>,
    pub color_rotation_speed: Option<i64>,
    pub color_rotation_direction: Option<i64>,
    pub spacing: Option<i64>,
    pub thickness: Option<i64>,
    pub cx: Option<i64>,
    pub cy: Option<i64>,
}

pub open spec fn clamp_i64(x: i64, lo: int, hi: int) -> u32 {
    (if x < lo {
        lo
    } else if x > hi {
        hi
    } else {
        x as int
    }) as u32
}

/// A choice between two values (0 or 1), read as a `u32` (wrapping); any other
/// value keeps the current one.
pub open spec fn chosen_flag(current: u32, n: Option<i64>) -> u32 {
    match n {
        Some(x) => if (x as u32) == 0 || (x as u32) == 1 {
            x as u32
        } else {
            current
        },
        None => current,
    }
}

pub open spec fn chosen_clamped(current: u32, n: Option<i64>, lo: int, hi: int) -> u32 {
    match n {
        Some(x) => clamp_i64(x, lo, hi),
        None => current,
    }
}

pub open spec fn colors_key() -> Seq<u8> {
    seq![99u8, 111u8, 108u8, 111u8, 114u8, 115u8]
}

/// The custom palette a text sets: its readable colours, or one black entry
/// when there are none.
pub open spec fn palette_or_black(p: Seq<SkydimoRgb>) -> Seq<SkydimoRgb> {
    if p.len() == 0 {
        seq![black()]
    } else {
        p
    }
}

fn clamp_to(x: i64, lo: i64, hi: i64) -> (r: u32)
    requires
        0 <= lo <= hi <= 100,
    ensures
        r == clamp_i64(x, lo as int, hi as int),
{
    if x < lo {
        lo as u32
    } else if x > hi {
        hi as u32
    } else {
        x as u32
    }
}

/// Applies a parameter text to the settings. The colour mode and the two
/// directions change only to 0 or 1; the speeds are kept to `10..=99`,
/// spacing and thickness to `1..=10`, and the centre shifts to `0..=100`.
/// The `colors` array replaces the palette (an empty one becomes a single
/// black entry). Returns whether the gradient must be rebuilt (colours were
/// given) and whether the cached geometry is stale (a centre shift changed).
pub fn apply_hypnotoad_params(s: &mut HypnotoadSettings, json: &[u8], n: HypnotoadNumbers) -> (r: (
    bool,
    bool,
))
    ensures
        final(s).color_mode == chosen_flag(old(s).color_mode, n.color_mode),
        final(s).animation_direction == chosen_flag(
            old(s).animation_direction,
            n.animation_direction,
        ),
        final(s).color_rotation_direction == chosen_flag(
            old(s).color_rotation_direction,
            n.color_rotation_direction,
        ),
        final(s).animation_speed == chosen_clamped(old(s).animation_speed, n.animation_speed, 10, 99),
        final(s).color_rotation_speed == chosen_clamped(
            old(s).color_rotation_speed,
            n.color_rotation_speed,
            10,
            99,
        ),
        final(s).spacing == chosen_clamped(old(s).spacing, n.spacing, 1, 10),
        final(s).thickness == chosen_clamped(old(s).thickness, n.thickness, 1, 10),
        final(s).cx_shift == chosen_clamped(old(s).cx_shift, n.cx, 0, 100),
        final(s).cy_shift == chosen_clamped(old(s).cy_shift, n.cy, 0, 100),
        final(s).custom_colors@ == (match palette_spec(json@, colors_key()) {
            Some(p) => palette_or_black(p),
            None => old(s).custom_colors@,
        }),
        r.0 == palette_spec(json@, colors_key()) is Some,
        r.1 == (final(s).cx_shift != old(s).cx_shift || final(s).cy_shift != old(s).cy_shift),
{
    if let Some(x) = n.color_mode {
        let v = x as u32;
        if v == 0 || v == 1 {
            s.color_mode = v;
        }
    }
    let key: [u8; 6] = [99, 111, 108, 111, 114, 115];
    assert(key@ == colors_key());
    let mut rebuild = false;
    if let Some(colors) = json_color_array(json, key.as_slice()) {
        s.custom_colors = if colors.len() == 0 {
            vec![SkydimoRgb { r: 0, g: 0, b: 0 }]
        } else {
            colors
        };
        rebuild = true;
    }
    if let Some(x) = n.animation_speed {
        s.animation_speed = clamp_to(x, 10, 99);
    }
    if let Some(x) = n.animation_direction {
        let v = x as u32;
        if v == 0 || v == 1 {
            s.animation_direction = v;
        }
    }
    if let Some(x) = n.color_rotation_speed {
        s.color_rotation_speed = clamp_to(x, 10, 99);
    }
    if let Some(x) = n.color_rotation_direction {
        let v = x as u32;
        if v == 0 || v == 1 {
            s.color_rotation_direction = v;
        }
    }
    if let Some(x) = n.spacing {
        s.spacing = clamp_to(x, 1, 10);
    }
    if let Some(x) = n.thickness {
        s.thickness = clamp_to(x, 1, 10);
    }
    let mut invalidate = false;
    if let Some(x) = n.cx {
        let next = clamp_to(x, 0, 100);
        if s.cx_shift != next {
            s.cx_shift = next;
            invalidate = true;
        }
    }
    if let Some(x) = n.cy {
        let next = clamp_to(x, 0, 100);
        if s.cy_shift != next {
            s.cy_shift = next;
            invalidate = true;
        }
    }
    (rebuild, invalidate)
}

} // verus!
