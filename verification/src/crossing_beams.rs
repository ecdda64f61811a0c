//! Colour helpers of the crossing beams: an integer screen blend that rounds
//! the darkening product up, six-digit colours with a red fallback, and the
//! two-colour palette parameter.
use vstd::prelude::*;

use crate::hex::{parse_six_trimmed_hex, parse_six_trimmed_hex_spec};
use crate::json_text::{json_value_after_key, next_quoted_item, quoted_items, value_after_key_spec};
use crate::rgb::{rgb, SkydimoRgb};
use crate::text::{trim_unicode_start, trim_unicode_start_spec};

verus! {

/// `255 - ceil((255 - a) * (255 - b) / 255)`.
pub open spec fn beam_screen_value(a: u8, b: u8) -> int {
    255 - ((255 - a) * (255 - b) + 254) / 255
}

pub proof fn lemma_beam_screen_bounds(a: u8, b: u8)
    ensures
        a <= beam_screen_value(a, b) <= 255,
        b <= beam_screen_value(a, b),
{
    assert((255 - a) * (255 - b) <= (255 - a) * 255) by (nonlinear_arith)
        requires
            a <= 255,
            b <= 255,
    ;
    assert((255 - a) * (255 - b) <= 255 * (255 - b)) by (nonlinear_arith)
        requires
            a <= 255,
            b <= 255,
    ;
    assert((255 - a) * (255 - b) >= 0) by (nonlinear_arith)
        requires
            a <= 255,
            b <= 255,
    ;
}

pub fn screen_blend_channel(a: u8, b: u8) -> (r: u8)
    ensures
        r == beam_screen_value(a, b),
{
    proof {
        lemma_beam_screen_bounds(a, b);
    }
    let da = 255u32 - a as u32;
    let db = 255u32 - b as u32;
    assert(da * db <= 65025) by (nonlinear_arith)
        requires
            da <= 255,
            db <= 255,
    ;
    let product = da * db;
    (255u32 - (product + 254) / 255) as u8
}

pub open spec fn beam_screen(a: SkydimoRgb, b: SkydimoRgb) -> SkydimoRgb {
    rgb(
        beam_screen_value(a.r, b.r) as u8,
        beam_screen_value(a.g, b.g) as u8,
        beam_screen_value(a.b, b.b) as u8,
    )
}

pub fn screen_blend_rgb(a: SkydimoRgb, b: SkydimoRgb) -> (r: SkydimoRgb)
    ensures
        r == beam_screen(a, b),
{
    SkydimoRgb {
        r: screen_blend_channel(a.r, b.r),
        g: screen_blend_channel(a.g, b.g),
        b: screen_blend_channel(a.b, b.b),
    }
}

/// Six-digit colour (trimmed, one optional `#`), red for anything else.
pub open spec fn six_or_red(raw: Seq<u8>) -> SkydimoRgb {
    match parse_six_trimmed_hex_spec(raw) {
        Some(c) => c,
        None => rgb(255, 0, 0),
    }
}

pub fn hex_to_rgb(raw: &[u8]) -> (c: SkydimoRgb)
    ensures
        c == six_or_red(raw@),
{
    match parse_six_trimmed_hex(raw) {
        Some(c) => c,
        None => SkydimoRgb { r: 255, g: 0, b: 0 },
    }
}

/// The string items of the array value of `key`; `None` when the key is
/// missing or its value does not start with `[`.
pub open spec fn array_items(s: Seq<u8>, key: Seq<u8>) -> Option<Seq<Seq<u8>>> {
    match value_after_key_spec(s, key) {
        Some(v) => {
            let t = trim_unicode_start_spec(v);
            if t.len() > 0 && t[0] == 91 {
                Some(quoted_items(t.drop_first()))
            } else {
                None
            }
        },
        None => None,
    }
}

/// The two beam colours: present when the array holds at least two strings.
pub open spec fn color_pair_spec(s: Seq<u8>, key: Seq<u8>) -> Option<Seq<SkydimoRgb>> {
    match array_items(s, key) {
        Some(items) => if items.len() >= 2 {
            Some(seq![six_or_red(items[0]), six_or_red(items[1])])
        } else {
            None
        },
        None => None,
    }
}

pub fn json_color_array2(json: &[u8], key: &[u8]) -> (r: Option<[SkydimoRgb; 2]>)
    ensures
        r matches Some(a) ==> color_pair_spec(json@, key@) == Some(a@),
        r is None ==> color_pair_spec(json@, key@) is None,
{
    let v = match json_value_after_key(json, key) {
        Some(v) => v,
        None => return None,
    };
    let t = trim_unicode_start(v);
    if t.len() == 0 || t[0] != 91 {
        return None;
    }
    let start = &t[1..t.len()];
    assert(start@ =~= t@.drop_first());
    let ghost all = quoted_items(start@);
    let mut colors = [SkydimoRgb { r: 255, g: 0, b: 0 }, SkydimoRgb { r: 255, g: 0, b: 0 }];
    let mut count: usize = 0;
    let mut cur = start;
    let start_len = start.len();
    let ghost mut done: Seq<Seq<u8>> = Seq::empty();
    loop
        invariant
            all == quoted_items(start@),
            all == done + quoted_items(cur@),
            count == done.len(),
            count + cur@.len() <= start@.len(),
            start@.len() == start_len,
            colors@.len() == 2,
            forall|i: int| 0 <= i < 2 && i < count ==> colors@[i] == six_or_red(#[trigger] done[i]),
        ensures
            all == done,
            count == done.len(),
            colors@.len() == 2,
            forall|i: int| 0 <= i < 2 && i < count ==> colors@[i] == six_or_red(#[trigger] done[i]),
        decreases cur@.len(),
    {
        match next_quoted_item(cur) {
            Some((item, after)) => {
                if count < 2 {
                    colors[count] = hex_to_rgb(item);
                }
                proof {
                    assert(done.push(item@) + quoted_items(after@) =~= done + (seq![item@]
                        + quoted_items(after@)));
                    done = done.push(item@);
                }
                count += 1;
                cur = after;
            },
            None => {
                assert(done + quoted_items(cur@) =~= done);
                break;
            },
        }
    }
    if count >= 2 {
        assert(colors@ =~= seq![six_or_red(all[0]), six_or_red(all[1])]);
        Some(colors)
    } else {
        None
    }
}

} // verus!
