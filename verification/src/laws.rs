//! Properties that hold across the library's operations.
use vstd::prelude::*;

use crate::audio_art::packed;
use crate::audio_party::hex_to_rgb_spec;
use crate::audio_sync::{color_at_spec, pushed, MAX_HISTORY};
use crate::audio_visualizer::{clamp_byte, hsv255, unpacked};
use crate::color_wheel::{add_wrapped_spec, subtract_wrapped_spec, turned_index, HUE_TABLE_SIZE};
use crate::crossing_beams::{beam_screen_value, lemma_beam_screen_bounds};
use crate::hex::{color_from_hex_digits, hex_digit, strip_all_hashes};
use crate::json_fields::{bool_field_spec, is_word_byte, value_slice_spec, word_end_from};
use crate::json_text::{after_colon_spec, value_after_key_spec};
use crate::text::{find_byte_from, find_quoted_key_from, quoted_key_at, uni_ws_prefix_len, uni_ws_suffix_len};
use crate::text::{trim_unicode_end_spec, trim_unicode_spec, trim_unicode_start_spec};
use crate::rgb::{lemma_screen_channel_bounds, rgb, screen_channel_value, SkydimoRgb};
use crate::rng::{at_least_one, nonzero_seed, xorshift64_step};

verus! {

/// A three-digit colour is shorthand for the six-digit colour that doubles
/// each digit: `#abc` reads as `#aabbcc`.
pub proof fn law_short_hex_doubles_digits(a: u8, b: u8, c: u8)
    ensures
        color_from_hex_digits(seq![a, b, c]) == color_from_hex_digits(seq![a, a, b, b, c, c]),
{
    if hex_digit(a) is Some && hex_digit(b) is Some && hex_digit(c) is Some {
        let x = hex_digit(a).unwrap();
        let y = hex_digit(b).unwrap();
        let z = hex_digit(c).unwrap();
        assert(x * 17 == x * 16 + x);
        assert(y * 17 == y * 16 + y);
        assert(z * 17 == z * 16 + z);
    }
}

/// The rounded integer screen blend is symmetric, leaves a channel unchanged
/// over black, and never darkens either input.
pub proof fn law_screen_blend_channel(a: u8, b: u8)
    ensures
        screen_channel_value(a, b) == screen_channel_value(b, a),
        screen_channel_value(a, 0) == a,
        screen_channel_value(a, b) >= a,
        screen_channel_value(a, b) >= b,
        screen_channel_value(a, b) <= 255,
{
    lemma_screen_channel_bounds(a, b);
    assert(a * b == b * a) by (nonlinear_arith);
}

/// The beams' screen blend (darkening product rounded up) is symmetric, leaves
/// a channel unchanged over black, and never darkens either input.
pub proof fn law_beam_screen_channel(a: u8, b: u8)
    ensures
        beam_screen_value(a, b) == beam_screen_value(b, a),
        beam_screen_value(a, 0) == a,
        a <= beam_screen_value(a, b) <= 255,
        b <= beam_screen_value(a, b),
{
    lemma_beam_screen_bounds(a, b);
    assert((255 - a) * (255 - b) == (255 - b) * (255 - a)) by (nonlinear_arith);
    assert(((255 - a) * 255 + 254) / 255 == 255 - a) by (nonlinear_arith)
        requires
            a <= 255,
    ;
}

/// A nonzero xorshift64 state never steps to zero, so the generators' states
/// stay nonzero from any seed on.
pub proof fn law_xorshift_state_stays_nonzero(seed: u64, state: u64)
    requires
        state != 0,
    ensures
        xorshift64_step(state) != 0,
        nonzero_seed(seed) != 0,
        at_least_one(seed) != 0,
        at_least_one(xorshift64_step(state)) == xorshift64_step(state),
{
    assert(state != 0 ==> (state ^ (state << 13u64)) ^ ((state ^ (state << 13u64)) >> 7u64) ^ (((
    state ^ (state << 13u64)) ^ ((state ^ (state << 13u64)) >> 7u64)) << 17u64) != 0)
        by (bit_vector);
}

/// The newest colour of a history is the one just recorded, and every older
/// colour moves one place back (the oldest drops out of a full history).
pub proof fn law_history_push_then_read(h: Seq<SkydimoRgb>, c: SkydimoRgb, offset: int)
    requires
        h.len() <= MAX_HISTORY,
        0 <= offset,
    ensures
        color_at_spec(pushed(h, c), 0) == c,
        offset < h.len() && offset + 1 < MAX_HISTORY ==> color_at_spec(pushed(h, c), offset + 1)
            == color_at_spec(h, offset),
        pushed(h, c).len() == if h.len() < MAX_HISTORY {
            h.len() + 1int
        } else {
            MAX_HISTORY as int
        },
{
}

/// Turning the wheel one way and back by the same shift returns to the start,
/// and both turns stay inside the hue table.
pub proof fn law_wheel_turn_round_trip(base: int, shift: int)
    requires
        0 <= base < HUE_TABLE_SIZE,
        0 <= shift <= HUE_TABLE_SIZE,
    ensures
        subtract_wrapped_spec(add_wrapped_spec(base, shift), shift) == base,
        add_wrapped_spec(subtract_wrapped_spec(base, shift), shift) == base,
        0 <= add_wrapped_spec(base, shift) < HUE_TABLE_SIZE,
        0 <= subtract_wrapped_spec(base, shift) < HUE_TABLE_SIZE,
{
}

/// Hues are read around the circle: a hue and the hue one turn further give
/// the same colour.
pub proof fn law_hue_wraps_around(hue: int, saturation: int, value: int)
    ensures
        hsv255(hue + 360, saturation, value) == hsv255(hue, saturation, value),
{
    assert((hue + 360) % 360 == hue % 360) by (nonlinear_arith);
}

/// Unpacking the packed `0xRRGGBB` form of a colour gives the colour back.
pub proof fn law_pack_unpack_round_trip(c: SkydimoRgb)
    ensures
        packed(c) < 0x1000000,
        unpacked(packed(c) as u32) == c,
{
    let p = packed(c);
    assert(p / 65536 == c.r as int);
    assert((p / 256) % 256 == c.g as int);
    assert(p % 256 == c.b as int);
    assert(unpacked(p as u32) == rgb(c.r, c.g, c.b));
}

/// Lower-case hex digit of a value below 16.
pub open spec fn hex_lower(n: int) -> u8 {
    if n < 10 {
        (48 + n) as u8
    } else {
        (87 + n) as u8
    }
}

/// Upper-case hex digit of a value below 16.
pub open spec fn hex_upper(n: int) -> u8 {
    if n < 10 {
        (48 + n) as u8
    } else {
        (55 + n) as u8
    }
}

/// `#rrggbb` in lower case.
pub open spec fn hex_text_lower(c: SkydimoRgb) -> Seq<u8> {
    seq![
        35u8,
        hex_lower(c.r as int / 16),
        hex_lower(c.r as int % 16),
        hex_lower(c.g as int / 16),
        hex_lower(c.g as int % 16),
        hex_lower(c.b as int / 16),
        hex_lower(c.b as int % 16),
    ]
}

/// `RRGGBB` in upper case, without `#`.
pub open spec fn hex_text_upper(c: SkydimoRgb) -> Seq<u8> {
    seq![
        hex_upper(c.r as int / 16),
        hex_upper(c.r as int % 16),
        hex_upper(c.g as int / 16),
        hex_upper(c.g as int % 16),
        hex_upper(c.b as int / 16),
        hex_upper(c.b as int % 16),
    ]
}

proof fn lemma_hex_digits(n: int)
    requires
        0 <= n < 16,
    ensures
        hex_digit(hex_lower(n)) == Some(n as u8),
        hex_digit(hex_upper(n)) == Some(n as u8),
        hex_lower(n) != 35 && hex_upper(n) != 35,
        48 <= hex_lower(n) < 128 && 48 <= hex_upper(n) < 128,
{
}

/// A colour written as six hex digits, in lower case after `#` or in upper
/// case without it, reads back as the same colour.
pub proof fn law_hex_text_round_trip(c: SkydimoRgb)
    ensures
        hex_to_rgb_spec(hex_text_lower(c)) == c,
        hex_to_rgb_spec(hex_text_upper(c)) == c,
{
    lemma_hex_digits(c.r as int / 16);
    lemma_hex_digits(c.r as int % 16);
    lemma_hex_digits(c.g as int / 16);
    lemma_hex_digits(c.g as int % 16);
    lemma_hex_digits(c.b as int / 16);
    lemma_hex_digits(c.b as int % 16);
    let lo = hex_text_lower(c);
    let up = hex_text_upper(c);
    assert(trim_unicode_start_spec(lo) == lo);
    assert(trim_unicode_end_spec(lo) == lo);
    assert(trim_unicode_spec(lo) == lo);
    assert(trim_unicode_start_spec(up) == up);
    assert(trim_unicode_end_spec(up) == up);
    assert(trim_unicode_spec(up) == up);
    assert(lo.drop_first() =~= seq![lo[1], lo[2], lo[3], lo[4], lo[5], lo[6]]);
    assert(strip_all_hashes(lo.drop_first()) == lo.drop_first());
    assert(strip_all_hashes(lo) == lo.drop_first());
    assert(strip_all_hashes(up) == up);
    assert(c.r == (c.r as int / 16) * 16 + c.r % 16);
    assert(c.g == (c.g as int / 16) * 16 + c.g % 16);
    assert(c.b == (c.b as int / 16) * 16 + c.b % 16);
}

/// The brightest channel of an integer HSV colour is its value and the
/// darkest is `value * (255 - saturation) / 255` (the value itself when
/// unsaturated), saturation and value taken in `0..=255`.
pub proof fn law_hsv_extremes(hue: int, saturation: int, value: int)
    ensures
        ({
            let c = hsv255(hue, saturation, value);
            let s = clamp_byte(saturation);
            let v = clamp_byte(value);
            let lo = if s == 0 {
                v
            } else {
                v * (255 - s) / 255
            };
            &&& v <= 255
            &&& lo <= c.r <= v && lo <= c.g <= v && lo <= c.b <= v
            &&& (c.r == v || c.g == v || c.b == v)
            &&& (c.r == lo || c.g == lo || c.b == lo)
        }),
{
    let h = hue % 360;
    let s = clamp_byte(saturation);
    let v = clamp_byte(value);
    if s != 0 {
        let region = h / 60;
        let rem = (h - region * 60) * 6;
        assert(0 <= region <= 5);
        assert(0 <= rem <= 354);
        let p = (v * (255 - s)) / 255;
        let q = (v * (255 - (s * rem) / 360)) / 255;
        let t = (v * (255 - (s * (360 - rem)) / 360)) / 255;
        assert(0 <= (s * rem) / 360 <= s) by (nonlinear_arith)
            requires
                0 <= s <= 255,
                0 <= rem <= 354,
        ;
        assert(0 <= (s * (360 - rem)) / 360 <= s) by (nonlinear_arith)
            requires
                0 <= s <= 255,
                0 <= rem <= 354,
        ;
        assert(forall|a: int, b: int|
            0 <= a <= b <= 255 && 0 <= v <= 255 ==> #[trigger] (v * a) / 255 <= #[trigger] (v * b)
                / 255 && (v * b) / 255 <= v && 0 <= (v * a) / 255) by {
            assert forall|a: int, b: int| 0 <= a <= b <= 255 && 0 <= v <= 255 implies #[trigger] (
            v * a) / 255 <= #[trigger] (v * b) / 255 && (v * b) / 255 <= v && 0 <= (v * a) / 255 by {
                assert(v * a <= v * b) by (nonlinear_arith)
                    requires
                        0 <= a <= b,
                        0 <= v,
                ;
                assert(v * b <= v * 255) by (nonlinear_arith)
                    requires
                        b <= 255,
                        0 <= v,
                ;
                assert(0 <= v * a) by (nonlinear_arith)
                    requires
                        0 <= a,
                        0 <= v,
                ;
                assert((v * 255) / 255 == v);
                vstd::arithmetic::div_mod::lemma_div_is_ordered(v * a, v * b, 255);
                vstd::arithmetic::div_mod::lemma_div_is_ordered(v * b, v * 255, 255);
            }
        }
        let a1 = 255 - s;
        let a2 = 255 - (s * rem) / 360;
        let a3 = 255 - (s * (360 - rem)) / 360;
        assert(p == (v * a1) / 255);
        assert(q == (v * a2) / 255);
        assert(t == (v * a3) / 255);
        assert((v * a1) / 255 <= (v * a2) / 255);
        assert((v * a1) / 255 <= (v * a3) / 255);
        assert((v * a2) / 255 <= (v * 255) / 255);
        assert((v * a3) / 255 <= (v * 255) / 255);
        assert((v * 255) / 255 == v);
    }
}


/// `v * a / 255` grows with `a` and stays within `0..=v`.
proof fn lemma_scaled_ordered(v: int, a: int, b: int)
    requires
        0 <= v <= 255,
        0 <= a <= b <= 255,
    ensures
        0 <= (v * a) / 255 <= (v * b) / 255 <= v,
{
    assert(0 <= v * a <= v * b <= v * 255) by (nonlinear_arith)
        requires
            0 <= v,
            0 <= a <= b <= 255,
    ;
    vstd::arithmetic::div_mod::lemma_div_is_ordered(v * a, v * b, 255);
    vstd::arithmetic::div_mod::lemma_div_is_ordered(v * b, v * 255, 255);
    assert((v * 255) / 255 == v);
}

/// `s * r / 360` grows with `r` and stays within `0..=s` for `r` up to 360.
proof fn lemma_share_ordered(s: int, r1: int, r2: int)
    requires
        0 <= s <= 255,
        0 <= r1 <= r2 <= 360,
    ensures
        0 <= (s * r1) / 360 <= (s * r2) / 360 <= s,
{
    assert(0 <= s * r1 <= s * r2 <= s * 360) by (nonlinear_arith)
        requires
            0 <= s,
            0 <= r1 <= r2 <= 360,
    ;
    vstd::arithmetic::div_mod::lemma_div_is_ordered(s * r1, s * r2, 360);
    vstd::arithmetic::div_mod::lemma_div_is_ordered(s * r2, s * 360, 360);
    assert((s * 360) / 360 == s);
}

/// Darkest channel of an integer HSV colour: `value * (255 - saturation) / 255`,
/// or the value itself when unsaturated (both taken in `0..=255`).
pub open spec fn hsv_floor(saturation: int, value: int) -> int {
    let s = clamp_byte(saturation);
    let v = clamp_byte(value);
    if s == 0 {
        v
    } else {
        v * (255 - s) / 255
    }
}

/// The six sector starts of the hue circle are the primary and secondary
/// colours: red at 0, yellow at 60, green at 120, cyan at 180, blue at 240 and
/// magenta at 300, each lit channel at the value and each other channel at the
/// darkest level.
pub proof fn law_hsv_sector_starts(saturation: int, value: int)
    ensures
        ({
            let v = clamp_byte(value) as u8;
            let lo = hsv_floor(saturation, value) as u8;
            &&& hsv255(0, saturation, value) == rgb(v, lo, lo)
            &&& hsv255(60, saturation, value) == rgb(v, v, lo)
            &&& hsv255(120, saturation, value) == rgb(lo, v, lo)
            &&& hsv255(180, saturation, value) == rgb(lo, v, v)
            &&& hsv255(240, saturation, value) == rgb(lo, lo, v)
            &&& hsv255(300, saturation, value) == rgb(v, lo, v)
        }),
{
    let s = clamp_byte(saturation);
    let v = clamp_byte(value);
    if s != 0 {
        lemma_scaled_ordered(v, 255 - s, 255);
        lemma_share_ordered(s, 0, 360);
        assert((s * 0) / 360 == 0);
        assert((v * 255) / 255 == v);
    }
}

/// Halfway through each sector the moving channel stands at
/// `value * (255 - saturation / 2) / 255`, halfway between the value and the
/// darkest level: orange at 30, chartreuse at 90, spring green at 150, azure at
/// 210, violet at 270 and rose at 330.
pub proof fn law_hsv_sector_midpoints(saturation: int, value: int)
    ensures
        ({
            let v = clamp_byte(value) as u8;
            let lo = hsv_floor(saturation, value) as u8;
            let mid = (clamp_byte(value) * (255 - clamp_byte(saturation) / 2) / 255) as u8;
            &&& hsv255(30, saturation, value) == rgb(v, mid, lo)
            &&& hsv255(90, saturation, value) == rgb(mid, v, lo)
            &&& hsv255(150, saturation, value) == rgb(lo, v, mid)
            &&& hsv255(210, saturation, value) == rgb(lo, mid, v)
            &&& hsv255(270, saturation, value) == rgb(mid, lo, v)
            &&& hsv255(330, saturation, value) == rgb(v, lo, mid)
        }),
{
    let s = clamp_byte(saturation);
    let v = clamp_byte(value);
    lemma_scaled_ordered(v, 255 - s, 255);
    lemma_scaled_ordered(v, 255 - s / 2, 255);
    assert((s * 180) / 360 == s / 2);
    assert((s * (360 - 180)) / 360 == s / 2);
    assert((v * 255) / 255 == v);
}

/// Within one sixty-degree sector two channels hold still (one at the value,
/// one at the darkest level) and the third moves one way only: green rises
/// from red to yellow, red falls from yellow to green, blue rises from green
/// to cyan, green falls from cyan to blue, red rises from blue to magenta and
/// blue falls from magenta back to red.
#[verifier::rlimit(40)]
pub proof fn law_hsv_sector_ramps(h1: int, h2: int, saturation: int, value: int)
    requires
        0 <= h1 <= h2 < 360,
        h1 / 60 == h2 / 60,
    ensures
        ({
            let c1 = hsv255(h1, saturation, value);
            let c2 = hsv255(h2, saturation, value);
            let v = clamp_byte(value);
            let lo = hsv_floor(saturation, value);
            &&& h1 < 60 ==> c1.r == v && c2.r == v && c1.b == lo && c2.b == lo && c1.g <= c2.g
            &&& 60 <= h1 < 120 ==> c1.g == v && c2.g == v && c1.b == lo && c2.b == lo && c1.r
                >= c2.r
            &&& 120 <= h1 < 180 ==> c1.r == lo && c2.r == lo && c1.g == v && c2.g == v && c1.b
                <= c2.b
            &&& 180 <= h1 < 240 ==> c1.r == lo && c2.r == lo && c1.b == v && c2.b == v && c1.g
                >= c2.g
            &&& 240 <= h1 < 300 ==> c1.g == lo && c2.g == lo && c1.b == v && c2.b == v && c1.r
                <= c2.r
            &&& 300 <= h1 ==> c1.g == lo && c2.g == lo && c1.r == v && c2.r == v && c1.b >= c2.b
        }),
{
    let s = clamp_byte(saturation);
    let v = clamp_byte(value);
    assert(h1 % 360 == h1 && h2 % 360 == h2);
    if s != 0 {
        let k = h1 / 60;
        let r1 = (h1 - k * 60) * 6;
        let r2 = (h2 - k * 60) * 6;
        assert(0 <= k <= 5);
        assert(0 <= r1 <= r2 <= 354);
        lemma_share_ordered(s, r1, r2);
        lemma_share_ordered(s, 360 - r2, 360 - r1);
        let q1 = 255 - (s * r1) / 360;
        let q2 = 255 - (s * r2) / 360;
        let t1 = 255 - (s * (360 - r1)) / 360;
        let t2 = 255 - (s * (360 - r2)) / 360;
        lemma_scaled_ordered(v, q2, q1);
        lemma_scaled_ordered(v, t1, t2);
        lemma_scaled_ordered(v, 255 - s, 255);
        lemma_scaled_ordered(v, q1, 255);
        lemma_scaled_ordered(v, t2, 255);
    }
}

/// A counter-clockwise turn adds the shift around the hue table and a
/// clockwise turn subtracts it, so for a shift short of half the table the
/// two directions land on different entries.
pub proof fn law_wheel_directions(base: int, shift: int)
    requires
        0 <= base < HUE_TABLE_SIZE,
        0 <= shift <= HUE_TABLE_SIZE,
    ensures
        turned_index(base, shift, false) == (base + shift) % (HUE_TABLE_SIZE as int),
        turned_index(base, shift, true) == (base - shift) % (HUE_TABLE_SIZE as int),
        0 < shift < HUE_TABLE_SIZE / 2 ==> turned_index(base, shift, true) != turned_index(
            base,
            shift,
            false,
        ),
{
    let n = HUE_TABLE_SIZE as int;
    if base + shift >= n {
        vstd::arithmetic::div_mod::lemma_fundamental_div_mod_converse(base + shift, n, 1, base + shift - n);
    } else {
        vstd::arithmetic::div_mod::lemma_fundamental_div_mod_converse(base + shift, n, 0, base + shift);
    }
    if base >= shift {
        vstd::arithmetic::div_mod::lemma_fundamental_div_mod_converse(base - shift, n, 0, base - shift);
    } else {
        vstd::arithmetic::div_mod::lemma_fundamental_div_mod_converse(base - shift, n, -1, base - shift + n);
    }
}

/// The blended channel is `a + b - a * b / 255` rounded to the nearest
/// integer: 255 times it lies within 127 of `(a + b) * 255 - a * b`.
pub proof fn law_screen_blend_rounds(a: u8, b: u8)
    ensures
        -127 <= 255 * screen_channel_value(a, b) - ((a + b) * 255 - a * b) <= 127,
{
    let x = (a + b) * 255 - a * b;
    let c = screen_channel_value(a, b);
    vstd::arithmetic::div_mod::lemma_fundamental_div_mod(x + 127, 255);
    assert(0 <= (x + 127) % 255 < 255);
}


/// `n` spaces.
pub open spec fn spaces(n: nat) -> Seq<u8> {
    Seq::new(n, |i: int| 32u8)
}

/// The parameter text `{"key":value}` with `pad` spaces before and after the
/// colon and after the value.
pub open spec fn single_field_text(key: Seq<u8>, pad: nat, value: Seq<u8>) -> Seq<u8> {
    seq![123u8, 34u8] + key + seq![34u8] + spaces(pad) + seq![58u8] + spaces(pad) + value + spaces(
        pad,
    ) + seq![125u8]
}

/// A run of word bytes ends where the first other byte stands.
proof fn lemma_word_end_of_run(t: Seq<u8>, i: int, end: int)
    requires
        0 <= i <= end < t.len(),
        forall|j: int| i <= j < end ==> is_word_byte(#[trigger] t[j]),
        !is_word_byte(t[end]),
    ensures
        word_end_from(t, i) == end,
    decreases end - i,
{
    if i < end {
        lemma_word_end_of_run(t, i + 1, end);
    }
}

/// The first `b` at or after `pos` is the one at `at` when none stands between.
proof fn lemma_find_byte_at(s: Seq<u8>, b: u8, pos: int, at: int)
    requires
        0 <= pos <= at < s.len(),
        s[at] == b,
        forall|j: int| pos <= j < at ==> #[trigger] s[j] != b,
    ensures
        find_byte_from(s, b, pos) == Some(at),
    decreases at - pos,
{
    if pos < at {
        lemma_find_byte_at(s, b, pos + 1, at);
    }
}

/// Trimming the start drops leading spaces and stops at the first other byte.
proof fn lemma_trim_start_spaces(n: nat, t: Seq<u8>)
    requires
        uni_ws_prefix_len(t) == 0,
    ensures
        trim_unicode_start_spec(spaces(n) + t) == t,
    decreases n,
{
    if n == 0 {
        assert(spaces(n) + t =~= t);
    } else {
        let u = spaces(n) + t;
        assert(u[0] == 32u8);
        assert(uni_ws_prefix_len(u) == 1);
        assert(u.subrange(1, u.len() as int) =~= spaces((n - 1) as nat) + t);
        lemma_trim_start_spaces((n - 1) as nat, t);
    }
}

/// A value made of word bytes (letters, digits, `-`, `+`, `.`) under any key,
/// with any number of spaces around the colon and after the value, is read
/// back as exactly that word.
pub proof fn law_bare_value_read(key: Seq<u8>, pad: nat, word: Seq<u8>)
    requires
        word.len() > 0,
        forall|j: int| 0 <= j < word.len() ==> is_word_byte(#[trigger] word[j]),
    ensures
        value_slice_spec(single_field_text(key, pad, word), key) == Some(word),
{
    let s = single_field_text(key, pad, word);
    let n = key.len() as int;
    let w = word.len() as int;
    let m = pad as int;
    assert(s.len() == n + 3 * m + w + 5);
    assert(s[0] == 123u8);
    assert(!quoted_key_at(s, key, 0));
    assert(s.subrange(2, 2 + n) =~= key);
    assert(s[1] == 34u8 && s[n + 2] == 34u8 && s[n + m + 3] == 58u8);
    assert(quoted_key_at(s, key, 1));
    assert(find_quoted_key_from(s, key, 1) == Some(1int));
    assert(find_quoted_key_from(s, key, 0) == Some(1int));
    assert forall|j: int| n + 3 <= j < n + m + 3 implies #[trigger] s[j] != 58u8 by {
        assert(s[j] == 32u8);
    }
    lemma_find_byte_at(s, 58, n + 3, n + m + 3);
    assert(after_colon_spec(s, key) == Some(n + m + 4));
    let t = word + spaces(pad) + seq![125u8];
    assert(s.subrange(n + m + 4, s.len() as int) =~= spaces(pad) + t);
    assert(is_word_byte(word[0]));
    assert(t[0] == word[0]);
    assert(uni_ws_prefix_len(t) == 0);
    lemma_trim_start_spaces(pad, t);
    assert(value_after_key_spec(s, key) == Some(t));
    assert forall|j: int| 0 <= j < w implies is_word_byte(#[trigger] t[j]) by {
        assert(t[j] == word[j]);
    }
    assert(!is_word_byte(t[w]));
    lemma_word_end_of_run(t, 0, w);
    assert(t.subrange(0, w) =~= word);
    assert(uni_ws_prefix_len(word) == 0);
    assert(is_word_byte(word[w - 1]));
    if w >= 3 {
        assert(word.subrange(w - 3, w)[2] == word[w - 1]);
    }
    assert(uni_ws_suffix_len(word) == 0);
}

/// The literals `false` and `0` read as `false`, and `true` and `1` as
/// `true`, under any key and with any spacing around the colon.
pub proof fn law_bool_literals_read(key: Seq<u8>, pad: nat)
    ensures
        bool_field_spec(single_field_text(key, pad, seq![102u8, 97u8, 108u8, 115u8, 101u8]), key)
            == Some(false),
        bool_field_spec(single_field_text(key, pad, seq![48u8]), key) == Some(false),
        bool_field_spec(single_field_text(key, pad, seq![116u8, 114u8, 117u8, 101u8]), key)
            == Some(true),
        bool_field_spec(single_field_text(key, pad, seq![49u8]), key) == Some(true),
{
    law_bare_value_read(key, pad, seq![102u8, 97u8, 108u8, 115u8, 101u8]);
    law_bare_value_read(key, pad, seq![48u8]);
    assert(seq![48u8][0] != seq![49u8][0]);
    assert(seq![48u8] != seq![49u8]);
    law_bare_value_read(key, pad, seq![116u8, 114u8, 117u8, 101u8]);
    law_bare_value_read(key, pad, seq![49u8]);
}

} // verus!
