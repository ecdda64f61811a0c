//! Parameter reading of the breathing circle: a value is the trimmed body of a
//! string, or the run of number-like characters that follows the colon.
use vstd::prelude::*;

use crate::hex::{parse_unicode_trimmed_hex, parse_unicode_trimmed_hex_spec};
use crate::json_text::{json_value_after_key, quoted_body, quoted_body_spec, value_after_key_spec};
use crate::rgb::SkydimoRgb;
use crate::rng::{nanos_or, reading_or, splitmix64, splitmix64_spec, GOLDEN_GAMMA};
use crate::text::{slice_equals, trim_unicode, trim_unicode_spec};

verus! {

/// Fallback clock reading of the breathing circle.
pub const CLOCK_FALLBACK: u64 = 0x5A17_2026_0508;

/// ASCII letter or digit, `-`, `+` or `.`: the characters of an unquoted value.
pub open spec fn is_value_byte(b: u8) -> bool {
    (48 <= b <= 57) || (65 <= b <= 90) || (97 <= b <= 122) || b == 45 || b == 43 || b == 46
}

/// End of the run of value characters that starts at `pos`.
pub open spec fn value_run_end(s: Seq<u8>, pos: int) -> int
    decreases s.len() - pos,
{
    if 0 <= pos < s.len() && is_value_byte(s[pos]) {
        value_run_end(s, pos + 1)
    } else {
        pos
    }
}

pub proof fn lemma_value_run_end(s: Seq<u8>, pos: int)
    requires
        0 <= pos <= s.len(),
    ensures
        pos <= value_run_end(s, pos) <= s.len(),
    decreases s.len() - pos,
{
    if pos < s.len() && is_value_byte(s[pos]) {
        lemma_value_run_end(s, pos + 1);
    }
}

/// The value of `key`: the trimmed body of a string (`None` when it is not
/// closed), or else the leading run of value characters (possibly empty).
pub open spec fn json_value_slice_spec(s: Seq<u8>, key: Seq<u8>) -> Option<Seq<u8>> {
    match value_after_key_spec(s, key) {
        Some(raw) => if raw.len() > 0 && raw[0] == 34 {
            match quoted_body_spec(raw) {
                Some(b) => Some(trim_unicode_spec(b)),
                None => None,
            }
        } else {
            Some(raw.subrange(0, value_run_end(raw, 0)))
        },
        None => None,
    }
}

pub fn json_value_slice<'a>(json: &'a [u8], key: &[u8]) -> (r: Option<&'a [u8]>)
    ensures
        r matches Some(v) ==> json_value_slice_spec(json@, key@) == Some(v@),
        r is None ==> json_value_slice_spec(json@, key@) is None,
{
    let raw = match json_value_after_key(json, key) {
        Some(raw) => raw,
        None => return None,
    };
    if raw.len() > 0 && raw[0] == 34 {
        return match quoted_body(raw) {
            Some(b) => Some(trim_unicode(b)),
            None => None,
        };
    }
    let len = raw.len();
    let mut end: usize = 0;
    while end < len
        invariant
            len == raw@.len(),
            end <= len,
            value_run_end(raw@, end as int) == value_run_end(raw@, 0),
        ensures
            end <= len,
            end as int == value_run_end(raw@, 0),
        decreases len - end,
    {
        let b = raw[end];
        let keep = (b >= 48 && b <= 57) || (b >= 65 && b <= 90) || (b >= 97 && b <= 122) || b
            == 45 || b == 43 || b == 46;
        if !keep {
            break;
        }
        end += 1;
    }
    Some(&raw[0..end])
}

/// `true` for the values `true` and `1`, `false` for `false` and `0`.
pub open spec fn flag_value(v: Seq<u8>) -> Option<bool> {
    if v == seq![116u8, 114u8, 117u8, 101u8] || v == seq![49u8] {
        Some(true)
    } else if v == seq![102u8, 97u8, 108u8, 115u8, 101u8] || v == seq![48u8] {
        Some(false)
    } else {
        None
    }
}

pub open spec fn parse_bool_field_spec(s: Seq<u8>, key: Seq<u8>) -> Option<bool> {
    match json_value_slice_spec(s, key) {
        Some(v) => flag_value(v),
        None => None,
    }
}

pub fn parse_bool_field(json: &[u8], key: &[u8]) -> (r: Option<bool>)
    ensures
        r == parse_bool_field_spec(json@, key@),
{
    let v = match json_value_slice(json, key) {
        Some(v) => v,
        None => return None,
    };
    let t: [u8; 4] = [116, 114, 117, 101];
    let one: [u8; 1] = [49];
    let f: [u8; 5] = [102, 97, 108, 115, 101];
    let zero: [u8; 1] = [48];
    assert(t@ == seq![116u8, 114u8, 117u8, 101u8]);
    assert(one@ == seq![49u8]);
    assert(f@ == seq![102u8, 97u8, 108u8, 115u8, 101u8]);
    assert(zero@ == seq![48u8]);
    if slice_equals(v, t.as_slice()) || slice_equals(v, one.as_slice()) {
        Some(true)
    } else if slice_equals(v, f.as_slice()) || slice_equals(v, zero.as_slice()) {
        Some(false)
    } else {
        None
    }
}

pub open spec fn parse_color_field_spec(s: Seq<u8>, key: Seq<u8>) -> Option<SkydimoRgb> {
    match json_value_slice_spec(s, key) {
        Some(v) => parse_unicode_trimmed_hex_spec(v),
        None => None,
    }
}

/// Colour value of `key`: three or six hex digits, `#` optional.
pub fn parse_color_field(json: &[u8], key: &[u8]) -> (r: Option<SkydimoRgb>)
    ensures
        r == parse_color_field_spec(json@, key@),
{
    match json_value_slice(json, key) {
        Some(v) => parse_unicode_trimmed_hex(v),
        None => None,
    }
}

/// Seed of the breathing circle's colour generator for a clock reading.
pub open spec fn seed_of_reading(reading: Option<u64>) -> u64 {
    splitmix64_spec(reading_or(reading, CLOCK_FALLBACK) ^ GOLDEN_GAMMA)
}

/// The seed of a clock reading in nanoseconds: the reading mixed with the
/// golden-ratio constant and scrambled by splitmix64.
pub fn seed_from_nanos(nanos: u64) -> (r: u64)
    ensures
        r == seed_of_reading(Some(nanos)),
{
    splitmix64(nanos ^ GOLDEN_GAMMA)
}

/// A seed drawn from the clock and scrambled by splitmix64.
pub fn seed_now() -> (r: u64)
    ensures
        exists|reading: Option<u64>| r == #[trigger] seed_of_reading(reading),
{
    let nanos = nanos_or(CLOCK_FALLBACK);
    let ghost reading = choose|reading: Option<u64>| nanos == reading_or(reading, CLOCK_FALLBACK);
    let r = seed_from_nanos(nanos);
    assert(r == seed_of_reading(reading));
    r
}

} // verus!
