use vstd::prelude::*;

use crate::rgb::{rgb, SkydimoRgb};
use crate::text::{trim_ascii, trim_ascii_spec, trim_unicode, trim_unicode_spec, is_ascii_ws};

verus! {

/// Value of one hexadecimal digit (either case), `None` for any other byte.
pub open spec fn hex_digit(b: u8) -> Option<u8> {
    if 48 <= b <= 57 {
        Some((b - 48) as u8)
    } else if 97 <= b <= 102 {
        Some((b - 87) as u8)
    } else if 65 <= b <= 70 {
        Some((b - 55) as u8)
    } else {
        None
    }
}

/// Value of two hexadecimal digits, high digit first.
pub open spec fn hex_pair_value(hi: u8, lo: u8) -> Option<u8> {
    match (hex_digit(hi), hex_digit(lo)) {
        (Some(h), Some(l)) => Some((h * 16 + l) as u8),
        _ => None,
    }
}

/// Colour written with three digits (`abc` is `aabbcc`) or six digits; any other
/// length, or any non-hex digit, gives `None`.
pub open spec fn color_from_hex_digits(d: Seq<u8>) -> Option<SkydimoRgb> {
    if d.len() == 3 {
        match (hex_digit(d[0]), hex_digit(d[1]), hex_digit(d[2])) {
            (Some(r), Some(g), Some(b)) => Some(rgb((r * 17) as u8, (g * 17) as u8, (b * 17) as u8)),
            _ => None,
        }
    } else if d.len() == 6 {
        match (hex_pair_value(d[0], d[1]), hex_pair_value(d[2], d[3]), hex_pair_value(d[4], d[5])) {
            (Some(r), Some(g), Some(b)) => Some(rgb(r, g, b)),
            _ => None,
        }
    } else {
        None
    }
}

/// Six digits only.
pub open spec fn color_from_six_digits(d: Seq<u8>) -> Option<SkydimoRgb> {
    if d.len() == 6 {
        color_from_hex_digits(d)
    } else {
        None
    }
}

/// Drops one leading `#`, if there is one.
pub open spec fn strip_one_hash(s: Seq<u8>) -> Seq<u8> {
    if s.len() > 0 && s[0] == 35 {
        s.drop_first()
    } else {
        s
    }
}

/// Drops every leading `#`.
pub open spec fn strip_all_hashes(s: Seq<u8>) -> Seq<u8>
    decreases s.len(),
{
    if s.len() > 0 && s[0] == 35 {
        strip_all_hashes(s.drop_first())
    } else {
        s
    }
}

pub fn parse_hex_nibble(value: u8) -> (r: Option<u8>)
    ensures
        r == hex_digit(value),
        r matches Some(v) ==> v < 16,
{
    if value >= 48 && value <= 57 {
        Some(value - 48)
    } else if value >= 97 && value <= 102 {
        Some(value - 97 + 10)
    } else if value >= 65 && value <= 70 {
        Some(value - 65 + 10)
    } else {
        None
    }
}

pub fn parse_hex_byte(hi: u8, lo: u8) -> (r: Option<u8>)
    ensures
        r == hex_pair_value(hi, lo),
{
    let h = match parse_hex_nibble(hi) {
        Some(h) => h,
        None => return None,
    };
    let l = match parse_hex_nibble(lo) {
        Some(l) => l,
        None => return None,
    };
    assert((h << 4u8) | l == h * 16 + l) by (bit_vector)
        requires
            h < 16,
            l < 16,
    ;
    Some((h << 4) | l)
}

/// Colour of three or six hex digits held in `d` (no other bytes).
pub fn color_from_digits(d: &[u8]) -> (r: Option<SkydimoRgb>)
    ensures
        r == color_from_hex_digits(d@),
{
    if d.len() == 3 {
        let r = match parse_hex_nibble(d[0]) {
            Some(v) => v,
            None => return None,
        };
        let g = match parse_hex_nibble(d[1]) {
            Some(v) => v,
            None => return None,
        };
        let b = match parse_hex_nibble(d[2]) {
            Some(v) => v,
            None => return None,
        };
        Some(SkydimoRgb { r: r * 17, g: g * 17, b: b * 17 })
    } else if d.len() == 6 {
        let r = match parse_hex_byte(d[0], d[1]) {
            Some(v) => v,
            None => return None,
        };
        let g = match parse_hex_byte(d[2], d[3]) {
            Some(v) => v,
            None => return None,
        };
        let b = match parse_hex_byte(d[4], d[5]) {
            Some(v) => v,
            None => return None,
        };
        Some(SkydimoRgb { r, g, b })
    } else {
        None
    }
}

fn strip_hash(s: &[u8]) -> (r: &[u8])
    ensures
        r@ == strip_one_hash(s@),
{
    if s.len() > 0 && s[0] == 35 {
        let r = &s[1..s.len()];
        assert(r@ =~= s@.drop_first());
        r
    } else {
        s
    }
}

fn strip_hashes(s: &[u8]) -> (r: &[u8])
    ensures
        r@ == strip_all_hashes(s@),
{
    let len = s.len();
    let mut i: usize = 0;
    assert(s@.subrange(0, len as int) =~= s@);
    while i < len && s[i] == 35
        invariant
            len == s@.len(),
            i <= len,
            strip_all_hashes(s@.subrange(i as int, len as int)) == strip_all_hashes(s@),
        decreases len - i,
    {
        assert(s@.subrange(i as int, len as int).drop_first() =~= s@.subrange(i + 1, len as int));
        i += 1;
    }
    let r = &s[i..len];
    r
}

/// Colour written as `#abc` or `#aabbcc` after ASCII whitespace is trimmed from
/// both ends; the `#` is optional.
pub open spec fn parse_trimmed_hex_spec(raw: Seq<u8>) -> Option<SkydimoRgb> {
    color_from_hex_digits(strip_one_hash(trim_ascii_spec(raw)))
}

pub fn parse_trimmed_hex(raw: &[u8]) -> (r: Option<SkydimoRgb>)
    ensures
        r == parse_trimmed_hex_spec(raw@),
{
    let bytes = trim_ascii(raw);
    let bytes = strip_hash(bytes);
    color_from_digits(bytes)
}

/// As [`parse_trimmed_hex_spec`], but trimming Unicode whitespace of UTF-8 text.
pub open spec fn parse_unicode_trimmed_hex_spec(raw: Seq<u8>) -> Option<SkydimoRgb> {
    color_from_hex_digits(strip_one_hash(trim_unicode_spec(raw)))
}

pub fn parse_unicode_trimmed_hex(raw: &[u8]) -> (r: Option<SkydimoRgb>)
    ensures
        r == parse_unicode_trimmed_hex_spec(raw@),
{
    let bytes = trim_unicode(raw);
    let bytes = strip_hash(bytes);
    color_from_digits(bytes)
}

/// The hex digits of `s` once whitespace is skipped everywhere and `#` is
/// skipped while no digit has been seen yet.
pub open spec fn compact_hex_digits(s: Seq<u8>) -> Seq<u8>
    decreases s.len(),
{
    if s.len() == 0 {
        Seq::empty()
    } else {
        let prev = compact_hex_digits(s.drop_last());
        let b = s.last();
        if is_ascii_ws(b) || (b == 35 && prev.len() == 0) {
            prev
        } else {
            prev.push(b)
        }
    }
}

pub proof fn lemma_compact_grows(s: Seq<u8>, j: int, k: int)
    requires
        0 <= j <= k <= s.len(),
    ensures
        compact_hex_digits(s.take(j)).len() <= compact_hex_digits(s.take(k)).len(),
    decreases k - j,
{
    if j < k {
        lemma_compact_grows(s, j, k - 1);
        assert(s.take(k).drop_last() =~= s.take(k - 1));
    }
}

/// Colour of `raw` once whitespace and leading `#` are skipped as in
/// [`compact_hex_digits`], so ` #0 a f ` reads as `0af`.
pub open spec fn parse_compact_hex_spec(raw: Seq<u8>) -> Option<SkydimoRgb> {
    color_from_hex_digits(compact_hex_digits(raw))
}

pub fn parse_compact_hex(raw: &[u8]) -> (r: Option<SkydimoRgb>)
    ensures
        r == parse_compact_hex_spec(raw@),
{
    let mut digits: Vec<u8> = Vec::new();
    let len = raw.len();
    let mut i: usize = 0;
    while i < len
        invariant
            len == raw@.len(),
            i <= len,
            digits@ == compact_hex_digits(raw@.take(i as int)),
            digits@.len() <= 6,
        decreases len - i,
    {
        let byte = raw[i];
        assert(raw@.take(i + 1).drop_last() =~= raw@.take(i as int));
        assert(raw@.take(i + 1).last() == byte);
        if byte == 9 || byte == 10 || byte == 12 || byte == 13 || byte == 32 {
            i += 1;
            continue;
        }
        if byte == 35 && digits.len() == 0 {
            i += 1;
            continue;
        }
        if digits.len() == 6 {
            proof {
                assert(compact_hex_digits(raw@.take(i + 1)).len() == 7);
                lemma_compact_grows(raw@, i + 1, len as int);
                assert(raw@.take(len as int) =~= raw@);
            }
            return None;
        }
        digits.push(byte);
        i += 1;
    }
    assert(raw@.take(len as int) =~= raw@);
    color_from_digits(digits.as_slice())
}

/// Six-digit colour after trimming Unicode whitespace and every leading `#`;
/// anything else reads as `None`.
pub open spec fn parse_six_after_hashes_spec(raw: Seq<u8>) -> Option<SkydimoRgb> {
    color_from_six_digits(strip_all_hashes(trim_unicode_spec(raw)))
}

pub fn parse_six_after_hashes(raw: &[u8]) -> (r: Option<SkydimoRgb>)
    ensures
        r == parse_six_after_hashes_spec(raw@),
{
    let bytes = strip_hashes(trim_unicode(raw));
    if bytes.len() != 6 {
        return None;
    }
    color_from_digits(bytes)
}

/// Three- or six-digit colour after trimming Unicode whitespace and every leading `#`.
pub open spec fn parse_after_hashes_spec(raw: Seq<u8>) -> Option<SkydimoRgb> {
    color_from_hex_digits(strip_all_hashes(trim_unicode_spec(raw)))
}

pub fn parse_after_hashes(raw: &[u8]) -> (r: Option<SkydimoRgb>)
    ensures
        r == parse_after_hashes_spec(raw@),
{
    let bytes = strip_hashes(trim_unicode(raw));
    color_from_digits(bytes)
}

/// Six-digit colour after trimming Unicode whitespace and one leading `#`.
pub open spec fn parse_six_trimmed_hex_spec(raw: Seq<u8>) -> Option<SkydimoRgb> {
    color_from_six_digits(strip_one_hash(trim_unicode_spec(raw)))
}

pub fn parse_six_trimmed_hex(raw: &[u8]) -> (r: Option<SkydimoRgb>)
    ensures
        r == parse_six_trimmed_hex_spec(raw@),
{
    let bytes = strip_hash(trim_unicode(raw));
    if bytes.len() != 6 {
        return None;
    }
    color_from_digits(bytes)
}

} // verus!
