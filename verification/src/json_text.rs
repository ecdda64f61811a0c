//! Lookups of top-level values in a JSON parameter text, in the style where the
//! value follows the first colon after the quoted key. The text is taken as its
//! UTF-8 bytes; every returned slice starts and ends next to an ASCII byte.
use vstd::prelude::*;

use crate::hex::{parse_unicode_trimmed_hex, parse_unicode_trimmed_hex_spec};
use crate::rgb::SkydimoRgb;
use crate::text::{
    find_byte, find_byte_from, find_quoted_key, find_quoted_key_from, has_prefix_at,
    lemma_find_byte_from, lemma_find_quoted_key_from, lemma_string_end_from,
    lemma_trim_unicode_start_len, starts_with_at, string_end, string_end_from,
    trim_unicode_start, trim_unicode_start_spec,
};

verus! {

/// Position just after the first `:` that follows the first `"key"`.
pub open spec fn after_colon_spec(s: Seq<u8>, key: Seq<u8>) -> Option<int> {
    match find_quoted_key_from(s, key, 0) {
        Some(k) => match find_byte_from(s, 58, k + key.len() + 2) {
            Some(c) => Some(c + 1),
            None => None,
        },
        None => None,
    }
}

pub proof fn lemma_after_colon_bounds(s: Seq<u8>, key: Seq<u8>)
    ensures
        after_colon_spec(s, key) matches Some(p) ==> 0 < p <= s.len(),
{
    lemma_find_quoted_key_from(s, key, 0);
    if let Some(k) = find_quoted_key_from(s, key, 0) {
        lemma_find_byte_from(s, 58, k + key.len() + 2);
    }
}

fn after_colon(bytes: &[u8], key: &[u8]) -> (r: Option<usize>)
    ensures
        r matches Some(p) ==> after_colon_spec(bytes@, key@) == Some(p as int) && p
            <= bytes@.len(),
        r is None ==> after_colon_spec(bytes@, key@) is None,
{
    proof {
        lemma_after_colon_bounds(bytes@, key@);
        lemma_find_quoted_key_from(bytes@, key@, 0);
    }
    let k = match find_quoted_key(bytes, key) {
        Some(k) => k,
        None => return None,
    };
    let blen = bytes.len();
    assert(k + key@.len() + 2 <= blen);
    proof {
        lemma_find_byte_from(bytes@, 58, k + key@.len() + 2);
    }
    match find_byte(bytes, 58, k + key.len() + 2) {
        Some(c) => Some(c + 1),
        None => None,
    }
}

/// Everything after that colon.
pub open spec fn after_colon_text_spec(s: Seq<u8>, key: Seq<u8>) -> Option<Seq<u8>> {
    match after_colon_spec(s, key) {
        Some(p) => Some(s.subrange(p, s.len() as int)),
        None => None,
    }
}

pub fn json_value_after_colon<'a>(json: &'a [u8], key: &[u8]) -> (r: Option<&'a [u8]>)
    ensures
        r matches Some(v) ==> after_colon_text_spec(json@, key@) == Some(v@),
        r is None ==> after_colon_text_spec(json@, key@) is None,
{
    match after_colon(json, key) {
        Some(p) => Some(&json[p..json.len()]),
        None => None,
    }
}

/// The text after that colon with leading whitespace trimmed.
pub open spec fn value_after_key_spec(s: Seq<u8>, key: Seq<u8>) -> Option<Seq<u8>> {
    match after_colon_text_spec(s, key) {
        Some(t) => Some(trim_unicode_start_spec(t)),
        None => None,
    }
}

pub fn json_value_after_key<'a>(json: &'a [u8], key: &[u8]) -> (r: Option<&'a [u8]>)
    ensures
        r matches Some(v) ==> value_after_key_spec(json@, key@) == Some(v@),
        r is None ==> value_after_key_spec(json@, key@) is None,
{
    match json_value_after_colon(json, key) {
        Some(t) => Some(trim_unicode_start(t)),
        None => None,
    }
}

/// Index of the closing quote of a string body that starts `raw`.
pub fn json_string_end(raw: &[u8]) -> (r: Option<usize>)
    ensures
        r matches Some(p) ==> string_end_from(raw@, 0, false) == Some(p as int),
        r is None ==> string_end_from(raw@, 0, false) is None,
        r matches Some(p) ==> p < raw@.len(),
{
    string_end(raw, 0)
}

pub open spec fn lit_true() -> Seq<u8> {
    seq![116u8, 114u8, 117u8, 101u8]
}

pub open spec fn lit_false() -> Seq<u8> {
    seq![102u8, 97u8, 108u8, 115u8, 101u8]
}

/// `true`/`false` when the trimmed value starts with that word.
pub open spec fn bool_prefix_spec(v: Seq<u8>) -> Option<bool> {
    if has_prefix_at(v, 0, lit_true()) {
        Some(true)
    } else if has_prefix_at(v, 0, lit_false()) {
        Some(false)
    } else {
        None
    }
}

pub fn bool_prefix(v: &[u8]) -> (r: Option<bool>)
    ensures
        r == bool_prefix_spec(v@),
{
    let t: [u8; 4] = [116, 114, 117, 101];
    let f: [u8; 5] = [102, 97, 108, 115, 101];
    assert(t@ == lit_true());
    assert(f@ == lit_false());
    if starts_with_at(v, 0, t.as_slice()) {
        Some(true)
    } else if starts_with_at(v, 0, f.as_slice()) {
        Some(false)
    } else {
        None
    }
}

pub open spec fn json_bool_spec(s: Seq<u8>, key: Seq<u8>) -> Option<bool> {
    match value_after_key_spec(s, key) {
        Some(v) => bool_prefix_spec(v),
        None => None,
    }
}

/// `true`/`false` when the value of `key` starts with that word, else `None`.
pub fn json_bool(json: &[u8], key: &[u8]) -> (r: Option<bool>)
    ensures
        r == json_bool_spec(json@, key@),
{
    match json_value_after_key(json, key) {
        Some(v) => bool_prefix(v),
        None => None,
    }
}

/// Body of a string that starts `v` (after its opening quote), up to the
/// unescaped closing quote.
pub open spec fn quoted_body_spec(v: Seq<u8>) -> Option<Seq<u8>> {
    if v.len() > 0 && v[0] == 34 {
        match string_end_from(v, 1, false) {
            Some(e) => Some(v.subrange(1, e)),
            None => None,
        }
    } else {
        None
    }
}

pub fn quoted_body(v: &[u8]) -> (r: Option<&[u8]>)
    ensures
        r matches Some(b) ==> quoted_body_spec(v@) == Some(b@),
        r is None ==> quoted_body_spec(v@) is None,
{
    if v.len() == 0 || v[0] != 34 {
        return None;
    }
    match string_end(v, 1) {
        Some(e) => Some(&v[1..e]),
        None => None,
    }
}

pub open spec fn json_string_spec(s: Seq<u8>, key: Seq<u8>) -> Option<Seq<u8>> {
    match value_after_key_spec(s, key) {
        Some(v) => quoted_body_spec(v),
        None => None,
    }
}

/// Body (escapes kept) of the string value of `key`.
pub fn json_string<'a>(json: &'a [u8], key: &[u8]) -> (r: Option<&'a [u8]>)
    ensures
        r matches Some(b) ==> json_string_spec(json@, key@) == Some(b@),
        r is None ==> json_string_spec(json@, key@) is None,
{
    match json_value_after_key(json, key) {
        Some(v) => quoted_body(v),
        None => None,
    }
}

pub open spec fn json_color_spec(s: Seq<u8>, key: Seq<u8>) -> Option<SkydimoRgb> {
    match json_string_spec(s, key) {
        Some(b) => parse_unicode_trimmed_hex_spec(b),
        None => None,
    }
}

/// Colour of the string value of `key` (trimmed, optional `#`, 3 or 6 digits).
pub fn json_color(json: &[u8], key: &[u8]) -> (r: Option<SkydimoRgb>)
    ensures
        r == json_color_spec(json@, key@),
{
    match json_string(json, key) {
        Some(b) => parse_unicode_trimmed_hex(b),
        None => None,
    }
}

/// The string items of an array body `rest` (just past `[`), read the way the
/// palette parameters are: whitespace is trimmed, a `]` ends the list, one
/// comma may precede an item, and anything but a string, or a string without
/// its closing quote, ends the list too. Each item is the string body with
/// escapes kept.
pub open spec fn quoted_items(rest: Seq<u8>) -> Seq<Seq<u8>>
    decreases rest.len(),
{
    let t = trim_unicode_start_spec(rest);
    proof {
        lemma_trim_unicode_start_len(rest);
    }
    if t.len() > 0 && t[0] == 93 {
        Seq::empty()
    } else {
        let t2 = if t.len() > 0 && t[0] == 44 {
            proof {
                lemma_trim_unicode_start_len(t.drop_first());
            }
            trim_unicode_start_spec(t.drop_first())
        } else {
            t
        };
        if t2.len() > 0 && t2[0] == 34 {
            let u = t2.drop_first();
            match string_end_from(u, 0, false) {
                Some(e) => {
                    proof {
                        lemma_string_end_from(u, 0, false);
                    }
                    seq![u.subrange(0, e)] + quoted_items(u.subrange(e + 1, u.len() as int))
                },
                None => Seq::empty(),
            }
        } else {
            Seq::empty()
        }
    }
}

/// One step of the item walk: the next item of `rest` and the text after it.
pub fn next_quoted_item<'a>(rest: &'a [u8]) -> (r: Option<(&'a [u8], &'a [u8])>)
    ensures
        r matches Some((item, after)) ==> quoted_items(rest@) == seq![item@] + quoted_items(
            after@,
        ) && after@.len() < rest@.len(),
        r is None ==> quoted_items(rest@) =~= Seq::<Seq<u8>>::empty(),
{
    proof {
        lemma_trim_unicode_start_len(rest@);
    }
    let t = trim_unicode_start(rest);
    if t.len() > 0 && t[0] == 93 {
        return None;
    }
    let t2 = if t.len() > 0 && t[0] == 44 {
        proof {
            lemma_trim_unicode_start_len(t@.drop_first());
        }
        let d = &t[1..t.len()];
        assert(d@ =~= t@.drop_first());
        trim_unicode_start(d)
    } else {
        t
    };
    if t2.len() == 0 || t2[0] != 34 {
        return None;
    }
    let u = &t2[1..t2.len()];
    assert(u@ =~= t2@.drop_first());
    match string_end(u, 0) {
        Some(e) => Some((&u[0..e], &u[e + 1..u.len()])),
        None => None,
    }
}

/// ASCII digit, `-`, `+`, `.`, `e` or `E`: the characters of a number.
pub open spec fn is_number_byte(b: u8) -> bool {
    (48 <= b <= 57) || b == 45 || b == 43 || b == 46 || b == 101 || b == 69
}

/// End of the run of number characters that starts at `pos`.
pub open spec fn number_run_end(s: Seq<u8>, pos: int) -> int
    decreases s.len() - pos,
{
    if 0 <= pos < s.len() && is_number_byte(s[pos]) {
        number_run_end(s, pos + 1)
    } else {
        pos
    }
}

pub proof fn lemma_number_run_end(s: Seq<u8>, pos: int)
    requires
        0 <= pos <= s.len(),
    ensures
        pos <= number_run_end(s, pos) <= s.len(),
    decreases s.len() - pos,
{
    if pos < s.len() && is_number_byte(s[pos]) {
        lemma_number_run_end(s, pos + 1);
    }
}

/// Leading run of number characters of `v`.
pub fn number_prefix(v: &[u8]) -> (r: &[u8])
    ensures
        r@ == v@.subrange(0, number_run_end(v@, 0)),
{
    let len = v.len();
    let mut end: usize = 0;
    while end < len
        invariant
            len == v@.len(),
            end <= len,
            number_run_end(v@, end as int) == number_run_end(v@, 0),
        ensures
            end <= len,
            end as int == number_run_end(v@, 0),
        decreases len - end,
    {
        let b = v[end];
        if !((b >= 48 && b <= 57) || b == 45 || b == 43 || b == 46 || b == 101 || b == 69) {
            break;
        }
        end += 1;
    }
    &v[0..end]
}

/// The text of the number value of `key`: after the colon and whitespace, one
/// opening quote is skipped and the run of number characters is kept (it may
/// be empty; the caller parses it).
pub open spec fn number_text_spec(s: Seq<u8>, key: Seq<u8>) -> Option<Seq<u8>> {
    match value_after_key_spec(s, key) {
        Some(v) => {
            let u = if v.len() > 0 && v[0] == 34 {
                v.drop_first()
            } else {
                v
            };
            Some(u.subrange(0, number_run_end(u, 0)))
        },
        None => None,
    }
}

pub fn number_text_after_key<'a>(json: &'a [u8], key: &[u8]) -> (r: Option<&'a [u8]>)
    ensures
        r matches Some(t) ==> number_text_spec(json@, key@) == Some(t@),
        r is None ==> number_text_spec(json@, key@) is None,
{
    let v = match json_value_after_key(json, key) {
        Some(v) => v,
        None => return None,
    };
    let u = if v.len() > 0 && v[0] == 34 {
        let d = &v[1..v.len()];
        assert(d@ =~= v@.drop_first());
        d
    } else {
        v
    };
    Some(number_prefix(u))
}

} // verus!
