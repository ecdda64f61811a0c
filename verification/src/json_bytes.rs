//! Allocation-free lookups of top-level values in a JSON parameter object,
//! working on the raw bytes of the text.
use vstd::prelude::*;

use crate::text::{
    find_json_key, find_json_key_spec, has_prefix_at, lemma_find_quoted_key_from,
    lemma_skip_ascii_ws_bounds, skip_ascii_ws, skip_ascii_ws_spec, starts_with_at, string_end,
    string_end_from,
};

verus! {

/// Where the value of `key` starts: after the first `"key"`, optional ASCII
/// whitespace, a colon and more optional whitespace.
pub open spec fn value_start_spec(s: Seq<u8>, key: Seq<u8>) -> Option<int> {
    match find_json_key_spec(s, key) {
        Some(k) => {
            let p = skip_ascii_ws_spec(s, k + key.len() + 2);
            if 0 <= p < s.len() && s[p] == 58 {
                Some(skip_ascii_ws_spec(s, p + 1))
            } else {
                None
            }
        },
        None => None,
    }
}

pub proof fn lemma_value_start_bounds(s: Seq<u8>, key: Seq<u8>)
    ensures
        value_start_spec(s, key) matches Some(p) ==> 0 < p <= s.len(),
{
    if let Some(k) = find_json_key_spec(s, key) {
        lemma_find_quoted_key_from(s, key, 0);
        lemma_skip_ascii_ws_bounds(s, k + key.len() + 2);
        let p = skip_ascii_ws_spec(s, k + key.len() + 2);
        if 0 <= p < s.len() && s[p] == 58 {
            lemma_skip_ascii_ws_bounds(s, p + 1);
        }
    }
}

pub fn json_value_start(bytes: &[u8], key: &[u8]) -> (r: Option<usize>)
    ensures
        r matches Some(p) ==> value_start_spec(bytes@, key@) == Some(p as int),
        r is None ==> value_start_spec(bytes@, key@) is None,
        r matches Some(p) ==> p <= bytes@.len(),
{
    proof {
        lemma_value_start_bounds(bytes@, key@);
    }
    let key_pos = match find_json_key(bytes, key) {
        Some(p) => p,
        None => return None,
    };
    let blen = bytes.len();
    proof {
        lemma_find_quoted_key_from(bytes@, key@, 0);
        assert(key_pos + key@.len() + 2 <= blen);
    }
    let pos = skip_ascii_ws(bytes, key_pos + key.len() + 2);
    proof {
        lemma_skip_ascii_ws_bounds(bytes@, key_pos + key@.len() + 2);
    }
    if pos >= bytes.len() || bytes[pos] != 58 {
        return None;
    }
    Some(skip_ascii_ws(bytes, pos + 1))
}

/// `true`/`false` when the value of `key` starts with that literal.
pub open spec fn json_bool_spec(s: Seq<u8>, key: Seq<u8>) -> Option<bool> {
    match value_start_spec(s, key) {
        Some(p) => if has_prefix_at(s, p, seq![116u8, 114u8, 117u8, 101u8]) {
            Some(true)
        } else if has_prefix_at(s, p, seq![102u8, 97u8, 108u8, 115u8, 101u8]) {
            Some(false)
        } else {
            None
        },
        None => None,
    }
}

pub fn json_bool(bytes: &[u8], key: &[u8]) -> (r: Option<bool>)
    ensures
        r == json_bool_spec(bytes@, key@),
{
    let start = match json_value_start(bytes, key) {
        Some(p) => p,
        None => return None,
    };
    let t: [u8; 4] = [116, 114, 117, 101];
    let f: [u8; 5] = [102, 97, 108, 115, 101];
    assert(t@ == seq![116u8, 114u8, 117u8, 101u8]);
    assert(f@ == seq![102u8, 97u8, 108u8, 115u8, 101u8]);
    if starts_with_at(bytes, start, t.as_slice()) {
        Some(true)
    } else if starts_with_at(bytes, start, f.as_slice()) {
        Some(false)
    } else {
        None
    }
}

/// Body (between the quotes, escapes kept) of a string value of `key`.
pub open spec fn json_string_spec(s: Seq<u8>, key: Seq<u8>) -> Option<Seq<u8>> {
    match value_start_spec(s, key) {
        Some(p) => if p < s.len() && s[p] == 34 {
            match string_end_from(s, p + 1, false) {
                Some(e) => Some(s.subrange(p + 1, e)),
                None => None,
            }
        } else {
            None
        },
        None => None,
    }
}

pub fn json_string<'a>(bytes: &'a [u8], key: &[u8]) -> (r: Option<&'a [u8]>)
    ensures
        r matches Some(v) ==> json_string_spec(bytes@, key@) == Some(v@),
        r is None ==> json_string_spec(bytes@, key@) is None,
{
    let start = match json_value_start(bytes, key) {
        Some(p) => p,
        None => return None,
    };
    if start >= bytes.len() || bytes[start] != 34 {
        return None;
    }
    match string_end(bytes, start + 1) {
        Some(end) => Some(&bytes[start + 1..end]),
        None => None,
    }
}

/// Characters that can appear in a JSON number.
pub open spec fn is_number_byte(b: u8) -> bool {
    (48 <= b <= 57) || b == 43 || b == 45 || b == 46 || b == 101 || b == 69
}

pub open spec fn number_end_from(s: Seq<u8>, pos: int) -> int
    decreases s.len() - pos,
{
    if 0 <= pos < s.len() && is_number_byte(s[pos]) {
        number_end_from(s, pos + 1)
    } else {
        pos
    }
}

pub proof fn lemma_number_end_bounds(s: Seq<u8>, pos: int)
    ensures
        number_end_from(s, pos) >= pos,
        pos <= s.len() ==> number_end_from(s, pos) <= s.len(),
    decreases s.len() - pos,
{
    if 0 <= pos < s.len() && is_number_byte(s[pos]) {
        lemma_number_end_bounds(s, pos + 1);
    }
}

/// End of the run of number characters starting at `pos`.
pub fn number_end(bytes: &[u8], pos: usize) -> (r: usize)
    ensures
        r == number_end_from(bytes@, pos as int),
{
    let mut p = pos;
    while p < bytes.len() && ((bytes[p] >= 48 && bytes[p] <= 57) || bytes[p] == 43 || bytes[p]
        == 45 || bytes[p] == 46 || bytes[p] == 101 || bytes[p] == 69)
        invariant
            p >= pos,
            number_end_from(bytes@, p as int) == number_end_from(bytes@, pos as int),
        decreases bytes@.len() - p,
    {
        p += 1;
    }
    p
}

/// The number text of `key`: the (non-empty) run of number characters where
/// the value starts.
pub open spec fn number_text_spec(s: Seq<u8>, key: Seq<u8>) -> Option<Seq<u8>> {
    match value_start_spec(s, key) {
        Some(p) => {
            let e = number_end_from(s, p);
            if e == p {
                None
            } else {
                Some(s.subrange(p, e))
            }
        },
        None => None,
    }
}

pub fn json_number_text<'a>(bytes: &'a [u8], key: &[u8]) -> (r: Option<&'a [u8]>)
    ensures
        r matches Some(v) ==> number_text_spec(bytes@, key@) == Some(v@),
        r is None ==> number_text_spec(bytes@, key@) is None,
{
    let start = match json_value_start(bytes, key) {
        Some(p) => p,
        None => return None,
    };
    let end = number_end(bytes, start);
    proof {
        lemma_number_end_bounds(bytes@, start as int);
    }
    if end == start {
        None
    } else {
        Some(&bytes[start..end])
    }
}

/// As [`number_text_spec`], but one opening quote before the number is skipped;
/// with `need_close`, a skipped quote must also follow the number.
pub open spec fn quoted_number_text_spec(s: Seq<u8>, key: Seq<u8>, need_close: bool) -> Option<
    Seq<u8>,
> {
    match value_start_spec(s, key) {
        Some(p0) => {
            let quoted = p0 < s.len() && s[p0] == 34;
            let p = if quoted {
                p0 + 1
            } else {
                p0
            };
            let e = number_end_from(s, p);
            if e == p {
                None
            } else if need_close && quoted && !(e < s.len() && s[e] == 34) {
                None
            } else {
                Some(s.subrange(p, e))
            }
        },
        None => None,
    }
}

pub fn json_quoted_number_text<'a>(bytes: &'a [u8], key: &[u8], need_close: bool) -> (r: Option<
    &'a [u8],
>)
    ensures
        r matches Some(v) ==> quoted_number_text_spec(bytes@, key@, need_close) == Some(v@),
        r is None ==> quoted_number_text_spec(bytes@, key@, need_close) is None,
{
    let mut start = match json_value_start(bytes, key) {
        Some(p) => p,
        None => return None,
    };
    let quoted = start < bytes.len() && bytes[start] == 34;
    if quoted {
        start += 1;
    }
    let end = number_end(bytes, start);
    proof {
        lemma_number_end_bounds(bytes@, start as int);
    }
    if end == start {
        return None;
    }
    if need_close && quoted && !(end < bytes.len() && bytes[end] == 34) {
        return None;
    }
    Some(&bytes[start..end])
}

/// Position of the first `,` or `]` at or after `pos`.
pub open spec fn array_separator_from(s: Seq<u8>, pos: int) -> Option<int>
    decreases s.len() - pos,
{
    if pos < 0 || pos >= s.len() {
        None
    } else if s[pos] == 44 || s[pos] == 93 {
        Some(pos)
    } else {
        array_separator_from(s, pos + 1)
    }
}

pub proof fn lemma_array_separator_from(s: Seq<u8>, pos: int)
    requires
        pos >= 0,
    ensures
        array_separator_from(s, pos) matches Some(p) ==> pos <= p < s.len() && (s[p] == 44 || s[p]
            == 93),
    decreases s.len() - pos,
{
    if pos < s.len() && !(s[pos] == 44 || s[pos] == 93) {
        lemma_array_separator_from(s, pos + 1);
    }
}

pub fn find_next_array_separator(bytes: &[u8], pos: usize) -> (r: Option<usize>)
    ensures
        r matches Some(p) ==> array_separator_from(bytes@, pos as int) == Some(p as int),
        r is None ==> array_separator_from(bytes@, pos as int) is None,
        r matches Some(p) ==> pos <= p < bytes@.len() && (bytes@[p as int] == 44 || bytes@[p as int]
            == 93),
{
    proof {
        lemma_array_separator_from(bytes@, pos as int);
    }
    let mut p = pos;
    while p < bytes.len()
        invariant
            p >= pos,
            array_separator_from(bytes@, p as int) == array_separator_from(bytes@, pos as int),
        decreases bytes@.len() - p,
    {
        if bytes[p] == 44 || bytes[p] == 93 {
            return Some(p);
        }
        p += 1;
    }
    None
}

/// A string body starting at `pos` and the position after its closing quote.
pub fn json_string_at<'a>(bytes: &'a [u8], pos: usize) -> (r: Option<(&'a [u8], usize)>)
    ensures
        r matches Some((v, next)) ==> string_end_from(bytes@, pos as int, false) == Some(next - 1)
            && v@ == bytes@.subrange(pos as int, next - 1) && next <= bytes@.len(),
        r is None ==> string_end_from(bytes@, pos as int, false) is None,
{
    let blen = bytes.len();
    match string_end(bytes, pos) {
        Some(end) => Some((&bytes[pos..end], end + 1)),
        None => None,
    }
}

} // verus!
