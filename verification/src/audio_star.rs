//! Parameter lookup and small helpers of the audio star effect.
use vstd::prelude::*;

use crate::json_text::{bool_prefix, bool_prefix_spec};
use crate::text::{
    find_quoted_key_after, find_quoted_key_from, lemma_find_quoted_key_from, lemma_skip_json_ws_bounds,
    skip_json_ws, skip_json_ws_spec,
};

verus! {

/// Where the value of `key` starts, searching `"key"` occurrences from `off`
/// on: an occurrence counts when JSON whitespace and a colon follow it, and
/// the value starts after the colon and more whitespace.
pub open spec fn value_start_from(s: Seq<u8>, key: Seq<u8>, off: int) -> Option<int>
    decreases s.len() - off,
{
    if off < 0 {
        None
    } else {
        match find_quoted_key_from(s, key, off) {
            Some(p) => {
                proof {
                    lemma_find_quoted_key_from(s, key, off);
                    lemma_skip_json_ws_bounds(s, p + key.len() + 2);
                }
                let idx = skip_json_ws_spec(s, p + key.len() + 2);
                if idx < s.len() && s[idx] == 58 {
                    Some(skip_json_ws_spec(s, idx + 1))
                } else if idx > off && idx <= s.len() {
                    value_start_from(s, key, idx)
                } else {
                    None
                }
            },
            None => None,
        }
    }
}

pub proof fn lemma_value_start_from(s: Seq<u8>, key: Seq<u8>, off: int)
    ensures
        value_start_from(s, key, off) matches Some(v) ==> 0 <= v <= s.len(),
    decreases s.len() - off,
{
    if off >= 0 {
        if let Some(p) = find_quoted_key_from(s, key, off) {
            lemma_find_quoted_key_from(s, key, off);
            lemma_skip_json_ws_bounds(s, p + key.len() + 2);
            let idx = skip_json_ws_spec(s, p + key.len() + 2);
            if idx < s.len() && s[idx] == 58 {
                lemma_skip_json_ws_bounds(s, idx + 1);
            } else if idx > off && idx <= s.len() {
                lemma_value_start_from(s, key, idx);
            }
        }
    }
}

pub open spec fn value_text_spec(s: Seq<u8>, key: Seq<u8>) -> Option<Seq<u8>> {
    match value_start_from(s, key, 0) {
        Some(v) => Some(s.subrange(v, s.len() as int)),
        None => None,
    }
}

/// The text from the start of the value of `key` to the end.
pub fn json_value_start<'a>(raw: &'a [u8], key: &[u8]) -> (r: Option<&'a [u8]>)
    ensures
        r matches Some(v) ==> value_text_spec(raw@, key@) == Some(v@),
        r is None ==> value_text_spec(raw@, key@) is None,
{
    proof {
        lemma_value_start_from(raw@, key@, 0);
    }
    let len = raw.len();
    let mut offset: usize = 0;
    loop
        invariant
            len == raw@.len(),
            offset <= len,
            value_start_from(raw@, key@, offset as int) == value_start_from(raw@, key@, 0),
        decreases len - offset,
    {
        proof {
            lemma_find_quoted_key_from(raw@, key@, offset as int);
        }
        let p = match find_quoted_key_after(raw, key, offset) {
            Some(p) => p,
            None => return None,
        };
        proof {
            lemma_skip_json_ws_bounds(raw@, p + key@.len() + 2);
        }
        let idx = skip_json_ws(raw, p + key.len() + 2);
        if idx < len && raw[idx] == 58 {
            let v = skip_json_ws(raw, idx + 1);
            proof {
                lemma_skip_json_ws_bounds(raw@, idx + 1);
            }
            return Some(&raw[v..len]);
        }
        offset = idx;
    }
}

pub open spec fn json_bool_spec(s: Seq<u8>, key: Seq<u8>) -> Option<bool> {
    match value_text_spec(s, key) {
        Some(v) => bool_prefix_spec(v),
        None => None,
    }
}

/// `true`/`false` when the value of `key` starts with that word.
pub fn json_bool(raw: &[u8], key: &[u8]) -> (r: Option<bool>)
    ensures
        r == json_bool_spec(raw@, key@),
{
    match json_value_start(raw, key) {
        Some(v) => bool_prefix(v),
        None => None,
    }
}

/// `value` raised to `min`, then lowered to `max`.
pub fn clamp_isize(value: isize, min: isize, max: isize) -> (r: isize)
    ensures
        r == (if (if value < min { min } else { value }) > max {
            max
        } else {
            if value < min {
                min
            } else {
                value
            }
        }),
{
    let v = if value < min { min } else { value };
    if v > max {
        max
    } else {
        v
    }
}

} // verus!
