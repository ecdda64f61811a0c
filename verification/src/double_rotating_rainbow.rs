//! Parameter text of the double rotating rainbow (shared by the colour wheel and
//! the breathing effect): a quoted value up to the next quote, trimmed, or the
//! run of number characters.
use vstd::prelude::*;

use crate::json_text::{
    json_value_after_key, lemma_number_run_end, number_prefix, number_run_end,
    value_after_key_spec,
};
use crate::text::{find_byte, find_byte_from, lemma_find_byte_from, trim_unicode, trim_unicode_spec};

verus! {

/// The value text of `key`: after an opening quote, the trimmed text up to the
/// next quote (`None` when there is none); else the leading number characters.
pub open spec fn value_slice_spec(s: Seq<u8>, key: Seq<u8>) -> Option<Seq<u8>> {
    match value_after_key_spec(s, key) {
        Some(v) => if v.len() > 0 && v[0] == 34 {
            match find_byte_from(v, 34, 1) {
                Some(e) => Some(trim_unicode_spec(v.subrange(1, e))),
                None => None,
            }
        } else {
            Some(v.subrange(0, number_run_end(v, 0)))
        },
        None => None,
    }
}

pub fn json_value_slice<'a>(json: &'a [u8], key: &[u8]) -> (r: Option<&'a [u8]>)
    ensures
        r matches Some(t) ==> value_slice_spec(json@, key@) == Some(t@),
        r is None ==> value_slice_spec(json@, key@) is None,
{
    let v = match json_value_after_key(json, key) {
        Some(v) => v,
        None => return None,
    };
    if v.len() > 0 && v[0] == 34 {
        proof {
            lemma_find_byte_from(v@, 34, 1);
        }
        return match find_byte(v, 34, 1) {
            Some(e) => Some(trim_unicode(&v[1..e])),
            None => None,
        };
    }
    proof {
        lemma_number_run_end(v@, 0);
    }
    Some(number_prefix(v))
}

} // verus!
