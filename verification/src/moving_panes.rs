//! Parameters and pane layout of the moving panes effect.
use vstd::prelude::*;

use crate::hex::{parse_unicode_trimmed_hex, parse_unicode_trimmed_hex_spec};
use crate::json_text::{json_value_after_key, value_after_key_spec};
use crate::rgb::SkydimoRgb;
use crate::text::{
    has_prefix_at, lemma_string_end_from, lemma_trim_unicode_start_len, starts_with_at,
    string_end, string_end_from, trim_unicode_start, trim_unicode_start_spec,
};

verus! {

/// `true` for a value starting with `true`, `"true"` or `1`; `false` for one
/// starting with `false`, `"false"` or `0`.
pub open spec fn pane_flag(v: Seq<u8>) -> Option<bool> {
    if has_prefix_at(v, 0, seq![116u8, 114u8, 117u8, 101u8]) || has_prefix_at(
        v,
        0,
        seq![34u8, 116u8, 114u8, 117u8, 101u8, 34u8],
    ) || has_prefix_at(v, 0, seq![49u8]) {
        Some(true)
    } else if has_prefix_at(v, 0, seq![102u8, 97u8, 108u8, 115u8, 101u8]) || has_prefix_at(
        v,
        0,
        seq![34u8, 102u8, 97u8, 108u8, 115u8, 101u8, 34u8],
    ) || has_prefix_at(v, 0, seq![48u8]) {
        Some(false)
    } else {
        None
    }
}

pub open spec fn json_bool_spec(s: Seq<u8>, key: Seq<u8>) -> Option<bool> {
    match value_after_key_spec(s, key) {
        Some(v) => pane_flag(v),
        None => None,
    }
}

pub fn json_bool(json: &[u8], key: &[u8]) -> (r: Option<bool>)
    ensures
        r == json_bool_spec(json@, key@),
{
    let v = match json_value_after_key(json, key) {
        Some(v) => v,
        None => return None,
    };
    let t: [u8; 4] = [116, 114, 117, 101];
    let qt: [u8; 6] = [34, 116, 114, 117, 101, 34];
    let one: [u8; 1] = [49];
    let f: [u8; 5] = [102, 97, 108, 115, 101];
    let qf: [u8; 7] = [34, 102, 97, 108, 115, 101, 34];
    let zero: [u8; 1] = [48];
    assert(t@ == seq![116u8, 114u8, 117u8, 101u8]);
    assert(qt@ == seq![34u8, 116u8, 114u8, 117u8, 101u8, 34u8]);
    assert(one@ == seq![49u8]);
    assert(f@ == seq![102u8, 97u8, 108u8, 115u8, 101u8]);
    assert(qf@ == seq![34u8, 102u8, 97u8, 108u8, 115u8, 101u8, 34u8]);
    assert(zero@ == seq![48u8]);
    if starts_with_at(v, 0, t.as_slice()) || starts_with_at(v, 0, qt.as_slice())
        || starts_with_at(v, 0, one.as_slice()) {
        Some(true)
    } else if starts_with_at(v, 0, f.as_slice()) || starts_with_at(v, 0, qf.as_slice())
        || starts_with_at(v, 0, zero.as_slice()) {
        Some(false)
    } else {
        None
    }
}

/// One slot of the colour pair walk over `raw`: `Some(None)` at a closing `]`,
/// `Some(Some((body, after)))` for a string (one comma may precede it), and
/// `None` for anything else, which rejects the whole pair.
pub open spec fn pane_step(raw: Seq<u8>) -> Option<Option<(Seq<u8>, Seq<u8>)>> {
    let t = trim_unicode_start_spec(raw);
    if t.len() > 0 && t[0] == 93 {
        Some(None)
    } else {
        let t2 = if t.len() > 0 && t[0] == 44 {
            trim_unicode_start_spec(t.drop_first())
        } else {
            t
        };
        if t2.len() > 0 && t2[0] == 34 {
            let u = t2.drop_first();
            match string_end_from(u, 0, false) {
                Some(e) => Some(Some((u.subrange(0, e), u.subrange(e + 1, u.len() as int)))),
                None => None,
            }
        } else {
            None
        }
    }
}

fn next_slot<'a>(raw: &'a [u8]) -> (r: Option<Option<(&'a [u8], &'a [u8])>>)
    ensures
        r matches Some(Some((b, a))) ==> pane_step(raw@) == Some(Some((b@, a@))),
        r matches Some(None) ==> pane_step(raw@) == Some(None::<(Seq<u8>, Seq<u8>)>),
        r is None ==> pane_step(raw@) is None,
{
    proof {
        lemma_trim_unicode_start_len(raw@);
    }
    let t = trim_unicode_start(raw);
    if t.len() > 0 && t[0] == 93 {
        return Some(None);
    }
    let t2 = if t.len() > 0 && t[0] == 44 {
        let d = &t[1..t.len()];
        assert(d@ =~= t@.drop_first());
        trim_unicode_start(d)
    } else {
        t
    };
    if t2.len() == 0 || t2[0] != 34 {
        return None;
    }
    let u = &t2[1..t2.len()];
    assert(u@ =~= t2@.drop_first());
    match string_end(u, 0) {
        Some(e) => Some(Some((&u[0..e], &u[e + 1..u.len()]))),
        None => None,
    }
}

/// A pair with at least one colour; `None` when both are missing.
pub open spec fn any_color(
    pair: (Option<SkydimoRgb>, Option<SkydimoRgb>),
) -> Option<(Option<SkydimoRgb>, Option<SkydimoRgb>)> {
    if pair.0 is Some || pair.1 is Some {
        Some(pair)
    } else {
        None
    }
}

/// The two pane colours of `key`: up to two strings of an array (each parsed
/// on its own; a `]` leaves the remaining slots empty). `None` when the value
/// is not an array, a slot holds something other than a string, or neither
/// string is a colour.
pub open spec fn color_pair_spec(s: Seq<u8>, key: Seq<u8>) -> Option<
    (Option<SkydimoRgb>, Option<SkydimoRgb>),
> {
    match value_after_key_spec(s, key) {
        Some(v) => if v.len() > 0 && v[0] == 91 {
            match pane_step(v.drop_first()) {
                None => None,
                Some(None) => any_color((None, None)),
                Some(Some((b0, a0))) => {
                    let c0 = parse_unicode_trimmed_hex_spec(b0);
                    match pane_step(a0) {
                        None => None,
                        Some(None) => any_color((c0, None)),
                        Some(Some((b1, _))) => any_color((c0, parse_unicode_trimmed_hex_spec(b1))),
                    }
                },
            }
        } else {
            None
        },
        None => None,
    }
}

pub fn json_color_pair(json: &[u8], key: &[u8]) -> (r: Option<[Option<SkydimoRgb>; 2]>)
    ensures
        r matches Some(a) ==> color_pair_spec(json@, key@) == Some((a[0], a[1])),
        r is None ==> color_pair_spec(json@, key@) is None,
{
    let v = match json_value_after_key(json, key) {
        Some(v) => v,
        None => return None,
    };
    if v.len() == 0 || v[0] != 91 {
        return None;
    }
    let rest = &v[1..v.len()];
    assert(rest@ =~= v@.drop_first());
    let (c0, c1) = match next_slot(rest) {
        None => return None,
        Some(None) => (None, None),
        Some(Some((b0, a0))) => {
            let c0 = parse_unicode_trimmed_hex(b0);
            match next_slot(a0) {
                None => return None,
                Some(None) => (c0, None),
                Some(Some((b1, _))) => (c0, parse_unicode_trimmed_hex(b1)),
            }
        },
    };
    if c0.is_some() || c1.is_some() {
        Some([c0, c1])
    } else {
        None
    }
}

/// Pane of column `x`: `x * divisions / width` (the product saturates, a zero
/// width counts as 1).
pub open spec fn zone_spec(x: usize, width: usize, divisions: usize) -> int {
    let p = if x * divisions > usize::MAX {
        usize::MAX as int
    } else {
        x * divisions
    };
    p / (if width == 0 {
        1
    } else {
        width as int
    })
}

pub fn zone_for_x(x: usize, width: usize, divisions: usize) -> (z: usize)
    ensures
        z == zone_spec(x, width, divisions),
{
    let w = if width == 0 { 1 } else { width };
    let p = match x.checked_mul(divisions) {
        Some(p) => p,
        None => usize::MAX,
    };
    p / w
}

} // verus!
