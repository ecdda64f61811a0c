//! Palette reading of the breathing effect.
use vstd::prelude::*;

use crate::hex::{parse_compact_hex, parse_compact_hex_spec};
use crate::json_fields::{is_list_sep, lemma_skip_list_sep_bounds, skip_list_sep_from};
use crate::json_text::{json_value_after_key, value_after_key_spec};
use crate::rgb::SkydimoRgb;

verus! {

/// `i + 2`, saturating at `usize::MAX`.
pub open spec fn step2(i: int) -> int {
    if i + 2 > usize::MAX {
        usize::MAX as int
    } else {
        i + 2
    }
}

/// Where skipping one array element that starts at `i` stops: just past the
/// comma that ends it, at the bracket or brace that closes its container, or
/// at the end of the text; strings (with backslash escapes) and nested
/// brackets and braces are stepped over.
pub open spec fn skip_value_from(s: Seq<u8>, i: int, in_string: bool, depth: nat) -> int
    decreases s.len() + 2 - i,
{
    if i < 0 || i >= s.len() || s.len() >= usize::MAX {
        i
    } else {
        let b = s[i];
        if b == 92 && in_string {
            skip_value_from(s, step2(i), in_string, depth)
        } else if b == 34 {
            skip_value_from(s, i + 1, !in_string, depth)
        } else if (b == 91 || b == 123) && !in_string {
            skip_value_from(s, i + 1, in_string, depth + 1)
        } else if (b == 93 || b == 125) && !in_string {
            if depth == 0 {
                i
            } else {
                skip_value_from(s, i + 1, in_string, (depth - 1) as nat)
            }
        } else if b == 44 && !in_string && depth == 0 {
            i + 1
        } else {
            skip_value_from(s, i + 1, in_string, depth)
        }
    }
}

pub proof fn lemma_skip_value_bounds(s: Seq<u8>, i: int, in_string: bool, depth: nat)
    requires
        0 <= i,
    ensures
        skip_value_from(s, i, in_string, depth) >= i,
        i <= s.len() ==> skip_value_from(s, i, in_string, depth) <= s.len() + 1,
        i < s.len() && s.len() < usize::MAX && !(s[i] == 93 || s[i] == 125) ==> skip_value_from(
            s,
            i,
            in_string,
            depth,
        ) > i,
    decreases s.len() + 2 - i,
{
    if i < 0 || i >= s.len() || s.len() >= usize::MAX {
    } else {
        let b = s[i];
        if b == 92 && in_string {
            lemma_skip_value_bounds(s, step2(i), in_string, depth);
        } else if b == 34 {
            lemma_skip_value_bounds(s, i + 1, !in_string, depth);
        } else if (b == 91 || b == 123) && !in_string {
            lemma_skip_value_bounds(s, i + 1, in_string, depth + 1);
        } else if (b == 93 || b == 125) && !in_string {
            if depth != 0 {
                lemma_skip_value_bounds(s, i + 1, in_string, (depth - 1) as nat);
            }
        } else if b == 44 && !in_string && depth == 0 {
        } else {
            lemma_skip_value_bounds(s, i + 1, in_string, depth);
        }
    }
}

pub fn skip_json_value(bytes: &[u8], i: usize) -> (r: usize)
    requires
        bytes@.len() < usize::MAX,
    ensures
        r == skip_value_from(bytes@, i as int, false, 0),
{
    let len = bytes.len();
    let mut k = i;
    let mut in_string = false;
    let mut depth: usize = 0;
    while k < len
        invariant
            len == bytes@.len(),
            len < usize::MAX,
            depth <= k,
            skip_value_from(bytes@, k as int, in_string, depth as nat) == skip_value_from(
                bytes@,
                i as int,
                false,
                0,
            ),
        decreases len + 2 - k,
    {
        let b = bytes[k];
        if b == 92 && in_string {
            k = k.saturating_add(2);
        } else if b == 34 {
            in_string = !in_string;
            k += 1;
        } else if (b == 91 || b == 123) && !in_string {
            depth += 1;
            k += 1;
        } else if (b == 93 || b == 125) && !in_string {
            if depth == 0 {
                return k;
            }
            depth -= 1;
            k += 1;
        } else if b == 44 && !in_string && depth == 0 {
            return k + 1;
        } else {
            k += 1;
        }
    }
    k
}

/// Removes each escaping backslash (the byte after it is kept as it is).
pub open spec fn unescape_from(s: Seq<u8>, i: int) -> Seq<u8>
    decreases s.len() - i,
{
    if i < 0 || i >= s.len() {
        Seq::empty()
    } else if s[i] == 92 && i + 1 < s.len() {
        seq![s[i + 1]] + unescape_from(s, i + 2)
    } else {
        seq![s[i]] + unescape_from(s, i + 1)
    }
}

pub fn unescape_json_string(raw: &[u8]) -> (out: Vec<u8>)
    ensures
        out@ == unescape_from(raw@, 0),
{
    let ghost s = raw@;
    let len = raw.len();
    let mut out: Vec<u8> = Vec::new();
    let mut i: usize = 0;
    while i < len
        invariant
            len == s.len(),
            s == raw@,
            unescape_from(s, 0) == out@ + unescape_from(s, i as int),
        decreases len - i,
    {
        let ghost before = out@;
        if raw[i] == 92 && i + 1 < len {
            out.push(raw[i + 1]);
            assert(before + (seq![s[i + 1]] + unescape_from(s, i + 2)) =~= out@ + unescape_from(
                s,
                i + 2,
            ));
            i += 2;
        } else {
            out.push(raw[i]);
            assert(before + (seq![s[i as int]] + unescape_from(s, i + 1)) =~= out@ + unescape_from(
                s,
                i + 1,
            ));
            i += 1;
        }
    }
    assert(out@ + Seq::<u8>::empty() =~= out@);
    out
}

/// End of a palette string whose body starts at `i`: the first quote not
/// skipped by a backslash (a backslash skips the byte after it), and whether
/// any backslash was met; `None` at the end of the text.
pub open spec fn palette_string_end(s: Seq<u8>, i: int, escaped: bool) -> (Option<int>, bool)
    decreases s.len() + 2 - i,
{
    if i < 0 || i >= s.len() || s.len() >= usize::MAX {
        (None, escaped)
    } else if s[i] == 92 {
        palette_string_end(s, step2(i), true)
    } else if s[i] == 34 {
        (Some(i), escaped)
    } else {
        palette_string_end(s, i + 1, escaped)
    }
}

pub proof fn lemma_palette_string_end(s: Seq<u8>, i: int, escaped: bool)
    requires
        0 <= i,
    ensures
        palette_string_end(s, i, escaped).0 matches Some(e) ==> i <= e < s.len() && s[e] == 34,
    decreases s.len() + 2 - i,
{
    if i < 0 || i >= s.len() || s.len() >= usize::MAX {
    } else if s[i] == 92 {
        lemma_palette_string_end(s, step2(i), true);
    } else if s[i] != 34 {
        lemma_palette_string_end(s, i + 1, escaped);
    }
}

/// The colour of a palette string body (escapes removed first when present).
pub open spec fn palette_entry(body: Seq<u8>, escaped: bool) -> Seq<SkydimoRgb> {
    let text = if escaped {
        unescape_from(body, 0)
    } else {
        body
    };
    match parse_compact_hex_spec(text) {
        Some(c) => seq![c],
        None => Seq::empty(),
    }
}

/// Palette elements from `i` on: `Some((found, colours))` when the walk ends
/// (`found` is true at the closing `]`, false at the end of the text or of an
/// unterminated string); `None` when it would go on forever (an element that
/// cannot be skipped).
pub open spec fn palette_walk(s: Seq<u8>, i: int) -> Option<(bool, Seq<SkydimoRgb>)>
    decreases s.len() + 2 - i,
{
    if i < 0 || i >= s.len() || s.len() >= usize::MAX {
        Some((false, Seq::empty()))
    } else {
        let j = skip_list_sep_from(s, i);
        proof {
            lemma_skip_list_sep_bounds(s, i);
        }
        if j >= s.len() {
            Some((false, Seq::empty()))
        } else if s[j] == 93 {
            Some((true, Seq::empty()))
        } else if s[j] != 34 {
            let k = skip_value_from(s, j, false, 0);
            proof {
                lemma_skip_value_bounds(s, j, false, 0);
            }
            if k > j {
                palette_walk(s, k)
            } else {
                None
            }
        } else {
            let (end, escaped) = palette_string_end(s, j + 1, false);
            match end {
                Some(e) => {
                    proof {
                        lemma_palette_string_end(s, j + 1, false);
                    }
                    match palette_walk(s, e + 1) {
                        Some((found, rest)) => Some(
                            (found, palette_entry(s.subrange(j + 1, e), escaped) + rest),
                        ),
                        None => None,
                    }
                },
                None => Some((false, Seq::empty())),
            }
        }
    }
}

pub open spec fn palette_value(s: Seq<u8>, key: Seq<u8>) -> Option<Seq<u8>> {
    match value_after_key_spec(s, key) {
        Some(v) => if v.len() > 0 && v[0] == 91 {
            Some(v)
        } else {
            None
        },
        None => None,
    }
}

/// Reads the palette array of `key` into `out`: each string element that reads
/// as a colour (after removing escapes), in order. `false` when `key` holds no
/// array (then `out` is untouched) or the array ends without `]` (then `out`
/// holds what was read); `true` at the closing `]`. An array holding an
/// element that cannot be skipped (a `}` where an element should start) would
/// never finish reading, so it is not accepted.
pub fn collect_palette(json: &[u8], key: &[u8], out: &mut Vec<SkydimoRgb>) -> (found: bool)
    requires
        palette_value(json@, key@) matches Some(v) ==> palette_walk(v, 1) is Some,
    ensures
        palette_value(json@, key@) is None ==> !found && final(out)@ == old(out)@,
        palette_value(json@, key@) matches Some(v) ==> palette_walk(v, 1) matches Some((f, colors))
            && found == f && final(out)@ == colors,
{
    let raw = match json_value_after_key(json, key) {
        Some(v) => v,
        None => return false,
    };
    if raw.len() == 0 || raw[0] != 91 {
        return false;
    }
    out.clear();
    let ghost s = raw@;
    let len = raw.len();
    if len >= usize::MAX {
        return false;
    }
    let mut i: usize = 1;
    while i < len
        invariant
            len == s.len(),
            s == raw@,
            len < usize::MAX,
            i <= len + 1,
            palette_value(json@, key@) == Some(s),
            palette_walk(s, 1) is Some,
            palette_walk(s, 1) == (match palette_walk(s, i as int) {
                Some((f, rest)) => Some((f, out@ + rest)),
                None => None::<(bool, Seq<SkydimoRgb>)>,
            }),
        decreases len + 2 - i,
    {
        let ghost i0 = i as int;
        let ghost before = out@;
        proof {
            lemma_skip_list_sep_bounds(s, i0);
        }
        let mut j = i;
        while j < len && (raw[j] == 32 || raw[j] == 10 || raw[j] == 13 || raw[j] == 9 || raw[j]
            == 44)
            invariant
                len == s.len(),
                s == raw@,
                i0 <= j,
                skip_list_sep_from(s, j as int) == skip_list_sep_from(s, i0),
            decreases len - j,
        {
            j += 1;
        }
        if j >= len {
            assert(out@ + Seq::<SkydimoRgb>::empty() =~= out@);
            return false;
        }
        if raw[j] == 93 {
            assert(out@ + Seq::<SkydimoRgb>::empty() =~= out@);
            return true;
        }
        if raw[j] != 34 {
            proof {
                lemma_skip_value_bounds(s, j as int, false, 0);
            }
            let k = skip_json_value(raw, j);
            assert(skip_list_sep_from(s, i0) == j as int);
            if k <= j {
                assert(palette_walk(s, i0) is None);
                assert(false);
                return false;
            }
            assert(palette_walk(s, i0) == palette_walk(s, k as int));
            i = k;
            continue;
        }
        let start = j + 1;
        let mut k = start;
        let mut escaped = false;
        proof {
            lemma_palette_string_end(s, start as int, false);
        }
        while k < len
            invariant
                len == s.len(),
                s == raw@,
                len < usize::MAX,
                start <= k,
                palette_string_end(s, k as int, escaped) == palette_string_end(
                    s,
                    start as int,
                    false,
                ),
            ensures
                start <= k,
                palette_string_end(s, k as int, escaped) == palette_string_end(
                    s,
                    start as int,
                    false,
                ),
                k < len ==> s[k as int] == 34,
            decreases len + 2 - k,
        {
            if raw[k] == 92 {
                escaped = true;
                k = k.saturating_add(2);
            } else if raw[k] == 34 {
                break;
            } else {
                k += 1;
            }
        }
        if k >= len {
            assert(out@ + Seq::<SkydimoRgb>::empty() =~= out@);
            return false;
        }
        let body = &raw[start..k];
        let color = if escaped {
            let text = unescape_json_string(body);
            parse_compact_hex(text.as_slice())
        } else {
            parse_compact_hex(body)
        };
        match color {
            Some(c) => out.push(c),
            None => {},
        }
        assert(skip_list_sep_from(s, i0) == j as int);
        assert(palette_string_end(s, start as int, false) == (Some(k as int), escaped));
        proof {
            let head = palette_entry(s.subrange(start as int, k as int), escaped);
            assert(out@ =~= before + head);
            if let Some((f, rest)) = palette_walk(s, k + 1) {
                assert(before + (head + rest) =~= out@ + rest);
            }
        }
        i = k + 1;
    }
    assert(out@ + Seq::<SkydimoRgb>::empty() =~= out@);
    false
}

} // verus!
