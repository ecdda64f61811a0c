//! Walking a JSON array of colour strings, as the palette parameters are written.
use vstd::prelude::*;

use crate::hex::{parse_compact_hex, parse_compact_hex_spec};
use crate::json_bytes::{
    array_separator_from, find_next_array_separator, lemma_array_separator_from,
};
use crate::rgb::SkydimoRgb;
use crate::text::{
    lemma_skip_ascii_ws_bounds, lemma_string_end_from, skip_ascii_ws, skip_ascii_ws_spec,
    string_end, string_end_from,
};

verus! {

/// What one colour string contributes: its colour, or `fallback` (if any) when
/// it does not read as a colour.
pub open spec fn entry_colors(body: Seq<u8>, fallback: Option<SkydimoRgb>) -> Seq<SkydimoRgb> {
    match parse_compact_hex_spec(body) {
        Some(c) => seq![c],
        None => match fallback {
            Some(f) => seq![f],
            None => Seq::empty(),
        },
    }
}

/// Colours of the array elements from `pos` on (just past `[`), read leniently:
/// commas and whitespace are skipped, strings are read as colours, any other
/// element is skipped up to the next `,` or `]`, and the walk stops at `]`, at
/// an unterminated string or at the end of the text.
pub open spec fn lenient_colors(s: Seq<u8>, pos: int, fallback: Option<SkydimoRgb>) -> Seq<
    SkydimoRgb,
>
    decreases s.len() - pos,
{
    let p = skip_ascii_ws_spec(s, pos);
    if pos < 0 || p >= s.len() {
        Seq::empty()
    } else if s[p] == 93 {
        Seq::empty()
    } else if s[p] == 44 {
        proof {
            lemma_skip_ascii_ws_bounds(s, pos);
        }
        lenient_colors(s, p + 1, fallback)
    } else if s[p] == 34 {
        match string_end_from(s, p + 1, false) {
            Some(e) => {
                proof {
                    lemma_skip_ascii_ws_bounds(s, pos);
                    lemma_string_end_from(s, p + 1, false);
                }
                entry_colors(s.subrange(p + 1, e), fallback) + lenient_colors(s, e + 1, fallback)
            },
            None => Seq::empty(),
        }
    } else {
        match array_separator_from(s, p) {
            Some(q) => {
                proof {
                    lemma_skip_ascii_ws_bounds(s, pos);
                    lemma_array_separator_from(s, p);
                }
                if q > p {
                    lenient_colors(s, q, fallback)
                } else {
                    Seq::empty()
                }
            },
            None => Seq::empty(),
        }
    }
}

/// Appends the colours [`lenient_colors`] reads from `pos` on.
pub fn collect_lenient_colors(
    bytes: &[u8],
    pos: usize,
    fallback: Option<SkydimoRgb>,
    out: &mut Vec<SkydimoRgb>,
)
    ensures
        final(out)@ == old(out)@ + lenient_colors(bytes@, pos as int, fallback),
{
    let ghost s = bytes@;
    let ghost start = out@;
    let ghost pos0 = pos as int;
    let mut pos = pos;
    let len = bytes.len();
    loop
        invariant
            len == s.len(),
            s == bytes@,
            out@ + lenient_colors(s, pos as int, fallback) == start + lenient_colors(s, pos0, fallback),
        ensures
            out@ == start + lenient_colors(s, pos0, fallback),
        decreases len - pos,
    {
        proof {
            lemma_skip_ascii_ws_bounds(s, pos as int);
        }
        let p = skip_ascii_ws(bytes, pos);
        if p >= len {
            assert(lenient_colors(s, pos as int, fallback) =~= Seq::empty());
            assert(out@ + Seq::<SkydimoRgb>::empty() =~= out@);
            break;
        }
        let b = bytes[p];
        if b == 93 {
            assert(lenient_colors(s, pos as int, fallback) =~= Seq::empty());
            assert(out@ + Seq::<SkydimoRgb>::empty() =~= out@);
            break;
        } else if b == 44 {
            pos = p + 1;
        } else if b == 34 {
            proof {
                lemma_string_end_from(s, p + 1, false);
            }
            match string_end(bytes, p + 1) {
                Some(e) => {
                    let ghost rest = lenient_colors(s, e + 1, fallback);
                    let ghost head = entry_colors(s.subrange(p + 1, e as int), fallback);
                    let ghost before = out@;
                    assert(lenient_colors(s, pos as int, fallback) == head + rest);
                    let body = &bytes[p + 1..e];
                    match parse_compact_hex(body) {
                        Some(c) => out.push(c),
                        None => match fallback {
                            Some(f) => out.push(f),
                            None => {},
                        },
                    }
                    assert(out@ =~= before + head);
                    assert(out@ + rest =~= before + (head + rest));
                    pos = e + 1;
                },
                None => {
                    assert(lenient_colors(s, pos as int, fallback) =~= Seq::empty());
                    assert(out@ + Seq::<SkydimoRgb>::empty() =~= out@);
                    break;
                },
            }
        } else {
            proof {
                lemma_array_separator_from(s, p as int);
            }
            match find_next_array_separator(bytes, p) {
                Some(q) => {
                    pos = q;
                },
                None => {
                    assert(lenient_colors(s, pos as int, fallback) =~= Seq::empty());
                    assert(out@ + Seq::<SkydimoRgb>::empty() =~= out@);
                    break;
                },
            }
        }
    }
}

/// Colours of the array elements from `pos` on, read strictly: only strings,
/// commas and whitespace may appear before `]`; strings that do not read as
/// colours are dropped. `None` for anything else, for an unterminated string
/// and for a missing `]`.
pub open spec fn strict_colors(s: Seq<u8>, pos: int) -> Option<Seq<SkydimoRgb>>
    decreases s.len() - pos,
{
    let p = skip_ascii_ws_spec(s, pos);
    if pos < 0 || pos >= s.len() || p >= s.len() {
        None
    } else if s[p] == 93 {
        Some(Seq::empty())
    } else if s[p] == 44 {
        proof {
            lemma_skip_ascii_ws_bounds(s, pos);
        }
        strict_colors(s, p + 1)
    } else if s[p] == 34 {
        match string_end_from(s, p + 1, false) {
            Some(e) => {
                proof {
                    lemma_skip_ascii_ws_bounds(s, pos);
                    lemma_string_end_from(s, p + 1, false);
                }
                match strict_colors(s, e + 1) {
                    Some(rest) => Some(entry_colors(s.subrange(p + 1, e), None) + rest),
                    None => None,
                }
            },
            None => None,
        }
    } else {
        None
    }
}

/// The colours [`strict_colors`] reads from `pos` on.
pub fn collect_strict_colors(bytes: &[u8], pos: usize) -> (r: Option<Vec<SkydimoRgb>>)
    ensures
        r matches Some(v) ==> strict_colors(bytes@, pos as int) == Some(v@),
        r is None ==> strict_colors(bytes@, pos as int) is None,
{
    let ghost s = bytes@;
    let ghost pos0 = pos as int;
    let mut out: Vec<SkydimoRgb> = Vec::new();
    let mut cur = pos;
    let len = bytes.len();
    while cur < len
        invariant
            len == s.len(),
            s == bytes@,
            pos0 == pos as int,
            strict_colors(s, pos0) == (match strict_colors(s, cur as int) {
                Some(rest) => Some(out@ + rest),
                None => None,
            }),
        decreases len - cur,
    {
        proof {
            lemma_skip_ascii_ws_bounds(s, cur as int);
        }
        let p = skip_ascii_ws(bytes, cur);
        if p >= len {
            assert(strict_colors(s, cur as int) is None);
            return None;
        }
        let b = bytes[p];
        if b == 93 {
            assert(strict_colors(s, cur as int) == Some(Seq::<SkydimoRgb>::empty()));
            assert(out@ + Seq::<SkydimoRgb>::empty() =~= out@);
            return Some(out);
        } else if b == 44 {
            cur = p + 1;
        } else if b == 34 {
            proof {
                lemma_string_end_from(s, p + 1, false);
            }
            match string_end(bytes, p + 1) {
                Some(e) => {
                    let ghost head = entry_colors(s.subrange(p + 1, e as int), None);
                    let ghost before = out@;
                    let body = &bytes[p + 1..e];
                    match parse_compact_hex(body) {
                        Some(c) => out.push(c),
                        None => {},
                    }
                    assert(out@ =~= before + head);
                    proof {
                        if let Some(rest) = strict_colors(s, e + 1) {
                            assert(strict_colors(s, cur as int) == Some(head + rest));
                            assert(before + (head + rest) =~= out@ + rest);
                        }
                    }
                    cur = e + 1;
                },
                None => {
                    return None;
                },
            }
        } else {
            assert(strict_colors(s, cur as int) is None);
            return None;
        }
    }
    None
}

} // verus!
