//! Palette reading and row building of the custom marquee effect.
use vstd::prelude::*;

use crate::hex::{parse_trimmed_hex, parse_trimmed_hex_spec};
use crate::json_bytes::{json_value_start, value_start_spec};
use crate::rgb::{black, SkydimoRgb};
use crate::text::{
    lemma_skip_ascii_ws_bounds, lemma_string_end_from, skip_ascii_ws, skip_ascii_ws_spec,
    string_end, string_end_from,
};

verus! {

/// Most colours one palette keeps.
pub const MAX_COLORS: usize = 100;

/// End of a non-string element: the first `,` or `]` at or after `pos`, or the
/// end of the text.
pub open spec fn scalar_end(s: Seq<u8>, pos: int) -> int
    decreases s.len() - pos,
{
    if 0 <= pos < s.len() && !(s[pos] == 44 || s[pos] == 93) {
        scalar_end(s, pos + 1)
    } else {
        pos
    }
}

pub proof fn lemma_scalar_end(s: Seq<u8>, pos: int)
    ensures
        scalar_end(s, pos) >= pos,
        pos <= s.len() ==> scalar_end(s, pos) <= s.len(),
        0 <= pos < s.len() && !(s[pos] == 44 || s[pos] == 93) ==> scalar_end(s, pos) > pos,
    decreases s.len() - pos,
{
    if 0 <= pos < s.len() && !(s[pos] == 44 || s[pos] == 93) {
        lemma_scalar_end(s, pos + 1);
    }
}

pub fn skip_json_scalar(bytes: &[u8], pos: usize) -> (r: usize)
    ensures
        r == scalar_end(bytes@, pos as int),
{
    let mut p = pos;
    while p < bytes.len() && !(bytes[p] == 44 || bytes[p] == 93)
        invariant
            p >= pos,
            scalar_end(bytes@, p as int) == scalar_end(bytes@, pos as int),
        decreases bytes@.len() - p,
    {
        p += 1;
    }
    p
}

/// Palette entries from `pos` on, `n` colours having been kept already: string
/// elements that read as colours are kept until [`MAX_COLORS`] are held, other
/// strings and non-string elements are skipped; `None` when the text ends
/// before `]` or inside a string.
pub open spec fn palette_walk(s: Seq<u8>, pos: int, n: nat) -> Option<Seq<SkydimoRgb>>
    decreases s.len() - pos,
{
    let p = skip_ascii_ws_spec(s, pos);
    if pos < 0 || p >= s.len() {
        None
    } else if s[p] == 93 {
        Some(Seq::empty())
    } else if s[p] == 44 {
        proof {
            lemma_skip_ascii_ws_bounds(s, pos);
        }
        palette_walk(s, p + 1, n)
    } else if s[p] == 34 {
        match string_end_from(s, p + 1, false) {
            Some(e) => {
                proof {
                    lemma_skip_ascii_ws_bounds(s, pos);
                    lemma_string_end_from(s, p + 1, false);
                }
                match parse_trimmed_hex_spec(s.subrange(p + 1, e)) {
                    Some(c) => if n + 1 >= MAX_COLORS {
                        Some(seq![c])
                    } else {
                        match palette_walk(s, e + 1, n + 1) {
                            Some(rest) => Some(seq![c] + rest),
                            None => None,
                        }
                    },
                    None => palette_walk(s, e + 1, n),
                }
            },
            None => None,
        }
    } else {
        proof {
            lemma_skip_ascii_ws_bounds(s, pos);
            lemma_scalar_end(s, p);
        }
        palette_walk(s, scalar_end(s, p), n)
    }
}

/// The palette held by `key`: its colours (a single black when none read), or
/// `None` when `key` holds no well-terminated array.
pub open spec fn json_palette_spec(s: Seq<u8>, key: Seq<u8>) -> Option<Seq<SkydimoRgb>> {
    match value_start_spec(s, key) {
        Some(p) => if p < s.len() && s[p] == 91 {
            match palette_walk(s, p + 1, 0) {
                Some(c) => Some(
                    if c.len() == 0 {
                        seq![black()]
                    } else {
                        c
                    },
                ),
                None => None,
            }
        } else {
            None
        },
        None => None,
    }
}

pub fn json_palette(bytes: &[u8], key: &[u8]) -> (r: Option<Vec<SkydimoRgb>>)
    ensures
        r matches Some(v) ==> json_palette_spec(bytes@, key@) == Some(v@),
        r is None ==> json_palette_spec(bytes@, key@) is None,
{
    let start = match json_value_start(bytes, key) {
        Some(p) => p,
        None => return None,
    };
    if start >= bytes.len() || bytes[start] != 91 {
        return None;
    }
    let ghost s = bytes@;
    let ghost pos0 = start + 1;
    let len = bytes.len();
    let mut pos = start + 1;
    let mut colors: Vec<SkydimoRgb> = Vec::new();
    loop
        invariant_except_break
            colors@.len() < MAX_COLORS,
            palette_walk(s, pos0, 0) == (match palette_walk(s, pos as int, colors@.len()) {
                Some(rest) => Some(colors@ + rest),
                None => None,
            }),
        invariant
            len == s.len(),
            s == bytes@,
            value_start_spec(s, key@) == Some(start as int),
            start < len,
            s[start as int] == 91,
            pos0 == start + 1,
        ensures
            palette_walk(s, pos0, 0) == Some(colors@),
        decreases len - pos,
    {
        proof {
            lemma_skip_ascii_ws_bounds(s, pos as int);
        }
        let p = skip_ascii_ws(bytes, pos);
        if p >= len {
            assert(palette_walk(s, pos as int, colors@.len()) is None);
            return None;
        }
        let b = bytes[p];
        if b == 93 {
            assert(colors@ + Seq::<SkydimoRgb>::empty() =~= colors@);
            break;
        } else if b == 44 {
            pos = p + 1;
        } else if b == 34 {
            proof {
                lemma_string_end_from(s, p + 1, false);
            }
            let end = match string_end(bytes, p + 1) {
                Some(e) => e,
                None => {
                    assert(palette_walk(s, pos as int, colors@.len()) is None);
                    return None;
                },
            };
            let ghost before = colors@;
            match parse_trimmed_hex(&bytes[p + 1..end]) {
                Some(c) => {
                    colors.push(c);
                    if colors.len() >= MAX_COLORS {
                        assert(before + seq![c] =~= colors@);
                        break;
                    }
                    proof {
                        if let Some(rest) = palette_walk(s, end + 1, colors@.len()) {
                            assert(before + (seq![c] + rest) =~= colors@ + rest);
                        }
                    }
                },
                None => {},
            }
            pos = end + 1;
        } else {
            proof {
                lemma_scalar_end(s, p as int);
            }
            pos = skip_json_scalar(bytes, p);
        }
    }
    if colors.len() == 0 {
        colors.push(SkydimoRgb { r: 0, g: 0, b: 0 });
    }
    Some(colors)
}

pub proof fn lemma_mod_succ(a: int, m: int)
    requires
        a >= 0,
        m > 0,
    ensures
        (a + 1) % m == (if a % m + 1 == m {
            0
        } else {
            a % m + 1
        }),
{
    vstd::arithmetic::div_mod::lemma_add_mod_noop(a, 1, m);
    if m == 1 {
        vstd::arithmetic::div_mod::lemma_mod_self_0(1);
        assert((a + 1) % 1 == 0);
        assert(a % 1 == 0);
    } else {
        vstd::arithmetic::div_mod::lemma_small_mod(1, m as nat);
        vstd::arithmetic::div_mod::lemma_mod_pos_bound(a, m);
        if a % m + 1 == m {
            vstd::arithmetic::div_mod::lemma_mod_self_0(m);
        } else {
            vstd::arithmetic::div_mod::lemma_small_mod((a % m + 1) as nat, m as nat);
        }
    }
}

/// One row of `width` pixels walking the palette from entry `shift` onward,
/// wrapping around.
pub fn marquee_row(palette: &[SkydimoRgb], shift: usize, width: usize) -> (row: Vec<SkydimoRgb>)
    requires
        shift < palette@.len(),
    ensures
        row@.len() == width,
        forall|i: int|
            0 <= i < width ==> row@[i] == palette@[(shift + i) % (palette@.len() as int)],
{
    let count = palette.len();
    let mut row: Vec<SkydimoRgb> = Vec::new();
    let mut source = shift;
    let mut i: usize = 0;
    proof {
        vstd::arithmetic::div_mod::lemma_small_mod(shift as nat, count as nat);
    }
    while i < width
        invariant
            count == palette@.len(),
            shift < count,
            i <= width,
            row@.len() == i,
            source < count,
            source as int == (shift + i) % (count as int),
            forall|j: int| 0 <= j < i ==> row@[j] == palette@[(shift + j) % (count as int)],
        decreases width - i,
    {
        row.push(palette[source]);
        proof {
            lemma_mod_succ(shift + i, count as int);
        }
        source = if source + 1 == count { 0 } else { source + 1 };
        i += 1;
    }
    row
}

} // verus!
