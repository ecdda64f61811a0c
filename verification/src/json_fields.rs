//! Whole-value lookups in a JSON parameter text: the value of a key is cut out
//! as a slice (a quoted string with its quotes, a bracketed array, or a bare
//! word) and then interpreted.
use vstd::prelude::*;

use crate::hex::{parse_unicode_trimmed_hex, parse_unicode_trimmed_hex_spec};
use crate::json_text::{
    is_number_byte, json_value_after_key, lemma_number_run_end, number_prefix, number_run_end,
    value_after_key_spec,
};
use crate::rgb::SkydimoRgb;
use crate::text::{
    lemma_string_end_from, slice_equals, string_end, string_end_from, trim_unicode,
    trim_unicode_spec,
};

verus! {

/// End (just past the closing quote) of a quoted value whose opening quote is
/// at 0, scanning from `i`; a backslash skips the byte after it.
pub open spec fn quoted_end_from(s: Seq<u8>, i: int) -> Option<int>
    decreases s.len() + 2 - i,
{
    if i < 0 || i >= s.len() {
        None
    } else if s[i] == 92 {
        quoted_end_from(s, i + 2)
    } else if s[i] == 34 {
        Some(i + 1)
    } else {
        quoted_end_from(s, i + 1)
    }
}

pub proof fn lemma_quoted_end_from(s: Seq<u8>, i: int)
    requires
        i >= 0,
    ensures
        quoted_end_from(s, i) matches Some(e) ==> i < e <= s.len(),
    decreases s.len() + 2 - i,
{
    if i < s.len() {
        if s[i] == 92 {
            lemma_quoted_end_from(s, i + 2);
        } else if s[i] != 34 {
            lemma_quoted_end_from(s, i + 1);
        }
    }
}

pub fn quoted_end(raw: &[u8]) -> (r: Option<usize>)
    ensures
        r matches Some(e) ==> quoted_end_from(raw@, 1) == Some(e as int) && e <= raw@.len(),
        r is None ==> quoted_end_from(raw@, 1) is None,
{
    proof {
        lemma_quoted_end_from(raw@, 1);
    }
    let len = raw.len();
    let mut i: usize = 1;
    while i < len
        invariant
            len == raw@.len(),
            i >= 1,
            quoted_end_from(raw@, i as int) == quoted_end_from(raw@, 1),
        decreases len - i,
    {
        if raw[i] == 92 {
            if len - i < 2 {
                assert(quoted_end_from(raw@, i + 2) is None);
                return None;
            }
            i += 2;
        } else if raw[i] == 34 {
            return Some(i + 1);
        } else {
            i += 1;
        }
    }
    None
}

/// End (just past the bracket that closes the first one) of a bracketed value,
/// scanning from `i` with the given nesting depth and string state.
pub open spec fn bracket_end_from(s: Seq<u8>, i: int, depth: nat, in_string: bool) -> Option<int>
    decreases s.len() + 2 - i,
{
    if i < 0 || i >= s.len() {
        None
    } else if s[i] == 92 && in_string {
        bracket_end_from(s, i + 2, depth, in_string)
    } else if s[i] == 34 {
        bracket_end_from(s, i + 1, depth, !in_string)
    } else if s[i] == 91 && !in_string {
        bracket_end_from(s, i + 1, depth + 1, in_string)
    } else if s[i] == 93 && !in_string {
        let d: nat = if depth > 0 {
            (depth - 1) as nat
        } else {
            0
        };
        if d == 0 {
            Some(i + 1)
        } else {
            bracket_end_from(s, i + 1, d, in_string)
        }
    } else {
        bracket_end_from(s, i + 1, depth, in_string)
    }
}

pub proof fn lemma_bracket_end_from(s: Seq<u8>, i: int, depth: nat, in_string: bool)
    requires
        i >= 0,
    ensures
        bracket_end_from(s, i, depth, in_string) matches Some(e) ==> i < e <= s.len(),
    decreases s.len() + 2 - i,
{
    if i < s.len() {
        if s[i] == 92 && in_string {
            lemma_bracket_end_from(s, i + 2, depth, in_string);
        } else if s[i] == 34 {
            lemma_bracket_end_from(s, i + 1, depth, !in_string);
        } else if s[i] == 91 && !in_string {
            lemma_bracket_end_from(s, i + 1, depth + 1, in_string);
        } else if s[i] == 93 && !in_string {
            let d: nat = if depth > 0 {
                (depth - 1) as nat
            } else {
                0
            };
            if d != 0 {
                lemma_bracket_end_from(s, i + 1, d, in_string);
            }
        } else {
            lemma_bracket_end_from(s, i + 1, depth, in_string);
        }
    }
}

pub fn bracket_end(raw: &[u8]) -> (r: Option<usize>)
    ensures
        r matches Some(e) ==> bracket_end_from(raw@, 0, 0, false) == Some(e as int) && e
            <= raw@.len(),
        r is None ==> bracket_end_from(raw@, 0, 0, false) is None,
{
    proof {
        lemma_bracket_end_from(raw@, 0, 0, false);
    }
    let len = raw.len();
    let mut depth: usize = 0;
    let mut in_string = false;
    let mut i: usize = 0;
    while i < len
        invariant
            len == raw@.len(),
            depth <= i,
            bracket_end_from(raw@, i as int, depth as nat, in_string) == bracket_end_from(
                raw@,
                0,
                0,
                false,
            ),
        decreases len - i,
    {
        let b = raw[i];
        if b == 92 && in_string {
            if len - i < 2 {
                assert(bracket_end_from(raw@, i + 2, depth as nat, in_string) is None);
                return None;
            }
            i += 2;
        } else if b == 34 {
            in_string = !in_string;
            i += 1;
        } else if b == 91 && !in_string {
            depth += 1;
            i += 1;
        } else if b == 93 && !in_string {
            depth = if depth > 0 { depth - 1 } else { 0 };
            i += 1;
            if depth == 0 {
                return Some(i);
            }
        } else {
            i += 1;
        }
    }
    None
}

/// Bytes of a bare value: ASCII letters and digits, `-`, `+` and `.`.
pub open spec fn is_word_byte(b: u8) -> bool {
    (48 <= b <= 57) || (65 <= b <= 90) || (97 <= b <= 122) || b == 45 || b == 43 || b == 46
}

pub open spec fn word_end_from(s: Seq<u8>, i: int) -> int
    decreases s.len() - i,
{
    if 0 <= i < s.len() && is_word_byte(s[i]) {
        word_end_from(s, i + 1)
    } else {
        i
    }
}

pub proof fn lemma_word_end_bounds(s: Seq<u8>, i: int)
    ensures
        word_end_from(s, i) >= i,
        i <= s.len() ==> word_end_from(s, i) <= s.len(),
    decreases s.len() - i,
{
    if 0 <= i < s.len() && is_word_byte(s[i]) {
        lemma_word_end_bounds(s, i + 1);
    }
}

pub fn word_end(raw: &[u8], pos: usize) -> (r: usize)
    ensures
        r == word_end_from(raw@, pos as int),
{
    let mut i = pos;
    while i < raw.len() && ((raw[i] >= 48 && raw[i] <= 57) || (raw[i] >= 65 && raw[i] <= 90) || (
    raw[i] >= 97 && raw[i] <= 122) || raw[i] == 45 || raw[i] == 43 || raw[i] == 46)
        invariant
            i >= pos,
            word_end_from(raw@, i as int) == word_end_from(raw@, pos as int),
        decreases raw@.len() - i,
    {
        i += 1;
    }
    i
}

/// The value of `key`, cut out and trimmed: a quoted value with its quotes, a
/// bracketed value with its brackets, or the bare word that starts the value.
pub open spec fn value_slice_spec(s: Seq<u8>, key: Seq<u8>) -> Option<Seq<u8>> {
    match value_after_key_spec(s, key) {
        Some(v) => if v.len() > 0 && v[0] == 34 {
            match quoted_end_from(v, 1) {
                Some(e) => Some(trim_unicode_spec(v.subrange(0, e))),
                None => None,
            }
        } else if v.len() > 0 && v[0] == 91 {
            match bracket_end_from(v, 0, 0, false) {
                Some(e) => Some(trim_unicode_spec(v.subrange(0, e))),
                None => None,
            }
        } else {
            Some(trim_unicode_spec(v.subrange(0, word_end_from(v, 0))))
        },
        None => None,
    }
}

pub fn value_slice<'a>(json: &'a [u8], key: &[u8]) -> (r: Option<&'a [u8]>)
    ensures
        r matches Some(v) ==> value_slice_spec(json@, key@) == Some(v@),
        r is None ==> value_slice_spec(json@, key@) is None,
{
    let raw = match json_value_after_key(json, key) {
        Some(v) => v,
        None => return None,
    };
    if raw.len() > 0 && raw[0] == 34 {
        match quoted_end(raw) {
            Some(e) => Some(trim_unicode(&raw[0..e])),
            None => None,
        }
    } else if raw.len() > 0 && raw[0] == 91 {
        match bracket_end(raw) {
            Some(e) => Some(trim_unicode(&raw[0..e])),
            None => None,
        }
    } else {
        let e = word_end(raw, 0);
        proof {
            lemma_word_end_bounds(raw@, 0);
        }
        Some(trim_unicode(&raw[0..e]))
    }
}

/// `true` for a value of `true` or `1`, `false` for `false` or `0`.
pub open spec fn bool_field_spec(s: Seq<u8>, key: Seq<u8>) -> Option<bool> {
    match value_slice_spec(s, key) {
        Some(v) => if v == seq![116u8, 114u8, 117u8, 101u8] || v == seq![49u8] {
            Some(true)
        } else if v == seq![102u8, 97u8, 108u8, 115u8, 101u8] || v == seq![48u8] {
            Some(false)
        } else {
            None
        },
        None => None,
    }
}

pub fn bool_field(json: &[u8], key: &[u8]) -> (r: Option<bool>)
    ensures
        r == bool_field_spec(json@, key@),
{
    let v = match value_slice(json, key) {
        Some(v) => v,
        None => return None,
    };
    let t: [u8; 4] = [116, 114, 117, 101];
    let one: [u8; 1] = [49];
    let f: [u8; 5] = [102, 97, 108, 115, 101];
    let zero: [u8; 1] = [48];
    assert(t@ == seq![116u8, 114u8, 117u8, 101u8]);
    assert(one@ == seq![49u8]);
    assert(f@ == seq![102u8, 97u8, 108u8, 115u8, 101u8]);
    assert(zero@ == seq![48u8]);
    if slice_equals(v, t.as_slice()) || slice_equals(v, one.as_slice()) {
        Some(true)
    } else if slice_equals(v, f.as_slice()) || slice_equals(v, zero.as_slice()) {
        Some(false)
    } else {
        None
    }
}

/// Character a JSON escape stands for (`\n`, `\t`, ...); any other escaped
/// character stands for itself.
pub open spec fn unescape_byte(b: u8) -> u8 {
    if b == 98 {
        8
    } else if b == 102 {
        12
    } else if b == 110 {
        10
    } else if b == 114 {
        13
    } else if b == 116 {
        9
    } else {
        b
    }
}

/// Characters of a quoted string from `i` on up to the closing quote, escapes
/// resolved; `None` when no closing quote follows.
pub open spec fn unquote_from(s: Seq<u8>, i: int) -> Option<Seq<u8>>
    decreases s.len() - i,
{
    if i < 0 || i >= s.len() {
        None
    } else if s[i] == 92 && i + 1 < s.len() {
        match unquote_from(s, i + 2) {
            Some(rest) => Some(seq![unescape_byte(s[i + 1])] + rest),
            None => None,
        }
    } else if s[i] == 34 {
        Some(Seq::empty())
    } else {
        match unquote_from(s, i + 1) {
            Some(rest) => Some(seq![s[i]] + rest),
            None => None,
        }
    }
}

/// The characters of the quoted string that starts `raw`. Each entry is a
/// character code below 256 (one per byte of the text).
pub open spec fn unquote_spec(raw: Seq<u8>) -> Option<Seq<u8>> {
    if raw.len() > 0 && raw[0] == 34 {
        unquote_from(raw, 1)
    } else {
        None
    }
}

pub fn unquote_json_string(raw: &[u8]) -> (r: Option<Vec<u8>>)
    ensures
        r matches Some(v) ==> unquote_spec(raw@) == Some(v@),
        r is None ==> unquote_spec(raw@) is None,
{
    if raw.len() == 0 || raw[0] != 34 {
        return None;
    }
    let ghost s = raw@;
    let len = raw.len();
    let mut out: Vec<u8> = Vec::new();
    let mut i: usize = 1;
    while i < len
        invariant
            len == s.len(),
            s == raw@,
            s.len() > 0 && s[0] == 34,
            i >= 1,
            unquote_from(s, 1) == (match unquote_from(s, i as int) {
                Some(rest) => Some(out@ + rest),
                None => None,
            }),
        decreases len - i,
    {
        let ghost before = out@;
        let b = raw[i];
        if b == 92 && i + 1 < len {
            let e = raw[i + 1];
            let c: u8 = if e == 98 {
                8
            } else if e == 102 {
                12
            } else if e == 110 {
                10
            } else if e == 114 {
                13
            } else if e == 116 {
                9
            } else {
                e
            };
            out.push(c);
            proof {
                if let Some(rest) = unquote_from(s, i + 2) {
                    assert(before + (seq![c] + rest) =~= out@ + rest);
                }
            }
            i += 2;
        } else if b == 34 {
            assert(out@ + Seq::<u8>::empty() =~= out@);
            return Some(out);
        } else {
            out.push(b);
            proof {
                if let Some(rest) = unquote_from(s, i + 1) {
                    assert(before + (seq![b] + rest) =~= out@ + rest);
                }
            }
            i += 1;
        }
    }
    None
}

/// The value of `key` as text: a quoted value unquoted, any other value as cut
/// out by [`value_slice_spec`]. Entries are character codes below 256.
pub open spec fn string_field_spec(s: Seq<u8>, key: Seq<u8>) -> Option<Seq<u8>> {
    match value_slice_spec(s, key) {
        Some(v) => if v.len() > 0 && v[0] == 34 {
            unquote_spec(v)
        } else {
            Some(v)
        },
        None => None,
    }
}

pub fn string_field(json: &[u8], key: &[u8]) -> (r: Option<Vec<u8>>)
    ensures
        r matches Some(v) ==> string_field_spec(json@, key@) == Some(v@),
        r is None ==> string_field_spec(json@, key@) is None,
{
    let raw = match value_slice(json, key) {
        Some(v) => v,
        None => return None,
    };
    if raw.len() > 0 && raw[0] == 34 {
        return unquote_json_string(raw);
    }
    let mut out: Vec<u8> = Vec::new();
    let mut i: usize = 0;
    while i < raw.len()
        invariant
            i <= raw@.len(),
            out@ == raw@.subrange(0, i as int),
        decreases raw@.len() - i,
    {
        out.push(raw[i]);
        assert(out@ =~= raw@.subrange(0, i + 1));
        i += 1;
    }
    assert(raw@.subrange(0, raw@.len() as int) =~= raw@);
    Some(out)
}

/// A character that `str::trim` removes from a string whose characters are all
/// below 256.
pub open spec fn is_latin1_ws(c: u8) -> bool {
    (9 <= c <= 13) || c == 32 || c == 0x85 || c == 0xA0
}

pub open spec fn all_latin1_ws(v: Seq<u8>) -> bool {
    forall|k: int| 0 <= k < v.len() ==> is_latin1_ws(#[trigger] v[k])
}

/// Separators skipped between array elements: space, line feed, carriage
/// return, tab and comma.
pub open spec fn is_list_sep(b: u8) -> bool {
    b == 32 || b == 10 || b == 13 || b == 9 || b == 44
}

pub open spec fn skip_list_sep_from(s: Seq<u8>, i: int) -> int
    decreases s.len() - i,
{
    if 0 <= i < s.len() && is_list_sep(s[i]) {
        skip_list_sep_from(s, i + 1)
    } else {
        i
    }
}

pub proof fn lemma_skip_list_sep_bounds(s: Seq<u8>, i: int)
    ensures
        skip_list_sep_from(s, i) >= i,
        i <= s.len() ==> skip_list_sep_from(s, i) <= s.len(),
    decreases s.len() - i,
{
    if 0 <= i < s.len() && is_list_sep(s[i]) {
        lemma_skip_list_sep_bounds(s, i + 1);
    }
}

/// A string element read from `i` (just past its opening quote): a backslash
/// keeps the byte after it as it is, the closing quote ends it, and the text's
/// end ends it too. Gives the characters and where reading resumes.
pub open spec fn read_element(s: Seq<u8>, i: int) -> (Seq<u8>, int)
    decreases s.len() - i,
{
    if i < 0 || i >= s.len() {
        (Seq::empty(), i)
    } else if s[i] == 92 && i + 1 < s.len() {
        let r = read_element(s, i + 2);
        (seq![s[i + 1]] + r.0, r.1)
    } else if s[i] == 34 {
        (Seq::empty(), i + 1)
    } else {
        let r = read_element(s, i + 1);
        (seq![s[i]] + r.0, r.1)
    }
}

pub proof fn lemma_read_element(s: Seq<u8>, i: int)
    requires
        0 <= i,
    ensures
        read_element(s, i).1 >= i,
        i < s.len() ==> read_element(s, i).1 > i,
        i <= s.len() ==> read_element(s, i).1 <= s.len(),
    decreases s.len() - i,
{
    if i < s.len() {
        if s[i] == 92 && i + 1 < s.len() {
            lemma_read_element(s, i + 2);
        } else if s[i] != 34 {
            lemma_read_element(s, i + 1);
        }
    }
}

/// Elements of a string array from `i` on: whether the walk ended well (at `]`
/// or the end of the text, rather than at a non-string element) and the
/// strings that are not all whitespace, in order.
pub open spec fn string_array_walk(s: Seq<u8>, i: int) -> (bool, Seq<Seq<u8>>)
    decreases s.len() - i,
{
    let j = skip_list_sep_from(s, i);
    if i < 0 || j >= s.len() || s[j] == 93 {
        (true, Seq::empty())
    } else if s[j] != 34 {
        (false, Seq::empty())
    } else {
        proof {
            lemma_skip_list_sep_bounds(s, i);
            lemma_read_element(s, j + 1);
        }
        let (value, next) = read_element(s, j + 1);
        let rest = string_array_walk(s, next);
        (rest.0, if all_latin1_ws(value) {
            rest.1
        } else {
            seq![value] + rest.1
        })
    }
}

pub open spec fn string_array_field_spec(s: Seq<u8>, key: Seq<u8>) -> Option<(bool, Seq<Seq<u8>>)> {
    match value_slice_spec(s, key) {
        Some(v) => if v.len() > 0 && v[0] == 91 {
            Some(string_array_walk(v, 1))
        } else {
            None
        },
        None => None,
    }
}

fn read_element_exec(raw: &[u8], i: usize) -> (r: (Vec<u8>, usize))
    requires
        i <= raw@.len(),
    ensures
        r.0@ == read_element(raw@, i as int).0,
        r.1 == read_element(raw@, i as int).1,
{
    let ghost s = raw@;
    let len = raw.len();
    let mut out: Vec<u8> = Vec::new();
    let mut k = i;
    while k < len
        invariant
            len == s.len(),
            s == raw@,
            i <= k <= len,
            read_element(s, i as int).0 == out@ + read_element(s, k as int).0,
            read_element(s, i as int).1 == read_element(s, k as int).1,
        decreases len - k,
    {
        let ghost before = out@;
        let b = raw[k];
        if b == 92 && k + 1 < len {
            out.push(raw[k + 1]);
            assert(before + (seq![s[k + 1]] + read_element(s, k + 2).0) =~= out@ + read_element(
                s,
                k + 2,
            ).0);
            k += 2;
        } else if b == 34 {
            assert(out@ + Seq::<u8>::empty() =~= out@);
            return (out, k + 1);
        } else {
            out.push(b);
            assert(before + (seq![b] + read_element(s, k + 1).0) =~= out@ + read_element(
                s,
                k + 1,
            ).0);
            k += 1;
        }
    }
    assert(out@ + Seq::<u8>::empty() =~= out@);
    (out, k)
}

fn is_all_latin1_ws(v: &[u8]) -> (r: bool)
    ensures
        r == all_latin1_ws(v@),
{
    let mut k: usize = 0;
    while k < v.len()
        invariant
            k <= v@.len(),
            forall|j: int| 0 <= j < k ==> is_latin1_ws(#[trigger] v@[j]),
        decreases v@.len() - k,
    {
        let c = v[k];
        if !((c >= 9 && c <= 13) || c == 32 || c == 0x85 || c == 0xA0) {
            return false;
        }
        k += 1;
    }
    true
}

/// Fills `out` with the strings of the array value of `key` (escapes reduced
/// to the escaped character; all-whitespace strings dropped). `false` when the
/// value is missing or not an array (then `out` is untouched) or when a
/// non-string element is met (then `out` holds the strings read before it).
pub fn string_array_field(json: &[u8], key: &[u8], out: &mut Vec<Vec<u8>>) -> (found: bool)
    ensures
        string_array_field_spec(json@, key@) is None ==> !found && final(out)@ == old(out)@,
        string_array_field_spec(json@, key@) matches Some((ok, strings)) ==> found == ok
            && final(out)@.len() == strings.len() && forall|k: int|
            0 <= k < strings.len() ==> #[trigger] final(out)@[k]@ == strings[k],
{
    let raw = match value_slice(json, key) {
        Some(v) => v,
        None => return false,
    };
    if raw.len() == 0 || raw[0] != 91 {
        return false;
    }
    out.clear();
    let ghost s = raw@;
    let ghost spec_val = string_array_field_spec(json@, key@);
    assert(spec_val == Some(string_array_walk(s, 1)));
    let len = raw.len();
    let mut i: usize = 1;
    let ghost mut acc: Seq<Seq<u8>> = Seq::empty();
    while i < len
        invariant
            len == s.len(),
            s == raw@,
            spec_val == Some(string_array_walk(s, 1)),
            spec_val == string_array_field_spec(json@, key@),
            i <= len,
            out@.len() == acc.len(),
            forall|k: int| 0 <= k < acc.len() ==> #[trigger] out@[k]@ == acc[k],
            string_array_walk(s, 1) == (string_array_walk(s, i as int).0, acc + string_array_walk(
                s,
                i as int,
            ).1),
        decreases len - i,
    {
        proof {
            lemma_skip_list_sep_bounds(s, i as int);
        }
        let mut j = i;
        while j < len && (raw[j] == 32 || raw[j] == 10 || raw[j] == 13 || raw[j] == 9 || raw[j]
            == 44)
            invariant
                len == s.len(),
                s == raw@,
                i <= j,
                skip_list_sep_from(s, j as int) == skip_list_sep_from(s, i as int),
            decreases len - j,
        {
            j += 1;
        }
        if j >= len || raw[j] == 93 {
            assert(acc + Seq::<Seq<u8>>::empty() =~= acc);
            return true;
        }
        if raw[j] != 34 {
            assert(acc + Seq::<Seq<u8>>::empty() =~= acc);
            return false;
        }
        proof {
            lemma_read_element(s, j + 1);
        }
        let (value, next) = read_element_exec(raw, j + 1);
        let ghost rest = string_array_walk(s, next as int);
        if !is_all_latin1_ws(value.as_slice()) {
            let ghost old_acc = acc;
            out.push(value);
            proof {
                acc = acc.push(value@);
                assert(old_acc + (seq![value@] + rest.1) =~= acc + rest.1);
            }
        }
        i = next;
    }
    assert(acc + Seq::<Seq<u8>>::empty() =~= acc);
    true
}

/// The first two colours among the string elements of the array value of
/// `key`, read from `i` on (just past `[`); strings that do not read as colours
/// are skipped, and a `]` before the second colour gives `None`.
pub open spec fn pair_walk(s: Seq<u8>, i: int, first: Option<SkydimoRgb>) -> Option<
    (SkydimoRgb, SkydimoRgb),
>
    decreases s.len() - i,
{
    if i < 0 || i >= s.len() {
        None
    } else if s[i] == 93 {
        None
    } else if s[i] != 34 {
        pair_walk(s, i + 1, first)
    } else {
        match string_end_from(s, i + 1, false) {
            Some(e) => {
                proof {
                    lemma_string_end_from(s, i + 1, false);
                }
                match parse_unicode_trimmed_hex_spec(s.subrange(i + 1, e)) {
                    Some(c) => match first {
                        Some(f) => Some((f, c)),
                        None => pair_walk(s, e + 1, Some(c)),
                    },
                    None => pair_walk(s, e + 1, first),
                }
            },
            None => None,
        }
    }
}

pub open spec fn color_pair_field_spec(s: Seq<u8>, key: Seq<u8>) -> Option<
    (SkydimoRgb, SkydimoRgb),
> {
    match value_slice_spec(s, key) {
        Some(v) => if v.len() > 0 && v[0] == 91 {
            pair_walk(v, 1, None)
        } else {
            None
        },
        None => None,
    }
}

pub fn color_pair_field(json: &[u8], key: &[u8]) -> (r: Option<[SkydimoRgb; 2]>)
    ensures
        r matches Some(p) ==> color_pair_field_spec(json@, key@) == Some((p@[0], p@[1])),
        r is None ==> color_pair_field_spec(json@, key@) is None,
{
    let raw = match value_slice(json, key) {
        Some(v) => v,
        None => return None,
    };
    if raw.len() == 0 || raw[0] != 91 {
        return None;
    }
    let ghost s = raw@;
    let ghost spec_val = color_pair_field_spec(json@, key@);
    assert(spec_val == pair_walk(s, 1, None));
    let len = raw.len();
    let mut first: Option<SkydimoRgb> = None;
    let mut i: usize = 1;
    while i < len
        invariant
            len == s.len(),
            s == raw@,
            spec_val == pair_walk(s, 1, None),
            spec_val == color_pair_field_spec(json@, key@),
            i >= 1,
            pair_walk(s, 1, None) == pair_walk(s, i as int, first),
        decreases len - i,
    {
        let b = raw[i];
        if b == 93 {
            return None;
        }
        if b != 34 {
            i += 1;
            continue;
        }
        proof {
            lemma_string_end_from(s, i + 1, false);
        }
        let e = match string_end(raw, i + 1) {
            Some(e) => e,
            None => return None,
        };
        match parse_unicode_trimmed_hex(&raw[i + 1..e]) {
            Some(c) => match first {
                Some(f) => {
                    let pair = [f, c];
                    assert(pair@[0] == f && pair@[1] == c);
                    return Some(pair);
                },
                None => {
                    first = Some(c);
                },
            },
            None => {},
        }
        i = e + 1;
    }
    None
}

/// The number texts of an array from `i` on: separators are skipped, `]` or the
/// end of the text ends the array, and an element that does not start with a
/// number character rejects the whole array (`None`).
pub open spec fn number_array_walk(s: Seq<u8>, i: int) -> Option<Seq<Seq<u8>>>
    decreases s.len() - i,
{
    let j = skip_list_sep_from(s, i);
    if i < 0 || j >= s.len() || s[j] == 93 {
        Some(Seq::empty())
    } else {
        let e = number_run_end(s, j);
        if e <= j {
            None
        } else {
            proof {
                lemma_skip_list_sep_bounds(s, i);
                lemma_number_run_end(s, j);
            }
            match number_array_walk(s, e) {
                Some(rest) => Some(seq![s.subrange(j, e)] + rest),
                None => None,
            }
        }
    }
}

/// The number texts of the array value of `key`; `None` when the value is not
/// an array or an element is not a number text.
pub open spec fn number_array_spec(s: Seq<u8>, key: Seq<u8>) -> Option<Seq<Seq<u8>>> {
    match value_slice_spec(s, key) {
        Some(v) => if v.len() > 0 && v[0] == 91 {
            number_array_walk(v, 1)
        } else {
            None
        },
        None => None,
    }
}

/// The number texts of an array parameter, in order (the caller parses them).
pub fn number_array_items<'a>(json: &'a [u8], key: &[u8]) -> (r: Option<Vec<&'a [u8]>>)
    ensures
        r matches Some(items) ==> number_array_spec(json@, key@) matches Some(texts) && items@.len()
            == texts.len() && forall|k: int| 0 <= k < texts.len() ==> #[trigger] items@[k]@
            == texts[k],
        r is None ==> number_array_spec(json@, key@) is None,
{
    let raw = match value_slice(json, key) {
        Some(v) => v,
        None => return None,
    };
    if raw.len() == 0 || raw[0] != 91 {
        return None;
    }
    let ghost s = raw@;
    let len = raw.len();
    let mut items: Vec<&'a [u8]> = Vec::new();
    let mut i: usize = 1;
    let ghost mut done: Seq<Seq<u8>> = Seq::empty();
    loop
        invariant
            s == raw@,
            value_slice_spec(json@, key@) == Some(s),
            s.len() > 0 && s[0] == 91,
            len == s.len(),
            1 <= i <= len,
            items@.len() == done.len(),
            forall|k: int| 0 <= k < done.len() ==> #[trigger] items@[k]@ == done[k],
            number_array_walk(s, 1) == (match number_array_walk(s, i as int) {
                Some(rest) => Some(done + rest),
                None => None::<Seq<Seq<u8>>>,
            }),
        ensures
            1 <= i <= len,
            items@.len() == done.len(),
            forall|k: int| 0 <= k < done.len() ==> #[trigger] items@[k]@ == done[k],
            number_array_walk(s, 1) == Some(done),
        decreases len - i,
    {
        proof {
            lemma_skip_list_sep_bounds(s, i as int);
        }
        let mut j = i;
        while j < len && (raw[j] == 32 || raw[j] == 10 || raw[j] == 13 || raw[j] == 9 || raw[j]
            == 44)
            invariant
                s == raw@,
                len == s.len(),
                i <= j <= len,
                skip_list_sep_from(s, j as int) == skip_list_sep_from(s, i as int),
            decreases len - j,
        {
            j += 1;
        }
        assert(skip_list_sep_from(s, j as int) == j);
        if j >= len || raw[j] == 93 {
            assert(done + Seq::<Seq<u8>>::empty() =~= done);
            break;
        }
        proof {
            lemma_number_run_end(s, j as int);
        }
        let text = number_prefix(&raw[j..len]);
        let ghost tail = s.subrange(j as int, len as int);
        proof {
            lemma_number_run_prefix(s, j as int, 0);
        }
        let e = j + text.len();
        assert(e as int == number_run_end(s, j as int));
        if e == j {
            assert(skip_list_sep_from(s, i as int) == j);
            assert(number_array_walk(s, i as int) is None);
            return None;
        }
        assert(text@ =~= s.subrange(j as int, e as int));
        proof {
            let nd = done.push(text@);
            assert(forall|rest: Seq<Seq<u8>>| #[trigger] (nd + rest) =~= done + (seq![text@] + rest));
            done = nd;
        }
        items.push(text);
        i = e;
    }
    Some(items)
}

/// The run of number characters at `j` of `s` is the run at the start of `s[j..]`.
proof fn lemma_number_run_prefix(s: Seq<u8>, j: int, k: int)
    requires
        0 <= j <= s.len(),
        0 <= k <= s.len() - j,
    ensures
        number_run_end(s.subrange(j, s.len() as int), k) + j == number_run_end(s, j + k),
    decreases s.len() - j - k,
{
    let t = s.subrange(j, s.len() as int);
    if k < t.len() && is_number_byte(t[k]) {
        lemma_number_run_prefix(s, j, k + 1);
    }
}

} // verus!
