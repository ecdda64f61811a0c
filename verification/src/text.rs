use vstd::prelude::*;

verus! {

/// `u8::is_ascii_whitespace`: tab, line feed, form feed, carriage return, space.
pub open spec fn is_ascii_ws(b: u8) -> bool {
    b == 9 || b == 10 || b == 12 || b == 13 || b == 32
}

/// The four whitespace bytes of JSON: space, tab, line feed, carriage return.
pub open spec fn is_json_ws(b: u8) -> bool {
    b == 9 || b == 10 || b == 13 || b == 32
}

pub fn is_ascii_whitespace(b: u8) -> (r: bool)
    ensures
        r == is_ascii_ws(b),
{
    b == 9 || b == 10 || b == 12 || b == 13 || b == 32
}

/// Width in bytes of the UTF-8 encoded Unicode whitespace character (as
/// `char::is_whitespace` defines it) that starts `s`, or 0.
pub open spec fn uni_ws_prefix_len(s: Seq<u8>) -> int {
    if s.len() >= 1 && ((9 <= s[0] <= 13) || s[0] == 32) {
        1
    } else if s.len() >= 2 && s[0] == 0xC2 && (s[1] == 0x85 || s[1] == 0xA0) {
        2
    } else if s.len() >= 3 && ((s[0] == 0xE1 && s[1] == 0x9A && s[2] == 0x80) || (s[0] == 0xE2
        && s[1] == 0x80 && ((0x80 <= s[2] <= 0x8A) || s[2] == 0xA8 || s[2] == 0xA9 || s[2]
        == 0xAF)) || (s[0] == 0xE2 && s[1] == 0x81 && s[2] == 0x9F) || (s[0] == 0xE3 && s[1]
        == 0x80 && s[2] == 0x80)) {
        3
    } else {
        0
    }
}

/// Width of the Unicode whitespace character that ends `s`, or 0.
pub open spec fn uni_ws_suffix_len(s: Seq<u8>) -> int {
    let n = s.len() as int;
    if n >= 1 && ((9 <= s[n - 1] <= 13) || s[n - 1] == 32) {
        1
    } else if n >= 2 && s[n - 2] == 0xC2 && (s[n - 1] == 0x85 || s[n - 1] == 0xA0) {
        2
    } else if n >= 3 && uni_ws_prefix_len(s.subrange(n - 3, n)) == 3 {
        3
    } else {
        0
    }
}

pub open spec fn trim_ascii_start_spec(s: Seq<u8>) -> Seq<u8>
    decreases s.len(),
{
    if s.len() > 0 && is_ascii_ws(s[0]) {
        trim_ascii_start_spec(s.drop_first())
    } else {
        s
    }
}

pub open spec fn trim_ascii_end_spec(s: Seq<u8>) -> Seq<u8>
    decreases s.len(),
{
    if s.len() > 0 && is_ascii_ws(s.last()) {
        trim_ascii_end_spec(s.drop_last())
    } else {
        s
    }
}

/// `<[u8]>::trim_ascii`.
pub open spec fn trim_ascii_spec(s: Seq<u8>) -> Seq<u8> {
    trim_ascii_end_spec(trim_ascii_start_spec(s))
}

/// `str::trim_start` on UTF-8 bytes.
pub open spec fn trim_unicode_start_spec(s: Seq<u8>) -> Seq<u8>
    decreases s.len(),
{
    let w = uni_ws_prefix_len(s);
    if w > 0 {
        trim_unicode_start_spec(s.subrange(w, s.len() as int))
    } else {
        s
    }
}

pub proof fn lemma_trim_unicode_start_len(s: Seq<u8>)
    ensures
        trim_unicode_start_spec(s).len() <= s.len(),
    decreases s.len(),
{
    let w = uni_ws_prefix_len(s);
    if w > 0 {
        lemma_trim_unicode_start_len(s.subrange(w, s.len() as int));
    }
}

/// `str::trim_end` on UTF-8 bytes.
pub open spec fn trim_unicode_end_spec(s: Seq<u8>) -> Seq<u8>
    decreases s.len(),
{
    let w = uni_ws_suffix_len(s);
    if w > 0 {
        trim_unicode_end_spec(s.subrange(0, s.len() - w))
    } else {
        s
    }
}

/// `str::trim` on UTF-8 bytes.
pub open spec fn trim_unicode_spec(s: Seq<u8>) -> Seq<u8> {
    trim_unicode_end_spec(trim_unicode_start_spec(s))
}

/// Index of the first byte at or after `pos` that is not ASCII whitespace
/// (`pos` itself when `pos` is past the end).
pub open spec fn skip_ascii_ws_spec(s: Seq<u8>, pos: int) -> int
    decreases s.len() - pos,
{
    if 0 <= pos < s.len() && is_ascii_ws(s[pos]) {
        skip_ascii_ws_spec(s, pos + 1)
    } else {
        pos
    }
}

/// As [`skip_ascii_ws_spec`] for the four JSON whitespace bytes.
pub open spec fn skip_json_ws_spec(s: Seq<u8>, pos: int) -> int
    decreases s.len() - pos,
{
    if 0 <= pos < s.len() && is_json_ws(s[pos]) {
        skip_json_ws_spec(s, pos + 1)
    } else {
        pos
    }
}

pub proof fn lemma_skip_ascii_ws_bounds(s: Seq<u8>, pos: int)
    ensures
        skip_ascii_ws_spec(s, pos) >= pos,
        pos <= s.len() ==> skip_ascii_ws_spec(s, pos) <= s.len(),
    decreases s.len() - pos,
{
    if 0 <= pos < s.len() && is_ascii_ws(s[pos]) {
        lemma_skip_ascii_ws_bounds(s, pos + 1);
    }
}

pub proof fn lemma_skip_json_ws_bounds(s: Seq<u8>, pos: int)
    ensures
        skip_json_ws_spec(s, pos) >= pos,
        pos <= s.len() ==> skip_json_ws_spec(s, pos) <= s.len(),
    decreases s.len() - pos,
{
    if 0 <= pos < s.len() && is_json_ws(s[pos]) {
        lemma_skip_json_ws_bounds(s, pos + 1);
    }
}

pub fn skip_ascii_ws(bytes: &[u8], pos: usize) -> (r: usize)
    ensures
        r == skip_ascii_ws_spec(bytes@, pos as int),
{
    let mut p = pos;
    while p < bytes.len() && is_ascii_whitespace(bytes[p])
        invariant
            p >= pos,
            skip_ascii_ws_spec(bytes@, p as int) == skip_ascii_ws_spec(bytes@, pos as int),
        decreases bytes@.len() - p,
    {
        p += 1;
    }
    p
}

pub fn skip_json_ws(bytes: &[u8], pos: usize) -> (r: usize)
    ensures
        r == skip_json_ws_spec(bytes@, pos as int),
{
    let mut p = pos;
    while p < bytes.len() && (bytes[p] == 32 || bytes[p] == 10 || bytes[p] == 13 || bytes[p] == 9)
        invariant
            p >= pos,
            skip_json_ws_spec(bytes@, p as int) == skip_json_ws_spec(bytes@, pos as int),
        decreases bytes@.len() - p,
    {
        p += 1;
    }
    p
}

/// `<[u8]>::trim_ascii`.
pub fn trim_ascii(bytes: &[u8]) -> (r: &[u8])
    ensures
        r@ == trim_ascii_spec(bytes@),
{
    let len = bytes.len();
    let mut start: usize = 0;
    assert(bytes@.subrange(0, len as int) =~= bytes@);
    while start < len && is_ascii_whitespace(bytes[start])
        invariant
            len == bytes@.len(),
            start <= len,
            trim_ascii_start_spec(bytes@.subrange(start as int, len as int))
                == trim_ascii_start_spec(bytes@),
        decreases len - start,
    {
        assert(bytes@.subrange(start as int, len as int).drop_first() =~= bytes@.subrange(
            start + 1,
            len as int,
        ));
        start += 1;
    }
    assert(trim_ascii_start_spec(bytes@) == bytes@.subrange(start as int, len as int));
    let mut end: usize = len;
    while end > start && is_ascii_whitespace(bytes[end - 1])
        invariant
            len == bytes@.len(),
            start <= end <= len,
            trim_ascii_end_spec(bytes@.subrange(start as int, end as int)) == trim_ascii_end_spec(
                bytes@.subrange(start as int, len as int),
            ),
        decreases end - start,
    {
        assert(bytes@.subrange(start as int, end as int).drop_last() =~= bytes@.subrange(
            start as int,
            end - 1,
        ));
        end -= 1;
    }
    &bytes[start..end]
}

/// Width of the Unicode whitespace character starting at `pos`, or 0.
fn uni_ws_width_at(bytes: &[u8], pos: usize) -> (w: usize)
    requires
        pos <= bytes@.len(),
    ensures
        w == uni_ws_prefix_len(bytes@.subrange(pos as int, bytes@.len() as int)),
{
    let ghost s = bytes@.subrange(pos as int, bytes@.len() as int);
    let n = bytes.len() - pos;
    if n >= 1 && ((bytes[pos] >= 9 && bytes[pos] <= 13) || bytes[pos] == 32) {
        return 1;
    }
    if n >= 2 && bytes[pos] == 0xC2 && (bytes[pos + 1] == 0x85 || bytes[pos + 1] == 0xA0) {
        return 2;
    }
    if n >= 3 {
        let a = bytes[pos];
        let b = bytes[pos + 1];
        let c = bytes[pos + 2];
        if (a == 0xE1 && b == 0x9A && c == 0x80) || (a == 0xE2 && b == 0x80 && ((c >= 0x80 && c
            <= 0x8A) || c == 0xA8 || c == 0xA9 || c == 0xAF)) || (a == 0xE2 && b == 0x81 && c
            == 0x9F) || (a == 0xE3 && b == 0x80 && c == 0x80) {
            return 3;
        }
    }
    0
}

/// Width of the Unicode whitespace character ending just before `end`, or 0.
fn uni_ws_width_before(bytes: &[u8], start: usize, end: usize) -> (w: usize)
    requires
        start <= end <= bytes@.len(),
    ensures
        w == uni_ws_suffix_len(bytes@.subrange(start as int, end as int)),
        w <= end - start,
{
    let ghost s = bytes@.subrange(start as int, end as int);
    let n = end - start;
    if n >= 1 && ((bytes[end - 1] >= 9 && bytes[end - 1] <= 13) || bytes[end - 1] == 32) {
        return 1;
    }
    if n >= 2 && bytes[end - 2] == 0xC2 && (bytes[end - 1] == 0x85 || bytes[end - 1] == 0xA0) {
        return 2;
    }
    if n >= 3 {
        let w = uni_ws_width_at(bytes, end - 3);
        assert(s.subrange(n - 3, n as int) =~= bytes@.subrange(end - 3, end as int));
        let ghost t = bytes@.subrange(end - 3, bytes@.len() as int);
        assert(uni_ws_prefix_len(t) == 3 <==> uni_ws_prefix_len(bytes@.subrange(end - 3, end as int)) == 3);
        if w == 3 {
            return 3;
        }
    }
    0
}

/// `str::trim_start` over the UTF-8 bytes of the text.
pub fn trim_unicode_start(bytes: &[u8]) -> (r: &[u8])
    ensures
        r@ == trim_unicode_start_spec(bytes@),
{
    let len = bytes.len();
    let mut start: usize = 0;
    assert(bytes@.subrange(0, len as int) =~= bytes@);
    loop
        invariant
            len == bytes@.len(),
            start <= len,
            trim_unicode_start_spec(bytes@.subrange(start as int, len as int))
                == trim_unicode_start_spec(bytes@),
        ensures
            start <= len,
            trim_unicode_start_spec(bytes@) == bytes@.subrange(start as int, len as int),
        decreases len - start,
    {
        let w = uni_ws_width_at(bytes, start);
        if w == 0 {
            break;
        }
        let ghost s = bytes@.subrange(start as int, len as int);
        assert(s.subrange(w as int, s.len() as int) =~= bytes@.subrange(start + w, len as int));
        start += w;
    }
    assert(bytes@.subrange(0, len as int) =~= bytes@);
    &bytes[start..len]
}

/// `str::trim` over the UTF-8 bytes of the text.
pub fn trim_unicode(bytes: &[u8]) -> (r: &[u8])
    ensures
        r@ == trim_unicode_spec(bytes@),
{
    let len = bytes.len();
    let mut start: usize = 0;
    assert(bytes@.subrange(0, len as int) =~= bytes@);
    loop
        invariant
            len == bytes@.len(),
            start <= len,
            trim_unicode_start_spec(bytes@.subrange(start as int, len as int))
                == trim_unicode_start_spec(bytes@),
        ensures
            start <= len,
            trim_unicode_start_spec(bytes@) == bytes@.subrange(start as int, len as int),
        decreases len - start,
    {
        let w = uni_ws_width_at(bytes, start);
        if w == 0 {
            break;
        }
        let ghost s = bytes@.subrange(start as int, len as int);
        assert(s.subrange(w as int, s.len() as int) =~= bytes@.subrange(start + w, len as int));
        start += w;
    }
    assert(bytes@.subrange(0, len as int) =~= bytes@);
    let mut end: usize = len;
    loop
        invariant
            len == bytes@.len(),
            start <= end <= len,
            trim_unicode_end_spec(bytes@.subrange(start as int, end as int))
                == trim_unicode_end_spec(bytes@.subrange(start as int, len as int)),
        ensures
            start <= end <= len,
            trim_unicode_end_spec(bytes@.subrange(start as int, len as int)) == bytes@.subrange(
                start as int,
                end as int,
            ),
        decreases end - start,
    {
        let w = uni_ws_width_before(bytes, start, end);
        if w == 0 {
            break;
        }
        let ghost s = bytes@.subrange(start as int, end as int);
        assert(s.subrange(0, s.len() - w) =~= bytes@.subrange(start as int, end - w));
        end -= w;
    }
    &bytes[start..end]
}

/// `"key"` (the key between two double quotes) starts at `pos` of `s`.
pub open spec fn quoted_key_at(s: Seq<u8>, key: Seq<u8>, pos: int) -> bool {
    &&& 0 <= pos
    &&& pos + key.len() + 2 <= s.len()
    &&& s[pos] == 34
    &&& s.subrange(pos + 1, pos + 1 + key.len()) == key
    &&& s[pos + key.len() + 1] == 34
}

/// First position at or after `pos` where `"key"` starts.
pub open spec fn find_quoted_key_from(s: Seq<u8>, key: Seq<u8>, pos: int) -> Option<int>
    decreases s.len() - pos,
{
    if pos < 0 || pos + key.len() + 2 > s.len() {
        None
    } else if quoted_key_at(s, key, pos) {
        Some(pos)
    } else {
        find_quoted_key_from(s, key, pos + 1)
    }
}

pub proof fn lemma_find_quoted_key_from(s: Seq<u8>, key: Seq<u8>, pos: int)
    requires
        pos >= 0,
    ensures
        find_quoted_key_from(s, key, pos) matches Some(p) ==> pos <= p && quoted_key_at(s, key, p)
            && forall|q: int| pos <= q < p ==> !quoted_key_at(s, key, q),
        find_quoted_key_from(s, key, pos) is None ==> forall|q: int|
            pos <= q ==> !quoted_key_at(s, key, q),
    decreases s.len() - pos,
{
    if pos + key.len() + 2 > s.len() {
    } else if quoted_key_at(s, key, pos) {
    } else {
        lemma_find_quoted_key_from(s, key, pos + 1);
    }
}

fn key_matches_at(bytes: &[u8], key: &[u8], pos: usize) -> (r: bool)
    requires
        pos + key@.len() + 2 <= bytes@.len(),
    ensures
        r == quoted_key_at(bytes@, key@, pos as int),
{
    if bytes[pos] != 34 {
        return false;
    }
    let klen = key.len();
    let blen = bytes.len();
    let mut i: usize = 0;
    while i < klen
        invariant
            klen == key@.len(),
            blen == bytes@.len(),
            pos + klen + 2 <= blen,
            i <= klen,
            forall|j: int| 0 <= j < i ==> bytes@[pos + 1 + j] == key@[j],
        decreases klen - i,
    {
        if bytes[pos + 1 + i] != key[i] {
            assert(bytes@.subrange(pos + 1, pos + 1 + klen)[i as int] != key@[i as int]);
            return false;
        }
        i += 1;
    }
    assert(bytes@.subrange(pos + 1, pos + 1 + klen) =~= key@);
    bytes[pos + klen + 1] == 34
}

/// First position at or after `offset` where `"key"` starts.
pub fn find_quoted_key_after(bytes: &[u8], key: &[u8], offset: usize) -> (r: Option<usize>)
    ensures
        r matches Some(p) ==> find_quoted_key_from(bytes@, key@, offset as int) == Some(p as int),
        r is None ==> find_quoted_key_from(bytes@, key@, offset as int) is None,
{
    let len = bytes.len();
    let klen = key.len();
    if len < 2 || klen > len - 2 {
        return None;
    }
    let last = len - klen - 2;
    let mut pos = offset;
    while pos <= last
        invariant
            len == bytes@.len(),
            klen == key@.len(),
            last + klen + 2 == len,
            offset <= pos,
            find_quoted_key_from(bytes@, key@, pos as int) == find_quoted_key_from(
                bytes@,
                key@,
                offset as int,
            ),
        decreases last + 1 - pos,
    {
        if key_matches_at(bytes, key, pos) {
            return Some(pos);
        }
        pos += 1;
    }
    None
}

/// First position of `"key"` in `bytes` (what `str::find` gives for that needle).
pub fn find_quoted_key(bytes: &[u8], key: &[u8]) -> (r: Option<usize>)
    ensures
        r matches Some(p) ==> find_quoted_key_from(bytes@, key@, 0) == Some(p as int),
        r is None ==> find_quoted_key_from(bytes@, key@, 0) is None,
{
    find_quoted_key_after(bytes, key, 0)
}

/// The byte-oriented key lookup shared by most effects: an empty key, or a text
/// shorter than the quoted key, finds nothing; otherwise the first `"key"`.
pub open spec fn find_json_key_spec(s: Seq<u8>, key: Seq<u8>) -> Option<int> {
    if key.len() == 0 || s.len() < key.len() + 2 {
        None
    } else {
        find_quoted_key_from(s, key, 0)
    }
}

pub fn find_json_key(bytes: &[u8], key: &[u8]) -> (r: Option<usize>)
    ensures
        r matches Some(p) ==> find_json_key_spec(bytes@, key@) == Some(p as int),
        r is None ==> find_json_key_spec(bytes@, key@) is None,
{
    if key.len() == 0 || key.len() > bytes.len() || bytes.len() - key.len() < 2 {
        return None;
    }
    find_quoted_key(bytes, key)
}

/// First position at or after `pos` holding byte `b`.
pub open spec fn find_byte_from(s: Seq<u8>, b: u8, pos: int) -> Option<int>
    decreases s.len() - pos,
{
    if pos < 0 || pos >= s.len() {
        None
    } else if s[pos] == b {
        Some(pos)
    } else {
        find_byte_from(s, b, pos + 1)
    }
}

pub proof fn lemma_find_byte_from(s: Seq<u8>, b: u8, pos: int)
    requires
        pos >= 0,
    ensures
        find_byte_from(s, b, pos) matches Some(p) ==> pos <= p < s.len() && s[p] == b && forall|
            q: int,
        |
            pos <= q < p ==> s[q] != b,
        find_byte_from(s, b, pos) is None ==> forall|q: int| pos <= q < s.len() ==> s[q] != b,
    decreases s.len() - pos,
{
    if pos < s.len() && s[pos] != b {
        lemma_find_byte_from(s, b, pos + 1);
    }
}

pub fn find_byte(bytes: &[u8], b: u8, pos: usize) -> (r: Option<usize>)
    ensures
        r matches Some(p) ==> find_byte_from(bytes@, b, pos as int) == Some(p as int),
        r is None ==> find_byte_from(bytes@, b, pos as int) is None,
{
    let mut p = pos;
    while p < bytes.len()
        invariant
            p >= pos,
            find_byte_from(bytes@, b, p as int) == find_byte_from(bytes@, b, pos as int),
        decreases bytes@.len() - p,
    {
        if bytes[p] == b {
            return Some(p);
        }
        p += 1;
    }
    None
}

/// Position of the first double quote at or after `pos` that no backslash escapes.
pub open spec fn string_end_from(s: Seq<u8>, pos: int, escaped: bool) -> Option<int>
    decreases s.len() - pos,
{
    if pos < 0 || pos >= s.len() {
        None
    } else if escaped {
        string_end_from(s, pos + 1, false)
    } else if s[pos] == 92 {
        string_end_from(s, pos + 1, true)
    } else if s[pos] == 34 {
        Some(pos)
    } else {
        string_end_from(s, pos + 1, false)
    }
}

pub proof fn lemma_string_end_from(s: Seq<u8>, pos: int, escaped: bool)
    requires
        pos >= 0,
    ensures
        string_end_from(s, pos, escaped) matches Some(p) ==> pos <= p < s.len() && s[p] == 34,
    decreases s.len() - pos,
{
    if pos < s.len() {
        if escaped {
            lemma_string_end_from(s, pos + 1, false);
        } else if s[pos] == 92 {
            lemma_string_end_from(s, pos + 1, true);
        } else if s[pos] != 34 {
            lemma_string_end_from(s, pos + 1, false);
        }
    }
}

/// Index of the closing quote of a JSON string whose body starts at `pos`.
pub fn string_end(bytes: &[u8], pos: usize) -> (r: Option<usize>)
    ensures
        r matches Some(p) ==> string_end_from(bytes@, pos as int, false) == Some(p as int),
        r is None ==> string_end_from(bytes@, pos as int, false) is None,
        r matches Some(p) ==> pos <= p < bytes@.len() && bytes@[p as int] == 34,
{
    proof {
        lemma_string_end_from(bytes@, pos as int, false);
    }
    let mut p = pos;
    let mut escaped = false;
    while p < bytes.len()
        invariant
            p >= pos,
            string_end_from(bytes@, p as int, escaped) == string_end_from(
                bytes@,
                pos as int,
                false,
            ),
        decreases bytes@.len() - p,
    {
        let byte = bytes[p];
        if escaped {
            escaped = false;
        } else if byte == 92 {
            escaped = true;
        } else if byte == 34 {
            return Some(p);
        }
        p += 1;
    }
    None
}

/// `s` starts, at `pos`, with the bytes of `lit`.
pub open spec fn has_prefix_at(s: Seq<u8>, pos: int, lit: Seq<u8>) -> bool {
    0 <= pos && pos + lit.len() <= s.len() && s.subrange(pos, pos + lit.len()) == lit
}

pub fn starts_with_at(bytes: &[u8], pos: usize, lit: &[u8]) -> (r: bool)
    ensures
        r == has_prefix_at(bytes@, pos as int, lit@),
{
    let llen = lit.len();
    if pos > bytes.len() || llen > bytes.len() - pos {
        return false;
    }
    let blen = bytes.len();
    let mut i: usize = 0;
    while i < llen
        invariant
            llen == lit@.len(),
            blen == bytes@.len(),
            pos + llen <= blen,
            i <= llen,
            forall|j: int| 0 <= j < i ==> bytes@[pos + j] == lit@[j],
        decreases llen - i,
    {
        if bytes[pos + i] != lit[i] {
            assert(bytes@.subrange(pos as int, pos + llen)[i as int] != lit@[i as int]);
            return false;
        }
        i += 1;
    }
    assert(bytes@.subrange(pos as int, pos + llen) =~= lit@);
    true
}

/// `s[a..b]` equals `lit` exactly.
pub fn slice_equals(bytes: &[u8], lit: &[u8]) -> (r: bool)
    ensures
        r == (bytes@ == lit@),
{
    if bytes.len() != lit.len() {
        return false;
    }
    let r = starts_with_at(bytes, 0, lit);
    assert(bytes@.subrange(0, lit@.len() as int) =~= bytes@);
    r
}

} // verus!
