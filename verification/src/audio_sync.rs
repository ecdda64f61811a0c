//! The colour history of the audio sync effect, a ring of the most recent frame
//! colours read newest first, and its colour parameter.
use vstd::prelude::*;
use vstd::string::StringSliceAdditionalSpecFns;

use crate::hex::{parse_six_after_hashes, parse_six_after_hashes_spec};
use crate::audio_bubbles::{codes_to_utf8, utf8_of_codes};
use crate::json_fields::{bool_field, bool_field_spec, string_field, string_field_spec};
use crate::rgb::{black, SkydimoRgb};

verus! {

/// Number of frame colours the history keeps.
pub const MAX_HISTORY: usize = 1024;

/// Slot of the ring that holds entry `i` (0 = newest) when the newest is at `head`.
pub open spec fn ring_slot(head: int, i: int) -> int {
    if head + i < MAX_HISTORY {
        head + i
    } else {
        head + i - MAX_HISTORY
    }
}

/// Frame colours, newest first, at most [`MAX_HISTORY`] of them.
pub struct ColorHistory {
    colors: Vec<SkydimoRgb>,
    head: usize,
    len: usize,
}

impl View for ColorHistory {
    type V = Seq<SkydimoRgb>;

    closed spec fn view(&self) -> Seq<SkydimoRgb> {
        Seq::new(self.len as nat, |i: int| self.colors@[ring_slot(self.head as int, i)])
    }
}

/// What one more colour makes of a history: it comes first, and the oldest
/// entry falls out once the history is full.
pub open spec fn pushed(h: Seq<SkydimoRgb>, c: SkydimoRgb) -> Seq<SkydimoRgb> {
    seq![c] + h.take(
        if h.len() < MAX_HISTORY {
            h.len() as int
        } else {
            MAX_HISTORY - 1
        },
    )
}

/// Entry `offset` of a history, the oldest one for an offset past the end, and
/// black when the history is empty.
pub open spec fn color_at_spec(h: Seq<SkydimoRgb>, offset: int) -> SkydimoRgb {
    if h.len() == 0 {
        black()
    } else if offset < h.len() {
        h[offset]
    } else {
        h[h.len() - 1]
    }
}

impl ColorHistory {
    pub closed spec fn wf(&self) -> bool {
        &&& self.colors@.len() == MAX_HISTORY
        &&& self.head < MAX_HISTORY
        &&& self.len <= MAX_HISTORY
    }

    pub fn new() -> (h: Self)
        ensures
            h.wf(),
            h@ == Seq::<SkydimoRgb>::empty(),
    {
        let mut colors: Vec<SkydimoRgb> = Vec::new();
        let mut i: usize = 0;
        while i < MAX_HISTORY
            invariant
                i <= MAX_HISTORY,
                colors@.len() == i,
            decreases MAX_HISTORY - i,
        {
            colors.push(SkydimoRgb { r: 0, g: 0, b: 0 });
            i += 1;
        }
        let h = ColorHistory { colors, head: 0, len: 0 };
        assert(h@ =~= Seq::<SkydimoRgb>::empty());
        h
    }

    /// Number of colours held.
    pub fn len(&self) -> (n: usize)
        requires
            self.wf(),
        ensures
            n == self@.len(),
    {
        self.len
    }

    /// Records the colour of a new frame as the newest entry.
    pub fn push(&mut self, rgb: SkydimoRgb)
        requires
            old(self).wf(),
        ensures
            final(self).wf(),
            final(self)@ == pushed(old(self)@, rgb),
    {
        let ghost before = self@;
        if self.len == 0 {
            self.head = 0;
            self.colors.set(0, rgb);
            self.len = 1;
            assert(self@ =~= pushed(before, rgb));
            return;
        }
        let head = (self.head + MAX_HISTORY - 1) % MAX_HISTORY;
        assert(head as int == if self.head == 0 { MAX_HISTORY - 1 } else { self.head - 1 });
        let ghost old_head = self.head as int;
        let ghost old_colors = self.colors@;
        self.head = head;
        self.colors.set(head, rgb);
        self.len = if self.len + 1 < MAX_HISTORY { self.len + 1 } else { MAX_HISTORY };
        assert forall|i: int| 1 <= i < self.len implies #[trigger] self.colors@[ring_slot(
            head as int,
            i,
        )] == old_colors[ring_slot(old_head, i - 1)] by {
            assert(ring_slot(head as int, i) == ring_slot(old_head, i - 1));
            assert(ring_slot(head as int, i) != head as int);
        }
        assert(self@ =~= pushed(before, rgb));
    }

    /// The colour `offset` frames back; the oldest held colour when `offset` is
    /// past it, black when nothing is held.
    pub fn color_at(&self, offset: usize) -> (c: SkydimoRgb)
        requires
            self.wf(),
        ensures
            c == color_at_spec(self@, offset as int),
    {
        if self.len == 0 {
            return SkydimoRgb { r: 0, g: 0, b: 0 };
        }
        let offset = if offset < self.len - 1 { offset } else { self.len - 1 };
        let idx = (self.head + offset) % MAX_HISTORY;
        assert(idx == ring_slot(self.head as int, offset as int));
        self.colors[idx]
    }
}

pub open spec fn parse_hex_rgb_or_black_spec(text: Seq<u8>) -> SkydimoRgb {
    match parse_six_after_hashes_spec(text) {
        Some(c) => c,
        None => black(),
    }
}

/// Six-digit colour after trimming and dropping every leading `#`; black otherwise.
pub fn parse_hex_rgb_or_black(hex: &str) -> (c: SkydimoRgb)
    ensures
        c == parse_hex_rgb_or_black_spec(hex.spec_bytes()),
{
    match parse_six_after_hashes(hex.as_bytes()) {
        Some(c) => c,
        None => SkydimoRgb { r: 0, g: 0, b: 0 },
    }
}

pub open spec fn clamp_bin(x: int) -> int {
    if x < 0 {
        0
    } else if x > 255 {
        255
    } else {
        x
    }
}

/// The band of bins the effect listens to, from the floors of the two bounds:
/// each bound is kept to a bin index, and they are put in order.
pub open spec fn bandpass_spec(min_floor: int, max_floor: int) -> (int, int) {
    let a = clamp_bin(min_floor);
    let b = clamp_bin(max_floor);
    if a > b {
        (b, a)
    } else {
        (a, b)
    }
}

pub fn bandpass_range(min_floor: i32, max_floor: i32) -> (r: (usize, usize))
    ensures
        (r.0 as int, r.1 as int) == bandpass_spec(min_floor as int, max_floor as int),
        r.0 <= r.1 <= 255,
{
    let a: usize = if min_floor < 0 {
        0
    } else if min_floor > 255 {
        255
    } else {
        min_floor as usize
    };
    let b: usize = if max_floor < 0 {
        0
    } else if max_floor > 255 {
        255
    } else {
        max_floor as usize
    };
    if a > b {
        (b, a)
    } else {
        (a, b)
    }
}

pub open spec fn bound_or(n: Option<i32>, current: usize) -> int {
    match n {
        Some(x) => x as int,
        None => if current > 255 {
            255
        } else {
            current as int
        },
    }
}

/// The band after a parameter text, from the floors of its numbers: `range`
/// is the first two numbers of a `bandpassRange` array that read completely
/// (`None` when there is none), `min_floor` and `max_floor` the `bandpassMin`
/// and `bandpassMax` numbers. The array wins; a missing number keeps its
/// bound; with neither the band stays as it is.
pub open spec fn band_after(
    current: (usize, usize),
    range: Option<(Option<i32>, Option<i32>)>,
    min_floor: Option<i32>,
    max_floor: Option<i32>,
) -> (int, int) {
    match range {
        Some((a, b)) => bandpass_spec(bound_or(a, current.0), bound_or(b, current.1)),
        None => if min_floor is Some || max_floor is Some {
            bandpass_spec(bound_or(min_floor, current.0), bound_or(max_floor, current.1))
        } else {
            (current.0 as int, current.1 as int)
        },
    }
}

fn bound_or_exec(n: Option<i32>, current: usize) -> (r: i32)
    ensures
        r == bound_or(n, current),
{
    match n {
        Some(x) => x,
        None => if current > 255 {
            255
        } else {
            current as i32
        },
    }
}

pub fn update_bandpass(
    current: (usize, usize),
    range: Option<(Option<i32>, Option<i32>)>,
    min_floor: Option<i32>,
    max_floor: Option<i32>,
) -> (r: (usize, usize))
    ensures
        (r.0 as int, r.1 as int) == band_after(current, range, min_floor, max_floor),
{
    match range {
        Some((a, b)) => bandpass_range(bound_or_exec(a, current.0), bound_or_exec(b, current.1)),
        None => if min_floor.is_some() || max_floor.is_some() {
            bandpass_range(bound_or_exec(min_floor, current.0), bound_or_exec(max_floor, current.1))
        } else {
            current
        },
    }
}

/// An ordered band within the bins stays ordered and within the bins after
/// any parameter text.
pub proof fn law_band_stays_ordered(
    current: (usize, usize),
    range: Option<(Option<i32>, Option<i32>)>,
    min_floor: Option<i32>,
    max_floor: Option<i32>,
)
    requires
        current.0 <= current.1 <= 255,
    ensures
        0 <= band_after(current, range, min_floor, max_floor).0 <= band_after(
            current,
            range,
            min_floor,
            max_floor,
        ).1 <= 255,
{
}

/// [`parse_hex_rgb_or_black`] over the UTF-8 bytes of the text.
pub fn parse_hex_rgb_or_black_bytes(raw: &[u8]) -> (c: SkydimoRgb)
    ensures
        c == parse_hex_rgb_or_black_spec(raw@),
{
    match parse_six_after_hashes(raw) {
        Some(c) => c,
        None => SkydimoRgb { r: 0, g: 0, b: 0 },
    }
}

/// Number of audio bins.
pub const AUDIO_BINS: usize = 256;

/// The integer and flag settings of the audio sync effect.
pub struct AudioSyncSettings {
    pub saturation_mode: u32,
    pub roll_mode: u32,
    pub avg_size: usize,
    pub use_album_art: bool,
    pub silent_color: bool,
    pub silent_color_value: SkydimoRgb,
    pub edge_beat: bool,
    pub bandpass_min: usize,
    pub bandpass_max: usize,
}

impl AudioSyncSettings {
    pub fn new() -> (s: Self)
        ensures
            s.saturation_mode == 0 && s.roll_mode == 0 && s.avg_size == 8,
            !s.use_album_art && !s.silent_color && !s.edge_beat,
            s.silent_color_value == black(),
            s.bandpass_min == 0 && s.bandpass_max == 255,
    {
        AudioSyncSettings {
            saturation_mode: 0,
            roll_mode: 0,
            avg_size: 8,
            use_album_art: false,
            silent_color: false,
            silent_color_value: SkydimoRgb { r: 0, g: 0, b: 0 },
            edge_beat: false,
            bandpass_min: 0,
            bandpass_max: 255,
        }
    }
}

/// The numeric parameters of a text, each rounded down (`None` where absent):
/// `saturationMode`, `rollMode` and the band bounds as `i32`, `avgSize` as
/// `usize`; `band_range` holds the first two numbers of a `bandpassRange`
/// array of numbers.
pub struct AudioSyncNumbers {
    pub saturation_mode: Option<i32>,
    pub roll_mode: Option<i32>,
    pub avg_size: Option<usize>,
    pub band_range: Option<(Option<i32>, Option<i32>)>,
    pub band_min: Option<i32>,
    pub band_max: Option<i32>,
}

pub open spec fn clamp_mode(current: u32, n: Option<i32>, hi: int) -> u32 {
    match n {
        Some(x) => (if x < 0 {
            0
        } else if x > hi {
            hi
        } else {
            x as int
        }) as u32,
        None => current,
    }
}

pub open spec fn clamp_avg(current: usize, n: Option<usize>) -> usize {
    match n {
        Some(x) => if x < 1 {
            1
        } else if x > AUDIO_BINS {
            AUDIO_BINS
        } else {
            x
        },
        None => current,
    }
}

pub open spec fn flag_or(n: Option<bool>, current: bool) -> bool {
    match n {
        Some(b) => b,
        None => current,
    }
}

pub open spec fn use_album_art_key() -> Seq<u8> {
    seq![117u8, 115u8, 101u8, 65u8, 108u8, 98u8, 117u8, 109u8, 65u8, 114u8, 116u8]
}

pub open spec fn silent_color_key() -> Seq<u8> {
    seq![115u8, 105u8, 108u8, 101u8, 110u8, 116u8, 67u8, 111u8, 108u8, 111u8, 114u8]
}

pub open spec fn silent_color_value_key() -> Seq<u8> {
    silent_color_key() + seq![86u8, 97u8, 108u8, 117u8, 101u8]
}

pub open spec fn edge_beat_key() -> Seq<u8> {
    seq![101u8, 100u8, 103u8, 101u8, 66u8, 101u8, 97u8, 116u8]
}

fn clamp_i32(x: i32, hi: i32) -> (r: u32)
    requires
        0 <= hi,
    ensures
        r == (if x < 0 {
            0
        } else if x > hi {
            hi as int
        } else {
            x as int
        }) as u32,
{
    if x < 0 {
        0
    } else if x > hi {
        hi as u32
    } else {
        x as u32
    }
}

/// Applies a parameter text. Saturation mode is kept to `0..=2`, roll mode to
/// `0..=4`, the averaging size to `1..=256`; the three flags follow
/// `true`/`false`/`1`/`0` values; the silent colour reads six hex digits
/// (black otherwise); the band follows [`update_bandpass`]. Returns whether
/// the album-art palette is stale: the album-art flag changed.
pub fn apply_audio_sync_params(s: &mut AudioSyncSettings, json: &[u8], n: AudioSyncNumbers) -> (palette_stale: bool)
    ensures
        final(s).saturation_mode == clamp_mode(old(s).saturation_mode, n.saturation_mode, 2),
        final(s).roll_mode == clamp_mode(old(s).roll_mode, n.roll_mode, 4),
        final(s).avg_size == clamp_avg(old(s).avg_size, n.avg_size),
        final(s).use_album_art == flag_or(bool_field_spec(json@, use_album_art_key()), old(s).use_album_art),
        final(s).silent_color == flag_or(bool_field_spec(json@, silent_color_key()), old(s).silent_color),
        final(s).edge_beat == flag_or(bool_field_spec(json@, edge_beat_key()), old(s).edge_beat),
        final(s).silent_color_value == (match string_field_spec(json@, silent_color_value_key()) {
            Some(v) => parse_hex_rgb_or_black_spec(utf8_of_codes(v)),
            None => old(s).silent_color_value,
        }),
        (final(s).bandpass_min as int, final(s).bandpass_max as int) == band_after(
            (old(s).bandpass_min, old(s).bandpass_max),
            n.band_range,
            n.band_min,
            n.band_max,
        ),
        palette_stale == (final(s).use_album_art != old(s).use_album_art),
{
    if let Some(x) = n.saturation_mode {
        s.saturation_mode = clamp_i32(x, 2);
    }
    if let Some(x) = n.roll_mode {
        s.roll_mode = clamp_i32(x, 4);
    }
    if let Some(x) = n.avg_size {
        s.avg_size = if x < 1 {
            1
        } else if x > AUDIO_BINS {
            AUDIO_BINS
        } else {
            x
        };
    }
    let album_k: [u8; 11] = [117, 115, 101, 65, 108, 98, 117, 109, 65, 114, 116];
    let silent_k: [u8; 11] = [115, 105, 108, 101, 110, 116, 67, 111, 108, 111, 114];
    let silent_value_k: [u8; 16] = [115, 105, 108, 101, 110, 116, 67, 111, 108, 111, 114, 86, 97, 108, 117, 101];
    let edge_k: [u8; 8] = [101, 100, 103, 101, 66, 101, 97, 116];
    assert(album_k@ == use_album_art_key());
    assert(silent_k@ == silent_color_key());
    assert(silent_value_k@ == silent_color_value_key());
    assert(edge_k@ == edge_beat_key());
    let mut palette_stale = false;
    if let Some(v) = bool_field(json, album_k.as_slice()) {
        if s.use_album_art != v {
            palette_stale = true;
        }
        s.use_album_art = v;
    }
    if let Some(v) = bool_field(json, silent_k.as_slice()) {
        s.silent_color = v;
    }
    if let Some(v) = string_field(json, silent_value_k.as_slice()) {
        let text = codes_to_utf8(v.as_slice());
        s.silent_color_value = parse_hex_rgb_or_black_bytes(text.as_slice());
    }
    if let Some(v) = bool_field(json, edge_k.as_slice()) {
        s.edge_beat = v;
    }
    let (lo, hi) = update_bandpass(
        (s.bandpass_min, s.bandpass_max),
        n.band_range,
        n.band_min,
        n.band_max,
    );
    s.bandpass_min = lo;
    s.bandpass_max = hi;
    palette_stale
}

} // verus!
