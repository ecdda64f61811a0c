//! Fingerprints the audio effects take of the album art, to notice when it changes.
use vstd::prelude::*;

use crate::rgb::SkydimoRgb;

verus! {

pub const FINGERPRINT_SEED: u64 = 0x5555_5555;

pub const FINGERPRINT_MODULUS: u64 = 0x7FFF_FFFF;

/// A colour as the 24-bit number `0xRRGGBB`.
pub open spec fn packed(c: SkydimoRgb) -> int {
    c.r * 65536 + c.g * 256 + c.b
}

/// Sampling stride: one pixel in sixteen of the image (at least every pixel).
pub open spec fn sample_step(len: nat) -> int {
    if len / 16 < 1 {
        1
    } else {
        (len / 16) as int
    }
}

/// The hash after folding the samples at `idx`, `idx + step`, ... into `h`:
/// each sample turns `h` into `(h * 31 + packed) % 0x7FFF_FFFF`.
pub open spec fn fold_samples(pixels: Seq<SkydimoRgb>, step: int, idx: int, h: int) -> int
    decreases pixels.len() + step - idx,
{
    if step <= 0 || idx < 0 || idx >= pixels.len() {
        h
    } else {
        fold_samples(pixels, step, idx + step, (h * 31 + packed(pixels[idx])) % (
        FINGERPRINT_MODULUS as int))
    }
}

pub open spec fn fingerprint_value(pixels: Seq<SkydimoRgb>) -> int {
    fold_samples(pixels, sample_step(pixels.len()), 0, FINGERPRINT_SEED as int)
}

pub proof fn lemma_fold_bound(pixels: Seq<SkydimoRgb>, step: int, idx: int, h: int)
    requires
        0 <= h < FINGERPRINT_MODULUS,
    ensures
        0 <= fold_samples(pixels, step, idx, h) < FINGERPRINT_MODULUS,
    decreases pixels.len() + step - idx,
{
    if step <= 0 || idx < 0 || idx >= pixels.len() {
    } else {
        lemma_fold_bound(
            pixels,
            step,
            idx + step,
            (h * 31 + packed(pixels[idx])) % (FINGERPRINT_MODULUS as int),
        );
    }
}

fn pack(c: SkydimoRgb) -> (p: u64)
    ensures
        p == packed(c),
        p < 0x100_0000,
{
    let r = c.r as u64;
    let g = c.g as u64;
    let b = c.b as u64;
    assert((r << 16u64) | (g << 8u64) | b == r * 65536 + g * 256 + b) by (bit_vector)
        requires
            r < 256,
            g < 256,
            b < 256,
    ;
    (r << 16u64) | (g << 8u64) | b
}

/// Fingerprint of a non-empty image (`None` for an empty one).
pub fn art_fingerprint(pixels: &[SkydimoRgb]) -> (r: Option<u64>)
    ensures
        pixels@.len() == 0 ==> r is None,
        pixels@.len() > 0 ==> r == Some(fingerprint_value(pixels@) as u64),
        r matches Some(h) ==> h < FINGERPRINT_MODULUS,
        pixels@.len() > 0 ==> 0 <= fingerprint_value(pixels@) < FINGERPRINT_MODULUS,
{
    let len = pixels.len();
    if len == 0 {
        return None;
    }
    let step: usize = if len / 16 < 1 { 1 } else { len / 16 };
    let mut h: u64 = FINGERPRINT_SEED;
    let mut idx: usize = 0;
    proof {
        lemma_fold_bound(pixels@, step as int, 0, FINGERPRINT_SEED as int);
    }
    while idx < len
        invariant
            len == pixels@.len(),
            step == sample_step(len as nat),
            step >= 1,
            h < FINGERPRINT_MODULUS,
            fold_samples(pixels@, step as int, idx as int, h as int) == fingerprint_value(pixels@),
        decreases len - idx,
    {
        let p = pack(pixels[idx]);
        let ghost old_h = h;
        h = (h * 31 + p) % FINGERPRINT_MODULUS;
        assert(fold_samples(pixels@, step as int, idx as int, old_h as int) == fold_samples(
            pixels@,
            step as int,
            idx + step,
            h as int,
        ));
        assert(len - idx <= step ==> fold_samples(pixels@, step as int, idx + step, h as int)
            == h);
        if len - idx <= step {
            idx = len;
        } else {
            idx += step;
        }
    }
    Some(h)
}

/// As [`art_fingerprint`], but an empty image gives 0.
pub fn art_fingerprint_or_zero(pixels: &[SkydimoRgb]) -> (r: u64)
    ensures
        pixels@.len() == 0 ==> r == 0,
        pixels@.len() > 0 ==> r == fingerprint_value(pixels@),
{
    match art_fingerprint(pixels) {
        Some(h) => h,
        None => 0,
    }
}

/// As [`art_fingerprint`], narrowed to 32 bits (the value always fits).
pub fn art_fingerprint_u32(pixels: &[SkydimoRgb]) -> (r: Option<u32>)
    ensures
        pixels@.len() == 0 ==> r is None,
        pixels@.len() > 0 ==> r == Some(fingerprint_value(pixels@) as u32),
{
    match art_fingerprint(pixels) {
        Some(h) => Some(h as u32),
        None => None,
    }
}

} // verus!
