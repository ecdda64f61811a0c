//! The dotted row of the marquee effect.
use vstd::prelude::*;

use crate::rgb::{black, SkydimoRgb};

verus! {

/// Draws one marquee row: every `spacing`-th pixel is lit, shifted so that the
/// lit pixels are those with `(i + shift) % spacing == 0`; the others are off.
pub fn render_dots(row: &mut [SkydimoRgb], color: SkydimoRgb, spacing: usize, shift: usize)
    requires
        spacing >= 1,
        shift < spacing,
    ensures
        final(row)@.len() == old(row)@.len(),
        forall|i: int|
            0 <= i < final(row)@.len() ==> final(row)@[i] == (if (i + shift) % (spacing as int)
                == 0 {
                color
            } else {
                black()
            }),
{
    let len = row.len();
    let mut i: usize = 0;
    // Position within the spacing period of pixel `i`, counted from a lit pixel.
    let mut phase: usize = shift;
    proof {
        vstd::arithmetic::div_mod::lemma_small_mod(shift as nat, spacing as nat);
    }
    while i < len
        invariant
            len == row@.len(),
            spacing >= 1,
            i <= len,
            phase < spacing,
            phase as int == (i + shift) % (spacing as int),
            forall|j: int|
                0 <= j < i ==> row@[j] == (if (j + shift) % (spacing as int) == 0 {
                    color
                } else {
                    black()
                }),
        decreases len - i,
    {
        if phase == 0 {
            row[i] = color;
        } else {
            row[i] = SkydimoRgb { r: 0, g: 0, b: 0 };
        }
        proof {
            crate::custom_marquee::lemma_mod_succ(i + shift, spacing as int);
        }
        phase = if phase + 1 == spacing { 0 } else { phase + 1 };
        i += 1;
    }
}

} // verus!
