//! Hue-table arithmetic of the colour wheel: each LED keeps a base hue index
//! and a frame turns all of them by one shift around the table.
use vstd::prelude::*;

use crate::rgb::SkydimoRgb;

verus! {

/// Entries of the hue table.
pub const HUE_TABLE_SIZE: usize = 1536;

/// `base + shift`, brought back into the table once.
pub open spec fn add_wrapped_spec(base: int, shift: int) -> int {
    if base + shift >= HUE_TABLE_SIZE {
        base + shift - HUE_TABLE_SIZE
    } else {
        base + shift
    }
}

/// `base - shift`, brought back into the table once.
pub open spec fn subtract_wrapped_spec(base: int, shift: int) -> int {
    if base >= shift {
        base - shift
    } else {
        base + HUE_TABLE_SIZE - shift
    }
}

pub fn add_wrapped(base: usize, shift: usize) -> (r: usize)
    requires
        base + shift <= usize::MAX,
    ensures
        r == add_wrapped_spec(base as int, shift as int),
{
    let next = base + shift;
    if next >= HUE_TABLE_SIZE {
        next - HUE_TABLE_SIZE
    } else {
        next
    }
}

pub fn subtract_wrapped(base: usize, shift: usize) -> (r: usize)
    requires
        base >= shift || base + HUE_TABLE_SIZE <= usize::MAX,
        base >= shift || base + HUE_TABLE_SIZE >= shift,
    ensures
        r == subtract_wrapped_spec(base as int, shift as int),
{
    if base >= shift {
        base - shift
    } else {
        base + HUE_TABLE_SIZE - shift
    }
}

/// Table index of an LED whose base hue is `base` once the wheel has turned by
/// `shift`, clockwise or not.
pub open spec fn turned_index(base: int, shift: int, clockwise: bool) -> int {
    if clockwise {
        subtract_wrapped_spec(base, shift)
    } else {
        add_wrapped_spec(base, shift)
    }
}

/// Paints each LED with the table colour of its turned hue; LEDs past the end
/// of `base_hues` keep their colour.
pub fn turn_wheel(
    pixels: &mut [SkydimoRgb],
    base_hues: &[u16],
    table: &[SkydimoRgb],
    shift: usize,
    clockwise: bool,
)
    requires
        table@.len() == HUE_TABLE_SIZE,
        shift < HUE_TABLE_SIZE,
        forall|i: int| 0 <= i < base_hues@.len() ==> base_hues@[i] < HUE_TABLE_SIZE,
    ensures
        final(pixels)@.len() == old(pixels)@.len(),
        forall|i: int|
            0 <= i < old(pixels)@.len() && i < base_hues@.len() ==> #[trigger] final(pixels)@[i]
                == table@[turned_index(base_hues@[i] as int, shift as int, clockwise)],
        forall|i: int|
            base_hues@.len() <= i < old(pixels)@.len() ==> #[trigger] final(pixels)@[i] == old(
                pixels,
            )@[i],
{
    let n = if pixels.len() < base_hues.len() { pixels.len() } else { base_hues.len() };
    let mut i: usize = 0;
    while i < n
        invariant
            n <= pixels@.len(),
            n <= base_hues@.len(),
            n == pixels@.len() || n == base_hues@.len(),
            pixels@.len() == old(pixels)@.len(),
            i <= n,
            table@.len() == HUE_TABLE_SIZE,
            shift < HUE_TABLE_SIZE,
            forall|j: int| 0 <= j < base_hues@.len() ==> base_hues@[j] < HUE_TABLE_SIZE,
            forall|j: int|
                0 <= j < i ==> #[trigger] pixels@[j] == table@[turned_index(
                    base_hues@[j] as int,
                    shift as int,
                    clockwise,
                )],
            forall|j: int| i <= j < pixels@.len() ==> #[trigger] pixels@[j] == old(pixels)@[j],
        decreases n - i,
    {
        let base = base_hues[i] as usize;
        let index = if clockwise {
            subtract_wrapped(base, shift)
        } else {
            add_wrapped(base, shift)
        };
        pixels[i] = table[index];
        i += 1;
    }
}

} // verus!
