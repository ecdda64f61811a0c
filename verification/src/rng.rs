use vstd::prelude::*;

verus! {

/// Fallback seed (the 64-bit golden ratio) used when a seed would be zero.
pub const GOLDEN_GAMMA: u64 = 0x9E37_79B9_7F4A_7C15;

/// Constant mixed into clock readings before they seed a generator.
pub const SEED_MIX: u64 = 0xA076_1D64_78BD_642F;

#[verifier::external_type_specification]
#[verifier::external_body]
pub struct ExSystemTime(std::time::SystemTime);

/// `SystemTime::now`: the system clock's current reading. Nothing is claimed
/// of it.
#[verifier::external_body]
fn system_now() -> std::time::SystemTime {
    std::time::SystemTime::now()
}

/// `SystemTime::duration_since` with `UNIX_EPOCH`: the time elapsed since the
/// epoch, `None` when the reading is earlier than the epoch. Nothing is
/// claimed of the duration.
#[verifier::external_body]
fn since_unix_epoch(t: &std::time::SystemTime) -> Option<std::time::Duration> {
    t.duration_since(std::time::UNIX_EPOCH).ok()
}

/// `Duration::as_nanos`: the whole duration in nanoseconds. Nothing is
/// claimed of the number.
#[verifier::external_body]
fn duration_nanos(d: &std::time::Duration) -> u128 {
    d.as_nanos()
}

/// Nanoseconds since the Unix epoch, truncated to 64 bits; `None` when the
/// system clock reads earlier than the epoch.
fn unix_nanos() -> Option<u64> {
    let now = system_now();
    match since_unix_epoch(&now) {
        Some(d) => Some(duration_nanos(&d) as u64),
        None => None,
    }
}

/// One xorshift64 step (shifts 13, 7, 17).
pub open spec fn xorshift64_step(x: u64) -> u64 {
    let a = x ^ (x << 13u64);
    let b = a ^ (a >> 7u64);
    b ^ (b << 17u64)
}

pub open spec fn at_least_one(x: u64) -> u64 {
    if x == 0 {
        1
    } else {
        x
    }
}

/// Seed as the zero-avoiding constructor keeps it.
pub open spec fn nonzero_seed(seed: u64) -> u64 {
    if seed == 0 {
        GOLDEN_GAMMA
    } else {
        seed
    }
}

/// The xorshift64 generator shared by the effects.
pub struct XorShift64 {
    state: u64,
}

impl View for XorShift64 {
    type V = u64;

    closed spec fn view(&self) -> u64 {
        self.state
    }
}

impl XorShift64 {
    /// Generator whose state is `seed`, or the golden-ratio constant for a zero seed.
    pub fn new(seed: u64) -> (r: Self)
        ensures
            r@ == nonzero_seed(seed),
    {
        XorShift64 { state: if seed == 0 { GOLDEN_GAMMA } else { seed } }
    }

    /// Generator whose state is `seed`, raised to 1 when it is zero.
    pub fn new_at_least_one(seed: u64) -> (r: Self)
        ensures
            r@ == at_least_one(seed),
    {
        XorShift64 { state: if seed == 0 { 1 } else { seed } }
    }

    /// Seeds from the clock: the reading (or the golden-ratio constant when the
    /// clock is unreadable) mixed with [`SEED_MIX`], as [`XorShift64::new`] takes it.
    pub fn seeded() -> (r: Self)
        ensures
            exists|reading: Option<u64>| r@ == nonzero_seed(#[trigger] clock_seed(reading)),
    {
        let reading = unix_nanos();
        XorShift64::new(clock_seed_of(reading))
    }

    /// As [`XorShift64::seeded`], but a zero seed becomes 1.
    pub fn seeded_at_least_one() -> (r: Self)
        ensures
            exists|reading: Option<u64>| r@ == at_least_one(#[trigger] clock_seed(reading)),
    {
        let reading = unix_nanos();
        XorShift64::new_at_least_one(clock_seed_of(reading))
    }

    /// Next raw output; the state becomes the output, raised to 1 when zero.
    pub fn next_u64(&mut self) -> (x: u64)
        ensures
            x == xorshift64_step(old(self)@),
            final(self)@ == at_least_one(x),
    {
        let mut x = self.state;
        x ^= x << 13u64;
        x ^= x >> 7u64;
        x ^= x << 17u64;
        self.state = if x == 0 { 1 } else { x };
        x
    }

    /// `true` when the next output is even.
    pub fn next_bool(&mut self) -> (b: bool)
        ensures
            b == (xorshift64_step(old(self)@) % 2 == 0),
            final(self)@ == at_least_one(xorshift64_step(old(self)@)),
    {
        let x = self.next_u64();
        assert(x & 1 == 0 <==> x % 2 == 0) by (bit_vector);
        x & 1 == 0
    }

    /// `true` with probability about `1 / rarity`: the next output is a
    /// multiple of `rarity` (0 counts as 1).
    pub fn one_in(&mut self, rarity: u32) -> (b: bool)
        ensures
            b == (xorshift64_step(old(self)@) % (if rarity == 0 { 1 } else { rarity as u64 })
                == 0),
            final(self)@ == at_least_one(xorshift64_step(old(self)@)),
    {
        let x = self.next_u64();
        let m: u64 = if rarity == 0 { 1 } else { rarity as u64 };
        x % m == 0
    }

    /// Index below `upper_exclusive`; bounds 0 and 1 give 0 without drawing.
    pub fn range_usize(&mut self, upper_exclusive: usize) -> (r: usize)
        ensures
            upper_exclusive <= 1 ==> r == 0 && final(self)@ == old(self)@,
            upper_exclusive > 1 ==> r == xorshift64_step(old(self)@) % (upper_exclusive as u64)
                && final(self)@ == at_least_one(xorshift64_step(old(self)@)),
            upper_exclusive > 1 ==> r < upper_exclusive,
    {
        if upper_exclusive <= 1 {
            0
        } else {
            let x = self.next_u64();
            (x % (upper_exclusive as u64)) as usize
        }
    }

    /// Value in `1..=upper`; an `upper` of 0 gives 0 without drawing.
    pub fn next_range_inclusive(&mut self, upper: u64) -> (r: u64)
        ensures
            upper == 0 ==> r == 0 && final(self)@ == old(self)@,
            upper > 0 ==> r == xorshift64_step(old(self)@) % upper + 1 && final(self)@
                == at_least_one(xorshift64_step(old(self)@)),
            upper > 0 ==> 1 <= r <= upper,
    {
        if upper == 0 {
            0
        } else {
            self.next_u64() % upper + 1
        }
    }

    /// Value below `upper_exclusive`; 0 gives 0 without drawing.
    pub fn next_u8(&mut self, upper_exclusive: u8) -> (r: u8)
        ensures
            upper_exclusive == 0 ==> r == 0 && final(self)@ == old(self)@,
            upper_exclusive > 0 ==> r == xorshift64_step(old(self)@) % (upper_exclusive as u64)
                && final(self)@ == at_least_one(xorshift64_step(old(self)@)),
            upper_exclusive > 0 ==> r < upper_exclusive,
    {
        if upper_exclusive == 0 {
            0
        } else {
            (self.next_u64() % (upper_exclusive as u64)) as u8
        }
    }
}

/// Seed made from a clock reading: the reading, or the golden-ratio constant
/// when there is none, mixed with [`SEED_MIX`].
pub open spec fn clock_seed(reading: Option<u64>) -> u64 {
    match reading {
        Some(n) => n ^ SEED_MIX,
        None => GOLDEN_GAMMA ^ SEED_MIX,
    }
}

pub fn clock_seed_of(reading: Option<u64>) -> (s: u64)
    ensures
        s == clock_seed(reading),
{
    match reading {
        Some(n) => n ^ SEED_MIX,
        None => GOLDEN_GAMMA ^ SEED_MIX,
    }
}

pub open spec fn reading_or(reading: Option<u64>, fallback: u64) -> u64 {
    match reading {
        Some(n) => n,
        None => fallback,
    }
}

/// Clock reading, or `fallback` when the clock is unreadable.
pub fn nanos_or(fallback: u64) -> (r: u64)
    ensures
        exists|reading: Option<u64>| r == #[trigger] reading_or(reading, fallback),
{
    let reading = unix_nanos();
    let r = match reading {
        Some(n) => n,
        None => fallback,
    };
    assert(r == reading_or(reading, fallback));
    r
}

/// The splitmix64 output function.
pub open spec fn splitmix64_spec(value: u64) -> u64 {
    let v = value.wrapping_add(GOLDEN_GAMMA);
    let z1 = (v ^ (v >> 30u64)).wrapping_mul(0xBF58_476D_1CE4_E5B9u64);
    let z2 = (z1 ^ (z1 >> 27u64)).wrapping_mul(0x94D0_49BB_1331_11EBu64);
    z2 ^ (z2 >> 31u64)
}

/// The splitmix64 mixer: advance by the golden-ratio constant, then scramble
/// (all arithmetic wraps).
pub fn splitmix64(value: u64) -> (r: u64)
    ensures
        r == splitmix64_spec(value),
{
    let value = value.wrapping_add(GOLDEN_GAMMA);
    let mut z = value;
    z = (z ^ (z >> 30u64)).wrapping_mul(0xBF58_476D_1CE4_E5B9);
    z = (z ^ (z >> 27u64)).wrapping_mul(0x94D0_49BB_1331_11EB);
    z ^ (z >> 31u64)
}

/// A splitmix64 stream: each draw adds the golden-ratio constant to the state
/// and returns the scrambled state.
pub struct SplitMix64 {
    state: u64,
}

impl View for SplitMix64 {
    type V = u64;

    closed spec fn view(&self) -> u64 {
        self.state
    }
}

impl SplitMix64 {
    pub fn new(state: u64) -> (r: Self)
        ensures
            r@ == state,
    {
        SplitMix64 { state }
    }

    /// Seeds from the clock as [`clock_seed`] describes.
    pub fn seeded() -> (r: Self)
        ensures
            exists|reading: Option<u64>| r@ == #[trigger] clock_seed(reading),
    {
        SplitMix64 { state: clock_seed_of(unix_nanos()) }
    }

    pub fn next_u64(&mut self) -> (x: u64)
        ensures
            final(self)@ == old(self)@.wrapping_add(GOLDEN_GAMMA),
            x == splitmix64_spec(old(self)@),
    {
        let x = splitmix64(self.state);
        self.state = self.state.wrapping_add(GOLDEN_GAMMA);
        x
    }
}

/// One 32-bit xorshift step (shifts 13, 17, 5).
pub open spec fn xorshift32_step(x: u32) -> u32 {
    let a = x ^ (x << 13u32);
    let b = a ^ (a >> 17u32);
    b ^ (b << 5u32)
}

pub open spec fn at_least_one_u32(x: u32) -> u32 {
    if x == 0 {
        1
    } else {
        x
    }
}

/// The small 32-bit xorshift generator of the flower effect.
#[derive(Clone, Copy)]
pub struct FastRng {
    state: u32,
}

impl View for FastRng {
    type V = u32;

    closed spec fn view(&self) -> u32 {
        self.state
    }
}

impl FastRng {
    /// Generator whose state is `seed`, raised to 1 when zero.
    pub fn new(seed: u32) -> (r: Self)
        ensures
            r@ == at_least_one_u32(seed),
    {
        FastRng { state: if seed == 0 { 1 } else { seed } }
    }

    /// Next raw output; the state becomes the output, raised to 1 when zero.
    pub fn next_u32(&mut self) -> (x: u32)
        ensures
            x == xorshift32_step(old(self)@),
            final(self)@ == at_least_one_u32(x),
    {
        let mut x = self.state;
        x ^= x << 13u32;
        x ^= x >> 17u32;
        x ^= x << 5u32;
        self.state = if x == 0 { 1 } else { x };
        x
    }

    /// Low byte of the next output.
    pub fn next_u8(&mut self) -> (b: u8)
        ensures
            b == xorshift32_step(old(self)@) % 256,
            final(self)@ == at_least_one_u32(xorshift32_step(old(self)@)),
    {
        let x = self.next_u32();
        assert(x & 0xFF == x % 256) by (bit_vector);
        (x & 0xFF) as u8
    }

    /// Next output modulo `upper`; 0 gives 0 without drawing.
    pub fn next_range(&mut self, upper: u32) -> (r: u32)
        ensures
            upper == 0 ==> r == 0 && final(self)@ == old(self)@,
            upper > 0 ==> r == xorshift32_step(old(self)@) % upper && final(self)@
                == at_least_one_u32(xorshift32_step(old(self)@)),
            upper > 0 ==> r < upper,
    {
        if upper == 0 {
            0
        } else {
            self.next_u32() % upper
        }
    }
}

/// Seed of the flower effect: the reading (or its fallback) folded to 32 bits.
pub open spec fn fold_seed32(nanos: u64) -> u32 {
    at_least_one_u32((nanos ^ (nanos >> 32u64) ^ 0xB100_2A4Du64) as u32)
}

pub fn fold_seed32_of(nanos: u64) -> (s: u32)
    ensures
        s == fold_seed32(nanos),
        s >= 1,
{
    let mixed = nanos ^ (nanos >> 32u64) ^ 0xB100_2A4Du64;
    let s = mixed as u32;
    if s == 0 {
        1
    } else {
        s
    }
}

/// Seed of the flower effect drawn from the clock ([`SEED_MIX`] when unreadable).
pub fn flower_seed_from_time() -> (s: u32)
    ensures
        exists|reading: Option<u64>| s == fold_seed32(#[trigger] reading_or(reading, SEED_MIX)),
        s >= 1,
{
    let nanos = nanos_or(SEED_MIX);
    fold_seed32_of(nanos)
}

/// A raw clock reading as a seed, `fallback` when the clock is unreadable.
pub fn seed_from_time(fallback: u64) -> (s: u64)
    ensures
        exists|reading: Option<u64>| s == #[trigger] reading_or(reading, fallback),
{
    nanos_or(fallback)
}

} // verus!
