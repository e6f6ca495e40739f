//! A small non-cryptographic pseudo-random generator (xorshift) and the
//! inclusive integer range draw that the simulation takes its chance from.
use vstd::prelude::*;

verus! {

/// One xorshift step.
pub open spec fn xorshift(x: u32) -> u32 {
    let a = x ^ (x << 13u32);
    let b = a ^ (a >> 17u32);
    b ^ (b << 5u32)
}

/// The value that a draw in `[min, max]` makes of the raw number `v`.
pub open spec fn range_pick(v: u32, min: u32, max: u32) -> int {
    if min >= max {
        min as int
    } else if max - min == u32::MAX {
        v as int
    } else {
        min + (v as int) % (max - min + 1)
    }
}

/// The generator state after a draw in `[min, max]` from state `s`: an empty
/// or one-point range draws nothing.
pub open spec fn range_next(s: u32, min: u32, max: u32) -> u32 {
    if min >= max {
        s
    } else {
        xorshift(s)
    }
}

/// Seed used when the seed handed in is zero, which xorshift never leaves.
pub const DEFAULT_SEED: u32 = 0x9E37_79B9;

/// A pseudo-random number generator.
pub struct Random {
    pub state: u32,
}

impl Random {
    pub fn new(seed: u32) -> (r: Random)
        ensures
            r.state == if seed == 0 { DEFAULT_SEED } else { seed },
    {
        Random { state: if seed == 0 { DEFAULT_SEED } else { seed } }
    }

    /// The next raw number; it is also the new state.
    pub fn next_u32(&mut self) -> (r: u32)
        ensures
            final(self).state == xorshift(old(self).state),
            r == final(self).state,
    {
        let x = self.state;
        let a = x ^ (x << 13u32);
        let b = a ^ (a >> 17u32);
        let c = b ^ (b << 5u32);
        self.state = c;
        c
    }
}

/// A number in `[min, max]`, both ends included; `min` itself when the range
/// holds at most that one number.
pub fn random_range(rng: &mut Random, min: u32, max: u32) -> (r: u32)
    ensures
        r == range_pick(xorshift(old(rng).state), min, max),
        final(rng).state == range_next(old(rng).state, min, max),
        min <= max ==> min <= r <= max,
        min >= max ==> r == min,
{
    if min >= max {
        return min;
    }
    let v = rng.next_u32();
    if max - min == u32::MAX {
        v
    } else {
        min + v % (max - min + 1)
    }
}

} // verus!
