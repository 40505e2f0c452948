//! The seeded shift-xor generator that drives mine placement.

use vstd::prelude::*;

verus! {

/// One step of the generator: the state that follows `x`.
pub open spec fn xorshift(x: u64) -> u64 {
    let a = x ^ (x << 13);
    let b = a ^ (a >> 7);
    b ^ (b << 17)
}

/// The state a generator starts from: the seed, or 1 for the seed 0, which
/// the shifts would never leave.
pub open spec fn start_state(seed: u64) -> u64 {
    if seed == 0 {
        1
    } else {
        seed
    }
}

/// The state reached from `state` after `n` steps.
pub open spec fn state_after(state: u64, n: nat) -> u64
    decreases n,
{
    if n == 0 {
        state
    } else {
        state_after(xorshift(state), (n - 1) as nat)
    }
}

/// The index in `0..bound` that a generator output selects: the output
/// without its top bit, reduced modulo `bound`.
pub open spec fn draw_index(output: u64, bound: nat) -> int {
    ((output >> 1) as int) % (bound as int)
}

/// A 64-bit shift-xor pseudo-random generator.
pub struct XorShift64 {
    state: u64,
}

impl View for XorShift64 {
    type V = u64;

    closed spec fn view(&self) -> u64 {
        self.state
    }
}

impl XorShift64 {
    /// A generator started from `seed`.
    pub fn new(seed: u64) -> (g: XorShift64)
        ensures
            g@ == start_state(seed),
    {
        XorShift64 { state: if seed == 0 { 1 } else { seed } }
    }

    /// Advances the generator and returns its new state.
    pub fn next_u64(&mut self) -> (r: u64)
        ensures
            r == xorshift(old(self)@),
            final(self)@ == r,
    {
        let mut x: u64 = self.state;
        x ^= x << 13;
        x ^= x >> 7;
        x ^= x << 17;
        self.state = x;
        x
    }

    /// Advances the generator and returns an index below `bound`.
    pub fn next_below(&mut self, bound: usize) -> (r: usize)
        requires
            bound > 0,
        ensures
            final(self)@ == xorshift(old(self)@),
            r == draw_index(final(self)@, bound as nat),
            r < bound,
    {
        let x: u64 = self.next_u64() >> 1;
        let r: u64 = x % (bound as u64);
        r as usize
    }
}

} // verus!
