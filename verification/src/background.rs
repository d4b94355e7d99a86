//! The backdrop's deterministic pseudo-random generator (xorshift64*), so the starfield
//! is the same every run.
use vstd::prelude::*;

verus! {

/// One xorshift64 step of the state.
pub open spec fn xorshift(x: u64) -> u64 {
    let a = x ^ (x << 13u64);
    let b = a ^ (a >> 7u64);
    b ^ (b << 17u64)
}

/// The output drawn from a new state: the high half of the state times the xorshift64*
/// multiplier (wrapping).
pub open spec fn output(x: u64) -> u32 {
    ((((x as nat * 0x2545F4914F6CDD1Dnat) % 0x1_0000_0000_0000_0000nat) as u64) >> 32u64) as u32
}

/// A xorshift64* generator.
#[derive(PartialEq, Eq, Structural, Clone, Copy, Debug)]
pub struct Rng(pub u64);

impl Rng {
    /// The next 32 random bits: step the state, then scramble it.
    pub fn next_u32(&mut self) -> (r: u32)
        ensures
            final(self).0 == xorshift(old(self).0),
            r == output(xorshift(old(self).0)),
    {
        let mut x = self.0;
        x ^= x << 13u64;
        x ^= x >> 7u64;
        x ^= x << 17u64;
        self.0 = x;
        let m = x.wrapping_mul(0x2545F4914F6CDD1D);
        (m >> 32u64) as u32
    }
}

} // verus!
