//! Fast non-cryptographically secure RNG.

use vstd::prelude::*;

verus! {

/// One round of the XorShift generator
pub open spec fn xorshift(s: u32) -> u32 {
    let a = s ^ (s << 6u32);
    let b = a ^ (a >> 1u32);
    b ^ (b << 11u32)
}

/// Fast non-cryptographically secure RNG. The implementation is
/// XorShift with a period of (2**31)-1. This is more than sufficient
/// for our use case. This RNG is of course fully deterministic and
/// will always return the same sequence since the seed is fixed.
///
/// One of the pitfalls of this algorithm is that if the output is
/// used as a raw 32bit random number (without modulo) it'll never
/// return 0.
pub struct SimpleRand {
    state: u32,
}

impl SimpleRand {
    /// Internal generator state, the last value returned
    pub closed spec fn state(&self) -> u32 {
        self.state
    }

    /// The state is never 0 (0 is a fixed point of XorShift)
    pub open spec fn wf(&self) -> bool {
        self.state() != 0
    }

    /// Create a new SimpleRand instance using a hardcoded seed
    pub fn new() -> (r: SimpleRand)
        ensures
            r.wf(),
            r.state() == 1,
    {
        SimpleRand {
            // Arbitrary seed, must be non-0
            state: 1,
        }
    }

    /// Run through one cycle of XorShift and return the internal
    /// pseudo-random state. It will *never* return 0.
    pub fn next(&mut self) -> (r: u32)
        requires
            old(self).wf(),
        ensures
            final(self).wf(),
            r == xorshift(old(self).state()),
            final(self).state() == r,
            r != 0,
    {
        proof {
            lemma_xorshift_nonzero(self.state);
        }
        // The XorShift paper lists a bunch of valid shift triplets, I
        // picked one at random.
        self.state = self.state ^ (self.state << 6);
        self.state = self.state ^ (self.state >> 1);
        self.state = self.state ^ (self.state << 11);
        self.state
    }
}

/// XorShift never maps a non-null state to 0, so the generator never
/// returns 0
pub proof fn lemma_xorshift_nonzero(s: u32)
    requires
        s != 0,
    ensures
        xorshift(s) != 0,
{
    let a = s ^ (s << 6u32);
    lemma_xor_shift(s);
    let b = a ^ (a >> 1u32);
    lemma_xor_shift(a);
    let c = b ^ (b << 11u32);
    lemma_xor_shift(b);
}

/// Xoring a non-zero word with a shifted copy of itself never gives
/// zero
proof fn lemma_xor_shift(x: u32)
    by (bit_vector)
    ensures
        x != 0 ==> x ^ (x << 6u32) != 0,
        x != 0 ==> x ^ (x >> 1u32) != 0,
        x != 0 ==> x ^ (x << 11u32) != 0,
{
}

} // verus!
