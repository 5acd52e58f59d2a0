//! A small deterministic pseudo-random generator.
//!
//! The simulation needs jitter (initial headings, timer phase offsets,
//! steering noise). It is owned explicitly by whoever needs it and passed
//! by reference, seeded once at startup; two runs from the same seed are
//! identical.

use vstd::prelude::*;

verus! {

/// The xorshift64 state transition.
pub open spec fn spec_next_state(s: u64) -> u64 {
    let a = s ^ (s << 13);
    let b = a ^ (a >> 7);
    b ^ (b << 17)
}

/// An xorshift64 generator; the state is never zero.
pub struct SimRng {
    state: u64,
}

impl SimRng {
    /// Current generator state.
    pub closed spec fn spec_state(self) -> u64 {
        self.state
    }

    /// The state is never zero (zero is a fixed point of xorshift).
    pub open spec fn wf(self) -> bool {
        self.spec_state() != 0
    }

    /// Builds a generator from a seed; a zero seed is replaced by a fixed
    /// odd constant.
    pub fn new(seed: u64) -> (r: SimRng)
        ensures
            r.wf(),
            seed != 0 ==> r.spec_state() == seed,
    {
        SimRng { state: if seed == 0 { 0x9E3779B97F4A7C15u64 } else { seed } }
    }

    /// Advances the state and returns it.
    pub fn next_u64(&mut self) -> (r: u64)
        requires
            old(self).wf(),
        ensures
            final(self).spec_state() == spec_next_state(old(self).spec_state()),
            r == final(self).spec_state(),
            final(self).wf(),
    {
        let s0 = self.state;
        let a = s0 ^ (s0 << 13u64);
        let b = a ^ (a >> 7u64);
        let c = b ^ (b << 17u64);
        proof {
            assert(c != 0) by (bit_vector)
                requires
                    s0 != 0,
                    a == s0 ^ (s0 << 13u64),
                    b == a ^ (a >> 7u64),
                    c == b ^ (b << 17u64),
            ;
        }
        self.state = c;
        c
    }

    /// A value in [lo, hi), drawn from the next generator state.
    pub fn gen_range(&mut self, lo: i64, hi: i64) -> (r: i64)
        requires
            old(self).wf(),
            lo < hi,
            hi - lo <= i64::MAX,
        ensures
            final(self).wf(),
            final(self).spec_state() == spec_next_state(old(self).spec_state()),
            lo <= r < hi,
            r == lo + spec_next_state(old(self).spec_state()) as int % (hi - lo),
    {
        let raw = self.next_u64();
        let width = (hi - lo) as u64;
        let off = raw % width;
        lo + (off as i64)
    }
}

} // verus!
