//! The hashing glue: a seeded builder of simple rotate-and-add hashers.
//!
//! The builder's two keys come from one 128-bit random draw made by the
//! surrounding system; the hashing itself is deterministic in the keys and
//! the bytes written.

use vstd::prelude::*;

verus! {

/// One step of the hash: rotate the state left by five bits and add the
/// byte, wrapping.
pub open spec fn hash_step(state: u64, byte: u8) -> u64 {
    u64::wrapping_add((state << 5) | (state >> 59), byte as u64)
}

/// The state after absorbing `bytes` in order, starting from `state`.
pub open spec fn hash_fold(state: u64, bytes: Seq<u8>) -> u64
    decreases bytes.len(),
{
    if bytes.len() == 0 {
        state
    } else {
        hash_fold(hash_step(state, bytes[0]), bytes.drop_first())
    }
}

/// A builder of hashers, seeded once with two random keys.
#[derive(Clone)]
pub struct RandomState {
    k0: u64,
    k1: u64,
}

/// A rotate-and-add hasher over a 64-bit state.
pub struct DefaultHasher {
    state: u64,
}

impl RandomState {
    /// The two keys the builder was seeded with.
    pub closed spec fn keys(&self) -> (u64, u64) {
        (self.k0, self.k1)
    }

    /// Seeds the builder from one 128-bit random draw: the low half becomes
    /// the first key, the high half the second.
    pub fn new(random: u128) -> (r: Self)
        ensures
            r.keys().0 == random as u64,
            r.keys().1 == (random >> 64) as u64,
    {
        let k0 = random as u64;
        let k1 = (random >> 64) as u64;
        Self { k0, k1 }
    }

    /// Hands out a fresh hasher whose state is the two keys combined.
    pub fn build_hasher(&self) -> (r: DefaultHasher)
        ensures
            r.state() == self.keys().0 ^ self.keys().1,
    {
        DefaultHasher::new(self.k0, self.k1)
    }
}

impl DefaultHasher {
    /// The current 64-bit state.
    pub closed spec fn state(&self) -> u64 {
        self.state
    }

    /// A hasher whose starting state is the two keys combined.
    pub fn new(k0: u64, k1: u64) -> (r: Self)
        ensures
            r.state() == k0 ^ k1,
    {
        Self { state: k0 ^ k1 }
    }

    /// The hash of everything written so far.
    pub fn finish(&self) -> (r: u64)
        ensures
            r == self.state(),
    {
        self.state
    }

    /// Absorbs `bytes` in order, one rotate-and-add step each.
    pub fn write(&mut self, bytes: &[u8])
        ensures
            final(self).state() == hash_fold(old(self).state(), bytes@),
    {
        let n = bytes.len();
        let mut i: usize = 0;
        proof {
            assert(bytes@.skip(0) =~= bytes@);
        }
        while i < n
            invariant
                i <= n,
                n == bytes@.len(),
                hash_fold(old(self).state(), bytes@) == hash_fold(
                    self.state(),
                    bytes@.skip(i as int),
                ),
            decreases n - i,
        {
            let byte = bytes[i];
            proof {
                assert(bytes@.skip(i as int)[0] == bytes@[i as int]);
                assert(bytes@.skip(i as int).drop_first() =~= bytes@.skip(i + 1));
            }
            self.state = ((self.state << 5u64) | (self.state >> 59u64)).wrapping_add(byte as u64);
            i = i + 1;
        }
        proof {
            assert(bytes@.skip(n as int) =~= Seq::<u8>::empty());
        }
    }
}

} // verus!
