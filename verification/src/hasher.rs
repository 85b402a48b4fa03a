//! A deterministic byte hasher.
//!
//! Not a secure or collision-resistant hasher: its single purpose is to
//! produce the same summary value for the same bytes in every process and on
//! every machine, so that anything keyed by it stays reproducible.

use vstd::prelude::*;

verus! {

/// One accumulation step: rotate the state left by one byte, then add the
/// next input byte, wrapping on overflow.
pub open spec fn hash_step(v: u64, b: u8) -> u64 {
    vstd::wrapping::u64_specs::wrapping_add(((v << 8) | (v >> 56)) as u64, b as u64)
}

/// The state after absorbing a byte sequence, front to back.
pub open spec fn hash_bytes(v: u64, bs: Seq<u8>) -> u64
    decreases bs.len(),
{
    if bs.len() == 0 {
        v
    } else {
        hash_bytes(hash_step(v, bs[0]), bs.drop_first())
    }
}

/// Absorbing one more byte applies one accumulation step to the state so
/// far.
proof fn lemma_hash_bytes_snoc(v: u64, bs: Seq<u8>, b: u8)
    ensures
        hash_bytes(v, bs.push(b)) == hash_step(hash_bytes(v, bs), b),
    decreases bs.len(),
{
    if bs.len() == 0 {
        assert(bs.push(b).drop_first() =~= Seq::<u8>::empty());
        assert(hash_bytes(hash_step(v, b), Seq::<u8>::empty()) == hash_step(v, b));
        assert(hash_bytes(v, bs) == v);
        assert(hash_bytes(v, bs.push(b)) == hash_step(v, b));
    } else {
        assert(bs.push(b)[0] == bs[0]);
        assert(bs.push(b).drop_first() =~= bs.drop_first().push(b));
        lemma_hash_bytes_snoc(hash_step(v, bs[0]), bs.drop_first(), b);
        assert(hash_bytes(v, bs.push(b)) == hash_bytes(hash_step(v, bs[0]), bs.drop_first().push(b)));
        assert(hash_bytes(v, bs) == hash_bytes(hash_step(v, bs[0]), bs.drop_first()));
    }
}

/// The deterministic hasher state.
#[derive(Debug)]
pub struct DeterministicHasher {
    /// The accumulated summary value.
    pub value: u64,
}

impl DeterministicHasher {
    /// A hasher with zeroed state.
    pub fn new() -> (r: DeterministicHasher)
        ensures
            r.value == 0,
    {
        DeterministicHasher { value: 0 }
    }

    /// Absorbs the bytes into the state, one accumulation step per byte.
    pub fn write(&mut self, bytes: &[u8])
        ensures
            final(self).value == hash_bytes(old(self).value, bytes@),
    {
        let n = bytes.len();
        let mut i: usize = 0;
        while i < n
            invariant
                i <= n,
                n == bytes@.len(),
                self.value == hash_bytes(old(self).value, bytes@.take(i as int)),
            decreases n - i,
        {
            let b = bytes[i];
            let rotated = (self.value << 8) | (self.value >> 56);
            self.value = rotated.wrapping_add(b as u64);
            proof {
                lemma_hash_bytes_snoc(old(self).value, bytes@.take(i as int), b);
                assert(bytes@.take(i + 1) =~= bytes@.take(i as int).push(b));
            }
            i = i + 1;
        }
        proof {
            assert(bytes@.take(n as int) =~= bytes@);
        }
    }

    /// The accumulated summary value.
    pub fn finish(&self) -> (r: u64)
        ensures
            r == self.value,
    {
        self.value
    }
}

} // verus!
