//! A quick and simple pseudo-random generator: a linear congruential
//! generator seeded from operating-system entropy.  Its statistical quality
//! is modest, which is fine for its purpose here — excitation noise and
//! natural parameter drift, never anything security-relevant.

use vstd::prelude::*;

verus! {

/// The linear congruential step: the whole behaviour of the generator.
pub open spec fn lcg_next(i: u32) -> u32 {
    (((i as int) * 1664525 + 1013904223) % 0x1_0000_0000) as u32
}

/// Relies on getrandom::getrandom: on success the whole buffer is filled
/// with operating-system entropy; the buffer's length never changes.
#[verifier::external_body]
fn entropy_bytes(data: &mut Vec<u8>) -> (ok: bool)
    ensures
        final(data)@.len() == old(data)@.len(),
{
    getrandom::getrandom(data.as_mut_slice()).is_ok()
}

/// The 32-bit seed formed from four bytes, least significant byte first.
pub open spec fn seed_of_bytes(b: Seq<u8>) -> int {
    b[0] + b[1] * 0x100 + b[2] * 0x1_0000 + b[3] * 0x100_0000
}

/// Combine four entropy bytes into a seed, least significant byte first.
fn seed_from_bytes(data: &Vec<u8>) -> (seed: u32)
    requires
        data@.len() == 4,
    ensures
        seed == seed_of_bytes(data@),
{
    (data[0] as u32)
        + (data[1] as u32) * 0x100
        + (data[2] as u32) * 0x1_0000
        + (data[3] as u32) * 0x100_0000
}

/// A pseudo-random generator over 32-bit state.
pub struct Random {
    i: u32,
}

impl Random {
    /// The generator's current state, which is also the last value returned.
    pub closed spec fn state(self) -> u32 {
        self.i
    }

    /// Create a generator seeded from operating-system entropy.  If the
    /// entropy source is unavailable the seed falls back to 0; the
    /// generator is a noise source, not a security primitive.
    pub fn new() -> (r: Random) {
        let mut data: Vec<u8> = Vec::new();
        data.push(0);
        data.push(0);
        data.push(0);
        data.push(0);
        let ok = entropy_bytes(&mut data);
        let seed: u32 = if ok { seed_from_bytes(&data) } else { 0 };
        Random { i: seed }
    }

    /// Create a generator from a fixed seed, for reproducible streams.
    pub fn from_seed(seed: u32) -> (r: Random)
        ensures
            r.state() == seed,
    {
        Random { i: seed }
    }

    /// Advance the generator and return its new state as a random integer.
    pub fn get_int(&mut self) -> (r: u32)
        ensures
            final(self).state() == lcg_next(old(self).state()),
            r == final(self).state(),
    {
        let wide: u64 = (self.i as u64) * 1664525u64 + 1013904223u64;
        let next = wide as u32;
        proof {
            assert(wide as u32 == wide % 0x1_0000_0000) by (bit_vector);
        }
        self.i = next;
        next
    }

    /// Get `count` indices randomly selected from `0..range`, all distinct.
    pub fn get_indices(&mut self, count: usize, range: usize) -> (r: Vec<usize>)
        requires
            0 < range,
            count <= range,
        ensures
            r@.len() == count,
            forall|i: int| 0 <= i < count ==> r@[i] < range,
            forall|i: int, j: int| 0 <= i < j < count ==> r@[i] != r@[j],
    {
        let mut samples: Vec<usize> = Vec::new();
        let mut k: usize = 0;
        while k < range
            invariant
                k <= range,
                samples@.len() == k,
                forall|a: int| 0 <= a < k ==> samples@[a] == a,
            decreases range - k,
        {
            samples.push(k);
            k = k + 1;
        }
        let mut i: usize = 0;
        while i < count
            invariant
                i <= count,
                count <= range,
                samples@.len() == range,
                forall|a: int| 0 <= a < range ==> samples@[a] < range,
                forall|a: int, b: int| 0 <= a < b < range ==> samples@[a] != samples@[b],
            decreases count - i,
        {
            let r0 = self.get_int();
            let draw = r0 >> 16;
            proof {
                assert(r0 >> 16 < 0x1_0000u32) by (bit_vector);
            }
            let j: usize = (draw as usize) % range;
            let ghost pre = samples@;
            let a: usize = samples[i];
            let b: usize = samples[j];
            samples[i] = b;
            samples[j] = a;
            proof {
                assert(samples@ =~= pre.update(i as int, pre[j as int]).update(
                    j as int, pre[i as int]));
                assert forall|x: int, y: int| 0 <= x < y < range
                    implies samples@[x] != samples@[y] by {
                    assert(samples@[x] == if x == i { pre[j as int] }
                        else if x == j { pre[i as int] } else { pre[x] });
                    assert(samples@[y] == if y == i { pre[j as int] }
                        else if y == j { pre[i as int] } else { pre[y] });
                }
            }
            i = i + 1;
        }
        samples.truncate(count);
        samples
    }
}

} // verus!
