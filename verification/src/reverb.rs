//! Scheduling core of the convolutional reverb.
//!
//! The reverb applies a fixed impulse response by non-uniform partitioned
//! convolution: the impulse response is padded to a power of two, a short
//! head of at most 16 taps is convolved directly every sample, and the rest
//! is split into dyadically growing blocks, each convolved in the frequency
//! domain only once every half block width.  Input and output live in rings
//! of twice the padded width so wraparound indexing is a single mask.
//!
//! This module owns everything discrete about that algorithm: the partition
//! layout, the firing schedule of each block and the ring indexing, all with
//! exact contracts.  The numeric transform work sits outside the crate and
//! follows the schedule computed here.

use vstd::prelude::*;
use vstd::arithmetic::power2::{pow2, lemma_pow2_adds, lemma_pow2_pos, lemma_pow2_strictly_increases, lemma2_to64};
use vstd::bits::lemma_u64_low_bits_mask_is_mod;

verus! {

/// Largest impulse-response length the reverb accepts, in samples.
pub const IR_LIMIT: usize = 0x10_0000;

/// Widest direct-convolution head; shorter lags than this are cheaper to
/// convolve in the time domain than with even a tiny transform.
pub const DIRECT_LIMIT: usize = 16;

pub struct Reverb {
    ir_len: usize,
    width: usize,
    direct_width: usize,
    block_widths: Vec<usize>,
    ring_len: usize,
    position: usize,
    log_ring: Ghost<nat>,
}

impl Reverb {
    /// Length of the impulse response the plan was built for.
    pub closed spec fn ir_len_spec(self) -> int {
        self.ir_len as int
    }

    /// The impulse response length padded up to a power of two.
    pub closed spec fn width_spec(self) -> int {
        self.width as int
    }

    /// Number of taps convolved directly every sample.
    pub closed spec fn direct_width_spec(self) -> int {
        self.direct_width as int
    }

    /// Widths of the frequency-domain blocks, smallest first.
    pub closed spec fn blocks_spec(self) -> Seq<int> {
        self.block_widths@.map_values(|w: usize| w as int)
    }

    /// Length of the input and output rings.
    pub closed spec fn ring_len_spec(self) -> int {
        self.ring_len as int
    }

    /// The current write position in the rings.
    pub closed spec fn position_spec(self) -> int {
        self.position as int
    }

    /// The half-open range of impulse-response taps one block covers.
    pub open spec fn block_covers(self, block: int, tap: int) -> bool {
        self.blocks_spec()[block] / 2 <= tap < self.blocks_spec()[block]
    }

    pub closed spec fn wf(self) -> bool {
        &&& 1 <= self.direct_width <= DIRECT_LIMIT
        &&& self.ir_len <= self.width <= IR_LIMIT
        &&& self.direct_width <= self.width
        &&& self.width == self.direct_width * pow2(self.block_widths@.len())
        &&& (self.block_widths@.len() > 0 ==> self.direct_width == DIRECT_LIMIT)
        &&& (forall|i: int| 0 <= i < self.block_widths@.len()
                ==> #[trigger] self.block_widths@[i] == self.direct_width * pow2((i + 1) as nat))
        &&& (forall|i: int| 0 <= i < self.block_widths@.len()
                ==> 2 <= #[trigger] self.block_widths@[i] <= self.width)
        &&& self.ring_len == 2 * self.width
        &&& self.ring_len == pow2(self.log_ring@)
        &&& self.log_ring@ < 32
        &&& self.position < self.ring_len
    }

    /// Whether a block is due in the current sample: a block of width `w`
    /// runs its transform once every `w / 2` samples.
    pub open spec fn fires_spec(self, block: int) -> bool {
        let half = self.blocks_spec()[block] / 2;
        self.position_spec() % half == half - 1
    }

    /// Build the convolution plan for an impulse response of `ir_len`
    /// samples.  The padded width is the smallest power of two that holds
    /// the whole response; blocks double in width from twice the direct
    /// head up to the padded width.
    pub fn new(ir_len: usize) -> (r: Reverb)
        requires
            ir_len <= IR_LIMIT,
        ensures
            r.wf(),
            r.ir_len_spec() == ir_len,
            r.position_spec() == 0,
            r.ring_len_spec() == 2 * r.width_spec(),
            ir_len <= r.width_spec(),
            ir_len >= 1 ==> r.width_spec() < 2 * ir_len,
            r.direct_width_spec()
                == if r.width_spec() < DIRECT_LIMIT { r.width_spec() } else { DIRECT_LIMIT as int },
    {
        let mut width: usize = 1;
        let ghost mut e: nat = 0;
        proof {
            lemma2_to64();
        }
        while width < ir_len
            invariant
                1 <= width,
                width == pow2(e),
                ir_len <= IR_LIMIT,
                width >= 2 ==> width < 2 * ir_len,
            decreases 2 * ir_len - width,
        {
            proof {
                lemma_pow2_adds(e, 1);
                lemma2_to64();
                e = e + 1;
            }
            width = width * 2;
        }
        proof {
            // The minimal power of two holding the response also stays
            // within the length limit, itself a power of two.
            lemma2_to64();
            if e >= 21 {
                lemma_pow2_strictly_increases(0, e);
                if e > 21 {
                    lemma_pow2_strictly_increases(21, e);
                }
                assert(width >= 0x20_0000);
            }
            if e < 20 {
                lemma_pow2_strictly_increases(e, 20);
            }
            assert(width <= IR_LIMIT);
        }
        let direct_width: usize = if width < DIRECT_LIMIT { width } else { DIRECT_LIMIT };
        let ghost d: nat = if e < 4 { e } else { 4 };
        proof {
            lemma2_to64();
            if e > 4 {
                lemma_pow2_strictly_increases(4, e);
            }
        }
        let mut block_widths: Vec<usize> = Vec::new();
        let mut bw: usize = 2 * direct_width;
        let ghost mut k: nat = 1;
        proof {
            lemma_pow2_adds(d, 1);
            lemma2_to64();
            assert(direct_width * pow2(0nat) == direct_width) by (nonlinear_arith)
                requires
                    pow2(0nat) == 1,
            ;
        }
        while bw <= width
            invariant
                1 <= direct_width <= DIRECT_LIMIT,
                direct_width == pow2(d),
                direct_width <= width,
                width == pow2(e),
                width <= IR_LIMIT,
                k >= 1,
                bw == direct_width * pow2(k),
                direct_width * pow2((k - 1) as nat) <= width,
                k == block_widths@.len() + 1,
                forall|i: int| 0 <= i < block_widths@.len()
                    ==> #[trigger] block_widths@[i] == direct_width * pow2((i + 1) as nat),
                forall|i: int| 0 <= i < block_widths@.len()
                    ==> 2 <= #[trigger] block_widths@[i] <= width,
                block_widths@.len() > 0 ==> direct_width == DIRECT_LIMIT,
                width >= DIRECT_LIMIT ==> direct_width == DIRECT_LIMIT,
                direct_width < DIRECT_LIMIT ==> direct_width == width,
            decreases 2 * width - bw,
        {
            block_widths.push(bw);
            proof {
                lemma_pow2_adds(d, k);
                lemma_pow2_adds(k, 1);
                lemma2_to64();
                lemma_pow2_strictly_increases(0, k);
                vstd::arithmetic::mul::lemma_mul_inequality(
                    1, direct_width as int, pow2(k) as int);
                assert(2 * direct_width <= direct_width * pow2(k)) by (nonlinear_arith)
                    requires
                        2 <= pow2(k),
                        0 <= direct_width,
                ;
                assert(direct_width * pow2((k + 1) as nat) == 2 * (direct_width * pow2(k)))
                    by (nonlinear_arith)
                    requires
                        pow2((k + 1) as nat) == 2 * pow2(k),
                ;
                k = k + 1;
            }
            bw = bw * 2;
        }
        proof {
            // Both the padded width and the block widths are powers of two;
            // the first block width to pass the padded width stops the loop,
            // so the blocks end exactly at the padded width.
            lemma_pow2_adds(d, (k - 1) as nat);
            lemma_pow2_adds(d, k);
            if d + k - 1 > e {
                lemma_pow2_strictly_increases(e, (d + k - 1) as nat);
            }
            if d + k - 1 < e {
                if d + k < e {
                    lemma_pow2_strictly_increases((d + k) as nat, e);
                }
                assert(pow2((d + k) as nat) <= pow2(e));
            }
            assert(d + k - 1 == e);
            assert(width == direct_width * pow2((k - 1) as nat));
        }
        let ring_len: usize = 2 * width;
        let ghost lr: nat = e + 1;
        proof {
            lemma_pow2_adds(e, 1);
            if e >= 21 {
                lemma_pow2_strictly_increases(20, e);
            }
        }
        Reverb {
            ir_len,
            width,
            direct_width,
            block_widths,
            ring_len,
            position: 0,
            log_ring: Ghost(lr),
        }
    }

    /// The padded impulse-response width.
    pub fn width(&self) -> (w: usize)
        ensures
            w == self.width_spec(),
    {
        self.width
    }

    /// The number of directly convolved taps.
    pub fn direct_width(&self) -> (w: usize)
        ensures
            w == self.direct_width_spec(),
    {
        self.direct_width
    }

    /// The number of frequency-domain blocks.
    pub fn block_count(&self) -> (n: usize)
        ensures
            n == self.blocks_spec().len(),
    {
        self.block_widths.len()
    }

    /// The width of one block.
    pub fn block_width(&self, block: usize) -> (w: usize)
        requires
            block < self.blocks_spec().len(),
        ensures
            w == self.blocks_spec()[block as int],
    {
        self.block_widths[block]
    }

    /// The length of the input and output rings.
    pub fn ring_len(&self) -> (n: usize)
        ensures
            n == self.ring_len_spec(),
    {
        self.ring_len
    }

    /// The current write position in the rings.
    pub fn position(&self) -> (p: usize)
        requires
            self.wf(),
        ensures
            p == self.position_spec(),
            p < self.ring_len_spec(),
    {
        self.position
    }

    /// Whether the given block runs its transform in the current sample.
    pub fn fires(&self, block: usize) -> (b: bool)
        requires
            self.wf(),
            block < self.blocks_spec().len(),
        ensures
            b == self.fires_spec(block as int),
    {
        let w = self.block_widths[block];
        let half = w / 2;
        self.position % half == half - 1
    }

    /// The ring slot at a nonnegative offset from the current position.
    pub fn ring_index(&self, offset: usize) -> (r: usize)
        requires
            self.wf(),
            offset <= self.ring_len_spec(),
        ensures
            r == (self.position_spec() + offset) % self.ring_len_spec(),
            r < self.ring_len_spec(),
    {
        let sum: u64 = self.position as u64 + offset as u64;
        let mask: u64 = self.ring_len as u64 - 1;
        proof {
            lemma_pow2_pos(self.log_ring@);
            lemma_u64_low_bits_mask_is_mod(sum, self.log_ring@);
            vstd::arithmetic::div_mod::lemma_mod_bound(
                sum as int, self.ring_len as int);
        }
        (sum & mask) as usize
    }

    /// Advance the plan to the next sample, wrapping the ring position.
    pub fn step(&mut self)
        requires
            old(self).wf(),
        ensures
            final(self).wf(),
            final(self).position_spec()
                == (old(self).position_spec() + 1) % old(self).ring_len_spec(),
            final(self).ir_len_spec() == old(self).ir_len_spec(),
            final(self).width_spec() == old(self).width_spec(),
            final(self).direct_width_spec() == old(self).direct_width_spec(),
            final(self).blocks_spec() == old(self).blocks_spec(),
            final(self).ring_len_spec() == old(self).ring_len_spec(),
    {
        if self.position + 1 == self.ring_len {
            proof {
                vstd::arithmetic::div_mod::lemma_mod_self_0(self.ring_len as int);
            }
            self.position = 0;
        } else {
            proof {
                vstd::arithmetic::div_mod::lemma_small_mod(
                    (self.position + 1) as nat, self.ring_len as nat);
            }
            self.position = self.position + 1;
        }
    }
}

/// Beyond the direct head, every tap of the padded impulse response falls
/// inside exactly one block's half-interval, so the direct head and the
/// blocks together convolve each tap exactly once.
pub proof fn lemma_blocks_tile(rv: Reverb, tap: int)
    requires
        rv.wf(),
        0 <= tap < rv.width_spec(),
    ensures
        tap < rv.direct_width_spec()
            <==> !(exists|i: int|
                0 <= i < rv.blocks_spec().len() && #[trigger] rv.block_covers(i, tap)),
        forall|i: int, j: int|
            0 <= i < rv.blocks_spec().len() && #[trigger] rv.block_covers(i, tap)
                && 0 <= j < rv.blocks_spec().len() && #[trigger] rv.block_covers(j, tap)
                ==> i == j,
{
    let d = rv.direct_width_spec();
    let len = rv.blocks_spec().len() as int;
    assert forall|i: int| 0 <= i < len implies
        rv.blocks_spec()[i] / 2 == d * pow2(i as nat) && rv.blocks_spec()[i] == d * pow2((i + 1) as nat)
    by {
        lemma_pow2_adds(i as nat, 1);
        lemma2_to64();
        assert(d * pow2((i + 1) as nat) == d * (pow2(i as nat) * 2));
        assert(d * (pow2(i as nat) * 2) == (d * pow2(i as nat)) * 2) by (nonlinear_arith);
        lemma_pow2_pos(i as nat);
    }
    if tap < d {
        assert forall|i: int| 0 <= i < len implies !rv.block_covers(i, tap) by {
            lemma_pow2_pos(i as nat);
            vstd::arithmetic::mul::lemma_mul_inequality(1, pow2(i as nat) as int, d);
            assert(d * 1 <= d * pow2(i as nat)) by (nonlinear_arith)
                requires
                    1 <= pow2(i as nat),
                    0 < d,
            ;
        }
    } else {
        lemma_find_level(d, rv.blocks_spec().len(), tap);
        let i = choose|i: int| 0 <= i < len
            && #[trigger] (d * pow2(i as nat)) <= tap < d * pow2((i + 1) as nat);
        assert(rv.block_covers(i, tap));
    }
    assert forall|i: int, j: int|
        0 <= i < len && #[trigger] rv.block_covers(i, tap)
            && 0 <= j < len && #[trigger] rv.block_covers(j, tap)
        implies i == j
    by {
        if i < j {
            lemma_level_order(d, i, j);
        }
        if j < i {
            lemma_level_order(d, j, i);
        }
    }
}

/// A tap below the dyadic ceiling and at or above the base lies in one of
/// the dyadic levels.
proof fn lemma_find_level(d: int, len: nat, tap: int)
    requires
        1 <= d,
        d <= tap,
        tap < d * pow2(len),
    ensures
        exists|i: int| 0 <= i < len && #[trigger] (d * pow2(i as nat)) <= tap < d * pow2((i + 1) as nat),
    decreases len,
{
    lemma2_to64();
    if len == 0 {
        assert(d * pow2(len) == d) by (nonlinear_arith)
            requires
                pow2(len) == 1,
        ;
        assert(false);
    } else if tap < d * pow2((len - 1) as nat) {
        lemma_find_level(d, (len - 1) as nat, tap);
        let i = choose|i: int| 0 <= i < len - 1
            && #[trigger] (d * pow2(i as nat)) <= tap < d * pow2((i + 1) as nat);
        assert(0 <= i < len && d * pow2(i as nat) <= tap < d * pow2((i + 1) as nat));
    } else {
        let i = len - 1;
        assert(0 <= i < len && d * pow2(i as nat) <= tap < d * pow2((i + 1) as nat));
    }
}

/// A dyadic level ends no later than any higher level starts.
proof fn lemma_level_order(d: int, i: int, j: int)
    requires
        1 <= d,
        0 <= i < j,
    ensures
        d * pow2((i + 1) as nat) <= d * pow2(j as nat),
{
    if i + 1 < j {
        lemma_pow2_strictly_increases((i + 1) as nat, j as nat);
    }
    assert(d * pow2((i + 1) as nat) <= d * pow2(j as nat)) by (nonlinear_arith)
        requires
            pow2((i + 1) as nat) <= pow2(j as nat),
            0 < d,
    ;
}

} // verus!
