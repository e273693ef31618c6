//! Convert output from the synthesizer's native sample rate to a different
//! sample rate by linear interpolation between the two most recent input
//! samples.  The method is very fast and adds no latency beyond one input
//! sample, trading a little aliasing for zero delay.
//!
//! Time is counted in exact integer ticks: one input sample lasts
//! `output_rate` ticks and one output sample lasts `SAMPLE_RATE` ticks, so
//! the timing never drifts.  The caller must alternate strictly:
//! `add_input` is legal only while no output is pending and `get_output`
//! only while one is; the contracts make a violation a verification error
//! rather than a silent corruption.

use vstd::prelude::*;
use crate::SAMPLE_RATE;
use crate::fixed::{div_trunc, div_trunc_spec};

verus! {

/// Largest sample magnitude the resampler accepts (fixed-point audio).
pub const SAMPLE_LIMIT: i64 = 0x1_0000_0000;

/// Largest output rate accepted, in Hz.
pub const RATE_LIMIT: i64 = 0x80_0000;

pub struct Resampler {
    output_rate: i64,
    x2: i64,
    y1: i64,
    y2: i64,
    next_output_time: i64,
}

impl Resampler {
    /// The output sample rate in Hz; also the number of ticks per input sample.
    pub closed spec fn rate(self) -> int {
        self.output_rate as int
    }

    /// How far the latest input time lies ahead of the next output time, in
    /// ticks.  An output sample is ready exactly while this is nonnegative.
    pub closed spec fn lead(self) -> int {
        self.x2 - self.next_output_time
    }

    /// The older of the two retained input samples.
    pub closed spec fn sample_y1(self) -> int {
        self.y1 as int
    }

    /// The newer of the two retained input samples.
    pub closed spec fn sample_y2(self) -> int {
        self.y2 as int
    }

    pub closed spec fn wf(self) -> bool {
        &&& 1 <= self.output_rate <= RATE_LIMIT
        &&& 0 <= self.x2
        &&& 0 <= self.next_output_time <= self.output_rate + SAMPLE_RATE
        &&& self.x2 <= self.next_output_time + self.output_rate
        &&& self.next_output_time <= self.x2 + SAMPLE_RATE
        &&& -SAMPLE_LIMIT <= self.y1 <= SAMPLE_LIMIT
        &&& -SAMPLE_LIMIT <= self.y2 <= SAMPLE_LIMIT
    }

    pub open spec fn has_output_spec(self) -> bool {
        self.lead() >= 0
    }

    /// The value `get_output` returns: linear interpolation between the two
    /// retained samples, `lead()` ticks back from the newest one.
    pub open spec fn output_spec(self) -> int {
        div_trunc_spec(
            self.lead() * self.sample_y1() + (self.rate() - self.lead()) * self.sample_y2(),
            self.rate(),
        )
    }

    /// Create a Resampler that converts to a specified sample rate in Hz.
    pub fn new(sample_rate: i64) -> (r: Resampler)
        requires
            1 <= sample_rate <= RATE_LIMIT,
        ensures
            r.wf(),
            r.rate() == sample_rate,
            r.lead() == 0,
            r.sample_y1() == 0,
            r.sample_y2() == 0,
    {
        Resampler { output_rate: sample_rate, x2: 0, y1: 0, y2: 0, next_output_time: 0 }
    }

    /// Get whether there is output ready.
    pub fn has_output(&self) -> (b: bool)
        ensures
            b == self.has_output_spec(),
    {
        self.next_output_time <= self.x2
    }

    /// Get the next output sample.  Legal only while output is ready.
    pub fn get_output(&mut self) -> (r: i64)
        requires
            old(self).wf(),
            old(self).has_output_spec(),
        ensures
            final(self).wf(),
            r == old(self).output_spec(),
            final(self).rate() == old(self).rate(),
            final(self).lead() == old(self).lead() - SAMPLE_RATE,
            final(self).sample_y1() == old(self).sample_y1(),
            final(self).sample_y2() == old(self).sample_y2(),
            -SAMPLE_LIMIT <= r <= SAMPLE_LIMIT,
    {
        let f = self.x2 - self.next_output_time;
        proof {
            lemma_interp_bounds(
                f as int, self.output_rate as int, self.y1 as int, self.y2 as int);
        }
        let result = div_trunc(f * self.y1 + (self.output_rate - f) * self.y2, self.output_rate);
        self.next_output_time = self.next_output_time + SAMPLE_RATE;
        while self.x2 > self.output_rate && self.next_output_time > self.output_rate
            invariant
                1 <= self.output_rate <= RATE_LIMIT,
                0 <= self.x2,
                0 <= self.next_output_time,
                self.x2 <= self.next_output_time + self.output_rate,
                self.next_output_time <= self.x2 + SAMPLE_RATE,
                self.x2 - self.next_output_time
                    == old(self).x2 - (old(self).next_output_time + SAMPLE_RATE),
                self.y1 == old(self).y1,
                self.y2 == old(self).y2,
                self.output_rate == old(self).output_rate,
            decreases self.x2,
        {
            self.x2 = self.x2 - self.output_rate;
            self.next_output_time = self.next_output_time - self.output_rate;
        }
        result
    }

    /// Add an input value.  Legal only while no output is waiting.
    pub fn add_input(&mut self, y: i64)
        requires
            old(self).wf(),
            !old(self).has_output_spec(),
            -SAMPLE_LIMIT <= y <= SAMPLE_LIMIT,
        ensures
            final(self).wf(),
            final(self).rate() == old(self).rate(),
            final(self).lead() == old(self).lead() + old(self).rate(),
            final(self).sample_y1() == old(self).sample_y2(),
            final(self).sample_y2() == y,
    {
        self.y1 = self.y2;
        self.y2 = y;
        self.x2 = self.x2 + self.output_rate;
    }
}

/// The interpolation numerator stays inside `i64` range and the quotient
/// stays between the two samples' magnitudes.
proof fn lemma_interp_bounds(f: int, rate: int, y1: int, y2: int)
    requires
        0 <= f <= rate,
        1 <= rate <= RATE_LIMIT,
        -SAMPLE_LIMIT <= y1 <= SAMPLE_LIMIT,
        -SAMPLE_LIMIT <= y2 <= SAMPLE_LIMIT,
    ensures
        -(RATE_LIMIT as int) * SAMPLE_LIMIT <= f * y1 <= (RATE_LIMIT as int) * SAMPLE_LIMIT,
        -(RATE_LIMIT as int) * SAMPLE_LIMIT
            <= (rate - f) * y2
            <= (RATE_LIMIT as int) * SAMPLE_LIMIT,
        -(RATE_LIMIT as int) * 2 * SAMPLE_LIMIT
            <= f * y1 + (rate - f) * y2
            <= (RATE_LIMIT as int) * 2 * SAMPLE_LIMIT,
        -SAMPLE_LIMIT <= div_trunc_spec(f * y1 + (rate - f) * y2, rate) <= SAMPLE_LIMIT,
{
    let lim = SAMPLE_LIMIT as int;
    let num = f * y1 + (rate - f) * y2;
    assert(-(RATE_LIMIT * lim) <= f * y1 <= RATE_LIMIT * lim) by (nonlinear_arith)
        requires
            0 <= f <= RATE_LIMIT,
            -lim <= y1 <= lim,
            0 < lim,
    ;
    assert(-(RATE_LIMIT * lim) <= (rate - f) * y2 <= RATE_LIMIT * lim) by (nonlinear_arith)
        requires
            0 <= rate - f <= RATE_LIMIT,
            -lim <= y2 <= lim,
            0 < lim,
    ;
    assert(-(rate * lim) <= f * y1 + (rate - f) * y2 <= rate * lim) by (nonlinear_arith)
        requires
            0 <= f <= rate,
            1 <= rate,
            -lim <= y1 <= lim,
            -lim <= y2 <= lim,
    ;
    assert(rate * lim <= RATE_LIMIT * 2 * lim) by (nonlinear_arith)
        requires
            1 <= rate <= RATE_LIMIT,
            0 < lim,
    ;
    if num >= 0 {
        vstd::arithmetic::div_mod::lemma_div_is_ordered(num, rate * lim, rate);
        vstd::arithmetic::div_mod::lemma_div_multiples_vanish(lim, rate);
        vstd::arithmetic::div_mod::lemma_div_is_ordered(0, num, rate);
        assert(rate * lim == lim * rate) by (nonlinear_arith);
    } else {
        vstd::arithmetic::div_mod::lemma_div_is_ordered(-num, rate * lim, rate);
        vstd::arithmetic::div_mod::lemma_div_multiples_vanish(lim, rate);
        vstd::arithmetic::div_mod::lemma_div_is_ordered(0, -num, rate);
        assert(rate * lim == lim * rate) by (nonlinear_arith);
    }
}

} // verus!
