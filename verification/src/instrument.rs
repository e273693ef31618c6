//! The per-voice synthesis control engine.
//!
//! A voice works in synthesis frames whose length equals the instantaneous
//! pitch period in samples.  The fractional part of the period is carried
//! across frames in `period_offset`, so integer frame sizes never let the
//! pitch drift.  Each frame the vibrato rate and depth are modulated by a
//! slowly drifting noise process for a humanized, non-mechanical vibrato.
//!
//! This module owns the whole control state of a voice: target volume and
//! frequency, vibrato bookkeeping, the frame clock and the buffer sizes.
//! The floating-point spectral work (bow excitation, damping filter and the
//! inverse transform that renders a frame) happens outside the crate, driven
//! sample by sample by the decisions made here; its trigonometric inputs are
//! handed in as fixed-point values and everything computed from them is
//! verified.

use vstd::prelude::*;
use crate::{FP_ONE, SAMPLE_RATE, InstrumentType};
use crate::fixed::{clamp, clamp_spec, div_trunc, div_trunc_spec};

verus! {

/// Largest frequency a voice will store, in fixed-point Hz.
pub const FREQ_STORE_LIMIT: i64 = 0x1_0000_0000;

/// Instantaneous frequencies are clamped to this range before the pitch
/// period is derived, keeping every frame between 2 and 48000 samples.
pub const FREQ_MIN: i64 = 65536;
pub const FREQ_MAX: i64 = 1572864000;

/// Largest magnitude accepted for a normal deviate handed to the vibrato
/// drift process, in fixed point.
pub const NORMAL_LIMIT: i64 = 524288;

/// Largest magnitude the vibrato drift state can reach.
pub const DRIFT_LIMIT: i64 = 5242880;

/// Largest magnitude of the drift-modulated vibrato amplitude.
pub const AMP_EFF_LIMIT: i64 = 2228224;

/// Longest synthesis frame, in samples: one period of the lowest frequency.
pub const FRAME_LIMIT: usize = 48001;

/// The sizes of the synthesis frame that begins at a frame boundary.
pub struct FrameSpec {
    /// Samples in the new output frame: the integer pitch period.
    pub output_size: usize,
    /// Complex bins of the half spectrum for that frame size.
    pub spectrum_size: usize,
}

/// Lower bound of the per-type vibrato rate, in milli-Hz.
pub open spec fn vibrato_low_spec(t: InstrumentType) -> int {
    match t {
        InstrumentType::Violin => 5150,
        InstrumentType::Viola => 5150,
        InstrumentType::Cello => 5000,
        InstrumentType::Bass => 4900,
    }
}

/// Upper bound of the per-type vibrato rate, in milli-Hz.
pub open spec fn vibrato_high_spec(t: InstrumentType) -> int {
    match t {
        InstrumentType::Violin => 5400,
        InstrumentType::Viola => 5400,
        InstrumentType::Cello => 5500,
        InstrumentType::Bass => 5400,
    }
}

/// One step of the first-order drift process: the state decays slightly and
/// absorbs a fresh normal deviate.
pub open spec fn drift_next_spec(d: int, n: int) -> int {
    div_trunc_spec(99 * d, 100) + div_trunc_spec(n, 10)
}

/// Where the playing note sits in the instrument's range, in fixed point
/// (0 at the lowest note, one at the highest).
pub open spec fn note_position_spec(t: InstrumentType, note: int) -> int {
    div_trunc_spec(
        (note - t.lowest_note_spec()) * (FP_ONE as int),
        t.highest_note_spec() - t.lowest_note_spec(),
    )
}

/// The vibrato base rate in milli-Hz: it rises quadratically from the
/// type's low rate at the bottom of the range to its high rate at the top.
pub open spec fn vibrato_base_spec(t: InstrumentType, note: int) -> int {
    let x = note_position_spec(t, note);
    let x2 = (x * x) / (FP_ONE as int);
    vibrato_low_spec(t) + (x2 * (vibrato_high_spec(t) - vibrato_low_spec(t))) / (FP_ONE as int)
}

/// The drifting vibrato rate in milli-Hz: the base rate modulated by a
/// twentieth of the supplied cosine of the slow phase.
pub open spec fn vibrato_rate_spec(t: InstrumentType, note: int, phase_cos: int) -> int {
    let base = vibrato_base_spec(t, note);
    base + div_trunc_spec(base * phase_cos, 20 * (FP_ONE as int))
}

/// The drift-modulated vibrato amplitude: the target amplitude scaled by
/// one plus two fifths of the drift state.
pub open spec fn amp_eff_spec(amplitude: int, d: int) -> int {
    div_trunc_spec(amplitude * ((FP_ONE as int) + div_trunc_spec(2 * d, 5)), FP_ONE as int)
}

/// How far the vibrato phase moves in one frame, in fixed-point cycles:
/// the rate (milli-Hz) times the period (fixed-point samples) over the
/// native rate.
pub open spec fn phase_offset_spec(rate_mhz: int, period: int) -> int {
    (rate_mhz * period) / (1000 * (SAMPLE_RATE as int))
}

/// The instantaneous frequency: the target frequency modulated by the
/// effective vibrato amplitude times the supplied vibrato waveform value,
/// clamped to the representable band.
pub open spec fn current_frequency_spec(frequency: int, amp_eff: int, wave: int) -> int {
    let excursion = div_trunc_spec(amp_eff * wave, FP_ONE as int);
    clamp_spec(
        frequency + div_trunc_spec(frequency * excursion, FP_ONE as int),
        FREQ_MIN as int,
        FREQ_MAX as int,
    )
}

/// The fixed-point pitch period of a clamped frequency, in samples.
pub open spec fn period_of_spec(freq: int) -> int {
    ((SAMPLE_RATE as int) * (FP_ONE as int) * (FP_ONE as int)) / freq
}


/// The control targets of two voice states agree (everything a setter or
/// the director pushes between frames).
pub open spec fn same_controls(a: Instrument, b: Instrument) -> bool {
    &&& a.typ() == b.typ()
    &&& a.volume_spec() == b.volume_spec()
    &&& a.frequency_spec() == b.frequency_spec()
    &&& a.vibrato_amplitude_spec() == b.vibrato_amplitude_spec()
    &&& a.tremolo_amplitude_spec() == b.tremolo_amplitude_spec()
    &&& a.last_note_spec() == b.last_note_spec()
    &&& a.pending_note() == b.pending_note()
}

/// The vibrato bookkeeping of two voice states agrees.
pub open spec fn same_vibrato(a: Instrument, b: Instrument) -> bool {
    &&& a.amp_eff() == b.amp_eff()
    &&& a.phase() == b.phase()
    &&& a.drift() == b.drift()
}

/// The frame clock of two voice states agrees.
pub open spec fn same_frame(a: Instrument, b: Instrument) -> bool {
    &&& a.spectrum_size_spec() == b.spectrum_size_spec()
    &&& a.output_size_spec() == b.output_size_spec()
    &&& a.output_position_spec() == b.output_position_spec()
    &&& a.period_spec() == b.period_spec()
    &&& a.period_offset_spec() == b.period_offset_spec()
}

/// One unison voice of the ensemble.
#[derive(Clone, Copy)]
pub struct Instrument {
    instrument_type: InstrumentType,
    volume: i64,
    frequency: i64,
    vibrato_amplitude: i64,
    vibrato_scaled_amplitude: i64,
    tremolo_amplitude: i64,
    vibrato_phase: i64,
    vibrato_amplitude_drift: i64,
    spectrum_size: usize,
    output_size: usize,
    output_position: usize,
    period: i64,
    period_offset: i64,
    start_new_note: bool,
    last_note: i32,
}

impl Instrument {
    pub closed spec fn typ(self) -> InstrumentType {
        self.instrument_type
    }

    pub closed spec fn volume_spec(self) -> int {
        self.volume as int
    }

    pub closed spec fn frequency_spec(self) -> int {
        self.frequency as int
    }

    pub closed spec fn vibrato_amplitude_spec(self) -> int {
        self.vibrato_amplitude as int
    }

    pub closed spec fn amp_eff(self) -> int {
        self.vibrato_scaled_amplitude as int
    }

    pub closed spec fn tremolo_amplitude_spec(self) -> int {
        self.tremolo_amplitude as int
    }

    pub closed spec fn phase(self) -> int {
        self.vibrato_phase as int
    }

    pub closed spec fn drift(self) -> int {
        self.vibrato_amplitude_drift as int
    }

    pub closed spec fn spectrum_size_spec(self) -> int {
        self.spectrum_size as int
    }

    pub closed spec fn output_size_spec(self) -> int {
        self.output_size as int
    }

    pub closed spec fn output_position_spec(self) -> int {
        self.output_position as int
    }

    pub closed spec fn period_spec(self) -> int {
        self.period as int
    }

    pub closed spec fn period_offset_spec(self) -> int {
        self.period_offset as int
    }

    pub closed spec fn pending_note(self) -> bool {
        self.start_new_note
    }

    pub closed spec fn last_note_spec(self) -> int {
        self.last_note as int
    }

    pub closed spec fn wf(self) -> bool {
        &&& 0 <= self.volume <= FP_ONE
        &&& 0 < self.frequency <= FREQ_STORE_LIMIT
        &&& 0 <= self.vibrato_amplitude <= FP_ONE
        &&& -AMP_EFF_LIMIT <= self.vibrato_scaled_amplitude <= AMP_EFF_LIMIT
        &&& 0 <= self.tremolo_amplitude <= FP_ONE
        &&& 0 <= self.vibrato_phase < 4 * FP_ONE
        &&& -DRIFT_LIMIT <= self.vibrato_amplitude_drift <= DRIFT_LIMIT
        &&& self.spectrum_size <= 24001
        &&& self.output_position <= self.output_size <= FRAME_LIMIT
        &&& 0 <= self.period <= (SAMPLE_RATE as int) * (FP_ONE as int)
        &&& 0 <= self.period_offset < FP_ONE
        &&& 0 <= self.last_note <= 127
    }

    /// Create a voice.  The `index` is the voice's position in the
    /// ensemble; it staggers the initial vibrato phase so that unison
    /// voices do not pulse together.
    pub fn new(instrument_type: InstrumentType, index: usize) -> (r: Instrument)
        requires
            index <= 0xFFFF,
        ensures
            r.wf(),
            r.typ() == instrument_type,
            r.volume_spec() == FP_ONE,
            r.frequency_spec() == 440 * FP_ONE,
            r.vibrato_amplitude_spec() == 0,
            r.tremolo_amplitude_spec() == 0,
            r.phase() == (19661 * index) % (4 * (FP_ONE as int)),
            r.drift() == 0,
            r.output_size_spec() == 0,
            r.output_position_spec() == 0,
            r.spectrum_size_spec() == 0,
            r.period_spec() == 0,
            r.period_offset_spec() == 0,
            !r.pending_note(),
            r.last_note_spec() == 0,
    {
        let phase: i64 = (19661 * (index as i64)) % (4 * FP_ONE);
        Instrument {
            instrument_type,
            volume: FP_ONE,
            frequency: 440 * FP_ONE,
            vibrato_amplitude: 0,
            vibrato_scaled_amplitude: 0,
            tremolo_amplitude: 0,
            vibrato_phase: phase,
            vibrato_amplitude_drift: 0,
            spectrum_size: 0,
            output_size: 0,
            output_position: 0,
            period: 0,
            period_offset: 0,
            start_new_note: false,
            last_note: 0,
        }
    }

    /// Signal the start of a new note.  A repeat of the sounding note is
    /// ignored; a different note is latched and marks the next frame
    /// boundary as the start of a new note.
    pub fn note_on(&mut self, note: i32)
        requires
            old(self).wf(),
            0 <= note <= 127,
        ensures
            final(self).wf(),
            note != old(self).last_note_spec() ==> final(self).pending_note()
                && final(self).last_note_spec() == note
                && final(self).typ() == old(self).typ()
                && final(self).volume_spec() == old(self).volume_spec()
                && final(self).frequency_spec() == old(self).frequency_spec()
                && final(self).vibrato_amplitude_spec() == old(self).vibrato_amplitude_spec()
                && final(self).tremolo_amplitude_spec() == old(self).tremolo_amplitude_spec()
                && same_vibrato(*old(self), *final(self))
                && same_frame(*old(self), *final(self)),
            note == old(self).last_note_spec() ==> *final(self) == *old(self),
    {
        if note != self.last_note {
            self.start_new_note = true;
            self.last_note = note;
        }
    }

    /// Get the volume of the excitation from the bow.
    pub fn get_volume(&self) -> (v: i64)
        ensures
            v == self.volume_spec(),
    {
        self.volume
    }

    /// Set the volume of the excitation from the bow (fixed point, 0 to 1).
    pub fn set_volume(&mut self, volume: i64)
        requires
            old(self).wf(),
            0 <= volume <= FP_ONE,
        ensures
            final(self).wf(),
            final(self).volume_spec() == volume,
            final(self).typ() == old(self).typ(),
            final(self).frequency_spec() == old(self).frequency_spec(),
            final(self).vibrato_amplitude_spec() == old(self).vibrato_amplitude_spec(),
            final(self).tremolo_amplitude_spec() == old(self).tremolo_amplitude_spec(),
            final(self).last_note_spec() == old(self).last_note_spec(),
            final(self).pending_note() == old(self).pending_note(),
            same_vibrato(*old(self), *final(self)),
            same_frame(*old(self), *final(self)),
    {
        self.volume = volume;
    }

    /// Set the target frequency of the string excitation (fixed-point Hz).
    pub fn set_frequency(&mut self, frequency: i64)
        requires
            old(self).wf(),
            0 < frequency <= FREQ_STORE_LIMIT,
        ensures
            final(self).wf(),
            final(self).frequency_spec() == frequency,
            final(self).typ() == old(self).typ(),
            final(self).volume_spec() == old(self).volume_spec(),
            final(self).vibrato_amplitude_spec() == old(self).vibrato_amplitude_spec(),
            final(self).tremolo_amplitude_spec() == old(self).tremolo_amplitude_spec(),
            final(self).last_note_spec() == old(self).last_note_spec(),
            final(self).pending_note() == old(self).pending_note(),
            same_vibrato(*old(self), *final(self)),
            same_frame(*old(self), *final(self)),
    {
        self.frequency = frequency;
    }

    /// Set the amplitude of the bow noise.  The control is wired through
    /// the whole engine but the noise injection itself is a reserved hook,
    /// so the voice's state does not change.
    pub fn set_noise(&mut self, noise: i64)
        requires
            old(self).wf(),
        ensures
            *final(self) == *old(self),
    {
    }

    /// Set the amplitude of vibrato (fixed point, 0 to 1).
    pub fn set_vibrato_amplitude(&mut self, amplitude: i64)
        requires
            old(self).wf(),
            0 <= amplitude <= FP_ONE,
        ensures
            final(self).wf(),
            final(self).vibrato_amplitude_spec() == amplitude,
            final(self).typ() == old(self).typ(),
            final(self).volume_spec() == old(self).volume_spec(),
            final(self).frequency_spec() == old(self).frequency_spec(),
            final(self).tremolo_amplitude_spec() == old(self).tremolo_amplitude_spec(),
            final(self).last_note_spec() == old(self).last_note_spec(),
            final(self).pending_note() == old(self).pending_note(),
            same_vibrato(*old(self), *final(self)),
            same_frame(*old(self), *final(self)),
    {
        self.vibrato_amplitude = amplitude;
    }

    /// Set the amplitude of tremolo (fixed point, 0 to 1).
    pub fn set_tremolo_amplitude(&mut self, amplitude: i64)
        requires
            old(self).wf(),
            0 <= amplitude <= FP_ONE,
        ensures
            final(self).wf(),
            final(self).tremolo_amplitude_spec() == amplitude,
            final(self).typ() == old(self).typ(),
            final(self).volume_spec() == old(self).volume_spec(),
            final(self).frequency_spec() == old(self).frequency_spec(),
            final(self).vibrato_amplitude_spec() == old(self).vibrato_amplitude_spec(),
            final(self).last_note_spec() == old(self).last_note_spec(),
            final(self).pending_note() == old(self).pending_note(),
            same_vibrato(*old(self), *final(self)),
            same_frame(*old(self), *final(self)),
    {
        self.tremolo_amplitude = amplitude;
    }

    /// The driven frequency target, in fixed-point Hz.
    pub fn frequency_value(&self) -> (f: i64)
        ensures
            f == self.frequency_spec(),
    {
        self.frequency
    }

    /// The current vibrato phase, in fixed-point cycles modulo four.
    pub fn phase_value(&self) -> (p: i64)
        requires
            self.wf(),
        ensures
            p == self.phase(),
            0 <= p < 4 * FP_ONE,
    {
        self.vibrato_phase
    }

    /// The length of the current output frame, in samples.
    pub fn output_size_value(&self) -> (n: usize)
        ensures
            n == self.output_size_spec(),
    {
        self.output_size
    }

    /// The position within the current output frame.
    pub fn output_position_value(&self) -> (n: usize)
        ensures
            n == self.output_position_spec(),
    {
        self.output_position
    }

    /// The half-spectrum size of the current frame.
    pub fn spectrum_size_value(&self) -> (n: usize)
        ensures
            n == self.spectrum_size_spec(),
    {
        self.spectrum_size
    }

    /// The note index the voice last latched.
    pub fn last_note_value(&self) -> (n: i32)
        ensures
            n == self.last_note_spec(),
    {
        self.last_note
    }

    /// Whether the current output frame is exhausted, so the next sample
    /// starts a new synthesis frame.
    pub fn frame_ready(&self) -> (b: bool)
        ensures
            b == (self.output_position_spec() >= self.output_size_spec()),
    {
        self.output_position >= self.output_size
    }

    /// At a frame boundary, consume the pending-note mark.  When it was
    /// set, the caller must snapshot the live spectrum into an
    /// independently decaying tail and clear the live spectrum.
    pub fn take_note_snapshot(&mut self) -> (snap: bool)
        requires
            old(self).wf(),
        ensures
            final(self).wf(),
            snap == old(self).pending_note(),
            !final(self).pending_note(),
            final(self).typ() == old(self).typ(),
            final(self).volume_spec() == old(self).volume_spec(),
            final(self).frequency_spec() == old(self).frequency_spec(),
            final(self).vibrato_amplitude_spec() == old(self).vibrato_amplitude_spec(),
            final(self).tremolo_amplitude_spec() == old(self).tremolo_amplitude_spec(),
            final(self).last_note_spec() == old(self).last_note_spec(),
            same_vibrato(*old(self), *final(self)),
            same_frame(*old(self), *final(self)),
    {
        let snap = self.start_new_note;
        self.start_new_note = false;
        snap
    }

    /// Advance the vibrato bookkeeping at a frame boundary: absorb a fresh
    /// normal deviate into the drift state, derive the drifting vibrato
    /// rate from the note position and the supplied cosine of the slow
    /// phase, rescale the vibrato amplitude by the drift, and move the
    /// vibrato phase by one period of the drifted rate.  Returns the new
    /// phase in fixed-point cycles, modulo four cycles.
    pub fn advance_vibrato(&mut self, drift_normal: i64, phase_cos: i64) -> (ph: i64)
        requires
            old(self).wf(),
            -NORMAL_LIMIT <= drift_normal <= NORMAL_LIMIT,
            -FP_ONE <= phase_cos <= FP_ONE,
        ensures
            final(self).wf(),
            final(self).drift() == drift_next_spec(old(self).drift(), drift_normal as int),
            final(self).amp_eff()
                == amp_eff_spec(old(self).vibrato_amplitude_spec(), final(self).drift()),
            final(self).phase() == (old(self).phase()
                + phase_offset_spec(
                    vibrato_rate_spec(old(self).typ(), old(self).last_note_spec(), phase_cos as int),
                    old(self).period_spec(),
                )) % (4 * (FP_ONE as int)),
            ph == final(self).phase(),
            same_controls(*old(self), *final(self)),
            same_frame(*old(self), *final(self)),
    {
        // Drift the vibrato depth.
        let decayed = div_trunc(99 * self.vibrato_amplitude_drift, 100);
        let fresh = div_trunc(drift_normal, 10);
        let drift = decayed + fresh;
        self.vibrato_amplitude_drift = drift;

        // The vibrato rate rises with the note's position in the range.
        let lowest = self.instrument_type.lowest_note();
        let highest = self.instrument_type.highest_note();
        let low_mhz: i64 = match self.instrument_type {
            InstrumentType::Violin => 5150,
            InstrumentType::Viola => 5150,
            InstrumentType::Cello => 5000,
            InstrumentType::Bass => 4900,
        };
        let high_mhz: i64 = match self.instrument_type {
            InstrumentType::Violin => 5400,
            InstrumentType::Viola => 5400,
            InstrumentType::Cello => 5500,
            InstrumentType::Bass => 5400,
        };
        let x = div_trunc(
            ((self.last_note - lowest) as i64) * FP_ONE,
            (highest - lowest) as i64,
        );
        proof {
            lemma_note_position_bounds(
                self.instrument_type, self.last_note as int, x as int);
        }
        proof {
            assert(x * x <= 36 * (FP_ONE as int) * FP_ONE) by (nonlinear_arith)
                requires
                    -6 * (FP_ONE as int) <= x <= 6 * (FP_ONE as int),
            ;
            assert(0 <= x * x) by (nonlinear_arith);
            vstd::arithmetic::div_mod::lemma_div_is_ordered(0, x * x, FP_ONE as int);
            vstd::arithmetic::div_mod::lemma_div_is_ordered(
                x * x, 36 * (FP_ONE as int) * FP_ONE, FP_ONE as int);
            assert((36 * (FP_ONE as int) * FP_ONE) / (FP_ONE as int) == 36 * (FP_ONE as int)) by {
                vstd::arithmetic::div_mod::lemma_div_multiples_vanish(
                    36 * (FP_ONE as int), FP_ONE as int);
                assert(36 * (FP_ONE as int) * FP_ONE == (FP_ONE as int) * (36 * FP_ONE))
                    by (nonlinear_arith);
            }
        }
        let x2 = (x * x) / FP_ONE;
        let base = low_mhz + (x2 * (high_mhz - low_mhz)) / FP_ONE;
        proof {
            vstd::arithmetic::mul::lemma_mul_nonnegative(x2 as int, (high_mhz - low_mhz) as int);
            vstd::arithmetic::mul::lemma_mul_inequality(
                x2 as int, 36 * (FP_ONE as int), (high_mhz - low_mhz) as int);
            vstd::arithmetic::div_mod::lemma_div_is_ordered(
                0, x2 * (high_mhz - low_mhz), FP_ONE as int);
            vstd::arithmetic::div_mod::lemma_div_is_ordered(
                x2 * (high_mhz - low_mhz),
                36 * (FP_ONE as int) * (high_mhz - low_mhz),
                FP_ONE as int,
            );
            assert((36 * (FP_ONE as int) * (high_mhz - low_mhz)) / (FP_ONE as int)
                == 36 * (high_mhz - low_mhz) as int) by {
                vstd::arithmetic::div_mod::lemma_div_multiples_vanish(
                    36 * (high_mhz - low_mhz) as int, FP_ONE as int);
                assert(36 * (FP_ONE as int) * (high_mhz - low_mhz)
                    == (FP_ONE as int) * (36 * (high_mhz - low_mhz)))
                    by (nonlinear_arith);
            }
        }
        proof {
            crate::fixed::lemma_mul_bounds_signed(
                base as int, 27100, phase_cos as int, FP_ONE as int);
        }
        let rate = base + div_trunc(base * phase_cos, 20 * FP_ONE);
        proof {
            lemma_rate_bounds(base as int, phase_cos as int);
        }

        // Rescale the vibrato amplitude by the drift.
        let factor = FP_ONE + div_trunc(2 * drift, 5);
        proof {
            lemma_scaled_amplitude_bounds(
                old(self).vibrato_amplitude as int, factor as int, drift as int);
        }
        let scaled = div_trunc(self.vibrato_amplitude * factor, FP_ONE);
        self.vibrato_scaled_amplitude = scaled;

        // Move the vibrato phase by one frame of the drifted rate.
        proof {
            vstd::arithmetic::mul::lemma_mul_nonnegative(rate as int, old(self).period as int);
            vstd::arithmetic::mul::lemma_mul_upper_bound(
                rate as int, 30000, old(self).period as int,
                (SAMPLE_RATE as int) * (FP_ONE as int));
            lemma_phase_offset_bounds(rate as int, old(self).period as int);
        }
        let offset = div_trunc(rate * self.period, 1000 * SAMPLE_RATE);
        let phase = (self.vibrato_phase + offset) % (4 * FP_ONE);
        self.vibrato_phase = phase;
        phase
    }

    /// Begin a new synthesis frame.  The supplied `wave` is the vibrato
    /// waveform value at the phase `advance_vibrato` just returned (the
    /// cubed sine of the full-cycle phase).  The instantaneous frequency is
    /// the target frequency modulated by the drift-scaled vibrato; the new
    /// frame's length is its pitch period plus the carried fractional
    /// offset, rounded down, with the remainder carried to the next frame
    /// so the pitch never drifts.
    pub fn begin_frame(&mut self, wave: i64) -> (fr: FrameSpec)
        requires
            old(self).wf(),
            -FP_ONE <= wave <= FP_ONE,
            old(self).output_position_spec() >= old(self).output_size_spec(),
        ensures
            final(self).wf(),
            final(self).period_spec() == period_of_spec(
                current_frequency_spec(
                    old(self).frequency_spec(), old(self).amp_eff(), wave as int)),
            final(self).output_size_spec() * FP_ONE + final(self).period_offset_spec()
                == final(self).period_spec() + old(self).period_offset_spec(),
            0 <= final(self).period_offset_spec() < FP_ONE,
            fr.output_size == final(self).output_size_spec(),
            fr.spectrum_size == final(self).spectrum_size_spec(),
            fr.spectrum_size == fr.output_size as int / 2 + 1,
            2 <= fr.output_size <= FRAME_LIMIT,
            final(self).output_position_spec() == 0,
            same_controls(*old(self), *final(self)),
            same_vibrato(*old(self), *final(self)),
    {
        // The instantaneous frequency under vibrato, kept inside the band
        // whose periods a frame can hold.
        proof {
            lemma_excursion_bounds(old(self).vibrato_scaled_amplitude as int, wave as int);
        }
        let excursion = div_trunc(self.vibrato_scaled_amplitude * wave, FP_ONE);
        proof {
            lemma_swing_bounds(old(self).frequency as int, excursion as int);
        }
        let swing = div_trunc(self.frequency * excursion, FP_ONE);
        let freq = clamp(self.frequency + swing, FREQ_MIN, FREQ_MAX);

        // The new period and frame size; the fractional sample is carried.
        proof {
            lemma_period_bounds(freq as int);
        }
        let period = (SAMPLE_RATE * FP_ONE * FP_ONE) / freq;
        let total = period + self.period_offset;
        let size = total / FP_ONE;
        let rem = total % FP_ONE;
        proof {
            vstd::arithmetic::div_mod::lemma_fundamental_div_mod(total as int, FP_ONE as int);
            vstd::arithmetic::div_mod::lemma_mod_bound(total as int, FP_ONE as int);
            vstd::arithmetic::div_mod::lemma_div_is_ordered(
                2 * (FP_ONE as int), total as int, FP_ONE as int);
            vstd::arithmetic::div_mod::lemma_div_is_ordered(
                total as int,
                (SAMPLE_RATE as int) * (FP_ONE as int) + FP_ONE,
                FP_ONE as int,
            );
            assert((2 * (FP_ONE as int)) / (FP_ONE as int) == 2) by {
                vstd::arithmetic::div_mod::lemma_div_multiples_vanish(2, FP_ONE as int);
            }
            lemma_frame_limit();
        }
        self.period = period;
        self.period_offset = rem;
        self.output_size = size as usize;
        self.output_position = 0;
        let spectrum = (size as usize) / 2 + 1;
        self.spectrum_size = spectrum;
        FrameSpec { output_size: size as usize, spectrum_size: spectrum }
    }

    /// Take one sample out of the current frame.
    pub fn advance(&mut self)
        requires
            old(self).wf(),
            old(self).output_position_spec() < old(self).output_size_spec(),
        ensures
            final(self).wf(),
            final(self).output_position_spec() == old(self).output_position_spec() + 1,
            same_controls(*old(self), *final(self)),
            same_vibrato(*old(self), *final(self)),
            final(self).spectrum_size_spec() == old(self).spectrum_size_spec(),
            final(self).output_size_spec() == old(self).output_size_spec(),
            final(self).period_spec() == old(self).period_spec(),
            final(self).period_offset_spec() == old(self).period_offset_spec(),
    {
        self.output_position = self.output_position + 1;
    }
}

/// The note-position value stays within six units of fixed-point one.
proof fn lemma_note_position_bounds(t: InstrumentType, note: int, x: int)
    requires
        0 <= note <= 127,
        x == div_trunc_spec(
            (note - t.lowest_note_spec()) * (FP_ONE as int),
            t.highest_note_spec() - t.lowest_note_spec(),
        ),
    ensures
        -6 * (FP_ONE as int) <= x <= 6 * (FP_ONE as int),
        x == note_position_spec(t, note),
{
    let lo = t.lowest_note_spec() as int;
    let hi = t.highest_note_spec() as int;
    let num = (note - lo) * (FP_ONE as int);
    assert(-200 * (FP_ONE as int) <= num <= 200 * (FP_ONE as int));
    if num >= 0 {
        vstd::arithmetic::div_mod::lemma_div_is_ordered(num, 200 * (FP_ONE as int), hi - lo);
        vstd::arithmetic::div_mod::lemma_div_is_ordered_by_denominator(
            200 * (FP_ONE as int), 39, hi - lo);
        vstd::arithmetic::div_mod::lemma_div_is_ordered(0, num, hi - lo);
        assert((200 * (FP_ONE as int)) / 39 <= 6 * (FP_ONE as int)) by {
            vstd::arithmetic::div_mod::lemma_div_is_ordered(
                200 * (FP_ONE as int), 39 * 6 * (FP_ONE as int), 39);
            vstd::arithmetic::div_mod::lemma_div_multiples_vanish(6 * (FP_ONE as int), 39);
            assert(39 * 6 * (FP_ONE as int) == 39 * (6 * (FP_ONE as int)));
        }
    } else {
        vstd::arithmetic::div_mod::lemma_div_is_ordered(-num, 200 * (FP_ONE as int), hi - lo);
        vstd::arithmetic::div_mod::lemma_div_is_ordered_by_denominator(
            200 * (FP_ONE as int), 39, hi - lo);
        vstd::arithmetic::div_mod::lemma_div_is_ordered(0, -num, hi - lo);
        assert((200 * (FP_ONE as int)) / 39 <= 6 * (FP_ONE as int)) by {
            vstd::arithmetic::div_mod::lemma_div_is_ordered(
                200 * (FP_ONE as int), 39 * 6 * (FP_ONE as int), 39);
            vstd::arithmetic::div_mod::lemma_div_multiples_vanish(6 * (FP_ONE as int), 39);
            assert(39 * 6 * (FP_ONE as int) == 39 * (6 * (FP_ONE as int)));
        }
    }
}

/// The drifted vibrato rate stays between zero and 30 Hz (in milli-Hz).
proof fn lemma_rate_bounds(base: int, phase_cos: int)
    requires
        4900 <= base <= 27100,
        -(FP_ONE as int) <= phase_cos <= FP_ONE,
    ensures
        0 < base + div_trunc_spec(base * phase_cos, 20 * (FP_ONE as int)) <= 30000,
{
    let prod = base * phase_cos;
    crate::fixed::lemma_mul_bounds_signed(base, 27100, phase_cos, FP_ONE as int);
    if prod >= 0 {
        vstd::arithmetic::div_mod::lemma_div_is_ordered(
            prod, 27100 * (FP_ONE as int), 20 * (FP_ONE as int));
        vstd::arithmetic::div_mod::lemma_div_is_ordered(0, prod, 20 * (FP_ONE as int));
        assert((27100 * (FP_ONE as int)) / (20 * (FP_ONE as int)) == 1355) by {
            vstd::arithmetic::div_mod::lemma_div_multiples_vanish(1355, 20 * (FP_ONE as int));
            assert(27100 * (FP_ONE as int) == (20 * (FP_ONE as int)) * 1355);
        }
    } else {
        vstd::arithmetic::div_mod::lemma_div_is_ordered(
            -prod, 27100 * (FP_ONE as int), 20 * (FP_ONE as int));
        vstd::arithmetic::div_mod::lemma_div_is_ordered(0, -prod, 20 * (FP_ONE as int));
        assert((27100 * (FP_ONE as int)) / (20 * (FP_ONE as int)) == 1355) by {
            vstd::arithmetic::div_mod::lemma_div_multiples_vanish(1355, 20 * (FP_ONE as int));
            assert(27100 * (FP_ONE as int) == (20 * (FP_ONE as int)) * 1355);
        }
    }
}

/// The drift-scaled amplitude stays inside its stored bound.
proof fn lemma_scaled_amplitude_bounds(amplitude: int, factor: int, drift: int)
    requires
        0 <= amplitude <= FP_ONE,
        -DRIFT_LIMIT <= drift <= DRIFT_LIMIT,
        factor == (FP_ONE as int) + div_trunc_spec(2 * drift, 5),
    ensures
        -AMP_EFF_LIMIT
            <= div_trunc_spec(amplitude * factor, FP_ONE as int)
            <= AMP_EFF_LIMIT,
        -(FP_ONE as int) * (33 * (FP_ONE as int))
            <= amplitude * factor
            <= (FP_ONE as int) * (33 * (FP_ONE as int)),
{
    let lim = 33 * (FP_ONE as int);
    if drift >= 0 {
        vstd::arithmetic::div_mod::lemma_div_is_ordered(
            2 * drift, 2 * (DRIFT_LIMIT as int), 5);
        vstd::arithmetic::div_mod::lemma_div_is_ordered(0, 2 * drift, 5);
        assert((2 * (DRIFT_LIMIT as int)) / 5 == 2097152) by {
            vstd::arithmetic::div_mod::lemma_div_multiples_vanish(2097152, 5);
            assert(2 * (DRIFT_LIMIT as int) == 5 * 2097152);
        }
    } else {
        vstd::arithmetic::div_mod::lemma_div_is_ordered(
            -(2 * drift), 2 * (DRIFT_LIMIT as int), 5);
        vstd::arithmetic::div_mod::lemma_div_is_ordered(0, -(2 * drift), 5);
        assert((2 * (DRIFT_LIMIT as int)) / 5 == 2097152) by {
            vstd::arithmetic::div_mod::lemma_div_multiples_vanish(2097152, 5);
            assert(2 * (DRIFT_LIMIT as int) == 5 * 2097152);
        }
    }
    assert(-lim <= factor <= lim);
    let prod = amplitude * factor;
    crate::fixed::lemma_mul_bounds_signed(amplitude, FP_ONE as int, factor, lim);
    if prod >= 0 {
        vstd::arithmetic::div_mod::lemma_div_is_ordered(
            prod, (FP_ONE as int) * lim, FP_ONE as int);
        vstd::arithmetic::div_mod::lemma_div_is_ordered(0, prod, FP_ONE as int);
        vstd::arithmetic::div_mod::lemma_div_multiples_vanish(lim, FP_ONE as int);
    } else {
        vstd::arithmetic::div_mod::lemma_div_is_ordered(
            -prod, (FP_ONE as int) * lim, FP_ONE as int);
        vstd::arithmetic::div_mod::lemma_div_is_ordered(0, -prod, FP_ONE as int);
        vstd::arithmetic::div_mod::lemma_div_multiples_vanish(lim, FP_ONE as int);
    }
}

/// One frame advances the vibrato phase by at most thirty cycles.
proof fn lemma_phase_offset_bounds(rate: int, period: int)
    requires
        0 < rate <= 30000,
        0 <= period <= (SAMPLE_RATE as int) * (FP_ONE as int),
    ensures
        0 <= phase_offset_spec(rate, period) <= 30 * (FP_ONE as int),
{
    let den = 1000 * (SAMPLE_RATE as int);
    let prod = rate * period;
    vstd::arithmetic::mul::lemma_mul_nonnegative(rate, period);
    vstd::arithmetic::mul::lemma_mul_upper_bound(
        rate, 30000, period, (SAMPLE_RATE as int) * (FP_ONE as int));
    vstd::arithmetic::div_mod::lemma_div_is_ordered(0, prod, den);
    vstd::arithmetic::div_mod::lemma_div_is_ordered(
        prod, 30000 * ((SAMPLE_RATE as int) * (FP_ONE as int)), den);
    assert(30000 * ((SAMPLE_RATE as int) * (FP_ONE as int))
        == (1000 * (SAMPLE_RATE as int)) * (30 * (FP_ONE as int))) by (nonlinear_arith);
    vstd::arithmetic::div_mod::lemma_div_multiples_vanish(
        30 * (FP_ONE as int), 1000 * (SAMPLE_RATE as int));
}

/// The vibrato excursion factor is bounded by the scaled amplitude bound.
proof fn lemma_excursion_bounds(amp: int, wave: int)
    requires
        -AMP_EFF_LIMIT <= amp <= AMP_EFF_LIMIT,
        -(FP_ONE as int) <= wave <= FP_ONE,
    ensures
        -AMP_EFF_LIMIT <= div_trunc_spec(amp * wave, FP_ONE as int) <= AMP_EFF_LIMIT,
        -(AMP_EFF_LIMIT as int) * FP_ONE <= amp * wave <= (AMP_EFF_LIMIT as int) * FP_ONE,
{
    let prod = amp * wave;
    crate::fixed::lemma_mul_bounds_abs(amp, AMP_EFF_LIMIT as int, wave, FP_ONE as int);
    if prod >= 0 {
        vstd::arithmetic::div_mod::lemma_div_is_ordered(
            prod, (AMP_EFF_LIMIT as int) * FP_ONE, FP_ONE as int);
        vstd::arithmetic::div_mod::lemma_div_is_ordered(0, prod, FP_ONE as int);
        vstd::arithmetic::div_mod::lemma_div_multiples_vanish(
            AMP_EFF_LIMIT as int, FP_ONE as int);
        assert((AMP_EFF_LIMIT as int) * FP_ONE == (FP_ONE as int) * AMP_EFF_LIMIT);
    } else {
        vstd::arithmetic::div_mod::lemma_div_is_ordered(
            -prod, (AMP_EFF_LIMIT as int) * FP_ONE, FP_ONE as int);
        vstd::arithmetic::div_mod::lemma_div_is_ordered(0, -prod, FP_ONE as int);
        vstd::arithmetic::div_mod::lemma_div_multiples_vanish(
            AMP_EFF_LIMIT as int, FP_ONE as int);
        assert((AMP_EFF_LIMIT as int) * FP_ONE == (FP_ONE as int) * AMP_EFF_LIMIT);
    }
}

/// The frequency swing under vibrato stays inside `i64` range.
proof fn lemma_swing_bounds(freq: int, excursion: int)
    requires
        0 < freq <= FREQ_STORE_LIMIT,
        -AMP_EFF_LIMIT <= excursion <= AMP_EFF_LIMIT,
    ensures
        -(FREQ_STORE_LIMIT as int) * AMP_EFF_LIMIT
            <= freq * excursion
            <= (FREQ_STORE_LIMIT as int) * AMP_EFF_LIMIT,
        -(FREQ_STORE_LIMIT as int) * 40
            <= div_trunc_spec(freq * excursion, FP_ONE as int)
            <= (FREQ_STORE_LIMIT as int) * 40,
{
    let prod = freq * excursion;
    crate::fixed::lemma_mul_bounds_signed(
        freq, FREQ_STORE_LIMIT as int, excursion, AMP_EFF_LIMIT as int);
    assert((FREQ_STORE_LIMIT as int) * AMP_EFF_LIMIT
        == (FP_ONE as int) * ((FREQ_STORE_LIMIT as int) * 34));
    if prod >= 0 {
        vstd::arithmetic::div_mod::lemma_div_is_ordered(
            prod, (FP_ONE as int) * ((FREQ_STORE_LIMIT as int) * 34), FP_ONE as int);
        vstd::arithmetic::div_mod::lemma_div_is_ordered(0, prod, FP_ONE as int);
        vstd::arithmetic::div_mod::lemma_div_multiples_vanish(
            (FREQ_STORE_LIMIT as int) * 34, FP_ONE as int);
    } else {
        vstd::arithmetic::div_mod::lemma_div_is_ordered(
            -prod, (FP_ONE as int) * ((FREQ_STORE_LIMIT as int) * 34), FP_ONE as int);
        vstd::arithmetic::div_mod::lemma_div_is_ordered(0, -prod, FP_ONE as int);
        vstd::arithmetic::div_mod::lemma_div_multiples_vanish(
            (FREQ_STORE_LIMIT as int) * 34, FP_ONE as int);
    }
}

/// A clamped frequency's period lies between two samples and one second.
proof fn lemma_period_bounds(freq: int)
    requires
        FREQ_MIN <= freq <= FREQ_MAX,
    ensures
        2 * (FP_ONE as int) <= period_of_spec(freq) <= (SAMPLE_RATE as int) * FP_ONE,
{
    let num = (SAMPLE_RATE as int) * (FP_ONE as int) * (FP_ONE as int);
    vstd::arithmetic::div_mod::lemma_div_is_ordered_by_denominator(num, FREQ_MIN as int, freq);
    vstd::arithmetic::div_mod::lemma_div_is_ordered_by_denominator(num, freq, FREQ_MAX as int);
    assert(num / (FREQ_MIN as int) == (SAMPLE_RATE as int) * FP_ONE) by {
        vstd::arithmetic::div_mod::lemma_div_multiples_vanish(
            (SAMPLE_RATE as int) * FP_ONE, FREQ_MIN as int);
        assert(num == (FREQ_MIN as int) * ((SAMPLE_RATE as int) * FP_ONE));
    }
    assert(num / (FREQ_MAX as int) == 2 * (FP_ONE as int)) by {
        vstd::arithmetic::div_mod::lemma_div_multiples_vanish(
            2 * (FP_ONE as int), FREQ_MAX as int);
        assert(num == (FREQ_MAX as int) * (2 * (FP_ONE as int)));
    }
}

/// The frame size derived from the longest period still fits the frame cap.
proof fn lemma_frame_limit()
    ensures
        ((SAMPLE_RATE as int) * (FP_ONE as int) + FP_ONE) / (FP_ONE as int) <= FRAME_LIMIT,
{
    assert(((SAMPLE_RATE as int) * (FP_ONE as int) + FP_ONE) / (FP_ONE as int)
        == SAMPLE_RATE + 1) by {
        vstd::arithmetic::div_mod::lemma_div_multiples_vanish(
            (SAMPLE_RATE as int) + 1, FP_ONE as int);
        assert((SAMPLE_RATE as int) * (FP_ONE as int) + FP_ONE
            == (FP_ONE as int) * ((SAMPLE_RATE as int) + 1));
    }
}

} // verus!
