//! Core of a physically inspired string-instrument synthesizer.
//!
//! The engine works sample by sample at a fixed native rate.  All control
//! values (volumes, envelopes, frequencies, phases, pan positions) are held
//! in 16.16 fixed point so that every control decision is exact integer
//! arithmetic.  The floating-point resynthesis around the FFT backend sits
//! outside this crate and is driven entirely by the decisions made here.

pub mod director;
pub mod fixed;
pub mod instrument;
pub mod random;
pub mod resampler;
pub mod reverb;

use vstd::prelude::*;

verus! {

/// The engine's fixed native sample rate in Hz.
pub const SAMPLE_RATE: i64 = 48000;

/// Scale of the 16.16 fixed-point control values used throughout the engine.
pub const FP_ONE: i64 = 65536;

/// The family of instruments an ensemble can be built from.  The playable
/// note range and the body-resonance coefficient are fixed per type.
#[derive(Copy, Clone, Debug, PartialEq, Eq, Structural)]
pub enum InstrumentType {
    Violin,
    Viola,
    Cello,
    Bass,
}

impl InstrumentType {
    /// Lowest playable note index (MIDI numbering).
    pub fn lowest_note(&self) -> (n: i32)
        ensures
            n == self.lowest_note_spec(),
    {
        match self {
            InstrumentType::Violin => 55,
            InstrumentType::Viola => 48,
            InstrumentType::Cello => 36,
            InstrumentType::Bass => 28,
        }
    }

    /// Highest playable note index (MIDI numbering).
    pub fn highest_note(&self) -> (n: i32)
        ensures
            n == self.highest_note_spec(),
    {
        match self {
            InstrumentType::Violin => 103,
            InstrumentType::Viola => 91,
            InstrumentType::Cello => 79,
            InstrumentType::Bass => 67,
        }
    }

    pub open spec fn lowest_note_spec(self) -> i32 {
        match self {
            InstrumentType::Violin => 55,
            InstrumentType::Viola => 48,
            InstrumentType::Cello => 36,
            InstrumentType::Bass => 28,
        }
    }

    pub open spec fn highest_note_spec(self) -> i32 {
        match self {
            InstrumentType::Violin => 103,
            InstrumentType::Viola => 91,
            InstrumentType::Cello => 79,
            InstrumentType::Bass => 67,
        }
    }
}

} // verus!
