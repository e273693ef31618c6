//! The ensemble director: the part of the engine a host talks to.
//!
//! A Director controls a set of unison voices of one instrument type.  A
//! producer posts `Message` values into a single-consumer channel; the
//! render thread calls `generate` once per output sample.  Every 200
//! samples the director drains the queue, turns discrete events into smooth
//! scheduled `Transition`s, and pushes the resulting per-voice volume,
//! frequency and vibrato targets into the voices.  Per-voice onset delays
//! and pan positions stagger the ensemble for a natural chorus.
//!
//! All control values are 16.16 fixed point.  Pan positions are exact
//! rationals (a shared denominator per ensemble) so that the symmetry of
//! the layout is exact.  The stereo mixing, reverb and resynthesis that
//! consume these decisions run outside the crate.

use vstd::prelude::*;
use std::sync::mpsc::Receiver;
use std::sync::mpsc::TryRecvError;
use crate::{FP_ONE, InstrumentType};
use crate::fixed::{clamp, clamp_spec, ease, ease_spec, fp_lerp, fp_lerp_spec, fp_mul,
    fp_mul_spec, lemma_fp_mul_monotonic, lemma_mul_bounds_signed, note_frequency,
    note_frequency_spec, bend_ratio, bend_ratio_spec};
use crate::instrument::{Instrument, FrameSpec, FREQ_STORE_LIMIT, NORMAL_LIMIT};

verus! {

/// Largest ensemble a director will build.
pub const ENSEMBLE_LIMIT: usize = 64;

/// Largest per-voice onset delay accepted, in samples.
pub const DELAY_LIMIT: i64 = 0x1_0000_0000;

/// The step counter saturates here instead of overflowing (several
/// centuries of audio at the native rate).
pub const STEP_LIMIT: i64 = 0x100_0000_0000_0000;

/// Messages drained per control tick.  A control tick normally drains the
/// queue until it is empty; this cap only bounds the work one render call
/// can do, which the hard real-time budget needs.  A deeper backlog (which
/// no real host produces) is drained across the following ticks.
pub const DRAIN_LIMIT: usize = 16384;

/// A message that can be sent to a Director.  Messages roughly correspond
/// to MIDI events: note on, note off, and various control channels.  All
/// continuous values are 16.16 fixed point; values outside their documented
/// range are clamped when the message is applied.
pub enum Message {
    /// Rebuild the ensemble with a type and voice count (clamped to
    /// `1..=ENSEMBLE_LIMIT`).
    Reinitialize { instrument_type: InstrumentType, instrument_count: usize },
    /// Start a note; the index is gated against the instrument's range.
    NoteOn { note_index: i32, velocity: i64 },
    /// End the current note.
    NoteOff,
    /// Master volume in [0, 1].
    SetVolume { volume: i64 },
    /// Pitch bend in semitones, within one octave either way.
    SetPitchBend { semitones: i64 },
    /// Vibrato depth in [0, 1].
    SetVibrato { vibrato: i64 },
    /// Bowing intensity in [0, 1].
    SetIntensity { intensity: i64 },
    /// Brightness in [0, 1].
    SetBrightness { brightness: i64 },
    /// Attack rate in [0, 1]; higher attacks faster.
    SetAttackRate { attack: i64 },
    /// Release rate in [0, 1]; higher releases faster.
    SetReleaseRate { release: i64 },
    /// Accented bowing on or off.
    SetAccent { accent: bool },
    /// Stereo width in [0, 1].
    SetStereoWidth { width: i64 },
    /// Largest per-voice onset delay, in samples.
    SetMaxInstrumentDelay { max_delay: i64 },
    /// Reserved randomization depth in [0, 1]; stored, not yet consumed.
    SetRandomize { randomize: i64 },
}

#[verifier::external_type_specification]
#[verifier::external_body]
#[verifier::reject_recursive_types(T)]
pub struct ExReceiver<T>(Receiver<T>);

#[verifier::external_type_specification]
#[verifier::external_body]
pub struct ExTryRecvError(TryRecvError);

/// Relies on std::sync::mpsc::Receiver::try_recv: a non-blocking receive
/// that returns a queued message or an error when none is available.
/// Which message arrives is outside the model, so nothing is promised of
/// the result.
pub assume_specification<T>[ Receiver::<T>::try_recv ](
    r: &Receiver<T>,
) -> Result<T, TryRecvError>;

/// A Transition describes a continuous change to the instruments over an
/// interval of step indices.
#[derive(Clone, Copy)]
struct Transition {
    start: i64,
    end: i64,
    data: TransitionData,
}

/// What a Transition changes, and between which values.
#[derive(Clone, Copy)]
enum TransitionData {
    EnvelopeChange { start_envelope: i64, end_envelope: i64 },
    FrequencyChange { start_frequency: i64, end_frequency: i64 },
}

/// Everything a host-facing caller can observe of a director except the
/// step counter and the silence gate agrees between two states.
pub open spec fn same_control_state(a: Director, b: Director) -> bool {
    &&& a.typ() == b.typ()
    &&& a.count() == b.count()
    &&& a.max_delay_spec() == b.max_delay_spec()
    &&& a.pan_den_of() == b.pan_den_of()
    &&& a.body_resonance_of() == b.body_resonance_of()
    &&& a.reverb_channels_spec() == b.reverb_channels_spec()
    &&& a.envelope_transition_spec() == b.envelope_transition_spec()
    &&& a.envelope_target() == b.envelope_target()
    &&& a.volume_spec() == b.volume_spec()
    &&& a.bend_spec() == b.bend_spec()
    &&& a.vibrato_spec() == b.vibrato_spec()
    &&& a.intensity_spec() == b.intensity_spec()
    &&& a.brightness_spec() == b.brightness_spec()
    &&& a.attack_rate_spec() == b.attack_rate_spec()
    &&& a.release_rate_spec() == b.release_rate_spec()
    &&& a.stereo_width_spec() == b.stereo_width_spec()
    &&& a.randomize_spec() == b.randomize_spec()
    &&& a.accent_spec() == b.accent_spec()
    &&& (forall|i: int| 0 <= i < a.count() ==> #[trigger] a.voice(i) == b.voice(i))
    &&& (forall|i: int| 0 <= i < a.count()
            ==> #[trigger] a.envelope_spec(i) == b.envelope_spec(i))
    &&& (forall|i: int| 0 <= i < a.count()
            ==> #[trigger] a.frequency_spec(i) == b.frequency_spec(i))
    &&& (forall|i: int| 0 <= i < a.count() ==> #[trigger] a.delay_spec(i) == b.delay_spec(i))
    &&& (forall|i: int| 0 <= i < a.count() ==> #[trigger] a.pan_num_of(i) == b.pan_num_of(i))
}

/// The per-sample decision `generate` hands back: whether the ensemble was
/// rebuilt in this control tick (the caller must rebuild its renderers),
/// and whether this sample is silence that nothing needs to render.
pub struct StepControl {
    pub reinitialized: bool,
    pub silent: bool,
}

/// The eased weight of a transition over `[start, end)` at a delayed step
/// `j`: zero before the start, one from the end on, and the easing curve
/// of the elapsed fraction in between.
pub open spec fn transition_weight_spec(start: int, end: int, j: int) -> int {
    if j < start {
        0
    } else if j >= end {
        FP_ONE as int
    } else {
        ease_spec(((j - start) * (FP_ONE as int)) / (end - start))
    }
}

/// The value a scheduled change from `a` to `b` has at delayed step `j`.
pub open spec fn transition_value_spec(start: int, end: int, a: int, b: int, j: int) -> int {
    fp_lerp_spec(a, b, transition_weight_spec(start, end, j))
}

/// The number of steps an attack ramp takes at a given attack rate.
pub open spec fn attack_time_spec(attack: int) -> int {
    1000 + (20000 * ((FP_ONE as int) - attack)) / (FP_ONE as int)
}

/// The number of steps a release ramp takes at a given release rate.
pub open spec fn release_time_spec(release: int) -> int {
    1000 + (5000 * ((FP_ONE as int) - release)) / (FP_ONE as int)
}

/// The overall bow volume: the master volume mapped into [1/20, 1].
pub open spec fn actual_volume_spec(volume: int) -> int {
    ((FP_ONE as int) + 19 * volume) / 20
}

/// The onset delay of one voice: the ensemble spreads onsets symmetrically
/// by reordering the voice indices around the middle of the ensemble.
pub open spec fn delay_of_spec(n: int, max_delay: int, i: int) -> int {
    if n <= 1 {
        0
    } else {
        (max_delay * ((i + n / 2) % n)) / (n - 1)
    }
}

/// The numerator of one voice's pan fraction; the shared denominator is
/// `pan_den_spec`.  The pan angle is the fraction times a quarter turn.
pub open spec fn pan_num_spec(n: int, width: int, i: int) -> int {
    if n <= 1 {
        1
    } else {
        (n - 1) * (FP_ONE as int) + width * (2 * i - (n - 1))
    }
}

/// The shared denominator of the ensemble's pan fractions.
pub open spec fn pan_den_spec(n: int) -> int {
    if n <= 1 {
        2
    } else {
        2 * (n - 1) * (FP_ONE as int)
    }
}

/// The vibrato depth pushed to voice `i` of an ensemble of `n`: one
/// hundredth of the vibrato control, tapered across the ensemble so the
/// outer voices vibrato less.
pub open spec fn vibrato_taper_spec(vibrato: int, n: int, i: int) -> int {
    let base = vibrato / 100;
    if n < 4 {
        (base * (4 - i)) / 4
    } else {
        (base * (2 * (n - 1) - i)) / (2 * (n - 1))
    }
}

/// The body-resonance coefficient of an instrument type, in fixed point.
pub open spec fn body_resonance_spec(t: InstrumentType) -> int {
    match t {
        InstrumentType::Violin => 11796,
        InstrumentType::Viola => 11796,
        InstrumentType::Cello => 22938,
        InstrumentType::Bass => 32768,
    }
}

/// Whether a transition changes the envelope.
spec fn is_envelope(t: Transition) -> bool {
    t.data is EnvelopeChange
}

/// How many transitions in a sequence change the envelope.
spec fn env_count(s: Seq<Transition>) -> int
    decreases s.len(),
{
    if s.len() == 0 {
        0
    } else {
        env_count(s.drop_last()) + if is_envelope(s.last()) { 1int } else { 0int }
    }
}

/// Counting envelope transitions never gives a negative number.
proof fn lemma_env_count_nonneg(s: Seq<Transition>)
    ensures
        env_count(s) >= 0,
    decreases s.len(),
{
    if s.len() > 0 {
        lemma_env_count_nonneg(s.drop_last());
    }
}

spec fn transition_wf(t: Transition) -> bool {
    &&& 0 <= t.start < t.end
    &&& t.end <= STEP_LIMIT + DELAY_LIMIT + 21001
    &&& t.end - t.start <= 21001
    &&& match t.data {
        TransitionData::EnvelopeChange { start_envelope, end_envelope } => {
            &&& 0 <= start_envelope <= FP_ONE
            &&& 0 <= end_envelope <= FP_ONE
        },
        TransitionData::FrequencyChange { start_frequency, end_frequency } => {
            &&& 8 * FP_ONE <= start_frequency <= 13000 * FP_ONE
            &&& 8 * FP_ONE <= end_frequency <= 13000 * FP_ONE
        },
    }
}

/// A sequence of transitions without envelope changes counts none.
proof fn lemma_env_count_zero(s: Seq<Transition>)
    requires
        forall|i: int| 0 <= i < s.len() ==> !is_envelope(#[trigger] s[i]),
    ensures
        env_count(s) == 0,
    decreases s.len(),
{
    if s.len() > 0 {
        lemma_env_count_zero(s.drop_last());
    }
}

/// Appending one transition adds its envelope flag to the count.
proof fn lemma_env_count_push(s: Seq<Transition>, t: Transition)
    ensures
        env_count(s.push(t)) == env_count(s) + if is_envelope(t) { 1int } else { 0int },
{
    assert(s.push(t).drop_last() =~= s);
    assert(s.push(t).last() == t);
}

/// An envelope transition in the sequence makes the count positive.
proof fn lemma_env_count_positive(s: Seq<Transition>, i: int)
    requires
        0 <= i < s.len(),
        is_envelope(s[i]),
    ensures
        env_count(s) >= 1,
    decreases s.len(),
{
    lemma_env_count_nonneg(s.drop_last());
    if i == s.len() - 1 {
    } else {
        lemma_env_count_positive(s.drop_last(), i);
    }
}

/// With at most one envelope change scheduled, two envelope transitions
/// are the same one.
proof fn lemma_env_count_unique(s: Seq<Transition>, i: int, j: int)
    requires
        env_count(s) <= 1,
        0 <= i < s.len(),
        0 <= j < s.len(),
        is_envelope(s[i]),
        is_envelope(s[j]),
    ensures
        i == j,
    decreases s.len(),
{
    if i != j {
        if i == s.len() - 1 {
            lemma_env_count_positive(s.drop_last(), j);
        } else if j == s.len() - 1 {
            lemma_env_count_positive(s.drop_last(), i);
        } else {
            lemma_env_count_nonneg(s.drop_last());
            lemma_env_count_unique(s.drop_last(), i, j);
        }
    }
}

/// This is the main type you interact with when synthesizing audio.  A
/// Director controls a set of Instruments, all of the same type, that play
/// in unison.  Control and generation may happen on different threads: the
/// sender half of the channel posts messages, and only `generate` (on the
/// render thread) reads or changes the director's state.
pub struct Director {
    instruments: Vec<Instrument>,
    instrument_type: InstrumentType,
    lowest_note: i32,
    highest_note: i32,
    step: i64,
    steps_until_off: i64,
    transitions: Vec<Transition>,
    max_instrument_delay: i64,
    instrument_delays: Vec<i64>,
    volume: i64,
    envelope: Vec<i64>,
    frequency: Vec<i64>,
    bend: i64,
    vibrato: i64,
    intensity: i64,
    brightness: i64,
    attack_rate: i64,
    release_rate: i64,
    body_resonance: i64,
    accent: bool,
    envelope_after_transitions: i64,
    frequency_after_transitions: i64,
    message_receiver: Receiver<Message>,
    stereo_width: i64,
    pan_num: Vec<i64>,
    pan_den: i64,
    reverb_channels: usize,
    randomize: i64,
}

impl Director {
    pub closed spec fn typ(self) -> InstrumentType {
        self.instrument_type
    }

    pub closed spec fn count(self) -> int {
        self.instruments@.len() as int
    }

    pub closed spec fn voice(self, i: int) -> Instrument {
        self.instruments@[i]
    }

    pub closed spec fn step_spec(self) -> int {
        self.step as int
    }

    pub closed spec fn steps_until_off_spec(self) -> int {
        self.steps_until_off as int
    }

    pub closed spec fn volume_spec(self) -> int {
        self.volume as int
    }

    pub closed spec fn envelope_spec(self, i: int) -> int {
        self.envelope@[i] as int
    }

    pub closed spec fn frequency_spec(self, i: int) -> int {
        self.frequency@[i] as int
    }

    pub closed spec fn bend_spec(self) -> int {
        self.bend as int
    }

    pub closed spec fn delay_spec(self, i: int) -> int {
        self.instrument_delays@[i] as int
    }

    pub closed spec fn max_delay_spec(self) -> int {
        self.max_instrument_delay as int
    }

    pub closed spec fn pan_num_of(self, i: int) -> int {
        self.pan_num@[i] as int
    }

    pub closed spec fn pan_den_of(self) -> int {
        self.pan_den as int
    }

    pub closed spec fn body_resonance_of(self) -> int {
        self.body_resonance as int
    }

    pub closed spec fn reverb_channels_spec(self) -> int {
        self.reverb_channels as int
    }

    pub closed spec fn stereo_width_spec(self) -> int {
        self.stereo_width as int
    }

    pub closed spec fn attack_rate_spec(self) -> int {
        self.attack_rate as int
    }

    pub closed spec fn release_rate_spec(self) -> int {
        self.release_rate as int
    }

    pub closed spec fn envelope_target(self) -> int {
        self.envelope_after_transitions as int
    }

    /// The number of scheduled transitions that change the envelope; the
    /// monophonic legato rule keeps this at most one.
    pub closed spec fn envelope_transition_count(self) -> int {
        env_count(self.transitions@)
    }

    pub closed spec fn wf(self) -> bool {
        let n = self.instruments@.len();
        &&& 1 <= n <= ENSEMBLE_LIMIT
        &&& self.instrument_delays@.len() == n
        &&& self.envelope@.len() == n
        &&& self.frequency@.len() == n
        &&& self.pan_num@.len() == n
        &&& (forall|i: int| 0 <= i < n ==> (#[trigger] self.instruments@[i]).wf())
        &&& (forall|i: int| 0 <= i < n
                ==> (#[trigger] self.instruments@[i]).typ() == self.instrument_type)
        &&& (forall|i: int| 0 <= i < n ==> 0 <= #[trigger] self.envelope@[i] <= FP_ONE)
        &&& (forall|i: int| 0 <= i < n
                ==> 8 * FP_ONE <= #[trigger] self.frequency@[i] <= 13000 * FP_ONE)
        &&& (forall|i: int| 0 <= i < n
                ==> 0 <= #[trigger] self.instrument_delays@[i] <= self.max_instrument_delay)
        &&& (forall|i: int| 0 <= i < n
                ==> 0 <= #[trigger] self.pan_num@[i] <= self.pan_den)
        &&& 0 <= self.max_instrument_delay <= DELAY_LIMIT
        &&& 2 <= self.pan_den <= 2 * (ENSEMBLE_LIMIT as int) * FP_ONE
        &&& 0 <= self.volume <= FP_ONE
        &&& 0 <= self.vibrato <= FP_ONE
        &&& 0 <= self.intensity <= FP_ONE
        &&& 0 <= self.brightness <= FP_ONE
        &&& 0 <= self.attack_rate <= FP_ONE
        &&& 0 <= self.release_rate <= FP_ONE
        &&& 0 <= self.stereo_width <= FP_ONE
        &&& 0 <= self.randomize <= FP_ONE
        &&& FP_ONE / 2 <= self.bend <= 4 * FP_ONE
        &&& 0 <= self.body_resonance <= FP_ONE
        &&& 0 <= self.envelope_after_transitions <= FP_ONE
        &&& 0 <= self.frequency_after_transitions <= 13000 * FP_ONE
        &&& self.lowest_note == self.instrument_type.lowest_note_spec()
        &&& self.highest_note == self.instrument_type.highest_note_spec()
        &&& 0 <= self.step <= STEP_LIMIT
        &&& 0 <= self.steps_until_off <= 10000
        &&& (forall|i: int| 0 <= i < self.transitions@.len()
                ==> transition_wf(#[trigger] self.transitions@[i]))
        &&& env_count(self.transitions@) <= 1
        &&& (self.reverb_channels == if n == 1 { 1usize } else { 2usize })
    }
}

/// Everything about a voice except its volume agrees.
spec fn same_voice_but_volume(a: Instrument, b: Instrument) -> bool {
    &&& a.typ() == b.typ()
    &&& a.frequency_spec() == b.frequency_spec()
    &&& a.vibrato_amplitude_spec() == b.vibrato_amplitude_spec()
    &&& a.tremolo_amplitude_spec() == b.tremolo_amplitude_spec()
    &&& a.last_note_spec() == b.last_note_spec()
    &&& a.pending_note() == b.pending_note()
    &&& crate::instrument::same_vibrato(a, b)
    &&& crate::instrument::same_frame(a, b)
}

/// Everything about a voice except its frequency agrees.
spec fn same_voice_but_frequency(a: Instrument, b: Instrument) -> bool {
    &&& a.typ() == b.typ()
    &&& a.volume_spec() == b.volume_spec()
    &&& a.vibrato_amplitude_spec() == b.vibrato_amplitude_spec()
    &&& a.tremolo_amplitude_spec() == b.tremolo_amplitude_spec()
    &&& a.last_note_spec() == b.last_note_spec()
    &&& a.pending_note() == b.pending_note()
    &&& crate::instrument::same_vibrato(a, b)
    &&& crate::instrument::same_frame(a, b)
}

/// Everything about a voice except its vibrato depth agrees.
spec fn same_voice_but_vibrato(a: Instrument, b: Instrument) -> bool {
    &&& a.typ() == b.typ()
    &&& a.volume_spec() == b.volume_spec()
    &&& a.frequency_spec() == b.frequency_spec()
    &&& a.tremolo_amplitude_spec() == b.tremolo_amplitude_spec()
    &&& a.last_note_spec() == b.last_note_spec()
    &&& a.pending_note() == b.pending_note()
    &&& crate::instrument::same_vibrato(a, b)
    &&& crate::instrument::same_frame(a, b)
}

/// Everything about a voice except its tremolo depth agrees.
spec fn same_voice_but_tremolo(a: Instrument, b: Instrument) -> bool {
    &&& a.typ() == b.typ()
    &&& a.volume_spec() == b.volume_spec()
    &&& a.frequency_spec() == b.frequency_spec()
    &&& a.vibrato_amplitude_spec() == b.vibrato_amplitude_spec()
    &&& a.last_note_spec() == b.last_note_spec()
    &&& a.pending_note() == b.pending_note()
    &&& crate::instrument::same_vibrato(a, b)
    &&& crate::instrument::same_frame(a, b)
}

/// All director state except the voices agrees.
spec fn same_but_voices(a: Director, b: Director) -> bool {
    &&& a.instrument_type == b.instrument_type
    &&& a.lowest_note == b.lowest_note
    &&& a.highest_note == b.highest_note
    &&& a.step == b.step
    &&& a.steps_until_off == b.steps_until_off
    &&& a.transitions@ == b.transitions@
    &&& a.max_instrument_delay == b.max_instrument_delay
    &&& a.instrument_delays@ == b.instrument_delays@
    &&& a.volume == b.volume
    &&& a.envelope@ == b.envelope@
    &&& a.frequency@ == b.frequency@
    &&& a.bend == b.bend
    &&& a.vibrato == b.vibrato
    &&& a.intensity == b.intensity
    &&& a.brightness == b.brightness
    &&& a.attack_rate == b.attack_rate
    &&& a.release_rate == b.release_rate
    &&& a.body_resonance == b.body_resonance
    &&& a.accent == b.accent
    &&& a.envelope_after_transitions == b.envelope_after_transitions
    &&& a.frequency_after_transitions == b.frequency_after_transitions
    &&& a.stereo_width == b.stereo_width
    &&& a.pan_num@ == b.pan_num@
    &&& a.pan_den == b.pan_den
    &&& a.reverb_channels == b.reverb_channels
    &&& a.randomize == b.randomize
}

impl Director {
    /// Update the volumes of all voices: each plays the overall bow volume
    /// scaled by its own envelope.  Called whenever the master volume or an
    /// envelope changes.
    fn update_volume(&mut self)
        requires
            old(self).wf(),
        ensures
            final(self).wf(),
            same_but_voices(*old(self), *final(self)),
            final(self).count() == old(self).count(),
            forall|i: int| 0 <= i < old(self).count()
                ==> (#[trigger] final(self).voice(i)).volume_spec()
                    == fp_mul_spec(
                        actual_volume_spec(old(self).volume_spec()),
                        old(self).envelope_spec(i)),
            forall|i: int| 0 <= i < old(self).count()
                ==> same_voice_but_volume(old(self).voice(i), #[trigger] final(self).voice(i)),
    {
        let actual = (FP_ONE + 19 * self.volume) / 20;
        proof {
            vstd::arithmetic::div_mod::lemma_div_is_ordered(
                0, FP_ONE as int + 19 * self.volume, 20);
            vstd::arithmetic::div_mod::lemma_div_is_ordered(
                FP_ONE as int + 19 * self.volume, 20 * (FP_ONE as int), 20);
            vstd::arithmetic::div_mod::lemma_div_multiples_vanish(FP_ONE as int, 20);
        }
        let n = self.instruments.len();
        let mut i: usize = 0;
        while i < n
            invariant
                old(self).wf(),
                n == old(self).instruments@.len(),
                i <= n,
                self.instruments@.len() == n,
                same_but_voices(*old(self), *self),
                actual == actual_volume_spec(old(self).volume_spec()),
                0 <= actual <= FP_ONE,
                forall|k: int| 0 <= k < n ==> (#[trigger] self.instruments@[k]).wf(),
                forall|k: int| 0 <= k < i
                    ==> (#[trigger] self.instruments@[k]).volume_spec()
                        == fp_mul_spec(actual as int, old(self).envelope_spec(k)),
                forall|k: int| 0 <= k < i
                    ==> same_voice_but_volume(
                        old(self).instruments@[k], #[trigger] self.instruments@[k]),
                forall|k: int| i <= k < n
                    ==> #[trigger] self.instruments@[k] == old(self).instruments@[k],
            decreases n - i,
        {
            proof {
                crate::fixed::lemma_fp_mul_unit(actual as int, old(self).envelope_spec(i as int));
            }
            let v = fp_mul(actual, self.envelope[i]);
            let mut inst = self.instruments[i];
            inst.set_volume(v);
            self.instruments[i] = inst;
            i = i + 1;
        }
    }

    /// Update the frequencies of all voices: the per-voice target frequency
    /// times the pitch-bend ratio.  Called whenever a frequency or the
    /// pitch bend changes.
    fn update_frequency(&mut self)
        requires
            old(self).wf(),
        ensures
            final(self).wf(),
            same_but_voices(*old(self), *final(self)),
            final(self).count() == old(self).count(),
            forall|i: int| 0 <= i < old(self).count()
                ==> (#[trigger] final(self).voice(i)).frequency_spec()
                    == fp_mul_spec(old(self).frequency_spec(i), old(self).bend_spec()),
            forall|i: int| 0 <= i < old(self).count()
                ==> same_voice_but_frequency(old(self).voice(i), #[trigger] final(self).voice(i)),
    {
        let n = self.instruments.len();
        let mut i: usize = 0;
        while i < n
            invariant
                old(self).wf(),
                n == old(self).instruments@.len(),
                i <= n,
                self.instruments@.len() == n,
                same_but_voices(*old(self), *self),
                forall|k: int| 0 <= k < n ==> (#[trigger] self.instruments@[k]).wf(),
                forall|k: int| 0 <= k < i
                    ==> (#[trigger] self.instruments@[k]).frequency_spec()
                        == fp_mul_spec(old(self).frequency_spec(k), old(self).bend_spec()),
                forall|k: int| 0 <= k < i
                    ==> same_voice_but_frequency(
                        old(self).instruments@[k], #[trigger] self.instruments@[k]),
                forall|k: int| i <= k < n
                    ==> #[trigger] self.instruments@[k] == old(self).instruments@[k],
            decreases n - i,
        {
            proof {
                lemma_fp_mul_monotonic(
                    8 * FP_ONE, FP_ONE as int / 2,
                    old(self).frequency_spec(i as int), old(self).bend_spec());
                lemma_fp_mul_monotonic(
                    old(self).frequency_spec(i as int), old(self).bend_spec(),
                    13000 * FP_ONE, 4 * FP_ONE);
                assert(fp_mul_spec(8 * FP_ONE, FP_ONE as int / 2) == 4 * FP_ONE) by {
                    vstd::arithmetic::div_mod::lemma_div_multiples_vanish(
                        4 * FP_ONE, FP_ONE as int);
                    assert(8 * FP_ONE * (FP_ONE as int / 2) == (FP_ONE as int) * (4 * FP_ONE))
                        by (nonlinear_arith);
                }
                assert(fp_mul_spec(13000 * FP_ONE, 4 * FP_ONE) == 52000 * FP_ONE) by {
                    vstd::arithmetic::div_mod::lemma_div_multiples_vanish(
                        52000 * FP_ONE, FP_ONE as int);
                    assert(13000 * FP_ONE * (4 * FP_ONE) == (FP_ONE as int) * (52000 * FP_ONE))
                        by (nonlinear_arith);
                }
            }
            let f = fp_mul(self.frequency[i], self.bend);
            let mut inst = self.instruments[i];
            inst.set_frequency(f);
            self.instruments[i] = inst;
            i = i + 1;
        }
    }

    /// Update the vibrato depth of all voices: a hundredth of the vibrato
    /// control, tapered across the ensemble so outer voices vibrato less.
    fn update_vibrato(&mut self)
        requires
            old(self).wf(),
        ensures
            final(self).wf(),
            same_but_voices(*old(self), *final(self)),
            final(self).count() == old(self).count(),
            forall|i: int| 0 <= i < old(self).count()
                ==> same_voice_but_vibrato(old(self).voice(i), #[trigger] final(self).voice(i)),
            forall|i: int| 0 <= i < old(self).count()
                ==> (#[trigger] final(self).voice(i)).vibrato_amplitude_spec()
                    == vibrato_taper_spec(old(self).vibrato_spec(), old(self).count(), i),
    {
        let amplitude = self.vibrato / 100;
        let n = self.instruments.len();
        let mut i: usize = 0;
        while i < n
            invariant
                old(self).wf(),
                n == old(self).instruments@.len(),
                i <= n,
                self.instruments@.len() == n,
                same_but_voices(*old(self), *self),
                0 <= amplitude <= FP_ONE,
                forall|k: int| 0 <= k < n ==> (#[trigger] self.instruments@[k]).wf(),
                amplitude == old(self).vibrato_spec() / 100,
                forall|k: int| 0 <= k < i
                    ==> same_voice_but_vibrato(
                        old(self).instruments@[k], #[trigger] self.instruments@[k]),
                forall|k: int| 0 <= k < i
                    ==> (#[trigger] self.instruments@[k]).vibrato_amplitude_spec()
                        == vibrato_taper_spec(old(self).vibrato_spec(), n as int, k),
                forall|k: int| i <= k < n
                    ==> #[trigger] self.instruments@[k] == old(self).instruments@[k],
            decreases n - i,
        {
            proof {
                if n < 4 {
                    lemma_mul_bounds_signed(amplitude as int, FP_ONE as int, 4 - i as int, 4);
                    assert((FP_ONE as int) * 4 == 4 * (FP_ONE as int));
                    vstd::arithmetic::mul::lemma_mul_nonnegative(amplitude as int, 4 - i as int);
                    vstd::arithmetic::div_mod::lemma_div_is_ordered(
                        0, amplitude * (4 - i as int), 4);
                    vstd::arithmetic::div_mod::lemma_div_is_ordered(
                        amplitude * (4 - i as int), 4 * (FP_ONE as int), 4);
                    vstd::arithmetic::div_mod::lemma_div_multiples_vanish(FP_ONE as int, 4);
                } else {
                    let d = 2 * (n as int - 1);
                    lemma_mul_bounds_signed(amplitude as int, FP_ONE as int, d - i as int, d);
                    assert((FP_ONE as int) * d == d * (FP_ONE as int)) by (nonlinear_arith);
                    vstd::arithmetic::mul::lemma_mul_nonnegative(amplitude as int, d - i as int);
                    vstd::arithmetic::div_mod::lemma_div_is_ordered(
                        0, amplitude * (d - i as int), d);
                    vstd::arithmetic::div_mod::lemma_div_is_ordered(
                        amplitude * (d - i as int), d * (FP_ONE as int), d);
                    vstd::arithmetic::div_mod::lemma_div_multiples_vanish(FP_ONE as int, d);
                }
            }
            let a: i64 = if n < 4 {
                (amplitude * (4 - i as i64)) / 4
            } else {
                (amplitude * (2 * (n as i64 - 1) - i as i64)) / (2 * (n as i64 - 1))
            };
            let mut inst = self.instruments[i];
            inst.set_vibrato_amplitude(a);
            self.instruments[i] = inst;
            i = i + 1;
        }
    }

    /// Update the bow noise and tremolo depth of all voices; both derive
    /// from the master volume and the intensity control.
    fn update_sound(&mut self)
        requires
            old(self).wf(),
        ensures
            final(self).wf(),
            same_but_voices(*old(self), *final(self)),
            final(self).count() == old(self).count(),
            forall|i: int| 0 <= i < old(self).count()
                ==> same_voice_but_tremolo(old(self).voice(i), #[trigger] final(self).voice(i)),
            forall|i: int| 0 <= i < old(self).count()
                ==> (#[trigger] final(self).voice(i)).tremolo_amplitude_spec()
                    == old(self).intensity_spec() / 5,
    {
        let quiet = FP_ONE - self.volume;
        proof {
            lemma_mul_bounds_signed(quiet as int, FP_ONE as int, quiet as int, FP_ONE as int);
            vstd::arithmetic::div_mod::lemma_div_is_ordered(
                0, quiet * quiet, 20 * (FP_ONE as int));
            vstd::arithmetic::div_mod::lemma_div_is_ordered(
                quiet * quiet, (FP_ONE as int) * FP_ONE, 20 * (FP_ONE as int));
            vstd::arithmetic::div_mod::lemma_div_is_ordered_by_denominator(
                (FP_ONE as int) * FP_ONE, FP_ONE as int, 20 * (FP_ONE as int));
            vstd::arithmetic::div_mod::lemma_div_multiples_vanish(FP_ONE as int, FP_ONE as int);
            assert(0 <= quiet * quiet) by (nonlinear_arith)
                requires
                    0 <= quiet,
            ;
        }
        let noise = (quiet * quiet) / (20 * FP_ONE);
        let tremolo = self.intensity / 5;
        let n = self.instruments.len();
        let mut i: usize = 0;
        while i < n
            invariant
                old(self).wf(),
                n == old(self).instruments@.len(),
                i <= n,
                self.instruments@.len() == n,
                same_but_voices(*old(self), *self),
                0 <= tremolo <= FP_ONE,
                tremolo == old(self).intensity_spec() / 5,
                forall|k: int| 0 <= k < n ==> (#[trigger] self.instruments@[k]).wf(),
                forall|k: int| 0 <= k < i
                    ==> same_voice_but_tremolo(
                        old(self).instruments@[k], #[trigger] self.instruments@[k]),
                forall|k: int| 0 <= k < i
                    ==> (#[trigger] self.instruments@[k]).tremolo_amplitude_spec()
                        == old(self).intensity_spec() / 5,
                forall|k: int| i <= k < n
                    ==> #[trigger] self.instruments@[k] == old(self).instruments@[k],
            decreases n - i,
        {
            let mut inst = self.instruments[i];
            inst.set_noise(noise);
            inst.set_tremolo_amplitude(tremolo);
            self.instruments[i] = inst;
            i = i + 1;
        }
    }

    /// Update the pan position of each voice.  A single voice sits at the
    /// center; a larger ensemble spreads symmetrically around the center,
    /// scaled by the stereo width.  Positions are exact rationals: the pan
    /// angle of voice `i` is a quarter turn times `pan_num[i] / pan_den`.
    fn update_pan_positions(&mut self)
        requires
            old(self).wf(),
        ensures
            final(self).wf(),
            final(self).count() == old(self).count(),
            final(self).pan_den_of() == pan_den_spec(old(self).count()),
            forall|i: int| 0 <= i < old(self).count()
                ==> #[trigger] final(self).pan_num_of(i)
                    == pan_num_spec(old(self).count(), old(self).stereo_width_spec(), i),
            forall|i: int| 0 <= i < old(self).count()
                ==> #[trigger] final(self).pan_num_of(i)
                    + final(self).pan_num_of(old(self).count() - 1 - i)
                    == final(self).pan_den_of(),
            same_but_pan(*old(self), *final(self)),
    {
        let n = self.instruments.len();
        if n == 1 {
            let mut nums: Vec<i64> = Vec::new();
            nums.push(1);
            self.pan_num = nums;
            self.pan_den = 2;
        } else {
            let den = 2 * (n as i64 - 1) * FP_ONE;
            let mut nums: Vec<i64> = Vec::new();
            let mut i: usize = 0;
            while i < n
                invariant
                    old(self).wf(),
                    n == old(self).instruments@.len(),
                    2 <= n <= ENSEMBLE_LIMIT,
                    i <= n,
                    nums@.len() == i,
                    den == pan_den_spec(n as int),
                    same_but_pan(*old(self), *self),
                    self.instruments@.len() == n,
                    forall|k: int| 0 <= k < i
                        ==> #[trigger] nums@[k]
                            == pan_num_spec(n as int, old(self).stereo_width_spec(), k),
                    forall|k: int| 0 <= k < i ==> 0 <= #[trigger] nums@[k] <= den,
                decreases n - i,
            {
                proof {
                    lemma_mul_bounds_signed(
                        old(self).stereo_width_spec(), FP_ONE as int,
                        2 * (i as int) - (n as int - 1), n as int - 1);
                    assert((FP_ONE as int) * (n as int - 1) == (n as int - 1) * FP_ONE)
                        by (nonlinear_arith);
                }
                let num = (n as i64 - 1) * FP_ONE
                    + self.stereo_width * (2 * (i as i64) - (n as i64 - 1));
                nums.push(num);
                i = i + 1;
            }
            self.pan_num = nums;
            self.pan_den = den;
        }
        proof {
            let nn = old(self).count();
            let w = old(self).stereo_width_spec();
            assert forall|i: int| 0 <= i < nn implies #[trigger] self.pan_num@[i] as int
                + self.pan_num@[nn - 1 - i] as int == self.pan_den as int by {
                if nn > 1 {
                    assert(w * (2 * i - (nn - 1)) + w * (2 * (nn - 1 - i) - (nn - 1)) == 0)
                        by (nonlinear_arith);
                }
            }
        }
    }

    /// Update the onset delay of each voice: delays spread over the full
    /// range up to the configured maximum, reordered so neighbours in
    /// space do not start together.
    fn update_instrument_delays(&mut self)
        requires
            old(self).wf_except_delay_bound(),
        ensures
            final(self).wf(),
            final(self).count() == old(self).count(),
            forall|i: int| 0 <= i < old(self).count()
                ==> #[trigger] final(self).delay_spec(i)
                    == delay_of_spec(
                        old(self).count(), old(self).max_delay_spec(), i),
            same_but_delays(*old(self), *final(self)),
    {
        let n = self.instruments.len();
        if n == 1 {
            let mut ds: Vec<i64> = Vec::new();
            ds.push(0);
            self.instrument_delays = ds;
        } else {
            let mut ds: Vec<i64> = Vec::new();
            let mut i: usize = 0;
            while i < n
                invariant
                    old(self).wf_except_delay_bound(),
                    n == old(self).instruments@.len(),
                    2 <= n <= ENSEMBLE_LIMIT,
                    i <= n,
                    ds@.len() == i,
                    same_but_delays(*old(self), *self),
                    self.instruments@.len() == n,
                    self.max_instrument_delay == old(self).max_instrument_delay,
                    forall|k: int| 0 <= k < i
                        ==> #[trigger] ds@[k]
                            == delay_of_spec(n as int, old(self).max_delay_spec(), k),
                    forall|k: int| 0 <= k < i
                        ==> 0 <= #[trigger] ds@[k] <= old(self).max_delay_spec(),
                decreases n - i,
            {
                let index = ((i + n / 2) % n) as i64;
                proof {
                    lemma_mul_bounds_signed(
                        old(self).max_delay_spec(), DELAY_LIMIT as int,
                        index as int, n as int - 1);
                    vstd::arithmetic::mul::lemma_mul_nonnegative(
                        old(self).max_delay_spec(), index as int);
                    vstd::arithmetic::mul::lemma_mul_inequality(
                        index as int, n as int - 1, old(self).max_delay_spec());
                    vstd::arithmetic::mul::lemma_mul_is_commutative(
                        old(self).max_delay_spec(), index as int);
                    vstd::arithmetic::mul::lemma_mul_is_commutative(
                        old(self).max_delay_spec(), n as int - 1);
                    vstd::arithmetic::div_mod::lemma_div_is_ordered(
                        0, old(self).max_delay_spec() * index, n as int - 1);
                    vstd::arithmetic::div_mod::lemma_div_is_ordered(
                        old(self).max_delay_spec() * index,
                        old(self).max_delay_spec() * (n as int - 1),
                        n as int - 1);
                    vstd::arithmetic::div_mod::lemma_div_multiples_vanish(
                        old(self).max_delay_spec(), n as int - 1);
                }
                let d = (self.max_instrument_delay * index) / (n as i64 - 1);
                ds.push(d);
                i = i + 1;
            }
            self.instrument_delays = ds;
        }
    }

    pub closed spec fn intensity_spec(self) -> int {
        self.intensity as int
    }

    pub closed spec fn vibrato_spec(self) -> int {
        self.vibrato as int
    }

    pub closed spec fn brightness_spec(self) -> int {
        self.brightness as int
    }

    pub closed spec fn randomize_spec(self) -> int {
        self.randomize as int
    }

    pub closed spec fn accent_spec(self) -> bool {
        self.accent
    }
}

impl Director {

    /// Well-formedness with the per-voice delay bound set aside, for the
    /// moment between changing the delay ceiling and rebuilding the delays.
    spec fn wf_except_delay_bound(self) -> bool {
        let n = self.instruments@.len();
        &&& 1 <= n <= ENSEMBLE_LIMIT
        &&& self.instrument_delays@.len() == n
        &&& self.envelope@.len() == n
        &&& self.frequency@.len() == n
        &&& self.pan_num@.len() == n
        &&& (forall|i: int| 0 <= i < n ==> (#[trigger] self.instruments@[i]).wf())
        &&& (forall|i: int| 0 <= i < n
                ==> (#[trigger] self.instruments@[i]).typ() == self.instrument_type)
        &&& (forall|i: int| 0 <= i < n ==> 0 <= #[trigger] self.envelope@[i] <= FP_ONE)
        &&& (forall|i: int| 0 <= i < n
                ==> 8 * FP_ONE <= #[trigger] self.frequency@[i] <= 13000 * FP_ONE)
        &&& (forall|i: int| 0 <= i < n
                ==> 0 <= #[trigger] self.pan_num@[i] <= self.pan_den)
        &&& 0 <= self.max_instrument_delay <= DELAY_LIMIT
        &&& 2 <= self.pan_den <= 2 * (ENSEMBLE_LIMIT as int) * FP_ONE
        &&& 0 <= self.volume <= FP_ONE
        &&& 0 <= self.vibrato <= FP_ONE
        &&& 0 <= self.intensity <= FP_ONE
        &&& 0 <= self.brightness <= FP_ONE
        &&& 0 <= self.attack_rate <= FP_ONE
        &&& 0 <= self.release_rate <= FP_ONE
        &&& 0 <= self.stereo_width <= FP_ONE
        &&& 0 <= self.randomize <= FP_ONE
        &&& FP_ONE / 2 <= self.bend <= 4 * FP_ONE
        &&& 0 <= self.body_resonance <= FP_ONE
        &&& 0 <= self.envelope_after_transitions <= FP_ONE
        &&& 0 <= self.frequency_after_transitions <= 13000 * FP_ONE
        &&& self.lowest_note == self.instrument_type.lowest_note_spec()
        &&& self.highest_note == self.instrument_type.highest_note_spec()
        &&& 0 <= self.step <= STEP_LIMIT
        &&& 0 <= self.steps_until_off <= 10000
        &&& (forall|i: int| 0 <= i < self.transitions@.len()
                ==> transition_wf(#[trigger] self.transitions@[i]))
        &&& env_count(self.transitions@) <= 1
        &&& (self.reverb_channels == if n == 1 { 1usize } else { 2usize })
        &&& (forall|i: int| 0 <= i < n ==> 0 <= #[trigger] self.instrument_delays@[i])
    }

    /// The scalar controls and counters are within their ranges; the part
    /// of well-formedness that survives while the ensemble is rebuilt.
    spec fn scalars_wf(self) -> bool {
        &&& 0 <= self.volume <= FP_ONE
        &&& 0 <= self.vibrato <= FP_ONE
        &&& 0 <= self.intensity <= FP_ONE
        &&& 0 <= self.brightness <= FP_ONE
        &&& 0 <= self.attack_rate <= FP_ONE
        &&& 0 <= self.release_rate <= FP_ONE
        &&& 0 <= self.stereo_width <= FP_ONE
        &&& 0 <= self.randomize <= FP_ONE
        &&& 0 <= self.max_instrument_delay <= DELAY_LIMIT
        &&& 0 <= self.step <= STEP_LIMIT
        &&& 0 <= self.steps_until_off <= 10000
    }

    /// The unique scheduled envelope change, as (start, end, from, to), or
    /// nothing when no envelope change is pending.
    pub closed spec fn envelope_transition_spec(self) -> Option<(int, int, int, int)> {
        if exists|k: int| 0 <= k < self.transitions@.len()
            && is_envelope(#[trigger] self.transitions@[k]) {
            let k = choose|k: int| 0 <= k < self.transitions@.len()
                && is_envelope(#[trigger] self.transitions@[k]);
            let t = self.transitions@[k];
            match t.data {
                TransitionData::EnvelopeChange { start_envelope, end_envelope } => Some(
                    (t.start as int, t.end as int, start_envelope as int, end_envelope as int),
                ),
                TransitionData::FrequencyChange { .. } => None,
            }
        } else {
            None
        }
    }

    /// The unique scheduled envelope change, as (start, end, from, to).
    pub fn envelope_transition(&self) -> (r: Option<(i64, i64, i64, i64)>)
        requires
            self.wf(),
        ensures
            (match r {
                Some(t) => self.envelope_transition_spec()
                    == Some((t.0 as int, t.1 as int, t.2 as int, t.3 as int)),
                None => self.envelope_transition_spec() is None,
            }),
    {
        let n = self.transitions.len();
        let mut k: usize = 0;
        while k < n
            invariant
                self.wf(),
                n == self.transitions@.len(),
                k <= n,
                forall|m: int| 0 <= m < k ==> !is_envelope(#[trigger] self.transitions@[m]),
            decreases n - k,
        {
            let t = self.transitions[k];
            match t.data {
                TransitionData::EnvelopeChange { start_envelope, end_envelope } => {
                    proof {
                        let kc = choose|kc: int| 0 <= kc < self.transitions@.len()
                            && is_envelope(#[trigger] self.transitions@[kc]);
                        lemma_env_count_unique(self.transitions@, kc, k as int);
                    }
                    return Some((t.start, t.end, start_envelope, end_envelope));
                },
                TransitionData::FrequencyChange { .. } => {},
            }
            k = k + 1;
        }
        proof {
            if self.envelope_transition_spec() is Some {
                let kc = choose|kc: int| 0 <= kc < self.transitions@.len()
                    && is_envelope(#[trigger] self.transitions@[kc]);
                assert(!is_envelope(self.transitions@[kc]));
            }
        }
        None
    }

    /// Initialize the set of instruments controlled by this Director.  This
    /// runs when it is first created, and again whenever a Reinitialize
    /// message arrives: the ensemble is rebuilt to the requested type and
    /// size, every scheduled transition is dropped, pan positions, onset
    /// delays and per-voice targets are recomputed, and the body-resonance
    /// coefficient of the type is looked up.
    fn initialize_instruments(&mut self, instrument_type: InstrumentType, instrument_count: usize)
        requires
            old(self).scalars_wf(),
            1 <= instrument_count <= ENSEMBLE_LIMIT,
        ensures
            final(self).wf(),
            final(self).typ() == instrument_type,
            final(self).count() == instrument_count,
            final(self).body_resonance_of() == body_resonance_spec(instrument_type),
            final(self).envelope_transition_count() == 0,
            final(self).envelope_transition_spec() is None,
            final(self).reverb_channels_spec() == (if instrument_count == 1 { 1int } else { 2int }),
            final(self).bend_spec() == FP_ONE,
            final(self).envelope_target() == 0,
            final(self).pan_den_of() == pan_den_spec(instrument_count as int),
            forall|i: int| 0 <= i < instrument_count
                ==> #[trigger] final(self).pan_num_of(i)
                    == pan_num_spec(instrument_count as int, old(self).stereo_width_spec(), i),
            forall|i: int| 0 <= i < instrument_count
                ==> #[trigger] final(self).pan_num_of(i)
                    + final(self).pan_num_of(instrument_count - 1 - i)
                    == final(self).pan_den_of(),
            forall|i: int| 0 <= i < instrument_count
                ==> #[trigger] final(self).delay_spec(i)
                    == delay_of_spec(
                        instrument_count as int, old(self).max_delay_spec(), i),
            forall|i: int| 0 <= i < instrument_count
                ==> #[trigger] final(self).envelope_spec(i) == 0,
            forall|i: int| 0 <= i < instrument_count
                ==> #[trigger] final(self).frequency_spec(i) == 440 * FP_ONE,
            forall|i: int| 0 <= i < instrument_count
                ==> (#[trigger] final(self).voice(i)).volume_spec() == 0,
            final(self).step_spec() == old(self).step_spec(),
            final(self).steps_until_off_spec() == old(self).steps_until_off_spec(),
            final(self).volume_spec() == old(self).volume_spec(),
            final(self).stereo_width_spec() == old(self).stereo_width_spec(),
            final(self).max_delay_spec() == old(self).max_delay_spec(),
            final(self).attack_rate_spec() == old(self).attack_rate_spec(),
            final(self).release_rate_spec() == old(self).release_rate_spec(),
            final(self).vibrato_spec() == old(self).vibrato_spec(),
            final(self).intensity_spec() == old(self).intensity_spec(),
            final(self).brightness_spec() == old(self).brightness_spec(),
            final(self).randomize_spec() == old(self).randomize_spec(),
            final(self).accent_spec() == old(self).accent_spec(),
    {
        self.instrument_type = instrument_type;
        let mut insts: Vec<Instrument> = Vec::new();
        let mut i: usize = 0;
        while i < instrument_count
            invariant
                i <= instrument_count <= ENSEMBLE_LIMIT,
                insts@.len() == i,
                forall|k: int| 0 <= k < i ==> (#[trigger] insts@[k]).wf(),
                forall|k: int| 0 <= k < i
                    ==> (#[trigger] insts@[k]).typ() == instrument_type,
            decreases instrument_count - i,
        {
            insts.push(Instrument::new(instrument_type, i));
            i = i + 1;
        }
        self.instruments = insts;
        self.transitions = Vec::new();
        let mut zero_delays: Vec<i64> = Vec::new();
        let mut zero_env: Vec<i64> = Vec::new();
        let mut base_freq: Vec<i64> = Vec::new();
        let mut base_pan: Vec<i64> = Vec::new();
        let mut k: usize = 0;
        while k < instrument_count
            invariant
                k <= instrument_count,
                zero_delays@.len() == k,
                zero_env@.len() == k,
                base_freq@.len() == k,
                base_pan@.len() == k,
                forall|m: int| 0 <= m < k ==> #[trigger] zero_delays@[m] == 0,
                forall|m: int| 0 <= m < k ==> #[trigger] zero_env@[m] == 0,
                forall|m: int| 0 <= m < k ==> #[trigger] base_freq@[m] == 440 * FP_ONE,
                forall|m: int| 0 <= m < k ==> #[trigger] base_pan@[m] == 0,
            decreases instrument_count - k,
        {
            zero_delays.push(0);
            zero_env.push(0);
            base_freq.push(440 * FP_ONE);
            base_pan.push(0);
            k = k + 1;
        }
        self.instrument_delays = zero_delays;
        self.envelope = zero_env;
        self.frequency = base_freq;
        self.pan_num = base_pan;
        self.pan_den = 2;
        self.bend = FP_ONE;
        self.envelope_after_transitions = 0;
        self.frequency_after_transitions = 0;
        self.lowest_note = self.instrument_type.lowest_note();
        self.highest_note = self.instrument_type.highest_note();
        self.body_resonance = match instrument_type {
            InstrumentType::Violin => 11796,
            InstrumentType::Viola => 11796,
            InstrumentType::Cello => 22938,
            InstrumentType::Bass => 32768,
        };
        self.reverb_channels = if instrument_count == 1 { 1 } else { 2 };
        self.update_pan_positions();
        let ghost after_pan = *self;
        self.update_vibrato();
        let ghost before_volume = *self;
        self.update_volume();
        proof {
            assert forall|i2: int| 0 <= i2 < instrument_count implies
                (#[trigger] self.voice(i2)).volume_spec() == 0 by {
                assert(before_volume.envelope_spec(i2) == 0);
                assert(self.voice(i2).volume_spec() == fp_mul_spec(
                    actual_volume_spec(before_volume.volume_spec()),
                    before_volume.envelope_spec(i2)));
                vstd::arithmetic::div_mod::lemma_div_multiples_vanish(0, FP_ONE as int);
            }
        }
        let ghost before_frequency = *self;
        self.update_frequency();
        proof {
            assert forall|i2: int| 0 <= i2 < instrument_count implies
                (#[trigger] self.voice(i2)).frequency_spec() == 440 * FP_ONE by {
                assert(before_frequency.frequency_spec(i2) == 440 * FP_ONE);
                assert(self.voice(i2).frequency_spec() == fp_mul_spec(
                    before_frequency.frequency_spec(i2), before_frequency.bend_spec()));
                assert(fp_mul_spec(440 * FP_ONE, FP_ONE as int) == 440 * FP_ONE) by {
                    vstd::arithmetic::div_mod::lemma_div_multiples_vanish(
                        440 * FP_ONE, FP_ONE as int);
                    assert(440 * FP_ONE * (FP_ONE as int)
                        == (FP_ONE as int) * (440 * FP_ONE)) by (nonlinear_arith);
                }
            }
            assert forall|i2: int| 0 <= i2 < instrument_count implies
                (#[trigger] self.voice(i2)).volume_spec() == 0 by {}
        }
        let ghost after_freq = *self;
        self.update_sound();
        let ghost after_sound = *self;
        self.update_instrument_delays();
        proof {
            assert forall|i2: int| 0 <= i2 < instrument_count implies
                (#[trigger] self.voice(i2)).volume_spec() == 0 by {
                assert(same_voice_but_tremolo(after_freq.voice(i2), after_sound.voice(i2)));
                assert(after_freq.voice(i2).volume_spec() == 0);
                assert(self.voice(i2) == after_sound.voice(i2));
            }
        }
        proof {
            assert(self.pan_num@ == after_pan.pan_num@);
            assert(self.pan_den == after_pan.pan_den);
            assert forall|i2: int| 0 <= i2 < instrument_count implies
                #[trigger] self.pan_num_of(i2)
                    == pan_num_spec(instrument_count as int, old(self).stereo_width_spec(), i2)
                    && self.pan_num_of(i2) + self.pan_num_of(instrument_count - 1 - i2)
                        == self.pan_den_of() by {
                assert(after_pan.pan_num_of(i2)
                    == pan_num_spec(instrument_count as int, old(self).stereo_width_spec(), i2));
                assert(after_pan.pan_num_of(i2)
                    + after_pan.pan_num_of(instrument_count - 1 - i2)
                    == after_pan.pan_den_of());
            }
        }
    }

    /// Create a Director for an ensemble of unison voices of one type.
    /// You control it by sending `Message` values through the sender half
    /// of the channel; the only method called directly on the render path
    /// is `generate`.
    pub fn new(
        instrument_type: InstrumentType,
        instrument_count: usize,
        message_receiver: Receiver<Message>,
    ) -> (r: Director)
        requires
            1 <= instrument_count <= ENSEMBLE_LIMIT,
        ensures
            r.wf(),
            r.typ() == instrument_type,
            r.count() == instrument_count,
            r.step_spec() == 0,
            r.body_resonance_of() == body_resonance_spec(instrument_type),
            r.envelope_transition_spec() is None,
            r.reverb_channels_spec() == (if instrument_count == 1 { 1int } else { 2int }),
            r.max_delay_spec() == 2000,
            r.pan_den_of() == pan_den_spec(instrument_count as int),
            forall|i: int| 0 <= i < instrument_count
                ==> #[trigger] r.pan_num_of(i) + r.pan_num_of(instrument_count - 1 - i)
                    == r.pan_den_of(),
            forall|i: int| 0 <= i < instrument_count
                ==> #[trigger] r.delay_spec(i)
                    == delay_of_spec(instrument_count as int, 2000, i),
            forall|i: int| 0 <= i < instrument_count
                ==> #[trigger] r.envelope_spec(i) == 0,
            forall|i: int| 0 <= i < instrument_count
                ==> (#[trigger] r.voice(i)).volume_spec() == 0,
            r.steps_until_off_spec() == 0,
            r.volume_spec() == FP_ONE,
            r.bend_spec() == FP_ONE,
            r.vibrato_spec() == 26214,
            r.intensity_spec() == 32768,
            r.brightness_spec() == FP_ONE,
            r.attack_rate_spec() == 52429,
            r.release_rate_spec() == 32768,
            r.stereo_width_spec() == 19661,
            r.randomize_spec() == 6554,
            !r.accent_spec(),
    {
        let mut result = Director {
            instruments: Vec::new(),
            instrument_type,
            lowest_note: 0,
            highest_note: 0,
            step: 0,
            steps_until_off: 0,
            transitions: Vec::new(),
            max_instrument_delay: 2000,
            instrument_delays: Vec::new(),
            volume: FP_ONE,
            envelope: Vec::new(),
            frequency: Vec::new(),
            bend: FP_ONE,
            // Default controls in fixed point: vibrato two fifths, intensity
            // one half, attack four fifths, release one half, stereo width
            // three tenths, randomize one tenth.
            vibrato: 26214,
            intensity: 32768,
            brightness: FP_ONE,
            attack_rate: 52429,
            release_rate: 32768,
            body_resonance: 6554,
            accent: false,
            envelope_after_transitions: 0,
            frequency_after_transitions: 0,
            message_receiver,
            stereo_width: 19661,
            pan_num: Vec::new(),
            pan_den: 2,
            reverb_channels: 1,
            randomize: 6554,
        };
        result.initialize_instruments(instrument_type, instrument_count);
        result
    }
}

/// The envelope bounds of an envelope transition.
spec fn env_from(t: Transition) -> int {
    match t.data {
        TransitionData::EnvelopeChange { start_envelope, .. } => start_envelope as int,
        TransitionData::FrequencyChange { .. } => 0,
    }
}

spec fn env_to(t: Transition) -> int {
    match t.data {
        TransitionData::EnvelopeChange { end_envelope, .. } => end_envelope as int,
        TransitionData::FrequencyChange { .. } => 0,
    }
}

/// All director state except the transition schedule and its targets.
spec fn same_but_transitions(a: Director, b: Director) -> bool {
    &&& a.instruments@ == b.instruments@
    &&& a.instrument_type == b.instrument_type
    &&& a.lowest_note == b.lowest_note
    &&& a.highest_note == b.highest_note
    &&& a.step == b.step
    &&& a.steps_until_off == b.steps_until_off
    &&& a.max_instrument_delay == b.max_instrument_delay
    &&& a.instrument_delays@ == b.instrument_delays@
    &&& a.volume == b.volume
    &&& a.envelope@ == b.envelope@
    &&& a.frequency@ == b.frequency@
    &&& a.bend == b.bend
    &&& a.vibrato == b.vibrato
    &&& a.intensity == b.intensity
    &&& a.brightness == b.brightness
    &&& a.attack_rate == b.attack_rate
    &&& a.release_rate == b.release_rate
    &&& a.body_resonance == b.body_resonance
    &&& a.accent == b.accent
    &&& a.stereo_width == b.stereo_width
    &&& a.pan_num@ == b.pan_num@
    &&& a.pan_den == b.pan_den
    &&& a.reverb_channels == b.reverb_channels
    &&& a.randomize == b.randomize
}

/// All director state except the envelope and frequency targets.
spec fn same_but_targets(a: Director, b: Director) -> bool {
    &&& a.instruments@ == b.instruments@
    &&& a.instrument_type == b.instrument_type
    &&& a.lowest_note == b.lowest_note
    &&& a.highest_note == b.highest_note
    &&& a.step == b.step
    &&& a.steps_until_off == b.steps_until_off
    &&& a.transitions@ == b.transitions@
    &&& a.max_instrument_delay == b.max_instrument_delay
    &&& a.instrument_delays@ == b.instrument_delays@
    &&& a.volume == b.volume
    &&& a.bend == b.bend
    &&& a.vibrato == b.vibrato
    &&& a.intensity == b.intensity
    &&& a.brightness == b.brightness
    &&& a.attack_rate == b.attack_rate
    &&& a.release_rate == b.release_rate
    &&& a.body_resonance == b.body_resonance
    &&& a.accent == b.accent
    &&& a.envelope_after_transitions == b.envelope_after_transitions
    &&& a.frequency_after_transitions == b.frequency_after_transitions
    &&& a.stereo_width == b.stereo_width
    &&& a.pan_num@ == b.pan_num@
    &&& a.pan_den == b.pan_den
    &&& a.reverb_channels == b.reverb_channels
    &&& a.randomize == b.randomize
}

impl Director {
    /// Add a Transition to the schedule, starting `delay` steps from now
    /// and lasting `duration` steps.
    fn add_transition(&mut self, delay: i64, duration: i64, data: TransitionData)
        requires
            old(self).wf(),
            0 <= delay <= DELAY_LIMIT,
            1 <= duration <= 21001,
            (match data {
                TransitionData::EnvelopeChange { start_envelope, end_envelope } =>
                    0 <= start_envelope <= FP_ONE && 0 <= end_envelope <= FP_ONE,
                TransitionData::FrequencyChange { start_frequency, end_frequency } =>
                    8 * FP_ONE <= start_frequency <= 13000 * FP_ONE
                        && 8 * FP_ONE <= end_frequency <= 13000 * FP_ONE,
            }),
            (data is EnvelopeChange ==> env_count(old(self).transitions@) == 0),
        ensures
            final(self).wf(),
            final(self).transitions@ == old(self).transitions@.push(
                Transition {
                    start: (old(self).step_spec() + delay) as i64,
                    end: (old(self).step_spec() + delay + duration) as i64,
                    data,
                },
            ),
            same_but_transitions(*old(self), *final(self)),
            (match data {
                TransitionData::EnvelopeChange { end_envelope, .. } =>
                    final(self).envelope_after_transitions == end_envelope
                        && final(self).frequency_after_transitions
                            == old(self).frequency_after_transitions,
                TransitionData::FrequencyChange { end_frequency, .. } =>
                    final(self).frequency_after_transitions == end_frequency
                        && final(self).envelope_after_transitions
                            == old(self).envelope_after_transitions,
            }),
    {
        let transition = Transition {
            start: self.step + delay,
            end: self.step + delay + duration,
            data,
        };
        match transition.data {
            TransitionData::EnvelopeChange { end_envelope, .. } => {
                self.envelope_after_transitions = end_envelope;
            },
            TransitionData::FrequencyChange { end_frequency, .. } => {
                self.frequency_after_transitions = end_frequency;
            },
        }
        proof {
            lemma_env_count_push(self.transitions@, transition);
            lemma_env_count_nonneg(self.transitions@);
        }
        self.transitions.push(transition);
    }

    /// Schedule the envelope to move to `end_envelope` over `time` steps.
    /// Any pending envelope transition is evicted first: a new note ramp
    /// supersedes the old one, which makes retriggering monophonic legato.
    fn add_envelope_transition(&mut self, time: i64, end_envelope: i64)
        requires
            old(self).wf(),
            1000 <= time <= 21001,
            0 <= end_envelope <= FP_ONE,
        ensures
            final(self).wf(),
            final(self).envelope_transition_count() == 1,
            final(self).envelope_transition_spec() == Some((
                old(self).step_spec(),
                old(self).step_spec() + time,
                old(self).envelope_spec(0),
                end_envelope as int,
            )),
            final(self).envelope_target() == end_envelope,
            final(self).count() == old(self).count(),
            final(self).step_spec() == old(self).step_spec(),
            final(self).steps_until_off_spec() == old(self).steps_until_off_spec(),
            same_but_transitions(*old(self), *final(self)),
            forall|k: int| 0 <= k < old(self).transitions@.len()
                && !is_envelope(#[trigger] old(self).transitions@[k])
                ==> exists|k2: int| 0 <= k2 < final(self).transitions@.len()
                    && (#[trigger] final(self).transitions@[k2]) == old(self).transitions@[k],
    {
        // Remove all current envelope transitions.
        let n = self.transitions.len();
        let mut kept: Vec<Transition> = Vec::new();
        let mut i: usize = 0;
        while i < n
            invariant
                old(self).wf(),
                *self == *old(self),
                n == self.transitions@.len(),
                i <= n,
                forall|k: int| 0 <= k < kept@.len()
                    ==> !is_envelope(#[trigger] kept@[k]),
                forall|k: int| 0 <= k < kept@.len()
                    ==> transition_wf(#[trigger] kept@[k]),
                forall|k: int| 0 <= k < i && !is_envelope(#[trigger] self.transitions@[k])
                    ==> exists|k2: int| 0 <= k2 < kept@.len()
                        && (#[trigger] kept@[k2]) == self.transitions@[k],
            decreases n - i,
        {
            let ghost prev0 = kept@;
            let t = self.transitions[i];
            let keep = match t.data {
                TransitionData::EnvelopeChange { .. } => false,
                TransitionData::FrequencyChange { .. } => true,
            };
            if keep {
                let ghost prev_len = kept@.len();
                kept.push(t);
                proof {
                    assert(kept@[prev_len as int] == t);
                    assert forall|k: int| 0 <= k < i
                        && !is_envelope(#[trigger] self.transitions@[k])
                        implies exists|k2: int| 0 <= k2 < kept@.len()
                            && (#[trigger] kept@[k2]) == self.transitions@[k] by {
                        let k2 = choose|k2: int| 0 <= k2 < prev0.len()
                            && (#[trigger] prev0[k2]) == self.transitions@[k];
                        assert(kept@[k2] == self.transitions@[k]);
                    }
                }
            }
            i = i + 1;
        }
        proof {
            lemma_env_count_zero(kept@);
        }
        let ghost kept_seq = kept@;
        self.transitions = kept;
        let start_envelope = self.envelope[0];
        self.add_transition(
            0,
            time,
            TransitionData::EnvelopeChange { start_envelope, end_envelope },
        );
        proof {
            let s = self.transitions@;
            let last = s.len() - 1;
            assert(s == kept_seq.push(s[last]));
            lemma_env_count_push(kept_seq, s[last]);
            assert(is_envelope(s[last]));
            assert forall|k: int| 0 <= k < old(self).transitions@.len()
                && !is_envelope(#[trigger] old(self).transitions@[k])
                implies exists|k2: int| 0 <= k2 < s.len()
                    && (#[trigger] s[k2]) == old(self).transitions@[k] by {
                let k2 = choose|k2: int| 0 <= k2 < kept_seq.len()
                    && (#[trigger] kept_seq[k2]) == old(self).transitions@[k];
                assert(s[k2] == old(self).transitions@[k]);
            }
            assert forall|k: int| 0 <= k < s.len() && is_envelope(#[trigger] s[k])
                implies k == last by {
                lemma_env_count_unique(s, k, last);
            }
            let kc = choose|kc: int| 0 <= kc < s.len() && is_envelope(#[trigger] s[kc]);
            assert(kc == last);
        }
    }

    /// Apply one transition to the per-voice targets: each voice sees the
    /// transition at its own delayed time, so onsets stagger across the
    /// ensemble.  Returns whether volumes and whether frequencies changed.
    fn apply_transition(&mut self, tr: Transition) -> (changed: (bool, bool))
        requires
            old(self).wf(),
            transition_wf(tr),
        ensures
            final(self).wf(),
            final(self).count() == old(self).count(),
            same_but_targets(*old(self), *final(self)),
            (is_envelope(tr) ==> forall|i: int| 0 <= i < old(self).count()
                ==> #[trigger] final(self).envelope_spec(i) == (
                    if old(self).step_spec() - old(self).delay_spec(i) >= tr.start {
                        transition_value_spec(
                            tr.start as int,
                            tr.end as int,
                            env_from(tr),
                            env_to(tr),
                            old(self).step_spec() - old(self).delay_spec(i),
                        )
                    } else {
                        old(self).envelope_spec(i)
                    })),
            (is_envelope(tr) ==> final(self).frequency@ == old(self).frequency@),
            (!is_envelope(tr) ==> final(self).envelope@ == old(self).envelope@),
            changed.0 ==> is_envelope(tr),
            changed.1 ==> !is_envelope(tr),
    {
        let n = self.instruments.len();
        let mut i: usize = 0;
        let mut vol_changed = false;
        let mut freq_changed = false;
        while i < n
            invariant
                old(self).wf(),
                transition_wf(tr),
                n == old(self).instruments@.len(),
                i <= n,
                same_but_targets(*old(self), *self),
                self.envelope@.len() == n,
                self.frequency@.len() == n,
                forall|k: int| 0 <= k < n ==> 0 <= #[trigger] self.envelope@[k] <= FP_ONE,
                forall|k: int| 0 <= k < n
                    ==> 8 * FP_ONE <= #[trigger] self.frequency@[k] <= 13000 * FP_ONE,
                (is_envelope(tr) ==> forall|k: int| 0 <= k < i
                    ==> #[trigger] self.envelope@[k] as int == (
                        if old(self).step_spec() - old(self).delay_spec(k) >= tr.start {
                            transition_value_spec(
                                tr.start as int,
                                tr.end as int,
                                env_from(tr),
                                env_to(tr),
                                old(self).step_spec() - old(self).delay_spec(k),
                            )
                        } else {
                            old(self).envelope_spec(k)
                        })),
                (is_envelope(tr) ==> self.frequency@ == old(self).frequency@),
                (!is_envelope(tr) ==> self.envelope@ == old(self).envelope@),
                vol_changed ==> is_envelope(tr),
                freq_changed ==> !is_envelope(tr),
                forall|k: int| i <= k < n
                    ==> #[trigger] self.envelope@[k] == old(self).envelope@[k],
            decreases n - i,
        {
            let j = self.step - self.instrument_delays[i];
            if j >= tr.start {
                let w2: i64 = if j < tr.end {
                    let f = ((j - tr.start) * FP_ONE) / (tr.end - tr.start);
                    proof {
                        let num = (j - tr.start) * (FP_ONE as int);
                        vstd::arithmetic::mul::lemma_mul_nonnegative(
                            j - tr.start, FP_ONE as int);
                        vstd::arithmetic::mul::lemma_mul_inequality(
                            j - tr.start, tr.end - tr.start, FP_ONE as int);
                        vstd::arithmetic::mul::lemma_mul_is_commutative(
                            tr.end - tr.start, FP_ONE as int);
                        vstd::arithmetic::div_mod::lemma_div_is_ordered(
                            0, num, tr.end - tr.start);
                        vstd::arithmetic::div_mod::lemma_div_is_ordered(
                            num, (tr.end - tr.start) * (FP_ONE as int), tr.end - tr.start);
                        vstd::arithmetic::div_mod::lemma_div_multiples_vanish(
                            FP_ONE as int, tr.end - tr.start);
                    }
                    ease(f)
                } else {
                    FP_ONE
                };
                match tr.data {
                    TransitionData::EnvelopeChange { start_envelope, end_envelope } => {
                        let v = fp_lerp(start_envelope, end_envelope, w2);
                        self.envelope[i] = v;
                        vol_changed = true;
                    },
                    TransitionData::FrequencyChange { start_frequency, end_frequency } => {
                        let v = fp_lerp(start_frequency, end_frequency, w2);
                        self.frequency[i] = v;
                        freq_changed = true;
                    },
                }
            }
            i = i + 1;
        }
        (vol_changed, freq_changed)
    }
}

impl Director {
    /// Walk the transition schedule, updating the per-voice envelope and
    /// frequency targets, then push the results into the voices and drop
    /// every transition that even the most delayed voice has completed.
    fn update_transitions(&mut self)
        requires
            old(self).wf(),
        ensures
            final(self).wf(),
            final(self).count() == old(self).count(),
            final(self).step_spec() == old(self).step_spec(),
            final(self).steps_until_off_spec() == old(self).steps_until_off_spec(),
            final(self).max_delay_spec() == old(self).max_delay_spec(),
            final(self).instrument_delays@ == old(self).instrument_delays@,
            final(self).envelope_target() == old(self).envelope_target(),
            final(self).typ() == old(self).typ(),
            final(self).reverb_channels_spec() == old(self).reverb_channels_spec(),
            (match old(self).envelope_transition_spec() {
                Some(t) => forall|i: int| 0 <= i < old(self).count()
                    ==> #[trigger] final(self).envelope_spec(i) == (
                        if old(self).step_spec() - old(self).delay_spec(i) >= t.0 {
                            transition_value_spec(
                                t.0, t.1, t.2, t.3,
                                old(self).step_spec() - old(self).delay_spec(i))
                        } else {
                            old(self).envelope_spec(i)
                        }),
                None => final(self).envelope@ == old(self).envelope@,
            }),
            (match old(self).envelope_transition_spec() {
                Some(t) => old(self).step_spec() < t.1 + old(self).max_delay_spec()
                    ==> final(self).envelope_transition_spec() == Some(t),
                None => final(self).envelope_transition_spec() is None,
            }),
            forall|k: int| 0 <= k < old(self).transitions@.len()
                && old(self).step_spec()
                    < (#[trigger] old(self).transitions@[k]).end + old(self).max_delay_spec()
                ==> exists|k2: int| 0 <= k2 < final(self).transitions@.len()
                    && (#[trigger] final(self).transitions@[k2]) == old(self).transitions@[k],
            forall|k2: int| 0 <= k2 < final(self).transitions@.len()
                ==> old(self).step_spec()
                    < (#[trigger] final(self).transitions@[k2]).end + old(self).max_delay_spec(),
            forall|k2: int| 0 <= k2 < final(self).transitions@.len()
                ==> exists|k: int| 0 <= k < old(self).transitions@.len()
                    && (#[trigger] old(self).transitions@[k])
                        == (#[trigger] final(self).transitions@[k2]),
            ((forall|k: int| 0 <= k < old(self).transitions@.len()
                ==> is_envelope(#[trigger] old(self).transitions@[k]))
                ==> final(self).frequency@ == old(self).frequency@
                    && (forall|i: int| 0 <= i < old(self).count()
                        ==> (#[trigger] final(self).voice(i)).frequency_spec()
                            == old(self).voice(i).frequency_spec())),
    {
        let ghost ospec = old(self).envelope_transition_spec();
        let ghost ke: int = if exists|k: int| 0 <= k < old(self).transitions@.len()
            && is_envelope(#[trigger] old(self).transitions@[k]) {
            choose|k: int| 0 <= k < old(self).transitions@.len()
                && is_envelope(#[trigger] old(self).transitions@[k])
        } else {
            -1
        };
        proof {
            if exists|k: int| 0 <= k < old(self).transitions@.len()
                && is_envelope(#[trigger] old(self).transitions@[k]) {
                assert(is_envelope(old(self).transitions@[ke]));
                assert(ospec is Some);
            }
            if ospec is None {
                assert forall|k: int| 0 <= k < old(self).transitions@.len()
                    implies !is_envelope(#[trigger] old(self).transitions@[k]) by {
                    if is_envelope(old(self).transitions@[k]) {
                        assert(exists|k2: int| 0 <= k2 < old(self).transitions@.len()
                            && is_envelope(#[trigger] old(self).transitions@[k2]));
                    }
                }
            }
        }
        let tcount = self.transitions.len();
        let mut t: usize = 0;
        let mut vol_changed = false;
        let mut freq_changed = false;
        while t < tcount
            invariant
                old(self).wf(),
                self.wf(),
                tcount == old(self).transitions@.len(),
                t <= tcount,
                self.transitions@ == old(self).transitions@,
                self.instruments@ == old(self).instruments@,
                same_but_targets(*old(self), *self),
                ospec == old(self).envelope_transition_spec(),
                (ospec is Some ==> 0 <= ke < tcount
                    && is_envelope(old(self).transitions@[ke])
                    && ospec == Some((
                        old(self).transitions@[ke].start as int,
                        old(self).transitions@[ke].end as int,
                        env_from(old(self).transitions@[ke]),
                        env_to(old(self).transitions@[ke]),
                    ))),
                (ospec is None ==> forall|k: int| 0 <= k < tcount
                    ==> !is_envelope(#[trigger] old(self).transitions@[k])),
                (ospec is None ==> self.envelope@ == old(self).envelope@),
                (ospec is Some && t <= ke ==> self.envelope@ == old(self).envelope@),
                ((forall|k: int| 0 <= k < tcount
                    ==> is_envelope(#[trigger] old(self).transitions@[k]))
                    ==> self.frequency@ == old(self).frequency@ && freq_changed == false),
                (ospec is Some && t > ke ==> forall|i: int| 0 <= i < old(self).count()
                    ==> #[trigger] self.envelope_spec(i) == (
                        if old(self).step_spec() - old(self).delay_spec(i)
                            >= ospec.unwrap().0 {
                            transition_value_spec(
                                ospec.unwrap().0, ospec.unwrap().1,
                                ospec.unwrap().2, ospec.unwrap().3,
                                old(self).step_spec() - old(self).delay_spec(i))
                        } else {
                            old(self).envelope_spec(i)
                        })),
            decreases tcount - t,
        {
            let tr = self.transitions[t];
            proof {
                if is_envelope(tr) {
                    assert(is_envelope(old(self).transitions@[t as int]));
                    assert(exists|k: int| 0 <= k < old(self).transitions@.len()
                        && is_envelope(#[trigger] old(self).transitions@[k]));
                    lemma_env_count_unique(old(self).transitions@, t as int, ke);
                }
            }
            let ghost before = *self;
            let changed = self.apply_transition(tr);
            if changed.0 {
                vol_changed = true;
            }
            if changed.1 {
                freq_changed = true;
            }
            proof {
                if ospec is Some && (t as int) < ke {
                    assert(!is_envelope(tr));
                    assert(self.envelope@ == before.envelope@);
                }
                if ospec is Some && (t as int) > ke {
                    assert(!is_envelope(tr));
                    assert(self.envelope@ == before.envelope@);
                    assert forall|i: int| 0 <= i < old(self).count()
                        implies #[trigger] self.envelope_spec(i) == (
                            if old(self).step_spec() - old(self).delay_spec(i)
                                >= ospec.unwrap().0 {
                                transition_value_spec(
                                    ospec.unwrap().0, ospec.unwrap().1,
                                    ospec.unwrap().2, ospec.unwrap().3,
                                    old(self).step_spec() - old(self).delay_spec(i))
                            } else {
                                old(self).envelope_spec(i)
                            }) by {
                        assert(self.envelope_spec(i) == before.envelope_spec(i));
                    }
                }
                if ospec is None {
                    assert(!is_envelope(tr));
                    assert(self.envelope@ == before.envelope@);
                }
                if ospec is Some && t as int == ke {
                    assert(before.envelope@ == old(self).envelope@);
                    assert forall|i: int| 0 <= i < old(self).count()
                        implies #[trigger] self.envelope_spec(i) == (
                            if old(self).step_spec() - old(self).delay_spec(i)
                                >= ospec.unwrap().0 {
                                transition_value_spec(
                                    ospec.unwrap().0, ospec.unwrap().1,
                                    ospec.unwrap().2, ospec.unwrap().3,
                                    old(self).step_spec() - old(self).delay_spec(i))
                            } else {
                                old(self).envelope_spec(i)
                            }) by {
                        assert(before.envelope_spec(i) == old(self).envelope_spec(i));
                        assert(before.delay_spec(i) == old(self).delay_spec(i));
                        assert(before.step_spec() == old(self).step_spec());
                    }
                }
            }
            t = t + 1;
        }
        let ghost after_eval = *self;
        if vol_changed {
            self.update_volume();
        }
        if freq_changed {
            self.update_frequency();
        }
        let ghost after_push = *self;
        // Drop the transitions that every voice has fully completed: once
        // the step has passed a transition's end by the largest delay, even
        // the most delayed voice has finished it.
        self.purge_transitions();
        proof {
            assert(after_push.envelope@ == after_eval.envelope@);
            assert(self.envelope@ == after_push.envelope@);
            assert(after_push.transitions@ == after_eval.transitions@);
            assert(after_push.transitions@ == old(self).transitions@);
            assert(after_push.step == old(self).step);
            assert(after_push.max_instrument_delay == old(self).max_instrument_delay);
            assert(after_push.envelope_transition_spec() == ospec);
            assert forall|k: int| 0 <= k < old(self).transitions@.len()
                && old(self).step_spec()
                    < (#[trigger] old(self).transitions@[k]).end + old(self).max_delay_spec()
                implies exists|k2: int| 0 <= k2 < self.transitions@.len()
                    && (#[trigger] self.transitions@[k2]) == old(self).transitions@[k] by {
                assert(after_push.transitions@[k] == old(self).transitions@[k]);
                let k2 = choose|k2: int| 0 <= k2 < self.transitions@.len()
                    && (#[trigger] self.transitions@[k2]) == after_push.transitions@[k];
                assert(self.transitions@[k2] == old(self).transitions@[k]);
            }
            assert forall|k2: int| 0 <= k2 < self.transitions@.len()
                implies exists|k: int| 0 <= k < old(self).transitions@.len()
                    && (#[trigger] old(self).transitions@[k])
                        == (#[trigger] self.transitions@[k2]) by {
                let k = choose|k: int| 0 <= k < after_push.transitions@.len()
                    && (#[trigger] after_push.transitions@[k]) == self.transitions@[k2];
                assert(old(self).transitions@[k] == self.transitions@[k2]);
            }
            if forall|k: int| 0 <= k < old(self).transitions@.len()
                ==> is_envelope(#[trigger] old(self).transitions@[k]) {
                assert(after_eval.frequency@ == old(self).frequency@);
                assert(!freq_changed);
                assert(self.frequency@ == after_push.frequency@);
                assert forall|i: int| 0 <= i < old(self).count() implies
                    (#[trigger] self.voice(i)).frequency_spec()
                        == old(self).voice(i).frequency_spec() by {
                    assert(after_eval.instruments@ == old(self).instruments@);
                    assert(self.instruments@ == after_push.instruments@);
                    if vol_changed {
                        assert(same_voice_but_volume(
                            after_eval.voice(i), after_push.voice(i)));
                    } else {
                        assert(after_push.instruments@ == after_eval.instruments@);
                    }
                }
            }
            if ospec is Some {
                assert forall|i: int| 0 <= i < old(self).count()
                    implies #[trigger] self.envelope_spec(i) == (
                        if old(self).step_spec() - old(self).delay_spec(i)
                            >= ospec.unwrap().0 {
                            transition_value_spec(
                                ospec.unwrap().0, ospec.unwrap().1,
                                ospec.unwrap().2, ospec.unwrap().3,
                                old(self).step_spec() - old(self).delay_spec(i))
                        } else {
                            old(self).envelope_spec(i)
                        }) by {
                    assert(self.envelope_spec(i) == after_eval.envelope_spec(i));
                }
            }
        }
    }

    /// Drop every transition whose end lies a full delay span in the past.
    fn purge_transitions(&mut self)
        requires
            old(self).wf(),
        ensures
            final(self).wf(),
            final(self).count() == old(self).count(),
            same_but_transitions(*old(self), *final(self)),
            final(self).envelope_target() == old(self).envelope_target(),
            final(self).frequency_after_transitions == old(self).frequency_after_transitions,
            (match old(self).envelope_transition_spec() {
                Some(t) => old(self).step_spec() < t.1 + old(self).max_delay_spec()
                    ==> final(self).envelope_transition_spec() == Some(t),
                None => final(self).envelope_transition_spec() is None,
            }),
            forall|k: int| 0 <= k < old(self).transitions@.len()
                && old(self).step_spec()
                    < (#[trigger] old(self).transitions@[k]).end + old(self).max_delay_spec()
                ==> exists|k2: int| 0 <= k2 < final(self).transitions@.len()
                    && (#[trigger] final(self).transitions@[k2]) == old(self).transitions@[k],
            forall|k2: int| 0 <= k2 < final(self).transitions@.len()
                ==> old(self).step_spec()
                    < (#[trigger] final(self).transitions@[k2]).end + old(self).max_delay_spec(),
            forall|k2: int| 0 <= k2 < final(self).transitions@.len()
                ==> exists|k: int| 0 <= k < old(self).transitions@.len()
                    && (#[trigger] old(self).transitions@[k])
                        == (#[trigger] final(self).transitions@[k2]),
    {
        let ghost ospec = old(self).envelope_transition_spec();
        let ghost ke: int = if exists|k: int| 0 <= k < old(self).transitions@.len()
            && is_envelope(#[trigger] old(self).transitions@[k]) {
            choose|k: int| 0 <= k < old(self).transitions@.len()
                && is_envelope(#[trigger] old(self).transitions@[k])
        } else {
            -1
        };
        proof {
            if exists|k: int| 0 <= k < old(self).transitions@.len()
                && is_envelope(#[trigger] old(self).transitions@[k]) {
                assert(is_envelope(old(self).transitions@[ke]));
                assert(ospec is Some);
            }
        }
        let tcount = self.transitions.len();
        let mut kept: Vec<Transition> = Vec::new();
        let mut m: usize = 0;
        while m < tcount
            invariant
                old(self).wf(),
                *self == *old(self),
                tcount == old(self).transitions@.len(),
                m <= tcount,
                ospec == old(self).envelope_transition_spec(),
                (ospec is Some ==> 0 <= ke < tcount
                    && is_envelope(old(self).transitions@[ke])
                    && ospec == Some((
                        old(self).transitions@[ke].start as int,
                        old(self).transitions@[ke].end as int,
                        env_from(old(self).transitions@[ke]),
                        env_to(old(self).transitions@[ke]),
                    ))),
                (ospec is None ==> forall|k: int| 0 <= k < tcount
                    ==> !is_envelope(#[trigger] old(self).transitions@[k])),
                forall|k: int| 0 <= k < kept@.len()
                    ==> transition_wf(#[trigger] kept@[k]),
                forall|k: int| 0 <= k < kept@.len()
                    ==> (is_envelope(#[trigger] kept@[k])
                        ==> ospec is Some && kept@[k] == old(self).transitions@[ke]),
                env_count(kept@) <= 1,
                (ospec is None ==> env_count(kept@) == 0),
                (ospec is Some && m <= ke ==> env_count(kept@) == 0),
                (ospec is Some && m > ke
                    && old(self).step_spec()
                        < old(self).transitions@[ke].end + old(self).max_delay_spec()
                    ==> exists|k: int| 0 <= k < kept@.len()
                        && is_envelope(#[trigger] kept@[k])),
                forall|k: int| 0 <= k < m
                    && old(self).step_spec()
                        < (#[trigger] old(self).transitions@[k]).end
                            + old(self).max_delay_spec()
                    ==> exists|k2: int| 0 <= k2 < kept@.len()
                        && (#[trigger] kept@[k2]) == old(self).transitions@[k],
                forall|k2: int| 0 <= k2 < kept@.len()
                    ==> old(self).step_spec()
                        < (#[trigger] kept@[k2]).end + old(self).max_delay_spec(),
                forall|k2: int| 0 <= k2 < kept@.len()
                    ==> exists|k: int| 0 <= k < old(self).transitions@.len()
                        && (#[trigger] old(self).transitions@[k]) == (#[trigger] kept@[k2]),
            decreases tcount - m,
        {
            let ghost prev0 = kept@;
            let tr = self.transitions[m];
            proof {
                if is_envelope(tr) {
                    assert(is_envelope(old(self).transitions@[m as int]));
                    assert(exists|k: int| 0 <= k < old(self).transitions@.len()
                        && is_envelope(#[trigger] old(self).transitions@[k]));
                    lemma_env_count_unique(old(self).transitions@, m as int, ke);
                }
            }
            if self.step < tr.end + self.max_instrument_delay {
                proof {
                    lemma_env_count_push(kept@, tr);
                    lemma_env_count_nonneg(kept@);
                }
                let ghost prev_len = kept@.len();
                kept.push(tr);
                proof {
                    if is_envelope(tr) {
                        assert(is_envelope(kept@[prev_len as int]));
                    }
                }
            }
            proof {
                if ospec is Some && m as int + 1 > ke
                    && old(self).step_spec()
                        < old(self).transitions@[ke].end + old(self).max_delay_spec() {
                    if m as int == ke {
                        assert(is_envelope(kept@[kept@.len() - 1]));
                    } else {
                        assert(m as int > ke);
                        let kw = choose|k: int| 0 <= k < prev0.len()
                            && is_envelope(#[trigger] prev0[k]);
                        assert(is_envelope(kept@[kw]));
                    }
                }
                assert forall|k: int| 0 <= k < m as int + 1
                    && old(self).step_spec()
                        < (#[trigger] old(self).transitions@[k]).end
                            + old(self).max_delay_spec()
                    implies exists|k2: int| 0 <= k2 < kept@.len()
                        && (#[trigger] kept@[k2]) == old(self).transitions@[k] by {
                    if k < m as int {
                        let k2 = choose|k2: int| 0 <= k2 < prev0.len()
                            && (#[trigger] prev0[k2]) == old(self).transitions@[k];
                        assert(kept@[k2] == old(self).transitions@[k]);
                    } else {
                        assert(kept@[kept@.len() - 1] == old(self).transitions@[k]);
                    }
                }
                assert forall|k2: int| 0 <= k2 < kept@.len()
                    implies exists|k: int| 0 <= k < old(self).transitions@.len()
                        && (#[trigger] old(self).transitions@[k]) == (#[trigger] kept@[k2]) by {
                    if k2 < prev0.len() {
                        let k = choose|k: int| 0 <= k < old(self).transitions@.len()
                            && (#[trigger] old(self).transitions@[k]) == prev0[k2];
                        assert(old(self).transitions@[k] == kept@[k2]);
                    } else {
                        assert(old(self).transitions@[m as int] == kept@[k2]);
                    }
                }
            }
            m = m + 1;
        }
        self.transitions = kept;
        proof {
            lemma_env_count_nonneg(self.transitions@);
            if ospec is Some {
                let t = ospec.unwrap();
                if old(self).step_spec() < t.1 + old(self).max_delay_spec() {
                    let kw = choose|k: int| 0 <= k < self.transitions@.len()
                        && is_envelope(#[trigger] self.transitions@[k]);
                    assert(exists|k: int| 0 <= k < self.transitions@.len()
                        && is_envelope(#[trigger] self.transitions@[k]));
                    assert(self.transitions@[kw] == old(self).transitions@[ke]);
                    assert(self.envelope_transition_spec() == Some(t));
                }
            } else {
                if exists|k: int| 0 <= k < self.transitions@.len()
                    && is_envelope(#[trigger] self.transitions@[k]) {
                    let kw = choose|k: int| 0 <= k < self.transitions@.len()
                        && is_envelope(#[trigger] self.transitions@[k]);
                    assert(false);
                }
            }
        }
    }
}

impl Director {
    /// Start playing a new note.  A note index outside the instrument's
    /// playable range is silently ignored: nothing about the director or
    /// its voices changes, so no sound is produced for it.  In range, every
    /// voice's target frequency becomes the note's equal-tempered pitch and
    /// a single envelope ramp toward full level is scheduled, evicting any
    /// pending envelope ramp (monophonic legato retriggering).
    fn note_on(&mut self, note_index: i32, velocity: i64)
        requires
            old(self).wf(),
        ensures
            final(self).wf(),
            (note_index < old(self).typ().lowest_note_spec()
                || note_index > old(self).typ().highest_note_spec())
                ==> *final(self) == *old(self),
            (old(self).typ().lowest_note_spec() <= note_index
                && note_index <= old(self).typ().highest_note_spec()) ==> {
                &&& forall|i: int| 0 <= i < old(self).count()
                    ==> #[trigger] final(self).frequency_spec(i)
                        == note_frequency_spec(note_index as int)
                &&& final(self).envelope_transition_spec() == Some((
                    old(self).step_spec(),
                    old(self).step_spec() + attack_time_spec(old(self).attack_rate_spec()),
                    old(self).envelope_spec(0),
                    FP_ONE as int,
                ))
                &&& forall|i: int| 0 <= i < old(self).count()
                    ==> (#[trigger] final(self).voice(i)).last_note_spec() == note_index
                &&& forall|i: int| 0 <= i < old(self).count()
                    ==> (#[trigger] final(self).voice(i)).frequency_spec()
                        == fp_mul_spec(
                            note_frequency_spec(note_index as int), old(self).bend_spec())
            },
            final(self).count() == old(self).count(),
            final(self).typ() == old(self).typ(),
            final(self).reverb_channels_spec() == old(self).reverb_channels_spec(),
            final(self).step_spec() == old(self).step_spec(),
            final(self).steps_until_off_spec() == old(self).steps_until_off_spec(),
    {
        if note_index < self.lowest_note || note_index > self.highest_note {
            // The note index is outside the range of this instrument.
            return;
        }
        let f = note_frequency(note_index);
        let n = self.frequency.len();
        let mut i: usize = 0;
        while i < n
            invariant
                old(self).wf(),
                n == old(self).frequency@.len(),
                i <= n,
                8 * FP_ONE <= f <= 13000 * FP_ONE,
                f == note_frequency_spec(note_index as int),
                same_but_targets(*old(self), *self),
                self.envelope@ == old(self).envelope@,
                self.frequency@.len() == n,
                forall|k: int| 0 <= k < i ==> #[trigger] self.frequency@[k] == f,
                forall|k: int| i <= k < n
                    ==> #[trigger] self.frequency@[k] == old(self).frequency@[k],
            decreases n - i,
        {
            self.frequency[i] = f;
            i = i + 1;
        }
        let ghost before_drive = *self;
        self.update_frequency();
        let ghost after_drive = *self;
        proof {
            assert forall|i2: int| 0 <= i2 < old(self).count() implies
                (#[trigger] after_drive.voice(i2)).frequency_spec()
                    == fp_mul_spec(
                        note_frequency_spec(note_index as int), old(self).bend_spec()) by {
                assert(before_drive.frequency_spec(i2) == note_frequency_spec(note_index as int));
                assert(after_drive.voice(i2).frequency_spec() == fp_mul_spec(
                    before_drive.frequency_spec(i2), before_drive.bend_spec()));
            }
        }
        let attack_time = 1000 + (20000 * (FP_ONE - self.attack_rate)) / FP_ONE;
        proof {
            lemma_ramp_time_bounds(old(self).attack_rate_spec(), 20000);
        }
        self.add_envelope_transition(attack_time, FP_ONE);
        let ghost after_env = *self;
        proof {
            assert(after_env.instruments@ == after_drive.instruments@);
        }
        let m = self.instruments.len();
        let mut k: usize = 0;
        while k < m
            invariant
                old(self).wf(),
                after_env.wf(),
                m == after_env.instruments@.len(),
                k <= m,
                same_but_voices(after_env, *self),
                self.instruments@.len() == m,
                old(self).typ().lowest_note_spec() <= note_index
                    <= old(self).typ().highest_note_spec(),
                old(self).typ().lowest_note_spec() >= 0,
                old(self).typ().highest_note_spec() <= 127,
                forall|j: int| 0 <= j < m ==> (#[trigger] self.instruments@[j]).wf(),
                forall|j: int| 0 <= j < m
                    ==> (#[trigger] self.instruments@[j]).typ() == after_env.instruments@[j].typ(),
                forall|j: int| 0 <= j < k
                    ==> (#[trigger] self.instruments@[j]).last_note_spec() == note_index,
                forall|j: int| 0 <= j < k
                    ==> (#[trigger] self.instruments@[j]).frequency_spec()
                        == after_env.instruments@[j].frequency_spec(),
                forall|j: int| k <= j < m
                    ==> #[trigger] self.instruments@[j] == after_env.instruments@[j],
            decreases m - k,
        {
            let mut inst = self.instruments[k];
            inst.note_on(note_index);
            self.instruments[k] = inst;
            k = k + 1;
        }
        proof {
            assert(self.transitions@ == after_env.transitions@);
            assert(self.envelope_transition_spec() == after_env.envelope_transition_spec());
            assert forall|i2: int| 0 <= i2 < old(self).count() implies
                (#[trigger] self.voice(i2)).frequency_spec()
                    == fp_mul_spec(
                        note_frequency_spec(note_index as int), old(self).bend_spec()) by {
                assert(self.instruments@[i2].frequency_spec()
                    == after_env.instruments@[i2].frequency_spec());
                assert(after_env.instruments@[i2].frequency_spec()
                    == after_drive.voice(i2).frequency_spec());
            }
        }
    }

    /// End the current note by scheduling an envelope ramp toward silence.
    /// Because the instrument is monophonic, `note_on` also ends the
    /// current note.
    fn note_off(&mut self)
        requires
            old(self).wf(),
        ensures
            final(self).wf(),
            final(self).envelope_transition_spec() == Some((
                old(self).step_spec(),
                old(self).step_spec() + release_time_spec(old(self).release_rate_spec()),
                old(self).envelope_spec(0),
                0int,
            )),
            final(self).count() == old(self).count(),
            final(self).typ() == old(self).typ(),
            final(self).reverb_channels_spec() == old(self).reverb_channels_spec(),
            final(self).step_spec() == old(self).step_spec(),
            final(self).steps_until_off_spec() == old(self).steps_until_off_spec(),
            same_but_transitions(*old(self), *final(self)),
            forall|k: int| 0 <= k < old(self).transitions@.len()
                && !is_envelope(#[trigger] old(self).transitions@[k])
                ==> exists|k2: int| 0 <= k2 < final(self).transitions@.len()
                    && (#[trigger] final(self).transitions@[k2]) == old(self).transitions@[k],
    {
        let release_time = 1000 + (5000 * (FP_ONE - self.release_rate)) / FP_ONE;
        proof {
            lemma_ramp_time_bounds(old(self).release_rate_spec(), 5000);
        }
        self.add_envelope_transition(release_time, 0);
    }

    /// Apply one message.  Returns whether the ensemble was rebuilt.
    /// Every variant's effect is pinned down: continuous controls are
    /// clamped into their documented range, stored, and pushed to the
    /// voices; note events gate and schedule as `note_on` and `note_off`
    /// say; a Reinitialize rebuilds the ensemble.
    fn handle_message(&mut self, message: Message) -> (reinit: bool)
        requires
            old(self).wf(),
        ensures
            final(self).wf(),
            final(self).step_spec() == old(self).step_spec(),
            final(self).steps_until_off_spec() == old(self).steps_until_off_spec(),
            reinit == (message is Reinitialize),
            !(message is Reinitialize) ==> final(self).count() == old(self).count()
                && final(self).typ() == old(self).typ()
                && final(self).reverb_channels_spec() == old(self).reverb_channels_spec(),
            (match message {
                Message::Reinitialize { instrument_type, instrument_count } => {
                    let count = clamp_spec(
                        instrument_count as int, 1, ENSEMBLE_LIMIT as int);
                    &&& final(self).typ() == instrument_type
                    &&& final(self).count() == count
                    &&& final(self).body_resonance_of() == body_resonance_spec(instrument_type)
                    &&& final(self).envelope_transition_spec() is None
                    &&& final(self).reverb_channels_spec()
                        == (if count == 1 { 1int } else { 2int })
                    &&& final(self).bend_spec() == FP_ONE
                    &&& forall|i: int| 0 <= i < count
                        ==> #[trigger] final(self).envelope_spec(i) == 0
                },
                Message::NoteOn { note_index, .. } => {
                    &&& ((note_index < old(self).typ().lowest_note_spec()
                        || note_index > old(self).typ().highest_note_spec())
                        ==> *final(self) == *old(self))
                    &&& ((old(self).typ().lowest_note_spec() <= note_index
                        && note_index <= old(self).typ().highest_note_spec())
                        ==> final(self).envelope_transition_spec() == Some((
                            old(self).step_spec(),
                            old(self).step_spec()
                                + attack_time_spec(old(self).attack_rate_spec()),
                            old(self).envelope_spec(0),
                            FP_ONE as int,
                        )) && (forall|i: int| 0 <= i < old(self).count()
                            ==> (#[trigger] final(self).voice(i)).frequency_spec()
                                == fp_mul_spec(
                                    note_frequency_spec(note_index as int),
                                    old(self).bend_spec())))
                },
                Message::NoteOff => final(self).envelope_transition_spec() == Some((
                    old(self).step_spec(),
                    old(self).step_spec() + release_time_spec(old(self).release_rate_spec()),
                    old(self).envelope_spec(0),
                    0int,
                )),
                Message::SetVolume { volume } => {
                    &&& final(self).volume_spec()
                        == clamp_spec(volume as int, 0, FP_ONE as int)
                    &&& forall|i: int| 0 <= i < old(self).count()
                        ==> (#[trigger] final(self).voice(i)).volume_spec()
                            == fp_mul_spec(
                                actual_volume_spec(final(self).volume_spec()),
                                old(self).envelope_spec(i))
                },
                Message::SetPitchBend { semitones } => {
                    &&& final(self).bend_spec() == bend_ratio_spec(
                        clamp_spec(semitones as int, -12 * FP_ONE, 12 * FP_ONE))
                    &&& forall|i: int| 0 <= i < old(self).count()
                        ==> (#[trigger] final(self).voice(i)).frequency_spec()
                            == fp_mul_spec(
                                old(self).frequency_spec(i), final(self).bend_spec())
                },
                Message::SetVibrato { vibrato } => {
                    &&& final(self).vibrato_spec()
                        == clamp_spec(vibrato as int, 0, FP_ONE as int)
                    &&& forall|i: int| 0 <= i < old(self).count()
                        ==> (#[trigger] final(self).voice(i)).vibrato_amplitude_spec()
                            == vibrato_taper_spec(
                                final(self).vibrato_spec(), old(self).count(), i)
                },
                Message::SetIntensity { intensity } => {
                    &&& final(self).intensity_spec()
                        == clamp_spec(intensity as int, 0, FP_ONE as int)
                    &&& forall|i: int| 0 <= i < old(self).count()
                        ==> (#[trigger] final(self).voice(i)).tremolo_amplitude_spec()
                            == final(self).intensity_spec() / 5
                },
                Message::SetBrightness { brightness } => {
                    &&& final(self).brightness_spec()
                        == clamp_spec(brightness as int, 0, FP_ONE as int)
                    &&& forall|i: int| 0 <= i < old(self).count()
                        ==> #[trigger] final(self).voice(i) == old(self).voice(i)
                },
                Message::SetAttackRate { attack } => {
                    &&& final(self).attack_rate_spec()
                        == clamp_spec(attack as int, 0, FP_ONE as int)
                    &&& forall|i: int| 0 <= i < old(self).count()
                        ==> #[trigger] final(self).voice(i) == old(self).voice(i)
                },
                Message::SetReleaseRate { release } => {
                    &&& final(self).release_rate_spec()
                        == clamp_spec(release as int, 0, FP_ONE as int)
                    &&& forall|i: int| 0 <= i < old(self).count()
                        ==> #[trigger] final(self).voice(i) == old(self).voice(i)
                },
                Message::SetAccent { accent } => {
                    &&& final(self).accent_spec() == accent
                    &&& forall|i: int| 0 <= i < old(self).count()
                        ==> #[trigger] final(self).voice(i) == old(self).voice(i)
                },
                Message::SetStereoWidth { width } => {
                    &&& final(self).stereo_width_spec()
                        == clamp_spec(width as int, 0, FP_ONE as int)
                    &&& final(self).pan_den_of() == pan_den_spec(old(self).count())
                    &&& forall|i: int| 0 <= i < old(self).count()
                        ==> #[trigger] final(self).pan_num_of(i)
                            == pan_num_spec(
                                old(self).count(), final(self).stereo_width_spec(), i)
                },
                Message::SetMaxInstrumentDelay { max_delay } => {
                    &&& final(self).max_delay_spec()
                        == clamp_spec(max_delay as int, 0, DELAY_LIMIT as int)
                    &&& forall|i: int| 0 <= i < old(self).count()
                        ==> #[trigger] final(self).delay_spec(i)
                            == delay_of_spec(
                                old(self).count(), final(self).max_delay_spec(), i)
                },
                Message::SetRandomize { randomize } => {
                    &&& final(self).randomize_spec()
                        == clamp_spec(randomize as int, 0, FP_ONE as int)
                    &&& forall|i: int| 0 <= i < old(self).count()
                        ==> #[trigger] final(self).voice(i) == old(self).voice(i)
                },
            }),
    {
        match message {
            Message::Reinitialize { instrument_type, instrument_count } => {
                let count = if instrument_count < 1 {
                    1
                } else if instrument_count > ENSEMBLE_LIMIT {
                    ENSEMBLE_LIMIT
                } else {
                    instrument_count
                };
                self.initialize_instruments(instrument_type, count);
                true
            },
            Message::NoteOn { note_index, velocity } => {
                self.note_on(note_index, velocity);
                false
            },
            Message::NoteOff => {
                self.note_off();
                false
            },
            Message::SetVolume { volume } => {
                self.volume = clamp(volume, 0, FP_ONE);
                let ghost before_volume = *self;
                self.update_volume();
                let ghost after_volume = *self;
                self.update_sound();
                proof {
                    assert forall|i: int| 0 <= i < old(self).count() implies
                        (#[trigger] self.voice(i)).volume_spec() == fp_mul_spec(
                            actual_volume_spec(self.volume_spec()),
                            old(self).envelope_spec(i)) by {
                        assert(before_volume.envelope_spec(i) == old(self).envelope_spec(i));
                        assert(after_volume.voice(i).volume_spec() == fp_mul_spec(
                            actual_volume_spec(before_volume.volume_spec()),
                            before_volume.envelope_spec(i)));
                        assert(same_voice_but_tremolo(after_volume.voice(i), self.voice(i)));
                    }
                }
                false
            },
            Message::SetPitchBend { semitones } => {
                let s = clamp(semitones, -12 * FP_ONE, 12 * FP_ONE);
                self.bend = bend_ratio(s);
                let ghost before_bend = *self;
                self.update_frequency();
                proof {
                    assert forall|i: int| 0 <= i < old(self).count() implies
                        (#[trigger] self.voice(i)).frequency_spec() == fp_mul_spec(
                            old(self).frequency_spec(i), self.bend_spec()) by {
                        assert(before_bend.frequency_spec(i) == old(self).frequency_spec(i));
                        assert(self.voice(i).frequency_spec() == fp_mul_spec(
                            before_bend.frequency_spec(i), before_bend.bend_spec()));
                    }
                }
                false
            },
            Message::SetVibrato { vibrato } => {
                self.vibrato = clamp(vibrato, 0, FP_ONE);
                self.update_vibrato();
                false
            },
            Message::SetIntensity { intensity } => {
                self.intensity = clamp(intensity, 0, FP_ONE);
                self.update_sound();
                false
            },
            Message::SetBrightness { brightness } => {
                self.brightness = clamp(brightness, 0, FP_ONE);
                false
            },
            Message::SetAttackRate { attack } => {
                self.attack_rate = clamp(attack, 0, FP_ONE);
                false
            },
            Message::SetReleaseRate { release } => {
                self.release_rate = clamp(release, 0, FP_ONE);
                false
            },
            Message::SetAccent { accent } => {
                self.accent = accent;
                false
            },
            Message::SetStereoWidth { width } => {
                self.stereo_width = clamp(width, 0, FP_ONE);
                self.update_pan_positions();
                false
            },
            Message::SetMaxInstrumentDelay { max_delay } => {
                self.max_instrument_delay = clamp(max_delay, 0, DELAY_LIMIT);
                self.update_instrument_delays();
                false
            },
            Message::SetRandomize { randomize } => {
                self.randomize = clamp(randomize, 0, FP_ONE);
                false
            },
        }
    }

    /// Drain and apply the queued messages, in arrival order.  At most
    /// `DRAIN_LIMIT` messages are taken per call so one control tick's work
    /// stays bounded.  Returns whether any message rebuilt the ensemble.
    fn process_messages(&mut self) -> (reinit: bool)
        requires
            old(self).wf(),
        ensures
            final(self).wf(),
            final(self).step_spec() == old(self).step_spec(),
            final(self).steps_until_off_spec() == old(self).steps_until_off_spec(),
            !reinit ==> final(self).count() == old(self).count()
                && final(self).typ() == old(self).typ()
                && final(self).reverb_channels_spec() == old(self).reverb_channels_spec(),
    {
        let mut budget: usize = DRAIN_LIMIT;
        let mut reinit = false;
        while budget > 0
            invariant
                self.wf(),
                self.step_spec() == old(self).step_spec(),
                self.steps_until_off_spec() == old(self).steps_until_off_spec(),
                !reinit ==> self.count() == old(self).count()
                    && self.typ() == old(self).typ()
                    && self.reverb_channels_spec() == old(self).reverb_channels_spec(),
            ensures
                self.wf(),
                self.step_spec() == old(self).step_spec(),
                self.steps_until_off_spec() == old(self).steps_until_off_spec(),
                !reinit ==> self.count() == old(self).count()
                    && self.typ() == old(self).typ()
                    && self.reverb_channels_spec() == old(self).reverb_channels_spec(),
            decreases budget,
        {
            budget = budget - 1;
            let received = self.message_receiver.try_recv();
            match received {
                Ok(message) => {
                    let rebuilt = self.handle_message(message);
                    if rebuilt {
                        reinit = true;
                    }
                },
                Err(_) => {
                    break;
                },
            }
        }
        reinit
    }

    /// Generate the control decisions for one output sample.  Every 200
    /// samples the queued messages are drained and the transition schedule
    /// is re-evaluated; in between, only the step counter and the silence
    /// gate move.  When the returned decision says the sample is silent,
    /// the caller can emit silence without driving the voices or the
    /// reverb; when it says the ensemble was rebuilt, the caller must
    /// rebuild whatever per-voice state it keeps.
    pub fn generate(&mut self) -> (c: StepControl)
        requires
            old(self).wf(),
        ensures
            final(self).wf(),
            final(self).step_spec() == (if old(self).step_spec() < STEP_LIMIT {
                old(self).step_spec() + 1
            } else {
                old(self).step_spec()
            }),
            old(self).step_spec() % 200 != 0 ==> !c.reinitialized
                && same_control_state(*old(self), *final(self)),
            !c.reinitialized ==> final(self).count() == old(self).count()
                && final(self).typ() == old(self).typ()
                && final(self).reverb_channels_spec() == old(self).reverb_channels_spec(),
            c.silent <==> (final(self).voice(0).volume_spec() <= 0
                && old(self).steps_until_off_spec() == 0),
            final(self).steps_until_off_spec() == (
                if final(self).voice(0).volume_spec() > 0 {
                    9999int
                } else if old(self).steps_until_off_spec() == 0 {
                    0int
                } else {
                    old(self).steps_until_off_spec() - 1
                }),
    {
        // Deal with the queues of messages and transitions.  This only
        // needs to be done occasionally.
        let mut reinit = false;
        if self.step % 200 == 0 {
            reinit = self.process_messages();
            self.update_transitions();
        }
        if self.step < STEP_LIMIT {
            self.step = self.step + 1;
        }

        // If nothing has been played for a while, the sample is silence.
        if self.instruments[0].get_volume() > 0 {
            self.steps_until_off = 10000;
        }
        let silent = self.steps_until_off == 0;
        if !silent {
            self.steps_until_off = self.steps_until_off - 1;
        }
        proof {
            if old(self).step_spec() % 200 != 0 {
                assert forall|i: int| 0 <= i < old(self).count() implies
                    #[trigger] old(self).voice(i) == self.voice(i) by {}
                assert forall|i: int| 0 <= i < old(self).count() implies
                    #[trigger] old(self).envelope_spec(i) == self.envelope_spec(i) by {}
                assert forall|i: int| 0 <= i < old(self).count() implies
                    #[trigger] old(self).frequency_spec(i) == self.frequency_spec(i) by {}
                assert forall|i: int| 0 <= i < old(self).count() implies
                    #[trigger] old(self).delay_spec(i) == self.delay_spec(i) by {}
                assert forall|i: int| 0 <= i < old(self).count() implies
                    #[trigger] old(self).pan_num_of(i) == self.pan_num_of(i) by {}
                assert(old(self).transitions@ == self.transitions@);
                assert(old(self).envelope_transition_spec()
                    == self.envelope_transition_spec());
            }
        }
        StepControl { reinitialized: reinit, silent }
    }

    /// Report whether the mixed sample that was just rendered was audible;
    /// an audible sample keeps the silence gate open a little longer.
    pub fn finish_sample(&mut self, audible: bool)
        requires
            old(self).wf(),
        ensures
            final(self).wf(),
            final(self).steps_until_off_spec() == (
                if old(self).steps_until_off_spec() < 100 && audible {
                    100int
                } else {
                    old(self).steps_until_off_spec()
                }),
            final(self).step_spec() == old(self).step_spec(),
            final(self).count() == old(self).count(),
    {
        if self.steps_until_off < 100 && audible {
            self.steps_until_off = 100;
        }
    }
}

impl Director {
    /// How many voices the ensemble currently has.
    pub fn instrument_count(&self) -> (n: usize)
        requires
            self.wf(),
        ensures
            n == self.count(),
            1 <= n <= ENSEMBLE_LIMIT,
    {
        self.instruments.len()
    }

    /// The instrument type the ensemble is currently built from.
    pub fn ensemble_type(&self) -> (t: InstrumentType)
        ensures
            t == self.typ(),
    {
        self.instrument_type
    }

    /// The body-resonance coefficient in use, in fixed point.
    pub fn body_resonance(&self) -> (r: i64)
        ensures
            r == self.body_resonance_of(),
    {
        self.body_resonance
    }

    /// How many independent reverb channels the mix needs: one when a
    /// single voice plays (shared by both outputs), two otherwise.
    pub fn reverb_channels(&self) -> (n: usize)
        ensures
            n == self.reverb_channels_spec(),
    {
        self.reverb_channels
    }

    /// The configured largest per-voice onset delay, in samples.
    pub fn max_instrument_delay(&self) -> (d: i64)
        ensures
            d == self.max_delay_spec(),
    {
        self.max_instrument_delay
    }

    /// The onset delay of one voice, in samples.
    pub fn instrument_delay(&self, i: usize) -> (d: i64)
        requires
            self.wf(),
            i < self.count(),
        ensures
            d == self.delay_spec(i as int),
            0 <= d <= self.max_delay_spec(),
    {
        self.instrument_delays[i]
    }

    /// The pan fraction of one voice as an exact rational (numerator,
    /// shared denominator); the pan angle is the fraction of a quarter turn.
    pub fn pan_at(&self, i: usize) -> (r: (i64, i64))
        requires
            self.wf(),
            i < self.count(),
        ensures
            r.0 == self.pan_num_of(i as int),
            r.1 == self.pan_den_of(),
            0 <= r.0 <= r.1,
    {
        (self.pan_num[i], self.pan_den)
    }

    /// The current envelope target of one voice.
    pub fn envelope_at(&self, i: usize) -> (e: i64)
        requires
            self.wf(),
            i < self.count(),
        ensures
            e == self.envelope_spec(i as int),
            0 <= e <= FP_ONE,
    {
        self.envelope[i]
    }

    /// The number of samples generated so far.
    pub fn current_step(&self) -> (s: i64)
        ensures
            s == self.step_spec(),
    {
        self.step
    }

    /// One voice's current bow volume.
    pub fn voice_volume(&self, i: usize) -> (v: i64)
        requires
            self.wf(),
            i < self.count(),
        ensures
            v == self.voice(i as int).volume_spec(),
    {
        self.instruments[i].get_volume()
    }

    /// One voice's driven frequency: its target times the pitch bend.
    pub fn voice_frequency(&self, i: usize) -> (f: i64)
        requires
            self.wf(),
            i < self.count(),
        ensures
            f == self.voice(i as int).frequency_spec(),
    {
        self.instruments[i].frequency_value()
    }

    /// One voice's vibrato phase, in fixed-point cycles modulo four.
    pub fn voice_phase(&self, i: usize) -> (p: i64)
        requires
            self.wf(),
            i < self.count(),
        ensures
            p == self.voice(i as int).phase(),
            0 <= p < 4 * FP_ONE,
    {
        self.instruments[i].phase_value()
    }

    /// Whether one voice's output frame is exhausted.
    pub fn voice_frame_ready(&self, i: usize) -> (b: bool)
        requires
            self.wf(),
            i < self.count(),
        ensures
            b == (self.voice(i as int).output_position_spec()
                >= self.voice(i as int).output_size_spec()),
    {
        self.instruments[i].frame_ready()
    }

    /// One voice's current frame length in samples.
    pub fn voice_output_size(&self, i: usize) -> (n: usize)
        requires
            self.wf(),
            i < self.count(),
        ensures
            n == self.voice(i as int).output_size_spec(),
    {
        self.instruments[i].output_size_value()
    }

    /// One voice's position within its current frame.
    pub fn voice_output_position(&self, i: usize) -> (n: usize)
        requires
            self.wf(),
            i < self.count(),
        ensures
            n == self.voice(i as int).output_position_spec(),
    {
        self.instruments[i].output_position_value()
    }

    /// One voice's half-spectrum size for the current frame.
    pub fn voice_spectrum_size(&self, i: usize) -> (n: usize)
        requires
            self.wf(),
            i < self.count(),
        ensures
            n == self.voice(i as int).spectrum_size_spec(),
    {
        self.instruments[i].spectrum_size_value()
    }

    /// At a frame boundary of one voice, consume its pending-note mark;
    /// when set, the caller snapshots the voice's live spectrum into an
    /// independently decaying tail and clears the live spectrum.
    pub fn voice_take_note_snapshot(&mut self, i: usize) -> (snap: bool)
        requires
            old(self).wf(),
            i < old(self).count(),
        ensures
            final(self).wf(),
            final(self).count() == old(self).count(),
            snap == old(self).voice(i as int).pending_note(),
            !final(self).voice(i as int).pending_note(),
            final(self).step_spec() == old(self).step_spec(),
            final(self).steps_until_off_spec() == old(self).steps_until_off_spec(),
            final(self).envelope_transition_spec() == old(self).envelope_transition_spec(),
            forall|k: int| 0 <= k < old(self).count() && k != i
                ==> #[trigger] final(self).voice(k) == old(self).voice(k),
    {
        let mut inst = self.instruments[i];
        let snap = inst.take_note_snapshot();
        self.instruments[i] = inst;
        snap
    }

    /// Advance one voice's vibrato bookkeeping at a frame boundary, handing
    /// it a fresh normal deviate and the cosine of its slow phase.  Returns
    /// the voice's new vibrato phase.
    pub fn voice_advance_vibrato(&mut self, i: usize, drift_normal: i64, phase_cos: i64)
        -> (ph: i64)
        requires
            old(self).wf(),
            i < old(self).count(),
            -NORMAL_LIMIT <= drift_normal <= NORMAL_LIMIT,
            -FP_ONE <= phase_cos <= FP_ONE,
        ensures
            final(self).wf(),
            final(self).count() == old(self).count(),
            ph == final(self).voice(i as int).phase(),
            0 <= ph < 4 * FP_ONE,
            final(self).voice(i as int).drift() == crate::instrument::drift_next_spec(
                old(self).voice(i as int).drift(), drift_normal as int),
            final(self).voice(i as int).amp_eff() == crate::instrument::amp_eff_spec(
                old(self).voice(i as int).vibrato_amplitude_spec(),
                final(self).voice(i as int).drift()),
            final(self).step_spec() == old(self).step_spec(),
            final(self).steps_until_off_spec() == old(self).steps_until_off_spec(),
            final(self).envelope_transition_spec() == old(self).envelope_transition_spec(),
            forall|k: int| 0 <= k < old(self).count() && k != i
                ==> #[trigger] final(self).voice(k) == old(self).voice(k),
    {
        let mut inst = self.instruments[i];
        let ph = inst.advance_vibrato(drift_normal, phase_cos);
        self.instruments[i] = inst;
        ph
    }

    /// Begin a new synthesis frame for one voice, handing it the vibrato
    /// waveform value at the phase just returned by `voice_advance_vibrato`.
    pub fn voice_begin_frame(&mut self, i: usize, wave: i64) -> (fr: FrameSpec)
        requires
            old(self).wf(),
            i < old(self).count(),
            -FP_ONE <= wave <= FP_ONE,
            old(self).voice(i as int).output_position_spec()
                >= old(self).voice(i as int).output_size_spec(),
        ensures
            final(self).wf(),
            final(self).count() == old(self).count(),
            fr.output_size == final(self).voice(i as int).output_size_spec(),
            fr.spectrum_size == final(self).voice(i as int).spectrum_size_spec(),
            fr.spectrum_size == fr.output_size as int / 2 + 1,
            2 <= fr.output_size <= crate::instrument::FRAME_LIMIT,
            final(self).voice(i as int).output_position_spec() == 0,
            final(self).voice(i as int).period_spec() == crate::instrument::period_of_spec(
                crate::instrument::current_frequency_spec(
                    old(self).voice(i as int).frequency_spec(),
                    old(self).voice(i as int).amp_eff(),
                    wave as int)),
            final(self).voice(i as int).output_size_spec() * FP_ONE
                + final(self).voice(i as int).period_offset_spec()
                == final(self).voice(i as int).period_spec()
                    + old(self).voice(i as int).period_offset_spec(),
            final(self).step_spec() == old(self).step_spec(),
            final(self).steps_until_off_spec() == old(self).steps_until_off_spec(),
            final(self).envelope_transition_spec() == old(self).envelope_transition_spec(),
            forall|k: int| 0 <= k < old(self).count() && k != i
                ==> #[trigger] final(self).voice(k) == old(self).voice(k),
    {
        let mut inst = self.instruments[i];
        let fr = inst.begin_frame(wave);
        self.instruments[i] = inst;
        fr
    }

    /// Take one sample out of one voice's current frame.
    pub fn voice_advance(&mut self, i: usize)
        requires
            old(self).wf(),
            i < old(self).count(),
            old(self).voice(i as int).output_position_spec()
                < old(self).voice(i as int).output_size_spec(),
        ensures
            final(self).wf(),
            final(self).count() == old(self).count(),
            final(self).voice(i as int).output_position_spec()
                == old(self).voice(i as int).output_position_spec() + 1,
            final(self).step_spec() == old(self).step_spec(),
            final(self).steps_until_off_spec() == old(self).steps_until_off_spec(),
            final(self).envelope_transition_spec() == old(self).envelope_transition_spec(),
            forall|k: int| 0 <= k < old(self).count() && k != i
                ==> #[trigger] final(self).voice(k) == old(self).voice(k),
    {
        let mut inst = self.instruments[i];
        inst.advance();
        self.instruments[i] = inst;
    }
}


/// The eased transition weight never decreases as the delayed step grows,
/// and stays between zero and one.
proof fn lemma_weight_monotonic(start: int, end: int, j1: int, j2: int)
    requires
        start < end,
        j1 <= j2,
    ensures
        0 <= transition_weight_spec(start, end, j1),
        transition_weight_spec(start, end, j1) <= transition_weight_spec(start, end, j2),
        transition_weight_spec(start, end, j2) <= FP_ONE,
{
    lemma_weight_bounds(start, end, j1);
    lemma_weight_bounds(start, end, j2);
    if j1 < start || j2 >= end {
        // One of the weights sits at an extreme; the bounds finish it.
    } else {
        let f1 = ((j1 - start) * (FP_ONE as int)) / (end - start);
        let f2 = ((j2 - start) * (FP_ONE as int)) / (end - start);
        vstd::arithmetic::mul::lemma_mul_inequality(j1 - start, j2 - start, FP_ONE as int);
        vstd::arithmetic::div_mod::lemma_div_is_ordered(
            (j1 - start) * (FP_ONE as int), (j2 - start) * (FP_ONE as int), end - start);
        lemma_fraction_bounds(start, end, j1);
        lemma_fraction_bounds(start, end, j2);
        crate::fixed::lemma_ease_monotonic(f1, f2);
    }
}

/// The elapsed fraction of a transition in progress lies in [0, one).
proof fn lemma_fraction_bounds(start: int, end: int, j: int)
    requires
        start < end,
        start <= j < end,
    ensures
        0 <= ((j - start) * (FP_ONE as int)) / (end - start) <= FP_ONE,
{
    vstd::arithmetic::mul::lemma_mul_nonnegative(j - start, FP_ONE as int);
    vstd::arithmetic::mul::lemma_mul_inequality(j - start, end - start, FP_ONE as int);
    vstd::arithmetic::mul::lemma_mul_is_commutative(end - start, FP_ONE as int);
    vstd::arithmetic::div_mod::lemma_div_is_ordered(
        0, (j - start) * (FP_ONE as int), end - start);
    vstd::arithmetic::div_mod::lemma_div_is_ordered(
        (j - start) * (FP_ONE as int), (end - start) * (FP_ONE as int), end - start);
    vstd::arithmetic::div_mod::lemma_div_multiples_vanish(FP_ONE as int, end - start);
}

/// The weight of a transition is zero up to its start and one from its end.
proof fn lemma_weight_bounds(start: int, end: int, j: int)
    requires
        start < end,
    ensures
        0 <= transition_weight_spec(start, end, j) <= FP_ONE,
        j <= start ==> transition_weight_spec(start, end, j) == 0,
        j >= end ==> transition_weight_spec(start, end, j) == FP_ONE,
{
    if start <= j < end {
        let f = ((j - start) * (FP_ONE as int)) / (end - start);
        lemma_fraction_bounds(start, end, j);
        crate::fixed::lemma_ease_bounds(f);
        if j == start {
            assert((0int * (FP_ONE as int)) == 0);
            vstd::arithmetic::div_mod::lemma_div_multiples_vanish(0, end - start);
        }
    }
}

/// Monotonic completion of a scheduled change: an envelope change from `a`
/// to `b` over `[start, end)` has value exactly `a` at the start step and
/// exactly `b` at every step from the end on, and between two delayed
/// steps it moves only toward `b` — never backwards.
pub proof fn lemma_transition_monotonic(start: int, end: int, a: int, b: int, j1: int, j2: int)
    requires
        start < end,
        0 <= a <= FP_ONE,
        0 <= b <= FP_ONE,
        j1 <= j2,
    ensures
        transition_value_spec(start, end, a, b, start) == a,
        j2 >= end ==> transition_value_spec(start, end, a, b, j2) == b,
        a <= b ==> transition_value_spec(start, end, a, b, j1)
            <= transition_value_spec(start, end, a, b, j2),
        b <= a ==> transition_value_spec(start, end, a, b, j2)
            <= transition_value_spec(start, end, a, b, j1),
        0 <= transition_value_spec(start, end, a, b, j1) <= FP_ONE,
{
    let w1 = transition_weight_spec(start, end, j1);
    let w2 = transition_weight_spec(start, end, j2);
    lemma_weight_monotonic(start, end, j1, j2);
    crate::fixed::lemma_fp_lerp_monotonic(a, b, w1, w2);
    crate::fixed::lemma_fp_lerp_bounds(a, b, w1);
    crate::fixed::lemma_fp_lerp_bounds(a, b, w2);
    lemma_weight_bounds(start, end, start);
    crate::fixed::lemma_fp_lerp_bounds(a, b, transition_weight_spec(start, end, start));
}

/// The ensemble's onset delays span the configured range: some voice
/// starts immediately, some voice waits the full delay, and every voice
/// waits somewhere in between.
pub proof fn lemma_delays_span(n: int, max_delay: int)
    requires
        2 <= n <= ENSEMBLE_LIMIT,
        0 <= max_delay <= DELAY_LIMIT,
    ensures
        delay_of_spec(n, max_delay, n - n / 2) == 0,
        delay_of_spec(n, max_delay, n - n / 2 - 1) == max_delay,
        forall|i: int| 0 <= i < n ==> 0 <= #[trigger] delay_of_spec(n, max_delay, i) <= max_delay,
{
    vstd::arithmetic::div_mod::lemma_mod_self_0(n);
    assert((n - n / 2 + n / 2) % n == 0) by {
        assert(n - n / 2 + n / 2 == n);
    }
    assert(delay_of_spec(n, max_delay, n - n / 2) == (max_delay * 0) / (n - 1));
    vstd::arithmetic::div_mod::lemma_div_multiples_vanish(0, n - 1);
    vstd::arithmetic::div_mod::lemma_small_mod((n - 1) as nat, n as nat);
    assert(delay_of_spec(n, max_delay, n - n / 2 - 1) == (max_delay * (n - 1)) / (n - 1));
    vstd::arithmetic::mul::lemma_mul_is_commutative(max_delay, n - 1);
    vstd::arithmetic::div_mod::lemma_div_multiples_vanish(max_delay, n - 1);
    assert forall|i: int| 0 <= i < n implies
        0 <= #[trigger] delay_of_spec(n, max_delay, i) <= max_delay by {
        let index = (i + n / 2) % n;
        vstd::arithmetic::div_mod::lemma_mod_bound(i + n / 2, n);
        vstd::arithmetic::mul::lemma_mul_nonnegative(max_delay, index);
        vstd::arithmetic::mul::lemma_mul_inequality(index, n - 1, max_delay);
        vstd::arithmetic::mul::lemma_mul_is_commutative(max_delay, index);
        vstd::arithmetic::div_mod::lemma_div_is_ordered(0, max_delay * index, n - 1);
        vstd::arithmetic::div_mod::lemma_div_is_ordered(
            max_delay * index, max_delay * (n - 1), n - 1);
        vstd::arithmetic::div_mod::lemma_div_multiples_vanish(max_delay, n - 1);
    }
}

/// A ramp time of the form `1000 + (scale * (1 - rate))` steps stays
/// between 1000 and 1000 + scale.
proof fn lemma_ramp_time_bounds(rate: int, scale: int)
    requires
        0 <= rate <= FP_ONE,
        0 < scale <= 20000,
    ensures
        1000 <= 1000 + (scale * ((FP_ONE as int) - rate)) / (FP_ONE as int) <= 1000 + scale,
{
    vstd::arithmetic::mul::lemma_mul_nonnegative(scale, (FP_ONE as int) - rate);
    vstd::arithmetic::mul::lemma_mul_inequality((FP_ONE as int) - rate, FP_ONE as int, scale);
    vstd::arithmetic::mul::lemma_mul_is_commutative(scale, (FP_ONE as int) - rate);
    vstd::arithmetic::mul::lemma_mul_is_commutative(scale, FP_ONE as int);
    vstd::arithmetic::div_mod::lemma_div_is_ordered(
        0, scale * ((FP_ONE as int) - rate), FP_ONE as int);
    vstd::arithmetic::div_mod::lemma_div_is_ordered(
        scale * ((FP_ONE as int) - rate), scale * (FP_ONE as int), FP_ONE as int);
    vstd::arithmetic::div_mod::lemma_div_multiples_vanish(scale, FP_ONE as int);
}

/// All director state except the pan layout agrees.
spec fn same_but_pan(a: Director, b: Director) -> bool {
    &&& a.instruments@ == b.instruments@
    &&& a.instrument_type == b.instrument_type
    &&& a.lowest_note == b.lowest_note
    &&& a.highest_note == b.highest_note
    &&& a.step == b.step
    &&& a.steps_until_off == b.steps_until_off
    &&& a.transitions@ == b.transitions@
    &&& a.max_instrument_delay == b.max_instrument_delay
    &&& a.instrument_delays@ == b.instrument_delays@
    &&& a.volume == b.volume
    &&& a.envelope@ == b.envelope@
    &&& a.frequency@ == b.frequency@
    &&& a.bend == b.bend
    &&& a.vibrato == b.vibrato
    &&& a.intensity == b.intensity
    &&& a.brightness == b.brightness
    &&& a.attack_rate == b.attack_rate
    &&& a.release_rate == b.release_rate
    &&& a.body_resonance == b.body_resonance
    &&& a.accent == b.accent
    &&& a.envelope_after_transitions == b.envelope_after_transitions
    &&& a.frequency_after_transitions == b.frequency_after_transitions
    &&& a.stereo_width == b.stereo_width
    &&& a.reverb_channels == b.reverb_channels
    &&& a.randomize == b.randomize
}

/// All director state except the delay layout agrees.
spec fn same_but_delays(a: Director, b: Director) -> bool {
    &&& a.instruments@ == b.instruments@
    &&& a.instrument_type == b.instrument_type
    &&& a.lowest_note == b.lowest_note
    &&& a.highest_note == b.highest_note
    &&& a.step == b.step
    &&& a.steps_until_off == b.steps_until_off
    &&& a.transitions@ == b.transitions@
    &&& a.max_instrument_delay == b.max_instrument_delay
    &&& a.volume == b.volume
    &&& a.envelope@ == b.envelope@
    &&& a.frequency@ == b.frequency@
    &&& a.bend == b.bend
    &&& a.vibrato == b.vibrato
    &&& a.intensity == b.intensity
    &&& a.brightness == b.brightness
    &&& a.attack_rate == b.attack_rate
    &&& a.release_rate == b.release_rate
    &&& a.body_resonance == b.body_resonance
    &&& a.accent == b.accent
    &&& a.envelope_after_transitions == b.envelope_after_transitions
    &&& a.frequency_after_transitions == b.frequency_after_transitions
    &&& a.stereo_width == b.stereo_width
    &&& a.pan_num@ == b.pan_num@
    &&& a.pan_den == b.pan_den
    &&& a.reverb_channels == b.reverb_channels
    &&& a.randomize == b.randomize
}

} // verus!
