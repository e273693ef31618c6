use std::sync::mpsc;
use synth::director::{Director, Message};
use synth::{FP_ONE, InstrumentType};

#[test]
fn test_reinitialize_ensemble() {
    // After a Reinitialize to four basses the engine exposes exactly four
    // voices, pan fractions symmetric about the center, onset delays
    // spanning the whole configured range, and the bass body resonance.
    let (sender, receiver) = mpsc::channel();
    let mut d = Director::new(InstrumentType::Violin, 1, receiver);
    sender
        .send(Message::Reinitialize {
            instrument_type: InstrumentType::Bass,
            instrument_count: 4,
        })
        .unwrap();
    let c = d.generate();
    assert!(c.reinitialized);
    assert_eq!(d.instrument_count(), 4);
    assert_eq!(d.body_resonance(), FP_ONE / 2);
    assert_eq!(d.reverb_channels(), 2);

    let n = d.instrument_count();
    for i in 0..n {
        let (num, den) = d.pan_at(i);
        let (mirror, _) = d.pan_at(n - 1 - i);
        assert_eq!(num + mirror, den);
    }

    let max = d.max_instrument_delay();
    let mut seen_zero = false;
    let mut seen_max = false;
    for i in 0..n {
        let delay = d.instrument_delay(i);
        assert!(0 <= delay && delay <= max);
        if delay == 0 {
            seen_zero = true;
        }
        if delay == max {
            seen_max = true;
        }
    }
    assert!(seen_zero);
    assert!(seen_max);
}

#[test]
fn test_single_voice_center_pan() {
    let (_sender, receiver) = mpsc::channel();
    let d = Director::new(InstrumentType::Viola, 1, receiver);
    assert_eq!(d.instrument_count(), 1);
    assert_eq!(d.reverb_channels(), 1);
    let (num, den) = d.pan_at(0);
    // A lone voice sits at the center: half of a quarter turn.
    assert_eq!(2 * num, den);
}

#[test]
fn test_note_gating() {
    // Notes outside the playable range change nothing and make no sound.
    let (sender, receiver) = mpsc::channel();
    let mut d = Director::new(InstrumentType::Violin, 2, receiver);
    sender
        .send(Message::NoteOn { note_index: 20, velocity: FP_ONE })
        .unwrap();
    let c = d.generate();
    assert!(d.envelope_transition().is_none());
    for i in 0..2 {
        assert_eq!(d.envelope_at(i), 0);
        assert_eq!(d.voice_volume(i), 0);
    }
    assert!(c.silent);

    // The same holds above the range, at the next control tick.
    sender
        .send(Message::NoteOn { note_index: 120, velocity: FP_ONE })
        .unwrap();
    while d.current_step() % 200 != 0 {
        let c2 = d.generate();
        assert!(c2.silent);
    }
    let _ = d.generate();
    assert!(d.envelope_transition().is_none());
    for i in 0..2 {
        assert_eq!(d.envelope_at(i), 0);
        assert_eq!(d.voice_volume(i), 0);
    }

    // An in-range note does schedule an attack ramp.
    sender
        .send(Message::NoteOn { note_index: 69, velocity: FP_ONE })
        .unwrap();
    while d.current_step() % 200 != 0 {
        let _ = d.generate();
    }
    let _ = d.generate();
    assert!(d.envelope_transition().is_some());
}

#[test]
fn test_envelope_transition_completion() {
    // Scheduling an envelope ramp from 0 to 1 over 1000 steps gives value
    // 0 at the start, 1 from the end on, and never decreases in between.
    let (sender, receiver) = mpsc::channel();
    let mut d = Director::new(InstrumentType::Cello, 1, receiver);
    sender.send(Message::SetAttackRate { attack: FP_ONE }).unwrap();
    sender
        .send(Message::NoteOn { note_index: 48, velocity: FP_ONE })
        .unwrap();
    let _ = d.generate();

    let tr = d.envelope_transition().unwrap();
    assert_eq!(tr.0, 0);
    assert_eq!(tr.1, 1000);
    assert_eq!(tr.2, 0);
    assert_eq!(tr.3, FP_ONE);
    assert_eq!(d.envelope_at(0), 0);

    let mut last: i64 = 0;
    for _ in 0..10 {
        for _ in 0..200 {
            let _ = d.generate();
        }
        let e = d.envelope_at(0);
        assert!(e >= last);
        last = e;
    }
    assert_eq!(last, FP_ONE);
}

#[test]
fn test_retrigger_evicts_envelope_ramp() {
    // A new envelope ramp supersedes the pending one: after a note-off the
    // only scheduled envelope change is the release toward silence.
    let (sender, receiver) = mpsc::channel();
    let mut d = Director::new(InstrumentType::Viola, 2, receiver);
    sender
        .send(Message::NoteOn { note_index: 60, velocity: FP_ONE })
        .unwrap();
    let _ = d.generate();
    let attack = d.envelope_transition().unwrap();
    assert_eq!(attack.3, FP_ONE);

    sender.send(Message::NoteOff).unwrap();
    while d.current_step() % 200 != 0 {
        let _ = d.generate();
    }
    let _ = d.generate();
    let release = d.envelope_transition().unwrap();
    assert_eq!(release.3, 0);
    // Release time at the default release rate of one half: 1000 + 2500.
    assert_eq!(release.1 - release.0, 3500);
}

#[test]
fn test_note_on_sets_frequencies() {
    // An in-range note retunes every voice to its equal-tempered pitch,
    // scaled by the neutral default pitch bend of one.
    let (sender, receiver) = mpsc::channel();
    let mut d = Director::new(InstrumentType::Cello, 3, receiver);
    sender
        .send(Message::NoteOn { note_index: 57, velocity: FP_ONE })
        .unwrap();
    let _ = d.generate();
    for i in 0..3 {
        assert_eq!(d.voice_frequency(i), 220 * FP_ONE);
    }
    // A pitch bend of one octave doubles every driven frequency.
    sender
        .send(Message::SetPitchBend { semitones: 12 * FP_ONE })
        .unwrap();
    while d.current_step() % 200 != 0 {
        let _ = d.generate();
    }
    let _ = d.generate();
    for i in 0..3 {
        assert_eq!(d.voice_frequency(i), 440 * FP_ONE);
    }
}

#[test]
fn test_silence_hold_ends_after_note() {
    // With no note played every sample is silent; once a note raises the
    // lead voice's volume, samples start being rendered.
    let (sender, receiver) = mpsc::channel();
    let mut d = Director::new(InstrumentType::Bass, 1, receiver);
    let c = d.generate();
    assert!(c.silent);
    sender
        .send(Message::NoteOn { note_index: 40, velocity: FP_ONE })
        .unwrap();
    // The message is drained at the next multiple of 200 steps; the ramp
    // then needs a tick of progress before the volume rises.
    let mut opened = false;
    for _ in 0..500 {
        let c2 = d.generate();
        if !c2.silent {
            opened = true;
            break;
        }
    }
    assert!(opened);
}

#[test]
fn test_max_delay_update_respects_new_bound() {
    let (sender, receiver) = mpsc::channel();
    let mut d = Director::new(InstrumentType::Violin, 4, receiver);
    sender
        .send(Message::SetMaxInstrumentDelay { max_delay: 900 })
        .unwrap();
    let _ = d.generate();
    assert_eq!(d.max_instrument_delay(), 900);
    for i in 0..4 {
        assert!(d.instrument_delay(i) <= 900);
    }
}

#[test]
fn test_stereo_width_zero_collapses_pans() {
    let (sender, receiver) = mpsc::channel();
    let mut d = Director::new(InstrumentType::Violin, 4, receiver);
    sender.send(Message::SetStereoWidth { width: 0 }).unwrap();
    let _ = d.generate();
    for i in 0..4 {
        let (num, den) = d.pan_at(i);
        assert_eq!(2 * num, den);
    }
}
