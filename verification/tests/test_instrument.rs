use synth::instrument::Instrument;
use synth::{FP_ONE, SAMPLE_RATE, InstrumentType};

#[test]
fn test_frame_clock_carries_fraction() {
    // With vibrato off, frames are cut at the target pitch period and the
    // fractional sample is carried, so the total length of many frames
    // tracks the exact period with no long-term drift.
    let mut inst = Instrument::new(InstrumentType::Viola, 0);
    inst.set_frequency(441 * FP_ONE);
    inst.set_vibrato_amplitude(0);
    let frames = 100;
    let mut total: i64 = 0;
    for _ in 0..frames {
        assert!(inst.frame_ready());
        let _ = inst.take_note_snapshot();
        let _ = inst.advance_vibrato(0, 0);
        let fr = inst.begin_frame(0);
        assert_eq!(fr.spectrum_size, fr.output_size / 2 + 1);
        total += fr.output_size as i64;
        for _ in 0..fr.output_size {
            inst.advance();
        }
    }
    let exact = frames as f64 * SAMPLE_RATE as f64 / 441.0;
    assert!((total as f64 - exact).abs() <= 1.0);
}

#[test]
fn test_exact_period_frame_sizes() {
    // At 750 Hz the period is exactly 64 samples, so every frame is 64.
    let mut inst = Instrument::new(InstrumentType::Violin, 0);
    inst.set_frequency(750 * FP_ONE);
    inst.set_vibrato_amplitude(0);
    for _ in 0..5 {
        let _ = inst.take_note_snapshot();
        let _ = inst.advance_vibrato(0, 0);
        let fr = inst.begin_frame(0);
        assert_eq!(fr.output_size, 64);
        assert_eq!(fr.spectrum_size, 33);
        for _ in 0..fr.output_size {
            inst.advance();
        }
    }
}

#[test]
fn test_note_on_latches_changes_only() {
    let mut inst = Instrument::new(InstrumentType::Cello, 0);
    assert!(!inst.take_note_snapshot());
    inst.note_on(60);
    assert_eq!(inst.last_note_value(), 60);
    assert!(inst.take_note_snapshot());
    // Repeating the sounding note is ignored.
    inst.note_on(60);
    assert!(!inst.take_note_snapshot());
    // A different note is latched again.
    inst.note_on(62);
    assert_eq!(inst.last_note_value(), 62);
    assert!(inst.take_note_snapshot());
}

#[test]
fn test_volume_control_round_trip() {
    let mut inst = Instrument::new(InstrumentType::Bass, 3);
    assert_eq!(inst.get_volume(), FP_ONE);
    inst.set_volume(FP_ONE / 4);
    assert_eq!(inst.get_volume(), FP_ONE / 4);
}

#[test]
fn test_vibrato_phase_stays_in_range() {
    // The vibrato phase accumulates cycles modulo four whatever the drift
    // deviates do.
    let mut inst = Instrument::new(InstrumentType::Violin, 1);
    inst.set_frequency(440 * FP_ONE);
    inst.set_vibrato_amplitude(FP_ONE / 100);
    let mut sign: i64 = 1;
    for _ in 0..200 {
        let _ = inst.take_note_snapshot();
        let ph = inst.advance_vibrato(sign * 4 * FP_ONE, FP_ONE / 2);
        sign = -sign;
        assert!(0 <= ph && ph < 4 * FP_ONE);
        assert_eq!(ph, inst.phase_value());
        let fr = inst.begin_frame(FP_ONE / 3);
        assert!(fr.output_size >= 2);
        for _ in 0..fr.output_size {
            inst.advance();
        }
    }
}
