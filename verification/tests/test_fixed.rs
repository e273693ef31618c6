use synth::FP_ONE;
use synth::fixed::{bend_ratio, clamp, div_trunc, ease, fp_lerp, fp_mul, note_frequency};

#[test]
fn test_ease_endpoints_and_midpoint() {
    assert_eq!(ease(0), 0);
    assert_eq!(ease(FP_ONE), FP_ONE);
    // The easing curve passes through one half at one half.
    assert_eq!(ease(FP_ONE / 2), FP_ONE / 2);
}

#[test]
fn test_ease_monotone_sampling() {
    let mut last: i64 = -1;
    let mut f: i64 = 0;
    while f <= FP_ONE {
        let e = ease(f);
        assert!(e >= last);
        assert!(0 <= e && e <= FP_ONE);
        last = e;
        f += 997;
    }
}

#[test]
fn test_note_frequency_reference_pitches() {
    // A above middle C is exactly 440 Hz; octaves double exactly.
    assert_eq!(note_frequency(69), 440 * FP_ONE);
    assert_eq!(note_frequency(81), 880 * FP_ONE);
    assert_eq!(note_frequency(57), 220 * FP_ONE);
    assert_eq!(note_frequency(45), 110 * FP_ONE);
    // Middle C sits near 261.63 Hz.
    let c4 = note_frequency(60);
    assert!(261 * FP_ONE < c4 && c4 < 262 * FP_ONE);
    // The table covers the whole note range with sane values.
    for n in 0..128 {
        let f = note_frequency(n);
        assert!(8 * FP_ONE <= f && f <= 13000 * FP_ONE);
        if n > 0 {
            assert!(f > note_frequency(n - 1));
        }
    }
}

#[test]
fn test_bend_ratio_reference_points() {
    assert_eq!(bend_ratio(0), FP_ONE);
    assert_eq!(bend_ratio(12 * FP_ONE), 2 * FP_ONE);
    assert_eq!(bend_ratio(-12 * FP_ONE), FP_ONE / 2);
    // One semitone up is the equal-tempered semitone ratio.
    assert_eq!(bend_ratio(FP_ONE), 69433);
    // A quarter tone sits between the unison and the semitone.
    let quarter = bend_ratio(FP_ONE / 2);
    assert!(FP_ONE < quarter && quarter < 69433);
}

#[test]
fn test_fixed_point_helpers() {
    assert_eq!(fp_mul(FP_ONE, FP_ONE), FP_ONE);
    assert_eq!(fp_mul(3 * FP_ONE, FP_ONE / 2), 3 * FP_ONE / 2);
    assert_eq!(fp_lerp(0, FP_ONE, FP_ONE / 4), FP_ONE / 4);
    assert_eq!(fp_lerp(FP_ONE, 0, FP_ONE / 4), 3 * FP_ONE / 4);
    assert_eq!(clamp(5, 0, 3), 3);
    assert_eq!(clamp(-5, 0, 3), 0);
    assert_eq!(clamp(2, 0, 3), 2);
    assert_eq!(div_trunc(7, 2), 3);
    assert_eq!(div_trunc(-7, 2), -3);
}
