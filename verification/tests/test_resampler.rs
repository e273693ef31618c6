use synth::resampler::Resampler;
use synth::{FP_ONE, SAMPLE_RATE};
use std::f32::consts::PI;

fn to_fixed(y: f32) -> i64 {
    (y * FP_ONE as f32) as i64
}

fn from_fixed(y: i64) -> f32 {
    y as f32 / FP_ONE as f32
}

fn test_for_output_rate(output_rate: usize) {
    let input_rate = SAMPLE_RATE;
    let mut resampler = Resampler::new(output_rate as i64);
    let mut output: Vec<f32> = Vec::new();

    // Generate one cycle of a sine wave's phase ramp at the input rate.

    for i in 0..input_rate {
        while resampler.has_output() {
            output.push(from_fixed(resampler.get_output()));
        }
        resampler.add_input(to_fixed(2.0 * PI * (i as f32) / input_rate as f32));
    }

    // The number of output samples should equal the output rate, to within +/- 1.

    assert!((output.len() as i32 - output_rate as i32).abs() < 2);

    // The output should be the same ramp at the output rate.

    for i in 0..output.len() {
        let expected = 2.0 * PI * (i as f32) / output_rate as f32;
        assert!((output[i] - expected).abs() < 0.001);
    }
}

#[test]
fn test_downsample() {
    test_for_output_rate(44100);
}

#[test]
fn test_upsample() {
    test_for_output_rate(96000);
}

#[test]
fn test_protocol_alternation() {
    // Output is pending exactly while the output clock has not passed the
    // newest input; adding input is legal only while no output is pending.
    let mut r = Resampler::new(96000);
    assert!(r.has_output());
    let first = r.get_output();
    assert_eq!(first, 0);
    assert!(!r.has_output());
    // At 96 kHz two outputs follow each input.
    r.add_input(FP_ONE);
    assert!(r.has_output());
    assert_eq!(r.get_output(), FP_ONE / 2);
    assert!(r.has_output());
    assert_eq!(r.get_output(), FP_ONE);
    assert!(!r.has_output());
}

#[test]
fn test_interpolation_exact_midpoint() {
    // Downsampling 48 kHz to 32 kHz puts every second output exactly two
    // thirds of the way between inputs; check one exactly computed value.
    let mut r = Resampler::new(32000);
    assert!(r.has_output());
    assert_eq!(r.get_output(), 0);
    r.add_input(0);
    assert!(!r.has_output());
    r.add_input(96000);
    // Output time is now 1.5 input samples: halfway between 0 and 96000.
    assert!(r.has_output());
    assert_eq!(r.get_output(), 48000);
}
