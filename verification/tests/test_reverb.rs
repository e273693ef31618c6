use synth::reverb::Reverb;
use synth::random::Random;
use realfft::RealFftPlanner;
use realfft::num_complex::Complex;

fn next_normal(rand: &mut Random, cache: &mut Option<f32>) -> f32 {
    if let Some(v) = cache.take() {
        return v;
    }
    loop {
        let u1: f32 = (1.0 / 4294967296.0) * (rand.get_int() as f32);
        let u2: f32 = (1.0 / 4294967296.0) * (rand.get_int() as f32);
        let x = 2.0 * u1 - 1.0;
        let y = 2.0 * u2 - 1.0;
        let r2 = x * x + y * y;
        if r2 < 1.0 && r2 != 0.0 {
            let multiplier = (-2.0 * r2.ln() / r2).sqrt();
            *cache = Some(y * multiplier);
            return x * multiplier;
        }
    }
}

#[test]
fn test_reverb() {
    // Create a random input sequence and IR.

    let mut random = Random::new();
    let mut cache: Option<f32> = None;
    let mut input = vec![];
    for _ in 0..200 {
        input.push(next_normal(&mut random, &mut cache));
    }
    let mut ir = vec![];
    for _ in 0..120 {
        ir.push(next_normal(&mut random, &mut cache));
    }

    // Compute the convolved sequence.

    let mut expected = vec![0.0f32; input.len() + ir.len() + 10];
    for i in 0..input.len() {
        for j in 0..ir.len() {
            expected[i + j] += input[i] * ir[j];
        }
    }

    // Drive a frequency-domain convolver that takes every structural
    // decision (partition layout, firing schedule, ring indexing) from the
    // verified plan, and check it against the direct convolution.

    let mut plan = Reverb::new(ir.len());
    let width = plan.width();
    let direct_width = plan.direct_width();
    assert!(width >= ir.len() && width < 2 * ir.len());

    let mut padded = ir.clone();
    padded.resize(width, 0.0);
    let mut planner = RealFftPlanner::<f32>::new();

    // Precompute each block's IR spectrum: block b covers the padded IR
    // samples [w/2, w) for its width w.
    let mut block_spectra: Vec<Vec<Complex<f32>>> = vec![];
    for b in 0..plan.block_count() {
        let w = plan.block_width(b);
        let fft = planner.plan_fft_forward(w);
        let mut time = vec![0.0f32; w];
        time[..w / 2].copy_from_slice(&padded[w / 2..w]);
        let mut spectrum = fft.make_output_vec();
        fft.process(&mut time, &mut spectrum).unwrap();
        block_spectra.push(spectrum);
    }

    let ring_len = plan.ring_len();
    let mut input_ring = vec![0.0f32; ring_len];
    let mut output_ring = vec![0.0f32; ring_len];
    let head = if direct_width < ir.len() { direct_width } else { ir.len() };

    for i in 0..expected.len() {
        let x = if i < input.len() { input[i] } else { 0.0 };
        let position = plan.position();
        input_ring[position] = x;

        // The short head is convolved directly every sample.
        for t in 0..head {
            output_ring[plan.ring_index(t)] += x * ir[t];
        }

        // Each block runs its transform on the samples of its half window
        // whenever the schedule says it is due.
        for b in 0..plan.block_count() {
            if plan.fires(b) {
                let w = plan.block_width(b);
                let half = w / 2;
                let fft = planner.plan_fft_forward(w);
                let mut time = vec![0.0f32; w];
                time[..half].copy_from_slice(&input_ring[position + 1 - half..position + 1]);
                let mut spectrum = fft.make_output_vec();
                fft.process(&mut time, &mut spectrum).unwrap();
                for k in 0..spectrum.len() {
                    spectrum[k] *= block_spectra[b][k];
                }
                let inverse = planner.plan_fft_inverse(w);
                let mut out = vec![0.0f32; w];
                inverse.process(&mut spectrum, &mut out).unwrap();
                let scale = 1.0 / w as f32;
                for t in 0..w {
                    output_ring[plan.ring_index(1 + t)] += scale * out[t];
                }
            }
        }

        let result = output_ring[position];
        output_ring[position] = 0.0;
        plan.step();
        assert!((expected[i] - result).abs() < 1e-4);
    }
}

#[test]
fn test_plan_layout() {
    // A 120-tap response pads to 128; blocks double from 32 up to 128 and
    // together with the 16-tap direct head they cover every tap.
    let plan = Reverb::new(120);
    assert_eq!(plan.width(), 128);
    assert_eq!(plan.direct_width(), 16);
    assert_eq!(plan.block_count(), 3);
    assert_eq!(plan.block_width(0), 32);
    assert_eq!(plan.block_width(1), 64);
    assert_eq!(plan.block_width(2), 128);
    assert_eq!(plan.ring_len(), 256);

    // A response shorter than the direct head needs no blocks at all.
    let small = Reverb::new(10);
    assert_eq!(small.width(), 16);
    assert_eq!(small.direct_width(), 16);
    assert_eq!(small.block_count(), 0);

    let tiny = Reverb::new(1);
    assert_eq!(tiny.width(), 1);
    assert_eq!(tiny.direct_width(), 1);
    assert_eq!(tiny.block_count(), 0);
}

#[test]
fn test_plan_schedule() {
    // A block of width w fires once every w/2 samples, just before its
    // half window completes.
    let mut plan = Reverb::new(120);
    let mut fire_counts = [0usize; 3];
    for _ in 0..256 {
        for b in 0..3 {
            if plan.fires(b) {
                fire_counts[b] += 1;
            }
        }
        plan.step();
    }
    assert_eq!(fire_counts[0], 16);
    assert_eq!(fire_counts[1], 8);
    assert_eq!(fire_counts[2], 4);
}
