use synth::random::Random;

/// Box-Muller normal deviates over the generator's uniform output, with the
/// classic paired-sample cache.
fn next_normal(rand: &mut Random, cache: &mut Option<f32>) -> f32 {
    if let Some(v) = cache.take() {
        return v;
    }
    loop {
        let u1: f32 = (1.0 / 4294967296.0) * (rand.get_int() as f32);
        let u2: f32 = (1.0 / 4294967296.0) * (rand.get_int() as f32);
        let x = 2.0 * u1 - 1.0;
        let y = 2.0 * u2 - 1.0;
        let r2 = x * x + y * y;
        if r2 < 1.0 && r2 != 0.0 {
            let multiplier = (-2.0 * r2.ln() / r2).sqrt();
            *cache = Some(y * multiplier);
            return x * multiplier;
        }
    }
}

#[test]
fn test_unique_seeds() {
    // Every random generator should have a different seed and produce different values.

    let mut rand1 = Random::new();
    let mut rand2 = Random::new();
    let mut rand3 = Random::new();
    for _ in 0..10 {
        let v1 = rand1.get_int();
        let v2 = rand2.get_int();
        let v3 = rand3.get_int();
        assert!(v1 != v2);
        assert!(v1 != v3);
        assert!(v2 != v3);
    }
}

#[test]
fn test_bit_distributions() {
    // Every output bit should be set half the time.

    let mut rand = Random::new();
    let mut count = [0u32; 32];
    for _ in 0..10000 {
        let v = rand.get_int();
        for i in 0..32 {
            count[i] += (v >> i) & 1;
        }
    }
    for c in count {
        assert!(c > 4000 && c < 6000);
    }
}

#[test]
fn test_uniform_distribution() {
    let mut rand = Random::new();
    let mut count = [0usize; 10];
    for _ in 0..10000 {
        let v: f32 = (1.0 / 4294967296.0) * (rand.get_int() as f32);
        assert!(v >= 0.0 && v < 1.0);
        count[(v * 10.0) as usize] += 1;
    }
    for c in count {
        assert!(c > 800 && c < 1200);
    }
}

#[test]
fn test_normal_distribution() {
    // Compute the first four moments of the distribution.

    let mut rand = Random::new();
    let mut cache: Option<f32> = None;
    let mut moments = [0.0f32; 4];
    for _ in 0..10000 {
        let v = next_normal(&mut rand, &mut cache);
        moments[0] += v;
        moments[1] += v * v;
        moments[2] += v * v * v;
        moments[3] += v * v * v * v;
    }
    for i in 0..4 {
        moments[i] /= 10000.0;
    }

    // Test the cumulants.

    let c2 = moments[1] - moments[0].powf(2.0);
    let c3 = moments[2] - 3.0 * moments[1] * moments[0] + 2.0 * moments[0].powf(2.0);
    let c4 = moments[3] - 4.0 * moments[2] * moments[0] - 3.0 * moments[1] * moments[1]
        + 12.0 * moments[1] * moments[0] * moments[0] - 6.0 * moments[0].powf(3.0);
    assert!(moments[0].abs() < 0.04);
    assert!((c2 - 1.0).abs() < 0.2);
    assert!(c3.abs() < 0.4);
    assert!(c4.abs() < 0.4);
}

#[test]
fn test_seeded_stream_is_deterministic() {
    let mut a = Random::from_seed(12345);
    let mut b = Random::from_seed(12345);
    for _ in 0..100 {
        assert_eq!(a.get_int(), b.get_int());
    }
}

#[test]
fn test_lcg_first_values() {
    // The generator is the classic linear congruential step.
    let mut rand = Random::from_seed(0);
    assert_eq!(rand.get_int(), 1013904223);
    let expected: u32 = 1013904223u32
        .wrapping_mul(1664525)
        .wrapping_add(1013904223);
    assert_eq!(rand.get_int(), expected);
}

#[test]
fn test_get_indices_distinct() {
    let mut rand = Random::new();
    let indices = rand.get_indices(5, 12);
    assert_eq!(indices.len(), 5);
    for i in 0..5 {
        assert!(indices[i] < 12);
        for j in 0..i {
            assert!(indices[i] != indices[j]);
        }
    }
    let all = rand.get_indices(12, 12);
    let mut seen = [false; 12];
    for v in all {
        assert!(!seen[v]);
        seen[v] = true;
    }
}
