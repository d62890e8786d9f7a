use granular_synth::{generate_envelope, GrainParams, GrainVoice, Interpolation, Specs};

const ONE: i32 = 32768;

fn default_params(filesize: usize) -> GrainParams {
    GrainParams {
        grain_start: 0,
        grain_duration: 100,
        grain_overlap: 2 * ONE,
        grain_pitch: ONE,
        specs: Specs { sample_rate: 44100, channels: 1, filesize },
    }
}

#[test]
fn envelope_of_1024_has_unit_peak_and_closed_ends() {
    let env = generate_envelope(1024);
    assert_eq!(env.len(), 1024);
    assert!(env[0] >= 0 && env[0] <= ONE);
    assert!(env[1023] >= 0 && env[1023] <= ONE);
    assert_eq!(env[0], 0);
    assert!(env[1023] < ONE / 100);
    assert!(env[512] > ONE * 99 / 100);
    assert_eq!(env[512], ONE);
}

#[test]
fn envelope_is_symmetric_about_its_midpoint() {
    let env = generate_envelope(1024);
    for i in 1..1024 {
        assert_eq!(env[i], env[1024 - i]);
    }
    let odd = generate_envelope(129);
    for i in 1..129 {
        assert_eq!(odd[i], odd[129 - i]);
    }
}

#[test]
fn envelope_edge_cases() {
    assert_eq!(generate_envelope(0).len(), 0);
    let two = generate_envelope(2);
    assert_eq!(two, vec![0, ONE]);
}

#[test]
fn grain_of_a_full_scale_source_follows_the_window() {
    let source: Vec<i32> = vec![ONE; 44100];
    let env = generate_envelope(128);
    let voice = GrainVoice::new(0, ONE, ONE);
    let out = voice.process_grain(&source, &env, &default_params(44100));
    assert_eq!(out.len(), 4410);
    let max = *out.iter().max().unwrap();
    let min = *out.iter().min().unwrap();
    assert!(max >= ONE * 99 / 100, "max = {}", max);
    assert!(max <= ONE + ONE / 100, "max = {}", max);
    assert!(min >= -ONE / 100, "min = {}", min);
    assert!(min <= ONE / 100, "min = {}", min);
    assert_eq!(out[0], 0);
}

#[test]
fn grain_from_an_empty_source_is_silence() {
    let source: Vec<i32> = vec![];
    let env = generate_envelope(128);
    let voice = GrainVoice::new(0, ONE, ONE);
    let out = voice.process_grain(&source, &env, &default_params(0));
    assert_eq!(out.len(), 4410);
    assert!(out.iter().all(|&s| s == 0));
}

#[test]
fn grain_length_follows_duration_and_rate() {
    let source: Vec<i32> = vec![0; 1000];
    let env = generate_envelope(16);
    let voice = GrainVoice::new(0, ONE, ONE);
    let mut params = default_params(1000);
    params.grain_duration = 50;
    params.specs.sample_rate = 48000;
    let out = voice.process_grain(&source, &env, &params);
    assert_eq!(out.len(), 2400);

    // A half-length duration ratio halves the grain.
    let half_voice = GrainVoice::new(0, ONE, ONE / 2);
    let out = half_voice.process_grain(&source, &env, &params);
    assert_eq!(out.len(), 1200);

    // A zero duration gives an empty grain.
    params.grain_duration = 0;
    let out = voice.process_grain(&source, &env, &params);
    assert_eq!(out.len(), 0);
}

#[test]
fn pitch_ratio_speeds_the_source_read() {
    // A ramp read at double pitch climbs twice as fast.
    let source: Vec<i32> = (0..1000).map(|i| i * 10).collect();
    let env: Vec<i32> = vec![ONE; 8];
    let voice = GrainVoice::new(0, ONE, ONE);
    let mut params = default_params(1000);
    params.grain_duration = 10;
    params.grain_pitch = 2 * ONE;
    let out = voice.process_grain(&source, &env, &params);
    assert_eq!(out.len(), 441);
    assert_eq!(out[100], 2000);

    params.grain_pitch = ONE;
    let out = voice.process_grain(&source, &env, &params);
    assert_eq!(out[100], 1000);
}

#[test]
fn linear_voice_reproduces_the_source_under_a_flat_window() {
    // Unity pitch reads whole sample positions; a full-open window and
    // the linear kernel then hand the source through exactly.
    let source: Vec<i32> = (0..4500).map(|i| (i % 1000) * 7 - 3500).collect();
    let env: Vec<i32> = vec![ONE; 32];
    let mut voice = GrainVoice::new(0, ONE, ONE);
    voice.interpolation = Interpolation::Linear;
    let mut params = default_params(4500);
    params.grain_duration = 100;
    let out = voice.process_grain(&source, &env, &params);
    assert_eq!(out.len(), 4410);
    for i in 0..4410 {
        assert_eq!(out[i], source[i]);
    }
}
