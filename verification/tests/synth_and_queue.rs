use granular_synth::{
    drain_incoming, generate_envelope, mix_block, retire_finished, resample_to_master,
    ActiveGrain, GranularSynth, Interpolation, WavAudio, OVERLAP_MIN, PITCH_MIN,
};

const ONE: i32 = 32768;

#[test]
fn round_robin_counter_wraps_modulo_four() {
    let mut synth = GranularSynth::new();
    assert_eq!(synth.counter, 0);
    for _ in 0..5 {
        synth.increment_counter();
    }
    assert_eq!(synth.counter, 1);
    for _ in 0..3 {
        synth.increment_counter();
    }
    assert_eq!(synth.counter, 0);
}

#[test]
fn fresh_synth_has_four_unity_sinc_voices() {
    let synth = GranularSynth::new();
    assert_eq!(synth.grain_voices.len(), 4);
    for voice in &synth.grain_voices {
        assert_eq!(voice.mystart, 0);
        assert_eq!(voice.mypitch, ONE);
        assert_eq!(voice.mydur, ONE);
        assert_eq!(voice.interpolation, Interpolation::Sinc);
    }
    assert_eq!(synth.counter, 0);
    assert_eq!(synth.get_source_array().len(), 0);
    assert_eq!(synth.get_grain_envelope().len(), 0);
}

#[test]
fn load_size_bound_applies_only_when_converting() {
    let mut synth = GranularSynth::new();
    // At matching rates the load takes any source within the length cap.
    let same = WavAudio { channels: 1, sample_rate: 1, samples: vec![3i16; 1000] };
    assert_eq!(synth.load_audio_from_file(Some(same), 1), 0);
    assert_eq!(synth.params.specs.filesize, 1000);
    // A conversion that would blow the cap is refused and changes nothing.
    let blowup = WavAudio { channels: 1, sample_rate: 1, samples: vec![3i16; 1000] };
    assert_eq!(synth.load_audio_from_file(Some(blowup), 384000), -1);
    assert_eq!(synth.params.specs.filesize, 1000);
    assert_eq!(synth.params.specs.sample_rate, 1);
}

#[test]
fn metro_time_is_duration_over_overlap() {
    let mut synth = GranularSynth::new();
    synth.set_params(0, 4410, ONE + ONE / 2, ONE);
    assert_eq!(synth.calculate_metro_time_in_ms(), 2940);
    // The fresh synthesizer fires every 50 ms: 100 ms grains at overlap two.
    let fresh = GranularSynth::new();
    assert_eq!(fresh.calculate_metro_time_in_ms(), 50);
}

#[test]
fn set_params_clamps_every_coordinate() {
    let mut synth = GranularSynth::new();
    synth.set_params(999_999 * ONE as i64, 0, 0, 0);
    assert_eq!(synth.params.grain_overlap, OVERLAP_MIN);
    assert_eq!(synth.params.grain_pitch, PITCH_MIN);
    assert_eq!(synth.params.grain_duration, 0);
    // The start is clamped to one, then scaled by the (empty) source.
    assert_eq!(synth.params.grain_start, 0);
}

#[test]
fn grain_start_scales_by_the_loaded_source_length() {
    let mut synth = GranularSynth::new();
    let wav = WavAudio { channels: 1, sample_rate: 44100, samples: vec![0i16; 100] };
    assert_eq!(synth.load_audio_from_file(Some(wav), 44100), 0);
    assert_eq!(synth.params.specs.filesize, 100);
    synth.set_grain_start(2 * ONE as i64);
    assert_eq!(synth.params.grain_start, 100 * ONE as i64);
    synth.set_grain_start(ONE as i64 / 2);
    assert_eq!(synth.params.grain_start, 50 * ONE as i64);
}

#[test]
fn individual_setters_clamp_and_store() {
    let mut synth = GranularSynth::new();
    synth.set_grain_duration(250);
    assert_eq!(synth.params.grain_duration, 250);
    synth.set_grain_pitch(-5);
    assert_eq!(synth.params.grain_pitch, PITCH_MIN);
    synth.set_grain_pitch(3 * ONE);
    assert_eq!(synth.params.grain_pitch, 2 * ONE);
    synth.set_overlap(0);
    assert_eq!(synth.params.grain_overlap, OVERLAP_MIN);
    synth.set_overlap(5 * ONE);
    assert_eq!(synth.params.grain_overlap, 2 * ONE);
}

#[test]
fn failed_load_returns_minus_one_and_keeps_the_source() {
    let mut synth = GranularSynth::new();
    let wav = WavAudio { channels: 1, sample_rate: 44100, samples: vec![7i16; 10] };
    assert_eq!(synth.load_audio_from_file(Some(wav), 44100), 0);
    let before = synth.get_source_array();
    assert_eq!(before.len(), 10);

    assert_eq!(synth.load_audio_from_file(None, 44100), -1);
    assert_eq!(synth.get_source_array(), before);

    let zero_channels = WavAudio { channels: 0, sample_rate: 44100, samples: vec![1i16; 4] };
    assert_eq!(synth.load_audio_from_file(Some(zero_channels), 44100), -1);
    assert_eq!(synth.get_source_array(), before);

    let bad_rate = WavAudio { channels: 1, sample_rate: 0, samples: vec![1i16; 4] };
    assert_eq!(synth.load_audio_from_file(Some(bad_rate), 44100), -1);
    let fast_rate = WavAudio { channels: 1, sample_rate: 500_000, samples: vec![1i16; 4] };
    assert_eq!(synth.load_audio_from_file(Some(fast_rate), 44100), -1);
    let bad_master = WavAudio { channels: 1, sample_rate: 44100, samples: vec![1i16; 4] };
    assert_eq!(synth.load_audio_from_file(Some(bad_master), 0), -1);
    assert_eq!(synth.get_source_array(), before);
    assert_eq!(synth.params.specs.filesize, 10);
}

#[test]
fn load_widens_pcm_to_q15_and_keeps_matching_rates() {
    let mut synth = GranularSynth::new();
    let wav = WavAudio {
        channels: 2,
        sample_rate: 44100,
        samples: vec![0i16, 16384, -16384, 32767],
    };
    assert_eq!(synth.load_audio_from_file(Some(wav), 44100), 0);
    assert_eq!(synth.get_source_array(), vec![0, 16384, -16384, 32767]);
    assert_eq!(synth.params.specs.sample_rate, 44100);
    assert_eq!(synth.params.specs.channels, 2);
    assert_eq!(synth.params.specs.filesize, 4);
}

#[test]
fn resampling_to_the_same_rate_is_the_identity() {
    let buf: Vec<i32> = vec![5, -6, 7, -8, 9];
    assert_eq!(resample_to_master(&buf, 1, 44100, 44100), buf);
    assert_eq!(resample_to_master(&buf, 5, 192000, 192000), buf);
}

#[test]
fn downsampling_halves_a_mono_buffer() {
    let buf: Vec<i32> = vec![0, 10, 20, 30];
    assert_eq!(resample_to_master(&buf, 1, 2, 1), vec![0, 20]);
}

#[test]
fn upsampling_interleaves_both_channels_in_order() {
    let buf: Vec<i32> = vec![1, 2, 3, 4];
    let out = resample_to_master(&buf, 2, 1, 2);
    assert_eq!(out, vec![1, 2, 2, 3, 3, 4, 2, 2]);
}

#[test]
fn random_voice_parameters_stay_on_their_grids() {
    for _ in 0..200 {
        let (start, pitch) = GranularSynth::generate_random_parameters();
        assert!(start >= 0 && start < 10000 * ONE as i64);
        assert_eq!(start % ONE as i64, 0);
        assert!(pitch >= ONE && pitch <= ONE + 655);
    }
}

#[test]
fn routed_grains_travel_through_the_queue() {
    let mut synth = GranularSynth::new();
    let wav = WavAudio { channels: 1, sample_rate: 44100, samples: vec![1000i16; 1000] };
    assert_eq!(synth.load_audio_from_file(Some(wav), 44100), 0);
    synth.generate_grain_envelope(16);

    let source = synth.get_source_array();
    let env = synth.get_grain_envelope();
    synth.route_to_grainvoice(&source, &env);
    synth.route_to_grainvoice(&source, &env);

    let mut active: Vec<ActiveGrain> = Vec::new();
    drain_incoming(&synth.grain_receiver, &mut active);
    assert_eq!(active.len(), 2);
    // Default parameters: 100 ms at 44100 Hz.
    assert_eq!(active[0].samples.len(), 4410);
    assert_eq!(active[1].samples.len(), 4410);
    // The queue is now empty.
    drain_incoming(&synth.grain_receiver, &mut active);
    assert_eq!(active.len(), 2);
}

#[test]
fn mixer_sums_grains_and_broadcasts_to_channels() {
    let mut active = vec![
        ActiveGrain::new(vec![100, 200]),
        ActiveGrain::new(vec![10]),
    ];
    let out = mix_block(&mut active, 3, 2);
    assert_eq!(out, vec![110, 110, 200, 200, 0, 0]);
    assert_eq!(active[0].position, 2);
    assert_eq!(active[1].position, 1);
    retire_finished(&mut active);
    assert_eq!(active.len(), 0);
}

#[test]
fn mixer_retires_only_finished_grains() {
    let mut active = vec![
        ActiveGrain::new(vec![1, 2, 3]),
        ActiveGrain::new(vec![4]),
        ActiveGrain::new(vec![5, 6]),
    ];
    let out = mix_block(&mut active, 2, 1);
    assert_eq!(out, vec![10, 8]);
    retire_finished(&mut active);
    assert_eq!(active.len(), 1);
    assert_eq!(active[0].samples, vec![1, 2, 3]);
    assert_eq!(active[0].position, 2);
}

#[test]
fn next_sample_walks_the_grain_once() {
    let mut g = ActiveGrain::new(vec![5, 6]);
    assert!(!g.is_finished());
    assert_eq!(g.next_sample(), 5);
    assert_eq!(g.next_sample(), 6);
    assert!(g.is_finished());
    assert_eq!(g.next_sample(), 0);
    assert_eq!(g.next_sample(), 0);
}

#[test]
fn queued_grains_keep_their_send_order() {
    let mut synth = GranularSynth::new();
    let wav = WavAudio { channels: 1, sample_rate: 44100, samples: vec![0i16; 512] };
    assert_eq!(synth.load_audio_from_file(Some(wav), 44100), 0);
    synth.generate_grain_envelope(16);
    let source = synth.get_source_array();
    let env = synth.get_grain_envelope();

    synth.set_grain_duration(100);
    synth.route_to_grainvoice(&source, &env);
    synth.set_grain_duration(50);
    synth.route_to_grainvoice(&source, &env);

    let mut active: Vec<ActiveGrain> = Vec::new();
    drain_incoming(&synth.grain_receiver, &mut active);
    assert_eq!(active.len(), 2);
    assert_eq!(active[0].samples.len(), 4410);
    assert_eq!(active[1].samples.len(), 2205);
}
