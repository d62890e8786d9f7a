use granular_synth::{
    bit_depth_supported, convert_block_i16, convert_block_i32, master_sample_rate,
    record_decision, sample_to_i16, sample_to_i32_full_scale, FormatSpecificSettings,
    RecordError, UserRecordingSettings,
};

fn settings_with_format(fmt: &str) -> UserRecordingSettings {
    let mut s = UserRecordingSettings::default();
    s.set_file_format(fmt.to_string());
    s
}

#[test]
fn default_settings_leave_everything_to_the_device() {
    let s = UserRecordingSettings::default();
    assert!(s.sample_rate.is_none());
    assert!(s.channels.is_none());
    assert!(s.bit_depth.is_none());
    assert!(s.format.is_none());
    assert!(s.format_specific.is_none());
}

#[test]
fn setters_store_their_values() {
    let mut s = UserRecordingSettings::default();
    s.set_sample_rate(96000);
    assert_eq!(s.sample_rate, Some(96000));
    s.set_bit_depth(24);
    assert_eq!(s.bit_depth, Some(24));
    s.set_file_format("wav".to_string());
    assert_eq!(s.format.as_deref(), Some("wav"));
    s.set_bit_rate(320);
    assert!(matches!(
        s.format_specific,
        Some(FormatSpecificSettings::Mp3Settings { bitrate: 320 })
    ));
    s.set_flac_compression(5);
    assert!(matches!(
        s.format_specific,
        Some(FormatSpecificSettings::FlacSettings { compression: 5 })
    ));
}

#[test]
fn master_rate_falls_back_from_user_to_device_to_default() {
    assert_eq!(master_sample_rate(Some(96000), Some(48000)), 96000);
    assert_eq!(master_sample_rate(None, Some(48000)), 48000);
    assert_eq!(master_sample_rate(None, None), 44100);
}

#[test]
fn recording_twice_is_refused() {
    let s = UserRecordingSettings::default();
    assert!(matches!(
        record_decision(&s, None, None, true, false),
        Err(RecordError::AlreadyRecording)
    ));
    assert!(matches!(
        record_decision(&s, None, None, false, true),
        Err(RecordError::AlreadyRecording)
    ));
}

#[test]
fn only_wav_recordings_are_carried_out() {
    let wav = settings_with_format("wav");
    assert!(record_decision(&wav, None, None, false, false).is_ok());
    let none = UserRecordingSettings::default();
    assert!(record_decision(&none, None, None, false, false).is_ok());
    assert!(matches!(
        record_decision(&settings_with_format("mp3"), None, None, false, false),
        Err(RecordError::Mp3NotImplemented)
    ));
    assert!(matches!(
        record_decision(&settings_with_format("flac"), None, None, false, false),
        Err(RecordError::FlacNotImplemented)
    ));
    assert!(matches!(
        record_decision(&settings_with_format("ogg"), None, None, false, false),
        Err(RecordError::UnsupportedFormat)
    ));
}

#[test]
fn the_plan_resolves_user_then_device_then_defaults() {
    let mut s = UserRecordingSettings::default();
    s.set_sample_rate(96000);
    s.set_bit_depth(24);
    let plan = record_decision(&s, Some(44100), Some(6), false, false).unwrap();
    assert_eq!(plan.sample_rate, 96000);
    assert_eq!(plan.channels, 6);
    assert_eq!(plan.bits_per_sample, 24);

    let bare = UserRecordingSettings::default();
    let plan = record_decision(&bare, Some(44100), Some(1), false, false).unwrap();
    assert_eq!(plan.sample_rate, 44100);
    assert_eq!(plan.channels, 1);
    assert_eq!(plan.bits_per_sample, 16);

    let plan = record_decision(&bare, None, None, false, false).unwrap();
    assert_eq!(plan.sample_rate, 48000);
    assert_eq!(plan.channels, 2);
    assert_eq!(plan.bits_per_sample, 16);
}

#[test]
fn supported_bit_depths_are_exactly_the_three_pcm_widths() {
    assert!(bit_depth_supported(16));
    assert!(bit_depth_supported(24));
    assert!(bit_depth_supported(32));
    assert!(!bit_depth_supported(8));
    assert!(!bit_depth_supported(20));
}

#[test]
fn q15_samples_convert_to_pcm_widths_exactly() {
    assert_eq!(sample_to_i16(0), 0);
    assert_eq!(sample_to_i16(32768), 32767);
    assert_eq!(sample_to_i16(-32768), -32767);
    assert_eq!(sample_to_i16(16384), 16383);
    // Values past full scale saturate.
    assert_eq!(sample_to_i16(3 * 32768), 32767);
    assert_eq!(sample_to_i16(-3 * 32768), -32768);

    assert_eq!(sample_to_i32_full_scale(0), 0);
    assert_eq!(sample_to_i32_full_scale(32768), i32::MAX);
    assert_eq!(sample_to_i32_full_scale(-32768), -i32::MAX);

    assert_eq!(convert_block_i16(&vec![0, 32768, -32768]), vec![0, 32767, -32767]);
    assert_eq!(
        convert_block_i32(&vec![0, 32768]),
        vec![0, i32::MAX]
    );
}
