//! A verified granular audio synthesizer core.
//!
//! The engine cuts short, windowed, pitch-shifted grains from a loaded
//! source buffer, schedules them at an overlap-controlled cadence, and
//! mixes the live grains into interleaved output frames.  All signal
//! arithmetic is exact Q15 fixed point ([`fixed::ONE`] is full scale),
//! so every stage carries a contract that pins its result down: the
//! four interpolation kernels, the raised-cosine envelope, the grain
//! voice, the sample-rate converter, the round-robin scheduler state
//! and the active-grain mixer.
//!
//! The host audio stream, the WAV files and the threads live with the
//! caller; the grain handoff queue and the scheduler's random draw are
//! outside code, held behind trusted wrappers whose contracts say only
//! what their sources show.

#![allow(unused_imports)]
use vstd::prelude::*;

pub mod channel;
pub mod engine;
pub mod envelope;
pub mod fixed;
pub mod grain;
pub mod interp;
pub mod params;
pub mod resample;
pub mod rng;
pub mod synth;
pub mod voice;

pub use engine::{
    FormatSpecificSettings, RecordError, UserRecordingSettings, WavPlan, bit_depth_supported,
    convert_block_i16, convert_block_i32, master_sample_rate, record_decision, sample_to_i16,
    sample_to_i32_full_scale,
};
pub use envelope::{generate_envelope, MAX_ENVELOPE_LEN};
pub use grain::{ActiveGrain, drain_incoming, mix_block, retire_finished, DRAIN_BUDGET};
pub use interp::{
    Interpolation, cubic_interpolation, four_point_interpolation, interpolate,
    linear_interpolation, sinc, sinc_interpolation,
};
pub use params::{
    GrainParams, Specs, MAX_GRAIN_DURATION_MS, MAX_SAMPLE_RATE, MAX_SOURCE_LEN, OVERLAP_MAX,
    OVERLAP_MIN, PITCH_MAX, PITCH_MIN,
};
pub use resample::resample_to_master;
pub use synth::{GranularSynth, WavAudio};
pub use voice::GrainVoice;
