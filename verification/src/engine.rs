//! The decision core of the audio engine: user recording settings with
//! their fallbacks, the recording state rules, and the exact conversion
//! of Q15 samples to the integer widths a file writer takes.
//!
//! The device stream, the file writer and the callback plumbing live
//! with the caller; everything they decide by is stated here.

use vstd::prelude::*;

verus! {

use crate::fixed::{div_t, sat32};

/// Extra parameters a particular file format needs.
pub enum FormatSpecificSettings {
    WavSettings {},
    Mp3Settings { bitrate: u32 },
    FlacSettings { compression: u8 },
}

/// The user's recording preferences; a missing value falls back to the
/// output device's default.
pub struct UserRecordingSettings {
    pub sample_rate: Option<u32>,
    pub channels: Option<u16>,
    pub bit_depth: Option<u16>,
    pub format: Option<String>,
    pub format_specific: Option<FormatSpecificSettings>,
}

impl Default for UserRecordingSettings {
    /// No preferences: every value falls back to the device's default.
    fn default() -> (s: UserRecordingSettings)
        ensures
            s.sample_rate.is_none(),
            s.channels.is_none(),
            s.bit_depth.is_none(),
            s.format.is_none(),
            s.format_specific.is_none(),
    {
        UserRecordingSettings {
            sample_rate: Option::None,
            channels: Option::None,
            bit_depth: Option::None,
            format: Option::None,
            format_specific: Option::None,
        }
    }
}

impl UserRecordingSettings {
    /// Store the preferred stream and recording sample rate.
    pub fn set_sample_rate(&mut self, sample_rate: u32)
        ensures
            final(self).sample_rate == Some(sample_rate),
            final(self).channels == old(self).channels,
            final(self).bit_depth == old(self).bit_depth,
            final(self).format == old(self).format,
            final(self).format_specific == old(self).format_specific,
    {
        self.sample_rate = Option::Some(sample_rate);
    }

    /// Store the preferred recording bit depth.
    pub fn set_bit_depth(&mut self, bit_depth: u16)
        ensures
            final(self).bit_depth == Some(bit_depth),
            final(self).sample_rate == old(self).sample_rate,
            final(self).channels == old(self).channels,
            final(self).format == old(self).format,
            final(self).format_specific == old(self).format_specific,
    {
        self.bit_depth = Option::Some(bit_depth);
    }

    /// Store the preferred recording file format name.
    pub fn set_file_format(&mut self, fmt: String)
        ensures
            final(self).format == Some(fmt),
            final(self).sample_rate == old(self).sample_rate,
            final(self).channels == old(self).channels,
            final(self).bit_depth == old(self).bit_depth,
            final(self).format_specific == old(self).format_specific,
    {
        self.format = Option::Some(fmt);
    }

    /// Store a bit rate, making the format-specific block carry it;
    /// whatever block stood there before is replaced.
    pub fn set_bit_rate(&mut self, bitrate: u32)
        ensures
            final(self).format_specific == Some(
                FormatSpecificSettings::Mp3Settings { bitrate },
            ),
            final(self).sample_rate == old(self).sample_rate,
            final(self).channels == old(self).channels,
            final(self).bit_depth == old(self).bit_depth,
            final(self).format == old(self).format,
    {
        self.format_specific = Option::Some(FormatSpecificSettings::Mp3Settings { bitrate });
    }

    /// Store a compression level, making the format-specific block
    /// carry it; whatever block stood there before is replaced.
    pub fn set_flac_compression(&mut self, level: u8)
        ensures
            final(self).format_specific == Some(
                FormatSpecificSettings::FlacSettings { compression: level },
            ),
            final(self).sample_rate == old(self).sample_rate,
            final(self).channels == old(self).channels,
            final(self).bit_depth == old(self).bit_depth,
            final(self).format == old(self).format,
    {
        self.format_specific = Option::Some(
            FormatSpecificSettings::FlacSettings { compression: level },
        );
    }
}

/// The stream's master sample rate: the user's choice, else the
/// device's default, else 44100.
pub fn master_sample_rate(user: Option<u32>, device_default: Option<u32>) -> (rate: u32)
    ensures
        user.is_some() ==> rate == user.unwrap(),
        user.is_none() && device_default.is_some() ==> rate == device_default.unwrap(),
        user.is_none() && device_default.is_none() ==> rate == 44100,
{
    match user {
        Option::Some(r) => r,
        Option::None => match device_default {
            Option::Some(r) => r,
            Option::None => 44100,
        },
    }
}

/// Why a recording could not be started.
#[derive(Clone, Copy, Debug, PartialEq, Eq, Structural)]
pub enum RecordError {
    AlreadyRecording,
    Mp3NotImplemented,
    FlacNotImplemented,
    UnsupportedFormat,
}

/// What a recording will be written as: the resolved stream description
/// of a PCM WAV file.
#[derive(Clone, Copy, Debug, PartialEq, Eq, Structural)]
pub struct WavPlan {
    pub channels: u16,
    pub sample_rate: u32,
    pub bits_per_sample: u16,
}

/// Decide whether a recording may start and what it will be written
/// as. Recording twice is refused; of the file formats only WAV is
/// carried out, and a missing format choice means WAV. The plan's
/// fields take the user's values, else the device's, else 2 channels at
/// 48000 with 16 bits.
pub fn record_decision(
    settings: &UserRecordingSettings,
    device_rate: Option<u32>,
    device_channels: Option<u16>,
    is_recording: bool,
    writer_exists: bool,
) -> (r: Result<WavPlan, RecordError>)
    ensures
        (is_recording || writer_exists) ==> r == Result::<WavPlan, RecordError>::Err(
            RecordError::AlreadyRecording,
        ),
        !(is_recording || writer_exists) ==> match settings.format {
            Option::None => r matches Result::Ok(_),
            Option::Some(f) => {
                &&& f@ == "wav"@ ==> (r matches Result::Ok(_))
                &&& f@ == "mp3"@ ==> r == Result::<WavPlan, RecordError>::Err(
                    RecordError::Mp3NotImplemented,
                )
                &&& f@ == "flac"@ ==> r == Result::<WavPlan, RecordError>::Err(
                    RecordError::FlacNotImplemented,
                )
                &&& f@ != "wav"@ && f@ != "mp3"@ && f@ != "flac"@ ==> r
                    == Result::<WavPlan, RecordError>::Err(RecordError::UnsupportedFormat)
            },
        },
        r matches Result::Ok(plan) ==> {
            &&& plan.sample_rate == if settings.sample_rate.is_some() {
                settings.sample_rate.unwrap()
            } else if device_rate.is_some() {
                device_rate.unwrap()
            } else {
                48000u32
            }
            &&& plan.channels == if settings.channels.is_some() {
                settings.channels.unwrap()
            } else if device_channels.is_some() {
                device_channels.unwrap()
            } else {
                2u16
            }
            &&& plan.bits_per_sample == if settings.bit_depth.is_some() {
                settings.bit_depth.unwrap()
            } else {
                16u16
            }
        },
{
    if is_recording || writer_exists {
        return Result::Err(RecordError::AlreadyRecording);
    }
    proof {
        reveal_strlit("wav");
        reveal_strlit("mp3");
        reveal_strlit("flac");
    }
    match &settings.format {
        Option::None => Result::Ok(resolve_wav_plan(settings, device_rate, device_channels)),
        Option::Some(f) => {
            let wav: String = "wav".to_owned();
            if f.eq(&wav) {
                proof {
                    assert(f@ != "mp3"@) by {
                        assert(f@[0] == 'w' && "mp3"@[0] == 'm');
                    }
                    assert(f@ != "flac"@) by {
                        assert(f@.len() == 3 && "flac"@.len() == 4);
                    }
                }
                Result::Ok(resolve_wav_plan(settings, device_rate, device_channels))
            } else {
                let mp3: String = "mp3".to_owned();
                let flac: String = "flac".to_owned();
                if f.eq(&mp3) {
                    proof {
                        assert(f@ != "flac"@) by {
                            assert(f@.len() == 3 && "flac"@.len() == 4);
                        }
                    }
                    Result::Err(RecordError::Mp3NotImplemented)
                } else if f.eq(&flac) {
                    Result::Err(RecordError::FlacNotImplemented)
                } else {
                    Result::Err(RecordError::UnsupportedFormat)
                }
            }
        },
    }
}

/// The stream description a WAV recording resolves to: the user's
/// values, else the device's, else 2 channels at 48000 with 16 bits.
fn resolve_wav_plan(
    settings: &UserRecordingSettings,
    device_rate: Option<u32>,
    device_channels: Option<u16>,
) -> (plan: WavPlan)
    ensures
        plan.sample_rate == if settings.sample_rate.is_some() {
            settings.sample_rate.unwrap()
        } else if device_rate.is_some() {
            device_rate.unwrap()
        } else {
            48000u32
        },
        plan.channels == if settings.channels.is_some() {
            settings.channels.unwrap()
        } else if device_channels.is_some() {
            device_channels.unwrap()
        } else {
            2u16
        },
        plan.bits_per_sample == if settings.bit_depth.is_some() {
            settings.bit_depth.unwrap()
        } else {
            16u16
        },
{
    let final_sample_rate: u32 = match settings.sample_rate {
        Option::Some(r) => r,
        Option::None => match device_rate {
            Option::Some(r) => r,
            Option::None => 48000,
        },
    };
    let final_channels: u16 = match settings.channels {
        Option::Some(c) => c,
        Option::None => match device_channels {
            Option::Some(c) => c,
            Option::None => 2,
        },
    };
    let final_bit_depth: u16 = match settings.bit_depth {
        Option::Some(b) => b,
        Option::None => 16,
    };
    WavPlan {
        channels: final_channels,
        sample_rate: final_sample_rate,
        bits_per_sample: final_bit_depth,
    }
}

/// Whether a recording bit depth is one the writer can take.
pub fn bit_depth_supported(bit_depth: u16) -> (b: bool)
    ensures
        b == (bit_depth == 16 || bit_depth == 24 || bit_depth == 32),
{
    bit_depth == 16 || bit_depth == 24 || bit_depth == 32
}

/// The 16-bit image of a Q15 sample: scaled by the 16-bit full-scale
/// value, truncated toward zero, saturated into the 16-bit range.
pub open spec fn to_i16(s: int) -> int {
    let v = div_t(s * 32767, 32768);
    if v > i16::MAX {
        i16::MAX as int
    } else if v < i16::MIN {
        i16::MIN as int
    } else {
        v
    }
}

/// The 32-bit image of a Q15 sample, as written for 24- and 32-bit
/// recordings: scaled by the 32-bit full-scale value, truncated toward
/// zero, saturated.
pub open spec fn to_i32_full_scale(s: int) -> int {
    sat32(div_t(s * 0x7FFF_FFFF, 32768))
}

/// Convert one Q15 sample for a 16-bit recording.
pub fn sample_to_i16(s: i32) -> (r: i16)
    ensures
        r as int == to_i16(s as int),
{
    let wide: i64 = ((s as i64) * 32767) / 32768;
    proof {
        crate::fixed::lemma_mul_bounds(s as int, 32767, 0x8000_0000, 32767);
    }
    if wide > i16::MAX as i64 {
        i16::MAX
    } else if wide < i16::MIN as i64 {
        i16::MIN
    } else {
        wide as i16
    }
}

/// Convert one Q15 sample for a 24- or 32-bit recording.
pub fn sample_to_i32_full_scale(s: i32) -> (r: i32)
    ensures
        r as int == to_i32_full_scale(s as int),
{
    proof {
        crate::fixed::lemma_mul_bounds(s as int, 0x7FFF_FFFF, 0x8000_0000, 0x7FFF_FFFF);
    }
    let wide: i64 = ((s as i64) * 0x7FFF_FFFF) / 32768;
    crate::fixed::saturate_i32(wide)
}

/// Convert a mixed block for a 16-bit recording, sample by sample.
pub fn convert_block_i16(data: &Vec<i32>) -> (out: Vec<i16>)
    ensures
        out@.len() == data@.len(),
        forall|k: int| 0 <= k < data@.len() ==> out@[k] as int == to_i16(data@[k] as int),
{
    let mut out: Vec<i16> = Vec::new();
    let mut i: usize = 0;
    let n = data.len();
    while i < n
        invariant
            i <= n,
            n == data@.len(),
            out@.len() == i,
            forall|k: int| 0 <= k < i ==> out@[k] as int == to_i16(data@[k] as int),
        decreases n - i,
    {
        out.push(sample_to_i16(data[i]));
        i = i + 1;
    }
    out
}

/// Convert a mixed block for a 24- or 32-bit recording, sample by
/// sample.
pub fn convert_block_i32(data: &Vec<i32>) -> (out: Vec<i32>)
    ensures
        out@.len() == data@.len(),
        forall|k: int|
            0 <= k < data@.len() ==> out@[k] as int == to_i32_full_scale(data@[k] as int),
{
    let mut out: Vec<i32> = Vec::new();
    let mut i: usize = 0;
    let n = data.len();
    while i < n
        invariant
            i <= n,
            n == data@.len(),
            out@.len() == i,
            forall|k: int| 0 <= k < i ==> out@[k] as int == to_i32_full_scale(data@[k] as int),
        decreases n - i,
    {
        out.push(sample_to_i32_full_scale(data[i]));
        i = i + 1;
    }
    out
}

} // verus!
