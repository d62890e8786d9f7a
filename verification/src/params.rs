//! Shared parameter block of the synthesizer: the description of the
//! loaded source and the grain parameters the voices read.

use vstd::prelude::*;

verus! {

/// Fastest master sample rate the engine accepts.
pub const MAX_SAMPLE_RATE: u32 = 384000;

/// Longest source (in interleaved samples) the engine holds.
pub const MAX_SOURCE_LEN: usize = 0x400_0000;

/// Longest nominal grain duration, in milliseconds.
pub const MAX_GRAIN_DURATION_MS: usize = 600000;

/// Lower clamp of the grain overlap (one, in Q15).
pub const OVERLAP_MIN: i32 = 32768;

/// Upper clamp of the grain overlap (two, in Q15).
pub const OVERLAP_MAX: i32 = 65536;

/// Lower clamp of the pitch ratio (one tenth, in Q15, rounded up).
pub const PITCH_MIN: i32 = 3277;

/// Upper clamp of the pitch ratio (two, in Q15).
pub const PITCH_MAX: i32 = 65536;

/// Description of the currently loaded source material.
pub struct Specs {
    pub sample_rate: u32,
    pub channels: u16,
    pub filesize: usize,
}

impl Specs {
    /// The machine bounds every loaded source satisfies.
    pub open spec fn wf(&self) -> bool {
        &&& 1 <= self.sample_rate <= MAX_SAMPLE_RATE
        &&& self.filesize <= MAX_SOURCE_LEN
    }
}

/// The grain parameters: a Q15 start index into the source, a nominal
/// duration in milliseconds, and clamped Q15 overlap and pitch ratios.
pub struct GrainParams {
    pub grain_start: i64,
    pub grain_duration: usize,
    pub grain_overlap: i32,
    pub grain_pitch: i32,
    pub specs: Specs,
}

impl GrainParams {
    /// Every stored parameter block keeps its clamps and machine bounds.
    pub open spec fn wf(&self) -> bool {
        &&& self.specs.wf()
        &&& OVERLAP_MIN <= self.grain_overlap <= OVERLAP_MAX
        &&& PITCH_MIN <= self.grain_pitch <= PITCH_MAX
        &&& 0 <= self.grain_start <= 32768 * MAX_SOURCE_LEN
        &&& self.grain_duration <= MAX_GRAIN_DURATION_MS
    }
}

/// The clamp of `v` into `[lo, hi]`.
pub open spec fn spec_clamp(v: int, lo: int, hi: int) -> int {
    if v < lo {
        lo
    } else if v > hi {
        hi
    } else {
        v
    }
}

/// Clamp a Q15 ratio into `[lo, hi]`.
pub fn clamp_i32(v: i32, lo: i32, hi: i32) -> (r: i32)
    requires
        lo <= hi,
    ensures
        r == spec_clamp(v as int, lo as int, hi as int),
        lo <= r <= hi,
{
    if v < lo {
        lo
    } else if v > hi {
        hi
    } else {
        v
    }
}

/// Clamp a Q15 index into `[lo, hi]`.
pub fn clamp_i64(v: i64, lo: i64, hi: i64) -> (r: i64)
    requires
        lo <= hi,
    ensures
        r == spec_clamp(v as int, lo as int, hi as int),
        lo <= r <= hi,
{
    if v < lo {
        lo
    } else if v > hi {
        hi
    } else {
        v
    }
}

} // verus!
