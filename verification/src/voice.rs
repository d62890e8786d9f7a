//! The grain voice: a per-slot parameter bundle that synthesizes one
//! windowed, pitch-shifted, interpolated fragment of the source.

use vstd::prelude::*;

verus! {

use vstd::math::abs;
use crate::fixed::{div_t, sat32, div_trunc, saturate_i32, lemma_mul_bounds};
use crate::interp::{
    Interpolation, interp_at, interpolate, lemma_interpolate_empty, MAX_INDEX_Q15,
};
use crate::envelope::MAX_ENVELOPE_LEN;
use crate::params::{GrainParams, MAX_SOURCE_LEN};

/// Widest voice start offset (in Q15 samples) a voice accepts.
pub const MAX_VOICE_START: i64 = 0x2_0000_0000_0000;

/// Widest voice pitch and duration ratio (four, in Q15).
pub const MAX_VOICE_RATIO: i32 = 131072;

/// One voice of the pool: a start offset and pitch and duration ratios,
/// all in Q15, plus the kernel it reads with.
pub struct GrainVoice {
    pub mystart: i64,
    pub mypitch: i32,
    pub mydur: i32,
    pub interpolation: Interpolation,
}

/// The number of samples a grain of the given duration ratio, nominal
/// duration and sample rate spans: `mydur * ms / 1000 * rate` in Q15,
/// rounded to the nearest whole sample.
pub open spec fn grain_len(mydur: int, duration_ms: int, sample_rate: int) -> int {
    (mydur * duration_ms * sample_rate + 16384000) / 32768000
}

/// At the unit duration ratio the grain spans exactly
/// `round(duration_ms / 1000 * sample_rate)` samples.
pub proof fn lemma_unit_grain_len(duration_ms: int, sample_rate: int)
    requires
        0 <= duration_ms,
        0 <= sample_rate,
    ensures
        grain_len(32768, duration_ms, sample_rate) == (duration_ms * sample_rate + 500) / 1000,
{
    let a = duration_ms * sample_rate + 500;
    assert(32768 * duration_ms * sample_rate + 16384000 == 32768 * a) by (nonlinear_arith)
        requires
            a == duration_ms * sample_rate + 500,
    ;
    vstd::arithmetic::div_mod::lemma_div_denominator(32768 * a, 32768, 1000);
    vstd::arithmetic::div_mod::lemma_div_multiples_vanish(a, 32768);
    assert(grain_len(32768, duration_ms, sample_rate) == (32768 * a) / 32768000);
}

/// The `i`-th output sample of a grain: the source read at
/// `base + i * rate`, scaled by the envelope read at the grain's
/// progress through the window, in Q15.
pub open spec fn grain_sample(
    kind: Interpolation,
    src: Seq<i32>,
    env: Seq<i32>,
    base: int,
    rate: int,
    n: int,
    i: int,
) -> int {
    let ev = if env.len() == 0 {
        0
    } else {
        interp_at(kind, env, (i * (env.len() - 1) * 32768) / n)
    };
    let sv = interp_at(kind, src, base + i * rate);
    sat32(div_t(sv * ev, 32768))
}

/// A grain cut from an empty source is silent, whatever the kernel.
pub proof fn lemma_grain_sample_empty_source(
    kind: Interpolation,
    env: Seq<i32>,
    base: int,
    rate: int,
    n: int,
    i: int,
)
    ensures
        grain_sample(kind, Seq::<i32>::empty(), env, base, rate, n, i) == 0,
{
    lemma_interpolate_empty(kind, Seq::<i32>::empty(), base + i * rate);
    let ev = if env.len() == 0 {
        0
    } else {
        interp_at(kind, env, (i * (env.len() - 1) * 32768) / n)
    };
    assert(0 * ev == 0);
    assert(div_t(0, 32768) == 0);
}

impl GrainVoice {
    /// The machine bounds every pooled voice satisfies.
    pub open spec fn wf(&self) -> bool {
        &&& 0 <= self.mystart <= MAX_VOICE_START
        &&& 0 <= self.mypitch <= MAX_VOICE_RATIO
        &&& 0 <= self.mydur <= MAX_VOICE_RATIO
    }

    /// A fresh voice reading with the sinc kernel.
    pub fn new(mystart: i64, mypitch: i32, mydur: i32) -> (v: GrainVoice)
        requires
            0 <= mystart <= MAX_VOICE_START,
            0 <= mypitch <= MAX_VOICE_RATIO,
            0 <= mydur <= MAX_VOICE_RATIO,
        ensures
            v.wf(),
            v.mystart == mystart,
            v.mypitch == mypitch,
            v.mydur == mydur,
            v.interpolation == Interpolation::Sinc,
    {
        GrainVoice { mystart, mypitch, mydur, interpolation: Interpolation::Sinc }
    }

    /// Synthesize one grain: `grain_len` samples of the source, read at
    /// the voice's rate from its start offset, under the envelope.
    pub fn process_grain(
        &self,
        source_array: &Vec<i32>,
        grain_env: &Vec<i32>,
        grain_params: &GrainParams,
    ) -> (out: Vec<i32>)
        requires
            self.wf(),
            grain_params.wf(),
            source_array@.len() <= MAX_SOURCE_LEN,
            grain_env@.len() <= MAX_ENVELOPE_LEN,
        ensures
            out@.len() == grain_len(
                self.mydur as int,
                grain_params.grain_duration as int,
                grain_params.specs.sample_rate as int,
            ),
            forall|i: int|
                0 <= i < out@.len() ==> out@[i] == grain_sample(
                    self.interpolation,
                    source_array@,
                    grain_env@,
                    grain_params.grain_start + self.mystart,
                    div_t(self.mypitch * grain_params.grain_pitch, 32768),
                    out@.len() as int,
                    i,
                ),
            source_array@.len() == 0 ==> forall|i: int| 0 <= i < out@.len() ==> out@[i] == 0,
    {
        let sample_rate = grain_params.specs.sample_rate;
        proof {
            lemma_mul_bounds(self.mydur as int, grain_params.grain_duration as int, 131072, 600000);
        }
        let dur_ms: u64 = (self.mydur as u64) * (grain_params.grain_duration as u64);
        proof {
            lemma_mul_bounds(dur_ms as int, sample_rate as int, 78643200000, 384000);
            vstd::arithmetic::div_mod::lemma_div_is_ordered(
                dur_ms * sample_rate + 16384000,
                78643200000int * 384000 + 16384000,
                32768000,
            );
            vstd::arithmetic::div_mod::lemma_div_pos_is_pos(
                dur_ms * sample_rate + 16384000,
                32768000,
            );
            assert((78643200000 * 384000 + 16384000int) / 32768000 < 0x4000_0000);
        }
        let num: u64 = dur_ms * (sample_rate as u64);
        let duration_in_samples: usize = ((num + 16384000) / 32768000) as usize;

        let base_source_start: i64 = grain_params.grain_start + self.mystart;
        proof {
            lemma_mul_bounds(self.mypitch as int, grain_params.grain_pitch as int, 131072, 65536);
            vstd::arithmetic::div_mod::lemma_div_pos_is_pos(
                self.mypitch * grain_params.grain_pitch,
                32768,
            );
            vstd::arithmetic::div_mod::lemma_div_is_ordered(
                self.mypitch * grain_params.grain_pitch,
                131072int * 65536,
                32768,
            );
            assert((131072 * 65536int) / 32768 == 262144);
        }
        let playback_rate: i64 = ((self.mypitch as i64) * (grain_params.grain_pitch as i64))
            / 32768;

        let mut output: Vec<i32> = Vec::new();
        let mut i: usize = 0;
        while i < duration_in_samples
            invariant
                i <= duration_in_samples,
                duration_in_samples <= 0x4000_0000,
                output@.len() == i,
                0 <= base_source_start <= 0x3_0000_0000_0000,
                0 <= playback_rate <= 262144,
                grain_env@.len() <= MAX_ENVELOPE_LEN,
                source_array@.len() <= MAX_SOURCE_LEN,
                forall|k: int|
                    0 <= k < i ==> output@[k] == grain_sample(
                        self.interpolation,
                        source_array@,
                        grain_env@,
                        base_source_start as int,
                        playback_rate as int,
                        duration_in_samples as int,
                        k,
                    ),
            decreases duration_in_samples - i,
        {
            let envelope_value: i32 = if grain_env.len() == 0 {
                0
            } else {
                let il: i64 = i as i64;
                let el: i64 = grain_env.len() as i64;
                proof {
                    lemma_mul_bounds(il as int, (el - 1) as int, 0x4000_0000, 0x1_0000);
                    assert(il * (el - 1) >= 0) by (nonlinear_arith)
                        requires
                            il >= 0,
                            el >= 1,
                    ;
                }
                let prod: i64 = il * (el - 1);
                proof {
                    let d = duration_in_samples as int;
                    vstd::arithmetic::div_mod::lemma_div_pos_is_pos(prod * 32768, d);
                    assert(prod * 32768 <= d * ((el - 1) * 32768)) by (nonlinear_arith)
                        requires
                            prod == il * (el - 1),
                            0 <= il < d,
                            el >= 1,
                    ;
                    vstd::arithmetic::div_mod::lemma_div_is_ordered(
                        prod * 32768,
                        d * ((el - 1) * 32768),
                        d,
                    );
                    vstd::arithmetic::div_mod::lemma_div_multiples_vanish((el - 1) * 32768, d);
                }
                let env_index: i64 = (prod * 32768) / (duration_in_samples as i64);
                interpolate(self.interpolation, grain_env, env_index)
            };
            proof {
                lemma_mul_bounds(i as int, playback_rate as int, 0x4000_0000, 262144);
            }
            let source_index: i64 = base_source_start + (i as i64) * playback_rate;
            let source_value: i32 = interpolate(self.interpolation, source_array, source_index);
            proof {
                lemma_mul_bounds(source_value as int, envelope_value as int, 0x8000_0000, 0x8000_0000);
            }
            let mixed = saturate_i32(div_trunc((source_value as i64) * (envelope_value as i64), 32768));
            output.push(mixed);
            i = i + 1;
        }
        proof {
            if source_array@.len() == 0 {
                assert(source_array@ =~= Seq::<i32>::empty());
                assert forall|k: int| 0 <= k < output@.len() implies output@[k] == 0 by {
                    lemma_grain_sample_empty_source(
                        self.interpolation,
                        grain_env@,
                        base_source_start as int,
                        playback_rate as int,
                        duration_in_samples as int,
                        k,
                    );
                }
            }
        }
        output
    }
}

} // verus!
