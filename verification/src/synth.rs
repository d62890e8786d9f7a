//! The granular synthesizer: the shared source buffer, envelope, voice
//! pool, parameter block, round-robin counter and the sending end of the
//! grain queue.
//!
//! Threading stays with the caller: the scheduler loop drives
//! [`GranularSynth::route_to_grainvoice`] and
//! [`GranularSynth::increment_counter`] at the cadence that
//! [`GranularSynth::calculate_metro_time_in_ms`] fixes.

use vstd::prelude::*;

verus! {

use crate::channel::{channel_unbounded, send_grain};
use crate::envelope::{env_value, generate_envelope, MAX_ENVELOPE_LEN};
use crate::interp::Interpolation;
use crate::params::{
    GrainParams, Specs, clamp_i32, clamp_i64, spec_clamp, MAX_GRAIN_DURATION_MS, MAX_SAMPLE_RATE,
    MAX_SOURCE_LEN, OVERLAP_MAX, OVERLAP_MIN, PITCH_MAX, PITCH_MIN,
};
use crate::resample::{resample_to_master, resampled};
use crate::rng::random_below;
use crate::voice::GrainVoice;

/// Decoded single-file source material: 16-bit PCM samples with their
/// interleaved channel count and sample rate.
pub struct WavAudio {
    pub channels: u16,
    pub sample_rate: u32,
    pub samples: Vec<i16>,
}

/// The counter value after `k` round-robin steps from zero.
pub open spec fn counter_after(k: nat) -> nat
    decreases k,
{
    if k == 0 {
        0
    } else {
        (counter_after((k - 1) as nat) + 1) % 4
    }
}

/// Round robin: after `k` steps the counter stands at `k` modulo four,
/// so the four voices are taken in turn, one per scheduler fire.
pub proof fn lemma_round_robin(k: nat)
    ensures
        counter_after(k) == k % 4,
    decreases k,
{
    if k > 0 {
        lemma_round_robin((k - 1) as nat);
        vstd::arithmetic::div_mod::lemma_add_mod_noop((k - 1) as int, 1, 4);
        assert(1int % 4 == 1);
    }
}

/// Whether decoded source material can be loaded at the given master
/// rate: it must be present, sane, and small enough that the converted
/// buffer stays within the engine's source bound.
pub open spec fn load_ok(wav: Option<WavAudio>, master_rate: int) -> bool {
    match wav {
        Option::None => false,
        Option::Some(w) => {
            &&& 1 <= w.channels
            &&& 1 <= w.sample_rate <= MAX_SAMPLE_RATE
            &&& 1 <= master_rate <= MAX_SAMPLE_RATE
            &&& w.samples@.len() <= MAX_SOURCE_LEN
            &&& w.sample_rate != master_rate ==> (w.samples@.len() as int / w.channels as int)
                * master_rate * w.channels + w.sample_rate * w.channels <= w.sample_rate
                * MAX_SOURCE_LEN
        },
    }
}

/// The Q15 image of decoded 16-bit samples: each value widened as it
/// stands, since one in Q15 is exactly the 16-bit full scale.
pub open spec fn widened(samples: Seq<i16>) -> Seq<i32> {
    samples.map_values(|s: i16| s as i32)
}

pub struct GranularSynth {
    pub source_array: Vec<i32>,
    pub grain_env: Vec<i32>,
    pub grain_voices: Vec<GrainVoice>,
    pub params: GrainParams,
    pub counter: usize,
    pub grain_sender: crossbeam_channel::Sender<Vec<i32>>,
    pub grain_receiver: crossbeam_channel::Receiver<Vec<i32>>,
}

impl GranularSynth {
    /// The synthesizer's standing invariant.
    pub open spec fn wf(&self) -> bool {
        &&& self.params.wf()
        &&& self.counter < 4
        &&& self.grain_voices@.len() == 4
        &&& forall|k: int| 0 <= k < 4 ==> (#[trigger] self.grain_voices@[k]).wf()
        &&& self.source_array@.len() == self.params.specs.filesize
        &&& forall|k: int|
            0 <= k < self.source_array@.len() ==> -32768 <= #[trigger] self.source_array@[k]
                <= 32768
        &&& self.grain_env@.len() <= MAX_ENVELOPE_LEN
    }

    /// A fresh synthesizer: empty source and envelope, four unity
    /// voices reading with the sinc kernel, default parameters, and a
    /// new grain queue.
    pub fn new() -> (s: GranularSynth)
        ensures
            s.wf(),
            s.counter == 0,
            s.source_array@.len() == 0,
            s.grain_env@.len() == 0,
            s.grain_voices@.len() == 4,
            forall|k: int|
                0 <= k < 4 ==> {
                    &&& (#[trigger] s.grain_voices@[k]).mystart == 0
                    &&& s.grain_voices@[k].mypitch == 32768
                    &&& s.grain_voices@[k].mydur == 32768
                    &&& s.grain_voices@[k].interpolation == Interpolation::Sinc
                },
            s.params.grain_start == 0,
            s.params.grain_duration == 100,
            s.params.grain_overlap == OVERLAP_MAX,
            s.params.grain_pitch == 32768,
            s.params.specs.sample_rate == 44100,
            s.params.specs.channels == 2,
            s.params.specs.filesize == 0,
    {
        let specs = Specs { sample_rate: 44100, channels: 2, filesize: 0 };
        let (s, r) = channel_unbounded();
        let mut grain_voices: Vec<GrainVoice> = Vec::new();
        grain_voices.push(GrainVoice::new(0, 32768, 32768));
        grain_voices.push(GrainVoice::new(0, 32768, 32768));
        grain_voices.push(GrainVoice::new(0, 32768, 32768));
        grain_voices.push(GrainVoice::new(0, 32768, 32768));
        GranularSynth {
            source_array: Vec::new(),
            grain_env: Vec::new(),
            grain_voices,
            params: GrainParams {
                grain_start: 0,
                grain_duration: 100,
                grain_overlap: OVERLAP_MAX,
                grain_pitch: 32768,
                specs,
            },
            counter: 0,
            grain_sender: s,
            grain_receiver: r,
        }
    }

    /// The interval between grain fires, in milliseconds: the nominal
    /// grain duration divided by the Q15 overlap ratio.
    pub fn calculate_metro_time_in_ms(&self) -> (ms: u64)
        requires
            self.wf(),
        ensures
            ms == (self.params.grain_duration as int) * 32768 / (self.params.grain_overlap as int),
    {
        ((self.params.grain_duration as u64) * 32768) / (self.params.grain_overlap as u64)
    }

    /// Step the round-robin counter to the next of the four voices.
    pub fn increment_counter(&mut self)
        requires
            old(self).wf(),
        ensures
            final(self).wf(),
            final(self).counter == (old(self).counter + 1) % 4,
            final(self).source_array == old(self).source_array,
            final(self).grain_env == old(self).grain_env,
            final(self).grain_voices == old(self).grain_voices,
            final(self).params == old(self).params,
            final(self).grain_sender == old(self).grain_sender,
            final(self).grain_receiver == old(self).grain_receiver,
    {
        self.counter = (self.counter + 1) % 4;
    }

    /// Randomize the current voice, let it synthesize one grain from the
    /// given source and envelope snapshots, and enqueue the result.
    pub fn route_to_grainvoice(&mut self, source_array: &Vec<i32>, grain_env: &Vec<i32>)
        requires
            old(self).wf(),
            source_array@.len() <= MAX_SOURCE_LEN,
            grain_env@.len() <= MAX_ENVELOPE_LEN,
        ensures
            final(self).wf(),
            final(self).counter == old(self).counter,
            final(self).source_array == old(self).source_array,
            final(self).grain_env == old(self).grain_env,
            final(self).params == old(self).params,
            final(self).grain_sender == old(self).grain_sender,
            final(self).grain_receiver == old(self).grain_receiver,
            final(self).grain_voices@.len() == 4,
            forall|k: int|
                0 <= k < 4 && k != old(self).counter ==> final(self).grain_voices@[k] == old(
                    self,
                ).grain_voices@[k],
            ({
                let v = final(self).grain_voices@[old(self).counter as int];
                &&& v.mystart % 32768 == 0
                &&& 0 <= v.mystart < 10000 * 32768
                &&& 32768 <= v.mypitch <= 33423
                &&& v.mydur == 32768
                &&& v.interpolation == old(self).grain_voices@[old(self).counter as int].interpolation
            }),
    {
        let (r_a, r_b) = Self::generate_random_parameters();
        let counter = self.counter;
        self.grain_voices[counter].mystart = r_a;
        self.grain_voices[counter].mypitch = r_b;
        self.grain_voices[counter].mydur = 32768;

        let voice = &self.grain_voices[counter];
        let grain_data = voice.process_grain(source_array, grain_env, &self.params);
        send_grain(&self.grain_sender, grain_data);
    }

    /// Draw the per-fire voice randomization: a whole-sample start
    /// offset below ten thousand samples, and a pitch ratio in
    /// `[1.0, 1.02)`, both in Q15.
    pub fn generate_random_parameters() -> (r: (i64, i32))
        ensures
            0 <= r.0 < 10000 * 32768,
            r.0 % 32768 == 0,
            32768 <= r.1 <= 33423,
    {
        let a = random_below(10000);
        let b = random_below(200);
        proof {
            vstd::arithmetic::div_mod::lemma_mod_multiples_basic(a as int, 32768);
            vstd::arithmetic::div_mod::lemma_div_pos_is_pos((b as int) * 32768, 10000);
            vstd::arithmetic::div_mod::lemma_div_is_ordered((b as int) * 32768, 199int * 32768, 10000);
            assert((199 * 32768int) / 10000 == 652);
        }
        let r_a: i64 = (a as i64) * 32768;
        let r_b: i32 = 32768 + (((b as u64) * 32768) / 10000) as i32;
        (r_a, r_b)
    }

    /// Load decoded source material, converting it to the master rate
    /// and updating the stored description of the source; zero on
    /// success. Any failure returns minus one and leaves the
    /// synthesizer, its source buffer included, untouched.
    pub fn load_audio_from_file(&mut self, wav: Option<WavAudio>, master_rate: u32) -> (r: i32)
        requires
            old(self).wf(),
        ensures
            final(self).wf(),
            r == 0 || r == -1,
            (r == 0) == load_ok(wav, master_rate as int),
            r == -1 ==> *final(self) == *old(self),
            r == 0 ==> ({
                let w = wav.unwrap();
                &&& final(self).source_array@ == resampled(
                    widened(w.samples@),
                    w.channels as int,
                    w.sample_rate as int,
                    master_rate as int,
                )
                &&& final(self).params.specs.filesize == final(self).source_array@.len()
                &&& final(self).params.specs.sample_rate == master_rate
                &&& final(self).params.specs.channels == w.channels
                &&& final(self).params.grain_start == old(self).params.grain_start
                &&& final(self).params.grain_duration == old(self).params.grain_duration
                &&& final(self).params.grain_overlap == old(self).params.grain_overlap
                &&& final(self).params.grain_pitch == old(self).params.grain_pitch
                &&& final(self).grain_env == old(self).grain_env
                &&& final(self).counter == old(self).counter
                &&& final(self).grain_voices == old(self).grain_voices
                &&& final(self).grain_sender == old(self).grain_sender
                &&& final(self).grain_receiver == old(self).grain_receiver
            }),
    {
        let w = match wav {
            Option::Some(w) => w,
            Option::None => {
                return -1;
            },
        };
        if w.channels == 0 {
            return -1;
        }
        if w.sample_rate == 0 || w.sample_rate > MAX_SAMPLE_RATE {
            return -1;
        }
        if master_rate == 0 || master_rate > MAX_SAMPLE_RATE {
            return -1;
        }
        if w.samples.len() > MAX_SOURCE_LEN {
            return -1;
        }
        let frames: u64 = (w.samples.len() as u64) / (w.channels as u64);
        proof {
            vstd::arithmetic::div_mod::lemma_div_pos_is_pos(w.samples@.len() as int, w.channels as int);
            vstd::arithmetic::div_mod::lemma_div_nonincreasing(w.samples@.len() as int, w.channels as int);
            crate::fixed::lemma_mul_bounds(frames as int, master_rate as int, 0x400_0000, 384000);
            crate::fixed::lemma_mul_bounds(
                (frames as int) * (master_rate as int),
                w.channels as int,
                0x400_0000int * 384000,
                0x1_0000,
            );
            crate::fixed::lemma_mul_bounds(w.sample_rate as int, w.channels as int, 384000, 0x1_0000);
            crate::fixed::lemma_mul_bounds(
                w.sample_rate as int,
                MAX_SOURCE_LEN as int,
                384000,
                0x400_0000,
            );
        }
        let need: u64 = frames * (master_rate as u64) * (w.channels as u64) + (w.sample_rate
            as u64) * (w.channels as u64);
        if w.sample_rate != master_rate {
            if need > (w.sample_rate as u64) * (MAX_SOURCE_LEN as u64) {
                return -1;
            }
        }

        // Widen the 16-bit samples into their exact Q15 images.
        let mut wide_samples: Vec<i32> = Vec::new();
        let mut i: usize = 0;
        let n = w.samples.len();
        while i < n
            invariant
                i <= n,
                n == w.samples@.len(),
                wide_samples@.len() == i,
                forall|k: int| 0 <= k < i ==> wide_samples@[k] == w.samples@[k] as i32,
            decreases n - i,
        {
            wide_samples.push(w.samples[i] as i32);
            i = i + 1;
        }
        proof {
            assert(wide_samples@ =~= widened(w.samples@));
        }

        let final_samples = resample_to_master(
            &wide_samples,
            w.channels,
            w.sample_rate,
            master_rate,
        );
        proof {
            crate::resample::lemma_resampled_bounded(
                widened(w.samples@),
                w.channels as int,
                w.sample_rate as int,
                master_rate as int,
                32768,
            );
        }

        let filesize = final_samples.len();
        self.params.specs.filesize = filesize;
        self.params.specs.sample_rate = master_rate;
        self.params.specs.channels = w.channels;
        self.source_array = final_samples;
        0
    }

    /// Replace the grain envelope with a raised-cosine window of the
    /// requested length.
    pub fn generate_grain_envelope(&mut self, size: usize)
        requires
            old(self).wf(),
            size <= MAX_ENVELOPE_LEN,
        ensures
            final(self).wf(),
            final(self).grain_env@.len() == size,
            forall|i: int|
                0 <= i < size ==> final(self).grain_env@[i] == env_value(i, size as int),
            final(self).source_array == old(self).source_array,
            final(self).grain_voices == old(self).grain_voices,
            final(self).params == old(self).params,
            final(self).counter == old(self).counter,
            final(self).grain_sender == old(self).grain_sender,
            final(self).grain_receiver == old(self).grain_receiver,
    {
        self.grain_env = generate_envelope(size);
    }

    /// A copy of the loaded source buffer.
    pub fn get_source_array(&self) -> (out: Vec<i32>)
        ensures
            out@ == self.source_array@,
    {
        let out = self.source_array.clone();
        proof {
            assert(out@ =~= self.source_array@);
        }
        out
    }

    /// A copy of the grain envelope.
    pub fn get_grain_envelope(&self) -> (out: Vec<i32>)
        ensures
            out@ == self.grain_env@,
    {
        let out = self.grain_env.clone();
        proof {
            assert(out@ =~= self.grain_env@);
        }
        out
    }

    /// Store the grain parameters: the normalized Q15 start is clamped
    /// to `[0, 1]` and scaled by the source length, overlap and pitch
    /// are clamped to their ranges, and the duration is stored as given.
    pub fn set_params(&mut self, start: i64, duration: usize, overlap: i32, pitch: i32)
        requires
            old(self).wf(),
            duration <= MAX_GRAIN_DURATION_MS,
        ensures
            final(self).wf(),
            final(self).params.grain_start == spec_clamp(start as int, 0, 32768) * old(
                self,
            ).params.specs.filesize,
            final(self).params.grain_duration == duration,
            final(self).params.grain_overlap == spec_clamp(
                overlap as int,
                OVERLAP_MIN as int,
                OVERLAP_MAX as int,
            ),
            final(self).params.grain_pitch == spec_clamp(
                pitch as int,
                PITCH_MIN as int,
                PITCH_MAX as int,
            ),
            final(self).params.specs == old(self).params.specs,
            final(self).source_array == old(self).source_array,
            final(self).grain_env == old(self).grain_env,
            final(self).grain_voices == old(self).grain_voices,
            final(self).counter == old(self).counter,
            final(self).grain_sender == old(self).grain_sender,
            final(self).grain_receiver == old(self).grain_receiver,
    {
        let clamped = clamp_i64(start, 0, 32768);
        proof {
            crate::fixed::lemma_mul_bounds(clamped as int, self.params.specs.filesize as int, 32768, MAX_SOURCE_LEN as int);
            assert(clamped * (self.params.specs.filesize as int) >= 0) by (nonlinear_arith)
                requires
                    clamped >= 0,
                    self.params.specs.filesize >= 0,
            ;
        }
        self.params.grain_start = clamped * (self.params.specs.filesize as i64);
        self.params.grain_duration = duration;
        self.params.grain_overlap = clamp_i32(overlap, OVERLAP_MIN, OVERLAP_MAX);
        self.params.grain_pitch = clamp_i32(pitch, PITCH_MIN, PITCH_MAX);
    }

    /// Store only the grain start, clamped and scaled as in
    /// [`GranularSynth::set_params`].
    pub fn set_grain_start(&mut self, start: i64)
        requires
            old(self).wf(),
        ensures
            final(self).wf(),
            final(self).params.grain_start == spec_clamp(start as int, 0, 32768) * old(
                self,
            ).params.specs.filesize,
            final(self).params.grain_duration == old(self).params.grain_duration,
            final(self).params.grain_overlap == old(self).params.grain_overlap,
            final(self).params.grain_pitch == old(self).params.grain_pitch,
            final(self).params.specs == old(self).params.specs,
            final(self).source_array == old(self).source_array,
            final(self).grain_env == old(self).grain_env,
            final(self).grain_voices == old(self).grain_voices,
            final(self).counter == old(self).counter,
            final(self).grain_sender == old(self).grain_sender,
            final(self).grain_receiver == old(self).grain_receiver,
    {
        let clamped = clamp_i64(start, 0, 32768);
        proof {
            crate::fixed::lemma_mul_bounds(clamped as int, self.params.specs.filesize as int, 32768, MAX_SOURCE_LEN as int);
            assert(clamped * (self.params.specs.filesize as int) >= 0) by (nonlinear_arith)
                requires
                    clamped >= 0,
                    self.params.specs.filesize >= 0,
            ;
        }
        self.params.grain_start = clamped * (self.params.specs.filesize as i64);
    }

    /// Store only the nominal grain duration.
    pub fn set_grain_duration(&mut self, duration: usize)
        requires
            old(self).wf(),
            duration <= MAX_GRAIN_DURATION_MS,
        ensures
            final(self).wf(),
            final(self).params.grain_duration == duration,
            final(self).params.grain_start == old(self).params.grain_start,
            final(self).params.grain_overlap == old(self).params.grain_overlap,
            final(self).params.grain_pitch == old(self).params.grain_pitch,
            final(self).params.specs == old(self).params.specs,
            final(self).source_array == old(self).source_array,
            final(self).grain_env == old(self).grain_env,
            final(self).grain_voices == old(self).grain_voices,
            final(self).counter == old(self).counter,
            final(self).grain_sender == old(self).grain_sender,
            final(self).grain_receiver == old(self).grain_receiver,
    {
        self.params.grain_duration = duration;
    }

    /// Store only the pitch ratio, clamped to `[0.1, 2.0]` in Q15.
    pub fn set_grain_pitch(&mut self, pitch: i32)
        requires
            old(self).wf(),
        ensures
            final(self).wf(),
            final(self).params.grain_pitch == spec_clamp(
                pitch as int,
                PITCH_MIN as int,
                PITCH_MAX as int,
            ),
            final(self).params.grain_start == old(self).params.grain_start,
            final(self).params.grain_duration == old(self).params.grain_duration,
            final(self).params.grain_overlap == old(self).params.grain_overlap,
            final(self).params.specs == old(self).params.specs,
            final(self).source_array == old(self).source_array,
            final(self).grain_env == old(self).grain_env,
            final(self).grain_voices == old(self).grain_voices,
            final(self).counter == old(self).counter,
            final(self).grain_sender == old(self).grain_sender,
            final(self).grain_receiver == old(self).grain_receiver,
    {
        self.params.grain_pitch = clamp_i32(pitch, PITCH_MIN, PITCH_MAX);
    }

    /// Store only the overlap ratio, clamped to `[1.0, 2.0]` in Q15.
    pub fn set_overlap(&mut self, overlap: i32)
        requires
            old(self).wf(),
        ensures
            final(self).wf(),
            final(self).params.grain_overlap == spec_clamp(
                overlap as int,
                OVERLAP_MIN as int,
                OVERLAP_MAX as int,
            ),
            final(self).params.grain_start == old(self).params.grain_start,
            final(self).params.grain_duration == old(self).params.grain_duration,
            final(self).params.grain_pitch == old(self).params.grain_pitch,
            final(self).params.specs == old(self).params.specs,
            final(self).source_array == old(self).source_array,
            final(self).grain_env == old(self).grain_env,
            final(self).grain_voices == old(self).grain_voices,
            final(self).counter == old(self).counter,
            final(self).grain_sender == old(self).grain_sender,
            final(self).grain_receiver == old(self).grain_receiver,
    {
        self.params.grain_overlap = clamp_i32(overlap, OVERLAP_MIN, OVERLAP_MAX);
    }
}

} // verus!
