//! Sample-rate conversion of an interleaved multi-channel buffer:
//! deinterleave, drive a fractional-rate linear reader per channel, and
//! re-interleave in the same channel order.
//!
//! Conversion runs only at load time; matching rates return the input
//! unchanged.

use vstd::prelude::*;

verus! {

use crate::fixed::lemma_mul_bounds;
use crate::interp::{spec_linear, linear_interpolation, MAX_INDEX_Q15};
use crate::params::{MAX_SAMPLE_RATE, MAX_SOURCE_LEN};

/// How many samples of an interleaved buffer of length `len` belong to
/// channel `c` of `ch`.
pub open spec fn channel_count(len: int, ch: int, c: int) -> int {
    if c < len {
        (len - c + ch - 1) / ch
    } else {
        0
    }
}

/// The deinterleaved channel `c`: every `ch`-th sample, starting at `c`.
pub open spec fn channel_of(input: Seq<i32>, ch: int, c: int) -> Seq<i32> {
    Seq::new(
        channel_count(input.len() as int, ch, c) as nat,
        |k: int| input[k * ch + c],
    )
}

/// How many frames the converted signal spans: the ceiling of
/// `frames * out_rate / in_rate`.
pub open spec fn out_frame_count(frames: int, in_rate: int, out_rate: int) -> int {
    (frames * out_rate + in_rate - 1) / in_rate
}

/// The converted buffer: unchanged when the rates match, otherwise each
/// channel read linearly at the fractional positions `f * in / out`,
/// re-interleaved.
pub open spec fn resampled(input: Seq<i32>, ch: int, in_rate: int, out_rate: int) -> Seq<i32> {
    if in_rate == out_rate {
        input
    } else {
        let frames = input.len() as int / ch;
        let nf = out_frame_count(frames, in_rate, out_rate);
        Seq::new(
            (nf * ch) as nat,
            |t: int| spec_linear(channel_of(input, ch, t % ch), (t / ch * in_rate * 32768) / out_rate) as i32,
        )
    }
}

/// Converting a buffer to its own sample rate is the identity: the
/// resampler leaves it untouched.
pub proof fn lemma_resample_identity(input: Seq<i32>, ch: int, rate: int)
    ensures
        resampled(input, ch, rate, rate) == input,
{
}

/// A finished stride through the interleaved buffer has taken exactly the
/// ceiling count of samples.
proof fn lemma_stride_count(len: int, ch: int, c: int, j: int)
    requires
        1 <= ch,
        0 <= c < ch,
        0 <= j,
        c + j * ch >= len,
        j > 0 ==> c + (j - 1) * ch < len,
        j == 0 ==> c >= len,
    ensures
        j == channel_count(len, ch, c),
{
    if c < len {
        assert(j > 0);
        let r = c + j * ch - len;
        assert(c + (j - 1) * ch == c + j * ch - ch) by (nonlinear_arith);
        assert(0 <= r < ch);
        assert(len - c + ch - 1 == ch * j + (ch - 1 - r)) by (nonlinear_arith)
            requires
                r == c + j * ch - len,
        ;
        vstd::arithmetic::div_mod::lemma_fundamental_div_mod_converse(
            len - c + ch - 1,
            ch,
            j,
            ch - 1 - r,
        );
    }
}

/// Every sample a channel holds is a sample of the interleaved input.
proof fn lemma_channel_elements(input: Seq<i32>, ch: int, c: int, k: int)
    requires
        1 <= ch,
        0 <= c < ch,
        0 <= k < channel_of(input, ch, c).len(),
    ensures
        0 <= k * ch + c < input.len(),
        channel_of(input, ch, c)[k] == input[k * ch + c],
{
    let len = input.len() as int;
    let count = channel_count(len, ch, c);
    assert(c < len);
    vstd::arithmetic::div_mod::lemma_fundamental_div_mod(len - c + ch - 1, ch);
    assert(count * ch <= len - c + ch - 1);
    assert(k * ch <= (count - 1) * ch) by (nonlinear_arith)
        requires
            k <= count - 1,
            ch >= 1,
    ;
    assert((count - 1) * ch == count * ch - ch) by (nonlinear_arith);
    assert(k * ch >= 0) by (nonlinear_arith)
        requires
            k >= 0,
            ch >= 1,
    ;
}

/// Conversion keeps the samples' bound: a buffer within `[-b, b]` stays
/// within `[-b, b]`, whatever the rates.
pub proof fn lemma_resampled_bounded(input: Seq<i32>, ch: int, in_rate: int, out_rate: int, b: int)
    requires
        0 <= b <= 0x7FFF_FFFF,
        1 <= ch,
        forall|k: int| 0 <= k < input.len() ==> -b <= #[trigger] input[k] <= b,
    ensures
        forall|t: int|
            0 <= t < resampled(input, ch, in_rate, out_rate).len() ==> -b <= #[trigger] resampled(
                input,
                ch,
                in_rate,
                out_rate,
            )[t] <= b,
{
    let out = resampled(input, ch, in_rate, out_rate);
    if in_rate != out_rate {
        assert forall|t: int| 0 <= t < out.len() implies -b <= #[trigger] out[t] <= b by {
            let c = t % ch;
            vstd::arithmetic::div_mod::lemma_mod_bound(t, ch);
            let chan = channel_of(input, ch, c);
            assert forall|k: int| 0 <= k < chan.len() implies -b <= #[trigger] chan[k] <= b by {
                lemma_channel_elements(input, ch, c, k);
            }
            crate::interp::lemma_linear_bounded(chan, (t / ch * in_rate * 32768) / out_rate, b);
        }
    }
}

/// Convert an interleaved buffer from `input_sample_rate` to
/// `output_sample_rate`.
pub fn resample_to_master(
    input_samples: &Vec<i32>,
    input_channels: u16,
    input_sample_rate: u32,
    output_sample_rate: u32,
) -> (out: Vec<i32>)
    requires
        input_channels >= 1,
        1 <= input_sample_rate <= MAX_SAMPLE_RATE,
        1 <= output_sample_rate <= MAX_SAMPLE_RATE,
        input_samples@.len() <= MAX_SOURCE_LEN,
        input_sample_rate != output_sample_rate ==> (input_samples@.len() as int
            / input_channels as int) * output_sample_rate * input_channels + input_sample_rate
            * input_channels <= input_sample_rate * MAX_SOURCE_LEN,
    ensures
        out@ == resampled(
            input_samples@,
            input_channels as int,
            input_sample_rate as int,
            output_sample_rate as int,
        ),
        out@.len() <= MAX_SOURCE_LEN,
{
    if input_sample_rate == output_sample_rate {
        let out = input_samples.clone();
        proof {
            assert(out@ =~= input_samples@);
        }
        return out;
    }

    let ch: usize = input_channels as usize;
    let len: usize = input_samples.len();
    let frames: usize = len / ch;

    // 1) Deinterleave into per-channel contiguous buffers.
    let mut channels_data: Vec<Vec<i32>> = Vec::new();
    let mut c: usize = 0;
    while c < ch
        invariant
            1 <= ch <= 0x1_0000,
            len == input_samples@.len() <= MAX_SOURCE_LEN,
            c <= ch,
            channels_data@.len() == c,
            forall|cc: int|
                0 <= cc < c ==> #[trigger] channels_data@[cc]@ == channel_of(
                    input_samples@,
                    ch as int,
                    cc,
                ),
        decreases ch - c,
    {
        let mut buf: Vec<i32> = Vec::new();
        let mut k: usize = c;
        proof {
            assert(c + 0 * (ch as int) == c) by (nonlinear_arith);
        }
        while k < len
            invariant
                1 <= ch <= 0x1_0000,
                len == input_samples@.len() <= MAX_SOURCE_LEN,
                c < ch,
                k <= len + ch,
                k == c + buf@.len() * ch,
                buf@.len() > 0 ==> (k as int) - (ch as int) < len,
                forall|t: int| 0 <= t < buf@.len() ==> buf@[t] == input_samples@[t * (ch as int) + c],
            decreases (len + ch) - k,
        {
            buf.push(input_samples[k]);
            proof {
                assert((buf@.len() - 1) * ch + c == k) by (nonlinear_arith)
                    requires
                        k as int == c + (buf@.len() - 1) * ch,
                ;
                assert(c + buf@.len() * (ch as int) == k + ch) by (nonlinear_arith)
                    requires
                        k as int == c + (buf@.len() - 1) * ch,
                ;
            }
            k = k + ch;
        }
        proof {
            if buf@.len() > 0 {
                assert(c + (buf@.len() - 1) * (ch as int) < len) by (nonlinear_arith)
                    requires
                        k as int == c + buf@.len() * ch,
                        (k as int) - (ch as int) < len,
                ;
            }
            lemma_stride_count(len as int, ch as int, c as int, buf@.len() as int);
            assert(buf@ =~= channel_of(input_samples@, ch as int, c as int));
        }
        channels_data.push(buf);
        c = c + 1;
    }

    // 2) Read each channel at the fractional rate.
    proof {
        lemma_mul_bounds(frames as int, output_sample_rate as int, 0x400_0000, 384000);
    }
    let nf64: u64 = ((frames as u64) * (output_sample_rate as u64) + (input_sample_rate as u64)
        - 1) / (input_sample_rate as u64);
    proof {
        let fr = frames as int;
        let ir = input_sample_rate as int;
        let or = output_sample_rate as int;
        let nf = out_frame_count(fr, ir, or);
        vstd::arithmetic::div_mod::lemma_div_pos_is_pos(fr * or + ir - 1, ir);
        vstd::arithmetic::div_mod::lemma_fundamental_div_mod(fr * or + ir - 1, ir);
        assert(nf * ir <= fr * or + ir - 1);
        assert(ir * (nf * (ch as int)) <= ir * MAX_SOURCE_LEN) by (nonlinear_arith)
            requires
                nf * ir <= fr * or + ir - 1,
                fr * or * ch + ir * ch <= ir * MAX_SOURCE_LEN,
                ch >= 1,
                ir >= 1,
        ;
        assert(nf * (ch as int) <= MAX_SOURCE_LEN) by (nonlinear_arith)
            requires
                ir * (nf * (ch as int)) <= ir * MAX_SOURCE_LEN,
                ir >= 1,
                nf * (ch as int) >= 0,
        ;
        assert(nf <= nf * (ch as int)) by (nonlinear_arith)
            requires
                ch >= 1,
                nf >= 0,
        ;
    }
    let nf: usize = nf64 as usize;

    let ghost fr = frames as int;
    let ghost ir = input_sample_rate as int;
    let ghost or = output_sample_rate as int;

    let mut resampled_channels: Vec<Vec<i32>> = Vec::new();
    let mut c: usize = 0;
    while c < ch
        invariant
            1 <= ch <= 0x1_0000,
            c <= ch,
            ir == input_sample_rate as int,
            or == output_sample_rate as int,
            fr == input_samples@.len() as int / (ch as int),
            nf == out_frame_count(fr, ir, or),
            nf <= MAX_SOURCE_LEN,
            1 <= ir <= MAX_SAMPLE_RATE,
            1 <= or <= MAX_SAMPLE_RATE,
            (nf as int) * ir <= fr * or + ir - 1,
            0 <= fr <= 0x400_0000,
            channels_data@.len() == ch,
            resampled_channels@.len() == c,
            forall|cc: int|
                0 <= cc < ch ==> #[trigger] channels_data@[cc]@ == channel_of(
                    input_samples@,
                    ch as int,
                    cc,
                ),
            forall|cc: int|
                0 <= cc < c ==> #[trigger] resampled_channels@[cc]@.len() == nf,
            forall|cc: int, kk: int|
                0 <= cc < c && 0 <= kk < nf ==> #[trigger] resampled_channels@[cc]@[kk]
                    == spec_linear(
                    channel_of(input_samples@, ch as int, cc),
                    (kk * ir * 32768) / or,
                ) as i32,
        decreases ch - c,
    {
        let channel: &Vec<i32> = &channels_data[c];
        let mut out_buf: Vec<i32> = Vec::new();
        let mut k: usize = 0;
        while k < nf
            invariant
                k <= nf,
                nf <= MAX_SOURCE_LEN,
                ir == input_sample_rate as int,
                or == output_sample_rate as int,
                1 <= ir <= MAX_SAMPLE_RATE,
                1 <= or <= MAX_SAMPLE_RATE,
                (nf as int) * ir <= fr * or + ir - 1,
                0 <= fr <= 0x400_0000,
                channel@ == channel_of(input_samples@, ch as int, c as int),
                out_buf@.len() == k,
                forall|kk: int|
                    0 <= kk < k ==> #[trigger] out_buf@[kk] == spec_linear(
                        channel_of(input_samples@, ch as int, c as int),
                        (kk * ir * 32768) / or,
                    ) as i32,
            decreases nf - k,
        {
            let k64: i64 = k as i64;
            let ir64: i64 = input_sample_rate as i64;
            proof {
                assert(0 <= (k64 as int) * (ir64 as int) <= 0x400_0000 * 384000int)
                    by (nonlinear_arith)
                    requires
                        0 <= k64 as int <= (nf as int) - 1,
                        (nf as int) * (ir64 as int) <= fr * or + (ir64 as int) - 1,
                        0 <= fr <= 0x400_0000,
                        1 <= ir64 as int <= 384000,
                        1 <= or <= 384000,
                ;
                vstd::arithmetic::div_mod::lemma_div_pos_is_pos((k64 as int) * (ir64 as int) * 32768, or);
                vstd::arithmetic::div_mod::lemma_div_nonincreasing(
                    (k64 as int) * (ir64 as int) * 32768,
                    or,
                );
            }
            let pos: i64 = (k64 * ir64 * 32768) / (output_sample_rate as i64);
            let s = linear_interpolation(channel, pos);
            out_buf.push(s);
            k = k + 1;
        }
        resampled_channels.push(out_buf);
        c = c + 1;
    }

    // 3) Re-interleave in the same channel order.
    let ghost target = resampled(input_samples@, ch as int, ir, or);
    proof {
        lemma_mul_bounds(nf as int, ch as int, MAX_SOURCE_LEN as int, 0x1_0000);
        assert((nf as int) * (ch as int) <= MAX_SOURCE_LEN) by (nonlinear_arith)
            requires
                ir * ((nf as int) * (ch as int)) <= ir * MAX_SOURCE_LEN,
                ir >= 1,
                (nf as int) * (ch as int) >= 0,
            ;
    }
    let total: usize = nf * ch;
    let mut final_samples: Vec<i32> = Vec::new();
    let mut f: usize = 0;
    while f < nf
        invariant
            1 <= ch <= 0x1_0000,
            f <= nf,
            total == (nf as int) * (ch as int),
            total <= MAX_SOURCE_LEN,
            nf == out_frame_count(fr, ir, or),
            resampled_channels@.len() == ch,
            forall|cc: int|
                0 <= cc < ch ==> #[trigger] resampled_channels@[cc]@.len() == nf,
            forall|cc: int, kk: int|
                0 <= cc < ch && 0 <= kk < nf ==> #[trigger] resampled_channels@[cc]@[kk]
                    == spec_linear(
                    channel_of(input_samples@, ch as int, cc),
                    (kk * ir * 32768) / or,
                ) as i32,
            final_samples@.len() == f * ch,
            forall|t: int|
                0 <= t < f * ch ==> #[trigger] final_samples@[t] == spec_linear(
                    channel_of(input_samples@, ch as int, t % (ch as int)),
                    (t / (ch as int) * ir * 32768) / or,
                ) as i32,
        decreases nf - f,
    {
        let mut c2: usize = 0;
        proof {
            assert((f as int) * ch + ch <= (nf as int) * ch) by (nonlinear_arith)
                requires
                    (f as int) < nf as int,
                    ch >= 1,
            ;
        }
        while c2 < ch
            invariant
                1 <= ch <= 0x1_0000,
                f < nf,
                c2 <= ch,
                total == (nf as int) * (ch as int),
                total <= MAX_SOURCE_LEN,
                (f as int) * ch + ch <= (nf as int) * ch,
                nf == out_frame_count(fr, ir, or),
                resampled_channels@.len() == ch,
                forall|cc: int|
                    0 <= cc < ch ==> #[trigger] resampled_channels@[cc]@.len() == nf,
                forall|cc: int, kk: int|
                    0 <= cc < ch && 0 <= kk < nf ==> #[trigger] resampled_channels@[cc]@[kk]
                        == spec_linear(
                        channel_of(input_samples@, ch as int, cc),
                        (kk * ir * 32768) / or,
                    ) as i32,
                final_samples@.len() == f * ch + c2,
                forall|t: int|
                    0 <= t < f * ch + c2 ==> #[trigger] final_samples@[t] == spec_linear(
                        channel_of(input_samples@, ch as int, t % (ch as int)),
                        (t / (ch as int) * ir * 32768) / or,
                    ) as i32,
            decreases ch - c2,
        {
            let s = resampled_channels[c2][f];
            proof {
                let t = (f as int) * ch + c2;
                vstd::arithmetic::div_mod::lemma_fundamental_div_mod_converse(
                    t,
                    ch as int,
                    f as int,
                    c2 as int,
                );
            }
            final_samples.push(s);
            c2 = c2 + 1;
        }
        f = f + 1;
        proof {
            assert((f as int) * ch == (f - 1) * ch + ch) by (nonlinear_arith);
        }
    }
    proof {
        assert((nf as int) * (ch as int) == target.len());
        assert(final_samples@ =~= target);
    }
    final_samples
}

} // verus!
