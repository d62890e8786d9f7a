//! The four interpolation kernels that read a fractional Q15 index out of
//! a sample buffer: linear, Catmull-Rom cubic, 4-point Hermite and a
//! five-tap windowed sinc.
//!
//! Each kernel has a spec twin that states its value exactly over the
//! buffer's view; reads outside the buffer contribute zero.

use vstd::prelude::*;

verus! {

use vstd::math::abs;
use crate::fixed::{div_t, sat32, div_trunc, floor_q15, frac_q15, saturate_i32};
use crate::fixed::{sin_half_turns, sin_q15, lemma_sin_small, lemma_mul_bounds, lemma_div_t_bound};

/// The kernel a grain voice reads its source and envelope with.
#[derive(Clone, Copy, Debug, PartialEq, Eq, Structural)]
pub enum Interpolation {
    FourPoint,
    Sinc,
    Cubic,
    Linear,
}

/// Widest fractional index the kernels accept (`2^60` in Q15).
pub const MAX_INDEX_Q15: i64 = 0x1000_0000_0000_0000;

/// A buffer tap: the sample at `i`, or zero outside the buffer.
pub open spec fn tap(buf: Seq<i32>, i: int) -> int {
    if 0 <= i < buf.len() {
        buf[i] as int
    } else {
        0
    }
}

/// A tap whose negative indices are clamped to the first sample, as the
/// Hermite kernel reads.
pub open spec fn tap_clamp_low(buf: Seq<i32>, i: int) -> int {
    let k = if i < 0 {
        0
    } else {
        i
    };
    if k < buf.len() {
        buf[k] as int
    } else {
        0
    }
}

/// Two-tap linear interpolation at the Q15 index `x`.
pub open spec fn spec_linear(buf: Seq<i32>, x: int) -> int {
    let s0 = tap(buf, x / 32768);
    let s1 = tap(buf, x / 32768 + 1);
    let f = x % 32768;
    s0 + div_t((s1 - s0) * f, 32768)
}

/// Catmull-Rom style cubic interpolation at the Q15 index `x`; the
/// doubled coefficients keep every division explicit.
pub open spec fn spec_cubic(buf: Seq<i32>, x: int) -> int {
    let i0 = x / 32768;
    let f = x % 32768;
    let p0 = tap(buf, i0 - 1);
    let p1 = tap(buf, i0);
    let p2 = tap(buf, i0 + 1);
    let p3 = tap(buf, i0 + 2);
    let a2 = p2 - p0;
    let b2 = 2 * (p1 - p0) - a2;
    let c2 = 2 * (p2 - p1) - a2;
    let f2 = div_t(f * f, 32768);
    let f3 = div_t(f2 * f, 32768);
    sat32(p1 + div_t(a2 * f3 + b2 * f2 + c2 * f, 65536))
}

/// 4-point Hermite interpolation at the Q15 index `x`.
pub open spec fn spec_four_point(buf: Seq<i32>, x: int) -> int {
    let i0 = x / 32768;
    let f = x % 32768;
    let s0 = tap_clamp_low(buf, i0 - 1);
    let s1 = tap_clamp_low(buf, i0);
    let s2 = tap_clamp_low(buf, i0 + 1);
    let s3 = tap_clamp_low(buf, i0 + 2);
    let f2 = div_t(f * f, 32768);
    let f3 = div_t(f2 * f, 32768);
    sat32(
        s1 + div_t((s2 - s0) * f, 65536) + div_t((2 * s0 - 5 * s1 + 4 * s2 - s3) * f2, 65536)
            + div_t((-s0 + 3 * s1 - 3 * s2 + s3) * f3, 65536),
    )
}

/// The normalized sinc kernel at the Q15 offset `x`: one at the center,
/// `sin(pi x / ONE) / (pi x / ONE)` elsewhere; `102944` is pi in Q15.
pub open spec fn sinc_weight(x: int) -> int {
    if x == 0 {
        32768
    } else {
        div_t(sin_half_turns(x) * 32768 * 32768, 102944 * x)
    }
}

/// Partial sinc sums over the taps `-2..=j`: the weighted sample sum and
/// the weight sum, skipping taps outside the buffer.
pub open spec fn sinc_sums(buf: Seq<i32>, i0: int, f: int, j: int) -> (int, int)
    decreases j + 3,
{
    if j < -2 {
        (0, 0)
    } else {
        let rest = sinc_sums(buf, i0, f, j - 1);
        if 0 <= i0 + j < buf.len() {
            let w = sinc_weight(f - j * 32768);
            (rest.0 + buf[i0 + j] * w, rest.1 + w)
        } else {
            rest
        }
    }
}

/// Five-tap windowed-sinc interpolation at the Q15 index `x`, normalized
/// by the weight sum; zero when the weights cancel.
pub open spec fn spec_sinc_interp(buf: Seq<i32>, x: int) -> int {
    let sums = sinc_sums(buf, x / 32768, x % 32768, 2);
    if sums.1 != 0 {
        sat32(div_t(sums.0, sums.1))
    } else {
        0
    }
}

/// The sinc kernel on machine words; its magnitude stays under two.
pub fn sinc(x: i64) -> (r: i32)
    requires
        -98304 <= x <= 98304,
    ensures
        r as int == sinc_weight(x as int),
        -65536 <= r <= 65536,
{
    if x == 0 {
        32768
    } else {
        let sv = sin_q15(x);
        let num: i64 = (sv as i64) * 32768 * 32768;
        let den: i64 = 102944 * x;
        proof {
            let xi = x as int;
            if -16384 <= xi <= 16384 {
                lemma_sin_small(xi);
                assert(abs(num as int) <= 65536 * abs(den as int)) by (nonlinear_arith)
                    requires
                        num == sv * 32768 * 32768,
                        den == 102944 * xi,
                        xi != 0,
                        -16384 <= xi <= 16384,
                        -4 * abs(xi) <= sv <= 4 * abs(xi),
                        abs(xi) == if xi >= 0 { xi } else { -xi },
                ;
            } else {
                assert(abs(num as int) <= 65536 * abs(den as int)) by (nonlinear_arith)
                    requires
                        num == sv * 32768 * 32768,
                        den == 102944 * xi,
                        -32768 <= sv <= 32768,
                        abs(xi) >= 16384,
                        -98304 <= xi <= 98304,
                        abs(xi) == if xi >= 0 { xi } else { -xi },
                ;
            }
            lemma_div_t_bound(num as int, den as int, 65536);
        }
        let q = div_trunc(num, den);
        q as i32
    }
}

/// One tap of the running sinc sums.
fn sinc_tap(buffer: &Vec<i32>, i0: i64, f: i64, j: i64, acc: (i64, i64)) -> (out: (i64, i64))
    requires
        -2 <= j <= 2,
        0 <= f < 32768,
        -0x2000_0000_0000 <= i0 <= 0x2000_0000_0000,
        acc.0 == sinc_sums(buffer@, i0 as int, f as int, j - 1).0,
        acc.1 == sinc_sums(buffer@, i0 as int, f as int, j - 1).1,
        abs(acc.0 as int) <= (j + 2) * 0x2_0000_0000_0000,
        abs(acc.1 as int) <= (j + 2) * 0x2_0000,
    ensures
        out.0 == sinc_sums(buffer@, i0 as int, f as int, j as int).0,
        out.1 == sinc_sums(buffer@, i0 as int, f as int, j as int).1,
        abs(out.0 as int) <= (j + 3) * 0x2_0000_0000_0000,
        abs(out.1 as int) <= (j + 3) * 0x2_0000,
{
    let idx = i0 + j;
    if idx >= 0 && (idx as u64) < (buffer.len() as u64) {
        let s = buffer[idx as usize] as i64;
        let w = sinc(f - j * 32768) as i64;
        proof {
            lemma_mul_bounds(s as int, w as int, 0x8000_0000, 0x2_0000);
        }
        (acc.0 + s * w, acc.1 + w)
    } else {
        (acc.0, acc.1)
    }
}

/// Windowed-sinc interpolation of a Q15 index.
pub fn sinc_interpolation(buffer: &Vec<i32>, x: i64) -> (r: i32)
    requires
        -MAX_INDEX_Q15 < x < MAX_INDEX_Q15,
    ensures
        r as int == spec_sinc_interp(buffer@, x as int),
{
    let i0 = floor_q15(x);
    let f = frac_q15(x);
    proof {
        assert(sinc_sums(buffer@, i0 as int, f as int, -3) == (0int, 0int));
    }
    let acc = sinc_tap(buffer, i0, f, -2, (0, 0));
    let acc = sinc_tap(buffer, i0, f, -1, acc);
    let acc = sinc_tap(buffer, i0, f, 0, acc);
    let acc = sinc_tap(buffer, i0, f, 1, acc);
    let acc = sinc_tap(buffer, i0, f, 2, acc);
    if acc.1 != 0 {
        saturate_i32(div_trunc(acc.0, acc.1))
    } else {
        0
    }
}

/// Fetch one tap of the buffer.
pub fn tap_at(buffer: &Vec<i32>, i: i64) -> (s: i32)
    ensures
        s as int == tap(buffer@, i as int),
{
    if i >= 0 && (i as u64) < (buffer.len() as u64) {
        buffer[i as usize]
    } else {
        0
    }
}

/// Fetch one tap, clamping negative indices to the first sample.
pub fn tap_at_clamp_low(buffer: &Vec<i32>, i: i64) -> (s: i32)
    ensures
        s as int == tap_clamp_low(buffer@, i as int),
{
    let k: i64 = if i < 0 {
        0
    } else {
        i
    };
    if (k as u64) < (buffer.len() as u64) {
        buffer[k as usize]
    } else {
        0
    }
}

/// A Q15 fraction scales a difference without leaving its span:
/// `div_t(d f, ONE)` lies between `0` and `d`.
proof fn lemma_scale_frac(d: int, f: int)
    requires
        0 <= f < 32768,
    ensures
        d >= 0 ==> 0 <= div_t(d * f, 32768) <= d,
        d < 0 ==> d <= div_t(d * f, 32768) <= 0,
{
    if d >= 0 {
        lemma_mul_bounds(d, f, d, 32767);
        assert(d * 32767 <= d * 32768) by (nonlinear_arith)
            requires
                d >= 0,
        ;
        lemma_div_t_bound(d * f, 32768, d);
        assert(d * f >= 0) by (nonlinear_arith)
            requires
                d >= 0,
                f >= 0,
        ;
        vstd::arithmetic::div_mod::lemma_div_pos_is_pos(d * f, 32768);
    } else {
        lemma_mul_bounds(d, f, -d, 32767);
        assert((-d) * 32767 <= (-d) * 32768) by (nonlinear_arith)
            requires
                d < 0,
        ;
        lemma_div_t_bound(d * f, 32768, -d);
        assert(d * f <= 0) by (nonlinear_arith)
            requires
                d < 0,
                f >= 0,
        ;
        vstd::arithmetic::div_mod::lemma_div_pos_is_pos(-(d * f), 32768);
        assert(div_t(d * f, 32768) <= 0);
    }
}

/// A linear read never leaves the span of its taps: on a buffer bounded
/// by `b`, the interpolated value is bounded by `b` too.
pub proof fn lemma_linear_bounded(buf: Seq<i32>, x: int, b: int)
    requires
        0 <= b,
        forall|k: int| 0 <= k < buf.len() ==> -b <= #[trigger] buf[k] <= b,
    ensures
        -b <= spec_linear(buf, x) <= b,
{
    vstd::arithmetic::div_mod::lemma_mod_bound(x, 32768);
    let f = x % 32768;
    let s0 = tap(buf, x / 32768);
    let s1 = tap(buf, x / 32768 + 1);
    lemma_scale_frac(s1 - s0, f);
}

/// Linear interpolation of a Q15 index.
pub fn linear_interpolation(buffer: &Vec<i32>, x: i64) -> (r: i32)
    requires
        -MAX_INDEX_Q15 < x < MAX_INDEX_Q15,
    ensures
        r as int == spec_linear(buffer@, x as int),
{
    let i0 = floor_q15(x);
    let f = frac_q15(x);
    let s0 = tap_at(buffer, i0) as i64;
    let s1 = tap_at(buffer, i0 + 1) as i64;
    proof {
        lemma_mul_bounds((s1 - s0) as int, f as int, 0x1_0000_0000, 32768);
        lemma_scale_frac((s1 - s0) as int, f as int);
    }
    let d = div_trunc((s1 - s0) * f, 32768);
    (s0 + d) as i32
}

/// Cubic interpolation of a Q15 index.
pub fn cubic_interpolation(buffer: &Vec<i32>, x: i64) -> (r: i32)
    requires
        -MAX_INDEX_Q15 < x < MAX_INDEX_Q15,
    ensures
        r as int == spec_cubic(buffer@, x as int),
{
    let i0 = floor_q15(x);
    let f = frac_q15(x);
    let p0 = tap_at(buffer, i0 - 1) as i64;
    let p1 = tap_at(buffer, i0) as i64;
    let p2 = tap_at(buffer, i0 + 1) as i64;
    let p3 = tap_at(buffer, i0 + 2) as i64;
    let a2 = p2 - p0;
    let b2 = 2 * (p1 - p0) - a2;
    let c2 = 2 * (p2 - p1) - a2;
    proof {
        lemma_mul_bounds(f as int, f as int, 32768, 32768);
        lemma_div_t_bound((f * f) as int, 32768, 32768);
    }
    let f2 = div_trunc(f * f, 32768);
    proof {
        lemma_mul_bounds(f2 as int, f as int, 32768, 32768);
        lemma_div_t_bound((f2 * f) as int, 32768, 32768);
    }
    let f3 = div_trunc(f2 * f, 32768);
    proof {
        lemma_mul_bounds(a2 as int, f3 as int, 0x2_0000_0000, 32768);
        lemma_mul_bounds(b2 as int, f2 as int, 0x8_0000_0000, 32768);
        lemma_mul_bounds(c2 as int, f as int, 0x8_0000_0000, 32768);
        lemma_div_t_bound((a2 * f3 + b2 * f2 + c2 * f) as int, 65536, 0x90_0000_0000);
    }
    let poly = div_trunc(a2 * f3 + b2 * f2 + c2 * f, 65536);
    saturate_i32(p1 + poly)
}

/// 4-point Hermite interpolation of a Q15 index.
pub fn four_point_interpolation(buffer: &Vec<i32>, x: i64) -> (r: i32)
    requires
        -MAX_INDEX_Q15 < x < MAX_INDEX_Q15,
    ensures
        r as int == spec_four_point(buffer@, x as int),
{
    let i0 = floor_q15(x);
    let f = frac_q15(x);
    let s0 = tap_at_clamp_low(buffer, i0 - 1) as i64;
    let s1 = tap_at_clamp_low(buffer, i0) as i64;
    let s2 = tap_at_clamp_low(buffer, i0 + 1) as i64;
    let s3 = tap_at_clamp_low(buffer, i0 + 2) as i64;
    proof {
        lemma_mul_bounds(f as int, f as int, 32768, 32768);
        lemma_div_t_bound((f * f) as int, 32768, 32768);
    }
    let f2 = div_trunc(f * f, 32768);
    proof {
        lemma_mul_bounds(f2 as int, f as int, 32768, 32768);
        lemma_div_t_bound((f2 * f) as int, 32768, 32768);
    }
    let f3 = div_trunc(f2 * f, 32768);
    proof {
        lemma_mul_bounds((s2 - s0) as int, f as int, 0x1_0000_0000, 32768);
        lemma_div_t_bound(((s2 - s0) * f) as int, 65536, 0x80_0000_0000);
        lemma_mul_bounds((2 * s0 - 5 * s1 + 4 * s2 - s3) as int, f2 as int, 0x6_0000_0000, 32768);
        lemma_div_t_bound(((2 * s0 - 5 * s1 + 4 * s2 - s3) * f2) as int, 65536, 0x3_0000_0000);
        lemma_mul_bounds((-s0 + 3 * s1 - 3 * s2 + s3) as int, f3 as int, 0x4_0000_0000, 32768);
        lemma_div_t_bound(((-s0 + 3 * s1 - 3 * s2 + s3) * f3) as int, 65536, 0x2_0000_0000);
    }
    let t1 = div_trunc((s2 - s0) * f, 65536);
    let t2 = div_trunc((2 * s0 - 5 * s1 + 4 * s2 - s3) * f2, 65536);
    let t3 = div_trunc((-s0 + 3 * s1 - 3 * s2 + s3) * f3, 65536);
    saturate_i32(s1 + t1 + t2 + t3)
}

/// The value the chosen kernel reads at the Q15 index `x`.
pub open spec fn interp_at(kind: Interpolation, buf: Seq<i32>, x: int) -> int {
    match kind {
        Interpolation::FourPoint => spec_four_point(buf, x),
        Interpolation::Sinc => spec_sinc_interp(buf, x),
        Interpolation::Cubic => spec_cubic(buf, x),
        Interpolation::Linear => spec_linear(buf, x),
    }
}

/// Read the buffer at the Q15 index `x` with the chosen kernel.
pub fn interpolate(kind: Interpolation, buffer: &Vec<i32>, x: i64) -> (r: i32)
    requires
        -MAX_INDEX_Q15 < x < MAX_INDEX_Q15,
    ensures
        r as int == interp_at(kind, buffer@, x as int),
{
    match kind {
        Interpolation::FourPoint => four_point_interpolation(buffer, x),
        Interpolation::Sinc => sinc_interpolation(buffer, x),
        Interpolation::Cubic => cubic_interpolation(buffer, x),
        Interpolation::Linear => linear_interpolation(buffer, x),
    }
}

/// The sine of every whole number of half turns vanishes.
proof fn lemma_sin_at_whole_turns(k: int)
    requires
        -2 <= k <= 2,
    ensures
        sin_half_turns(k * 32768) == 0,
{
    let x = k * 32768;
    if k == -2 {
        vstd::arithmetic::div_mod::lemma_fundamental_div_mod_converse(x, 65536, -1, 0);
    } else if k == -1 {
        vstd::arithmetic::div_mod::lemma_fundamental_div_mod_converse(x, 65536, -1, 32768);
    } else if k == 0 {
        vstd::arithmetic::div_mod::lemma_small_mod(0nat, 65536nat);
    } else if k == 1 {
        vstd::arithmetic::div_mod::lemma_small_mod(32768nat, 65536nat);
    } else {
        vstd::arithmetic::div_mod::lemma_fundamental_div_mod_converse(x, 65536, 1, 0);
    }
}

/// Every kernel reproduces the buffer exactly on whole sample indices:
/// reading at the Q15 image of an in-range integer index `i` gives
/// `buf[i]` back, whichever kernel is chosen.
pub proof fn lemma_interpolate_at_integer(kind: Interpolation, buf: Seq<i32>, i: int)
    requires
        0 <= i < buf.len(),
    ensures
        interp_at(kind, buf, i * 32768) == buf[i],
{
    let x = i * 32768;
    vstd::arithmetic::div_mod::lemma_div_multiples_vanish(i, 32768);
    vstd::arithmetic::div_mod::lemma_mod_multiples_basic(i, 32768);
    assert(x / 32768 == i);
    assert(x % 32768 == 0);
    let s1 = buf[i] as int;
    match kind {
        Interpolation::Linear => {
            assert(div_t((tap(buf, i + 1) - s1) * 0, 32768) == 0);
        },
        Interpolation::Cubic => {
            assert(div_t(0int * 0, 32768) == 0);
            let p0 = tap(buf, i - 1);
            let p2 = tap(buf, i + 1);
            let a2 = p2 - p0;
            let b2 = 2 * (s1 - p0) - a2;
            let c2 = 2 * (p2 - s1) - a2;
            assert(a2 * 0 + b2 * 0 + c2 * 0 == 0);
            assert(div_t(0, 65536) == 0);
            assert(sat32(s1) == s1);
        },
        Interpolation::FourPoint => {
            assert(div_t(0int * 0, 32768) == 0);
            let s0 = tap_clamp_low(buf, i - 1);
            let s2 = tap_clamp_low(buf, i + 1);
            let s3 = tap_clamp_low(buf, i + 2);
            assert((s2 - s0) * 0 == 0);
            assert((2 * s0 - 5 * s1 + 4 * s2 - s3) * 0 == 0);
            assert((-s0 + 3 * s1 - 3 * s2 + s3) * 0 == 0);
            assert(div_t(0, 65536) == 0);
            assert(tap_clamp_low(buf, i) == s1);
            assert(sat32(s1) == s1);
        },
        Interpolation::Sinc => {
            lemma_sinc_interp_at_integer(buf, i);
        },
    }
}

/// The sinc kernel's weights vanish at every whole tap but the center,
/// so the normalized read at a whole index is the sample itself.
proof fn lemma_sinc_interp_at_integer(buf: Seq<i32>, i: int)
    requires
        0 <= i < buf.len(),
    ensures
        spec_sinc_interp(buf, i * 32768) == buf[i],
{
    let x = i * 32768;
    vstd::arithmetic::div_mod::lemma_div_multiples_vanish(i, 32768);
    vstd::arithmetic::div_mod::lemma_mod_multiples_basic(i, 32768);
    assert(x / 32768 == i);
    assert(x % 32768 == 0);
    lemma_sin_at_whole_turns(2);
    lemma_sin_at_whole_turns(1);
    lemma_sin_at_whole_turns(-1);
    lemma_sin_at_whole_turns(-2);
    assert(sinc_weight(65536) == 0) by {
        assert(2 * 32768 == 65536);
        assert(0int * 32768 * 32768 == 0);
        assert(div_t(0, 102944int * 65536) == 0);
    }
    assert(sinc_weight(32768) == 0) by {
        assert(1 * 32768 == 32768);
        assert(0int * 32768 * 32768 == 0);
        assert(div_t(0, 102944int * 32768) == 0);
    }
    assert(sinc_weight(-32768) == 0) by {
        assert((-1) * 32768 == -32768);
        assert(0int * 32768 * 32768 == 0);
        assert(div_t(0, 102944int * (-32768)) == 0);
    }
    assert(sinc_weight(-65536) == 0) by {
        assert((-2) * 32768 == -65536);
        assert(0int * 32768 * 32768 == 0);
        assert(div_t(0, 102944int * (-65536)) == 0);
    }
    assert(sinc_weight(0) == 32768);
    assert(sinc_sums(buf, i, 0, -3) == (0int, 0int));
    assert(sinc_sums(buf, i, 0, -2) == (0int, 0int));
    assert(sinc_sums(buf, i, 0, -1) == (0int, 0int));
    assert(sinc_sums(buf, i, 0, 0) == (buf[i] * 32768, 32768int));
    assert(sinc_sums(buf, i, 0, 1) == (buf[i] * 32768, 32768int));
    assert(sinc_sums(buf, i, 0, 2) == (buf[i] * 32768, 32768int));
    crate::fixed::lemma_div_t_cancel(buf[i] as int, 32768);
    assert(sat32(buf[i] as int) == buf[i]);
}

/// Every kernel reads zero out of an empty buffer.
pub proof fn lemma_interpolate_empty(kind: Interpolation, buf: Seq<i32>, x: int)
    requires
        buf.len() == 0,
    ensures
        interp_at(kind, buf, x) == 0,
{
    let i0 = x / 32768;
    let f = x % 32768;
    match kind {
        Interpolation::Linear => {
            assert(div_t((0 - 0) * f, 32768) == 0);
        },
        Interpolation::Cubic => {
            assert(div_t(f * f, 32768) == div_t(f * f, 32768));
            let f2 = div_t(f * f, 32768);
            let f3 = div_t(f2 * f, 32768);
            assert(0 * f3 + 0 * f2 + 0 * f == 0);
            assert(div_t(0, 65536) == 0);
            assert(sat32(0) == 0);
        },
        Interpolation::FourPoint => {
            let f2 = div_t(f * f, 32768);
            let f3 = div_t(f2 * f, 32768);
            assert((0 - 0) * f == 0);
            assert((2 * 0 - 5 * 0 + 4 * 0 - 0) * f2 == 0) by (nonlinear_arith);
            assert((-0 + 3 * 0 - 3 * 0 + 0) * f3 == 0) by (nonlinear_arith);
            assert(div_t(0, 65536) == 0);
            assert(sat32(0) == 0);
        },
        Interpolation::Sinc => {
            assert(sinc_sums(buf, i0, f, -3) == (0int, 0int));
            assert(sinc_sums(buf, i0, f, -2) == (0int, 0int));
            assert(sinc_sums(buf, i0, f, -1) == (0int, 0int));
            assert(sinc_sums(buf, i0, f, 0) == (0int, 0int));
            assert(sinc_sums(buf, i0, f, 1) == (0int, 0int));
            assert(sinc_sums(buf, i0, f, 2) == (0int, 0int));
        },
    }
}

} // verus!
