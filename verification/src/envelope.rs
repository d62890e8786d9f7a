//! The raised-cosine (Hann) grain envelope.
//!
//! The classical form `0.5 + 0.5 cos(pi (2 i / N - 1))` equals
//! `sin(pi i / N)` squared; the latter reduces every index to the first
//! quarter wave exactly, which makes the window's symmetry a fact of the
//! construction rather than of rounding.

use vstd::prelude::*;

verus! {

use crate::fixed::{sin_quarter, sin_quarter_q15, lemma_sin_quarter_bounds, lemma_mul_bounds};

/// Longest envelope the engine accepts.
pub const MAX_ENVELOPE_LEN: usize = 65536;

/// The Q15 value of the raised-cosine window of length `size` at index
/// `i`: `sin(pi i / size)` squared.
pub open spec fn env_value(i: int, size: int) -> int {
    let s = if i <= size - i {
        i
    } else {
        size - i
    };
    let t = (s * 32768) / size;
    let v = sin_quarter(t);
    (v * v) / 32768
}

/// The reduced quarter-wave argument stays within `[0, HALF]`.
proof fn lemma_env_t_range(i: int, size: int)
    requires
        1 <= size,
        0 <= i < size,
    ensures
        ({
            let s = if i <= size - i {
                i
            } else {
                size - i
            };
            0 <= (s * 32768) / size <= 16384
        }),
{
    let s = if i <= size - i {
        i
    } else {
        size - i
    };
    assert(0 <= s);
    assert(2 * s <= size);
    assert(s * 32768 <= size * 16384);
    vstd::arithmetic::div_mod::lemma_div_is_ordered(s * 32768, size * 16384, size);
    vstd::arithmetic::div_mod::lemma_div_multiples_vanish(16384, size);
    vstd::arithmetic::div_mod::lemma_div_pos_is_pos(s * 32768, size);
}

/// Every envelope sample lies in `[0, ONE]`.
pub proof fn lemma_env_value_bounds(i: int, size: int)
    requires
        1 <= size,
        0 <= i < size,
    ensures
        0 <= env_value(i, size) <= 32768,
{
    let s = if i <= size - i {
        i
    } else {
        size - i
    };
    let t = (s * 32768) / size;
    lemma_env_t_range(i, size);
    lemma_sin_quarter_bounds(t);
    let v = sin_quarter(t);
    lemma_mul_bounds(v, v, 32768, 32768);
    assert(v * v >= 0) by (nonlinear_arith)
        requires
            v >= 0,
    ;
    vstd::arithmetic::div_mod::lemma_div_pos_is_pos(v * v, 32768);
    vstd::arithmetic::div_mod::lemma_div_is_ordered(v * v, 32768int * 32768, 32768);
    vstd::arithmetic::div_mod::lemma_div_multiples_vanish(32768, 32768);
}

/// The window is symmetric about its midpoint: sample `i` equals sample
/// `size - i` for every interior index.
pub proof fn lemma_envelope_symmetric(i: int, size: int)
    requires
        1 <= i < size,
    ensures
        env_value(i, size) == env_value(size - i, size),
{
}

/// The window starts at zero and, for even lengths, reaches its full
/// height exactly at the midpoint; no sample exceeds that height.
pub proof fn lemma_envelope_peak(size: int)
    requires
        2 <= size,
    ensures
        env_value(0, size) == 0,
        size % 2 == 0 ==> env_value(size / 2, size) == 32768,
{
    assert(sin_quarter(0) == 0) by {
        assert((16 * (0int * 32768) * 32768) / (5 * 32768 * 32768 - 4 * (0int * 32768)) == 0);
    }
    assert((0int * 0) / 32768 == 0);
    assert((0int * 32768) / size == 0) by {
        vstd::arithmetic::div_mod::lemma_div_of0(size);
    }
    if size % 2 == 0 {
        let h = size / 2;
        vstd::arithmetic::div_mod::lemma_fundamental_div_mod(size, 2);
        assert(size == 2 * h);
        assert(h <= size - h);
        assert(h * 32768 == size * 16384);
        vstd::arithmetic::div_mod::lemma_div_multiples_vanish(16384, size);
        assert((h * 32768) / size == 16384);
        lemma_sin_quarter_bounds(16384);
        assert(sin_quarter(16384) == 32768);
        vstd::arithmetic::div_mod::lemma_div_multiples_vanish(32768, 32768);
        assert((32768int * 32768) / 32768 == 32768);
    }
}

/// Near the ends the window is nearly closed: for lengths of at least
/// sixty-four, the last sample is at most `128` (about four thousandths
/// of full height).
pub proof fn lemma_envelope_edge(size: int)
    requires
        64 <= size,
    ensures
        env_value(size - 1, size) == env_value(1, size),
        env_value(1, size) <= 128,
{
    lemma_envelope_symmetric(1, size);
    let t = (1int * 32768) / size;
    vstd::arithmetic::div_mod::lemma_div_is_ordered_by_denominator(32768, 64, size);
    vstd::arithmetic::div_mod::lemma_div_pos_is_pos(32768, size);
    assert(0 <= t <= 512);
    lemma_env_t_range(1, size);
    lemma_sin_quarter_bounds(t);
    let v = sin_quarter(t);
    assert(v <= 2048);
    lemma_mul_bounds(v, v, 2048, 2048);
    assert(v * v >= 0) by (nonlinear_arith)
        requires
            v >= 0,
    ;
    vstd::arithmetic::div_mod::lemma_div_is_ordered(v * v, 2048int * 2048, 32768);
    vstd::arithmetic::div_mod::lemma_div_pos_is_pos(v * v, 32768);
    assert((2048int * 2048) / 32768 == 128);
}

/// Fill a raised-cosine window of the requested length.
pub fn generate_envelope(size: usize) -> (env: Vec<i32>)
    requires
        size <= MAX_ENVELOPE_LEN,
    ensures
        env@.len() == size,
        forall|i: int| 0 <= i < size ==> env@[i] == env_value(i, size as int),
        forall|i: int| 0 <= i < size ==> 0 <= #[trigger] env@[i] <= 32768,
{
    let mut env: Vec<i32> = Vec::new();
    if size == 0 {
        return env;
    }
    let mut i: usize = 0;
    while i < size
        invariant
            0 < size <= MAX_ENVELOPE_LEN,
            i <= size,
            env@.len() == i,
            forall|k: int| 0 <= k < i ==> env@[k] == env_value(k, size as int),
            forall|k: int| 0 <= k < i ==> 0 <= #[trigger] env@[k] <= 32768,
        decreases size - i,
    {
        let s: u64 = if i <= size - i {
            i as u64
        } else {
            (size - i) as u64
        };
        proof {
            lemma_env_t_range(i as int, size as int);
        }
        let t: u64 = (s * 32768) / (size as u64);
        let v = sin_quarter_q15(t as i32);
        proof {
            lemma_env_value_bounds(i as int, size as int);
            lemma_mul_bounds(v as int, v as int, 32768, 32768);
            assert((v as i64) * (v as i64) >= 0) by (nonlinear_arith)
                requires
                    v >= 0,
            ;
        }
        let e: i64 = ((v as i64) * (v as i64)) / 32768;
        env.push(e as i32);
        i = i + 1;
    }
    env
}

} // verus!
