//! Q15 fixed-point arithmetic: the numeric ground the whole synthesizer
//! stands on.
//!
//! A sample value of one is represented by [`ONE`] (`32768`); a fractional
//! sample index carries its fractional part in the low fifteen bits of an
//! `i64`.  All divisions in the engine are specified exactly, either as
//! Euclidean division (Verus's `/` on `int`) or as round-toward-zero
//! division ([`div_t`], the semantics of Rust's `/`).

use vstd::prelude::*;

verus! {

use vstd::math::abs;

/// One in Q15: the fixed-point image of the sample value 1.0.
pub const ONE: i32 = 32768;

/// One half in Q15.
pub const HALF: i32 = 16384;

/// Round-toward-zero division, the semantics of Rust's `/` on integers.
pub open spec fn div_t(a: int, b: int) -> int {
    if b > 0 {
        if a >= 0 {
            a / b
        } else {
            -((-a) / b)
        }
    } else {
        if a >= 0 {
            -(a / (-b))
        } else {
            (-a) / (-b)
        }
    }
}

/// Saturation of a mathematical integer into the `i32` range.
pub open spec fn sat32(v: int) -> int {
    if v > i32::MAX {
        i32::MAX as int
    } else if v < i32::MIN {
        i32::MIN as int
    } else {
        v
    }
}

/// Clamp `v` into the saturated `i32` range.
pub fn saturate_i32(v: i64) -> (r: i32)
    ensures
        r == sat32(v as int),
{
    if v > i32::MAX as i64 {
        i32::MAX
    } else if v < i32::MIN as i64 {
        i32::MIN
    } else {
        v as i32
    }
}

/// Round-toward-zero division on machine words, proved equal to [`div_t`].
pub fn div_trunc(a: i64, b: i64) -> (q: i64)
    requires
        b != 0,
        a != i64::MIN,
        b != i64::MIN,
    ensures
        q == div_t(a as int, b as int),
{
    let na: i64 = if a >= 0 { a } else { -a };
    let nb: i64 = if b > 0 { b } else { -b };
    let q0 = na / nb;
    if (a >= 0) == (b > 0) {
        q0
    } else {
        -q0
    }
}

/// Floor of a Q15 index: Euclidean division by [`ONE`].
pub fn floor_q15(x: i64) -> (q: i64)
    requires
        x > i64::MIN + 32768,
    ensures
        q == x as int / 32768,
{
    if x >= 0 {
        x / 32768
    } else {
        -((-x + 32767) / 32768)
    }
}

/// Fractional part of a Q15 index: Euclidean remainder by [`ONE`].
pub fn frac_q15(x: i64) -> (r: i64)
    requires
        x > i64::MIN + 32768,
    ensures
        r == x as int % 32768,
        0 <= r < 32768,
{
    let q = floor_q15(x);
    let r = x - q * 32768;
    assert(x as int % 32768 == x - (x as int / 32768) * 32768) by {
        vstd::arithmetic::div_mod::lemma_fundamental_div_mod(x as int, 32768);
    }
    r
}

/// A product of bounded factors is bounded: `|a b| <= ax bx`.
pub proof fn lemma_mul_bounds(a: int, b: int, ax: int, bx: int)
    requires
        abs(a) <= ax,
        abs(b) <= bx,
    ensures
        -(ax * bx) <= a * b <= ax * bx,
{
    assert(-(ax * bx) <= a * b <= ax * bx) by (nonlinear_arith)
        requires
            -ax <= a <= ax,
            -bx <= b <= bx,
    ;
}

/// Round-toward-zero division is bounded by any multiple of the divisor
/// that bounds the dividend.
pub proof fn lemma_div_t_bound(a: int, b: int, k: int)
    requires
        b != 0,
        0 <= k,
        abs(a) <= k * abs(b),
    ensures
        -k <= div_t(a, b) <= k,
{
    let na = abs(a) as int;
    let nb = abs(b) as int;
    vstd::arithmetic::div_mod::lemma_div_pos_is_pos(na, nb);
    vstd::arithmetic::div_mod::lemma_div_is_ordered(na, k * nb, nb);
    vstd::arithmetic::div_mod::lemma_div_multiples_vanish(k, nb);
    assert(k * nb == nb * k) by (nonlinear_arith);
    assert(na / nb <= k);
    assert(div_t(a, b) == na / nb || div_t(a, b) == -(na / nb));
}

/// Round-toward-zero division undoes an exact multiplication:
/// `div_t(b c, c) == b` for positive `c`.
pub proof fn lemma_div_t_cancel(b: int, c: int)
    requires
        0 < c,
    ensures
        div_t(b * c, c) == b,
{
    if b >= 0 {
        vstd::arithmetic::div_mod::lemma_div_multiples_vanish(b, c);
        assert(b * c == c * b) by (nonlinear_arith);
    } else {
        vstd::arithmetic::div_mod::lemma_div_multiples_vanish(-b, c);
        assert(-(b * c) == c * (-b)) by (nonlinear_arith);
        assert(div_t(b * c, c) == -((-(b * c)) / c));
    }
}

/// Q15 sine over a quarter wave: the value of `sin(pi * s / ONE)` for
/// `s` in `[0, HALF]`, by the rational approximation
/// `16 t (1 - t) / (5 - 4 t (1 - t))` with `t = s / ONE`.
pub open spec fn sin_quarter(s: int) -> int {
    let u = s * (32768 - s);
    (16 * u * 32768) / (5 * 32768 * 32768 - 4 * u)
}

/// Q15 sine of a half-turn-scaled argument: the value of
/// `sin(pi * x / ONE)` for any `x`, reduced by periodicity and symmetry
/// to a quarter wave.
pub open spec fn sin_half_turns(x: int) -> int {
    let m = x % 65536;
    let t = if m >= 32768 {
        m - 32768
    } else {
        m
    };
    let s = if t > 16384 {
        32768 - t
    } else {
        t
    };
    if m >= 32768 {
        -sin_quarter(s)
    } else {
        sin_quarter(s)
    }
}

/// Bounds of the quarter-wave sine: it stays within `[0, ONE]`, never
/// exceeds four times its argument, and peaks exactly at `HALF`.
pub proof fn lemma_sin_quarter_bounds(s: int)
    requires
        0 <= s <= 16384,
    ensures
        0 <= sin_quarter(s) <= 32768,
        sin_quarter(s) <= 4 * s,
        s == 16384 ==> sin_quarter(s) == 32768,
{
    let u = s * (32768 - s);
    let num = 16 * u * 32768;
    let den = 5 * 32768 * 32768 - 4 * u;
    assert(0 <= u <= 16384 * 16384) by (nonlinear_arith)
        requires
            0 <= s <= 16384,
            u == s * (32768 - s),
    ;
    assert(den >= 4 * 32768 * 32768);
    assert(num >= 0) by (nonlinear_arith)
        requires
            u >= 0,
            num == 16 * u * 32768,
    ;
    vstd::arithmetic::div_mod::lemma_div_pos_is_pos(num, den);
    assert(num <= 32768 * den) by (nonlinear_arith)
        requires
            u <= 16384 * 16384,
            num == 16 * u * 32768,
            den == 5 * 32768 * 32768 - 4 * u,
    ;
    vstd::arithmetic::div_mod::lemma_div_is_ordered(num, 32768 * den, den);
    vstd::arithmetic::div_mod::lemma_div_multiples_vanish(32768, den);
    assert(num <= 4 * s * den) by (nonlinear_arith)
        requires
            0 <= s <= 16384,
            u == s * (32768 - s),
            num == 16 * u * 32768,
            den == 5 * 32768 * 32768 - 4 * u,
    ;
    vstd::arithmetic::div_mod::lemma_div_is_ordered(num, 4 * s * den, den);
    vstd::arithmetic::div_mod::lemma_div_multiples_vanish(4 * s, den);
    if s == 16384 {
        assert(u == 268435456);
        assert(sin_quarter(s) == 140737488355328int / 4294967296int);
    }
}

/// Small arguments give small sines: `|sin_half_turns(x)| <= 4 |x|`
/// within the central quarter wave.
pub proof fn lemma_sin_small(x: int)
    requires
        -16384 <= x <= 16384,
    ensures
        -4 * abs(x) <= sin_half_turns(x) <= 4 * abs(x),
{
    if x >= 0 {
        vstd::arithmetic::div_mod::lemma_small_mod(x as nat, 65536);
        lemma_sin_quarter_bounds(x);
    } else {
        assert(x % 65536 == x + 65536) by {
            vstd::arithmetic::div_mod::lemma_fundamental_div_mod_converse(x, 65536, -1, x + 65536);
        }
        let m = x + 65536;
        let t = m - 32768;
        let s = 32768 - t;
        assert(s == -x);
        lemma_sin_quarter_bounds(s);
    }
}

/// Q15 sine, reduced by periodicity and computed on the quarter wave.
pub fn sin_q15(x: i64) -> (r: i32)
    requires
        -0x4000_0000_0000_0000 < x < 0x4000_0000_0000_0000,
    ensures
        r == sin_half_turns(x as int),
        -32768 <= r <= 32768,
{
    let m: i64 = if x >= 0 {
        x % 65536
    } else {
        let w = (-x) % 65536;
        if w == 0 {
            0
        } else {
            65536 - w
        }
    };
    proof {
        let xi = x as int;
        if xi < 0 {
            let w = (-xi) % 65536;
            vstd::arithmetic::div_mod::lemma_fundamental_div_mod(-xi, 65536);
            if w == 0 {
                vstd::arithmetic::div_mod::lemma_fundamental_div_mod_converse(
                    xi,
                    65536,
                    -((-xi) / 65536),
                    0,
                );
            } else {
                vstd::arithmetic::div_mod::lemma_mod_pos_bound(-xi, 65536);
                vstd::arithmetic::div_mod::lemma_fundamental_div_mod_converse(
                    xi,
                    65536,
                    -((-xi) / 65536) - 1,
                    65536 - w,
                );
            }
        } else {
            vstd::arithmetic::div_mod::lemma_mod_pos_bound(xi, 65536);
        }
    }
    let t: i64 = if m >= 32768 {
        m - 32768
    } else {
        m
    };
    let s: i64 = if t > HALF as i64 {
        32768 - t
    } else {
        t
    };
    let mag = sin_quarter_q15(s as i32);
    if m >= 32768 {
        -mag
    } else {
        mag
    }
}

/// The quarter-wave sine on machine words.
pub fn sin_quarter_q15(s: i32) -> (r: i32)
    requires
        0 <= s <= 16384,
    ensures
        r == sin_quarter(s as int),
        0 <= r <= 32768,
        r <= 4 * s,
{
    proof {
        assert(0 <= (s as i64) * (32768 - s as i64) <= 16384 * 16384) by (nonlinear_arith)
            requires
                0 <= s <= 16384,
        ;
    }
    let u: i64 = (s as i64) * (32768 - s as i64);
    let num: i64 = 16 * u * 32768;
    let den: i64 = 5 * 32768 * 32768 - 4 * u;
    let q = num / den;
    proof {
        lemma_sin_quarter_bounds(s as int);
    }
    q as i32
}

} // verus!
