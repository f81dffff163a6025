//! Trigonometry on fixed-point angles in degrees.
//!
//! Angles are micro-degrees; results are fixed-point scalars in
//! `[-SCALE, SCALE]`. The half-turn sine uses Bhaskara's rational
//! approximation `4 x (180 - x) / (40500 - x (180 - x))`, which is exact at
//! 0, 30, 90, 150 and 180 degrees and within about 0.002 elsewhere; the
//! full turn folds by sign, and the cosine is the sine a quarter turn ahead.
//! Each function is pinned to its mirror spec exactly.

use vstd::prelude::*;
use crate::fixed::{SCALE, div_fx, fx_div};

verus! {

/// Micro-degrees in a full turn.
pub const TURN: i64 = 360_000_000;

/// Micro-degrees in a half turn.
pub const HALF_TURN: i64 = 180_000_000;

/// An angle folded into `[0, TURN)`.
pub open spec fn wrap_deg(d: int) -> int {
    d % (TURN as int)
}

/// Bhaskara's sine on `[0, HALF_TURN]`, scaled to `[0, SCALE]`.
pub open spec fn sin_half(d: int) -> int
    recommends
        0 <= d <= HALF_TURN,
{
    let u = (d * (HALF_TURN - d)) / (SCALE as int);
    (4 * u * SCALE) / (40_500_000_000 - u)
}

/// Sine of an angle in micro-degrees, scaled to `[-SCALE, SCALE]`.
pub open spec fn sin_fx(d: int) -> int {
    let m = wrap_deg(d);
    if m <= HALF_TURN {
        sin_half(m)
    } else {
        -sin_half(m - HALF_TURN)
    }
}

/// Cosine: the sine a quarter turn ahead.
pub open spec fn cos_fx(d: int) -> int {
    sin_fx(d + 90_000_000)
}

/// Tangent, saturating where the cosine vanishes.
pub open spec fn tan_fx(d: int) -> int {
    div_fx(sin_fx(d), cos_fx(d))
}

/// Fold an angle into `[0, TURN)`.
fn mod_turn(d: i64) -> (m: i64)
    ensures
        m as int == wrap_deg(d as int),
        0 <= m < TURN,
{
    if d >= 0 {
        let m = ((d as u64) % (TURN as u64)) as i64;
        m
    } else {
        let p = (((-(d as i128)) as u128) % (TURN as u128)) as i64;
        let m = if p == 0 {
            0
        } else {
            TURN - p
        };
        proof {
            let t = TURN as int;
            let n = -(d as int);
            vstd::arithmetic::div_mod::lemma_fundamental_div_mod(n, t);
            // d == -(n / t) * t - (n % t); rewrite as a quotient and remainder for d
            if n % t == 0 {
                assert(d as int == (-(n / t)) * t + 0) by (nonlinear_arith)
                    requires
                        n == (n / t) * t,
                        d as int == -n,
                {
                }
                vstd::arithmetic::div_mod::lemma_mod_multiples_basic(-(n / t), t);
            } else {
                assert(d as int == (-(n / t) - 1) * t + (t - n % t)) by (nonlinear_arith)
                    requires
                        n == (n / t) * t + n % t,
                        d as int == -n,
                {
                }
                vstd::arithmetic::div_mod::lemma_fundamental_div_mod_converse(
                    d as int, t, -(n / t) - 1, t - n % t);
            }
        }
        m
    }
}

/// Bhaskara's sine on the first half turn.
fn sin_half_exec(d: i64) -> (r: i64)
    requires
        0 <= d <= HALF_TURN,
    ensures
        r as int == sin_half(d as int),
        0 <= r <= SCALE,
{
    proof {
        assert(0 <= (d as int) * (HALF_TURN - d as int) <= 8_100_000_000_000_000)
            by (nonlinear_arith)
            requires
                0 <= d as int <= 180_000_000,
        {
        }
    }
    let u: u64 = ((d as u64) * ((HALF_TURN - d) as u64)) / (SCALE as u64);
    proof {
        vstd::arithmetic::div_mod::lemma_div_is_ordered(
            (d as int) * (HALF_TURN - d as int), 8_100_000_000_000_000, SCALE as int);
    }
    let num: u64 = 4 * u * (SCALE as u64);
    let den: u64 = 40_500_000_000 - u;
    let r = (num / den) as i64;
    proof {
        // 4 u SCALE <= SCALE (40_500_000_000 - u)  since 5 u <= 40_500_000_000
        assert(4 * (u as int) * (SCALE as int)
            <= (SCALE as int) * (40_500_000_000 - u as int)) by (nonlinear_arith)
            requires
                0 <= u as int <= 8_100_000_000,
        {
        }
        vstd::arithmetic::div_mod::lemma_div_is_ordered(
            4 * (u as int) * (SCALE as int),
            (SCALE as int) * (40_500_000_000 - u as int),
            40_500_000_000 - u as int);
        vstd::arithmetic::div_mod::lemma_div_by_multiple(
            SCALE as int, 40_500_000_000 - u as int);
    }
    r
}

/// Sine of an angle in micro-degrees.
pub fn fx_sin_deg(d: i64) -> (r: i64)
    ensures
        r as int == sin_fx(d as int),
        -SCALE <= r <= SCALE,
{
    let m = mod_turn(d);
    if m <= HALF_TURN {
        sin_half_exec(m)
    } else {
        -sin_half_exec(m - HALF_TURN)
    }
}

/// Cosine of an angle in micro-degrees.
pub fn fx_cos_deg(d: i64) -> (r: i64)
    ensures
        r as int == cos_fx(d as int),
        -SCALE <= r <= SCALE,
{
    // shift by a quarter turn without overflowing, backing up a full turn
    // first where the shift would not fit
    let dd = if d >= i64::MAX - 90_000_000 {
        d - TURN
    } else {
        d
    };
    let m = mod_turn(dd + 90_000_000);
    proof {
        if dd != d {
            vstd::arithmetic::div_mod::lemma_mod_multiples_vanish(
                -1, d as int + 90_000_000, TURN as int);
        }
    }
    if m <= HALF_TURN {
        sin_half_exec(m)
    } else {
        -sin_half_exec(m - HALF_TURN)
    }
}

/// Tangent of an angle in micro-degrees.
pub fn fx_tan_deg(d: i64) -> (r: i64)
    ensures
        r as int == tan_fx(d as int),
{
    let s = fx_sin_deg(d);
    let c = fx_cos_deg(d);
    fx_div(s, c)
}

} // verus!
