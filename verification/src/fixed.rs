//! Saturating fixed-point scalars.
//!
//! A scalar is an `i64` counting ticks of one millionth of a world unit
//! (`SCALE` ticks per unit). Every operation saturates at `FX_MAX`; a
//! division by zero yields the saturation bound with the sign of the
//! dividend, the model's stand-in for a signed infinity. All operations are
//! total and each one is pinned to its mathematical mirror (`sat_fx`,
//! `div_trunc`, ...) by an exact postcondition.

use vstd::prelude::*;

verus! {

/// Ticks per world unit.
pub const SCALE: i64 = 1_000_000;

/// Largest representable magnitude: one billion world units.
pub const FX_MAX: i64 = 1_000_000_000_000_000;

/// A value the model can hold.
pub open spec fn fx_ok(a: int) -> bool {
    -FX_MAX <= a <= FX_MAX
}

/// Clamp an unbounded intermediate into the representable range.
pub open spec fn sat_fx(x: int) -> int {
    if x > FX_MAX {
        FX_MAX as int
    } else if x < -FX_MAX {
        -(FX_MAX as int)
    } else {
        x
    }
}

/// Division rounding toward zero, as the hardware divides.
pub open spec fn div_trunc(a: int, b: int) -> int
    recommends
        b != 0,
{
    if (a >= 0) == (b >= 0) {
        abs_int(a) / abs_int(b)
    } else {
        -(abs_int(a) / abs_int(b))
    }
}

pub open spec fn abs_int(a: int) -> int {
    if a >= 0 {
        a
    } else {
        -a
    }
}

/// Saturating sum.
pub open spec fn add_fx(a: int, b: int) -> int {
    sat_fx(a + b)
}

/// Saturating difference.
pub open spec fn sub_fx(a: int, b: int) -> int {
    sat_fx(a - b)
}

/// Saturating fixed-point product: `a * b / SCALE` rounded toward zero.
pub open spec fn mul_fx(a: int, b: int) -> int {
    sat_fx(div_trunc(a * b, SCALE as int))
}

/// Saturating fixed-point quotient: `a * SCALE / b` rounded toward zero;
/// a zero divisor saturates with the sign of `a`.
pub open spec fn div_fx(a: int, b: int) -> int {
    if b == 0 {
        if a > 0 {
            FX_MAX as int
        } else if a < 0 {
            -(FX_MAX as int)
        } else {
            0
        }
    } else {
        sat_fx(div_trunc(a * SCALE, b))
    }
}

pub open spec fn neg_fx(a: int) -> int {
    sat_fx(-a)
}

pub open spec fn min_fx(a: int, b: int) -> int {
    if a <= b {
        a
    } else {
        b
    }
}

pub open spec fn max_fx(a: int, b: int) -> int {
    if a >= b {
        a
    } else {
        b
    }
}

/// Clamp a scalar into `[0, SCALE]`, the unit color interval.
pub open spec fn clamp01_fx(a: int) -> int {
    if a < 0 {
        0
    } else if a > SCALE {
        SCALE as int
    } else {
        a
    }
}

/// Clamp an `i128` intermediate back into the representable `i64` range.
fn sat64(x: i128) -> (r: i64)
    ensures
        r as int == sat_fx(x as int),
{
    if x > FX_MAX as i128 {
        FX_MAX
    } else if x < -(FX_MAX as i128) {
        -FX_MAX
    } else {
        x as i64
    }
}

/// Quotient rounded toward zero, by way of unsigned division.
fn dt128(a: i128, b: i128) -> (r: i128)
    requires
        b > 0,
        a > i128::MIN,
    ensures
        r == div_trunc(a as int, b as int),
        abs_int(r as int) <= abs_int(a as int),
{
    if a >= 0 {
        let q: u128 = (a as u128) / (b as u128);
        assert(q <= a as u128) by {
            vstd::arithmetic::div_mod::lemma_div_is_ordered_by_denominator(
                a as int, 1, b as int);
        }
        q as i128
    } else {
        let q: u128 = ((-a) as u128) / (b as u128);
        assert(q <= (-a) as u128) by {
            vstd::arithmetic::div_mod::lemma_div_is_ordered_by_denominator(
                -(a as int), 1, b as int);
        }
        -(q as i128)
    }
}

/// Scale a wide intermediate down by `SCALE` and clamp it, as a dot
/// product's sum of products comes back into range.
pub(crate) fn fx_sat_div_scale(sum: i128) -> (r: i64)
    requires
        sum > i128::MIN,
    ensures
        r as int == sat_fx(div_trunc(sum as int, SCALE as int)),
{
    sat64(dt128(sum, SCALE as i128))
}

pub fn fx_add(a: i64, b: i64) -> (r: i64)
    ensures
        r as int == add_fx(a as int, b as int),
        fx_ok(r as int),
{
    sat64(a as i128 + b as i128)
}

pub fn fx_sub(a: i64, b: i64) -> (r: i64)
    ensures
        r as int == sub_fx(a as int, b as int),
        fx_ok(r as int),
{
    sat64(a as i128 - b as i128)
}

pub fn fx_neg(a: i64) -> (r: i64)
    ensures
        r as int == neg_fx(a as int),
        fx_ok(r as int),
{
    sat64(-(a as i128))
}

pub fn fx_mul(a: i64, b: i64) -> (r: i64)
    ensures
        r as int == mul_fx(a as int, b as int),
        fx_ok(r as int),
{
    proof {
        assert(-0x4000_0000_0000_0000_0000_0000_0000_0000 <= (a as int) * (b as int)
            <= 0x4000_0000_0000_0000_0000_0000_0000_0000) by (nonlinear_arith)
            requires
                -0x8000_0000_0000_0000 <= (a as int),
                (a as int) < 0x8000_0000_0000_0000,
                -0x8000_0000_0000_0000 <= (b as int),
                (b as int) < 0x8000_0000_0000_0000,
        {
        }
    }
    let p: i128 = (a as i128) * (b as i128);
    sat64(dt128(p, SCALE as i128))
}

pub fn fx_div(a: i64, b: i64) -> (r: i64)
    ensures
        r as int == div_fx(a as int, b as int),
        fx_ok(r as int),
{
    if b == 0 {
        if a > 0 {
            FX_MAX
        } else if a < 0 {
            -FX_MAX
        } else {
            0
        }
    } else {
        proof {
            assert((a as int) * (SCALE as int) == (a as int) * 1_000_000);
            assert((a as int) * 1_000_000 > i128::MIN);
            assert((a as int) * 1_000_000 < i128::MAX);
        }
        let p: i128 = (a as i128) * (SCALE as i128);
        if b > 0 {
            sat64(dt128(p, b as i128))
        } else {
            let q = dt128(p, -(b as i128));
            assert(div_trunc(p as int, b as int) == -div_trunc(p as int, -(b as int)));
            sat64(-q)
        }
    }
}

pub fn fx_min(a: i64, b: i64) -> (r: i64)
    ensures
        r as int == min_fx(a as int, b as int),
{
    if a <= b {
        a
    } else {
        b
    }
}

pub fn fx_max(a: i64, b: i64) -> (r: i64)
    ensures
        r as int == max_fx(a as int, b as int),
{
    if a >= b {
        a
    } else {
        b
    }
}

pub fn fx_clamp01(a: i64) -> (r: i64)
    ensures
        r as int == clamp01_fx(a as int),
        0 <= r <= SCALE,
{
    if a < 0 {
        0
    } else if a > SCALE {
        SCALE
    } else {
        a
    }
}

pub open spec fn abs_fx(a: int) -> int {
    if a >= 0 {
        a
    } else {
        sat_fx(-a)
    }
}

pub fn fx_abs(a: i64) -> (r: i64)
    ensures
        r as int == abs_fx(a as int),
        r >= 0,
{
    if a >= 0 {
        a
    } else {
        fx_neg(a)
    }
}

/// Halve toward zero.
pub open spec fn half_fx(a: int) -> int {
    div_trunc(a, 2)
}

pub fn fx_half(a: i64) -> (r: i64)
    ensures
        r as int == half_fx(a as int),
{
    let q = dt128(a as i128, 2);
    proof {
        assert(abs_int(q as int) <= abs_int(a as int));
    }
    q as i64
}

/// Clamp into `[-SCALE, SCALE]`, the unit interval of a cosine.
pub open spec fn clamp_unit_fx(a: int) -> int {
    if a < -SCALE {
        -(SCALE as int)
    } else if a > SCALE {
        SCALE as int
    } else {
        a
    }
}

pub fn fx_clamp_unit(a: i64) -> (r: i64)
    ensures
        r as int == clamp_unit_fx(a as int),
        -SCALE <= r <= SCALE,
{
    if a < -SCALE {
        -SCALE
    } else if a > SCALE {
        SCALE
    } else {
        a
    }
}

/// Fifth power, as the Fresnel approximation raises its grazing term.
pub open spec fn pow5_fx(a: int) -> int {
    let a2 = mul_fx(a, a);
    let a4 = mul_fx(a2, a2);
    mul_fx(a4, a)
}

pub fn fx_pow5(a: i64) -> (r: i64)
    ensures
        r as int == pow5_fx(a as int),
        fx_ok(r as int),
{
    let a2 = fx_mul(a, a);
    let a4 = fx_mul(a2, a2);
    fx_mul(a4, a)
}

/// Sixty-fourth power, the specular highlight exponent, by six squarings.
pub open spec fn pow64_fx(a: int) -> int {
    let p1 = mul_fx(a, a);
    let p2 = mul_fx(p1, p1);
    let p3 = mul_fx(p2, p2);
    let p4 = mul_fx(p3, p3);
    let p5 = mul_fx(p4, p4);
    mul_fx(p5, p5)
}

pub fn fx_pow64(a: i64) -> (r: i64)
    ensures
        r as int == pow64_fx(a as int),
        fx_ok(r as int),
{
    let p1 = fx_mul(a, a);
    let p2 = fx_mul(p1, p1);
    let p3 = fx_mul(p2, p2);
    let p4 = fx_mul(p3, p3);
    let p5 = fx_mul(p4, p4);
    fx_mul(p5, p5)
}

/// Decaying exponential `exp(-a)`, by the compound-interest limit:
/// `(1 - a/1024)^1024`, the base floored at zero, with ten squarings.
pub open spec fn exp_neg_fx(a: int) -> int {
    let t = max_fx(sub_fx(SCALE as int, div_trunc(a, 1024)), 0);
    let e1 = mul_fx(t, t);
    let e2 = mul_fx(e1, e1);
    let e3 = mul_fx(e2, e2);
    let e4 = mul_fx(e3, e3);
    let e5 = mul_fx(e4, e4);
    let e6 = mul_fx(e5, e5);
    let e7 = mul_fx(e6, e6);
    let e8 = mul_fx(e7, e7);
    let e9 = mul_fx(e8, e8);
    mul_fx(e9, e9)
}

pub fn fx_exp_neg(a: i64) -> (r: i64)
    ensures
        r as int == exp_neg_fx(a as int),
        a >= 0 ==> 0 <= r <= SCALE,
{
    let q = dt128(a as i128, 1024);
    proof {
        assert(abs_int(q as int) <= abs_int(a as int));
    }
    let t = fx_max(fx_sub(SCALE, q as i64), 0);
    let e1 = fx_mul(t, t);
    let e2 = fx_mul(e1, e1);
    let e3 = fx_mul(e2, e2);
    let e4 = fx_mul(e3, e3);
    let e5 = fx_mul(e4, e4);
    let e6 = fx_mul(e5, e5);
    let e7 = fx_mul(e6, e6);
    let e8 = fx_mul(e7, e7);
    let e9 = fx_mul(e8, e8);
    let e10 = fx_mul(e9, e9);
    proof {
        if a >= 0 {
            lemma_exp_neg_unit(a as int);
        }
    }
    e10
}

/// Three-quarter power on the unit interval, the sky gradient's blend
/// exponent, as a square root of `a^(3/2)`.
pub open spec fn pow34_fx(a: int) -> int {
    sqrt_fx(mul_fx(a, sqrt_fx(a)))
}

pub fn fx_pow34(a: i64) -> (r: i64)
    ensures
        r as int == pow34_fx(a as int),
        r >= 0,
        0 <= a <= SCALE ==> r <= SCALE,
{
    let s1 = fx_sqrt(a);
    proof {
        if 0 <= a <= SCALE {
            lemma_sqrt_fx_unit(a as int);
        }
    }
    let m = fx_mul(a, s1);
    proof {
        if 0 <= a <= SCALE {
            lemma_mul_fx_unit(a as int, s1 as int);
        }
    }
    let r = fx_sqrt(m);
    proof {
        if 0 <= a <= SCALE {
            lemma_sqrt_fx_unit(m as int);
        }
    }
    r
}

/// The square root of a unit-interval value stays in the unit interval.
pub proof fn lemma_sqrt_fx_unit(a: int)
    requires
        a <= SCALE,
    ensures
        0 <= sqrt_fx(a) <= SCALE,
{
    if a > 0 {
        let n = (a * SCALE) as nat;
        lemma_isqrt_bounds(n);
        let r = isqrt_spec(n);
        assert(a * SCALE <= 1_000_000_000_000);
        if r > SCALE {
            assert(r * r > 1_000_000_000_000) by (nonlinear_arith)
                requires
                    r > 1_000_000,
            {
            }
        }
    }
}

/// Division rounding toward zero is exact on whole multiples.
pub proof fn lemma_div_trunc_exact(b: int, d: int)
    requires
        d > 0,
    ensures
        div_trunc(b * d, d) == b,
{
    if b >= 0 {
        vstd::arithmetic::div_mod::lemma_div_by_multiple(b, d);
        assert(b * d >= 0 && abs_int(b * d) == b * d) by (nonlinear_arith)
            requires
                b >= 0,
                d > 0,
        {
        }
    } else {
        vstd::arithmetic::div_mod::lemma_div_by_multiple(-b, d);
        assert(b * d < 0 && abs_int(b * d) == (-b) * d) by (nonlinear_arith)
            requires
                b < 0,
                d > 0,
        {
        }
        assert(div_trunc(b * d, d) == -(((-b) * d) / d));
    }
}

/// A fixed-point product of unit-interval factors stays in the unit
/// interval, below either factor.
pub proof fn lemma_mul_fx_unit(a: int, b: int)
    requires
        0 <= a <= SCALE,
        0 <= b <= SCALE,
    ensures
        0 <= mul_fx(a, b),
        mul_fx(a, b) <= a,
        mul_fx(a, b) <= b,
{
    assert(0 <= a * b <= a * SCALE && a * b <= b * SCALE) by (nonlinear_arith)
        requires
            0 <= a <= SCALE,
            0 <= b <= SCALE,
    {
    }
    assert(abs_int(a * b) == a * b);
    vstd::arithmetic::div_mod::lemma_div_is_ordered(a * b, a * (SCALE as int), SCALE as int);
    vstd::arithmetic::div_mod::lemma_div_is_ordered(a * b, b * (SCALE as int), SCALE as int);
    vstd::arithmetic::div_mod::lemma_div_by_multiple(a, SCALE as int);
    vstd::arithmetic::div_mod::lemma_div_by_multiple(b, SCALE as int);
    vstd::arithmetic::div_mod::lemma_div_pos_is_pos(a * b, SCALE as int);
}

/// A fixed-point product of nonnegative factors is nonnegative.
pub proof fn lemma_mul_fx_nonneg(a: int, b: int)
    requires
        0 <= a,
        0 <= b,
    ensures
        0 <= mul_fx(a, b),
{
    assert(0 <= a * b) by (nonlinear_arith)
        requires
            0 <= a,
            0 <= b,
    {
    }
    assert(abs_int(a * b) == a * b);
    vstd::arithmetic::div_mod::lemma_div_pos_is_pos(a * b, SCALE as int);
}

/// The decaying exponential of a nonnegative argument lies in the unit
/// interval.
pub proof fn lemma_exp_neg_unit(a: int)
    requires
        a >= 0,
    ensures
        0 <= exp_neg_fx(a) <= SCALE,
{
    vstd::arithmetic::div_mod::lemma_div_pos_is_pos(a, 1024);
    assert(div_trunc(a, 1024) >= 0);
    let t = max_fx(sub_fx(SCALE as int, div_trunc(a, 1024)), 0);
    assert(0 <= t <= SCALE);
    let e1 = mul_fx(t, t);
    lemma_mul_fx_unit(t, t);
    let e2 = mul_fx(e1, e1);
    lemma_mul_fx_unit(e1, e1);
    let e3 = mul_fx(e2, e2);
    lemma_mul_fx_unit(e2, e2);
    let e4 = mul_fx(e3, e3);
    lemma_mul_fx_unit(e3, e3);
    let e5 = mul_fx(e4, e4);
    lemma_mul_fx_unit(e4, e4);
    let e6 = mul_fx(e5, e5);
    lemma_mul_fx_unit(e5, e5);
    let e7 = mul_fx(e6, e6);
    lemma_mul_fx_unit(e6, e6);
    let e8 = mul_fx(e7, e7);
    lemma_mul_fx_unit(e7, e7);
    let e9 = mul_fx(e8, e8);
    lemma_mul_fx_unit(e8, e8);
    lemma_mul_fx_unit(e9, e9);
}

/// The floor of a sum's quotient dominates the sum of floored quotients.
proof fn lemma_div_sum_le(a: int, b: int, d: int)
    requires
        0 <= a,
        0 <= b,
        0 < d,
    ensures
        a / d + b / d <= (a + b) / d,
{
    vstd::arithmetic::div_mod::lemma_fundamental_div_mod(a, d);
    vstd::arithmetic::div_mod::lemma_fundamental_div_mod(b, d);
    vstd::arithmetic::div_mod::lemma_mod_bound(a, d);
    vstd::arithmetic::div_mod::lemma_mod_bound(b, d);
    let q = a / d + b / d;
    assert(a + b >= q * d) by (nonlinear_arith)
        requires
            a == d * (a / d) + a % d,
            b == d * (b / d) + b % d,
            a % d >= 0,
            b % d >= 0,
            q == a / d + b / d,
    {
    }
    vstd::arithmetic::div_mod::lemma_div_is_ordered(q * d, a + b, d);
    vstd::arithmetic::div_mod::lemma_div_by_multiple(q, d);
    vstd::arithmetic::div_mod::lemma_div_pos_is_pos(a, d);
    vstd::arithmetic::div_mod::lemma_div_pos_is_pos(b, d);
}

/// A convex blend of unit-interval values, in either argument order,
/// stays in the unit interval.
pub proof fn lemma_blend_unit(x: int, y: int, f: int)
    requires
        0 <= x <= SCALE,
        0 <= y <= SCALE,
        0 <= f <= SCALE,
    ensures
        0 <= add_fx(mul_fx(x, sub_fx(SCALE as int, f)), mul_fx(y, f)) <= SCALE,
        0 <= add_fx(mul_fx(x, f), mul_fx(y, sub_fx(SCALE as int, f))) <= SCALE,
{
    let s = SCALE as int;
    let g = s - f;
    assert(sub_fx(s, f) == g);
    assert(0 <= x * g && 0 <= y * f && 0 <= x * f && 0 <= y * g
        && x * g + y * f <= s * s && x * f + y * g <= s * s) by (nonlinear_arith)
        requires
            0 <= x <= s,
            0 <= y <= s,
            0 <= f <= s,
            g == s - f,
            s == SCALE as int,
    {
    }
    assert(abs_int(x * g) == x * g && abs_int(y * f) == y * f
        && abs_int(x * f) == x * f && abs_int(y * g) == y * g);
    lemma_div_sum_le(x * g, y * f, s);
    lemma_div_sum_le(x * f, y * g, s);
    vstd::arithmetic::div_mod::lemma_div_is_ordered(x * g + y * f, s * s, s);
    vstd::arithmetic::div_mod::lemma_div_is_ordered(x * f + y * g, s * s, s);
    vstd::arithmetic::div_mod::lemma_div_by_multiple(s, s);
    vstd::arithmetic::div_mod::lemma_div_pos_is_pos(x * g, s);
    vstd::arithmetic::div_mod::lemma_div_pos_is_pos(y * f, s);
    vstd::arithmetic::div_mod::lemma_div_pos_is_pos(x * f, s);
    vstd::arithmetic::div_mod::lemma_div_pos_is_pos(y * g, s);
}

/// Floor square root, defined by successive refinement.
pub open spec fn isqrt_spec(n: nat) -> nat
    decreases n,
{
    if n == 0 {
        0
    } else {
        let p = isqrt_spec((n - 1) as nat);
        if (p + 1) * (p + 1) <= n {
            p + 1
        } else {
            p
        }
    }
}

pub proof fn lemma_isqrt_bounds(n: nat)
    ensures
        isqrt_spec(n) * isqrt_spec(n) <= n,
        n < (isqrt_spec(n) + 1) * (isqrt_spec(n) + 1),
    decreases n,
{
    if n > 0 {
        lemma_isqrt_bounds((n - 1) as nat);
        let p = isqrt_spec((n - 1) as nat);
        assert(p * p <= n - 1);
        assert(n - 1 < (p + 1) * (p + 1));
        if (p + 1) * (p + 1) <= n {
            assert(isqrt_spec(n) == p + 1);
            assert(isqrt_spec(n) * isqrt_spec(n) <= n
                && n < (isqrt_spec(n) + 1) * (isqrt_spec(n) + 1)) by (nonlinear_arith)
                requires
                    isqrt_spec(n) == p + 1,
                    (p + 1) * (p + 1) <= n,
                    (p + 1) * (p + 1) > n - 1,
                    p >= 0,
            {
            }
        } else {
            assert(isqrt_spec(n) == p);
            assert(isqrt_spec(n) * isqrt_spec(n) <= n
                && n < (isqrt_spec(n) + 1) * (isqrt_spec(n) + 1)) by (nonlinear_arith)
                requires
                    isqrt_spec(n) == p,
                    p * p <= n - 1,
                    n < (p + 1) * (p + 1),
                    n >= 1,
            {
            }
        }
    } else {
        assert(isqrt_spec(0nat) == 0);
        assert(isqrt_spec(n) * isqrt_spec(n) <= n
            && n < (isqrt_spec(n) + 1) * (isqrt_spec(n) + 1)) by (nonlinear_arith)
            requires
                isqrt_spec(n) == 0,
                n == 0,
        {
        }
    }
}

pub proof fn lemma_isqrt_unique(n: nat, r: nat)
    requires
        r * r <= n,
        n < (r + 1) * (r + 1),
    ensures
        r == isqrt_spec(n),
{
    lemma_isqrt_bounds(n);
    let s = isqrt_spec(n);
    if r < s {
        assert((r + 1) * (r + 1) <= s * s) by (nonlinear_arith)
            requires
                r + 1 <= s,
                r >= 0,
        {
        }
    }
    if s < r {
        assert((s + 1) * (s + 1) <= r * r) by (nonlinear_arith)
            requires
                s + 1 <= r,
                s >= 0,
        {
        }
    }
}

/// Floor square root by bisection.
fn isqrt_exec(n: u128) -> (r: u64)
    requires
        (n as int) < 0x4000_0000_0000_0000_0000_0000,  // 2^94
    ensures
        r as nat == isqrt_spec(n as nat),
{
    let mut lo: u64 = 0;
    let mut hi: u64 = 0x8000_0000_0000;  // 2^47
    assert((hi as int) * (hi as int) == 0x4000_0000_0000_0000_0000_0000);
    while lo + 1 < hi
        invariant
            lo < hi <= 0x8000_0000_0000,
            (lo as int) * (lo as int) <= n as int,
            (n as int) < (hi as int) * (hi as int),
        decreases hi - lo,
    {
        let mid: u64 = lo + (hi - lo) / 2;
        proof {
            assert((mid as int) * (mid as int) <= 0x4000_0000_0000_0000_0000_0000)
                by (nonlinear_arith)
                requires
                    0 <= mid as int <= 0x8000_0000_0000,
            {
            }
        }
        let sq: u128 = (mid as u128) * (mid as u128);
        if sq <= n {
            lo = mid;
        } else {
            hi = mid;
        }
    }
    proof {
        lemma_isqrt_unique(n as nat, lo as nat);
    }
    lo
}

/// Fixed-point square root: `sqrt(a / SCALE) * SCALE`, floored.
pub open spec fn sqrt_fx(a: int) -> int {
    if a <= 0 {
        0
    } else {
        isqrt_spec((a * SCALE) as nat) as int
    }
}

pub fn fx_sqrt(a: i64) -> (r: i64)
    ensures
        r as int == sqrt_fx(a as int),
        r >= 0,
        fx_ok(r as int),
{
    if a <= 0 {
        0
    } else {
        proof {
            assert((a as int) * (SCALE as int) == (a as int) * 1_000_000);
        }
        let n: u128 = (a as u128) * (SCALE as u128);
        let r = isqrt_exec(n);
        proof {
            lemma_isqrt_bounds(n as nat);
            assert(isqrt_spec(n as nat) < 0x8000_0000_0000) by {
                if isqrt_spec(n as nat) >= 0x8000_0000_0000 {
                    assert(isqrt_spec(n as nat) * isqrt_spec(n as nat)
                        >= 0x8000_0000_0000 * 0x8000_0000_0000) by (nonlinear_arith)
                        requires
                            isqrt_spec(n as nat) >= 0x8000_0000_0000,
                    {
                    }
                }
            }
        }
        r as i64
    }
}

} // verus!
