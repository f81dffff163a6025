//! Three-component fixed-point vectors.
//!
//! A `Vec3` serves as position, direction, and color alike. Its
//! mathematical view is a `V3` of unbounded integers; every operation is
//! pinned exactly to a spec mirror built from the scalar model, so a
//! caller's proof can compute with the same formulas the code runs.

use vstd::prelude::*;
use crate::fixed::{
    SCALE, FX_MAX, fx_ok, sat_fx, div_trunc, add_fx, sub_fx, mul_fx, div_fx,
    neg_fx, max_fx, clamp01_fx, clamp_unit_fx, sqrt_fx, pow5_fx,
    fx_add, fx_sub, fx_mul, fx_div, fx_neg, fx_max, fx_clamp01, fx_clamp_unit,
    fx_sqrt, fx_pow5, lemma_div_trunc_exact,
};

verus! {

/// The mathematical image of a `Vec3`.
pub ghost struct V3 {
    pub x: int,
    pub y: int,
    pub z: int,
}

/// Are all three components representable?
pub open spec fn v3_ok(a: V3) -> bool {
    fx_ok(a.x) && fx_ok(a.y) && fx_ok(a.z)
}

pub open spec fn add_v3(a: V3, b: V3) -> V3 {
    V3 { x: add_fx(a.x, b.x), y: add_fx(a.y, b.y), z: add_fx(a.z, b.z) }
}

pub open spec fn sub_v3(a: V3, b: V3) -> V3 {
    V3 { x: sub_fx(a.x, b.x), y: sub_fx(a.y, b.y), z: sub_fx(a.z, b.z) }
}

/// Componentwise product, as colors filter one another.
pub open spec fn mul_v3(a: V3, b: V3) -> V3 {
    V3 { x: mul_fx(a.x, b.x), y: mul_fx(a.y, b.y), z: mul_fx(a.z, b.z) }
}

pub open spec fn scale_v3(a: V3, s: int) -> V3 {
    V3 { x: mul_fx(a.x, s), y: mul_fx(a.y, s), z: mul_fx(a.z, s) }
}

pub open spec fn div_v3(a: V3, s: int) -> V3 {
    V3 { x: div_fx(a.x, s), y: div_fx(a.y, s), z: div_fx(a.z, s) }
}

pub open spec fn neg_v3(a: V3) -> V3 {
    V3 { x: neg_fx(a.x), y: neg_fx(a.y), z: neg_fx(a.z) }
}

pub open spec fn dot_v3(a: V3, b: V3) -> int {
    sat_fx(div_trunc(a.x * b.x + a.y * b.y + a.z * b.z, SCALE as int))
}

pub open spec fn len_v3(a: V3) -> int {
    sqrt_fx(dot_v3(a, a))
}

/// Normalize, flooring the length at one tick so a degenerate vector
/// divides to zero instead of failing.
pub open spec fn norm_v3(a: V3) -> V3 {
    let l = max_fx(len_v3(a), 1);
    div_v3(a, l)
}

pub open spec fn clamp01_v3(a: V3) -> V3 {
    V3 { x: clamp01_fx(a.x), y: clamp01_fx(a.y), z: clamp01_fx(a.z) }
}

/// Is every component in the unit color interval?
pub open spec fn v3_unit(a: V3) -> bool {
    0 <= a.x <= SCALE && 0 <= a.y <= SCALE && 0 <= a.z <= SCALE
}

/// `a (1 - t) + b t`, the linear interpolation of the engine.
pub open spec fn lerp_v3(a: V3, b: V3, t: int) -> V3 {
    add_v3(scale_v3(a, sub_fx(SCALE as int, t)), scale_v3(b, t))
}

/// Mirror reflection: `i - n (2 i . n)`.
pub open spec fn reflect_v3(i: V3, n: V3) -> V3 {
    sub_v3(i, scale_v3(n, mul_fx(2 * (SCALE as int), dot_v3(i, n))))
}

/// Snell refraction; `None` is total internal reflection.
pub open spec fn refract_v3(i: V3, n: V3, eta: int) -> Option<V3> {
    let cosi = clamp_unit_fx(neg_fx(dot_v3(i, n)));
    let k = sub_fx(
        SCALE as int,
        mul_fx(mul_fx(eta, eta), sub_fx(SCALE as int, mul_fx(cosi, cosi))),
    );
    if k < 0 {
        None
    } else {
        Some(add_v3(scale_v3(i, eta), scale_v3(n, sub_fx(mul_fx(eta, cosi), sqrt_fx(k)))))
    }
}

/// The discriminant whose sign decides total internal reflection.
pub open spec fn refract_k(i: V3, n: V3, eta: int) -> int {
    let cosi = clamp_unit_fx(neg_fx(dot_v3(i, n)));
    sub_fx(
        SCALE as int,
        mul_fx(mul_fx(eta, eta), sub_fx(SCALE as int, mul_fx(cosi, cosi))),
    )
}

/// Refraction is refused exactly past the critical angle: the result is
/// `None` precisely when `eta^2 (1 - cos^2)` — the ratio squared times the
/// squared sine of incidence — exceeds one.
pub proof fn lemma_total_internal_reflection(i: V3, n: V3, eta: int)
    ensures
        refract_v3(i, n, eta) is None <==> {
            let cosi = clamp_unit_fx(neg_fx(dot_v3(i, n)));
            mul_fx(mul_fx(eta, eta), sub_fx(SCALE as int, mul_fx(cosi, cosi))) > SCALE
        },
{
}

/// Schlick's approximation: `f0 + (1 - f0) (1 - cos)^5`.
pub open spec fn fresnel_v3(cos_theta: int, f0: V3) -> V3 {
    let one = V3 { x: SCALE as int, y: SCALE as int, z: SCALE as int };
    add_v3(f0, scale_v3(sub_v3(one, f0), pow5_fx(sub_fx(SCALE as int, cos_theta))))
}

#[derive(Clone, Copy, Debug, PartialEq, Eq, Structural)]
pub struct Vec3 {
    pub x: i64,
    pub y: i64,
    pub z: i64,
}

impl View for Vec3 {
    type V = V3;

    open spec fn view(&self) -> V3 {
        V3 { x: self.x as int, y: self.y as int, z: self.z as int }
    }
}

impl Vec3 {
    /// Are all components within the representable range?
    pub open spec fn wf(self) -> bool {
        v3_ok(self@)
    }

    pub fn new(x: i64, y: i64, z: i64) -> (r: Self)
        requires
            fx_ok(x as int),
            fx_ok(y as int),
            fx_ok(z as int),
        ensures
            r@ == (V3 { x: x as int, y: y as int, z: z as int }),
            r.wf(),
    {
        Vec3 { x, y, z }
    }

    pub fn dot(self, o: Self) -> (r: i64)
        requires
            self.wf(),
            o.wf(),
        ensures
            r as int == dot_v3(self@, o@),
            fx_ok(r as int),
    {
        proof {
            lemma_prod_bound(self.x as int, o.x as int);
            lemma_prod_bound(self.y as int, o.y as int);
            lemma_prod_bound(self.z as int, o.z as int);
        }
        let sx: i128 = (self.x as i128) * (o.x as i128);
        let sy: i128 = (self.y as i128) * (o.y as i128);
        let sz: i128 = (self.z as i128) * (o.z as i128);
        let sum: i128 = sx + sy + sz;
        crate::fixed::fx_sat_div_scale(sum)
    }

    pub fn len(self) -> (r: i64)
        requires
            self.wf(),
        ensures
            r as int == len_v3(self@),
            r >= 0,
    {
        fx_sqrt(self.dot(self))
    }

    pub fn norm(self) -> (r: Self)
        requires
            self.wf(),
        ensures
            r@ == norm_v3(self@),
            r.wf(),
    {
        let l = self.len();
        let ll = fx_max(l, 1);
        Vec3 { x: fx_div(self.x, ll), y: fx_div(self.y, ll), z: fx_div(self.z, ll) }
    }

    pub fn clamp01(self) -> (r: Self)
        ensures
            r@ == clamp01_v3(self@),
            r.wf(),
            v3_unit(r@),
    {
        Vec3 { x: fx_clamp01(self.x), y: fx_clamp01(self.y), z: fx_clamp01(self.z) }
    }

    pub fn add(self, o: Self) -> (r: Self)
        ensures
            r@ == add_v3(self@, o@),
            r.wf(),
    {
        Vec3 { x: fx_add(self.x, o.x), y: fx_add(self.y, o.y), z: fx_add(self.z, o.z) }
    }

    pub fn sub(self, o: Self) -> (r: Self)
        ensures
            r@ == sub_v3(self@, o@),
            r.wf(),
    {
        Vec3 { x: fx_sub(self.x, o.x), y: fx_sub(self.y, o.y), z: fx_sub(self.z, o.z) }
    }

    /// Componentwise product.
    pub fn mul(self, o: Self) -> (r: Self)
        ensures
            r@ == mul_v3(self@, o@),
            r.wf(),
    {
        Vec3 { x: fx_mul(self.x, o.x), y: fx_mul(self.y, o.y), z: fx_mul(self.z, o.z) }
    }

    /// Product with a scalar.
    pub fn scale(self, s: i64) -> (r: Self)
        ensures
            r@ == scale_v3(self@, s as int),
            r.wf(),
    {
        Vec3 { x: fx_mul(self.x, s), y: fx_mul(self.y, s), z: fx_mul(self.z, s) }
    }

    /// Quotient by a scalar.
    pub fn div(self, s: i64) -> (r: Self)
        ensures
            r@ == div_v3(self@, s as int),
            r.wf(),
    {
        Vec3 { x: fx_div(self.x, s), y: fx_div(self.y, s), z: fx_div(self.z, s) }
    }

    pub fn neg(self) -> (r: Self)
        ensures
            r@ == neg_v3(self@),
            r.wf(),
    {
        Vec3 { x: fx_neg(self.x), y: fx_neg(self.y), z: fx_neg(self.z) }
    }
}

/// The gray vector with all three components equal.
pub fn v(a: i64) -> (r: Vec3)
    requires
        fx_ok(a as int),
    ensures
        r@ == (V3 { x: a as int, y: a as int, z: a as int }),
        r.wf(),
{
    Vec3::new(a, a, a)
}

pub fn reflect(i: Vec3, n: Vec3) -> (r: Vec3)
    requires
        i.wf(),
        n.wf(),
    ensures
        r@ == reflect_v3(i@, n@),
        r.wf(),
{
    let d = i.dot(n);
    let two_d = fx_mul(2_000_000, d);
    i.sub(n.scale(two_d))
}

pub fn refract(i: Vec3, n: Vec3, eta: i64) -> (r: Option<Vec3>)
    requires
        i.wf(),
        n.wf(),
    ensures
        r is Some <==> refract_k(i@, n@, eta as int) >= 0,
        r is None <==> refract_v3(i@, n@, eta as int) is None,
        r is Some ==> (r->0)@ == refract_v3(i@, n@, eta as int)->0 && (r->0).wf(),
{
    let cosi = fx_clamp_unit(fx_neg(i.dot(n)));
    let k = fx_sub(SCALE, fx_mul(fx_mul(eta, eta), fx_sub(SCALE, fx_mul(cosi, cosi))));
    if k < 0 {
        None
    } else {
        Some(i.scale(eta).add(n.scale(fx_sub(fx_mul(eta, cosi), fx_sqrt(k)))))
    }
}

pub fn lerp(a: Vec3, b: Vec3, t: i64) -> (r: Vec3)
    ensures
        r@ == lerp_v3(a@, b@, t as int),
        r.wf(),
{
    a.scale(fx_sub(SCALE, t)).add(b.scale(t))
}

pub fn fresnel_schlick(cos_theta: i64, f0: Vec3) -> (r: Vec3)
    requires
        f0.wf(),
    ensures
        r@ == fresnel_v3(cos_theta as int, f0@),
        r.wf(),
{
    let one = v(SCALE);
    let p = fx_pow5(fx_sub(SCALE, cos_theta));
    f0.add(one.sub(f0).scale(p))
}

/// A product of representable scalars stays within an `i128`.
proof fn lemma_prod_bound(a: int, b: int)
    requires
        fx_ok(a),
        fx_ok(b),
    ensures
        -0x1000_0000_0000_0000_0000_0000_0000 <= a * b <= 0x1000_0000_0000_0000_0000_0000_0000,
{
    assert(-(FX_MAX as int) * FX_MAX <= a * b <= (FX_MAX as int) * FX_MAX) by (nonlinear_arith)
        requires
            -(FX_MAX as int) <= a <= FX_MAX as int,
            -(FX_MAX as int) <= b <= FX_MAX as int,
    {
    }
    assert((FX_MAX as int) * FX_MAX == 1_000_000_000_000_000_000_000_000_000_000);
}

/// The six face normals of an axis-aligned box, in fixed point.
pub open spec fn is_axis_unit(n: V3) -> bool {
    ||| n == (V3 { x: SCALE as int, y: 0, z: 0 })
    ||| n == (V3 { x: -(SCALE as int), y: 0, z: 0 })
    ||| n == (V3 { x: 0, y: SCALE as int, z: 0 })
    ||| n == (V3 { x: 0, y: -(SCALE as int), z: 0 })
    ||| n == (V3 { x: 0, y: 0, z: SCALE as int })
    ||| n == (V3 { x: 0, y: 0, z: -(SCALE as int) })
}

/// About a face normal of a box the fixed-point arithmetic of `reflect`
/// is exact, so reflecting twice about the same normal gives back the
/// starting direction, for any direction of at most unit magnitude.
pub proof fn lemma_reflect_involution_axis(d: V3, n: V3)
    requires
        -SCALE <= d.x <= SCALE,
        -SCALE <= d.y <= SCALE,
        -SCALE <= d.z <= SCALE,
        is_axis_unit(n),
    ensures
        reflect_v3(reflect_v3(d, n), n) == d,
{
    lemma_reflect_axis_once(d, n);
    lemma_reflect_axis_once(reflect_v3(d, n), n);
}

/// One exact reflection about a face normal: the aligned component flips,
/// the others stay.
proof fn lemma_reflect_axis_once(d: V3, n: V3)
    requires
        -SCALE <= d.x <= SCALE,
        -SCALE <= d.y <= SCALE,
        -SCALE <= d.z <= SCALE,
        is_axis_unit(n),
    ensures
        n.x != 0 ==> reflect_v3(d, n) == (V3 { x: -d.x, y: d.y, z: d.z }),
        n.y != 0 ==> reflect_v3(d, n) == (V3 { x: d.x, y: -d.y, z: d.z }),
        n.z != 0 ==> reflect_v3(d, n) == (V3 { x: d.x, y: d.y, z: -d.z }),
        -SCALE <= reflect_v3(d, n).x <= SCALE,
        -SCALE <= reflect_v3(d, n).y <= SCALE,
        -SCALE <= reflect_v3(d, n).z <= SCALE,
{
    let s = SCALE as int;
    let dt = dot_v3(d, n);
    let two = mul_fx(2 * s, dt);
    assert(mul_fx(0, two) == 0) by {
        assert(0 * two == 0 * s) by (nonlinear_arith);
        lemma_div_trunc_exact(0, s);
    }
    if n.x == s {
        assert(d.x * n.x + d.y * n.y + d.z * n.z == d.x * s) by (nonlinear_arith)
            requires
                n.x == s,
                n.y == 0,
                n.z == 0,
        {
        }
        lemma_div_trunc_exact(d.x, s);
        assert(dt == d.x);
        assert((2 * s) * d.x == (2 * d.x) * s) by (nonlinear_arith);
        lemma_div_trunc_exact(2 * d.x, s);
        assert(two == 2 * d.x);
        assert(s * two == two * s) by (nonlinear_arith);
        lemma_div_trunc_exact(two, s);
        assert(mul_fx(n.x, two) == 2 * d.x);
    } else if n.x == -s {
        assert(d.x * n.x + d.y * n.y + d.z * n.z == (-d.x) * s) by (nonlinear_arith)
            requires
                n.x == -s,
                n.y == 0,
                n.z == 0,
        {
        }
        lemma_div_trunc_exact(-d.x, s);
        assert(dt == -d.x);
        assert((2 * s) * (-d.x) == (-(2 * d.x)) * s) by (nonlinear_arith);
        lemma_div_trunc_exact(-(2 * d.x), s);
        assert(two == -(2 * d.x));
        assert((-s) * two == (2 * d.x) * s) by (nonlinear_arith)
            requires
                two == -(2 * d.x),
        {
        }
        lemma_div_trunc_exact(2 * d.x, s);
        assert(mul_fx(n.x, two) == 2 * d.x);
    } else if n.y == s {
        assert(d.x * n.x + d.y * n.y + d.z * n.z == d.y * s) by (nonlinear_arith)
            requires
                n.y == s,
                n.x == 0,
                n.z == 0,
        {
        }
        lemma_div_trunc_exact(d.y, s);
        assert(dt == d.y);
        assert((2 * s) * d.y == (2 * d.y) * s) by (nonlinear_arith);
        lemma_div_trunc_exact(2 * d.y, s);
        assert(two == 2 * d.y);
        assert(s * two == two * s) by (nonlinear_arith);
        lemma_div_trunc_exact(two, s);
        assert(mul_fx(n.y, two) == 2 * d.y);
    } else if n.y == -s {
        assert(d.x * n.x + d.y * n.y + d.z * n.z == (-d.y) * s) by (nonlinear_arith)
            requires
                n.y == -s,
                n.x == 0,
                n.z == 0,
        {
        }
        lemma_div_trunc_exact(-d.y, s);
        assert(dt == -d.y);
        assert((2 * s) * (-d.y) == (-(2 * d.y)) * s) by (nonlinear_arith);
        lemma_div_trunc_exact(-(2 * d.y), s);
        assert(two == -(2 * d.y));
        assert((-s) * two == (2 * d.y) * s) by (nonlinear_arith)
            requires
                two == -(2 * d.y),
        {
        }
        lemma_div_trunc_exact(2 * d.y, s);
        assert(mul_fx(n.y, two) == 2 * d.y);
    } else if n.z == s {
        assert(d.x * n.x + d.y * n.y + d.z * n.z == d.z * s) by (nonlinear_arith)
            requires
                n.z == s,
                n.x == 0,
                n.y == 0,
        {
        }
        lemma_div_trunc_exact(d.z, s);
        assert(dt == d.z);
        assert((2 * s) * d.z == (2 * d.z) * s) by (nonlinear_arith);
        lemma_div_trunc_exact(2 * d.z, s);
        assert(two == 2 * d.z);
        assert(s * two == two * s) by (nonlinear_arith);
        lemma_div_trunc_exact(two, s);
        assert(mul_fx(n.z, two) == 2 * d.z);
    } else {
        assert(d.x * n.x + d.y * n.y + d.z * n.z == (-d.z) * s) by (nonlinear_arith)
            requires
                n.z == -s,
                n.x == 0,
                n.y == 0,
        {
        }
        lemma_div_trunc_exact(-d.z, s);
        assert(dt == -d.z);
        assert((2 * s) * (-d.z) == (-(2 * d.z)) * s) by (nonlinear_arith);
        lemma_div_trunc_exact(-(2 * d.z), s);
        assert(two == -(2 * d.z));
        assert((-s) * two == (2 * d.z) * s) by (nonlinear_arith)
            requires
                two == -(2 * d.z),
        {
        }
        lemma_div_trunc_exact(2 * d.z, s);
        assert(mul_fx(n.z, two) == 2 * d.z);
    }
}

} // verus!
