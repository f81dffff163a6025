//! Slab-method intersection of a ray with an axis-aligned box.
//!
//! Each axis narrows the parametric window `[tmin, tmax]`; an empty window
//! (`tmax <= tmin`, equality counts as a miss) ends the test at once. A
//! zero direction component divides to the saturation bound, the model's
//! signed infinity, and the window arithmetic resolves it the way IEEE
//! infinities settle an axis-parallel ray. The face normal is read
//! off the hit point within a small tolerance, faces tried in a fixed
//! order, and is the zero vector when no face is that close.

use vstd::prelude::*;
use crate::fixed::{SCALE, FX_MAX, fx_ok, abs_int, div_trunc, abs_fx, sub_fx, mul_fx,
    div_fx, min_fx, max_fx, fx_abs, fx_sub, fx_mul, fx_div, fx_min, fx_max,
};
use crate::math::{Vec3, V3, v3_ok};
use crate::ray::{Ray, RayV, at_v3};

verus! {

/// Distance within which a hit point counts as lying on a face.
pub const EPS_FACE: i64 = 1_000;

/// The mathematical image of a `Hit`.
pub ghost struct HitV {
    pub t: int,
    pub p: V3,
    pub n: V3,
    pub mat_id: int,
}

/// The result of one intersection query.
pub struct Hit {
    pub t: i64,
    pub p: Vec3,
    pub n: Vec3,
    pub mat_id: usize,
}

impl View for Hit {
    type V = HitV;

    open spec fn view(&self) -> HitV {
        HitV { t: self.t as int, p: self.p@, n: self.n@, mat_id: self.mat_id as int }
    }
}

/// The mathematical image of an `Aabb`.
pub ghost struct AabbV {
    pub min: V3,
    pub max: V3,
    pub mat_id: int,
}

#[derive(Clone, Copy)]
pub struct Aabb {
    pub min: Vec3,
    pub max: Vec3,
    pub mat_id: usize,
}

impl View for Aabb {
    type V = AabbV;

    open spec fn view(&self) -> AabbV {
        AabbV { min: self.min@, max: self.max@, mat_id: self.mat_id as int }
    }
}

/// Near crossing of one axis's slab pair.
pub open spec fn axis_lo(mn: int, mx: int, o: int, d: int) -> int {
    let inv = div_fx(SCALE as int, d);
    let t0 = mul_fx(sub_fx(mn, o), inv);
    let t1 = mul_fx(sub_fx(mx, o), inv);
    if inv < 0 {
        t1
    } else {
        t0
    }
}

/// Far crossing of one axis's slab pair.
pub open spec fn axis_hi(mn: int, mx: int, o: int, d: int) -> int {
    let inv = div_fx(SCALE as int, d);
    let t0 = mul_fx(sub_fx(mn, o), inv);
    let t1 = mul_fx(sub_fx(mx, o), inv);
    if inv < 0 {
        t0
    } else {
        t1
    }
}

/// Which face normal the hit point earns, faces tried in a fixed order;
/// zero when the point is not within tolerance of any face.
pub open spec fn face_normal_spec(p: V3, mn: V3, mx: V3) -> V3 {
    let s = SCALE as int;
    if abs_fx(sub_fx(p.x, mn.x)) < EPS_FACE {
        V3 { x: -s, y: 0, z: 0 }
    } else if abs_fx(sub_fx(p.x, mx.x)) < EPS_FACE {
        V3 { x: s, y: 0, z: 0 }
    } else if abs_fx(sub_fx(p.y, mn.y)) < EPS_FACE {
        V3 { x: 0, y: -s, z: 0 }
    } else if abs_fx(sub_fx(p.y, mx.y)) < EPS_FACE {
        V3 { x: 0, y: s, z: 0 }
    } else if abs_fx(sub_fx(p.z, mn.z)) < EPS_FACE {
        V3 { x: 0, y: 0, z: -s }
    } else if abs_fx(sub_fx(p.z, mx.z)) < EPS_FACE {
        V3 { x: 0, y: 0, z: s }
    } else {
        V3 { x: 0, y: 0, z: 0 }
    }
}

/// The nearest hit of a ray on a box within `[tmin0, tmax0]`, or nothing.
pub open spec fn hit_spec(b: AabbV, r: RayV, tmin0: int, tmax0: int) -> Option<HitV> {
    let txl = max_fx(tmin0, axis_lo(b.min.x, b.max.x, r.o.x, r.d.x));
    let txh = min_fx(tmax0, axis_hi(b.min.x, b.max.x, r.o.x, r.d.x));
    if txh <= txl {
        None
    } else {
        let tyl = max_fx(txl, axis_lo(b.min.y, b.max.y, r.o.y, r.d.y));
        let tyh = min_fx(txh, axis_hi(b.min.y, b.max.y, r.o.y, r.d.y));
        if tyh <= tyl {
            None
        } else {
            let tzl = max_fx(tyl, axis_lo(b.min.z, b.max.z, r.o.z, r.d.z));
            let tzh = min_fx(tyh, axis_hi(b.min.z, b.max.z, r.o.z, r.d.z));
            if tzh <= tzl {
                None
            } else {
                let p = at_v3(r, tzl);
                Some(
                    HitV {
                        t: tzl,
                        p,
                        n: face_normal_spec(p, b.min, b.max),
                        mat_id: b.mat_id,
                    },
                )
            }
        }
    }
}

impl Aabb {
    /// Intersect a ray against this box over the window `[tmin, tmax]`.
    pub fn hit(&self, ray: &Ray, tmin: i64, tmax: i64) -> (r: Option<Hit>)
        requires
            fx_ok(tmin as int),
            fx_ok(tmax as int),
        ensures
            r is Some <==> hit_spec(self@, ray@, tmin as int, tmax as int) is Some,
            r is Some ==> (r->0)@ == hit_spec(self@, ray@, tmin as int, tmax as int)->0,
            r is Some ==> (r->0).p.wf() && (r->0).n.wf() && fx_ok((r->0).t as int)
                && (r->0).mat_id == self.mat_id,
    {
        let inv_dx = fx_div(SCALE, ray.d.x);
        let mut tx0 = fx_mul(fx_sub(self.min.x, ray.o.x), inv_dx);
        let mut tx1 = fx_mul(fx_sub(self.max.x, ray.o.x), inv_dx);
        if inv_dx < 0 {
            let tmp = tx0;
            tx0 = tx1;
            tx1 = tmp;
        }
        let txl = fx_max(tmin, tx0);
        let txh = fx_min(tmax, tx1);
        if txh <= txl {
            return None;
        }
        let inv_dy = fx_div(SCALE, ray.d.y);
        let mut ty0 = fx_mul(fx_sub(self.min.y, ray.o.y), inv_dy);
        let mut ty1 = fx_mul(fx_sub(self.max.y, ray.o.y), inv_dy);
        if inv_dy < 0 {
            let tmp = ty0;
            ty0 = ty1;
            ty1 = tmp;
        }
        let tyl = fx_max(txl, ty0);
        let tyh = fx_min(txh, ty1);
        if tyh <= tyl {
            return None;
        }
        let inv_dz = fx_div(SCALE, ray.d.z);
        let mut tz0 = fx_mul(fx_sub(self.min.z, ray.o.z), inv_dz);
        let mut tz1 = fx_mul(fx_sub(self.max.z, ray.o.z), inv_dz);
        if inv_dz < 0 {
            let tmp = tz0;
            tz0 = tz1;
            tz1 = tmp;
        }
        let tzl = fx_max(tyl, tz0);
        let tzh = fx_min(tyh, tz1);
        if tzh <= tzl {
            return None;
        }
        let t = tzl;
        let p = ray.at(t);
        let s = SCALE;
        let n = if fx_abs(fx_sub(p.x, self.min.x)) < EPS_FACE {
            Vec3 { x: -s, y: 0, z: 0 }
        } else if fx_abs(fx_sub(p.x, self.max.x)) < EPS_FACE {
            Vec3 { x: s, y: 0, z: 0 }
        } else if fx_abs(fx_sub(p.y, self.min.y)) < EPS_FACE {
            Vec3 { x: 0, y: -s, z: 0 }
        } else if fx_abs(fx_sub(p.y, self.max.y)) < EPS_FACE {
            Vec3 { x: 0, y: s, z: 0 }
        } else if fx_abs(fx_sub(p.z, self.min.z)) < EPS_FACE {
            Vec3 { x: 0, y: 0, z: -s }
        } else if fx_abs(fx_sub(p.z, self.max.z)) < EPS_FACE {
            Vec3 { x: 0, y: 0, z: s }
        } else {
            Vec3 { x: 0, y: 0, z: 0 }
        };
        Some(Hit { t, p, n, mat_id: self.mat_id })
    }
}

/// One axis of the slab test, for a ray whose origin sits well inside the
/// slab: the near crossing lies at or behind the origin, the far crossing
/// comfortably ahead.
proof fn lemma_axis_window_inside(mn: int, mx: int, o: int, d: int)
    requires
        fx_ok(mn),
        fx_ok(mx),
        fx_ok(o),
        d != 0,
        -SCALE <= d <= SCALE,
        mn + 10_000 <= o,
        o <= mx - 10_000,
    ensures
        axis_lo(mn, mx, o, d) <= 0,
        axis_hi(mn, mx, o, d) >= 10_000,
{
    let s = SCALE as int;
    let inv = div_fx(s, d);
    let u = sub_fx(mn, o);
    let w = sub_fx(mx, o);
    assert(-(FX_MAX as int) <= u <= -10_000);
    assert(10_000 <= w <= FX_MAX as int);
    vstd::arithmetic::div_mod::lemma_div_basics(1_000_000_000_000);
    if d > 0 {
        vstd::arithmetic::div_mod::lemma_div_is_ordered_by_denominator(
            1_000_000_000_000, d, 1_000_000);
        vstd::arithmetic::div_mod::lemma_div_is_ordered_by_denominator(
            1_000_000_000_000, 1, d);
        vstd::arithmetic::div_mod::lemma_div_by_multiple(1_000_000, 1_000_000);
        assert(1_000_000 * 1_000_000 == 1_000_000_000_000);
        assert(div_trunc(s * s, d) == 1_000_000_000_000int / d);
        assert(1_000_000 <= inv <= 1_000_000_000_000);
        lemma_mul_fx_neg_nonneg(u, inv);
        lemma_mul_fx_big(w, inv);
    } else {
        let e = -d;
        vstd::arithmetic::div_mod::lemma_div_is_ordered_by_denominator(
            1_000_000_000_000, e, 1_000_000);
        vstd::arithmetic::div_mod::lemma_div_is_ordered_by_denominator(
            1_000_000_000_000, 1, e);
        vstd::arithmetic::div_mod::lemma_div_by_multiple(1_000_000, 1_000_000);
        assert(1_000_000 * 1_000_000 == 1_000_000_000_000);
        assert(div_trunc(s * s, d) == -(1_000_000_000_000int / e));
        assert(-1_000_000_000_000 <= inv <= -1_000_000);
        lemma_mul_fx_flip(w, inv);
        lemma_mul_fx_flip_pos(u, inv);
        lemma_mul_fx_big(-u, -inv);
    }
}

/// A product of a nonpositive and a nonnegative scalar is nonpositive.
proof fn lemma_mul_fx_neg_nonneg(u: int, q: int)
    requires
        u <= 0,
        q >= 0,
    ensures
        mul_fx(u, q) <= 0,
{
    assert(u * q <= 0) by (nonlinear_arith)
        requires
            u <= 0,
            q >= 0,
    {
    }
    if u * q < 0 {
        vstd::arithmetic::div_mod::lemma_div_pos_is_pos(-(u * q), SCALE as int);
    } else {
        assert(u * q == 0);
        vstd::arithmetic::div_mod::lemma_div_of0(SCALE as int);
    }
}

/// A product of a nonnegative and a nonpositive scalar is nonpositive.
proof fn lemma_mul_fx_flip(u: int, q: int)
    requires
        u >= 0,
        q <= 0,
    ensures
        mul_fx(u, q) <= 0,
{
    lemma_mul_fx_neg_nonneg(q, u);
    assert(u * q == q * u) by (nonlinear_arith);
}

/// Flipping both factors keeps the fixed-point product.
proof fn lemma_mul_fx_flip_pos(u: int, q: int)
    requires
        u <= 0,
        q <= 0,
    ensures
        mul_fx(u, q) == mul_fx(-u, -q),
{
    assert(u * q == (-u) * (-q)) by (nonlinear_arith);
}

/// A product of scalars at least `10_000` and `1_000_000` is at least
/// `10_000` after scaling down.
proof fn lemma_mul_fx_big(w: int, q: int)
    requires
        w >= 10_000,
        q >= 1_000_000,
    ensures
        mul_fx(w, q) >= 10_000,
{
    assert(w * q >= 10_000_000_000) by (nonlinear_arith)
        requires
            w >= 10_000,
            q >= 1_000_000,
    {
    }
    vstd::arithmetic::div_mod::lemma_div_is_ordered(
        10_000_000_000, w * q, SCALE as int);
    vstd::arithmetic::div_mod::lemma_div_by_multiple(10_000, 1_000_000);
    assert(10_000 * 1_000_000 == 10_000_000_000);
    assert(abs_int(w * q) == w * q);
}

/// A ray of at most unit speed, its origin a hundredth of a unit or more
/// inside every face of a box, hits: the window never empties, and the
/// hit lands at the window's lower bound.
pub proof fn lemma_hit_from_inside(b: AabbV, r: RayV, tmax0: int)
    requires
        v3_ok(b.min),
        v3_ok(b.max),
        v3_ok(r.o),
        r.d.x != 0 && -SCALE <= r.d.x <= SCALE,
        r.d.y != 0 && -SCALE <= r.d.y <= SCALE,
        r.d.z != 0 && -SCALE <= r.d.z <= SCALE,
        b.min.x + 10_000 <= r.o.x && r.o.x <= b.max.x - 10_000,
        b.min.y + 10_000 <= r.o.y && r.o.y <= b.max.y - 10_000,
        b.min.z + 10_000 <= r.o.z && r.o.z <= b.max.z - 10_000,
        10_000 <= tmax0 <= FX_MAX,
    ensures
        hit_spec(b, r, 1_000, tmax0) is Some,
        hit_spec(b, r, 1_000, tmax0)->0.t == 1_000,
{
    lemma_axis_window_inside(b.min.x, b.max.x, r.o.x, r.d.x);
    lemma_axis_window_inside(b.min.y, b.max.y, r.o.y, r.d.y);
    lemma_axis_window_inside(b.min.z, b.max.z, r.o.z, r.d.z);
}

/// Whatever normal the intersection reports is a face normal or zero.
pub proof fn lemma_hit_normal_axis_or_zero(b: AabbV, r: RayV, tmin0: int, tmax0: int)
    ensures
        hit_spec(b, r, tmin0, tmax0) is Some ==> {
            let n = hit_spec(b, r, tmin0, tmax0)->0.n;
            crate::math::is_axis_unit(n) || n == (V3 { x: 0, y: 0, z: 0 })
        },
{
}

} // verus!
