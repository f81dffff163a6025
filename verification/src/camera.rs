//! The camera: an orthonormal-ish basis built from Euler angles, and the
//! primary ray for a screen coordinate.
//!
//! Angles arrive in micro-degrees. The basis composes roll, pitch and yaw
//! rotations applied to the canonical axes, normalizing each resulting
//! vector; the half-extents of the image plane are the tangent of half the
//! field of view, widened by the aspect ratio.

use vstd::prelude::*;
use crate::fixed::{SCALE, fx_ok, add_fx, mul_fx, neg_fx, half_fx,
    fx_add, fx_mul, fx_neg, fx_half,
};
use crate::math::{Vec3, V3, v3_ok, add_v3, sub_v3, scale_v3, neg_v3, norm_v3};
use crate::ray::{Ray, RayV};
use crate::trig::{sin_fx, cos_fx, tan_fx, fx_sin_deg, fx_cos_deg, fx_tan_deg};

verus! {

/// The mathematical image of a `Camera`.
pub ghost struct CameraV {
    pub origin: V3,
    pub u: V3,
    pub v: V3,
    pub w: V3,
    pub half_w: int,
    pub half_h: int,
}

pub struct Camera {
    pub origin: Vec3,
    pub u: Vec3,
    pub v: Vec3,
    pub w: Vec3,
    pub half_w: i64,
    pub half_h: i64,
}

impl View for Camera {
    type V = CameraV;

    open spec fn view(&self) -> CameraV {
        CameraV {
            origin: self.origin@,
            u: self.u@,
            v: self.v@,
            w: self.w@,
            half_w: self.half_w as int,
            half_h: self.half_h as int,
        }
    }
}

/// The rotated right axis, before normalization.
pub open spec fn basis_right(cy: int, sy: int, cx: int, sx: int, cz: int, sz: int) -> V3 {
    V3 {
        x: add_fx(mul_fx(cz, cy), mul_fx(mul_fx(sz, sx), sy)),
        y: mul_fx(sz, cx),
        z: add_fx(mul_fx(cz, neg_fx(sy)), mul_fx(mul_fx(sz, sx), cy)),
    }
}

/// The rotated up axis, before normalization.
pub open spec fn basis_up(cy: int, sy: int, cx: int, sx: int, cz: int, sz: int) -> V3 {
    V3 {
        x: add_fx(mul_fx(neg_fx(sz), cy), mul_fx(mul_fx(cz, sx), sy)),
        y: mul_fx(cz, cx),
        z: add_fx(mul_fx(neg_fx(sz), neg_fx(sy)), mul_fx(mul_fx(cz, sx), cy)),
    }
}

/// The rotated forward axis, before normalization.
pub open spec fn basis_forward(cy: int, sy: int, cx: int, sx: int) -> V3 {
    V3 { x: mul_fx(neg_fx(cx), sy), y: sx, z: mul_fx(neg_fx(cx), cy) }
}

/// The camera a given orientation builds.
pub open spec fn camera_spec(
    eye: V3,
    yaw: int,
    pitch: int,
    roll: int,
    fov: int,
    aspect: int,
) -> CameraV {
    let cy = cos_fx(yaw);
    let sy = sin_fx(yaw);
    let cx = cos_fx(pitch);
    let sx = sin_fx(pitch);
    let cz = cos_fx(roll);
    let sz = sin_fx(roll);
    let right = norm_v3(basis_right(cy, sy, cx, sx, cz, sz));
    let up = norm_v3(basis_up(cy, sy, cx, sx, cz, sz));
    let forward = norm_v3(basis_forward(cy, sy, cx, sx));
    let w = norm_v3(neg_v3(forward));
    let half_h = tan_fx(half_fx(fov));
    let half_w = mul_fx(aspect, half_h);
    CameraV { origin: eye, u: right, v: up, w, half_w, half_h }
}

/// The primary ray for a screen coordinate, both in `[-1, 1]`.
pub open spec fn ray_for_spec(c: CameraV, x: int, y: int) -> RayV {
    RayV {
        o: c.origin,
        d: norm_v3(
            sub_v3(
                add_v3(
                    scale_v3(c.u, mul_fx(x, c.half_w)),
                    scale_v3(c.v, mul_fx(y, c.half_h)),
                ),
                c.w,
            ),
        ),
    }
}

impl Camera {
    pub open spec fn wf(self) -> bool {
        &&& v3_ok(self@.origin)
        &&& v3_ok(self@.u)
        &&& v3_ok(self@.v)
        &&& v3_ok(self@.w)
        &&& fx_ok(self@.half_w)
        &&& fx_ok(self@.half_h)
    }

    /// Build the camera for an eye position and yaw, pitch, roll, field of
    /// view (all micro-degrees) and aspect ratio.
    pub fn from_euler(
        eye: Vec3,
        yaw_deg: i64,
        pitch_deg: i64,
        roll_deg: i64,
        fov_deg: i64,
        aspect: i64,
    ) -> (c: Camera)
        requires
            eye.wf(),
        ensures
            c@ == camera_spec(
                eye@,
                yaw_deg as int,
                pitch_deg as int,
                roll_deg as int,
                fov_deg as int,
                aspect as int,
            ),
            c.wf(),
    {
        let cy = fx_cos_deg(yaw_deg);
        let sy = fx_sin_deg(yaw_deg);
        let cx = fx_cos_deg(pitch_deg);
        let sx = fx_sin_deg(pitch_deg);
        let cz = fx_cos_deg(roll_deg);
        let sz = fx_sin_deg(roll_deg);

        let right = Vec3 {
            x: fx_add(fx_mul(cz, cy), fx_mul(fx_mul(sz, sx), sy)),
            y: fx_mul(sz, cx),
            z: fx_add(fx_mul(cz, fx_neg(sy)), fx_mul(fx_mul(sz, sx), cy)),
        }.norm();
        let up = Vec3 {
            x: fx_add(fx_mul(fx_neg(sz), cy), fx_mul(fx_mul(cz, sx), sy)),
            y: fx_mul(cz, cx),
            z: fx_add(fx_mul(fx_neg(sz), fx_neg(sy)), fx_mul(fx_mul(cz, sx), cy)),
        }.norm();
        let forward = Vec3 {
            x: fx_mul(fx_neg(cx), sy),
            y: sx,
            z: fx_mul(fx_neg(cx), cy),
        }.norm();

        let w = forward.neg().norm();
        let half_h = fx_tan_deg(fx_half(fov_deg));
        let half_w = fx_mul(aspect, half_h);
        Camera { origin: eye, u: right, v: up, w, half_w, half_h }
    }

    /// The ray through screen coordinate `(x, y)`, both in `[-1, 1]` fixed
    /// point.
    pub fn ray_for(&self, x: i64, y: i64) -> (r: Ray)
        requires
            self.wf(),
        ensures
            r@ == ray_for_spec(self@, x as int, y as int),
            r.o.wf(),
            r.d.wf(),
    {
        let dir = self.u.scale(fx_mul(x, self.half_w))
            .add(self.v.scale(fx_mul(y, self.half_h)))
            .sub(self.w)
            .norm();
        Ray { o: self.origin, d: dir }
    }
}

} // verus!
