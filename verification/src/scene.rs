//! The scene: a flat list of boxes and materials, the sky, and the
//! recursive traversal that shades a ray.
//!
//! The nearest hit is a brute-force scan that narrows the search window to
//! each hit found. Shading combines an ambient term, sun lighting damped
//! by a shadow probe (to a floor, not to black), a Phong-style highlight,
//! and — for reflective materials with bounce budget left — a recursive
//! reflection, everything clamped to the unit color cube.

use vstd::prelude::*;
use crate::fixed::{SCALE, FX_MAX, fx_ok, add_fx, mul_fx, max_fx, clamp01_fx, pow64_fx,
    pow34_fx, fx_add, fx_mul, fx_max, fx_clamp01, fx_pow64, fx_pow34, lemma_blend_unit,
};
use crate::math::{
    Vec3, V3, v3_unit, add_v3, sub_v3, mul_v3, scale_v3, neg_v3, dot_v3, norm_v3,
    clamp01_v3, lerp_v3, lerp,
};
use crate::ray::{Ray, RayV};
use crate::aabb::{Aabb, AabbV, Hit, HitV, hit_spec};
use crate::material::{Material, MaterialV, Env};

verus! {

/// Lower bound of every tested window, pushing hits off the ray origin.
pub const T_MIN: i64 = 1_000;

/// How far the shadow probe looks.
pub const SHADOW_FAR: i64 = 1_000_000_000;

/// The mathematical image of a `Scene`.
pub ghost struct SceneV {
    pub cubes: Seq<AabbV>,
    pub mats: Seq<MaterialV>,
}

pub struct Scene {
    pub cubes: Vec<Aabb>,
    pub mats: Vec<Material>,
}

impl View for Scene {
    type V = SceneV;

    open spec fn view(&self) -> SceneV {
        SceneV {
            cubes: self.cubes@.map_values(|c: Aabb| c@),
            mats: self.mats@.map_values(|m: Material| m@),
        }
    }
}

/// An exec intersection result, seen mathematically.
pub open spec fn hit_opt_view(o: Option<Hit>) -> Option<HitV> {
    match o {
        Some(h) => Some(h@),
        None => None,
    }
}

/// The rest of the nearest-hit scan, from box `i` on, with the window and
/// the best hit found so far.
pub open spec fn scan_from(
    cubes: Seq<AabbV>,
    ray: RayV,
    i: int,
    far: int,
    best: Option<HitV>,
) -> Option<HitV>
    decreases cubes.len() - i,
{
    if i < 0 || i >= cubes.len() {
        best
    } else {
        match hit_spec(cubes[i], ray, T_MIN as int, far) {
            Some(h) => scan_from(cubes, ray, i + 1, h.t, Some(h)),
            None => scan_from(cubes, ray, i + 1, far, best),
        }
    }
}

/// The nearest hit of a ray in the scene, if any.
pub open spec fn nearest_hit(cubes: Seq<AabbV>, ray: RayV) -> Option<HitV> {
    scan_from(cubes, ray, 0, FX_MAX as int, None)
}

/// Does anything block the shadow probe?
pub open spec fn occluded(cubes: Seq<AabbV>, sray: RayV) -> bool {
    exists|k: int|
        0 <= k < cubes.len() && hit_spec(cubes[k], sray, T_MIN as int, SHADOW_FAR as int)
            is Some
}

/// The day sky: a vertical gradient from horizon to zenith, blended by
/// the three-quarter power of the height.
pub open spec fn sky_spec(d: V3) -> V3 {
    let t = clamp01_fx(add_fx(mul_fx(d.y, 500_000), 500_000));
    lerp_v3(
        V3 { x: 700_000, y: 800_000, z: 950_000 },
        V3 { x: 400_000, y: 600_000, z: 950_000 },
        pow34_fx(t),
    )
}

/// The sun's direction, before normalization.
pub open spec fn sun_dir_raw() -> V3 {
    V3 { x: 400_000, y: -700_000, z: 300_000 }
}

/// Direct lighting of a hit, with the recursive reflection handed in, so
/// that what a given bounce budget contributes is stated explicitly.
pub open spec fn shade_hit(s: SceneV, ray: RayV, h: HitV, specular: V3) -> V3 {
    let mat = s.mats[h.mat_id];
    let sun_dir = norm_v3(sun_dir_raw());
    let sun_color = scale_v3(V3 { x: 1_000_000, y: 980_000, z: 950_000 }, 1_800_000);
    let sray = RayV { o: add_v3(h.p, scale_v3(h.n, 1_000)), d: neg_v3(sun_dir) };
    let shadow_factor: int = if occluded(s.cubes, sray) {
        250_000
    } else {
        1_000_000
    };
    let ndotl = max_fx(dot_v3(h.n, neg_v3(sun_dir)), 0);
    let diffuse = scale_v3(scale_v3(mul_v3(mat.albedo, sun_color), ndotl), shadow_factor);
    let ambient = scale_v3(mul_v3(mat.albedo, V3 { x: 350_000, y: 400_000, z: 500_000 }), 400_000);
    let view_dir = neg_v3(ray.d);
    let srefl = sub_v3(sun_dir, scale_v3(scale_v3(h.n, 2_000_000), dot_v3(sun_dir, h.n)));
    let spec_factor = pow64_fx(max_fx(dot_v3(view_dir, srefl), 0));
    let highlight = scale_v3(
        scale_v3(
            scale_v3(scale_v3(V3 { x: SCALE as int, y: SCALE as int, z: SCALE as int },
                spec_factor), mat.specular),
            shadow_factor,
        ),
        800_000,
    );
    clamp01_v3(add_v3(add_v3(add_v3(ambient, diffuse), specular), highlight))
}

/// The color a ray traces to, with `depth` bounces left.
pub open spec fn trace_spec(s: SceneV, ray: RayV, depth: int) -> V3
    decreases depth,
{
    if depth <= 0 {
        V3 { x: 0, y: 0, z: 0 }
    } else {
        match nearest_hit(s.cubes, ray) {
            None => sky_spec(ray.d),
            Some(h) => {
                let mat = s.mats[h.mat_id];
                let specular = if mat.reflectivity > 10_000 && depth > 1 {
                    let rdir = sub_v3(
                        ray.d,
                        scale_v3(scale_v3(h.n, 2_000_000), dot_v3(ray.d, h.n)),
                    );
                    let rray = RayV {
                        o: add_v3(h.p, scale_v3(h.n, 1_000)),
                        d: norm_v3(rdir),
                    };
                    let rc = trace_spec(s, rray, depth - 1);
                    if mat.reflectivity > 700_000 {
                        scale_v3(
                            mul_v3(rc, V3 { x: 850_000, y: 900_000, z: 1_000_000 }),
                            mat.reflectivity,
                        )
                    } else {
                        scale_v3(rc, mat.reflectivity)
                    }
                } else {
                    V3 { x: 0, y: 0, z: 0 }
                };
                shade_hit(s, ray, h, specular)
            },
        }
    }
}

impl Scene {
    /// Every box's material index points into the material list.
    pub open spec fn wf(self) -> bool {
        forall|i: int|
            0 <= i < self@.cubes.len() ==> 0 <= (#[trigger] self@.cubes[i]).mat_id
                < self@.mats.len()
    }

    /// The background color along a direction.
    pub fn sky(&self, d: &Vec3) -> (c: Vec3)
        ensures
            c@ == sky_spec(d@),
            c.wf(),
            v3_unit(c@),
    {
        let t = fx_clamp01(fx_add(fx_mul(d.y, 500_000), 500_000));
        let horizon = Vec3 { x: 700_000, y: 800_000, z: 950_000 };
        let zenith = Vec3 { x: 400_000, y: 600_000, z: 950_000 };
        let tp = fx_pow34(t);
        let c = lerp(horizon, zenith, tp);
        proof {
            lemma_blend_unit(700_000, 400_000, tp as int);
            lemma_blend_unit(800_000, 600_000, tp as int);
            lemma_blend_unit(950_000, 950_000, tp as int);
        }
        c
    }

    /// Trace a ray to its color, with `depth` bounces left.
    pub fn trace(&self, ray: &Ray, depth: i32) -> (c: Vec3)
        requires
            self.wf(),
            ray.o.wf(),
            ray.d.wf(),
        ensures
            c@ == trace_spec(self@, ray@, depth as int),
            c.wf(),
            v3_unit(c@),
        decreases depth,
    {
        if depth <= 0 {
            return Vec3 { x: 0, y: 0, z: 0 };
        }

        let ghost s = self@;
        let mut far: i64 = FX_MAX;
        let mut best: Option<Hit> = None;
        let mut i: usize = 0;
        while i < self.cubes.len()
            invariant
                self.wf(),
                s == self@,
                0 <= i <= self.cubes.len(),
                fx_ok(far as int),
                scan_from(s.cubes, ray@, i as int, far as int, hit_opt_view(best))
                    == nearest_hit(s.cubes, ray@),
                (best matches Some(h) ==> 0 <= h@.mat_id < s.mats.len() && h.p.wf() && h.n.wf()
                    && fx_ok(h.t as int)),
            decreases self.cubes.len() - i,
        {
            let cube = self.cubes[i];
            proof {
                assert(cube@ == s.cubes[i as int]);
            }
            match cube.hit(ray, T_MIN, far) {
                Some(h) => {
                    far = h.t;
                    best = Some(h);
                },
                None => {},
            }
            i = i + 1;
        }

        match best {
            None => self.sky(&ray.d),
            Some(h) => {
                let mat = self.mats[h.mat_id];
                proof {
                    assert(mat@ == s.mats[h@.mat_id]);
                }
                let sun_dir = Vec3 { x: 400_000, y: -700_000, z: 300_000 }.norm();
                let sun_color = Vec3 { x: 1_000_000, y: 980_000, z: 950_000 }.scale(1_800_000);

                let sray = Ray { o: h.p.add(h.n.scale(1_000)), d: sun_dir.neg() };
                let mut in_shadow = false;
                let mut j: usize = 0;
                while j < self.cubes.len()
                    invariant
                        self.wf(),
                        s == self@,
                        0 <= j <= self.cubes.len(),
                        in_shadow <==> exists|k: int|
                            0 <= k < j && hit_spec(
                                s.cubes[k],
                                sray@,
                                T_MIN as int,
                                SHADOW_FAR as int,
                            ) is Some,
                    decreases self.cubes.len() - j,
                {
                    let cube = self.cubes[j];
                    proof {
                        assert(cube@ == s.cubes[j as int]);
                    }
                    match cube.hit(&sray, T_MIN, SHADOW_FAR) {
                        Some(_) => {
                            in_shadow = true;
                        },
                        None => {},
                    }
                    j = j + 1;
                }
                proof {
                    assert(in_shadow == occluded(s.cubes, sray@));
                }

                let shadow_factor: i64 = if in_shadow {
                    250_000
                } else {
                    1_000_000
                };
                let ndotl = fx_max(h.n.dot(sun_dir.neg()), 0);
                let diffuse = mat.albedo.mul(sun_color).scale(ndotl).scale(shadow_factor);
                let ambient = mat.albedo.mul(Vec3 { x: 350_000, y: 400_000, z: 500_000 })
                    .scale(400_000);

                let mut specular = Vec3 { x: 0, y: 0, z: 0 };
                if mat.reflectivity > 10_000 && depth > 1 {
                    let rdir = ray.d.sub(h.n.scale(2_000_000).scale(ray.d.dot(h.n)));
                    let rray = Ray { o: h.p.add(h.n.scale(1_000)), d: rdir.norm() };
                    let rc = self.trace(&rray, depth - 1);
                    if mat.reflectivity > 700_000 {
                        specular = rc.mul(Vec3 { x: 850_000, y: 900_000, z: 1_000_000 })
                            .scale(mat.reflectivity);
                    } else {
                        specular = rc.scale(mat.reflectivity);
                    }
                }

                let view_dir = ray.d.neg();
                let srefl = sun_dir.sub(h.n.scale(2_000_000).scale(sun_dir.dot(h.n)));
                let spec_factor = fx_pow64(fx_max(view_dir.dot(srefl), 0));
                let highlight = Vec3 { x: SCALE, y: SCALE, z: SCALE }.scale(spec_factor)
                    .scale(mat.specular)
                    .scale(shadow_factor)
                    .scale(800_000);

                ambient.add(diffuse).add(specular).add(highlight).clamp01()
            },
        }
    }
}

/// The scene's sky is the environment that shading samples.
impl Env for Scene {
    open spec fn view_color(&self, d: V3) -> V3 {
        sky_spec(d)
    }

    fn sample(&self, d: &Vec3) -> (c: Vec3) {
        self.sky(d)
    }
}

/// With no boxes at all, a traced ray shows exactly the sky of its
/// direction.
pub proof fn lemma_trace_empty_scene(s: SceneV, ray: RayV, depth: int)
    requires
        s.cubes.len() == 0,
        depth >= 1,
    ensures
        trace_spec(s, ray, depth) == sky_spec(ray.d),
{
    assert(nearest_hit(s.cubes, ray) is None);
}

/// With the bounce budget exhausted, a traced ray is black.
pub proof fn lemma_trace_depth_exhausted(s: SceneV, ray: RayV, depth: int)
    requires
        depth <= 0,
    ensures
        trace_spec(s, ray, depth) == (V3 { x: 0, y: 0, z: 0 }),
{
}

/// With exactly one bounce left the reflective branch contributes
/// nothing: the hit is lit as if its reflection were black.
pub proof fn lemma_trace_depth_one_no_reflection(s: SceneV, ray: RayV)
    ensures
        nearest_hit(s.cubes, ray) matches Some(h) ==> trace_spec(s, ray, 1) == shade_hit(
            s,
            ray,
            h,
            V3 { x: 0, y: 0, z: 0 },
        ),
{
}

} // verus!
