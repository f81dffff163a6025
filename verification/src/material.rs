//! Materials and the shading model.
//!
//! A material is a closed set of behaviors — diffuse, metal, dielectric,
//! emissive, plastic — over shared attributes. Shading needs to ask what
//! color the environment shows in a direction without knowing how that
//! color is computed; that capability is the `Env` trait, which the scene
//! implements, and whose answer enters the contracts through the
//! implementor's own `view_color`.

use vstd::prelude::*;
use crate::fixed::{SCALE, mul_fx, div_fx, sub_fx, max_fx, clamp01_fx, exp_neg_fx,
    fx_mul, fx_div, fx_sub, fx_max, fx_exp_neg, fx_clamp01,
    lemma_mul_fx_unit, lemma_mul_fx_nonneg, lemma_exp_neg_unit, lemma_blend_unit,
};
use crate::math::{
    Vec3, V3, v3_ok, v3_unit, add_v3, sub_v3, mul_v3, scale_v3, neg_v3, dot_v3, norm_v3,
    clamp01_v3, lerp_v3, reflect_v3, refract_v3, fresnel_v3,
    v, lerp, reflect, refract, fresnel_schlick,
};
use crate::ray::{Ray, RayV};

verus! {

/// The mathematical image of a `Kind`.
pub ghost enum KindV {
    Diffuse,
    Metal { rough: int },
    Dielectric { ior: int, absorption: V3 },
    Emissive { intensity: int },
    Plastic { rough: int },
}

/// A shading behavior.
#[derive(Clone, Copy)]
pub enum Kind {
    Diffuse,
    Metal { rough: i64 },
    Dielectric { ior: i64, absorption: Vec3 },
    Emissive { intensity: i64 },
    Plastic { rough: i64 },
}

impl View for Kind {
    type V = KindV;

    open spec fn view(&self) -> KindV {
        match *self {
            Kind::Diffuse => KindV::Diffuse,
            Kind::Metal { rough } => KindV::Metal { rough: rough as int },
            Kind::Dielectric { ior, absorption } => KindV::Dielectric {
                ior: ior as int,
                absorption: absorption@,
            },
            Kind::Emissive { intensity } => KindV::Emissive { intensity: intensity as int },
            Kind::Plastic { rough } => KindV::Plastic { rough: rough as int },
        }
    }
}

/// The mathematical image of a `Material`.
pub ghost struct MaterialV {
    pub kind: KindV,
    pub albedo: V3,
    pub specular: int,
    pub transparency: int,
    pub reflectivity: int,
}

#[derive(Clone, Copy)]
pub struct Material {
    pub kind: Kind,
    pub albedo: Vec3,
    pub specular: i64,
    pub transparency: i64,
    pub reflectivity: i64,
}

impl View for Material {
    type V = MaterialV;

    open spec fn view(&self) -> MaterialV {
        MaterialV {
            kind: self.kind@,
            albedo: self.albedo@,
            specular: self.specular as int,
            transparency: self.transparency as int,
            reflectivity: self.reflectivity as int,
        }
    }
}

/// What shading may ask of its surroundings: the color seen along a
/// direction. The scene implements this with its sky.
pub trait Env {
    /// The color this environment shows along a direction.
    spec fn view_color(&self, d: V3) -> V3;

    /// Sample the environment along a direction.
    fn sample(&self, d: &Vec3) -> (c: Vec3)
        requires
            d.wf(),
        ensures
            c@ == self.view_color(d@),
            c.wf(),
    ;
}

/// The Fresnel factor shading starts from: the view cosine against a base
/// reflectance blended toward the albedo.
pub open spec fn shade_fresnel(n: V3, ray: RayV, mat: MaterialV) -> V3 {
    let view = norm_v3(neg_v3(ray.d));
    let cos_theta = max_fx(dot_v3(n, view), 0);
    let gray = V3 { x: 40_000, y: 40_000, z: 40_000 };
    let f0 = lerp_v3(gray, mat.albedo, clamp01_fx(mat.reflectivity));
    clamp01_v3(fresnel_v3(cos_theta, f0))
}

/// The color a material shades to, given the hit geometry and the
/// environment's answers along the directions it asks about.
pub open spec fn shade_spec<E: Env>(
    env: &E,
    n: V3,
    ray: RayV,
    mat: MaterialV,
    depth: int,
) -> V3 {
    let view = norm_v3(neg_v3(ray.d));
    let cos_theta = max_fx(dot_v3(n, view), 0);
    let fres = shade_fresnel(n, ray, mat);
    let one = V3 { x: SCALE as int, y: SCALE as int, z: SCALE as int };
    match mat.kind {
        KindV::Emissive { intensity } => scale_v3(mat.albedo, intensity),
        KindV::Diffuse => {
            let base = scale_v3(mat.albedo, cos_theta);
            let glint = scale_v3(one, fres.x);
            clamp01_v3(add_v3(scale_v3(base, 900_000), scale_v3(glint, 100_000)))
        },
        KindV::Metal { rough } => {
            if depth <= 0 {
                V3 { x: 0, y: 0, z: 0 }
            } else {
                let refl_dir = norm_v3(reflect_v3(ray.d, n));
                let jitter = scale_v3(n, mul_fx(rough, 200_000));
                let rd = norm_v3(add_v3(refl_dir, jitter));
                scale_v3(env.view_color(rd), fres.x)
            }
        },
        KindV::Dielectric { ior, absorption } => {
            if depth <= 0 {
                V3 { x: 0, y: 0, z: 0 }
            } else {
                let entering = dot_v3(ray.d, n) < 0;
                let eta = if entering {
                    div_fx(SCALE as int, ior)
                } else {
                    div_fx(ior, SCALE as int)
                };
                let nn = if entering {
                    n
                } else {
                    neg_v3(n)
                };
                let refl_dir = norm_v3(reflect_v3(ray.d, nn));
                let refl_col = env.view_color(refl_dir);
                match refract_v3(ray.d, nn, eta) {
                    Some(td) => {
                        let att = V3 {
                            x: exp_neg_fx(mul_fx(absorption.x, SCALE as int)),
                            y: exp_neg_fx(mul_fx(absorption.y, SCALE as int)),
                            z: exp_neg_fx(mul_fx(absorption.z, SCALE as int)),
                        };
                        let trans_col = mul_v3(env.view_color(norm_v3(td)), att);
                        mul_v3(
                            add_v3(mul_v3(refl_col, fres), mul_v3(trans_col, sub_v3(one, fres))),
                            mat.albedo,
                        )
                    },
                    None => mul_v3(refl_col, mat.albedo),
                }
            }
        },
        KindV::Plastic { rough } => {
            let lambert = scale_v3(mat.albedo, cos_theta);
            let glint = scale_v3(mul_v3(one, fres), max_fx(sub_fx(SCALE as int, rough), 0));
            clamp01_v3(add_v3(scale_v3(lambert, 850_000), scale_v3(glint, 150_000)))
        },
    }
}

/// Shade one hit: the hit point, outward normal, the incoming ray, the
/// material, the environment to sample, and the remaining bounce budget.
pub fn shade<E: Env>(
    hit_p: Vec3,
    n: Vec3,
    ray: &Ray,
    mat: &Material,
    env: &E,
    depth: i32,
) -> (r: Vec3)
    requires
        n.wf(),
        ray.d.wf(),
    ensures
        r@ == shade_spec(env, n@, ray@, mat@, depth as int),
        r.wf(),
        (mat@.kind matches KindV::Emissive { intensity } ==> r@ == scale_v3(
            mat@.albedo,
            intensity,
        )),
        mat@.kind is Diffuse || mat@.kind is Plastic ==> v3_unit(r@),
        depth <= 0 && (mat@.kind is Metal || mat@.kind is Dielectric) ==> r@ == (V3 {
            x: 0,
            y: 0,
            z: 0,
        }),
{
    let view = ray.d.neg().norm();
    let cos_theta = fx_max(n.dot(view), 0);
    let f0 = lerp(v(40_000), mat.albedo, fx_clamp01(mat.reflectivity));
    let fres = fresnel_schlick(cos_theta, f0).clamp01();

    match mat.kind {
        Kind::Emissive { intensity } => mat.albedo.scale(intensity),
        Kind::Diffuse => {
            let base = mat.albedo.scale(cos_theta);
            let glint = v(SCALE).scale(fres.x);
            base.scale(900_000).add(glint.scale(100_000)).clamp01()
        },
        Kind::Metal { rough } => {
            if depth <= 0 {
                return v(0);
            }
            let refl_dir = reflect(ray.d, n).norm();
            let jitter = n.scale(fx_mul(rough, 200_000));
            let rd = refl_dir.add(jitter).norm();
            let rray = Ray { o: hit_p.add(n.scale(1_000)), d: rd };
            env.sample(&rray.d).scale(fres.x)
        },
        Kind::Dielectric { ior, absorption } => {
            if depth <= 0 {
                return v(0);
            }
            let entering = ray.d.dot(n) < 0;
            let eta = if entering {
                fx_div(SCALE, ior)
            } else {
                fx_div(ior, SCALE)
            };
            let nn = if entering {
                n
            } else {
                n.neg()
            };
            let refl_dir = reflect(ray.d, nn).norm();
            let refl_col = env.sample(&refl_dir);

            match refract(ray.d, nn, eta) {
                Some(td) => {
                    let trans_ray = Ray { o: hit_p.sub(nn.scale(1_000)), d: td.norm() };
                    // Beer-Lambert decay over a nominal unit path; the
                    // engine does not track the true chord through the
                    // medium
                    let att = Vec3 {
                        x: fx_exp_neg(fx_mul(absorption.x, SCALE)),
                        y: fx_exp_neg(fx_mul(absorption.y, SCALE)),
                        z: fx_exp_neg(fx_mul(absorption.z, SCALE)),
                    };
                    let trans_col = env.sample(&trans_ray.d).mul(att);
                    refl_col.mul(fres).add(trans_col.mul(v(SCALE).sub(fres))).mul(mat.albedo)
                },
                None => refl_col.mul(mat.albedo),
            }
        },
        Kind::Plastic { rough } => {
            let lambert = mat.albedo.scale(cos_theta);
            let glint = v(SCALE).mul(fres).scale(fx_max(fx_sub(SCALE, rough), 0));
            lambert.scale(850_000).add(glint.scale(150_000)).clamp01()
        },
    }
}

/// Does an environment only ever show unit-cube colors?
pub open spec fn env_unit<E: Env>(env: &E) -> bool {
    forall|dir: V3| v3_unit(#[trigger] env.view_color(dir))
}

/// Shaded colors lie componentwise in the unit cube: outright for the
/// clamped kinds, and for the reflective and refractive kinds whenever
/// the environment shows unit colors, the albedo is a color, and the
/// absorption is nonnegative. An emissive material scales its albedo by
/// an intensity and may leave the cube by design, so it is not claimed.
pub proof fn lemma_shade_unit<E: Env>(env: &E, n: V3, ray: RayV, mat: MaterialV, depth: int)
    requires
        env_unit(env),
        v3_unit(mat.albedo),
        (mat.kind matches KindV::Dielectric { ior, absorption } ==> absorption.x >= 0
            && absorption.y >= 0 && absorption.z >= 0),
        !(mat.kind is Emissive),
    ensures
        v3_unit(shade_spec(env, n, ray, mat, depth)),
{
    let fres = shade_fresnel(n, ray, mat);
    let one = V3 { x: SCALE as int, y: SCALE as int, z: SCALE as int };
    match mat.kind {
        KindV::Emissive { .. } => {
        },
        KindV::Diffuse => {
        },
        KindV::Plastic { .. } => {
        },
        KindV::Metal { rough } => {
            if depth > 0 {
                let refl_dir = norm_v3(reflect_v3(ray.d, n));
                let jitter = scale_v3(n, mul_fx(rough, 200_000));
                let rd = norm_v3(add_v3(refl_dir, jitter));
                let c = env.view_color(rd);
                assert(v3_unit(c));
                lemma_mul_fx_unit(c.x, fres.x);
                lemma_mul_fx_unit(c.y, fres.x);
                lemma_mul_fx_unit(c.z, fres.x);
            }
        },
        KindV::Dielectric { ior, absorption } => {
            if depth > 0 {
                let entering = dot_v3(ray.d, n) < 0;
                let eta = if entering {
                    div_fx(SCALE as int, ior)
                } else {
                    div_fx(ior, SCALE as int)
                };
                let nn = if entering {
                    n
                } else {
                    neg_v3(n)
                };
                let refl_dir = norm_v3(reflect_v3(ray.d, nn));
                let refl_col = env.view_color(refl_dir);
                assert(v3_unit(refl_col));
                match refract_v3(ray.d, nn, eta) {
                    Some(td) => {
                        lemma_mul_fx_nonneg(absorption.x, SCALE as int);
                        lemma_mul_fx_nonneg(absorption.y, SCALE as int);
                        lemma_mul_fx_nonneg(absorption.z, SCALE as int);
                        lemma_exp_neg_unit(mul_fx(absorption.x, SCALE as int));
                        lemma_exp_neg_unit(mul_fx(absorption.y, SCALE as int));
                        lemma_exp_neg_unit(mul_fx(absorption.z, SCALE as int));
                        let att = V3 {
                            x: exp_neg_fx(mul_fx(absorption.x, SCALE as int)),
                            y: exp_neg_fx(mul_fx(absorption.y, SCALE as int)),
                            z: exp_neg_fx(mul_fx(absorption.z, SCALE as int)),
                        };
                        let sample = env.view_color(norm_v3(td));
                        assert(v3_unit(sample));
                        lemma_mul_fx_unit(sample.x, att.x);
                        lemma_mul_fx_unit(sample.y, att.y);
                        lemma_mul_fx_unit(sample.z, att.z);
                        let trans_col = mul_v3(sample, att);
                        lemma_blend_unit(refl_col.x, trans_col.x, fres.x);
                        lemma_blend_unit(refl_col.y, trans_col.y, fres.y);
                        lemma_blend_unit(refl_col.z, trans_col.z, fres.z);
                        let blend = add_v3(
                            mul_v3(refl_col, fres),
                            mul_v3(trans_col, sub_v3(one, fres)),
                        );
                        lemma_mul_fx_unit(blend.x, mat.albedo.x);
                        lemma_mul_fx_unit(blend.y, mat.albedo.y);
                        lemma_mul_fx_unit(blend.z, mat.albedo.z);
                    },
                    None => {
                        lemma_mul_fx_unit(refl_col.x, mat.albedo.x);
                        lemma_mul_fx_unit(refl_col.y, mat.albedo.y);
                        lemma_mul_fx_unit(refl_col.z, mat.albedo.z);
                    },
                }
            }
        },
    }
}

/// The stock material set: a gray floor, polished metal, glass, red
/// plastic, and a white light.
pub fn default_materials() -> (r: Vec<Material>)
    ensures
        r@.len() == 5,
        r@[0]@ == (MaterialV {
            kind: KindV::Diffuse,
            albedo: V3 { x: 800_000, y: 800_000, z: 850_000 },
            specular: 100_000,
            transparency: 0,
            reflectivity: 0,
        }),
        r@[1]@ == (MaterialV {
            kind: KindV::Metal { rough: 200_000 },
            albedo: V3 { x: 900_000, y: 900_000, z: 950_000 },
            specular: 1_000_000,
            transparency: 0,
            reflectivity: 900_000,
        }),
        r@[2]@ == (MaterialV {
            kind: KindV::Dielectric {
                ior: 1_500_000,
                absorption: V3 { x: 100_000, y: 30_000, z: 10_000 },
            },
            albedo: V3 { x: 1_000_000, y: 1_000_000, z: 1_000_000 },
            specular: 40_000,
            transparency: 1_000_000,
            reflectivity: 40_000,
        }),
        r@[3]@ == (MaterialV {
            kind: KindV::Plastic { rough: 400_000 },
            albedo: V3 { x: 900_000, y: 200_000, z: 250_000 },
            specular: 200_000,
            transparency: 0,
            reflectivity: 40_000,
        }),
        r@[4]@ == (MaterialV {
            kind: KindV::Emissive { intensity: 4_000_000 },
            albedo: V3 { x: 900_000, y: 900_000, z: 1_000_000 },
            specular: 0,
            transparency: 0,
            reflectivity: 0,
        }),
{
    let mut mats: Vec<Material> = Vec::new();
    mats.push(
        Material {
            kind: Kind::Diffuse,
            albedo: Vec3 { x: 800_000, y: 800_000, z: 850_000 },
            specular: 100_000,
            transparency: 0,
            reflectivity: 0,
        },
    );
    mats.push(
        Material {
            kind: Kind::Metal { rough: 200_000 },
            albedo: Vec3 { x: 900_000, y: 900_000, z: 950_000 },
            specular: 1_000_000,
            transparency: 0,
            reflectivity: 900_000,
        },
    );
    mats.push(
        Material {
            kind: Kind::Dielectric {
                ior: 1_500_000,
                absorption: Vec3 { x: 100_000, y: 30_000, z: 10_000 },
            },
            albedo: Vec3 { x: 1_000_000, y: 1_000_000, z: 1_000_000 },
            specular: 40_000,
            transparency: 1_000_000,
            reflectivity: 40_000,
        },
    );
    mats.push(
        Material {
            kind: Kind::Plastic { rough: 400_000 },
            albedo: Vec3 { x: 900_000, y: 200_000, z: 250_000 },
            specular: 200_000,
            transparency: 0,
            reflectivity: 40_000,
        },
    );
    mats.push(
        Material {
            kind: Kind::Emissive { intensity: 4_000_000 },
            albedo: Vec3 { x: 900_000, y: 900_000, z: 1_000_000 },
            specular: 0,
            transparency: 0,
            reflectivity: 0,
        },
    );
    mats
}

} // verus!
