//! Rays: an origin and a direction.

use vstd::prelude::*;
use crate::math::{Vec3, V3, add_v3, scale_v3};

verus! {

/// The mathematical image of a `Ray`.
pub ghost struct RayV {
    pub o: V3,
    pub d: V3,
}

#[derive(Clone, Copy, Debug)]
pub struct Ray {
    pub o: Vec3,
    pub d: Vec3,
}

impl View for Ray {
    type V = RayV;

    open spec fn view(&self) -> RayV {
        RayV { o: self.o@, d: self.d@ }
    }
}

/// The point `o + d t` a parameter `t` along a ray.
pub open spec fn at_v3(r: RayV, t: int) -> V3 {
    add_v3(r.o, scale_v3(r.d, t))
}

impl Ray {
    pub fn at(&self, t: i64) -> (p: Vec3)
        ensures
            p@ == at_v3(self@, t as int),
            p.wf(),
    {
        self.o.add(self.d.scale(t))
    }
}

} // verus!
