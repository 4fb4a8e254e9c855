//! Rays: an origin and a direction, parameterizing `origin + t * direction`.

use vstd::prelude::*;
use crate::fx::{Fx, iabs, fx_mul_raw};
use crate::vec3::{Vec3, Point3, spec_add, spec_scale};

verus! {

/// A ray from `origin` along `direction`.
#[derive(Clone, Copy, PartialEq, Eq, Structural, Debug)]
pub struct Ray {
    pub origin: Point3,
    pub direction: Vec3,
}

/// The point `origin + t * direction`.
pub open spec fn spec_ray_at(r: Ray, t: Fx) -> Point3 {
    spec_add(r.origin, spec_scale(r.direction, t))
}

impl Ray {
    /// The ray with the given origin and direction.
    pub fn new(origin: Point3, direction: Vec3) -> (r: Ray)
        ensures
            r == (Ray { origin, direction }),
    {
        Ray { origin, direction }
    }

    /// The origin.
    pub fn origin(&self) -> (r: Point3)
        ensures
            r == self.origin,
    {
        self.origin
    }

    /// The direction.
    pub fn direction(&self) -> (r: Vec3)
        ensures
            r == self.direction,
    {
        self.direction
    }

    /// The point at parameter `t` along the ray.
    pub fn at(&self, t: Fx) -> (r: Point3)
        requires
            iabs(t.raw as int) <= 0x400_0000,
            self.direction.bounded(0x400_0000),
            self.origin.bounded(0x1000_0000_0000),
        ensures
            r == spec_ray_at(*self, t),
            r.bounded(0x1010_0000_0000),
    {
        proof {
            crate::fx::lemma_fx_mul_mag(self.direction.x.raw as int, t.raw as int,
                0x400_0000, 0x400_0000, 0x10_0000_0000);
            crate::fx::lemma_fx_mul_mag(self.direction.y.raw as int, t.raw as int,
                0x400_0000, 0x400_0000, 0x10_0000_0000);
            crate::fx::lemma_fx_mul_mag(self.direction.z.raw as int, t.raw as int,
                0x400_0000, 0x400_0000, 0x10_0000_0000);
        }
        self.origin.plus(self.direction.scale(t))
    }
}

} // verus!
