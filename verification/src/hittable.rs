//! Hit records and the closed family of intersectable shapes.

use vstd::prelude::*;
use crate::fx::{Fx, iabs};
use crate::vec3::{Vec3, Point3, spec_dot, spec_neg};
use crate::ray::Ray;
use crate::interval::Interval;
use crate::material::Material;
use crate::sphere::{Sphere, spec_sphere_hit};
use crate::triangle::{Triangle, spec_triangle_hit};
use crate::pyramid::{Pyramid, spec_pyramid_hit};

verus! {

/// The outcome of a successful intersection: parameter, point, oriented
/// surface normal, which side was struck, and the struck material.
#[derive(Clone, Copy, PartialEq, Eq, Structural, Debug)]
pub struct HitRecord {
    pub t: Fx,
    pub p: Point3,
    pub normal: Vec3,
    pub front_face: bool,
    pub material: Option<Material>,
}

impl HitRecord {
    /// An empty record, waiting to be filled by an intersection test.
    pub fn new() -> (r: HitRecord)
        ensures
            r == (HitRecord {
                t: Fx { raw: 0 },
                p: Vec3 { x: Fx { raw: 0 }, y: Fx { raw: 0 }, z: Fx { raw: 0 } },
                normal: Vec3 { x: Fx { raw: 0 }, y: Fx { raw: 0 }, z: Fx { raw: 0 } },
                front_face: false,
                material: Option::<Material>::None,
            }),
    {
        HitRecord {
            t: Fx { raw: 0 },
            p: Vec3 { x: Fx { raw: 0 }, y: Fx { raw: 0 }, z: Fx { raw: 0 } },
            normal: Vec3 { x: Fx { raw: 0 }, y: Fx { raw: 0 }, z: Fx { raw: 0 } },
            front_face: false,
            material: Option::<Material>::None,
        }
    }

    /// Orient `outward_normal` against the incoming ray: the stored normal
    /// points against the ray, and `front_face` records whether the ray
    /// struck the outside.
    pub fn set_face_normal(&mut self, ray: Ray, outward_normal: Vec3)
        requires
            ray.direction.bounded(0x40_0000_0000),
            outward_normal.bounded(0x40_0000_0000),
        ensures
            final(self).front_face == (spec_dot(ray.direction, outward_normal) < 0),
            final(self).normal == (if spec_dot(ray.direction, outward_normal) < 0 {
                outward_normal
            } else {
                spec_neg(outward_normal)
            }),
            final(self).t == old(self).t,
            final(self).p == old(self).p,
            final(self).material == old(self).material,
    {
        let d = crate::vec3::dot(ray.direction, outward_normal);
        self.front_face = d.raw < 0;
        self.normal = if self.front_face {
            outward_normal
        } else {
            outward_normal.negate()
        };
    }
}

/// The closed family of intersectable shapes, dispatched by pattern match.
#[derive(Clone, Debug)]
pub enum Hittable {
    Sphere(Sphere),
    Triangle(Triangle),
    Pyramid(Pyramid),
}

impl Hittable {
    /// Validity of the shape's geometry and material.
    pub open spec fn wf(self) -> bool {
        match self {
            Hittable::Sphere(s) => s.wf(),
            Hittable::Triangle(t) => t.wf(),
            Hittable::Pyramid(p) => p.wf(),
        }
    }

    /// The record the shape reports for `ray` within `ray_t`.
    pub open spec fn spec_hit(self, ray: Ray, ray_t: Interval) -> Option<HitRecord> {
        match self {
            Hittable::Sphere(s) => spec_sphere_hit(s, ray, ray_t),
            Hittable::Triangle(t) => spec_triangle_hit(t, ray, ray_t),
            Hittable::Pyramid(p) => spec_pyramid_hit(p, ray, ray_t),
        }
    }

    /// Dispatch the intersection test to the shape; `rec` is filled exactly
    /// as `spec_hit` says, and left untouched on a miss.
    pub fn hit(&self, ray: Ray, ray_t: Interval, rec: &mut HitRecord) -> (b: bool)
        requires
            self.wf(),
            ray.origin.bounded(0x400_0000),
            ray.direction.bounded(0x400_0000),
            iabs(ray_t.min.raw as int) <= 0x400_0000,
            iabs(ray_t.max.raw as int) <= 0x400_0000,
        ensures
            (match self.spec_hit(ray, ray_t) {
                Some(r2) => b && *final(rec) == r2,
                None => !b && *final(rec) == *old(rec),
            }),
            b ==> final(rec).normal.bounded(0x0200_0000),
            b ==> final(rec).p.bounded(0x20_0000_0000),
            b ==> ray_t.min.raw <= final(rec).t.raw <= ray_t.max.raw,
            b ==> (match final(rec).material {
                Some(m) => m.wf(),
                None => false,
            }),
    {
        match self {
            Hittable::Sphere(s) => s.hit(ray, ray_t, rec),
            Hittable::Triangle(t) => t.hit(ray, ray_t, rec),
            Hittable::Pyramid(p) => p.hit(ray, ray_t, rec),
        }
    }
}

} // verus!
