//! Triangles and their exact Moller-Trumbore intersection.

use vstd::prelude::*;
use crate::fx::{
    Fx, SCALE, iabs, fx_div_raw, lemma_fx_mul_mag, lemma_fx_div_mag,
};
use crate::vec3::{
    Vec3, Point3, spec_add, spec_sub, spec_scale, spec_neg, spec_dot, spec_len2, spec_cross,
    spec_unit, lemma_cross_mags, lemma_dot_mags,
};
use crate::ray::Ray;
use crate::interval::Interval;
use crate::hittable::HitRecord;
use crate::material::Material;

verus! {

/// A triangle: three vertices and the material of its face.
#[derive(Clone, Copy, PartialEq, Eq, Structural, Debug)]
pub struct Triangle {
    pub v0: Point3,
    pub v1: Point3,
    pub v2: Point3,
    pub material: Material,
}

impl Triangle {
    /// Vertices within the world envelope and a valid material.
    pub open spec fn wf(self) -> bool {
        self.v0.bounded(0x100_0000) && self.v1.bounded(0x100_0000)
            && self.v2.bounded(0x100_0000) && self.material.wf()
    }

    /// The triangle over the given vertices.
    pub fn new(v0: Point3, v1: Point3, v2: Point3, material: Material) -> (r: Triangle)
        requires
            v0.bounded(0x100_0000),
            v1.bounded(0x100_0000),
            v2.bounded(0x100_0000),
            material.wf(),
        ensures
            r == (Triangle { v0, v1, v2, material }),
            r.wf(),
    {
        Triangle { v0, v1, v2, material }
    }
}

/// The record a triangle hit at parameter `t` produces: the hit point and
/// the normalized face normal `e1 x e2` oriented against the ray. A triangle
/// whose face normal vanishes at fixed-point resolution (collinear vertices)
/// is rejected as degenerate.
pub open spec fn spec_triangle_rec(tr: Triangle, ray: Ray, t: int) -> Option<HitRecord> {
    let e1 = spec_sub(tr.v1, tr.v0);
    let e2 = spec_sub(tr.v2, tr.v0);
    let n0 = spec_cross(e1, e2);
    if spec_len2(n0) <= 0 {
        None
    } else {
        let p = spec_add(ray.origin, spec_scale(ray.direction, Fx { raw: t as i64 }));
        let outward = spec_unit(n0);
        let front = spec_dot(ray.direction, outward) < 0;
        Some(HitRecord {
            t: Fx { raw: t as i64 },
            p,
            normal: if front {
                outward
            } else {
                spec_neg(outward)
            },
            front_face: front,
            material: Some(tr.material),
        })
    }
}

/// Moller-Trumbore intersection: with edges `e1, e2`, `h = D x e2` and
/// determinant `a = e1 . h`, the ray is parallel when `|a|` falls below the
/// fixed-point threshold 16 (2^-12). That threshold is wider than the
/// near-parallel cutoff of 1e-8 the design names — which lies below one
/// fixed-point step and would reject only a determinant of exactly zero —
/// because it is the smallest rejection the 64-bit envelope admits: the
/// barycentric quotients of a smaller determinant could overflow their
/// budget, and they carry no significant bits at this resolution anyway.
/// Else the barycentric coordinates
/// `u = (s . h) / a` and `v = (D . (s x e1)) / a` must lie in the unit
/// triangle, and the parameter `t = (e2 . (s x e1)) / a` must lie in `ray_t`.
pub open spec fn spec_triangle_hit(tr: Triangle, ray: Ray, ray_t: Interval)
    -> Option<HitRecord> {
    let e1 = spec_sub(tr.v1, tr.v0);
    let e2 = spec_sub(tr.v2, tr.v0);
    let h = spec_cross(ray.direction, e2);
    let a = spec_dot(e1, h);
    if -16 < a < 16 {
        None
    } else {
        let s = spec_sub(ray.origin, tr.v0);
        let u = fx_div_raw(spec_dot(s, h), a);
        if u < 0 || u > SCALE {
            None
        } else {
            let q = spec_cross(s, e1);
            let v = fx_div_raw(spec_dot(ray.direction, q), a);
            if v < 0 || u + v > SCALE {
                None
            } else {
                let t = fx_div_raw(spec_dot(e2, q), a);
                if ray_t.min.raw <= t <= ray_t.max.raw {
                    spec_triangle_rec(tr, ray, t)
                } else {
                    None
                }
            }
        }
    }
}

impl Triangle {
    /// Intersect `ray` with the triangle inside `ray_t`, filling `rec`
    /// exactly as `spec_triangle_hit` says; on a miss `rec` is untouched.
    pub fn hit(&self, ray: Ray, ray_t: Interval, rec: &mut HitRecord) -> (b: bool)
        requires
            self.wf(),
            ray.origin.bounded(0x400_0000),
            ray.direction.bounded(0x400_0000),
            iabs(ray_t.min.raw as int) <= 0x400_0000,
            iabs(ray_t.max.raw as int) <= 0x400_0000,
        ensures
            (match spec_triangle_hit(*self, ray, ray_t) {
                Some(r2) => b && *final(rec) == r2,
                None => !b && *final(rec) == *old(rec),
            }),
            b ==> final(rec).normal.bounded(0x0200_0000),
            b ==> final(rec).p.bounded(0x20_0000_0000),
            b ==> ray_t.min.raw <= final(rec).t.raw <= ray_t.max.raw,
            b ==> final(rec).material == Some(self.material),
            b ==> (match final(rec).material {
                Some(m) => m.wf(),
                None => false,
            }),
    {
        let e1 = self.v1.minus(self.v0);
        let e2 = self.v2.minus(self.v0);
        proof {
            lemma_cross_mags(ray.direction, e2, 0x400_0000, 0x200_0000, 0x8_0000_0000);
        }
        let h = ray.direction.cross(&e2);
        proof {
            lemma_dot_mags(e1, h, 0x200_0000, 0x10_0000_0000, 0x2000_0000_0000);
        }
        let a = e1.dot(&h);
        if -16 < a.raw && a.raw < 16 {
            return false;
        }
        let s = ray.origin.minus(self.v0);
        proof {
            lemma_dot_mags(s, h, 0x500_0000, 0x10_0000_0000, 0x5000_0000_0000);
            lemma_fx_div_mag(spec_dot(s, h), a.raw as int, 0xF00_0000_0000_0000);
        }
        let u = s.dot(&h).over(a);
        if u.raw < 0 || u.raw > SCALE {
            return false;
        }
        proof {
            lemma_cross_mags(s, e1, 0x500_0000, 0x200_0000, 0xA_0000_0000);
        }
        let q = s.cross(&e1);
        proof {
            lemma_dot_mags(ray.direction, q, 0x400_0000, 0x14_0000_0000, 0x5000_0000_0000);
            lemma_fx_div_mag(spec_dot(ray.direction, q), a.raw as int, 0xF00_0000_0000_0000);
        }
        let v = ray.direction.dot(&q).over(a);
        if v.raw < 0 || u.plus(v).raw > SCALE {
            return false;
        }
        proof {
            lemma_dot_mags(e2, q, 0x200_0000, 0x14_0000_0000, 0x2800_0000_0000);
            lemma_fx_div_mag(spec_dot(e2, q), a.raw as int, 0x780_0000_0000_0000);
        }
        let t = e2.dot(&q).over(a);
        if !ray_t.contains(t) {
            return false;
        }
        proof {
            lemma_cross_mags(e1, e2, 0x200_0000, 0x200_0000, 0x4_0000_0000);
        }
        let n0 = e1.cross(&e2);
        let l2n = n0.length_squared();
        if l2n.raw <= 0 {
            return false;
        }
        proof {
            lemma_fx_mul_mag(ray.direction.x.raw as int, t.raw as int, 0x400_0000,
                0x400_0000, 0x10_0000_0000);
            lemma_fx_mul_mag(ray.direction.y.raw as int, t.raw as int, 0x400_0000,
                0x400_0000, 0x10_0000_0000);
            lemma_fx_mul_mag(ray.direction.z.raw as int, t.raw as int, 0x400_0000,
                0x400_0000, 0x10_0000_0000);
        }
        let p = ray.at(t);
        let outward = n0.unit_vector();
        rec.t = t;
        rec.p = p;
        rec.set_face_normal(ray, outward);
        rec.material = Some(self.material);
        true
    }
}

} // verus!
