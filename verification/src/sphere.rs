//! Spheres and their exact quadratic intersection.

use vstd::prelude::*;
use crate::fx::{
    Fx, SCALE, iabs, tdiv, fx_mul_raw, fx_div_raw, fx_sqrt_raw, lemma_fx_mul_mag,
    lemma_fx_div_mag, lemma_sqrt_floor, lemma_sqrt_unique, lemma_fx_mul_one,
};
use crate::vec3::{
    Vec3, Point3, spec_add, spec_sub, spec_scale, spec_neg, spec_dot, spec_len2, spec_unit,
};
use crate::ray::Ray;
use crate::interval::Interval;
use crate::hittable::HitRecord;
use crate::material::Material;

verus! {

/// A sphere: center, positive radius, and the material of its surface.
#[derive(Clone, Copy, PartialEq, Eq, Structural, Debug)]
pub struct Sphere {
    pub center: Point3,
    pub radius: Fx,
    pub material: Material,
}

impl Sphere {
    /// Geometry within the world envelope, a positive radius, and a valid
    /// material. Any representable positive radius is admitted; a sphere
    /// smaller than the fixed-point resolution (radius below roughly 0.007
    /// units) reports no hits, since every hit offset's squared length
    /// rounds to zero and falls to the degenerate-center guard.
    pub open spec fn wf(self) -> bool {
        self.center.bounded(0x100_0000) && 0 < self.radius.raw <= 0x100_0000
            && self.material.wf()
    }

    /// The sphere with the given center, radius and material.
    pub fn new(center: Point3, radius: Fx, material: Material) -> (r: Sphere)
        requires
            center.bounded(0x100_0000),
            0 < radius.raw <= 0x100_0000,
            material.wf(),
        ensures
            r == (Sphere { center, radius, material }),
            r.wf(),
    {
        Sphere { center, radius, material }
    }
}

/// The record a sphere hit at parameter `root` produces: the hit point, the
/// outward normal (the normalized offset from the center) oriented against
/// the ray, and the sphere's material. A hit whose point coincides with the
/// center at fixed-point resolution is rejected as degenerate — which makes
/// spheres below the resolution (radius under about 0.007 units, where the
/// offset's squared length always rounds to zero) invisible.
pub open spec fn spec_sphere_rec(s: Sphere, ray: Ray, root: int) -> Option<HitRecord> {
    let p = spec_add(ray.origin, spec_scale(ray.direction, Fx { raw: root as i64 }));
    let oc2 = spec_sub(p, s.center);
    if spec_len2(oc2) <= 0 {
        None
    } else {
        let outward = spec_unit(oc2);
        let front = spec_dot(ray.direction, outward) < 0;
        Some(HitRecord {
            t: Fx { raw: root as i64 },
            p,
            normal: if front {
                outward
            } else {
                spec_neg(outward)
            },
            front_face: front,
            material: Some(s.material),
        })
    }
}

/// Quadratic sphere intersection: with `a = |D|^2`, `h = D . (C - O)` and
/// `c = |C - O|^2 - r^2`, a hit exists when the discriminant `h^2 - a c` is
/// nonnegative; of the two roots `(h -+ sqrt(disc)) / a` the smaller is
/// preferred, the larger tried when the smaller leaves `ray_t`. A direction
/// whose squared length vanishes at fixed-point resolution hits nothing.
pub open spec fn spec_sphere_hit(s: Sphere, ray: Ray, ray_t: Interval) -> Option<HitRecord> {
    let a = spec_len2(ray.direction);
    let oc = spec_sub(s.center, ray.origin);
    let h = spec_dot(ray.direction, oc);
    let c = spec_len2(oc) - fx_mul_raw(s.radius.raw as int, s.radius.raw as int);
    let disc = fx_mul_raw(h, h) - fx_mul_raw(a, c);
    if a <= 0 {
        None
    } else if disc < 0 {
        None
    } else {
        let sq = fx_sqrt_raw(disc);
        let r1 = fx_div_raw(h - sq, a);
        let r2 = fx_div_raw(h + sq, a);
        if ray_t.min.raw <= r1 <= ray_t.max.raw {
            spec_sphere_rec(s, ray, r1)
        } else if ray_t.min.raw <= r2 <= ray_t.max.raw {
            spec_sphere_rec(s, ray, r2)
        } else {
            None
        }
    }
}

/// A ray fired straight at a sphere's center from distance `d` reports the
/// near root `d - r` exactly, with the unit normal back along the ray and
/// the front face struck; once the interval excludes the near root, the far
/// root `d + r` is reported instead. Exact for any integer distance and
/// radius in the world envelope.
#[verifier::rlimit(100)]
pub proof fn lemma_sphere_axial_roots(d: int, r: int, m: Material)
    requires
        0 < r < d <= 256,
    ensures
        ({
            let s = Sphere {
                center: Vec3 {
                    x: Fx { raw: 0 },
                    y: Fx { raw: 0 },
                    z: Fx { raw: (-(d * SCALE)) as i64 },
                },
                radius: Fx { raw: (r * SCALE) as i64 },
                material: m,
            };
            let ray = Ray {
                origin: Vec3 { x: Fx { raw: 0 }, y: Fx { raw: 0 }, z: Fx { raw: 0 } },
                direction: Vec3 { x: Fx { raw: 0 }, y: Fx { raw: 0 }, z: Fx { raw: (-SCALE) as i64 } },
            };
            let whole = Interval { min: Fx { raw: 0 }, max: Fx { raw: 0x400_0000 } };
            let beyond = Interval {
                min: Fx { raw: ((d - r) * SCALE + 1) as i64 },
                max: Fx { raw: 0x400_0000 },
            };
            spec_sphere_hit(s, ray, whole) == Some(HitRecord {
                t: Fx { raw: ((d - r) * SCALE) as i64 },
                p: Vec3 {
                    x: Fx { raw: 0 },
                    y: Fx { raw: 0 },
                    z: Fx { raw: (-((d - r) * SCALE)) as i64 },
                },
                normal: Vec3 { x: Fx { raw: 0 }, y: Fx { raw: 0 }, z: Fx { raw: SCALE } },
                front_face: true,
                material: Some(m),
            }) && (match spec_sphere_hit(s, ray, beyond) {
                Some(rec2) => rec2.t.raw == (d + r) * SCALE,
                None => false,
            })
        }),
{
    let sc = SCALE as int;
    let ds = d * sc;
    let rs = r * sc;
    assert((-sc) * (-sc) == sc * sc && (-sc) * (-ds) == ds * sc && (-ds) * (-ds) == (d * ds)
        * sc && rs * rs == (r * rs) * sc && (-rs) * (-rs) == (r * rs) * sc && ds * ds == (d
        * ds) * sc && sc * ((d * ds) - (r * rs)) == ((d * ds) - (r * rs)) * sc && (r * rs)
        * sc < (rs + 1) * (rs + 1) && (-sc) * ((d - r) * sc) == (-((d - r) * sc)) * sc
        && (-sc) * ((d + r) * sc) == (-((d + r) * sc)) * sc && (-sc) * sc == (-sc) * sc
        && 0 < r * rs && r * rs <= 0x3000_0000_0000_0000 && 0 <= (d - r) * sc <= 0x100_0000
        && (d + r) * sc <= 0x400_0000 && (rs * sc) / rs == sc && rs * sc == sc * rs)
        by (nonlinear_arith)
        requires
            sc == 65536,
            ds == d * sc,
            rs == r * sc,
            0 < r < d <= 256,
    ;
    lemma_fx_mul_one(sc);
    lemma_fx_mul_one(-sc);
    lemma_fx_mul_one(ds);
    lemma_fx_mul_one(d * ds);
    lemma_fx_mul_one(r * rs);
    lemma_fx_mul_one((d * ds) - (r * rs));
    lemma_fx_mul_one(ds - rs);
    lemma_fx_mul_one(ds + rs);
    lemma_fx_mul_one(-((d - r) * sc));
    lemma_fx_mul_one(-((d + r) * sc));
    lemma_sqrt_unique((r * rs) * sc, rs);
    assert(fx_div_raw(0, rs) == 0) by {
        crate::fx::lemma_tdiv_mag(0, rs, 0);
    }
    assert(fx_div_raw(rs, rs) == sc) by {
        assert(fx_div_raw(rs, rs) == tdiv(rs * sc, rs));
        assert(iabs(rs * sc) / iabs(rs) == sc) by (nonlinear_arith)
            requires
                rs > 0,
                sc > 0,
                iabs(rs * sc) == rs * sc,
                iabs(rs) == rs,
                (rs * sc) / rs == sc,
        ;
    }
}

/// A ray offset sideways by more than the radius misses: the discriminant
/// of the axial quadratic turns negative exactly when the perpendicular
/// offset exceeds the radius.
#[verifier::rlimit(100)]
pub proof fn lemma_sphere_offset_miss(d: int, r: int, o: int, m: Material)
    requires
        0 < r < d <= 256,
        r < o <= 256,
    ensures
        ({
            let s = Sphere {
                center: Vec3 {
                    x: Fx { raw: 0 },
                    y: Fx { raw: 0 },
                    z: Fx { raw: (-(d * SCALE)) as i64 },
                },
                radius: Fx { raw: (r * SCALE) as i64 },
                material: m,
            };
            let ray = Ray {
                origin: Vec3 {
                    x: Fx { raw: (o * SCALE) as i64 },
                    y: Fx { raw: 0 },
                    z: Fx { raw: 0 },
                },
                direction: Vec3 { x: Fx { raw: 0 }, y: Fx { raw: 0 }, z: Fx { raw: (-SCALE) as i64 } },
            };
            let whole = Interval { min: Fx { raw: 0 }, max: Fx { raw: 0x400_0000 } };
            spec_sphere_hit(s, ray, whole) is None
        }),
{
    let sc = SCALE as int;
    let ds = d * sc;
    let rs = r * sc;
    let os = o * sc;
    assert((-sc) * (-sc) == sc * sc && (-sc) * (-ds) == ds * sc && (-os) * (-os) == (o * os)
        * sc && (-ds) * (-ds) == (d * ds) * sc && rs * rs == (r * rs) * sc && ds * ds == (d
        * ds) * sc && sc * ((o * os) + (d * ds) - (r * rs)) == ((o * os) + (d * ds) - (r
        * rs)) * sc && (d * ds) - ((o * os) + (d * ds) - (r * rs)) < 0) by (nonlinear_arith)
        requires
            sc == 65536,
            ds == d * sc,
            rs == r * sc,
            os == o * sc,
            0 < r < o,
            0 < d,
    ;
    lemma_fx_mul_one(sc);
    lemma_fx_mul_one(ds);
    lemma_fx_mul_one(d * ds);
    lemma_fx_mul_one(o * os);
    lemma_fx_mul_one(r * rs);
    lemma_fx_mul_one((o * os) + (d * ds) - (r * rs));
}

/// Shrinking the interval's upper bound down to any point at or above an
/// accepted hit parameter leaves the sphere's hit unchanged: the test is
/// monotone in the interval, so a composite may prune with the closest
/// parameter found so far.
pub proof fn lemma_sphere_hit_shrink(s: Sphere, ray: Ray, ray_t: Interval, r: HitRecord,
    t2: Fx)
    requires
        spec_sphere_hit(s, ray, ray_t) == Some(r),
        ray_t.min.raw <= t2.raw <= ray_t.max.raw,
        r.t.raw <= t2.raw,
    ensures
        spec_sphere_hit(s, ray, Interval { min: ray_t.min, max: t2 }) == Some(r),
{
}

/// In a reported sphere hit, the parameter lies inside the interval, and
/// both quadratic roots are at least the reported one or out of range: the
/// smaller root is taken whenever the interval admits it.
pub proof fn lemma_sphere_hit_t_in_range(s: Sphere, ray: Ray, ray_t: Interval, r: HitRecord)
    requires
        spec_sphere_hit(s, ray, ray_t) == Some(r),
    ensures
        ray_t.min.raw <= r.t.raw <= ray_t.max.raw,
{
}

/// With a nonnegative discriminant, the root built from `h - sqrt(disc)`
/// never exceeds the root built from `h + sqrt(disc)`.
pub proof fn lemma_sphere_roots_ordered(h: int, sq: int, a: int)
    requires
        a > 0,
        sq >= 0,
    ensures
        fx_div_raw(h - sq, a) <= fx_div_raw(h + sq, a),
{
    crate::fx::lemma_tdiv_mono((h - sq) * SCALE, (h + sq) * SCALE, a);
}

impl Sphere {
    /// Intersect `ray` with the sphere inside `ray_t`, filling `rec` exactly
    /// as `spec_sphere_hit` says; on a miss `rec` is left untouched.
    pub fn hit(&self, ray: Ray, ray_t: Interval, rec: &mut HitRecord) -> (b: bool)
        requires
            self.wf(),
            ray.origin.bounded(0x400_0000),
            ray.direction.bounded(0x400_0000),
            iabs(ray_t.min.raw as int) <= 0x400_0000,
            iabs(ray_t.max.raw as int) <= 0x400_0000,
        ensures
            (match spec_sphere_hit(*self, ray, ray_t) {
                Some(r2) => b && *final(rec) == r2,
                None => !b && *final(rec) == *old(rec),
            }),
            b ==> final(rec).normal.bounded(0x0200_0000),
            b ==> final(rec).p.bounded(0x20_0000_0000),
            b ==> ray_t.min.raw <= final(rec).t.raw <= ray_t.max.raw,
            b ==> final(rec).material == Some(self.material),
            b ==> (match final(rec).material {
                Some(m) => m.wf(),
                None => false,
            }),
    {
        let oc = self.center.minus(ray.origin);
        let a = ray.direction.length_squared();
        let h = ray.direction.dot(&oc);
        proof {
            lemma_fx_mul_mag(self.radius.raw as int, self.radius.raw as int, 0x100_0000,
                0x100_0000, 0x1_0000_0000);
            lemma_fx_mul_mag(ray.direction.x.raw as int, ray.direction.x.raw as int,
                0x400_0000, 0x400_0000, 0x10_0000_0000);
            lemma_fx_mul_mag(ray.direction.y.raw as int, ray.direction.y.raw as int,
                0x400_0000, 0x400_0000, 0x10_0000_0000);
            lemma_fx_mul_mag(ray.direction.z.raw as int, ray.direction.z.raw as int,
                0x400_0000, 0x400_0000, 0x10_0000_0000);
            lemma_fx_mul_mag(ray.direction.x.raw as int, oc.x.raw as int, 0x400_0000,
                0x800_0000, 0x20_0000_0000);
            lemma_fx_mul_mag(ray.direction.y.raw as int, oc.y.raw as int, 0x400_0000,
                0x800_0000, 0x20_0000_0000);
            lemma_fx_mul_mag(ray.direction.z.raw as int, oc.z.raw as int, 0x400_0000,
                0x800_0000, 0x20_0000_0000);
            lemma_fx_mul_mag(oc.x.raw as int, oc.x.raw as int, 0x800_0000, 0x800_0000,
                0x40_0000_0000);
            lemma_fx_mul_mag(oc.y.raw as int, oc.y.raw as int, 0x800_0000, 0x800_0000,
                0x40_0000_0000);
            lemma_fx_mul_mag(oc.z.raw as int, oc.z.raw as int, 0x800_0000, 0x800_0000,
                0x40_0000_0000);
        }
        let r2 = self.radius.times(self.radius);
        let c = oc.length_squared().minus(r2);
        proof {
            lemma_fx_mul_mag(h.raw as int, h.raw as int, 0x60_0000_0000, 0x60_0000_0000,
                0x2400_0000_0000_0000);
            lemma_fx_mul_mag(a.raw as int, c.raw as int, 0x30_0000_0000, 0xC1_0000_0000,
                0x2430_0000_0000_0000);
        }
        let discriminant = h.times(h).minus(a.times(c));
        if a.raw <= 0 {
            return false;
        }
        if discriminant.raw < 0 {
            return false;
        }
        let sqrt_discriminant = discriminant.sqrt();
        proof {
            lemma_sqrt_floor((discriminant.raw as int) * (SCALE as int));
            assert((discriminant.raw as int) * (SCALE as int) <= 0x4854_0000_0000_0000
                * 65536) by (nonlinear_arith)
                requires
                    0 <= discriminant.raw <= 0x4854_0000_0000_0000,
            ;
            assert(sqrt_discriminant.raw <= 0x100_0000_0000) by (nonlinear_arith)
                requires
                    sqrt_discriminant.raw >= 0,
                    (sqrt_discriminant.raw as int) * (sqrt_discriminant.raw as int)
                        <= (discriminant.raw as int) * (SCALE as int),
                    (discriminant.raw as int) * (SCALE as int)
                        <= 0x4854_0000_0000_0000 * 65536,
            ;
            lemma_fx_div_mag(h.raw - sqrt_discriminant.raw, a.raw as int,
                0x200_0000_0000_0000);
            lemma_fx_div_mag(h.raw + sqrt_discriminant.raw, a.raw as int,
                0x200_0000_0000_0000);
        }
        let mut root = h.minus(sqrt_discriminant).over(a);
        if !ray_t.contains(root) {
            root = h.plus(sqrt_discriminant).over(a);
            if !ray_t.contains(root) {
                return false;
            }
        }
        proof {
            lemma_fx_mul_mag(ray.direction.x.raw as int, root.raw as int, 0x400_0000,
                0x400_0000, 0x10_0000_0000);
            lemma_fx_mul_mag(ray.direction.y.raw as int, root.raw as int, 0x400_0000,
                0x400_0000, 0x10_0000_0000);
            lemma_fx_mul_mag(ray.direction.z.raw as int, root.raw as int, 0x400_0000,
                0x400_0000, 0x10_0000_0000);
        }
        let p = ray.at(root);
        let oc2 = p.minus(self.center);
        let l2b = oc2.length_squared();
        if l2b.raw <= 0 {
            return false;
        }
        let outward_normal = oc2.unit_vector();
        rec.t = root;
        rec.p = p;
        rec.set_face_normal(ray, outward_normal);
        rec.material = Some(self.material);
        true
    }
}

} // verus!
