//! A square pyramid assembled from six triangles.

use vstd::prelude::*;
use crate::fx::{Fx, SCALE, iabs, fx_div_raw, lemma_fx_div_mag};
use crate::vec3::{
    Vec3, Point3, spec_add, spec_rot_x, spec_rot_y, spec_rot_z, lemma_rot_bound,
};
use crate::ray::Ray;
use crate::interval::Interval;
use crate::hittable::HitRecord;
use crate::material::Material;
use crate::triangle::{Triangle, spec_triangle_hit};

verus! {

/// A pyramid: the six face triangles it was assembled from.
#[derive(Clone, Debug)]
pub struct Pyramid {
    pub triangles: Vec<Triangle>,
}

/// A base-frame point rotated about the three axes in order and moved to
/// `center`.
pub open spec fn spec_pyr_point(base: Vec3, cx: Fx, sx: Fx, cy: Fx, sy: Fx, cz: Fx, sz: Fx,
    center: Vec3) -> Vec3 {
    spec_add(spec_rot_z(spec_rot_y(spec_rot_x(base, cx, sx), cy, sy), cz, sz), center)
}

/// Rotate a base-frame point about the three axes and move it to `center`.
fn transform_point(p: Point3, cx: Fx, sx: Fx, cy: Fx, sy: Fx, cz: Fx, sz: Fx,
    center: Point3) -> (r: Point3)
    requires
        p.bounded(0x10_0000),
        center.bounded(0x80_0000),
        iabs(cx.raw as int) <= SCALE,
        iabs(sx.raw as int) <= SCALE,
        iabs(cy.raw as int) <= SCALE,
        iabs(sy.raw as int) <= SCALE,
        iabs(cz.raw as int) <= SCALE,
        iabs(sz.raw as int) <= SCALE,
    ensures
        r == spec_pyr_point(p, cx, sx, cy, sy, cz, sz, center),
        r.bounded(0x100_0000),
{
    proof {
        lemma_rot_bound(p, cx, sx, 0x10_0000);
    }
    let q1 = p.rotate_x(cx, sx);
    proof {
        lemma_rot_bound(q1, cy, sy, 0x20_0000);
    }
    let q2 = q1.rotate_y(cy, sy);
    proof {
        lemma_rot_bound(q2, cz, sz, 0x40_0000);
    }
    let q3 = q2.rotate_z(cz, sz);
    q3.plus(center)
}

impl Pyramid {
    /// Every face triangle is valid.
    pub open spec fn wf(self) -> bool {
        forall|j: int|
            0 <= j < self.triangles@.len() ==> (#[trigger] self.triangles@[j]).wf()
    }

    /// Build the pyramid over a square base of side `base_width` with apex
    /// `height` above the base center, rotated about the three axes by the
    /// angles whose cosines and sines are given, then moved to `center`:
    /// four side faces and two base triangles.
    pub fn new(center: Point3, base_width: Fx, height: Fx, cos_x: Fx, sin_x: Fx, cos_y: Fx,
        sin_y: Fx, cos_z: Fx, sin_z: Fx, material: Material) -> (r: Pyramid)
        requires
            center.bounded(0x80_0000),
            0 < base_width.raw <= 0x20_0000,
            0 < height.raw <= 0x10_0000,
            iabs(cos_x.raw as int) <= SCALE,
            iabs(sin_x.raw as int) <= SCALE,
            iabs(cos_y.raw as int) <= SCALE,
            iabs(sin_y.raw as int) <= SCALE,
            iabs(cos_z.raw as int) <= SCALE,
            iabs(sin_z.raw as int) <= SCALE,
            material.wf(),
        ensures
            r.wf(),
            r.triangles@.len() == 6,
            ({
                let half = Fx { raw: fx_div_raw(base_width.raw as int, 2 * SCALE) as i64 };
                let zo = Fx { raw: 0 };
                let p1 = spec_pyr_point(Vec3 { x: half, y: zo, z: half }, cos_x, sin_x,
                    cos_y, sin_y, cos_z, sin_z, center);
                let p2 = spec_pyr_point(Vec3 { x: Fx { raw: (-half.raw) as i64 }, y: zo, z: half },
                    cos_x, sin_x, cos_y, sin_y, cos_z, sin_z, center);
                let p3 = spec_pyr_point(
                    Vec3 { x: Fx { raw: (-half.raw) as i64 }, y: zo, z: Fx { raw: (-half.raw) as i64 } },
                    cos_x, sin_x, cos_y, sin_y, cos_z, sin_z, center);
                let p4 = spec_pyr_point(Vec3 { x: half, y: zo, z: Fx { raw: (-half.raw) as i64 } },
                    cos_x, sin_x, cos_y, sin_y, cos_z, sin_z, center);
                let apex = spec_pyr_point(Vec3 { x: zo, y: height, z: zo }, cos_x, sin_x,
                    cos_y, sin_y, cos_z, sin_z, center);
                r.triangles@ =~= seq![
                    Triangle { v0: p1, v1: p2, v2: apex, material },
                    Triangle { v0: p2, v1: p3, v2: apex, material },
                    Triangle { v0: p3, v1: p4, v2: apex, material },
                    Triangle { v0: p4, v1: p1, v2: apex, material },
                    Triangle { v0: p1, v1: p3, v2: p2, material },
                    Triangle { v0: p1, v1: p4, v2: p3, material },
                ]
            }),
    {
        proof {
            lemma_fx_div_mag(base_width.raw as int, 2 * SCALE, 0x10_0000);
        }
        let half_width = base_width.over(Fx::from_int(2));
        let zero = Fx::zero();
        let b1 = Vec3::new(half_width, zero, half_width);
        let b2 = Vec3::new(half_width.negate(), zero, half_width);
        let b3 = Vec3::new(half_width.negate(), zero, half_width.negate());
        let b4 = Vec3::new(half_width, zero, half_width.negate());
        let b5 = Vec3::new(zero, height, zero);

        let p1 = transform_point(b1, cos_x, sin_x, cos_y, sin_y, cos_z, sin_z, center);
        let p2 = transform_point(b2, cos_x, sin_x, cos_y, sin_y, cos_z, sin_z, center);
        let p3 = transform_point(b3, cos_x, sin_x, cos_y, sin_y, cos_z, sin_z, center);
        let p4 = transform_point(b4, cos_x, sin_x, cos_y, sin_y, cos_z, sin_z, center);
        let apex = transform_point(b5, cos_x, sin_x, cos_y, sin_y, cos_z, sin_z, center);

        let mut triangles: Vec<Triangle> = Vec::new();
        triangles.push(Triangle::new(p1, p2, apex, material));
        triangles.push(Triangle::new(p2, p3, apex, material));
        triangles.push(Triangle::new(p3, p4, apex, material));
        triangles.push(Triangle::new(p4, p1, apex, material));
        triangles.push(Triangle::new(p1, p3, p2, material));
        triangles.push(Triangle::new(p1, p4, p3, material));
        let r = Pyramid { triangles };
        proof {
            assert forall|j: int| 0 <= j < r.triangles@.len()
                implies (#[trigger] r.triangles@[j]).wf() by {
            }
        }
        r
    }
}

/// The running state of the pyramid's face walk after `i` faces: the
/// closest parameter so far (starting at `cmax0`) and the best record. Each
/// face is tested inside `[tmin, closest-so-far]`, and any face hit becomes
/// the new best.
pub open spec fn spec_pyr_state(tris: Seq<Triangle>, ray: Ray, tmin: Fx, cmax0: Fx, i: int)
    -> (Fx, Option<HitRecord>)
    decreases i,
{
    if i <= 0 {
        (cmax0, None::<HitRecord>)
    } else {
        let prev = spec_pyr_state(tris, ray, tmin, cmax0, i - 1);
        match spec_triangle_hit(tris[i - 1], ray, Interval { min: tmin, max: prev.0 }) {
            Some(r) => (r.t, Some(r)),
            None => prev,
        }
    }
}

/// The record the pyramid reports: the last face hit while the upper bound
/// shrinks to each accepted parameter.
pub open spec fn spec_pyramid_hit(p: Pyramid, ray: Ray, ray_t: Interval)
    -> Option<HitRecord> {
    spec_pyr_state(p.triangles@, ray, ray_t.min, ray_t.max, p.triangles@.len() as int).1
}

impl Pyramid {
    /// Intersect `ray` with every face, shrinking the upper bound to each
    /// accepted hit; `rec` receives the final accepted record.
    pub fn hit(&self, ray: Ray, ray_t: Interval, rec: &mut HitRecord) -> (b: bool)
        requires
            self.wf(),
            ray.origin.bounded(0x400_0000),
            ray.direction.bounded(0x400_0000),
            iabs(ray_t.min.raw as int) <= 0x400_0000,
            iabs(ray_t.max.raw as int) <= 0x400_0000,
        ensures
            (match spec_pyramid_hit(*self, ray, ray_t) {
                Some(r2) => b && *final(rec) == r2,
                None => !b && *final(rec) == *old(rec),
            }),
            b ==> final(rec).normal.bounded(0x0200_0000),
            b ==> final(rec).p.bounded(0x20_0000_0000),
            b ==> ray_t.min.raw <= final(rec).t.raw <= ray_t.max.raw,
            b ==> (match final(rec).material {
                Some(m) => m.wf(),
                None => false,
            }),
    {
        let mut temp_rec = HitRecord::new();
        let mut hit_anything = false;
        let mut closest_so_far = ray_t.max;
        let n = self.triangles.len();
        let mut i: usize = 0;
        while i < n
            invariant
                n == self.triangles@.len(),
                0 <= i <= n,
                self.wf(),
                ray.origin.bounded(0x400_0000),
                ray.direction.bounded(0x400_0000),
                iabs(ray_t.min.raw as int) <= 0x400_0000,
                iabs(ray_t.max.raw as int) <= 0x400_0000,
                iabs(closest_so_far.raw as int) <= 0x400_0000,
                closest_so_far.raw <= ray_t.max.raw,
                ({
                    let st = spec_pyr_state(self.triangles@, ray, ray_t.min, ray_t.max,
                        i as int);
                    closest_so_far == st.0 && (match st.1 {
                        Some(r) => hit_anything && *rec == r,
                        None => !hit_anything && *rec == *old(rec),
                    })
                }),
                hit_anything ==> rec.normal.bounded(0x0200_0000),
                hit_anything ==> rec.p.bounded(0x20_0000_0000),
                hit_anything ==> ray_t.min.raw <= rec.t.raw <= ray_t.max.raw,
                hit_anything ==> closest_so_far == rec.t,
                hit_anything ==> (match rec.material {
                    Some(m) => m.wf(),
                    None => false,
                }),
            decreases n - i,
        {
            let tri = &self.triangles[i];
            if tri.hit(ray, Interval::new(ray_t.min, closest_so_far), &mut temp_rec) {
                hit_anything = true;
                closest_so_far = temp_rec.t;
                *rec = temp_rec;
            }
            i = i + 1;
        }
        hit_anything
    }
}

} // verus!
