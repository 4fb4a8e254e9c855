//! The composite scene: an ordered list of shapes, answering with the
//! nearest hit.

use vstd::prelude::*;
use crate::fx::{Fx, SCALE, iabs, fx_mul_raw, fx_div_raw, fx_sqrt_raw};
use crate::vec3::{spec_sub, spec_dot, spec_len2};
use crate::ray::Ray;
use crate::interval::Interval;
use crate::hittable::{Hittable, HitRecord};
use crate::sphere::{
    Sphere, spec_sphere_hit, lemma_sphere_hit_shrink, lemma_sphere_hit_t_in_range,
    lemma_sphere_roots_ordered,
};

verus! {

/// An ordered collection of shapes tested in insertion order.
#[derive(Clone, Debug)]
pub struct HittableList {
    pub objects: Vec<Hittable>,
}

/// The running state of the list walk after `i` members: the closest
/// parameter so far (starting at `cmax0`) and the best record. Each member
/// is tested inside the closed `[tmin, closest-so-far]`, and any reported
/// hit — the bound itself included — becomes the new best.
pub open spec fn spec_list_state(objs: Seq<Hittable>, ray: Ray, tmin: Fx, cmax0: Fx, i: int)
    -> (Fx, Option<HitRecord>)
    decreases i,
{
    if i <= 0 {
        (cmax0, None::<HitRecord>)
    } else {
        let prev = spec_list_state(objs, ray, tmin, cmax0, i - 1);
        match objs[i - 1].spec_hit(ray, Interval { min: tmin, max: prev.0 }) {
            Some(r) => if r.t.raw <= prev.0.raw {
                (r.t, Some(r))
            } else {
                prev
            },
            None => prev,
        }
    }
}

/// The nearest hit the list reports: every member is tested with the upper
/// bound shrunk to the closest parameter found so far.
pub open spec fn spec_list_hit(l: HittableList, ray: Ray, ray_t: Interval)
    -> Option<HitRecord> {
    spec_list_state(l.objects@, ray, ray_t.min, ray_t.max, l.objects@.len() as int).1
}

impl HittableList {
    /// Every member is valid.
    pub open spec fn wf(self) -> bool {
        forall|j: int| 0 <= j < self.objects@.len() ==> (#[trigger] self.objects@[j]).wf()
    }

    /// The empty scene.
    pub fn new() -> (r: HittableList)
        ensures
            r.objects@.len() == 0,
            r.wf(),
    {
        HittableList { objects: Vec::new() }
    }

    /// Append a shape; earlier members keep their places.
    pub fn add(&mut self, object: Hittable)
        ensures
            final(self).objects@ == old(self).objects@.push(object),
    {
        self.objects.push(object);
    }

    /// Intersect `ray` with every member, keeping the closest hit — the
    /// interval is closed, so a hit exactly at the bound counts; `rec`
    /// receives that record, or stays untouched when nothing is hit.
    pub fn hit(&self, ray: Ray, ray_t: Interval, rec: &mut HitRecord) -> (b: bool)
        requires
            self.wf(),
            ray.origin.bounded(0x400_0000),
            ray.direction.bounded(0x400_0000),
            iabs(ray_t.min.raw as int) <= 0x400_0000,
            iabs(ray_t.max.raw as int) <= 0x400_0000,
        ensures
            (match spec_list_hit(*self, ray, ray_t) {
                Some(r2) => b && *final(rec) == r2,
                None => !b && *final(rec) == *old(rec),
            }),
            b ==> final(rec).normal.bounded(0x0200_0000),
            b ==> final(rec).p.bounded(0x20_0000_0000),
            b ==> ray_t.min.raw <= final(rec).t.raw <= ray_t.max.raw,
            b ==> (match final(rec).material {
                Some(m) => m.wf(),
                None => false,
            }),
    {
        let mut temp_rec = HitRecord::new();
        let mut hit_anything = false;
        let mut closest_so_far = ray_t.max;
        let n = self.objects.len();
        let mut i: usize = 0;
        while i < n
            invariant
                n == self.objects@.len(),
                0 <= i <= n,
                self.wf(),
                ray.origin.bounded(0x400_0000),
                ray.direction.bounded(0x400_0000),
                iabs(ray_t.min.raw as int) <= 0x400_0000,
                iabs(ray_t.max.raw as int) <= 0x400_0000,
                iabs(closest_so_far.raw as int) <= 0x400_0000,
                closest_so_far.raw <= ray_t.max.raw,
                ({
                    let st = spec_list_state(self.objects@, ray, ray_t.min, ray_t.max,
                        i as int);
                    closest_so_far == st.0 && (match st.1 {
                        Some(r) => hit_anything && *rec == r,
                        None => !hit_anything && *rec == *old(rec),
                    })
                }),
                hit_anything ==> rec.normal.bounded(0x0200_0000),
                hit_anything ==> rec.p.bounded(0x20_0000_0000),
                hit_anything ==> ray_t.min.raw <= rec.t.raw <= ray_t.max.raw,
                hit_anything ==> closest_so_far == rec.t,
                hit_anything ==> (match rec.material {
                    Some(m) => m.wf(),
                    None => false,
                }),
            decreases n - i,
        {
            let object = &self.objects[i];
            if object.hit(ray, Interval::new(ray_t.min, closest_so_far), &mut temp_rec) {
                if temp_rec.t.raw <= closest_so_far.raw {
                    hit_anything = true;
                    closest_so_far = temp_rec.t;
                    *rec = temp_rec;
                }
            }
            i = i + 1;
        }
        hit_anything
    }
}

/// The composite reports the nearest hit: with two spheres struck along one
/// ray, the closer sphere's record — its material and oriented normal
/// included — is what the walk over either insertion order ends with, never
/// the farther one's.
#[verifier::rlimit(100)]
#[verifier::spinoff_prover]
pub proof fn lemma_composite_nearest(far: Sphere, near: Sphere, ray: Ray, ray_t: Interval,
    rf: HitRecord, rn: HitRecord)
    requires
        spec_sphere_hit(far, ray, ray_t) == Some(rf),
        spec_sphere_hit(near, ray, ray_t) == Some(rn),
        rn.t.raw < rf.t.raw,
    ensures
        spec_list_state(seq![Hittable::Sphere(far), Hittable::Sphere(near)], ray, ray_t.min,
            ray_t.max, 2).1 == Some(rn),
        spec_list_state(seq![Hittable::Sphere(near), Hittable::Sphere(far)], ray, ray_t.min,
            ray_t.max, 2).1 == Some(rn),
{
    reveal_with_fuel(spec_list_state, 3);
    lemma_sphere_hit_t_in_range(far, ray, ray_t, rf);
    lemma_sphere_hit_t_in_range(near, ray, ray_t, rn);
    assert(ray_t == (Interval { min: ray_t.min, max: ray_t.max }));
    // Farther first: the walk accepts the far hit, then retests the near
    // sphere inside the shrunk interval, where its hit is unchanged.
    let objs1 = seq![Hittable::Sphere(far), Hittable::Sphere(near)];
    let st1 = spec_list_state(objs1, ray, ray_t.min, ray_t.max, 1);
    assert(st1 == (rf.t, Some(rf)));
    lemma_sphere_hit_shrink(near, ray, ray_t, rn, rf.t);
    assert(spec_list_state(objs1, ray, ray_t.min, ray_t.max, 2).1 == Some(rn));
    // Nearer first: the far sphere, retested inside `[min, rn.t]`, misses,
    // since both of its roots lie at or beyond the accepted far parameter.
    let objs2 = seq![Hittable::Sphere(near), Hittable::Sphere(far)];
    let st2 = spec_list_state(objs2, ray, ray_t.min, ray_t.max, 1);
    assert(st2 == (rn.t, Some(rn)));
    let a = spec_len2(ray.direction);
    let oc = spec_sub(far.center, ray.origin);
    let h = spec_dot(ray.direction, oc);
    let c = spec_len2(oc) - fx_mul_raw(far.radius.raw as int, far.radius.raw as int);
    let disc = fx_mul_raw(h, h) - fx_mul_raw(a, c);
    let sq = fx_sqrt_raw(disc);
    crate::fx::lemma_sqrt_floor(disc * (SCALE as int));
    lemma_sphere_roots_ordered(h, sq, a);
    assert(spec_sphere_hit(far, ray, Interval { min: ray_t.min, max: rn.t }) is None);
    assert(spec_list_state(objs2, ray, ray_t.min, ray_t.max, 2).1 == Some(rn));
}

} // verus!
