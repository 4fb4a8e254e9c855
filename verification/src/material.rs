//! Materials: how a surface continues an incoming ray.
//!
//! Each variant always scatters (the refractive one only when the incoming
//! direction is not degenerate); absorption never arises here, but the
//! dispatching contract leaves room for it, as the path evaluator treats a
//! refusal as absorption.

use vstd::prelude::*;
use crate::fx::{Fx, SCALE, iabs, fx_div_raw, lemma_fx_mul_mag, lemma_fx_div_mag};
use crate::vec3::{
    Vec3, spec_add, spec_scale, spec_near_zero, spec_reflect, spec_refract, spec_unit,
    spec_len2, spec_color01, spec_is_unit_draw,
};
use crate::ray::Ray;
use crate::hittable::HitRecord;
use crate::rng::Rng;

verus! {

/// Diffuse surface: scatter about the normal, tinted by `albedo`; `fuzz`
/// scales the random perturbation.
#[derive(Clone, Copy, PartialEq, Eq, Structural, Debug)]
pub struct Lambertian {
    pub albedo: Vec3,
    pub fuzz: Fx,
}

/// Reflective surface: mirror the ray about the normal, perturbed by `fuzz`.
#[derive(Clone, Copy, PartialEq, Eq, Structural, Debug)]
pub struct Metal {
    pub albedo: Vec3,
    pub fuzz: Fx,
}

/// Refractive surface: bend the ray through the surface by Snell's law with
/// index ratio `ir`; it never tints and never reflects.
#[derive(Clone, Copy, PartialEq, Eq, Structural, Debug)]
pub struct Dielectric {
    pub albedo: Vec3,
    pub fuzz: Fx,
    pub ir: Fx,
}

/// The closed family of materials, dispatched by pattern match.
#[derive(Clone, Copy, PartialEq, Eq, Structural, Debug)]
pub enum Material {
    Lambertian(Lambertian),
    Metal(Metal),
    Dielectric(Dielectric),
}

impl Lambertian {
    /// Albedo channels in the unit range; fuzz in `[0, 1]`.
    pub open spec fn wf(self) -> bool {
        spec_color01(self.albedo) && 0 <= self.fuzz.raw <= SCALE
    }
}

impl Metal {
    /// Albedo channels in the unit range; fuzz in `[0, 1]`.
    pub open spec fn wf(self) -> bool {
        spec_color01(self.albedo) && 0 <= self.fuzz.raw <= SCALE
    }
}

impl Dielectric {
    /// Albedo channels in the unit range; the index ratio within
    /// `[1/16, 16]`, so its reciprocal stays representable.
    pub open spec fn wf(self) -> bool {
        spec_color01(self.albedo) && 0x1000 <= self.ir.raw <= 0x10_0000
    }
}

/// The ratio of refraction indices: `1 / ir` entering from outside, `ir`
/// leaving from inside.
pub open spec fn spec_refraction_ratio(d: Dielectric, front_face: bool) -> Fx {
    if front_face {
        Fx { raw: fx_div_raw(SCALE as int, d.ir.raw as int) as i64 }
    } else {
        d.ir
    }
}

/// Whether the material scatters the incoming ray at all.
pub open spec fn spec_scatters(m: Material, r_in: Ray) -> bool {
    match m {
        Material::Dielectric(_) => spec_len2(r_in.direction) > 0,
        _ => true,
    }
}

/// The attenuation each material hands back: its albedo, except that the
/// refractive material does not tint.
pub open spec fn spec_attenuation(m: Material) -> Vec3 {
    match m {
        Material::Lambertian(l) => l.albedo,
        Material::Metal(mt) => mt.albedo,
        Material::Dielectric(_) => Vec3 {
            x: Fx { raw: SCALE },
            y: Fx { raw: SCALE },
            z: Fx { raw: SCALE },
        },
    }
}

/// What the scattered direction is, per material. The random unit draw is
/// existentially bound as a genuine sampler output — the normalization of
/// an admissible cube draw — so a body that skips the draw cannot comply.
pub open spec fn spec_scatter_dir_ok(m: Material, r_in: Ray, rec: HitRecord, dir: Vec3) -> bool {
    match m {
        Material::Lambertian(l) => exists|u: Vec3|
            spec_is_unit_draw(u) && u.bounded(5 * SCALE) && dir == (if spec_near_zero(
                spec_add(rec.normal, spec_scale(u, l.fuzz)),
            ) {
                rec.normal
            } else {
                spec_add(rec.normal, spec_scale(u, l.fuzz))
            }),
        Material::Metal(mt) => exists|u: Vec3|
            spec_is_unit_draw(u) && u.bounded(5 * SCALE) && dir == spec_add(
                spec_reflect(r_in.direction, rec.normal),
                spec_scale(u, mt.fuzz),
            ),
        Material::Dielectric(d) => dir == spec_refract(
            spec_unit(r_in.direction),
            rec.normal,
            spec_refraction_ratio(d, rec.front_face),
        ),
    }
}

impl Lambertian {
    /// Scatter about the normal: `normal + fuzz * u` for a random unit `u`,
    /// falling back to the normal itself when that sum degenerates to zero.
    pub fn scatter(&self, _r_in: &Ray, rec: &HitRecord, rng: &mut Rng, attenuation: &mut Vec3,
        scattered: &mut Ray) -> (b: bool)
        requires
            self.wf(),
            rec.normal.bounded(0x0200_0000),
        ensures
            b,
            *final(attenuation) == self.albedo,
            final(scattered).origin == rec.p,
            spec_scatter_dir_ok(Material::Lambertian(*self), *_r_in, *rec,
                final(scattered).direction),
            final(scattered).direction.bounded(0x0400_0000),
    {
        let u = Vec3::random_unit_vector(rng);
        proof {
            lemma_fx_mul_mag(u.x.raw as int, self.fuzz.raw as int, 0x0200_0000, SCALE as int,
                0x0200_0000);
            lemma_fx_mul_mag(u.y.raw as int, self.fuzz.raw as int, 0x0200_0000, SCALE as int,
                0x0200_0000);
            lemma_fx_mul_mag(u.z.raw as int, self.fuzz.raw as int, 0x0200_0000, SCALE as int,
                0x0200_0000);
        }
        let mut scatter_direction = rec.normal.plus(u.scale(self.fuzz));
        if scatter_direction.near_zero() {
            scatter_direction = rec.normal;
        }
        *scattered = Ray::new(rec.p, scatter_direction);
        *attenuation = self.albedo;
        proof {
            assert(spec_is_unit_draw(u) && u.bounded(5 * SCALE) && scatter_direction == (
            if spec_near_zero(spec_add(rec.normal, spec_scale(u, self.fuzz))) {
                rec.normal
            } else {
                spec_add(rec.normal, spec_scale(u, self.fuzz))
            }));
        }
        true
    }
}

impl Metal {
    /// Mirror the incoming direction about the normal and perturb it by
    /// `fuzz * u` for a random unit `u`.
    pub fn scatter(&self, r_in: &Ray, rec: &HitRecord, rng: &mut Rng, attenuation: &mut Vec3,
        scattered: &mut Ray) -> (b: bool)
        requires
            self.wf(),
            rec.normal.bounded(0x0200_0000),
            r_in.direction.bounded(0x0400_0000),
        ensures
            b,
            *final(attenuation) == self.albedo,
            final(scattered).origin == rec.p,
            spec_scatter_dir_ok(Material::Metal(*self), *r_in, *rec,
                final(scattered).direction),
            final(scattered).direction.bounded(0x1_0000_0000_0000),
    {
        let reflected = r_in.direction().reflect(&rec.normal);
        let u = Vec3::random_unit_vector(rng);
        proof {
            lemma_fx_mul_mag(u.x.raw as int, self.fuzz.raw as int, 0x0200_0000, SCALE as int,
                0x0200_0000);
            lemma_fx_mul_mag(u.y.raw as int, self.fuzz.raw as int, 0x0200_0000, SCALE as int,
                0x0200_0000);
            lemma_fx_mul_mag(u.z.raw as int, self.fuzz.raw as int, 0x0200_0000, SCALE as int,
                0x0200_0000);
        }
        let dir = reflected.plus(u.scale(self.fuzz));
        *scattered = Ray::new(rec.p, dir);
        *attenuation = self.albedo;
        proof {
            assert(spec_is_unit_draw(u) && u.bounded(5 * SCALE) && dir == spec_add(
                spec_reflect(r_in.direction, rec.normal),
                spec_scale(u, self.fuzz),
            ));
        }
        true
    }
}

impl Dielectric {
    /// Refract the unit incoming direction through the normal; the ray is
    /// refused only when its direction vanishes at fixed-point resolution.
    pub fn scatter(&self, r_in: &Ray, rec: &HitRecord, attenuation: &mut Vec3,
        scattered: &mut Ray) -> (b: bool)
        requires
            self.wf(),
            rec.normal.bounded(0x0200_0000),
            r_in.direction.bounded(0x0400_0000),
        ensures
            b == (spec_len2(r_in.direction) > 0),
            *final(attenuation) == (Vec3 {
                x: Fx { raw: SCALE },
                y: Fx { raw: SCALE },
                z: Fx { raw: SCALE },
            }),
            b ==> final(scattered).origin == rec.p,
            b ==> spec_scatter_dir_ok(Material::Dielectric(*self), *r_in, *rec,
                final(scattered).direction),
            b ==> final(scattered).direction.bounded(0x400_0000_0000),
            !b ==> *final(scattered) == *old(scattered),
    {
        *attenuation = Vec3::new(Fx::one(), Fx::one(), Fx::one());
        proof {
            lemma_fx_div_mag(SCALE as int, self.ir.raw as int, 0x10_0000);
        }
        let refraction_ratio = if rec.front_face {
            Fx::one().over(self.ir)
        } else {
            self.ir
        };
        let l2 = r_in.direction().length_squared();
        if l2.raw <= 0 {
            return false;
        }
        let unit_direction = r_in.direction().unit_vector();
        let refracted = unit_direction.refract(&rec.normal, refraction_ratio);
        *scattered = Ray::new(rec.p, refracted);
        true
    }
}

impl Material {
    /// Validity of the variant's parameters.
    pub open spec fn wf(self) -> bool {
        match self {
            Material::Lambertian(l) => l.wf(),
            Material::Metal(m) => m.wf(),
            Material::Dielectric(d) => d.wf(),
        }
    }

    /// Dispatch scattering to the variant. Exactly when `spec_scatters`
    /// holds, the scattered ray starts at the hit point with the variant's
    /// direction, and the attenuation is the variant's.
    pub fn scatter(&self, r_in: &Ray, rec: &HitRecord, rng: &mut Rng, attenuation: &mut Vec3,
        scattered: &mut Ray) -> (b: bool)
        requires
            self.wf(),
            rec.normal.bounded(0x0200_0000),
            r_in.direction.bounded(0x0400_0000),
        ensures
            b == spec_scatters(*self, *r_in),
            *final(attenuation) == spec_attenuation(*self),
            spec_color01(*final(attenuation)),
            b ==> final(scattered).origin == rec.p,
            b ==> spec_scatter_dir_ok(*self, *r_in, *rec, final(scattered).direction),
            b ==> final(scattered).direction.bounded(0x1_0000_0000_0000),
            !b ==> *final(scattered) == *old(scattered),
    {
        match self {
            Material::Lambertian(l) => l.scatter(r_in, rec, rng, attenuation, scattered),
            Material::Metal(m) => m.scatter(r_in, rec, rng, attenuation, scattered),
            Material::Dielectric(d) => d.scatter(r_in, rec, attenuation, scattered),
        }
    }
}

} // verus!
