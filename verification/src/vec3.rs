//! Three-component vectors over fixed-point scalars.
//!
//! `Vec3` serves for positions, directions, normals and colors. Every
//! operation's contract gives the result exactly as a spec-level function of
//! the operands' raw values; magnitude lemmas bound the results so that
//! callers can discharge overflow obligations.

use vstd::prelude::*;
use vstd::arithmetic::div_mod::lemma_fundamental_div_mod;
use crate::fx::{
    Fx, SCALE, iabs, fx_mul_raw, fx_div_raw, fx_sqrt_raw, spec_clamp,
    lemma_sqrt_floor, lemma_tdiv_mag, lemma_tdiv_sign, lemma_fx_mul_mag,
    lemma_fx_square_nonneg,
};
use crate::rng::{Rng, random_double, random_double_range};

verus! {

/// A vector of three fixed-point scalars.
#[derive(Clone, Copy, PartialEq, Eq, Structural, Debug)]
pub struct Vec3 {
    pub x: Fx,
    pub y: Fx,
    pub z: Fx,
}

/// Points share the vector representation.
pub type Point3 = Vec3;

/// Componentwise sum (raw values wrap only outside the callers' bounds).
pub open spec fn spec_add(u: Vec3, v: Vec3) -> Vec3 {
    Vec3 {
        x: Fx { raw: (u.x.raw + v.x.raw) as i64 },
        y: Fx { raw: (u.y.raw + v.y.raw) as i64 },
        z: Fx { raw: (u.z.raw + v.z.raw) as i64 },
    }
}

/// Componentwise difference.
pub open spec fn spec_sub(u: Vec3, v: Vec3) -> Vec3 {
    Vec3 {
        x: Fx { raw: (u.x.raw - v.x.raw) as i64 },
        y: Fx { raw: (u.y.raw - v.y.raw) as i64 },
        z: Fx { raw: (u.z.raw - v.z.raw) as i64 },
    }
}

/// Componentwise negation.
pub open spec fn spec_neg(u: Vec3) -> Vec3 {
    Vec3 {
        x: Fx { raw: (-u.x.raw) as i64 },
        y: Fx { raw: (-u.y.raw) as i64 },
        z: Fx { raw: (-u.z.raw) as i64 },
    }
}

/// Each component scaled by the fixed-point factor `s`.
pub open spec fn spec_scale(u: Vec3, s: Fx) -> Vec3 {
    Vec3 {
        x: Fx { raw: fx_mul_raw(u.x.raw as int, s.raw as int) as i64 },
        y: Fx { raw: fx_mul_raw(u.y.raw as int, s.raw as int) as i64 },
        z: Fx { raw: fx_mul_raw(u.z.raw as int, s.raw as int) as i64 },
    }
}

/// Each component divided by the fixed-point scalar `s`.
pub open spec fn spec_div_scalar(u: Vec3, s: Fx) -> Vec3 {
    Vec3 {
        x: Fx { raw: fx_div_raw(u.x.raw as int, s.raw as int) as i64 },
        y: Fx { raw: fx_div_raw(u.y.raw as int, s.raw as int) as i64 },
        z: Fx { raw: fx_div_raw(u.z.raw as int, s.raw as int) as i64 },
    }
}

/// Componentwise (Hadamard) product, as used for color attenuation.
pub open spec fn spec_comp_mul(u: Vec3, v: Vec3) -> Vec3 {
    Vec3 {
        x: Fx { raw: fx_mul_raw(u.x.raw as int, v.x.raw as int) as i64 },
        y: Fx { raw: fx_mul_raw(u.y.raw as int, v.y.raw as int) as i64 },
        z: Fx { raw: fx_mul_raw(u.z.raw as int, v.z.raw as int) as i64 },
    }
}

/// Raw value of the dot product.
pub open spec fn spec_dot(u: Vec3, v: Vec3) -> int {
    fx_mul_raw(u.x.raw as int, v.x.raw as int)
        + fx_mul_raw(u.y.raw as int, v.y.raw as int)
        + fx_mul_raw(u.z.raw as int, v.z.raw as int)
}

/// Raw value of the squared length.
pub open spec fn spec_len2(u: Vec3) -> int {
    spec_dot(u, u)
}

/// Cross product.
pub open spec fn spec_cross(u: Vec3, v: Vec3) -> Vec3 {
    Vec3 {
        x: Fx {
            raw: (fx_mul_raw(u.y.raw as int, v.z.raw as int)
                - fx_mul_raw(u.z.raw as int, v.y.raw as int)) as i64,
        },
        y: Fx {
            raw: (fx_mul_raw(u.z.raw as int, v.x.raw as int)
                - fx_mul_raw(u.x.raw as int, v.z.raw as int)) as i64,
        },
        z: Fx {
            raw: (fx_mul_raw(u.x.raw as int, v.y.raw as int)
                - fx_mul_raw(u.y.raw as int, v.x.raw as int)) as i64,
        },
    }
}

/// `u` divided by the fixed-point square root of its squared length.
pub open spec fn spec_unit(u: Vec3) -> Vec3 {
    spec_div_scalar(u, Fx { raw: fx_sqrt_raw(spec_len2(u)) as i64 })
}

/// Reflection of `u` about `n`: `u - 2 (u . n) n`.
pub open spec fn spec_reflect(u: Vec3, n: Vec3) -> Vec3 {
    spec_sub(u, spec_scale(n, Fx { raw: (2 * spec_dot(u, n)) as i64 }))
}

/// The cosine used by refraction: `u . n` negated and clamped into `[-1, 1]`.
pub open spec fn spec_refract_cos(u: Vec3, n: Vec3) -> int {
    spec_clamp(spec_dot(spec_neg(u), n), -(SCALE as int), SCALE as int)
}

/// The component of the refracted ray perpendicular to the normal.
pub open spec fn spec_refract_perp(u: Vec3, n: Vec3, eta: Fx) -> Vec3 {
    spec_scale(spec_add(u, spec_scale(n, Fx { raw: spec_refract_cos(u, n) as i64 })), eta)
}

/// Snell refraction of the unit direction `u` through the normal `n`.
pub open spec fn spec_refract(u: Vec3, n: Vec3, eta: Fx) -> Vec3 {
    let perp = spec_refract_perp(u, n, eta);
    let m = iabs((SCALE as int) - spec_len2(perp));
    let par = spec_scale(n, Fx { raw: (-sqrt_of(m)) as i64 });
    spec_add(perp, par)
}

/// Short name for the raw fixed-point square root used above.
pub open spec fn sqrt_of(v: int) -> int {
    fx_sqrt_raw(v)
}

/// All components below the smallest positive fixed-point step.
pub open spec fn spec_near_zero(v: Vec3) -> bool {
    v.x.raw == 0 && v.y.raw == 0 && v.z.raw == 0
}

/// Rotation about the first axis by the angle with cosine `c`, sine `s`.
pub open spec fn spec_rot_x(v: Vec3, c: Fx, s: Fx) -> Vec3 {
    Vec3 {
        x: v.x,
        y: Fx {
            raw: (fx_mul_raw(v.y.raw as int, c.raw as int)
                - fx_mul_raw(v.z.raw as int, s.raw as int)) as i64,
        },
        z: Fx {
            raw: (fx_mul_raw(v.y.raw as int, s.raw as int)
                + fx_mul_raw(v.z.raw as int, c.raw as int)) as i64,
        },
    }
}

/// Rotation about the second axis.
pub open spec fn spec_rot_y(v: Vec3, c: Fx, s: Fx) -> Vec3 {
    Vec3 {
        x: Fx {
            raw: (fx_mul_raw(v.x.raw as int, c.raw as int)
                + fx_mul_raw(v.z.raw as int, s.raw as int)) as i64,
        },
        y: v.y,
        z: Fx {
            raw: (fx_mul_raw(v.z.raw as int, c.raw as int)
                - fx_mul_raw(v.x.raw as int, s.raw as int)) as i64,
        },
    }
}

/// Rotation about the third axis.
pub open spec fn spec_rot_z(v: Vec3, c: Fx, s: Fx) -> Vec3 {
    Vec3 {
        x: Fx {
            raw: (fx_mul_raw(v.x.raw as int, c.raw as int)
                - fx_mul_raw(v.y.raw as int, s.raw as int)) as i64,
        },
        y: Fx {
            raw: (fx_mul_raw(v.x.raw as int, s.raw as int)
                + fx_mul_raw(v.y.raw as int, c.raw as int)) as i64,
        },
        z: v.z,
    }
}

/// Rotating a `b`-bounded vector with unit-bounded cosine and sine keeps
/// every component within `2 b`.
pub proof fn lemma_rot_bound(v: Vec3, c: Fx, s: Fx, b: int)
    requires
        v.bounded(b),
        iabs(c.raw as int) <= SCALE,
        iabs(s.raw as int) <= SCALE,
        0 <= b,
    ensures
        spec_rot_x(v, c, s).bounded(2 * b),
        spec_rot_y(v, c, s).bounded(2 * b),
        spec_rot_z(v, c, s).bounded(2 * b),
{
    lemma_fx_mul_mag(v.x.raw as int, c.raw as int, b, SCALE as int, b);
    lemma_fx_mul_mag(v.y.raw as int, c.raw as int, b, SCALE as int, b);
    lemma_fx_mul_mag(v.z.raw as int, c.raw as int, b, SCALE as int, b);
    lemma_fx_mul_mag(v.x.raw as int, s.raw as int, b, SCALE as int, b);
    lemma_fx_mul_mag(v.y.raw as int, s.raw as int, b, SCALE as int, b);
    lemma_fx_mul_mag(v.z.raw as int, s.raw as int, b, SCALE as int, b);
}

/// A direction the unit-sphere sampler can produce: the fixed-point
/// normalization of an admissible cube draw, one whose squared length lies
/// in `[1/16, 1]`, so that the normalization is numerically sound.
pub open spec fn spec_is_unit_draw(u: Vec3) -> bool {
    exists|p: Vec3| p.bounded(SCALE as int) && 4096 <= spec_len2(p) <= SCALE
        && u == spec_unit(p)
}

/// A color whose channels lie in the unit range `[0, 1]`.
pub open spec fn spec_color01(v: Vec3) -> bool {
    0 <= v.x.raw <= SCALE && 0 <= v.y.raw <= SCALE && 0 <= v.z.raw <= SCALE
}

impl Vec3 {
    /// Every component's magnitude is at most `b`.
    pub open spec fn bounded(self, b: int) -> bool {
        iabs(self.x.raw as int) <= b && iabs(self.y.raw as int) <= b
            && iabs(self.z.raw as int) <= b
    }

    /// The vector with the given components.
    pub fn new(x: Fx, y: Fx, z: Fx) -> (r: Vec3)
        ensures
            r == (Vec3 { x, y, z }),
    {
        Vec3 { x, y, z }
    }

    /// The zero vector.
    pub fn zero() -> (r: Vec3)
        ensures
            r == (Vec3 { x: Fx { raw: 0 }, y: Fx { raw: 0 }, z: Fx { raw: 0 } }),
    {
        Vec3 { x: Fx { raw: 0 }, y: Fx { raw: 0 }, z: Fx { raw: 0 } }
    }

    /// First component.
    pub fn x(&self) -> (r: Fx)
        ensures
            r == self.x,
    {
        self.x
    }

    /// Second component.
    pub fn y(&self) -> (r: Fx)
        ensures
            r == self.y,
    {
        self.y
    }

    /// Third component.
    pub fn z(&self) -> (r: Fx)
        ensures
            r == self.z,
    {
        self.z
    }

    /// Exact componentwise sum.
    pub fn plus(self, o: Vec3) -> (r: Vec3)
        requires
            i64::MIN <= self.x.raw + o.x.raw <= i64::MAX,
            i64::MIN <= self.y.raw + o.y.raw <= i64::MAX,
            i64::MIN <= self.z.raw + o.z.raw <= i64::MAX,
        ensures
            r == spec_add(self, o),
    {
        Vec3 { x: self.x.plus(o.x), y: self.y.plus(o.y), z: self.z.plus(o.z) }
    }

    /// Exact componentwise difference.
    pub fn minus(self, o: Vec3) -> (r: Vec3)
        requires
            i64::MIN <= self.x.raw - o.x.raw <= i64::MAX,
            i64::MIN <= self.y.raw - o.y.raw <= i64::MAX,
            i64::MIN <= self.z.raw - o.z.raw <= i64::MAX,
        ensures
            r == spec_sub(self, o),
    {
        Vec3 { x: self.x.minus(o.x), y: self.y.minus(o.y), z: self.z.minus(o.z) }
    }

    /// Exact componentwise negation.
    pub fn negate(self) -> (r: Vec3)
        requires
            self.x.raw > i64::MIN,
            self.y.raw > i64::MIN,
            self.z.raw > i64::MIN,
        ensures
            r == spec_neg(self),
    {
        Vec3 { x: self.x.negate(), y: self.y.negate(), z: self.z.negate() }
    }

    /// Each component scaled by `s`, rounded toward zero.
    pub fn scale(self, s: Fx) -> (r: Vec3)
        requires
            i64::MIN <= fx_mul_raw(self.x.raw as int, s.raw as int) <= i64::MAX,
            i64::MIN <= fx_mul_raw(self.y.raw as int, s.raw as int) <= i64::MAX,
            i64::MIN <= fx_mul_raw(self.z.raw as int, s.raw as int) <= i64::MAX,
        ensures
            r == spec_scale(self, s),
    {
        Vec3 { x: self.x.times(s), y: self.y.times(s), z: self.z.times(s) }
    }

    /// Each component divided by `s`, rounded toward zero.
    pub fn div_scalar(self, s: Fx) -> (r: Vec3)
        requires
            s.raw != 0,
            i64::MIN <= fx_div_raw(self.x.raw as int, s.raw as int) <= i64::MAX,
            i64::MIN <= fx_div_raw(self.y.raw as int, s.raw as int) <= i64::MAX,
            i64::MIN <= fx_div_raw(self.z.raw as int, s.raw as int) <= i64::MAX,
        ensures
            r == spec_div_scalar(self, s),
    {
        Vec3 { x: self.x.over(s), y: self.y.over(s), z: self.z.over(s) }
    }

    /// Componentwise product, as for color attenuation.
    pub fn comp_mul(self, o: Vec3) -> (r: Vec3)
        requires
            i64::MIN <= fx_mul_raw(self.x.raw as int, o.x.raw as int) <= i64::MAX,
            i64::MIN <= fx_mul_raw(self.y.raw as int, o.y.raw as int) <= i64::MAX,
            i64::MIN <= fx_mul_raw(self.z.raw as int, o.z.raw as int) <= i64::MAX,
        ensures
            r == spec_comp_mul(self, o),
    {
        Vec3 { x: self.x.times(o.x), y: self.y.times(o.y), z: self.z.times(o.z) }
    }

    /// Dot product.
    pub fn dot(&self, other: &Vec3) -> (r: Fx)
        requires
            self.bounded(0x40_0000_0000),
            other.bounded(0x40_0000_0000),
        ensures
            r.raw == spec_dot(*self, *other),
            iabs(r.raw as int) <= 0x3000_0000_0000_0000,
    {
        proof {
            lemma_fx_mul_mag(self.x.raw as int, other.x.raw as int, 0x40_0000_0000,
                0x40_0000_0000, 0x1000_0000_0000_0000);
            lemma_fx_mul_mag(self.y.raw as int, other.y.raw as int, 0x40_0000_0000,
                0x40_0000_0000, 0x1000_0000_0000_0000);
            lemma_fx_mul_mag(self.z.raw as int, other.z.raw as int, 0x40_0000_0000,
                0x40_0000_0000, 0x1000_0000_0000_0000);
        }
        let t1 = self.x.times(other.x);
        let t2 = self.y.times(other.y);
        let t3 = self.z.times(other.z);
        t1.plus(t2).plus(t3)
    }

    /// Squared length: the dot product with itself, never negative.
    pub fn length_squared(&self) -> (r: Fx)
        requires
            self.bounded(0x40_0000_0000),
        ensures
            r.raw == spec_len2(*self),
            0 <= r.raw <= 0x3000_0000_0000_0000,
    {
        proof {
            lemma_fx_square_nonneg(self.x.raw as int);
            lemma_fx_square_nonneg(self.y.raw as int);
            lemma_fx_square_nonneg(self.z.raw as int);
        }
        self.dot(self)
    }

    /// Length: the fixed-point square root of the squared length.
    pub fn length(&self) -> (r: Fx)
        requires
            self.bounded(0x40_0000_0000),
        ensures
            r.raw == fx_sqrt_raw(spec_len2(*self)),
            0 <= r.raw,
    {
        self.length_squared().sqrt()
    }

    /// The vector divided by its length. The result's components carry at
    /// most a unit magnitude up to fixed-point rounding slop.
    pub fn unit_vector(&self) -> (r: Vec3)
        requires
            self.bounded(0x40_0000_0000),
            0 < spec_len2(*self),
        ensures
            r == spec_unit(*self),
            r.bounded(0x0200_0000),
    {
        let l2 = self.length_squared();
        let s = l2.sqrt();
        proof {
            lemma_fx_square_nonneg(self.x.raw as int);
            lemma_fx_square_nonneg(self.y.raw as int);
            lemma_fx_square_nonneg(self.z.raw as int);
            lemma_unit_comp(self.x.raw as int, spec_len2(*self));
            lemma_unit_comp(self.y.raw as int, spec_len2(*self));
            lemma_unit_comp(self.z.raw as int, spec_len2(*self));
        }
        Vec3 { x: self.x.over(s), y: self.y.over(s), z: self.z.over(s) }
    }

    /// All components vanish at fixed-point resolution.
    pub fn near_zero(&self) -> (r: bool)
        ensures
            r == spec_near_zero(*self),
    {
        self.x.raw == 0 && self.y.raw == 0 && self.z.raw == 0
    }

    /// Reflection about the normal `n`: `self - 2 (self . n) n`.
    pub fn reflect(&self, n: &Vec3) -> (r: Vec3)
        requires
            self.bounded(0x0400_0000),
            n.bounded(0x0200_0000),
        ensures
            r == spec_reflect(*self, *n),
            r.bounded(0x8000_0000_0000),
    {
        let d = self.dot(n);
        proof {
            lemma_fx_mul_mag(self.x.raw as int, n.x.raw as int, 0x0400_0000, 0x0200_0000,
                0x8_0000_0000);
            lemma_fx_mul_mag(self.y.raw as int, n.y.raw as int, 0x0400_0000, 0x0200_0000,
                0x8_0000_0000);
            lemma_fx_mul_mag(self.z.raw as int, n.z.raw as int, 0x0400_0000, 0x0200_0000,
                0x8_0000_0000);
            lemma_fx_mul_mag(n.x.raw as int, 2 * spec_dot(*self, *n), 0x0200_0000,
                0x30_0000_0000, 0x6000_0000_0000);
            lemma_fx_mul_mag(n.y.raw as int, 2 * spec_dot(*self, *n), 0x0200_0000,
                0x30_0000_0000, 0x6000_0000_0000);
            lemma_fx_mul_mag(n.z.raw as int, 2 * spec_dot(*self, *n), 0x0200_0000,
                0x30_0000_0000, 0x6000_0000_0000);
        }
        let two_d = d.plus(d);
        self.minus(n.scale(two_d))
    }

    /// Cross product.
    pub fn cross(&self, other: &Vec3) -> (r: Vec3)
        requires
            self.bounded(0x40_0000_0000),
            other.bounded(0x40_0000_0000),
        ensures
            r == spec_cross(*self, *other),
    {
        proof {
            lemma_cross_fits(*self, *other);
        }
        Vec3 {
            x: self.y.times(other.z).minus(self.z.times(other.y)),
            y: self.z.times(other.x).minus(self.x.times(other.z)),
            z: self.x.times(other.y).minus(self.y.times(other.x)),
        }
    }

    /// A vector with three fresh draws in `[0, 1)`.
    pub fn random(rng: &mut Rng) -> (r: Vec3)
        ensures
            r.bounded(SCALE as int),
            0 <= r.x.raw < SCALE,
            0 <= r.y.raw < SCALE,
            0 <= r.z.raw < SCALE,
    {
        let x = random_double(rng);
        let y = random_double(rng);
        let z = random_double(rng);
        Vec3 { x, y, z }
    }

    /// A vector with three fresh draws in `[min, max)`.
    pub fn random_min_max(rng: &mut Rng, min: Fx, max: Fx) -> (r: Vec3)
        requires
            min.raw < max.raw,
            max.raw - min.raw < 0x7fff_ffff_ffff,
        ensures
            min.raw <= r.x.raw < max.raw,
            min.raw <= r.y.raw < max.raw,
            min.raw <= r.z.raw < max.raw,
    {
        let x = random_double_range(rng, min, max);
        let y = random_double_range(rng, min, max);
        let z = random_double_range(rng, min, max);
        Vec3 { x, y, z }
    }

    /// Rejection-sample a direction on the unit sphere: draw in the cube
    /// `[-1, 1)^3`, keep a draw with squared length in `[1/16, 1]` (the
    /// floor keeps the normalization numerically sound at fixed-point
    /// resolution), normalize. The number of draws is bounded; should every
    /// one be rejected (each rejection has probability below one half), the
    /// first axis serves. The result is a unit vector up to fixed-point
    /// rounding slop: every component stays within five units.
    pub fn random_unit_vector(rng: &mut Rng) -> (r: Vec3)
        ensures
            r.bounded(5 * SCALE),
            spec_is_unit_draw(r),
    {
        let mut tries: usize = 0;
        while tries < 128
            invariant
                tries <= 128,
            decreases 128 - tries,
        {
            let p = Vec3::random_min_max(rng, Fx::new(-SCALE), Fx::new(SCALE));
            let lensq = p.length_squared();
            if 4096 <= lensq.raw && lensq.raw <= SCALE {
                let u = p.unit_vector();
                proof {
                    lemma_fx_square_nonneg(p.x.raw as int);
                    lemma_fx_square_nonneg(p.y.raw as int);
                    lemma_fx_square_nonneg(p.z.raw as int);
                    lemma_unit_comp_tight(p.x.raw as int, spec_len2(p));
                    lemma_unit_comp_tight(p.y.raw as int, spec_len2(p));
                    lemma_unit_comp_tight(p.z.raw as int, spec_len2(p));
                    assert(p.bounded(SCALE as int) && 4096 <= spec_len2(p) <= SCALE
                        && u == spec_unit(p));
                }
                return u;
            }
            tries = tries + 1;
        }
        let axis = Vec3 { x: Fx { raw: SCALE }, y: Fx { raw: 0 }, z: Fx { raw: 0 } };
        proof {
            crate::fx::lemma_fx_mul_one(SCALE as int);
            lemma_fx_mul_mag(0, 0, 0, 0, 0);
            assert(spec_len2(axis) == SCALE);
        }
        let u = axis.unit_vector();
        proof {
            lemma_fx_square_nonneg(axis.y.raw as int);
            lemma_unit_comp_tight(axis.x.raw as int, spec_len2(axis));
            lemma_unit_comp_tight(axis.y.raw as int, spec_len2(axis));
            lemma_unit_comp_tight(axis.z.raw as int, spec_len2(axis));
            assert(axis.bounded(SCALE as int) && 4096 <= spec_len2(axis) <= SCALE
                && u == spec_unit(axis));
        }
        u
    }

    /// A unit-sphere sample turned into the hemisphere around `normal`:
    /// the sample, or its negation when it falls on the far side, so the
    /// result never points against the normal.
    pub fn random_on_hemisphere(normal: &Vec3, rng: &mut Rng) -> (r: Vec3)
        requires
            normal.bounded(0x40_0000_0000),
        ensures
            r.bounded(5 * SCALE),
            spec_is_unit_draw(r) || spec_is_unit_draw(spec_neg(r)),
            spec_dot(r, *normal) >= 0,
    {
        let on_unit_sphere = Vec3::random_unit_vector(rng);
        if dot(on_unit_sphere, *normal).raw > 0 {
            on_unit_sphere
        } else {
            let flipped = on_unit_sphere.negate();
            proof {
                crate::fx::lemma_fx_mul_neg(on_unit_sphere.x.raw as int, normal.x.raw as int);
                crate::fx::lemma_fx_mul_neg(on_unit_sphere.y.raw as int, normal.y.raw as int);
                crate::fx::lemma_fx_mul_neg(on_unit_sphere.z.raw as int, normal.z.raw as int);
                assert(spec_neg(flipped) == on_unit_sphere);
            }
            flipped
        }
    }

    /// Snell refraction of the unit direction `self` through `n`, with the
    /// refraction ratio `eta`: the incident cosine is clamped into `[-1, 1]`,
    /// the perpendicular part is `eta (self + cos n)`, and the parallel part
    /// restores unit length through a square root.
    pub fn refract(&self, n: &Vec3, etai_over_etat: Fx) -> (r: Vec3)
        requires
            self.bounded(0x0200_0000),
            n.bounded(0x0200_0000),
            iabs(etai_over_etat.raw as int) <= 0x10_0000,
        ensures
            r == spec_refract(*self, *n, etai_over_etat),
            r.bounded(0x400_0000_0000),
    {
        let d = self.negate().dot(n);
        let mut cr: i64 = d.raw;
        if cr > SCALE {
            cr = SCALE;
        }
        if cr < -SCALE {
            cr = -SCALE;
        }
        let cos_theta = Fx { raw: cr };
        proof {
            assert(cos_theta.raw == spec_refract_cos(*self, *n));
            lemma_fx_mul_mag(n.x.raw as int, cos_theta.raw as int, 0x0200_0000,
                SCALE as int, 0x0200_0000);
            lemma_fx_mul_mag(n.y.raw as int, cos_theta.raw as int, 0x0200_0000,
                SCALE as int, 0x0200_0000);
            lemma_fx_mul_mag(n.z.raw as int, cos_theta.raw as int, 0x0200_0000,
                SCALE as int, 0x0200_0000);
        }
        let w = self.plus(n.scale(cos_theta));
        proof {
            lemma_fx_mul_mag(w.x.raw as int, etai_over_etat.raw as int, 0x0400_0000,
                0x10_0000, 0x4000_0000);
            lemma_fx_mul_mag(w.y.raw as int, etai_over_etat.raw as int, 0x0400_0000,
                0x10_0000, 0x4000_0000);
            lemma_fx_mul_mag(w.z.raw as int, etai_over_etat.raw as int, 0x0400_0000,
                0x10_0000, 0x4000_0000);
        }
        let perp = w.scale(etai_over_etat);
        proof {
            lemma_fx_mul_mag(perp.x.raw as int, perp.x.raw as int, 0x4000_0000, 0x4000_0000,
                0x4000_0000_0000);
            lemma_fx_mul_mag(perp.y.raw as int, perp.y.raw as int, 0x4000_0000, 0x4000_0000,
                0x4000_0000_0000);
            lemma_fx_mul_mag(perp.z.raw as int, perp.z.raw as int, 0x4000_0000, 0x4000_0000,
                0x4000_0000_0000);
        }
        let m = Fx::one().minus(perp.length_squared()).abs_val();
        let sq = m.sqrt();
        proof {
            lemma_sqrt_floor((m.raw as int) * (SCALE as int));
            assert((m.raw as int) * (SCALE as int) <= 0x1_0000_0000_0000 * 65536)
                by (nonlinear_arith)
                requires
                    0 <= m.raw <= 0x1_0000_0000_0000,
            ;
            assert(sq.raw <= 0x1_0000_0000) by (nonlinear_arith)
                requires
                    sq.raw >= 0,
                    (sq.raw as int) * (sq.raw as int) <= (m.raw as int) * (SCALE as int),
                    (m.raw as int) * (SCALE as int) <= 0x1_0000_0000_0000 * 65536,
            ;
            lemma_fx_mul_mag(n.x.raw as int, -(sq.raw as int), 0x0200_0000, 0x1_0000_0000,
                0x200_0000_0000);
            lemma_fx_mul_mag(n.y.raw as int, -(sq.raw as int), 0x0200_0000, 0x1_0000_0000,
                0x200_0000_0000);
            lemma_fx_mul_mag(n.z.raw as int, -(sq.raw as int), 0x0200_0000, 0x1_0000_0000,
                0x200_0000_0000);
        }
        let par = n.scale(sq.negate());
        perp.plus(par)
    }

    /// Rotation about the first axis by the angle whose cosine and sine are
    /// given as fixed-point scalars.
    pub fn rotate_x(&self, cos_t: Fx, sin_t: Fx) -> (r: Vec3)
        requires
            self.bounded(0x100_0000),
            iabs(cos_t.raw as int) <= SCALE,
            iabs(sin_t.raw as int) <= SCALE,
        ensures
            r == spec_rot_x(*self, cos_t, sin_t),
            r.bounded(0x0200_0000),
    {
        proof {
            lemma_rot_fits(self.y.raw as int, self.z.raw as int, cos_t.raw as int,
                sin_t.raw as int);
        }
        Vec3 {
            x: self.x,
            y: self.y.times(cos_t).minus(self.z.times(sin_t)),
            z: self.y.times(sin_t).plus(self.z.times(cos_t)),
        }
    }

    /// Rotation about the second axis.
    pub fn rotate_y(&self, cos_t: Fx, sin_t: Fx) -> (r: Vec3)
        requires
            self.bounded(0x100_0000),
            iabs(cos_t.raw as int) <= SCALE,
            iabs(sin_t.raw as int) <= SCALE,
        ensures
            r == spec_rot_y(*self, cos_t, sin_t),
            r.bounded(0x0200_0000),
    {
        proof {
            lemma_rot_fits(self.x.raw as int, self.z.raw as int, cos_t.raw as int,
                sin_t.raw as int);
        }
        Vec3 {
            x: self.x.times(cos_t).plus(self.z.times(sin_t)),
            y: self.y,
            z: self.z.times(cos_t).minus(self.x.times(sin_t)),
        }
    }

    /// Rotation about the third axis.
    pub fn rotate_z(&self, cos_t: Fx, sin_t: Fx) -> (r: Vec3)
        requires
            self.bounded(0x100_0000),
            iabs(cos_t.raw as int) <= SCALE,
            iabs(sin_t.raw as int) <= SCALE,
        ensures
            r == spec_rot_z(*self, cos_t, sin_t),
            r.bounded(0x0200_0000),
    {
        proof {
            lemma_rot_fits(self.x.raw as int, self.y.raw as int, cos_t.raw as int,
                sin_t.raw as int);
        }
        Vec3 {
            x: self.x.times(cos_t).minus(self.y.times(sin_t)),
            y: self.x.times(sin_t).plus(self.y.times(cos_t)),
            z: self.z,
        }
    }

    /// Runtime check of `bounded`.
    pub fn in_bounds(&self, b: i64) -> (r: bool)
        requires
            b >= 0,
        ensures
            r == self.bounded(b as int),
    {
        -b <= self.x.raw && self.x.raw <= b && -b <= self.y.raw && self.y.raw <= b
            && -b <= self.z.raw && self.z.raw <= b
    }
}

/// Dot product as a free function.
pub fn dot(u: Vec3, v: Vec3) -> (r: Fx)
    requires
        u.bounded(0x40_0000_0000),
        v.bounded(0x40_0000_0000),
    ensures
        r.raw == spec_dot(u, v),
        iabs(r.raw as int) <= 0x3000_0000_0000_0000,
{
    u.dot(&v)
}

/// Bound the six elementary products of a cross product: factors bounded by
/// `ma` and `mb` with `ma * mb <= bound * SCALE` keep every product within
/// `bound`, so the cross components stay within `2 * bound`.
pub proof fn lemma_cross_mags(u: Vec3, v: Vec3, ma: int, mb: int, bound: int)
    requires
        u.bounded(ma),
        v.bounded(mb),
        0 <= bound,
        ma * mb <= bound * SCALE,
    ensures
        spec_cross(u, v).bounded(2 * bound),
{
    lemma_fx_mul_mag(u.y.raw as int, v.z.raw as int, ma, mb, bound);
    lemma_fx_mul_mag(u.z.raw as int, v.y.raw as int, ma, mb, bound);
    lemma_fx_mul_mag(u.z.raw as int, v.x.raw as int, ma, mb, bound);
    lemma_fx_mul_mag(u.x.raw as int, v.z.raw as int, ma, mb, bound);
    lemma_fx_mul_mag(u.x.raw as int, v.y.raw as int, ma, mb, bound);
    lemma_fx_mul_mag(u.y.raw as int, v.x.raw as int, ma, mb, bound);
}

/// Bound the three elementary products of a dot product: factors bounded by
/// `ma` and `mb` with `ma * mb <= bound * SCALE` keep the dot product within
/// `3 * bound`.
pub proof fn lemma_dot_mags(u: Vec3, v: Vec3, ma: int, mb: int, bound: int)
    requires
        u.bounded(ma),
        v.bounded(mb),
        0 <= bound,
        ma * mb <= bound * SCALE,
    ensures
        iabs(spec_dot(u, v)) <= 3 * bound,
{
    lemma_fx_mul_mag(u.x.raw as int, v.x.raw as int, ma, mb, bound);
    lemma_fx_mul_mag(u.y.raw as int, v.y.raw as int, ma, mb, bound);
    lemma_fx_mul_mag(u.z.raw as int, v.z.raw as int, ma, mb, bound);
}

/// With the squared length at least one sixteenth, the normalization is
/// tight: every component of the unit vector stays within five units.
proof fn lemma_unit_comp_tight(c: int, l2: int)
    requires
        4096 <= l2,
        fx_mul_raw(c, c) <= l2,
        l2 <= 0x3000_0000_0000_0000,
    ensures
        16384 <= fx_sqrt_raw(l2) <= 0x1000_0000_0000,
        iabs(fx_div_raw(c, fx_sqrt_raw(l2))) <= 5 * SCALE,
{
    let sc = SCALE as int;
    let n = l2 * sc;
    assert(16384 * 16384 <= n <= 0x3000_0000_0000_0000 * 65536) by (nonlinear_arith)
        requires
            4096 <= l2 <= 0x3000_0000_0000_0000,
            sc == 65536,
            n == l2 * sc,
    ;
    lemma_sqrt_floor(n);
    let s = fx_sqrt_raw(l2);
    assert(16384 <= s <= 0x1000_0000_0000) by (nonlinear_arith)
        requires
            s >= 0,
            n >= 16384 * 16384,
            n < (s + 1) * (s + 1),
            s * s <= n,
            n <= 0x3000_0000_0000_0000 * 65536,
    ;
    assert(0 <= c * c) by (nonlinear_arith);
    assert(fx_mul_raw(c, c) == (c * c) / sc);
    lemma_fundamental_div_mod(c * c, sc);
    assert(c * c <= sc * l2 + sc - 1);
    assert(iabs(c) * iabs(c) == c * c) by (nonlinear_arith);
    assert(iabs(c) <= s + sc) by (nonlinear_arith)
        requires
            s >= 16384,
            sc == 65536,
            0 <= c * c,
            c * c <= sc * l2 + sc - 1,
            l2 * sc < (s + 1) * (s + 1),
            iabs(c) * iabs(c) == c * c,
    ;
    assert(iabs(c) * sc <= 5 * sc * s) by (nonlinear_arith)
        requires
            s >= 16384,
            sc == 65536,
            iabs(c) <= s + sc,
    ;
    assert(iabs(c * sc) == iabs(c) * sc) by (nonlinear_arith)
        requires
            sc == 65536,
    ;
    lemma_tdiv_mag(c * sc, s, 5 * sc);
}

/// One component of a vector divided by the square root of a squared length
/// that dominates the component's own square stays within `0x0200_0000`.
proof fn lemma_unit_comp(c: int, l2: int)
    requires
        0 < l2,
        fx_mul_raw(c, c) <= l2,
        l2 <= 0x3000_0000_0000_0000,
    ensures
        256 <= fx_sqrt_raw(l2),
        iabs(fx_div_raw(c, fx_sqrt_raw(l2))) <= 0x0200_0000,
{
    let sc = SCALE as int;
    let n = l2 * sc;
    assert(65536 <= n <= 0x3000_0000_0000_0000 * 65536) by (nonlinear_arith)
        requires
            1 <= l2 <= 0x3000_0000_0000_0000,
            sc == 65536,
            n == l2 * sc,
    ;
    lemma_sqrt_floor(n);
    let s = fx_sqrt_raw(l2);
    assert(s >= 256) by (nonlinear_arith)
        requires
            s >= 0,
            n >= 65536,
            n < (s + 1) * (s + 1),
    ;
    // c * c <= sc * l2 + sc - 1, from the truncated division's remainder.
    assert(0 <= c * c) by (nonlinear_arith);
    assert(fx_mul_raw(c, c) == (c * c) / sc);
    lemma_fundamental_div_mod(c * c, sc);
    assert(c * c <= sc * l2 + sc - 1);
    assert(iabs(c) * iabs(c) == c * c) by (nonlinear_arith);
    // |c| <= s + sc, since (s + sc)^2 dominates sc * l2 + sc - 1.
    assert(iabs(c) <= s + sc) by (nonlinear_arith)
        requires
            s >= 256,
            sc == 65536,
            0 <= c * c,
            c * c <= sc * l2 + sc - 1,
            l2 * sc < (s + 1) * (s + 1),
            iabs(c) * iabs(c) == c * c,
    ;
    assert(iabs(c) * sc <= 0x0200_0000 * s) by (nonlinear_arith)
        requires
            s >= 256,
            sc == 65536,
            iabs(c) <= s + sc,
    ;
    assert(iabs(c * sc) == iabs(c) * sc) by (nonlinear_arith)
        requires
            sc == 65536,
    ;
    lemma_tdiv_mag(c * sc, s, 0x0200_0000);
}

/// The intermediate products of a cross product of `0x40_0000_0000`-bounded
/// vectors fit the scalar operations' ranges.
proof fn lemma_cross_fits(u: Vec3, v: Vec3)
    requires
        u.bounded(0x40_0000_0000),
        v.bounded(0x40_0000_0000),
    ensures
        iabs(fx_mul_raw(u.y.raw as int, v.z.raw as int)) <= 0x1000_0000_0000_0000,
        iabs(fx_mul_raw(u.z.raw as int, v.y.raw as int)) <= 0x1000_0000_0000_0000,
        iabs(fx_mul_raw(u.z.raw as int, v.x.raw as int)) <= 0x1000_0000_0000_0000,
        iabs(fx_mul_raw(u.x.raw as int, v.z.raw as int)) <= 0x1000_0000_0000_0000,
        iabs(fx_mul_raw(u.x.raw as int, v.y.raw as int)) <= 0x1000_0000_0000_0000,
        iabs(fx_mul_raw(u.y.raw as int, v.x.raw as int)) <= 0x1000_0000_0000_0000,
{
    lemma_fx_mul_mag(u.y.raw as int, v.z.raw as int, 0x40_0000_0000, 0x40_0000_0000,
        0x1000_0000_0000_0000);
    lemma_fx_mul_mag(u.z.raw as int, v.y.raw as int, 0x40_0000_0000, 0x40_0000_0000,
        0x1000_0000_0000_0000);
    lemma_fx_mul_mag(u.z.raw as int, v.x.raw as int, 0x40_0000_0000, 0x40_0000_0000,
        0x1000_0000_0000_0000);
    lemma_fx_mul_mag(u.x.raw as int, v.z.raw as int, 0x40_0000_0000, 0x40_0000_0000,
        0x1000_0000_0000_0000);
    lemma_fx_mul_mag(u.x.raw as int, v.y.raw as int, 0x40_0000_0000, 0x40_0000_0000,
        0x1000_0000_0000_0000);
    lemma_fx_mul_mag(u.y.raw as int, v.x.raw as int, 0x40_0000_0000, 0x40_0000_0000,
        0x1000_0000_0000_0000);
}

/// The two-term rotation combinations of a `0x100_0000`-bounded vector with
/// unit-bounded cosine and sine fit the scalar operations' ranges.
proof fn lemma_rot_fits(a: int, b: int, c: int, s: int)
    requires
        iabs(a) <= 0x100_0000,
        iabs(b) <= 0x100_0000,
        iabs(c) <= SCALE,
        iabs(s) <= SCALE,
    ensures
        iabs(fx_mul_raw(a, c)) <= 0x100_0000,
        iabs(fx_mul_raw(a, s)) <= 0x100_0000,
        iabs(fx_mul_raw(b, c)) <= 0x100_0000,
        iabs(fx_mul_raw(b, s)) <= 0x100_0000,
{
    lemma_fx_mul_mag(a, c, 0x100_0000, SCALE as int, 0x100_0000);
    lemma_fx_mul_mag(a, s, 0x100_0000, SCALE as int, 0x100_0000);
    lemma_fx_mul_mag(b, c, 0x100_0000, SCALE as int, 0x100_0000);
    lemma_fx_mul_mag(b, s, 0x100_0000, SCALE as int, 0x100_0000);
}

} // verus!
