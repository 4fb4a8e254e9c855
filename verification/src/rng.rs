//! Random scalar draws.
//!
//! A `Rng` owns a seeded pseudo-random generator. Nothing is assumed of the
//! values it produces; the library only proves the ranges into which the
//! draws are mapped, so every downstream result holds for every outcome.

use vstd::prelude::*;
use crate::fx::{Fx, SCALE};

verus! {

#[verifier::external_type_specification]
#[verifier::external_body]
pub struct ExStdRng(rand::rngs::StdRng);

/// Relies on `rand::SeedableRng::seed_from_u64` for `rand::rngs::StdRng`:
/// builds a generator from a seed. Nothing is promised of its output.
#[verifier::external_body]
fn stdrng_from_seed(seed: u64) -> rand::rngs::StdRng {
    <rand::rngs::StdRng as rand::SeedableRng>::seed_from_u64(seed)
}

/// Relies on `rand::RngCore::next_u32` for `rand::rngs::StdRng`: draws the
/// next word of the generator's stream. Nothing is promised of its value.
#[verifier::external_body]
fn stdrng_next_u32(g: &mut rand::rngs::StdRng) -> u32 {
    rand::RngCore::next_u32(g)
}

/// A seeded pseudo-random source of fixed-point scalars.
pub struct Rng {
    core: rand::rngs::StdRng,
}

impl Rng {
    /// A generator seeded with `seed`; the same seed replays the same draws.
    pub fn new(seed: u64) -> Rng {
        Rng { core: stdrng_from_seed(seed) }
    }

    /// A draw in `[0, 1)`: a raw value in `[0, SCALE)`.
    pub fn next_unit(&mut self) -> (r: Fx)
        ensures
            0 <= r.raw < SCALE,
    {
        let bits = stdrng_next_u32(&mut self.core);
        Fx { raw: (bits % (SCALE as u32)) as i64 }
    }
}

/// A random scalar in `[0, 1)`.
pub fn random_double(rng: &mut Rng) -> (r: Fx)
    ensures
        0 <= r.raw < SCALE,
{
    rng.next_unit()
}

/// A random scalar in `[min, max)`.
pub fn random_double_range(rng: &mut Rng, min: Fx, max: Fx) -> (r: Fx)
    requires
        min.raw < max.raw,
        max.raw - min.raw < 0x7fff_ffff_ffff,
    ensures
        min.raw <= r.raw < max.raw,
{
    let u = rng.next_unit();
    let d = max.minus(min);
    proof {
        crate::fx::lemma_fx_mul_scale_unit(u.raw as int, d.raw as int);
    }
    min.plus(u.times(d))
}

} // verus!
