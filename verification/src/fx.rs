//! Fixed-point scalars.
//!
//! A scalar is an `i64` raw value denoting the rational number `raw / SCALE`.
//! Multiplication and division round toward zero; the square root is the
//! floor of the exact square root. Every operation's contract states the
//! result exactly over the raw integer values.

use vstd::prelude::*;

verus! {

/// Number of fractional steps per unit: a scalar `Fx` denotes `raw / SCALE`.
pub const SCALE: i64 = 65536;

/// A fixed-point scalar: the rational number `raw / SCALE`.
#[derive(Clone, Copy, PartialEq, Eq, Structural, Debug)]
pub struct Fx {
    pub raw: i64,
}

/// Absolute value of a mathematical integer.
pub open spec fn iabs(x: int) -> int {
    if x < 0 { -x } else { x }
}

/// Quotient of `p` by `d`, rounded toward zero (the sign rule of machine
/// division). Meaningful only for `d != 0`.
pub open spec fn tdiv(p: int, d: int) -> int {
    if (p < 0) == (d < 0) {
        iabs(p) / iabs(d)
    } else {
        -(iabs(p) / iabs(d))
    }
}

/// Raw value of the fixed-point product: `(a * b) / SCALE`, toward zero.
pub open spec fn fx_mul_raw(a: int, b: int) -> int {
    tdiv(a * b, SCALE as int)
}

/// Raw value of the fixed-point quotient: `(a * SCALE) / b`, toward zero.
pub open spec fn fx_div_raw(a: int, b: int) -> int {
    tdiv(a * SCALE, b)
}

/// Floor of the square root of `n` (0 for negative `n`).
pub open spec fn sqrt_floor(n: int) -> int
    decreases n,
{
    if n <= 0 {
        0
    } else {
        let p = sqrt_floor(n - 1);
        if (p + 1) * (p + 1) <= n {
            p + 1
        } else {
            p
        }
    }
}

/// Raw value of the fixed-point square root: since `raw / SCALE` has square
/// root `sqrt(raw * SCALE) / SCALE`, the raw result is `sqrt_floor(raw * SCALE)`.
pub open spec fn fx_sqrt_raw(v: int) -> int {
    sqrt_floor(v * SCALE)
}

/// `sqrt_floor(n)` is the unique nonnegative root bracketing `n`.
pub proof fn lemma_sqrt_floor(n: int)
    requires
        n >= 0,
    ensures
        sqrt_floor(n) >= 0,
        sqrt_floor(n) * sqrt_floor(n) <= n,
        n < (sqrt_floor(n) + 1) * (sqrt_floor(n) + 1),
    decreases n,
{
    if n == 0 {
    } else {
        lemma_sqrt_floor(n - 1);
        let p = sqrt_floor(n - 1);
        if (p + 1) * (p + 1) <= n {
            assert(n < (p + 2) * (p + 2)) by (nonlinear_arith)
                requires
                    p >= 0,
                    n - 1 < (p + 1) * (p + 1),
            ;
        }
    }
}

/// Any nonnegative `r` with `r * r <= n < (r + 1) * (r + 1)` is `sqrt_floor(n)`.
pub proof fn lemma_sqrt_unique(n: int, r: int)
    requires
        n >= 0,
        r >= 0,
        r * r <= n,
        n < (r + 1) * (r + 1),
    ensures
        r == sqrt_floor(n),
{
    lemma_sqrt_floor(n);
    let s = sqrt_floor(n);
    assert(r == s) by (nonlinear_arith)
        requires
            r >= 0,
            s >= 0,
            r * r <= n,
            n < (r + 1) * (r + 1),
            s * s <= n,
            n < (s + 1) * (s + 1),
    ;
}

/// Magnitude bound for truncated division.
pub proof fn lemma_tdiv_mag(p: int, d: int, bound: int)
    requires
        d != 0,
        0 <= bound,
        iabs(p) <= bound * iabs(d),
    ensures
        iabs(tdiv(p, d)) <= bound,
{
    assert(iabs(p) / iabs(d) <= bound) by (nonlinear_arith)
        requires
            iabs(d) > 0,
            0 <= bound,
            0 <= iabs(p) <= bound * iabs(d),
    ;
}

/// Magnitude bound for the fixed-point product: if `|a| <= ma`, `|b| <= mb`
/// and `ma * mb <= bound * SCALE`, then `|fx_mul_raw(a, b)| <= bound`.
pub proof fn lemma_fx_mul_mag(a: int, b: int, ma: int, mb: int, bound: int)
    requires
        iabs(a) <= ma,
        iabs(b) <= mb,
        0 <= bound,
        ma * mb <= bound * SCALE,
    ensures
        iabs(fx_mul_raw(a, b)) <= bound,
{
    assert(iabs(a * b) <= ma * mb) by (nonlinear_arith)
        requires
            iabs(a) <= ma,
            iabs(b) <= mb,
            0 <= iabs(a),
            0 <= iabs(b),
    ;
    lemma_tdiv_mag(a * b, SCALE as int, bound);
}

/// Magnitude bound for the fixed-point quotient: if `|a| * SCALE <= bound * |b|`,
/// then `|fx_div_raw(a, b)| <= bound`.
pub proof fn lemma_fx_div_mag(a: int, b: int, bound: int)
    requires
        b != 0,
        0 <= bound,
        iabs(a) * SCALE <= bound * iabs(b),
    ensures
        iabs(fx_div_raw(a, b)) <= bound,
{
    assert(iabs(a * SCALE) == iabs(a) * SCALE) by (nonlinear_arith)
        requires
            SCALE == 65536,
    ;
    lemma_tdiv_mag(a * SCALE, b, bound);
}

/// Truncated division by a positive divisor keeps the dividend's sign.
pub proof fn lemma_tdiv_sign(p: int, d: int)
    requires
        d > 0,
    ensures
        p >= 0 ==> tdiv(p, d) >= 0,
        p <= 0 ==> tdiv(p, d) <= 0,
{
    assert(0 <= iabs(p) / d) by (nonlinear_arith)
        requires
            d > 0,
            0 <= iabs(p),
    ;
}

/// Truncated division by a positive divisor is monotone in the dividend.
pub proof fn lemma_tdiv_mono(p1: int, p2: int, d: int)
    requires
        d > 0,
        p1 <= p2,
    ensures
        tdiv(p1, d) <= tdiv(p2, d),
{
    if p1 >= 0 {
        assert(iabs(p1) / d <= iabs(p2) / d) by (nonlinear_arith)
            requires
                d > 0,
                0 <= iabs(p1) <= iabs(p2),
        ;
    } else if p2 < 0 {
        assert(iabs(p2) / d <= iabs(p1) / d) by (nonlinear_arith)
            requires
                d > 0,
                0 <= iabs(p2) <= iabs(p1),
        ;
    } else {
        lemma_tdiv_sign(p1, d);
        lemma_tdiv_sign(p2, d);
    }
}

/// Negating one factor negates the fixed-point product exactly: the
/// truncated quotient is odd in its dividend.
pub proof fn lemma_fx_mul_neg(a: int, b: int)
    ensures
        fx_mul_raw(-a, b) == -fx_mul_raw(a, b),
{
    assert((-a) * b == -(a * b)) by (nonlinear_arith);
    assert(iabs(-(a * b)) == iabs(a * b));
}

/// Multiplying by one is exact: `fx_mul_raw(SCALE, a) == a` both ways.
pub proof fn lemma_fx_mul_one(a: int)
    ensures
        fx_mul_raw(SCALE as int, a) == a,
        fx_mul_raw(a, SCALE as int) == a,
{
    let s = SCALE as int;
    if a >= 0 {
        assert((s * a) / s == a && (a * s) / s == a) by (nonlinear_arith)
            requires
                s == 65536,
                a >= 0,
        ;
    } else {
        assert(iabs(s * a) == s * (-a) && iabs(a * s) == (-a) * s);
        assert((s * (-a)) / s == -a && ((-a) * s) / s == -a) by (nonlinear_arith)
            requires
                s == 65536,
                a < 0,
        ;
    }
}

/// For factors in `[0, SCALE]` (the unit interval), the fixed-point product
/// stays below either factor, so unit-range colors stay in unit range.
pub proof fn lemma_fx_mul_le(a: int, b: int)
    requires
        0 <= a <= SCALE,
        0 <= b,
    ensures
        0 <= fx_mul_raw(a, b) <= b,
{
    let s = SCALE as int;
    assert(0 <= a * b && a * b <= s * b) by (nonlinear_arith)
        requires
            0 <= a <= s,
            0 <= b,
    ;
    assert(0 <= (a * b) / s <= b) by (nonlinear_arith)
        requires
            s == 65536,
            0 <= a * b <= s * b,
            0 <= b,
    ;
}

/// Scaling a nonnegative `d` by a unit fraction `u` in `[0, 1)` stays in
/// `[0, d)` (and at 0 when `d == 0`).
pub proof fn lemma_fx_mul_scale_unit(u: int, d: int)
    requires
        0 <= u < SCALE,
        0 <= d,
    ensures
        0 <= fx_mul_raw(u, d) <= d,
        d > 0 ==> fx_mul_raw(u, d) < d,
{
    let s = SCALE as int;
    assert(0 <= u * d) by (nonlinear_arith)
        requires
            0 <= u,
            0 <= d,
    ;
    assert(0 <= (u * d) / s) by (nonlinear_arith)
        requires
            s == 65536,
            0 <= u * d,
    ;
    if d > 0 {
        assert(u * d <= (s - 1) * d) by (nonlinear_arith)
            requires
                0 <= u <= s - 1,
                0 < d,
        ;
        assert((u * d) / s < d) by (nonlinear_arith)
            requires
                s == 65536,
                0 <= u * d <= (s - 1) * d,
                0 < d,
        ;
    }
}

/// `v` clamped into `[lo, hi]`.
pub open spec fn spec_clamp(v: int, lo: int, hi: int) -> int {
    if v < lo {
        lo
    } else if v > hi {
        hi
    } else {
        v
    }
}

/// The fixed-point square of any scalar is nonnegative.
pub proof fn lemma_fx_square_nonneg(c: int)
    ensures
        0 <= fx_mul_raw(c, c),
{
    assert(0 <= c * c) by (nonlinear_arith);
    lemma_tdiv_sign(c * c, SCALE as int);
}

/// Quotient rounded toward zero, computed on magnitudes.
fn tdiv_i128(p: i128, d: i128) -> (q: i128)
    requires
        d != 0,
        p > i128::MIN,
        d > i128::MIN,
    ensures
        q == tdiv(p as int, d as int),
{
    let neg = (p < 0) != (d < 0);
    let up: u128 = if p < 0 { (-p) as u128 } else { p as u128 };
    let ud: u128 = if d < 0 { (-d) as u128 } else { d as u128 };
    let uq: u128 = up / ud;
    if neg {
        -(uq as i128)
    } else {
        uq as i128
    }
}

/// Floor of the square root of `n`, by bisection.
fn isqrt_u128(n: u128) -> (r: u128)
    requires
        n < 0x4000_0000_0000_0000_0000_0000_0000_0000u128,
    ensures
        r as int == sqrt_floor(n as int),
        r * r <= n,
{
    let mut lo: u128 = 0;
    let mut hi: u128 = 0x8000_0000_0000_0000u128;
    assert(hi * hi > n) by (nonlinear_arith)
        requires
            hi == 0x8000_0000_0000_0000u128,
            n < 0x4000_0000_0000_0000_0000_0000_0000_0000u128,
    ;
    while lo + 1 < hi
        invariant
            lo < hi,
            hi <= 0x8000_0000_0000_0000u128,
            lo * lo <= n,
            n < hi * hi,
        decreases hi - lo,
    {
        let mid: u128 = lo + (hi - lo) / 2;
        assert(mid * mid < 0x4000_0000_0000_0000_0000_0000_0000_0000u128 * 4) by (nonlinear_arith)
            requires
                mid < 0x8000_0000_0000_0000u128 + 1,
        ;
        if mid * mid <= n {
            lo = mid;
        } else {
            hi = mid;
        }
    }
    proof {
        lemma_sqrt_unique(n as int, lo as int);
    }
    lo
}

impl Fx {
    /// The scalar whose raw fixed-point value is `raw`.
    pub fn new(raw: i64) -> (r: Fx)
        ensures
            r.raw == raw,
    {
        Fx { raw }
    }

    /// The scalar denoting the integer `i`.
    pub fn from_int(i: i64) -> (r: Fx)
        requires
            -0x7fff_ffff_ffff <= i <= 0x7fff_ffff_ffff,
        ensures
            r.raw == i * SCALE,
    {
        Fx { raw: i * SCALE }
    }

    /// Zero.
    pub fn zero() -> (r: Fx)
        ensures
            r.raw == 0,
    {
        Fx { raw: 0 }
    }

    /// One.
    pub fn one() -> (r: Fx)
        ensures
            r.raw == SCALE,
    {
        Fx { raw: SCALE }
    }

    /// Exact sum.
    pub fn plus(self, o: Fx) -> (r: Fx)
        requires
            i64::MIN <= self.raw + o.raw <= i64::MAX,
        ensures
            r.raw == self.raw + o.raw,
    {
        Fx { raw: self.raw + o.raw }
    }

    /// Exact difference.
    pub fn minus(self, o: Fx) -> (r: Fx)
        requires
            i64::MIN <= self.raw - o.raw <= i64::MAX,
        ensures
            r.raw == self.raw - o.raw,
    {
        Fx { raw: self.raw - o.raw }
    }

    /// Exact negation.
    pub fn negate(self) -> (r: Fx)
        requires
            self.raw > i64::MIN,
        ensures
            r.raw == -self.raw,
    {
        Fx { raw: -self.raw }
    }

    /// Fixed-point product, rounded toward zero.
    pub fn times(self, o: Fx) -> (r: Fx)
        requires
            i64::MIN <= fx_mul_raw(self.raw as int, o.raw as int) <= i64::MAX,
        ensures
            r.raw == fx_mul_raw(self.raw as int, o.raw as int),
    {
        proof {
            assert(i128::MIN < (self.raw as int) * (o.raw as int) < i128::MAX)
                by (nonlinear_arith)
                requires
                    i64::MIN <= self.raw <= i64::MAX,
                    i64::MIN <= o.raw <= i64::MAX,
            ;
        }
        let p: i128 = (self.raw as i128) * (o.raw as i128);
        let q = tdiv_i128(p, SCALE as i128);
        Fx { raw: q as i64 }
    }

    /// Fixed-point quotient, rounded toward zero.
    pub fn over(self, o: Fx) -> (r: Fx)
        requires
            o.raw != 0,
            i64::MIN <= fx_div_raw(self.raw as int, o.raw as int) <= i64::MAX,
        ensures
            r.raw == fx_div_raw(self.raw as int, o.raw as int),
    {
        proof {
            assert(i128::MIN < (self.raw as int) * (SCALE as int) < i128::MAX)
                by (nonlinear_arith)
                requires
                    SCALE == 65536,
                    i64::MIN <= self.raw <= i64::MAX,
            ;
        }
        let p: i128 = (self.raw as i128) * (SCALE as i128);
        let q = tdiv_i128(p, o.raw as i128);
        Fx { raw: q as i64 }
    }

    /// Fixed-point square root of a nonnegative scalar.
    pub fn sqrt(self) -> (r: Fx)
        requires
            self.raw >= 0,
        ensures
            r.raw == fx_sqrt_raw(self.raw as int),
            0 <= r.raw,
    {
        proof {
            assert((self.raw as int) * (SCALE as int)
                < 0x4000_0000_0000_0000_0000_0000_0000_0000) by (nonlinear_arith)
                requires
                    SCALE == 65536,
                    0 <= self.raw <= i64::MAX,
            ;
        }
        let n: u128 = (self.raw as u128) * (SCALE as u128);
        let s = isqrt_u128(n);
        proof {
            lemma_sqrt_floor(n as int);
            assert(s < 0x8000_0000_0000_0000u128) by (nonlinear_arith)
                requires
                    s * s <= n,
                    n < 0x4000_0000_0000_0000_0000_0000_0000_0000u128,
            ;
        }
        Fx { raw: s as i64 }
    }

    /// Absolute value.
    pub fn abs_val(self) -> (r: Fx)
        requires
            self.raw > i64::MIN,
        ensures
            r.raw == iabs(self.raw as int),
    {
        if self.raw < 0 {
            Fx { raw: -self.raw }
        } else {
            self
        }
    }

    /// The integer part of a nonnegative scalar.
    pub fn trunc(self) -> (r: i64)
        requires
            self.raw >= 0,
        ensures
            r == tdiv(self.raw as int, SCALE as int),
            0 <= r <= self.raw,
    {
        let v: u64 = (self.raw as u64) / 65536u64;
        proof {
            assert(v <= self.raw as u64) by (nonlinear_arith)
                requires
                    v == (self.raw as u64) / 65536u64,
            ;
        }
        v as i64
    }

}

} // verus!
