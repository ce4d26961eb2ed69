//! Fixed-point scalars and three-component vectors.
//!
//! A value `v: i64` stands for the real number `v / ONE`. Every value that the
//! simulation stores lies in `[-LIMIT, LIMIT]`; each operation computes its
//! exact mathematical result, rounds products and quotients down (towards
//! negative infinity), and saturates at the bound.
use vstd::prelude::*;

verus! {

/// The fixed-point representation of `1.0`.
pub const ONE: i64 = 1_000_000;

/// The largest magnitude that a stored fixed-point value may have.
pub const LIMIT: i64 = 1_000_000_000_000_000;

/// Saturation to `[-LIMIT, LIMIT]`.
pub open spec fn clamp(x: int) -> int {
    if x > LIMIT {
        LIMIT as int
    } else if x < -LIMIT {
        -LIMIT
    } else {
        x
    }
}

/// A value that a fixed-point quantity may hold.
pub open spec fn in_range(x: int) -> bool {
    -LIMIT <= x <= LIMIT
}

/// The product of two fixed-point values, rounded down and saturated.
pub open spec fn mul_spec(a: int, b: int) -> int {
    clamp((a * b) / (ONE as int))
}

/// The sum of two fixed-point values, saturated.
pub open spec fn add_spec(a: int, b: int) -> int {
    clamp(a + b)
}

/// A fixed-point value multiplied by an integer, saturated.
pub open spec fn scale_spec(k: int, a: int) -> int {
    clamp(k * a)
}

/// A fixed-point value divided by a positive integer, rounded down.
pub open spec fn div_spec(a: int, m: int) -> int {
    a / m
}

/// Floor division of a signed 128-bit value by a positive divisor.
fn floor_div(a: i128, d: i128) -> (r: i128)
    requires
        d > 0,
        -0x1000_0000_0000_0000_0000_0000_0000_0000 < a < 0x1000_0000_0000_0000_0000_0000_0000_0000,
    ensures
        r == a / d,
{
    if a >= 0 {
        let q: u128 = (a as u128) / (d as u128);
        proof {
            assert(q <= a) by (nonlinear_arith)
                requires
                    q == a as nat / d as nat,
                    d > 0,
                    a >= 0,
            ;
        }
        q as i128
    } else {
        let na: u128 = (-a) as u128;
        let du: u128 = d as u128;
        let q: u128 = (na + du - 1) / du;
        proof {
            let qi: int = q as int;
            let ai: int = a as int;
            let di: int = d as int;
            assert(qi * di >= -ai && qi * di < -ai + di && qi <= -ai) by (nonlinear_arith)
                requires
                    qi == (-ai + di - 1) / di,
                    di > 0,
                    ai < 0,
            ;
            assert(ai / di == -qi) by (nonlinear_arith)
                requires
                    qi * di >= -ai,
                    qi * di < -ai + di,
                    di > 0,
            ;
        }
        -(q as i128)
    }
}

/// Saturation of a 128-bit intermediate to `[-LIMIT, LIMIT]`.
fn saturate(x: i128) -> (r: i64)
    ensures
        r == clamp(x as int),
{
    if x > LIMIT as i128 {
        LIMIT
    } else if x < -(LIMIT as i128) {
        -LIMIT
    } else {
        x as i64
    }
}

/// The product of two fixed-point values.
pub fn fx_mul(a: i64, b: i64) -> (r: i64)
    requires
        in_range(a as int),
        in_range(b as int),
    ensures
        r == mul_spec(a as int, b as int),
        in_range(r as int),
{
    proof {
        assert(-1_000_000_000_000_000_000_000_000_000_000int <= a * b
            <= 1_000_000_000_000_000_000_000_000_000_000int) by (nonlinear_arith)
            requires
                in_range(a as int),
                in_range(b as int),
        ;
    }
    let p: i128 = (a as i128) * (b as i128);
    saturate(floor_div(p, ONE as i128))
}

/// The sum of two fixed-point values.
pub fn fx_add(a: i64, b: i64) -> (r: i64)
    requires
        in_range(a as int),
        in_range(b as int),
    ensures
        r == add_spec(a as int, b as int),
        in_range(r as int),
{
    saturate(a as i128 + b as i128)
}

/// A fixed-point value multiplied by an integer.
pub fn scale(k: i64, a: i64) -> (r: i64)
    requires
        in_range(k as int),
        in_range(a as int),
    ensures
        r == scale_spec(k as int, a as int),
        in_range(r as int),
{
    proof {
        assert(-1_000_000_000_000_000_000_000_000_000_000int <= k * a
            <= 1_000_000_000_000_000_000_000_000_000_000int) by (nonlinear_arith)
            requires
                in_range(k as int),
                in_range(a as int),
        ;
    }
    saturate((k as i128) * (a as i128))
}

/// A fixed-point value divided by a positive integer.
pub fn div(a: i64, m: i64) -> (r: i64)
    requires
        in_range(a as int),
        m >= 1,
    ensures
        r == div_spec(a as int, m as int),
        in_range(r as int),
{
    let q: i128 = floor_div(a as i128, m as i128);
    proof {
        let ai: int = a as int;
        let mi: int = m as int;
        assert(-LIMIT <= ai / mi <= LIMIT) by (nonlinear_arith)
            requires
                in_range(ai),
                mi >= 1,
        ;
    }
    q as i64
}

/// A three-component fixed-point vector.
#[derive(Clone, Copy, Debug, PartialEq, Eq, Structural)]
pub struct Vec3 {
    pub x: i64,
    pub y: i64,
    pub z: i64,
}

impl Vec3 {
    /// Every component lies in `[-LIMIT, LIMIT]`.
    pub open spec fn wf(self) -> bool {
        in_range(self.x as int) && in_range(self.y as int) && in_range(self.z as int)
    }

    /// Builds a vector from its components.
    pub fn new(x: i64, y: i64, z: i64) -> (r: Vec3)
        ensures
            r == (Vec3 { x, y, z }),
    {
        Vec3 { x, y, z }
    }

    /// The zero vector, in specifications.
    pub open spec fn spec_zero() -> Vec3 {
        Vec3 { x: 0, y: 0, z: 0 }
    }

    /// The zero vector.
    pub fn zero() -> (r: Vec3)
        ensures
            r == (Vec3 { x: 0, y: 0, z: 0 }),
            r.wf(),
    {
        Vec3 { x: 0, y: 0, z: 0 }
    }
}

/// Builds a vector from three mathematical components already in range.
pub open spec fn vec3_of(x: int, y: int, z: int) -> Vec3 {
    Vec3 { x: x as i64, y: y as i64, z: z as i64 }
}

/// The cross product `a × b`, each component rounded down and saturated.
pub open spec fn cross_spec(a: Vec3, b: Vec3) -> Vec3 {
    vec3_of(
        clamp((a.y * b.z - a.z * b.y) / (ONE as int)),
        clamp((a.z * b.x - a.x * b.z) / (ONE as int)),
        clamp((a.x * b.y - a.y * b.x) / (ONE as int)),
    )
}

/// The componentwise sum, saturated.
pub open spec fn add_vec_spec(a: Vec3, b: Vec3) -> Vec3 {
    vec3_of(add_spec(a.x as int, b.x as int), add_spec(a.y as int, b.y as int), add_spec(a.z as int, b.z as int))
}

/// The componentwise difference, saturated.
pub open spec fn sub_vec_spec(a: Vec3, b: Vec3) -> Vec3 {
    vec3_of(clamp(a.x - b.x), clamp(a.y - b.y), clamp(a.z - b.z))
}

/// Every component multiplied by the fixed-point value `s`.
pub open spec fn mul_vec_spec(a: Vec3, s: int) -> Vec3 {
    vec3_of(mul_spec(a.x as int, s), mul_spec(a.y as int, s), mul_spec(a.z as int, s))
}

/// Every component multiplied by the integer `k`.
pub open spec fn scale_vec_spec(k: int, a: Vec3) -> Vec3 {
    vec3_of(scale_spec(k, a.x as int), scale_spec(k, a.y as int), scale_spec(k, a.z as int))
}

/// Every component divided by the positive integer `m`.
pub open spec fn div_vec_spec(a: Vec3, m: int) -> Vec3 {
    vec3_of(div_spec(a.x as int, m), div_spec(a.y as int, m), div_spec(a.z as int, m))
}

/// One component of a cross product: `(p * q - r * s) / ONE`.
fn cross_component(p: i64, q: i64, r: i64, s: i64) -> (c: i64)
    requires
        in_range(p as int),
        in_range(q as int),
        in_range(r as int),
        in_range(s as int),
    ensures
        c == clamp((p * q - r * s) / (ONE as int)),
        in_range(c as int),
{
    proof {
        assert(-1_000_000_000_000_000_000_000_000_000_000int <= p * q
            <= 1_000_000_000_000_000_000_000_000_000_000int) by (nonlinear_arith)
            requires
                in_range(p as int),
                in_range(q as int),
        ;
        assert(-1_000_000_000_000_000_000_000_000_000_000int <= r * s
            <= 1_000_000_000_000_000_000_000_000_000_000int) by (nonlinear_arith)
            requires
                in_range(r as int),
                in_range(s as int),
        ;
    }
    let d: i128 = (p as i128) * (q as i128) - (r as i128) * (s as i128);
    saturate(floor_div(d, ONE as i128))
}

/// The cross product `a × b`.
pub fn cross_product(a: &Vec3, b: &Vec3) -> (r: Vec3)
    requires
        a.wf(),
        b.wf(),
    ensures
        r == cross_spec(*a, *b),
        r.wf(),
{
    Vec3 {
        x: cross_component(a.y, b.z, a.z, b.y),
        y: cross_component(a.z, b.x, a.x, b.z),
        z: cross_component(a.x, b.y, a.y, b.x),
    }
}

/// The componentwise sum `a + b`.
pub fn add_vec(a: &Vec3, b: &Vec3) -> (r: Vec3)
    requires
        a.wf(),
        b.wf(),
    ensures
        r == add_vec_spec(*a, *b),
        r.wf(),
{
    Vec3 { x: fx_add(a.x, b.x), y: fx_add(a.y, b.y), z: fx_add(a.z, b.z) }
}

/// The componentwise difference `a - b`.
pub fn sub_vec(a: &Vec3, b: &Vec3) -> (r: Vec3)
    requires
        a.wf(),
        b.wf(),
    ensures
        r == sub_vec_spec(*a, *b),
        r.wf(),
{
    Vec3 {
        x: saturate(a.x as i128 - b.x as i128),
        y: saturate(a.y as i128 - b.y as i128),
        z: saturate(a.z as i128 - b.z as i128),
    }
}

/// The vector `a` multiplied by the fixed-point value `s`.
pub fn mul_vec(a: &Vec3, s: i64) -> (r: Vec3)
    requires
        a.wf(),
        in_range(s as int),
    ensures
        r == mul_vec_spec(*a, s as int),
        r.wf(),
{
    Vec3 { x: fx_mul(a.x, s), y: fx_mul(a.y, s), z: fx_mul(a.z, s) }
}

/// The vector `a` multiplied by the integer `k`.
pub fn scale_vec(k: i64, a: &Vec3) -> (r: Vec3)
    requires
        a.wf(),
        in_range(k as int),
    ensures
        r == scale_vec_spec(k as int, *a),
        r.wf(),
{
    Vec3 { x: scale(k, a.x), y: scale(k, a.y), z: scale(k, a.z) }
}

/// The vector `a` divided by the positive integer `m`.
pub fn div_vec(a: &Vec3, m: i64) -> (r: Vec3)
    requires
        a.wf(),
        m >= 1,
    ensures
        r == div_vec_spec(*a, m as int),
        r.wf(),
{
    Vec3 { x: div(a.x, m), y: div(a.y, m), z: div(a.z, m) }
}

} // verus!
