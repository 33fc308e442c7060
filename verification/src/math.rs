//! Fixed-point scalar and vector arithmetic.
//!
//! All world coordinates, sizes, speeds and depths are integers measured in
//! milli-cells: one character cell of the terminal grid is `SCALE` units.

use vstd::prelude::*;

verus! {

/// Number of fixed-point units per character cell.
pub const SCALE: i64 = 1000;

/// Largest magnitude a stored speed (milli-cells per second) may have; keeps
/// velocity scaling inside comfortable integer ranges.
pub const SPEED_LIMIT: i64 = 1_000_000_000;

/// The milli-unit component of a normalized diagonal direction:
/// `SCALE / sqrt(2)`, rounded.
pub const DIAGONAL: i64 = 707;

/// Saturating addition of two `i64` values, as a mathematical function.
pub open spec fn sadd(a: int, b: int) -> int {
    if a + b > i64::MAX as int {
        i64::MAX as int
    } else if a + b < i64::MIN as int {
        i64::MIN as int
    } else {
        a + b
    }
}

/// Saturating subtraction of two `i64` values, as a mathematical function.
pub open spec fn ssub(a: int, b: int) -> int {
    sadd(a, -b)
}

/// Saturating `i64` addition.
pub fn sat_add(a: i64, b: i64) -> (r: i64)
    ensures
        r as int == sadd(a as int, b as int),
{
    let wide: i128 = a as i128 + b as i128;
    if wide > i64::MAX as i128 {
        i64::MAX
    } else if wide < i64::MIN as i128 {
        i64::MIN
    } else {
        wide as i64
    }
}

/// Saturating `i64` subtraction.
pub fn sat_sub(a: i64, b: i64) -> (r: i64)
    ensures
        r as int == ssub(a as int, b as int),
{
    let wide: i128 = a as i128 - b as i128;
    if wide > i64::MAX as i128 {
        i64::MAX
    } else if wide < i64::MIN as i128 {
        i64::MIN
    } else {
        wide as i64
    }
}

/// `v` clamped into `[lo, hi]`.
pub open spec fn clamp_spec(v: int, lo: int, hi: int) -> int {
    if v < lo {
        lo
    } else if v > hi {
        hi
    } else {
        v
    }
}

/// Clamp `v` into the interval `[lo, hi]`.
pub fn clamp(v: i64, lo: i64, hi: i64) -> (r: i64)
    requires
        lo <= hi,
    ensures
        r as int == clamp_spec(v as int, lo as int, hi as int),
{
    if v < lo {
        lo
    } else if v > hi {
        hi
    } else {
        v
    }
}

/// The cell index nearest to a milli-cell coordinate, halves rounding away
/// from zero.
pub open spec fn round_to_cell(v: int) -> int {
    if v >= 0 {
        (v + SCALE / 2) / (SCALE as int)
    } else {
        -((-v + SCALE / 2) / (SCALE as int))
    }
}

/// Round a milli-cell coordinate to the nearest whole cell index.
pub fn round_milli(v: i64) -> (r: i64)
    ensures
        r as int == round_to_cell(v as int),
{
    if v >= 0 {
        let mag: u64 = v as u64;
        let q: u64 = (mag + 500) / 1000;
        q as i64
    } else {
        let mag: u128 = (-(v as i128)) as u128;
        let q: u128 = (mag + 500) / 1000;
        let r: i64 = -(q as i128) as i64;
        proof {
            assert(r as int == -((-(v as int) + 500) / 1000));
        }
        r
    }
}

/// Division truncating toward zero (`b` positive), as Rust's integer
/// division behaves.
pub open spec fn tdiv(a: int, b: int) -> int {
    if a >= 0 {
        a / b
    } else {
        -((-a) / b)
    }
}

/// The displacement, in milli-cells, of one tick of movement: a speed in
/// milli-cells per second, scaled by a direction component in [`SCALE`]ths
/// and by the tick's elapsed milliseconds.
pub open spec fn scale_velocity_spec(speed: int, dir: int, dt_ms: int) -> int {
    tdiv(speed * dir * dt_ms, 1_000_000)
}

/// One tick's displacement along one axis: `speed * dir * dt`, brought back
/// from (milli-cells/s x milli-direction x ms) to milli-cells.
pub fn scale_velocity(speed: i64, dir: i64, dt_ms: u32) -> (r: i64)
    requires
        -SPEED_LIMIT <= speed <= SPEED_LIMIT,
        -SCALE <= dir <= SCALE,
    ensures
        r as int == scale_velocity_spec(speed as int, dir as int, dt_ms as int),
{
    let neg: bool = (speed < 0) != (dir < 0);
    let sp: u128 = if speed < 0 {
        (-(speed as i128)) as u128
    } else {
        speed as u128
    };
    let dm: u128 = if dir < 0 {
        (-(dir as i128)) as u128
    } else {
        dir as u128
    };
    proof {
        assert(sp * dm <= 1_000_000_000_000) by (nonlinear_arith)
            requires
                sp <= 1_000_000_000,
                dm <= 1000,
        ;
        assert(sp * dm * (dt_ms as u128) <= 1_000_000_000_000 * 4_294_967_296u128) by (
        nonlinear_arith)
            requires
                sp * dm <= 1_000_000_000_000,
                0 <= dt_ms <= 4_294_967_296u128,
        ;
    }
    let prod: u128 = sp * dm * (dt_ms as u128);
    let q: u128 = prod / 1_000_000;
    proof {
        let p = speed as int * dir as int * dt_ms as int;
        assert(prod == if p >= 0 {
            p
        } else {
            -p
        }) by (nonlinear_arith)
            requires
                sp == (if speed < 0 { -(speed as int) } else { speed as int }),
                dm == (if dir < 0 { -(dir as int) } else { dir as int }),
                prod == sp * dm * (dt_ms as u128),
                p == speed as int * dir as int * dt_ms as int,
                dt_ms >= 0,
                sp <= SPEED_LIMIT,
                dm <= SCALE,
        ;
        assert(q <= prod);
        assert(q == prod / 1_000_000);
    }
    if neg {
        let r: i64 = (-(q as i128)) as i64;
        proof {
            let p = speed as int * dir as int * dt_ms as int;
            assert(p <= 0) by (nonlinear_arith)
                requires
                    (speed < 0) != (dir < 0),
                    p == speed as int * dir as int * dt_ms as int,
                    dt_ms >= 0,
            ;
        }
        r
    } else {
        let r: i64 = q as i64;
        proof {
            let p = speed as int * dir as int * dt_ms as int;
            assert(p >= 0) by (nonlinear_arith)
                requires
                    (speed < 0) == (dir < 0),
                    p == speed as int * dir as int * dt_ms as int,
                    dt_ms >= 0,
            ;
        }
        r
    }
}

/// Half of `v`, truncating toward zero.
pub fn halve(v: i64) -> (r: i64)
    ensures
        r as int == tdiv(v as int, 2),
{
    if v >= 0 {
        ((v as u64) / 2) as i64
    } else {
        let mag: u128 = (-(v as i128)) as u128;
        (-((mag / 2) as i128)) as i64
    }
}

/// A two-component fixed-point vector (a width/height or planar position).
#[derive(Clone, Copy, PartialEq, Eq, Structural, Debug)]
pub struct Vec2 {
    pub x: i64,
    pub y: i64,
}

/// A three-component fixed-point vector: planar position plus `z` depth.
#[derive(Clone, Copy, PartialEq, Eq, Structural, Debug)]
pub struct Vec3 {
    pub x: i64,
    pub y: i64,
    pub z: i64,
}

impl Vec2 {
    pub fn new(x: i64, y: i64) -> (r: Vec2)
        ensures
            r.x == x,
            r.y == y,
    {
        Vec2 { x, y }
    }
}

impl Vec3 {
    pub fn new(x: i64, y: i64, z: i64) -> (r: Vec3)
        ensures
            r.x == x,
            r.y == y,
            r.z == z,
    {
        Vec3 { x, y, z }
    }

    /// The zero vector.
    pub fn zero() -> (r: Vec3)
        ensures
            r == (Vec3 { x: 0, y: 0, z: 0 }),
    {
        Vec3 { x: 0, y: 0, z: 0 }
    }

    /// Component-wise saturating vector sum.
    pub open spec fn add_spec(a: Vec3, b: Vec3) -> Vec3 {
        Vec3 {
            x: sadd(a.x as int, b.x as int) as i64,
            y: sadd(a.y as int, b.y as int) as i64,
            z: sadd(a.z as int, b.z as int) as i64,
        }
    }

    /// Component-wise saturating vector addition.
    pub fn add(self, other: Vec3) -> (r: Vec3)
        ensures
            r == Vec3::add_spec(self, other),
    {
        Vec3 { x: sat_add(self.x, other.x), y: sat_add(self.y, other.y), z: sat_add(
            self.z,
            other.z,
        ) }
    }
}

/// An entity's local position: a translation in milli-cells (`z` is the
/// entity's depth layer). Translation-only: the game needs no rotation or
/// scale.
#[derive(Clone, Copy, PartialEq, Eq, Structural, Debug)]
pub struct Transform {
    pub translation: Vec3,
}

impl Transform {
    /// The identity transform.
    pub fn identity() -> (r: Transform)
        ensures
            r.translation == (Vec3 { x: 0, y: 0, z: 0 }),
    {
        Transform { translation: Vec3 { x: 0, y: 0, z: 0 } }
    }

    pub fn from_translation(translation: Vec3) -> (r: Transform)
        ensures
            r.translation == translation,
    {
        Transform { translation }
    }
}

} // verus!
