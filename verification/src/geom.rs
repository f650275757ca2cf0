//! Fixed-point geometry.
//!
//! The demo's motion constants are hundredths of a world unit (the gravity
//! increment is 0.01 units per step), so positions and directions are kept as
//! signed integers scaled by `COORD_SCALE`.  Stored coordinates are clamped
//! to `[-COORD_LIMIT, COORD_LIMIT]`, which keeps every sum and product the
//! simulation forms far inside `i64`.

use vstd::prelude::*;

verus! {

/// Fixed-point coordinate units per world unit.
pub const COORD_SCALE: i64 = 100;

/// Magnitude bound kept by every stored coordinate.
pub const COORD_LIMIT: i64 = 1000000000000;

/// A position or direction in fixed-point world coordinates.
#[derive(Clone, Copy, Debug, PartialEq, Eq, Structural)]
pub struct Vec3 {
    pub x: i64,
    pub y: i64,
    pub z: i64,
}

/// A voxel-lattice position, in whole world units.
#[derive(Clone, Copy, Debug, PartialEq, Eq, Structural)]
pub struct IVec3 {
    pub x: i64,
    pub y: i64,
    pub z: i64,
}

impl Vec3 {
    pub fn new(x: i64, y: i64, z: i64) -> (v: Vec3)
        ensures
            v == (Vec3 { x, y, z }),
    {
        Vec3 { x, y, z }
    }
}

impl IVec3 {
    pub fn new(x: i64, y: i64, z: i64) -> (v: IVec3)
        ensures
            v == (IVec3 { x, y, z }),
    {
        IVec3 { x, y, z }
    }
}

pub open spec fn coord_in_range(v: int) -> bool {
    -COORD_LIMIT <= v <= COORD_LIMIT
}

pub open spec fn vec_in_range(v: Vec3) -> bool {
    coord_in_range(v.x as int) && coord_in_range(v.y as int) && coord_in_range(v.z as int)
}

/// A coordinate forced back into the stored range.
pub open spec fn clamp_coord(v: int) -> int {
    if v < -COORD_LIMIT {
        -COORD_LIMIT as int
    } else if v > COORD_LIMIT {
        COORD_LIMIT as int
    } else {
        v
    }
}

/// One coordinate of one step of motion: `p + d * s`, clamped.
pub fn advance_coord(p: i64, d: i64, s: i64) -> (r: i64)
    requires
        coord_in_range(p as int),
        coord_in_range(d as int),
        1 <= s <= 10,
    ensures
        r == clamp_coord(p as int + d as int * s as int),
        coord_in_range(r as int),
{
    proof {
        assert(-10 * COORD_LIMIT <= d as int * s as int <= 10 * COORD_LIMIT) by (nonlinear_arith)
            requires
                -COORD_LIMIT <= d as int <= COORD_LIMIT,
                1 <= s as int <= 10,
        ;
    }
    clamp_i64(p + d * s)
}

pub fn clamp_i64(v: i64) -> (r: i64)
    ensures
        r == clamp_coord(v as int),
        coord_in_range(r as int),
{
    if v < -COORD_LIMIT {
        -COORD_LIMIT
    } else if v > COORD_LIMIT {
        COORD_LIMIT
    } else {
        v
    }
}

} // verus!
