//! Positions in space: a point minus a point is a vector, a point plus a
//! vector is a point.
use vstd::prelude::*;

use crate::fixed::{fadd, fsub, fx_add, fx_sub};
use crate::vector::Vector3;

verus! {

#[derive(Clone, Copy, Debug, PartialEq, Eq, Structural)]
pub struct Point {
    pub x: i64,
    pub y: i64,
    pub z: i64,
}

pub open spec fn psub(a: Point, b: Point) -> Vector3 {
    Vector3 { x: fsub(a.x, b.x), y: fsub(a.y, b.y), z: fsub(a.z, b.z) }
}

pub open spec fn padd(a: Point, v: Vector3) -> Point {
    Point { x: fadd(a.x, v.x), y: fadd(a.y, v.y), z: fadd(a.z, v.z) }
}

impl Point {
    pub fn zero() -> (r: Point)
        ensures
            r == (Point { x: 0i64, y: 0i64, z: 0i64 }),
    {
        Point { x: 0, y: 0, z: 0 }
    }

    /// Displacement from `rhs` to `self`.
    pub fn sub(self, rhs: Point) -> (r: Vector3)
        ensures
            r == psub(self, rhs),
    {
        Vector3 { x: fx_sub(self.x, rhs.x), y: fx_sub(self.y, rhs.y), z: fx_sub(self.z, rhs.z) }
    }

    /// Translate by a vector.
    pub fn add(self, rhs: Vector3) -> (r: Point)
        ensures
            r == padd(self, rhs),
    {
        Point { x: fx_add(self.x, rhs.x), y: fx_add(self.y, rhs.y), z: fx_add(self.z, rhs.z) }
    }
}

} // verus!
