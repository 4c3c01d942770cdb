//! Integer vectors in layout units, and the saturating arithmetic that every
//! coordinate computation of the library goes through.

use vstd::prelude::*;

verus! {

/// The value of `v` brought into the range of `i32`.
pub open spec fn saturate(v: int) -> int {
    if v < i32::MIN {
        i32::MIN as int
    } else if v > i32::MAX {
        i32::MAX as int
    } else {
        v
    }
}

/// Half of `v`, rounded toward negative infinity.
pub open spec fn half(v: int) -> int {
    v / 2
}

/// Brings a wide intermediate result back into `i32`, saturating at the ends.
pub fn saturate_i64(v: i64) -> (r: i32)
    ensures
        r == saturate(v as int),
{
    if v < -2147483648 {
        -2147483648i32
    } else if v > 2147483647 {
        2147483647i32
    } else {
        v as i32
    }
}

/// Half of `v`, rounded toward negative infinity.
pub fn half_i64(v: i64) -> (r: i64)
    requires
        i64::MIN + 1 < v,
    ensures
        r == half(v as int),
{
    if v >= 0 {
        v / 2
    } else {
        let m: i64 = -v;
        -((m + 1) / 2)
    }
}

/// A point or extent in the plane.
#[derive(Clone, Copy, Debug, PartialEq, Eq, Structural)]
pub struct Vec2 {
    pub x: i32,
    pub y: i32,
}

/// A point or offset in space; the UI uses `z` only for layering.
#[derive(Clone, Copy, Debug, PartialEq, Eq, Structural)]
pub struct Vec3 {
    pub x: i32,
    pub y: i32,
    pub z: i32,
}

/// Four per-edge or per-corner values.
///
/// For margins and paddings the components are left, top, right, bottom.
#[derive(Clone, Copy, Debug, PartialEq, Eq, Structural)]
pub struct Vec4 {
    pub x: i32,
    pub y: i32,
    pub z: i32,
    pub w: i32,
}

impl Vec2 {
    pub open spec fn spec_zero() -> Vec2 {
        Vec2 { x: 0, y: 0 }
    }

    pub fn new(x: i32, y: i32) -> (r: Vec2)
        ensures
            r == (Vec2 { x, y }),
    {
        Vec2 { x, y }
    }

    pub fn splat(v: i32) -> (r: Vec2)
        ensures
            r == (Vec2 { x: v, y: v }),
    {
        Vec2 { x: v, y: v }
    }

    #[verifier::when_used_as_spec(spec_zero)]
    pub fn zero() -> (r: Vec2)
        ensures
            r == Vec2::spec_zero(),
    {
        Vec2 { x: 0, y: 0 }
    }

    /// The component-wise difference `self - other`, saturating.
    pub open spec fn spec_sub(self, other: Vec2) -> Vec2 {
        Vec2 {
            x: saturate(self.x - other.x) as i32,
            y: saturate(self.y - other.y) as i32,
        }
    }

    /// The component-wise difference `self - other`, saturating.
    pub fn minus(self, other: Vec2) -> (r: Vec2)
        ensures
            r == self.spec_sub(other),
    {
        Vec2 {
            x: saturate_i64(self.x as i64 - other.x as i64),
            y: saturate_i64(self.y as i64 - other.y as i64),
        }
    }
}

impl Vec3 {
    pub open spec fn spec_zero() -> Vec3 {
        Vec3 { x: 0, y: 0, z: 0 }
    }

    pub fn new(x: i32, y: i32, z: i32) -> (r: Vec3)
        ensures
            r == (Vec3 { x, y, z }),
    {
        Vec3 { x, y, z }
    }

    #[verifier::when_used_as_spec(spec_zero)]
    pub fn zero() -> (r: Vec3)
        ensures
            r == Vec3::spec_zero(),
    {
        Vec3 { x: 0, y: 0, z: 0 }
    }

    /// The component-wise sum, saturating.
    pub open spec fn spec_add(self, other: Vec3) -> Vec3 {
        Vec3 {
            x: saturate(self.x + other.x) as i32,
            y: saturate(self.y + other.y) as i32,
            z: saturate(self.z + other.z) as i32,
        }
    }

    /// The component-wise sum, saturating.
    pub fn plus(self, other: Vec3) -> (r: Vec3)
        ensures
            r == self.spec_add(other),
    {
        Vec3 {
            x: saturate_i64(self.x as i64 + other.x as i64),
            y: saturate_i64(self.y as i64 + other.y as i64),
            z: saturate_i64(self.z as i64 + other.z as i64),
        }
    }
}

impl Vec4 {
    pub open spec fn spec_zero() -> Vec4 {
        Vec4 { x: 0, y: 0, z: 0, w: 0 }
    }

    pub fn new(x: i32, y: i32, z: i32, w: i32) -> (r: Vec4)
        ensures
            r == (Vec4 { x, y, z, w }),
    {
        Vec4 { x, y, z, w }
    }

    pub fn splat(v: i32) -> (r: Vec4)
        ensures
            r == (Vec4 { x: v, y: v, z: v, w: v }),
    {
        Vec4 { x: v, y: v, z: v, w: v }
    }

    #[verifier::when_used_as_spec(spec_zero)]
    pub fn zero() -> (r: Vec4)
        ensures
            r == Vec4::spec_zero(),
    {
        Vec4 { x: 0, y: 0, z: 0, w: 0 }
    }
}

} // verus!
