//! Vectors and a column-major 4×4 matrix of binary32 numbers, laid out as the
//! shading stage reads them.

use crate::binary32::Binary32;
use vstd::prelude::*;

verus! {

/// Two numbers: a point or an extent in the plane.
#[derive(Clone, Copy, Debug, PartialEq, Eq, Structural)]
pub struct Vector2 {
    pub x: Binary32,
    pub y: Binary32,
}

/// Four numbers: a colour, four radii, or one column of a matrix.
#[derive(Clone, Copy, Debug, PartialEq, Eq, Structural)]
pub struct Vector4 {
    pub x: Binary32,
    pub y: Binary32,
    pub z: Binary32,
    pub w: Binary32,
}

/// A 4×4 matrix held as its four columns `x`, `y`, `z`, `w`.
#[derive(Clone, Copy, Debug, PartialEq, Eq, Structural)]
pub struct Matrix4 {
    pub x: Vector4,
    pub y: Vector4,
    pub z: Vector4,
    pub w: Vector4,
}

impl Vector2 {
    /// The components in memory order.
    pub open spec fn words(self) -> Seq<u32> {
        seq![self.x.bits, self.y.bits]
    }

    pub fn new(x: Binary32, y: Binary32) -> (v: Vector2)
        ensures
            v == (Vector2 { x, y }),
    {
        Vector2 { x, y }
    }

    /// Appends the components to `out`.
    pub fn write_words(&self, out: &mut Vec<u32>)
        ensures
            final(out)@ == old(out)@ + self.words(),
    {
        out.push(self.x.bits);
        out.push(self.y.bits);
    }
}

impl Vector4 {
    /// The components in memory order.
    pub open spec fn words(self) -> Seq<u32> {
        seq![self.x.bits, self.y.bits, self.z.bits, self.w.bits]
    }

    pub fn new(x: Binary32, y: Binary32, z: Binary32, w: Binary32) -> (v: Vector4)
        ensures
            v == (Vector4 { x, y, z, w }),
    {
        Vector4 { x, y, z, w }
    }

    /// Appends the components to `out`.
    pub fn write_words(&self, out: &mut Vec<u32>)
        ensures
            final(out)@ == old(out)@ + self.words(),
    {
        out.push(self.x.bits);
        out.push(self.y.bits);
        out.push(self.z.bits);
        out.push(self.w.bits);
    }
}

impl Matrix4 {
    /// The sixteen entries in memory order: column after column.
    pub open spec fn words(self) -> Seq<u32> {
        self.x.words() + self.y.words() + self.z.words() + self.w.words()
    }

    /// First coordinate of the image of the point `(px, py)` of the plane,
    /// taken as the homogeneous vector `(px, py, 1, 0)`.
    pub open spec fn image_x(self, px: real, py: real) -> real {
        self.x.x.value() * px + self.y.x.value() * py + self.z.x.value()
    }

    /// Second coordinate of the image of the point `(px, py)`.
    pub open spec fn image_y(self, px: real, py: real) -> real {
        self.x.y.value() * px + self.y.y.value() * py + self.z.y.value()
    }

    /// Appends the entries to `out`.
    pub fn write_words(&self, out: &mut Vec<u32>)
        ensures
            final(out)@ == old(out)@ + self.words(),
    {
        self.x.write_words(out);
        self.y.write_words(out);
        self.z.write_words(out);
        self.w.write_words(out);
    }
}

} // verus!
