//! Lattice points and vectors.
//!
//! Stored coordinates are 32-bit lattice integers. Values derived from them
//! (positions on curves and surfaces) are carried in wider integers, so that
//! no evaluation in this crate can overflow.

use vstd::prelude::*;

verus! {

/// A stored lattice coordinate.
pub type Scalar = i32;

/// A point on a curve, in curve coordinates.
#[derive(Clone, Copy, Debug, PartialEq, Eq, Structural, Hash)]
pub struct Point1 {
    /// The curve parameter
    pub t: Scalar,
}

/// A lattice point of a surface, in surface coordinates.
#[derive(Clone, Copy, Debug, PartialEq, Eq, Structural, Hash)]
pub struct Point2 {
    /// The first surface coordinate
    pub u: Scalar,
    /// The second surface coordinate
    pub v: Scalar,
}

/// A lattice vector in surface coordinates.
#[derive(Clone, Copy, Debug, PartialEq, Eq, Structural, Hash)]
pub struct Vector2 {
    /// The first component
    pub u: Scalar,
    /// The second component
    pub v: Scalar,
}

/// A lattice point in space.
#[derive(Clone, Copy, Debug, PartialEq, Eq, Structural, Hash)]
pub struct Point3 {
    /// The first coordinate
    pub x: Scalar,
    /// The second coordinate
    pub y: Scalar,
    /// The third coordinate
    pub z: Scalar,
}

/// A lattice vector in space.
#[derive(Clone, Copy, Debug, PartialEq, Eq, Structural, Hash)]
pub struct Vector3 {
    /// The first component
    pub x: Scalar,
    /// The second component
    pub y: Scalar,
    /// The third component
    pub z: Scalar,
}

/// A position on a surface that a curve was evaluated to.
#[derive(Clone, Copy, Debug, PartialEq, Eq, Structural, Hash)]
pub struct SurfacePosition {
    /// The first surface coordinate
    pub u: i64,
    /// The second surface coordinate
    pub v: i64,
}

/// A position in space that a surface was evaluated to.
#[derive(Clone, Copy, Debug, PartialEq, Eq, Structural, Hash)]
pub struct GlobalPosition {
    /// The first coordinate
    pub x: i128,
    /// The second coordinate
    pub y: i128,
    /// The third coordinate
    pub z: i128,
}

/// The rotational sense of a cycle, seen from the side its surface faces.
#[derive(Clone, Copy, Debug, PartialEq, Eq, Structural, Hash)]
pub enum Winding {
    /// Counter-clockwise
    Ccw,
    /// Clockwise
    Cw,
}

/// The product of two bounded numbers is bounded by the product of the
/// bounds.
pub proof fn lemma_product_bound(a: int, b: int, ma: int, mb: int)
    requires
        -ma <= a <= ma,
        -mb <= b <= mb,
    ensures
        -(ma * mb) <= a * b <= ma * mb,
{
    assert((ma - a) * (mb - b) >= 0) by (nonlinear_arith)
        requires
            ma - a >= 0,
            mb - b >= 0,
    ;
    assert((ma + a) * (mb + b) >= 0) by (nonlinear_arith)
        requires
            ma + a >= 0,
            mb + b >= 0,
    ;
    assert((ma - a) * (mb + b) >= 0) by (nonlinear_arith)
        requires
            ma - a >= 0,
            mb + b >= 0,
    ;
    assert((ma + a) * (mb - b) >= 0) by (nonlinear_arith)
        requires
            ma + a >= 0,
            mb - b >= 0,
    ;
    assert((ma - a) * (mb - b) == ma * mb - ma * b - a * mb + a * b) by (nonlinear_arith);
    assert((ma + a) * (mb + b) == ma * mb + ma * b + a * mb + a * b) by (nonlinear_arith);
    assert((ma - a) * (mb + b) == ma * mb + ma * b - a * mb - a * b) by (nonlinear_arith);
    assert((ma + a) * (mb - b) == ma * mb - ma * b + a * mb - a * b) by (nonlinear_arith);
}

impl Point1 {
    /// The point at parameter `t`.
    pub fn new(t: Scalar) -> (p: Point1)
        ensures
            p.t == t,
    {
        Point1 { t }
    }
}

impl Point2 {
    /// The point at `(u, v)`.
    pub fn new(u: Scalar, v: Scalar) -> (p: Point2)
        ensures
            p.u == u,
            p.v == v,
    {
        Point2 { u, v }
    }
}

impl Vector2 {
    /// The vector `(u, v)`.
    pub fn new(u: Scalar, v: Scalar) -> (p: Vector2)
        ensures
            p.u == u,
            p.v == v,
    {
        Vector2 { u, v }
    }

    /// The third component of the cross product of `self` and `other`, both
    /// taken as vectors in the plane.
    pub open spec fn spec_cross2d(self, other: Vector2) -> int {
        self.u * other.v - self.v * other.u
    }

    /// The third component of the cross product of `self` and `other`.
    pub fn cross2d(&self, other: &Vector2) -> (r: i128)
        ensures
            r == self.spec_cross2d(*other),
    {
        let su: i128 = self.u as i128;
        let sv: i128 = self.v as i128;
        let ou: i128 = other.u as i128;
        let ov: i128 = other.v as i128;
        assert(-0x4000_0000_0000_0000 <= su * ov <= 0x4000_0000_0000_0000) by (nonlinear_arith)
            requires
                -0x8000_0000 <= su <= 0x7fff_ffff,
                -0x8000_0000 <= ov <= 0x7fff_ffff,
        ;
        assert(-0x4000_0000_0000_0000 <= sv * ou <= 0x4000_0000_0000_0000) by (nonlinear_arith)
            requires
                -0x8000_0000 <= sv <= 0x7fff_ffff,
                -0x8000_0000 <= ou <= 0x7fff_ffff,
        ;
        su * ov - sv * ou
    }
}

impl SurfacePosition {
    /// Whether the position is one that a curve with lattice data reaches at
    /// a lattice parameter.
    pub open spec fn spec_in_reach(self) -> bool {
        &&& -0x4000_0000_8000_0000 <= self.u <= 0x4000_0000_8000_0000
        &&& -0x4000_0000_8000_0000 <= self.v <= 0x4000_0000_8000_0000
    }
}

impl Point3 {
    /// The point at `(x, y, z)`.
    pub fn new(x: Scalar, y: Scalar, z: Scalar) -> (p: Point3)
        ensures
            p.x == x,
            p.y == y,
            p.z == z,
    {
        Point3 { x, y, z }
    }
}

impl Vector3 {
    /// The vector `(x, y, z)`.
    pub fn new(x: Scalar, y: Scalar, z: Scalar) -> (p: Vector3)
        ensures
            p.x == x,
            p.y == y,
            p.z == z,
    {
        Vector3 { x, y, z }
    }
}

impl Winding {
    /// The opposite sense.
    pub open spec fn spec_reverse(self) -> Winding {
        match self {
            Winding::Ccw => Winding::Cw,
            Winding::Cw => Winding::Ccw,
        }
    }

    /// Whether the winding is counter-clockwise.
    pub fn is_ccw(&self) -> (r: bool)
        ensures
            r == (*self == Winding::Ccw),
    {
        matches!(self, Winding::Ccw)
    }

    /// Whether the winding is clockwise.
    pub fn is_cw(&self) -> (r: bool)
        ensures
            r == (*self == Winding::Cw),
    {
        matches!(self, Winding::Cw)
    }

    /// The opposite sense.
    pub fn reverse(self) -> (r: Winding)
        ensures
            r == self.spec_reverse(),
    {
        match self {
            Winding::Ccw => Winding::Cw,
            Winding::Cw => Winding::Ccw,
        }
    }
}

} // verus!
