//! Surfaces in space.

use vstd::prelude::*;
use crate::math::{lemma_product_bound, GlobalPosition, Point3, SurfacePosition, Vector3};

verus! {

/// A line in space; the parameter counts steps of `direction`.
#[derive(Clone, Copy, Debug, PartialEq, Eq, Structural, Hash)]
pub struct GlobalLine {
    /// The point at parameter zero
    pub origin: Point3,
    /// The step that one unit of the parameter makes
    pub direction: Vector3,
}

/// A path in space that a surface is swept from.
#[derive(Clone, Copy, Debug, PartialEq, Eq, Structural, Hash)]
pub enum GlobalPath {
    /// A line
    Line(GlobalLine),
}

/// A surface: the path `u`, swept along the vector `v`.
///
/// A point `(u, v)` of the surface lies at the point of the path at parameter
/// `u`, moved by `v` times the sweep vector.
#[derive(Clone, Copy, Debug, PartialEq, Eq, Structural, Hash)]
pub struct SurfaceGeometry {
    /// The path that is swept
    pub u: GlobalPath,
    /// The vector along which the path is swept
    pub v: Vector3,
}

impl GlobalPath {
    /// The line through `a` at parameter zero and `b` at parameter one, where
    /// the step from `a` to `b` is a lattice vector.
    pub fn line_from_points(a: Point3, b: Point3) -> (r: Option<GlobalPath>)
        ensures
            r is Some <==> spec_step_fits(a, b),
            r is Some ==> r->0 == GlobalPath::Line(
                GlobalLine { origin: a, direction: spec_step(a, b) },
            ),
    {
        match step(a, b) {
            Some(direction) => Some(GlobalPath::Line(GlobalLine { origin: a, direction })),
            None => None,
        }
    }

    /// The point at parameter zero.
    pub open spec fn spec_origin(self) -> Point3 {
        match self {
            GlobalPath::Line(line) => line.origin,
        }
    }

    /// The step that one unit of the parameter makes.
    pub open spec fn spec_direction(self) -> Vector3 {
        match self {
            GlobalPath::Line(line) => line.direction,
        }
    }
}

/// Whether the step from `a` to `b` is a lattice vector.
pub open spec fn spec_step_fits(a: Point3, b: Point3) -> bool {
    &&& i32::MIN <= b.x - a.x <= i32::MAX
    &&& i32::MIN <= b.y - a.y <= i32::MAX
    &&& i32::MIN <= b.z - a.z <= i32::MAX
}

/// The step from `a` to `b`.
pub open spec fn spec_step(a: Point3, b: Point3) -> Vector3 {
    Vector3 { x: (b.x - a.x) as i32, y: (b.y - a.y) as i32, z: (b.z - a.z) as i32 }
}

/// The step from `a` to `b`, where it is a lattice vector.
pub fn step(a: Point3, b: Point3) -> (r: Option<Vector3>)
    ensures
        r is Some <==> spec_step_fits(a, b),
        r is Some ==> r->0 == spec_step(a, b),
{
    let dx: i64 = b.x as i64 - a.x as i64;
    let dy: i64 = b.y as i64 - a.y as i64;
    let dz: i64 = b.z as i64 - a.z as i64;
    if dx < i32::MIN as i64 || dx > i32::MAX as i64 || dy < i32::MIN as i64 || dy > i32::MAX as i64
        || dz < i32::MIN as i64 || dz > i32::MAX as i64 {
        return None;
    }
    Some(Vector3 { x: dx as i32, y: dy as i32, z: dz as i32 })
}

impl SurfaceGeometry {
    /// The point in space of the surface point `(u, v)`.
    pub open spec fn spec_point(self, u: int, v: int) -> (int, int, int) {
        let o = self.u.spec_origin();
        let d = self.u.spec_direction();
        (
            o.x + d.x * u + self.v.x * v,
            o.y + d.y * u + self.v.y * v,
            o.z + d.z * u + self.v.z * v,
        )
    }

    /// Twice the point in space of the surface point `(u / 2, v / 2)`.
    pub open spec fn spec_doubled_point(self, u: int, v: int) -> (int, int, int) {
        let o = self.u.spec_origin();
        let d = self.u.spec_direction();
        (
            2 * o.x + d.x * u + self.v.x * v,
            2 * o.y + d.y * u + self.v.y * v,
            2 * o.z + d.z * u + self.v.z * v,
        )
    }

    /// The point in space of a position on the surface.
    pub fn point_from_surface_coords(&self, position: SurfacePosition) -> (p: GlobalPosition)
        requires
            position.spec_in_reach(),
        ensures
            (p.x as int, p.y as int, p.z as int) == self.spec_point(
                position.u as int,
                position.v as int,
            ),
    {
        let GlobalPath::Line(line) = self.u;
        let u: i128 = position.u as i128;
        let v: i128 = position.v as i128;
        let x: i128 = coord(line.origin.x, line.direction.x, self.v.x, u, v);
        let y: i128 = coord(line.origin.y, line.direction.y, self.v.y, u, v);
        let z: i128 = coord(line.origin.z, line.direction.z, self.v.z, u, v);
        GlobalPosition { x, y, z }
    }

    /// Twice the point in space of the surface point `(u / 2, v / 2)`.
    pub(crate) fn doubled_point(&self, u: i128, v: i128) -> (p: GlobalPosition)
        requires
            -0x8000_0001_0000_0000 <= u <= 0x8000_0001_0000_0000,
            -0x8000_0001_0000_0000 <= v <= 0x8000_0001_0000_0000,
        ensures
            (p.x as int, p.y as int, p.z as int) == self.spec_doubled_point(u as int, v as int),
            -0x1_0000_0000_0000_0000_0000_0000 <= p.x <= 0x1_0000_0000_0000_0000_0000_0000,
            -0x1_0000_0000_0000_0000_0000_0000 <= p.y <= 0x1_0000_0000_0000_0000_0000_0000,
            -0x1_0000_0000_0000_0000_0000_0000 <= p.z <= 0x1_0000_0000_0000_0000_0000_0000,
    {
        let GlobalPath::Line(line) = self.u;
        let x: i128 = doubled_coord(line.origin.x, line.direction.x, self.v.x, u, v);
        let y: i128 = doubled_coord(line.origin.y, line.direction.y, self.v.y, u, v);
        let z: i128 = doubled_coord(line.origin.z, line.direction.z, self.v.z, u, v);
        GlobalPosition { x, y, z }
    }
}

/// `origin + direction * u + sweep * v`, which a 128-bit integer holds for
/// every surface position that a curve reaches.
fn coord(origin: i32, direction: i32, sweep: i32, u: i128, v: i128) -> (r: i128)
    requires
        -0x4000_0000_8000_0000 <= u <= 0x4000_0000_8000_0000,
        -0x4000_0000_8000_0000 <= v <= 0x4000_0000_8000_0000,
    ensures
        r == origin + direction * u + sweep * v,
{
    proof {
        lemma_product_bound(direction as int, u as int, 0x8000_0000, 0x4000_0000_8000_0000);
        lemma_product_bound(sweep as int, v as int, 0x8000_0000, 0x4000_0000_8000_0000);
    }
    (origin as i128) + (direction as i128) * u + (sweep as i128) * v
}

/// `2 * origin + direction * u + sweep * v`, which a 128-bit integer holds
/// for every doubled surface position.
fn doubled_coord(origin: i32, direction: i32, sweep: i32, u: i128, v: i128) -> (r: i128)
    requires
        -0x8000_0001_0000_0000 <= u <= 0x8000_0001_0000_0000,
        -0x8000_0001_0000_0000 <= v <= 0x8000_0001_0000_0000,
    ensures
        r == 2 * origin + direction * u + sweep * v,
        -0x1_0000_0000_0000_0000_0000_0000 <= r <= 0x1_0000_0000_0000_0000_0000_0000,
{
    proof {
        lemma_product_bound(direction as int, u as int, 0x8000_0000, 0x8000_0001_0000_0000);
        lemma_product_bound(sweep as int, v as int, 0x8000_0000, 0x8000_0001_0000_0000);
    }
    2 * (origin as i128) + (direction as i128) * u + (sweep as i128) * v
}

} // verus!
