//! Curves in surface coordinates.

use vstd::prelude::*;
use crate::math::{lemma_product_bound, Point1, Point2, Scalar, SurfacePosition, Vector2};

verus! {

/// A line through `origin`; the parameter counts steps of `direction`.
#[derive(Clone, Copy, Debug, PartialEq, Eq, Structural, Hash)]
pub struct Line {
    /// The point at parameter zero
    pub origin: Point2,
    /// The step that one unit of the parameter makes
    pub direction: Vector2,
}

/// A circle about `center`; the parameter counts quarter turns from `a`
/// towards `b`.
///
/// The point at parameter zero is `center + a`, the point one quarter turn on
/// is `center + b`. With the parameter in quarter turns, every lattice
/// parameter is mapped to a lattice point.
#[derive(Clone, Copy, Debug, PartialEq, Eq, Structural, Hash)]
pub struct Circle {
    /// The center
    pub center: Point2,
    /// The radius vector at parameter zero
    pub a: Vector2,
    /// The radius vector one quarter turn on
    pub b: Vector2,
}

/// A curve in the coordinates of a surface.
#[derive(Clone, Copy, Debug, PartialEq, Eq, Structural, Hash)]
pub enum Curve {
    /// A circle
    Circle(Circle),
    /// A line
    Line(Line),
}

impl Line {
    /// The position at parameter `t`.
    pub open spec fn spec_point(self, t: int) -> (int, int) {
        (self.origin.u + self.direction.u * t, self.origin.v + self.direction.v * t)
    }

    /// Twice the position at parameter `s / 2`.
    pub open spec fn spec_doubled_point(self, s: int) -> (int, int) {
        (2 * self.origin.u + self.direction.u * s, 2 * self.origin.v + self.direction.v * s)
    }

    /// The line through `a` at parameter zero and `b` at parameter one, where
    /// the step from `a` to `b` is a lattice vector.
    pub fn from_points(a: Point2, b: Point2) -> (r: Option<Line>)
        ensures
            r is Some <==> (Scalar::MIN <= b.u - a.u <= Scalar::MAX && Scalar::MIN <= b.v - a.v
                <= Scalar::MAX),
            r is Some ==> r->0.origin == a && r->0.direction.u == b.u - a.u && r->0.direction.v
                == b.v - a.v,
    {
        let du: i64 = b.u as i64 - a.u as i64;
        let dv: i64 = b.v as i64 - a.v as i64;
        if du < Scalar::MIN as i64 || du > Scalar::MAX as i64 || dv < Scalar::MIN as i64 || dv
            > Scalar::MAX as i64 {
            return None;
        }
        Some(Line { origin: a, direction: Vector2 { u: du as Scalar, v: dv as Scalar } })
    }

    /// The position at parameter `t`.
    pub fn point_from_line_coords(&self, t: Point1) -> (p: SurfacePosition)
        ensures
            (p.u as int, p.v as int) == self.spec_point(t.t as int),
            p.spec_in_reach(),
    {
        let u: i64 = eval_coord(self.origin.u, self.direction.u, t.t);
        let v: i64 = eval_coord(self.origin.v, self.direction.v, t.t);
        SurfacePosition { u, v }
    }
}

/// `origin + direction * t`, which a 64-bit integer always holds.
fn eval_coord(origin: Scalar, direction: Scalar, t: Scalar) -> (r: i64)
    ensures
        r == origin + direction * t,
        -0x4000_0000_8000_0000 <= r <= 0x4000_0000_8000_0000,
{
    let d: i64 = direction as i64;
    let s: i64 = t as i64;
    assert(-0x4000_0000_0000_0000 <= d * s <= 0x4000_0000_0000_0000) by (nonlinear_arith)
        requires
            -0x8000_0000 <= d <= 0x7fff_ffff,
            -0x8000_0000 <= s <= 0x7fff_ffff,
    ;
    origin as i64 + d * s
}

impl Circle {
    /// The position at parameter `t`, in quarter turns.
    pub open spec fn spec_point(self, t: int) -> (int, int) {
        let q = t % 4;
        if q == 0 {
            (self.center.u + self.a.u, self.center.v + self.a.v)
        } else if q == 1 {
            (self.center.u + self.b.u, self.center.v + self.b.v)
        } else if q == 2 {
            (self.center.u - self.a.u, self.center.v - self.a.v)
        } else {
            (self.center.u - self.b.u, self.center.v - self.b.v)
        }
    }

    /// The position at parameter `t`, in quarter turns.
    pub fn point_from_circle_coords(&self, t: Point1) -> (p: SurfacePosition)
        ensures
            (p.u as int, p.v as int) == self.spec_point(t.t as int),
            p.spec_in_reach(),
    {
        let q: i64 = quarter(t.t as i64);
        let cu: i64 = self.center.u as i64;
        let cv: i64 = self.center.v as i64;
        if q == 0 {
            SurfacePosition { u: cu + self.a.u as i64, v: cv + self.a.v as i64 }
        } else if q == 1 {
            SurfacePosition { u: cu + self.b.u as i64, v: cv + self.b.v as i64 }
        } else if q == 2 {
            SurfacePosition { u: cu - self.a.u as i64, v: cv - self.a.v as i64 }
        } else {
            SurfacePosition { u: cu - self.b.u as i64, v: cv - self.b.v as i64 }
        }
    }
}

/// The quarter of the turn that parameter `t` lies at: `t` modulo 4.
pub(crate) fn quarter(t: i64) -> (q: i64)
    requires
        -0x1_0000_0000 <= t <= 0x1_0000_0000,
    ensures
        q == t % 4,
{
    let shifted: u64 = (t + 0x1_0000_0000) as u64;
    (shifted % 4) as i64
}

impl Curve {
    /// The position at parameter `t`.
    pub open spec fn spec_point(self, t: int) -> (int, int) {
        match self {
            Curve::Circle(circle) => circle.spec_point(t),
            Curve::Line(line) => line.spec_point(t),
        }
    }

    /// The position at parameter `t`.
    pub fn point_from_path_coords(&self, t: Point1) -> (p: SurfacePosition)
        ensures
            (p.u as int, p.v as int) == self.spec_point(t.t as int),
            p.spec_in_reach(),
    {
        match self {
            Curve::Circle(circle) => circle.point_from_circle_coords(t),
            Curve::Line(line) => line.point_from_line_coords(t),
        }
    }

    /// Twice the position at parameter `s / 2`.
    ///
    /// A line has a lattice point there for every `s`, a circle for every
    /// even `s`.
    pub open spec fn spec_doubled_point(self, s: int) -> (int, int) {
        match self {
            Curve::Circle(circle) => {
                let p = circle.spec_point(s / 2);
                (2 * p.0, 2 * p.1)
            },
            Curve::Line(line) => line.spec_doubled_point(s),
        }
    }

    /// Twice the position at parameter `s / 2`.
    pub(crate) fn doubled_point(&self, s: i64) -> (p: (i128, i128))
        requires
            -0x1_0000_0000 <= s <= 0xffff_fffe,
            *self is Circle ==> s % 2 == 0,
        ensures
            (p.0 as int, p.1 as int) == self.spec_doubled_point(s as int),
            -0x8000_0001_0000_0000 <= p.0 <= 0x8000_0001_0000_0000,
            -0x8000_0001_0000_0000 <= p.1 <= 0x8000_0001_0000_0000,
    {
        match self {
            Curve::Circle(circle) => {
                let shifted: u64 = (s + 0x1_0000_0000) as u64;
                let half: i64 = (shifted / 2) as i64 - 0x8000_0000;
                assert(half == s / 2);
                let t = Point1 { t: half as Scalar };
                let p = circle.point_from_circle_coords(t);
                (2 * (p.u as i128), 2 * (p.v as i128))
            },
            Curve::Line(line) => {
                let wide: i128 = s as i128;
                proof {
                    lemma_product_bound(
                        line.direction.u as int,
                        s as int,
                        0x8000_0000,
                        0x1_0000_0000,
                    );
                    lemma_product_bound(
                        line.direction.v as int,
                        s as int,
                        0x8000_0000,
                        0x1_0000_0000,
                    );
                }
                let u: i128 = 2 * (line.origin.u as i128) + (line.direction.u as i128) * wide;
                let v: i128 = 2 * (line.origin.v as i128) + (line.direction.v as i128) * wide;
                (u, v)
            },
        }
    }

    /// Whether the curve is a circle.
    pub fn is_circle(&self) -> (r: bool)
        ensures
            r == (*self is Circle),
    {
        matches!(self, Curve::Circle(_))
    }
}

} // verus!
