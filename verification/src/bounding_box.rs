//! Axis-aligned integer bounding boxes with inclusive corners, used to
//! scope rasterization work and to clip debug lines to the screen.

use vstd::prelude::*;

verus! {

/// A 2D vector of unsigned integer pixel coordinates.
#[derive(Clone, Copy, Debug, PartialEq, Eq, Structural)]
pub struct Vec2u {
    pub x: u32,
    pub y: u32,
}

impl Vec2u {
    pub fn new(x: u32, y: u32) -> (v: Vec2u)
        ensures
            v == (Vec2u { x, y }),
    {
        Vec2u { x, y }
    }
}

/// An axis-aligned box given by two inclusive corners: `start` is the
/// minimum corner and `end` the maximum corner.
#[derive(Clone, Copy, Debug, PartialEq, Eq, Structural)]
pub struct BoundingBox {
    pub start: Vec2u,
    pub end: Vec2u,
}

pub open spec fn max32(a: u32, b: u32) -> u32 {
    if a >= b {
        a
    } else {
        b
    }
}

pub open spec fn min32(a: u32, b: u32) -> u32 {
    if a <= b {
        a
    } else {
        b
    }
}

/// The projections of `a` and `b` on the x axis share at least one
/// coordinate (inclusive bounds).
pub open spec fn x_overlaps(a: BoundingBox, b: BoundingBox) -> bool {
    a.start.x <= b.end.x && a.end.x >= b.start.x
}

/// The projections of `a` and `b` on the y axis share at least one
/// coordinate (inclusive bounds).
pub open spec fn y_overlaps(a: BoundingBox, b: BoundingBox) -> bool {
    a.start.y <= b.end.y && a.end.y >= b.start.y
}

pub open spec fn overlaps(a: BoundingBox, b: BoundingBox) -> bool {
    x_overlaps(a, b) && y_overlaps(a, b)
}

/// The overlap region: component-wise maximum of the start corners and
/// minimum of the end corners.
pub open spec fn spec_intersection(a: BoundingBox, b: BoundingBox) -> BoundingBox {
    BoundingBox {
        start: Vec2u { x: max32(a.start.x, b.start.x), y: max32(a.start.y, b.start.y) },
        end: Vec2u { x: min32(a.end.x, b.end.x), y: min32(a.end.y, b.end.y) },
    }
}

impl BoundingBox {
    pub fn new(start: Vec2u, end: Vec2u) -> (b: BoundingBox)
        ensures
            b == (BoundingBox { start, end }),
    {
        BoundingBox { start, end }
    }

    /// Axis-wise overlap test: returns the intersection box exactly when
    /// both axis projections overlap, and nothing otherwise.
    pub fn intersect(&self, other: &BoundingBox) -> (r: Option<BoundingBox>)
        ensures
            r is Some <==> overlaps(*self, *other),
            r is Some ==> r.unwrap() == spec_intersection(*self, *other),
    {
        let x_intersect = self.start.x <= other.end.x && self.end.x >= other.start.x;
        let y_intersect = self.start.y <= other.end.y && self.end.y >= other.start.y;

        if x_intersect && y_intersect {
            let start = Vec2u {
                x: if self.start.x >= other.start.x {
                    self.start.x
                } else {
                    other.start.x
                },
                y: if self.start.y >= other.start.y {
                    self.start.y
                } else {
                    other.start.y
                },
            };
            let end = Vec2u {
                x: if self.end.x <= other.end.x {
                    self.end.x
                } else {
                    other.end.x
                },
                y: if self.end.y <= other.end.y {
                    self.end.y
                } else {
                    other.end.y
                },
            };
            Some(BoundingBox { start, end })
        } else {
            None
        }
    }
}

/// Box intersection is symmetric: whether two boxes overlap, and the box
/// they overlap in, do not depend on the order of the arguments.
pub proof fn lemma_intersection_symmetric(a: BoundingBox, b: BoundingBox)
    ensures
        overlaps(a, b) == overlaps(b, a),
        spec_intersection(a, b) == spec_intersection(b, a),
{
}

/// Two boxes fail to intersect exactly when their projections on some
/// axis are disjoint.
pub proof fn lemma_no_intersection_iff_axis_disjoint(a: BoundingBox, b: BoundingBox)
    ensures
        !overlaps(a, b) <==> (a.end.x < b.start.x || b.end.x < a.start.x || a.end.y < b.start.y
            || b.end.y < a.start.y),
{
}

} // verus!
