//! Polygon corners compared with a tolerance.

use std::cmp::Ordering;
use vstd::prelude::*;
use vstd::std_specs::cmp::PartialEqSpecImpl;
use vstd::std_specs::convert::FromSpecImpl;
use crate::fixed::{abs, float_eq};
use crate::geometry::Vec2;

verus! {

/// How far two coordinates may differ and still count as equal: a millionth.
pub const CORNER_EPSILON: i64 = 1;

/// A corner shared by cells, compared with a tolerance.
#[derive(Clone, Copy, Debug)]
pub struct VoronoiCorner {
    pub x: i64,
    pub y: i64,
}

/// Two corners are the same when both coordinates differ by at most the tolerance.
pub open spec fn same_corner(a: VoronoiCorner, b: VoronoiCorner) -> bool {
    abs(a.x - b.x) <= CORNER_EPSILON && abs(a.y - b.y) <= CORNER_EPSILON
}

/// Corners are ordered by `y`, and by `x` where the `y` differ by at most
/// the tolerance.
pub open spec fn corner_order(a: VoronoiCorner, b: VoronoiCorner) -> Ordering {
    if abs(a.y - b.y) <= CORNER_EPSILON {
        if a.x > b.x {
            Ordering::Greater
        } else if a.x < b.x {
            Ordering::Less
        } else {
            Ordering::Equal
        }
    } else if a.y > b.y {
        Ordering::Greater
    } else {
        Ordering::Less
    }
}

impl VoronoiCorner {
    pub fn new(x: i64, y: i64) -> (result: Self)
        ensures
            result == (VoronoiCorner { x, y }),
    {
        Self { x, y }
    }

    /// How this corner is ordered against `other`: see [`corner_order`].
    pub fn cmp(&self, other: &Self) -> (result: Ordering)
        ensures
            result == corner_order(*self, *other),
    {
        if float_eq(self.y, other.y, CORNER_EPSILON) {
            if self.x > other.x {
                Ordering::Greater
            } else if self.x < other.x {
                Ordering::Less
            } else {
                Ordering::Equal
            }
        } else if self.y > other.y {
            Ordering::Greater
        } else {
            Ordering::Less
        }
    }
}

impl PartialEq for VoronoiCorner {
    fn eq(&self, other: &Self) -> (result: bool) {
        float_eq(self.x, other.x, CORNER_EPSILON) && float_eq(self.y, other.y, CORNER_EPSILON)
    }
}

impl PartialEqSpecImpl for VoronoiCorner {
    open spec fn obeys_eq_spec() -> bool {
        true
    }

    open spec fn eq_spec(&self, other: &Self) -> bool {
        same_corner(*self, *other)
    }
}

impl From<Vec2> for VoronoiCorner {
    fn from(value: Vec2) -> (result: Self) {
        Self { x: value.x, y: value.y }
    }
}

impl FromSpecImpl<Vec2> for VoronoiCorner {
    open spec fn obeys_from_spec() -> bool {
        true
    }

    open spec fn from_spec(value: Vec2) -> Self {
        VoronoiCorner { x: value.x, y: value.y }
    }
}

/// A corner is the same as itself, and sameness goes both ways.
pub proof fn lemma_same_corner_symmetric(a: VoronoiCorner, b: VoronoiCorner)
    ensures
        same_corner(a, a),
        same_corner(a, b) == same_corner(b, a),
{
}

} // verus!
