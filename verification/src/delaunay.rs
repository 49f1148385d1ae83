//! The data that a triangulation carries for its vertices, edges and faces.

use vstd::prelude::*;
use vstd::std_specs::convert::FromSpecImpl;
use crate::geometry::Vec2;

verus! {

/// The radius that a site is drawn with: two units.
pub const DEFAULT_CIRCLE_RADIUS: i64 = 2_000_000;

/// What a triangulation stores for a site.
#[derive(Clone, Copy, Debug)]
pub struct VertexType {
    pub position: Vec2,
    pub radius: i64,
}

impl VertexType {
    /// The site at `(x, y)`, with the default radius.
    pub fn new(x: i64, y: i64) -> (result: Self)
        ensures
            result.position == (Vec2 { x, y }),
            result.radius == DEFAULT_CIRCLE_RADIUS,
    {
        Self { position: Vec2::new(x, y), radius: DEFAULT_CIRCLE_RADIUS }
    }

    /// Where the site lies.
    pub fn position(&self) -> (result: Vec2)
        ensures
            result == self.position,
    {
        self.position
    }
}

impl From<Vec2> for VertexType {
    fn from(value: Vec2) -> (result: Self) {
        Self { position: value, radius: DEFAULT_CIRCLE_RADIUS }
    }
}

impl FromSpecImpl<Vec2> for VertexType {
    open spec fn obeys_from_spec() -> bool {
        true
    }

    open spec fn from_spec(value: Vec2) -> Self {
        VertexType { position: value, radius: DEFAULT_CIRCLE_RADIUS }
    }
}

/// What a triangulation stores for an undirected edge: nothing.
#[derive(Clone, Copy, Debug)]
pub struct UndirectedEdgeType {}

impl UndirectedEdgeType {
    pub fn as_ref(&self) -> (result: &UndirectedEdgeType)
        ensures
            result == self,
    {
        self
    }
}

impl Default for UndirectedEdgeType {
    fn default() -> (result: Self)
        ensures
            result == (UndirectedEdgeType {  }),
    {
        Self {  }
    }
}

/// What a triangulation stores for a directed edge: nothing.
#[derive(Default, Clone, Copy, Debug)]
pub struct DirectedEdgeType {}

/// What a triangulation stores for a face: nothing.
#[derive(Clone, Copy, Debug)]
pub struct FaceType {}

impl Default for FaceType {
    fn default() -> (result: Self)
        ensures
            result == (FaceType {  }),
    {
        Self {  }
    }
}

/// The index of a vertex in a triangulation.
#[derive(Debug, PartialEq, Eq, PartialOrd, Ord, Clone, Copy)]
pub struct SpadeIndex(pub usize);

impl SpadeIndex {
    pub fn new(index: usize) -> (result: Self)
        ensures
            result.0 == index,
    {
        Self(index)
    }

    /// The index as a number.
    pub fn deref(&self) -> (result: &usize)
        ensures
            *result == self.0,
    {
        &self.0
    }
}

} // verus!
