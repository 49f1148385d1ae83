//! Verified core of a procedural map generator.
//!
//! A map is a bounded planar subdivision: the Voronoi cells of a jittered
//! grid of sites, relaxed once, each coloured by its elevation and moisture.
//! This crate holds the parts of that pipeline that work on plain values: the
//! geometry, the assembly of cells from the dual faces of a triangulation, the
//! terrain functions and the classification. The triangulation itself, the
//! noise fields and the random draws are the caller's: their results enter as
//! arguments.
//!
//! Every quantity is a fixed-point number: an `i64` that counts millionths
//! (see [`fixed::ONE`]). Products and quotients are rounded toward negative
//! infinity, and each function says in its contract which value it returns.

pub mod color;
pub mod corner;
pub mod delaunay;
pub mod fixed;
pub mod geometry;
pub mod map;
pub mod mesh;
pub mod voronoi;
