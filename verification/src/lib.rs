//! Exact-arithmetic Bowyer-Watson Delaunay triangulation.
//!
//! Given a finite, ordered sequence of 2D points with bounded integer
//! coordinates, the triangulator computes a Delaunay triangulation covering
//! the convex hull of the points.  Triangles and edges are index triples and
//! index pairs into the caller's vertex list.  All geometric predicates are
//! evaluated exactly, so the classic floating-point robustness pitfalls of
//! this algorithm (near-zero circumcenter denominators, tolerance-based point
//! comparison) do not arise.

pub mod delaunay;
pub mod edge;
pub mod geometry;
pub mod objects;
pub mod settings;
pub mod triangle;
pub mod vector2;
