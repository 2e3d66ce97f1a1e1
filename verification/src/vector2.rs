//! The 2D point value type used by the triangulator.

use vstd::prelude::*;
use crate::geometry::{in_vertex_range, spec_dist2, spec_norm2};
use crate::geometry::lemma_abs_mul_bound;

verus! {

/// A 2D point (vertex) with exact integer coordinates.
///
/// Coordinates are plain integers so that every geometric predicate of the
/// triangulator (orientation, circumcircle containment) can be evaluated
/// exactly; approximate, tolerance-based comparison is never needed.
#[derive(Clone, Copy, Debug, PartialEq, Eq, Structural)]
pub struct Vector2 {
    pub x: i64,
    pub y: i64,
}

impl Vector2 {
    /// Builds the point (x, y).
    pub fn new(x: i64, y: i64) -> (r: Self)
        ensures
            r.x == x,
            r.y == y,
    {
        Self { x, y }
    }

    /// Squared Euclidean distance between `self` and `other`.
    pub fn dist2(&self, other: &Self) -> (r: i64)
        requires
            in_vertex_range(*self),
            in_vertex_range(*other),
        ensures
            r == spec_dist2(*self, *other),
    {
        let dx = self.x - other.x;
        let dy = self.y - other.y;
        proof {
            lemma_abs_mul_bound(dx as int, dx as int, 100_000_000, 100_000_000);
            lemma_abs_mul_bound(dy as int, dy as int, 100_000_000, 100_000_000);
        }
        dx * dx + dy * dy
    }

    /// Squared Euclidean norm of `self`, seen as a vector from the origin.
    pub fn norm2(&self) -> (r: i64)
        requires
            in_vertex_range(*self),
        ensures
            r == spec_norm2(*self),
    {
        proof {
            lemma_abs_mul_bound(self.x as int, self.x as int, 100_000_000, 100_000_000);
            lemma_abs_mul_bound(self.y as int, self.y as int, 100_000_000, 100_000_000);
        }
        self.x * self.x + self.y * self.y
    }
}

} // verus!
