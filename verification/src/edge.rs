//! Undirected edges of the triangulation, as index pairs into a vertex list.

use vstd::prelude::*;

verus! {

/// An edge between the vertices with indices `v` and `w`.
///
/// The pair is logically unordered: `(v, w)` and `(w, v)` denote the same
/// edge.  Derived `==` is deliberately strict (field-wise) identity; the
/// order-independent comparison is the named function
/// [`is_same_undirected_edge`], so that the loose relation can never leak
/// into general-purpose containers by accident.
#[derive(Clone, Copy, Debug, PartialEq, Eq, Structural)]
pub struct Edge {
    pub v: usize,
    pub w: usize,
}

impl Edge {
    /// Builds the edge joining vertex indices `v` and `w`.
    pub fn new(v: usize, w: usize) -> (r: Self)
        ensures
            r.v == v,
            r.w == w,
    {
        Self { v, w }
    }
}

/// The two edges join the same unordered pair of vertex indices.
pub open spec fn spec_same_undirected_edge(e1: Edge, e2: Edge) -> bool {
    (e1.v == e2.v && e1.w == e2.w) || (e1.v == e2.w && e1.w == e2.v)
}

/// Order-independent edge comparison: `(v, w)` matches both `(v, w)` and
/// `(w, v)`.
pub fn is_same_undirected_edge(e1: &Edge, e2: &Edge) -> (r: bool)
    ensures
        r == spec_same_undirected_edge(*e1, *e2),
{
    (e1.v == e2.v && e1.w == e2.w) || (e1.v == e2.w && e1.w == e2.v)
}

} // verus!
