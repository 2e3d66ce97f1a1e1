//! Triangles of the triangulation, as index triples into a vertex list.

use vstd::prelude::*;
use crate::geometry::{
    all_in_vertex_range, incircle, lemma_incircle_swap, lemma_orient_swap, orient, spec_incircle,
    spec_orient,
};
use crate::vector2::Vector2;

verus! {

/// A triangle over the vertices with indices `a`, `b` and `c`.
///
/// Construction through [`Triangle::new`] normalises the winding so that a
/// stored triangle is never clockwise.  Derived `==` is strict (field-wise)
/// identity; the order-independent set comparison of the index triples is the
/// named method [`Triangle::is_same_triangle`].
#[derive(Clone, Copy, Debug, PartialEq, Eq, Structural)]
pub struct Triangle {
    pub a: usize,
    pub b: usize,
    pub c: usize,
}

/// The triangle that construction yields for the indices (a, b, c): the
/// first two indices are swapped exactly when the triple is clockwise.
pub open spec fn spec_make_triangle(a: usize, b: usize, c: usize, vs: Seq<Vector2>) -> Triangle {
    if spec_orient(vs[a as int], vs[b as int], vs[c as int]) < 0 {
        Triangle { a: b, b: a, c: c }
    } else {
        Triangle { a: a, b: b, c: c }
    }
}

/// The triangle t is counter-clockwise, or degenerate, over the vertex
/// list: its stored orientation is never negative.
pub open spec fn spec_tri_ccw(t: Triangle, vs: Seq<Vector2>) -> bool {
    spec_orient(vs[t.a as int], vs[t.b as int], vs[t.c as int]) >= 0
}

/// A constructed triangle is never clockwise: winding normalisation swaps
/// the first two indices exactly when the given triple has negative signed
/// area.
pub proof fn lemma_make_triangle_not_clockwise(a: usize, b: usize, c: usize, vs: Seq<Vector2>)
    ensures
        spec_tri_ccw(spec_make_triangle(a, b, c, vs), vs),
{
    if spec_orient(vs[a as int], vs[b as int], vs[c as int]) < 0 {
        lemma_orient_swap(vs[a as int], vs[b as int], vs[c as int]);
    }
}

/// The vertex with index `v` is one of the triangle's three indices.
pub open spec fn spec_tri_contains(t: Triangle, v: usize) -> bool {
    t.a == v || t.b == v || t.c == v
}

/// The vertex with index `p` lies in the closed circumdisk of the triangle.
///
/// The circumcircle determinant is compared against zero with its sign
/// adjusted by the triangle's orientation, so for a non-degenerate triangle
/// the predicate depends only on the set of the three vertices, never on
/// their stored order ([`lemma_circumcircle_order_independent`]).  A
/// collinear triple has no circumcircle; the predicate then falls back to
/// the fixed convention "determinant at least zero".
pub open spec fn spec_in_circumcircle(t: Triangle, vs: Seq<Vector2>, p: usize) -> bool {
    let d = spec_incircle(vs[t.a as int], vs[t.b as int], vs[t.c as int], vs[p as int]);
    if spec_orient(vs[t.a as int], vs[t.b as int], vs[t.c as int]) < 0 {
        d <= 0
    } else {
        d >= 0
    }
}

/// The vertex with index `p` lies strictly inside the circumcircle of the
/// triangle (points exactly on the circle do not count), with the same
/// sign adjustment and degenerate-triple convention as
/// [`spec_in_circumcircle`].
pub open spec fn spec_strictly_in_circumcircle(t: Triangle, vs: Seq<Vector2>, p: usize) -> bool {
    let d = spec_incircle(vs[t.a as int], vs[t.b as int], vs[t.c as int], vs[p as int]);
    if spec_orient(vs[t.a as int], vs[t.b as int], vs[t.c as int]) < 0 {
        d < 0
    } else {
        d > 0
    }
}

/// For a triangle whose three vertices are not collinear, circumcircle
/// containment does not depend on the stored order of the indices: every
/// transposition of the index triple (and hence every permutation) leaves
/// both the closed and the strict predicate unchanged.
pub proof fn lemma_circumcircle_order_independent(t: Triangle, vs: Seq<Vector2>, p: usize)
    requires
        spec_orient(vs[t.a as int], vs[t.b as int], vs[t.c as int]) != 0,
    ensures
        spec_in_circumcircle((Triangle { a: t.b, b: t.a, c: t.c }), vs, p)
            == spec_in_circumcircle(t, vs, p),
        spec_in_circumcircle((Triangle { a: t.a, b: t.c, c: t.b }), vs, p)
            == spec_in_circumcircle(t, vs, p),
        spec_in_circumcircle((Triangle { a: t.c, b: t.b, c: t.a }), vs, p)
            == spec_in_circumcircle(t, vs, p),
        spec_strictly_in_circumcircle((Triangle { a: t.b, b: t.a, c: t.c }), vs, p)
            == spec_strictly_in_circumcircle(t, vs, p),
        spec_strictly_in_circumcircle((Triangle { a: t.a, b: t.c, c: t.b }), vs, p)
            == spec_strictly_in_circumcircle(t, vs, p),
        spec_strictly_in_circumcircle((Triangle { a: t.c, b: t.b, c: t.a }), vs, p)
            == spec_strictly_in_circumcircle(t, vs, p),
{
    lemma_orient_swap(vs[t.a as int], vs[t.b as int], vs[t.c as int]);
    lemma_incircle_swap(vs[t.a as int], vs[t.b as int], vs[t.c as int], vs[p as int]);
}

/// The two triangles have the same set of vertex indices, in any order.
pub open spec fn spec_same_triangle(t1: Triangle, t2: Triangle) -> bool {
    spec_tri_contains(t1, t2.a) && spec_tri_contains(t1, t2.b) && spec_tri_contains(t1, t2.c)
        && spec_tri_contains(t2, t1.a) && spec_tri_contains(t2, t1.b)
        && spec_tri_contains(t2, t1.c)
}

impl Triangle {
    /// Builds the triangle (a, b, c) over the vertex list `vs`, swapping the
    /// first two indices when the signed area of the triple is negative, so
    /// that the stored triangle is counter-clockwise (or degenerate).
    pub fn new(a: usize, b: usize, c: usize, vs: &Vec<Vector2>) -> (t: Self)
        requires
            a < vs@.len(),
            b < vs@.len(),
            c < vs@.len(),
            all_in_vertex_range(vs@),
        ensures
            t == spec_make_triangle(a, b, c, vs@),
    {
        let o = orient(vs[a], vs[b], vs[c]);
        if o < 0 {
            Self { a: b, b: a, c: c }
        } else {
            Self { a: a, b: b, c: c }
        }
    }

    /// Whether `v` is one of the triangle's three vertex indices.
    pub fn contains_vertex(&self, v: usize) -> (r: bool)
        ensures
            r == spec_tri_contains(*self, v),
    {
        self.a == v || self.b == v || self.c == v
    }

    /// Whether the vertex with index `v` lies in the closed circumdisk of
    /// the triangle, decided exactly via the circumcircle determinant with
    /// its sign adjusted by the triangle's orientation, so the answer does
    /// not depend on the stored order of the three indices.
    pub fn circum_circle_contains(&self, v: usize, vs: &Vec<Vector2>) -> (r: bool)
        requires
            self.a < vs@.len(),
            self.b < vs@.len(),
            self.c < vs@.len(),
            v < vs@.len(),
            all_in_vertex_range(vs@),
        ensures
            r == spec_in_circumcircle(*self, vs@, v),
    {
        let o = orient(vs[self.a], vs[self.b], vs[self.c]);
        let det = incircle(vs[self.a], vs[self.b], vs[self.c], vs[v]);
        if o < 0 {
            det <= 0
        } else {
            det >= 0
        }
    }

    /// Order-independent comparison: the two triangles use the same three
    /// vertex indices.
    pub fn is_same_triangle(&self, other: &Triangle) -> (r: bool)
        ensures
            r == spec_same_triangle(*self, *other),
    {
        self.contains_vertex(other.a) && self.contains_vertex(other.b)
            && self.contains_vertex(other.c) && other.contains_vertex(self.a)
            && other.contains_vertex(self.b) && other.contains_vertex(self.c)
    }
}

} // verus!
