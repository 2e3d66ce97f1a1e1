//! The incremental Bowyer-Watson Delaunay triangulator.
//!
//! The executable triangulator is proved to return exactly the triangle and
//! edge lists described by the specification-level model in this module: a
//! bounding super-triangle is constructed over the input points, the points
//! are inserted one at a time (removing every triangle whose circumcircle
//! contains the new point and re-triangulating the boundary of the resulting
//! cavity), triangles touching the super-triangle are stripped, and each
//! surviving triangle contributes its three edges.

use vstd::prelude::*;
use crate::edge::{is_same_undirected_edge, spec_same_undirected_edge, Edge};
use crate::geometry::{
    all_collinear, all_in_coord_range, all_in_vertex_range, all_points_collinear,
    coords_in_range, in_coord_range, in_vertex_range, incircle, lemma_abs_mul_bound,
    spec_orient, COORD_LIMIT,
};
use crate::triangle::{
    lemma_make_triangle_not_clockwise, spec_in_circumcircle, spec_make_triangle,
    spec_strictly_in_circumcircle, spec_tri_ccw, spec_tri_contains, Triangle,
};
use crate::vector2::Vector2;

verus! {

/// Why a triangulation request was rejected.
#[derive(Clone, Copy, Debug, PartialEq, Eq, Structural)]
pub enum DelaunayError {
    /// Fewer than three input points were supplied; a triangulation is not
    /// defined.
    InsufficientInput,
    /// Some input coordinate exceeds [`COORD_LIMIT`] in magnitude, the bound
    /// under which the exact predicates are known to be overflow-free.
    CoordinateOutOfRange,
    /// Every input point lies on one line, so no triangle can be formed.
    DegenerateConfiguration,
}

/// Smallest x coordinate among the points, as the bounding-box scan finds it.
pub open spec fn spec_min_x(ps: Seq<Vector2>) -> int
    decreases ps.len(),
{
    if ps.len() <= 1 {
        ps[0].x as int
    } else {
        let rest = spec_min_x(ps.drop_last());
        if (ps.last().x as int) < rest {
            ps.last().x as int
        } else {
            rest
        }
    }
}

/// Smallest y coordinate among the points.
pub open spec fn spec_min_y(ps: Seq<Vector2>) -> int
    decreases ps.len(),
{
    if ps.len() <= 1 {
        ps[0].y as int
    } else {
        let rest = spec_min_y(ps.drop_last());
        if (ps.last().y as int) < rest {
            ps.last().y as int
        } else {
            rest
        }
    }
}

/// Largest x coordinate among the points.
pub open spec fn spec_max_x(ps: Seq<Vector2>) -> int
    decreases ps.len(),
{
    if ps.len() <= 1 {
        ps[0].x as int
    } else {
        let rest = spec_max_x(ps.drop_last());
        if (ps.last().x as int) > rest {
            ps.last().x as int
        } else {
            rest
        }
    }
}

/// Largest y coordinate among the points.
pub open spec fn spec_max_y(ps: Seq<Vector2>) -> int
    decreases ps.len(),
{
    if ps.len() <= 1 {
        ps[0].y as int
    } else {
        let rest = spec_max_y(ps.drop_last());
        if (ps.last().y as int) > rest {
            ps.last().y as int
        } else {
            rest
        }
    }
}

/// The larger of the bounding box's width and height.
pub open spec fn spec_delta(ps: Seq<Vector2>) -> int {
    let dx = spec_max_x(ps) - spec_min_x(ps);
    let dy = spec_max_y(ps) - spec_min_y(ps);
    if dx < dy {
        dy
    } else {
        dx
    }
}

/// First super-triangle vertex: far to the lower left of the bounding box.
pub open spec fn spec_super_a(ps: Seq<Vector2>) -> Vector2 {
    Vector2 {
        x: (spec_min_x(ps) - 20 * spec_delta(ps)) as i64,
        y: (spec_min_y(ps) - spec_delta(ps)) as i64,
    }
}

/// Second super-triangle vertex: far to the lower right of the bounding box.
pub open spec fn spec_super_b(ps: Seq<Vector2>) -> Vector2 {
    Vector2 {
        x: (spec_max_x(ps) + 20 * spec_delta(ps)) as i64,
        y: (spec_min_y(ps) - spec_delta(ps)) as i64,
    }
}

/// Third super-triangle vertex: far above the bounding box.
pub open spec fn spec_super_c(ps: Seq<Vector2>) -> Vector2 {
    Vector2 {
        x: spec_min_x(ps) as i64,
        y: (spec_max_y(ps) + 20 * spec_delta(ps)) as i64,
    }
}

/// The working vertex list: the input points followed by the three
/// super-triangle vertices.
pub open spec fn spec_with_super(ps: Seq<Vector2>) -> Seq<Vector2> {
    ps.push(spec_super_a(ps)).push(spec_super_b(ps)).push(spec_super_c(ps))
}

/// Every point of the sequence lies inside its bounding box.
proof fn lemma_bbox_bounds(ps: Seq<Vector2>, i: int)
    requires
        0 <= i < ps.len(),
    ensures
        spec_min_x(ps) <= ps[i].x <= spec_max_x(ps),
        spec_min_y(ps) <= ps[i].y <= spec_max_y(ps),
    decreases ps.len(),
{
    if ps.len() > 1 && i < ps.len() - 1 {
        lemma_bbox_bounds(ps.drop_last(), i);
        assert(ps.drop_last()[i] == ps[i]);
    }
}

/// The bounding box of in-range points is in range, and its larger span is
/// nonnegative and at most the full coordinate range.
proof fn lemma_bbox_in_range(ps: Seq<Vector2>)
    requires
        ps.len() >= 1,
        all_in_coord_range(ps),
    ensures
        -COORD_LIMIT <= spec_min_x(ps) <= COORD_LIMIT,
        -COORD_LIMIT <= spec_min_y(ps) <= COORD_LIMIT,
        -COORD_LIMIT <= spec_max_x(ps) <= COORD_LIMIT,
        -COORD_LIMIT <= spec_max_y(ps) <= COORD_LIMIT,
        0 <= spec_delta(ps) <= 2 * COORD_LIMIT,
    decreases ps.len(),
{
    assert(in_coord_range(ps[0]));
    if ps.len() > 1 {
        assert forall|k: int| 0 <= k < ps.drop_last().len() implies in_coord_range(
            #[trigger] ps.drop_last()[k],
        ) by {
            assert(ps.drop_last()[k] == ps[k]);
        }
        lemma_bbox_in_range(ps.drop_last());
        assert(in_coord_range(ps.last()));
    }
    lemma_bbox_bounds(ps, 0);
}

/// A point of the bounding box lies strictly inside the three super-triangle
/// corners, provided the box's larger span d is positive: the corners sit
/// twenty spans outside the box, so each edge clears the box by a margin of
/// at least 398 d squared.
proof fn lemma_enclosure_coords(
    minx: int, miny: int, maxx: int, maxy: int, d: int, px: int, py: int,
)
    by (nonlinear_arith)
    requires
        minx <= px <= maxx,
        miny <= py <= maxy,
        maxx - minx <= d,
        maxy - miny <= d,
        1 <= d,
    ensures
        ((maxx + 20 * d) - (minx - 20 * d)) * (py - (miny - d)) - ((miny - d) - (miny - d)) * (px
            - (minx - 20 * d)) > 0,
        (minx - (maxx + 20 * d)) * (py - (miny - d)) - ((maxy + 20 * d) - (miny - d)) * (px - (maxx
            + 20 * d)) > 0,
        ((minx - 20 * d) - minx) * (py - (maxy + 20 * d)) - ((miny - d) - (maxy + 20 * d)) * (px
            - minx) > 0,
{
}

/// Every input point lies strictly inside the super-triangle, as long as the
/// points are not all collinear (which the triangulator rejects first): the
/// three corner-to-corner orientations of each point are strictly positive.
pub proof fn lemma_super_triangle_encloses(ps: Seq<Vector2>, i: int)
    requires
        0 <= i < ps.len(),
        all_in_coord_range(ps),
        !all_collinear(ps),
    ensures
        spec_orient(spec_super_a(ps), spec_super_b(ps), ps[i]) > 0,
        spec_orient(spec_super_b(ps), spec_super_c(ps), ps[i]) > 0,
        spec_orient(spec_super_c(ps), spec_super_a(ps), ps[i]) > 0,
{
    lemma_bbox_bounds(ps, i);
    lemma_bbox_in_range(ps);
    let minx = spec_min_x(ps);
    let miny = spec_min_y(ps);
    let maxx = spec_max_x(ps);
    let maxy = spec_max_y(ps);
    let d = spec_delta(ps);
    // A zero span would mean all points coincide, hence all collinear.
    if d == 0 {
        assert forall|i2: int, j2: int, k2: int|
            0 <= i2 < ps.len() && 0 <= j2 < ps.len() && 0 <= k2 < ps.len()
                implies #[trigger] spec_orient(ps[i2], ps[j2], ps[k2]) == 0 by {
            lemma_bbox_bounds(ps, i2);
            lemma_bbox_bounds(ps, j2);
            lemma_bbox_bounds(ps, k2);
            assert(ps[i2] == ps[j2]);
        }
        assert(false);
    }
    // The synthetic corners stay within i64, so the stored coordinates are
    // exactly the bounding-box arithmetic.
    assert(spec_super_a(ps).x == minx - 20 * d);
    assert(spec_super_a(ps).y == miny - d);
    assert(spec_super_b(ps).x == maxx + 20 * d);
    assert(spec_super_b(ps).y == miny - d);
    assert(spec_super_c(ps).x == minx);
    assert(spec_super_c(ps).y == maxy + 20 * d);
    lemma_enclosure_coords(minx, miny, maxx, maxy, d, ps[i].x as int, ps[i].y as int);
}

/// The cavity ("polygon") edge list gathered while scanning the triangles in
/// order: every triangle whose circumcircle contains vertex `p` contributes
/// its three directed boundary edges.
pub open spec fn spec_cavity_edges(tris: Seq<Triangle>, vs: Seq<Vector2>, p: usize) -> Seq<Edge>
    decreases tris.len(),
{
    if tris.len() == 0 {
        Seq::empty()
    } else {
        let rest = spec_cavity_edges(tris.drop_last(), vs, p);
        let t = tris.last();
        if spec_in_circumcircle(t, vs, p) {
            rest.push(Edge { v: t.a, w: t.b }).push(Edge { v: t.b, w: t.c }).push(
                Edge { v: t.c, w: t.a },
            )
        } else {
            rest
        }
    }
}

/// The triangles that survive the cavity scan for vertex `p`: those whose
/// circumcircle does not contain `p`, in their original order.
pub open spec fn spec_kept_triangles(tris: Seq<Triangle>, vs: Seq<Vector2>, p: usize) -> Seq<
    Triangle,
>
    decreases tris.len(),
{
    if tris.len() == 0 {
        Seq::empty()
    } else {
        let rest = spec_kept_triangles(tris.drop_last(), vs, p);
        if spec_in_circumcircle(tris.last(), vs, p) {
            rest
        } else {
            rest.push(tris.last())
        }
    }
}

/// Cavity edge `i` also occurs (up to direction) at another position: it is
/// interior to the cavity and must not be re-triangulated.
pub open spec fn spec_edge_shared(poly: Seq<Edge>, i: int) -> bool {
    exists|j: int|
        0 <= j < poly.len() && j != i && spec_same_undirected_edge(poly[i], #[trigger] poly[j])
}

/// The boundary of the cavity, restricted to the first `k` cavity edges:
/// exactly the edges that occur only once in the whole cavity list.
pub open spec fn spec_boundary_prefix(poly: Seq<Edge>, k: int) -> Seq<Edge>
    decreases k,
{
    if k <= 0 {
        Seq::empty()
    } else {
        let rest = spec_boundary_prefix(poly, k - 1);
        if spec_edge_shared(poly, k - 1) {
            rest
        } else {
            rest.push(poly[k - 1])
        }
    }
}

/// The fan of new triangles joining each boundary edge to vertex `p`.
pub open spec fn spec_retriangulate(boundary: Seq<Edge>, p: usize, vs: Seq<Vector2>) -> Seq<
    Triangle,
>
    decreases boundary.len(),
{
    if boundary.len() == 0 {
        Seq::empty()
    } else {
        spec_retriangulate(boundary.drop_last(), p, vs).push(
            spec_make_triangle(boundary.last().v, boundary.last().w, p, vs),
        )
    }
}

/// One Bowyer-Watson insertion step: remove the triangles whose circumcircle
/// contains vertex `p` and re-triangulate the cavity boundary around `p`.
pub open spec fn spec_insert_vertex(tris: Seq<Triangle>, vs: Seq<Vector2>, p: usize) -> Seq<
    Triangle,
> {
    let poly = spec_cavity_edges(tris, vs, p);
    spec_kept_triangles(tris, vs, p) + spec_retriangulate(
        spec_boundary_prefix(poly, poly.len() as int),
        p,
        vs,
    )
}

/// The triangle list after inserting the first `k` input vertices, starting
/// from the single super-triangle over indices n, n+1, n+2.
pub open spec fn spec_insert_prefix(vs: Seq<Vector2>, n: int, k: int) -> Seq<Triangle>
    decreases k,
{
    if k <= 0 {
        seq![spec_make_triangle(n as usize, (n + 1) as usize, (n + 2) as usize, vs)]
    } else {
        spec_insert_vertex(spec_insert_prefix(vs, n, k - 1), vs, (k - 1) as usize)
    }
}

/// The triangle references a super-triangle vertex (an index at or beyond the
/// input length `n`).
pub open spec fn spec_touches_super(t: Triangle, n: int) -> bool {
    t.a >= n || t.b >= n || t.c >= n
}

/// The triangles that reference input vertices only, in order.
pub open spec fn spec_interior_triangles(tris: Seq<Triangle>, n: int) -> Seq<Triangle>
    decreases tris.len(),
{
    if tris.len() == 0 {
        Seq::empty()
    } else {
        let rest = spec_interior_triangles(tris.drop_last(), n);
        if spec_touches_super(tris.last(), n) {
            rest
        } else {
            rest.push(tris.last())
        }
    }
}

/// Each triangle contributes its three edges (a, b), (b, c), (c, a), in
/// order and without deduplication: an edge shared by two adjacent triangles
/// occurs twice.
pub open spec fn spec_triangle_edges(tris: Seq<Triangle>) -> Seq<Edge>
    decreases tris.len(),
{
    if tris.len() == 0 {
        Seq::empty()
    } else {
        let t = tris.last();
        spec_triangle_edges(tris.drop_last()).push(Edge { v: t.a, w: t.b }).push(
            Edge { v: t.b, w: t.c },
        ).push(Edge { v: t.c, w: t.a })
    }
}

/// The triangle list of the full model: bootstrap, insert every input vertex
/// in order, then strip the triangles that touch the super-triangle.
pub open spec fn spec_delaunay_triangles(ps: Seq<Vector2>) -> Seq<Triangle> {
    let vs = spec_with_super(ps);
    spec_interior_triangles(spec_insert_prefix(vs, ps.len() as int, ps.len() as int), ps.len() as int)
}

/// The edge list of the full model.
pub open spec fn spec_delaunay_edges(ps: Seq<Vector2>) -> Seq<Edge> {
    spec_triangle_edges(spec_delaunay_triangles(ps))
}

/// The inputs on which triangulation succeeds: at least three points, all
/// within the coordinate bound, not all on one line.
pub open spec fn spec_valid_input(ps: Seq<Vector2>) -> bool {
    ps.len() >= 3 && all_in_coord_range(ps) && !all_collinear(ps)
}

/// The triangle's indices are three distinct valid positions of a vertex
/// list of length `n`.
pub open spec fn spec_tri_indices_valid(t: Triangle, n: int) -> bool {
    t.a < n && t.b < n && t.c < n && t.a != t.b && t.b != t.c && t.a != t.c
}

/// Every triangle's indices are valid for a vertex list of length `n`.
pub open spec fn spec_triangles_valid(tris: Seq<Triangle>, n: int) -> bool {
    forall|i: int| 0 <= i < tris.len() ==> spec_tri_indices_valid(#[trigger] tris[i], n)
}

/// The edge's indices are two distinct valid positions of a vertex list of
/// length `n`.
pub open spec fn spec_edge_indices_valid(e: Edge, n: int) -> bool {
    e.v < n && e.w < n && e.v != e.w
}

/// Every edge's indices are valid for a vertex list of length `n`.
pub open spec fn spec_edges_valid(es: Seq<Edge>, n: int) -> bool {
    forall|i: int| 0 <= i < es.len() ==> spec_edge_indices_valid(#[trigger] es[i], n)
}

/// Every triangle of the sequence is counter-clockwise (or degenerate)
/// over the vertex list.
pub open spec fn spec_triangles_ccw(tris: Seq<Triangle>, ps: Seq<Vector2>) -> bool {
    forall|i: int| 0 <= i < tris.len() ==> spec_tri_ccw(#[trigger] tris[i], ps)
}

/// The Delaunay empty-circumcircle property: no vertex of the list lies
/// strictly inside the circumcircle of any triangle it does not belong to.
/// Strict containment is decided by the orientation-adjusted determinant,
/// so the property does not depend on the stored index order of any
/// non-degenerate triangle; for a collinear triple, which has no
/// circumcircle, the convention of [`spec_strictly_in_circumcircle`]
/// applies.
pub open spec fn spec_empty_circumcircles(tris: Seq<Triangle>, ps: Seq<Vector2>) -> bool {
    forall|i: int, j: usize|
        0 <= i < tris.len() && j < ps.len() && !spec_tri_contains(tris[i], j)
            ==> !#[trigger] spec_strictly_in_circumcircle(tris[i], ps, j)
}

/// Twice the total signed area of the triangles: the sum of their
/// orientation determinants.  For triangles built by the triangulator every
/// summand is nonnegative, so this is twice the covered area.
pub open spec fn spec_doubled_area(tris: Seq<Triangle>, ps: Seq<Vector2>) -> int
    decreases tris.len(),
{
    if tris.len() == 0 {
        0
    } else {
        let t = tris.last();
        spec_doubled_area(tris.drop_last(), ps) + spec_orient(
            ps[t.a as int],
            ps[t.b as int],
            ps[t.c as int],
        )
    }
}

/// An index is legal while the first `p` input vertices (of `n`) have been
/// inserted: it refers to an already inserted point or to the super-triangle.
spec fn spec_idx_ok(x: usize, p: int, n: int) -> bool {
    x < p || n <= x < n + 3
}

/// The triangle's indices are three distinct legal indices.
spec fn spec_tri_range_ok(t: Triangle, p: int, n: int) -> bool {
    spec_idx_ok(t.a, p, n) && spec_idx_ok(t.b, p, n) && spec_idx_ok(t.c, p, n) && t.a != t.b
        && t.b != t.c && t.a != t.c
}

/// Every triangle of the sequence has three distinct legal indices.
spec fn spec_tris_range_ok(tris: Seq<Triangle>, p: int, n: int) -> bool {
    forall|i: int| 0 <= i < tris.len() ==> spec_tri_range_ok(#[trigger] tris[i], p, n)
}

/// The edge's indices are two distinct legal indices.
spec fn spec_edge_range_ok(e: Edge, p: int, n: int) -> bool {
    spec_idx_ok(e.v, p, n) && spec_idx_ok(e.w, p, n) && e.v != e.w
}

/// Every edge of the sequence has two distinct legal indices.
spec fn spec_edges_range_ok(es: Seq<Edge>, p: int, n: int) -> bool {
    forall|i: int| 0 <= i < es.len() ==> spec_edge_range_ok(#[trigger] es[i], p, n)
}

/// A computed triangulation: the caller's vertex list together with the
/// triangles and edges covering its convex hull.
#[derive(Debug)]
pub struct Delaunay {
    triangles: Vec<Triangle>,
    edges: Vec<Edge>,
    vertices: Vec<Vector2>,
}

impl Delaunay {
    /// The triangles of the result, as a sequence.
    pub closed spec fn spec_triangles(&self) -> Seq<Triangle> {
        self.triangles@
    }

    /// The edges of the result, as a sequence.
    pub closed spec fn spec_edges(&self) -> Seq<Edge> {
        self.edges@
    }

    /// The vertices of the result, as a sequence.
    pub closed spec fn spec_vertices(&self) -> Seq<Vector2> {
        self.vertices@
    }

    /// An empty triangulation with no vertices, triangles or edges.
    pub fn new() -> (r: Self)
        ensures
            r.spec_vertices() == Seq::<Vector2>::empty(),
            r.spec_triangles() == Seq::<Triangle>::empty(),
            r.spec_edges() == Seq::<Edge>::empty(),
    {
        Self { triangles: Vec::new(), edges: Vec::new(), vertices: Vec::new() }
    }

    /// The triangle list: index triples into [`Self::vertices`].
    pub fn triangles(&self) -> (r: &Vec<Triangle>)
        ensures
            r@ == self.spec_triangles(),
    {
        &self.triangles
    }

    /// The edge list: index pairs into [`Self::vertices`].
    pub fn edges(&self) -> (r: &Vec<Edge>)
        ensures
            r@ == self.spec_edges(),
    {
        &self.edges
    }

    /// The vertex list: identical to the input the triangulation was built
    /// from, in the same order.
    pub fn vertices(&self) -> (r: &Vec<Vector2>)
        ensures
            r@ == self.spec_vertices(),
    {
        &self.vertices
    }

    /// Brute-force check of the Delaunay empty-circumcircle property: for
    /// every triangle of the result, no vertex other than its own three lies
    /// strictly inside its circumcircle.
    pub fn empty_circumcircle_holds(&self) -> (r: bool)
        requires
            all_in_vertex_range(self.spec_vertices()),
            spec_triangles_valid(self.spec_triangles(), self.spec_vertices().len() as int),
        ensures
            r == spec_empty_circumcircles(self.spec_triangles(), self.spec_vertices()),
            // A triangle's own vertices lie exactly on its circumcircle, so
            // on success no vertex at all is strictly inside any circumcircle.
            r ==> forall|i: int, j: usize|
                0 <= i < self.spec_triangles().len() && j < self.spec_vertices().len()
                    ==> !#[trigger] spec_strictly_in_circumcircle(
                    self.spec_triangles()[i],
                    self.spec_vertices(),
                    j,
                ),
    {
        let tn = self.triangles.len();
        let vn = self.vertices.len();
        let mut i: usize = 0;
        while i < tn
            invariant
                i <= tn,
                tn == self.triangles@.len(),
                vn == self.vertices@.len(),
                all_in_vertex_range(self.vertices@),
                spec_triangles_valid(self.triangles@, self.vertices@.len() as int),
                forall|i2: int, j2: usize|
                    0 <= i2 < i && j2 < vn && !spec_tri_contains(self.triangles@[i2], j2)
                        ==> !#[trigger] spec_strictly_in_circumcircle(
                        self.triangles@[i2],
                        self.vertices@,
                        j2,
                    ),
            decreases tn - i,
        {
            let t = self.triangles[i];
            proof {
                assert(spec_tri_indices_valid(self.triangles@[i as int], vn as int));
            }
            let mut j: usize = 0;
            while j < vn
                invariant
                    j <= vn,
                    i < tn,
                    tn == self.triangles@.len(),
                    vn == self.vertices@.len(),
                    t == self.triangles@[i as int],
                    spec_tri_indices_valid(t, vn as int),
                    all_in_vertex_range(self.vertices@),
                    forall|j2: usize|
                        j2 < j && !spec_tri_contains(t, j2)
                            ==> !#[trigger] spec_strictly_in_circumcircle(
                            t,
                            self.vertices@,
                            j2,
                        ),
                decreases vn - j,
            {
                if !t.contains_vertex(j) {
                    let o = crate::geometry::orient(
                        self.vertices[t.a],
                        self.vertices[t.b],
                        self.vertices[t.c],
                    );
                    let det = incircle(
                        self.vertices[t.a],
                        self.vertices[t.b],
                        self.vertices[t.c],
                        self.vertices[j],
                    );
                    let strictly_inside = if o < 0 { det < 0 } else { det > 0 };
                    if strictly_inside {
                        proof {
                            assert(spec_strictly_in_circumcircle(
                                self.triangles@[i as int],
                                self.vertices@,
                                j,
                            ));
                            assert(!spec_empty_circumcircles(self.triangles@, self.vertices@));
                        }
                        return false;
                    }
                }
                j = j + 1;
            }
            i = i + 1;
        }
        proof {
            assert forall|i2: int, j2: usize|
                0 <= i2 < self.triangles@.len() && j2 < self.vertices@.len()
                    implies !#[trigger] spec_strictly_in_circumcircle(
                    self.triangles@[i2],
                    self.vertices@,
                    j2,
                ) by {
                let t = self.triangles@[i2];
                if spec_tri_contains(t, j2) {
                    crate::geometry::lemma_vertices_on_own_circumcircle(
                        self.vertices@[t.a as int],
                        self.vertices@[t.b as int],
                        self.vertices@[t.c as int],
                    );
                }
            }
        }
        true
    }

    /// Twice the total signed area covered by the triangles of the result,
    /// computed exactly.  Every triangle is stored counter-clockwise, so
    /// each summand is nonnegative and the total is twice the covered area.
    pub fn doubled_area(&self) -> (r: i128)
        requires
            all_in_vertex_range(self.spec_vertices()),
            spec_triangles_valid(self.spec_triangles(), self.spec_vertices().len() as int),
        ensures
            r == spec_doubled_area(self.spec_triangles(), self.spec_vertices()),
            spec_triangles_ccw(self.spec_triangles(), self.spec_vertices()) ==> r >= 0,
    {
        let tn = self.triangles.len();
        let mut total: i128 = 0;
        let mut i: usize = 0;
        while i < tn
            invariant
                i <= tn,
                tn == self.triangles@.len(),
                all_in_vertex_range(self.vertices@),
                spec_triangles_valid(self.triangles@, self.vertices@.len() as int),
                total == spec_doubled_area(self.triangles@.take(i as int), self.vertices@),
                -(i as int) * 20_000_000_000_000_000 <= total <= (i as int)
                    * 20_000_000_000_000_000,
                spec_triangles_ccw(self.triangles@, self.vertices@) ==> total >= 0,
            decreases tn - i,
        {
            let t = self.triangles[i];
            proof {
                assert(spec_tri_indices_valid(self.triangles@[i as int], self.vertices@.len() as int));
            }
            let o = crate::geometry::orient(
                self.vertices[t.a],
                self.vertices[t.b],
                self.vertices[t.c],
            );
            proof {
                let a = self.vertices@[t.a as int];
                let b = self.vertices@[t.b as int];
                let c = self.vertices@[t.c as int];
                lemma_abs_mul_bound(
                    b.x - a.x,
                    c.y - a.y,
                    100_000_000,
                    100_000_000,
                );
                lemma_abs_mul_bound(
                    b.y - a.y,
                    c.x - a.x,
                    100_000_000,
                    100_000_000,
                );
                assert(self.triangles@.take(i as int + 1).drop_last() =~= self.triangles@.take(
                    i as int,
                ));
                assert(self.triangles@.take(i as int + 1).last() == self.triangles@[i as int]);
            }
            total = total + o;
            i = i + 1;
        }
        proof {
            assert(self.triangles@.take(tn as int) =~= self.triangles@);
        }
        total
    }

    /// Computes the Delaunay triangulation of the given points with the
    /// incremental Bowyer-Watson algorithm, using exact arithmetic
    /// throughout.
    ///
    /// The result is a total function of the input: the returned vertex list
    /// equals the input (same order), and the triangle and edge lists are
    /// exactly those of the specification-level model, so two runs over
    /// equal inputs return equal triangulations.  Success and each rejection
    /// are characterised exactly: fewer than three points, a coordinate out
    /// of range, and an all-collinear configuration are the only failures.
    pub fn triangulate(vertices: &Vec<Vector2>) -> (r: Result<Self, DelaunayError>)
        ensures
            r is Ok <==> spec_valid_input(vertices@),
            match r {
                Ok(d) => {
                    &&& d.spec_vertices() == vertices@
                    &&& d.spec_triangles() == spec_delaunay_triangles(vertices@)
                    &&& d.spec_edges() == spec_delaunay_edges(vertices@)
                    &&& spec_triangles_valid(d.spec_triangles(), vertices@.len() as int)
                    &&& spec_edges_valid(d.spec_edges(), vertices@.len() as int)
                    &&& spec_triangles_ccw(d.spec_triangles(), vertices@)
                },
                Err(e) => {
                    &&& (e == DelaunayError::InsufficientInput <==> vertices@.len() < 3)
                    &&& (e == DelaunayError::CoordinateOutOfRange <==> vertices@.len() >= 3
                        && !all_in_coord_range(vertices@))
                    &&& (e == DelaunayError::DegenerateConfiguration <==> vertices@.len() >= 3
                        && all_in_coord_range(vertices@) && all_collinear(vertices@))
                },
            },
    {
        let n = vertices.len();
        if n < 3 {
            return Err(DelaunayError::InsufficientInput);
        }
        if !coords_in_range(vertices) {
            return Err(DelaunayError::CoordinateOutOfRange);
        }
        if all_points_collinear(vertices) {
            return Err(DelaunayError::DegenerateConfiguration);
        }

        // Working copy of the caller's vertex list; the super-triangle is
        // appended to it for the duration of the run.
        let mut vs: Vec<Vector2> = Vec::new();
        let mut i: usize = 0;
        while i < n
            invariant
                i <= n,
                n == vertices@.len(),
                vs@ == vertices@.take(i as int),
            decreases n - i,
        {
            vs.push(vertices[i]);
            proof {
                assert(vertices@.take(i as int + 1) =~= vertices@.take(i as int).push(
                    vertices@[i as int],
                ));
            }
            i = i + 1;
        }
        proof {
            assert(vertices@.take(n as int) =~= vertices@);
        }

        // Bounding box of the input points.
        let p0 = vertices[0];
        let mut min_x = p0.x;
        let mut min_y = p0.y;
        let mut max_x = p0.x;
        let mut max_y = p0.y;
        let mut i: usize = 1;
        while i < n
            invariant
                1 <= i <= n,
                n == vertices@.len(),
                all_in_coord_range(vertices@),
                min_x as int == spec_min_x(vertices@.take(i as int)),
                min_y as int == spec_min_y(vertices@.take(i as int)),
                max_x as int == spec_max_x(vertices@.take(i as int)),
                max_y as int == spec_max_y(vertices@.take(i as int)),
                -COORD_LIMIT <= min_x <= COORD_LIMIT,
                -COORD_LIMIT <= min_y <= COORD_LIMIT,
                -COORD_LIMIT <= max_x <= COORD_LIMIT,
                -COORD_LIMIT <= max_y <= COORD_LIMIT,
                min_x <= max_x,
                min_y <= max_y,
            decreases n - i,
        {
            let q = vertices[i];
            proof {
                assert(in_coord_range(vertices@[i as int]));
                assert(vertices@.take(i as int + 1).drop_last() =~= vertices@.take(i as int));
                assert(vertices@.take(i as int + 1).last() == vertices@[i as int]);
            }
            if q.x < min_x {
                min_x = q.x;
            }
            if q.y < min_y {
                min_y = q.y;
            }
            if q.x > max_x {
                max_x = q.x;
            }
            if q.y > max_y {
                max_y = q.y;
            }
            i = i + 1;
        }
        proof {
            assert(vertices@.take(n as int) =~= vertices@);
        }

        // The super-triangle: three synthetic vertices placed far outside
        // the bounding box, so that every input point lies strictly inside
        // the triangle they form.
        let dx = max_x - min_x;
        let dy = max_y - min_y;
        let delta = if dx < dy { dy } else { dx };
        let sa = Vector2 { x: min_x - 20 * delta, y: min_y - delta };
        let sb = Vector2 { x: max_x + 20 * delta, y: min_y - delta };
        let sc = Vector2 { x: min_x, y: max_y + 20 * delta };
        proof {
            assert(0 <= spec_delta(vertices@) <= 2 * COORD_LIMIT);
            assert(sa == spec_super_a(vertices@));
            assert(sb == spec_super_b(vertices@));
            assert(sc == spec_super_c(vertices@));
        }
        vs.push(sa);
        vs.push(sb);
        vs.push(sc);
        proof {
            assert(vs@ == spec_with_super(vertices@));
            assert forall|k: int| 0 <= k < vs@.len() implies in_vertex_range(
                #[trigger] vs@[k],
            ) by {
                if k < n {
                    assert(vs@[k] == vertices@[k]);
                    assert(in_coord_range(vertices@[k]));
                }
            }
            assert(all_in_vertex_range(vs@));
        }

        // Bootstrap: one triangle over the three super-triangle vertices.
        let vs_len = vs.len();
        let mut triangles: Vec<Triangle> = Vec::new();
        let t0 = Triangle::new(vs_len - 3, vs_len - 2, vs_len - 1, &vs);
        triangles.push(t0);
        proof {
            assert(vs_len == n + 3);
            assert(triangles@ =~= spec_insert_prefix(vs@, n as int, 0));
            assert(spec_tri_range_ok(t0, 0, n as int));
            lemma_make_triangle_not_clockwise(
                (vs_len - 3) as usize,
                (vs_len - 2) as usize,
                (vs_len - 1) as usize,
                vs@,
            );
        }

        // Incremental insertion of the input vertices, in the given order.
        let mut p: usize = 0;
        while p < n
            invariant
                p <= n,
                3 <= n,
                n == vertices@.len(),
                vs@ == spec_with_super(vertices@),
                vs@.len() == n + 3,
                all_in_vertex_range(vs@),
                triangles@ == spec_insert_prefix(vs@, n as int, p as int),
                spec_tris_range_ok(triangles@, p as int, n as int),
                spec_triangles_ccw(triangles@, vs@),
            decreases n - p,
        {
            let ghost tris_before = triangles@;

            // Cavity scan: split the triangles into those whose circumcircle
            // contains p (their edges enter the cavity polygon) and the rest.
            let mut kept: Vec<Triangle> = Vec::new();
            let mut polygon: Vec<Edge> = Vec::new();
            let tris_len = triangles.len();
            let mut i: usize = 0;
            while i < tris_len
                invariant
                    i <= tris_len,
                    tris_len == triangles@.len(),
                    triangles@ == tris_before,
                    p < n,
                    vs@.len() == n + 3,
                    all_in_vertex_range(vs@),
                    spec_tris_range_ok(triangles@, p as int, n as int),
                    kept@ == spec_kept_triangles(triangles@.take(i as int), vs@, p),
                    polygon@ == spec_cavity_edges(triangles@.take(i as int), vs@, p),
                    spec_tris_range_ok(kept@, p as int, n as int),
                    spec_edges_range_ok(polygon@, p as int, n as int),
                    spec_triangles_ccw(triangles@, vs@),
                    spec_triangles_ccw(kept@, vs@),
                decreases tris_len - i,
            {
                let t = triangles[i];
                proof {
                    assert(spec_tri_range_ok(triangles@[i as int], p as int, n as int));
                    assert(triangles@.take(i as int + 1).drop_last() =~= triangles@.take(i as int));
                    assert(triangles@.take(i as int + 1).last() == triangles@[i as int]);
                }
                if t.circum_circle_contains(p, &vs) {
                    polygon.push(Edge::new(t.a, t.b));
                    polygon.push(Edge::new(t.b, t.c));
                    polygon.push(Edge::new(t.c, t.a));
                    proof {
                        assert(spec_edge_range_ok(Edge { v: t.a, w: t.b }, p as int, n as int));
                        assert(spec_edge_range_ok(Edge { v: t.b, w: t.c }, p as int, n as int));
                        assert(spec_edge_range_ok(Edge { v: t.c, w: t.a }, p as int, n as int));
                    }
                } else {
                    kept.push(t);
                }
                i = i + 1;
            }
            proof {
                assert(triangles@.take(tris_len as int) =~= triangles@);
            }

            // Re-triangulation: every cavity edge that occurs only once is a
            // boundary edge and is joined to p as a new triangle.
            let ghost kept_seq = kept@;
            let ghost poly_seq = polygon@;
            let poly_len = polygon.len();
            let mut next_triangles = kept;
            proof {
                assert(spec_boundary_prefix(poly_seq, 0) == Seq::<Edge>::empty());
                assert(spec_retriangulate(Seq::<Edge>::empty(), p, vs@)
                    == Seq::<Triangle>::empty());
                assert(next_triangles@ =~= kept_seq + Seq::<Triangle>::empty());
                assert forall|k: int| 0 <= k < kept_seq.len() implies spec_tri_range_ok(
                    #[trigger] kept_seq[k],
                    p as int + 1,
                    n as int,
                ) by {
                    assert(spec_tri_range_ok(kept_seq[k], p as int, n as int));
                }
            }
            let mut i: usize = 0;
            while i < poly_len
                invariant
                    i <= poly_len,
                    poly_len == polygon@.len(),
                    polygon@ == poly_seq,
                    p < n,
                    vs@.len() == n + 3,
                    all_in_vertex_range(vs@),
                    spec_edges_range_ok(polygon@, p as int, n as int),
                    next_triangles@ == kept_seq + spec_retriangulate(
                        spec_boundary_prefix(polygon@, i as int),
                        p,
                        vs@,
                    ),
                    spec_tris_range_ok(next_triangles@, p as int + 1, n as int),
                    spec_triangles_ccw(next_triangles@, vs@),
                decreases poly_len - i,
            {
                let e = polygon[i];
                let mut shared = false;
                let mut j: usize = 0;
                while j < poly_len
                    invariant
                        j <= poly_len,
                        i < poly_len,
                        poly_len == polygon@.len(),
                        polygon@ == poly_seq,
                        e == polygon@[i as int],
                        shared ==> spec_edge_shared(polygon@, i as int),
                        !shared ==> forall|j2: int|
                            0 <= j2 < j && j2 != i ==> !spec_same_undirected_edge(
                                polygon@[i as int],
                                #[trigger] polygon@[j2],
                            ),
                    decreases poly_len - j,
                {
                    if j != i {
                        if is_same_undirected_edge(&e, &polygon[j]) {
                            shared = true;
                        }
                    }
                    j = j + 1;
                }
                proof {
                    if !shared {
                        assert(!spec_edge_shared(polygon@, i as int));
                    }
                    assert(shared == spec_edge_shared(polygon@, i as int));
                }
                if !shared {
                    let t = Triangle::new(e.v, e.w, p, &vs);
                    proof {
                        assert(spec_edge_range_ok(polygon@[i as int], p as int, n as int));
                        assert(spec_tri_range_ok(
                            spec_make_triangle(e.v, e.w, p, vs@),
                            p as int + 1,
                            n as int,
                        ));
                        lemma_make_triangle_not_clockwise(e.v, e.w, p, vs@);
                    }
                    next_triangles.push(t);
                }
                proof {
                    let bp = spec_boundary_prefix(polygon@, i as int);
                    let bp1 = spec_boundary_prefix(polygon@, i as int + 1);
                    if spec_edge_shared(polygon@, i as int) {
                        assert(bp1 == bp);
                    } else {
                        assert(bp1 == bp.push(polygon@[i as int]));
                        assert(bp1.drop_last() =~= bp);
                        assert(bp1.last() == polygon@[i as int]);
                        assert(spec_retriangulate(bp1, p, vs@) == spec_retriangulate(
                            bp,
                            p,
                            vs@,
                        ).push(spec_make_triangle(e.v, e.w, p, vs@)));
                        assert(next_triangles@ =~= kept_seq + spec_retriangulate(bp1, p, vs@));
                    }
                }
                i = i + 1;
            }
            triangles = next_triangles;
            proof {
                assert(triangles@ == spec_insert_vertex(tris_before, vs@, p));
                assert(triangles@ == spec_insert_prefix(vs@, n as int, p as int + 1));
            }
            p = p + 1;
        }

        // Strip every triangle that references a super-triangle vertex.
        let vs_len = vs.len();
        let mut interior: Vec<Triangle> = Vec::new();
        let tris_len = triangles.len();
        let mut i: usize = 0;
        while i < tris_len
            invariant
                i <= tris_len,
                tris_len == triangles@.len(),
                3 <= n,
                n == vertices@.len(),
                vs_len == n + 3,
                triangles@ == spec_insert_prefix(spec_with_super(vertices@), n as int, n as int),
                spec_tris_range_ok(triangles@, n as int, n as int),
                vs@ == spec_with_super(vertices@),
                spec_triangles_ccw(triangles@, vs@),
                interior@ == spec_interior_triangles(triangles@.take(i as int), n as int),
                spec_triangles_valid(interior@, n as int),
                spec_triangles_ccw(interior@, vertices@),
            decreases tris_len - i,
        {
            let t = triangles[i];
            proof {
                assert(spec_tri_range_ok(triangles@[i as int], n as int, n as int));
                assert(triangles@.take(i as int + 1).drop_last() =~= triangles@.take(i as int));
                assert(triangles@.take(i as int + 1).last() == triangles@[i as int]);
            }
            if !(t.contains_vertex(vs_len - 3) || t.contains_vertex(vs_len - 2)
                || t.contains_vertex(vs_len - 1)) {
                proof {
                    assert(!spec_touches_super(t, n as int));
                    assert(spec_tri_indices_valid(t, n as int));
                    // The triangle references input vertices only, which the
                    // working list and the input list hold identically.
                    assert(vs@[t.a as int] == vertices@[t.a as int]);
                    assert(vs@[t.b as int] == vertices@[t.b as int]);
                    assert(vs@[t.c as int] == vertices@[t.c as int]);
                    assert(spec_tri_ccw(t, vertices@));
                }
                interior.push(t);
            } else {
                proof {
                    assert(spec_touches_super(t, n as int));
                }
            }
            i = i + 1;
        }
        proof {
            assert(triangles@.take(tris_len as int) =~= triangles@);
            assert(interior@ == spec_delaunay_triangles(vertices@));
        }

        // Each surviving triangle contributes its three edges, undeduplicated.
        let mut edges: Vec<Edge> = Vec::new();
        let int_len = interior.len();
        let mut i: usize = 0;
        while i < int_len
            invariant
                i <= int_len,
                int_len == interior@.len(),
                n == vertices@.len(),
                interior@ == spec_delaunay_triangles(vertices@),
                spec_triangles_valid(interior@, n as int),
                edges@ == spec_triangle_edges(interior@.take(i as int)),
                spec_edges_valid(edges@, n as int),
            decreases int_len - i,
        {
            let t = interior[i];
            proof {
                assert(spec_tri_indices_valid(interior@[i as int], n as int));
                assert(interior@.take(i as int + 1).drop_last() =~= interior@.take(i as int));
                assert(interior@.take(i as int + 1).last() == interior@[i as int]);
            }
            edges.push(Edge::new(t.a, t.b));
            edges.push(Edge::new(t.b, t.c));
            edges.push(Edge::new(t.c, t.a));
            i = i + 1;
        }
        proof {
            assert(interior@.take(int_len as int) =~= interior@);
            assert(edges@ == spec_delaunay_edges(vertices@));
        }

        // Restore the vertex list to exactly the caller's input.
        vs.pop();
        vs.pop();
        vs.pop();
        proof {
            assert(vs@ =~= vertices@);
        }
        Ok(Delaunay { triangles: interior, edges: edges, vertices: vs })
    }
}

} // verus!
