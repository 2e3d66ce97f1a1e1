//! Exact geometric predicates: orientation, circumcircle containment,
//! collinearity, and the arithmetic bounds that keep their evaluation free of
//! overflow.

use vstd::prelude::*;
use crate::vector2::Vector2;

verus! {

/// Largest coordinate magnitude accepted for an input point.
///
/// The bound guarantees that every intermediate product of the exact
/// circumcircle determinant, evaluated over the input points and the three
/// synthetic super-triangle vertices, fits comfortably in `i128`.
pub const COORD_LIMIT: i64 = 1_000_000;

/// Largest coordinate magnitude that can occur in the working vertex list:
/// input points plus the three super-triangle vertices, which sit at most
/// twenty bounding-box spans outside the bounding box and so stay within
/// 43 times the input coordinate bound.
pub const VERTEX_LIMIT: i64 = 45_000_000;

/// The point lies within the input coordinate bound.
pub open spec fn in_coord_range(p: Vector2) -> bool {
    -COORD_LIMIT <= p.x <= COORD_LIMIT && -COORD_LIMIT <= p.y <= COORD_LIMIT
}

/// The point lies within the working-vertex coordinate bound.
pub open spec fn in_vertex_range(p: Vector2) -> bool {
    -VERTEX_LIMIT <= p.x <= VERTEX_LIMIT && -VERTEX_LIMIT <= p.y <= VERTEX_LIMIT
}

/// Every point of the sequence lies within the input coordinate bound.
pub open spec fn all_in_coord_range(ps: Seq<Vector2>) -> bool {
    forall|i: int| 0 <= i < ps.len() ==> in_coord_range(#[trigger] ps[i])
}

/// Every point of the sequence lies within the working-vertex bound.
pub open spec fn all_in_vertex_range(ps: Seq<Vector2>) -> bool {
    forall|i: int| 0 <= i < ps.len() ==> in_vertex_range(#[trigger] ps[i])
}

/// Squared Euclidean distance between two points.
pub open spec fn spec_dist2(a: Vector2, b: Vector2) -> int {
    (a.x - b.x) * (a.x - b.x) + (a.y - b.y) * (a.y - b.y)
}

/// Squared Euclidean norm of a point seen as a vector from the origin.
pub open spec fn spec_norm2(a: Vector2) -> int {
    a.x * a.x + a.y * a.y
}

/// Twice the signed area of the triangle (a, b, c): positive when (a, b, c)
/// runs counter-clockwise, negative when clockwise, zero when collinear.
pub open spec fn spec_orient(a: Vector2, b: Vector2, c: Vector2) -> int {
    (b.x - a.x) * (c.y - a.y) - (b.y - a.y) * (c.x - a.x)
}

/// The exact circumcircle determinant.
///
/// For a counter-clockwise triangle (a, b, c) this value is positive exactly
/// when v lies strictly inside the circumcircle of (a, b, c), zero exactly
/// when v lies on the circumcircle, and negative outside: it decides the
/// comparison "squared distance from v to the circumcenter at most the
/// squared circumradius" without ever forming the circumcenter quotients, so
/// collinear triangles cannot raise a division by zero here.
pub open spec fn spec_incircle(a: Vector2, b: Vector2, c: Vector2, v: Vector2) -> int {
    let axv = a.x - v.x;
    let ayv = a.y - v.y;
    let bxv = b.x - v.x;
    let byv = b.y - v.y;
    let cxv = c.x - v.x;
    let cyv = c.y - v.y;
    let a2 = axv * axv + ayv * ayv;
    let b2 = bxv * bxv + byv * byv;
    let c2 = cxv * cxv + cyv * cyv;
    axv * (byv * c2 - b2 * cyv) - ayv * (bxv * c2 - b2 * cxv) + a2 * (bxv * cyv - byv * cxv)
}

/// Substituting each vertex for the query point annihilates the
/// circumcircle determinant.
proof fn lemma_incircle_vertex_query(ax: int, ay: int, bx: int, by: int, cx: int, cy: int)
    by (nonlinear_arith)
    ensures
        (ax - ax) * ((by - ay) * ((cx - ax) * (cx - ax) + (cy - ay) * (cy - ay)) - ((bx - ax) * (bx - ax) + (by - ay) * (by - ay)) * (cy - ay)) - (ay - ay) * ((bx - ax) * ((cx - ax) * (cx - ax) + (cy - ay) * (cy - ay)) - ((bx - ax) * (bx - ax) + (by - ay) * (by - ay)) * (cx - ax)) + ((ax - ax) * (ax - ax) + (ay - ay) * (ay - ay)) * ((bx - ax) * (cy - ay) - (by - ay) * (cx - ax)) == 0,
        (ax - bx) * ((by - by) * ((cx - bx) * (cx - bx) + (cy - by) * (cy - by)) - ((bx - bx) * (bx - bx) + (by - by) * (by - by)) * (cy - by)) - (ay - by) * ((bx - bx) * ((cx - bx) * (cx - bx) + (cy - by) * (cy - by)) - ((bx - bx) * (bx - bx) + (by - by) * (by - by)) * (cx - bx)) + ((ax - bx) * (ax - bx) + (ay - by) * (ay - by)) * ((bx - bx) * (cy - by) - (by - by) * (cx - bx)) == 0,
        (ax - cx) * ((by - cy) * ((cx - cx) * (cx - cx) + (cy - cy) * (cy - cy)) - ((bx - cx) * (bx - cx) + (by - cy) * (by - cy)) * (cy - cy)) - (ay - cy) * ((bx - cx) * ((cx - cx) * (cx - cx) + (cy - cy) * (cy - cy)) - ((bx - cx) * (bx - cx) + (by - cy) * (by - cy)) * (cx - cx)) + ((ax - cx) * (ax - cx) + (ay - cy) * (ay - cy)) * ((bx - cx) * (cy - cy) - (by - cy) * (cx - cx)) == 0,
{
}

/// Each vertex of a triangle lies exactly on the triangle's own
/// circumcircle: the circumcircle determinant vanishes when the query point
/// is one of the three vertices.
pub proof fn lemma_vertices_on_own_circumcircle(a: Vector2, b: Vector2, c: Vector2)
    ensures
        spec_incircle(a, b, c, a) == 0,
        spec_incircle(a, b, c, b) == 0,
        spec_incircle(a, b, c, c) == 0,
{
    lemma_incircle_vertex_query(a.x as int, a.y as int, b.x as int, b.y as int, c.x as int, c.y as int);
}

/// Swapping any two vertices of a triangle negates its orientation.
pub proof fn lemma_orient_swap(a: Vector2, b: Vector2, c: Vector2)
    ensures
        spec_orient(b, a, c) == -spec_orient(a, b, c),
        spec_orient(a, c, b) == -spec_orient(a, b, c),
        spec_orient(c, b, a) == -spec_orient(a, b, c),
{
    assert((a.x - b.x) * (c.y - b.y) - (a.y - b.y) * (c.x - b.x) == -((b.x - a.x) * (c.y - a.y) - (
    b.y - a.y) * (c.x - a.x))) by (nonlinear_arith);
    assert((c.x - a.x) * (b.y - a.y) - (c.y - a.y) * (b.x - a.x) == -((b.x - a.x) * (c.y - a.y) - (
    b.y - a.y) * (c.x - a.x))) by (nonlinear_arith);
    assert((b.x - c.x) * (a.y - c.y) - (b.y - c.y) * (a.x - c.x) == -((b.x - a.x) * (c.y - a.y) - (
    b.y - a.y) * (c.x - a.x))) by (nonlinear_arith);
}

/// Distribution of a product over a difference, for opaque factors.
proof fn lemma_mul_sub(x: int, u: int, w: int)
    by (nonlinear_arith)
    ensures
        x * (u - w) == x * u - x * w,
{
}

/// The three rearrangements of a triple product used below.
proof fn lemma_mul_rearrange(x: int, y: int, z: int)
    by (nonlinear_arith)
    ensures
        x * (y * z) == y * (x * z),
        x * (y * z) == x * (z * y),
        x * (y * z) == z * (y * x),
{
}

/// The circumcircle determinant is an alternating function of the three
/// vertex rows: swapping any two rows negates it.  Stated over opaque
/// coordinates and squared norms; each product is expanded and the
/// monomials matched pairwise.
proof fn lemma_det_alternating(
    axv: int, ayv: int, bxv: int, byv: int, cxv: int, cyv: int,
    a2: int, b2: int, c2: int,
)
    ensures
        bxv * (ayv * c2 - a2 * cyv) - byv * (axv * c2 - a2 * cxv) + b2 * (axv * cyv - ayv * cxv)
            == -(axv * (byv * c2 - b2 * cyv) - ayv * (bxv * c2 - b2 * cxv) + a2 * (bxv * cyv - byv
            * cxv)),
        axv * (cyv * b2 - c2 * byv) - ayv * (cxv * b2 - c2 * bxv) + a2 * (cxv * byv - cyv * bxv)
            == -(axv * (byv * c2 - b2 * cyv) - ayv * (bxv * c2 - b2 * cxv) + a2 * (bxv * cyv - byv
            * cxv)),
        cxv * (byv * a2 - b2 * ayv) - cyv * (bxv * a2 - b2 * axv) + c2 * (bxv * ayv - byv * axv)
            == -(axv * (byv * c2 - b2 * cyv) - ayv * (bxv * c2 - b2 * cxv) + a2 * (bxv * cyv - byv
            * cxv)),
{
    lemma_mul_sub(axv, byv * c2, b2 * cyv);
    lemma_mul_sub(ayv, bxv * c2, b2 * cxv);
    lemma_mul_sub(a2, bxv * cyv, byv * cxv);
    lemma_mul_sub(bxv, ayv * c2, a2 * cyv);
    lemma_mul_sub(byv, axv * c2, a2 * cxv);
    lemma_mul_sub(b2, axv * cyv, ayv * cxv);
    lemma_mul_sub(axv, cyv * b2, c2 * byv);
    lemma_mul_sub(ayv, cxv * b2, c2 * bxv);
    lemma_mul_sub(a2, cxv * byv, cyv * bxv);
    lemma_mul_sub(cxv, byv * a2, b2 * ayv);
    lemma_mul_sub(cyv, bxv * a2, b2 * axv);
    lemma_mul_sub(c2, bxv * ayv, byv * axv);
    lemma_mul_rearrange(bxv, ayv, c2);
    lemma_mul_rearrange(bxv, a2, cyv);
    lemma_mul_rearrange(byv, axv, c2);
    lemma_mul_rearrange(byv, a2, cxv);
    lemma_mul_rearrange(b2, axv, cyv);
    lemma_mul_rearrange(b2, ayv, cxv);
    lemma_mul_rearrange(axv, cyv, b2);
    lemma_mul_rearrange(axv, c2, byv);
    lemma_mul_rearrange(ayv, cxv, b2);
    lemma_mul_rearrange(ayv, c2, bxv);
    lemma_mul_rearrange(a2, cxv, byv);
    lemma_mul_rearrange(a2, cyv, bxv);
    lemma_mul_rearrange(cxv, byv, a2);
    lemma_mul_rearrange(cxv, b2, ayv);
    lemma_mul_rearrange(cyv, bxv, a2);
    lemma_mul_rearrange(cyv, b2, axv);
    lemma_mul_rearrange(c2, bxv, ayv);
    lemma_mul_rearrange(c2, byv, axv);
}

/// Swapping any two vertices of a triangle negates its circumcircle
/// determinant.
pub proof fn lemma_incircle_swap(a: Vector2, b: Vector2, c: Vector2, v: Vector2)
    ensures
        spec_incircle(b, a, c, v) == -spec_incircle(a, b, c, v),
        spec_incircle(a, c, b, v) == -spec_incircle(a, b, c, v),
        spec_incircle(c, b, a, v) == -spec_incircle(a, b, c, v),
{
    let axv = a.x - v.x;
    let ayv = a.y - v.y;
    let bxv = b.x - v.x;
    let byv = b.y - v.y;
    let cxv = c.x - v.x;
    let cyv = c.y - v.y;
    let a2 = axv * axv + ayv * ayv;
    let b2 = bxv * bxv + byv * byv;
    let c2 = cxv * cxv + cyv * cyv;
    lemma_det_alternating(axv, ayv, bxv, byv, cxv, cyv, a2, b2, c2);
}

/// Product bound: factors bounded in magnitude give a bounded product.
pub proof fn lemma_abs_mul_bound(x: int, y: int, m: int, n: int)
    by (nonlinear_arith)
    requires
        -m <= x <= m,
        -n <= y <= n,
    ensures
        -(m * n) <= x * y <= m * n,
{
}

/// Twice the signed area of the triangle (a, b, c), evaluated exactly.
pub fn orient(a: Vector2, b: Vector2, c: Vector2) -> (r: i128)
    requires
        in_vertex_range(a),
        in_vertex_range(b),
        in_vertex_range(c),
    ensures
        r == spec_orient(a, b, c),
{
    let bax = b.x as i128 - a.x as i128;
    let bay = b.y as i128 - a.y as i128;
    let cax = c.x as i128 - a.x as i128;
    let cay = c.y as i128 - a.y as i128;
    proof {
        lemma_abs_mul_bound(bax as int, cay as int, 100_000_000, 100_000_000);
        lemma_abs_mul_bound(bay as int, cax as int, 100_000_000, 100_000_000);
    }
    bax * cay - bay * cax
}

/// The circumcircle determinant of (a, b, c) at v, evaluated exactly.
pub fn incircle(a: Vector2, b: Vector2, c: Vector2, v: Vector2) -> (r: i128)
    requires
        in_vertex_range(a),
        in_vertex_range(b),
        in_vertex_range(c),
        in_vertex_range(v),
    ensures
        r == spec_incircle(a, b, c, v),
{
    let axv = a.x as i128 - v.x as i128;
    let ayv = a.y as i128 - v.y as i128;
    let bxv = b.x as i128 - v.x as i128;
    let byv = b.y as i128 - v.y as i128;
    let cxv = c.x as i128 - v.x as i128;
    let cyv = c.y as i128 - v.y as i128;
    proof {
        lemma_abs_mul_bound(axv as int, axv as int, 100_000_000, 100_000_000);
        lemma_abs_mul_bound(ayv as int, ayv as int, 100_000_000, 100_000_000);
        lemma_abs_mul_bound(bxv as int, bxv as int, 100_000_000, 100_000_000);
        lemma_abs_mul_bound(byv as int, byv as int, 100_000_000, 100_000_000);
        lemma_abs_mul_bound(cxv as int, cxv as int, 100_000_000, 100_000_000);
        lemma_abs_mul_bound(cyv as int, cyv as int, 100_000_000, 100_000_000);
    }
    let a2 = axv * axv + ayv * ayv;
    let b2 = bxv * bxv + byv * byv;
    let c2 = cxv * cxv + cyv * cyv;
    proof {
        lemma_abs_mul_bound(byv as int, c2 as int, 100_000_000, 20_000_000_000_000_000);
        lemma_abs_mul_bound(b2 as int, cyv as int, 20_000_000_000_000_000, 100_000_000);
        lemma_abs_mul_bound(bxv as int, c2 as int, 100_000_000, 20_000_000_000_000_000);
        lemma_abs_mul_bound(b2 as int, cxv as int, 20_000_000_000_000_000, 100_000_000);
        lemma_abs_mul_bound(bxv as int, cyv as int, 100_000_000, 100_000_000);
        lemma_abs_mul_bound(byv as int, cxv as int, 100_000_000, 100_000_000);
    }
    let t1 = byv * c2 - b2 * cyv;
    let t2 = bxv * c2 - b2 * cxv;
    let t3 = bxv * cyv - byv * cxv;
    proof {
        lemma_abs_mul_bound(axv as int, t1 as int, 100_000_000, 4_000_000_000_000_000_000_000_000);
        lemma_abs_mul_bound(ayv as int, t2 as int, 100_000_000, 4_000_000_000_000_000_000_000_000);
        lemma_abs_mul_bound(a2 as int, t3 as int, 20_000_000_000_000_000, 20_000_000_000_000_000);
    }
    axv * t1 - ayv * t2 + a2 * t3
}

/// All triples drawn from the sequence are collinear.
pub open spec fn all_collinear(ps: Seq<Vector2>) -> bool {
    forall|i: int, j: int, k: int|
        0 <= i < ps.len() && 0 <= j < ps.len() && 0 <= k < ps.len()
            ==> #[trigger] spec_orient(ps[i], ps[j], ps[k]) == 0
}

/// Coordinate form of `lemma_three_on_line`: three points on the line through
/// the distinct points (ax, ay) and (bx, by) are collinear with each other.
proof fn lemma_collinear_coords(
    ax: int, ay: int, bx: int, by: int,
    px: int, py: int, qx: int, qy: int, rx: int, ry: int,
)
    requires
        (bx - ax) * (py - ay) - (by - ay) * (px - ax) == 0,
        (bx - ax) * (qy - ay) - (by - ay) * (qx - ax) == 0,
        (bx - ax) * (ry - ay) - (by - ay) * (rx - ax) == 0,
        !(ax == bx && ay == by),
    ensures
        (qx - px) * (ry - py) - (qy - py) * (rx - px) == 0,
{
    let ux = bx - ax;
    let uy = by - ay;
    // The direction from p to q, and from p to r, is parallel to u = b - a.
    assert(ux * (qy - py) - uy * (qx - px)
        == ((bx - ax) * (qy - ay) - (by - ay) * (qx - ax))
            - ((bx - ax) * (py - ay) - (by - ay) * (px - ax))) by (nonlinear_arith)
        requires
            ux == bx - ax,
            uy == by - ay,
    ;
    assert(ux * (ry - py) - uy * (rx - px)
        == ((bx - ax) * (ry - ay) - (by - ay) * (rx - ax))
            - ((bx - ax) * (py - ay) - (by - ay) * (px - ax))) by (nonlinear_arith)
        requires
            ux == bx - ax,
            uy == by - ay,
    ;
    let e1 = ux * (qy - py) - uy * (qx - px);
    let e2 = ux * (ry - py) - uy * (rx - px);
    assert(e1 == 0);
    assert(e2 == 0);
    // Two vectors parallel to the nonzero u are parallel to each other.
    let x = (qx - px) * (ry - py) - (qy - py) * (rx - px);
    assert(ux * x == (qx - px) * e2 - (rx - px) * e1) by (nonlinear_arith)
        requires
            x == (qx - px) * (ry - py) - (qy - py) * (rx - px),
            e1 == ux * (qy - py) - uy * (qx - px),
            e2 == ux * (ry - py) - uy * (rx - px),
    ;
    assert(uy * x == (qy - py) * e2 - (ry - py) * e1) by (nonlinear_arith)
        requires
            x == (qx - px) * (ry - py) - (qy - py) * (rx - px),
            e1 == ux * (qy - py) - uy * (qx - px),
            e2 == ux * (ry - py) - uy * (rx - px),
    ;
    if ux != 0 {
        assert(x == 0) by (nonlinear_arith)
            requires
                ux * x == 0,
                ux != 0,
        ;
    } else {
        assert(uy != 0);
        assert(x == 0) by (nonlinear_arith)
            requires
                uy * x == 0,
                uy != 0,
        ;
    }
}

/// Three points each collinear with a line through two distinct points a and
/// b are collinear with each other.
proof fn lemma_three_on_line(a: Vector2, b: Vector2, p: Vector2, q: Vector2, r: Vector2)
    requires
        spec_orient(a, b, p) == 0,
        spec_orient(a, b, q) == 0,
        spec_orient(a, b, r) == 0,
        !(a.x == b.x && a.y == b.y),
    ensures
        spec_orient(p, q, r) == 0,
{
    lemma_collinear_coords(
        a.x as int, a.y as int, b.x as int, b.y as int,
        p.x as int, p.y as int, q.x as int, q.y as int, r.x as int, r.y as int,
    );
}

/// Decides whether every point of the list lies within the input coordinate
/// bound.
pub fn coords_in_range(vertices: &Vec<Vector2>) -> (r: bool)
    ensures
        r == all_in_coord_range(vertices@),
{
    let n = vertices.len();
    let mut i: usize = 0;
    while i < n
        invariant
            i <= n,
            n == vertices@.len(),
            forall|k: int| 0 <= k < i ==> in_coord_range(#[trigger] vertices@[k]),
        decreases n - i,
    {
        let p = vertices[i];
        if p.x < -COORD_LIMIT || p.x > COORD_LIMIT || p.y < -COORD_LIMIT || p.y > COORD_LIMIT {
            assert(!in_coord_range(vertices@[i as int]));
            return false;
        }
        i = i + 1;
    }
    true
}

/// Decides whether every triple of input points is collinear, by fixing the
/// line through the first point and the first point distinct from it.
pub fn all_points_collinear(vertices: &Vec<Vector2>) -> (r: bool)
    requires
        vertices@.len() >= 1,
        all_in_coord_range(vertices@),
    ensures
        r == all_collinear(vertices@),
{
    let ps = vertices;
    let n = ps.len();
    let first = ps[0];
    let mut d: usize = 0;
    let mut i: usize = 1;
    while i < n && d == 0
        invariant
            1 <= i <= n,
            n == ps@.len(),
            first == ps@[0],
            d == 0 ==> forall|k: int| 0 <= k < i ==> ps@[k] == first,
            d != 0 ==> d < i && ps@[d as int] != first,
        decreases n - i,
    {
        if ps[i] != first {
            d = i;
        }
        i = i + 1;
    }
    if d == 0 {
        // Every point equals the first point, so every triple is degenerate.
        assert forall|i2: int, j2: int, k2: int|
            0 <= i2 < ps@.len() && 0 <= j2 < ps@.len() && 0 <= k2 < ps@.len()
                implies #[trigger] spec_orient(ps@[i2], ps@[j2], ps@[k2]) == 0 by {
            assert(ps@[i2] == first);
            assert(ps@[j2] == first);
        }
        return true;
    }
    let base = ps[d];
    let mut ok = true;
    let mut j: usize = 0;
    while j < n && ok
        invariant
            0 <= j <= n,
            n == ps@.len(),
            0 < d < n,
            first == ps@[0],
            base == ps@[d as int],
            all_in_coord_range(ps@),
            ok ==> forall|k: int| 0 <= k < j ==> spec_orient(first, base, #[trigger] ps@[k]) == 0,
            !ok ==> !all_collinear(ps@),
        decreases n - j,
    {
        let o = orient(first, base, ps[j]);
        if o != 0 {
            proof {
                assert(!all_collinear(ps@)) by {
                    assert(spec_orient(ps@[0], ps@[d as int], ps@[j as int]) != 0);
                }
            }
            ok = false;
        }
        j = j + 1;
    }
    if ok {
        proof {
            assert forall|i2: int, j2: int, k2: int|
                0 <= i2 < ps@.len() && 0 <= j2 < ps@.len() && 0 <= k2 < ps@.len()
                    implies #[trigger] spec_orient(ps@[i2], ps@[j2], ps@[k2]) == 0 by {
                lemma_three_on_line(first, base, ps@[i2], ps@[j2], ps@[k2]);
            }
        }
        true
    } else {
        false
    }
}

} // verus!
