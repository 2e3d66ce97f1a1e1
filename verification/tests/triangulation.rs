use delaunay::delaunay::{Delaunay, DelaunayError};
use delaunay::vector2::Vector2;

fn pts(cs: &[(i64, i64)]) -> Vec<Vector2> {
    cs.iter().map(|&(x, y)| Vector2::new(x, y)).collect()
}

/// Four points forming the unit square yield exactly two triangles covering
/// the square: total doubled area 2, every index one of the four corners.
#[test]
fn square_yields_two_triangles() {
    let vs = pts(&[(0, 0), (1, 0), (1, 1), (0, 1)]);
    let d = Delaunay::triangulate(&vs).unwrap();
    assert_eq!(d.triangles().len(), 2);
    assert_eq!(d.edges().len(), 6);
    for t in d.triangles() {
        assert!(t.a < 4 && t.b < 4 && t.c < 4);
        assert!(t.a != t.b && t.b != t.c && t.a != t.c);
    }
    assert_eq!(d.doubled_area(), 2);
}

/// Three collinear points are rejected as a degenerate configuration
/// instead of producing nonsense triangles.
#[test]
fn collinear_points_rejected() {
    let vs = pts(&[(0, 0), (1, 0), (2, 0)]);
    assert_eq!(
        Delaunay::triangulate(&vs).unwrap_err(),
        DelaunayError::DegenerateConfiguration
    );
}

/// Many points on one line, in scrambled order, are still rejected.
#[test]
fn collinear_scrambled_rejected() {
    let vs = pts(&[(4, 9), (-2, -3), (0, 1), (2, 5), (-4, -7)]);
    assert_eq!(
        Delaunay::triangulate(&vs).unwrap_err(),
        DelaunayError::DegenerateConfiguration
    );
}

/// Coincident points count as collinear: no triangle can be formed.
#[test]
fn coincident_points_rejected() {
    let vs = pts(&[(5, 5), (5, 5), (5, 5), (5, 5)]);
    assert_eq!(
        Delaunay::triangulate(&vs).unwrap_err(),
        DelaunayError::DegenerateConfiguration
    );
}

/// Fewer than three points are rejected.
#[test]
fn insufficient_input_rejected() {
    assert_eq!(
        Delaunay::triangulate(&pts(&[])).unwrap_err(),
        DelaunayError::InsufficientInput
    );
    assert_eq!(
        Delaunay::triangulate(&pts(&[(0, 0)])).unwrap_err(),
        DelaunayError::InsufficientInput
    );
    assert_eq!(
        Delaunay::triangulate(&pts(&[(0, 0), (1, 1)])).unwrap_err(),
        DelaunayError::InsufficientInput
    );
}

/// A coordinate beyond the documented bound is rejected.
#[test]
fn out_of_range_coordinate_rejected() {
    let vs = pts(&[(0, 0), (2_000_000, 0), (0, 1)]);
    assert_eq!(
        Delaunay::triangulate(&vs).unwrap_err(),
        DelaunayError::CoordinateOutOfRange
    );
    let vs = pts(&[(0, 0), (1, 0), (0, -1_000_001)]);
    assert_eq!(
        Delaunay::triangulate(&vs).unwrap_err(),
        DelaunayError::CoordinateOutOfRange
    );
}

/// Points at the bound itself are accepted.
#[test]
fn extreme_in_range_coordinates_accepted() {
    let vs = pts(&[
        (-1_000_000, -1_000_000),
        (1_000_000, -999_999),
        (0, 1_000_000),
    ]);
    let d = Delaunay::triangulate(&vs).unwrap();
    assert_eq!(d.triangles().len(), 1);
    assert!(d.empty_circumcircle_holds());
}

/// n points in convex position and general position give n - 2 triangles
/// (Euler's formula with every point on the hull).  Points on a parabola
/// with index sums never zero avoid both collinear and cocircular triples.
#[test]
fn convex_position_triangle_count() {
    let vs = pts(&[(1, 1), (2, 4), (3, 9), (4, 16), (6, 36)]);
    let d = Delaunay::triangulate(&vs).unwrap();
    assert_eq!(d.triangles().len(), 3);
    // Doubled convex-hull area by the shoelace formula.
    assert_eq!(d.doubled_area(), 38);
    assert!(d.empty_circumcircle_holds());
}

/// A 3 x 3 grid: 9 points, 8 on the hull, one interior, so Euler's count
/// gives 2 * 9 - 2 - 8 = 8 triangles covering the 2 x 2 square.
#[test]
fn grid_triangle_count_and_coverage() {
    let vs = pts(&[
        (0, 0), (1, 0), (2, 0),
        (0, 1), (1, 1), (2, 1),
        (0, 2), (1, 2), (2, 2),
    ]);
    let d = Delaunay::triangulate(&vs).unwrap();
    assert_eq!(d.triangles().len(), 8);
    assert_eq!(d.doubled_area(), 8);
    assert!(d.empty_circumcircle_holds());
}

/// The empty-circumcircle property holds on a scattered point set.
#[test]
fn empty_circumcircle_on_scattered_points() {
    let vs = pts(&[
        (-50, 3), (12, 88), (97, -14), (-3, -61), (40, 22),
        (-75, -40), (66, 70), (8, 5), (-20, 45), (55, -52),
    ]);
    let d = Delaunay::triangulate(&vs).unwrap();
    assert!(d.empty_circumcircle_holds());
    assert!(d.triangles().len() > 0);
}

/// Every triangle index and every edge index refers to a valid input
/// position, and the returned vertex list equals the input, same order.
#[test]
fn index_validity_and_vertices_preserved() {
    let coords = [(3, 1), (-4, 2), (0, -7), (5, 5), (-2, -2), (1, 9)];
    let vs = pts(&coords);
    let d = Delaunay::triangulate(&vs).unwrap();
    assert_eq!(d.vertices(), &vs);
    let n = vs.len();
    for t in d.triangles() {
        assert!(t.a < n && t.b < n && t.c < n);
        assert!(t.a != t.b && t.b != t.c && t.a != t.c);
    }
    for e in d.edges() {
        assert!(e.v < n && e.w < n);
        assert!(e.v != e.w);
    }
    // Each triangle contributes exactly its three edges, in order.
    assert_eq!(d.edges().len(), 3 * d.triangles().len());
}

/// Triangulating the same point set twice yields the same triangles, both
/// under strict equality and under order-independent triangle comparison.
#[test]
fn retriangulation_is_reproducible() {
    let vs = pts(&[(0, 0), (10, 1), (4, 8), (7, -3), (2, 3), (9, 9)]);
    let d1 = Delaunay::triangulate(&vs).unwrap();
    let d2 = Delaunay::triangulate(&vs).unwrap();
    assert_eq!(d1.triangles(), d2.triangles());
    assert_eq!(d1.edges(), d2.edges());
    assert_eq!(d1.vertices(), d2.vertices());
    for (t1, t2) in d1.triangles().iter().zip(d2.triangles().iter()) {
        assert!(t1.is_same_triangle(t2));
    }
}

/// The square's shared diagonal occurs twice in the undeduplicated edge
/// list; the four boundary edges occur once each.
#[test]
fn square_edge_multiplicities() {
    let vs = pts(&[(0, 0), (1, 0), (1, 1), (0, 1)]);
    let d = Delaunay::triangulate(&vs).unwrap();
    let es = d.edges();
    let mut twice = 0;
    let mut once = 0;
    for i in 0..es.len() {
        let mut count = 0;
        for j in 0..es.len() {
            if delaunay::edge::is_same_undirected_edge(&es[i], &es[j]) {
                count += 1;
            }
        }
        match count {
            1 => once += 1,
            2 => twice += 1,
            _ => panic!("an edge occurs {} times", count),
        }
    }
    assert_eq!(once, 4);
    assert_eq!(twice, 2);
}

/// An empty triangulation holds nothing.
#[test]
fn new_triangulation_is_empty() {
    let d = Delaunay::new();
    assert_eq!(d.vertices().len(), 0);
    assert_eq!(d.triangles().len(), 0);
    assert_eq!(d.edges().len(), 0);
}
