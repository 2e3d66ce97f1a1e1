use delaunay::edge::{is_same_undirected_edge, Edge};
use delaunay::objects::ObjectConfig;
use delaunay::settings::{DefaultConfig, FieldConfig};
use delaunay::triangle::Triangle;
use delaunay::vector2::Vector2;

/// Vector construction stores the coordinates as given.
#[test]
fn vector2_new_stores_coordinates() {
    let v = Vector2::new(-7, 42);
    assert_eq!(v.x, -7);
    assert_eq!(v.y, 42);
}

/// Squared norm of (3, 4) is 25.
#[test]
fn vector2_norm2() {
    assert_eq!(Vector2::new(3, 4).norm2(), 25);
    assert_eq!(Vector2::new(0, 0).norm2(), 0);
    assert_eq!(Vector2::new(-3, -4).norm2(), 25);
}

/// Squared distance between (1, 2) and (4, 6) is 25, symmetrically.
#[test]
fn vector2_dist2() {
    let a = Vector2::new(1, 2);
    let b = Vector2::new(4, 6);
    assert_eq!(a.dist2(&b), 25);
    assert_eq!(b.dist2(&a), 25);
    assert_eq!(a.dist2(&a), 0);
}

/// Edge construction stores the endpoints as given.
#[test]
fn edge_new_stores_endpoints() {
    let e = Edge::new(3, 9);
    assert_eq!(e.v, 3);
    assert_eq!(e.w, 9);
}

/// Undirected comparison identifies an edge with its reversal and nothing
/// else.
#[test]
fn edge_undirected_comparison() {
    let e = Edge::new(1, 2);
    assert!(is_same_undirected_edge(&e, &Edge::new(1, 2)));
    assert!(is_same_undirected_edge(&e, &Edge::new(2, 1)));
    assert!(!is_same_undirected_edge(&e, &Edge::new(1, 3)));
    assert!(!is_same_undirected_edge(&e, &Edge::new(3, 2)));
    assert!(!is_same_undirected_edge(&e, &Edge::new(3, 4)));
}

/// A counter-clockwise index triple is stored as given.
#[test]
fn triangle_new_keeps_ccw_winding() {
    let vs = vec![Vector2::new(0, 0), Vector2::new(1, 0), Vector2::new(0, 1)];
    let t = Triangle::new(0, 1, 2, &vs);
    assert_eq!((t.a, t.b, t.c), (0, 1, 2));
}

/// A clockwise index triple has its first two indices swapped.
#[test]
fn triangle_new_flips_cw_winding() {
    let vs = vec![Vector2::new(0, 0), Vector2::new(1, 0), Vector2::new(0, 1)];
    let t = Triangle::new(0, 2, 1, &vs);
    assert_eq!((t.a, t.b, t.c), (2, 0, 1));
}

/// Vertex containment checks the three indices only.
#[test]
fn triangle_contains_vertex() {
    let t = Triangle { a: 1, b: 5, c: 9 };
    assert!(t.contains_vertex(1));
    assert!(t.contains_vertex(5));
    assert!(t.contains_vertex(9));
    assert!(!t.contains_vertex(0));
    assert!(!t.contains_vertex(6));
}

/// Set comparison of triangles ignores the order of the indices.
#[test]
fn triangle_set_comparison() {
    let t = Triangle { a: 1, b: 2, c: 3 };
    assert!(t.is_same_triangle(&Triangle { a: 3, b: 1, c: 2 }));
    assert!(t.is_same_triangle(&Triangle { a: 2, b: 3, c: 1 }));
    assert!(t.is_same_triangle(&Triangle { a: 1, b: 2, c: 3 }));
    assert!(!t.is_same_triangle(&Triangle { a: 1, b: 2, c: 4 }));
    assert!(!t.is_same_triangle(&Triangle { a: 4, b: 5, c: 6 }));
}

/// The circumcircle test of the right triangle (0,0), (2,0), (0,2): its
/// circumcircle is centred at (1,1) with squared radius 2.  (1,1) lies
/// inside, (2,2) exactly on the circle (closed containment), (3,3) outside.
#[test]
fn triangle_circumcircle_containment() {
    let vs = vec![
        Vector2::new(0, 0),
        Vector2::new(2, 0),
        Vector2::new(0, 2),
        Vector2::new(1, 1),
        Vector2::new(2, 2),
        Vector2::new(3, 3),
    ];
    let t = Triangle::new(0, 1, 2, &vs);
    assert!(t.circum_circle_contains(3, &vs));
    assert!(t.circum_circle_contains(4, &vs));
    assert!(!t.circum_circle_contains(5, &vs));
    assert!(t.circum_circle_contains(0, &vs));
}

/// Circumcircle containment is a property of the vertex set: a clockwise
/// index triple answers exactly as its counter-clockwise reorderings, both
/// for a far-outside query point and for an interior one.  The circumcircle
/// of (0,0), (2,0), (1,2) is centred at (1, 3/4) with squared radius 25/16.
#[test]
fn circumcircle_containment_order_independent() {
    let vs = vec![
        Vector2::new(0, 0),
        Vector2::new(2, 0),
        Vector2::new(1, 2),
        Vector2::new(100, 100),
        Vector2::new(1, 1),
    ];
    let ccw = Triangle { a: 0, b: 1, c: 2 };
    let cw_ab = Triangle { a: 1, b: 0, c: 2 };
    let cw_bc = Triangle { a: 0, b: 2, c: 1 };
    let cw_ac = Triangle { a: 2, b: 1, c: 0 };
    for t in [ccw, cw_ab, cw_bc, cw_ac] {
        assert!(!t.circum_circle_contains(3, &vs));
        assert!(t.circum_circle_contains(4, &vs));
        assert!(t.circum_circle_contains(0, &vs));
    }
}

/// Field configurations default to nothing set.
#[test]
fn field_config_defaults_empty() {
    let c: FieldConfig<i64> = FieldConfig::default();
    assert!(c.value.is_none());
    assert!(c.min.is_none());
    assert!(c.max.is_none());
    assert!(c.inc.is_none());
    let d: DefaultConfig<bool> = DefaultConfig::default();
    assert!(d.value.is_none());
}

/// The mesh-construction selector distinguishes its two modes.
#[test]
fn object_config_modes_distinct() {
    assert_ne!(ObjectConfig::Simple, ObjectConfig::Mean);
    let copy = ObjectConfig::Mean;
    assert_eq!(copy, ObjectConfig::Mean);
}
