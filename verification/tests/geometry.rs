//! Faces, classification and the small geometric helpers.

use bsp_pathfinding::{Face, Shape, Side};
use bsp_pathfinding::geom::Scalar;
use bsp_pathfinding::tree::{NodeIndex, Portal, PortalRef};
use glam::Vec2;

#[test]
fn shape_rect() {
    let rect = Shape::rect(Vec2::new(2.0, 1.0), Vec2::new(1.0, 0.0));

    let faces = rect.faces();

    let normals = [-Vec2::Y, Vec2::X, Vec2::Y, -Vec2::X];

    assert_eq!(faces.len(), 4);
    for (face, expected) in faces.iter().zip(normals) {
        println!("Normal: {:?}", face.normal());
        assert_eq!(face.normal(), expected);
    }
}

#[test]
fn face_normal_unit() {
    // A 3-4-5 direction: the winding normal is the clockwise
    // perpendicular of the unit direction.
    let f = Face::new([Vec2::new(0.0, 0.0), Vec2::new(3.0, 4.0)]);
    let expected = Vec2::new(0.8, -0.6);
    assert!(f.normal().distance(expected) < 1e-4);
    assert!((f.normal().length() - 1.0).abs() < 1e-4);
}

#[test]
fn side_min_prefers_back() {
    assert_eq!(Side::Front.min(Side::Back), Side::Back);
    assert_eq!(Side::Back.min(Side::Front), Side::Back);
    assert_eq!(Side::Coplanar.min(Side::Front), Side::Coplanar);
    assert_eq!(Side::Intersecting.min(Side::Intersecting), Side::Intersecting);
}

#[test]
fn side_of_classifies() {
    let plane_p = Vec2::new(0.0, 0.0);
    let plane_n = Vec2::new(0.0, 1.0);

    let above = Face::new([Vec2::new(-1.0, 2.0), Vec2::new(1.0, 2.0)]);
    assert_eq!(above.side_of(plane_p, plane_n), Side::Front);

    let below = Face::new([Vec2::new(-1.0, -2.0), Vec2::new(1.0, -2.0)]);
    assert_eq!(below.side_of(plane_p, plane_n), Side::Back);

    let on = Face::new([Vec2::new(-1.0, 0.0), Vec2::new(1.0, 0.0)]);
    assert_eq!(on.side_of(plane_p, plane_n), Side::Coplanar);

    let across = Face::new([Vec2::new(0.0, -2.0), Vec2::new(0.0, 2.0)]);
    assert_eq!(across.side_of(plane_p, plane_n), Side::Intersecting);

    // The asymmetric tolerance: touching the plane with one endpoint is
    // decided by the other endpoint.
    let touching = Face::new([Vec2::new(0.0, 0.0), Vec2::new(0.0, 2.0)]);
    assert_eq!(touching.side_of(plane_p, plane_n), Side::Front);
}

#[test]
fn midpoint_and_length() {
    let f = Face::new([Vec2::new(0.0, 0.0), Vec2::new(10.0, 0.0)]);
    assert_eq!(f.midpoint(), Vec2::new(5.0, 0.0));
    assert_eq!(f.length().0.x, 10.0);
    assert_eq!(f.into_tuple(), (Vec2::new(0.0, 0.0), Vec2::new(10.0, 0.0)));
    assert_eq!(f.vertices()[1], Vec2::new(10.0, 0.0));
}

#[test]
fn split_preserves_winding() {
    let f = Face::new([Vec2::new(-2.0, 1.0), Vec2::new(2.0, 1.0)]);
    // Split against the vertical plane through the origin, normal +X:
    // v0 is behind, v1 in front.
    let halves = f.split(Vec2::new(0.0, 0.0), Vec2::new(1.0, 0.0));
    // The first half is the front piece.
    assert!(halves[0].vertices()[0].distance(Vec2::new(0.0, 1.0)) < 1e-4);
    assert!(halves[0].vertices()[1].distance(Vec2::new(2.0, 1.0)) < 1e-4);
    assert!(halves[1].vertices()[0].distance(Vec2::new(-2.0, 1.0)) < 1e-4);
    assert!(halves[1].vertices()[1].distance(Vec2::new(0.0, 1.0)) < 1e-4);
    // Both keep the original winding normal.
    assert!(halves[0].normal().distance(f.normal()) < 1e-4);
    assert!(halves[1].normal().distance(f.normal()) < 1e-4);
}

#[test]
fn contains_point_within_tolerance() {
    let f = Face::new([Vec2::new(0.0, 0.0), Vec2::new(10.0, 0.0)]);
    assert!(f.contains_point(Vec2::new(5.0, 0.0)));
    assert!(f.contains_point(Vec2::new(0.0, 0.0)));
    assert!(f.contains_point(Vec2::new(10.05, 0.0)));
    assert!(!f.contains_point(Vec2::new(12.0, 0.0)));
    assert!(!f.contains_point(Vec2::new(-1.0, 0.0)));
}

#[test]
fn overlaps_collinear_segments() {
    let f = Face::new([Vec2::new(0.0, 0.0), Vec2::new(10.0, 0.0)]);
    let deep = Face::new([Vec2::new(5.0, 0.0), Vec2::new(15.0, 0.0)]);
    assert!(f.overlaps(&deep));
    // Touching at an endpoint is no overlap.
    let touching = Face::new([Vec2::new(10.0, 0.0), Vec2::new(20.0, 0.0)]);
    assert!(!f.overlaps(&touching));
    let clear = Face::new([Vec2::new(11.0, 0.0), Vec2::new(20.0, 0.0)]);
    assert!(!f.overlaps(&clear));
}

#[test]
fn portal_margin_and_clip() {
    let face = Face::new([Vec2::new(0.0, 0.0), Vec2::new(10.0, 0.0)]);
    let portal = Portal {
        face,
        portal_ref: PortalRef {
            src: NodeIndex(0),
            dst: NodeIndex(1),
            face: 0,
            normal: Vec2::new(0.0, 1.0),
            adjacent: [false, false],
        },
    };
    let (l, r) = portal.apply_margin(Scalar::from_int(2));
    assert!(l.distance(Vec2::new(2.0, 0.0)) < 1e-4);
    assert!(r.distance(Vec2::new(8.0, 0.0)) < 1e-4);

    // A segment crossing the shrunk portal strictly inside.
    let hit = portal.try_clip(Vec2::new(5.0, -1.0), Vec2::new(5.0, 1.0), Scalar::from_int(2));
    assert!(hit.is_some());
    assert!(hit.unwrap().distance(Vec2::new(5.0, 0.0)) < 1e-4);

    // A segment passing outside the shrunk range is rejected but clamps.
    let miss = portal.try_clip(Vec2::new(9.5, -1.0), Vec2::new(9.5, 1.0), Scalar::from_int(2));
    assert!(miss.is_none());
    let clamped = portal.clip(Vec2::new(9.5, -1.0), Vec2::new(9.5, 1.0), Scalar::from_int(2));
    assert!(clamped.distance(Vec2::new(8.0, 0.0)) < 1e-4);
}

#[test]
fn heuristics_values() {
    let a = Vec2::new(0.0, 0.0);
    let b = Vec2::new(3.0, 4.0);
    assert_eq!(bsp_pathfinding::heuristics::euclidiean(a, b).0.x, 5.0);
    assert_eq!(bsp_pathfinding::heuristics::manhattan(a, b).0.x, 7.0);
}

#[test]
fn tolerance_value() {
    assert_eq!(bsp_pathfinding::geom::tolerance().0.x, 0.1);
    assert!(bsp_pathfinding::geom::infinity().0.x.is_infinite());
}

#[test]
fn node_point_side() {
    let f = Face::new([Vec2::new(0.0, 0.0), Vec2::new(10.0, 0.0)]);
    let tree = bsp_pathfinding::BSPTree::new(vec![f]).unwrap();
    let root = tree.root_node();
    // The normal points toward -Y.
    assert_eq!(root.get_side(Vec2::new(5.0, -3.0)), Side::Front);
    assert_eq!(root.get_side(Vec2::new(5.0, 3.0)), Side::Back);
    assert_eq!(root.get_side(Vec2::new(5.0, 0.0)), Side::Coplanar);
}
