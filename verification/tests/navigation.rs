//! Tree construction, location and path queries on whole scenes.

use bsp_pathfinding::{BSPTree, Face, NavigationContext, SearchInfo, Shape};
use bsp_pathfinding::heuristics;
use glam::Vec2;

fn room_scene() -> Vec<Face> {
    // A box in the middle of a walled room.
    let square = Shape::rect(Vec2::new(50.0, 50.0), Vec2::new(0.0, 0.0));
    let left = Shape::rect(Vec2::new(10.0, 200.0), Vec2::new(-200.0, 10.0));
    let right = Shape::rect(Vec2::new(10.0, 200.0), Vec2::new(200.0, 10.0));
    let bottom = Shape::rect(Vec2::new(200.0, 10.0), Vec2::new(10.0, -200.0));
    let top = Shape::rect(Vec2::new(200.0, 10.0), Vec2::new(10.0, 200.0));

    let mut faces = Vec::new();
    for shape in [&square, &left, &right, &top, &bottom] {
        faces.extend(shape.faces());
    }
    faces
}

#[test]
fn simple() {
    // Create navigational context from the scene
    let nav = NavigationContext::new(room_scene());

    // Find a path
    let start = Vec2::new(-100.0, 0.0);
    let end = Vec2::new(100.0, 30.0);

    let path = nav
        .find_path(start, end, heuristics::euclidiean, SearchInfo::default())
        .expect("Failed to find a path");

    let expected = [start, Vec2::new(-25.0, 25.0), Vec2::new(25.0, 27.0), end];

    let points: Vec<Vec2> = path.points().iter().map(|val| val.point()).collect();
    println!("path: {:?}", points);
    assert_eq!(points.len(), expected.len());
    for (got, want) in points.iter().zip(expected) {
        assert!((got.x - want.x).abs() <= 1.0 && (got.y - want.y).abs() <= 1.0);
    }
}

#[test]
fn open_field_straight_line() {
    let nav = NavigationContext::new(Vec::new());
    let path = nav
        .find_path(
            Vec2::new(0.0, 0.0),
            Vec2::new(10.0, 10.0),
            heuristics::euclidiean,
            SearchInfo::default(),
        )
        .expect("An empty scene yields the straight line");
    let points: Vec<Vec2> = path.points().iter().map(|val| val.point()).collect();
    assert_eq!(points, vec![Vec2::new(0.0, 0.0), Vec2::new(10.0, 10.0)]);
}

#[test]
fn coplanar_merge() {
    // Two collinear faces with a shared endpoint end up on one node.
    let f1 = Face::new([Vec2::new(0.0, 0.0), Vec2::new(10.0, 0.0)]);
    let f2 = Face::new([Vec2::new(10.0, 0.0), Vec2::new(20.0, 0.0)]);
    assert!(f1.normal().distance(Vec2::new(0.0, -1.0)) < 1e-4);

    let tree = BSPTree::new(vec![f1, f2]).expect("two faces give a tree");
    let root = tree.root_node();
    assert_eq!(root.faces().len(), 2);
    assert!(root.front().is_none());
    assert!(root.back().is_none());
    assert!(!root.double_planar());
    assert!(root.is_leaf());

    // The bounds grow ten units past the extremes.
    assert_eq!(tree.l, Vec2::new(-10.0, -10.0));
    assert_eq!(tree.r, Vec2::new(30.0, 10.0));
}

#[test]
fn double_planar_wall() {
    // Two collinear faces with opposite normals: a wall sealed from both
    // sides.
    let f1 = Face::new([Vec2::new(0.0, 0.0), Vec2::new(10.0, 0.0)]);
    let f2 = Face::new([Vec2::new(10.0, 0.0), Vec2::new(0.0, 0.0)]);

    let nav = NavigationContext::new(vec![f1, f2]);
    let tree = nav.tree().as_ref().expect("two faces give a tree");
    assert!(tree.root_node().double_planar());

    // No path crosses a sealed wall.
    let path = nav.find_path(
        Vec2::new(5.0, -1.0),
        Vec2::new(5.0, 1.0),
        heuristics::euclidiean,
        SearchInfo::default(),
    );
    assert!(path.is_none());
}

#[test]
fn push_out_inside_box() {
    let nav = NavigationContext::new(room_scene());
    let payload = nav.locate(Vec2::new(0.0, 0.0)).expect("scene is not empty");
    assert!(payload.covered());
    let push = payload.depth();
    assert!(push.length() <= 25.0 + 0.01);
    assert!(push.length() > 0.0);
}

#[test]
fn locate_sides() {
    let f1 = Face::new([Vec2::new(0.0, 0.0), Vec2::new(10.0, 0.0)]);
    let nav = NavigationContext::new(vec![f1]);
    // The normal points toward -Y: below the wall is the front side.
    let below = nav.locate(Vec2::new(5.0, -1.0)).unwrap();
    assert!(!below.covered());
    let above = nav.locate(Vec2::new(5.0, 1.0)).unwrap();
    assert!(above.covered());
    assert!((above.depth().length() - 1.0).abs() < 1e-4);
}

#[test]
fn incremental_reuse() {
    let nav = NavigationContext::new(room_scene());
    let start = Vec2::new(-100.0, 0.0);
    let end = Vec2::new(100.0, 30.0);

    let mut path = None;
    let found = nav.find_path_inc(start, end, heuristics::euclidiean, SearchInfo::default(), &mut path);
    assert!(found);
    let first_len = path.as_ref().unwrap().points().len();
    let capacity = path.as_ref().unwrap().points().capacity();

    let found = nav.find_path_inc(start, end, heuristics::euclidiean, SearchInfo::default(), &mut path);
    assert!(found);
    assert_eq!(path.as_ref().unwrap().points().len(), first_len);
    assert_eq!(path.as_ref().unwrap().points().capacity(), capacity);
}

#[test]
fn path_is_a_chain_of_portals() {
    let nav = NavigationContext::new(room_scene());
    let start = Vec2::new(-100.0, 0.0);
    let end = Vec2::new(100.0, 30.0);
    let path = nav
        .find_path(start, end, heuristics::euclidiean, SearchInfo::default())
        .expect("Failed to find a path");
    let pts = path.points();
    assert!(pts.len() >= 2);
    assert!(pts[0].portal.is_none());
    assert!(pts[pts.len() - 1].portal.is_none());
    assert_eq!(pts[0].node, nav.locate(start).unwrap().index());
    assert_eq!(pts[pts.len() - 1].node, nav.locate(end).unwrap().index());
    for i in 1..pts.len() - 1 {
        let portal = pts[i].portal.expect("interior waypoints cross a portal");
        assert_eq!(portal.dst(), pts[i].node);
        assert_eq!(portal.src(), pts[i - 1].node);
    }
}

#[test]
fn manhattan_heuristic_path() {
    // The search accepts any plugged-in distance function.
    let nav = NavigationContext::new(room_scene());
    let start = Vec2::new(-100.0, 0.0);
    let end = Vec2::new(100.0, 30.0);
    let path = nav
        .find_path(start, end, heuristics::manhattan, SearchInfo::default())
        .expect("Failed to find a path");
    let pts = path.points();
    assert_eq!(pts[0].point(), start);
    assert_eq!(pts[pts.len() - 1].point(), end);
}

#[test]
fn bounds_contain_every_vertex() {
    // The padded bounds strictly contain every input vertex; the float
    // min/max order facts behind this are not part of the contracts, so
    // the containment is checked here at runtime.
    let faces = room_scene();
    let tree = BSPTree::new(faces.clone()).unwrap();
    for face in &faces {
        for v in face.vertices() {
            assert!(tree.l.x < v.x && v.x < tree.r.x);
            assert!(tree.l.y < v.y && v.y < tree.r.y);
        }
    }
}

#[test]
fn incremental_matches_direct() {
    // The buffered query returns exactly the waypoints of the direct one.
    let nav = NavigationContext::new(room_scene());
    let start = Vec2::new(-100.0, 0.0);
    let end = Vec2::new(100.0, 30.0);

    let direct = nav
        .find_path(start, end, heuristics::euclidiean, SearchInfo::default())
        .expect("Failed to find a path");

    let mut buffered = None;
    assert!(nav.find_path_inc(start, end, heuristics::euclidiean, SearchInfo::default(), &mut buffered));
    let buffered = buffered.unwrap();

    assert_eq!(direct.points().len(), buffered.points().len());
    for (a, b) in direct.points().iter().zip(buffered.points()) {
        assert_eq!(a.point(), b.point());
        assert_eq!(a.node, b.node);
        assert_eq!(a.portal, b.portal);
    }
}
