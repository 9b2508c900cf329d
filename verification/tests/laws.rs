//! The library's cross-cutting properties, checked on concrete scenes.

use bsp_pathfinding::{BSPTree, Face, NavigationContext, SearchInfo, Shape};
use bsp_pathfinding::astar::{astar, resolve_clip, shorten};
use bsp_pathfinding::heuristics;
use glam::Vec2;
use rand::rngs::StdRng;
use rand::SeedableRng;

fn room_scene() -> Vec<Face> {
    let square = Shape::rect(Vec2::new(50.0, 50.0), Vec2::new(0.0, 0.0));
    let left = Shape::rect(Vec2::new(10.0, 200.0), Vec2::new(-200.0, 10.0));
    let right = Shape::rect(Vec2::new(10.0, 200.0), Vec2::new(200.0, 10.0));
    let bottom = Shape::rect(Vec2::new(200.0, 10.0), Vec2::new(10.0, -200.0));
    let top = Shape::rect(Vec2::new(200.0, 10.0), Vec2::new(10.0, 200.0));

    let mut faces = Vec::new();
    for shape in [&square, &left, &right, &top, &bottom] {
        faces.extend(shape.faces());
    }
    faces
}

fn path_length(points: &[bsp_pathfinding::WayPoint]) -> f32 {
    points
        .windows(2)
        .map(|pair| pair[0].point().distance(pair[1].point()))
        .sum()
}

/// Every face carries the normal its winding derives, to high precision.
#[test]
fn face_normals_follow_winding() {
    let scene = room_scene();
    for face in &scene {
        let [v0, v1] = face.vertices();
        let expected = {
            let d = (v1 - v0).normalize();
            Vec2::new(d.y, -d.x)
        };
        assert!(face.normal().distance(expected) < 1e-4);
    }
}

/// Every portal reference has exactly one mirror at its destination with
/// the same geometry index and the inverted normal.
#[test]
fn portal_symmetry() {
    let nav = NavigationContext::new(room_scene());
    let portals = nav.portals();
    let mut seen_any = false;
    for (leaf, refs) in portals.per_leaf.iter().enumerate() {
        for r in refs {
            seen_any = true;
            assert_eq!(r.src.0, leaf);
            assert!(r.face < portals.faces.len());
            assert_ne!(r.dst.0, leaf);
            let mirrors: Vec<_> = portals.per_leaf[r.dst.0]
                .iter()
                .filter(|m| {
                    m.face == r.face && m.src == r.dst && m.dst == r.src && m.normal
                        == -r.normal && m.adjacent == r.adjacent
                })
                .collect();
            assert_eq!(mirrors.len(), 1);
        }
    }
    assert!(seen_any);
}

/// Shortening never lengthens a path, and running it twice moves nothing
/// any further.
#[test]
fn shorten_monotone_and_stable() {
    let nav = NavigationContext::new(room_scene());
    let tree = nav.tree().as_ref().unwrap();
    let start = Vec2::new(-100.0, 0.0);
    let end = Vec2::new(100.0, 30.0);
    let info = SearchInfo::default();

    let mut path = astar(tree, nav.portals(), start, end, heuristics::euclidiean, info)
        .expect("Failed to find a path");
    let raw_len = path_length(path.points());

    shorten(nav.portals(), &mut path, info.agent_radius);
    let short_len = path_length(path.points());
    assert!(short_len <= raw_len + 1e-3);

    let before: Vec<Vec2> = path.points().iter().map(|p| p.point()).collect();
    shorten(nav.portals(), &mut path, info.agent_radius);
    for (old, new) in before.iter().zip(path.points()) {
        assert!(old.distance(new.point()) <= 0.1);
    }
}

/// Clip resolution is stable too: a second run moves nothing any further.
#[test]
fn resolve_clip_stable() {
    let nav = NavigationContext::new(room_scene());
    let tree = nav.tree().as_ref().unwrap();
    let start = Vec2::new(-100.0, 0.0);
    let end = Vec2::new(100.0, 30.0);
    let info = SearchInfo { agent_radius: bsp_pathfinding::geom::Scalar::from_int(2) };

    let mut path = astar(tree, nav.portals(), start, end, heuristics::euclidiean, info)
        .expect("Failed to find a path");
    shorten(nav.portals(), &mut path, info.agent_radius);
    resolve_clip(nav.portals(), &mut path, info.agent_radius);

    let before: Vec<Vec2> = path.points().iter().map(|p| p.point()).collect();
    resolve_clip(nav.portals(), &mut path, info.agent_radius);
    for (old, new) in before.iter().zip(path.points()) {
        assert!(old.distance(new.point()) <= 0.1);
    }
}

fn trees_equal(a: &BSPTree, b: &BSPTree) -> bool {
    if a.root != b.root || a.l != b.l || a.r != b.r || a.nodes.len() != b.nodes.len() {
        return false;
    }
    a.nodes.iter().zip(b.nodes.iter()).all(|(x, y)| {
        x.origin() == y.origin()
            && x.normal() == y.normal()
            && x.front() == y.front()
            && x.back() == y.back()
            && x.depth() == y.depth()
            && x.double_planar() == y.double_planar()
            && x.faces().len() == y.faces().len()
            && x
                .faces()
                .iter()
                .zip(y.faces().iter())
                .all(|(f, g)| f.vertices() == g.vertices() && f.normal() == g.normal())
    })
}

fn contexts_equal(a: &NavigationContext, b: &NavigationContext) -> bool {
    let (ta, tb) = (a.tree().as_ref().unwrap(), b.tree().as_ref().unwrap());
    trees_equal(ta, tb)
        && a.portals().faces.len() == b.portals().faces.len()
        && a
            .portals()
            .faces
            .iter()
            .zip(b.portals().faces.iter())
            .all(|(f, g)| f.vertices() == g.vertices())
        && a.portals().per_leaf == b.portals().per_leaf
}

/// Building twice from the same face order yields identical data, and a
/// fixed shuffle seed is just as deterministic.
#[test]
fn deterministic_rebuild() {
    let a = NavigationContext::new(room_scene());
    let b = NavigationContext::new(room_scene());
    assert!(contexts_equal(&a, &b));

    let mut rng1 = StdRng::seed_from_u64(42);
    let mut rng2 = StdRng::seed_from_u64(42);
    let c = NavigationContext::new_shuffle(room_scene(), &mut rng1);
    let d = NavigationContext::new_shuffle(room_scene(), &mut rng2);
    assert!(contexts_equal(&c, &d));
}
