//! Line-plane intersection helpers shared by splitting and clipping.

use vstd::prelude::*;
use glam::Vec2;

use crate::geom::{Scalar, sub_of, add_of, mul_of, div_of, dot_of, vec_sub, vec_add, vec_mul, vec_div, vec_dot};

verus! {

/// The signed parameter `t` with `a0 + dir * t` on the plane through `p`
/// with normal `n`, carried in both lanes; non-finite when `dir` is
/// parallel to the plane.
pub open spec fn isect_param(a0: Vec2, dir: Vec2, p: Vec2, n: Vec2) -> Vec2 {
    div_of(dot_of(sub_of(p, a0), n), dot_of(dir, n))
}

/// The point `a0 + dir * t` for the parameter above.
pub open spec fn isect_point(a0: Vec2, dir: Vec2, p: Vec2, n: Vec2) -> Vec2 {
    add_of(a0, mul_of(dir, isect_param(a0, dir, p, n)))
}

/// An intersection of a segment's carrier line with a plane.
#[derive(Clone, Copy, Debug)]
pub struct Intersect {
    pub point: Vec2,
    pub distance: Scalar,
}

impl Intersect {
    pub fn new(point: Vec2, distance: Scalar) -> (r: Intersect)
        ensures
            r.point == point,
            r.distance == distance,
    {
        Intersect { point, distance }
    }
}

/// Intersects the carrier line of the segment `a` with the plane through
/// `p` with normal `n`.
pub fn face_intersect(a: (Vec2, Vec2), p: Vec2, n: Vec2) -> (r: Intersect)
    ensures
        r.point == isect_point(a.0, sub_of(a.1, a.0), p, n),
        r.distance.0 == isect_param(a.0, sub_of(a.1, a.0), p, n),
{
    let dir = vec_sub(a.1, a.0);
    face_intersect_dir(a.0, dir, p, n)
}

/// Intersects the line `a + dir * t` with the plane through `p` with
/// normal `n`.
pub fn face_intersect_dir(a: Vec2, dir: Vec2, p: Vec2, n: Vec2) -> (r: Intersect)
    ensures
        r.point == isect_point(a, dir, p, n),
        r.distance.0 == isect_param(a, dir, p, n),
{
    let l = vec_div(vec_dot(vec_sub(p, a), n).0, vec_dot(dir, n).0);
    Intersect { point: vec_add(a, vec_mul(dir, l)), distance: Scalar(l) }
}

} // verus!
