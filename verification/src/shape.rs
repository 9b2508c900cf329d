//! Faces (oriented wall segments), the side classification, and simple
//! shapes that generate faces with outward normals from their winding.

use vstd::prelude::*;
use glam::Vec2;

use crate::geom::{Scalar, sub_of, add_of, div_of, neg_of, abs_of, dot_of, perp_of, unit_of, dist_of, min_of, max_of, corner_of, lt_of, le_of, int_val, tol, vec_sub, vec_add, vec_div, vec_neg, vec_abs, vec_dot, vec_perp, vec_unit, vec_dist, vec_min, vec_max, vec_corner, vec_lt, vec_le, vec_from_int, tolerance};

verus! {

/// The classification of a face or point against a splitting plane.
#[derive(Clone, Copy, PartialEq, Eq, Structural, Debug)]
pub enum Side {
    Front,
    Back,
    Coplanar,
    Intersecting,
}

impl Side {
    /// `Back` wins over everything; otherwise `self` is kept.
    pub fn min(&self, other: Self) -> (r: Side)
        ensures
            r == (if *self == Side::Back || other == Side::Back {
                Side::Back
            } else {
                *self
            }),
    {
        match (self, other) {
            (Side::Back, _) => Side::Back,
            (_, Side::Back) => Side::Back,
            _ => *self,
        }
    }
}

/// The unit normal a face derives from its winding: the clockwise
/// perpendicular of the normalized direction from the first vertex to the
/// second.
pub open spec fn face_normal(v0: Vec2, v1: Vec2) -> Vec2 {
    perp_of(unit_of(sub_of(v1, v0)))
}

/// An oriented wall segment with its cached unit normal.
#[derive(Clone, Copy, Debug)]
pub struct Face {
    pub normal: Vec2,
    pub vertices: [Vec2; 2],
}

/// The face `Face::new` builds from two vertices.
pub open spec fn face_new_spec(v0: Vec2, v1: Vec2) -> Face {
    Face { normal: face_normal(v0, v1), vertices: [v0, v1] }
}

/// The two dot products a side classification is made from, already the
/// classification itself: coplanar when both distances are small, front or
/// back when both are beyond the matching tolerance bound, intersecting
/// otherwise.
pub open spec fn side_sig(a: Vec2, b: Vec2) -> Side {
    if lt_of(abs_of(a), tol()) && lt_of(abs_of(b), tol()) {
        Side::Coplanar
    } else if le_of(neg_of(tol()), a) && le_of(neg_of(tol()), b) {
        Side::Front
    } else if le_of(a, tol()) && le_of(b, tol()) {
        Side::Back
    } else {
        Side::Intersecting
    }
}

/// The side of the segment `(v0, v1)` against the plane through `p` with
/// normal `n`.
pub open spec fn side_of_spec(v0: Vec2, v1: Vec2, p: Vec2, n: Vec2) -> Side {
    side_sig(dot_of(sub_of(v0, p), n), dot_of(sub_of(v1, p), n))
}

/// The side of a single point against the plane through `p` with normal
/// `n`: coplanar within the tolerance, otherwise back for a non-positive
/// distance and front for a positive one.
pub open spec fn point_side_spec(point: Vec2, p: Vec2, n: Vec2) -> Side {
    let d = dot_of(sub_of(point, p), n);
    if lt_of(abs_of(d), tol()) {
        Side::Coplanar
    } else if le_of(d, int_val(0)) {
        Side::Back
    } else {
        Side::Front
    }
}

/// The midpoint of a segment.
pub open spec fn midpoint_of(v0: Vec2, v1: Vec2) -> Vec2 {
    div_of(add_of(v0, v1), int_val(2))
}

/// Whether `p` projects into the segment `(v0, v1)`, within tolerance on
/// both ends.
pub open spec fn contains_point_spec(v0: Vec2, v1: Vec2, p: Vec2) -> bool {
    let d = dot_of(sub_of(p, v0), unit_of(sub_of(v1, v0)));
    le_of(neg_of(tol()), d) && le_of(d, add_of(dist_of(v0, v1), tol()))
}

impl Face {
    /// Builds the face over the two vertices, deriving the normal from the
    /// winding.
    pub fn new(vertices: [Vec2; 2]) -> (r: Face)
        ensures
            r.normal == face_normal(vertices[0], vertices[1]),
            r.vertices == vertices,
            r.wf(),
    {
        let dir = vec_unit(vec_sub(vertices[1], vertices[0]));
        let normal = vec_perp(dir);
        Face { normal, vertices }
    }

    /// The normal is exactly the one the winding derives.
    pub open spec fn wf(self) -> bool {
        self.normal == face_normal(self.vertices[0], self.vertices[1])
    }

    /// Get the face's vertices.
    pub fn vertices(&self) -> (r: [Vec2; 2])
        ensures
            r == self.vertices,
    {
        self.vertices
    }

    pub fn into_tuple(&self) -> (r: (Vec2, Vec2))
        ensures
            r.0 == self.vertices[0],
            r.1 == self.vertices[1],
    {
        (self.vertices[0], self.vertices[1])
    }

    /// Get the face's normal.
    pub fn normal(&self) -> (r: Vec2)
        ensures
            r == self.normal,
    {
        self.normal
    }

    /// Classifies the face against the plane through `p` with normal `n`.
    pub fn side_of(&self, p: Vec2, n: Vec2) -> (r: Side)
        ensures
            r == side_of_spec(self.vertices[0], self.vertices[1], p, n),
    {
        let a = vec_dot(vec_sub(self.vertices[0], p), n);
        let b = vec_dot(vec_sub(self.vertices[1], p), n);
        let t = tolerance();
        let neg_t = Scalar(vec_neg(t.0));
        let abs_a = Scalar(vec_abs(a.0));
        let abs_b = Scalar(vec_abs(b.0));

        if vec_lt(&abs_a, &t) && vec_lt(&abs_b, &t) {
            Side::Coplanar
        } else if vec_le(&neg_t, &a) && vec_le(&neg_t, &b) {
            Side::Front
        } else if vec_le(&a, &t) && vec_le(&b, &t) {
            Side::Back
        } else {
            Side::Intersecting
        }
    }

    /// The midpoint of the face.
    pub fn midpoint(&self) -> (r: Vec2)
        ensures
            r == midpoint_of(self.vertices[0], self.vertices[1]),
    {
        let two = vec_from_int(2);
        vec_div(vec_add(self.vertices[0], self.vertices[1]), two.0)
    }

    /// Splits the face at the intersection of its carrier line with the
    /// plane through `p` with normal `n`.  The first returned face is the
    /// piece whose fixed endpoint lies on the front of the plane, the
    /// second the other piece; both keep the original winding.
    pub fn split(&self, p: Vec2, n: Vec2) -> (r: [Face; 2])
        ensures
            ({
                let i = crate::util::isect_point(
                    self.vertices[0],
                    sub_of(self.vertices[1], self.vertices[0]),
                    p,
                    n,
                );
                if le_of(int_val(0), dot_of(sub_of(self.vertices[0], p), n)) {
                    r[0] == face_new_spec(self.vertices[0], i) && r[1] == face_new_spec(
                        i,
                        self.vertices[1],
                    )
                } else {
                    r[0] == face_new_spec(i, self.vertices[1]) && r[1] == face_new_spec(
                        self.vertices[0],
                        i,
                    )
                }
            }),
            r[0].wf(),
            r[1].wf(),
    {
        let isect = crate::util::face_intersect(self.into_tuple(), p, n);
        let d0 = vec_dot(vec_sub(self.vertices[0], p), n);
        let zero = vec_from_int(0);
        let head = Face::new([self.vertices[0], isect.point]);
        let tail = Face::new([isect.point, self.vertices[1]]);
        if vec_le(&zero, &d0) {
            [head, tail]
        } else {
            [tail, head]
        }
    }

    /// Whether `p` projects into the face, within tolerance on both ends.
    pub fn contains_point(&self, p: Vec2) -> (r: bool)
        ensures
            r == contains_point_spec(self.vertices[0], self.vertices[1], p),
    {
        let dir = vec_unit(vec_sub(self.vertices[1], self.vertices[0]));
        let d = vec_dot(vec_sub(p, self.vertices[0]), dir);
        let t = tolerance();
        let neg_t = Scalar(vec_neg(t.0));
        let len = vec_dist(self.vertices[0], self.vertices[1]);
        let hi = Scalar(vec_add(len.0, t.0));
        vec_le(&neg_t, &d) && vec_le(&d, &hi)
    }
}

/// The unit direction of a segment.
pub open spec fn dir_of(v0: Vec2, v1: Vec2) -> Vec2 {
    unit_of(sub_of(v1, v0))
}

/// Whether two segments on a common carrier line overlap by more than the
/// tolerance: both are projected onto the first segment's direction and
/// the intersection of the parameter ranges is measured.
pub open spec fn overlaps_spec(v0: Vec2, v1: Vec2, o0: Vec2, o1: Vec2) -> bool {
    let d = dir_of(v0, v1);
    let s = dot_of(sub_of(o0, v0), d);
    let t = dot_of(sub_of(o1, v0), d);
    let lo = max_of(int_val(0), min_of(s, t));
    let hi = min_of(dist_of(v0, v1), max_of(s, t));
    lt_of(tol(), sub_of(hi, lo))
}

impl Face {
    /// The unit direction from the first vertex to the second.
    pub fn dir(&self) -> (r: Vec2)
        ensures
            r == dir_of(self.vertices[0], self.vertices[1]),
    {
        vec_unit(vec_sub(self.vertices[1], self.vertices[0]))
    }

    /// The Euclidean length of the face.
    pub fn length(&self) -> (r: Scalar)
        ensures
            r.0 == dist_of(self.vertices[0], self.vertices[1]),
    {
        vec_dist(self.vertices[0], self.vertices[1])
    }

    /// Whether `other` overlaps this face by more than the tolerance when
    /// both are projected onto this face's direction.
    pub fn overlaps(&self, other: &Face) -> (r: bool)
        ensures
            r == overlaps_spec(
                self.vertices[0],
                self.vertices[1],
                other.vertices[0],
                other.vertices[1],
            ),
    {
        let d = self.dir();
        let s = vec_dot(vec_sub(other.vertices[0], self.vertices[0]), d);
        let t = vec_dot(vec_sub(other.vertices[1], self.vertices[0]), d);
        let zero = vec_from_int(0);
        let lo = vec_max(zero.0, vec_min(s.0, t.0));
        let hi = vec_min(vec_dist(self.vertices[0], self.vertices[1]).0, vec_max(s.0, t.0));
        let gap = Scalar(vec_sub(hi, lo));
        let t_tol = tolerance();
        vec_lt(&t_tol, &gap)
    }
}

/// A polygon; its edges become faces whose normals point outward for
/// clockwise winding.
#[derive(Debug)]
pub struct Shape {
    pub vertices: Vec<Vec2>,
}

impl Shape {
    pub fn new(vertices: Vec<Vec2>) -> (r: Shape)
        ensures
            r.vertices@ == vertices@,
    {
        Shape { vertices }
    }

    /// An axis-aligned rectangle of the given size centred at `origin`.
    pub fn rect(size: Vec2, origin: Vec2) -> (r: Shape)
        ensures
            r.vertices@.len() == 4,
            r.vertices@[0] == sub_of(origin, div_of(size, int_val(2))),
            r.vertices@[1] == add_of(
                origin,
                corner_of(div_of(size, int_val(2)), neg_of(div_of(size, int_val(2)))),
            ),
            r.vertices@[2] == add_of(origin, div_of(size, int_val(2))),
            r.vertices@[3] == add_of(
                origin,
                corner_of(neg_of(div_of(size, int_val(2))), div_of(size, int_val(2))),
            ),
    {
        let two = vec_from_int(2);
        let half = vec_div(size, two.0);
        let neg_half = vec_neg(half);
        let mut vertices: Vec<Vec2> = Vec::new();
        vertices.push(vec_sub(origin, half));
        vertices.push(vec_add(origin, vec_corner(half, neg_half)));
        vertices.push(vec_add(origin, half));
        vertices.push(vec_add(origin, vec_corner(neg_half, half)));
        Shape { vertices }
    }

    /// The faces of the polygon's edges, in winding order, each normal
    /// derived from the winding.
    pub fn faces(&self) -> (r: Vec<Face>)
        ensures
            r@.len() == self.vertices@.len(),
            forall|i: int|
                0 <= i < r@.len() ==> r@[i] == face_new_spec(
                    self.vertices@[i],
                    self.vertices@[(i + 1) % (self.vertices@.len() as int)],
                ),
    {
        let n = self.vertices.len();
        let mut r: Vec<Face> = Vec::new();
        let mut i: usize = 0;
        while i < n
            invariant
                0 <= i <= n,
                n == self.vertices@.len(),
                r@.len() == i as int,
                forall|j: int|
                    0 <= j < i as int ==> r@[j] == face_new_spec(
                        self.vertices@[j],
                        self.vertices@[(j + 1) % (n as int)],
                    ),
            decreases n - i,
        {
            let a = self.vertices[i];
            let b = self.vertices[(i + 1) % n];
            r.push(Face::new([a, b]));
            i = i + 1;
        }
        r
    }
}

} // verus!
