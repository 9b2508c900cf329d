//! Portal references and the expanded portal view used by the search.

use vstd::prelude::*;
use glam::Vec2;

use crate::geom::{Scalar, sub_of, add_of, mul_of, lt_of, int_val, perp_of, vec_sub, vec_add, vec_mul, vec_perp, vec_lt, vec_from_int};
use crate::shape::{Face, dir_of};
use crate::tree::node::NodeIndex;
use crate::util::{isect_param, isect_point, face_intersect};

verus! {

/// References one side of a portal: the leaf it is stored at (`src`), the
/// leaf it leads to (`dst`), the index of the shared geometry in the
/// portal store, the normal pointing from `src` into `dst`, and the
/// adjacency flags of the two endpoints.
#[derive(Clone, Copy, Debug, PartialEq)]
pub struct PortalRef {
    pub src: NodeIndex,
    pub dst: NodeIndex,
    pub face: usize,
    pub normal: Vec2,
    pub adjacent: [bool; 2],
}

impl PortalRef {
    /// Returns the normal which points through the portal.
    pub fn normal(&self) -> (r: Vec2)
        ensures
            r == self.normal,
    {
        self.normal
    }

    /// Get the portal ref's src.
    pub fn src(&self) -> (r: NodeIndex)
        ensures
            r == self.src,
    {
        self.src
    }

    /// Get the portal ref's dst.
    pub fn dst(&self) -> (r: NodeIndex)
        ensures
            r == self.dst,
    {
        self.dst
    }
}

/// The two endpoints of a portal pulled inward by a margin along the
/// portal's direction.
pub open spec fn margin_points(v0: Vec2, v1: Vec2, margin: Vec2) -> (Vec2, Vec2) {
    let d = dir_of(v0, v1);
    (add_of(v0, mul_of(d, margin)), sub_of(v1, mul_of(d, margin)))
}

/// A portal reference together with its geometry.
#[derive(Clone, Copy, Debug)]
pub struct Portal {
    pub face: Face,
    pub portal_ref: PortalRef,
}

impl Portal {
    /// Get the portal's portal ref.
    pub fn portal_ref(&self) -> (r: PortalRef)
        ensures
            r == self.portal_ref,
    {
        self.portal_ref
    }

    pub fn dst(&self) -> (r: NodeIndex)
        ensures
            r == self.portal_ref.dst,
    {
        self.portal_ref.dst
    }

    /// Get the portal's src.
    pub fn src(&self) -> (r: NodeIndex)
        ensures
            r == self.portal_ref.src,
    {
        self.portal_ref.src
    }

    /// Returns the normal which points through the portal.
    pub fn normal(&self) -> (r: Vec2)
        ensures
            r == self.portal_ref.normal,
    {
        self.portal_ref.normal
    }

    /// Get the portal's face.
    pub fn face(&self) -> (r: Face)
        ensures
            r == self.face,
    {
        self.face
    }

    /// The portal shrunk by `margin` along its direction.
    pub fn apply_margin(&self, margin: Scalar) -> (r: (Vec2, Vec2))
        ensures
            r == margin_points(self.face.vertices[0], self.face.vertices[1], margin.0),
    {
        let d = self.face.dir();
        let offset = vec_mul(d, margin.0);
        (vec_add(self.face.vertices[0], offset), vec_sub(self.face.vertices[1], offset))
    }

    /// Where the segment from `start` to `end` crosses the shrunk portal,
    /// if it crosses strictly inside it.
    pub fn try_clip(&self, start: Vec2, end: Vec2, margin: Scalar) -> (r: Option<Vec2>)
        ensures
            ({
                let (l, rr) = margin_points(self.face.vertices[0], self.face.vertices[1], margin.0);
                let n = perp_of(sub_of(end, start));
                let t = isect_param(l, sub_of(rr, l), start, n);
                if lt_of(int_val(0), t) && lt_of(t, int_val(1)) {
                    r == Some(isect_point(l, sub_of(rr, l), start, n))
                } else {
                    r is None
                }
            }),
    {
        let (l, rr) = self.apply_margin(margin);
        let n = vec_perp(vec_sub(end, start));
        let p = face_intersect((l, rr), start, n);
        let zero = vec_from_int(0);
        let one = vec_from_int(1);
        if vec_lt(&zero, &p.distance) && vec_lt(&p.distance, &one) {
            Some(p.point)
        } else {
            None
        }
    }

    /// Where the segment from `start` to `end` crosses the shrunk portal,
    /// clamped to the shrunk endpoints.
    pub fn clip(&self, start: Vec2, end: Vec2, margin: Scalar) -> (r: Vec2)
        ensures
            ({
                let (l, rr) = margin_points(self.face.vertices[0], self.face.vertices[1], margin.0);
                let n = perp_of(sub_of(end, start));
                let t = isect_param(l, sub_of(rr, l), start, n);
                if lt_of(t, int_val(0)) {
                    r == l
                } else if lt_of(int_val(1), t) {
                    r == rr
                } else {
                    r == isect_point(l, sub_of(rr, l), start, n)
                }
            }),
    {
        let (l, rr) = self.apply_margin(margin);
        let n = vec_perp(vec_sub(end, start));
        let p = face_intersect((l, rr), start, n);
        let zero = vec_from_int(0);
        let one = vec_from_int(1);
        if vec_lt(&p.distance, &zero) {
            l
        } else if vec_lt(&one, &p.distance) {
            rr
        } else {
            p.point
        }
    }
}

} // verus!
