//! Distance estimates a caller can hand to the search.

use vstd::prelude::*;
use glam::Vec2;

use crate::geom::{Scalar, sub_of, abs_of, dot_of, dist_of, int_val, vec_sub, vec_abs, vec_dot, vec_dist, vec_from_int};

verus! {

/// The straight-line distance.
pub fn euclidiean(start: Vec2, end: Vec2) -> (r: Scalar)
    ensures
        r.0 == dist_of(start, end),
{
    vec_dist(start, end)
}

/// The sum of the absolute coordinate differences.
pub fn manhattan(start: Vec2, end: Vec2) -> (r: Scalar)
    ensures
        r.0 == dot_of(abs_of(sub_of(end, start)), int_val(1)),
{
    let one = vec_from_int(1);
    vec_dot(vec_abs(vec_sub(end, start)), one.0)
}

} // verus!
