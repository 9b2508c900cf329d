//! The trusted boundary around `glam`.
//!
//! Coordinates are `glam::Vec2` values and stay opaque to the verifier: every
//! arithmetic step on them is named by an uninterpreted spec function and
//! performed by a small `external_body` wrapper whose contract equates the
//! result with the name.  Each name stands for exactly one `glam` or `core`
//! float operation, so two calls on equal arguments are equal, and all
//! reasoning above this module is in terms of these names.
//!
//! A scalar (a distance, a cost, a tolerance) is carried as a `Vec2` with the
//! value in both lanes, wrapped in [`Scalar`]; the componentwise vector
//! wrappers then double as scalar arithmetic, and the comparison wrappers
//! read the first lane.

use vstd::prelude::*;
use glam::Vec2;

verus! {

#[verifier::external_type_specification]
#[verifier::external_body]
pub struct ExVec2(Vec2);

/// A float scalar, stored with the value in both lanes of a `Vec2`.
#[derive(Clone, Copy, Debug)]
pub struct Scalar(pub Vec2);

pub uninterp spec fn sub_of(a: Vec2, b: Vec2) -> Vec2;

pub uninterp spec fn add_of(a: Vec2, b: Vec2) -> Vec2;

pub uninterp spec fn mul_of(a: Vec2, b: Vec2) -> Vec2;

pub uninterp spec fn div_of(a: Vec2, b: Vec2) -> Vec2;

pub uninterp spec fn neg_of(a: Vec2) -> Vec2;

pub uninterp spec fn abs_of(a: Vec2) -> Vec2;

pub uninterp spec fn dot_of(a: Vec2, b: Vec2) -> Vec2;

pub uninterp spec fn perp_of(a: Vec2) -> Vec2;

pub uninterp spec fn unit_of(a: Vec2) -> Vec2;

pub uninterp spec fn dist_of(a: Vec2, b: Vec2) -> Vec2;

pub uninterp spec fn dist_sq_of(a: Vec2, b: Vec2) -> Vec2;

pub uninterp spec fn min_of(a: Vec2, b: Vec2) -> Vec2;

pub uninterp spec fn max_of(a: Vec2, b: Vec2) -> Vec2;

pub uninterp spec fn corner_of(a: Vec2, b: Vec2) -> Vec2;

pub uninterp spec fn lt_of(a: Vec2, b: Vec2) -> bool;

pub uninterp spec fn le_of(a: Vec2, b: Vec2) -> bool;

pub uninterp spec fn finite_of(a: Vec2) -> bool;

pub uninterp spec fn int_val(i: int) -> Vec2;

/// Relies on `glam::Vec2`'s `Sub`: componentwise difference.
#[verifier::external_body]
pub fn vec_sub(a: Vec2, b: Vec2) -> (r: Vec2)
    ensures
        r == sub_of(a, b),
{
    a - b
}

/// Relies on `glam::Vec2`'s `Add`: componentwise sum.
#[verifier::external_body]
pub fn vec_add(a: Vec2, b: Vec2) -> (r: Vec2)
    ensures
        r == add_of(a, b),
{
    a + b
}

/// Relies on `glam::Vec2`'s `Mul`: componentwise product.
#[verifier::external_body]
pub fn vec_mul(a: Vec2, b: Vec2) -> (r: Vec2)
    ensures
        r == mul_of(a, b),
{
    a * b
}

/// Relies on `glam::Vec2`'s `Div`: componentwise quotient (never panics;
/// a zero divisor yields an infinite or NaN lane).
#[verifier::external_body]
pub fn vec_div(a: Vec2, b: Vec2) -> (r: Vec2)
    ensures
        r == div_of(a, b),
{
    a / b
}

/// Relies on `glam::Vec2`'s `Neg`: componentwise negation, which flips the
/// float sign bit and is therefore involutive.
#[verifier::external_body]
pub fn vec_neg(a: Vec2) -> (r: Vec2)
    ensures
        r == neg_of(a),
        neg_of(r) == a,
{
    -a
}

/// Relies on `glam::Vec2::abs`: componentwise absolute value.
#[verifier::external_body]
pub fn vec_abs(a: Vec2) -> (r: Vec2)
    ensures
        r == abs_of(a),
{
    a.abs()
}

/// Relies on `glam::Vec2::dot_into_vec`: the dot product in both lanes.
#[verifier::external_body]
pub fn vec_dot(a: Vec2, b: Vec2) -> (r: Scalar)
    ensures
        r.0 == dot_of(a, b),
{
    Scalar(a.dot_into_vec(b))
}

/// Relies on `glam::Vec2::new`: the clockwise perpendicular `(y, -x)`.
#[verifier::external_body]
pub fn vec_perp(a: Vec2) -> (r: Vec2)
    ensures
        r == perp_of(a),
{
    Vec2::new(a.y, -a.x)
}

/// Relies on `glam::Vec2::normalize`: the vector scaled to unit length
/// (non-finite lanes for a zero input; `glam`'s assertions are off by
/// default, so the call never panics).
#[verifier::external_body]
pub fn vec_unit(a: Vec2) -> (r: Vec2)
    ensures
        r == unit_of(a),
{
    a.normalize()
}

/// Relies on `glam::Vec2::distance`: the Euclidean distance in both lanes.
#[verifier::external_body]
pub fn vec_dist(a: Vec2, b: Vec2) -> (r: Scalar)
    ensures
        r.0 == dist_of(a, b),
{
    Scalar(Vec2::splat(a.distance(b)))
}

/// Relies on `glam::Vec2::distance_squared`: the squared distance in both lanes.
#[verifier::external_body]
pub fn vec_dist_sq(a: Vec2, b: Vec2) -> (r: Scalar)
    ensures
        r.0 == dist_sq_of(a, b),
{
    Scalar(Vec2::splat(a.distance_squared(b)))
}

/// Relies on `glam::Vec2::min`: the componentwise minimum.
#[verifier::external_body]
pub fn vec_min(a: Vec2, b: Vec2) -> (r: Vec2)
    ensures
        r == min_of(a, b),
{
    a.min(b)
}

/// Relies on `glam::Vec2::max`: the componentwise maximum.
#[verifier::external_body]
pub fn vec_max(a: Vec2, b: Vec2) -> (r: Vec2)
    ensures
        r == max_of(a, b),
{
    a.max(b)
}

/// Relies on `glam::Vec2::new`: the x lane of `a` beside the y lane of `b`.
#[verifier::external_body]
pub fn vec_corner(a: Vec2, b: Vec2) -> (r: Vec2)
    ensures
        r == corner_of(a, b),
{
    Vec2::new(a.x, b.y)
}

/// Relies on `f32`'s `<` on the first lanes.
#[verifier::external_body]
pub fn vec_lt(a: &Scalar, b: &Scalar) -> (r: bool)
    ensures
        r == lt_of(a.0, b.0),
{
    a.0.x < b.0.x
}

/// Relies on `f32`'s `<=` on the first lanes.
#[verifier::external_body]
pub fn vec_le(a: &Scalar, b: &Scalar) -> (r: bool)
    ensures
        r == le_of(a.0, b.0),
{
    a.0.x <= b.0.x
}

/// Relies on `glam::Vec2::is_finite`: both lanes finite.
#[verifier::external_body]
pub fn vec_is_finite(a: &Scalar) -> (r: bool)
    ensures
        r == finite_of(a.0),
{
    a.0.is_finite()
}

/// Relies on `From<i16>` for the float type and `glam::Vec2::splat`:
/// the integer's exact float value in both lanes.
#[verifier::external_body]
pub fn vec_from_int(i: i16) -> (r: Scalar)
    ensures
        r.0 == int_val(i as int),
{
    Scalar(Vec2::splat(i.into()))
}

impl Scalar {
    /// The scalar carrying the exact value of a small integer.
    pub fn from_int(i: i16) -> (r: Scalar)
        ensures
            r.0 == int_val(i as int),
    {
        vec_from_int(i)
    }
}

/// The classification tolerance: one tenth of a scene unit, computed as
/// `1 / 10` so that every classification below names the same value.
pub open spec fn tol() -> Vec2 {
    div_of(int_val(1), int_val(10))
}

/// The positive infinity that seeds minimum searches, computed as `1 / 0`.
pub open spec fn inf() -> Vec2 {
    div_of(int_val(1), int_val(0))
}

/// The executable tolerance value.
pub fn tolerance() -> (r: Scalar)
    ensures
        r.0 == tol(),
{
    let one = vec_from_int(1);
    let ten = vec_from_int(10);
    Scalar(vec_div(one.0, ten.0))
}

/// The executable positive infinity.
pub fn infinity() -> (r: Scalar)
    ensures
        r.0 == inf(),
{
    let one = vec_from_int(1);
    let zero = vec_from_int(0);
    Scalar(vec_div(one.0, zero.0))
}

} // verus!
