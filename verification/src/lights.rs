//! Which terms of the light reach the eye.
//!
//! A lit point shows the sum of an ambient, a diffuse and a specular term.
//! The ambient term is always there. The diffuse term needs the light in
//! front of the surface, and the specular term needs, besides, the
//! reflected light to head toward the eye. Two dot products tell.

use vstd::prelude::*;
use crate::scalar::Scalar;

verus! {

/// Whether the light is behind the surface, so that only the ambient term
/// remains: the dot product of the direction to the light and the surface
/// normal is negative.
pub fn light_is_behind(light_dot_normal: Scalar) -> (r: bool)
    ensures
        r == light_dot_normal.lt_spec(Scalar { bits: 0 }),
{
    light_dot_normal.lt(Scalar::zero())
}

/// Whether the reflected light heads toward the eye, so that there is a
/// highlight: the dot product of the reflected light and the direction to
/// the eye is positive.
pub fn reflects_to_eye(reflect_dot_eye: Scalar) -> (r: bool)
    ensures
        r == (Scalar { bits: 0 }).lt_spec(reflect_dot_eye),
{
    Scalar::zero().lt(reflect_dot_eye)
}

} // verus!
