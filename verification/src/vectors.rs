//! Homogeneous four-component tuples: a point has `w = 1.0`, a direction
//! `w = 0.0`.

use vstd::prelude::*;
use crate::scalar::{Scalar, ONE_BITS};

verus! {

#[derive(Debug, Clone, Copy)]
pub struct Tuple {
    pub x: Scalar,
    pub y: Scalar,
    pub z: Scalar,
    pub w: Scalar,
}

impl Tuple {
    /// Whether the tuple stands for a point: `w` equals `1.0`.
    pub open spec fn is_point_spec(&self) -> bool {
        self.w.eq_spec(Scalar { bits: ONE_BITS })
    }

    /// Whether the sum with `rhs` is defined: at most one of the two is a point.
    pub open spec fn can_add_spec(&self, rhs: &Tuple) -> bool {
        !(self.is_point_spec() && rhs.is_point_spec())
    }

    /// The tuple with `x`, `y` and `z` negated and `w` kept.
    pub open spec fn neg_spec(self) -> Tuple {
        Tuple { x: self.x.neg_spec(), y: self.y.neg_spec(), z: self.z.neg_spec(), w: self.w }
    }

    pub fn new(x: Scalar, y: Scalar, z: Scalar, w: Scalar) -> (t: Tuple)
        ensures
            t == (Tuple { x, y, z, w }),
    {
        Tuple { x, y, z, w }
    }

    pub fn point(x: Scalar, y: Scalar, z: Scalar) -> (t: Tuple)
        ensures
            t == (Tuple { x, y, z, w: Scalar { bits: ONE_BITS } }),
            t.is_point_spec(),
    {
        Tuple { x, y, z, w: Scalar::one() }
    }

    pub fn vector(x: Scalar, y: Scalar, z: Scalar) -> (t: Tuple)
        ensures
            t == (Tuple { x, y, z, w: Scalar { bits: 0 } }),
            !t.is_point_spec(),
    {
        Tuple { x, y, z, w: Scalar::zero() }
    }

    pub fn is_point(&self) -> (r: bool)
        ensures
            r == self.is_point_spec(),
    {
        self.w.float_eq(Scalar::one())
    }

    /// Whether `self + rhs` is defined. A point may be added to a direction,
    /// and a direction to a direction, but not a point to a point. The cross
    /// product is defined on the same pairs.
    pub fn can_add(&self, rhs: &Tuple) -> (r: bool)
        ensures
            r == self.can_add_spec(rhs),
    {
        !(self.is_point() && rhs.is_point())
    }

    /// Whether the tuple may be multiplied or divided by a number: only a
    /// direction scales.
    pub fn can_scale(&self) -> (r: bool)
        ensures
            r == !self.is_point_spec(),
    {
        !self.is_point()
    }

    /// Negates `x`, `y` and `z`; `w` stays, so a point stays a point.
    pub fn neg(self) -> (t: Tuple)
        ensures
            t == self.neg_spec(),
    {
        Tuple { x: self.x.neg(), y: self.y.neg(), z: self.z.neg(), w: self.w }
    }
}

/// Negating a tuple twice gives it back.
pub proof fn lemma_neg_twice(t: Tuple)
    ensures
        t.neg_spec().neg_spec() == t,
{
}

} // verus!
