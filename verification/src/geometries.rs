//! The unit sphere about the origin of its own space. A transform places it
//! in the world; the inverse of the transform, and the transpose of that
//! inverse, are kept beside it and change only together with it.

use vstd::prelude::*;
use uuid::Uuid;
use crate::intersections::Intersection;
use crate::matrix::{transpose_spec, M};
use crate::scalar::Scalar;

verus! {

/// Calls `uuid::Uuid::new_v4`, which draws a random identifier from the
/// operating system's generator. Nothing is claimed of the value. The call
/// aborts if the generator cannot be read.
#[verifier::external_body]
fn fresh_id() -> (id: Uuid) {
    Uuid::new_v4()
}

pub struct Sphere {
    pub id: Uuid,
    transform: M,
    transform_inv: M,
    transform_inv_t: M,
}

impl Sphere {
    /// The identifier that the sphere's intersections carry.
    pub closed spec fn id_spec(&self) -> Uuid {
        self.id
    }

    /// The transform from the sphere's space to the world.
    pub closed spec fn transform_spec(&self) -> M {
        self.transform
    }

    /// The matrix kept as the inverse of the transform.
    pub closed spec fn inverse_spec(&self) -> M {
        self.transform_inv
    }

    /// The matrix kept as the transpose of the inverse.
    pub closed spec fn inverse_transpose_spec(&self) -> M {
        self.transform_inv_t
    }

    /// The three matrices are well formed, and the third is the transpose of
    /// the second.
    pub open spec fn wf(&self) -> bool {
        &&& self.transform_spec().wf()
        &&& self.inverse_spec().wf()
        &&& self.inverse_transpose_spec().wf()
        &&& self.inverse_transpose_spec().rows == self.inverse_spec().columns
        &&& self.inverse_transpose_spec().columns == self.inverse_spec().rows
        &&& self.inverse_transpose_spec()@ == transpose_spec(
            self.inverse_spec()@,
            self.inverse_spec().rows as nat,
            self.inverse_spec().columns as nat,
        )
    }

    /// A sphere with a fresh identifier, placed by the identity.
    pub fn new() -> (s: Sphere)
        ensures
            s.wf(),
            s.transform_spec()@ == M::ident_spec(4),
            s.inverse_spec()@ == M::ident_spec(4),
            s.inverse_transpose_spec()@ == M::ident_spec(4),
            s.transform_spec().rows == 4 && s.transform_spec().columns == 4,
            s.inverse_spec().rows == 4 && s.inverse_spec().columns == 4,
    {
        let s = Sphere {
            id: fresh_id(),
            transform: M::ident(4),
            transform_inv: M::ident(4),
            transform_inv_t: M::ident(4),
        };
        assert(s.transform_inv_t@ =~~= transpose_spec(s.transform_inv@, 4, 4));
        s
    }

    /// Places the sphere by `m`, whose inverse the caller has computed.
    /// The transform, its inverse and the transpose of the inverse are
    /// replaced together; the identifier stays.
    pub fn set_transform(&mut self, m: M, inverse: M)
        requires
            m.wf(),
            inverse.wf(),
        ensures
            final(self).wf(),
            final(self).id_spec() == old(self).id_spec(),
            final(self).transform_spec() == m,
            final(self).inverse_spec() == inverse,
    {
        self.transform_inv_t = inverse.transpose();
        self.transform_inv = inverse;
        self.transform = m;
    }

    /// The identifier that the sphere's intersections carry.
    pub fn id(&self) -> (id: Uuid)
        ensures
            id == self.id_spec(),
    {
        self.id
    }

    pub fn transform(&self) -> (m: &M)
        ensures
            *m == self.transform_spec(),
    {
        &self.transform
    }

    /// The inverse of the transform: it takes the world to the sphere's space.
    pub fn inverse(&self) -> (m: &M)
        ensures
            *m == self.inverse_spec(),
    {
        &self.transform_inv
    }

    /// The transpose of the inverse: it takes a normal of the sphere's space
    /// to the world.
    pub fn inverse_transpose(&self) -> (m: &M)
        ensures
            *m == self.inverse_transpose_spec(),
    {
        &self.transform_inv_t
    }

    /// The intersections of a ray with the sphere, from the solution of the
    /// quadratic that the caller has computed in the sphere's space:
    /// `discriminant` is `b*b - 4*a*c`, and `t1` and `t2` are the roots
    /// `(-b - sqrt(discriminant)) / (2*a)` and `(-b + sqrt(discriminant)) / (2*a)`.
    /// A negative discriminant is a miss. Otherwise there are two
    /// intersections, `t1` first, even where the two are equal.
    pub fn intersects(&self, discriminant: Scalar, t1: Scalar, t2: Scalar) -> (r: Vec<Intersection>)
        ensures
            discriminant.lt_spec(Scalar { bits: 0 }) ==> r@ == Seq::<Intersection>::empty(),
            !discriminant.lt_spec(Scalar { bits: 0 }) ==> r@ == seq![
                (Intersection { object_id: self.id_spec(), t: t1 }),
                (Intersection { object_id: self.id_spec(), t: t2 }),
            ],
    {
        let mut r: Vec<Intersection> = Vec::new();
        if discriminant.lt(Scalar::zero()) {
            return r;
        }
        r.push(Intersection { object_id: self.id, t: t1 });
        r.push(Intersection { object_id: self.id, t: t2 });
        assert(r@ =~= seq![
            (Intersection { object_id: self.id_spec(), t: t1 }),
            (Intersection { object_id: self.id_spec(), t: t2 }),
        ]);
        r
    }
}

} // verus!
