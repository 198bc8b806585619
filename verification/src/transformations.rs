//! The 4 by 4 matrices of the affine transforms. A transform is applied by
//! multiplying a tuple from the left; of a product, the right factor acts
//! first.

use vstd::prelude::*;
use crate::matrix::M;
use crate::scalar::{Scalar, ONE_BITS};

verus! {

/// `1.0`, for the layouts below.
pub open spec fn one() -> Scalar {
    Scalar { bits: ONE_BITS }
}

/// `0.0`, for the layouts below.
pub open spec fn zero() -> Scalar {
    Scalar { bits: 0 }
}

/// The matrix with the four given rows.
fn from_rows(r0: Vec<Scalar>, r1: Vec<Scalar>, r2: Vec<Scalar>, r3: Vec<Scalar>) -> (m: M)
    requires
        r0@.len() == 4,
        r1@.len() == 4,
        r2@.len() == 4,
        r3@.len() == 4,
    ensures
        m.wf(),
        m.rows == 4,
        m.columns == 4,
        m@ == seq![r0@, r1@, r2@, r3@],
{
    let mut data: Vec<Vec<Scalar>> = Vec::new();
    data.push(r0);
    data.push(r1);
    data.push(r2);
    data.push(r3);
    let m = M { data, rows: 4, columns: 4 };
    assert(m@ =~= seq![r0@, r1@, r2@, r3@]);
    m
}

/// One row of four entries.
fn row_of(a: Scalar, b: Scalar, c: Scalar, d: Scalar) -> (r: Vec<Scalar>)
    ensures
        r@ == seq![a, b, c, d],
{
    let mut r: Vec<Scalar> = Vec::new();
    r.push(a);
    r.push(b);
    r.push(c);
    r.push(d);
    assert(r@ =~= seq![a, b, c, d]);
    r
}

/// Moves a point by `(x, y, z)`; leaves a direction as it is.
pub fn translation(x: Scalar, y: Scalar, z: Scalar) -> (m: M)
    ensures
        m.wf(),
        m.rows == 4,
        m.columns == 4,
        m@ == seq![
            seq![one(), zero(), zero(), x],
            seq![zero(), one(), zero(), y],
            seq![zero(), zero(), one(), z],
            seq![zero(), zero(), zero(), one()],
        ],
{
    let o = Scalar::one();
    let n = Scalar::zero();
    from_rows(row_of(o, n, n, x), row_of(n, o, n, y), row_of(n, n, o, z), row_of(n, n, n, o))
}

/// Scales by `x`, `y` and `z` along the axes.
pub fn scaling(x: Scalar, y: Scalar, z: Scalar) -> (m: M)
    ensures
        m.wf(),
        m.rows == 4,
        m.columns == 4,
        m@ == seq![
            seq![x, zero(), zero(), zero()],
            seq![zero(), y, zero(), zero()],
            seq![zero(), zero(), z, zero()],
            seq![zero(), zero(), zero(), one()],
        ],
{
    let o = Scalar::one();
    let n = Scalar::zero();
    from_rows(row_of(x, n, n, n), row_of(n, y, n, n), row_of(n, n, z, n), row_of(n, n, n, o))
}

/// Turns about the x axis by the angle whose cosine and sine are given.
pub fn rotation_x(cos: Scalar, sin: Scalar) -> (m: M)
    ensures
        m.wf(),
        m.rows == 4,
        m.columns == 4,
        m@ == seq![
            seq![one(), zero(), zero(), zero()],
            seq![zero(), cos, sin.neg_spec(), zero()],
            seq![zero(), sin, cos, zero()],
            seq![zero(), zero(), zero(), one()],
        ],
{
    let o = Scalar::one();
    let n = Scalar::zero();
    from_rows(
        row_of(o, n, n, n),
        row_of(n, cos, sin.neg(), n),
        row_of(n, sin, cos, n),
        row_of(n, n, n, o),
    )
}

/// Turns about the y axis by the angle whose cosine and sine are given.
pub fn rotation_y(cos: Scalar, sin: Scalar) -> (m: M)
    ensures
        m.wf(),
        m.rows == 4,
        m.columns == 4,
        m@ == seq![
            seq![cos, zero(), sin, zero()],
            seq![zero(), one(), zero(), zero()],
            seq![sin.neg_spec(), zero(), cos, zero()],
            seq![zero(), zero(), zero(), one()],
        ],
{
    let o = Scalar::one();
    let n = Scalar::zero();
    from_rows(
        row_of(cos, n, sin, n),
        row_of(n, o, n, n),
        row_of(sin.neg(), n, cos, n),
        row_of(n, n, n, o),
    )
}

/// Turns about the z axis by the angle whose cosine and sine are given.
pub fn rotation_z(cos: Scalar, sin: Scalar) -> (m: M)
    ensures
        m.wf(),
        m.rows == 4,
        m.columns == 4,
        m@ == seq![
            seq![cos, sin.neg_spec(), zero(), zero()],
            seq![sin, cos, zero(), zero()],
            seq![zero(), zero(), one(), zero()],
            seq![zero(), zero(), zero(), one()],
        ],
{
    let o = Scalar::one();
    let n = Scalar::zero();
    from_rows(
        row_of(cos, sin.neg(), n, n),
        row_of(sin, cos, n, n),
        row_of(n, n, o, n),
        row_of(n, n, n, o),
    )
}

/// Moves each coordinate in proportion to the two others: `x_y` is how far
/// `x` moves per unit of `y`, and so on.
pub fn shearing(x_y: Scalar, x_z: Scalar, y_x: Scalar, y_z: Scalar, z_x: Scalar, z_y: Scalar) -> (m: M)
    ensures
        m.wf(),
        m.rows == 4,
        m.columns == 4,
        m@ == seq![
            seq![one(), x_y, x_z, zero()],
            seq![y_x, one(), y_z, zero()],
            seq![z_x, z_y, one(), zero()],
            seq![zero(), zero(), zero(), one()],
        ],
{
    let o = Scalar::one();
    let n = Scalar::zero();
    from_rows(
        row_of(o, x_y, x_z, n),
        row_of(y_x, o, y_z, n),
        row_of(z_x, z_y, o, n),
        row_of(n, n, n, o),
    )
}

} // verus!
