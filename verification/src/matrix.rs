//! Small rectangular matrices of binary64 numbers: shape, access and
//! rearrangement. Nothing here rounds, so every entry of a result is an entry
//! or a sign flip of an argument.

use vstd::prelude::*;
use crate::scalar::{Scalar, ONE_BITS};
use crate::vectors::Tuple;

verus! {

/// The rows of a nested vector, each as a sequence.
pub open spec fn grid_of(data: Vec<Vec<Scalar>>) -> Seq<Seq<Scalar>> {
    Seq::new(data@.len(), |i: int| data@[i]@)
}

/// Whether every row of `grid` has `columns` entries.
pub open spec fn rectangular(grid: Seq<Seq<Scalar>>, columns: int) -> bool {
    forall|i: int| 0 <= i < grid.len() ==> (#[trigger] grid[i]).len() == columns
}

/// Why `grid` cannot become a matrix, if it cannot: the message that
/// construction fails with. The checks are made in this order.
pub open spec fn rejection(grid: Seq<Seq<Scalar>>) -> Option<Seq<char>> {
    if grid.len() < 1 {
        Some("Cant have empty matrix!"@)
    } else if grid[0].len() < 1 {
        Some("Cant have empty matrix!"@)
    } else if grid[0].len() > 4 || grid.len() > 4 {
        Some("Right now only 4x4 matrices are supported, sorry!"@)
    } else if !rectangular(grid, grid[0].len() as int) {
        Some("Illegal matrix size"@)
    } else {
        None
    }
}

/// `grid` without row `row` and without entry `col` of each remaining row.
pub open spec fn submatrix_spec(grid: Seq<Seq<Scalar>>, row: int, col: int) -> Seq<Seq<Scalar>> {
    Seq::new(
        (grid.len() - 1) as nat,
        |i: int|
            {
                let source = grid[if i < row { i } else { i + 1 }];
                Seq::new(
                    (source.len() - 1) as nat,
                    |j: int| source[if j < col { j } else { j + 1 }],
                )
            },
    )
}

/// The grid whose entry `[j][i]` is entry `[i][j]` of a `rows` by `columns` grid.
pub open spec fn transpose_spec(grid: Seq<Seq<Scalar>>, rows: nat, columns: nat) -> Seq<Seq<Scalar>> {
    Seq::new(columns, |j: int| Seq::new(rows, |i: int| grid[i][j]))
}

/// A minor with the sign of its place: kept where `row + col` is even,
/// negated where it is odd.
pub open spec fn cofactor_spec(minor: Scalar, row: int, col: int) -> Scalar {
    if (row + col) % 2 == 1 {
        minor.neg_spec()
    } else {
        minor
    }
}

#[derive(Debug, Clone)]
pub struct M {
    pub data: Vec<Vec<Scalar>>,
    pub rows: usize,
    pub columns: usize,
}

impl View for M {
    type V = Seq<Seq<Scalar>>;

    open spec fn view(&self) -> Seq<Seq<Scalar>> {
        grid_of(self.data)
    }
}

impl M {
    /// The recorded dimensions are those of the entries.
    pub open spec fn wf(&self) -> bool {
        &&& self@.len() == self.rows
        &&& rectangular(self@, self.columns as int)
    }

    /// Takes the entries row by row. Accepts from one to four rows of one to
    /// four entries, all rows of one length.
    pub fn new(data: Vec<Vec<Scalar>>) -> (r: Result<M, String>)
        ensures
            match r {
                Ok(m) => {
                    &&& rejection(grid_of(data)) is None
                    &&& m@ == grid_of(data)
                    &&& m.rows == data@.len()
                    &&& m.columns == data@[0]@.len()
                    &&& m.wf()
                },
                Err(message) => rejection(grid_of(data)) == Some(message@),
            },
    {
        let rows: usize = data.len();
        if rows < 1 {
            return Err("Cant have empty matrix!".to_owned());
        }
        let columns: usize = data[0].len();
        if columns < 1 {
            return Err("Cant have empty matrix!".to_owned());
        }
        if columns > 4 || rows > 4 {
            return Err("Right now only 4x4 matrices are supported, sorry!".to_owned());
        }
        let mut i: usize = 0;
        while i < rows
            invariant
                rows == data@.len(),
                1 <= rows <= 4,
                columns == data@[0]@.len(),
                1 <= columns <= 4,
                0 <= i <= rows,
                forall|k: int| 0 <= k < i ==> (#[trigger] grid_of(data)[k]).len() == columns,
            decreases rows - i,
        {
            if data[i].len() != columns {
                assert(grid_of(data)[i as int].len() != columns);
                return Err("Illegal matrix size".to_owned());
            }
            i += 1;
        }
        Ok(M { data, columns, rows })
    }

    /// The `m` by `n` grid of `0.0`.
    pub open spec fn zeros_spec(m: nat, n: nat) -> Seq<Seq<Scalar>> {
        Seq::new(m, |i: int| Seq::new(n, |j: int| Scalar { bits: 0 }))
    }

    /// The `n` by `n` grid with `1.0` on the diagonal and `0.0` elsewhere.
    pub open spec fn ident_spec(n: nat) -> Seq<Seq<Scalar>> {
        Seq::new(
            n,
            |i: int|
                Seq::new(
                    n,
                    |j: int|
                        if i == j {
                            Scalar { bits: ONE_BITS }
                        } else {
                            Scalar { bits: 0 }
                        },
                ),
        )
    }

    /// An `m` by `n` matrix of `0.0`.
    pub fn empty_matrix(m: usize, n: usize) -> (r: M)
        ensures
            r.rows == m,
            r.columns == n,
            r.wf(),
            r@ == M::zeros_spec(m as nat, n as nat),
    {
        let mut data: Vec<Vec<Scalar>> = Vec::new();
        let mut i: usize = 0;
        while i < m
            invariant
                0 <= i <= m,
                data@.len() == i,
                forall|k: int|
                    0 <= k < i ==> (#[trigger] data@[k])@ == Seq::new(
                        n as nat,
                        |j: int| Scalar { bits: 0 },
                    ),
            decreases m - i,
        {
            let mut row: Vec<Scalar> = Vec::new();
            let mut j: usize = 0;
            while j < n
                invariant
                    0 <= j <= n,
                    row@.len() == j,
                    forall|k: int| 0 <= k < j ==> (#[trigger] row@[k]).bits == 0,
                decreases n - j,
            {
                row.push(Scalar::zero());
                j += 1;
            }
            assert(row@ =~= Seq::new(n as nat, |j: int| Scalar { bits: 0 }));
            data.push(row);
            i += 1;
        }
        let r = M { data, columns: n, rows: m };
        assert(r@ =~= M::zeros_spec(m as nat, n as nat));
        r
    }

    /// The `n` by `n` identity: `1.0` on the diagonal, `0.0` elsewhere.
    pub fn ident(n: usize) -> (r: M)
        ensures
            r.rows == n,
            r.columns == n,
            r.wf(),
            r@ == M::ident_spec(n as nat),
    {
        let mut data: Vec<Vec<Scalar>> = Vec::new();
        let mut i: usize = 0;
        while i < n
            invariant
                0 <= i <= n,
                data@.len() == i,
                forall|k: int|
                    0 <= k < i ==> (#[trigger] data@[k])@ == Seq::new(
                        n as nat,
                        |j: int|
                            if k == j {
                                Scalar { bits: ONE_BITS }
                            } else {
                                Scalar { bits: 0 }
                            },
                    ),
            decreases n - i,
        {
            let mut row: Vec<Scalar> = Vec::new();
            let mut j: usize = 0;
            while j < n
                invariant
                    0 <= j <= n,
                    row@.len() == j,
                    forall|k: int|
                        0 <= k < j ==> (#[trigger] row@[k]).bits == if i == k {
                            ONE_BITS
                        } else {
                            0
                        },
                decreases n - j,
            {
                if i == j {
                    row.push(Scalar::one());
                } else {
                    row.push(Scalar::zero());
                }
                j += 1;
            }
            assert(row@ =~= Seq::new(
                n as nat,
                |j: int|
                    if i as int == j {
                        Scalar { bits: ONE_BITS }
                    } else {
                        Scalar { bits: 0 }
                    },
            ));
            data.push(row);
            i += 1;
        }
        let r = M { data, columns: n, rows: n };
        assert(r@ =~= M::ident_spec(n as nat));
        r
    }

    /// Column `n`, top to bottom.
    pub fn column(&self, n: usize) -> (r: Vec<Scalar>)
        requires
            self.wf(),
            n < self.columns,
        ensures
            r@ == Seq::new(self.rows as nat, |i: int| self@[i][n as int]),
    {
        let mut result: Vec<Scalar> = Vec::new();
        let mut i: usize = 0;
        while i < self.rows
            invariant
                self.wf(),
                n < self.columns,
                0 <= i <= self.rows,
                result@.len() == i,
                forall|k: int| 0 <= k < i ==> #[trigger] result@[k] == self@[k][n as int],
            decreases self.rows - i,
        {
            assert(self@[i as int].len() == self.columns);
            result.push(self.data[i][n]);
            i += 1;
        }
        assert(result@ =~= Seq::new(self.rows as nat, |i: int| self@[i][n as int]));
        result
    }

    /// Row `m`, left to right.
    pub fn row(&self, m: usize) -> (r: Vec<Scalar>)
        requires
            self.wf(),
            m < self.rows,
        ensures
            r@ == self@[m as int],
    {
        let mut result: Vec<Scalar> = Vec::new();
        let mut j: usize = 0;
        assert(self@[m as int].len() == self.columns);
        while j < self.columns
            invariant
                m < self.data@.len(),
                self.data@[m as int]@.len() == self.columns,
                0 <= j <= self.columns,
                result@.len() == j,
                forall|k: int| 0 <= k < j ==> #[trigger] result@[k] == self.data@[m as int]@[k],
            decreases self.columns - j,
        {
            result.push(self.data[m][j]);
            j += 1;
        }
        assert(result@ =~= self@[m as int]);
        result
    }

    /// Whether the recorded dimensions are those of the entries: what every
    /// other method asks of the matrix.
    pub fn well_formed(&self) -> (r: bool)
        ensures
            r == self.wf(),
    {
        if self.data.len() != self.rows {
            return false;
        }
        let mut i: usize = 0;
        while i < self.rows
            invariant
                self.data@.len() == self.rows,
                0 <= i <= self.rows,
                forall|k: int| 0 <= k < i ==> (#[trigger] self@[k]).len() == self.columns,
            decreases self.rows - i,
        {
            if self.data[i].len() != self.columns {
                assert(self@[i as int].len() != self.columns);
                return false;
            }
            i += 1;
        }
        true
    }

    pub fn get(&self, i: usize, j: usize) -> (x: Scalar)
        requires
            self.wf(),
            i < self.rows,
            j < self.columns,
        ensures
            x == self@[i as int][j as int],
    {
        assert(self@[i as int].len() == self.columns);
        self.data[i][j]
    }

    pub fn set(&mut self, i: usize, j: usize, x: Scalar)
        requires
            old(self).wf(),
            i < old(self).rows,
            j < old(self).columns,
        ensures
            final(self)@ == old(self)@.update(i as int, old(self)@[i as int].update(j as int, x)),
            final(self).rows == old(self).rows,
            final(self).columns == old(self).columns,
            final(self).wf(),
    {
        assert(self@[i as int].len() == self.columns);
        self.data[i][j] = x;
        assert(self@ =~= old(self)@.update(i as int, old(self)@[i as int].update(j as int, x)));
    }

    /// The matrix whose entry `[j][i]` is entry `[i][j]` of this one.
    pub fn transpose(&self) -> (r: M)
        requires
            self.wf(),
        ensures
            r.rows == self.columns,
            r.columns == self.rows,
            r.wf(),
            r@ == transpose_spec(self@, self.rows as nat, self.columns as nat),
    {
        let mut data: Vec<Vec<Scalar>> = Vec::new();
        let mut j: usize = 0;
        while j < self.columns
            invariant
                self.wf(),
                0 <= j <= self.columns,
                data@.len() == j,
                forall|k: int|
                    0 <= k < j ==> (#[trigger] data@[k])@ == Seq::new(
                        self.rows as nat,
                        |i: int| self@[i][k],
                    ),
            decreases self.columns - j,
        {
            let column = self.column(j);
            data.push(column);
            j += 1;
        }
        let r = M { data, columns: self.rows, rows: self.columns };
        assert(r@ =~= transpose_spec(self@, self.rows as nat, self.columns as nat));
        r
    }

    /// This matrix without row `row` and column `col`.
    pub fn submatrix(&self, row: usize, col: usize) -> (r: M)
        requires
            self.wf(),
            row < self.rows,
            col < self.columns,
        ensures
            r.rows == self.rows - 1,
            r.columns == self.columns - 1,
            r.wf(),
            r@ == submatrix_spec(self@, row as int, col as int),
    {
        let mut data: Vec<Vec<Scalar>> = Vec::new();
        let mut i: usize = 0;
        while i < self.rows
            invariant
                self.wf(),
                row < self.rows,
                col < self.columns,
                0 <= i <= self.rows,
                data@.len() == if i <= row { i as int } else { i - 1 },
                forall|k: int|
                    0 <= k < data@.len() ==> (#[trigger] data@[k])@ == submatrix_spec(
                        self@,
                        row as int,
                        col as int,
                    )[k],
            decreases self.rows - i,
        {
            if i != row {
                assert(self@[i as int].len() == self.columns);
                let mut kept: Vec<Scalar> = Vec::new();
                let mut j: usize = 0;
                while j < self.columns
                    invariant
                        i < self.data@.len(),
                        self.data@[i as int]@.len() == self.columns,
                        col < self.columns,
                        0 <= j <= self.columns,
                        kept@.len() == if j <= col { j as int } else { j - 1 },
                        forall|k: int|
                            0 <= k < kept@.len() ==> #[trigger] kept@[k] == self.data@[i as int]@[if k
                                < col {
                                k
                            } else {
                                k + 1
                            }],
                    decreases self.columns - j,
                {
                    if j != col {
                        kept.push(self.data[i][j]);
                    }
                    j += 1;
                }
                assert(kept@ =~= submatrix_spec(self@, row as int, col as int)[data@.len() as int]);
                data.push(kept);
            }
            i += 1;
        }
        let r = M { data, columns: self.columns - 1, rows: self.rows - 1 };
        assert(r@ =~= submatrix_spec(self@, row as int, col as int));
        r
    }

    /// Gives the minor at `(row, col)`, computed by the caller, the sign of
    /// its place.
    pub fn cofactor(row: usize, col: usize, minor: Scalar) -> (r: Scalar)
        ensures
            r == cofactor_spec(minor, row as int, col as int),
    {
        if (row % 2) != (col % 2) {
            minor.neg()
        } else {
            minor
        }
    }

    /// Whether a matrix with determinant `det`, computed by the caller, can
    /// be inverted: `det` is not within the tolerance of zero.
    pub fn invertible(det: Scalar) -> (r: bool)
        ensures
            r == !det.near_zero_spec(),
    {
        !det.near_zero()
    }

    /// Whether the product `self * rhs` is defined: this matrix has as many
    /// columns as `rhs` has rows.
    pub fn can_multiply(&self, rhs: &M) -> (r: bool)
        ensures
            r == (self.columns == rhs.rows),
    {
        self.columns == rhs.rows
    }

    /// The tuple as a column of four rows, as it enters a product with a
    /// matrix.
    pub fn from_tuple(t: Tuple) -> (r: M)
        ensures
            r.rows == 4,
            r.columns == 1,
            r.wf(),
            r@ == seq![seq![t.x], seq![t.y], seq![t.z], seq![t.w]],
    {
        let mut data: Vec<Vec<Scalar>> = Vec::new();
        let mut x: Vec<Scalar> = Vec::new();
        x.push(t.x);
        let mut y: Vec<Scalar> = Vec::new();
        y.push(t.y);
        let mut z: Vec<Scalar> = Vec::new();
        z.push(t.z);
        let mut w: Vec<Scalar> = Vec::new();
        w.push(t.w);
        assert(x@ =~= seq![t.x] && y@ =~= seq![t.y] && z@ =~= seq![t.z] && w@ =~= seq![t.w]);
        data.push(x);
        data.push(y);
        data.push(z);
        data.push(w);
        let r = M { data, rows: 4, columns: 1 };
        assert(r@ =~= seq![seq![t.x], seq![t.y], seq![t.z], seq![t.w]]);
        r
    }

    /// The first column of a matrix of four rows as a tuple, as it leaves a
    /// product with a matrix.
    pub fn to_tuple(&self) -> (t: Tuple)
        requires
            self.wf(),
            self.rows >= 4,
            self.columns >= 1,
        ensures
            t == (Tuple { x: self@[0][0], y: self@[1][0], z: self@[2][0], w: self@[3][0] }),
    {
        Tuple::new(self.get(0, 0), self.get(1, 0), self.get(2, 0), self.get(3, 0))
    }
}

/// Transposing twice gives the grid back.
pub proof fn lemma_transpose_twice(grid: Seq<Seq<Scalar>>, rows: nat, columns: nat)
    requires
        grid.len() == rows,
        rectangular(grid, columns as int),
    ensures
        transpose_spec(transpose_spec(grid, rows, columns), columns, rows) == grid,
{
    let back = transpose_spec(transpose_spec(grid, rows, columns), columns, rows);
    assert forall|i: int| 0 <= i < rows implies #[trigger] back[i] == grid[i] by {
        assert(grid[i].len() == columns);
        assert(back[i] =~= grid[i]);
    }
    assert(back =~= grid);
}

/// The sign of a place alternates like a chessboard: the cofactor is the
/// minor where `row + col` is even and the negated minor where it is odd.
pub proof fn lemma_cofactor_sign(minor: Scalar, row: nat, col: nat)
    ensures
        (row + col) % 2 == 0 ==> cofactor_spec(minor, row as int, col as int) == minor,
        (row + col) % 2 == 1 ==> cofactor_spec(minor, row as int, col as int) == minor.neg_spec(),
        cofactor_spec(cofactor_spec(minor, row as int, col as int), row as int, col as int) == minor,
{
}

} // verus!
