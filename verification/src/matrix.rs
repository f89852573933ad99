//! Dense matrices and vectors over a [`Scalar`], with the operations the
//! estimator is built from.

use vstd::prelude::*;
use crate::scalar::{Scalar, zero, one};
use crate::linalg::{
    ncols, rectangular, has_shape, column, dot_upto, dot, vec_add, vec_sub, mat_add, mat_sub, transpose,
    mat_vec, mat_mul, identity,
};
use crate::inverse::{inverse, invert_rows};

verus! {

/// The rows of a nested vector, each as a sequence.
pub open spec fn grid<T>(rows: Vec<Vec<T>>) -> Seq<Seq<T>> {
    Seq::new(rows@.len(), |i: int| rows@[i]@)
}

/// The inner product of two vectors of the same length.
pub fn dot_product<T: Scalar>(a: &Vec<T>, b: &Vec<T>) -> (r: T)
    requires
        a@.len() == b@.len(),
    ensures
        r == dot(a@, b@),
{
    let mut acc = T::from_int(0);
    let mut k: usize = 0;
    while k < a.len()
        invariant
            k <= a@.len(),
            a@.len() == b@.len(),
            acc == dot_upto(a@, b@, k as nat),
        decreases a@.len() - k,
    {
        acc = acc.plus(&a[k].times(&b[k]));
        k += 1;
    }
    acc
}

/// The entrywise sum of two vectors of the same length.
pub fn vector_sum<T: Scalar>(a: &Vec<T>, b: &Vec<T>) -> (r: Vec<T>)
    requires
        a@.len() == b@.len(),
    ensures
        r@ == vec_add(a@, b@),
{
    let mut out: Vec<T> = Vec::new();
    let mut k: usize = 0;
    while k < a.len()
        invariant
            k <= a@.len(),
            a@.len() == b@.len(),
            out@.len() == k,
            forall|l: int| 0 <= l < k ==> #[trigger] out@[l] == a@[l].add_spec(b@[l]),
        decreases a@.len() - k,
    {
        out.push(a[k].plus(&b[k]));
        k += 1;
    }
    proof {
        assert(out@ =~= vec_add(a@, b@));
    }
    out
}

/// The entrywise difference of two vectors of the same length.
pub fn vector_difference<T: Scalar>(a: &Vec<T>, b: &Vec<T>) -> (r: Vec<T>)
    requires
        a@.len() == b@.len(),
    ensures
        r@ == vec_sub(a@, b@),
{
    let mut out: Vec<T> = Vec::new();
    let mut k: usize = 0;
    while k < a.len()
        invariant
            k <= a@.len(),
            a@.len() == b@.len(),
            out@.len() == k,
            forall|l: int| 0 <= l < k ==> #[trigger] out@[l] == a@[l].sub_spec(b@[l]),
        decreases a@.len() - k,
    {
        out.push(a[k].minus(&b[k]));
        k += 1;
    }
    proof {
        assert(out@ =~= vec_sub(a@, b@));
    }
    out
}

/// A copy of a vector.
pub fn copy_vector<T: Copy>(a: &Vec<T>) -> (r: Vec<T>)
    ensures
        r@ == a@,
{
    let mut out: Vec<T> = Vec::new();
    let mut k: usize = 0;
    while k < a.len()
        invariant
            k <= a@.len(),
            out@.len() == k,
            forall|l: int| 0 <= l < k ==> #[trigger] out@[l] == a@[l],
        decreases a@.len() - k,
    {
        out.push(a[k]);
        k += 1;
    }
    proof {
        assert(out@ =~= a@);
    }
    out
}

/// A copy of a nested vector.
pub(crate) fn copy_rows<T: Copy>(a: &Vec<Vec<T>>) -> (r: Vec<Vec<T>>)
    ensures
        grid(r) == grid(*a),
{
    let mut out: Vec<Vec<T>> = Vec::new();
    let mut i: usize = 0;
    while i < a.len()
        invariant
            i <= a@.len(),
            out@.len() == i,
            forall|k: int| 0 <= k < i ==> (#[trigger] out@[k])@ == a@[k]@,
        decreases a@.len() - i,
    {
        out.push(copy_vector(&a[i]));
        i += 1;
    }
    proof {
        assert(grid(out) =~= grid(*a));
    }
    out
}

/// The columns of `a` as rows.
pub(crate) fn transpose_rows<T: Copy>(a: &Vec<Vec<T>>) -> (r: Vec<Vec<T>>)
    requires
        rectangular(grid(*a)),
    ensures
        grid(r) == transpose(grid(*a)),
{
    let n = a.len();
    let c = if n == 0 {
        0
    } else {
        a[0].len()
    };
    let mut out: Vec<Vec<T>> = Vec::new();
    let mut j: usize = 0;
    while j < c
        invariant
            j <= c,
            n == a@.len(),
            c == ncols(grid(*a)),
            rectangular(grid(*a)),
            out@.len() == j,
            forall|l: int| 0 <= l < j ==> (#[trigger] out@[l])@ == column(grid(*a), l),
        decreases c - j,
    {
        let mut col: Vec<T> = Vec::new();
        let mut i: usize = 0;
        while i < n
            invariant
                i <= n,
                j < c,
                n == a@.len(),
                c == ncols(grid(*a)),
                rectangular(grid(*a)),
                col@.len() == i,
                forall|k: int| 0 <= k < i ==> #[trigger] col@[k] == a@[k]@[j as int],
            decreases n - i,
        {
            assert(grid(*a)[i as int].len() == c);
            col.push(a[i][j]);
            i += 1;
        }
        proof {
            assert(col@ =~= column(grid(*a), j as int));
        }
        out.push(col);
        j += 1;
    }
    proof {
        assert(grid(out) =~= transpose(grid(*a)));
    }
    out
}

/// The inner products of `v` with each row of `a`.
pub(crate) fn rows_times_vector<T: Scalar>(a: &Vec<Vec<T>>, v: &Vec<T>) -> (r: Vec<T>)
    requires
        forall|i: int| 0 <= i < a@.len() ==> (#[trigger] a@[i])@.len() == v@.len(),
    ensures
        r@ == mat_vec(grid(*a), v@),
{
    let mut out: Vec<T> = Vec::new();
    let mut i: usize = 0;
    while i < a.len()
        invariant
            i <= a@.len(),
            forall|k: int| 0 <= k < a@.len() ==> (#[trigger] a@[k])@.len() == v@.len(),
            out@.len() == i,
            forall|k: int| 0 <= k < i ==> #[trigger] out@[k] == dot(a@[k]@, v@),
        decreases a@.len() - i,
    {
        out.push(dot_product(&a[i], v));
        i += 1;
    }
    proof {
        assert(out@ =~= mat_vec(grid(*a), v@));
    }
    out
}

/// The inner products of `v` with each row of `bt`, `v` on the left.
fn vector_times_rows<T: Scalar>(v: &Vec<T>, bt: &Vec<Vec<T>>) -> (r: Vec<T>)
    requires
        forall|j: int| 0 <= j < bt@.len() ==> v@.len() == (#[trigger] bt@[j])@.len(),
    ensures
        r@.len() == bt@.len(),
        forall|j: int| 0 <= j < bt@.len() ==> #[trigger] r@[j] == dot(v@, bt@[j]@),
{
    let mut out: Vec<T> = Vec::new();
    let mut j: usize = 0;
    while j < bt.len()
        invariant
            j <= bt@.len(),
            forall|l: int| 0 <= l < bt@.len() ==> v@.len() == (#[trigger] bt@[l])@.len(),
            out@.len() == j,
            forall|l: int| 0 <= l < j ==> #[trigger] out@[l] == dot(v@, bt@[l]@),
        decreases bt@.len() - j,
    {
        out.push(dot_product(v, &bt[j]));
        j += 1;
    }
    out
}

/// The product of two grids.
pub(crate) fn product_rows<T: Scalar>(a: &Vec<Vec<T>>, b: &Vec<Vec<T>>) -> (r: Vec<Vec<T>>)
    requires
        rectangular(grid(*b)),
        forall|i: int| 0 <= i < a@.len() ==> (#[trigger] a@[i])@.len() == b@.len(),
    ensures
        grid(r) == mat_mul(grid(*a), grid(*b)),
{
    let bt = transpose_rows(b);
    let mut out: Vec<Vec<T>> = Vec::new();
    let mut i: usize = 0;
    while i < a.len()
        invariant
            i <= a@.len(),
            grid(bt) == transpose(grid(*b)),
            forall|k: int| 0 <= k < a@.len() ==> (#[trigger] a@[k])@.len() == b@.len(),
            out@.len() == i,
            forall|k: int|
                0 <= k < i ==> (#[trigger] out@[k])@ == mat_mul(grid(*a), grid(*b))[k],
        decreases a@.len() - i,
    {
        proof {
            assert(grid(bt).len() == bt@.len());
            assert(transpose(grid(*b)).len() == ncols(grid(*b)));
            assert forall|j: int| 0 <= j < bt@.len() implies a@[i as int]@.len() == (
            #[trigger] bt@[j])@.len() by {
                assert(bt@[j]@ == grid(bt)[j]);
                assert(grid(bt)[j] == column(grid(*b), j));
            }
        }
        let row = vector_times_rows(&a[i], &bt);
        proof {
            assert forall|j: int| 0 <= j < row@.len() implies #[trigger] row@[j] == dot(
                a@[i as int]@,
                column(grid(*b), j),
            ) by {
                assert(bt@[j]@ == grid(bt)[j]);
            }
            assert(row@ =~= mat_mul(grid(*a), grid(*b))[i as int]);
        }
        out.push(row);
        i += 1;
    }
    proof {
        assert(grid(out) =~= mat_mul(grid(*a), grid(*b)));
    }
    out
}

/// The rows of the identity matrix of size `n`.
pub(crate) fn identity_rows<T: Scalar>(n: usize) -> (rows: Vec<Vec<T>>)
    ensures
        grid(rows) == identity::<T>(n as nat),
{
    let mut rows: Vec<Vec<T>> = Vec::new();
    let mut i: usize = 0;
    while i < n
        invariant
            i <= n,
            rows@.len() == i,
            forall|k: int| 0 <= k < i ==> (#[trigger] rows@[k])@ == identity::<T>(n as nat)[k],
        decreases n - i,
    {
        let mut row: Vec<T> = Vec::new();
        let mut j: usize = 0;
        while j < n
            invariant
                j <= n,
                i < n,
                row@.len() == j,
                forall|l: int|
                    0 <= l < j ==> #[trigger] row@[l] == (if i == l {
                        one::<T>()
                    } else {
                        zero::<T>()
                    }),
            decreases n - j,
        {
            let v = if i == j {
                T::from_int(1)
            } else {
                T::from_int(0)
            };
            row.push(v);
            j += 1;
        }
        proof {
            assert(row@ =~= identity::<T>(n as nat)[i as int]);
        }
        rows.push(row);
        i += 1;
    }
    proof {
        assert(grid(rows) =~= identity::<T>(n as nat));
    }
    rows
}

/// A dense matrix: rows of equal length.
#[derive(Debug, PartialEq)]
pub struct Matrix<T> {
    rows: Vec<Vec<T>>,
}

impl<T> View for Matrix<T> {
    type V = Seq<Seq<T>>;

    closed spec fn view(&self) -> Seq<Seq<T>> {
        grid(self.rows)
    }
}

impl<T> Matrix<T> {
    #[verifier::type_invariant]
    spec fn well_formed(self) -> bool {
        rectangular(grid(self.rows))
    }

    /// The matrix with the given rows, if they all have the same length.
    pub fn from_rows(rows: Vec<Vec<T>>) -> (r: Option<Matrix<T>>)
        ensures
            r.is_some() == rectangular(grid(rows)),
            r matches Some(m) ==> m@ == grid(rows),
    {
        let n = rows.len();
        if n > 0 {
            let c = rows[0].len();
            let mut i: usize = 1;
            while i < n
                invariant
                    1 <= i <= n,
                    n == rows@.len(),
                    c == rows@[0]@.len(),
                    forall|k: int| 0 <= k < i ==> (#[trigger] rows@[k])@.len() == c,
                decreases n - i,
            {
                if rows[i].len() != c {
                    proof {
                        assert(grid(rows)[i as int].len() != ncols(grid(rows)));
                    }
                    return None;
                }
                i += 1;
            }
            proof {
                assert forall|k: int| 0 <= k < grid(rows).len() implies (#[trigger] grid(
                    rows,
                )[k]).len() == ncols(grid(rows)) by {
                    assert(rows@[k]@.len() == c);
                }
            }
        }
        Some(Matrix { rows })
    }

    /// The number of rows.
    pub fn nrows(&self) -> (n: usize)
        ensures
            n == self@.len(),
    {
        self.rows.len()
    }

    /// Whether the matrix has `r` rows of `c` entries each.
    pub fn is_shape(&self, r: usize, c: usize) -> (b: bool)
        ensures
            b == has_shape(self@, r as nat, c as nat),
            rectangular(self@),
    {
        proof {
            use_type_invariant(self);
        }
        if self.rows.len() != r {
            false
        } else if r == 0 {
            true
        } else {
            proof {
                if self.rows@[0]@.len() == c {
                    assert forall|i: int| 0 <= i < self@.len() implies (#[trigger] self@[i]).len()
                        == c by {
                        assert(grid(self.rows)[i].len() == ncols(grid(self.rows)));
                    }
                } else {
                    assert(self@[0].len() != c);
                }
            }
            self.rows[0].len() == c
        }
    }

    /// The number of columns; every row has that many entries.
    pub fn ncols(&self) -> (c: usize)
        ensures
            c == ncols(self@),
            rectangular(self@),
    {
        proof {
            use_type_invariant(self);
        }
        if self.rows.len() == 0 {
            0
        } else {
            self.rows[0].len()
        }
    }
}

impl<T: Copy> Clone for Matrix<T> {
    fn clone(&self) -> (r: Self)
        ensures
            r@ == self@,
    {
        proof {
            use_type_invariant(self);
        }
        Matrix { rows: copy_rows(&self.rows) }
    }
}

impl<T: Copy> Matrix<T> {
    /// The entry in row `i` and column `j`, if there is one.
    pub fn get(&self, i: usize, j: usize) -> (r: Option<T>)
        ensures
            r == if i < self@.len() && j < self@[i as int].len() {
                Some(self@[i as int][j as int])
            } else {
                None
            },
    {
        if i < self.rows.len() && j < self.rows[i].len() {
            Some(self.rows[i][j])
        } else {
            None
        }
    }

    /// The rows of the matrix, copied out.
    pub fn to_rows(&self) -> (r: Vec<Vec<T>>)
        ensures
            grid(r) == self@,
    {
        copy_rows(&self.rows)
    }

    /// The transpose of the matrix.
    pub fn transpose(&self) -> (r: Matrix<T>)
        ensures
            r@ == transpose(self@),
    {
        proof {
            use_type_invariant(self);
        }
        let rows = transpose_rows(&self.rows);
        proof {
            assert(rectangular(grid(rows))) by {
                assert forall|j: int| 0 <= j < grid(rows).len() implies (#[trigger] grid(
                    rows,
                )[j]).len() == ncols(grid(rows)) by {
                    assert(grid(rows)[j] == column(grid(self.rows), j));
                    assert(grid(rows)[0] == column(grid(self.rows), 0));
                }
            }
        }
        Matrix { rows }
    }
}

impl<T: Scalar> Matrix<T> {
    /// The identity matrix of size `n`.
    pub fn identity(n: usize) -> (r: Matrix<T>)
        ensures
            r@ == identity::<T>(n as nat),
    {
        let rows = identity_rows::<T>(n);
        proof {
            assert(rectangular(grid(rows)));
        }
        Matrix { rows }
    }

    /// The inverse of a square matrix by Gauss-Jordan elimination, or `None`
    /// where some column offers no usable pivot.
    pub fn inverse(&self) -> (r: Option<Matrix<T>>)
        requires
            ncols(self@) == self@.len(),
        ensures
            r matches Some(m) ==> inverse(self@) == Some(m@) && has_shape(
                m@,
                self@.len(),
                self@.len(),
            ),
            r is None ==> inverse(self@) is None,
    {
        proof {
            use_type_invariant(self);
        }
        match invert_rows(&self.rows) {
            None => None,
            Some(rows) => {
                proof {
                    assert(rectangular(grid(rows)));
                }
                Some(Matrix { rows })
            },
        }
    }

    /// The entrywise sum of two matrices of the same shape.
    pub fn plus(&self, rhs: &Matrix<T>) -> (r: Matrix<T>)
        requires
            self@.len() == rhs@.len(),
            ncols(self@) == ncols(rhs@),
        ensures
            r@ == mat_add(self@, rhs@),
    {
        proof {
            use_type_invariant(self);
            use_type_invariant(rhs);
        }
        let mut rows: Vec<Vec<T>> = Vec::new();
        let mut i: usize = 0;
        while i < self.rows.len()
            invariant
                i <= self.rows@.len(),
                self.rows@.len() == rhs.rows@.len(),
                rectangular(grid(self.rows)),
                rectangular(grid(rhs.rows)),
                ncols(grid(self.rows)) == ncols(grid(rhs.rows)),
                rows@.len() == i,
                forall|k: int|
                    0 <= k < i ==> (#[trigger] rows@[k])@ == vec_add(
                        self.rows@[k]@,
                        rhs.rows@[k]@,
                    ),
            decreases self.rows@.len() - i,
        {
            proof {
                assert(grid(self.rows)[i as int].len() == ncols(grid(self.rows)));
                assert(grid(rhs.rows)[i as int].len() == ncols(grid(rhs.rows)));
            }
            rows.push(vector_sum(&self.rows[i], &rhs.rows[i]));
            i += 1;
        }
        proof {
            assert(grid(rows) =~= mat_add(grid(self.rows), grid(rhs.rows)));
            assert forall|k: int| 0 <= k < grid(rows).len() implies (#[trigger] grid(
                rows,
            )[k]).len() == ncols(grid(rows)) by {
                assert(grid(self.rows)[k].len() == ncols(grid(self.rows)));
                assert(grid(self.rows)[0].len() == ncols(grid(self.rows)));
            }
        }
        Matrix { rows }
    }

    /// The entrywise difference of two matrices of the same shape.
    pub fn minus(&self, rhs: &Matrix<T>) -> (r: Matrix<T>)
        requires
            self@.len() == rhs@.len(),
            ncols(self@) == ncols(rhs@),
        ensures
            r@ == mat_sub(self@, rhs@),
    {
        proof {
            use_type_invariant(self);
            use_type_invariant(rhs);
        }
        let mut rows: Vec<Vec<T>> = Vec::new();
        let mut i: usize = 0;
        while i < self.rows.len()
            invariant
                i <= self.rows@.len(),
                self.rows@.len() == rhs.rows@.len(),
                rectangular(grid(self.rows)),
                rectangular(grid(rhs.rows)),
                ncols(grid(self.rows)) == ncols(grid(rhs.rows)),
                rows@.len() == i,
                forall|k: int|
                    0 <= k < i ==> (#[trigger] rows@[k])@ == vec_sub(
                        self.rows@[k]@,
                        rhs.rows@[k]@,
                    ),
            decreases self.rows@.len() - i,
        {
            proof {
                assert(grid(self.rows)[i as int].len() == ncols(grid(self.rows)));
                assert(grid(rhs.rows)[i as int].len() == ncols(grid(rhs.rows)));
            }
            rows.push(vector_difference(&self.rows[i], &rhs.rows[i]));
            i += 1;
        }
        proof {
            assert(grid(rows) =~= mat_sub(grid(self.rows), grid(rhs.rows)));
            assert forall|k: int| 0 <= k < grid(rows).len() implies (#[trigger] grid(
                rows,
            )[k]).len() == ncols(grid(rows)) by {
                assert(grid(self.rows)[k].len() == ncols(grid(self.rows)));
                assert(grid(self.rows)[0].len() == ncols(grid(self.rows)));
            }
        }
        Matrix { rows }
    }

    /// The product of two matrices, the first with as many columns as the
    /// second has rows.
    pub fn times(&self, rhs: &Matrix<T>) -> (r: Matrix<T>)
        requires
            ncols(self@) == rhs@.len(),
        ensures
            r@ == mat_mul(self@, rhs@),
    {
        proof {
            use_type_invariant(self);
            use_type_invariant(rhs);
            assert forall|i: int| 0 <= i < self.rows@.len() implies (#[trigger] self.rows@[i])@.len()
                == rhs.rows@.len() by {
                assert(grid(self.rows)[i].len() == ncols(grid(self.rows)));
            }
        }
        let rows = product_rows(&self.rows, &rhs.rows);
        proof {
            assert(rectangular(grid(rows)));
        }
        Matrix { rows }
    }

    /// The product of the matrix and a vector with as many entries as the
    /// matrix has columns.
    pub fn times_vector(&self, v: &Vec<T>) -> (r: Vec<T>)
        requires
            ncols(self@) == v@.len(),
        ensures
            r@ == mat_vec(self@, v@),
    {
        proof {
            use_type_invariant(self);
            assert forall|i: int| 0 <= i < self.rows@.len() implies (#[trigger] self.rows@[i])@.len()
                == v@.len() by {
                assert(grid(self.rows)[i].len() == ncols(grid(self.rows)));
            }
        }
        rows_times_vector(&self.rows, v)
    }
}

} // verus!
