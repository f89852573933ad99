//! Vectors and matrices as mathematical values.
//!
//! A vector is a sequence of scalars.  A matrix is a sequence of rows of equal
//! length; a matrix without rows has no columns either.

use vstd::prelude::*;
use crate::scalar::{Scalar, zero, one};

verus! {

/// The number of columns of a matrix.
pub open spec fn ncols<T>(a: Seq<Seq<T>>) -> nat {
    if a.len() == 0 {
        0
    } else {
        a[0].len()
    }
}

/// All rows of `a` have the same length.
pub open spec fn rectangular<T>(a: Seq<Seq<T>>) -> bool {
    forall|i: int| 0 <= i < a.len() ==> (#[trigger] a[i]).len() == ncols(a)
}

/// `a` has `r` rows of `c` entries each.
pub open spec fn has_shape<T>(a: Seq<Seq<T>>, r: nat, c: nat) -> bool {
    &&& a.len() == r
    &&& forall|i: int| 0 <= i < a.len() ==> (#[trigger] a[i]).len() == c
}

/// `a` is a square matrix that equals its transpose.
pub open spec fn symmetric<T>(a: Seq<Seq<T>>) -> bool {
    &&& has_shape(a, a.len(), a.len())
    &&& forall|i: int, j: int|
        0 <= i < a.len() && 0 <= j < a.len() ==> (#[trigger] a[i][j]) == a[j][i]
}

/// Column `j` of `a`, read from the first row to the last.
pub open spec fn column<T>(a: Seq<Seq<T>>, j: int) -> Seq<T> {
    Seq::new(a.len(), |k: int| a[k][j])
}

/// The sum of the first `n` products `a[k] * b[k]`, added from the left,
/// starting from zero.
pub open spec fn dot_upto<T: Scalar>(a: Seq<T>, b: Seq<T>, n: nat) -> T
    decreases n,
{
    if n == 0 {
        zero::<T>()
    } else {
        dot_upto(a, b, (n - 1) as nat).add_spec(a[n - 1].mul_spec(b[n - 1]))
    }
}

/// The inner product of `a` and `b`, over the length of `a`.
pub open spec fn dot<T: Scalar>(a: Seq<T>, b: Seq<T>) -> T {
    dot_upto(a, b, a.len())
}

/// The entrywise sum of two vectors.
pub open spec fn vec_add<T: Scalar>(a: Seq<T>, b: Seq<T>) -> Seq<T> {
    Seq::new(a.len(), |k: int| a[k].add_spec(b[k]))
}

/// The entrywise difference of two vectors.
pub open spec fn vec_sub<T: Scalar>(a: Seq<T>, b: Seq<T>) -> Seq<T> {
    Seq::new(a.len(), |k: int| a[k].sub_spec(b[k]))
}

/// The entrywise sum of two matrices.
pub open spec fn mat_add<T: Scalar>(a: Seq<Seq<T>>, b: Seq<Seq<T>>) -> Seq<Seq<T>> {
    Seq::new(a.len(), |i: int| vec_add(a[i], b[i]))
}

/// The entrywise difference of two matrices.
pub open spec fn mat_sub<T: Scalar>(a: Seq<Seq<T>>, b: Seq<Seq<T>>) -> Seq<Seq<T>> {
    Seq::new(a.len(), |i: int| vec_sub(a[i], b[i]))
}

/// The transpose of a matrix: its columns as rows.
pub open spec fn transpose<T>(a: Seq<Seq<T>>) -> Seq<Seq<T>> {
    Seq::new(ncols(a), |j: int| column(a, j))
}

/// The product of a matrix and a vector.
pub open spec fn mat_vec<T: Scalar>(a: Seq<Seq<T>>, v: Seq<T>) -> Seq<T> {
    Seq::new(a.len(), |i: int| dot(a[i], v))
}

/// The product of two matrices: entry `(i, j)` is the inner product of row `i`
/// of `a` and column `j` of `b`.
pub open spec fn mat_mul<T: Scalar>(a: Seq<Seq<T>>, b: Seq<Seq<T>>) -> Seq<Seq<T>> {
    Seq::new(a.len(), |i: int| Seq::new(ncols(b), |j: int| dot(a[i], column(b, j))))
}

/// The identity matrix of size `n`.
pub open spec fn identity<T: Scalar>(n: nat) -> Seq<Seq<T>> {
    Seq::new(n, |i: int| Seq::new(n, |j: int| if i == j { one::<T>() } else { zero::<T>() }))
}

/// A product has the rows of its first factor and the columns of its second.
pub proof fn lemma_mul_shape<T: Scalar>(a: Seq<Seq<T>>, b: Seq<Seq<T>>)
    ensures
        has_shape(mat_mul(a, b), a.len(), ncols(b)),
{
}

/// A transpose has as many rows as the matrix has columns, each as long as
/// the matrix has rows.
pub proof fn lemma_transpose_shape<T>(a: Seq<Seq<T>>)
    ensures
        has_shape(transpose(a), ncols(a), a.len()),
{
}

/// A sum has the shape of its first term.
pub proof fn lemma_add_shape<T: Scalar>(a: Seq<Seq<T>>, b: Seq<Seq<T>>, r: nat, c: nat)
    requires
        has_shape(a, r, c),
    ensures
        has_shape(mat_add(a, b), r, c),
{
}

/// A difference has the shape of its first term.
pub proof fn lemma_sub_shape<T: Scalar>(a: Seq<Seq<T>>, b: Seq<Seq<T>>, r: nat, c: nat)
    requires
        has_shape(a, r, c),
    ensures
        has_shape(mat_sub(a, b), r, c),
{
}

/// The identity of size `n` is square.
pub proof fn lemma_identity_shape<T: Scalar>(n: nat)
    ensures
        has_shape(identity::<T>(n), n, n),
{
}

} // verus!
