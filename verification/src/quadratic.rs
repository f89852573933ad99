//! Products of matrices and vectors in exact arithmetic, and quadratic forms.

use vstd::prelude::*;
use crate::scalar::Scalar;
use crate::linalg::{
    ncols, has_shape, symmetric, column, dot, vec_add, vec_sub, mat_add, mat_sub,
    transpose, mat_vec, mat_mul, identity, lemma_mul_shape, lemma_transpose_shape,
};
use crate::exact::{
    exact_arithmetic, sum, row_of, column_of, row_sums, column_sums, lemma_add_commutes,
    lemma_mul_commutes, lemma_mul_associates, lemma_distributes, lemma_sub_distributes,
    lemma_sub_undoes_add, lemma_sub_unique, lemma_sum_congruence, lemma_sum_add, lemma_sum_sub,
    lemma_sum_scale, lemma_dot_as_sum, lemma_dot_unit, lemma_sum_by_rows_or_columns,
};

verus! {

/// The quadratic form of `m` at `v`: the inner product of `v` and `m v`.
pub open spec fn quad<T: Scalar>(m: Seq<Seq<T>>, v: Seq<T>) -> T {
    dot(v, mat_vec(m, v))
}

/// The terms of `(a b) v` in one row of `a`: one for each entry `j` of `v`
/// and each row `l` of `b`.
pub open spec fn product_terms<T: Scalar>(row: Seq<T>, b: Seq<Seq<T>>, v: Seq<T>) -> spec_fn(
    int,
    int,
) -> T {
    |j: int, l: int| row[l].mul_spec(b[l][j]).mul_spec(v[j])
}

/// The terms of `a' m b`: one for each entry of `m`.
pub open spec fn bilinear_terms<T: Scalar>(a: Seq<T>, m: Seq<Seq<T>>, b: Seq<T>) -> spec_fn(
    int,
    int,
) -> T {
    |i: int, j: int| m[i][j].mul_spec(a[i]).mul_spec(b[j])
}

/// A product of matrices applied to a vector is the first applied to what
/// the second makes of the vector.
pub proof fn lemma_mat_vec_of_product<T: Scalar>(
    a: Seq<Seq<T>>,
    b: Seq<Seq<T>>,
    v: Seq<T>,
    r: nat,
    k: nat,
    c: nat,
)
    requires
        exact_arithmetic::<T>(),
        has_shape(a, r, k),
        has_shape(b, k, c),
        v.len() == c,
        k >= 1,
    ensures
        mat_vec(mat_mul(a, b), v) == mat_vec(a, mat_vec(b, v)),
{
    let ab = mat_mul(a, b);
    let bv = mat_vec(b, v);
    lemma_mul_shape(a, b);
    assert(ncols(b) == c);
    assert forall|i: int| 0 <= i < r implies #[trigger] mat_vec(ab, v)[i] == mat_vec(a, bv)[i] by {
        let g = product_terms(a[i], b, v);
        assert forall|j: int| 0 <= j < c implies #[trigger] row_sums(g, k)(j) == ab[i][j].mul_spec(
            v[j],
        ) by {
            let prods = |l: int| a[i][l].mul_spec(column(b, j)[l]);
            assert forall|l: int| 0 <= l < k implies #[trigger] row_of(g, j)(l) == prods(
                l,
            ).mul_spec(v[j]) by {
                assert(column(b, j)[l] == b[l][j]);
            }
            lemma_sum_scale(row_of(g, j), prods, v[j], k);
            lemma_dot_as_sum(a[i], column(b, j), prods, k);
            assert(a[i].len() == k);
            assert(ab[i][j] == dot(a[i], column(b, j)));
        }
        lemma_dot_as_sum(ab[i], v, row_sums(g, k), c);
        assert(ab[i].len() == c);
        assert(mat_vec(ab, v)[i] == dot(ab[i], v));
        assert forall|l: int| 0 <= l < k implies #[trigger] column_sums(g, c)(l) == a[i][l].mul_spec(
            bv[l],
        ) by {
            let prods = |j: int| b[l][j].mul_spec(v[j]);
            assert forall|j: int| 0 <= j < c implies #[trigger] column_of(g, l)(j) == prods(
                j,
            ).mul_spec(a[i][l]) by {
                lemma_mul_associates(a[i][l], b[l][j], v[j]);
                lemma_mul_commutes(a[i][l], b[l][j].mul_spec(v[j]));
            }
            lemma_sum_scale(column_of(g, l), prods, a[i][l], c);
            lemma_dot_as_sum(b[l], v, prods, c);
            lemma_mul_commutes(sum(prods, c), a[i][l]);
            assert(b[l].len() == c);
            assert(bv[l] == dot(b[l], v));
        }
        lemma_dot_as_sum(a[i], bv, column_sums(g, c), k);
        assert(mat_vec(a, bv)[i] == dot(a[i], bv));
        lemma_sum_by_rows_or_columns(g, c, k);
    }
    assert(mat_vec(ab, v) =~= mat_vec(a, bv));
}

/// A matrix moves from one side of an inner product to the other as its
/// transpose.
pub proof fn lemma_adjoint<T: Scalar>(a: Seq<T>, m: Seq<Seq<T>>, b: Seq<T>, r: nat, c: nat)
    requires
        exact_arithmetic::<T>(),
        has_shape(m, r, c),
        a.len() == r,
        b.len() == c,
        r >= 1,
    ensures
        dot(a, mat_vec(m, b)) == dot(mat_vec(transpose(m), a), b),
{
    let g = bilinear_terms(a, m, b);
    let mb = mat_vec(m, b);
    let mt = transpose(m);
    let mta = mat_vec(mt, a);
    lemma_transpose_shape(m);
    assert(ncols(m) == c);
    assert forall|i: int| 0 <= i < r implies #[trigger] row_sums(g, c)(i) == a[i].mul_spec(
        mb[i],
    ) by {
        let prods = |j: int| m[i][j].mul_spec(b[j]);
        assert forall|j: int| 0 <= j < c implies #[trigger] row_of(g, i)(j) == prods(j).mul_spec(
            a[i],
        ) by {
            lemma_mul_associates(m[i][j], a[i], b[j]);
            lemma_mul_commutes(a[i], b[j]);
            lemma_mul_associates(m[i][j], b[j], a[i]);
        }
        lemma_sum_scale(row_of(g, i), prods, a[i], c);
        lemma_dot_as_sum(m[i], b, prods, c);
        lemma_mul_commutes(sum(prods, c), a[i]);
        assert(m[i].len() == c);
        assert(mb[i] == dot(m[i], b));
    }
    lemma_dot_as_sum(a, mb, row_sums(g, c), r);
    assert forall|j: int| 0 <= j < c implies #[trigger] column_sums(g, r)(j) == mta[j].mul_spec(
        b[j],
    ) by {
        let prods = |i: int| mt[j][i].mul_spec(a[i]);
        assert(mt[j] == column(m, j));
        assert forall|i: int| 0 <= i < r implies #[trigger] column_of(g, j)(i) == prods(
            i,
        ).mul_spec(b[j]) by {
            assert(mt[j][i] == m[i][j]);
        }
        lemma_sum_scale(column_of(g, j), prods, b[j], r);
        lemma_dot_as_sum(mt[j], a, prods, r);
        assert(mt[j].len() == r);
        assert(mta[j] == dot(mt[j], a));
    }
    lemma_dot_as_sum(mta, b, column_sums(g, r), c);
    assert(mta.len() == c);
    lemma_sum_by_rows_or_columns(g, r, c);
}

/// An inner product does not depend on the order of its two vectors.
pub proof fn lemma_dot_commutes<T: Scalar>(a: Seq<T>, b: Seq<T>)
    requires
        exact_arithmetic::<T>(),
        a.len() == b.len(),
    ensures
        dot(a, b) == dot(b, a),
{
    let n = a.len();
    let f = |k: int| a[k].mul_spec(b[k]);
    let g = |k: int| b[k].mul_spec(a[k]);
    assert forall|k: int| 0 <= k < n implies #[trigger] f(k) == g(k) by {
        lemma_mul_commutes(a[k], b[k]);
    }
    lemma_dot_as_sum(a, b, f, n);
    lemma_dot_as_sum(b, a, g, n);
    lemma_sum_congruence(f, g, n);
}

/// The inner product with a sum of vectors is the sum of the inner products.
pub proof fn lemma_dot_of_sum<T: Scalar>(v: Seq<T>, a: Seq<T>, b: Seq<T>)
    requires
        exact_arithmetic::<T>(),
        a.len() == v.len(),
    ensures
        dot(v, vec_add(a, b)) == dot(v, a).add_spec(dot(v, b)),
{
    let n = v.len();
    let f = |k: int| v[k].mul_spec(vec_add(a, b)[k]);
    let g = |k: int| v[k].mul_spec(a[k]);
    let h = |k: int| v[k].mul_spec(b[k]);
    assert forall|k: int| 0 <= k < n implies #[trigger] f(k) == g(k).add_spec(h(k)) by {
        lemma_mul_commutes(v[k], a[k].add_spec(b[k]));
        lemma_distributes(a[k], b[k], v[k]);
        lemma_mul_commutes(v[k], a[k]);
        lemma_mul_commutes(v[k], b[k]);
    }
    lemma_dot_as_sum(v, vec_add(a, b), f, n);
    lemma_dot_as_sum(v, a, g, n);
    lemma_dot_as_sum(v, b, h, n);
    lemma_sum_add(f, g, h, n);
}

/// A sum of matrices applied to a vector is the sum of what each makes of it.
pub proof fn lemma_mat_vec_of_sum<T: Scalar>(
    a: Seq<Seq<T>>,
    b: Seq<Seq<T>>,
    v: Seq<T>,
    r: nat,
    c: nat,
)
    requires
        exact_arithmetic::<T>(),
        has_shape(a, r, c),
        has_shape(b, r, c),
    ensures
        mat_vec(mat_add(a, b), v) == vec_add(mat_vec(a, v), mat_vec(b, v)),
{
    assert forall|i: int| 0 <= i < r implies #[trigger] mat_vec(mat_add(a, b), v)[i] == vec_add(
        mat_vec(a, v),
        mat_vec(b, v),
    )[i] by {
        let f = |k: int| vec_add(a[i], b[i])[k].mul_spec(v[k]);
        let g = |k: int| a[i][k].mul_spec(v[k]);
        let h = |k: int| b[i][k].mul_spec(v[k]);
        assert forall|k: int| 0 <= k < c implies #[trigger] f(k) == g(k).add_spec(h(k)) by {
            lemma_distributes(a[i][k], b[i][k], v[k]);
        }
        assert(a[i].len() == c && b[i].len() == c);
        lemma_dot_as_sum(vec_add(a[i], b[i]), v, f, c);
        lemma_dot_as_sum(a[i], v, g, c);
        lemma_dot_as_sum(b[i], v, h, c);
        lemma_sum_add(f, g, h, c);
        assert(mat_add(a, b)[i] == vec_add(a[i], b[i]));
        assert(mat_vec(mat_add(a, b), v)[i] == dot(vec_add(a[i], b[i]), v));
        assert(mat_vec(a, v)[i] == dot(a[i], v));
        assert(mat_vec(b, v)[i] == dot(b[i], v));
    }
    assert(mat_vec(mat_add(a, b), v) =~= vec_add(mat_vec(a, v), mat_vec(b, v)));
}

/// A difference of matrices applied to a vector is the difference of what
/// each makes of it.
pub proof fn lemma_mat_vec_of_difference<T: Scalar>(
    a: Seq<Seq<T>>,
    b: Seq<Seq<T>>,
    v: Seq<T>,
    r: nat,
    c: nat,
)
    requires
        exact_arithmetic::<T>(),
        has_shape(a, r, c),
        has_shape(b, r, c),
    ensures
        mat_vec(mat_sub(a, b), v) == vec_sub(mat_vec(a, v), mat_vec(b, v)),
{
    assert forall|i: int| 0 <= i < r implies #[trigger] mat_vec(mat_sub(a, b), v)[i] == vec_sub(
        mat_vec(a, v),
        mat_vec(b, v),
    )[i] by {
        let f = |k: int| vec_sub(a[i], b[i])[k].mul_spec(v[k]);
        let g = |k: int| a[i][k].mul_spec(v[k]);
        let h = |k: int| b[i][k].mul_spec(v[k]);
        assert forall|k: int| 0 <= k < c implies #[trigger] f(k) == g(k).sub_spec(h(k)) by {
            lemma_sub_distributes(a[i][k], b[i][k], v[k]);
        }
        assert(a[i].len() == c && b[i].len() == c);
        lemma_dot_as_sum(vec_sub(a[i], b[i]), v, f, c);
        lemma_dot_as_sum(a[i], v, g, c);
        lemma_dot_as_sum(b[i], v, h, c);
        lemma_sum_sub(f, g, h, c);
        assert(mat_sub(a, b)[i] == vec_sub(a[i], b[i]));
        assert(mat_vec(mat_sub(a, b), v)[i] == dot(vec_sub(a[i], b[i]), v));
        assert(mat_vec(a, v)[i] == dot(a[i], v));
        assert(mat_vec(b, v)[i] == dot(b[i], v));
    }
    assert(mat_vec(mat_sub(a, b), v) =~= vec_sub(mat_vec(a, v), mat_vec(b, v)));
}

/// The identity leaves a vector as it is.
pub proof fn lemma_identity_mat_vec<T: Scalar>(v: Seq<T>)
    requires
        exact_arithmetic::<T>(),
    ensures
        mat_vec(identity::<T>(v.len()), v) == v,
{
    let n = v.len();
    assert forall|i: int| 0 <= i < n implies #[trigger] mat_vec(identity::<T>(n), v)[i]
        == v[i] by {
        lemma_dot_unit(n, i, v, n);
        assert(identity::<T>(n)[i].len() == n);
    }
    assert(mat_vec(identity::<T>(n), v) =~= v);
}

/// What is left of `a` when `a` less `b` is taken from it is `b`.
pub proof fn lemma_sub_of_difference<T: Scalar>(a: T, b: T)
    requires
        exact_arithmetic::<T>(),
    ensures
        a.sub_spec(a.sub_spec(b)) == b,
{
    lemma_sub_undoes_add(a, b);
    lemma_add_commutes(a.sub_spec(b), b);
    lemma_sub_unique(b, a, a.sub_spec(b));
}

/// The transpose of the transpose of a matrix with rows and columns is the
/// matrix.
pub proof fn lemma_transpose_twice<T>(m: Seq<Seq<T>>, r: nat, c: nat)
    requires
        has_shape(m, r, c),
        r >= 1,
        c >= 1,
    ensures
        transpose(transpose(m)) == m,
{
    let mt = transpose(m);
    lemma_transpose_shape(m);
    lemma_transpose_shape(mt);
    assert(ncols(m) == c);
    assert(mt.len() == c);
    assert(mt[0].len() == r);
    assert(ncols(mt) == r);
    assert forall|i: int| 0 <= i < r implies #[trigger] transpose(mt)[i] =~= m[i] by {
        assert(transpose(mt)[i] == column(mt, i));
        assert forall|j: int| 0 <= j < c implies column(mt, i)[j] == m[i][j] by {
            assert(mt[j] == column(m, j));
        }
    }
    assert(transpose(mt) =~= m);
}

/// A symmetric matrix is its own transpose.
pub proof fn lemma_symmetric_transpose<T>(m: Seq<Seq<T>>)
    requires
        symmetric(m),
    ensures
        transpose(m) == m,
{
    let n = m.len();
    lemma_transpose_shape(m);
    if n > 0 {
        assert(m[0].len() == n);
    }
    assert forall|i: int| 0 <= i < n implies #[trigger] transpose(m)[i] =~= m[i] by {
        assert(transpose(m)[i] == column(m, i));
        assert forall|j: int| 0 <= j < n implies column(m, i)[j] == m[i][j] by {
            assert(m[j][i] == m[i][j]);
        }
    }
    assert(transpose(m) =~= m);
}

} // verus!
