//! What Gauss-Jordan elimination returns in exact arithmetic.

use vstd::prelude::*;
use crate::scalar::{Scalar, zero, one};
use crate::linalg::{
    has_shape, column, dot_upto, dot, mat_mul, mat_vec, identity, lemma_mul_shape,
};
use crate::inverse::{
    Elimination, pivot_row, swap_rows, scale, sub_scaled, clear_column, eliminate_upto, inverse,
};
use crate::exact::{
    exact_arithmetic, only_zero_negligible, lemma_zero_plus, lemma_zero_times, lemma_times_zero,
    lemma_one_times, lemma_sub_zero, lemma_sub_self, lemma_sub_undoes_add, lemma_mul_associates,
    lemma_mul_commutes, lemma_reciprocal, lemma_add_negated, lemma_dot_scale,
    lemma_dot_sub_scaled, lemma_dot_unit,
};
use crate::quadratic::{lemma_mat_vec_of_product, lemma_identity_mat_vec};

verus! {

/// The first `k` columns of `w` are those of the identity of size `n`.
pub open spec fn reduced_upto<T: Scalar>(w: Seq<Seq<T>>, n: nat, k: nat) -> bool {
    forall|i: int, c: int|
        0 <= i < n && 0 <= c < k ==> (#[trigger] w[i][c]) == identity::<T>(n)[i][c]
}

/// What every stage of the elimination of `a` keeps: both matrices are
/// square, the second times `a` is the first, and the columns cleared so far
/// are those of the identity.
pub open spec fn elimination_invariant<T: Scalar>(
    a: Seq<Seq<T>>,
    e: Elimination<T>,
    n: nat,
    k: nat,
) -> bool {
    &&& has_shape(e.work, n, n)
    &&& has_shape(e.aug, n, n)
    &&& mat_mul(e.aug, a) == e.work
    &&& reduced_upto(e.work, n, k)
}

/// A pivot row that was found lies at or after the row the search began in,
/// and its entry in the column is not negligible.
pub proof fn lemma_pivot_row_found<T: Scalar>(w: Seq<Seq<T>>, c: int, from: int)
    requires
        0 <= from,
        pivot_row(w, c, from) is Some,
    ensures
        from <= pivot_row(w, c, from)->Some_0 < w.len(),
        !w[pivot_row(w, c, from)->Some_0][c].negligible_spec(),
    decreases w.len() - from,
{
    if from < w.len() && w[from][c].negligible_spec() {
        lemma_pivot_row_found(w, c, from + 1);
    }
}

/// An elimination step keeps the invariant and clears one more column.
pub proof fn lemma_step_keeps_invariant<T: Scalar>(
    a: Seq<Seq<T>>,
    e: Elimination<T>,
    n: nat,
    c: int,
    r: int,
)
    requires
        exact_arithmetic::<T>(),
        has_shape(a, n, n),
        0 <= c <= r < n,
        elimination_invariant(a, e, n, c as nat),
        !e.work[r][c].negligible_spec(),
    ensures
        elimination_invariant(
            a,
            Elimination {
                work: clear_column(e.work, e.work, c, r),
                aug: clear_column(e.aug, e.work, c, r),
            },
            n,
            (c + 1) as nat,
        ),
{
    let w = e.work;
    let x = e.aug;
    let ws = swap_rows(w, c, r);
    let xs = swap_rows(x, c, r);
    let s = w[r][c].recip_spec();
    let pw = scale(ws[c], s);
    let px = scale(xs[c], s);
    let nw = clear_column(w, w, c, r);
    let nx = clear_column(x, w, c, r);
    let one = identity::<T>(n);

    assert forall|i: int| 0 <= i < n implies (#[trigger] ws[i]).len() == n && xs[i].len() == n by {
        assert(w[c].len() == n && w[r].len() == n && w[i].len() == n);
        assert(x[c].len() == n && x[r].len() == n && x[i].len() == n);
    }
    assert(has_shape(nw, n, n));
    assert(has_shape(nx, n, n));

    // The exchange of rows carries over to the product.
    assert forall|i: int, j: int| 0 <= i < n && 0 <= j < n implies dot(
        #[trigger] xs[i],
        #[trigger] column(a, j),
    ) == ws[i][j] by {
        let src = if i == c {
            r
        } else if i == r {
            c
        } else {
            i
        };
        assert(xs[i] == x[src]);
        assert(ws[i] == w[src]);
        assert(mat_mul(x, a)[src][j] == dot(x[src], column(a, j)));
    }

    // The second matrix times `a` is still the first.
    lemma_mul_shape(nx, a);
    assert forall|i: int| 0 <= i < n implies #[trigger] mat_mul(nx, a)[i] =~= nw[i] by {
        assert forall|j: int| 0 <= j < n implies #[trigger] mat_mul(nx, a)[i][j] == nw[i][j] by {
            let u = column(a, j);
            assert(mat_mul(nx, a)[i][j] == dot(nx[i], u));
            lemma_dot_scale(xs[c], s, u, n);
            assert(dot(xs[c], u) == ws[c][j]);
            if i != c {
                lemma_dot_sub_scaled(xs[i], ws[i][c], px, u, n);
                assert(dot(xs[i], u) == ws[i][j]);
            }
        }
    }
    assert(mat_mul(nx, a) =~= nw);

    // One more column is that of the identity.
    assert forall|i: int, d: int| 0 <= i < n && 0 <= d < c + 1 implies (#[trigger] nw[i][d])
        == one[i][d] by {
        if d < c {
            assert(w[c][d] == one[c][d]);
            assert(w[r][d] == one[r][d]);
            assert(w[i][d] == one[i][d]);
            assert(ws[c][d] == crate::scalar::zero::<T>());
            lemma_zero_times(s);
            lemma_times_zero(ws[i][c]);
            lemma_sub_zero(ws[i][d]);
        } else {
            lemma_reciprocal(w[r][c]);
            assert(ws[c][c] == w[r][c]);
            lemma_one_times(ws[i][c]);
            lemma_sub_self(ws[i][c]);
        }
    }
}

/// Every stage of an elimination in exact arithmetic keeps the invariant.
pub proof fn lemma_elimination_keeps_invariant<T: Scalar>(a: Seq<Seq<T>>, n: nat, k: nat)
    requires
        exact_arithmetic::<T>(),
        has_shape(a, n, n),
        k <= n,
        eliminate_upto(a, k) is Some,
    ensures
        elimination_invariant(a, eliminate_upto(a, k)->Some_0, n, k),
    decreases k,
{
    if k == 0 {
        let one = identity::<T>(n);
        lemma_mul_shape(one, a);
        assert forall|i: int| 0 <= i < n implies #[trigger] mat_mul(one, a)[i] =~= a[i] by {
            assert forall|j: int| 0 <= j < n implies #[trigger] mat_mul(one, a)[i][j]
                == a[i][j] by {
                lemma_dot_unit(n, i, column(a, j), n);
                assert(mat_mul(one, a)[i][j] == dot(one[i], column(a, j)));
            }
        }
        assert(mat_mul(one, a) =~= a);
    } else {
        let c = k - 1;
        lemma_elimination_keeps_invariant(a, n, c as nat);
        let e = eliminate_upto(a, c as nat)->Some_0;
        lemma_pivot_row_found(e.work, c, c);
        let r = pivot_row(e.work, c, c)->Some_0;
        lemma_step_keeps_invariant(a, e, n, c, r);
    }
}

/// In exact arithmetic, what the elimination returns for a square matrix is
/// an inverse of it: multiplied with the matrix, it gives the identity.
pub proof fn lemma_inverse_is_left_inverse<T: Scalar>(a: Seq<Seq<T>>, n: nat)
    requires
        exact_arithmetic::<T>(),
        has_shape(a, n, n),
        inverse(a) is Some,
    ensures
        has_shape(inverse(a)->Some_0, n, n),
        mat_mul(inverse(a)->Some_0, a) == identity::<T>(n),
{
    lemma_elimination_keeps_invariant(a, n, n);
    let e = eliminate_upto(a, n)->Some_0;
    let one = identity::<T>(n);
    assert forall|i: int| 0 <= i < n implies #[trigger] e.work[i] =~= one[i] by {
        assert forall|j: int| 0 <= j < n implies #[trigger] e.work[i][j] == one[i][j] by {}
    }
    assert(e.work =~= one);
}

/// `u` is sent to zero by every row of `w`.
pub open spec fn annihilated<T: Scalar>(w: Seq<Seq<T>>, u: Seq<T>) -> bool {
    forall|i: int| 0 <= i < w.len() ==> dot(#[trigger] w[i], u) == zero::<T>()
}

/// Where the search for a pivot fails, every entry it looked at is
/// negligible.
pub proof fn lemma_pivot_row_missing<T: Scalar>(w: Seq<Seq<T>>, c: int, from: int, i: int)
    requires
        0 <= from <= i < w.len(),
        pivot_row(w, c, from) is None,
    ensures
        w[i][c].negligible_spec(),
    decreases w.len() - from,
{
    if from < i {
        lemma_pivot_row_missing(w, c, from + 1, i);
    }
}

/// The first column at which a failed elimination has failed.
pub proof fn lemma_first_failure<T: Scalar>(a: Seq<Seq<T>>, k: nat) -> (c: nat)
    requires
        eliminate_upto(a, k) is None,
    ensures
        c < k,
        eliminate_upto(a, c) is Some,
        eliminate_upto(a, c + 1) is None,
    decreases k,
{
    if eliminate_upto(a, (k - 1) as nat) is None {
        lemma_first_failure(a, (k - 1) as nat)
    } else {
        (k - 1) as nat
    }
}

/// A vector that the rows of a matrix send to zero after an elimination step
/// was sent to zero by its rows before the step.
pub proof fn lemma_step_keeps_annihilated<T: Scalar>(
    w: Seq<Seq<T>>,
    u: Seq<T>,
    n: nat,
    c: int,
    r: int,
)
    requires
        exact_arithmetic::<T>(),
        has_shape(w, n, n),
        0 <= c <= r < n,
        !w[r][c].negligible_spec(),
        annihilated(clear_column(w, w, c, r), u),
    ensures
        annihilated(w, u),
{
    let ws = swap_rows(w, c, r);
    let p = w[r][c];
    let s = p.recip_spec();
    let pw = scale(ws[c], s);
    let nw = clear_column(w, w, c, r);
    let z = zero::<T>();
    assert forall|i: int| 0 <= i < n implies (#[trigger] ws[i]).len() == n by {
        assert(w[c].len() == n && w[r].len() == n && w[i].len() == n);
    }
    // The pivot row.
    assert(nw[c] == pw);
    assert(dot(nw[c], u) == z);
    lemma_dot_scale(ws[c], s, u, n);
    let d = dot(ws[c], u);
    assert(d.mul_spec(s) == z);
    lemma_mul_associates(d, s, p);
    lemma_mul_commutes(s, p);
    lemma_reciprocal(p);
    lemma_one_times(d);
    lemma_zero_times(p);
    assert(d == z);
    // The other rows.
    assert forall|i: int| 0 <= i < n implies dot(#[trigger] ws[i], u) == z by {
        if i != c {
            assert(nw[i] == sub_scaled(ws[i], ws[i][c], pw));
            assert(dot(nw[i], u) == z);
            lemma_dot_sub_scaled(ws[i], ws[i][c], pw, u, n);
            lemma_times_zero(ws[i][c]);
            lemma_sub_zero(dot(ws[i], u));
        }
    }
    assert forall|i: int| 0 <= i < w.len() implies dot(#[trigger] w[i], u) == z by {
        let at = if i == c {
            r
        } else if i == r {
            c
        } else {
            i
        };
        assert(ws[at] == w[i]);
    }
}

/// A vector that the rows of any stage of an elimination send to zero is
/// sent to zero by the rows of the matrix itself.
pub proof fn lemma_elimination_keeps_annihilated<T: Scalar>(
    a: Seq<Seq<T>>,
    u: Seq<T>,
    n: nat,
    k: nat,
)
    requires
        exact_arithmetic::<T>(),
        has_shape(a, n, n),
        k <= n,
        eliminate_upto(a, k) is Some,
        annihilated(eliminate_upto(a, k)->Some_0.work, u),
    ensures
        annihilated(a, u),
    decreases k,
{
    if k > 0 {
        let c = k - 1;
        lemma_elimination_keeps_invariant(a, n, c as nat);
        let e = eliminate_upto(a, c as nat)->Some_0;
        lemma_pivot_row_found(e.work, c, c);
        let r = pivot_row(e.work, c, c)->Some_0;
        lemma_step_keeps_annihilated(e.work, u, n, c, r);
        lemma_elimination_keeps_annihilated(a, u, n, c as nat);
    }
}

/// The vector that a matrix sends to zero where its first `c` columns are
/// those of the identity and column `c` is zero from row `c` on: column `c`
/// above the diagonal, minus one on the diagonal, zero below.
pub open spec fn kernel_vector<T: Scalar>(w: Seq<Seq<T>>, n: nat, c: int) -> Seq<T> {
    Seq::new(
        n,
        |j: int|
            if j < c {
                w[j][c]
            } else if j == c {
                zero::<T>().sub_spec(one::<T>())
            } else {
                zero::<T>()
            },
    )
}

/// The inner product of a row with the kernel vector, term by term.
pub proof fn lemma_kernel_row<T: Scalar>(w: Seq<Seq<T>>, n: nat, c: int, i: int, m: nat)
    requires
        exact_arithmetic::<T>(),
        has_shape(w, n, n),
        reduced_upto(w, n, c as nat),
        0 <= c < n,
        0 <= i < n,
        m <= n,
        i >= c ==> w[i][c] == zero::<T>(),
    ensures
        dot_upto(w[i], kernel_vector(w, n, c), m) == if m <= c && i < m {
            w[i][c]
        } else {
            zero::<T>()
        },
    decreases m,
{
    if m > 0 {
        let j = m - 1;
        let u = kernel_vector(w, n, c);
        let z = zero::<T>();
        lemma_kernel_row(w, n, c, i, j as nat);
        lemma_zero_plus(z);
        if j < c {
            assert(w[i][j] == identity::<T>(n)[i][j]);
            assert(u[j] == w[j][c]);
            lemma_zero_times(w[j][c]);
            lemma_one_times(w[j][c]);
            lemma_zero_plus(w[i][c]);
        } else if j == c {
            if i < c {
                lemma_add_negated(w[i][c]);
            } else {
                lemma_zero_times(u[j]);
            }
        } else {
            assert(u[j] == z);
            lemma_times_zero(w[i][j]);
        }
    }
}

/// In exact arithmetic, where only zero is negligible, a square matrix for
/// which the elimination fails is singular: no matrix multiplied with it
/// gives the identity.
pub proof fn lemma_no_inverse_is_singular<T: Scalar>(a: Seq<Seq<T>>, l: Seq<Seq<T>>, n: nat)
    requires
        exact_arithmetic::<T>(),
        only_zero_negligible::<T>(),
        has_shape(a, n, n),
        has_shape(l, n, n),
        inverse(a) is None,
    ensures
        mat_mul(l, a) != identity::<T>(n),
{
    let c = lemma_first_failure(a, n);
    lemma_elimination_keeps_invariant(a, n, c);
    let e = eliminate_upto(a, c)->Some_0;
    let w = e.work;
    let u = kernel_vector(w, n, c as int);
    let z = zero::<T>();
    assert(pivot_row(w, c as int, c as int) is None);
    assert forall|i: int| 0 <= i < w.len() implies dot(#[trigger] w[i], u) == z by {
        if i >= c {
            lemma_pivot_row_missing(w, c as int, c as int, i);
        }
        lemma_kernel_row(w, n, c as int, i, n);
        assert(w[i].len() == n);
    }
    lemma_elimination_keeps_annihilated(a, u, n, c);
    if mat_mul(l, a) == identity::<T>(n) {
        let au = mat_vec(a, u);
        lemma_mat_vec_of_product(l, a, u, n, n, n);
        lemma_identity_mat_vec(u);
        assert forall|k: int| 0 <= k < n implies #[trigger] au[k] == z by {
            assert(au[k] == dot(a[k], u));
        }
        lemma_dot_of_zeros(l[c as int], au, n);
        assert(l[c as int].len() == n);
        assert(mat_vec(l, au)[c as int] == dot(l[c as int], au));
        assert(u[c as int] == z);
        lemma_sub_undoes_add(z, one::<T>());
        lemma_zero_plus(one::<T>());
        assert(false);
    }
}

/// An inner product with a vector of zeros is zero.
pub proof fn lemma_dot_of_zeros<T: Scalar>(v: Seq<T>, u: Seq<T>, m: nat)
    requires
        exact_arithmetic::<T>(),
        forall|k: int| 0 <= k < m ==> #[trigger] u[k] == zero::<T>(),
    ensures
        dot_upto(v, u, m) == zero::<T>(),
    decreases m,
{
    if m > 0 {
        lemma_dot_of_zeros(v, u, (m - 1) as nat);
        lemma_times_zero(v[m - 1]);
        lemma_zero_plus(zero::<T>());
    }
}

} // verus!
