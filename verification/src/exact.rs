//! Exact arithmetic: the identities of a field, and what they give for
//! finite sums.
//!
//! Nothing here is asked of a [`Scalar`]; the identities are the hypothesis
//! under which the laws of the estimator that rest on algebra are proved.

use vstd::prelude::*;
use crate::scalar::{Scalar, zero, one};
use crate::linalg::{dot_upto, identity};
use crate::inverse::{scale, sub_scaled};

verus! {

/// The arithmetic of `T` is that of a field: addition and multiplication are
/// commutative and associative, zero and one are their neutral elements,
/// subtraction undoes addition, multiplication distributes over addition, and
/// a scalar that is not negligible times its reciprocal is one.
#[verifier::opaque]
pub open spec fn exact_arithmetic<T: Scalar>() -> bool {
    &&& forall|a: T, b: T| #[trigger] a.add_spec(b) == b.add_spec(a)
    &&& forall|a: T, b: T, c: T| #[trigger]
        a.add_spec(b).add_spec(c) == a.add_spec(b.add_spec(c))
    &&& forall|a: T| #[trigger] zero::<T>().add_spec(a) == a
    &&& forall|a: T, b: T| #[trigger] a.sub_spec(b).add_spec(b) == a
    &&& forall|a: T, b: T| #[trigger] a.mul_spec(b) == b.mul_spec(a)
    &&& forall|a: T, b: T, c: T| #[trigger]
        a.mul_spec(b).mul_spec(c) == a.mul_spec(b.mul_spec(c))
    &&& forall|a: T| #[trigger] one::<T>().mul_spec(a) == a
    &&& forall|a: T, b: T, c: T| #[trigger]
        a.add_spec(b).mul_spec(c) == a.mul_spec(c).add_spec(b.mul_spec(c))
    &&& forall|a: T| !a.negligible_spec() ==> #[trigger] a.mul_spec(a.recip_spec()) == one::<T>()
}

/// The test for a negligible scalar is exact, and the field is not trivial:
/// only zero is negligible, and one is not zero.
pub open spec fn only_zero_negligible<T: Scalar>() -> bool {
    &&& forall|a: T| #[trigger] a.negligible_spec() <==> a == zero::<T>()
    &&& zero::<T>() != one::<T>()
}

/// Addition is commutative.
pub proof fn lemma_add_commutes<T: Scalar>(a: T, b: T)
    requires
        exact_arithmetic::<T>(),
    ensures
        a.add_spec(b) == b.add_spec(a),
{
    reveal(exact_arithmetic);
}

/// Addition is associative.
pub proof fn lemma_add_associates<T: Scalar>(a: T, b: T, c: T)
    requires
        exact_arithmetic::<T>(),
    ensures
        a.add_spec(b).add_spec(c) == a.add_spec(b.add_spec(c)),
{
    reveal(exact_arithmetic);
}

/// Zero is neutral for addition, on either side.
pub proof fn lemma_zero_plus<T: Scalar>(a: T)
    requires
        exact_arithmetic::<T>(),
    ensures
        zero::<T>().add_spec(a) == a,
        a.add_spec(zero::<T>()) == a,
{
    reveal(exact_arithmetic);
}

/// Subtraction undoes addition.
pub proof fn lemma_sub_undoes_add<T: Scalar>(a: T, b: T)
    requires
        exact_arithmetic::<T>(),
    ensures
        a.sub_spec(b).add_spec(b) == a,
{
    reveal(exact_arithmetic);
}

/// Multiplication is commutative.
pub proof fn lemma_mul_commutes<T: Scalar>(a: T, b: T)
    requires
        exact_arithmetic::<T>(),
    ensures
        a.mul_spec(b) == b.mul_spec(a),
{
    reveal(exact_arithmetic);
}

/// Multiplication is associative.
pub proof fn lemma_mul_associates<T: Scalar>(a: T, b: T, c: T)
    requires
        exact_arithmetic::<T>(),
    ensures
        a.mul_spec(b).mul_spec(c) == a.mul_spec(b.mul_spec(c)),
{
    reveal(exact_arithmetic);
}

/// One is neutral for multiplication, on either side.
pub proof fn lemma_one_times<T: Scalar>(a: T)
    requires
        exact_arithmetic::<T>(),
    ensures
        one::<T>().mul_spec(a) == a,
        a.mul_spec(one::<T>()) == a,
{
    reveal(exact_arithmetic);
}

/// Multiplication distributes over addition.
pub proof fn lemma_distributes<T: Scalar>(a: T, b: T, c: T)
    requires
        exact_arithmetic::<T>(),
    ensures
        a.add_spec(b).mul_spec(c) == a.mul_spec(c).add_spec(b.mul_spec(c)),
{
    reveal(exact_arithmetic);
}

/// A scalar that is not negligible times its reciprocal is one.
pub proof fn lemma_reciprocal<T: Scalar>(a: T)
    requires
        exact_arithmetic::<T>(),
        !a.negligible_spec(),
    ensures
        a.mul_spec(a.recip_spec()) == one::<T>(),
{
    reveal(exact_arithmetic);
}

/// What is added on the right can be taken away again.
pub proof fn lemma_add_cancels<T: Scalar>(x: T, z: T, y: T)
    requires
        exact_arithmetic::<T>(),
        x.add_spec(y) == z.add_spec(y),
    ensures
        x == z,
{
    let ny = zero::<T>().sub_spec(y);
    lemma_sub_undoes_add(zero::<T>(), y);
    lemma_add_commutes(ny, y);
    lemma_add_associates(x, y, ny);
    lemma_add_associates(z, y, ny);
    lemma_zero_plus(x);
    lemma_zero_plus(z);
}

/// Zero times anything is zero.
pub proof fn lemma_zero_times<T: Scalar>(a: T)
    requires
        exact_arithmetic::<T>(),
    ensures
        zero::<T>().mul_spec(a) == zero::<T>(),
{
    let z = zero::<T>();
    lemma_zero_plus(z);
    lemma_distributes(z, z, a);
    lemma_zero_plus(z.mul_spec(a));
    lemma_add_cancels(z.mul_spec(a), z, z.mul_spec(a));
}

/// A scalar times zero is zero.
pub proof fn lemma_times_zero<T: Scalar>(a: T)
    requires
        exact_arithmetic::<T>(),
    ensures
        a.mul_spec(zero::<T>()) == zero::<T>(),
{
    lemma_zero_times(a);
    lemma_mul_commutes(a, zero::<T>());
}

/// What gives `a` when `b` is added to it is the difference of `a` and `b`.
pub proof fn lemma_sub_unique<T: Scalar>(x: T, a: T, b: T)
    requires
        exact_arithmetic::<T>(),
        x.add_spec(b) == a,
    ensures
        x == a.sub_spec(b),
{
    lemma_sub_undoes_add(a, b);
    lemma_add_cancels(x, a.sub_spec(b), b);
}

/// Taking zero away changes nothing.
pub proof fn lemma_sub_zero<T: Scalar>(a: T)
    requires
        exact_arithmetic::<T>(),
    ensures
        a.sub_spec(zero::<T>()) == a,
{
    lemma_zero_plus(a);
    lemma_sub_unique(a, a, zero::<T>());
}

/// A scalar less itself is zero.
pub proof fn lemma_sub_self<T: Scalar>(a: T)
    requires
        exact_arithmetic::<T>(),
    ensures
        a.sub_spec(a) == zero::<T>(),
{
    lemma_zero_plus(a);
    lemma_sub_unique(zero::<T>(), a, a);
}

/// Multiplication distributes over subtraction.
pub proof fn lemma_sub_distributes<T: Scalar>(a: T, b: T, c: T)
    requires
        exact_arithmetic::<T>(),
    ensures
        a.sub_spec(b).mul_spec(c) == a.mul_spec(c).sub_spec(b.mul_spec(c)),
{
    lemma_sub_undoes_add(a, b);
    lemma_distributes(a.sub_spec(b), b, c);
    lemma_sub_unique(a.sub_spec(b).mul_spec(c), a.mul_spec(c), b.mul_spec(c));
}

/// A scalar and its product with minus one add up to zero.
pub proof fn lemma_add_negated<T: Scalar>(a: T)
    requires
        exact_arithmetic::<T>(),
    ensures
        a.add_spec(a.mul_spec(zero::<T>().sub_spec(one::<T>()))) == zero::<T>(),
{
    let minus_one = zero::<T>().sub_spec(one::<T>());
    lemma_sub_undoes_add(zero::<T>(), one::<T>());
    lemma_distributes(minus_one, one::<T>(), a);
    lemma_zero_times(a);
    lemma_one_times(a);
    lemma_mul_commutes(minus_one, a);
    lemma_add_commutes(a, a.mul_spec(minus_one));
}

/// Two sums of two terms each add up to the sums of their first and of their
/// second terms.
pub proof fn lemma_add_interchange<T: Scalar>(a: T, b: T, c: T, d: T)
    requires
        exact_arithmetic::<T>(),
    ensures
        a.add_spec(b).add_spec(c.add_spec(d)) == a.add_spec(c).add_spec(b.add_spec(d)),
{
    lemma_add_associates(a, b, c.add_spec(d));
    lemma_add_associates(b, c, d);
    lemma_add_commutes(b, c);
    lemma_add_associates(c, b, d);
    lemma_add_associates(a, c, b.add_spec(d));
}

/// The sum of `g(0)` to `g(n - 1)`, added from the left, starting from zero.
pub open spec fn sum<T: Scalar>(g: spec_fn(int) -> T, n: nat) -> T
    decreases n,
{
    if n == 0 {
        zero::<T>()
    } else {
        sum(g, (n - 1) as nat).add_spec(g(n - 1))
    }
}

/// Sums of equal terms are equal.
pub proof fn lemma_sum_congruence<T: Scalar>(g: spec_fn(int) -> T, h: spec_fn(int) -> T, n: nat)
    requires
        forall|k: int| 0 <= k < n ==> #[trigger] g(k) == h(k),
    ensures
        sum(g, n) == sum(h, n),
    decreases n,
{
    if n > 0 {
        lemma_sum_congruence(g, h, (n - 1) as nat);
    }
}

/// The sum of terms that are each a sum is the sum of the two sums.
pub proof fn lemma_sum_add<T: Scalar>(
    f: spec_fn(int) -> T,
    g: spec_fn(int) -> T,
    h: spec_fn(int) -> T,
    n: nat,
)
    requires
        exact_arithmetic::<T>(),
        forall|k: int| 0 <= k < n ==> #[trigger] f(k) == g(k).add_spec(h(k)),
    ensures
        sum(f, n) == sum(g, n).add_spec(sum(h, n)),
    decreases n,
{
    if n == 0 {
        lemma_zero_plus(zero::<T>());
    } else {
        lemma_sum_add(f, g, h, (n - 1) as nat);
        lemma_add_interchange(
            sum(g, (n - 1) as nat),
            sum(h, (n - 1) as nat),
            g(n - 1),
            h(n - 1),
        );
    }
}

/// The sum of terms that are each multiplied by `c` is the sum times `c`.
pub proof fn lemma_sum_scale<T: Scalar>(
    f: spec_fn(int) -> T,
    g: spec_fn(int) -> T,
    c: T,
    n: nat,
)
    requires
        exact_arithmetic::<T>(),
        forall|k: int| 0 <= k < n ==> #[trigger] f(k) == g(k).mul_spec(c),
    ensures
        sum(f, n) == sum(g, n).mul_spec(c),
    decreases n,
{
    if n == 0 {
        lemma_zero_times(c);
    } else {
        lemma_sum_scale(f, g, c, (n - 1) as nat);
        lemma_distributes(sum(g, (n - 1) as nat), g(n - 1), c);
    }
}

/// The sum of terms that are each a difference is the difference of the two
/// sums.
pub proof fn lemma_sum_sub<T: Scalar>(
    f: spec_fn(int) -> T,
    g: spec_fn(int) -> T,
    h: spec_fn(int) -> T,
    n: nat,
)
    requires
        exact_arithmetic::<T>(),
        forall|k: int| 0 <= k < n ==> #[trigger] f(k) == g(k).sub_spec(h(k)),
    ensures
        sum(f, n) == sum(g, n).sub_spec(sum(h, n)),
{
    assert forall|k: int| 0 <= k < n implies #[trigger] g(k) == f(k).add_spec(h(k)) by {
        lemma_sub_undoes_add(g(k), h(k));
    }
    lemma_sum_add(g, f, h, n);
    lemma_sub_unique(sum(f, n), sum(g, n), sum(h, n));
}

/// A sum of zeros is zero.
pub proof fn lemma_sum_of_zeros<T: Scalar>(g: spec_fn(int) -> T, n: nat)
    requires
        exact_arithmetic::<T>(),
        forall|k: int| 0 <= k < n ==> #[trigger] g(k) == zero::<T>(),
    ensures
        sum(g, n) == zero::<T>(),
    decreases n,
{
    if n > 0 {
        lemma_sum_of_zeros(g, (n - 1) as nat);
        lemma_zero_plus(zero::<T>());
    }
}

/// An inner product is the sum of its products.
pub proof fn lemma_dot_as_sum<T: Scalar>(a: Seq<T>, b: Seq<T>, g: spec_fn(int) -> T, n: nat)
    requires
        forall|k: int| 0 <= k < n ==> #[trigger] g(k) == a[k].mul_spec(b[k]),
    ensures
        dot_upto(a, b, n) == sum(g, n),
    decreases n,
{
    if n > 0 {
        lemma_dot_as_sum(a, b, g, (n - 1) as nat);
    }
}

/// An inner product with a scaled vector is the inner product, scaled.
pub proof fn lemma_dot_scale<T: Scalar>(v: Seq<T>, s: T, u: Seq<T>, n: nat)
    requires
        exact_arithmetic::<T>(),
        n <= v.len(),
    ensures
        dot_upto(scale(v, s), u, n) == dot_upto(v, u, n).mul_spec(s),
{
    let f = |k: int| scale(v, s)[k].mul_spec(u[k]);
    let g = |k: int| v[k].mul_spec(u[k]);
    assert forall|k: int| 0 <= k < n implies #[trigger] f(k) == g(k).mul_spec(s) by {
        lemma_mul_associates(v[k], s, u[k]);
        lemma_mul_commutes(s, u[k]);
        lemma_mul_associates(v[k], u[k], s);
    }
    lemma_dot_as_sum(scale(v, s), u, f, n);
    lemma_dot_as_sum(v, u, g, n);
    lemma_sum_scale(f, g, s, n);
}

/// An inner product with a vector less a multiple of another is the inner
/// product with the first less that multiple of the inner product with the
/// second.
pub proof fn lemma_dot_sub_scaled<T: Scalar>(v: Seq<T>, c: T, p: Seq<T>, u: Seq<T>, n: nat)
    requires
        exact_arithmetic::<T>(),
        n <= v.len(),
    ensures
        dot_upto(sub_scaled(v, c, p), u, n) == dot_upto(v, u, n).sub_spec(
            c.mul_spec(dot_upto(p, u, n)),
        ),
{
    let f = |k: int| sub_scaled(v, c, p)[k].mul_spec(u[k]);
    let g = |k: int| v[k].mul_spec(u[k]);
    let h = |k: int| c.mul_spec(p[k]).mul_spec(u[k]);
    let q = |k: int| p[k].mul_spec(u[k]);
    assert forall|k: int| 0 <= k < n implies #[trigger] f(k) == g(k).sub_spec(h(k)) by {
        lemma_sub_distributes(v[k], c.mul_spec(p[k]), u[k]);
    }
    assert forall|k: int| 0 <= k < n implies #[trigger] h(k) == q(k).mul_spec(c) by {
        lemma_mul_associates(c, p[k], u[k]);
        lemma_mul_commutes(c, p[k].mul_spec(u[k]));
    }
    lemma_dot_as_sum(sub_scaled(v, c, p), u, f, n);
    lemma_dot_as_sum(v, u, g, n);
    lemma_dot_as_sum(p, u, q, n);
    lemma_sum_sub(f, g, h, n);
    lemma_sum_scale(h, q, c, n);
    lemma_mul_commutes(sum(q, n), c);
}

/// The inner product with row `i` of an identity picks entry `i`.
pub proof fn lemma_dot_unit<T: Scalar>(n: nat, i: int, u: Seq<T>, m: nat)
    requires
        exact_arithmetic::<T>(),
        0 <= i < n,
        m <= n,
    ensures
        dot_upto(identity::<T>(n)[i], u, m) == if i < m {
            u[i]
        } else {
            zero::<T>()
        },
    decreases m,
{
    if m > 0 {
        lemma_dot_unit(n, i, u, (m - 1) as nat);
        let e = identity::<T>(n)[i];
        lemma_zero_times(u[m - 1]);
        lemma_one_times(u[m - 1]);
        lemma_zero_plus(u[m - 1]);
        lemma_zero_plus(u[i]);
        lemma_zero_plus(zero::<T>());
    }
}

/// Row `k` of a table of terms.
pub open spec fn row_of<T>(g: spec_fn(int, int) -> T, k: int) -> spec_fn(int) -> T {
    |l: int| g(k, l)
}

/// Column `l` of a table of terms.
pub open spec fn column_of<T>(g: spec_fn(int, int) -> T, l: int) -> spec_fn(int) -> T {
    |k: int| g(k, l)
}

/// The sums of the rows of a table, each over its first `m` terms.
pub open spec fn row_sums<T: Scalar>(g: spec_fn(int, int) -> T, m: nat) -> spec_fn(int) -> T {
    |k: int| sum(row_of(g, k), m)
}

/// The sums of the columns of a table, each over its first `n` terms.
pub open spec fn column_sums<T: Scalar>(g: spec_fn(int, int) -> T, n: nat) -> spec_fn(int) -> T {
    |l: int| sum(column_of(g, l), n)
}

/// A table of `n` rows and `m` columns adds up to the same by rows and by
/// columns.
pub proof fn lemma_sum_by_rows_or_columns<T: Scalar>(g: spec_fn(int, int) -> T, n: nat, m: nat)
    requires
        exact_arithmetic::<T>(),
    ensures
        sum(row_sums(g, m), n) == sum(column_sums(g, n), m),
    decreases n,
{
    if n == 0 {
        lemma_sum_of_zeros(column_sums(g, 0), m);
    } else {
        let less = (n - 1) as nat;
        lemma_sum_by_rows_or_columns(g, less, m);
        assert forall|l: int| 0 <= l < m implies #[trigger] column_sums(g, n)(l)
            == column_sums(g, less)(l).add_spec(row_of(g, n - 1)(l)) by {
            assert(sum(column_of(g, l), n) == sum(column_of(g, l), less).add_spec(
                column_of(g, l)(n - 1),
            ));
        }
        lemma_sum_add(column_sums(g, n), column_sums(g, less), row_of(g, n - 1), m);
    }
}

} // verus!
