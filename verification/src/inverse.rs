//! Matrix inversion by Gauss-Jordan elimination.
//!
//! The elimination works on the matrix and on an identity matrix side by
//! side, one column at a time.  In column `c` it takes as pivot the first row
//! at or below the diagonal whose entry is not negligible, moves it to the
//! diagonal, scales it by the reciprocal of the pivot, and subtracts multiples
//! of it from every other row.  The inversion fails where a column offers no
//! such row.

use vstd::prelude::*;
use crate::scalar::Scalar;
use crate::linalg::{has_shape, identity};
use crate::matrix::{grid, copy_rows, copy_vector, identity_rows};

verus! {

/// The two matrices an elimination carries: what is left of the matrix, and
/// what has become of the identity.
pub struct Elimination<T> {
    pub work: Seq<Seq<T>>,
    pub aug: Seq<Seq<T>>,
}

/// The first row at or after `from` whose entry in column `c` can serve as a
/// pivot.
pub open spec fn pivot_row<T: Scalar>(w: Seq<Seq<T>>, c: int, from: int) -> Option<int>
    decreases w.len() - from,
{
    if from >= w.len() {
        None
    } else if !w[from][c].negligible_spec() {
        Some(from)
    } else {
        pivot_row(w, c, from + 1)
    }
}

/// `a` with rows `i` and `j` exchanged.
pub open spec fn swap_rows<T>(a: Seq<Seq<T>>, i: int, j: int) -> Seq<Seq<T>> {
    a.update(i, a[j]).update(j, a[i])
}

/// Every entry of `row` multiplied by `s`.
pub open spec fn scale<T: Scalar>(row: Seq<T>, s: T) -> Seq<T> {
    Seq::new(row.len(), |j: int| row[j].mul_spec(s))
}

/// `row` less `factor` times `pivot`, entry by entry.
pub open spec fn sub_scaled<T: Scalar>(row: Seq<T>, factor: T, pivot: Seq<T>) -> Seq<T> {
    Seq::new(row.len(), |j: int| row[j].sub_spec(factor.mul_spec(pivot[j])))
}

/// One elimination step applied to `m`, with the pivot in row `r` and column
/// `c` of `w`: rows `c` and `r` change places, the new row `c` is scaled by the
/// reciprocal of the pivot, and each other row loses its multiple of that row,
/// the multiple being its entry in column `c` of `w`.
pub open spec fn clear_column<T: Scalar>(m: Seq<Seq<T>>, w: Seq<Seq<T>>, c: int, r: int) -> Seq<
    Seq<T>,
> {
    let s = w[r][c].recip_spec();
    let ms = swap_rows(m, c, r);
    let ws = swap_rows(w, c, r);
    let p = scale(ms[c], s);
    Seq::new(
        m.len(),
        |i: int|
            if i == c {
                p
            } else {
                sub_scaled(ms[i], ws[i][c], p)
            },
    )
}

/// The elimination after column `c` has been cleared, or `None` where that
/// column has no pivot.
pub open spec fn eliminate_step<T: Scalar>(e: Elimination<T>, c: int) -> Option<Elimination<T>> {
    match pivot_row(e.work, c, c) {
        None => None,
        Some(r) => Some(
            Elimination {
                work: clear_column(e.work, e.work, c, r),
                aug: clear_column(e.aug, e.work, c, r),
            },
        ),
    }
}

/// The elimination of `a` after its first `k` columns have been cleared.
pub open spec fn eliminate_upto<T: Scalar>(a: Seq<Seq<T>>, k: nat) -> Option<Elimination<T>>
    decreases k,
{
    if k == 0 {
        Some(Elimination { work: a, aug: identity::<T>(a.len()) })
    } else {
        match eliminate_upto(a, (k - 1) as nat) {
            None => None,
            Some(e) => eliminate_step(e, k - 1),
        }
    }
}

/// What Gauss-Jordan elimination makes of the identity while it reduces `a`:
/// the inverse of `a` where the arithmetic is exact.
pub open spec fn inverse<T: Scalar>(a: Seq<Seq<T>>) -> Option<Seq<Seq<T>>> {
    match eliminate_upto(a, a.len()) {
        None => None,
        Some(e) => Some(e.aug),
    }
}

/// An elimination that has failed at one column has failed at every later one.
pub proof fn lemma_failure_persists<T: Scalar>(a: Seq<Seq<T>>, k: nat, l: nat)
    requires
        eliminate_upto(a, k) is None,
        k <= l,
    ensures
        eliminate_upto(a, l) is None,
    decreases l,
{
    if k < l {
        lemma_failure_persists(a, k, (l - 1) as nat);
    }
}

/// A cleared column leaves a matrix of the same shape.
pub proof fn lemma_clear_column_shape<T: Scalar>(
    m: Seq<Seq<T>>,
    w: Seq<Seq<T>>,
    c: int,
    r: int,
    n: nat,
)
    requires
        has_shape(m, n, n),
        0 <= c <= r < n,
    ensures
        has_shape(clear_column(m, w, c, r), n, n),
{
    let ms = swap_rows(m, c, r);
    assert forall|i: int| 0 <= i < n implies (#[trigger] ms[i]).len() == n by {
        assert(m[c].len() == n);
        assert(m[r].len() == n);
        assert(m[i].len() == n);
    }
}

fn find_pivot<T: Scalar>(w: &Vec<Vec<T>>, c: usize) -> (r: Option<usize>)
    requires
        c < w@.len(),
        has_shape(grid(*w), w@.len(), w@.len()),
    ensures
        r matches Some(i) ==> c <= i < w@.len() && pivot_row(grid(*w), c as int, c as int)
            == Some(i as int),
        r is None ==> pivot_row(grid(*w), c as int, c as int) is None,
{
    let mut i: usize = c;
    while i < w.len()
        invariant
            c <= i <= w@.len(),
            has_shape(grid(*w), w@.len(), w@.len()),
            pivot_row(grid(*w), c as int, c as int) == pivot_row(grid(*w), c as int, i as int),
        decreases w@.len() - i,
    {
        assert(grid(*w)[i as int].len() == w@.len());
        if !w[i][c].is_negligible() {
            return Some(i);
        }
        i += 1;
    }
    None
}

fn scale_row<T: Scalar>(row: &Vec<T>, s: &T) -> (r: Vec<T>)
    ensures
        r@ == scale(row@, *s),
{
    let mut out: Vec<T> = Vec::new();
    let mut j: usize = 0;
    while j < row.len()
        invariant
            j <= row@.len(),
            out@.len() == j,
            forall|l: int| 0 <= l < j ==> #[trigger] out@[l] == row@[l].mul_spec(*s),
        decreases row@.len() - j,
    {
        out.push(row[j].times(s));
        j += 1;
    }
    proof {
        assert(out@ =~= scale(row@, *s));
    }
    out
}

fn sub_scaled_row<T: Scalar>(row: &Vec<T>, factor: &T, pivot: &Vec<T>) -> (r: Vec<T>)
    requires
        row@.len() <= pivot@.len(),
    ensures
        r@ == sub_scaled(row@, *factor, pivot@),
{
    let mut out: Vec<T> = Vec::new();
    let mut j: usize = 0;
    while j < row.len()
        invariant
            j <= row@.len(),
            row@.len() <= pivot@.len(),
            out@.len() == j,
            forall|l: int|
                0 <= l < j ==> #[trigger] out@[l] == row@[l].sub_spec(
                    factor.mul_spec(pivot@[l]),
                ),
        decreases row@.len() - j,
    {
        out.push(row[j].minus(&factor.times(&pivot[j])));
        j += 1;
    }
    proof {
        assert(out@ =~= sub_scaled(row@, *factor, pivot@));
    }
    out
}

fn clear_column_rows<T: Scalar>(m: &Vec<Vec<T>>, w: &Vec<Vec<T>>, c: usize, r: usize) -> (out:
    Vec<Vec<T>>)
    requires
        c <= r < w@.len(),
        has_shape(grid(*w), w@.len(), w@.len()),
        has_shape(grid(*m), w@.len(), w@.len()),
    ensures
        grid(out) == clear_column(grid(*m), grid(*w), c as int, r as int),
{
    let n = w.len();
    assert(grid(*w)[r as int].len() == n);
    assert(grid(*m)[r as int].len() == n);
    let s = w[r][c].recip();
    let p = scale_row(&m[r], &s);
    let ghost ms = swap_rows(grid(*m), c as int, r as int);
    let ghost ws = swap_rows(grid(*w), c as int, r as int);
    let ghost target = clear_column(grid(*m), grid(*w), c as int, r as int);
    let mut out: Vec<Vec<T>> = Vec::new();
    let mut i: usize = 0;
    while i < n
        invariant
            i <= n,
            n == w@.len(),
            c <= r < n,
            has_shape(grid(*w), n as nat, n as nat),
            has_shape(grid(*m), n as nat, n as nat),
            ms == swap_rows(grid(*m), c as int, r as int),
            ws == swap_rows(grid(*w), c as int, r as int),
            target == clear_column(grid(*m), grid(*w), c as int, r as int),
            p@ == scale(ms[c as int], grid(*w)[r as int][c as int].recip_spec()),
            out@.len() == i,
            forall|k: int| 0 <= k < i ==> (#[trigger] out@[k])@ == target[k],
        decreases n - i,
    {
        if i == c {
            out.push(copy_vector(&p));
        } else {
            let src: usize = if i == r {
                c
            } else {
                i
            };
            assert(grid(*w)[src as int].len() == n);
            assert(grid(*m)[src as int].len() == n);
            assert(ms[i as int] == m@[src as int]@);
            assert(ws[i as int] == w@[src as int]@);
            out.push(sub_scaled_row(&m[src], &w[src][c], &p));
        }
        i += 1;
    }
    proof {
        assert(grid(out) =~= target);
    }
    out
}

/// The inverse of a square grid, or `None` where the elimination finds a
/// column without a pivot.
pub(crate) fn invert_rows<T: Scalar>(a: &Vec<Vec<T>>) -> (r: Option<Vec<Vec<T>>>)
    requires
        has_shape(grid(*a), a@.len(), a@.len()),
    ensures
        r matches Some(x) ==> inverse(grid(*a)) == Some(grid(x)) && has_shape(
            grid(x),
            a@.len(),
            a@.len(),
        ),
        r is None ==> inverse(grid(*a)) is None,
{
    let n = a.len();
    let mut work = copy_rows(a);
    let mut aug = identity_rows::<T>(n);
    let mut c: usize = 0;
    while c < n
        invariant
            c <= n,
            n == a@.len(),
            has_shape(grid(work), n as nat, n as nat),
            has_shape(grid(aug), n as nat, n as nat),
            eliminate_upto(grid(*a), c as nat) == Some(
                Elimination { work: grid(work), aug: grid(aug) },
            ),
        decreases n - c,
    {
        match find_pivot(&work, c) {
            None => {
                proof {
                    assert(eliminate_upto(grid(*a), (c + 1) as nat) is None);
                    lemma_failure_persists(grid(*a), (c + 1) as nat, n as nat);
                }
                return None;
            },
            Some(r) => {
                let next_work = clear_column_rows(&work, &work, c, r);
                let next_aug = clear_column_rows(&aug, &work, c, r);
                proof {
                    lemma_clear_column_shape(grid(work), grid(work), c as int, r as int, n as nat);
                    lemma_clear_column_shape(grid(aug), grid(work), c as int, r as int, n as nat);
                    assert(eliminate_upto(grid(*a), (c + 1) as nat) == Some(
                        Elimination { work: grid(next_work), aug: grid(next_aug) },
                    ));
                }
                work = next_work;
                aug = next_aug;
            },
        }
        c += 1;
    }
    Some(aug)
}

} // verus!
