//! What holds of the estimator as a whole.

use vstd::prelude::*;
use crate::scalar::Scalar;
use crate::linalg::{
    has_shape, symmetric, column, dot, vec_sub, mat_add, mat_sub, mat_mul, mat_vec, transpose,
    identity, lemma_mul_shape, lemma_transpose_shape, lemma_add_shape, lemma_sub_shape,
    lemma_identity_shape,
};
use crate::inverse::inverse;
use crate::inverse_law::{lemma_inverse_is_left_inverse, lemma_no_inverse_is_singular};
use crate::quadratic::{
    quad, lemma_mat_vec_of_product, lemma_adjoint, lemma_dot_commutes, lemma_dot_of_sum,
    lemma_mat_vec_of_sum, lemma_mat_vec_of_difference, lemma_identity_mat_vec,
    lemma_sub_of_difference, lemma_transpose_twice, lemma_symmetric_transpose,
};
use crate::exact::{
    exact_arithmetic, only_zero_negligible, sum, row_of, column_of, row_sums, column_sums, lemma_mul_commutes,
    lemma_mul_associates, lemma_sum_congruence, lemma_sum_scale, lemma_dot_as_sum,
    lemma_sum_by_rows_or_columns,
};
use crate::error::{KalmanError, RunError};
use crate::state::StateModel;
use crate::observation::ObservationModel;
use crate::kalman::{
    forward_spec, smooth_from, smooth_spec, smoothing_step_spec, update_spec,
    update_with_spec, predict_spec, gain_spec, gain, innovation_covariance,
};

verus! {

/// A forward pass over `k` observations that succeeds yields `k` filtered
/// estimates and `k + 1` predictions, the first of which is the prior.
pub proof fn lemma_forward_lengths<T: Scalar, M: ObservationModel<T>>(
    f: Seq<Seq<T>>,
    q: Seq<Seq<T>>,
    model: M,
    prior: StateModel<T>,
    data: Seq<Seq<T>>,
    k: nat,
)
    requires
        forward_spec(f, q, model, prior, data, k) is Ok,
    ensures
        forward_spec(f, q, model, prior, data, k)->Ok_0.filtered.len() == k,
        forward_spec(f, q, model, prior, data, k)->Ok_0.predicted.len() == k + 1,
        forward_spec(f, q, model, prior, data, k)->Ok_0.predicted[0] == prior,
    decreases k,
{
    if k > 0 {
        lemma_forward_lengths(f, q, model, prior, data, (k - 1) as nat);
    }
}

/// The smoothed estimates from step `k` on, where the pass succeeds, are as
/// many as the steps they stand for, and the last of them is the last
/// filtered estimate.
pub proof fn lemma_smooth_from_boundary<T: Scalar>(
    f: Seq<Seq<T>>,
    filtered: Seq<StateModel<T>>,
    predicted: Seq<StateModel<T>>,
    k: int,
)
    requires
        0 <= k < filtered.len(),
        smooth_from(f, filtered, predicted, k) is Ok,
    ensures
        smooth_from(f, filtered, predicted, k)->Ok_0.len() == filtered.len() - k,
        smooth_from(f, filtered, predicted, k)->Ok_0.last() == filtered.last(),
    decreases filtered.len() - k,
{
    if k < filtered.len() - 1 {
        lemma_smooth_from_boundary(f, filtered, predicted, k + 1);
    }
}

/// The smoother leaves the last estimate alone: where the backward pass
/// succeeds, it yields as many estimates as were filtered, and the last
/// smoothed estimate is the last filtered estimate.
pub proof fn lemma_smoother_boundary<T: Scalar>(
    f: Seq<Seq<T>>,
    filtered: Seq<StateModel<T>>,
    predicted: Seq<StateModel<T>>,
)
    requires
        smooth_spec(f, filtered, predicted) is Ok,
    ensures
        smooth_spec(f, filtered, predicted)->Ok_0.len() == filtered.len(),
        filtered.len() >= 1 ==> smooth_spec(f, filtered, predicted)->Ok_0.last()
            == filtered.last(),
{
    if filtered.len() >= 1 {
        lemma_smooth_from_boundary(f, filtered, predicted, 0);
    }
}

/// With a single observation there is no later information to smooth with:
/// where the forward pass over one observation succeeds, the backward pass
/// over its results succeeds and returns the filtered estimates unchanged.
pub proof fn lemma_single_observation_round_trip<T: Scalar, M: ObservationModel<T>>(
    f: Seq<Seq<T>>,
    q: Seq<Seq<T>>,
    model: M,
    prior: StateModel<T>,
    data: Seq<Seq<T>>,
)
    requires
        data.len() == 1,
        forward_spec(f, q, model, prior, data, 1) is Ok,
    ensures
        smooth_spec(
            f,
            forward_spec(f, q, model, prior, data, 1)->Ok_0.filtered,
            forward_spec(f, q, model, prior, data, 1)->Ok_0.predicted,
        ) == Ok::<Seq<StateModel<T>>, RunError>(
            forward_spec(f, q, model, prior, data, 1)->Ok_0.filtered,
        ),
{
    lemma_forward_lengths(f, q, model, prior, data, 1);
    let fw = forward_spec(f, q, model, prior, data, 1)->Ok_0;
    assert(seq![fw.filtered[fw.filtered.len() - 1]] =~= fw.filtered);
}

/// Two observation models agree where they observe states of the same
/// length and offer, at every state of that length, the same Jacobian, the
/// same measurement noise and the same predicted observation.
pub open spec fn models_agree<T: Scalar, A: ObservationModel<T>, B: ObservationModel<T>>(
    a: A,
    b: B,
) -> bool {
    &&& a.state_dim() == b.state_dim()
    &&& forall|s: Seq<T>|
        s.len() == a.state_dim() ==> {
            &&& #[trigger] a.jacobian_spec(s) == b.jacobian_spec(s)
            &&& a.noise_spec(s) == b.noise_spec(s)
            &&& a.observe_spec(s) == b.observe_spec(s)
        }
}

/// Models that agree give the same measurement update.
pub proof fn lemma_update_agrees<T: Scalar, A: ObservationModel<T>, B: ObservationModel<T>>(
    a: A,
    b: B,
    pred: StateModel<T>,
    z: Seq<T>,
)
    requires
        models_agree(a, b),
    ensures
        update_with_spec(a, pred, z) == update_with_spec(b, pred, z),
{
    if pred.x.len() == a.state_dim() {
        assert(a.jacobian_spec(pred.x) == b.jacobian_spec(pred.x));
    }
}

/// The forward pass knows an observation model only by what it offers: models
/// that agree give the same filtered and predicted estimates, or the same
/// failure.  A model that is linearised at every step but whose observation is
/// in fact a fixed matrix applied to the state thus filters exactly as the
/// linear model with that matrix does; and as the backward pass reads nothing
/// but the transition and the results of the forward pass, it smooths exactly
/// as that model does too.
pub proof fn lemma_forward_agrees<T: Scalar, A: ObservationModel<T>, B: ObservationModel<T>>(
    f: Seq<Seq<T>>,
    q: Seq<Seq<T>>,
    a: A,
    b: B,
    prior: StateModel<T>,
    data: Seq<Seq<T>>,
    k: nat,
)
    requires
        models_agree(a, b),
    ensures
        forward_spec(f, q, a, prior, data, k) == forward_spec(f, q, b, prior, data, k),
    decreases k,
{
    if k > 0 {
        lemma_forward_agrees(f, q, a, b, prior, data, (k - 1) as nat);
        match forward_spec(f, q, a, prior, data, (k - 1) as nat) {
            Err(e) => {},
            Ok(sofar) => {
                lemma_update_agrees(a, b, sofar.predicted[k - 1], data[k - 1]);
            },
        }
    }
}

/// Models that agree smooth alike as well: the backward pass reads the
/// transition and the results of the forward pass, and those are the same.
pub proof fn lemma_smooth_agrees<T: Scalar, A: ObservationModel<T>, B: ObservationModel<T>>(
    f: Seq<Seq<T>>,
    q: Seq<Seq<T>>,
    a: A,
    b: B,
    prior: StateModel<T>,
    data: Seq<Seq<T>>,
)
    requires
        models_agree(a, b),
        forward_spec(f, q, a, prior, data, data.len()) is Ok,
    ensures
        forward_spec(f, q, b, prior, data, data.len()) is Ok,
        smooth_spec(
            f,
            forward_spec(f, q, a, prior, data, data.len())->Ok_0.filtered,
            forward_spec(f, q, a, prior, data, data.len())->Ok_0.predicted,
        ) == smooth_spec(
            f,
            forward_spec(f, q, b, prior, data, data.len())->Ok_0.filtered,
            forward_spec(f, q, b, prior, data, data.len())->Ok_0.predicted,
        ),
{
    lemma_forward_agrees(f, q, a, b, prior, data, data.len());
}

/// The terms that make up entry `(i, j)` of `f p f'`: one for each column `k`
/// and row `l` of `p`.
pub open spec fn sandwich_terms<T: Scalar>(f: Seq<Seq<T>>, p: Seq<Seq<T>>, i: int, j: int)
    -> spec_fn(int, int) -> T {
    |k: int, l: int| f[i][l].mul_spec(p[l][k]).mul_spec(f[j][k])
}

/// Entry `(i, j)` of `f p f'` is the sum of its terms, row by row.
pub proof fn lemma_sandwich_entry<T: Scalar>(
    f: Seq<Seq<T>>,
    p: Seq<Seq<T>>,
    n: nat,
    i: int,
    j: int,
)
    requires
        exact_arithmetic::<T>(),
        has_shape(f, n, n),
        has_shape(p, n, n),
        0 <= i < n,
        0 <= j < n,
    ensures
        mat_mul(mat_mul(f, p), transpose(f))[i][j] == sum(
            row_sums(sandwich_terms(f, p, i, j), n),
            n,
        ),
{
    let a = mat_mul(f, p);
    let ft = transpose(f);
    let g = sandwich_terms(f, p, i, j);
    lemma_mul_shape(f, p);
    lemma_transpose_shape(f);
    assert(a[i].len() == n);
    assert(ft.len() == n);
    assert forall|k: int| 0 <= k < n implies #[trigger] row_sums(g, n)(k) == a[i][k].mul_spec(
        column(ft, j)[k],
    ) by {
        let c = f[j][k];
        let prods = |l: int| f[i][l].mul_spec(column(p, k)[l]);
        assert forall|l: int| 0 <= l < n implies #[trigger] row_of(g, k)(l) == prods(l).mul_spec(
            c,
        ) by {
            assert(column(p, k)[l] == p[l][k]);
        }
        lemma_sum_scale(row_of(g, k), prods, c, n);
        lemma_dot_as_sum(f[i], column(p, k), prods, n);
        assert(f[i].len() == n);
        assert(a[i][k] == dot(f[i], column(p, k)));
        assert(ft[k] == column(f, k));
        assert(column(ft, j)[k] == c);
    }
    lemma_dot_as_sum(a[i], column(ft, j), row_sums(g, n), n);
    assert(mat_mul(a, ft)[i][j] == dot(a[i], column(ft, j)));
}

/// Where `p` is symmetric, so is `f p f'`.
pub proof fn lemma_sandwich_symmetric<T: Scalar>(
    f: Seq<Seq<T>>,
    p: Seq<Seq<T>>,
    n: nat,
    i: int,
    j: int,
)
    requires
        exact_arithmetic::<T>(),
        has_shape(f, n, n),
        symmetric(p),
        p.len() == n,
        0 <= i < n,
        0 <= j < n,
    ensures
        mat_mul(mat_mul(f, p), transpose(f))[i][j] == mat_mul(mat_mul(f, p), transpose(f))[j][i],
{
    let gi = sandwich_terms(f, p, i, j);
    let gj = sandwich_terms(f, p, j, i);
    lemma_sandwich_entry(f, p, n, i, j);
    lemma_sandwich_entry(f, p, n, j, i);
    lemma_sum_by_rows_or_columns(gj, n, n);
    assert forall|k: int| 0 <= k < n implies #[trigger] column_sums(gj, n)(k) == row_sums(gi, n)(
        k,
    ) by {
        assert forall|l: int| 0 <= l < n implies #[trigger] column_of(gj, k)(l) == row_of(gi, k)(
            l,
        ) by {
            assert(p[k][l] == p[l][k]);
            lemma_mul_commutes(f[j][k].mul_spec(p[l][k]), f[i][l]);
            lemma_mul_commutes(f[j][k], p[l][k]);
            lemma_mul_associates(f[i][l], p[l][k], f[j][k]);
        }
        lemma_sum_congruence(column_of(gj, k), row_of(gi, k), n);
    }
    lemma_sum_congruence(column_sums(gj, n), row_sums(gi, n), n);
}

/// In exact arithmetic a prediction keeps covariances symmetric: where the
/// covariance of the prior and the process noise are symmetric, so is the
/// predicted covariance.
pub proof fn lemma_predicted_covariance_symmetric<T: Scalar>(
    f: Seq<Seq<T>>,
    q: Seq<Seq<T>>,
    prior: StateModel<T>,
)
    requires
        exact_arithmetic::<T>(),
        symmetric(prior.p),
        symmetric(q),
        predict_spec(f, q, prior) is Ok,
    ensures
        symmetric(predict_spec(f, q, prior)->Ok_0.p),
{
    let n = prior.x.len();
    let b = mat_mul(mat_mul(f, prior.p), transpose(f));
    let out = mat_add(b, q);
    lemma_mul_shape(f, prior.p);
    lemma_transpose_shape(f);
    lemma_mul_shape(mat_mul(f, prior.p), transpose(f));
    assert(has_shape(out, n, n));
    assert forall|i: int, j: int| 0 <= i < n && 0 <= j < n implies (#[trigger] out[i][j])
        == out[j][i] by {
        lemma_sandwich_symmetric(f, prior.p, n, i, j);
        assert(q[i][j] == q[j][i]);
    }
}

/// `m` is positive semi-definite where `nonneg` tells the scalars that are
/// not negative: its quadratic form is not negative at any vector.
pub open spec fn positive_semidefinite<T: Scalar>(
    m: Seq<Seq<T>>,
    nonneg: spec_fn(T) -> bool,
) -> bool {
    forall|v: Seq<T>| v.len() == m.len() ==> nonneg(#[trigger] quad(m, v))
}

/// A sum of scalars that are not negative is not negative.
pub open spec fn closed_under_addition<T: Scalar>(nonneg: spec_fn(T) -> bool) -> bool {
    forall|a: T, b: T| nonneg(a) && nonneg(b) ==> nonneg(#[trigger] a.add_spec(b))
}

/// The direction in which the innovation covariance is probed to tell how
/// much a measurement update takes from the variance along `v`: with `si`
/// the inverse of the innovation covariance, it is `si' h p v`.
pub open spec fn innovation_direction<T: Scalar>(
    p: Seq<Seq<T>>,
    h: Seq<Seq<T>>,
    si: Seq<Seq<T>>,
    v: Seq<T>,
) -> Seq<T> {
    mat_vec(transpose(si), mat_vec(h, mat_vec(p, v)))
}

/// The covariance after a measurement update with gain `k`.
pub open spec fn corrected_covariance<T: Scalar>(
    p: Seq<Seq<T>>,
    h: Seq<Seq<T>>,
    k: Seq<Seq<T>>,
) -> Seq<Seq<T>> {
    mat_mul(mat_sub(identity::<T>(p.len()), mat_mul(k, h)), p)
}

/// In exact arithmetic, what a measurement update takes from the variance
/// along `v` is the quadratic form of the innovation covariance at the
/// innovation direction of `v`.
pub proof fn lemma_reduction_is_quadratic_form<T: Scalar>(
    p: Seq<Seq<T>>,
    h: Seq<Seq<T>>,
    r: Seq<Seq<T>>,
    v: Seq<T>,
    n: nat,
    m: nat,
)
    requires
        exact_arithmetic::<T>(),
        symmetric(p),
        p.len() == n,
        has_shape(h, m, n),
        has_shape(r, m, m),
        n >= 1,
        m >= 1,
        v.len() == n,
        inverse(innovation_covariance(p, h, r)) is Some,
    ensures
        quad(
            mat_sub(
                p,
                corrected_covariance(
                    p,
                    h,
                    gain(p, h, inverse(innovation_covariance(p, h, r))->Some_0),
                ),
            ),
            v,
        ) == quad(
            innovation_covariance(p, h, r),
            innovation_direction(p, h, inverse(innovation_covariance(p, h, r))->Some_0, v),
        ),
{
    let s = innovation_covariance(p, h, r);
    let x = inverse(s)->Some_0;
    let ht = transpose(h);
    let hp = mat_mul(h, p);
    let hph = mat_mul(hp, ht);
    let pht = mat_mul(p, ht);
    let k = mat_mul(pht, x);
    let kh = mat_mul(k, h);
    let eye = identity::<T>(n);
    let ikh = mat_sub(eye, kh);
    let after = mat_mul(ikh, p);
    assert(k == gain(p, h, x));
    assert(after == corrected_covariance(p, h, k));

    // Shapes.
    lemma_transpose_shape(h);
    lemma_mul_shape(h, p);
    lemma_mul_shape(hp, ht);
    lemma_add_shape(hph, r, m, m);
    assert(has_shape(s, m, m));
    lemma_inverse_is_left_inverse(s, m);
    lemma_mul_shape(p, ht);
    lemma_mul_shape(pht, x);
    lemma_mul_shape(k, h);
    lemma_identity_shape::<T>(n);
    lemma_sub_shape(eye, kh, n, n);
    lemma_mul_shape(ikh, p);
    assert(has_shape(ht, n, m));
    assert(has_shape(pht, n, m));
    assert(has_shape(k, n, m));
    assert(has_shape(kh, n, n));
    assert(has_shape(ikh, n, n));
    assert(has_shape(after, n, n));

    let pv = mat_vec(p, v);
    let w = mat_vec(h, pv);
    let xw = mat_vec(x, w);
    let q = mat_vec(ht, xw);
    let t = mat_vec(p, q);

    // The updated covariance applied to v is p v - t.
    lemma_mat_vec_of_product(ikh, p, v, n, n, n);
    lemma_mat_vec_of_difference(eye, kh, pv, n, n);
    lemma_identity_mat_vec(pv);
    lemma_mat_vec_of_product(k, h, pv, n, m, n);
    lemma_mat_vec_of_product(pht, x, w, n, m, m);
    lemma_mat_vec_of_product(p, ht, xw, n, n, m);
    assert(mat_vec(kh, pv) == t);
    assert(mat_vec(after, v) == vec_sub(pv, t));

    // The difference applied to v is t.
    lemma_mat_vec_of_difference(p, after, v, n, n);
    assert forall|i: int| 0 <= i < n implies #[trigger] vec_sub(pv, vec_sub(pv, t))[i] == t[i] by {
        lemma_sub_of_difference(pv[i], t[i]);
    }
    assert(vec_sub(pv, vec_sub(pv, t)) =~= t);
    assert(mat_vec(mat_sub(p, after), v) == t);

    // v . t = w . x w.
    lemma_adjoint(v, p, q, n, n);
    lemma_symmetric_transpose(p);
    lemma_adjoint(pv, ht, xw, n, m);
    lemma_transpose_twice(h, m, n);
    assert(dot(v, t) == dot(w, xw));

    // The quadratic form of s at y = x' w is w . x w as well.
    let xt = transpose(x);
    let y = mat_vec(xt, w);
    let sy = mat_vec(s, y);
    lemma_transpose_shape(x);
    assert(has_shape(xt, m, m));
    assert(y == innovation_direction(p, h, x, v));
    lemma_adjoint(w, x, sy, m, m);
    lemma_mat_vec_of_product(x, s, y, m, m, m);
    lemma_identity_mat_vec(y);
    assert(mat_vec(x, sy) == y);
    lemma_adjoint(w, xt, w, m, m);
    lemma_transpose_twice(x, m, m);
    lemma_dot_commutes(xw, w);
    assert(quad(s, y) == dot(w, xw));
}

/// In exact arithmetic, the innovation covariance of a positive
/// semi-definite covariance under a positive semi-definite measurement noise
/// is positive semi-definite.
pub proof fn lemma_innovation_covariance_positive<T: Scalar>(
    p: Seq<Seq<T>>,
    h: Seq<Seq<T>>,
    r: Seq<Seq<T>>,
    nonneg: spec_fn(T) -> bool,
    n: nat,
    m: nat,
)
    requires
        exact_arithmetic::<T>(),
        closed_under_addition(nonneg),
        has_shape(p, n, n),
        has_shape(h, m, n),
        has_shape(r, m, m),
        n >= 1,
        m >= 1,
        positive_semidefinite(p, nonneg),
        positive_semidefinite(r, nonneg),
    ensures
        positive_semidefinite(innovation_covariance(p, h, r), nonneg),
{
    let s = innovation_covariance(p, h, r);
    let ht = transpose(h);
    let hp = mat_mul(h, p);
    let hph = mat_mul(hp, ht);
    lemma_transpose_shape(h);
    lemma_mul_shape(h, p);
    lemma_mul_shape(hp, ht);
    lemma_add_shape(hph, r, m, m);
    assert(has_shape(ht, n, m));
    assert(has_shape(hp, m, n));
    assert(has_shape(hph, m, m));
    assert forall|y: Seq<T>| y.len() == s.len() implies nonneg(#[trigger] quad(s, y)) by {
        let hty = mat_vec(ht, y);
        lemma_mat_vec_of_sum(hph, r, y, m, m);
        lemma_dot_of_sum(y, mat_vec(hph, y), mat_vec(r, y));
        lemma_mat_vec_of_product(hp, ht, y, m, n, m);
        lemma_mat_vec_of_product(h, p, hty, m, n, n);
        lemma_adjoint(y, h, mat_vec(p, hty), m, n);
        assert(quad(hph, y) == quad(p, hty));
        assert(nonneg(quad(p, hty)));
        assert(nonneg(quad(r, y)));
        assert(quad(s, y) == quad(hph, y).add_spec(quad(r, y)));
    }
}

/// A correction cannot increase uncertainty.  In exact arithmetic, where the
/// predicted covariance is symmetric and positive semi-definite and the
/// measurement noise is positive semi-definite, the predicted covariance less
/// the updated one is positive semi-definite: the update takes from the
/// variance along every direction `v`, or leaves it.
pub proof fn lemma_update_does_not_increase_covariance<T: Scalar>(
    pred: StateModel<T>,
    z: Seq<T>,
    h: Seq<Seq<T>>,
    r: Seq<Seq<T>>,
    y: Seq<T>,
    nonneg: spec_fn(T) -> bool,
)
    requires
        exact_arithmetic::<T>(),
        closed_under_addition(nonneg),
        symmetric(pred.p),
        positive_semidefinite(pred.p, nonneg),
        positive_semidefinite(r, nonneg),
        update_spec(pred, z, h, r, y) is Ok,
    ensures
        positive_semidefinite(mat_sub(pred.p, update_spec(pred, z, h, r, y)->Ok_0.p), nonneg),
{
    let n = pred.x.len();
    let m = z.len();
    let p = pred.p;
    let s = innovation_covariance(p, h, r);
    let x = inverse(s)->Some_0;
    let after = update_spec(pred, z, h, r, y)->Ok_0.p;
    assert(gain_spec(p, h, r) is Ok);
    assert(after == corrected_covariance(p, h, gain(p, h, x)));
    lemma_innovation_covariance_positive(p, h, r, nonneg, n, m);
    lemma_transpose_shape(h);
    lemma_mul_shape(h, p);
    lemma_mul_shape(mat_mul(h, p), transpose(h));
    lemma_add_shape(mat_mul(mat_mul(h, p), transpose(h)), r, m, m);
    lemma_inverse_is_left_inverse(s, m);
    lemma_transpose_shape(x);
    assert forall|v: Seq<T>| v.len() == mat_sub(p, after).len() implies nonneg(
        #[trigger] quad(mat_sub(p, after), v),
    ) by {
        lemma_reduction_is_quadratic_form(p, h, r, v, n, m);
        let d = innovation_direction(p, h, x, v);
        assert(d.len() == m);
        assert(nonneg(quad(s, d)));
    }
}

/// A correction under an observation model cannot increase uncertainty
/// either: the model only supplies the Jacobian, the measurement noise and
/// the predicted observation of the update.
pub proof fn lemma_update_with_model_does_not_increase_covariance<
    T: Scalar,
    M: ObservationModel<T>,
>(model: M, pred: StateModel<T>, z: Seq<T>, nonneg: spec_fn(T) -> bool)
    requires
        exact_arithmetic::<T>(),
        closed_under_addition(nonneg),
        symmetric(pred.p),
        positive_semidefinite(pred.p, nonneg),
        positive_semidefinite(model.noise_spec(pred.x), nonneg),
        update_with_spec(model, pred, z) is Ok,
    ensures
        positive_semidefinite(
            mat_sub(pred.p, update_with_spec(model, pred, z)->Ok_0.p),
            nonneg,
        ),
{
    lemma_update_does_not_increase_covariance(
        pred,
        z,
        model.jacobian_spec(pred.x),
        model.noise_spec(pred.x),
        model.observe_spec(pred.x),
        nonneg,
    );
}

/// In exact arithmetic, where only zero is negligible, a measurement update
/// fails for a singular innovation covariance only where that matrix is
/// singular: no matrix `l` multiplied with it gives the identity.
pub proof fn lemma_singular_innovation_covariance<T: Scalar>(
    pred: StateModel<T>,
    z: Seq<T>,
    h: Seq<Seq<T>>,
    r: Seq<Seq<T>>,
    y: Seq<T>,
    l: Seq<Seq<T>>,
)
    requires
        exact_arithmetic::<T>(),
        only_zero_negligible::<T>(),
        update_spec(pred, z, h, r, y) == Err::<StateModel<T>, KalmanError>(
            KalmanError::SingularInnovationCovariance,
        ),
        has_shape(l, z.len(), z.len()),
    ensures
        mat_mul(l, innovation_covariance(pred.p, h, r)) != identity::<T>(z.len()),
{
    let m = z.len();
    let p = pred.p;
    lemma_transpose_shape(h);
    lemma_mul_shape(h, p);
    lemma_mul_shape(mat_mul(h, p), transpose(h));
    lemma_add_shape(mat_mul(mat_mul(h, p), transpose(h)), r, m, m);
    lemma_no_inverse_is_singular(innovation_covariance(p, h, r), l, m);
}

/// In exact arithmetic, a measurement update that succeeds has inverted the
/// innovation covariance: the matrix it used multiplied with the innovation
/// covariance gives the identity.
pub proof fn lemma_update_inverts_innovation_covariance<T: Scalar>(
    pred: StateModel<T>,
    z: Seq<T>,
    h: Seq<Seq<T>>,
    r: Seq<Seq<T>>,
    y: Seq<T>,
)
    requires
        exact_arithmetic::<T>(),
        update_spec(pred, z, h, r, y) is Ok,
    ensures
        inverse(innovation_covariance(pred.p, h, r)) is Some,
        mat_mul(
            inverse(innovation_covariance(pred.p, h, r))->Some_0,
            innovation_covariance(pred.p, h, r),
        ) == identity::<T>(z.len()),
{
    let m = z.len();
    let p = pred.p;
    lemma_transpose_shape(h);
    lemma_mul_shape(h, p);
    lemma_mul_shape(mat_mul(h, p), transpose(h));
    lemma_add_shape(mat_mul(mat_mul(h, p), transpose(h)), r, m, m);
    lemma_inverse_is_left_inverse(innovation_covariance(p, h, r), m);
}

/// In exact arithmetic, where only zero is negligible, a backward step fails
/// for a singular predicted covariance only where that matrix is singular: no
/// matrix `l` multiplied with it gives the identity.
pub proof fn lemma_singular_predicted_covariance<T: Scalar>(
    f: Seq<Seq<T>>,
    next: StateModel<T>,
    filtered: StateModel<T>,
    predicted: StateModel<T>,
    l: Seq<Seq<T>>,
)
    requires
        exact_arithmetic::<T>(),
        only_zero_negligible::<T>(),
        smoothing_step_spec(f, next, filtered, predicted) == Err::<StateModel<T>, KalmanError>(
            KalmanError::SingularPredictedCovariance,
        ),
        has_shape(l, filtered.x.len(), filtered.x.len()),
    ensures
        mat_mul(l, predicted.p) != identity::<T>(filtered.x.len()),
{
    lemma_no_inverse_is_singular(predicted.p, l, filtered.x.len());
}

} // verus!
