//! The estimator: prediction, measurement update, the forward pass over a
//! sequence of observations, and the backward smoothing pass.
//!
//! Every step looks at the dimensions of what it is given.  With `n` the
//! length of the state mean and `m` the length of the observation, both at
//! least one, a step asks for covariances and a transition of `n` by `n`, a
//! Jacobian of `m` by `n`, a measurement noise of `m` by `m` and a predicted
//! observation of length `m`; anything else is a
//! [`KalmanError::DimensionMismatch`] that names the first operand found
//! amiss.

use vstd::prelude::*;
use crate::scalar::Scalar;
use crate::linalg::{
    ncols, has_shape, vec_add, vec_sub, mat_add, mat_sub, transpose, mat_vec, mat_mul, identity,
    lemma_mul_shape, lemma_transpose_shape, lemma_add_shape, lemma_sub_shape,
    lemma_identity_shape,
};
use crate::inverse::inverse;
use crate::matrix::{Matrix, grid, copy_vector, vector_sum, vector_difference};
use crate::error::{KalmanError, Operand, RunError};
use crate::state::{StateModel, KalmanState, states};
use crate::observation::ObservationModel;

verus! {

/// The outcome of a step, with the estimate as a mathematical value.
pub open spec fn step_result<T>(r: Result<KalmanState<T>, KalmanError>) -> Result<
    StateModel<T>,
    KalmanError,
> {
    match r {
        Ok(s) => Ok(s@),
        Err(e) => Err(e),
    }
}

/// The two sequences of a forward pass: the estimate after each observation,
/// and the prediction before each observation and after the last.
pub struct Forward<T> {
    pub filtered: Seq<StateModel<T>>,
    pub predicted: Seq<StateModel<T>>,
}

/// The outcome of a forward pass, with the estimates as mathematical values.
pub open spec fn forward_result<T>(
    r: Result<(Vec<KalmanState<T>>, Vec<KalmanState<T>>), RunError>,
) -> Result<Forward<T>, RunError> {
    match r {
        Ok(pair) => Ok(Forward { filtered: states(pair.0@), predicted: states(pair.1@) }),
        Err(e) => Err(e),
    }
}

/// The outcome of a smoothing pass, with the estimates as mathematical values.
pub open spec fn smooth_result<T>(r: Result<Vec<KalmanState<T>>, RunError>) -> Result<
    Seq<StateModel<T>>,
    RunError,
> {
    match r {
        Ok(v) => Ok(states(v@)),
        Err(e) => Err(e),
    }
}

/// What a prediction finds amiss, if anything: with `n` the length of the
/// mean, which is at least one, the covariance, the transition and the
/// process noise are all `n` by `n`.
pub open spec fn predict_mismatch<T>(f: Seq<Seq<T>>, q: Seq<Seq<T>>, prior: StateModel<T>) -> Option<
    Operand,
> {
    let n = prior.x.len();
    if n == 0 {
        Some(Operand::StateMean)
    } else if !has_shape(prior.p, n, n) {
        Some(Operand::StateCovariance)
    } else if !has_shape(f, n, n) {
        Some(Operand::Transition)
    } else if !has_shape(q, n, n) {
        Some(Operand::ProcessNoise)
    } else {
        None
    }
}

/// The time update: the mean becomes `f x`, the covariance `f p f' + q`.
pub open spec fn predict_spec<T: Scalar>(
    f: Seq<Seq<T>>,
    q: Seq<Seq<T>>,
    prior: StateModel<T>,
) -> Result<StateModel<T>, KalmanError> {
    match predict_mismatch(f, q, prior) {
        Some(operand) => Err(KalmanError::DimensionMismatch(operand)),
        None => Ok(
            StateModel {
                x: mat_vec(f, prior.x),
                p: mat_add(mat_mul(mat_mul(f, prior.p), transpose(f)), q),
            },
        ),
    }
}

/// The covariance of the innovation: `h p h' + r`.
pub open spec fn innovation_covariance<T: Scalar>(
    p: Seq<Seq<T>>,
    h: Seq<Seq<T>>,
    r: Seq<Seq<T>>,
) -> Seq<Seq<T>> {
    mat_add(mat_mul(mat_mul(h, p), transpose(h)), r)
}

/// The gain: `p h'` times the inverse `si` of the innovation covariance.
pub open spec fn gain<T: Scalar>(p: Seq<Seq<T>>, h: Seq<Seq<T>>, si: Seq<Seq<T>>) -> Seq<Seq<T>> {
    mat_mul(mat_mul(p, transpose(h)), si)
}

/// The estimate corrected with gain `k`: the mean moves by `k (z - y)`, the
/// covariance becomes `(1 - k h) p`.
pub open spec fn corrected<T: Scalar>(
    pred: StateModel<T>,
    z: Seq<T>,
    h: Seq<Seq<T>>,
    y: Seq<T>,
    k: Seq<Seq<T>>,
) -> StateModel<T> {
    StateModel {
        x: vec_add(pred.x, mat_vec(k, vec_sub(z, y))),
        p: mat_mul(mat_sub(identity::<T>(pred.x.len()), mat_mul(k, h)), pred.p),
    }
}

/// What the computation of a gain finds amiss, if anything: with `n` rows in
/// `p` and `m` rows in `h`, both at least one, `p` is `n` by `n`, `h` is `m` by
/// `n` and `r` is `m` by `m`.
pub open spec fn gain_mismatch<T>(p: Seq<Seq<T>>, h: Seq<Seq<T>>, r: Seq<Seq<T>>) -> Option<
    Operand,
> {
    let n = p.len();
    let m = h.len();
    if n == 0 || !has_shape(p, n, n) {
        Some(Operand::StateCovariance)
    } else if m == 0 || !has_shape(h, m, n) {
        Some(Operand::Jacobian)
    } else if !has_shape(r, m, m) {
        Some(Operand::MeasurementNoise)
    } else {
        None
    }
}

/// The gain for a predicted covariance `p` under the Jacobian `h` and the
/// measurement noise `r`, where the innovation covariance can be inverted.
pub open spec fn gain_spec<T: Scalar>(p: Seq<Seq<T>>, h: Seq<Seq<T>>, r: Seq<Seq<T>>) -> Result<
    Seq<Seq<T>>,
    KalmanError,
> {
    match gain_mismatch(p, h, r) {
        Some(operand) => Err(KalmanError::DimensionMismatch(operand)),
        None => match inverse(innovation_covariance(p, h, r)) {
            None => Err(KalmanError::SingularInnovationCovariance),
            Some(si) => Ok(gain(p, h, si)),
        },
    }
}

/// What a measurement update finds amiss, if anything: the mean is not
/// empty, the covariance has as many rows as the mean has entries, the
/// observation and the predicted observation have as many entries as the
/// Jacobian has rows, and the gain can be computed.
pub open spec fn update_mismatch<T>(
    pred: StateModel<T>,
    z: Seq<T>,
    h: Seq<Seq<T>>,
    r: Seq<Seq<T>>,
    y: Seq<T>,
) -> Option<Operand> {
    if pred.x.len() == 0 {
        Some(Operand::StateMean)
    } else if pred.p.len() != pred.x.len() {
        Some(Operand::StateCovariance)
    } else if z.len() != h.len() {
        Some(Operand::Observation)
    } else if y.len() != h.len() {
        Some(Operand::PredictedObservation)
    } else {
        gain_mismatch(pred.p, h, r)
    }
}

/// The measurement update of `pred` with the observation `z`, given the
/// Jacobian `h`, the measurement noise `r` and the predicted observation `y`.
pub open spec fn update_spec<T: Scalar>(
    pred: StateModel<T>,
    z: Seq<T>,
    h: Seq<Seq<T>>,
    r: Seq<Seq<T>>,
    y: Seq<T>,
) -> Result<StateModel<T>, KalmanError> {
    match update_mismatch(pred, z, h, r, y) {
        Some(operand) => Err(KalmanError::DimensionMismatch(operand)),
        None => match inverse(innovation_covariance(pred.p, h, r)) {
            None => Err(KalmanError::SingularInnovationCovariance),
            Some(si) => Ok(corrected(pred, z, h, y, gain(pred.p, h, si))),
        },
    }
}

/// The measurement update of `pred` with the observation `z` under `model`,
/// linearised at the predicted mean.
pub open spec fn update_with_spec<T: Scalar, M: ObservationModel<T>>(
    model: M,
    pred: StateModel<T>,
    z: Seq<T>,
) -> Result<StateModel<T>, KalmanError> {
    if pred.x.len() == model.state_dim() {
        update_spec(
            pred,
            z,
            model.jacobian_spec(pred.x),
            model.noise_spec(pred.x),
            model.observe_spec(pred.x),
        )
    } else {
        Err(KalmanError::DimensionMismatch(Operand::StateMean))
    }
}

/// What a backward step finds amiss, if anything: with `n` the length of the
/// filtered mean, which is at least one, the predicted and the smoothed mean
/// have length `n`, and the three covariances and the transition are `n` by
/// `n`.
pub open spec fn smoothing_mismatch<T>(
    f: Seq<Seq<T>>,
    next: StateModel<T>,
    filtered: StateModel<T>,
    predicted: StateModel<T>,
) -> Option<Operand> {
    let n = filtered.x.len();
    if n == 0 {
        Some(Operand::StateMean)
    } else if !has_shape(filtered.p, n, n) {
        Some(Operand::StateCovariance)
    } else if !has_shape(f, n, n) {
        Some(Operand::Transition)
    } else if predicted.x.len() != n {
        Some(Operand::PredictedMean)
    } else if !has_shape(predicted.p, n, n) {
        Some(Operand::PredictedCovariance)
    } else if next.x.len() != n {
        Some(Operand::SmoothedMean)
    } else if !has_shape(next.p, n, n) {
        Some(Operand::SmoothedCovariance)
    } else {
        None
    }
}

/// One backward step of the smoother: from the smoothed estimate `next` of
/// the following step, and the filtered and predicted estimates around the
/// transition `f`, the smoothed estimate of this step.  With `j` the
/// smoother gain `p f'` times the inverse of the predicted covariance, the
/// mean moves by `j` times what smoothing added to the predicted mean, and
/// the covariance by `j` times what it added to the predicted covariance
/// times `j'`.
pub open spec fn smoothing_step_spec<T: Scalar>(
    f: Seq<Seq<T>>,
    next: StateModel<T>,
    filtered: StateModel<T>,
    predicted: StateModel<T>,
) -> Result<StateModel<T>, KalmanError> {
    match smoothing_mismatch(f, next, filtered, predicted) {
        Some(operand) => Err(KalmanError::DimensionMismatch(operand)),
        None => match inverse(predicted.p) {
            None => Err(KalmanError::SingularPredictedCovariance),
            Some(pi) => {
                let j = mat_mul(mat_mul(filtered.p, transpose(f)), pi);
                Ok(
                    StateModel {
                        x: vec_add(filtered.x, mat_vec(j, vec_sub(next.x, predicted.x))),
                        p: mat_add(
                            filtered.p,
                            mat_mul(mat_mul(j, mat_sub(next.p, predicted.p)), transpose(j)),
                        ),
                    },
                )
            },
        },
    }
}

/// The forward pass over the first `k` observations of `data`: the prior is
/// the first prediction; each observation corrects the latest prediction, and
/// the corrected estimate is predicted one step on.  The pass fails at the
/// first step that fails, with that step's index.
pub open spec fn forward_spec<T: Scalar, M: ObservationModel<T>>(
    f: Seq<Seq<T>>,
    q: Seq<Seq<T>>,
    model: M,
    prior: StateModel<T>,
    data: Seq<Seq<T>>,
    k: nat,
) -> Result<Forward<T>, RunError>
    decreases k,
{
    if k == 0 {
        Ok(Forward { filtered: Seq::empty(), predicted: seq![prior] })
    } else {
        match forward_spec(f, q, model, prior, data, (k - 1) as nat) {
            Err(e) => Err(e),
            Ok(sofar) => match update_with_spec(model, sofar.predicted[k - 1], data[k - 1]) {
                Err(e) => Err(RunError { step: (k - 1) as usize, error: e }),
                Ok(u) => match predict_spec(f, q, u) {
                    Err(e) => Err(RunError { step: (k - 1) as usize, error: e }),
                    Ok(p) => Ok(
                        Forward {
                            filtered: sofar.filtered.push(u),
                            predicted: sofar.predicted.push(p),
                        },
                    ),
                },
            },
        }
    }
}

/// The smoothed estimates of the steps from `k` to the last: the last is the
/// last filtered estimate, and each earlier one comes from the one after it by
/// a backward step.  The pass fails at the first step, going backward, that
/// fails, with that step's index.
pub open spec fn smooth_from<T: Scalar>(
    f: Seq<Seq<T>>,
    filtered: Seq<StateModel<T>>,
    predicted: Seq<StateModel<T>>,
    k: int,
) -> Result<Seq<StateModel<T>>, RunError>
    decreases filtered.len() - k,
{
    if k >= filtered.len() - 1 {
        Ok(seq![filtered[filtered.len() - 1]])
    } else {
        match smooth_from(f, filtered, predicted, k + 1) {
            Err(e) => Err(e),
            Ok(tail) => match smoothing_step_spec(f, tail[0], filtered[k], predicted[k + 1]) {
                Err(e) => Err(RunError { step: k as usize, error: e }),
                Ok(s) => Ok(seq![s] + tail),
            },
        }
    }
}

/// The backward pass over the results of a forward pass: `filtered` of some
/// length and `predicted` one longer.  Sequences of other lengths are a
/// dimension mismatch at step zero; from no estimates come none.
pub open spec fn smooth_spec<T: Scalar>(
    f: Seq<Seq<T>>,
    filtered: Seq<StateModel<T>>,
    predicted: Seq<StateModel<T>>,
) -> Result<Seq<StateModel<T>>, RunError> {
    if predicted.len() != filtered.len() + 1 {
        Err(RunError { step: 0, error: KalmanError::DimensionMismatch(Operand::Sequences) })
    } else if filtered.len() == 0 {
        Ok(Seq::empty())
    } else {
        smooth_from(f, filtered, predicted, 0)
    }
}

/// A forward pass that has failed within `k` steps has failed, in the same
/// way, within any greater number of steps.
pub proof fn lemma_forward_failure_persists<T: Scalar, M: ObservationModel<T>>(
    f: Seq<Seq<T>>,
    q: Seq<Seq<T>>,
    model: M,
    prior: StateModel<T>,
    data: Seq<Seq<T>>,
    k: nat,
    l: nat,
)
    requires
        forward_spec(f, q, model, prior, data, k) is Err,
        k <= l,
    ensures
        forward_spec(f, q, model, prior, data, l) == forward_spec(f, q, model, prior, data, k),
    decreases l,
{
    if k < l {
        lemma_forward_failure_persists(f, q, model, prior, data, k, (l - 1) as nat);
    }
}

/// A backward pass that has failed on its way down to step `k` has failed, in
/// the same way, on its way down to any earlier step.
pub proof fn lemma_smooth_failure_persists<T: Scalar>(
    f: Seq<Seq<T>>,
    filtered: Seq<StateModel<T>>,
    predicted: Seq<StateModel<T>>,
    k: int,
    l: int,
)
    requires
        smooth_from(f, filtered, predicted, k) is Err,
        0 <= l <= k,
    ensures
        smooth_from(f, filtered, predicted, l) == smooth_from(f, filtered, predicted, k),
    decreases k - l,
{
    if l < k {
        lemma_smooth_failure_persists(f, filtered, predicted, k, l + 1);
        assert(k < filtered.len() - 1) by {
            if k >= filtered.len() - 1 {
                assert(smooth_from(f, filtered, predicted, k) is Ok);
            }
        }
    }
}

/// A fixed transition and the covariance of the noise it lets in.
#[derive(Debug)]
pub struct LinearDynamicsModel<T> {
    pub transition: Matrix<T>,
    pub process_noise_covariance: Matrix<T>,
}

/// A linear filter: its model and its prior.
///
/// * `q`: process noise covariance
/// * `r`: measurement noise covariance
/// * `h`: observation matrix
/// * `f`: state transition matrix
/// * `x0`: the prior mean
/// * `p0`: the prior covariance
#[derive(Debug)]
pub struct KalmanFilter<T> {
    pub q: Matrix<T>,
    pub r: Matrix<T>,
    pub h: Matrix<T>,
    pub f: Matrix<T>,
    pub x0: Vec<T>,
    pub p0: Matrix<T>,
}

impl<T: Scalar> ObservationModel<T> for KalmanFilter<T> {
    open spec fn state_dim(&self) -> nat {
        ncols(self.h@)
    }

    open spec fn jacobian_spec(&self, at: Seq<T>) -> Seq<Seq<T>> {
        self.h@
    }

    open spec fn noise_spec(&self, at: Seq<T>) -> Seq<Seq<T>> {
        self.r@
    }

    open spec fn observe_spec(&self, state: Seq<T>) -> Seq<T> {
        mat_vec(self.h@, state)
    }

    fn state_dimension(&self) -> (n: usize) {
        self.h.ncols()
    }

    fn jacobian_at(&self, at: &Vec<T>) -> (h: Matrix<T>) {
        self.h.clone()
    }

    fn noise_covariance(&self, at: &Vec<T>) -> (r: Matrix<T>) {
        self.r.clone()
    }

    fn observe(&self, state: &Vec<T>) -> (z: Vec<T>) {
        self.h.times_vector(state)
    }
}

fn predict_core<T: Scalar>(f: &Matrix<T>, q: &Matrix<T>, prior: &KalmanState<T>) -> (res: Result<
    KalmanState<T>,
    KalmanError,
>)
    ensures
        step_result(res) == predict_spec(f@, q@, prior@),
{
    let n = prior.x.len();
    if n == 0 {
        return Err(KalmanError::DimensionMismatch(Operand::StateMean));
    }
    if !prior.p.is_shape(n, n) {
        return Err(KalmanError::DimensionMismatch(Operand::StateCovariance));
    }
    if !f.is_shape(n, n) {
        return Err(KalmanError::DimensionMismatch(Operand::Transition));
    }
    if !q.is_shape(n, n) {
        return Err(KalmanError::DimensionMismatch(Operand::ProcessNoise));
    }
    let x = f.times_vector(&prior.x);
    let fp = f.times(&prior.p);
    let ft = f.transpose();
    proof {
        lemma_mul_shape(f@, prior.p@);
        lemma_transpose_shape(f@);
    }
    let fpf = fp.times(&ft);
    proof {
        lemma_mul_shape(fp@, ft@);
    }
    let p = fpf.plus(q);
    Ok(KalmanState { x, p })
}

/// The gain for a predicted covariance `p` under the Jacobian `h` and the
/// measurement noise `r`.
pub fn kalman_gain<T: Scalar>(p: &Matrix<T>, h: &Matrix<T>, r: &Matrix<T>) -> (res: Result<
    Matrix<T>,
    KalmanError,
>)
    ensures
        match res {
            Ok(k) => gain_spec(p@, h@, r@) == Ok::<Seq<Seq<T>>, KalmanError>(k@) && has_shape(
                k@,
                p@.len(),
                h@.len(),
            ),
            Err(e) => gain_spec(p@, h@, r@) == Err::<Seq<Seq<T>>, KalmanError>(e),
        },
{
    let n = p.nrows();
    let m = h.nrows();
    if n == 0 || !p.is_shape(n, n) {
        return Err(KalmanError::DimensionMismatch(Operand::StateCovariance));
    }
    if m == 0 || !h.is_shape(m, n) {
        return Err(KalmanError::DimensionMismatch(Operand::Jacobian));
    }
    if !r.is_shape(m, m) {
        return Err(KalmanError::DimensionMismatch(Operand::MeasurementNoise));
    }
    let ht = h.transpose();
    let hp = h.times(p);
    proof {
        lemma_transpose_shape(h@);
        lemma_mul_shape(h@, p@);
    }
    let hph = hp.times(&ht);
    proof {
        lemma_mul_shape(hp@, ht@);
    }
    let s = hph.plus(r);
    proof {
        lemma_add_shape(hph@, r@, m as nat, m as nat);
    }
    match s.inverse() {
        None => Err(KalmanError::SingularInnovationCovariance),
        Some(si) => {
            let pht = p.times(&ht);
            proof {
                lemma_mul_shape(p@, ht@);
            }
            let k = pht.times(&si);
            proof {
                lemma_mul_shape(pht@, si@);
            }
            Ok(k)
        },
    }
}

fn update_core<T: Scalar>(
    pred: &KalmanState<T>,
    z: &Vec<T>,
    h: &Matrix<T>,
    r: &Matrix<T>,
    y: &Vec<T>,
) -> (res: Result<KalmanState<T>, KalmanError>)
    ensures
        step_result(res) == update_spec(pred@, z@, h@, r@, y@),
{
    let n = pred.x.len();
    let m = h.nrows();
    if n == 0 {
        return Err(KalmanError::DimensionMismatch(Operand::StateMean));
    }
    if pred.p.nrows() != n {
        return Err(KalmanError::DimensionMismatch(Operand::StateCovariance));
    }
    if z.len() != m {
        return Err(KalmanError::DimensionMismatch(Operand::Observation));
    }
    if y.len() != m {
        return Err(KalmanError::DimensionMismatch(Operand::PredictedObservation));
    }
    let k = match kalman_gain(&pred.p, h, r) {
        Err(e) => {
            return Err(e);
        },
        Ok(k) => k,
    };
    let innovation = vector_difference(z, y);
    let shift = k.times_vector(&innovation);
    let x = vector_sum(&pred.x, &shift);
    let kh = k.times(h);
    let eye = Matrix::<T>::identity(n);
    proof {
        lemma_mul_shape(k@, h@);
        lemma_identity_shape::<T>(n as nat);
    }
    let ikh = eye.minus(&kh);
    proof {
        lemma_sub_shape(eye@, kh@, n as nat, n as nat);
    }
    let p = ikh.times(&pred.p);
    Ok(KalmanState { x, p })
}

fn smoothing_step<T: Scalar>(
    f: &Matrix<T>,
    init: &KalmanState<T>,
    filtered: &KalmanState<T>,
    predicted: &KalmanState<T>,
) -> (res: Result<KalmanState<T>, KalmanError>)
    ensures
        step_result(res) == smoothing_step_spec(f@, init@, filtered@, predicted@),
{
    let n = filtered.x.len();
    if n == 0 {
        return Err(KalmanError::DimensionMismatch(Operand::StateMean));
    }
    if !filtered.p.is_shape(n, n) {
        return Err(KalmanError::DimensionMismatch(Operand::StateCovariance));
    }
    if !f.is_shape(n, n) {
        return Err(KalmanError::DimensionMismatch(Operand::Transition));
    }
    if predicted.x.len() != n {
        return Err(KalmanError::DimensionMismatch(Operand::PredictedMean));
    }
    if !predicted.p.is_shape(n, n) {
        return Err(KalmanError::DimensionMismatch(Operand::PredictedCovariance));
    }
    if init.x.len() != n {
        return Err(KalmanError::DimensionMismatch(Operand::SmoothedMean));
    }
    if !init.p.is_shape(n, n) {
        return Err(KalmanError::DimensionMismatch(Operand::SmoothedCovariance));
    }
    match predicted.p.inverse() {
        None => Err(KalmanError::SingularPredictedCovariance),
        Some(pi) => {
            let ft = f.transpose();
            proof {
                lemma_transpose_shape(f@);
            }
            let pft = filtered.p.times(&ft);
            proof {
                lemma_mul_shape(filtered.p@, ft@);
            }
            let j = pft.times(&pi);
            proof {
                lemma_mul_shape(pft@, pi@);
            }
            let dx = vector_difference(&init.x, &predicted.x);
            let shift = j.times_vector(&dx);
            let x = vector_sum(&filtered.x, &shift);
            let dp = init.p.minus(&predicted.p);
            proof {
                lemma_sub_shape(init.p@, predicted.p@, n as nat, n as nat);
            }
            let jdp = j.times(&dp);
            let jt = j.transpose();
            proof {
                lemma_mul_shape(j@, dp@);
                lemma_transpose_shape(j@);
            }
            let jdpj = jdp.times(&jt);
            proof {
                lemma_mul_shape(jdp@, jt@);
            }
            let p = filtered.p.plus(&jdpj);
            Ok(KalmanState { x, p })
        },
    }
}

/// The time update of `prior` under `dynamics`.
pub fn predict<T: Scalar>(dynamics: &LinearDynamicsModel<T>, prior: &KalmanState<T>) -> (res:
    Result<KalmanState<T>, KalmanError>)
    ensures
        step_result(res) == predict_spec(
            dynamics.transition@,
            dynamics.process_noise_covariance@,
            prior@,
        ),
{
    predict_core(&dynamics.transition, &dynamics.process_noise_covariance, prior)
}

/// The time update of `init` under the transition and process noise of
/// `kalman_filter`.
pub fn predict_step<T: Scalar>(kalman_filter: &KalmanFilter<T>, init: &KalmanState<T>) -> (res:
    Result<KalmanState<T>, KalmanError>)
    ensures
        step_result(res) == predict_spec(kalman_filter.f@, kalman_filter.q@, init@),
{
    predict_core(&kalman_filter.f, &kalman_filter.q, init)
}

/// The measurement update of `pred` with `measure` under `model`, linearised
/// at the mean of `pred`.
pub fn update_step_with<T: Scalar, M: ObservationModel<T>>(
    model: &M,
    pred: &KalmanState<T>,
    measure: &Vec<T>,
) -> (res: Result<KalmanState<T>, KalmanError>)
    ensures
        step_result(res) == update_with_spec(*model, pred@, measure@),
{
    if pred.x.len() != model.state_dimension() {
        return Err(KalmanError::DimensionMismatch(Operand::StateMean));
    }
    let h = model.jacobian_at(&pred.x);
    let r = model.noise_covariance(&pred.x);
    let y = model.observe(&pred.x);
    update_core(pred, measure, &h, &r, &y)
}

/// The measurement update of `pred` with `measure` under the observation
/// matrix and measurement noise of `kalman_filter`.
pub fn update_step<T: Scalar>(
    kalman_filter: &KalmanFilter<T>,
    pred: &KalmanState<T>,
    measure: &Vec<T>,
) -> (res: Result<KalmanState<T>, KalmanError>)
    ensures
        step_result(res) == update_with_spec(*kalman_filter, pred@, measure@),
{
    if pred.x.len() != kalman_filter.h.ncols() {
        return Err(KalmanError::DimensionMismatch(Operand::StateMean));
    }
    let y = kalman_filter.h.times_vector(&pred.x);
    update_core(pred, measure, &kalman_filter.h, &kalman_filter.r, &y)
}

/// What [`filter_step`] returns: the prediction from `init`, and its
/// correction with `z`; the first failure otherwise.
pub open spec fn filter_step_spec<T: Scalar>(
    kalman_filter: KalmanFilter<T>,
    init: StateModel<T>,
    z: Seq<T>,
) -> Result<(StateModel<T>, StateModel<T>), KalmanError> {
    match predict_spec(kalman_filter.f@, kalman_filter.q@, init) {
        Err(e) => Err(e),
        Ok(pred) => match update_with_spec(kalman_filter, pred, z) {
            Err(e) => Err(e),
            Ok(upd) => Ok((upd, pred)),
        },
    }
}

/// A prediction from `init` followed by its correction with `measure`: the
/// corrected estimate first, the prediction second.
pub fn filter_step<T: Scalar>(
    kalman_filter: &KalmanFilter<T>,
    init: &KalmanState<T>,
    measure: &Vec<T>,
) -> (res: Result<(KalmanState<T>, KalmanState<T>), KalmanError>)
    ensures
        match res {
            Ok(pair) => filter_step_spec(*kalman_filter, init@, measure@) == Ok::<
                (StateModel<T>, StateModel<T>),
                KalmanError,
            >((pair.0@, pair.1@)),
            Err(e) => filter_step_spec(*kalman_filter, init@, measure@) == Err::<
                (StateModel<T>, StateModel<T>),
                KalmanError,
            >(e),
        },
{
    let pred = match predict_step(kalman_filter, init) {
        Err(e) => {
            return Err(e);
        },
        Ok(pred) => pred,
    };
    let upd = match update_step(kalman_filter, &pred, measure) {
        Err(e) => {
            return Err(e);
        },
        Ok(upd) => upd,
    };
    Ok((upd, pred))
}

fn forward_pass<T: Scalar, M: ObservationModel<T>>(
    f: &Matrix<T>,
    q: &Matrix<T>,
    model: &M,
    prior: KalmanState<T>,
    data: &Vec<Vec<T>>,
) -> (res: Result<(Vec<KalmanState<T>>, Vec<KalmanState<T>>), RunError>)
    ensures
        forward_result(res) == forward_spec(f@, q@, *model, prior@, grid(*data), data@.len()),
        res matches Ok(pair) ==> pair.0@.len() == data@.len() && pair.1@.len() == data@.len() + 1,
{
    let t = data.len();
    let ghost start = prior@;
    let mut predicted: Vec<KalmanState<T>> = Vec::new();
    let mut filtered: Vec<KalmanState<T>> = Vec::new();
    predicted.push(prior);
    proof {
        assert(states(filtered@) =~= Seq::<StateModel<T>>::empty());
        assert(states(predicted@) =~= seq![start]);
    }
    let mut k: usize = 0;
    while k < t
        invariant
            k <= t,
            t == data@.len(),
            start == prior@,
            filtered@.len() == k,
            predicted@.len() == k + 1,
            forward_spec(f@, q@, *model, start, grid(*data), k as nat) == Ok::<
                Forward<T>,
                RunError,
            >(Forward { filtered: states(filtered@), predicted: states(predicted@) }),
        decreases t - k,
    {
        let ghost before = Forward { filtered: states(filtered@), predicted: states(predicted@) };
        proof {
            assert(before.predicted[k as int] == predicted@[k as int]@);
            assert(grid(*data)[k as int] == data@[k as int]@);
        }
        let u = match update_step_with(model, &predicted[k], &data[k]) {
            Err(e) => {
                proof {
                    assert(forward_spec(f@, q@, *model, start, grid(*data), (k + 1) as nat)
                        == Err::<Forward<T>, RunError>(RunError { step: k, error: e }));
                    lemma_forward_failure_persists(
                        f@,
                        q@,
                        *model,
                        start,
                        grid(*data),
                        (k + 1) as nat,
                        t as nat,
                    );
                }
                return Err(RunError { step: k, error: e });
            },
            Ok(u) => u,
        };
        let p = match predict_core(f, q, &u) {
            Err(e) => {
                proof {
                    assert(forward_spec(f@, q@, *model, start, grid(*data), (k + 1) as nat)
                        == Err::<Forward<T>, RunError>(RunError { step: k, error: e }));
                    lemma_forward_failure_persists(
                        f@,
                        q@,
                        *model,
                        start,
                        grid(*data),
                        (k + 1) as nat,
                        t as nat,
                    );
                }
                return Err(RunError { step: k, error: e });
            },
            Ok(p) => p,
        };
        filtered.push(u);
        predicted.push(p);
        proof {
            assert(states(filtered@) =~= before.filtered.push(u@));
            assert(states(predicted@) =~= before.predicted.push(p@));
        }
        k += 1;
    }
    Ok((filtered, predicted))
}

/// The forward pass from `prior` over `data` under `dynamics` and `model`:
/// the filtered estimates, one for each observation, and the predictions,
/// one more.  The model is linearised anew at each predicted mean.
pub fn filter_with<T: Scalar, M: ObservationModel<T>>(
    dynamics: &LinearDynamicsModel<T>,
    model: &M,
    prior: &KalmanState<T>,
    data: &Vec<Vec<T>>,
) -> (res: Result<(Vec<KalmanState<T>>, Vec<KalmanState<T>>), RunError>)
    ensures
        forward_result(res) == forward_spec(
            dynamics.transition@,
            dynamics.process_noise_covariance@,
            *model,
            prior@,
            grid(*data),
            data@.len(),
        ),
        res matches Ok(pair) ==> pair.0@.len() == data@.len() && pair.1@.len() == data@.len() + 1,
{
    forward_pass(
        &dynamics.transition,
        &dynamics.process_noise_covariance,
        model,
        prior.clone(),
        data,
    )
}

/// The backward pass under the transition `f` over the results of a forward
/// pass.
pub fn smooth_with<T: Scalar>(
    f: &Matrix<T>,
    filtered: &Vec<KalmanState<T>>,
    predicted: &Vec<KalmanState<T>>,
) -> (res: Result<Vec<KalmanState<T>>, RunError>)
    ensures
        smooth_result(res) == smooth_spec(f@, states(filtered@), states(predicted@)),
        res matches Ok(v) ==> v@.len() == filtered@.len(),
{
    let t = filtered.len();
    proof {
        assert(states(filtered@).len() == filtered@.len());
        assert(states(predicted@).len() == predicted@.len());
    }
    let given = predicted.len();
    if t == usize::MAX || given != t + 1 {
        return Err(RunError { step: 0, error: KalmanError::DimensionMismatch(Operand::Sequences) });
    }
    let mut backward: Vec<KalmanState<T>> = Vec::new();
    if t == 0 {
        proof {
            assert(states(backward@) =~= Seq::<StateModel<T>>::empty());
        }
        return Ok(backward);
    }
    let ghost fs = states(filtered@);
    let ghost ps = states(predicted@);
    backward.push(filtered[t - 1].clone());
    let ghost mut tail: Seq<StateModel<T>> = seq![fs[t - 1]];
    let mut k: usize = t - 1;
    while k > 0
        invariant
            k < t,
            t == filtered@.len(),
            predicted@.len() == t + 1,
            fs == states(filtered@),
            ps == states(predicted@),
            backward@.len() == t - k,
            tail.len() == t - k,
            smooth_from(f@, fs, ps, k as int) == Ok::<Seq<StateModel<T>>, RunError>(tail),
            forall|i: int| 0 <= i < t - k ==> (#[trigger] backward@[i])@ == tail[t - k - 1 - i],
        decreases k,
    {
        let init = &backward[t - k - 1];
        assert(init@ == tail[0]);
        let s = match smoothing_step(f, init, &filtered[k - 1], &predicted[k]) {
            Err(e) => {
                proof {
                    assert(smooth_from(f@, fs, ps, k - 1) == Err::<Seq<StateModel<T>>, RunError>(
                        RunError { step: (k - 1) as usize, error: e },
                    ));
                    lemma_smooth_failure_persists(f@, fs, ps, k - 1, 0);
                }
                return Err(RunError { step: k - 1, error: e });
            },
            Ok(s) => s,
        };
        proof {
            tail = seq![s@] + tail;
        }
        backward.push(s);
        k -= 1;
    }
    let mut smoothed: Vec<KalmanState<T>> = Vec::new();
    while backward.len() > 0
        invariant
            backward@.len() + smoothed@.len() == t,
            tail.len() == t,
            forall|i: int|
                0 <= i < backward@.len() ==> (#[trigger] backward@[i])@ == tail[t - 1 - i],
            forall|i: int| 0 <= i < smoothed@.len() ==> (#[trigger] smoothed@[i])@ == tail[i],
        decreases backward@.len(),
    {
        let s = backward.pop().unwrap();
        smoothed.push(s);
    }
    proof {
        assert(states(smoothed@) =~= tail);
    }
    Ok(smoothed)
}

impl<T: Scalar> KalmanFilter<T> {
    /// The prior of the filter as an estimate.
    pub open spec fn prior(self) -> StateModel<T> {
        StateModel { x: self.x0@, p: self.p0@ }
    }

    /// The forward pass over `data`, from the prior of the filter: the
    /// filtered estimates, one for each observation, and the predictions, one
    /// more.
    pub fn filter(&self, data: &Vec<Vec<T>>) -> (res: Result<
        (Vec<KalmanState<T>>, Vec<KalmanState<T>>),
        RunError,
    >)
        ensures
            forward_result(res) == forward_spec(
                self.f@,
                self.q@,
                *self,
                self.prior(),
                grid(*data),
                data@.len(),
            ),
            res matches Ok(pair) ==> pair.0@.len() == data@.len() && pair.1@.len() == data@.len()
                + 1,
    {
        let prior = KalmanState { x: copy_vector(&self.x0), p: self.p0.clone() };
        forward_pass(&self.f, &self.q, self, prior, data)
    }

    /// The backward pass over the results of a forward pass of this filter.
    pub fn smooth(&self, filtered: &Vec<KalmanState<T>>, predicted: &Vec<KalmanState<T>>) -> (res:
        Result<Vec<KalmanState<T>>, RunError>)
        ensures
            smooth_result(res) == smooth_spec(self.f@, states(filtered@), states(predicted@)),
            res matches Ok(v) ==> v@.len() == filtered@.len(),
    {
        smooth_with(&self.f, filtered, predicted)
    }
}

} // verus!
