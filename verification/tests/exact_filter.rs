use kalman::error::{KalmanError, Operand, RunError};
use kalman::kalman::{
    filter_step, filter_with, kalman_gain, predict, predict_step, smooth_with, update_step,
    update_step_with, KalmanFilter, LinearDynamicsModel,
};
use kalman::matrix::Matrix;
use kalman::observation::{LinearObservationModel, ObservationModel};
use kalman::rational::Rational;
use kalman::scalar::Scalar;
use kalman::state::KalmanState;

fn q(num: i64, den: i64) -> Rational {
    Rational::new(num, den)
}

fn whole(n: i64) -> Rational {
    Rational::new(n, 1)
}

fn mat(rows: Vec<Vec<Rational>>) -> Matrix<Rational> {
    Matrix::from_rows(rows).unwrap()
}

fn scalar_filter(qv: i64, rv: i64, hv: i64, fv: i64, x0: i64, p0: i64) -> KalmanFilter<Rational> {
    KalmanFilter {
        q: mat(vec![vec![whole(qv)]]),
        r: mat(vec![vec![whole(rv)]]),
        h: mat(vec![vec![whole(hv)]]),
        f: mat(vec![vec![whole(fv)]]),
        x0: vec![whole(x0)],
        p0: mat(vec![vec![whole(p0)]]),
    }
}

fn observations(values: &[i64]) -> Vec<Vec<Rational>> {
    values.iter().map(|v| vec![whole(*v)]).collect()
}

fn estimate(x: Vec<Rational>, p: Vec<Vec<Rational>>) -> KalmanState<Rational> {
    KalmanState { x, p: mat(p) }
}

fn two_state_filter() -> KalmanFilter<Rational> {
    KalmanFilter {
        q: mat(vec![vec![whole(1), q(1, 10)], vec![q(1, 10), whole(1)]]),
        r: mat(vec![vec![whole(1)]]),
        h: mat(vec![vec![whole(1), whole(0)]]),
        f: mat(vec![vec![whole(1), whole(1)], vec![whole(0), whole(1)]]),
        x0: vec![whole(0), whole(1)],
        p0: mat(vec![vec![whole(2), q(1, 2)], vec![q(1, 2), whole(1)]]),
    }
}

#[test]
fn static_state_three_unit_observations() {
    let kf = scalar_filter(0, 1, 1, 1, 0, 1);
    let data = observations(&[1, 1, 1]);
    let (filtered, predicted) = kf.filter(&data).unwrap();
    assert_eq!(filtered.len(), 3);
    assert_eq!(predicted.len(), 4);

    let gains: Vec<Vec<Vec<Rational>>> = (0..3)
        .map(|k| kalman_gain(&predicted[k].p, &kf.h, &kf.r).unwrap().to_rows())
        .collect();
    assert_eq!(gains[0], vec![vec![q(1, 2)]]);
    assert_eq!(gains[1], vec![vec![q(1, 3)]]);
    assert_eq!(gains[2], vec![vec![q(1, 4)]]);

    assert_eq!(filtered[0].x, vec![q(1, 2)]);
    assert_eq!(filtered[0].p.to_rows(), vec![vec![q(1, 2)]]);
    assert_eq!(filtered[1].x, vec![q(2, 3)]);
    assert_eq!(filtered[1].p.to_rows(), vec![vec![q(1, 3)]]);
    assert_eq!(filtered[2].x, vec![q(3, 4)]);
    assert_eq!(filtered[2].p.to_rows(), vec![vec![q(1, 4)]]);
}

#[test]
fn predictions_start_with_the_prior() {
    let kf = scalar_filter(0, 1, 1, 1, 0, 1);
    let data = observations(&[1, 1, 1]);
    let (filtered, predicted) = kf.filter(&data).unwrap();
    assert_eq!(predicted[0].x, vec![whole(0)]);
    assert_eq!(predicted[0].p.to_rows(), vec![vec![whole(1)]]);
    for k in 0..3 {
        assert_eq!(predicted[k + 1].x, filtered[k].x);
        assert_eq!(predicted[k + 1].p.to_rows(), filtered[k].p.to_rows());
    }
}

#[test]
fn no_observations_give_only_the_prior() {
    let kf = scalar_filter(0, 1, 1, 1, 5, 7);
    let (filtered, predicted) = kf.filter(&Vec::new()).unwrap();
    assert!(filtered.is_empty());
    assert_eq!(predicted.len(), 1);
    assert_eq!(predicted[0].x, vec![whole(5)]);
    assert_eq!(predicted[0].p.to_rows(), vec![vec![whole(7)]]);
}

#[test]
fn zero_noise_and_zero_observation_matrix_is_singular() {
    let kf = scalar_filter(0, 0, 0, 1, 0, 1);
    let pred = estimate(vec![whole(0)], vec![vec![whole(1)]]);
    let got = update_step(&kf, &pred, &vec![whole(1)]);
    assert_eq!(got.err(), Some(KalmanError::SingularInnovationCovariance));
    assert_eq!(
        kalman_gain(&pred.p, &kf.h, &kf.r).err(),
        Some(KalmanError::SingularInnovationCovariance)
    );
    let run = kf.filter(&observations(&[1, 1]));
    assert_eq!(
        run.err(),
        Some(RunError { step: 0, error: KalmanError::SingularInnovationCovariance })
    );
}

#[test]
fn filter_reports_the_step_that_failed() {
    // An exact first observation leaves no uncertainty, so the second
    // innovation covariance is zero.
    let kf = scalar_filter(0, 0, 1, 1, 0, 1);
    let run = kf.filter(&observations(&[1, 1, 1]));
    assert_eq!(
        run.err(),
        Some(RunError { step: 1, error: KalmanError::SingularInnovationCovariance })
    );
}

#[test]
fn observation_of_wrong_length_is_a_mismatch_at_its_step() {
    let kf = scalar_filter(0, 1, 1, 1, 0, 1);
    let data = vec![vec![whole(1)], vec![whole(1), whole(2)], vec![whole(1)]];
    assert_eq!(
        kf.filter(&data).err(),
        Some(RunError { step: 1, error: KalmanError::DimensionMismatch(Operand::Observation) })
    );
    let empty = vec![Vec::new()];
    assert_eq!(
        kf.filter(&empty).err(),
        Some(RunError { step: 0, error: KalmanError::DimensionMismatch(Operand::Observation) })
    );
}

#[test]
fn update_rejects_mismatched_shapes() {
    let kf = scalar_filter(0, 1, 1, 1, 0, 1);
    let wide = estimate(vec![whole(0), whole(0)], vec![vec![whole(1), whole(0)], vec![whole(0), whole(1)]]);
    assert_eq!(update_step(&kf, &wide, &vec![whole(1)]).err(), Some(KalmanError::DimensionMismatch(Operand::StateMean)));
    let ragged = estimate(vec![whole(0)], vec![vec![whole(1), whole(0)], vec![whole(0), whole(1)]]);
    assert_eq!(update_step(&kf, &ragged, &vec![whole(1)]).err(), Some(KalmanError::DimensionMismatch(Operand::StateCovariance)));
    let good = estimate(vec![whole(0)], vec![vec![whole(1)]]);
    assert_eq!(
        update_step(&kf, &good, &vec![whole(1), whole(1)]).err(),
        Some(KalmanError::DimensionMismatch(Operand::Observation))
    );
    let mut noisy = scalar_filter(0, 1, 1, 1, 0, 1);
    noisy.r = mat(vec![vec![whole(1), whole(0)], vec![whole(0), whole(1)]]);
    assert_eq!(update_step(&noisy, &good, &vec![whole(1)]).err(), Some(KalmanError::DimensionMismatch(Operand::MeasurementNoise)));
    let none = estimate(Vec::new(), Vec::new());
    assert_eq!(update_step(&kf, &none, &vec![whole(1)]).err(), Some(KalmanError::DimensionMismatch(Operand::StateMean)));
}

#[test]
fn predict_rejects_mismatched_shapes() {
    let kf = scalar_filter(0, 1, 1, 1, 0, 1);
    let wide = estimate(vec![whole(0), whole(0)], vec![vec![whole(1), whole(0)], vec![whole(0), whole(1)]]);
    assert_eq!(predict_step(&kf, &wide).err(), Some(KalmanError::DimensionMismatch(Operand::Transition)));
    let none = estimate(Vec::new(), Vec::new());
    assert_eq!(predict_step(&kf, &none).err(), Some(KalmanError::DimensionMismatch(Operand::StateMean)));
    let mut odd = scalar_filter(0, 1, 1, 1, 0, 1);
    odd.q = mat(vec![vec![whole(1), whole(0)]]);
    let good = estimate(vec![whole(0)], vec![vec![whole(1)]]);
    assert_eq!(predict_step(&odd, &good).err(), Some(KalmanError::DimensionMismatch(Operand::ProcessNoise)));
    let run = odd.filter(&observations(&[1]));
    assert_eq!(run.err(), Some(RunError { step: 0, error: KalmanError::DimensionMismatch(Operand::ProcessNoise) }));
}

#[test]
fn predict_step_two_states() {
    let kf = two_state_filter();
    let init = estimate(kf.x0.clone(), kf.p0.to_rows());
    let got = predict_step(&kf, &init).unwrap();
    // x' = F x = [0 + 1, 1]
    assert_eq!(got.x, vec![whole(1), whole(1)]);
    // F P F' + Q with F = [1 1; 0 1], P = [2 1/2; 1/2 1], Q = [1 1/10; 1/10 1]
    assert_eq!(
        got.p.to_rows(),
        vec![vec![whole(5), q(8, 5)], vec![q(8, 5), whole(2)]]
    );
    let dynamics = LinearDynamicsModel { transition: kf.f.clone(), process_noise_covariance: kf.q.clone() };
    let same = predict(&dynamics, &init).unwrap();
    assert_eq!(same.x, got.x);
    assert_eq!(same.p.to_rows(), got.p.to_rows());
}

#[test]
fn predicted_covariance_is_symmetric() {
    let kf = two_state_filter();
    let mut state = estimate(kf.x0.clone(), kf.p0.to_rows());
    for _ in 0..4 {
        state = predict_step(&kf, &state).unwrap();
        let p = state.p.to_rows();
        assert_eq!(p[0][1], p[1][0]);
    }
}

#[test]
fn update_step_two_states() {
    let kf = two_state_filter();
    let pred = estimate(vec![whole(1), whole(1)], vec![vec![whole(5), q(8, 5)], vec![q(8, 5), whole(2)]]);
    let got = update_step(&kf, &pred, &vec![whole(4)]).unwrap();
    // S = 5 + 1 = 6, K = [5/6, 4/15], innovation = 4 - 1 = 3
    assert_eq!(
        kalman_gain(&pred.p, &kf.h, &kf.r).unwrap().to_rows(),
        vec![vec![q(5, 6)], vec![q(4, 15)]]
    );
    assert_eq!(got.x, vec![q(7, 2), q(9, 5)]);
    assert_eq!(
        got.p.to_rows(),
        vec![vec![q(5, 6), q(4, 15)], vec![q(4, 15), q(118, 75)]]
    );
}

#[test]
fn update_does_not_increase_variance() {
    let kf = two_state_filter();
    let pred = estimate(vec![whole(1), whole(1)], vec![vec![whole(5), q(8, 5)], vec![q(8, 5), whole(2)]]);
    let got = update_step(&kf, &pred, &vec![whole(4)]).unwrap();
    let before = pred.p.to_rows();
    let after = got.p.to_rows();
    // The difference before - after is [25/6 4/3; 4/3 32/75]: its diagonal is
    // positive and so is its determinant, 16/9 - 16/9 = 0 at the least.
    let d00 = q(5, 1).minus(&after[0][0]);
    let d11 = before[1][1].minus(&after[1][1]);
    let d01 = before[0][1].minus(&after[0][1]);
    assert_eq!(d00, q(25, 6));
    assert_eq!(d11, q(32, 75));
    assert_eq!(d01, q(4, 3));
    let det = d00.times(&d11).minus(&d01.times(&d01));
    assert_eq!(det, whole(0));
}

#[test]
fn filter_step_predicts_then_updates() {
    let kf = two_state_filter();
    let init = estimate(kf.x0.clone(), kf.p0.to_rows());
    let (upd, pred) = filter_step(&kf, &init, &vec![whole(4)]).unwrap();
    assert_eq!(pred.x, vec![whole(1), whole(1)]);
    assert_eq!(pred.p.to_rows(), vec![vec![whole(5), q(8, 5)], vec![q(8, 5), whole(2)]]);
    assert_eq!(upd.x, vec![q(7, 2), q(9, 5)]);
    assert_eq!(upd.p.to_rows(), vec![vec![q(5, 6), q(4, 15)], vec![q(4, 15), q(118, 75)]]);
    let wrong = filter_step(&kf, &init, &vec![whole(4), whole(4)]);
    assert_eq!(wrong.err(), Some(KalmanError::DimensionMismatch(Operand::Observation)));
    let short = estimate(vec![whole(0)], vec![vec![whole(1)]]);
    assert_eq!(filter_step(&kf, &short, &vec![whole(4)]).err(), Some(KalmanError::DimensionMismatch(Operand::Transition)));
}

#[test]
fn smoothing_a_random_walk() {
    let kf = scalar_filter(1, 1, 1, 1, 0, 1);
    let (filtered, predicted) = kf.filter(&observations(&[1, 2])).unwrap();
    assert_eq!(filtered[0].x, vec![q(1, 2)]);
    assert_eq!(filtered[0].p.to_rows(), vec![vec![q(1, 2)]]);
    assert_eq!(predicted[1].x, vec![q(1, 2)]);
    assert_eq!(predicted[1].p.to_rows(), vec![vec![q(3, 2)]]);
    assert_eq!(filtered[1].x, vec![q(7, 5)]);
    assert_eq!(filtered[1].p.to_rows(), vec![vec![q(3, 5)]]);
    assert_eq!(predicted[2].p.to_rows(), vec![vec![q(8, 5)]]);

    let smoothed = kf.smooth(&filtered, &predicted).unwrap();
    assert_eq!(smoothed.len(), 2);
    assert_eq!(smoothed[1].x, vec![q(7, 5)]);
    assert_eq!(smoothed[1].p.to_rows(), vec![vec![q(3, 5)]]);
    assert_eq!(smoothed[0].x, vec![q(4, 5)]);
    assert_eq!(smoothed[0].p.to_rows(), vec![vec![q(2, 5)]]);
}

#[test]
fn smoothing_a_static_state() {
    let kf = scalar_filter(0, 1, 1, 1, 0, 1);
    let (filtered, predicted) = kf.filter(&observations(&[1, 1, 1])).unwrap();
    let smoothed = kf.smooth(&filtered, &predicted).unwrap();
    for s in smoothed.iter() {
        assert_eq!(s.x, vec![q(3, 4)]);
        assert_eq!(s.p.to_rows(), vec![vec![q(1, 4)]]);
    }
}

#[test]
fn last_smoothed_estimate_is_last_filtered() {
    let kf = two_state_filter();
    let data = vec![vec![whole(4)], vec![whole(3)], vec![whole(5)], vec![whole(6)]];
    let (filtered, predicted) = kf.filter(&data).unwrap();
    let smoothed = kf.smooth(&filtered, &predicted).unwrap();
    assert_eq!(smoothed.len(), 4);
    assert_eq!(smoothed[3].x, filtered[3].x);
    assert_eq!(smoothed[3].p.to_rows(), filtered[3].p.to_rows());
    assert_ne!(smoothed[0].x, filtered[0].x);
}

#[test]
fn one_observation_smooths_to_itself() {
    let kf = two_state_filter();
    let (filtered, predicted) = kf.filter(&vec![vec![whole(4)]]).unwrap();
    let smoothed = kf.smooth(&filtered, &predicted).unwrap();
    assert_eq!(smoothed.len(), 1);
    assert_eq!(smoothed[0].x, filtered[0].x);
    assert_eq!(smoothed[0].p.to_rows(), filtered[0].p.to_rows());
}

#[test]
fn smoothing_nothing_gives_nothing() {
    let kf = scalar_filter(0, 1, 1, 1, 0, 1);
    let (filtered, predicted) = kf.filter(&Vec::new()).unwrap();
    assert!(kf.smooth(&filtered, &predicted).unwrap().is_empty());
}

#[test]
fn smoothing_rejects_sequences_of_wrong_lengths() {
    let kf = scalar_filter(0, 1, 1, 1, 0, 1);
    let (filtered, predicted) = kf.filter(&observations(&[1, 1])).unwrap();
    let short: Vec<KalmanState<Rational>> = predicted[..2].to_vec();
    assert_eq!(
        kf.smooth(&filtered, &short).err(),
        Some(RunError { step: 0, error: KalmanError::DimensionMismatch(Operand::Sequences) })
    );
    assert_eq!(
        smooth_with(&kf.f, &predicted, &filtered).err(),
        Some(RunError { step: 0, error: KalmanError::DimensionMismatch(Operand::Sequences) })
    );
}

#[test]
fn smoothing_fails_on_a_singular_prediction() {
    // No prior uncertainty and no process noise: every predicted covariance
    // is zero.
    let kf = scalar_filter(0, 1, 1, 1, 0, 0);
    let (filtered, predicted) = kf.filter(&observations(&[1, 1, 1])).unwrap();
    assert_eq!(
        kf.smooth(&filtered, &predicted).err(),
        Some(RunError { step: 1, error: KalmanError::SingularPredictedCovariance })
    );
}

#[test]
fn smoothing_rejects_a_transition_of_wrong_shape() {
    let kf = scalar_filter(1, 1, 1, 1, 0, 1);
    let (filtered, predicted) = kf.filter(&observations(&[1, 2, 3])).unwrap();
    let wide = mat(vec![vec![whole(1), whole(0)], vec![whole(0), whole(1)]]);
    assert_eq!(
        smooth_with(&wide, &filtered, &predicted).err(),
        Some(RunError { step: 1, error: KalmanError::DimensionMismatch(Operand::Transition) })
    );
}

struct Relinearised {
    slope: Vec<Vec<Rational>>,
    noise: Vec<Vec<Rational>>,
}

impl ObservationModel<Rational> for Relinearised {
    fn state_dimension(&self) -> usize {
        self.slope[0].len()
    }

    fn jacobian_at(&self, _at: &Vec<Rational>) -> Matrix<Rational> {
        mat(self.slope.clone())
    }

    fn noise_covariance(&self, _at: &Vec<Rational>) -> Matrix<Rational> {
        mat(self.noise.clone())
    }

    fn observe(&self, state: &Vec<Rational>) -> Vec<Rational> {
        mat(self.slope.clone()).times_vector(state)
    }
}

#[test]
fn a_linear_function_linearised_filters_as_the_linear_model() {
    let kf = two_state_filter();
    let data = vec![vec![whole(4)], vec![whole(3)], vec![whole(5)]];
    let (filtered, predicted) = kf.filter(&data).unwrap();
    let smoothed = kf.smooth(&filtered, &predicted).unwrap();

    let dynamics = LinearDynamicsModel { transition: kf.f.clone(), process_noise_covariance: kf.q.clone() };
    let prior = estimate(kf.x0.clone(), kf.p0.to_rows());
    let disguised = Relinearised { slope: kf.h.to_rows(), noise: kf.r.to_rows() };
    let (f2, p2) = filter_with(&dynamics, &disguised, &prior, &data).unwrap();
    let s2 = smooth_with(&dynamics.transition, &f2, &p2).unwrap();

    let linear = LinearObservationModel { jacobian: kf.h.clone(), measurement_noise_covariance: kf.r.clone() };
    let (f3, p3) = filter_with(&dynamics, &linear, &prior, &data).unwrap();

    for k in 0..3 {
        assert_eq!(f2[k].x, filtered[k].x);
        assert_eq!(f2[k].p.to_rows(), filtered[k].p.to_rows());
        assert_eq!(f3[k].x, filtered[k].x);
        assert_eq!(f3[k].p.to_rows(), filtered[k].p.to_rows());
        assert_eq!(s2[k].x, smoothed[k].x);
        assert_eq!(s2[k].p.to_rows(), smoothed[k].p.to_rows());
    }
    for k in 0..4 {
        assert_eq!(p2[k].x, predicted[k].x);
        assert_eq!(p2[k].p.to_rows(), predicted[k].p.to_rows());
        assert_eq!(p3[k].x, predicted[k].x);
    }
}

#[test]
fn update_with_a_model_checks_the_length_of_the_state() {
    let kf = two_state_filter();
    let linear = LinearObservationModel { jacobian: kf.h.clone(), measurement_noise_covariance: kf.r.clone() };
    assert_eq!(linear.state_dimension(), 2);
    let short = estimate(vec![whole(0)], vec![vec![whole(1)]]);
    assert_eq!(
        update_step_with(&linear, &short, &vec![whole(1)]).err(),
        Some(KalmanError::DimensionMismatch(Operand::StateMean))
    );
    let pred = estimate(vec![whole(1), whole(1)], vec![vec![whole(5), q(8, 5)], vec![q(8, 5), whole(2)]]);
    let got = update_step_with(&linear, &pred, &vec![whole(4)]).unwrap();
    assert_eq!(got.x, vec![q(7, 2), q(9, 5)]);
}

#[test]
fn update_names_a_jacobian_of_wrong_shape() {
    let mut kf = two_state_filter();
    kf.h = mat(vec![vec![whole(1), whole(0)], vec![whole(0), whole(1)]]);
    // Two rows in the Jacobian, one entry in the observation.
    let pred = estimate(vec![whole(1), whole(1)], vec![vec![whole(5), q(8, 5)], vec![q(8, 5), whole(2)]]);
    assert_eq!(
        update_step(&kf, &pred, &vec![whole(4)]).err(),
        Some(KalmanError::DimensionMismatch(Operand::Observation))
    );
    // As many rows as the observation has entries, but for a covariance of
    // another size.
    let small = mat(vec![vec![whole(1)]]);
    let jacobian = mat(vec![vec![whole(1), whole(0)]]);
    assert_eq!(
        kalman_gain(&small, &jacobian, &kf.r).err(),
        Some(KalmanError::DimensionMismatch(Operand::Jacobian))
    );
    let none: Matrix<Rational> = Matrix::from_rows(Vec::new()).unwrap();
    assert_eq!(
        kalman_gain(&small, &none, &kf.r).err(),
        Some(KalmanError::DimensionMismatch(Operand::Jacobian))
    );
    assert_eq!(
        kalman_gain(&none, &jacobian, &kf.r).err(),
        Some(KalmanError::DimensionMismatch(Operand::StateCovariance))
    );
    let wide = mat(vec![vec![whole(1), whole(0)]]);
    assert_eq!(
        kalman_gain(&wide, &jacobian, &kf.r).err(),
        Some(KalmanError::DimensionMismatch(Operand::StateCovariance))
    );
}

struct WrongPrediction;

impl ObservationModel<Rational> for WrongPrediction {
    fn state_dimension(&self) -> usize {
        1
    }

    fn jacobian_at(&self, _at: &Vec<Rational>) -> Matrix<Rational> {
        mat(vec![vec![whole(1)]])
    }

    fn noise_covariance(&self, _at: &Vec<Rational>) -> Matrix<Rational> {
        mat(vec![vec![whole(1)]])
    }

    fn observe(&self, state: &Vec<Rational>) -> Vec<Rational> {
        vec![state[0], state[0]]
    }
}

#[test]
fn update_names_a_predicted_observation_of_wrong_length() {
    let pred = estimate(vec![whole(0)], vec![vec![whole(1)]]);
    assert_eq!(
        update_step_with(&WrongPrediction, &pred, &vec![whole(1)]).err(),
        Some(KalmanError::DimensionMismatch(Operand::PredictedObservation))
    );
}

#[test]
fn smoothing_names_the_estimate_of_wrong_size() {
    let kf = scalar_filter(1, 1, 1, 1, 0, 1);
    let (filtered, predicted) = kf.filter(&observations(&[1, 2])).unwrap();
    let pair = estimate(vec![whole(0), whole(0)], vec![vec![whole(1), whole(0)], vec![whole(0), whole(1)]]);
    let at = |operand| Some(RunError { step: 0, error: KalmanError::DimensionMismatch(operand) });

    let mut f = filtered.clone();
    f[0] = estimate(Vec::new(), Vec::new());
    assert_eq!(kf.smooth(&f, &predicted).err(), at(Operand::StateMean));

    let mut f = filtered.clone();
    f[0] = estimate(vec![whole(0)], pair.p.to_rows());
    assert_eq!(kf.smooth(&f, &predicted).err(), at(Operand::StateCovariance));

    let mut p = predicted.clone();
    p[1] = pair.clone();
    assert_eq!(kf.smooth(&filtered, &p).err(), at(Operand::PredictedMean));

    let mut p = predicted.clone();
    p[1] = estimate(vec![whole(0)], pair.p.to_rows());
    assert_eq!(kf.smooth(&filtered, &p).err(), at(Operand::PredictedCovariance));

    let mut f = filtered.clone();
    f[1] = pair.clone();
    assert_eq!(kf.smooth(&f, &predicted).err(), at(Operand::SmoothedMean));

    let mut f = filtered.clone();
    f[1] = estimate(vec![whole(0)], pair.p.to_rows());
    assert_eq!(kf.smooth(&f, &predicted).err(), at(Operand::SmoothedCovariance));

    // The prediction after the last observation is not read.
    let mut p = predicted.clone();
    p[2] = pair.clone();
    assert!(kf.smooth(&filtered, &p).is_ok());
}

#[test]
fn estimates_are_equal_where_their_parts_are() {
    let a = estimate(vec![q(1, 2)], vec![vec![q(2, 4)]]);
    let b = estimate(vec![q(2, 4)], vec![vec![q(1, 2)]]);
    assert_eq!(a, b);
    let mut c = a.clone();
    assert_eq!(c, a);
    c.x[0] = whole(1);
    assert_ne!(c, a);
    assert_eq!(a.x, vec![q(1, 2)]);
}
