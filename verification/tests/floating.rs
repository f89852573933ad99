use kalman::error::{KalmanError, RunError};
use kalman::kalman::{kalman_gain, predict_step, update_step, KalmanFilter};
use kalman::matrix::Matrix;
use kalman::scalar::Scalar;
use kalman::state::KalmanState;
use rulinalg::matrix::{BaseMatrix, Matrix as Dense};
use rulinalg::vector::Vector as DenseVector;

/// Double precision as a scalar: a pivot is negligible below the machine
/// epsilon.
#[derive(Clone, Copy, Debug, PartialEq)]
struct Real(f64);

impl Scalar for Real {
    fn from_int(n: i32) -> Self {
        Real(n as f64)
    }

    fn plus(&self, rhs: &Self) -> Self {
        Real(self.0 + rhs.0)
    }

    fn minus(&self, rhs: &Self) -> Self {
        Real(self.0 - rhs.0)
    }

    fn times(&self, rhs: &Self) -> Self {
        Real(self.0 * rhs.0)
    }

    fn recip(&self) -> Self {
        Real(1.0 / self.0)
    }

    fn is_negligible(&self) -> bool {
        self.0.abs() < f64::EPSILON
    }
}

fn real_matrix(rows: &[&[f64]]) -> Matrix<Real> {
    Matrix::from_rows(rows.iter().map(|row| row.iter().map(|v| Real(*v)).collect()).collect())
        .unwrap()
}

fn real_vector(values: &[f64]) -> Vec<Real> {
    values.iter().map(|v| Real(*v)).collect()
}

fn dense(rows: &[&[f64]]) -> Dense<f64> {
    let cols = rows[0].len();
    let data: Vec<f64> = rows.iter().flat_map(|row| row.iter().copied()).collect();
    Dense::new(rows.len(), cols, data)
}

fn close(a: f64, b: f64) -> bool {
    (a - b).abs() <= 1e-9 * (1.0 + a.abs().max(b.abs()))
}

fn assert_state_close(got: &KalmanState<Real>, x: &DenseVector<f64>, p: &Dense<f64>) {
    assert_eq!(got.x.len(), x.size());
    for i in 0..x.size() {
        assert!(close(got.x[i].0, x[i]), "mean {}: {} against {}", i, got.x[i].0, x[i]);
    }
    let rows = got.p.to_rows();
    assert_eq!(rows.len(), p.rows());
    for i in 0..p.rows() {
        assert_eq!(rows[i].len(), p.cols());
        for j in 0..p.cols() {
            assert!(
                close(rows[i][j].0, p[[i, j]]),
                "covariance {} {}: {} against {}",
                i,
                j,
                rows[i][j].0,
                p[[i, j]]
            );
        }
    }
}

const Q: [&[f64]; 2] = [&[1.0, 0.1], &[0.1, 1.0]];
const R: [&[f64]; 3] = [&[1.0, 0.2, 0.1], &[0.2, 0.8, 0.5], &[0.1, 0.5, 1.2]];
const H: [&[f64]; 3] = [&[1.0, 0.7], &[0.5, 0.7], &[0.8, 0.1]];
const F: [&[f64]; 2] = [&[0.6, 0.2], &[0.1, 0.3]];
const PRIOR_COVARIANCE: [&[f64]; 2] = [&[1.0, 0.0], &[0.0, 1.0]];
const PRIOR_MEAN: [f64; 2] = [1.0, 1.0];
const DATA: [[f64; 3]; 4] =
    [[1.04, 0.71, 1.12], [0.32, 0.08, -0.21], [1.9, 1.4, 0.6], [-0.5, 0.2, 0.3]];

fn example_filter() -> KalmanFilter<Real> {
    KalmanFilter {
        q: real_matrix(&Q),
        r: real_matrix(&R),
        h: real_matrix(&H),
        f: real_matrix(&F),
        x0: real_vector(&PRIOR_MEAN),
        p0: real_matrix(&PRIOR_COVARIANCE),
    }
}

#[test]
fn static_state_three_unit_observations_in_double_precision() {
    let kf = KalmanFilter {
        q: real_matrix(&[&[0.0]]),
        r: real_matrix(&[&[1.0]]),
        h: real_matrix(&[&[1.0]]),
        f: real_matrix(&[&[1.0]]),
        x0: real_vector(&[0.0]),
        p0: real_matrix(&[&[1.0]]),
    };
    let data = vec![real_vector(&[1.0]), real_vector(&[1.0]), real_vector(&[1.0])];
    let (filtered, predicted) = kf.filter(&data).unwrap();
    let expected = [(0.5, 0.5, 0.5), (1.0 / 3.0, 2.0 / 3.0, 1.0 / 3.0), (0.25, 0.75, 0.25)];
    for k in 0..3 {
        let gain = kalman_gain(&predicted[k].p, &kf.h, &kf.r).unwrap().get(0, 0).unwrap().0;
        assert!((gain - expected[k].0).abs() < 1e-12);
        assert!((filtered[k].x[0].0 - expected[k].1).abs() < 1e-12);
        assert!((filtered[k].p.get(0, 0).unwrap().0 - expected[k].2).abs() < 1e-12);
    }
    assert_eq!(filtered[0].x[0].0, 0.5);
    assert_eq!(filtered[2].x[0].0, 0.75);
    assert_eq!(filtered[2].p.get(0, 0).unwrap().0, 0.25);
}

#[test]
fn zero_noise_and_zero_observation_matrix_is_singular_in_double_precision() {
    let kf = KalmanFilter {
        q: real_matrix(&[&[0.0]]),
        r: real_matrix(&[&[0.0]]),
        h: real_matrix(&[&[0.0]]),
        f: real_matrix(&[&[1.0]]),
        x0: real_vector(&[0.0]),
        p0: real_matrix(&[&[1.0]]),
    };
    let pred = KalmanState { x: real_vector(&[0.0]), p: real_matrix(&[&[1.0]]) };
    assert_eq!(
        update_step(&kf, &pred, &real_vector(&[1.0])).err(),
        Some(KalmanError::SingularInnovationCovariance)
    );
    assert_eq!(
        kf.filter(&vec![real_vector(&[1.0])]).err(),
        Some(RunError { step: 0, error: KalmanError::SingularInnovationCovariance })
    );
}

#[test]
fn inverse_agrees_with_a_dense_solver() {
    let rows: [&[f64]; 3] = [&[4.0, 1.0, 0.5], &[1.0, 3.0, 0.2], &[0.5, 0.2, 2.0]];
    let ours = real_matrix(&rows).inverse().unwrap().to_rows();
    let theirs = dense(&rows).inverse().unwrap();
    for i in 0..3 {
        for j in 0..3 {
            assert!(close(ours[i][j].0, theirs[[i, j]]));
        }
    }
    assert!(real_matrix(&[&[1.0, 2.0], &[2.0, 4.0]]).inverse().is_none());
    assert!(dense(&[&[1.0, 2.0], &[2.0, 4.0]]).inverse().is_err());
}

#[test]
fn filter_and_smoother_agree_with_a_dense_computation() {
    let kf = example_filter();
    let data: Vec<Vec<Real>> = DATA.iter().map(|z| real_vector(z)).collect();
    let (filtered, predicted) = kf.filter(&data).unwrap();
    let smoothed = kf.smooth(&filtered, &predicted).unwrap();
    assert_eq!(filtered.len(), 4);
    assert_eq!(predicted.len(), 5);
    assert_eq!(smoothed.len(), 4);

    let (q, r, h, f) = (dense(&Q), dense(&R), dense(&H), dense(&F));
    let mut px = vec![DenseVector::new(PRIOR_MEAN.to_vec())];
    let mut pp = vec![dense(&PRIOR_COVARIANCE)];
    let mut fx: Vec<DenseVector<f64>> = Vec::new();
    let mut fp: Vec<Dense<f64>> = Vec::new();
    for k in 0..4 {
        let z = DenseVector::new(DATA[k].to_vec());
        let gain = &pp[k] * &h.transpose()
            * (&h * &pp[k] * &h.transpose() + &r).inverse().unwrap();
        let x = &px[k] + &gain * (&z - &h * &px[k]);
        let p = (Dense::<f64>::identity(2) - &gain * &h) * &pp[k];
        px.push(&f * &x);
        pp.push(&f * &p * &f.transpose() + &q);
        fx.push(x);
        fp.push(p);
    }
    for k in 0..4 {
        assert_state_close(&filtered[k], &fx[k], &fp[k]);
    }
    for k in 0..5 {
        assert_state_close(&predicted[k], &px[k], &pp[k]);
    }

    let mut sx = vec![fx[3].clone()];
    let mut sp = vec![fp[3].clone()];
    for k in (0..3).rev() {
        let j = &fp[k] * &f.transpose() * pp[k + 1].clone().inverse().unwrap();
        let x = &fx[k] + &j * (&sx[0] - &px[k + 1]);
        let p = &fp[k] + &j * (&sp[0] - &pp[k + 1]) * &j.transpose();
        sx.insert(0, x);
        sp.insert(0, p);
    }
    for k in 0..4 {
        assert_state_close(&smoothed[k], &sx[k], &sp[k]);
    }
    assert_eq!(smoothed[3].x, filtered[3].x);
}

#[test]
fn predicted_covariance_is_symmetric_up_to_rounding() {
    let kf = KalmanFilter {
        q: real_matrix(&[&[0.0, 0.0], &[0.0, 0.0]]),
        r: real_matrix(&[&[1.0]]),
        h: real_matrix(&[&[1.0, 0.0]]),
        f: real_matrix(&[&[0.1, 0.1], &[0.1, 0.2]]),
        x0: real_vector(&[0.0, 0.0]),
        p0: real_matrix(&[&[0.1, 0.1], &[0.1, 0.3]]),
    };
    let prior = KalmanState { x: real_vector(&[0.0, 0.0]), p: kf.p0.clone() };
    let p = predict_step(&kf, &prior).unwrap().p.to_rows();
    // The two entries are sums of the same products in another order.
    assert!((p[0][1].0 - p[1][0].0).abs() <= 4.0 * f64::EPSILON * p[0][1].0.abs());
    assert!((p[0][1].0 - 0.01).abs() < 1e-15);
    assert!((p[0][0].0 - 0.006).abs() < 1e-15);
    assert!((p[1][1].0 - 0.017).abs() < 1e-15);
}

#[test]
fn update_does_not_increase_variance_in_double_precision() {
    let kf = example_filter();
    let pred = KalmanState { x: real_vector(&PRIOR_MEAN), p: real_matrix(&[&[2.0, 0.5], &[0.5, 1.0]]) };
    let got = update_step(&kf, &pred, &real_vector(&DATA[0])).unwrap();
    let before = pred.p.to_rows();
    let after = got.p.to_rows();
    let d00 = before[0][0].0 - after[0][0].0;
    let d01 = before[0][1].0 - after[0][1].0;
    let d10 = before[1][0].0 - after[1][0].0;
    let d11 = before[1][1].0 - after[1][1].0;
    // The difference is positive semi-definite: its diagonal and its
    // determinant are not negative.
    assert!(d00 >= 0.0 && d11 >= 0.0);
    assert!(d00 * d11 - d01 * d10 >= -1e-12);
    for v in [[1.0, 0.0], [0.0, 1.0], [1.0, 1.0], [1.0, -1.0], [-2.0, 0.3]] {
        let form = v[0] * (d00 * v[0] + d01 * v[1]) + v[1] * (d10 * v[0] + d11 * v[1]);
        assert!(form >= -1e-12);
    }
}
