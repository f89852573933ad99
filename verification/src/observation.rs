//! Observation models: how a state shows in a measurement.
//!
//! A model offers, at a state chosen as the point of linearisation, the
//! Jacobian of its observation function and the covariance of the measurement
//! noise, and it maps any state to the observation it predicts.  A linear model
//! offers the same matrix at every point; a nonlinear one offers the slope of
//! its function there and applies the function itself to predict.

use vstd::prelude::*;
use crate::scalar::{Scalar, zero};
use crate::linalg::{mat_vec, ncols, transpose};
use crate::matrix::{Matrix, grid};
use crate::error::{KalmanError, Operand};

verus! {

/// What the measurement update asks of an observation model.
///
/// The spec functions mean what an implementation says they mean.  Their
/// bodies here say nothing: they stand in for implementations that give
/// none.
pub trait ObservationModel<T: Scalar> {
    /// The length of the states the model observes.
    closed spec fn state_dim(&self) -> nat {
        arbitrary()
    }

    /// The Jacobian of the observation function at the state `at`.
    closed spec fn jacobian_spec(&self, at: Seq<T>) -> Seq<Seq<T>> {
        arbitrary()
    }

    /// The covariance of the measurement noise at the state `at`.
    closed spec fn noise_spec(&self, at: Seq<T>) -> Seq<Seq<T>> {
        arbitrary()
    }

    /// The observation the model predicts of `state`.
    closed spec fn observe_spec(&self, state: Seq<T>) -> Seq<T> {
        arbitrary()
    }

    fn state_dimension(&self) -> (n: usize)
        ensures
            n == self.state_dim(),
    ;

    fn jacobian_at(&self, at: &Vec<T>) -> (h: Matrix<T>)
        requires
            at@.len() == self.state_dim(),
        ensures
            h@ == self.jacobian_spec(at@),
    ;

    fn noise_covariance(&self, at: &Vec<T>) -> (r: Matrix<T>)
        requires
            at@.len() == self.state_dim(),
        ensures
            r@ == self.noise_spec(at@),
    ;

    fn observe(&self, state: &Vec<T>) -> (z: Vec<T>)
        requires
            state@.len() == self.state_dim(),
        ensures
            z@ == self.observe_spec(state@),
    ;
}

/// An observation that is a fixed matrix applied to the state.
#[derive(Debug)]
pub struct LinearObservationModel<T> {
    pub jacobian: Matrix<T>,
    pub measurement_noise_covariance: Matrix<T>,
}

impl<T: Scalar> ObservationModel<T> for LinearObservationModel<T> {
    open spec fn state_dim(&self) -> nat {
        ncols(self.jacobian@)
    }

    open spec fn jacobian_spec(&self, at: Seq<T>) -> Seq<Seq<T>> {
        self.jacobian@
    }

    open spec fn noise_spec(&self, at: Seq<T>) -> Seq<Seq<T>> {
        self.measurement_noise_covariance@
    }

    open spec fn observe_spec(&self, state: Seq<T>) -> Seq<T> {
        mat_vec(self.jacobian@, state)
    }

    fn state_dimension(&self) -> (n: usize) {
        self.jacobian.ncols()
    }

    fn jacobian_at(&self, at: &Vec<T>) -> (h: Matrix<T>) {
        self.jacobian.clone()
    }

    fn noise_covariance(&self, at: &Vec<T>) -> (r: Matrix<T>) {
        self.measurement_noise_covariance.clone()
    }

    fn observe(&self, state: &Vec<T>) -> (z: Vec<T>) {
        self.jacobian.times_vector(state)
    }
}

/// The length of the states that [`NonlinearObservationModel`] observes.
pub const NONLINEAR_STATE_DIM: usize = 4;

/// What [`NonlinearObservationModel`] observes of a state that begins with
/// `x` and `y`: the cube of `x`, and the product of `x` and `y`.
pub open spec fn nonlinear_observation<T: Scalar>(s: Seq<T>) -> Seq<T> {
    seq![s[0].mul_spec(s[0]).mul_spec(s[0]), s[0].mul_spec(s[1])]
}

/// The Jacobian of [`nonlinear_observation`] at `s`.
pub open spec fn nonlinear_jacobian<T: Scalar>(s: Seq<T>) -> Seq<Seq<T>> {
    seq![
        seq![
            T::from_int_spec(3).mul_spec(s[0]).mul_spec(s[0]),
            zero::<T>(),
            zero::<T>(),
            zero::<T>(),
        ],
        seq![s[1], s[0], zero::<T>(), zero::<T>()],
    ]
}

/// The measurement noise of [`NonlinearObservationModel`]: a variance of one
/// hundredth in each of the two coordinates, and no covariance between them.
pub open spec fn nonlinear_noise<T: Scalar>() -> Seq<Seq<T>> {
    seq![
        seq![T::from_int_spec(100).recip_spec(), zero::<T>()],
        seq![zero::<T>(), T::from_int_spec(100).recip_spec()],
    ]
}

/// A nonlinear observation of a state of four coordinates, linearised at one
/// point: the observation is the cube of the first coordinate and the product
/// of the first two.
#[derive(Debug)]
pub struct LinearizedObservationModel<T> {
    pub observation_matrix: Matrix<T>,
    pub observation_matrix_transpose: Matrix<T>,
    pub observation_noise_covariance: Matrix<T>,
}

impl<T: Scalar> LinearizedObservationModel<T> {
    /// The Jacobian at the point of linearisation.
    pub fn h(&self) -> (r: &Matrix<T>)
        ensures
            r@ == self.observation_matrix@,
    {
        &self.observation_matrix
    }

    /// The transpose of the Jacobian.
    pub fn ht(&self) -> (r: &Matrix<T>)
        ensures
            r@ == self.observation_matrix_transpose@,
    {
        &self.observation_matrix_transpose
    }

    /// The covariance of the measurement noise.
    pub fn r(&self) -> (r: &Matrix<T>)
        ensures
            r@ == self.observation_noise_covariance@,
    {
        &self.observation_noise_covariance
    }

    /// The observation predicted of `state`: the nonlinear function itself,
    /// applied at `state` and not at the point of linearisation.
    pub fn predict_observation(&self, state: &Vec<T>) -> (r: Result<Vec<T>, KalmanError>)
        ensures
            state@.len() == NONLINEAR_STATE_DIM ==> r is Ok && r->Ok_0@ == nonlinear_observation(
                state@,
            ),
            state@.len() != NONLINEAR_STATE_DIM ==> r == Err::<Vec<T>, KalmanError>(
                KalmanError::DimensionMismatch(Operand::StateMean),
            ),
    {
        if state.len() != NONLINEAR_STATE_DIM {
            return Err(KalmanError::DimensionMismatch(Operand::StateMean));
        }
        Ok(evaluate(state))
    }
}

/// The nonlinear observation of a state.
fn evaluate<T: Scalar>(state: &Vec<T>) -> (z: Vec<T>)
    requires
        state@.len() == NONLINEAR_STATE_DIM,
    ensures
        z@ == nonlinear_observation(state@),
{
    let x = state[0];
    let y = state[1];
    let mut z: Vec<T> = Vec::new();
    z.push(x.times(&x).times(&x));
    z.push(x.times(&y));
    proof {
        assert(z@ =~= nonlinear_observation(state@));
    }
    z
}

/// The Jacobian of the nonlinear observation at a state.
fn jacobian<T: Scalar>(state: &Vec<T>) -> (h: Matrix<T>)
    requires
        state@.len() == NONLINEAR_STATE_DIM,
    ensures
        h@ == nonlinear_jacobian(state@),
{
    let x = state[0];
    let y = state[1];
    let mut top: Vec<T> = Vec::new();
    top.push(T::from_int(3).times(&x).times(&x));
    top.push(T::from_int(0));
    top.push(T::from_int(0));
    top.push(T::from_int(0));
    let mut bottom: Vec<T> = Vec::new();
    bottom.push(y);
    bottom.push(x);
    bottom.push(T::from_int(0));
    bottom.push(T::from_int(0));
    let mut rows: Vec<Vec<T>> = Vec::new();
    rows.push(top);
    rows.push(bottom);
    proof {
        assert(grid(rows)[0] =~= nonlinear_jacobian(state@)[0]);
        assert(grid(rows)[1] =~= nonlinear_jacobian(state@)[1]);
        assert(grid(rows) =~= nonlinear_jacobian(state@));
    }
    Matrix::from_rows(rows).unwrap()
}

/// The measurement noise of the nonlinear observation.
fn noise<T: Scalar>() -> (r: Matrix<T>)
    ensures
        r@ == nonlinear_noise::<T>(),
{
    let variance = T::from_int(100).recip();
    let mut top: Vec<T> = Vec::new();
    top.push(variance);
    top.push(T::from_int(0));
    let mut bottom: Vec<T> = Vec::new();
    bottom.push(T::from_int(0));
    bottom.push(variance);
    let mut rows: Vec<Vec<T>> = Vec::new();
    rows.push(top);
    rows.push(bottom);
    proof {
        assert(grid(rows)[0] =~= nonlinear_noise::<T>()[0]);
        assert(grid(rows)[1] =~= nonlinear_noise::<T>()[1]);
        assert(grid(rows) =~= nonlinear_noise::<T>());
    }
    Matrix::from_rows(rows).unwrap()
}

/// The observation of a state of four coordinates by the cube of the first
/// and the product of the first two: the source of a
/// [`LinearizedObservationModel`] at any state.
#[derive(Debug)]
pub struct NonlinearObservationModel {}

impl NonlinearObservationModel {
    /// The model.
    pub fn new() -> (r: Self)
        ensures
            r == (NonlinearObservationModel {  }),
    {
        NonlinearObservationModel {  }
    }

    /// The model linearised at `state`, which must have four coordinates.
    pub fn linearize_at<T: Scalar>(&self, state: &Vec<T>) -> (r: Result<
        LinearizedObservationModel<T>,
        KalmanError,
    >)
        ensures
            state@.len() != NONLINEAR_STATE_DIM ==> r is Err && r->Err_0
                == KalmanError::DimensionMismatch(Operand::StateMean),
            state@.len() == NONLINEAR_STATE_DIM ==> r is Ok && r->Ok_0.observation_matrix@
                == nonlinear_jacobian(state@) && r->Ok_0.observation_matrix_transpose@
                == transpose(nonlinear_jacobian(state@)) && r->Ok_0.observation_noise_covariance@
                == nonlinear_noise::<T>(),
    {
        if state.len() != NONLINEAR_STATE_DIM {
            return Err(KalmanError::DimensionMismatch(Operand::StateMean));
        }
        let observation_matrix = jacobian(state);
        let observation_matrix_transpose = observation_matrix.transpose();
        let observation_noise_covariance = noise::<T>();
        Ok(
            LinearizedObservationModel {
                observation_matrix,
                observation_matrix_transpose,
                observation_noise_covariance,
            },
        )
    }
}

impl<T: Scalar> ObservationModel<T> for NonlinearObservationModel {
    open spec fn state_dim(&self) -> nat {
        NONLINEAR_STATE_DIM as nat
    }

    open spec fn jacobian_spec(&self, at: Seq<T>) -> Seq<Seq<T>> {
        nonlinear_jacobian(at)
    }

    open spec fn noise_spec(&self, at: Seq<T>) -> Seq<Seq<T>> {
        nonlinear_noise::<T>()
    }

    open spec fn observe_spec(&self, state: Seq<T>) -> Seq<T> {
        nonlinear_observation(state)
    }

    fn state_dimension(&self) -> (n: usize) {
        NONLINEAR_STATE_DIM
    }

    fn jacobian_at(&self, at: &Vec<T>) -> (h: Matrix<T>) {
        jacobian(at)
    }

    fn noise_covariance(&self, at: &Vec<T>) -> (r: Matrix<T>) {
        noise::<T>()
    }

    fn observe(&self, state: &Vec<T>) -> (z: Vec<T>) {
        evaluate(state)
    }
}

} // verus!
