//! What can go wrong in a step or in a run.

use vstd::prelude::*;

verus! {

/// What a dimension mismatch was found in.
#[derive(Clone, Copy, Debug, PartialEq, Eq, Structural)]
pub enum Operand {
    /// The mean of the estimate a step starts from: it is empty, or not of
    /// the length the observation model observes.
    StateMean,
    /// The covariance of the estimate a step starts from.
    StateCovariance,
    /// The state transition matrix.
    Transition,
    /// The process noise covariance.
    ProcessNoise,
    /// The Jacobian of the observation.
    Jacobian,
    /// The measurement noise covariance.
    MeasurementNoise,
    /// The observation.
    Observation,
    /// The observation that the model predicts.
    PredictedObservation,
    /// The predicted mean handed to the smoother.
    PredictedMean,
    /// The predicted covariance handed to the smoother.
    PredictedCovariance,
    /// The mean that the smoother found for the following step.
    SmoothedMean,
    /// The covariance that the smoother found for the following step.
    SmoothedCovariance,
    /// The filtered and predicted sequences handed to the smoother: the
    /// second is not one longer than the first.
    Sequences,
}

/// Why a single step could not be computed.
#[derive(Clone, Copy, Debug, PartialEq, Eq, Structural)]
pub enum KalmanError {
    /// A vector or a matrix does not have the dimension the others call for.
    DimensionMismatch(Operand),
    /// The innovation covariance of a measurement update has no inverse.
    SingularInnovationCovariance,
    /// A predicted covariance met by the smoother has no inverse.
    SingularPredictedCovariance,
}

/// A failed run: the index of the step that failed, and why.
#[derive(Clone, Copy, Debug, PartialEq, Eq, Structural)]
pub struct RunError {
    pub step: usize,
    pub error: KalmanError,
}

} // verus!
