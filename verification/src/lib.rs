//! Kalman filtering and Rauch-Tung-Striebel smoothing for linear-Gaussian
//! systems, with observation models that may be re-linearised at every step.
//!
//! The estimator is written once, over any [`scalar::Scalar`]: exact
//! fractions ([`rational::Rational`]) are at hand, and floating-point numbers
//! enter by implementing the trait.  What each function returns is stated
//! over sequences of scalars ([`linalg`], [`inverse`], [`kalman`]); what
//! follows from that for the estimator as a whole, some of it only where the
//! arithmetic is exact, is proved in [`laws`].

pub mod scalar;
pub mod rational;
pub mod linalg;
pub mod matrix;
pub mod inverse;
pub mod error;
pub mod state;
pub mod observation;
pub mod kalman;
pub mod recurrence;
pub mod exact;
pub mod quadratic;
pub mod inverse_law;
pub mod laws;
