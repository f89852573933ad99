//! State estimates: a mean vector with its covariance matrix.

use vstd::prelude::*;
use crate::matrix::{Matrix, copy_vector};

verus! {

/// A state estimate as a mathematical value.
pub struct StateModel<T> {
    pub x: Seq<T>,
    pub p: Seq<Seq<T>>,
}

/// The estimate of a state: its mean `x` and its covariance `p`.
///
/// The covariance is meant to be symmetric and positive semi-definite; this is
/// left to whoever builds the value.
#[derive(Debug, PartialEq)]
pub struct KalmanState<T> {
    pub x: Vec<T>,
    pub p: Matrix<T>,
}

impl<T> View for KalmanState<T> {
    type V = StateModel<T>;

    open spec fn view(&self) -> StateModel<T> {
        StateModel { x: self.x@, p: self.p@ }
    }
}

impl<T: Copy> Clone for KalmanState<T> {
    fn clone(&self) -> (r: Self)
        ensures
            r@ == self@,
    {
        KalmanState { x: copy_vector(&self.x), p: self.p.clone() }
    }
}

/// The estimates of a sequence, each as a mathematical value.
pub open spec fn states<T>(v: Seq<KalmanState<T>>) -> Seq<StateModel<T>> {
    Seq::new(v.len(), |i: int| v[i]@)
}

/// A state estimate that keeps its two parts together behind accessors.
///
/// The covariance is assumed symmetric and positive semi-definite.
#[derive(Debug, PartialEq)]
pub struct StateAndCovariance<T> {
    state: Vec<T>,
    covariance: Matrix<T>,
}

impl<T> View for StateAndCovariance<T> {
    type V = StateModel<T>;

    closed spec fn view(&self) -> StateModel<T> {
        StateModel { x: self.state@, p: self.covariance@ }
    }
}

impl<T: Copy> Clone for StateAndCovariance<T> {
    fn clone(&self) -> (r: Self)
        ensures
            r@ == self@,
    {
        StateAndCovariance { state: copy_vector(&self.state), covariance: self.covariance.clone() }
    }
}

impl<T> StateAndCovariance<T> {
    /// The estimate with the given mean and covariance.
    pub fn new(state: Vec<T>, covariance: Matrix<T>) -> (r: Self)
        ensures
            r@ == (StateModel { x: state@, p: covariance@ }),
    {
        StateAndCovariance { state, covariance }
    }

    /// The mean.
    pub fn state(&self) -> (r: &Vec<T>)
        ensures
            r@ == self@.x,
    {
        &self.state
    }

    /// The mean, open to change; the covariance stays as it is.
    pub fn state_mut(&mut self) -> (r: &mut Vec<T>)
        ensures
            r@ == old(self)@.x,
            final(self)@ == (StateModel { x: final(r)@, p: old(self)@.p }),
    {
        &mut self.state
    }

    /// The covariance.
    pub fn covariance(&self) -> (r: &Matrix<T>)
        ensures
            r@ == self@.p,
    {
        &self.covariance
    }

    /// The covariance, open to change; the mean stays as it is.
    pub fn covariance_mut(&mut self) -> (r: &mut Matrix<T>)
        ensures
            r@ == old(self)@.p,
            final(self)@ == (StateModel { x: old(self)@.x, p: final(r)@ }),
    {
        &mut self.covariance
    }

    /// The mean and the covariance, taken apart.
    pub fn inner(self) -> (r: (Vec<T>, Matrix<T>))
        ensures
            r.0@ == self@.x,
            r.1@ == self@.p,
    {
        (self.state, self.covariance)
    }
}

} // verus!
