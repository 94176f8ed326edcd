//! Role-tagged wrappers: matrices and vectors of the same layout that play
//! different parts (continuous or discrete, system or input) get distinct types.
use vstd::prelude::*;

use crate::matrix::Matrix;
use crate::scalar::Scalar;

verus! {

/// The discrete system matrix `F`.
#[derive(Clone, Debug)]
pub struct DiscreteSystemMatrix<N>(pub Matrix<N>);

/// The continuous system matrix `A`.
#[derive(Clone, Debug)]
pub struct ContinuousSystemMatrix<N>(pub Matrix<N>);

/// The discrete input matrix `H`.
#[derive(Clone, Debug)]
pub struct DiscreteInputMatrix<N>(pub Matrix<N>);

/// The continuous input matrix `B`.
#[derive(Clone, Debug)]
pub struct ContinuousInputMatrix<N>(pub Matrix<N>);

/// An input vector `u`.
#[derive(Clone, Debug)]
pub struct InputVector<N>(pub Vec<N>);

/// The process-noise covariance `Q`.
#[derive(Clone, Debug)]
pub struct SystemNoiseVarianceMatrix<N>(pub Matrix<N>);

/// The state vector `x`.
#[derive(Clone, Debug)]
pub struct StateVector<N>(pub Vec<N>);

/// The estimate's covariance `P`.
#[derive(Clone, Debug)]
pub struct CovarianceMatrix<N>(pub Matrix<N>);

/// One scalar measurement `y`.
#[derive(Clone, Copy, Debug)]
pub struct Measurement<N>(pub N);

/// The variance `r` of one scalar measurement's noise.
#[derive(Clone, Copy, Debug)]
pub struct MeasurementNoiseVariance<N>(pub N);

/// One row `c` of a measurement matrix.
#[derive(Clone, Debug)]
pub struct MeasurementMatrixRow<N>(pub Vec<N>);

/// A system matrix of either kind.
pub trait SystemMatrix<N> {
    fn matrix(&self) -> &Matrix<N>;
}

impl<N: Scalar> SystemMatrix<N> for DiscreteSystemMatrix<N> {
    fn matrix(&self) -> &Matrix<N> {
        &self.0
    }
}

impl<N: Scalar> SystemMatrix<N> for ContinuousSystemMatrix<N> {
    fn matrix(&self) -> &Matrix<N> {
        &self.0
    }
}

/// An input matrix of either kind.
pub trait InputMatrix<N> {
    fn matrix(&self) -> &Matrix<N>;
}

impl<N: Scalar> InputMatrix<N> for DiscreteInputMatrix<N> {
    fn matrix(&self) -> &Matrix<N> {
        &self.0
    }
}

impl<N: Scalar> InputMatrix<N> for ContinuousInputMatrix<N> {
    fn matrix(&self) -> &Matrix<N> {
        &self.0
    }
}

} // verus!
