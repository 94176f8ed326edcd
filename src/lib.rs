//! A discrete-time linear Kalman filter (`kf`), conversion of continuous linear
//! models into discrete ones (`systems`), and observability analysis (`analysis`).
//!
//! Everything is generic over `scalar::Scalar`, an abstract real-number capability;
//! `scalar::Real` is a deterministic fixed-point implementation of it. Matrices
//! (`matrix`) and row reduction (`linalg`) are built on the same capability.

pub mod analysis;
pub mod kf;
pub mod linalg;
pub mod matrix;
pub mod nt;
pub mod scalar;
pub mod systems;
