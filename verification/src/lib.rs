//! Numerical core of a family of small physics simulators: fixed-point
//! scalar arithmetic, Simpson quadrature, Bessel-function evaluation,
//! Newton-Raphson inversion of compressible-flow functions, and explicit
//! ODE stepping (Euler and classical Runge-Kutta) for pendulum models.
//!
//! Every quantity is carried as a binary fixed-point number (32 fractional
//! bits), so that each operation has an exact, machine-checked contract.
use vstd::prelude::*;

pub mod bessel;
pub mod coupled_pendulums;
pub mod double_pendulum;
pub mod elastic_pendulum;
pub mod elementary;
pub mod fixed;
pub mod flow;
pub mod frame_saver;
pub mod inverse;
pub mod params;
pub mod pendulum_model;
pub mod pipe_model;
pub mod quadrature;
pub mod roots;
pub mod simple_pendulum;
pub mod surface_functions;
pub mod wave_model;

verus! {

/// Failure conditions of the numerical core.
#[derive(Clone, Copy, PartialEq, Eq, Structural, Debug)]
pub enum NumericalError {
    /// A parameter key was looked up but is absent from the store.
    ParameterNotFound,
    /// Newton-Raphson left the solved domain before meeting its tolerance.
    NumericalNonConvergence,
    /// A derivative came too close to zero for the Newton step to be taken.
    SingularDerivative,
    /// A parameter value lies outside the range a model accepts.
    InvalidParameterValue,
    /// A computed value left the representable fixed-point range.
    Overflow,
}

} // verus!
