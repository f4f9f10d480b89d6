//! Structure-preserving time integration for nonlinear port-Hamiltonian
//! systems with dissipation and control inputs.
//!
//! The crate is generic over an abstract scalar field: all algorithms are
//! written against the [`scalar::Scalar`] trait, whose operations are tied
//! to per-implementation specification hooks. Over those hooks every result
//! is pinned exactly — the linear solve to its elimination model, the root
//! solver to its quasi-Newton recurrence, and each integrator's trajectory
//! to the stage-by-stage model of its scheme — together with the structural
//! guarantees (shapes, exact propagation of the initial state, fail-fast
//! dimension errors) for every scalar type a caller instantiates.

pub mod broyden;
pub mod linsolve;
pub mod matrix;
pub mod nonlinear_system;
pub mod scalar;
pub mod simulation;
pub mod time_discretization;
pub mod vector;
