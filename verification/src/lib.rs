//! A fixed-size, grid-based 2D incompressible fluid solver.
//!
//! The solver advances a velocity field over discrete time steps with a
//! pressure-projection finite-difference scheme: a Jacobi pressure-Poisson
//! relaxation, upwind convection, central-difference diffusion, and a fixed
//! inflow/outflow/obstacle boundary policy, together with flow-quality
//! diagnostics (maximum divergence, drag coefficient).
//!
//! All arithmetic is carried out on [`fixed::Fx`], a saturating fixed-point
//! scalar, so that every numeric result is pinned down exactly by the
//! contracts.

pub mod fixed;
pub mod diagnostics;
pub mod grid;
pub mod pressure;
pub mod render;
pub mod stepper;
pub mod velocity;
