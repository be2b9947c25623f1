//! A verified position-based-dynamics soft-body engine.
//!
//! Particles carry fixed-point positions and velocities; edges and
//! tetrahedra carry rest lengths and rest volumes. Each step integrates
//! the particles and then projects the constraints, and every function's
//! contract states the exact arithmetic it performs.

pub mod fx;
pub mod vec3;
pub mod body;
pub mod solver;
pub mod render;
pub mod laws;
