//! A deterministic snow simulator built on the material point method: particles
//! carry mass and deformation state, a temporary background grid carries
//! momentum and forces for one step, and an elastoplastic constitutive law with
//! a singular-value clamp models the snow's yield behaviour.
//!
//! All arithmetic is fixed point over `i64`, so every kernel is a total,
//! deterministic function of its inputs and can be specified exactly.

pub mod decomp;
pub mod fixed;
pub mod helpers;
pub mod grid;
pub mod params;
pub mod particle;
pub mod plane;
pub mod vector;
