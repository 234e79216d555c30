//! Optimal-extension-field arithmetic over a prime base field.
//!
//! The crate builds a degree-4 (and degree-2) extension `F_p[x]/(x^N - W)`
//! of a prime field, with Frobenius-based inversion and batch inversion.

pub mod modular;
pub mod params;
pub mod quartic;
pub mod laws;
pub mod batch;
pub mod random;
pub mod quadratic;
