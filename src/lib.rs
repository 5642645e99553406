//! Verified building blocks for small supervised learners: label encoding,
//! the layer shapes that a network topology implies, and the agreement count
//! from which an evaluator computes accuracy.
pub mod evaluation;
pub mod preprocessing;
pub mod topology;
