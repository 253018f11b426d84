//! A small feed-forward neural network engine: a multilayer perceptron of
//! fixed shape, trained example by example with backpropagation and plain
//! gradient descent, on dense matrices of its own.
//!
//! The engine is generic in the numbers it computes with. A number type
//! implements [`scalar::Scalar`]; the crate itself provides the 64-bit integers
//! with wrapping arithmetic, on which every result is exact.
//!
//! - [`matrix`] holds the dense matrix and its operations, [`grid`] their
//!   mathematical model, and [`laws`] the laws of matrix algebra.
//! - [`network`] holds the layers, [`chain`] the mathematical model of a chain
//!   of layers: what a forward pass returns, and what a backward pass and a
//!   training run make of the parameters.
//! - [`activations`] holds the pair of functions that every pass is given.
//! - [`random`] holds the seedable source that new layers draw their
//!   parameters from.
//! - [`error`] names the reasons for which a call is refused.
//!
//! A network is assembled from its output side: a terminal layer, and in front
//! of it one trainable layer after the other.

pub mod activations;
pub mod chain;
pub mod error;
pub mod grid;
pub mod laws;
pub mod matrix;
pub mod network;
pub mod random;
pub mod scalar;
