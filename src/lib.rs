//! Gaussian process regression: the parts of the engine that do not depend on
//! the scalar type, verified.
//!
//! The library checks the shape of training sets and query batches, keeps the
//! training set, lays out covariance matrices and their per-hyperparameter
//! gradient matrices from a kernel given as a closure, and selects the
//! parameters that the optimizer trains. Every matrix is a `Vec` of rows,
//! viewed as a `Seq<Seq<V>>`.

pub mod covariance;
pub mod parameters;
pub mod shape;
pub mod training;

pub use covariance::{
    make_covariance_matrix, make_gradient_covariance_matrices, make_symmetric_covariance_matrix,
};
pub use parameters::{gather_parameters, scatter_parameters};
pub use shape::{validate_rows, validate_training_set, ShapeError};
pub use training::TrainingSet;
