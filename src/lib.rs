//! Verified parts of a univariate linear-regression trainer: the command-line
//! iteration count, the paired-column dataset container and the decisions made
//! while loading a dataset or a stored model.
pub mod dataset;
pub mod iterations;
pub mod linear_model;

pub use dataset::{Dataset, DatasetError, DatasetRow};
pub use iterations::check_iterations;
pub use linear_model::{model_from_first_record, LinearModelError};
