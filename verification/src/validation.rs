//! Validation of allocation inputs: structured results and the trait that
//! values implement to report their problems.

pub mod result;
pub mod validate;
