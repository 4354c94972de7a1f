//! The domain model: scenarios, companies, portfolios, constraint
//! parameters, runtime errors and response envelopes.

pub mod capital_loss;
pub mod company;
pub mod errors;
pub mod portfolio;
pub mod responses;
pub mod scenario;
