//! Response envelopes returned by the allocation and analysis entry points.

use vstd::prelude::*;

use crate::model::errors::Error;
use crate::validation::result::ValidationResult;

verus! {

/// Probability and returns used to minimally represent an outcome.
#[derive(Clone, Debug)]
pub struct ProbabilityAndReturns {
    pub probability: i64,
    pub portfolio_return: i64,
    pub probability_weighted_return: i64,
}

/// A ticker and a fraction: the minimal representation of one allocation.
#[derive(Clone, Debug)]
pub struct TickerAndFraction {
    pub ticker: String,
    pub fraction: i64,
}

/// Statistics computed for a given portfolio.
#[derive(Clone, Debug)]
pub struct AnalysisResult {
    pub worst_case_outcome: ProbabilityAndReturns,
    pub cumulative_probability_of_loss: i64,
    pub expected_return: i64,
}

/// Allocation result: tickers with their fractions, plus the analysis.
#[derive(Clone, Debug)]
pub struct AllocationResult {
    pub allocations: Vec<TickerAndFraction>,
    pub analysis: AnalysisResult,
}

/// Response of the allocation entry point; contains the results of both
/// allocation and analysis.
#[derive(Clone, Debug)]
pub struct AllocationResponse {
    pub result: Option<AllocationResult>,
    pub validation_problems: Option<Vec<ValidationResult>>,
    pub error: Option<Error>,
}

/// Response of the analysis entry point.
#[derive(Clone, Debug)]
pub struct AnalysisResponse {
    pub result: Option<AnalysisResult>,
    pub error: Option<Error>,
}

} // verus!
