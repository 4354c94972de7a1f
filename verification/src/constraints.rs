//! Inequality constraints for the allocation solver: each contributes the
//! partial derivative of its function w.r.t. the fractions and a scalar
//! function value augmented by a slack variable.

pub mod constraint;
pub mod long_only_constraint;
pub mod maximum_capital_loss_constraint;
pub mod maximum_individual_allocation_constraint;
pub mod maximum_total_leverage_constraint;
pub mod no_shorting_constraint;
