//! The capital-loss tolerance: "I accept losing up to this fraction of
//! capital with at most this probability."

use vstd::prelude::*;
use vstd::string::StringExecFns;

use crate::fixed::SCALE;
use crate::model::company::TOLERANCE;
use crate::text::fixed_string;
use crate::validation::result::{is_problem_with, Problem, Severity, ValidationResult};
use crate::validation::validate::Validate;

verus! {

/// Loss of capital is defined by two ratios: the amount lost and the
/// probability of the loss happening.  Both must lie in (0, 1].  The value
/// feeds a constraint modelling the maximum allowable loss of capital.
#[derive(Clone, Copy, Debug)]
pub struct CapitalLoss {
    pub fraction_of_capital: i64,
    pub probability_of_loss: i64,
}

/// The problems reported for the fraction-of-capital bound.
pub open spec fn fraction_of_capital_problems(cl: CapitalLoss) -> Seq<(Seq<char>, Severity)> {
    if cl.fraction_of_capital < TOLERANCE {
        seq![("fraction-of-capital-cannot-be-zero-or-negative"@, Severity::ERROR)]
    } else if cl.fraction_of_capital > SCALE {
        seq![("fraction-of-capital-cannot-be-greater-than-one"@, Severity::ERROR)]
    } else {
        Seq::empty()
    }
}

/// The problems reported for the probability-of-loss bound.
pub open spec fn probability_of_loss_problems(cl: CapitalLoss) -> Seq<(Seq<char>, Severity)> {
    if cl.probability_of_loss < TOLERANCE {
        seq![("probability-of-loss-of-capital-cannot-be-zero-or-negative"@, Severity::ERROR)]
    } else if cl.probability_of_loss > SCALE {
        seq![("probability-of-loss-cannot-be-greater-than-one"@, Severity::ERROR)]
    } else {
        Seq::empty()
    }
}

/// All problems of a capital-loss value, in reporting order.
pub open spec fn capital_loss_problems(cl: CapitalLoss) -> Seq<(Seq<char>, Severity)> {
    fraction_of_capital_problems(cl) + probability_of_loss_problems(cl)
}

impl CapitalLoss {
    /// Validates that the fraction of capital lost is in (0, 1].
    fn validate_fraction_of_capital_bounds(&self) -> (r: Option<ValidationResult>)
        ensures
            r is Some <==> fraction_of_capital_problems(*self).len() > 0,
            r matches Some(p) ==> is_problem_with(
                p,
                fraction_of_capital_problems(*self)[0].0,
                fraction_of_capital_problems(*self)[0].1,
            ),
    {
        if self.fraction_of_capital < TOLERANCE {
            let mut message = String::from_str(
                "Zero or negative fraction of capital lost is not allowed because this input represents the fraction of assets one is willing to lose under a worst-case scenario. Fraction is ",
            );
            message.append(fixed_string(self.fraction_of_capital).as_str());
            message.append(".");
            Some(
                ValidationResult::PROBLEM(
                    Problem {
                        code: String::from_str("fraction-of-capital-cannot-be-zero-or-negative"),
                        message,
                        severity: Severity::ERROR,
                    },
                ),
            )
        } else if self.fraction_of_capital > SCALE {
            let mut message = String::from_str(
                "Fraction of capital lost greater than 1 is not allowed because it would imply the use of leverage, which is not allowed for this constraint. Fraction is ",
            );
            message.append(fixed_string(self.fraction_of_capital).as_str());
            message.append(".");
            Some(
                ValidationResult::PROBLEM(
                    Problem {
                        code: String::from_str("fraction-of-capital-cannot-be-greater-than-one"),
                        message,
                        severity: Severity::ERROR,
                    },
                ),
            )
        } else {
            None
        }
    }

    /// Validates that the probability of loss of capital is in (0, 1].
    fn validate_probability_of_loss_bounds(&self) -> (r: Option<ValidationResult>)
        ensures
            r is Some <==> probability_of_loss_problems(*self).len() > 0,
            r matches Some(p) ==> is_problem_with(
                p,
                probability_of_loss_problems(*self)[0].0,
                probability_of_loss_problems(*self)[0].1,
            ),
    {
        if self.probability_of_loss < TOLERANCE {
            let mut message = String::from_str(
                "Zero or negative probability of loss is not allowed. Probability is ",
            );
            message.append(fixed_string(self.probability_of_loss).as_str());
            message.append(".");
            Some(
                ValidationResult::PROBLEM(
                    Problem {
                        code: String::from_str(
                            "probability-of-loss-of-capital-cannot-be-zero-or-negative",
                        ),
                        message,
                        severity: Severity::ERROR,
                    },
                ),
            )
        } else if self.probability_of_loss > SCALE {
            let mut message = String::from_str(
                "Probability of loss greater than 1 is not allowed. Probability is ",
            );
            message.append(fixed_string(self.probability_of_loss).as_str());
            message.append(".");
            Some(
                ValidationResult::PROBLEM(
                    Problem {
                        code: String::from_str("probability-of-loss-cannot-be-greater-than-one"),
                        message,
                        severity: Severity::ERROR,
                    },
                ),
            )
        } else {
            None
        }
    }
}

impl Validate for CapitalLoss {
    open spec fn validation_spec(&self) -> Seq<(Seq<char>, Severity)> {
        capital_loss_problems(*self)
    }

    fn validate(&self) -> (r: Vec<ValidationResult>) {
        let mut v: Vec<ValidationResult> = Vec::new();
        match self.validate_fraction_of_capital_bounds() {
            Some(p) => v.push(p),
            None => (),
        }
        match self.validate_probability_of_loss_bounds() {
            Some(p) => v.push(p),
            None => (),
        }
        v
    }
}

} // verus!
