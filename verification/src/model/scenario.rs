//! A scenario: an investment thesis with an intrinsic value and the
//! probability that the thesis plays out.

use vstd::prelude::*;
use vstd::string::StringExecFns;

use crate::fixed::{div_fx_spec, money_ratio, mul_fx, mul_fx_spec, SCALE};
use crate::text::fixed_string;
use crate::validation::result::{is_problem_with, Problem, Severity, ValidationResult};
use crate::validation::validate::Validate;

verus! {

/// A scenario is represented by an investment thesis, boiled down to the
/// expected intrinsic value of the whole business (in money units,
/// hundredths) and the estimated probability that the scenario plays out
/// (a ratio, ten decimal places).
#[derive(Clone, Debug)]
pub struct Scenario {
    pub thesis: String,
    pub intrinsic_value: i64,
    pub probability: i64,
}

/// Two scenarios are considered equal when their theses are equal,
/// irrespective of the numbers.
pub open spec fn scenario_eq_spec(a: &Scenario, b: &Scenario) -> bool {
    a.thesis@ == b.thesis@
}

impl PartialEq for Scenario {
    fn eq(&self, other: &Self) -> (r: bool) {
        self.thesis == other.thesis
    }
}

impl vstd::std_specs::cmp::PartialEqSpecImpl for Scenario {
    open spec fn obeys_eq_spec() -> bool {
        true
    }

    open spec fn eq_spec(&self, other: &Self) -> bool {
        scenario_eq_spec(self, other)
    }
}

/// The return of a scenario against a market capitalisation:
/// `(intrinsic_value - market_cap) / market_cap`, as a ratio.
pub open spec fn scenario_return_spec(s: Scenario, market_cap: int) -> int {
    div_fx_spec(s.intrinsic_value as int - market_cap, market_cap)
}

/// The probability-weighted return of a scenario.
pub open spec fn probability_weighted_return_spec(s: Scenario, market_cap: int) -> int {
    mul_fx_spec(s.probability as int, scenario_return_spec(s, market_cap))
}

/// The codes and severities of the problems that scenario validation
/// reports: the probability must lie in [0, 1].
pub open spec fn scenario_problems(s: Scenario) -> Seq<(Seq<char>, Severity)> {
    if s.probability < 0 {
        seq![("negative-probability-for-scenario"@, Severity::ERROR)]
    } else if s.probability > SCALE {
        seq![("probability-for-scenario-greater-than-one"@, Severity::ERROR)]
    } else {
        Seq::empty()
    }
}

impl Scenario {
    /// Calculates the return of this scenario given the market cap.
    pub fn scenario_return(&self, market_cap: i64) -> (r: i64)
        ensures
            r as int == scenario_return_spec(*self, market_cap as int),
    {
        money_ratio(self.intrinsic_value, market_cap)
    }

    /// Calculates the probability-weighted return for this scenario given
    /// the market cap.
    pub fn probability_weighted_return(&self, market_cap: i64) -> (r: i64)
        ensures
            r as int == probability_weighted_return_spec(*self, market_cap as int),
    {
        mul_fx(self.probability, self.scenario_return(market_cap))
    }
}

impl Validate for Scenario {
    open spec fn validation_spec(&self) -> Seq<(Seq<char>, Severity)> {
        scenario_problems(*self)
    }

    fn validate(&self) -> (r: Vec<ValidationResult>) {
        let mut v: Vec<ValidationResult> = Vec::new();
        if self.probability < 0 {
            let mut message = String::from_str("Negative probability is not allowed. Probability: ");
            message.append(fixed_string(self.probability).as_str());
            v.push(
                ValidationResult::PROBLEM(
                    Problem {
                        code: String::from_str("negative-probability-for-scenario"),
                        message,
                        severity: Severity::ERROR,
                    },
                ),
            );
        } else if self.probability > SCALE {
            let mut message = String::from_str(
                "Probability greater than 1 is not allowed. Probability: ",
            );
            message.append(fixed_string(self.probability).as_str());
            v.push(
                ValidationResult::PROBLEM(
                    Problem {
                        code: String::from_str("probability-for-scenario-greater-than-one"),
                        message,
                        severity: Severity::ERROR,
                    },
                ),
            );
        }
        v
    }
}

} // verus!
