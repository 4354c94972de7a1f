//! A company: identity, market capitalisation and the scenarios that may
//! play out for it, together with its validation rules.

use vstd::prelude::*;
use vstd::string::StringExecFns;

use crate::fixed::{add_fx, add_fx_spec, SCALE};
use crate::model::scenario::{
    probability_weighted_return_spec, scenario_problems, Scenario,
};
use crate::text::{fixed_string, percent_string_one_decimal};
use crate::validation::result::{is_problem_with, Problem, Severity, ValidationResult};
use crate::validation::validate::Validate;

verus! {

/// Tolerance for comparing fixed-point ratios: one unit in the last of the
/// ten decimal places.
pub const TOLERANCE: i64 = 1;

/// A company with basic information relevant for investment and a set of
/// possible scenarios.  The market capitalisation is a money value
/// (hundredths).
#[derive(Clone, Debug)]
pub struct Company {
    pub name: String,
    pub ticker: String,
    pub description: String,
    pub market_cap: i64,
    pub scenarios: Vec<Scenario>,
}

/// Two companies are considered equal when their ticker symbols are equal,
/// irrespective of the other fields.
pub open spec fn company_eq_spec(a: &Company, b: &Company) -> bool {
    a.ticker@ == b.ticker@
}

impl PartialEq for Company {
    fn eq(&self, other: &Self) -> (r: bool) {
        self.ticker == other.ticker
    }
}

impl vstd::std_specs::cmp::PartialEqSpecImpl for Company {
    open spec fn obeys_eq_spec() -> bool {
        true
    }

    open spec fn eq_spec(&self, other: &Self) -> bool {
        company_eq_spec(self, other)
    }
}

/// The saturating fixed-point sum of the first `n` scenario probabilities,
/// accumulated left to right.
pub open spec fn sum_probabilities(ss: Seq<Scenario>, n: int) -> int
    decreases n,
{
    if n <= 0 {
        0
    } else {
        add_fx_spec(sum_probabilities(ss, n - 1), ss[n - 1].probability as int)
    }
}

/// The saturating fixed-point sum of the first `n` probability-weighted
/// scenario returns, accumulated left to right: the expected return of one
/// company.
pub open spec fn sum_weighted_returns(ss: Seq<Scenario>, market_cap: int, n: int) -> int
    decreases n,
{
    if n <= 0 {
        0
    } else {
        add_fx_spec(
            sum_weighted_returns(ss, market_cap, n - 1),
            probability_weighted_return_spec(ss[n - 1], market_cap),
        )
    }
}

/// All scenario theses are pairwise distinct.
pub open spec fn theses_unique(ss: Seq<Scenario>) -> bool {
    forall|i: int, j: int|
        0 <= i < j < ss.len() ==> (#[trigger] ss[i].thesis@) != (#[trigger] ss[j].thesis@)
}

/// Every scenario's probability-weighted return clears `-TOLERANCE`: the
/// company has no downside scenario.
pub open spec fn has_no_downside(ss: Seq<Scenario>, market_cap: int) -> bool {
    forall|i: int|
        0 <= i < ss.len() ==> probability_weighted_return_spec(#[trigger] ss[i], market_cap) > -(
        TOLERANCE as int)
}

/// The probability sum misses 1 by more than the tolerance.
pub open spec fn probabilities_off(ss: Seq<Scenario>) -> bool {
    let s = sum_probabilities(ss, ss.len() as int);
    (s - SCALE as int) > TOLERANCE as int || (s - SCALE as int) < -(TOLERANCE as int)
}

/// Problems of the first `n` scenarios, flattened in order.
pub open spec fn scenarios_problems(ss: Seq<Scenario>, n: int) -> Seq<(Seq<char>, Severity)>
    decreases n,
{
    if n <= 0 {
        Seq::empty()
    } else {
        scenarios_problems(ss, n - 1) + scenario_problems(ss[n - 1])
    }
}

/// All problems of a company, in reporting order.
pub open spec fn company_problems(c: Company) -> Seq<(Seq<char>, Severity)> {
    (if c.scenarios@.len() == 0 {
        seq![("no-scenarios-for-company"@, Severity::ERROR)]
    } else {
        Seq::empty()
    }) + (if !theses_unique(c.scenarios@) {
        seq![("scenarios-are-not-unique"@, Severity::ERROR)]
    } else {
        Seq::empty()
    }) + (if probabilities_off(c.scenarios@) {
        seq![("probabilities-for-all-scenarios-do-not-sum-up-to-one"@, Severity::ERROR)]
    } else {
        Seq::empty()
    }) + (if sum_weighted_returns(c.scenarios@, c.market_cap as int, c.scenarios@.len() as int)
        < 0 {
        seq![("negative-expected-return-for-a-company"@, Severity::WARNING)]
    } else {
        Seq::empty()
    }) + (if has_no_downside(c.scenarios@, c.market_cap as int) {
        seq![("company-with-no-downside-scenario"@, Severity::WARNING)]
    } else {
        Seq::empty()
    }) + scenarios_problems(c.scenarios@, c.scenarios@.len() as int)
}

impl Company {
    /// The expected return of the company: the fixed-point sum of the
    /// probability-weighted returns of its scenarios.
    pub fn expected_return(&self) -> (r: i64)
        ensures
            r as int == sum_weighted_returns(
                self.scenarios@,
                self.market_cap as int,
                self.scenarios@.len() as int,
            ),
    {
        let mut acc: i64 = 0;
        let mut i: usize = 0;
        while i < self.scenarios.len()
            invariant
                0 <= i <= self.scenarios@.len(),
                acc as int == sum_weighted_returns(self.scenarios@, self.market_cap as int, i as int),
            decreases self.scenarios@.len() - i,
        {
            acc = add_fx(acc, self.scenarios[i].probability_weighted_return(self.market_cap));
            i = i + 1;
        }
        acc
    }

    /// Validates that the company has at least one scenario.
    fn validate_at_least_one_scenario(&self) -> (r: ValidationResult)
        ensures
            self.scenarios@.len() == 0 ==> is_problem_with(
                r,
                "no-scenarios-for-company"@,
                Severity::ERROR,
            ),
            self.scenarios@.len() > 0 ==> r is OK,
    {
        if self.scenarios.len() == 0 {
            let mut message = String::from_str("No scenarios found for ");
            message.append(self.name.as_str());
            message.append(" with ticker ");
            message.append(self.ticker.as_str());
            message.append(".");
            ValidationResult::PROBLEM(
                Problem {
                    code: String::from_str("no-scenarios-for-company"),
                    message,
                    severity: Severity::ERROR,
                },
            )
        } else {
            ValidationResult::OK
        }
    }

    /// Validates that all scenarios have a unique thesis.
    fn validate_all_scenarios_unique(&self) -> (r: ValidationResult)
        ensures
            !theses_unique(self.scenarios@) ==> is_problem_with(
                r,
                "scenarios-are-not-unique"@,
                Severity::ERROR,
            ),
            theses_unique(self.scenarios@) ==> r is OK,
    {
        let n = self.scenarios.len();
        let mut duplicate: bool = false;
        let mut i: usize = 0;
        while i < n
            invariant
                0 <= i <= n,
                n == self.scenarios@.len(),
                duplicate ==> !theses_unique(self.scenarios@),
                !duplicate ==> forall|a: int, b: int|
                    0 <= a < b < self.scenarios@.len() && a < i as int ==> (
                    #[trigger] self.scenarios@[a].thesis@) != (#[trigger] self.scenarios@[b].thesis@),
            decreases n - i,
        {
            let mut j: usize = i + 1;
            while j < n
                invariant
                    0 <= i < j <= n,
                    n == self.scenarios@.len(),
                    duplicate ==> !theses_unique(self.scenarios@),
                    !duplicate ==> forall|a: int, b: int|
                        0 <= a < b < self.scenarios@.len() && a < i as int ==> (
                        #[trigger] self.scenarios@[a].thesis@) != (
                        #[trigger] self.scenarios@[b].thesis@),
                    !duplicate ==> forall|b: int|
                        (i as int) < b < (j as int) ==> self.scenarios@[i as int].thesis@ != (
                        #[trigger] self.scenarios@[b].thesis@),
                decreases n - j,
            {
                if self.scenarios[i].thesis == self.scenarios[j].thesis {
                    duplicate = true;
                }
                j = j + 1;
            }
            i = i + 1;
        }
        if duplicate {
            let mut message = String::from_str(
                "Not all scenarios have a unique thesis for company ",
            );
            message.append(self.name.as_str());
            message.append(". Check your input.");
            ValidationResult::PROBLEM(
                Problem {
                    code: String::from_str("scenarios-are-not-unique"),
                    message,
                    severity: Severity::ERROR,
                },
            )
        } else {
            ValidationResult::OK
        }
    }

    /// Validates that the probabilities across all scenarios sum to one
    /// within the tolerance.
    fn validate_probabilities_sum_up_to_one(&self) -> (r: ValidationResult)
        ensures
            probabilities_off(self.scenarios@) ==> is_problem_with(
                r,
                "probabilities-for-all-scenarios-do-not-sum-up-to-one"@,
                Severity::ERROR,
            ),
            !probabilities_off(self.scenarios@) ==> r is OK,
    {
        let mut sum: i64 = 0;
        let mut i: usize = 0;
        while i < self.scenarios.len()
            invariant
                0 <= i <= self.scenarios@.len(),
                sum as int == sum_probabilities(self.scenarios@, i as int),
            decreases self.scenarios@.len() - i,
        {
            sum = add_fx(sum, self.scenarios[i].probability);
            i = i + 1;
        }
        let off: i128 = sum as i128 - SCALE as i128;
        if off > TOLERANCE as i128 || off < -(TOLERANCE as i128) {
            let mut message = String::from_str("Probabilities of all scenarios for company ");
            message.append(self.name.as_str());
            message.append(" do not sum up to 1. Sum = ");
            message.append(fixed_string(sum).as_str());
            message.append(".");
            ValidationResult::PROBLEM(
                Problem {
                    code: String::from_str("probabilities-for-all-scenarios-do-not-sum-up-to-one"),
                    message,
                    severity: Severity::ERROR,
                },
            )
        } else {
            ValidationResult::OK
        }
    }

    /// Returns a validation warning when the company has a negative
    /// expected return, which would imply shorting.
    pub fn validate_negative_expected_return(&self) -> (r: ValidationResult)
        ensures
            sum_weighted_returns(
                self.scenarios@,
                self.market_cap as int,
                self.scenarios@.len() as int,
            ) < 0 ==> is_problem_with(
                r,
                "negative-expected-return-for-a-company"@,
                Severity::WARNING,
            ),
            sum_weighted_returns(
                self.scenarios@,
                self.market_cap as int,
                self.scenarios@.len() as int,
            ) >= 0 ==> r is OK,
    {
        let expected = self.expected_return();
        if expected < 0 {
            let mut message = String::from_str("Found negative expected return of ");
            message.append(percent_string_one_decimal(expected).as_str());
            message.append("% for ");
            message.append(self.ticker.as_str());
            message.append(
                ". This is not supported in the current framework because we want to prohibit shorting.",
            );
            ValidationResult::PROBLEM(
                Problem {
                    code: String::from_str("negative-expected-return-for-a-company"),
                    message,
                    severity: Severity::WARNING,
                },
            )
        } else {
            ValidationResult::OK
        }
    }

    /// Returns a validation warning when the company has no downside
    /// scenario, which would drive the solver towards an infinite bet.
    pub fn validate_no_downside_scenario(&self) -> (r: ValidationResult)
        ensures
            has_no_downside(self.scenarios@, self.market_cap as int) ==> is_problem_with(
                r,
                "company-with-no-downside-scenario"@,
                Severity::WARNING,
            ),
            !has_no_downside(self.scenarios@, self.market_cap as int) ==> r is OK,
    {
        let mut all_clear: bool = true;
        let mut i: usize = 0;
        while i < self.scenarios.len()
            invariant
                0 <= i <= self.scenarios@.len(),
                all_clear ==> forall|k: int|
                    0 <= k < i as int ==> probability_weighted_return_spec(
                        #[trigger] self.scenarios@[k],
                        self.market_cap as int,
                    ) > -(TOLERANCE as int),
                !all_clear ==> !has_no_downside(self.scenarios@, self.market_cap as int),
            decreases self.scenarios@.len() - i,
        {
            if self.scenarios[i].probability_weighted_return(self.market_cap) <= -TOLERANCE {
                all_clear = false;
            }
            i = i + 1;
        }
        if all_clear {
            let mut message = String::from_str("Company ");
            message.append(self.ticker.as_str());
            message.append(
                " doesn't have at least one downside scenario. This is not supported in the current framework because the algorithm would try and tell you to put all your money on this company.",
            );
            ValidationResult::PROBLEM(
                Problem {
                    code: String::from_str("company-with-no-downside-scenario"),
                    message,
                    severity: Severity::WARNING,
                },
            )
        } else {
            ValidationResult::OK
        }
    }
}

impl Validate for Company {
    open spec fn validation_spec(&self) -> Seq<(Seq<char>, Severity)> {
        company_problems(*self)
    }

    fn validate(&self) -> (r: Vec<ValidationResult>) {
        let mut v: Vec<ValidationResult> = Vec::new();
        let r1 = self.validate_at_least_one_scenario();
        match r1 {
            ValidationResult::PROBLEM(_) => v.push(r1),
            ValidationResult::OK => (),
        }
        let r2 = self.validate_all_scenarios_unique();
        match r2 {
            ValidationResult::PROBLEM(_) => v.push(r2),
            ValidationResult::OK => (),
        }
        let r3 = self.validate_probabilities_sum_up_to_one();
        match r3 {
            ValidationResult::PROBLEM(_) => v.push(r3),
            ValidationResult::OK => (),
        }
        let r4 = self.validate_negative_expected_return();
        match r4 {
            ValidationResult::PROBLEM(_) => v.push(r4),
            ValidationResult::OK => (),
        }
        let r5 = self.validate_no_downside_scenario();
        match r5 {
            ValidationResult::PROBLEM(_) => v.push(r5),
            ValidationResult::OK => (),
        }
        let ghost head = company_problems(*self).take(
            company_problems(*self).len() - scenarios_problems(
                self.scenarios@,
                self.scenarios@.len() as int,
            ).len(),
        );
        assert(v@.len() == head.len());
        assert(forall|k: int|
            0 <= k < v@.len() ==> is_problem_with(#[trigger] v@[k], head[k].0, head[k].1));
        let mut i: usize = 0;
        while i < self.scenarios.len()
            invariant
                0 <= i <= self.scenarios@.len(),
                v@.len() == head.len() + scenarios_problems(self.scenarios@, i as int).len(),
                forall|k: int|
                    0 <= k < v@.len() ==> is_problem_with(
                        #[trigger] v@[k],
                        (head + scenarios_problems(self.scenarios@, i as int))[k].0,
                        (head + scenarios_problems(self.scenarios@, i as int))[k].1,
                    ),
            decreases self.scenarios@.len() - i,
        {
            let mut sv = self.scenarios[i].validate();
            v.append(&mut sv);
            i = i + 1;
        }
        proof {
            assert(company_problems(*self) == head + scenarios_problems(
                self.scenarios@,
                self.scenarios@.len() as int,
            ));
        }
        v
    }
}

} // verus!
