//! Portfolios and the allocation input with its optional constraints.

use vstd::prelude::*;
use vstd::string::StringExecFns;

use crate::model::capital_loss::{capital_loss_problems, CapitalLoss};
use crate::model::company::{company_problems, Company};
use crate::text::fixed_string;
use crate::validation::result::{is_problem_with, Problem, Severity, ValidationResult};
use crate::validation::validate::Validate;

verus! {

/// A company with an associated allocation fraction (a ratio; negative
/// values mean shorting and may appear mid-iteration).
#[derive(Clone, Debug)]
pub struct PortfolioCompany {
    pub company: Company,
    pub fraction: i64,
}

/// A portfolio is an ordered list of portfolio companies.  The order is
/// fixed at construction; every per-company vector in the solver is indexed
/// by it.
#[derive(Clone, Debug)]
pub struct Portfolio {
    pub companies: Vec<PortfolioCompany>,
}

/// Allocation input: candidate companies and the optional constraints.
#[derive(Clone, Debug)]
pub struct AllocationInput {
    pub candidates: Vec<Company>,
    pub long_only: Option<bool>,
    pub max_permanent_loss_of_capital: Option<CapitalLoss>,
    pub max_individual_allocation: Option<i64>,
    pub max_total_leverage_ratio: Option<i64>,
}

/// All candidate tickers are pairwise distinct.
pub open spec fn tickers_unique(cs: Seq<Company>) -> bool {
    forall|i: int, j: int|
        0 <= i < j < cs.len() ==> (#[trigger] cs[i].ticker@) != (#[trigger] cs[j].ticker@)
}

/// Problems of the first `n` candidates, flattened in order.
pub open spec fn candidates_problems(cs: Seq<Company>, n: int) -> Seq<(Seq<char>, Severity)>
    decreases n,
{
    if n <= 0 {
        Seq::empty()
    } else {
        candidates_problems(cs, n - 1) + company_problems(cs[n - 1])
    }
}

/// All problems of an allocation input, in reporting order: per-candidate
/// problems, ticker uniqueness, the capital-loss bounds, the rule that a
/// capital-loss constraint needs the long-only constraint, and the signs of
/// the two scalar constraint parameters.
pub open spec fn allocation_input_problems(a: AllocationInput) -> Seq<(Seq<char>, Severity)> {
    candidates_problems(a.candidates@, a.candidates@.len() as int) + (if !tickers_unique(
        a.candidates@,
    ) {
        seq![("all-tickers-must-be-unique"@, Severity::ERROR)]
    } else {
        Seq::empty()
    }) + (match a.max_permanent_loss_of_capital {
        Some(cl) => capital_loss_problems(cl),
        None => Seq::empty(),
    }) + (if a.max_permanent_loss_of_capital is Some && !(a.long_only matches Some(true)) {
        seq![
            ("maximum-permanent-loss-constraint-works-only-with-long-only-constraint"@, Severity::ERROR),
        ]
    } else {
        Seq::empty()
    }) + (if a.max_individual_allocation matches Some(f) && f < 0 {
        seq![("maximum-individual-allocation-cannot-be-negative"@, Severity::ERROR)]
    } else {
        Seq::empty()
    }) + (if a.max_total_leverage_ratio matches Some(l) && l < 0 {
        seq![("maximum-total-leverage-ratio-cannot-be-negative"@, Severity::ERROR)]
    } else {
        Seq::empty()
    })
}

/// Joins the candidate tickers with a comma and a space.
fn join_tickers(cs: &Vec<Company>) -> (r: String) {
    let mut s = String::new();
    let mut i: usize = 0;
    while i < cs.len()
        decreases cs@.len() - i,
    {
        if i > 0 {
            s.append(", ");
        }
        s.append(cs[i].ticker.as_str());
        i = i + 1;
    }
    s
}

/// Checks whether all candidate tickers are pairwise distinct.
fn check_tickers_unique(cs: &Vec<Company>) -> (r: bool)
    ensures
        r == tickers_unique(cs@),
{
    let n = cs.len();
    let mut duplicate: bool = false;
    let mut i: usize = 0;
    while i < n
        invariant
            0 <= i <= n,
            n == cs@.len(),
            duplicate ==> !tickers_unique(cs@),
            !duplicate ==> forall|a: int, b: int|
                0 <= a < b < cs@.len() && a < i as int ==> (#[trigger] cs@[a].ticker@) != (
                #[trigger] cs@[b].ticker@),
        decreases n - i,
    {
        let mut j: usize = i + 1;
        while j < n
            invariant
                0 <= i < j <= n,
                n == cs@.len(),
                duplicate ==> !tickers_unique(cs@),
                !duplicate ==> forall|a: int, b: int|
                    0 <= a < b < cs@.len() && a < i as int ==> (#[trigger] cs@[a].ticker@) != (
                    #[trigger] cs@[b].ticker@),
                !duplicate ==> forall|b: int|
                    (i as int) < b < (j as int) ==> cs@[i as int].ticker@ != (
                    #[trigger] cs@[b].ticker@),
            decreases n - j,
        {
            if cs[i].ticker == cs[j].ticker {
                duplicate = true;
            }
            j = j + 1;
        }
        i = i + 1;
    }
    !duplicate
}

impl Validate for AllocationInput {
    open spec fn validation_spec(&self) -> Seq<(Seq<char>, Severity)> {
        allocation_input_problems(*self)
    }

    fn validate(&self) -> (r: Vec<ValidationResult>) {
        let mut v: Vec<ValidationResult> = Vec::new();
        let mut i: usize = 0;
        while i < self.candidates.len()
            invariant
                0 <= i <= self.candidates@.len(),
                v@.len() == candidates_problems(self.candidates@, i as int).len(),
                forall|k: int|
                    0 <= k < v@.len() ==> is_problem_with(
                        #[trigger] v@[k],
                        candidates_problems(self.candidates@, i as int)[k].0,
                        candidates_problems(self.candidates@, i as int)[k].1,
                    ),
            decreases self.candidates@.len() - i,
        {
            let mut cv = self.candidates[i].validate();
            v.append(&mut cv);
            i = i + 1;
        }
        let ghost done = candidates_problems(self.candidates@, self.candidates@.len() as int);
        if !check_tickers_unique(&self.candidates) {
            let mut message = String::from_str("All tickers must be unique. All tickers are: ");
            message.append(join_tickers(&self.candidates).as_str());
            message.append(". Check your input.");
            v.push(
                ValidationResult::PROBLEM(
                    Problem {
                        code: String::from_str("all-tickers-must-be-unique"),
                        message,
                        severity: Severity::ERROR,
                    },
                ),
            );
        }
        let ghost done = done + (if !tickers_unique(self.candidates@) {
            seq![("all-tickers-must-be-unique"@, Severity::ERROR)]
        } else {
            Seq::<(Seq<char>, Severity)>::empty()
        });
        assert(v@.len() == done.len());
        match &self.max_permanent_loss_of_capital {
            Some(cl) => {
                let mut clv = cl.validate();
                v.append(&mut clv);
            },
            None => (),
        }
        let ghost done = done + (match &self.max_permanent_loss_of_capital {
            Some(cl) => capital_loss_problems(*cl),
            None => Seq::empty(),
        });
        assert(v@.len() == done.len());
        let long_only_set = match &self.long_only {
            Some(b) => *b,
            None => false,
        };
        if self.max_permanent_loss_of_capital.is_some() && !long_only_set {
            v.push(
                ValidationResult::PROBLEM(
                    Problem {
                        code: String::from_str(
                            "maximum-permanent-loss-constraint-works-only-with-long-only-constraint",
                        ),
                        message: String::from_str(
                            "Maximum permanent loss constraint works only with long-only constraint. Either remove the permanent loss constraint or use the long-only constraint.",
                        ),
                        severity: Severity::ERROR,
                    },
                ),
            );
        }
        let ghost done = done + (if self.max_permanent_loss_of_capital is Some && !(
        self.long_only matches Some(true)) {
            seq![
                ("maximum-permanent-loss-constraint-works-only-with-long-only-constraint"@, Severity::ERROR),
            ]
        } else {
            Seq::<(Seq<char>, Severity)>::empty()
        });
        assert(v@.len() == done.len());
        match &self.max_individual_allocation {
            Some(f) => {
                if *f < 0 {
                    let mut message = String::from_str(
                        "Maximum individual allocation cannot be negative. You provided ",
                    );
                    message.append(fixed_string(*f).as_str());
                    message.append(".");
                    v.push(
                        ValidationResult::PROBLEM(
                            Problem {
                                code: String::from_str(
                                    "maximum-individual-allocation-cannot-be-negative",
                                ),
                                message,
                                severity: Severity::ERROR,
                            },
                        ),
                    );
                }
            },
            None => (),
        }
        let ghost done = done + (if self.max_individual_allocation matches Some(f) && f < 0 {
            seq![("maximum-individual-allocation-cannot-be-negative"@, Severity::ERROR)]
        } else {
            Seq::<(Seq<char>, Severity)>::empty()
        });
        assert(v@.len() == done.len());
        match &self.max_total_leverage_ratio {
            Some(l) => {
                if *l < 0 {
                    let mut message = String::from_str(
                        "Maximum total leverage ratio cannot be negative. You provided ",
                    );
                    message.append(fixed_string(*l).as_str());
                    message.append(".");
                    v.push(
                        ValidationResult::PROBLEM(
                            Problem {
                                code: String::from_str(
                                    "maximum-total-leverage-ratio-cannot-be-negative",
                                ),
                                message,
                                severity: Severity::ERROR,
                            },
                        ),
                    );
                }
            },
            None => (),
        }
        let ghost done = done + (if self.max_total_leverage_ratio matches Some(l) && l < 0 {
            seq![("maximum-total-leverage-ratio-cannot-be-negative"@, Severity::ERROR)]
        } else {
            Seq::<(Seq<char>, Severity)>::empty()
        });
        assert(v@.len() == done.len());
        proof {
            assert(allocation_input_problems(*self) == done);
        }
        v
    }
}

} // verus!
