//! An upper bound on the permanent loss of capital the investor accepts:
//! the probability-weighted worst case over the per-company worst
//! scenarios may not exceed the accepted loss.

use vstd::prelude::*;

use crate::constraints::constraint::{
    dot_fractions, dot_to, fractions_vec, Constraint, InequalityConstraint,
};
use crate::fixed::{add_fx, add_fx_spec, mul_fx, neg_fx, neg_fx_spec, SCALE};
use crate::model::company::Company;
use crate::model::portfolio::{Portfolio, PortfolioCompany};
use crate::model::scenario::probability_weighted_return_spec;

verus! {

/// The probability-weighted return of the first scenario minimising it
/// among the first `m` scenarios of the company: the worst case for this
/// company alone.
pub open spec fn worst_weighted_return_to(c: Company, m: int) -> int
    decreases m,
{
    if m <= 1 {
        probability_weighted_return_spec(c.scenarios@[0], c.market_cap as int)
    } else {
        let prev = worst_weighted_return_to(c, m - 1);
        let cur = probability_weighted_return_spec(c.scenarios@[m - 1], c.market_cap as int);
        if cur < prev {
            cur
        } else {
            prev
        }
    }
}

/// The worst probability-weighted return over all scenarios of a company.
pub open spec fn worst_weighted_return(c: Company) -> int {
    worst_weighted_return_to(c, c.scenarios@.len() as int)
}

/// [MaxCapitalLossConstraint] puts an upper bound on the permanent loss of
/// capital the investor is comfortable with.  The parameter is the
/// probability of the worst case multiplied by the fraction of capital
/// lost in it; by convention it is non-positive because it represents a
/// loss, and no smaller than minus one.
#[derive(Clone, Copy, Debug)]
pub struct MaxCapitalLossConstraint {
    pub probability_times_fraction_of_capital_lost: i64,
}

impl MaxCapitalLossConstraint {
    /// Creates a new [MaxCapitalLossConstraint] from the probability
    /// weighted capital loss, a non-positive ratio no smaller than -1.
    pub fn new(probability_times_capital_lost: i64) -> (r: MaxCapitalLossConstraint)
        requires
            probability_times_capital_lost <= 0,
            probability_times_capital_lost >= -SCALE,
        ensures
            r.probability_times_fraction_of_capital_lost == probability_times_capital_lost,
    {
        MaxCapitalLossConstraint {
            probability_times_fraction_of_capital_lost: probability_times_capital_lost,
        }
    }

    /// The gradient: for each company, the negated worst probability
    /// weighted return over its scenarios.
    pub(crate) fn gradient_impl(&self, companies: &Vec<PortfolioCompany>) -> (r: Vec<i64>)
        requires
            self.valid_for(companies@),
        ensures
            r@ == self.gradient_spec(companies@),
    {
        let n = companies.len();
        let mut v: Vec<i64> = Vec::new();
        let mut i: usize = 0;
        while i < n
            invariant
                0 <= i <= n,
                n == companies@.len(),
                forall|k: int|
                    0 <= k < n as int ==> (#[trigger] companies@[k]).company.scenarios@.len() > 0,
                v@.len() == i,
                forall|k: int| 0 <= k < i as int ==> v@[k] == self.gradient_spec(companies@)[k],
            decreases n - i,
        {
            let c = &companies[i].company;
            let n_s = c.scenarios.len();
            let mut worst: i64 = c.scenarios[0].probability_weighted_return(c.market_cap);
            let mut m: usize = 1;
            while m < n_s
                invariant
                    1 <= m <= n_s,
                    n_s == c.scenarios@.len(),
                    c == companies@[i as int].company,
                    i < n == companies@.len(),
                    worst as int == worst_weighted_return_to(
                        companies@[i as int].company,
                        m as int,
                    ),
                decreases n_s - m,
            {
                let cur = c.scenarios[m].probability_weighted_return(c.market_cap);
                if cur < worst {
                    worst = cur;
                }
                m = m + 1;
            }
            v.push(neg_fx(worst));
            i = i + 1;
        }
        proof {
            assert(v@ =~= self.gradient_spec(companies@));
        }
        v
    }

    /// The function value: the gradient dotted with the fractions, plus the
    /// accepted loss, plus the slack.
    pub(crate) fn function_value_impl(
        &self,
        companies: &Vec<PortfolioCompany>,
        fractions: &Vec<i64>,
        slack: i64,
    ) -> (r: i64)
        requires
            self.valid_for(companies@),
            fractions@.len() == companies@.len(),
        ensures
            r as int == self.function_value_spec(companies@, fractions@, slack),
    {
        let g = self.gradient_impl(companies);
        let s = dot_fractions(&g, fractions);
        add_fx(add_fx(s, self.probability_times_fraction_of_capital_lost), slack)
    }
}

impl Constraint for MaxCapitalLossConstraint {
    open spec fn valid_for(&self, cs: Seq<PortfolioCompany>) -> bool {
        forall|k: int| 0 <= k < cs.len() ==> (#[trigger] cs[k]).company.scenarios@.len() > 0
    }

    open spec fn gradient_spec(&self, cs: Seq<PortfolioCompany>) -> Seq<i64> {
        Seq::new(cs.len(), |i: int| neg_fx_spec(worst_weighted_return(cs[i].company)) as i64)
    }

    open spec fn function_value_spec(&self, cs: Seq<PortfolioCompany>, fr: Seq<i64>, slack: i64) -> int {
        add_fx_spec(
            add_fx_spec(
                dot_to(self.gradient_spec(cs), fr, cs.len() as int),
                self.probability_times_fraction_of_capital_lost as int,
            ),
            slack as int,
        )
    }

    fn d_constraint_d_fractions(&self, portfolio: &Portfolio) -> (r: Vec<i64>) {
        self.gradient_impl(&portfolio.companies)
    }

    fn function_value(&self, portfolio: &Portfolio, slack_variable: i64) -> (r: i64) {
        let fr = fractions_vec(portfolio);
        self.function_value_impl(&portfolio.companies, &fr, slack_variable)
    }
}

impl InequalityConstraint for MaxCapitalLossConstraint {

}

} // verus!
