//! An upper bound on the total leverage of the portfolio.

use vstd::prelude::*;

use crate::constraints::constraint::{
    dot_fractions, dot_to, fractions_vec, Constraint, InequalityConstraint,
};
use crate::fixed::{add_fx, add_fx_spec, sub_fx, SCALE};
use crate::model::portfolio::{Portfolio, PortfolioCompany};

verus! {

/// [MaximumTotalLeverageConstraint] puts an upper bound on the amount of
/// leverage: the fractions may sum to at most one plus the ratio.
#[derive(Clone, Copy, Debug)]
pub struct MaximumTotalLeverageConstraint {
    /// Maximum leverage ratio: 0 means no leverage, 1 means 100% leverage.
    pub max_leverage_ratio: i64,
}

impl MaximumTotalLeverageConstraint {
    /// Creates a new [MaximumTotalLeverageConstraint]; the ratio must be
    /// non-negative.
    pub fn new(max_leverage_ratio: i64) -> (r: MaximumTotalLeverageConstraint)
        requires
            max_leverage_ratio >= 0,
        ensures
            r.max_leverage_ratio == max_leverage_ratio,
    {
        MaximumTotalLeverageConstraint { max_leverage_ratio }
    }

    /// The gradient: the all-ones vector.
    pub(crate) fn gradient_impl(&self, companies: &Vec<PortfolioCompany>) -> (r: Vec<i64>)
        ensures
            r@ == self.gradient_spec(companies@),
    {
        let n = companies.len();
        let mut v: Vec<i64> = Vec::new();
        let mut i: usize = 0;
        while i < n
            invariant
                0 <= i <= n,
                n == companies@.len(),
                v@.len() == i,
                forall|k: int| 0 <= k < i as int ==> v@[k] == SCALE,
            decreases n - i,
        {
            v.push(SCALE);
            i = i + 1;
        }
        proof {
            assert(v@ =~= self.gradient_spec(companies@));
        }
        v
    }

    /// The function value: the weighted fraction sum plus the slack, minus
    /// the ratio, minus one.
    pub(crate) fn function_value_impl(
        &self,
        companies: &Vec<PortfolioCompany>,
        fractions: &Vec<i64>,
        slack: i64,
    ) -> (r: i64)
        requires
            fractions@.len() == companies@.len(),
        ensures
            r as int == self.function_value_spec(companies@, fractions@, slack),
    {
        let g = self.gradient_impl(companies);
        let s = dot_fractions(&g, fractions);
        sub_fx(sub_fx(add_fx(s, slack), self.max_leverage_ratio), SCALE)
    }
}

impl Constraint for MaximumTotalLeverageConstraint {
    open spec fn valid_for(&self, cs: Seq<PortfolioCompany>) -> bool {
        true
    }

    open spec fn gradient_spec(&self, cs: Seq<PortfolioCompany>) -> Seq<i64> {
        Seq::new(cs.len(), |i: int| SCALE)
    }

    open spec fn function_value_spec(&self, cs: Seq<PortfolioCompany>, fr: Seq<i64>, slack: i64) -> int {
        add_fx_spec(
            add_fx_spec(
                add_fx_spec(dot_to(self.gradient_spec(cs), fr, cs.len() as int), slack as int),
                -(self.max_leverage_ratio as int),
            ),
            -(SCALE as int),
        )
    }

    fn d_constraint_d_fractions(&self, portfolio: &Portfolio) -> (r: Vec<i64>) {
        self.gradient_impl(&portfolio.companies)
    }

    fn function_value(&self, portfolio: &Portfolio, slack_variable: i64) -> (r: i64) {
        let fr = fractions_vec(portfolio);
        self.function_value_impl(&portfolio.companies, &fr, slack_variable)
    }
}

impl InequalityConstraint for MaximumTotalLeverageConstraint {

}

} // verus!
