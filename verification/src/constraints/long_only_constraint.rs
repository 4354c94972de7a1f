//! The long-only constraint: disallows shorting one company by keeping its
//! fraction non-negative.

use vstd::prelude::*;

use crate::constraints::constraint::{fractions_vec, Constraint, InequalityConstraint};
use crate::fixed::{add_fx, add_fx_spec, neg_fx, neg_fx_spec, NEG_SCALE};
use crate::model::portfolio::{Portfolio, PortfolioCompany};

verus! {

/// [LongOnlyConstraint] essentially disallows shorting: it limits one
/// fraction such that it is always non-negative.
#[derive(Clone, Copy, Debug)]
pub struct LongOnlyConstraint {
    /// Index of the company (i.e. the fraction) it constrains.
    pub fraction_index: usize,
}

impl LongOnlyConstraint {
    /// Creates a new [LongOnlyConstraint]; the company index must refer to
    /// one of the companies.
    pub fn new(fraction_index: usize, n_companies: usize) -> (r: LongOnlyConstraint)
        requires
            n_companies >= 1,
            fraction_index < n_companies,
        ensures
            r.fraction_index == fraction_index,
    {
        LongOnlyConstraint { fraction_index }
    }

    /// The gradient: the unit vector negated in the constrained slot.
    pub(crate) fn gradient_impl(&self, companies: &Vec<PortfolioCompany>) -> (r: Vec<i64>)
        requires
            self.valid_for(companies@),
        ensures
            r@ == self.gradient_spec(companies@),
    {
        let n = companies.len();
        let mut v: Vec<i64> = Vec::new();
        let mut i: usize = 0;
        while i < n
            invariant
                0 <= i <= n,
                n == companies@.len(),
                self.fraction_index < n,
                v@.len() == i,
                forall|k: int| 0 <= k < i as int ==> v@[k] == self.gradient_spec(companies@)[k],
            decreases n - i,
        {
            if i == self.fraction_index {
                v.push(NEG_SCALE);
            } else {
                v.push(0);
            }
            i = i + 1;
        }
        proof {
            assert(v@ =~= self.gradient_spec(companies@));
        }
        v
    }

    /// The function value: the negated fraction plus the slack.
    pub(crate) fn function_value_impl(
        &self,
        companies: &Vec<PortfolioCompany>,
        fractions: &Vec<i64>,
        slack: i64,
    ) -> (r: i64)
        requires
            self.valid_for(companies@),
            fractions@.len() == companies@.len(),
        ensures
            r as int == self.function_value_spec(companies@, fractions@, slack),
    {
        add_fx(neg_fx(fractions[self.fraction_index]), slack)
    }
}

impl Constraint for LongOnlyConstraint {
    open spec fn valid_for(&self, cs: Seq<PortfolioCompany>) -> bool {
        self.fraction_index < cs.len()
    }

    open spec fn gradient_spec(&self, cs: Seq<PortfolioCompany>) -> Seq<i64> {
        Seq::new(
            cs.len(),
            |i: int|
                if i == self.fraction_index as int {
                    NEG_SCALE
                } else {
                    0i64
                },
        )
    }

    open spec fn function_value_spec(&self, cs: Seq<PortfolioCompany>, fr: Seq<i64>, slack: i64) -> int {
        add_fx_spec(neg_fx_spec(fr[self.fraction_index as int] as int), slack as int)
    }

    fn d_constraint_d_fractions(&self, portfolio: &Portfolio) -> (r: Vec<i64>) {
        self.gradient_impl(&portfolio.companies)
    }

    fn function_value(&self, portfolio: &Portfolio, slack_variable: i64) -> (r: i64) {
        let fr = fractions_vec(portfolio);
        self.function_value_impl(&portfolio.companies, &fr, slack_variable)
    }
}

impl InequalityConstraint for LongOnlyConstraint {

}

} // verus!
