//! An upper bound on the fraction of assets put into a single company.

use vstd::prelude::*;

use crate::constraints::constraint::{fractions_vec, Constraint, InequalityConstraint};
use crate::fixed::{add_fx, add_fx_spec, sub_fx, SCALE};
use crate::model::portfolio::{Portfolio, PortfolioCompany};

verus! {

/// [MaximumIndividualAllocationConstraint] puts an upper bound on the
/// amount of assets to put into a single company.
#[derive(Clone, Copy, Debug)]
pub struct MaximumIndividualAllocationConstraint {
    /// Index of the company (i.e. the fraction) it constrains.
    pub fraction_index: usize,
    /// Maximum allocation fraction for this company, a ratio.
    pub max_allocation_fraction: i64,
}

impl MaximumIndividualAllocationConstraint {
    /// Creates a new [MaximumIndividualAllocationConstraint]; the bound
    /// must be non-negative and the index must refer to a company.
    pub fn new(fraction_index: usize, max_allocation_fraction: i64, n_companies: usize) -> (r:
        MaximumIndividualAllocationConstraint)
        requires
            max_allocation_fraction >= 0,
            n_companies >= 1,
            fraction_index < n_companies,
        ensures
            r.fraction_index == fraction_index,
            r.max_allocation_fraction == max_allocation_fraction,
    {
        MaximumIndividualAllocationConstraint { fraction_index, max_allocation_fraction }
    }

    /// The gradient: the unit vector in the constrained slot.
    pub(crate) fn gradient_impl(&self, companies: &Vec<PortfolioCompany>) -> (r: Vec<i64>)
        requires
            self.valid_for(companies@),
        ensures
            r@ == self.gradient_spec(companies@),
    {
        let n = companies.len();
        let mut v: Vec<i64> = Vec::new();
        let mut i: usize = 0;
        while i < n
            invariant
                0 <= i <= n,
                n == companies@.len(),
                self.fraction_index < n,
                v@.len() == i,
                forall|k: int| 0 <= k < i as int ==> v@[k] == self.gradient_spec(companies@)[k],
            decreases n - i,
        {
            if i == self.fraction_index {
                v.push(SCALE);
            } else {
                v.push(0);
            }
            i = i + 1;
        }
        proof {
            assert(v@ =~= self.gradient_spec(companies@));
        }
        v
    }

    /// The function value: the fraction plus the slack, minus the bound.
    pub(crate) fn function_value_impl(
        &self,
        companies: &Vec<PortfolioCompany>,
        fractions: &Vec<i64>,
        slack: i64,
    ) -> (r: i64)
        requires
            self.valid_for(companies@),
            fractions@.len() == companies@.len(),
        ensures
            r as int == self.function_value_spec(companies@, fractions@, slack),
    {
        sub_fx(add_fx(fractions[self.fraction_index], slack), self.max_allocation_fraction)
    }
}

impl Constraint for MaximumIndividualAllocationConstraint {
    open spec fn valid_for(&self, cs: Seq<PortfolioCompany>) -> bool {
        self.fraction_index < cs.len()
    }

    open spec fn gradient_spec(&self, cs: Seq<PortfolioCompany>) -> Seq<i64> {
        Seq::new(
            cs.len(),
            |i: int|
                if i == self.fraction_index as int {
                    SCALE
                } else {
                    0i64
                },
        )
    }

    open spec fn function_value_spec(&self, cs: Seq<PortfolioCompany>, fr: Seq<i64>, slack: i64) -> int {
        add_fx_spec(
            add_fx_spec(fr[self.fraction_index as int] as int, slack as int),
            -(self.max_allocation_fraction as int),
        )
    }

    fn d_constraint_d_fractions(&self, portfolio: &Portfolio) -> (r: Vec<i64>) {
        self.gradient_impl(&portfolio.companies)
    }

    fn function_value(&self, portfolio: &Portfolio, slack_variable: i64) -> (r: i64) {
        let fr = fractions_vec(portfolio);
        self.function_value_impl(&portfolio.companies, &fr, slack_variable)
    }
}

impl InequalityConstraint for MaximumIndividualAllocationConstraint {

}

} // verus!
