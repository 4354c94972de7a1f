//! A no-shorting constraint on one fraction, identical in effect to the
//! long-only constraint.

use vstd::prelude::*;

use crate::constraints::constraint::{fractions_vec, Constraint, InequalityConstraint};
use crate::fixed::{add_fx, add_fx_spec, neg_fx, neg_fx_spec, NEG_SCALE};
use crate::model::portfolio::{Portfolio, PortfolioCompany};

verus! {

/// [NoShortingConstraint] disallows shorting: it limits one fraction such
/// that it is always non-negative.
#[derive(Clone, Copy, Debug)]
pub struct NoShortingConstraint {
    /// Index of the fraction it constrains.
    pub fraction_index: usize,
}

impl Constraint for NoShortingConstraint {
    open spec fn valid_for(&self, cs: Seq<PortfolioCompany>) -> bool {
        self.fraction_index < cs.len()
    }

    open spec fn gradient_spec(&self, cs: Seq<PortfolioCompany>) -> Seq<i64> {
        Seq::new(
            cs.len(),
            |i: int|
                if i == self.fraction_index as int {
                    NEG_SCALE
                } else {
                    0i64
                },
        )
    }

    open spec fn function_value_spec(&self, cs: Seq<PortfolioCompany>, fr: Seq<i64>, slack: i64) -> int {
        add_fx_spec(neg_fx_spec(fr[self.fraction_index as int] as int), slack as int)
    }

    fn d_constraint_d_fractions(&self, portfolio: &Portfolio) -> (r: Vec<i64>) {
        let n = portfolio.companies.len();
        let mut v: Vec<i64> = Vec::new();
        let mut i: usize = 0;
        while i < n
            invariant
                0 <= i <= n,
                n == portfolio.companies@.len(),
                self.fraction_index < n,
                v@.len() == i,
                forall|k: int|
                    0 <= k < i as int ==> v@[k] == self.gradient_spec(portfolio.companies@)[k],
            decreases n - i,
        {
            if i == self.fraction_index {
                v.push(NEG_SCALE);
            } else {
                v.push(0);
            }
            i = i + 1;
        }
        proof {
            assert(v@ =~= self.gradient_spec(portfolio.companies@));
        }
        v
    }

    fn function_value(&self, portfolio: &Portfolio, slack_variable: i64) -> (r: i64) {
        let fr = fractions_vec(portfolio);
        add_fx(neg_fx(fr[self.fraction_index]), slack_variable)
    }
}

impl InequalityConstraint for NoShortingConstraint {

}

} // verus!
