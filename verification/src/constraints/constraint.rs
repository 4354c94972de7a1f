//! The constraint capability interface and the tagged union of the
//! concrete inequality constraints that the solver stores.

use vstd::prelude::*;

use crate::fixed::{add_fx_spec, mul_fx_spec};
use crate::model::portfolio::{Portfolio, PortfolioCompany};

use crate::constraints::long_only_constraint::LongOnlyConstraint;
use crate::constraints::maximum_capital_loss_constraint::MaxCapitalLossConstraint;
use crate::constraints::maximum_individual_allocation_constraint::MaximumIndividualAllocationConstraint;
use crate::constraints::maximum_total_leverage_constraint::MaximumTotalLeverageConstraint;

verus! {

/// The fractions held by a portfolio, in portfolio order.
pub open spec fn fractions_of(cs: Seq<PortfolioCompany>) -> Seq<i64> {
    Seq::new(cs.len(), |i: int| cs[i].fraction)
}

/// The saturating fixed-point dot product of a gradient with the fractions,
/// over the first `m` slots, accumulated left to right.
pub open spec fn dot_to(g: Seq<i64>, fr: Seq<i64>, m: int) -> int
    decreases m,
{
    if m <= 0 {
        0
    } else {
        add_fx_spec(dot_to(g, fr, m - 1), mul_fx_spec(g[m - 1] as int, fr[m - 1] as int))
    }
}

/// [Constraint] provides the interface for calculating matrix contributions
/// when solving the constrained allocation problem: the partial derivative
/// of the constraint function w.r.t. the fractions, and the constraint
/// function value augmented by a slack variable.
pub trait Constraint {
    /// The companies for which the constraint is well formed (index in
    /// range; scenario lists nonempty where the constraint reads them).
    spec fn valid_for(&self, cs: Seq<PortfolioCompany>) -> bool;

    /// The gradient as a mathematical sequence, one entry per company.
    spec fn gradient_spec(&self, cs: Seq<PortfolioCompany>) -> Seq<i64>;

    /// The function value as a mathematical integer.
    spec fn function_value_spec(&self, cs: Seq<PortfolioCompany>, fr: Seq<i64>, slack: i64) -> int;

    /// Partial derivative of the constraint with respect to the fractions.
    /// Ends up in the matrix.
    fn d_constraint_d_fractions(&self, portfolio: &Portfolio) -> (r: Vec<i64>)
        requires
            self.valid_for(portfolio.companies@),
        ensures
            r@ == self.gradient_spec(portfolio.companies@),
    ;

    /// Constraint function value.  Ends up in the right-hand side of the
    /// system.
    fn function_value(&self, portfolio: &Portfolio, slack_variable: i64) -> (r: i64)
        requires
            self.valid_for(portfolio.companies@),
        ensures
            r as int == self.function_value_spec(
                portfolio.companies@,
                fractions_of(portfolio.companies@),
                slack_variable,
            ),
    ;
}

/// [InequalityConstraint] extends [Constraint] and is used for marking:
/// each inequality constraint doubles the number of systems to solve,
/// while an equality constraint would only add an equation.
pub trait InequalityConstraint: Constraint {

}

/// The tagged union of the concrete inequality constraints.  The solver
/// holds an ordered list of these; the position in the list is the
/// constraint's bit position in the active-set mask.
#[derive(Clone, Debug)]
pub enum InequalityConstraintKind {
    LongOnly(LongOnlyConstraint),
    MaximumIndividualAllocation(MaximumIndividualAllocationConstraint),
    MaximumTotalLeverage(MaximumTotalLeverageConstraint),
    MaxCapitalLoss(MaxCapitalLossConstraint),
}

impl InequalityConstraintKind {
    /// The companies for which the constraint is well formed.
    pub open spec fn kind_valid_for(&self, cs: Seq<PortfolioCompany>) -> bool {
        match self {
            InequalityConstraintKind::LongOnly(c) => c.valid_for(cs),
            InequalityConstraintKind::MaximumIndividualAllocation(c) => c.valid_for(cs),
            InequalityConstraintKind::MaximumTotalLeverage(c) => c.valid_for(cs),
            InequalityConstraintKind::MaxCapitalLoss(c) => c.valid_for(cs),
        }
    }

    /// The gradient of the wrapped constraint.
    pub open spec fn kind_gradient_spec(&self, cs: Seq<PortfolioCompany>) -> Seq<i64> {
        match self {
            InequalityConstraintKind::LongOnly(c) => c.gradient_spec(cs),
            InequalityConstraintKind::MaximumIndividualAllocation(c) => c.gradient_spec(cs),
            InequalityConstraintKind::MaximumTotalLeverage(c) => c.gradient_spec(cs),
            InequalityConstraintKind::MaxCapitalLoss(c) => c.gradient_spec(cs),
        }
    }

    /// The function value of the wrapped constraint.
    pub open spec fn kind_function_value_spec(
        &self,
        cs: Seq<PortfolioCompany>,
        fr: Seq<i64>,
        slack: i64,
    ) -> int {
        match self {
            InequalityConstraintKind::LongOnly(c) => c.function_value_spec(cs, fr, slack),
            InequalityConstraintKind::MaximumIndividualAllocation(c) => c.function_value_spec(
                cs,
                fr,
                slack,
            ),
            InequalityConstraintKind::MaximumTotalLeverage(c) => c.function_value_spec(
                cs,
                fr,
                slack,
            ),
            InequalityConstraintKind::MaxCapitalLoss(c) => c.function_value_spec(cs, fr, slack),
        }
    }

    /// The gradient, computed against the given companies.
    pub fn gradient(&self, companies: &Vec<PortfolioCompany>) -> (r: Vec<i64>)
        requires
            self.kind_valid_for(companies@),
        ensures
            r@ == self.kind_gradient_spec(companies@),
            r@.len() == companies@.len(),
    {
        match self {
            InequalityConstraintKind::LongOnly(c) => c.gradient_impl(companies),
            InequalityConstraintKind::MaximumIndividualAllocation(c) => c.gradient_impl(companies),
            InequalityConstraintKind::MaximumTotalLeverage(c) => c.gradient_impl(companies),
            InequalityConstraintKind::MaxCapitalLoss(c) => c.gradient_impl(companies),
        }
    }

    /// The function value, computed against the given companies and an
    /// explicit fraction vector (the solver's current iterate).
    pub fn function_value_with(
        &self,
        companies: &Vec<PortfolioCompany>,
        fractions: &Vec<i64>,
        slack: i64,
    ) -> (r: i64)
        requires
            self.kind_valid_for(companies@),
            fractions@.len() == companies@.len(),
        ensures
            r as int == self.kind_function_value_spec(companies@, fractions@, slack),
    {
        match self {
            InequalityConstraintKind::LongOnly(c) => c.function_value_impl(
                companies,
                fractions,
                slack,
            ),
            InequalityConstraintKind::MaximumIndividualAllocation(c) => c.function_value_impl(
                companies,
                fractions,
                slack,
            ),
            InequalityConstraintKind::MaximumTotalLeverage(c) => c.function_value_impl(
                companies,
                fractions,
                slack,
            ),
            InequalityConstraintKind::MaxCapitalLoss(c) => c.function_value_impl(
                companies,
                fractions,
                slack,
            ),
        }
    }
}

/// The saturating fixed-point dot product of a gradient with a fraction
/// vector.
pub fn dot_fractions(g: &Vec<i64>, fractions: &Vec<i64>) -> (r: i64)
    requires
        g@.len() == fractions@.len(),
    ensures
        r as int == dot_to(g@, fractions@, g@.len() as int),
{
    let mut acc: i64 = 0;
    let mut i: usize = 0;
    while i < g.len()
        invariant
            0 <= i <= g@.len(),
            g@.len() == fractions@.len(),
            acc as int == dot_to(g@, fractions@, i as int),
        decreases g@.len() - i,
    {
        acc = crate::fixed::add_fx(acc, crate::fixed::mul_fx(g[i], fractions[i]));
        i = i + 1;
    }
    acc
}

/// Copies the fractions out of a portfolio.
pub fn fractions_vec(portfolio: &Portfolio) -> (r: Vec<i64>)
    ensures
        r@ == fractions_of(portfolio.companies@),
{
    let mut v: Vec<i64> = Vec::new();
    let mut i: usize = 0;
    while i < portfolio.companies.len()
        invariant
            0 <= i <= portfolio.companies@.len(),
            v@.len() == i,
            forall|k: int| 0 <= k < i as int ==> v@[k] == fractions_of(portfolio.companies@)[k],
        decreases portfolio.companies@.len() - i,
    {
        v.push(portfolio.companies[i].fraction);
        i = i + 1;
    }
    proof {
        assert(v@ =~= fractions_of(portfolio.companies@));
    }
    v
}

} // verus!
