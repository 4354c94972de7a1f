//! The constrained Kelly allocator: an exhaustive active-set method with a
//! damped Newton–Raphson iteration per active/inactive mask.

use vstd::prelude::*;
use vstd::string::StringExecFns;

use crate::analysis::{
    all_outcomes, count_of, lemma_product_counts_eq, outcome_count, outcome_matches,
    outcome_probability_to, return_at, Outcome, MAX_OUTCOMES,
};
use crate::constraints::constraint::{fractions_of, fractions_vec, InequalityConstraintKind};
use crate::constraints::long_only_constraint::LongOnlyConstraint;
use crate::constraints::maximum_capital_loss_constraint::MaxCapitalLossConstraint;
use crate::constraints::maximum_individual_allocation_constraint::MaximumIndividualAllocationConstraint;
use crate::constraints::maximum_total_leverage_constraint::MaximumTotalLeverageConstraint;
use crate::fixed::{
    abs_fx, abs_fx_i64, add_fx, add_fx_i64, add_fx_spec, div_fx, div_fx_i64, div_fx_spec, mul_fx,
    mul_fx_i64, mul_fx_spec, neg_fx, neg_fx_i64, neg_fx_spec, NEG_SCALE, SCALE,
};
use crate::linalg::{gauss_solution, solve_linear_system};
use vstd::arithmetic::div_mod::lemma_div_denominator;
use crate::model::capital_loss::CapitalLoss;
use crate::model::company::{Company, TOLERANCE};
use crate::model::errors::Error;
use crate::model::portfolio::{Portfolio, PortfolioCompany};
use crate::model::scenario::probability_weighted_return_spec;
use crate::text::uint_string;

verus! {

/// Tolerance for converging the solution during the Newton–Raphson
/// iteration, in the maximum norm of the update.
pub const SOLVER_TOLERANCE: i64 = 100_000;

/// Relaxation factor applied to the update in every iteration of the
/// nonlinear loop (0.7 as a ratio).
pub const RELAXATION_FACTOR: i64 = 7_000_000_000;

/// Maximum number of iterations for the nonlinear solver.
pub const MAX_ITER: u32 = 100;

/// The largest number of inequality constraints the solver accepts; each
/// constraint doubles the number of systems to solve.
pub const MAX_CONSTRAINTS: usize = 22;

/// The largest candidate count the allocator accepts; it keeps the flat
/// `(N + M) x (N + M)` system well within index range.
pub const MAX_CANDIDATES: usize = 40000;

/// Two to the given power.
pub open spec fn pow2(e: int) -> int
    decreases e,
{
    if e <= 0 {
        1
    } else {
        2 * pow2(e - 1)
    }
}

/// The data of one outcome that the solver reads: its probability and its
/// per-company returns.  Spec-level models are stated over this shape, so
/// they can also be written down where no outcome values exist.
pub open spec fn outcome_views(os: Seq<Outcome>) -> Seq<(i64, Seq<i64>)> {
    Seq::new(os.len(), |t: int| (os[t].probability, os[t].company_returns@))
}

/// The denominator of the Kelly residual for one outcome: one plus the
/// fraction-weighted sum of the per-company returns, accumulated over the
/// first `j` companies.
pub open spec fn denominator_to(o: (i64, Seq<i64>), fr: Seq<i64>, j: int) -> int
    decreases j,
{
    if j <= 0 {
        SCALE as int
    } else {
        add_fx_spec(
            denominator_to(o, fr, j - 1),
            mul_fx_spec(fr[j - 1] as int, o.1[j - 1] as int),
        )
    }
}

/// The full denominator of the Kelly residual for one outcome.
pub open spec fn denominator_of_spec(o: (i64, Seq<i64>), fr: Seq<i64>) -> int {
    denominator_to(o, fr, fr.len() as int)
}

/// One outcome's contribution to the Kelly residual of company `k`.
pub open spec fn criterion_term(o: (i64, Seq<i64>), fr: Seq<i64>, k: int) -> int {
    div_fx_spec(mul_fx_spec(o.0 as int, o.1[k] as int), denominator_of_spec(o, fr))
}

/// The Kelly residual of company `k`, accumulated over the first `m`
/// outcomes.
pub open spec fn criterion_sum(os: Seq<(i64, Seq<i64>)>, fr: Seq<i64>, k: int, m: int) -> int
    decreases m,
{
    if m <= 0 {
        0
    } else {
        add_fx_spec(criterion_sum(os, fr, k, m - 1), criterion_term(os[m - 1], fr, k))
    }
}

/// The Kelly residual of company `k` over all outcomes.
pub open spec fn criterion_at(os: Seq<(i64, Seq<i64>)>, fr: Seq<i64>, k: int) -> int {
    criterion_sum(os, fr, k, os.len() as int)
}

/// One outcome's contribution to the Jacobian entry `(k, l)`.
pub open spec fn jacobian_term(o: (i64, Seq<i64>), fr: Seq<i64>, k: int, l: int) -> int {
    div_fx_spec(
        mul_fx_spec(mul_fx_spec(o.0 as int, o.1[k] as int), o.1[l] as int),
        mul_fx_spec(denominator_of_spec(o, fr), denominator_of_spec(o, fr)),
    )
}

/// The (un-negated) Jacobian entry `(k, l)`, accumulated over the first
/// `m` outcomes.
pub open spec fn jacobian_sum(
    os: Seq<(i64, Seq<i64>)>,
    fr: Seq<i64>,
    k: int,
    l: int,
    m: int,
) -> int
    decreases m,
{
    if m <= 0 {
        0
    } else {
        add_fx_spec(jacobian_sum(os, fr, k, l, m - 1), jacobian_term(os[m - 1], fr, k, l))
    }
}

/// The Jacobian entry `(k, l)` of the Kelly residual.  The entry is
/// defined on the ordered index pair, which makes the symmetry of the
/// Jacobian a theorem rather than an accident of evaluation order.
pub open spec fn jacobian_entry(os: Seq<(i64, Seq<i64>)>, fr: Seq<i64>, k: int, l: int) -> int {
    if k <= l {
        neg_fx_spec(jacobian_sum(os, fr, k, l, os.len() as int))
    } else {
        neg_fx_spec(jacobian_sum(os, fr, l, k, os.len() as int))
    }
}

/// The Jacobian of the Kelly residual is symmetric: the entries `(k, l)`
/// and `(l, k)` are equal, exactly, for every pair of indices, every
/// outcome set and every fraction vector.
pub proof fn lemma_jacobian_symmetric(os: Seq<(i64, Seq<i64>)>, fr: Seq<i64>, k: int, l: int)
    ensures
        jacobian_entry(os, fr, k, l) == jacobian_entry(os, fr, l, k),
{
}

/// Every outcome carries one return per fraction slot.
pub open spec fn outcomes_match_width(os: Seq<Outcome>, width: int) -> bool {
    forall|t: int| 0 <= t < os.len() ==> (#[trigger] os[t]).company_returns@.len() == width
}

/// The denominator of the Kelly residual for one outcome, computed against
/// the given fraction vector.
fn denominator_of(o: &Outcome, fractions: &Vec<i64>) -> (r: i64)
    requires
        o.company_returns@.len() == fractions@.len(),
    ensures
        r as int == denominator_of_spec((o.probability, o.company_returns@), fractions@),
{
    let mut acc: i64 = SCALE;
    let mut j: usize = 0;
    while j < fractions.len()
        invariant
            0 <= j <= fractions@.len(),
            o.company_returns@.len() == fractions@.len(),
            acc as int == denominator_to(
                (o.probability, o.company_returns@),
                fractions@,
                j as int,
            ),
        decreases fractions@.len() - j,
    {
        acc = add_fx(acc, mul_fx(fractions[j], o.company_returns[j]));
        j = j + 1;
    }
    acc
}

/// The Kelly residual vector, computed against the given fraction vector.
#[verifier::loop_isolation(false)]
fn criterion_fractions(outcomes: &Vec<Outcome>, fractions: &Vec<i64>) -> (r: Vec<i64>)
    requires
        outcomes_match_width(outcomes@, fractions@.len() as int),
    ensures
        r@.len() == fractions@.len(),
        forall|k: int|
            0 <= k < r@.len() ==> (#[trigger] r@[k]) as int == criterion_at(
                outcome_views(outcomes@),
                fractions@,
                k,
            ),
{
    let n = fractions.len();
    let mut r: Vec<i64> = Vec::new();
    let mut k: usize = 0;
    while k < n
        invariant
            0 <= k <= n,
            r@.len() == k,
            forall|q: int|
                0 <= q < k as int ==> (#[trigger] r@[q]) as int == criterion_at(
                    outcome_views(outcomes@),
                    fractions@,
                    q,
                ),
        decreases n - k,
    {
        let mut acc: i64 = 0;
        let mut oi: usize = 0;
        while oi < outcomes.len()
            invariant
                0 <= oi <= outcomes@.len(),
                k < n,
                acc as int == criterion_sum(outcome_views(outcomes@), fractions@, k as int, oi as int),
            decreases outcomes@.len() - oi,
        {
            let o = &outcomes[oi];
            let d = denominator_of(o, fractions);
            acc = add_fx(acc, div_fx(mul_fx(o.probability, o.company_returns[k]), d));
            oi = oi + 1;
        }
        r.push(acc);
        k = k + 1;
    }
    r
}

/// The flat index `(k, l)` decomposes back into its row and column.
proof fn lemma_flat_decompose(k: int, l: int, n: int)
    requires
        0 <= k < n,
        0 <= l < n,
    ensures
        (k * n + l) / n == k,
        (k * n + l) % n == l,
        0 <= k * n + l < n * n,
{
    assert((k * n + l) / n == k && (k * n + l) % n == l && 0 <= k * n + l < n * n)
        by (nonlinear_arith)
        requires
            0 <= k < n,
            0 <= l < n,
    ;
}

/// The Jacobian of the Kelly residual as a flat row-major matrix.  Each
/// entry is computed on the ordered index pair, so the matrix is
/// symmetric by construction.
#[verifier::loop_isolation(false)]
fn jacobian_fractions(outcomes: &Vec<Outcome>, fractions: &Vec<i64>) -> (r: Vec<i64>)
    requires
        outcomes_match_width(outcomes@, fractions@.len() as int),
        fractions@.len() * fractions@.len() <= usize::MAX,
    ensures
        r@.len() == fractions@.len() * fractions@.len(),
        forall|k: int, l: int|
            0 <= k < fractions@.len() && 0 <= l < fractions@.len() ==> r@[k * fractions@.len()
                + l] as int == jacobian_entry(outcome_views(outcomes@), fractions@, k, l),
{
    let n = fractions.len();
    let mut r: Vec<i64> = Vec::new();
    let mut k: usize = 0;
    while k < n
        invariant
            0 <= k <= n,
            r@.len() == k * n,
            forall|idx: int|
                0 <= idx < r@.len() ==> (#[trigger] r@[idx]) as int == jacobian_entry(
                    outcome_views(outcomes@),
                    fractions@,
                    idx / n as int,
                    idx % n as int,
                ),
        decreases n - k,
    {
        let mut l: usize = 0;
        while l < n
            invariant
                0 <= l <= n,
                k < n,
                r@.len() == k * n + l,
                forall|idx: int|
                    0 <= idx < r@.len() ==> (#[trigger] r@[idx]) as int == jacobian_entry(
                        outcome_views(outcomes@),
                        fractions@,
                        idx / n as int,
                        idx % n as int,
                    ),
            decreases n - l,
        {
            let lo: usize = if k <= l {
                k
            } else {
                l
            };
            let hi: usize = if k <= l {
                l
            } else {
                k
            };
            let mut acc: i64 = 0;
            let mut oi: usize = 0;
            while oi < outcomes.len()
                invariant
                    0 <= oi <= outcomes@.len(),
                    lo < n,
                    hi < n,
                    acc as int == jacobian_sum(
                        outcome_views(outcomes@),
                        fractions@,
                        lo as int,
                        hi as int,
                        oi as int,
                    ),
                decreases outcomes@.len() - oi,
            {
                let o = &outcomes[oi];
                let d = denominator_of(o, fractions);
                let term = div_fx(
                    mul_fx(mul_fx(o.probability, o.company_returns[lo]), o.company_returns[hi]),
                    mul_fx(d, d),
                );
                acc = add_fx(acc, term);
                oi = oi + 1;
            }
            proof {
                lemma_flat_decompose(k as int, l as int, n as int);
            }
            r.push(neg_fx(acc));
            l = l + 1;
        }
        proof {
            assert((k as int + 1) * (n as int) == k as int * (n as int) + n as int)
                by (nonlinear_arith);
        }
        k = k + 1;
    }
    proof {
        assert forall|k2: int, l2: int|
            0 <= k2 < fractions@.len() && 0 <= l2 < fractions@.len() implies r@[k2
            * fractions@.len() + l2] as int == jacobian_entry(
            outcome_views(outcomes@),
            fractions@,
            k2,
            l2,
        ) by {
            lemma_flat_decompose(k2, l2, n as int);
        }
    }
    r
}

/// The expected return of the companies under an explicit fraction vector,
/// accumulated like `expected_return` on a portfolio.
pub open spec fn expected_with_inner(c: Company, f: i64, m: int) -> int
    decreases m,
{
    if m <= 0 {
        0
    } else {
        add_fx_spec(
            expected_with_inner(c, f, m - 1),
            mul_fx_spec(
                f as int,
                probability_weighted_return_spec(c.scenarios@[m - 1], c.market_cap as int),
            ),
        )
    }
}

/// The expected return over the first `n` companies under an explicit
/// fraction vector.
pub open spec fn expected_with_to(cs: Seq<PortfolioCompany>, fr: Seq<i64>, n: int) -> int
    decreases n,
{
    if n <= 0 {
        0
    } else {
        add_fx_spec(
            expected_with_to(cs, fr, n - 1),
            expected_with_inner(
                cs[n - 1].company,
                fr[n - 1],
                cs[n - 1].company.scenarios@.len() as int,
            ),
        )
    }
}

/// The expected return of the companies under an explicit fraction vector.
#[verifier::loop_isolation(false)]
fn expected_return_fractions(companies: &Vec<PortfolioCompany>, fractions: &Vec<i64>) -> (r: i64)
    requires
        fractions@.len() >= companies@.len(),
    ensures
        r as int == expected_with_to(companies@, fractions@, companies@.len() as int),
{
    let mut acc: i64 = 0;
    let mut i: usize = 0;
    while i < companies.len()
        invariant
            0 <= i <= companies@.len(),
            acc as int == expected_with_to(companies@, fractions@, i as int),
        decreases companies@.len() - i,
    {
        let c = &companies[i].company;
        let f = fractions[i];
        let mut inner: i64 = 0;
        let mut m: usize = 0;
        while m < c.scenarios.len()
            invariant
                0 <= m <= c.scenarios@.len(),
                c == companies@[i as int].company,
                f == fractions@[i as int],
                i < companies@.len(),
                inner as int == expected_with_inner(
                    companies@[i as int].company,
                    fractions@[i as int],
                    m as int,
                ),
            decreases c.scenarios@.len() - m,
        {
            inner = add_fx(inner, mul_fx(f, c.scenarios[m].probability_weighted_return(c.market_cap)));
            m = m + 1;
        }
        acc = add_fx(acc, inner);
        i = i + 1;
    }
    acc
}

/// Powers of two are positive.
proof fn lemma_pow2_pos(e: int)
    ensures
        pow2(e) >= 1,
    decreases (if e <= 0 { 0int } else { e }),
{
    if e > 0 {
        lemma_pow2_pos(e - 1);
    }
}

/// Powers of two grow with the exponent.
proof fn lemma_pow2_monotone(a: int, b: int)
    requires
        0 <= a <= b,
    ensures
        pow2(a) <= pow2(b),
    decreases b - a,
{
    if a < b {
        lemma_pow2_monotone(a, b - 1);
        lemma_pow2_pos(b - 1);
    }
}

/// `pow2(e)` stays within the mask ceiling for `e` up to the constraint
/// ceiling.
proof fn lemma_pow2_bounded(e: int)
    requires
        0 <= e <= 22,
    ensures
        pow2(e) <= 0x400000,
{
    lemma_pow2_monotone(e, 22);
    reveal_with_fuel(pow2, 24);
    assert(pow2(22) == 0x400000);
}

/// With no inequality constraints the solver visits exactly one system;
/// with `m` of them it visits `pow2(m)` systems, one per active/inactive
/// mask, and refuses to run exactly when that count exceeds the `2^22`
/// ceiling — that is, when there are more than `MAX_CONSTRAINTS`
/// constraints.
pub proof fn lemma_mask_count(m: int)
    requires
        0 <= m,
    ensures
        m == 0 ==> pow2(m) == 1,
        m <= MAX_CONSTRAINTS ==> pow2(m) <= 0x400000,
        m > MAX_CONSTRAINTS ==> pow2(m) > 0x400000,
{
    if m <= 22 {
        lemma_pow2_bounded(m);
    } else {
        lemma_pow2_monotone(23, m);
        reveal_with_fuel(pow2, 25);
        assert(pow2(23) == 0x800000);
    }
}

/// The constraint is well formed for any portfolio built over these
/// candidate companies, whatever the fractions.
pub open spec fn constraint_applies(c: InequalityConstraintKind, candidates: Seq<Company>) -> bool {
    match c {
        InequalityConstraintKind::LongOnly(lo) => lo.fraction_index < candidates.len(),
        InequalityConstraintKind::MaximumIndividualAllocation(mi) => mi.fraction_index
            < candidates.len(),
        InequalityConstraintKind::MaximumTotalLeverage(_) => true,
        InequalityConstraintKind::MaxCapitalLoss(_) => forall|k: int|
            0 <= k < candidates.len() ==> (#[trigger] candidates[k]).scenarios@.len() > 0,
    }
}

/// The candidate companies as a portfolio with zero fractions; outcome
/// counting reads only the scenario lists, never the fractions.
pub open spec fn with_zero_fractions(candidates: Seq<Company>) -> Seq<PortfolioCompany> {
    Seq::new(candidates.len(), |i: int| PortfolioCompany { company: candidates[i], fraction: 0i64 })
}

/// Kelly allocator with an ordered list of inequality constraints; the
/// position of a constraint in the list is its bit in the active-set mask.
#[derive(Clone, Debug)]
pub struct KellyAllocator {
    pub max_iter: u32,
    pub inequality_constraints: Vec<InequalityConstraintKind>,
    pub has_long_only_constraint: bool,
    pub has_max_total_leverage_constraint: bool,
    pub has_max_individual_allocation_constraint: bool,
    pub has_max_permanent_loss_constraint: bool,
}

impl KellyAllocator {
    /// Creates a new [KellyAllocator] without constraints.
    pub fn new(max_iter: u32) -> (r: KellyAllocator)
        ensures
            r.max_iter == max_iter,
            r.inequality_constraints@.len() == 0,
            !r.has_long_only_constraint,
            !r.has_max_total_leverage_constraint,
            !r.has_max_individual_allocation_constraint,
            !r.has_max_permanent_loss_constraint,
    {
        KellyAllocator {
            max_iter,
            inequality_constraints: Vec::new(),
            has_long_only_constraint: false,
            has_max_total_leverage_constraint: false,
            has_max_individual_allocation_constraint: false,
            has_max_permanent_loss_constraint: false,
        }
    }

    /// Returns a new [KellyAllocator] with a long-only constraint (no
    /// shorting) for every candidate.  The constraints of the original
    /// object are kept in front of the new ones.
    pub fn with_long_only_constraints(self, n_candidates: usize) -> (r: KellyAllocator)
        requires
            !self.has_long_only_constraint,
            n_candidates >= 1,
        ensures
            r.max_iter == self.max_iter,
            r.inequality_constraints@.len() == self.inequality_constraints@.len() + n_candidates,
            forall|k: int|
                0 <= k < self.inequality_constraints@.len() ==> r.inequality_constraints@[k]
                    == self.inequality_constraints@[k],
            forall|k: int|
                0 <= k < n_candidates as int ==> (#[trigger] r.inequality_constraints@[self.inequality_constraints@.len() + k])
                    == InequalityConstraintKind::LongOnly(
                    LongOnlyConstraint { fraction_index: k as usize },
                ),
            r.has_long_only_constraint,
            r.has_max_total_leverage_constraint == self.has_max_total_leverage_constraint,
            r.has_max_individual_allocation_constraint
                == self.has_max_individual_allocation_constraint,
            r.has_max_permanent_loss_constraint == self.has_max_permanent_loss_constraint,
    {
        let mut constraints = self.inequality_constraints;
        let ghost base = constraints@;
        let mut i: usize = 0;
        while i < n_candidates
            invariant
                0 <= i <= n_candidates,
                n_candidates >= 1,
                constraints@.len() == base.len() + i,
                forall|k: int| 0 <= k < base.len() ==> constraints@[k] == base[k],
                forall|k: int|
                    0 <= k < i as int ==> (#[trigger] constraints@[base.len() + k])
                        == InequalityConstraintKind::LongOnly(
                        LongOnlyConstraint { fraction_index: k as usize },
                    ),
            decreases n_candidates - i,
        {
            constraints.push(
                InequalityConstraintKind::LongOnly(LongOnlyConstraint::new(i, n_candidates)),
            );
            i = i + 1;
        }
        KellyAllocator {
            max_iter: self.max_iter,
            inequality_constraints: constraints,
            has_long_only_constraint: true,
            has_max_total_leverage_constraint: self.has_max_total_leverage_constraint,
            has_max_individual_allocation_constraint: self.has_max_individual_allocation_constraint,
            has_max_permanent_loss_constraint: self.has_max_permanent_loss_constraint,
        }
    }

    /// Returns a new [KellyAllocator] with a maximum total leverage
    /// constraint.
    pub fn with_maximum_total_leverage_constraint(
        self,
        n_candidates: usize,
        max_total_leverage: i64,
    ) -> (r: KellyAllocator)
        requires
            !self.has_max_total_leverage_constraint,
            n_candidates >= 1,
            max_total_leverage >= 0,
        ensures
            r.max_iter == self.max_iter,
            r.inequality_constraints@.len() == self.inequality_constraints@.len() + 1,
            forall|k: int|
                0 <= k < self.inequality_constraints@.len() ==> r.inequality_constraints@[k]
                    == self.inequality_constraints@[k],
            r.inequality_constraints@[self.inequality_constraints@.len() as int]
                == InequalityConstraintKind::MaximumTotalLeverage(
                MaximumTotalLeverageConstraint { max_leverage_ratio: max_total_leverage },
            ),
            r.has_long_only_constraint == self.has_long_only_constraint,
            r.has_max_total_leverage_constraint,
            r.has_max_individual_allocation_constraint
                == self.has_max_individual_allocation_constraint,
            r.has_max_permanent_loss_constraint == self.has_max_permanent_loss_constraint,
    {
        let mut constraints = self.inequality_constraints;
        constraints.push(
            InequalityConstraintKind::MaximumTotalLeverage(
                MaximumTotalLeverageConstraint::new(max_total_leverage),
            ),
        );
        KellyAllocator {
            max_iter: self.max_iter,
            inequality_constraints: constraints,
            has_long_only_constraint: self.has_long_only_constraint,
            has_max_total_leverage_constraint: true,
            has_max_individual_allocation_constraint: self.has_max_individual_allocation_constraint,
            has_max_permanent_loss_constraint: self.has_max_permanent_loss_constraint,
        }
    }

    /// Returns a new [KellyAllocator] with a maximum individual allocation
    /// constraint for every candidate.
    pub fn with_maximum_individual_allocation_constraint(
        self,
        n_candidates: usize,
        max_allocation: i64,
    ) -> (r: KellyAllocator)
        requires
            !self.has_max_individual_allocation_constraint,
            n_candidates >= 1,
            max_allocation >= 0,
        ensures
            r.max_iter == self.max_iter,
            r.inequality_constraints@.len() == self.inequality_constraints@.len() + n_candidates,
            forall|k: int|
                0 <= k < self.inequality_constraints@.len() ==> r.inequality_constraints@[k]
                    == self.inequality_constraints@[k],
            forall|k: int|
                0 <= k < n_candidates as int ==> (#[trigger] r.inequality_constraints@[self.inequality_constraints@.len() + k])
                    == InequalityConstraintKind::MaximumIndividualAllocation(
                    MaximumIndividualAllocationConstraint {
                        fraction_index: k as usize,
                        max_allocation_fraction: max_allocation,
                    },
                ),
            r.has_long_only_constraint == self.has_long_only_constraint,
            r.has_max_total_leverage_constraint == self.has_max_total_leverage_constraint,
            r.has_max_individual_allocation_constraint,
            r.has_max_permanent_loss_constraint == self.has_max_permanent_loss_constraint,
    {
        let mut constraints = self.inequality_constraints;
        let ghost base = constraints@;
        let mut i: usize = 0;
        while i < n_candidates
            invariant
                0 <= i <= n_candidates,
                n_candidates >= 1,
                max_allocation >= 0,
                constraints@.len() == base.len() + i,
                forall|k: int| 0 <= k < base.len() ==> constraints@[k] == base[k],
                forall|k: int|
                    0 <= k < i as int ==> (#[trigger] constraints@[base.len() + k])
                        == InequalityConstraintKind::MaximumIndividualAllocation(
                        MaximumIndividualAllocationConstraint {
                            fraction_index: k as usize,
                            max_allocation_fraction: max_allocation,
                        },
                    ),
            decreases n_candidates - i,
        {
            constraints.push(
                InequalityConstraintKind::MaximumIndividualAllocation(
                    MaximumIndividualAllocationConstraint::new(i, max_allocation, n_candidates),
                ),
            );
            i = i + 1;
        }
        KellyAllocator {
            max_iter: self.max_iter,
            inequality_constraints: constraints,
            has_long_only_constraint: self.has_long_only_constraint,
            has_max_total_leverage_constraint: self.has_max_total_leverage_constraint,
            has_max_individual_allocation_constraint: true,
            has_max_permanent_loss_constraint: self.has_max_permanent_loss_constraint,
        }
    }

    /// Returns a new [KellyAllocator] with a constraint for the maximum
    /// permanent loss of capital.  The constraint parameter is the negated
    /// product of the accepted loss fraction and its probability.
    pub fn with_maximum_permanent_loss_constraint(
        self,
        max_permanent_loss_constraint: CapitalLoss,
    ) -> (r: KellyAllocator)
        requires
            !self.has_max_permanent_loss_constraint,
            0 <= max_permanent_loss_constraint.fraction_of_capital <= SCALE,
            0 <= max_permanent_loss_constraint.probability_of_loss <= SCALE,
        ensures
            r.max_iter == self.max_iter,
            r.inequality_constraints@.len() == self.inequality_constraints@.len() + 1,
            forall|k: int|
                0 <= k < self.inequality_constraints@.len() ==> r.inequality_constraints@[k]
                    == self.inequality_constraints@[k],
            r.inequality_constraints@[self.inequality_constraints@.len() as int]
                == InequalityConstraintKind::MaxCapitalLoss(
                MaxCapitalLossConstraint {
                    probability_times_fraction_of_capital_lost: (neg_fx_spec(
                        mul_fx_spec(
                            max_permanent_loss_constraint.fraction_of_capital as int,
                            max_permanent_loss_constraint.probability_of_loss as int,
                        ),
                    )) as i64,
                },
            ),
            r.has_long_only_constraint == self.has_long_only_constraint,
            r.has_max_total_leverage_constraint == self.has_max_total_leverage_constraint,
            r.has_max_individual_allocation_constraint
                == self.has_max_individual_allocation_constraint,
            r.has_max_permanent_loss_constraint,
    {
        proof {
            lemma_mul_fx_unit_range(
                max_permanent_loss_constraint.fraction_of_capital as int,
                max_permanent_loss_constraint.probability_of_loss as int,
            );
        }
        let product = mul_fx(
            max_permanent_loss_constraint.fraction_of_capital,
            max_permanent_loss_constraint.probability_of_loss,
        );
        let accepted_loss = neg_fx(product);
        let mut constraints = self.inequality_constraints;
        constraints.push(
            InequalityConstraintKind::MaxCapitalLoss(MaxCapitalLossConstraint::new(accepted_loss)),
        );
        KellyAllocator {
            max_iter: self.max_iter,
            inequality_constraints: constraints,
            has_long_only_constraint: self.has_long_only_constraint,
            has_max_total_leverage_constraint: self.has_max_total_leverage_constraint,
            has_max_individual_allocation_constraint: self.has_max_individual_allocation_constraint,
            has_max_permanent_loss_constraint: true,
        }
    }

    /// Calculates the Kelly residual given all outcomes and a portfolio.
    pub fn criterion(outcomes: &Vec<Outcome>, portfolio: &Portfolio) -> (r: Vec<i64>)
        requires
            outcomes_match_width(outcomes@, portfolio.companies@.len() as int),
        ensures
            r@.len() == portfolio.companies@.len(),
            forall|k: int|
                0 <= k < r@.len() ==> (#[trigger] r@[k]) as int == criterion_at(
                    outcome_views(outcomes@),
                    fractions_of(portfolio.companies@),
                    k,
                ),
    {
        let fr = fractions_vec(portfolio);
        criterion_fractions(outcomes, &fr)
    }

    /// Calculates the Jacobian of the Kelly residual given all outcomes
    /// and a portfolio, as a flat row-major matrix.
    pub fn criterion_jacobian(outcomes: &Vec<Outcome>, portfolio: &Portfolio) -> (r: Vec<i64>)
        requires
            outcomes_match_width(outcomes@, portfolio.companies@.len() as int),
            portfolio.companies@.len() <= MAX_CANDIDATES,
        ensures
            r@.len() == portfolio.companies@.len() * portfolio.companies@.len(),
            forall|k: int, l: int|
                0 <= k < portfolio.companies@.len() && 0 <= l < portfolio.companies@.len()
                    ==> r@[k * portfolio.companies@.len() + l] as int == jacobian_entry(
                    outcome_views(outcomes@),
                    fractions_of(portfolio.companies@),
                    k,
                    l,
                ),
    {
        proof {
            assert(portfolio.companies@.len() * portfolio.companies@.len() <= usize::MAX)
                by (nonlinear_arith)
                requires
                    portfolio.companies@.len() <= MAX_CANDIDATES as int,
                    usize::MAX >= 0xffff_ffff,
            ;
        }
        let fr = fractions_vec(portfolio);
        jacobian_fractions(outcomes, &fr)
    }
}

/// The largest magnitude among the first `m` entries of an update, the
/// maximum norm in which convergence is checked.
pub open spec fn max_abs_to(v: Seq<i64>, m: int) -> i64
    decreases m,
{
    if m <= 0 {
        0i64
    } else {
        let prev = max_abs_to(v, m - 1);
        let cur = abs_fx_i64(v[m - 1]);
        if cur > prev {
            cur
        } else {
            prev
        }
    }
}

/// One damped update of the iterate: `x + RELAXATION_FACTOR * delta`.
pub open spec fn damped_update(x: Seq<i64>, delta: Seq<i64>) -> Seq<i64> {
    Seq::new(x.len(), |i: int| add_fx_i64(x[i], mul_fx_i64(RELAXATION_FACTOR, delta[i])))
}

/// A head entry of the right-hand side: the negated Kelly residual of
/// company `r`, bumped, for each active constraint in list order, by that
/// constraint's multiplier times its gradient entry.
pub open spec fn rhs_head(
    companies: Seq<PortfolioCompany>,
    ics: Seq<InequalityConstraintKind>,
    odata: Seq<(i64, Seq<i64>)>,
    active: Seq<bool>,
    x: Seq<i64>,
    r: int,
    cid: int,
) -> i64
    decreases cid,
{
    let nc = companies.len() as int;
    if cid <= 0 {
        neg_fx_i64(criterion_at(odata, x.take(nc), r) as i64)
    } else {
        let prev = rhs_head(companies, ics, odata, active, x, r, cid - 1);
        if active[cid - 1] {
            add_fx_i64(
                prev,
                mul_fx_i64(x[nc + cid - 1], ics[cid - 1].kind_gradient_spec(companies)[r]),
            )
        } else {
            prev
        }
    }
}

/// The `(N + M) x (N + M)` system matrix for one mask and one iterate:
/// the Kelly Jacobian in the top-left block, the negated constraint
/// gradients in the lower rows, the same negated gradients in the upper
/// columns of the active constraints, and `-1` on the diagonal slot of
/// each inactive constraint.
pub open spec fn assembled_matrix(
    companies: Seq<PortfolioCompany>,
    ics: Seq<InequalityConstraintKind>,
    odata: Seq<(i64, Seq<i64>)>,
    active: Seq<bool>,
    x: Seq<i64>,
) -> Seq<i64> {
    let nc = companies.len() as int;
    let m = ics.len() as int;
    let n = nc + m;
    Seq::new(
        (n * n) as nat,
        |idx: int|
            {
                let r = idx / n;
                let c = idx % n;
                if r < nc && c < nc {
                    jacobian_entry(odata, x.take(nc), r, c) as i64
                } else if c < nc {
                    neg_fx_i64(ics[r - nc].kind_gradient_spec(companies)[c])
                } else if r < nc {
                    if active[c - nc] {
                        neg_fx_i64(ics[c - nc].kind_gradient_spec(companies)[r])
                    } else {
                        0i64
                    }
                } else if r == c && !active[r - nc] {
                    NEG_SCALE
                } else {
                    0i64
                }
            },
    )
}

/// The right-hand side for one mask and one iterate: the bumped negated
/// Kelly residual in the head, then one constraint function value per
/// constraint, evaluated at slack zero when active and at the iterate's
/// slack when inactive.
pub open spec fn assembled_rhs(
    companies: Seq<PortfolioCompany>,
    ics: Seq<InequalityConstraintKind>,
    odata: Seq<(i64, Seq<i64>)>,
    active: Seq<bool>,
    x: Seq<i64>,
) -> Seq<i64> {
    let nc = companies.len() as int;
    let m = ics.len() as int;
    let n = nc + m;
    Seq::new(
        n as nat,
        |r: int|
            {
                if r < nc {
                    rhs_head(companies, ics, odata, active, x, r, m)
                } else {
                    let cid = r - nc;
                    let slack = if active[cid] {
                        0i64
                    } else {
                        x[r]
                    };
                    add_fx_i64(
                        0i64,
                        ics[cid].kind_function_value_spec(companies, x.take(nc), slack) as i64,
                    )
                }
            },
    )
}

/// The three ways one mask's Newton iteration can end: it converges to an
/// iterate, a system proves singular, or the iteration cap runs out.
pub enum NewtonOutcome {
    Converged(Seq<i64>),
    Singular,
    IterationLimit,
}

/// The update that one Newton step computes for the given iterate, or
/// `None` when the assembled system is singular.
pub open spec fn newton_step(
    companies: Seq<PortfolioCompany>,
    ics: Seq<InequalityConstraintKind>,
    odata: Seq<(i64, Seq<i64>)>,
    active: Seq<bool>,
    x: Seq<i64>,
) -> Option<Seq<i64>> {
    let n = companies.len() + ics.len();
    gauss_solution(
        assembled_matrix(companies, ics, odata, active, x),
        assembled_rhs(companies, ics, odata, active, x),
        n as int,
    )
}

/// The exact outcome of the damped Newton iteration started at `x` with
/// `fuel` further iterations allowed: the model of `solve_system`, one
/// recursion step per executable iteration.
pub open spec fn newton_iterate(
    companies: Seq<PortfolioCompany>,
    ics: Seq<InequalityConstraintKind>,
    odata: Seq<(i64, Seq<i64>)>,
    active: Seq<bool>,
    x: Seq<i64>,
    fuel: int,
) -> NewtonOutcome
    decreases fuel,
{
    match newton_step(companies, ics, odata, active, x) {
        Option::None => NewtonOutcome::Singular,
        Option::Some(delta) => {
            let x1 = damped_update(x, delta);
            if max_abs_to(delta, x.len() as int) < SOLVER_TOLERANCE {
                NewtonOutcome::Converged(x1)
            } else if fuel <= 0 {
                NewtonOutcome::IterationLimit
            } else {
                newton_iterate(companies, ics, odata, active, x1, fuel - 1)
            }
        },
    }
}

/// The initial iterate: uniform fractions, multipliers and slacks at
/// zero.
pub open spec fn initial_iterate(nc: int, m: int) -> Seq<i64> {
    Seq::new(
        (nc + m) as nat,
        |i: int|
            if i < nc {
                div_fx_i64(SCALE, ((nc * (SCALE as int)) as i64))
            } else {
                0i64
            },
    )
}

/// The candidate companies as the solver first sees them: each carrying
/// the uniform initial fraction.
pub open spec fn uniform_portfolio(candidates: Seq<Company>) -> Seq<PortfolioCompany> {
    Seq::new(
        candidates.len(),
        |i: int|
            PortfolioCompany {
                company: candidates[i],
                fraction: div_fx_i64(SCALE, ((candidates.len() * (SCALE as int)) as i64)),
            },
    )
}

/// The outcome data of a portfolio, written down directly from the
/// mixed-radix enumeration: what `all_outcomes` computes, one probability
/// and one return vector per outcome number.
pub open spec fn outcome_data_model(cs: Seq<PortfolioCompany>) -> Seq<(i64, Seq<i64>)> {
    Seq::new(
        outcome_count(cs) as nat,
        |t: int|
            (
                outcome_probability_to(cs, t, cs.len() as int) as i64,
                Seq::new(cs.len(), |i: int| return_at(cs, t, i) as i64),
            ),
    )
}

/// A sequence of outcomes that matches the enumeration carries exactly
/// the portfolio's outcome data.
pub proof fn lemma_outcome_views_model(cs: Seq<PortfolioCompany>, os: Seq<Outcome>)
    requires
        os.len() == outcome_count(cs),
        forall|t: int| 0 <= t < os.len() ==> outcome_matches(cs, #[trigger] os[t], t),
    ensures
        outcome_views(os) == outcome_data_model(cs),
{
    assert forall|t: int| 0 <= t < os.len() implies #[trigger] outcome_views(os)[t]
        == outcome_data_model(cs)[t] by {
        assert(outcome_matches(cs, os[t], t));
        assert(os[t].company_returns@ =~= Seq::new(cs.len(), |i: int| return_at(cs, t, i) as i64));
    }
    assert(outcome_views(os) =~= outcome_data_model(cs));
}

/// Bit `c` of the mask number: whether constraint `c` is active.
pub open spec fn mask_bits(index: int, m: int) -> Seq<bool> {
    Seq::new(m as nat, |c: int| ((index / pow2(c)) % 2) == 1)
}

/// A converged solution is viable when the slack variable of every
/// inactive constraint is non-negative within the tolerance.
pub open spec fn viable_solution(x: Seq<i64>, active: Seq<bool>, nc: int, m: int) -> bool {
    forall|c: int| 0 <= c < m ==> ((#[trigger] active[c]) || x[nc + c] >= -TOLERANCE)
}

/// The outcome of the Newton iteration for mask number `index`.
pub open spec fn mask_outcome(
    companies: Seq<PortfolioCompany>,
    ics: Seq<InequalityConstraintKind>,
    odata: Seq<(i64, Seq<i64>)>,
    max_iter: int,
    index: int,
) -> NewtonOutcome {
    newton_iterate(
        companies,
        ics,
        odata,
        mask_bits(index, ics.len() as int),
        initial_iterate(companies.len() as int, ics.len() as int),
        max_iter,
    )
}

/// The best solution among the masks below `index`: the viable converged
/// solution with the highest expected return, ties broken by the earlier
/// mask, together with that expected return.
pub open spec fn best_solution_to(
    companies: Seq<PortfolioCompany>,
    ics: Seq<InequalityConstraintKind>,
    odata: Seq<(i64, Seq<i64>)>,
    max_iter: int,
    index: int,
) -> Option<(Seq<i64>, i64)>
    decreases index,
{
    if index <= 0 {
        None
    } else {
        let prev = best_solution_to(companies, ics, odata, max_iter, index - 1);
        match mask_outcome(companies, ics, odata, max_iter, index - 1) {
            NewtonOutcome::Converged(x) => {
                if viable_solution(
                    x,
                    mask_bits(index - 1, ics.len() as int),
                    companies.len() as int,
                    ics.len() as int,
                ) {
                    let er = expected_with_to(companies, x, companies.len() as int) as i64;
                    match prev {
                        Option::None => Some((x, er)),
                        Option::Some(best) => if er > best.1 {
                            Some((x, er))
                        } else {
                            prev
                        },
                    }
                } else {
                    prev
                }
            },
            NewtonOutcome::Singular => prev,
            NewtonOutcome::IterationLimit => prev,
        }
    }
}

impl KellyAllocator {
    /// Solves one system for the given active/inactive constraint mask:
    /// a damped Newton–Raphson iteration on the Kelly stationarity
    /// equations extended with one row and column per constraint.
    ///
    /// The result is exactly what `newton_iterate` computes from the
    /// uniform initial iterate: convergence yields its final iterate, a
    /// singular system or an exhausted iteration budget yield the matching
    /// error code.
    #[verifier::loop_isolation(false)]
    #[verifier::rlimit(100)]
    fn solve_system(
        &self,
        companies: &Vec<PortfolioCompany>,
        outcomes: &Vec<Outcome>,
        active: &Vec<bool>,
    ) -> (r: Result<Vec<i64>, Error>)
        requires
            1 <= companies@.len() <= MAX_CANDIDATES,
            self.inequality_constraints@.len() <= MAX_CONSTRAINTS,
            active@.len() == self.inequality_constraints@.len(),
            forall|j: int|
                0 <= j < self.inequality_constraints@.len() ==> (
                #[trigger] self.inequality_constraints@[j]).kind_valid_for(companies@),
            outcomes_match_width(outcomes@, companies@.len() as int),
        ensures
            r matches Ok(x) ==> x@.len() == companies@.len()
                + self.inequality_constraints@.len(),
            r matches Err(e) ==> e.code@ == "jacobian-inversion-failed"@ || e.code@
                == "nonlinear-loop-didnt-converge"@,
            ({
                let model = newton_iterate(
                    companies@,
                    self.inequality_constraints@,
                    outcome_views(outcomes@),
                    active@,
                    initial_iterate(
                        companies@.len() as int,
                        self.inequality_constraints@.len() as int,
                    ),
                    self.max_iter as int,
                );
                &&& (r matches Ok(x) ==> model == NewtonOutcome::Converged(x@))
                &&& (r is Ok <==> model is Converged)
                &&& (r matches Err(e) ==> ((model is Singular ==> e.code@
                    == "jacobian-inversion-failed"@) && (model is IterationLimit ==> e.code@
                    == "nonlinear-loop-didnt-converge"@)))
            }),
    {
        let nc = companies.len();
        let m = self.inequality_constraints.len();
        let n = nc + m;
        let ghost ics = self.inequality_constraints@;
        let ghost odata = outcome_views(outcomes@);
        proof {
            assert(n * n <= usize::MAX && nc * nc <= usize::MAX) by (nonlinear_arith)
                requires
                    (nc as int) <= (n as int) <= MAX_CANDIDATES as int + MAX_CONSTRAINTS as int,
                    usize::MAX >= 0xffff_ffff,
            ;
            assert(nc as int * (SCALE as int) <= 40000int * 10_000_000_000) by (nonlinear_arith)
                requires
                    0 <= (nc as int) <= 40000,
                    SCALE as int == 10_000_000_000,
            ;
        }
        // Initial guess: uniform fractions, multipliers and slacks at zero.
        let uniform = div_fx(SCALE, (nc as i64) * SCALE);
        let mut x: Vec<i64> = Vec::new();
        let mut i: usize = 0;
        while i < n
            invariant
                0 <= i <= n,
                x@.len() == i,
                forall|k: int|
                    0 <= k < i as int ==> (#[trigger] x@[k]) == initial_iterate(
                        nc as int,
                        m as int,
                    )[k],
            decreases n - i,
        {
            if i < nc {
                x.push(uniform);
            } else {
                x.push(0);
            }
            i = i + 1;
        }
        proof {
            assert(x@ =~= initial_iterate(nc as int, m as int));
        }
        let ghost model0 = newton_iterate(
            companies@,
            ics,
            odata,
            active@,
            initial_iterate(nc as int, m as int),
            self.max_iter as int,
        );
        let mut counter: u32 = 0;
        let mut converged = false;
        while !converged
            invariant
                x@.len() == n,
                counter <= self.max_iter,
                !converged ==> model0 == newton_iterate(
                    companies@,
                    ics,
                    odata,
                    active@,
                    x@,
                    self.max_iter as int - counter as int,
                ),
                converged ==> model0 == NewtonOutcome::Converged(x@),
            decreases self.max_iter - counter + (if converged { 0int } else { 1int }),
        {
            let ghost x_before = x@;
            let ghost fuel = self.max_iter as int - counter as int;
            // Current fraction iterate.
            let mut fr: Vec<i64> = Vec::new();
            let mut i: usize = 0;
            while i < nc
                invariant
                    0 <= i <= nc,
                    fr@.len() == i,
                    x@ == x_before,
                    forall|k: int| 0 <= k < i as int ==> fr@[k] == x@[k],
                decreases nc - i,
            {
                fr.push(x[i]);
                i = i + 1;
            }
            proof {
                assert(fr@ =~= x@.take(nc as int));
            }
            let jacobian = jacobian_fractions(outcomes, &fr);
            let criterion = criterion_fractions(outcomes, &fr);
            // The constraint gradients, one vector per constraint.
            let mut gradients: Vec<Vec<i64>> = Vec::new();
            let mut cid: usize = 0;
            while cid < m
                invariant
                    0 <= cid <= m,
                    gradients@.len() == cid,
                    forall|j: int|
                        0 <= j < cid as int ==> (#[trigger] gradients@[j])@ == ics[
                            j
                        ].kind_gradient_spec(companies@),
                decreases m - cid,
            {
                gradients.push(self.inequality_constraints[cid].gradient(companies));
                cid = cid + 1;
            }
            // Assemble the system for this iterate, cell by cell.
            let ghost am = assembled_matrix(companies@, ics, odata, active@, x@);
            let mut a: Vec<i64> = Vec::new();
            let mut r0: usize = 0;
            while r0 < n
                invariant
                    0 <= r0 <= n,
                    x@ == x_before,
                    a@.len() == r0 * n,
                    forall|idx: int| 0 <= idx < a@.len() ==> (#[trigger] a@[idx]) == am[idx],
                decreases n - r0,
            {
                let mut c0: usize = 0;
                while c0 < n
                    invariant
                        0 <= c0 <= n,
                        r0 < n,
                        x@ == x_before,
                        a@.len() == r0 * n + c0,
                        forall|idx: int| 0 <= idx < a@.len() ==> (#[trigger] a@[idx]) == am[idx],
                    decreases n - c0,
                {
                    proof {
                        lemma_flat_decompose(r0 as int, c0 as int, n as int);
                        if r0 < nc && c0 < nc {
                            assert((r0 as int) * (nc as int) + (c0 as int) < (nc as int) * (
                            nc as int)) by (nonlinear_arith)
                                requires
                                    0 <= (r0 as int) < nc as int,
                                    0 <= (c0 as int) < nc as int,
                            ;
                        }
                    }
                    let cell: i64 = if r0 < nc && c0 < nc {
                        jacobian[r0 * nc + c0]
                    } else if c0 < nc {
                        neg_fx(gradients[r0 - nc][c0])
                    } else if r0 < nc {
                        if active[c0 - nc] {
                            neg_fx(gradients[c0 - nc][r0])
                        } else {
                            0
                        }
                    } else if r0 == c0 && !active[r0 - nc] {
                        NEG_SCALE
                    } else {
                        0
                    };
                    a.push(cell);
                    c0 = c0 + 1;
                }
                proof {
                    assert((r0 as int + 1) * (n as int) == (r0 as int) * (n as int) + n as int)
                        by (nonlinear_arith);
                }
                r0 = r0 + 1;
            }
            proof {
                assert(a@ =~= am);
            }
            let ghost ar = assembled_rhs(companies@, ics, odata, active@, x@);
            let mut rhs: Vec<i64> = Vec::new();
            let mut r0: usize = 0;
            while r0 < n
                invariant
                    0 <= r0 <= n,
                    x@ == x_before,
                    fr@ == x@.take(nc as int),
                    rhs@.len() == r0,
                    forall|idx: int| 0 <= idx < r0 as int ==> (#[trigger] rhs@[idx]) == ar[idx],
                decreases n - r0,
            {
                if r0 < nc {
                    let mut acc: i64 = neg_fx(criterion[r0]);
                    let mut cid: usize = 0;
                    while cid < m
                        invariant
                            0 <= cid <= m,
                            r0 < nc,
                            x@ == x_before,
                            acc == rhs_head(companies@, ics, odata, active@, x@, r0 as int, cid as int),
                        decreases m - cid,
                    {
                        if active[cid] {
                            acc = add_fx(acc, mul_fx(x[nc + cid], gradients[cid][r0]));
                        }
                        cid = cid + 1;
                    }
                    rhs.push(acc);
                } else {
                    let cid = r0 - nc;
                    let constraint = &self.inequality_constraints[cid];
                    let slack_variable: i64 = if active[cid] {
                        0
                    } else {
                        x[r0]
                    };
                    let fv = constraint.function_value_with(companies, &fr, slack_variable);
                    rhs.push(add_fx(0, fv));
                }
                r0 = r0 + 1;
            }
            proof {
                assert(rhs@ =~= ar);
            }
            // Solve for the update and damp it.
            let delta = match solve_linear_system(n, a, rhs) {
                Some(d) => d,
                None => {
                    proof {
                        assert(newton_step(companies@, ics, odata, active@, x@) is None);
                        assert(newton_iterate(companies@, ics, odata, active@, x@, fuel)
                            == NewtonOutcome::Singular);
                    }
                    return Err(
                        Error {
                            code: String::from_str("jacobian-inversion-failed"),
                            message: String::from_str(
                                "Did not manage to find the numerical solution. This may happen if the input data would suggest a very strong bias towards a single/few investments. Check your input.",
                            ),
                        },
                    );
                },
            };
            proof {
                assert(newton_step(companies@, ics, odata, active@, x@) == Some(delta@));
                assert(delta@.len() == n);
            }
            let mut residual: i64 = 0;
            let mut i: usize = 0;
            while i < n
                invariant
                    0 <= i <= n,
                    x@.len() == n,
                    delta@.len() == n,
                    forall|q: int|
                        0 <= q < i as int ==> (#[trigger] x@[q]) == damped_update(
                            x_before,
                            delta@,
                        )[q],
                    forall|q: int| i as int <= q < n ==> (#[trigger] x@[q]) == x_before[q],
                    residual == max_abs_to(delta@, i as int),
                decreases n - i,
            {
                let updated = add_fx(x[i], mul_fx(RELAXATION_FACTOR, delta[i]));
                x.set(i, updated);
                let magnitude = abs_fx(delta[i]);
                if magnitude > residual {
                    residual = magnitude;
                }
                i = i + 1;
            }
            proof {
                assert(x@ =~= damped_update(x_before, delta@));
            }
            // Convergence check in the maximum norm.
            if residual < SOLVER_TOLERANCE {
                proof {
                    assert(newton_iterate(companies@, ics, odata, active@, x_before, fuel)
                        == NewtonOutcome::Converged(x@));
                }
                converged = true;
            } else {
                // Maximum iterations check in case the iteration diverges.
                if counter >= self.max_iter {
                    proof {
                        assert(fuel <= 0);
                        assert(newton_iterate(companies@, ics, odata, active@, x_before, fuel)
                            == NewtonOutcome::IterationLimit);
                    }
                    return Err(
                        Error {
                            code: String::from_str("nonlinear-loop-didnt-converge"),
                            message: String::from_str(
                                "Did not manage to find the numerical solution. This may happen if the input data would suggest a very strong bias towards a single/few investments. Check your input.",
                            ),
                        },
                    );
                }
                proof {
                    assert(newton_iterate(companies@, ics, odata, active@, x_before, fuel)
                        == newton_iterate(companies@, ics, odata, active@, x@, fuel - 1));
                }
                counter = counter + 1;
            }
        }
        Ok(x)
    }

    /// Calculates the allocation fractions for the candidates by solving,
    /// for every active/inactive mask over the inequality constraints, a
    /// damped Newton–Raphson iteration, keeping the viable solutions
    /// (every inactive constraint's slack within the tolerance) and
    /// returning the one with the highest expected return, ties broken by
    /// the earlier mask.
    ///
    /// The contract pins each guard error to its exact condition and the
    /// rest to `best_solution_to`: success exactly when some mask yields a
    /// viable converged solution, with the companies in order and the
    /// fractions of the best such solution.
    #[verifier::loop_isolation(false)]
    #[verifier::rlimit(100)]
    pub fn allocate(&self, candidates: Vec<Company>) -> (r: Result<Portfolio, Error>)
        requires
            1 <= candidates@.len() <= MAX_CANDIDATES,
            forall|j: int|
                0 <= j < self.inequality_constraints@.len() ==> constraint_applies(
                    #[trigger] self.inequality_constraints@[j],
                    candidates@,
                ),
        ensures
            (self.has_max_permanent_loss_constraint && !self.has_long_only_constraint) ==> (
            r matches Err(e)
                && e.code@ == "maximum-capital-loss-constraint-works-only-with-long-only-strategy"@),
            (!(self.has_max_permanent_loss_constraint && !self.has_long_only_constraint)
                && self.inequality_constraints@.len() > MAX_CONSTRAINTS) ==> (r matches Err(e)
                && e.code@ == "refusing-to-solve-more-than-4194304-systems"@),
            (!(self.has_max_permanent_loss_constraint && !self.has_long_only_constraint)
                && self.inequality_constraints@.len() <= MAX_CONSTRAINTS && outcome_count(
                with_zero_fractions(candidates@),
            ) > MAX_OUTCOMES as int) ==> (r matches Err(e) && e.code@
                == "more-than-fifty-thousand-outcomes"@),
            (!(self.has_max_permanent_loss_constraint && !self.has_long_only_constraint)
                && self.inequality_constraints@.len() <= MAX_CONSTRAINTS && outcome_count(
                with_zero_fractions(candidates@),
            ) <= MAX_OUTCOMES as int) ==> ({
                let best = best_solution_to(
                    uniform_portfolio(candidates@),
                    self.inequality_constraints@,
                    outcome_data_model(uniform_portfolio(candidates@)),
                    self.max_iter as int,
                    pow2(self.inequality_constraints@.len() as int),
                );
                &&& (r is Ok <==> best is Some)
                &&& (r matches Ok(p) ==> (best matches Some(bx) && {
                    &&& p.companies@.len() == candidates@.len()
                    &&& (forall|i: int|
                        0 <= i < candidates@.len() ==> (#[trigger] p.companies@[i]).company
                            == candidates@[i])
                    &&& (forall|i: int|
                        0 <= i < candidates@.len() ==> (#[trigger] p.companies@[i]).fraction
                            == bx.0[i])
                }))
                &&& (r matches Err(e) ==> (e.code@ == "did-not-find-a-single-viable-solution"@
                    && best is None))
            }),
    {
        if self.has_max_permanent_loss_constraint && !self.has_long_only_constraint {
            return Err(
                Error {
                    code: String::from_str(
                        "maximum-capital-loss-constraint-works-only-with-long-only-strategy",
                    ),
                    message: String::from_str(
                        "Maximum capital loss constraint can work only with long-only strategy (constraint). Either remove the capital loss constraint or add the long-only constraint.",
                    ),
                },
            );
        }
        let m = self.inequality_constraints.len();
        // Each inequality constraint may be active or inactive, so the
        // number of systems to solve is two to the number of constraints.
        if m > MAX_CONSTRAINTS {
            let mut message = String::from_str(
                "Solving more than 4194304 systems due to inequality constraints is prohibited because it hasn't been tested thoroughly, although it should work. You have ",
            );
            message.append(uint_string(m as u64).as_str());
            message.append(" constraints, resulting in more than 4194304 systems to solve.");
            return Err(
                Error {
                    code: String::from_str("refusing-to-solve-more-than-4194304-systems"),
                    message,
                },
            );
        }
        let mut n_systems: usize = 1;
        let mut e: usize = 0;
        while e < m
            invariant
                0 <= e <= m,
                m <= MAX_CONSTRAINTS,
                n_systems as int == pow2(e as int),
                n_systems <= 0x400000,
            decreases m - e,
        {
            proof {
                lemma_pow2_bounded(e as int + 1);
            }
            n_systems = n_systems * 2;
            e = e + 1;
        }
        let nc = candidates.len();
        proof {
            assert(nc as int * (SCALE as int) <= 40000int * 10_000_000_000) by (nonlinear_arith)
                requires
                    0 <= (nc as int) <= 40000,
                    SCALE as int == 10_000_000_000,
            ;
        }
        // Initial guess for the fractions: uniform allocation.
        let uniform = div_fx(SCALE, (nc as i64) * SCALE);
        let ghost cand_seq = candidates@;
        let mut rest = candidates;
        let mut pcs: Vec<PortfolioCompany> = Vec::new();
        let mut i: usize = 0;
        while i < nc
            invariant
                0 <= i <= nc,
                nc == cand_seq.len(),
                rest@ == cand_seq.skip(i as int),
                pcs@.len() == i,
                forall|k: int|
                    0 <= k < i as int ==> (#[trigger] pcs@[k]).company == cand_seq[k]
                        && pcs@[k].fraction == uniform,
            decreases nc - i,
        {
            let c = rest.remove(0);
            proof {
                assert(cand_seq.skip(i as int)[0] == cand_seq[i as int]);
                assert(cand_seq.skip(i as int).remove(0) =~= cand_seq.skip(i as int + 1));
            }
            pcs.push(PortfolioCompany { company: c, fraction: uniform });
            i = i + 1;
        }
        let portfolio = Portfolio { companies: pcs };
        proof {
            assert(forall|k: int|
                0 <= k < cand_seq.len() ==> count_of(portfolio.companies@, k) == count_of(
                    with_zero_fractions(cand_seq),
                    k,
                ));
            lemma_product_counts_eq(
                portfolio.companies@,
                with_zero_fractions(cand_seq),
                cand_seq.len() as int,
            );
        }
        // All outcomes are computed once and shared across the masks.
        let outcomes = match all_outcomes(&portfolio) {
            Ok(o) => o,
            Err(e) => {
                return Err(e);
            },
        };
        proof {
            assert forall|j: int|
                0 <= j < self.inequality_constraints@.len() implies (
            #[trigger] self.inequality_constraints@[j]).kind_valid_for(portfolio.companies@) by {
                let ghost c = self.inequality_constraints@[j];
                assert(constraint_applies(c, cand_seq));
            }
            assert(outcomes_match_width(outcomes@, portfolio.companies@.len() as int));
        }
        let ghost pcs_model = uniform_portfolio(cand_seq);
        let ghost ics2 = self.inequality_constraints@;
        proof {
            assert(portfolio.companies@ =~= pcs_model);
            lemma_outcome_views_model(portfolio.companies@, outcomes@);
        }
        let ghost odata_model = outcome_data_model(pcs_model);
        proof {
            assert(outcome_views(outcomes@) == odata_model);
        }
        // Walk the masks in ascending order; bit `c` of the index says
        // whether constraint `c` is active.
        let mut best: Option<Vec<i64>> = None;
        let mut best_expected_return: i64 = 0;
        let mut all_error_strings = String::new();
        let mut index: usize = 0;
        while index < n_systems
            invariant
                0 <= index <= n_systems,
                portfolio.companies@.len() == nc,
                1 <= nc <= MAX_CANDIDATES,
                m == self.inequality_constraints@.len() <= MAX_CONSTRAINTS,
                forall|j: int|
                    0 <= j < self.inequality_constraints@.len() ==> (
                    #[trigger] self.inequality_constraints@[j]).kind_valid_for(
                        portfolio.companies@,
                    ),
                outcomes_match_width(outcomes@, nc as int),
                best matches Some(x) ==> x@.len() == nc + m,
                portfolio.companies@ == pcs_model,
                outcome_views(outcomes@) == odata_model,
                (best is None <==> best_solution_to(
                    pcs_model,
                    ics2,
                    odata_model,
                    self.max_iter as int,
                    index as int,
                ) is None),
                best matches Some(bx) ==> best_solution_to(
                    pcs_model,
                    ics2,
                    odata_model,
                    self.max_iter as int,
                    index as int,
                ) == Some((bx@, best_expected_return)),
            decreases n_systems - index,
        {
            let mut active: Vec<bool> = Vec::new();
            let mut bits = index;
            let mut c: usize = 0;
            while c < m
                invariant
                    0 <= c <= m,
                    active@.len() == c,
                    bits as int == index as int / pow2(c as int),
                    forall|k: int|
                        0 <= k < c as int ==> (#[trigger] active@[k]) == mask_bits(
                            index as int,
                            m as int,
                        )[k],
                decreases m - c,
            {
                proof {
                    lemma_pow2_pos(c as int);
                    lemma_div_denominator(index as int, pow2(c as int), 2);
                    assert(pow2(c as int + 1) == 2 * pow2(c as int));
                }
                active.push(bits % 2 == 1);
                bits = bits / 2;
                c = c + 1;
            }
            proof {
                assert(active@ =~= mask_bits(index as int, m as int));
            }
            let ghost mo = mask_outcome(
                pcs_model,
                ics2,
                odata_model,
                self.max_iter as int,
                index as int,
            );
            let result = self.solve_system(&portfolio.companies, &outcomes, &active);
            proof {
                assert(mo == newton_iterate(
                    portfolio.companies@,
                    self.inequality_constraints@,
                    outcome_views(outcomes@),
                    active@,
                    initial_iterate(nc as int, m as int),
                    self.max_iter as int,
                ));
            }
            match result {
                Ok(x) => {
                    // The solution is viable only when the slack variable
                    // of every inactive constraint is non-negative within
                    // the tolerance.
                    let mut viable = true;
                    let mut c: usize = 0;
                    while c < m
                        invariant
                            0 <= c <= m,
                            active@.len() == m,
                            x@.len() == nc + m,
                            viable <==> (forall|q: int|
                                0 <= q < c as int ==> ((#[trigger] active@[q]) || x@[nc + q]
                                    >= -TOLERANCE)),
                        decreases m - c,
                    {
                        if !active[c] && x[nc + c] < -TOLERANCE {
                            viable = false;
                        }
                        c = c + 1;
                    }
                    proof {
                        assert(mo == NewtonOutcome::Converged(x@));
                        assert(viable == viable_solution(
                            x@,
                            mask_bits(index as int, m as int),
                            nc as int,
                            m as int,
                        ));
                    }
                    if viable {
                        let er = expected_return_fractions(&portfolio.companies, &x);
                        let take = match &best {
                            Option::None => true,
                            Option::Some(_) => er > best_expected_return,
                        };
                        if take {
                            best = Some(x);
                            best_expected_return = er;
                        }
                    }
                },
                Err(e) => {
                    // Collect the per-mask error for the aggregate report.
                    all_error_strings.append("    ");
                    all_error_strings.append(uint_string(index as u64).as_str());
                    all_error_strings.append(": ");
                    all_error_strings.append(e.code.as_str());
                    all_error_strings.append(": ");
                    all_error_strings.append(e.message.as_str());
                    all_error_strings.append("\n");
                },
            }
            index = index + 1;
        }
        proof {
            assert(n_systems as int == pow2(m as int));
        }
        let solution = match best {
            Some(x) => x,
            None => {
                let mut message = String::from_str(
                    "Did not manage to find a single viable numerical solution. This may happen for multiple reasons. Check whether the input data would suggest a very strong bias towards a single/few investments. Check whether the constraints are too strict.\nErrors in individual solutions are ",
                );
                message.append(all_error_strings.as_str());
                message.append(":");
                return Err(
                    Error {
                        code: String::from_str("did-not-find-a-single-viable-solution"),
                        message,
                    },
                );
            },
        };
        // Rebuild the portfolio with the winning fractions.
        let mut work = portfolio.companies;
        let mut final_companies: Vec<PortfolioCompany> = Vec::new();
        let mut i: usize = 0;
        while i < nc
            invariant
                0 <= i <= nc,
                nc == cand_seq.len(),
                work@.len() == nc - i,
                solution@.len() == nc + m,
                forall|k: int|
                    0 <= k < work@.len() ==> (#[trigger] work@[k]).company == cand_seq[
                    i as int + k],
                final_companies@.len() == i,
                forall|k: int|
                    0 <= k < i as int ==> (#[trigger] final_companies@[k]).company == cand_seq[k],
                forall|k: int|
                    0 <= k < i as int ==> (#[trigger] final_companies@[k]).fraction == solution@[k],
            decreases nc - i,
        {
            let pc = work.remove(0);
            final_companies.push(PortfolioCompany { company: pc.company, fraction: solution[i] });
            i = i + 1;
        }
        Ok(Portfolio { companies: final_companies })
    }
}

/// The fixed-point product of two ratios in [0, 1] stays in [0, 1].
proof fn lemma_mul_fx_unit_range(a: int, b: int)
    requires
        0 <= a <= SCALE,
        0 <= b <= SCALE,
    ensures
        0 <= mul_fx_spec(a, b) <= SCALE,
{
    assert(0 <= (a * b + SCALE as int / 2) / (SCALE as int) <= SCALE) by (nonlinear_arith)
        requires
            0 <= a <= SCALE as int,
            0 <= b <= SCALE as int,
            SCALE as int == 10_000_000_000,
    ;
}

} // verus!
