//! Kelly-criterion capital allocation.
//!
//! The crate computes allocation fractions across candidate investments that
//! maximise the expected logarithmic growth rate of wealth, subject to an
//! enumerated menu of inequality constraints (long-only, per-company cap,
//! total-leverage cap, tail-loss bound).  All quantities are held in
//! fixed-point integers: ratios, probabilities and fractions carry ten
//! decimal places, money amounts carry two.

pub mod analysis;
pub mod constraints;
pub mod fixed;
pub mod kelly_allocation;
pub mod linalg;
pub mod model;
pub mod text;
pub mod validation;

use vstd::prelude::*;
use vstd::string::StringExecFns;

use crate::analysis::{
    all_outcomes, count_of, cumulative_loss_spec, cumulative_probability_of_loss, expected_return,
    expected_return_to, lemma_loss_probability_matches, outcome_count, worst_case_outcome,
    worst_probability_to, worst_return_to, worst_weighted_to, MAX_OUTCOMES,
};
use crate::constraints::constraint::InequalityConstraintKind;
use crate::model::capital_loss::CapitalLoss;
use crate::constraints::long_only_constraint::LongOnlyConstraint;
use crate::constraints::maximum_capital_loss_constraint::MaxCapitalLossConstraint;
use crate::constraints::maximum_individual_allocation_constraint::MaximumIndividualAllocationConstraint;
use crate::constraints::maximum_total_leverage_constraint::MaximumTotalLeverageConstraint;
use crate::fixed::{mul_fx_spec, neg_fx_spec, SCALE};
use crate::kelly_allocation::{
    best_solution_to, constraint_applies, outcome_data_model, pow2, uniform_portfolio,
    with_zero_fractions, KellyAllocator, MAX_CANDIDATES, MAX_CONSTRAINTS, MAX_ITER,
};
use crate::model::company::{
    has_no_downside, sum_weighted_returns, Company, TOLERANCE,
};
use crate::model::errors::Error;
use crate::model::portfolio::{
    allocation_input_problems, AllocationInput, Portfolio, PortfolioCompany,
};
use crate::model::responses::{
    AllocationResponse, AllocationResult, AnalysisResponse, AnalysisResult, TickerAndFraction,
};
use crate::validation::result::{
    any_error, contains_error_problem, lemma_errors_match, problems_match, Severity,
    ValidationResult,
};
use crate::validation::validate::Validate;

verus! {

/// A candidate survives the pre-solve filter when its expected return is
/// non-negative and it has at least one downside scenario.
pub open spec fn company_kept(c: Company) -> bool {
    &&& sum_weighted_returns(c.scenarios@, c.market_cap as int, c.scenarios@.len() as int) >= 0
    &&& !has_no_downside(c.scenarios@, c.market_cap as int)
}

/// The first `n` candidates that survive the pre-solve filter, in order.
pub open spec fn kept_candidates(cs: Seq<Company>, n: int) -> Seq<Company>
    decreases n,
{
    if n <= 0 {
        Seq::empty()
    } else if company_kept(cs[n - 1]) {
        kept_candidates(cs, n - 1) + seq![cs[n - 1]]
    } else {
        kept_candidates(cs, n - 1)
    }
}

/// The inequality constraints built for `n` surviving candidates from the
/// input's optional flags, in the order the solver holds them: the
/// long-only constraints, the capital-loss bound, the per-company caps,
/// the leverage cap.
pub open spec fn facade_constraints(input: AllocationInput, n: int) -> Seq<
    InequalityConstraintKind,
> {
    (if input.long_only matches Some(true) {
        Seq::new(
            n as nat,
            |k: int|
                InequalityConstraintKind::LongOnly(LongOnlyConstraint { fraction_index: k as usize }),
        )
    } else {
        Seq::empty()
    }) + (match input.max_permanent_loss_of_capital {
        Some(cl) => seq![
            InequalityConstraintKind::MaxCapitalLoss(
                MaxCapitalLossConstraint {
                    probability_times_fraction_of_capital_lost: (neg_fx_spec(
                        mul_fx_spec(cl.fraction_of_capital as int, cl.probability_of_loss as int),
                    )) as i64,
                },
            ),
        ],
        None => Seq::empty(),
    }) + (match input.max_individual_allocation {
        Some(f) => Seq::new(
            n as nat,
            |k: int|
                InequalityConstraintKind::MaximumIndividualAllocation(
                    MaximumIndividualAllocationConstraint {
                        fraction_index: k as usize,
                        max_allocation_fraction: f,
                    },
                ),
        ),
        None => Seq::empty(),
    }) + (match input.max_total_leverage_ratio {
        Some(l) => seq![
            InequalityConstraintKind::MaximumTotalLeverage(
                MaximumTotalLeverageConstraint { max_leverage_ratio: l },
            ),
        ],
        None => Seq::empty(),
    })
}

/// Validates the candidates and constraints and returns all problems.
pub fn validate(portfolio_candidates: &AllocationInput) -> (r: Vec<ValidationResult>)
    ensures
        problems_match(r@, allocation_input_problems(*portfolio_candidates)),
{
    portfolio_candidates.validate()
}

/// Every candidate that survives the filter satisfies the filter
/// predicate.
proof fn lemma_kept_all_kept(cs: Seq<Company>, n: int)
    requires
        0 <= n <= cs.len(),
    ensures
        forall|k: int|
            0 <= k < kept_candidates(cs, n).len() ==> company_kept(
                #[trigger] kept_candidates(cs, n)[k],
            ),
    decreases n,
{
    if n > 0 {
        lemma_kept_all_kept(cs, n - 1);
        assert forall|k: int|
            0 <= k < kept_candidates(cs, n).len() implies company_kept(
            #[trigger] kept_candidates(cs, n)[k],
        ) by {
            if company_kept(cs[n - 1]) {
                if k < kept_candidates(cs, n - 1).len() {
                    assert(kept_candidates(cs, n)[k] == kept_candidates(cs, n - 1)[k]);
                } else {
                    assert(kept_candidates(cs, n)[k] == cs[n - 1]);
                }
            } else {
                assert(kept_candidates(cs, n) == kept_candidates(cs, n - 1));
            }
        }
    }
}

/// A surviving candidate has at least one scenario: a company without
/// scenarios trivially has no downside and is filtered out.
proof fn lemma_kept_has_scenarios(c: Company)
    requires
        company_kept(c),
    ensures
        c.scenarios@.len() > 0,
{
    if c.scenarios@.len() == 0 {
        assert(has_no_downside(c.scenarios@, c.market_cap as int));
    }
}

/// With no validation error, a present capital-loss bound lies in (0, 1]
/// in both components and the long-only flag is set.
proof fn lemma_capital_loss_in_bounds(input: AllocationInput, cl: CapitalLoss)
    requires
        !any_error(allocation_input_problems(input)),
        input.max_permanent_loss_of_capital == Some(cl),
    ensures
        0 <= cl.fraction_of_capital <= SCALE,
        0 <= cl.probability_of_loss <= SCALE,
        input.long_only matches Some(true),
{
    let problems_spec = allocation_input_problems(input);
    let cand_seq = input.candidates@;
    let pa = crate::model::portfolio::candidates_problems(cand_seq, cand_seq.len() as int);
    let pb = if !crate::model::portfolio::tickers_unique(cand_seq) {
        seq![("all-tickers-must-be-unique"@, Severity::ERROR)]
    } else {
        Seq::<(Seq<char>, Severity)>::empty()
    };
    let pc_ = crate::model::capital_loss::capital_loss_problems(cl);
    let frac = crate::model::capital_loss::fraction_of_capital_problems(cl);
    let prob = crate::model::capital_loss::probability_of_loss_problems(cl);
    if cl.fraction_of_capital < TOLERANCE || cl.fraction_of_capital > SCALE {
        assert(frac[0].1 == Severity::ERROR);
        assert(pc_[0] == frac[0]);
        assert(problems_spec[pa.len() + pb.len() as int] == pc_[0]);
        assert(any_error(problems_spec));
        assert(false);
    }
    if cl.probability_of_loss < TOLERANCE || cl.probability_of_loss > SCALE {
        assert(prob[0].1 == Severity::ERROR);
        assert(pc_[frac.len() as int] == prob[0]);
        assert(problems_spec[pa.len() + pb.len() + frac.len() as int] == pc_[frac.len() as int]);
        assert(any_error(problems_spec));
        assert(false);
    }
    if !(input.long_only matches Some(true)) {
        let pd_index = pa.len() + pb.len() + pc_.len();
        assert(problems_spec[pd_index as int] == (
            "maximum-permanent-loss-constraint-works-only-with-long-only-constraint"@,
            Severity::ERROR,
        ));
        assert(any_error(problems_spec));
        assert(false);
    }
}

/// With no validation error, a present per-company cap is non-negative.
proof fn lemma_individual_cap_non_negative(input: AllocationInput, f: i64)
    requires
        !any_error(allocation_input_problems(input)),
        input.max_individual_allocation == Some(f),
    ensures
        f >= 0,
{
    let problems_spec = allocation_input_problems(input);
    let cand_seq = input.candidates@;
    let pa = crate::model::portfolio::candidates_problems(cand_seq, cand_seq.len() as int);
    let pb = if !crate::model::portfolio::tickers_unique(cand_seq) {
        seq![("all-tickers-must-be-unique"@, Severity::ERROR)]
    } else {
        Seq::<(Seq<char>, Severity)>::empty()
    };
    let pc_ = match input.max_permanent_loss_of_capital {
        Some(cl) => crate::model::capital_loss::capital_loss_problems(cl),
        None => Seq::empty(),
    };
    let pd = if input.max_permanent_loss_of_capital is Some && !(input.long_only matches Some(
        true,
    )) {
        seq![
            (
                "maximum-permanent-loss-constraint-works-only-with-long-only-constraint"@,
                Severity::ERROR,
            ),
        ]
    } else {
        Seq::<(Seq<char>, Severity)>::empty()
    };
    if f < 0 {
        let pe_index = pa.len() + pb.len() + pc_.len() + pd.len();
        assert(problems_spec[pe_index as int] == (
            "maximum-individual-allocation-cannot-be-negative"@,
            Severity::ERROR,
        ));
        assert(any_error(problems_spec));
        assert(false);
    }
}

/// With no validation error, a present leverage cap is non-negative.
proof fn lemma_leverage_cap_non_negative(input: AllocationInput, l: i64)
    requires
        !any_error(allocation_input_problems(input)),
        input.max_total_leverage_ratio == Some(l),
    ensures
        l >= 0,
{
    let problems_spec = allocation_input_problems(input);
    let cand_seq = input.candidates@;
    let pa = crate::model::portfolio::candidates_problems(cand_seq, cand_seq.len() as int);
    let pb = if !crate::model::portfolio::tickers_unique(cand_seq) {
        seq![("all-tickers-must-be-unique"@, Severity::ERROR)]
    } else {
        Seq::<(Seq<char>, Severity)>::empty()
    };
    let pc_ = match input.max_permanent_loss_of_capital {
        Some(cl) => crate::model::capital_loss::capital_loss_problems(cl),
        None => Seq::empty(),
    };
    let pd = if input.max_permanent_loss_of_capital is Some && !(input.long_only matches Some(
        true,
    )) {
        seq![
            (
                "maximum-permanent-loss-constraint-works-only-with-long-only-constraint"@,
                Severity::ERROR,
            ),
        ]
    } else {
        Seq::<(Seq<char>, Severity)>::empty()
    };
    let pe = if input.max_individual_allocation matches Some(f) && f < 0 {
        seq![("maximum-individual-allocation-cannot-be-negative"@, Severity::ERROR)]
    } else {
        Seq::<(Seq<char>, Severity)>::empty()
    };
    if l < 0 {
        let pf_index = pa.len() + pb.len() + pc_.len() + pd.len() + pe.len();
        assert(problems_spec[pf_index as int] == (
            "maximum-total-leverage-ratio-cannot-be-negative"@,
            Severity::ERROR,
        ));
        assert(any_error(problems_spec));
        assert(false);
    }
}

/// Runs the configured allocator over the surviving candidates and
/// assembles the response: the allocations of the best viable solution
/// and its analysis, or the solver's error.
#[verifier::loop_isolation(false)]
#[verifier::rlimit(100)]
fn run_allocation(
    kelly_allocator: KellyAllocator,
    filtered_candidates: Vec<Company>,
    validation_problems: Vec<ValidationResult>,
    Ghost(input0): Ghost<AllocationInput>,
) -> (r: AllocationResponse)
    requires
        1 <= filtered_candidates@.len() <= MAX_CANDIDATES,
        filtered_candidates@ == kept_candidates(
            input0.candidates@,
            input0.candidates@.len() as int,
        ),
        kelly_allocator.max_iter == MAX_ITER,
        kelly_allocator.inequality_constraints@ == facade_constraints(
            input0,
            filtered_candidates@.len() as int,
        ),
        !(kelly_allocator.has_max_permanent_loss_constraint
            && !kelly_allocator.has_long_only_constraint),
        forall|j: int|
            0 <= j < kelly_allocator.inequality_constraints@.len() ==> constraint_applies(
                #[trigger] kelly_allocator.inequality_constraints@[j],
                filtered_candidates@,
            ),
    ensures
        ({
            let kept = kept_candidates(input0.candidates@, input0.candidates@.len() as int);
            let ics = facade_constraints(input0, kept.len() as int);
            let best = best_solution_to(
                uniform_portfolio(kept),
                ics,
                outcome_data_model(uniform_portfolio(kept)),
                MAX_ITER as int,
                pow2(ics.len() as int),
            );
            let too_many = ics.len() > MAX_CONSTRAINTS;
            let too_wide = outcome_count(with_zero_fractions(kept)) > MAX_OUTCOMES as int;
            &&& (too_many ==> (r.result is None && (r.error matches Some(e) && e.code@
                == "refusing-to-solve-more-than-4194304-systems"@)))
            &&& ((!too_many && too_wide) ==> (r.result is None && (r.error matches Some(e)
                && e.code@ == "more-than-fifty-thousand-outcomes"@)))
            &&& ((!too_many && !too_wide) ==> {
                &&& (r.result is Some <==> best is Some)
                &&& (r.result matches Some(res) ==> (best matches Some(bx) && {
                    let solved = Seq::new(
                        kept.len(),
                        |i: int| PortfolioCompany { company: kept[i], fraction: bx.0[i] },
                    );
                    &&& res.allocations@.len() == kept.len()
                    &&& (forall|i: int|
                        0 <= i < kept.len() ==> (#[trigger] res.allocations@[i]).ticker@
                            == kept[i].ticker@)
                    &&& (forall|i: int|
                        0 <= i < kept.len() ==> (#[trigger] res.allocations@[i]).fraction
                            == bx.0[i])
                    &&& res.analysis.expected_return as int == expected_return_to(
                        solved,
                        solved.len() as int,
                    )
                    &&& res.analysis.cumulative_probability_of_loss as int == cumulative_loss_spec(
                        solved,
                        outcome_count(solved),
                    )
                    &&& res.analysis.worst_case_outcome.probability as int == worst_probability_to(
                        solved,
                        solved.len() as int,
                    )
                    &&& res.analysis.worst_case_outcome.portfolio_return as int == worst_return_to(
                        solved,
                        solved.len() as int,
                    )
                    &&& res.analysis.worst_case_outcome.probability_weighted_return as int
                        == worst_weighted_to(solved, solved.len() as int)
                }))
                &&& (r.result is None ==> (r.error matches Some(e) && e.code@
                    == "did-not-find-a-single-viable-solution"@ && best is None))
            })
        }),
        r.result is None ==> r.error is Some,
{
    let ghost kept = kept_candidates(input0.candidates@, input0.candidates@.len() as int);
    let n_filtered = filtered_candidates.len();
    let ghost icsm = facade_constraints(input0, n_filtered as int);
    proof {
        lemma_kept_all_kept(input0.candidates@, input0.candidates@.len() as int);
        assert forall|k: int| 0 <= k < kept.len() implies (#[trigger] kept[k]).scenarios@.len()
            > 0 by {
            lemma_kept_has_scenarios(kept[k]);
        }
    }
    let ghost pcs_m = uniform_portfolio(kept);
    let ghost od_m = outcome_data_model(pcs_m);
    let ghost best_model = best_solution_to(
        pcs_m,
        icsm,
        od_m,
        MAX_ITER as int,
        pow2(icsm.len() as int),
    );
    let portfolio = match kelly_allocator.allocate(filtered_candidates) {
        Ok(p) => p,
        Err(e) => {
            return AllocationResponse {
                result: None,
                validation_problems: Some(validation_problems),
                error: Some(e),
            };
        },
    };
    // Collect the allocation result in candidate order.
    let mut allocations: Vec<TickerAndFraction> = Vec::new();
    let mut i: usize = 0;
    while i < portfolio.companies.len()
        invariant
            0 <= i <= portfolio.companies@.len(),
            allocations@.len() == i,
            forall|k: int|
                0 <= k < i as int ==> (#[trigger] allocations@[k]).ticker@
                    == portfolio.companies@[k].company.ticker@,
            forall|k: int|
                0 <= k < i as int ==> (#[trigger] allocations@[k]).fraction
                    == portfolio.companies@[k].fraction,
        decreases portfolio.companies@.len() - i,
    {
        allocations.push(
            TickerAndFraction {
                ticker: portfolio.companies[i].company.ticker.clone(),
                fraction: portfolio.companies[i].fraction,
            },
        );
        i = i + 1;
    }
    // Compute the portfolio statistics for the best solution.
    let outcomes = match all_outcomes(&portfolio) {
        Ok(o) => o,
        Err(e) => {
            proof {
                assert(outcome_count(with_zero_fractions(kept)) <= MAX_OUTCOMES as int);
                assert forall|k: int| 0 <= k < portfolio.companies@.len() implies count_of(
                    portfolio.companies@,
                    k,
                ) == count_of(with_zero_fractions(kept), k) by {
                    assert(portfolio.companies@[k].company == kept[k]);
                }
                crate::analysis::lemma_product_counts_eq(
                    portfolio.companies@,
                    with_zero_fractions(kept),
                    kept.len() as int,
                );
                assert(false);
            }
            return AllocationResponse { result: None, validation_problems: None, error: Some(e) };
        },
    };
    proof {
        assert forall|k: int| 0 <= k < portfolio.companies@.len() implies (
        #[trigger] portfolio.companies@[k]).company.scenarios@.len() > 0 by {
            lemma_kept_has_scenarios(kept[k]);
        }
    }
    let worst_case = worst_case_outcome(&portfolio);
    proof {
        assert(best_model is Some);
        let bx = best_model->Some_0;
        assert(portfolio.companies@ =~= Seq::new(
            kept.len(),
            |i: int| PortfolioCompany { company: kept[i], fraction: bx.0[i] },
        ));
        lemma_loss_probability_matches(portfolio.companies@, outcomes@, outcomes@.len() as int);
    }
    AllocationResponse {
        result: Some(
            AllocationResult {
                allocations,
                analysis: AnalysisResult {
                    worst_case_outcome: worst_case,
                    cumulative_probability_of_loss: cumulative_probability_of_loss(&outcomes),
                    expected_return: expected_return(&portfolio),
                },
            },
        ),
        validation_problems: Some(validation_problems),
        error: None,
    }}

/// Calculates the optimal allocation for the candidate companies.
///
/// Validation errors block the solver and are returned unchanged; warnings
/// drive the pre-solve filter.  The response carries either the allocation
/// and its analysis, or the validation problems, or a runtime error.
#[verifier::loop_isolation(false)]
#[verifier::rlimit(100)]
pub fn allocate(allocation_input: AllocationInput) -> (r: AllocationResponse)
    requires
        allocation_input.candidates@.len() <= MAX_CANDIDATES,
    ensures
        any_error(allocation_input_problems(allocation_input)) ==> {
            &&& r.result is None
            &&& r.error is None
            &&& r.validation_problems matches Some(v) && problems_match(
                v@,
                allocation_input_problems(allocation_input),
            )
        },
        (!any_error(allocation_input_problems(allocation_input)) && kept_candidates(
            allocation_input.candidates@,
            allocation_input.candidates@.len() as int,
        ).len() == 0) ==> {
            &&& r.result is None
            &&& r.error matches Some(e) && e.code@ == "no-valid-candidates-for-allocation"@
        },
        (!any_error(allocation_input_problems(allocation_input)) && kept_candidates(
            allocation_input.candidates@,
            allocation_input.candidates@.len() as int,
        ).len() > 0) ==> {
            let kept = kept_candidates(
                allocation_input.candidates@,
                allocation_input.candidates@.len() as int,
            );
            let ics = facade_constraints(allocation_input, kept.len() as int);
            let best = best_solution_to(
                uniform_portfolio(kept),
                ics,
                outcome_data_model(uniform_portfolio(kept)),
                MAX_ITER as int,
                pow2(ics.len() as int),
            );
            let too_many = ics.len() > MAX_CONSTRAINTS;
            let too_wide = outcome_count(with_zero_fractions(kept)) > MAX_OUTCOMES as int;
            &&& (too_many ==> (r.result is None && (r.error matches Some(e) && e.code@
                == "refusing-to-solve-more-than-4194304-systems"@)))
            &&& ((!too_many && too_wide) ==> (r.result is None && (r.error matches Some(e)
                && e.code@ == "more-than-fifty-thousand-outcomes"@)))
            &&& ((!too_many && !too_wide) ==> {
                &&& (r.result is Some <==> best is Some)
                &&& (r.result matches Some(res) ==> (best matches Some(bx) && {
                    let solved = Seq::new(
                        kept.len(),
                        |i: int| PortfolioCompany { company: kept[i], fraction: bx.0[i] },
                    );
                    &&& res.allocations@.len() == kept.len()
                    &&& (forall|i: int|
                        0 <= i < kept.len() ==> (#[trigger] res.allocations@[i]).ticker@
                            == kept[i].ticker@)
                    &&& (forall|i: int|
                        0 <= i < kept.len() ==> (#[trigger] res.allocations@[i]).fraction
                            == bx.0[i])
                    &&& res.analysis.expected_return as int == expected_return_to(
                        solved,
                        solved.len() as int,
                    )
                    &&& res.analysis.cumulative_probability_of_loss as int == cumulative_loss_spec(
                        solved,
                        outcome_count(solved),
                    )
                    &&& res.analysis.worst_case_outcome.probability as int == worst_probability_to(
                        solved,
                        solved.len() as int,
                    )
                    &&& res.analysis.worst_case_outcome.portfolio_return as int == worst_return_to(
                        solved,
                        solved.len() as int,
                    )
                    &&& res.analysis.worst_case_outcome.probability_weighted_return as int
                        == worst_weighted_to(solved, solved.len() as int)
                }))
                &&& (r.result is None ==> (r.error matches Some(e) && e.code@
                    == "did-not-find-a-single-viable-solution"@ && best is None))
            })
        },
{
    let validation_problems: Vec<ValidationResult> = validate(&allocation_input);
    let ghost problems_spec = allocation_input_problems(allocation_input);
    proof {
        lemma_errors_match(validation_problems@, problems_spec);
    }
    // Return immediately when there is at least one validation error.
    if contains_error_problem(&validation_problems) {
        return AllocationResponse {
            result: None,
            validation_problems: Some(validation_problems),
            error: None,
        };
    }
    let ghost input0 = allocation_input;
    let AllocationInput {
        candidates,
        long_only,
        max_permanent_loss_of_capital,
        max_individual_allocation,
        max_total_leverage_ratio,
    } = allocation_input;
    // Filter out candidates with a negative expected return (would imply
    // shorting) or without any downside (would drive an infinite bet).
    let ghost cand_seq = candidates@;
    let n_all = candidates.len();
    let mut rest = candidates;
    let mut filtered_candidates: Vec<Company> = Vec::new();
    let mut i: usize = 0;
    while i < n_all
        invariant
            0 <= i <= n_all,
            n_all == cand_seq.len(),
            rest@ == cand_seq.skip(i as int),
            filtered_candidates@ == kept_candidates(cand_seq, i as int),
            filtered_candidates@.len() <= i,
        decreases n_all - i,
    {
        let c = rest.remove(0);
        proof {
            assert(cand_seq.skip(i as int)[0] == cand_seq[i as int]);
            assert(cand_seq.skip(i as int).remove(0) =~= cand_seq.skip(i as int + 1));
        }
        let downside_validation = c.validate_no_downside_scenario();
        let negative_expected_return_validation = c.validate_negative_expected_return();
        let keep = match (&downside_validation, &negative_expected_return_validation) {
            (ValidationResult::OK, ValidationResult::OK) => true,
            _ => false,
        };
        if keep {
            filtered_candidates.push(c);
            proof {
                assert(filtered_candidates@ =~= kept_candidates(cand_seq, i as int + 1));
            }
        }
        i = i + 1;
    }
    // Return when no candidate is left after filtering.
    if filtered_candidates.len() == 0 {
        return AllocationResponse {
            result: None,
            validation_problems: Some(validation_problems),
            error: Some(
                Error {
                    code: String::from_str("no-valid-candidates-for-allocation"),
                    message: String::from_str(
                        "Found no valid candidates for allocation. Check your input.",
                    ),
                },
            ),
        };
    }
    let ghost kept = kept_candidates(cand_seq, cand_seq.len() as int);
    let n_filtered = filtered_candidates.len();
    let mut kelly_allocator = KellyAllocator::new(MAX_ITER);
    proof {
        lemma_kept_all_kept(cand_seq, cand_seq.len() as int);
        assert forall|k: int| 0 <= k < kept.len() implies (#[trigger] kept[k]).scenarios@.len()
            > 0 by {
            lemma_kept_has_scenarios(kept[k]);
        }
        assert(forall|j: int|
            0 <= j < kelly_allocator.inequality_constraints@.len() ==> constraint_applies(
                #[trigger] kelly_allocator.inequality_constraints@[j],
                filtered_candidates@,
            ));
    }
    // Add the requested constraints; the list built here is exactly
    // `facade_constraints`, segment by segment.
    let ghost seg_long = if input0.long_only matches Some(true) {
        Seq::new(
            n_filtered as nat,
            |k: int|
                InequalityConstraintKind::LongOnly(LongOnlyConstraint { fraction_index: k as usize }),
        )
    } else {
        Seq::<InequalityConstraintKind>::empty()
    };
    let ghost seg_cap = match input0.max_permanent_loss_of_capital {
        Some(cl) => seq![
            InequalityConstraintKind::MaxCapitalLoss(
                MaxCapitalLossConstraint {
                    probability_times_fraction_of_capital_lost: (neg_fx_spec(
                        mul_fx_spec(cl.fraction_of_capital as int, cl.probability_of_loss as int),
                    )) as i64,
                },
            ),
        ],
        None => Seq::<InequalityConstraintKind>::empty(),
    };
    let ghost seg_ind = match input0.max_individual_allocation {
        Some(f) => Seq::new(
            n_filtered as nat,
            |k: int|
                InequalityConstraintKind::MaximumIndividualAllocation(
                    MaximumIndividualAllocationConstraint {
                        fraction_index: k as usize,
                        max_allocation_fraction: f,
                    },
                ),
        ),
        None => Seq::<InequalityConstraintKind>::empty(),
    };
    let ghost seg_lev = match input0.max_total_leverage_ratio {
        Some(l) => seq![
            InequalityConstraintKind::MaximumTotalLeverage(
                MaximumTotalLeverageConstraint { max_leverage_ratio: l },
            ),
        ],
        None => Seq::<InequalityConstraintKind>::empty(),
    };
    let long_only_set = match &long_only {
        Some(b) => *b,
        None => false,
    };
    if long_only_set {
        let ghost ics0 = kelly_allocator.inequality_constraints@;
        kelly_allocator = kelly_allocator.with_long_only_constraints(n_filtered);
        proof {
            assert forall|j: int|
                0 <= j < kelly_allocator.inequality_constraints@.len() implies constraint_applies(
                #[trigger] kelly_allocator.inequality_constraints@[j],
                filtered_candidates@,
            ) by {
                if j >= ics0.len() {
                    let k = j - ics0.len();
                    assert(kelly_allocator.inequality_constraints@[ics0.len() + k]
                        == InequalityConstraintKind::LongOnly(
                        LongOnlyConstraint { fraction_index: k as usize },
                    ));
                }
            }
            assert forall|j: int|
                0 <= j < kelly_allocator.inequality_constraints@.len()
                implies #[trigger] kelly_allocator.inequality_constraints@[j] == seg_long[j] by {
                assert(kelly_allocator.inequality_constraints@[ics0.len() + j]
                    == InequalityConstraintKind::LongOnly(
                    LongOnlyConstraint { fraction_index: j as usize },
                ));
            }
            assert(kelly_allocator.inequality_constraints@ =~= seg_long);
        }
    } else {
        proof {
            assert(kelly_allocator.inequality_constraints@ =~= seg_long);
        }
    }
    match &max_permanent_loss_of_capital {
        Some(lc) => {
            proof {
                lemma_capital_loss_in_bounds(input0, *lc);
            }
            let ghost ics0 = kelly_allocator.inequality_constraints@;
            kelly_allocator = kelly_allocator.with_maximum_permanent_loss_constraint(lc.clone());
            proof {
                assert forall|j: int|
                    0 <= j < kelly_allocator.inequality_constraints@.len() implies constraint_applies(
                    #[trigger] kelly_allocator.inequality_constraints@[j],
                    filtered_candidates@,
                ) by {
                    if j >= ics0.len() {
                        assert(kelly_allocator.inequality_constraints@[ics0.len() as int]
                            == InequalityConstraintKind::MaxCapitalLoss(
                            MaxCapitalLossConstraint {
                                probability_times_fraction_of_capital_lost: (neg_fx_spec(
                                    mul_fx_spec(
                                        lc.fraction_of_capital as int,
                                        lc.probability_of_loss as int,
                                    ),
                                )) as i64,
                            },
                        ));
                    }
                }
                assert forall|j: int|
                    0 <= j < kelly_allocator.inequality_constraints@.len()
                    implies #[trigger] kelly_allocator.inequality_constraints@[j] == (seg_long
                    + seg_cap)[j] by {
                    if j >= ics0.len() {
                        assert(kelly_allocator.inequality_constraints@[ics0.len() as int]
                            == InequalityConstraintKind::MaxCapitalLoss(
                            MaxCapitalLossConstraint {
                                probability_times_fraction_of_capital_lost: (neg_fx_spec(
                                    mul_fx_spec(
                                        lc.fraction_of_capital as int,
                                        lc.probability_of_loss as int,
                                    ),
                                )) as i64,
                            },
                        ));
                    }
                }
                assert(kelly_allocator.inequality_constraints@ =~= seg_long + seg_cap);
            }
        },
        None => {
            proof {
                assert(kelly_allocator.inequality_constraints@ =~= seg_long + seg_cap);
            }
        },
    }
    match &max_individual_allocation {
        Some(max_f) => {
            proof {
                lemma_individual_cap_non_negative(input0, *max_f);
            }
            let ghost ics0 = kelly_allocator.inequality_constraints@;
            kelly_allocator = kelly_allocator.with_maximum_individual_allocation_constraint(
                n_filtered,
                *max_f,
            );
            proof {
                assert forall|j: int|
                    0 <= j < kelly_allocator.inequality_constraints@.len() implies constraint_applies(
                    #[trigger] kelly_allocator.inequality_constraints@[j],
                    filtered_candidates@,
                ) by {
                    if j >= ics0.len() {
                        let k = j - ics0.len();
                        assert(kelly_allocator.inequality_constraints@[ics0.len() + k]
                            == InequalityConstraintKind::MaximumIndividualAllocation(
                            MaximumIndividualAllocationConstraint {
                                fraction_index: k as usize,
                                max_allocation_fraction: *max_f,
                            },
                        ));
                    }
                }
                assert forall|j: int|
                    0 <= j < kelly_allocator.inequality_constraints@.len()
                    implies #[trigger] kelly_allocator.inequality_constraints@[j] == (seg_long
                    + seg_cap + seg_ind)[j] by {
                    if j >= ics0.len() {
                        let k = j - ics0.len();
                        assert(kelly_allocator.inequality_constraints@[ics0.len() + k]
                            == InequalityConstraintKind::MaximumIndividualAllocation(
                            MaximumIndividualAllocationConstraint {
                                fraction_index: k as usize,
                                max_allocation_fraction: *max_f,
                            },
                        ));
                    }
                }
                assert(kelly_allocator.inequality_constraints@ =~= seg_long + seg_cap + seg_ind);
            }
        },
        None => {
            proof {
                assert(kelly_allocator.inequality_constraints@ =~= seg_long + seg_cap + seg_ind);
            }
        },
    }
    match &max_total_leverage_ratio {
        Some(max_lr) => {
            proof {
                lemma_leverage_cap_non_negative(input0, *max_lr);
            }
            let ghost ics0 = kelly_allocator.inequality_constraints@;
            kelly_allocator = kelly_allocator.with_maximum_total_leverage_constraint(
                n_filtered,
                *max_lr,
            );
            proof {
                assert forall|j: int|
                    0 <= j < kelly_allocator.inequality_constraints@.len() implies constraint_applies(
                    #[trigger] kelly_allocator.inequality_constraints@[j],
                    filtered_candidates@,
                ) by {
                    if j >= ics0.len() {
                        assert(kelly_allocator.inequality_constraints@[ics0.len() as int]
                            == InequalityConstraintKind::MaximumTotalLeverage(
                            MaximumTotalLeverageConstraint { max_leverage_ratio: *max_lr },
                        ));
                    }
                }
                assert forall|j: int|
                    0 <= j < kelly_allocator.inequality_constraints@.len()
                    implies #[trigger] kelly_allocator.inequality_constraints@[j] == (seg_long
                    + seg_cap + seg_ind + seg_lev)[j] by {
                    if j >= ics0.len() {
                        assert(kelly_allocator.inequality_constraints@[ics0.len() as int]
                            == InequalityConstraintKind::MaximumTotalLeverage(
                            MaximumTotalLeverageConstraint { max_leverage_ratio: *max_lr },
                        ));
                    }
                }
                assert(kelly_allocator.inequality_constraints@ =~= seg_long + seg_cap + seg_ind
                    + seg_lev);
            }
        },
        None => {
            proof {
                assert(kelly_allocator.inequality_constraints@ =~= seg_long + seg_cap + seg_ind
                    + seg_lev);
            }
        },
    }
    return run_allocation(
        kelly_allocator,
        filtered_candidates,
        validation_problems,
        Ghost(input0),
    );
}

/// Calculates statistics for a given portfolio: the worst-case outcome,
/// the cumulative probability of loss and the expected return.
pub fn analyze(portfolio: Portfolio) -> (r: AnalysisResponse)
    requires
        portfolio.companies@.len() > 0,
        forall|i: int|
            0 <= i < portfolio.companies@.len() ==> (
            #[trigger] portfolio.companies@[i]).company.scenarios@.len() > 0,
    ensures
        outcome_count(portfolio.companies@) > MAX_OUTCOMES as int ==> {
            &&& r.result is None
            &&& r.error matches Some(e) && e.code@ == "more-than-fifty-thousand-outcomes"@
        },
        outcome_count(portfolio.companies@) <= MAX_OUTCOMES as int ==> {
            &&& r.error is None
            &&& r.result matches Some(res) && {
                let cs = portfolio.companies@;
                &&& res.expected_return as int == expected_return_to(cs, cs.len() as int)
                &&& res.cumulative_probability_of_loss as int == cumulative_loss_spec(
                    cs,
                    outcome_count(cs),
                )
                &&& res.worst_case_outcome.probability as int == worst_probability_to(
                    cs,
                    cs.len() as int,
                )
                &&& res.worst_case_outcome.portfolio_return as int == worst_return_to(
                    cs,
                    cs.len() as int,
                )
                &&& res.worst_case_outcome.probability_weighted_return as int == worst_weighted_to(
                    cs,
                    cs.len() as int,
                )
            }
        },
{
    let outcomes = match all_outcomes(&portfolio) {
        Ok(o) => o,
        Err(e) => {
            return AnalysisResponse { result: None, error: Some(e) };
        },
    };
    let worst_case = worst_case_outcome(&portfolio);
    let cumulative = cumulative_probability_of_loss(&outcomes);
    proof {
        lemma_loss_probability_matches(
            portfolio.companies@,
            outcomes@,
            outcomes@.len() as int,
        );
    }
    AnalysisResponse {
        result: Some(
            AnalysisResult {
                worst_case_outcome: worst_case,
                cumulative_probability_of_loss: cumulative,
                expected_return: expected_return(&portfolio),
            },
        ),
        error: None,
    }
}

} // verus!
