//! Tests for the cross-cutting properties of the allocator: probability
//! conservation, constraint satisfaction, determinism, symmetry and
//! monotonicity, and the behaviour of the allocation facade.

use charlie::allocate;
use charlie::analysis::{all_outcomes, expected_return};
use charlie::kelly_allocation::{KellyAllocator, MAX_ITER, SOLVER_TOLERANCE};
use charlie::model::company::{Company, TOLERANCE};
use charlie::model::portfolio::AllocationInput;
use charlie::model::scenario::Scenario;

fn fx(x: f64) -> i64 {
    (x * 1e10).round() as i64
}

fn money(x: f64) -> i64 {
    (x * 100.0).round() as i64
}

fn val(units: i64) -> f64 {
    units as f64 / 1e10
}

const ASSERTION_TOLERANCE: f64 = SOLVER_TOLERANCE as f64 / 1e10;

fn scenario(thesis: &str, intrinsic_value: f64, probability: f64) -> Scenario {
    Scenario {
        thesis: thesis.to_string(),
        intrinsic_value: money(intrinsic_value),
        probability: fx(probability),
    }
}

fn company(name: &str, ticker: &str, market_cap: f64, scenarios: Vec<Scenario>) -> Company {
    Company {
        name: name.to_string(),
        ticker: ticker.to_string(),
        description: name.to_string(),
        market_cap: money(market_cap),
        scenarios,
    }
}

fn two_company_candidates() -> Vec<Company> {
    vec![
        company(
            "A",
            "A",
            1e7,
            vec![scenario("A1", 2e7, 0.5), scenario("A2", 5e6, 0.5)],
        ),
        company(
            "B",
            "B",
            1e7,
            vec![scenario("B1", 1.5e7, 0.7), scenario("B2", 7e6, 0.3)],
        ),
    ]
}

/// The enumerated outcome probabilities of a portfolio whose per-company
/// probabilities sum to one themselves sum to one within the tolerance.
#[test]
fn test_outcome_probabilities_sum_to_one() {
    let portfolio = KellyAllocator::new(MAX_ITER)
        .allocate(two_company_candidates())
        .unwrap();
    let outcomes = all_outcomes(&portfolio).unwrap();

    assert_eq!(outcomes.len(), 4);
    let sum: i64 = outcomes.iter().map(|o| o.probability).sum();
    assert!((sum - fx(1.0)).abs() <= TOLERANCE);
}

/// All returned fractions of a long-only run clear `-TOLERANCE`.
#[test]
fn test_long_only_fractions_are_non_negative() {
    let mut candidates = two_company_candidates();
    // Flip B to a negative expectation so that the constraint binds.
    candidates[1].scenarios[0].probability = fx(0.1);
    candidates[1].scenarios[1].probability = fx(0.9);

    let portfolio = KellyAllocator::new(MAX_ITER)
        .with_long_only_constraints(candidates.len())
        .allocate(candidates)
        .unwrap();

    for pc in &portfolio.companies {
        assert!(pc.fraction >= -TOLERANCE);
    }
}

/// Under a zero total-leverage cap the fractions sum to at most one plus
/// the solver tolerance.
#[test]
fn test_zero_leverage_cap_bounds_fraction_sum() {
    let portfolio = KellyAllocator::new(MAX_ITER)
        .with_maximum_total_leverage_constraint(2, fx(0.0))
        .allocate(two_company_candidates())
        .unwrap();

    let sum: i64 = portfolio.companies.iter().map(|pc| pc.fraction).sum();
    assert!(val(sum) <= 1.0 + ASSERTION_TOLERANCE);
}

/// Under a per-company cap every fraction stays at most the cap plus the
/// solver tolerance.
#[test]
fn test_individual_allocation_cap_bounds_each_fraction() {
    let cap = 0.3;
    let portfolio = KellyAllocator::new(MAX_ITER)
        .with_maximum_individual_allocation_constraint(2, fx(cap))
        .allocate(two_company_candidates())
        .unwrap();

    for pc in &portfolio.companies {
        assert!(val(pc.fraction) <= cap + ASSERTION_TOLERANCE);
    }
}

/// Rerunning the allocator on identical input yields the same fractions,
/// bit for bit.
#[test]
fn test_allocation_is_deterministic() {
    let first = KellyAllocator::new(MAX_ITER)
        .with_long_only_constraints(2)
        .allocate(two_company_candidates())
        .unwrap();
    let second = KellyAllocator::new(MAX_ITER)
        .with_long_only_constraints(2)
        .allocate(two_company_candidates())
        .unwrap();

    assert_eq!(first.companies.len(), second.companies.len());
    for (a, b) in first.companies.iter().zip(second.companies.iter()) {
        assert_eq!(a.fraction, b.fraction);
    }
}

/// Two candidates with identical scenarios and distinct tickers receive
/// equal fractions.
#[test]
fn test_duplicated_candidate_receives_equal_fractions() {
    let candidates = vec![
        company(
            "A",
            "A",
            1e7,
            vec![scenario("A1", 2e7, 0.5), scenario("A2", 5e6, 0.5)],
        ),
        company(
            "A twin",
            "A2",
            1e7,
            vec![scenario("A1", 2e7, 0.5), scenario("A2", 5e6, 0.5)],
        ),
    ];
    let portfolio = KellyAllocator::new(MAX_ITER).allocate(candidates).unwrap();

    assert_eq!(portfolio.companies.len(), 2);
    let f0 = val(portfolio.companies[0].fraction);
    let f1 = val(portfolio.companies[1].fraction);
    assert!((f0 - f1).abs() < ASSERTION_TOLERANCE);
}

/// Scaling every market capitalisation and every intrinsic value by the
/// same factor leaves the fractions unchanged.
#[test]
fn test_uniform_scaling_leaves_fractions_unchanged() {
    let base = KellyAllocator::new(MAX_ITER)
        .allocate(two_company_candidates())
        .unwrap();

    let mut scaled_candidates = two_company_candidates();
    for c in scaled_candidates.iter_mut() {
        c.market_cap = c.market_cap * 10;
        for s in c.scenarios.iter_mut() {
            s.intrinsic_value = s.intrinsic_value * 10;
        }
    }
    let scaled = KellyAllocator::new(MAX_ITER)
        .allocate(scaled_candidates)
        .unwrap();

    for (a, b) in base.companies.iter().zip(scaled.companies.iter()) {
        assert_eq!(a.fraction, b.fraction);
    }
}

/// Adding a dominated candidate to a long-only run does not increase the
/// expected return of the optimal allocation.
#[test]
fn test_dominated_candidate_does_not_increase_expected_return() {
    let base_candidates = two_company_candidates();
    let base = KellyAllocator::new(MAX_ITER)
        .with_long_only_constraints(base_candidates.len())
        .allocate(base_candidates)
        .unwrap();
    let base_expected = expected_return(&base);

    let mut extended_candidates = two_company_candidates();
    extended_candidates.push(company(
        "Dominated",
        "D",
        1e7,
        vec![scenario("D1", 1.2e7, 0.5), scenario("D2", 4e6, 0.5)],
    ));
    let extended = KellyAllocator::new(MAX_ITER)
        .with_long_only_constraints(extended_candidates.len())
        .allocate(extended_candidates)
        .unwrap();
    let extended_expected = expected_return(&extended);

    assert!(val(extended_expected) <= val(base_expected) + ASSERTION_TOLERANCE);
}

/// At an unconstrained solution the Kelly stationarity residual vanishes,
/// also with a three-scenario company in the mix.
#[test]
fn test_unconstrained_solution_is_stationary() {
    let candidates = vec![
        company(
            "A",
            "A",
            1e7,
            vec![scenario("A1", 2e7, 0.5), scenario("A2", 5e6, 0.5)],
        ),
        company(
            "T",
            "T",
            1e7,
            vec![
                scenario("T1", 2.5e7, 0.2),
                scenario("T2", 1.1e7, 0.5),
                scenario("T3", 6e6, 0.3),
            ],
        ),
    ];
    let portfolio = KellyAllocator::new(MAX_ITER).allocate(candidates).unwrap();
    let outcomes = all_outcomes(&portfolio).unwrap();
    let residual = KellyAllocator::criterion(&outcomes, &portfolio);

    for r in residual {
        assert!(val(r).abs() < 1e-4);
    }
}

/// More than 22 inequality constraints are refused up front.
#[test]
fn test_too_many_constraints_are_refused() {
    let mut candidates: Vec<Company> = Vec::new();
    for i in 0..12 {
        candidates.push(company(
            &format!("C{i}"),
            &format!("C{i}"),
            1e7,
            vec![
                scenario("Up", 2e7, 0.5),
                scenario("Down", 5e6, 0.5),
            ],
        ));
    }
    // 12 long-only plus 12 individual caps: 24 constraints.
    let e = KellyAllocator::new(MAX_ITER)
        .with_long_only_constraints(candidates.len())
        .with_maximum_individual_allocation_constraint(candidates.len(), fx(0.3))
        .allocate(candidates)
        .err()
        .unwrap();

    assert_eq!(e.code, "refusing-to-solve-more-than-4194304-systems");
}

/// The facade returns the allocation for a clean input.
#[test]
fn test_facade_allocate_two_companies() {
    let input = AllocationInput {
        candidates: two_company_candidates(),
        long_only: None,
        max_permanent_loss_of_capital: None,
        max_individual_allocation: None,
        max_total_leverage_ratio: None,
    };
    let response = allocate(input);

    assert!(response.error.is_none());
    let result = response.result.unwrap();
    assert_eq!(result.allocations.len(), 2);
    assert_eq!(result.allocations[0].ticker, "A");
    assert_eq!(result.allocations[1].ticker, "B");
    assert!((val(result.allocations[0].fraction) - 0.3592684).abs() < ASSERTION_TOLERANCE);
    assert!((val(result.allocations[1].fraction) - 1.6299235).abs() < ASSERTION_TOLERANCE);
    assert!((val(result.analysis.expected_return) - 0.5135972).abs() < ASSERTION_TOLERANCE);
}

/// The facade blocks the run and returns the problems when validation
/// finds an error.
#[test]
fn test_facade_allocate_with_validation_error() {
    let mut candidates = two_company_candidates();
    candidates[0].scenarios[0].probability = fx(0.48);
    let input = AllocationInput {
        candidates,
        long_only: None,
        max_permanent_loss_of_capital: None,
        max_individual_allocation: None,
        max_total_leverage_ratio: None,
    };
    let response = allocate(input);

    assert!(response.result.is_none());
    assert!(response.error.is_none());
    let problems = response.validation_problems.unwrap();
    assert!(problems.iter().any(|p| match p {
        charlie::validation::result::ValidationResult::PROBLEM(problem) =>
            problem.code == "probabilities-for-all-scenarios-do-not-sum-up-to-one",
        _ => false,
    }));
}

/// The facade reports when every candidate is filtered out.
#[test]
fn test_facade_allocate_with_no_candidates_after_filtering() {
    // A company with no downside is filtered out with a warning.
    let input = AllocationInput {
        candidates: vec![company(
            "No downside",
            "ND",
            1e7,
            vec![scenario("Flat", 1e7, 0.5), scenario("Up", 2e7, 0.5)],
        )],
        long_only: None,
        max_permanent_loss_of_capital: None,
        max_individual_allocation: None,
        max_total_leverage_ratio: None,
    };
    let response = allocate(input);

    assert!(response.result.is_none());
    let e = response.error.unwrap();
    assert_eq!(e.code, "no-valid-candidates-for-allocation");
    assert_eq!(
        e.message,
        "Found no valid candidates for allocation. Check your input."
    );
}

/// The facade applies the capital-loss constraint together with the
/// long-only constraint.
#[test]
fn test_facade_allocate_with_capital_loss_constraint() {
    let input = AllocationInput {
        candidates: two_company_candidates(),
        long_only: Some(true),
        max_permanent_loss_of_capital: Some(
            charlie::model::capital_loss::CapitalLoss {
                fraction_of_capital: fx(0.2),
                probability_of_loss: fx(0.1),
            },
        ),
        max_individual_allocation: None,
        max_total_leverage_ratio: None,
    };
    let response = allocate(input);

    assert!(response.error.is_none());
    let result = response.result.unwrap();
    assert_eq!(result.allocations.len(), 2);
    assert!((val(result.allocations[0].fraction) - 0.0).abs() < ASSERTION_TOLERANCE);
    assert!((val(result.allocations[1].fraction) - 0.222222).abs() < ASSERTION_TOLERANCE);
    assert!(
        (val(result.analysis.worst_case_outcome.probability_weighted_return) - (-0.02)).abs()
            < ASSERTION_TOLERANCE
    );
}

/// The analysis entry point reports the outcome ceiling.
#[test]
fn test_facade_analyze_with_too_many_outcomes() {
    let mut companies = Vec::new();
    for i in 0..16 {
        companies.push(charlie::model::portfolio::PortfolioCompany {
            company: company(
                &format!("C{i}"),
                &format!("C{i}"),
                1e7,
                vec![scenario("Up", 2e7, 0.5), scenario("Down", 5e6, 0.5)],
            ),
            fraction: fx(0.0625),
        });
    }
    let portfolio = charlie::model::portfolio::Portfolio { companies };
    let response = charlie::analyze(portfolio);

    assert!(response.result.is_none());
    assert_eq!(response.error.unwrap().code, "more-than-fifty-thousand-outcomes");
}

/// The facade analysis entry point computes the statistics.
#[test]
fn test_facade_analyze() {
    let portfolio = KellyAllocator::new(MAX_ITER)
        .allocate(two_company_candidates())
        .unwrap();
    let response = charlie::analyze(portfolio);

    assert!(response.error.is_none());
    let result = response.result.unwrap();
    assert!((val(result.expected_return) - 0.5135972).abs() < ASSERTION_TOLERANCE);
    assert!(
        (val(result.worst_case_outcome.probability_weighted_return) - (-0.2365102)).abs()
            < ASSERTION_TOLERANCE
    );
}
