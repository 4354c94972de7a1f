//! Tests for the constrained Kelly allocator.

use charlie::analysis::{expected_return, worst_case_outcome, Outcome};
use charlie::kelly_allocation::{KellyAllocator, MAX_ITER, SOLVER_TOLERANCE};
use charlie::model::capital_loss::CapitalLoss;
use charlie::model::company::Company;
use charlie::model::portfolio::{Portfolio, PortfolioCompany};
use charlie::model::scenario::Scenario;

/// One fixed-point ratio unit is 1e-10.
fn fx(x: f64) -> i64 {
    (x * 1e10).round() as i64
}

/// One fixed-point money unit is a hundredth.
fn money(x: f64) -> i64 {
    (x * 100.0).round() as i64
}

fn val(units: i64) -> f64 {
    units as f64 / 1e10
}

/// Make assertion tolerance the same as the fraction tolerance (no point
/// in more accuracy).
const ASSERTION_TOLERANCE: f64 = SOLVER_TOLERANCE as f64 / 1e10;

fn assert_close(expected: f64, actual_units: i64, tolerance: f64) {
    let actual = val(actual_units);
    assert!(
        (actual - expected).abs() < tolerance,
        "Expected close to {}, got {}, which is outside of tolerance {}",
        expected,
        actual,
        tolerance
    );
}

fn scenario(thesis: &str, intrinsic_value: f64, probability: f64) -> Scenario {
    Scenario {
        thesis: thesis.to_string(),
        intrinsic_value: money(intrinsic_value),
        probability: fx(probability),
    }
}

/// Helper function for defining test candidates.
fn generate_test_candidates() -> Vec<Company> {
    vec![
        Company {
            name: "A".to_string(),
            ticker: "A".to_string(),
            description: "A bet with 100% upside and 50% downside, with probabilities 50-50"
                .to_string(),
            market_cap: money(1e7),
            scenarios: vec![scenario("A1", 2e7, 0.5), scenario("A2", 5e6, 0.5)],
        },
        Company {
            name: "B".to_string(),
            ticker: "B".to_string(),
            description:
                "A bet with 50% upside with 70% probability, and 30% downside with 30% probability"
                    .to_string(),
            market_cap: money(1e7),
            scenarios: vec![scenario("B1", 1.5e7, 0.7), scenario("B2", 7e6, 0.3)],
        },
    ]
}

/// Helper function for generating test data used in unit tests.
fn generate_test_data(test_candidates: &Vec<Company>) -> (Portfolio, Vec<Outcome>) {
    let portfolio = Portfolio {
        companies: vec![
            PortfolioCompany {
                company: test_candidates[0].clone(),
                fraction: fx(0.5),
            },
            PortfolioCompany {
                company: test_candidates[1].clone(),
                fraction: fx(0.5),
            },
        ],
    };

    let outcomes = vec![
        // Events A1 and B1
        Outcome {
            weighted_return: fx(0.75),
            probability: fx(0.35),
            company_returns: vec![fx(1.0), fx(0.5)],
        },
        // Events A1 and B2
        Outcome {
            weighted_return: fx(0.35),
            probability: fx(0.15),
            company_returns: vec![fx(1.0), fx(-0.3)],
        },
        // Events A2 and B1
        Outcome {
            weighted_return: fx(0.0),
            probability: fx(0.35),
            company_returns: vec![fx(-0.5), fx(0.5)],
        },
        // Events A2 and B2
        Outcome {
            weighted_return: fx(-0.4),
            probability: fx(0.15),
            company_returns: vec![fx(-0.5), fx(-0.3)],
        },
    ];

    (portfolio, outcomes)
}

#[test]
fn kelly_allocation_test_kelly() {
    let test_candidates = generate_test_candidates();
    let (portfolio, outcomes) = generate_test_data(&test_candidates);

    let kelly = KellyAllocator::criterion(&outcomes, &portfolio);

    assert_close(0.011111111, kelly[0], ASSERTION_TOLERANCE);
    assert_close(0.166666666, kelly[1], ASSERTION_TOLERANCE);
}

#[test]
fn kelly_allocation_test_kelly_jacobian() {
    let test_candidates = generate_test_candidates();
    let (portfolio, outcomes) = generate_test_data(&test_candidates);

    let jacobian = KellyAllocator::criterion_jacobian(&outcomes, &portfolio);

    assert_close(-0.388256908, jacobian[0 * 2 + 0], ASSERTION_TOLERANCE);
    assert_close(-0.007451499, jacobian[0 * 2 + 1], ASSERTION_TOLERANCE);
    assert_close(-0.007451499, jacobian[1 * 2 + 0], ASSERTION_TOLERANCE);
    assert_close(-0.160978836, jacobian[1 * 2 + 1], ASSERTION_TOLERANCE);
}

/// Asserts results for a simple allocation problem with two companies,
/// each with two scenarios.
#[test]
fn kelly_allocation_test_allocate() {
    let test_candidates = generate_test_candidates();
    let portfolio = KellyAllocator::new(MAX_ITER)
        .allocate(test_candidates)
        .unwrap();

    assert_eq!(portfolio.companies.len(), 2);
    assert_close(
        0.3592684433098152,
        portfolio.companies[0].fraction,
        ASSERTION_TOLERANCE,
    );
    assert_close(
        1.629923469755913,
        portfolio.companies[1].fraction,
        ASSERTION_TOLERANCE,
    );

    let expected = expected_return(&portfolio);
    assert_close(0.5135972129639912, expected, ASSERTION_TOLERANCE);

    let risk_of_capital_loss = worst_case_outcome(&portfolio).probability_weighted_return;
    assert_close(-0.23651022310548597, risk_of_capital_loss, ASSERTION_TOLERANCE);
}

/// Test allocate with long-only constraint given two candidates, one of
/// which has a negative expected return (which would result in a short
/// position if there were no constraint).
#[test]
fn test_allocate_long_only() {
    let mut test_candidates = generate_test_candidates();
    test_candidates[1].scenarios[0].probability = fx(0.1);
    test_candidates[1].scenarios[1].probability = fx(0.9);

    let portfolio = KellyAllocator::new(MAX_ITER)
        .with_long_only_constraints(test_candidates.len())
        .allocate(test_candidates)
        .unwrap();

    assert_eq!(portfolio.companies.len(), 2);
    assert_close(0.5, portfolio.companies[0].fraction, ASSERTION_TOLERANCE);
    assert_close(0.0, portfolio.companies[1].fraction, ASSERTION_TOLERANCE);

    let expected = expected_return(&portfolio);
    assert_close(0.125, expected, ASSERTION_TOLERANCE);

    let risk_of_capital_loss = worst_case_outcome(&portfolio).probability_weighted_return;
    assert_close(-0.125, risk_of_capital_loss, ASSERTION_TOLERANCE);
}

/// Tests that allocation with a capital allocation constraint but without
/// a long-only constraint is not supported.
#[test]
fn test_allocate_with_capital_loss_constraint_but_no_long_only_constraint_is_not_supported() {
    let test_candidates = generate_test_candidates();
    let capital_loss_constraint = CapitalLoss {
        probability_of_loss: fx(1e-5),
        fraction_of_capital: fx(0.1),
    };
    let e = KellyAllocator::new(MAX_ITER)
        .with_maximum_permanent_loss_constraint(capital_loss_constraint)
        .allocate(test_candidates)
        .err()
        .unwrap();

    assert_eq!(
        e.code,
        "maximum-capital-loss-constraint-works-only-with-long-only-strategy"
    );
    assert!(e.message.contains(
        "Maximum capital loss constraint can work only with long-only strategy (constraint). Either remove the capital loss constraint or add the long-only constraint."
    ));
}

/// Tests allocation with a capital loss constraint and long-only
/// constraints.
#[test]
fn test_allocate_with_capital_loss_constraint_active_long_only_active() {
    let test_candidates = generate_test_candidates();
    // You can read this as: "I'm ok with losing 20% of the capital with 10%
    // probability".
    let capital_loss_constraint = CapitalLoss {
        probability_of_loss: fx(0.1),
        fraction_of_capital: fx(0.2),
    };
    let portfolio = KellyAllocator::new(MAX_ITER)
        .with_long_only_constraints(test_candidates.len())
        .with_maximum_permanent_loss_constraint(capital_loss_constraint)
        .allocate(test_candidates)
        .unwrap();

    assert_eq!(portfolio.companies.len(), 2);
    assert_close(0.0, portfolio.companies[0].fraction, ASSERTION_TOLERANCE);
    assert_close(0.222222, portfolio.companies[1].fraction, ASSERTION_TOLERANCE);

    let expected = expected_return(&portfolio);
    assert_close(0.057778, expected, ASSERTION_TOLERANCE);

    let risk_of_capital_loss = worst_case_outcome(&portfolio).probability_weighted_return;
    assert_close(-0.02, risk_of_capital_loss, ASSERTION_TOLERANCE);
}

/// Tests allocation with a maximum individual allocation constraint of 0.3
/// (meaning that we cannot put more than 30% of assets in a single
/// company).
#[test]
fn test_allocate_with_maximum_individual_allocation_constraint() {
    let test_candidates = generate_test_candidates();
    let portfolio = KellyAllocator::new(MAX_ITER)
        .with_maximum_individual_allocation_constraint(test_candidates.len(), fx(0.3))
        .allocate(test_candidates)
        .unwrap();

    assert_eq!(portfolio.companies.len(), 2);
    assert_close(0.3, portfolio.companies[0].fraction, ASSERTION_TOLERANCE);
    assert_close(0.3, portfolio.companies[1].fraction, ASSERTION_TOLERANCE);

    let expected = expected_return(&portfolio);
    assert_close(0.153, expected, ASSERTION_TOLERANCE);

    let risk_of_capital_loss = worst_case_outcome(&portfolio).probability_weighted_return;
    assert_close(-0.102, risk_of_capital_loss, ASSERTION_TOLERANCE);
}

/// Tests allocation with a maximum total leverage ratio of 0 (no
/// leverage).
#[test]
fn test_allocate_with_maximum_total_leverage_constraint() {
    let test_candidates = generate_test_candidates();
    let portfolio = KellyAllocator::new(MAX_ITER)
        .with_maximum_total_leverage_constraint(test_candidates.len(), fx(0.0))
        .allocate(test_candidates)
        .unwrap();

    assert_eq!(portfolio.companies.len(), 2);
    assert_close(0.195887, portfolio.companies[0].fraction, ASSERTION_TOLERANCE);
    assert_close(0.804113, portfolio.companies[1].fraction, ASSERTION_TOLERANCE);

    let expected = expected_return(&portfolio);
    assert_close(0.258041, expected, ASSERTION_TOLERANCE);

    let risk_of_capital_loss = worst_case_outcome(&portfolio).probability_weighted_return;
    assert_close(-0.121342, risk_of_capital_loss, ASSERTION_TOLERANCE);
}

#[test]
fn test_allocate_with_one_short_result() {
    let mut test_candidates = generate_test_candidates();
    test_candidates.push(Company {
        name: "Stupid investment".to_string(),
        ticker: "SI".to_string(),
        description: "A bet with 50% upside and 100% downside, with probabilities 50-50"
            .to_string(),
        market_cap: money(1e7),
        scenarios: vec![scenario("Ok", 1.5e7, 0.5), scenario("Bad", 0.0, 0.5)],
    });

    let portfolio = KellyAllocator::new(MAX_ITER)
        .allocate(test_candidates)
        .unwrap();

    assert_eq!(portfolio.companies.len(), 3);
    assert_close(0.323636, portfolio.companies[0].fraction, ASSERTION_TOLERANCE);
    assert_close(1.535812, portfolio.companies[1].fraction, ASSERTION_TOLERANCE);
    assert_close(-0.323635, portfolio.companies[2].fraction, ASSERTION_TOLERANCE);
}

#[test]
fn kelly_allocation_test_allocate_for_a_single_company() {
    let test_candidates = vec![Company {
        name: "A".to_string(),
        ticker: "A".to_string(),
        description: "A bet with 100% upside and 50% downside, with probabilities 50-50"
            .to_string(),
        market_cap: money(1e7),
        scenarios: vec![scenario("A1", 2e7, 0.5), scenario("A2", 5e6, 0.5)],
    }];

    let portfolio = KellyAllocator::new(MAX_ITER)
        .allocate(test_candidates)
        .unwrap();

    assert_eq!(portfolio.companies.len(), 1);
    assert_close(0.5, portfolio.companies[0].fraction, ASSERTION_TOLERANCE);
}

#[test]
fn kelly_allocation_test_allocate_for_a_single_company_stiff_system() {
    let test_candidates = vec![Company {
        name: "A".to_string(),
        ticker: "A".to_string(),
        description: "A bet with 10x upside and 1% downside, with probabilities 90-10"
            .to_string(),
        market_cap: money(1e7),
        scenarios: vec![scenario("A1", 1e8, 0.9), scenario("A2", 0.99e7, 0.1)],
    }];

    let portfolio = KellyAllocator::new(MAX_ITER)
        .allocate(test_candidates)
        .unwrap();

    assert_eq!(portfolio.companies.len(), 1);
    assert_close(89.988889, portfolio.companies[0].fraction, ASSERTION_TOLERANCE);
}

#[test]
fn kelly_allocation_test_allocate_returns_an_error_when_maximum_iterations_exceeded() {
    let e = KellyAllocator::new(1)
        .allocate(generate_test_candidates())
        .err()
        .unwrap();
    assert_eq!(e.code, "did-not-find-a-single-viable-solution");
    assert!(e
        .message
        .contains("Did not manage to find a single viable numerical solution."));
    assert!(e
        .message
        .contains("Did not manage to find the numerical solution."));
}

#[test]
fn kelly_allocation_test_allocate_returns_an_error_with_a_candidate_with_no_downside() {
    let mut test_candidates = generate_test_candidates();
    test_candidates.push(Company {
        name: "Best investment that implies infinite bet".to_string(),
        ticker: "BI".to_string(),
        description: "A bet with 10x upside and no downside".to_string(),
        market_cap: money(1.0e7),
        scenarios: vec![
            scenario("10x upside", 1.0e8, 0.5),
            scenario("No downside", 1.0e7, 0.5),
        ],
    });

    let e = KellyAllocator::new(MAX_ITER)
        .allocate(test_candidates)
        .err()
        .unwrap();
    assert_eq!(e.code, "did-not-find-a-single-viable-solution");
    assert!(e
        .message
        .contains("Did not manage to find a single viable numerical solution."));
    assert!(e
        .message
        .contains("Did not manage to find the numerical solution."));
}
