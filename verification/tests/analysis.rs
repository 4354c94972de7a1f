//! Tests for outcome enumeration and the portfolio statistics.

use charlie::analysis::{
    all_outcomes, cumulative_probability_of_loss, expected_return, worst_case_outcome, Outcome,
};
use charlie::model::company::{Company, TOLERANCE};
use charlie::model::portfolio::{Portfolio, PortfolioCompany};
use charlie::model::scenario::Scenario;

fn fx(x: f64) -> i64 {
    (x * 1e10).round() as i64
}

fn money(x: f64) -> i64 {
    (x * 100.0).round() as i64
}

fn val(units: i64) -> f64 {
    units as f64 / 1e10
}

/// The comparison tolerance matching the fixed-point unit.
const UNIT_TOLERANCE: f64 = TOLERANCE as f64 / 1e10;

fn assert_close(expected: f64, actual_units: i64, tolerance: f64) {
    let actual = val(actual_units);
    assert!(
        (actual - expected).abs() <= tolerance,
        "Expected close to {}, got {}, which is outside of tolerance {}",
        expected,
        actual,
        tolerance
    );
}

fn scenario(thesis: &str, intrinsic_value: f64, probability: f64) -> Scenario {
    Scenario {
        thesis: thesis.to_string(),
        intrinsic_value: money(intrinsic_value),
        probability: fx(probability),
    }
}

fn outcomes_close(actual: &Vec<Outcome>, expected: &Vec<Outcome>) -> bool {
    actual.len() == expected.len()
        && actual.iter().zip(expected.iter()).all(|(a, e)| {
            (a.weighted_return - e.weighted_return).abs() <= TOLERANCE
                && (a.probability - e.probability).abs() <= TOLERANCE
                && a.company_returns.len() == e.company_returns.len()
                && a
                    .company_returns
                    .iter()
                    .zip(e.company_returns.iter())
                    .all(|(x, y)| (x - y).abs() <= TOLERANCE)
        })
}

/// A helper that creates a portfolio with three assets used in a couple of
/// tests.
fn get_test_portfolio_with_three_assets() -> Portfolio {
    Portfolio {
        companies: vec![
            // Fair coin flip
            PortfolioCompany {
                company: Company {
                    name: "Fair coin flip".to_string(),
                    ticker: "A".to_string(),
                    description: "Something we should never invest into".to_string(),
                    market_cap: money(1e6),
                    scenarios: vec![scenario("Head", 2e6, 0.5), scenario("Tail", 0.0, 0.5)],
                },
                fraction: fx(0.2),
            },
            // Biased coin flip with 30% allocation
            PortfolioCompany {
                company: Company {
                    name: "Biased coin flip".to_string(),
                    ticker: "B".to_string(),
                    description: "A not-so-fair coin flip".to_string(),
                    market_cap: money(1e6),
                    scenarios: vec![scenario("Head", 2e6, 0.6), scenario("Tail", 0.0, 0.4)],
                },
                fraction: fx(0.3),
            },
            // Something with only upside and 50% allocation
            PortfolioCompany {
                company: Company {
                    name: "Something with only upside".to_string(),
                    ticker: "C".to_string(),
                    description: "Shouldn't lose money here because of xyz".to_string(),
                    market_cap: money(1e8),
                    scenarios: vec![
                        scenario("Double", 2e8, 0.3),
                        scenario("50 percent up", 1.5e8, 0.3),
                        scenario("Same as now", 1e8, 0.4),
                    ],
                },
                fraction: fx(0.5),
            },
        ],
    }
}

#[test]
fn test_expected_value_single_fair_coin_flip() {
    let test_portfolio = Portfolio {
        companies: vec![PortfolioCompany {
            company: Company {
                name: "Fair coin flip".to_string(),
                ticker: "A".to_string(),
                description: "Something we should never invest into".to_string(),
                market_cap: money(1e6),
                scenarios: vec![scenario("Head", 2e6, 0.5), scenario("Tail", 0.0, 0.5)],
            },
            fraction: fx(1.0),
        }],
    };

    assert_close(0.0, expected_return(&test_portfolio), UNIT_TOLERANCE);
}

#[test]
fn test_expected_value_single_biased_coin_flip() {
    let test_portfolio = Portfolio {
        companies: vec![PortfolioCompany {
            company: Company {
                name: "Biased coin flip".to_string(),
                ticker: "B".to_string(),
                description: "A not-so-fair coin flip".to_string(),
                market_cap: money(1e6),
                scenarios: vec![scenario("Head", 2e6, 0.8), scenario("Tail", 0.0, 0.2)],
            },
            fraction: fx(1.0),
        }],
    };

    assert_close(0.6, expected_return(&test_portfolio), UNIT_TOLERANCE);
}

#[test]
fn test_expected_value_three_assets() {
    let test_portfolio = get_test_portfolio_with_three_assets();
    assert_close(0.285, expected_return(&test_portfolio), UNIT_TOLERANCE);
}

#[test]
fn test_all_outcomes_no_assets() {
    let test_portfolio = Portfolio { companies: vec![] };
    let outcomes = all_outcomes(&test_portfolio).unwrap();

    assert_eq!(outcomes.len(), 0);
}

#[test]
fn test_all_outcomes_too_many_assets_and_scenarios() {
    // Create a portfolio with 16 companies, each with 2 scenarios.
    let mut test_portfolio = Portfolio { companies: vec![] };
    for i in 0..16 {
        test_portfolio.companies.push(PortfolioCompany {
            company: Company {
                name: format!("{i}"),
                ticker: format!("{i}"),
                description: format!("{i}"),
                market_cap: money(1e6),
                scenarios: vec![scenario("Head", 2e6, 0.5), scenario("Tail", 0.0, 0.5)],
            },
            fraction: fx(0.0625),
        });
    }

    // Should fail because there are more than 50000 outcomes.
    let e = all_outcomes(&test_portfolio).err().unwrap();
    assert_eq!(e.code, "more-than-fifty-thousand-outcomes");
    assert!(e
        .message
        .contains("You have 65536 different outcomes for your portfolio."));
}

#[test]
fn test_all_outcomes_three_assets() {
    let test_portfolio = get_test_portfolio_with_three_assets();
    let outcomes = all_outcomes(&test_portfolio).unwrap();

    // Expected outcomes, in enumeration order: the first company's
    // scenario index changes fastest.  The per-company returns are in
    // portfolio order (A, B, C).
    let expected = vec![
        Outcome {
            weighted_return: fx(1.0),
            probability: fx(0.09),
            company_returns: vec![fx(1.0), fx(1.0), fx(1.0)],
        },
        Outcome {
            weighted_return: fx(0.6),
            probability: fx(0.09),
            company_returns: vec![fx(-1.0), fx(1.0), fx(1.0)],
        },
        Outcome {
            weighted_return: fx(0.4),
            probability: fx(0.06),
            company_returns: vec![fx(1.0), fx(-1.0), fx(1.0)],
        },
        Outcome {
            weighted_return: fx(0.0),
            probability: fx(0.06),
            company_returns: vec![fx(-1.0), fx(-1.0), fx(1.0)],
        },
        Outcome {
            weighted_return: fx(0.75),
            probability: fx(0.09),
            company_returns: vec![fx(1.0), fx(1.0), fx(0.5)],
        },
        Outcome {
            weighted_return: fx(0.35),
            probability: fx(0.09),
            company_returns: vec![fx(-1.0), fx(1.0), fx(0.5)],
        },
        Outcome {
            weighted_return: fx(0.15),
            probability: fx(0.06),
            company_returns: vec![fx(1.0), fx(-1.0), fx(0.5)],
        },
        Outcome {
            weighted_return: fx(-0.25),
            probability: fx(0.06),
            company_returns: vec![fx(-1.0), fx(-1.0), fx(0.5)],
        },
        Outcome {
            weighted_return: fx(0.5),
            probability: fx(0.12),
            company_returns: vec![fx(1.0), fx(1.0), fx(0.0)],
        },
        Outcome {
            weighted_return: fx(0.1),
            probability: fx(0.12),
            company_returns: vec![fx(-1.0), fx(1.0), fx(0.0)],
        },
        Outcome {
            weighted_return: fx(-0.1),
            probability: fx(0.08),
            company_returns: vec![fx(1.0), fx(-1.0), fx(0.0)],
        },
        Outcome {
            weighted_return: fx(-0.5),
            probability: fx(0.08),
            company_returns: vec![fx(-1.0), fx(-1.0), fx(0.0)],
        },
    ];

    assert!(outcomes_close(&outcomes, &expected));
}

#[test]
fn test_worst_case_scenario() {
    let test_portfolio = get_test_portfolio_with_three_assets();
    let worst_case = worst_case_outcome(&test_portfolio);

    assert_close(0.08, worst_case.probability, UNIT_TOLERANCE);
    assert_close(-0.5, worst_case.portfolio_return, UNIT_TOLERANCE);
    assert_close(-0.22, worst_case.probability_weighted_return, UNIT_TOLERANCE);
}

#[test]
fn test_cumulative_probability_of_loss() {
    let test_portfolio = get_test_portfolio_with_three_assets();
    let outcomes = all_outcomes(&test_portfolio).unwrap();
    let cumulative = cumulative_probability_of_loss(&outcomes);

    assert_close(0.22, cumulative, UNIT_TOLERANCE);
}
