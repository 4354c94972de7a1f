//! Tests for the domain model and its validation rules.

use charlie::model::capital_loss::CapitalLoss;
use charlie::model::company::{Company, TOLERANCE};
use charlie::model::portfolio::AllocationInput;
use charlie::model::scenario::Scenario;
use charlie::validation::result::{Problem, Severity, ValidationResult};
use charlie::validation::validate::Validate;

fn fx(x: f64) -> i64 {
    (x * 1e10).round() as i64
}

fn money(x: f64) -> i64 {
    (x * 100.0).round() as i64
}

fn scenario(thesis: &str, intrinsic_value: f64, probability: f64) -> Scenario {
    Scenario {
        thesis: thesis.to_string(),
        intrinsic_value: money(intrinsic_value),
        probability: fx(probability),
    }
}

fn problem(code: &str, message: &str, severity: Severity) -> ValidationResult {
    ValidationResult::PROBLEM(Problem {
        code: code.to_string(),
        message: message.to_string(),
        severity,
    })
}

#[test]
fn test_probability_tolerance_doesnt_change() {
    assert_eq!(TOLERANCE, 1);
    assert_eq!(TOLERANCE as f64 / 1e10, 1e-10);
}

#[test]
fn company_test_probability_tolerance_doesnt_change() {
    assert_eq!(TOLERANCE, 1);
    assert_eq!(TOLERANCE as f64 / 1e10, 1e-10);
}

#[test]
fn test_validate_no_scenarios() {
    let test_company = Company {
        name: "Some Company".to_string(),
        ticker: "SC".to_string(),
        description: "Some business that's pretty interesting.".to_string(),
        market_cap: money(5e5),
        scenarios: vec![],
    };

    assert!(test_company.validate().contains(&problem(
        "no-scenarios-for-company",
        "No scenarios found for Some Company with ticker SC.",
        Severity::ERROR,
    )));
}

#[test]
fn test_validate_non_unique_scenarios() {
    let test_company = Company {
        name: "Some Company".to_string(),
        ticker: "SC".to_string(),
        description: "Some business that's pretty interesting.".to_string(),
        market_cap: money(5e5),
        scenarios: vec![
            scenario("Same thesis as the other one.", 1e6, 0.6),
            scenario("Same thesis as the other one.", 2e6, 0.4),
        ],
    };

    assert!(test_company.validate().contains(&problem(
        "scenarios-are-not-unique",
        "Not all scenarios have a unique thesis for company Some Company. Check your input.",
        Severity::ERROR,
    )));
}

#[test]
fn test_validate_probabilities_not_summing_up_to_one() {
    let test_company = Company {
        name: "Some Company".to_string(),
        ticker: "SC".to_string(),
        description: "Some business that's pretty interesting.".to_string(),
        market_cap: money(5e5),
        scenarios: vec![
            scenario("Worst case liquidation value.", 1e6, 0.5),
            scenario("Base case liquidation value.", 2e6, 0.3),
        ],
    };

    assert!(test_company.validate().contains(&problem(
        "probabilities-for-all-scenarios-do-not-sum-up-to-one",
        "Probabilities of all scenarios for company Some Company do not sum up to 1. Sum = 0.8.",
        Severity::ERROR,
    )));
}

#[test]
fn test_validate_validate_negative_expected_return() {
    let test_company = Company {
        name: "Some Company".to_string(),
        ticker: "SC".to_string(),
        description: "Company with negative expected return.".to_string(),
        market_cap: money(5e5),
        scenarios: vec![scenario("Loss.", 1e5, 0.5), scenario("Zero return.", 5e5, 0.5)],
    };

    assert!(test_company.validate().contains(&problem(
        "negative-expected-return-for-a-company",
        "Found negative expected return of -40.0% for SC. This is not supported in the current framework because we want to prohibit shorting.",
        Severity::WARNING,
    )));
}

#[test]
fn test_validate_no_downside_scenario() {
    let test_company = Company {
        name: "Some Company".to_string(),
        ticker: "SC".to_string(),
        description: "Company with no downside.".to_string(),
        market_cap: money(5e5),
        scenarios: vec![scenario("Breakeven.", 5e5, 0.5), scenario("Double.", 1e6, 0.5)],
    };

    assert!(test_company.validate().contains(&problem(
        "company-with-no-downside-scenario",
        "Company SC doesn't have at least one downside scenario. This is not supported in the current framework because the algorithm would try and tell you to put all your money on this company.",
        Severity::WARNING,
    )));
}

#[test]
fn two_companies_with_same_ticker_are_equal_irrespective_of_other_fields() {
    let test_company_1 = Company {
        name: "Some fancy name 1".to_string(),
        ticker: "SFN".to_string(),
        description: "A description".to_string(),
        market_cap: money(1e7),
        scenarios: vec![],
    };
    let test_company_2 = Company {
        name: "Some fancy name 2".to_string(),
        ticker: "SFN".to_string(),
        description: "A different description".to_string(),
        market_cap: money(1e7),
        scenarios: vec![],
    };

    assert_eq!(test_company_1, test_company_2)
}

#[test]
fn test_scenario_return() {
    let test_scenario = scenario("Awesome thesis", 1e6, 0.2);
    let ret = test_scenario.scenario_return(money(2e6));
    assert!((ret as f64 / 1e10 - (-0.5)).abs() < 1e-10);
}

#[test]
fn test_probability_weighted_return() {
    let test_scenario = scenario("Awesome thesis", 1e6, 0.2);
    let ret = test_scenario.probability_weighted_return(money(2e6));
    assert!((ret as f64 / 1e10 - (-0.1)).abs() < 1e-10);
}

#[test]
fn test_validate_negative_probability() {
    let test_scenario = scenario("Awesome thesis", 1e10, -0.2);
    assert_eq!(
        test_scenario.validate(),
        vec![problem(
            "negative-probability-for-scenario",
            "Negative probability is not allowed. Probability: -0.2",
            Severity::ERROR,
        )]
    );
}

#[test]
fn test_validate_probability_greater_than_one() {
    let test_scenario = scenario("Awesome thesis", 1e10, 1.2);
    assert_eq!(
        test_scenario.validate(),
        vec![problem(
            "probability-for-scenario-greater-than-one",
            "Probability greater than 1 is not allowed. Probability: 1.2",
            Severity::ERROR,
        )]
    );
}

#[test]
fn two_scenarios_with_same_thesis_are_equal_irrespective_of_different_intrinsic_value() {
    let test_scenario_1 = scenario("Awesome thesis", 1.2e7, 0.3);
    let test_scenario_2 = scenario("Awesome thesis", 1.2e8, 0.4);
    assert_eq!(test_scenario_1, test_scenario_2)
}

#[test]
fn test_validate_zero_probability_of_loss() {
    let test_capital_loss = CapitalLoss {
        probability_of_loss: fx(0.0),
        fraction_of_capital: fx(0.3),
    };
    assert!(test_capital_loss.validate().contains(&problem(
        "probability-of-loss-of-capital-cannot-be-zero-or-negative",
        "Zero or negative probability of loss is not allowed. Probability is 0.",
        Severity::ERROR,
    )));
}

#[test]
fn test_validate_negative_probability_of_loss() {
    let test_capital_loss = CapitalLoss {
        probability_of_loss: fx(-0.2),
        fraction_of_capital: fx(0.3),
    };
    assert!(test_capital_loss.validate().contains(&problem(
        "probability-of-loss-of-capital-cannot-be-zero-or-negative",
        "Zero or negative probability of loss is not allowed. Probability is -0.2.",
        Severity::ERROR,
    )));
}

#[test]
fn test_validate_probability_of_loss_greater_than_one() {
    let test_capital_loss = CapitalLoss {
        probability_of_loss: fx(1.2),
        fraction_of_capital: fx(0.3),
    };
    assert!(test_capital_loss.validate().contains(&problem(
        "probability-of-loss-cannot-be-greater-than-one",
        "Probability of loss greater than 1 is not allowed. Probability is 1.2.",
        Severity::ERROR,
    )));
}

#[test]
fn test_validate_zero_fraction_of_capital() {
    let test_capital_loss = CapitalLoss {
        probability_of_loss: fx(0.5),
        fraction_of_capital: fx(0.0),
    };
    assert!(test_capital_loss.validate().contains(&problem(
        "fraction-of-capital-cannot-be-zero-or-negative",
        "Zero or negative fraction of capital lost is not allowed because this input represents the fraction of assets one is willing to lose under a worst-case scenario. Fraction is 0.",
        Severity::ERROR,
    )));
}

#[test]
fn test_validate_negative_fraction_of_capital() {
    let test_capital_loss = CapitalLoss {
        probability_of_loss: fx(0.5),
        fraction_of_capital: fx(-0.3),
    };
    assert!(test_capital_loss.validate().contains(&problem(
        "fraction-of-capital-cannot-be-zero-or-negative",
        "Zero or negative fraction of capital lost is not allowed because this input represents the fraction of assets one is willing to lose under a worst-case scenario. Fraction is -0.3.",
        Severity::ERROR,
    )));
}

#[test]
fn test_validate_fraction_of_capital_greater_than_one() {
    let test_capital_loss = CapitalLoss {
        probability_of_loss: fx(0.5),
        fraction_of_capital: fx(2.2),
    };
    assert!(test_capital_loss.validate().contains(&problem(
        "fraction-of-capital-cannot-be-greater-than-one",
        "Fraction of capital lost greater than 1 is not allowed because it would imply the use of leverage, which is not allowed for this constraint. Fraction is 2.2.",
        Severity::ERROR,
    )));
}

#[test]
fn test_negative_maximum_individual_allocation_is_rejected() {
    let input = AllocationInput {
        candidates: vec![],
        long_only: None,
        max_permanent_loss_of_capital: None,
        max_individual_allocation: Some(fx(-0.5)),
        max_total_leverage_ratio: None,
    };
    assert!(input.validate().contains(&problem(
        "maximum-individual-allocation-cannot-be-negative",
        "Maximum individual allocation cannot be negative. You provided -0.5.",
        Severity::ERROR,
    )));
}

#[test]
fn test_negative_maximum_total_leverage_ratio_is_rejected() {
    let input = AllocationInput {
        candidates: vec![],
        long_only: None,
        max_permanent_loss_of_capital: None,
        max_individual_allocation: None,
        max_total_leverage_ratio: Some(fx(-1.0)),
    };
    assert!(input.validate().contains(&problem(
        "maximum-total-leverage-ratio-cannot-be-negative",
        "Maximum total leverage ratio cannot be negative. You provided -1.",
        Severity::ERROR,
    )));
}

#[test]
fn test_permanent_loss_constraint_requires_long_only() {
    let input = AllocationInput {
        candidates: vec![],
        long_only: None,
        max_permanent_loss_of_capital: Some(CapitalLoss {
            fraction_of_capital: fx(0.2),
            probability_of_loss: fx(0.1),
        }),
        max_individual_allocation: None,
        max_total_leverage_ratio: None,
    };
    assert!(input.validate().contains(&problem(
        "maximum-permanent-loss-constraint-works-only-with-long-only-constraint",
        "Maximum permanent loss constraint works only with long-only constraint. Either remove the permanent loss constraint or use the long-only constraint.",
        Severity::ERROR,
    )));
}

#[test]
fn test_all_tickers_must_be_unique() {
    let duplicate_tickers = AllocationInput {
        candidates: (0..2)
            .map(|_| Company {
                name: "A".to_string(),
                ticker: "A".to_string(),
                description: "A".to_string(),
                market_cap: money(1.0),
                scenarios: vec![
                    scenario("50% down with 50% probability", 0.5, 0.5),
                    scenario("100% up with 50% probability", 2.0, 0.5),
                ],
            })
            .collect(),
        long_only: None,
        max_permanent_loss_of_capital: None,
        max_individual_allocation: None,
        max_total_leverage_ratio: None,
    };

    assert!(duplicate_tickers.validate().contains(&problem(
        "all-tickers-must-be-unique",
        "All tickers must be unique. All tickers are: A, A. Check your input.",
        Severity::ERROR,
    )));
}
