//! Structured validation results: a problem carries a stable code, a
//! user-facing message and a severity.

use vstd::prelude::*;

verus! {

/// Severity of a validation problem.  Errors block the solver; warnings are
/// informational and drive the pre-solve filter.
#[derive(Clone, Copy, Debug, PartialEq, Eq, Structural)]
pub enum Severity {
    ERROR,
    WARNING,
}

/// A validation problem with a stable code and a user-facing message.
#[derive(Clone, Debug)]
pub struct Problem {
    pub code: String,
    pub message: String,
    pub severity: Severity,
}

/// A validation result is either a problem or the affirmation that one
/// particular check passed.
#[derive(Clone, Debug)]
pub enum ValidationResult {
    PROBLEM(Problem),
    OK,
}

/// What equality of two problems means: same code, message and severity.
pub open spec fn problem_eq_spec(a: &Problem, b: &Problem) -> bool {
    a.code@ == b.code@ && a.message@ == b.message@ && a.severity == b.severity
}

impl PartialEq for Problem {
    fn eq(&self, other: &Self) -> (r: bool) {
        self.code == other.code && self.message == other.message && self.severity
            == other.severity
    }
}

impl vstd::std_specs::cmp::PartialEqSpecImpl for Problem {
    open spec fn obeys_eq_spec() -> bool {
        true
    }

    open spec fn eq_spec(&self, other: &Self) -> bool {
        problem_eq_spec(self, other)
    }
}

/// What equality of two validation results means.
pub open spec fn validation_result_eq_spec(a: &ValidationResult, b: &ValidationResult) -> bool {
    match (a, b) {
        (ValidationResult::OK, ValidationResult::OK) => true,
        (ValidationResult::PROBLEM(p), ValidationResult::PROBLEM(q)) => problem_eq_spec(p, q),
        _ => false,
    }
}

impl PartialEq for ValidationResult {
    fn eq(&self, other: &Self) -> (r: bool) {
        match (self, other) {
            (ValidationResult::OK, ValidationResult::OK) => true,
            (ValidationResult::PROBLEM(p), ValidationResult::PROBLEM(q)) => p == q,
            _ => false,
        }
    }
}

impl vstd::std_specs::cmp::PartialEqSpecImpl for ValidationResult {
    open spec fn obeys_eq_spec() -> bool {
        true
    }

    open spec fn eq_spec(&self, other: &Self) -> bool {
        validation_result_eq_spec(self, other)
    }
}

/// Holds when `v` reports a problem with the given code and severity.
pub open spec fn is_problem_with(v: ValidationResult, code: Seq<char>, severity: Severity) -> bool {
    match v {
        ValidationResult::PROBLEM(p) => p.code@ == code && p.severity == severity,
        ValidationResult::OK => false,
    }
}

/// Holds when `v` reports a problem of error severity.
pub open spec fn is_error_result(v: ValidationResult) -> bool {
    match v {
        ValidationResult::PROBLEM(p) => p.severity == Severity::ERROR,
        ValidationResult::OK => false,
    }
}

/// The reported results carry exactly the given codes and severities, in
/// order.
pub open spec fn problems_match(r: Seq<ValidationResult>, ps: Seq<(Seq<char>, Severity)>) -> bool {
    &&& r.len() == ps.len()
    &&& forall|i: int| 0 <= i < r.len() ==> is_problem_with(#[trigger] r[i], ps[i].0, ps[i].1)
}

/// Some reported result has error severity.
pub open spec fn any_error_in(r: Seq<ValidationResult>) -> bool {
    exists|i: int| 0 <= i < r.len() && is_error_result(#[trigger] r[i])
}

/// Some specified problem has error severity.
pub open spec fn any_error(ps: Seq<(Seq<char>, Severity)>) -> bool {
    exists|i: int| 0 <= i < ps.len() && (#[trigger] ps[i]).1 == Severity::ERROR
}

/// Results that match a specification carry an error exactly when the
/// specification does.
pub proof fn lemma_errors_match(r: Seq<ValidationResult>, ps: Seq<(Seq<char>, Severity)>)
    requires
        problems_match(r, ps),
    ensures
        any_error_in(r) <==> any_error(ps),
{
    if any_error_in(r) {
        let i = choose|i: int| 0 <= i < r.len() && is_error_result(#[trigger] r[i]);
        assert(ps[i].1 == Severity::ERROR);
    }
    if any_error(ps) {
        let i = choose|i: int| 0 <= i < ps.len() && (#[trigger] ps[i]).1 == Severity::ERROR;
        assert(is_error_result(r[i]));
    }
}

/// Scans the results for one of error severity.
pub fn contains_error_problem(problems: &Vec<ValidationResult>) -> (r: bool)
    ensures
        r == any_error_in(problems@),
{
    let mut found = false;
    let mut i: usize = 0;
    while i < problems.len()
        invariant
            0 <= i <= problems@.len(),
            found == exists|k: int|
                0 <= k < i as int && is_error_result(#[trigger] problems@[k]),
        decreases problems@.len() - i,
    {
        let is_error = match &problems[i] {
            ValidationResult::PROBLEM(p) => match p.severity {
                Severity::ERROR => true,
                Severity::WARNING => false,
            },
            ValidationResult::OK => false,
        };
        if is_error {
            found = true;
        }
        i = i + 1;
    }
    found
}

} // verus!
