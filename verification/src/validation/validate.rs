//! The trait through which values report their validation problems.

use vstd::prelude::*;

use crate::validation::result::{is_problem_with, Severity, ValidationResult};

verus! {

/// A value that can validate itself.  `validation_spec` names, in order, the
/// code and severity of every problem that `validate` reports; a value with
/// an empty specification validates cleanly.
pub trait Validate {
    /// The codes and severities of the problems that validation reports,
    /// in the order in which they are reported.
    spec fn validation_spec(&self) -> Seq<(Seq<char>, Severity)>;

    /// Collects the validation problems for this value.
    fn validate(&self) -> (r: Vec<ValidationResult>)
        ensures
            r@.len() == self.validation_spec().len(),
            forall|i: int|
                0 <= i < r@.len() ==> is_problem_with(
                    #[trigger] r@[i],
                    self.validation_spec()[i].0,
                    self.validation_spec()[i].1,
                ),
    ;
}

} // verus!
