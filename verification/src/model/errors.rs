//! Runtime errors and warnings carried on response envelopes.

use vstd::prelude::*;

verus! {

/// Error with a message and a code.  The code is a stable internal
/// identifier saying what happened; the message is user-facing.
#[derive(Clone, Debug)]
pub struct Error {
    pub code: String,
    pub message: String,
}

/// Same shape as an error, but represents a warning.
#[derive(Clone, Debug)]
pub struct Warning {
    pub code: String,
    pub message: String,
}

/// What equality of two errors means: same code and message.
pub open spec fn error_eq_spec(a: &Error, b: &Error) -> bool {
    a.code@ == b.code@ && a.message@ == b.message@
}

impl PartialEq for Error {
    fn eq(&self, other: &Self) -> (r: bool) {
        self.code == other.code && self.message == other.message
    }
}

impl vstd::std_specs::cmp::PartialEqSpecImpl for Error {
    open spec fn obeys_eq_spec() -> bool {
        true
    }

    open spec fn eq_spec(&self, other: &Self) -> bool {
        error_eq_spec(self, other)
    }
}

/// What equality of two warnings means: same code and message.
pub open spec fn warning_eq_spec(a: &Warning, b: &Warning) -> bool {
    a.code@ == b.code@ && a.message@ == b.message@
}

impl PartialEq for Warning {
    fn eq(&self, other: &Self) -> (r: bool) {
        self.code == other.code && self.message == other.message
    }
}

impl vstd::std_specs::cmp::PartialEqSpecImpl for Warning {
    open spec fn obeys_eq_spec() -> bool {
        true
    }

    open spec fn eq_spec(&self, other: &Self) -> bool {
        warning_eq_spec(self, other)
    }
}

} // verus!
