//! The failures this crate reports.

use vstd::prelude::*;

verus! {

/// Why an operation on orbital elements failed.
#[derive(Clone, Copy, Debug, PartialEq, Eq, Structural)]
pub enum OrbitError {
    /// The two lines are not a well-formed element set.
    MalformedElementSet,
    /// The calendar fields of an epoch do not name an instant.
    MalformedEpoch,
    /// The propagation model rejected the elements at the requested time.
    PropagationFailed,
}

impl OrbitError {
    /// A short description of the failure.
    pub fn description(&self) -> (text: &'static str)
        ensures
            text@ == (match *self {
                OrbitError::MalformedElementSet => "malformed element set"@,
                OrbitError::MalformedEpoch => "malformed epoch"@,
                OrbitError::PropagationFailed => "propagation failed"@,
            }),
    {
        match self {
            OrbitError::MalformedElementSet => "malformed element set",
            OrbitError::MalformedEpoch => "malformed epoch",
            OrbitError::PropagationFailed => "propagation failed",
        }
    }
}

} // verus!
