//! The ways in which a run can end without having done what was asked.

use vstd::prelude::*;

verus! {

/// Every condition that ends a run early. None is retried.
#[derive(Clone, Copy, Debug, PartialEq, Eq, Structural)]
pub enum Failure {
    /// The search backend knows no package of that name.
    NotFound,
    /// The search backend did not start, or its output is no JSON.
    BackendUnavailable,
    /// The picker came back without a choice.
    SelectionCancelled,
    /// The picker did not start.
    PickerUnavailable,
    /// The package already stands between the markers.
    AlreadyPresent,
    /// The package stands nowhere from marker to marker.
    NotPresent,
    /// The document has no marked region: it is left as it is.
    MarkersMissing,
    /// The rebuild setting is none of the known policies.
    InvalidConfig,
    /// The rebuild command did not start, or reported failure.
    RebuildFailed,
}

/// The exit status that a failure maps to.
pub open spec fn exit_status_of(failure: Failure) -> int {
    if failure == Failure::MarkersMissing {
        0
    } else {
        1
    }
}

impl Failure {
    /// Whether the run goes on after this failure. Only missing markers are
    /// tolerated: the edit is skipped and nothing else changes.
    pub fn is_fatal(&self) -> (fatal: bool)
        ensures
            fatal == (*self != Failure::MarkersMissing),
            fatal == (exit_status_of(*self) != 0),
    {
        !matches!(self, Failure::MarkersMissing)
    }

    /// The status with which the process ends after this failure.
    pub fn exit_status(&self) -> (status: u8)
        ensures
            status == exit_status_of(*self),
    {
        if self.is_fatal() {
            1
        } else {
            0
        }
    }
}

} // verus!
