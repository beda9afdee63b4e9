//! Failures of the filesystem operations and the error numbers they set.

use vstd::prelude::*;

verus! {

/// What went wrong, as far as the error-number table distinguishes it.
#[derive(Clone, Copy, Debug, PartialEq, Eq, Structural)]
pub enum FailureKind {
    NotFound,
    PermissionDenied,
    AlreadyExists,
    InvalidInput,
    InvalidData,
    Other,
}

/// A failed operation: its kind and, when the OS reported one, its native
/// error number.
#[derive(Clone, Copy, Debug, PartialEq, Eq, Structural)]
pub struct IoFailure {
    pub kind: FailureKind,
    pub os_code: Option<i32>,
}

/// The error number recorded for a failure that has neither a native number
/// nor a kind in the table.
pub const UNKNOWN_ERROR_CODE: i32 = 13900042;

/// The error number of a failure kind without a native number.
pub open spec fn kind_code(kind: FailureKind) -> i32 {
    match kind {
        FailureKind::NotFound => 2,
        FailureKind::PermissionDenied => 13,
        FailureKind::AlreadyExists => 17,
        FailureKind::InvalidInput => 22,
        FailureKind::InvalidData => 61,
        FailureKind::Other => UNKNOWN_ERROR_CODE,
    }
}

/// The error number that a failure leaves in the error slot: the native
/// number when there is one, else the number of its kind.
pub open spec fn spec_error_number(e: IoFailure) -> i32 {
    match e.os_code {
        Some(code) => code,
        None => kind_code(e.kind),
    }
}

impl IoFailure {
    /// The failure for a malformed or absent argument.
    pub open spec fn spec_invalid_input() -> IoFailure {
        IoFailure { kind: FailureKind::InvalidInput, os_code: None }
    }

    /// A failure of the given kind that carries no native number.
    pub fn of_kind(kind: FailureKind) -> (r: IoFailure)
        ensures
            r == (IoFailure { kind, os_code: None }),
    {
        IoFailure { kind, os_code: None }
    }

    /// A malformed or absent argument.
    pub fn invalid_input() -> (r: IoFailure)
        ensures
            r == IoFailure::spec_invalid_input(),
    {
        IoFailure::of_kind(FailureKind::InvalidInput)
    }

    /// Whether the failure falls outside the error-number table, so that
    /// it should be reported with its description for diagnosis.
    pub fn is_unmapped(&self) -> (r: bool)
        ensures
            r == (self.os_code is None && self.kind == FailureKind::Other),
    {
        self.os_code.is_none() && matches!(self.kind, FailureKind::Other)
    }
}

/// The error number to record for `e`.
pub fn error_number(e: &IoFailure) -> (r: i32)
    ensures
        r == spec_error_number(*e),
{
    match e.os_code {
        Some(code) => code,
        None => match e.kind {
            FailureKind::NotFound => 2,
            FailureKind::PermissionDenied => 13,
            FailureKind::AlreadyExists => 17,
            FailureKind::InvalidInput => 22,
            FailureKind::InvalidData => 61,
            FailureKind::Other => UNKNOWN_ERROR_CODE,
        },
    }
}

} // verus!
