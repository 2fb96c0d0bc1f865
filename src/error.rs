//! Why an operation of the recovery service was refused.
use vstd::prelude::*;

verus! {

/// The family an error belongs to.
#[derive(Clone, Copy, Debug, PartialEq, Eq, Structural)]
pub enum ErrorKind {
    /// The input breaks a rule of its own (too few guardians, self as guardian).
    Validation,
    /// The account or request named does not exist.
    NotFound,
    /// The operation clashes with the current state of a request.
    Conflict,
    /// The request is not yet allowed to proceed.
    PolicyViolation,
    /// The caller may not perform the operation.
    Unauthorized,
}

/// A refused operation. Every refusal leaves the service as it was.
#[derive(Clone, Copy, Debug, PartialEq, Eq, Structural)]
pub enum RecoveryError {
    /// Fewer guardians were given than the minimum.
    TooFewGuardians,
    /// The caller named itself as one of its guardians.
    SelfAsGuardian,
    /// The account to recover has no guardians.
    NoGuardians,
    /// No request is tracked under the identifier.
    RequestNotFound,
    /// A request with the same identifier is already tracked.
    IdCollision,
    /// The request is not collecting approvals any more.
    NotActive,
    /// The caller is not a guardian of the account to recover.
    NotAGuardian,
    /// The caller has already approved the request.
    AlreadyApproved,
    /// The request has already been handed to the account manager.
    AlreadyExecuting,
    /// The request is not waiting for the account manager's answer.
    NotExecuting,
    /// Fewer guardians approved the request than its threshold.
    NotEnoughApprovals,
    /// The recovery period has not yet passed since the request was made.
    RecoveryPeriodPending,
    /// The callback came from another account than the service itself.
    NotSelf,
}

/// The family of each error.
pub open spec fn kind_of(e: RecoveryError) -> ErrorKind {
    match e {
        RecoveryError::TooFewGuardians | RecoveryError::SelfAsGuardian => ErrorKind::Validation,
        RecoveryError::NoGuardians | RecoveryError::RequestNotFound => ErrorKind::NotFound,
        RecoveryError::IdCollision
        | RecoveryError::NotActive
        | RecoveryError::AlreadyApproved
        | RecoveryError::AlreadyExecuting
        | RecoveryError::NotExecuting => ErrorKind::Conflict,
        RecoveryError::NotEnoughApprovals
        | RecoveryError::RecoveryPeriodPending => ErrorKind::PolicyViolation,
        RecoveryError::NotAGuardian | RecoveryError::NotSelf => ErrorKind::Unauthorized,
    }
}

impl RecoveryError {
    /// The family this error belongs to.
    pub fn kind(&self) -> (r: ErrorKind)
        ensures
            r == kind_of(*self),
    {
        match self {
            RecoveryError::TooFewGuardians | RecoveryError::SelfAsGuardian => ErrorKind::Validation,
            RecoveryError::NoGuardians | RecoveryError::RequestNotFound => ErrorKind::NotFound,
            RecoveryError::IdCollision
            | RecoveryError::NotActive
            | RecoveryError::AlreadyApproved
            | RecoveryError::AlreadyExecuting
            | RecoveryError::NotExecuting => ErrorKind::Conflict,
            RecoveryError::NotEnoughApprovals
            | RecoveryError::RecoveryPeriodPending => ErrorKind::PolicyViolation,
            RecoveryError::NotAGuardian | RecoveryError::NotSelf => ErrorKind::Unauthorized,
        }
    }

    /// A sentence that describes the error.
    pub fn message(&self) -> (r: &'static str) {
        match self {
            RecoveryError::TooFewGuardians => "Must provide at least 2 guardians.",
            RecoveryError::SelfAsGuardian => "Cannot set self as a guardian.",
            RecoveryError::NoGuardians => "No guardians set for this account.",
            RecoveryError::RequestNotFound => "Recovery request not found.",
            RecoveryError::IdCollision => "Recovery request ID collision. Please try again.",
            RecoveryError::NotActive => "Recovery request is not collecting approvals.",
            RecoveryError::NotAGuardian => "Caller is not a registered guardian for this account.",
            RecoveryError::AlreadyApproved => "Guardian has already approved this request.",
            RecoveryError::AlreadyExecuting => "Recovery is already being executed.",
            RecoveryError::NotExecuting => "Recovery request is not being executed.",
            RecoveryError::NotEnoughApprovals => "Not enough guardian approvals yet.",
            RecoveryError::RecoveryPeriodPending => "Recovery period has not yet passed.",
            RecoveryError::NotSelf => "Method is private.",
        }
    }
}

} // verus!
