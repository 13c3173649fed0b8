//! The failure taxonomy of the ledger.
//!
//! Every failure is a structured, recoverable outcome returned to the
//! caller; no operation aborts the process. A failed mutating call leaves
//! all persisted state exactly as it was before the call.

use vstd::prelude::*;

verus! {

/// Failures of the fungible verbs (`transfer`, `transfer_from`, `approve`,
/// `burn`, `burn_from`).
#[derive(Clone, Copy, Debug, PartialEq, Eq, Structural)]
pub enum TokenError {
    /// The invocation was not sanctioned by the required principal.
    Unauthorized,
    /// The debited account holds less than the requested amount.
    InsufficientBalance,
    /// The remaining allowance is smaller than the requested amount.
    InsufficientAllowance,
    /// The allowance's expiration ordinal lies before the current ordinal.
    ExpiredAllowance,
    /// The amount is not admissible for the verb (not strictly positive,
    /// or negative where only non-negative amounts are meaningful).
    InvalidAmount,
    /// The credited balance would exceed the largest representable value.
    Overflow,
}

/// Failures of the admin and item-ownership verbs (`init_admin`, `mint`,
/// `transfer`, `burn`, `get_metadata`).
#[derive(Clone, Copy, Debug, PartialEq, Eq, Structural)]
pub enum NFTError {
    /// The admin singleton was already set; it is set at most once.
    AdminAlreadyExists,
    /// The invocation was not sanctioned by the required principal, or no
    /// admin has been recorded yet.
    NotAuthorized,
    /// No ownership record exists for the given item identifier.
    TokenDoesNotExist,
    /// The ownership record names a different owner than the caller claimed.
    InvalidTokenOwner,
    /// A read found no record under the given item identifier.
    EntityNotFound,
    /// The identifier counter is exhausted; no fresh identifier exists.
    Overflow,
}

/// Failures of the time-lock verbs (`init`, `withdraw`, and the reads).
#[derive(Clone, Copy, Debug, PartialEq, Eq, Structural)]
pub enum LockError {
    /// The requested unlock time does not lie strictly in the future.
    UnlockTimeNotInFuture,
    /// No lock has been initialized yet.
    NoLockData,
    /// The caller is not the lock's owner.
    NotOwner,
    /// The unlock time has not been reached yet.
    WithdrawalTooEarly,
}

/// Failures of the submission-review verbs.
#[derive(Clone, Copy, Debug, PartialEq, Eq, Structural)]
pub enum SubmissionError {
    /// No admin has been recorded yet.
    AdminNotSet,
    /// The caller is not the recorded admin.
    NotAdmin,
    /// No submission exists under the given identifier.
    SubmissionNotFound,
    /// The submission was already approved.
    AlreadyApproved,
    /// The submission was already rejected.
    AlreadyRejected,
    /// The submission counter is exhausted.
    Overflow,
}

} // verus!
