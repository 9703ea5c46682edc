use vstd::prelude::*;

verus! {

/// Why a wallet operation was refused. Every failure is reported to the
/// immediate caller and, except for the execution-failure reset path, leaves
/// the wallet unchanged.
#[derive(Clone, Copy, Debug, PartialEq, Eq, Structural)]
pub enum Error {
    /// The caller is not a current owner, or the operation is reserved to the
    /// wallet's own authorized-execution path and the caller is not the
    /// wallet itself.
    Unauthorized,
    /// The action id names no submitted action.
    UnknownAction,
    /// The action has already been executed.
    AlreadyExecuted,
    /// The caller has already confirmed this action.
    AlreadyConfirmed,
    /// The caller has not confirmed this action, so there is nothing to
    /// revoke.
    NotConfirmed,
    /// The action has fewer confirmations than the current threshold.
    QuorumNotMet,
    /// The requested threshold is zero or exceeds the owner count.
    InvalidThreshold,
    /// The destination of a submitted action is the null identity.
    InvalidDestination,
    /// The identity is already an owner.
    DuplicateOwner,
    /// The identity is not a current owner.
    UnknownOwner,
    /// Removing the owner would leave fewer owners than the threshold.
    QuorumViolation,
    /// The wallet has already been initialized.
    AlreadyInitialized,
    /// The identity offered as an owner is the null identity.
    InvalidOwner,
}

} // verus!
