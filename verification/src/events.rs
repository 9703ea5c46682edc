use vstd::prelude::*;

use crate::Address;

verus! {

/// A structured notification emitted after the corresponding state mutation
/// commits. The wallet only guarantees reliable emission; external observers
/// (indexers, user interfaces) consume the log.
#[derive(Clone, Copy, Debug, PartialEq, Eq, Structural)]
pub enum Event {
    /// An identity joined the owner registry.
    OwnerAdded { owner: Address },
    /// An identity left the owner registry.
    OwnerRemoved { owner: Address },
    /// The confirmation threshold changed.
    RequirementChanged { required: usize },
    /// An owner submitted a new action.
    TransactionSubmitted { tx_id: usize, submitter: Address, to: Address, value: u128 },
    /// An owner confirmed an action.
    TransactionConfirmed { tx_id: usize, owner: Address },
    /// An owner revoked a confirmation.
    ConfirmationRevoked { tx_id: usize, owner: Address },
    /// An action's external effect was performed and succeeded.
    TransactionExecuted { tx_id: usize, executor: Address },
    /// An action's external effect failed; the action is open for retry.
    TransactionFailed { tx_id: usize, executor: Address },
    /// The wallet received an incoming transfer.
    Deposit { sender: Address, value: u128 },
}

} // verus!
