//! The mathematical model of the wallet.
//!
//! Every executable operation of [`crate::wallet::MultisigWallet`] is
//! specified against this module: a spec function names the error an
//! operation reports for a given state and arguments (exactly one error per
//! refused input, `None` when the operation is owed success), and a companion
//! spec function gives the successor state on success.

use vstd::prelude::*;

use crate::errors::Error;
use crate::events::Event;
use crate::Address;

verus! {

/// Mathematical snapshot of one submitted action.
#[verifier::ext_equal]
pub struct ActionModel {
    /// Where the effect is directed; never the null identity.
    pub destination: Address,
    /// The amount the effect carries.
    pub value: u128,
    /// Auxiliary instruction data the effect carries.
    pub payload: Seq<u8>,
    /// Whether the action is closed. Set before the external effect is
    /// performed; reset only when the effect reports failure.
    pub executed: bool,
    /// The identities whose confirmation is currently recorded.
    pub confirmers: Set<Address>,
    /// The stored running count of confirmations.
    pub confirmation_count: nat,
}

/// Mathematical snapshot of the whole wallet.
#[verifier::ext_equal]
pub struct WalletModel {
    /// The account's own identity; owner-registry mutations are reserved to
    /// callers presenting it.
    pub wallet_address: Address,
    /// Whether the one-time setup has happened.
    pub initialized: bool,
    /// The owner registry. Order carries no meaning beyond reporting.
    pub owners: Seq<Address>,
    /// How many distinct confirmations an action needs to become executable.
    pub threshold: nat,
    /// The append-only action log; an action is never deleted.
    pub actions: Seq<ActionModel>,
    /// Every notification emitted so far, oldest first.
    pub events: Seq<Event>,
}

/// The state of a wallet that has just been created for the given account
/// identity and has seen no operation yet.
pub open spec fn empty_wallet(wallet_address: Address) -> WalletModel {
    WalletModel {
        wallet_address,
        initialized: false,
        owners: Seq::empty(),
        threshold: 0,
        actions: Seq::empty(),
        events: Seq::empty(),
    }
}

/// Whether `a` is a current owner.
pub open spec fn is_member(w: WalletModel, a: Address) -> bool {
    w.owners.contains(a)
}

/// Whether `id` names a submitted action.
pub open spec fn valid_action(w: WalletModel, id: usize) -> bool {
    id < w.actions.len()
}

/// Whether the action has gathered a quorum under the current threshold (the
/// threshold is read at check time, never snapshotted at submission).
pub open spec fn executable(w: WalletModel, id: usize) -> bool {
    w.actions[id as int].confirmation_count >= w.threshold
}

/// Whether the caller may mutate the owner registry: only the wallet itself,
/// through its own authorized-execution path, which presupposes an
/// initialized wallet.
pub open spec fn is_self_call(w: WalletModel, caller: Address) -> bool {
    caller == w.wallet_address && w.initialized
}

/// Well-formedness of one action.
pub open spec fn action_wf(a: ActionModel) -> bool {
    &&& a.destination != 0
    &&& a.confirmers.finite()
    &&& a.confirmation_count == a.confirmers.len()
}

/// Well-formedness of the wallet. Every operation preserves this predicate;
/// it carries the core invariants: the stored confirmation count of each
/// action equals the number of recorded confirmers, and once the wallet is
/// initialized the threshold stays between one and the owner count.
pub open spec fn wf(w: WalletModel) -> bool {
    &&& w.owners.no_duplicates()
    &&& !w.owners.contains(0)
    &&& w.threshold <= w.owners.len()
    &&& (w.initialized ==> 1 <= w.threshold)
    &&& (!w.initialized ==> w.owners.len() == 0 && w.threshold == 0 && w.actions.len() == 0)
    &&& (forall|i: int| 0 <= i < w.actions.len() ==> action_wf(#[trigger] w.actions[i]))
}

// ---------------------------------------------------------------------------
// initialize
// ---------------------------------------------------------------------------

/// Scans the proposed owner list from the front and reports the first
/// offence: a null identity is refused before a repeated one at the same
/// position, and an earlier position is refused before a later one.
pub open spec fn owner_scan(owners: Seq<Address>, i: int) -> Option<Error>
    decreases owners.len() - i,
{
    if i < 0 || i >= owners.len() {
        None
    } else if owners[i] == 0 {
        Some(Error::InvalidOwner)
    } else if owners.subrange(0, i).contains(owners[i]) {
        Some(Error::DuplicateOwner)
    } else {
        owner_scan(owners, i + 1)
    }
}

/// The error `initialize` reports, if any.
pub open spec fn initialize_error(
    w: WalletModel,
    owners: Seq<Address>,
    required: usize,
) -> Option<Error> {
    if w.initialized {
        Some(Error::AlreadyInitialized)
    } else if required == 0 || required > owners.len() {
        Some(Error::InvalidThreshold)
    } else {
        owner_scan(owners, 0)
    }
}

/// One `OwnerAdded` notification per accepted owner, in list order.
pub open spec fn owner_added_events(owners: Seq<Address>) -> Seq<Event> {
    owners.map_values(|o: Address| Event::OwnerAdded { owner: o })
}

/// The state after a successful `initialize`.
pub open spec fn initialize_state(
    w: WalletModel,
    owners: Seq<Address>,
    required: usize,
) -> WalletModel {
    WalletModel {
        initialized: true,
        owners: owners,
        threshold: required as nat,
        events: w.events + owner_added_events(owners)
            + seq![Event::RequirementChanged { required }],
        ..w
    }
}

// ---------------------------------------------------------------------------
// submit
// ---------------------------------------------------------------------------

/// The error `submit_transaction` reports, if any.
pub open spec fn submit_error(w: WalletModel, to: Address, caller: Address) -> Option<Error> {
    if !is_member(w, caller) {
        Some(Error::Unauthorized)
    } else if to == 0 {
        Some(Error::InvalidDestination)
    } else {
        None
    }
}

/// The state after a successful `submit_transaction`: the action is appended
/// with the next sequential id and immediately confirmed by its submitter.
pub open spec fn submit_state(
    w: WalletModel,
    to: Address,
    value: u128,
    payload: Seq<u8>,
    caller: Address,
) -> WalletModel {
    let id = w.actions.len() as usize;
    let a = ActionModel {
        destination: to,
        value,
        payload,
        executed: false,
        confirmers: Set::empty().insert(caller),
        confirmation_count: 1,
    };
    WalletModel {
        actions: w.actions.push(a),
        events: w.events
            .push(Event::TransactionSubmitted { tx_id: id, submitter: caller, to, value })
            .push(Event::TransactionConfirmed { tx_id: id, owner: caller }),
        ..w
    }
}

// ---------------------------------------------------------------------------
// confirm
// ---------------------------------------------------------------------------

/// The error the confirmation tally reports once the caller is known to be an
/// owner (`submit_transaction` reaches this path on behalf of the submitter).
pub open spec fn confirm_tally_error(w: WalletModel, id: usize, caller: Address) -> Option<
    Error,
> {
    if !valid_action(w, id) {
        Some(Error::UnknownAction)
    } else if w.actions[id as int].executed {
        Some(Error::AlreadyExecuted)
    } else if w.actions[id as int].confirmers.contains(caller) {
        Some(Error::AlreadyConfirmed)
    } else {
        None
    }
}

/// The error `confirm_transaction` reports, if any.
pub open spec fn confirm_error(w: WalletModel, id: usize, caller: Address) -> Option<Error> {
    if !is_member(w, caller) {
        Some(Error::Unauthorized)
    } else {
        confirm_tally_error(w, id, caller)
    }
}

/// The state after a successful confirmation: the caller is recorded and the
/// running count grows by one.
pub open spec fn confirm_state(w: WalletModel, id: usize, caller: Address) -> WalletModel {
    let a = w.actions[id as int];
    let a2 = ActionModel {
        confirmers: a.confirmers.insert(caller),
        confirmation_count: a.confirmation_count + 1,
        ..a
    };
    WalletModel {
        actions: w.actions.update(id as int, a2),
        events: w.events.push(Event::TransactionConfirmed { tx_id: id, owner: caller }),
        ..w
    }
}

// ---------------------------------------------------------------------------
// revoke
// ---------------------------------------------------------------------------

/// The error `revoke_confirmation` reports, if any.
pub open spec fn revoke_error(w: WalletModel, id: usize, caller: Address) -> Option<Error> {
    if !is_member(w, caller) {
        Some(Error::Unauthorized)
    } else if !valid_action(w, id) {
        Some(Error::UnknownAction)
    } else if w.actions[id as int].executed {
        Some(Error::AlreadyExecuted)
    } else if !w.actions[id as int].confirmers.contains(caller) {
        Some(Error::NotConfirmed)
    } else {
        None
    }
}

/// The state after a successful revocation: the caller's record is cleared
/// and the running count shrinks by one.
pub open spec fn revoke_state(w: WalletModel, id: usize, caller: Address) -> WalletModel {
    let a = w.actions[id as int];
    let a2 = ActionModel {
        confirmers: a.confirmers.remove(caller),
        confirmation_count: (a.confirmation_count - 1) as nat,
        ..a
    };
    WalletModel {
        actions: w.actions.update(id as int, a2),
        events: w.events.push(Event::ConfirmationRevoked { tx_id: id, owner: caller }),
        ..w
    }
}

// ---------------------------------------------------------------------------
// execute
// ---------------------------------------------------------------------------

/// The error `execute_transaction` reports, if any.
pub open spec fn execute_error(w: WalletModel, id: usize, caller: Address) -> Option<Error> {
    if !is_member(w, caller) {
        Some(Error::Unauthorized)
    } else if !valid_action(w, id) {
        Some(Error::UnknownAction)
    } else if w.actions[id as int].executed {
        Some(Error::AlreadyExecuted)
    } else if !executable(w, id) {
        Some(Error::QuorumNotMet)
    } else {
        None
    }
}

/// The state after `execute_transaction` hands out the effect: the action is
/// marked executed *before* the external effect is performed, so a reentrant
/// call that reaches the wallet while the effect runs is refused with
/// `AlreadyExecuted`. No notification is emitted until the outcome is known.
pub open spec fn execute_state(w: WalletModel, id: usize) -> WalletModel {
    let a = w.actions[id as int];
    WalletModel {
        actions: w.actions.update(id as int, ActionModel { executed: true, ..a }),
        ..w
    }
}

/// The state after the host reports the effect's outcome. Success closes the
/// action permanently; failure reopens it for retry. Either way a
/// notification is emitted.
pub open spec fn record_state(
    w: WalletModel,
    id: usize,
    caller: Address,
    success: bool,
) -> WalletModel {
    if success {
        WalletModel {
            events: w.events.push(Event::TransactionExecuted { tx_id: id, executor: caller }),
            ..w
        }
    } else {
        let a = w.actions[id as int];
        WalletModel {
            actions: w.actions.update(id as int, ActionModel { executed: false, ..a }),
            events: w.events.push(Event::TransactionFailed { tx_id: id, executor: caller }),
            ..w
        }
    }
}

// ---------------------------------------------------------------------------
// owner registry
// ---------------------------------------------------------------------------

/// The error `add_owner` reports, if any.
pub open spec fn add_owner_error(w: WalletModel, owner: Address, caller: Address) -> Option<
    Error,
> {
    if !is_self_call(w, caller) {
        Some(Error::Unauthorized)
    } else if owner == 0 {
        Some(Error::InvalidOwner)
    } else if w.owners.contains(owner) {
        Some(Error::DuplicateOwner)
    } else {
        None
    }
}

/// The state after a successful `add_owner`.
pub open spec fn add_owner_state(w: WalletModel, owner: Address) -> WalletModel {
    WalletModel {
        owners: w.owners.push(owner),
        events: w.events.push(Event::OwnerAdded { owner }),
        ..w
    }
}

/// The sequence with the first occurrence of `x` removed by
/// swap-with-last-then-shrink, or unchanged when `x` does not occur. The
/// reordering carries no meaning: the registry is a set.
pub open spec fn swap_remove_first(s: Seq<Address>, x: Address) -> Seq<Address> {
    match s.index_of_first(x) {
        Some(i) => s.update(i, s.last()).drop_last(),
        None => s,
    }
}

/// The sequence with the first occurrence of `x` replaced by `y`, or
/// unchanged when `x` does not occur.
pub open spec fn replace_first(s: Seq<Address>, x: Address, y: Address) -> Seq<Address> {
    match s.index_of_first(x) {
        Some(i) => s.update(i, y),
        None => s,
    }
}

/// The error `remove_owner` reports, if any.
pub open spec fn remove_owner_error(w: WalletModel, owner: Address, caller: Address) -> Option<
    Error,
> {
    if !is_self_call(w, caller) {
        Some(Error::Unauthorized)
    } else if !w.owners.contains(owner) {
        Some(Error::UnknownOwner)
    } else if w.owners.len() <= w.threshold {
        Some(Error::QuorumViolation)
    } else {
        None
    }
}

/// The state after a successful `remove_owner`. Confirmations the departing
/// owner already recorded on pending actions are not disturbed.
pub open spec fn remove_owner_state(w: WalletModel, owner: Address) -> WalletModel {
    WalletModel {
        owners: swap_remove_first(w.owners, owner),
        events: w.events.push(Event::OwnerRemoved { owner }),
        ..w
    }
}

/// The error `replace_owner` reports, if any.
pub open spec fn replace_owner_error(
    w: WalletModel,
    old_owner: Address,
    new_owner: Address,
    caller: Address,
) -> Option<Error> {
    if !is_self_call(w, caller) {
        Some(Error::Unauthorized)
    } else if new_owner == 0 {
        Some(Error::InvalidOwner)
    } else if !w.owners.contains(old_owner) {
        Some(Error::UnknownOwner)
    } else if w.owners.contains(new_owner) {
        Some(Error::DuplicateOwner)
    } else {
        None
    }
}

/// The state after a successful `replace_owner`.
pub open spec fn replace_owner_state(
    w: WalletModel,
    old_owner: Address,
    new_owner: Address,
) -> WalletModel {
    WalletModel {
        owners: replace_first(w.owners, old_owner, new_owner),
        events: w.events
            .push(Event::OwnerRemoved { owner: old_owner })
            .push(Event::OwnerAdded { owner: new_owner }),
        ..w
    }
}

/// The error `change_requirement` reports, if any.
pub open spec fn change_requirement_error(
    w: WalletModel,
    required: usize,
    caller: Address,
) -> Option<Error> {
    if !is_self_call(w, caller) {
        Some(Error::Unauthorized)
    } else if required == 0 || required > w.owners.len() {
        Some(Error::InvalidThreshold)
    } else {
        None
    }
}

/// The state after a successful `change_requirement`.
pub open spec fn change_requirement_state(w: WalletModel, required: usize) -> WalletModel {
    WalletModel {
        threshold: required as nat,
        events: w.events.push(Event::RequirementChanged { required }),
        ..w
    }
}

// ---------------------------------------------------------------------------
// deposit
// ---------------------------------------------------------------------------

/// The state after a `deposit`: incoming transfers are accepted with no
/// precondition and only logged; the balance itself is host-ledger state.
pub open spec fn deposit_state(w: WalletModel, sender: Address, value: u128) -> WalletModel {
    WalletModel {
        events: w.events.push(Event::Deposit { sender, value }),
        ..w
    }
}

} // verus!
