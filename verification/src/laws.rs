//! The laws the wallet obeys, proved once and for all over the model.
//!
//! Each law is stated against the spec functions of [`crate::model`] that the
//! executable operations' contracts are written in, so it carries over to
//! every run of the executable wallet.

use vstd::prelude::*;

use crate::errors::Error;
use crate::model;
use crate::model::WalletModel;
use crate::Address;

verus! {

/// Law: in every well-formed wallet state, each action's stored confirmation
/// count equals the number of identities whose confirmation is recorded on
/// it. Every operation of the wallet preserves well-formedness, so the
/// equality holds at all times.
pub proof fn lemma_confirmation_count_exact(w: WalletModel, id: int)
    requires
        model::wf(w),
        0 <= id < w.actions.len(),
    ensures
        w.actions[id].confirmation_count == w.actions[id].confirmers.len(),
{
}

/// Law: as long as every recorded confirmer of an action is still an owner —
/// which holds until an owner who confirmed is removed or replaced — the
/// stored count also equals the number of *owners* whose confirmation is
/// recorded.
pub proof fn lemma_confirmation_count_among_owners(w: WalletModel, id: int)
    requires
        model::wf(w),
        0 <= id < w.actions.len(),
        w.actions[id].confirmers.subset_of(w.owners.to_set()),
    ensures
        w.actions[id].confirmation_count == w.owners.to_set().intersect(
            w.actions[id].confirmers,
        ).len(),
{
    assert(w.owners.to_set().intersect(w.actions[id].confirmers) =~= w.actions[id].confirmers);
}

/// Law: in every well-formed initialized wallet state, the threshold lies
/// between one and the owner count, inclusive.
pub proof fn lemma_threshold_bounds(w: WalletModel)
    requires
        model::wf(w),
        w.initialized,
    ensures
        1 <= w.threshold <= w.owners.len(),
{
}

/// Law: a confirmation is not repeatable. Once a caller's confirmation
/// succeeds, confirming the same action again is refused with
/// `AlreadyConfirmed` — and a refused confirmation leaves the wallet, hence
/// the stored count, unchanged, as the contract of
/// [`crate::wallet::MultisigWallet::confirm_transaction`] states for every
/// error.
pub proof fn lemma_confirm_twice_rejected(w: WalletModel, id: usize, caller: Address)
    requires
        model::confirm_error(w, id, caller) is None,
    ensures
        model::confirm_error(model::confirm_state(w, id, caller), id, caller) == Some(
            Error::AlreadyConfirmed,
        ),
{
    let w1 = model::confirm_state(w, id, caller);
    assert(w1.actions[id as int].confirmers.contains(caller));
}

/// Law: an action's effect is handed out at most once. After
/// `execute_transaction` succeeds, a second call on the same action — by any
/// caller, while the effect is still being performed or after it — is
/// refused, and refused calls change nothing; an owner's repeated call is
/// refused precisely with `AlreadyExecuted`.
pub proof fn lemma_execute_at_most_once(w: WalletModel, id: usize, first: Address, second: Address)
    requires
        model::execute_error(w, id, first) is None,
    ensures
        model::execute_error(model::execute_state(w, id), id, second) is Some,
        model::is_member(model::execute_state(w, id), second) ==> model::execute_error(
            model::execute_state(w, id),
            id,
            second,
        ) == Some(Error::AlreadyExecuted),
{
    let w1 = model::execute_state(w, id);
    assert(w1.actions[id as int].executed);
}

/// Law: with the threshold equal to the owner count, revoking any single
/// confirmation of a fully confirmed, not yet executed action makes it
/// non-executable — provided every recorded confirmer is still an owner,
/// which holds until an owner who confirmed is removed or replaced.
pub proof fn lemma_revoke_breaks_full_quorum(w: WalletModel, id: usize, caller: Address)
    requires
        model::wf(w),
        w.threshold == w.owners.len(),
        model::revoke_error(w, id, caller) is None,
        model::executable(w, id),
        w.actions[id as int].confirmers.subset_of(w.owners.to_set()),
    ensures
        !model::executable(model::revoke_state(w, id, caller), id),
{
    let a = w.actions[id as int];
    w.owners.unique_seq_to_set();
    vstd::set_lib::lemma_len_subset(a.confirmers, w.owners.to_set());
    assert(a.confirmation_count <= w.threshold);
    let w1 = model::revoke_state(w, id, caller);
    assert(w1.actions[id as int].confirmation_count == a.confirmation_count - 1);
}

} // verus!
