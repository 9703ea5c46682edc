use multisig::Error;
use multisig::Event;
use multisig::MultisigWallet;

const WALLET: u128 = 0xabc;
const A: u128 = 1;
const B: u128 = 2;
const C: u128 = 3;
const D: u128 = 4;
const DEST: u128 = 77;

fn fresh_wallet(threshold: usize) -> MultisigWallet {
    let mut w = MultisigWallet::new(WALLET);
    w.initialize(vec![A, B, C], threshold).unwrap();
    w
}

#[test]
fn initialize_sets_registry_and_threshold() {
    let w = fresh_wallet(2);
    assert_eq!(w.get_owners(), vec![A, B, C]);
    assert!(w.is_owner(A));
    assert!(w.is_owner(B));
    assert!(w.is_owner(C));
    assert!(!w.is_owner(D));
    assert_eq!(w.get_required_confirmations(), 2);
    assert_eq!(w.get_transaction_count(), 0);
    assert_eq!(
        w.events().as_slice(),
        &[
            Event::OwnerAdded { owner: A },
            Event::OwnerAdded { owner: B },
            Event::OwnerAdded { owner: C },
            Event::RequirementChanged { required: 2 },
        ]
    );
}

#[test]
fn initialize_twice_is_rejected() {
    let mut w = fresh_wallet(2);
    assert_eq!(w.initialize(vec![D], 1), Err(Error::AlreadyInitialized));
}

#[test]
fn initialize_rejects_bad_thresholds() {
    let mut w = MultisigWallet::new(WALLET);
    assert_eq!(w.initialize(vec![A, B], 0), Err(Error::InvalidThreshold));
    assert_eq!(w.initialize(vec![A, B], 3), Err(Error::InvalidThreshold));
    assert_eq!(w.initialize(vec![], 1), Err(Error::InvalidThreshold));
    // Nothing changed: setup can still happen.
    assert_eq!(w.initialize(vec![A, B], 2), Ok(()));
}

#[test]
fn initialize_rejects_bad_owner_lists() {
    let mut w = MultisigWallet::new(WALLET);
    assert_eq!(w.initialize(vec![A, 0, B], 1), Err(Error::InvalidOwner));
    assert_eq!(w.initialize(vec![A, B, A], 1), Err(Error::DuplicateOwner));
    // The first offence decides: the null identity sits before the repeat.
    assert_eq!(w.initialize(vec![A, 0, A], 1), Err(Error::InvalidOwner));
    assert_eq!(w.get_owners(), Vec::<u128>::new());
}

#[test]
fn submit_appends_and_auto_confirms() {
    let mut w = fresh_wallet(2);
    let id = w.submit_transaction(DEST, 500, vec![1, 2, 3], A).unwrap();
    assert_eq!(id, 0);
    assert_eq!(w.get_transaction_count(), 1);
    assert_eq!(w.get_confirmation_count(0), Ok(1));
    assert_eq!(w.is_confirmed_by(0, A), Ok(true));
    assert_eq!(w.is_confirmed_by(0, B), Ok(false));
    assert_eq!(
        w.get_transaction(0),
        Ok((DEST, 500, vec![1, 2, 3], false, 1))
    );
    assert_eq!(
        w.events().as_slice(),
        &[
            Event::OwnerAdded { owner: A },
            Event::OwnerAdded { owner: B },
            Event::OwnerAdded { owner: C },
            Event::RequirementChanged { required: 2 },
            Event::TransactionSubmitted { tx_id: 0, submitter: A, to: DEST, value: 500 },
            Event::TransactionConfirmed { tx_id: 0, owner: A },
        ]
    );
    // Ids are sequential.
    assert_eq!(w.submit_transaction(DEST, 1, vec![], B), Ok(1));
}

#[test]
fn submit_rejections() {
    let mut w = fresh_wallet(2);
    assert_eq!(
        w.submit_transaction(DEST, 500, vec![], D),
        Err(Error::Unauthorized)
    );
    assert_eq!(
        w.submit_transaction(0, 500, vec![], A),
        Err(Error::InvalidDestination)
    );
    assert_eq!(w.get_transaction_count(), 0);
}

#[test]
fn confirm_rejections() {
    let mut w = fresh_wallet(2);
    w.submit_transaction(DEST, 500, vec![], A).unwrap();
    assert_eq!(w.confirm_transaction(0, D), Err(Error::Unauthorized));
    assert_eq!(w.confirm_transaction(9, B), Err(Error::UnknownAction));
    assert_eq!(w.confirm_transaction(0, A), Err(Error::AlreadyConfirmed));
    assert_eq!(w.get_confirmation_count(0), Ok(1));
}

#[test]
fn confirming_twice_never_moves_the_count() {
    let mut w = fresh_wallet(3);
    w.submit_transaction(DEST, 500, vec![], A).unwrap();
    assert_eq!(w.confirm_transaction(0, B), Ok(()));
    assert_eq!(w.get_confirmation_count(0), Ok(2));
    assert_eq!(w.confirm_transaction(0, B), Err(Error::AlreadyConfirmed));
    assert_eq!(w.get_confirmation_count(0), Ok(2));
}

#[test]
fn revoke_clears_one_confirmation() {
    let mut w = fresh_wallet(2);
    w.submit_transaction(DEST, 500, vec![], A).unwrap();
    w.confirm_transaction(0, B).unwrap();
    assert_eq!(w.revoke_confirmation(0, B), Ok(()));
    assert_eq!(w.get_confirmation_count(0), Ok(1));
    assert_eq!(w.is_confirmed_by(0, B), Ok(false));
    assert_eq!(w.is_confirmed_by(0, A), Ok(true));
    assert!(w
        .events()
        .contains(&Event::ConfirmationRevoked { tx_id: 0, owner: B }));
}

#[test]
fn revoke_rejections() {
    let mut w = fresh_wallet(2);
    w.submit_transaction(DEST, 500, vec![], A).unwrap();
    assert_eq!(w.revoke_confirmation(0, D), Err(Error::Unauthorized));
    assert_eq!(w.revoke_confirmation(9, A), Err(Error::UnknownAction));
    assert_eq!(w.revoke_confirmation(0, B), Err(Error::NotConfirmed));
}

#[test]
fn three_owners_threshold_two_lifecycle() {
    let mut w = fresh_wallet(2);
    // Owner A submits X: auto-confirmed, count 1, not executable.
    let id = w.submit_transaction(DEST, 500, vec![9], A).unwrap();
    assert_eq!(w.get_confirmation_count(id), Ok(1));
    assert_eq!(w.execute_transaction(id, A), Err(Error::QuorumNotMet));
    // Owner B confirms: count 2, executable.
    w.confirm_transaction(id, B).unwrap();
    assert_eq!(w.get_confirmation_count(id), Ok(2));
    // Owner C executes; the external effect succeeds.
    let req = w.execute_transaction(id, C).unwrap();
    assert_eq!(req.destination, DEST);
    assert_eq!(req.value, 500);
    assert_eq!(req.payload, vec![9]);
    w.record_execution_result(id, C, true);
    assert_eq!(w.get_transaction(id).unwrap().3, true);
    assert!(w
        .events()
        .contains(&Event::TransactionExecuted { tx_id: id, executor: C }));
    // Every further touch of X is refused as already executed.
    assert_eq!(w.execute_transaction(id, A), Err(Error::AlreadyExecuted));
    assert_eq!(w.confirm_transaction(id, C), Err(Error::AlreadyExecuted));
    assert_eq!(w.revoke_confirmation(id, B), Err(Error::AlreadyExecuted));
}

#[test]
fn execute_is_refused_while_the_effect_runs() {
    let mut w = fresh_wallet(2);
    let id = w.submit_transaction(DEST, 500, vec![], A).unwrap();
    w.confirm_transaction(id, B).unwrap();
    let _req = w.execute_transaction(id, A).unwrap();
    // Between handing out the effect and recording its outcome — the window
    // in which a reentrant call could arrive — the action is already closed.
    assert_eq!(w.execute_transaction(id, B), Err(Error::AlreadyExecuted));
    w.record_execution_result(id, A, true);
    assert_eq!(w.execute_transaction(id, B), Err(Error::AlreadyExecuted));
}

#[test]
fn execute_rejections() {
    let mut w = fresh_wallet(2);
    w.submit_transaction(DEST, 500, vec![], A).unwrap();
    assert_eq!(w.execute_transaction(0, D), Err(Error::Unauthorized));
    assert_eq!(w.execute_transaction(9, A), Err(Error::UnknownAction));
    assert_eq!(w.execute_transaction(0, B), Err(Error::QuorumNotMet));
}

#[test]
fn failed_effect_reopens_the_action() {
    let mut w = fresh_wallet(2);
    let id = w.submit_transaction(DEST, 500, vec![], A).unwrap();
    w.confirm_transaction(id, B).unwrap();
    let _req = w.execute_transaction(id, C).unwrap();
    // The host reports that the external effect failed.
    w.record_execution_result(id, C, false);
    assert_eq!(w.get_transaction(id).unwrap().3, false);
    assert!(w
        .events()
        .contains(&Event::TransactionFailed { tx_id: id, executor: C }));
    // With the quorum unchanged, a retry succeeds once the cause is fixed.
    let req = w.execute_transaction(id, C).unwrap();
    assert_eq!(req.destination, DEST);
    w.record_execution_result(id, C, true);
    assert_eq!(w.get_transaction(id).unwrap().3, true);
}

#[test]
fn full_quorum_lost_by_one_revocation() {
    let mut w = fresh_wallet(3);
    let id = w.submit_transaction(DEST, 500, vec![], A).unwrap();
    w.confirm_transaction(id, B).unwrap();
    w.confirm_transaction(id, C).unwrap();
    assert_eq!(w.get_confirmation_count(id), Ok(3));
    w.revoke_confirmation(id, B).unwrap();
    assert_eq!(w.execute_transaction(id, A), Err(Error::QuorumNotMet));
}

#[test]
fn registry_changes_are_reserved_to_the_wallet() {
    let mut w = fresh_wallet(2);
    assert_eq!(w.add_owner(D, A), Err(Error::Unauthorized));
    assert_eq!(w.remove_owner(C, A), Err(Error::Unauthorized));
    assert_eq!(w.replace_owner(C, D, A), Err(Error::Unauthorized));
    assert_eq!(w.change_requirement(1, A), Err(Error::Unauthorized));
    // An uninitialized wallet has no authorized-execution path yet.
    let mut v = MultisigWallet::new(WALLET);
    assert_eq!(v.add_owner(D, WALLET), Err(Error::Unauthorized));
}

#[test]
fn add_owner_grows_the_registry() {
    let mut w = fresh_wallet(2);
    assert_eq!(w.add_owner(0, WALLET), Err(Error::InvalidOwner));
    assert_eq!(w.add_owner(A, WALLET), Err(Error::DuplicateOwner));
    assert_eq!(w.add_owner(D, WALLET), Ok(()));
    assert!(w.is_owner(D));
    assert_eq!(w.get_owners(), vec![A, B, C, D]);
    assert!(w.events().contains(&Event::OwnerAdded { owner: D }));
}

#[test]
fn remove_owner_down_to_the_threshold() {
    let mut w = fresh_wallet(2);
    assert_eq!(w.remove_owner(D, WALLET), Err(Error::UnknownOwner));
    // Three owners, threshold two: one removal lands exactly on the
    // threshold and succeeds.
    assert_eq!(w.remove_owner(A, WALLET), Ok(()));
    assert!(!w.is_owner(A));
    assert_eq!(w.get_owners(), vec![C, B]);
    assert!(w.events().contains(&Event::OwnerRemoved { owner: A }));
    // A further removal would drop below the threshold: refused, registry
    // untouched.
    assert_eq!(w.remove_owner(B, WALLET), Err(Error::QuorumViolation));
    assert_eq!(w.get_owners(), vec![C, B]);
    assert!(w.is_owner(B));
}

#[test]
fn removal_keeps_recorded_confirmations() {
    let mut w = fresh_wallet(2);
    let id = w.submit_transaction(DEST, 500, vec![], A).unwrap();
    w.confirm_transaction(id, B).unwrap();
    w.remove_owner(B, WALLET).unwrap();
    // The departed owner's confirmation still stands on the pending action.
    assert_eq!(w.get_confirmation_count(id), Ok(2));
    assert_eq!(w.is_confirmed_by(id, B), Ok(true));
    let req = w.execute_transaction(id, A);
    assert!(req.is_ok());
}

#[test]
fn replace_owner_swaps_identities() {
    let mut w = fresh_wallet(2);
    assert_eq!(w.replace_owner(A, 0, WALLET), Err(Error::InvalidOwner));
    assert_eq!(w.replace_owner(D, A, WALLET), Err(Error::UnknownOwner));
    assert_eq!(w.replace_owner(A, B, WALLET), Err(Error::DuplicateOwner));
    assert_eq!(w.replace_owner(B, D, WALLET), Ok(()));
    assert!(!w.is_owner(B));
    assert!(w.is_owner(D));
    assert_eq!(w.get_owners(), vec![A, D, C]);
    assert!(w.events().contains(&Event::OwnerRemoved { owner: B }));
    assert!(w.events().contains(&Event::OwnerAdded { owner: D }));
}

#[test]
fn change_requirement_bounds() {
    let mut w = fresh_wallet(2);
    assert_eq!(w.change_requirement(0, WALLET), Err(Error::InvalidThreshold));
    assert_eq!(w.change_requirement(4, WALLET), Err(Error::InvalidThreshold));
    assert_eq!(w.change_requirement(3, WALLET), Ok(()));
    assert_eq!(w.get_required_confirmations(), 3);
    assert!(w.events().contains(&Event::RequirementChanged { required: 3 }));
}

#[test]
fn threshold_is_read_at_execution_time() {
    let mut w = fresh_wallet(2);
    let id = w.submit_transaction(DEST, 500, vec![], A).unwrap();
    // One confirmation is below the threshold of two...
    assert_eq!(w.execute_transaction(id, A), Err(Error::QuorumNotMet));
    // ...but a later threshold reduction authorizes the pending action.
    w.change_requirement(1, WALLET).unwrap();
    assert!(w.execute_transaction(id, A).is_ok());
}

#[test]
fn deposit_is_logged_unconditionally() {
    let mut w = MultisigWallet::new(WALLET);
    w.deposit(D, 12345);
    assert_eq!(
        w.events().as_slice(),
        &[Event::Deposit { sender: D, value: 12345 }]
    );
}

#[test]
fn get_transaction_unknown_id() {
    let w = fresh_wallet(2);
    assert_eq!(w.get_transaction(0), Err(Error::UnknownAction));
    assert_eq!(w.get_confirmation_count(0), Err(Error::UnknownAction));
    assert_eq!(w.is_confirmed_by(0, A), Err(Error::UnknownAction));
}

#[test]
fn count_matches_recorded_confirmers() {
    let mut w = fresh_wallet(3);
    let id = w.submit_transaction(DEST, 500, vec![], B).unwrap();
    w.confirm_transaction(id, C).unwrap();
    w.confirm_transaction(id, A).unwrap();
    w.revoke_confirmation(id, B).unwrap();
    let recorded = [A, B, C, D, WALLET]
        .iter()
        .filter(|o| w.is_confirmed_by(id, **o) == Ok(true))
        .count();
    assert_eq!(w.get_confirmation_count(id), Ok(recorded));
}

#[test]
fn membership_test_agrees_with_the_registry() {
    let mut w = fresh_wallet(2);
    w.remove_owner(B, WALLET).unwrap();
    w.add_owner(D, WALLET).unwrap();
    let owners = w.get_owners();
    for a in [A, B, C, D, WALLET, 0, 0xffff] {
        assert_eq!(w.is_owner(a), owners.contains(&a));
    }
}

#[test]
fn wallet_address_is_kept() {
    let w = MultisigWallet::new(WALLET);
    assert_eq!(w.wallet_address(), WALLET);
}
