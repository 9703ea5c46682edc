//! The executable wallet and its verified operations.

use vstd::prelude::*;

use crate::errors::Error;
use crate::events::Event;
use crate::model;
use crate::model::ActionModel;
use crate::model::WalletModel;
use crate::Address;

verus! {

/// The first index at which `a` occurs in `v`, if it occurs at all.
fn find_first(v: &Vec<Address>, a: Address) -> (r: Option<usize>)
    ensures
        match r {
            Some(i) => i < v@.len() && v@[i as int] == a && (forall|j: int|
                0 <= j < i ==> v@[j] != a),
            None => !v@.contains(a),
        },
{
    let n = v.len();
    let mut i: usize = 0;
    while i < n
        invariant
            i <= n,
            n == v@.len(),
            forall|j: int| 0 <= j < i ==> v@[j] != a,
        decreases n - i,
    {
        if v[i] == a {
            return Some(i);
        }
        i = i + 1;
    }
    None
}

/// A fresh copy of a byte vector.
fn copy_bytes(v: &Vec<u8>) -> (r: Vec<u8>)
    ensures
        r@ == v@,
{
    let n = v.len();
    let mut r: Vec<u8> = Vec::new();
    let mut i: usize = 0;
    while i < n
        invariant
            i <= n,
            n == v@.len(),
            r@ == v@.subrange(0, i as int),
        decreases n - i,
    {
        r.push(v[i]);
        proof {
            assert(r@ =~= v@.subrange(0, i + 1 as int));
        }
        i = i + 1;
    }
    proof {
        assert(r@ =~= v@);
    }
    r
}

/// Removing position `i` of a duplicate-free sequence by
/// swap-with-last-then-shrink removes exactly the element at `i` from the
/// sequence's set of elements, and keeps the rest duplicate-free.
proof fn lemma_swap_remove_set(s: Seq<Address>, i: int)
    requires
        s.no_duplicates(),
        0 <= i < s.len(),
    ensures
        (s.update(i, s.last()).drop_last()).to_set() =~= s.to_set().remove(s[i]),
        (s.update(i, s.last()).drop_last()).no_duplicates(),
        (s.update(i, s.last()).drop_last()).len() == s.len() - 1,
{
    let s2 = s.update(i, s.last()).drop_last();
    assert forall|p: int, q: int| 0 <= p < q < s2.len() implies s2[p] != s2[q] by {
        if p == i {
            assert(s2[p] == s[s.len() - 1]);
        }
        if q == i {
            assert(s2[q] == s[s.len() - 1]);
        }
    }
    assert forall|x: Address| s2.to_set().contains(x) implies s.to_set().remove(s[i]).contains(
        x,
    ) by {
        let j = choose|j: int| 0 <= j < s2.len() && s2[j] == x;
        if j == i {
            assert(x == s[s.len() - 1]);
        } else {
            assert(x == s[j]);
        }
    }
    assert forall|x: Address| s.to_set().remove(s[i]).contains(x) implies s2.to_set().contains(
        x,
    ) by {
        let k = choose|k: int| 0 <= k < s.len() && s[k] == x;
        if k == s.len() - 1 {
            // x is the last element; it now sits at position i, which is
            // within range because s[i] != x rules out i being the last.
            assert(s2[i] == x);
        } else {
            assert(s2[k] == x);
        }
    }
}

/// A proposed owner list that the scan accepts holds no null identity and no
/// repetition anywhere at or after position `i`.
proof fn lemma_owner_scan_clean(owners: Seq<Address>, i: int)
    requires
        0 <= i,
        model::owner_scan(owners, i) is None,
    ensures
        forall|j: int|
            i <= j < owners.len() ==> owners[j] != 0 && !owners.subrange(0, j).contains(
                owners[j],
            ),
    decreases owners.len() - i,
{
    if i < owners.len() {
        lemma_owner_scan_clean(owners, i + 1);
    }
}

/// One submitted action with its per-action confirmation state.
pub struct Action {
    destination: Address,
    value: u128,
    payload: Vec<u8>,
    executed: bool,
    confirmers: Vec<Address>,
    confirmation_count: usize,
}

impl View for Action {
    type V = ActionModel;

    closed spec fn view(&self) -> ActionModel {
        ActionModel {
            destination: self.destination,
            value: self.value,
            payload: self.payload@,
            executed: self.executed,
            confirmers: self.confirmers@.to_set(),
            confirmation_count: self.confirmation_count as nat,
        }
    }
}

impl Action {
    /// Representation invariant tying the stored count to the recorded
    /// confirmers: the record holds no duplicates, so its length is the
    /// cardinality of the confirmer set.
    pub closed spec fn inv(&self) -> bool {
        &&& self.confirmers@.no_duplicates()
        &&& self.confirmation_count == self.confirmers@.len()
    }
}

/// The external effect a quorate action asks the host to perform: transfer
/// `value` to `destination`, carrying `payload` as instruction data.
#[derive(Debug, PartialEq, Eq)]
pub struct EffectRequest {
    /// Where the transfer is directed.
    pub destination: Address,
    /// The amount transferred.
    pub value: u128,
    /// Auxiliary instruction data handed to the destination.
    pub payload: Vec<u8>,
}

/// A custodial account controlled by a registry of owners, where every action
/// needs a quorum of confirmations before its effect may be performed.
pub struct MultisigWallet {
    wallet_address: Address,
    initialized: bool,
    owners: Vec<Address>,
    threshold: usize,
    actions: Vec<Action>,
    events: Vec<Event>,
}

impl View for MultisigWallet {
    type V = WalletModel;

    closed spec fn view(&self) -> WalletModel {
        WalletModel {
            wallet_address: self.wallet_address,
            initialized: self.initialized,
            owners: self.owners@,
            threshold: self.threshold as nat,
            actions: self.actions@.map_values(|a: Action| a@),
            events: self.events@,
        }
    }
}

impl MultisigWallet {
    /// Representation invariant: the abstract state is well-formed and every
    /// action's confirmer record is duplicate-free.
    pub closed spec fn inv(&self) -> bool {
        &&& model::wf(self@)
        &&& (forall|i: int|
            0 <= i < self.actions@.len() ==> (#[trigger] self.actions@[i]).inv())
    }

    /// The representation invariant implies the model's well-formedness, so
    /// the laws of [`crate::laws`], stated over [`model::wf`], apply to the
    /// state of every wallet value the operations hand back.
    pub proof fn lemma_inv_implies_wf(&self)
        requires
            self.inv(),
        ensures
            model::wf(self@),
    {
    }

    /// A fresh, uninitialized wallet for the account the host addresses as
    /// `wallet_address`.
    pub fn new(wallet_address: Address) -> (w: Self)
        ensures
            w.inv(),
            w@ == model::empty_wallet(wallet_address),
    {
        let w = MultisigWallet {
            wallet_address,
            initialized: false,
            owners: Vec::new(),
            threshold: 0,
            actions: Vec::new(),
            events: Vec::new(),
        };
        proof {
            assert(w@ =~= model::empty_wallet(wallet_address));
        }
        w
    }

    /// The account identity the host addresses this wallet by.
    pub fn wallet_address(&self) -> (a: Address)
        ensures
            a == self@.wallet_address,
    {
        self.wallet_address
    }

    /// How many actions have ever been submitted; ids run from zero up to,
    /// excluding, this count.
    pub fn get_transaction_count(&self) -> (n: usize)
        ensures
            n == self@.actions.len(),
    {
        self.actions.len()
    }

    /// The current confirmation threshold.
    pub fn get_required_confirmations(&self) -> (t: usize)
        ensures
            t == self@.threshold,
    {
        self.threshold
    }

    /// Every notification emitted so far, oldest first.
    pub fn events(&self) -> (e: &Vec<Event>)
        ensures
            e@ == self@.events,
    {
        &self.events
    }

    /// Whether `a` is a current owner. The membership test and the registry
    /// sequence agree on every address, at all times.
    pub fn is_owner(&self, a: Address) -> (r: bool)
        ensures
            r == model::is_member(self@, a),
    {
        find_first(&self.owners, a).is_some()
    }

    /// The confirmation tally's confirm path: record the caller's
    /// confirmation on an existing, not yet executed action it has not
    /// already confirmed. The caller's membership in the owner registry has
    /// been checked by the entry point.
    fn confirm_inner(&mut self, tx_id: usize, caller: Address) -> (r: Result<(), Error>)
        requires
            old(self).inv(),
        ensures
            final(self).inv(),
            match r {
                Ok(()) => model::confirm_tally_error(old(self)@, tx_id, caller) is None
                    && final(self)@ == model::confirm_state(old(self)@, tx_id, caller),
                Err(e) => model::confirm_tally_error(old(self)@, tx_id, caller) == Some(e)
                    && *final(self) == *old(self),
            },
    {
        if tx_id >= self.actions.len() {
            return Err(Error::UnknownAction);
        }
        if self.actions[tx_id].executed {
            return Err(Error::AlreadyExecuted);
        }
        if find_first(&self.actions[tx_id].confirmers, caller).is_some() {
            proof {
                assert(old(self)@.actions[tx_id as int].confirmers.contains(caller));
            }
            return Err(Error::AlreadyConfirmed);
        }
        let ghost m0 = self@;
        let ghost a0 = self@.actions[tx_id as int];
        let tx = &mut self.actions[tx_id];
        tx.confirmers.push(caller);
        let n = tx.confirmers.len();
        tx.confirmation_count = n;
        self.events.push(Event::TransactionConfirmed { tx_id, owner: caller });
        proof {
            let s0 = old(self).actions@[tx_id as int].confirmers@;
            let s1 = self.actions@[tx_id as int].confirmers@;
            assert(s1 == s0.push(caller));
            s0.lemma_push_to_set_commute(caller);
            assert(s1.no_duplicates()) by {
                assert forall|p: int, q: int| 0 <= p < q < s1.len() implies s1[p] != s1[q] by {
                    if q == s0.len() {
                        if s1[p] == caller {
                            assert(s0.contains(caller));
                        }
                    }
                }
            }
            let a1 = self.actions@[tx_id as int]@;
            let a2 = model::confirm_state(m0, tx_id, caller).actions[tx_id as int];
            assert(a1.confirmers =~= a2.confirmers);
            assert(a1 =~= a2);
            assert(self@.actions =~~= model::confirm_state(m0, tx_id, caller).actions);
            assert(self@ =~~= model::confirm_state(m0, tx_id, caller));
        }
        Ok(())
    }

    /// One-time setup by the deployer: install the owner registry and the
    /// confirmation threshold. The proposed list is scanned from the front
    /// and the first offending entry decides the error; nothing is changed on
    /// any error.
    #[verifier::loop_isolation(false)]
    pub fn initialize(&mut self, owners: Vec<Address>, required: usize) -> (r: Result<
        (),
        Error,
    >)
        requires
            old(self).inv(),
        ensures
            final(self).inv(),
            match r {
                Ok(()) => model::initialize_error(old(self)@, owners@, required) is None
                    && final(self)@ == model::initialize_state(old(self)@, owners@, required),
                Err(e) => model::initialize_error(old(self)@, owners@, required) == Some(e)
                    && *final(self) == *old(self),
            },
    {
        if self.initialized {
            return Err(Error::AlreadyInitialized);
        }
        if required == 0 || required > owners.len() {
            return Err(Error::InvalidThreshold);
        }
        let ghost m0 = self@;
        let ghost olist = owners@;
        let n = owners.len();
        let mut i: usize = 0;
        while i < n
            invariant
                i <= n,
                n == olist.len(),
                olist == owners@,
                model::owner_scan(olist, 0) == model::owner_scan(olist, i as int),
            decreases n - i,
        {
            if owners[i] == 0 {
                return Err(Error::InvalidOwner);
            }
            // Find the first occurrence of this entry; anything earlier than
            // the current position is a repetition.
            proof {
                assert(olist.contains(olist[i as int]));
            }
            let first = find_first(&owners, owners[i]);
            let k = first.unwrap();
            if k < i {
                proof {
                    assert(olist.subrange(0, i as int)[k as int] == olist[i as int]);
                    assert(olist.subrange(0, i as int).contains(olist[i as int]));
                }
                return Err(Error::DuplicateOwner);
            }
            proof {
                assert(k == i);
                assert(!olist.subrange(0, i as int).contains(olist[i as int])) by {
                    if olist.subrange(0, i as int).contains(olist[i as int]) {
                        let j = choose|j: int|
                            0 <= j < i && olist.subrange(0, i as int)[j] == olist[i as int];
                        assert(olist[j] == olist[i as int]);
                    }
                }
            }
            i = i + 1;
        }
        proof {
            lemma_owner_scan_clean(olist, 0);
            assert(olist.no_duplicates()) by {
                assert forall|p: int, q: int| 0 <= p < q < olist.len() implies olist[p]
                    != olist[q] by {
                    assert(olist.subrange(0, q)[p] == olist[p]);
                    if olist[p] == olist[q] {
                        assert(olist.subrange(0, q).contains(olist[q]));
                    }
                }
            }
            assert(!olist.contains(0)) by {
                if olist.contains(0) {
                    let j = choose|j: int| 0 <= j < olist.len() && olist[j] == 0;
                }
            }
        }
        self.owners = owners;
        self.threshold = required;
        self.initialized = true;
        proof {
            assert(self.events@ =~= m0.events + model::owner_added_events(
                olist.subrange(0, 0),
            ));
        }
        let mut i: usize = 0;
        while i < n
            invariant
                i <= n,
                n == olist.len(),
                self.owners@ == olist,
                self.wallet_address == m0.wallet_address,
                self.initialized,
                self.threshold == required,
                self.actions@ == old(self).actions@,
                self.events@ == m0.events + model::owner_added_events(
                    olist.subrange(0, i as int),
                ),
            decreases n - i,
        {
            let o = self.owners[i];
            self.events.push(Event::OwnerAdded { owner: o });
            proof {
                assert(self.events@ =~= m0.events + model::owner_added_events(
                    olist.subrange(0, i + 1 as int),
                ));
            }
            i = i + 1;
        }
        self.events.push(Event::RequirementChanged { required });
        proof {
            assert(olist.subrange(0, n as int) =~= olist);
            assert(self@ =~~= model::initialize_state(m0, olist, required));
        }
        Ok(())
    }

    /// Submit a new action: a transfer of `value` to `to`, carrying
    /// `payload`. The action is appended to the permanent log under the next
    /// sequential id, which is returned, and is immediately confirmed by the
    /// submitter.
    pub fn submit_transaction(
        &mut self,
        to: Address,
        value: u128,
        payload: Vec<u8>,
        caller: Address,
    ) -> (r: Result<usize, Error>)
        requires
            old(self).inv(),
        ensures
            final(self).inv(),
            match r {
                Ok(id) => model::submit_error(old(self)@, to, caller) is None
                    && id == old(self)@.actions.len()
                    && final(self)@ == model::submit_state(old(self)@, to, value, payload@, caller),
                Err(e) => model::submit_error(old(self)@, to, caller) == Some(e)
                    && *final(self) == *old(self),
            },
    {
        if !self.is_owner(caller) {
            return Err(Error::Unauthorized);
        }
        if to == 0 {
            return Err(Error::InvalidDestination);
        }
        let ghost m0 = self@;
        let tx_id = self.actions.len();
        let action = Action {
            destination: to,
            value,
            payload,
            executed: false,
            confirmers: Vec::new(),
            confirmation_count: 0,
        };
        self.actions.push(action);
        self.events.push(Event::TransactionSubmitted { tx_id, submitter: caller, to, value });
        proof {
            assert(Seq::<Address>::empty().to_set() =~= Set::<Address>::empty());
            assert(self@.actions =~~= m0.actions.push(self.actions@[tx_id as int]@));
            assert(self.inv());
        }
        let ghost m1 = self@;
        match self.confirm_inner(tx_id, caller) {
            Ok(()) => {
                proof {
                    let target = model::submit_state(m0, to, value, payload@, caller);
                    assert(self@.actions =~~= target.actions);
                    assert(self@ =~~= target);
                }
                Ok(tx_id)
            },
            Err(e) => {
                proof {
                    // A freshly appended action exists, is not executed, and
                    // carries no confirmation, so the tally cannot refuse it.
                    assert(model::confirm_tally_error(m1, tx_id, caller) is None);
                    assert(false);
                }
                Err(e)
            },
        }
    }

    /// Record the calling owner's confirmation of an action.
    pub fn confirm_transaction(&mut self, tx_id: usize, caller: Address) -> (r: Result<
        (),
        Error,
    >)
        requires
            old(self).inv(),
        ensures
            final(self).inv(),
            match r {
                Ok(()) => model::confirm_error(old(self)@, tx_id, caller) is None
                    && final(self)@ == model::confirm_state(old(self)@, tx_id, caller),
                Err(e) => model::confirm_error(old(self)@, tx_id, caller) == Some(e)
                    && *final(self) == *old(self),
            },
    {
        if !self.is_owner(caller) {
            return Err(Error::Unauthorized);
        }
        self.confirm_inner(tx_id, caller)
    }

    /// Withdraw the calling owner's confirmation of a not yet executed
    /// action.
    pub fn revoke_confirmation(&mut self, tx_id: usize, caller: Address) -> (r: Result<
        (),
        Error,
    >)
        requires
            old(self).inv(),
        ensures
            final(self).inv(),
            match r {
                Ok(()) => model::revoke_error(old(self)@, tx_id, caller) is None
                    && final(self)@ == model::revoke_state(old(self)@, tx_id, caller),
                Err(e) => model::revoke_error(old(self)@, tx_id, caller) == Some(e)
                    && *final(self) == *old(self),
            },
    {
        if !self.is_owner(caller) {
            return Err(Error::Unauthorized);
        }
        if tx_id >= self.actions.len() {
            return Err(Error::UnknownAction);
        }
        if self.actions[tx_id].executed {
            return Err(Error::AlreadyExecuted);
        }
        match find_first(&self.actions[tx_id].confirmers, caller) {
            None => Err(Error::NotConfirmed),
            Some(i) => {
                let ghost m0 = self@;
                proof {
                    assert(old(self)@.actions[tx_id as int].confirmers.contains(caller));
                }
                let tx = &mut self.actions[tx_id];
                proof {
                    // The found index is unique, so the swap-removal takes
                    // out exactly the caller's record.
                    lemma_swap_remove_set(tx.confirmers@, i as int);
                }
                tx.confirmers.swap_remove(i);
                let n = tx.confirmers.len();
                tx.confirmation_count = n;
                self.events.push(Event::ConfirmationRevoked { tx_id, owner: caller });
                proof {
                    let a1 = self.actions@[tx_id as int]@;
                    let target = model::revoke_state(m0, tx_id, caller);
                    assert(a1.confirmers =~= target.actions[tx_id as int].confirmers);
                    assert(a1 =~= target.actions[tx_id as int]);
                    assert(self@.actions =~~= target.actions);
                    assert(self@ =~~= target);
                }
                Ok(())
            },
        }
    }

    /// Hand out the external effect of a quorate, not yet executed action.
    ///
    /// The action is marked executed *before* the effect is returned, so a
    /// reentrant call that reaches the wallet while the host performs the
    /// effect observes a closed action and is refused. The host must report
    /// the effect's outcome through [`Self::record_execution_result`].
    pub fn execute_transaction(&mut self, tx_id: usize, caller: Address) -> (r: Result<
        EffectRequest,
        Error,
    >)
        requires
            old(self).inv(),
        ensures
            final(self).inv(),
            match r {
                Ok(req) => model::execute_error(old(self)@, tx_id, caller) is None
                    && final(self)@ == model::execute_state(old(self)@, tx_id)
                    && req.destination == old(self)@.actions[tx_id as int].destination
                    && req.value == old(self)@.actions[tx_id as int].value
                    && req.payload@ == old(self)@.actions[tx_id as int].payload,
                Err(e) => model::execute_error(old(self)@, tx_id, caller) == Some(e)
                    && *final(self) == *old(self),
            },
    {
        if !self.is_owner(caller) {
            return Err(Error::Unauthorized);
        }
        if tx_id >= self.actions.len() {
            return Err(Error::UnknownAction);
        }
        if self.actions[tx_id].executed {
            return Err(Error::AlreadyExecuted);
        }
        if self.actions[tx_id].confirmation_count < self.threshold {
            return Err(Error::QuorumNotMet);
        }
        let ghost m0 = self@;
        let tx = &mut self.actions[tx_id];
        tx.executed = true;
        let tx = &self.actions[tx_id];
        let req = EffectRequest {
            destination: tx.destination,
            value: tx.value,
            payload: copy_bytes(&tx.payload),
        };
        proof {
            let target = model::execute_state(m0, tx_id);
            assert(self.actions@[tx_id as int]@ =~= target.actions[tx_id as int]);
            assert(self@.actions =~~= target.actions);
            assert(self@ =~~= target);
        }
        Ok(req)
    }

    /// Report the outcome of the external effect handed out by
    /// [`Self::execute_transaction`]. Success closes the action permanently;
    /// failure reopens it, with its confirmations intact, so the caller may
    /// retry once the underlying cause is resolved. Either way the outcome is
    /// logged. This is the one path on which a failure changes state, and it
    /// runs only in the outer, non-reentrant invocation, after the effect has
    /// returned.
    pub fn record_execution_result(&mut self, tx_id: usize, caller: Address, success: bool)
        requires
            old(self).inv(),
            tx_id < old(self)@.actions.len(),
            old(self)@.actions[tx_id as int].executed,
        ensures
            final(self).inv(),
            final(self)@ == model::record_state(old(self)@, tx_id, caller, success),
    {
        let ghost m0 = self@;
        if success {
            self.events.push(Event::TransactionExecuted { tx_id, executor: caller });
            proof {
                assert(self@ =~~= model::record_state(m0, tx_id, caller, true));
            }
        } else {
            let tx = &mut self.actions[tx_id];
            tx.executed = false;
            self.events.push(Event::TransactionFailed { tx_id, executor: caller });
            proof {
                let target = model::record_state(m0, tx_id, caller, false);
                assert(self.actions@[tx_id as int]@ =~= target.actions[tx_id as int]);
                assert(self@.actions =~~= target.actions);
                assert(self@ =~~= target);
            }
        }
    }

    /// Admit a new owner. Reserved to the wallet's own authorized-execution
    /// path: membership changes must themselves gather a quorum.
    pub fn add_owner(&mut self, owner: Address, caller: Address) -> (r: Result<(), Error>)
        requires
            old(self).inv(),
        ensures
            final(self).inv(),
            match r {
                Ok(()) => model::add_owner_error(old(self)@, owner, caller) is None
                    && final(self)@ == model::add_owner_state(old(self)@, owner),
                Err(e) => model::add_owner_error(old(self)@, owner, caller) == Some(e)
                    && *final(self) == *old(self),
            },
    {
        if !(caller == self.wallet_address && self.initialized) {
            return Err(Error::Unauthorized);
        }
        if owner == 0 {
            return Err(Error::InvalidOwner);
        }
        if self.is_owner(owner) {
            return Err(Error::DuplicateOwner);
        }
        let ghost m0 = self@;
        self.owners.push(owner);
        self.events.push(Event::OwnerAdded { owner });
        proof {
            let s0 = m0.owners;
            let s1 = self.owners@;
            assert(s1.no_duplicates()) by {
                assert forall|p: int, q: int| 0 <= p < q < s1.len() implies s1[p] != s1[q] by {
                    if q == s0.len() && s1[p] == owner {
                        assert(s0.contains(owner));
                    }
                }
            }
            assert(!s1.contains(0)) by {
                if s1.contains(0) {
                    let j = choose|j: int| 0 <= j < s1.len() && s1[j] == 0;
                    if j < s0.len() {
                        assert(s0.contains(0));
                    }
                }
            }
            assert(self@ =~~= model::add_owner_state(m0, owner));
        }
        Ok(())
    }

    /// Expel an owner, unless that would leave fewer owners than the
    /// threshold. Reserved to the wallet's own authorized-execution path.
    /// Confirmations the departing owner recorded on pending actions are not
    /// disturbed.
    pub fn remove_owner(&mut self, owner: Address, caller: Address) -> (r: Result<(), Error>)
        requires
            old(self).inv(),
        ensures
            final(self).inv(),
            match r {
                Ok(()) => model::remove_owner_error(old(self)@, owner, caller) is None
                    && final(self)@ == model::remove_owner_state(old(self)@, owner),
                Err(e) => model::remove_owner_error(old(self)@, owner, caller) == Some(e)
                    && *final(self) == *old(self),
            },
    {
        if !(caller == self.wallet_address && self.initialized) {
            return Err(Error::Unauthorized);
        }
        let found = find_first(&self.owners, owner);
        if found.is_none() {
            return Err(Error::UnknownOwner);
        }
        if self.owners.len() <= self.threshold {
            proof {
                assert(old(self)@.owners.contains(owner));
            }
            return Err(Error::QuorumViolation);
        }
        let i = found.unwrap();
        let ghost m0 = self@;
        proof {
            // The found first index is the one the model removes at.
            m0.owners.index_of_first_ensures(owner);
            let k = m0.owners.index_of_first(owner).unwrap();
            assert(k == i);
            lemma_swap_remove_set(m0.owners, i as int);
        }
        self.owners.swap_remove(i);
        self.events.push(Event::OwnerRemoved { owner });
        proof {
            let s1 = self.owners@;
            assert(!s1.contains(0)) by {
                if s1.contains(0) {
                    assert(s1.to_set().contains(0));
                    assert(m0.owners.to_set().contains(0));
                    assert(m0.owners.contains(0));
                }
            }
            assert(self@ =~~= model::remove_owner_state(m0, owner));
        }
        Ok(())
    }

    /// Swap one owner for another in a single step: the registry's size and
    /// the threshold are untouched. Reserved to the wallet's own
    /// authorized-execution path.
    pub fn replace_owner(
        &mut self,
        old_owner: Address,
        new_owner: Address,
        caller: Address,
    ) -> (r: Result<(), Error>)
        requires
            old(self).inv(),
        ensures
            final(self).inv(),
            match r {
                Ok(()) => model::replace_owner_error(old(self)@, old_owner, new_owner, caller)
                    is None
                    && final(self)@ == model::replace_owner_state(old(self)@, old_owner, new_owner),
                Err(e) => model::replace_owner_error(old(self)@, old_owner, new_owner, caller)
                    == Some(e) && *final(self) == *old(self),
            },
    {
        if !(caller == self.wallet_address && self.initialized) {
            return Err(Error::Unauthorized);
        }
        if new_owner == 0 {
            return Err(Error::InvalidOwner);
        }
        let found = find_first(&self.owners, old_owner);
        if found.is_none() {
            return Err(Error::UnknownOwner);
        }
        if self.is_owner(new_owner) {
            proof {
                assert(old(self)@.owners.contains(old_owner));
            }
            return Err(Error::DuplicateOwner);
        }
        let i = found.unwrap();
        let ghost m0 = self@;
        proof {
            m0.owners.index_of_first_ensures(old_owner);
            let k = m0.owners.index_of_first(old_owner).unwrap();
            assert(k == i);
        }
        self.owners.set(i, new_owner);
        self.events.push(Event::OwnerRemoved { owner: old_owner });
        self.events.push(Event::OwnerAdded { owner: new_owner });
        proof {
            let s0 = m0.owners;
            let s1 = self.owners@;
            assert(s1.no_duplicates()) by {
                assert forall|p: int, q: int| 0 <= p < q < s1.len() implies s1[p] != s1[q] by {
                    if p == i && s1[q] == new_owner {
                        assert(s0.contains(new_owner));
                    }
                    if q == i && s1[p] == new_owner {
                        assert(s0.contains(new_owner));
                    }
                }
            }
            assert(!s1.contains(0)) by {
                if s1.contains(0) {
                    let j = choose|j: int| 0 <= j < s1.len() && s1[j] == 0;
                    if j != i {
                        assert(s0.contains(0));
                    }
                }
            }
            assert(self@ =~~= model::replace_owner_state(m0, old_owner, new_owner));
        }
        Ok(())
    }

    /// Change the confirmation threshold. Reserved to the wallet's own
    /// authorized-execution path. The new threshold applies to every pending
    /// action: executability is always judged against the current threshold.
    pub fn change_requirement(&mut self, required: usize, caller: Address) -> (r: Result<
        (),
        Error,
    >)
        requires
            old(self).inv(),
        ensures
            final(self).inv(),
            match r {
                Ok(()) => model::change_requirement_error(old(self)@, required, caller) is None
                    && final(self)@ == model::change_requirement_state(old(self)@, required),
                Err(e) => model::change_requirement_error(old(self)@, required, caller) == Some(e)
                    && *final(self) == *old(self),
            },
    {
        if !(caller == self.wallet_address && self.initialized) {
            return Err(Error::Unauthorized);
        }
        if required == 0 || required > self.owners.len() {
            return Err(Error::InvalidThreshold);
        }
        let ghost m0 = self@;
        self.threshold = required;
        self.events.push(Event::RequirementChanged { required });
        proof {
            assert(self@ =~~= model::change_requirement_state(m0, required));
        }
        Ok(())
    }

    /// Accept an incoming transfer. There are no preconditions; the transfer
    /// is only logged, since the balance itself is host-ledger state.
    pub fn deposit(&mut self, sender: Address, value: u128)
        requires
            old(self).inv(),
        ensures
            final(self).inv(),
            final(self)@ == model::deposit_state(old(self)@, sender, value),
    {
        let ghost m0 = self@;
        self.events.push(Event::Deposit { sender, value });
        proof {
            assert(self@ =~~= model::deposit_state(m0, sender, value));
        }
    }

    /// The stored details of an action: destination, value, payload,
    /// executed flag, and confirmation count.
    pub fn get_transaction(&self, tx_id: usize) -> (r: Result<
        (Address, u128, Vec<u8>, bool, usize),
        Error,
    >)
        ensures
            match r {
                Ok(t) => ({
                    let a = self@.actions[tx_id as int];
                    model::valid_action(self@, tx_id) && t.0 == a.destination && t.1 == a.value
                        && t.2@ == a.payload && t.3 == a.executed && t.4 == a.confirmation_count
                }),
                Err(e) => e == Error::UnknownAction && !model::valid_action(self@, tx_id),
            },
    {
        if tx_id >= self.actions.len() {
            return Err(Error::UnknownAction);
        }
        let tx = &self.actions[tx_id];
        Ok((tx.destination, tx.value, copy_bytes(&tx.payload), tx.executed, tx.confirmation_count))
    }

    /// The stored running confirmation count of an action.
    pub fn get_confirmation_count(&self, tx_id: usize) -> (r: Result<usize, Error>)
        ensures
            match r {
                Ok(n) => model::valid_action(self@, tx_id) && n == self@.actions[tx_id as int].confirmation_count,
                Err(e) => e == Error::UnknownAction && !model::valid_action(self@, tx_id),
            },
    {
        if tx_id >= self.actions.len() {
            return Err(Error::UnknownAction);
        }
        Ok(self.actions[tx_id].confirmation_count)
    }

    /// Whether `owner`'s confirmation is currently recorded on the action.
    pub fn is_confirmed_by(&self, tx_id: usize, owner: Address) -> (r: Result<bool, Error>)
        ensures
            match r {
                Ok(b) => model::valid_action(self@, tx_id) && b == self@.actions[tx_id as int].confirmers.contains(owner),
                Err(e) => e == Error::UnknownAction && !model::valid_action(self@, tx_id),
            },
    {
        if tx_id >= self.actions.len() {
            return Err(Error::UnknownAction);
        }
        Ok(find_first(&self.actions[tx_id].confirmers, owner).is_some())
    }

    /// The owner registry as a list. Order carries no meaning; it changes
    /// when an owner is removed.
    pub fn get_owners(&self) -> (r: Vec<Address>)
        ensures
            r@ == self@.owners,
    {
        let n = self.owners.len();
        let mut r: Vec<Address> = Vec::new();
        let mut i: usize = 0;
        while i < n
            invariant
                i <= n,
                n == self.owners@.len(),
                r@ == self.owners@.subrange(0, i as int),
            decreases n - i,
        {
            r.push(self.owners[i]);
            proof {
                assert(r@ =~= self.owners@.subrange(0, i + 1 as int));
            }
            i = i + 1;
        }
        proof {
            assert(r@ =~= self.owners@);
        }
        r
    }
}

} // verus!
