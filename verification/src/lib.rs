//! A threshold multi-party authorization and execution engine.
//!
//! A custodial account is controlled by a registry of owners. Any
//! state-changing action (a value transfer together with an instruction
//! payload) must gather a quorum of independent owner confirmations before it
//! may be executed, and execution marks the action closed before its external
//! effect is performed, so that a reentrant call cannot trigger the same
//! action twice.
//!
//! The library is a pure state machine: the host environment supplies caller
//! identities, performs the external effect between
//! [`wallet::MultisigWallet::execute_transaction`] and
//! [`wallet::MultisigWallet::record_execution_result`], and consumes the
//! emitted events.

use vstd::prelude::*;

pub mod errors;
pub mod events;
pub mod laws;
pub mod model;
pub mod wallet;

pub use errors::Error;
pub use events::Event;
pub use wallet::EffectRequest;
pub use wallet::MultisigWallet;

verus! {

/// An account identity as the host ledger authenticates it. The null
/// identity, `0`, is never a valid owner or destination.
pub type Address = u128;

} // verus!
