//! Escrow of bounty rewards: a bounty is posted with a deposit, claimed by a
//! hunter, and either approved (the deposit goes to the claimant) or cancelled
//! (the deposit goes back to the owner).
//!
//! The crate holds the contract's decisions over plain values.  The hosting
//! environment (authorization, the ledger's persistent storage, token
//! contracts, the event stream) is modelled by [`env::Env`]: the library
//! records the token transfers and events that a call makes, and the storage
//! keys that it writes, and the host carries them out.
use vstd::prelude::*;

pub mod address;
pub mod answers;
pub mod env;
pub mod error;
pub mod escrow;
pub mod events;
pub mod laws;
pub mod storage;

pub use address::Address;
pub use env::{Env, Transfer};
pub use error::SoroQuestError;
pub use escrow::SoroQuestEscrow;
pub use events::BountyEvent;
pub use storage::{Bounty, BountyStatus, BountyView, Storage, StorageKey};

verus! {

} // verus!
