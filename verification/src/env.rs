//! The environment of a contract call: its persistent storage, the current
//! ledger, its own address, and what the call hands back to the host (token
//! transfers, events, and the storage keys it wrote).
use vstd::prelude::*;

use crate::address::Address;
use crate::events::BountyEvent;
use crate::storage::{Storage, StorageKey, StorageView};

verus! {

/// A transfer of `amount` of `token` from `from` to `to`, which the host
/// carries out through the token contract.
#[derive(Debug)]
pub struct Transfer {
    pub token: Address,
    pub from: Address,
    pub to: Address,
    pub amount: i128,
}

/// The environment of one contract call.
///
/// A call reads and writes `storage`, reads `ledger_sequence` and
/// `current_contract`, and appends to `transfers`, `events` and `written`,
/// which the host then performs, publishes and persists in that order.
pub struct Env {
    pub storage: Storage,
    /// The sequence number of the ledger in which the call runs.
    pub ledger_sequence: u32,
    /// The escrow contract's own address.
    pub current_contract: Address,
    pub transfers: Vec<Transfer>,
    pub events: Vec<BountyEvent>,
    /// The storage keys written, in the order of writing.
    pub written: Vec<StorageKey>,
}

/// What an [`Env`] holds.
pub struct EnvView {
    pub storage: StorageView,
    pub ledger_sequence: u32,
    pub current_contract: Address,
    pub transfers: Seq<Transfer>,
    pub events: Seq<BountyEvent>,
    pub written: Seq<StorageKey>,
}

impl View for Env {
    type V = EnvView;

    open spec fn view(&self) -> EnvView {
        EnvView {
            storage: self.storage@,
            ledger_sequence: self.ledger_sequence,
            current_contract: self.current_contract,
            transfers: self.transfers@,
            events: self.events@,
            written: self.written@,
        }
    }
}

impl Env {
    /// The environment of a call to the contract at `current_contract`, in
    /// ledger `ledger_sequence`, over `storage`, with nothing done yet.
    pub fn new(storage: Storage, current_contract: Address, ledger_sequence: u32) -> (e: Env)
        ensures
            e@.storage == storage@,
            e@.current_contract == current_contract,
            e@.ledger_sequence == ledger_sequence,
            e@.transfers == Seq::<Transfer>::empty(),
            e@.events == Seq::<BountyEvent>::empty(),
            e@.written == Seq::<StorageKey>::empty(),
    {
        Env {
            storage,
            ledger_sequence,
            current_contract,
            transfers: Vec::new(),
            events: Vec::new(),
            written: Vec::new(),
        }
    }
}

/// Records a transfer of `amount` of `token` from `from` to `to`.
pub fn transfer_token(env: &mut Env, token: &Address, from: &Address, to: &Address, amount: i128)
    ensures
        final(env)@ == (EnvView {
            transfers: old(env)@.transfers.push(
                Transfer { token: *token, from: *from, to: *to, amount },
            ),
            ..old(env)@
        }),
{
    env.transfers.push(Transfer { token: token.clone(), from: from.clone(), to: to.clone(), amount });
}

} // verus!
