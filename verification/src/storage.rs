//! The bounty record, the keys under which the contract stores its data, and
//! the persistent storage that holds them.
use std::collections::HashMap;
use vstd::prelude::*;

use crate::address::Address;
use crate::env::{Env, EnvView};
use crate::error::SoroQuestError;

verus! {

broadcast use vstd::std_specs::hash::group_hash_axioms;

/// Where a bounty is in its lifecycle.
#[derive(Clone, Copy, Debug, PartialEq, Eq, Structural)]
pub enum BountyStatus {
    /// Funded and available to be claimed.
    Open,
    /// A hunter has claimed it and is working on it.
    Claimed,
    /// The work was approved and the funds were released to the claimant.
    Completed,
    /// The bounty was cancelled and the funds went back to the owner.
    Cancelled,
}

/// A bounty as the contract stores it.
#[derive(Debug)]
pub struct Bounty {
    pub id: u64,
    pub owner: Address,
    /// The title, as the bytes of the host string.
    pub title: Vec<u8>,
    /// The description, as the bytes of the host string.
    pub description: Vec<u8>,
    /// The reward, in the token's smallest unit.
    pub amount: i128,
    /// The token contract in which the reward is paid.
    pub token: Address,
    pub status: BountyStatus,
    /// The hunter who claimed the bounty, if any.
    pub claimant: Option<Address>,
    /// The ledger sequence at which the bounty was posted.
    pub created_at: u64,
    /// The ledger sequence after which the owner may cancel a claimed
    /// bounty; 0 for none.
    pub claim_deadline: u64,
}

/// What a [`Bounty`] holds, with its title and description as byte
/// sequences.
pub struct BountyView {
    pub id: u64,
    pub owner: Address,
    pub title: Seq<u8>,
    pub description: Seq<u8>,
    pub amount: i128,
    pub token: Address,
    pub status: BountyStatus,
    pub claimant: Option<Address>,
    pub created_at: u64,
    pub claim_deadline: u64,
}

impl View for Bounty {
    type V = BountyView;

    open spec fn view(&self) -> BountyView {
        BountyView {
            id: self.id,
            owner: self.owner,
            title: self.title@,
            description: self.description@,
            amount: self.amount,
            token: self.token,
            status: self.status,
            claimant: self.claimant,
            created_at: self.created_at,
            claim_deadline: self.claim_deadline,
        }
    }
}

impl Clone for Bounty {
    fn clone(&self) -> (b: Self)
        ensures
            b@ == self@,
    {
        let claimant = match &self.claimant {
            Some(a) => Some(a.clone()),
            None => None,
        };
        Bounty {
            id: self.id,
            owner: self.owner.clone(),
            title: self.title.clone(),
            description: self.description.clone(),
            amount: self.amount,
            token: self.token.clone(),
            status: self.status,
            claimant,
            created_at: self.created_at,
            claim_deadline: self.claim_deadline,
        }
    }
}

/// The keys of the contract's persistent storage.
#[derive(Clone, Copy, Debug, PartialEq, Eq, Structural)]
pub enum StorageKey {
    /// The number of bounties ever posted, which is also the last id given.
    BountyCount,
    /// The bounty with the given id.
    Bounty(u64),
}

/// The contract's persistent storage: the bounty counter, if it was ever
/// written, and the bounties by id.
pub struct Storage {
    bounty_count: Option<u64>,
    bounties: HashMap<u64, Bounty>,
}

/// What a [`Storage`] holds.
pub struct StorageView {
    pub bounty_count: Option<u64>,
    pub bounties: Map<u64, BountyView>,
}

impl StorageView {
    /// The value of the bounty counter, 0 where it was never written.
    pub open spec fn count(self) -> nat {
        match self.bounty_count {
            Some(c) => c as nat,
            None => 0,
        }
    }

    /// The bounty stored under `id`, if any.
    pub open spec fn lookup(self, id: u64) -> Option<BountyView> {
        if self.bounties.contains_key(id) {
            Some(self.bounties[id])
        } else {
            None
        }
    }
}

impl View for Storage {
    type V = StorageView;

    closed spec fn view(&self) -> StorageView {
        StorageView {
            bounty_count: self.bounty_count,
            bounties: self.bounties@.map_values(|b: Bounty| b@),
        }
    }
}

impl Storage {
    /// Empty storage: no counter and no bounty.
    pub fn new() -> (s: Storage)
        ensures
            s@.bounty_count is None,
            s@.bounties == Map::<u64, BountyView>::empty(),
    {
        let s = Storage { bounty_count: None, bounties: HashMap::new() };
        assert(s@.bounties =~= Map::<u64, BountyView>::empty());
        s
    }

    /// The stored bounty counter, if it was ever written.
    pub fn count_entry(&self) -> (c: Option<u64>)
        ensures
            c == self@.bounty_count,
    {
        self.bounty_count
    }

    /// Writes the bounty counter.
    pub fn set_count_entry(&mut self, count: u64)
        ensures
            final(self)@ == (StorageView { bounty_count: Some(count), ..old(self)@ }),
    {
        self.bounty_count = Some(count);
    }

    /// The bounty stored under `id`, if any.
    pub fn bounty_entry(&self, id: u64) -> (b: Option<Bounty>)
        ensures
            match b {
                Some(b) => self@.lookup(id) == Some(b@),
                None => self@.lookup(id) is None,
            },
    {
        match self.bounties.get(&id) {
            Some(b) => Some(b.clone()),
            None => None,
        }
    }

    /// Stores `bounty` under `id`, replacing what was there.
    pub fn set_bounty_entry(&mut self, id: u64, bounty: Bounty)
        ensures
            final(self)@ == (StorageView {
                bounties: old(self)@.bounties.insert(id, bounty@),
                ..old(self)@
            }),
    {
        let ghost before = self.bounties@;
        self.bounties.insert(id, bounty);
        assert(self.bounties@.map_values(|b: Bounty| b@) =~= before.map_values(|b: Bounty| b@).insert(
            id,
            self.bounties@[id]@,
        ));
    }
}

/// The number of bounties ever posted (0 before the first).
pub fn get_bounty_count(env: &Env) -> (c: u64)
    ensures
        c == env@.storage.count(),
{
    match env.storage.count_entry() {
        Some(c) => c,
        None => 0,
    }
}

/// Advances the bounty counter by one and returns its new value, the id of
/// the next bounty.
pub fn increment_bounty_count(env: &mut Env) -> (id: u64)
    requires
        old(env)@.storage.count() < u64::MAX,
    ensures
        id == old(env)@.storage.count() + 1,
        final(env)@ == (EnvView {
            storage: StorageView { bounty_count: Some(id), ..old(env)@.storage },
            written: old(env)@.written.push(StorageKey::BountyCount),
            ..old(env)@
        }),
{
    let count = get_bounty_count(env) + 1;
    env.storage.set_count_entry(count);
    env.written.push(StorageKey::BountyCount);
    count
}

/// What a lookup gives, with the bounty taken by its view.
pub open spec fn result_view(r: Result<Bounty, SoroQuestError>) -> Result<BountyView, SoroQuestError> {
    match r {
        Ok(b) => Ok(b@),
        Err(e) => Err(e),
    }
}

/// The bounty stored under `id`, or `BountyNotFound`.
pub fn get_bounty(env: &Env, id: u64) -> (r: Result<Bounty, SoroQuestError>)
    ensures
        result_view(r) == match env@.storage.lookup(id) {
            Some(b) => Ok(b),
            None => Err(SoroQuestError::BountyNotFound),
        },
{
    match env.storage.bounty_entry(id) {
        Some(b) => Ok(b),
        None => Err(SoroQuestError::BountyNotFound),
    }
}

/// Stores `bounty` under its own id.
pub fn save_bounty(env: &mut Env, bounty: &Bounty)
    ensures
        final(env)@ == (EnvView {
            storage: StorageView {
                bounties: old(env)@.storage.bounties.insert(bounty.id, bounty@),
                ..old(env)@.storage
            },
            written: old(env)@.written.push(StorageKey::Bounty(bounty.id)),
            ..old(env)@
        }),
{
    env.storage.set_bounty_entry(bounty.id, bounty.clone());
    env.written.push(StorageKey::Bounty(bounty.id));
}

} // verus!
