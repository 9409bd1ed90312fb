//! The events that the contract publishes on each change of a bounty.
use vstd::prelude::*;

use crate::address::Address;
use crate::env::{Env, EnvView};

verus! {

/// An event, published under the topic (`action`, bounty id).
#[derive(Debug)]
pub enum BountyEvent {
    /// `posted`: a bounty was posted and its funds entered escrow.
    Posted { bounty_id: u64, owner: Address, amount: i128, token: Address, claim_deadline: u64 },
    /// `claimed`: a hunter claimed an open bounty.
    Claimed { bounty_id: u64, claimant: Address },
    /// `completed`: the owner approved the work; the funds went to the claimant.
    Completed { bounty_id: u64, claimant: Address, amount: i128 },
    /// `cancelled`: the owner cancelled the bounty; the funds went back.
    Cancelled { bounty_id: u64, owner: Address, amount: i128 },
}

impl BountyEvent {
    /// The action symbol of the event's topic.
    pub fn action(&self) -> (s: &'static str)
        ensures
            s@ == match self {
                BountyEvent::Posted { .. } => "posted"@,
                BountyEvent::Claimed { .. } => "claimed"@,
                BountyEvent::Completed { .. } => "completed"@,
                BountyEvent::Cancelled { .. } => "cancelled"@,
            },
    {
        match self {
            BountyEvent::Posted { .. } => "posted",
            BountyEvent::Claimed { .. } => "claimed",
            BountyEvent::Completed { .. } => "completed",
            BountyEvent::Cancelled { .. } => "cancelled",
        }
    }

    /// The id of the bounty that the event is about.
    pub fn bounty_id(&self) -> (id: u64)
        ensures
            id == match self {
                BountyEvent::Posted { bounty_id, .. } => *bounty_id,
                BountyEvent::Claimed { bounty_id, .. } => *bounty_id,
                BountyEvent::Completed { bounty_id, .. } => *bounty_id,
                BountyEvent::Cancelled { bounty_id, .. } => *bounty_id,
            },
    {
        match self {
            BountyEvent::Posted { bounty_id, .. } => *bounty_id,
            BountyEvent::Claimed { bounty_id, .. } => *bounty_id,
            BountyEvent::Completed { bounty_id, .. } => *bounty_id,
            BountyEvent::Cancelled { bounty_id, .. } => *bounty_id,
        }
    }
}

/// Publishes `posted` for a new bounty.
pub fn emit_bounty_posted(
    env: &mut Env,
    bounty_id: u64,
    owner: &Address,
    amount: i128,
    token: &Address,
    claim_deadline: u64,
)
    ensures
        final(env)@ == (EnvView {
            events: old(env)@.events.push(
                BountyEvent::Posted { bounty_id, owner: *owner, amount, token: *token, claim_deadline },
            ),
            ..old(env)@
        }),
{
    env.events.push(
        BountyEvent::Posted {
            bounty_id,
            owner: owner.clone(),
            amount,
            token: token.clone(),
            claim_deadline,
        },
    );
}

/// Publishes `claimed` when a hunter claims a bounty.
pub fn emit_bounty_claimed(env: &mut Env, bounty_id: u64, claimant: &Address)
    ensures
        final(env)@ == (EnvView {
            events: old(env)@.events.push(BountyEvent::Claimed { bounty_id, claimant: *claimant }),
            ..old(env)@
        }),
{
    env.events.push(BountyEvent::Claimed { bounty_id, claimant: claimant.clone() });
}

/// Publishes `completed` when the funds go to the claimant.
pub fn emit_bounty_completed(env: &mut Env, bounty_id: u64, claimant: &Address, amount: i128)
    ensures
        final(env)@ == (EnvView {
            events: old(env)@.events.push(
                BountyEvent::Completed { bounty_id, claimant: *claimant, amount },
            ),
            ..old(env)@
        }),
{
    env.events.push(BountyEvent::Completed { bounty_id, claimant: claimant.clone(), amount });
}

/// Publishes `cancelled` when the funds go back to the owner.
pub fn emit_bounty_cancelled(env: &mut Env, bounty_id: u64, owner: &Address, amount: i128)
    ensures
        final(env)@ == (EnvView {
            events: old(env)@.events.push(
                BountyEvent::Cancelled { bounty_id, owner: *owner, amount },
            ),
            ..old(env)@
        }),
{
    env.events.push(BountyEvent::Cancelled { bounty_id, owner: owner.clone(), amount });
}

} // verus!
