//! The escrow contract's calls.
use vstd::prelude::*;

use crate::address::Address;
use crate::env::{transfer_token, Env, EnvView, Transfer};
use crate::error::SoroQuestError;
use crate::events::{
    emit_bounty_cancelled, emit_bounty_claimed, emit_bounty_completed, emit_bounty_posted,
    BountyEvent,
};
use crate::storage::{
    get_bounty, get_bounty_count, increment_bounty_count, save_bounty, result_view, Bounty, BountyStatus, BountyView,
    StorageKey, StorageView,
};

verus! {

/// The most bounties that one page of `list_bounties` holds.
pub const MAX_PAGE: u64 = 50;

/// `e` with `b` stored under its id, that write recorded, and `event` published.
pub open spec fn saved(e: EnvView, b: BountyView, event: BountyEvent) -> EnvView {
    EnvView {
        storage: StorageView { bounties: e.storage.bounties.insert(b.id, b), ..e.storage },
        written: e.written.push(StorageKey::Bounty(b.id)),
        events: e.events.push(event),
        ..e
    }
}

/// Whether `post_bounty` refuses its arguments before it takes an id: the
/// amount is not positive, or a deadline is set that is not after the
/// current ledger.
pub open spec fn post_refused(e: EnvView, amount: i128, claim_deadline: u64) -> bool {
    amount <= 0 || (claim_deadline != 0 && claim_deadline <= e.ledger_sequence)
}

/// Whether `post_bounty` can run on `e`: the bounty counter can advance
/// wherever the post is accepted.
pub open spec fn post_runs(e: EnvView, amount: i128, claim_deadline: u64) -> bool {
    e.storage.count() < u64::MAX || post_refused(e, amount, claim_deadline)
}

/// What `post_bounty` returns, and the environment that it leaves.
pub open spec fn post_outcome(
    e: EnvView,
    owner: Address,
    title: Seq<u8>,
    description: Seq<u8>,
    amount: i128,
    token: Address,
    claim_deadline: u64,
) -> (Result<u64, SoroQuestError>, EnvView) {
    if amount <= 0 {
        (Err(SoroQuestError::InvalidAmount), e)
    } else if claim_deadline != 0 && claim_deadline <= e.ledger_sequence {
        (Err(SoroQuestError::InvalidDeadline), e)
    } else {
        let id = (e.storage.count() + 1) as u64;
        let bounty = BountyView {
            id,
            owner,
            title,
            description,
            amount,
            token,
            status: BountyStatus::Open,
            claimant: None,
            created_at: e.ledger_sequence as u64,
            claim_deadline,
        };
        let counted = EnvView {
            storage: StorageView { bounty_count: Some(id), ..e.storage },
            written: e.written.push(StorageKey::BountyCount),
            transfers: e.transfers.push(
                Transfer { token, from: owner, to: e.current_contract, amount },
            ),
            ..e
        };
        (
            Ok(id),
            saved(
                counted,
                bounty,
                BountyEvent::Posted { bounty_id: id, owner, amount, token, claim_deadline },
            ),
        )
    }
}

/// What `claim_bounty` returns, and the environment that it leaves.
pub open spec fn claim_outcome(e: EnvView, claimant: Address, bounty_id: u64) -> (
    Result<(), SoroQuestError>,
    EnvView,
) {
    match e.storage.lookup(bounty_id) {
        None => (Err(SoroQuestError::BountyNotFound), e),
        Some(b) => if b.status != BountyStatus::Open {
            (Err(SoroQuestError::BountyNotOpen), e)
        } else if b.owner@ == claimant@ {
            (Err(SoroQuestError::NotOwner), e)
        } else {
            (
                Ok(()),
                saved(
                    e,
                    BountyView { status: BountyStatus::Claimed, claimant: Some(claimant), ..b },
                    BountyEvent::Claimed { bounty_id, claimant },
                ),
            )
        },
    }
}

/// Whether `approve_completion` can read the claimant of the bounty that it
/// pays out: a claimed bounty of `owner` under `bounty_id` records one.
pub open spec fn claimant_recorded(s: StorageView, owner: Address, bounty_id: u64) -> bool {
    match s.lookup(bounty_id) {
        Some(b) => b.owner@ == owner@ && b.status == BountyStatus::Claimed ==> b.claimant is Some,
        None => true,
    }
}

/// What `approve_completion` returns, and the environment that it leaves.
pub open spec fn approve_outcome(e: EnvView, owner: Address, bounty_id: u64) -> (
    Result<(), SoroQuestError>,
    EnvView,
) {
    match e.storage.lookup(bounty_id) {
        None => (Err(SoroQuestError::BountyNotFound), e),
        Some(b) => if b.owner@ != owner@ {
            (Err(SoroQuestError::NotOwner), e)
        } else if b.status != BountyStatus::Claimed {
            (Err(SoroQuestError::BountyNotClaimed), e)
        } else {
            let claimant = b.claimant->0;
            let paid = EnvView {
                transfers: e.transfers.push(
                    Transfer { token: b.token, from: e.current_contract, to: claimant, amount: b.amount },
                ),
                ..e
            };
            (
                Ok(()),
                saved(
                    paid,
                    BountyView { status: BountyStatus::Completed, ..b },
                    BountyEvent::Completed { bounty_id, claimant, amount: b.amount },
                ),
            )
        },
    }
}

/// Whether the owner may cancel `b` in ledger `sequence`: always while it is
/// open; once claimed, only after its claim deadline has passed, or at any
/// time where it has none (a deadline of 0).
pub open spec fn cancellable(b: BountyView, sequence: u32) -> bool {
    ||| b.status == BountyStatus::Open
    ||| b.status == BountyStatus::Claimed && (b.claim_deadline == 0 || b.claim_deadline < sequence)
}

/// What `cancel_bounty` returns, and the environment that it leaves.
pub open spec fn cancel_outcome(e: EnvView, owner: Address, bounty_id: u64) -> (
    Result<(), SoroQuestError>,
    EnvView,
) {
    match e.storage.lookup(bounty_id) {
        None => (Err(SoroQuestError::BountyNotFound), e),
        Some(b) => if b.owner@ != owner@ {
            (Err(SoroQuestError::NotOwner), e)
        } else if b.status == BountyStatus::Claimed && !cancellable(b, e.ledger_sequence) {
            (Err(SoroQuestError::DeadlineNotPassed), e)
        } else if !cancellable(b, e.ledger_sequence) {
            (Err(SoroQuestError::BountyNotOpen), e)
        } else {
            let refunded = EnvView {
                transfers: e.transfers.push(
                    Transfer { token: b.token, from: e.current_contract, to: owner, amount: b.amount },
                ),
                ..e
            };
            (
                Ok(()),
                saved(
                    refunded,
                    BountyView { status: BountyStatus::Cancelled, claimant: None, ..b },
                    BountyEvent::Cancelled { bounty_id, owner, amount: b.amount },
                ),
            )
        },
    }
}

/// What `get_bounty` returns.
pub open spec fn get_outcome(s: StorageView, bounty_id: u64) -> Result<BountyView, SoroQuestError> {
    match s.lookup(bounty_id) {
        Some(b) => Ok(b),
        None => Err(SoroQuestError::BountyNotFound),
    }
}

/// Whether a bounty of status `s` passes the filter `filter`.
pub open spec fn status_matches(filter: Option<BountyStatus>, s: BountyStatus) -> bool {
    match filter {
        Some(f) => s == f,
        None => true,
    }
}

/// The stored bounties with ids 1 to `n` that pass `filter`, by id.
pub open spec fn matching_up_to(s: StorageView, filter: Option<BountyStatus>, n: nat) -> Seq<
    BountyView,
>
    decreases n,
{
    if n == 0 {
        Seq::empty()
    } else {
        let before = matching_up_to(s, filter, (n - 1) as nat);
        match s.lookup(n as u64) {
            Some(b) => if status_matches(filter, b.status) {
                before.push(b)
            } else {
                before
            },
            None => before,
        }
    }
}

/// How many bounties a page asked for with `limit` holds at most.
pub open spec fn page_size(limit: u64) -> nat {
    if limit > MAX_PAGE {
        MAX_PAGE as nat
    } else {
        limit as nat
    }
}

/// The page that `list_bounties` returns: of the stored bounties with ids 1
/// to the counter that pass `filter`, in order of id, those after the first
/// `offset`, at most `page_size(limit)` of them.
pub open spec fn listed(s: StorageView, filter: Option<BountyStatus>, offset: u64, limit: u64) -> Seq<
    BountyView,
> {
    let all = matching_up_to(s, filter, s.count());
    let start = if offset < all.len() { offset as int } else { all.len() as int };
    let end = if offset + page_size(limit) < all.len() {
        offset + page_size(limit)
    } else {
        all.len() as int
    };
    all.subrange(start, end)
}

/// `matching_up_to` grows by appending: the list up to `i` starts the list up
/// to any `j` after it.
pub proof fn lemma_matching_prefix(s: StorageView, filter: Option<BountyStatus>, i: nat, j: nat)
    requires
        i <= j,
    ensures
        matching_up_to(s, filter, i).len() <= matching_up_to(s, filter, j).len(),
        matching_up_to(s, filter, j).subrange(0, matching_up_to(s, filter, i).len() as int)
            == matching_up_to(s, filter, i),
    decreases j,
{
    if i < j {
        lemma_matching_prefix(s, filter, i, (j - 1) as nat);
        let a = matching_up_to(s, filter, i);
        let b = matching_up_to(s, filter, (j - 1) as nat);
        let c = matching_up_to(s, filter, j);
        assert(c.subrange(0, b.len() as int) =~= b);
        assert(c.subrange(0, a.len() as int) =~= b.subrange(0, a.len() as int));
    } else {
        assert(matching_up_to(s, filter, j).subrange(0, matching_up_to(s, filter, i).len() as int)
            =~= matching_up_to(s, filter, i));
    }
}

/// The escrow contract.
pub struct SoroQuestEscrow;

impl SoroQuestEscrow {
    /// Posts a new bounty: the owner's `amount` of `token` goes into escrow,
    /// and the bounty is stored `Open` under the next id, which is returned.
    ///
    /// Refused with `InvalidAmount` unless `amount` is positive, and with
    /// `InvalidDeadline` where `claim_deadline` is set but not after the
    /// current ledger.
    pub fn post_bounty(
        env: &mut Env,
        owner: Address,
        title: Vec<u8>,
        description: Vec<u8>,
        amount: i128,
        token: Address,
        claim_deadline: u64,
    ) -> (r: Result<u64, SoroQuestError>)
        requires
            post_runs(old(env)@, amount, claim_deadline),
        ensures
            (r, final(env)@) == post_outcome(
                old(env)@,
                owner,
                title@,
                description@,
                amount,
                token,
                claim_deadline,
            ),
    {
        if amount <= 0 {
            return Err(SoroQuestError::InvalidAmount);
        }
        if claim_deadline != 0 && claim_deadline <= env.ledger_sequence as u64 {
            return Err(SoroQuestError::InvalidDeadline);
        }
        let contract = env.current_contract.clone();
        transfer_token(env, &token, &owner, &contract, amount);

        let id = increment_bounty_count(env);
        let bounty = Bounty {
            id,
            owner: owner.clone(),
            title,
            description,
            amount,
            token: token.clone(),
            status: BountyStatus::Open,
            claimant: None,
            created_at: env.ledger_sequence as u64,
            claim_deadline,
        };
        save_bounty(env, &bounty);
        emit_bounty_posted(env, id, &owner, amount, &token, claim_deadline);
        Ok(id)
    }

    /// Claims an open bounty for `claimant`, who may not be its owner.
    pub fn claim_bounty(env: &mut Env, claimant: Address, bounty_id: u64) -> (r: Result<
        (),
        SoroQuestError,
    >)
        ensures
            (r, final(env)@) == claim_outcome(old(env)@, claimant, bounty_id),
    {
        let mut bounty = match get_bounty(env, bounty_id) {
            Ok(b) => b,
            Err(e) => return Err(e),
        };
        if bounty.status != BountyStatus::Open {
            return Err(SoroQuestError::BountyNotOpen);
        }
        if bounty.owner.same_as(&claimant) {
            return Err(SoroQuestError::NotOwner);
        }
        bounty.status = BountyStatus::Claimed;
        bounty.claimant = Some(claimant.clone());
        save_bounty(env, &bounty);
        emit_bounty_claimed(env, bounty_id, &claimant);
        Ok(())
    }

    /// The owner approves the work on a claimed bounty: the escrowed amount
    /// goes to the claimant and the bounty is `Completed`.
    pub fn approve_completion(env: &mut Env, owner: Address, bounty_id: u64) -> (r: Result<
        (),
        SoroQuestError,
    >)
        requires
            claimant_recorded(old(env)@.storage, owner, bounty_id),
        ensures
            (r, final(env)@) == approve_outcome(old(env)@, owner, bounty_id),
    {
        let mut bounty = match get_bounty(env, bounty_id) {
            Ok(b) => b,
            Err(e) => return Err(e),
        };
        if !bounty.owner.same_as(&owner) {
            return Err(SoroQuestError::NotOwner);
        }
        if bounty.status != BountyStatus::Claimed {
            return Err(SoroQuestError::BountyNotClaimed);
        }
        let claimant = bounty.claimant.clone().unwrap();
        let contract = env.current_contract.clone();
        transfer_token(env, &bounty.token, &contract, &claimant, bounty.amount);

        bounty.status = BountyStatus::Completed;
        save_bounty(env, &bounty);
        emit_bounty_completed(env, bounty_id, &claimant, bounty.amount);
        Ok(())
    }

    /// The owner cancels a bounty and the escrowed amount goes back to them.
    /// An open bounty can always be cancelled; a claimed one once its claim
    /// deadline has passed, or at any time where it has no deadline.
    pub fn cancel_bounty(env: &mut Env, owner: Address, bounty_id: u64) -> (r: Result<
        (),
        SoroQuestError,
    >)
        ensures
            (r, final(env)@) == cancel_outcome(old(env)@, owner, bounty_id),
    {
        let mut bounty = match get_bounty(env, bounty_id) {
            Ok(b) => b,
            Err(e) => return Err(e),
        };
        if !bounty.owner.same_as(&owner) {
            return Err(SoroQuestError::NotOwner);
        }
        match bounty.status {
            BountyStatus::Open => {},
            BountyStatus::Claimed => {
                let deadline = bounty.claim_deadline;
                if deadline != 0 && env.ledger_sequence as u64 <= deadline {
                    return Err(SoroQuestError::DeadlineNotPassed);
                }
            },
            _ => return Err(SoroQuestError::BountyNotOpen),
        }
        let contract = env.current_contract.clone();
        transfer_token(env, &bounty.token, &contract, &owner, bounty.amount);

        bounty.status = BountyStatus::Cancelled;
        bounty.claimant = None;
        save_bounty(env, &bounty);
        emit_bounty_cancelled(env, bounty_id, &owner, bounty.amount);
        Ok(())
    }

    /// The bounty stored under `bounty_id`, or `BountyNotFound`.
    pub fn get_bounty(env: &Env, bounty_id: u64) -> (r: Result<Bounty, SoroQuestError>)
        ensures
            result_view(r) == get_outcome(env@.storage, bounty_id),
    {
        get_bounty(env, bounty_id)
    }

    /// One page of the bounties that pass the status filter `status`, in
    /// order of id: the first `offset` are skipped, and at most `limit`
    /// (never more than 50) are returned.
    pub fn list_bounties(env: &Env, status: Option<BountyStatus>, offset: u64, limit: u64) -> (page:
        Vec<Bounty>)
        ensures
            page@.map_values(|b: Bounty| b@) == listed(env@.storage, status, offset, limit),
    {
        let limit = if limit > MAX_PAGE {
            MAX_PAGE
        } else {
            limit
        };
        let count = get_bounty_count(env);
        let ghost s = env@.storage;
        let mut results: Vec<Bounty> = Vec::new();
        let mut skipped: u64 = 0;
        let mut i: u64 = 0;
        while i < count
            invariant_except_break
                i <= count,
                count == s.count(),
                s == env@.storage,
                limit <= MAX_PAGE,
                skipped as int == if offset < matching_up_to(s, status, i as nat).len() {
                    offset as int
                } else {
                    matching_up_to(s, status, i as nat).len() as int
                },
                results@.map_values(|b: Bounty| b@) == matching_up_to(s, status, i as nat).subrange(
                    skipped as int,
                    if offset + limit < matching_up_to(s, status, i as nat).len() {
                        offset + limit
                    } else {
                        matching_up_to(s, status, i as nat).len() as int
                    },
                ),
            ensures
                results@.map_values(|b: Bounty| b@) == matching_up_to(s, status, count as nat).subrange(
                    if offset < matching_up_to(s, status, count as nat).len() {
                        offset as int
                    } else {
                        matching_up_to(s, status, count as nat).len() as int
                    },
                    if offset + limit < matching_up_to(s, status, count as nat).len() {
                        offset + limit
                    } else {
                        matching_up_to(s, status, count as nat).len() as int
                    },
                ),
            decreases count - i,
        {
            let id = i + 1;
            assert(matching_up_to(s, status, id as nat).subrange(
                0,
                matching_up_to(s, status, i as nat).len() as int,
            ) == matching_up_to(s, status, i as nat)) by {
                lemma_matching_prefix(s, status, i as nat, id as nat);
            }
            match get_bounty(env, id) {
                Ok(bounty) => {
                    let matches = match &status {
                        Some(st) => bounty.status == *st,
                        None => true,
                    };
                    if matches {
                        if skipped < offset {
                            skipped = skipped + 1;
                        } else if results.len() as u64 >= limit {
                            proof {
                                assert(results@.map_values(|b: Bounty| b@).len() == results@.len());
                                lemma_matching_prefix(s, status, i as nat, count as nat);
                                let a = matching_up_to(s, status, i as nat);
                                let c = matching_up_to(s, status, count as nat);
                                assert(c.subrange(offset as int, offset + limit) =~= a.subrange(
                                    offset as int,
                                    offset + limit,
                                ));
                            }
                            break ;
                        } else {
                            let ghost prev = results@;
                            results.push(bounty);
                            proof {
                                assert(results@.map_values(|b: Bounty| b@) =~= prev.map_values(
                                    |b: Bounty| b@,
                                ).push(bounty@));
                            }
                        }
                    }
                },
                Err(_) => {},
            }
            i = i + 1;
            proof {
                let a = matching_up_to(s, status, (i - 1) as nat);
                let b = matching_up_to(s, status, i as nat);
                assert(results@.map_values(|b: Bounty| b@) =~= b.subrange(
                    skipped as int,
                    if offset + limit < b.len() {
                        offset + limit
                    } else {
                        b.len() as int
                    },
                ));
            }
        }
        results
    }

    /// The number of bounties ever posted.
    pub fn get_bounty_count(env: &Env) -> (c: u64)
        ensures
            c == env@.storage.count(),
    {
        get_bounty_count(env)
    }
}

} // verus!
