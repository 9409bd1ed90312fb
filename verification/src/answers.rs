//! What each call answers, stated directly over the stored bounties and the
//! call's arguments: for every ledger, every deadline and every caller.
use vstd::prelude::*;

use crate::address::Address;
use crate::env::{EnvView, Transfer};
use crate::error::SoroQuestError;
use crate::escrow::{
    approve_outcome, cancel_outcome, claim_outcome, get_outcome, listed, matching_up_to,
    post_outcome,
};
use crate::events::BountyEvent;
use crate::laws::{bounty_wf, storage_wf};
use crate::storage::{BountyStatus, BountyView, StorageKey, StorageView};

verus! {

// ---------------------------------------------------------------------------
// Posting
// ---------------------------------------------------------------------------

/// A post is refused with `InvalidAmount` exactly where the amount is not
/// positive, and otherwise with `InvalidDeadline` exactly where a deadline is
/// set (non-zero) that is not after the current ledger.  A post without a
/// deadline (0), or with one after the current ledger, of a positive amount
/// is accepted in every ledger: it returns the next id, escrows the whole
/// amount from the owner, and stores the bounty `Open` (wherever the counter
/// can still advance).
pub proof fn post_answers(
    e: EnvView,
    owner: Address,
    title: Seq<u8>,
    description: Seq<u8>,
    amount: i128,
    token: Address,
    claim_deadline: u64,
)
    ensures
        ({
            let (r, e2) = post_outcome(e, owner, title, description, amount, token, claim_deadline);
            &&& amount <= 0 ==> r == Err::<u64, SoroQuestError>(SoroQuestError::InvalidAmount)
                && e2 == e
            &&& amount > 0 && claim_deadline != 0 && claim_deadline <= e.ledger_sequence ==> r
                == Err::<u64, SoroQuestError>(SoroQuestError::InvalidDeadline) && e2 == e
            &&& amount > 0 && (claim_deadline == 0 || claim_deadline > e.ledger_sequence)
                && e.storage.count() < u64::MAX ==> {
                let id = (e.storage.count() + 1) as u64;
                &&& r == Ok::<u64, SoroQuestError>(id)
                &&& e2.storage.bounty_count == Some(id)
                &&& e2.storage.bounties == e.storage.bounties.insert(
                    id,
                    BountyView {
                        id,
                        owner,
                        title,
                        description,
                        amount,
                        token,
                        status: BountyStatus::Open,
                        claimant: None,
                        created_at: e.ledger_sequence as u64,
                        claim_deadline,
                    },
                )
                &&& e2.transfers == e.transfers.push(
                    Transfer { token, from: owner, to: e.current_contract, amount },
                )
                &&& e2.events == e.events.push(
                    BountyEvent::Posted { bounty_id: id, owner, amount, token, claim_deadline },
                )
                &&& e2.written == e.written.push(StorageKey::BountyCount).push(
                    StorageKey::Bounty(id),
                )
                &&& e2.ledger_sequence == e.ledger_sequence
                &&& e2.current_contract == e.current_contract
            }
        }),
{
}

// ---------------------------------------------------------------------------
// Claiming, approving, cancelling
// ---------------------------------------------------------------------------

/// An open bounty can be claimed by anyone but its owner, in every ledger and
/// whatever its claim deadline: the claim succeeds, stores the bounty
/// `Claimed` by that hunter with all else as it was, moves no funds and
/// publishes `claimed`.
pub proof fn open_bounty_is_claimable_in_any_ledger(
    e: EnvView,
    claimant: Address,
    bounty_id: u64,
)
    requires
        storage_wf(e.storage),
        e.storage.lookup(bounty_id) matches Some(b) && b.status == BountyStatus::Open && b.owner@
            != claimant@,
    ensures
        ({
            let b = e.storage.bounties[bounty_id];
            let (r, e2) = claim_outcome(e, claimant, bounty_id);
            &&& r == Ok::<(), SoroQuestError>(())
            &&& e2.storage.bounties == e.storage.bounties.insert(
                bounty_id,
                BountyView { status: BountyStatus::Claimed, claimant: Some(claimant), ..b },
            )
            &&& e2.storage.bounty_count == e.storage.bounty_count
            &&& e2.transfers == e.transfers
            &&& e2.events == e.events.push(BountyEvent::Claimed { bounty_id, claimant })
            &&& e2.written == e.written.push(StorageKey::Bounty(bounty_id))
            &&& e2.ledger_sequence == e.ledger_sequence
            &&& e2.current_contract == e.current_contract
        }),
{
    assert(bounty_wf(e.storage.bounties[bounty_id], bounty_id));
}

/// The owner can approve a claimed bounty in every ledger and whatever its
/// claim deadline: the approval succeeds, pays the whole amount in the
/// bounty's token from the contract to the recorded claimant, and stores the
/// bounty `Completed` with all else as it was.
pub proof fn claimed_bounty_is_approvable_in_any_ledger(
    e: EnvView,
    owner: Address,
    bounty_id: u64,
)
    requires
        storage_wf(e.storage),
        e.storage.lookup(bounty_id) matches Some(b) && b.status == BountyStatus::Claimed && b.owner@
            == owner@,
    ensures
        ({
            let b = e.storage.bounties[bounty_id];
            let (r, e2) = approve_outcome(e, owner, bounty_id);
            &&& b.claimant is Some
            &&& r == Ok::<(), SoroQuestError>(())
            &&& e2.storage.bounties == e.storage.bounties.insert(
                bounty_id,
                BountyView { status: BountyStatus::Completed, ..b },
            )
            &&& e2.storage.bounty_count == e.storage.bounty_count
            &&& e2.transfers == e.transfers.push(
                Transfer {
                    token: b.token,
                    from: e.current_contract,
                    to: b.claimant->0,
                    amount: b.amount,
                },
            )
            &&& e2.events == e.events.push(
                BountyEvent::Completed { bounty_id, claimant: b.claimant->0, amount: b.amount },
            )
            &&& e2.written == e.written.push(StorageKey::Bounty(bounty_id))
            &&& e2.ledger_sequence == e.ledger_sequence
            &&& e2.current_contract == e.current_contract
        }),
{
    assert(bounty_wf(e.storage.bounties[bounty_id], bounty_id));
}

/// The owner can cancel an open bounty in every ledger and whatever its claim
/// deadline (the deadline only holds back a claimed bounty): the cancel
/// succeeds, refunds the whole amount in the bounty's token from the contract
/// to the owner, and stores the bounty `Cancelled` and unclaimed with all
/// else as it was.
pub proof fn open_bounty_is_cancellable_in_any_ledger(e: EnvView, owner: Address, bounty_id: u64)
    requires
        storage_wf(e.storage),
        e.storage.lookup(bounty_id) matches Some(b) && b.status == BountyStatus::Open && b.owner@
            == owner@,
    ensures
        ({
            let b = e.storage.bounties[bounty_id];
            let (r, e2) = cancel_outcome(e, owner, bounty_id);
            &&& r == Ok::<(), SoroQuestError>(())
            &&& e2.storage.bounties == e.storage.bounties.insert(
                bounty_id,
                BountyView { status: BountyStatus::Cancelled, claimant: None, ..b },
            )
            &&& e2.storage.bounty_count == e.storage.bounty_count
            &&& e2.transfers == e.transfers.push(
                Transfer { token: b.token, from: e.current_contract, to: owner, amount: b.amount },
            )
            &&& e2.events == e.events.push(
                BountyEvent::Cancelled { bounty_id, owner, amount: b.amount },
            )
            &&& e2.written == e.written.push(StorageKey::Bounty(bounty_id))
            &&& e2.ledger_sequence == e.ledger_sequence
            &&& e2.current_contract == e.current_contract
        }),
{
    assert(bounty_wf(e.storage.bounties[bounty_id], bounty_id));
}

/// The owner can cancel a claimed bounty exactly where it has no deadline (0)
/// or its deadline lies before the current ledger; then the whole amount goes
/// back to the owner and the bounty is stored `Cancelled` and unclaimed.
/// Otherwise the cancel is refused with `DeadlineNotPassed` and changes
/// nothing.
pub proof fn claimed_bounty_cancels_after_its_deadline(e: EnvView, owner: Address, bounty_id: u64)
    requires
        storage_wf(e.storage),
        e.storage.lookup(bounty_id) matches Some(b) && b.status == BountyStatus::Claimed && b.owner@
            == owner@,
    ensures
        ({
            let b = e.storage.bounties[bounty_id];
            let (r, e2) = cancel_outcome(e, owner, bounty_id);
            &&& b.claim_deadline == 0 || b.claim_deadline < e.ledger_sequence ==> {
                &&& r == Ok::<(), SoroQuestError>(())
                &&& e2.storage.bounties == e.storage.bounties.insert(
                    bounty_id,
                    BountyView { status: BountyStatus::Cancelled, claimant: None, ..b },
                )
                &&& e2.storage.bounty_count == e.storage.bounty_count
                &&& e2.transfers == e.transfers.push(
                    Transfer {
                        token: b.token,
                        from: e.current_contract,
                        to: owner,
                        amount: b.amount,
                    },
                )
                &&& e2.events == e.events.push(
                    BountyEvent::Cancelled { bounty_id, owner, amount: b.amount },
                )
                &&& e2.written == e.written.push(StorageKey::Bounty(bounty_id))
                &&& e2.ledger_sequence == e.ledger_sequence
                &&& e2.current_contract == e.current_contract
            }
            &&& b.claim_deadline != 0 && e.ledger_sequence <= b.claim_deadline ==> r == Err::<
                (),
                SoroQuestError,
            >(SoroQuestError::DeadlineNotPassed) && e2 == e
        }),
{
    assert(bounty_wf(e.storage.bounties[bounty_id], bounty_id));
}

/// Why a claim, approval or cancellation is refused, in the order the checks
/// are made, and that a refusal changes nothing:
/// - no bounty under the id: `BountyNotFound`, for every call;
/// - a claim of a bounty that is not open: `BountyNotOpen`; of an open bounty
///   by its own owner: `NotOwner`;
/// - an approval or cancellation by someone other than the owner: `NotOwner`;
/// - an approval by the owner of a bounty that is not claimed:
///   `BountyNotClaimed`;
/// - a cancellation by the owner of a completed or cancelled bounty:
///   `BountyNotOpen`.
pub proof fn refusals_name_their_reason(e: EnvView, caller: Address, bounty_id: u64)
    ensures
        ({
            let (rc, ec) = claim_outcome(e, caller, bounty_id);
            let (ra, ea) = approve_outcome(e, caller, bounty_id);
            let (rx, ex) = cancel_outcome(e, caller, bounty_id);
            match e.storage.lookup(bounty_id) {
                None => {
                    &&& rc == Err::<(), SoroQuestError>(SoroQuestError::BountyNotFound) && ec == e
                    &&& ra == Err::<(), SoroQuestError>(SoroQuestError::BountyNotFound) && ea == e
                    &&& rx == Err::<(), SoroQuestError>(SoroQuestError::BountyNotFound) && ex == e
                },
                Some(b) => {
                    &&& b.status != BountyStatus::Open ==> rc == Err::<(), SoroQuestError>(
                        SoroQuestError::BountyNotOpen,
                    ) && ec == e
                    &&& b.status == BountyStatus::Open && b.owner@ == caller@ ==> rc == Err::<
                        (),
                        SoroQuestError,
                    >(SoroQuestError::NotOwner) && ec == e
                    &&& b.owner@ != caller@ ==> ra == Err::<(), SoroQuestError>(
                        SoroQuestError::NotOwner,
                    ) && ea == e && rx == Err::<(), SoroQuestError>(SoroQuestError::NotOwner)
                        && ex == e
                    &&& b.owner@ == caller@ && b.status != BountyStatus::Claimed ==> ra == Err::<
                        (),
                        SoroQuestError,
                    >(SoroQuestError::BountyNotClaimed) && ea == e
                    &&& b.owner@ == caller@ && (b.status == BountyStatus::Completed || b.status
                        == BountyStatus::Cancelled) ==> rx == Err::<(), SoroQuestError>(
                        SoroQuestError::BountyNotOpen,
                    ) && ex == e
                },
            }
        }),
{
}

// ---------------------------------------------------------------------------
// Reading
// ---------------------------------------------------------------------------

/// Reading a bounty gives exactly what is stored under its id, or
/// `BountyNotFound` where nothing is.
pub proof fn get_answers(s: StorageView, bounty_id: u64)
    ensures
        s.bounties.contains_key(bounty_id) ==> get_outcome(s, bounty_id) == Ok::<
            BountyView,
            SoroQuestError,
        >(s.bounties[bounty_id]),
        !s.bounties.contains_key(bounty_id) ==> get_outcome(s, bounty_id) == Err::<
            BountyView,
            SoroQuestError,
        >(SoroQuestError::BountyNotFound),
{
}

// ---------------------------------------------------------------------------
// Listing
// ---------------------------------------------------------------------------

/// Every stored bounty, by id from 1 to the counter.
pub open spec fn every_bounty(s: StorageView) -> Seq<BountyView> {
    Seq::new(s.count(), |i: int| s.bounties[(i + 1) as u64])
}

/// Without a filter, the bounties with ids 1 to `n` are all listed, in order.
proof fn lemma_unfiltered_is_every(s: StorageView, n: nat)
    requires
        storage_wf(s),
        n <= s.count(),
    ensures
        matching_up_to(s, None, n) =~= Seq::new(n, |i: int| s.bounties[(i + 1) as u64]),
    decreases n,
{
    if n > 0 {
        lemma_unfiltered_is_every(s, (n - 1) as nat);
        assert(s.bounties.contains_key(n as u64));
    }
}

/// Without a status filter every stored bounty is listed, whatever its
/// status: a page is the run of the bounties 1 to the counter, in order of
/// id, that starts after the first `offset` and holds `limit` of them (at
/// most 50), or as many as are left.
pub proof fn unfiltered_listing_is_every_bounty(s: StorageView, offset: u64, limit: u64)
    requires
        storage_wf(s),
    ensures
        ({
            let all = every_bounty(s);
            let size: int = if limit > 50 { 50 } else { limit as int };
            let start = if offset < all.len() { offset as int } else { all.len() as int };
            let end = if offset + size < all.len() { offset + size } else { all.len() as int };
            listed(s, None, offset, limit) == all.subrange(start, end)
        }),
        s.count() <= limit && s.count() <= 50 ==> listed(s, None, 0, limit) == every_bounty(s),
{
    lemma_unfiltered_is_every(s, s.count());
    assert(every_bounty(s).subrange(0, s.count() as int) =~= every_bounty(s));
}

/// Whether a bounty has status `f`.
pub open spec fn has_status(f: BountyStatus) -> spec_fn(BountyView) -> bool {
    |b: BountyView| b.status == f
}

/// With the filter `f`, the bounties with ids 1 to `n` that are listed are
/// those of them with status `f`, in order.
proof fn lemma_filtered_is(s: StorageView, f: BountyStatus, n: nat)
    requires
        storage_wf(s),
        n <= s.count(),
    ensures
        matching_up_to(s, Some(f), n) == Seq::new(n, |i: int| s.bounties[(i + 1) as u64]).filter(
            has_status(f),
        ),
    decreases n,
{
    broadcast use Seq::lemma_filter_push;

    reveal_with_fuel(Seq::filter, 1);
    if n > 0 {
        lemma_filtered_is(s, f, (n - 1) as nat);
        let prev = Seq::new((n - 1) as nat, |i: int| s.bounties[(i + 1) as u64]);
        let cur = Seq::new(n, |i: int| s.bounties[(i + 1) as u64]);
        assert(cur =~= prev.push(s.bounties[n as u64]));
        assert(s.bounties.contains_key(n as u64));
    }
}

/// With a status filter `f`, a page is the run of the stored bounties of
/// status `f`, in order of id, that starts after the first `offset` of them
/// and holds `limit` of them (at most 50), or as many as are left.
pub proof fn filtered_listing_pages_that_status(
    s: StorageView,
    f: BountyStatus,
    offset: u64,
    limit: u64,
)
    requires
        storage_wf(s),
    ensures
        ({
            let all = every_bounty(s).filter(has_status(f));
            let size: int = if limit > 50 { 50 } else { limit as int };
            let start = if offset < all.len() { offset as int } else { all.len() as int };
            let end = if offset + size < all.len() { offset + size } else { all.len() as int };
            listed(s, Some(f), offset, limit) == all.subrange(start, end)
        }),
{
    lemma_filtered_is(s, f, s.count());
    assert(every_bounty(s) =~= Seq::new(s.count(), |i: int| s.bounties[(i + 1) as u64]));
}

/// With the filter `f`, the bounties with ids 1 to `n` that are listed all
/// have status `f`, are the bounties stored under their ids, in increasing
/// order of id; and each bounty among them with status `f` is listed.
proof fn lemma_filtered(s: StorageView, f: BountyStatus, n: nat)
    requires
        storage_wf(s),
        n <= s.count(),
    ensures
        matching_up_to(s, Some(f), n).len() <= n,
        forall|i: int|
            0 <= i < matching_up_to(s, Some(f), n).len() ==> {
                let b = #[trigger] matching_up_to(s, Some(f), n)[i];
                &&& b.status == f
                &&& 1 <= b.id <= n
                &&& s.bounties.contains_key(b.id)
                &&& s.bounties[b.id] == b
            },
        forall|i: int, j: int|
            0 <= i < j < matching_up_to(s, Some(f), n).len() ==> #[trigger] matching_up_to(
                s,
                Some(f),
                n,
            )[i].id < #[trigger] matching_up_to(s, Some(f), n)[j].id,
        forall|k: u64|
            1 <= k <= n && #[trigger] s.bounties.contains_key(k) && s.bounties[k].status == f
                ==> matching_up_to(s, Some(f), n).contains(s.bounties[k]),
    decreases n,
{
    if n > 0 {
        lemma_filtered(s, f, (n - 1) as nat);
        let prev = matching_up_to(s, Some(f), (n - 1) as nat);
        let cur = matching_up_to(s, Some(f), n);
        let k0 = n as u64;
        assert(s.bounties.contains_key(k0));
        assert(bounty_wf(s.bounties[k0], k0));
        assert forall|k: u64|
            1 <= k <= n && #[trigger] s.bounties.contains_key(k) && s.bounties[k].status
                == f implies cur.contains(s.bounties[k]) by {
            if k < k0 {
                let i = choose|i: int| 0 <= i < prev.len() && prev[i] == s.bounties[k];
                assert(cur[i] == s.bounties[k]);
            } else {
                assert(cur[cur.len() - 1] == s.bounties[k]);
            }
        }
    }
}

/// With a status filter `f`, a page lists only bounties of status `f`, each
/// as stored under its id, in increasing order of id; and where the counter
/// is at most 50 and at most `limit`, the first page lists every stored
/// bounty of status `f`.
pub proof fn filtered_listing_is_the_bounties_of_that_status(
    s: StorageView,
    f: BountyStatus,
    offset: u64,
    limit: u64,
)
    requires
        storage_wf(s),
    ensures
        forall|i: int|
            0 <= i < listed(s, Some(f), offset, limit).len() ==> {
                let b = #[trigger] listed(s, Some(f), offset, limit)[i];
                &&& b.status == f
                &&& s.bounties.contains_key(b.id)
                &&& s.bounties[b.id] == b
            },
        forall|i: int, j: int|
            0 <= i < j < listed(s, Some(f), offset, limit).len() ==> #[trigger] listed(
                s,
                Some(f),
                offset,
                limit,
            )[i].id < #[trigger] listed(s, Some(f), offset, limit)[j].id,
        s.count() <= limit && s.count() <= 50 ==> forall|k: u64| #[trigger]
            s.bounties.contains_key(k) && s.bounties[k].status == f ==> listed(
                s,
                Some(f),
                0,
                limit,
            ).contains(s.bounties[k]),
{
    lemma_filtered(s, f, s.count());
    let all = matching_up_to(s, Some(f), s.count());
    let page = listed(s, Some(f), offset, limit);
    let start = if offset < all.len() { offset as int } else { all.len() as int };
    assert forall|i: int| 0 <= i < page.len() implies {
        let b = #[trigger] page[i];
        &&& b.status == f
        &&& s.bounties.contains_key(b.id)
        &&& s.bounties[b.id] == b
    } by {
        assert(page[i] == all[start + i]);
    }
    assert forall|i: int, j: int| 0 <= i < j < page.len() implies #[trigger] page[i].id
        < #[trigger] page[j].id by {
        assert(page[i] == all[start + i]);
        assert(page[j] == all[start + j]);
    }
    if s.count() <= limit && s.count() <= 50 {
        assert(listed(s, Some(f), 0, limit) =~= all);
        assert forall|k: u64| #[trigger]
            s.bounties.contains_key(k) && s.bounties[k].status == f implies listed(
            s,
            Some(f),
            0,
            limit,
        ).contains(s.bounties[k]) by {}
    }
}

} // verus!
