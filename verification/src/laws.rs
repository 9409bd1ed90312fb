//! Properties of the escrow that span calls: what every call keeps, how a
//! bounty moves through its lifecycle, and where the escrowed funds go.
use vstd::prelude::*;

use crate::address::Address;
use crate::env::{EnvView, Transfer};
use crate::error::SoroQuestError;
use crate::escrow::{
    listed, matching_up_to, status_matches, MAX_PAGE,
    approve_outcome, cancel_outcome, post_runs, cancellable, claim_outcome, claimant_recorded, get_outcome,
    post_outcome,
};
use crate::storage::{BountyView, BountyStatus, StorageView};

verus! {

// ---------------------------------------------------------------------------
// Well-formed storage
// ---------------------------------------------------------------------------

/// A stored bounty is well formed under key `id`: it carries that id, a
/// positive amount, a deadline after its creation (or none), and a claimant
/// exactly while it is claimed or completed, who is not its owner.
pub open spec fn bounty_wf(b: BountyView, id: u64) -> bool {
    &&& b.id == id
    &&& b.amount > 0
    &&& b.claim_deadline == 0 || b.claim_deadline > b.created_at
    &&& (b.claimant is Some <==> (b.status == BountyStatus::Claimed || b.status
        == BountyStatus::Completed))
    &&& (b.claimant matches Some(c) ==> c@ != b.owner@)
}

/// The storage is well formed: the bounties are stored under exactly the
/// ids 1 to the counter, each well formed.
pub open spec fn storage_wf(s: StorageView) -> bool {
    &&& forall|k: u64| #[trigger] s.bounties.contains_key(k) <==> 1 <= k <= s.count()
    &&& forall|k: u64| #[trigger] s.bounties.contains_key(k) ==> bounty_wf(s.bounties[k], k)
}

/// The storage of a contract that was never called is well formed.
pub proof fn empty_storage_is_wf(s: StorageView)
    requires
        s.bounty_count is None,
        s.bounties == Map::<u64, BountyView>::empty(),
    ensures
        storage_wf(s),
{
}

/// In well-formed storage a bounty exists exactly for the ids 1 to the
/// number of bounties ever posted.
pub proof fn bounty_ids_are_one_to_count(s: StorageView, id: u64)
    requires
        storage_wf(s),
    ensures
        get_outcome(s, id) is Ok <==> 1 <= id <= s.count(),
        get_outcome(s, id) is Err ==> get_outcome(s, id) == Err::<BountyView, SoroQuestError>(
            SoroQuestError::BountyNotFound,
        ),
{
}

/// In well-formed storage `approve_completion` can always be called: a
/// claimed bounty records its claimant.
pub proof fn wf_records_claimants(s: StorageView, owner: Address, bounty_id: u64)
    requires
        storage_wf(s),
    ensures
        claimant_recorded(s, owner, bounty_id),
{
    if s.bounties.contains_key(bounty_id) {
        assert(bounty_wf(s.bounties[bounty_id], bounty_id));
    }
}

/// `post_bounty` keeps the storage well formed.
pub proof fn post_keeps_wf(
    e: EnvView,
    owner: Address,
    title: Seq<u8>,
    description: Seq<u8>,
    amount: i128,
    token: Address,
    claim_deadline: u64,
)
    requires
        storage_wf(e.storage),
        post_runs(e, amount, claim_deadline),
    ensures
        storage_wf(
            post_outcome(e, owner, title, description, amount, token, claim_deadline).1.storage,
        ),
{
    let s2 = post_outcome(e, owner, title, description, amount, token, claim_deadline).1.storage;
    if post_outcome(e, owner, title, description, amount, token, claim_deadline).0 is Ok {
        assert forall|k: u64| #[trigger] s2.bounties.contains_key(k) implies bounty_wf(
            s2.bounties[k],
            k,
        ) by {
            if k != s2.count() {
                assert(e.storage.bounties.contains_key(k));
            }
        }
    }
}

/// `claim_bounty` keeps the storage well formed.
pub proof fn claim_keeps_wf(e: EnvView, claimant: Address, bounty_id: u64)
    requires
        storage_wf(e.storage),
    ensures
        storage_wf(claim_outcome(e, claimant, bounty_id).1.storage),
{
    let s2 = claim_outcome(e, claimant, bounty_id).1.storage;
    if claim_outcome(e, claimant, bounty_id).0 is Ok {
        assert(bounty_wf(e.storage.bounties[bounty_id], bounty_id));
        assert forall|k: u64| #[trigger] s2.bounties.contains_key(k) implies bounty_wf(
            s2.bounties[k],
            k,
        ) by {
            if k != bounty_id {
                assert(e.storage.bounties.contains_key(k));
            }
        }
    }
}

/// `approve_completion` keeps the storage well formed.
pub proof fn approve_keeps_wf(e: EnvView, owner: Address, bounty_id: u64)
    requires
        storage_wf(e.storage),
    ensures
        storage_wf(approve_outcome(e, owner, bounty_id).1.storage),
{
    let s2 = approve_outcome(e, owner, bounty_id).1.storage;
    if approve_outcome(e, owner, bounty_id).0 is Ok {
        assert(bounty_wf(e.storage.bounties[bounty_id], bounty_id));
        assert forall|k: u64| #[trigger] s2.bounties.contains_key(k) implies bounty_wf(
            s2.bounties[k],
            k,
        ) by {
            if k != bounty_id {
                assert(e.storage.bounties.contains_key(k));
            }
        }
    }
}

/// `cancel_bounty` keeps the storage well formed.
pub proof fn cancel_keeps_wf(e: EnvView, owner: Address, bounty_id: u64)
    requires
        storage_wf(e.storage),
    ensures
        storage_wf(cancel_outcome(e, owner, bounty_id).1.storage),
{
    let s2 = cancel_outcome(e, owner, bounty_id).1.storage;
    if cancel_outcome(e, owner, bounty_id).0 is Ok {
        assert(bounty_wf(e.storage.bounties[bounty_id], bounty_id));
        assert forall|k: u64| #[trigger] s2.bounties.contains_key(k) implies bounty_wf(
            s2.bounties[k],
            k,
        ) by {
            if k != bounty_id {
                assert(e.storage.bounties.contains_key(k));
            }
        }
    }
}

// ---------------------------------------------------------------------------
// Lifecycle
// ---------------------------------------------------------------------------

/// The moves of the lifecycle: a bounty stays put, or goes from `Open` to
/// `Claimed` or `Cancelled`, or from `Claimed` to `Completed` or `Cancelled`.
/// `Completed` and `Cancelled` are final.
pub open spec fn step_allowed(from: BountyStatus, to: BountyStatus) -> bool {
    ||| from == to
    ||| from == BountyStatus::Open && (to == BountyStatus::Claimed || to == BountyStatus::Cancelled)
    ||| from == BountyStatus::Claimed && (to == BountyStatus::Completed || to
        == BountyStatus::Cancelled)
}

/// `b2` is the bounty `b1` with at most its status and claimant changed: its
/// id, owner, title, description, amount, token, creation ledger and claim
/// deadline are as they were.
pub open spec fn same_record(b1: BountyView, b2: BountyView) -> bool {
    b2 == BountyView { status: b2.status, claimant: b2.claimant, ..b1 }
}

/// From `s1` to `s2` no bounty disappears, each moves along the lifecycle
/// and keeps all but its status and claimant, and each new bounty is `Open`.
pub open spec fn follows_lifecycle(s1: StorageView, s2: StorageView) -> bool {
    &&& forall|k: u64| #[trigger]
        s1.bounties.contains_key(k) ==> s2.bounties.contains_key(k) && step_allowed(
            s1.bounties[k].status,
            s2.bounties[k].status,
        ) && same_record(s1.bounties[k], s2.bounties[k])
    &&& forall|k: u64| #[trigger]
        s2.bounties.contains_key(k) && !s1.bounties.contains_key(k) ==> s2.bounties[k].status
            == BountyStatus::Open
}

/// `post_bounty` adds an `Open` bounty and changes no other.
pub proof fn post_follows_lifecycle(
    e: EnvView,
    owner: Address,
    title: Seq<u8>,
    description: Seq<u8>,
    amount: i128,
    token: Address,
    claim_deadline: u64,
)
    requires
        storage_wf(e.storage),
        post_runs(e, amount, claim_deadline),
    ensures
        follows_lifecycle(
            e.storage,
            post_outcome(e, owner, title, description, amount, token, claim_deadline).1.storage,
        ),
{
}

/// `claim_bounty` moves one bounty from `Open` to `Claimed`.
pub proof fn claim_follows_lifecycle(e: EnvView, claimant: Address, bounty_id: u64)
    requires
        storage_wf(e.storage),
    ensures
        follows_lifecycle(e.storage, claim_outcome(e, claimant, bounty_id).1.storage),
{
    if e.storage.bounties.contains_key(bounty_id) {
        assert(bounty_wf(e.storage.bounties[bounty_id], bounty_id));
    }
}

/// `approve_completion` moves one bounty from `Claimed` to `Completed`.
pub proof fn approve_follows_lifecycle(e: EnvView, owner: Address, bounty_id: u64)
    requires
        storage_wf(e.storage),
    ensures
        follows_lifecycle(e.storage, approve_outcome(e, owner, bounty_id).1.storage),
{
    if e.storage.bounties.contains_key(bounty_id) {
        assert(bounty_wf(e.storage.bounties[bounty_id], bounty_id));
    }
}

/// `cancel_bounty` moves one bounty from `Open` or `Claimed` to `Cancelled`.
pub proof fn cancel_follows_lifecycle(e: EnvView, owner: Address, bounty_id: u64)
    requires
        storage_wf(e.storage),
    ensures
        follows_lifecycle(e.storage, cancel_outcome(e, owner, bounty_id).1.storage),
{
    if e.storage.bounties.contains_key(bounty_id) {
        assert(bounty_wf(e.storage.bounties[bounty_id], bounty_id));
    }
}

/// A refused call changes nothing: no storage write, transfer or event.
pub proof fn refused_calls_change_nothing(
    e: EnvView,
    caller: Address,
    bounty_id: u64,
    title: Seq<u8>,
    description: Seq<u8>,
    amount: i128,
    token: Address,
    claim_deadline: u64,
)
    ensures
        post_outcome(e, caller, title, description, amount, token, claim_deadline).0 is Err
            ==> post_outcome(e, caller, title, description, amount, token, claim_deadline).1
            == e,
        claim_outcome(e, caller, bounty_id).0 is Err ==> claim_outcome(e, caller, bounty_id).1
            == e,
        approve_outcome(e, caller, bounty_id).0 is Err ==> approve_outcome(
            e,
            caller,
            bounty_id,
        ).1 == e,
        cancel_outcome(e, caller, bounty_id).0 is Err ==> cancel_outcome(e, caller, bounty_id).1
            == e,
{
}

/// Only a bounty's owner can approve or cancel it; its owner cannot claim
/// it, and only an open bounty can be claimed.
pub proof fn only_owner_settles(e: EnvView, caller: Address, bounty_id: u64)
    ensures
        approve_outcome(e, caller, bounty_id).0 is Ok ==> (e.storage.lookup(bounty_id) matches Some(
            b,
        ) && b.owner@ == caller@ && b.status == BountyStatus::Claimed),
        cancel_outcome(e, caller, bounty_id).0 is Ok ==> (e.storage.lookup(bounty_id) matches Some(
            b,
        ) && b.owner@ == caller@ && cancellable(b, e.ledger_sequence)),
        claim_outcome(e, caller, bounty_id).0 is Ok ==> (e.storage.lookup(bounty_id) matches Some(
            b,
        ) && b.owner@ != caller@ && b.status == BountyStatus::Open),
{
}

/// A claimed bounty can be cancelled only once its claim deadline lies before
/// the current ledger, or where it has no deadline.
pub proof fn claimed_cancel_waits_for_deadline(e: EnvView, owner: Address, bounty_id: u64)
    requires
        e.storage.lookup(bounty_id) matches Some(b) && b.status == BountyStatus::Claimed
            && b.owner@ == owner@,
    ensures
        cancel_outcome(e, owner, bounty_id).0 is Ok <==> ({
            let b = e.storage.bounties[bounty_id];
            b.claim_deadline == 0 || b.claim_deadline < e.ledger_sequence
        }),
        cancel_outcome(e, owner, bounty_id).0 is Err ==> cancel_outcome(e, owner, bounty_id).0
            == Err::<(), SoroQuestError>(SoroQuestError::DeadlineNotPassed),
{
}

/// Only one hunter can hold a claim: once a claim succeeded, every further
/// claim of that bounty is refused with `BountyNotOpen`.
pub proof fn a_bounty_is_claimed_once(
    e: EnvView,
    first: Address,
    second: Address,
    bounty_id: u64,
)
    requires
        storage_wf(e.storage),
        claim_outcome(e, first, bounty_id).0 is Ok,
    ensures
        claim_outcome(claim_outcome(e, first, bounty_id).1, second, bounty_id).0
            == Err::<(), SoroQuestError>(SoroQuestError::BountyNotOpen),
{
    assert(bounty_wf(e.storage.bounties[bounty_id], bounty_id));
}

/// A completed or cancelled bounty pays out nothing more: every approval or
/// cancellation of it is refused.
pub proof fn settled_bounty_is_final(e: EnvView, caller: Address, bounty_id: u64)
    requires
        e.storage.lookup(bounty_id) matches Some(b) && (b.status == BountyStatus::Completed
            || b.status == BountyStatus::Cancelled),
    ensures
        approve_outcome(e, caller, bounty_id).0 is Err,
        cancel_outcome(e, caller, bounty_id).0 is Err,
        claim_outcome(e, caller, bounty_id).0 == Err::<(), SoroQuestError>(
            SoroQuestError::BountyNotOpen,
        ),
{
}

// ---------------------------------------------------------------------------
// Reading back what a call wrote
// ---------------------------------------------------------------------------

/// A posted bounty gets the next id, which no stored bounty had, and reading
/// that id back gives the bounty as posted, `Open` and unclaimed.
pub proof fn post_then_get(
    e: EnvView,
    owner: Address,
    title: Seq<u8>,
    description: Seq<u8>,
    amount: i128,
    token: Address,
    claim_deadline: u64,
)
    requires
        storage_wf(e.storage),
        post_runs(e, amount, claim_deadline),
    ensures
        post_outcome(e, owner, title, description, amount, token, claim_deadline).0 matches Ok(
            id,
        ) ==> {
            let s2 = post_outcome(e, owner, title, description, amount, token, claim_deadline).1.storage;
            &&& id == e.storage.count() + 1
            &&& s2.count() == id
            &&& !e.storage.bounties.contains_key(id)
            &&& get_outcome(s2, id) == Ok::<BountyView, SoroQuestError>(
                BountyView {
                    id,
                    owner,
                    title,
                    description,
                    amount,
                    token,
                    status: BountyStatus::Open,
                    claimant: None,
                    created_at: e.ledger_sequence as u64,
                    claim_deadline,
                },
            )
        },
{
}

/// After a successful claim, approval or cancellation, reading the bounty
/// back gives it with its new status (and claimant), all else as before.
pub proof fn settled_then_get(e: EnvView, caller: Address, bounty_id: u64)
    requires
        storage_wf(e.storage),
    ensures
        claim_outcome(e, caller, bounty_id).0 is Ok ==> get_outcome(
            claim_outcome(e, caller, bounty_id).1.storage,
            bounty_id,
        ) == Ok::<BountyView, SoroQuestError>(
            BountyView {
                status: BountyStatus::Claimed,
                claimant: Some(caller),
                ..e.storage.bounties[bounty_id]
            },
        ),
        approve_outcome(e, caller, bounty_id).0 is Ok ==> get_outcome(
            approve_outcome(e, caller, bounty_id).1.storage,
            bounty_id,
        ) == Ok::<BountyView, SoroQuestError>(
            BountyView { status: BountyStatus::Completed, ..e.storage.bounties[bounty_id] },
        ),
        cancel_outcome(e, caller, bounty_id).0 is Ok ==> get_outcome(
            cancel_outcome(e, caller, bounty_id).1.storage,
            bounty_id,
        ) == Ok::<BountyView, SoroQuestError>(
            BountyView {
                status: BountyStatus::Cancelled,
                claimant: None,
                ..e.storage.bounties[bounty_id]
            },
        ),
{
    if e.storage.bounties.contains_key(bounty_id) {
        assert(bounty_wf(e.storage.bounties[bounty_id], bounty_id));
    }
}

// ---------------------------------------------------------------------------
// Escrowed funds
// ---------------------------------------------------------------------------

/// What bounty `b` keeps in escrow of the token whose strkey is `token`: its
/// whole amount while it is open or claimed, nothing otherwise.
pub open spec fn held(b: BountyView, token: Seq<char>) -> int {
    if (b.status == BountyStatus::Open || b.status == BountyStatus::Claimed) && b.token@ == token {
        b.amount as int
    } else {
        0
    }
}

/// What the bounties with ids 1 to `n` keep in escrow of `token`.
pub open spec fn escrowed_up_to(m: Map<u64, BountyView>, token: Seq<char>, n: nat) -> int
    decreases n,
{
    if n == 0 {
        0
    } else {
        escrowed_up_to(m, token, (n - 1) as nat) + if m.contains_key(n as u64) {
            held(m[n as u64], token)
        } else {
            0
        }
    }
}

/// What all posted bounties keep in escrow of `token`.
pub open spec fn escrowed(s: StorageView, token: Seq<char>) -> int {
    escrowed_up_to(s.bounties, token, s.count())
}

/// What transfer `t` moves into the contract at `contract`, in `token`
/// (negative where it moves funds out).
pub open spec fn inflow(t: Transfer, contract: Seq<char>, token: Seq<char>) -> int {
    if t.token@ != token || t.from@ == t.to@ {
        0
    } else if t.to@ == contract {
        t.amount as int
    } else if t.from@ == contract {
        -t.amount
    } else {
        0
    }
}

/// What the transfers `ts` move, in all, into the contract at `contract`, in
/// `token`.
pub open spec fn net_inflow(ts: Seq<Transfer>, contract: Seq<char>, token: Seq<char>) -> int
    decreases ts.len(),
{
    if ts.len() == 0 {
        0
    } else {
        net_inflow(ts.drop_last(), contract, token) + inflow(ts.last(), contract, token)
    }
}

/// The contract's transfers match its bounties: in each token, what the
/// transfers moved into the contract is what the open and claimed bounties
/// keep in escrow.
pub open spec fn balanced(e: EnvView) -> bool {
    forall|token: Seq<char>| #[trigger]
        escrowed(e.storage, token) == net_inflow(e.transfers, e.current_contract@, token)
}

/// Replacing the bounty under `k` changes what the ids 1 to `n` keep in escrow
/// by the difference, where `k` is among them.
proof fn lemma_escrowed_insert(m: Map<u64, BountyView>, token: Seq<char>, n: nat, k: u64, b: BountyView)
    requires
        n <= u64::MAX,
    ensures
        escrowed_up_to(m.insert(k, b), token, n) == escrowed_up_to(m, token, n) + if 1 <= k
            <= n {
            held(b, token) - if m.contains_key(k) {
                held(m[k], token)
            } else {
                0
            }
        } else {
            0
        },
    decreases n,
{
    if n > 0 {
        lemma_escrowed_insert(m, token, (n - 1) as nat, k, b);
        if k == n as u64 {
            assert(m.insert(k, b)[n as u64] == b);
        } else {
            assert(m.insert(k, b).contains_key(n as u64) == m.contains_key(n as u64));
        }
    }
}

/// Appending a transfer adds what it moves.
proof fn lemma_net_inflow_push(ts: Seq<Transfer>, t: Transfer, contract: Seq<char>, token: Seq<char>)
    ensures
        net_inflow(ts.push(t), contract, token) == net_inflow(ts, contract, token) + inflow(
            t,
            contract,
            token,
        ),
{
    assert(ts.push(t).drop_last() =~= ts);
}

/// A contract that was never called is balanced.
pub proof fn fresh_contract_is_balanced(e: EnvView)
    requires
        e.storage.bounty_count is None,
        e.transfers.len() == 0,
    ensures
        balanced(e),
{
}

/// `post_bounty` keeps the escrow balanced: the deposit that it takes from
/// the owner is the whole amount of the new open bounty.
pub proof fn post_keeps_balance(
    e: EnvView,
    owner: Address,
    title: Seq<u8>,
    description: Seq<u8>,
    amount: i128,
    token: Address,
    claim_deadline: u64,
)
    requires
        balanced(e),
        post_runs(e, amount, claim_deadline),
        owner@ != e.current_contract@,
    ensures
        balanced(post_outcome(e, owner, title, description, amount, token, claim_deadline).1),
{
    let e2 = post_outcome(e, owner, title, description, amount, token, claim_deadline).1;
    if post_outcome(e, owner, title, description, amount, token, claim_deadline).0 is Ok {
        let id = (e.storage.count() + 1) as u64;
        let tr = Transfer { token, from: owner, to: e.current_contract, amount };
        assert forall|t: Seq<char>| #[trigger]
            escrowed(e2.storage, t) == net_inflow(e2.transfers, e2.current_contract@, t) by {
            lemma_escrowed_insert(e.storage.bounties, t, e.storage.count(), id, e2.storage.bounties[id]);
            lemma_net_inflow_push(e.transfers, tr, e.current_contract@, t);
            assert(escrowed(e.storage, t) == net_inflow(e.transfers, e.current_contract@, t));
        }
    }
}

/// `claim_bounty` moves no funds, and the claimed bounty stays in escrow.
pub proof fn claim_keeps_balance(e: EnvView, claimant: Address, bounty_id: u64)
    requires
        balanced(e),
        storage_wf(e.storage),
    ensures
        balanced(claim_outcome(e, claimant, bounty_id).1),
{
    let e2 = claim_outcome(e, claimant, bounty_id).1;
    if claim_outcome(e, claimant, bounty_id).0 is Ok {
        assert(bounty_wf(e.storage.bounties[bounty_id], bounty_id));
        assert forall|t: Seq<char>| #[trigger]
            escrowed(e2.storage, t) == net_inflow(e2.transfers, e2.current_contract@, t) by {
            lemma_escrowed_insert(e.storage.bounties, t, e.storage.count(), bounty_id, e2.storage.bounties[bounty_id]);
            assert(escrowed(e.storage, t) == net_inflow(e.transfers, e.current_contract@, t));
        }
    }
}

/// `approve_completion` keeps the escrow balanced: it pays the claimant the
/// whole amount of the bounty, which leaves escrow.
pub proof fn approve_keeps_balance(e: EnvView, owner: Address, bounty_id: u64)
    requires
        balanced(e),
        storage_wf(e.storage),
        e.storage.lookup(bounty_id) matches Some(b) ==> b.claimant matches Some(c) ==> c@
            != e.current_contract@,
    ensures
        balanced(approve_outcome(e, owner, bounty_id).1),
{
    let e2 = approve_outcome(e, owner, bounty_id).1;
    if approve_outcome(e, owner, bounty_id).0 is Ok {
        let b = e.storage.bounties[bounty_id];
        assert(bounty_wf(b, bounty_id));
        let tr = Transfer {
            token: b.token,
            from: e.current_contract,
            to: b.claimant->0,
            amount: b.amount,
        };
        assert forall|t: Seq<char>| #[trigger]
            escrowed(e2.storage, t) == net_inflow(e2.transfers, e2.current_contract@, t) by {
            lemma_escrowed_insert(e.storage.bounties, t, e.storage.count(), bounty_id, e2.storage.bounties[bounty_id]);
            lemma_net_inflow_push(e.transfers, tr, e.current_contract@, t);
            assert(escrowed(e.storage, t) == net_inflow(e.transfers, e.current_contract@, t));
        }
    }
}

/// `cancel_bounty` keeps the escrow balanced: it refunds the owner the whole
/// amount of the bounty, which leaves escrow.
pub proof fn cancel_keeps_balance(e: EnvView, owner: Address, bounty_id: u64)
    requires
        balanced(e),
        storage_wf(e.storage),
        owner@ != e.current_contract@,
    ensures
        balanced(cancel_outcome(e, owner, bounty_id).1),
{
    let e2 = cancel_outcome(e, owner, bounty_id).1;
    if cancel_outcome(e, owner, bounty_id).0 is Ok {
        let b = e.storage.bounties[bounty_id];
        assert(bounty_wf(b, bounty_id));
        let tr = Transfer { token: b.token, from: e.current_contract, to: owner, amount: b.amount };
        assert forall|t: Seq<char>| #[trigger]
            escrowed(e2.storage, t) == net_inflow(e2.transfers, e2.current_contract@, t) by {
            lemma_escrowed_insert(e.storage.bounties, t, e.storage.count(), bounty_id, e2.storage.bounties[bounty_id]);
            lemma_net_inflow_push(e.transfers, tr, e.current_contract@, t);
            assert(escrowed(e.storage, t) == net_inflow(e.transfers, e.current_contract@, t));
        }
    }
}

// ---------------------------------------------------------------------------
// Listing
// ---------------------------------------------------------------------------

/// Every bounty that `matching_up_to` gives passes the filter, and the ids 1
/// to `n` give at most `n` of them.
proof fn lemma_matching_pass_filter(s: StorageView, filter: Option<BountyStatus>, n: nat)
    ensures
        forall|i: int|
            0 <= i < matching_up_to(s, filter, n).len() ==> status_matches(
                filter,
                #[trigger] matching_up_to(s, filter, n)[i].status,
            ),
        matching_up_to(s, filter, n).len() <= n,
    decreases n,
{
    if n > 0 {
        lemma_matching_pass_filter(s, filter, (n - 1) as nat);
    }
}

/// A page of `list_bounties` holds at most `limit` bounties and never more
/// than 50, and each of them passes the status filter.
pub proof fn page_is_bounded_and_filtered(
    s: StorageView,
    filter: Option<BountyStatus>,
    offset: u64,
    limit: u64,
)
    ensures
        listed(s, filter, offset, limit).len() <= limit,
        listed(s, filter, offset, limit).len() <= MAX_PAGE,
        forall|i: int|
            0 <= i < listed(s, filter, offset, limit).len() ==> status_matches(
                filter,
                #[trigger] listed(s, filter, offset, limit)[i].status,
            ),
{
    lemma_matching_pass_filter(s, filter, s.count());
    let all = matching_up_to(s, filter, s.count());
    let page = listed(s, filter, offset, limit);
    assert forall|i: int| 0 <= i < page.len() implies status_matches(filter, #[trigger] page[i].status) by {
        let start = if offset < all.len() { offset as int } else { all.len() as int };
        assert(page[i] == all[start + i]);
    }
}

// ---------------------------------------------------------------------------
// Runs of calls
// ---------------------------------------------------------------------------

/// A call of one of the contract's state-changing entry points.
pub enum Call {
    Post {
        owner: Address,
        title: Seq<u8>,
        description: Seq<u8>,
        amount: i128,
        token: Address,
        claim_deadline: u64,
    },
    Claim { claimant: Address, bounty_id: u64 },
    Approve { owner: Address, bounty_id: u64 },
    Cancel { owner: Address, bounty_id: u64 },
}

/// A call made in the ledger with sequence number `sequence`.
pub struct Step {
    pub sequence: u32,
    pub call: Call,
}

/// `e` as seen by a call in ledger `sequence`.
pub open spec fn in_ledger(e: EnvView, sequence: u32) -> EnvView {
    EnvView { ledger_sequence: sequence, ..e }
}

/// The environment that step `s` leaves.
pub open spec fn step_env(e: EnvView, s: Step) -> EnvView {
    let e1 = in_ledger(e, s.sequence);
    match s.call {
        Call::Post { owner, title, description, amount, token, claim_deadline } => post_outcome(
            e1,
            owner,
            title,
            description,
            amount,
            token,
            claim_deadline,
        ).1,
        Call::Claim { claimant, bounty_id } => claim_outcome(e1, claimant, bounty_id).1,
        Call::Approve { owner, bounty_id } => approve_outcome(e1, owner, bounty_id).1,
        Call::Cancel { owner, bounty_id } => cancel_outcome(e1, owner, bounty_id).1,
    }
}

/// Whether step `s` succeeds on `e`.
pub open spec fn step_succeeds(e: EnvView, s: Step) -> bool {
    let e1 = in_ledger(e, s.sequence);
    match s.call {
        Call::Post { owner, title, description, amount, token, claim_deadline } => post_outcome(
            e1,
            owner,
            title,
            description,
            amount,
            token,
            claim_deadline,
        ).0 is Ok,
        Call::Claim { claimant, bounty_id } => claim_outcome(e1, claimant, bounty_id).0 is Ok,
        Call::Approve { owner, bounty_id } => approve_outcome(e1, owner, bounty_id).0 is Ok,
        Call::Cancel { owner, bounty_id } => cancel_outcome(e1, owner, bounty_id).0 is Ok,
    }
}

/// Whether step `s` is a claim, approval or cancellation of bounty `id`.
pub open spec fn targets(s: Step, id: u64) -> bool {
    match s.call {
        Call::Post { .. } => false,
        Call::Claim { bounty_id, .. } => bounty_id == id,
        Call::Approve { bounty_id, .. } => bounty_id == id,
        Call::Cancel { bounty_id, .. } => bounty_id == id,
    }
}

/// The environment after the steps `steps`, in order, from `e`.
pub open spec fn run(e: EnvView, steps: Seq<Step>) -> EnvView
    decreases steps.len(),
{
    if steps.len() == 0 {
        e
    } else {
        step_env(run(e, steps.drop_last()), steps.last())
    }
}

/// How many of the steps `steps`, run from `e`, are successful posts.
pub open spec fn successful_posts(e: EnvView, steps: Seq<Step>) -> nat
    decreases steps.len(),
{
    if steps.len() == 0 {
        0
    } else {
        successful_posts(e, steps.drop_last()) + if steps.last().call is Post && step_succeeds(
            run(e, steps.drop_last()),
            steps.last(),
        ) {
            1nat
        } else {
            0nat
        }
    }
}

/// One step keeps the storage well formed and the contract's address, and
/// advances the counter exactly where it is a successful post.
proof fn lemma_step_keeps_wf(e: EnvView, s: Step)
    requires
        storage_wf(e.storage),
        e.storage.count() < u64::MAX,
    ensures
        storage_wf(step_env(e, s).storage),
        step_env(e, s).current_contract == e.current_contract,
        step_env(e, s).storage.count() == e.storage.count() + if s.call is Post && step_succeeds(
            e,
            s,
        ) {
            1nat
        } else {
            0nat
        },
        follows_lifecycle(e.storage, step_env(e, s).storage),
{
    let e1 = in_ledger(e, s.sequence);
    match s.call {
        Call::Post { owner, title, description, amount, token, claim_deadline } => {
            post_keeps_wf(e1, owner, title, description, amount, token, claim_deadline);
            post_follows_lifecycle(e1, owner, title, description, amount, token, claim_deadline);
        },
        Call::Claim { claimant, bounty_id } => {
            claim_keeps_wf(e1, claimant, bounty_id);
            claim_follows_lifecycle(e1, claimant, bounty_id);
        },
        Call::Approve { owner, bounty_id } => {
            approve_keeps_wf(e1, owner, bounty_id);
            approve_follows_lifecycle(e1, owner, bounty_id);
        },
        Call::Cancel { owner, bounty_id } => {
            cancel_keeps_wf(e1, owner, bounty_id);
            cancel_follows_lifecycle(e1, owner, bounty_id);
        },
    }
}

/// Where a bounty may be after any number of moves of the lifecycle: an open
/// bounty anywhere, a claimed one anywhere but open, a settled one nowhere
/// else.
pub open spec fn reachable(from: BountyStatus, to: BountyStatus) -> bool {
    ||| from == to
    ||| from == BountyStatus::Open
    ||| from == BountyStatus::Claimed && to != BountyStatus::Open
}

/// Any run of calls keeps the storage well formed, and the bounty counter
/// counts the successful posts: ids are given one by one and a refused call
/// takes none.  Every bounty that existed before the run still exists,
/// has moved only along the lifecycle and keeps all but its status and
/// claimant.
pub proof fn run_keeps_wf(e: EnvView, steps: Seq<Step>)
    requires
        storage_wf(e.storage),
        e.storage.count() + steps.len() <= u64::MAX,
    ensures
        storage_wf(run(e, steps).storage),
        run(e, steps).current_contract == e.current_contract,
        run(e, steps).storage.count() == e.storage.count() + successful_posts(e, steps),
        forall|k: u64| #[trigger]
            e.storage.bounties.contains_key(k) ==> run(e, steps).storage.bounties.contains_key(k)
                && reachable(e.storage.bounties[k].status, run(e, steps).storage.bounties[k].status)
                && same_record(e.storage.bounties[k], run(e, steps).storage.bounties[k]),
    decreases steps.len(),
{
    if steps.len() > 0 {
        let before = steps.drop_last();
        run_keeps_wf(e, before);
        let m = run(e, before);
        assert(successful_posts(e, before) <= before.len()) by {
            lemma_successful_posts_bounded(e, before);
        }
        lemma_step_keeps_wf(m, steps.last());
    }
}

/// At most every step is a successful post.
proof fn lemma_successful_posts_bounded(e: EnvView, steps: Seq<Step>)
    ensures
        successful_posts(e, steps) <= steps.len(),
    decreases steps.len(),
{
    if steps.len() > 0 {
        lemma_successful_posts_bounded(e, steps.drop_last());
    }
}

/// Running the first `i + 1` steps is running the first `i`, then step `i`.
proof fn lemma_run_prefix(e: EnvView, steps: Seq<Step>, i: int)
    requires
        0 <= i < steps.len(),
    ensures
        run(e, steps.take(i + 1)) == step_env(run(e, steps.take(i)), steps[i]),
        successful_posts(e, steps.take(i + 1)) == successful_posts(e, steps.take(i)) + if steps[i].call is Post
            && step_succeeds(run(e, steps.take(i)), steps[i]) {
            1nat
        } else {
            0nat
        },
{
    assert(steps.take(i + 1).drop_last() =~= steps.take(i));
}

/// Posts get the ids 1, 2, 3, ... in order: from a contract that was never
/// called, the successful post at step `i` of any run returns the number of
/// successful posts before it, plus one.
pub proof fn posts_get_sequential_ids(e: EnvView, steps: Seq<Step>, i: int)
    requires
        e.storage.bounty_count is None,
        e.storage.bounties == Map::<u64, BountyView>::empty(),
        steps.len() <= u64::MAX,
        0 <= i < steps.len(),
    ensures
        ({
            let before = run(e, steps.take(i));
            match steps[i].call {
                Call::Post { owner, title, description, amount, token, claim_deadline } => {
                    let r = post_outcome(
                        in_ledger(before, steps[i].sequence),
                        owner,
                        title,
                        description,
                        amount,
                        token,
                        claim_deadline,
                    ).0;
                    r is Ok ==> r == Ok::<u64, SoroQuestError>(
                        (successful_posts(e, steps.take(i)) + 1) as u64,
                    )
                },
                _ => true,
            }
        }),
        run(e, steps).storage.count() == successful_posts(e, steps),
{
    run_keeps_wf(e, steps.take(i));
    run_keeps_wf(e, steps);
}

/// Once a bounty is completed or cancelled, no later call changes it: every
/// later claim, approval or cancellation of it is refused (so it pays out
/// nothing more), and it stays exactly as it was.
pub proof fn settled_bounty_stays_settled(e: EnvView, steps: Seq<Step>, id: u64)
    requires
        storage_wf(e.storage),
        e.storage.count() + steps.len() <= u64::MAX,
        e.storage.lookup(id) matches Some(b) && (b.status == BountyStatus::Completed || b.status
            == BountyStatus::Cancelled),
    ensures
        run(e, steps).storage.lookup(id) == e.storage.lookup(id),
        forall|i: int|
            0 <= i < steps.len() && #[trigger] targets(steps[i], id) ==> !step_succeeds(
                run(e, steps.take(i)),
                steps[i],
            ),
    decreases steps.len(),
{
    if steps.len() > 0 {
        let before = steps.drop_last();
        settled_bounty_stays_settled(e, before, id);
        run_keeps_wf(e, before);
        lemma_successful_posts_bounded(e, before);
        let m = run(e, before);
        let s = steps.last();
        let e1 = in_ledger(m, s.sequence);
        assert(bounty_wf(m.storage.bounties[id], id));
        match s.call {
            Call::Claim { claimant, bounty_id } => {
                if bounty_id == id {
                    settled_bounty_is_final(e1, claimant, bounty_id);
                }
                if bounty_id != id && claim_outcome(e1, claimant, bounty_id).0 is Ok {
                    assert(bounty_wf(m.storage.bounties[bounty_id], bounty_id));
                }
            },
            Call::Approve { owner, bounty_id } => {
                if bounty_id == id {
                    settled_bounty_is_final(e1, owner, bounty_id);
                }
                if bounty_id != id && approve_outcome(e1, owner, bounty_id).0 is Ok {
                    assert(bounty_wf(m.storage.bounties[bounty_id], bounty_id));
                }
            },
            Call::Cancel { owner, bounty_id } => {
                if bounty_id == id {
                    settled_bounty_is_final(e1, owner, bounty_id);
                }
                if bounty_id != id && cancel_outcome(e1, owner, bounty_id).0 is Ok {
                    assert(bounty_wf(m.storage.bounties[bounty_id], bounty_id));
                }
            },
            Call::Post { .. } => {},
        }
        assert forall|i: int|
            0 <= i < steps.len() && #[trigger] targets(steps[i], id) implies !step_succeeds(
            run(e, steps.take(i)),
            steps[i],
        ) by {
            if i < steps.len() - 1 {
                assert(steps.take(i) =~= before.take(i));
                assert(steps[i] == before[i]);
            } else {
                assert(steps.take(i) =~= before);
            }
        }
    }
}

/// Once a bounty has been claimed it never becomes open again, and every
/// later claim of it is refused with `BountyNotOpen`: only one hunter ever
/// holds the claim.
pub proof fn claimed_bounty_never_reopens(e: EnvView, steps: Seq<Step>, id: u64)
    requires
        storage_wf(e.storage),
        e.storage.count() + steps.len() <= u64::MAX,
        e.storage.lookup(id) matches Some(b) && b.status != BountyStatus::Open,
    ensures
        run(e, steps).storage.bounties[id].status != BountyStatus::Open,
        forall|i: int|
            0 <= i < steps.len() ==> match #[trigger] steps[i].call {
                Call::Claim { claimant, bounty_id } => bounty_id == id ==> claim_outcome(
                    in_ledger(run(e, steps.take(i)), steps[i].sequence),
                    claimant,
                    bounty_id,
                ).0 == Err::<(), SoroQuestError>(SoroQuestError::BountyNotOpen),
                _ => true,
            },
{
    run_keeps_wf(e, steps);
    assert(e.storage.bounties.contains_key(id));
    assert forall|i: int|
        0 <= i < steps.len() implies match #[trigger] steps[i].call {
        Call::Claim { claimant, bounty_id } => bounty_id == id ==> claim_outcome(
            in_ledger(run(e, steps.take(i)), steps[i].sequence),
            claimant,
            bounty_id,
        ).0 == Err::<(), SoroQuestError>(SoroQuestError::BountyNotOpen),
        _ => true,
    } by {
        run_keeps_wf(e, steps.take(i));
    }
}

/// No recorded claimant is the contract at `contract` itself.
pub open spec fn claimants_apart(s: StorageView, contract: Seq<char>) -> bool {
    forall|k: u64| #[trigger]
        s.bounties.contains_key(k) ==> (s.bounties[k].claimant matches Some(c) ==> c@ != contract)
}

/// No step's caller is the contract at `contract` itself (an owner who posts
/// or cancels, or a hunter who claims).
pub open spec fn parties_apart(steps: Seq<Step>, contract: Seq<char>) -> bool {
    forall|i: int|
        0 <= i < steps.len() ==> match #[trigger] steps[i].call {
            Call::Post { owner, .. } => owner@ != contract,
            Call::Claim { claimant, .. } => claimant@ != contract,
            Call::Approve { .. } => true,
            Call::Cancel { owner, .. } => owner@ != contract,
        }
}

/// One step by a caller other than the contract keeps the escrow balanced
/// and keeps the contract out of the recorded claimants.
proof fn lemma_step_keeps_balance(e: EnvView, s: Step)
    requires
        balanced(e),
        storage_wf(e.storage),
        e.storage.count() < u64::MAX,
        claimants_apart(e.storage, e.current_contract@),
        match s.call {
            Call::Post { owner, .. } => owner@ != e.current_contract@,
            Call::Claim { claimant, .. } => claimant@ != e.current_contract@,
            Call::Approve { .. } => true,
            Call::Cancel { owner, .. } => owner@ != e.current_contract@,
        },
    ensures
        balanced(step_env(e, s)),
        claimants_apart(step_env(e, s).storage, e.current_contract@),
{
    let e1 = in_ledger(e, s.sequence);
    assert(balanced(e1));
    match s.call {
        Call::Post { owner, title, description, amount, token, claim_deadline } => {
            post_keeps_balance(e1, owner, title, description, amount, token, claim_deadline);
        },
        Call::Claim { claimant, bounty_id } => {
            claim_keeps_balance(e1, claimant, bounty_id);
        },
        Call::Approve { owner, bounty_id } => {
            approve_keeps_balance(e1, owner, bounty_id);
        },
        Call::Cancel { owner, bounty_id } => {
            cancel_keeps_balance(e1, owner, bounty_id);
        },
    }
    let s2 = step_env(e, s).storage;
    assert forall|k: u64| #[trigger] s2.bounties.contains_key(k) implies (
    s2.bounties[k].claimant matches Some(c) ==> c@ != e.current_contract@) by {
        if e.storage.bounties.contains_key(k) {
            assert(bounty_wf(e.storage.bounties[k], k));
        }
    }
}

/// The escrow stays balanced over any run of calls made by parties other
/// than the contract itself: at every point, in each token, what the
/// transfers moved into the contract is what the open and claimed bounties
/// keep in escrow.
pub proof fn run_keeps_balance(e: EnvView, steps: Seq<Step>)
    requires
        balanced(e),
        storage_wf(e.storage),
        claimants_apart(e.storage, e.current_contract@),
        parties_apart(steps, e.current_contract@),
        e.storage.count() + steps.len() <= u64::MAX,
    ensures
        balanced(run(e, steps)),
        claimants_apart(run(e, steps).storage, e.current_contract@),
    decreases steps.len(),
{
    if steps.len() > 0 {
        let before = steps.drop_last();
        assert(parties_apart(before, e.current_contract@)) by {
            assert forall|i: int| 0 <= i < before.len() implies match #[trigger] before[i].call {
                Call::Post { owner, .. } => owner@ != e.current_contract@,
                Call::Claim { claimant, .. } => claimant@ != e.current_contract@,
                Call::Approve { .. } => true,
                Call::Cancel { owner, .. } => owner@ != e.current_contract@,
            } by {
                assert(before[i] == steps[i]);
            }
        }
        run_keeps_balance(e, before);
        run_keeps_wf(e, before);
        lemma_successful_posts_bounded(e, before);
        let last = steps.last();
        assert(steps[steps.len() - 1] == last);
        lemma_step_keeps_balance(run(e, before), last);
    }
}

/// A contract that was never called has no recorded claimant.
pub proof fn fresh_contract_has_no_claimants(e: EnvView)
    requires
        e.storage.bounties == Map::<u64, BountyView>::empty(),
    ensures
        claimants_apart(e.storage, e.current_contract@),
{
}

} // verus!
