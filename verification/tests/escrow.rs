use std::collections::HashMap;

use soroquest_escrow::{
    Address, Bounty, BountyEvent, BountyStatus, Env, SoroQuestError, SoroQuestEscrow, Storage,
    StorageKey,
};

fn addr(strkey: &str) -> Address {
    Address::from_strkey(strkey.to_string())
}

/// The escrow contract as its callers see it: one persistent environment,
/// and the token balances that the recorded transfers move.
struct Ledger {
    env: Env,
    balances: HashMap<(String, String), i128>,
    settled: usize,
}

impl Ledger {
    fn new() -> Ledger {
        Ledger {
            env: Env::new(Storage::new(), addr("CESCROW"), 0),
            balances: HashMap::new(),
            settled: 0,
        }
    }

    fn contract(&self) -> Address {
        self.env.current_contract.clone()
    }

    fn mint(&mut self, token: &Address, to: &Address, amount: i128) {
        *self
            .balances
            .entry((token.strkey().clone(), to.strkey().clone()))
            .or_insert(0) += amount;
    }

    fn balance(&self, token: &Address, of: &Address) -> i128 {
        *self
            .balances
            .get(&(token.strkey().clone(), of.strkey().clone()))
            .unwrap_or(&0)
    }

    /// Carries out the transfers that the last call recorded, as a token
    /// contract does: the sender must hold the amount.
    fn settle(&mut self) {
        while self.settled < self.env.transfers.len() {
            let t = &self.env.transfers[self.settled];
            let (token, from, to, amount) = (t.token.clone(), t.from.clone(), t.to.clone(), t.amount);
            assert!(self.balance(&token, &from) >= amount, "insufficient balance");
            self.mint(&token, &from, -amount);
            self.mint(&token, &to, amount);
            self.settled += 1;
        }
    }

    fn set_sequence(&mut self, sequence: u32) {
        self.env.ledger_sequence = sequence;
    }

    fn post_bounty(
        &mut self,
        owner: &Address,
        title: &str,
        description: &str,
        amount: i128,
        token: &Address,
        claim_deadline: u64,
    ) -> Result<u64, SoroQuestError> {
        let r = SoroQuestEscrow::post_bounty(
            &mut self.env,
            owner.clone(),
            title.as_bytes().to_vec(),
            description.as_bytes().to_vec(),
            amount,
            token.clone(),
            claim_deadline,
        );
        self.settle();
        r
    }

    fn claim_bounty(&mut self, claimant: &Address, id: u64) -> Result<(), SoroQuestError> {
        let r = SoroQuestEscrow::claim_bounty(&mut self.env, claimant.clone(), id);
        self.settle();
        r
    }

    fn approve_completion(&mut self, owner: &Address, id: u64) -> Result<(), SoroQuestError> {
        let r = SoroQuestEscrow::approve_completion(&mut self.env, owner.clone(), id);
        self.settle();
        r
    }

    fn cancel_bounty(&mut self, owner: &Address, id: u64) -> Result<(), SoroQuestError> {
        let r = SoroQuestEscrow::cancel_bounty(&mut self.env, owner.clone(), id);
        self.settle();
        r
    }

    fn get_bounty(&self, id: u64) -> Result<Bounty, SoroQuestError> {
        SoroQuestEscrow::get_bounty(&self.env, id)
    }
}

#[test]
fn test_post_bounty() {
    let mut l = Ledger::new();
    let owner = addr("GOWNER");
    let token = addr("CTOKEN");
    l.mint(&token, &owner, 1000);

    let id = l.post_bounty(&owner, "Fix bug", "Fix it fast", 500, &token, 0).unwrap();

    assert_eq!(id, 1);
    assert_eq!(l.balance(&token, &owner), 500);
    assert_eq!(l.balance(&token, &l.contract()), 500);

    let bounty = l.get_bounty(1).unwrap();
    assert_eq!(bounty.owner, owner);
    assert_eq!(bounty.status, BountyStatus::Open);
}

#[test]
fn test_full_lifecycle() {
    let mut l = Ledger::new();
    let owner = addr("GOWNER");
    let claimant = addr("GCLAIMANT");
    let token = addr("CTOKEN");
    l.mint(&token, &owner, 1000);

    let id = l.post_bounty(&owner, "Build feature", "Build it", 1000, &token, 0).unwrap();
    assert_eq!(l.get_bounty(id).unwrap().status, BountyStatus::Open);
    assert_eq!(l.balance(&token, &l.contract()), 1000);

    l.claim_bounty(&claimant, id).unwrap();
    let bounty = l.get_bounty(id).unwrap();
    assert_eq!(bounty.status, BountyStatus::Claimed);
    assert_eq!(bounty.claimant, Some(claimant.clone()));

    l.approve_completion(&owner, id).unwrap();
    assert_eq!(l.get_bounty(id).unwrap().status, BountyStatus::Completed);

    assert_eq!(l.balance(&token, &claimant), 1000);
    assert_eq!(l.balance(&token, &l.contract()), 0);
}

#[test]
fn test_cancel_open_bounty() {
    let mut l = Ledger::new();
    let owner = addr("GOWNER");
    let token = addr("CTOKEN");
    l.mint(&token, &owner, 1000);

    let id = l.post_bounty(&owner, "Task", "Desc", 1000, &token, 0).unwrap();
    l.cancel_bounty(&owner, id).unwrap();

    let bounty = l.get_bounty(id).unwrap();
    assert_eq!(bounty.status, BountyStatus::Cancelled);
    assert_eq!(l.balance(&token, &owner), 1000);
    assert_eq!(l.balance(&token, &l.contract()), 0);
}

#[test]
fn test_cancel_claimed_before_deadline() {
    let mut l = Ledger::new();
    let owner = addr("GOWNER");
    let claimant = addr("GCLAIMANT");
    let token = addr("CTOKEN");
    l.mint(&token, &owner, 1000);
    l.set_sequence(100);

    let id = l.post_bounty(&owner, "Task", "Desc", 1000, &token, 200).unwrap();
    l.claim_bounty(&claimant, id).unwrap();

    l.set_sequence(150);
    let r = l.cancel_bounty(&owner, id);
    assert_eq!(r, Err(SoroQuestError::DeadlineNotPassed));
    assert_eq!(r.unwrap_err().code(), 6);
}

#[test]
fn test_cancel_claimed_after_deadline() {
    let mut l = Ledger::new();
    let owner = addr("GOWNER");
    let claimant = addr("GCLAIMANT");
    let token = addr("CTOKEN");
    l.mint(&token, &owner, 1000);
    l.set_sequence(100);

    let id = l.post_bounty(&owner, "Task", "Desc", 1000, &token, 200).unwrap();
    l.claim_bounty(&claimant, id).unwrap();

    l.set_sequence(250);
    l.cancel_bounty(&owner, id).unwrap();

    let bounty = l.get_bounty(id).unwrap();
    assert_eq!(bounty.status, BountyStatus::Cancelled);
    assert_eq!(l.balance(&token, &owner), 1000);
    assert_eq!(bounty.claimant, None);
}

#[test]
fn test_cancel_claimed_no_deadline() {
    let mut l = Ledger::new();
    let owner = addr("GOWNER");
    let claimant = addr("GCLAIMANT");
    let token = addr("CTOKEN");
    l.mint(&token, &owner, 1000);

    let id = l.post_bounty(&owner, "Task", "Desc", 1000, &token, 0).unwrap();
    l.claim_bounty(&claimant, id).unwrap();
    l.cancel_bounty(&owner, id).unwrap();

    assert_eq!(l.get_bounty(id).unwrap().status, BountyStatus::Cancelled);
    assert_eq!(l.balance(&token, &owner), 1000);
}

#[test]
fn test_approve_non_owner() {
    let mut l = Ledger::new();
    let owner = addr("GOWNER");
    let claimant = addr("GCLAIMANT");
    let other = addr("GOTHER");
    let token = addr("CTOKEN");
    l.mint(&token, &owner, 1000);

    let id = l.post_bounty(&owner, "Task", "Desc", 1000, &token, 0).unwrap();
    l.claim_bounty(&claimant, id).unwrap();

    let r = l.approve_completion(&other, id);
    assert_eq!(r, Err(SoroQuestError::NotOwner));
    assert_eq!(r.unwrap_err().code(), 5);
}

#[test]
fn test_cancel_non_owner() {
    let mut l = Ledger::new();
    let owner = addr("GOWNER");
    let other = addr("GOTHER");
    let token = addr("CTOKEN");
    l.mint(&token, &owner, 1000);

    let id = l.post_bounty(&owner, "Task", "Desc", 1000, &token, 0).unwrap();

    let r = l.cancel_bounty(&other, id);
    assert_eq!(r, Err(SoroQuestError::NotOwner));
    assert_eq!(r.unwrap_err().code(), 5);
}

#[test]
fn test_events() {
    let mut l = Ledger::new();
    let owner = addr("GOWNER");
    let claimant = addr("GCLAIMANT");
    let token = addr("CTOKEN");
    l.mint(&token, &owner, 2000);

    let id = l.post_bounty(&owner, "Task", "Desc", 1000, &token, 0).unwrap();
    assert_eq!(l.env.events.len(), 1);

    l.claim_bounty(&claimant, id).unwrap();
    assert_eq!(l.env.events.len(), 2);

    l.approve_completion(&owner, id).unwrap();
    assert_eq!(l.env.events.len(), 3);

    let id2 = l.post_bounty(&owner, "Task 2", "Desc", 1000, &token, 0).unwrap();
    l.cancel_bounty(&owner, id2).unwrap();
    assert_eq!(l.env.events.len(), 5);
}

#[test]
fn test_post_zero_amount() {
    let mut l = Ledger::new();
    let owner = addr("GOWNER");
    let token = addr("CTOKEN");

    let r = l.post_bounty(&owner, "Task", "Desc", 0, &token, 0);
    assert_eq!(r, Err(SoroQuestError::InvalidAmount));
    assert_eq!(r.unwrap_err().code(), 7);
}

#[test]
fn test_claim_already_claimed() {
    let mut l = Ledger::new();
    let owner = addr("GOWNER");
    let claimant1 = addr("GCLAIMANT1");
    let claimant2 = addr("GCLAIMANT2");
    let token = addr("CTOKEN");
    l.mint(&token, &owner, 1000);

    let id = l.post_bounty(&owner, "Task", "Desc", 1000, &token, 0).unwrap();
    l.claim_bounty(&claimant1, id).unwrap();

    let r = l.claim_bounty(&claimant2, id);
    assert_eq!(r, Err(SoroQuestError::BountyNotOpen));
    assert_eq!(r.unwrap_err().code(), 2);
}

#[test]
fn test_approve_cancelled_bounty() {
    let mut l = Ledger::new();
    let owner = addr("GOWNER");
    let token = addr("CTOKEN");
    l.mint(&token, &owner, 1000);

    let id = l.post_bounty(&owner, "Task", "Desc", 1000, &token, 0).unwrap();
    l.cancel_bounty(&owner, id).unwrap();

    let r = l.approve_completion(&owner, id);
    assert_eq!(r, Err(SoroQuestError::BountyNotClaimed));
    assert_eq!(r.unwrap_err().code(), 3);
}

#[test]
fn test_get_nonexistent_bounty() {
    let l = Ledger::new();
    let r = l.get_bounty(999);
    assert_eq!(r.as_ref().unwrap_err(), &SoroQuestError::BountyNotFound);
    assert_eq!(r.unwrap_err().code(), 1);
}

#[test]
fn test_list_bounties_limit() {
    let mut l = Ledger::new();
    let owner = addr("GOWNER");
    let token = addr("CTOKEN");
    l.mint(&token, &owner, 6000);

    for _ in 0..55 {
        l.post_bounty(&owner, "Task", "Desc", 100, &token, 0).unwrap();
    }

    let results = SoroQuestEscrow::list_bounties(&l.env, None, 0, 100);
    assert_eq!(results.len(), 50);
}

#[test]
fn test_multi_token_lifecycle() {
    let mut l = Ledger::new();
    let owner = addr("GOWNER");
    let claimant_a = addr("GCLAIMANTA");
    let claimant_b = addr("GCLAIMANTB");
    let token_a = addr("CTOKENA");
    let token_b = addr("CTOKENB");
    l.mint(&token_a, &owner, 1000);
    l.mint(&token_b, &owner, 2500);

    let id_a = l
        .post_bounty(&owner, "Bounty in Token A", "First token reward", 1000, &token_a, 0)
        .unwrap();
    let id_b = l
        .post_bounty(&owner, "Bounty in Token B", "Second token reward", 2500, &token_b, 0)
        .unwrap();

    let bounty_a = l.get_bounty(id_a).unwrap();
    let bounty_b = l.get_bounty(id_b).unwrap();

    assert_eq!(bounty_a.token, token_a);
    assert_eq!(bounty_b.token, token_b);
    assert_eq!(l.balance(&token_a, &l.contract()), 1000);
    assert_eq!(l.balance(&token_b, &l.contract()), 2500);
    assert_eq!(l.balance(&token_a, &owner), 0);
    assert_eq!(l.balance(&token_b, &owner), 0);

    l.claim_bounty(&claimant_a, id_a).unwrap();
    l.claim_bounty(&claimant_b, id_b).unwrap();

    l.approve_completion(&owner, id_a).unwrap();
    assert_eq!(l.balance(&token_a, &claimant_a), 1000);
    assert_eq!(l.balance(&token_b, &claimant_a), 0);
    assert_eq!(l.balance(&token_a, &l.contract()), 0);

    l.approve_completion(&owner, id_b).unwrap();
    assert_eq!(l.balance(&token_b, &claimant_b), 2500);
    assert_eq!(l.balance(&token_a, &claimant_b), 0);
    assert_eq!(l.balance(&token_b, &l.contract()), 0);

    assert_eq!(l.get_bounty(id_a).unwrap().status, BountyStatus::Completed);
    assert_eq!(l.get_bounty(id_b).unwrap().status, BountyStatus::Completed);
}

#[test]
fn test_multi_token_cancellation_refund() {
    let mut l = Ledger::new();
    let owner = addr("GOWNER");
    let token_a = addr("CTOKENA");
    let token_b = addr("CTOKENB");
    l.mint(&token_a, &owner, 1500);
    l.mint(&token_b, &owner, 3000);

    let id_a = l.post_bounty(&owner, "Bounty A", "Refund Token A test", 1500, &token_a, 0).unwrap();
    let id_b = l.post_bounty(&owner, "Bounty B", "Refund Token B test", 3000, &token_b, 0).unwrap();

    l.cancel_bounty(&owner, id_a).unwrap();
    assert_eq!(l.balance(&token_a, &owner), 1500);
    assert_eq!(l.balance(&token_a, &l.contract()), 0);
    assert_eq!(l.balance(&token_b, &owner), 0);
    assert_eq!(l.balance(&token_b, &l.contract()), 3000);

    l.cancel_bounty(&owner, id_b).unwrap();
    assert_eq!(l.balance(&token_b, &owner), 3000);
    assert_eq!(l.balance(&token_b, &l.contract()), 0);

    assert_eq!(l.get_bounty(id_a).unwrap().status, BountyStatus::Cancelled);
    assert_eq!(l.get_bounty(id_b).unwrap().status, BountyStatus::Cancelled);
}

#[test]
fn test_multi_token_claimed_cancellation_with_deadlines() {
    let mut l = Ledger::new();
    let owner = addr("GOWNER");
    let claimant_a = addr("GCLAIMANTA");
    let claimant_b = addr("GCLAIMANTB");
    let token_a = addr("CTOKENA");
    let token_b = addr("CTOKENB");
    l.mint(&token_a, &owner, 1000);
    l.mint(&token_b, &owner, 2000);
    l.set_sequence(100);

    let id_a = l.post_bounty(&owner, "Bounty A", "Deadline 200", 1000, &token_a, 200).unwrap();
    let id_b = l.post_bounty(&owner, "Bounty B", "Deadline 300", 2000, &token_b, 300).unwrap();

    l.claim_bounty(&claimant_a, id_a).unwrap();
    l.claim_bounty(&claimant_b, id_b).unwrap();

    l.set_sequence(250);
    l.cancel_bounty(&owner, id_a).unwrap();
    assert_eq!(l.balance(&token_a, &owner), 1000);
    assert_eq!(l.balance(&token_a, &l.contract()), 0);
    assert_eq!(l.balance(&token_b, &l.contract()), 2000);

    l.set_sequence(350);
    l.cancel_bounty(&owner, id_b).unwrap();
    assert_eq!(l.balance(&token_b, &owner), 2000);
    assert_eq!(l.balance(&token_b, &l.contract()), 0);
}

// ---------------------------------------------------------------------------
// Further cases
// ---------------------------------------------------------------------------

fn ids(page: &[Bounty]) -> Vec<u64> {
    page.iter().map(|b| b.id).collect()
}

#[test]
fn error_codes_follow_the_variants() {
    let all = [
        SoroQuestError::BountyNotFound,
        SoroQuestError::BountyNotOpen,
        SoroQuestError::BountyNotClaimed,
        SoroQuestError::AlreadyClaimed,
        SoroQuestError::NotOwner,
        SoroQuestError::DeadlineNotPassed,
        SoroQuestError::InvalidAmount,
        SoroQuestError::InvalidDeadline,
        SoroQuestError::TransferFailed,
    ];
    for (i, e) in all.iter().enumerate() {
        assert_eq!(e.code(), i as u32 + 1);
    }
}

#[test]
fn post_rejects_deadline_not_after_current_ledger() {
    let mut l = Ledger::new();
    let owner = addr("GOWNER");
    let token = addr("CTOKEN");
    l.mint(&token, &owner, 1000);
    l.set_sequence(100);

    let r = l.post_bounty(&owner, "Task", "Desc", 10, &token, 100);
    assert_eq!(r, Err(SoroQuestError::InvalidDeadline));
    assert_eq!(r.unwrap_err().code(), 8);
    assert_eq!(l.post_bounty(&owner, "Task", "Desc", 10, &token, 99), Err(SoroQuestError::InvalidDeadline));
    assert_eq!(l.post_bounty(&owner, "Task", "Desc", -5, &token, 0), Err(SoroQuestError::InvalidAmount));
    assert_eq!(SoroQuestEscrow::get_bounty_count(&l.env), 0);

    assert_eq!(l.post_bounty(&owner, "Task", "Desc", 10, &token, 101), Ok(1));
    let b = l.get_bounty(1).unwrap();
    assert_eq!(b.created_at, 100);
    assert_eq!(b.claim_deadline, 101);
    assert_eq!(b.title, b"Task".to_vec());
    assert_eq!(b.description, b"Desc".to_vec());
    assert_eq!(b.amount, 10);
}

#[test]
fn post_records_transfer_writes_and_event() {
    let mut l = Ledger::new();
    let owner = addr("GOWNER");
    let token = addr("CTOKEN");
    l.mint(&token, &owner, 700);

    let id = l.post_bounty(&owner, "Task", "Desc", 700, &token, 0).unwrap();
    assert_eq!(l.env.written, vec![StorageKey::BountyCount, StorageKey::Bounty(1)]);
    assert_eq!(l.env.transfers.len(), 1);
    let t = &l.env.transfers[0];
    assert_eq!((&t.token, &t.from, &t.to, t.amount), (&token, &owner, &l.contract(), 700));

    match &l.env.events[0] {
        BountyEvent::Posted { bounty_id, owner: o, amount, token: tk, claim_deadline } => {
            assert_eq!((*bounty_id, o, *amount, tk, *claim_deadline), (id, &owner, 700, &token, 0));
        }
        other => panic!("unexpected event {:?}", other),
    }
    assert_eq!(l.env.events[0].action(), "posted");
    assert_eq!(l.env.events[0].bounty_id(), 1);
    assert_eq!(SoroQuestEscrow::get_bounty_count(&l.env), 1);
}

#[test]
fn ids_are_sequential() {
    let mut l = Ledger::new();
    let owner = addr("GOWNER");
    let token = addr("CTOKEN");
    l.mint(&token, &owner, 100);
    for expected in 1..=4u64 {
        assert_eq!(l.post_bounty(&owner, "T", "D", 25, &token, 0), Ok(expected));
        assert_eq!(SoroQuestEscrow::get_bounty_count(&l.env), expected);
    }
    assert_eq!(l.get_bounty(0).unwrap_err(), SoroQuestError::BountyNotFound);
    assert_eq!(l.get_bounty(5).unwrap_err(), SoroQuestError::BountyNotFound);
}

#[test]
fn refused_calls_change_nothing() {
    let mut l = Ledger::new();
    let owner = addr("GOWNER");
    let other = addr("GOTHER");
    let token = addr("CTOKEN");
    l.mint(&token, &owner, 100);
    let id = l.post_bounty(&owner, "T", "D", 100, &token, 0).unwrap();
    let (t, e, w) = (l.env.transfers.len(), l.env.events.len(), l.env.written.len());

    assert_eq!(l.claim_bounty(&owner, id), Err(SoroQuestError::NotOwner));
    assert_eq!(l.claim_bounty(&other, 9), Err(SoroQuestError::BountyNotFound));
    assert_eq!(l.approve_completion(&owner, id), Err(SoroQuestError::BountyNotClaimed));
    assert_eq!(l.approve_completion(&other, id), Err(SoroQuestError::NotOwner));
    assert_eq!(l.cancel_bounty(&other, id), Err(SoroQuestError::NotOwner));
    assert_eq!(l.cancel_bounty(&owner, 2), Err(SoroQuestError::BountyNotFound));

    assert_eq!((l.env.transfers.len(), l.env.events.len(), l.env.written.len()), (t, e, w));
    assert_eq!(l.get_bounty(id).unwrap().status, BountyStatus::Open);
}

#[test]
fn settled_bounties_are_final() {
    let mut l = Ledger::new();
    let owner = addr("GOWNER");
    let claimant = addr("GCLAIMANT");
    let token = addr("CTOKEN");
    l.mint(&token, &owner, 200);
    let done = l.post_bounty(&owner, "T", "D", 100, &token, 0).unwrap();
    let gone = l.post_bounty(&owner, "T", "D", 100, &token, 0).unwrap();
    l.claim_bounty(&claimant, done).unwrap();
    l.approve_completion(&owner, done).unwrap();
    l.cancel_bounty(&owner, gone).unwrap();

    assert_eq!(l.approve_completion(&owner, done), Err(SoroQuestError::BountyNotClaimed));
    assert_eq!(l.cancel_bounty(&owner, done), Err(SoroQuestError::BountyNotOpen));
    assert_eq!(l.claim_bounty(&claimant, done), Err(SoroQuestError::BountyNotOpen));
    assert_eq!(l.cancel_bounty(&owner, gone), Err(SoroQuestError::BountyNotOpen));
    assert_eq!(l.claim_bounty(&claimant, gone), Err(SoroQuestError::BountyNotOpen));
    assert_eq!(l.balance(&token, &claimant), 100);
    assert_eq!(l.balance(&token, &owner), 100);
    assert_eq!(l.balance(&token, &l.contract()), 0);
    // A completed bounty keeps its claimant; a cancelled one has none.
    assert_eq!(l.get_bounty(done).unwrap().claimant, Some(claimant.clone()));
    assert_eq!(l.get_bounty(gone).unwrap().claimant, None);
}

#[test]
fn escrow_holds_open_and_claimed_amounts() {
    let mut l = Ledger::new();
    let owner = addr("GOWNER");
    let hunter = addr("GHUNTER");
    let token = addr("CTOKEN");
    l.mint(&token, &owner, 1000);
    let a = l.post_bounty(&owner, "A", "D", 100, &token, 0).unwrap();
    let b = l.post_bounty(&owner, "B", "D", 200, &token, 0).unwrap();
    let c = l.post_bounty(&owner, "C", "D", 300, &token, 0).unwrap();
    let d = l.post_bounty(&owner, "D", "D", 400, &token, 0).unwrap();
    l.claim_bounty(&hunter, a).unwrap();
    l.claim_bounty(&hunter, b).unwrap();
    l.approve_completion(&owner, a).unwrap();
    l.cancel_bounty(&owner, c).unwrap();

    let held: i128 = [a, b, c, d]
        .iter()
        .map(|id| l.get_bounty(*id).unwrap())
        .filter(|x| x.status == BountyStatus::Open || x.status == BountyStatus::Claimed)
        .map(|x| x.amount)
        .sum();
    assert_eq!(held, 600);
    assert_eq!(l.balance(&token, &l.contract()), held);
    assert_eq!(l.balance(&token, &hunter), 100);
    assert_eq!(l.balance(&token, &owner), 300);
}

#[test]
fn list_bounties_filters_and_pages() {
    let mut l = Ledger::new();
    let owner = addr("GOWNER");
    let hunter = addr("GHUNTER");
    let token = addr("CTOKEN");
    l.mint(&token, &owner, 50);
    for _ in 0..5 {
        l.post_bounty(&owner, "T", "D", 10, &token, 0).unwrap();
    }
    l.claim_bounty(&hunter, 2).unwrap();
    l.claim_bounty(&hunter, 4).unwrap();
    l.cancel_bounty(&owner, 5).unwrap();

    let list = |status, offset, limit| ids(&SoroQuestEscrow::list_bounties(&l.env, status, offset, limit));
    assert_eq!(list(None, 0, 10), vec![1, 2, 3, 4, 5]);
    assert_eq!(list(Some(BountyStatus::Claimed), 0, 10), vec![2, 4]);
    assert_eq!(list(Some(BountyStatus::Open), 0, 10), vec![1, 3]);
    assert_eq!(list(Some(BountyStatus::Open), 1, 1), vec![3]);
    assert_eq!(list(Some(BountyStatus::Cancelled), 0, 10), vec![5]);
    assert_eq!(list(Some(BountyStatus::Completed), 0, 10), Vec::<u64>::new());
    assert_eq!(list(None, 2, 2), vec![3, 4]);
    assert_eq!(list(None, 4, 10), vec![5]);
    assert_eq!(list(None, 5, 10), Vec::<u64>::new());
    assert_eq!(list(None, 0, 0), Vec::<u64>::new());
}

#[test]
fn list_bounties_caps_pages_at_fifty() {
    let mut l = Ledger::new();
    let owner = addr("GOWNER");
    let token = addr("CTOKEN");
    l.mint(&token, &owner, 60);
    for _ in 0..60 {
        l.post_bounty(&owner, "T", "D", 1, &token, 0).unwrap();
    }
    let page = SoroQuestEscrow::list_bounties(&l.env, None, 5, u64::MAX);
    assert_eq!(page.len(), 50);
    assert_eq!(page[0].id, 6);
    assert_eq!(page[49].id, 55);
    assert_eq!(SoroQuestEscrow::list_bounties(&l.env, None, 55, 50).len(), 5);
}

#[test]
fn claimed_cancel_at_deadline_is_refused() {
    let mut l = Ledger::new();
    let owner = addr("GOWNER");
    let hunter = addr("GHUNTER");
    let token = addr("CTOKEN");
    l.mint(&token, &owner, 10);
    l.set_sequence(10);
    let id = l.post_bounty(&owner, "T", "D", 10, &token, 20).unwrap();
    l.claim_bounty(&hunter, id).unwrap();
    l.set_sequence(20);
    assert_eq!(l.cancel_bounty(&owner, id), Err(SoroQuestError::DeadlineNotPassed));
    l.set_sequence(21);
    assert_eq!(l.cancel_bounty(&owner, id), Ok(()));
    match l.env.events.last().unwrap() {
        BountyEvent::Cancelled { bounty_id, owner: o, amount } => {
            assert_eq!((*bounty_id, o, *amount), (id, &owner, 10));
        }
        other => panic!("unexpected event {:?}", other),
    }
    assert_eq!(l.env.written.last(), Some(&StorageKey::Bounty(id)));
}

#[test]
fn addresses_compare_by_strkey() {
    let a = addr("GSAME");
    let b = addr("GSAME");
    let c = addr("GOTHER");
    assert!(a.same_as(&b));
    assert!(!a.same_as(&c));
    assert_eq!(a, b);
    assert_ne!(a, c);
    assert_eq!(a.strkey(), "GSAME");
}

#[test]
fn post_at_full_counter_still_reports_argument_errors() {
    let mut storage = Storage::new();
    storage.set_count_entry(u64::MAX);
    let mut env = Env::new(storage, addr("CESCROW"), 10);
    let owner = addr("GOWNER");
    let token = addr("CTOKEN");
    let r = SoroQuestEscrow::post_bounty(&mut env, owner.clone(), vec![], vec![], 0, token.clone(), 0);
    assert_eq!(r, Err(SoroQuestError::InvalidAmount));
    let r = SoroQuestEscrow::post_bounty(&mut env, owner, vec![], vec![], 5, token, 10);
    assert_eq!(r, Err(SoroQuestError::InvalidDeadline));
    assert_eq!(SoroQuestEscrow::get_bounty_count(&env), u64::MAX);
    assert!(env.transfers.is_empty() && env.events.is_empty() && env.written.is_empty());
}

#[test]
fn titles_keep_arbitrary_bytes() {
    let mut l = Ledger::new();
    let owner = addr("GOWNER");
    let token = addr("CTOKEN");
    l.mint(&token, &owner, 5);
    let title = vec![0xff, 0x00, 0xfe];
    let id = SoroQuestEscrow::post_bounty(
        &mut l.env,
        owner.clone(),
        title.clone(),
        vec![0xc3],
        5,
        token.clone(),
        0,
    )
    .unwrap();
    let b = l.get_bounty(id).unwrap();
    assert_eq!(b.title, title);
    assert_eq!(b.description, vec![0xc3]);
}
