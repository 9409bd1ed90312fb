# soroquest_escrow

Bounty escrow for the Stellar network, verified with Verus.

An owner posts a bounty and deposits its reward; a hunter claims it; the owner
either approves the work (the reward goes to the claimant) or cancels the
bounty (the reward goes back; a claimed bounty only after its claim deadline,
or at any time where it has none).

- `src/` is the verified library: the bounty record and the contract's
  storage (`storage.rs`), the call environment with its recorded token
  transfers (`env.rs`), events (`events.rs`), errors (`error.rs`), addresses
  (`address.rs`), the contract's calls with exact contracts (`escrow.rs`), and
  the properties proved across calls and over any run of calls (`laws.rs`):
  well-formed storage, sequential ids, the bounty lifecycle, read-after-write,
  and the escrow balance: over a run whose recorded transfers are kept
  together, in each token what the transfers moved into the contract equals
  the amounts of the open and claimed bounties, provided no owner or hunter
  is the contract's own address.  (The host hands each call a fresh
  environment, so the balance is about the whole history of transfers, not
  about one call's.)
- `app/` is the Soroban contract around it: authorization, loading and
  persisting storage entries (with TTL extension), token transfers through the
  token interface, and event publication.  `list_bounties` loads every
  bounty up to the counter before the library pages through them.
- `tests/` runs the contract's scenarios against the library, with a simple
  token ledger that carries out the recorded transfers.
