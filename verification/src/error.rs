//! The errors that the escrow's calls return.
use vstd::prelude::*;

verus! {

/// Why a call was refused.  Each error has a stable numeric code
/// ([`SoroQuestError::code`]), by which the host reports it to callers.
#[derive(Copy, Clone, Debug, PartialEq, Eq, PartialOrd, Ord, Structural)]
pub enum SoroQuestError {
    /// No bounty is stored under the requested id.
    BountyNotFound,
    /// The call needs the bounty to be `Open`.
    BountyNotOpen,
    /// The call needs the bounty to be `Claimed`.
    BountyNotClaimed,
    /// The bounty has already been claimed (covered by `BountyNotOpen` in
    /// every call; kept for its code).
    AlreadyClaimed,
    /// The caller is not the bounty's owner (or, to claim, is its owner).
    NotOwner,
    /// A claimed bounty with a claim deadline can be cancelled only after it.
    DeadlineNotPassed,
    /// A bounty's amount must be greater than zero.
    InvalidAmount,
    /// A claim deadline must be 0 (none) or a ledger after the current one.
    InvalidDeadline,
    /// A token transfer failed (the token contract aborts the call instead,
    /// so no call of this library returns it).
    TransferFailed,
}

/// The numeric code of each error, as the host reports it.
pub open spec fn error_code(e: SoroQuestError) -> u32 {
    match e {
        SoroQuestError::BountyNotFound => 1,
        SoroQuestError::BountyNotOpen => 2,
        SoroQuestError::BountyNotClaimed => 3,
        SoroQuestError::AlreadyClaimed => 4,
        SoroQuestError::NotOwner => 5,
        SoroQuestError::DeadlineNotPassed => 6,
        SoroQuestError::InvalidAmount => 7,
        SoroQuestError::InvalidDeadline => 8,
        SoroQuestError::TransferFailed => 9,
    }
}

impl SoroQuestError {
    /// The numeric code of this error (1 to 9, in the order of the variants).
    pub fn code(&self) -> (c: u32)
        ensures
            c == error_code(*self),
    {
        match self {
            SoroQuestError::BountyNotFound => 1,
            SoroQuestError::BountyNotOpen => 2,
            SoroQuestError::BountyNotClaimed => 3,
            SoroQuestError::AlreadyClaimed => 4,
            SoroQuestError::NotOwner => 5,
            SoroQuestError::DeadlineNotPassed => 6,
            SoroQuestError::InvalidAmount => 7,
            SoroQuestError::InvalidDeadline => 8,
            SoroQuestError::TransferFailed => 9,
        }
    }
}

} // verus!
