//! The error type shared by every engine.

use vstd::prelude::*;

verus! {

/// Why an operation was refused. Every refusal leaves the engine unchanged.
#[allow(inconsistent_fields)]
#[derive(Debug)]
pub enum ContractError {
    Unauthorized { reason: &'static str },
    CredentialNotFound { id: String },
    CredentialAlreadyExists { id: String },
    CredentialExpired,
    CredentialRevoked,
    InvalidProof { reason: &'static str },
    IssuerNotAuthorized { issuer: String },
    ProposalNotFound { id: u64 },
    ProposalNotActive,
    VotingPeriodEnded,
    VotingPeriodNotEnded,
    AlreadyVoted { id: u64 },
    NoVerifiedCredential,
    InsufficientFunds { needed: u128, available: u128 },
    GrantNotFound { id: u64 },
    MilestoneNotFound { grant_id: u64, milestone_id: u32 },
    InvalidAllocation { reason: &'static str },
    QuorumNotReached,
    TimelockNotExpired { execute_at: u64 },
    Slashing { reason: &'static str },
    Overflow,
    /// The operation is not valid in the entity's current lifecycle state.
    InvalidState,
    RecoveryNotFound { id: String },
    /// An unstake asked for more than the account holds.
    InsufficientStake { needed: u128, available: u128 },
    /// A claim found no reward to pay out.
    NothingToClaim,
}

} // verus!
