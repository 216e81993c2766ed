//! Vocabulary of the proposal engine: lifecycle states, voting methods,
//! ballot choices, and the weight of a single ballot.

use vstd::prelude::*;
use crate::arith::{is_isqrt, isqrt, isqrt_spec, lemma_isqrt_unique};

verus! {

/// Lifecycle of a proposal.
#[derive(Debug, Clone, Copy, PartialEq, Eq, Structural)]
pub enum ProposalStatus {
    /// Open for voting.
    Active,
    /// Passed; waiting for the timelock to elapse.
    Timelocked,
    /// Passed with no timelock; executable now.
    Passed,
    /// Tallied without reaching the threshold.
    Rejected,
    /// Executed after passing.
    Executed,
    /// Cancelled by the proposer or the admin.
    Cancelled,
    /// Closed without a single ballot.
    Expired,
}

impl ProposalStatus {
    pub open spec fn name_spec(&self) -> Seq<char> {
        match self {
            ProposalStatus::Active => "Active"@,
            ProposalStatus::Timelocked => "Timelocked"@,
            ProposalStatus::Passed => "Passed"@,
            ProposalStatus::Rejected => "Rejected"@,
            ProposalStatus::Executed => "Executed"@,
            ProposalStatus::Cancelled => "Cancelled"@,
            ProposalStatus::Expired => "Expired"@,
        }
    }

    /// The status's name.
    pub fn name(&self) -> (r: &'static str)
        ensures
            r@ == self.name_spec(),
    {
        match self {
            ProposalStatus::Active => "Active",
            ProposalStatus::Timelocked => "Timelocked",
            ProposalStatus::Passed => "Passed",
            ProposalStatus::Rejected => "Rejected",
            ProposalStatus::Executed => "Executed",
            ProposalStatus::Cancelled => "Cancelled",
            ProposalStatus::Expired => "Expired",
        }
    }
}

/// How ballots are weighted.
#[derive(Debug, Clone, Copy, PartialEq, Eq, Structural)]
pub enum VotingMethod {
    /// Every credentialed voter has weight one.
    OnePersonOneVote,
    /// A voter sending `n` tokens has weight `floor(sqrt(n))`, at least one.
    Quadratic,
}

/// A ballot's choice.
#[derive(Debug, Clone, Copy, PartialEq, Eq, Structural)]
pub enum VoteOption {
    Yes,
    No,
    Abstain,
}

/// Tokens that count for a quadratic ballot: omitted tokens count as one,
/// and zero tokens count as one as well, so every ballot weighs at least one.
pub open spec fn counted_tokens(tokens: Option<u128>) -> int {
    match tokens {
        Some(t) => if t == 0 { 1 } else { t as int },
        None => 1,
    }
}

/// The weight of a ballot cast under `method` with `tokens`.
pub open spec fn vote_weight_spec(method: VotingMethod, tokens: Option<u128>) -> int {
    match method {
        VotingMethod::OnePersonOneVote => 1,
        VotingMethod::Quadratic => isqrt_spec(counted_tokens(tokens)),
    }
}

/// Weight of a ballot: one per person, or the integer square root of the
/// tokens sent, never below one.
pub fn vote_weight(method: VotingMethod, tokens: Option<u128>) -> (w: u128)
    ensures
        w as int == vote_weight_spec(method, tokens),
        method == VotingMethod::Quadratic ==> is_isqrt(counted_tokens(tokens), w as int),
        w >= 1,
{
    match method {
        VotingMethod::OnePersonOneVote => 1,
        VotingMethod::Quadratic => {
            let t: u128 = match tokens {
                Some(t) => if t == 0 { 1 } else { t },
                None => 1,
            };
            let r = isqrt(t);
            assert(r >= 1) by (nonlinear_arith)
                requires is_isqrt(t as int, r as int), t >= 1;
            r
        },
    }
}

/// A quadratic ballot that sends no tokens still weighs exactly one.
pub proof fn lemma_quadratic_zero_tokens_weigh_one()
    ensures
        vote_weight_spec(VotingMethod::Quadratic, Some(0u128)) == 1,
{
    lemma_isqrt_unique(1, 1);
}

} // verus!
