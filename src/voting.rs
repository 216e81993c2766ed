//! The proposal engine: creation, weighted voting, quorum and threshold
//! tallying, and timelocked execution.

use vstd::prelude::*;
use crate::arith::{mul_div_floor, BPS_SCALE};
use crate::errors::ContractError;
use crate::paging::{page_ids, page_len, page_limit, page_size};
use crate::governance::{
    lemma_quadratic_zero_tokens_weigh_one, vote_weight, vote_weight_spec, ProposalStatus, VoteOption, VotingMethod,
};

verus! {

/// Settings of the proposal engine. Quorum and threshold are copied into each
/// proposal when it is created, so later changes do not reach it.
#[derive(Debug)]
pub struct VotingConfig {
    pub admin: String,
    pub credential_registry: String,
    pub treasury_contract: String,
    pub voting_period: u64,
    pub quorum_bps: u64,
    pub threshold_bps: u64,
    pub timelock_period: u64,
}

#[derive(Debug)]
pub struct StoredProposal {
    pub id: u64,
    pub proposer: String,
    pub title: String,
    pub description: String,
    pub status: ProposalStatus,
    pub voting_method: VotingMethod,
    pub start_height: u64,
    pub end_height: u64,
    pub votes_for: u128,
    pub votes_against: u128,
    pub votes_abstain: u128,
    pub quorum_bps: u64,
    pub threshold_bps: u64,
    pub total_voters: u64,
    /// Height from which a passed proposal may be executed; zero until tallied.
    pub execute_at: u64,
}

/// The settings and the number of proposals, as answered to a query.
#[derive(Debug)]
pub struct VotingConfigResponse {
    pub admin: String,
    pub credential_registry: String,
    pub treasury_contract: String,
    pub voting_period: u64,
    pub quorum_bps: u64,
    pub threshold_bps: u64,
    pub timelock_period: u64,
    pub total_proposals: u64,
}

/// One ballot, keyed by `(proposal_id, voter)`.
#[derive(Debug)]
pub struct StoredVote {
    pub voter: String,
    pub proposal_id: u64,
    pub vote: VoteOption,
    pub weight: u128,
}

/// The proposal store. Proposal `id` sits at index `id - 1`.
#[derive(Debug)]
pub struct VotingEngine {
    pub config: VotingConfig,
    pub proposals: Vec<StoredProposal>,
    pub votes: Vec<StoredVote>,
}

/// What the credential registry answered when asked whether a principal
/// holds a valid citizenship credential.
#[derive(Debug, Clone, Copy, PartialEq, Eq, Structural)]
pub enum CredentialReply {
    /// The query failed: the registry could not be reached or answered
    /// something unreadable.
    Unavailable,
    /// The registry answered; its `has_credential` field, when it is a
    /// boolean.
    Answered(Option<bool>),
}

pub open spec fn eligible_spec(reply: CredentialReply) -> bool {
    match reply {
        CredentialReply::Unavailable => true,
        CredentialReply::Answered(v) => match v {
            Some(b) => b,
            None => false,
        },
    }
}

/// Whether a principal may propose or vote, from the registry's reply. The
/// policy fails open: a failed query counts as eligible, so voting stays
/// available while the registry is unreachable; an answer without a readable
/// `has_credential` counts as not eligible.
pub fn eligible_from_reply(reply: CredentialReply) -> (r: bool)
    ensures
        r == eligible_spec(reply),
{
    match reply {
        CredentialReply::Unavailable => true,
        CredentialReply::Answered(v) => match v {
            Some(b) => b,
            None => false,
        },
    }
}

/// Sum of the three tallies.
pub open spec fn total_votes(p: StoredProposal) -> int {
    p.votes_for + p.votes_against + p.votes_abstain
}

/// The share of Yes among Yes and No ballots, in basis points rounded down,
/// reaches the threshold. With no Yes or No ballot it is not met.
pub open spec fn threshold_met(p: StoredProposal) -> bool {
    let cast = p.votes_for + p.votes_against;
    cast > 0 && (p.votes_for as int) * (BPS_SCALE as int) / cast >= p.threshold_bps as int
}

/// The proposal after a tally at height `now`, once voting has closed.
/// Quorum counts as met once any ballot was cast: the `quorum_bps` captured
/// at creation is kept but not compared against an eligible population.
pub open spec fn tallied(p: StoredProposal, timelock: u64, now: u64) -> Result<StoredProposal, ContractError> {
    if total_votes(p) == 0 {
        Ok(StoredProposal { status: ProposalStatus::Expired, ..p })
    } else if !threshold_met(p) {
        Ok(StoredProposal { status: ProposalStatus::Rejected, ..p })
    } else if timelock == 0 {
        Ok(StoredProposal { status: ProposalStatus::Passed, execute_at: now, ..p })
    } else if now + timelock > u64::MAX {
        Err(ContractError::Overflow)
    } else {
        Ok(StoredProposal { status: ProposalStatus::Timelocked, execute_at: (now + timelock) as u64, ..p })
    }
}

/// The proposal with one more ballot of weight `w` for `choice`; `None` when a
/// counter would leave its range.
pub open spec fn with_ballot(p: StoredProposal, choice: VoteOption, w: int) -> Option<StoredProposal> {
    if total_votes(p) + w > u128::MAX || p.total_voters + 1 > u64::MAX {
        None
    } else {
        let q = StoredProposal { total_voters: (p.total_voters + 1) as u64, ..p };
        Some(match choice {
            VoteOption::Yes => StoredProposal { votes_for: (p.votes_for + w) as u128, ..q },
            VoteOption::No => StoredProposal { votes_against: (p.votes_against + w) as u128, ..q },
            VoteOption::Abstain => StoredProposal { votes_abstain: (p.votes_abstain + w) as u128, ..q },
        })
    }
}

fn copy_proposal(p: &StoredProposal) -> (r: StoredProposal)
    ensures
        r == *p,
{
    StoredProposal {
        id: p.id,
        proposer: p.proposer.clone(),
        title: p.title.clone(),
        description: p.description.clone(),
        status: p.status,
        voting_method: p.voting_method,
        start_height: p.start_height,
        end_height: p.end_height,
        votes_for: p.votes_for,
        votes_against: p.votes_against,
        votes_abstain: p.votes_abstain,
        quorum_bps: p.quorum_bps,
        threshold_bps: p.threshold_bps,
        total_voters: p.total_voters,
        execute_at: p.execute_at,
    }
}

impl VotingEngine {
    /// Ids are dense from one, tallies stay in range, and each voter has at
    /// most one ballot per proposal.
    pub open spec fn wf(&self) -> bool {
        &&& self.proposals@.len() <= u64::MAX
        &&& forall|i: int| 0 <= i < self.proposals@.len() ==> #[trigger] self.proposals@[i].id == i + 1
        &&& forall|i: int| 0 <= i < self.proposals@.len() ==> total_votes(#[trigger] self.proposals@[i]) <= u128::MAX
        &&& forall|i: int, j: int|
            0 <= i < j < self.votes@.len() ==> !(#[trigger] self.votes@[i].proposal_id == #[trigger] self.votes@[j].proposal_id
                && self.votes@[i].voter@ == self.votes@[j].voter@)
    }

    pub open spec fn has_proposal(&self, id: u64) -> bool {
        1 <= id <= self.proposals@.len()
    }

    pub open spec fn proposal_spec(&self, id: u64) -> StoredProposal {
        self.proposals@[id - 1]
    }

    /// A ballot of `voter` on proposal `id` is on record.
    pub open spec fn has_voted(&self, id: u64, voter: Seq<char>) -> bool {
        exists|i: int| 0 <= i < self.votes@.len() && #[trigger] self.votes@[i].proposal_id == id && self.votes@[i].voter@ == voter
    }

    /// A new engine with no proposals.
    pub fn new(
        admin: String,
        credential_registry: String,
        treasury_contract: String,
        voting_period: u64,
        quorum_bps: u64,
        threshold_bps: u64,
        timelock_period: u64,
    ) -> (e: Self)
        ensures
            e.wf(),
            e.config == (VotingConfig {
                admin,
                credential_registry,
                treasury_contract,
                voting_period,
                quorum_bps,
                threshold_bps,
                timelock_period,
            }),
            e.proposals@.len() == 0,
            e.votes@.len() == 0,
    {
        VotingEngine {
            config: VotingConfig {
                admin,
                credential_registry,
                treasury_contract,
                voting_period,
                quorum_bps,
                threshold_bps,
                timelock_period,
            },
            proposals: Vec::new(),
            votes: Vec::new(),
        }
    }

    /// Number of proposals created so far; also the id of the newest.
    pub fn proposal_count(&self) -> (n: u64)
        requires
            self.wf(),
        ensures
            n == self.proposals@.len(),
    {
        self.proposals.len() as u64
    }

    /// The settings and the number of proposals.
    pub fn query_config(&self) -> (r: VotingConfigResponse)
        ensures
            r.admin == self.config.admin,
            r.credential_registry == self.config.credential_registry,
            r.treasury_contract == self.config.treasury_contract,
            r.voting_period == self.config.voting_period,
            r.quorum_bps == self.config.quorum_bps,
            r.threshold_bps == self.config.threshold_bps,
            r.timelock_period == self.config.timelock_period,
            r.total_proposals == self.proposals@.len(),
    {
        VotingConfigResponse {
            admin: self.config.admin.clone(),
            credential_registry: self.config.credential_registry.clone(),
            treasury_contract: self.config.treasury_contract.clone(),
            voting_period: self.config.voting_period,
            quorum_bps: self.config.quorum_bps,
            threshold_bps: self.config.threshold_bps,
            timelock_period: self.config.timelock_period,
            total_proposals: self.proposals.len() as u64,
        }
    }

    /// Ids of a page of proposals, ascending, starting after `start_after`.
    pub fn list_proposals(&self, start_after: Option<u64>, limit: Option<u32>) -> (r: Vec<u64>)
        requires
            self.wf(),
        ensures
            r@.len() == page_len(self.proposals@.len() as int, start_after, limit),
            forall|k: int| 0 <= k < r@.len() ==> #[trigger] r@[k] == (match start_after {
                Some(v) => v as int,
                None => 0,
            }) + 1 + k,
    {
        page_ids(self.proposals.len() as u64, start_after, limit)
    }

    /// Position of `voter`'s ballot on proposal `proposal_id`, if any.
    pub fn vote_index(&self, proposal_id: u64, voter: &String) -> (r: Option<usize>)
        ensures
            match r {
                Some(i) => i < self.votes@.len() && self.votes@[i as int].proposal_id == proposal_id
                    && self.votes@[i as int].voter@ == voter@,
                None => !self.has_voted(proposal_id, voter@),
            },
    {
        let mut i: usize = 0;
        while i < self.votes.len()
            invariant
                i <= self.votes@.len(),
                forall|k: int| 0 <= k < i ==> !(#[trigger] self.votes@[k].proposal_id == proposal_id
                    && self.votes@[k].voter@ == voter@),
            decreases self.votes@.len() - i,
        {
            if self.votes[i].proposal_id == proposal_id && self.votes[i].voter == *voter {
                return Some(i);
            }
            i += 1;
        }
        None
    }

    /// Positions of the ballots on proposal `proposal_id`, in the order cast,
    /// up to the page size.
    pub fn list_votes(&self, proposal_id: u64, limit: Option<u32>) -> (r: Vec<usize>)
        ensures
            r@.len() <= page_size(limit),
            forall|k: int| 0 <= k < r@.len() ==> (#[trigger] r@[k]) < self.votes@.len()
                && self.votes@[r@[k] as int].proposal_id == proposal_id,
            forall|a: int, b: int| 0 <= a < b < r@.len() ==> #[trigger] r@[a] < #[trigger] r@[b],
            r@.len() < page_size(limit) ==> forall|i: int|
                0 <= i < self.votes@.len() && (#[trigger] self.votes@[i]).proposal_id == proposal_id
                ==> r@.contains(i as usize),
    {
        let lim = page_limit(limit);
        let mut out: Vec<usize> = Vec::new();
        let mut i: usize = 0;
        while i < self.votes.len() && out.len() < lim
            invariant
                i <= self.votes@.len(),
                lim == page_size(limit),
                out@.len() <= lim,
                forall|k: int| 0 <= k < out@.len() ==> (#[trigger] out@[k]) < i
                    && self.votes@[out@[k] as int].proposal_id == proposal_id,
                forall|a: int, b: int| 0 <= a < b < out@.len() ==> #[trigger] out@[a] < #[trigger] out@[b],
                forall|t: int| 0 <= t < i && (#[trigger] self.votes@[t]).proposal_id == proposal_id
                    ==> out@.contains(t as usize),
            decreases self.votes@.len() - i,
        {
            if self.votes[i].proposal_id == proposal_id {
                let ghost before = out@;
                out.push(i);
                proof {
                    assert forall|t: int| 0 <= t < i + 1 && (#[trigger] self.votes@[t]).proposal_id == proposal_id
                        implies out@.contains(t as usize) by {
                        if t < i {
                            let w = choose|w: int| 0 <= w < before.len() && before[w] == t as usize;
                            assert(out@[w] == before[w]);
                        } else {
                            assert(out@[before.len() as int] == t as usize);
                        }
                    }
                }
            }
            i += 1;
        }
        out
    }

    /// The outcome of a tally of proposal `id` at height `now`.
    pub open spec fn tally_spec(&self, id: u64, now: u64) -> Result<StoredProposal, ContractError> {
        if !self.has_proposal(id) {
            Err(ContractError::ProposalNotFound { id })
        } else if self.proposal_spec(id).status != ProposalStatus::Active {
            Err(ContractError::ProposalNotActive)
        } else if now <= self.proposal_spec(id).end_height {
            Err(ContractError::VotingPeriodNotEnded)
        } else {
            tallied(self.proposal_spec(id), self.config.timelock_period, now)
        }
    }

    /// Closes voting on proposal `id` and settles its status from the
    /// accumulated tallies: Expired with no ballot, else Passed or Timelocked
    /// when the threshold is met, else Rejected.
    pub fn tally(&mut self, proposal_id: u64, now: u64) -> (r: Result<ProposalStatus, ContractError>)
        requires
            old(self).wf(),
        ensures
            final(self).wf(),
            final(self).config == old(self).config,
            final(self).votes@ == old(self).votes@,
            match old(self).tally_spec(proposal_id, now) {
                Ok(p) => r == Ok::<ProposalStatus, ContractError>(p.status)
                    && final(self).proposals@ == old(self).proposals@.update(proposal_id - 1, p),
                Err(e) => r == Err::<ProposalStatus, ContractError>(e)
                    && final(self).proposals@ == old(self).proposals@,
            },
    {
        let n = self.proposals.len();
        if proposal_id == 0 || proposal_id as usize > n || proposal_id > n as u64 {
            return Err(ContractError::ProposalNotFound { id: proposal_id });
        }
        let i = (proposal_id - 1) as usize;
        let mut p = copy_proposal(&self.proposals[i]);
        if p.status != ProposalStatus::Active {
            return Err(ContractError::ProposalNotActive);
        }
        if now <= p.end_height {
            return Err(ContractError::VotingPeriodNotEnded);
        }
        if p.votes_for == 0 && p.votes_against == 0 && p.votes_abstain == 0 {
            p.status = ProposalStatus::Expired;
        } else {
            // votes_for + votes_against stays in range by the engine's invariant.
            let cast = p.votes_for + p.votes_against;
            let met = if cast == 0 {
                false
            } else {
                match mul_div_floor(p.votes_for, BPS_SCALE, cast) {
                    Some(pct) => pct >= p.threshold_bps as u128,
                    None => true,
                }
            };
            if !met {
                p.status = ProposalStatus::Rejected;
            } else if self.config.timelock_period == 0 {
                p.status = ProposalStatus::Passed;
                p.execute_at = now;
            } else {
                match now.checked_add(self.config.timelock_period) {
                    None => return Err(ContractError::Overflow),
                    Some(at) => {
                        p.status = ProposalStatus::Timelocked;
                        p.execute_at = at;
                    },
                }
            }
        }
        let status = p.status;
        self.proposals.set(i, p);
        Ok(status)
    }

    /// The proposal that `create_proposal` would add.
    pub open spec fn create_spec(
        &self,
        proposer: String,
        eligible: bool,
        title: String,
        description: String,
        method: VotingMethod,
        period: Option<u64>,
        now: u64,
    ) -> Result<StoredProposal, ContractError> {
        let len = self.proposals@.len();
        let per = match period {
            Some(v) => v,
            None => self.config.voting_period,
        };
        if !eligible {
            Err(ContractError::NoVerifiedCredential)
        } else if len >= u64::MAX || now + per > u64::MAX {
            Err(ContractError::Overflow)
        } else {
            Ok(StoredProposal {
                id: (len + 1) as u64,
                proposer,
                title,
                description,
                status: ProposalStatus::Active,
                voting_method: method,
                start_height: now,
                end_height: (now + per) as u64,
                votes_for: 0,
                votes_against: 0,
                votes_abstain: 0,
                quorum_bps: self.config.quorum_bps,
                threshold_bps: self.config.threshold_bps,
                total_voters: 0,
                execute_at: 0,
            })
        }
    }

    /// Opens a proposal under the next id. `eligible` is the credential
    /// oracle's answer for `proposer`; the period defaults to the configured
    /// one, and quorum and threshold are copied from the current settings.
    pub fn create_proposal(
        &mut self,
        proposer: String,
        eligible: bool,
        title: String,
        description: String,
        voting_method: VotingMethod,
        voting_period: Option<u64>,
        now: u64,
    ) -> (r: Result<u64, ContractError>)
        requires
            old(self).wf(),
        ensures
            final(self).wf(),
            final(self).config == old(self).config,
            final(self).votes@ == old(self).votes@,
            match old(self).create_spec(proposer, eligible, title, description, voting_method, voting_period, now) {
                Ok(p) => r == Ok::<u64, ContractError>(p.id) && final(self).proposals@ == old(self).proposals@.push(p),
                Err(e) => r == Err::<u64, ContractError>(e) && final(self).proposals@ == old(self).proposals@,
            },
    {
        if !eligible {
            return Err(ContractError::NoVerifiedCredential);
        }
        let period = match voting_period {
            Some(v) => v,
            None => self.config.voting_period,
        };
        let count = self.proposals.len() as u64;
        if count == u64::MAX {
            return Err(ContractError::Overflow);
        }
        let end_height = match now.checked_add(period) {
            Some(h) => h,
            None => return Err(ContractError::Overflow),
        };
        let id = count + 1;
        let p = StoredProposal {
            id,
            proposer,
            title,
            description,
            status: ProposalStatus::Active,
            voting_method,
            start_height: now,
            end_height,
            votes_for: 0,
            votes_against: 0,
            votes_abstain: 0,
            quorum_bps: self.config.quorum_bps,
            threshold_bps: self.config.threshold_bps,
            total_voters: 0,
            execute_at: 0,
        };
        self.proposals.push(p);
        Ok(id)
    }

    /// The proposal after `voter`'s ballot, or why the ballot is refused.
    pub open spec fn cast_vote_spec(
        &self,
        voter: Seq<char>,
        eligible: bool,
        id: u64,
        choice: VoteOption,
        tokens: Option<u128>,
        now: u64,
    ) -> Result<StoredProposal, ContractError> {
        if !eligible {
            Err(ContractError::NoVerifiedCredential)
        } else if !self.has_proposal(id) {
            Err(ContractError::ProposalNotFound { id })
        } else if self.proposal_spec(id).status != ProposalStatus::Active {
            Err(ContractError::ProposalNotActive)
        } else if now > self.proposal_spec(id).end_height {
            Err(ContractError::VotingPeriodEnded)
        } else if self.has_voted(id, voter) {
            Err(ContractError::AlreadyVoted { id })
        } else {
            match with_ballot(
                self.proposal_spec(id),
                choice,
                vote_weight_spec(self.proposal_spec(id).voting_method, tokens),
            ) {
                Some(p) => Ok(p),
                None => Err(ContractError::Overflow),
            }
        }
    }

    /// Records `voter`'s ballot on proposal `proposal_id` and returns its
    /// weight. `eligible` is the credential oracle's answer for `voter`.
    pub fn cast_vote(
        &mut self,
        voter: String,
        eligible: bool,
        proposal_id: u64,
        vote: VoteOption,
        tokens: Option<u128>,
        now: u64,
    ) -> (r: Result<u128, ContractError>)
        requires
            old(self).wf(),
        ensures
            final(self).wf(),
            final(self).config == old(self).config,
            match old(self).cast_vote_spec(voter@, eligible, proposal_id, vote, tokens, now) {
                Ok(p) => {
                    let w = vote_weight_spec(old(self).proposal_spec(proposal_id).voting_method, tokens);
                    &&& r == Ok::<u128, ContractError>(w as u128)
                    &&& final(self).proposals@ == old(self).proposals@.update(proposal_id - 1, p)
                    &&& final(self).votes@ == old(self).votes@.push(
                        StoredVote { voter, proposal_id, vote, weight: w as u128 },
                    )
                },
                Err(e) => r == Err::<u128, ContractError>(e)
                    && final(self).proposals@ == old(self).proposals@
                    && final(self).votes@ == old(self).votes@,
            },
    {
        if !eligible {
            return Err(ContractError::NoVerifiedCredential);
        }
        let n = self.proposals.len();
        if proposal_id == 0 || proposal_id > n as u64 {
            return Err(ContractError::ProposalNotFound { id: proposal_id });
        }
        let i = (proposal_id - 1) as usize;
        let mut p = copy_proposal(&self.proposals[i]);
        if p.status != ProposalStatus::Active {
            return Err(ContractError::ProposalNotActive);
        }
        if now > p.end_height {
            return Err(ContractError::VotingPeriodEnded);
        }
        if self.vote_index(proposal_id, &voter).is_some() {
            return Err(ContractError::AlreadyVoted { id: proposal_id });
        }
        let weight = vote_weight(p.voting_method, tokens);
        // The three tallies together stay in range, so each sum below does too.
        let room = u128::MAX - p.votes_for - p.votes_against - p.votes_abstain;
        if weight > room || p.total_voters == u64::MAX {
            return Err(ContractError::Overflow);
        }
        match vote {
            VoteOption::Yes => p.votes_for = p.votes_for + weight,
            VoteOption::No => p.votes_against = p.votes_against + weight,
            VoteOption::Abstain => p.votes_abstain = p.votes_abstain + weight,
        }
        p.total_voters = p.total_voters + 1;
        self.proposals.set(i, p);
        let ghost old_votes = self.votes@;
        self.votes.push(StoredVote { voter, proposal_id, vote, weight });
        assert forall|a: int, b: int|
            0 <= a < b < self.votes@.len() implies !(#[trigger] self.votes@[a].proposal_id == #[trigger] self.votes@[b].proposal_id
                && self.votes@[a].voter@ == self.votes@[b].voter@) by {
            if b == old_votes.len() {
                assert(old_votes[a] == self.votes@[a]);
            }
        }
        Ok(weight)
    }

    /// The proposal after an execution at height `now`, or why it is refused.
    pub open spec fn execute_spec(&self, id: u64, now: u64) -> Result<StoredProposal, ContractError> {
        if !self.has_proposal(id) {
            Err(ContractError::ProposalNotFound { id })
        } else {
            let p = self.proposal_spec(id);
            match p.status {
                ProposalStatus::Passed => Ok(StoredProposal { status: ProposalStatus::Executed, ..p }),
                ProposalStatus::Timelocked => if now < p.execute_at {
                    Err(ContractError::TimelockNotExpired { execute_at: p.execute_at })
                } else {
                    Ok(StoredProposal { status: ProposalStatus::Executed, ..p })
                },
                _ => Err(ContractError::InvalidState),
            }
        }
    }

    /// Marks a passed proposal executed: at once when Passed, or once its
    /// timelock has elapsed when Timelocked.
    pub fn execute_proposal(&mut self, proposal_id: u64, now: u64) -> (r: Result<(), ContractError>)
        requires
            old(self).wf(),
        ensures
            final(self).wf(),
            final(self).config == old(self).config,
            final(self).votes@ == old(self).votes@,
            match old(self).execute_spec(proposal_id, now) {
                Ok(p) => r is Ok && final(self).proposals@ == old(self).proposals@.update(proposal_id - 1, p),
                Err(e) => r == Err::<(), ContractError>(e) && final(self).proposals@ == old(self).proposals@,
            },
    {
        let n = self.proposals.len();
        if proposal_id == 0 || proposal_id > n as u64 {
            return Err(ContractError::ProposalNotFound { id: proposal_id });
        }
        let i = (proposal_id - 1) as usize;
        let mut p = copy_proposal(&self.proposals[i]);
        match p.status {
            ProposalStatus::Passed => {},
            ProposalStatus::Timelocked => {
                if now < p.execute_at {
                    return Err(ContractError::TimelockNotExpired { execute_at: p.execute_at });
                }
            },
            _ => return Err(ContractError::InvalidState),
        }
        p.status = ProposalStatus::Executed;
        self.proposals.set(i, p);
        Ok(())
    }

    /// The proposal after a cancel by `caller`, or why it is refused.
    pub open spec fn cancel_spec(&self, id: u64, caller: Seq<char>) -> Result<StoredProposal, ContractError> {
        if !self.has_proposal(id) {
            Err(ContractError::ProposalNotFound { id })
        } else {
            let p = self.proposal_spec(id);
            if caller != p.proposer@ && caller != self.config.admin@ {
                Err(ContractError::Unauthorized { reason: "Only proposer or admin can cancel" })
            } else if p.status != ProposalStatus::Active && p.status != ProposalStatus::Timelocked {
                Err(ContractError::InvalidState)
            } else {
                Ok(StoredProposal { status: ProposalStatus::Cancelled, ..p })
            }
        }
    }

    /// Cancels an Active or Timelocked proposal; only its proposer or the
    /// admin may.
    pub fn cancel(&mut self, proposal_id: u64, caller: &String) -> (r: Result<(), ContractError>)
        requires
            old(self).wf(),
        ensures
            final(self).wf(),
            final(self).config == old(self).config,
            final(self).votes@ == old(self).votes@,
            match old(self).cancel_spec(proposal_id, caller@) {
                Ok(p) => r is Ok && final(self).proposals@ == old(self).proposals@.update(proposal_id - 1, p),
                Err(e) => r == Err::<(), ContractError>(e) && final(self).proposals@ == old(self).proposals@,
            },
    {
        let n = self.proposals.len();
        if proposal_id == 0 || proposal_id > n as u64 {
            return Err(ContractError::ProposalNotFound { id: proposal_id });
        }
        let i = (proposal_id - 1) as usize;
        let mut p = copy_proposal(&self.proposals[i]);
        if *caller != p.proposer && *caller != self.config.admin {
            return Err(ContractError::Unauthorized { reason: "Only proposer or admin can cancel" });
        }
        if p.status != ProposalStatus::Active && p.status != ProposalStatus::Timelocked {
            return Err(ContractError::InvalidState);
        }
        p.status = ProposalStatus::Cancelled;
        self.proposals.set(i, p);
        Ok(())
    }

    /// Replaces the settings given; admin only. Open proposals keep the
    /// quorum and threshold they were created with.
    pub fn update_config(
        &mut self,
        caller: &String,
        voting_period: Option<u64>,
        quorum_bps: Option<u64>,
        threshold_bps: Option<u64>,
        timelock_period: Option<u64>,
    ) -> (r: Result<(), ContractError>)
        requires
            old(self).wf(),
        ensures
            final(self).wf(),
            final(self).proposals@ == old(self).proposals@,
            final(self).votes@ == old(self).votes@,
            caller@ != old(self).config.admin@ ==> r == Err::<(), ContractError>(
                ContractError::Unauthorized { reason: "Only admin can update config" },
            ) && final(self).config == old(self).config,
            caller@ == old(self).config.admin@ ==> r is Ok && final(self).config == (VotingConfig {
                voting_period: voting_period.unwrap_or(old(self).config.voting_period),
                quorum_bps: quorum_bps.unwrap_or(old(self).config.quorum_bps),
                threshold_bps: threshold_bps.unwrap_or(old(self).config.threshold_bps),
                timelock_period: timelock_period.unwrap_or(old(self).config.timelock_period),
                ..old(self).config
            }),
    {
        if *caller != self.config.admin {
            return Err(ContractError::Unauthorized { reason: "Only admin can update config" });
        }
        if let Some(v) = voting_period {
            self.config.voting_period = v;
        }
        if let Some(q) = quorum_bps {
            self.config.quorum_bps = q;
        }
        if let Some(t) = threshold_bps {
            self.config.threshold_bps = t;
        }
        if let Some(t) = timelock_period {
            self.config.timelock_period = t;
        }
        Ok(())
    }
}

/// A tally settles a proposal once: whatever state a successful tally leaves,
/// tallying the same proposal again, at any height, fails with
/// `ProposalNotActive`, so its counts are never touched a second time.
pub proof fn lemma_tally_once(e: VotingEngine, after: VotingEngine, id: u64, now: u64, later: u64)
    requires
        e.wf(),
        e.tally_spec(id, now) is Ok,
        after.config == e.config,
        after.proposals@ == e.proposals@.update(id - 1, e.tally_spec(id, now)->Ok_0),
    ensures
        after.tally_spec(id, later) == Err::<StoredProposal, ContractError>(ContractError::ProposalNotActive),
{
    assert(after.proposal_spec(id) == e.tally_spec(id, now)->Ok_0);
}

/// When every ballot is an abstention, the tally rejects the proposal: the
/// Yes share has no denominator and counts as not reaching the threshold.
pub proof fn lemma_all_abstain_rejected(e: VotingEngine, id: u64, now: u64)
    requires
        e.has_proposal(id),
        e.proposal_spec(id).status == ProposalStatus::Active,
        now > e.proposal_spec(id).end_height,
        e.proposal_spec(id).votes_for == 0,
        e.proposal_spec(id).votes_against == 0,
        e.proposal_spec(id).votes_abstain > 0,
    ensures
        e.tally_spec(id, now) == Ok::<StoredProposal, ContractError>(
            StoredProposal { status: ProposalStatus::Rejected, ..e.proposal_spec(id) },
        ),
{
}

/// A quadratic ballot that sends zero tokens is accepted with weight exactly
/// one, whenever the ballot is otherwise admissible and the counters have
/// room for it: the chosen tally grows by one and so does the voter count.
pub proof fn lemma_zero_token_ballot_counts_once(
    e: VotingEngine,
    voter: Seq<char>,
    id: u64,
    choice: VoteOption,
    now: u64,
)
    requires
        e.has_proposal(id),
        e.proposal_spec(id).status == ProposalStatus::Active,
        e.proposal_spec(id).voting_method == VotingMethod::Quadratic,
        now <= e.proposal_spec(id).end_height,
        !e.has_voted(id, voter),
        total_votes(e.proposal_spec(id)) + 1 <= u128::MAX,
        e.proposal_spec(id).total_voters < u64::MAX,
    ensures
        vote_weight_spec(VotingMethod::Quadratic, Some(0u128)) == 1,
        e.cast_vote_spec(voter, true, id, choice, Some(0u128), now) == Ok::<StoredProposal, ContractError>(
            with_ballot(e.proposal_spec(id), choice, 1)->Some_0,
        ),
        choice == VoteOption::Yes ==> with_ballot(e.proposal_spec(id), choice, 1)->Some_0.votes_for
            == e.proposal_spec(id).votes_for + 1,
        with_ballot(e.proposal_spec(id), choice, 1)->Some_0.total_voters == e.proposal_spec(id).total_voters + 1,
{
    lemma_quadratic_zero_tokens_weigh_one();
}

} // verus!
