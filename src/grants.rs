//! Grant bookkeeping: applications with milestones, governance approval,
//! milestone evidence and approval with the treasury payout each one owes,
//! assessors, research categories and research cycles.

use vstd::prelude::*;
use vstd::string::*;
use crate::digest::{decimal_of, push_decimal};
use crate::errors::ContractError;
use crate::paging::{page_ids, page_len, page_limit, page_size};
use crate::registry::names_contain;
use crate::treasury::{copy_category, FundCategory};

verus! {

#[derive(Debug)]
pub struct MilestoneInput {
    pub description: String,
    pub amount: u128,
}

#[derive(Debug, Clone, Copy, PartialEq, Eq, Structural)]
pub enum StoredGrantStatus {
    Pending,
    Approved,
    Active,
    Completed,
    Rejected,
    Cancelled,
}

impl StoredGrantStatus {
    pub open spec fn name_spec(&self) -> Seq<char> {
        match self {
            StoredGrantStatus::Pending => "Pending"@,
            StoredGrantStatus::Approved => "Approved"@,
            StoredGrantStatus::Active => "Active"@,
            StoredGrantStatus::Completed => "Completed"@,
            StoredGrantStatus::Rejected => "Rejected"@,
            StoredGrantStatus::Cancelled => "Cancelled"@,
        }
    }

    /// The status's name.
    pub fn name(&self) -> (r: &'static str)
        ensures
            r@ == self.name_spec(),
    {
        match self {
            StoredGrantStatus::Pending => "Pending",
            StoredGrantStatus::Approved => "Approved",
            StoredGrantStatus::Active => "Active",
            StoredGrantStatus::Completed => "Completed",
            StoredGrantStatus::Rejected => "Rejected",
            StoredGrantStatus::Cancelled => "Cancelled",
        }
    }
}

/// Lifecycle of a grant application as reported to other engines, with the
/// last completed milestone while some remain.
#[derive(Debug, Clone, Copy, PartialEq, Eq, Structural)]
pub enum GrantStatus {
    Pending,
    Approved,
    Active,
    MilestoneCompleted(u32),
    Completed,
    Rejected,
    Cancelled,
}

#[derive(Debug)]
pub struct StoredMilestone {
    pub id: u32,
    pub description: String,
    pub amount: u128,
    pub completed: bool,
    /// Evidence reference (a content hash or similar).
    pub evidence: Option<String>,
    /// Who approved the milestone.
    pub approved_by: Option<String>,
}

#[derive(Debug)]
pub struct StoredGrant {
    pub id: u64,
    pub applicant: String,
    pub title: String,
    pub description: String,
    pub category: FundCategory,
    pub total_amount: u128,
    pub disbursed: u128,
    pub status: StoredGrantStatus,
    pub proposal_id: Option<u64>,
    pub milestones: Vec<StoredMilestone>,
}

#[derive(Debug)]
pub struct ResearchCategory {
    pub name: String,
    pub description: String,
    pub funding_pool: u128,
    pub total_funded: u128,
    pub active: bool,
    pub max_grant_size: u128,
}

#[derive(Debug, Clone, Copy, PartialEq, Eq, Structural)]
pub enum CycleStatus {
    Open,
    Reviewing,
    Funded,
    Closed,
}

#[derive(Debug)]
pub struct ResearchCycle {
    pub id: u64,
    pub title: String,
    pub categories: Vec<String>,
    pub total_budget: u128,
    pub allocated: u128,
    pub start_height: u64,
    pub end_height: u64,
    pub status: CycleStatus,
}

/// The treasury spend a milestone approval asks for, for the caller to
/// dispatch under the grants engine's authority.
#[derive(Debug)]
pub struct GrantSpend {
    pub recipient: String,
    pub amount: u128,
    pub category: FundCategory,
    pub memo: String,
}

#[derive(Debug)]
pub struct GrantsRegistry {
    pub admin: String,
    pub governance_contract: String,
    pub treasury_contract: String,
    pub total_disbursed: u128,
    /// Grant `id` sits at index `id - 1`.
    pub grants: Vec<StoredGrant>,
    pub assessors: Vec<String>,
    pub categories: Vec<ResearchCategory>,
    /// Cycle `id` sits at index `id - 1`.
    pub cycles: Vec<ResearchCycle>,
}

/// Sum of the milestone amounts.
pub open spec fn milestones_total(s: Seq<MilestoneInput>) -> int
    decreases s.len(),
{
    if s.len() == 0 {
        0
    } else {
        milestones_total(s.drop_last()) + s.last().amount
    }
}

/// Milestones are numbered from one in order.
pub open spec fn numbered(s: Seq<StoredMilestone>) -> bool {
    forall|j: int| 0 <= j < s.len() ==> #[trigger] s[j].id == j + 1
}

/// The memo of the payout for milestone `mid` of grant `gid`.
pub open spec fn payout_memo(gid: u64, mid: u32) -> Seq<char> {
    "Grant #"@ + decimal_of(gid as nat) + " milestone #"@ + decimal_of(mid as nat)
}

/// Every milestone is completed.
pub open spec fn all_completed(s: Seq<StoredMilestone>) -> bool {
    forall|j: int| 0 <= j < s.len() ==> (#[trigger] s[j]).completed
}

fn payout_memo_string(gid: u64, mid: u32) -> (r: String)
    ensures
        r@ == payout_memo(gid, mid),
{
    let mut r = String::from_str("Grant #");
    push_decimal(&mut r, gid as u128);
    r.append(" milestone #");
    push_decimal(&mut r, mid as u128);
    r
}

fn names_include(names: &Vec<String>, name: &String) -> (r: bool)
    ensures
        r == exists|i: int| 0 <= i < names@.len() && (#[trigger] names@[i])@ == name@,
{
    let mut i: usize = 0;
    while i < names.len()
        invariant
            i <= names@.len(),
            forall|k: int| 0 <= k < i ==> (#[trigger] names@[k])@ != name@,
        decreases names@.len() - i,
    {
        if names[i] == *name {
            return true;
        }
        i += 1;
    }
    false
}

impl GrantsRegistry {
    /// Grant and cycle ids are dense from one, and each grant's milestones
    /// are numbered from one.
    pub open spec fn wf(&self) -> bool {
        &&& self.grants@.len() <= u64::MAX
        &&& self.cycles@.len() <= u64::MAX
        &&& forall|i: int| 0 <= i < self.grants@.len() ==> #[trigger] self.grants@[i].id == i + 1
        &&& forall|i: int| 0 <= i < self.grants@.len() ==> numbered(#[trigger] self.grants@[i].milestones@)
        &&& forall|i: int| 0 <= i < self.cycles@.len() ==> #[trigger] self.cycles@[i].id == i + 1
    }

    pub open spec fn has_grant(&self, id: u64) -> bool {
        1 <= id <= self.grants@.len()
    }

    pub open spec fn grant_spec(&self, id: u64) -> StoredGrant {
        self.grants@[id - 1]
    }

    pub open spec fn is_assessor(&self, addr: Seq<char>) -> bool {
        names_contain(self.assessors@, addr)
    }

    pub open spec fn has_category(&self, name: Seq<char>) -> bool {
        exists|i: int| 0 <= i < self.categories@.len() && (#[trigger] self.categories@[i]).name@ == name
    }

    /// Position of the first category named `name`, when there is one.
    pub open spec fn category_index(&self, name: Seq<char>) -> int {
        choose|i: int| 0 <= i < self.categories@.len() && (#[trigger] self.categories@[i]).name@ == name
            && forall|k: int| 0 <= k < i ==> (#[trigger] self.categories@[k]).name@ != name
    }

    /// A registry with no grant.
    pub fn new(admin: String, governance_contract: String, treasury_contract: String) -> (r: Self)
        ensures
            r.wf(),
            r.admin == admin,
            r.governance_contract == governance_contract,
            r.treasury_contract == treasury_contract,
            r.total_disbursed == 0,
            r.grants@.len() == 0,
            r.assessors@.len() == 0,
            r.categories@.len() == 0,
            r.cycles@.len() == 0,
    {
        GrantsRegistry {
            admin,
            governance_contract,
            treasury_contract,
            total_disbursed: 0,
            grants: Vec::new(),
            assessors: Vec::new(),
            categories: Vec::new(),
            cycles: Vec::new(),
        }
    }

    /// Files a grant application under the next id; its total is the sum of
    /// its milestones, numbered from one in the order given.
    pub fn apply(
        &mut self,
        applicant: String,
        title: String,
        description: String,
        category: FundCategory,
        milestones: Vec<MilestoneInput>,
    ) -> (r: Result<u64, ContractError>)
        requires
            old(self).wf(),
        ensures
            final(self).wf(),
            final(self).admin == old(self).admin,
            final(self).governance_contract == old(self).governance_contract,
            final(self).total_disbursed == old(self).total_disbursed,
            final(self).assessors@ == old(self).assessors@,
            final(self).categories@ == old(self).categories@,
            final(self).cycles@ == old(self).cycles@,
            old(self).grants@.len() >= u64::MAX || milestones_total(milestones@) > u128::MAX
                || milestones@.len() > u32::MAX ==> r == Err::<u64, ContractError>(ContractError::Overflow)
                && final(self).grants@ == old(self).grants@,
            !(old(self).grants@.len() >= u64::MAX || milestones_total(milestones@) > u128::MAX
                || milestones@.len() > u32::MAX) ==> ({
                let g = final(self).grants@.last();
                &&& r == Ok::<u64, ContractError>((old(self).grants@.len() + 1) as u64)
                &&& final(self).grants@.len() == old(self).grants@.len() + 1
                &&& final(self).grants@.drop_last() == old(self).grants@
                &&& g.id == old(self).grants@.len() + 1
                &&& g.applicant == applicant
                &&& g.title == title
                &&& g.description == description
                &&& g.category == category
                &&& g.total_amount == milestones_total(milestones@)
                &&& g.disbursed == 0
                &&& g.status == StoredGrantStatus::Pending
                &&& g.proposal_id is None
                &&& g.milestones@.len() == milestones@.len()
                &&& forall|j: int| 0 <= j < milestones@.len() ==> {
                    let m = #[trigger] g.milestones@[j];
                    &&& m.id == j + 1
                    &&& m.description == milestones@[j].description
                    &&& m.amount == milestones@[j].amount
                    &&& !m.completed
                    &&& m.evidence is None
                    &&& m.approved_by is None
                }
            }),
    {
        let count = self.grants.len() as u64;
        if count == u64::MAX {
            return Err(ContractError::Overflow);
        }
        if milestones.len() as u64 > u32::MAX as u64 {
            return Err(ContractError::Overflow);
        }
        let mut total: u128 = 0;
        let mut stored: Vec<StoredMilestone> = Vec::new();
        let mut i: usize = 0;
        let mut overflow = false;
        while i < milestones.len()
            invariant
                i <= milestones@.len() <= u32::MAX,
                !overflow ==> total == milestones_total(milestones@.subrange(0, i as int)),
                overflow ==> milestones_total(milestones@) > u128::MAX,
                stored@.len() == i,
                forall|j: int| 0 <= j < i ==> {
                    let m = #[trigger] stored@[j];
                    &&& m.id == j + 1
                    &&& m.description == milestones@[j].description
                    &&& m.amount == milestones@[j].amount
                    &&& !m.completed
                    &&& m.evidence is None
                    &&& m.approved_by is None
                },
            decreases milestones@.len() - i,
        {
            let ghost prefix = milestones@.subrange(0, i as int + 1);
            assert(prefix.drop_last() =~= milestones@.subrange(0, i as int));
            if !overflow {
                match total.checked_add(milestones[i].amount) {
                    Some(t) => total = t,
                    None => {
                        overflow = true;
                        proof {
                            lemma_total_grows(milestones@, i as int + 1);
                        }
                    },
                }
            }
            stored.push(StoredMilestone {
                id: (i + 1) as u32,
                description: milestones[i].description.clone(),
                amount: milestones[i].amount,
                completed: false,
                evidence: None,
                approved_by: None,
            });
            i += 1;
        }
        assert(milestones@.subrange(0, milestones@.len() as int) =~= milestones@);
        if overflow {
            return Err(ContractError::Overflow);
        }
        self.grants.push(StoredGrant {
            id: count + 1,
            applicant,
            title,
            description,
            category,
            total_amount: total,
            disbursed: 0,
            status: StoredGrantStatus::Pending,
            proposal_id: None,
            milestones: stored,
        });
        assert(self.grants@.drop_last() =~= old(self).grants@);
        Ok(count + 1)
    }

    /// Replaces grant `id`'s status (and proposal) in place.
    fn set_status(&mut self, id: u64, status: StoredGrantStatus, proposal_id: Option<u64>)
        requires
            old(self).wf(),
            old(self).has_grant(id),
        ensures
            final(self).wf(),
            final(self).admin == old(self).admin,
            final(self).governance_contract == old(self).governance_contract,
            final(self).treasury_contract == old(self).treasury_contract,
            final(self).total_disbursed == old(self).total_disbursed,
            final(self).assessors@ == old(self).assessors@,
            final(self).categories@ == old(self).categories@,
            final(self).cycles@ == old(self).cycles@,
            final(self).grants@ == old(self).grants@.update(
                id - 1,
                StoredGrant { status, proposal_id, ..old(self).grants@[id - 1] },
            ),
    {
        let i = (id - 1) as usize;
        let mut g = self.grants.remove(i);
        g.status = status;
        g.proposal_id = proposal_id;
        self.grants.insert(i, g);
        assert(self.grants@ =~= old(self).grants@.update(
            id - 1,
            StoredGrant { status, proposal_id, ..old(self).grants@[id - 1] },
        ));
    }

    /// Activates a pending grant on the word of proposal `proposal_id`;
    /// governance only.
    pub fn approve(&mut self, caller: &String, grant_id: u64, proposal_id: u64) -> (r: Result<(), ContractError>)
        requires
            old(self).wf(),
        ensures
            final(self).wf(),
            final(self).total_disbursed == old(self).total_disbursed,
            final(self).admin == old(self).admin,
            final(self).governance_contract == old(self).governance_contract,
            caller@ != old(self).governance_contract@ ==> r == Err::<(), ContractError>(
                ContractError::Unauthorized { reason: "Only governance contract can approve grants" },
            ) && final(self).grants@ == old(self).grants@,
            caller@ == old(self).governance_contract@ && !old(self).has_grant(grant_id) ==> r == Err::<(), ContractError>(
                ContractError::GrantNotFound { id: grant_id },
            ) && final(self).grants@ == old(self).grants@,
            caller@ == old(self).governance_contract@ && old(self).has_grant(grant_id) ==> if old(self).grant_spec(grant_id).status
                != StoredGrantStatus::Pending {
                r == Err::<(), ContractError>(ContractError::InvalidState) && final(self).grants@ == old(self).grants@
            } else {
                r is Ok && final(self).grants@ == old(self).grants@.update(
                    grant_id - 1,
                    StoredGrant {
                        status: StoredGrantStatus::Active,
                        proposal_id: Some(proposal_id),
                        ..old(self).grant_spec(grant_id)
                    },
                )
            },
    {
        if *caller != self.governance_contract {
            return Err(ContractError::Unauthorized { reason: "Only governance contract can approve grants" });
        }
        if grant_id == 0 || grant_id > self.grants.len() as u64 {
            return Err(ContractError::GrantNotFound { id: grant_id });
        }
        if self.grants[(grant_id - 1) as usize].status != StoredGrantStatus::Pending {
            return Err(ContractError::InvalidState);
        }
        self.set_status(grant_id, StoredGrantStatus::Active, Some(proposal_id));
        Ok(())
    }

    /// Marks grant `grant_id` rejected; governance only.
    pub fn reject(&mut self, caller: &String, grant_id: u64) -> (r: Result<(), ContractError>)
        requires
            old(self).wf(),
        ensures
            final(self).wf(),
            final(self).total_disbursed == old(self).total_disbursed,
            caller@ != old(self).governance_contract@ ==> r == Err::<(), ContractError>(
                ContractError::Unauthorized { reason: "Only governance can reject grants" },
            ) && final(self).grants@ == old(self).grants@,
            caller@ == old(self).governance_contract@ && !old(self).has_grant(grant_id) ==> r == Err::<(), ContractError>(
                ContractError::GrantNotFound { id: grant_id },
            ) && final(self).grants@ == old(self).grants@,
            caller@ == old(self).governance_contract@ && old(self).has_grant(grant_id) ==> r is Ok
                && final(self).grants@ == old(self).grants@.update(
                grant_id - 1,
                StoredGrant { status: StoredGrantStatus::Rejected, ..old(self).grant_spec(grant_id) },
            ),
    {
        if *caller != self.governance_contract {
            return Err(ContractError::Unauthorized { reason: "Only governance can reject grants" });
        }
        if grant_id == 0 || grant_id > self.grants.len() as u64 {
            return Err(ContractError::GrantNotFound { id: grant_id });
        }
        let p = self.grants[(grant_id - 1) as usize].proposal_id;
        self.set_status(grant_id, StoredGrantStatus::Rejected, p);
        Ok(())
    }

    /// Marks grant `grant_id` cancelled; its applicant or the admin only.
    pub fn cancel(&mut self, caller: &String, grant_id: u64) -> (r: Result<(), ContractError>)
        requires
            old(self).wf(),
        ensures
            final(self).wf(),
            final(self).total_disbursed == old(self).total_disbursed,
            !old(self).has_grant(grant_id) ==> r == Err::<(), ContractError>(ContractError::GrantNotFound { id: grant_id })
                && final(self).grants@ == old(self).grants@,
            old(self).has_grant(grant_id) && caller@ != old(self).grant_spec(grant_id).applicant@
                && caller@ != old(self).admin@ ==> r == Err::<(), ContractError>(
                ContractError::Unauthorized { reason: "Only grantee or admin can cancel" },
            ) && final(self).grants@ == old(self).grants@,
            old(self).has_grant(grant_id) && (caller@ == old(self).grant_spec(grant_id).applicant@
                || caller@ == old(self).admin@) ==> r is Ok && final(self).grants@ == old(self).grants@.update(
                grant_id - 1,
                StoredGrant { status: StoredGrantStatus::Cancelled, ..old(self).grant_spec(grant_id) },
            ),
    {
        if grant_id == 0 || grant_id > self.grants.len() as u64 {
            return Err(ContractError::GrantNotFound { id: grant_id });
        }
        let i = (grant_id - 1) as usize;
        if *caller != self.grants[i].applicant && *caller != self.admin {
            return Err(ContractError::Unauthorized { reason: "Only grantee or admin can cancel" });
        }
        let p = self.grants[i].proposal_id;
        self.set_status(grant_id, StoredGrantStatus::Cancelled, p);
        Ok(())
    }

    /// Attaches `evidence` to milestone `milestone_id` of an active grant;
    /// its applicant only.
    pub fn submit_milestone(&mut self, caller: &String, grant_id: u64, milestone_id: u32, evidence: String) -> (r: Result<
        (),
        ContractError,
    >)
        requires
            old(self).wf(),
        ensures
            final(self).wf(),
            final(self).total_disbursed == old(self).total_disbursed,
            !old(self).has_grant(grant_id) ==> r == Err::<(), ContractError>(ContractError::GrantNotFound { id: grant_id })
                && final(self).grants@ == old(self).grants@,
            old(self).has_grant(grant_id) ==> ({
                let g = old(self).grant_spec(grant_id);
                if caller@ != g.applicant@ {
                    r == Err::<(), ContractError>(
                        ContractError::Unauthorized { reason: "Only grantee can submit milestone evidence" },
                    ) && final(self).grants@ == old(self).grants@
                } else if g.status != StoredGrantStatus::Active {
                    r == Err::<(), ContractError>(ContractError::InvalidState) && final(self).grants@ == old(self).grants@
                } else if !(1 <= milestone_id <= g.milestones@.len()) {
                    r == Err::<(), ContractError>(ContractError::MilestoneNotFound { grant_id, milestone_id })
                        && final(self).grants@ == old(self).grants@
                } else {
                    let m = g.milestones@[milestone_id - 1];
                    &&& r is Ok
                    &&& final(self).grants@.len() == old(self).grants@.len()
                    &&& forall|k: int| 0 <= k < old(self).grants@.len() && k != grant_id - 1
                        ==> #[trigger] final(self).grants@[k] == old(self).grants@[k]
                    &&& final(self).grants@[grant_id - 1] == (StoredGrant {
                        milestones: final(self).grants@[grant_id - 1].milestones,
                        ..g
                    })
                    &&& final(self).grants@[grant_id - 1].milestones@ == g.milestones@.update(
                        milestone_id - 1,
                        StoredMilestone { evidence: Some(evidence), ..m },
                    )
                }
            }),
    {
        if grant_id == 0 || grant_id > self.grants.len() as u64 {
            return Err(ContractError::GrantNotFound { id: grant_id });
        }
        let i = (grant_id - 1) as usize;
        if *caller != self.grants[i].applicant {
            return Err(ContractError::Unauthorized { reason: "Only grantee can submit milestone evidence" });
        }
        if self.grants[i].status != StoredGrantStatus::Active {
            return Err(ContractError::InvalidState);
        }
        if milestone_id == 0 || milestone_id as usize > self.grants[i].milestones.len() {
            return Err(ContractError::MilestoneNotFound { grant_id, milestone_id });
        }
        let j = (milestone_id - 1) as usize;
        let ghost before = self.grants@;
        let mut g = self.grants.remove(i);
        let mut m = g.milestones.remove(j);
        m.evidence = Some(evidence);
        g.milestones.insert(j, m);
        self.grants.insert(i, g);
        proof {
            let gm = self.grants@[i as int].milestones@;
            assert(gm =~= before[i as int].milestones@.update(j as int, StoredMilestone {
                evidence: self.grants@[i as int].milestones@[j as int].evidence,
                ..before[i as int].milestones@[j as int]
            }));
            assert forall|k: int| 0 <= k < self.grants@.len() && k != i as int implies
                #[trigger] self.grants@[k] == before[k] by {}
            assert forall|k: int| 0 <= k < self.grants@.len() implies #[trigger] self.grants@[k].id == k + 1 by {
                if k != i as int { assert(self.grants@[k] == before[k]); }
            }
            assert forall|k: int| 0 <= k < self.grants@.len() implies numbered(#[trigger] self.grants@[k].milestones@) by {
                if k != i as int { assert(self.grants@[k] == before[k]); }
                else {
                    assert forall|t: int| 0 <= t < gm.len() implies #[trigger] gm[t].id == t + 1 by {
                        assert(before[i as int].milestones@[t].id == t + 1);
                    }
                }
            }
        }
        Ok(())
    }

    /// Completes milestone `milestone_id` of grant `grant_id` once evidence
    /// is in, and returns the treasury payout it owes; governance, the admin
    /// or a assessor only. The grant completes with its last milestone.
    pub fn approve_milestone(&mut self, caller: &String, grant_id: u64, milestone_id: u32) -> (r: Result<
        GrantSpend,
        ContractError,
    >)
        requires
            old(self).wf(),
        ensures
            final(self).wf(),
            final(self).admin == old(self).admin,
            final(self).governance_contract == old(self).governance_contract,
            final(self).assessors@ == old(self).assessors@,
            caller@ != old(self).governance_contract@ && caller@ != old(self).admin@ && !old(self).is_assessor(caller@)
                ==> r == Err::<GrantSpend, ContractError>(ContractError::Unauthorized {
                reason: "Only governance, admin, or authorized assessor can approve milestones",
            }) && final(self).grants@ == old(self).grants@ && final(self).total_disbursed == old(self).total_disbursed,
            (caller@ == old(self).governance_contract@ || caller@ == old(self).admin@ || old(self).is_assessor(caller@))
                ==> ({
                if !old(self).has_grant(grant_id) {
                    r == Err::<GrantSpend, ContractError>(ContractError::GrantNotFound { id: grant_id })
                        && final(self).grants@ == old(self).grants@ && final(self).total_disbursed == old(self).total_disbursed
                } else {
                    let g = old(self).grant_spec(grant_id);
                    if !(1 <= milestone_id <= g.milestones@.len()) {
                        r == Err::<GrantSpend, ContractError>(ContractError::MilestoneNotFound { grant_id, milestone_id })
                            && final(self).grants@ == old(self).grants@
                            && final(self).total_disbursed == old(self).total_disbursed
                    } else {
                        let m = g.milestones@[milestone_id - 1];
                        if m.completed || m.evidence is None {
                            r == Err::<GrantSpend, ContractError>(ContractError::InvalidState)
                                && final(self).grants@ == old(self).grants@
                                && final(self).total_disbursed == old(self).total_disbursed
                        } else if g.disbursed + m.amount > u128::MAX || old(self).total_disbursed + m.amount > u128::MAX {
                            r == Err::<GrantSpend, ContractError>(ContractError::Overflow)
                                && final(self).grants@ == old(self).grants@
                                && final(self).total_disbursed == old(self).total_disbursed
                        } else {
                            let ms = g.milestones@.update(
                                milestone_id - 1,
                                StoredMilestone { completed: true, approved_by: Some(*caller), ..m },
                            );
                            let g2 = final(self).grants@[grant_id - 1];
                            &&& r matches Ok(spend) && spend.recipient == g.applicant && spend.amount == m.amount
                                && spend.category == g.category && spend.memo@ == payout_memo(grant_id, milestone_id)
                            &&& final(self).total_disbursed == old(self).total_disbursed + m.amount
                            &&& final(self).grants@.len() == old(self).grants@.len()
                            &&& forall|k: int| 0 <= k < old(self).grants@.len() && k != grant_id - 1
                                ==> #[trigger] final(self).grants@[k] == old(self).grants@[k]
                            &&& g2.milestones@ == ms
                            &&& g2 == (StoredGrant {
                                milestones: g2.milestones,
                                disbursed: (g.disbursed + m.amount) as u128,
                                status: if all_completed(ms) { StoredGrantStatus::Completed } else { g.status },
                                ..g
                            })
                        }
                    }
                }
            }),
    {
        if *caller != self.governance_contract && *caller != self.admin && !names_include(&self.assessors, caller) {
            return Err(ContractError::Unauthorized {
                reason: "Only governance, admin, or authorized assessor can approve milestones",
            });
        }
        if grant_id == 0 || grant_id > self.grants.len() as u64 {
            return Err(ContractError::GrantNotFound { id: grant_id });
        }
        let i = (grant_id - 1) as usize;
        if milestone_id == 0 || milestone_id as usize > self.grants[i].milestones.len() {
            return Err(ContractError::MilestoneNotFound { grant_id, milestone_id });
        }
        let j = (milestone_id - 1) as usize;
        let amount = self.grants[i].milestones[j].amount;
        if self.grants[i].milestones[j].completed || self.grants[i].milestones[j].evidence.is_none() {
            return Err(ContractError::InvalidState);
        }
        let disbursed = match self.grants[i].disbursed.checked_add(amount) {
            Some(v) => v,
            None => return Err(ContractError::Overflow),
        };
        let total = match self.total_disbursed.checked_add(amount) {
            Some(v) => v,
            None => return Err(ContractError::Overflow),
        };
        let ghost before = self.grants@;
        let mut g = self.grants.remove(i);
        let mut m = g.milestones.remove(j);
        m.completed = true;
        m.approved_by = Some(caller.clone());
        g.milestones.insert(j, m);
        g.disbursed = disbursed;
        let ghost ms = g.milestones@;
        assert(ms =~= before[i as int].milestones@.update(j as int, StoredMilestone {
            completed: true,
            approved_by: Some(*caller),
            ..before[i as int].milestones@[j as int]
        }));
        let mut done = true;
        let mut k: usize = 0;
        while k < g.milestones.len()
            invariant
                g.milestones@ == ms,
                k <= ms.len(),
                done == forall|t: int| 0 <= t < k ==> (#[trigger] ms[t]).completed,
            decreases ms.len() - k,
        {
            if !g.milestones[k].completed {
                done = false;
            }
            k += 1;
        }
        if done {
            g.status = StoredGrantStatus::Completed;
        }
        let spend = GrantSpend {
            recipient: g.applicant.clone(),
            amount,
            category: copy_category(&g.category),
            memo: payout_memo_string(grant_id, milestone_id),
        };
        self.grants.insert(i, g);
        self.total_disbursed = total;
        proof {
            let gm = self.grants@[i as int].milestones@;
            assert forall|k: int| 0 <= k < self.grants@.len() && k != i as int implies
                #[trigger] self.grants@[k] == before[k] by {}
            assert forall|k: int| 0 <= k < self.grants@.len() implies #[trigger] self.grants@[k].id == k + 1 by {
                if k != i as int { assert(self.grants@[k] == before[k]); }
            }
            assert forall|k: int| 0 <= k < self.grants@.len() implies numbered(#[trigger] self.grants@[k].milestones@) by {
                if k != i as int { assert(self.grants@[k] == before[k]); }
                else {
                    assert forall|t: int| 0 <= t < gm.len() implies #[trigger] gm[t].id == t + 1 by {
                        assert(before[i as int].milestones@[t].id == t + 1);
                    }
                }
            }
        }
        Ok(spend)
    }

    /// Adds `assessor` to those who may approve milestones; the admin or
    /// governance only.
    pub fn add_assessor(&mut self, caller: &String, assessor: String) -> (r: Result<(), ContractError>)
        requires
            old(self).wf(),
        ensures
            final(self).wf(),
            final(self).grants@ == old(self).grants@,
            caller@ != old(self).admin@ && caller@ != old(self).governance_contract@ ==> r == Err::<(), ContractError>(
                ContractError::Unauthorized { reason: "Only admin or governance can manage assessors" },
            ) && final(self).assessors@ == old(self).assessors@,
            caller@ == old(self).admin@ || caller@ == old(self).governance_contract@ ==> r is Ok
                && forall|a: Seq<char>| #[trigger] final(self).is_assessor(a) == (old(self).is_assessor(a) || a == assessor@),
    {
        if *caller != self.admin && *caller != self.governance_contract {
            return Err(ContractError::Unauthorized { reason: "Only admin or governance can manage assessors" });
        }
        let ghost before = self.assessors@;
        let ghost name = assessor@;
        self.assessors.push(assessor);
        assert forall|a: Seq<char>| #[trigger] self.is_assessor(a) == (old(self).is_assessor(a) || a == name) by {
            if old(self).is_assessor(a) {
                let i = choose|i: int| 0 <= i < before.len() && (#[trigger] before[i])@ == a;
                assert(self.assessors@[i] == before[i]);
            }
            if a == name {
                assert(self.assessors@[before.len() as int]@ == a);
            }
            if self.is_assessor(a) {
                let i = choose|i: int| 0 <= i < self.assessors@.len() && (#[trigger] self.assessors@[i])@ == a;
                if i < before.len() {
                    assert(self.assessors@[i] == before[i]);
                }
            }
        }
        Ok(())
    }

    /// Removes `assessor`; the admin or governance only.
    pub fn remove_assessor(&mut self, caller: &String, assessor: &String) -> (r: Result<(), ContractError>)
        requires
            old(self).wf(),
        ensures
            final(self).wf(),
            final(self).grants@ == old(self).grants@,
            caller@ != old(self).admin@ && caller@ != old(self).governance_contract@ ==> r == Err::<(), ContractError>(
                ContractError::Unauthorized { reason: "Only admin or governance can manage assessors" },
            ) && final(self).assessors@ == old(self).assessors@,
            caller@ == old(self).admin@ || caller@ == old(self).governance_contract@ ==> r is Ok
                && forall|a: Seq<char>| #[trigger] final(self).is_assessor(a) == (old(self).is_assessor(a) && a != assessor@),
    {
        if *caller != self.admin && *caller != self.governance_contract {
            return Err(ContractError::Unauthorized { reason: "Only admin or governance can manage assessors" });
        }
        let mut kept: Vec<String> = Vec::new();
        let mut i: usize = 0;
        while i < self.assessors.len()
            invariant
                i <= self.assessors@.len(),
                forall|a: Seq<char>| #[trigger] names_contain(kept@, a)
                    == (names_contain(self.assessors@.subrange(0, i as int), a) && a != assessor@),
            decreases self.assessors@.len() - i,
        {
            let ghost before = kept@;
            let ghost prefix = self.assessors@.subrange(0, i as int);
            let ghost next = self.assessors@.subrange(0, i as int + 1);
            if self.assessors[i] != *assessor {
                kept.push(self.assessors[i].clone());
            }
            proof {
                assert forall|a: Seq<char>| #[trigger] names_contain(kept@, a)
                    == (names_contain(next, a) && a != assessor@) by {
                    if names_contain(kept@, a) {
                        let k = choose|k: int| 0 <= k < kept@.len() && (#[trigger] kept@[k])@ == a;
                        if k < before.len() {
                            assert(kept@[k] == before[k]);
                            assert(names_contain(before, a));
                            let m = choose|m: int| 0 <= m < prefix.len() && (#[trigger] prefix[m])@ == a;
                            assert(next[m] == prefix[m]);
                        } else {
                            assert(next[i as int]@ == a);
                        }
                    }
                    if names_contain(next, a) && a != assessor@ {
                        let k = choose|k: int| 0 <= k < next.len() && (#[trigger] next[k])@ == a;
                        if k < i {
                            assert(prefix[k] == next[k]);
                            assert(names_contain(prefix, a));
                            assert(names_contain(before, a));
                            let m = choose|m: int| 0 <= m < before.len() && (#[trigger] before[m])@ == a;
                            assert(kept@[m] == before[m]);
                        } else {
                            assert(kept@[before.len() as int]@ == a);
                        }
                    }
                }
            }
            i += 1;
        }
        assert(self.assessors@.subrange(0, self.assessors@.len() as int) =~= self.assessors@);
        self.assessors = kept;
        Ok(())
    }

    fn find_category(&self, name: &String) -> (r: Option<usize>)
        ensures
            match r {
                Some(i) => i < self.categories@.len() && self.categories@[i as int].name@ == name@
                    && self.has_category(name@) && i == self.category_index(name@),
                None => !self.has_category(name@),
            },
    {
        let mut i: usize = 0;
        while i < self.categories.len()
            invariant
                i <= self.categories@.len(),
                forall|k: int| 0 <= k < i ==> (#[trigger] self.categories@[k]).name@ != name@,
            decreases self.categories@.len() - i,
        {
            if self.categories[i].name == *name {
                proof {
                    assert(self.has_category(name@));
                    let j = self.category_index(name@);
                    assert(0 <= i < self.categories@.len() && self.categories@[i as int].name@ == name@
                        && forall|k: int| 0 <= k < i ==> (#[trigger] self.categories@[k]).name@ != name@);
                    assert(0 <= j < self.categories@.len() && self.categories@[j].name@ == name@
                        && forall|k: int| 0 <= k < j ==> (#[trigger] self.categories@[k]).name@ != name@);
                    if j < i as int {
                        assert(self.categories@[j].name@ != name@);
                    } else if j > i as int {
                        assert(self.categories@[i as int].name@ != name@);
                    }
                }
                return Some(i);
            }
            i += 1;
        }
        None
    }

    /// Registers research category `name`, or replaces the one of that name;
    /// the admin or governance only.
    pub fn register_research_category(
        &mut self,
        caller: &String,
        name: String,
        description: String,
        funding_pool: u128,
        max_grant_size: u128,
    ) -> (r: Result<(), ContractError>)
        requires
            old(self).wf(),
        ensures
            final(self).wf(),
            final(self).grants@ == old(self).grants@,
            final(self).cycles@ == old(self).cycles@,
            caller@ != old(self).admin@ && caller@ != old(self).governance_contract@ ==> r == Err::<(), ContractError>(
                ContractError::Unauthorized { reason: "Only admin or governance can register research categories" },
            ) && final(self).categories@ == old(self).categories@,
            caller@ == old(self).admin@ || caller@ == old(self).governance_contract@ ==> ({
                let c = ResearchCategory { name, description, funding_pool, total_funded: 0, active: true, max_grant_size };
                &&& r is Ok
                &&& final(self).categories@ == if old(self).has_category(name@) {
                    old(self).categories@.update(old(self).category_index(name@), c)
                } else {
                    old(self).categories@.push(c)
                }
            }),
    {
        if *caller != self.admin && *caller != self.governance_contract {
            return Err(ContractError::Unauthorized {
                reason: "Only admin or governance can register research categories",
            });
        }
        let pos = self.find_category(&name);
        let c = ResearchCategory { name, description, funding_pool, total_funded: 0, active: true, max_grant_size };
        match pos {
            Some(i) => self.categories.set(i, c),
            None => self.categories.push(c),
        }
        Ok(())
    }

    /// Opens a research cycle over registered categories, from `now` for
    /// `duration_blocks`; the admin or governance only. Returns its id.
    pub fn open_research_cycle(
        &mut self,
        caller: &String,
        title: String,
        categories: Vec<String>,
        total_budget: u128,
        duration_blocks: u64,
        now: u64,
    ) -> (r: Result<u64, ContractError>)
        requires
            old(self).wf(),
        ensures
            final(self).wf(),
            final(self).grants@ == old(self).grants@,
            final(self).categories@ == old(self).categories@,
            caller@ != old(self).admin@ && caller@ != old(self).governance_contract@ ==> r == Err::<u64, ContractError>(
                ContractError::Unauthorized { reason: "Only admin or governance can open research cycles" },
            ) && final(self).cycles@ == old(self).cycles@,
            (caller@ == old(self).admin@ || caller@ == old(self).governance_contract@)
                && (exists|k: int| 0 <= k < categories@.len() && !old(self).has_category((#[trigger] categories@[k])@))
                ==> r == Err::<u64, ContractError>(
                ContractError::Unauthorized { reason: "Research category not registered" },
            ) && final(self).cycles@ == old(self).cycles@,
            (caller@ == old(self).admin@ || caller@ == old(self).governance_contract@)
                && (forall|k: int| 0 <= k < categories@.len() ==> old(self).has_category((#[trigger] categories@[k])@))
                ==> if old(self).cycles@.len() >= u64::MAX || now + duration_blocks > u64::MAX {
                r == Err::<u64, ContractError>(ContractError::Overflow) && final(self).cycles@ == old(self).cycles@
            } else {
                let id = (old(self).cycles@.len() + 1) as u64;
                &&& r == Ok::<u64, ContractError>(id)
                &&& final(self).cycles@ == old(self).cycles@.push(ResearchCycle {
                    id,
                    title,
                    categories,
                    total_budget,
                    allocated: 0,
                    start_height: now,
                    end_height: (now + duration_blocks) as u64,
                    status: CycleStatus::Open,
                })
            },
    {
        if *caller != self.admin && *caller != self.governance_contract {
            return Err(ContractError::Unauthorized { reason: "Only admin or governance can open research cycles" });
        }
        let mut k: usize = 0;
        while k < categories.len()
            invariant
                self.wf(),
                self.admin == old(self).admin,
                self.governance_contract == old(self).governance_contract,
                self.grants@ == old(self).grants@,
                self.categories@ == old(self).categories@,
                self.cycles@ == old(self).cycles@,
                caller@ == old(self).admin@ || caller@ == old(self).governance_contract@,
                k <= categories@.len(),
                forall|t: int| 0 <= t < k ==> self.has_category((#[trigger] categories@[t])@),
            decreases categories@.len() - k,
        {
            if self.find_category(&categories[k]).is_none() {
                return Err(ContractError::Unauthorized { reason: "Research category not registered" });
            }
            k += 1;
        }
        let count = self.cycles.len() as u64;
        if count == u64::MAX {
            return Err(ContractError::Overflow);
        }
        let end_height = match now.checked_add(duration_blocks) {
            Some(h) => h,
            None => return Err(ContractError::Overflow),
        };
        self.cycles.push(ResearchCycle {
            id: count + 1,
            title,
            categories,
            total_budget,
            allocated: 0,
            start_height: now,
            end_height,
            status: CycleStatus::Open,
        });
        Ok(count + 1)
    }

    /// Closes research cycle `cycle_id`; the admin or governance only.
    pub fn close_research_cycle(&mut self, caller: &String, cycle_id: u64) -> (r: Result<(), ContractError>)
        requires
            old(self).wf(),
        ensures
            final(self).wf(),
            final(self).grants@ == old(self).grants@,
            final(self).categories@ == old(self).categories@,
            caller@ != old(self).admin@ && caller@ != old(self).governance_contract@ ==> r == Err::<(), ContractError>(
                ContractError::Unauthorized { reason: "Only admin or governance can close research cycles" },
            ) && final(self).cycles@ == old(self).cycles@,
            (caller@ == old(self).admin@ || caller@ == old(self).governance_contract@) && !(1 <= cycle_id
                <= old(self).cycles@.len()) ==> r == Err::<(), ContractError>(
                ContractError::Unauthorized { reason: "Research cycle not found" },
            ) && final(self).cycles@ == old(self).cycles@,
            (caller@ == old(self).admin@ || caller@ == old(self).governance_contract@) && 1 <= cycle_id
                <= old(self).cycles@.len() ==> r is Ok && final(self).cycles@ == old(self).cycles@.update(
                cycle_id - 1,
                ResearchCycle { status: CycleStatus::Closed, ..old(self).cycles@[cycle_id - 1] },
            ),
    {
        if *caller != self.admin && *caller != self.governance_contract {
            return Err(ContractError::Unauthorized { reason: "Only admin or governance can close research cycles" });
        }
        if cycle_id == 0 || cycle_id > self.cycles.len() as u64 {
            return Err(ContractError::Unauthorized { reason: "Research cycle not found" });
        }
        let i = (cycle_id - 1) as usize;
        let mut c = self.cycles.remove(i);
        c.status = CycleStatus::Closed;
        self.cycles.insert(i, c);
        assert(self.cycles@ =~= old(self).cycles@.update(
            cycle_id - 1,
            ResearchCycle { status: CycleStatus::Closed, ..old(self).cycles@[cycle_id - 1] },
        ));
        Ok(())
    }

    /// Ids of a page of grants, ascending, starting after `start_after`.
    pub fn list_grants(&self, start_after: Option<u64>, limit: Option<u32>) -> (r: Vec<u64>)
        requires
            self.wf(),
        ensures
            r@.len() == page_len(self.grants@.len() as int, start_after, limit),
            forall|k: int| 0 <= k < r@.len() ==> #[trigger] r@[k] == (match start_after {
                Some(v) => v as int,
                None => 0,
            }) + 1 + k,
    {
        page_ids(self.grants.len() as u64, start_after, limit)
    }

    /// Ids of the grants `applicant` filed, oldest first, up to the page
    /// size: 30 by default, never more than 100.
    pub fn grants_by_applicant(&self, applicant: &String, limit: Option<u32>) -> (r: Vec<u64>)
        requires
            self.wf(),
        ensures
            r@.len() <= page_size(limit),
            forall|k: int| 0 <= k < r@.len() ==> {
                &&& self.has_grant(#[trigger] r@[k])
                &&& self.grant_spec(r@[k]).applicant@ == applicant@
            },
            forall|a: int, b: int| 0 <= a < b < r@.len() ==> #[trigger] r@[a] < #[trigger] r@[b],
            r@.len() < page_size(limit) ==> forall|i: int|
                0 <= i < self.grants@.len() && (#[trigger] self.grants@[i]).applicant@ == applicant@
                ==> r@.contains((i + 1) as u64),
    {
        let lim = page_limit(limit);
        let mut out: Vec<u64> = Vec::new();
        let mut i: usize = 0;
        while i < self.grants.len() && out.len() < lim
            invariant
                self.wf(),
                i <= self.grants@.len(),
                lim == page_size(limit),
                out@.len() <= lim,
                forall|k: int| 0 <= k < out@.len() ==> {
                    &&& 1 <= #[trigger] out@[k] <= i
                    &&& self.grants@[out@[k] - 1].applicant@ == applicant@
                },
                forall|a: int, b: int| 0 <= a < b < out@.len() ==> #[trigger] out@[a] < #[trigger] out@[b],
                forall|t: int| 0 <= t < i && (#[trigger] self.grants@[t]).applicant@ == applicant@ ==> out@.contains((t + 1) as u64),
            decreases self.grants@.len() - i,
        {
            if self.grants[i].applicant == *applicant {
                let ghost before = out@;
                out.push(self.grants[i].id);
                proof {
                    assert forall|t: int| 0 <= t < i + 1 && (#[trigger] self.grants@[t]).applicant@ == applicant@
                        implies out@.contains((t + 1) as u64) by {
                        if t < i {
                            let w = choose|w: int| 0 <= w < before.len() && before[w] == (t + 1) as u64;
                            assert(out@[w] == before[w]);
                        } else {
                            assert(out@[before.len() as int] == (t + 1) as u64);
                        }
                    }
                }
            }
            i += 1;
        }
        out
    }
}

/// Totals of longer prefixes are at least those of shorter ones.
proof fn lemma_total_grows(s: Seq<MilestoneInput>, n: int)
    requires
        0 <= n <= s.len(),
    ensures
        milestones_total(s.subrange(0, n)) <= milestones_total(s),
    decreases s.len() - n,
{
    if n < s.len() {
        lemma_total_grows(s, n + 1);
        assert(s.subrange(0, n + 1).drop_last() =~= s.subrange(0, n));
    } else {
        assert(s.subrange(0, n) =~= s);
    }
}

} // verus!
