//! The treasury's books: deposits, governance-authorised spends with their
//! history, and the allocation table, whose shares must cover the whole.

use vstd::prelude::*;
use vstd::string::*;
use crate::arith::{mul_div_floor, BPS_SCALE};
use crate::errors::ContractError;
use crate::paging::{page_ids, page_len};

verus! {

/// Spending categories.
#[derive(Debug)]
pub enum FundCategory {
    Research,
    Healthcare,
    Infrastructure,
    Education,
    Emergency,
    NodeIncentives,
    Custom(String),
}

/// Share of the treasury per category, in basis points.
#[derive(Debug)]
pub struct AllocationConfig {
    pub allocations: Vec<(FundCategory, u64)>,
}

/// The allocation table as answered to a query.
#[derive(Debug)]
pub struct AllocationsResponse {
    pub allocations: Vec<(FundCategory, u64)>,
}

/// One spend, kept for transparency.
#[derive(Debug)]
pub struct SpendRecord {
    pub id: u64,
    pub recipient: String,
    pub amount: u128,
    pub category: FundCategory,
    pub memo: String,
    pub timestamp: u64,
}

#[derive(Debug)]
pub struct Treasury {
    pub admin: String,
    pub governance_contract: String,
    pub denom: String,
    pub total_deposited: u128,
    pub total_spent: u128,
    pub allocations: AllocationConfig,
    pub spend_records: Vec<SpendRecord>,
    /// Amount spent per category name.
    pub category_spent: Vec<(String, u128)>,
}

/// The name a category is known by.
pub open spec fn category_label(c: FundCategory) -> Seq<char> {
    match c {
        FundCategory::Research => "research"@,
        FundCategory::Healthcare => "healthcare"@,
        FundCategory::Infrastructure => "infrastructure"@,
        FundCategory::Education => "education"@,
        FundCategory::Emergency => "emergency"@,
        FundCategory::NodeIncentives => "node_incentives"@,
        FundCategory::Custom(s) => "custom:"@ + s@,
    }
}

/// The name a category is known by.
pub fn fund_category_label(c: &FundCategory) -> (r: String)
    ensures
        r@ == category_label(*c),
{
    match c {
        FundCategory::Research => String::from_str("research"),
        FundCategory::Healthcare => String::from_str("healthcare"),
        FundCategory::Infrastructure => String::from_str("infrastructure"),
        FundCategory::Education => String::from_str("education"),
        FundCategory::Emergency => String::from_str("emergency"),
        FundCategory::NodeIncentives => String::from_str("node_incentives"),
        FundCategory::Custom(s) => {
            let mut r = String::from_str("custom:");
            r.append(s.as_str());
            r
        },
    }
}

pub(crate) fn copy_category(c: &FundCategory) -> (r: FundCategory)
    ensures
        r == *c,
{
    match c {
        FundCategory::Research => FundCategory::Research,
        FundCategory::Healthcare => FundCategory::Healthcare,
        FundCategory::Infrastructure => FundCategory::Infrastructure,
        FundCategory::Education => FundCategory::Education,
        FundCategory::Emergency => FundCategory::Emergency,
        FundCategory::NodeIncentives => FundCategory::NodeIncentives,
        FundCategory::Custom(s) => FundCategory::Custom(s.clone()),
    }
}

/// Sum of the shares of a table.
pub open spec fn bps_sum(s: Seq<(FundCategory, u64)>) -> int
    decreases s.len(),
{
    if s.len() == 0 {
        0
    } else {
        bps_sum(s.drop_last()) + s.last().1
    }
}

/// Whether the shares of `allocations` add up to exactly one whole.
pub fn allocations_cover_whole(allocations: &Vec<(FundCategory, u64)>) -> (r: bool)
    ensures
        r == (bps_sum(allocations@) == BPS_SCALE),
{
    let mut total: u128 = 0;
    let mut i: usize = 0;
    while i < allocations.len()
        invariant
            i <= allocations@.len(),
            total == bps_sum(allocations@.subrange(0, i as int)),
            total <= i * (u64::MAX as int),
        decreases allocations@.len() - i,
    {
        assert(allocations@.subrange(0, i as int + 1).drop_last() =~= allocations@.subrange(0, i as int));
        assert(total + allocations@[i as int].1 <= (i + 1) * (u64::MAX as int)) by (nonlinear_arith)
            requires total <= i * (u64::MAX as int), allocations@[i as int].1 <= u64::MAX;
        assert((i + 1) * (u64::MAX as int) <= u128::MAX) by (nonlinear_arith)
            requires i < allocations@.len(), allocations@.len() <= usize::MAX;
        total = total + allocations[i].1 as u128;
        i += 1;
    }
    assert(allocations@.subrange(0, allocations@.len() as int) =~= allocations@);
    total == BPS_SCALE as u128
}

proof fn lemma_share_within_sum(s: Seq<(FundCategory, u64)>, i: int)
    requires
        0 <= i < s.len(),
    ensures
        s[i].1 <= bps_sum(s),
    decreases s.len(),
{
    lemma_sum_nonneg(s.drop_last());
    if i < s.len() - 1 {
        assert(s.drop_last()[i] == s[i]);
        lemma_share_within_sum(s.drop_last(), i);
    }
}

proof fn lemma_sum_nonneg(s: Seq<(FundCategory, u64)>)
    ensures
        bps_sum(s) >= 0,
    decreases s.len(),
{
    if s.len() > 0 {
        lemma_sum_nonneg(s.drop_last());
    }
}

fn copy_allocations(a: &Vec<(FundCategory, u64)>) -> (r: Vec<(FundCategory, u64)>)
    ensures
        r@ == a@,
{
    let mut r: Vec<(FundCategory, u64)> = Vec::new();
    let mut i: usize = 0;
    while i < a.len()
        invariant
            i <= a@.len(),
            r@ == a@.subrange(0, i as int),
        decreases a@.len() - i,
    {
        let entry = (copy_category(&a[i].0), a[i].1);
        r.push(entry);
        i += 1;
        assert(r@ =~= a@.subrange(0, i as int));
    }
    assert(a@.subrange(0, a@.len() as int) =~= a@);
    r
}

/// Amount spent per category name, zero for a name never spent on.
pub open spec fn spent_on(s: Seq<(String, u128)>, label: Seq<char>) -> int {
    if exists|i: int| 0 <= i < s.len() && (#[trigger] s[i]).0@ == label {
        s[choose|i: int| 0 <= i < s.len() && (#[trigger] s[i]).0@ == label].1 as int
    } else {
        0
    }
}

impl Treasury {
    /// The allocation table covers the whole, category names in the spend
    /// table are unique, and spend ids are dense.
    pub open spec fn wf(&self) -> bool {
        &&& bps_sum(self.allocations.allocations@) == BPS_SCALE
        &&& forall|i: int, j: int| 0 <= i < j < self.category_spent@.len()
            ==> (#[trigger] self.category_spent@[i]).0@ != (#[trigger] self.category_spent@[j]).0@
        &&& self.spend_records@.len() <= u64::MAX
        &&& forall|i: int| 0 <= i < self.spend_records@.len() ==> #[trigger] self.spend_records@[i].id == i + 1
    }

    /// A treasury with nothing deposited, refusing a table whose shares do
    /// not add up to one whole.
    pub fn new(
        admin: String,
        governance_contract: String,
        denom: String,
        allocations: Vec<(FundCategory, u64)>,
    ) -> (r: Result<Self, ContractError>)
        ensures
            bps_sum(allocations@) != BPS_SCALE ==> r == Err::<Self, ContractError>(
                ContractError::InvalidAllocation { reason: "Allocations must sum to 10000 bps" },
            ),
            bps_sum(allocations@) == BPS_SCALE ==> (r matches Ok(t) && {
                &&& t.wf()
                &&& t.admin == admin
                &&& t.governance_contract == governance_contract
                &&& t.denom == denom
                &&& t.allocations.allocations@ == allocations@
                &&& t.total_deposited == 0
                &&& t.total_spent == 0
                &&& t.spend_records@.len() == 0
                &&& t.category_spent@.len() == 0
            }),
    {
        if !allocations_cover_whole(&allocations) {
            return Err(ContractError::InvalidAllocation { reason: "Allocations must sum to 10000 bps" });
        }
        Ok(Treasury {
            admin,
            governance_contract,
            denom,
            total_deposited: 0,
            total_spent: 0,
            allocations: AllocationConfig { allocations },
            spend_records: Vec::new(),
            category_spent: Vec::new(),
        })
    }

    /// Records a deposit of `amount`.
    pub fn deposit(&mut self, amount: u128) -> (r: Result<(), ContractError>)
        requires
            old(self).wf(),
        ensures
            final(self).wf(),
            amount == 0 ==> r == Err::<(), ContractError>(ContractError::InsufficientFunds { needed: 1, available: 0 })
                && final(self).total_deposited == old(self).total_deposited,
            amount > 0 && old(self).total_deposited + amount > u128::MAX ==> r == Err::<(), ContractError>(
                ContractError::Overflow,
            ) && final(self).total_deposited == old(self).total_deposited,
            amount > 0 && old(self).total_deposited + amount <= u128::MAX ==> r is Ok
                && final(self).total_deposited == old(self).total_deposited + amount,
            final(self).total_spent == old(self).total_spent,
            final(self).spend_records@ == old(self).spend_records@,
            final(self).category_spent@ == old(self).category_spent@,
            final(self).admin == old(self).admin,
            final(self).governance_contract == old(self).governance_contract,
    {
        if amount == 0 {
            return Err(ContractError::InsufficientFunds { needed: 1, available: 0 });
        }
        match self.total_deposited.checked_add(amount) {
            Some(v) => {
                self.total_deposited = v;
                Ok(())
            },
            None => Err(ContractError::Overflow),
        }
    }

    fn find_category(&self, label: &String) -> (r: Option<usize>)
        requires
            self.wf(),
        ensures
            match r {
                Some(i) => i < self.category_spent@.len() && self.category_spent@[i as int].0@ == label@
                    && spent_on(self.category_spent@, label@) == self.category_spent@[i as int].1,
                None => spent_on(self.category_spent@, label@) == 0
                    && forall|k: int| 0 <= k < self.category_spent@.len() ==> (#[trigger] self.category_spent@[k]).0@ != label@,
            },
    {
        let mut i: usize = 0;
        while i < self.category_spent.len()
            invariant
                self.wf(),
                i <= self.category_spent@.len(),
                forall|k: int| 0 <= k < i ==> (#[trigger] self.category_spent@[k]).0@ != label@,
            decreases self.category_spent@.len() - i,
        {
            if self.category_spent[i].0 == *label {
                proof {
                    let s = self.category_spent@;
                    assert(s[i as int].0@ == label@);
                    let j = choose|j: int| 0 <= j < s.len() && (#[trigger] s[j]).0@ == label@;
                    if j != i as int {
                        if j < i as int {
                            assert(s[j].0@ != s[i as int].0@);
                        } else {
                            assert(s[i as int].0@ != s[j].0@);
                        }
                    }
                }
                return Some(i);
            }
            i += 1;
        }
        None
    }

    /// Records a spend of `amount` to `recipient` at time `now`; only the
    /// governance contract may authorise one. Returns the spend's id.
    pub fn spend(
        &mut self,
        caller: &String,
        recipient: String,
        amount: u128,
        category: FundCategory,
        memo: String,
        now: u64,
    ) -> (r: Result<u64, ContractError>)
        requires
            old(self).wf(),
        ensures
            final(self).wf(),
            final(self).admin == old(self).admin,
            final(self).governance_contract == old(self).governance_contract,
            final(self).total_deposited == old(self).total_deposited,
            caller@ != old(self).governance_contract@ ==> r == Err::<u64, ContractError>(
                ContractError::Unauthorized { reason: "Only governance contract can authorize spending" },
            ) && final(self).spend_records@ == old(self).spend_records@ && final(self).total_spent == old(self).total_spent,
            caller@ == old(self).governance_contract@ ==> ({
                let label = category_label(category);
                if old(self).spend_records@.len() >= u64::MAX || old(self).total_spent + amount > u128::MAX
                    || spent_on(old(self).category_spent@, label) + amount > u128::MAX {
                    r == Err::<u64, ContractError>(ContractError::Overflow)
                        && final(self).spend_records@ == old(self).spend_records@
                        && final(self).total_spent == old(self).total_spent
                } else {
                    let id = (old(self).spend_records@.len() + 1) as u64;
                    &&& r == Ok::<u64, ContractError>(id)
                    &&& final(self).total_spent == old(self).total_spent + amount
                    &&& final(self).spend_records@ == old(self).spend_records@.push(
                        SpendRecord { id, recipient, amount, category, memo, timestamp: now },
                    )
                    &&& spent_on(final(self).category_spent@, label) == spent_on(old(self).category_spent@, label) + amount
                    &&& forall|other: Seq<char>| other != label ==> #[trigger] spent_on(final(self).category_spent@, other)
                        == spent_on(old(self).category_spent@, other)
                }
            }),
    {
        if *caller != self.governance_contract {
            return Err(ContractError::Unauthorized { reason: "Only governance contract can authorize spending" });
        }
        let count = self.spend_records.len() as u64;
        if count == u64::MAX {
            return Err(ContractError::Overflow);
        }
        let total = match self.total_spent.checked_add(amount) {
            Some(v) => v,
            None => return Err(ContractError::Overflow),
        };
        let label = fund_category_label(&category);
        let pos = self.find_category(&label);
        let before = match pos {
            Some(i) => self.category_spent[i].1,
            None => 0,
        };
        let after = match before.checked_add(amount) {
            Some(v) => v,
            None => return Err(ContractError::Overflow),
        };
        let ghost old_spent = self.category_spent@;
        match pos {
            Some(i) => {
                self.category_spent.set(i, (label, after));
                proof {
                    let s = self.category_spent@;
                    assert forall|a: int, b: int| 0 <= a < b < s.len() implies (#[trigger] s[a]).0@ != (#[trigger] s[b]).0@ by {
                        assert(s[a].0@ == old_spent[a].0@ && s[b].0@ == old_spent[b].0@);
                    }
                    assert(s[i as int].0@ == category_label(category));
                    assert forall|other: Seq<char>| other != category_label(category) implies
                        #[trigger] spent_on(s, other) == spent_on(old_spent, other) by {
                        if exists|k: int| 0 <= k < s.len() && (#[trigger] s[k]).0@ == other {
                            let k = choose|k: int| 0 <= k < s.len() && (#[trigger] s[k]).0@ == other;
                            assert(old_spent[k].0@ == other);
                            let k2 = choose|k: int| 0 <= k < old_spent.len() && (#[trigger] old_spent[k]).0@ == other;
                            if k2 != k {
                                if k2 < k { assert(old_spent[k2].0@ != old_spent[k].0@); }
                                else { assert(old_spent[k].0@ != old_spent[k2].0@); }
                            }
                        } else {
                            if exists|k: int| 0 <= k < old_spent.len() && (#[trigger] old_spent[k]).0@ == other {
                                let k = choose|k: int| 0 <= k < old_spent.len() && (#[trigger] old_spent[k]).0@ == other;
                                assert(s[k].0@ == other);
                            }
                        }
                    }
                    assert(s[i as int].0@ == category_label(category));
                    let j = choose|j: int| 0 <= j < s.len() && (#[trigger] s[j]).0@ == category_label(category);
                    if j != i as int {
                        if j < i as int { assert(s[j].0@ != s[i as int].0@); }
                        else { assert(s[i as int].0@ != s[j].0@); }
                    }
                }
            },
            None => {
                self.category_spent.push((label, after));
                proof {
                    let s = self.category_spent@;
                    let n = old_spent.len() as int;
                    assert forall|a: int, b: int| 0 <= a < b < s.len() implies (#[trigger] s[a]).0@ != (#[trigger] s[b]).0@ by {
                        assert(s[a] == old_spent[a]);
                        if b < n { assert(s[b] == old_spent[b]); }
                    }
                    assert(s[n].0@ == category_label(category));
                    let j = choose|j: int| 0 <= j < s.len() && (#[trigger] s[j]).0@ == category_label(category);
                    if j < n {
                        assert(s[j] == old_spent[j]);
                    }
                    assert forall|other: Seq<char>| other != category_label(category) implies
                        #[trigger] spent_on(s, other) == spent_on(old_spent, other) by {
                        if exists|k: int| 0 <= k < s.len() && (#[trigger] s[k]).0@ == other {
                            let k = choose|k: int| 0 <= k < s.len() && (#[trigger] s[k]).0@ == other;
                            assert(k < n);
                            assert(s[k] == old_spent[k]);
                            let k2 = choose|k: int| 0 <= k < old_spent.len() && (#[trigger] old_spent[k]).0@ == other;
                            assert(s[k2] == old_spent[k2]);
                            if k2 != k {
                                if k2 < k { assert(s[k2].0@ != s[k].0@); }
                                else { assert(s[k].0@ != s[k2].0@); }
                            }
                        } else {
                            if exists|k: int| 0 <= k < old_spent.len() && (#[trigger] old_spent[k]).0@ == other {
                                let k = choose|k: int| 0 <= k < old_spent.len() && (#[trigger] old_spent[k]).0@ == other;
                                assert(s[k] == old_spent[k]);
                            }
                        }
                    }
                }
            },
        }
        self.total_spent = total;
        self.spend_records.push(SpendRecord { id: count + 1, recipient, amount, category, memo, timestamp: now });
        Ok(count + 1)
    }

    /// Ids of a page of spends, ascending, starting after `start_after`.
    pub fn spend_history(&self, start_after: Option<u64>, limit: Option<u32>) -> (r: Vec<u64>)
        requires
            self.wf(),
        ensures
            r@.len() == page_len(self.spend_records@.len() as int, start_after, limit),
            forall|k: int| 0 <= k < r@.len() ==> #[trigger] r@[k] == (match start_after {
                Some(v) => v as int,
                None => 0,
            }) + 1 + k,
    {
        page_ids(self.spend_records.len() as u64, start_after, limit)
    }

    /// What has been spent on `category`.
    pub fn category_spend(&self, category: &FundCategory) -> (r: u128)
        requires
            self.wf(),
        ensures
            r == spent_on(self.category_spent@, category_label(*category)),
    {
        let label = fund_category_label(category);
        match self.find_category(&label) {
            Some(i) => self.category_spent[i].1,
            None => 0,
        }
    }

    /// Replaces the allocation table; governance only, and the shares must
    /// add up to one whole.
    pub fn update_allocations(&mut self, caller: &String, allocations: Vec<(FundCategory, u64)>) -> (r: Result<(), ContractError>)
        requires
            old(self).wf(),
        ensures
            final(self).wf(),
            final(self).admin == old(self).admin,
            final(self).governance_contract == old(self).governance_contract,
            final(self).total_deposited == old(self).total_deposited,
            final(self).total_spent == old(self).total_spent,
            final(self).spend_records@ == old(self).spend_records@,
            final(self).category_spent@ == old(self).category_spent@,
            caller@ != old(self).governance_contract@ ==> r == Err::<(), ContractError>(
                ContractError::Unauthorized { reason: "Only governance can update allocations" },
            ) && final(self).allocations.allocations@ == old(self).allocations.allocations@,
            caller@ == old(self).governance_contract@ && bps_sum(allocations@) != BPS_SCALE ==> r == Err::<(), ContractError>(
                ContractError::InvalidAllocation { reason: "Must sum to 10000 bps" },
            ) && final(self).allocations.allocations@ == old(self).allocations.allocations@,
            caller@ == old(self).governance_contract@ && bps_sum(allocations@) == BPS_SCALE ==> r is Ok
                && final(self).allocations.allocations@ == allocations@,
    {
        if *caller != self.governance_contract {
            return Err(ContractError::Unauthorized { reason: "Only governance can update allocations" });
        }
        if !allocations_cover_whole(&allocations) {
            return Err(ContractError::InvalidAllocation { reason: "Must sum to 10000 bps" });
        }
        self.allocations = AllocationConfig { allocations };
        Ok(())
    }

    /// The allocation table.
    pub fn query_allocations(&self) -> (r: AllocationsResponse)
        ensures
            r.allocations@ == self.allocations.allocations@,
    {
        AllocationsResponse { allocations: copy_allocations(&self.allocations.allocations) }
    }

    /// How a balance of `balance` splits over the allocation table, each
    /// share rounded down.
    pub fn allocated_amounts(&self, balance: u128) -> (r: Vec<(FundCategory, u128)>)
        requires
            self.wf(),
        ensures
            r@.len() == self.allocations.allocations@.len(),
            forall|i: int| 0 <= i < r@.len() ==> {
                &&& (#[trigger] r@[i]).0 == self.allocations.allocations@[i].0
                &&& r@[i].1 as int == (balance as int) * (self.allocations.allocations@[i].1 as int) / (BPS_SCALE as int)
            },
    {
        let table = &self.allocations.allocations;
        let mut r: Vec<(FundCategory, u128)> = Vec::new();
        let mut i: usize = 0;
        while i < table.len()
            invariant
                bps_sum(table@) == BPS_SCALE,
                i <= table@.len(),
                r@.len() == i,
                forall|k: int| 0 <= k < i ==> {
                    &&& (#[trigger] r@[k]).0 == table@[k].0
                    &&& r@[k].1 as int == (balance as int) * (table@[k].1 as int) / (BPS_SCALE as int)
                },
            decreases table@.len() - i,
        {
            proof {
                lemma_share_within_sum(table@, i as int);
                assert((balance as int) * (table@[i as int].1 as int) / (BPS_SCALE as int) <= balance) by (nonlinear_arith)
                    requires table@[i as int].1 <= BPS_SCALE;
            }
            // No share exceeds the whole, so no share exceeds the balance.
            let amount = match mul_div_floor(balance, table[i].1, BPS_SCALE as u128) {
                Some(v) => v,
                None => balance,
            };
            r.push((copy_category(&table[i].0), amount));
            i += 1;
        }
        r
    }

    /// Hands the governance role to `governance_contract`; admin only.
    pub fn update_governance(&mut self, caller: &String, governance_contract: String) -> (r: Result<(), ContractError>)
        requires
            old(self).wf(),
        ensures
            final(self).wf(),
            final(self).admin == old(self).admin,
            final(self).total_deposited == old(self).total_deposited,
            final(self).total_spent == old(self).total_spent,
            final(self).spend_records@ == old(self).spend_records@,
            caller@ != old(self).admin@ ==> r == Err::<(), ContractError>(
                ContractError::Unauthorized { reason: "Only admin can update governance contract" },
            ) && final(self).governance_contract == old(self).governance_contract,
            caller@ == old(self).admin@ ==> r is Ok && final(self).governance_contract == governance_contract,
    {
        if *caller != self.admin {
            return Err(ContractError::Unauthorized { reason: "Only admin can update governance contract" });
        }
        self.governance_contract = governance_contract;
        Ok(())
    }

    /// Hands the admin role to `new_admin`; admin only.
    pub fn transfer_admin(&mut self, caller: &String, new_admin: String) -> (r: Result<(), ContractError>)
        requires
            old(self).wf(),
        ensures
            final(self).wf(),
            final(self).governance_contract == old(self).governance_contract,
            final(self).total_deposited == old(self).total_deposited,
            final(self).total_spent == old(self).total_spent,
            final(self).spend_records@ == old(self).spend_records@,
            caller@ != old(self).admin@ ==> r == Err::<(), ContractError>(
                ContractError::Unauthorized { reason: "Only admin can transfer admin" },
            ) && final(self).admin == old(self).admin,
            caller@ == old(self).admin@ ==> r is Ok && final(self).admin == new_admin,
    {
        if *caller != self.admin {
            return Err(ContractError::Unauthorized { reason: "Only admin can transfer admin" });
        }
        self.admin = new_admin;
        Ok(())
    }
}

} // verus!
