//! The reward ledger: stake deposits and withdrawals, lazy reward accrual
//! through a global index, an emission schedule capped by a maximum supply,
//! and slashing.

use vstd::prelude::*;
use crate::arith::{mul_div_floor, BPS_SCALE};
use crate::errors::ContractError;
use crate::paging::{page_ids, page_len};

verus! {

/// Fixed-point scale of the global reward index.
pub const REWARD_SCALE: u128 = 1_000_000_000_000;

/// A run of blocks emitting `tokens_per_block` each. `end_block` is
/// inclusive, and zero leaves the phase open-ended.
#[derive(Debug)]
pub struct EmissionPhase {
    pub label: String,
    pub start_block: u64,
    pub end_block: u64,
    pub tokens_per_block: u128,
}

#[derive(Debug, Clone, Copy, PartialEq, Eq, Structural)]
pub struct StakerInfo {
    pub staked: u128,
    pub reward_debt: u128,
    pub pending_rewards: u128,
    pub last_claim_height: u64,
}

#[derive(Debug)]
pub struct StakerEntry {
    pub address: String,
    pub info: StakerInfo,
}

/// One entry of the append-only slashing log.
#[derive(Debug)]
pub struct SlashEvent {
    pub id: u64,
    pub staker: String,
    pub amount: u128,
    pub reason: String,
    pub height: u64,
}

/// The ledger-wide counters.
#[derive(Debug, Clone, Copy, PartialEq, Eq, Structural)]
pub struct GlobalRewardState {
    /// Cumulative reward per staked unit, scaled by `REWARD_SCALE`.
    pub global_index: u128,
    pub last_distribution_height: u64,
    pub total_staked: u128,
    pub total_minted: u128,
    pub total_slashed: u128,
}

#[derive(Debug)]
pub struct StakingConfig {
    pub admin: String,
    pub denom: String,
    pub max_supply: u128,
    pub treasury: String,
    pub treasury_share_bps: u64,
    pub slash_penalty_bps: u64,
    pub phases: Vec<EmissionPhase>,
}

#[derive(Debug)]
pub struct StakingLedger {
    pub config: StakingConfig,
    pub state: GlobalRewardState,
    pub total_stakers: u64,
    pub stakers: Vec<StakerEntry>,
    pub slash_events: Vec<SlashEvent>,
}

pub open spec fn phase_matches(p: EmissionPhase, height: u64) -> bool {
    height >= p.start_block && (p.end_block == 0 || height <= p.end_block)
}

/// Rate of the first phase from index `i` on that matches `height`, or zero.
pub open spec fn rate_from(phases: Seq<EmissionPhase>, height: u64, i: int) -> u128
    decreases phases.len() - i,
{
    if i < 0 || i >= phases.len() {
        0
    } else if phase_matches(phases[i], height) {
        phases[i].tokens_per_block
    } else {
        rate_from(phases, height, i + 1)
    }
}

/// Emission per block at `height`: the first matching phase decides.
pub open spec fn emission_rate_spec(phases: Seq<EmissionPhase>, height: u64) -> u128 {
    rate_from(phases, height, 0)
}

/// Index of the first phase matching `height`, if any.
pub fn active_phase(phases: &Vec<EmissionPhase>, height: u64) -> (r: Option<usize>)
    ensures
        match r {
            Some(i) => i < phases@.len() && phase_matches(phases@[i as int], height)
                && emission_rate_spec(phases@, height) == phases@[i as int].tokens_per_block
                && forall|k: int| 0 <= k < i ==> !phase_matches(#[trigger] phases@[k], height),
            None => emission_rate_spec(phases@, height) == 0
                && forall|k: int| 0 <= k < phases@.len() ==> !phase_matches(#[trigger] phases@[k], height),
        },
{
    let mut i: usize = 0;
    while i < phases.len()
        invariant
            i <= phases@.len(),
            rate_from(phases@, height, 0) == rate_from(phases@, height, i as int),
            forall|k: int| 0 <= k < i ==> !phase_matches(#[trigger] phases@[k], height),
        decreases phases@.len() - i,
    {
        let p = &phases[i];
        if height >= p.start_block && (p.end_block == 0 || height <= p.end_block) {
            return Some(i);
        }
        i += 1;
    }
    None
}

/// Emission per block at `height`.
pub fn get_emission_rate(phases: &Vec<EmissionPhase>, height: u64) -> (r: u128)
    ensures
        r == emission_rate_spec(phases@, height),
{
    match active_phase(phases, height) {
        Some(i) => phases[i].tokens_per_block,
        None => 0,
    }
}

/// `staked * index / REWARD_SCALE`, the reward a stake has earned since the
/// index stood at zero.
pub open spec fn earned(staked: u128, index: u128) -> int {
    (staked as int) * (index as int) / (REWARD_SCALE as int)
}

/// Reward accrued since the debt was pinned, never negative.
pub open spec fn accrued(a: StakerInfo, index: u128) -> int {
    if earned(a.staked, index) > a.reward_debt {
        earned(a.staked, index) - a.reward_debt
    } else {
        0
    }
}

/// What an account may claim at `index`.
pub open spec fn claimable(a: StakerInfo, index: u128) -> int {
    a.pending_rewards + accrued(a, index)
}

/// The account with its accrued reward folded into `pending_rewards`.
pub open spec fn accrue_spec(a: StakerInfo, index: u128) -> Result<StakerInfo, ContractError> {
    if (a.staked as int) * (index as int) > u128::MAX || claimable(a, index) > u128::MAX {
        Err(ContractError::Overflow)
    } else {
        Ok(StakerInfo { pending_rewards: claimable(a, index) as u128, ..a })
    }
}

/// The account with its stake set to `staked` and its debt pinned to it.
pub open spec fn repin_spec(a: StakerInfo, staked: u128, index: u128) -> Result<StakerInfo, ContractError> {
    if (staked as int) * (index as int) > u128::MAX {
        Err(ContractError::Overflow)
    } else {
        Ok(StakerInfo { staked, reward_debt: earned(staked, index) as u128, ..a })
    }
}

fn accrue(a: StakerInfo, index: u128) -> (r: Result<StakerInfo, ContractError>)
    ensures
        r == accrue_spec(a, index),
{
    let e = match a.staked.checked_mul(index) {
        Some(v) => v / REWARD_SCALE,
        None => return Err(ContractError::Overflow),
    };
    let gained = if e > a.reward_debt { e - a.reward_debt } else { 0 };
    match a.pending_rewards.checked_add(gained) {
        Some(p) => Ok(StakerInfo { pending_rewards: p, ..a }),
        None => Err(ContractError::Overflow),
    }
}

fn repin(a: StakerInfo, staked: u128, index: u128) -> (r: Result<StakerInfo, ContractError>)
    ensures
        r == repin_spec(a, staked, index),
{
    match staked.checked_mul(index) {
        Some(v) => Ok(StakerInfo { staked, reward_debt: v / REWARD_SCALE, ..a }),
        None => Err(ContractError::Overflow),
    }
}

/// Accounts by address; a later entry shadows an earlier one, though the
/// ledger keeps addresses unique.
pub open spec fn accounts_of(s: Seq<StakerEntry>) -> Map<Seq<char>, StakerInfo>
    decreases s.len(),
{
    if s.len() == 0 {
        Map::empty()
    } else {
        accounts_of(s.drop_last()).insert(s.last().address@, s.last().info)
    }
}

/// Sum of every entry's stake.
pub open spec fn sum_staked(s: Seq<StakerEntry>) -> int
    decreases s.len(),
{
    if s.len() == 0 {
        0
    } else {
        sum_staked(s.drop_last()) + s.last().info.staked
    }
}

/// Number of entries holding stake.
pub open spec fn count_staked(s: Seq<StakerEntry>) -> int
    decreases s.len(),
{
    if s.len() == 0 {
        0
    } else {
        count_staked(s.drop_last()) + if s.last().info.staked > 0 { 1int } else { 0int }
    }
}

pub open spec fn unique_addresses(s: Seq<StakerEntry>) -> bool {
    forall|i: int, j: int| 0 <= i < j < s.len() ==> (#[trigger] s[i]).address@ != (#[trigger] s[j]).address@
}

impl StakingLedger {
    /// Addresses are unique, `total_staked` is the sum of every account's
    /// stake, `total_stakers` counts the accounts holding stake, the penalty is at most the whole stake, and slash ids are dense.
    pub open spec fn wf(&self) -> bool {
        &&& unique_addresses(self.stakers@)
        &&& self.state.total_staked == sum_staked(self.stakers@)
        &&& self.total_stakers == count_staked(self.stakers@)
        &&& self.config.slash_penalty_bps <= BPS_SCALE
        &&& self.slash_events@.len() <= u64::MAX
        &&& forall|i: int| 0 <= i < self.slash_events@.len() ==> #[trigger] self.slash_events@[i].id == i + 1
    }

    /// Accounts by address.
    pub open spec fn accounts(&self) -> Map<Seq<char>, StakerInfo> {
        accounts_of(self.stakers@)
    }

    /// The account of `addr`, or a fresh empty one opened at `now`.
    pub open spec fn account_or_new(&self, addr: Seq<char>, now: u64) -> StakerInfo {
        if self.accounts().contains_key(addr) {
            self.accounts()[addr]
        } else {
            StakerInfo { staked: 0, reward_debt: 0, pending_rewards: 0, last_claim_height: now }
        }
    }

    /// The counters after bringing emissions up to height `now`, and the
    /// treasury's share of what was emitted.
    pub open spec fn sync_spec(&self, now: u64) -> Result<(GlobalRewardState, u128), ContractError> {
        let g = self.state;
        if now <= g.last_distribution_height {
            Ok((g, 0u128))
        } else if g.total_staked == 0 {
            Ok((GlobalRewardState { last_distribution_height: now, ..g }, 0u128))
        } else {
            let remaining: int = if self.config.max_supply > g.total_minted {
                self.config.max_supply - g.total_minted
            } else {
                0
            };
            let wanted: int = emission_rate_spec(self.config.phases@, now) * (now - g.last_distribution_height);
            let raw: int = if wanted < remaining { wanted } else { remaining };
            let treasury: int = raw * self.config.treasury_share_bps / (BPS_SCALE as int);
            let share: int = raw - treasury;
            let increase: int = share * (REWARD_SCALE as int) / (g.total_staked as int);
            if wanted > u128::MAX || treasury > raw || share * (REWARD_SCALE as int) > u128::MAX
                || g.global_index + increase > u128::MAX {
                Err(ContractError::Overflow)
            } else {
                Ok((
                    GlobalRewardState {
                        global_index: (g.global_index + increase) as u128,
                        last_distribution_height: now,
                        total_minted: (g.total_minted + raw) as u128,
                        ..g
                    },
                    treasury as u128,
                ))
            }
        }
    }

    /// Computes the emission owed since the last distribution, without
    /// storing it.
    fn sync(&self, now: u64) -> (r: Result<(GlobalRewardState, u128), ContractError>)
        ensures
            r == self.sync_spec(now),
    {
        let g = self.state;
        if now <= g.last_distribution_height {
            return Ok((g, 0));
        }
        if g.total_staked == 0 {
            return Ok((GlobalRewardState { last_distribution_height: now, ..g }, 0));
        }
        let remaining: u128 = if self.config.max_supply > g.total_minted {
            self.config.max_supply - g.total_minted
        } else {
            0
        };
        let rate = get_emission_rate(&self.config.phases, now);
        let blocks = (now - g.last_distribution_height) as u128;
        let raw: u128 = match rate.checked_mul(blocks) {
            Some(w) => if w < remaining { w } else { remaining },
            None => return Err(ContractError::Overflow),
        };
        let treasury = match mul_div_floor(raw, self.config.treasury_share_bps, BPS_SCALE as u128) {
            Some(t) => t,
            None => return Err(ContractError::Overflow),
        };
        if treasury > raw {
            return Err(ContractError::Overflow);
        }
        let share = raw - treasury;
        let scaled = match share.checked_mul(REWARD_SCALE) {
            Some(v) => v,
            None => return Err(ContractError::Overflow),
        };
        let increase = scaled / g.total_staked;
        let index = match g.global_index.checked_add(increase) {
            Some(v) => v,
            None => return Err(ContractError::Overflow),
        };
        Ok((
            GlobalRewardState {
                global_index: index,
                last_distribution_height: now,
                total_minted: g.total_minted + raw,
                ..g
            },
            treasury,
        ))
    }

    /// Writes `info` as the account of `addr`, in place when `pos` found it,
    /// appended otherwise.
    fn store_account(&mut self, pos: Option<usize>, addr: String, info: StakerInfo)
        requires
            unique_addresses(old(self).stakers@),
            match pos {
                Some(i) => i < old(self).stakers@.len() && old(self).stakers@[i as int].address@ == addr@,
                None => !old(self).accounts().contains_key(addr@),
            },
        ensures
            unique_addresses(final(self).stakers@),
            final(self).accounts() == old(self).accounts().insert(addr@, info),
            sum_staked(final(self).stakers@) == sum_staked(old(self).stakers@)
                - old(self).account_or_new(addr@, 0).staked + info.staked,
            count_staked(final(self).stakers@) == count_staked(old(self).stakers@)
                - (if old(self).account_or_new(addr@, 0).staked > 0 { 1int } else { 0int })
                + (if info.staked > 0 { 1int } else { 0int }),
            final(self).config == old(self).config,
            final(self).state == old(self).state,
            final(self).total_stakers == old(self).total_stakers,
            final(self).slash_events@ == old(self).slash_events@,
    {
        let e = StakerEntry { address: addr, info };
        match pos {
            Some(i) => {
                proof {
                    lemma_accounts_index(self.stakers@, i as int);
                    lemma_update_entry(self.stakers@, i as int, e);
                }
                self.stakers.set(i, e);
            },
            None => {
                proof {
                    lemma_push_entry(self.stakers@, e);
                }
                self.stakers.push(e);
            },
        }
    }

    /// A ledger with no stake, `initial_supply` already minted and the
    /// distribution clock started at `now`. A penalty above the whole stake
    /// is refused.
    pub fn new(
        admin: String,
        denom: String,
        max_supply: u128,
        initial_supply: u128,
        phases: Vec<EmissionPhase>,
        treasury: String,
        treasury_share_bps: u64,
        slash_penalty_bps: u64,
        now: u64,
    ) -> (r: Result<Self, ContractError>)
        ensures
            slash_penalty_bps > BPS_SCALE ==> r == Err::<Self, ContractError>(
                ContractError::Slashing { reason: "Slash penalty cannot exceed 100% (10000 bps)" },
            ),
            slash_penalty_bps <= BPS_SCALE ==> (r matches Ok(l) && {
                &&& l.wf()
                &&& l.config == (StakingConfig { admin, denom, max_supply, treasury, treasury_share_bps, slash_penalty_bps, phases })
                &&& l.state == (GlobalRewardState {
                    global_index: 0,
                    last_distribution_height: now,
                    total_staked: 0,
                    total_minted: initial_supply,
                    total_slashed: 0,
                })
                &&& l.total_stakers == 0
                &&& l.stakers@.len() == 0
                &&& l.slash_events@.len() == 0
            }),
    {
        if slash_penalty_bps > BPS_SCALE {
            return Err(ContractError::Slashing { reason: "Slash penalty cannot exceed 100% (10000 bps)" });
        }
        let l = StakingLedger {
            config: StakingConfig { admin, denom, max_supply, treasury, treasury_share_bps, slash_penalty_bps, phases },
            state: GlobalRewardState {
                global_index: 0,
                last_distribution_height: now,
                total_staked: 0,
                total_minted: initial_supply,
                total_slashed: 0,
            },
            total_stakers: 0,
            stakers: Vec::new(),
            slash_events: Vec::new(),
        };
        assert(sum_staked(l.stakers@) == 0);
        Ok(l)
    }

    /// The counters and the account after a stake of `amount` by `addr`, and
    /// the new staker count.
    pub open spec fn stake_spec(&self, addr: Seq<char>, amount: u128, now: u64) -> Result<(GlobalRewardState, StakerInfo, u64), ContractError> {
        if amount == 0 {
            Err(ContractError::InsufficientFunds { needed: 1, available: 0 })
        } else {
            match self.sync_spec(now) {
                Err(e) => Err(e),
                Ok((g, _)) => {
                    let prior = self.account_or_new(addr, now);
                    match accrue_spec(prior, g.global_index) {
                        Err(e) => Err(e),
                        Ok(a) => if a.staked + amount > u128::MAX || g.total_staked + amount > u128::MAX {
                            Err(ContractError::Overflow)
                        } else {
                            match repin_spec(a, (a.staked + amount) as u128, g.global_index) {
                                Err(e) => Err(e),
                                Ok(b) => if prior.staked == 0 && self.total_stakers == u64::MAX {
                                    Err(ContractError::Overflow)
                                } else {
                                    Ok((
                                        GlobalRewardState { total_staked: (g.total_staked + amount) as u128, ..g },
                                        b,
                                        if prior.staked == 0 { (self.total_stakers + 1) as u64 } else { self.total_stakers },
                                    ))
                                },
                            }
                        },
                    }
                },
            }
        }
    }

    /// Deposits `amount` for `staker` at height `now`: emissions are brought
    /// up to date, the reward accrued so far is set aside, and the debt is
    /// pinned to the new stake. Returns the treasury's share of the emission
    /// just brought up to date, for the caller to forward.
    pub fn stake(&mut self, staker: String, amount: u128, now: u64) -> (r: Result<u128, ContractError>)
        requires
            old(self).wf(),
        ensures
            final(self).wf(),
            final(self).config == old(self).config,
            final(self).slash_events@ == old(self).slash_events@,
            match old(self).stake_spec(staker@, amount, now) {
                Ok((g, a, n)) => r == Ok::<u128, ContractError>(old(self).sync_spec(now)->Ok_0.1) && final(self).state == g && final(self).total_stakers == n
                    && final(self).accounts() == old(self).accounts().insert(staker@, a),
                Err(e) => r == Err::<u128, ContractError>(e) && final(self).state == old(self).state
                    && final(self).total_stakers == old(self).total_stakers
                    && final(self).stakers@ == old(self).stakers@,
            },
    {
        if amount == 0 {
            return Err(ContractError::InsufficientFunds { needed: 1, available: 0 });
        }
        let (g, treasury) = match self.sync(now) {
            Ok(x) => x,
            Err(e) => return Err(e),
        };
        let pos = self.find_staker(&staker);
        let prior = match pos {
            Some(i) => self.stakers[i].info,
            None => StakerInfo { staked: 0, reward_debt: 0, pending_rewards: 0, last_claim_height: now },
        };
        proof {
            if let Some(i) = pos {
                lemma_accounts_index(self.stakers@, i as int);
            }
        }
        assert(prior == self.account_or_new(staker@, now));
        let a = match accrue(prior, g.global_index) {
            Ok(a) => a,
            Err(e) => return Err(e),
        };
        let new_staked = match a.staked.checked_add(amount) {
            Some(v) => v,
            None => return Err(ContractError::Overflow),
        };
        let total = match g.total_staked.checked_add(amount) {
            Some(v) => v,
            None => return Err(ContractError::Overflow),
        };
        let b = match repin(a, new_staked, g.global_index) {
            Ok(b) => b,
            Err(e) => return Err(e),
        };
        let count = if prior.staked == 0 {
            match self.total_stakers.checked_add(1) {
                Some(v) => v,
                None => return Err(ContractError::Overflow),
            }
        } else {
            self.total_stakers
        };
        self.store_account(pos, staker, b);
        self.state = GlobalRewardState { total_staked: total, ..g };
        self.total_stakers = count;
        Ok(treasury)
    }

    /// The counters and the account after `addr` withdraws `amount`, and
    /// the new staker count.
    pub open spec fn unstake_spec(&self, addr: Seq<char>, amount: u128, now: u64) -> Result<(GlobalRewardState, StakerInfo, u64), ContractError> {
        match self.sync_spec(now) {
            Err(e) => Err(e),
            Ok((g, _)) => if !self.accounts().contains_key(addr) {
                Err(ContractError::InsufficientStake { needed: amount, available: 0 })
            } else if self.accounts()[addr].staked < amount {
                Err(ContractError::InsufficientStake { needed: amount, available: self.accounts()[addr].staked })
            } else {
                match accrue_spec(self.accounts()[addr], g.global_index) {
                    Err(e) => Err(e),
                    Ok(a) => match repin_spec(a, (a.staked - amount) as u128, g.global_index) {
                        Err(e) => Err(e),
                        Ok(b) => Ok((
                            GlobalRewardState { total_staked: (g.total_staked - amount) as u128, ..g },
                            b,
                            if b.staked == 0 && self.accounts()[addr].staked > 0 {
                                (self.total_stakers - 1) as u64
                            } else {
                                self.total_stakers
                            },
                        )),
                    },
                }
            },
        }
    }

    /// Withdraws `amount` of `staker`'s stake at height `now`. Rewards accrued
    /// so far are set aside. Returns the amount released to the caller and the
    /// treasury's share of the emission just brought up to date.
    pub fn unstake(&mut self, staker: &String, amount: u128, now: u64) -> (r: Result<(u128, u128), ContractError>)
        requires
            old(self).wf(),
        ensures
            final(self).wf(),
            final(self).config == old(self).config,
            final(self).slash_events@ == old(self).slash_events@,
            match old(self).unstake_spec(staker@, amount, now) {
                Ok((g, a, n)) => r == Ok::<(u128, u128), ContractError>((amount, old(self).sync_spec(now)->Ok_0.1)) && final(self).state == g
                    && final(self).total_stakers == n
                    && final(self).accounts() == old(self).accounts().insert(staker@, a),
                Err(e) => r == Err::<(u128, u128), ContractError>(e) && final(self).state == old(self).state
                    && final(self).total_stakers == old(self).total_stakers
                    && final(self).stakers@ == old(self).stakers@,
            },
    {
        let (g, treasury) = match self.sync(now) {
            Ok(x) => x,
            Err(e) => return Err(e),
        };
        let i = match self.find_staker(staker) {
            Some(i) => i,
            None => return Err(ContractError::InsufficientStake { needed: amount, available: 0 }),
        };
        let prior = self.stakers[i].info;
        proof {
            lemma_accounts_index(self.stakers@, i as int);
            lemma_sum_at_least(self.stakers@, i as int);
        }
        if prior.staked < amount {
            return Err(ContractError::InsufficientStake { needed: amount, available: prior.staked });
        }
        let a = match accrue(prior, g.global_index) {
            Ok(a) => a,
            Err(e) => return Err(e),
        };
        let b = match repin(a, a.staked - amount, g.global_index) {
            Ok(b) => b,
            Err(e) => return Err(e),
        };
        proof {
            if prior.staked > 0 {
                lemma_count_at_least_one(self.stakers@, i as int);
            }
        }
        let count = if b.staked == 0 && prior.staked > 0 { self.total_stakers - 1 } else { self.total_stakers };
        let addr = self.stakers[i].address.clone();
        self.store_account(Some(i), addr, b);
        self.state = GlobalRewardState { total_staked: g.total_staked - amount, ..g };
        self.total_stakers = count;
        Ok((amount, treasury))
    }

    /// The counters and the account after `addr` claims, and the payout.
    pub open spec fn claim_spec(&self, addr: Seq<char>, now: u64) -> Result<(GlobalRewardState, StakerInfo, u128), ContractError> {
        match self.sync_spec(now) {
            Err(e) => Err(e),
            Ok((g, _)) => if !self.accounts().contains_key(addr) {
                Err(ContractError::NothingToClaim)
            } else {
                match accrue_spec(self.accounts()[addr], g.global_index) {
                    Err(e) => Err(e),
                    Ok(a) => if a.pending_rewards == 0 {
                        Err(ContractError::NothingToClaim)
                    } else {
                        match repin_spec(a, a.staked, g.global_index) {
                            Err(e) => Err(e),
                            Ok(b) => Ok((
                                g,
                                StakerInfo { pending_rewards: 0, last_claim_height: now, ..b },
                                a.pending_rewards,
                            )),
                        }
                    },
                }
            },
        }
    }

    /// Pays out everything `staker` has earned up to height `now`. Returns the
    /// payout and the treasury's share of the emission just brought up to
    /// date.
    pub fn claim(&mut self, staker: &String, now: u64) -> (r: Result<(u128, u128), ContractError>)
        requires
            old(self).wf(),
        ensures
            final(self).wf(),
            final(self).config == old(self).config,
            final(self).slash_events@ == old(self).slash_events@,
            final(self).total_stakers == old(self).total_stakers,
            match old(self).claim_spec(staker@, now) {
                Ok((g, a, paid)) => r == Ok::<(u128, u128), ContractError>((paid, old(self).sync_spec(now)->Ok_0.1)) && final(self).state == g
                    && final(self).accounts() == old(self).accounts().insert(staker@, a),
                Err(e) => r == Err::<(u128, u128), ContractError>(e) && final(self).state == old(self).state
                    && final(self).stakers@ == old(self).stakers@,
            },
    {
        let (g, treasury) = match self.sync(now) {
            Ok(x) => x,
            Err(e) => return Err(e),
        };
        let i = match self.find_staker(staker) {
            Some(i) => i,
            None => return Err(ContractError::NothingToClaim),
        };
        let prior = self.stakers[i].info;
        proof {
            lemma_accounts_index(self.stakers@, i as int);
        }
        let a = match accrue(prior, g.global_index) {
            Ok(a) => a,
            Err(e) => return Err(e),
        };
        if a.pending_rewards == 0 {
            return Err(ContractError::NothingToClaim);
        }
        let b = match repin(a, a.staked, g.global_index) {
            Ok(b) => b,
            Err(e) => return Err(e),
        };
        let addr = self.stakers[i].address.clone();
        self.store_account(Some(i), addr, StakerInfo { pending_rewards: 0, last_claim_height: now, ..b });
        self.state = g;
        Ok((a.pending_rewards, treasury))
    }

    /// Brings emissions up to height `now` and returns the treasury's share,
    /// for the caller to forward.
    pub fn distribute(&mut self, now: u64) -> (r: Result<u128, ContractError>)
        requires
            old(self).wf(),
        ensures
            final(self).wf(),
            final(self).config == old(self).config,
            final(self).stakers@ == old(self).stakers@,
            final(self).slash_events@ == old(self).slash_events@,
            final(self).total_stakers == old(self).total_stakers,
            match old(self).sync_spec(now) {
                Ok((g, t)) => r == Ok::<u128, ContractError>(t) && final(self).state == g,
                Err(e) => r == Err::<u128, ContractError>(e) && final(self).state == old(self).state,
            },
    {
        match self.sync(now) {
            Ok((g, t)) => {
                self.state = g;
                Ok(t)
            },
            Err(e) => Err(e),
        }
    }

    /// The counters, the account and the staker count after `caller` slashes
    /// `addr`, and the amount taken.
    pub open spec fn slash_spec(&self, caller: Seq<char>, addr: Seq<char>) -> Result<(GlobalRewardState, StakerInfo, u64, u128), ContractError> {
        if caller != self.config.admin@ {
            Err(ContractError::Unauthorized { reason: "Only admin/governance can slash" })
        } else if self.config.slash_penalty_bps == 0 {
            Err(ContractError::Slashing { reason: "Slashing is disabled (penalty = 0)" })
        } else if !self.accounts().contains_key(addr) {
            Err(ContractError::Slashing { reason: "Staker not found" })
        } else if self.accounts()[addr].staked == 0 {
            Err(ContractError::Slashing { reason: "Staker has nothing staked" })
        } else {
            let a = self.accounts()[addr];
            let amount: int = (a.staked as int) * (self.config.slash_penalty_bps as int) / (BPS_SCALE as int);
            let g = self.state;
            if g.total_slashed + amount > u128::MAX || self.slash_events@.len() >= u64::MAX {
                Err(ContractError::Overflow)
            } else {
                Ok((
                    GlobalRewardState {
                        total_staked: (g.total_staked - amount) as u128,
                        total_slashed: (g.total_slashed + amount) as u128,
                        ..g
                    },
                    StakerInfo { staked: (a.staked - amount) as u128, ..a },
                    if a.staked - amount == 0 { (self.total_stakers - 1) as u64 } else { self.total_stakers },
                    amount as u128,
                ))
            }
        }
    }

    /// Takes `slash_penalty_bps` of `staker`'s stake, rounded down, and logs
    /// the event with `reason` at height `now`; admin only. The reward debt is
    /// left as it was.
    pub fn slash(&mut self, caller: &String, staker: String, reason: String, now: u64) -> (r: Result<u128, ContractError>)
        requires
            old(self).wf(),
        ensures
            final(self).wf(),
            final(self).config == old(self).config,
            match old(self).slash_spec(caller@, staker@) {
                Ok((g, a, n, amount)) => r == Ok::<u128, ContractError>(amount) && final(self).state == g
                    && final(self).total_stakers == n
                    && final(self).accounts() == old(self).accounts().insert(staker@, a)
                    && final(self).slash_events@ == old(self).slash_events@.push(SlashEvent {
                        id: (old(self).slash_events@.len() + 1) as u64,
                        staker,
                        amount,
                        reason,
                        height: now,
                    }),
                Err(e) => r == Err::<u128, ContractError>(e) && final(self).state == old(self).state
                    && final(self).total_stakers == old(self).total_stakers
                    && final(self).stakers@ == old(self).stakers@
                    && final(self).slash_events@ == old(self).slash_events@,
            },
    {
        if *caller != self.config.admin {
            return Err(ContractError::Unauthorized { reason: "Only admin/governance can slash" });
        }
        if self.config.slash_penalty_bps == 0 {
            return Err(ContractError::Slashing { reason: "Slashing is disabled (penalty = 0)" });
        }
        let i = match self.find_staker(&staker) {
            Some(i) => i,
            None => return Err(ContractError::Slashing { reason: "Staker not found" }),
        };
        let a = self.stakers[i].info;
        proof {
            lemma_accounts_index(self.stakers@, i as int);
            lemma_sum_at_least(self.stakers@, i as int);
        }
        if a.staked == 0 {
            return Err(ContractError::Slashing { reason: "Staker has nothing staked" });
        }
        let amount = match mul_div_floor(a.staked, self.config.slash_penalty_bps, BPS_SCALE as u128) {
            Some(v) => v,
            None => return Err(ContractError::Overflow),
        };
        assert(amount <= a.staked) by (nonlinear_arith)
            requires
                amount as int == (a.staked as int) * (self.config.slash_penalty_bps as int) / (BPS_SCALE as int),
                self.config.slash_penalty_bps <= BPS_SCALE;
        let total_slashed = match self.state.total_slashed.checked_add(amount) {
            Some(v) => v,
            None => return Err(ContractError::Overflow),
        };
        let id = self.slash_events.len() as u64;
        if id == u64::MAX {
            return Err(ContractError::Overflow);
        }
        let b = StakerInfo { staked: a.staked - amount, ..a };
        proof {
            lemma_count_at_least_one(self.stakers@, i as int);
        }
        let count = if b.staked == 0 { self.total_stakers - 1 } else { self.total_stakers };
        let addr = self.stakers[i].address.clone();
        self.store_account(Some(i), addr, b);
        self.state = GlobalRewardState {
            total_staked: self.state.total_staked - amount,
            total_slashed,
            ..self.state
        };
        self.total_stakers = count;
        self.slash_events.push(SlashEvent { id: id + 1, staker, amount, reason, height: now });
        Ok(amount)
    }

    /// Replaces the emission schedule; admin only.
    pub fn update_phases(&mut self, caller: &String, phases: Vec<EmissionPhase>) -> (r: Result<(), ContractError>)
        requires
            old(self).wf(),
        ensures
            final(self).wf(),
            final(self).state == old(self).state,
            final(self).stakers@ == old(self).stakers@,
            final(self).slash_events@ == old(self).slash_events@,
            final(self).total_stakers == old(self).total_stakers,
            caller@ != old(self).config.admin@ ==> r == Err::<(), ContractError>(
                ContractError::Unauthorized { reason: "Only admin can update emission phases" },
            ) && final(self).config == old(self).config,
            caller@ == old(self).config.admin@ ==> r is Ok
                && final(self).config == (StakingConfig { phases, ..old(self).config }),
    {
        if *caller != self.config.admin {
            return Err(ContractError::Unauthorized { reason: "Only admin can update emission phases" });
        }
        self.config.phases = phases;
        Ok(())
    }

    /// Sets the slashing penalty; admin only, and at most the whole stake.
    pub fn update_slash_penalty(&mut self, caller: &String, slash_penalty_bps: u64) -> (r: Result<(), ContractError>)
        requires
            old(self).wf(),
        ensures
            final(self).wf(),
            final(self).state == old(self).state,
            final(self).stakers@ == old(self).stakers@,
            final(self).slash_events@ == old(self).slash_events@,
            final(self).total_stakers == old(self).total_stakers,
            caller@ != old(self).config.admin@ ==> r == Err::<(), ContractError>(
                ContractError::Unauthorized { reason: "Only admin can update slash penalty" },
            ) && final(self).config == old(self).config,
            caller@ == old(self).config.admin@ && slash_penalty_bps > BPS_SCALE ==> r == Err::<(), ContractError>(
                ContractError::Slashing { reason: "Slash penalty cannot exceed 100% (10000 bps)" },
            ) && final(self).config == old(self).config,
            caller@ == old(self).config.admin@ && slash_penalty_bps <= BPS_SCALE ==> r is Ok
                && final(self).config == (StakingConfig { slash_penalty_bps, ..old(self).config }),
    {
        if *caller != self.config.admin {
            return Err(ContractError::Unauthorized { reason: "Only admin can update slash penalty" });
        }
        if slash_penalty_bps > BPS_SCALE {
            return Err(ContractError::Slashing { reason: "Slash penalty cannot exceed 100% (10000 bps)" });
        }
        self.config.slash_penalty_bps = slash_penalty_bps;
        Ok(())
    }

    /// The account of `addr` as stored, or an empty one.
    pub fn staker(&self, addr: &String) -> (r: StakerInfo)
        requires
            self.wf(),
        ensures
            r == self.account_or_new(addr@, 0),
    {
        match self.find_staker(addr) {
            Some(i) => {
                proof {
                    lemma_accounts_index(self.stakers@, i as int);
                }
                self.stakers[i].info
            },
            None => StakerInfo { staked: 0, reward_debt: 0, pending_rewards: 0, last_claim_height: 0 },
        }
    }

    /// What `addr` could claim at the stored index, before any new emission.
    /// A product out of range counts as no accrual.
    pub fn pending_rewards(&self, addr: &String) -> (r: Result<u128, ContractError>)
        requires
            self.wf(),
        ensures
            ({
                let a = self.account_or_new(addr@, 0);
                let gained: int = if (a.staked as int) * (self.state.global_index as int) > u128::MAX {
                    0
                } else {
                    accrued(a, self.state.global_index)
                };
                if a.pending_rewards + gained > u128::MAX {
                    r == Err::<u128, ContractError>(ContractError::Overflow)
                } else {
                    r == Ok::<u128, ContractError>((a.pending_rewards + gained) as u128)
                }
            }),
    {
        let a = self.staker(addr);
        let gained: u128 = match a.staked.checked_mul(self.state.global_index) {
            Some(v) => {
                let e = v / REWARD_SCALE;
                if e > a.reward_debt { e - a.reward_debt } else { 0 }
            },
            None => 0,
        };
        match a.pending_rewards.checked_add(gained) {
            Some(v) => Ok(v),
            None => Err(ContractError::Overflow),
        }
    }

    /// Amount still to be minted before the maximum supply is reached.
    pub fn remaining_to_mint(&self) -> (r: u128)
        ensures
            r == (if self.config.max_supply > self.state.total_minted {
                self.config.max_supply - self.state.total_minted
            } else {
                0
            }),
    {
        if self.config.max_supply > self.state.total_minted {
            self.config.max_supply - self.state.total_minted
        } else {
            0
        }
    }

    /// Index of the phase active at `height`, and the blocks left in it
    /// (`u64::MAX` for an open-ended phase).
    pub fn current_phase(&self, height: u64) -> (r: Option<(usize, u64)>)
        ensures
            match r {
                Some((i, left)) => i < self.config.phases@.len()
                    && phase_matches(self.config.phases@[i as int], height)
                    && forall|k: int| 0 <= k < i ==> !phase_matches(#[trigger] self.config.phases@[k], height)
                    && left == (if self.config.phases@[i as int].end_block == 0 {
                        u64::MAX as int
                    } else {
                        self.config.phases@[i as int].end_block - height
                    }),
                None => forall|k: int| 0 <= k < self.config.phases@.len() ==> !phase_matches(#[trigger] self.config.phases@[k], height),
            },
    {
        match active_phase(&self.config.phases, height) {
            Some(i) => {
                let end = self.config.phases[i].end_block;
                let left = if end == 0 { u64::MAX } else { end - height };
                Some((i, left))
            },
            None => None,
        }
    }

    /// Ids of a page of slash events, ascending, starting after
    /// `start_after`.
    pub fn slash_history(&self, start_after: Option<u64>, limit: Option<u32>) -> (r: Vec<u64>)
        requires
            self.wf(),
        ensures
            r@.len() == page_len(self.slash_events@.len() as int, start_after, limit),
            forall|k: int| 0 <= k < r@.len() ==> #[trigger] r@[k] == (match start_after {
                Some(v) => v as int,
                None => 0,
            }) + 1 + k,
    {
        page_ids(self.slash_events.len() as u64, start_after, limit)
    }

    fn find_staker(&self, addr: &String) -> (r: Option<usize>)
        ensures
            match r {
                Some(i) => i < self.stakers@.len() && self.stakers@[i as int].address@ == addr@,
                None => !self.accounts().contains_key(addr@),
            },
    {
        let mut i: usize = 0;
        while i < self.stakers.len()
            invariant
                i <= self.stakers@.len(),
                forall|k: int| 0 <= k < i ==> (#[trigger] self.stakers@[k]).address@ != addr@,
            decreases self.stakers@.len() - i,
        {
            if self.stakers[i].address == *addr {
                return Some(i);
            }
            i += 1;
        }
        proof {
            lemma_accounts_domain(self.stakers@, addr@);
        }
        None
    }
}

proof fn lemma_accounts_domain(s: Seq<StakerEntry>, a: Seq<char>)
    ensures
        accounts_of(s).contains_key(a) <==> exists|i: int| 0 <= i < s.len() && (#[trigger] s[i]).address@ == a,
    decreases s.len(),
{
    if s.len() > 0 {
        lemma_accounts_domain(s.drop_last(), a);
        if accounts_of(s.drop_last()).contains_key(a) {
            let i = choose|i: int| 0 <= i < s.drop_last().len() && (#[trigger] s.drop_last()[i]).address@ == a;
            assert(s[i] == s.drop_last()[i]);
        }
        if exists|i: int| 0 <= i < s.len() && (#[trigger] s[i]).address@ == a {
            let i = choose|i: int| 0 <= i < s.len() && (#[trigger] s[i]).address@ == a;
            if i < s.len() - 1 {
                assert(s.drop_last()[i] == s[i]);
            }
        }
    }
}

proof fn lemma_accounts_index(s: Seq<StakerEntry>, i: int)
    requires
        unique_addresses(s),
        0 <= i < s.len(),
    ensures
        accounts_of(s).contains_key(s[i].address@),
        accounts_of(s)[s[i].address@] == s[i].info,
    decreases s.len(),
{
    if i < s.len() - 1 {
        assert(s.drop_last()[i] == s[i]);
        assert(unique_addresses(s.drop_last())) by {
            assert forall|a: int, b: int| 0 <= a < b < s.drop_last().len() implies
                (#[trigger] s.drop_last()[a]).address@ != (#[trigger] s.drop_last()[b]).address@ by {
                assert(s.drop_last()[a] == s[a] && s.drop_last()[b] == s[b]);
            }
        }
        lemma_accounts_index(s.drop_last(), i);
        assert(s[i].address@ != s[s.len() - 1].address@);
    }
}

proof fn lemma_sum_at_least(s: Seq<StakerEntry>, i: int)
    requires
        0 <= i < s.len(),
    ensures
        sum_staked(s) >= s[i].info.staked,
    decreases s.len(),
{
    lemma_sum_nonneg(s.drop_last());
    if i < s.len() - 1 {
        assert(s.drop_last()[i] == s[i]);
        lemma_sum_at_least(s.drop_last(), i);
    }
}

proof fn lemma_count_at_least_one(s: Seq<StakerEntry>, i: int)
    requires
        0 <= i < s.len(),
        s[i].info.staked > 0,
    ensures
        count_staked(s) >= 1,
    decreases s.len(),
{
    lemma_count_nonneg(s.drop_last());
    if i < s.len() - 1 {
        assert(s.drop_last()[i] == s[i]);
        lemma_count_at_least_one(s.drop_last(), i);
    }
}

proof fn lemma_count_nonneg(s: Seq<StakerEntry>)
    ensures
        count_staked(s) >= 0,
    decreases s.len(),
{
    if s.len() > 0 {
        lemma_count_nonneg(s.drop_last());
    }
}

proof fn lemma_sum_nonneg(s: Seq<StakerEntry>)
    ensures
        sum_staked(s) >= 0,
    decreases s.len(),
{
    if s.len() > 0 {
        lemma_sum_nonneg(s.drop_last());
    }
}

/// Replacing an entry's info under the same address: the account map and the
/// stake sum change only at that address.
proof fn lemma_update_entry(s: Seq<StakerEntry>, i: int, e: StakerEntry)
    requires
        unique_addresses(s),
        0 <= i < s.len(),
        s[i].address@ == e.address@,
    ensures
        unique_addresses(s.update(i, e)),
        accounts_of(s.update(i, e)) == accounts_of(s).insert(e.address@, e.info),
        sum_staked(s.update(i, e)) == sum_staked(s) - s[i].info.staked + e.info.staked,
        count_staked(s.update(i, e)) == count_staked(s) - (if s[i].info.staked > 0 { 1int } else { 0int })
            + (if e.info.staked > 0 { 1int } else { 0int }),
    decreases s.len(),
{
    let t = s.update(i, e);
    assert forall|a: int, b: int| 0 <= a < b < t.len() implies (#[trigger] t[a]).address@ != (#[trigger] t[b]).address@ by {
        assert(t[a].address@ == s[a].address@);
        assert(t[b].address@ == s[b].address@);
    }
    if i == s.len() - 1 {
        assert(t.drop_last() =~= s.drop_last());
        assert(accounts_of(t) =~= accounts_of(s).insert(e.address@, e.info));
    } else {
        let d = s.drop_last();
        assert(unique_addresses(d)) by {
            assert forall|a: int, b: int| 0 <= a < b < d.len() implies (#[trigger] d[a]).address@ != (#[trigger] d[b]).address@ by {
                assert(d[a] == s[a] && d[b] == s[b]);
            }
        }
        assert(d[i] == s[i]);
        lemma_update_entry(d, i, e);
        assert(t.drop_last() =~= d.update(i, e));
        assert(s.last().address@ != e.address@) by {
            assert(s[i].address@ != s[s.len() - 1].address@);
        }
        assert(t.last() == s.last());
        assert(accounts_of(t) =~= accounts_of(s).insert(e.address@, e.info));
    }
}

/// Appending an entry under a new address.
proof fn lemma_push_entry(s: Seq<StakerEntry>, e: StakerEntry)
    requires
        unique_addresses(s),
        !accounts_of(s).contains_key(e.address@),
    ensures
        unique_addresses(s.push(e)),
        accounts_of(s.push(e)) == accounts_of(s).insert(e.address@, e.info),
        sum_staked(s.push(e)) == sum_staked(s) + e.info.staked,
        count_staked(s.push(e)) == count_staked(s) + (if e.info.staked > 0 { 1int } else { 0int }),
{
    let t = s.push(e);
    assert(t.drop_last() =~= s);
    lemma_accounts_domain(s, e.address@);
    assert forall|a: int, b: int| 0 <= a < b < t.len() implies (#[trigger] t[a]).address@ != (#[trigger] t[b]).address@ by {
        if b == s.len() {
            assert(t[a] == s[a]);
        } else {
            assert(t[a] == s[a] && t[b] == s[b]);
        }
    }
}

/// Staking an amount and withdrawing it again at the same height is a round
/// trip: no emission happens in between, the account holds its former stake
/// again, what it may claim is what it could claim before, the total stake
/// and the staker count are back where they started, and moving the stake
/// created no reward. When the account's debt was not stale the unfloored
/// balance `pending + staked * index / SCALE - debt` is kept exactly.
pub proof fn lemma_stake_unstake_round_trip(
    l: StakingLedger,
    mid: StakingLedger,
    addr: Seq<char>,
    amount: u128,
    now: u64,
)
    requires
        l.wf(),
        l.stake_spec(addr, amount, now) is Ok,
        mid.config == l.config,
        mid.state == l.stake_spec(addr, amount, now)->Ok_0.0,
        mid.accounts() == l.accounts().insert(addr, l.stake_spec(addr, amount, now)->Ok_0.1),
        mid.total_stakers == l.stake_spec(addr, amount, now)->Ok_0.2,
    ensures
        ({
            let prior = l.account_or_new(addr, now);
            let index = mid.state.global_index;
            let back = mid.unstake_spec(addr, amount, now);
            &&& index == l.sync_spec(now)->Ok_0.0.global_index
            &&& back is Ok
            &&& back->Ok_0.0 == (GlobalRewardState { total_staked: l.state.total_staked, ..mid.state })
            &&& back->Ok_0.1.staked == prior.staked
            &&& back->Ok_0.1.pending_rewards == claimable(prior, index)
            &&& claimable(back->Ok_0.1, index) == claimable(prior, index)
            &&& back->Ok_0.2 == l.total_stakers
            &&& earned(prior.staked, index) >= prior.reward_debt ==> back->Ok_0.1.pending_rewards
                + earned(back->Ok_0.1.staked, index) - back->Ok_0.1.reward_debt
                == prior.pending_rewards + earned(prior.staked, index) - prior.reward_debt
        }),
{
    let g = l.sync_spec(now)->Ok_0.0;
    let prior = l.account_or_new(addr, now);
    let a = accrue_spec(prior, g.global_index)->Ok_0;
    let b = l.stake_spec(addr, amount, now)->Ok_0.1;
    assert(b.staked == prior.staked + amount);
    assert(b.reward_debt == earned(b.staked, g.global_index));
    assert(mid.accounts()[addr] == b);
    assert(mid.sync_spec(now) == Ok::<(GlobalRewardState, u128), ContractError>((mid.state, 0u128)));
    assert(accrued(b, mid.state.global_index) == 0);
    assert((prior.staked as int) * (g.global_index as int) <= (b.staked as int) * (g.global_index as int))
        by (nonlinear_arith)
        requires prior.staked <= b.staked;
    let c = repin_spec(accrue_spec(b, g.global_index)->Ok_0, prior.staked, g.global_index)->Ok_0;
    assert(c.reward_debt == earned(prior.staked, g.global_index));
    assert(accrued(c, g.global_index) == 0);
}

/// Moving stake in creates no reward: after a stake, what the account may
/// claim at the synced index is what it could claim before, and every other
/// account is untouched.
pub proof fn lemma_stake_creates_no_reward(l: StakingLedger, addr: Seq<char>, amount: u128, now: u64)
    requires
        l.stake_spec(addr, amount, now) is Ok,
    ensures
        ({
            let index = l.sync_spec(now)->Ok_0.0.global_index;
            let after = l.stake_spec(addr, amount, now)->Ok_0.1;
            &&& l.stake_spec(addr, amount, now)->Ok_0.0.global_index == index
            &&& claimable(after, index) == claimable(l.account_or_new(addr, now), index)
            &&& l.accounts().insert(addr, after).remove(addr) == l.accounts().remove(addr)
        }),
{
    let index = l.sync_spec(now)->Ok_0.0.global_index;
    let after = l.stake_spec(addr, amount, now)->Ok_0.1;
    assert(after.reward_debt == earned(after.staked, index));
    assert(accrued(after, index) == 0);
    assert(l.accounts().insert(addr, after).remove(addr) =~= l.accounts().remove(addr));
}

/// Moving stake out creates no reward: after an unstake, what the account may
/// claim at the synced index is what it could claim before, and every other
/// account is untouched.
pub proof fn lemma_unstake_creates_no_reward(l: StakingLedger, addr: Seq<char>, amount: u128, now: u64)
    requires
        l.unstake_spec(addr, amount, now) is Ok,
    ensures
        ({
            let index = l.sync_spec(now)->Ok_0.0.global_index;
            let after = l.unstake_spec(addr, amount, now)->Ok_0.1;
            &&& l.unstake_spec(addr, amount, now)->Ok_0.0.global_index == index
            &&& claimable(after, index) == claimable(l.accounts()[addr], index)
            &&& l.accounts().insert(addr, after).remove(addr) == l.accounts().remove(addr)
        }),
{
    let index = l.sync_spec(now)->Ok_0.0.global_index;
    let after = l.unstake_spec(addr, amount, now)->Ok_0.1;
    assert(after.reward_debt == earned(after.staked, index));
    assert(accrued(after, index) == 0);
    assert(l.accounts().insert(addr, after).remove(addr) =~= l.accounts().remove(addr));
}

/// An emission step credits stakers with no more than it mints for them: the
/// index increase, applied to the whole stake, is at most the staker share
/// (what was minted less the treasury share), and minting never passes the
/// maximum supply once within it.
pub proof fn lemma_sync_credits_at_most_minted(l: StakingLedger, now: u64)
    requires
        l.sync_spec(now) is Ok,
    ensures
        ({
            let (g, treasury) = l.sync_spec(now)->Ok_0;
            &&& g.global_index >= l.state.global_index
            &&& g.total_minted >= l.state.total_minted + treasury
            &&& (g.global_index - l.state.global_index) * (l.state.total_staked as int)
                <= (g.total_minted - l.state.total_minted - treasury) * (REWARD_SCALE as int)
            &&& l.state.total_minted <= l.config.max_supply ==> g.total_minted <= l.config.max_supply
        }),
{
    let g0 = l.state;
    if now > g0.last_distribution_height && g0.total_staked > 0 {
        let remaining: int = if l.config.max_supply > g0.total_minted { l.config.max_supply - g0.total_minted } else { 0 };
        let wanted: int = emission_rate_spec(l.config.phases@, now) * (now - g0.last_distribution_height);
        let raw: int = if wanted < remaining { wanted } else { remaining };
        let treasury: int = raw * l.config.treasury_share_bps / (BPS_SCALE as int);
        let share: int = raw - treasury;
        let t = g0.total_staked as int;
        let x = share * (REWARD_SCALE as int);
        assert(wanted >= 0) by (nonlinear_arith)
            requires
                wanted == emission_rate_spec(l.config.phases@, now) * (now - g0.last_distribution_height),
                now > g0.last_distribution_height;
        assert(treasury >= 0) by (nonlinear_arith)
            requires treasury == raw * l.config.treasury_share_bps / (BPS_SCALE as int), raw >= 0;
        assert(x >= 0) by (nonlinear_arith)
            requires x == share * (REWARD_SCALE as int), share >= 0;
        vstd::arithmetic::div_mod::lemma_fundamental_div_mod(x, t);
        assert((x / t) * t <= x) by (nonlinear_arith)
            requires x == t * (x / t) + x % t, x % t >= 0;
        assert(x / t >= 0) by (nonlinear_arith)
            requires x >= 0, t > 0;
    } else {
        assert(0 * (g0.total_staked as int) == 0);
    }
}

} // verus!
