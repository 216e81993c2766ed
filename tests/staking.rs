use citizen_governance::errors::ContractError;
use citizen_governance::staking::{get_emission_rate, EmissionPhase, StakingLedger};

const HEIGHT: u64 = 12_345;

fn s(v: &str) -> String {
    v.to_string()
}

fn phases() -> Vec<EmissionPhase> {
    vec![
        EmissionPhase { label: s("Year 1"), start_block: 0, end_block: 5_256_000, tokens_per_block: 100_000 },
        EmissionPhase { label: s("Year 2-3"), start_block: 5_256_001, end_block: 15_768_000, tokens_per_block: 50_000 },
    ]
}

fn setup() -> StakingLedger {
    StakingLedger::new(
        s("admin"),
        s("ucitizen"),
        1_000_000_000_000,
        100_000_000_000,
        phases(),
        s("treasury"),
        2000,
        1000,
        HEIGHT,
    )
    .unwrap()
}

fn total_of_accounts(l: &StakingLedger) -> u128 {
    l.stakers.iter().map(|e| e.info.staked).sum()
}

#[test]
fn contract_test_instantiate() {
    let l = setup();
    assert_eq!(l.config.max_supply, 1_000_000_000_000);
    assert_eq!(l.state.total_minted, 100_000_000_000);
}

#[test]
fn test_stake() {
    let mut l = setup();
    l.stake(s("staker1"), 1_000_000, HEIGHT).unwrap();
    assert_eq!(l.staker(&s("staker1")).staked, 1_000_000);
    assert_eq!(l.state.total_staked, 1_000_000);
}

#[test]
fn test_emission_rate() {
    let l = setup();
    let (i, _) = l.current_phase(HEIGHT).unwrap();
    assert_eq!(l.config.phases[i].label, "Year 1");
    assert_eq!(l.config.phases[i].tokens_per_block, 100_000);
}

#[test]
fn test_slash_staker() {
    let mut l = setup();
    l.stake(s("staker1"), 1_000_000, HEIGHT).unwrap();
    let amount = l.slash(&s("admin"), s("staker1"), s("Double-signing violation"), HEIGHT).unwrap();
    assert_eq!(amount, 100_000);
    assert_eq!(l.staker(&s("staker1")).staked, 900_000);
    assert_eq!(l.state.total_slashed, 100_000);
    assert_eq!(l.state.total_staked, 900_000);
    assert_eq!(l.slash_events.len(), 1);
    assert_eq!(l.slash_events[0].reason, "Double-signing violation");
    assert_eq!(l.slash_events[0].id, 1);
    assert_eq!(l.slash_events[0].staker, "staker1");
}

#[test]
fn test_non_admin_cannot_slash() {
    let mut l = setup();
    l.stake(s("staker1"), 1_000_000, HEIGHT).unwrap();
    let err = l.slash(&s("rando"), s("staker1"), s("Attempted unauthorized slash"), HEIGHT).unwrap_err();
    assert!(matches!(err, ContractError::Unauthorized { .. }));
    assert_eq!(l.staker(&s("staker1")).staked, 1_000_000);
}

#[test]
fn staking_and_emission_phases() {
    let l = setup();
    assert_eq!(l.config.max_supply, 1_000_000_000_000);
    assert_eq!(l.state.total_staked, 0);
    let (i, left) = l.current_phase(HEIGHT).unwrap();
    assert_eq!(l.config.phases[i].label, "Year 1");
    assert_eq!(l.config.phases[i].tokens_per_block, 100_000);
    assert_eq!(left, 5_256_000 - HEIGHT);
}

#[test]
fn emission_rate_first_match_wins() {
    let p = phases();
    assert_eq!(get_emission_rate(&p, 5_256_000), 100_000);
    assert_eq!(get_emission_rate(&p, 5_256_001), 50_000);
    assert_eq!(get_emission_rate(&p, 15_768_001), 0);
    let overlapping = vec![
        EmissionPhase { label: s("a"), start_block: 10, end_block: 0, tokens_per_block: 7 },
        EmissionPhase { label: s("b"), start_block: 0, end_block: 100, tokens_per_block: 9 },
    ];
    assert_eq!(get_emission_rate(&overlapping, 50), 7);
    assert_eq!(get_emission_rate(&overlapping, 5), 9);
    assert_eq!(get_emission_rate(&overlapping, u64::MAX), 7);
}

#[test]
fn rewards_accrue_through_the_index() {
    let mut l = setup();
    l.stake(s("staker1"), 1_000_000, HEIGHT).unwrap();
    // Ten blocks at 100_000: 1_000_000 minted, 20% to the treasury.
    let treasury = l.distribute(HEIGHT + 10).unwrap();
    assert_eq!(treasury, 200_000);
    assert_eq!(l.state.global_index, 800_000_000_000);
    assert_eq!(l.state.total_minted, 100_001_000_000);
    assert_eq!(l.pending_rewards(&s("staker1")).unwrap(), 800_000);
    assert_eq!(l.claim(&s("staker1"), HEIGHT + 10).unwrap(), (800_000, 0));
    assert!(matches!(l.claim(&s("staker1"), HEIGHT + 10).unwrap_err(), ContractError::NothingToClaim));
    assert_eq!(l.staker(&s("staker1")).last_claim_height, HEIGHT + 10);
}

#[test]
fn emission_with_no_stake_is_forfeited() {
    let mut l = setup();
    assert_eq!(l.distribute(HEIGHT + 50).unwrap(), 0);
    assert_eq!(l.state.last_distribution_height, HEIGHT + 50);
    assert_eq!(l.state.total_minted, 100_000_000_000);
    assert_eq!(l.state.global_index, 0);
}

#[test]
fn emission_is_capped_by_max_supply() {
    let mut l = StakingLedger::new(s("admin"), s("u"), 1_000, 900, phases(), s("t"), 0, 0, 0).unwrap();
    l.stake(s("a"), 10, 0).unwrap();
    assert_eq!(l.distribute(1_000).unwrap(), 0);
    assert_eq!(l.state.total_minted, 1_000);
    assert_eq!(l.remaining_to_mint(), 0);
    assert_eq!(l.pending_rewards(&s("a")).unwrap(), 100);
}

#[test]
fn stake_then_unstake_round_trip() {
    let mut l = setup();
    l.stake(s("a"), 500, HEIGHT).unwrap();
    let index = l.state.global_index;
    assert_eq!(l.unstake(&s("a"), 500, HEIGHT).unwrap(), (500, 0));
    let a = l.staker(&s("a"));
    assert_eq!(a.staked, 0);
    assert_eq!(a.pending_rewards, 0);
    assert_eq!(l.state.total_staked, 0);
    assert_eq!(l.state.global_index, index);
    assert_eq!(l.total_stakers, 0);
}

#[test]
fn total_staked_is_sum_of_accounts() {
    let mut l = setup();
    l.stake(s("a"), 300, HEIGHT).unwrap();
    l.stake(s("b"), 700, HEIGHT + 1).unwrap();
    l.stake(s("a"), 50, HEIGHT + 2).unwrap();
    l.unstake(&s("b"), 200, HEIGHT + 3).unwrap();
    l.slash(&s("admin"), s("a"), s("r"), HEIGHT + 4).unwrap();
    assert_eq!(l.state.total_staked, total_of_accounts(&l));
    assert_eq!(l.state.total_staked, 315 + 500);
    assert_eq!(l.total_stakers, 2);
}

#[test]
fn stake_refusals() {
    let mut l = setup();
    assert!(matches!(l.stake(s("a"), 0, HEIGHT).unwrap_err(), ContractError::InsufficientFunds { .. }));
    assert!(matches!(
        l.unstake(&s("a"), 1, HEIGHT).unwrap_err(),
        ContractError::InsufficientStake { needed: 1, available: 0 }
    ));
    l.stake(s("a"), 10, HEIGHT).unwrap();
    assert!(matches!(
        l.unstake(&s("a"), 11, HEIGHT).unwrap_err(),
        ContractError::InsufficientStake { needed: 11, available: 10 }
    ));
    assert_eq!(l.staker(&s("a")).staked, 10);
}

#[test]
fn slash_refusals_and_penalty_updates() {
    let mut l = setup();
    assert!(matches!(l.slash(&s("admin"), s("x"), s("r"), HEIGHT).unwrap_err(), ContractError::Slashing { .. }));
    assert!(matches!(l.update_slash_penalty(&s("x"), 10).unwrap_err(), ContractError::Unauthorized { .. }));
    assert!(matches!(l.update_slash_penalty(&s("admin"), 10_001).unwrap_err(), ContractError::Slashing { .. }));
    l.update_slash_penalty(&s("admin"), 0).unwrap();
    l.stake(s("a"), 10, HEIGHT).unwrap();
    assert!(matches!(l.slash(&s("admin"), s("a"), s("r"), HEIGHT).unwrap_err(), ContractError::Slashing { .. }));
    l.update_slash_penalty(&s("admin"), 10_000).unwrap();
    assert_eq!(l.slash(&s("admin"), s("a"), s("r"), HEIGHT).unwrap(), 10);
    assert_eq!(l.total_stakers, 0);
    assert!(matches!(l.slash(&s("admin"), s("a"), s("r"), HEIGHT).unwrap_err(), ContractError::Slashing { .. }));
    assert!(StakingLedger::new(s("admin"), s("u"), 1, 1, vec![], s("t"), 0, 10_001, 0).is_err());
}

#[test]
fn phases_update_is_admin_only() {
    let mut l = setup();
    assert!(matches!(l.update_phases(&s("x"), vec![]).unwrap_err(), ContractError::Unauthorized { .. }));
    l.update_phases(&s("admin"), vec![]).unwrap();
    assert!(l.current_phase(HEIGHT).is_none());
}

#[test]
fn slash_history_pages() {
    let mut l = setup();
    l.stake(s("a"), 1_000_000, HEIGHT).unwrap();
    for _ in 0..3 {
        l.slash(&s("admin"), s("a"), s("r"), HEIGHT).unwrap();
    }
    assert_eq!(l.slash_history(None, None), vec![1, 2, 3]);
    assert_eq!(l.slash_history(Some(1), Some(1)), vec![2]);
    assert_eq!(l.staker(&s("a")).staked, 729_000);
    assert_eq!(l.state.total_slashed, 271_000);
}

#[test]
fn claimable_rounds_per_account() {
    let one_per_block = vec![EmissionPhase { label: s("flat"), start_block: 0, end_block: 0, tokens_per_block: 1 }];
    let mut l = StakingLedger::new(s("admin"), s("u"), 1_000_000, 0, one_per_block, s("t"), 0, 0, 0).unwrap();
    l.stake(s("a"), 10, 0).unwrap();
    l.stake(s("b1"), 1, 9).unwrap();
    l.stake(s("b2"), 1, 9).unwrap();
    assert_eq!(l.state.global_index, 900_000_000_000);
    assert_eq!(l.staker(&s("b1")).reward_debt, 0);
    l.distribute(11).unwrap();
    assert_eq!(l.state.global_index, 1_066_666_666_666);
    assert_eq!(l.state.total_minted, 11);
    // Each account rounds its own share: 10 + 1 + 1 against 11 minted.
    assert_eq!(l.pending_rewards(&s("a")).unwrap(), 10);
    assert_eq!(l.pending_rewards(&s("b1")).unwrap(), 1);
    assert_eq!(l.pending_rewards(&s("b2")).unwrap(), 1);
}

#[test]
fn staker_operations_return_treasury_share() {
    let mut l = setup();
    assert_eq!(l.stake(s("a"), 1_000, HEIGHT).unwrap(), 0);
    // Five blocks at 100_000: 500_000 minted, 20% for the treasury.
    assert_eq!(l.stake(s("a"), 1_000, HEIGHT + 5).unwrap(), 100_000);
    assert_eq!(l.unstake(&s("a"), 500, HEIGHT + 6).unwrap(), (500, 20_000));
    let (paid, treasury) = l.claim(&s("a"), HEIGHT + 7).unwrap();
    assert_eq!(treasury, 20_000);
    assert_eq!(paid, 400_000 + 80_000 + 79_999);
}

#[test]
fn emission_product_overflow_is_an_error() {
    let huge = vec![EmissionPhase { label: s("huge"), start_block: 0, end_block: 0, tokens_per_block: u128::MAX }];
    let mut l = StakingLedger::new(s("admin"), s("u"), 10, 10, huge, s("t"), 0, 0, 0).unwrap();
    l.stake(s("a"), 1, 0).unwrap();
    assert!(matches!(l.distribute(2).unwrap_err(), ContractError::Overflow));
    assert_eq!(l.state.last_distribution_height, 0);
    assert_eq!(l.distribute(1).unwrap(), 0);
}

#[test]
fn staker_count_follows_accounts_with_stake() {
    let mut l = setup();
    l.stake(s("a"), 10, HEIGHT).unwrap();
    l.stake(s("b"), 10, HEIGHT).unwrap();
    l.unstake(&s("a"), 10, HEIGHT).unwrap();
    assert_eq!(l.total_stakers, 1);
    // Withdrawing nothing from an empty account changes no count.
    l.unstake(&s("a"), 0, HEIGHT).unwrap();
    assert_eq!(l.total_stakers, 1);
    l.stake(s("a"), 5, HEIGHT).unwrap();
    assert_eq!(l.total_stakers, 2);
}
