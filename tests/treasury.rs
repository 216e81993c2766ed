use citizen_governance::errors::ContractError;
use citizen_governance::treasury::{fund_category_label, FundCategory, Treasury};

fn s(v: &str) -> String {
    v.to_string()
}

fn allocations() -> Vec<(FundCategory, u64)> {
    vec![
        (FundCategory::Research, 3000),
        (FundCategory::Healthcare, 3000),
        (FundCategory::Infrastructure, 2000),
        (FundCategory::NodeIncentives, 1000),
        (FundCategory::Emergency, 1000),
    ]
}

fn setup() -> Treasury {
    Treasury::new(s("admin"), s("governance"), s("ucitizen"), allocations()).unwrap()
}

#[test]
fn test_deposit() {
    let mut t = setup();
    t.deposit(1_000_000).unwrap();
    assert_eq!(t.total_deposited, 1_000_000);
}

#[test]
fn test_unauthorized_spend() {
    let mut t = setup();
    let err = t.spend(&s("random"), s("researcher"), 100, FundCategory::Research, s("test"), 1).unwrap_err();
    assert!(matches!(err, ContractError::Unauthorized { .. }));
}

#[test]
fn test_invalid_allocations() {
    let err = Treasury::new(
        s("admin"),
        s("governance"),
        s("ucitizen"),
        vec![(FundCategory::Research, 5000), (FundCategory::Healthcare, 3000)],
    )
    .err()
    .unwrap();
    assert!(matches!(err, ContractError::InvalidAllocation { .. }));
}

#[test]
fn only_governance_can_spend_from_treasury() {
    let mut t = setup();
    t.deposit(10_000_000).unwrap();
    let res = t.spend(&s("admin"), s("citizen1"), 1_000, FundCategory::Research, s("Test spend"), 1);
    assert!(res.is_err(), "Admin should not be able to spend directly — governance required");
}

#[test]
fn governance_authorized_spend_succeeds() {
    let mut t = setup();
    t.deposit(10_000_000).unwrap();
    let res = t.spend(&s("governance"), s("citizen1"), 500_000, FundCategory::Infrastructure, s("Road repair project"), 1);
    assert!(res.is_ok(), "Governance (voting) should authorize treasury spends");
    assert_eq!(t.total_spent, 500_000);
}

#[test]
fn spend_history_tracked_correctly() {
    let mut t = setup();
    t.deposit(50_000_000).unwrap();
    let spends = vec![
        (FundCategory::Infrastructure, 1_000_000u128, "Road"),
        (FundCategory::Education, 2_000_000u128, "School supplies"),
        (FundCategory::Healthcare, 500_000u128, "Clinic equipment"),
    ];
    for (cat, amount, memo) in spends {
        t.spend(&s("governance"), s("citizen1"), amount, cat, s(memo), 1).unwrap();
    }
    assert_eq!(t.spend_records.len(), 3);
    assert_eq!(t.spend_records[0].memo, "Road");
    assert_eq!(t.spend_records[1].amount, 2_000_000);
    assert_eq!(t.spend_records[2].memo, "Clinic equipment");
    assert_eq!(t.category_spend(&FundCategory::Education), 2_000_000);
}

#[test]
fn category_totals_accumulate() {
    let mut t = setup();
    assert_eq!(t.spend(&s("governance"), s("r"), 5, FundCategory::Custom(s("x")), s("m"), 1).unwrap(), 1);
    assert_eq!(t.spend(&s("governance"), s("r"), 7, FundCategory::Custom(s("x")), s("m"), 2).unwrap(), 2);
    assert_eq!(t.category_spend(&FundCategory::Custom(s("x"))), 12);
    assert_eq!(t.category_spend(&FundCategory::Custom(s("y"))), 0);
    assert_eq!(t.category_spend(&FundCategory::Research), 0);
    assert_eq!(fund_category_label(&FundCategory::Custom(s("x"))), "custom:x");
    assert_eq!(fund_category_label(&FundCategory::NodeIncentives), "node_incentives");
}

#[test]
fn allocation_updates_and_shares() {
    let mut t = setup();
    assert!(matches!(t.deposit(0).unwrap_err(), ContractError::InsufficientFunds { .. }));
    assert!(matches!(
        t.update_allocations(&s("admin"), vec![(FundCategory::Research, 10_000)]).unwrap_err(),
        ContractError::Unauthorized { .. }
    ));
    assert!(matches!(
        t.update_allocations(&s("governance"), vec![(FundCategory::Research, 9_999)]).unwrap_err(),
        ContractError::InvalidAllocation { .. }
    ));
    let shares = t.allocated_amounts(5_000_000);
    assert_eq!(shares.iter().map(|(_, a)| *a).collect::<Vec<u128>>(), vec![1_500_000, 1_500_000, 1_000_000, 500_000, 500_000]);
    t.update_allocations(&s("governance"), vec![(FundCategory::Education, 4_000), (FundCategory::Emergency, 6_000)])
        .unwrap();
    let a = t.query_allocations().allocations;
    assert_eq!(a.len(), 2);
    assert_eq!(a[1].1, 6_000);
    assert_eq!(t.allocated_amounts(7).iter().map(|(_, a)| *a).collect::<Vec<u128>>(), vec![2, 4]);
    t.update_governance(&s("admin"), s("council")).unwrap();
    assert!(t.spend(&s("governance"), s("r"), 1, FundCategory::Research, s("m"), 1).is_err());
    assert!(t.spend(&s("council"), s("r"), 1, FundCategory::Research, s("m"), 1).is_ok());
}

#[test]
fn spend_history_pages() {
    let mut t = setup();
    for n in 0..4u128 {
        t.spend(&s("governance"), s("r"), n, FundCategory::Research, s("m"), 1).unwrap();
    }
    assert_eq!(t.spend_history(None, None), vec![1, 2, 3, 4]);
    assert_eq!(t.spend_history(Some(2), None), vec![3, 4]);
    assert_eq!(t.category_spend(&FundCategory::Research), 6);
}

#[test]
fn treasury_test_instantiate() {
    let t = setup();
    assert_eq!(t.admin, "admin");
    assert_eq!(t.denom, "ucitizen");
}

#[test]
fn treasury_deposit_and_query_balance() {
    let mut t = setup();
    t.deposit(5_000_000).unwrap();
    assert_eq!(t.denom, "ucitizen");
    assert_eq!(t.total_deposited, 5_000_000);
}
