use citizen_governance::errors::ContractError;
use citizen_governance::grants::{CycleStatus, GrantsRegistry, MilestoneInput, StoredGrantStatus};
use citizen_governance::treasury::{FundCategory, Treasury};

fn s(v: &str) -> String {
    v.to_string()
}

fn setup() -> GrantsRegistry {
    GrantsRegistry::new(s("admin"), s("governance"), s("treasury"))
}

fn milestone(description: &str, amount: u128) -> MilestoneInput {
    MilestoneInput { description: s(description), amount }
}

#[test]
fn test_apply() {
    let mut g = setup();
    let id = g
        .apply(
            s("researcher"),
            s("Cancer Research"),
            s("Fund phase 1 cancer research"),
            FundCategory::Healthcare,
            vec![milestone("Literature review", 5000), milestone("Lab results", 15000)],
        )
        .unwrap();
    assert_eq!(id, 1);
    let grant = &g.grants[0];
    assert_eq!(grant.total_amount, 20000);
    assert_eq!(grant.milestones.len(), 2);
    assert_eq!(grant.status, StoredGrantStatus::Pending);
    assert_eq!(grant.milestones[1].id, 2);
}

#[test]
fn test_approve_and_milestone_flow() {
    let mut g = setup();
    g.apply(s("researcher"), s("Test Grant"), s("Test"), FundCategory::Research, vec![milestone("Phase 1", 1000)])
        .unwrap();
    g.approve(&s("governance"), 1, 42).unwrap();
    assert_eq!(g.grants[0].status, StoredGrantStatus::Active);
    assert_eq!(g.grants[0].proposal_id, Some(42));
    g.submit_milestone(&s("researcher"), 1, 1, s("ipfs://QmEvidence123")).unwrap();
    let spend = g.approve_milestone(&s("admin"), 1, 1).unwrap();
    assert_eq!(spend.amount, 1000);
    assert_eq!(spend.recipient, "researcher");
    assert_eq!(spend.memo, "Grant #1 milestone #1");
    assert_eq!(g.grants[0].status, StoredGrantStatus::Completed);
    assert_eq!(g.grants[0].disbursed, 1000);
}

#[test]
fn grant_apply_and_governance_approve() {
    let mut g = setup();
    let res = g.apply(
        s("citizen1"),
        s("Public water well"),
        s("Build a well in district 3"),
        FundCategory::Infrastructure,
        vec![milestone("Site survey", 500_000), milestone("Construction", 2_000_000)],
    );
    assert!(res.is_ok());
    assert_eq!(g.grants[0].status, StoredGrantStatus::Pending);
    assert_eq!(g.grants[0].total_amount, 2_500_000);
    assert_eq!(g.grants[0].milestones.len(), 2);
    let res = g.approve(&s("governance"), 1, 1);
    assert!(res.is_ok());
    assert_eq!(g.grants[0].status, StoredGrantStatus::Active);
}

#[test]
fn unauthorized_grant_approval_fails() {
    let mut g = setup();
    g.apply(s("citizen1"), s("Library"), s("Community library"), FundCategory::Education, vec![milestone("Build it", 1_000_000)])
        .unwrap();
    let res = g.approve(&s("citizen2"), 1, 1);
    assert!(res.is_err());
}

#[test]
fn full_milestone_lifecycle_with_treasury_disbursement() {
    let mut g = setup();
    let mut treasury =
        Treasury::new(s("admin"), s("governance"), s("ucitizen"), vec![(FundCategory::Infrastructure, 10_000)]).unwrap();
    treasury.deposit(100_000_000).unwrap();
    g.apply(
        s("citizen1"),
        s("Solar panels"),
        s("Install solar panels on community center"),
        FundCategory::Infrastructure,
        vec![milestone("Purchase equipment", 3_000_000), milestone("Install panels", 5_000_000)],
    )
    .unwrap();
    g.approve(&s("governance"), 1, 1).unwrap();
    g.submit_milestone(&s("citizen1"), 1, 1, s("Receipt for equipment: ipfs://Qm123...")).unwrap();
    let spend = g.approve_milestone(&s("admin"), 1, 1).unwrap();
    // The grants engine, not governance, would be the one asking the treasury.
    let res = treasury.spend(&s("grants"), spend.recipient, spend.amount, spend.category, spend.memo, 1);
    assert!(res.is_err(), "Grants → Treasury spend should fail without proper governance authorization");
    assert_eq!(g.grants[0].milestones[0].evidence, Some(s("Receipt for equipment: ipfs://Qm123...")));
}

#[test]
fn only_grantee_can_submit_milestone() {
    let mut g = setup();
    g.apply(s("citizen1"), s("Playground"), s("Build a playground"), FundCategory::Infrastructure, vec![milestone("Build", 1_000_000)])
        .unwrap();
    g.approve(&s("governance"), 1, 1).unwrap();
    let res = g.submit_milestone(&s("citizen2"), 1, 1, s("Fake evidence"));
    assert!(res.is_err(), "Non-grantee should not submit milestone evidence");
}

#[test]
fn grant_rejection_by_governance() {
    let mut g = setup();
    g.apply(s("citizen1"), s("Wasted project"), s("No real plan"), FundCategory::Research, vec![milestone("Something", 999_999)])
        .unwrap();
    g.reject(&s("governance"), 1).unwrap();
    assert_eq!(g.grants[0].status, StoredGrantStatus::Rejected);
}

#[test]
fn milestone_approval_rules() {
    let mut g = setup();
    g.apply(s("a"), s("T"), s("D"), FundCategory::Research, vec![milestone("m1", 10), milestone("m2", 20)]).unwrap();
    assert!(matches!(g.approve(&s("governance"), 2, 1).unwrap_err(), ContractError::GrantNotFound { id: 2 }));
    assert!(matches!(g.submit_milestone(&s("a"), 1, 1, s("e")).unwrap_err(), ContractError::InvalidState));
    g.approve(&s("governance"), 1, 7).unwrap();
    assert!(matches!(g.approve(&s("governance"), 1, 7).unwrap_err(), ContractError::InvalidState));
    assert!(matches!(
        g.submit_milestone(&s("a"), 1, 3, s("e")).unwrap_err(),
        ContractError::MilestoneNotFound { grant_id: 1, milestone_id: 3 }
    ));
    assert!(matches!(g.approve_milestone(&s("admin"), 1, 2).unwrap_err(), ContractError::InvalidState));
    assert!(matches!(g.approve_milestone(&s("stranger"), 1, 2).unwrap_err(), ContractError::Unauthorized { .. }));
    g.add_assessor(&s("admin"), s("rev")).unwrap();
    g.submit_milestone(&s("a"), 1, 2, s("e2")).unwrap();
    let spend = g.approve_milestone(&s("rev"), 1, 2).unwrap();
    assert_eq!((spend.amount, spend.memo.as_str()), (20, "Grant #1 milestone #2"));
    assert_eq!(g.grants[0].status, StoredGrantStatus::Active);
    assert_eq!(g.grants[0].milestones[1].approved_by, Some(s("rev")));
    assert!(matches!(g.approve_milestone(&s("rev"), 1, 2).unwrap_err(), ContractError::InvalidState));
    g.remove_assessor(&s("governance"), &s("rev")).unwrap();
    g.submit_milestone(&s("a"), 1, 1, s("e1")).unwrap();
    assert!(matches!(g.approve_milestone(&s("rev"), 1, 1).unwrap_err(), ContractError::Unauthorized { .. }));
    g.approve_milestone(&s("governance"), 1, 1).unwrap();
    assert_eq!(g.grants[0].status, StoredGrantStatus::Completed);
    assert_eq!(g.grants[0].disbursed, 30);
    assert_eq!(g.total_disbursed, 30);
}

#[test]
fn cancel_and_applicant_listing() {
    let mut g = setup();
    for who in ["a", "b", "a"] {
        g.apply(s(who), s("T"), s("D"), FundCategory::Education, vec![]).unwrap();
    }
    assert_eq!(g.grants[0].total_amount, 0);
    assert_eq!(g.grants_by_applicant(&s("a"), None), vec![1, 3]);
    assert_eq!(g.grants_by_applicant(&s("a"), Some(1)), vec![1]);
    assert!(matches!(g.cancel(&s("b"), 1).unwrap_err(), ContractError::Unauthorized { .. }));
    g.cancel(&s("a"), 1).unwrap();
    g.cancel(&s("admin"), 2).unwrap();
    assert_eq!(g.grants[0].status, StoredGrantStatus::Cancelled);
    assert_eq!(g.grants[1].status, StoredGrantStatus::Cancelled);
}

#[test]
fn research_categories_and_cycles() {
    let mut g = setup();
    assert!(g.register_research_category(&s("x"), s("bio"), s("d"), 100, 10).is_err());
    g.register_research_category(&s("admin"), s("bio"), s("d"), 100, 10).unwrap();
    g.register_research_category(&s("governance"), s("bio"), s("d2"), 200, 20).unwrap();
    assert_eq!(g.categories.len(), 1);
    assert_eq!(g.categories[0].funding_pool, 200);
    assert!(matches!(
        g.open_research_cycle(&s("admin"), s("c"), vec![s("bio"), s("chem")], 50, 10, 5).unwrap_err(),
        ContractError::Unauthorized { .. }
    ));
    assert_eq!(g.open_research_cycle(&s("admin"), s("c"), vec![s("bio")], 50, 10, 5).unwrap(), 1);
    assert_eq!(g.cycles[0].end_height, 15);
    assert!(matches!(
        g.open_research_cycle(&s("admin"), s("c"), vec![], 50, u64::MAX, 5).unwrap_err(),
        ContractError::Overflow
    ));
    assert!(g.close_research_cycle(&s("admin"), 2).is_err());
    g.close_research_cycle(&s("governance"), 1).unwrap();
    assert_eq!(g.cycles[0].status, CycleStatus::Closed);
}

#[test]
fn grant_pages() {
    let mut g = setup();
    for _ in 0..3 {
        g.apply(s("a"), s("T"), s("D"), FundCategory::Research, vec![]).unwrap();
    }
    assert_eq!(g.list_grants(None, None), vec![1, 2, 3]);
    assert_eq!(g.list_grants(Some(2), Some(10)), vec![3]);
}

#[test]
fn status_names() {
    assert_eq!(StoredGrantStatus::Pending.name(), "Pending");
    assert_eq!(StoredGrantStatus::Completed.name(), "Completed");
    assert_eq!(citizen_governance::governance::ProposalStatus::Timelocked.name(), "Timelocked");
    assert_eq!(citizen_governance::governance::ProposalStatus::Expired.name(), "Expired");
}
