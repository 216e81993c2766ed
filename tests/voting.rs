use citizen_governance::arith::{isqrt, mul_div_floor};
use citizen_governance::errors::ContractError;
use citizen_governance::governance::{vote_weight, ProposalStatus, VoteOption, VotingMethod};
use citizen_governance::registry::{CredentialRegistry, CredentialType};
use citizen_governance::templates::{GovernanceParameter, IssuerAction, ProposalTemplate};
use citizen_governance::voting::VotingEngine;

const HEIGHT: u64 = 12_345;

fn s(v: &str) -> String {
    v.to_string()
}

fn setup() -> VotingEngine {
    VotingEngine::new(s("admin"), s("cred_registry"), s("treasury"), 100, 3000, 5000, 50)
}

fn integration_engine() -> VotingEngine {
    VotingEngine::new(s("admin"), s("cred_registry"), s("treasury"), 100, 1000, 5000, 0)
}

fn registry_with_citizens(names: &[&str]) -> CredentialRegistry {
    let mut reg = CredentialRegistry::new(s("admin"), vec![s("admin")]);
    for n in names {
        reg.issue_credential(
            &s("admin"),
            s(n),
            CredentialType::Citizenship,
            s("test_commitment_hash_for_integration"),
            0,
            1_000,
        )
        .unwrap();
    }
    reg
}

fn eligible(reg: &CredentialRegistry, who: &str) -> bool {
    reg.has_valid_credential(&s(who), &CredentialType::Citizenship, 1_000)
}

#[test]
fn test_create_proposal() {
    let mut e = setup();
    let id = e
        .create_proposal(
            s("citizen1"),
            true,
            s("Fund healthcare research"),
            s("Allocate 10000 ucitizen for cancer research"),
            VotingMethod::OnePersonOneVote,
            None,
            HEIGHT,
        )
        .unwrap();
    assert_eq!(id, 1);
    assert_eq!(e.query_config().total_proposals, 1);
}

#[test]
fn test_vote_one_person_one_vote() {
    let mut e = setup();
    e.create_proposal(s("citizen1"), true, s("Test"), s("Test desc"), VotingMethod::OnePersonOneVote, None, HEIGHT)
        .unwrap();
    e.cast_vote(s("citizen2"), true, 1, VoteOption::Yes, None, HEIGHT).unwrap();
    assert_eq!(e.proposals[0].votes_for, 1);
}

#[test]
fn test_double_vote_rejected() {
    let mut e = setup();
    e.create_proposal(s("citizen1"), true, s("Test"), s("Desc"), VotingMethod::OnePersonOneVote, None, HEIGHT)
        .unwrap();
    e.cast_vote(s("citizen1"), true, 1, VoteOption::Yes, None, HEIGHT).unwrap();
    let err = e.cast_vote(s("citizen1"), true, 1, VoteOption::No, None, HEIGHT).unwrap_err();
    assert!(matches!(err, ContractError::AlreadyVoted { .. }));
}

#[test]
fn test_tally_passed() {
    let mut e = setup();
    e.create_proposal(s("citizen1"), true, s("Test"), s("Desc"), VotingMethod::OnePersonOneVote, Some(10), HEIGHT)
        .unwrap();
    e.cast_vote(s("citizen1"), true, 1, VoteOption::Yes, None, HEIGHT).unwrap();
    let later = HEIGHT + 20;
    e.tally(1, later).unwrap();
    let p = &e.proposals[0];
    // With timelock_period=50 the proposal is Timelocked, not Passed
    assert_eq!(p.status, ProposalStatus::Timelocked);
    assert!(p.execute_at > 0);
    let execute_at = p.execute_at;
    let err = e.execute_proposal(1, later).unwrap_err();
    assert!(matches!(err, ContractError::TimelockNotExpired { .. }));
    e.execute_proposal(1, execute_at + 1).unwrap();
    assert_eq!(e.proposals[0].status, ProposalStatus::Executed);
}

#[test]
fn citizen_with_credential_can_create_proposal() {
    let reg = registry_with_citizens(&["citizen1"]);
    let mut e = integration_engine();
    let res = e.create_proposal(
        s("citizen1"),
        eligible(&reg, "citizen1"),
        s("Fund community garden"),
        s("Allocate 1M ucitizen for new community gardens"),
        VotingMethod::OnePersonOneVote,
        None,
        HEIGHT,
    );
    assert!(res.is_ok(), "Credentialed citizen should create proposal");
    let p = &e.proposals[0];
    assert_eq!(p.title, "Fund community garden");
    assert_eq!(p.proposer, "citizen1");
    assert_eq!(p.status, ProposalStatus::Active);
}

#[test]
fn credentialed_citizens_can_vote_and_tally() {
    let reg = registry_with_citizens(&["citizen1", "citizen2", "citizen3"]);
    let mut e = integration_engine();
    e.create_proposal(
        s("citizen1"),
        eligible(&reg, "citizen1"),
        s("Build a school"),
        s("Construct a school in district 5"),
        VotingMethod::OnePersonOneVote,
        Some(50),
        HEIGHT,
    )
    .unwrap();
    for c in ["citizen1", "citizen2", "citizen3"] {
        e.cast_vote(s(c), eligible(&reg, c), 1, VoteOption::Yes, None, HEIGHT).unwrap();
    }
    let res = e.tally(1, HEIGHT + 51);
    assert!(res.is_ok());
    assert_eq!(e.proposals[0].status, ProposalStatus::Passed);
    assert_eq!(e.proposals[0].votes_for, 3);
}

#[test]
fn proposal_rejected_when_majority_votes_no() {
    let reg = registry_with_citizens(&["citizen1", "citizen2", "citizen3"]);
    let mut e = integration_engine();
    e.create_proposal(
        s("citizen1"),
        eligible(&reg, "citizen1"),
        s("Bad proposal"),
        s("Waste money"),
        VotingMethod::OnePersonOneVote,
        Some(50),
        HEIGHT,
    )
    .unwrap();
    e.cast_vote(s("citizen1"), eligible(&reg, "citizen1"), 1, VoteOption::Yes, None, HEIGHT).unwrap();
    for c in ["citizen2", "citizen3"] {
        e.cast_vote(s(c), eligible(&reg, c), 1, VoteOption::No, None, HEIGHT).unwrap();
    }
    e.tally(1, HEIGHT + 51).unwrap();
    assert_eq!(e.proposals[0].status, ProposalStatus::Rejected);
}

#[test]
fn quadratic_voting_weights_correctly() {
    let reg = registry_with_citizens(&["citizen1", "citizen2"]);
    let mut e = integration_engine();
    e.create_proposal(
        s("citizen1"),
        eligible(&reg, "citizen1"),
        s("Quadratic test"),
        s("Testing quadratic voting weights"),
        VotingMethod::Quadratic,
        Some(50),
        HEIGHT,
    )
    .unwrap();
    let w1 = e.cast_vote(s("citizen1"), eligible(&reg, "citizen1"), 1, VoteOption::Yes, Some(100), HEIGHT).unwrap();
    let w2 = e.cast_vote(s("citizen2"), eligible(&reg, "citizen2"), 1, VoteOption::No, Some(9), HEIGHT).unwrap();
    assert_eq!((w1, w2), (10, 3));
    e.tally(1, HEIGHT + 51).unwrap();
    assert_eq!(e.proposals[0].status, ProposalStatus::Passed);
    assert_eq!(e.proposals[0].votes_for, 10);
    assert_eq!(e.proposals[0].votes_against, 3);
}

#[test]
fn full_citizen_lifecycle_credential_to_vote_to_execute() {
    let mut reg = CredentialRegistry::new(s("admin"), vec![s("admin")]);
    let mut ids = Vec::new();
    for c in ["citizen1", "citizen2", "citizen3"] {
        ids.push(
            reg.issue_credential(
                &s("admin"),
                s(c),
                CredentialType::Citizenship,
                s("test_commitment_hash_for_integration"),
                0,
                1_000,
            )
            .unwrap(),
        );
    }
    assert!(!ids[0].is_empty());
    assert!(!ids[1].is_empty());
    assert!(!ids[2].is_empty());
    assert!(eligible(&reg, "citizen1"));

    let mut e = integration_engine();
    e.create_proposal(
        s("citizen1"),
        eligible(&reg, "citizen1"),
        s("Improve water system"),
        s("Upgrade district 3 water treatment"),
        VotingMethod::OnePersonOneVote,
        Some(100),
        HEIGHT,
    )
    .unwrap();
    for c in ["citizen1", "citizen2", "citizen3"] {
        e.cast_vote(s(c), eligible(&reg, c), 1, VoteOption::Yes, None, HEIGHT).unwrap();
    }
    assert_eq!(e.proposals[0].votes_for, 3);
    assert_eq!(e.proposals[0].votes_against, 0);
    e.tally(1, HEIGHT + 101).unwrap();
    assert_eq!(e.proposals[0].status, ProposalStatus::Passed);
    e.execute_proposal(1, HEIGHT + 101).unwrap();
    assert_eq!(e.proposals[0].status, ProposalStatus::Executed);
}

#[test]
fn second_tally_fails_and_keeps_counts() {
    let mut e = integration_engine();
    e.create_proposal(s("p"), true, s("T"), s("D"), VotingMethod::OnePersonOneVote, Some(5), 10).unwrap();
    e.cast_vote(s("a"), true, 1, VoteOption::Yes, None, 12).unwrap();
    e.cast_vote(s("b"), true, 1, VoteOption::No, None, 12).unwrap();
    assert_eq!(e.tally(1, 16).unwrap(), ProposalStatus::Passed);
    let err = e.tally(1, 30).unwrap_err();
    assert!(matches!(err, ContractError::ProposalNotActive));
    assert_eq!((e.proposals[0].votes_for, e.proposals[0].votes_against), (1, 1));
    assert_eq!(e.proposals[0].status, ProposalStatus::Passed);
}

#[test]
fn quadratic_zero_tokens_weigh_one() {
    assert_eq!(vote_weight(VotingMethod::Quadratic, Some(0)), 1);
    assert_eq!(vote_weight(VotingMethod::Quadratic, None), 1);
    assert_eq!(vote_weight(VotingMethod::Quadratic, Some(1)), 1);
    assert_eq!(vote_weight(VotingMethod::Quadratic, Some(99)), 9);
    assert_eq!(vote_weight(VotingMethod::OnePersonOneVote, Some(1_000_000)), 1);
    let mut e = integration_engine();
    e.create_proposal(s("p"), true, s("T"), s("D"), VotingMethod::Quadratic, Some(5), 10).unwrap();
    assert_eq!(e.cast_vote(s("a"), true, 1, VoteOption::Yes, Some(0), 10).unwrap(), 1);
    assert_eq!(e.proposals[0].votes_for, 1);
}

#[test]
fn all_abstain_is_rejected() {
    let mut e = integration_engine();
    e.create_proposal(s("p"), true, s("T"), s("D"), VotingMethod::OnePersonOneVote, Some(5), 10).unwrap();
    e.cast_vote(s("a"), true, 1, VoteOption::Abstain, None, 10).unwrap();
    e.cast_vote(s("b"), true, 1, VoteOption::Abstain, None, 10).unwrap();
    assert_eq!(e.tally(1, 16).unwrap(), ProposalStatus::Rejected);
    assert_eq!(e.proposals[0].total_voters, 2);
}

#[test]
fn no_ballots_expire() {
    let mut e = integration_engine();
    e.create_proposal(s("p"), true, s("T"), s("D"), VotingMethod::OnePersonOneVote, Some(5), 10).unwrap();
    assert!(matches!(e.tally(1, 15).unwrap_err(), ContractError::VotingPeriodNotEnded));
    assert_eq!(e.tally(1, 16).unwrap(), ProposalStatus::Expired);
    assert!(matches!(e.execute_proposal(1, 100).unwrap_err(), ContractError::InvalidState));
}

#[test]
fn threshold_is_inclusive_in_basis_points() {
    // 2 Yes of 3 cast is 6666 bps: passes at 6666, fails at 6667.
    for (threshold, expected) in [(6666u64, ProposalStatus::Passed), (6667u64, ProposalStatus::Rejected)] {
        let mut e = VotingEngine::new(s("admin"), s("r"), s("t"), 5, 0, threshold, 0);
        e.create_proposal(s("p"), true, s("T"), s("D"), VotingMethod::OnePersonOneVote, None, 10).unwrap();
        e.cast_vote(s("a"), true, 1, VoteOption::Yes, None, 10).unwrap();
        e.cast_vote(s("b"), true, 1, VoteOption::Yes, None, 10).unwrap();
        e.cast_vote(s("c"), true, 1, VoteOption::No, None, 10).unwrap();
        assert_eq!(e.tally(1, 16).unwrap(), expected);
        assert_eq!(e.proposals[0].execute_at, if expected == ProposalStatus::Passed { 16 } else { 0 });
    }
}

#[test]
fn vote_refusals() {
    let mut e = integration_engine();
    assert!(matches!(
        e.create_proposal(s("p"), false, s("T"), s("D"), VotingMethod::OnePersonOneVote, None, 10).unwrap_err(),
        ContractError::NoVerifiedCredential
    ));
    e.create_proposal(s("p"), true, s("T"), s("D"), VotingMethod::OnePersonOneVote, Some(5), 10).unwrap();
    assert_eq!(e.proposals[0].end_height, 15);
    assert!(matches!(
        e.cast_vote(s("a"), false, 1, VoteOption::Yes, None, 10).unwrap_err(),
        ContractError::NoVerifiedCredential
    ));
    assert!(matches!(
        e.cast_vote(s("a"), true, 2, VoteOption::Yes, None, 10).unwrap_err(),
        ContractError::ProposalNotFound { id: 2 }
    ));
    assert!(matches!(
        e.cast_vote(s("a"), true, 1, VoteOption::Yes, None, 16).unwrap_err(),
        ContractError::VotingPeriodEnded
    ));
    e.cancel(1, &s("p")).unwrap();
    assert!(matches!(
        e.cast_vote(s("a"), true, 1, VoteOption::Yes, None, 10).unwrap_err(),
        ContractError::ProposalNotActive
    ));
    assert!(e.votes.is_empty());
}

#[test]
fn cancel_rules() {
    let mut e = setup();
    e.create_proposal(s("p"), true, s("T"), s("D"), VotingMethod::OnePersonOneVote, Some(5), 10).unwrap();
    assert!(matches!(e.cancel(1, &s("stranger")).unwrap_err(), ContractError::Unauthorized { .. }));
    e.cancel(1, &s("admin")).unwrap();
    assert_eq!(e.proposals[0].status, ProposalStatus::Cancelled);
    assert!(matches!(e.cancel(1, &s("p")).unwrap_err(), ContractError::InvalidState));
    assert!(matches!(e.cancel(7, &s("p")).unwrap_err(), ContractError::ProposalNotFound { id: 7 }));
}

#[test]
fn config_changes_do_not_reach_open_proposals() {
    let mut e = setup();
    e.create_proposal(s("p"), true, s("T"), s("D"), VotingMethod::OnePersonOneVote, None, 10).unwrap();
    assert!(matches!(
        e.update_config(&s("p"), None, None, Some(9000), None).unwrap_err(),
        ContractError::Unauthorized { .. }
    ));
    e.update_config(&s("admin"), Some(7), None, Some(9000), Some(0)).unwrap();
    assert_eq!(e.config.voting_period, 7);
    assert_eq!(e.config.quorum_bps, 3000);
    assert_eq!(e.proposals[0].threshold_bps, 5000);
    e.create_proposal(s("p"), true, s("T2"), s("D2"), VotingMethod::OnePersonOneVote, None, 10).unwrap();
    assert_eq!(e.proposals[1].threshold_bps, 9000);
    assert_eq!(e.proposals[1].end_height, 17);
}

#[test]
fn integer_helpers() {
    assert_eq!(isqrt(0), 0);
    assert_eq!(isqrt(15), 3);
    assert_eq!(isqrt(16), 4);
    assert_eq!(isqrt(u128::MAX), u64::MAX as u128);
    assert_eq!(mul_div_floor(7, 3, 2), Some(10));
    assert_eq!(mul_div_floor(u128::MAX, 10_000, u128::MAX), Some(10_000));
    assert_eq!(mul_div_floor(u128::MAX - 1, 10_000, u128::MAX), Some(9_999));
    assert_eq!(mul_div_floor(u128::MAX, 2, 1), None);
    assert_eq!(mul_div_floor(1_000_000, 1000, 10_000), Some(100_000));
}

#[test]
fn proposal_pages() {
    let mut e = setup();
    for _ in 0..105 {
        e.create_proposal(s("p"), true, s("T"), s("D"), VotingMethod::OnePersonOneVote, None, 1).unwrap();
    }
    let first = e.list_proposals(None, None);
    assert_eq!(first.len(), 30);
    assert_eq!((first[0], first[29]), (1, 30));
    assert_eq!(e.list_proposals(Some(30), Some(5)), vec![31, 32, 33, 34, 35]);
    assert_eq!(e.list_proposals(None, Some(500)).len(), 100);
    assert_eq!(e.list_proposals(Some(100), Some(500)), vec![101, 102, 103, 104, 105]);
    assert!(e.list_proposals(Some(105), None).is_empty());
    assert!(e.list_proposals(Some(u64::MAX), None).is_empty());
}

#[test]
fn ballot_lookup() {
    let mut e = setup();
    e.create_proposal(s("p"), true, s("T"), s("D"), VotingMethod::OnePersonOneVote, None, 1).unwrap();
    e.create_proposal(s("p"), true, s("T"), s("D"), VotingMethod::OnePersonOneVote, None, 1).unwrap();
    e.cast_vote(s("a"), true, 1, VoteOption::Yes, None, 1).unwrap();
    e.cast_vote(s("a"), true, 2, VoteOption::No, None, 1).unwrap();
    e.cast_vote(s("b"), true, 1, VoteOption::Abstain, None, 1).unwrap();
    assert_eq!(e.list_votes(1, None), vec![0, 2]);
    assert_eq!(e.list_votes(1, Some(1)), vec![0]);
    let i = e.vote_index(2, &s("a")).unwrap();
    assert_eq!(e.votes[i].vote, VoteOption::No);
    assert_eq!(e.votes[i].weight, 1);
    assert!(e.vote_index(2, &s("b")).is_none());
}

#[test]
fn proposal_templates() {
    let spend = ProposalTemplate::TreasurySpend {
        recipient: s("clinic"),
        amount: 1_500,
        denom: s("ucitizen"),
        category: s("healthcare"),
        memo: s("beds"),
    };
    assert_eq!(spend.label(), "Treasury Spend");
    assert_eq!(spend.auto_title(), "Spend 1500 ucitizen to clinic");
    assert_eq!(
        spend.auto_description(),
        "Authorize spending 1500 ucitizen from the treasury to clinic.\nCategory: healthcare\nMemo: beds"
    );
    let change = ProposalTemplate::ParameterChange { parameter: GovernanceParameter::QuorumBps, new_value: 0, rationale: s("r") };
    assert_eq!(change.auto_title(), "Set QuorumBps to 0");
    assert_eq!(change.auto_description(), "Change governance parameter QuorumBps to 0.\nRationale: r");
    let grant = ProposalTemplate::GrantFunding { grant_id: 7, total_funding: 10, denom: s("u") };
    assert_eq!(grant.auto_title(), "Fund grant #7 with 10 u");
    assert_eq!(grant.auto_description(), "Approve funding of 10 u for grant application #7.");
    let issuer = ProposalTemplate::IssuerManagement { action: IssuerAction::Remove, issuer_address: s("x"), justification: s("j") };
    assert_eq!(issuer.label(), "Issuer Management");
    assert_eq!(issuer.auto_title(), "Remove issuer x");
    assert_eq!(issuer.auto_description(), "Remove credential issuer x.\nJustification: j");
    let emission = ProposalTemplate::EmissionUpdate { phase_index: 2, new_rate_per_block: 99, rationale: s("r") };
    assert_eq!(emission.auto_title(), "Update phase 2 emission to 99 /block");
    assert_eq!(emission.auto_description(), "Update emission phase 2 rate to 99 per block.\nRationale: r");
    let emergency = ProposalTemplate::Emergency { action: s("halt"), description: s("why") };
    assert_eq!(emergency.auto_title(), "EMERGENCY: halt");
    assert_eq!(emergency.auto_description(), "EMERGENCY ACTION: halt\n\nwhy");
    let text = ProposalTemplate::TextProposal { summary: s("hello") };
    assert_eq!(text.label(), "Text / Signal");
    assert_eq!(text.auto_title(), "Signal: hello");
    assert_eq!(text.auto_description(), "hello");
}
