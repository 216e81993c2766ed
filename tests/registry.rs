use citizen_governance::errors::ContractError;
use citizen_governance::registry::{
    credential_type_label, recovery_id, CredentialRegistry, CredentialType, StoredRecoveryStatus, ZkProof,
};

fn zk_proof(data: &str, inputs: &[&str]) -> ZkProof {
    ZkProof { proof_data: s(data), public_inputs: inputs.iter().map(|i| s(i)).collect(), vk_reference: s("vk") }
}

fn s(v: &str) -> String {
    v.to_string()
}

fn setup_contract() -> CredentialRegistry {
    CredentialRegistry::new(s("admin"), vec![s("issuer1")])
}

#[test]
fn test_issue_credential() {
    let mut reg = setup_contract();
    let id = reg
        .issue_credential(&s("issuer1"), s("citizen1"), CredentialType::Citizenship, s("abc123"), 0, 1_571_797_419)
        .unwrap();
    assert_eq!(id, "d486e4b7dd55f8715418dabe6f6015d9");
    assert_eq!(reg.query_config().total_credentials, 1);
}

#[test]
fn test_unauthorized_issuer() {
    let mut reg = setup_contract();
    let err = reg
        .issue_credential(&s("random"), s("citizen1"), CredentialType::Citizenship, s("abc123"), 0, 1)
        .unwrap_err();
    assert!(matches!(err, ContractError::IssuerNotAuthorized { .. }));
}

#[test]
fn test_revoke_credential() {
    let mut reg = setup_contract();
    let id = reg
        .issue_credential(&s("issuer1"), s("citizen1"), CredentialType::Citizenship, s("abc123"), 0, 1)
        .unwrap();
    reg.revoke_credential(&s("issuer1"), &id).unwrap();
    assert!(reg.query_credential(&id).unwrap().revoked);
}

#[test]
fn test_add_remove_issuer() {
    let mut reg = setup_contract();
    reg.add_issuer(&s("admin"), s("issuer2")).unwrap();
    assert_eq!(reg.query_issuers().issuers.len(), 2);
    reg.remove_issuer(&s("admin"), &s("issuer2")).unwrap();
    assert_eq!(reg.query_issuers().issuers.len(), 1);
}

#[test]
fn credential_revocation_independence() {
    let mut reg = CredentialRegistry::new(s("admin"), vec![s("admin")]);
    let id = reg
        .issue_credential(
            &s("admin"),
            s("citizen1"),
            CredentialType::Citizenship,
            s("test_commitment_hash_for_integration"),
            0,
            1,
        )
        .unwrap();
    assert!(!reg.credentials[0].revoked);
    reg.revoke_credential(&s("admin"), &id).unwrap();
    assert!(reg.credentials[0].revoked);
    assert!(!reg.has_valid_credential(&s("citizen1"), &CredentialType::Citizenship, 2));
}

#[test]
fn duplicate_and_unknown_credentials() {
    let mut reg = setup_contract();
    reg.issue_credential(&s("issuer1"), s("c"), CredentialType::Residency, s("x"), 0, 5).unwrap();
    let err = reg.issue_credential(&s("issuer1"), s("c"), CredentialType::Residency, s("x"), 0, 5).unwrap_err();
    assert!(matches!(err, ContractError::CredentialAlreadyExists { .. }));
    assert!(matches!(
        reg.revoke_credential(&s("admin"), &s("nope")).unwrap_err(),
        ContractError::CredentialNotFound { .. }
    ));
    let id = reg.credentials[0].id.clone();
    assert!(matches!(reg.revoke_credential(&s("c"), &id).unwrap_err(), ContractError::Unauthorized { .. }));
    assert!(matches!(
        reg.add_issuer(&s("issuer1"), s("z")).unwrap_err(),
        ContractError::Unauthorized { .. }
    ));
}

#[test]
fn oracle_checks_type_revocation_and_expiry() {
    let mut reg = setup_contract();
    reg.issue_credential(&s("issuer1"), s("c"), CredentialType::Custom(s("pilot")), s("x"), 100, 5).unwrap();
    assert!(reg.has_valid_credential(&s("c"), &CredentialType::Custom(s("pilot")), 99));
    assert!(!reg.has_valid_credential(&s("c"), &CredentialType::Custom(s("pilot")), 100));
    assert!(!reg.has_valid_credential(&s("c"), &CredentialType::Custom(s("other")), 99));
    assert!(!reg.has_valid_credential(&s("c"), &CredentialType::Citizenship, 99));
    assert!(!reg.has_valid_credential(&s("d"), &CredentialType::Custom(s("pilot")), 99));
    assert_eq!(credential_type_label(&CredentialType::Custom(s("pilot"))), "custom:pilot");
    assert_eq!(credential_type_label(&CredentialType::AgeOver18), "age_over_18");
}

#[test]
fn proof_placeholder_compares_digest_with_commitment() {
    let mut reg = setup_contract();
    let good = s("9431581aac44122e2d5c8ff8fd696c19-and-more");
    let id = reg.issue_credential(&s("issuer1"), s("c"), CredentialType::Citizenship, good, 50, 5).unwrap();
    let good_proof = zk_proof("proofdata", &["in1", "in2"]);
    let result = reg.verify_credential(&id, &good_proof, 50).unwrap();
    assert!(result.valid);
    assert!(matches!(result.credential_type, CredentialType::Citizenship));
    assert!(matches!(
        reg.verify_credential(&id, &zk_proof("proofdata", &["in1"]), 50).unwrap_err(),
        ContractError::InvalidProof { .. }
    ));
    assert!(matches!(
        reg.verify_credential(&id, &good_proof, 51).unwrap_err(),
        ContractError::CredentialExpired
    ));
    let short = reg.issue_credential(&s("issuer1"), s("d"), CredentialType::Citizenship, s("9431"), 0, 5).unwrap();
    assert!(matches!(
        reg.verify_credential(&short, &good_proof, 50).unwrap_err(),
        ContractError::InvalidProof { .. }
    ));
    reg.revoke_credential(&s("admin"), &id).unwrap();
    assert!(matches!(
        reg.verify_credential(&id, &good_proof, 50).unwrap_err(),
        ContractError::CredentialRevoked
    ));
}

#[test]
fn verification_results_issue_credentials() {
    let mut reg = setup_contract();
    assert!(matches!(
        reg.submit_verification(&s("issuer1"), s("applicant1"), CredentialType::Citizenship, s("c"), true, 77)
            .unwrap_err(),
        ContractError::Unauthorized { .. }
    ));
    assert_eq!(
        reg.submit_verification(&s("admin"), s("applicant1"), CredentialType::Citizenship, s("c"), false, 77).unwrap(),
        None
    );
    let id = reg
        .submit_verification(&s("admin"), s("applicant1"), CredentialType::Citizenship, s("c"), true, 77)
        .unwrap()
        .unwrap();
    assert_eq!(id, "c112628e32f702fa452622d2e66bf9603ec00da9c5a933c0b745e82bc2bf0910");
    assert!(reg.has_valid_credential(&s("applicant1"), &CredentialType::Citizenship, u64::MAX));
}

#[test]
fn recovery_id_is_hex_digest_of_request() {
    let id = recovery_id(&s("alice"), &s("bob"), 100);
    assert_eq!(id, "1aa06479d7e5683f0de93a073aa02b1a1d925b50b6d6b04bdf33adbfe2c97735");
}

#[test]
fn recovery_timelock_contest_and_execution() {
    let mut reg = CredentialRegistry::new(s("admin"), vec![s("admin")]);
    for holder in ["old", "old", "other"] {
        let n = reg.credentials.len() as u64;
        reg.issue_credential(&s("admin"), s(holder), CredentialType::Citizenship, s("c"), 0, n).unwrap();
    }
    let now = 1_000;
    let id = reg.request_recovery(s("old"), s("new"), s("reverify-1"), now).unwrap();
    let rec = &reg.recoveries[0];
    assert_eq!(rec.execute_after, now + reg.recovery_timelock);
    assert_eq!(rec.status, StoredRecoveryStatus::TimelockWaiting);

    let err = reg.execute_recovery(&id, now + reg.recovery_timelock - 1).unwrap_err();
    assert!(matches!(err, ContractError::TimelockNotExpired { execute_at } if execute_at == now + 10080));
    let moved = reg.execute_recovery(&id, now + reg.recovery_timelock).unwrap();
    assert_eq!(moved, 2);
    assert_eq!(reg.recoveries[0].status, StoredRecoveryStatus::Executed);
    let holders: Vec<&str> = reg.credentials.iter().map(|c| c.holder.as_str()).collect();
    assert_eq!(holders, vec!["new", "new", "other"]);
    assert!(matches!(reg.execute_recovery(&id, u64::MAX).unwrap_err(), ContractError::InvalidState));

    // A contested recovery moves nothing and can no longer run.
    let id2 = reg.request_recovery(s("other"), s("thief"), s("reverify-2"), now).unwrap();
    assert!(matches!(reg.contest_recovery(&id2, &s("thief")).unwrap_err(), ContractError::Unauthorized { .. }));
    reg.contest_recovery(&id2, &s("other")).unwrap();
    assert_eq!(reg.recoveries[1].status, StoredRecoveryStatus::Contested);
    assert!(matches!(reg.execute_recovery(&id2, u64::MAX).unwrap_err(), ContractError::InvalidState));
    assert_eq!(reg.credentials[2].holder, "other");
    assert!(matches!(reg.contest_recovery(&id2, &s("other")).unwrap_err(), ContractError::InvalidState));
    assert!(matches!(
        reg.execute_recovery(&s("missing"), now).unwrap_err(),
        ContractError::RecoveryNotFound { .. }
    ));
}

#[test]
fn contract_queries() {
    let mut reg = setup_contract();
    assert_eq!(reg.query_config().admin, "admin");
    assert_eq!(reg.query_config().total_credentials, 0);
    for (n, holder) in ["a", "b", "a", "a"].iter().enumerate() {
        reg.issue_credential(&s("issuer1"), s(holder), CredentialType::Citizenship, s("c"), 0, n as u64).unwrap();
    }
    let list = reg.query_list(&s("a"), None).credentials;
    assert_eq!(list.len(), 3);
    assert!(list.iter().all(|c| c.holder == "a"));
    assert_eq!(list[1].issued_at, 2);
    assert_eq!(reg.query_list(&s("a"), Some(2)).credentials.len(), 2);
    assert_eq!(reg.query_list(&s("z"), Some(500)).credentials.len(), 0);
    let has = reg.query_has_valid(&s("b"), &CredentialType::Citizenship, 10);
    assert!(has.has_credential);
    assert_eq!(has.credential_id.unwrap(), reg.credentials[1].id);
    let none = reg.query_has_valid(&s("b"), &CredentialType::Residency, 10);
    assert!(!none.has_credential && none.credential_id.is_none());
    let id = reg.request_recovery(s("a"), s("n"), s("r"), 5).unwrap();
    let rec = reg.query_recovery(&id).unwrap();
    assert_eq!(rec.status, "TimelockWaiting");
    assert_eq!(rec.execute_after, 5 + 10080);
    assert!(matches!(reg.query_credential(&s("x")).unwrap_err(), ContractError::CredentialNotFound { .. }));
}

#[test]
fn issuer_list_changes() {
    let mut reg = setup_contract();
    reg.add_issuer(&s("admin"), s("issuer1")).unwrap();
    assert_eq!(reg.query_issuers().issuers, vec![s("issuer1")]);
    assert!(matches!(reg.remove_issuer(&s("x"), &s("issuer1")).unwrap_err(), ContractError::Unauthorized { .. }));
    reg.remove_issuer(&s("admin"), &s("issuer1")).unwrap();
    assert!(matches!(
        reg.issue_credential(&s("issuer1"), s("c"), CredentialType::Citizenship, s("x"), 0, 1).unwrap_err(),
        ContractError::IssuerNotAuthorized { .. }
    ));
    reg.transfer_admin(&s("admin"), s("boss")).unwrap();
    assert!(matches!(reg.add_issuer(&s("admin"), s("y")).unwrap_err(), ContractError::Unauthorized { .. }));
    reg.add_issuer(&s("boss"), s("y")).unwrap();
}

#[test]
fn test_instantiate() {
    let reg = setup_contract();
    let config = reg.query_config();
    assert_eq!(config.admin, "admin");
    assert_eq!(config.total_credentials, 0);
}
