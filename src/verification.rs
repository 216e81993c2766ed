//! Records of the off-chain identity verification service as the chain sees
//! them, and the shared view of a recovery request.

use vstd::prelude::*;
use crate::registry::{StoredRecovery, StoredRecoveryStatus};

verus! {

/// A verification request submitted off-chain and relayed on-chain.
#[derive(Debug)]
pub struct VerificationRequest {
    pub request_id: String,
    pub applicant: String,
    pub verification_type: VerificationType,
    /// Hash of the identity data submitted, kept for audit.
    pub data_hash: String,
    pub status: VerificationStatus,
    pub requested_at: u64,
    /// Completion time; zero while pending.
    pub completed_at: u64,
}

#[derive(Debug, Clone, Copy, PartialEq, Eq, Structural)]
pub enum VerificationType {
    GovernmentId,
    ProofOfResidency,
    Biometric,
    SocialVouching,
    RecoveryReverification,
}

#[derive(Debug, Clone, Copy, PartialEq, Eq, Structural)]
pub enum VerificationStatus {
    Pending,
    /// The identity provider is examining the request.
    InReview,
    Approved,
    Rejected,
    Expired,
}

/// Settings of the verification service integration.
#[derive(Debug)]
pub struct VerificationConfig {
    pub api_endpoint: String,
    pub authorized_relayers: Vec<String>,
    pub min_social_vouches: u32,
    pub result_validity_secs: u64,
    pub require_biometric: bool,
}

/// An attestation a relayer submits for a verification outcome.
#[derive(Debug)]
pub struct VerificationAttestation {
    pub request_id: String,
    pub applicant: String,
    pub result: VerificationStatus,
    pub credential_type: String,
    pub commitment: String,
    pub relayer: String,
    pub attested_at: u64,
}

/// A recovery request without its id.
#[derive(Debug)]
pub struct RecoveryRequest {
    pub old_address: String,
    pub new_address: String,
    pub reverification_id: String,
    pub status: RecoveryStatus,
    pub requested_at: u64,
    pub execute_after: u64,
}

#[derive(Debug, Clone, Copy, PartialEq, Eq, Structural)]
pub enum RecoveryStatus {
    PendingVerification,
    TimelockWaiting,
    Executed,
    Contested,
    Cancelled,
}

pub open spec fn recovery_status_of(s: StoredRecoveryStatus) -> RecoveryStatus {
    match s {
        StoredRecoveryStatus::PendingVerification => RecoveryStatus::PendingVerification,
        StoredRecoveryStatus::TimelockWaiting => RecoveryStatus::TimelockWaiting,
        StoredRecoveryStatus::Executed => RecoveryStatus::Executed,
        StoredRecoveryStatus::Contested => RecoveryStatus::Contested,
        StoredRecoveryStatus::Cancelled => RecoveryStatus::Cancelled,
    }
}

/// The shared view of a stored recovery.
pub fn recovery_request(r: &StoredRecovery) -> (q: RecoveryRequest)
    ensures
        q.old_address == r.old_address,
        q.new_address == r.new_address,
        q.reverification_id == r.reverification_id,
        q.status == recovery_status_of(r.status),
        q.requested_at == r.requested_at,
        q.execute_after == r.execute_after,
{
    let status = match r.status {
        StoredRecoveryStatus::PendingVerification => RecoveryStatus::PendingVerification,
        StoredRecoveryStatus::TimelockWaiting => RecoveryStatus::TimelockWaiting,
        StoredRecoveryStatus::Executed => RecoveryStatus::Executed,
        StoredRecoveryStatus::Contested => RecoveryStatus::Contested,
        StoredRecoveryStatus::Cancelled => RecoveryStatus::Cancelled,
    };
    RecoveryRequest {
        old_address: r.old_address.clone(),
        new_address: r.new_address.clone(),
        reverification_id: r.reverification_id.clone(),
        status,
        requested_at: r.requested_at,
        execute_after: r.execute_after,
    }
}

} // verus!
