//! Credentials and the contestable recovery of an identity: a claimant asks
//! to take over an old principal's records, the old principal may veto during
//! a timelock, and once it has elapsed anyone may carry the move out.

use vstd::prelude::*;
use vstd::string::*;
use vstd::utf8::encode_utf8;
use crate::digest::{
    append_bytes, decimal_of, hex_encode, hex_of, le_bytes, push_decimal, sha256, sha256_of, u64_le_bytes,
};
use crate::errors::ContractError;
use crate::paging::{page_limit, page_size};

verus! {

/// Blocks a recovery waits before it may run, about seven days of blocks.
pub const DEFAULT_RECOVERY_TIMELOCK: u64 = 10080;

#[derive(Debug)]
pub enum CredentialType {
    Citizenship,
    Residency,
    AgeOver18,
    HealthcareEligibility,
    Custom(String),
}

/// A credential held by `holder`; `expires_at` zero means it never expires.
#[derive(Debug)]
pub struct Credential {
    pub id: String,
    pub holder: String,
    pub credential_type: CredentialType,
    pub commitment: String,
    pub issuer: String,
    pub issued_at: u64,
    pub expires_at: u64,
    pub revoked: bool,
}

#[derive(Debug, Clone, Copy, PartialEq, Eq, Structural)]
pub enum StoredRecoveryStatus {
    PendingVerification,
    TimelockWaiting,
    Executed,
    Contested,
    Cancelled,
}

/// A zero-knowledge proof placeholder: data and public inputs whose digest
/// must match a credential's commitment.
#[derive(Debug)]
pub struct ZkProof {
    pub proof_data: String,
    pub public_inputs: Vec<String>,
    pub vk_reference: String,
}

/// Outcome of a successful proof check.
#[derive(Debug)]
pub struct VerificationResult {
    pub valid: bool,
    pub credential_type: CredentialType,
    pub message: String,
}

#[derive(Debug)]
pub struct CredentialResponse {
    pub id: String,
    pub holder: String,
    pub credential_type: CredentialType,
    pub commitment: String,
    pub issuer: String,
    pub issued_at: u64,
    pub expires_at: u64,
    pub revoked: bool,
}

#[derive(Debug)]
pub struct HasCredentialResponse {
    pub has_credential: bool,
    pub credential_id: Option<String>,
}

#[derive(Debug)]
pub struct CredentialsListResponse {
    pub credentials: Vec<CredentialResponse>,
}

#[derive(Debug)]
pub struct IssuersResponse {
    pub issuers: Vec<String>,
}

#[derive(Debug)]
pub struct ConfigResponse {
    pub admin: String,
    pub total_credentials: u64,
}

#[derive(Debug)]
pub struct RecoveryResponse {
    pub recovery_id: String,
    pub old_address: String,
    pub new_address: String,
    /// The status's name.
    pub status: String,
    pub requested_at: u64,
    pub execute_after: u64,
}

/// `resp` shows credential `c`.
pub open spec fn shows(resp: CredentialResponse, c: Credential) -> bool {
    &&& resp.id == c.id
    &&& resp.holder == c.holder
    &&& resp.credential_type == c.credential_type
    &&& resp.commitment == c.commitment
    &&& resp.issuer == c.issuer
    &&& resp.issued_at == c.issued_at
    &&& resp.expires_at == c.expires_at
    &&& resp.revoked == c.revoked
}

/// The credentials of `holder`, in store order.
pub open spec fn held_by(s: Seq<Credential>, holder: Seq<char>) -> Seq<Credential>
    decreases s.len(),
{
    if s.len() == 0 {
        Seq::empty()
    } else if s.last().holder@ == holder {
        held_by(s.drop_last(), holder).push(s.last())
    } else {
        held_by(s.drop_last(), holder)
    }
}

fn credential_response(c: &Credential) -> (r: CredentialResponse)
    ensures
        shows(r, *c),
{
    CredentialResponse {
        id: c.id.clone(),
        holder: c.holder.clone(),
        credential_type: copy_type(&c.credential_type),
        commitment: c.commitment.clone(),
        issuer: c.issuer.clone(),
        issued_at: c.issued_at,
        expires_at: c.expires_at,
        revoked: c.revoked,
    }
}

impl StoredRecoveryStatus {
    pub open spec fn name_spec(&self) -> Seq<char> {
        match self {
            StoredRecoveryStatus::PendingVerification => "PendingVerification"@,
            StoredRecoveryStatus::TimelockWaiting => "TimelockWaiting"@,
            StoredRecoveryStatus::Executed => "Executed"@,
            StoredRecoveryStatus::Contested => "Contested"@,
            StoredRecoveryStatus::Cancelled => "Cancelled"@,
        }
    }

    /// The status's name.
    pub fn name(&self) -> (r: &'static str)
        ensures
            r@ == self.name_spec(),
    {
        match self {
            StoredRecoveryStatus::PendingVerification => "PendingVerification",
            StoredRecoveryStatus::TimelockWaiting => "TimelockWaiting",
            StoredRecoveryStatus::Executed => "Executed",
            StoredRecoveryStatus::Contested => "Contested",
            StoredRecoveryStatus::Cancelled => "Cancelled",
        }
    }
}

#[derive(Debug)]
pub struct StoredRecovery {
    pub recovery_id: String,
    pub old_address: String,
    pub new_address: String,
    pub reverification_id: String,
    pub status: StoredRecoveryStatus,
    pub requested_at: u64,
    pub execute_after: u64,
}

#[derive(Debug)]
pub struct CredentialRegistry {
    pub admin: String,
    pub issuers: Vec<String>,
    pub credentials: Vec<Credential>,
    pub recovery_timelock: u64,
    pub recoveries: Vec<StoredRecovery>,
}

/// The text hashed into a recovery's id.
pub open spec fn recovery_seed(old: Seq<char>, claimant: Seq<char>, height: u64) -> Seq<char> {
    "recovery:"@ + old + ":"@ + claimant + ":"@ + decimal_of(height as nat)
}

/// A recovery's id: the hex SHA-256 of its seed, so one claimant's request on
/// one principal at one height always gets the same id.
pub open spec fn recovery_id_of(old: Seq<char>, claimant: Seq<char>, height: u64) -> Seq<char> {
    hex_of(sha256_of(encode_utf8(recovery_seed(old, claimant, height))))
}

/// The credential after a recovery moving `from`'s records to `to`.
pub open spec fn rekeyed(c: Credential, from: Seq<char>, to: String) -> Credential {
    if c.holder@ == from {
        Credential { holder: to, ..c }
    } else {
        c
    }
}

/// Number of credentials held by `holder`.
pub open spec fn count_held(s: Seq<Credential>, holder: Seq<char>) -> nat
    decreases s.len(),
{
    if s.len() == 0 {
        0
    } else {
        count_held(s.drop_last(), holder) + if s.last().holder@ == holder { 1nat } else { 0nat }
    }
}

/// The name a credential type is known by.
pub open spec fn type_label(t: CredentialType) -> Seq<char> {
    match t {
        CredentialType::Citizenship => "citizenship"@,
        CredentialType::Residency => "residency"@,
        CredentialType::AgeOver18 => "age_over_18"@,
        CredentialType::HealthcareEligibility => "healthcare_eligibility"@,
        CredentialType::Custom(s) => "custom:"@ + s@,
    }
}

/// The name a credential type is known by.
pub fn credential_type_label(t: &CredentialType) -> (r: String)
    ensures
        r@ == type_label(*t),
{
    match t {
        CredentialType::Citizenship => String::from_str("citizenship"),
        CredentialType::Residency => String::from_str("residency"),
        CredentialType::AgeOver18 => String::from_str("age_over_18"),
        CredentialType::HealthcareEligibility => String::from_str("healthcare_eligibility"),
        CredentialType::Custom(s) => {
            let mut r = String::from_str("custom:");
            r.append(s.as_str());
            r
        },
    }
}

/// The bytes hashed into the id of a credential issued directly.
pub open spec fn issue_seed(holder: Seq<char>, t: CredentialType, commitment: Seq<char>, time: u64) -> Seq<u8> {
    encode_utf8(holder) + encode_utf8(type_label(t)) + encode_utf8(commitment) + le_bytes(time as nat, 8)
}

/// A directly issued credential's id: the first 16 digest bytes in hex,
/// which are the first 32 characters of the digest's hex.
pub open spec fn credential_id_of(holder: Seq<char>, t: CredentialType, commitment: Seq<char>, time: u64) -> Seq<char> {
    hex_of(sha256_of(issue_seed(holder, t, commitment, time)).subrange(0, 16))
}

/// The bytes a proof placeholder hashes: its data, then each public input.
pub open spec fn proof_bytes(data: Seq<char>, inputs: Seq<String>) -> Seq<u8>
    decreases inputs.len(),
{
    if inputs.len() == 0 {
        encode_utf8(data)
    } else {
        proof_bytes(data, inputs.drop_last()) + encode_utf8(inputs.last()@)
    }
}

/// The proof placeholder holds: the first 32 bytes of the commitment are the
/// hex of the first 16 bytes of the proof's digest.
pub open spec fn proof_matches(commitment: Seq<char>, data: Seq<char>, inputs: Seq<String>) -> bool {
    let expected = hex_of(sha256_of(proof_bytes(data, inputs)).subrange(0, 16));
    encode_utf8(commitment).len() >= 32 && encode_utf8(commitment).subrange(0, 32) == encode_utf8(expected)
}

/// The text hashed into the id of a credential issued on a verification.
pub open spec fn verified_seed(applicant: Seq<char>, t: CredentialType, time: u64) -> Seq<char> {
    applicant + ":"@ + type_label(t) + ":"@ + decimal_of(time as nat)
}

/// The id of a credential issued on a verification: the full hex SHA-256 of
/// its seed.
pub open spec fn verified_id_of(applicant: Seq<char>, t: CredentialType, time: u64) -> Seq<char> {
    hex_of(sha256_of(encode_utf8(verified_seed(applicant, t, time))))
}

/// Same credential type; custom types compare by their name.
pub open spec fn same_type(a: CredentialType, b: CredentialType) -> bool {
    type_label(a) == type_label(b)
}

/// Some name in `s` is `a`.
pub open spec fn names_contain(s: Seq<String>, a: Seq<char>) -> bool {
    exists|i: int| 0 <= i < s.len() && (#[trigger] s[i])@ == a
}

/// The first 32 bytes of `have` are `want`.
fn starts_with_32(have: &[u8], want: &[u8]) -> (r: bool)
    ensures
        r == (have@.len() >= 32 && have@.subrange(0, 32) == want@),
{
    if have.len() < 32 || want.len() != 32 {
        return false;
    }
    let mut j: usize = 0;
    while j < 32
        invariant
            j <= 32,
            have@.len() >= 32,
            want@.len() == 32,
            forall|t: int| 0 <= t < j ==> have@[t] == want@[t],
        decreases 32 - j,
    {
        if have[j] != want[j] {
            assert(have@.subrange(0, 32)[j as int] != want@[j as int]);
            return false;
        }
        j += 1;
    }
    assert(have@.subrange(0, 32) =~= want@);
    true
}

fn first_bytes(v: &Vec<u8>, n: usize) -> (r: Vec<u8>)
    requires
        n <= v@.len(),
    ensures
        r@ == v@.subrange(0, n as int),
{
    let mut r: Vec<u8> = Vec::new();
    let mut i: usize = 0;
    while i < n
        invariant
            i <= n <= v@.len(),
            r@ == v@.subrange(0, i as int),
        decreases n - i,
    {
        r.push(v[i]);
        i += 1;
        assert(r@ =~= v@.subrange(0, i as int));
    }
    r
}

fn copy_type(t: &CredentialType) -> (c: CredentialType)
    ensures
        c == *t,
{
    match t {
        CredentialType::Citizenship => CredentialType::Citizenship,
        CredentialType::Residency => CredentialType::Residency,
        CredentialType::AgeOver18 => CredentialType::AgeOver18,
        CredentialType::HealthcareEligibility => CredentialType::HealthcareEligibility,
        CredentialType::Custom(s) => CredentialType::Custom(s.clone()),
    }
}

fn copy_recovery(r: &StoredRecovery) -> (c: StoredRecovery)
    ensures
        c == *r,
{
    StoredRecovery {
        recovery_id: r.recovery_id.clone(),
        old_address: r.old_address.clone(),
        new_address: r.new_address.clone(),
        reverification_id: r.reverification_id.clone(),
        status: r.status,
        requested_at: r.requested_at,
        execute_after: r.execute_after,
    }
}

/// The id of a recovery asked by `claimant` for `old` at `height`.
pub fn recovery_id(old: &String, claimant: &String, height: u64) -> (r: String)
    ensures
        r@ == recovery_id_of(old@, claimant@, height),
{
    let mut seed = String::from_str("recovery:");
    seed.append(old.as_str());
    seed.append(":");
    seed.append(claimant.as_str());
    seed.append(":");
    push_decimal(&mut seed, height as u128);
    assert(seed@ =~= recovery_seed(old@, claimant@, height));
    let digest = sha256(seed.as_str().as_bytes());
    hex_encode(digest.as_slice())
}

impl CredentialRegistry {
    /// Recovery ids are unique.
    pub open spec fn wf(&self) -> bool {
        forall|i: int, j: int| 0 <= i < j < self.recoveries@.len()
            ==> (#[trigger] self.recoveries@[i]).recovery_id@ != (#[trigger] self.recoveries@[j]).recovery_id@
    }

    pub open spec fn has_recovery(&self, id: Seq<char>) -> bool {
        exists|i: int| 0 <= i < self.recoveries@.len() && (#[trigger] self.recoveries@[i]).recovery_id@ == id
    }

    /// Position of the recovery with id `id`, when there is one.
    pub open spec fn recovery_index(&self, id: Seq<char>) -> int {
        choose|i: int| 0 <= i < self.recoveries@.len() && (#[trigger] self.recoveries@[i]).recovery_id@ == id
    }

    /// An empty registry administered by `admin`, trusting `issuers`.
    pub fn new(admin: String, issuers: Vec<String>) -> (r: Self)
        ensures
            r.wf(),
            r.admin == admin,
            r.issuers == issuers,
            r.credentials@.len() == 0,
            r.recoveries@.len() == 0,
            r.recovery_timelock == DEFAULT_RECOVERY_TIMELOCK,
    {
        CredentialRegistry {
            admin,
            issuers,
            credentials: Vec::new(),
            recovery_timelock: DEFAULT_RECOVERY_TIMELOCK,
            recoveries: Vec::new(),
        }
    }

    fn find_recovery(&self, id: &String) -> (r: Option<usize>)
        requires
            self.wf(),
        ensures
            match r {
                Some(i) => i < self.recoveries@.len() && self.has_recovery(id@) && i == self.recovery_index(id@),
                None => !self.has_recovery(id@),
            },
    {
        let mut i: usize = 0;
        while i < self.recoveries.len()
            invariant
                self.wf(),
                i <= self.recoveries@.len(),
                forall|k: int| 0 <= k < i ==> (#[trigger] self.recoveries@[k]).recovery_id@ != id@,
            decreases self.recoveries@.len() - i,
        {
            if self.recoveries[i].recovery_id == *id {
                proof {
                    assert(self.recoveries@[i as int].recovery_id@ == id@);
                    assert(self.has_recovery(id@));
                    let j = self.recovery_index(id@);
                    assert(0 <= j < self.recoveries@.len() && self.recoveries@[j].recovery_id@ == id@);
                    if j != i as int {
                        if j < i as int {
                            assert(self.recoveries@[j].recovery_id@ != self.recoveries@[i as int].recovery_id@);
                        } else {
                            assert(self.recoveries@[i as int].recovery_id@ != self.recoveries@[j].recovery_id@);
                        }
                    }
                }
                return Some(i);
            }
            i += 1;
        }
        None
    }

    /// Opens a recovery of `old_address`'s records for `claimant` at height
    /// `now`, executable once the timelock has elapsed, and returns its id. A
    /// request with the id of an existing one replaces it.
    pub fn request_recovery(
        &mut self,
        old_address: String,
        claimant: String,
        reverification_id: String,
        now: u64,
    ) -> (r: Result<String, ContractError>)
        requires
            old(self).wf(),
        ensures
            final(self).wf(),
            final(self).admin == old(self).admin,
            final(self).issuers == old(self).issuers,
            final(self).credentials@ == old(self).credentials@,
            final(self).recovery_timelock == old(self).recovery_timelock,
            now + old(self).recovery_timelock > u64::MAX ==> r == Err::<String, ContractError>(ContractError::Overflow)
                && final(self).recoveries@ == old(self).recoveries@,
            now + old(self).recovery_timelock <= u64::MAX ==> (r matches Ok(id) && {
                let rec = StoredRecovery {
                    recovery_id: id,
                    old_address,
                    new_address: claimant,
                    reverification_id,
                    status: StoredRecoveryStatus::TimelockWaiting,
                    requested_at: now,
                    execute_after: (now + old(self).recovery_timelock) as u64,
                };
                &&& id@ == recovery_id_of(old_address@, claimant@, now)
                &&& final(self).recoveries@ == if old(self).has_recovery(id@) {
                    old(self).recoveries@.update(old(self).recovery_index(id@), rec)
                } else {
                    old(self).recoveries@.push(rec)
                }
            }),
    {
        let execute_after = match now.checked_add(self.recovery_timelock) {
            Some(h) => h,
            None => return Err(ContractError::Overflow),
        };
        let id = recovery_id(&old_address, &claimant, now);
        let pos = self.find_recovery(&id);
        let rec = StoredRecovery {
            recovery_id: id.clone(),
            old_address,
            new_address: claimant,
            reverification_id,
            status: StoredRecoveryStatus::TimelockWaiting,
            requested_at: now,
            execute_after,
        };
        let ghost before = self.recoveries@;
        match pos {
            Some(i) => {
                self.recoveries.set(i, rec);
                assert forall|a: int, b: int| 0 <= a < b < self.recoveries@.len() implies
                    (#[trigger] self.recoveries@[a]).recovery_id@ != (#[trigger] self.recoveries@[b]).recovery_id@ by {
                    if a != i as int && b != i as int {
                        assert(self.recoveries@[a] == before[a] && self.recoveries@[b] == before[b]);
                    } else if a == i as int {
                        assert(self.recoveries@[b] == before[b]);
                        assert(before[a].recovery_id@ != before[b].recovery_id@);
                    } else {
                        assert(self.recoveries@[a] == before[a]);
                        assert(before[a].recovery_id@ != before[b].recovery_id@);
                    }
                }
            },
            None => {
                self.recoveries.push(rec);
                assert forall|a: int, b: int| 0 <= a < b < self.recoveries@.len() implies
                    (#[trigger] self.recoveries@[a]).recovery_id@ != (#[trigger] self.recoveries@[b]).recovery_id@ by {
                    assert(self.recoveries@[a] == before[a]);
                    if b < before.len() {
                        assert(self.recoveries@[b] == before[b]);
                    }
                }
            },
        }
        Ok(id)
    }

    /// The recovery `id` after an execution at height `now`, or why it is
    /// refused.
    pub open spec fn execute_recovery_spec(&self, id: String, now: u64) -> Result<StoredRecovery, ContractError> {
        if !self.has_recovery(id@) {
            Err(ContractError::RecoveryNotFound { id })
        } else {
            let rec = self.recoveries@[self.recovery_index(id@)];
            if rec.status != StoredRecoveryStatus::TimelockWaiting {
                Err(ContractError::InvalidState)
            } else if now < rec.execute_after {
                Err(ContractError::TimelockNotExpired { execute_at: rec.execute_after })
            } else {
                Ok(StoredRecovery { status: StoredRecoveryStatus::Executed, ..rec })
            }
        }
    }

    /// Carries out recovery `recovery_id` once its timelock has elapsed:
    /// every credential held by the old principal passes to the claimant, in
    /// one step, and the number moved is returned.
    pub fn execute_recovery(&mut self, recovery_id: &String, now: u64) -> (r: Result<u64, ContractError>)
        requires
            old(self).wf(),
        ensures
            final(self).wf(),
            final(self).admin == old(self).admin,
            final(self).issuers == old(self).issuers,
            final(self).recovery_timelock == old(self).recovery_timelock,
            match old(self).execute_recovery_spec(*recovery_id, now) {
                Ok(rec) => r == Ok::<u64, ContractError>(count_held(old(self).credentials@, rec.old_address@) as u64)
                    && final(self).recoveries@ == old(self).recoveries@.update(old(self).recovery_index(recovery_id@), rec)
                    && final(self).credentials@ == old(self).credentials@.map_values(
                        |c: Credential| rekeyed(c, rec.old_address@, rec.new_address),
                    ),
                Err(e) => r == Err::<u64, ContractError>(e)
                    && final(self).recoveries@ == old(self).recoveries@
                    && final(self).credentials@ == old(self).credentials@,
            },
    {
        let i = match self.find_recovery(recovery_id) {
            Some(i) => i,
            None => return Err(ContractError::RecoveryNotFound { id: recovery_id.clone() }),
        };
        let mut rec = copy_recovery(&self.recoveries[i]);
        if rec.status != StoredRecoveryStatus::TimelockWaiting {
            return Err(ContractError::InvalidState);
        }
        if now < rec.execute_after {
            return Err(ContractError::TimelockNotExpired { execute_at: rec.execute_after });
        }
        let ghost before = self.credentials@;
        let mut count: u64 = 0;
        let mut k: usize = 0;
        while k < self.credentials.len()
            invariant
                self.wf(),
                self.recoveries@ == old(self).recoveries@,
                self.admin == old(self).admin,
                self.issuers == old(self).issuers,
                self.recovery_timelock == old(self).recovery_timelock,
                i < self.recoveries@.len(),
                self.credentials@.len() == before.len(),
                k <= before.len(),
                count <= k,
                count == count_held(before.subrange(0, k as int), rec.old_address@),
                forall|j: int| 0 <= j < k ==> #[trigger] self.credentials@[j] == rekeyed(before[j], rec.old_address@, rec.new_address),
                forall|j: int| k <= j < before.len() ==> #[trigger] self.credentials@[j] == before[j],
            decreases before.len() - k,
        {
            assert(before.subrange(0, k as int + 1).drop_last() =~= before.subrange(0, k as int));
            let c = &self.credentials[k];
            if c.holder == rec.old_address {
                let moved = Credential {
                    id: c.id.clone(),
                    holder: rec.new_address.clone(),
                    credential_type: copy_type(&c.credential_type),
                    commitment: c.commitment.clone(),
                    issuer: c.issuer.clone(),
                    issued_at: c.issued_at,
                    expires_at: c.expires_at,
                    revoked: c.revoked,
                };
                self.credentials.set(k, moved);
                count = count + 1;
            }
            k += 1;
        }
        assert(before.subrange(0, before.len() as int) =~= before);
        assert(self.credentials@ =~= before.map_values(|c: Credential| rekeyed(c, rec.old_address@, rec.new_address)));
        rec.status = StoredRecoveryStatus::Executed;
        let ghost recs = self.recoveries@;
        self.recoveries.set(i, rec);
        assert forall|a: int, b: int| 0 <= a < b < self.recoveries@.len() implies
            (#[trigger] self.recoveries@[a]).recovery_id@ != (#[trigger] self.recoveries@[b]).recovery_id@ by {
            assert(self.recoveries@[a].recovery_id == recs[a].recovery_id);
            assert(self.recoveries@[b].recovery_id == recs[b].recovery_id);
        }
        Ok(count)
    }

    /// The recovery `id` after `caller` contests it, or why it is refused.
    pub open spec fn contest_recovery_spec(&self, id: String, caller: Seq<char>) -> Result<StoredRecovery, ContractError> {
        if !self.has_recovery(id@) {
            Err(ContractError::RecoveryNotFound { id })
        } else {
            let rec = self.recoveries@[self.recovery_index(id@)];
            if caller != rec.old_address@ {
                Err(ContractError::Unauthorized { reason: "Only the original address owner can contest recovery" })
            } else if rec.status != StoredRecoveryStatus::TimelockWaiting {
                Err(ContractError::InvalidState)
            } else {
                Ok(StoredRecovery { status: StoredRecoveryStatus::Contested, ..rec })
            }
        }
    }

    /// Vetoes a waiting recovery; only the principal it would move away from
    /// may. No record moves.
    pub fn contest_recovery(&mut self, recovery_id: &String, caller: &String) -> (r: Result<(), ContractError>)
        requires
            old(self).wf(),
        ensures
            final(self).wf(),
            final(self).admin == old(self).admin,
            final(self).issuers == old(self).issuers,
            final(self).recovery_timelock == old(self).recovery_timelock,
            final(self).credentials@ == old(self).credentials@,
            match old(self).contest_recovery_spec(*recovery_id, caller@) {
                Ok(rec) => r is Ok
                    && final(self).recoveries@ == old(self).recoveries@.update(old(self).recovery_index(recovery_id@), rec),
                Err(e) => r == Err::<(), ContractError>(e) && final(self).recoveries@ == old(self).recoveries@,
            },
    {
        let i = match self.find_recovery(recovery_id) {
            Some(i) => i,
            None => return Err(ContractError::RecoveryNotFound { id: recovery_id.clone() }),
        };
        let mut rec = copy_recovery(&self.recoveries[i]);
        if *caller != rec.old_address {
            return Err(ContractError::Unauthorized { reason: "Only the original address owner can contest recovery" });
        }
        if rec.status != StoredRecoveryStatus::TimelockWaiting {
            return Err(ContractError::InvalidState);
        }
        rec.status = StoredRecoveryStatus::Contested;
        let ghost recs = self.recoveries@;
        self.recoveries.set(i, rec);
        assert forall|a: int, b: int| 0 <= a < b < self.recoveries@.len() implies
            (#[trigger] self.recoveries@[a]).recovery_id@ != (#[trigger] self.recoveries@[b]).recovery_id@ by {
            assert(self.recoveries@[a].recovery_id == recs[a].recovery_id);
            assert(self.recoveries@[b].recovery_id == recs[b].recovery_id);
        }
        Ok(())
    }

    /// `addr` is a trusted issuer.
    pub open spec fn is_issuer(&self, addr: Seq<char>) -> bool {
        names_contain(self.issuers@, addr)
    }

    pub open spec fn has_credential_id(&self, id: Seq<char>) -> bool {
        exists|i: int| 0 <= i < self.credentials@.len() && (#[trigger] self.credentials@[i]).id@ == id
    }

    /// Position of the credential with id `id`, the first when there are
    /// several.
    pub open spec fn credential_index(&self, id: Seq<char>) -> int {
        choose|i: int| 0 <= i < self.credentials@.len() && (#[trigger] self.credentials@[i]).id@ == id
            && forall|k: int| 0 <= k < i ==> (#[trigger] self.credentials@[k]).id@ != id
    }

    fn find_issuer(&self, addr: &String) -> (r: Option<usize>)
        ensures
            match r {
                Some(i) => i < self.issuers@.len() && self.issuers@[i as int]@ == addr@,
                None => !self.is_issuer(addr@),
            },
    {
        let mut i: usize = 0;
        while i < self.issuers.len()
            invariant
                i <= self.issuers@.len(),
                forall|k: int| 0 <= k < i ==> (#[trigger] self.issuers@[k])@ != addr@,
            decreases self.issuers@.len() - i,
        {
            if self.issuers[i] == *addr {
                return Some(i);
            }
            i += 1;
        }
        None
    }

    fn find_credential(&self, id: &String) -> (r: Option<usize>)
        ensures
            match r {
                Some(i) => i < self.credentials@.len() && self.has_credential_id(id@) && i == self.credential_index(id@),
                None => !self.has_credential_id(id@),
            },
    {
        let mut i: usize = 0;
        while i < self.credentials.len()
            invariant
                i <= self.credentials@.len(),
                forall|k: int| 0 <= k < i ==> (#[trigger] self.credentials@[k]).id@ != id@,
            decreases self.credentials@.len() - i,
        {
            if self.credentials[i].id == *id {
                proof {
                    assert(self.has_credential_id(id@));
                    let j = self.credential_index(id@);
                    assert(0 <= i < self.credentials@.len() && self.credentials@[i as int].id@ == id@
                        && forall|k: int| 0 <= k < i ==> (#[trigger] self.credentials@[k]).id@ != id@);
                    assert(0 <= j < self.credentials@.len() && self.credentials@[j].id@ == id@
                        && forall|k: int| 0 <= k < j ==> (#[trigger] self.credentials@[k]).id@ != id@);
                    if j < i as int {
                        assert(self.credentials@[j].id@ != id@);
                    } else if j > i as int {
                        assert(self.credentials@[i as int].id@ != id@);
                    }
                }
                return Some(i);
            }
            i += 1;
        }
        None
    }

    /// Issues a credential of `credential_type` to `holder` at time `now`;
    /// trusted issuers only. Its id is derived from holder, type, commitment
    /// and time, and is returned.
    pub fn issue_credential(
        &mut self,
        caller: &String,
        holder: String,
        credential_type: CredentialType,
        commitment: String,
        expires_at: u64,
        now: u64,
    ) -> (r: Result<String, ContractError>)
        requires
            old(self).wf(),
        ensures
            final(self).wf(),
            final(self).admin == old(self).admin,
            final(self).issuers == old(self).issuers,
            final(self).recoveries@ == old(self).recoveries@,
            final(self).recovery_timelock == old(self).recovery_timelock,
            !old(self).is_issuer(caller@) ==> r == Err::<String, ContractError>(
                ContractError::IssuerNotAuthorized { issuer: *caller },
            ) && final(self).credentials@ == old(self).credentials@,
            old(self).is_issuer(caller@) ==> ({
                let id = credential_id_of(holder@, credential_type, commitment@, now);
                if old(self).has_credential_id(id) {
                    r matches Err(ContractError::CredentialAlreadyExists { id: e }) && e@ == id
                        && final(self).credentials@ == old(self).credentials@
                } else {
                    r matches Ok(rid) && rid@ == id && final(self).credentials@ == old(self).credentials@.push(Credential {
                        id: rid,
                        holder,
                        credential_type,
                        commitment,
                        issuer: *caller,
                        issued_at: now,
                        expires_at,
                        revoked: false,
                    })
                }
            }),
    {
        if self.find_issuer(caller).is_none() {
            return Err(ContractError::IssuerNotAuthorized { issuer: caller.clone() });
        }
        let mut seed: Vec<u8> = Vec::new();
        append_bytes(&mut seed, holder.as_str().as_bytes());
        let label = credential_type_label(&credential_type);
        append_bytes(&mut seed, label.as_str().as_bytes());
        append_bytes(&mut seed, commitment.as_str().as_bytes());
        let time = u64_le_bytes(now);
        append_bytes(&mut seed, time.as_slice());
        assert(seed@ =~= issue_seed(holder@, credential_type, commitment@, now));
        let digest = sha256(seed.as_slice());
        let head = first_bytes(&digest, 16);
        let id = hex_encode(head.as_slice());
        if self.find_credential(&id).is_some() {
            return Err(ContractError::CredentialAlreadyExists { id });
        }
        self.credentials.push(Credential {
            id: id.clone(),
            holder,
            credential_type,
            commitment,
            issuer: caller.clone(),
            issued_at: now,
            expires_at,
            revoked: false,
        });
        Ok(id)
    }

    /// Checks a credential against a proof at time `now`. The check is a
    /// placeholder: the proof's digest must match the stored commitment.
    pub fn verify_credential(&self, credential_id: &String, proof: &ZkProof, now: u64) -> (r: Result<
        VerificationResult,
        ContractError,
    >)
        ensures
            !self.has_credential_id(credential_id@) ==> r == Err::<VerificationResult, ContractError>(
                ContractError::CredentialNotFound { id: *credential_id },
            ),
            self.has_credential_id(credential_id@) ==> ({
                let c = self.credentials@[self.credential_index(credential_id@)];
                if c.revoked {
                    r == Err::<VerificationResult, ContractError>(ContractError::CredentialRevoked)
                } else if c.expires_at > 0 && now > c.expires_at {
                    r == Err::<VerificationResult, ContractError>(ContractError::CredentialExpired)
                } else if !proof_matches(c.commitment@, proof.proof_data@, proof.public_inputs@) {
                    r == Err::<VerificationResult, ContractError>(
                        ContractError::InvalidProof { reason: "Proof commitment mismatch" },
                    )
                } else {
                    r matches Ok(v) && v.valid && v.credential_type == c.credential_type
                }
            }),
    {
        let proof_data = &proof.proof_data;
        let public_inputs = &proof.public_inputs;
        let i = match self.find_credential(credential_id) {
            Some(i) => i,
            None => return Err(ContractError::CredentialNotFound { id: credential_id.clone() }),
        };
        let c = &self.credentials[i];
        if c.revoked {
            return Err(ContractError::CredentialRevoked);
        }
        if c.expires_at > 0 && now > c.expires_at {
            return Err(ContractError::CredentialExpired);
        }
        let mut data: Vec<u8> = Vec::new();
        append_bytes(&mut data, proof_data.as_str().as_bytes());
        let mut k: usize = 0;
        while k < public_inputs.len()
            invariant
                k <= public_inputs@.len(),
                data@ == proof_bytes(proof_data@, public_inputs@.subrange(0, k as int)),
            decreases public_inputs@.len() - k,
        {
            append_bytes(&mut data, public_inputs[k].as_str().as_bytes());
            k += 1;
            assert(public_inputs@.subrange(0, k as int).drop_last() =~= public_inputs@.subrange(0, k as int - 1));
        }
        assert(public_inputs@.subrange(0, public_inputs@.len() as int) =~= public_inputs@);
        let digest = sha256(data.as_slice());
        let head = first_bytes(&digest, 16);
        let expected = hex_encode(head.as_slice());
        let want = expected.as_str().as_bytes();
        let have = c.commitment.as_str().as_bytes();
        if !starts_with_32(have, want) {
            return Err(ContractError::InvalidProof { reason: "Proof commitment mismatch" });
        }
        Ok(VerificationResult {
            valid: true,
            credential_type: copy_type(&c.credential_type),
            message: String::from_str("Proof matches the credential commitment"),
        })
    }

    /// Records an identity verification's outcome; admin only. An approved
    /// one issues a non-expiring credential to `applicant` at time `now` and
    /// returns its id; a rejected one changes nothing.
    pub fn submit_verification(
        &mut self,
        caller: &String,
        applicant: String,
        credential_type: CredentialType,
        commitment: String,
        approved: bool,
        now: u64,
    ) -> (r: Result<Option<String>, ContractError>)
        requires
            old(self).wf(),
        ensures
            final(self).wf(),
            final(self).admin == old(self).admin,
            final(self).issuers == old(self).issuers,
            final(self).recoveries@ == old(self).recoveries@,
            final(self).recovery_timelock == old(self).recovery_timelock,
            caller@ != old(self).admin@ ==> r == Err::<Option<String>, ContractError>(
                ContractError::Unauthorized { reason: "Only admin or authorized relayer can submit verification results" },
            ) && final(self).credentials@ == old(self).credentials@,
            caller@ == old(self).admin@ && !approved ==> r == Ok::<Option<String>, ContractError>(None)
                && final(self).credentials@ == old(self).credentials@,
            caller@ == old(self).admin@ && approved ==> (r matches Ok(Some(id)) && {
                let c = Credential {
                    id,
                    holder: applicant,
                    credential_type,
                    commitment,
                    issuer: *caller,
                    issued_at: now,
                    expires_at: 0,
                    revoked: false,
                };
                &&& id@ == verified_id_of(applicant@, credential_type, now)
                &&& final(self).credentials@ == if old(self).has_credential_id(id@) {
                    old(self).credentials@.update(old(self).credential_index(id@), c)
                } else {
                    old(self).credentials@.push(c)
                }
            }),
    {
        if *caller != self.admin {
            return Err(ContractError::Unauthorized {
                reason: "Only admin or authorized relayer can submit verification results",
            });
        }
        if !approved {
            return Ok(None);
        }
        let mut seed = applicant.clone();
        seed.append(":");
        let label = credential_type_label(&credential_type);
        seed.append(label.as_str());
        seed.append(":");
        push_decimal(&mut seed, now as u128);
        assert(seed@ =~= verified_seed(applicant@, credential_type, now));
        let digest = sha256(seed.as_str().as_bytes());
        let id = hex_encode(digest.as_slice());
        let pos = self.find_credential(&id);
        let c = Credential {
            id: id.clone(),
            holder: applicant,
            credential_type,
            commitment,
            issuer: caller.clone(),
            issued_at: now,
            expires_at: 0,
            revoked: false,
        };
        match pos {
            Some(i) => self.credentials.set(i, c),
            None => self.credentials.push(c),
        }
        Ok(Some(id))
    }

    /// Revokes credential `credential_id`; its issuer or the admin only.
    pub fn revoke_credential(&mut self, caller: &String, credential_id: &String) -> (r: Result<(), ContractError>)
        requires
            old(self).wf(),
        ensures
            final(self).wf(),
            final(self).admin == old(self).admin,
            final(self).issuers == old(self).issuers,
            final(self).recoveries@ == old(self).recoveries@,
            final(self).recovery_timelock == old(self).recovery_timelock,
            !old(self).has_credential_id(credential_id@) ==> r == Err::<(), ContractError>(
                ContractError::CredentialNotFound { id: *credential_id },
            ) && final(self).credentials@ == old(self).credentials@,
            old(self).has_credential_id(credential_id@) ==> ({
                let i = old(self).credential_index(credential_id@);
                let c = old(self).credentials@[i];
                if caller@ != c.issuer@ && caller@ != old(self).admin@ {
                    r == Err::<(), ContractError>(ContractError::Unauthorized { reason: "Only issuer or admin can revoke" })
                        && final(self).credentials@ == old(self).credentials@
                } else {
                    r is Ok && final(self).credentials@ == old(self).credentials@.update(i, Credential { revoked: true, ..c })
                }
            }),
    {
        let i = match self.find_credential(credential_id) {
            Some(i) => i,
            None => return Err(ContractError::CredentialNotFound { id: credential_id.clone() }),
        };
        let c = &self.credentials[i];
        if *caller != c.issuer && *caller != self.admin {
            return Err(ContractError::Unauthorized { reason: "Only issuer or admin can revoke" });
        }
        let revoked = Credential {
            id: c.id.clone(),
            holder: c.holder.clone(),
            credential_type: copy_type(&c.credential_type),
            commitment: c.commitment.clone(),
            issuer: c.issuer.clone(),
            issued_at: c.issued_at,
            expires_at: c.expires_at,
            revoked: true,
        };
        self.credentials.set(i, revoked);
        Ok(())
    }

    /// `holder` has a credential of type `t` that is neither revoked nor
    /// expired at time `now`.
    pub open spec fn has_valid_spec(&self, holder: Seq<char>, t: CredentialType, now: u64) -> bool {
        exists|i: int| 0 <= i < self.credentials@.len() && {
            let c = #[trigger] self.credentials@[i];
            &&& c.holder@ == holder
            &&& same_type(c.credential_type, t)
            &&& !c.revoked
            &&& (c.expires_at == 0 || c.expires_at > now)
        }
    }

    /// The credential oracle: whether `holder` holds a valid credential of
    /// type `t` at time `now`.
    pub fn has_valid_credential(&self, holder: &String, t: &CredentialType, now: u64) -> (r: bool)
        ensures
            r == self.has_valid_spec(holder@, *t, now),
    {
        let want = credential_type_label(t);
        let mut i: usize = 0;
        while i < self.credentials.len()
            invariant
                i <= self.credentials@.len(),
                want@ == type_label(*t),
                forall|k: int| 0 <= k < i ==> !({
                    let c = #[trigger] self.credentials@[k];
                    &&& c.holder@ == holder@
                    &&& same_type(c.credential_type, *t)
                    &&& !c.revoked
                    &&& (c.expires_at == 0 || c.expires_at > now)
                }),
            decreases self.credentials@.len() - i,
        {
            let c = &self.credentials[i];
            if c.holder == *holder && !c.revoked && (c.expires_at == 0 || c.expires_at > now) {
                let label = credential_type_label(&c.credential_type);
                if label == want {
                    return true;
                }
            }
            i += 1;
        }
        false
    }

    /// Trusts `issuer`; admin only.
    pub fn add_issuer(&mut self, caller: &String, issuer: String) -> (r: Result<(), ContractError>)
        requires
            old(self).wf(),
        ensures
            final(self).wf(),
            final(self).admin == old(self).admin,
            final(self).credentials@ == old(self).credentials@,
            final(self).recoveries@ == old(self).recoveries@,
            final(self).recovery_timelock == old(self).recovery_timelock,
            caller@ != old(self).admin@ ==> r == Err::<(), ContractError>(
                ContractError::Unauthorized { reason: "Only admin can add issuers" },
            ) && final(self).issuers == old(self).issuers,
            caller@ == old(self).admin@ ==> r is Ok && forall|a: Seq<char>|
                #[trigger] final(self).is_issuer(a) == (old(self).is_issuer(a) || a == issuer@),
    {
        if *caller != self.admin {
            return Err(ContractError::Unauthorized { reason: "Only admin can add issuers" });
        }
        if self.find_issuer(&issuer).is_none() {
            let ghost before = self.issuers@;
            self.issuers.push(issuer);
            assert forall|a: Seq<char>| #[trigger] self.is_issuer(a) == (old(self).is_issuer(a) || a == self.issuers@.last()@) by {
                if old(self).is_issuer(a) {
                    let i = choose|i: int| 0 <= i < before.len() && (#[trigger] before[i])@ == a;
                    assert(self.issuers@[i] == before[i]);
                }
                if self.is_issuer(a) {
                    let i = choose|i: int| 0 <= i < self.issuers@.len() && (#[trigger] self.issuers@[i])@ == a;
                    if i < before.len() {
                        assert(self.issuers@[i] == before[i]);
                    }
                }
            }
        }
        Ok(())
    }

    /// Stops trusting `issuer`; admin only.
    pub fn remove_issuer(&mut self, caller: &String, issuer: &String) -> (r: Result<(), ContractError>)
        requires
            old(self).wf(),
        ensures
            final(self).wf(),
            final(self).admin == old(self).admin,
            final(self).credentials@ == old(self).credentials@,
            final(self).recoveries@ == old(self).recoveries@,
            final(self).recovery_timelock == old(self).recovery_timelock,
            caller@ != old(self).admin@ ==> r == Err::<(), ContractError>(
                ContractError::Unauthorized { reason: "Only admin can remove issuers" },
            ) && final(self).issuers == old(self).issuers,
            caller@ == old(self).admin@ ==> r is Ok && forall|a: Seq<char>|
                #[trigger] final(self).is_issuer(a) == (old(self).is_issuer(a) && a != issuer@),
    {
        if *caller != self.admin {
            return Err(ContractError::Unauthorized { reason: "Only admin can remove issuers" });
        }
        let mut kept: Vec<String> = Vec::new();
        let mut i: usize = 0;
        while i < self.issuers.len()
            invariant
                i <= self.issuers@.len(),
                forall|a: Seq<char>| #[trigger] names_contain(kept@, a)
                    == (names_contain(self.issuers@.subrange(0, i as int), a) && a != issuer@),
            decreases self.issuers@.len() - i,
        {
            let ghost before = kept@;
            let ghost prefix = self.issuers@.subrange(0, i as int);
            let ghost next = self.issuers@.subrange(0, i as int + 1);
            if self.issuers[i] != *issuer {
                kept.push(self.issuers[i].clone());
            }
            proof {
                assert forall|a: Seq<char>| #[trigger] names_contain(kept@, a)
                    == (names_contain(next, a) && a != issuer@) by {
                    if names_contain(kept@, a) {
                        let k = choose|k: int| 0 <= k < kept@.len() && (#[trigger] kept@[k])@ == a;
                        if k < before.len() {
                            assert(kept@[k] == before[k]);
                            assert(names_contain(before, a));
                            let m = choose|m: int| 0 <= m < prefix.len() && (#[trigger] prefix[m])@ == a;
                            assert(next[m] == prefix[m]);
                        } else {
                            assert(next[i as int]@ == a);
                        }
                    }
                    if names_contain(next, a) && a != issuer@ {
                        let k = choose|k: int| 0 <= k < next.len() && (#[trigger] next[k])@ == a;
                        if k < i {
                            assert(prefix[k] == next[k]);
                            assert(names_contain(prefix, a));
                            assert(names_contain(before, a));
                            let m = choose|m: int| 0 <= m < before.len() && (#[trigger] before[m])@ == a;
                            assert(kept@[m] == before[m]);
                        } else {
                            assert(kept@[before.len() as int]@ == a);
                        }
                    }
                }
            }
            i += 1;
        }
        assert(self.issuers@.subrange(0, self.issuers@.len() as int) =~= self.issuers@);
        self.issuers = kept;
        Ok(())
    }

    /// Hands the admin role to `new_admin`; admin only.
    pub fn transfer_admin(&mut self, caller: &String, new_admin: String) -> (r: Result<(), ContractError>)
        requires
            old(self).wf(),
        ensures
            final(self).wf(),
            final(self).issuers == old(self).issuers,
            final(self).credentials@ == old(self).credentials@,
            final(self).recoveries@ == old(self).recoveries@,
            final(self).recovery_timelock == old(self).recovery_timelock,
            caller@ != old(self).admin@ ==> r == Err::<(), ContractError>(
                ContractError::Unauthorized { reason: "Only admin can transfer admin role" },
            ) && final(self).admin == old(self).admin,
            caller@ == old(self).admin@ ==> r is Ok && final(self).admin == new_admin,
    {
        if *caller != self.admin {
            return Err(ContractError::Unauthorized { reason: "Only admin can transfer admin role" });
        }
        self.admin = new_admin;
        Ok(())
    }

    /// Credential `id`, as answered to a query.
    pub fn query_credential(&self, id: &String) -> (r: Result<CredentialResponse, ContractError>)
        ensures
            !self.has_credential_id(id@) ==> r == Err::<CredentialResponse, ContractError>(
                ContractError::CredentialNotFound { id: *id },
            ),
            self.has_credential_id(id@) ==> (r matches Ok(resp)
                && shows(resp, self.credentials@[self.credential_index(id@)])),
    {
        match self.find_credential(id) {
            Some(i) => Ok(credential_response(&self.credentials[i])),
            None => Err(ContractError::CredentialNotFound { id: id.clone() }),
        }
    }

    /// Whether `holder` holds a valid credential of type `t` at time `now`,
    /// with the id of the first such credential.
    pub fn query_has_valid(&self, holder: &String, t: &CredentialType, now: u64) -> (r: HasCredentialResponse)
        ensures
            r.has_credential == self.has_valid_spec(holder@, *t, now),
            r.has_credential == (r.credential_id is Some),
            r.credential_id matches Some(cid) ==> exists|i: int| 0 <= i < self.credentials@.len() && {
                let c = #[trigger] self.credentials@[i];
                &&& c.id == cid
                &&& c.holder@ == holder@
                &&& same_type(c.credential_type, *t)
                &&& !c.revoked
                &&& (c.expires_at == 0 || c.expires_at > now)
            },
    {
        let want = credential_type_label(t);
        let mut i: usize = 0;
        while i < self.credentials.len()
            invariant
                i <= self.credentials@.len(),
                want@ == type_label(*t),
                forall|k: int| 0 <= k < i ==> !({
                    let c = #[trigger] self.credentials@[k];
                    &&& c.holder@ == holder@
                    &&& same_type(c.credential_type, *t)
                    &&& !c.revoked
                    &&& (c.expires_at == 0 || c.expires_at > now)
                }),
            decreases self.credentials@.len() - i,
        {
            let c = &self.credentials[i];
            if c.holder == *holder && !c.revoked && (c.expires_at == 0 || c.expires_at > now) {
                let label = credential_type_label(&c.credential_type);
                if label == want {
                    let cid = c.id.clone();
                    assert(self.credentials@[i as int].id == cid);
                    return HasCredentialResponse { has_credential: true, credential_id: Some(cid) };
                }
            }
            i += 1;
        }
        HasCredentialResponse { has_credential: false, credential_id: None }
    }

    /// The first credentials of `holder`, in store order, up to the page
    /// size: 30 by default, never more than 100.
    pub fn query_list(&self, holder: &String, limit: Option<u32>) -> (r: CredentialsListResponse)
        ensures
            ({
                let held = held_by(self.credentials@, holder@);
                let n = if held.len() < page_size(limit) { held.len() as int } else { page_size(limit) };
                &&& r.credentials@.len() == n
                &&& forall|k: int| 0 <= k < n ==> shows(#[trigger] r.credentials@[k], held[k])
            }),
    {
        let lim = page_limit(limit);
        let mut out: Vec<CredentialResponse> = Vec::new();
        let mut i: usize = 0;
        while i < self.credentials.len()
            invariant
                i <= self.credentials@.len(),
                lim == page_size(limit),
                ({
                    let held = held_by(self.credentials@.subrange(0, i as int), holder@);
                    let n = if held.len() < lim { held.len() as int } else { lim as int };
                    &&& out@.len() == n
                    &&& forall|k: int| 0 <= k < n ==> shows(#[trigger] out@[k], held[k])
                }),
            decreases self.credentials@.len() - i,
        {
            let ghost prefix = self.credentials@.subrange(0, i as int);
            let ghost next = self.credentials@.subrange(0, i as int + 1);
            assert(next.drop_last() =~= prefix);
            assert(next.last() == self.credentials@[i as int]);
            proof {
                lemma_held_prefix(prefix, holder@, self.credentials@[i as int]);
            }
            if self.credentials[i].holder == *holder && out.len() < lim {
                out.push(credential_response(&self.credentials[i]));
            }
            i += 1;
        }
        assert(self.credentials@.subrange(0, self.credentials@.len() as int) =~= self.credentials@);
        CredentialsListResponse { credentials: out }
    }

    /// The trusted issuers.
    pub fn query_issuers(&self) -> (r: IssuersResponse)
        ensures
            r.issuers@ == self.issuers@,
    {
        IssuersResponse { issuers: self.issuers.clone() }
    }

    /// The admin and the number of credentials on record.
    pub fn query_config(&self) -> (r: ConfigResponse)
        ensures
            r.admin == self.admin,
            r.total_credentials == self.credentials@.len(),
    {
        ConfigResponse { admin: self.admin.clone(), total_credentials: self.credentials.len() as u64 }
    }

    /// Recovery `id`, as answered to a query.
    pub fn query_recovery(&self, id: &String) -> (r: Result<RecoveryResponse, ContractError>)
        requires
            self.wf(),
        ensures
            !self.has_recovery(id@) ==> r == Err::<RecoveryResponse, ContractError>(
                ContractError::RecoveryNotFound { id: *id },
            ),
            self.has_recovery(id@) ==> (r matches Ok(resp) && {
                let rec = self.recoveries@[self.recovery_index(id@)];
                &&& resp.recovery_id == rec.recovery_id
                &&& resp.old_address == rec.old_address
                &&& resp.new_address == rec.new_address
                &&& resp.status@ == rec.status.name_spec()
                &&& resp.requested_at == rec.requested_at
                &&& resp.execute_after == rec.execute_after
            }),
    {
        match self.find_recovery(id) {
            Some(i) => {
                let rec = &self.recoveries[i];
                Ok(RecoveryResponse {
                    recovery_id: rec.recovery_id.clone(),
                    old_address: rec.old_address.clone(),
                    new_address: rec.new_address.clone(),
                    status: String::from_str(rec.status.name()),
                    requested_at: rec.requested_at,
                    execute_after: rec.execute_after,
                })
            },
            None => Err(ContractError::RecoveryNotFound { id: id.clone() }),
        }
    }
}

proof fn lemma_held_prefix(s: Seq<Credential>, holder: Seq<char>, c: Credential)
    ensures
        held_by(s.push(c), holder) == if c.holder@ == holder { held_by(s, holder).push(c) } else { held_by(s, holder) },
{
    assert(s.push(c).drop_last() =~= s);
}

} // verus!
