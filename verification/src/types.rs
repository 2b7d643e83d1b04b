//! The entity records of the ledger and its error kinds.

use vstd::prelude::*;
use crate::strmap::StrMap;

verus! {

/// The kind of record that a lookup failed to find.
#[derive(Clone, Copy, Debug, PartialEq, Eq, Structural)]
pub enum EntityKind {
    User,
    Reputation,
    Dispute,
    Credential,
    RecoveryPlan,
}

/// Why an operation was refused. Every error is raised before any write, so
/// a failed operation leaves the ledger exactly as it was.
#[derive(Clone, Copy, Debug, PartialEq, Eq, Structural)]
pub enum Error {
    /// The caller's attestation failed.
    Unauthorized,
    /// A record the operation depends on is absent.
    NotFound(EntityKind),
    /// A second verification was attempted for the same user.
    AlreadyVerified,
    /// The action needs a verified identity, a credential, or an expertise
    /// entry that the user does not have.
    PreconditionNotMet,
    /// An input was empty or otherwise invalid.
    ValidationFailed,
}

/// Where a dispute stands: created `Pending`, then resolved exactly once.
#[derive(Clone, Copy, Debug, PartialEq, Eq, Structural)]
pub enum DisputeStatus {
    Pending,
    Approved,
    Rejected,
}

/// A contributor identity.
pub struct User {
    pub id: u64,
    pub name: String,
    /// Flips from `false` to `true` exactly once.
    pub verified: bool,
    /// Proficiency level per subject, replaced wholesale on update.
    pub expertise_areas: StrMap<u32>,
}

/// A credential issued to a verified user.
#[derive(Clone, Copy, Debug, PartialEq, Eq, Structural)]
pub struct CredentialToken {
    pub token_id: u64,
    pub user_id: u64,
    pub issued_at: u64,
}

/// The current reputation score of a user in one subject.
pub struct Reputation {
    pub user_id: u64,
    pub subject: String,
    pub score: u32,
}

/// One immutable entry of a user's reputation history.
pub struct HistoryEntry {
    pub subject: String,
    pub score: u32,
    pub timestamp: u64,
}

/// The ordered history of a user's scores in one subject.
pub struct ReputationHistory {
    pub user_id: u64,
    pub subject: String,
    pub entries: Vec<HistoryEntry>,
}

/// A contested score change and its adjudication outcome.
pub struct Dispute {
    pub id: u64,
    pub user_id: u64,
    pub subject: String,
    /// The user's current score for the subject when the dispute was filed.
    pub original_score: u32,
    pub disputed_score: u32,
    pub evidence: String,
    pub status: DisputeStatus,
    pub created_at: u64,
    /// Set together with the status transition out of `Pending`.
    pub resolved_at: Option<u64>,
    pub resolver: Option<String>,
}

/// A remediation plan for a low-scoring user.
pub struct RecoveryPlan {
    pub user_id: u64,
    pub target_score: u32,
    /// Target proficiency per subject.
    pub milestones: StrMap<u32>,
    pub created_at: u64,
    pub deadline: u64,
    /// Achieved value per subject.
    pub progress: StrMap<u32>,
    pub completed: bool,
}

/// A time-boxed set of capability restrictions on a user.
pub struct ProbationStatus {
    pub user_id: u64,
    pub active: bool,
    pub start_date: u64,
    pub end_date: u64,
    pub reason: String,
    /// Whether each capability is allowed while the probation lasts.
    pub restrictions: StrMap<bool>,
}

/// Derived statistics, recomputed on demand and cacheable under a key.
pub struct Analytics {
    pub key: String,
    pub data: StrMap<u64>,
    pub trends: StrMap<i64>,
    pub last_updated: u64,
}

/// How many contributors hold a score in a subject, and their average.
pub struct DomainExpertise {
    pub subject: String,
    pub total_contributors: u64,
    pub average_score: u64,
}

/// A user's standing among all holders of a score in one subject.
pub struct PeerBenchmark {
    pub user_id: u64,
    pub subject: String,
    pub score: u32,
    /// 1 is best; ties are broken by ascending user id.
    pub rank: u64,
    pub total_peers: u64,
}

} // verus!
