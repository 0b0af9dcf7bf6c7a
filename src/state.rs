//! The records kept on the ledger, the notifications emitted on each
//! transition, the errors, and the inputs that each transition receives.
use vstd::prelude::*;

verus! {

/// Where a request stands in its lifecycle. Status only moves forward,
/// `Open` to `InProgress` to `Completed`; `Cancelled` is reserved and no
/// operation sets it.
#[derive(Clone, Copy, PartialEq, Eq, Structural, Debug)]
pub enum RequestStatus {
    Open,
    InProgress,
    Completed,
    Cancelled,
}

impl Default for RequestStatus {
    fn default() -> (r: Self)
        ensures
            r == RequestStatus::Open,
    {
        RequestStatus::Open
    }
}

/// The position of a status in the forward order of the lifecycle.
pub open spec fn status_rank(s: RequestStatus) -> int {
    match s {
        RequestStatus::Open => 0,
        RequestStatus::InProgress => 1,
        RequestStatus::Completed => 2,
        RequestStatus::Cancelled => 3,
    }
}

/// A research task posted by `requester`; one per (requester, topic).
#[derive(Clone, Debug)]
pub struct ResearchRequest {
    pub requester: [u8; 32],
    pub topic: String,
    pub max_sources: u8,
    pub deadline: i64,
    pub status: RequestStatus,
    pub created_at: i64,
    pub researcher: Option<[u8; 32]>,
    pub methodology_hash: Option<[u8; 32]>,
    pub methodology_committed_at: Option<i64>,
    pub completed_at: Option<i64>,
}

impl ResearchRequest {
    /// The record's invariant: researcher and methodology are set together,
    /// exactly once the request has left `Open`, and the deadline lies after
    /// the creation time.
    pub open spec fn wf(&self) -> bool {
        &&& self.deadline > self.created_at
        &&& self.researcher.is_some() == self.methodology_hash.is_some()
        &&& self.researcher.is_some() == self.methodology_committed_at.is_some()
        &&& (self.status == RequestStatus::Open) == self.researcher.is_none()
        &&& (self.status == RequestStatus::Completed) == self.completed_at.is_some()
        &&& self.status != RequestStatus::Cancelled
    }
}

/// The report on a request: at most one per request.
/// `source_hashes` has room for 32 hashes; the first `source_count` are used
/// and the rest are zero.
#[derive(Clone, Debug)]
pub struct ResearchReport {
    pub request: [u8; 32],
    pub researcher: [u8; 32],
    pub report_hash: [u8; 32],
    pub source_hashes: [[u8; 32]; 32],
    pub source_count: u8,
    pub arweave_tx: String,
    pub submitted_at: i64,
    pub verified: bool,
    pub verification_count: u16,
}

/// What a report means: its fields, with the used source slots as a sequence.
pub struct ReportView {
    pub request: [u8; 32],
    pub researcher: [u8; 32],
    pub report_hash: [u8; 32],
    pub sources: Seq<[u8; 32]>,
    pub arweave_tx: String,
    pub submitted_at: i64,
    pub verified: bool,
    pub verification_count: u16,
}

impl View for ResearchReport {
    type V = ReportView;

    open spec fn view(&self) -> ReportView {
        ReportView {
            request: self.request,
            researcher: self.researcher,
            report_hash: self.report_hash,
            sources: self.source_hashes@.subrange(0, self.source_count as int),
            arweave_tx: self.arweave_tx,
            submitted_at: self.submitted_at,
            verified: self.verified,
            verification_count: self.verification_count,
        }
    }
}

impl ResearchReport {
    /// The used slots fit the capacity and the unused ones are zero.
    pub open spec fn wf(&self) -> bool {
        &&& self.source_count <= 32
        &&& forall|i: int, j: int|
            self.source_count <= i < 32 && 0 <= j < 32 ==> #[trigger] self.source_hashes[i][j] == 0
    }
}

/// One verifier's attestation on one report.
#[derive(Clone, Copy, Debug)]
pub struct Verification {
    pub report: [u8; 32],
    pub verifier: [u8; 32],
    pub is_valid: bool,
    pub notes_hash: Option<[u8; 32]>,
    pub verified_at: i64,
}

/// Emitted when a request is created.
#[derive(Clone, Debug)]
pub struct RequestCreated {
    pub request: [u8; 32],
    pub requester: [u8; 32],
    pub topic: String,
}

/// Emitted when a researcher commits to a methodology.
#[derive(Clone, Copy, Debug)]
pub struct MethodologyCommitted {
    pub request: [u8; 32],
    pub researcher: [u8; 32],
    pub methodology_hash: [u8; 32],
}

/// Emitted when a report is submitted.
#[derive(Clone, Copy, Debug)]
pub struct ReportSubmitted {
    pub request: [u8; 32],
    pub report: [u8; 32],
    pub researcher: [u8; 32],
    pub report_hash: [u8; 32],
    pub source_count: u8,
}

/// Emitted when a verifier attests to a report.
#[derive(Clone, Copy, Debug)]
pub struct ReportVerified {
    pub report: [u8; 32],
    pub verifier: [u8; 32],
    pub is_valid: bool,
}

/// Why a transition was refused. A refused transition changes nothing.
#[derive(Clone, Copy, PartialEq, Eq, Structural, Debug)]
pub enum ResearchError {
    /// The topic is longer than 256 bytes.
    TopicTooLong,
    /// The deadline is not after the current time.
    DeadlineInPast,
    /// The request is not in the status that the operation needs.
    InvalidStatus,
    /// The deadline is not after the current time any more.
    DeadlinePassed,
    /// The caller is not the researcher who committed to the request.
    NotAssignedResearcher,
    /// More than 32 source hashes.
    TooManySources,
    /// The evidence pointer is longer than 64 bytes.
    InvalidArweaveTx,
    /// No record of the needed kind lives at the given address.
    AccountNotInitialized,
    /// The record's derived address is already taken.
    AccountAlreadyInUse,
    /// No address can be derived from the record's seeds.
    NoViableAddress,
    /// The report's verification counter is at its maximum.
    VerificationCountOverflow,
}

/// The signer and clock of a `create_request` transaction.
#[derive(Clone, Copy, Debug)]
pub struct CreateRequest {
    pub requester: [u8; 32],
    pub now: i64,
}

/// The request addressed, the signer and clock of a `commit_methodology`
/// transaction.
#[derive(Clone, Copy, Debug)]
pub struct CommitMethodology {
    pub research_request: [u8; 32],
    pub researcher: [u8; 32],
    pub now: i64,
}

/// The request addressed, the signer and clock of a `submit_report`
/// transaction.
#[derive(Clone, Copy, Debug)]
pub struct SubmitReport {
    pub research_request: [u8; 32],
    pub researcher: [u8; 32],
    pub now: i64,
}

/// The report addressed, the signer and clock of a `verify_report`
/// transaction.
#[derive(Clone, Copy, Debug)]
pub struct VerifyReport {
    pub research_report: [u8; 32],
    pub verifier: [u8; 32],
    pub now: i64,
}

} // verus!
