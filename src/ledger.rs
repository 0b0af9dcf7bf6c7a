//! The ledger: the keyed store of requests, reports and verifications, and
//! what each of the four transitions does to it, stated over its model.
use crate::address::{report_address, request_address, verification_address};
use crate::state::{
    CommitMethodology, CreateRequest, MethodologyCommitted, ReportSubmitted, ReportVerified,
    ReportView, RequestCreated, RequestStatus, ResearchError, ResearchReport, ResearchRequest,
    SubmitReport, Verification, VerifyReport,
};
use crate::store::{entries_map, keys_unique, lemma_contains, position};
use vstd::prelude::*;
use vstd::utf8::encode_utf8;

verus! {

/// What the ledger holds: the program id that its addresses are derived
/// under, and each kind of record by address.
pub struct LedgerView {
    pub program_id: [u8; 32],
    pub requests: Map<[u8; 32], ResearchRequest>,
    pub reports: Map<[u8; 32], ReportView>,
    pub verifications: Map<[u8; 32], Verification>,
}

impl LedgerView {
    /// An empty ledger under `program_id`.
    pub open spec fn empty(program_id: [u8; 32]) -> LedgerView {
        LedgerView { program_id, requests: Map::empty(), reports: Map::empty(), verifications: Map::empty() }
    }

    /// Some record, of any kind, lives at `a`.
    pub open spec fn occupied(self, a: [u8; 32]) -> bool {
        self.requests.contains_key(a) || self.reports.contains_key(a) || self.verifications.contains_key(a)
    }

    /// What holds in every reachable state: each request is well formed; a
    /// request is completed exactly when a report on it lives at its derived
    /// report address; each report lives at the address derived from its
    /// request and names that request's researcher; each verification is on a
    /// report that exists.
    pub open spec fn inv(self) -> bool {
        &&& forall|a: [u8; 32]| #[trigger] self.requests.contains_key(a) ==> self.requests[a].wf()
        &&& forall|a: [u8; 32]| #[trigger] self.requests.contains_key(a)
            && self.requests[a].status == RequestStatus::Completed ==> {
                &&& report_address(self.program_id, a) is Some
                &&& self.reports.contains_key(report_address(self.program_id, a)->0)
                &&& self.reports[report_address(self.program_id, a)->0].request == a
            }
        &&& forall|r: [u8; 32]| #[trigger] self.reports.contains_key(r) ==> {
                &&& self.requests.contains_key(self.reports[r].request)
                &&& self.requests[self.reports[r].request].status == RequestStatus::Completed
                &&& self.requests[self.reports[r].request].researcher == Some(self.reports[r].researcher)
                &&& report_address(self.program_id, self.reports[r].request) == Some(r)
            }
        &&& forall|v: [u8; 32]| #[trigger] self.verifications.contains_key(v)
            ==> self.reports.contains_key(self.verifications[v].report)
    }

    /// The request that `create_request` records.
    pub open spec fn new_request(ctx: CreateRequest, topic: String, max_sources: u8, deadline: i64) -> ResearchRequest {
        ResearchRequest {
            requester: ctx.requester,
            topic,
            max_sources,
            deadline,
            status: RequestStatus::Open,
            created_at: ctx.now,
            researcher: None,
            methodology_hash: None,
            methodology_committed_at: None,
            completed_at: None,
        }
    }

    /// The outcome of `create_request`: the new ledger and the notification,
    /// or the error.
    pub open spec fn create_request_outcome(
        self,
        ctx: CreateRequest,
        topic: String,
        max_sources: u8,
        deadline: i64,
    ) -> Result<(LedgerView, RequestCreated), ResearchError> {
        if encode_utf8(topic@).len() > 256 {
            Err(ResearchError::TopicTooLong)
        } else if deadline <= ctx.now {
            Err(ResearchError::DeadlineInPast)
        } else {
            match request_address(self.program_id, ctx.requester, encode_utf8(topic@)) {
                None => Err(ResearchError::NoViableAddress),
                Some(a) => if self.occupied(a) {
                    Err(ResearchError::AccountAlreadyInUse)
                } else {
                    Ok((
                        LedgerView {
                            requests: self.requests.insert(a, Self::new_request(ctx, topic, max_sources, deadline)),
                            ..self
                        },
                        RequestCreated { request: a, requester: ctx.requester, topic },
                    ))
                },
            }
        }
    }

    /// The outcome of `commit_methodology`.
    pub open spec fn commit_methodology_outcome(
        self,
        ctx: CommitMethodology,
        methodology_hash: [u8; 32],
    ) -> Result<(LedgerView, MethodologyCommitted), ResearchError> {
        let a = ctx.research_request;
        if !self.requests.contains_key(a) {
            Err(ResearchError::AccountNotInitialized)
        } else {
            let req = self.requests[a];
            if req.status != RequestStatus::Open {
                Err(ResearchError::InvalidStatus)
            } else if ctx.now >= req.deadline {
                Err(ResearchError::DeadlinePassed)
            } else {
                let committed = ResearchRequest {
                    researcher: Some(ctx.researcher),
                    methodology_hash: Some(methodology_hash),
                    methodology_committed_at: Some(ctx.now),
                    status: RequestStatus::InProgress,
                    ..req
                };
                Ok((
                    LedgerView { requests: self.requests.insert(a, committed), ..self },
                    MethodologyCommitted { request: a, researcher: ctx.researcher, methodology_hash },
                ))
            }
        }
    }

    /// The report that `submit_report` records.
    pub open spec fn new_report(
        ctx: SubmitReport,
        report_hash: [u8; 32],
        sources: Seq<[u8; 32]>,
        arweave_tx: String,
    ) -> ReportView {
        ReportView {
            request: ctx.research_request,
            researcher: ctx.researcher,
            report_hash,
            sources,
            arweave_tx,
            submitted_at: ctx.now,
            verified: false,
            verification_count: 0,
        }
    }

    /// The outcome of `submit_report`.
    pub open spec fn submit_report_outcome(
        self,
        ctx: SubmitReport,
        report_hash: [u8; 32],
        sources: Seq<[u8; 32]>,
        arweave_tx: String,
    ) -> Result<(LedgerView, ReportSubmitted), ResearchError> {
        let a = ctx.research_request;
        if !self.requests.contains_key(a) {
            Err(ResearchError::AccountNotInitialized)
        } else {
            let req = self.requests[a];
            if req.status != RequestStatus::InProgress {
                Err(ResearchError::InvalidStatus)
            } else if req.researcher != Some(ctx.researcher) {
                Err(ResearchError::NotAssignedResearcher)
            } else if sources.len() > 32 {
                Err(ResearchError::TooManySources)
            } else if encode_utf8(arweave_tx@).len() > 64 {
                Err(ResearchError::InvalidArweaveTx)
            } else {
                match report_address(self.program_id, a) {
                    None => Err(ResearchError::NoViableAddress),
                    Some(r) => if self.occupied(r) {
                        Err(ResearchError::AccountAlreadyInUse)
                    } else {
                        let completed = ResearchRequest {
                            status: RequestStatus::Completed,
                            completed_at: Some(ctx.now),
                            ..req
                        };
                        Ok((
                            LedgerView {
                                requests: self.requests.insert(a, completed),
                                reports: self.reports.insert(r, Self::new_report(ctx, report_hash, sources, arweave_tx)),
                                ..self
                            },
                            ReportSubmitted {
                                request: a,
                                report: r,
                                researcher: ctx.researcher,
                                report_hash,
                                source_count: sources.len() as u8,
                            },
                        ))
                    },
                }
            }
        }
    }

    /// The outcome of `verify_report`.
    pub open spec fn verify_report_outcome(
        self,
        ctx: VerifyReport,
        is_valid: bool,
        notes_hash: Option<[u8; 32]>,
    ) -> Result<(LedgerView, ReportVerified), ResearchError> {
        let r = ctx.research_report;
        if !self.reports.contains_key(r) {
            Err(ResearchError::AccountNotInitialized)
        } else {
            match verification_address(self.program_id, r, ctx.verifier) {
                None => Err(ResearchError::NoViableAddress),
                Some(v) => if self.occupied(v) {
                    Err(ResearchError::AccountAlreadyInUse)
                } else if self.reports[r].verification_count == u16::MAX {
                    Err(ResearchError::VerificationCountOverflow)
                } else {
                    let attestation = Verification {
                        report: r,
                        verifier: ctx.verifier,
                        is_valid,
                        notes_hash,
                        verified_at: ctx.now,
                    };
                    Ok((
                        LedgerView {
                            reports: self.reports.insert(r, tally(self.reports[r], is_valid)),
                            verifications: self.verifications.insert(v, attestation),
                            ..self
                        },
                        ReportVerified { report: r, verifier: ctx.verifier, is_valid },
                    ))
                },
            }
        }
    }
}

/// A report after one more recorded attestation: the counter goes up by one,
/// and the report is verified if it was or if the attestation is positive.
pub open spec fn tally(rep: ReportView, is_valid: bool) -> ReportView {
    ReportView { verified: rep.verified || is_valid, verification_count: (rep.verification_count + 1) as u16, ..rep }
}

/// Creating a request keeps the ledger's invariant.
pub proof fn lemma_create_keeps_inv(l: LedgerView, ctx: CreateRequest, topic: String, max_sources: u8, deadline: i64)
    requires
        l.inv(),
    ensures
        l.create_request_outcome(ctx, topic, max_sources, deadline) matches Ok((m, _)) ==> m.inv(),
{
    if let Ok((m, _)) = l.create_request_outcome(ctx, topic, max_sources, deadline) {
        let a = request_address(l.program_id, ctx.requester, encode_utf8(topic@))->0;
        assert forall|x: [u8; 32]| #[trigger] m.requests.contains_key(x) && l.requests.contains_key(x) implies m.requests[x] == l.requests[x] by {
            assert(x != a);
        }
    }
}

/// Committing to a methodology keeps the ledger's invariant.
pub proof fn lemma_commit_keeps_inv(l: LedgerView, ctx: CommitMethodology, methodology_hash: [u8; 32])
    requires
        l.inv(),
    ensures
        l.commit_methodology_outcome(ctx, methodology_hash) matches Ok((m, _)) ==> m.inv(),
{
    if let Ok((m, _)) = l.commit_methodology_outcome(ctx, methodology_hash) {
        let a = ctx.research_request;
        assert forall|r: [u8; 32]| #[trigger] m.reports.contains_key(r) implies m.reports[r].request != a by {
            assert(l.requests[l.reports[r].request].status == RequestStatus::Completed);
        }
    }
}

/// Submitting a report keeps the ledger's invariant.
pub proof fn lemma_submit_keeps_inv(
    l: LedgerView,
    ctx: SubmitReport,
    report_hash: [u8; 32],
    sources: Seq<[u8; 32]>,
    arweave_tx: String,
)
    requires
        l.inv(),
    ensures
        l.submit_report_outcome(ctx, report_hash, sources, arweave_tx) matches Ok((m, _)) ==> m.inv(),
{
    if let Ok((m, _)) = l.submit_report_outcome(ctx, report_hash, sources, arweave_tx) {
        let a = ctx.research_request;
        let ra = report_address(l.program_id, a)->0;
        assert forall|r: [u8; 32]| #[trigger] l.reports.contains_key(r) implies l.reports[r].request != a && r != ra by {
            assert(l.requests[l.reports[r].request].status == RequestStatus::Completed);
        }
        assert forall|x: [u8; 32]| #[trigger] m.requests.contains_key(x)
            && m.requests[x].status == RequestStatus::Completed implies {
                &&& report_address(m.program_id, x) is Some
                &&& m.reports.contains_key(report_address(m.program_id, x)->0)
                &&& m.reports[report_address(m.program_id, x)->0].request == x
            } by {
            if x != a {
                assert(l.requests[x].status == RequestStatus::Completed);
                assert(l.reports.contains_key(report_address(l.program_id, x)->0));
            }
        }
        assert forall|r: [u8; 32]| #[trigger] m.reports.contains_key(r) implies {
                &&& m.requests.contains_key(m.reports[r].request)
                &&& m.requests[m.reports[r].request].status == RequestStatus::Completed
                &&& m.requests[m.reports[r].request].researcher == Some(m.reports[r].researcher)
                &&& report_address(m.program_id, m.reports[r].request) == Some(r)
            } by {
            if r != ra {
                assert(l.reports.contains_key(r));
            }
        }
    }
}

/// Recording an attestation keeps the ledger's invariant.
pub proof fn lemma_verify_keeps_inv(l: LedgerView, ctx: VerifyReport, is_valid: bool, notes_hash: Option<[u8; 32]>)
    requires
        l.inv(),
    ensures
        l.verify_report_outcome(ctx, is_valid, notes_hash) matches Ok((m, _)) ==> m.inv(),
{
    if let Ok((m, _)) = l.verify_report_outcome(ctx, is_valid, notes_hash) {
        let r0 = ctx.research_report;
        assert forall|x: [u8; 32]| #[trigger] m.requests.contains_key(x)
            && m.requests[x].status == RequestStatus::Completed implies {
                &&& report_address(m.program_id, x) is Some
                &&& m.reports.contains_key(report_address(m.program_id, x)->0)
                &&& m.reports[report_address(m.program_id, x)->0].request == x
            } by {
            assert(l.requests[x].status == RequestStatus::Completed);
        }
        assert forall|r: [u8; 32]| #[trigger] m.reports.contains_key(r) implies {
                &&& m.requests.contains_key(m.reports[r].request)
                &&& m.requests[m.reports[r].request].status == RequestStatus::Completed
                &&& m.requests[m.reports[r].request].researcher == Some(m.reports[r].researcher)
                &&& report_address(m.program_id, m.reports[r].request) == Some(r)
            } by {
            assert(l.reports.contains_key(r));
        }
    }
}

/// The entries of a report store, each report replaced by its model.
pub open spec fn report_entries(s: Seq<([u8; 32], ResearchReport)>) -> Seq<([u8; 32], ReportView)> {
    s.map_values(|e: ([u8; 32], ResearchReport)| (e.0, e.1@))
}

pub proof fn lemma_report_entries(s: Seq<([u8; 32], ResearchReport)>)
    ensures
        keys_unique(s) ==> keys_unique(report_entries(s)),
        forall|k: [u8; 32]| #[trigger] entries_map(report_entries(s)).contains_key(k) == entries_map(s).contains_key(k),
{
    let t = report_entries(s);
    assert forall|k: [u8; 32]| #[trigger] entries_map(t).contains_key(k) == entries_map(s).contains_key(k) by {
        lemma_contains(s, k);
        lemma_contains(t, k);
        if entries_map(s).contains_key(k) {
            let i = choose|i: int| 0 <= i < s.len() && #[trigger] s[i].0 == k;
            assert(t[i].0 == k);
        }
        if entries_map(t).contains_key(k) {
            let i = choose|i: int| 0 <= i < t.len() && #[trigger] t[i].0 == k;
            assert(s[i].0 == k);
        }
    }
    if keys_unique(s) {
        assert forall|a: int, b: int| 0 <= a < t.len() && 0 <= b < t.len() && #[trigger] t[a].0 == #[trigger] t[b].0 implies a == b by {
            assert(s[a].0 == s[b].0);
        }
    }
}

/// The ledger's store: each kind of record in a vector of
/// (address, record) entries.
pub struct Ledger {
    pub(crate) program_id: [u8; 32],
    pub(crate) requests: Vec<([u8; 32], ResearchRequest)>,
    pub(crate) reports: Vec<([u8; 32], ResearchReport)>,
    pub(crate) verifications: Vec<([u8; 32], Verification)>,
}

impl View for Ledger {
    type V = LedgerView;

    open(crate) spec fn view(&self) -> LedgerView {
        LedgerView {
            program_id: self.program_id,
            requests: entries_map(self.requests@),
            reports: entries_map(report_entries(self.reports@)),
            verifications: entries_map(self.verifications@),
        }
    }
}

impl Ledger {
    /// Addresses are distinct within each store, each stored report keeps its
    /// unused source slots zero, and the model meets its invariant.
    pub open(crate) spec fn wf(&self) -> bool {
        &&& keys_unique(self.requests@)
        &&& keys_unique(self.reports@)
        &&& keys_unique(self.verifications@)
        &&& forall|i: int| 0 <= i < self.reports@.len() ==> (#[trigger] self.reports@[i]).1.wf()
        &&& self@.inv()
    }

    /// An empty ledger whose addresses are derived under `program_id`.
    pub fn new(program_id: [u8; 32]) -> (r: Ledger)
        ensures
            r.wf(),
            r@ == LedgerView::empty(program_id),
    {
        let r = Ledger { program_id, requests: Vec::new(), reports: Vec::new(), verifications: Vec::new() };
        assert(r@.requests =~= Map::empty());
        assert(r@.reports =~= Map::empty());
        assert(r@.verifications =~= Map::empty());
        r
    }

    /// The program id that addresses are derived under.
    pub fn program_id(&self) -> (r: [u8; 32])
        ensures
            r == self@.program_id,
    {
        self.program_id
    }

    /// The request at `a`, if there is one.
    pub fn request(&self, a: &[u8; 32]) -> (r: Option<&ResearchRequest>)
        requires
            self.wf(),
        ensures
            match r {
                Some(q) => self@.requests.contains_key(*a) && *q == self@.requests[*a],
                None => !self@.requests.contains_key(*a),
            },
    {
        match position(&self.requests, a) {
            Some(i) => {
                proof {
                    crate::store::lemma_value(self.requests@, i as int);
                }
                Some(&self.requests[i].1)
            },
            None => None,
        }
    }

    /// The report at `a`, if there is one.
    pub fn report(&self, a: &[u8; 32]) -> (r: Option<&ResearchReport>)
        requires
            self.wf(),
        ensures
            match r {
                Some(q) => self@.reports.contains_key(*a) && q@ == self@.reports[*a] && q.wf(),
                None => !self@.reports.contains_key(*a),
            },
    {
        proof {
            lemma_report_entries(self.reports@);
        }
        match position(&self.reports, a) {
            Some(i) => {
                proof {
                    assert(report_entries(self.reports@)[i as int].0 == *a);
                    crate::store::lemma_value(report_entries(self.reports@), i as int);
                }
                Some(&self.reports[i].1)
            },
            None => None,
        }
    }

    /// The attestation at `a`, if there is one.
    pub fn verification(&self, a: &[u8; 32]) -> (r: Option<&Verification>)
        requires
            self.wf(),
        ensures
            match r {
                Some(q) => self@.verifications.contains_key(*a) && *q == self@.verifications[*a],
                None => !self@.verifications.contains_key(*a),
            },
    {
        match position(&self.verifications, a) {
            Some(i) => {
                proof {
                    crate::store::lemma_value(self.verifications@, i as int);
                }
                Some(&self.verifications[i].1)
            },
            None => None,
        }
    }

    /// Whether some record lives at `a`.
    pub fn is_occupied(&self, a: &[u8; 32]) -> (r: bool)
        requires
            self.wf(),
        ensures
            r == self@.occupied(*a),
    {
        proof {
            lemma_report_entries(self.reports@);
        }
        let q = position(&self.requests, a);
        let p = position(&self.reports, a);
        let v = position(&self.verifications, a);
        proof {
            lemma_contains(self.requests@, *a);
            lemma_contains(self.reports@, *a);
            lemma_contains(self.verifications@, *a);
        }
        q.is_some() || p.is_some() || v.is_some()
    }
}

} // verus!
