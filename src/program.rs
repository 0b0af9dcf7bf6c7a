//! The four transitions of the research workflow. Each either applies all of
//! its changes and returns its notification, or changes nothing and returns
//! the error; what it does is the matching outcome of `LedgerView`.
use crate::address::{find_report_address, find_request_address, find_verification_address};
use crate::ledger::{
    lemma_commit_keeps_inv, lemma_create_keeps_inv, lemma_report_entries, lemma_submit_keeps_inv,
    lemma_verify_keeps_inv, report_entries, Ledger, LedgerView,
};
use crate::state::{
    CommitMethodology, CreateRequest, MethodologyCommitted, ReportSubmitted, ReportVerified,
    RequestCreated, RequestStatus, ResearchError, ResearchReport, ResearchRequest, SubmitReport,
    Verification, VerifyReport,
};
use crate::store::{lemma_push, lemma_push_unique, lemma_update, lemma_value, position};
use vstd::prelude::*;

verus! {

/// Opens a request by `ctx.requester` on `topic`, at the address derived
/// from the requester and the topic bytes.
pub fn create_request(
    ledger: &mut Ledger,
    ctx: &CreateRequest,
    topic: String,
    max_sources: u8,
    deadline: i64,
) -> (r: Result<RequestCreated, ResearchError>)
    requires
        old(ledger).wf(),
    ensures
        final(ledger).wf(),
        match old(ledger)@.create_request_outcome(*ctx, topic, max_sources, deadline) {
            Ok((l, ev)) => r == Ok::<RequestCreated, ResearchError>(ev) && final(ledger)@ == l,
            Err(e) => r == Err::<RequestCreated, ResearchError>(e) && final(ledger)@ == old(ledger)@,
        },
{
    if topic.as_str().as_bytes().len() > 256 {
        return Err(ResearchError::TopicTooLong);
    }
    if deadline <= ctx.now {
        return Err(ResearchError::DeadlineInPast);
    }
    let a = match find_request_address(&ledger.program_id, &ctx.requester, &topic) {
        Some(a) => a,
        None => return Err(ResearchError::NoViableAddress),
    };
    if ledger.is_occupied(&a) {
        return Err(ResearchError::AccountAlreadyInUse);
    }
    let record = ResearchRequest {
        requester: ctx.requester,
        topic: topic.clone(),
        max_sources,
        deadline,
        status: RequestStatus::Open,
        created_at: ctx.now,
        researcher: None,
        methodology_hash: None,
        methodology_committed_at: None,
        completed_at: None,
    };
    proof {
        lemma_create_keeps_inv(ledger@, *ctx, topic, max_sources, deadline);
        lemma_push(ledger.requests@, (a, record));
        lemma_push_unique(ledger.requests@, (a, record));
    }
    ledger.requests.push((a, record));
    Ok(RequestCreated { request: a, requester: ctx.requester, topic })
}

/// Commits `ctx.researcher` to the open request at `ctx.research_request`
/// with a methodology hash, before its deadline.
pub fn commit_methodology(
    ledger: &mut Ledger,
    ctx: &CommitMethodology,
    methodology_hash: [u8; 32],
) -> (r: Result<MethodologyCommitted, ResearchError>)
    requires
        old(ledger).wf(),
    ensures
        final(ledger).wf(),
        match old(ledger)@.commit_methodology_outcome(*ctx, methodology_hash) {
            Ok((l, ev)) => r == Ok::<MethodologyCommitted, ResearchError>(ev) && final(ledger)@ == l,
            Err(e) => r == Err::<MethodologyCommitted, ResearchError>(e) && final(ledger)@ == old(ledger)@,
        },
{
    let i = match position(&ledger.requests, &ctx.research_request) {
        Some(i) => i,
        None => return Err(ResearchError::AccountNotInitialized),
    };
    proof {
        lemma_value(ledger.requests@, i as int);
        lemma_commit_keeps_inv(ledger@, *ctx, methodology_hash);
    }
    if ledger.requests[i].1.status != RequestStatus::Open {
        return Err(ResearchError::InvalidStatus);
    }
    if ctx.now >= ledger.requests[i].1.deadline {
        return Err(ResearchError::DeadlinePassed);
    }
    let ghost before = ledger.requests@;
    let entry = &mut ledger.requests[i];
    entry.1.researcher = Some(ctx.researcher);
    entry.1.methodology_hash = Some(methodology_hash);
    entry.1.status = RequestStatus::InProgress;
    entry.1.methodology_committed_at = Some(ctx.now);
    proof {
        lemma_update(before, i as int, ledger.requests@[i as int].1);
        assert(ledger.requests@ =~= before.update(i as int, (before[i as int].0, ledger.requests@[i as int].1)));
    }
    Ok(MethodologyCommitted { request: ctx.research_request, researcher: ctx.researcher, methodology_hash })
}

/// The fixed-capacity slot array for `sources`: the hashes in order, then
/// zero slots.
fn source_slots(sources: &Vec<[u8; 32]>) -> (r: [[u8; 32]; 32])
    requires
        sources@.len() <= 32,
    ensures
        r@.subrange(0, sources@.len() as int) == sources@,
        forall|i: int, j: int| sources@.len() <= i < 32 && 0 <= j < 32 ==> #[trigger] r[i][j] == 0,
{
    let mut slots: [[u8; 32]; 32] = [[0u8; 32]; 32];
    let mut k: usize = 0;
    while k < sources.len()
        invariant
            k <= sources@.len() <= 32,
            slots@.subrange(0, k as int) == sources@.subrange(0, k as int),
            forall|i: int, j: int| k <= i < 32 && 0 <= j < 32 ==> #[trigger] slots[i][j] == 0,
        decreases sources@.len() - k,
    {
        slots[k] = sources[k];
        k = k + 1;
        assert(slots@.subrange(0, k as int) =~= sources@.subrange(0, k as int));
    }
    assert(sources@.subrange(0, k as int) =~= sources@);
    slots
}

/// Records the report of the committed researcher on the request at
/// `ctx.research_request`, at the address derived from the request's, and
/// completes the request.
pub fn submit_report(
    ledger: &mut Ledger,
    ctx: &SubmitReport,
    report_hash: [u8; 32],
    source_hashes: Vec<[u8; 32]>,
    arweave_tx: String,
) -> (r: Result<ReportSubmitted, ResearchError>)
    requires
        old(ledger).wf(),
    ensures
        final(ledger).wf(),
        match old(ledger)@.submit_report_outcome(*ctx, report_hash, source_hashes@, arweave_tx) {
            Ok((l, ev)) => r == Ok::<ReportSubmitted, ResearchError>(ev) && final(ledger)@ == l,
            Err(e) => r == Err::<ReportSubmitted, ResearchError>(e) && final(ledger)@ == old(ledger)@,
        },
{
    let i = match position(&ledger.requests, &ctx.research_request) {
        Some(i) => i,
        None => return Err(ResearchError::AccountNotInitialized),
    };
    proof {
        lemma_value(ledger.requests@, i as int);
        lemma_submit_keeps_inv(ledger@, *ctx, report_hash, source_hashes@, arweave_tx);
        lemma_report_entries(ledger.reports@);
    }
    if ledger.requests[i].1.status != RequestStatus::InProgress {
        return Err(ResearchError::InvalidStatus);
    }
    let assigned = match ledger.requests[i].1.researcher {
        Some(who) => crate::address::same_key(&who, &ctx.researcher),
        None => false,
    };
    if !assigned {
        return Err(ResearchError::NotAssignedResearcher);
    }
    if source_hashes.len() > 32 {
        return Err(ResearchError::TooManySources);
    }
    if arweave_tx.as_str().as_bytes().len() > 64 {
        return Err(ResearchError::InvalidArweaveTx);
    }
    let ra = match find_report_address(&ledger.program_id, &ctx.research_request) {
        Some(a) => a,
        None => return Err(ResearchError::NoViableAddress),
    };
    if ledger.is_occupied(&ra) {
        return Err(ResearchError::AccountAlreadyInUse);
    }
    let report = ResearchReport {
        request: ctx.research_request,
        researcher: ctx.researcher,
        report_hash,
        source_hashes: source_slots(&source_hashes),
        source_count: source_hashes.len() as u8,
        arweave_tx,
        submitted_at: ctx.now,
        verified: false,
        verification_count: 0,
    };
    assert(report@ == LedgerView::new_report(*ctx, report_hash, source_hashes@, arweave_tx));
    let ghost reports_before = ledger.reports@;
    let ghost requests_before = ledger.requests@;
    proof {
        lemma_push_unique(reports_before, (ra, report));
        assert(report_entries(reports_before.push((ra, report))) =~= report_entries(reports_before).push((ra, report@)));
        lemma_push(report_entries(reports_before), (ra, report@));
    }
    ledger.reports.push((ra, report));
    let entry = &mut ledger.requests[i];
    entry.1.status = RequestStatus::Completed;
    entry.1.completed_at = Some(ctx.now);
    proof {
        lemma_update(requests_before, i as int, ledger.requests@[i as int].1);
        assert(ledger.requests@ =~= requests_before.update(i as int, (requests_before[i as int].0, ledger.requests@[i as int].1)));
    }
    Ok(ReportSubmitted {
        request: ctx.research_request,
        report: ra,
        researcher: ctx.researcher,
        report_hash,
        source_count: source_hashes.len() as u8,
    })
}

/// Records the attestation of `ctx.verifier` on the report at
/// `ctx.research_report`, at the address derived from the two, and tallies
/// it on the report.
pub fn verify_report(
    ledger: &mut Ledger,
    ctx: &VerifyReport,
    is_valid: bool,
    notes_hash: Option<[u8; 32]>,
) -> (r: Result<ReportVerified, ResearchError>)
    requires
        old(ledger).wf(),
    ensures
        final(ledger).wf(),
        match old(ledger)@.verify_report_outcome(*ctx, is_valid, notes_hash) {
            Ok((l, ev)) => r == Ok::<ReportVerified, ResearchError>(ev) && final(ledger)@ == l,
            Err(e) => r == Err::<ReportVerified, ResearchError>(e) && final(ledger)@ == old(ledger)@,
        },
{
    proof {
        lemma_report_entries(ledger.reports@);
        lemma_verify_keeps_inv(ledger@, *ctx, is_valid, notes_hash);
    }
    let i = match position(&ledger.reports, &ctx.research_report) {
        Some(i) => i,
        None => return Err(ResearchError::AccountNotInitialized),
    };
    proof {
        assert(report_entries(ledger.reports@)[i as int].0 == ctx.research_report);
        lemma_value(report_entries(ledger.reports@), i as int);
    }
    let va = match find_verification_address(&ledger.program_id, &ctx.research_report, &ctx.verifier) {
        Some(a) => a,
        None => return Err(ResearchError::NoViableAddress),
    };
    if ledger.is_occupied(&va) {
        return Err(ResearchError::AccountAlreadyInUse);
    }
    if ledger.reports[i].1.verification_count == u16::MAX {
        return Err(ResearchError::VerificationCountOverflow);
    }
    let attestation = Verification {
        report: ctx.research_report,
        verifier: ctx.verifier,
        is_valid,
        notes_hash,
        verified_at: ctx.now,
    };
    let ghost reports_before = ledger.reports@;
    proof {
        lemma_push(ledger.verifications@, (va, attestation));
        lemma_push_unique(ledger.verifications@, (va, attestation));
    }
    ledger.verifications.push((va, attestation));
    let entry = &mut ledger.reports[i];
    entry.1.verification_count = entry.1.verification_count + 1;
    if is_valid {
        entry.1.verified = true;
    }
    proof {
        let k = reports_before[i as int].0;
        let updated = ledger.reports@[i as int].1;
        assert(ledger.reports@ =~= reports_before.update(i as int, (k, updated)));
        lemma_update(reports_before, i as int, updated);
        assert(report_entries(ledger.reports@) =~= report_entries(reports_before).update(i as int, (k, updated@)));
        lemma_update(report_entries(reports_before), i as int, updated@);
        assert(updated@ == crate::ledger::tally(reports_before[i as int].1@, is_valid));
    }
    Ok(ReportVerified { report: ctx.research_report, verifier: ctx.verifier, is_valid })
}

} // verus!
