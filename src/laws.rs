//! Laws of the workflow, proved over the outcomes that the transitions are
//! specified by.
use crate::address::{lemma_topic_seeds_fit, report_address, request_address, request_seeds, topic_seeds};
use crate::ledger::{tally, LedgerView};
use crate::state::{
    status_rank, CommitMethodology, CreateRequest, RequestStatus, SubmitReport, VerifyReport,
};
use vstd::prelude::*;
use vstd::utf8::encode_utf8;

verus! {

/// A request that `create_request` records is open and its deadline lies
/// after its creation time.
pub proof fn lemma_created_request_is_open(
    l: LedgerView,
    ctx: CreateRequest,
    topic: String,
    max_sources: u8,
    deadline: i64,
)
    ensures
        l.create_request_outcome(ctx, topic, max_sources, deadline) matches Ok((m, ev)) ==> {
            &&& m.requests.contains_key(ev.request)
            &&& m.requests[ev.request].status == RequestStatus::Open
            &&& m.requests[ev.request].deadline > m.requests[ev.request].created_at
            &&& m.requests[ev.request].created_at == ctx.now
            &&& m.requests[ev.request].researcher is None
            &&& m.requests[ev.request].methodology_hash is None
        },
{
}

/// Every seed of a request's address holds at most 32 bytes, whatever the
/// topic's length. Given that its derived address exists, creation succeeds
/// exactly when the topic is at most 256 bytes, the deadline is after the
/// current time, and the address is free; the request recorded is then the
/// new open one.
pub proof fn lemma_create_succeeds_iff(
    l: LedgerView,
    ctx: CreateRequest,
    topic: String,
    max_sources: u8,
    deadline: i64,
)
    requires
        request_address(l.program_id, ctx.requester, encode_utf8(topic@)) is Some,
    ensures
        forall|i: int| 0 <= i < request_seeds(ctx.requester, encode_utf8(topic@)).len()
            ==> #[trigger] request_seeds(ctx.requester, encode_utf8(topic@))[i].len() <= 32,
        l.create_request_outcome(ctx, topic, max_sources, deadline) is Ok <==> (
            encode_utf8(topic@).len() <= 256
            && deadline > ctx.now
            && !l.occupied(request_address(l.program_id, ctx.requester, encode_utf8(topic@))->0)),
        l.create_request_outcome(ctx, topic, max_sources, deadline) matches Ok((m, ev)) ==> {
            &&& ev.request == request_address(l.program_id, ctx.requester, encode_utf8(topic@))->0
            &&& m.requests == l.requests.insert(ev.request, LedgerView::new_request(ctx, topic, max_sources, deadline))
        },
{
    let t = encode_utf8(topic@);
    lemma_topic_seeds_fit(t);
    let s = request_seeds(ctx.requester, t);
    assert forall|i: int| 0 <= i < s.len() implies #[trigger] s[i].len() <= 32 by {
        if i >= 2 {
            assert(s[i] == topic_seeds(t)[i - 2]);
        }
    }
}

/// On an existing request, `commit_methodology` succeeds exactly when the
/// request is open and the current time is before its deadline; afterwards
/// the request is in progress with researcher and methodology both set.
pub proof fn lemma_commit_succeeds_iff(l: LedgerView, ctx: CommitMethodology, methodology_hash: [u8; 32])
    requires
        l.requests.contains_key(ctx.research_request),
    ensures
        l.commit_methodology_outcome(ctx, methodology_hash) is Ok <==> (
            l.requests[ctx.research_request].status == RequestStatus::Open
            && ctx.now < l.requests[ctx.research_request].deadline),
        l.commit_methodology_outcome(ctx, methodology_hash) matches Ok((m, _)) ==> {
            &&& m.requests[ctx.research_request].status == RequestStatus::InProgress
            &&& m.requests[ctx.research_request].researcher == Some(ctx.researcher)
            &&& m.requests[ctx.research_request].methodology_hash == Some(methodology_hash)
        },
{
}

/// In every state that meets the invariant, each request has researcher and
/// methodology hash both set or both unset.
pub proof fn lemma_researcher_with_methodology(l: LedgerView, a: [u8; 32])
    requires
        l.inv(),
        l.requests.contains_key(a),
    ensures
        l.requests[a].researcher.is_some() == l.requests[a].methodology_hash.is_some(),
{
}

/// On an existing request, with at most 32 sources, an evidence pointer of
/// at most 64 bytes and a free derived report address, `submit_report`
/// succeeds exactly when the request is in progress and the caller is its
/// committed researcher; afterwards the request is completed and exactly one
/// report on it exists, at its derived report address.
pub proof fn lemma_submit_succeeds_iff(
    l: LedgerView,
    ctx: SubmitReport,
    report_hash: [u8; 32],
    sources: Seq<[u8; 32]>,
    arweave_tx: String,
)
    requires
        l.inv(),
        l.requests.contains_key(ctx.research_request),
        sources.len() <= 32,
        encode_utf8(arweave_tx@).len() <= 64,
        report_address(l.program_id, ctx.research_request) is Some,
        !l.occupied(report_address(l.program_id, ctx.research_request)->0),
    ensures
        l.submit_report_outcome(ctx, report_hash, sources, arweave_tx) is Ok <==> (
            l.requests[ctx.research_request].status == RequestStatus::InProgress
            && l.requests[ctx.research_request].researcher == Some(ctx.researcher)),
        l.submit_report_outcome(ctx, report_hash, sources, arweave_tx) matches Ok((m, ev)) ==> {
            &&& m.requests[ctx.research_request].status == RequestStatus::Completed
            &&& Some(ev.report) == report_address(l.program_id, ctx.research_request)
            &&& m.reports.contains_key(ev.report)
            &&& m.reports[ev.report].request == ctx.research_request
            &&& forall|r: [u8; 32]| #[trigger] m.reports.contains_key(r)
                && m.reports[r].request == ctx.research_request ==> r == ev.report
        },
{
    crate::ledger::lemma_submit_keeps_inv(l, ctx, report_hash, sources, arweave_tx);
}

/// No transition removes a record, and no transition moves a request's
/// status backwards.
pub proof fn lemma_records_persist_and_status_advances(
    l: LedgerView,
    m: LedgerView,
    a: [u8; 32],
    create: (CreateRequest, String, u8, i64),
    commit: (CommitMethodology, [u8; 32]),
    submit: (SubmitReport, [u8; 32], Seq<[u8; 32]>, String),
    verify: (VerifyReport, bool, Option<[u8; 32]>),
)
    requires
        l.inv(),
        ({
            let o = l.create_request_outcome(create.0, create.1, create.2, create.3);
            o is Ok && o->Ok_0.0 == m
        }) || ({
            let o = l.commit_methodology_outcome(commit.0, commit.1);
            o is Ok && o->Ok_0.0 == m
        }) || ({
            let o = l.submit_report_outcome(submit.0, submit.1, submit.2, submit.3);
            o is Ok && o->Ok_0.0 == m
        }) || ({
            let o = l.verify_report_outcome(verify.0, verify.1, verify.2);
            o is Ok && o->Ok_0.0 == m
        }),
    ensures
        l.requests.contains_key(a) ==> m.requests.contains_key(a)
            && status_rank(l.requests[a].status) <= status_rank(m.requests[a].status),
        l.reports.contains_key(a) ==> m.reports.contains_key(a),
        l.verifications.contains_key(a) ==> m.verifications.contains_key(a),
        m.program_id == l.program_id,
{
}

/// Two creations by the same requester on the same topic cannot both
/// succeed: after the first, the second finds its address taken.
pub proof fn lemma_second_creation_fails(
    l: LedgerView,
    first: CreateRequest,
    second: CreateRequest,
    topic: String,
    max_sources: (u8, u8),
    deadline: (i64, i64),
)
    requires
        first.requester == second.requester,
    ensures
        l.create_request_outcome(first, topic, max_sources.0, deadline.0) matches Ok((m, _))
            ==> m.create_request_outcome(second, topic, max_sources.1, deadline.1) is Err,
{
}

/// While a request of `requester` on `topic` exists, no creation by that
/// requester on that topic succeeds; with the persistence law above this
/// holds however many transitions lie between the two creations.
pub proof fn lemma_creation_blocked_while_present(
    l: LedgerView,
    ctx: CreateRequest,
    topic: String,
    max_sources: u8,
    deadline: i64,
)
    requires
        request_address(l.program_id, ctx.requester, encode_utf8(topic@)) is Some,
        l.requests.contains_key(request_address(l.program_id, ctx.requester, encode_utf8(topic@))->0),
    ensures
        l.create_request_outcome(ctx, topic, max_sources, deadline) is Err,
{
}

/// Two attestations by the same verifier on the same report cannot both
/// succeed: after the first, the second finds its address taken.
pub proof fn lemma_second_attestation_fails(
    l: LedgerView,
    first: VerifyReport,
    second: VerifyReport,
    is_valid: (bool, bool),
    notes_hash: (Option<[u8; 32]>, Option<[u8; 32]>),
)
    requires
        first.research_report == second.research_report,
        first.verifier == second.verifier,
    ensures
        l.verify_report_outcome(first, is_valid.0, notes_hash.0) matches Ok((m, _))
            ==> m.verify_report_outcome(second, is_valid.1, notes_hash.1) is Err,
{
}

/// The ledger after attempting each call of `calls` in order; a refused call
/// leaves it as it was.
pub open spec fn run_verifications(l: LedgerView, calls: Seq<(VerifyReport, bool, Option<[u8; 32]>)>) -> LedgerView
    decreases calls.len(),
{
    if calls.len() == 0 {
        l
    } else {
        let prev = run_verifications(l, calls.drop_last());
        let c = calls.last();
        match prev.verify_report_outcome(c.0, c.1, c.2) {
            Ok((m, _)) => m,
            Err(_) => prev,
        }
    }
}

/// The validity outcomes of the calls of `calls` that succeeded, in order.
pub open spec fn accepted_outcomes(l: LedgerView, calls: Seq<(VerifyReport, bool, Option<[u8; 32]>)>) -> Seq<bool>
    decreases calls.len(),
{
    if calls.len() == 0 {
        Seq::empty()
    } else {
        let prev = run_verifications(l, calls.drop_last());
        let c = calls.last();
        let before = accepted_outcomes(l, calls.drop_last());
        match prev.verify_report_outcome(c.0, c.1, c.2) {
            Ok(_) => before.push(c.1),
            Err(_) => before,
        }
    }
}

/// Over any sequence of `verify_report` calls on one report, its counter
/// grows by the number of calls that succeeded, and it is verified exactly
/// when it was before or some successful call attested validity; so once
/// verified it stays verified.
pub proof fn lemma_verification_tally(
    l: LedgerView,
    r: [u8; 32],
    calls: Seq<(VerifyReport, bool, Option<[u8; 32]>)>,
)
    requires
        l.reports.contains_key(r),
        forall|i: int| 0 <= i < calls.len() ==> (#[trigger] calls[i]).0.research_report == r,
    ensures
        run_verifications(l, calls).reports.contains_key(r),
        run_verifications(l, calls).reports[r].verification_count
            == l.reports[r].verification_count + accepted_outcomes(l, calls).len(),
        run_verifications(l, calls).reports[r].verified
            == (l.reports[r].verified || accepted_outcomes(l, calls).contains(true)),
        l.reports[r].verified ==> run_verifications(l, calls).reports[r].verified,
    decreases calls.len(),
{
    if calls.len() > 0 {
        let rest = calls.drop_last();
        lemma_verification_tally(l, r, rest);
        let prev = run_verifications(l, rest);
        let c = calls.last();
        let before = accepted_outcomes(l, rest);
        assert(c.0.research_report == r) by {
            assert(calls[calls.len() - 1].0.research_report == r);
        }
        if let Ok((m, _)) = prev.verify_report_outcome(c.0, c.1, c.2) {
            assert(m.reports[r] == tally(prev.reports[r], c.1));
            let after = before.push(c.1);
            assert(after.contains(true) == (before.contains(true) || c.1)) by {
                if before.contains(true) {
                    let i = choose|i: int| 0 <= i < before.len() && before[i] == true;
                    assert(after[i] == true);
                }
                if c.1 {
                    assert(after[after.len() - 1] == true);
                }
                if after.contains(true) && !c.1 {
                    let i = choose|i: int| 0 <= i < after.len() && after[i] == true;
                    assert(before[i] == true);
                }
            }
        }
    }
}

} // verus!
