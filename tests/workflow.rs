use research_protocol::address::{find_report_address, find_request_address, find_verification_address, same_key};
use research_protocol::ledger::Ledger;
use research_protocol::program::{commit_methodology, create_request, submit_report, verify_report};
use research_protocol::state::{
    CommitMethodology, CreateRequest, RequestStatus, ResearchError, SubmitReport, VerifyReport,
};

const PROGRAM: [u8; 32] = [9u8; 32];
const REQUESTER: [u8; 32] = [1u8; 32];
const RESEARCHER: [u8; 32] = [2u8; 32];
const NOW: i64 = 1_700_000_000;

fn open_request(ledger: &mut Ledger, topic: &str) -> [u8; 32] {
    let ctx = CreateRequest { requester: REQUESTER, now: NOW };
    create_request(ledger, &ctx, topic.to_string(), 5, NOW + 86400).unwrap().request
}

fn committed_request(ledger: &mut Ledger, topic: &str) -> [u8; 32] {
    let a = open_request(ledger, topic);
    let ctx = CommitMethodology { research_request: a, researcher: RESEARCHER, now: NOW + 10 };
    commit_methodology(ledger, &ctx, [11u8; 32]).unwrap();
    a
}

fn submitted_report(ledger: &mut Ledger, topic: &str) -> [u8; 32] {
    let a = committed_request(ledger, topic);
    let ctx = SubmitReport { research_request: a, researcher: RESEARCHER, now: NOW + 20 };
    submit_report(ledger, &ctx, [12u8; 32], vec![[1u8; 32]], "tx".to_string()).unwrap().report
}

#[test]
fn scenario_full_lifecycle() {
    let mut ledger = Ledger::new(PROGRAM);
    let ctx = CreateRequest { requester: REQUESTER, now: NOW };
    let created = create_request(&mut ledger, &ctx, "AI safety".to_string(), 10, NOW + 86400).unwrap();
    assert_eq!(created.requester, REQUESTER);
    assert_eq!(created.topic, "AI safety");
    let a = created.request;
    assert!(ledger.request(&a).unwrap().status == RequestStatus::Open);

    let h1 = [0xa1u8; 32];
    let commit = CommitMethodology { research_request: a, researcher: RESEARCHER, now: NOW + 100 };
    let committed = commit_methodology(&mut ledger, &commit, h1).unwrap();
    assert_eq!(committed.methodology_hash, h1);
    let req = ledger.request(&a).unwrap();
    assert!(req.status == RequestStatus::InProgress);
    assert_eq!(req.researcher, Some(RESEARCHER));
    assert_eq!(req.methodology_hash, Some(h1));
    assert_eq!(req.methodology_committed_at, Some(NOW + 100));

    let h2 = [0xb2u8; 32];
    let sources = vec![[1u8; 32], [2u8; 32], [3u8; 32]];
    let submit = SubmitReport { research_request: a, researcher: RESEARCHER, now: NOW + 200 };
    let submitted = submit_report(&mut ledger, &submit, h2, sources, "tx123".to_string()).unwrap();
    assert_eq!(submitted.source_count, 3);
    assert_eq!(submitted.report_hash, h2);
    let req = ledger.request(&a).unwrap();
    assert!(req.status == RequestStatus::Completed);
    assert_eq!(req.completed_at, Some(NOW + 200));
    let r = submitted.report;
    let report = ledger.report(&r).unwrap();
    assert_eq!(report.verification_count, 0);
    assert!(!report.verified);
    assert_eq!(report.source_count, 3);
    assert_eq!(report.source_hashes[0], [1u8; 32]);
    assert_eq!(report.source_hashes[2], [3u8; 32]);
    assert_eq!(report.source_hashes[3], [0u8; 32]);
    assert_eq!(report.arweave_tx, "tx123");
    assert_eq!(report.request, a);

    let v1 = VerifyReport { research_report: r, verifier: [3u8; 32], now: NOW + 300 };
    let ev = verify_report(&mut ledger, &v1, true, None).unwrap();
    assert!(ev.is_valid);
    let report = ledger.report(&r).unwrap();
    assert_eq!(report.verification_count, 1);
    assert!(report.verified);

    let v2 = VerifyReport { research_report: r, verifier: [4u8; 32], now: NOW + 400 };
    verify_report(&mut ledger, &v2, false, Some([5u8; 32])).unwrap();
    let report = ledger.report(&r).unwrap();
    assert_eq!(report.verification_count, 2);
    assert!(report.verified);
}

#[test]
fn scenario_topic_too_long() {
    let mut ledger = Ledger::new(PROGRAM);
    let ctx = CreateRequest { requester: REQUESTER, now: NOW };
    let topic = "x".repeat(300);
    let r = create_request(&mut ledger, &ctx, topic.clone(), 5, NOW + 86400);
    assert_eq!(r.unwrap_err(), ResearchError::TopicTooLong);
    let a = find_request_address(&PROGRAM, &REQUESTER, &topic);
    if let Some(a) = a {
        assert!(ledger.request(&a).is_none());
    }
    assert!(!ledger.is_occupied(&find_request_address(&PROGRAM, &REQUESTER, &"x".to_string()).unwrap()));
}

#[test]
fn scenario_submit_before_commit() {
    let mut ledger = Ledger::new(PROGRAM);
    let a = open_request(&mut ledger, "AI safety");
    let ctx = SubmitReport { research_request: a, researcher: RESEARCHER, now: NOW + 1 };
    let r = submit_report(&mut ledger, &ctx, [1u8; 32], vec![], "tx".to_string());
    assert_eq!(r.unwrap_err(), ResearchError::InvalidStatus);
    assert!(ledger.request(&a).unwrap().status == RequestStatus::Open);
}

#[test]
fn created_request_is_open_with_later_deadline() {
    let mut ledger = Ledger::new(PROGRAM);
    let a = open_request(&mut ledger, "oceans");
    let req = ledger.request(&a).unwrap();
    assert!(req.status == RequestStatus::Open);
    assert_eq!(req.created_at, NOW);
    assert!(req.deadline > req.created_at);
    assert_eq!(req.max_sources, 5);
    assert_eq!(req.topic, "oceans");
    assert_eq!(req.researcher, None);
    assert_eq!(req.methodology_hash, None);
    assert_eq!(req.completed_at, None);
}

#[test]
fn topic_of_256_bytes_is_not_too_long() {
    let mut ledger = Ledger::new(PROGRAM);
    let ctx = CreateRequest { requester: REQUESTER, now: NOW };
    let r = create_request(&mut ledger, &ctx, "y".repeat(257), 5, NOW + 1);
    assert_eq!(r.unwrap_err(), ResearchError::TopicTooLong);
    let created = create_request(&mut ledger, &ctx, "y".repeat(256), 5, NOW + 1).unwrap();
    assert_eq!(ledger.request(&created.request).unwrap().topic, "y".repeat(256));
}

#[test]
fn topic_longer_than_one_seed_is_accepted() {
    let mut ledger = Ledger::new(PROGRAM);
    let ctx = CreateRequest { requester: REQUESTER, now: NOW };
    let long = create_request(&mut ledger, &ctx, "z".repeat(33), 5, NOW + 1).unwrap();
    let short = create_request(&mut ledger, &ctx, "z".repeat(32), 5, NOW + 1).unwrap();
    assert_ne!(long.request, short.request);
    assert!(ledger.request(&long.request).unwrap().status == RequestStatus::Open);
    let again = create_request(&mut ledger, &ctx, "z".repeat(33), 5, NOW + 1);
    assert_eq!(again.unwrap_err(), ResearchError::AccountAlreadyInUse);
}

#[test]
fn topic_seeds_split_into_32_byte_pieces() {
    let a = find_request_address(&PROGRAM, &REQUESTER, &"q".repeat(64)).unwrap();
    let b = find_request_address(&PROGRAM, &REQUESTER, &"q".repeat(64)).unwrap();
    assert_eq!(a, b);
    let c = find_request_address(&PROGRAM, &REQUESTER, &"q".repeat(65)).unwrap();
    assert_ne!(a, c);
}

#[test]
fn deadline_must_be_after_now() {
    let mut ledger = Ledger::new(PROGRAM);
    let ctx = CreateRequest { requester: REQUESTER, now: NOW };
    let r = create_request(&mut ledger, &ctx, "t".to_string(), 5, NOW);
    assert_eq!(r.unwrap_err(), ResearchError::DeadlineInPast);
    let r = create_request(&mut ledger, &ctx, "t".to_string(), 5, NOW - 1);
    assert_eq!(r.unwrap_err(), ResearchError::DeadlineInPast);
    assert!(create_request(&mut ledger, &ctx, "t".to_string(), 5, NOW + 1).is_ok());
}

#[test]
fn same_requester_and_topic_cannot_create_twice() {
    let mut ledger = Ledger::new(PROGRAM);
    open_request(&mut ledger, "climate");
    let ctx = CreateRequest { requester: REQUESTER, now: NOW + 5 };
    let r = create_request(&mut ledger, &ctx, "climate".to_string(), 7, NOW + 99999);
    assert_eq!(r.unwrap_err(), ResearchError::AccountAlreadyInUse);
    let other = CreateRequest { requester: [8u8; 32], now: NOW };
    assert!(create_request(&mut ledger, &other, "climate".to_string(), 7, NOW + 99999).is_ok());
    assert!(create_request(&mut ledger, &ctx, "climate2".to_string(), 7, NOW + 99999).is_ok());
}

#[test]
fn commit_needs_open_request() {
    let mut ledger = Ledger::new(PROGRAM);
    let a = committed_request(&mut ledger, "energy");
    let ctx = CommitMethodology { research_request: a, researcher: [7u8; 32], now: NOW + 11 };
    let r = commit_methodology(&mut ledger, &ctx, [13u8; 32]);
    assert_eq!(r.unwrap_err(), ResearchError::InvalidStatus);
    let req = ledger.request(&a).unwrap();
    assert_eq!(req.researcher, Some(RESEARCHER));
    assert_eq!(req.methodology_hash, Some([11u8; 32]));
}

#[test]
fn commit_needs_time_before_deadline() {
    let mut ledger = Ledger::new(PROGRAM);
    let a = open_request(&mut ledger, "soil");
    let late = CommitMethodology { research_request: a, researcher: RESEARCHER, now: NOW + 86400 };
    assert_eq!(commit_methodology(&mut ledger, &late, [1u8; 32]).unwrap_err(), ResearchError::DeadlinePassed);
    let req = ledger.request(&a).unwrap();
    assert!(req.status == RequestStatus::Open);
    assert_eq!(req.researcher, None);
    assert_eq!(req.methodology_hash, None);
    let just_in_time = CommitMethodology { research_request: a, researcher: RESEARCHER, now: NOW + 86399 };
    assert!(commit_methodology(&mut ledger, &just_in_time, [1u8; 32]).is_ok());
}

#[test]
fn commit_on_missing_request() {
    let mut ledger = Ledger::new(PROGRAM);
    let ctx = CommitMethodology { research_request: [42u8; 32], researcher: RESEARCHER, now: NOW };
    assert_eq!(commit_methodology(&mut ledger, &ctx, [1u8; 32]).unwrap_err(), ResearchError::AccountNotInitialized);
}

#[test]
fn submit_needs_assigned_researcher() {
    let mut ledger = Ledger::new(PROGRAM);
    let a = committed_request(&mut ledger, "bees");
    let ctx = SubmitReport { research_request: a, researcher: [6u8; 32], now: NOW + 20 };
    let r = submit_report(&mut ledger, &ctx, [1u8; 32], vec![], "tx".to_string());
    assert_eq!(r.unwrap_err(), ResearchError::NotAssignedResearcher);
    assert!(ledger.request(&a).unwrap().status == RequestStatus::InProgress);
}

#[test]
fn submit_rejects_too_many_sources() {
    let mut ledger = Ledger::new(PROGRAM);
    let a = committed_request(&mut ledger, "rivers");
    let ctx = SubmitReport { research_request: a, researcher: RESEARCHER, now: NOW + 20 };
    let r = submit_report(&mut ledger, &ctx, [1u8; 32], vec![[5u8; 32]; 33], "tx".to_string());
    assert_eq!(r.unwrap_err(), ResearchError::TooManySources);
    let r = submit_report(&mut ledger, &ctx, [1u8; 32], vec![[5u8; 32]; 32], "tx".to_string()).unwrap();
    assert_eq!(r.source_count, 32);
    let report = ledger.report(&r.report).unwrap();
    assert_eq!(report.source_hashes[31], [5u8; 32]);
}

#[test]
fn submit_rejects_long_evidence_pointer() {
    let mut ledger = Ledger::new(PROGRAM);
    let a = committed_request(&mut ledger, "glaciers");
    let ctx = SubmitReport { research_request: a, researcher: RESEARCHER, now: NOW + 20 };
    let r = submit_report(&mut ledger, &ctx, [1u8; 32], vec![], "a".repeat(65));
    assert_eq!(r.unwrap_err(), ResearchError::InvalidArweaveTx);
    assert!(submit_report(&mut ledger, &ctx, [1u8; 32], vec![], "a".repeat(64)).is_ok());
}

#[test]
fn report_lives_at_derived_address_once() {
    let mut ledger = Ledger::new(PROGRAM);
    let a = committed_request(&mut ledger, "forests");
    let ctx = SubmitReport { research_request: a, researcher: RESEARCHER, now: NOW + 20 };
    let ev = submit_report(&mut ledger, &ctx, [1u8; 32], vec![], "tx".to_string()).unwrap();
    assert_eq!(Some(ev.report), find_report_address(&PROGRAM, &a));
    let again = submit_report(&mut ledger, &ctx, [1u8; 32], vec![], "tx".to_string());
    assert_eq!(again.unwrap_err(), ResearchError::InvalidStatus);
}

#[test]
fn verification_tally_counts_every_success() {
    let mut ledger = Ledger::new(PROGRAM);
    let r = submitted_report(&mut ledger, "deserts");
    let outcomes = [false, false, true, false];
    for (i, v) in outcomes.iter().enumerate() {
        let ctx = VerifyReport { research_report: r, verifier: [20 + i as u8; 32], now: NOW + 30 };
        verify_report(&mut ledger, &ctx, *v, None).unwrap();
        let report = ledger.report(&r).unwrap();
        assert_eq!(report.verification_count as usize, i + 1);
        assert_eq!(report.verified, i >= 2);
    }
}

#[test]
fn same_verifier_cannot_attest_twice() {
    let mut ledger = Ledger::new(PROGRAM);
    let r = submitted_report(&mut ledger, "lakes");
    let ctx = VerifyReport { research_report: r, verifier: [3u8; 32], now: NOW + 30 };
    verify_report(&mut ledger, &ctx, false, None).unwrap();
    assert_eq!(verify_report(&mut ledger, &ctx, true, None).unwrap_err(), ResearchError::AccountAlreadyInUse);
    let report = ledger.report(&r).unwrap();
    assert_eq!(report.verification_count, 1);
    assert!(!report.verified);
    let va = find_verification_address(&PROGRAM, &r, &[3u8; 32]).unwrap();
    let att = ledger.verification(&va).unwrap();
    assert!(!att.is_valid);
    assert_eq!(att.verifier, [3u8; 32]);
    assert_eq!(att.report, r);
}

#[test]
fn verify_on_missing_report() {
    let mut ledger = Ledger::new(PROGRAM);
    let ctx = VerifyReport { research_report: [42u8; 32], verifier: [3u8; 32], now: NOW };
    assert_eq!(verify_report(&mut ledger, &ctx, true, None).unwrap_err(), ResearchError::AccountNotInitialized);
}

#[test]
fn derived_addresses_are_deterministic_and_distinct() {
    let t = "AI safety".to_string();
    let a1 = find_request_address(&PROGRAM, &REQUESTER, &t).unwrap();
    let a2 = find_request_address(&PROGRAM, &REQUESTER, &t).unwrap();
    assert_eq!(a1, a2);
    assert_ne!(a1, REQUESTER);
    assert_ne!(a1, PROGRAM);
    let b = find_request_address(&PROGRAM, &RESEARCHER, &t).unwrap();
    assert_ne!(a1, b);
    let c = find_request_address(&[10u8; 32], &REQUESTER, &t).unwrap();
    assert_ne!(a1, c);
    let r = find_report_address(&PROGRAM, &a1).unwrap();
    assert_ne!(r, a1);
    let v = find_verification_address(&PROGRAM, &r, &REQUESTER).unwrap();
    assert_ne!(v, r);
    assert!(same_key(&a1, &a2));
    assert!(!same_key(&a1, &b));
}
