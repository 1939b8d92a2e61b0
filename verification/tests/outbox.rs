use graphite_workstation_core::run_outbox::state_machine::{compute_event_hash, verify_chain};
use graphite_workstation_core::{can_transition, OutboxError, OutboxStateMachine};
use sha2::{Digest, Sha256};

#[test]
fn test_successful_state_progression_and_chain_integrity() {
    let mut sm = OutboxStateMachine::new();
    let id = "req_test_001";
    let matter = "matter_abc";
    let task_hash = "sha256:1111111111111111111111111111111111111111111111111111111111111111";

    let initial = sm.create_record(id, matter, task_hash).unwrap();
    assert_eq!(initial.state, "local_created");
    assert_eq!(initial.revision, 1);

    let step1 = sm.transition(id, 1, "admission_pending").unwrap();
    assert_eq!(step1.state, "admission_pending");
    assert_eq!(step1.revision, 2);

    let step2 = sm.transition(id, 2, "admitted").unwrap();
    assert_eq!(step2.state, "admitted");
    assert_eq!(step2.revision, 3);

    let step3 = sm.transition(id, 3, "staging").unwrap();
    assert_eq!(step3.revision, 4);

    let step4 = sm.transition(id, 4, "submitted").unwrap();
    assert_eq!(step4.revision, 5);

    let step5 = sm.transition(id, 5, "cloud_running").unwrap();
    assert_eq!(step5.revision, 6);

    let step6 = sm.transition(id, 6, "result_ready").unwrap();
    assert_eq!(step6.revision, 7);

    let step7 = sm.transition(id, 7, "downloaded").unwrap();
    assert_eq!(step7.revision, 8);

    let step8 = sm.transition(id, 8, "acknowledged").unwrap();
    assert_eq!(step8.revision, 9);

    assert!(sm.verify_event_chain());
}

#[test]
fn test_cas_revision_conflict_rejection() {
    let mut sm = OutboxStateMachine::new();
    let id = "req_test_cas";
    sm.create_record(id, "matter_1", "sha256:...").unwrap();

    let err = sm.transition(id, 0, "admission_pending").unwrap_err();
    assert!(matches!(
        err,
        OutboxError::RevisionConflict {
            expected: 0,
            actual: 1
        }
    ));
}

#[test]
fn test_terminal_states_cannot_transition() {
    let mut sm = OutboxStateMachine::new();
    let id = "req_test_terminal";
    sm.create_record(id, "matter_1", "sha256:...").unwrap();

    sm.transition(id, 1, "cancelled").unwrap();

    let err = sm.transition(id, 2, "submitted").unwrap_err();
    assert!(matches!(err, OutboxError::InvalidTransition { .. }));
}

const ALL_STATES: [&str; 14] = [
    "local_created",
    "admission_pending",
    "admitted",
    "staging",
    "submitted",
    "cloud_running",
    "awaiting_approval",
    "paused",
    "result_ready",
    "downloaded",
    "acknowledged",
    "reconciliation_required",
    "failed",
    "cancelled",
];

#[test]
fn terminal_states_go_nowhere() {
    for from in ["acknowledged", "failed", "cancelled", "expired"] {
        for to in ALL_STATES.iter().chain(["expired", "bogus"].iter()) {
            assert!(!can_transition(from, to), "{from} -> {to}");
        }
    }
}

#[test]
fn live_states_can_escape() {
    for from in ALL_STATES.iter().filter(|s| !matches!(**s, "acknowledged" | "failed" | "cancelled")) {
        for to in ["reconciliation_required", "failed", "cancelled", "expired"] {
            assert!(can_transition(from, to), "{from} -> {to}");
        }
    }
    // an unknown state is not terminal either
    assert!(can_transition("bogus", "failed"));
}

#[test]
fn transition_table_samples() {
    assert!(can_transition("local_created", "admission_pending"));
    assert!(!can_transition("acknowledged", "submitted"));
    assert!(can_transition("submitted", "awaiting_approval"));
    assert!(can_transition("awaiting_approval", "result_ready"));
    assert!(can_transition("paused", "submitted"));
    assert!(!can_transition("paused", "cloud_running"));
    assert!(can_transition("reconciliation_required", "downloaded"));
    assert!(!can_transition("reconciliation_required", "acknowledged"));
    assert!(!can_transition("local_created", "submitted"));
    assert!(!can_transition("downloaded", "result_ready"));
}

#[test]
fn duplicate_record_is_refused_and_nothing_changes() {
    let mut sm = OutboxStateMachine::new();
    sm.create_record_at("dup", "m1", "h1", 1000).unwrap();
    let err = sm.create_record_at("dup", "m2", "h2", 2000).unwrap_err();
    assert_eq!(err, OutboxError::Validation("Record with id 'dup' already exists".to_string()));
    let rec = sm.get_record("dup").unwrap();
    assert_eq!(rec.matter_id, "m1");
    assert_eq!(rec.created_at, "1000");
}

#[test]
fn read_after_create() {
    let mut sm = OutboxStateMachine::new();
    let created = sm.create_record_at("r1", "matter", "hash", 1_700_000_000_123).unwrap();
    assert_eq!(created.state, "local_created");
    assert_eq!(created.revision, 1);
    assert_eq!(created.created_at, "1700000000123");
    assert_eq!(created.updated_at, "1700000000123");
    assert_eq!(created.cloud_run_id, None);
    let read = sm.get_record("r1").unwrap();
    assert_eq!(read.desktop_request_id, "r1");
    assert_eq!(read.matter_id, "matter");
    assert_eq!(read.task_hash, "hash");
    assert!(matches!(sm.get_record("r2"), Err(OutboxError::NotFound)));
}

#[test]
fn unknown_record_is_not_found() {
    let mut sm = OutboxStateMachine::default();
    assert!(matches!(sm.transition("nope", 1, "failed"), Err(OutboxError::NotFound)));
    assert!(sm.event_log().is_empty());
}

#[test]
fn stale_revision_refused_after_success() {
    let mut sm = OutboxStateMachine::new();
    sm.create_record_at("x", "m", "h", 10).unwrap();
    sm.transition_at("x", 1, "admission_pending", 20).unwrap();
    let err = sm.transition_at("x", 1, "failed", 30).unwrap_err();
    assert_eq!(err, OutboxError::RevisionConflict { expected: 1, actual: 2 });
    let rec = sm.get_record("x").unwrap();
    assert_eq!(rec.state, "admission_pending");
    assert_eq!(rec.revision, 2);
    assert_eq!(sm.event_log().len(), 1);
}

#[test]
fn refused_transition_reports_states() {
    let mut sm = OutboxStateMachine::new();
    sm.create_record_at("x", "m", "h", 10).unwrap();
    let err = sm.transition_at("x", 1, "downloaded", 20).unwrap_err();
    assert_eq!(
        err,
        OutboxError::InvalidTransition { from: "local_created".to_string(), to: "downloaded".to_string() }
    );
    assert!(sm.event_log().is_empty());
}

#[test]
fn transition_updates_only_its_record() {
    let mut sm = OutboxStateMachine::new();
    sm.create_record_at("a", "m", "h", 10).unwrap();
    sm.create_record_at("b", "m", "h", 11).unwrap();
    let out = sm.transition_at("a", 1, "expired", 99).unwrap();
    assert_eq!(out.state, "expired");
    assert_eq!(out.revision, 2);
    assert_eq!(out.updated_at, "99");
    assert_eq!(out.created_at, "10");
    let b = sm.get_record("b").unwrap();
    assert_eq!(b.state, "local_created");
    assert_eq!(b.revision, 1);
}

fn field(h: &mut Sha256, s: &str) {
    h.update((s.len() as u64).to_le_bytes());
    h.update(s.as_bytes());
}

fn manual_event_hash(prev: &str, id: &str, from: &str, to: &str, rev: i64, ts: &str) -> String {
    let mut h = Sha256::new();
    field(&mut h, prev);
    field(&mut h, id);
    field(&mut h, from);
    field(&mut h, to);
    h.update(rev.to_le_bytes());
    field(&mut h, ts);
    format!("sha256:{}", hex::encode(h.finalize()))
}

#[test]
fn event_log_links_each_event_to_the_previous() {
    let mut sm = OutboxStateMachine::new();
    sm.create_record_at("req", "m", "h", 5).unwrap();
    sm.transition_at("req", 1, "admission_pending", 6).unwrap();
    sm.transition_at("req", 2, "admitted", 7).unwrap();
    let log = sm.event_log();
    assert_eq!(log.len(), 2);
    let genesis = "sha256:0000000000000000000000000000000000000000000000000000000000000000";
    let h0 = manual_event_hash(genesis, "req", "local_created", "admission_pending", 2, "6");
    assert_eq!(log[0].prev_event_hash, genesis);
    assert_eq!(log[0].event_hash, h0);
    assert_eq!(log[0].event_id, format!("evt_{}", &h0[7..23]));
    assert_eq!(log[0].revision, 2);
    assert_eq!(log[0].timestamp, "6");
    let h1 = manual_event_hash(&h0, "req", "admission_pending", "admitted", 3, "7");
    assert_eq!(log[1].prev_event_hash, h0);
    assert_eq!(log[1].event_hash, h1);
    assert!(sm.verify_event_chain());
}

#[test]
fn compute_event_hash_matches_sha256() {
    let got = compute_event_hash("p", "id", "a", "b", 258, "123");
    assert_eq!(got, manual_event_hash("p", "id", "a", "b", 258, "123"));
    assert_eq!(got.len(), 71);
    let neg = compute_event_hash("", "", "", "", -1, "");
    assert_eq!(neg, manual_event_hash("", "", "", "", -1, ""));
}

#[test]
fn tampering_is_detected() {
    let mut sm = OutboxStateMachine::new();
    sm.create_record_at("req", "m", "h", 5).unwrap();
    sm.transition_at("req", 1, "failed", 6).unwrap();
    let log = sm.event_log().clone();
    assert!(verify_chain(&log));

    let mut altered = log.clone();
    altered[0].to_state = "acknowledged".to_string();
    assert!(!verify_chain(&altered));

    let mut relinked = log.clone();
    relinked[0].prev_event_hash = "sha256:ff".to_string();
    assert!(!verify_chain(&relinked));

    assert!(verify_chain(&Vec::new()));
}

#[test]
fn shifting_bytes_between_fields_is_detected() {
    let mut sm = OutboxStateMachine::new();
    sm.create_record_at("ab", "m", "h", 5).unwrap();
    sm.transition_at("ab", 1, "failed", 6).unwrap();
    let log = sm.event_log().clone();
    assert!(verify_chain(&log));

    // move the last byte of the request id to the front of the from-state
    let mut shifted = log.clone();
    shifted[0].request_id = "a".to_string();
    shifted[0].from_state = "blocal_created".to_string();
    assert!(!verify_chain(&shifted));

    // the revision and the timestamp are covered too
    let mut bumped = log.clone();
    bumped[0].revision = 3;
    assert!(!verify_chain(&bumped));
    let mut retimed = log.clone();
    retimed[0].timestamp = "7".to_string();
    assert!(!verify_chain(&retimed));
}

#[test]
fn a_record_survives_other_operations() {
    let mut sm = OutboxStateMachine::new();
    let kept = sm.create_record_at("kept", "m", "h", 1).unwrap();
    sm.create_record_at("other", "m2", "h2", 2).unwrap();
    sm.transition_at("other", 1, "admission_pending", 3).unwrap();
    let _ = sm.transition_at("other", 1, "failed", 4).unwrap_err();
    let _ = sm.create_record_at("kept", "x", "y", 5).unwrap_err();
    let read = sm.get_record("kept").unwrap();
    assert_eq!(read.desktop_request_id, kept.desktop_request_id);
    assert_eq!(read.state, kept.state);
    assert_eq!(read.revision, kept.revision);
    assert_eq!(read.created_at, kept.created_at);
    assert_eq!(read.updated_at, kept.updated_at);
    assert_eq!(sm.event_log().len(), 1);
    assert_eq!(sm.event_log()[0].request_id, "other");
}

#[test]
fn error_messages() {
    assert_eq!(OutboxError::NotFound.message(), "Outbox record not found");
    assert_eq!(
        OutboxError::RevisionConflict { expected: -3, actual: 12 }.message(),
        "Revision conflict: expected -3, got 12"
    );
    assert_eq!(
        OutboxError::InvalidTransition { from: "a".into(), to: "b".into() }.message(),
        "Illegal state transition from 'a' to 'b'"
    );
    assert_eq!(OutboxError::Validation("v".into()).message(), "Validation error: v");
    assert_eq!(OutboxError::Persistence("p".into()).message(), "Storage persistence error: p");
    assert_eq!(
        OutboxError::IdempotencyConflict.message(),
        "Idempotency key reused with different payload"
    );
}
