use sudoku_backend::job::JobStatus;
use sudoku_backend::job::ProofResponse;
use sudoku_backend::logstore::LogStore;
use sudoku_backend::registry::Registry;

#[test]
fn unknown_job_reads_not_found() {
    let registry = Registry::new();
    let snap = registry.snapshot(&"nope".to_string());
    assert_eq!(snap.job_id.as_str(), "nope");
    assert_eq!(snap.status.as_str(), "not_found");
    assert!(snap.result.is_none());
    assert_eq!(snap.error.as_deref(), Some("Job not found"));
}

#[test]
fn created_job_is_processing() {
    let mut registry = Registry::new();
    let id = "job-1".to_string();
    registry.create(&id);
    let snap = registry.snapshot(&id);
    assert_eq!(snap.status.as_str(), "processing");
    assert!(snap.result.is_none());
    assert!(snap.error.is_none());
    assert!(matches!(registry.get(&id), Some(JobStatus::Processing)));
}

#[test]
fn terminal_status_is_stable_across_reads_and_steps() {
    let mut registry = Registry::new();
    let id = "job-1".to_string();
    registry.create(&id);
    registry.transition(
        &id,
        JobStatus::Complete(ProofResponse {
            public_values: "true".to_string(),
            proof: "proof-job-1.proof".to_string(),
        }),
    );

    let first = registry.snapshot(&id);
    assert_eq!(first.status.as_str(), "complete");

    // further registry steps concern other jobs; the status must not move
    let other = "job-2".to_string();
    registry.create(&other);
    registry.transition(&other, JobStatus::Failed("boom".to_string()));

    let again = registry.snapshot(&id);
    assert_eq!(again.status.as_str(), "complete");
    let p = again.result.expect("still attached");
    assert_eq!(p.proof.as_str(), "proof-job-1.proof");
}

#[test]
fn listing_reports_kind_and_proof_flag() {
    let mut registry = Registry::new();
    let a = "a".to_string();
    let b = "b".to_string();
    let c = "c".to_string();
    registry.create(&a);
    registry.create(&b);
    registry.create(&c);
    registry.transition(
        &b,
        JobStatus::Complete(ProofResponse {
            public_values: "true".to_string(),
            proof: "proof-b.proof".to_string(),
        }),
    );
    registry.transition(&c, JobStatus::Failed("no".to_string()));

    let listing = registry.list();
    assert_eq!(listing.len(), 3);
    // newest first
    assert_eq!(listing[0].job_id.as_str(), "c");
    assert_eq!(listing[0].status.as_str(), "failed");
    assert!(!listing[0].has_proof);
    assert_eq!(listing[1].job_id.as_str(), "b");
    assert_eq!(listing[1].status.as_str(), "complete");
    assert!(listing[1].has_proof);
    assert_eq!(listing[2].job_id.as_str(), "a");
    assert_eq!(listing[2].status.as_str(), "processing");
    assert!(!listing[2].has_proof);
}

#[test]
fn trail_reads_back_in_append_order() {
    let mut logs = LogStore::new();
    let id = "job".to_string();
    logs.append(&id, &"one".to_string());
    logs.append(&id, &"two".to_string());
    logs.append(&id, &"three".to_string());
    let all: Vec<String> = logs.read_all(&id);
    assert_eq!(all, vec!["one", "two", "three"]);
}

#[test]
fn trails_are_kept_apart() {
    let mut logs = LogStore::new();
    logs.append(&"a".to_string(), &"line a".to_string());
    logs.append(&"b".to_string(), &"line b".to_string());
    assert_eq!(logs.read_all(&"a".to_string()), vec!["line a"]);
    assert_eq!(logs.read_all(&"b".to_string()), vec!["line b"]);
    assert!(logs.read_all(&"c".to_string()).is_empty());
}

#[test]
fn trail_never_exceeds_the_cap() {
    let mut logs = LogStore::new();
    let id = "job".to_string();
    for i in 0..105 {
        logs.append(&id, &format!("line {}", i));
        assert!(logs.read_all(&id).len() <= 100);
    }
    let all = logs.read_all(&id);
    assert_eq!(all.len(), 100);
    // exactly the last 100 lines, in their original relative order
    assert_eq!(all[0].as_str(), "line 5");
    assert_eq!(all[99].as_str(), "line 104");
    for (k, line) in all.iter().enumerate() {
        assert_eq!(line.as_str(), format!("line {}", k + 5).as_str());
    }
}

#[test]
fn offsets_survive_truncation() {
    let mut logs = LogStore::new();
    let id = "job".to_string();
    for i in 0..105 {
        logs.append(&id, &format!("line {}", i));
    }
    // the trail holds positions 0..100 of the current window
    assert_eq!(logs.read_from(&id, 99), vec!["line 104"]);
    assert!(logs.read_from(&id, 100).is_empty());
    assert_eq!(logs.read_from(&id, 0).len(), 100);
}

#[test]
fn read_from_clamps_the_offset() {
    let mut logs = LogStore::new();
    let id = "job".to_string();
    for i in 0..4 {
        logs.append(&id, &format!("line {}", i));
    }
    assert_eq!(logs.read_from(&id, 0).len(), 4);
    assert_eq!(logs.read_from(&id, 2), vec!["line 2", "line 3"]);
    assert!(logs.read_from(&id, 4).is_empty());
    assert!(logs.read_from(&id, 400).is_empty());
    assert!(logs.read_from(&"other".to_string(), 0).is_empty());
}
