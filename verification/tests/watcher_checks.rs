use sudoku_backend::job::JobStatus;
use sudoku_backend::job::ProofResponse;
use sudoku_backend::logstore::LogStore;
use sudoku_backend::registry::Registry;
use sudoku_backend::watch::Frame;
use sudoku_backend::watch::LogAction;
use sudoku_backend::watch::LogWatcher;
use sudoku_backend::watch::StatusAction;
use sudoku_backend::watch::StatusWatcher;
use sudoku_backend::watch::WatchEvent;

fn complete(id: &str) -> JobStatus {
    JobStatus::Complete(ProofResponse {
        public_values: "true".to_string(),
        proof: format!("proof-{}.proof", id),
    })
}

#[test]
fn late_status_watcher_gets_terminal_first() {
    let mut registry = Registry::new();
    let id = "job".to_string();
    registry.create(&id);
    registry.transition(&id, complete("job"));

    let (watcher, first) = StatusWatcher::connect(id.clone(), &registry);
    assert!(watcher.streaming);
    assert_eq!(first.status.as_str(), "complete");
    assert_eq!(
        first.result.expect("attached").proof.as_str(),
        "proof-job.proof"
    );
}

#[test]
fn status_watcher_pushes_only_changes() {
    let mut registry = Registry::new();
    let id = "job".to_string();
    registry.create(&id);

    let (mut watcher, first) = StatusWatcher::connect(id.clone(), &registry);
    assert_eq!(first.status.as_str(), "processing");

    // nothing changed: the poll stays quiet
    assert!(matches!(
        watcher.handle(&registry, WatchEvent::Poll),
        StatusAction::Idle
    ));

    registry.transition(&id, JobStatus::Failed("no".to_string()));
    match watcher.handle(&registry, WatchEvent::Poll) {
        StatusAction::Send(resp) => {
            assert_eq!(resp.status.as_str(), "failed");
            assert_eq!(resp.error.as_deref(), Some("no"));
        }
        other => panic!("expected a pushed snapshot, got {:?}", other),
    }
    // delivered once; the next poll stays quiet again
    assert!(matches!(
        watcher.handle(&registry, WatchEvent::Poll),
        StatusAction::Idle
    ));
}

#[test]
fn status_watcher_answers_keepalive_and_close() {
    let registry = Registry::new();
    let (mut watcher, first) = StatusWatcher::connect("ghost".to_string(), &registry);
    // an unknown id is a normal snapshot, not a transport error
    assert_eq!(first.status.as_str(), "not_found");
    assert_eq!(first.error.as_deref(), Some("Job not found"));

    assert!(matches!(
        watcher.handle(&registry, WatchEvent::Keepalive),
        StatusAction::Ping
    ));
    assert!(matches!(
        watcher.handle(&registry, WatchEvent::Inbound(Frame::Text("hi".to_string()))),
        StatusAction::Idle
    ));
    assert!(watcher.streaming);
    assert!(matches!(
        watcher.handle(&registry, WatchEvent::Inbound(Frame::Close)),
        StatusAction::Idle
    ));
    assert!(!watcher.streaming);
}

#[test]
fn log_watcher_replays_then_sees_one_new_line_once() {
    let registry = Registry::new();
    let mut logs = LogStore::new();
    let id = "job".to_string();
    logs.append(&id, &"old 1".to_string());
    logs.append(&id, &"old 2".to_string());

    let (mut watcher, history) = LogWatcher::connect(id.clone(), &logs);
    assert_eq!(history, vec!["old 1", "old 2"]);

    logs.append(&id, &"fresh".to_string());
    match watcher.handle(&registry, &logs, WatchEvent::Poll) {
        LogAction::Deliver { lines, marker } => {
            // exactly the one new line, exactly once
            assert_eq!(lines, vec!["fresh"]);
            // the job is unknown to the registry: announced once below
            assert!(marker.is_some());
        }
        other => panic!("expected delivery, got {:?}", other),
    }
    match watcher.handle(&registry, &logs, WatchEvent::Poll) {
        LogAction::Deliver { lines, marker } => {
            assert!(lines.is_empty());
            assert!(marker.is_none());
        }
        other => panic!("expected delivery, got {:?}", other),
    }
}

#[test]
fn log_watcher_announces_a_settled_status_once() {
    let mut registry = Registry::new();
    let logs = LogStore::new();
    let id = "job".to_string();
    registry.create(&id);

    let (mut watcher, history) = LogWatcher::connect(id.clone(), &logs);
    assert!(history.is_empty());

    // still running: no announcement
    match watcher.handle(&registry, &logs, WatchEvent::Poll) {
        LogAction::Deliver { lines, marker } => {
            assert!(lines.is_empty());
            assert!(marker.is_none());
        }
        other => panic!("expected delivery, got {:?}", other),
    }

    registry.transition(&id, complete("job"));
    match watcher.handle(&registry, &logs, WatchEvent::Poll) {
        LogAction::Deliver { marker, .. } => {
            assert_eq!(
                marker.as_deref(),
                Some(
                    "Job status changed to: complete - Connection will remain open until client closes it"
                )
            );
        }
        other => panic!("expected delivery, got {:?}", other),
    }
    // announced once only
    match watcher.handle(&registry, &logs, WatchEvent::Poll) {
        LogAction::Deliver { marker, .. } => assert!(marker.is_none()),
        other => panic!("expected delivery, got {:?}", other),
    }
}

#[test]
fn log_watcher_keepalive_and_close() {
    let registry = Registry::new();
    let logs = LogStore::new();
    let (mut watcher, _) = LogWatcher::connect("job".to_string(), &logs);
    assert!(matches!(
        watcher.handle(&registry, &logs, WatchEvent::Keepalive),
        LogAction::Ping
    ));
    assert!(matches!(
        watcher.handle(&registry, &logs, WatchEvent::Inbound(Frame::Pong)),
        LogAction::Idle
    ));
    assert!(watcher.streaming);
    assert!(matches!(
        watcher.handle(&registry, &logs, WatchEvent::Inbound(Frame::Close)),
        LogAction::Idle
    ));
    assert!(!watcher.streaming);
}
