use sudoku_backend::grid::ProofInput;
use sudoku_backend::logstore::LogStore;
use sudoku_backend::registry::Registry;
use sudoku_backend::runner::proof_artifact_name;
use sudoku_backend::runner::proof_file_contents;
use sudoku_backend::runner::proof_file_path;
use sudoku_backend::runner::proof_file_payload;
use sudoku_backend::runner::run_finish;
use sudoku_backend::runner::run_progress_step;
use sudoku_backend::runner::run_validate;
use sudoku_backend::runner::submit;

fn grid(rows: [[u8; 9]; 9]) -> Vec<Vec<u8>> {
    rows.iter().map(|r| r.to_vec()).collect()
}

fn puzzle() -> Vec<Vec<u8>> {
    grid([
        [5, 3, 0, 0, 7, 0, 0, 0, 0],
        [6, 0, 0, 1, 9, 5, 0, 0, 0],
        [0, 9, 8, 0, 0, 0, 0, 6, 0],
        [8, 0, 0, 0, 6, 0, 0, 0, 3],
        [4, 0, 0, 8, 0, 3, 0, 0, 1],
        [7, 0, 0, 0, 2, 0, 0, 0, 6],
        [0, 6, 0, 0, 0, 0, 2, 8, 0],
        [0, 0, 0, 4, 1, 9, 0, 0, 5],
        [0, 0, 0, 0, 8, 0, 0, 7, 9],
    ])
}

fn completion() -> Vec<Vec<u8>> {
    grid([
        [5, 3, 4, 6, 7, 8, 9, 1, 2],
        [6, 7, 2, 1, 9, 5, 3, 4, 8],
        [1, 9, 8, 3, 4, 2, 5, 6, 7],
        [8, 5, 9, 7, 6, 1, 4, 2, 3],
        [4, 2, 6, 8, 5, 3, 7, 9, 1],
        [7, 1, 3, 9, 2, 4, 8, 5, 6],
        [9, 6, 1, 5, 3, 7, 2, 8, 4],
        [2, 8, 7, 4, 1, 9, 6, 3, 5],
        [3, 4, 5, 2, 8, 6, 1, 7, 9],
    ])
}

#[test]
fn valid_pair_runs_to_complete() {
    let mut registry = Registry::new();
    let mut logs = LogStore::new();
    let input = ProofInput { board: puzzle(), solution: completion() };

    let resp = submit(&mut registry, &mut logs, &input).expect("well-formed request");
    assert_eq!(resp.status.as_str(), "processing");
    assert!(resp.result.is_none());
    assert!(resp.error.is_none());
    assert_eq!(resp.job_id.len(), 36);
    let job_id = resp.job_id.clone();

    assert!(run_validate(&mut registry, &mut logs, &job_id, &input));
    for step in 1..=7u8 {
        run_progress_step(&mut logs, &job_id, step, 7);
    }
    let artifact = run_finish(&mut registry, &mut logs, &job_id, Ok(())).expect("completed");
    assert_eq!(artifact.public_values.as_str(), "true");
    assert_eq!(artifact.proof, format!("proof-{}.proof", job_id));

    let snap = registry.snapshot(&job_id);
    assert_eq!(snap.status.as_str(), "complete");
    let got = snap.result.expect("result attached");
    assert_eq!(got.public_values.as_str(), "true");
    assert_eq!(got.proof, format!("proof-{}.proof", job_id));
    assert!(snap.error.is_none());

    let listing = registry.list();
    assert_eq!(listing.len(), 1);
    assert_eq!(listing[0].job_id, job_id);
    assert_eq!(listing[0].status.as_str(), "complete");
    assert!(listing[0].has_proof);
}

#[test]
fn duplicate_values_in_solution_fail_the_job() {
    let mut registry = Registry::new();
    let mut logs = LogStore::new();
    let mut bad = completion();
    bad[0][0] = 5;
    bad[0][1] = 5; // two 5s in the first row
    let input = ProofInput { board: puzzle(), solution: bad };

    let resp = submit(&mut registry, &mut logs, &input).expect("shape is fine");
    let job_id = resp.job_id.clone();
    assert!(!run_validate(&mut registry, &mut logs, &job_id, &input));

    let snap = registry.snapshot(&job_id);
    assert_eq!(snap.status.as_str(), "failed");
    assert_eq!(snap.error.as_deref(), Some("Invalid solution"));
    assert!(snap.result.is_none());
}

#[test]
fn eight_rows_are_rejected_synchronously() {
    let mut registry = Registry::new();
    let mut logs = LogStore::new();
    let mut short = puzzle();
    short.pop();
    let input = ProofInput { board: short, solution: completion() };

    let err = submit(&mut registry, &mut logs, &input).expect_err("malformed");
    assert_eq!(err.job_id.as_str(), "error");
    assert_eq!(err.status.as_str(), "failed");
    assert_eq!(err.error.as_deref(), Some("Invalid board dimensions"));
    assert!(err.result.is_none());
    assert_eq!(registry.list().len(), 0);
}

#[test]
fn short_rows_name_their_index() {
    let mut registry = Registry::new();
    let mut logs = LogStore::new();

    let mut bad_board = puzzle();
    bad_board[3].pop();
    let input = ProofInput { board: bad_board, solution: completion() };
    let err = submit(&mut registry, &mut logs, &input).expect_err("short row");
    assert_eq!(
        err.error.as_deref(),
        Some("Invalid initial board row length at index 3")
    );

    let mut bad_solution = completion();
    bad_solution[5].push(1);
    let input = ProofInput { board: puzzle(), solution: bad_solution };
    let err = submit(&mut registry, &mut logs, &input).expect_err("long row");
    assert_eq!(
        err.error.as_deref(),
        Some("Invalid solution row length at index 5")
    );
    assert_eq!(registry.list().len(), 0);
}

#[test]
fn write_error_fails_the_job_with_the_reason() {
    let mut registry = Registry::new();
    let mut logs = LogStore::new();
    let input = ProofInput { board: puzzle(), solution: completion() };
    let resp = submit(&mut registry, &mut logs, &input).expect("well-formed request");
    let job_id = resp.job_id.clone();
    assert!(run_validate(&mut registry, &mut logs, &job_id, &input));

    let out = run_finish(
        &mut registry,
        &mut logs,
        &job_id,
        Err("disk full".to_string()),
    );
    assert!(out.is_none());
    let snap = registry.snapshot(&job_id);
    assert_eq!(snap.status.as_str(), "failed");
    assert_eq!(snap.error.as_deref(), Some("disk full"));
}

#[test]
fn submissions_get_distinct_ids() {
    let mut registry = Registry::new();
    let mut logs = LogStore::new();
    let input = ProofInput { board: puzzle(), solution: completion() };
    let a = submit(&mut registry, &mut logs, &input).expect("ok");
    let b = submit(&mut registry, &mut logs, &input).expect("ok");
    assert_ne!(a.job_id, b.job_id);
    assert_eq!(registry.list().len(), 2);
    // newest first
    assert_eq!(registry.list()[0].job_id, b.job_id);
    assert_eq!(registry.list()[1].job_id, a.job_id);
}

#[test]
fn artifact_names_derive_from_the_id() {
    let id = "abc".to_string();
    assert_eq!(proof_artifact_name(&id).as_str(), "proof-abc.proof");
    assert_eq!(proof_file_path(&id).as_str(), "assets/proof-abc.proof");
}

#[test]
fn artifact_contents_render_the_pair_and_timestamp() {
    let input = ProofInput {
        board: vec![vec![1, 2], vec![3, 4]],
        solution: vec![vec![5, 6], vec![7, 8]],
    };
    let contents = proof_file_contents(&input, "T");
    assert_eq!(
        contents.as_str(),
        "{\"valid\":true,\"board\":[[1, 2], [3, 4]],\"solution\":[[5, 6], [7, 8]],\"timestamp\":\"T\"}"
    );

    let stamped = proof_file_payload(&input);
    assert!(stamped.starts_with(
        "{\"valid\":true,\"board\":[[1, 2], [3, 4]],\"solution\":[[5, 6], [7, 8]],\"timestamp\":\""
    ));
    assert!(stamped.ends_with("\"}"));
    // a real clock reading stands between the quotes
    assert!(stamped.len() > contents.len());
}
