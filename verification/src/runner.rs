//! The job runner: synchronous admission of a work request and the
//! decisions of the detached execution that follows.
//!
//! `submit` performs the cheap structural checks, registers a fresh
//! job and returns at once.  The detached work is driven from outside
//! (it sleeps and writes a file there) but decides nothing outside:
//! `run_validate` applies the domain validator and fails the job on an
//! invalid solution, `run_progress_step` records progress lines, and
//! `run_finish` performs the single terminal transition from the
//! outcome of writing the proof artifact.

use vstd::prelude::*;

use crate::grid::ProofInput;
use crate::grid::grid_dims_ok;
use crate::grid::spec_verify_replay;
use crate::grid::verify_replay;
use crate::grid::lemma_grid_view;
use crate::grid::lemma_vec_grid_view;
use crate::job::JobStatus;
use crate::job::JobResponse;
use crate::job::ProofResponse;
use crate::job::ProofSpec;
use crate::job::StatusSpec;
use crate::kv::kv_lookup;
use crate::logstore::LogStore;
use crate::logstore::trail_of;
use crate::logstore::push_capped;
use crate::registry::Registry;
use crate::text::concat_str;
use crate::text::push_part;
use crate::text::u8_to_dec;
use crate::text::dec_digits;

verus! {

/// Relies on uuid's `Uuid::new_v4` and its `Display` form: a freshly
/// drawn random identifier, rendered hyphenated as 36 characters.
/// Nothing more can be said of a random value.
#[verifier::external_body]
fn fresh_job_id() -> (r: String)
    ensures
        r@.len() == 36,
{
    uuid::Uuid::new_v4().to_string()
}

/// Relies on chrono's `Utc::now` and the `Display` of a date-time:
/// the moment of the call rendered as a non-empty timestamp string.
/// The clock decides the contents; nothing further is assumed.
#[verifier::external_body]
fn current_timestamp() -> (r: String)
    ensures
        r@.len() > 0,
{
    chrono::Utc::now().to_string()
}

/// The first index below nine whose row does not have nine cells,
/// scanning from `i`; nine when all remaining rows are full.
pub open spec fn first_short_row(g: Seq<Seq<u8>>, i: int) -> int
    decreases 9 - i,
{
    if i >= 9 {
        9
    } else if g[i].len() != 9 {
        i
    } else {
        first_short_row(g, i + 1)
    }
}

proof fn lemma_first_short_row(g: Seq<Seq<u8>>, k: int, i: int)
    requires
        0 <= k <= i <= 9,
        forall|j: int| k <= j < i ==> (#[trigger] g[j]).len() == 9,
        i < 9 ==> g[i].len() != 9,
    ensures
        first_short_row(g, k) == (if i < 9 {
            i
        } else {
            9
        }),
    decreases i - k,
{
    if k < i {
        lemma_first_short_row(g, k + 1, i);
    }
}

/// The error text for a malformed request: wrong row counts, or the
/// first too-short row of the initial board, or of the solution.
pub open spec fn shape_error(b: Seq<Seq<u8>>, s: Seq<Seq<u8>>) -> Seq<char> {
    if b.len() != 9 || s.len() != 9 {
        "Invalid board dimensions"@
    } else if first_short_row(b, 0) < 9 {
        "Invalid initial board row length at index "@ + dec_digits(first_short_row(b, 0))
    } else {
        "Invalid solution row length at index "@ + dec_digits(first_short_row(s, 0))
    }
}

/// The synchronous failure response for a malformed request.
fn error_response(msg: String) -> (r: JobResponse)
    ensures
        r@.job_id == "error"@,
        r@.status == "failed"@,
        r@.result is None,
        r@.error == Option::Some(msg@),
{
    JobResponse {
        job_id: "error".to_owned(),
        status: "failed".to_owned(),
        result: Option::None,
        error: Option::Some(msg),
    }
}

/// Admits a work request.  A malformed request (a grid without
/// exactly nine rows of nine cells) is rejected synchronously: the
/// failure response comes back and neither store is touched.  A
/// well-formed request gets a fresh id, is registered as running with
/// its first two log lines, and the `processing` response is returned;
/// the expensive work then proceeds detached from this call.
#[verifier::loop_isolation(false)]
pub fn submit(registry: &mut Registry, logs: &mut LogStore, input: &ProofInput) -> (r: Result<
    JobResponse,
    JobResponse,
>)
    requires
        old(logs).wf(),
    ensures
        final(logs).wf(),
        !(grid_dims_ok(input.board.deep_view()) && grid_dims_ok(input.solution.deep_view()))
            ==> (r matches Err(e) && e@.job_id == "error"@ && e@.status == "failed"@ && e@.result
            is None && e@.error == Option::Some(
            shape_error(input.board.deep_view(), input.solution.deep_view()),
        ) && final(registry)@ == old(registry)@ && final(logs)@ == old(logs)@),
        grid_dims_ok(input.board.deep_view()) && grid_dims_ok(input.solution.deep_view()) ==> (
        r matches Ok(resp) && {
            &&& resp@.status == "processing"@
            &&& resp@.result is None
            &&& resp@.error is None
            &&& resp@.job_id.len() == 36
            &&& kv_lookup(final(registry)@, resp@.job_id) == Option::Some(StatusSpec::Processing)
            &&& forall|k2: Seq<char>|
                k2 != resp@.job_id ==> #[trigger] kv_lookup(final(registry)@, k2) == kv_lookup(
                    old(registry)@,
                    k2,
                )
            &&& kv_lookup(old(registry)@, resp@.job_id) is None ==> final(registry)@ == old(
                registry,
            )@.push((resp@.job_id, StatusSpec::Processing))
            &&& trail_of(final(logs)@, resp@.job_id) == push_capped(
                push_capped(
                    trail_of(old(logs)@, resp@.job_id),
                    "New job created: "@ + resp@.job_id,
                ),
                "Job status set to 'Processing': "@ + resp@.job_id,
            )
            &&& forall|k2: Seq<char>|
                k2 != resp@.job_id ==> #[trigger] kv_lookup(final(logs)@, k2) == kv_lookup(
                    old(logs)@,
                    k2,
                )
        }),
{
    let ghost b = input.board.deep_view();
    let ghost s = input.solution.deep_view();
    proof {
        lemma_vec_grid_view(&input.board);
        lemma_vec_grid_view(&input.solution);
    }
    if input.board.len() != 9 || input.solution.len() != 9 {
        return Result::Err(error_response("Invalid board dimensions".to_owned()));
    }
    for i in 0..9usize
        invariant
            forall|j: int| 0 <= j < i ==> (#[trigger] b[j]).len() == 9,
    {
        if input.board[i].len() != 9 {
            proof {
                lemma_first_short_row(b, 0, i as int);
            }
            let mut msg = "Invalid initial board row length at index ".to_owned();
            let d = u8_to_dec(i as u8);
            push_part(&mut msg, d.as_str());
            return Result::Err(error_response(msg));
        }
    }
    for i in 0..9usize
        invariant
            grid_dims_ok(b),
            forall|j: int| 0 <= j < i ==> (#[trigger] s[j]).len() == 9,
    {
        if input.solution[i].len() != 9 {
            proof {
                lemma_first_short_row(b, 0, 9);
                lemma_first_short_row(s, 0, i as int);
            }
            let mut msg = "Invalid solution row length at index ".to_owned();
            let d = u8_to_dec(i as u8);
            push_part(&mut msg, d.as_str());
            return Result::Err(error_response(msg));
        }
    }
    let job_id = fresh_job_id();
    let line = concat_str("New job created: ", job_id.as_str());
    logs.append(&job_id, &line);
    registry.create(&job_id);
    let line = concat_str("Job status set to 'Processing': ", job_id.as_str());
    logs.append(&job_id, &line);
    Result::Ok(
        JobResponse {
            job_id,
            status: "processing".to_owned(),
            result: Option::None,
            error: Option::None,
        },
    )
}

/// The first detached step: re-validates the payload with the domain
/// validator.  On an invalid solution the job takes its terminal
/// `Failed("Invalid solution")` transition and `false` comes back: the
/// run is over.  On `true` the registry is untouched and the proof
/// computation may proceed.
pub fn run_validate(
    registry: &mut Registry,
    logs: &mut LogStore,
    job_id: &String,
    input: &ProofInput,
) -> (ok: bool)
    requires
        grid_dims_ok(input.board.deep_view()),
        grid_dims_ok(input.solution.deep_view()),
        kv_lookup(old(registry)@, job_id@) == Option::Some(StatusSpec::Processing),
        old(logs).wf(),
    ensures
        final(logs).wf(),
        ok == spec_verify_replay(input.board.deep_view(), input.solution.deep_view()),
        ok ==> final(registry)@ == old(registry)@ && trail_of(final(logs)@, job_id@)
            == push_capped(
            push_capped(
                trail_of(old(logs)@, job_id@),
                "Background proof generation started: "@ + job_id@,
            ),
            "Validating solution: "@ + job_id@,
        ),
        !ok ==> kv_lookup(final(registry)@, job_id@) == Option::Some(
            StatusSpec::Failed("Invalid solution"@),
        ) && trail_of(final(logs)@, job_id@) == push_capped(
            push_capped(
                push_capped(
                    push_capped(
                        trail_of(old(logs)@, job_id@),
                        "Background proof generation started: "@ + job_id@,
                    ),
                    "Validating solution: "@ + job_id@,
                ),
                "Invalid solution: "@ + job_id@,
            ),
            "Job status updated to 'Failed': "@ + job_id@,
        ),
        forall|k2: Seq<char>|
            k2 != job_id@ ==> #[trigger] kv_lookup(final(registry)@, k2) == kv_lookup(
                old(registry)@,
                k2,
            ),
        forall|k2: Seq<char>|
            k2 != job_id@ ==> #[trigger] kv_lookup(final(logs)@, k2) == kv_lookup(old(logs)@, k2),
{
    let line = concat_str("Background proof generation started: ", job_id.as_str());
    logs.append(job_id, &line);
    let line = concat_str("Validating solution: ", job_id.as_str());
    logs.append(job_id, &line);
    let board_rows = input.board.as_slice();
    let solution_rows = input.solution.as_slice();
    proof {
        lemma_vec_grid_view(&input.board);
        lemma_vec_grid_view(&input.solution);
        lemma_grid_view(board_rows);
        lemma_grid_view(solution_rows);
        assert(board_rows.deep_view() =~= input.board.deep_view());
        assert(solution_rows.deep_view() =~= input.solution.deep_view());
    }
    let ok = verify_replay(board_rows, solution_rows);
    if !ok {
        let line = concat_str("Invalid solution: ", job_id.as_str());
        logs.append(job_id, &line);
        registry.transition(job_id, JobStatus::Failed("Invalid solution".to_owned()));
        let line = concat_str("Job status updated to 'Failed': ", job_id.as_str());
        logs.append(job_id, &line);
    }
    ok
}

/// Records one progress line of the simulated proof computation:
/// step `step` of `total`.
pub fn run_progress_step(logs: &mut LogStore, job_id: &String, step: u8, total: u8)
    requires
        old(logs).wf(),
    ensures
        final(logs).wf(),
        trail_of(final(logs)@, job_id@) == push_capped(
            trail_of(old(logs)@, job_id@),
            "Proof generation in progress: "@ + job_id@ + " - Step "@ + dec_digits(step as int)
                + "/"@ + dec_digits(total as int),
        ),
        forall|k2: Seq<char>|
            k2 != job_id@ ==> #[trigger] kv_lookup(final(logs)@, k2) == kv_lookup(old(logs)@, k2),
{
    let mut line = concat_str("Proof generation in progress: ", job_id.as_str());
    push_part(&mut line, " - Step ");
    let d = u8_to_dec(step);
    push_part(&mut line, d.as_str());
    push_part(&mut line, "/");
    let d = u8_to_dec(total);
    push_part(&mut line, d.as_str());
    logs.append(job_id, &line);
}

/// The name of the proof artifact for a job, relative to the assets
/// directory.
pub open spec fn artifact_name(id: Seq<char>) -> Seq<char> {
    "proof-"@ + id + ".proof"@
}

/// Builds the artifact file name for `job_id`.
pub fn proof_artifact_name(job_id: &String) -> (r: String)
    ensures
        r@ == artifact_name(job_id@),
{
    let mut r = concat_str("proof-", job_id.as_str());
    push_part(&mut r, ".proof");
    r
}

/// Builds the artifact path inside the fixed assets directory.
pub fn proof_file_path(job_id: &String) -> (r: String)
    ensures
        r@ == "assets/"@ + artifact_name(job_id@),
{
    let name = proof_artifact_name(job_id);
    let r = concat_str("assets/", name.as_str());
    proof {
        assert(r@ =~= "assets/"@ + artifact_name(job_id@));
    }
    r
}

/// The last detached step: turns the outcome of writing the proof
/// artifact into the job's single terminal transition.  On a written
/// artifact the job completes with the committed public output `true`
/// and the artifact name; on a write error the job fails with that
/// error.
pub fn run_finish(
    registry: &mut Registry,
    logs: &mut LogStore,
    job_id: &String,
    write_result: Result<(), String>,
) -> (r: Option<ProofResponse>)
    requires
        kv_lookup(old(registry)@, job_id@) == Option::Some(StatusSpec::Processing),
        old(logs).wf(),
    ensures
        final(logs).wf(),
        write_result matches Ok(_) ==> {
            &&& r matches Some(p)
            &&& p@ == (ProofSpec { public_values: "true"@, proof: artifact_name(job_id@) })
            &&& kv_lookup(final(registry)@, job_id@) == Option::Some(
                StatusSpec::Complete(r->Some_0@),
            )
            &&& trail_of(final(logs)@, job_id@) == push_capped(
                push_capped(
                    trail_of(old(logs)@, job_id@),
                    "Proof successfully created: "@ + job_id@,
                ),
                "Job status updated to 'Complete': "@ + job_id@,
            )
        },
        write_result matches Err(e) ==> {
            &&& r is None
            &&& kv_lookup(final(registry)@, job_id@) == Option::Some(StatusSpec::Failed(e@))
            &&& trail_of(final(logs)@, job_id@) == push_capped(
                push_capped(
                    trail_of(old(logs)@, job_id@),
                    "Proof generation error: "@ + job_id@ + " - "@ + e@,
                ),
                "Job status updated to 'Failed': "@ + job_id@,
            )
        },
        forall|k2: Seq<char>|
            k2 != job_id@ ==> #[trigger] kv_lookup(final(registry)@, k2) == kv_lookup(
                old(registry)@,
                k2,
            ),
        forall|k2: Seq<char>|
            k2 != job_id@ ==> #[trigger] kv_lookup(final(logs)@, k2) == kv_lookup(old(logs)@, k2),
{
    match write_result {
        Result::Ok(_) => {
            let response = ProofResponse {
                public_values: "true".to_owned(),
                proof: proof_artifact_name(job_id),
            };
            let line = concat_str("Proof successfully created: ", job_id.as_str());
            logs.append(job_id, &line);
            registry.transition(job_id, JobStatus::Complete(response.duplicate()));
            let line = concat_str("Job status updated to 'Complete': ", job_id.as_str());
            logs.append(job_id, &line);
            Option::Some(response)
        },
        Result::Err(e) => {
            let mut line = concat_str("Proof generation error: ", job_id.as_str());
            push_part(&mut line, " - ");
            push_part(&mut line, e.as_str());
            logs.append(job_id, &line);
            registry.transition(job_id, JobStatus::Failed(e));
            let line = concat_str("Job status updated to 'Failed': ", job_id.as_str());
            logs.append(job_id, &line);
            Option::None
        },
    }
}

/// The decimal rendering of the cells of one row, comma-separated.
pub open spec fn render_cells(r: Seq<u8>) -> Seq<char>
    decreases r.len(),
{
    if r.len() == 0 {
        Seq::empty()
    } else if r.len() == 1 {
        dec_digits(r[0] as int)
    } else {
        dec_digits(r[0] as int) + ", "@ + render_cells(r.drop_first())
    }
}

proof fn lemma_render_cells_push(r: Seq<u8>, x: u8)
    ensures
        render_cells(r.push(x)) == (if r.len() == 0 {
            dec_digits(x as int)
        } else {
            render_cells(r) + ", "@ + dec_digits(x as int)
        }),
    decreases r.len(),
{
    if r.len() == 0 {
        assert(r.push(x)[0] == x);
        assert(render_cells(r.push(x)) == dec_digits(x as int));
    } else {
        assert(r.push(x)[0] == r[0]);
        assert(r.push(x).drop_first() =~= r.drop_first().push(x));
        lemma_render_cells_push(r.drop_first(), x);
        if r.len() > 1 {
            assert(render_cells(r.push(x)) =~= render_cells(r) + ", "@ + dec_digits(x as int));
        }
    }
}

/// One grid row rendered as a bracketed list.
pub open spec fn render_row(r: Seq<u8>) -> Seq<char> {
    "["@ + render_cells(r) + "]"@
}

/// The rows of a grid rendered comma-separated.
pub open spec fn render_rows(g: Seq<Seq<u8>>) -> Seq<char>
    decreases g.len(),
{
    if g.len() == 0 {
        Seq::empty()
    } else if g.len() == 1 {
        render_row(g[0])
    } else {
        render_row(g[0]) + ", "@ + render_rows(g.drop_first())
    }
}

proof fn lemma_render_rows_push(g: Seq<Seq<u8>>, x: Seq<u8>)
    ensures
        render_rows(g.push(x)) == (if g.len() == 0 {
            render_row(x)
        } else {
            render_rows(g) + ", "@ + render_row(x)
        }),
    decreases g.len(),
{
    if g.len() == 0 {
        assert(g.push(x)[0] == x);
        assert(render_rows(g.push(x)) == render_row(x));
    } else {
        assert(g.push(x)[0] == g[0]);
        assert(g.push(x).drop_first() =~= g.drop_first().push(x));
        lemma_render_rows_push(g.drop_first(), x);
        if g.len() > 1 {
            assert(render_rows(g.push(x)) =~= render_rows(g) + ", "@ + render_row(x));
        }
    }
}

/// A grid rendered as a nested bracketed list, the way the artifact
/// file records it.
pub open spec fn render_grid(g: Seq<Seq<u8>>) -> Seq<char> {
    "["@ + render_rows(g) + "]"@
}

/// Renders one row of cells.
#[verifier::loop_isolation(false)]
fn render_row_exec(row: &Vec<u8>) -> (r: String)
    ensures
        r@ == render_row(row@),
{
    let mut s = "[".to_owned();
    proof {
        assert(row@.take(0) =~= Seq::<u8>::empty());
        assert(s@ =~= "["@ + render_cells(row@.take(0)));
    }
    let n = row.len();
    for i in 0..n
        invariant
            n == row@.len(),
            s@ == "["@ + render_cells(row@.take(i as int)),
    {
        if i > 0 {
            push_part(&mut s, ", ");
        }
        let d = u8_to_dec(row[i]);
        push_part(&mut s, d.as_str());
        proof {
            assert(row@.take(i + 1) =~= row@.take(i as int).push(row@[i as int]));
            lemma_render_cells_push(row@.take(i as int), row@[i as int]);
            assert(s@ =~= "["@ + render_cells(row@.take(i + 1)));
        }
    }
    push_part(&mut s, "]");
    proof {
        assert(row@.take(n as int) =~= row@);
        assert(s@ =~= render_row(row@));
    }
    s
}

/// Renders a whole grid.
#[verifier::loop_isolation(false)]
fn render_grid_exec(grid: &Vec<Vec<u8>>) -> (r: String)
    ensures
        r@ == render_grid(grid.deep_view()),
{
    let ghost g = grid.deep_view();
    proof {
        lemma_vec_grid_view(grid);
    }
    let mut s = "[".to_owned();
    proof {
        assert(g.take(0) =~= Seq::<Seq<u8>>::empty());
        assert(s@ =~= "["@ + render_rows(g.take(0)));
    }
    let n = grid.len();
    for i in 0..n
        invariant
            n == grid@.len(),
            s@ == "["@ + render_rows(g.take(i as int)),
    {
        if i > 0 {
            push_part(&mut s, ", ");
        }
        let d = render_row_exec(&grid[i]);
        push_part(&mut s, d.as_str());
        proof {
            assert(g.take(i + 1) =~= g.take(i as int).push(g[i as int]));
            lemma_render_rows_push(g.take(i as int), g[i as int]);
            assert(s@ =~= "["@ + render_rows(g.take(i + 1)));
        }
    }
    push_part(&mut s, "]");
    proof {
        assert(g.take(n as int) =~= g);
        assert(s@ =~= render_grid(g));
    }
    s
}

/// The contents of the proof artifact file: the admitted pair and the
/// moment the artifact was produced.
pub open spec fn proof_payload(b: Seq<Seq<u8>>, s: Seq<Seq<u8>>, ts: Seq<char>) -> Seq<char> {
    "{\"valid\":true,\"board\":"@ + render_grid(b) + ",\"solution\":"@ + render_grid(s)
        + ",\"timestamp\":\""@ + ts + "\"}"@
}

/// Builds the artifact contents for a given timestamp.
pub fn proof_file_contents(input: &ProofInput, timestamp: &str) -> (r: String)
    ensures
        r@ == proof_payload(input.board.deep_view(), input.solution.deep_view(), timestamp@),
{
    let mut r = "{\"valid\":true,\"board\":".to_owned();
    let rendered = render_grid_exec(&input.board);
    push_part(&mut r, rendered.as_str());
    push_part(&mut r, ",\"solution\":");
    let rendered = render_grid_exec(&input.solution);
    push_part(&mut r, rendered.as_str());
    push_part(&mut r, ",\"timestamp\":\"");
    push_part(&mut r, timestamp);
    push_part(&mut r, "\"}");
    proof {
        assert(r@ =~= proof_payload(
            input.board.deep_view(),
            input.solution.deep_view(),
            timestamp@,
        ));
    }
    r
}

/// Builds the artifact contents stamped with the moment of the call.
pub fn proof_file_payload(input: &ProofInput) -> (r: String)
    ensures
        exists|ts: Seq<char>|
            r@ == proof_payload(input.board.deep_view(), input.solution.deep_view(), ts),
{
    let ts = current_timestamp();
    let r = proof_file_contents(input, ts.as_str());
    proof {
        assert(r@ == proof_payload(input.board.deep_view(), input.solution.deep_view(), ts@));
    }
    r
}

/// A job finished from a genuine completion shows `complete` with a
/// non-empty result reference: the snapshot of the completed status
/// carries the committed output `true` and the artifact name, which
/// names the job id and is never empty.
pub proof fn lemma_completed_job_snapshot(id: Seq<char>)
    ensures
        ({
            let p = ProofSpec { public_values: "true"@, proof: artifact_name(id) };
            let resp = crate::job::snapshot_response_of(
                Option::Some(StatusSpec::Complete(p)),
                id,
            );
            &&& resp.status == "complete"@
            &&& resp.result == Option::Some(p)
            &&& p.proof.len() == id.len() + 12
            &&& p.public_values.len() > 0
        }),
{
    reveal_strlit("proof-");
    reveal_strlit(".proof");
    reveal_strlit("true");
}

/// A pair whose solution breaks the Sudoku constraint (or leaves a
/// blank cell, or contradicts the initial board) fails the job with a
/// non-empty reason: the validator rejects it, and the snapshot of the
/// failed status carries the non-empty error text.
pub proof fn lemma_invalid_pair_fails(b: Seq<Seq<u8>>, s: Seq<Seq<u8>>, id: Seq<char>)
    requires
        !spec_verify_replay(b, s),
    ensures
        ({
            let resp = crate::job::snapshot_response_of(
                Option::Some(StatusSpec::Failed("Invalid solution"@)),
                id,
            );
            &&& resp.status == "failed"@
            &&& resp.error matches Some(e) && e.len() > 0
        }),
{
    reveal_strlit("Invalid solution");
}

} // verus!
