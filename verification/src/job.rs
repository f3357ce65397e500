//! Job statuses and the snapshot responses handed to callers.
//!
//! A job is always in exactly one of three states: running, finished
//! with a proof artifact, or failed with a reason.  Callers asking
//! about an unknown id receive a `not_found` snapshot; that is a normal
//! answer, not a transport error.

use vstd::prelude::*;

verus! {

/// The result artifact of a finished proof job: the committed public
/// output and a reference to the stored proof file.
#[derive(Debug, Clone)]
pub struct ProofResponse {
    pub public_values: String,
    pub proof: String,
}

/// Ghost image of `ProofResponse`.
#[verifier::ext_equal]
pub struct ProofSpec {
    pub public_values: Seq<char>,
    pub proof: Seq<char>,
}

impl View for ProofResponse {
    type V = ProofSpec;

    open spec fn view(&self) -> ProofSpec {
        ProofSpec { public_values: self.public_values@, proof: self.proof@ }
    }
}

impl ProofResponse {
    /// A copy with the same contents.
    pub fn duplicate(&self) -> (r: ProofResponse)
        ensures
            r@ == self@,
    {
        ProofResponse { public_values: self.public_values.clone(), proof: self.proof.clone() }
    }
}

/// The lifecycle status of one job.  A job starts as `Processing` and
/// moves at most once, to `Complete` or to `Failed`.
#[derive(Debug, Clone)]
pub enum JobStatus {
    Processing,
    Complete(ProofResponse),
    Failed(String),
}

/// Ghost image of `JobStatus`.
#[verifier::ext_equal]
pub enum StatusSpec {
    Processing,
    Complete(ProofSpec),
    Failed(Seq<char>),
}

impl View for JobStatus {
    type V = StatusSpec;

    open spec fn view(&self) -> StatusSpec {
        match self {
            JobStatus::Processing => StatusSpec::Processing,
            JobStatus::Complete(p) => StatusSpec::Complete(p@),
            JobStatus::Failed(e) => StatusSpec::Failed(e@),
        }
    }
}

impl JobStatus {
    /// A copy with the same contents.
    pub fn duplicate(&self) -> (r: JobStatus)
        ensures
            r@ == self@,
    {
        match self {
            JobStatus::Processing => JobStatus::Processing,
            JobStatus::Complete(p) => JobStatus::Complete(p.duplicate()),
            JobStatus::Failed(e) => JobStatus::Failed(e.clone()),
        }
    }
}

/// A status that no later transition may leave.
pub open spec fn is_terminal(s: StatusSpec) -> bool {
    !(s is Processing)
}

/// The coarse status of a job as a watcher classifies it, including
/// the answer for an id the registry does not know.
#[derive(Debug, Clone, Copy, PartialEq, Eq, Structural)]
pub enum StatusKind {
    Processing,
    Complete,
    Failed,
    NotFound,
}

/// The kind of a registry lookup result.
pub open spec fn kind_of(s: Option<StatusSpec>) -> StatusKind {
    match s {
        Option::None => StatusKind::NotFound,
        Option::Some(StatusSpec::Processing) => StatusKind::Processing,
        Option::Some(StatusSpec::Complete(_)) => StatusKind::Complete,
        Option::Some(StatusSpec::Failed(_)) => StatusKind::Failed,
    }
}

/// Classifies a registry lookup result, as returned by
/// `Registry::get`.
pub fn status_kind_of(st: &Option<JobStatus>) -> (k: StatusKind)
    ensures
        k == kind_of(
            match *st {
                Option::Some(s) => Option::Some(s@),
                Option::None => Option::None,
            },
        ),
{
    match st {
        Option::None => StatusKind::NotFound,
        Option::Some(JobStatus::Processing) => StatusKind::Processing,
        Option::Some(JobStatus::Complete(_)) => StatusKind::Complete,
        Option::Some(JobStatus::Failed(_)) => StatusKind::Failed,
    }
}

/// A kind after which no further status change can be observed.
pub open spec fn kind_is_settled(k: StatusKind) -> bool {
    k != StatusKind::Processing
}

/// The status label used in snapshot responses.
pub open spec fn label_of(k: StatusKind) -> Seq<char> {
    match k {
        StatusKind::Processing => "processing"@,
        StatusKind::Complete => "complete"@,
        StatusKind::Failed => "failed"@,
        StatusKind::NotFound => "not_found"@,
    }
}

/// Builds the status label for a kind.
pub fn status_label(k: StatusKind) -> (r: String)
    ensures
        r@ == label_of(k),
{
    match k {
        StatusKind::Processing => "processing".to_owned(),
        StatusKind::Complete => "complete".to_owned(),
        StatusKind::Failed => "failed".to_owned(),
        StatusKind::NotFound => "not_found".to_owned(),
    }
}

/// The structured status object every caller receives: the job id,
/// a status label, the result when complete and the error when failed
/// or unknown.
#[derive(Debug, Clone)]
pub struct JobResponse {
    pub job_id: String,
    pub status: String,
    pub result: Option<ProofResponse>,
    pub error: Option<String>,
}

/// Ghost image of `JobResponse`.
#[verifier::ext_equal]
pub struct JobResponseSpec {
    pub job_id: Seq<char>,
    pub status: Seq<char>,
    pub result: Option<ProofSpec>,
    pub error: Option<Seq<char>>,
}

impl View for JobResponse {
    type V = JobResponseSpec;

    open spec fn view(&self) -> JobResponseSpec {
        JobResponseSpec {
            job_id: self.job_id@,
            status: self.status@,
            result: match self.result {
                Option::Some(p) => Option::Some(p@),
                Option::None => Option::None,
            },
            error: match self.error {
                Option::Some(e) => Option::Some(e@),
                Option::None => Option::None,
            },
        }
    }
}

/// The snapshot response for job `id` when the registry holds `st`:
/// the status label for its kind, the result exactly when complete,
/// and the error exactly when failed or not found.
pub open spec fn snapshot_response_of(st: Option<StatusSpec>, id: Seq<char>) -> JobResponseSpec {
    match st {
        Option::None => JobResponseSpec {
            job_id: id,
            status: label_of(StatusKind::NotFound),
            result: Option::None,
            error: Option::Some("Job not found"@),
        },
        Option::Some(StatusSpec::Processing) => JobResponseSpec {
            job_id: id,
            status: label_of(StatusKind::Processing),
            result: Option::None,
            error: Option::None,
        },
        Option::Some(StatusSpec::Complete(p)) => JobResponseSpec {
            job_id: id,
            status: label_of(StatusKind::Complete),
            result: Option::Some(p),
            error: Option::None,
        },
        Option::Some(StatusSpec::Failed(e)) => JobResponseSpec {
            job_id: id,
            status: label_of(StatusKind::Failed),
            result: Option::None,
            error: Option::Some(e),
        },
    }
}

/// Builds the snapshot response for `job_id` from a registry lookup
/// result, as returned by `Registry::get`.
pub fn make_snapshot(job_id: &String, st: &Option<JobStatus>) -> (r: JobResponse)
    ensures
        r@ == snapshot_response_of(
            match *st {
                Option::Some(s) => Option::Some(s@),
                Option::None => Option::None,
            },
            job_id@,
        ),
{
    match st {
        Option::None => JobResponse {
            job_id: job_id.clone(),
            status: status_label(StatusKind::NotFound),
            result: Option::None,
            error: Option::Some("Job not found".to_owned()),
        },
        Option::Some(JobStatus::Processing) => JobResponse {
            job_id: job_id.clone(),
            status: status_label(StatusKind::Processing),
            result: Option::None,
            error: Option::None,
        },
        Option::Some(JobStatus::Complete(p)) => JobResponse {
            job_id: job_id.clone(),
            status: status_label(StatusKind::Complete),
            result: Option::Some(p.duplicate()),
            error: Option::None,
        },
        Option::Some(JobStatus::Failed(e)) => JobResponse {
            job_id: job_id.clone(),
            status: status_label(StatusKind::Failed),
            result: Option::None,
            error: Option::Some(e.clone()),
        },
    }
}

} // verus!
