//! The job registry: the shared map from job id to current status and
//! the single source of truth for job state.
//!
//! Entries are kept in creation order.  A job is created as
//! `Processing` and transitions at most once, to a terminal status;
//! `lemma_terminal_status_stable` states that a status once observed
//! terminal never changes again under the registry's operations.

use vstd::prelude::*;

use crate::job::JobStatus;
use crate::job::JobResponse;
use crate::job::StatusSpec;
use crate::job::StatusKind;
use crate::job::kind_of;
use crate::job::label_of;
use crate::job::is_terminal;
use crate::job::status_label;
use crate::job::make_snapshot;
use crate::job::snapshot_response_of;
use crate::kv::kv_lookup;
use crate::kv::lemma_kv_push;
use crate::kv::lemma_kv_first_match;
use crate::kv::lemma_kv_absent;
use crate::kv::lemma_kv_update;

verus! {

/// One row of the job listing: the id, its status label, and whether a
/// proof artifact is attached.
#[derive(Debug, Clone)]
pub struct JobSummary {
    pub job_id: String,
    pub status: String,
    pub has_proof: bool,
}

/// Ghost image of `JobSummary`.
#[verifier::ext_equal]
pub struct JobSummarySpec {
    pub job_id: Seq<char>,
    pub status: Seq<char>,
    pub has_proof: bool,
}

impl View for JobSummary {
    type V = JobSummarySpec;

    open spec fn view(&self) -> JobSummarySpec {
        JobSummarySpec { job_id: self.job_id@, status: self.status@, has_proof: self.has_proof }
    }
}

/// The registry of all jobs known to the process.
pub struct Registry {
    jobs: Vec<(String, JobStatus)>,
}

impl View for Registry {
    type V = Seq<(Seq<char>, StatusSpec)>;

    /// The registry as an association sequence in creation order.
    closed spec fn view(&self) -> Seq<(Seq<char>, StatusSpec)> {
        self.jobs@.map(|i: int, e: (String, JobStatus)| (e.0@, e.1@))
    }
}

impl Registry {
    /// Bridges the registry view to the stored entries.
    proof fn lemma_view_index(&self)
        ensures
            self@.len() == self.jobs@.len(),
            forall|j: int|
                0 <= j < self.jobs@.len() ==> #[trigger] self@[j] == (
                    self.jobs@[j].0@,
                    self.jobs@[j].1@,
                ),
    {
        assert forall|j: int| 0 <= j < self.jobs@.len() implies #[trigger] self@[j] == (
            self.jobs@[j].0@,
            self.jobs@[j].1@,
        ) by {}
    }

    /// An empty registry.
    pub fn new() -> (r: Registry)
        ensures
            r@ == Seq::<(Seq<char>, StatusSpec)>::empty(),
    {
        let r = Registry { jobs: Vec::new() };
        proof {
            assert(r@ =~= Seq::<(Seq<char>, StatusSpec)>::empty());
        }
        r
    }

    /// The index of the first entry for `id`, if any.
    #[verifier::loop_isolation(false)]
    fn position_of(&self, id: &String) -> (r: Option<usize>)
        ensures
            match r {
                Option::Some(i) => i < self@.len() && self@[i as int].0 == id@ && forall|j: int|
                    0 <= j < i ==> (#[trigger] self@[j]).0 != id@,
                Option::None => forall|j: int|
                    0 <= j < self@.len() ==> (#[trigger] self@[j]).0 != id@,
            },
    {
        proof {
            self.lemma_view_index();
        }
        let n = self.jobs.len();
        for i in 0..n
            invariant
                forall|j: int| 0 <= j < i ==> (#[trigger] self@[j]).0 != id@,
        {
            if self.jobs[i].0 == *id {
                return Option::Some(i);
            }
        }
        Option::None
    }

    /// Replaces the status stored in entry `i`, keeping its key.
    fn replace_at(&mut self, i: usize, st: JobStatus)
        requires
            i < old(self)@.len(),
        ensures
            final(self)@ == old(self)@.update(i as int, (old(self)@[i as int].0, st@)),
    {
        proof {
            self.lemma_view_index();
        }
        let ghost jobs0 = self.jobs@;
        let ghost m0 = self@;
        let entry = self.jobs.remove(i);
        self.jobs.insert(i, (entry.0, st));
        proof {
            assert(self.jobs@ =~= jobs0.update(i as int, (jobs0[i as int].0, st)));
            self.lemma_view_index();
            assert(self@ =~= m0.update(i as int, (m0[i as int].0, st@)));
        }
    }

    /// Registers `id` as a freshly created running job.  Callers keep
    /// ids unique (they generate them); should the id nevertheless be
    /// present, its record is reset to `Processing`.
    pub fn create(&mut self, id: &String)
        ensures
            kv_lookup(final(self)@, id@) == Option::Some(StatusSpec::Processing),
            forall|k2: Seq<char>|
                k2 != id@ ==> #[trigger] kv_lookup(final(self)@, k2) == kv_lookup(old(self)@, k2),
            kv_lookup(old(self)@, id@) is None ==> final(self)@ == old(self)@.push(
                (id@, StatusSpec::Processing),
            ),
    {
        let ghost m0 = self@;
        match self.position_of(id) {
            Option::Some(i) => {
                self.replace_at(i, JobStatus::Processing);
                proof {
                    lemma_kv_first_match(m0, i as int);
                    assert(kv_lookup(m0, id@) is Some);
                    lemma_kv_update(m0, i as int, StatusSpec::Processing, id@);
                    assert forall|k2: Seq<char>| k2 != id@ implies #[trigger] kv_lookup(
                        self@,
                        k2,
                    ) == kv_lookup(m0, k2) by {
                        lemma_kv_update(m0, i as int, StatusSpec::Processing, k2);
                    }
                }
            },
            Option::None => {
                self.jobs.push((id.clone(), JobStatus::Processing));
                proof {
                    lemma_kv_absent(m0, id@);
                    assert(self@ =~= m0.push((id@, StatusSpec::Processing)));
                    lemma_kv_push(m0, id@, StatusSpec::Processing, id@);
                    assert forall|k2: Seq<char>| k2 != id@ implies #[trigger] kv_lookup(
                        self@,
                        k2,
                    ) == kv_lookup(m0, k2) by {
                        lemma_kv_push(m0, id@, StatusSpec::Processing, k2);
                    }
                }
            },
        }
    }

    /// Performs the single terminal transition of a running job.
    /// Calling this twice for one job is a caller bug, ruled out here
    /// by requiring the job to still be running.
    pub fn transition(&mut self, id: &String, outcome: JobStatus)
        requires
            kv_lookup(old(self)@, id@) == Option::Some(StatusSpec::Processing),
            is_terminal(outcome@),
        ensures
            kv_lookup(final(self)@, id@) == Option::Some(outcome@),
            forall|k2: Seq<char>|
                k2 != id@ ==> #[trigger] kv_lookup(final(self)@, k2) == kv_lookup(old(self)@, k2),
            final(self)@.len() == old(self)@.len(),
            forall|j: int|
                0 <= j < old(self)@.len() ==> (#[trigger] final(self)@[j]).0 == old(self)@[j].0,
    {
        let ghost m0 = self@;
        let ghost outc = outcome@;
        match self.position_of(id) {
            Option::Some(i) => {
                self.replace_at(i, outcome);
                proof {
                    lemma_kv_update(m0, i as int, outc, id@);
                    assert forall|k2: Seq<char>| k2 != id@ implies #[trigger] kv_lookup(
                        self@,
                        k2,
                    ) == kv_lookup(m0, k2) by {
                        lemma_kv_update(m0, i as int, outc, k2);
                    }
                }
            },
            Option::None => {
                proof {
                    lemma_kv_absent(m0, id@);
                }
                assert(false);
            },
        }
    }

    /// The current status of `id`, or `None` for an unknown id.
    pub fn get(&self, id: &String) -> (r: Option<JobStatus>)
        ensures
            match r {
                Option::Some(st) => kv_lookup(self@, id@) == Option::Some(st@),
                Option::None => kv_lookup(self@, id@) is None,
            },
    {
        match self.position_of(id) {
            Option::Some(i) => {
                proof {
                    lemma_kv_first_match(self@, i as int);
                    self.lemma_view_index();
                }
                Option::Some(self.jobs[i].1.duplicate())
            },
            Option::None => {
                proof {
                    lemma_kv_absent(self@, id@);
                }
                Option::None
            },
        }
    }

    /// The snapshot response for `job_id`: the pull view of one job.
    pub fn snapshot(&self, job_id: &String) -> (r: JobResponse)
        ensures
            r@ == snapshot_response_of(kv_lookup(self@, job_id@), job_id@),
    {
        let st = self.get(job_id);
        make_snapshot(job_id, &st)
    }

    /// Lists every known job, newest first, with its status label and
    /// whether a proof artifact is attached.  Creation order is the
    /// recency order: ids are random, so their byte order would not be.
    #[verifier::loop_isolation(false)]
    pub fn list(&self) -> (r: Vec<JobSummary>)
        ensures
            r@.len() == self@.len(),
            forall|k: int|
                0 <= k < r@.len() ==> (#[trigger] r@[k])@.job_id == self@[self@.len() - 1 - k].0
                    && r@[k]@.status == label_of(
                    kind_of(Option::Some(self@[self@.len() - 1 - k].1)),
                ) && r@[k]@.has_proof == (self@[self@.len() - 1 - k].1 is Complete),
    {
        proof {
            self.lemma_view_index();
        }
        let n = self.jobs.len();
        let mut out: Vec<JobSummary> = Vec::new();
        for k in 0..n
            invariant
                out@.len() == k,
                forall|q: int|
                    0 <= q < k ==> (#[trigger] out@[q])@.job_id == self@[self@.len() - 1 - q].0
                        && out@[q]@.status == label_of(
                        kind_of(Option::Some(self@[self@.len() - 1 - q].1)),
                    ) && out@[q]@.has_proof == (self@[self@.len() - 1 - q].1 is Complete),
        {
            let e = &self.jobs[n - 1 - k];
            let summary = match &e.1 {
                JobStatus::Processing => JobSummary {
                    job_id: e.0.clone(),
                    status: status_label(StatusKind::Processing),
                    has_proof: false,
                },
                JobStatus::Complete(_) => JobSummary {
                    job_id: e.0.clone(),
                    status: status_label(StatusKind::Complete),
                    has_proof: true,
                },
                JobStatus::Failed(_) => JobSummary {
                    job_id: e.0.clone(),
                    status: status_label(StatusKind::Failed),
                    has_proof: false,
                },
            };
            out.push(summary);
        }
        out
    }
}

/// One step of the registry as the job runner drives it: either a
/// fresh job is created as `Processing`, or one running job takes its
/// single terminal transition.
pub open spec fn registry_step(
    pre: Seq<(Seq<char>, StatusSpec)>,
    post: Seq<(Seq<char>, StatusSpec)>,
) -> bool {
    (exists|id: Seq<char>|
        kv_lookup(pre, id) is None && post == pre.push((id, StatusSpec::Processing))) || (exists|
        id: Seq<char>,
    |
        {
            &&& #[trigger] kv_lookup(pre, id) == Option::<StatusSpec>::Some(StatusSpec::Processing)
            &&& kv_lookup(post, id) is Some
            &&& is_terminal(kv_lookup(post, id)->Some_0)
            &&& forall|k2: Seq<char>|
                k2 != id ==> #[trigger] kv_lookup(post, k2) == kv_lookup(pre, k2)
        })
}

/// Terminal-state stability: a job whose status has been observed as
/// terminal keeps exactly that status across any further registry
/// step.  Fresh creations use a new id, and a terminal job can never
/// transition again, so later reads return the same status.
pub proof fn lemma_terminal_status_stable(
    pre: Seq<(Seq<char>, StatusSpec)>,
    post: Seq<(Seq<char>, StatusSpec)>,
    id: Seq<char>,
)
    requires
        registry_step(pre, post),
        kv_lookup(pre, id) is Some,
        is_terminal(kv_lookup(pre, id)->Some_0),
    ensures
        kv_lookup(post, id) == kv_lookup(pre, id),
{
    if exists|id2: Seq<char>|
        kv_lookup(pre, id2) is None && post == pre.push((id2, StatusSpec::Processing)) {
        let id2 = choose|id2: Seq<char>|
            kv_lookup(pre, id2) is None && post == pre.push((id2, StatusSpec::Processing));
        assert(id2 != id);
        lemma_kv_push(pre, id2, StatusSpec::Processing, id);
    } else {
        let id2 = choose|id2: Seq<char>|
            {
                &&& #[trigger] kv_lookup(pre, id2) == Option::<StatusSpec>::Some(
                    StatusSpec::Processing,
                )
                &&& kv_lookup(post, id2) is Some
                &&& is_terminal(kv_lookup(post, id2)->Some_0)
                &&& forall|k2: Seq<char>|
                    k2 != id2 ==> #[trigger] kv_lookup(post, k2) == kv_lookup(pre, k2)
            };
        assert(id2 != id);
    }
}

/// A run of the registry: consecutive states joined by single steps.
pub open spec fn registry_run(states: Seq<Seq<(Seq<char>, StatusSpec)>>) -> bool {
    forall|i: int|
        0 <= i < states.len() - 1 ==> registry_step(#[trigger] states[i], states[i + 1])
}

/// Terminal-state stability over any whole run: a status observed
/// terminal at the start of a run of registry steps reads back
/// unchanged at its end.
pub proof fn lemma_terminal_status_stable_run(
    states: Seq<Seq<(Seq<char>, StatusSpec)>>,
    id: Seq<char>,
)
    requires
        registry_run(states),
        states.len() > 0,
        kv_lookup(states[0], id) is Some,
        is_terminal(kv_lookup(states[0], id)->Some_0),
    ensures
        kv_lookup(states.last(), id) == kv_lookup(states[0], id),
    decreases states.len(),
{
    if states.len() > 1 {
        lemma_terminal_status_stable(states[0], states[1], id);
        let rest = states.drop_first();
        assert forall|i: int| 0 <= i < rest.len() - 1 implies registry_step(
            #[trigger] rest[i],
            rest[i + 1],
        ) by {
            assert(rest[i] == states[i + 1]);
            assert(rest[i + 1] == states[i + 2]);
        }
        lemma_terminal_status_stable_run(rest, id);
        assert(rest.last() == states.last());
    }
}

/// The ensures of a fresh `create` witness one registry step.
pub proof fn lemma_fresh_create_is_step(
    pre: Seq<(Seq<char>, StatusSpec)>,
    post: Seq<(Seq<char>, StatusSpec)>,
    id: Seq<char>,
)
    requires
        kv_lookup(pre, id) is None,
        post == pre.push((id, StatusSpec::Processing)),
    ensures
        registry_step(pre, post),
{
}

/// The ensures of `transition` witness one registry step.
pub proof fn lemma_transition_is_step(
    pre: Seq<(Seq<char>, StatusSpec)>,
    post: Seq<(Seq<char>, StatusSpec)>,
    id: Seq<char>,
)
    requires
        kv_lookup(pre, id) == Option::<StatusSpec>::Some(StatusSpec::Processing),
        kv_lookup(post, id) is Some,
        is_terminal(kv_lookup(post, id)->Some_0),
        forall|k2: Seq<char>| k2 != id ==> #[trigger] kv_lookup(post, k2) == kv_lookup(pre, k2),
    ensures
        registry_step(pre, post),
{
}

} // verus!
