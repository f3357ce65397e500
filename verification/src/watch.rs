//! The per-connection watcher state machines.
//!
//! A watcher multiplexes three events: a keepalive tick (answered
//! with a ping), an inbound frame (a close frame ends the connection,
//! anything else is only observed), and a poll tick (the stores are
//! re-read and anything new is pushed).  A terminal status does not
//! close the connection; the subscriber closes when it is done.  The
//! loop that waits on sockets and timers lives outside the library
//! and feeds events in; every decision is taken here.

use vstd::prelude::*;

use crate::job::JobResponse;
use crate::job::StatusSpec;
use crate::job::StatusKind;
use crate::job::kind_of;
use crate::job::kind_is_settled;
use crate::job::label_of;
use crate::job::is_terminal;
use crate::job::status_kind_of;
use crate::job::status_label;
use crate::job::make_snapshot;
use crate::job::snapshot_response_of;
use crate::kv::kv_lookup;
use crate::logstore::LogStore;
use crate::logstore::trail_of;
use crate::logstore::tail_from;
use crate::logstore::lemma_lines_view;
use crate::logstore::lemma_wf_trail_len;
use crate::registry::Registry;
use crate::text::push_part;

verus! {

/// A frame arriving from the subscriber.
#[derive(Debug)]
pub enum Frame {
    Text(String),
    Close,
    Pong,
    Other,
}

/// One of the three events a watcher waits on.
#[derive(Debug)]
pub enum WatchEvent {
    Keepalive,
    Inbound(Frame),
    Poll,
}

/// What a status watcher does in reaction to one event.
#[derive(Debug)]
pub enum StatusAction {
    Ping,
    Send(JobResponse),
    Idle,
}

/// The state machine behind one status-watch connection: it remembers
/// the last delivered status kind and pushes a fresh snapshot whenever
/// the kind changes.
pub struct StatusWatcher {
    pub job_id: String,
    pub last: StatusKind,
    pub streaming: bool,
}

impl StatusWatcher {
    /// Opens a watch on `job_id`.  The current snapshot is delivered
    /// at once — even for an unknown or already terminal job — and
    /// becomes the baseline for change detection.
    pub fn connect(job_id: String, registry: &Registry) -> (r: (StatusWatcher, JobResponse))
        ensures
            r.1@ == snapshot_response_of(kv_lookup(registry@, r.0.job_id@), r.0.job_id@),
            r.0.job_id@ == job_id@,
            r.0.last == kind_of(kv_lookup(registry@, job_id@)),
            r.0.streaming,
    {
        let st = registry.get(&job_id);
        let first = make_snapshot(&job_id, &st);
        let kind = status_kind_of(&st);
        (StatusWatcher { job_id, last: kind, streaming: true }, first)
    }

    /// Reacts to one event while streaming: a keepalive tick asks for
    /// a ping, a close frame ends the stream, and a poll tick delivers
    /// a fresh snapshot exactly when the status kind changed since the
    /// last delivery.
    pub fn handle(&mut self, registry: &Registry, event: WatchEvent) -> (a: StatusAction)
        requires
            old(self).streaming,
        ensures
            final(self).job_id@ == old(self).job_id@,
            match event {
                WatchEvent::Keepalive => a is Ping && *final(self) == *old(self),
                WatchEvent::Inbound(f) => a is Idle && (f is Close ==> !final(self).streaming
                    && final(self).last == old(self).last) && (!(f is Close) ==> *final(self)
                    == *old(self)),
                WatchEvent::Poll => ({
                    let looked = kv_lookup(registry@, old(self).job_id@);
                    if kind_of(looked) != old(self).last {
                        &&& a matches StatusAction::Send(resp) && resp@ == snapshot_response_of(
                            looked,
                            old(self).job_id@,
                        )
                        &&& final(self).last == kind_of(looked)
                        &&& final(self).streaming
                    } else {
                        a is Idle && *final(self) == *old(self)
                    }
                }),
            },
    {
        match event {
            WatchEvent::Keepalive => StatusAction::Ping,
            WatchEvent::Inbound(f) => {
                match f {
                    Frame::Close => {
                        self.streaming = false;
                    },
                    _ => {},
                }
                StatusAction::Idle
            },
            WatchEvent::Poll => {
                let st = registry.get(&self.job_id);
                let kind = status_kind_of(&st);
                if kind != self.last {
                    self.last = kind;
                    StatusAction::Send(make_snapshot(&self.job_id, &st))
                } else {
                    StatusAction::Idle
                }
            },
        }
    }

    /// Ends the stream after a send or receive failure.
    pub fn close(&mut self)
        ensures
            !final(self).streaming,
            final(self).job_id@ == old(self).job_id@,
            final(self).last == old(self).last,
    {
        self.streaming = false;
    }
}

/// The one-line notice a log watcher sends when it first sees the job
/// in a settled state.
pub open spec fn marker_text(k: StatusKind) -> Seq<char> {
    "Job status changed to: "@ + label_of(k)
        + " - Connection will remain open until client closes it"@
}

/// Builds the settled-state notice line.
fn build_marker(k: StatusKind) -> (r: String)
    ensures
        r@ == marker_text(k),
{
    let mut r = "Job status changed to: ".to_owned();
    let label = status_label(k);
    push_part(&mut r, label.as_str());
    push_part(&mut r, " - Connection will remain open until client closes it");
    r
}

/// What a log watcher does in reaction to one event.
#[derive(Debug)]
pub enum LogAction {
    Ping,
    Deliver { lines: Vec<String>, marker: Option<String> },
    Idle,
}

/// The state machine behind one log-watch connection: it keeps a
/// cursor into the job's trail (lines already delivered) and the
/// settled status it has announced, if any.
pub struct LogWatcher {
    pub job_id: String,
    pub cursor: usize,
    pub marked: Option<StatusKind>,
    pub streaming: bool,
}

impl LogWatcher {
    /// Opens a watch on `job_id`'s trail.  The whole retained history
    /// is delivered at once and the cursor set past it.
    pub fn connect(job_id: String, logs: &LogStore) -> (r: (LogWatcher, Vec<String>))
        requires
            logs.wf(),
        ensures
            r.1.deep_view() == trail_of(logs@, r.0.job_id@),
            r.0.job_id@ == job_id@,
            r.0.cursor == trail_of(logs@, job_id@).len(),
            r.0.marked is None,
            r.0.streaming,
    {
        let history = logs.read_all(&job_id);
        proof {
            lemma_lines_view(&history);
        }
        let cursor = history.len();
        (LogWatcher { job_id, cursor, marked: Option::None, streaming: true }, history)
    }

    /// Reacts to one event while streaming.  On a poll tick the lines
    /// appended since the cursor are delivered — each exactly once,
    /// in order — and, the first time the job is seen in a settled
    /// state, one notice line goes out with them.
    pub fn handle(&mut self, registry: &Registry, logs: &LogStore, event: WatchEvent) -> (a:
        LogAction)
        requires
            old(self).streaming,
            logs.wf(),
        ensures
            final(self).job_id@ == old(self).job_id@,
            match event {
                WatchEvent::Keepalive => a is Ping && *final(self) == *old(self),
                WatchEvent::Inbound(f) => a is Idle && (f is Close ==> !final(self).streaming
                    && final(self).cursor == old(self).cursor && final(self).marked == old(
                    self,
                ).marked) && (!(f is Close) ==> *final(self) == *old(self)),
                WatchEvent::Poll => ({
                    let t = trail_of(logs@, old(self).job_id@);
                    let k = kind_of(kv_lookup(registry@, old(self).job_id@));
                    &&& final(self).streaming
                    &&& a matches LogAction::Deliver { lines, marker } && ({
                        &&& lines.deep_view() == (if old(self).cursor < t.len() {
                            t.skip(old(self).cursor as int)
                        } else {
                            Seq::<Seq<char>>::empty()
                        })
                        &&& final(self).cursor as int == (if old(self).cursor < t.len() {
                            t.len() as int
                        } else {
                            old(self).cursor as int
                        })
                        &&& (if kind_is_settled(k) && old(self).marked != Option::Some(k) {
                            marker matches Some(m) && m@ == marker_text(k) && final(self).marked
                                == Option::Some(k)
                        } else {
                            marker is None && final(self).marked == old(self).marked
                        })
                    })
                }),
            },
    {
        match event {
            WatchEvent::Keepalive => LogAction::Ping,
            WatchEvent::Inbound(f) => {
                match f {
                    Frame::Close => {
                        self.streaming = false;
                    },
                    _ => {},
                }
                LogAction::Idle
            },
            WatchEvent::Poll => {
                let ghost t = trail_of(logs@, self.job_id@);
                proof {
                    lemma_wf_trail_len(logs, self.job_id@);
                }
                let lines = logs.read_from(&self.job_id, self.cursor);
                proof {
                    lemma_lines_view(&lines);
                    if self.cursor < t.len() {
                        assert(lines.deep_view() == t.skip(self.cursor as int));
                    } else {
                        assert(tail_from(t, self.cursor as int) =~= Seq::<Seq<char>>::empty());
                    }
                }
                if lines.len() > 0 {
                    proof {
                        assert(self.cursor < t.len());
                        assert(lines@.len() == t.len() - self.cursor);
                    }
                    self.cursor = self.cursor + lines.len();
                }
                let st = registry.get(&self.job_id);
                let kind = status_kind_of(&st);
                let settled = match kind {
                    StatusKind::Processing => false,
                    _ => true,
                };
                let unannounced = match self.marked {
                    Option::None => true,
                    Option::Some(m) => m != kind,
                };
                let marker = if settled && unannounced {
                    self.marked = Option::Some(kind);
                    Option::Some(build_marker(kind))
                } else {
                    Option::None
                };
                LogAction::Deliver { lines, marker }
            },
        }
    }

    /// Ends the stream after a send or receive failure.
    pub fn close(&mut self)
        ensures
            !final(self).streaming,
            final(self).job_id@ == old(self).job_id@,
            final(self).cursor == old(self).cursor,
            final(self).marked == old(self).marked,
    {
        self.streaming = false;
    }
}

/// A status watcher that connects after the job has already reached a
/// terminal status receives that status in its very first message:
/// the connect snapshot reports exactly what the registry holds, with
/// the result attached when complete and the reason when failed.
pub proof fn lemma_connect_reports_terminal(m: Seq<(Seq<char>, StatusSpec)>, id: Seq<char>)
    requires
        kv_lookup(m, id) is Some,
        is_terminal(kv_lookup(m, id)->Some_0),
    ensures
        kv_lookup(m, id) matches Some(StatusSpec::Complete(p))
            ==> snapshot_response_of(kv_lookup(m, id), id).status == "complete"@
            && snapshot_response_of(kv_lookup(m, id), id).result == Option::Some(p),
        kv_lookup(m, id) matches Some(StatusSpec::Failed(e)) ==> snapshot_response_of(
            kv_lookup(m, id),
            id,
        ).status == "failed"@ && snapshot_response_of(kv_lookup(m, id), id).error
            == Option::Some(e),
{
}

} // verus!
