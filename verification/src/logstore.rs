//! The log store: one capped, append-only trail of text lines per job.
//!
//! A trail keeps at most `MAX_LOG_LINES` lines; appending beyond the
//! cap drops the oldest line, so a trail is a sliding window over the
//! job's history.  `lemma_capped_history` states the window shape:
//! after any number of appends exactly the most recent lines remain,
//! in order.

use vstd::prelude::*;

use crate::kv::kv_lookup;
use crate::kv::lemma_kv_push;
use crate::kv::lemma_kv_first_match;
use crate::kv::lemma_kv_absent;
use crate::kv::lemma_kv_update;
use crate::kv::lemma_kv_lookup_is_entry;

verus! {

/// The largest number of lines retained per job.
pub const MAX_LOG_LINES: usize = 100;

/// A trail after one append: the line goes to the end, and the oldest
/// line is dropped if the cap would be exceeded.
pub open spec fn push_capped(t: Seq<Seq<char>>, line: Seq<char>) -> Seq<Seq<char>> {
    let u = t.push(line);
    if u.len() > MAX_LOG_LINES {
        u.skip(u.len() - MAX_LOG_LINES)
    } else {
        u
    }
}

/// The last `MAX_LOG_LINES` lines of a full history.
pub open spec fn window(s: Seq<Seq<char>>) -> Seq<Seq<char>> {
    if s.len() <= MAX_LOG_LINES {
        s
    } else {
        s.skip(s.len() - MAX_LOG_LINES)
    }
}

/// The trail reached from `t` by appending each of `lines` in order.
pub open spec fn appended_all(t: Seq<Seq<char>>, lines: Seq<Seq<char>>) -> Seq<Seq<char>>
    decreases lines.len(),
{
    if lines.len() == 0 {
        t
    } else {
        appended_all(push_capped(t, lines[0]), lines.drop_first())
    }
}

/// One more append extends the appended history at the end: the step
/// that folds the ensures of successive `append` calls into
/// `appended_all`.
pub proof fn lemma_appended_all_snoc(t: Seq<Seq<char>>, lines: Seq<Seq<char>>, l: Seq<char>)
    ensures
        appended_all(t, lines.push(l)) == push_capped(appended_all(t, lines), l),
    decreases lines.len(),
{
    if lines.len() == 0 {
        assert(lines.push(l)[0] == l);
        assert(lines.push(l).drop_first() =~= lines);
        assert(appended_all(t, lines) == t);
        assert(appended_all(push_capped(t, l), lines) == push_capped(t, l));
    } else {
        assert(lines.push(l)[0] == lines[0]);
        assert(lines.push(l).drop_first() =~= lines.drop_first().push(l));
        lemma_appended_all_snoc(push_capped(t, lines[0]), lines.drop_first(), l);
        assert(appended_all(t, lines.push(l)) == appended_all(
            push_capped(t, lines[0]),
            lines.drop_first().push(l),
        ));
    }
}

/// One capped append commutes with taking the window of the history.
pub proof fn lemma_push_capped_window(a: Seq<Seq<char>>, l: Seq<char>)
    ensures
        push_capped(window(a), l) == window(a.push(l)),
{
    if a.len() < MAX_LOG_LINES {
        assert(push_capped(window(a), l) =~= window(a.push(l)));
    } else {
        assert(push_capped(window(a), l) =~= window(a.push(l)));
    }
}

/// Appending a whole history to a windowed trail yields the window of
/// the combined history.
pub proof fn lemma_appended_all_window(a: Seq<Seq<char>>, lines: Seq<Seq<char>>)
    ensures
        appended_all(window(a), lines) == window(a + lines),
    decreases lines.len(),
{
    if lines.len() == 0 {
        assert(a + lines =~= a);
    } else {
        lemma_push_capped_window(a, lines[0]);
        lemma_appended_all_window(a.push(lines[0]), lines.drop_first());
        assert(a.push(lines[0]) + lines.drop_first() =~= a + lines);
    }
}

/// Bounded retention: appending any history to an empty trail keeps
/// exactly the most recent lines, in their original relative order,
/// and never more than the cap.
pub proof fn lemma_capped_history(lines: Seq<Seq<char>>)
    ensures
        appended_all(Seq::empty(), lines) == window(lines),
        appended_all(Seq::empty(), lines).len() <= MAX_LOG_LINES,
        lines.len() >= MAX_LOG_LINES ==> appended_all(Seq::empty(), lines) == lines.skip(
            lines.len() - MAX_LOG_LINES,
        ),
{
    lemma_appended_all_window(Seq::empty(), lines);
    assert(window(Seq::<Seq<char>>::empty()) =~= Seq::<Seq<char>>::empty());
    assert(Seq::empty() + lines =~= lines);
    if lines.len() == MAX_LOG_LINES {
        assert(lines.skip(0) =~= lines);
    }
}

/// A watcher whose cursor sits at the end of the trail sees exactly
/// the one appended line on its next read, and nothing twice: the
/// trail then ends one past the cursor.  Requires the cap not yet
/// reached; at the cap the new line evicts the oldest one and the
/// count does not grow.
pub proof fn lemma_one_new_line(t: Seq<Seq<char>>, line: Seq<char>, cursor: int)
    requires
        cursor == t.len(),
        t.len() < MAX_LOG_LINES,
    ensures
        push_capped(t, line).len() == cursor + 1,
        push_capped(t, line).skip(cursor) == seq![line],
{
    assert(push_capped(t, line).skip(cursor) =~= seq![line]);
}

/// The lines at positions `o` and later of a trail; empty when the
/// offset lies past the end.
pub open spec fn tail_from(t: Seq<Seq<char>>, o: int) -> Seq<Seq<char>> {
    if 0 <= o <= t.len() {
        t.skip(o)
    } else {
        Seq::empty()
    }
}

/// The trail stored for `id`; an absent id has the empty trail.
pub open spec fn trail_of(m: Seq<(Seq<char>, Seq<Seq<char>>)>, id: Seq<char>) -> Seq<Seq<char>> {
    match kv_lookup(m, id) {
        Option::Some(t) => t,
        Option::None => Seq::empty(),
    }
}

/// The store of log trails, one per job id.
pub struct LogStore {
    trails: Vec<(String, Vec<String>)>,
}

impl View for LogStore {
    type V = Seq<(Seq<char>, Seq<Seq<char>>)>;

    /// The store as an association sequence of trails.
    closed spec fn view(&self) -> Seq<(Seq<char>, Seq<Seq<char>>)> {
        self.trails@.map(|i: int, e: (String, Vec<String>)| (e.0@, e.1.deep_view()))
    }
}

/// Bridges the view of a vector of lines to its elements.
pub proof fn lemma_lines_view(v: &Vec<String>)
    ensures
        v.deep_view().len() == v@.len(),
        forall|i: int|
            #![trigger v@[i]]
            #![trigger v.deep_view()[i]]
            0 <= i < v@.len() ==> v.deep_view()[i] == v@[i]@,
{
    assert forall|i: int| 0 <= i < v@.len() implies v.deep_view()[i] == v@[i]@ by {}
}

impl LogStore {
    /// Every retained trail respects the cap.
    pub open spec fn wf(&self) -> bool {
        forall|j: int| 0 <= j < self@.len() ==> (#[trigger] self@[j]).1.len() <= MAX_LOG_LINES
    }

    /// Bridges the store view to the stored entries.
    proof fn lemma_view_index(&self)
        ensures
            self@.len() == self.trails@.len(),
            forall|j: int|
                0 <= j < self.trails@.len() ==> #[trigger] self@[j] == (
                    self.trails@[j].0@,
                    self.trails@[j].1.deep_view(),
                ),
    {
        assert forall|j: int| 0 <= j < self.trails@.len() implies #[trigger] self@[j] == (
            self.trails@[j].0@,
            self.trails@[j].1.deep_view(),
        ) by {}
    }

    /// An empty store.
    pub fn new() -> (r: LogStore)
        ensures
            r@ == Seq::<(Seq<char>, Seq<Seq<char>>)>::empty(),
            r.wf(),
    {
        let r = LogStore { trails: Vec::new() };
        proof {
            assert(r@ =~= Seq::<(Seq<char>, Seq<Seq<char>>)>::empty());
        }
        r
    }

    /// The index of the trail for `id`, if any.
    #[verifier::loop_isolation(false)]
    fn position_of(&self, id: &String) -> (r: Option<usize>)
        ensures
            match r {
                Option::Some(i) => i < self@.len() && self@[i as int].0 == id@ && forall|j: int|
                    0 <= j < i ==> (#[trigger] self@[j]).0 != id@,
                Option::None => forall|j: int|
                    0 <= j < self@.len() ==> (#[trigger] self@[j]).0 != id@,
            },
    {
        proof {
            self.lemma_view_index();
        }
        let n = self.trails.len();
        for i in 0..n
            invariant
                forall|j: int| 0 <= j < i ==> (#[trigger] self@[j]).0 != id@,
        {
            if self.trails[i].0 == *id {
                return Option::Some(i);
            }
        }
        Option::None
    }

    /// Appends one line to the trail of `id`, creating the trail if
    /// absent and dropping the oldest line beyond the cap.
    pub fn append(&mut self, id: &String, line: &String)
        requires
            old(self).wf(),
        ensures
            final(self).wf(),
            trail_of(final(self)@, id@) == push_capped(trail_of(old(self)@, id@), line@),
            forall|k2: Seq<char>|
                k2 != id@ ==> #[trigger] kv_lookup(final(self)@, k2) == kv_lookup(old(self)@, k2),
    {
        let ghost m0 = self@;
        proof {
            self.lemma_view_index();
        }
        match self.position_of(id) {
            Option::Some(i) => {
                let ghost trails0 = self.trails@;
                let entry = self.trails.remove(i);
                let key = entry.0;
                let mut t = entry.1;
                let ghost t0 = t.deep_view();
                proof {
                    lemma_lines_view(&t);
                }
                t.push(line.clone());
                proof {
                    lemma_lines_view(&t);
                    assert(t.deep_view() =~= t0.push(line@));
                }
                if t.len() > MAX_LOG_LINES {
                    let ghost t1 = t.deep_view();
                    proof {
                        lemma_lines_view(&t);
                    }
                    t.remove(0);
                    proof {
                        lemma_lines_view(&t);
                        assert(t.deep_view() =~= t1.skip(1));
                    }
                }
                proof {
                    assert(t.deep_view() == push_capped(t0, line@));
                }
                self.trails.insert(i, (key, t));
                proof {
                    assert(self.trails@ =~= trails0.update(
                        i as int,
                        (trails0[i as int].0, self.trails@[i as int].1),
                    ));
                    self.lemma_view_index();
                    assert(self@ =~= m0.update(i as int, (id@, push_capped(t0, line@))));
                    lemma_kv_first_match(m0, i as int);
                    assert(trail_of(m0, id@) == t0);
                    lemma_kv_update(m0, i as int, push_capped(t0, line@), id@);
                    assert forall|k2: Seq<char>| k2 != id@ implies #[trigger] kv_lookup(
                        self@,
                        k2,
                    ) == kv_lookup(m0, k2) by {
                        lemma_kv_update(m0, i as int, push_capped(t0, line@), k2);
                    }
                    assert forall|j: int| 0 <= j < self@.len() implies (#[trigger] self@[j]).1.len()
                        <= MAX_LOG_LINES by {
                        if j != i as int {
                            assert(self@[j] == m0[j]);
                        }
                    }
                }
            },
            Option::None => {
                let mut t: Vec<String> = Vec::new();
                t.push(line.clone());
                proof {
                    lemma_lines_view(&t);
                    assert(t.deep_view() =~= seq![line@]);
                    assert(t.deep_view() == push_capped(Seq::empty(), line@));
                }
                self.trails.push((id.clone(), t));
                proof {
                    self.lemma_view_index();
                    assert(self@ =~= m0.push((id@, push_capped(Seq::empty(), line@))));
                    lemma_kv_absent(m0, id@);
                    assert(trail_of(m0, id@) == Seq::<Seq<char>>::empty());
                    lemma_kv_push(m0, id@, push_capped(Seq::empty(), line@), id@);
                    assert forall|k2: Seq<char>| k2 != id@ implies #[trigger] kv_lookup(
                        self@,
                        k2,
                    ) == kv_lookup(m0, k2) by {
                        lemma_kv_push(m0, id@, push_capped(Seq::empty(), line@), k2);
                    }
                    assert forall|j: int| 0 <= j < self@.len() implies (#[trigger] self@[j]).1.len()
                        <= MAX_LOG_LINES by {
                        if j < m0.len() {
                            assert(self@[j] == m0[j]);
                        }
                    }
                }
            },
        }
    }

    /// The full current trail of `id`, oldest line first; empty for an
    /// unknown id.  Never longer than the cap.
    pub fn read_all(&self, id: &String) -> (r: Vec<String>)
        requires
            self.wf(),
        ensures
            r.deep_view() == trail_of(self@, id@),
            r@.len() <= MAX_LOG_LINES,
    {
        match self.position_of(id) {
            Option::Some(i) => {
                proof {
                    lemma_kv_first_match(self@, i as int);
                    self.lemma_view_index();
                }
                let r = clone_lines(&self.trails[i].1);
                proof {
                    lemma_lines_view(&r);
                    lemma_lines_view(&self.trails[i as int].1);
                    assert(r.deep_view() =~= self.trails@[i as int].1.deep_view());
                }
                r
            },
            Option::None => {
                proof {
                    lemma_kv_absent(self@, id@);
                }
                let r: Vec<String> = Vec::new();
                proof {
                    lemma_lines_view(&r);
                    assert(r.deep_view() =~= Seq::<Seq<char>>::empty());
                }
                r
            },
        }
    }

    /// The lines of `id`'s trail at positions `offset` and later.  An
    /// offset past the end of the current trail yields nothing; it is
    /// clamped, never an error.
    #[verifier::loop_isolation(false)]
    pub fn read_from(&self, id: &String, offset: usize) -> (r: Vec<String>)
        ensures
            r.deep_view() == tail_from(trail_of(self@, id@), offset as int),
    {
        match self.position_of(id) {
            Option::Some(i) => {
                proof {
                    lemma_kv_first_match(self@, i as int);
                    self.lemma_view_index();
                }
                let t = &self.trails[i].1;
                proof {
                    lemma_lines_view(t);
                }
                let n = t.len();
                let start = if offset > n {
                    n
                } else {
                    offset
                };
                let mut r: Vec<String> = Vec::new();
                for j in start..n
                    invariant
                        r@ == t@.subrange(start as int, j as int),
                {
                    let ghost rpre = r@;
                    r.push(t[j].clone());
                    proof {
                        assert(r@ =~= t@.subrange(start as int, j + 1));
                    }
                }
                proof {
                    lemma_lines_view(&r);
                    assert(r.deep_view() =~= tail_from(trail_of(self@, id@), offset as int));
                }
                r
            },
            Option::None => {
                proof {
                    lemma_kv_absent(self@, id@);
                }
                let r: Vec<String> = Vec::new();
                proof {
                    lemma_lines_view(&r);
                    assert(r.deep_view() =~= tail_from(
                        trail_of(self@, id@),
                        offset as int,
                    ));
                }
                r
            },
        }
    }
}

/// In a well-formed store no trail is longer than the cap.
pub proof fn lemma_wf_trail_len(store: &LogStore, id: Seq<char>)
    requires
        store.wf(),
    ensures
        trail_of(store@, id).len() <= MAX_LOG_LINES,
{
    if kv_lookup(store@, id) is Some {
        lemma_kv_lookup_is_entry(store@, id);
    }
}

/// Copies a vector of lines.
fn clone_lines(v: &Vec<String>) -> (r: Vec<String>)
    ensures
        r@ == v@,
{
    let mut r: Vec<String> = Vec::new();
    let n = v.len();
    for i in 0..n
        invariant
            n == v@.len(),
            r@ == v@.take(i as int),
    {
        r.push(v[i].clone());
        proof {
            assert(r@ =~= v@.take(i + 1));
        }
    }
    proof {
        assert(v@.take(n as int) =~= v@);
    }
    r
}

} // verus!
