//! The file monitor's decision core: which files are relevant, which paths to
//! register, and the per-path debouncing of filesystem events. The watcher and
//! the clock live at the application edge and feed plain values in.

use vstd::prelude::*;
use crate::repository::file_name_spec;
use crate::settings::{enabled_paths, MonitoredPath, MonitoredPathV, path_index_of,
    lemma_path_index_of_bounds, lemma_path_index_of_at};
use crate::strutil::has_suffix;

verus! {

/// A file the monitor cares about: its name does not start with a dot and
/// carries the `org` extension, case-sensitively.
pub open spec fn relevant_file_spec(path: Seq<char>) -> bool {
    let f = file_name_spec(path);
    f.len() > 0 && f[0] != '.' && has_suffix(f, ".org"@)
}

/// Whether a path names a file the monitor processes.
pub fn is_relevant_file(path: &str) -> (r: bool)
    ensures
        r == relevant_file_spec(path@),
{
    let name = crate::repository::file_name_of(path);
    let nlen = name.as_str().unicode_len();
    if nlen == 0 {
        return false;
    }
    if name.as_str().get_char(0) == '.' {
        return false;
    }
    proof {
        reveal_strlit(".org");
    }
    crate::strutil::ends_with(name.as_str(), ".org")
}

/// The kinds of filesystem events, as the monitor sees them.
#[derive(Debug, Clone, Copy, PartialEq, Eq, Structural)]
pub enum FsEventKind {
    Modify,
    Create,
    Remove,
    Other,
}

/// The path an event is acted on: its first path, for a modify, create or
/// remove event; none otherwise.
pub fn relevant_event_path(kind: FsEventKind, paths: &Vec<String>) -> (r: Option<String>)
    ensures
        match r {
            Some(p) => !(kind is Other) && paths@.len() > 0 && p@ == paths.deep_view()[0],
            None => kind is Other || paths@.len() == 0,
        },
{
    match kind {
        FsEventKind::Other => None,
        _ => {
            if paths.len() > 0 {
                Some(paths[0].clone())
            } else {
                None
            }
        },
    }
}

/// The monitor's own state: the recorded paths and whether a watcher runs.
#[derive(Debug)]
pub struct MonitorCore {
    pub paths: Vec<MonitoredPath>,
    pub watching: bool,
}

/// The mathematical image of the monitor state.
pub struct MonitorCoreV {
    pub paths: Seq<MonitoredPathV>,
    pub watching: bool,
}

impl View for MonitorCore {
    type V = MonitorCoreV;

    open spec fn view(&self) -> MonitorCoreV {
        MonitorCoreV { paths: self.paths.deep_view(), watching: self.watching }
    }
}

impl MonitorCore {
    /// A monitor with no paths, not watching.
    pub fn new() -> (r: MonitorCore)
        ensures
            r@.paths == Seq::<MonitoredPathV>::empty(),
            !r@.watching,
    {
        let r = MonitorCore { paths: Vec::new(), watching: false };
        assert(r@.paths =~= Seq::<MonitoredPathV>::empty());
        r
    }

    /// Record a path to monitor. A path already recorded is left alone; a new
    /// one is appended. The result says whether the live watcher, if any,
    /// should register it now: it was new, the monitor is watching and the
    /// path has parsing enabled.
    pub fn add_path(&mut self, path: MonitoredPath) -> (register_now: bool)
        ensures
            path_index_of(old(self)@.paths, path@.path) < old(self)@.paths.len() ==> (*final(self)
                == *old(self) && !register_now),
            path_index_of(old(self)@.paths, path@.path) >= old(self)@.paths.len() ==> (final(self)@.paths == old(self)@.paths.push(path@) && final(self)@.watching == old(self)@.watching && register_now == (old(self)@.watching && path@.parse_enabled)),
    {
        let ghost m0 = self@;
        let n = self.paths.len();
        let mut i: usize = 0;
        while i < n
            invariant
                n == self.paths@.len(),
                *self == *old(self),
                self@ == m0,
                0 <= i <= n,
                forall|j: int| 0 <= j < i ==> self@.paths[j].path != path@.path,
            decreases n - i,
        {
            if crate::strutil::str_eq(self.paths[i].path.as_str(), path.path.as_str()) {
                proof {
                    lemma_path_index_of_at(m0.paths, path@.path, i as int);
                }
                return false;
            }
            i = i + 1;
        }
        proof {
            lemma_path_index_of_bounds(m0.paths, path@.path);
        }
        let register_now = self.watching && path.parse_enabled;
        self.paths.push(path);
        proof {
            assert(self@.paths =~= m0.paths.push(path@));
        }
        register_now
    }

    /// Begin watching: the monitor turns to watching — restarting afresh if it
    /// already was — and hands back the paths the watcher must register: those
    /// with parsing enabled, in order, each with its recursive flag.
    pub fn start_monitoring(&mut self) -> (r: Vec<(String, bool)>)
        ensures
            final(self)@.paths == old(self)@.paths,
            final(self)@.watching,
            r.deep_view() == enabled_paths(old(self)@.paths).map_values(
                |p: MonitoredPathV| (p.path, p.directory),
            ),
    {
        self.watching = true;
        let n = self.paths.len();
        let mut out: Vec<(String, bool)> = Vec::new();
        let mut i: usize = 0;
        let ghost ps = self.paths.deep_view();
        proof {
            assert(ps.skip(0) =~= ps);
        }
        while i < n
            invariant
                n == self.paths@.len(),
                self@.paths == ps,
                self@.watching,
                old(self)@.paths == ps,
                0 <= i <= n,
                out.deep_view() + enabled_paths(ps.skip(i as int)).map_values(
                    |p: MonitoredPathV| (p.path, p.directory),
                ) =~= enabled_paths(ps).map_values(|p: MonitoredPathV| (p.path, p.directory)),
            decreases n - i,
        {
            proof {
                assert(ps.skip(i as int)[0] == ps[i as int]);
                assert(ps.skip(i as int).drop_first() =~= ps.skip(i + 1));
            }
            if self.paths[i].parse_enabled {
                let ghost before = out.deep_view();
                out.push((self.paths[i].path.clone(), self.paths[i].is_recursive()));
                proof {
                    assert(out.deep_view() =~= before + seq![(ps[i as int].path, ps[i as int].directory)]);
                    assert(enabled_paths(ps.skip(i as int)).map_values(
                        |p: MonitoredPathV| (p.path, p.directory),
                    ) =~= seq![(ps[i as int].path, ps[i as int].directory)] + enabled_paths(
                        ps.skip(i + 1),
                    ).map_values(|p: MonitoredPathV| (p.path, p.directory)));
                }
            } else {
                proof {
                    assert(enabled_paths(ps.skip(i as int)).map_values(
                        |p: MonitoredPathV| (p.path, p.directory),
                    ) =~= enabled_paths(ps.skip(i + 1)).map_values(
                        |p: MonitoredPathV| (p.path, p.directory),
                    ));
                }
            }
            i = i + 1;
        }
        proof {
            assert(enabled_paths(ps.skip(n as int)) =~= Seq::<MonitoredPathV>::empty());
            assert(out.deep_view() =~= enabled_paths(ps).map_values(
                |p: MonitoredPathV| (p.path, p.directory),
            ));
        }
        out
    }

    /// Stop watching; stopping an idle monitor changes nothing.
    pub fn stop_monitoring(&mut self)
        ensures
            final(self)@.paths == old(self)@.paths,
            !final(self)@.watching,
    {
        self.watching = false;
    }
}

/// One pending debounce timer: a path and the instant its timer elapses.
#[derive(Debug)]
pub struct Pending {
    pub path: String,
    pub deadline: u64,
}

impl View for Pending {
    type V = (Seq<char>, u64);

    open spec fn view(&self) -> (Seq<char>, u64) {
        (self.path@, self.deadline)
    }
}

impl DeepView for Pending {
    type V = (Seq<char>, u64);

    open spec fn deep_view(&self) -> (Seq<char>, u64) {
        self.view()
    }
}

/// The debouncer: per-path timers, one per path, each restarted by a newer
/// event for its path.
#[derive(Debug)]
pub struct Debouncer {
    pub pending: Vec<Pending>,
    pub delay: u64,
}

/// The mathematical image of the debouncer.
pub struct DebouncerV {
    pub pending: Seq<(Seq<char>, u64)>,
    pub delay: u64,
}

impl View for Debouncer {
    type V = DebouncerV;

    open spec fn view(&self) -> DebouncerV {
        DebouncerV { pending: self.pending.deep_view(), delay: self.delay }
    }
}

/// How many timers a path holds.
pub open spec fn count_path(ps: Seq<(Seq<char>, u64)>, path: Seq<char>) -> int
    decreases ps.len(),
{
    if ps.len() == 0 {
        0int
    } else {
        (if ps[0].0 == path {
            1int
        } else {
            0int
        }) + count_path(ps.drop_first(), path)
    }
}

/// Each path holds at most one timer.
pub open spec fn debouncer_wf(ps: Seq<(Seq<char>, u64)>) -> bool {
    forall|i: int, j: int| 0 <= i < j < ps.len() ==> ps[i].0 != ps[j].0
}

/// Recording an event: the path's timer restarts at the new deadline, keeping
/// its place, or a new timer is appended.
pub open spec fn record_model(ps: Seq<(Seq<char>, u64)>, path: Seq<char>, deadline: u64) -> Seq<
    (Seq<char>, u64),
> {
    let i = crate::props::props_index_of(
        ps.map_values(|p: (Seq<char>, u64)| (p.0, Seq::<char>::empty())),
        path,
    );
    if i < ps.len() {
        ps.update(i, (path, deadline))
    } else {
        ps.push((path, deadline))
    }
}

/// The timers due at `now`: their paths, in order.
pub open spec fn due_paths(ps: Seq<(Seq<char>, u64)>, now: u64) -> Seq<Seq<char>>
    decreases ps.len(),
{
    if ps.len() == 0 {
        Seq::empty()
    } else {
        let rest = due_paths(ps.drop_first(), now);
        if ps[0].1 <= now {
            seq![ps[0].0] + rest
        } else {
            rest
        }
    }
}

/// The timers still running after `now`.
pub open spec fn still_pending(ps: Seq<(Seq<char>, u64)>, now: u64) -> Seq<(Seq<char>, u64)>
    decreases ps.len(),
{
    if ps.len() == 0 {
        Seq::empty()
    } else {
        let rest = still_pending(ps.drop_first(), now);
        if ps[0].1 <= now {
            rest
        } else {
            seq![ps[0]] + rest
        }
    }
}

impl Debouncer {
    /// A debouncer with no timers.
    pub fn new(delay: u64) -> (r: Debouncer)
        ensures
            r@.pending == Seq::<(Seq<char>, u64)>::empty(),
            r@.delay == delay,
            debouncer_wf(r@.pending),
    {
        let r = Debouncer { pending: Vec::new(), delay };
        assert(r@.pending =~= Seq::<(Seq<char>, u64)>::empty());
        r
    }

    /// An event arrived for `path` at `now`: its timer restarts to elapse at
    /// `now + delay`, superseding any timer it already had.
    pub fn record_event(&mut self, path: String, now: u64)
        requires
            now + old(self)@.delay <= u64::MAX,
        ensures
            final(self)@.pending == record_model(
                old(self)@.pending,
                path@,
                (now + old(self)@.delay) as u64,
            ),
            final(self)@.delay == old(self)@.delay,
            debouncer_wf(old(self)@.pending) ==> debouncer_wf(final(self)@.pending),
    {
        let deadline = now + self.delay;
        let ghost d0 = self@.delay;
        let ghost ps0 = self@.pending;
        let ghost keyed = ps0.map_values(|p: (Seq<char>, u64)| (p.0, Seq::<char>::empty()));
        let n = self.pending.len();
        let mut i: usize = 0;
        while i < n
            invariant
                n == self.pending@.len(),
                *self == *old(self),
                self@.pending == ps0,
                ps0 == old(self)@.pending,
                d0 == old(self)@.delay,
                deadline == (now + d0) as u64,
                keyed == ps0.map_values(|p: (Seq<char>, u64)| (p.0, Seq::<char>::empty())),
                0 <= i <= n,
                forall|j: int| 0 <= j < i ==> ps0[j].0 != path@,
            decreases n - i,
        {
            if crate::strutil::str_eq(self.pending[i].path.as_str(), path.as_str()) {
                proof {
                    assert(forall|j: int| 0 <= j < i ==> keyed[j].0 != path@);
                    assert(keyed[i as int].0 == path@);
                    crate::props::lemma_props_index_at(keyed, path@, i as int);
                }
                self.pending.remove(i);
                self.pending.insert(i, Pending { path, deadline });
                proof {
                    assert(self@.pending =~= record_model(ps0, path@, deadline));
                    assert(self@.pending == record_model(ps0, path@, deadline));
                    assert(deadline == (now + d0) as u64);
                    assert(forall|j: int|
                        0 <= j < self@.pending.len() ==> (#[trigger] self@.pending[j]).0
                            == ps0[j].0);
                    if debouncer_wf(ps0) {
                        assert(debouncer_wf(self@.pending));
                    }
                }
                return ;
            }
            i = i + 1;
        }
        proof {
            assert(forall|j: int| 0 <= j < keyed.len() ==> keyed[j].0 != path@);
            crate::props::lemma_props_index_of_bounds(keyed, path@);
        }
        self.pending.push(Pending { path, deadline });
        proof {
            assert(self@.pending =~= record_model(ps0, path@, deadline));
            if debouncer_wf(ps0) {
                assert(forall|j: int|
                    0 <= j < ps0.len() ==> (#[trigger] self@.pending[j]) == ps0[j]);
                assert(debouncer_wf(self@.pending));
            }
        }
    }

    /// Take every due timer: the paths whose deadlines have passed come out,
    /// each exactly once, and their timers are gone; the rest keep running.
    pub fn take_due(&mut self, now: u64) -> (r: Vec<String>)
        ensures
            r.deep_view() == due_paths(old(self)@.pending, now),
            final(self)@.pending == still_pending(old(self)@.pending, now),
            final(self)@.delay == old(self)@.delay,
            debouncer_wf(old(self)@.pending) ==> debouncer_wf(final(self)@.pending),
    {
        let ghost ps0 = self@.pending;
        let n = self.pending.len();
        let mut due: Vec<String> = Vec::new();
        let mut keep: Vec<Pending> = Vec::new();
        let mut i: usize = 0;
        proof {
            assert(ps0.skip(0) =~= ps0);
        }
        while i < n
            invariant
                n == self.pending@.len(),
                *self == *old(self),
                self@.pending == ps0,
                ps0 == old(self)@.pending,
                0 <= i <= n,
                due_paths(ps0, now) =~= due.deep_view() + due_paths(ps0.skip(i as int), now),
                still_pending(ps0, now) =~= keep.deep_view() + still_pending(
                    ps0.skip(i as int),
                    now,
                ),
            decreases n - i,
        {
            proof {
                assert(ps0.skip(i as int)[0] == ps0[i as int]);
                assert(ps0.skip(i as int).drop_first() =~= ps0.skip(i + 1));
            }
            if self.pending[i].deadline <= now {
                let ghost before = due.deep_view();
                due.push(self.pending[i].path.clone());
                assert(due.deep_view() =~= before + seq![ps0[i as int].0]);
            } else {
                let ghost before = keep.deep_view();
                keep.push(
                    Pending {
                        path: self.pending[i].path.clone(),
                        deadline: self.pending[i].deadline,
                    },
                );
                assert(keep.deep_view() =~= before + seq![ps0[i as int]]);
            }
            proof {
                assert(due_paths(ps0, now) =~= due.deep_view() + due_paths(ps0.skip(i + 1), now));
                assert(still_pending(ps0, now) =~= keep.deep_view() + still_pending(
                    ps0.skip(i + 1),
                    now,
                ));
            }
            i = i + 1;
        }
        proof {
            assert(due_paths(ps0.skip(n as int), now) =~= Seq::<Seq<char>>::empty());
            assert(still_pending(ps0.skip(n as int), now) =~= Seq::<(Seq<char>, u64)>::empty());
            assert(due.deep_view() =~= due_paths(ps0, now));
            assert(keep.deep_view() =~= still_pending(ps0, now));
            if debouncer_wf(ps0) {
                lemma_still_pending_wf(ps0, now);
            }
        }
        self.pending = keep;
        due
    }
}

/// Taking the due timers keeps the remaining paths unique.
proof fn lemma_still_pending_wf(ps: Seq<(Seq<char>, u64)>, now: u64)
    requires
        debouncer_wf(ps),
    ensures
        debouncer_wf(still_pending(ps, now)),
    decreases ps.len(),
{
    if ps.len() > 0 {
        let rest = ps.drop_first();
        assert(forall|i: int| 0 <= i < rest.len() ==> rest[i] == ps[i + 1]);
        assert(forall|i: int, j: int| 0 <= i < j < rest.len() ==> rest[i].0 != rest[j].0);
        lemma_still_pending_wf(rest, now);
        lemma_still_pending_sub(rest, now);
        if ps[0].1 <= now {
        } else {
            let out = still_pending(ps, now);
            assert(out == seq![ps[0]] + still_pending(rest, now));
            assert(forall|k: int|
                0 <= k < still_pending(rest, now).len() ==> (#[trigger] still_pending(
                    rest,
                    now,
                )[k]).0 != ps[0].0) by {
                assert forall|k: int|
                    0 <= k < still_pending(rest, now).len() implies (#[trigger] still_pending(
                    rest,
                    now,
                )[k]).0 != ps[0].0 by {
                    let m = choose|m: int|
                        0 <= m < rest.len() && rest[m] == still_pending(rest, now)[k];
                    assert(rest[m] == ps[m + 1]);
                    assert(ps[m + 1].0 != ps[0].0);
                };
            };
            assert(forall|i: int, j: int|
                0 <= i < j < out.len() ==> out[i].0 != out[j].0) by {
                assert(forall|k: int|
                    1 <= k < out.len() ==> out[k] == still_pending(rest, now)[k - 1]);
            };
        }
    }
}

/// Every surviving timer was already pending.
proof fn lemma_still_pending_sub(ps: Seq<(Seq<char>, u64)>, now: u64)
    ensures
        forall|k: int|
            0 <= k < still_pending(ps, now).len() ==> exists|m: int|
                0 <= m < ps.len() && ps[m] == #[trigger] still_pending(ps, now)[k],
    decreases ps.len(),
{
    if ps.len() > 0 {
        let rest = ps.drop_first();
        lemma_still_pending_sub(rest, now);
        assert(forall|m: int| 0 <= m < rest.len() ==> rest[m] == ps[m + 1]);
        let out = still_pending(ps, now);
        assert forall|k: int| 0 <= k < out.len() implies exists|m: int|
            0 <= m < ps.len() && ps[m] == #[trigger] out[k] by {
            if ps[0].1 <= now {
                assert(out[k] == still_pending(rest, now)[k]);
                let m0 = choose|m: int|
                    0 <= m < rest.len() && rest[m] == still_pending(rest, now)[k];
                assert(ps[m0 + 1] == out[k]);
            } else {
                if k == 0 {
                    assert(ps[0] == out[0]);
                } else {
                    assert(out[k] == still_pending(rest, now)[k - 1]);
                    let m0 = choose|m: int|
                        0 <= m < rest.len() && rest[m] == still_pending(rest, now)[k - 1];
                    assert(ps[m0 + 1] == out[k]);
                }
            }
        };
    }
}

/// A run of events for one path leaves it exactly one timer, at the deadline
/// of the last event: a burst within the debounce window coalesces into a
/// single elapse, and so into a single re-parse.
pub proof fn lemma_debounce_coalesces(
    ps: Seq<(Seq<char>, u64)>,
    path: Seq<char>,
    deadlines: Seq<u64>,
)
    requires
        debouncer_wf(ps),
        deadlines.len() >= 1,
    ensures
        debouncer_wf(fold_records(ps, path, deadlines)),
        count_path(fold_records(ps, path, deadlines), path) == 1,
        exists|m: int|
            0 <= m < fold_records(ps, path, deadlines).len() && fold_records(ps, path, deadlines)[m]
                == (path, deadlines.last()),
    decreases deadlines.len(),
{
    if deadlines.len() == 1 {
        lemma_record_once(ps, path, deadlines[0]);
        assert(fold_records(ps, path, deadlines) == record_model(ps, path, deadlines[0]));
    } else {
        lemma_record_once(ps, path, deadlines[0]);
        lemma_debounce_coalesces(record_model(ps, path, deadlines[0]), path, deadlines.drop_first());
        assert(deadlines.drop_first().last() == deadlines.last());
    }
}

/// The timers after recording a run of deadlines for one path.
pub open spec fn fold_records(ps: Seq<(Seq<char>, u64)>, path: Seq<char>, deadlines: Seq<u64>) -> Seq<
    (Seq<char>, u64),
>
    decreases deadlines.len(),
{
    if deadlines.len() == 0 {
        ps
    } else {
        fold_records(record_model(ps, path, deadlines[0]), path, deadlines.drop_first())
    }
}

/// One recording gives the path exactly one timer, at the recorded deadline,
/// and keeps every path unique.
proof fn lemma_record_once(ps: Seq<(Seq<char>, u64)>, path: Seq<char>, deadline: u64)
    requires
        debouncer_wf(ps),
    ensures
        debouncer_wf(record_model(ps, path, deadline)),
        count_path(record_model(ps, path, deadline), path) == 1,
        exists|m: int|
            0 <= m < record_model(ps, path, deadline).len() && record_model(ps, path, deadline)[m]
                == (path, deadline),
{
    let keyed = ps.map_values(|p: (Seq<char>, u64)| (p.0, Seq::<char>::empty()));
    crate::props::lemma_props_index_of_bounds(keyed, path);
    let i = crate::props::props_index_of(keyed, path);
    let out = record_model(ps, path, deadline);
    if i < ps.len() {
        assert(out[i] == (path, deadline));
        assert(forall|j: int| 0 <= j < out.len() && j != i ==> out[j] == ps[j]);
        assert(forall|j: int| 0 <= j < out.len() && j != i ==> out[j].0 != path) by {
            assert(ps[i].0 == path);
            assert(forall|j: int| 0 <= j < ps.len() ==> keyed[j].0 == ps[j].0);
        };
        lemma_count_single(out, path, i);
    } else {
        assert(out[ps.len() as int] == (path, deadline));
        assert(forall|j: int| 0 <= j < ps.len() ==> out[j] == ps[j]);
        assert(forall|j: int| 0 <= j < ps.len() ==> out[j].0 != path) by {
            assert(forall|j: int| 0 <= j < ps.len() ==> keyed[j].0 == ps[j].0);
        };
        lemma_count_single(out, path, ps.len() as int);
    }
}

/// When exactly one position holds the path, its count is one.
proof fn lemma_count_single(ps: Seq<(Seq<char>, u64)>, path: Seq<char>, i: int)
    requires
        0 <= i < ps.len(),
        ps[i].0 == path,
        forall|j: int| 0 <= j < ps.len() && j != i ==> ps[j].0 != path,
    ensures
        count_path(ps, path) == 1,
    decreases ps.len(),
{
    if i == 0 {
        lemma_count_none(ps.drop_first(), path);
        assert(forall|j: int| 0 <= j < ps.drop_first().len() ==> ps.drop_first()[j] == ps[j + 1]);
        lemma_count_none(ps.drop_first(), path);
    } else {
        assert(forall|j: int| 0 <= j < ps.drop_first().len() ==> ps.drop_first()[j] == ps[j + 1]);
        lemma_count_single(ps.drop_first(), path, i - 1);
    }
}

/// When no position holds the path, its count is zero.
proof fn lemma_count_none(ps: Seq<(Seq<char>, u64)>, path: Seq<char>)
    requires
        forall|j: int| 0 <= j < ps.len() ==> ps[j].0 != path,
    ensures
        count_path(ps, path) == 0,
    decreases ps.len(),
{
    if ps.len() > 0 {
        lemma_count_none(ps.drop_first(), path);
    }
}

} // verus!
