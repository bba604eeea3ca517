//! Per-task run admission, watcher debounce and file-list refresh bookkeeping.
//!
//! Times are milliseconds supplied by the caller; the methods that take no
//! time read the system clock. A clock that steps back counts as no time passed.
use vstd::prelude::*;
use crate::id_map::IdMap;
use crate::text::{str_eq, chars_of, split_chars, split_spec, pieces, chars_eq, string_from_chars};
use crate::transient::{protocol_ignored_name, path_has_ignored_component, is_protocol_ignored_component_name};

verus! {

/// Whether a requested sync run starts now or was queued behind a running one.
#[derive(Debug, Clone, Copy, PartialEq, Eq, Structural)]
pub enum SyncRunAdmission {
    Started,
    Queued,
}

/// State of one task's sync runs.
#[derive(Debug, Clone, Copy, PartialEq, Eq, Structural)]
pub struct SyncRunState {
    pub running: bool,
    pub rerun_requested: bool,
}

/// Serialises sync runs per task: a run requested while one is running is
/// queued and replayed when the running one finishes.
pub struct SyncRunCoordinator {
    runs: IdMap<SyncRunState>,
}

/// The state after `begin`, and its admission.
pub open spec fn begin_spec(m: Map<u128, SyncRunState>, id: u128) -> (Map<u128, SyncRunState>, SyncRunAdmission) {
    if m.dom().contains(id) && m[id].running {
        (m.insert(id, SyncRunState { running: true, rerun_requested: true }), SyncRunAdmission::Queued)
    } else {
        let prev = if m.dom().contains(id) {
            m[id].rerun_requested
        } else {
            false
        };
        (m.insert(id, SyncRunState { running: true, rerun_requested: prev }), SyncRunAdmission::Started)
    }
}

/// The state after `finish`, and whether another run must follow.
pub open spec fn finish_spec(m: Map<u128, SyncRunState>, id: u128) -> (Map<u128, SyncRunState>, bool) {
    if !m.dom().contains(id) {
        (m, false)
    } else if m[id].rerun_requested {
        (m.insert(id, SyncRunState { running: m[id].running, rerun_requested: false }), true)
    } else {
        (m.remove(id), false)
    }
}

/// Every task that has run state has a run in progress.
pub open spec fn runs_all_running(m: Map<u128, SyncRunState>) -> bool {
    forall|k: u128| #[trigger] m.dom().contains(k) ==> m[k].running
}

impl SyncRunCoordinator {
    pub closed spec fn view(&self) -> Map<u128, SyncRunState> {
        self.runs@
    }

    pub closed spec fn wf(&self) -> bool {
        self.runs.wf() && runs_all_running(self.runs@)
    }

    /// A coordinator with no runs.
    pub fn new() -> (r: Self)
        ensures
            r.wf(),
            r@ == Map::<u128, SyncRunState>::empty(),
    {
        SyncRunCoordinator { runs: IdMap::new() }
    }

    /// Requests a run for `task_id`.
    pub fn begin(&mut self, task_id: u128) -> (r: SyncRunAdmission)
        requires
            old(self).wf(),
        ensures
            final(self).wf(),
            (final(self)@, r) == begin_spec(old(self)@, task_id),
    {
        let (running, rerun) = match self.runs.get(task_id) {
            Some(s) => (s.running, s.rerun_requested),
            None => (false, false),
        };
        if running {
            self.runs.insert(task_id, SyncRunState { running: true, rerun_requested: true });
            SyncRunAdmission::Queued
        } else {
            self.runs.insert(task_id, SyncRunState { running: true, rerun_requested: rerun });
            SyncRunAdmission::Started
        }
    }

    /// Reports that the run for `task_id` finished; true when a queued run must follow.
    pub fn finish(&mut self, task_id: u128) -> (r: bool)
        requires
            old(self).wf(),
        ensures
            final(self).wf(),
            (final(self)@, r) == finish_spec(old(self)@, task_id),
    {
        let state = match self.runs.get(task_id) {
            Some(s) => *s,
            None => {
                return false;
            },
        };
        if state.rerun_requested {
            self.runs.insert(task_id, SyncRunState { running: state.running, rerun_requested: false });
            true
        } else {
            self.runs.remove(task_id);
            false
        }
    }

    /// Drops any run state for `task_id` (the run failed).
    pub fn abort(&mut self, task_id: u128)
        requires
            old(self).wf(),
        ensures
            final(self).wf(),
            final(self)@ == old(self)@.remove(task_id),
    {
        self.runs.remove(task_id);
    }
}

/// Law: a coordinator only keeps state for tasks whose run is in progress.
pub proof fn law_stored_runs_are_running(c: &SyncRunCoordinator)
    requires
        c.wf(),
    ensures
        runs_all_running(c@),
{
}

/// Law: `begin` and `finish` keep every stored task running; after `finish`
/// answers true the task is still running and the next `begin` is queued,
/// and after it answers false the task has no state and the next `begin`
/// starts a run.
pub proof fn law_finish_then_begin(m: Map<u128, SyncRunState>, id: u128)
    requires
        runs_all_running(m),
    ensures
        runs_all_running(begin_spec(m, id).0),
        runs_all_running(finish_spec(m, id).0),
        finish_spec(m, id).1 ==> finish_spec(m, id).0[id].running
            && begin_spec(finish_spec(m, id).0, id).1 == SyncRunAdmission::Queued,
        !finish_spec(m, id).1 ==> !finish_spec(m, id).0.dom().contains(id)
            && begin_spec(finish_spec(m, id).0, id).1 == SyncRunAdmission::Started,
{
}

/// A request made of the coordinator for one task.
pub enum RunCall {
    Begin,
    Finish,
}

/// The coordinator's runs after `calls` for task `id`, starting from `m`.
pub open spec fn run_calls(m: Map<u128, SyncRunState>, id: u128, calls: Seq<RunCall>) -> Map<u128, SyncRunState>
    decreases calls.len(),
{
    if calls.len() == 0 {
        m
    } else {
        let prev = run_calls(m, id, calls.drop_last());
        match calls.last() {
            RunCall::Begin => begin_spec(prev, id).0,
            RunCall::Finish => finish_spec(prev, id).0,
        }
    }
}

/// Whether, after `calls`, a `begin` of task `id` was answered `Queued`
/// since the task last started a run or last finished one: at the start,
/// whether a rerun is already recorded; a queued `begin` sets it, a started
/// `begin` and any `finish` clear it.
pub open spec fn queued_since_reset(m: Map<u128, SyncRunState>, id: u128, calls: Seq<RunCall>) -> bool
    decreases calls.len(),
{
    if calls.len() == 0 {
        m.dom().contains(id) && m[id].rerun_requested
    } else {
        match calls.last() {
            RunCall::Begin => begin_spec(run_calls(m, id, calls.drop_last()), id).1 == SyncRunAdmission::Queued,
            RunCall::Finish => false,
        }
    }
}

proof fn lemma_run_calls_track_queued(m: Map<u128, SyncRunState>, id: u128, calls: Seq<RunCall>)
    requires
        runs_all_running(m),
    ensures
        runs_all_running(run_calls(m, id, calls)),
        queued_since_reset(m, id, calls) == (run_calls(m, id, calls).dom().contains(id)
            && run_calls(m, id, calls)[id].rerun_requested),
    decreases calls.len(),
{
    if calls.len() > 0 {
        lemma_run_calls_track_queued(m, id, calls.drop_last());
        law_finish_then_begin(run_calls(m, id, calls.drop_last()), id);
    }
}

/// Law: over any sequence of requests for a task, starting from a
/// coordinator whose stored tasks are all running, `finish` answers true
/// exactly when some `begin` was queued since the task last started a run or
/// last finished one; an unknown task answers false.
pub proof fn law_finish_reports_queued_requests(m: Map<u128, SyncRunState>, id: u128, calls: Seq<RunCall>)
    requires
        runs_all_running(m),
    ensures
        finish_spec(run_calls(m, id, calls), id).1 == queued_since_reset(m, id, calls),
        !run_calls(m, id, calls).dom().contains(id) ==> !finish_spec(run_calls(m, id, calls), id).1,
{
    lemma_run_calls_track_queued(m, id, calls);
}

/// Law: a run requested while another runs for the same task is queued, and
/// finishing the running one asks for exactly one more run.
pub proof fn law_second_begin_is_queued(m: Map<u128, SyncRunState>, id: u128)
    ensures
        ({
            let (m1, a1) = begin_spec(m, id);
            let (m2, a2) = begin_spec(m1, id);
            let (m3, again) = finish_spec(m2, id);
            let (m4, again2) = finish_spec(m3, id);
            &&& a2 == SyncRunAdmission::Queued
            &&& again
            &&& !again2
            &&& !m4.dom().contains(id)
        }),
{
}

/// Law: a run that finishes with nothing queued releases the task, so the
/// next request starts immediately.
pub proof fn law_finish_releases(m: Map<u128, SyncRunState>, id: u128)
    requires
        !m.dom().contains(id),
    ensures
        ({
            let (m1, a1) = begin_spec(m, id);
            let (m2, again) = finish_spec(m1, id);
            &&& a1 == SyncRunAdmission::Started
            &&& !again
            &&& begin_spec(m2, id).1 == SyncRunAdmission::Started
            &&& m2 == m
        }),
{
    let (m1, a1) = begin_spec(m, id);
    assert(m1.remove(id) =~= m);
}

/// Law: aborting a task releases it, including any queued run.
pub proof fn law_abort_releases(m: Map<u128, SyncRunState>, id: u128)
    ensures
        begin_spec(m.remove(id), id).1 == SyncRunAdmission::Started,
{
}

/// Law: runs of different tasks never affect each other.
pub proof fn law_tasks_independent(m: Map<u128, SyncRunState>, id: u128, other: u128)
    requires
        id != other,
    ensures
        begin_spec(m, id).0.dom().contains(other) == m.dom().contains(other),
        m.dom().contains(other) ==> begin_spec(m, id).0[other] == m[other],
        finish_spec(m, id).0.dom().contains(other) == m.dom().contains(other),
        m.dom().contains(other) ==> finish_spec(m, id).0[other] == m[other],
{
}

/// Quiet period after the last watcher event before a dirty task is synced.
pub const WATCHER_DEBOUNCE_MS: u64 = 2500;

/// Milliseconds from `since` to `now`; zero when `now` is earlier.
pub open spec fn elapsed_ms(now: u64, since: u64) -> int {
    if now >= since {
        now - since
    } else {
        0
    }
}

/// Watcher-reported changes of one task.
pub struct TaskDirtyState {
    pub dirty_paths: Vec<String>,
    pub last_event_at_ms: u64,
    pub sync_scheduled: bool,
}

/// Collects watcher events per task and reports tasks whose events have
/// been quiet for the debounce period.
pub struct TaskDirtyTracker {
    tasks: IdMap<TaskDirtyState>,
    debounce_ms: u64,
}

/// The set of paths a list of strings holds.
pub open spec fn path_set(v: Seq<String>) -> Set<Seq<char>> {
    Set::new(|p: Seq<char>| exists|i: int| 0 <= i < v.len() && #[trigger] v[i]@ == p)
}

/// Whether a task is due for a sync at `now`.
pub open spec fn dirty_ready(s: TaskDirtyState, now: u64, debounce: u64) -> bool {
    s.sync_scheduled && elapsed_ms(now, s.last_event_at_ms) >= debounce
}

impl TaskDirtyTracker {
    pub closed spec fn view(&self) -> Map<u128, TaskDirtyState> {
        self.tasks@
    }

    pub closed spec fn debounce(&self) -> u64 {
        self.debounce_ms
    }

    /// Task ids in the order they were first marked.
    pub closed spec fn order(&self) -> Seq<u128> {
        self.tasks.key_seq()
    }

    pub closed spec fn wf(&self) -> bool {
        self.tasks.wf()
    }

    /// The tasks due at `now`, in the order they were first marked.
    pub open spec fn ready_ids_at(&self, now: u64) -> Seq<u128> {
        self.order().filter(|k: u128| dirty_ready(self@[k], now, self.debounce()))
    }

    /// An empty tracker with the standard debounce.
    pub fn new() -> (r: Self)
        ensures
            r.wf(),
            r@ == Map::<u128, TaskDirtyState>::empty(),
            r.debounce() == WATCHER_DEBOUNCE_MS,
    {
        TaskDirtyTracker { tasks: IdMap::new(), debounce_ms: WATCHER_DEBOUNCE_MS }
    }

    /// Marks the task dirty with no particular path.
    pub fn mark_task_dirty(&mut self, task_id: u128, now_ms: u64)
        requires
            old(self).wf(),
        ensures
            final(self).wf(),
            final(self).debounce() == old(self).debounce(),
            final(self)@.dom() == old(self)@.dom().insert(task_id),
            forall|k: u128| k != task_id && #[trigger] old(self)@.dom().contains(k) ==> final(self)@[k] == old(self)@[k],
            final(self)@[task_id].last_event_at_ms == now_ms,
            final(self)@[task_id].sync_scheduled,
            path_set(final(self)@[task_id].dirty_paths@) == (if old(self)@.dom().contains(task_id) {
                path_set(old(self)@[task_id].dirty_paths@)
            } else {
                Set::empty()
            }),
    {
        self.mark_dirty_paths_at(task_id, Vec::new(), now_ms);
    }

    /// Records a watcher event for `paths` at `now_ms` and schedules a sync.
    pub fn mark_dirty_paths_at(&mut self, task_id: u128, paths: Vec<String>, now_ms: u64)
        requires
            old(self).wf(),
        ensures
            final(self).wf(),
            final(self).debounce() == old(self).debounce(),
            final(self)@.dom() == old(self)@.dom().insert(task_id),
            forall|k: u128| k != task_id && #[trigger] old(self)@.dom().contains(k) ==> final(self)@[k] == old(self)@[k],
            final(self)@[task_id].last_event_at_ms == now_ms,
            final(self)@[task_id].sync_scheduled,
            path_set(final(self)@[task_id].dirty_paths@) == (if old(self)@.dom().contains(task_id) {
                path_set(old(self)@[task_id].dirty_paths@)
            } else {
                Set::empty()
            }).union(path_set(paths@)),
    {
        let mut merged: Vec<String> = Vec::new();
        match self.tasks.get(task_id) {
            Some(s) => {
                let mut i: usize = 0;
                while i < s.dirty_paths.len()
                    invariant
                        i <= s.dirty_paths@.len(),
                        merged@.len() == i,
                        forall|j: int| 0 <= j < i ==> #[trigger] merged@[j]@ == s.dirty_paths@[j]@,
                    decreases s.dirty_paths.len() - i,
                {
                    merged.push(crate::text::to_owned_string(s.dirty_paths[i].as_str()));
                    i = i + 1;
                }
                proof {
                    assert(path_set(merged@) =~= path_set(s.dirty_paths@)) by {
                        assert forall|p: Seq<char>| path_set(merged@).contains(p) implies path_set(s.dirty_paths@).contains(p) by {
                            let j = choose|j: int| 0 <= j < merged@.len() && #[trigger] merged@[j]@ == p;
                            assert(s.dirty_paths@[j]@ == p);
                        }
                        assert forall|p: Seq<char>| path_set(s.dirty_paths@).contains(p) implies path_set(merged@).contains(p) by {
                            let j = choose|j: int| 0 <= j < s.dirty_paths@.len() && #[trigger] s.dirty_paths@[j]@ == p;
                            assert(merged@[j]@ == p);
                        }
                    }
                }
            },
            None => {
                assert(path_set(merged@) =~= Set::<Seq<char>>::empty());
            },
        }
        let ghost base = path_set(merged@);
        let mut i: usize = 0;
        while i < paths.len()
            invariant
                i <= paths@.len(),
                path_set(merged@) == base.union(path_set(paths@.take(i as int))),
            decreases paths.len() - i,
        {
            let ghost before = merged@;
            if !contains_path(&merged, paths[i].as_str()) {
                merged.push(crate::text::to_owned_string(paths[i].as_str()));
            }
            proof {
                assert(paths@.take(i + 1) =~= paths@.take(i as int).push(paths@[i as int]));
                assert(path_set(merged@) =~= path_set(before).insert(paths@[i as int]@)) by {
                    assert forall|p: Seq<char>| path_set(merged@).contains(p) implies path_set(before).insert(paths@[i as int]@).contains(p) by {
                        let j = choose|j: int| 0 <= j < merged@.len() && #[trigger] merged@[j]@ == p;
                        if j < before.len() {
                            assert(before[j]@ == p);
                        }
                    }
                    assert forall|p: Seq<char>| path_set(before).insert(paths@[i as int]@).contains(p) implies path_set(merged@).contains(p) by {
                        if p == paths@[i as int]@ {
                            if merged@.len() > before.len() {
                                assert(merged@[before.len() as int]@ == p);
                            }
                        } else {
                            let j = choose|j: int| 0 <= j < before.len() && #[trigger] before[j]@ == p;
                            assert(merged@[j]@ == p);
                        }
                    }
                }
                let t = paths@.take(i + 1);
                assert(path_set(t) =~= path_set(paths@.take(i as int)).insert(paths@[i as int]@)) by {
                    assert forall|p: Seq<char>| path_set(t).contains(p) implies path_set(paths@.take(i as int)).insert(paths@[i as int]@).contains(p) by {
                        let j = choose|j: int| 0 <= j < t.len() && #[trigger] t[j]@ == p;
                        if j < i {
                            assert(paths@.take(i as int)[j]@ == p);
                        }
                    }
                    assert forall|p: Seq<char>| path_set(paths@.take(i as int)).insert(paths@[i as int]@).contains(p) implies path_set(t).contains(p) by {
                        if p == paths@[i as int]@ {
                            assert(t[i as int]@ == p);
                        } else {
                            let j = choose|j: int| 0 <= j < i && #[trigger] paths@.take(i as int)[j]@ == p;
                            assert(t[j]@ == p);
                        }
                    }
                }
            }
            i = i + 1;
        }
        assert(paths@.take(paths@.len() as int) =~= paths@);
        self.tasks.insert(task_id, TaskDirtyState { dirty_paths: merged, last_event_at_ms: now_ms, sync_scheduled: true });
    }

    /// Tasks whose last event is at least the debounce period before `now_ms`.
    pub fn ready_task_ids_at(&self, now_ms: u64) -> (r: Vec<u128>)
        requires
            self.wf(),
        ensures
            r@ == self.order().filter(|k: u128| dirty_ready(self@[k], now_ms, self.debounce())),
            forall|k: u128| r@.contains(k) <==> (self@.dom().contains(k) && dirty_ready(self@[k], now_ms, self.debounce())),
    {
        proof {
            self.tasks.lemma_keys();
        }
        let ghost pred = |k: u128| dirty_ready(self@[k], now_ms, self.debounce());
        let mut r: Vec<u128> = Vec::new();
        let mut i: usize = 0;
        let n = self.tasks.len();
        while i < n
            invariant
                self.wf(),
                n == self.order().len(),
                i <= n,
                pred == (|k: u128| dirty_ready(self@[k], now_ms, self.debounce())),
                r@ == self.order().take(i as int).filter(pred),
            decreases n - i,
        {
            let (id, s) = self.tasks.entry_at(i);
            let elapsed: u64 = if now_ms >= s.last_event_at_ms {
                now_ms - s.last_event_at_ms
            } else {
                0
            };
            proof {
                let ks = self.order();
                assert(ks.take(i + 1) =~= ks.take(i as int).push(ks[i as int]));
                ks.take(i as int).lemma_filter_push(ks[i as int], pred);
            }
            if s.sync_scheduled && elapsed >= self.debounce_ms {
                r.push(id);
            }
            i = i + 1;
        }
        proof {
            let ks = self.order();
            assert(ks.take(n as int) =~= ks);
            assert forall|k: u128| r@.contains(k) <==> (self@.dom().contains(k) && pred(k)) by {
                if ks.filter(pred).contains(k) { ks.lemma_filter_contains_rev(pred, k); }
                if self@.dom().contains(k) && pred(k) {
                    assert(ks.to_set().contains(k));
                    let j = choose|j: int| 0 <= j < ks.len() && ks[j] == k;
                    ks.lemma_filter_contains(pred, j);
                }
                if r@.contains(k) {
                    let j = choose|j: int| 0 <= j < r@.len() && r@[j] == k;
                    if ks.filter(pred).contains(k) { ks.lemma_filter_contains_rev(pred, k); }
                    assert(ks.contains(k));
                    assert(ks.to_set().contains(k));
                }
            }
        }
        r
    }

    /// Records a watcher event for `paths` now, by the system clock, and
    /// schedules a sync.
    pub fn mark_dirty_paths(&mut self, task_id: u128, paths: Vec<String>)
        requires
            old(self).wf(),
        ensures
            final(self).wf(),
            final(self).debounce() == old(self).debounce(),
            final(self)@.dom() == old(self)@.dom().insert(task_id),
            forall|k: u128| k != task_id && #[trigger] old(self)@.dom().contains(k) ==> final(self)@[k] == old(self)@[k],
            final(self)@[task_id].sync_scheduled,
            path_set(final(self)@[task_id].dirty_paths@) == (if old(self)@.dom().contains(task_id) {
                path_set(old(self)@[task_id].dirty_paths@)
            } else {
                Set::empty()
            }).union(path_set(paths@)),
    {
        let now = clock_now_ms();
        self.mark_dirty_paths_at(task_id, paths, now);
    }

    /// Tasks whose last event is at least the debounce period ago by the
    /// system clock: those `ready_task_ids_at` gives for some reading of it.
    pub fn ready_task_ids(&self) -> (r: Vec<u128>)
        requires
            self.wf(),
        ensures
            exists|now: u64| r@ == #[trigger] self.ready_ids_at(now),
    {
        let now = clock_now_ms();
        let r = self.ready_task_ids_at(now);
        assert(r@ == self.ready_ids_at(now));
        r
    }

    /// Forgets everything recorded for `task_id`.
    pub fn clear(&mut self, task_id: u128)
        requires
            old(self).wf(),
        ensures
            final(self).wf(),
            final(self).debounce() == old(self).debounce(),
            final(self)@ == old(self)@.remove(task_id),
    {
        self.tasks.remove(task_id);
    }
}

/// Law: a task last marked dirty at `t` is due exactly once the tracker's
/// debounce period has passed since `t` (a time before `t` counts as no time
/// at all); each new mark restarts the wait.
pub proof fn law_dirty_task_waits_for_quiet(tracker: TaskDirtyTracker, task_id: u128, t: u64, now: u64)
    requires
        tracker@.dom().contains(task_id),
        tracker@[task_id].last_event_at_ms == t,
        tracker@[task_id].sync_scheduled,
    ensures
        dirty_ready(tracker@[task_id], now, tracker.debounce()) <==> (if now >= t { now - t } else { 0 }) >= tracker.debounce(),
{
}

/// Reads the system clock with `SystemTime::elapsed` on the Unix epoch, as
/// milliseconds (0 for a clock set before it). Nothing is stated of the
/// value: it is the time.
#[verifier::external_body]
pub(crate) fn clock_now_ms() -> (r: u64) {
    match std::time::UNIX_EPOCH.elapsed() {
        Ok(d) => d.as_millis() as u64,
        Err(_) => 0,
    }
}

/// Whether `v` holds `p`.
pub(crate) fn contains_path(v: &Vec<String>, p: &str) -> (r: bool)
    ensures
        r <==> path_set(v@).contains(p@),
{
    let mut i: usize = 0;
    while i < v.len()
        invariant
            i <= v@.len(),
            forall|j: int| 0 <= j < i ==> v@[j]@ != p@,
        decreases v.len() - i,
    {
        if str_eq(v[i].as_str(), p) {
            assert(v@[i as int]@ == p@);
            return true;
        }
        i = i + 1;
    }
    false
}

/// Reason reported for a task whose file list never changed.
pub const NO_REFRESH_REASON: &'static str = "none";

/// What the file-list view needs to know about a task's changes.
pub struct FileListRefreshSnapshot {
    pub revision: u64,
    pub last_changed_at_ms: Option<u64>,
    pub reason: &'static str,
}

/// Change bookkeeping of one task's file list.
pub struct FileListRefreshState {
    pub revision: u64,
    pub last_changed_at_ms: Option<u64>,
    pub reason: &'static str,
    pub last_metadata_check_at_ms: Option<u64>,
}

/// Counts file-list changes per task for the interface, apart from the
/// dirty tracker that drives syncing.
pub struct FileListRefreshTracker {
    tasks: IdMap<FileListRefreshState>,
}

/// The state of a task that was never marked.
pub open spec fn fresh_refresh_state() -> FileListRefreshState {
    FileListRefreshState {
        revision: 0,
        last_changed_at_ms: None,
        reason: NO_REFRESH_REASON,
        last_metadata_check_at_ms: None,
    }
}

/// The state of `id`, or the fresh state when it has none.
pub open spec fn refresh_state_of(m: Map<u128, FileListRefreshState>, id: u128) -> FileListRefreshState {
    if m.dom().contains(id) {
        m[id]
    } else {
        fresh_refresh_state()
    }
}

/// Whether a metadata check is due at `now` for a state last checked at `last`.
pub open spec fn metadata_check_due(last: Option<u64>, interval_ms: u64, now_ms: u64) -> bool {
    match last {
        Some(t) => elapsed_ms(now_ms, t) >= interval_ms,
        None => true,
    }
}

impl FileListRefreshTracker {
    pub closed spec fn view(&self) -> Map<u128, FileListRefreshState> {
        self.tasks@
    }

    pub closed spec fn wf(&self) -> bool {
        self.tasks.wf()
    }

    /// A tracker with no task marked.
    pub fn new() -> (r: Self)
        ensures
            r.wf(),
            r@ == Map::<u128, FileListRefreshState>::empty(),
    {
        FileListRefreshTracker { tasks: IdMap::new() }
    }

    fn state_of(&self, task_id: u128) -> (r: FileListRefreshState)
        requires
            self.wf(),
        ensures
            r == refresh_state_of(self@, task_id),
    {
        match self.tasks.get(task_id) {
            Some(s) => FileListRefreshState {
                revision: s.revision,
                last_changed_at_ms: s.last_changed_at_ms,
                reason: s.reason,
                last_metadata_check_at_ms: s.last_metadata_check_at_ms,
            },
            None => FileListRefreshState {
                revision: 0,
                last_changed_at_ms: None,
                reason: NO_REFRESH_REASON,
                last_metadata_check_at_ms: None,
            },
        }
    }

    /// Records a change of the task's file list at `now_ms` for `reason`.
    pub fn mark(&mut self, task_id: u128, reason: &'static str, now_ms: u64)
        requires
            old(self).wf(),
        ensures
            final(self).wf(),
            final(self)@ == old(self)@.insert(task_id, FileListRefreshState {
                revision: if refresh_state_of(old(self)@, task_id).revision == u64::MAX {
                    u64::MAX
                } else {
                    (refresh_state_of(old(self)@, task_id).revision + 1) as u64
                },
                last_changed_at_ms: Some(now_ms),
                reason: reason,
                last_metadata_check_at_ms: refresh_state_of(old(self)@, task_id).last_metadata_check_at_ms,
            }),
    {
        let s = self.state_of(task_id);
        let next = FileListRefreshState {
            revision: s.revision.saturating_add(1),
            last_changed_at_ms: Some(now_ms),
            reason: reason,
            last_metadata_check_at_ms: s.last_metadata_check_at_ms,
        };
        self.tasks.insert(task_id, next);
    }

    /// The task's change counter, time of last change and its reason.
    pub fn snapshot(&self, task_id: u128) -> (r: FileListRefreshSnapshot)
        requires
            self.wf(),
        ensures
            r.revision == refresh_state_of(self@, task_id).revision,
            r.last_changed_at_ms == refresh_state_of(self@, task_id).last_changed_at_ms,
            r.reason == refresh_state_of(self@, task_id).reason,
    {
        let s = self.state_of(task_id);
        FileListRefreshSnapshot { revision: s.revision, last_changed_at_ms: s.last_changed_at_ms, reason: s.reason }
    }

    /// Whether a metadata check is due at `now_ms`, at most one per
    /// `interval_ms`; a due check is recorded as done at `now_ms`.
    pub fn should_check_metadata(&mut self, task_id: u128, interval_ms: u64, now_ms: u64) -> (r: bool)
        requires
            old(self).wf(),
        ensures
            final(self).wf(),
            r == metadata_check_due(refresh_state_of(old(self)@, task_id).last_metadata_check_at_ms, interval_ms, now_ms),
            r ==> final(self)@ == old(self)@.insert(task_id, FileListRefreshState {
                last_metadata_check_at_ms: Some(now_ms),
                ..refresh_state_of(old(self)@, task_id)
            }),
            !r ==> final(self)@ == old(self)@,
    {
        let s = self.state_of(task_id);
        let due = match s.last_metadata_check_at_ms {
            Some(last) => {
                let elapsed: u64 = if now_ms >= last {
                    now_ms - last
                } else {
                    0
                };
                elapsed >= interval_ms
            },
            None => true,
        };
        if !due {
            return false;
        }
        let next = FileListRefreshState {
            revision: s.revision,
            last_changed_at_ms: s.last_changed_at_ms,
            reason: s.reason,
            last_metadata_check_at_ms: Some(now_ms),
        };
        self.tasks.insert(task_id, next);
        true
    }
}

/// The normal components of a `/`-separated path: no empty piece and no `.`.
pub open spec fn path_components(s: Seq<char>) -> Seq<Seq<char>> {
    split_spec(s, '/', '/').filter(|p: Seq<char>| p.len() > 0 && p != seq!['.'])
}

/// Whether the path starts at the root.
pub open spec fn is_absolute(s: Seq<char>) -> bool {
    s.len() > 0 && s[0] == '/'
}

/// Whether `base` is a leading part of `path`, component by component.
pub open spec fn has_base(path: Seq<char>, base: Seq<char>) -> bool {
    &&& is_absolute(path) == is_absolute(base)
    &&& path_components(base).len() <= path_components(path).len()
    &&& path_components(path).take(path_components(base).len() as int) == path_components(base)
}

/// Whether a watcher event path names something internal to the protocol:
/// judged below the task root when it lies under it, else as a whole.
/// Watcher paths come with `/` between components on every system.
pub open spec fn watcher_path_internal(root: Seq<char>, path: Seq<char>) -> bool {
    if has_base(path, root) {
        exists|i: int|
            path_components(root).len() <= i < path_components(path).len()
                && protocol_ignored_name(#[trigger] path_components(path)[i])
    } else {
        path_has_ignored_component(path, false)
    }
}

/// Normal components of `s`, as character vectors.
fn components_of(s: &str) -> (r: Vec<Vec<char>>)
    ensures
        pieces(r@) == path_components(s@),
{
    let chars = chars_of(s);
    let parts = split_chars(&chars, '/', '/');
    let ghost keep = |p: Seq<char>| p.len() > 0 && p != seq!['.'];
    let mut r: Vec<Vec<char>> = Vec::new();
    let mut i: usize = 0;
    while i < parts.len()
        invariant
            i <= parts@.len(),
            pieces(parts@) == split_spec(s@, '/', '/'),
            keep == (|p: Seq<char>| p.len() > 0 && p != seq!['.']),
            pieces(r@) == pieces(parts@).take(i as int).filter(keep),
        decreases parts.len() - i,
    {
        let part = &parts[i];
        proof {
            let ps = pieces(parts@);
            assert(ps.take(i + 1) =~= ps.take(i as int).push(ps[i as int]));
            ps.take(i as int).lemma_filter_push(ps[i as int], keep);
            assert(ps[i as int] == part@);
        }
        let is_dot = part.len() == 1 && part[0] == '.';
        if part.len() > 0 && !is_dot {
            let ghost before = pieces(r@);
            r.push(copy_chars(part));
            assert(pieces(r@) =~= before.push(part@));
            assert(part@ != seq!['.']);
        } else {
            assert(is_dot ==> part@ =~= seq!['.']);
        }
        i = i + 1;
    }
    assert(pieces(parts@).take(parts@.len() as int) =~= pieces(parts@));
    r
}

fn copy_chars(v: &Vec<char>) -> (r: Vec<char>)
    ensures
        r@ == v@,
{
    let mut r: Vec<char> = Vec::new();
    let mut i: usize = 0;
    while i < v.len()
        invariant
            i <= v@.len(),
            r@ == v@.take(i as int),
        decreases v.len() - i,
    {
        r.push(v[i]);
        assert(v@.take(i + 1) =~= v@.take(i as int).push(v@[i as int]));
        i = i + 1;
    }
    assert(v@.take(v@.len() as int) =~= v@);
    r
}

/// Whether the first components of `pc` are those of `rc`.
fn leading_components_match(pc: &Vec<Vec<char>>, rc: &Vec<Vec<char>>) -> (r: bool)
    requires
        rc.len() <= pc.len(),
    ensures
        r == (pieces(pc@).take(rc@.len() as int) == pieces(rc@)),
{
    let mut k: usize = 0;
    while k < rc.len()
        invariant
            rc.len() <= pc.len(),
            k <= rc.len(),
            forall|j: int| 0 <= j < k ==> pieces(pc@)[j] == pieces(rc@)[j],
        decreases rc.len() - k,
    {
        if !chars_eq(&pc[k], &rc[k]) {
            assert(pieces(pc@).take(rc@.len() as int)[k as int] != pieces(rc@)[k as int]);
            return false;
        }
        k = k + 1;
    }
    assert(pieces(pc@).take(rc@.len() as int) =~= pieces(rc@));
    true
}

/// Whether a watcher event at `path` concerns protocol-internal files of
/// the task rooted at `root`.
pub fn is_internal_watcher_path(root: &str, path: &str) -> (r: bool)
    ensures
        r == watcher_path_internal(root@, path@),
{
    let rc = components_of(root);
    let pc = components_of(path);
    let root_abs = root.unicode_len() > 0 && root.get_char(0) == '/';
    let path_abs = path.unicode_len() > 0 && path.get_char(0) == '/';
    let under = root_abs == path_abs && rc.len() <= pc.len() && leading_components_match(&pc, &rc);
    proof {
        assert(root_abs == is_absolute(root@));
        assert(path_abs == is_absolute(path@));
    }
    assert(under == has_base(path@, root@));
    if under {
        let mut i: usize = rc.len();
        while i < pc.len()
            invariant
                rc.len() <= i <= pc.len(),
                has_base(path@, root@),
                pieces(pc@) == path_components(path@),
                pieces(rc@) == path_components(root@),
                forall|j: int| rc.len() <= j < i ==> !protocol_ignored_name(#[trigger] path_components(path@)[j]),
            decreases pc.len() - i,
        {
            let name = string_from_chars(&pc[i]);
            assert(pieces(pc@)[i as int] == pc@[i as int]@);
            if is_protocol_ignored_component_name(name.as_str()) {
                assert(protocol_ignored_name(path_components(path@)[i as int]));
                return true;
            }
            i = i + 1;
        }
        false
    } else {
        crate::transient::path_has_protocol_ignored_component(path, false)
    }
}

/// The watcher event paths that are not protocol-internal, in order.
pub fn filter_external_watcher_paths(local_path: &str, paths: Vec<String>) -> (r: Vec<String>)
    ensures
        r@.map_values(|p: String| p@) == paths@.map_values(|p: String| p@).filter(
            |p: Seq<char>| !watcher_path_internal(local_path@, p),
        ),
{
    let ghost keep = |p: Seq<char>| !watcher_path_internal(local_path@, p);
    let ghost views = paths@.map_values(|p: String| p@);
    let mut r: Vec<String> = Vec::new();
    let mut i: usize = 0;
    while i < paths.len()
        invariant
            i <= paths@.len(),
            views == paths@.map_values(|p: String| p@),
            keep == (|p: Seq<char>| !watcher_path_internal(local_path@, p)),
            r@.map_values(|p: String| p@) == views.take(i as int).filter(keep),
        decreases paths.len() - i,
    {
        proof {
            assert(views.take(i + 1) =~= views.take(i as int).push(views[i as int]));
            views.take(i as int).lemma_filter_push(views[i as int], keep);
        }
        let ghost before = r@.map_values(|p: String| p@);
        if !is_internal_watcher_path(local_path, paths[i].as_str()) {
            r.push(crate::text::to_owned_string(paths[i].as_str()));
            assert(r@.map_values(|p: String| p@) =~= before.push(views[i as int]));
        } else {
            assert(r@.map_values(|p: String| p@) =~= before);
        }
        i = i + 1;
    }
    assert(views.take(paths@.len() as int) =~= views);
    r
}

/// Whether `path` lies at or below `base`, component by component (as
/// `Path::starts_with` compares).
pub fn path_starts_with(path: &str, base: &str) -> (r: bool)
    ensures
        r == has_base(path@, base@),
{
    let bc = components_of(base);
    let pc = components_of(path);
    let base_abs = base.unicode_len() > 0 && base.get_char(0) == '/';
    let path_abs = path.unicode_len() > 0 && path.get_char(0) == '/';
    proof {
        assert(base_abs == is_absolute(base@));
        assert(path_abs == is_absolute(path@));
    }
    base_abs == path_abs && bc.len() <= pc.len() && leading_components_match(&pc, &bc)
}

/// Law: a watcher path under the task root is protocol-internal as soon as
/// any of its components below the root, at any depth, is a protocol name
/// (history, staging, partial transfer); the filter then drops it from any
/// batch of events.
pub proof fn law_protocol_names_below_the_root_are_filtered(
    root: Seq<char>,
    path: Seq<char>,
    name: Seq<char>,
    paths: Seq<Seq<char>>,
)
    requires
        has_base(path, root),
        path_components(path).subrange(path_components(root).len() as int, path_components(path).len() as int).contains(name),
        protocol_ignored_name(name),
    ensures
        watcher_path_internal(root, path),
        !paths.filter(|p: Seq<char>| !watcher_path_internal(root, p)).contains(path),
{
    let below = path_components(path).subrange(path_components(root).len() as int, path_components(path).len() as int);
    let j = choose|j: int| 0 <= j < below.len() && below[j] == name;
    let i = path_components(root).len() + j;
    assert(path_components(path)[i] == name);
    assert(watcher_path_internal(root, path));
    let keep = |p: Seq<char>| !watcher_path_internal(root, p);
    if paths.filter(keep).contains(path) {
        paths.lemma_filter_contains_rev(keep, path);
    }
}

} // verus!
