//! Filesystem change notifications: which ones matter, and how they are batched.
use vstd::prelude::*;

verus! {

/// Quiet period after which accumulated change paths are handed on (milliseconds).
pub const DEBOUNCE_MS: u64 = 500;

/// The kind of a change notification, as the watcher reports it.
#[derive(Clone, Copy, Debug, PartialEq, Eq, Structural)]
pub enum ChangeNotice {
    Any,
    Access,
    Create,
    Modify,
    Remove,
    Other,
}

/// Whether a notification kind can mean that content changed.
pub open spec fn notice_matters(kind: ChangeNotice) -> bool {
    !(kind is Any || kind is Access || kind is Other)
}

/// Changed paths handed on for a rescan.
#[derive(Clone, Debug)]
pub struct WatcherEvent {
    pub paths: Vec<String>,
}

/// Paths as plain text.
pub open spec fn paths_view(v: Seq<String>) -> Seq<Seq<char>> {
    v.map_values(|p: String| p@)
}

fn append_paths(into: &mut Vec<String>, paths: Vec<String>)
    ensures
        paths_view(final(into)@) == paths_view(old(into)@) + paths_view(paths@),
{
    let ghost start = paths_view(into@);
    let mut i: usize = 0;
    while i < paths.len()
        invariant
            i <= paths@.len(),
            paths_view(into@) == start + paths_view(paths@).take(i as int),
        decreases paths.len() - i,
    {
        let ghost before = paths_view(into@);
        into.push(paths[i].clone());
        assert(paths_view(into@) =~= before.push(paths@[i as int]@));
        assert(paths_view(paths@).take(i + 1) =~= paths_view(paths@).take(i as int).push(paths@[i as int]@));
        i = i + 1;
    }
    assert(paths_view(paths@).take(i as int) =~= paths_view(paths@));
}

/// Forwards a notification at once (no batching): only kinds that matter,
/// and only when it names at least one path.
pub fn platform_watcher_event(kind: ChangeNotice, paths: Vec<String>) -> (r: Option<WatcherEvent>)
    ensures
        match r {
            Some(e) => notice_matters(kind) && paths@.len() > 0 && paths_view(e.paths@) == paths_view(paths@),
            None => !notice_matters(kind) || paths@.len() == 0,
        },
{
    match kind {
        ChangeNotice::Any | ChangeNotice::Access | ChangeNotice::Other => None,
        _ => if paths.len() == 0 {
            None
        } else {
            Some(WatcherEvent { paths })
        },
    }
}

/// Batches change notifications: paths that arrive within the quiet period
/// of the last handed-on batch are held, and handed on with the next
/// notification that comes after the quiet period.
pub struct WatcherDebounce {
    pending: Vec<String>,
    last_flush_ms: Option<u64>,
}

impl WatcherDebounce {
    /// Paths held back, in arrival order.
    pub closed spec fn held(&self) -> Seq<Seq<char>> {
        paths_view(self.pending@)
    }

    /// When the last batch was handed on (`None` before the first).
    pub closed spec fn last_flush(&self) -> Option<u64> {
        self.last_flush_ms
    }

    /// Nothing held; the first notification that matters is handed on at once.
    pub fn new() -> (r: Self)
        ensures
            r.held() == Seq::<Seq<char>>::empty(),
            r.last_flush() is None,
    {
        WatcherDebounce { pending: Vec::new(), last_flush_ms: None }
    }

    /// Takes one notification at `now_ms`. A kind that cannot mean a change is
    /// dropped. Otherwise, once the quiet period since the last batch has
    /// passed, the held paths and the new ones go out together; within it,
    /// the new paths are held.
    pub fn on_notice(&mut self, kind: ChangeNotice, paths: Vec<String>, now_ms: u64) -> (r: Option<WatcherEvent>)
        ensures
            !notice_matters(kind) ==> r is None && final(self).held() == old(self).held()
                && final(self).last_flush() == old(self).last_flush(),
            notice_matters(kind) && quiet_elapsed(old(self).last_flush(), now_ms) ==> {
                &&& r matches Some(e) && paths_view(e.paths@) == old(self).held() + paths_view(paths@)
                &&& final(self).held() == Seq::<Seq<char>>::empty()
                &&& final(self).last_flush() == Some(now_ms)
            },
            notice_matters(kind) && !quiet_elapsed(old(self).last_flush(), now_ms) ==> {
                &&& r is None
                &&& final(self).held() == old(self).held() + paths_view(paths@)
                &&& final(self).last_flush() == old(self).last_flush()
            },
    {
        match kind {
            ChangeNotice::Any | ChangeNotice::Access | ChangeNotice::Other => {
                return None;
            },
            _ => {},
        }
        let elapsed = match self.last_flush_ms {
            None => true,
            Some(last) => now_ms >= last && now_ms - last >= DEBOUNCE_MS,
        };
        if elapsed {
            let mut batch: Vec<String> = Vec::new();
            std::mem::swap(&mut batch, &mut self.pending);
            append_paths(&mut batch, paths);
            self.last_flush_ms = Some(now_ms);
            Some(WatcherEvent { paths: batch })
        } else {
            append_paths(&mut self.pending, paths);
            None
        }
    }
}

/// The quiet period has passed since the last batch (or there was none); a
/// time before the last batch counts as no time at all.
pub open spec fn quiet_elapsed(last: Option<u64>, now_ms: u64) -> bool {
    match last {
        None => true,
        Some(l) => now_ms >= l && now_ms - l >= DEBOUNCE_MS,
    }
}

} // verus!
