//! Post-processing of planned actions before they run: recovered and repair
//! actions, directory-delete compression, priority order, progress sizes,
//! and the safety checks made against the peer's scan.
use vstd::prelude::*;
use crate::lookup::{
    entry_for, find_baseline, find_remote, find_snapshot, has_key, last_index_by, lemma_last_index_bounds,
    baseline_key, remote_key, snapshot_key,
};
use crate::model::{
    opt_str_eq, opt_string_copy, opt_view, EntryKind, FileSnapshot, HashStatus, RemoteFileState,
    SyncBaseline, SyncDecision,
};
use crate::planner::{live, PlannedAction};
use crate::text::{chars_of, chars_starts_with, has_prefix};

verus! {

/// Files at most this large are scheduled before larger ones.
pub const SMALL_FILE_LIMIT_BYTES: i64 = 8388608;

/// `path` lies strictly below `parent` (`parent/...`).
pub open spec fn descends(path: Seq<char>, parent: Seq<char>) -> bool {
    &&& parent.len() < path.len()
    &&& has_prefix(path, parent)
    &&& path[parent.len() as int] == '/'
}

/// Whether `path` lies below the directory `parent`.
pub fn is_descendant_path(path: &str, parent: &str) -> (r: bool)
    ensures
        r == descends(path@, parent@),
{
    let p = chars_of(path);
    let q = chars_of(parent);
    if q.len() >= p.len() {
        return false;
    }
    chars_starts_with(&p, &q) && p[q.len()] == '/'
}

/// A baseline recorded for a directory: no hashes, no sizes.
pub open spec fn looks_like_directory(b: SyncBaseline) -> bool {
    &&& b.primary_hash is None
    &&& b.secondary_hash is None
    &&& b.primary_hash_status == HashStatus::Unavailable
    &&& b.secondary_hash_status == HashStatus::Unavailable
    &&& b.primary_size == 0
    &&& b.secondary_size == 0
}

/// Whether the baseline was recorded for a directory.
pub fn baseline_looks_like_directory(baseline: &SyncBaseline) -> (r: bool)
    ensures
        r == looks_like_directory(*baseline),
{
    baseline.primary_hash.is_none() && baseline.secondary_hash.is_none()
        && baseline.primary_hash_status == HashStatus::Unavailable
        && baseline.secondary_hash_status == HashStatus::Unavailable && baseline.primary_size == 0
        && baseline.secondary_size == 0
}

/// The action concerns a directory: its snapshot says so, or its baseline looks like one.
pub open spec fn is_directory_delete(a: PlannedAction) -> bool {
    (a.snapshot matches Some(s) && s.kind == EntryKind::Directory) || (a.baseline matches Some(
        b,
    ) && looks_like_directory(b))
}

/// Whether the action deletes a directory.
pub fn action_is_directory_delete(action: &PlannedAction) -> (r: bool)
    ensures
        r == is_directory_delete(*action),
{
    let dir_snapshot = match &action.snapshot {
        Some(s) => s.kind == EntryKind::Directory,
        None => false,
    };
    if dir_snapshot {
        return true;
    }
    match &action.baseline {
        Some(b) => baseline_looks_like_directory(b),
        None => false,
    }
}

/// Bytes an action moves: the size of a file snapshot, never negative.
pub open spec fn progress_bytes(a: PlannedAction) -> int {
    match a.snapshot {
        Some(s) => if s.kind == EntryKind::File && s.size > 0 {
            s.size as int
        } else {
            0
        },
        None => 0,
    }
}

/// Bytes transferred by the action, for progress reporting.
pub fn action_progress_bytes(action: &PlannedAction) -> (r: u64)
    ensures
        r == progress_bytes(*action),
{
    match &action.snapshot {
        Some(s) => if s.kind == EntryKind::File && s.size > 0 {
            s.size as u64
        } else {
            0
        },
        None => 0,
    }
}

/// Bytes of a remote entry, for progress reporting.
pub open spec fn remote_bytes(r: RemoteFileState) -> int {
    if r.kind == EntryKind::File && r.size > 0 {
        r.size as int
    } else {
        0
    }
}

/// Bytes a pulled remote entry moves.
pub fn remote_progress_bytes(remote: &RemoteFileState) -> (r: u64)
    ensures
        r == remote_bytes(*remote),
{
    if remote.kind == EntryKind::File && remote.size > 0 {
        remote.size as u64
    } else {
        0
    }
}

/// Scheduling class of an action; lower runs first: deletes and directory
/// creates, then small files, then large files, then the rest.
pub open spec fn priority(a: PlannedAction) -> u8 {
    match a.decision {
        SyncDecision::MoveSecondaryToHistory => 0,
        SyncDecision::ApplyToSecondary => match a.snapshot {
            Some(s) => if s.kind == EntryKind::Directory {
                0
            } else if s.size <= SMALL_FILE_LIMIT_BYTES {
                1
            } else {
                2
            },
            None => 1,
        },
        _ => 3,
    }
}

/// The scheduling class of an action.
pub fn action_priority(action: &PlannedAction) -> (r: u8)
    ensures
        r == priority(*action),
{
    match action.decision {
        SyncDecision::MoveSecondaryToHistory => 0,
        SyncDecision::ApplyToSecondary => match &action.snapshot {
            Some(s) => if s.kind == EntryKind::Directory {
                0
            } else if s.size <= SMALL_FILE_LIMIT_BYTES {
                1
            } else {
                2
            },
            None => 1,
        },
        _ => 3,
    }
}

/// The actions of one class, in their original order.
pub open spec fn of_priority(s: Seq<PlannedAction>, p: u8) -> Seq<PlannedAction> {
    s.filter(|a: PlannedAction| priority(a) == p)
}

/// Stable sort by scheduling class.
pub open spec fn by_priority(s: Seq<PlannedAction>) -> Seq<PlannedAction> {
    of_priority(s, 0) + of_priority(s, 1) + of_priority(s, 2) + of_priority(s, 3)
}

/// The elements of `v` in reverse order.
pub fn reversed<T>(v: Vec<T>) -> (r: Vec<T>)
    ensures
        r@ == v@.reverse(),
{
    let mut src = v;
    let ghost orig = src@;
    let mut out: Vec<T> = Vec::new();
    while src.len() > 0
        invariant
            out@ + src@.reverse() == orig.reverse(),
        decreases src.len(),
    {
        let ghost before = src@;
        let x = src.pop().unwrap();
        assert(before =~= src@.push(x));
        assert(before.reverse() =~= seq![x] + src@.reverse());
        out.push(x);
        assert(out@ + src@.reverse() =~= (out@.drop_last() + seq![x]) + src@.reverse());
    }
    assert(src@.reverse() =~= Seq::<T>::empty());
    assert(out@ =~= orig.reverse());
    out
}

/// Orders actions so deletes and directory creates run first, then small
/// files, then large files; actions of one class keep their order.
pub fn sort_actions_by_priority(actions: Vec<PlannedAction>) -> (r: Vec<PlannedAction>)
    ensures
        r@ == by_priority(actions@),
{
    let ghost orig = actions@;
    let ghost n = orig.len();
    let mut rest = reversed(actions);
    let mut b0: Vec<PlannedAction> = Vec::new();
    let mut b1: Vec<PlannedAction> = Vec::new();
    let mut b2: Vec<PlannedAction> = Vec::new();
    let mut b3: Vec<PlannedAction> = Vec::new();
    while rest.len() > 0
        invariant
            rest@.len() <= n,
            n == orig.len(),
            rest@ == orig.subrange(n - rest@.len(), n as int).reverse(),
            b0@ == of_priority(orig.take(n - rest@.len()), 0),
            b1@ == of_priority(orig.take(n - rest@.len()), 1),
            b2@ == of_priority(orig.take(n - rest@.len()), 2),
            b3@ == of_priority(orig.take(n - rest@.len()), 3),
        decreases rest.len(),
    {
        let ghost m = n - rest@.len();
        let ghost before = rest@;
        let x = rest.pop().unwrap();
        assert(before =~= rest@.push(x));
        assert(x == orig[m]) by {
            assert(before.last() == orig.subrange(m, n as int).reverse().last());
        }
        assert(rest@ =~= orig.subrange(m + 1, n as int).reverse());
        assert(orig.take(m + 1) =~= orig.take(m).push(x));
        proof {
            orig.take(m).lemma_filter_push(x, |a: PlannedAction| priority(a) == 0u8);
            orig.take(m).lemma_filter_push(x, |a: PlannedAction| priority(a) == 1u8);
            orig.take(m).lemma_filter_push(x, |a: PlannedAction| priority(a) == 2u8);
            orig.take(m).lemma_filter_push(x, |a: PlannedAction| priority(a) == 3u8);
        }
        let p = action_priority(&x);
        if p == 0 {
            b0.push(x);
        } else if p == 1 {
            b1.push(x);
        } else if p == 2 {
            b2.push(x);
        } else {
            b3.push(x);
        }
    }
    assert(orig.take(n as int) =~= orig);
    b0.append(&mut b1);
    b0.append(&mut b2);
    b0.append(&mut b3);
    b0
}

/// Scheduling class of a remote entry for download: directories, then small
/// files, then large files.
pub open spec fn remote_priority(r: RemoteFileState) -> u8 {
    if r.kind == EntryKind::Directory {
        0
    } else if r.size <= SMALL_FILE_LIMIT_BYTES {
        1
    } else {
        2
    }
}

pub open spec fn remote_of_priority(s: Seq<RemoteFileState>, p: u8) -> Seq<RemoteFileState> {
    s.filter(|r: RemoteFileState| remote_priority(r) == p)
}

/// Stable sort of remote entries by download class.
pub open spec fn remote_by_priority(s: Seq<RemoteFileState>) -> Seq<RemoteFileState> {
    remote_of_priority(s, 0) + remote_of_priority(s, 1) + remote_of_priority(s, 2)
}

/// Orders remote entries for download: directories first, then small
/// files, then large files; entries of one class keep their order.
pub fn sort_remote_files_by_priority(files: Vec<RemoteFileState>) -> (r: Vec<RemoteFileState>)
    ensures
        r@ == remote_by_priority(files@),
{
    let ghost orig = files@;
    let ghost n = orig.len();
    let mut rest = reversed(files);
    let mut b0: Vec<RemoteFileState> = Vec::new();
    let mut b1: Vec<RemoteFileState> = Vec::new();
    let mut b2: Vec<RemoteFileState> = Vec::new();
    while rest.len() > 0
        invariant
            rest@.len() <= n,
            n == orig.len(),
            rest@ == orig.subrange(n - rest@.len(), n as int).reverse(),
            b0@ == remote_of_priority(orig.take(n - rest@.len()), 0),
            b1@ == remote_of_priority(orig.take(n - rest@.len()), 1),
            b2@ == remote_of_priority(orig.take(n - rest@.len()), 2),
        decreases rest.len(),
    {
        let ghost m = n - rest@.len();
        let ghost before = rest@;
        let x = rest.pop().unwrap();
        assert(before =~= rest@.push(x));
        assert(x == orig[m]) by {
            assert(before.last() == orig.subrange(m, n as int).reverse().last());
        }
        assert(rest@ =~= orig.subrange(m + 1, n as int).reverse());
        assert(orig.take(m + 1) =~= orig.take(m).push(x));
        proof {
            orig.take(m).lemma_filter_push(x, |r: RemoteFileState| remote_priority(r) == 0u8);
            orig.take(m).lemma_filter_push(x, |r: RemoteFileState| remote_priority(r) == 1u8);
            orig.take(m).lemma_filter_push(x, |r: RemoteFileState| remote_priority(r) == 2u8);
        }
        if x.kind == EntryKind::Directory {
            b0.push(x);
        } else if x.size <= SMALL_FILE_LIMIT_BYTES {
            b1.push(x);
        } else {
            b2.push(x);
        }
    }
    assert(orig.take(n as int) =~= orig);
    b0.append(&mut b1);
    b0.append(&mut b2);
    b0
}

/// Paths of the directory deletes among the actions.
pub open spec fn dir_delete_paths(s: Seq<PlannedAction>) -> Seq<Seq<char>> {
    s.filter(|a: PlannedAction| a.decision == SyncDecision::MoveSecondaryToHistory && is_directory_delete(a)).map_values(
        |a: PlannedAction| a.relative_path@,
    )
}

/// `path` lies below one of `dirs`.
pub open spec fn below_any(path: Seq<char>, dirs: Seq<Seq<char>>) -> bool {
    exists|k: int| 0 <= k < dirs.len() && descends(path, #[trigger] dirs[k])
}

/// An action kept by directory-delete compression: deletes below a deleted
/// directory are dropped, everything else stays.
pub open spec fn kept_after_compression(a: PlannedAction, dirs: Seq<Seq<char>>) -> bool {
    !(a.decision == SyncDecision::MoveSecondaryToHistory && below_any(a.relative_path@, dirs))
}

pub open spec fn compressed(s: Seq<PlannedAction>) -> Seq<PlannedAction> {
    s.filter(|a: PlannedAction| kept_after_compression(a, dir_delete_paths(s)))
}

fn below_any_exec(path: &str, dirs: &Vec<String>) -> (r: bool)
    ensures
        r == below_any(path@, dirs@.map_values(|d: String| d@)),
{
    let ghost ds = dirs@.map_values(|d: String| d@);
    let mut k: usize = 0;
    while k < dirs.len()
        invariant
            k <= dirs@.len(),
            ds == dirs@.map_values(|d: String| d@),
            forall|j: int| 0 <= j < k ==> !descends(path@, #[trigger] ds[j]),
        decreases dirs.len() - k,
    {
        if is_descendant_path(path, dirs[k].as_str()) {
            assert(descends(path@, ds[k as int]));
            return true;
        }
        k = k + 1;
    }
    false
}

/// Drops deletes of entries inside a directory that is itself deleted: the
/// directory delete moves them along.
pub fn compress_directory_delete_actions(actions: Vec<PlannedAction>) -> (r: Vec<PlannedAction>)
    ensures
        r@ == compressed(actions@),
{
    let ghost orig = actions@;
    let ghost n = orig.len();
    let ghost dir_pred = |a: PlannedAction| a.decision == SyncDecision::MoveSecondaryToHistory && is_directory_delete(a);
    let mut dirs: Vec<String> = Vec::new();
    let mut i: usize = 0;
    while i < actions.len()
        invariant
            i <= actions@.len(),
            orig == actions@,
            dir_pred == (|a: PlannedAction| a.decision == SyncDecision::MoveSecondaryToHistory && is_directory_delete(a)),
            dirs@.map_values(|d: String| d@) == orig.take(i as int).filter(dir_pred).map_values(|a: PlannedAction| a.relative_path@),
        decreases actions.len() - i,
    {
        proof {
            assert(orig.take(i + 1) =~= orig.take(i as int).push(orig[i as int]));
            orig.take(i as int).lemma_filter_push(orig[i as int], dir_pred);
        }
        let ghost before = dirs@.map_values(|d: String| d@);
        if actions[i].decision == SyncDecision::MoveSecondaryToHistory && action_is_directory_delete(&actions[i]) {
            dirs.push(actions[i].relative_path.clone());
            assert(dirs@.map_values(|d: String| d@) =~= before.push(orig[i as int].relative_path@));
        }
        assert(orig.take(i as int).filter(dir_pred).push(orig[i as int]).map_values(|a: PlannedAction| a.relative_path@)
            =~= orig.take(i as int).filter(dir_pred).map_values(|a: PlannedAction| a.relative_path@).push(orig[i as int].relative_path@));
        i = i + 1;
    }
    assert(orig.take(n as int) =~= orig);
    let ghost ds = dirs@.map_values(|d: String| d@);
    assert(ds == dir_delete_paths(orig));
    let ghost keep = |a: PlannedAction| kept_after_compression(a, dir_delete_paths(orig));
    let mut rest = reversed(actions);
    let mut out: Vec<PlannedAction> = Vec::new();
    while rest.len() > 0
        invariant
            rest@.len() <= n,
            n == orig.len(),
            rest@ == orig.subrange(n - rest@.len(), n as int).reverse(),
            ds == dirs@.map_values(|d: String| d@),
            ds == dir_delete_paths(orig),
            keep == (|a: PlannedAction| kept_after_compression(a, dir_delete_paths(orig))),
            out@ == orig.take(n - rest@.len()).filter(keep),
        decreases rest.len(),
    {
        let ghost m = n - rest@.len();
        let ghost before = rest@;
        let x = rest.pop().unwrap();
        assert(before =~= rest@.push(x));
        assert(x == orig[m]) by {
            assert(before.last() == orig.subrange(m, n as int).reverse().last());
        }
        assert(rest@ =~= orig.subrange(m + 1, n as int).reverse());
        assert(orig.take(m + 1) =~= orig.take(m).push(x));
        proof {
            orig.take(m).lemma_filter_push(x, keep);
        }
        let drop = x.decision == SyncDecision::MoveSecondaryToHistory && below_any_exec(x.relative_path.as_str(), &dirs);
        if !drop {
            out.push(x);
        }
    }
    assert(orig.take(n as int) =~= orig);
    out
}

/// The delete planned for a previously scanned entry that vanished without
/// a baseline.
pub open spec fn recovered_delete(s: FileSnapshot) -> PlannedAction {
    PlannedAction {
        relative_path: s.relative_path,
        decision: SyncDecision::MoveSecondaryToHistory,
        snapshot: Some(s),
        baseline: None,
    }
}

/// Some action concerns `path`.
pub open spec fn has_action_for(actions: Seq<PlannedAction>, path: Seq<char>) -> bool {
    exists|k: int| 0 <= k < actions.len() && (#[trigger] actions[k]).relative_path@ == path
}

/// A cached entry that is gone now, never reached a baseline and has no action.
pub open spec fn recoverable(
    s: FileSnapshot,
    actions: Seq<PlannedAction>,
    current: Seq<FileSnapshot>,
    baselines: Seq<SyncBaseline>,
) -> bool {
    &&& live(s)
    &&& !crate::planner::has_live_snapshot(current, s.relative_path@)
    &&& !has_key(baselines, baseline_key(), s.relative_path@)
    &&& !has_action_for(actions, s.relative_path@)
}

pub open spec fn recovered_deletes(
    actions: Seq<PlannedAction>,
    cached: Seq<FileSnapshot>,
    current: Seq<FileSnapshot>,
    baselines: Seq<SyncBaseline>,
) -> Seq<PlannedAction> {
    cached.filter(|s: FileSnapshot| recoverable(s, actions, current, baselines)).map_values(
        |s: FileSnapshot| recovered_delete(s),
    )
}

fn has_action_for_exec(actions: &Vec<PlannedAction>, path: &str) -> (r: bool)
    ensures
        r == has_action_for(actions@, path@),
{
    let mut k: usize = 0;
    while k < actions.len()
        invariant
            k <= actions@.len(),
            forall|j: int| 0 <= j < k ==> (#[trigger] actions@[j]).relative_path@ != path@,
        decreases actions.len() - k,
    {
        if crate::text::str_eq(actions[k].relative_path.as_str(), path) {
            return true;
        }
        k = k + 1;
    }
    false
}

/// Adds a delete for every cached entry that disappeared while no baseline
/// recorded it (a move the watcher missed); returns how many were added.
pub fn append_recovered_delete_actions(
    actions: &mut Vec<PlannedAction>,
    cached_snapshots: &[FileSnapshot],
    current_snapshots: &[FileSnapshot],
    baselines: &[SyncBaseline],
) -> (r: usize)
    ensures
        final(actions)@ == old(actions)@ + recovered_deletes(old(actions)@, cached_snapshots@, current_snapshots@, baselines@),
        r == recovered_deletes(old(actions)@, cached_snapshots@, current_snapshots@, baselines@).len(),
{
    let ghost orig = actions@;
    let ghost pred = |s: FileSnapshot| recoverable(s, orig, current_snapshots@, baselines@);
    let mut added: Vec<PlannedAction> = Vec::new();
    let mut i: usize = 0;
    while i < cached_snapshots.len()
        invariant
            i <= cached_snapshots@.len(),
            actions@ == orig,
            pred == (|s: FileSnapshot| recoverable(s, orig, current_snapshots@, baselines@)),
            added@ == cached_snapshots@.take(i as int).filter(pred).map_values(|s: FileSnapshot| recovered_delete(s)),
        decreases cached_snapshots.len() - i,
    {
        let s = &cached_snapshots[i];
        proof {
            assert(cached_snapshots@.take(i + 1) =~= cached_snapshots@.take(i as int).push(*s));
            cached_snapshots@.take(i as int).lemma_filter_push(*s, pred);
        }
        let ghost before = added@;
        let take = !s.deleted && !s.is_symlink
            && !crate::planner::find_live_snapshot(current_snapshots, s.relative_path.as_str())
            && find_baseline(baselines, s.relative_path.as_str()).is_none()
            && !has_action_for_exec(actions, s.relative_path.as_str());
        if take {
            added.push(PlannedAction {
                relative_path: s.relative_path.clone(),
                decision: SyncDecision::MoveSecondaryToHistory,
                snapshot: Some(s.duplicate()),
                baseline: None,
            });
        }
        assert(cached_snapshots@.take(i as int).filter(pred).push(*s).map_values(|s: FileSnapshot| recovered_delete(s))
            =~= before.push(recovered_delete(*s)));
        i = i + 1;
    }
    assert(cached_snapshots@.take(cached_snapshots@.len() as int) =~= cached_snapshots@);
    let count = added.len();
    actions.append(&mut added);
    count
}

/// The scanned entry still matches what the primary recorded at the last sync.
pub open spec fn matches_primary_baseline(s: FileSnapshot, b: SyncBaseline) -> bool {
    if s.kind == EntryKind::Directory {
        b.primary_hash is None
    } else if s.hash_status == HashStatus::Verified && b.primary_hash_status == HashStatus::Verified {
        opt_view(s.blake3_hash) == opt_view(b.primary_hash)
    } else {
        s.size == b.primary_size && s.modified_unix_ms == b.primary_modified_unix_ms
    }
}

/// Whether the local entry is unchanged since the primary's baseline.
pub fn snapshot_matches_primary_baseline(snapshot: &FileSnapshot, baseline: &SyncBaseline) -> (r: bool)
    ensures
        r == matches_primary_baseline(*snapshot, *baseline),
{
    if snapshot.kind == EntryKind::Directory {
        return baseline.primary_hash.is_none();
    }
    if snapshot.hash_status == HashStatus::Verified && baseline.primary_hash_status == HashStatus::Verified {
        return opt_str_eq(&snapshot.blake3_hash, &baseline.primary_hash);
    }
    snapshot.size == baseline.primary_size && snapshot.modified_unix_ms == baseline.primary_modified_unix_ms
}

/// Position of the last live snapshot of `path`, or -1.
pub open spec fn last_live_index(ss: Seq<FileSnapshot>, path: Seq<char>) -> int
    decreases ss.len(),
{
    if ss.len() == 0 {
        -1
    } else if live(ss.last()) && ss.last().relative_path@ == path {
        ss.len() - 1
    } else {
        last_live_index(ss.drop_last(), path)
    }
}

pub proof fn lemma_last_live_index_bounds(ss: Seq<FileSnapshot>, path: Seq<char>)
    ensures
        -1 <= last_live_index(ss, path) < ss.len(),
        last_live_index(ss, path) >= 0 ==> live(ss[last_live_index(ss, path)])
            && ss[last_live_index(ss, path)].relative_path@ == path,
    decreases ss.len(),
{
    if ss.len() > 0 {
        lemma_last_live_index_bounds(ss.drop_last(), path);
    }
}

/// Position of the last live snapshot of `path`.
pub fn find_last_live_snapshot(ss: &[FileSnapshot], path: &str) -> (r: Option<usize>)
    ensures
        match r {
            Some(i) => i as int == last_live_index(ss@, path@) && i < ss@.len(),
            None => last_live_index(ss@, path@) == -1,
        },
{
    let mut found: Option<usize> = None;
    let mut k: usize = 0;
    while k < ss.len()
        invariant
            k <= ss@.len(),
            match found {
                Some(i) => i as int == last_live_index(ss@.take(k as int), path@) && i < k,
                None => last_live_index(ss@.take(k as int), path@) == -1,
            },
        decreases ss.len() - k,
    {
        assert(ss@.take(k + 1).drop_last() =~= ss@.take(k as int));
        if !ss[k].deleted && !ss[k].is_symlink && crate::text::str_eq(ss[k].relative_path.as_str(), path) {
            found = Some(k);
        }
        k = k + 1;
    }
    assert(ss@.take(ss@.len() as int) =~= ss@);
    found
}

/// The repair planned for a baseline whose file the secondary lost.
pub open spec fn repair_action(b: SyncBaseline, s: FileSnapshot) -> PlannedAction {
    PlannedAction {
        relative_path: b.relative_path,
        decision: SyncDecision::ApplyToSecondary,
        snapshot: Some(s),
        baseline: Some(b),
    }
}

/// A baseline path the secondary no longer reports, no action covers, and
/// whose local entry is still what was synced.
pub open spec fn repairable(
    b: SyncBaseline,
    actions: Seq<PlannedAction>,
    snapshots: Seq<FileSnapshot>,
    remotes: Seq<RemoteFileState>,
) -> bool {
    let i = last_live_index(snapshots, b.relative_path@);
    &&& !has_action_for(actions, b.relative_path@)
    &&& !has_key(remotes, remote_key(), b.relative_path@)
    &&& i >= 0
    &&& matches_primary_baseline(snapshots[i], b)
}

pub open spec fn repair_actions(
    actions: Seq<PlannedAction>,
    snapshots: Seq<FileSnapshot>,
    baselines: Seq<SyncBaseline>,
    remotes: Seq<RemoteFileState>,
) -> Seq<PlannedAction> {
    baselines.filter(|b: SyncBaseline| repairable(b, actions, snapshots, remotes)).map_values(
        |b: SyncBaseline| repair_action(b, snapshots[last_live_index(snapshots, b.relative_path@)]),
    )
}

/// Re-sends files the secondary lost although the primary still holds them
/// unchanged since the last sync; returns how many repairs were added.
pub fn append_remote_missing_repair_actions(
    actions: &mut Vec<PlannedAction>,
    snapshots: &[FileSnapshot],
    baselines: &[SyncBaseline],
    remote_files: &[RemoteFileState],
) -> (r: usize)
    ensures
        final(actions)@ == old(actions)@ + repair_actions(old(actions)@, snapshots@, baselines@, remote_files@),
        r == repair_actions(old(actions)@, snapshots@, baselines@, remote_files@).len(),
{
    let ghost orig = actions@;
    let ghost pred = |b: SyncBaseline| repairable(b, orig, snapshots@, remote_files@);
    let ghost mk = |b: SyncBaseline| repair_action(b, snapshots@[last_live_index(snapshots@, b.relative_path@)]);
    let mut added: Vec<PlannedAction> = Vec::new();
    let mut i: usize = 0;
    while i < baselines.len()
        invariant
            i <= baselines@.len(),
            actions@ == orig,
            pred == (|b: SyncBaseline| repairable(b, orig, snapshots@, remote_files@)),
            mk == (|b: SyncBaseline| repair_action(b, snapshots@[last_live_index(snapshots@, b.relative_path@)])),
            added@ == baselines@.take(i as int).filter(pred).map_values(mk),
        decreases baselines.len() - i,
    {
        let b = &baselines[i];
        proof {
            assert(baselines@.take(i + 1) =~= baselines@.take(i as int).push(*b));
            baselines@.take(i as int).lemma_filter_push(*b, pred);
            lemma_last_live_index_bounds(snapshots@, b.relative_path@);
        }
        let ghost before = added@;
        if !has_action_for_exec(actions, b.relative_path.as_str())
            && find_remote(remote_files, b.relative_path.as_str()).is_none()
        {
            match find_last_live_snapshot(snapshots, b.relative_path.as_str()) {
                Some(k) => {
                    if snapshot_matches_primary_baseline(&snapshots[k], b) {
                        added.push(PlannedAction {
                            relative_path: b.relative_path.clone(),
                            decision: SyncDecision::ApplyToSecondary,
                            snapshot: Some(snapshots[k].duplicate()),
                            baseline: Some(b.duplicate()),
                        });
                    }
                },
                None => {},
            }
        }
        assert(baselines@.take(i as int).filter(pred).push(*b).map_values(mk) =~= before.push(mk(*b)));
        i = i + 1;
    }
    assert(baselines@.take(baselines@.len() as int) =~= baselines@);
    let count = added.len();
    actions.append(&mut added);
    count
}

/// Whether the peer's entry is still what the secondary recorded at the last
/// sync, so deleting it loses nothing.
pub open spec fn remote_matches_for_delete(r: RemoteFileState, b: SyncBaseline) -> bool {
    if looks_like_directory(b) {
        r.kind == EntryKind::Directory
    } else if r.kind != EntryKind::File {
        false
    } else if b.secondary_hash_status == HashStatus::Verified && b.secondary_hash is Some {
        r.hash_status != HashStatus::Verified || opt_view(b.secondary_hash) == opt_view(r.blake3_hash)
    } else {
        &&& b.secondary_hash_status != HashStatus::Verified
        &&& r.hash_status != HashStatus::Verified
        &&& b.secondary_size == r.size
        &&& b.secondary_modified_unix_ms == r.modified_unix_ms
    }
}

/// Whether the peer's entry still matches the baseline.
pub fn remote_matches_baseline_for_delete(remote: &RemoteFileState, baseline: &SyncBaseline) -> (r: bool)
    ensures
        r == remote_matches_for_delete(*remote, *baseline),
{
    if baseline_looks_like_directory(baseline) {
        return remote.kind == EntryKind::Directory;
    }
    if remote.kind != EntryKind::File {
        return false;
    }
    if baseline.secondary_hash_status == HashStatus::Verified && baseline.secondary_hash.is_some() {
        return remote.hash_status != HashStatus::Verified || opt_str_eq(&baseline.secondary_hash, &remote.blake3_hash);
    }
    baseline.secondary_hash_status != HashStatus::Verified && remote.hash_status != HashStatus::Verified
        && baseline.secondary_size == remote.size && baseline.secondary_modified_unix_ms == remote.modified_unix_ms
}

/// Why deleting on the peer is unsafe, if it is.
pub open spec fn delete_safety(a: PlannedAction, rs: Seq<RemoteFileState>) -> Option<Seq<char>> {
    match entry_for(rs, remote_key(), a.relative_path@) {
        None => None,
        Some(r) => match a.baseline {
            Some(b) => if remote_matches_for_delete(r, b) {
                None
            } else {
                Some("remote changed since last sync"@)
            },
            None => match a.snapshot {
                None => Some("delete requires baseline or verified previous snapshot"@),
                Some(s) => if s.kind != r.kind {
                    Some("remote changed since last sync"@)
                } else if s.kind == EntryKind::Directory {
                    Some("directory delete requires baseline"@)
                } else if s.hash_status == HashStatus::Verified && r.hash_status == HashStatus::Verified
                    && opt_view(s.blake3_hash) == opt_view(r.blake3_hash) {
                    None
                } else {
                    Some("remote changed since last sync"@)
                },
            },
        },
    }
}

/// Checks a planned delete against the peer's scan: the peer's entry must
/// still be the one last synced (or, without a baseline, the verified one
/// last scanned here).
pub fn remote_delete_safety_error(action: &PlannedAction, remote_files: &[RemoteFileState]) -> (r: Option<String>)
    ensures
        opt_view(r) == delete_safety(*action, remote_files@),
{
    let idx = match find_remote(remote_files, action.relative_path.as_str()) {
        Some(i) => i,
        None => {
            return None;
        },
    };
    let remote = &remote_files[idx];
    proof {
        lemma_last_index_bounds(remote_files@, remote_key(), action.relative_path@);
    }
    if let Some(baseline) = &action.baseline {
        return if remote_matches_baseline_for_delete(remote, baseline) {
            None
        } else {
            Some(crate::text::to_owned_string("remote changed since last sync"))
        };
    }
    let snapshot = match &action.snapshot {
        Some(s) => s,
        None => {
            return Some(crate::text::to_owned_string("delete requires baseline or verified previous snapshot"));
        },
    };
    if snapshot.kind != remote.kind {
        return Some(crate::text::to_owned_string("remote changed since last sync"));
    }
    if snapshot.kind == EntryKind::Directory {
        return Some(crate::text::to_owned_string("directory delete requires baseline"));
    }
    if snapshot.hash_status == HashStatus::Verified && remote.hash_status == HashStatus::Verified
        && opt_str_eq(&snapshot.blake3_hash, &remote.blake3_hash)
    {
        None
    } else {
        Some(crate::text::to_owned_string("remote changed since last sync"))
    }
}

/// Why copying to the peer would overwrite something unexpected, if it would.
pub open spec fn apply_conflict(a: PlannedAction, rs: Seq<RemoteFileState>) -> Option<Seq<char>> {
    match entry_for(rs, remote_key(), a.relative_path@) {
        None => None,
        Some(r) => if a.snapshot matches Some(s) && s.kind == EntryKind::Directory {
            if r.kind == EntryKind::Directory {
                None
            } else {
                Some("remote path exists and is not a directory"@)
            }
        } else {
            match a.baseline {
                Some(b) => if opt_view(b.secondary_hash) == opt_view(r.blake3_hash) {
                    None
                } else {
                    Some("remote file changed since last sync"@)
                },
                None => Some("remote file already exists"@),
            }
        },
    }
}

/// Checks a planned copy against the peer's scan.
pub fn remote_conflict(action: &PlannedAction, remote_files: &[RemoteFileState]) -> (r: Option<String>)
    ensures
        opt_view(r) == apply_conflict(*action, remote_files@),
{
    let idx = match find_remote(remote_files, action.relative_path.as_str()) {
        Some(i) => i,
        None => {
            return None;
        },
    };
    let remote = &remote_files[idx];
    proof {
        lemma_last_index_bounds(remote_files@, remote_key(), action.relative_path@);
    }
    let is_dir = match &action.snapshot {
        Some(s) => s.kind == EntryKind::Directory,
        None => false,
    };
    if is_dir {
        return if remote.kind == EntryKind::Directory {
            None
        } else {
            Some(crate::text::to_owned_string("remote path exists and is not a directory"))
        };
    }
    match &action.baseline {
        Some(b) => if opt_str_eq(&b.secondary_hash, &remote.blake3_hash) {
            None
        } else {
            Some(crate::text::to_owned_string("remote file changed since last sync"))
        },
        None => Some(crate::text::to_owned_string("remote file already exists")),
    }
}

/// What the secondary must still hold for a delete to go ahead.
#[derive(Debug, Clone)]
pub struct DeleteExpectation {
    pub expected_kind: EntryKind,
    pub expected_hash: Option<String>,
    pub expected_hash_status: HashStatus,
    pub expected_size: i64,
    pub expected_modified_unix_ms: i64,
}

/// The expectation sent with a delete: from the baseline when there is one,
/// else from the last scan.
pub open spec fn expectation_of(a: PlannedAction) -> Option<DeleteExpectation> {
    match a.baseline {
        Some(b) => Some(DeleteExpectation {
            expected_kind: if looks_like_directory(b) {
                EntryKind::Directory
            } else {
                EntryKind::File
            },
            expected_hash: b.secondary_hash,
            expected_hash_status: b.secondary_hash_status,
            expected_size: b.secondary_size,
            expected_modified_unix_ms: b.secondary_modified_unix_ms,
        }),
        None => match a.snapshot {
            Some(s) => Some(DeleteExpectation {
                expected_kind: s.kind,
                expected_hash: s.blake3_hash,
                expected_hash_status: s.hash_status,
                expected_size: s.size,
                expected_modified_unix_ms: s.modified_unix_ms,
            }),
            None => None,
        },
    }
}

/// The expectation a delete request carries.
pub fn delete_expectation_from_action(action: &PlannedAction) -> (r: Option<DeleteExpectation>)
    ensures
        r == expectation_of(*action),
{
    if let Some(baseline) = &action.baseline {
        let expected_kind = if baseline_looks_like_directory(baseline) {
            EntryKind::Directory
        } else {
            EntryKind::File
        };
        return Some(DeleteExpectation {
            expected_kind,
            expected_hash: opt_string_copy(&baseline.secondary_hash),
            expected_hash_status: baseline.secondary_hash_status,
            expected_size: baseline.secondary_size,
            expected_modified_unix_ms: baseline.secondary_modified_unix_ms,
        });
    }
    match &action.snapshot {
        Some(s) => Some(DeleteExpectation {
            expected_kind: s.kind,
            expected_hash: opt_string_copy(&s.blake3_hash),
            expected_hash_status: s.hash_status,
            expected_size: s.size,
            expected_modified_unix_ms: s.modified_unix_ms,
        }),
        None => None,
    }
}

/// Whether the secondary should fetch a primary entry it was told about.
pub open spec fn should_download(r: RemoteFileState, locals: Seq<FileSnapshot>, baselines: Seq<SyncBaseline>) -> bool {
    let local = entry_for(locals, snapshot_key(), r.relative_path@);
    let base = entry_for(baselines, baseline_key(), r.relative_path@);
    if r.kind == EntryKind::Directory {
        match local {
            Some(l) => l.kind != EntryKind::Directory,
            None => !(base matches Some(b) && b.primary_hash is None && b.secondary_hash is None),
        }
    } else if base matches Some(b) && opt_view(b.primary_hash) == opt_view(r.blake3_hash) {
        false
    } else {
        match local {
            Some(l) => opt_view(l.blake3_hash) != opt_view(r.blake3_hash),
            None => true,
        }
    }
}

/// Whether a primary entry needs downloading to the secondary.
pub fn secondary_should_download(
    remote: &RemoteFileState,
    locals: &[FileSnapshot],
    baselines: &[SyncBaseline],
) -> (r: bool)
    ensures
        r == should_download(*remote, locals@, baselines@),
{
    let path = remote.relative_path.as_str();
    let li = find_snapshot(locals, path);
    let bi = find_baseline(baselines, path);
    proof {
        lemma_last_index_bounds(locals@, snapshot_key(), remote.relative_path@);
        lemma_last_index_bounds(baselines@, baseline_key(), remote.relative_path@);
    }
    if remote.kind == EntryKind::Directory {
        return match li {
            Some(i) => locals[i].kind != EntryKind::Directory,
            None => match bi {
                Some(j) => !(baselines[j].primary_hash.is_none() && baselines[j].secondary_hash.is_none()),
                None => true,
            },
        };
    }
    let unchanged = match bi {
        Some(j) => opt_str_eq(&baselines[j].primary_hash, &remote.blake3_hash),
        None => false,
    };
    if unchanged {
        return false;
    }
    match li {
        Some(i) => !opt_str_eq(&locals[i].blake3_hash, &remote.blake3_hash),
        None => true,
    }
}

/// Why pulling a primary entry would overwrite a local change, if it would.
pub open spec fn pull_conflict(r: RemoteFileState, locals: Seq<FileSnapshot>, baselines: Seq<SyncBaseline>) -> Option<Seq<char>> {
    match entry_for(locals, snapshot_key(), r.relative_path@) {
        None => None,
        Some(l) => if r.kind == EntryKind::Directory {
            if l.kind == EntryKind::Directory {
                None
            } else {
                Some("local path exists and is not a directory"@)
            }
        } else {
            match entry_for(baselines, baseline_key(), r.relative_path@) {
                Some(b) => if opt_view(l.blake3_hash) == opt_view(b.secondary_hash) {
                    None
                } else {
                    Some("local file changed since last sync"@)
                },
                None => Some("local file already exists"@),
            }
        },
    }
}

/// Checks a pull against the secondary's own unsynced changes.
pub fn secondary_pull_conflict(
    remote: &RemoteFileState,
    locals: &[FileSnapshot],
    baselines: &[SyncBaseline],
) -> (r: Option<String>)
    ensures
        opt_view(r) == pull_conflict(*remote, locals@, baselines@),
{
    let path = remote.relative_path.as_str();
    let li = match find_snapshot(locals, path) {
        Some(i) => i,
        None => {
            return None;
        },
    };
    proof {
        lemma_last_index_bounds(locals@, snapshot_key(), remote.relative_path@);
        lemma_last_index_bounds(baselines@, baseline_key(), remote.relative_path@);
    }
    let local = &locals[li];
    if remote.kind == EntryKind::Directory {
        return if local.kind == EntryKind::Directory {
            None
        } else {
            Some(crate::text::to_owned_string("local path exists and is not a directory"))
        };
    }
    match find_baseline(baselines, path) {
        Some(j) => if opt_str_eq(&local.blake3_hash, &baselines[j].secondary_hash) {
            None
        } else {
            Some(crate::text::to_owned_string("local file changed since last sync"))
        },
        None => Some(crate::text::to_owned_string("local file already exists")),
    }
}

/// A run created or updated this directory on the secondary.
pub open spec fn synced_directory(a: PlannedAction, success: bool) -> bool {
    &&& success
    &&& a.decision == crate::model::SyncDecision::ApplyToSecondary
    &&& a.snapshot matches Some(s) && s.kind == EntryKind::Directory
}

/// Some live snapshot taken before the run has this path.
pub open spec fn known_before(original: Seq<FileSnapshot>, path: Seq<char>) -> bool {
    exists|o: int| 0 <= o < original.len() && live(#[trigger] original[o]) && original[o].relative_path@ == path
}

/// Some entry found now lies below a directory the run synced and was not
/// there before: the directory changed while it was being synced.
pub open spec fn tree_changed(
    original: Seq<FileSnapshot>,
    actions: Seq<PlannedAction>,
    results: Seq<crate::executor::ExecutionResult>,
    current: Seq<FileSnapshot>,
) -> bool {
    exists|c: int, a: int|
        0 <= c < current.len() && 0 <= a < actions.len() && a < results.len()
            && !known_before(original, #[trigger] current[c].relative_path@)
            && synced_directory(#[trigger] actions[a], results[a].success)
            && descends(current[c].relative_path@, actions[a].relative_path@)
}

fn is_known_before(original: &[FileSnapshot], path: &str) -> (r: bool)
    ensures
        r == known_before(original@, path@),
{
    let mut o: usize = 0;
    while o < original.len()
        invariant
            o <= original@.len(),
            forall|k: int| 0 <= k < o ==> !(live(#[trigger] original@[k]) && original@[k].relative_path@ == path@),
        decreases original.len() - o,
    {
        let s = &original[o];
        if !s.deleted && !s.is_symlink && crate::text::str_eq(s.relative_path.as_str(), path) {
            return true;
        }
        o = o + 1;
    }
    false
}

/// Whether a directory synced in this run gained entries that the run did
/// not know of, so that the task must be scanned again.
pub fn directory_tree_changed_after_sync(
    original: &[FileSnapshot],
    actions: &[PlannedAction],
    results: &[crate::executor::ExecutionResult],
    current: &[FileSnapshot],
) -> (r: bool)
    ensures
        r == tree_changed(original@, actions@, results@, current@),
{
    let mut c: usize = 0;
    while c < current.len()
        invariant
            c <= current@.len(),
            forall|x: int, a: int|
                0 <= x < c && 0 <= a < actions@.len() && a < results@.len() ==> !(
                    !known_before(original@, #[trigger] current@[x].relative_path@)
                    && synced_directory(#[trigger] actions@[a], results@[a].success)
                    && descends(current@[x].relative_path@, actions@[a].relative_path@)),
        decreases current.len() - c,
    {
        let path = current[c].relative_path.as_str();
        if !is_known_before(original, path) {
            let mut a: usize = 0;
            while a < actions.len() && a < results.len()
                invariant
                    a <= actions@.len(),
                    c < current@.len(),
                    path@ == current@[c as int].relative_path@,
                    !known_before(original@, path@),
                    forall|y: int| 0 <= y < a && y < results@.len() ==> !(
                        synced_directory(#[trigger] actions@[y], results@[y].success)
                        && descends(path@, actions@[y].relative_path@)),
                decreases actions.len() - a,
            {
                let act = &actions[a];
                let is_dir = match &act.snapshot {
                    Some(snap) => match snap.kind {
                        EntryKind::Directory => true,
                        _ => false,
                    },
                    None => false,
                };
                let applies = match act.decision {
                    crate::model::SyncDecision::ApplyToSecondary => true,
                    _ => false,
                };
                if results[a].success && applies && is_dir
                    && is_descendant_path(path, act.relative_path.as_str()) {
                    assert(synced_directory(actions@[a as int], results@[a as int].success));
                    return true;
                }
                a = a + 1;
            }
        }
        c = c + 1;
    }
    false
}

} // verus!
