//! Return-sync: sending the secondary's pending changes back to the primary,
//! and reporting the ones that conflict.
use vstd::prelude::*;
use crate::actions::descends;
use crate::order::{lex_less, sort_by_before, sorted_by, str_less};
use crate::planner::{path_depth, path_depth_spec};
use crate::conflict::{conflict_spec, detect_conflict, ConflictResult};
use crate::executor::{network_error, outcome, ExecutionResult};
use crate::lookup::{
    entry_for, find_baseline, find_pending, find_remote, find_snapshot, has_key, last_index_by,
    lemma_last_index_bounds, baseline_key, pending_key, remote_key, snapshot_key,
};
use crate::model::{
    deref_opt, opt_string_copy, opt_view, ChangeKind, EntryKind, FileSnapshot, HashStatus,
    PendingReturnChange, RemoteFileState, SyncBaseline,
};

verus! {

/// A conflict shown to the user.
#[derive(Debug, Clone)]
pub struct ConflictInfo {
    pub relative_path: String,
    pub primary_hash: Option<String>,
    pub primary_modified_unix_ms: i64,
    pub secondary_hash: Option<String>,
    pub secondary_modified_unix_ms: i64,
    pub hash_unverified: bool,
}

/// The snapshot a peer's scan entry stands for.
pub open spec fn remote_snapshot(task_id: u128, r: RemoteFileState) -> FileSnapshot {
    FileSnapshot {
        task_id,
        relative_path: r.relative_path,
        kind: r.kind,
        size: r.size,
        modified_unix_ms: r.modified_unix_ms,
        blake3_hash: r.blake3_hash,
        hash_status: r.hash_status,
        deleted: false,
        is_symlink: false,
    }
}

/// The snapshot of the primary's entry as the peer reported it.
pub fn remote_file_state_to_snapshot(task_id: u128, remote: &RemoteFileState) -> (r: FileSnapshot)
    ensures
        r == remote_snapshot(task_id, *remote),
{
    FileSnapshot {
        task_id,
        relative_path: remote.relative_path.clone(),
        kind: remote.kind,
        size: remote.size,
        modified_unix_ms: remote.modified_unix_ms,
        blake3_hash: opt_string_copy(&remote.blake3_hash),
        hash_status: remote.hash_status,
        deleted: false,
        is_symlink: false,
    }
}

/// The message explaining a return conflict.
pub open spec fn conflict_message(
    change: PendingReturnChange,
    primary: Option<FileSnapshot>,
    baseline: Option<SyncBaseline>,
) -> Seq<char> {
    if primary is Some && baseline is None {
        "primary file already exists"@
    } else if primary is None && baseline is Some && change.change_kind == ChangeKind::Modified {
        "primary file was deleted since last sync"@
    } else {
        "primary file changed since last sync"@
    }
}

/// The message for a return blocked by a conflict.
pub fn return_conflict_message(
    change: &PendingReturnChange,
    current_primary: Option<&FileSnapshot>,
    baseline: Option<&SyncBaseline>,
) -> (r: String)
    ensures
        r@ == conflict_message(*change, deref_opt(current_primary), deref_opt(baseline)),
{
    if current_primary.is_some() && baseline.is_none() {
        crate::text::to_owned_string("primary file already exists")
    } else if current_primary.is_none() && baseline.is_some() && change.change_kind == ChangeKind::Modified {
        crate::text::to_owned_string("primary file was deleted since last sync")
    } else {
        crate::text::to_owned_string("primary file changed since last sync")
    }
}

/// The primary's current entry for a path, from the peer's scan.
pub open spec fn primary_entry(task_id: u128, remotes: Seq<RemoteFileState>, path: Seq<char>) -> Option<FileSnapshot> {
    match entry_for(remotes, remote_key(), path) {
        Some(r) => Some(remote_snapshot(task_id, r)),
        None => None,
    }
}

/// Why returning `change` at `path` over the network is blocked, if it is.
/// A deletion where the primary holds a directory, and a directory the
/// secondary created where the primary holds one too, never conflict.
pub open spec fn network_return_conflict(
    path: Seq<char>,
    change: PendingReturnChange,
    remotes: Seq<RemoteFileState>,
    baselines: Seq<SyncBaseline>,
) -> Option<Seq<char>> {
    let primary = primary_entry(change.task_id, remotes, path);
    let baseline = entry_for(baselines, baseline_key(), path);
    let primary_is_dir = primary matches Some(p) && p.kind == EntryKind::Directory;
    if change.change_kind == ChangeKind::Deleted && primary_is_dir {
        None
    } else if primary_is_dir && change.secondary_hash is None && change.secondary_hash_status == HashStatus::Unavailable {
        None
    } else {
        match conflict_spec(change, primary, baseline) {
            ConflictResult::NoConflict => None,
            ConflictResult::Conflict { .. } => Some(conflict_message(change, primary, baseline)),
        }
    }
}

/// Checks a pending change against the primary's scan before returning it.
pub fn secondary_return_conflict(
    path: &str,
    change: &PendingReturnChange,
    remote_files: &[RemoteFileState],
    baselines: &[SyncBaseline],
) -> (r: Option<String>)
    ensures
        opt_view(r) == network_return_conflict(path@, *change, remote_files@, baselines@),
{
    proof {
        lemma_last_index_bounds(remote_files@, remote_key(), path@);
        lemma_last_index_bounds(baselines@, baseline_key(), path@);
    }
    let primary = match find_remote(remote_files, path) {
        Some(i) => Some(remote_file_state_to_snapshot(change.task_id, &remote_files[i])),
        None => None,
    };
    let primary_is_dir = match &primary {
        Some(p) => p.kind == EntryKind::Directory,
        None => false,
    };
    if change.change_kind == ChangeKind::Deleted && primary_is_dir {
        return None;
    }
    if primary_is_dir && change.secondary_hash.is_none() && change.secondary_hash_status == HashStatus::Unavailable {
        return None;
    }
    let baseline = match find_baseline(baselines, path) {
        Some(j) => Some(&baselines[j]),
        None => None,
    };
    match detect_conflict(change, primary.as_ref(), baseline) {
        ConflictResult::NoConflict => None,
        ConflictResult::Conflict { .. } => Some(return_conflict_message(change, primary.as_ref(), baseline)),
    }
}

/// The conflict record shown for a detected conflict.
pub open spec fn conflict_info_of(c: ConflictResult) -> ConflictInfo {
    match c {
        ConflictResult::Conflict {
            relative_path,
            primary_hash,
            primary_modified_unix_ms,
            secondary_hash,
            secondary_modified_unix_ms,
            hash_unverified,
            ..
        } => ConflictInfo {
            relative_path,
            primary_hash,
            primary_modified_unix_ms,
            secondary_hash,
            secondary_modified_unix_ms,
            hash_unverified,
        },
        ConflictResult::NoConflict => arbitrary(),
    }
}

/// The conflict check of one pending change against the primary's entries and the baselines.
pub open spec fn check_pending(p: PendingReturnChange, primaries: Seq<FileSnapshot>, baselines: Seq<SyncBaseline>) -> ConflictResult {
    conflict_spec(
        p,
        entry_for(primaries, snapshot_key(), p.relative_path@),
        entry_for(baselines, baseline_key(), p.relative_path@),
    )
}

/// The conflicts among the pending changes, in their order.
pub open spec fn conflict_infos(
    pending: Seq<PendingReturnChange>,
    primaries: Seq<FileSnapshot>,
    baselines: Seq<SyncBaseline>,
) -> Seq<ConflictInfo> {
    pending.filter(|p: PendingReturnChange| check_pending(p, primaries, baselines) is Conflict).map_values(
        |p: PendingReturnChange| conflict_info_of(check_pending(p, primaries, baselines)),
    )
}

/// Lists the pending changes that conflict with the primary.
pub fn conflict_infos_from_maps(
    pending_list: &[PendingReturnChange],
    primaries: &[FileSnapshot],
    baselines: &[SyncBaseline],
) -> (r: Vec<ConflictInfo>)
    ensures
        r@ == conflict_infos(pending_list@, primaries@, baselines@),
{
    let ghost pred = |p: PendingReturnChange| check_pending(p, primaries@, baselines@) is Conflict;
    let ghost mk = |p: PendingReturnChange| conflict_info_of(check_pending(p, primaries@, baselines@));
    let mut out: Vec<ConflictInfo> = Vec::new();
    let mut i: usize = 0;
    while i < pending_list.len()
        invariant
            i <= pending_list@.len(),
            pred == (|p: PendingReturnChange| check_pending(p, primaries@, baselines@) is Conflict),
            mk == (|p: PendingReturnChange| conflict_info_of(check_pending(p, primaries@, baselines@))),
            out@ == pending_list@.take(i as int).filter(pred).map_values(mk),
        decreases pending_list.len() - i,
    {
        let p = &pending_list[i];
        proof {
            assert(pending_list@.take(i + 1) =~= pending_list@.take(i as int).push(*p));
            pending_list@.take(i as int).lemma_filter_push(*p, pred);
            lemma_last_index_bounds(primaries@, snapshot_key(), p.relative_path@);
            lemma_last_index_bounds(baselines@, baseline_key(), p.relative_path@);
        }
        let ghost before = out@;
        let primary = match find_snapshot(primaries, p.relative_path.as_str()) {
            Some(k) => Some(&primaries[k]),
            None => None,
        };
        let baseline = match find_baseline(baselines, p.relative_path.as_str()) {
            Some(k) => Some(&baselines[k]),
            None => None,
        };
        match detect_conflict(p, primary, baseline) {
            ConflictResult::Conflict {
                relative_path,
                primary_hash,
                primary_hash_status: _,
                primary_modified_unix_ms,
                secondary_hash,
                secondary_hash_status: _,
                secondary_modified_unix_ms,
                hash_unverified,
            } => {
                out.push(ConflictInfo {
                    relative_path,
                    primary_hash,
                    primary_modified_unix_ms,
                    secondary_hash,
                    secondary_modified_unix_ms,
                    hash_unverified,
                });
            },
            ConflictResult::NoConflict => {},
        }
        assert(pending_list@.take(i as int).filter(pred).push(*p).map_values(mk) =~= before.push(mk(*p)));
        i = i + 1;
    }
    assert(pending_list@.take(pending_list@.len() as int) =~= pending_list@);
    out
}

/// The entry at `i` is the one its path maps to (no later entry shadows it).
pub open spec fn effective(ps: Seq<PendingReturnChange>, i: int) -> bool {
    last_index_by(ps, pending_key(), ps[i].relative_path@) == i
}

/// Some effective pending change lies below `path`.
pub open spec fn has_pending_below(ps: Seq<PendingReturnChange>, path: Seq<char>) -> bool {
    exists|i: int| 0 <= i < ps.len() && effective(ps, i) && descends(#[trigger] ps[i].relative_path@, path)
}

/// Every effective pending change below `path` is a deletion.
pub open spec fn all_below_deleted(ps: Seq<PendingReturnChange>, path: Seq<char>) -> bool {
    forall|i: int|
        0 <= i < ps.len() && effective(ps, i) && descends(#[trigger] ps[i].relative_path@, path)
            ==> ps[i].change_kind == ChangeKind::Deleted
}

/// A selected path stands for deleted content: its own pending change is a
/// deletion, or it has pending changes below it and all are deletions.
pub open spec fn deleted_group(path: Seq<char>, ps: Seq<PendingReturnChange>) -> bool {
    match entry_for(ps, pending_key(), path) {
        Some(c) => c.change_kind == ChangeKind::Deleted,
        None => has_pending_below(ps, path) && all_below_deleted(ps, path),
    }
}

/// Whether there are pending changes below `path`, and whether they are all deletions.
pub fn pending_below(path: &str, pending: &[PendingReturnChange]) -> (r: (bool, bool))
    ensures
        r.0 == has_pending_below(pending@, path@),
        r.1 == all_below_deleted(pending@, path@),
{
    let mut any = false;
    let mut all = true;
    let mut i: usize = 0;
    while i < pending.len()
        invariant
            i <= pending@.len(),
            any == exists|j: int| 0 <= j < i && effective(pending@, j) && descends(#[trigger] pending@[j].relative_path@, path@),
            all == forall|j: int| 0 <= j < i && effective(pending@, j) && descends(#[trigger] pending@[j].relative_path@, path@)
                ==> pending@[j].change_kind == ChangeKind::Deleted,
        decreases pending.len() - i,
    {
        let below = crate::actions::is_descendant_path(pending[i].relative_path.as_str(), path);
        if below {
            let eff = match find_pending(pending, pending[i].relative_path.as_str()) {
                Some(k) => k == i,
                None => false,
            };
            proof {
                lemma_last_index_bounds(pending@, pending_key(), pending@[i as int].relative_path@);
            }
            if eff {
                any = true;
                if pending[i].change_kind != ChangeKind::Deleted {
                    all = false;
                }
            }
        }
        i = i + 1;
    }
    (any, all)
}

/// Whether the selected path is returned as a deletion.
pub fn return_path_is_deleted_group(path: &str, pending: &[PendingReturnChange]) -> (r: bool)
    ensures
        r == deleted_group(path@, pending@),
{
    proof {
        lemma_last_index_bounds(pending@, pending_key(), path@);
    }
    match find_pending(pending, path) {
        Some(i) => pending[i].change_kind == ChangeKind::Deleted,
        None => {
            let (any, all) = pending_below(path, pending);
            any && all
        },
    }
}

/// What returning one selected path to the primary involves.
pub enum ReturnStep {
    /// Nothing to send; the result is known.
    Finished(ExecutionResult),
    /// Ask the primary to delete the path.
    SendDelete,
    /// Ask the primary to create the directory.
    CreateDirectory,
    /// Upload the local entry (a directory is created, a file is sent).
    UploadEntry,
}

/// The plan for a selected path, as plain values: the kind of step and,
/// for a finished one, its failure message.
pub open spec fn return_step_spec(
    path: Seq<char>,
    pending: Seq<PendingReturnChange>,
    remotes: Seq<RemoteFileState>,
    baselines: Seq<SyncBaseline>,
    upload_deferred: bool,
) -> (int, Option<Seq<char>>) {
    match entry_for(pending, pending_key(), path) {
        None => if has_pending_below(pending, path) && all_below_deleted(pending, path) {
            (1, None)
        } else if has_pending_below(pending, path) {
            (2, None)
        } else {
            (0, Some("pending change not found in database"@))
        },
        Some(c) => match network_return_conflict(path, c, remotes, baselines) {
            Some(e) => (0, Some(e)),
            None => if c.change_kind == ChangeKind::Deleted {
                (1, None)
            } else if upload_deferred {
                (0, Some("transfer deferred by user"@))
            } else {
                (3, None)
            },
        },
    }
}

/// The step kind of a plan: 0 finished, 1 delete, 2 directory, 3 upload.
pub open spec fn return_step_kind(s: ReturnStep) -> int {
    match s {
        ReturnStep::Finished(_) => 0,
        ReturnStep::SendDelete => 1,
        ReturnStep::CreateDirectory => 2,
        ReturnStep::UploadEntry => 3,
    }
}

/// Decides how a selected path is returned to the primary. A path without
/// its own pending change stands for the changes below it.
pub fn plan_return_step(
    path: &str,
    pending: &[PendingReturnChange],
    remote_files: &[RemoteFileState],
    baselines: &[SyncBaseline],
    upload_deferred: bool,
) -> (r: ReturnStep)
    ensures
        return_step_kind(r) == return_step_spec(path@, pending@, remote_files@, baselines@, upload_deferred).0,
        r matches ReturnStep::Finished(res) ==> outcome(res) == (
            path@,
            false,
            return_step_spec(path@, pending@, remote_files@, baselines@, upload_deferred).1,
            false,
        ),
{
    proof {
        lemma_last_index_bounds(pending@, pending_key(), path@);
    }
    let change = match find_pending(pending, path) {
        Some(i) => &pending[i],
        None => {
            let (any, all) = pending_below(path, pending);
            if any && all {
                return ReturnStep::SendDelete;
            }
            if any {
                return ReturnStep::CreateDirectory;
            }
            return ReturnStep::Finished(network_error(path, "pending change not found in database", false));
        },
    };
    match secondary_return_conflict(path, change, remote_files, baselines) {
        Some(e) => {
            return ReturnStep::Finished(network_error(path, e.as_str(), false));
        },
        None => {},
    }
    if change.change_kind == ChangeKind::Deleted {
        return ReturnStep::SendDelete;
    }
    if upload_deferred {
        return ReturnStep::Finished(network_error(path, "transfer deferred by user", false));
    }
    ReturnStep::UploadEntry
}

/// What the primary does locally for one path of a manual return-sync.
pub enum LocalReturnStep {
    /// Nothing to do; the result is known.
    Finished(ExecutionResult),
    /// The secondary deleted it: move the primary's copy to history.
    RemoveToHistory,
    /// Copy the secondary's version over, checked against the pending change.
    CopyBack(PendingReturnChange),
}

/// The plan for one path, as plain values: 0 finished, 1 remove, 2 copy;
/// and for a finished one, its failure message.
pub open spec fn local_return_spec(
    path: Seq<char>,
    pending: Seq<PendingReturnChange>,
    primaries: Seq<FileSnapshot>,
    baselines: Seq<SyncBaseline>,
) -> (int, Option<Seq<char>>) {
    match entry_for(pending, pending_key(), path) {
        None => (0, Some("pending change not found in database"@)),
        Some(c) => match conflict_spec(c, entry_for(primaries, snapshot_key(), path), entry_for(baselines, baseline_key(), path)) {
            ConflictResult::Conflict { .. } => (0, Some("conflict: primary file changed since last sync"@)),
            ConflictResult::NoConflict => if c.change_kind == ChangeKind::Deleted {
                (1, None)
            } else {
                (2, None)
            },
        },
    }
}

/// Decides what a manual return-sync does for one selected path on the primary.
pub fn plan_local_return_step(
    path: &str,
    pending: &[PendingReturnChange],
    primaries: &[FileSnapshot],
    baselines: &[SyncBaseline],
) -> (r: LocalReturnStep)
    ensures
        (match r {
            LocalReturnStep::Finished(_) => 0int,
            LocalReturnStep::RemoveToHistory => 1int,
            LocalReturnStep::CopyBack(_) => 2int,
        }) == local_return_spec(path@, pending@, primaries@, baselines@).0,
        r matches LocalReturnStep::Finished(res) ==> outcome(res) == (
            path@,
            false,
            local_return_spec(path@, pending@, primaries@, baselines@).1,
            false,
        ),
        r matches LocalReturnStep::CopyBack(c) ==> Some(c) == entry_for(pending@, pending_key(), path@),
{
    proof {
        lemma_last_index_bounds(pending@, pending_key(), path@);
        lemma_last_index_bounds(primaries@, snapshot_key(), path@);
        lemma_last_index_bounds(baselines@, baseline_key(), path@);
    }
    let change = match find_pending(pending, path) {
        Some(i) => &pending[i],
        None => {
            return LocalReturnStep::Finished(network_error(path, "pending change not found in database", false));
        },
    };
    let primary = match find_snapshot(primaries, path) {
        Some(k) => Some(&primaries[k]),
        None => None,
    };
    let baseline = match find_baseline(baselines, path) {
        Some(k) => Some(&baselines[k]),
        None => None,
    };
    match detect_conflict(change, primary, baseline) {
        ConflictResult::Conflict { .. } => LocalReturnStep::Finished(
            network_error(path, "conflict: primary file changed since last sync", false),
        ),
        ConflictResult::NoConflict => if change.change_kind == ChangeKind::Deleted {
            LocalReturnStep::RemoveToHistory
        } else {
            LocalReturnStep::CopyBack(change.duplicate())
        },
    }
}

/// The order return paths run in: paths that are not deletions first,
/// shallow before deep; then deletions, deep before shallow; ties by text.
pub open spec fn return_before(a: Seq<char>, b: Seq<char>, ps: Seq<PendingReturnChange>) -> bool {
    let da = deleted_group(a, ps);
    let db = deleted_group(b, ps);
    let ka = path_depth_spec(a);
    let kb = path_depth_spec(b);
    if da && db {
        kb < ka || (ka == kb && lex_less(a, b))
    } else if !da && !db {
        ka < kb || (ka == kb && lex_less(a, b))
    } else {
        !da
    }
}

/// Whether path `a` runs before path `b` in a return-sync.
pub fn return_path_runs_before(a: &str, b: &str, pending: &[PendingReturnChange]) -> (r: bool)
    ensures
        r == return_before(a@, b@, pending@),
{
    let da = return_path_is_deleted_group(a, pending);
    let db = return_path_is_deleted_group(b, pending);
    let ka = path_depth(a);
    let kb = path_depth(b);
    if da && db {
        kb < ka || (ka == kb && str_less(a, b))
    } else if !da && !db {
        ka < kb || (ka == kb && str_less(a, b))
    } else {
        !da
    }
}

/// The paths a selection stands for, in selection order: each selected path
/// that has a pending change or pending changes below it, followed by the
/// pending changes below it.
pub open spec fn selection_candidates(selected: Seq<String>, ps: Seq<PendingReturnChange>) -> Seq<String>
    decreases selected.len(),
{
    if selected.len() == 0 {
        Seq::empty()
    } else {
        let sel = selected.last();
        let own = if has_key(ps, pending_key(), sel@) || has_pending_below(ps, sel@) {
            seq![sel]
        } else {
            Seq::empty()
        };
        selection_candidates(selected.drop_last(), ps) + own + below_paths(ps, sel@)
    }
}

/// The paths of the effective pending changes below `path`, in order.
pub open spec fn below_paths(ps: Seq<PendingReturnChange>, path: Seq<char>) -> Seq<String> {
    Seq::new(ps.len(), |i: int| i).filter(|i: int| effective(ps, i) && descends(ps[i].relative_path@, path)).map_values(
        |i: int| ps[i].relative_path,
    )
}

/// `s` without later repeats of a path (by text).
pub open spec fn dedup_paths(s: Seq<String>) -> Seq<String>
    decreases s.len(),
{
    if s.len() == 0 {
        Seq::empty()
    } else {
        let d = dedup_paths(s.drop_last());
        if exists|k: int| 0 <= k < d.len() && (#[trigger] d[k])@ == s.last()@ {
            d
        } else {
            d.push(s.last())
        }
    }
}

fn push_unique(out: &mut Vec<String>, path: &String)
    ensures
        final(out)@ == (if exists|k: int| 0 <= k < old(out)@.len() && (#[trigger] old(out)@[k])@ == path@ {
            old(out)@
        } else {
            old(out)@.push(*path)
        }),
{
    let mut k: usize = 0;
    while k < out.len()
        invariant
            k <= out@.len(),
            forall|j: int| 0 <= j < k ==> (#[trigger] out@[j])@ != path@,
        decreases out.len() - k,
    {
        if crate::text::str_eq(out[k].as_str(), path.as_str()) {
            return;
        }
        k = k + 1;
    }
    out.push(path.clone());
}

/// The selection expanded to the pending paths it covers, without repeats,
/// in the order they are returned.
pub open spec fn expanded_selection(selected: Seq<String>, ps: Seq<PendingReturnChange>) -> Seq<String> {
    sorted_by(dedup_paths(selection_candidates(selected, ps)), |a: String, b: String| return_before(a@, b@, ps))
}

proof fn lemma_dedup_step(s: Seq<String>, x: String)
    ensures
        dedup_paths(s.push(x)) == (if exists|k: int| 0 <= k < dedup_paths(s).len() && (#[trigger] dedup_paths(s)[k])@ == x@ {
            dedup_paths(s)
        } else {
            dedup_paths(s).push(x)
        }),
{
    assert(s.push(x).drop_last() =~= s);
}

/// Expands the selected paths to the pending changes they cover (a folder
/// stands for the changes below it) and orders them for running.
pub fn expand_selected_return_paths(selected_paths: &[String], pending: &[PendingReturnChange]) -> (r: Vec<String>)
    ensures
        r@ == expanded_selection(selected_paths@, pending@),
{
    let mut out: Vec<String> = Vec::new();
    let ghost mut cands: Seq<String> = Seq::empty();
    let mut j: usize = 0;
    while j < selected_paths.len()
        invariant
            j <= selected_paths@.len(),
            cands == selection_candidates(selected_paths@.take(j as int), pending@),
            out@ == dedup_paths(cands),
        decreases selected_paths.len() - j,
    {
        let sel = &selected_paths[j];
        assert(selected_paths@.take(j + 1).drop_last() =~= selected_paths@.take(j as int));
        assert(selected_paths@.take(j + 1).last() == *sel);
        proof {
            lemma_last_index_bounds(pending@, pending_key(), sel@);
        }
        let own = find_pending(pending, sel.as_str()).is_some();
        let (any_below, _) = pending_below(sel.as_str(), pending);
        if own || any_below {
            proof {
                lemma_dedup_step(cands, *sel);
                cands = cands.push(*sel);
            }
            push_unique(&mut out, sel);
        }
        let ghost idx = Seq::new(pending@.len(), |i: int| i);
        let ghost keep = |i: int| effective(pending@, i) && descends(pending@[i].relative_path@, sel@);
        let ghost mk = |i: int| pending@[i].relative_path;
        let ghost base = cands;
        let mut i: usize = 0;
        while i < pending.len()
            invariant
                i <= pending@.len(),
                j < selected_paths@.len(),
                *sel == selected_paths@[j as int],
                idx == Seq::new(pending@.len(), |i: int| i),
                keep == (|i: int| effective(pending@, i) && descends(pending@[i].relative_path@, sel@)),
                mk == (|i: int| pending@[i].relative_path),
                cands == base + idx.take(i as int).filter(keep).map_values(mk),
                out@ == dedup_paths(cands),
            decreases pending.len() - i,
        {
            proof {
                assert(idx.take(i + 1) =~= idx.take(i as int).push(i as int));
                idx.take(i as int).lemma_filter_push(i as int, keep);
                lemma_last_index_bounds(pending@, pending_key(), pending@[i as int].relative_path@);
            }
            let below = crate::actions::is_descendant_path(pending[i].relative_path.as_str(), sel.as_str());
            let eff = match find_pending(pending, pending[i].relative_path.as_str()) {
                Some(k) => k == i,
                None => false,
            };
            if below && eff {
                proof {
                    lemma_dedup_step(cands, pending@[i as int].relative_path);
                    assert(base + idx.take(i + 1).filter(keep).map_values(mk) =~= cands.push(pending@[i as int].relative_path));
                    cands = cands.push(pending@[i as int].relative_path);
                }
                push_unique(&mut out, &pending[i].relative_path);
            } else {
                assert(base + idx.take(i + 1).filter(keep).map_values(mk) =~= cands);
            }
            i = i + 1;
        }
        assert(idx.take(pending@.len() as int) =~= idx);
        assert(cands =~= selection_candidates(selected_paths@.take(j + 1), pending@));
        j = j + 1;
    }
    assert(selected_paths@.take(selected_paths@.len() as int) =~= selected_paths@);
    sort_return_paths_for_execution(out, pending)
}

/// Puts return paths in the order they run in (see `return_before`); the
/// sort is stable.
pub fn sort_return_paths_for_execution(paths: Vec<String>, pending: &[PendingReturnChange]) -> (r: Vec<String>)
    ensures
        r@ == sorted_by(paths@, |a: String, b: String| return_before(a@, b@, pending@)),
{
    let less = |a: &String, b: &String| -> (r: bool)
        ensures
            r == return_before(a@, b@, pending@),
        {
            return_path_runs_before(a.as_str(), b.as_str(), pending)
        };
    sort_by_before(paths, less, Ghost(|a: String, b: String| return_before(a@, b@, pending@)))
}

/// Law: a manual return never overwrites or removes a primary file that
/// changed after the last sync (or was never synced): the path's step ends
/// as a failure, and the file is left alone.
pub proof fn law_return_leaves_changed_primary_alone(
    path: Seq<char>,
    pending: Seq<PendingReturnChange>,
    primaries: Seq<FileSnapshot>,
    baselines: Seq<SyncBaseline>,
)
    requires
        entry_for(pending, pending_key(), path) is Some,
        entry_for(primaries, snapshot_key(), path) matches Some(p) && !p.deleted && match entry_for(
            baselines,
            baseline_key(),
            path,
        ) {
            Some(b) => crate::planner::changed_since(p, b, crate::model::DeviceRole::Primary),
            None => true,
        },
    ensures
        local_return_spec(path, pending, primaries, baselines).0 == 0,
{
    let c = entry_for(pending, pending_key(), path)->0;
    let p = entry_for(primaries, snapshot_key(), path)->0;
    match entry_for(baselines, baseline_key(), path) {
        Some(b) => crate::conflict::law_changed_primary_conflicts(c, p, b),
        None => crate::conflict::law_unsynced_primary_conflicts(c, p),
    }
}

} // verus!
