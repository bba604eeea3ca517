//! What a finished transfer records: the baselines of a synced entry and of
//! its parent folders, the snapshot of a pulled entry, or the removal of a
//! deleted tree.
use vstd::prelude::*;
use crate::executor::{
    returned_baseline, returned_baseline_spec, directory_baseline, directory_baseline_spec, outcome, parent_directory_paths, parent_dirs, synced_baseline,
    synced_baseline_spec, verified_hash_for_successful_apply, verified_hash_spec, ExecutionResult,
};
use crate::model::{opt_view, ChangeKind, EntryKind, FileSnapshot, HashStatus, PendingReturnChange, SyncBaseline, SyncDecision};
use crate::planner::PlannedAction;

verus! {

/// The baselines recorded for the parent folders of a synced path, outermost first.
pub open spec fn parent_baselines_ok(bs: Seq<SyncBaseline>, task_id: u128, relative_path: Seq<char>, now: i64) -> bool {
    &&& bs.len() == parent_dirs(relative_path).len()
    &&& forall|k: int| 0 <= k < bs.len() ==> (#[trigger] bs[k]).relative_path@ == parent_dirs(relative_path)[k]
        && bs[k] == directory_baseline_spec(task_id, bs[k].relative_path, now)
}

/// The folder baselines that make every parent of `relative_path` known as synced.
pub fn parent_directory_baselines(task_id: u128, relative_path: &str, now: i64) -> (r: Vec<SyncBaseline>)
    ensures
        parent_baselines_ok(r@, task_id, relative_path@, now),
{
    let parents = parent_directory_paths(relative_path);
    let ghost ps = parents@.map_values(|p: String| p@);
    let mut out: Vec<SyncBaseline> = Vec::new();
    let mut i: usize = 0;
    while i < parents.len()
        invariant
            i <= parents@.len(),
            ps == parents@.map_values(|p: String| p@),
            ps == parent_dirs(relative_path@),
            out@.len() == i,
            forall|k: int| 0 <= k < i ==> (#[trigger] out@[k]).relative_path@ == ps[k]
                && out@[k] == directory_baseline_spec(task_id, out@[k].relative_path, now),
        decreases parents.len() - i,
    {
        let b = directory_baseline(task_id, parents[i].clone(), now);
        assert(b.relative_path@ == ps[i as int]);
        out.push(b);
        i = i + 1;
    }
    out
}

/// What a primary records for one action after its transfer.
pub enum PrimaryRecord {
    /// Nothing: the action failed or changes no baseline.
    Nothing,
    /// The entry and its parent folders are synced.
    Synced { parents: Vec<SyncBaseline>, baseline: SyncBaseline },
    /// The entry and everything below it are gone from both sides.
    ForgetTree,
}

/// What a primary records after an action: a copied entry's baseline, with
/// the hash the transfer or a fresh hashing verified, and its parents'; the
/// removal of a tree moved to history; nothing for failures and other actions.
pub fn primary_record_for(
    action: &PlannedAction,
    success: bool,
    transferred_hash: Option<&str>,
    file_hash: Option<&str>,
    task_id: u128,
    now: i64,
) -> (r: PrimaryRecord)
    ensures
        !success ==> r is Nothing,
        success && action.decision == SyncDecision::MoveSecondaryToHistory ==> r is ForgetTree,
        success && action.decision == SyncDecision::ApplyToSecondary && action.snapshot is None ==> r is Nothing,
        success && action.decision != SyncDecision::ApplyToSecondary
            && action.decision != SyncDecision::MoveSecondaryToHistory ==> r is Nothing,
        success && action.decision == SyncDecision::ApplyToSecondary && action.snapshot is Some ==> match r {
            PrimaryRecord::Synced { parents, baseline } => {
                let snap = action.snapshot->0;
                &&& parent_baselines_ok(parents@, task_id, action.relative_path@, now)
                &&& baseline.relative_path@ == action.relative_path@
                &&& (opt_view(baseline.primary_hash), baseline.primary_hash_status) == verified_hash_spec(
                    snap,
                    match transferred_hash { Some(h) => Some(h@), None => None },
                    match file_hash { Some(h) => Some(h@), None => None },
                )
                &&& baseline == synced_baseline_spec(
                    task_id,
                    baseline.relative_path,
                    snap,
                    baseline.primary_hash,
                    baseline.primary_hash_status,
                    now,
                )
            },
            _ => false,
        },
{
    if !success {
        return PrimaryRecord::Nothing;
    }
    match action.decision {
        SyncDecision::ApplyToSecondary => match &action.snapshot {
            Some(snap) => {
                let parents = parent_directory_baselines(task_id, action.relative_path.as_str(), now);
                let (hash, status) = verified_hash_for_successful_apply(snap, transferred_hash, file_hash);
                let baseline = synced_baseline(task_id, action.relative_path.as_str(), snap, hash, status, now);
                PrimaryRecord::Synced { parents, baseline }
            },
            None => PrimaryRecord::Nothing,
        },
        SyncDecision::MoveSecondaryToHistory => PrimaryRecord::ForgetTree,
        _ => PrimaryRecord::Nothing,
    }
}

/// The state a pulled entry is recorded with: a folder has no size or hash;
/// a file needs the hash its transfer verified or, failing that, a fresh
/// hash of the received file.
pub open spec fn pulled_state(
    is_dir: bool,
    size: i64,
    transferred: Option<Seq<char>>,
    file_hash: Option<Seq<char>>,
) -> Option<(EntryKind, i64, Option<Seq<char>>, HashStatus)> {
    if is_dir {
        Some((EntryKind::Directory, 0, None, HashStatus::Unavailable))
    } else {
        match transferred {
            Some(h) => Some((EntryKind::File, size, Some(h), HashStatus::Verified)),
            None => match file_hash {
                Some(h) => Some((EntryKind::File, size, Some(h), HashStatus::Verified)),
                None => None,
            },
        }
    }
}

/// What a secondary records for an entry it pulled: the entry's snapshot,
/// its parents' folder baselines, and its baseline on both sides; `None`
/// when a pulled file could not be hashed.
pub fn pulled_records(
    task_id: u128,
    relative_path: &str,
    is_dir: bool,
    size: i64,
    modified_unix_ms: Option<i64>,
    transferred_hash: Option<&str>,
    file_hash: Option<&str>,
    now: i64,
) -> (r: Option<(FileSnapshot, Vec<SyncBaseline>, SyncBaseline)>)
    ensures
        match pulled_state(
            is_dir,
            size,
            match transferred_hash { Some(h) => Some(h@), None => None },
            match file_hash { Some(h) => Some(h@), None => None },
        ) {
            None => r is None,
            Some((kind, sz, hash, status)) => r matches Some((snap, parents, baseline)) && {
                let mtime = match modified_unix_ms { Some(m) => m, None => now };
                &&& snap.task_id == task_id && snap.relative_path@ == relative_path@ && snap.kind == kind
                &&& snap.size == sz && snap.modified_unix_ms == mtime && opt_view(snap.blake3_hash) == hash
                &&& snap.hash_status == status && !snap.deleted && !snap.is_symlink
                &&& parent_baselines_ok(parents@, task_id, relative_path@, now)
                &&& baseline.relative_path@ == relative_path@
                &&& baseline == synced_baseline_spec(task_id, baseline.relative_path, snap, snap.blake3_hash, status, now)
            },
        },
{
    let (kind, sz, hash, status): (EntryKind, i64, Option<String>, HashStatus) = if is_dir {
        (EntryKind::Directory, 0, None, HashStatus::Unavailable)
    } else {
        match transferred_hash {
            Some(h) => (EntryKind::File, size, Some(crate::text::to_owned_string(h)), HashStatus::Verified),
            None => match file_hash {
                Some(h) => (EntryKind::File, size, Some(crate::text::to_owned_string(h)), HashStatus::Verified),
                None => {
                    return None;
                },
            },
        }
    };
    let mtime = match modified_unix_ms {
        Some(m) => m,
        None => now,
    };
    let snap = FileSnapshot {
        task_id,
        relative_path: crate::text::to_owned_string(relative_path),
        kind,
        size: sz,
        modified_unix_ms: mtime,
        blake3_hash: hash,
        hash_status: status,
        deleted: false,
        is_symlink: false,
    };
    let parents = parent_directory_baselines(task_id, relative_path, now);
    let baseline = synced_baseline(
        task_id,
        relative_path,
        &snap,
        crate::model::opt_string_copy(&snap.blake3_hash),
        status,
        now,
    );
    Some((snap, parents, baseline))
}

/// Turns a success whose bookkeeping failed into a retryable failure with
/// the message `<what> failed: <error>`.
pub fn mark_persist_failure(result: &mut ExecutionResult, what: &str, error: &str)
    ensures
        outcome(*final(result)) == (
            old(result).relative_path@,
            false,
            Some(what@ + " failed: "@ + error@),
            true,
        ),
{
    let mut message = crate::text::concat_str(what, " failed: ");
    crate::text::push_str(&mut message, error);
    result.success = false;
    result.error = Some(message);
    result.retryable = true;
}

/// What the primary records after a return from the secondary.
pub enum ReturnRecord {
    /// Nothing: the return failed or its pending change is unknown.
    Nothing,
    /// A returned delete: the snapshot becomes a deleted marker and the
    /// baseline and pending change go.
    ForgetDeleted,
    /// A returned file: its baseline, and the pending change goes.
    Returned(SyncBaseline),
}

/// What a successful return records, from its pending change and the size
/// of the entry now on the primary.
pub fn return_record_for(change: Option<&PendingReturnChange>, success: bool, primary_size: i64, now: i64) -> (r: ReturnRecord)
    ensures
        match change {
            None => r is Nothing,
            Some(c) => if !success {
                r is Nothing
            } else if c.change_kind == ChangeKind::Deleted {
                r is ForgetDeleted
            } else {
                r matches ReturnRecord::Returned(b) && b == returned_baseline_spec(*c, primary_size, now)
            },
        },
{
    if !success {
        return ReturnRecord::Nothing;
    }
    match change {
        None => ReturnRecord::Nothing,
        Some(c) => match c.change_kind {
            ChangeKind::Deleted => ReturnRecord::ForgetDeleted,
            _ => ReturnRecord::Returned(returned_baseline(c, primary_size, now)),
        },
    }
}

} // verus!
