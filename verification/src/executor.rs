//! Decisions made while sync actions run: what each action asks of the file
//! system or the peer, what is recorded after it succeeds, and how failures
//! are reported.
use vstd::prelude::*;
use crate::actions::{apply_conflict, delete_safety, expectation_of, remote_conflict, remote_delete_safety_error,
    delete_expectation_from_action, DeleteExpectation};
use crate::model::{
    opt_string_copy, opt_view, ChangeKind, EntryKind, FileSnapshot, HashStatus, PendingReturnChange,
    RemoteFileState, SyncBaseline, SyncDecision,
};
use crate::planner::{changed_since, PlannedAction};
use crate::text::{chars_of, has_infix, pieces, split_chars, split_spec, string_from_chars, push_char, push_str};

verus! {

/// Result of executing a single sync action.
#[derive(Debug, Clone)]
pub struct ExecutionResult {
    pub relative_path: String,
    pub success: bool,
    pub error: Option<String>,
    pub retryable: bool,
}

/// A result as plain values: path, success, error message, retryable.
pub open spec fn outcome(r: ExecutionResult) -> (Seq<char>, bool, Option<Seq<char>>, bool) {
    (r.relative_path@, r.success, opt_view(r.error), r.retryable)
}

/// A failed result for `relative_path` with message `error`.
pub fn network_error(relative_path: &str, error: &str, retryable: bool) -> (r: ExecutionResult)
    ensures
        outcome(r) == (relative_path@, false, Some(error@), retryable),
{
    ExecutionResult {
        relative_path: crate::text::to_owned_string(relative_path),
        success: false,
        error: Some(crate::text::to_owned_string(error)),
        retryable,
    }
}

/// A successful result for `relative_path`.
pub fn success_result(relative_path: &str) -> (r: ExecutionResult)
    ensures
        outcome(r) == (relative_path@, true, None::<Seq<char>>, false),
{
    ExecutionResult {
        relative_path: crate::text::to_owned_string(relative_path),
        success: true,
        error: None,
        retryable: false,
    }
}

/// The non-empty `/`-separated parts of a path.
pub open spec fn path_parts(s: Seq<char>) -> Seq<Seq<char>> {
    split_spec(s, '/', '/').filter(|p: Seq<char>| p.len() > 0)
}

/// Parts joined with `/`.
pub open spec fn join_slash(ps: Seq<Seq<char>>) -> Seq<char>
    decreases ps.len(),
{
    if ps.len() == 0 {
        Seq::empty()
    } else if ps.len() == 1 {
        ps[0]
    } else {
        join_slash(ps.drop_last()) + seq!['/'] + ps.last()
    }
}

/// Every proper ancestor directory of a path, outermost first.
pub open spec fn parent_dirs(s: Seq<char>) -> Seq<Seq<char>> {
    let parts = path_parts(s);
    if parts.len() <= 1 {
        Seq::empty()
    } else {
        Seq::new((parts.len() - 1) as nat, |k: int| join_slash(parts.take(k + 1)))
    }
}

fn nonempty_parts(s: &str) -> (r: Vec<Vec<char>>)
    ensures
        pieces(r@) == path_parts(s@),
{
    let chars = chars_of(s);
    let parts = split_chars(&chars, '/', '/');
    let ghost keep = |p: Seq<char>| p.len() > 0;
    let mut r: Vec<Vec<char>> = Vec::new();
    let mut parts = parts;
    let ghost all = pieces(parts@);
    let mut i: usize = 0;
    while i < parts.len()
        invariant
            i <= parts@.len(),
            all == pieces(parts@),
            all == split_spec(s@, '/', '/'),
            keep == (|p: Seq<char>| p.len() > 0),
            pieces(r@) == all.take(i as int).filter(keep),
        decreases parts.len() - i,
    {
        proof {
            assert(all.take(i + 1) =~= all.take(i as int).push(all[i as int]));
            all.take(i as int).lemma_filter_push(all[i as int], keep);
        }
        if parts[i].len() > 0 {
            let ghost before = pieces(r@);
            let mut piece: Vec<char> = Vec::new();
            let mut j: usize = 0;
            while j < parts[i].len()
                invariant
                    i < parts@.len(),
                    j <= parts@[i as int]@.len(),
                    piece@ == parts@[i as int]@.take(j as int),
                decreases parts[i as int]@.len() - j,
            {
                piece.push(parts[i][j]);
                assert(parts@[i as int]@.take(j + 1) =~= parts@[i as int]@.take(j as int).push(parts@[i as int]@[j as int]));
                j = j + 1;
            }
            assert(parts@[i as int]@.take(parts@[i as int]@.len() as int) =~= parts@[i as int]@);
            r.push(piece);
            assert(pieces(r@) =~= before.push(all[i as int]));
        }
        i = i + 1;
    }
    assert(all.take(parts@.len() as int) =~= all);
    r
}

/// The ancestor directories of `relative_path`, outermost first
/// (`a/b/c.txt` gives `a` and `a/b`).
pub fn parent_directory_paths(relative_path: &str) -> (r: Vec<String>)
    ensures
        r@.map_values(|p: String| p@) == parent_dirs(relative_path@),
{
    let parts = nonempty_parts(relative_path);
    let ghost ps = pieces(parts@);
    let mut out: Vec<String> = Vec::new();
    if parts.len() <= 1 {
        assert(out@.map_values(|p: String| p@) =~= parent_dirs(relative_path@));
        return out;
    }
    let mut cur: Vec<char> = Vec::new();
    let mut j: usize = 0;
    while j < parts[0].len()
        invariant
            parts@.len() > 1,
            j <= parts@[0]@.len(),
            cur@ == parts@[0]@.take(j as int),
        decreases parts[0]@.len() - j,
    {
        cur.push(parts[0][j]);
        assert(parts@[0]@.take(j + 1) =~= parts@[0]@.take(j as int).push(parts@[0]@[j as int]));
        j = j + 1;
    }
    assert(parts@[0]@.take(parts@[0]@.len() as int) =~= parts@[0]@);
    assert(ps.take(1) =~= seq![ps[0]]);
    let mut depth: usize = 1;
    while depth < parts.len()
        invariant
            1 <= depth <= parts@.len(),
            ps == pieces(parts@),
            ps == path_parts(relative_path@),
            depth < parts@.len() ==> cur@ == join_slash(ps.take(depth as int)),
            out@.len() == depth - 1,
            forall|k: int| 0 <= k < depth - 1 ==> (#[trigger] out@[k])@ == join_slash(ps.take(k + 1)),
        decreases parts.len() - depth,
    {
        out.push(string_from_chars(&cur));
        if depth + 1 < parts.len() {
            let ghost before = cur@;
            cur.push('/');
            let mut j: usize = 0;
            while j < parts[depth].len()
                invariant
                    depth < parts@.len(),
                    j <= parts@[depth as int]@.len(),
                    cur@ == before + seq!['/'] + parts@[depth as int]@.take(j as int),
                decreases parts[depth as int]@.len() - j,
            {
                cur.push(parts[depth][j]);
                assert(parts@[depth as int]@.take(j + 1) =~= parts@[depth as int]@.take(j as int).push(parts@[depth as int]@[j as int]));
                assert(before + seq!['/'] + parts@[depth as int]@.take(j + 1) =~= (before + seq!['/'] + parts@[depth as int]@.take(j as int)).push(parts@[depth as int]@[j as int]));
                j = j + 1;
            }
            assert(parts@[depth as int]@.take(parts@[depth as int]@.len() as int) =~= parts@[depth as int]@);
            assert(ps.take(depth + 1).drop_last() =~= ps.take(depth as int));
            assert(ps.take(depth + 1).last() == ps[depth as int]);
        }
        depth = depth + 1;
    }
    assert(out@.map_values(|p: String| p@) =~= parent_dirs(relative_path@));
    out
}

/// The baseline recorded for a directory.
pub open spec fn directory_baseline_spec(task_id: u128, relative_path: String, now: i64) -> SyncBaseline {
    SyncBaseline {
        task_id,
        relative_path,
        primary_hash: None,
        primary_hash_status: HashStatus::Unavailable,
        primary_size: 0,
        secondary_size: 0,
        primary_modified_unix_ms: 0,
        secondary_hash: None,
        secondary_hash_status: HashStatus::Unavailable,
        secondary_modified_unix_ms: 0,
        last_synced_unix_ms: now,
    }
}

/// The baseline recorded for a directory synced at `now`.
pub fn directory_baseline(task_id: u128, relative_path: String, now: i64) -> (r: SyncBaseline)
    ensures
        r == directory_baseline_spec(task_id, relative_path, now),
{
    SyncBaseline {
        task_id,
        relative_path,
        primary_hash: None,
        primary_hash_status: HashStatus::Unavailable,
        primary_size: 0,
        secondary_size: 0,
        primary_modified_unix_ms: 0,
        secondary_hash: None,
        secondary_hash_status: HashStatus::Unavailable,
        secondary_modified_unix_ms: 0,
        last_synced_unix_ms: now,
    }
}

/// The result an action has without any work, if it has one: conflicts wait
/// for the user, no-ops succeed.
pub open spec fn fixed_outcome_spec(a: PlannedAction) -> Option<(bool, Option<Seq<char>>)> {
    match a.decision {
        SyncDecision::RequireConflictDecision => Some((false, Some("conflict requires user decision"@))),
        SyncDecision::Noop => Some((true, None)),
        _ => None,
    }
}

/// The outcome of an action that needs no work.
pub fn fixed_outcome(action: &PlannedAction) -> (r: Option<ExecutionResult>)
    ensures
        match r {
            Some(res) => fixed_outcome_spec(*action) == Some((res.success, opt_view(res.error)))
                && res.relative_path@ == action.relative_path@ && !res.retryable,
            None => fixed_outcome_spec(*action) is None,
        },
{
    match action.decision {
        SyncDecision::RequireConflictDecision => Some(
            network_error(action.relative_path.as_str(), "conflict requires user decision", false),
        ),
        SyncDecision::Noop => Some(success_result(action.relative_path.as_str())),
        _ => None,
    }
}

/// The kind of secondary change an action records: deleted when only the
/// baseline is left, modified when both exist, created when only the scan does.
pub open spec fn pending_kind(a: PlannedAction) -> Option<ChangeKind> {
    match (a.snapshot, a.baseline) {
        (None, Some(_)) => Some(ChangeKind::Deleted),
        (Some(_), Some(_)) => Some(ChangeKind::Modified),
        (Some(_), None) => Some(ChangeKind::Created),
        (None, None) => None,
    }
}

/// The pending return-sync change recorded for an action at `now`.
pub open spec fn pending_change_spec(a: PlannedAction, kind: ChangeKind, task_id: u128, now: i64) -> PendingReturnChange {
    PendingReturnChange {
        task_id,
        relative_path: a.relative_path,
        change_kind: kind,
        secondary_hash: match a.snapshot {
            Some(s) => s.blake3_hash,
            None => None,
        },
        secondary_hash_status: match a.snapshot {
            Some(s) => s.hash_status,
            None => HashStatus::Unavailable,
        },
        secondary_modified_unix_ms: match a.snapshot {
            Some(s) => s.modified_unix_ms,
            None => now,
        },
        created_unix_ms: now,
    }
}

/// The pending change to record for a secondary-side change, or the
/// failure when the action carries neither a scan nor a baseline.
pub fn pending_change_for(action: &PlannedAction, task_id: u128, now: i64) -> (r: Result<PendingReturnChange, ExecutionResult>)
    ensures
        match r {
            Ok(c) => pending_kind(*action) matches Some(k) && c == pending_change_spec(*action, k, task_id, now),
            Err(e) => pending_kind(*action) is None && !e.success && !e.retryable
                && e.relative_path@ == action.relative_path@
                && opt_view(e.error) == Some("no snapshot or baseline for pending return"@),
        },
{
    let kind = match (&action.snapshot, &action.baseline) {
        (None, Some(_)) => ChangeKind::Deleted,
        (Some(_), Some(_)) => ChangeKind::Modified,
        (Some(_), None) => ChangeKind::Created,
        (None, None) => {
            return Err(network_error(action.relative_path.as_str(), "no snapshot or baseline for pending return", false));
        },
    };
    let (hash, status, mtime) = match &action.snapshot {
        Some(s) => (opt_string_copy(&s.blake3_hash), s.hash_status, s.modified_unix_ms),
        None => (None, HashStatus::Unavailable, now),
    };
    Ok(PendingReturnChange {
        task_id,
        relative_path: action.relative_path.clone(),
        change_kind: kind,
        secondary_hash: hash,
        secondary_hash_status: status,
        secondary_modified_unix_ms: mtime,
        created_unix_ms: now,
    })
}

/// The baseline recorded when `snap` reached the other side with `hash`.
pub open spec fn synced_baseline_spec(
    task_id: u128,
    relative_path: String,
    snap: FileSnapshot,
    hash: Option<String>,
    status: HashStatus,
    now: i64,
) -> SyncBaseline {
    SyncBaseline {
        task_id,
        relative_path,
        primary_hash: hash,
        primary_hash_status: status,
        primary_size: snap.size,
        secondary_size: snap.size,
        primary_modified_unix_ms: snap.modified_unix_ms,
        secondary_hash: hash,
        secondary_hash_status: status,
        secondary_modified_unix_ms: snap.modified_unix_ms,
        last_synced_unix_ms: now,
    }
}

/// The baseline recorded after a copy of `snap` succeeded.
pub fn synced_baseline(
    task_id: u128,
    relative_path: &str,
    snap: &FileSnapshot,
    hash: Option<String>,
    status: HashStatus,
    now: i64,
) -> (r: SyncBaseline)
    ensures
        r.relative_path@ == relative_path@,
        r == synced_baseline_spec(task_id, r.relative_path, *snap, hash, status, now),
{
    SyncBaseline {
        task_id,
        relative_path: crate::text::to_owned_string(relative_path),
        primary_hash: opt_string_copy(&hash),
        primary_hash_status: status,
        primary_size: snap.size,
        secondary_size: snap.size,
        primary_modified_unix_ms: snap.modified_unix_ms,
        secondary_hash: hash,
        secondary_hash_status: status,
        secondary_modified_unix_ms: snap.modified_unix_ms,
        last_synced_unix_ms: now,
    }
}

/// The baseline recorded when a file restored locally from history becomes
/// the agreed state of both sides: the snapshot's own hash, size and time.
pub fn baseline_from_local_restore(snapshot: &FileSnapshot, now: i64) -> (r: SyncBaseline)
    ensures
        r.relative_path == snapshot.relative_path,
        r == synced_baseline_spec(
            snapshot.task_id,
            snapshot.relative_path,
            *snapshot,
            snapshot.blake3_hash,
            snapshot.hash_status,
            now,
        ),
{
    SyncBaseline {
        task_id: snapshot.task_id,
        relative_path: snapshot.relative_path.clone(),
        primary_hash: crate::model::opt_string_copy(&snapshot.blake3_hash),
        primary_hash_status: snapshot.hash_status,
        primary_size: snapshot.size,
        secondary_size: snapshot.size,
        primary_modified_unix_ms: snapshot.modified_unix_ms,
        secondary_hash: crate::model::opt_string_copy(&snapshot.blake3_hash),
        secondary_hash_status: snapshot.hash_status,
        secondary_modified_unix_ms: snapshot.modified_unix_ms,
        last_synced_unix_ms: now,
    }
}

/// Whether the file must be hashed to verify a successful apply: only when
/// neither the transfer nor the scan gave a verified hash.
pub open spec fn needs_file_hash_spec(snap: FileSnapshot, transferred: Option<Seq<char>>) -> bool {
    transferred is None && snap.hash_status != HashStatus::Verified
}

/// Whether the applied file must be hashed before its baseline is recorded.
pub fn needs_file_hash(snap: &FileSnapshot, transferred_hash: Option<&str>) -> (r: bool)
    ensures
        r == needs_file_hash_spec(*snap, match transferred_hash {
            Some(h) => Some(h@),
            None => None,
        }),
{
    transferred_hash.is_none() && snap.hash_status != HashStatus::Verified
}

/// The hash recorded for an applied file: the transfer's, else the scan's
/// verified one, else one computed from the file (`file_hash`), else the
/// scan's unverified state.
pub open spec fn verified_hash_spec(
    snap: FileSnapshot,
    transferred: Option<Seq<char>>,
    file_hash: Option<Seq<char>>,
) -> (Option<Seq<char>>, HashStatus) {
    match transferred {
        Some(h) => (Some(h), HashStatus::Verified),
        None => if snap.hash_status == HashStatus::Verified {
            (opt_view(snap.blake3_hash), snap.hash_status)
        } else {
            match file_hash {
                Some(h) => (Some(h), HashStatus::Verified),
                None => (opt_view(snap.blake3_hash), snap.hash_status),
            }
        },
    }
}

/// The hash and status to record after applying `snap`.
pub fn verified_hash_for_successful_apply(
    snap: &FileSnapshot,
    transferred_hash: Option<&str>,
    file_hash: Option<&str>,
) -> (r: (Option<String>, HashStatus))
    ensures
        (opt_view(r.0), r.1) == verified_hash_spec(*snap, match transferred_hash {
            Some(h) => Some(h@),
            None => None,
        }, match file_hash {
            Some(h) => Some(h@),
            None => None,
        }),
{
    if let Some(h) = transferred_hash {
        return (Some(crate::text::to_owned_string(h)), HashStatus::Verified);
    }
    if snap.hash_status == HashStatus::Verified {
        return (opt_string_copy(&snap.blake3_hash), snap.hash_status);
    }
    match file_hash {
        Some(h) => (Some(crate::text::to_owned_string(h)), HashStatus::Verified),
        None => (opt_string_copy(&snap.blake3_hash), snap.hash_status),
    }
}

/// The baseline recorded after a pending change was returned to the
/// primary, whose copy now has `primary_size` bytes.
pub open spec fn returned_baseline_spec(c: PendingReturnChange, primary_size: i64, now: i64) -> SyncBaseline {
    SyncBaseline {
        task_id: c.task_id,
        relative_path: c.relative_path,
        primary_hash: c.secondary_hash,
        primary_hash_status: c.secondary_hash_status,
        primary_size,
        secondary_size: primary_size,
        primary_modified_unix_ms: c.secondary_modified_unix_ms,
        secondary_hash: c.secondary_hash,
        secondary_hash_status: c.secondary_hash_status,
        secondary_modified_unix_ms: c.secondary_modified_unix_ms,
        last_synced_unix_ms: now,
    }
}

/// The baseline after a successful return of `change`.
pub fn returned_baseline(change: &PendingReturnChange, primary_size: i64, now: i64) -> (r: SyncBaseline)
    ensures
        r == returned_baseline_spec(*change, primary_size, now),
{
    SyncBaseline {
        task_id: change.task_id,
        relative_path: change.relative_path.clone(),
        primary_hash: opt_string_copy(&change.secondary_hash),
        primary_hash_status: change.secondary_hash_status,
        primary_size,
        secondary_size: primary_size,
        primary_modified_unix_ms: change.secondary_modified_unix_ms,
        secondary_hash: opt_string_copy(&change.secondary_hash),
        secondary_hash_status: change.secondary_hash_status,
        secondary_modified_unix_ms: change.secondary_modified_unix_ms,
        last_synced_unix_ms: now,
    }
}

/// Suffix of the temporary file a copy is written to before it is renamed.
pub const PARTIAL_SUFFIX: &'static str = ".lanbridge-partial";

/// The temporary path a copy to `dest` is written to.
pub fn partial_path(dest: &str) -> (r: String)
    ensures
        r@ == dest@ + PARTIAL_SUFFIX@,
{
    crate::text::concat_str(dest, PARTIAL_SUFFIX)
}

/// The verdict on a finished copy, from the expected and the actual hash and size.
pub open spec fn copy_verdict(
    expected_hash: Option<Seq<char>>,
    expected_status: HashStatus,
    expected_size: Option<i64>,
    actual_hash: Option<Seq<char>>,
    actual_size: Option<i64>,
) -> Option<Seq<char>> {
    if expected_status == HashStatus::Verified && expected_hash is None {
        Some("missing expected hash"@)
    } else if expected_status == HashStatus::Verified && actual_hash != expected_hash {
        Some("hash mismatch after copy"@)
    } else if expected_size is Some && actual_size != expected_size {
        Some("size mismatch after copy"@)
    } else {
        None
    }
}

/// Checks a copied file: its hash when the expected one is verified, its
/// size when one is expected. `actual_hash` and `actual_size` are what the
/// copy turned out to be (absent when they were not measured).
pub fn verify_copied_file(
    expected_hash: Option<&str>,
    expected_status: HashStatus,
    expected_size: Option<i64>,
    actual_hash: Option<&str>,
    actual_size: Option<i64>,
) -> (r: Result<(), String>)
    ensures
        match r {
            Ok(()) => copy_verdict(
                match expected_hash { Some(h) => Some(h@), None => None },
                expected_status,
                expected_size,
                match actual_hash { Some(h) => Some(h@), None => None },
                actual_size,
            ) is None,
            Err(e) => copy_verdict(
                match expected_hash { Some(h) => Some(h@), None => None },
                expected_status,
                expected_size,
                match actual_hash { Some(h) => Some(h@), None => None },
                actual_size,
            ) == Some(e@),
        },
{
    if expected_status == HashStatus::Verified {
        let expected = match expected_hash {
            Some(h) => h,
            None => {
                return Err(crate::text::to_owned_string("missing expected hash"));
            },
        };
        let same = match actual_hash {
            Some(a) => crate::text::str_eq(a, expected),
            None => false,
        };
        if !same {
            return Err(crate::text::to_owned_string("hash mismatch after copy"));
        }
    }
    if let Some(size) = expected_size {
        let same = match actual_size {
            Some(a) => a == size,
            None => false,
        };
        if !same {
            return Err(crate::text::to_owned_string("size mismatch after copy"));
        }
    }
    Ok(())
}

/// Law: once a file's sync is recorded with the scanned hash, neither side
/// sees it as changed, so the next plan does not copy it again.
pub proof fn law_synced_file_is_quiet(task_id: u128, relative_path: String, snap: FileSnapshot, now: i64, role: crate::model::DeviceRole)
    ensures
        !changed_since(
            snap,
            synced_baseline_spec(task_id, relative_path, snap, snap.blake3_hash, snap.hash_status, now),
            role,
        ),
{
}

/// The baseline recorded once a confirmed overwrite has put the secondary's
/// version in place on the primary: both sides hold the new file, with the
/// size and hash it has now, timed at `now`.
pub open spec fn overwritten_baseline_spec(
    task_id: u128,
    relative_path: String,
    size: i64,
    hash: Option<String>,
    status: HashStatus,
    now: i64,
) -> SyncBaseline {
    SyncBaseline {
        task_id,
        relative_path,
        primary_hash: hash,
        primary_hash_status: status,
        primary_size: size,
        secondary_size: size,
        primary_modified_unix_ms: now,
        secondary_hash: hash,
        secondary_hash_status: status,
        secondary_modified_unix_ms: now,
        last_synced_unix_ms: now,
    }
}

/// The baseline after a confirmed overwrite.
pub fn overwritten_baseline(
    task_id: u128,
    relative_path: &str,
    size: i64,
    hash: Option<String>,
    status: HashStatus,
    now: i64,
) -> (r: SyncBaseline)
    ensures
        r.relative_path@ == relative_path@,
        r == overwritten_baseline_spec(task_id, r.relative_path, size, hash, status, now),
{
    SyncBaseline {
        task_id,
        relative_path: crate::text::to_owned_string(relative_path),
        primary_hash: opt_string_copy(&hash),
        primary_hash_status: status,
        primary_size: size,
        secondary_size: size,
        primary_modified_unix_ms: now,
        secondary_hash: hash,
        secondary_hash_status: status,
        secondary_modified_unix_ms: now,
        last_synced_unix_ms: now,
    }
}

/// What a confirmed overwrite checks the copied file against: the hash and
/// status the pending change for the path recorded, or no hash when none is
/// recorded.
pub fn overwrite_expectation(pending: &[PendingReturnChange], relative_path: &str) -> (r: (Option<String>, HashStatus))
    ensures
        r == match crate::lookup::entry_for(pending@, crate::lookup::pending_key(), relative_path@) {
            Some(c) => (c.secondary_hash, c.secondary_hash_status),
            None => (None::<String>, HashStatus::Unavailable),
        },
{
    proof {
        crate::lookup::lemma_last_index_bounds(pending@, crate::lookup::pending_key(), relative_path@);
    }
    match crate::lookup::find_pending(pending, relative_path) {
        Some(i) => (opt_string_copy(&pending[i].secondary_hash), pending[i].secondary_hash_status),
        None => (None, HashStatus::Unavailable),
    }
}

/// What happened at the last step of a confirmed overwrite.
pub enum OverwriteEvent {
    /// The overwrite was asked for: whether the secondary's copy is a file,
    /// and whether the primary has a file at the path now.
    Start { secondary_is_file: bool, primary_exists: bool },
    /// History was checked for room (the error says why there is none).
    HistoryChecked(Result<(), String>),
    /// The primary's old file was moved into history, or could not be.
    BackedUp(Result<(), String>),
    /// The secondary's version was copied into place and checked, or not.
    Copied(Result<(), String>),
    /// The new baseline was recorded, or could not be.
    Recorded(Result<(), String>),
}

/// What a confirmed overwrite does next.
pub enum OverwriteStep {
    /// Stop with this result.
    Finish(ExecutionResult),
    /// Check that history has room for the primary's old file.
    CheckHistory,
    /// Move the primary's old file into history.
    BackUpPrimary,
    /// Copy the secondary's version over the path, checked against the pending change.
    CopySecondary,
    /// Record the baseline of the new file and drop the pending change.
    RecordBaseline,
}

/// The next step as plain values: 0 finish, 1 check history, 2 back up,
/// 3 copy, 4 record; and for a finish, its success, message and retry flag.
pub open spec fn overwrite_step_spec(event: OverwriteEvent) -> (int, bool, Option<Seq<char>>, bool) {
    match event {
        OverwriteEvent::Start { secondary_is_file, primary_exists } => if !secondary_is_file {
            (0, false, Some("secondary file missing"@), true)
        } else if primary_exists {
            (1, false, None, false)
        } else {
            (3, false, None, false)
        },
        OverwriteEvent::HistoryChecked(res) => match res {
            Ok(()) => (2, false, None, false),
            Err(e) => (0, false, Some(e@), false),
        },
        OverwriteEvent::BackedUp(res) => match res {
            Ok(()) => (3, false, None, false),
            Err(e) => (0, false, Some("backup failed: "@ + e@), crate::retry::retryable_io(e@)),
        },
        OverwriteEvent::Copied(res) => match res {
            Ok(()) => (4, false, None, false),
            Err(e) => (0, false, Some(e@), true),
        },
        OverwriteEvent::Recorded(res) => match res {
            Ok(()) => (0, true, None, false),
            Err(e) => (0, false, Some("overwrite baseline update failed: "@ + e@), true),
        },
    }
}

/// The number of an overwrite step.
pub open spec fn overwrite_step_kind(s: OverwriteStep) -> int {
    match s {
        OverwriteStep::Finish(_) => 0,
        OverwriteStep::CheckHistory => 1,
        OverwriteStep::BackUpPrimary => 2,
        OverwriteStep::CopySecondary => 3,
        OverwriteStep::RecordBaseline => 4,
    }
}

/// Decides the next step of a confirmed overwrite of `relative_path` on the
/// primary, from what the last step gave.
pub fn next_overwrite_step(relative_path: &str, event: OverwriteEvent) -> (r: OverwriteStep)
    ensures
        overwrite_step_kind(r) == overwrite_step_spec(event).0,
        r matches OverwriteStep::Finish(res) ==> outcome(res) == (
            relative_path@,
            overwrite_step_spec(event).1,
            overwrite_step_spec(event).2,
            overwrite_step_spec(event).3,
        ),
{
    match event {
        OverwriteEvent::Start { secondary_is_file, primary_exists } => {
            if !secondary_is_file {
                OverwriteStep::Finish(network_error(relative_path, "secondary file missing", true))
            } else if primary_exists {
                OverwriteStep::CheckHistory
            } else {
                OverwriteStep::CopySecondary
            }
        },
        OverwriteEvent::HistoryChecked(res) => match res {
            Ok(()) => OverwriteStep::BackUpPrimary,
            Err(e) => OverwriteStep::Finish(network_error(relative_path, e.as_str(), false)),
        },
        OverwriteEvent::BackedUp(res) => match res {
            Ok(()) => OverwriteStep::CopySecondary,
            Err(e) => {
                let message = crate::text::concat_str("backup failed: ", e.as_str());
                let retry = crate::retry::is_retryable_error(e.as_str());
                OverwriteStep::Finish(network_error(relative_path, message.as_str(), retry))
            },
        },
        OverwriteEvent::Copied(res) => match res {
            Ok(()) => OverwriteStep::RecordBaseline,
            Err(e) => OverwriteStep::Finish(network_error(relative_path, e.as_str(), true)),
        },
        OverwriteEvent::Recorded(res) => match res {
            Ok(()) => OverwriteStep::Finish(success_result(relative_path)),
            Err(e) => {
                let message = crate::text::concat_str("overwrite baseline update failed: ", e.as_str());
                OverwriteStep::Finish(network_error(relative_path, message.as_str(), true))
            },
        },
    }
}

/// Law: a confirmed overwrite never replaces the primary's file before
/// keeping it: when the primary has a file, the copy comes only after the
/// history check and the backup both succeeded; a failed check or backup
/// ends the overwrite with the file untouched.
pub proof fn law_primary_is_kept_before_overwrite(secondary_is_file: bool, check: Result<(), String>, backup: Result<(), String>)
    ensures
        overwrite_step_spec(OverwriteEvent::Start { secondary_is_file, primary_exists: true }).0 != 3,
        overwrite_step_spec(OverwriteEvent::HistoryChecked(check)).0 == (if check is Ok { 2int } else { 0int }),
        overwrite_step_spec(OverwriteEvent::BackedUp(backup)).0 == (if backup is Ok { 3int } else { 0int }),
        forall|e: OverwriteEvent| #[trigger] overwrite_step_spec(e).0 == 3 ==> (e matches OverwriteEvent::BackedUp(res) && res is Ok)
            || (e matches OverwriteEvent::Start { secondary_is_file: s, primary_exists: p } && s && !p),
{
}

/// Law: the change a secondary records for return says what happened to the
/// path since the last sync: deleted exactly when only the baseline is left,
/// modified exactly when the path was synced before and is still there, and
/// created exactly when it was never synced. Only an action with neither a
/// scan nor a baseline records nothing.
pub proof fn law_pending_kind_tells_what_happened(a: PlannedAction)
    ensures
        (pending_kind(a) == Some(ChangeKind::Deleted)) == (a.snapshot is None && a.baseline is Some),
        (pending_kind(a) == Some(ChangeKind::Modified)) == (a.snapshot is Some && a.baseline is Some),
        (pending_kind(a) == Some(ChangeKind::Created)) == (a.snapshot is Some && a.baseline is None),
        (pending_kind(a) is None) == (a.snapshot is None && a.baseline is None),
{
}

} // verus!
