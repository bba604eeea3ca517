//! What each sync action asks of the peer: the primary's pushes and
//! deletes, the secondary's pulls, and transfers the user deferred.
use vstd::prelude::*;
use crate::actions::{
    apply_conflict, delete_expectation_from_action, delete_safety, expectation_of, pull_conflict,
    remote_conflict, remote_delete_safety_error, secondary_pull_conflict, secondary_should_download,
    should_download, DeleteExpectation,
};
use crate::executor::{network_error, outcome, success_result, ExecutionResult};
use crate::model::{opt_view, EntryKind, FileSnapshot, RemoteFileState, SyncBaseline, SyncDecision};
use crate::planner::PlannedAction;
use crate::text::{concat_str, str_eq};

verus! {

/// A transfer the user deferred.
#[derive(Debug, Clone)]
pub struct DeferredTransferRecord {
    pub task_id: u128,
    pub relative_path: String,
    pub direction: String,
    pub reason: String,
    pub created_unix_ms: i64,
}

/// The key a deferred transfer is looked up by: path and direction on two lines.
pub open spec fn deferred_key(path: Seq<char>, direction: Seq<char>) -> Seq<char> {
    path + seq!['\n'] + direction
}

/// The lookup key of a deferred transfer.
pub fn deferred_transfer_key(relative_path: &str, direction: &str) -> (r: String)
    ensures
        r@ == deferred_key(relative_path@, direction@),
{
    let mut s = concat_str(relative_path, "\n");
    proof {
        reveal_strlit("\n");
    }
    crate::text::push_str(&mut s, direction);
    s
}

/// The keys of one task's deferred transfers, in record order.
pub open spec fn deferred_keys(records: Seq<DeferredTransferRecord>, task_id: u128) -> Seq<Seq<char>> {
    records.filter(|d: DeferredTransferRecord| d.task_id == task_id).map_values(
        |d: DeferredTransferRecord| deferred_key(d.relative_path@, d.direction@),
    )
}

/// The keys of the deferred transfers of `task_id`.
pub fn deferred_transfer_set(records: &[DeferredTransferRecord], task_id: u128) -> (r: Vec<String>)
    ensures
        r@.map_values(|k: String| k@) == deferred_keys(records@, task_id),
{
    let ghost pred = |d: DeferredTransferRecord| d.task_id == task_id;
    let ghost mk = |d: DeferredTransferRecord| deferred_key(d.relative_path@, d.direction@);
    let mut out: Vec<String> = Vec::new();
    let mut i: usize = 0;
    while i < records.len()
        invariant
            i <= records@.len(),
            pred == (|d: DeferredTransferRecord| d.task_id == task_id),
            mk == (|d: DeferredTransferRecord| deferred_key(d.relative_path@, d.direction@)),
            out@.map_values(|k: String| k@) == records@.take(i as int).filter(pred).map_values(mk),
        decreases records.len() - i,
    {
        let d = &records[i];
        proof {
            assert(records@.take(i + 1) =~= records@.take(i as int).push(*d));
            records@.take(i as int).lemma_filter_push(*d, pred);
        }
        let ghost before = out@.map_values(|k: String| k@);
        if d.task_id == task_id {
            let key = deferred_transfer_key(d.relative_path.as_str(), d.direction.as_str());
            out.push(key);
            assert(out@.map_values(|k: String| k@) =~= before.push(mk(*d)));
        }
        assert(records@.take(i as int).filter(pred).push(*d).map_values(mk) =~= before.push(mk(*d)));
        i = i + 1;
    }
    assert(records@.take(records@.len() as int) =~= records@);
    out
}

/// Whether the transfer of `relative_path` in `direction` was deferred.
pub fn is_path_deferred(deferred: &Vec<String>, relative_path: &str, direction: &str) -> (r: bool)
    ensures
        r == exists|j: int| 0 <= j < deferred@.len() && (#[trigger] deferred@[j])@ == deferred_key(relative_path@, direction@),
{
    let key = deferred_transfer_key(relative_path, direction);
    let mut j: usize = 0;
    while j < deferred.len()
        invariant
            j <= deferred@.len(),
            key@ == deferred_key(relative_path@, direction@),
            forall|m: int| 0 <= m < j ==> (#[trigger] deferred@[m])@ != key@,
        decreases deferred.len() - j,
    {
        if str_eq(deferred[j].as_str(), key.as_str()) {
            return true;
        }
        j = j + 1;
    }
    false
}

/// What the primary asks of the secondary for one action.
pub enum PrimaryStep {
    /// Nothing to send; the result is known.
    Finished(ExecutionResult),
    /// Create the directory on the secondary.
    CreateDirectory,
    /// Send the file.
    SendFile,
    /// Delete on the secondary, which checks the expectation first.
    SendDelete(Option<DeleteExpectation>),
}

/// The primary's step for an action, as plain values: 0 finished, 1
/// directory, 2 file, 3 delete; and for a finished one whether it succeeded
/// and its message.
pub open spec fn primary_step_spec(
    a: PlannedAction,
    remotes: Seq<RemoteFileState>,
    upload_deferred: bool,
) -> (int, bool, Option<Seq<char>>) {
    match a.decision {
        SyncDecision::ApplyToSecondary => match apply_conflict(a, remotes) {
            Some(e) => (0, false, Some(e)),
            None => if a.snapshot matches Some(s) && s.kind == EntryKind::Directory {
                (1, false, None)
            } else if upload_deferred {
                (0, false, Some("transfer deferred by user"@))
            } else if a.snapshot is None {
                (0, false, Some("no snapshot for apply action"@))
            } else {
                (2, false, None)
            },
        },
        SyncDecision::MoveSecondaryToHistory => match delete_safety(a, remotes) {
            Some(e) => (0, false, Some(e)),
            None => (3, false, None),
        },
        SyncDecision::RequireConflictDecision => (0, false, Some("conflict requires user decision"@)),
        SyncDecision::KeepBoth | SyncDecision::MarkPendingReturn => (
            0,
            false,
            Some("unsupported network action for primary sync"@),
        ),
        SyncDecision::Noop => (0, true, None),
    }
}

/// Decides what the primary sends for one action, given the secondary's
/// scan and whether the user deferred this upload.
pub fn plan_primary_step(action: &PlannedAction, remote_files: &[RemoteFileState], upload_deferred: bool) -> (r: PrimaryStep)
    ensures
        (match r {
            PrimaryStep::Finished(_) => 0int,
            PrimaryStep::CreateDirectory => 1int,
            PrimaryStep::SendFile => 2int,
            PrimaryStep::SendDelete(_) => 3int,
        }) == primary_step_spec(*action, remote_files@, upload_deferred).0,
        r matches PrimaryStep::Finished(res) ==> outcome(res) == (
            action.relative_path@,
            primary_step_spec(*action, remote_files@, upload_deferred).1,
            primary_step_spec(*action, remote_files@, upload_deferred).2,
            false,
        ),
        r matches PrimaryStep::SendDelete(x) ==> x == expectation_of(*action),
{
    let path = action.relative_path.as_str();
    match action.decision {
        SyncDecision::ApplyToSecondary => {
            match remote_conflict(action, remote_files) {
                Some(e) => {
                    return PrimaryStep::Finished(network_error(path, e.as_str(), false));
                },
                None => {},
            }
            let is_dir = match &action.snapshot {
                Some(s) => s.kind == EntryKind::Directory,
                None => false,
            };
            if is_dir {
                PrimaryStep::CreateDirectory
            } else if upload_deferred {
                PrimaryStep::Finished(network_error(path, "transfer deferred by user", false))
            } else if action.snapshot.is_none() {
                PrimaryStep::Finished(network_error(path, "no snapshot for apply action", false))
            } else {
                PrimaryStep::SendFile
            }
        },
        SyncDecision::MoveSecondaryToHistory => match remote_delete_safety_error(action, remote_files) {
            Some(e) => PrimaryStep::Finished(network_error(path, e.as_str(), false)),
            None => PrimaryStep::SendDelete(delete_expectation_from_action(action)),
        },
        SyncDecision::RequireConflictDecision => PrimaryStep::Finished(
            network_error(path, "conflict requires user decision", false),
        ),
        SyncDecision::KeepBoth | SyncDecision::MarkPendingReturn => PrimaryStep::Finished(
            network_error(path, "unsupported network action for primary sync", false),
        ),
        SyncDecision::Noop => PrimaryStep::Finished(success_result(path)),
    }
}

/// What the secondary does about one entry of the primary's scan.
pub enum PullStep {
    /// Already in place: nothing to do and nothing to report.
    Skip,
    /// Not pulled; the result is known.
    Finished(ExecutionResult),
    /// Create the directory locally.
    CreateDirectory,
    /// Download the file.
    Download,
}

/// The secondary's step for a remote entry, as plain values: 0 skip, 1
/// finished, 2 directory, 3 download; and a finished one's message.
/// `join_error` is why the entry's local path is unsafe, if it is.
pub open spec fn pull_step_spec(
    r: RemoteFileState,
    locals: Seq<FileSnapshot>,
    baselines: Seq<SyncBaseline>,
    join_error: Option<Seq<char>>,
    download_deferred: bool,
) -> (int, Option<Seq<char>>) {
    if !should_download(r, locals, baselines) {
        (0, None)
    } else if pull_conflict(r, locals, baselines) is Some {
        (1, pull_conflict(r, locals, baselines))
    } else if join_error is Some {
        (1, Some("invalid remote path: "@ + join_error.unwrap()))
    } else if r.kind == EntryKind::Directory {
        (2, None)
    } else if download_deferred {
        (1, Some("transfer deferred by user"@))
    } else {
        (3, None)
    }
}

/// Decides what the secondary does about one entry of the primary's scan.
pub fn plan_pull_step(
    remote: &RemoteFileState,
    locals: &[FileSnapshot],
    baselines: &[SyncBaseline],
    join_error: Option<&str>,
    download_deferred: bool,
) -> (r: PullStep)
    ensures
        (match r {
            PullStep::Skip => 0int,
            PullStep::Finished(_) => 1int,
            PullStep::CreateDirectory => 2int,
            PullStep::Download => 3int,
        }) == pull_step_spec(*remote, locals@, baselines@, match join_error {
            Some(e) => Some(e@),
            None => None,
        }, download_deferred).0,
        r matches PullStep::Finished(res) ==> outcome(res) == (
            remote.relative_path@,
            false,
            pull_step_spec(*remote, locals@, baselines@, match join_error {
                Some(e) => Some(e@),
                None => None,
            }, download_deferred).1,
            false,
        ),
{
    let path = remote.relative_path.as_str();
    if !secondary_should_download(remote, locals, baselines) {
        return PullStep::Skip;
    }
    match secondary_pull_conflict(remote, locals, baselines) {
        Some(e) => {
            return PullStep::Finished(network_error(path, e.as_str(), false));
        },
        None => {},
    }
    match join_error {
        Some(e) => {
            let msg = concat_str("invalid remote path: ", e);
            return PullStep::Finished(network_error(path, msg.as_str(), false));
        },
        None => {},
    }
    if remote.kind == EntryKind::Directory {
        return PullStep::CreateDirectory;
    }
    if download_deferred {
        return PullStep::Finished(network_error(path, "transfer deferred by user", false));
    }
    PullStep::Download
}

} // verus!
