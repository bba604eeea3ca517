//! One sync run of a task: the actions it plans, and its results when the
//! peer's scan could not be had.
use vstd::prelude::*;
use crate::actions::{
    append_recovered_delete_actions, by_priority, compress_directory_delete_actions, compressed,
    recovered_deletes, sort_actions_by_priority,
};
use crate::executor::{network_error, outcome, ExecutionResult};
use crate::model::{DeviceRole, FileSnapshot, SyncBaseline, SyncDecision};
use crate::planner::{plan_spec, plan_sync, PlannedAction};

verus! {

/// The actions a run takes before it looks at the peer: the plan, on a
/// primary also deletes of entries that vanished with no baseline, with
/// deletes below deleted directories dropped, in priority order.
pub open spec fn run_actions_spec(
    snapshots: Seq<FileSnapshot>,
    cached: Seq<FileSnapshot>,
    baselines: Seq<SyncBaseline>,
    role: DeviceRole,
) -> Seq<PlannedAction> {
    let planned = plan_spec(snapshots, baselines, role);
    let all = match role {
        DeviceRole::Primary => planned + recovered_deletes(planned, cached, snapshots, baselines),
        DeviceRole::Secondary => planned,
    };
    by_priority(compressed(all))
}

/// Plans a run from the current scan, the previous scan and the baselines.
pub fn plan_run_actions(
    snapshots: &[FileSnapshot],
    cached: &[FileSnapshot],
    baselines: &[SyncBaseline],
    role: DeviceRole,
) -> (r: Vec<PlannedAction>)
    ensures
        r@ == run_actions_spec(snapshots@, cached@, baselines@, role),
{
    let mut actions = plan_sync(snapshots, baselines, role);
    match role {
        DeviceRole::Primary => {
            let _added = append_recovered_delete_actions(&mut actions, cached, snapshots, baselines);
        },
        DeviceRole::Secondary => {},
    }
    let actions = compress_directory_delete_actions(actions);
    sort_actions_by_priority(actions)
}

/// The message every action fails with when the peer's scan failed.
pub open spec fn scan_failure_message(error: Seq<char>) -> Seq<char> {
    "remote scan failed: "@ + error
}

/// On a primary whose peer scan failed, every action fails, to be retried.
pub fn scan_failure_results(actions: &[PlannedAction], error: &str) -> (r: Vec<ExecutionResult>)
    ensures
        r@.len() == actions@.len(),
        forall|i: int| 0 <= i < actions@.len() ==>
            outcome(#[trigger] r@[i]) == (actions@[i].relative_path@, false, Some(scan_failure_message(error@)), true),
{
    let message = crate::text::concat_str("remote scan failed: ", error);
    let mut out: Vec<ExecutionResult> = Vec::new();
    let mut i: usize = 0;
    while i < actions.len()
        invariant
            i <= actions@.len(),
            message@ == scan_failure_message(error@),
            out@.len() == i,
            forall|k: int| 0 <= k < i ==>
                outcome(#[trigger] out@[k]) == (actions@[k].relative_path@, false, Some(scan_failure_message(error@)), true),
        decreases actions.len() - i,
    {
        out.push(network_error(actions[i].relative_path.as_str(), message.as_str(), true));
        i = i + 1;
    }
    out
}

/// On a secondary whose peer scan failed, local changes were recorded but
/// cannot be offered for return: their successes become retryable failures.
pub fn fail_pending_marks_after_scan_error(
    actions: &[PlannedAction],
    results: &mut Vec<ExecutionResult>,
    error: &str,
)
    ensures
        final(results)@.len() == old(results)@.len(),
        forall|i: int| 0 <= i < old(results)@.len() ==> #[trigger] outcome(final(results)@[i]) == (if i < actions@.len()
            && actions@[i].decision == SyncDecision::MarkPendingReturn && old(results)@[i].success {
            (old(results)@[i].relative_path@, false, Some(scan_failure_message(error@)), true)
        } else {
            outcome(old(results)@[i])
        }),
{
    let message = crate::text::concat_str("remote scan failed: ", error);
    let ghost start = results@;
    let mut i: usize = 0;
    while i < results.len() && i < actions.len()
        invariant
            i <= results@.len(),
            i <= actions@.len(),
            results@.len() == start.len(),
            message@ == scan_failure_message(error@),
            forall|k: int| 0 <= k < i ==> #[trigger] outcome(results@[k]) == (if actions@[k].decision
                == SyncDecision::MarkPendingReturn && start[k].success {
                (start[k].relative_path@, false, Some(scan_failure_message(error@)), true)
            } else {
                outcome(start[k])
            }),
            forall|k: int| i <= k < results@.len() ==> #[trigger] results@[k] == start[k],
        decreases results.len() - i,
    {
        let is_mark = match actions[i].decision {
            SyncDecision::MarkPendingReturn => true,
            _ => false,
        };
        if is_mark && results[i].success {
            let path = crate::text::to_owned_string(results[i].relative_path.as_str());
            let failed = ExecutionResult {
                relative_path: path,
                success: false,
                error: Some(crate::text::to_owned_string(message.as_str())),
                retryable: true,
            };
            results.set(i, failed);
        }
        i = i + 1;
    }
    assert forall|k: int| 0 <= k < start.len() implies #[trigger] outcome(results@[k]) == (if k < actions@.len()
        && actions@[k].decision == SyncDecision::MarkPendingReturn && start[k].success {
        (start[k].relative_path@, false, Some(scan_failure_message(error@)), true)
    } else {
        outcome(start[k])
    }) by {
        if k >= i {
            assert(results@[k] == start[k]);
        }
    }
}

} // verus!
