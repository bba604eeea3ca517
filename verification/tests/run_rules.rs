use lanbridge::executor::success_result;
use lanbridge::model::{
    ChangeKind, DeviceRole, EntryKind, FileSnapshot, HashStatus, PendingReturnChange, SyncBaseline, SyncDecision,
};
use lanbridge::persist::{
    mark_persist_failure, parent_directory_baselines, primary_record_for, pulled_records, return_record_for,
    PrimaryRecord, ReturnRecord,
};
use lanbridge::planner::PlannedAction;
use lanbridge::run::{fail_pending_marks_after_scan_error, plan_run_actions, scan_failure_results};
use lanbridge::tasks::new_sync_task;

fn file(path: &str, size: i64, hash: Option<&str>, status: HashStatus) -> FileSnapshot {
    FileSnapshot {
        task_id: 3,
        relative_path: path.to_string(),
        kind: EntryKind::File,
        size,
        modified_unix_ms: 50,
        blake3_hash: hash.map(str::to_string),
        hash_status: status,
        deleted: false,
        is_symlink: false,
    }
}

fn synced(path: &str) -> SyncBaseline {
    SyncBaseline {
        task_id: 3,
        relative_path: path.to_string(),
        primary_hash: Some("h".to_string()),
        primary_hash_status: HashStatus::Verified,
        primary_size: 1,
        secondary_size: 1,
        primary_modified_unix_ms: 50,
        secondary_hash: Some("h".to_string()),
        secondary_hash_status: HashStatus::Verified,
        secondary_modified_unix_ms: 50,
        last_synced_unix_ms: 1,
    }
}

#[test]
fn a_run_plans_recovered_deletes_and_orders_by_priority() {
    let big = file("big.bin", 20 * 1024 * 1024, Some("b"), HashStatus::Verified);
    let small = file("small.txt", 3, Some("s"), HashStatus::Verified);
    let kept = file("kept.txt", 1, Some("h"), HashStatus::Verified);
    let moved = file("moved.txt", 1, Some("m"), HashStatus::Verified);
    let snapshots = vec![big.clone(), small.clone(), kept.clone()];
    let cached = vec![moved.clone(), kept.clone()];
    let baselines = vec![synced("kept.txt"), synced("gone.txt")];
    let actions = plan_run_actions(&snapshots, &cached, &baselines, DeviceRole::Primary);
    let summary: Vec<(&str, SyncDecision)> = actions.iter().map(|a| (a.relative_path.as_str(), a.decision)).collect();
    assert_eq!(
        summary,
        vec![
            ("gone.txt", SyncDecision::MoveSecondaryToHistory),
            ("moved.txt", SyncDecision::MoveSecondaryToHistory),
            ("small.txt", SyncDecision::ApplyToSecondary),
            ("big.bin", SyncDecision::ApplyToSecondary),
        ]
    );
    let secondary = plan_run_actions(&snapshots, &cached, &baselines, DeviceRole::Secondary);
    assert!(secondary.iter().all(|a| a.decision == SyncDecision::MarkPendingReturn));
    assert!(!secondary.iter().any(|a| a.relative_path == "moved.txt"));
}

#[test]
fn failed_peer_scan_fails_every_primary_action() {
    let actions = vec![PlannedAction {
        relative_path: "a".to_string(),
        decision: SyncDecision::ApplyToSecondary,
        snapshot: None,
        baseline: None,
    }];
    let results = scan_failure_results(&actions, "timeout");
    assert_eq!(results.len(), 1);
    assert!(!results[0].success);
    assert!(results[0].retryable);
    assert_eq!(results[0].error.as_deref(), Some("remote scan failed: timeout"));
}

#[test]
fn failed_peer_scan_withholds_pending_marks_on_a_secondary() {
    let mark = PlannedAction {
        relative_path: "edit.txt".to_string(),
        decision: SyncDecision::MarkPendingReturn,
        snapshot: None,
        baseline: None,
    };
    let other = PlannedAction { decision: SyncDecision::Noop, relative_path: "x".to_string(), ..mark.clone() };
    let mut results = vec![success_result("edit.txt"), success_result("x")];
    fail_pending_marks_after_scan_error(&[mark, other], &mut results, "offline");
    assert!(!results[0].success);
    assert_eq!(results[0].error.as_deref(), Some("remote scan failed: offline"));
    assert!(results[1].success);
}

#[test]
fn primary_records_synced_files_with_their_parents() {
    let snap = file("a/b/c.txt", 9, None, HashStatus::UnverifiedLargeFile);
    let action = PlannedAction {
        relative_path: "a/b/c.txt".to_string(),
        decision: SyncDecision::ApplyToSecondary,
        snapshot: Some(snap),
        baseline: None,
    };
    match primary_record_for(&action, true, Some("streamed"), None, 3, 77) {
        PrimaryRecord::Synced { parents, baseline } => {
            let names: Vec<&str> = parents.iter().map(|p| p.relative_path.as_str()).collect();
            assert_eq!(names, vec!["a", "a/b"]);
            assert!(parents.iter().all(|p| p.primary_hash.is_none() && p.last_synced_unix_ms == 77));
            assert_eq!(baseline.primary_hash.as_deref(), Some("streamed"));
            assert_eq!(baseline.primary_hash_status, HashStatus::Verified);
            assert_eq!(baseline.secondary_size, 9);
        }
        _ => panic!("a successful copy is recorded"),
    }
    assert!(matches!(primary_record_for(&action, false, None, None, 3, 77), PrimaryRecord::Nothing));
    let delete = PlannedAction { decision: SyncDecision::MoveSecondaryToHistory, snapshot: None, ..action.clone() };
    assert!(matches!(primary_record_for(&delete, true, None, None, 3, 77), PrimaryRecord::ForgetTree));
    assert_eq!(parent_directory_baselines(3, "top.txt", 1).len(), 0);
}

#[test]
fn pulled_entries_need_a_verified_hash() {
    let (snap, parents, baseline) = pulled_records(3, "d/f.txt", false, 12, Some(40), None, Some("fh"), 99).unwrap();
    assert_eq!(snap.blake3_hash.as_deref(), Some("fh"));
    assert_eq!(snap.modified_unix_ms, 40);
    assert_eq!(parents.len(), 1);
    assert_eq!(baseline.secondary_modified_unix_ms, 40);
    assert!(pulled_records(3, "d/f.txt", false, 12, None, None, None, 99).is_none());
    let (dir, _, _) = pulled_records(3, "d", true, 4096, None, None, None, 99).unwrap();
    assert_eq!(dir.kind, EntryKind::Directory);
    assert_eq!(dir.size, 0);
    assert_eq!(dir.modified_unix_ms, 99);
}

#[test]
fn returns_record_baselines_or_forget_deletes() {
    let change = PendingReturnChange {
        task_id: 3,
        relative_path: "r.txt".to_string(),
        change_kind: ChangeKind::Modified,
        secondary_hash: Some("sh".to_string()),
        secondary_hash_status: HashStatus::Verified,
        secondary_modified_unix_ms: 5,
        created_unix_ms: 5,
    };
    match return_record_for(Some(&change), true, 10, 20) {
        ReturnRecord::Returned(b) => {
            assert_eq!(b.primary_hash.as_deref(), Some("sh"));
            assert_eq!(b.primary_size, 10);
            assert_eq!(b.last_synced_unix_ms, 20);
        }
        _ => panic!("a returned file gets a baseline"),
    }
    let deleted = PendingReturnChange { change_kind: ChangeKind::Deleted, ..change.clone() };
    assert!(matches!(return_record_for(Some(&deleted), true, 0, 20), ReturnRecord::ForgetDeleted));
    assert!(matches!(return_record_for(None, true, 0, 20), ReturnRecord::Nothing));
    assert!(matches!(return_record_for(Some(&change), false, 0, 20), ReturnRecord::Nothing));
}

#[test]
fn bookkeeping_failures_become_retryable() {
    let mut r = success_result("p");
    mark_persist_failure(&mut r, "baseline update", "disk I/O error");
    assert!(!r.success);
    assert!(r.retryable);
    assert_eq!(r.error.as_deref(), Some("baseline update failed: disk I/O error"));
}

#[test]
fn new_tasks_follow_the_local_role() {
    let t = new_sync_task(1, "Docs".to_string(), "/docs".to_string(), Some("  D:/Docs \n".to_string()), DeviceRole::Secondary, "me", "peer", 42);
    assert_eq!(t.primary_device_id, "peer");
    assert_eq!(t.secondary_device_id, "me");
    assert_eq!(t.remote_path, "D:/Docs");
    assert!(t.enabled);
    let p = new_sync_task(2, "X".to_string(), "/x".to_string(), None, DeviceRole::Primary, "me", "peer", 42);
    assert_eq!(p.primary_device_id, "me");
    assert_eq!(p.remote_path, "");
}
