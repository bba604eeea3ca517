use lanbridge::model::{ChangeKind, EntryKind, FileSnapshot, HashStatus, PendingReturnChange, RemoteFileState, SyncBaseline};
use lanbridge::executor::{next_overwrite_step, overwrite_expectation, overwritten_baseline, OverwriteEvent, OverwriteStep};
use lanbridge::return_sync::{plan_local_return_step, plan_return_step, LocalReturnStep, ReturnStep};

fn change(path: &str, kind: ChangeKind) -> PendingReturnChange {
    PendingReturnChange {
        task_id: 9,
        relative_path: path.to_string(),
        change_kind: kind,
        secondary_hash: Some("new".to_string()),
        secondary_hash_status: HashStatus::Verified,
        secondary_modified_unix_ms: 70,
        created_unix_ms: 80,
    }
}

fn primary(path: &str, hash: &str) -> FileSnapshot {
    FileSnapshot {
        task_id: 9,
        relative_path: path.to_string(),
        kind: EntryKind::File,
        size: 4,
        modified_unix_ms: 60,
        blake3_hash: Some(hash.to_string()),
        hash_status: HashStatus::Verified,
        deleted: false,
        is_symlink: false,
    }
}

fn remote(path: &str, hash: &str) -> RemoteFileState {
    RemoteFileState {
        relative_path: path.to_string(),
        kind: EntryKind::File,
        blake3_hash: Some(hash.to_string()),
        hash_status: HashStatus::Verified,
        size: 4,
        modified_unix_ms: 60,
    }
}

fn baseline(path: &str, hash: &str) -> SyncBaseline {
    SyncBaseline {
        task_id: 9,
        relative_path: path.to_string(),
        primary_hash: Some(hash.to_string()),
        primary_hash_status: HashStatus::Verified,
        primary_size: 4,
        secondary_size: 4,
        primary_modified_unix_ms: 60,
        secondary_hash: Some(hash.to_string()),
        secondary_hash_status: HashStatus::Verified,
        secondary_modified_unix_ms: 60,
        last_synced_unix_ms: 61,
    }
}

fn failure(step: LocalReturnStep) -> Option<String> {
    match step {
        LocalReturnStep::Finished(r) => r.error,
        _ => None,
    }
}

#[test]
fn an_unchanged_primary_takes_the_returned_file() {
    let pending = vec![change("a.txt", ChangeKind::Modified)];
    let step = plan_local_return_step("a.txt", &pending, &[primary("a.txt", "old")], &[baseline("a.txt", "old")]);
    match step {
        LocalReturnStep::CopyBack(c) => assert_eq!(c.relative_path, "a.txt"),
        _ => panic!("expected a copy back"),
    }
}

#[test]
fn a_primary_changed_since_the_last_sync_is_left_alone() {
    let pending = vec![change("a.txt", ChangeKind::Modified)];
    let step = plan_local_return_step("a.txt", &pending, &[primary("a.txt", "edited")], &[baseline("a.txt", "old")]);
    assert_eq!(failure(step).as_deref(), Some("conflict: primary file changed since last sync"));
}

#[test]
fn a_never_synced_primary_file_is_left_alone() {
    let pending = vec![change("a.txt", ChangeKind::Created)];
    let step = plan_local_return_step("a.txt", &pending, &[primary("a.txt", "x")], &[]);
    assert_eq!(failure(step).as_deref(), Some("conflict: primary file changed since last sync"));
}

#[test]
fn a_returned_delete_moves_the_primary_copy_to_history() {
    let pending = vec![change("a.txt", ChangeKind::Deleted)];
    let step = plan_local_return_step("a.txt", &pending, &[primary("a.txt", "old")], &[baseline("a.txt", "old")]);
    assert!(matches!(step, LocalReturnStep::RemoveToHistory));
}

#[test]
fn a_path_without_a_pending_change_is_not_returned() {
    let step = plan_local_return_step("b.txt", &[], &[], &[]);
    assert_eq!(failure(step).as_deref(), Some("pending change not found in database"));
}

#[test]
fn network_returns_upload_delete_or_stop() {
    let pending = vec![change("a.txt", ChangeKind::Modified), change("gone.txt", ChangeKind::Deleted)];
    let remotes = vec![remote("a.txt", "old"), remote("gone.txt", "g")];
    let baselines = vec![baseline("a.txt", "old"), baseline("gone.txt", "g")];
    assert!(matches!(plan_return_step("a.txt", &pending, &remotes, &baselines, false), ReturnStep::UploadEntry));
    assert!(matches!(plan_return_step("gone.txt", &pending, &remotes, &baselines, false), ReturnStep::SendDelete));
    match plan_return_step("a.txt", &pending, &remotes, &baselines, true) {
        ReturnStep::Finished(r) => assert_eq!(r.error.as_deref(), Some("transfer deferred by user")),
        _ => panic!("a deferred upload finishes at once"),
    }
    let edited = vec![remote("a.txt", "edited"), remote("gone.txt", "g")];
    match plan_return_step("a.txt", &pending, &edited, &baselines, false) {
        ReturnStep::Finished(r) => assert_eq!(r.error.as_deref(), Some("primary file changed since last sync")),
        _ => panic!("a changed primary stops the return"),
    }
}

#[test]
fn a_directory_with_pending_changes_below_is_returned_through_them() {
    let pending = vec![change("dir/a.txt", ChangeKind::Deleted), change("dir/b.txt", ChangeKind::Deleted)];
    assert!(matches!(plan_return_step("dir", &pending, &[], &[], false), ReturnStep::SendDelete));
    let mixed = vec![change("dir/a.txt", ChangeKind::Deleted), change("dir/b.txt", ChangeKind::Created)];
    assert!(matches!(plan_return_step("dir", &mixed, &[], &[], false), ReturnStep::CreateDirectory));
}

#[test]
fn a_confirmed_overwrite_checks_against_the_pending_change_and_records_both_sides() {
    let pending = vec![change("a.txt", ChangeKind::Modified)];
    assert_eq!(overwrite_expectation(&pending, "a.txt"), (Some("new".to_string()), HashStatus::Verified));
    assert_eq!(overwrite_expectation(&pending, "b.txt"), (None, HashStatus::Unavailable));
    let b = overwritten_baseline(9, "a.txt", 12, Some("h".to_string()), HashStatus::Verified, 500);
    assert_eq!((b.primary_size, b.secondary_size), (12, 12));
    assert_eq!((b.primary_hash.as_deref(), b.secondary_hash.as_deref()), (Some("h"), Some("h")));
    assert_eq!((b.primary_modified_unix_ms, b.secondary_modified_unix_ms, b.last_synced_unix_ms), (500, 500, 500));
}

#[test]
fn a_confirmed_overwrite_keeps_the_old_file_before_copying() {
    let start = |secondary_is_file, primary_exists| OverwriteEvent::Start { secondary_is_file, primary_exists };
    assert!(matches!(next_overwrite_step("a.txt", start(true, true)), OverwriteStep::CheckHistory));
    assert!(matches!(next_overwrite_step("a.txt", start(true, false)), OverwriteStep::CopySecondary));
    match next_overwrite_step("a.txt", start(false, true)) {
        OverwriteStep::Finish(r) => {
            assert_eq!(r.error.as_deref(), Some("secondary file missing"));
            assert!(r.retryable);
        }
        _ => panic!("a missing secondary file ends the overwrite"),
    }
    assert!(matches!(next_overwrite_step("a.txt", OverwriteEvent::HistoryChecked(Ok(()))), OverwriteStep::BackUpPrimary));
    assert!(matches!(next_overwrite_step("a.txt", OverwriteEvent::BackedUp(Ok(()))), OverwriteStep::CopySecondary));
    match next_overwrite_step("a.txt", OverwriteEvent::BackedUp(Err("file is locked".to_string()))) {
        OverwriteStep::Finish(r) => {
            assert_eq!(r.error.as_deref(), Some("backup failed: file is locked"));
            assert!(r.retryable);
        }
        _ => panic!("a failed backup ends the overwrite"),
    }
    match next_overwrite_step("a.txt", OverwriteEvent::BackedUp(Err("permission denied".to_string()))) {
        OverwriteStep::Finish(r) => assert!(!r.retryable),
        _ => panic!("a failed backup ends the overwrite"),
    }
    assert!(matches!(next_overwrite_step("a.txt", OverwriteEvent::Copied(Ok(()))), OverwriteStep::RecordBaseline));
    match next_overwrite_step("a.txt", OverwriteEvent::Recorded(Ok(()))) {
        OverwriteStep::Finish(r) => assert!(r.success),
        _ => panic!("recording ends the overwrite"),
    }
    match next_overwrite_step("a.txt", OverwriteEvent::Recorded(Err("busy".to_string()))) {
        OverwriteStep::Finish(r) => assert_eq!(r.error.as_deref(), Some("overwrite baseline update failed: busy")),
        _ => panic!("a failed record ends the overwrite"),
    }
}
