use lanbridge::actions::remote_delete_safety_error;
use lanbridge::digest::hash_hex;
use lanbridge::executor::verified_hash_for_successful_apply;
use lanbridge::history::collapse_history_folder_entries;
use lanbridge::model::{
    ChangeKind, DeviceRole, EntryKind, FileSnapshot, HashStatus, HistoryEntry, HistoryReason, PairedDevice,
    PendingReturnChange, RemoteFileState, SyncBaseline, SyncDecision, SyncTask,
};
use lanbridge::network::ensure_not_local_device;
use lanbridge::planner::PlannedAction;
use lanbridge::return_sync::{conflict_infos_from_maps, remote_file_state_to_snapshot, secondary_return_conflict};
use lanbridge::scanner::EAGER_HASH_LIMIT;
use lanbridge::tasks::{
    ensure_paired_device_public_key_matches, metadata_delta, parse_device_role, sweep_reasons,
    validate_no_overlapping_task_roots,
};

fn task_with_local_path(path: &str) -> SyncTask {
    SyncTask {
        id: 7,
        name: "task".to_string(),
        primary_device_id: "primary".to_string(),
        secondary_device_id: "secondary".to_string(),
        local_path: path.to_string(),
        remote_path: String::new(),
        local_role: DeviceRole::Primary,
        enabled: true,
        created_unix_ms: 0,
        updated_unix_ms: 0,
    }
}

#[test]
fn parse_device_role_rejects_unknown_role() {
    let result = parse_device_role("Mirror");
    assert!(result.is_err());
    assert_eq!(parse_device_role("Primary"), Ok(DeviceRole::Primary));
    assert_eq!(parse_device_role("Secondary"), Ok(DeviceRole::Secondary));
}

#[test]
fn task_roots_reject_nested_local_path() {
    let existing = vec![task_with_local_path("C:/Sync/Main")];
    let result = validate_no_overlapping_task_roots(&existing, "C:/Sync/Main/Child", false);
    assert!(result.is_err());
}

#[test]
fn task_roots_reject_parent_local_path() {
    let existing = vec![task_with_local_path("C:/Sync/Main/Child")];
    let result = validate_no_overlapping_task_roots(&existing, "C:/Sync/Main", false);
    assert!(result.is_err());
}

#[test]
fn task_roots_allow_siblings_and_fold_case_on_windows() {
    let existing = vec![task_with_local_path("C:/Sync/Main")];
    assert!(validate_no_overlapping_task_roots(&existing, "C:/Sync/Main2", false).is_ok());
    assert!(validate_no_overlapping_task_roots(&existing, "c:\\sync\\main\\x", false).is_ok());
    assert_eq!(
        validate_no_overlapping_task_roots(&existing, "c:\\sync\\main\\x", true),
        Err("sync folder overlaps with existing task 'task'".to_string())
    );
}

#[test]
fn paired_device_public_key_mismatch_is_rejected() {
    let stored = PairedDevice {
        device_id: "peer-1".to_string(),
        display_name: "Peer".to_string(),
        public_key: vec![1; 32],
        last_seen_unix_ms: 1,
        trusted: true,
        last_address: None,
    };
    let result = ensure_paired_device_public_key_matches(Some(&stored), "peer-1", &[2; 32]);
    assert!(result.unwrap_err().contains("public key changed"));
    assert_eq!(stored.public_key, vec![1; 32]);
    assert!(ensure_paired_device_public_key_matches(Some(&stored), "peer-1", &[1; 32]).is_ok());
    assert!(ensure_paired_device_public_key_matches(None, "peer-1", &[2; 32]).is_ok());
    assert!(ensure_paired_device_public_key_matches(Some(&stored), "peer-1", &[]).is_ok());
}

#[test]
fn collapse_history_folder_entries_hides_same_batch_children() {
    let task_id = 99;
    let parent = HistoryEntry {
        id: 1,
        task_id,
        original_relative_path: "folder".to_string(),
        stored_path: "/tmp/history/trash/batch/folder".to_string(),
        reason: HistoryReason::Trash,
        created_unix_ms: 2_000,
        size: 0,
    };
    let child = HistoryEntry {
        id: 2,
        task_id,
        original_relative_path: "folder/file.txt".to_string(),
        stored_path: "/tmp/history/trash/batch/folder/file.txt".to_string(),
        reason: HistoryReason::Trash,
        created_unix_ms: 2_000,
        size: 12,
    };
    let overwritten = HistoryEntry {
        id: 3,
        task_id,
        original_relative_path: "folder/old.txt".to_string(),
        stored_path: "/tmp/history/overwritten/3000/folder/old.txt".to_string(),
        reason: HistoryReason::Overwritten,
        created_unix_ms: 3_000,
        size: 9,
    };
    let collapsed = collapse_history_folder_entries(vec![child.clone(), overwritten.clone(), parent.clone()]);
    assert!(collapsed.iter().any(|entry| entry.id == parent.id));
    assert!(collapsed.iter().any(|entry| entry.id == overwritten.id));
    assert!(!collapsed.iter().any(|entry| entry.id == child.id));
}

#[test]
fn primary_missing_baseline_detects_file_moved_without_watcher_event() {
    assert_eq!(sweep_reasons(true, false), vec!["missing_baseline"]);
    assert_eq!(sweep_reasons(false, false), Vec::<&str>::new());
    assert_eq!(sweep_reasons(true, true), vec!["metadata_delta", "missing_baseline"]);
}

fn unverified_large(size: i64) -> FileSnapshot {
    FileSnapshot {
        task_id: 7,
        relative_path: "large.bin".to_string(),
        kind: EntryKind::File,
        size,
        modified_unix_ms: 0,
        blake3_hash: None,
        hash_status: HashStatus::UnverifiedLargeFile,
        deleted: false,
        is_symlink: false,
    }
}

#[test]
fn successful_apply_hashes_unverified_file_for_baseline() {
    let snap = unverified_large(8);
    let file_hash = hash_hex(b"contents");
    let (hash, status) = verified_hash_for_successful_apply(&snap, None, Some(&file_hash));
    assert_eq!(status, HashStatus::Verified);
    assert_eq!(hash, Some(blake3::hash(b"contents").to_hex().to_string()));
}

#[test]
fn successful_apply_reuses_transferred_hash_for_baseline() {
    let snap = unverified_large(EAGER_HASH_LIMIT + 1);
    let _action = PlannedAction {
        relative_path: "large.bin".to_string(),
        decision: SyncDecision::ApplyToSecondary,
        snapshot: Some(snap.clone()),
        baseline: None,
    };
    let (hash, status) = verified_hash_for_successful_apply(&snap, Some("streamed-hash"), None);
    assert_eq!(status, HashStatus::Verified);
    assert_eq!(hash, Some("streamed-hash".to_string()));
}

#[test]
fn successful_apply_without_any_hash_stays_unverified() {
    let snap = unverified_large(8);
    let (hash, status) = verified_hash_for_successful_apply(&snap, None, None);
    assert_eq!(hash, None);
    assert_eq!(status, HashStatus::UnverifiedLargeFile);
}

fn old_snapshot() -> FileSnapshot {
    FileSnapshot {
        task_id: 0,
        relative_path: "folder/old.txt".to_string(),
        kind: EntryKind::File,
        size: 3,
        modified_unix_ms: 1,
        blake3_hash: Some("hash".to_string()),
        hash_status: HashStatus::Verified,
        deleted: false,
        is_symlink: false,
    }
}

#[test]
fn metadata_delta_detects_new_and_missing_paths() {
    let old = vec![old_snapshot()];
    let same = vec![FileSnapshot { blake3_hash: None, hash_status: HashStatus::Unavailable, ..old[0].clone() }];
    assert!(!metadata_delta(&old, &same));
    assert!(metadata_delta(&old, &[]));
    let mut with_new = same.clone();
    with_new.push(FileSnapshot {
        task_id: 0,
        relative_path: "folder/new.txt".to_string(),
        kind: EntryKind::File,
        size: 4,
        modified_unix_ms: 2,
        blake3_hash: None,
        hash_status: HashStatus::Unavailable,
        deleted: false,
        is_symlink: false,
    });
    assert!(metadata_delta(&old, &with_new));
}

#[test]
fn recovered_delete_requires_verified_remote_match_without_baseline() {
    let hash = blake3::hash(b"same").to_hex().to_string();
    let action = PlannedAction {
        relative_path: "old.txt".to_string(),
        decision: SyncDecision::MoveSecondaryToHistory,
        snapshot: Some(FileSnapshot {
            task_id: 0,
            relative_path: "old.txt".to_string(),
            kind: EntryKind::File,
            size: 4,
            modified_unix_ms: 1,
            blake3_hash: Some(hash.clone()),
            hash_status: HashStatus::Verified,
            deleted: false,
            is_symlink: false,
        }),
        baseline: None,
    };
    let matching = RemoteFileState {
        relative_path: "old.txt".to_string(),
        kind: EntryKind::File,
        blake3_hash: Some(hash),
        hash_status: HashStatus::Verified,
        size: 4,
        modified_unix_ms: 1,
    };
    assert_eq!(remote_delete_safety_error(&action, &[matching]), None);
    let changed = RemoteFileState {
        relative_path: "old.txt".to_string(),
        kind: EntryKind::File,
        blake3_hash: Some("changed".to_string()),
        hash_status: HashStatus::Verified,
        size: 4,
        modified_unix_ms: 1,
    };
    assert_eq!(
        remote_delete_safety_error(&action, &[changed]).as_deref(),
        Some("remote changed since last sync")
    );
}

#[test]
fn baseline_delete_defers_verified_large_file_check_to_receiver() {
    let baseline = SyncBaseline {
        task_id: 0,
        relative_path: "large.bin".to_string(),
        primary_hash: Some("hash".to_string()),
        primary_hash_status: HashStatus::Verified,
        primary_size: EAGER_HASH_LIMIT + 1,
        secondary_size: EAGER_HASH_LIMIT + 1,
        primary_modified_unix_ms: 1,
        secondary_hash: Some("hash".to_string()),
        secondary_hash_status: HashStatus::Verified,
        secondary_modified_unix_ms: 1,
        last_synced_unix_ms: 1,
    };
    let action = PlannedAction {
        relative_path: "large.bin".to_string(),
        decision: SyncDecision::MoveSecondaryToHistory,
        snapshot: None,
        baseline: Some(baseline),
    };
    let remote = RemoteFileState {
        relative_path: "large.bin".to_string(),
        kind: EntryKind::File,
        blake3_hash: None,
        hash_status: HashStatus::UnverifiedLargeFile,
        size: EAGER_HASH_LIMIT + 1,
        modified_unix_ms: 1,
    };
    assert_eq!(remote_delete_safety_error(&action, &[remote]), None);
}

fn pending_return(change_kind: ChangeKind) -> PendingReturnChange {
    PendingReturnChange {
        task_id: 0,
        relative_path: "file.txt".to_string(),
        change_kind,
        secondary_hash: Some("secondary_hash".to_string()),
        secondary_hash_status: HashStatus::Verified,
        secondary_modified_unix_ms: 2_000,
        created_unix_ms: 2_000,
    }
}

fn remote_primary(hash: Option<&str>, hash_status: HashStatus, size: i64, modified_unix_ms: i64) -> RemoteFileState {
    RemoteFileState {
        relative_path: "file.txt".to_string(),
        kind: EntryKind::File,
        blake3_hash: hash.map(str::to_string),
        hash_status,
        size,
        modified_unix_ms,
    }
}

fn baseline(hash: Option<&str>, hash_status: HashStatus, size: i64, modified_unix_ms: i64) -> SyncBaseline {
    SyncBaseline {
        task_id: 0,
        relative_path: "file.txt".to_string(),
        primary_hash: hash.map(str::to_string),
        primary_hash_status: hash_status,
        primary_size: size,
        secondary_size: size,
        primary_modified_unix_ms: modified_unix_ms,
        secondary_hash: Some("baseline_secondary_hash".to_string()),
        secondary_hash_status: HashStatus::Verified,
        secondary_modified_unix_ms: 1_000,
        last_synced_unix_ms: 1_000,
    }
}

#[test]
fn secondary_network_return_uses_fallback_when_primary_hash_unavailable() {
    let change = pending_return(ChangeKind::Modified);
    let remote = remote_primary(None, HashStatus::Unavailable, 200, 2_000);
    let base = baseline(None, HashStatus::Unavailable, 100, 1_000);
    let result = secondary_return_conflict("file.txt", &change, &[remote], &[base]);
    assert_eq!(result.as_deref(), Some("primary file changed since last sync"));
}

#[test]
fn secondary_network_return_allows_unverified_primary_when_size_and_mtime_match() {
    let change = pending_return(ChangeKind::Modified);
    let remote = remote_primary(None, HashStatus::Unavailable, 100, 1_000);
    let base = baseline(None, HashStatus::Unavailable, 100, 1_000);
    let result = secondary_return_conflict("file.txt", &change, &[remote], &[base]);
    assert_eq!(result, None);
}

#[test]
fn secondary_network_return_reports_primary_deleted_for_modified_pending() {
    let change = pending_return(ChangeKind::Modified);
    let base = baseline(Some("base_hash"), HashStatus::Verified, 100, 1_000);
    let result = secondary_return_conflict("file.txt", &change, &[], &[base]);
    assert_eq!(result.as_deref(), Some("primary file was deleted since last sync"));
}

#[test]
fn conflict_infos_allow_secondary_created_file_when_primary_missing() {
    let change = pending_return(ChangeKind::Created);
    let conflicts = conflict_infos_from_maps(&[change], &[], &[]);
    assert!(conflicts.is_empty());
}

#[test]
fn conflict_infos_report_secondary_created_file_when_primary_exists() {
    let change = pending_return(ChangeKind::Created);
    let primary = remote_file_state_to_snapshot(0, &remote_primary(Some("primary_hash"), HashStatus::Verified, 100, 1_000));
    let conflicts = conflict_infos_from_maps(&[change], &[primary], &[]);
    assert_eq!(conflicts.len(), 1);
    assert_eq!(conflicts[0].relative_path, "file.txt");
}

#[test]
fn conflict_infos_report_modified_file_when_primary_deleted() {
    let change = pending_return(ChangeKind::Modified);
    let base = baseline(Some("base_hash"), HashStatus::Verified, 100, 1_000);
    let conflicts = conflict_infos_from_maps(&[change], &[], &[base]);
    assert_eq!(conflicts.len(), 1);
    assert_eq!(conflicts[0].relative_path, "file.txt");
}

#[test]
fn reject_local_device_connection() {
    assert!(ensure_not_local_device("local", "local").is_err());
}

#[test]
fn allow_remote_device_connection() {
    assert!(ensure_not_local_device("local", "remote").is_ok());
}
