use lanbridge::coordinator::TaskDirtyTracker;
use lanbridge::model::{
    ChangeKind, DeviceRole, EntryKind, FileSnapshot, HashStatus, HistoryEntry, HistoryReason, LogEntry, LogLevel,
    PendingReturnChange, SyncBaseline, SyncTask,
};
use lanbridge::store::{
    baseline_from_row, baseline_row, change_kind_column, change_kind_from_column, deferred_from_row, deferred_row,
    flag_column, flag_from_column, hash_status_column, hash_status_from_column, history_from_row, history_row,
    kind_column, kind_from_column, level_column, log_from_row, log_row, pending_from_row, pending_row,
    migrations_to_run, reason_column, reason_from_column, role_from_column, snapshot_from_row, snapshot_row, stale_history_ids,
    subtree_like_pattern, task_from_row, task_row, LogRow, TaskRow, SCHEMA_VERSION,
};
use lanbridge::transfers::DeferredTransferRecord;

const TASK: u128 = 0x67e5_5044_10b1_426f_9247_bb68_0e5f_e0c8;
const ENTRY: u128 = 0xa1a2_a3a4_b1b2_c1c2_d1d2_d3d4_d5d6_d7d8;

fn task() -> SyncTask {
    SyncTask {
        id: TASK,
        name: "Photos".to_string(),
        primary_device_id: "dev-a".to_string(),
        secondary_device_id: "dev-b".to_string(),
        local_path: "/Users/me/Photos".to_string(),
        remote_path: "D:/Photos".to_string(),
        local_role: DeviceRole::Secondary,
        enabled: true,
        created_unix_ms: 10,
        updated_unix_ms: 20,
    }
}

#[test]
fn task_rows_use_hyphenated_ids_and_variant_names() {
    let row = task_row(&task());
    assert_eq!(row.id, "67e55044-10b1-426f-9247-bb680e5fe0c8");
    assert_eq!(row.local_role, "Secondary");
    assert_eq!(row.enabled, 1);
    assert_eq!(row.name, "Photos");
}

#[test]
fn a_written_task_reads_back_unchanged() {
    let t = task();
    let back = task_from_row(task_row(&t)).expect("row reads back");
    assert_eq!(back.id, t.id);
    assert_eq!(back.name, t.name);
    assert_eq!(back.primary_device_id, t.primary_device_id);
    assert_eq!(back.secondary_device_id, t.secondary_device_id);
    assert_eq!(back.local_path, t.local_path);
    assert_eq!(back.remote_path, t.remote_path);
    assert_eq!(back.local_role, t.local_role);
    assert_eq!(back.enabled, t.enabled);
    assert_eq!(back.created_unix_ms, t.created_unix_ms);
    assert_eq!(back.updated_unix_ms, t.updated_unix_ms);
}

#[test]
fn a_row_with_a_malformed_id_does_not_read() {
    let row = TaskRow {
        id: "not-a-uuid".to_string(),
        name: "x".to_string(),
        primary_device_id: String::new(),
        secondary_device_id: String::new(),
        local_path: String::new(),
        remote_path: String::new(),
        local_role: "Primary".to_string(),
        enabled: 0,
        created_unix_ms: 0,
        updated_unix_ms: 0,
    };
    assert!(task_from_row(row).is_none());
}

#[test]
fn unknown_column_names_read_as_their_defaults() {
    assert_eq!(role_from_column("Primary"), DeviceRole::Primary);
    assert_eq!(role_from_column("primary"), DeviceRole::Secondary);
    assert_eq!(kind_from_column("Directory"), EntryKind::Directory);
    assert_eq!(kind_from_column("Symlink"), EntryKind::File);
    assert_eq!(hash_status_from_column("UnverifiedLargeFile"), HashStatus::UnverifiedLargeFile);
    assert_eq!(hash_status_from_column("?"), HashStatus::Unavailable);
    assert_eq!(change_kind_from_column("Modified"), ChangeKind::Modified);
    assert_eq!(change_kind_from_column("Renamed"), ChangeKind::Deleted);
    assert_eq!(reason_from_column("Overwritten"), HistoryReason::Overwritten);
    assert_eq!(reason_from_column("Other"), HistoryReason::Trash);
    assert!(flag_from_column(7));
    assert!(!flag_from_column(0));
}

#[test]
fn every_column_name_reads_back() {
    for k in [EntryKind::File, EntryKind::Directory] {
        assert_eq!(kind_from_column(kind_column(k)), k);
    }
    for h in [HashStatus::Verified, HashStatus::UnverifiedLargeFile, HashStatus::Unavailable] {
        assert_eq!(hash_status_from_column(hash_status_column(h)), h);
    }
    for c in [ChangeKind::Created, ChangeKind::Modified, ChangeKind::Deleted] {
        assert_eq!(change_kind_from_column(change_kind_column(c)), c);
    }
    for r in [HistoryReason::Trash, HistoryReason::Overwritten] {
        assert_eq!(reason_from_column(reason_column(r)), r);
    }
    assert_eq!(level_column(LogLevel::Warn), "Warn");
    assert_eq!(flag_column(false), 0);
    assert_eq!(flag_column(true), 1);
}

#[test]
fn snapshots_baselines_and_pending_changes_read_back() {
    let snap = FileSnapshot {
        task_id: TASK,
        relative_path: "a/b.txt".to_string(),
        kind: EntryKind::File,
        size: 12,
        modified_unix_ms: 99,
        blake3_hash: Some("abc".to_string()),
        hash_status: HashStatus::Verified,
        deleted: false,
        is_symlink: true,
    };
    let row = snapshot_row(&snap);
    assert_eq!(row.kind, "File");
    assert_eq!(row.hash_status, "Verified");
    assert_eq!(row.is_symlink, 1);
    let back = snapshot_from_row(row).unwrap();
    assert_eq!(back.task_id, TASK);
    assert_eq!(back.blake3_hash.as_deref(), Some("abc"));
    assert!(back.is_symlink && !back.deleted);

    let baseline = SyncBaseline {
        task_id: TASK,
        relative_path: "a/b.txt".to_string(),
        primary_hash: None,
        primary_hash_status: HashStatus::UnverifiedLargeFile,
        primary_size: 1,
        secondary_size: 2,
        primary_modified_unix_ms: 3,
        secondary_hash: Some("h".to_string()),
        secondary_hash_status: HashStatus::Unavailable,
        secondary_modified_unix_ms: 4,
        last_synced_unix_ms: 5,
    };
    let back = baseline_from_row(baseline_row(&baseline)).unwrap();
    assert_eq!(back.primary_hash_status, HashStatus::UnverifiedLargeFile);
    assert_eq!(back.secondary_hash_status, HashStatus::Unavailable);
    assert_eq!(back.secondary_size, 2);
    assert_eq!(back.secondary_hash.as_deref(), Some("h"));

    let change = PendingReturnChange {
        task_id: TASK,
        relative_path: "c.txt".to_string(),
        change_kind: ChangeKind::Modified,
        secondary_hash: None,
        secondary_hash_status: HashStatus::Unavailable,
        secondary_modified_unix_ms: 7,
        created_unix_ms: 8,
    };
    let row = pending_row(&change);
    assert_eq!(row.change_kind, "Modified");
    let back = pending_from_row(row).unwrap();
    assert_eq!(back.change_kind, ChangeKind::Modified);
    assert_eq!(back.created_unix_ms, 8);
}

#[test]
fn history_deferred_and_log_rows_read_back() {
    let entry = HistoryEntry {
        id: ENTRY,
        task_id: TASK,
        original_relative_path: "x.txt".to_string(),
        stored_path: "/h/x.txt".to_string(),
        reason: HistoryReason::Overwritten,
        created_unix_ms: 1,
        size: 2,
    };
    let row = history_row(&entry);
    assert_eq!(row.id, "a1a2a3a4-b1b2-c1c2-d1d2-d3d4d5d6d7d8");
    assert_eq!(row.reason, "Overwritten");
    let back = history_from_row(row).unwrap();
    assert_eq!((back.id, back.task_id, back.reason), (ENTRY, TASK, HistoryReason::Overwritten));

    let deferred = DeferredTransferRecord {
        task_id: TASK,
        relative_path: "big.iso".to_string(),
        direction: "upload".to_string(),
        reason: "user".to_string(),
        created_unix_ms: 3,
    };
    let back = deferred_from_row(deferred_row(&deferred)).unwrap();
    assert_eq!(back.task_id, TASK);
    assert_eq!(back.direction, "upload");

    let log = LogEntry {
        id: None,
        level: LogLevel::Error,
        task_id: Some(TASK),
        relative_path: None,
        message: "boom".to_string(),
        created_unix_ms: 4,
    };
    let row = log_row(&log);
    assert_eq!(row.level, "Error");
    assert_eq!(row.task_id.as_deref(), Some("67e55044-10b1-426f-9247-bb680e5fe0c8"));
    let back = log_from_row(LogRow { id: Some(9), ..row });
    assert_eq!(back.id, Some(9));
    assert_eq!(back.level, LogLevel::Error);
    assert_eq!(back.task_id, Some(TASK));
    let foreign = log_from_row(LogRow {
        id: Some(1),
        level: "Debug".to_string(),
        task_id: Some("garbage".to_string()),
        relative_path: None,
        message: String::new(),
        created_unix_ms: 0,
    });
    assert_eq!(foreign.level, LogLevel::Info);
    assert_eq!(foreign.task_id, None);
}

#[test]
fn subtree_patterns_drop_trailing_slashes() {
    assert_eq!(subtree_like_pattern("docs"), "docs/%");
    assert_eq!(subtree_like_pattern("docs//"), "docs/%");
    assert_eq!(subtree_like_pattern(""), "/%");
}

#[test]
fn history_entries_whose_files_are_gone_are_stale() {
    let mk = |id: u128, stored: &str| HistoryEntry {
        id,
        task_id: TASK,
        original_relative_path: "p".to_string(),
        stored_path: stored.to_string(),
        reason: HistoryReason::Trash,
        created_unix_ms: 0,
        size: 0,
    };
    let entries = vec![mk(1, "/h/a"), mk(2, "/h/b"), mk(3, "/h/c")];
    let existing = vec!["/h/b".to_string()];
    assert_eq!(stale_history_ids(&entries, &existing), vec![1, 3]);
    assert_eq!(stale_history_ids(&entries, &vec![]), vec![1, 2, 3]);
}

#[test]
fn dirty_tasks_marked_now_wait_for_the_debounce() {
    let mut tracker = TaskDirtyTracker::new();
    tracker.mark_dirty_paths(TASK, vec!["a.txt".to_string()]);
    assert!(tracker.ready_task_ids().is_empty());
}

#[test]
fn a_database_runs_the_migrations_above_its_version() {
    assert_eq!(SCHEMA_VERSION, 5);
    assert_eq!(migrations_to_run(0), vec![1, 2, 3, 4, 5]);
    assert_eq!(migrations_to_run(3), vec![4, 5]);
    assert!(migrations_to_run(5).is_empty());
    assert!(migrations_to_run(9).is_empty());
}
