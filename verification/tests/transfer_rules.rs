use lanbridge::actions::{
    compress_directory_delete_actions, directory_tree_changed_after_sync, is_descendant_path,
    sort_actions_by_priority, sort_remote_files_by_priority,
};
use lanbridge::entries::{
    import_candidate_name, join_relative_path, reject_import_cycle, trim, entry_relative_path,
};
use lanbridge::executor::{
    baseline_from_local_restore, parent_directory_paths, partial_path, success_result, synced_baseline,
};
use lanbridge::model::{
    ChangeKind, DeviceRole, EntryKind, FileSnapshot, HashStatus, PendingReturnChange, RemoteFileState, SyncDecision,
};
use lanbridge::planner::{has_changed, PlannedAction};
use lanbridge::platform::windows::WinPlatform;
use lanbridge::retry::{is_retryable_error, is_retryable_network_error, retry_delay_ms, should_retry};
use lanbridge::return_sync::{expand_selected_return_paths, sort_return_paths_for_execution};
use lanbridge::scanner::{copied_file_state, hashed_state, EAGER_HASH_LIMIT};
use lanbridge::tasks::{progress_advance, progress_enter_phase, progress_finish, progress_set_totals};
use lanbridge::transfers::{deferred_transfer_key, is_path_deferred};

fn file(path: &str, size: i64) -> FileSnapshot {
    FileSnapshot {
        task_id: 1,
        relative_path: path.to_string(),
        kind: EntryKind::File,
        size,
        modified_unix_ms: 10,
        blake3_hash: Some("h".to_string()),
        hash_status: HashStatus::Verified,
        deleted: false,
        is_symlink: false,
    }
}

fn dir(path: &str) -> FileSnapshot {
    FileSnapshot { kind: EntryKind::Directory, size: 0, blake3_hash: None, hash_status: HashStatus::Unavailable, ..file(path, 0) }
}

fn apply(snap: FileSnapshot) -> PlannedAction {
    PlannedAction {
        relative_path: snap.relative_path.clone(),
        decision: SyncDecision::ApplyToSecondary,
        snapshot: Some(snap),
        baseline: None,
    }
}

fn delete(path: &str) -> PlannedAction {
    PlannedAction { relative_path: path.to_string(), decision: SyncDecision::MoveSecondaryToHistory, snapshot: None, baseline: None }
}

fn paths(actions: &[PlannedAction]) -> Vec<&str> {
    actions.iter().map(|a| a.relative_path.as_str()).collect()
}

#[test]
fn actions_run_deletes_and_directories_first_then_small_then_large() {
    let big = 9 * 1024 * 1024;
    let sorted = sort_actions_by_priority(vec![
        apply(file("big1", big)),
        apply(file("small1", 10)),
        delete("gone"),
        apply(dir("folder")),
        apply(file("small2", 20)),
        apply(file("big2", big)),
    ]);
    assert_eq!(paths(&sorted), vec!["gone", "folder", "small1", "small2", "big1", "big2"]);
}

#[test]
fn remote_downloads_are_ordered_by_class() {
    let r = |p: &str, kind: EntryKind, size: i64| RemoteFileState {
        relative_path: p.to_string(),
        kind,
        blake3_hash: None,
        hash_status: HashStatus::Unavailable,
        size,
        modified_unix_ms: 0,
    };
    let sorted = sort_remote_files_by_priority(vec![
        r("large", EntryKind::File, 100 * 1024 * 1024),
        r("d", EntryKind::Directory, 0),
        r("s", EntryKind::File, 1),
    ]);
    let names: Vec<&str> = sorted.iter().map(|x| x.relative_path.as_str()).collect();
    assert_eq!(names, vec!["d", "s", "large"]);
}

#[test]
fn deletes_below_a_deleted_directory_are_dropped() {
    let kept = compress_directory_delete_actions(vec![
        delete("dir/a.txt"),
        PlannedAction { snapshot: Some(dir("dir")), ..delete("dir") },
        delete("dir2/b.txt"),
        apply(file("dir/new.txt", 1)),
    ]);
    let kept_paths = paths(&kept);
    assert!(kept_paths.contains(&"dir"));
    assert!(kept_paths.contains(&"dir2/b.txt"));
    assert!(kept_paths.contains(&"dir/new.txt"));
    assert!(!kept_paths.contains(&"dir/a.txt"));
    assert!(is_descendant_path("dir/a.txt", "dir"));
    assert!(!is_descendant_path("dir2/b.txt", "dir"));
}

#[test]
fn new_entries_under_a_synced_directory_trigger_a_rescan() {
    let original = vec![dir("photos"), file("photos/a.jpg", 1)];
    let actions = vec![apply(dir("photos")), apply(file("photos/a.jpg", 1))];
    let results = vec![success_result("photos"), success_result("photos/a.jpg")];
    let unchanged = vec![dir("photos"), file("photos/a.jpg", 1)];
    assert!(!directory_tree_changed_after_sync(&original, &actions, &results, &unchanged));
    let grown = vec![dir("photos"), file("photos/a.jpg", 1), file("photos/b.jpg", 2)];
    assert!(directory_tree_changed_after_sync(&original, &actions, &results, &grown));
    let mut failed = results.clone();
    failed[0].success = false;
    assert!(!directory_tree_changed_after_sync(&original, &actions, &failed, &grown));
}

#[test]
fn parents_of_a_path_are_listed_shallow_first() {
    assert_eq!(parent_directory_paths("a/b/c.txt"), vec!["a".to_string(), "a/b".to_string()]);
    assert!(parent_directory_paths("top.txt").is_empty());
    assert_eq!(partial_path("/r/a.txt"), "/r/a.txt.lanbridge-partial");
}

#[test]
fn recorded_baseline_makes_the_file_quiet() {
    let snap = file("doc.txt", 42);
    let b = synced_baseline(1, "doc.txt", &snap, snap.blake3_hash.clone(), snap.hash_status, 99);
    assert!(!has_changed(&snap, &b, DeviceRole::Primary));
    assert!(!has_changed(&snap, &b, DeviceRole::Secondary));
    let restored = baseline_from_local_restore(&snap, 7);
    assert_eq!(restored.secondary_size, 42);
    assert_eq!(restored.last_synced_unix_ms, 7);
    assert!(!has_changed(&snap, &restored, DeviceRole::Primary));
}

#[test]
fn scanned_and_copied_file_states() {
    assert_eq!(hashed_state(Some("x".to_string())), (Some("x".to_string()), HashStatus::Verified));
    assert_eq!(hashed_state(None), (None, HashStatus::Unavailable));
    assert_eq!(copied_file_state(EAGER_HASH_LIMIT + 1, Some("x".to_string())), (EAGER_HASH_LIMIT + 1, None, HashStatus::UnverifiedLargeFile));
    assert_eq!(copied_file_state(5, Some("x".to_string())), (5, Some("x".to_string()), HashStatus::Verified));
}

#[test]
fn import_names_and_paths() {
    assert_eq!(import_candidate_name("photo.jpg", 2), "photo (2).jpg");
    assert_eq!(import_candidate_name("README", 1), "README (1)");
    assert_eq!(import_candidate_name("archive.", 3), "archive. (3)");
    assert_eq!(join_relative_path("", "a.txt"), "a.txt");
    assert_eq!(join_relative_path("dir//", "a.txt"), "dir/a.txt");
    assert_eq!(trim("  x y \n"), "x y");
    let platform = WinPlatform::with_data_dir("/tmp".to_string());
    assert_eq!(entry_relative_path(&platform, " a\\b.txt ").unwrap(), "a/b.txt");
    assert_eq!(entry_relative_path(&platform, "   ").unwrap_err(), "relative path cannot be empty");
    assert!(entry_relative_path(&platform, "a/CON").is_err());
}

#[test]
fn import_cycles_are_refused() {
    assert_eq!(reject_import_cycle("/a/f.txt", false, Some("/a/f.txt"), None), Err("源文件和目标文件相同".to_string()));
    assert_eq!(reject_import_cycle("/a/dir", true, Some("/a/dir/sub"), None), Err("不能把文件夹导入到自身内部".to_string()));
    assert_eq!(reject_import_cycle("/a/dir", true, None, Some("/a/dir/x")), Err("不能把文件夹导入到自身内部".to_string()));
    assert!(reject_import_cycle("/a/dir", true, Some("/a/dir2"), None).is_ok());
    assert!(reject_import_cycle("/a/f.txt", false, None, None).is_ok());
}

#[test]
fn retry_rules() {
    assert!(is_retryable_network_error("Connection Reset by peer"));
    assert!(!is_retryable_network_error("timeout: hash mismatch"));
    assert!(!is_retryable_network_error("bad request"));
    assert!(is_retryable_error("network is unreachable"));
    assert!(should_retry(true, 0));
    assert!(should_retry(true, 1));
    assert!(!should_retry(true, 2));
    assert!(!should_retry(false, 0));
    assert_eq!(retry_delay_ms(0, 0), 700);
    assert_eq!(retry_delay_ms(1, 701), 1400 + 701 % 701);
    assert_eq!(retry_delay_ms(2, 5), 2800 + 5);
}

#[test]
fn deferred_transfers_are_keyed_by_path_and_direction() {
    let keys = vec![deferred_transfer_key("a.txt", "upload")];
    assert!(is_path_deferred(&keys, "a.txt", "upload"));
    assert!(!is_path_deferred(&keys, "a.txt", "receive"));
}

fn pending(path: &str, kind: ChangeKind) -> PendingReturnChange {
    PendingReturnChange {
        task_id: 1,
        relative_path: path.to_string(),
        change_kind: kind,
        secondary_hash: None,
        secondary_hash_status: HashStatus::Unavailable,
        secondary_modified_unix_ms: 0,
        created_unix_ms: 0,
    }
}

#[test]
fn returns_run_changes_shallow_first_then_deletions_deep_first() {
    let ps = vec![
        pending("x/old", ChangeKind::Deleted),
        pending("x/old/inner.txt", ChangeKind::Deleted),
        pending("b/new.txt", ChangeKind::Created),
        pending("a.txt", ChangeKind::Modified),
    ];
    let order = sort_return_paths_for_execution(
        vec!["x/old".to_string(), "b/new.txt".to_string(), "x/old/inner.txt".to_string(), "a.txt".to_string()],
        &ps,
    );
    assert_eq!(order, vec!["a.txt", "b/new.txt", "x/old/inner.txt", "x/old"]);
    let expanded = expand_selected_return_paths(&["x/old".to_string()], &ps);
    assert_eq!(expanded, vec!["x/old/inner.txt", "x/old"]);
}

#[test]
fn progress_counts_towards_totals() {
    let p = progress_enter_phase(None, "task-1", "scan", None);
    let mut p = progress_set_totals(Some(p), "task-1", 3, 300);
    progress_advance(&mut p, 100);
    progress_advance(&mut p, 100);
    assert_eq!(p.items_done, Some(2));
    assert_eq!(p.bytes_done, Some(200));
    assert_eq!(p.phase, "scan");
    progress_finish(&mut p, 1_000);
    assert_eq!(p.items_done, Some(3));
    assert_eq!(p.bytes_done, Some(300));
    assert_eq!(p.finished, Some(true));
}

#[test]
fn retry_waits_double_up_to_the_largest_attempt() {
    assert_eq!(retry_delay_ms(53, 0), 700 * (1u64 << 53));
    assert!(retry_delay_ms(53, u64::MAX) <= 700 * (1u64 << 53) + 350 * (1u64 << 53));
}
