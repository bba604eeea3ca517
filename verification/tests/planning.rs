use std::cell::Cell;

use lanbridge::conflict::{conflict_candidate, conflict_filename, detect_conflict, split_stem_ext, ConflictResult};
use lanbridge::model::{
    ChangeKind, DeviceRole, EntryKind, FileSnapshot, HashStatus, PendingReturnChange, SyncBaseline, SyncDecision,
};
use lanbridge::planner::{has_changed, path_depth, plan_sync};

fn make_snapshot(
    path: &str,
    kind: EntryKind,
    size: i64,
    mtime: i64,
    hash: Option<&str>,
    hash_status: HashStatus,
) -> FileSnapshot {
    FileSnapshot {
        task_id: 0,
        relative_path: path.to_string(),
        kind,
        size,
        modified_unix_ms: mtime,
        blake3_hash: hash.map(|s| s.to_string()),
        hash_status,
        deleted: false,
        is_symlink: false,
    }
}

fn make_baseline(
    path: &str,
    primary_hash: Option<&str>,
    primary_hash_status: HashStatus,
    primary_size: i64,
    primary_mtime: i64,
    secondary_hash: Option<&str>,
    secondary_mtime: i64,
) -> SyncBaseline {
    SyncBaseline {
        task_id: 0,
        relative_path: path.to_string(),
        primary_hash: primary_hash.map(|s| s.to_string()),
        primary_hash_status,
        primary_size,
        secondary_size: primary_size,
        primary_modified_unix_ms: primary_mtime,
        secondary_hash: secondary_hash.map(|s| s.to_string()),
        secondary_hash_status: primary_hash_status,
        secondary_modified_unix_ms: secondary_mtime,
        last_synced_unix_ms: 1000,
    }
}

#[test]
fn has_changed_different_hash_is_change() {
    let snap = make_snapshot("a.txt", EntryKind::File, 100, 2000, Some("aaa"), HashStatus::Verified);
    let baseline = make_baseline("a.txt", Some("bbb"), HashStatus::Verified, 100, 1000, Some("bbb"), 1000);
    assert!(has_changed(&snap, &baseline, DeviceRole::Primary));
}

#[test]
fn has_changed_same_hash_is_not_change_even_if_mtime_differs() {
    let snap = make_snapshot("a.txt", EntryKind::File, 100, 9999, Some("abc"), HashStatus::Verified);
    let baseline = make_baseline("a.txt", Some("abc"), HashStatus::Verified, 100, 1000, Some("abc"), 1000);
    assert!(!has_changed(&snap, &baseline, DeviceRole::Primary));
}

#[test]
fn has_changed_fallback_size_differs_no_hash() {
    let snap = make_snapshot("a.txt", EntryKind::File, 200, 2000, None, HashStatus::UnverifiedLargeFile);
    let baseline = make_baseline("a.txt", None, HashStatus::UnverifiedLargeFile, 100, 1000, None, 1000);
    assert!(has_changed(&snap, &baseline, DeviceRole::Primary));
}

#[test]
fn has_changed_fallback_mtime_differs_no_hash() {
    let snap = make_snapshot("a.txt", EntryKind::File, 100, 3000, None, HashStatus::Unavailable);
    let baseline = make_baseline("a.txt", None, HashStatus::Unavailable, 100, 1000, None, 1000);
    assert!(has_changed(&snap, &baseline, DeviceRole::Primary));
}

#[test]
fn has_changed_secondary_fallback_uses_secondary_size() {
    let snap = make_snapshot("a.txt", EntryKind::File, 200, 3000, None, HashStatus::UnverifiedLargeFile);
    let mut baseline = make_baseline("a.txt", None, HashStatus::UnverifiedLargeFile, 100, 1000, None, 3000);
    baseline.secondary_size = 200;
    assert!(!has_changed(&snap, &baseline, DeviceRole::Secondary));
    assert!(has_changed(&snap, &baseline, DeviceRole::Primary));
}

#[test]
fn has_changed_secondary_role_uses_secondary_baseline() {
    let snap = make_snapshot("a.txt", EntryKind::File, 100, 2000, Some("xxx"), HashStatus::Verified);
    let baseline = make_baseline("a.txt", Some("xxx"), HashStatus::Verified, 100, 1000, Some("yyy"), 1000);
    assert!(has_changed(&snap, &baseline, DeviceRole::Secondary));
}

#[test]
fn plan_sync_new_primary_file_becomes_apply() {
    let snap = make_snapshot("new.txt", EntryKind::File, 50, 1000, Some("hash1"), HashStatus::Verified);
    let actions = plan_sync(&[snap], &[], DeviceRole::Primary);
    assert_eq!(actions.len(), 1);
    assert_eq!(actions[0].decision, SyncDecision::ApplyToSecondary);
}

#[test]
fn plan_sync_new_secondary_file_becomes_pending_return() {
    let snap = make_snapshot("new.txt", EntryKind::File, 50, 1000, Some("hash1"), HashStatus::Verified);
    let actions = plan_sync(&[snap], &[], DeviceRole::Secondary);
    assert_eq!(actions.len(), 1);
    assert_eq!(actions[0].decision, SyncDecision::MarkPendingReturn);
}

#[test]
fn plan_sync_unchanged_file_is_noop() {
    let snap = make_snapshot("same.txt", EntryKind::File, 100, 2000, Some("abc"), HashStatus::Verified);
    let baseline = make_baseline("same.txt", Some("abc"), HashStatus::Verified, 100, 1000, Some("abc"), 1000);
    let actions = plan_sync(&[snap], &[baseline], DeviceRole::Primary);
    assert!(actions.is_empty());
}

#[test]
fn plan_sync_primary_delete_moves_secondary_to_history() {
    let baseline = make_baseline("gone.txt", Some("hash"), HashStatus::Verified, 100, 1000, Some("hash"), 1000);
    let actions = plan_sync(&[], &[baseline], DeviceRole::Primary);
    assert_eq!(actions.len(), 1);
    assert_eq!(actions[0].decision, SyncDecision::MoveSecondaryToHistory);
}

#[test]
fn plan_sync_secondary_delete_becomes_pending_return() {
    let baseline = make_baseline("gone.txt", Some("hash"), HashStatus::Verified, 100, 1000, Some("hash"), 1000);
    let actions = plan_sync(&[], &[baseline], DeviceRole::Secondary);
    assert_eq!(actions.len(), 1);
    assert_eq!(actions[0].decision, SyncDecision::MarkPendingReturn);
    assert_eq!(actions[0].relative_path, "gone.txt");
    assert!(actions[0].snapshot.is_none());
}

#[test]
fn plan_sync_skips_symlinks() {
    let snap = FileSnapshot {
        task_id: 0,
        relative_path: "link".to_string(),
        kind: EntryKind::File,
        size: 0,
        modified_unix_ms: 0,
        blake3_hash: None,
        hash_status: HashStatus::Unavailable,
        deleted: false,
        is_symlink: true,
    };
    let actions = plan_sync(&[snap], &[], DeviceRole::Primary);
    assert!(actions.is_empty(), "symlinks should be skipped");
}

#[test]
fn plan_sync_deletes_deepest_first_after_changes() {
    let new_file = make_snapshot("new.txt", EntryKind::File, 1, 1, Some("h"), HashStatus::Verified);
    let bs = vec![
        make_baseline("dir", None, HashStatus::Unavailable, 0, 0, None, 0),
        make_baseline("dir/sub/deep.txt", Some("x"), HashStatus::Verified, 1, 1, Some("x"), 1),
        make_baseline("dir/sub", None, HashStatus::Unavailable, 0, 0, None, 0),
    ];
    let actions = plan_sync(&[new_file], &bs, DeviceRole::Primary);
    let paths: Vec<&str> = actions.iter().map(|a| a.relative_path.as_str()).collect();
    assert_eq!(paths, vec!["new.txt", "dir/sub/deep.txt", "dir/sub", "dir"]);
    assert_eq!(path_depth("dir/sub/deep.txt"), 3);
    assert_eq!(path_depth("/a//b/"), 2);
}

fn pending(kind: ChangeKind) -> PendingReturnChange {
    PendingReturnChange {
        task_id: 0,
        relative_path: "doc.txt".to_string(),
        change_kind: kind,
        secondary_hash: Some("secondary-hash".to_string()),
        secondary_hash_status: HashStatus::Verified,
        secondary_modified_unix_ms: 2_000,
        created_unix_ms: 2_000,
    }
}

fn primary(hash: &str) -> FileSnapshot {
    make_snapshot("doc.txt", EntryKind::File, 12, 1_000, Some(hash), HashStatus::Verified)
}

fn baseline(hash: &str) -> SyncBaseline {
    make_baseline("doc.txt", Some(hash), HashStatus::Verified, 12, 1_000, Some(hash), 1_000)
}

#[test]
fn modified_secondary_conflicts_when_primary_was_deleted_after_baseline() {
    let result = detect_conflict(&pending(ChangeKind::Modified), None, Some(&baseline("base")));
    assert!(matches!(result, ConflictResult::Conflict { .. }));
}

#[test]
fn deleted_secondary_is_safe_when_primary_is_already_missing() {
    let result = detect_conflict(&pending(ChangeKind::Deleted), None, Some(&baseline("base")));
    assert!(matches!(result, ConflictResult::NoConflict));
}

#[test]
fn new_secondary_file_is_safe_when_primary_is_missing() {
    let result = detect_conflict(&pending(ChangeKind::Created), None, None);
    assert!(matches!(result, ConflictResult::NoConflict));
}

#[test]
fn new_secondary_file_conflicts_when_primary_path_exists() {
    let result = detect_conflict(&pending(ChangeKind::Created), Some(&primary("primary")), None);
    assert!(matches!(result, ConflictResult::Conflict { .. }));
}

#[test]
fn modified_secondary_is_safe_when_primary_matches_baseline() {
    let result = detect_conflict(&pending(ChangeKind::Modified), Some(&primary("base")), Some(&baseline("base")));
    assert!(matches!(result, ConflictResult::NoConflict));
}

#[test]
fn changed_primary_conflict_reports_both_sides() {
    let mut newer = primary("other");
    newer.hash_status = HashStatus::UnverifiedLargeFile;
    newer.modified_unix_ms = 5_000;
    match detect_conflict(&pending(ChangeKind::Modified), Some(&newer), Some(&baseline("base"))) {
        ConflictResult::Conflict { relative_path, primary_modified_unix_ms, secondary_hash, hash_unverified, .. } => {
            assert_eq!(relative_path, "doc.txt");
            assert_eq!(primary_modified_unix_ms, 5_000);
            assert_eq!(secondary_hash.as_deref(), Some("secondary-hash"));
            assert!(hash_unverified);
        }
        ConflictResult::NoConflict => panic!("a changed primary must conflict"),
    }
}

#[test]
fn test_conflict_filename_basic() {
    let result = conflict_filename("doc.txt", "MacBook", 1715400000000, |_| false);
    assert!(result.starts_with("doc (conflict from MacBook"));
    assert!(result.ends_with(").txt"));
    assert_eq!(result, "doc (conflict from MacBook 2024-05-11 040000).txt");
}

#[test]
fn test_conflict_filename_no_ext() {
    let result = conflict_filename("Makefile", "PC", 1715400000000, |_| false);
    assert!(result.starts_with("Makefile (conflict from PC"));
}

#[test]
fn test_conflict_filename_collision() {
    let count = Cell::new(0);
    let result = conflict_filename("file.txt", "Mac", 1715400000000, |_| {
        count.set(count.get() + 1);
        count.get() <= 2
    });
    assert!(result.contains("-3") || result.contains("-2"));
    assert_eq!(result, "file (conflict from Mac 2024-05-11 040000)-3.txt");
}

#[test]
fn conflict_candidates_number_from_two() {
    assert_eq!(conflict_candidate("a/b.txt", "Dev", "T", 0), "a/b (conflict from Dev T).txt");
    assert_eq!(conflict_candidate("a/b.txt", "Dev", "T", 2), "a/b (conflict from Dev T)-2.txt");
    assert_eq!(conflict_candidate(".env", "Dev", "T", 12), ".env (conflict from Dev T)-12");
}

#[test]
fn test_split_stem_ext() {
    assert_eq!(split_stem_ext("file.txt"), ("file", ".txt"));
    assert_eq!(split_stem_ext("archive.tar.gz"), ("archive.tar", ".gz"));
    assert_eq!(split_stem_ext("noext"), ("noext", ""));
    assert_eq!(split_stem_ext("dir/file.txt"), ("dir/file", ".txt"));
}
