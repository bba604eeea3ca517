use lanbridge::coordinator::{
    filter_external_watcher_paths, is_internal_watcher_path, path_starts_with, FileListRefreshTracker,
    SyncRunAdmission, SyncRunCoordinator, TaskDirtyTracker, WATCHER_DEBOUNCE_MS,
};
use lanbridge::transient::{
    cleanup_action, is_common_ignored_entry_name, is_common_incomplete_download_name,
    is_lanbridge_partial_file_name, is_lanbridge_transient_dir_name, is_protocol_ignored_component_name,
    path_has_protocol_ignored_component, CleanupAction,
};
use lanbridge::watcher::{platform_watcher_event, ChangeNotice, WatcherDebounce, DEBOUNCE_MS};

const TASK: u128 = 0x1234_5678_9abc_def0_1234_5678_9abc_def0;

#[test]
fn sync_run_coordinator_queues_second_run_for_same_task() {
    let mut coordinator = SyncRunCoordinator::new();
    assert_eq!(coordinator.begin(TASK), SyncRunAdmission::Started);
    assert_eq!(coordinator.begin(TASK), SyncRunAdmission::Queued);
    assert!(coordinator.finish(TASK));
    assert_eq!(coordinator.begin(TASK), SyncRunAdmission::Queued);
    assert!(coordinator.finish(TASK));
    assert!(!coordinator.finish(TASK));
    assert_eq!(coordinator.begin(TASK), SyncRunAdmission::Started);
}

#[test]
fn sync_run_coordinator_abort_releases_queued_run() {
    let mut coordinator = SyncRunCoordinator::new();
    assert_eq!(coordinator.begin(TASK), SyncRunAdmission::Started);
    assert_eq!(coordinator.begin(TASK), SyncRunAdmission::Queued);
    coordinator.abort(TASK);
    assert_eq!(coordinator.begin(TASK), SyncRunAdmission::Started);
}

#[test]
fn sync_runs_of_different_tasks_do_not_wait_for_each_other() {
    let mut coordinator = SyncRunCoordinator::new();
    assert_eq!(coordinator.begin(1), SyncRunAdmission::Started);
    assert_eq!(coordinator.begin(2), SyncRunAdmission::Started);
    assert!(!coordinator.finish(2));
    assert_eq!(coordinator.begin(1), SyncRunAdmission::Queued);
}

#[test]
fn dirty_tracker_debounces_watcher_events() {
    let mut tracker = TaskDirtyTracker::new();
    let now: u64 = 1_000_000;
    tracker.mark_dirty_paths_at(TASK, vec!["file.txt".to_string()], now);
    assert!(tracker.ready_task_ids_at(now + 500).is_empty());
    assert_eq!(tracker.ready_task_ids_at(now + WATCHER_DEBOUNCE_MS + 1), vec![TASK]);
    tracker.clear(TASK);
    assert!(tracker.ready_task_ids_at(now + WATCHER_DEBOUNCE_MS + 2).is_empty());
}

#[test]
fn dirty_tracker_new_event_restarts_the_wait() {
    let mut tracker = TaskDirtyTracker::new();
    tracker.mark_task_dirty(TASK, 10_000);
    tracker.mark_dirty_paths_at(TASK, vec!["a".to_string()], 12_000);
    assert!(tracker.ready_task_ids_at(10_000 + WATCHER_DEBOUNCE_MS).is_empty());
    assert_eq!(tracker.ready_task_ids_at(12_000 + WATCHER_DEBOUNCE_MS), vec![TASK]);
    // A clock reading before the last event counts as no time passed.
    assert!(tracker.ready_task_ids_at(5_000).is_empty());
}

#[test]
fn watcher_filter_ignores_protocol_internal_paths() {
    let root = "/tmp/lanbridge-task";
    let paths = vec![
        format!("{}/.lanbridge-history/trash/1/a.txt", root),
        format!("{}/.lanbridge-temp/upload.tmp", root),
        format!("{}/folder/keep.txt", root),
    ];
    assert_eq!(
        filter_external_watcher_paths(root, paths),
        vec![format!("{}/folder/keep.txt", root)]
    );
    assert!(filter_external_watcher_paths(root, vec![format!("{}/.lanbridge-history/trash/1", root)]).is_empty());
}

#[test]
fn watcher_path_outside_root_is_judged_as_a_whole() {
    assert!(is_internal_watcher_path("/root/task", "/elsewhere/.lanbridge-temp/x"));
    assert!(!is_internal_watcher_path("/root/task", "/elsewhere/file"));
    // Internal names above the root do not make a path inside it internal.
    assert!(!is_internal_watcher_path("/data/.lanbridge-history/task", "/data/.lanbridge-history/task/a.txt"));
}

#[test]
fn path_prefix_compares_whole_components() {
    assert!(path_starts_with("/a/b/c", "/a/b"));
    assert!(path_starts_with("/a/b", "/a/b"));
    assert!(!path_starts_with("/a/bc", "/a/b"));
    assert!(!path_starts_with("a/b", "/a"));
}

#[test]
fn file_list_refresh_tracker_keeps_ui_revision_separate_from_dirty_tracker() {
    let mut refresh = FileListRefreshTracker::new();
    let mut dirty = TaskDirtyTracker::new();
    dirty.mark_task_dirty(TASK, 100);
    refresh.mark(TASK, "watcher_dirty", 100);
    dirty.clear(TASK);
    let snapshot = refresh.snapshot(TASK);
    assert_eq!(snapshot.revision, 1);
    assert_eq!(snapshot.reason, "watcher_dirty");
    assert!(snapshot.last_changed_at_ms.is_some());
}

#[test]
fn refresh_tracker_counts_marks_and_spaces_metadata_checks() {
    let mut refresh = FileListRefreshTracker::new();
    assert_eq!(refresh.snapshot(TASK).revision, 0);
    assert_eq!(refresh.snapshot(TASK).reason, "none");
    refresh.mark(TASK, "scan", 5);
    refresh.mark(TASK, "sync", 9);
    let s = refresh.snapshot(TASK);
    assert_eq!(s.revision, 2);
    assert_eq!(s.reason, "sync");
    assert_eq!(s.last_changed_at_ms, Some(9));
    assert!(refresh.should_check_metadata(TASK, 10_000, 50_000));
    assert!(!refresh.should_check_metadata(TASK, 10_000, 55_000));
    assert!(refresh.should_check_metadata(TASK, 10_000, 60_000));
}

#[test]
fn protocol_ignored_entries_are_ignored() {
    assert!(is_common_ignored_entry_name(".lanbridge-history", true));
    assert!(is_common_ignored_entry_name(".lanbridge-temp", true));
    assert!(is_common_ignored_entry_name("file.txt.lanbridge-partial", false));
}

#[test]
fn platform_junk_files_are_ignored() {
    assert!(is_common_ignored_entry_name(".DS_Store", false));
    assert!(is_common_ignored_entry_name("Thumbs.db", false));
    assert!(is_common_ignored_entry_name("desktop.ini", false));
    assert!(is_common_ignored_entry_name("~$report.docx", false));
    assert!(is_common_ignored_entry_name("temp.tmp", false));
    assert!(is_common_ignored_entry_name("shortcut.lnk", false));
}

#[test]
fn user_content_is_not_ignored() {
    assert!(!is_common_ignored_entry_name("readme.txt", false));
    assert!(!is_common_ignored_entry_name("src", true));
    assert!(!is_common_ignored_entry_name(".gitignore", false));
    assert!(!is_common_ignored_entry_name(".github", true));
    assert!(!is_common_ignored_entry_name("document.docx", false));
}

#[test]
fn partial_marker_only_matches_suffixes() {
    assert!(is_lanbridge_partial_file_name("file.txt.lanbridge-partial"));
    assert!(is_lanbridge_partial_file_name("file.txt.lanbridge-partial.lanbridge-partial"));
    assert!(!is_lanbridge_partial_file_name("my.lanbridge-partial.notes.txt"));
}

#[test]
fn incomplete_downloads_and_protocol_components() {
    assert!(is_common_incomplete_download_name("movie.mkv.part"));
    assert!(is_common_incomplete_download_name("setup.exe.crdownload"));
    assert!(!is_common_incomplete_download_name("part.txt"));
    assert!(is_lanbridge_transient_dir_name(".lanbridge-temp"));
    assert!(!is_lanbridge_transient_dir_name(".lanbridge-temp2"));
    assert!(is_protocol_ignored_component_name(".lanbridge-history"));
    assert!(path_has_protocol_ignored_component("a/.lanbridge-history/b.txt", false));
    assert!(!path_has_protocol_ignored_component("a/history/b.txt", false));
}

#[test]
fn cleanup_preserves_regular_file_containing_partial_marker() {
    assert_eq!(cleanup_action("my.lanbridge-partial.notes.txt", false, true), CleanupAction::Keep);
    assert_eq!(cleanup_action("ready.txt.lanbridge-partial", false, true), CleanupAction::RemoveFile);
    assert_eq!(cleanup_action(".lanbridge-temp", true, false), CleanupAction::RemoveDirectory);
    assert_eq!(cleanup_action("folder", true, false), CleanupAction::Descend);
    assert_eq!(cleanup_action("link.lanbridge-partial", false, false), CleanupAction::Keep);
}

#[test]
fn forwards_valid_event_without_waiting_for_next_event() {
    let path = "/tmp/lanbridge-watch-file".to_string();
    let forwarded = platform_watcher_event(ChangeNotice::Modify, vec![path.clone()]).unwrap();
    assert_eq!(forwarded.paths, vec![path]);
}

#[test]
fn watcher_forwards_only_changes_with_paths() {
    let e = platform_watcher_event(ChangeNotice::Modify, vec!["/tmp/lanbridge-watch-file".to_string()]).unwrap();
    assert_eq!(e.paths, vec!["/tmp/lanbridge-watch-file".to_string()]);
    assert!(platform_watcher_event(ChangeNotice::Access, vec!["/tmp/x".to_string()]).is_none());
    assert!(platform_watcher_event(ChangeNotice::Create, vec![]).is_none());
}

#[test]
fn watcher_debounce_batches_paths_within_quiet_period() {
    let mut d = WatcherDebounce::new();
    let first = d.on_notice(ChangeNotice::Create, vec!["a".to_string()], 1_000).unwrap();
    assert_eq!(first.paths, vec!["a".to_string()]);
    assert!(d.on_notice(ChangeNotice::Modify, vec!["b".to_string()], 1_100).is_none());
    assert!(d.on_notice(ChangeNotice::Other, vec!["ignored".to_string()], 1_200).is_none());
    assert!(d.on_notice(ChangeNotice::Remove, vec!["c".to_string()], 1_000 + DEBOUNCE_MS - 1).is_none());
    let batch = d.on_notice(ChangeNotice::Modify, vec!["d".to_string()], 1_000 + DEBOUNCE_MS).unwrap();
    assert_eq!(batch.paths, vec!["b".to_string(), "c".to_string(), "d".to_string()]);
}

#[test]
fn protocol_components_are_found_behind_backslashes() {
    assert!(path_has_protocol_ignored_component("a\\.lanbridge-history\\trash\\1", true));
    assert!(path_has_protocol_ignored_component("/tmp/x.part/y", false));
    assert!(!path_has_protocol_ignored_component("folder\\keep.txt", true));
    assert!(!path_has_protocol_ignored_component("a\\.lanbridge-history", false));
    assert!(path_has_protocol_ignored_component("a\\.lanbridge-history", true));
}

#[test]
fn after_a_rerun_is_replayed_the_next_request_is_queued() {
    let mut coordinator = SyncRunCoordinator::new();
    assert_eq!(coordinator.begin(TASK), SyncRunAdmission::Started);
    assert_eq!(coordinator.begin(TASK), SyncRunAdmission::Queued);
    assert!(coordinator.finish(TASK));
    assert_eq!(coordinator.begin(TASK), SyncRunAdmission::Queued);
    assert!(coordinator.finish(TASK));
    assert!(!coordinator.finish(TASK));
    assert_eq!(coordinator.begin(TASK), SyncRunAdmission::Started);
}
