use lanbridge::app_settings::{default_discovery_enabled, load, settings_path, AppSettings, CachedUpdateRelease};
use lanbridge::path_rules::safe_join;
use lanbridge::platform::Platform;
use lanbridge::path_safety::{MutationGuard, RootInspection, TaskRootHandle};
use lanbridge::platform::windows::WinPlatform;

#[test]
fn safe_join_rejects_path_traversal() {
    let root = "/tmp/lanbridge-root";
    assert!(safe_join(root, "../escape.txt", host_separates_backslash()).is_err());
    assert!(safe_join(root, "/absolute.txt", host_separates_backslash()).is_err());
}

#[test]
fn safe_join_rejects_windows_reserved_names() {
    let root = "/tmp/lanbridge-root";
    assert!(safe_join(root, "nested/CON.txt", host_separates_backslash()).is_err());
    assert!(safe_join(root, "LPT1", host_separates_backslash()).is_err());
}

#[test]
fn safe_join_accepts_normal_relative_path() {
    let root = "/tmp/lanbridge-root";
    let path = safe_join(root, "nested/file.txt", host_separates_backslash()).unwrap();
    assert_eq!(path, "/tmp/lanbridge-root/nested/file.txt");
}

#[test]
fn safe_join_skips_empty_and_current_components() {
    assert_eq!(safe_join("/r", "./a//b/.", host_separates_backslash()).unwrap(), "/r/a/b");
    assert!(safe_join("/r", "", host_separates_backslash()).is_err());
    assert!(safe_join("/r", "./.", host_separates_backslash()).is_err());
    assert!(safe_join("/r", "a/b?c", host_separates_backslash()).is_err());
    assert!(safe_join("/r", "trailing. /x", host_separates_backslash()).is_err());
}

#[test]
fn task_root_handle_requires_a_plain_directory() {
    assert_eq!(
        TaskRootHandle::new("/r", RootInspection::Link, host_separates_backslash()).err(),
        Some("SymlinkNotAllowed".to_string())
    );
    assert!(TaskRootHandle::new("/r", RootInspection::NotDirectory, host_separates_backslash()).is_err());
    let handle = TaskRootHandle::new("/r", RootInspection::Directory, host_separates_backslash()).unwrap();
    assert_eq!(handle.root(), "/r");
    assert_eq!(handle.resolve("a/b.txt").unwrap(), "/r/a/b.txt");
    assert!(handle.resolve("../x").is_err());
}

#[test]
fn mutation_directories_run_from_root_to_parent() {
    let handle = TaskRootHandle::new("/r", RootInspection::Directory, host_separates_backslash()).unwrap();
    assert_eq!(
        handle.mutation_directories("one/two/file.txt").unwrap(),
        vec!["/r".to_string(), "/r/one".to_string(), "/r/one/two".to_string()]
    );
    assert_eq!(handle.mutation_directories("file.txt").unwrap(), vec!["/r".to_string()]);
    assert!(handle.mutation_directories("one/../file.txt").is_err());
}

#[test]
fn mutation_guard_rejects_parent_replaced_by_another_directory() {
    let dirs = vec!["/r".to_string(), "/r/parent".to_string()];
    let guard = MutationGuard::capture(&dirs, &[(1, 10), (1, 11)]);
    assert_eq!(guard.directory_paths(), dirs);
    assert!(guard.validate(&[(1, 10), (1, 11)]).is_ok());
    assert_eq!(
        guard.validate(&[(1, 10), (1, 12)]),
        Err("UnsafePath: parent directory identity changed".to_string())
    );
}

#[test]
fn missing_settings_file_uses_safe_defaults() {
    let settings = load(None);
    assert!(settings.discovery_enabled);
    assert!(default_discovery_enabled());
    assert_eq!(settings, AppSettings::default());
}

#[test]
fn settings_roundtrip_preserves_discovery_preference() {
    let settings = AppSettings {
        discovery_enabled: false,
        last_update_check_unix_ms: Some(1_725_000_000_000),
        latest_release: Some(CachedUpdateRelease {
            version: "0.2.0-beta.1".to_string(),
            tag_name: "v0.2.0-beta.1".to_string(),
            name: Some("Beta".to_string()),
            published_at: Some("2026-07-19T00:00:00Z".to_string()),
        }),
    };
    assert_eq!(load(Some(settings.clone())), settings);
}

#[test]
fn settings_live_in_the_data_directory() {
    let platform = WinPlatform::with_data_dir("C:/Users/me/AppData/LanBridge".to_string());
    assert_eq!(settings_path(&platform), "C:/Users/me/AppData/LanBridge/settings.json");
}

#[test]
fn backslashes_separate_components_only_where_the_system_says_so() {
    assert_eq!(safe_join("/r", "..\\escape.txt", true), Err("invalid relative path".to_string()));
    assert!(safe_join("/r", "\\absolute.txt", true).is_err());
    assert_eq!(safe_join("/r", "a\\b.txt", true).unwrap(), "/r/a/b.txt");
    assert_eq!(safe_join("/r", "a\\b", false).unwrap(), "/r/a\\b");
    assert_eq!(safe_join("/r", "\\x", false).unwrap(), "/r/\\x");
    assert_eq!(safe_join("/r", "..\\escape.txt", false).unwrap(), "/r/..\\escape.txt");
    assert_eq!(WinPlatform::with_data_dir("C:/d".to_string()).backslash_separates(), true);
}

fn host_separates_backslash() -> bool {
    std::path::MAIN_SEPARATOR == '\\'
}
