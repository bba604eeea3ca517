use lanbridge::ignore::{IgnoreDecision, IgnoreReason};
use lanbridge::platform::macos::{self, MacPlatform};
use lanbridge::platform::windows::{self, is_reserved_name, MenuItems, WinPlatform};
use lanbridge::platform::{case_collision_groups, Platform};
use lanbridge::scanner::{scan_entry_step, EntryStep};

#[test]
fn test_exact_file_ignored() {
    assert_eq!(
        macos::classify_entry(".DS_Store", false),
        IgnoreDecision::Ignored(IgnoreReason::ExactName(".DS_Store".to_string()))
    );
}

#[test]
fn test_exact_dir_ignored() {
    assert_eq!(
        macos::classify_entry(".git", true),
        IgnoreDecision::Ignored(IgnoreReason::ExactDirectory(".git".to_string()))
    );
    assert_eq!(
        macos::classify_entry("node_modules", true),
        IgnoreDecision::Ignored(IgnoreReason::ExactDirectory("node_modules".to_string()))
    );
}

#[test]
fn test_git_dir_only_exact_match() {
    assert_eq!(macos::classify_entry(".gitignore", false), IgnoreDecision::Allowed);
    assert_eq!(macos::classify_entry(".github", true), IgnoreDecision::Allowed);
    assert_eq!(macos::classify_entry(".gitmodules", false), IgnoreDecision::Allowed);
}

#[test]
fn test_glob_patterns() {
    assert_eq!(
        macos::classify_entry("~$report.docx", false),
        IgnoreDecision::Ignored(IgnoreReason::GlobPattern("~$*".to_string()))
    );
    assert_eq!(
        macos::classify_entry("temp.tmp", false),
        IgnoreDecision::Ignored(IgnoreReason::GlobPattern("*.tmp".to_string()))
    );
}

#[test]
fn test_allowed_entries() {
    assert_eq!(macos::classify_entry("readme.txt", false), IgnoreDecision::Allowed);
    assert_eq!(macos::classify_entry("src", true), IgnoreDecision::Allowed);
    assert_eq!(macos::classify_entry(".gitignore", false), IgnoreDecision::Allowed);
}

#[test]
fn test_windows_exact_file_ignored() {
    assert_eq!(
        windows::classify_entry("Thumbs.db", false),
        IgnoreDecision::Ignored(IgnoreReason::ExactName("Thumbs.db".to_string()))
    );
    assert_eq!(
        windows::classify_entry("desktop.ini", false),
        IgnoreDecision::Ignored(IgnoreReason::ExactName("desktop.ini".to_string()))
    );
    assert_eq!(
        windows::classify_entry("lanbridge.log", false),
        IgnoreDecision::Ignored(IgnoreReason::ExactName("lanbridge.log".to_string()))
    );
    assert_eq!(
        windows::classify_entry("startup-crash.log", false),
        IgnoreDecision::Ignored(IgnoreReason::ExactName("startup-crash.log".to_string()))
    );
    assert_eq!(
        windows::classify_entry("crash-diagnostics.log", false),
        IgnoreDecision::Ignored(IgnoreReason::ExactName("crash-diagnostics.log".to_string()))
    );
}

#[test]
fn test_windows_exact_dir_ignored() {
    assert_eq!(
        windows::classify_entry("$RECYCLE.BIN", true),
        IgnoreDecision::Ignored(IgnoreReason::ExactDirectory("$RECYCLE.BIN".to_string()))
    );
    assert_eq!(
        windows::classify_entry("System Volume Information", true),
        IgnoreDecision::Ignored(IgnoreReason::ExactDirectory("System Volume Information".to_string()))
    );
    assert_eq!(
        windows::classify_entry(".git", true),
        IgnoreDecision::Ignored(IgnoreReason::ExactDirectory(".git".to_string()))
    );
    assert_eq!(
        windows::classify_entry("node_modules", true),
        IgnoreDecision::Ignored(IgnoreReason::ExactDirectory("node_modules".to_string()))
    );
}

#[test]
fn fs_rules_test_git_dir_only_exact_match() {
    assert_eq!(windows::classify_entry(".gitignore", false), IgnoreDecision::Allowed);
    assert_eq!(windows::classify_entry(".github", true), IgnoreDecision::Allowed);
    assert_eq!(windows::classify_entry(".gitmodules", false), IgnoreDecision::Allowed);
}

#[test]
fn test_windows_glob_patterns() {
    assert_eq!(
        windows::classify_entry("~$report.docx", false),
        IgnoreDecision::Ignored(IgnoreReason::GlobPattern("~$*".to_string()))
    );
    assert_eq!(
        windows::classify_entry("temp.tmp", false),
        IgnoreDecision::Ignored(IgnoreReason::GlobPattern("*.tmp".to_string()))
    );
    assert_eq!(
        windows::classify_entry("shortcut.lnk", false),
        IgnoreDecision::Ignored(IgnoreReason::GlobPattern("*.lnk".to_string()))
    );
}

#[test]
fn fs_rules_test_allowed_entries() {
    assert_eq!(windows::classify_entry("readme.txt", false), IgnoreDecision::Allowed);
    assert_eq!(windows::classify_entry("src", true), IgnoreDecision::Allowed);
    assert_eq!(windows::classify_entry(".gitignore", false), IgnoreDecision::Allowed);
    assert_eq!(windows::classify_entry("document.docx", false), IgnoreDecision::Allowed);
}

#[test]
fn test_reserved_names() {
    assert!(is_reserved_name("CON"));
    assert!(is_reserved_name("con"));
    assert!(is_reserved_name("LPT1"));
    assert!(is_reserved_name("lpt1"));
    assert!(!is_reserved_name("COM10"));
    assert!(!is_reserved_name("COM"));
    assert!(!is_reserved_name("readme"));
}

fn win() -> WinPlatform {
    WinPlatform::with_data_dir("/tmp".to_string())
}

#[test]
fn test_validate_path_invalid_chars() {
    let platform = win();
    assert!(platform.validate_target_relative_path("file<name").is_err());
    assert!(platform.validate_target_relative_path("file|name").is_err());
    assert!(platform.validate_target_relative_path("file*name").is_err());
    assert!(platform.validate_target_relative_path("file?name").is_err());
}

#[test]
fn test_validate_path_reserved_names() {
    let platform = win();
    assert!(platform.validate_target_relative_path("CON").is_err());
    assert!(platform.validate_target_relative_path("con.txt").is_err());
    assert!(platform.validate_target_relative_path("LPT1").is_err());
    assert!(platform.validate_target_relative_path("COM9.log").is_err());
}

#[test]
fn test_validate_path_traversal() {
    let platform = win();
    assert!(platform.validate_target_relative_path("../etc/passwd").is_err());
    assert!(platform.validate_target_relative_path("a/../b").is_err());
}

#[test]
fn test_validate_path_trailing_dot_space() {
    let platform = win();
    assert!(platform.validate_target_relative_path("file.").is_err());
    assert!(platform.validate_target_relative_path("file ").is_err());
}

#[test]
fn test_validate_path_valid() {
    let platform = win();
    assert!(platform.validate_target_relative_path("readme.txt").is_ok());
    assert!(platform.validate_target_relative_path("docs/report.pdf").is_ok());
    assert!(platform.validate_target_relative_path("a/b/c").is_ok());
}

#[test]
fn test_validate_path_component_too_long() {
    let platform = win();
    let long_name = "a".repeat(256);
    assert!(platform.validate_target_relative_path(&long_name).is_err());
    let ok_name = "a".repeat(255);
    assert!(platform.validate_target_relative_path(&ok_name).is_ok());
}

#[test]
fn test_validate_path_null_byte_in_component() {
    let platform = win();
    assert!(platform.validate_target_relative_path("a\0b").is_err());
}

#[test]
fn mac_paths_allow_windows_names_but_not_traversal() {
    let platform = MacPlatform::with_data_dir("/tmp".to_string());
    assert!(platform.validate_target_relative_path("CON").is_ok());
    assert!(platform.validate_target_relative_path("a\\..\\b").is_err());
    assert!(platform.validate_target_relative_path("/abs").is_err());
    assert!(platform.validate_target_relative_path("").is_err());
    assert!(platform.validate_target_relative_path("a\0b").is_err());
}

#[test]
fn normalize_turns_backslashes_into_slashes() {
    assert_eq!(win().normalize_relative_path("a\\b\\c.txt"), "a/b/c.txt");
    let mac = MacPlatform::with_data_dir("/tmp".to_string());
    assert_eq!(mac.normalize_relative_path("x/y"), "x/y");
}

#[test]
fn data_files_live_in_the_data_directory() {
    let platform = MacPlatform::with_data_dir("/data/LanBridge".to_string());
    assert_eq!(platform.app_data_dir(), "/data/LanBridge");
    assert_eq!(platform.database_path(), "/data/LanBridge/lanbridge.db");
    assert_eq!(platform.identity_key_path(), "/data/LanBridge/identity.key");
    assert_eq!(platform.peer_pins_path(), "/data/LanBridge/peer-pins.json");
    assert_eq!(platform.log_path(), "/data/LanBridge/lanbridge.log");
    let trailing = WinPlatform::with_data_dir("C:/Data/".to_string());
    assert_eq!(trailing.database_path(), "C:/Data/lanbridge.db");
}

#[test]
fn case_collisions_are_grouped_by_folded_name() {
    let paths = vec![
        "Docs/Readme.md".to_string(),
        "photos/a.jpg".to_string(),
        "docs/README.md".to_string(),
        "Photos/A.JPG".to_string(),
        "unique.txt".to_string(),
        "DOCS/readme.MD".to_string(),
    ];
    let groups = case_collision_groups(&paths);
    assert_eq!(
        groups,
        vec![
            vec!["Docs/Readme.md".to_string(), "docs/README.md".to_string(), "DOCS/readme.MD".to_string()],
            vec!["photos/a.jpg".to_string(), "Photos/A.JPG".to_string()],
        ]
    );
    assert!(win().detect_case_collisions(&["a".to_string(), "b".to_string()]).is_empty());
    assert_eq!(
        win().detect_case_collisions(&["Ä.txt".to_string(), "ä.txt".to_string()]),
        vec![vec!["Ä.txt".to_string(), "ä.txt".to_string()]]
    );
}

#[test]
fn tray_menu_item_ids() {
    assert_eq!(MenuItems::OPEN, "open");
    assert_eq!(MenuItems::PAUSE_ALL, "pause_all");
    assert_eq!(MenuItems::SYNC_NOW, "sync_now");
    assert_eq!(MenuItems::QUIT, "quit");
}

#[test]
fn the_scan_records_links_first_prunes_ignored_entries_and_enters_directories() {
    let mac = MacPlatform::with_data_dir("/d".to_string());
    match scan_entry_step(&mac, "node_modules", "a/node_modules".to_string(), true, true) {
        EntryStep::RecordSymlink(s) => {
            assert!(s.is_symlink);
            assert_eq!(s.kind, lanbridge::model::EntryKind::Directory);
            assert_eq!(s.relative_path, "a/node_modules");
        }
        _ => panic!("a link is recorded before any rule is asked"),
    }
    assert!(matches!(scan_entry_step(&mac, ".DS_Store", "x/.DS_Store".to_string(), false, false), EntryStep::Skip));
    match scan_entry_step(&mac, "docs", "docs".to_string(), false, true) {
        EntryStep::EnterDirectory(s) => {
            assert!(!s.is_symlink);
            assert_eq!(s.relative_path, "docs");
        }
        _ => panic!("a plain directory is entered"),
    }
    assert!(matches!(scan_entry_step(&mac, "a.txt", "a.txt".to_string(), false, false), EntryStep::ReadFile));
    assert!(!mac.backslash_separates());
}
