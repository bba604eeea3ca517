use lanbridge::diagnostics::{
    build_diagnostic_report, diagnostic_line, max_log_bytes, record_operation, record_panic, record_startup_error,
    recent_lines, redact_uuid_like_identifiers, rotated_log_path, rotation_for, single_line, truncate_report,
    DiagnosticRedactor, Rotation, CRASH_DIAGNOSTICS_FILE_NAME, CRASH_DIAGNOSTICS_MAX_BYTES, MAX_DIAGNOSTIC_LINE_CHARS,
    REPORT_DIAGNOSTIC_LINES, REPORT_LINE_MAX_CHARS, REPORT_MAX_BYTES, REPORT_STARTUP_LINES, STARTUP_CRASH_FILE_NAME,
    STARTUP_CRASH_MAX_BYTES,
};
use lanbridge::model::{DeviceRole, LogEntry, LogLevel, SyncTask};

fn sample_task(local_path: &str, remote_path: &str) -> SyncTask {
    SyncTask {
        id: 0x1111_1111_1111_1111_1111_1111_1111_1111,
        name: "Private task".to_string(),
        primary_device_id: "22222222-2222-2222-2222-222222222222".to_string(),
        secondary_device_id: "33333333-3333-3333-3333-333333333333".to_string(),
        local_path: local_path.to_string(),
        remote_path: remote_path.to_string(),
        local_role: DeviceRole::Primary,
        enabled: true,
        created_unix_ms: 0,
        updated_unix_ms: 0,
    }
}

fn sample_log() -> LogEntry {
    LogEntry {
        id: Some(1),
        level: LogLevel::Error,
        task_id: Some(0x4444_4444_4444_4444_4444_4444_4444_4444),
        relative_path: Some("private/report.txt".to_string()),
        message: "transfer failed for 55555555-5555-5555-5555-555555555555".to_string(),
        created_unix_ms: 1,
    }
}

fn report(tasks: &[SyncTask], logs: &[LogEntry], diagnostics: Option<&str>, startup: Option<&str>) -> String {
    build_diagnostic_report("/Users/alice/Library/LanBridge", tasks, logs, "0.2.0", "macos", "aarch64", 42, diagnostics, startup)
}

#[test]
fn bounded_log_rotates_at_limit() {
    assert_eq!(rotation_for(Some(128), 128), Rotation::Archive);
    assert_eq!(rotation_for(Some(127), 128), Rotation::Keep);
    assert_eq!(rotation_for(None, 128), Rotation::Keep);
    assert_eq!(rotated_log_path("/x/diagnostics.log"), "/x/diagnostics.log.1");
}

#[test]
fn grossly_oversized_legacy_log_is_discarded_instead_of_archived() {
    assert_eq!(rotation_for(Some(257), 128), Rotation::Discard);
    assert_eq!(rotation_for(Some(256), 128), Rotation::Archive);
    assert_eq!(max_log_bytes(STARTUP_CRASH_FILE_NAME), STARTUP_CRASH_MAX_BYTES);
    assert_eq!(max_log_bytes(CRASH_DIAGNOSTICS_FILE_NAME), CRASH_DIAGNOSTICS_MAX_BYTES);
}

#[test]
fn diagnostic_lines_are_capped() {
    let line = single_line(&"x".repeat(MAX_DIAGNOSTIC_LINE_CHARS + 10));
    assert_eq!(line.len(), MAX_DIAGNOSTIC_LINE_CHARS);
}

#[test]
fn diagnostic_line_flattens_details() {
    assert_eq!(diagnostic_line(17, "sync", "a\nb\rc"), "[17] sync a b c");
}

#[test]
fn records_go_to_their_files() {
    let op = record_operation("scan", "done");
    assert_eq!(op.len(), 1);
    assert_eq!(op[0].file_name, CRASH_DIAGNOSTICS_FILE_NAME);
    let panic = record_panic("boom", "trace");
    let targets: Vec<(&str, &str, &str)> =
        panic.iter().map(|r| (r.file_name.as_str(), r.event.as_str(), r.details.as_str())).collect();
    assert_eq!(
        targets,
        vec![
            (STARTUP_CRASH_FILE_NAME, "panic", "boom"),
            (CRASH_DIAGNOSTICS_FILE_NAME, "panic", "boom"),
            (CRASH_DIAGNOSTICS_FILE_NAME, "panic_backtrace", "trace"),
        ]
    );
    let startup = record_startup_error("no db");
    assert_eq!(startup.len(), 2);
    assert_eq!(startup[1].event, "startup_error");
}

#[test]
fn report_redacts_task_roots_home_paths_and_identifiers() {
    let diagnostics = "scan root=/Users/alice/private-sync peer=aaaaaaaa-aaaa-aaaa-aaaa-aaaaaaaaaaaa\nwindows=C:\\Users\\Alice\\Mirror\nother=/Users/alice/Desktop";
    let report = report(
        &[sample_task("/Users/alice/private-sync", "C:\\Users\\Alice\\Mirror")],
        &[sample_log()],
        Some(diagnostics),
        None,
    );
    assert!(!report.contains("/Users/alice/private-sync"));
    assert!(!report.contains("C:\\Users\\Alice\\Mirror"));
    assert!(!report.contains("/Users/alice/Desktop"));
    assert!(!report.contains("aaaaaaaa-aaaa-aaaa-aaaa-aaaaaaaaaaaa"));
    assert!(!report.contains("55555555-5555-5555-5555-555555555555"));
    assert!(report.contains("<TASK_ROOT_1>"));
    assert!(report.contains("<TASK_ROOT_2>"));
    assert!(report.contains("<HOME>/Desktop"));
    assert!(report.contains("<ID>"));
    assert!(report.contains("private/report.txt"));
}

#[test]
fn report_handles_missing_files_and_limits_recent_lines() {
    let diagnostics = (0..220).map(|index| format!("line-{index}")).collect::<Vec<_>>().join("\n");
    let report = report(&[], &[], Some(&diagnostics), None);
    assert!(report.contains("暂无记录"));
    assert!(report.contains("line-219"));
    assert!(!report.contains("line-19\n"));
}

#[test]
fn report_is_bounded_even_when_each_section_is_large() {
    let diagnostics =
        (0..REPORT_DIAGNOSTIC_LINES).map(|_| "x".repeat(REPORT_LINE_MAX_CHARS + 100)).collect::<Vec<_>>().join("\n");
    let startup =
        (0..REPORT_STARTUP_LINES).map(|_| "y".repeat(REPORT_LINE_MAX_CHARS + 100)).collect::<Vec<_>>().join("\n");
    let report = report(&[], &[], Some(&diagnostics), Some(&startup));
    assert!(report.len() <= REPORT_MAX_BYTES);
    assert!(report.contains("[报告内容已截断]"));
}

#[test]
fn short_reports_are_not_truncated() {
    assert_eq!(truncate_report("small"), "small");
    let long = "é".repeat(REPORT_MAX_BYTES);
    let cut = truncate_report(&long);
    assert!(cut.len() <= REPORT_MAX_BYTES);
    assert!(cut.ends_with("\n[报告内容已截断]\n"));
}

#[test]
fn recent_lines_keep_the_last_ones() {
    assert_eq!(recent_lines("a\nb\r\nc\n", 2), vec!["b".to_string(), "c".to_string()]);
    assert_eq!(recent_lines("", 5), Vec::<String>::new());
}

#[test]
fn uuid_like_identifiers_are_redacted() {
    assert_eq!(
        redact_uuid_like_identifiers("id 12345678-1234-1234-1234-123456789abc end"),
        "id <ID> end"
    );
    assert_eq!(redact_uuid_like_identifiers("not-a-uuid"), "not-a-uuid");
}

#[test]
fn redactor_replaces_longest_roots_first() {
    let tasks = vec![sample_task("/data/sync", "/data/sync/inner")];
    let redactor = DiagnosticRedactor::new("/data/app", &tasks);
    let out = redactor.redact("a=/data/sync/inner/x b=/data/sync/y c=/data/app/z");
    assert!(!out.contains("/data/sync"));
    assert!(!out.contains("/data/app"));
}
