use lanbridge::history::{
    check_storage_blocked, discovered_origin, expired_timestamp_dir, format_mebibytes, history_entries_look_grouped,
    parse_i64, restored_relative_path, sort_newest_first, stable_history_id, HistoryStore, StorageUsage,
    DEFAULT_SIZE_LIMIT_BYTES,
};
use lanbridge::model::{HistoryEntry, HistoryReason};
use lanbridge::network::{
    build_network_report, connection_candidates, format_ipv4, lan_ipv4_adapters, looks_like_virtual_or_vpn,
    peer_identity_from_args, DeviceFacts, DiscoveryFacts,
};
use lanbridge::model::AppError;

fn entry(id: u128, path: &str, stored: &str, created: i64) -> HistoryEntry {
    HistoryEntry {
        id,
        task_id: 5,
        original_relative_path: path.to_string(),
        stored_path: stored.to_string(),
        reason: HistoryReason::Trash,
        created_unix_ms: created,
        size: 1,
    }
}

#[test]
fn history_store_paths_live_under_the_sync_root() {
    let store = HistoryStore::new("/sync/root");
    assert_eq!(store.trash_dir(), "/sync/root/.lanbridge-history/trash");
    assert_eq!(store.overwritten_dir(), "/sync/root/.lanbridge-history/overwritten");
    assert_eq!(store.trash_destination("a/b.txt", 1700), "/sync/root/.lanbridge-history/trash/1700/a/b.txt");
    assert_eq!(
        store.overwritten_destination("c.txt", -5),
        "/sync/root/.lanbridge-history/overwritten/-5/c.txt"
    );
    assert!(store.is_storage_full(DEFAULT_SIZE_LIMIT_BYTES, 0, 0));
    assert!(!store.is_storage_full(DEFAULT_SIZE_LIMIT_BYTES - 1, 0, 0));
}

#[test]
fn full_history_blocks_destructive_operations() {
    let store = HistoryStore::new("/r");
    let mut usage = StorageUsage::new();
    usage.add_file(DEFAULT_SIZE_LIMIT_BYTES, Some(10));
    let err = check_storage_blocked(&store, &usage, 100).unwrap_err();
    assert!(err.starts_with("history storage full (1024.0 MB used)"));
    let empty = StorageUsage::new();
    assert!(check_storage_blocked(&store, &empty, 100).is_ok());
    assert_eq!(format_mebibytes(1_572_864), "1.5");
}

#[test]
fn timestamp_folders_expire_by_their_name() {
    assert_eq!(parse_i64("-42"), Some(-42));
    assert_eq!(parse_i64("+7"), Some(7));
    assert_eq!(parse_i64("9223372036854775808"), None);
    assert_eq!(parse_i64("12a"), None);
    assert!(expired_timestamp_dir("1000", 2000));
    assert!(!expired_timestamp_dir("3000", 2000));
    assert!(!expired_timestamp_dir("batch", 2000));
}

#[test]
fn discovered_entries_take_time_and_path_from_the_layout() {
    let parts = vec!["1700".to_string(), "dir".to_string(), "f.txt".to_string()];
    assert_eq!(discovered_origin(&parts, 5), Some((1700, "dir/f.txt".to_string())));
    assert_eq!(discovered_origin(&vec!["1700".to_string()], 5), None);
    assert_eq!(discovered_origin(&vec!["loose.txt".to_string()], 5), Some((5, "loose.txt".to_string())));
}

#[test]
fn restored_names_carry_the_restore_time() {
    assert_eq!(restored_relative_path("docs/a.txt", 1715400000000), "docs/a (restored 2024-05-11 040000).txt");
    assert_eq!(restored_relative_path("Makefile", 0), "Makefile (restored 1970-01-01 000000)");
}

#[test]
fn history_ids_are_stable_per_stored_path() {
    let a = stable_history_id(1, "/h/trash/1/a.txt");
    assert_eq!(a, stable_history_id(1, "/h/trash/1/a.txt"));
    assert_ne!(a, stable_history_id(1, "/h/trash/1/b.txt"));
    assert_ne!(a, stable_history_id(2, "/h/trash/1/a.txt"));
}

#[test]
fn history_sorts_newest_first_keeping_ties_in_order() {
    let sorted = sort_newest_first(vec![entry(1, "a", "/s/a", 10), entry(2, "b", "/s/b", 30), entry(3, "c", "/s/c", 10)]);
    let ids: Vec<u128> = sorted.iter().map(|e| e.id).collect();
    assert_eq!(ids, vec![2, 1, 3]);
}

#[test]
fn grouped_entries_share_a_batch_or_a_folder() {
    let parent = entry(1, "f", "/h/trash/1/f", 1);
    assert!(history_entries_look_grouped(&parent, &entry(2, "f/x", "/h/trash/9/f/x", 1)));
    assert!(history_entries_look_grouped(&parent, &entry(3, "f/y", "/h/trash/1/f/y", 2)));
    assert!(!history_entries_look_grouped(&parent, &entry(4, "g", "/h/trash/1/g", 2)));
}

fn discovery(enabled: bool, running: bool) -> DiscoveryFacts {
    DiscoveryFacts {
        enabled,
        running,
        error: None,
        announce_interfaces: vec!["en0".to_string()],
        multicast_addr: "239.255.42.99".to_string(),
        multicast_port: 47_802,
        skipped_interfaces: vec![],
        socket_errors: vec![],
    }
}

#[test]
fn network_report_passes_when_nothing_fails() {
    let report = build_network_report(
        47_801,
        None,
        &discovery(true, true),
        &[("en0".to_string(), "192.168.1.5".to_string())],
        &[DeviceFacts { address_count: 2, compatible: true }],
        "allow local network",
    );
    assert!(report.ok);
    assert_eq!(report.tcp_port, 47_801);
    let labels: Vec<&str> = report.checks.iter().map(|c| c.label.as_str()).collect();
    assert_eq!(labels, vec!["TCP 服务", "自动发现", "本机网络", "已发现设备"]);
    assert_eq!(report.checks[0].detail, "本机同步服务正在监听 47801 端口。");
    assert_eq!(report.checks[1].detail, "发现服务运行中，监听 239.255.42.99:47802，正在通过 en0 广播。");
    assert_eq!(report.checks[2].detail, "en0 192.168.1.5");
    assert_eq!(report.checks[3].detail, "发现 1 台设备，合计 2 个可尝试地址。");
    assert!(report.suggestions.is_empty());
}

#[test]
fn network_report_fails_without_service_or_network() {
    let report = build_network_report(0, None, &discovery(false, false), &[], &[], "allow local network");
    assert!(!report.ok);
    assert_eq!(report.checks[0].status, "error");
    assert_eq!(report.checks[1].status, "warn");
    assert_eq!(report.checks[2].status, "error");
    assert_eq!(report.checks[3].status, "warn");
    assert_eq!(report.suggestions.last().map(String::as_str), Some("allow local network"));
}

#[test]
fn network_report_flags_vpn_adapters_and_old_devices() {
    let report = build_network_report(
        1,
        Some("refused"),
        &discovery(true, true),
        &[("utun3".to_string(), "10.0.0.2".to_string()), ("en0".to_string(), "192.168.1.5".to_string())],
        &[DeviceFacts { address_count: 1, compatible: false }],
        "p",
    );
    assert!(!report.ok);
    assert_eq!(report.checks[0].detail, "本机无法连通 127.0.0.1:1：refused");
    assert!(report.checks.iter().any(|c| c.label == "VPN/虚拟网卡" && c.detail.contains("utun3 10.0.0.2")));
    assert!(report.checks.iter().any(|c| c.label == "已发现设备" && c.status == "warn"));
    assert!(report.suggestions.iter().any(|s| s.contains("升级两端")));
}

#[test]
fn vpn_like_names_are_recognised() {
    assert!(looks_like_virtual_or_vpn("utun3"));
    assert!(looks_like_virtual_or_vpn("VMware Network Adapter"));
    assert!(!looks_like_virtual_or_vpn("en0"));
}

#[test]
fn connection_tries_the_requested_address_first() {
    let advertised = vec![("10.0.0.1".to_string(), 9), ("192.168.1.2".to_string(), 7), ("10.0.0.1".to_string(), 9)];
    let c = connection_candidates("192.168.1.2", 7, &advertised);
    assert_eq!(c[0], ("192.168.1.2".to_string(), 7));
    assert!(c.contains(&("10.0.0.1".to_string(), 9)));
}

#[test]
fn peer_identity_needs_both_parts() {
    assert!(peer_identity_from_args(Some("d".to_string()), Some(vec![1])).is_some());
    assert!(peer_identity_from_args(Some(String::new()), Some(vec![1])).is_none());
    assert!(peer_identity_from_args(None, Some(vec![1])).is_none());
    assert!(peer_identity_from_args(Some("d".to_string()), Some(vec![])).is_none());
}

#[test]
fn ipv4_addresses_are_written_in_dotted_decimal() {
    assert_eq!(format_ipv4([192, 168, 1, 20]), "192.168.1.20");
    assert_eq!(format_ipv4([0, 0, 0, 0]), "0.0.0.0");
    assert_eq!(format_ipv4([255, 255, 255, 255]), "255.255.255.255");
}

#[test]
fn loopback_link_local_and_unspecified_adapters_are_not_reported() {
    let interfaces = vec![
        ("lo".to_string(), [127, 0, 0, 1]),
        ("en0".to_string(), [192, 168, 1, 20]),
        ("llw0".to_string(), [169, 254, 3, 4]),
        ("none".to_string(), [0, 0, 0, 0]),
        ("en1".to_string(), [10, 0, 0, 7]),
    ];
    let adapters = lan_ipv4_adapters(&interfaces);
    assert_eq!(
        adapters,
        vec![
            ("en0".to_string(), "192.168.1.20".to_string()),
            ("en1".to_string(), "10.0.0.7".to_string()),
        ]
    );
}

#[test]
fn app_errors_read_as_their_messages() {
    assert_eq!(AppError::PeerOffline.message(), "peer is offline");
    assert_eq!(AppError::FolderMissing("/a/b".to_string()).message(), "folder missing: /a/b");
    assert_eq!(AppError::HashMismatch("x.txt".to_string()).message(), "hash mismatch for x.txt");
    assert_eq!(
        AppError::ConflictRequired("doc.md".to_string()).message(),
        "conflict requires user decision for doc.md"
    );
    assert_eq!(
        AppError::HistoryLimitReached("7".to_string()).message(),
        "history storage limit reached for task 7"
    );
    assert_eq!(AppError::DiskFull.message(), "disk full");
}

#[test]
fn a_file_moved_into_history_is_found_again_with_its_time_and_path() {
    let store = HistoryStore::new("/sync");
    for (time, path) in [(1_700_000_000_123i64, "docs/report.txt"), (-42, "x"), (0, "a/b/c")] {
        let stored = store.trash_destination(path, time);
        let below = stored.strip_prefix(&format!("{}/", store.trash_dir())).unwrap();
        let parts: Vec<String> = below.split('/').map(|s| s.to_string()).collect();
        assert_eq!(discovered_origin(&parts, 7), Some((time, path.to_string())));
    }
}
