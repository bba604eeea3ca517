//! How records are laid out in the state database: the column values each
//! record is written as, and the record each row reads back as.
//!
//! Enumerations are stored under their variant names, flags as 1 or 0, and
//! ids in hyphenated UUID form. Reading is lenient where the schema allows
//! old or foreign values: an unknown name reads as a fixed default variant.
use vstd::prelude::*;
use crate::ids::{format_uuid, parse_uuid, uuid_hyphenated, uuid_parse_value};
use crate::model::{opt_string_copy, 
    ChangeKind, DeviceRole, EntryKind, FileSnapshot, HashStatus, HistoryEntry, HistoryReason, LogEntry, LogLevel,
    PendingReturnChange, SyncBaseline, SyncTask,
};
use crate::tasks::{parse_log_level, role_name, role_name_spec};
use crate::coordinator::{contains_path, path_set};
use crate::text::{chars_of, push_char, str_eq, to_owned_string};
use crate::transfers::DeferredTransferRecord;

verus! {

// ---------------------------------------------------------------------------
// Column codecs
// ---------------------------------------------------------------------------

/// The role a stored role name reads as: `Primary`, or else `Secondary`.
pub open spec fn role_from_column_spec(s: Seq<char>) -> DeviceRole {
    if s == "Primary"@ {
        DeviceRole::Primary
    } else {
        DeviceRole::Secondary
    }
}

/// Reads a stored role name.
pub fn role_from_column(s: &str) -> (r: DeviceRole)
    ensures
        r == role_from_column_spec(s@),
{
    if str_eq(s, "Primary") {
        DeviceRole::Primary
    } else {
        DeviceRole::Secondary
    }
}

/// The name an entry kind is stored under.
pub open spec fn kind_column_spec(k: EntryKind) -> Seq<char> {
    match k {
        EntryKind::File => "File"@,
        EntryKind::Directory => "Directory"@,
    }
}

/// The kind a stored name reads as: `Directory`, or else `File`.
pub open spec fn kind_from_column_spec(s: Seq<char>) -> EntryKind {
    if s == "Directory"@ {
        EntryKind::Directory
    } else {
        EntryKind::File
    }
}

/// The stored name of an entry kind.
pub fn kind_column(k: EntryKind) -> (r: &'static str)
    ensures
        r@ == kind_column_spec(k),
{
    match k {
        EntryKind::File => "File",
        EntryKind::Directory => "Directory",
    }
}

/// Reads a stored entry kind.
pub fn kind_from_column(s: &str) -> (r: EntryKind)
    ensures
        r == kind_from_column_spec(s@),
{
    if str_eq(s, "Directory") {
        EntryKind::Directory
    } else {
        EntryKind::File
    }
}

/// The name a hash status is stored under.
pub open spec fn hash_status_column_spec(h: HashStatus) -> Seq<char> {
    match h {
        HashStatus::Verified => "Verified"@,
        HashStatus::UnverifiedLargeFile => "UnverifiedLargeFile"@,
        HashStatus::Unavailable => "Unavailable"@,
    }
}

/// The status a stored name reads as; anything unknown is `Unavailable`.
pub open spec fn hash_status_from_column_spec(s: Seq<char>) -> HashStatus {
    if s == "Verified"@ {
        HashStatus::Verified
    } else if s == "UnverifiedLargeFile"@ {
        HashStatus::UnverifiedLargeFile
    } else {
        HashStatus::Unavailable
    }
}

/// The stored name of a hash status.
pub fn hash_status_column(h: HashStatus) -> (r: &'static str)
    ensures
        r@ == hash_status_column_spec(h),
{
    match h {
        HashStatus::Verified => "Verified",
        HashStatus::UnverifiedLargeFile => "UnverifiedLargeFile",
        HashStatus::Unavailable => "Unavailable",
    }
}

/// Reads a stored hash status.
pub fn hash_status_from_column(s: &str) -> (r: HashStatus)
    ensures
        r == hash_status_from_column_spec(s@),
{
    if str_eq(s, "Verified") {
        HashStatus::Verified
    } else if str_eq(s, "UnverifiedLargeFile") {
        HashStatus::UnverifiedLargeFile
    } else {
        HashStatus::Unavailable
    }
}

/// The name a change kind is stored under.
pub open spec fn change_kind_column_spec(c: ChangeKind) -> Seq<char> {
    match c {
        ChangeKind::Created => "Created"@,
        ChangeKind::Modified => "Modified"@,
        ChangeKind::Deleted => "Deleted"@,
    }
}

/// The change kind a stored name reads as; anything unknown is `Deleted`.
pub open spec fn change_kind_from_column_spec(s: Seq<char>) -> ChangeKind {
    if s == "Created"@ {
        ChangeKind::Created
    } else if s == "Modified"@ {
        ChangeKind::Modified
    } else {
        ChangeKind::Deleted
    }
}

/// The stored name of a change kind.
pub fn change_kind_column(c: ChangeKind) -> (r: &'static str)
    ensures
        r@ == change_kind_column_spec(c),
{
    match c {
        ChangeKind::Created => "Created",
        ChangeKind::Modified => "Modified",
        ChangeKind::Deleted => "Deleted",
    }
}

/// Reads a stored change kind.
pub fn change_kind_from_column(s: &str) -> (r: ChangeKind)
    ensures
        r == change_kind_from_column_spec(s@),
{
    if str_eq(s, "Created") {
        ChangeKind::Created
    } else if str_eq(s, "Modified") {
        ChangeKind::Modified
    } else {
        ChangeKind::Deleted
    }
}

/// The name a history reason is stored under.
pub open spec fn reason_column_spec(r: HistoryReason) -> Seq<char> {
    match r {
        HistoryReason::Trash => "Trash"@,
        HistoryReason::Overwritten => "Overwritten"@,
    }
}

/// The reason a stored name reads as: `Overwritten`, or else `Trash`.
pub open spec fn reason_from_column_spec(s: Seq<char>) -> HistoryReason {
    if s == "Overwritten"@ {
        HistoryReason::Overwritten
    } else {
        HistoryReason::Trash
    }
}

/// The stored name of a history reason.
pub fn reason_column(reason: HistoryReason) -> (r: &'static str)
    ensures
        r@ == reason_column_spec(reason),
{
    match reason {
        HistoryReason::Trash => "Trash",
        HistoryReason::Overwritten => "Overwritten",
    }
}

/// Reads a stored history reason.
pub fn reason_from_column(s: &str) -> (r: HistoryReason)
    ensures
        r == reason_from_column_spec(s@),
{
    if str_eq(s, "Overwritten") {
        HistoryReason::Overwritten
    } else {
        HistoryReason::Trash
    }
}

/// The name a log level is stored under.
pub open spec fn level_column_spec(l: LogLevel) -> Seq<char> {
    match l {
        LogLevel::Info => "Info"@,
        LogLevel::Warn => "Warn"@,
        LogLevel::Error => "Error"@,
    }
}

/// The level a stored name reads as; anything unknown is `Info`.
pub open spec fn level_from_column_spec(s: Seq<char>) -> LogLevel {
    if s == "Warn"@ {
        LogLevel::Warn
    } else if s == "Error"@ {
        LogLevel::Error
    } else {
        LogLevel::Info
    }
}

/// The stored name of a log level.
pub fn level_column(l: LogLevel) -> (r: &'static str)
    ensures
        r@ == level_column_spec(l),
{
    match l {
        LogLevel::Info => "Info",
        LogLevel::Warn => "Warn",
        LogLevel::Error => "Error",
    }
}

/// A flag as stored: 1 for set, 0 for clear.
pub open spec fn flag_column_spec(b: bool) -> i32 {
    if b {
        1
    } else {
        0
    }
}

/// The stored value of a flag.
pub fn flag_column(b: bool) -> (r: i32)
    ensures
        r == flag_column_spec(b),
{
    if b {
        1
    } else {
        0
    }
}

/// Reads a stored flag: any non-zero value is set.
pub fn flag_from_column(v: i32) -> (r: bool)
    ensures
        r == (v != 0),
{
    v != 0
}

/// Every stored name reads back as the value it was written for.
pub proof fn law_column_names_read_back(
    role: DeviceRole,
    kind: EntryKind,
    status: HashStatus,
    change: ChangeKind,
    reason: HistoryReason,
    level: LogLevel,
    flag: bool,
)
    ensures
        role_from_column_spec(role_name_spec(role)) == role,
        kind_from_column_spec(kind_column_spec(kind)) == kind,
        hash_status_from_column_spec(hash_status_column_spec(status)) == status,
        change_kind_from_column_spec(change_kind_column_spec(change)) == change,
        reason_from_column_spec(reason_column_spec(reason)) == reason,
        level_from_column_spec(level_column_spec(level)) == level,
        (flag_column_spec(flag) != 0) == flag,
{
    reveal_strlit("Primary");
    reveal_strlit("Secondary");
    reveal_strlit("File");
    reveal_strlit("Directory");
    reveal_strlit("Verified");
    reveal_strlit("UnverifiedLargeFile");
    reveal_strlit("Unavailable");
    reveal_strlit("Created");
    reveal_strlit("Modified");
    reveal_strlit("Deleted");
    reveal_strlit("Trash");
    reveal_strlit("Overwritten");
    reveal_strlit("Info");
    reveal_strlit("Warn");
    reveal_strlit("Error");
    assert("Secondary"@ != "Primary"@) by { assert("Secondary"@[0] != "Primary"@[0]); }
    assert("File"@ != "Directory"@) by { assert("File"@[0] != "Directory"@[0]); }
    assert("UnverifiedLargeFile"@ != "Verified"@) by { assert("UnverifiedLargeFile"@[0] != "Verified"@[0]); }
    assert("Unavailable"@ != "Verified"@) by { assert("Unavailable"@[0] != "Verified"@[0]); }
    assert("Unavailable"@ != "UnverifiedLargeFile"@) by { assert("Unavailable"@.len() != "UnverifiedLargeFile"@.len()); }
    assert("Modified"@ != "Created"@) by { assert("Modified"@[0] != "Created"@[0]); }
    assert("Deleted"@ != "Created"@) by { assert("Deleted"@[0] != "Created"@[0]); }
    assert("Deleted"@ != "Modified"@) by { assert("Deleted"@[0] != "Modified"@[0]); }
    assert("Trash"@ != "Overwritten"@) by { assert("Trash"@[0] != "Overwritten"@[0]); }
    assert("Info"@ != "Warn"@) by { assert("Info"@[0] != "Warn"@[0]); }
    assert("Info"@ != "Error"@) by { assert("Info"@[0] != "Error"@[0]); }
    assert("Error"@ != "Warn"@) by { assert("Error"@[0] != "Warn"@[0]); }
}


/// The text an id is stored and looked up under: its hyphenated form.
pub fn id_column(id: u128) -> (r: String)
    ensures
        r@ == uuid_hyphenated(id),
{
    format_uuid(id)
}

// ---------------------------------------------------------------------------
// Rows
// ---------------------------------------------------------------------------

/// The columns of a `sync_tasks` row.
pub struct TaskRow {
    pub id: String,
    pub name: String,
    pub primary_device_id: String,
    pub secondary_device_id: String,
    pub local_path: String,
    pub remote_path: String,
    pub local_role: String,
    pub enabled: i32,
    pub created_unix_ms: i64,
    pub updated_unix_ms: i64,
}

/// `row` holds the columns `t` is written as.
pub open spec fn is_task_row(row: TaskRow, t: SyncTask) -> bool {
    &&& row.id@ == uuid_hyphenated(t.id)
    &&& row.name == t.name
    &&& row.primary_device_id == t.primary_device_id
    &&& row.secondary_device_id == t.secondary_device_id
    &&& row.local_path == t.local_path
    &&& row.remote_path == t.remote_path
    &&& row.local_role@ == role_name_spec(t.local_role)
    &&& row.enabled == flag_column_spec(t.enabled)
    &&& row.created_unix_ms == t.created_unix_ms
    &&& row.updated_unix_ms == t.updated_unix_ms
}

/// The task a row reads as, given the id its id column names.
pub open spec fn task_of_row(row: TaskRow, id: u128) -> SyncTask {
    SyncTask {
        id,
        name: row.name,
        primary_device_id: row.primary_device_id,
        secondary_device_id: row.secondary_device_id,
        local_path: row.local_path,
        remote_path: row.remote_path,
        local_role: role_from_column_spec(row.local_role@),
        enabled: row.enabled != 0,
        created_unix_ms: row.created_unix_ms,
        updated_unix_ms: row.updated_unix_ms,
    }
}

/// The columns a task is written as.
pub fn task_row(t: &SyncTask) -> (r: TaskRow)
    ensures
        is_task_row(r, *t),
{
    TaskRow {
        id: id_column(t.id),
        name: t.name.clone(),
        primary_device_id: t.primary_device_id.clone(),
        secondary_device_id: t.secondary_device_id.clone(),
        local_path: t.local_path.clone(),
        remote_path: t.remote_path.clone(),
        local_role: to_owned_string(role_name(t.local_role)),
        enabled: flag_column(t.enabled),
        created_unix_ms: t.created_unix_ms,
        updated_unix_ms: t.updated_unix_ms,
    }
}

/// The task a row reads as; `None` when its id column is no UUID.
pub fn task_from_row(row: TaskRow) -> (r: Option<SyncTask>)
    ensures
        r == (match uuid_parse_value(row.id@) {
            Some(id) => Some(task_of_row(row, id)),
            None => None,
        }),
        forall|x: u128| #[trigger] uuid_hyphenated(x) == row.id@ ==> r == Some(task_of_row(row, x)),
{
    match parse_uuid(row.id.as_str()) {
        Some(id) => {
            let local_role = role_from_column(row.local_role.as_str());
            Some(SyncTask {
                id,
                name: row.name,
                primary_device_id: row.primary_device_id,
                secondary_device_id: row.secondary_device_id,
                local_path: row.local_path,
                remote_path: row.remote_path,
                local_role,
                enabled: flag_from_column(row.enabled),
                created_unix_ms: row.created_unix_ms,
                updated_unix_ms: row.updated_unix_ms,
            })
        },
        None => None,
    }
}

/// A task written as a row reads back as the same task under the id its
/// text names.
pub proof fn law_task_row_reads_back(t: SyncTask, row: TaskRow)
    requires
        is_task_row(row, t),
    ensures
        task_of_row(row, t.id) == t,
{
    law_column_names_read_back(t.local_role, EntryKind::File, HashStatus::Verified, ChangeKind::Created,
        HistoryReason::Trash, LogLevel::Info, t.enabled);
}

/// The columns of a `file_snapshots` row.
pub struct SnapshotRow {
    pub task_id: String,
    pub relative_path: String,
    pub kind: String,
    pub size: i64,
    pub modified_unix_ms: i64,
    pub blake3_hash: Option<String>,
    pub hash_status: String,
    pub deleted: i32,
    pub is_symlink: i32,
}

/// `row` holds the columns `s` is written as.
pub open spec fn is_snapshot_row(row: SnapshotRow, s: FileSnapshot) -> bool {
    &&& row.task_id@ == uuid_hyphenated(s.task_id)
    &&& row.relative_path == s.relative_path
    &&& row.kind@ == kind_column_spec(s.kind)
    &&& row.size == s.size
    &&& row.modified_unix_ms == s.modified_unix_ms
    &&& row.blake3_hash == s.blake3_hash
    &&& row.hash_status@ == hash_status_column_spec(s.hash_status)
    &&& row.deleted == flag_column_spec(s.deleted)
    &&& row.is_symlink == flag_column_spec(s.is_symlink)
}

/// The snapshot a row reads as, given the task id its column names.
pub open spec fn snapshot_of_row(row: SnapshotRow, task_id: u128) -> FileSnapshot {
    FileSnapshot {
        task_id,
        relative_path: row.relative_path,
        kind: kind_from_column_spec(row.kind@),
        size: row.size,
        modified_unix_ms: row.modified_unix_ms,
        blake3_hash: row.blake3_hash,
        hash_status: hash_status_from_column_spec(row.hash_status@),
        deleted: row.deleted != 0,
        is_symlink: row.is_symlink != 0,
    }
}

/// The columns a snapshot is written as.
pub fn snapshot_row(s: &FileSnapshot) -> (r: SnapshotRow)
    ensures
        is_snapshot_row(r, *s),
{
    SnapshotRow {
        task_id: id_column(s.task_id),
        relative_path: s.relative_path.clone(),
        kind: to_owned_string(kind_column(s.kind)),
        size: s.size,
        modified_unix_ms: s.modified_unix_ms,
        blake3_hash: opt_string_copy(&s.blake3_hash),
        hash_status: to_owned_string(hash_status_column(s.hash_status)),
        deleted: flag_column(s.deleted),
        is_symlink: flag_column(s.is_symlink),
    }
}

/// The snapshot a row reads as; `None` when its task id column is no UUID.
pub fn snapshot_from_row(row: SnapshotRow) -> (r: Option<FileSnapshot>)
    ensures
        r == (match uuid_parse_value(row.task_id@) {
            Some(id) => Some(snapshot_of_row(row, id)),
            None => None,
        }),
        forall|x: u128| #[trigger] uuid_hyphenated(x) == row.task_id@ ==> r == Some(snapshot_of_row(row, x)),
{
    match parse_uuid(row.task_id.as_str()) {
        Some(task_id) => {
            let kind = kind_from_column(row.kind.as_str());
            let hash_status = hash_status_from_column(row.hash_status.as_str());
            Some(FileSnapshot {
                task_id,
                relative_path: row.relative_path,
                kind,
                size: row.size,
                modified_unix_ms: row.modified_unix_ms,
                blake3_hash: row.blake3_hash,
                hash_status,
                deleted: flag_from_column(row.deleted),
                is_symlink: flag_from_column(row.is_symlink),
            })
        },
        None => None,
    }
}

/// A snapshot written as a row reads back as the same snapshot under the
/// task id its text names.
pub proof fn law_snapshot_row_reads_back(s: FileSnapshot, row: SnapshotRow)
    requires
        is_snapshot_row(row, s),
    ensures
        snapshot_of_row(row, s.task_id) == s,
{
    law_column_names_read_back(DeviceRole::Primary, s.kind, s.hash_status, ChangeKind::Created,
        HistoryReason::Trash, LogLevel::Info, s.deleted);
    law_column_names_read_back(DeviceRole::Primary, s.kind, s.hash_status, ChangeKind::Created,
        HistoryReason::Trash, LogLevel::Info, s.is_symlink);
}

/// The columns of a `sync_baselines` row.
pub struct BaselineRow {
    pub task_id: String,
    pub relative_path: String,
    pub primary_hash: Option<String>,
    pub primary_hash_status: String,
    pub primary_size: i64,
    pub secondary_size: i64,
    pub primary_modified_unix_ms: i64,
    pub secondary_hash: Option<String>,
    pub secondary_hash_status: String,
    pub secondary_modified_unix_ms: i64,
    pub last_synced_unix_ms: i64,
}

/// `row` holds the columns `b` is written as.
pub open spec fn is_baseline_row(row: BaselineRow, b: SyncBaseline) -> bool {
    &&& row.task_id@ == uuid_hyphenated(b.task_id)
    &&& row.relative_path == b.relative_path
    &&& row.primary_hash == b.primary_hash
    &&& row.primary_hash_status@ == hash_status_column_spec(b.primary_hash_status)
    &&& row.primary_size == b.primary_size
    &&& row.secondary_size == b.secondary_size
    &&& row.primary_modified_unix_ms == b.primary_modified_unix_ms
    &&& row.secondary_hash == b.secondary_hash
    &&& row.secondary_hash_status@ == hash_status_column_spec(b.secondary_hash_status)
    &&& row.secondary_modified_unix_ms == b.secondary_modified_unix_ms
    &&& row.last_synced_unix_ms == b.last_synced_unix_ms
}

/// The baseline a row reads as, given the task id its column names.
pub open spec fn baseline_of_row(row: BaselineRow, task_id: u128) -> SyncBaseline {
    SyncBaseline {
        task_id,
        relative_path: row.relative_path,
        primary_hash: row.primary_hash,
        primary_hash_status: hash_status_from_column_spec(row.primary_hash_status@),
        primary_size: row.primary_size,
        secondary_size: row.secondary_size,
        primary_modified_unix_ms: row.primary_modified_unix_ms,
        secondary_hash: row.secondary_hash,
        secondary_hash_status: hash_status_from_column_spec(row.secondary_hash_status@),
        secondary_modified_unix_ms: row.secondary_modified_unix_ms,
        last_synced_unix_ms: row.last_synced_unix_ms,
    }
}

/// The columns a baseline is written as.
pub fn baseline_row(b: &SyncBaseline) -> (r: BaselineRow)
    ensures
        is_baseline_row(r, *b),
{
    BaselineRow {
        task_id: id_column(b.task_id),
        relative_path: b.relative_path.clone(),
        primary_hash: opt_string_copy(&b.primary_hash),
        primary_hash_status: to_owned_string(hash_status_column(b.primary_hash_status)),
        primary_size: b.primary_size,
        secondary_size: b.secondary_size,
        primary_modified_unix_ms: b.primary_modified_unix_ms,
        secondary_hash: opt_string_copy(&b.secondary_hash),
        secondary_hash_status: to_owned_string(hash_status_column(b.secondary_hash_status)),
        secondary_modified_unix_ms: b.secondary_modified_unix_ms,
        last_synced_unix_ms: b.last_synced_unix_ms,
    }
}

/// The baseline a row reads as; `None` when its task id column is no UUID.
pub fn baseline_from_row(row: BaselineRow) -> (r: Option<SyncBaseline>)
    ensures
        r == (match uuid_parse_value(row.task_id@) {
            Some(id) => Some(baseline_of_row(row, id)),
            None => None,
        }),
        forall|x: u128| #[trigger] uuid_hyphenated(x) == row.task_id@ ==> r == Some(baseline_of_row(row, x)),
{
    match parse_uuid(row.task_id.as_str()) {
        Some(task_id) => {
            let primary_hash_status = hash_status_from_column(row.primary_hash_status.as_str());
            let secondary_hash_status = hash_status_from_column(row.secondary_hash_status.as_str());
            Some(SyncBaseline {
                task_id,
                relative_path: row.relative_path,
                primary_hash: row.primary_hash,
                primary_hash_status,
                primary_size: row.primary_size,
                secondary_size: row.secondary_size,
                primary_modified_unix_ms: row.primary_modified_unix_ms,
                secondary_hash: row.secondary_hash,
                secondary_hash_status,
                secondary_modified_unix_ms: row.secondary_modified_unix_ms,
                last_synced_unix_ms: row.last_synced_unix_ms,
            })
        },
        None => None,
    }
}

/// A baseline written as a row reads back as the same baseline under the
/// task id its text names.
pub proof fn law_baseline_row_reads_back(b: SyncBaseline, row: BaselineRow)
    requires
        is_baseline_row(row, b),
    ensures
        baseline_of_row(row, b.task_id) == b,
{
    law_column_names_read_back(DeviceRole::Primary, EntryKind::File, b.primary_hash_status, ChangeKind::Created,
        HistoryReason::Trash, LogLevel::Info, true);
    law_column_names_read_back(DeviceRole::Primary, EntryKind::File, b.secondary_hash_status, ChangeKind::Created,
        HistoryReason::Trash, LogLevel::Info, true);
}

/// The columns of a `pending_return_changes` row.
pub struct PendingRow {
    pub task_id: String,
    pub relative_path: String,
    pub change_kind: String,
    pub secondary_hash: Option<String>,
    pub secondary_hash_status: String,
    pub secondary_modified_unix_ms: i64,
    pub created_unix_ms: i64,
}

/// `row` holds the columns `c` is written as.
pub open spec fn is_pending_row(row: PendingRow, c: PendingReturnChange) -> bool {
    &&& row.task_id@ == uuid_hyphenated(c.task_id)
    &&& row.relative_path == c.relative_path
    &&& row.change_kind@ == change_kind_column_spec(c.change_kind)
    &&& row.secondary_hash == c.secondary_hash
    &&& row.secondary_hash_status@ == hash_status_column_spec(c.secondary_hash_status)
    &&& row.secondary_modified_unix_ms == c.secondary_modified_unix_ms
    &&& row.created_unix_ms == c.created_unix_ms
}

/// The pending change a row reads as, given the task id its column names.
pub open spec fn pending_of_row(row: PendingRow, task_id: u128) -> PendingReturnChange {
    PendingReturnChange {
        task_id,
        relative_path: row.relative_path,
        change_kind: change_kind_from_column_spec(row.change_kind@),
        secondary_hash: row.secondary_hash,
        secondary_hash_status: hash_status_from_column_spec(row.secondary_hash_status@),
        secondary_modified_unix_ms: row.secondary_modified_unix_ms,
        created_unix_ms: row.created_unix_ms,
    }
}

/// The columns a pending change is written as.
pub fn pending_row(c: &PendingReturnChange) -> (r: PendingRow)
    ensures
        is_pending_row(r, *c),
{
    PendingRow {
        task_id: id_column(c.task_id),
        relative_path: c.relative_path.clone(),
        change_kind: to_owned_string(change_kind_column(c.change_kind)),
        secondary_hash: opt_string_copy(&c.secondary_hash),
        secondary_hash_status: to_owned_string(hash_status_column(c.secondary_hash_status)),
        secondary_modified_unix_ms: c.secondary_modified_unix_ms,
        created_unix_ms: c.created_unix_ms,
    }
}

/// The pending change a row reads as; `None` when its task id column is no UUID.
pub fn pending_from_row(row: PendingRow) -> (r: Option<PendingReturnChange>)
    ensures
        r == (match uuid_parse_value(row.task_id@) {
            Some(id) => Some(pending_of_row(row, id)),
            None => None,
        }),
        forall|x: u128| #[trigger] uuid_hyphenated(x) == row.task_id@ ==> r == Some(pending_of_row(row, x)),
{
    match parse_uuid(row.task_id.as_str()) {
        Some(task_id) => {
            let change_kind = change_kind_from_column(row.change_kind.as_str());
            let secondary_hash_status = hash_status_from_column(row.secondary_hash_status.as_str());
            Some(PendingReturnChange {
                task_id,
                relative_path: row.relative_path,
                change_kind,
                secondary_hash: row.secondary_hash,
                secondary_hash_status,
                secondary_modified_unix_ms: row.secondary_modified_unix_ms,
                created_unix_ms: row.created_unix_ms,
            })
        },
        None => None,
    }
}

/// A pending change written as a row reads back as the same change under
/// the task id its text names.
pub proof fn law_pending_row_reads_back(c: PendingReturnChange, row: PendingRow)
    requires
        is_pending_row(row, c),
    ensures
        pending_of_row(row, c.task_id) == c,
{
    law_column_names_read_back(DeviceRole::Primary, EntryKind::File, c.secondary_hash_status, c.change_kind,
        HistoryReason::Trash, LogLevel::Info, true);
}

/// The columns of a `history_entries` row.
pub struct HistoryRow {
    pub id: String,
    pub task_id: String,
    pub original_relative_path: String,
    pub stored_path: String,
    pub reason: String,
    pub created_unix_ms: i64,
    pub size: i64,
}

/// `row` holds the columns `e` is written as.
pub open spec fn is_history_row(row: HistoryRow, e: HistoryEntry) -> bool {
    &&& row.id@ == uuid_hyphenated(e.id)
    &&& row.task_id@ == uuid_hyphenated(e.task_id)
    &&& row.original_relative_path == e.original_relative_path
    &&& row.stored_path == e.stored_path
    &&& row.reason@ == reason_column_spec(e.reason)
    &&& row.created_unix_ms == e.created_unix_ms
    &&& row.size == e.size
}

/// The history entry a row reads as, given the ids its columns name.
pub open spec fn history_of_row(row: HistoryRow, id: u128, task_id: u128) -> HistoryEntry {
    HistoryEntry {
        id,
        task_id,
        original_relative_path: row.original_relative_path,
        stored_path: row.stored_path,
        reason: reason_from_column_spec(row.reason@),
        created_unix_ms: row.created_unix_ms,
        size: row.size,
    }
}

/// The columns a history entry is written as.
pub fn history_row(e: &HistoryEntry) -> (r: HistoryRow)
    ensures
        is_history_row(r, *e),
{
    HistoryRow {
        id: id_column(e.id),
        task_id: id_column(e.task_id),
        original_relative_path: e.original_relative_path.clone(),
        stored_path: e.stored_path.clone(),
        reason: to_owned_string(reason_column(e.reason)),
        created_unix_ms: e.created_unix_ms,
        size: e.size,
    }
}

/// The history entry a row reads as; `None` when either id column is no UUID.
pub fn history_from_row(row: HistoryRow) -> (r: Option<HistoryEntry>)
    ensures
        r == (match (uuid_parse_value(row.id@), uuid_parse_value(row.task_id@)) {
            (Some(id), Some(task_id)) => Some(history_of_row(row, id, task_id)),
            _ => None,
        }),
        forall|x: u128, y: u128|
            #![trigger uuid_hyphenated(x), uuid_hyphenated(y)]
            uuid_hyphenated(x) == row.id@ && uuid_hyphenated(y) == row.task_id@ ==> r == Some(history_of_row(row, x, y)),
{
    let id = parse_uuid(row.id.as_str());
    let task_id = parse_uuid(row.task_id.as_str());
    match (id, task_id) {
        (Some(id), Some(task_id)) => {
            let reason = reason_from_column(row.reason.as_str());
            Some(HistoryEntry {
                id,
                task_id,
                original_relative_path: row.original_relative_path,
                stored_path: row.stored_path,
                reason,
                created_unix_ms: row.created_unix_ms,
                size: row.size,
            })
        },
        _ => None,
    }
}

/// A history entry written as a row reads back as the same entry under the
/// ids its texts name.
pub proof fn law_history_row_reads_back(e: HistoryEntry, row: HistoryRow)
    requires
        is_history_row(row, e),
    ensures
        history_of_row(row, e.id, e.task_id) == e,
{
    law_column_names_read_back(DeviceRole::Primary, EntryKind::File, HashStatus::Verified, ChangeKind::Created,
        e.reason, LogLevel::Info, true);
}

/// The columns of a `deferred_transfers` row.
pub struct DeferredRow {
    pub task_id: String,
    pub relative_path: String,
    pub direction: String,
    pub reason: String,
    pub created_unix_ms: i64,
}

/// The columns a deferred transfer is written as.
pub fn deferred_row(d: &DeferredTransferRecord) -> (r: DeferredRow)
    ensures
        r.task_id@ == uuid_hyphenated(d.task_id),
        r.relative_path == d.relative_path,
        r.direction == d.direction,
        r.reason == d.reason,
        r.created_unix_ms == d.created_unix_ms,
{
    DeferredRow {
        task_id: id_column(d.task_id),
        relative_path: d.relative_path.clone(),
        direction: d.direction.clone(),
        reason: d.reason.clone(),
        created_unix_ms: d.created_unix_ms,
    }
}

/// The deferred transfer a row reads as; `None` when its task id column is no UUID.
pub fn deferred_from_row(row: DeferredRow) -> (r: Option<DeferredTransferRecord>)
    ensures
        r == (match uuid_parse_value(row.task_id@) {
            Some(id) => Some(DeferredTransferRecord {
                task_id: id,
                relative_path: row.relative_path,
                direction: row.direction,
                reason: row.reason,
                created_unix_ms: row.created_unix_ms,
            }),
            None => None,
        }),
        forall|x: u128| #[trigger] uuid_hyphenated(x) == row.task_id@ ==> (r matches Some(d) && d.task_id == x),
{
    match parse_uuid(row.task_id.as_str()) {
        Some(task_id) => Some(DeferredTransferRecord {
            task_id,
            relative_path: row.relative_path,
            direction: row.direction,
            reason: row.reason,
            created_unix_ms: row.created_unix_ms,
        }),
        None => None,
    }
}

/// The columns of an `event_logs` row; `id` is the row's own key, absent
/// before the row is inserted.
pub struct LogRow {
    pub id: Option<i64>,
    pub level: String,
    pub task_id: Option<String>,
    pub relative_path: Option<String>,
    pub message: String,
    pub created_unix_ms: i64,
}

/// The columns a log entry is written as.
pub fn log_row(e: &LogEntry) -> (r: LogRow)
    ensures
        r.id == e.id,
        r.level@ == level_column_spec(e.level),
        match e.task_id {
            Some(t) => r.task_id matches Some(s) && s@ == uuid_hyphenated(t),
            None => r.task_id is None,
        },
        r.relative_path == e.relative_path,
        r.message == e.message,
        r.created_unix_ms == e.created_unix_ms,
{
    let task_id = match e.task_id {
        Some(t) => Some(id_column(t)),
        None => None,
    };
    LogRow {
        id: e.id,
        level: to_owned_string(level_column(e.level)),
        task_id,
        relative_path: opt_string_copy(&e.relative_path),
        message: e.message.clone(),
        created_unix_ms: e.created_unix_ms,
    }
}

/// The task id a log row's column names: none where the column is empty or
/// holds no UUID.
pub open spec fn log_task_of_row(row: LogRow) -> Option<u128> {
    match row.task_id {
        Some(s) => uuid_parse_value(s@),
        None => None,
    }
}

/// The log entry a row reads as. A task id that is no UUID reads as no task.
pub fn log_from_row(row: LogRow) -> (r: LogEntry)
    ensures
        r == (LogEntry {
            id: row.id,
            level: level_from_column_spec(row.level@),
            task_id: log_task_of_row(row),
            relative_path: row.relative_path,
            message: row.message,
            created_unix_ms: row.created_unix_ms,
        }),
        forall|x: u128| (row.task_id matches Some(s) && #[trigger] uuid_hyphenated(x) == s@) ==> r.task_id == Some(x),
{
    let task_id = match &row.task_id {
        Some(s) => parse_uuid(s.as_str()),
        None => None,
    };
    let level = parse_log_level(row.level.as_str());
    LogEntry {
        id: row.id,
        level,
        task_id,
        relative_path: row.relative_path,
        message: row.message,
        created_unix_ms: row.created_unix_ms,
    }
}

// ---------------------------------------------------------------------------
// Row selections
// ---------------------------------------------------------------------------

/// `s` without the `/` characters it ends with.
pub open spec fn trim_trailing_slashes(s: Seq<char>) -> Seq<char>
    decreases s.len(),
{
    if s.len() > 0 && s.last() == '/' {
        trim_trailing_slashes(s.drop_last())
    } else {
        s
    }
}

/// The `LIKE` pattern that, beside the path itself, selects every row
/// below `relative_path`: the path without trailing `/`, then `/%`.
pub fn subtree_like_pattern(relative_path: &str) -> (r: String)
    ensures
        r@ == trim_trailing_slashes(relative_path@) + "/%"@,
{
    let v = chars_of(relative_path);
    let mut end: usize = v.len();
    assert(v@.take(end as int) =~= v@);
    while end > 0 && v[end - 1] == '/'
        invariant
            end <= v@.len(),
            v@ == relative_path@,
            trim_trailing_slashes(v@) == trim_trailing_slashes(v@.take(end as int)),
        decreases end,
    {
        assert(v@.take(end as int).drop_last() =~= v@.take(end - 1));
        end = end - 1;
    }
    assert(trim_trailing_slashes(v@.take(end as int)) == v@.take(end as int));
    let mut out = String::new();
    let mut i: usize = 0;
    while i < end
        invariant
            i <= end <= v@.len(),
            out@ == v@.take(i as int),
        decreases end - i,
    {
        assert(v@.take(i + 1) =~= v@.take(i as int).push(v@[i as int]));
        push_char(&mut out, v[i]);
        i = i + 1;
    }
    push_char(&mut out, '/');
    push_char(&mut out, '%');
    proof {
        reveal_strlit("/%");
        assert(out@ =~= v@.take(end as int) + "/%"@);
    }
    out
}

/// Ids of the entries whose stored file is not among `existing`, in order.
pub open spec fn stale_history_ids_spec(entries: Seq<HistoryEntry>, existing: Seq<String>) -> Seq<u128>
    decreases entries.len(),
{
    if entries.len() == 0 {
        Seq::empty()
    } else {
        let rest = stale_history_ids_spec(entries.drop_last(), existing);
        if path_set(existing).contains(entries.last().stored_path@) {
            rest
        } else {
            rest.push(entries.last().id)
        }
    }
}

/// The history entries to forget because their stored files are gone: the
/// ids of those whose stored path is not among `existing_stored_paths`.
pub fn stale_history_ids(entries: &[HistoryEntry], existing_stored_paths: &Vec<String>) -> (r: Vec<u128>)
    ensures
        r@ == stale_history_ids_spec(entries@, existing_stored_paths@),
{
    let mut out: Vec<u128> = Vec::new();
    let mut i: usize = 0;
    while i < entries.len()
        invariant
            i <= entries@.len(),
            out@ == stale_history_ids_spec(entries@.take(i as int), existing_stored_paths@),
        decreases entries.len() - i,
    {
        assert(entries@.take(i + 1).drop_last() =~= entries@.take(i as int));
        if !contains_path(existing_stored_paths, entries[i].stored_path.as_str()) {
            out.push(entries[i].id);
        }
        i = i + 1;
    }
    assert(entries@.take(entries@.len() as int) =~= entries@);
    out
}

// ---------------------------------------------------------------------------
// Schema
// ---------------------------------------------------------------------------

/// The schema version the current migrations bring a database to.
pub const SCHEMA_VERSION: u32 = 5;

/// The migration steps a database at `version` still needs, in order: every
/// step above `version` up to `SCHEMA_VERSION`.
pub open spec fn migration_steps_spec(version: u32) -> Seq<u32> {
    if version >= SCHEMA_VERSION {
        Seq::empty()
    } else {
        Seq::new((SCHEMA_VERSION - version) as nat, |i: int| (version + 1 + i) as u32)
    }
}

/// The migration steps to run on a database at `version`.
pub fn migrations_to_run(version: u32) -> (r: Vec<u32>)
    ensures
        r@ == migration_steps_spec(version),
{
    let mut out: Vec<u32> = Vec::new();
    if version >= SCHEMA_VERSION {
        assert(out@ =~= migration_steps_spec(version));
        return out;
    }
    let mut step: u32 = version + 1;
    while step <= SCHEMA_VERSION
        invariant
            version < SCHEMA_VERSION,
            version + 1 <= step <= SCHEMA_VERSION + 1,
            out@ =~= Seq::new((step - version - 1) as nat, |i: int| (version + 1 + i) as u32),
        decreases SCHEMA_VERSION + 1 - step,
    {
        out.push(step);
        step = step + 1;
    }
    assert(out@ =~= migration_steps_spec(version));
    out
}

} // verus!
