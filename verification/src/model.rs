//! The data the sync engine reasons about: tasks, snapshots, baselines, pending returns, history.
//!
//! Identifiers (task ids, history ids) are 128-bit integers; they carry the
//! bits of the UUIDs the application stores.
use vstd::prelude::*;

verus! {

/// Device role in a sync task.
#[derive(Debug, Clone, Copy, PartialEq, Eq, Structural)]
pub enum DeviceRole {
    Primary,
    Secondary,
}

/// Entry type on disk.
#[derive(Debug, Clone, Copy, PartialEq, Eq, Structural)]
pub enum EntryKind {
    File,
    Directory,
}

/// Type of change detected.
#[derive(Debug, Clone, Copy, PartialEq, Eq, Structural)]
pub enum ChangeKind {
    Created,
    Modified,
    Deleted,
}

/// Hash verification status.
#[derive(Debug, Clone, Copy, PartialEq, Eq, Structural)]
pub enum HashStatus {
    Verified,
    UnverifiedLargeFile,
    Unavailable,
}

/// Planner output for each file.
#[derive(Debug, Clone, Copy, PartialEq, Eq, Structural)]
pub enum SyncDecision {
    /// Copy primary file to secondary.
    ApplyToSecondary,
    /// Move secondary file to history (primary delete).
    MoveSecondaryToHistory,
    /// Mark secondary change as pending return-sync.
    MarkPendingReturn,
    /// Conflict: user must decide.
    RequireConflictDecision,
    /// Keep both files (conflict resolution).
    KeepBoth,
    /// No action needed.
    Noop,
}

/// Reason a file was moved to history.
#[derive(Debug, Clone, Copy, PartialEq, Eq, Structural)]
pub enum HistoryReason {
    /// Primary deleted the file, secondary copy moved to trash.
    Trash,
    /// Old primary file backed up before overwrite.
    Overwritten,
}

/// Log severity level.
#[derive(Debug, Clone, Copy, PartialEq, Eq, Structural)]
pub enum LogLevel {
    Info,
    Warn,
    Error,
}

/// A configured sync task between two devices.
#[derive(Debug, Clone)]
pub struct SyncTask {
    pub id: u128,
    pub name: String,
    pub primary_device_id: String,
    pub secondary_device_id: String,
    pub local_path: String,
    pub remote_path: String,
    pub local_role: DeviceRole,
    pub enabled: bool,
    pub created_unix_ms: i64,
    pub updated_unix_ms: i64,
}

/// Snapshot of a file or directory at scan time.
#[derive(Debug, Clone)]
pub struct FileSnapshot {
    pub task_id: u128,
    pub relative_path: String,
    pub kind: EntryKind,
    pub size: i64,
    pub modified_unix_ms: i64,
    pub blake3_hash: Option<String>,
    pub hash_status: HashStatus,
    pub deleted: bool,
    pub is_symlink: bool,
}

/// Baseline state of a path as of its last successful sync.
#[derive(Debug, Clone)]
pub struct SyncBaseline {
    pub task_id: u128,
    pub relative_path: String,
    pub primary_hash: Option<String>,
    pub primary_hash_status: HashStatus,
    pub primary_size: i64,
    pub secondary_size: i64,
    pub primary_modified_unix_ms: i64,
    pub secondary_hash: Option<String>,
    pub secondary_hash_status: HashStatus,
    pub secondary_modified_unix_ms: i64,
    pub last_synced_unix_ms: i64,
}

/// A pending change on the secondary side waiting for return-sync.
#[derive(Debug, Clone)]
pub struct PendingReturnChange {
    pub task_id: u128,
    pub relative_path: String,
    pub change_kind: ChangeKind,
    pub secondary_hash: Option<String>,
    pub secondary_hash_status: HashStatus,
    pub secondary_modified_unix_ms: i64,
    pub created_unix_ms: i64,
}

/// A file moved to history (trash or overwritten backup).
#[derive(Debug, Clone)]
pub struct HistoryEntry {
    pub id: u128,
    pub task_id: u128,
    pub original_relative_path: String,
    pub stored_path: String,
    pub reason: HistoryReason,
    pub created_unix_ms: i64,
    pub size: i64,
}

/// An event log entry.
#[derive(Debug, Clone)]
pub struct LogEntry {
    pub id: Option<i64>,
    pub level: LogLevel,
    pub task_id: Option<u128>,
    pub relative_path: Option<String>,
    pub message: String,
    pub created_unix_ms: i64,
}

/// A paired device identity.
#[derive(Debug, Clone)]
pub struct PairedDevice {
    pub device_id: String,
    pub display_name: String,
    pub public_key: Vec<u8>,
    pub last_seen_unix_ms: i64,
    pub trusted: bool,
    pub last_address: Option<String>,
}

/// State of a file as reported by the peer's scan.
#[derive(Debug, Clone)]
pub struct RemoteFileState {
    pub relative_path: String,
    pub kind: EntryKind,
    pub blake3_hash: Option<String>,
    pub hash_status: HashStatus,
    pub size: i64,
    pub modified_unix_ms: i64,
}

/// Application error types.
#[derive(Debug, Clone)]
pub enum AppError {
    PeerOffline,
    FolderMissing(String),
    PermissionDenied(String),
    DiskFull,
    FileLocked(String),
    HashMismatch(String),
    InvalidPath(String),
    CaseCollision(String),
    NetworkInterrupted,
    ConflictRequired(String),
    HistoryLimitReached(String),
}

/// The value behind an optional reference.
pub open spec fn deref_opt<T>(o: Option<&T>) -> Option<T> {
    match o {
        Some(x) => Some(*x),
        None => None,
    }
}

/// The string view of an optional string.
pub open spec fn opt_view(o: Option<String>) -> Option<Seq<char>> {
    match o {
        Some(s) => Some(s@),
        None => None,
    }
}

/// Equality of optional strings by their characters.
pub fn opt_str_eq(a: &Option<String>, b: &Option<String>) -> (r: bool)
    ensures
        r == (opt_view(*a) == opt_view(*b)),
{
    match (a, b) {
        (Some(x), Some(y)) => crate::text::str_eq(x.as_str(), y.as_str()),
        (None, None) => true,
        _ => false,
    }
}

/// Copy of an optional string.
pub fn opt_string_copy(o: &Option<String>) -> (r: Option<String>)
    ensures
        r == *o,
{
    match o {
        Some(s) => Some(s.clone()),
        None => None,
    }
}

impl FileSnapshot {
    /// A field-for-field copy.
    pub fn duplicate(&self) -> (r: Self)
        ensures
            r == *self,
    {
        FileSnapshot {
            task_id: self.task_id,
            relative_path: self.relative_path.clone(),
            kind: self.kind,
            size: self.size,
            modified_unix_ms: self.modified_unix_ms,
            blake3_hash: opt_string_copy(&self.blake3_hash),
            hash_status: self.hash_status,
            deleted: self.deleted,
            is_symlink: self.is_symlink,
        }
    }
}

impl SyncBaseline {
    /// A field-for-field copy.
    pub fn duplicate(&self) -> (r: Self)
        ensures
            r == *self,
    {
        SyncBaseline {
            task_id: self.task_id,
            relative_path: self.relative_path.clone(),
            primary_hash: opt_string_copy(&self.primary_hash),
            primary_hash_status: self.primary_hash_status,
            primary_size: self.primary_size,
            secondary_size: self.secondary_size,
            primary_modified_unix_ms: self.primary_modified_unix_ms,
            secondary_hash: opt_string_copy(&self.secondary_hash),
            secondary_hash_status: self.secondary_hash_status,
            secondary_modified_unix_ms: self.secondary_modified_unix_ms,
            last_synced_unix_ms: self.last_synced_unix_ms,
        }
    }
}

impl PendingReturnChange {
    /// A field-for-field copy.
    pub fn duplicate(&self) -> (r: Self)
        ensures
            r == *self,
    {
        PendingReturnChange {
            task_id: self.task_id,
            relative_path: self.relative_path.clone(),
            change_kind: self.change_kind,
            secondary_hash: opt_string_copy(&self.secondary_hash),
            secondary_hash_status: self.secondary_hash_status,
            secondary_modified_unix_ms: self.secondary_modified_unix_ms,
            created_unix_ms: self.created_unix_ms,
        }
    }
}

impl HistoryEntry {
    /// A field-for-field copy.
    pub fn duplicate(&self) -> (r: Self)
        ensures
            r == *self,
    {
        HistoryEntry {
            id: self.id,
            task_id: self.task_id,
            original_relative_path: self.original_relative_path.clone(),
            stored_path: self.stored_path.clone(),
            reason: self.reason,
            created_unix_ms: self.created_unix_ms,
            size: self.size,
        }
    }
}

/// What an application error says to the user.
pub open spec fn app_error_text(e: AppError) -> Seq<char> {
    match e {
        AppError::PeerOffline => "peer is offline"@,
        AppError::FolderMissing(p) => "folder missing: "@ + p@,
        AppError::PermissionDenied(p) => "permission denied: "@ + p@,
        AppError::DiskFull => "disk full"@,
        AppError::FileLocked(p) => "file locked: "@ + p@,
        AppError::HashMismatch(p) => "hash mismatch for "@ + p@,
        AppError::InvalidPath(p) => "invalid path: "@ + p@,
        AppError::CaseCollision(p) => "case collision: "@ + p@,
        AppError::NetworkInterrupted => "network interrupted"@,
        AppError::ConflictRequired(p) => "conflict requires user decision for "@ + p@,
        AppError::HistoryLimitReached(t) => "history storage limit reached for task "@ + t@,
    }
}

impl AppError {
    /// The error's message.
    pub fn message(&self) -> (r: String)
        ensures
            r@ == app_error_text(*self),
    {
        match self {
            AppError::PeerOffline => crate::text::to_owned_string("peer is offline"),
            AppError::FolderMissing(p) => crate::text::concat_str("folder missing: ", p.as_str()),
            AppError::PermissionDenied(p) => crate::text::concat_str("permission denied: ", p.as_str()),
            AppError::DiskFull => crate::text::to_owned_string("disk full"),
            AppError::FileLocked(p) => crate::text::concat_str("file locked: ", p.as_str()),
            AppError::HashMismatch(p) => crate::text::concat_str("hash mismatch for ", p.as_str()),
            AppError::InvalidPath(p) => crate::text::concat_str("invalid path: ", p.as_str()),
            AppError::CaseCollision(p) => crate::text::concat_str("case collision: ", p.as_str()),
            AppError::NetworkInterrupted => crate::text::to_owned_string("network interrupted"),
            AppError::ConflictRequired(p) => crate::text::concat_str("conflict requires user decision for ", p.as_str()),
            AppError::HistoryLimitReached(t) => crate::text::concat_str("history storage limit reached for task ", t.as_str()),
        }
    }
}

} // verus!
