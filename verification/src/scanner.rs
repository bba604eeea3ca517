//! What a scan records for each entry of a sync root, and when a file's
//! content hash is computed, reused or skipped.
use vstd::prelude::*;
use crate::lookup::{entry_for, find_snapshot, lemma_last_index_bounds, snapshot_key};
use crate::model::{opt_string_copy, EntryKind, FileSnapshot, HashStatus};

verus! {

/// Files larger than this are compared by size and time instead of hashed.
pub const EAGER_HASH_LIMIT: i64 = 104857600;

/// The record of a symbolic link: never followed, never synced.
pub open spec fn symlink_snapshot_spec(rel: Seq<char>, is_dir: bool, s: FileSnapshot) -> bool {
    &&& s.task_id == 0
    &&& s.relative_path@ == rel
    &&& s.kind == (if is_dir { EntryKind::Directory } else { EntryKind::File })
    &&& s.size == 0
    &&& s.modified_unix_ms == 0
    &&& s.blake3_hash is None
    &&& s.hash_status == HashStatus::Unavailable
    &&& !s.deleted
    &&& s.is_symlink
}

/// The scan record of a symbolic link.
pub fn symlink_snapshot(relative_path: String, is_dir: bool) -> (r: FileSnapshot)
    ensures
        symlink_snapshot_spec(relative_path@, is_dir, r),
{
    FileSnapshot {
        task_id: 0,
        relative_path,
        kind: if is_dir {
            EntryKind::Directory
        } else {
            EntryKind::File
        },
        size: 0,
        modified_unix_ms: 0,
        blake3_hash: None,
        hash_status: HashStatus::Unavailable,
        deleted: false,
        is_symlink: true,
    }
}

/// The scan record of a directory.
pub fn directory_snapshot(relative_path: String) -> (r: FileSnapshot)
    ensures
        r == (FileSnapshot {
            task_id: 0,
            relative_path,
            kind: EntryKind::Directory,
            size: 0,
            modified_unix_ms: 0,
            blake3_hash: None,
            hash_status: HashStatus::Unavailable,
            deleted: false,
            is_symlink: false,
        }),
{
    FileSnapshot {
        task_id: 0,
        relative_path,
        kind: EntryKind::Directory,
        size: 0,
        modified_unix_ms: 0,
        blake3_hash: None,
        hash_status: HashStatus::Unavailable,
        deleted: false,
        is_symlink: false,
    }
}

/// The scan record of a file with the given hash state.
pub fn file_snapshot(relative_path: String, size: i64, modified_unix_ms: i64, hash: Option<String>, hash_status: HashStatus) -> (r: FileSnapshot)
    ensures
        r == (FileSnapshot {
            task_id: 0,
            relative_path,
            kind: EntryKind::File,
            size,
            modified_unix_ms,
            blake3_hash: hash,
            hash_status,
            deleted: false,
            is_symlink: false,
        }),
{
    FileSnapshot {
        task_id: 0,
        relative_path,
        kind: EntryKind::File,
        size,
        modified_unix_ms,
        blake3_hash: hash,
        hash_status,
        deleted: false,
        is_symlink: false,
    }
}

/// How a scanned file's hash is obtained.
pub enum HashPlan {
    /// Too large to hash during a scan.
    TooLarge,
    /// Unchanged since the cached scan: its verified hash is kept.
    Reuse(String),
    /// The content must be hashed.
    Compute,
}

/// The cached verified hash still describes a file of this size and time.
pub open spec fn reusable(c: FileSnapshot, size: i64, mtime: i64) -> bool {
    &&& c.kind == EntryKind::File
    &&& c.size == size
    &&& c.modified_unix_ms == mtime
    &&& c.hash_status == HashStatus::Verified
    &&& c.blake3_hash is Some
}

/// Decides how to hash a scanned file, given the previous scan (later
/// records for a path win).
pub fn plan_file_hash(relative_path: &str, size: i64, modified_unix_ms: i64, cached: &[FileSnapshot]) -> (r: HashPlan)
    ensures
        size > EAGER_HASH_LIMIT <==> r is TooLarge,
        match r {
            HashPlan::Reuse(h) => entry_for(cached@, snapshot_key(), relative_path@) matches Some(c) && reusable(
                c,
                size,
                modified_unix_ms,
            ) && c.blake3_hash == Some(h),
            HashPlan::Compute => size <= EAGER_HASH_LIMIT && !(entry_for(cached@, snapshot_key(), relative_path@) matches Some(
                c,
            ) && reusable(c, size, modified_unix_ms)),
            HashPlan::TooLarge => true,
        },
{
    if size > EAGER_HASH_LIMIT {
        return HashPlan::TooLarge;
    }
    proof {
        lemma_last_index_bounds(cached@, snapshot_key(), relative_path@);
    }
    match find_snapshot(cached, relative_path) {
        Some(i) => {
            let c = &cached[i];
            if c.kind == EntryKind::File && c.size == size && c.modified_unix_ms == modified_unix_ms
                && c.hash_status == HashStatus::Verified
            {
                match &c.blake3_hash {
                    Some(h) => HashPlan::Reuse(h.clone()),
                    None => HashPlan::Compute,
                }
            } else {
                HashPlan::Compute
            }
        },
        None => HashPlan::Compute,
    }
}

/// The hash state of a hashed file: verified when hashing worked.
pub fn hashed_state(hash: Option<String>) -> (r: (Option<String>, HashStatus))
    ensures
        r.0 == hash,
        r.1 == (if hash is Some { HashStatus::Verified } else { HashStatus::Unavailable }),
{
    match hash {
        Some(h) => (Some(h), HashStatus::Verified),
        None => (None, HashStatus::Unavailable),
    }
}

/// The state of a copied file after copying: its size, and a verified hash
/// when it is small enough to hash and hashing worked.
pub fn copied_file_state(size: i64, hash: Option<String>) -> (r: (i64, Option<String>, HashStatus))
    ensures
        r.0 == size,
        size <= EAGER_HASH_LIMIT ==> r.1 == hash && r.2 == (if hash is Some { HashStatus::Verified } else { HashStatus::Unavailable }),
        size > EAGER_HASH_LIMIT ==> r.1 is None && r.2 == HashStatus::UnverifiedLargeFile,
{
    if size <= EAGER_HASH_LIMIT {
        match hash {
            Some(h) => (size, Some(h), HashStatus::Verified),
            None => (size, None, HashStatus::Unavailable),
        }
    } else {
        (size, None, HashStatus::UnverifiedLargeFile)
    }
}

/// What the scan does with one entry of a directory it reads.
pub enum EntryStep {
    /// A symbolic link: recorded as such and never followed.
    RecordSymlink(FileSnapshot),
    /// Left out by the platform's ignore rules, with everything below it.
    Skip,
    /// A directory: recorded, then read in turn.
    EnterDirectory(FileSnapshot),
    /// A regular file: its size and time are read next, then its hash is planned.
    ReadFile,
}

/// Decides what the scan does with the entry `name` at `relative_path`. A
/// symbolic link is recorded before any rule is asked, so an ignored name
/// never hides that a link was skipped; an ignored directory is not entered.
pub fn scan_entry_step<P: crate::platform::Platform>(
    platform: &P,
    name: &str,
    relative_path: String,
    is_symlink: bool,
    is_dir: bool,
) -> (r: EntryStep)
    ensures
        is_symlink ==> (r matches EntryStep::RecordSymlink(s) && symlink_snapshot_spec(relative_path@, is_dir, s)),
        !is_symlink && !(platform.ignore_rule(name@, is_dir) is Allowed) ==> r is Skip,
        !is_symlink && platform.ignore_rule(name@, is_dir) is Allowed && is_dir ==> r == EntryStep::EnterDirectory(
            FileSnapshot {
                task_id: 0,
                relative_path,
                kind: EntryKind::Directory,
                size: 0,
                modified_unix_ms: 0,
                blake3_hash: None,
                hash_status: HashStatus::Unavailable,
                deleted: false,
                is_symlink: false,
            },
        ),
        !is_symlink && platform.ignore_rule(name@, is_dir) is Allowed && !is_dir ==> r is ReadFile,
{
    if is_symlink {
        return EntryStep::RecordSymlink(symlink_snapshot(relative_path, is_dir));
    }
    match platform.classify_ignored_entry(name, is_dir) {
        crate::ignore::IgnoreDecision::Ignored(_) => EntryStep::Skip,
        crate::ignore::IgnoreDecision::Allowed => {
            if is_dir {
                EntryStep::EnterDirectory(directory_snapshot(relative_path))
            } else {
                EntryStep::ReadFile
            }
        },
    }
}

} // verus!
