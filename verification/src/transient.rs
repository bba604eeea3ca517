//! Names of protocol-internal and platform-junk entries that sync never treats as user content.
use vstd::prelude::*;
use crate::text::{chars_of, ends_with, has_prefix, has_suffix, pieces, split_chars, split_spec, starts_with, str_eq, string_from_chars};
use crate::path_rules::rel_pieces;

verus! {

pub const LANBRIDGE_TEMP_DIR: &'static str = ".lanbridge-temp";

pub const LANBRIDGE_HISTORY_DIR: &'static str = ".lanbridge-history";

pub const LANBRIDGE_PARTIAL_MARKER: &'static str = ".lanbridge-partial";

pub open spec fn transient_dir_name(name: Seq<char>) -> bool {
    name == LANBRIDGE_TEMP_DIR@
}

pub open spec fn partial_file_name(name: Seq<char>) -> bool {
    has_suffix(name, LANBRIDGE_PARTIAL_MARKER@)
}

pub open spec fn incomplete_download_name(name: Seq<char>) -> bool {
    has_suffix(name, ".part"@) || has_suffix(name, ".crdownload"@) || has_suffix(name, ".download"@)
}

pub open spec fn protocol_ignored_name(name: Seq<char>) -> bool {
    name == LANBRIDGE_HISTORY_DIR@ || transient_dir_name(name) || partial_file_name(name)
        || incomplete_download_name(name)
}

/// Platform-junk file names that never count as user content.
pub open spec fn junk_file_names() -> Seq<Seq<char>> {
    seq![".DS_Store"@, ".AppleDouble"@, "Thumbs.db"@, "desktop.ini"@, "Desktop.ini"@]
}

/// Platform-junk directory names that never count as user content.
pub open spec fn junk_dir_names() -> Seq<Seq<char>> {
    seq![
        "$RECYCLE.BIN"@,
        "System Volume Information"@,
        ".DocumentRevisions-V100"@,
        ".Spotlight-V100"@,
        ".TemporaryItems"@,
        ".Trashes"@,
    ]
}

pub open spec fn common_ignored_name(name: Seq<char>, is_dir: bool) -> bool {
    protocol_ignored_name(name) || if is_dir {
        junk_dir_names().contains(name)
    } else {
        junk_file_names().contains(name) || has_prefix(name, "~$"@) || has_suffix(name, ".tmp"@)
            || has_suffix(name, ".lnk"@)
    }
}

/// Some piece of the path is a protocol-ignored name. The path is split at
/// `/`, and at `\` too where `backslash_separates` (as on Windows).
pub open spec fn path_has_ignored_component(path: Seq<char>, backslash_separates: bool) -> bool {
    exists|i: int|
        0 <= i < rel_pieces(path, backslash_separates).len() && protocol_ignored_name(
            #[trigger] rel_pieces(path, backslash_separates)[i],
        )
}

/// The entry is the protocol's transfer staging directory.
pub fn is_lanbridge_transient_dir_name(entry_name: &str) -> (r: bool)
    ensures
        r == transient_dir_name(entry_name@),
{
    str_eq(entry_name, LANBRIDGE_TEMP_DIR)
}

/// The entry is an unfinished incoming transfer (ends with the partial marker).
pub fn is_lanbridge_partial_file_name(entry_name: &str) -> (r: bool)
    ensures
        r == partial_file_name(entry_name@),
{
    ends_with(entry_name, LANBRIDGE_PARTIAL_MARKER)
}

/// The entry looks like a browser download that is still in progress.
pub fn is_common_incomplete_download_name(entry_name: &str) -> (r: bool)
    ensures
        r == incomplete_download_name(entry_name@),
{
    ends_with(entry_name, ".part") || ends_with(entry_name, ".crdownload") || ends_with(
        entry_name,
        ".download",
    )
}

/// The entry is internal to the sync protocol and never synchronised.
pub fn is_protocol_ignored_component_name(entry_name: &str) -> (r: bool)
    ensures
        r == protocol_ignored_name(entry_name@),
{
    str_eq(entry_name, LANBRIDGE_HISTORY_DIR) || is_lanbridge_transient_dir_name(entry_name)
        || is_lanbridge_partial_file_name(entry_name) || is_common_incomplete_download_name(
        entry_name,
    )
}

/// Whether an entry is ignorable junk rather than user content, for the
/// empty-folder check made when a task is set up.
pub fn is_common_ignored_entry_name(name: &str, is_dir: bool) -> (r: bool)
    ensures
        r == common_ignored_name(name@, is_dir),
{
    if is_protocol_ignored_component_name(name) {
        return true;
    }
    if is_dir {
        let hit = str_eq(name, "$RECYCLE.BIN") || str_eq(name, "System Volume Information")
            || str_eq(name, ".DocumentRevisions-V100") || str_eq(name, ".Spotlight-V100")
            || str_eq(name, ".TemporaryItems") || str_eq(name, ".Trashes");
        proof {
            let d = junk_dir_names();
            assert(d[0] == "$RECYCLE.BIN"@ && d[1] == "System Volume Information"@ && d[2]
                == ".DocumentRevisions-V100"@ && d[3] == ".Spotlight-V100"@ && d[4]
                == ".TemporaryItems"@ && d[5] == ".Trashes"@);
            if d.contains(name@) {
                let k = choose|k: int| 0 <= k < d.len() && d[k] == name@;
                assert(0 <= k < 6);
            }
        }
        hit
    } else {
        let hit = str_eq(name, ".DS_Store") || str_eq(name, ".AppleDouble") || str_eq(
            name,
            "Thumbs.db",
        ) || str_eq(name, "desktop.ini") || str_eq(name, "Desktop.ini");
        proof {
            let d = junk_file_names();
            assert(d[0] == ".DS_Store"@ && d[1] == ".AppleDouble"@ && d[2] == "Thumbs.db"@ && d[3]
                == "desktop.ini"@ && d[4] == "Desktop.ini"@);
            if d.contains(name@) {
                let k = choose|k: int| 0 <= k < d.len() && d[k] == name@;
                assert(0 <= k < 5);
            }
        }
        hit || starts_with(name, "~$") || ends_with(name, ".tmp") || ends_with(name, ".lnk")
    }
}

/// Whether any component of the path is protocol-internal; components are
/// separated by `/`, and by `\` too where `backslash_separates`.
pub fn path_has_protocol_ignored_component(path: &str, backslash_separates: bool) -> (r: bool)
    ensures
        r == path_has_ignored_component(path@, backslash_separates),
{
    let chars = chars_of(path);
    let alt: char = if backslash_separates { '\\' } else { '/' };
    let parts = split_chars(&chars, '/', alt);
    let mut i: usize = 0;
    while i < parts.len()
        invariant
            i <= parts.len(),
            pieces(parts@) == rel_pieces(path@, backslash_separates),
            forall|k: int| 0 <= k < i ==> !protocol_ignored_name(#[trigger] pieces(parts@)[k]),
        decreases parts.len() - i,
    {
        let name = string_from_chars(&parts[i]);
        if is_protocol_ignored_component_name(name.as_str()) {
            assert(pieces(parts@)[i as int] == parts@[i as int]@);
            return true;
        }
        assert(pieces(parts@)[i as int] == parts@[i as int]@);
        i = i + 1;
    }
    false
}

/// What the cleanup of leftover transfer state does with one directory entry.
#[derive(Clone, Copy, Debug, PartialEq, Eq, Structural)]
pub enum CleanupAction {
    /// Remove the directory and everything below it.
    RemoveDirectory,
    /// Look inside the directory.
    Descend,
    /// Remove the file.
    RemoveFile,
    /// Leave the entry alone.
    Keep,
}

/// The cleanup of leftover transfer state removes staging directories and
/// partial files, and looks inside every other directory.
pub open spec fn cleanup_rule(name: Seq<char>, is_dir: bool, is_file: bool) -> CleanupAction {
    if is_dir {
        if transient_dir_name(name) { CleanupAction::RemoveDirectory } else { CleanupAction::Descend }
    } else if is_file && partial_file_name(name) {
        CleanupAction::RemoveFile
    } else {
        CleanupAction::Keep
    }
}

/// Decides what cleanup does with one entry found under a task root; the
/// walk and the removals are the caller's.
pub fn cleanup_action(entry_name: &str, is_dir: bool, is_file: bool) -> (r: CleanupAction)
    ensures
        r == cleanup_rule(entry_name@, is_dir, is_file),
{
    if is_dir {
        if is_lanbridge_transient_dir_name(entry_name) {
            CleanupAction::RemoveDirectory
        } else {
            CleanupAction::Descend
        }
    } else if is_file && is_lanbridge_partial_file_name(entry_name) {
        CleanupAction::RemoveFile
    } else {
        CleanupAction::Keep
    }
}

/// Law: a protocol-internal name is skipped as user content whether it names
/// a file or a directory.
pub proof fn law_protocol_names_always_ignored(name: Seq<char>, is_dir: bool)
    requires
        protocol_ignored_name(name),
    ensures
        common_ignored_name(name, is_dir),
{
}

/// Law: cleanup removes only protocol-internal entries: staging directories
/// and partial files, never user content.
pub proof fn law_cleanup_removes_only_protocol_entries(name: Seq<char>, is_dir: bool, is_file: bool)
    requires
        cleanup_rule(name, is_dir, is_file) is RemoveDirectory || cleanup_rule(name, is_dir, is_file) is RemoveFile,
    ensures
        protocol_ignored_name(name),
{
}

} // verus!
