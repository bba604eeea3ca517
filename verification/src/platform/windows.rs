//! Windows ignore rules and path validation.
use vstd::prelude::*;
use crate::ignore::{glob_matches, matches_glob, IgnoreDecision, IgnoreReason, IgnoreView};
use crate::path_rules::{name_stem, reserved_device_names};
use crate::text::{
    chars_of, has_char, has_prefix, pieces, split_chars, split_spec, str_in_list, str_views,
    string_from_chars, to_owned_string, to_uppercase, unicode_upper,
};
use vstd::utf8::encode_utf8;
use crate::transient::{
    incomplete_download_name, is_common_incomplete_download_name, is_lanbridge_partial_file_name,
    partial_file_name,
};

verus! {

/// Exact file names ignored on Windows.
pub open spec fn exact_file_names() -> Seq<Seq<char>> {
    seq![
        "Thumbs.db"@,
        "desktop.ini"@,
        "Desktop.ini"@,
        ".DS_Store"@,
        "lanbridge.log"@,
        "startup-crash.log"@,
        "crash-diagnostics.log"@,
    ]
}

/// Exact directory names ignored on Windows.
pub open spec fn exact_dir_names() -> Seq<Seq<char>> {
    seq![
        "$RECYCLE.BIN"@,
        "System Volume Information"@,
        ".DocumentRevisions-V100"@,
        ".Spotlight-V100"@,
        ".TemporaryItems"@,
        ".Trashes"@,
        ".git"@,
        "node_modules"@,
        ".lanbridge-history"@,
        ".lanbridge-temp"@,
    ]
}

/// The Windows ignore decision, in priority order.
pub open spec fn classify_spec(name: Seq<char>, is_dir: bool) -> IgnoreView {
    if is_dir && exact_dir_names().contains(name) {
        IgnoreView::ExactDirectory(name)
    } else if exact_file_names().contains(name) {
        IgnoreView::ExactName(name)
    } else if !is_dir && partial_file_name(name) {
        IgnoreView::GlobPattern("*.lanbridge-partial*"@)
    } else if !is_dir && incomplete_download_name(name) {
        IgnoreView::GlobPattern("*.part|*.crdownload|*.download"@)
    } else if glob_matches(name, "~$*"@) {
        IgnoreView::GlobPattern("~$*"@)
    } else if glob_matches(name, "*.tmp"@) {
        IgnoreView::GlobPattern("*.tmp"@)
    } else if glob_matches(name, "*.lnk"@) {
        IgnoreView::GlobPattern("*.lnk"@)
    } else {
        IgnoreView::Allowed
    }
}

/// Check whether an entry (a bare file or directory name) is ignored on Windows.
pub fn classify_entry(entry_name: &str, is_dir: bool) -> (r: IgnoreDecision)
    ensures
        r@ == classify_spec(entry_name@, is_dir),
{
    let dirs = vec![
        "$RECYCLE.BIN",
        "System Volume Information",
        ".DocumentRevisions-V100",
        ".Spotlight-V100",
        ".TemporaryItems",
        ".Trashes",
        ".git",
        "node_modules",
        ".lanbridge-history",
        ".lanbridge-temp",
    ];
    assert(str_views(dirs@) =~= exact_dir_names());
    let files = vec![
        "Thumbs.db",
        "desktop.ini",
        "Desktop.ini",
        ".DS_Store",
        "lanbridge.log",
        "startup-crash.log",
        "crash-diagnostics.log",
    ];
    assert(str_views(files@) =~= exact_file_names());
    if is_dir && str_in_list(entry_name, &dirs) {
        return IgnoreDecision::Ignored(IgnoreReason::ExactDirectory(to_owned_string(entry_name)));
    }
    if str_in_list(entry_name, &files) {
        return IgnoreDecision::Ignored(IgnoreReason::ExactName(to_owned_string(entry_name)));
    }
    if !is_dir && is_lanbridge_partial_file_name(entry_name) {
        return IgnoreDecision::Ignored(
            IgnoreReason::GlobPattern(to_owned_string("*.lanbridge-partial*")),
        );
    }
    if !is_dir && is_common_incomplete_download_name(entry_name) {
        return IgnoreDecision::Ignored(
            IgnoreReason::GlobPattern(to_owned_string("*.part|*.crdownload|*.download")),
        );
    }
    if matches_glob(entry_name, "~$*") {
        return IgnoreDecision::Ignored(IgnoreReason::GlobPattern(to_owned_string("~$*")));
    }
    if matches_glob(entry_name, "*.tmp") {
        return IgnoreDecision::Ignored(IgnoreReason::GlobPattern(to_owned_string("*.tmp")));
    }
    if matches_glob(entry_name, "*.lnk") {
        return IgnoreDecision::Ignored(IgnoreReason::GlobPattern(to_owned_string("*.lnk")));
    }
    IgnoreDecision::Allowed
}

/// Windows platform rules, rooted at an application data directory.
pub struct WinPlatform {
    pub app_data: String,
}

impl WinPlatform {
    /// A platform whose application data lives in `dir`.
    pub fn with_data_dir(dir: String) -> (r: Self)
        ensures
            r.app_data@ == dir@,
    {
        WinPlatform { app_data: dir }
    }
}

/// Characters Windows forbids in names: `<>:"|?*` and control characters.
pub open spec fn win_invalid_char(c: char) -> bool {
    c == '<' || c == '>' || c == ':' || c == '"' || c == '|' || c == '?' || c == '*' || (c as u32)
        < 32
}

/// A Windows device name, compared after full Unicode upper-casing.
pub open spec fn reserved_name_spec(name: Seq<char>) -> bool {
    reserved_device_names().contains(unicode_upper(name))
}

/// One `/`- or `\`-separated piece of a relative path is acceptable on Windows.
pub open spec fn win_component_ok(c: Seq<char>) -> bool {
    c != seq!['.', '.'] && (c.len() == 0 || c == seq!['.'] || (!has_char(c, '\0') && (forall|i: int|
        0 <= i < c.len() ==> !win_invalid_char(#[trigger] c[i])) && c.last() != ' ' && c.last()
        != '.' && !reserved_name_spec(name_stem(c)) && encode_utf8(c).len() <= 255))
}

/// A relative path is acceptable on Windows.
pub open spec fn win_relative_path_ok(rel: Seq<char>) -> bool {
    let ps = split_spec(rel, '/', '\\');
    &&& rel.len() > 0
    &&& !has_prefix(rel, seq!['/'])
    &&& !has_prefix(rel, seq!['\\'])
    &&& forall|i: int| 0 <= i < ps.len() ==> win_component_ok(#[trigger] ps[i])
}

/// Check if a name is a Windows reserved device name (case-insensitive).
pub fn is_reserved_name(name: &str) -> (r: bool)
    ensures
        r == reserved_name_spec(name@),
{
    let upper = to_uppercase(name);
    let names = vec![
        "CON", "PRN", "AUX", "NUL",
        "COM1", "COM2", "COM3", "COM4", "COM5", "COM6", "COM7", "COM8", "COM9",
        "LPT1", "LPT2", "LPT3", "LPT4", "LPT5", "LPT6", "LPT7", "LPT8", "LPT9",
    ];
    assert(str_views(names@) =~= reserved_device_names());
    str_in_list(upper.as_str(), &names)
}

/// Checks one piece of a relative path against Windows naming rules.
fn validate_win_component(c: &Vec<char>) -> (r: Result<(), String>)
    ensures
        r is Ok <==> win_component_ok(c@),
{
    let dotdot = vec!['.', '.'];
    let dot = vec!['.'];
    assert(dotdot@ =~= seq!['.', '.']);
    assert(dot@ =~= seq!['.']);
    if crate::text::chars_eq(c, &dotdot) {
        return Err(String::from_str("path traversal not allowed"));
    }
    if c.len() == 0 || crate::text::chars_eq(c, &dot) {
        return Ok(());
    }
    if crate::text::chars_has_char(c, '\0') {
        return Err(String::from_str("null byte in path component"));
    }
    let mut i: usize = 0;
    while i < c.len()
        invariant
            i <= c.len(),
            forall|k: int| 0 <= k < i ==> !win_invalid_char(#[trigger] c@[k]),
        decreases c.len() - i,
    {
        let ch = c[i];
        if ch == '<' || ch == '>' || ch == ':' || ch == '"' || ch == '|' || ch == '?' || ch == '*'
            || (ch as u32) < 32 {
            return Err(String::from_str("invalid character in path"));
        }
        i = i + 1;
    }
    let last = c[c.len() - 1];
    if last == ' ' || last == '.' {
        return Err(String::from_str("path component cannot end with space or dot"));
    }
    let parts = split_chars(c, '.', '.');
    assert(pieces(parts@)[0] == parts@[0]@);
    let stem = string_from_chars(&parts[0]);
    if is_reserved_name(stem.as_str()) {
        return Err(String::from_str("reserved device name in path"));
    }
    if crate::text::utf8_len_exceeds(c, 255) {
        return Err(String::from_str("path component too long"));
    }
    Ok(())
}

/// Validates a relative path against Windows naming rules.
pub fn validate_target_relative_path(relative_path: &str) -> (r: Result<(), String>)
    ensures
        r is Ok <==> win_relative_path_ok(relative_path@),
{
    let rel = chars_of(relative_path);
    if rel.len() == 0 {
        return Err(String::from_str("relative path cannot be empty"));
    }
    if rel[0] == '/' || rel[0] == '\\' {
        assert(rel@.subrange(0, 1) =~= seq![rel@[0]]);
        return Err(String::from_str("relative path cannot start with separator"));
    }
    assert(!has_prefix(rel@, seq!['/']) && !has_prefix(rel@, seq!['\\'])) by {
        if has_prefix(rel@, seq!['/']) || has_prefix(rel@, seq!['\\']) {
            assert(rel@[0] == rel@.subrange(0, 1)[0]);
        }
    }
    let parts = split_chars(&rel, '/', '\\');
    let mut i: usize = 0;
    while i < parts.len()
        invariant
            i <= parts.len(),
            pieces(parts@) == split_spec(relative_path@, '/', '\\'),
            forall|k: int| 0 <= k < i ==> win_component_ok(#[trigger] pieces(parts@)[k]),
        decreases parts.len() - i,
    {
        assert(pieces(parts@)[i as int] == parts@[i as int]@);
        match validate_win_component(&parts[i]) {
            Ok(()) => {},
            Err(e) => {
                return Err(e);
            },
        }
        i = i + 1;
    }
    Ok(())
}

impl crate::platform::Platform for WinPlatform {
    open spec fn relative_path_ok(&self, rel: Seq<char>) -> bool {
        win_relative_path_ok(rel)
    }

    open spec fn ignore_rule(&self, name: Seq<char>, is_dir: bool) -> IgnoreView {
        classify_spec(name, is_dir)
    }

    open spec fn separates_at_backslash(&self) -> bool {
        true
    }

    fn backslash_separates(&self) -> (r: bool) {
        true
    }

    open spec fn data_dir(&self) -> Seq<char> {
        self.app_data@
    }

    fn app_data_dir(&self) -> (r: String) {
        self.app_data.clone()
    }

    fn normalize_relative_path(&self, path: &str) -> (r: String) {
        crate::platform::to_forward_slashes(path)
    }

    fn validate_target_relative_path(&self, relative_path: &str) -> (r: Result<(), String>) {
        validate_target_relative_path(relative_path)
    }

    fn classify_ignored_entry(&self, entry_name: &str, is_dir: bool) -> (r: IgnoreDecision) {
        classify_entry(entry_name, is_dir)
    }
}

/// Identifiers of the tray menu's items.
pub struct MenuItems;

impl MenuItems {
    pub const OPEN: &'static str = "open";
    pub const PAUSE_ALL: &'static str = "pause_all";
    pub const SYNC_NOW: &'static str = "sync_now";
    pub const QUIT: &'static str = "quit";
}

} // verus!
