//! macOS ignore rules and path validation.
use vstd::prelude::*;
use crate::ignore::{glob_matches, matches_glob, IgnoreDecision, IgnoreReason, IgnoreView};
use crate::text::{
    chars_of, has_char, has_prefix, pieces, split_chars, split_spec, str_in_list, str_views,
    to_owned_string,
};

verus! {

/// Exact file names ignored on macOS.
pub open spec fn exact_file_names() -> Seq<Seq<char>> {
    seq![".DS_Store"@, ".AppleDouble"@]
}

/// Exact directory names ignored on macOS.
pub open spec fn exact_dir_names() -> Seq<Seq<char>> {
    seq![
        ".DocumentRevisions-V100"@,
        ".Spotlight-V100"@,
        ".TemporaryItems"@,
        ".Trashes"@,
        ".git"@,
        "node_modules"@,
        ".lanbridge-history"@,
    ]
}

/// The macOS ignore decision: exact directories first, then exact file
/// names, then the Office-lock and temp-file globs.
pub open spec fn classify_spec(name: Seq<char>, is_dir: bool) -> IgnoreView {
    if is_dir && exact_dir_names().contains(name) {
        IgnoreView::ExactDirectory(name)
    } else if exact_file_names().contains(name) {
        IgnoreView::ExactName(name)
    } else if glob_matches(name, "~$*"@) {
        IgnoreView::GlobPattern("~$*"@)
    } else if glob_matches(name, "*.tmp"@) {
        IgnoreView::GlobPattern("*.tmp"@)
    } else {
        IgnoreView::Allowed
    }
}

/// Check whether an entry (a bare file or directory name) is ignored on macOS.
pub fn classify_entry(entry_name: &str, is_dir: bool) -> (r: IgnoreDecision)
    ensures
        r@ == classify_spec(entry_name@, is_dir),
{
    let dirs = vec![
        ".DocumentRevisions-V100",
        ".Spotlight-V100",
        ".TemporaryItems",
        ".Trashes",
        ".git",
        "node_modules",
        ".lanbridge-history",
    ];
    assert(str_views(dirs@) =~= exact_dir_names());
    let files = vec![".DS_Store", ".AppleDouble"];
    assert(str_views(files@) =~= exact_file_names());
    if is_dir && str_in_list(entry_name, &dirs) {
        return IgnoreDecision::Ignored(IgnoreReason::ExactDirectory(to_owned_string(entry_name)));
    }
    if str_in_list(entry_name, &files) {
        return IgnoreDecision::Ignored(IgnoreReason::ExactName(to_owned_string(entry_name)));
    }
    if matches_glob(entry_name, "~$*") {
        return IgnoreDecision::Ignored(IgnoreReason::GlobPattern(to_owned_string("~$*")));
    }
    if matches_glob(entry_name, "*.tmp") {
        return IgnoreDecision::Ignored(IgnoreReason::GlobPattern(to_owned_string("*.tmp")));
    }
    IgnoreDecision::Allowed
}

/// macOS platform rules, rooted at an application data directory.
pub struct MacPlatform {
    pub app_data: String,
}

impl MacPlatform {
    /// A platform whose application data lives in `dir`.
    pub fn with_data_dir(dir: String) -> (r: Self)
        ensures
            r.app_data@ == dir@,
    {
        MacPlatform { app_data: dir }
    }
}

/// A relative path is acceptable on macOS: not empty, not starting with a
/// separator, no `..` piece and no NUL in any piece.
pub open spec fn mac_relative_path_ok(rel: Seq<char>) -> bool {
    let ps = split_spec(rel, '/', '\\');
    &&& rel.len() > 0
    &&& !has_prefix(rel, seq!['/'])
    &&& !has_prefix(rel, seq!['\\'])
    &&& forall|i: int|
        0 <= i < ps.len() ==> #[trigger] ps[i] != seq!['.', '.'] && !has_char(ps[i], '\0')
}

/// Validates a relative path against macOS naming rules.
pub fn validate_target_relative_path(relative_path: &str) -> (r: Result<(), String>)
    ensures
        r is Ok <==> mac_relative_path_ok(relative_path@),
{
    let rel = chars_of(relative_path);
    if rel.len() == 0 {
        return Err(String::from_str("relative path cannot be empty"));
    }
    if rel[0] == '/' || rel[0] == '\\' {
        assert(rel@.subrange(0, 1) =~= seq![rel@[0]]);
        return Err(String::from_str("relative path cannot start with separator"));
    }
    assert(!has_prefix(rel@, seq!['/']) && !has_prefix(rel@, seq!['\\'])) by {
        if has_prefix(rel@, seq!['/']) || has_prefix(rel@, seq!['\\']) {
            assert(rel@[0] == rel@.subrange(0, 1)[0]);
        }
    }
    let parts = split_chars(&rel, '/', '\\');
    let dotdot = vec!['.', '.'];
    assert(dotdot@ =~= seq!['.', '.']);
    let mut i: usize = 0;
    while i < parts.len()
        invariant
            i <= parts.len(),
            dotdot@ == seq!['.', '.'],
            pieces(parts@) == split_spec(relative_path@, '/', '\\'),
            forall|k: int|
                0 <= k < i ==> #[trigger] pieces(parts@)[k] != seq!['.', '.'] && !has_char(
                    pieces(parts@)[k],
                    '\0',
                ),
        decreases parts.len() - i,
    {
        assert(pieces(parts@)[i as int] == parts@[i as int]@);
        if crate::text::chars_eq(&parts[i], &dotdot) {
            return Err(String::from_str("path traversal not allowed"));
        }
        if crate::text::chars_has_char(&parts[i], '\0') {
            return Err(String::from_str("null byte in path component"));
        }
        i = i + 1;
    }
    Ok(())
}

impl crate::platform::Platform for MacPlatform {
    open spec fn relative_path_ok(&self, rel: Seq<char>) -> bool {
        mac_relative_path_ok(rel)
    }

    open spec fn ignore_rule(&self, name: Seq<char>, is_dir: bool) -> IgnoreView {
        classify_spec(name, is_dir)
    }

    open spec fn separates_at_backslash(&self) -> bool {
        false
    }

    fn backslash_separates(&self) -> (r: bool) {
        false
    }

    open spec fn data_dir(&self) -> Seq<char> {
        self.app_data@
    }

    fn app_data_dir(&self) -> (r: String) {
        self.app_data.clone()
    }

    fn normalize_relative_path(&self, path: &str) -> (r: String) {
        crate::platform::to_forward_slashes(path)
    }

    fn validate_target_relative_path(&self, relative_path: &str) -> (r: Result<(), String>) {
        validate_target_relative_path(relative_path)
    }

    fn classify_ignored_entry(&self, entry_name: &str, is_dir: bool) -> (r: IgnoreDecision) {
        classify_entry(entry_name, is_dir)
    }
}

} // verus!
