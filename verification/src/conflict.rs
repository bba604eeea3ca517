//! Conflict detection for return-sync, and conflict-safe file names for "keep both".
use vstd::prelude::*;
use crate::model::{ChangeKind, DeviceRole, FileSnapshot, HashStatus, PendingReturnChange, SyncBaseline, deref_opt, opt_string_copy};
use crate::planner::{changed_since, has_changed};
use crate::text::{chars_of, decimal, push_str, push_chars, u64_to_decimal};

verus! {

/// Result of conflict detection.
#[derive(Debug, Clone)]
pub enum ConflictResult {
    /// No conflict: safe to return-sync.
    NoConflict,
    /// Conflict detected: the primary changed since the last sync.
    Conflict {
        relative_path: String,
        primary_hash: Option<String>,
        primary_hash_status: HashStatus,
        primary_modified_unix_ms: i64,
        secondary_hash: Option<String>,
        secondary_hash_status: HashStatus,
        secondary_modified_unix_ms: i64,
        hash_unverified: bool,
    },
}

/// The conflict record describing the primary side by `hash`, `status` and `mtime`.
pub open spec fn conflict_of(
    pending: PendingReturnChange,
    hash: Option<String>,
    status: HashStatus,
    mtime: i64,
) -> ConflictResult {
    ConflictResult::Conflict {
        relative_path: pending.relative_path,
        primary_hash: hash,
        primary_hash_status: status,
        primary_modified_unix_ms: mtime,
        secondary_hash: pending.secondary_hash,
        secondary_hash_status: pending.secondary_hash_status,
        secondary_modified_unix_ms: pending.secondary_modified_unix_ms,
        hash_unverified: status != HashStatus::Verified || pending.secondary_hash_status
            != HashStatus::Verified,
    }
}

/// Whether a pending return-sync change conflicts with the current primary.
///
/// With the primary present: no baseline means the return would overwrite
/// unsynced data (conflict); otherwise it conflicts exactly when the primary
/// changed since the baseline. With the primary missing, only a modification
/// whose baseline exists conflicts (the primary deleted a file the secondary edited).
pub open spec fn conflict_spec(
    pending: PendingReturnChange,
    primary: Option<FileSnapshot>,
    baseline: Option<SyncBaseline>,
) -> ConflictResult {
    match primary {
        Some(p) if !p.deleted => match baseline {
            None => conflict_of(pending, p.blake3_hash, p.hash_status, p.modified_unix_ms),
            Some(b) => if changed_since(p, b, DeviceRole::Primary) {
                conflict_of(pending, p.blake3_hash, p.hash_status, p.modified_unix_ms)
            } else {
                ConflictResult::NoConflict
            },
        },
        _ => match baseline {
            Some(b) if pending.change_kind == ChangeKind::Modified => conflict_of(
                pending,
                b.primary_hash,
                b.primary_hash_status,
                b.primary_modified_unix_ms,
            ),
            _ => ConflictResult::NoConflict,
        },
    }
}

fn make_conflict(
    pending: &PendingReturnChange,
    hash: &Option<String>,
    status: HashStatus,
    mtime: i64,
) -> (r: ConflictResult)
    ensures
        r == conflict_of(*pending, *hash, status, mtime),
{
    ConflictResult::Conflict {
        relative_path: pending.relative_path.clone(),
        primary_hash: opt_string_copy(hash),
        primary_hash_status: status,
        primary_modified_unix_ms: mtime,
        secondary_hash: opt_string_copy(&pending.secondary_hash),
        secondary_hash_status: pending.secondary_hash_status,
        secondary_modified_unix_ms: pending.secondary_modified_unix_ms,
        hash_unverified: status != HashStatus::Verified || pending.secondary_hash_status
            != HashStatus::Verified,
    }
}

/// Check if the primary file has changed since the baseline. Hashes decide
/// when both are verified; otherwise size or modification time.
pub fn has_primary_changed_since_baseline(primary: &FileSnapshot, baseline: &SyncBaseline) -> (r:
    bool)
    ensures
        r == changed_since(*primary, *baseline, DeviceRole::Primary),
{
    has_changed(primary, baseline, DeviceRole::Primary)
}

/// Conflict check when the primary copy is missing.
pub fn detect_missing_primary_conflict(
    pending: &PendingReturnChange,
    baseline: Option<&SyncBaseline>,
) -> (r: ConflictResult)
    ensures
        r == conflict_spec(*pending, None, deref_opt(baseline)),
{
    match baseline {
        Some(b) if pending.change_kind == ChangeKind::Modified => make_conflict(
            pending,
            &b.primary_hash,
            b.primary_hash_status,
            b.primary_modified_unix_ms,
        ),
        _ => ConflictResult::NoConflict,
    }
}

/// Detect whether a pending return-sync change conflicts with the current primary state.
pub fn detect_conflict(
    pending: &PendingReturnChange,
    current_primary: Option<&FileSnapshot>,
    baseline: Option<&SyncBaseline>,
) -> (r: ConflictResult)
    ensures
        r == conflict_spec(
            *pending,
            deref_opt(current_primary),
            deref_opt(baseline),
        ),
{
    let primary = match current_primary {
        Some(p) if !p.deleted => p,
        _ => {
            return detect_missing_primary_conflict(pending, baseline);
        },
    };
    let baseline = match baseline {
        Some(b) => b,
        None => {
            return make_conflict(
                pending,
                &primary.blake3_hash,
                primary.hash_status,
                primary.modified_unix_ms,
            );
        },
    };
    if !has_primary_changed_since_baseline(primary, baseline) {
        return ConflictResult::NoConflict;
    }
    make_conflict(pending, &primary.blake3_hash, primary.hash_status, primary.modified_unix_ms)
}

/// Index of the last occurrence of `c` in `s`, or -1.
pub open spec fn last_pos(s: Seq<char>, c: char) -> int
    decreases s.len(),
{
    if s.len() == 0 {
        -1
    } else if s.last() == c {
        s.len() - 1
    } else {
        last_pos(s.drop_last(), c)
    }
}

/// Where a path splits into stem and extension: at the last dot of its final
/// component, unless that dot starts the component or there is none.
pub open spec fn ext_split_point(path: Seq<char>) -> int {
    let slash = last_pos(path, '/');
    let dot = last_pos(path, '.');
    if dot > slash + 1 {
        dot
    } else {
        path.len() as int
    }
}

pub proof fn lemma_last_pos_bounds(s: Seq<char>, c: char)
    ensures
        -1 <= last_pos(s, c) < s.len(),
        last_pos(s, c) >= 0 ==> s[last_pos(s, c)] == c,
        forall|k: int| last_pos(s, c) < k < s.len() ==> s[k] != c,
    decreases s.len(),
{
    if s.len() > 0 && s.last() != c {
        lemma_last_pos_bounds(s.drop_last(), c);
        assert forall|k: int| last_pos(s, c) < k < s.len() implies s[k] != c by {
            if k < s.len() - 1 {
                assert(s[k] == s.drop_last()[k]);
            }
        }
    }
}

/// Index of the last occurrence of `c`, if any.
fn find_last(s: &Vec<char>, c: char) -> (r: Option<usize>)
    ensures
        match r {
            Some(i) => i == last_pos(s@, c),
            None => last_pos(s@, c) == -1,
        },
{
    let mut i = s.len();
    assert(s@.take(i as int) =~= s@);
    while i > 0
        invariant
            i <= s.len(),
            last_pos(s@, c) == last_pos(s@.take(i as int), c),
        decreases i,
    {
        assert(s@.take(i as int).drop_last() =~= s@.take(i - 1));
        if s[i - 1] == c {
            return Some(i - 1);
        }
        i = i - 1;
    }
    None
}

/// Split a path into stem and extension: `dir/file.txt` gives
/// (`dir/file`, `.txt`); a name without a dot, or starting with its only dot,
/// has an empty extension.
pub fn split_stem_ext(path: &str) -> (r: (&str, &str))
    ensures
        r.0@ == path@.take(ext_split_point(path@)),
        r.1@ == path@.skip(ext_split_point(path@)),
{
    let chars = chars_of(path);
    let n = chars.len();
    let slash = find_last(&chars, '/');
    let dot = find_last(&chars, '.');
    proof {
        lemma_last_pos_bounds(path@, '/');
        lemma_last_pos_bounds(path@, '.');
    }
    let split = match (dot, slash) {
        (Some(d), Some(sl)) => d > sl + 1,
        (Some(d), None) => d > 0,
        (None, _) => false,
    };
    if split {
        let p = dot.unwrap();
        (path.substring_char(0, p), path.substring_char(p, n))
    } else {
        assert(path@.take(n as int) =~= path@);
        (path, path.substring_char(n, n))
    }
}

/// What chrono prints for the UTC time `ms` milliseconds after the epoch
/// under the strftime-style format `fmt` (the epoch itself when `ms` is out of range).
pub uninterp spec fn utc_time_text(ms: i64, fmt: Seq<char>) -> Seq<char>;

/// Formats a UTC timestamp with chrono's `format`; named by `utc_time_text`.
/// chrono fails, and `to_string` then panics, on a format it refuses or one
/// that asks for an offset; the one format admitted names only date and time
/// fields, which a naive UTC time always has.
#[verifier::external_body]
pub(crate) fn format_utc_millis(ms: i64, fmt: &str) -> (r: String)
    requires
        fmt@ == "%Y-%m-%d %H%M%S"@,
    ensures
        r@ == utc_time_text(ms, fmt@),
{
    chrono::DateTime::from_timestamp_millis(ms).unwrap_or_default().naive_utc().format(fmt).to_string()
}

/// The timestamp text used in conflict and restore names (`YYYY-MM-DD HHmmss`, UTC).
pub fn name_timestamp(ms: i64) -> (r: String)
    ensures
        r@ == utc_time_text(ms, "%Y-%m-%d %H%M%S"@),
{
    format_utc_millis(ms, "%Y-%m-%d %H%M%S")
}

/// The conflict-safe name tried at `attempt`: attempts 0 and 1 carry no
/// counter, later attempts append `-<attempt>` before the extension.
pub open spec fn conflict_name_spec(
    path: Seq<char>,
    device: Seq<char>,
    ts: Seq<char>,
    attempt: nat,
) -> Seq<char> {
    let p = ext_split_point(path);
    let head = path.take(p) + " (conflict from "@ + device + " "@ + ts + ")"@;
    if attempt < 2 {
        head + path.skip(p)
    } else {
        head + "-"@ + decimal(attempt) + path.skip(p)
    }
}

/// Builds `<stem> (conflict from <device> <timestamp>)[-<attempt>]<ext>`.
pub fn conflict_candidate(
    original_path: &str,
    device_name: &str,
    timestamp_text: &str,
    attempt: u64,
) -> (r: String)
    ensures
        r@ == conflict_name_spec(original_path@, device_name@, timestamp_text@, attempt as nat),
{
    let (stem, ext) = split_stem_ext(original_path);
    let mut out = String::new();
    push_str(&mut out, stem);
    push_str(&mut out, " (conflict from ");
    push_str(&mut out, device_name);
    push_str(&mut out, " ");
    push_str(&mut out, timestamp_text);
    push_str(&mut out, ")");
    if attempt >= 2 {
        push_str(&mut out, "-");
        let digits = u64_to_decimal(attempt);
        push_chars(&mut out, &digits);
    }
    push_str(&mut out, ext);
    out
}

/// `path_exists` reported `name` as taken on some call.
pub open spec fn reported_taken<F: Fn(&str) -> bool>(path_exists: F, name: Seq<char>) -> bool {
    exists|s: &str| s@ == name && call_ensures(path_exists, (s,), true)
}

/// `path_exists` reported `name` as free on some call.
pub open spec fn reported_free<F: Fn(&str) -> bool>(path_exists: F, name: Seq<char>) -> bool {
    exists|s: &str| s@ == name && call_ensures(path_exists, (s,), false)
}

/// An attempt number that names a candidate: 0 (no counter), or 2 and up.
pub open spec fn candidate_attempt(m: nat) -> bool {
    m == 0 || 2 <= m
}

/// The file name for keeping both copies of a conflicting file: the first
/// candidate (no counter, then `-2`, `-3`, ...) that `path_exists` reports
/// free. Every candidate before it was reported taken. The candidates use
/// the UTC time of `timestamp_unix_ms`; should every candidate up to the
/// counter `u64::MAX` be taken, that last one is returned.
pub fn conflict_filename<F: Fn(&str) -> bool>(
    original_path: &str,
    device_name: &str,
    timestamp_unix_ms: i64,
    path_exists: F,
) -> (r: String)
    requires
        forall|s: &str| #[trigger] path_exists.requires((s,)),
    ensures
        exists|n: nat|
            candidate_attempt(n) && n <= u64::MAX && #[trigger] conflict_name_spec(
                original_path@,
                device_name@,
                utc_time_text(timestamp_unix_ms, "%Y-%m-%d %H%M%S"@),
                n,
            ) == r@ && (n < u64::MAX ==> reported_free(path_exists, r@))
            && forall|m: nat| candidate_attempt(m) && m < n ==> reported_taken(
                path_exists,
                #[trigger] conflict_name_spec(
                    original_path@,
                    device_name@,
                    utc_time_text(timestamp_unix_ms, "%Y-%m-%d %H%M%S"@),
                    m,
                ),
            ),
{
    let ts = name_timestamp(timestamp_unix_ms);
    let ghost tsv = utc_time_text(timestamp_unix_ms, "%Y-%m-%d %H%M%S"@);
    let first = conflict_candidate(original_path, device_name, ts.as_str(), 0);
    let first_str = first.as_str();
    let taken = path_exists(first_str);
    if !taken {
        proof {
            assert(conflict_name_spec(original_path@, device_name@, ts@, 0) == first@);
            assert(first_str@ == first@ && call_ensures(path_exists, (first_str,), false));
            assert(reported_free(path_exists, first@));
            assert(forall|m: nat| candidate_attempt(m) && m < 0 ==> reported_taken(
                path_exists,
                #[trigger] conflict_name_spec(original_path@, device_name@, tsv, m),
            ));
        }
        return first;
    }
    proof {
        assert(first_str@ == conflict_name_spec(original_path@, device_name@, tsv, 0)
            && call_ensures(path_exists, (first_str,), true));
        assert(reported_taken(path_exists, conflict_name_spec(original_path@, device_name@, tsv, 0)));
    }
    let mut attempt: u64 = 2;
    loop
        invariant
            2 <= attempt,
            ts@ == tsv,
            tsv == utc_time_text(timestamp_unix_ms, "%Y-%m-%d %H%M%S"@),
            forall|s: &str| #[trigger] path_exists.requires((s,)),
            forall|m: nat| candidate_attempt(m) && m < attempt ==> reported_taken(
                path_exists,
                #[trigger] conflict_name_spec(original_path@, device_name@, tsv, m),
            ),
        decreases u64::MAX - attempt,
    {
        let candidate = conflict_candidate(original_path, device_name, ts.as_str(), attempt);
        let candidate_str = candidate.as_str();
        let taken = path_exists(candidate_str);
        if !taken || attempt == u64::MAX {
            proof {
                assert(conflict_name_spec(original_path@, device_name@, ts@, attempt as nat) == candidate@);
                if attempt < u64::MAX {
                    assert(candidate_str@ == candidate@ && call_ensures(path_exists, (candidate_str,), false));
                    assert(reported_free(path_exists, candidate@));
                }
                assert(candidate_attempt(attempt as nat));
            }
            return candidate;
        }
        proof {
            assert(candidate_str@ == conflict_name_spec(original_path@, device_name@, tsv, attempt as nat)
                && call_ensures(path_exists, (candidate_str,), true));
            assert forall|m: nat| candidate_attempt(m) && m < attempt + 1 implies reported_taken(
                path_exists,
                #[trigger] conflict_name_spec(original_path@, device_name@, tsv, m),
            ) by {
                if m == attempt as nat {
                    assert(reported_taken(path_exists, conflict_name_spec(original_path@, device_name@, tsv, m)));
                }
            }
        }
        attempt = attempt + 1;
    }
}

/// Law: hashes decide. When the primary and its baseline both carry the same
/// verified hash, a pending return does not conflict, whatever the
/// modification times say.
pub proof fn law_same_verified_hash_is_no_conflict(
    pending: PendingReturnChange,
    primary: FileSnapshot,
    baseline: SyncBaseline,
)
    requires
        !primary.deleted,
        primary.hash_status == HashStatus::Verified,
        baseline.primary_hash_status == HashStatus::Verified,
        primary.blake3_hash is Some,
        baseline.primary_hash is Some,
        crate::model::opt_view(primary.blake3_hash) == crate::model::opt_view(baseline.primary_hash),
    ensures
        conflict_spec(pending, Some(primary), Some(baseline)) is NoConflict,
{
}

/// Law: a pending return conflicts whenever the primary changed after the
/// last sync, so a return never silently overwrites a primary edit.
pub proof fn law_changed_primary_conflicts(
    pending: PendingReturnChange,
    primary: FileSnapshot,
    baseline: SyncBaseline,
)
    requires
        !primary.deleted,
        changed_since(primary, baseline, DeviceRole::Primary),
    ensures
        conflict_spec(pending, Some(primary), Some(baseline)) is Conflict,
{
}

/// Law: a pending return onto a primary path that was never synced
/// conflicts: the return would overwrite data the secondary never saw.
pub proof fn law_unsynced_primary_conflicts(pending: PendingReturnChange, primary: FileSnapshot)
    requires
        !primary.deleted,
    ensures
        conflict_spec(pending, Some(primary), None) is Conflict,
{
}

} // verus!
