//! Sync task setup and bookkeeping: roles, folder checks, overlapping roots,
//! peer keys, and when a task's file list or sync state needs attention.
use vstd::prelude::*;
use crate::actions::{last_live_index, lemma_last_live_index_bounds};
use crate::coordinator::{elapsed_ms, FileListRefreshSnapshot};
use crate::model::{DeviceRole, EntryKind, FileSnapshot, LogLevel, PairedDevice, SyncTask};
use crate::planner::live;
use crate::text::{chars_of, chars_eq, ascii_lower_seq, chars_ascii_lower, pieces, split_chars, split_spec, str_eq, concat_str, push_str};

verus! {

/// A folder larger than this cannot be a primary sync root.
pub const PRIMARY_NON_EMPTY_LIMIT_BYTES: u64 = 2147483648;

/// Parses a role name: `Primary` or `Secondary`.
pub fn parse_device_role(role: &str) -> (r: Result<DeviceRole, String>)
    ensures
        role@ == "Primary"@ <==> r == Ok::<DeviceRole, String>(DeviceRole::Primary),
        role@ == "Secondary"@ <==> r == Ok::<DeviceRole, String>(DeviceRole::Secondary),
        r matches Err(e) ==> e@ == "invalid device role: "@ + role@,
{
    proof {
        reveal_strlit("Primary");
        reveal_strlit("Secondary");
        assert("Primary"@[0] != "Secondary"@[0]);
    }
    if str_eq(role, "Primary") {
        Ok(DeviceRole::Primary)
    } else if str_eq(role, "Secondary") {
        Ok(DeviceRole::Secondary)
    } else {
        proof {
            reveal_strlit("Primary");
            reveal_strlit("Secondary");
        }
        Err(concat_str("invalid device role: ", role))
    }
}

/// The name a role is stored and sent under.
pub open spec fn role_name_spec(role: DeviceRole) -> Seq<char> {
    match role {
        DeviceRole::Primary => "Primary"@,
        DeviceRole::Secondary => "Secondary"@,
    }
}

/// The name of a role.
pub fn role_name(role: DeviceRole) -> (r: &'static str)
    ensures
        r@ == role_name_spec(role),
{
    match role {
        DeviceRole::Primary => "Primary",
        DeviceRole::Secondary => "Secondary",
    }
}

/// The role proposed to the peer: the other one.
pub fn peer_role(role: DeviceRole) -> (r: DeviceRole)
    ensures
        r != role,
{
    match role {
        DeviceRole::Primary => DeviceRole::Secondary,
        DeviceRole::Secondary => DeviceRole::Primary,
    }
}

/// The (primary, secondary) device ids of a task set up with `local_role`.
pub fn task_device_ids(local_role: DeviceRole, local_device_id: &str, peer_device_id: &str) -> (r: (String, String))
    ensures
        local_role == DeviceRole::Primary ==> r.0@ == local_device_id@ && r.1@ == peer_device_id@,
        local_role == DeviceRole::Secondary ==> r.0@ == peer_device_id@ && r.1@ == local_device_id@,
{
    match local_role {
        DeviceRole::Primary => (crate::text::to_owned_string(local_device_id), crate::text::to_owned_string(peer_device_id)),
        DeviceRole::Secondary => (crate::text::to_owned_string(peer_device_id), crate::text::to_owned_string(local_device_id)),
    }
}

/// A new, enabled task between this device and a peer: the device ids
/// follow the local role and the peer's folder is kept trimmed (empty when
/// the peer has not chosen one yet).
pub fn new_sync_task(
    id: u128,
    name: String,
    local_path: String,
    remote_path: Option<String>,
    local_role: DeviceRole,
    local_device_id: &str,
    peer_device_id: &str,
    now: i64,
) -> (r: SyncTask)
    ensures
        r.id == id,
        r.name == name,
        r.local_path == local_path,
        r.remote_path@ == (match remote_path {
            Some(p) => crate::entries::trimmed(p@),
            None => Seq::<char>::empty(),
        }),
        r.local_role == local_role,
        r.enabled,
        r.created_unix_ms == now,
        r.updated_unix_ms == now,
        local_role == DeviceRole::Primary ==> r.primary_device_id@ == local_device_id@
            && r.secondary_device_id@ == peer_device_id@,
        local_role == DeviceRole::Secondary ==> r.primary_device_id@ == peer_device_id@
            && r.secondary_device_id@ == local_device_id@,
{
    let (primary_device_id, secondary_device_id) = task_device_ids(local_role, local_device_id, peer_device_id);
    let remote = match remote_path {
        Some(p) => crate::entries::trim(p.as_str()),
        None => String::new(),
    };
    SyncTask {
        id,
        name,
        primary_device_id,
        secondary_device_id,
        local_path,
        remote_path: remote,
        local_role,
        enabled: true,
        created_unix_ms: now,
        updated_unix_ms: now,
    }
}

/// The device on the other side of a task.
pub fn task_peer_device_id(task: &SyncTask) -> (r: String)
    ensures
        task.local_role == DeviceRole::Primary ==> r == task.secondary_device_id,
        task.local_role == DeviceRole::Secondary ==> r == task.primary_device_id,
{
    if task.local_role == DeviceRole::Primary {
        task.secondary_device_id.clone()
    } else {
        task.primary_device_id.clone()
    }
}

/// The log level named by a string; anything unknown is `Info`.
pub fn parse_log_level(level: &str) -> (r: LogLevel)
    ensures
        r == (if level@ == "Warn"@ {
            LogLevel::Warn
        } else if level@ == "Error"@ {
            LogLevel::Error
        } else {
            LogLevel::Info
        }),
{
    if str_eq(level, "Warn") {
        LogLevel::Warn
    } else if str_eq(level, "Error") {
        LogLevel::Error
    } else {
        LogLevel::Info
    }
}

/// Lower-cases each component when `fold_case` is set.
pub open spec fn maybe_fold(ps: Seq<Seq<char>>, fold_case: bool) -> Seq<Seq<char>> {
    if fold_case {
        ps.map_values(|p: Seq<char>| ascii_lower_seq(p))
    } else {
        ps
    }
}

/// The components a folder path is compared by: the pieces between `/` or
/// `\`, after a root marker `/` when the path starts with a separator, and
/// lower-cased when the file system ignores case.
pub open spec fn comparable_components(path: Seq<char>, fold_case: bool) -> Seq<Seq<char>> {
    let parts = split_spec(path, '/', '\\').filter(|p: Seq<char>| p.len() > 0);
    let rooted = if path.len() > 0 && (path[0] == '/' || path[0] == '\\') {
        seq![seq!['/']] + parts
    } else {
        parts
    };
    maybe_fold(rooted, fold_case)
}

/// `prefix` is a leading part of `path`, component by component.
pub open spec fn is_prefix_path(prefix: Seq<Seq<char>>, path: Seq<Seq<char>>) -> bool {
    prefix.len() <= path.len() && path.take(prefix.len() as int) == prefix
}

/// Two folders overlap when one contains the other (or they are the same).
pub open spec fn overlap(left: Seq<char>, right: Seq<char>, fold_case: bool) -> bool {
    let l = comparable_components(left, fold_case);
    let r = comparable_components(right, fold_case);
    l.len() > 0 && r.len() > 0 && (is_prefix_path(l, r) || is_prefix_path(r, l))
}

/// The comparable components of a folder path.
pub fn comparable_path_components(path: &str, fold_case: bool) -> (r: Vec<Vec<char>>)
    ensures
        pieces(r@) == comparable_components(path@, fold_case),
{
    let chars = chars_of(path);
    let parts = split_chars(&chars, '/', '\\');
    let ghost all = pieces(parts@);
    let ghost keep = |p: Seq<char>| p.len() > 0;
    let mut out: Vec<Vec<char>> = Vec::new();
    let rooted = chars.len() > 0 && (chars[0] == '/' || chars[0] == '\\');
    let ghost head = if rooted { seq![seq!['/']] } else { Seq::<Seq<char>>::empty() };
    if rooted {
        let mut root: Vec<char> = Vec::new();
        root.push('/');
        out.push(root);
        assert(ascii_lower_seq(seq!['/']) =~= seq!['/']);
        assert(pieces(out@) =~= maybe_fold(head, fold_case));
    } else {
        assert(pieces(out@) =~= maybe_fold(head, fold_case));
    }
    let mut i: usize = 0;
    while i < parts.len()
        invariant
            i <= parts@.len(),
            all == pieces(parts@),
            all == split_spec(path@, '/', '\\'),
            keep == (|p: Seq<char>| p.len() > 0),
            pieces(out@) == maybe_fold(head + all.take(i as int).filter(keep), fold_case),
        decreases parts.len() - i,
    {
        proof {
            assert(all.take(i + 1) =~= all.take(i as int).push(all[i as int]));
            all.take(i as int).lemma_filter_push(all[i as int], keep);
            assert(all[i as int] == parts@[i as int]@);
        }
        let ghost prev = head + all.take(i as int).filter(keep);
        if parts[i].len() > 0 {
            let ghost before = pieces(out@);
            let piece = if fold_case {
                chars_ascii_lower(&parts[i])
            } else {
                copy_piece(&parts[i])
            };
            out.push(piece);
            assert(pieces(out@) =~= before.push(piece@));
            assert(head + all.take(i + 1).filter(keep) =~= prev.push(all[i as int]));
            assert(maybe_fold(prev.push(all[i as int]), fold_case) =~= maybe_fold(prev, fold_case).push(piece@));
        } else {
            assert(head + all.take(i + 1).filter(keep) =~= prev);
        }
        i = i + 1;
    }
    assert(all.take(parts@.len() as int) =~= all);
    assert(chars@ == path@);
    out
}

/// Whether two folder paths overlap (one holds the other).
pub fn paths_overlap(left: &str, right: &str, fold_case: bool) -> (r: bool)
    ensures
        r == overlap(left@, right@, fold_case),
{
    let l = comparable_path_components(left, fold_case);
    let r = comparable_path_components(right, fold_case);
    if l.len() == 0 || r.len() == 0 {
        return false;
    }
    components_prefix(&l, &r) || components_prefix(&r, &l)
}

fn components_prefix(prefix: &Vec<Vec<char>>, path: &Vec<Vec<char>>) -> (r: bool)
    ensures
        r == is_prefix_path(pieces(prefix@), pieces(path@)),
{
    if prefix.len() > path.len() {
        return false;
    }
    let mut k: usize = 0;
    while k < prefix.len()
        invariant
            prefix.len() <= path.len(),
            k <= prefix.len(),
            forall|j: int| 0 <= j < k ==> pieces(path@)[j] == pieces(prefix@)[j],
        decreases prefix.len() - k,
    {
        if !chars_eq(&path[k], &prefix[k]) {
            assert(pieces(path@).take(prefix@.len() as int)[k as int] != pieces(prefix@)[k as int]);
            return false;
        }
        k = k + 1;
    }
    assert(pieces(path@).take(prefix@.len() as int) =~= pieces(prefix@));
    true
}

/// The first existing task whose folder overlaps `new_local_path`, if any.
pub open spec fn first_overlap(tasks: Seq<SyncTask>, new_local_path: Seq<char>, fold_case: bool) -> Option<int>
    decreases tasks.len(),
{
    if tasks.len() == 0 {
        None
    } else if overlap(tasks[0].local_path@, new_local_path, fold_case) {
        Some(0)
    } else {
        match first_overlap(tasks.drop_first(), new_local_path, fold_case) {
            Some(k) => Some(k + 1),
            None => None,
        }
    }
}

/// Refuses a sync folder that holds, or lies inside, another task's folder.
pub fn validate_no_overlapping_task_roots(
    existing_tasks: &[SyncTask],
    new_local_path: &str,
    fold_case: bool,
) -> (r: Result<(), String>)
    ensures
        match first_overlap(existing_tasks@, new_local_path@, fold_case) {
            None => r is Ok,
            Some(k) => r matches Err(e) && e@ == "sync folder overlaps with existing task '"@
                + existing_tasks@[k].name@ + "'"@,
        },
{
    let mut i: usize = 0;
    assert(existing_tasks@.skip(0) =~= existing_tasks@);
    while i < existing_tasks.len()
        invariant
            i <= existing_tasks@.len(),
            first_overlap(existing_tasks@, new_local_path@, fold_case) == match first_overlap(
                existing_tasks@.skip(i as int),
                new_local_path@,
                fold_case,
            ) {
                Some(k) => Some(k + i),
                None => None,
            },
        decreases existing_tasks.len() - i,
    {
        assert(existing_tasks@.skip(i as int).drop_first() =~= existing_tasks@.skip(i + 1));
        assert(existing_tasks@.skip(i as int)[0] == existing_tasks@[i as int]);
        if paths_overlap(existing_tasks[i].local_path.as_str(), new_local_path, fold_case) {
            let mut msg = concat_str("sync folder overlaps with existing task '", existing_tasks[i].name.as_str());
            push_str(&mut msg, "'");
            return Err(msg);
        }
        i = i + 1;
    }
    Ok(())
}

/// The paired device behind an optional reference.
pub open spec fn deref_device(d: Option<&PairedDevice>) -> Option<PairedDevice> {
    match d {
        Some(x) => Some(*x),
        None => None,
    }
}

/// The device is known with a different key.
pub open spec fn key_changed(existing: Option<PairedDevice>, key: Seq<u8>) -> bool {
    match existing {
        Some(d) => d.public_key@ != key,
        None => false,
    }
}

/// Refuses an invite whose sender's key differs from the one it was paired
/// with; an empty key (no key sent) and an unknown device pass.
pub fn ensure_paired_device_public_key_matches(
    existing: Option<&PairedDevice>,
    device_id: &str,
    public_key: &[u8],
) -> (r: Result<(), String>)
    ensures
        r is Err <==> (public_key@.len() > 0 && key_changed(deref_device(existing), public_key@)),
        r matches Err(e) ==> e@ == "paired device public key changed for device "@ + device_id@
            + "; reject and re-pair before accepting this invite"@,
{
    if public_key.len() == 0 {
        return Ok(());
    }
    if let Some(device) = existing {
        if !bytes_eq(device.public_key.as_slice(), public_key) {
            let mut msg = concat_str("paired device public key changed for device ", device_id);
            push_str(&mut msg, "; reject and re-pair before accepting this invite");
            return Err(msg);
        }
    }
    Ok(())
}

/// Byte-wise equality.
pub fn bytes_eq(a: &[u8], b: &[u8]) -> (r: bool)
    ensures
        r == (a@ == b@),
{
    if a.len() != b.len() {
        return false;
    }
    let mut i: usize = 0;
    while i < a.len()
        invariant
            a@.len() == b@.len(),
            i <= a@.len(),
            forall|j: int| 0 <= j < i ==> a@[j] == b@[j],
        decreases a.len() - i,
    {
        if a[i] != b[i] {
            return false;
        }
        i = i + 1;
    }
    assert(a@ =~= b@);
    true
}

fn copy_piece(v: &Vec<char>) -> (r: Vec<char>)
    ensures
        r@ == v@,
{
    let mut r: Vec<char> = Vec::new();
    let mut i: usize = 0;
    while i < v.len()
        invariant
            i <= v@.len(),
            r@ == v@.take(i as int),
        decreases v.len() - i,
    {
        r.push(v[i]);
        assert(v@.take(i + 1) =~= v@.take(i as int).push(v@[i as int]));
        i = i + 1;
    }
    assert(v@.take(v@.len() as int) =~= v@);
    r
}

/// What a folder holds, as far as choosing it for a task matters.
#[derive(Debug, Clone, Copy, PartialEq, Eq, Structural)]
pub struct FolderInspection {
    pub exists: bool,
    pub is_dir: bool,
    pub is_empty: bool,
    pub total_size: u64,
    pub file_count: u64,
    pub dir_count: u64,
    pub over_limit: bool,
}

/// The inspection of a path that does not exist.
pub fn missing_folder() -> (r: FolderInspection)
    ensures
        r == (FolderInspection {
            exists: false,
            is_dir: false,
            is_empty: true,
            total_size: 0,
            file_count: 0,
            dir_count: 0,
            over_limit: false,
        }),
{
    FolderInspection {
        exists: false,
        is_dir: false,
        is_empty: true,
        total_size: 0,
        file_count: 0,
        dir_count: 0,
        over_limit: false,
    }
}

/// The inspection of a path that is not a directory.
pub fn not_a_folder() -> (r: FolderInspection)
    ensures
        r == (FolderInspection {
            exists: true,
            is_dir: false,
            is_empty: true,
            total_size: 0,
            file_count: 0,
            dir_count: 0,
            over_limit: false,
        }),
{
    FolderInspection {
        exists: true,
        is_dir: false,
        is_empty: true,
        total_size: 0,
        file_count: 0,
        dir_count: 0,
        over_limit: false,
    }
}

/// Running totals of a folder walk.
#[derive(Debug, Clone, Copy, PartialEq, Eq, Structural)]
pub struct FolderTally {
    pub total_size: u64,
    pub file_count: u64,
    pub dir_count: u64,
}

/// The totals after one more (not ignored) entry; `is_file` and `len`
/// describe a non-directory entry, which counts only when it is a regular file.
pub open spec fn tally_step(t: FolderTally, is_dir: bool, is_file: bool, len: u64) -> FolderTally {
    if is_dir {
        FolderTally { dir_count: (t.dir_count + 1) as u64, ..t }
    } else if is_file {
        FolderTally {
            file_count: (t.file_count + 1) as u64,
            total_size: if t.total_size + len > u64::MAX {
                u64::MAX
            } else {
                (t.total_size + len) as u64
            },
            ..t
        }
    } else {
        t
    }
}

impl FolderTally {
    /// No entries seen yet.
    pub fn new() -> (r: Self)
        ensures
            r == (FolderTally { total_size: 0, file_count: 0, dir_count: 0 }),
    {
        FolderTally { total_size: 0, file_count: 0, dir_count: 0 }
    }

    /// Counts one entry; returns whether the walk goes on (it stops once the
    /// total passes the primary limit).
    pub fn add_entry(&mut self, is_dir: bool, is_file: bool, len: u64) -> (r: bool)
        requires
            old(self).dir_count < u64::MAX,
            old(self).file_count < u64::MAX,
        ensures
            *final(self) == tally_step(*old(self), is_dir, is_file, len),
            r == (final(self).total_size <= PRIMARY_NON_EMPTY_LIMIT_BYTES),
    {
        if is_dir {
            self.dir_count = self.dir_count + 1;
        } else if is_file {
            self.file_count = self.file_count + 1;
            self.total_size = self.total_size.saturating_add(len);
        }
        self.total_size <= PRIMARY_NON_EMPTY_LIMIT_BYTES
    }

    /// The inspection of an existing directory with these totals.
    pub fn finish(&self) -> (r: FolderInspection)
        ensures
            r == (FolderInspection {
                exists: true,
                is_dir: true,
                is_empty: self.file_count == 0 && self.dir_count == 0,
                total_size: self.total_size,
                file_count: self.file_count,
                dir_count: self.dir_count,
                over_limit: self.total_size > PRIMARY_NON_EMPTY_LIMIT_BYTES,
            }),
    {
        FolderInspection {
            exists: true,
            is_dir: true,
            is_empty: self.file_count == 0 && self.dir_count == 0,
            total_size: self.total_size,
            file_count: self.file_count,
            dir_count: self.dir_count,
            over_limit: self.total_size > PRIMARY_NON_EMPTY_LIMIT_BYTES,
        }
    }
}

/// Why a folder cannot serve `role`, if it cannot.
pub open spec fn folder_problem(i: FolderInspection, role: DeviceRole) -> Option<Seq<char>> {
    if !i.exists {
        Some("文件夹不存在"@)
    } else if !i.is_dir {
        Some("请选择文件夹"@)
    } else if role == DeviceRole::Primary && i.over_limit {
        Some("文件夹超过 2GB，请选择更小的文件夹"@)
    } else if role == DeviceRole::Secondary && !i.is_empty {
        Some("请选择一个空文件夹"@)
    } else {
        None
    }
}

/// Accepts a folder for `role`: it must exist and be a directory; a primary
/// folder must stay under the size limit, a secondary folder must be empty.
pub fn validate_task_folder_for_role(inspection: FolderInspection, role: DeviceRole) -> (r: Result<FolderInspection, String>)
    ensures
        match folder_problem(inspection, role) {
            None => r == Ok::<FolderInspection, String>(inspection),
            Some(m) => r matches Err(e) && e@ == m,
        },
{
    if !inspection.exists {
        return Err(crate::text::to_owned_string("文件夹不存在"));
    }
    if !inspection.is_dir {
        return Err(crate::text::to_owned_string("请选择文件夹"));
    }
    match role {
        DeviceRole::Primary => if inspection.over_limit {
            return Err(crate::text::to_owned_string("文件夹超过 2GB，请选择更小的文件夹"));
        },
        DeviceRole::Secondary => if !inspection.is_empty {
            return Err(crate::text::to_owned_string("请选择一个空文件夹"));
        },
    }
    Ok(inspection)
}

/// The size and time of an entry changed (directories only by kind).
pub open spec fn metadata_changed(old: FileSnapshot, cur: FileSnapshot) -> bool {
    if old.kind != cur.kind {
        true
    } else if old.kind == EntryKind::Directory {
        false
    } else {
        old.size != cur.size || old.modified_unix_ms != cur.modified_unix_ms
    }
}

/// Whether an entry's metadata changed between two scans.
pub fn snapshot_metadata_changed(old: &FileSnapshot, current: &FileSnapshot) -> (r: bool)
    ensures
        r == metadata_changed(*old, *current),
{
    if old.kind != current.kind {
        return true;
    }
    if old.kind == EntryKind::Directory {
        return false;
    }
    old.size != current.size || old.modified_unix_ms != current.modified_unix_ms
}

/// The live entries of two scans differ: an entry vanished or changed, or a
/// new one appeared (later entries for a path win).
pub open spec fn metadata_delta_spec(cached: Seq<FileSnapshot>, current: Seq<FileSnapshot>) -> bool {
    ||| exists|i: int|
        0 <= i < cached.len() && live(cached[i]) && ({
            let path = #[trigger] cached[i].relative_path@;
            let c = last_live_index(current, path);
            c < 0 || metadata_changed(cached[last_live_index(cached, path)], current[c])
        })
    ||| exists|j: int|
        0 <= j < current.len() && live(current[j]) && last_live_index(cached, #[trigger] current[j].relative_path@) < 0
}

/// Whether a metadata-only rescan differs from the cached scan.
pub fn metadata_delta(cached_snapshots: &[FileSnapshot], current_metadata: &[FileSnapshot]) -> (r: bool)
    ensures
        r == metadata_delta_spec(cached_snapshots@, current_metadata@),
{
    let mut i: usize = 0;
    while i < cached_snapshots.len()
        invariant
            i <= cached_snapshots@.len(),
            forall|k: int|
                0 <= k < i && live(cached_snapshots@[k]) ==> ({
                    let path = #[trigger] cached_snapshots@[k].relative_path@;
                    let c = last_live_index(current_metadata@, path);
                    !(c < 0 || metadata_changed(cached_snapshots@[last_live_index(cached_snapshots@, path)], current_metadata@[c]))
                }),
        decreases cached_snapshots.len() - i,
    {
        let s = &cached_snapshots[i];
        if !s.deleted && !s.is_symlink {
            let path = s.relative_path.as_str();
            proof {
                crate::actions::lemma_last_live_index_bounds(cached_snapshots@, s.relative_path@);
                crate::actions::lemma_last_live_index_bounds(current_metadata@, s.relative_path@);
                assert(crate::actions::last_live_index(cached_snapshots@, s.relative_path@) >= 0) by {
                    lemma_live_index_exists(cached_snapshots@, s.relative_path@, i as int);
                }
            }
            let own = crate::actions::find_last_live_snapshot(cached_snapshots, path).unwrap();
            match crate::actions::find_last_live_snapshot(current_metadata, path) {
                None => {
                    return true;
                },
                Some(c) => {
                    if snapshot_metadata_changed(&cached_snapshots[own], &current_metadata[c]) {
                        return true;
                    }
                },
            }
        }
        i = i + 1;
    }
    let mut j: usize = 0;
    while j < current_metadata.len()
        invariant
            j <= current_metadata@.len(),
            !metadata_delta_spec(cached_snapshots@, current_metadata@) <==> forall|k: int|
                j <= k < current_metadata@.len() && live(current_metadata@[k]) ==> last_live_index(
                    cached_snapshots@,
                    #[trigger] current_metadata@[k].relative_path@,
                ) >= 0,
        decreases current_metadata.len() - j,
    {
        let s = &current_metadata[j];
        if !s.deleted && !s.is_symlink {
            if crate::actions::find_last_live_snapshot(cached_snapshots, s.relative_path.as_str()).is_none() {
                return true;
            }
        }
        j = j + 1;
    }
    false
}

/// A live snapshot of `path` at `i` means the last live one exists.
pub proof fn lemma_live_index_exists(ss: Seq<FileSnapshot>, path: Seq<char>, i: int)
    requires
        0 <= i < ss.len(),
        live(ss[i]),
        ss[i].relative_path@ == path,
    ensures
        last_live_index(ss, path) >= i,
    decreases ss.len(),
{
    if i < ss.len() - 1 {
        lemma_live_index_exists(ss.drop_last(), path, i);
    }
}

/// A file list is refreshed once changes have been quiet this long.
pub const FILE_LIST_REFRESH_QUIET_MS: u64 = 800;

/// Minimum time between two metadata checks of a task's file list.
pub const FILE_LIST_METADATA_CHECK_INTERVAL_MS: u64 = 10000;

/// What the file-list view is told about a task.
#[derive(Debug, Clone)]
pub struct TaskFileListRefreshHint {
    pub revision: u64,
    pub should_refresh: bool,
    pub quiet_ms: u64,
    pub reason: String,
}

/// The hint for a task's change record at `now_ms`: how long changes have
/// been quiet, and whether a changed list should be reloaded now.
pub fn refresh_hint(snapshot: &FileListRefreshSnapshot, now_ms: u64) -> (r: TaskFileListRefreshHint)
    ensures
        r.revision == snapshot.revision,
        r.quiet_ms == match snapshot.last_changed_at_ms {
            Some(t) => elapsed_ms(now_ms, t),
            None => 0,
        },
        r.should_refresh == (snapshot.revision > 0 && r.quiet_ms >= FILE_LIST_REFRESH_QUIET_MS),
        r.reason@ == snapshot.reason@,
{
    let quiet_ms: u64 = match snapshot.last_changed_at_ms {
        Some(t) => if now_ms >= t {
            now_ms - t
        } else {
            0
        },
        None => 0,
    };
    TaskFileListRefreshHint {
        revision: snapshot.revision,
        should_refresh: snapshot.revision > 0 && quiet_ms >= FILE_LIST_REFRESH_QUIET_MS,
        quiet_ms,
        reason: crate::text::to_owned_string(snapshot.reason),
    }
}

/// Why a primary task needs a sync sweep, in sorted order.
pub open spec fn sweep_reasons_spec(missing_baseline: bool, delta: bool) -> Seq<Seq<char>> {
    (if delta { seq!["metadata_delta"@] } else { Seq::empty() }) + (if missing_baseline {
        seq!["missing_baseline"@]
    } else {
        Seq::empty()
    })
}

/// The reasons a primary task needs a sweep: a baselined path is missing
/// on disk, or a metadata rescan differs from the cached scan.
pub fn sweep_reasons(missing_baseline: bool, delta: bool) -> (r: Vec<&'static str>)
    ensures
        crate::text::str_views(r@) == sweep_reasons_spec(missing_baseline, delta),
{
    let mut v: Vec<&'static str> = Vec::new();
    if delta {
        v.push("metadata_delta");
    }
    if missing_baseline {
        v.push("missing_baseline");
    }
    assert(crate::text::str_views(v@) =~= sweep_reasons_spec(missing_baseline, delta));
    v
}

/// The enabled primary tasks among `tasks` that are ready, in task order.
pub open spec fn ready_ids_spec(tasks: Seq<SyncTask>, ready: Seq<u128>) -> Seq<u128> {
    tasks.filter(|t: SyncTask| t.enabled && t.local_role == DeviceRole::Primary && ready.contains(t.id)).map_values(
        |t: SyncTask| t.id,
    )
}

/// The ids of the tasks to auto-sync: enabled primary tasks that are ready.
pub fn ready_auto_sync_ids(tasks: &[SyncTask], ready: &[u128]) -> (r: Vec<u128>)
    ensures
        r@ == ready_ids_spec(tasks@, ready@),
{
    let ghost pred = |t: SyncTask| t.enabled && t.local_role == DeviceRole::Primary && ready@.contains(t.id);
    let ghost mk = |t: SyncTask| t.id;
    let mut out: Vec<u128> = Vec::new();
    let mut i: usize = 0;
    while i < tasks.len()
        invariant
            i <= tasks@.len(),
            pred == (|t: SyncTask| t.enabled && t.local_role == DeviceRole::Primary && ready@.contains(t.id)),
            mk == (|t: SyncTask| t.id),
            out@ == tasks@.take(i as int).filter(pred).map_values(mk),
        decreases tasks.len() - i,
    {
        let t = &tasks[i];
        proof {
            assert(tasks@.take(i + 1) =~= tasks@.take(i as int).push(*t));
            tasks@.take(i as int).lemma_filter_push(*t, pred);
        }
        let ghost before = out@;
        if t.enabled && t.local_role == DeviceRole::Primary && contains_id(ready, t.id) {
            out.push(t.id);
        }
        assert(tasks@.take(i as int).filter(pred).push(*t).map_values(mk) =~= before.push(t.id));
        i = i + 1;
    }
    assert(tasks@.take(tasks@.len() as int) =~= tasks@);
    out
}

/// Whether `id` is listed.
pub fn contains_id(ids: &[u128], id: u128) -> (r: bool)
    ensures
        r == ids@.contains(id),
{
    let mut i: usize = 0;
    while i < ids.len()
        invariant
            i <= ids@.len(),
            forall|k: int| 0 <= k < i ==> ids@[k] != id,
        decreases ids.len() - i,
    {
        if ids[i] == id {
            return true;
        }
        i = i + 1;
    }
    false
}

/// One action's outcome, as shown to the user.
#[derive(Debug, Clone)]
pub struct SyncActionResult {
    pub relative_path: String,
    pub success: bool,
    pub error: Option<String>,
}

/// One returned path's outcome, as shown to the user.
#[derive(Debug, Clone)]
pub struct ReturnSyncResult {
    pub relative_path: String,
    pub success: bool,
    pub error: Option<String>,
}

/// The answer to a sync request made while a run is going on.
pub fn queued_run_result() -> (r: SyncActionResult)
    ensures
        r.relative_path@ == Seq::<char>::empty(),
        r.success,
        r.error matches Some(e) && e@ == "sync already running; queued another run"@,
{
    SyncActionResult {
        relative_path: String::new(),
        success: true,
        error: Some(crate::text::to_owned_string("sync already running; queued another run")),
    }
}

/// Progress of a task's sync run, as shown to the user.
#[derive(Debug, Clone)]
pub struct SyncProgress {
    pub task_id: String,
    pub phase: String,
    pub detail: Option<String>,
    pub items_done: Option<u64>,
    pub items_total: Option<u64>,
    pub bytes_done: Option<u64>,
    pub bytes_total: Option<u64>,
    pub finished: Option<bool>,
    pub finished_at_unix_ms: Option<i64>,
}

/// Phase shown while totals are set before a phase was recorded.
pub const SYNCING_PHASE: &'static str = "同步中";

/// Phase shown once a run finished.
pub const FINISHED_PHASE: &'static str = "同步完成";

/// Progress after entering `phase` with `detail`; a task without progress
/// starts with no counts.
pub fn progress_enter_phase(entry: Option<SyncProgress>, key: &str, phase: &str, detail: Option<String>) -> (r: SyncProgress)
    ensures
        r.phase@ == phase@,
        r.detail == detail,
        r.finished == Some(false),
        r.finished_at_unix_ms is None,
        match entry {
            Some(e) => r.task_id == e.task_id && r.items_done == e.items_done && r.items_total == e.items_total
                && r.bytes_done == e.bytes_done && r.bytes_total == e.bytes_total,
            None => r.task_id@ == key@ && r.items_done is None && r.items_total is None && r.bytes_done is None
                && r.bytes_total is None,
        },
{
    match entry {
        Some(e) => SyncProgress {
            task_id: e.task_id,
            phase: crate::text::to_owned_string(phase),
            detail,
            items_done: e.items_done,
            items_total: e.items_total,
            bytes_done: e.bytes_done,
            bytes_total: e.bytes_total,
            finished: Some(false),
            finished_at_unix_ms: None,
        },
        None => SyncProgress {
            task_id: crate::text::to_owned_string(key),
            phase: crate::text::to_owned_string(phase),
            detail,
            items_done: None,
            items_total: None,
            bytes_done: None,
            bytes_total: None,
            finished: Some(false),
            finished_at_unix_ms: None,
        },
    }
}

/// Progress after the run's totals became known: counts restart at zero.
pub fn progress_set_totals(entry: Option<SyncProgress>, key: &str, items_total: u64, bytes_total: u64) -> (r: SyncProgress)
    ensures
        r.items_done == Some(0u64),
        r.items_total == Some(items_total),
        r.bytes_done == Some(0u64),
        r.bytes_total == Some(bytes_total),
        r.finished == Some(false),
        r.finished_at_unix_ms is None,
        match entry {
            Some(e) => r.task_id == e.task_id && r.phase == e.phase && r.detail == e.detail,
            None => r.task_id@ == key@ && r.phase@ == SYNCING_PHASE@ && r.detail is None,
        },
{
    match entry {
        Some(e) => SyncProgress {
            task_id: e.task_id,
            phase: e.phase,
            detail: e.detail,
            items_done: Some(0),
            items_total: Some(items_total),
            bytes_done: Some(0),
            bytes_total: Some(bytes_total),
            finished: Some(false),
            finished_at_unix_ms: None,
        },
        None => SyncProgress {
            task_id: crate::text::to_owned_string(key),
            phase: crate::text::to_owned_string(SYNCING_PHASE),
            detail: None,
            items_done: Some(0),
            items_total: Some(items_total),
            bytes_done: Some(0),
            bytes_total: Some(bytes_total),
            finished: Some(false),
            finished_at_unix_ms: None,
        },
    }
}

/// `a + b`, or the largest value when that overflows.
pub open spec fn sat_add(a: u64, b: u64) -> u64 {
    if a + b > u64::MAX {
        u64::MAX
    } else {
        (a + b) as u64
    }
}

/// Progress after one more action finished, having moved `bytes` bytes.
pub fn progress_advance(entry: &mut SyncProgress, bytes: u64)
    ensures
        final(entry).items_done == Some(sat_add(match old(entry).items_done { Some(n) => n, None => 0 }, 1)),
        final(entry).bytes_done == Some(sat_add(match old(entry).bytes_done { Some(n) => n, None => 0 }, bytes)),
        final(entry).task_id == old(entry).task_id,
        final(entry).phase == old(entry).phase,
        final(entry).detail == old(entry).detail,
        final(entry).items_total == old(entry).items_total,
        final(entry).bytes_total == old(entry).bytes_total,
        final(entry).finished == old(entry).finished,
        final(entry).finished_at_unix_ms == old(entry).finished_at_unix_ms,
{
    let items = match entry.items_done {
        Some(n) => n,
        None => 0,
    };
    let done = match entry.bytes_done {
        Some(n) => n,
        None => 0,
    };
    entry.items_done = Some(items.saturating_add(1));
    entry.bytes_done = Some(done.saturating_add(bytes));
}

/// Progress once the run finished at `now`: counts jump to their totals.
pub fn progress_finish(entry: &mut SyncProgress, now: i64)
    ensures
        final(entry).phase@ == FINISHED_PHASE@,
        final(entry).detail is None,
        final(entry).finished == Some(true),
        final(entry).finished_at_unix_ms == Some(now),
        final(entry).items_done == (if old(entry).items_total is Some { old(entry).items_total } else { old(entry).items_done }),
        final(entry).bytes_done == (if old(entry).bytes_total is Some { old(entry).bytes_total } else { old(entry).bytes_done }),
        final(entry).task_id == old(entry).task_id,
        final(entry).items_total == old(entry).items_total,
        final(entry).bytes_total == old(entry).bytes_total,
{
    entry.phase = crate::text::to_owned_string(FINISHED_PHASE);
    entry.detail = None;
    entry.finished = Some(true);
    entry.finished_at_unix_ms = Some(now);
    if let Some(total) = entry.items_total {
        entry.items_done = Some(total);
    }
    if let Some(total) = entry.bytes_total {
        entry.bytes_done = Some(total);
    }
}

/// Finished progress is shown for two seconds, then dropped.
pub open spec fn progress_visible_spec(p: SyncProgress, now: i64) -> bool {
    match p.finished_at_unix_ms {
        Some(t) => now - t <= 2000,
        None => true,
    }
}

/// Whether a progress entry is still shown at `now`.
pub fn progress_visible(entry: &SyncProgress, now: i64) -> (r: bool)
    ensures
        r == progress_visible_spec(*entry, now),
{
    match entry.finished_at_unix_ms {
        Some(t) => (now as i128) - (t as i128) <= 2000,
        None => true,
    }
}

/// How a task's peer is doing, as shown to the user.
#[derive(Debug, Clone)]
pub struct TaskPeerStatus {
    pub task_id: String,
    pub peer_device_id: String,
    pub address: Option<String>,
    pub connected: bool,
    pub last_seen_unix_ms: i64,
    pub error: Option<String>,
}

/// A deferred transfer, as shown to the user.
#[derive(Debug, Clone)]
pub struct DeferredTransfer {
    pub task_id: String,
    pub relative_path: String,
    pub direction: String,
    pub reason: String,
    pub created_unix_ms: i64,
}

/// A request to set up a task with a peer.
#[derive(Debug, Clone)]
pub struct CreateTaskRequest {
    pub name: String,
    pub local_path: String,
    pub remote_path: Option<String>,
    pub peer_device_id: String,
    pub local_role: String,
}

/// A request to invite a peer into a task.
#[derive(Debug, Clone)]
pub struct SendTaskInviteRequest {
    pub name: String,
    pub local_path: String,
    pub peer_device_id: String,
    pub local_role: String,
}

/// An invitation received from a peer, as shown to the user.
#[derive(Debug, Clone)]
pub struct IncomingTaskInviteInfo {
    pub invite_id: String,
    pub task_id: String,
    pub task_name: String,
    pub requester_device_id: String,
    pub requester_address: Option<String>,
    pub requester_path: Option<String>,
    pub proposed_role: String,
    pub status: String,
    pub local_path: Option<String>,
    pub error: Option<String>,
    pub created_unix_ms: i64,
}

/// History settings shown to the user.
#[derive(Debug, Clone, Copy, PartialEq, Eq, Structural)]
pub struct AppSettings {
    pub history_retention_days: i64,
    pub history_size_limit_mb: i64,
}

/// The history settings in force: thirty days, one gigabyte.
pub fn get_settings() -> (r: AppSettings)
    ensures
        r == (AppSettings { history_retention_days: 30, history_size_limit_mb: 1024 }),
{
    AppSettings { history_retention_days: 30, history_size_limit_mb: 1024 }
}

/// A network interface and its address.
#[derive(Debug, Clone)]
pub struct InterfaceInfo {
    pub name: String,
    pub ip: String,
}

/// The machine's addresses and the sync server's port.
#[derive(Debug, Clone)]
pub struct LocalNetworkInfo {
    pub interfaces: Vec<InterfaceInfo>,
    pub tcp_port: u16,
}

} // verus!
