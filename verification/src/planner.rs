//! The sync planner: compares the current scan with the last-synced baselines.
use vstd::prelude::*;
use crate::model::{
    opt_str_eq, opt_view, DeviceRole, EntryKind, FileSnapshot, HashStatus, SyncBaseline,
    SyncDecision,
};
use crate::text::{chars_of, pieces, split_chars, split_spec};

verus! {

/// A planned sync action.
#[derive(Debug, Clone)]
pub struct PlannedAction {
    pub relative_path: String,
    pub decision: SyncDecision,
    pub snapshot: Option<FileSnapshot>,
    pub baseline: Option<SyncBaseline>,
}

/// A snapshot that describes an existing, non-symlink entry.
pub open spec fn live(s: FileSnapshot) -> bool {
    !s.deleted && !s.is_symlink
}

/// The last baseline recorded for `path` (later entries win, as when indexing by path).
pub open spec fn last_baseline(bs: Seq<SyncBaseline>, path: Seq<char>) -> Option<SyncBaseline>
    decreases bs.len(),
{
    if bs.len() == 0 {
        None
    } else if bs.last().relative_path@ == path {
        Some(bs.last())
    } else {
        last_baseline(bs.drop_last(), path)
    }
}

/// Some live snapshot has this path.
pub open spec fn has_live_snapshot(ss: Seq<FileSnapshot>, path: Seq<char>) -> bool {
    exists|i: int| 0 <= i < ss.len() && live(ss[i]) && #[trigger] ss[i].relative_path@ == path
}

/// Whether a file changed since its baseline, seen from `role`'s side. Verified
/// hashes decide when both exist; otherwise size and modification time do.
pub open spec fn changed_since(snap: FileSnapshot, base: SyncBaseline, role: DeviceRole) -> bool {
    let (hash, status, size, mtime) = match role {
        DeviceRole::Primary => (
            base.primary_hash,
            base.primary_hash_status,
            base.primary_size,
            base.primary_modified_unix_ms,
        ),
        DeviceRole::Secondary => (
            base.secondary_hash,
            base.secondary_hash_status,
            base.secondary_size,
            base.secondary_modified_unix_ms,
        ),
    };
    if snap.hash_status == HashStatus::Verified && status == HashStatus::Verified
        && snap.blake3_hash is Some && hash is Some {
        opt_view(snap.blake3_hash) != opt_view(hash)
    } else {
        snap.size != size || snap.modified_unix_ms != mtime
    }
}

/// The decision for a local change: primaries push, secondaries queue a return.
pub open spec fn change_decision(role: DeviceRole) -> SyncDecision {
    match role {
        DeviceRole::Primary => SyncDecision::ApplyToSecondary,
        DeviceRole::Secondary => SyncDecision::MarkPendingReturn,
    }
}

/// The decision for a local delete: primaries delete the secondary copy into
/// history, secondaries queue a return.
pub open spec fn delete_decision(role: DeviceRole) -> SyncDecision {
    match role {
        DeviceRole::Primary => SyncDecision::MoveSecondaryToHistory,
        DeviceRole::Secondary => SyncDecision::MarkPendingReturn,
    }
}

/// The decision for one live snapshot.
pub open spec fn snapshot_decision(
    snap: FileSnapshot,
    bs: Seq<SyncBaseline>,
    role: DeviceRole,
) -> SyncDecision {
    match last_baseline(bs, snap.relative_path@) {
        Some(b) => if snap.kind == EntryKind::Directory {
            SyncDecision::Noop
        } else if changed_since(snap, b, role) {
            change_decision(role)
        } else {
            SyncDecision::Noop
        },
        None => change_decision(role),
    }
}

/// Actions for the snapshots, in scan order.
pub open spec fn snapshot_actions(
    ss: Seq<FileSnapshot>,
    bs: Seq<SyncBaseline>,
    role: DeviceRole,
) -> Seq<PlannedAction>
    decreases ss.len(),
{
    if ss.len() == 0 {
        Seq::empty()
    } else {
        let prev = snapshot_actions(ss.drop_last(), bs, role);
        let s = ss.last();
        if live(s) && snapshot_decision(s, bs, role) != SyncDecision::Noop {
            prev.push(
                PlannedAction {
                    relative_path: s.relative_path,
                    decision: snapshot_decision(s, bs, role),
                    snapshot: Some(s),
                    baseline: last_baseline(bs, s.relative_path@),
                },
            )
        } else {
            prev
        }
    }
}

/// Actions for baselines whose path no longer has a live snapshot, in baseline order.
pub open spec fn delete_actions(
    ss: Seq<FileSnapshot>,
    bs: Seq<SyncBaseline>,
    role: DeviceRole,
) -> Seq<PlannedAction>
    decreases bs.len(),
{
    if bs.len() == 0 {
        Seq::empty()
    } else {
        let prev = delete_actions(ss, bs.drop_last(), role);
        let b = bs.last();
        if !has_live_snapshot(ss, b.relative_path@) {
            prev.push(
                PlannedAction {
                    relative_path: b.relative_path,
                    decision: delete_decision(role),
                    snapshot: None,
                    baseline: Some(b),
                },
            )
        } else {
            prev
        }
    }
}

/// Number of non-empty pieces in a list of path pieces.
pub open spec fn count_nonempty(ps: Seq<Seq<char>>) -> nat
    decreases ps.len(),
{
    if ps.len() == 0 {
        0
    } else {
        count_nonempty(ps.drop_last()) + if ps.last().len() > 0 {
            1nat
        } else {
            0nat
        }
    }
}

/// Number of non-empty `/`-separated components of a relative path.
pub open spec fn path_depth_spec(path: Seq<char>) -> nat {
    count_nonempty(split_spec(path, '/', '/'))
}

pub open spec fn action_depth(a: PlannedAction) -> nat {
    path_depth_spec(a.relative_path@)
}

/// Index of the first action at or after `k` that is shallower than `d`.
pub open spec fn first_shallower(s: Seq<PlannedAction>, d: nat, k: int) -> int
    decreases s.len() - k,
{
    if k < 0 || k >= s.len() {
        s.len() as int
    } else if action_depth(s[k]) < d {
        k
    } else {
        first_shallower(s, d, k + 1)
    }
}

/// Stable sort by depth, deepest first: each action goes after every earlier
/// action at least as deep.
pub open spec fn sort_deepest_first(s: Seq<PlannedAction>) -> Seq<PlannedAction>
    decreases s.len(),
{
    if s.len() == 0 {
        s
    } else {
        let sorted = sort_deepest_first(s.drop_last());
        let x = s.last();
        sorted.insert(first_shallower(sorted, action_depth(x), 0), x)
    }
}

/// The whole plan: changes in scan order, then deletions (deepest first on a primary).
pub open spec fn plan_spec(
    ss: Seq<FileSnapshot>,
    bs: Seq<SyncBaseline>,
    role: DeviceRole,
) -> Seq<PlannedAction> {
    let dels = delete_actions(ss, bs, role);
    snapshot_actions(ss, bs, role) + match role {
        DeviceRole::Primary => sort_deepest_first(dels),
        DeviceRole::Secondary => dels,
    }
}

/// Number of non-empty `/`-separated components of a relative path.
pub fn path_depth(path: &str) -> (r: usize)
    ensures
        r == path_depth_spec(path@),
{
    let chars = chars_of(path);
    let parts = split_chars(&chars, '/', '/');
    let mut n: usize = 0;
    let mut i: usize = 0;
    while i < parts.len()
        invariant
            i <= parts.len(),
            pieces(parts@) == split_spec(path@, '/', '/'),
            n == count_nonempty(pieces(parts@).take(i as int)),
            n <= i,
        decreases parts.len() - i,
    {
        assert(pieces(parts@).take((i + 1) as int).drop_last() =~= pieces(parts@).take(i as int));
        if parts[i].len() > 0 {
            n = n + 1;
        }
        i = i + 1;
    }
    assert(pieces(parts@).take(parts.len() as int) =~= pieces(parts@));
    n
}

/// Check if a file has changed compared to its baseline.
///
/// Hash comparison is authoritative: if both hashes are verified and
/// available, they decide, even when the modification time differs. Otherwise
/// size and modification time are compared.
pub fn has_changed(snapshot: &FileSnapshot, baseline: &SyncBaseline, local_role: DeviceRole) -> (r:
    bool)
    ensures
        r == changed_since(*snapshot, *baseline, local_role),
{
    let (hash, status, size, mtime) = match local_role {
        DeviceRole::Primary => (
            &baseline.primary_hash,
            baseline.primary_hash_status,
            baseline.primary_size,
            baseline.primary_modified_unix_ms,
        ),
        DeviceRole::Secondary => (
            &baseline.secondary_hash,
            baseline.secondary_hash_status,
            baseline.secondary_size,
            baseline.secondary_modified_unix_ms,
        ),
    };
    if snapshot.hash_status == HashStatus::Verified && status == HashStatus::Verified
        && snapshot.blake3_hash.is_some() && hash.is_some() {
        return !opt_str_eq(&snapshot.blake3_hash, hash);
    }
    snapshot.size != size || snapshot.modified_unix_ms != mtime
}

pub proof fn lemma_last_baseline_step(bs: Seq<SyncBaseline>, path: Seq<char>, i: int)
    requires
        0 <= i < bs.len(),
        bs[i].relative_path@ != path,
    ensures
        last_baseline(bs.take(i + 1), path) == last_baseline(bs.take(i), path),
{
    assert(bs.take(i + 1).drop_last() =~= bs.take(i));
}

/// Index of the last baseline recorded for `path`.
pub fn find_last_baseline(bs: &[SyncBaseline], path: &str) -> (r: Option<usize>)
    ensures
        match r {
            Some(i) => i < bs@.len() && last_baseline(bs@, path@) == Some(bs@[i as int]),
            None => last_baseline(bs@, path@) is None,
        },
{
    let mut i = bs.len();
    assert(bs@.take(i as int) =~= bs@);
    while i > 0
        invariant
            i <= bs@.len(),
            last_baseline(bs@, path@) == last_baseline(bs@.take(i as int), path@),
        decreases i,
    {
        let j = i - 1;
        if crate::text::str_eq(bs[j].relative_path.as_str(), path) {
            assert(bs@.take(i as int).last() == bs@[j as int]);
            return Some(j);
        }
        proof {
            lemma_last_baseline_step(bs@, path@, j as int);
        }
        i = j;
    }
    None
}

/// Whether some live snapshot has `path`.
pub fn find_live_snapshot(ss: &[FileSnapshot], path: &str) -> (r: bool)
    ensures
        r == has_live_snapshot(ss@, path@),
{
    let mut i: usize = 0;
    while i < ss.len()
        invariant
            i <= ss@.len(),
            forall|k: int|
                0 <= k < i ==> !(live(ss@[k]) && #[trigger] ss@[k].relative_path@ == path@),
        decreases ss.len() - i,
    {
        let s = &ss[i];
        if !s.deleted && !s.is_symlink && crate::text::str_eq(s.relative_path.as_str(), path) {
            return true;
        }
        i = i + 1;
    }
    false
}

/// The decision for one live snapshot, given the baselines.
pub fn decide_snapshot(snap: &FileSnapshot, baselines: &[SyncBaseline], local_role: DeviceRole) -> (r: (
    SyncDecision,
    Option<SyncBaseline>,
))
    ensures
        r.0 == snapshot_decision(*snap, baselines@, local_role),
        r.1 == last_baseline(baselines@, snap.relative_path@),
{
    let change = match local_role {
        DeviceRole::Primary => SyncDecision::ApplyToSecondary,
        DeviceRole::Secondary => SyncDecision::MarkPendingReturn,
    };
    match find_last_baseline(baselines, snap.relative_path.as_str()) {
        Some(j) => {
            let b = &baselines[j];
            let d = if snap.kind == EntryKind::Directory {
                SyncDecision::Noop
            } else if has_changed(snap, b, local_role) {
                change
            } else {
                SyncDecision::Noop
            };
            (d, Some(b.duplicate()))
        },
        None => (change, None),
    }
}

/// Actions for all live snapshots whose decision is not `Noop`, in scan order.
pub fn plan_snapshot_actions(
    snaps: &[FileSnapshot],
    baselines: &[SyncBaseline],
    local_role: DeviceRole,
) -> (r: Vec<PlannedAction>)
    ensures
        r@ == snapshot_actions(snaps@, baselines@, local_role),
{
    let mut out: Vec<PlannedAction> = Vec::new();
    let mut i: usize = 0;
    while i < snaps.len()
        invariant
            i <= snaps@.len(),
            out@ == snapshot_actions(snaps@.take(i as int), baselines@, local_role),
        decreases snaps.len() - i,
    {
        let s = &snaps[i];
        assert(snaps@.take((i + 1) as int).drop_last() =~= snaps@.take(i as int));
        assert(snaps@.take((i + 1) as int).last() == snaps@[i as int]);
        if !s.deleted && !s.is_symlink {
            let (d, b) = decide_snapshot(s, baselines, local_role);
            if d != SyncDecision::Noop {
                out.push(
                    PlannedAction {
                        relative_path: s.relative_path.clone(),
                        decision: d,
                        snapshot: Some(s.duplicate()),
                        baseline: b,
                    },
                );
            }
        }
        i = i + 1;
    }
    assert(snaps@.take(snaps.len() as int) =~= snaps@);
    out
}

/// Delete actions for baselines without a live snapshot, in baseline order.
pub fn plan_delete_actions(
    snaps: &[FileSnapshot],
    baselines: &[SyncBaseline],
    local_role: DeviceRole,
) -> (r: Vec<PlannedAction>)
    ensures
        r@ == delete_actions(snaps@, baselines@, local_role),
{
    let del = match local_role {
        DeviceRole::Primary => SyncDecision::MoveSecondaryToHistory,
        DeviceRole::Secondary => SyncDecision::MarkPendingReturn,
    };
    let mut out: Vec<PlannedAction> = Vec::new();
    let mut i: usize = 0;
    while i < baselines.len()
        invariant
            i <= baselines@.len(),
            del == delete_decision(local_role),
            out@ == delete_actions(snaps@, baselines@.take(i as int), local_role),
        decreases baselines.len() - i,
    {
        let b = &baselines[i];
        assert(baselines@.take((i + 1) as int).drop_last() =~= baselines@.take(i as int));
        assert(baselines@.take((i + 1) as int).last() == baselines@[i as int]);
        if !find_live_snapshot(snaps, b.relative_path.as_str()) {
            out.push(
                PlannedAction {
                    relative_path: b.relative_path.clone(),
                    decision: del,
                    snapshot: None,
                    baseline: Some(b.duplicate()),
                },
            );
        }
        i = i + 1;
    }
    assert(baselines@.take(baselines.len() as int) =~= baselines@);
    out
}

/// Index of the first action at or after `k` shallower than `d`.
pub fn find_first_shallower(s: &Vec<PlannedAction>, depths: &Vec<usize>, d: usize) -> (r: usize)
    requires
        depths.len() == s.len(),
        forall|k: int| 0 <= k < s.len() ==> depths@[k] == action_depth(#[trigger] s@[k]),
    ensures
        r == first_shallower(s@, d as nat, 0),
{
    let mut k: usize = 0;
    while k < s.len()
        invariant
            k <= s.len(),
            depths.len() == s.len(),
            forall|j: int| 0 <= j < s.len() ==> depths@[j] == action_depth(#[trigger] s@[j]),
            first_shallower(s@, d as nat, 0) == first_shallower(s@, d as nat, k as int),
        decreases s.len() - k,
    {
        if depths[k] < d {
            return k;
        }
        k = k + 1;
    }
    k
}

/// Stable sort of actions by path depth, deepest first.
pub fn sort_deepest_first_exec(v: Vec<PlannedAction>) -> (r: Vec<PlannedAction>)
    ensures
        r@ == sort_deepest_first(v@),
{
    let mut out: Vec<PlannedAction> = Vec::new();
    let mut depths: Vec<usize> = Vec::new();
    let mut src = v;
    let ghost orig = src@;
    let mut rest: Vec<PlannedAction> = Vec::new();
    // Reverse so that popping yields the actions in their original order.
    while src.len() > 0
        invariant
            rest@ + src@.reverse() == orig.reverse(),
        decreases src.len(),
    {
        let ghost before = src@;
        let x = src.pop().unwrap();
        assert(before =~= src@.push(x));
        assert(before.reverse() =~= seq![x] + src@.reverse());
        rest.push(x);
    }
    assert(src@.reverse() =~= Seq::<PlannedAction>::empty());
    assert(rest@ =~= orig.reverse());
    let ghost n = orig.len();
    while rest.len() > 0
        invariant
            rest@.len() <= n,
            n == orig.len(),
            rest@ == orig.subrange(n - rest@.len(), n as int).reverse(),
            out@ == sort_deepest_first(orig.take(n - rest@.len())),
            depths.len() == out.len(),
            forall|k: int| 0 <= k < out.len() ==> depths@[k] == action_depth(#[trigger] out@[k]),
        decreases rest.len(),
    {
        let ghost m = n - rest@.len();
        let ghost before = rest@;
        let x = rest.pop().unwrap();
        assert(before =~= rest@.push(x));
        assert(x == orig[m]) by {
            assert(before.last() == orig.subrange(m, n as int).reverse().last());
        }
        assert(rest@ =~= orig.subrange(m + 1, n as int).reverse());
        assert(orig.take(m + 1).drop_last() =~= orig.take(m));
        let d = path_depth(x.relative_path.as_str());
        let p = find_first_shallower(&out, &depths, d);
        proof {
            assert(first_shallower(out@, action_depth(x), 0) <= out@.len()) by {
                lemma_first_shallower_bound(out@, action_depth(x), 0);
            }
        }
        let ghost out_before = out@;
        let ghost depths_before = depths@;
        out.insert(p, x);
        depths.insert(p, d);
        assert forall|k: int| 0 <= k < out.len() implies depths@[k] == action_depth(#[trigger] out@[k]) by {
            if k < p {
                assert(out@[k] == out_before[k]);
            } else if k == p {
            } else {
                assert(out@[k] == out_before[k - 1]);
                assert(depths@[k] == depths_before[k - 1]);
            }
        }
    }
    assert(orig.take(n as int) =~= orig);
    out
}

pub proof fn lemma_first_shallower_bound(s: Seq<PlannedAction>, d: nat, k: int)
    requires
        0 <= k,
    ensures
        k <= first_shallower(s, d, k) <= s.len() || (k > s.len() && first_shallower(s, d, k)
            == s.len()),
    decreases s.len() - k,
{
    if k < s.len() && action_depth(s[k]) >= d {
        lemma_first_shallower_bound(s, d, k + 1);
    }
}

/// Compare current snapshots with baselines to produce sync decisions.
///
/// For the primary role: new and changed files and new directories become
/// `ApplyToSecondary`, deleted entries `MoveSecondaryToHistory` (deepest
/// first). For the secondary role every local change becomes
/// `MarkPendingReturn`. Deleted and symlink snapshots never produce a change.
pub fn plan_sync(
    current_snapshots: &[FileSnapshot],
    baselines: &[SyncBaseline],
    local_role: DeviceRole,
) -> (r: Vec<PlannedAction>)
    ensures
        r@ == plan_spec(current_snapshots@, baselines@, local_role),
{
    let mut actions = plan_snapshot_actions(current_snapshots, baselines, local_role);
    let dels = plan_delete_actions(current_snapshots, baselines, local_role);
    let mut dels = match local_role {
        DeviceRole::Primary => sort_deepest_first_exec(dels),
        DeviceRole::Secondary => dels,
    };
    let ghost a = actions@;
    let ghost d = dels@;
    actions.append(&mut dels);
    assert(actions@ =~= a + d);
    actions
}

/// Actions are ordered by depth, deepest first.
pub open spec fn deepest_first(s: Seq<PlannedAction>) -> bool {
    forall|i: int, j: int| 0 <= i < j < s.len() ==> action_depth(s[i]) >= action_depth(s[j])
}

proof fn lemma_first_shallower_split(t: Seq<PlannedAction>, d: nat, k: int)
    requires
        0 <= k <= t.len(),
        deepest_first(t),
        forall|j: int| 0 <= j < k ==> action_depth(#[trigger] t[j]) >= d,
    ensures
        forall|j: int| 0 <= j < first_shallower(t, d, k) ==> action_depth(#[trigger] t[j]) >= d,
        forall|j: int| first_shallower(t, d, k) <= j < t.len() ==> action_depth(#[trigger] t[j]) < d,
        k <= first_shallower(t, d, k) <= t.len(),
    decreases t.len() - k,
{
    if k < t.len() && action_depth(t[k]) >= d {
        lemma_first_shallower_split(t, d, k + 1);
    }
}

/// Law: the planner's deletion order is deepest first, so a directory is only
/// moved to history after everything inside it.
pub proof fn law_sort_deepest_first_is_sorted(s: Seq<PlannedAction>)
    ensures
        deepest_first(sort_deepest_first(s)),
        sort_deepest_first(s).len() == s.len(),
    decreases s.len(),
{
    if s.len() > 0 {
        let t = sort_deepest_first(s.drop_last());
        law_sort_deepest_first_is_sorted(s.drop_last());
        let x = s.last();
        let d = action_depth(x);
        lemma_first_shallower_split(t, d, 0);
        let p = first_shallower(t, d, 0);
        let r = t.insert(p, x);
        assert forall|i: int, j: int| 0 <= i < j < r.len() implies action_depth(r[i]) >= action_depth(
            r[j],
        ) by {
            if j < p {
                assert(r[i] == t[i] && r[j] == t[j]);
            } else if j == p {
                assert(r[i] == t[i]);
            } else if i < p {
                assert(r[i] == t[i] && r[j] == t[j - 1]);
            } else if i == p {
                assert(r[j] == t[j - 1]);
            } else {
                assert(r[i] == t[i - 1] && r[j] == t[j - 1]);
            }
        }
    }
}

/// Law: sorting keeps exactly the same actions.
pub proof fn law_sort_deepest_first_permutes(s: Seq<PlannedAction>)
    ensures
        sort_deepest_first(s).to_multiset() == s.to_multiset(),
    decreases s.len(),
{
    broadcast use vstd::multiset::group_multiset_axioms, vstd::seq_lib::group_to_multiset_ensures;

    if s.len() > 0 {
        law_sort_deepest_first_permutes(s.drop_last());
        let t = sort_deepest_first(s.drop_last());
        let x = s.last();
        let p = first_shallower(t, action_depth(x), 0);
        lemma_first_shallower_bound(t, action_depth(x), 0);
        assert(t.insert(p, x) =~= t.take(p) + seq![x] + t.skip(p));
        assert(t =~= t.take(p) + t.skip(p));
        vstd::seq_lib::lemma_multiset_commutative(t.take(p) + seq![x], t.skip(p));
        vstd::seq_lib::lemma_multiset_commutative(t.take(p), seq![x]);
        vstd::seq_lib::lemma_multiset_commutative(t.take(p), t.skip(p));
        assert(s =~= s.drop_last().push(x));
    }
}

/// A change action: the role's change decision with the live snapshot it came from.
pub open spec fn change_action_shape(a: PlannedAction, role: DeviceRole) -> bool {
    &&& a.decision == change_decision(role)
    &&& a.snapshot matches Some(s)
    &&& live(s)
    &&& s.relative_path == a.relative_path
}

/// A delete action: the role's delete decision with the baseline of a path that has no live snapshot.
pub open spec fn delete_action_shape(a: PlannedAction, ss: Seq<FileSnapshot>, role: DeviceRole) -> bool {
    &&& a.decision == delete_decision(role)
    &&& a.snapshot is None
    &&& a.baseline matches Some(b)
    &&& b.relative_path == a.relative_path
    &&& !has_live_snapshot(ss, b.relative_path@)
}

proof fn lemma_snapshot_actions_shape(ss: Seq<FileSnapshot>, bs: Seq<SyncBaseline>, role: DeviceRole)
    ensures
        forall|k: int|
            0 <= k < snapshot_actions(ss, bs, role).len() ==> {
                change_action_shape(#[trigger] snapshot_actions(ss, bs, role)[k], role)
            },
    decreases ss.len(),
{
    if ss.len() > 0 {
        lemma_snapshot_actions_shape(ss.drop_last(), bs, role);
        let prev = snapshot_actions(ss.drop_last(), bs, role);
        let cur = snapshot_actions(ss, bs, role);
        assert forall|k: int| 0 <= k < cur.len() implies change_action_shape(#[trigger] cur[k], role) by {
            if k < prev.len() {
                assert(cur[k] == prev[k]);
            }
        }
    }
}

proof fn lemma_delete_actions_shape(ss: Seq<FileSnapshot>, bs: Seq<SyncBaseline>, role: DeviceRole)
    ensures
        forall|k: int|
            0 <= k < delete_actions(ss, bs, role).len() ==> {
                delete_action_shape(#[trigger] delete_actions(ss, bs, role)[k], ss, role)
            },
    decreases bs.len(),
{
    if bs.len() > 0 {
        lemma_delete_actions_shape(ss, bs.drop_last(), role);
        let prev = delete_actions(ss, bs.drop_last(), role);
        let cur = delete_actions(ss, bs, role);
        assert forall|k: int| 0 <= k < cur.len() implies delete_action_shape(#[trigger] cur[k], ss, role) by {
            if k < prev.len() {
                assert(cur[k] == prev[k]);
            }
        }
    }
}

/// Law: every planned action either carries a live snapshot and the role's
/// change decision, or carries a baseline whose path no longer exists and the
/// role's delete decision. Symlinks and deleted snapshots never become changes.
pub proof fn law_plan_action_shape(ss: Seq<FileSnapshot>, bs: Seq<SyncBaseline>, role: DeviceRole)
    ensures
        forall|k: int|
            0 <= k < plan_spec(ss, bs, role).len() ==> {
                let a = #[trigger] plan_spec(ss, bs, role)[k];
                change_action_shape(a, role) || delete_action_shape(a, ss, role)
            },
{
    broadcast use vstd::multiset::group_multiset_axioms, vstd::seq_lib::group_to_multiset_ensures;

    lemma_snapshot_actions_shape(ss, bs, role);
    lemma_delete_actions_shape(ss, bs, role);
    let sa = snapshot_actions(ss, bs, role);
    let da = delete_actions(ss, bs, role);
    let tail = match role {
        DeviceRole::Primary => sort_deepest_first(da),
        DeviceRole::Secondary => da,
    };
    law_sort_deepest_first_permutes(da);
    assert forall|k: int| 0 <= k < (sa + tail).len() implies {
        let a = #[trigger] (sa + tail)[k];
change_action_shape(a, role) || delete_action_shape(a, ss, role)
    } by {
        if k >= sa.len() {
            let a = tail[k - sa.len()];
            assert(tail.contains(a));
            assert(tail.to_multiset().count(a) > 0);
            assert(da.to_multiset().count(a) > 0);
            assert(da.contains(a));
        }
    }
}

proof fn lemma_snapshot_actions_include(
    ss: Seq<FileSnapshot>,
    bs: Seq<SyncBaseline>,
    role: DeviceRole,
    i: int,
)
    requires
        0 <= i < ss.len(),
        live(ss[i]),
        snapshot_decision(ss[i], bs, role) != SyncDecision::Noop,
    ensures
        snapshot_actions(ss, bs, role).contains(
            PlannedAction {
                relative_path: ss[i].relative_path,
                decision: snapshot_decision(ss[i], bs, role),
                snapshot: Some(ss[i]),
                baseline: last_baseline(bs, ss[i].relative_path@),
            },
        ),
    decreases ss.len(),
{
    let a = PlannedAction {
        relative_path: ss[i].relative_path,
        decision: snapshot_decision(ss[i], bs, role),
        snapshot: Some(ss[i]),
        baseline: last_baseline(bs, ss[i].relative_path@),
    };
    let prev = snapshot_actions(ss.drop_last(), bs, role);
    if i == ss.len() - 1 {
        assert(snapshot_actions(ss, bs, role) == prev.push(a));
        assert(prev.push(a)[prev.len() as int] == a);
    } else {
        lemma_snapshot_actions_include(ss.drop_last(), bs, role, i);
        let k = choose|k: int| 0 <= k < prev.len() && prev[k] == a;
        let cur = snapshot_actions(ss, bs, role);
        assert(cur[k] == a);
    }
}

/// Law: a live entry that has no baseline (a new path) is always planned
/// with the role's change decision.
pub proof fn law_new_path_is_planned(
    ss: Seq<FileSnapshot>,
    bs: Seq<SyncBaseline>,
    role: DeviceRole,
    i: int,
)
    requires
        0 <= i < ss.len(),
        live(ss[i]),
        last_baseline(bs, ss[i].relative_path@) is None,
    ensures
        plan_spec(ss, bs, role).contains(
            PlannedAction {
                relative_path: ss[i].relative_path,
                decision: change_decision(role),
                snapshot: Some(ss[i]),
                baseline: None,
            },
        ),
{
    lemma_snapshot_actions_include(ss, bs, role, i);
    let sa = snapshot_actions(ss, bs, role);
    let a = PlannedAction {
        relative_path: ss[i].relative_path,
        decision: change_decision(role),
        snapshot: Some(ss[i]),
        baseline: None,
    };
    let k = choose|k: int| 0 <= k < sa.len() && sa[k] == a;
    let tail = match role {
        DeviceRole::Primary => sort_deepest_first(delete_actions(ss, bs, role)),
        DeviceRole::Secondary => delete_actions(ss, bs, role),
    };
    assert((sa + tail)[k] == a);
}

proof fn lemma_delete_actions_include(
    ss: Seq<FileSnapshot>,
    bs: Seq<SyncBaseline>,
    role: DeviceRole,
    j: int,
)
    requires
        0 <= j < bs.len(),
        !has_live_snapshot(ss, bs[j].relative_path@),
    ensures
        delete_actions(ss, bs, role).contains(
            PlannedAction {
                relative_path: bs[j].relative_path,
                decision: delete_decision(role),
                snapshot: None,
                baseline: Some(bs[j]),
            },
        ),
    decreases bs.len(),
{
    let a = PlannedAction {
        relative_path: bs[j].relative_path,
        decision: delete_decision(role),
        snapshot: None,
        baseline: Some(bs[j]),
    };
    let prev = delete_actions(ss, bs.drop_last(), role);
    if j == bs.len() - 1 {
        assert(delete_actions(ss, bs, role) == prev.push(a));
        assert(prev.push(a)[prev.len() as int] == a);
    } else {
        lemma_delete_actions_include(ss, bs.drop_last(), role, j);
        let k = choose|k: int| 0 <= k < prev.len() && prev[k] == a;
        assert(delete_actions(ss, bs, role)[k] == a);
    }
}

/// Law: a baseline whose path no longer has a live snapshot is always
/// planned as a deletion (history move on a primary, pending return on a secondary).
pub proof fn law_vanished_path_is_planned(
    ss: Seq<FileSnapshot>,
    bs: Seq<SyncBaseline>,
    role: DeviceRole,
    j: int,
)
    requires
        0 <= j < bs.len(),
        !has_live_snapshot(ss, bs[j].relative_path@),
    ensures
        plan_spec(ss, bs, role).contains(
            PlannedAction {
                relative_path: bs[j].relative_path,
                decision: delete_decision(role),
                snapshot: None,
                baseline: Some(bs[j]),
            },
        ),
{
    broadcast use vstd::multiset::group_multiset_axioms, vstd::seq_lib::group_to_multiset_ensures;

    lemma_delete_actions_include(ss, bs, role, j);
    let da = delete_actions(ss, bs, role);
    let a = PlannedAction {
        relative_path: bs[j].relative_path,
        decision: delete_decision(role),
        snapshot: None,
        baseline: Some(bs[j]),
    };
    let sa = snapshot_actions(ss, bs, role);
    let tail = match role {
        DeviceRole::Primary => sort_deepest_first(da),
        DeviceRole::Secondary => da,
    };
    law_sort_deepest_first_permutes(da);
    assert(da.to_multiset().count(a) > 0);
    assert(tail.to_multiset().count(a) > 0);
    assert(tail.contains(a));
    let k = choose|k: int| 0 <= k < tail.len() && tail[k] == a;
    assert((sa + tail)[sa.len() + k] == a);
}

/// A live entry has a baseline and (unless it is a directory) has not
/// changed since it, seen from `role`'s side.
pub open spec fn matches_baseline(s: FileSnapshot, bs: Seq<SyncBaseline>, role: DeviceRole) -> bool {
    match last_baseline(bs, s.relative_path@) {
        Some(b) => s.kind == EntryKind::Directory || !changed_since(s, b, role),
        None => false,
    }
}

/// Law: when every live entry still matches its baseline (or is a
/// directory with one) and every baseline still has its live entry, the
/// plan is empty: a folder in sync is left alone.
pub proof fn law_in_sync_plans_nothing(ss: Seq<FileSnapshot>, bs: Seq<SyncBaseline>, role: DeviceRole)
    requires
        forall|i: int| 0 <= i < ss.len() && live(#[trigger] ss[i]) ==>
            matches_baseline(ss[i], bs, role),
        forall|j: int| 0 <= j < bs.len() ==> has_live_snapshot(ss, #[trigger] bs[j].relative_path@),
    ensures
        plan_spec(ss, bs, role).len() == 0,
{
    lemma_no_snapshot_actions(ss, bs, role);
    lemma_no_delete_actions(ss, bs, role);
    law_sort_deepest_first_is_sorted(delete_actions(ss, bs, role));
}

proof fn lemma_no_snapshot_actions(ss: Seq<FileSnapshot>, bs: Seq<SyncBaseline>, role: DeviceRole)
    requires
        forall|i: int| 0 <= i < ss.len() && live(#[trigger] ss[i]) ==>
            matches_baseline(ss[i], bs, role),
    ensures
        snapshot_actions(ss, bs, role).len() == 0,
    decreases ss.len(),
{
    if ss.len() > 0 {
        assert forall|i: int| 0 <= i < ss.drop_last().len() && live(#[trigger] ss.drop_last()[i]) implies
            matches_baseline(ss.drop_last()[i], bs, role) by {
            assert(ss.drop_last()[i] == ss[i]);
        }
        lemma_no_snapshot_actions(ss.drop_last(), bs, role);
        let last = ss[ss.len() - 1];
        assert(ss.last() == last);
    }
}

proof fn lemma_no_delete_actions(ss: Seq<FileSnapshot>, bs: Seq<SyncBaseline>, role: DeviceRole)
    requires
        forall|j: int| 0 <= j < bs.len() ==> has_live_snapshot(ss, #[trigger] bs[j].relative_path@),
    ensures
        delete_actions(ss, bs, role).len() == 0,
    decreases bs.len(),
{
    if bs.len() > 0 {
        assert forall|j: int| 0 <= j < bs.drop_last().len() implies has_live_snapshot(ss, #[trigger] bs.drop_last()[j].relative_path@) by {
            assert(bs.drop_last()[j] == bs[j]);
        }
        lemma_no_delete_actions(ss, bs.drop_last(), role);
        assert(has_live_snapshot(ss, bs[bs.len() - 1].relative_path@));
    }
}

/// Law: a secondary's changes never reach the primary by themselves: every
/// action a secondary plans only queues a return for the user to confirm.
/// A primary plans only copies to the secondary and moves into its
/// history, never a plain deletion.
pub proof fn law_plan_decisions_by_role(ss: Seq<FileSnapshot>, bs: Seq<SyncBaseline>, role: DeviceRole)
    ensures
        role == DeviceRole::Secondary ==> forall|k: int| 0 <= k < plan_spec(ss, bs, role).len() ==>
            (#[trigger] plan_spec(ss, bs, role)[k]).decision == SyncDecision::MarkPendingReturn,
        role == DeviceRole::Primary ==> forall|k: int| 0 <= k < plan_spec(ss, bs, role).len() ==> {
            let d = (#[trigger] plan_spec(ss, bs, role)[k]).decision;
            d == SyncDecision::ApplyToSecondary || d == SyncDecision::MoveSecondaryToHistory
        },
{
    law_plan_action_shape(ss, bs, role);
}

proof fn lemma_dead_snapshot_changes_no_delete(ss: Seq<FileSnapshot>, s: FileSnapshot, bs: Seq<SyncBaseline>, role: DeviceRole)
    requires
        !live(s),
    ensures
        delete_actions(ss.push(s), bs, role) == delete_actions(ss, bs, role),
    decreases bs.len(),
{
    if bs.len() > 0 {
        lemma_dead_snapshot_changes_no_delete(ss, s, bs.drop_last(), role);
        let p = bs.last().relative_path@;
        let t = ss.push(s);
        if has_live_snapshot(t, p) {
            let i = choose|i: int| 0 <= i < t.len() && live(t[i]) && #[trigger] t[i].relative_path@ == p;
            assert(i < ss.len());
            assert(ss[i] == t[i]);
        }
        if has_live_snapshot(ss, p) {
            let i = choose|i: int| 0 <= i < ss.len() && live(ss[i]) && #[trigger] ss[i].relative_path@ == p;
            assert(t[i] == ss[i]);
        }
    }
}

/// Law: symbolic links are not synced. A scanned entry that is a symbolic
/// link (or is marked deleted) adds nothing to the plan: the plan with it is
/// the plan without it.
pub proof fn law_symlinks_are_not_synced(ss: Seq<FileSnapshot>, s: FileSnapshot, bs: Seq<SyncBaseline>, role: DeviceRole)
    requires
        s.is_symlink || s.deleted,
    ensures
        plan_spec(ss.push(s), bs, role) == plan_spec(ss, bs, role),
{
    assert(ss.push(s).drop_last() =~= ss);
    assert(snapshot_actions(ss.push(s), bs, role) == snapshot_actions(ss, bs, role));
    lemma_dead_snapshot_changes_no_delete(ss, s, bs, role);
}

/// The action a live snapshot is planned as.
pub open spec fn snapshot_action(s: FileSnapshot, bs: Seq<SyncBaseline>, role: DeviceRole) -> PlannedAction {
    PlannedAction {
        relative_path: s.relative_path,
        decision: snapshot_decision(s, bs, role),
        snapshot: Some(s),
        baseline: last_baseline(bs, s.relative_path@),
    }
}

/// The action a vanished baseline is planned as.
pub open spec fn delete_action(b: SyncBaseline, role: DeviceRole) -> PlannedAction {
    PlannedAction { relative_path: b.relative_path, decision: delete_decision(role), snapshot: None, baseline: Some(b) }
}

proof fn lemma_snapshot_actions_from(ss: Seq<FileSnapshot>, bs: Seq<SyncBaseline>, role: DeviceRole)
    ensures
        forall|k: int| 0 <= k < snapshot_actions(ss, bs, role).len() ==> exists|i: int|
            0 <= i < ss.len() && live(ss[i]) && snapshot_decision(ss[i], bs, role) != SyncDecision::Noop
                && #[trigger] snapshot_actions(ss, bs, role)[k] == snapshot_action(ss[i], bs, role),
    decreases ss.len(),
{
    if ss.len() > 0 {
        lemma_snapshot_actions_from(ss.drop_last(), bs, role);
        let prev = snapshot_actions(ss.drop_last(), bs, role);
        let cur = snapshot_actions(ss, bs, role);
        assert forall|k: int| 0 <= k < cur.len() implies exists|i: int|
            0 <= i < ss.len() && live(ss[i]) && snapshot_decision(ss[i], bs, role) != SyncDecision::Noop
                && #[trigger] cur[k] == snapshot_action(ss[i], bs, role) by {
            if k < prev.len() {
                assert(cur[k] == prev[k]);
                let i = choose|i: int| 0 <= i < ss.drop_last().len() && live(ss.drop_last()[i])
                    && snapshot_decision(ss.drop_last()[i], bs, role) != SyncDecision::Noop
                    && #[trigger] prev[k] == snapshot_action(ss.drop_last()[i], bs, role);
                assert(ss.drop_last()[i] == ss[i]);
            } else {
                assert(cur[k] == snapshot_action(ss[ss.len() - 1], bs, role));
            }
        }
    }
}

proof fn lemma_delete_actions_from(ss: Seq<FileSnapshot>, bs: Seq<SyncBaseline>, role: DeviceRole)
    ensures
        forall|k: int| 0 <= k < delete_actions(ss, bs, role).len() ==> exists|m: int|
            0 <= m < bs.len() && !has_live_snapshot(ss, bs[m].relative_path@)
                && #[trigger] delete_actions(ss, bs, role)[k] == delete_action(bs[m], role),
    decreases bs.len(),
{
    if bs.len() > 0 {
        lemma_delete_actions_from(ss, bs.drop_last(), role);
        let prev = delete_actions(ss, bs.drop_last(), role);
        let cur = delete_actions(ss, bs, role);
        assert forall|k: int| 0 <= k < cur.len() implies exists|m: int|
            0 <= m < bs.len() && !has_live_snapshot(ss, bs[m].relative_path@)
                && #[trigger] cur[k] == delete_action(bs[m], role) by {
            if k < prev.len() {
                assert(cur[k] == prev[k]);
                let m = choose|m: int| 0 <= m < bs.drop_last().len() && !has_live_snapshot(ss, bs.drop_last()[m].relative_path@)
                    && #[trigger] prev[k] == delete_action(bs.drop_last()[m], role);
                assert(bs.drop_last()[m] == bs[m]);
            } else {
                assert(cur[k] == delete_action(bs[bs.len() - 1], role));
            }
        }
    }
}

/// Baselines name each path once.
pub open spec fn baseline_paths_distinct(bs: Seq<SyncBaseline>) -> bool {
    forall|a: int, b: int| 0 <= a < bs.len() && 0 <= b < bs.len() && a != b ==>
        (#[trigger] bs[a]).relative_path@ != (#[trigger] bs[b]).relative_path@
}

/// Live snapshots name each path once.
pub open spec fn live_paths_distinct(ss: Seq<FileSnapshot>) -> bool {
    forall|a: int, b: int| 0 <= a < ss.len() && 0 <= b < ss.len() && a != b && live(#[trigger] ss[a]) && live(#[trigger] ss[b]) ==>
        ss[a].relative_path@ != ss[b].relative_path@
}

proof fn lemma_delete_action_count(ss: Seq<FileSnapshot>, bs: Seq<SyncBaseline>, role: DeviceRole, j: int)
    requires
        0 <= j < bs.len(),
        !has_live_snapshot(ss, bs[j].relative_path@),
        baseline_paths_distinct(bs),
    ensures
        delete_actions(ss, bs, role).to_multiset().count(delete_action(bs[j], role)) == 1,
    decreases bs.len(),
{
    broadcast use vstd::multiset::group_multiset_axioms, vstd::seq_lib::group_to_multiset_ensures;

    let a = delete_action(bs[j], role);
    let n = bs.len() - 1;
    let prevb = bs.drop_last();
    let prev = delete_actions(ss, prevb, role);
    assert(baseline_paths_distinct(prevb)) by {
        assert forall|x: int, y: int| 0 <= x < prevb.len() && 0 <= y < prevb.len() && x != y implies
            (#[trigger] prevb[x]).relative_path@ != (#[trigger] prevb[y]).relative_path@ by {
            assert(prevb[x] == bs[x] && prevb[y] == bs[y]);
        }
    }
    if j == n {
        lemma_delete_actions_from(ss, prevb, role);
        if prev.to_multiset().count(a) > 0 {
            assert(prev.contains(a));
            let k = choose|k: int| 0 <= k < prev.len() && prev[k] == a;
            let m = choose|m: int| 0 <= m < prevb.len() && !has_live_snapshot(ss, prevb[m].relative_path@)
                && #[trigger] prev[k] == delete_action(prevb[m], role);
            assert(prevb[m] == bs[m]);
            assert(bs[m].relative_path@ == bs[n].relative_path@);
        }
        assert(delete_actions(ss, bs, role) == prev.push(a));
    } else {
        assert(prevb[j] == bs[j]);
        lemma_delete_action_count(ss, prevb, role, j);
        if !has_live_snapshot(ss, bs[n].relative_path@) {
            assert(delete_actions(ss, bs, role) == prev.push(delete_action(bs[n], role)));
            assert(bs[n].relative_path@ != bs[j].relative_path@);
            assert(delete_action(bs[n], role) != a);
        }
    }
}

/// Law: with each path named by one baseline, a path whose live entry has
/// gone is planned for deletion exactly once: its delete action occurs once,
/// and it is the only action for that path that carries no snapshot.
pub proof fn law_vanished_path_is_planned_once(
    ss: Seq<FileSnapshot>,
    bs: Seq<SyncBaseline>,
    role: DeviceRole,
    j: int,
)
    requires
        0 <= j < bs.len(),
        !has_live_snapshot(ss, bs[j].relative_path@),
        baseline_paths_distinct(bs),
    ensures
        plan_spec(ss, bs, role).to_multiset().count(delete_action(bs[j], role)) == 1,
        forall|k: int| 0 <= k < plan_spec(ss, bs, role).len()
            && (#[trigger] plan_spec(ss, bs, role)[k]).relative_path@ == bs[j].relative_path@
            && plan_spec(ss, bs, role)[k].snapshot is None ==> plan_spec(ss, bs, role)[k] == delete_action(bs[j], role),
{
    broadcast use vstd::multiset::group_multiset_axioms, vstd::seq_lib::group_to_multiset_ensures;

    let a = delete_action(bs[j], role);
    let sa = snapshot_actions(ss, bs, role);
    let da = delete_actions(ss, bs, role);
    let tail = match role {
        DeviceRole::Primary => sort_deepest_first(da),
        DeviceRole::Secondary => da,
    };
    law_sort_deepest_first_permutes(da);
    lemma_snapshot_actions_shape(ss, bs, role);
    lemma_delete_actions_from(ss, bs, role);
    lemma_delete_action_count(ss, bs, role, j);
    assert(tail.to_multiset() == da.to_multiset());
    if sa.to_multiset().count(a) > 0 {
        assert(sa.contains(a));
        let k = choose|k: int| 0 <= k < sa.len() && sa[k] == a;
        assert(change_action_shape(sa[k], role));
    }
    vstd::seq_lib::lemma_multiset_commutative(sa, tail);
    assert(plan_spec(ss, bs, role) == sa + tail);
    assert forall|k: int| 0 <= k < (sa + tail).len()
        && (#[trigger] (sa + tail)[k]).relative_path@ == bs[j].relative_path@
        && (sa + tail)[k].snapshot is None implies (sa + tail)[k] == a by {
        if k < sa.len() {
            assert(change_action_shape(sa[k], role));
        } else {
            let x = tail[k - sa.len()];
            assert(tail.contains(x));
            assert(da.to_multiset().count(x) > 0);
            assert(da.contains(x));
            let i = choose|i: int| 0 <= i < da.len() && da[i] == x;
            let m = choose|m: int| 0 <= m < bs.len() && !has_live_snapshot(ss, bs[m].relative_path@)
                && #[trigger] da[i] == delete_action(bs[m], role);
            if m != j {
                assert(bs[m].relative_path@ != bs[j].relative_path@);
            }
        }
    }
}

/// Law: with each live path named once, a live directory that has a
/// baseline is left alone however its size, time or hash look: no action
/// of the plan is for its path.
pub proof fn law_synced_directory_plans_nothing(ss: Seq<FileSnapshot>, bs: Seq<SyncBaseline>, role: DeviceRole, i: int)
    requires
        0 <= i < ss.len(),
        live(ss[i]),
        ss[i].kind == EntryKind::Directory,
        last_baseline(bs, ss[i].relative_path@) is Some,
        live_paths_distinct(ss),
    ensures
        forall|k: int| 0 <= k < plan_spec(ss, bs, role).len() ==>
            (#[trigger] plan_spec(ss, bs, role)[k]).relative_path@ != ss[i].relative_path@,
{
    broadcast use vstd::multiset::group_multiset_axioms, vstd::seq_lib::group_to_multiset_ensures;

    let p = ss[i].relative_path@;
    let sa = snapshot_actions(ss, bs, role);
    let da = delete_actions(ss, bs, role);
    let tail = match role {
        DeviceRole::Primary => sort_deepest_first(da),
        DeviceRole::Secondary => da,
    };
    law_sort_deepest_first_permutes(da);
    lemma_snapshot_actions_from(ss, bs, role);
    lemma_delete_actions_shape(ss, bs, role);
    assert(has_live_snapshot(ss, p)) by {
        assert(live(ss[i]) && ss[i].relative_path@ == p);
    }
    assert(plan_spec(ss, bs, role) == sa + tail);
    assert forall|k: int| 0 <= k < (sa + tail).len() implies (#[trigger] (sa + tail)[k]).relative_path@ != p by {
        if k < sa.len() {
            let i2 = choose|i2: int| 0 <= i2 < ss.len() && live(ss[i2]) && snapshot_decision(ss[i2], bs, role) != SyncDecision::Noop
                && #[trigger] sa[k] == snapshot_action(ss[i2], bs, role);
            if ss[i2].relative_path@ == p && i2 != i {
                assert(ss[i2].relative_path@ != ss[i].relative_path@);
            }
        } else {
            let x = tail[k - sa.len()];
            assert(tail.contains(x));
            assert(da.to_multiset().count(x) > 0);
            assert(da.contains(x));
            let q = choose|q: int| 0 <= q < da.len() && da[q] == x;
            assert(delete_action_shape(da[q], ss, role));
        }
    }
}

/// Law: a plan holds only work to do: no action's decision is `Noop`.
pub proof fn law_plan_has_no_noop(ss: Seq<FileSnapshot>, bs: Seq<SyncBaseline>, role: DeviceRole)
    ensures
        forall|k: int| 0 <= k < plan_spec(ss, bs, role).len() ==>
            (#[trigger] plan_spec(ss, bs, role)[k]).decision != SyncDecision::Noop,
{
    law_plan_action_shape(ss, bs, role);
}

/// Law: content hashes are authoritative for either role. When the scan and
/// the role's side of the baseline both carry a verified hash and the two
/// hashes are equal, the file has not changed, whatever its size or time say;
/// a plan over that one file and its baseline is empty.
pub proof fn law_equal_verified_hashes_mean_unchanged(snap: FileSnapshot, base: SyncBaseline, role: DeviceRole)
    requires
        snap.hash_status == HashStatus::Verified,
        snap.blake3_hash is Some,
        role == DeviceRole::Primary ==> base.primary_hash_status == HashStatus::Verified
            && base.primary_hash is Some && opt_view(base.primary_hash) == opt_view(snap.blake3_hash),
        role == DeviceRole::Secondary ==> base.secondary_hash_status == HashStatus::Verified
            && base.secondary_hash is Some && opt_view(base.secondary_hash) == opt_view(snap.blake3_hash),
    ensures
        !changed_since(snap, base, role),
        live(snap) && base.relative_path@ == snap.relative_path@ ==> plan_spec(seq![snap], seq![base], role).len() == 0,
{
    if live(snap) && base.relative_path@ == snap.relative_path@ {
        let ss = seq![snap];
        let bs = seq![base];
        assert(bs.drop_last() =~= Seq::<SyncBaseline>::empty());
        assert(last_baseline(bs, snap.relative_path@) == Some(base));
        assert(matches_baseline(ss[0], bs, role));
        assert(has_live_snapshot(ss, bs[0].relative_path@)) by {
            assert(live(ss[0]) && ss[0].relative_path@ == bs[0].relative_path@);
        }
        law_in_sync_plans_nothing(ss, bs, role);
    }
}

} // verus!
