//! Lookups by relative path in lists of records, where a later record for a
//! path shadows an earlier one (as when a list is collected into a map).
use vstd::prelude::*;
use crate::model::{FileSnapshot, PendingReturnChange, RemoteFileState, SyncBaseline};
use crate::text::str_eq;

verus! {

/// Position of the last element whose key is `path`, or -1.
pub open spec fn last_index_by<T>(s: Seq<T>, key: spec_fn(T) -> Seq<char>, path: Seq<char>) -> int
    decreases s.len(),
{
    if s.len() == 0 {
        -1
    } else if key(s.last()) == path {
        s.len() - 1
    } else {
        last_index_by(s.drop_last(), key, path)
    }
}

pub proof fn lemma_last_index_bounds<T>(s: Seq<T>, key: spec_fn(T) -> Seq<char>, path: Seq<char>)
    ensures
        -1 <= last_index_by(s, key, path) < s.len(),
        last_index_by(s, key, path) >= 0 ==> key(s[last_index_by(s, key, path)]) == path,
        last_index_by(s, key, path) < 0 ==> forall|j: int| 0 <= j < s.len() ==> key(#[trigger] s[j]) != path,
        forall|j: int| last_index_by(s, key, path) < j < s.len() ==> key(#[trigger] s[j]) != path,
    decreases s.len(),
{
    if s.len() > 0 {
        lemma_last_index_bounds(s.drop_last(), key, path);
        if key(s.last()) != path {
            assert forall|j: int| last_index_by(s, key, path) < j < s.len() implies key(#[trigger] s[j]) != path by {
                if j < s.len() - 1 {
                    assert(s[j] == s.drop_last()[j]);
                }
            }
        }
    }
}

pub proof fn lemma_last_index_step<T>(s: Seq<T>, key: spec_fn(T) -> Seq<char>, path: Seq<char>, k: int)
    requires
        0 <= k < s.len(),
    ensures
        last_index_by(s.take(k + 1), key, path) == if key(s[k]) == path {
            k
        } else {
            last_index_by(s.take(k), key, path)
        },
{
    assert(s.take(k + 1).drop_last() =~= s.take(k));
}

/// Whether some element's key is `path`.
pub open spec fn has_key<T>(s: Seq<T>, key: spec_fn(T) -> Seq<char>, path: Seq<char>) -> bool {
    last_index_by(s, key, path) >= 0
}

pub open spec fn remote_key() -> spec_fn(RemoteFileState) -> Seq<char> {
    |r: RemoteFileState| r.relative_path@
}

pub open spec fn snapshot_key() -> spec_fn(FileSnapshot) -> Seq<char> {
    |s: FileSnapshot| s.relative_path@
}

pub open spec fn baseline_key() -> spec_fn(SyncBaseline) -> Seq<char> {
    |b: SyncBaseline| b.relative_path@
}

pub open spec fn pending_key() -> spec_fn(PendingReturnChange) -> Seq<char> {
    |p: PendingReturnChange| p.relative_path@
}

/// The record a path maps to, when the list is read as a map by path.
pub open spec fn entry_for<T>(s: Seq<T>, key: spec_fn(T) -> Seq<char>, path: Seq<char>) -> Option<T> {
    if has_key(s, key, path) {
        Some(s[last_index_by(s, key, path)])
    } else {
        None
    }
}

/// Position of the remote entry for `path`.
pub fn find_remote(rs: &[RemoteFileState], path: &str) -> (r: Option<usize>)
    ensures
        match r {
            Some(i) => i as int == last_index_by(rs@, remote_key(), path@) && i < rs@.len(),
            None => !has_key(rs@, remote_key(), path@),
        },
{
    let mut found: Option<usize> = None;
    let mut k: usize = 0;
    while k < rs.len()
        invariant
            k <= rs@.len(),
            match found {
                Some(i) => i as int == last_index_by(rs@.take(k as int), remote_key(), path@) && i < k,
                None => last_index_by(rs@.take(k as int), remote_key(), path@) == -1,
            },
        decreases rs.len() - k,
    {
        proof {
            lemma_last_index_step(rs@, remote_key(), path@, k as int);
        }
        if str_eq(rs[k].relative_path.as_str(), path) {
            found = Some(k);
        }
        k = k + 1;
    }
    assert(rs@.take(rs@.len() as int) =~= rs@);
    found
}

/// Position of the snapshot for `path`.
pub fn find_snapshot(ss: &[FileSnapshot], path: &str) -> (r: Option<usize>)
    ensures
        match r {
            Some(i) => i as int == last_index_by(ss@, snapshot_key(), path@) && i < ss@.len(),
            None => !has_key(ss@, snapshot_key(), path@),
        },
{
    let mut found: Option<usize> = None;
    let mut k: usize = 0;
    while k < ss.len()
        invariant
            k <= ss@.len(),
            match found {
                Some(i) => i as int == last_index_by(ss@.take(k as int), snapshot_key(), path@) && i < k,
                None => last_index_by(ss@.take(k as int), snapshot_key(), path@) == -1,
            },
        decreases ss.len() - k,
    {
        proof {
            lemma_last_index_step(ss@, snapshot_key(), path@, k as int);
        }
        if str_eq(ss[k].relative_path.as_str(), path) {
            found = Some(k);
        }
        k = k + 1;
    }
    assert(ss@.take(ss@.len() as int) =~= ss@);
    found
}

/// Position of the baseline for `path`.
pub fn find_baseline(bs: &[SyncBaseline], path: &str) -> (r: Option<usize>)
    ensures
        match r {
            Some(i) => i as int == last_index_by(bs@, baseline_key(), path@) && i < bs@.len(),
            None => !has_key(bs@, baseline_key(), path@),
        },
{
    let mut found: Option<usize> = None;
    let mut k: usize = 0;
    while k < bs.len()
        invariant
            k <= bs@.len(),
            match found {
                Some(i) => i as int == last_index_by(bs@.take(k as int), baseline_key(), path@) && i < k,
                None => last_index_by(bs@.take(k as int), baseline_key(), path@) == -1,
            },
        decreases bs.len() - k,
    {
        proof {
            lemma_last_index_step(bs@, baseline_key(), path@, k as int);
        }
        if str_eq(bs[k].relative_path.as_str(), path) {
            found = Some(k);
        }
        k = k + 1;
    }
    assert(bs@.take(bs@.len() as int) =~= bs@);
    found
}

/// Position of the pending change for `path`.
pub fn find_pending(ps: &[PendingReturnChange], path: &str) -> (r: Option<usize>)
    ensures
        match r {
            Some(i) => i as int == last_index_by(ps@, pending_key(), path@) && i < ps@.len(),
            None => !has_key(ps@, pending_key(), path@),
        },
{
    let mut found: Option<usize> = None;
    let mut k: usize = 0;
    while k < ps.len()
        invariant
            k <= ps@.len(),
            match found {
                Some(i) => i as int == last_index_by(ps@.take(k as int), pending_key(), path@) && i < k,
                None => last_index_by(ps@.take(k as int), pending_key(), path@) == -1,
            },
        decreases ps.len() - k,
    {
        proof {
            lemma_last_index_step(ps@, pending_key(), path@, k as int);
        }
        if str_eq(ps[k].relative_path.as_str(), path) {
            found = Some(k);
        }
        k = k + 1;
    }
    assert(ps@.take(ps@.len() as int) =~= ps@);
    found
}

} // verus!
