//! Task roots and the directories that a write beneath one must keep unchanged.
use vstd::prelude::*;
use crate::path_rules::{join_pieces, normal_piece, path_push, push_component, rel_pieces, relative_path_ok, safe_join};
use crate::text::{chars_of, pieces, split_chars, split_spec};

verus! {

/// The pieces of a split path that name an entry, in order.
pub open spec fn named_pieces(ps: Seq<Seq<char>>) -> Seq<Seq<char>>
    decreases ps.len(),
{
    if ps.len() == 0 {
        Seq::empty()
    } else if normal_piece(ps.last()) {
        named_pieces(ps.drop_last()).push(ps.last())
    } else {
        named_pieces(ps.drop_last())
    }
}

/// `base` with each name appended in order.
pub open spec fn push_all(base: Seq<char>, names: Seq<Seq<char>>) -> Seq<char>
    decreases names.len(),
{
    if names.len() == 0 {
        base
    } else {
        path_push(push_all(base, names.drop_last()), names.last())
    }
}

/// The directories from the task root down to the parent of the entry that
/// `rel` names: the root first, then one more named component each time.
pub open spec fn directory_chain(root: Seq<char>, rel: Seq<char>, backslash_separates: bool) -> Seq<Seq<char>> {
    let names = named_pieces(rel_pieces(rel, backslash_separates));
    Seq::new(names.len(), |j: int| push_all(root, names.take(j)))
}

/// Joining the pieces of a path skips exactly the pieces that name nothing.
pub proof fn lemma_join_is_push_all(root: Seq<char>, ps: Seq<Seq<char>>)
    ensures
        join_pieces(root, ps) == push_all(root, named_pieces(ps)),
    decreases ps.len(),
{
    if ps.len() > 0 {
        lemma_join_is_push_all(root, ps.drop_last());
        if normal_piece(ps.last()) {
            let n = named_pieces(ps.drop_last()).push(ps.last());
            assert(n.drop_last() =~= named_pieces(ps.drop_last()));
        }
    }
}

/// A valid relative path names at least one entry.
proof fn lemma_named_nonempty(ps: Seq<Seq<char>>)
    requires
        exists|i: int| 0 <= i < ps.len() && normal_piece(#[trigger] ps[i]),
    ensures
        named_pieces(ps).len() >= 1,
    decreases ps.len(),
{
    if !normal_piece(ps.last()) {
        let i = choose|i: int| 0 <= i < ps.len() && normal_piece(#[trigger] ps[i]);
        assert(i != ps.len() - 1);
        assert(ps.drop_last()[i] == ps[i]);
        lemma_named_nonempty(ps.drop_last());
    }
}

/// Law: where a relative path leads under a task root is the last directory of its
/// chain with the entry's own name appended: every directory that a write
/// beneath the root passes through is in the chain.
pub proof fn law_destination_under_chain(root: Seq<char>, rel: Seq<char>, backslash_separates: bool)
    requires
        relative_path_ok(rel, backslash_separates),
    ensures
        directory_chain(root, rel, backslash_separates).len() >= 1,
        directory_chain(root, rel, backslash_separates)[0] == root,
        join_pieces(root, rel_pieces(rel, backslash_separates)) == path_push(
            directory_chain(root, rel, backslash_separates).last(),
            named_pieces(rel_pieces(rel, backslash_separates)).last(),
        ),
{
    let ps = rel_pieces(rel, backslash_separates);
    let names = named_pieces(ps);
    lemma_named_nonempty(ps);
    lemma_join_is_push_all(root, ps);
    assert(names.take(0) =~= Seq::<Seq<char>>::empty());
    assert(names.take(names.len() - 1) =~= names.drop_last());
}

/// What the filesystem showed of a task root before it was opened.
#[derive(Clone, Copy, Debug, PartialEq, Eq, Structural)]
pub enum RootInspection {
    /// A symbolic link or reparse point.
    Link,
    /// Something that is not a directory.
    NotDirectory,
    /// A plain directory.
    Directory,
}

/// A task root that was checked to be a plain directory.
#[derive(Clone, Debug)]
pub struct TaskRootHandle {
    root: String,
    backslash_separates: bool,
}

impl TaskRootHandle {
    /// The root path.
    pub closed spec fn root_view(&self) -> Seq<char> {
        self.root@
    }

    /// Whether `\` separates components in paths under this root.
    pub closed spec fn separates_backslash(&self) -> bool {
        self.backslash_separates
    }

    /// Opens a task root, refusing links and anything but a directory. Paths
    /// under it are split at `\` too when `backslash_separates`, as on Windows.
    pub fn new(root: &str, inspection: RootInspection, backslash_separates: bool) -> (r: Result<Self, String>)
        ensures
            r is Ok <==> inspection == RootInspection::Directory,
            r matches Ok(h) ==> h.root_view() == root@ && h.separates_backslash() == backslash_separates,
    {
        match inspection {
            RootInspection::Link => Err(String::from_str("SymlinkNotAllowed")),
            RootInspection::NotDirectory => Err(String::from_str("UnsafePath: task root is not a directory")),
            RootInspection::Directory => Ok(TaskRootHandle { root: String::from_str(root), backslash_separates }),
        }
    }

    /// The root path.
    pub fn root(&self) -> (r: &str)
        ensures
            r@ == self.root_view(),
    {
        self.root.as_str()
    }

    /// Where a received relative path leads under this root.
    pub fn resolve(&self, relative_path: &str) -> (r: Result<String, String>)
        ensures
            r is Ok <==> relative_path_ok(relative_path@, self.separates_backslash()),
            r matches Ok(p) ==> p@ == join_pieces(self.root_view(), rel_pieces(relative_path@, self.separates_backslash())),
    {
        safe_join(self.root.as_str(), relative_path, self.backslash_separates)
    }

    /// The directories, from the root down to the destination's parent, that
    /// must exist as plain directories before the entry at `relative_path` is
    /// written, and whose identity is held until the write.
    pub fn mutation_directories(&self, relative_path: &str) -> (r: Result<Vec<String>, String>)
        ensures
            r is Ok <==> relative_path_ok(relative_path@, self.separates_backslash()),
            r matches Ok(ds) ==> ds@.map_values(|d: String| d@)
                == directory_chain(self.root_view(), relative_path@, self.separates_backslash()),
    {
        let checked = safe_join(self.root.as_str(), relative_path, self.backslash_separates);
        if checked.is_err() {
            return Err(String::from_str("invalid relative path"));
        }
        let rel = chars_of(relative_path);
        let alt: char = if self.backslash_separates { '\\' } else { '/' };
        let parts = split_chars(&rel, '/', alt);
        let ghost ps = pieces(parts@);
        let ghost root = self.root@;
        let mut current = String::from_str(self.root.as_str());
        let mut out: Vec<String> = Vec::new();
        let mut i: usize = 0;
        while i < parts.len()
            invariant
                i <= parts.len(),
                ps == pieces(parts@),
                current@ == push_all(root, named_pieces(ps.take(i as int))),
                out@.map_values(|d: String| d@) == Seq::new(
                    named_pieces(ps.take(i as int)).len(),
                    |j: int| push_all(root, named_pieces(ps.take(i as int)).take(j)),
                ),
            decreases parts.len() - i,
        {
            let ghost before = named_pieces(ps.take(i as int));
            assert(ps.take(i + 1).drop_last() =~= ps.take(i as int));
            assert(ps.take(i + 1).last() == ps[i as int]);
            let part = &parts[i];
            let dot = vec!['.'];
            let named = part.len() > 0 && !crate::text::chars_eq(part, &dot);
            assert(dot@ =~= seq!['.']);
            if named {
                let ghost old_out = out@.map_values(|d: String| d@);
                let c = current.clone();
                out.push(c);
                assert(out@.map_values(|d: String| d@) =~= old_out.push(current@));
                let ghost after = named_pieces(ps.take(i + 1));
                assert(after == before.push(part@));
                assert(after.take(before.len() as int) =~= before);
                assert forall|j: int| 0 <= j < before.len() implies #[trigger] after.take(j) == before.take(j) by {
                    assert(after.take(j) =~= before.take(j));
                }
                push_component(&mut current, part);
                assert(after.drop_last() =~= before);
                assert(out@.map_values(|d: String| d@) =~= Seq::new(after.len(), |j: int| push_all(root, after.take(j))));
            } else {
                assert(named_pieces(ps.take(i + 1)) == before);
            }
            i = i + 1;
        }
        assert(ps.take(parts.len() as int) =~= ps);
        proof {
            lemma_named_nonempty(ps);
            let names = named_pieces(ps);
            assert(Seq::new(names.len(), |j: int| push_all(root, names.take(j))).len() == names.len());
        }
        assert(out@.map_values(|d: String| d@) =~= directory_chain(root, relative_path@, self.backslash_separates));
        Ok(out)
    }
}

/// A directory that a pending write passes through, with the identity
/// (device and inode, or volume and file index) it had when the write was prepared.
#[derive(Clone, Debug)]
pub struct DirectoryIdentity {
    pub path: String,
    pub volume: u64,
    pub file_index: u64,
}

/// The directories between a task root and a destination, as they were when a
/// write was prepared.
#[derive(Clone, Debug)]
pub struct MutationGuard {
    directories: Vec<DirectoryIdentity>,
}

impl MutationGuard {
    /// The identities held, in order from the root down.
    pub closed spec fn identities(&self) -> Seq<(u64, u64)> {
        self.directories@.map_values(|d: DirectoryIdentity| (d.volume, d.file_index))
    }

    /// The directory paths held, in order from the root down.
    pub closed spec fn paths(&self) -> Seq<Seq<char>> {
        self.directories@.map_values(|d: DirectoryIdentity| d.path@)
    }

    /// Holds each directory of the chain with the identity it had.
    pub fn capture(directories: &Vec<String>, identities: &[(u64, u64)]) -> (r: MutationGuard)
        requires
            directories@.len() == identities@.len(),
        ensures
            r.paths() == directories@.map_values(|d: String| d@),
            r.identities() == identities@,
    {
        let mut held: Vec<DirectoryIdentity> = Vec::new();
        let mut i: usize = 0;
        while i < directories.len()
            invariant
                i <= directories@.len(),
                directories@.len() == identities@.len(),
                held@.map_values(|d: DirectoryIdentity| d.path@) == directories@.map_values(|d: String| d@).take(i as int),
                held@.map_values(|d: DirectoryIdentity| (d.volume, d.file_index)) == identities@.take(i as int),
            decreases directories.len() - i,
        {
            let ghost old_paths = held@.map_values(|d: DirectoryIdentity| d.path@);
            let ghost old_ids = held@.map_values(|d: DirectoryIdentity| (d.volume, d.file_index));
            let d = DirectoryIdentity { path: directories[i].clone(), volume: identities[i].0, file_index: identities[i].1 };
            assert(d.path@ == directories@[i as int]@);
            held.push(d);
            assert(held@.map_values(|d: DirectoryIdentity| d.path@) =~= old_paths.push(directories@[i as int]@));
            assert(held@.map_values(|d: DirectoryIdentity| (d.volume, d.file_index)) =~= old_ids.push(identities@[i as int]));
            assert(held@.map_values(|d: DirectoryIdentity| d.path@) =~= directories@.map_values(|d: String| d@).take(i + 1));
            assert(held@.map_values(|d: DirectoryIdentity| (d.volume, d.file_index)) =~= identities@.take(i + 1));
            i = i + 1;
        }
        assert(directories@.map_values(|d: String| d@).take(i as int) =~= directories@.map_values(|d: String| d@));
        assert(identities@.take(i as int) =~= identities@);
        MutationGuard { directories: held }
    }

    /// The paths whose identities are read again before the write.
    pub fn directory_paths(&self) -> (r: Vec<String>)
        ensures
            r@.map_values(|d: String| d@) == self.paths(),
    {
        let mut out: Vec<String> = Vec::new();
        let mut i: usize = 0;
        while i < self.directories.len()
            invariant
                i <= self.directories@.len(),
                out@.map_values(|d: String| d@) == self.paths().take(i as int),
            decreases self.directories.len() - i,
        {
            let ghost old_out = out@.map_values(|d: String| d@);
            let p = self.directories[i].path.clone();
            assert(p@ == self.paths()[i as int]);
            out.push(p);
            assert(out@.map_values(|d: String| d@) =~= old_out.push(self.paths()[i as int]));
            assert(out@.map_values(|d: String| d@) =~= self.paths().take(i + 1));
            i = i + 1;
        }
        assert(self.paths().take(i as int) =~= self.paths());
        out
    }

    /// Checks that every directory still has the identity it had when the
    /// write was prepared; `current` holds the identities read now, in the
    /// same order.
    pub fn validate(&self, current: &[(u64, u64)]) -> (r: Result<(), String>)
        requires
            current@.len() == self.identities().len(),
        ensures
            r is Ok <==> current@ == self.identities(),
    {
        let mut i: usize = 0;
        while i < self.directories.len()
            invariant
                i <= self.directories@.len(),
                current@.len() == self.directories@.len(),
                forall|k: int| 0 <= k < i ==> current@[k] == #[trigger] self.identities()[k],
            decreases self.directories.len() - i,
        {
            let d = &self.directories[i];
            if current[i].0 != d.volume || current[i].1 != d.file_index {
                assert(self.identities()[i as int] == (d.volume, d.file_index));
                return Err(String::from_str("UnsafePath: parent directory identity changed"));
            }
            i = i + 1;
        }
        assert(current@ =~= self.identities());
        Ok(())
    }
}

/// Appending a component keeps what was there as a prefix.
proof fn lemma_push_keeps_prefix(base: Seq<char>, p: Seq<char>)
    ensures
        crate::text::has_prefix(path_push(base, p), base),
{
    let r = path_push(base, p);
    assert(r.subrange(0, base.len() as int) =~= base);
}

/// Joining pieces keeps the root as a prefix.
proof fn lemma_join_keeps_root(root: Seq<char>, ps: Seq<Seq<char>>)
    ensures
        crate::text::has_prefix(join_pieces(root, ps), root),
    decreases ps.len(),
{
    if ps.len() > 0 {
        lemma_join_keeps_root(root, ps.drop_last());
        let prev = join_pieces(root, ps.drop_last());
        if normal_piece(ps.last()) {
            lemma_push_keeps_prefix(prev, ps.last());
            let r = path_push(prev, ps.last());
            assert forall|k: int| 0 <= k < root.len() implies r.subrange(0, root.len() as int)[k] == root[k] by {
                assert(r.subrange(0, prev.len() as int)[k] == prev[k]);
                assert(prev.subrange(0, root.len() as int)[k] == root[k]);
            }
            assert(r.subrange(0, root.len() as int) =~= root);
            assert(join_pieces(root, ps) == r);
        } else {
            assert(join_pieces(root, ps) == prev);
        }
    } else {
        assert(root.subrange(0, root.len() as int) =~= root);
    }
}

/// Law: a relative path accepted from a peer resolves to a path that begins
/// with the task root, and every component appended to the root is a safe
/// name: no `..`, no absolute start, no reserved or malformed component.
pub proof fn law_resolved_path_stays_under_root(root: Seq<char>, rel: Seq<char>, backslash_separates: bool)
    requires
        relative_path_ok(rel, backslash_separates),
    ensures
        crate::text::has_prefix(join_pieces(root, rel_pieces(rel, backslash_separates)), root),
        forall|k: int| 0 <= k < named_pieces(rel_pieces(rel, backslash_separates)).len() ==>
            crate::path_rules::safe_component(#[trigger] named_pieces(rel_pieces(rel, backslash_separates))[k]),
{
    let ps = rel_pieces(rel, backslash_separates);
    lemma_join_keeps_root(root, ps);
    lemma_named_safe(ps);
}

/// Every named piece of a valid path is a safe component.
proof fn lemma_named_safe(ps: Seq<Seq<char>>)
    requires
        forall|i: int| 0 <= i < ps.len() && normal_piece(#[trigger] ps[i]) ==> crate::path_rules::safe_component(ps[i]),
    ensures
        forall|k: int| 0 <= k < named_pieces(ps).len() ==> crate::path_rules::safe_component(#[trigger] named_pieces(ps)[k]),
    decreases ps.len(),
{
    if ps.len() > 0 {
        assert forall|i: int| 0 <= i < ps.drop_last().len() && normal_piece(#[trigger] ps.drop_last()[i]) implies
            crate::path_rules::safe_component(ps.drop_last()[i]) by {
            assert(ps.drop_last()[i] == ps[i]);
        }
        lemma_named_safe(ps.drop_last());
        let prev = named_pieces(ps.drop_last());
        assert(ps.last() == ps[ps.len() - 1]);
        if normal_piece(ps.last()) {
            assert(crate::path_rules::safe_component(ps[ps.len() - 1]));
            assert forall|k: int| 0 <= k < named_pieces(ps).len() implies crate::path_rules::safe_component(#[trigger] named_pieces(ps)[k]) by {
                if k < prev.len() {
                    assert(named_pieces(ps)[k] == prev[k]);
                }
            }
        }
    }
}

} // verus!
