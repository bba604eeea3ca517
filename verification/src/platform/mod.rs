//! Per-platform naming rules: what the scanner ignores and which relative paths are valid.
use vstd::prelude::*;
use crate::ignore::{IgnoreDecision, IgnoreView};

pub mod macos;
pub mod windows;

verus! {

/// A relative path with every `\` turned into `/`.
pub open spec fn forward_slashes(s: Seq<char>) -> Seq<char> {
    s.map_values(|c: char| if c == '\\' { '/' } else { c })
}

/// Turns every `\` of a relative path into `/`.
pub fn to_forward_slashes(path: &str) -> (r: String)
    ensures
        r@ == forward_slashes(path@),
{
    let chars = crate::text::chars_of(path);
    let mut out: Vec<char> = Vec::new();
    let mut i: usize = 0;
    while i < chars.len()
        invariant
            i <= chars@.len(),
            out@ == forward_slashes(chars@.take(i as int)),
        decreases chars.len() - i,
    {
        let c = chars[i];
        out.push(if c == '\\' { '/' } else { c });
        assert(forward_slashes(chars@.take(i + 1)) =~= forward_slashes(chars@.take(i as int)).push(
            if c == '\\' { '/' } else { c },
        ));
        i = i + 1;
    }
    assert(chars@.take(chars@.len() as int) =~= chars@);
    crate::text::string_from_chars(&out)
}

/// A file of the application data directory.
pub fn data_file(dir: String, name: &str) -> (r: String)
    ensures
        r@ == crate::path_rules::path_push(dir@, name@),
{
    let mut path = dir;
    let chars = crate::text::chars_of(name);
    crate::path_rules::push_component(&mut path, &chars);
    path
}

/// The paths among `paths` whose case-folded form (`keys`, position for
/// position) is `k`, in their original order.
pub open spec fn members_with_key(paths: Seq<Seq<char>>, keys: Seq<Seq<char>>, k: Seq<char>) -> Seq<Seq<char>>
    decreases paths.len(),
{
    if paths.len() == 0 || keys.len() != paths.len() {
        Seq::empty()
    } else {
        let prev = members_with_key(paths.drop_last(), keys.drop_last(), k);
        if keys.last() == k {
            prev.push(paths.last())
        } else {
            prev
        }
    }
}

/// The case-folded form of each path.
pub open spec fn folded_keys(paths: Seq<Seq<char>>) -> Seq<Seq<char>> {
    paths.map_values(|p: Seq<char>| crate::text::unicode_lower(p))
}

/// Groups as plain text.
pub open spec fn groups_view(groups: Seq<Vec<String>>) -> Seq<Seq<Seq<char>>> {
    groups.map_values(|g: Vec<String>| g@.map_values(|p: String| p@))
}

/// Paths as plain text.
pub open spec fn strings_view(v: Seq<String>) -> Seq<Seq<char>> {
    v.map_values(|p: String| p@)
}

/// The groups of paths that differ only in case: every group holds all the
/// paths of one case-folded form, in input order, and has more than one
/// member; every such form has its group, and no form has two.
pub open spec fn is_collision_grouping(paths: Seq<Seq<char>>, groups: Seq<Seq<Seq<char>>>) -> bool {
    &&& forall|g: int| 0 <= g < groups.len() ==> #[trigger] groups[g].len() > 1
    &&& groups_sound(paths, groups)
    &&& groups_complete(paths, groups)
    &&& forall|g: int, h: int| 0 <= g < h < groups.len() ==> #[trigger] groups[g] != #[trigger] groups[h]
}

/// Every group is the set of paths of one case-folded form.
pub open spec fn groups_sound(paths: Seq<Seq<char>>, groups: Seq<Seq<Seq<char>>>) -> bool {
    forall|g: int| 0 <= g < groups.len() ==>
        exists|i: int| 0 <= i < paths.len() && #[trigger] groups[g] == members_with_key(paths, folded_keys(paths), folded_keys(paths)[i])
}

/// Every case-folded form shared by two or more paths has its group.
pub open spec fn groups_complete(paths: Seq<Seq<char>>, groups: Seq<Seq<Seq<char>>>) -> bool {
    forall|i: int| 0 <= i < paths.len() && members_with_key(paths, folded_keys(paths), #[trigger] folded_keys(paths)[i]).len() > 1 ==>
        exists|g: int| 0 <= g < groups.len() && groups[g] == members_with_key(paths, folded_keys(paths), folded_keys(paths)[i])
}

proof fn lemma_members_step(paths: Seq<Seq<char>>, keys: Seq<Seq<char>>, k: Seq<char>, n: int)
    requires
        0 <= n < paths.len(),
        keys.len() == paths.len(),
    ensures
        members_with_key(paths.take(n + 1), keys.take(n + 1), k) == (if keys[n] == k {
            members_with_key(paths.take(n), keys.take(n), k).push(paths[n])
        } else {
            members_with_key(paths.take(n), keys.take(n), k)
        }),
{
    assert(paths.take(n + 1).drop_last() =~= paths.take(n));
    assert(keys.take(n + 1).drop_last() =~= keys.take(n));
}

/// Every member of a group carries the group's key.
proof fn lemma_members_have_key(paths: Seq<Seq<char>>, keys: Seq<Seq<char>>, k: Seq<char>, m: int)
    requires
        keys.len() == paths.len(),
        0 <= m < members_with_key(paths, keys, k).len(),
    ensures
        exists|i: int| 0 <= i < paths.len() && keys[i] == k && paths[i] == #[trigger] members_with_key(paths, keys, k)[m],
    decreases paths.len(),
{
    let prev = members_with_key(paths.drop_last(), keys.drop_last(), k);
    if m < prev.len() {
        lemma_members_have_key(paths.drop_last(), keys.drop_last(), k, m);
        let i = choose|i: int| 0 <= i < paths.len() - 1 && keys.drop_last()[i] == k && paths.drop_last()[i] == #[trigger] members_with_key(paths.drop_last(), keys.drop_last(), k)[m];
        assert(paths[i] == members_with_key(paths, keys, k)[m]);
    } else {
        assert(paths[paths.len() - 1] == members_with_key(paths, keys, k)[m]);
    }
}

/// The paths of `paths` whose case-folded form equals that of `paths[i]`.
fn collect_members(paths: &[String], keys: &Vec<String>, k: &String) -> (r: Vec<String>)
    requires
        keys@.len() == paths@.len(),
    ensures
        strings_view(r@) == members_with_key(strings_view(paths@), strings_view(keys@), k@),
{
    let ghost ps = strings_view(paths@);
    let ghost ks = strings_view(keys@);
    let mut out: Vec<String> = Vec::new();
    let mut j: usize = 0;
    while j < paths.len()
        invariant
            j <= paths@.len(),
            keys@.len() == paths@.len(),
            ps == strings_view(paths@),
            ks == strings_view(keys@),
            strings_view(out@) == members_with_key(ps.take(j as int), ks.take(j as int), k@),
        decreases paths.len() - j,
    {
        proof {
            lemma_members_step(ps, ks, k@, j as int);
        }
        if crate::text::str_eq(keys[j].as_str(), k.as_str()) {
            let ghost before = strings_view(out@);
            out.push(paths[j].clone());
            assert(strings_view(out@) =~= before.push(ps[j as int]));
        }
        j = j + 1;
    }
    assert(ps.take(paths.len() as int) =~= ps);
    assert(ks.take(paths.len() as int) =~= ks);
    out
}

/// Groups made for distinct keys are distinct.
proof fn lemma_groups_distinct(ps: Seq<Seq<char>>, ks: Seq<Seq<char>>, gv: Seq<Seq<Seq<char>>>, made: Seq<int>, g: int, h: int)
    requires
        ks == folded_keys(ps),
        made.len() == gv.len(),
        0 <= g < h < made.len(),
        0 <= made[g] < ps.len(),
        0 <= made[h] < ps.len(),
        gv[g] == members_with_key(ps, ks, ks[made[g]]),
        gv[h] == members_with_key(ps, ks, ks[made[h]]),
        gv[g].len() > 1,
        gv[h].len() > 1,
        ks[made[g]] != ks[made[h]],
    ensures
        gv[g] != gv[h],
{
    lemma_members_have_key(ps, ks, ks[made[g]], 0);
    lemma_members_have_key(ps, ks, ks[made[h]], 0);
    if gv[g] == gv[h] {
        let a = choose|a: int| 0 <= a < ps.len() && ks[a] == ks[made[g]] && ps[a] == #[trigger] members_with_key(ps, ks, ks[made[g]])[0];
        let b = choose|b: int| 0 <= b < ps.len() && ks[b] == ks[made[h]] && ps[b] == #[trigger] members_with_key(ps, ks, ks[made[h]])[0];
        assert(ps[a] == ps[b]);
        assert(ks[a] == crate::text::unicode_lower(ps[a]));
        assert(ks[b] == crate::text::unicode_lower(ps[b]));
    }
}

proof fn lemma_grouping_sound(ps: Seq<Seq<char>>, gv: Seq<Seq<Seq<char>>>, made: Seq<int>)
    requires
        made.len() == gv.len(),
        forall|g: int| 0 <= g < made.len() ==> 0 <= #[trigger] made[g] < ps.len(),
        forall|g: int| 0 <= g < made.len() ==>
            #[trigger] gv[g] == members_with_key(ps, folded_keys(ps), folded_keys(ps)[made[g]]),
    ensures
        groups_sound(ps, gv),
{
    let ks = folded_keys(ps);
    assert forall|g: int| 0 <= g < gv.len() implies
        exists|x: int| 0 <= x < ps.len() && #[trigger] gv[g] == members_with_key(ps, ks, ks[x]) by {
        let x = made[g];
        assert(0 <= x < ps.len() && gv[g] == members_with_key(ps, ks, ks[x]));
    }
}

proof fn lemma_grouping_complete(ps: Seq<Seq<char>>, gv: Seq<Seq<Seq<char>>>, made: Seq<int>)
    requires
        made.len() == gv.len(),
        forall|g: int| 0 <= g < made.len() ==>
            #[trigger] gv[g] == members_with_key(ps, folded_keys(ps), folded_keys(ps)[made[g]]),
        forall|x: int| 0 <= x < ps.len() && members_with_key(ps, folded_keys(ps), #[trigger] folded_keys(ps)[x]).len() > 1 ==>
            exists|g: int| 0 <= g < made.len() && folded_keys(ps)[made[g]] == folded_keys(ps)[x],
    ensures
        groups_complete(ps, gv),
{
    let ks = folded_keys(ps);
    assert forall|x: int| 0 <= x < ps.len() && members_with_key(ps, ks, #[trigger] ks[x]).len() > 1 implies
        exists|g: int| 0 <= g < gv.len() && gv[g] == members_with_key(ps, ks, ks[x]) by {
        let g = choose|g: int| 0 <= g < made.len() && ks[made[g]] == ks[x];
        assert(gv[g] == members_with_key(ps, ks, ks[made[g]]));
    }
}

proof fn lemma_grouping_distinct(ps: Seq<Seq<char>>, gv: Seq<Seq<Seq<char>>>, made: Seq<int>)
    requires
        made.len() == gv.len(),
        forall|g: int| 0 <= g < made.len() ==> 0 <= #[trigger] made[g] < ps.len(),
        forall|g: int| 0 <= g < made.len() ==>
            #[trigger] gv[g] == members_with_key(ps, folded_keys(ps), folded_keys(ps)[made[g]]),
        forall|g: int| 0 <= g < made.len() ==> #[trigger] gv[g].len() > 1,
        forall|g: int, h: int| 0 <= g < h < made.len() ==>
            folded_keys(ps)[#[trigger] made[g]] != folded_keys(ps)[#[trigger] made[h]],
    ensures
        forall|g: int, h: int| 0 <= g < h < gv.len() ==> #[trigger] gv[g] != #[trigger] gv[h],
{
    let ks = folded_keys(ps);
    assert forall|g: int, h: int| 0 <= g < h < gv.len() implies #[trigger] gv[g] != #[trigger] gv[h] by {
        assert(0 <= made[g] < ps.len());
        assert(0 <= made[h] < ps.len());
        assert(gv[g] == members_with_key(ps, ks, ks[made[g]]));
        assert(gv[h] == members_with_key(ps, ks, ks[made[h]]));
        assert(gv[g].len() > 1);
        assert(gv[h].len() > 1);
        assert(ks[made[g]] != ks[made[h]]);
        lemma_groups_distinct(ps, ks, gv, made, g, h);
    }
}

/// A grouping built one first-occurrence at a time is a collision grouping.
proof fn lemma_grouping(ps: Seq<Seq<char>>, gv: Seq<Seq<Seq<char>>>, made: Seq<int>)
    requires
        made.len() == gv.len(),
        forall|g: int| 0 <= g < made.len() ==> 0 <= #[trigger] made[g] < ps.len(),
        forall|g: int| 0 <= g < made.len() ==>
            #[trigger] gv[g] == members_with_key(ps, folded_keys(ps), folded_keys(ps)[made[g]]),
        forall|g: int| 0 <= g < made.len() ==> #[trigger] gv[g].len() > 1,
        forall|g: int, h: int| 0 <= g < h < made.len() ==>
            folded_keys(ps)[#[trigger] made[g]] != folded_keys(ps)[#[trigger] made[h]],
        forall|x: int| 0 <= x < ps.len() && members_with_key(ps, folded_keys(ps), #[trigger] folded_keys(ps)[x]).len() > 1 ==>
            exists|g: int| 0 <= g < made.len() && folded_keys(ps)[made[g]] == folded_keys(ps)[x],
    ensures
        is_collision_grouping(ps, gv),
{
    lemma_grouping_sound(ps, gv, made);
    lemma_grouping_complete(ps, gv, made);
    lemma_grouping_distinct(ps, gv, made);
}

/// Groups the paths that differ only in case (Unicode case folding), each
/// group in input order and the groups in the order of their first member.
#[verifier::rlimit(30)]
pub fn case_collision_groups(paths: &[String]) -> (r: Vec<Vec<String>>)
    ensures
        is_collision_grouping(strings_view(paths@), groups_view(r@)),
{
    let ghost ps = strings_view(paths@);
    let mut keys: Vec<String> = Vec::new();
    let mut i: usize = 0;
    while i < paths.len()
        invariant
            i <= paths@.len(),
            ps == strings_view(paths@),
            strings_view(keys@) == folded_keys(ps).take(i as int),
        decreases paths.len() - i,
    {
        let ghost before = strings_view(keys@);
        let k = crate::text::to_lowercase(paths[i].as_str());
        keys.push(k);
        assert(strings_view(keys@) =~= before.push(folded_keys(ps)[i as int]));
        assert(folded_keys(ps).take(i + 1) =~= folded_keys(ps).take(i as int).push(folded_keys(ps)[i as int]));
        i = i + 1;
    }
    let ghost ks = folded_keys(ps);
    assert(ks.take(paths.len() as int) =~= ks);
    let mut groups: Vec<Vec<String>> = Vec::new();
    // The key that each group was made for: the key of its first member.
    let ghost mut made: Seq<int> = Seq::empty();
    let mut i: usize = 0;
    while i < paths.len()
        invariant
            i <= paths@.len(),
            ps == strings_view(paths@),
            ks == folded_keys(ps),
            strings_view(keys@) == ks,
            keys@.len() == paths@.len(),
            made.len() == groups@.len(),
            forall|g: int| 0 <= g < made.len() ==> 0 <= #[trigger] made[g] < i,
            forall|g: int| 0 <= g < made.len() ==>
                #[trigger] groups_view(groups@)[g] == members_with_key(ps, ks, ks[made[g]]),
            forall|g: int| 0 <= g < made.len() ==> #[trigger] groups_view(groups@)[g].len() > 1,
            forall|g: int, h: int| 0 <= g < h < made.len() ==> ks[#[trigger] made[g]] != ks[#[trigger] made[h]],
            forall|x: int| 0 <= x < i && members_with_key(ps, ks, #[trigger] ks[x]).len() > 1 ==>
                exists|g: int| 0 <= g < made.len() && ks[made[g]] == ks[x],
        decreases paths.len() - i,
    {
        let ghost old_made = made;
        // Only the first path of each folded form opens a group.
        let mut seen = false;
        let mut j: usize = 0;
        while j < i
            invariant
                j <= i < keys@.len(),
                strings_view(keys@) == ks,
                seen == exists|y: int| 0 <= y < j && ks[y] == ks[i as int],
            decreases i - j,
        {
            if crate::text::str_eq(keys[j].as_str(), keys[i].as_str()) {
                assert(ks[j as int] == ks[i as int]);
                seen = true;
            }
            j = j + 1;
        }
        if seen {
            proof {
                let y = choose|y: int| 0 <= y < i && ks[y] == ks[i as int];
                if members_with_key(ps, ks, ks[i as int]).len() > 1 {
                    assert(members_with_key(ps, ks, ks[y]).len() > 1);
                    let g = choose|g: int| 0 <= g < made.len() && ks[made[g]] == ks[y];
                    assert(ks[made[g]] == ks[i as int]);
                }
            }
        } else {
            let group = collect_members(paths, &keys, &keys[i]);
            if group.len() > 1 {
                let ghost before = groups_view(groups@);
                groups.push(group);
                proof {
                    made = made.push(i as int);
                    assert(groups_view(groups@) =~= before.push(members_with_key(ps, ks, ks[i as int])));
                    assert forall|g: int, h: int| 0 <= g < h < made.len() implies ks[#[trigger] made[g]] != ks[#[trigger] made[h]] by {
                        if h == made.len() - 1 {
                            assert(made[g] < i);
                        }
                    }
                    assert(made[made.len() - 1] == i);
                }
            }
        }
        proof {
            assert forall|x: int| 0 <= x < i + 1 && members_with_key(ps, ks, #[trigger] ks[x]).len() > 1 implies
                exists|g: int| 0 <= g < made.len() && ks[made[g]] == ks[x] by {
                if x < i {
                    let g = choose|g: int| 0 <= g < old_made.len() && ks[old_made[g]] == ks[x];
                    assert(made[g] == old_made[g]);
                } else if seen {
                    let y = choose|y: int| 0 <= y < i && ks[y] == ks[i as int];
                    assert(members_with_key(ps, ks, ks[y]).len() > 1);
                    let g = choose|g: int| 0 <= g < old_made.len() && ks[old_made[g]] == ks[y];
                    assert(made[g] == old_made[g]);
                } else {
                    assert(made[made.len() - 1] == i);
                }
            }
        }
        i = i + 1;
    }
    proof {
        lemma_grouping(ps, groups_view(groups@), made);
    }
    groups
}

/// The naming rules of the platform the application runs on.
pub trait Platform {
    /// Whether a relative path is valid on this platform.
    spec fn relative_path_ok(&self, rel: Seq<char>) -> bool;

    /// The ignore decision for an entry name.
    spec fn ignore_rule(&self, name: Seq<char>, is_dir: bool) -> IgnoreView;

    /// The application data directory.
    spec fn data_dir(&self) -> Seq<char>;

    /// Whether this platform's paths separate components at `\` as well as `/`.
    spec fn separates_at_backslash(&self) -> bool;

    /// Whether this platform's paths separate components at `\` as well as `/`.
    fn backslash_separates(&self) -> (r: bool)
        ensures
            r == self.separates_at_backslash(),
    ;

    /// Where application data is kept.
    fn app_data_dir(&self) -> (r: String)
        ensures
            r@ == self.data_dir(),
    ;

    /// A relative path with forward slashes.
    fn normalize_relative_path(&self, path: &str) -> (r: String)
        ensures
            r@ == forward_slashes(path@),
    ;

    /// Validates a relative path against this platform's naming rules.
    fn validate_target_relative_path(&self, relative_path: &str) -> (r: Result<(), String>)
        ensures
            r is Ok <==> self.relative_path_ok(relative_path@),
    ;

    /// Whether an entry is skipped by the scanner.
    fn classify_ignored_entry(&self, entry_name: &str, is_dir: bool) -> (r: IgnoreDecision)
        ensures
            r@ == self.ignore_rule(entry_name@, is_dir),
    ;

    /// Where the database file lives.
    fn database_path(&self) -> (r: String)
        ensures
            r@ == crate::path_rules::path_push(self.data_dir(), "lanbridge.db"@),
    {
        data_file(self.app_data_dir(), "lanbridge.db")
    }

    /// Where the device identity key lives.
    fn identity_key_path(&self) -> (r: String)
        ensures
            r@ == crate::path_rules::path_push(self.data_dir(), "identity.key"@),
    {
        data_file(self.app_data_dir(), "identity.key")
    }

    /// Where the pinned peer keys live.
    fn peer_pins_path(&self) -> (r: String)
        ensures
            r@ == crate::path_rules::path_push(self.data_dir(), "peer-pins.json"@),
    {
        data_file(self.app_data_dir(), "peer-pins.json")
    }

    /// Where the application log lives.
    fn log_path(&self) -> (r: String)
        ensures
            r@ == crate::path_rules::path_push(self.data_dir(), "lanbridge.log"@),
    {
        data_file(self.app_data_dir(), "lanbridge.log")
    }

    /// The groups of paths that would collide on a case-insensitive volume.
    fn detect_case_collisions(&self, paths: &[String]) -> (r: Vec<Vec<String>>)
        ensures
            is_collision_grouping(strings_view(paths@), groups_view(r@)),
    {
        case_collision_groups(paths)
    }
}

} // verus!
