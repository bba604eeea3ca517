//! Deleting and importing entries of a task folder: path checks, naming of
//! imported copies, and how outcomes are grouped.
use vstd::prelude::*;
use crate::conflict::{ext_split_point, split_stem_ext};
use crate::ignore::{IgnoreDecision, IgnoreView};
use crate::platform::{forward_slashes, Platform};
use crate::text::{chars_of, decimal, push_chars, push_str, str_eq, string_from_chars, u64_to_decimal};

verus! {

/// Where a deleted entry goes.
#[derive(Debug, Clone, Copy, PartialEq, Eq, Structural)]
pub enum DeleteDestination {
    LanBridgeHistory,
    SystemTrash,
}

/// The outcome of deleting one entry.
#[derive(Debug, Clone)]
pub struct DeleteEntryResult {
    pub relative_path: String,
    pub success: bool,
    pub error: Option<String>,
}

/// What an import does when the target name is taken.
#[derive(Debug, Clone, Copy, PartialEq, Eq, Structural)]
pub enum ImportCollisionPolicy {
    Cancel,
    KeepBoth,
    Overwrite,
}

/// The outcome of importing one source entry.
#[derive(Debug, Clone)]
pub struct ImportEntryResult {
    pub source_path: String,
    pub relative_path: String,
    pub success: bool,
    pub error: Option<String>,
}

/// The outcomes of an import, grouped.
#[derive(Debug, Clone)]
pub struct ImportTaskEntriesResult {
    pub imported: Vec<ImportEntryResult>,
    pub conflicts: Vec<ImportEntryResult>,
    pub failed: Vec<ImportEntryResult>,
}

/// Unicode white space, as `char::is_whitespace` defines it.
pub open spec fn is_white(c: char) -> bool {
    let u = c as u32;
    ||| 0x09 <= u <= 0x0D
    ||| u == 0x20
    ||| u == 0x85
    ||| u == 0xA0
    ||| u == 0x1680
    ||| 0x2000 <= u <= 0x200A
    ||| u == 0x2028
    ||| u == 0x2029
    ||| u == 0x202F
    ||| u == 0x205F
    ||| u == 0x3000
}

fn is_white_exec(c: char) -> (r: bool)
    ensures
        r == is_white(c),
{
    let u = c as u32;
    (0x09 <= u && u <= 0x0D) || u == 0x20 || u == 0x85 || u == 0xA0 || u == 0x1680 || (0x2000 <= u
        && u <= 0x200A) || u == 0x2028 || u == 0x2029 || u == 0x202F || u == 0x205F || u == 0x3000
}

/// Number of leading white-space characters.
pub open spec fn lead_white(s: Seq<char>) -> int
    decreases s.len(),
{
    if s.len() > 0 && is_white(s[0]) {
        1 + lead_white(s.drop_first())
    } else {
        0
    }
}

/// Number of trailing white-space characters.
pub open spec fn trail_white(s: Seq<char>) -> int
    decreases s.len(),
{
    if s.len() > 0 && is_white(s.last()) {
        1 + trail_white(s.drop_last())
    } else {
        0
    }
}

/// `s` without leading and trailing white space, as `str::trim` gives it.
pub open spec fn trimmed(s: Seq<char>) -> Seq<char> {
    let a = lead_white(s);
    if a == s.len() {
        Seq::empty()
    } else {
        s.subrange(a, s.len() - trail_white(s))
    }
}

proof fn lemma_lead_white(s: Seq<char>, k: int)
    requires
        0 <= k <= s.len(),
        forall|j: int| 0 <= j < k ==> is_white(s[j]),
    ensures
        lead_white(s) == k + lead_white(s.skip(k)),
    decreases k,
{
    if k > 0 {
        assert(s.skip(1) =~= s.drop_first());
        lemma_lead_white(s.drop_first(), k - 1);
        assert(s.drop_first().skip(k - 1) =~= s.skip(k));
    } else {
        assert(s.skip(0) =~= s);
    }
}

proof fn lemma_trail_white(s: Seq<char>, k: int)
    requires
        0 <= k <= s.len(),
        forall|j: int| s.len() - k <= j < s.len() ==> is_white(s[j]),
    ensures
        trail_white(s) == k + trail_white(s.take(s.len() - k)),
    decreases k,
{
    if k > 0 {
        assert(s.take(s.len() - 1) =~= s.drop_last());
        lemma_trail_white(s.drop_last(), k - 1);
        assert(s.drop_last().take(s.drop_last().len() - (k - 1)) =~= s.take(s.len() - k));
    } else {
        assert(s.take(s.len() as int) =~= s);
    }
}

/// The string with surrounding white space removed.
pub fn trim(s: &str) -> (r: String)
    ensures
        r@ == trimmed(s@),
{
    let chars = chars_of(s);
    let n = chars.len();
    let mut a: usize = 0;
    while a < n && is_white_exec(chars[a])
        invariant
            a <= n,
            n == chars@.len(),
            forall|j: int| 0 <= j < a ==> is_white(chars@[j]),
        decreases n - a,
    {
        a = a + 1;
    }
    proof {
        lemma_lead_white(chars@, a as int);
        if a < n {
            assert(chars@.skip(a as int)[0] == chars@[a as int]);
        } else {
            assert(chars@.skip(a as int).len() == 0);
        }
    }
    if a == n {
        return String::new();
    }
    let mut b: usize = n;
    while b > a && is_white_exec(chars[b - 1])
        invariant
            a < n,
            a <= b <= n,
            n == chars@.len(),
            !is_white(chars@[a as int]),
            forall|j: int| b <= j < n ==> is_white(chars@[j]),
        decreases b,
    {
        b = b - 1;
    }
    proof {
        lemma_trail_white(chars@, (n - b) as int);
        let t = chars@.take(b as int);
        if b > a {
            assert(t.last() == chars@[b - 1]);
        }
    }
    let mut out: Vec<char> = Vec::new();
    let mut i: usize = a;
    while i < b
        invariant
            a <= i <= b <= n,
            n == chars@.len(),
            out@ == chars@.subrange(a as int, i as int),
        decreases b - i,
    {
        out.push(chars[i]);
        assert(chars@.subrange(a as int, i + 1) =~= chars@.subrange(a as int, i as int).push(chars@[i as int]));
        i = i + 1;
    }
    string_from_chars(&out)
}

/// `parent/name`, or `name` at the top; trailing slashes of `parent` are dropped.
pub open spec fn joined_relative(parent: Seq<char>, name: Seq<char>) -> Seq<char> {
    if parent.len() == 0 {
        name
    } else {
        parent.take(parent.len() - trailing_slashes(parent)) + seq!['/'] + name
    }
}

/// Number of trailing `/`.
pub open spec fn trailing_slashes(s: Seq<char>) -> int
    decreases s.len(),
{
    if s.len() > 0 && s.last() == '/' {
        1 + trailing_slashes(s.drop_last())
    } else {
        0
    }
}

/// The relative path of `name` inside the folder `parent`.
pub fn join_relative_path(parent: &str, name: &str) -> (r: String)
    ensures
        r@ == joined_relative(parent@, name@),
{
    let chars = chars_of(parent);
    if chars.len() == 0 {
        return crate::text::to_owned_string(name);
    }
    let mut b: usize = chars.len();
    assert(chars@.take(chars@.len() as int) =~= chars@);
    while b > 0 && chars[b - 1] == '/'
        invariant
            b <= chars@.len(),
            trailing_slashes(chars@) == (chars@.len() - b) + trailing_slashes(chars@.take(b as int)),
        decreases b,
    {
        assert(chars@.take(b as int).drop_last() =~= chars@.take(b - 1));
        assert(chars@.take(b as int).last() == chars@[b - 1]);
        b = b - 1;
    }
    proof {
        if b > 0 {
            assert(chars@.take(b as int).last() == chars@[b - 1]);
        }
        assert(trailing_slashes(chars@.take(b as int)) == 0);
    }
    let mut out: Vec<char> = Vec::new();
    let mut i: usize = 0;
    while i < b
        invariant
            i <= b <= chars@.len(),
            out@ == chars@.take(i as int),
        decreases b - i,
    {
        out.push(chars[i]);
        assert(chars@.take(i + 1) =~= chars@.take(i as int).push(chars@[i as int]));
        i = i + 1;
    }
    out.push('/');
    let mut r = string_from_chars(&out);
    push_str(&mut r, name);
    r
}

/// Names never imported: the protocol's history and staging folders, and
/// whatever the platform ignores.
pub open spec fn import_ignored<P: Platform>(platform: &P, name: Seq<char>, is_dir: bool) -> bool {
    name == ".lanbridge-history"@ || name == ".lanbridge-tmp"@ || platform.ignore_rule(name, is_dir) != IgnoreView::Allowed
}

/// Whether an entry is left out of an import.
pub fn should_ignore_import_entry<P: Platform>(platform: &P, name: &str, is_dir: bool) -> (r: bool)
    ensures
        r == import_ignored(platform, name@, is_dir),
{
    if str_eq(name, ".lanbridge-history") || str_eq(name, ".lanbridge-tmp") {
        return true;
    }
    match platform.classify_ignored_entry(name, is_dir) {
        IgnoreDecision::Ignored(_) => true,
        IgnoreDecision::Allowed => false,
    }
}

/// The name tried at `index` for a copy that must not replace an existing
/// entry: `stem (index).ext`, or `name (index)` without an extension.
pub open spec fn import_candidate(name: Seq<char>, index: nat) -> Seq<char> {
    let p = ext_split_point(name);
    if name.len() - p > 1 {
        name.take(p) + " ("@ + decimal(index) + ")"@ + name.skip(p)
    } else {
        name + " ("@ + decimal(index) + ")"@
    }
}

/// The candidate name for a kept-both import.
pub fn import_candidate_name(name: &str, index: u64) -> (r: String)
    ensures
        r@ == import_candidate(name@, index as nat),
{
    let (stem, ext) = split_stem_ext(name);
    let digits = u64_to_decimal(index);
    let with_ext = ext.unicode_len() > 1;
    proof {
        crate::conflict::lemma_last_pos_bounds(name@, '.');
        crate::conflict::lemma_last_pos_bounds(name@, '/');
    }
    assert(ext@.len() == name@.len() - ext_split_point(name@));
    let mut out = String::new();
    if with_ext {
        push_str(&mut out, stem);
    } else {
        push_str(&mut out, name);
    }
    let ghost head = out@;
    push_str(&mut out, " (");
    push_chars(&mut out, &digits);
    push_str(&mut out, ")");
    let ghost mid = out@;
    assert(mid =~= head + " ("@ + decimal(index as nat) + ")"@);
    if with_ext {
        push_str(&mut out, ext);
        assert(out@ =~= mid + ext@);
    }
    out
}

/// Import candidates are tried up to this index.
pub const MAX_IMPORT_CANDIDATES: u64 = 999;

/// What happens to an import whose target exists.
pub enum CollisionChoice {
    /// The import of this entry is refused.
    Refuse,
    /// The existing entry is replaced.
    Replace,
    /// A fresh name is picked.
    PickNewName,
}

/// The choice for a taken target under `policy`.
pub fn collision_choice(policy: ImportCollisionPolicy) -> (r: CollisionChoice)
    ensures
        policy == ImportCollisionPolicy::Cancel <==> r is Refuse,
        policy == ImportCollisionPolicy::Overwrite <==> r is Replace,
        policy == ImportCollisionPolicy::KeepBoth <==> r is PickNewName,
{
    match policy {
        ImportCollisionPolicy::Cancel => CollisionChoice::Refuse,
        ImportCollisionPolicy::Overwrite => CollisionChoice::Replace,
        ImportCollisionPolicy::KeepBoth => CollisionChoice::PickNewName,
    }
}

/// Under `Cancel`, a refused entry is a conflict that stops the import;
/// under the other policies it is a failure and the rest go on.
pub fn refused_entry_is_conflict(policy: ImportCollisionPolicy) -> (r: bool)
    ensures
        r == (policy == ImportCollisionPolicy::Cancel),
{
    policy == ImportCollisionPolicy::Cancel
}

/// Why a requested relative path cannot be acted on, if it cannot: it is
/// empty after trimming, or the platform rejects it.
pub open spec fn entry_path_problem<P: Platform>(platform: &P, requested: Seq<char>) -> bool {
    let p = forward_slashes(trimmed(requested));
    p.len() == 0 || !platform.relative_path_ok(p)
}

/// The relative path a delete request names: trimmed, with forward
/// slashes, non-empty and valid on the platform.
pub fn entry_relative_path<P: Platform>(platform: &P, requested: &str) -> (r: Result<String, String>)
    ensures
        match r {
            Ok(p) => p@ == forward_slashes(trimmed(requested@)) && !entry_path_problem(platform, requested@),
            Err(_) => entry_path_problem(platform, requested@),
        },
        forward_slashes(trimmed(requested@)).len() == 0 ==> (r matches Err(e) && e@ == "relative path cannot be empty"@),
{
    let t = trim(requested);
    let p = platform.normalize_relative_path(t.as_str());
    if p.unicode_len() == 0 {
        return Err(crate::text::to_owned_string("relative path cannot be empty"));
    }
    match platform.validate_target_relative_path(p.as_str()) {
        Ok(()) => Ok(p),
        Err(e) => Err(e),
    }
}

/// Two canonical paths name the same entry: the same components, both absolute or both not.
pub open spec fn same_path(a: Seq<char>, b: Seq<char>) -> bool {
    crate::coordinator::has_base(a, b) && crate::coordinator::has_base(b, a)
}

/// The error, if any, for importing `source` to `destination`, given their
/// canonical forms: the destination's own when it exists, else its parent's
/// when that exists.
pub open spec fn import_cycle_error(
    source: Seq<char>,
    source_is_dir: bool,
    destination: Option<Seq<char>>,
    destination_parent: Option<Seq<char>>,
) -> Option<Seq<char>> {
    match destination {
        Some(d) => if same_path(source, d) {
            Some("源文件和目标文件相同"@)
        } else if source_is_dir && crate::coordinator::has_base(d, source) {
            Some("不能把文件夹导入到自身内部"@)
        } else {
            None
        },
        None => match destination_parent {
            Some(p) => if source_is_dir && crate::coordinator::has_base(p, source) {
                Some("不能把文件夹导入到自身内部"@)
            } else {
                None
            },
            None => None,
        },
    }
}

/// Refuses an import onto the source itself, or of a folder into itself.
pub fn reject_import_cycle(
    source: &str,
    source_is_dir: bool,
    destination: Option<&str>,
    destination_parent: Option<&str>,
) -> (r: Result<(), String>)
    ensures
        match import_cycle_error(
            source@,
            source_is_dir,
            match destination { Some(d) => Some(d@), None => None },
            match destination_parent { Some(p) => Some(p@), None => None },
        ) {
            Some(e) => r matches Err(m) && m@ == e,
            None => r is Ok,
        },
{
    match destination {
        Some(d) => {
            if crate::coordinator::path_starts_with(source, d) && crate::coordinator::path_starts_with(d, source) {
                return Err(String::from_str("源文件和目标文件相同"));
            }
            if source_is_dir && crate::coordinator::path_starts_with(d, source) {
                return Err(String::from_str("不能把文件夹导入到自身内部"));
            }
            Ok(())
        },
        None => match destination_parent {
            Some(p) => {
                if source_is_dir && crate::coordinator::path_starts_with(p, source) {
                    return Err(String::from_str("不能把文件夹导入到自身内部"));
                }
                Ok(())
            },
            None => Ok(()),
        },
    }
}

} // verus!
