//! Ignore decisions shared by the platform rules, and the `*` glob matcher they use.
use vstd::prelude::*;
use crate::text::{
    chars_ends_with, chars_of, find_first_from, first_from, has_prefix, has_suffix, matches_at,
    occurs_at, pieces, split_chars, split_spec,
};

verus! {

/// Why an entry is ignored.
#[derive(Debug, Clone, PartialEq, Eq)]
pub enum IgnoreReason {
    /// Exact file name match (e.g. `.DS_Store`).
    ExactName(String),
    /// Exact directory name match (e.g. `.git`, `node_modules`).
    ExactDirectory(String),
    /// Glob pattern match (e.g. `*.tmp`, `~$*`).
    GlobPattern(String),
}

/// Whether an entry is skipped by the scanner.
#[derive(Debug, Clone, PartialEq, Eq)]
pub enum IgnoreDecision {
    Ignored(IgnoreReason),
    Allowed,
}

/// Mathematical form of an [`IgnoreDecision`].
pub enum IgnoreView {
    ExactName(Seq<char>),
    ExactDirectory(Seq<char>),
    GlobPattern(Seq<char>),
    Allowed,
}

impl View for IgnoreDecision {
    type V = IgnoreView;

    open spec fn view(&self) -> IgnoreView {
        match self {
            IgnoreDecision::Ignored(IgnoreReason::ExactName(s)) => IgnoreView::ExactName(s@),
            IgnoreDecision::Ignored(IgnoreReason::ExactDirectory(s)) => IgnoreView::ExactDirectory(
                s@,
            ),
            IgnoreDecision::Ignored(IgnoreReason::GlobPattern(s)) => IgnoreView::GlobPattern(s@),
            IgnoreDecision::Allowed => IgnoreView::Allowed,
        }
    }
}

/// Scan of the `*`-separated pattern pieces from piece `i` on, with `pos`
/// the current position in `text`. A leading piece must be a prefix at `pos`,
/// a trailing piece a suffix of the whole text, and a middle piece is searched
/// for from `pos`; after a search the position becomes the match offset
/// relative to `pos` plus the piece length.
pub open spec fn glob_scan(
    text: Seq<char>,
    parts: Seq<Seq<char>>,
    i: int,
    pos: int,
    starts_wild: bool,
    ends_wild: bool,
) -> bool
    decreases parts.len() - i,
{
    if i < 0 || i >= parts.len() {
        true
    } else {
        let part = parts[i];
        if part.len() == 0 {
            glob_scan(text, parts, i + 1, pos, starts_wild, ends_wild)
        } else if i == 0 && !starts_wild {
            occurs_at(text, part, pos) && glob_scan(
                text,
                parts,
                i + 1,
                pos + part.len(),
                starts_wild,
                ends_wild,
            )
        } else if i == parts.len() - 1 && !ends_wild {
            has_suffix(text, part) && glob_scan(text, parts, i + 1, pos, starts_wild, ends_wild)
        } else {
            match first_from(text, part, pos) {
                Some(f) => glob_scan(
                    text,
                    parts,
                    i + 1,
                    (f - pos) + part.len(),
                    starts_wild,
                    ends_wild,
                ),
                None => false,
            }
        }
    }
}

/// Whether `text` matches a pattern whose only wildcard is `*`.
pub open spec fn glob_matches(text: Seq<char>, pattern: Seq<char>) -> bool {
    if pattern == seq!['*'] {
        true
    } else {
        let parts = split_spec(pattern, '*', '*');
        if parts.len() == 1 {
            text == pattern
        } else {
            glob_scan(text, parts, 0, 0, has_prefix(pattern, seq!['*']), has_suffix(pattern, seq!['*']))
        }
    }
}

/// Simple glob matching for `*` wildcards.
pub fn matches_glob(text: &str, pattern: &str) -> (r: bool)
    ensures
        r == glob_matches(text@, pattern@),
{
    let t = chars_of(text);
    let p = chars_of(pattern);
    let star = vec!['*'];
    if p.len() == 1 && p[0] == '*' {
        assert(p@ =~= seq!['*']);
        return true;
    }
    assert(p@ != seq!['*']) by {
        if p@ == seq!['*'] {
            assert(p@.len() == 1 && p@[0] == '*');
        }
    }
    let parts = split_chars(&p, '*', '*');
    if parts.len() == 1 {
        return crate::text::chars_eq(&t, &p);
    }
    let starts_wild = crate::text::chars_starts_with(&p, &star);
    let ends_wild = chars_ends_with(&p, &star);
    proof {
        assert(star@ =~= seq!['*']);
    }
    let ghost ps = pieces(parts@);
    let n = parts.len();
    let mut pos: usize = 0;
    let mut i: usize = 0;
    while i < n
        invariant
            n == parts.len(),
            n != 1,
            t@ == text@,
            p@ == pattern@,
            pattern@ != seq!['*'],
            starts_wild == has_prefix(pattern@, seq!['*']),
            ends_wild == has_suffix(pattern@, seq!['*']),
            ps == pieces(parts@),
            ps == split_spec(p@, '*', '*'),
            ps.len() == n,
            i <= n,
            pos <= t.len(),
            glob_scan(t@, ps, 0, 0, starts_wild, ends_wild) == glob_scan(
                t@,
                ps,
                i as int,
                pos as int,
                starts_wild,
                ends_wild,
            ),
        decreases n - i,
    {
        let part = &parts[i];
        assert(ps[i as int] == part@);
        if part.len() == 0 {
        } else if i == 0 && !starts_wild {
            if !matches_at(&t, part, pos) {
                assert(!glob_scan(t@, ps, i as int, pos as int, starts_wild, ends_wild));
                return false;
            }
            pos = pos + part.len();
        } else if i == n - 1 && !ends_wild {
            if !chars_ends_with(&t, part) {
                assert(!glob_scan(t@, ps, i as int, pos as int, starts_wild, ends_wild));
                return false;
            }
        } else {
            match find_first_from(&t, part, pos) {
                Some(f) => {
                    proof {
                        crate::text::lemma_first_from_occurs(t@, part@, pos as int);
                        assert(pos <= f && occurs_at(t@, part@, f as int));
                    }
                    pos = (f - pos) + part.len();
                },
                None => {
                    return false;
                },
            }
        }
        i = i + 1;
    }
    true
}

} // verus!
