//! Lexical rules for relative paths received from peers, and joining them under a task root.
use vstd::prelude::*;
use crate::text::{
    ascii_upper_seq, chars_ascii_upper, chars_eq, chars_of, has_char, has_prefix, pieces,
    push_char, split_chars, split_spec, str_views, string_from_chars,
};

verus! {

/// Characters that no path component may hold.
pub open spec fn forbidden_char(c: char) -> bool {
    c == '\0' || c == '<' || c == '>' || c == ':' || c == '"' || c == '|' || c == '?' || c == '*'
}

/// Windows device names, which no file may be called (before its first dot).
pub open spec fn reserved_device_names() -> Seq<Seq<char>> {
    seq![
        "CON"@, "PRN"@, "AUX"@, "NUL"@,
        "COM1"@, "COM2"@, "COM3"@, "COM4"@, "COM5"@, "COM6"@, "COM7"@, "COM8"@, "COM9"@,
        "LPT1"@, "LPT2"@, "LPT3"@, "LPT4"@, "LPT5"@, "LPT6"@, "LPT7"@, "LPT8"@, "LPT9"@,
    ]
}

/// The part of a file name before its first dot.
pub open spec fn name_stem(name: Seq<char>) -> Seq<char> {
    split_spec(name, '.', '.')[0]
}

/// A component of a received relative path is acceptable on every platform.
pub open spec fn safe_component(name: Seq<char>) -> bool {
    &&& name.len() > 0
    &&& name.last() != '.'
    &&& name.last() != ' '
    &&& forall|i: int| 0 <= i < name.len() ==> !forbidden_char(#[trigger] name[i])
    &&& !reserved_device_names().contains(ascii_upper_seq(name_stem(name)))
}

/// A piece of a split path that names an entry (not empty, not `.`).
pub open spec fn normal_piece(p: Seq<char>) -> bool {
    p.len() > 0 && p != seq!['.']
}

/// The second character that separates path components: `\` on a system
/// whose paths use it (Windows), otherwise `/` again.
pub open spec fn alt_separator(backslash_separates: bool) -> char {
    if backslash_separates {
        '\\'
    } else {
        '/'
    }
}

/// The pieces of a path, split at `/` and, where the system's paths use it, at `\`.
pub open spec fn rel_pieces(rel: Seq<char>, backslash_separates: bool) -> Seq<Seq<char>> {
    split_spec(rel, '/', alt_separator(backslash_separates))
}

/// A relative path is acceptable: not absolute, no `..`, every named
/// component safe, and at least one named component. Where `\` separates
/// components it may not start the path either.
pub open spec fn relative_path_ok(rel: Seq<char>, backslash_separates: bool) -> bool {
    let ps = rel_pieces(rel, backslash_separates);
    &&& !has_prefix(rel, seq!['/'])
    &&& !(backslash_separates && has_prefix(rel, seq!['\\']))
    &&& forall|i: int| 0 <= i < ps.len() ==> #[trigger] ps[i] != seq!['.', '.']
    &&& forall|i: int| 0 <= i < ps.len() && normal_piece(#[trigger] ps[i]) ==> safe_component(ps[i])
    &&& exists|i: int| 0 <= i < ps.len() && normal_piece(#[trigger] ps[i])
}

/// Appending one component to a path, as `PathBuf::push` does for a relative component.
pub open spec fn path_push(base: Seq<char>, p: Seq<char>) -> Seq<char> {
    if base.len() == 0 {
        p
    } else if base.last() == '/' {
        base + p
    } else {
        base + seq!['/'] + p
    }
}

/// `root` with every named piece appended in order.
pub open spec fn join_pieces(root: Seq<char>, ps: Seq<Seq<char>>) -> Seq<char>
    decreases ps.len(),
{
    if ps.len() == 0 {
        root
    } else {
        let prev = join_pieces(root, ps.drop_last());
        if normal_piece(ps.last()) {
            path_push(prev, ps.last())
        } else {
            prev
        }
    }
}

/// Appends one relative component to a path string.
pub fn push_component(base: &mut String, part: &Vec<char>)
    ensures
        final(base)@ == path_push(old(base)@, part@),
{
    let b = chars_of(base.as_str());
    let needs_sep = b.len() > 0 && b[b.len() - 1] != '/';
    if needs_sep {
        push_char(base, '/');
    }
    let ghost mid = base@;
    let mut i: usize = 0;
    while i < part.len()
        invariant
            i <= part.len(),
            base@ == mid + part@.take(i as int),
        decreases part.len() - i,
    {
        push_char(base, part[i]);
        assert(part@.take(i as int).push(part@[i as int]) =~= part@.take((i + 1) as int));
        i = i + 1;
    }
    assert(part@.take(part.len() as int) =~= part@);
    proof {
        if b@.len() == 0 {
            assert(base@ =~= part@);
        }
    }
}

/// Whether a name (already upper-cased) is a reserved device name.
pub fn is_device_name(upper: &Vec<char>) -> (r: bool)
    ensures
        r == reserved_device_names().contains(upper@),
{
    let names = vec![
        "CON", "PRN", "AUX", "NUL",
        "COM1", "COM2", "COM3", "COM4", "COM5", "COM6", "COM7", "COM8", "COM9",
        "LPT1", "LPT2", "LPT3", "LPT4", "LPT5", "LPT6", "LPT7", "LPT8", "LPT9",
    ];
    assert(str_views(names@) =~= reserved_device_names());
    let s = string_from_chars(upper);
    crate::text::str_in_list(s.as_str(), &names)
}

/// Validates one component of a received relative path.
pub fn validate_safe_component(name: &Vec<char>) -> (r: Result<(), String>)
    ensures
        r is Ok <==> safe_component(name@),
{
    if name.len() == 0 {
        return Err(String::from_str("empty path component"));
    }
    let last = name[name.len() - 1];
    if last == '.' || last == ' ' {
        return Err(String::from_str("invalid trailing dot or space in path component"));
    }
    let mut i: usize = 0;
    while i < name.len()
        invariant
            i <= name.len(),
            forall|k: int| 0 <= k < i ==> !forbidden_char(#[trigger] name@[k]),
        decreases name.len() - i,
    {
        let c = name[i];
        if c == '\0' || c == '<' || c == '>' || c == ':' || c == '"' || c == '|' || c == '?' || c
            == '*' {
            return Err(String::from_str("invalid character in relative path"));
        }
        i = i + 1;
    }
    let parts = split_chars(name, '.', '.');
    assert(pieces(parts@)[0] == parts@[0]@);
    let upper = chars_ascii_upper(&parts[0]);
    if is_device_name(&upper) {
        return Err(String::from_str("reserved device name in relative path"));
    }
    Ok(())
}

pub proof fn lemma_join_pieces_step(root: Seq<char>, ps: Seq<Seq<char>>, i: int)
    requires
        0 <= i < ps.len(),
    ensures
        join_pieces(root, ps.take(i + 1)) == if normal_piece(ps[i]) {
            path_push(join_pieces(root, ps.take(i)), ps[i])
        } else {
            join_pieces(root, ps.take(i))
        },
{
    assert(ps.take(i + 1).drop_last() =~= ps.take(i));
}

/// Resolves a received relative path under `root`, rejecting absolute paths,
/// `..`, unsafe names and empty paths. This is the lexical half of the check;
/// the filesystem boundary (symlinks, canonical prefix) is checked by the
/// caller against the disk.
pub fn safe_join(root: &str, relative_path: &str, backslash_separates: bool) -> (r: Result<String, String>)
    ensures
        r is Ok <==> relative_path_ok(relative_path@, backslash_separates),
        r matches Ok(p) ==> p@ == join_pieces(root@, rel_pieces(relative_path@, backslash_separates)),
{
    let rel = chars_of(relative_path);
    if rel.len() > 0 && (rel[0] == '/' || (backslash_separates && rel[0] == '\\')) {
        assert(rel@.subrange(0, 1) =~= seq![rel@[0]]);
        return Err(String::from_str("invalid relative path"));
    }
    assert(!has_prefix(rel@, seq!['/']) && !(backslash_separates && has_prefix(rel@, seq!['\\']))) by {
        if has_prefix(rel@, seq!['/']) || (backslash_separates && has_prefix(rel@, seq!['\\'])) {
            assert(rel@[0] == rel@.subrange(0, 1)[0]);
        }
    }
    let alt: char = if backslash_separates { '\\' } else { '/' };
    let parts = split_chars(&rel, '/', alt);
    let ghost ps = pieces(parts@);
    let mut dest = String::from_str(root);
    let mut any = false;
    let mut i: usize = 0;
    while i < parts.len()
        invariant
            i <= parts.len(),
            ps == pieces(parts@),
            ps == rel_pieces(relative_path@, backslash_separates),
            forall|k: int| 0 <= k < i ==> #[trigger] ps[k] != seq!['.', '.'],
            forall|k: int| 0 <= k < i && normal_piece(#[trigger] ps[k]) ==> safe_component(ps[k]),
            any == exists|k: int| 0 <= k < i && normal_piece(#[trigger] ps[k]),
            dest@ == join_pieces(root@, ps.take(i as int)),
        decreases parts.len() - i,
    {
        let part = &parts[i];
        assert(ps[i as int] == part@);
        proof {
            lemma_join_pieces_step(root@, ps, i as int);
        }
        let dotdot = vec!['.', '.'];
        let dot = vec!['.'];
        if chars_eq(part, &dotdot) {
            assert(dotdot@ =~= seq!['.', '.']);
            return Err(String::from_str("invalid relative path"));
        }
        assert(dotdot@ =~= seq!['.', '.']);
        assert(dot@ =~= seq!['.']);
        if part.len() > 0 && !chars_eq(part, &dot) {
            match validate_safe_component(part) {
                Ok(()) => {},
                Err(e) => {
                    return Err(e);
                },
            }
            push_component(&mut dest, part);
            any = true;
        }
        i = i + 1;
    }
    assert(ps.take(parts.len() as int) =~= ps);
    if !any {
        return Err(String::from_str("empty relative path"));
    }
    Ok(dest)
}

/// Law: a path component is refused only for what Windows cannot store: it
/// must not be empty, end in `.` or a space, hold NUL or one of
/// `< > : " | ? *`, or have a reserved device name before its first dot.
/// Any other name is safe, including one with spaces or dots inside.
pub proof fn law_ordinary_names_are_safe(name: Seq<char>)
    requires
        name.len() > 0,
        name.last() != '.',
        name.last() != ' ',
        forall|i: int| 0 <= i < name.len() ==> {
            let c = #[trigger] name[i];
            c != '\0' && c != '<' && c != '>' && c != ':' && c != '"' && c != '|' && c != '?' && c != '*'
        },
        !reserved_device_names().contains(ascii_upper_seq(name_stem(name))),
    ensures
        safe_component(name),
{
}

} // verus!
