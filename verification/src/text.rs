//! Character-level string helpers with specifications over `Seq<char>`.
use vstd::prelude::*;
use vstd::std_specs::iter::IteratorSpec;
use vstd::utf8::encode_utf8;

verus! {

/// `suf` is a suffix of `s`.
pub open spec fn has_suffix(s: Seq<char>, suf: Seq<char>) -> bool {
    suf.len() <= s.len() && s.subrange(s.len() - suf.len(), s.len() as int) == suf
}

/// `pre` is a prefix of `s`.
pub open spec fn has_prefix(s: Seq<char>, pre: Seq<char>) -> bool {
    pre.len() <= s.len() && s.subrange(0, pre.len() as int) == pre
}

/// `needle` occurs at position `i` of `s`.
pub open spec fn occurs_at(s: Seq<char>, needle: Seq<char>, i: int) -> bool {
    0 <= i && i + needle.len() <= s.len() && s.subrange(i, i + needle.len()) == needle
}

/// `needle` occurs somewhere in `s`.
pub open spec fn has_infix(s: Seq<char>, needle: Seq<char>) -> bool {
    exists|i: int| occurs_at(s, needle, i)
}

/// `c` occurs in `s`.
pub open spec fn has_char(s: Seq<char>, c: char) -> bool {
    exists|i: int| 0 <= i < s.len() && s[i] == c
}

/// ASCII upper-casing of one character; other characters are unchanged.
pub open spec fn ascii_upper(c: char) -> char {
    if 'a' <= c && c <= 'z' {
        ((c as u32) - 32) as char
    } else {
        c
    }
}

/// ASCII lower-casing of one character; other characters are unchanged.
pub open spec fn ascii_lower(c: char) -> char {
    if 'A' <= c && c <= 'Z' {
        ((c as u32) + 32) as char
    } else {
        c
    }
}

pub open spec fn ascii_upper_seq(s: Seq<char>) -> Seq<char> {
    s.map_values(|c: char| ascii_upper(c))
}

pub open spec fn ascii_lower_seq(s: Seq<char>) -> Seq<char> {
    s.map_values(|c: char| ascii_lower(c))
}

/// The characters of a string slice, as a vector.
pub fn chars_of(s: &str) -> (r: Vec<char>)
    ensures
        r@ == s@,
{
    broadcast use vstd::string::group_string_axioms;

    let mut out: Vec<char> = Vec::new();
    for c in it: s.chars()
        invariant
            out@ == it.seq().take(it.index() as int),
            it.seq() == s@,
    {
        out.push(c);
    }
    out
}

/// Appends one character to a string.
#[verifier::external_body]
pub(crate) fn push_char(s: &mut String, c: char)
    ensures
        final(s)@ == old(s)@.push(c),
{
    s.push(c);
}

/// Builds a string from a character sequence.
pub fn string_from_chars(v: &Vec<char>) -> (r: String)
    ensures
        r@ == v@,
{
    let mut out = String::new();
    let mut i: usize = 0;
    while i < v.len()
        invariant
            i <= v.len(),
            out@ == v@.take(i as int),
        decreases v.len() - i,
    {
        push_char(&mut out, v[i]);
        assert(v@.take(i as int).push(v@[i as int]) == v@.take((i + 1) as int));
        i = i + 1;
    }
    assert(v@.take(v.len() as int) == v@);
    out
}

/// Copies a string slice into an owned string.
pub fn to_owned_string(s: &str) -> (r: String)
    ensures
        r@ == s@,
{
    let v = chars_of(s);
    string_from_chars(&v)
}

/// Concatenation of two character sequences into a string.
pub fn concat_str(a: &str, b: &str) -> (r: String)
    ensures
        r@ == a@ + b@,
{
    let mut out = to_owned_string(a);
    let bv = chars_of(b);
    let mut i: usize = 0;
    while i < bv.len()
        invariant
            i <= bv.len(),
            bv@ == b@,
            out@ == a@ + bv@.take(i as int),
        decreases bv.len() - i,
    {
        push_char(&mut out, bv[i]);
        assert(bv@.take(i as int).push(bv@[i as int]) == bv@.take((i + 1) as int));
        i = i + 1;
    }
    assert(bv@.take(bv.len() as int) == bv@);
    out
}

/// Whether `a[start..start + b.len()]` equals `b`.
pub fn matches_at(a: &Vec<char>, b: &Vec<char>, start: usize) -> (r: bool)
    ensures
        r == occurs_at(a@, b@, start as int),
{
    if b.len() > a.len() || start > a.len() - b.len() {
        return false;
    }
    let mut j: usize = 0;
    while j < b.len()
        invariant
            j <= b.len(),
            start + b.len() <= a.len(),
            forall|k: int| 0 <= k < j ==> a@[start + k] == b@[k],
        decreases b.len() - j,
    {
        if a[start + j] != b[j] {
            assert(a@.subrange(start as int, start + b.len())[j as int] != b@[j as int]);
            return false;
        }
        j = j + 1;
    }
    assert(a@.subrange(start as int, start + b.len()) =~= b@);
    true
}

/// Character-sequence equality.
pub fn chars_eq(a: &Vec<char>, b: &Vec<char>) -> (r: bool)
    ensures
        r == (a@ == b@),
{
    if a.len() != b.len() {
        return false;
    }
    let r = matches_at(a, b, 0);
    assert(a@.subrange(0, b.len() as int) =~= a@);
    r
}

/// String-slice equality by characters.
pub fn str_eq(a: &str, b: &str) -> (r: bool)
    ensures
        r == (a@ == b@),
{
    let av = chars_of(a);
    let bv = chars_of(b);
    chars_eq(&av, &bv)
}

/// Suffix test on character vectors.
pub fn chars_ends_with(s: &Vec<char>, suf: &Vec<char>) -> (r: bool)
    ensures
        r == has_suffix(s@, suf@),
{
    if suf.len() > s.len() {
        return false;
    }
    matches_at(s, suf, s.len() - suf.len())
}

/// Prefix test on character vectors.
pub fn chars_starts_with(s: &Vec<char>, pre: &Vec<char>) -> (r: bool)
    ensures
        r == has_prefix(s@, pre@),
{
    matches_at(s, pre, 0)
}

/// Suffix test on string slices.
pub fn ends_with(s: &str, suf: &str) -> (r: bool)
    ensures
        r == has_suffix(s@, suf@),
{
    let sv = chars_of(s);
    let fv = chars_of(suf);
    chars_ends_with(&sv, &fv)
}

/// Prefix test on string slices.
pub fn starts_with(s: &str, pre: &str) -> (r: bool)
    ensures
        r == has_prefix(s@, pre@),
{
    let sv = chars_of(s);
    let pv = chars_of(pre);
    chars_starts_with(&sv, &pv)
}

/// First position at or after `from` where `needle` occurs, if any.
pub fn find_from(s: &Vec<char>, needle: &Vec<char>, from: usize) -> (r: Option<usize>)
    requires
        from <= s.len(),
    ensures
        match r {
            Some(i) => from <= i && occurs_at(s@, needle@, i as int) && forall|k: int|
                from <= k < i ==> !occurs_at(s@, needle@, k),
            None => forall|k: int| from <= k ==> !occurs_at(s@, needle@, k),
        },
{
    if needle.len() > s.len() {
        return None;
    }
    let last = s.len() - needle.len();
    if from > last {
        return None;
    }
    let mut i = from;
    loop
        invariant
            from <= i <= last,
            last + needle.len() == s.len(),
            forall|k: int| from <= k < i ==> !occurs_at(s@, needle@, k),
        decreases last - i,
    {
        if matches_at(s, needle, i) {
            return Some(i);
        }
        if i == last {
            return None;
        }
        i = i + 1;
    }
}

/// Substring test on character vectors.
pub fn chars_contains(s: &Vec<char>, needle: &Vec<char>) -> (r: bool)
    ensures
        r == has_infix(s@, needle@),
{
    match find_from(s, needle, 0) {
        Some(_) => true,
        None => {
            assert forall|i: int| !occurs_at(s@, needle@, i) by {
                if 0 <= i {
                } else {
                }
            }
            false
        },
    }
}

/// Substring test on string slices.
pub fn contains(s: &str, needle: &str) -> (r: bool)
    ensures
        r == has_infix(s@, needle@),
{
    let sv = chars_of(s);
    let nv = chars_of(needle);
    chars_contains(&sv, &nv)
}

/// Whether a character occurs in a character vector.
pub fn chars_has_char(s: &Vec<char>, c: char) -> (r: bool)
    ensures
        r == has_char(s@, c),
{
    let mut i: usize = 0;
    while i < s.len()
        invariant
            i <= s.len(),
            forall|k: int| 0 <= k < i ==> s@[k] != c,
        decreases s.len() - i,
    {
        if s[i] == c {
            return true;
        }
        i = i + 1;
    }
    false
}

/// ASCII upper-casing of one character.
pub fn char_ascii_upper(c: char) -> (r: char)
    ensures
        r == ascii_upper(c),
{
    if 'a' <= c && c <= 'z' {
        let u = (c as u32) - 32;
        assert(0x41 <= u && u <= 0x5a);
        let b = u as u8;
        b as char
    } else {
        c
    }
}

/// ASCII lower-casing of one character.
pub fn char_ascii_lower(c: char) -> (r: char)
    ensures
        r == ascii_lower(c),
{
    if 'A' <= c && c <= 'Z' {
        let u = (c as u32) + 32;
        assert(0x61 <= u && u <= 0x7a);
        let b = u as u8;
        b as char
    } else {
        c
    }
}

/// ASCII upper-casing of a character vector.
pub fn chars_ascii_upper(s: &Vec<char>) -> (r: Vec<char>)
    ensures
        r@ == ascii_upper_seq(s@),
{
    let mut out: Vec<char> = Vec::new();
    let mut i: usize = 0;
    while i < s.len()
        invariant
            i <= s.len(),
            out@ == ascii_upper_seq(s@.take(i as int)),
        decreases s.len() - i,
    {
        out.push(char_ascii_upper(s[i]));
        assert(ascii_upper_seq(s@.take((i + 1) as int)) =~= ascii_upper_seq(s@.take(i as int)).push(
            ascii_upper(s@[i as int]),
        ));
        i = i + 1;
    }
    assert(s@.take(s.len() as int) == s@);
    out
}

/// ASCII lower-casing of a character vector.
pub fn chars_ascii_lower(s: &Vec<char>) -> (r: Vec<char>)
    ensures
        r@ == ascii_lower_seq(s@),
{
    let mut out: Vec<char> = Vec::new();
    let mut i: usize = 0;
    while i < s.len()
        invariant
            i <= s.len(),
            out@ == ascii_lower_seq(s@.take(i as int)),
        decreases s.len() - i,
    {
        out.push(char_ascii_lower(s[i]));
        assert(ascii_lower_seq(s@.take((i + 1) as int)) =~= ascii_lower_seq(s@.take(i as int)).push(
            ascii_lower(s@[i as int]),
        ));
        i = i + 1;
    }
    assert(s@.take(s.len() as int) == s@);
    out
}

/// Pieces of `s` between separators, where a separator is `a` or `b`; like
/// `str::split`, there is always at least one (possibly empty) piece.
pub open spec fn split_spec(s: Seq<char>, a: char, b: char) -> Seq<Seq<char>>
    decreases s.len(),
{
    if s.len() == 0 {
        seq![Seq::<char>::empty()]
    } else {
        let rest = split_spec(s.drop_last(), a, b);
        if s.last() == a || s.last() == b {
            rest.push(Seq::<char>::empty())
        } else {
            rest.update(rest.len() - 1, rest.last().push(s.last()))
        }
    }
}

pub proof fn lemma_split_nonempty(s: Seq<char>, a: char, b: char)
    ensures
        split_spec(s, a, b).len() >= 1,
    decreases s.len(),
{
    if s.len() > 0 {
        lemma_split_nonempty(s.drop_last(), a, b);
    }
}

/// The character sequences of a vector of character vectors.
pub open spec fn pieces(v: Seq<Vec<char>>) -> Seq<Seq<char>> {
    v.map_values(|x: Vec<char>| x@)
}

/// Splits a character vector at every `a` or `b`.
pub fn split_chars(s: &Vec<char>, a: char, b: char) -> (r: Vec<Vec<char>>)
    ensures
        pieces(r@) == split_spec(s@, a, b),
        r.len() >= 1,
{
    let mut done: Vec<Vec<char>> = Vec::new();
    let mut cur: Vec<char> = Vec::new();
    let mut i: usize = 0;
    while i < s.len()
        invariant
            i <= s.len(),
            pieces(done@).push(cur@) == split_spec(s@.take(i as int), a, b),
        decreases s.len() - i,
    {
        let c = s[i];
        proof {
            assert(s@.take((i + 1) as int).drop_last() == s@.take(i as int));
            lemma_split_nonempty(s@.take(i as int), a, b);
        }
        if c == a || c == b {
            let ghost before = pieces(done@);
            let piece = cur;
            done.push(piece);
            cur = Vec::new();
            assert(pieces(done@) =~= before.push(piece@));
        } else {
            let ghost before = cur@;
            cur.push(c);
            assert(pieces(done@).push(cur@) =~= pieces(done@).push(before).update(
                pieces(done@).len() as int,
                before.push(c),
            ));
        }
        i = i + 1;
    }
    assert(s@.take(s.len() as int) == s@);
    let ghost before = pieces(done@);
    done.push(cur);
    assert(pieces(done@) =~= before.push(cur@));
    done
}

/// The first position at or after `k` where `needle` occurs in `s`.
pub open spec fn first_from(s: Seq<char>, needle: Seq<char>, k: int) -> Option<int>
    decreases s.len() + 1 - k,
{
    if k < 0 || k + needle.len() > s.len() {
        None
    } else if occurs_at(s, needle, k) {
        Some(k)
    } else {
        first_from(s, needle, k + 1)
    }
}

pub proof fn lemma_first_from_found(s: Seq<char>, needle: Seq<char>, from: int, k: int)
    requires
        0 <= from <= k,
        occurs_at(s, needle, k),
        forall|j: int| from <= j < k ==> !occurs_at(s, needle, j),
    ensures
        first_from(s, needle, from) == Some(k),
    decreases k - from,
{
    if from < k {
        lemma_first_from_found(s, needle, from + 1, k);
    }
}

pub proof fn lemma_first_from_none(s: Seq<char>, needle: Seq<char>, from: int)
    requires
        0 <= from,
        forall|j: int| from <= j ==> !occurs_at(s, needle, j),
    ensures
        first_from(s, needle, from) is None,
    decreases s.len() + 1 - from,
{
    if from + needle.len() <= s.len() {
        lemma_first_from_none(s, needle, from + 1);
    }
}

/// `find_from` computes `first_from`.
pub fn find_first_from(s: &Vec<char>, needle: &Vec<char>, from: usize) -> (r: Option<usize>)
    requires
        from <= s.len(),
    ensures
        match r {
            Some(i) => first_from(s@, needle@, from as int) == Some(i as int),
            None => first_from(s@, needle@, from as int) is None,
        },
{
    let r = find_from(s, needle, from);
    proof {
        match r {
            Some(i) => lemma_first_from_found(s@, needle@, from as int, i as int),
            None => lemma_first_from_none(s@, needle@, from as int),
        }
    }
    r
}

/// The string views of a sequence of string slices.
pub open spec fn str_views(v: Seq<&str>) -> Seq<Seq<char>> {
    v.map_values(|x: &str| x@)
}

/// Whether `name` equals one of the listed strings.
pub fn str_in_list(name: &str, list: &Vec<&str>) -> (r: bool)
    ensures
        r == str_views(list@).contains(name@),
{
    let mut i: usize = 0;
    while i < list.len()
        invariant
            i <= list.len(),
            forall|k: int| 0 <= k < i ==> list@[k]@ != name@,
        decreases list.len() - i,
    {
        if str_eq(list[i], name) {
            assert(str_views(list@)[i as int] == name@);
            return true;
        }
        i = i + 1;
    }
    proof {
        if str_views(list@).contains(name@) {
            let k = choose|k: int| 0 <= k < str_views(list@).len() && str_views(list@)[k] == name@;
            assert(list@[k]@ == name@);
        }
    }
    false
}

pub proof fn lemma_first_from_occurs(s: Seq<char>, needle: Seq<char>, from: int)
    ensures
        first_from(s, needle, from) matches Some(f) ==> from <= f && occurs_at(s, needle, f),
    decreases s.len() + 1 - from,
{
    if from >= 0 && from + needle.len() <= s.len() && !occurs_at(s, needle, from) {
        lemma_first_from_occurs(s, needle, from + 1);
    }
}

/// What `str::to_uppercase` returns for a string (full Unicode case mapping).
pub uninterp spec fn unicode_upper(s: Seq<char>) -> Seq<char>;

/// What `str::to_lowercase` returns for a string (full Unicode case mapping).
pub uninterp spec fn unicode_lower(s: Seq<char>) -> Seq<char>;

/// Calls `str::to_uppercase`; its result is named by `unicode_upper`.
#[verifier::external_body]
pub(crate) fn to_uppercase(s: &str) -> (r: String)
    ensures
        r@ == unicode_upper(s@),
{
    s.to_uppercase()
}

/// Calls `str::to_lowercase`; its result is named by `unicode_lower`.
#[verifier::external_body]
pub(crate) fn to_lowercase(s: &str) -> (r: String)
    ensures
        r@ == unicode_lower(s@),
{
    s.to_lowercase()
}

/// Number of bytes in the UTF-8 encoding of one character.
pub open spec fn char_utf8_width(c: char) -> nat {
    if (c as u32) <= 0x7F {
        1
    } else if (c as u32) <= 0x7FF {
        2
    } else if (c as u32) <= 0xFFFF {
        3
    } else {
        4
    }
}

pub proof fn lemma_encode_utf8_concat(a: Seq<char>, b: Seq<char>)
    ensures
        encode_utf8(a + b) == encode_utf8(a) + encode_utf8(b),
    decreases a.len(),
{
    if a.len() == 0 {
        assert(a + b =~= b);
    } else {
        assert((a + b).drop_first() =~= a.drop_first() + b);
        lemma_encode_utf8_concat(a.drop_first(), b);
    }
}

pub proof fn lemma_encode_utf8_one(c: char)
    ensures
        encode_utf8(seq![c]).len() == char_utf8_width(c),
{
    assert(seq![c].drop_first() =~= Seq::<char>::empty());
    let v = c as u32;
    assert(encode_utf8(Seq::<char>::empty()) =~= Seq::<u8>::empty());
    assert(encode_utf8(seq![c]) == vstd::utf8::encode_scalar(v) + encode_utf8(
        seq![c].drop_first(),
    ));
    assert(seq![c][0] == c);
    assert(v <= 0xD7FF || (0xE000 <= v && v <= 0x10FFFF));
}

pub proof fn lemma_encode_utf8_push(s: Seq<char>, c: char)
    ensures
        encode_utf8(s.push(c)).len() == encode_utf8(s).len() + char_utf8_width(c),
{
    assert(s.push(c) =~= s + seq![c]);
    lemma_encode_utf8_concat(s, seq![c]);
    lemma_encode_utf8_one(c);
}

/// Whether the UTF-8 encoding of `s` is longer than `limit` bytes.
pub fn utf8_len_exceeds(s: &Vec<char>, limit: usize) -> (r: bool)
    requires
        limit <= usize::MAX - 4,
    ensures
        r == (encode_utf8(s@).len() > limit),
{
    let mut acc: usize = 0;
    let mut i: usize = 0;
    while i < s.len()
        invariant
            i <= s.len(),
            limit <= usize::MAX - 4,
            acc == encode_utf8(s@.take(i as int)).len(),
            acc <= limit,
        decreases s.len() - i,
    {
        let c = s[i];
        let v = c as u32;
        let w: usize = if v <= 0x7F {
            1
        } else if v <= 0x7FF {
            2
        } else if v <= 0xFFFF {
            3
        } else {
            4
        };
        proof {
            lemma_encode_utf8_push(s@.take(i as int), c);
            assert(s@.take(i as int).push(c) =~= s@.take((i + 1) as int));
        }
        acc = acc + w;
        i = i + 1;
        if acc > limit {
            proof {
                lemma_encode_utf8_concat(s@.take(i as int), s@.skip(i as int));
                assert(s@.take(i as int) + s@.skip(i as int) =~= s@);
            }
            return true;
        }
    }
    assert(s@.take(s.len() as int) =~= s@);
    false
}

/// The character of a decimal digit.
pub open spec fn digit_char(d: nat) -> char {
    (('0' as u32) + d) as char
}

/// Decimal notation of a natural number, without leading zeros.
pub open spec fn decimal(n: nat) -> Seq<char>
    decreases n,
{
    if n < 10 {
        seq![digit_char(n)]
    } else {
        decimal(n / 10).push(digit_char(n % 10))
    }
}

/// Decimal notation of an unsigned integer.
pub fn u64_to_decimal(n: u64) -> (r: Vec<char>)
    ensures
        r@ == decimal(n as nat),
    decreases n,
{
    let d = (n % 10) as u32;
    let c = ((48u32 + d) as u8) as char;
    assert(c == digit_char((n % 10) as nat));
    if n < 10 {
        vec![c]
    } else {
        let mut v = u64_to_decimal(n / 10);
        v.push(c);
        v
    }
}

/// `s` left-padded with `'0'` up to `width` characters.
pub open spec fn zero_pad(s: Seq<char>, width: nat) -> Seq<char> {
    if s.len() >= width {
        s
    } else {
        Seq::new((width - s.len()) as nat, |i: int| '0') + s
    }
}

/// Left-pads with zeros up to `width` characters.
pub fn pad_zeros(s: &Vec<char>, width: usize) -> (r: Vec<char>)
    ensures
        r@ == zero_pad(s@, width as nat),
{
    if s.len() >= width {
        return s.clone();
    }
    let mut out: Vec<char> = Vec::new();
    let k = width - s.len();
    let mut i: usize = 0;
    while i < k
        invariant
            i <= k,
            out@ == Seq::new(i as nat, |j: int| '0'),
        decreases k - i,
    {
        out.push('0');
        assert(out@ =~= Seq::new((i + 1) as nat, |j: int| '0'));
        i = i + 1;
    }
    let mut j: usize = 0;
    while j < s.len()
        invariant
            j <= s.len(),
            out@ == Seq::new(k as nat, |q: int| '0') + s@.take(j as int),
        decreases s.len() - j,
    {
        out.push(s[j]);
        assert(s@.take(j as int).push(s@[j as int]) =~= s@.take((j + 1) as int));
        assert(out@ =~= Seq::new(k as nat, |q: int| '0') + s@.take((j + 1) as int));
        j = j + 1;
    }
    assert(s@.take(s.len() as int) =~= s@);
    out
}

/// Appends a character sequence to a string.
pub fn push_chars(s: &mut String, v: &Vec<char>)
    ensures
        final(s)@ == old(s)@ + v@,
{
    let ghost start = s@;
    let mut i: usize = 0;
    while i < v.len()
        invariant
            i <= v.len(),
            s@ == start + v@.take(i as int),
        decreases v.len() - i,
    {
        push_char(s, v[i]);
        assert(v@.take(i as int).push(v@[i as int]) =~= v@.take((i + 1) as int));
        i = i + 1;
    }
    assert(v@.take(v.len() as int) =~= v@);
}

/// Appends a string slice to a string.
pub fn push_str(s: &mut String, t: &str)
    ensures
        final(s)@ == old(s)@ + t@,
{
    let v = chars_of(t);
    push_chars(s, &v);
}

} // verus!
