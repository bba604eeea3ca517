//! Orderings: text compared character by character, and stable sorting.
use vstd::prelude::*;
use crate::text::chars_of;

verus! {

/// `a` sorts before `b`, comparing characters by code point; a proper
/// prefix sorts first (the order `str` comparison gives).
pub open spec fn lex_less(a: Seq<char>, b: Seq<char>) -> bool
    decreases a.len(),
{
    if a.len() == 0 {
        b.len() > 0
    } else if b.len() == 0 {
        false
    } else if a[0] != b[0] {
        (a[0] as u32) < (b[0] as u32)
    } else {
        lex_less(a.drop_first(), b.drop_first())
    }
}

/// Whether `a` sorts before `b` as text.
pub fn str_less(a: &str, b: &str) -> (r: bool)
    ensures
        r == lex_less(a@, b@),
{
    let x = chars_of(a);
    let y = chars_of(b);
    let mut i: usize = 0;
    assert(x@.skip(0) =~= x@);
    assert(y@.skip(0) =~= y@);
    while i < x.len() && i < y.len() && x[i] == y[i]
        invariant
            i <= x@.len(),
            i <= y@.len(),
            lex_less(a@, b@) == lex_less(x@.skip(i as int), y@.skip(i as int)),
            x@ == a@,
            y@ == b@,
        decreases x.len() - i,
    {
        assert(x@.skip(i as int).drop_first() =~= x@.skip(i + 1));
        assert(y@.skip(i as int).drop_first() =~= y@.skip(i + 1));
        i = i + 1;
    }
    if i == x.len() {
        i < y.len()
    } else if i == y.len() {
        false
    } else {
        (x[i] as u32) < (y[i] as u32)
    }
}

/// Where a stable insertion puts `x` in the sorted `s`, looking from `k`:
/// before the first element that `x` strictly precedes.
pub open spec fn insert_point<T>(s: Seq<T>, x: T, before: spec_fn(T, T) -> bool, k: int) -> int
    decreases s.len() - k,
{
    if k < 0 || k >= s.len() {
        s.len() as int
    } else if before(x, s[k]) {
        k
    } else {
        insert_point(s, x, before, k + 1)
    }
}

/// The stable sort of `s` by the strict order `before`, built by insertion.
pub open spec fn sorted_by<T>(s: Seq<T>, before: spec_fn(T, T) -> bool) -> Seq<T>
    decreases s.len(),
{
    if s.len() == 0 {
        Seq::empty()
    } else {
        let t = sorted_by(s.drop_last(), before);
        t.insert(insert_point(t, s.last(), before, 0), s.last())
    }
}

pub proof fn lemma_insert_point_bounds<T>(s: Seq<T>, x: T, before: spec_fn(T, T) -> bool, k: int)
    requires
        0 <= k <= s.len(),
    ensures
        k <= insert_point(s, x, before, k) <= s.len(),
    decreases s.len() - k,
{
    if k < s.len() && !before(x, s[k]) {
        lemma_insert_point_bounds(s, x, before, k + 1);
    }
}

pub proof fn lemma_sorted_len<T>(s: Seq<T>, before: spec_fn(T, T) -> bool)
    ensures
        sorted_by(s, before).len() == s.len(),
    decreases s.len(),
{
    if s.len() > 0 {
        lemma_sorted_len(s.drop_last(), before);
        let t = sorted_by(s.drop_last(), before);
        lemma_insert_point_bounds(t, s.last(), before, 0);
    }
}

/// Sorts stably by `less`, which decides the strict order `before`.
pub fn sort_by_before<T, F: Fn(&T, &T) -> bool>(
    v: Vec<T>,
    less: F,
    Ghost(before): Ghost<spec_fn(T, T) -> bool>,
) -> (r: Vec<T>)
    requires
        forall|a: &T, b: &T| #[trigger] less.requires((a, b)),
        forall|a: &T, b: &T, r: bool| less.ensures((a, b), r) ==> r == before(*a, *b),
    ensures
        r@ == sorted_by(v@, before),
{
    let ghost orig = v@;
    let ghost n = orig.len();
    let mut rest = crate::actions::reversed(v);
    let mut out: Vec<T> = Vec::new();
    while rest.len() > 0
        invariant
            rest@.len() <= n,
            n == orig.len(),
            rest@ == orig.subrange(n - rest@.len(), n as int).reverse(),
            out@ == sorted_by(orig.take(n - rest@.len()), before),
            forall|a: &T, b: &T| #[trigger] less.requires((a, b)),
            forall|a: &T, b: &T, r: bool| less.ensures((a, b), r) ==> r == before(*a, *b),
        decreases rest.len(),
    {
        let ghost m = n - rest@.len();
        let ghost before_rest = rest@;
        let x = rest.pop().unwrap();
        assert(before_rest =~= rest@.push(x));
        assert(x == orig[m]) by {
            assert(before_rest.last() == orig.subrange(m, n as int).reverse().last());
        }
        assert(rest@ =~= orig.subrange(m + 1, n as int).reverse());
        assert(orig.take(m + 1).drop_last() =~= orig.take(m));
        let mut k: usize = 0;
        while k < out.len()
            invariant
                k <= out@.len(),
                insert_point(out@, x, before, 0) == insert_point(out@, x, before, k as int),
                forall|a: &T, b: &T| #[trigger] less.requires((a, b)),
                forall|a: &T, b: &T, r: bool| less.ensures((a, b), r) ==> r == before(*a, *b),
            ensures
                k <= out@.len(),
                insert_point(out@, x, before, 0) == k,
            decreases out.len() - k,
        {
            if less(&x, &out[k]) {
                break;
            }
            k = k + 1;
        }
        assert(orig.take(m + 1).last() == x);
        out.insert(k, x);
    }
    assert(orig.take(n as int) =~= orig);
    out
}

proof fn lemma_insert_point_map<T, U>(
    s: Seq<T>,
    x: T,
    bt: spec_fn(T, T) -> bool,
    m: spec_fn(T) -> U,
    bu: spec_fn(U, U) -> bool,
    k: int,
)
    requires
        forall|a: T, b: T| #[trigger] bt(a, b) == bu(m(a), m(b)),
    ensures
        insert_point(s, x, bt, k) == insert_point(s.map_values(m), m(x), bu, k),
    decreases s.len() - k,
{
    if 0 <= k < s.len() {
        assert(s.map_values(m)[k] == m(s[k]));
        assert(bt(x, s[k]) == bu(m(x), m(s[k])));
        if !bt(x, s[k]) {
            lemma_insert_point_map(s, x, bt, m, bu, k + 1);
        }
    }
}

/// Sorting commutes with a map when the order only looks at mapped values.
pub proof fn lemma_sorted_map<T, U>(s: Seq<T>, bt: spec_fn(T, T) -> bool, m: spec_fn(T) -> U, bu: spec_fn(U, U) -> bool)
    requires
        forall|a: T, b: T| #[trigger] bt(a, b) == bu(m(a), m(b)),
    ensures
        sorted_by(s, bt).map_values(m) == sorted_by(s.map_values(m), bu),
    decreases s.len(),
{
    if s.len() > 0 {
        lemma_sorted_map(s.drop_last(), bt, m, bu);
        let t = sorted_by(s.drop_last(), bt);
        assert(s.map_values(m).drop_last() =~= s.drop_last().map_values(m));
        assert(s.map_values(m).last() == m(s.last()));
        lemma_insert_point_map(t, s.last(), bt, m, bu, 0);
        lemma_insert_point_bounds(t, s.last(), bt, 0);
        let p = insert_point(t, s.last(), bt, 0);
        assert(t.insert(p, s.last()).map_values(m) =~= t.map_values(m).insert(p, m(s.last())));
    } else {
        assert(sorted_by(s, bt).map_values(m) =~= Seq::<U>::empty());
    }
}

/// Law: a stable sort keeps exactly the elements it was given.
pub proof fn law_sorted_by_permutes<T>(s: Seq<T>, before: spec_fn(T, T) -> bool)
    ensures
        sorted_by(s, before).to_multiset() == s.to_multiset(),
    decreases s.len(),
{
    broadcast use vstd::multiset::group_multiset_axioms, vstd::seq_lib::group_to_multiset_ensures;

    if s.len() > 0 {
        law_sorted_by_permutes(s.drop_last(), before);
        let t = sorted_by(s.drop_last(), before);
        let x = s.last();
        let p = insert_point(t, x, before, 0);
        lemma_insert_point_bounds(t, x, before, 0);
        assert(t.insert(p, x) =~= t.take(p) + seq![x] + t.skip(p));
        assert(t =~= t.take(p) + t.skip(p));
        vstd::seq_lib::lemma_multiset_commutative(t.take(p) + seq![x], t.skip(p));
        vstd::seq_lib::lemma_multiset_commutative(t.take(p), seq![x]);
        vstd::seq_lib::lemma_multiset_commutative(t.take(p), t.skip(p));
        assert(s =~= s.drop_last().push(x));
    }
}

/// The elements are ordered by `key`, largest first.
pub open spec fn descending_by<T>(s: Seq<T>, key: spec_fn(T) -> int) -> bool {
    forall|i: int, j: int| 0 <= i < j < s.len() ==> key(s[i]) >= key(s[j])
}

proof fn lemma_insert_point_split<T>(t: Seq<T>, x: T, before: spec_fn(T, T) -> bool, key: spec_fn(T) -> int, k: int)
    requires
        descending_by(t, key),
        forall|a: T, b: T| #[trigger] before(a, b) == (key(a) > key(b)),
        0 <= k <= t.len(),
        forall|j: int| 0 <= j < k ==> key(#[trigger] t[j]) >= key(x),
    ensures
        forall|j: int| 0 <= j < insert_point(t, x, before, k) ==> key(#[trigger] t[j]) >= key(x),
        forall|j: int| insert_point(t, x, before, k) <= j < t.len() ==> key(#[trigger] t[j]) < key(x),
    decreases t.len() - k,
{
    if k < t.len() {
        if before(x, t[k]) {
            assert forall|j: int| k <= j < t.len() implies key(#[trigger] t[j]) < key(x) by {
                assert(key(t[k]) >= key(t[j]));
            }
        } else {
            lemma_insert_point_split(t, x, before, key, k + 1);
        }
    }
}

/// Law: sorting by "larger key first" leaves the elements ordered by key,
/// largest first.
pub proof fn law_sorted_by_key_descending<T>(s: Seq<T>, before: spec_fn(T, T) -> bool, key: spec_fn(T) -> int)
    requires
        forall|a: T, b: T| #[trigger] before(a, b) == (key(a) > key(b)),
    ensures
        descending_by(sorted_by(s, before), key),
    decreases s.len(),
{
    if s.len() > 0 {
        law_sorted_by_key_descending(s.drop_last(), before, key);
        let t = sorted_by(s.drop_last(), before);
        let x = s.last();
        lemma_insert_point_split(t, x, before, key, 0);
        lemma_insert_point_bounds(t, x, before, 0);
        let p = insert_point(t, x, before, 0);
        let r = t.insert(p, x);
        assert forall|i: int, j: int| 0 <= i < j < r.len() implies key(r[i]) >= key(r[j]) by {
            if j < p {
                assert(r[i] == t[i] && r[j] == t[j]);
            } else if j == p {
                assert(r[i] == t[i]);
            } else if i < p {
                assert(r[i] == t[i] && r[j] == t[j - 1]);
            } else if i == p {
                assert(r[j] == t[j - 1]);
            } else {
                assert(r[i] == t[i - 1] && r[j] == t[j - 1]);
            }
        }
    }
}

} // verus!
