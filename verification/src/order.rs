//! The order of strings and sorting by a text key.
//!
//! Strings are ordered as Rust orders `str`: lexicographically by bytes of
//! UTF-8, which is the same as lexicographically by code points.

use vstd::prelude::*;

use crate::text::chars_of;

verus! {

broadcast use vstd::seq_lib::group_seq_properties;

/// `a` comes strictly before `b`.
pub open spec fn text_lt(a: Seq<char>, b: Seq<char>) -> bool
    decreases a.len(),
{
    if a.len() == 0 {
        b.len() > 0
    } else if b.len() == 0 {
        false
    } else if a[0] != b[0] {
        a[0] < b[0]
    } else {
        text_lt(a.drop_first(), b.drop_first())
    }
}

pub proof fn lemma_text_lt_irreflexive(a: Seq<char>)
    ensures
        !text_lt(a, a),
    decreases a.len(),
{
    if a.len() > 0 {
        lemma_text_lt_irreflexive(a.drop_first());
    }
}

pub proof fn lemma_text_lt_transitive(a: Seq<char>, b: Seq<char>, c: Seq<char>)
    requires
        text_lt(a, b),
        text_lt(b, c),
    ensures
        text_lt(a, c),
    decreases a.len(),
{
    if a.len() > 0 && b.len() > 0 && c.len() > 0 && a[0] == b[0] && b[0] == c[0] {
        lemma_text_lt_transitive(a.drop_first(), b.drop_first(), c.drop_first());
    }
}

pub proof fn lemma_text_lt_total(a: Seq<char>, b: Seq<char>)
    ensures
        a == b || text_lt(a, b) || text_lt(b, a),
    decreases a.len(),
{
    if a.len() > 0 && b.len() > 0 && a[0] == b[0] {
        lemma_text_lt_total(a.drop_first(), b.drop_first());
        if a.drop_first() == b.drop_first() {
            assert(a =~= seq![a[0]] + a.drop_first());
            assert(b =~= seq![b[0]] + b.drop_first());
        }
    } else if a.len() == 0 && b.len() == 0 {
        assert(a =~= b);
    }
}

pub proof fn lemma_text_lt_asymmetric(a: Seq<char>, b: Seq<char>)
    requires
        text_lt(a, b),
    ensures
        !text_lt(b, a),
{
    if text_lt(b, a) {
        lemma_text_lt_transitive(a, b, a);
        lemma_text_lt_irreflexive(a);
    }
}

/// Texts are ordered as Rust orders `str`: after a common prefix, the text
/// whose next character has the smaller code point comes first, and a text
/// comes before every longer text that it begins.
pub proof fn lemma_text_lt_is_lexicographic(
    p: Seq<char>,
    c: char,
    d: char,
    s: Seq<char>,
    t: Seq<char>,
)
    ensures
        c != d ==> text_lt(p + seq![c] + s, p + seq![d] + t) == (c < d),
        text_lt(p, p + t) == (t.len() > 0),
        !text_lt(p + t, p),
    decreases p.len(),
{
    if p.len() == 0 {
        assert(p + seq![c] + s =~= seq![c] + s);
        assert(p + seq![d] + t =~= seq![d] + t);
        assert((seq![c] + s)[0] == c);
        assert((seq![d] + t)[0] == d);
        assert(p + t =~= t);
    } else {
        let q = p.drop_first();
        lemma_text_lt_is_lexicographic(q, c, d, s, t);
        assert((p + seq![c] + s)[0] == p[0]);
        assert((p + seq![d] + t)[0] == p[0]);
        assert((p + seq![c] + s).drop_first() =~= q + seq![c] + s);
        assert((p + seq![d] + t).drop_first() =~= q + seq![d] + t);
        assert((p + t)[0] == p[0]);
        assert((p + t).drop_first() =~= q + t);
    }
}

/// Whether `a` comes strictly before `b`.
pub fn text_less(a: &str, b: &str) -> (r: bool)
    ensures
        r == text_lt(a@, b@),
{
    let x = chars_of(a);
    let y = chars_of(b);
    let mut i: usize = 0;
    assert(x@.skip(0) =~= x@);
    assert(y@.skip(0) =~= y@);
    while i < x.len() && i < y.len()
        invariant
            x@ == a@,
            y@ == b@,
            i <= x.len(),
            i <= y.len(),
            text_lt(a@, b@) == text_lt(x@.skip(i as int), y@.skip(i as int)),
        decreases x.len() - i,
    {
        assert(x@.skip(i as int)[0] == x@[i as int]);
        assert(y@.skip(i as int)[0] == y@[i as int]);
        if x[i] != y[i] {
            return x[i] < y[i];
        }
        assert(x@.skip(i as int).drop_first() =~= x@.skip(i + 1));
        assert(y@.skip(i as int).drop_first() =~= y@.skip(i + 1));
        i = i + 1;
    }
    i < y.len()
}

/// Where `x` goes in `s`: before the first element whose key is greater.
pub open spec fn insert_point<T>(s: Seq<T>, x: T, key: spec_fn(T) -> Seq<char>) -> nat
    decreases s.len(),
{
    if s.len() == 0 {
        0
    } else if text_lt(key(x), key(s[0])) {
        0
    } else {
        1 + insert_point(s.drop_first(), x, key)
    }
}

/// `s` with `x` inserted before the first element whose key is greater.
pub open spec fn insert_by_key<T>(s: Seq<T>, x: T, key: spec_fn(T) -> Seq<char>) -> Seq<T> {
    s.insert(insert_point(s, x, key) as int, x)
}

/// `s` stably sorted by `key`: the elements are inserted one after the
/// other, each after the elements whose key is not greater.
pub open spec fn sort_by_key<T>(s: Seq<T>, key: spec_fn(T) -> Seq<char>) -> Seq<T>
    decreases s.len(),
{
    if s.len() == 0 {
        s
    } else {
        insert_by_key(sort_by_key(s.drop_last(), key), s.last(), key)
    }
}

/// The keys of `s` never decrease.
pub open spec fn sorted_by_key<T>(s: Seq<T>, key: spec_fn(T) -> Seq<char>) -> bool {
    forall|i: int, j: int| 0 <= i < j < s.len() ==> !text_lt(key(#[trigger] s[j]), key(#[trigger] s[i]))
}

/// Whether an element's key is `k`.
pub open spec fn key_is<T>(key: spec_fn(T) -> Seq<char>, k: Seq<char>) -> spec_fn(T) -> bool {
    |y: T| key(y) == k
}

/// The elements of `s` whose key is `k`, in order.
pub open spec fn with_key<T>(s: Seq<T>, key: spec_fn(T) -> Seq<char>, k: Seq<char>) -> Seq<T> {
    s.filter(key_is(key, k))
}

pub proof fn lemma_insert_point<T>(s: Seq<T>, x: T, key: spec_fn(T) -> Seq<char>)
    ensures
        insert_point(s, x, key) <= s.len(),
        forall|j: int|
            0 <= j < insert_point(s, x, key) ==> !text_lt(key(x), key(#[trigger] s[j])),
        insert_point(s, x, key) < s.len() ==> text_lt(
            key(x),
            key(s[insert_point(s, x, key) as int]),
        ),
    decreases s.len(),
{
    if s.len() > 0 && !text_lt(key(x), key(s[0])) {
        lemma_insert_point(s.drop_first(), x, key);
        assert forall|j: int| 0 <= j < insert_point(s, x, key) implies !text_lt(
            key(x),
            key(#[trigger] s[j]),
        ) by {
            if j > 0 {
                assert(s[j] == s.drop_first()[j - 1]);
            }
        }
    }
}

proof fn lemma_insert_keeps_sorted<T>(s: Seq<T>, x: T, key: spec_fn(T) -> Seq<char>)
    requires
        sorted_by_key(s, key),
    ensures
        sorted_by_key(insert_by_key(s, x, key), key),
{
    let p = insert_point(s, x, key) as int;
    lemma_insert_point(s, x, key);
    let t = insert_by_key(s, x, key);
    assert forall|i: int, j: int| 0 <= i < j < t.len() implies !text_lt(
        key(#[trigger] t[j]),
        key(#[trigger] t[i]),
    ) by {
        if i < p && j == p {
        } else if i == p && j > p {
            // x < s[p] <= s[j - 1]
            assert(t[j] == s[j - 1]);
            if j - 1 > p {
                assert(!text_lt(key(s[j - 1]), key(s[p])));
                lemma_text_lt_total(key(s[j - 1]), key(s[p]));
                if key(s[j - 1]) != key(s[p]) {
                    lemma_text_lt_transitive(key(x), key(s[p]), key(s[j - 1]));
                }
            }
            lemma_text_lt_asymmetric(key(x), key(s[j - 1]));
        } else if i < p && j > p {
            assert(t[i] == s[i] && t[j] == s[j - 1]);
        } else if j < p {
            assert(t[i] == s[i] && t[j] == s[j]);
        } else {
            assert(i > p);
            assert(t[i] == s[i - 1] && t[j] == s[j - 1]);
        }
    }
}

proof fn lemma_insert_with_key<T>(s: Seq<T>, x: T, key: spec_fn(T) -> Seq<char>, k: Seq<char>)
    requires
        sorted_by_key(s, key),
    ensures
        with_key(insert_by_key(s, x, key), key, k) == if key(x) == k {
            with_key(s, key, k).push(x)
        } else {
            with_key(s, key, k)
        },
{
    let p = insert_point(s, x, key) as int;
    lemma_insert_point(s, x, key);
    let pred = key_is(key, k);
    let a = s.take(p);
    let b = s.skip(p);
    assert(s =~= a + b);
    assert(insert_by_key(s, x, key) =~= a + seq![x] + b);
    Seq::filter_distributes_over_add(a + seq![x], b, pred);
    Seq::filter_distributes_over_add(a, seq![x], pred);
    Seq::filter_distributes_over_add(a, b, pred);
    reveal_with_fuel(Seq::filter, 2);
    if key(x) == k {
        assert forall|j: int| 0 <= j < b.len() implies !pred(#[trigger] b[j]) by {
            assert(b[j] == s[p + j]);
            if j > 0 {
                assert(!text_lt(key(s[p + j]), key(s[p])));
                lemma_text_lt_total(key(s[p + j]), key(s[p]));
                if key(s[p + j]) != key(s[p]) {
                    lemma_text_lt_transitive(key(x), key(s[p]), key(s[p + j]));
                }
            }
            lemma_text_lt_irreflexive(key(x));
        }
        assert(b.all(|y: T| !pred(y)));
        b.lemma_all_neg_filter_empty(pred);
        assert(b.filter(pred) =~= Seq::<T>::empty());
        assert(seq![x].filter(pred) =~= seq![x]);
        assert(with_key(insert_by_key(s, x, key), key, k) =~= a.filter(pred) + seq![x]);
        assert(with_key(s, key, k) =~= a.filter(pred));
    } else {
        assert(seq![x].filter(pred) =~= Seq::<T>::empty());
        assert(with_key(insert_by_key(s, x, key), key, k) =~= a.filter(pred) + b.filter(pred));
    }
}

/// Sorting keeps the length.
pub proof fn lemma_sort_by_key_len<T>(s: Seq<T>, key: spec_fn(T) -> Seq<char>)
    ensures
        sort_by_key(s, key).len() == s.len(),
    decreases s.len(),
{
    if s.len() > 0 {
        lemma_sort_by_key_len(s.drop_last(), key);
        lemma_insert_point(sort_by_key(s.drop_last(), key), s.last(), key);
    }
}

/// Sorting by key gives a sequence whose keys never decrease.
pub proof fn lemma_sort_by_key_sorted<T>(s: Seq<T>, key: spec_fn(T) -> Seq<char>)
    ensures
        sorted_by_key(sort_by_key(s, key), key),
    decreases s.len(),
{
    if s.len() > 0 {
        lemma_sort_by_key_sorted(s.drop_last(), key);
        lemma_insert_keeps_sorted(sort_by_key(s.drop_last(), key), s.last(), key);
    }
}

/// Sorting by key is stable: for every key, the elements with that key
/// come out in the order they came in. With sortedness, this determines
/// the result.
pub proof fn lemma_sort_by_key_stable<T>(s: Seq<T>, key: spec_fn(T) -> Seq<char>, k: Seq<char>)
    ensures
        with_key(sort_by_key(s, key), key, k) == with_key(s, key, k),
    decreases s.len(),
{
    if s.len() > 0 {
        let rest = s.drop_last();
        lemma_sort_by_key_stable(rest, key, k);
        lemma_sort_by_key_sorted(rest, key);
        lemma_insert_with_key(sort_by_key(rest, key), s.last(), key, k);
        assert(s =~= rest.push(s.last()));
        rest.lemma_filter_push(s.last(), key_is(key, k));
    }
}

/// Sorting by key keeps every element, as often as it occurs.
pub proof fn lemma_sort_by_key_permutes<T>(s: Seq<T>, key: spec_fn(T) -> Seq<char>)
    ensures
        sort_by_key(s, key).to_multiset() == s.to_multiset(),
    decreases s.len(),
{
    broadcast use vstd::seq_lib::group_to_multiset_ensures;

    if s.len() > 0 {
        let rest = s.drop_last();
        lemma_sort_by_key_permutes(rest, key);
        let sorted = sort_by_key(rest, key);
        lemma_insert_point(sorted, s.last(), key);
        vstd::seq_lib::to_multiset_insert(sorted, insert_point(sorted, s.last(), key) as int, s.last());
        assert(s =~= rest.push(s.last()));
    }
}

/// Two sequences sorted by a key, holding the same elements, are equal when
/// no key occurs twice: sorting by a key that tells all elements apart leaves
/// nothing to the order the elements came in.
pub proof fn lemma_sorted_unique<T>(a: Seq<T>, b: Seq<T>, key: spec_fn(T) -> Seq<char>)
    requires
        sorted_by_key(a, key),
        sorted_by_key(b, key),
        a.to_multiset() == b.to_multiset(),
        forall|i: int, j: int| 0 <= i < j < a.len() ==> key(#[trigger] a[i]) != key(#[trigger] a[j]),
    ensures
        a == b,
    decreases a.len(),
{
    broadcast use vstd::seq_lib::group_to_multiset_ensures;
    broadcast use vstd::multiset::group_multiset_axioms;

    assert(b.len() == a.len()) by {
        assert(a.to_multiset().len() == a.len());
        assert(b.to_multiset().len() == b.len());
    }
    if a.len() == 0 {
        assert(a =~= b);
    } else {
        let n = a.len() - 1;
        let x = a.last();
        let y = b.last();
        assert(a[n] == x);
        assert(a.contains(x));
        assert(b.to_multiset().count(x) > 0);
        let j = choose|j: int| 0 <= j < b.len() && b[j] == x;
        assert(b[n] == y);
        assert(b.contains(y));
        assert(a.to_multiset().count(y) > 0);
        let i = choose|i: int| 0 <= i < a.len() && a[i] == y;
        if j < n {
            assert(!text_lt(key(b[n]), key(b[j])));
        } else {
            lemma_text_lt_irreflexive(key(x));
        }
        if i < n {
            assert(!text_lt(key(a[n]), key(a[i])));
        } else {
            lemma_text_lt_irreflexive(key(x));
        }
        lemma_text_lt_total(key(x), key(y));
        assert(key(a[i]) == key(a[n]));
        assert(i == n);
        assert(y == x);
        let a0 = a.drop_last();
        let b0 = b.drop_last();
        assert(a =~= a0.push(x));
        assert(b =~= b0.push(x));
        assert(a0.to_multiset().insert(x) == b0.to_multiset().insert(x));
        assert(a0.to_multiset() =~= b0.to_multiset()) by {
            assert forall|v: T| #[trigger] a0.to_multiset().count(v) == b0.to_multiset().count(v) by {
                assert(a0.to_multiset().insert(x).count(v) == b0.to_multiset().insert(x).count(v));
            }
        }
        assert forall|p: int, q: int| 0 <= p < q < a0.len() implies key(#[trigger] a0[p]) != key(
            #[trigger] a0[q],
        ) by {
            assert(a0[p] == a[p] && a0[q] == a[q]);
        }
        assert forall|p: int, q: int| 0 <= p < q < a0.len() implies !text_lt(
            key(#[trigger] a0[q]),
            key(#[trigger] a0[p]),
        ) by {
            assert(a0[p] == a[p] && a0[q] == a[q]);
        }
        assert forall|p: int, q: int| 0 <= p < q < b0.len() implies !text_lt(
            key(#[trigger] b0[q]),
            key(#[trigger] b0[p]),
        ) by {
            assert(b0[p] == b[p] && b0[q] == b[q]);
        }
        lemma_sorted_unique(a0, b0, key);
    }
}

} // verus!
