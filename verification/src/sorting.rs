//! Stable ordering: the mathematical meaning of a stable sort by a
//! comparator, and the facts about it that the rest of the crate relies on.

use vstd::prelude::*;

verus! {

broadcast use vstd::seq_lib::group_seq_properties, vstd::seq::group_seq_axioms;

/// Places `x` behind the trailing run of `s` whose elements are not at most `x`:
/// one step of a stable insertion sort that walks from the back.
pub open spec fn insert_back<T>(s: Seq<T>, x: T, le: spec_fn(T, T) -> bool) -> Seq<T>
    decreases s.len(),
{
    if s.len() == 0 {
        seq![x]
    } else if le(s.last(), x) {
        s.push(x)
    } else {
        insert_back(s.drop_last(), x, le).push(s.last())
    }
}

/// The stable sort of `s` by `le`: every element goes after all earlier
/// elements that are at most it, so elements that compare equal keep
/// their original order.
pub open spec fn stable_sort<T>(s: Seq<T>, le: spec_fn(T, T) -> bool) -> Seq<T>
    decreases s.len(),
{
    if s.len() == 0 {
        s
    } else {
        insert_back(stable_sort(s.drop_last(), le), s.last(), le)
    }
}

/// `s` is ordered by `le`.
pub open spec fn sorted_by<T>(s: Seq<T>, le: spec_fn(T, T) -> bool) -> bool {
    forall|i: int, j: int| 0 <= i < j < s.len() ==> #[trigger] le(s[i], s[j])
}

/// `le` is total and transitive.
pub open spec fn total_preorder<T>(le: spec_fn(T, T) -> bool) -> bool {
    &&& forall|a: T, b: T| #[trigger] le(a, b) || le(b, a)
    &&& forall|a: T, b: T, c: T| #[trigger] le(a, b) && #[trigger] le(b, c) ==> le(a, c)
}

pub proof fn lemma_insert_back_len<T>(s: Seq<T>, x: T, le: spec_fn(T, T) -> bool)
    ensures
        insert_back(s, x, le).len() == s.len() + 1,
    decreases s.len(),
{
    if s.len() > 0 && !le(s.last(), x) {
        lemma_insert_back_len(s.drop_last(), x, le);
    }
}

pub proof fn lemma_stable_sort_len<T>(s: Seq<T>, le: spec_fn(T, T) -> bool)
    ensures
        stable_sort(s, le).len() == s.len(),
    decreases s.len(),
{
    if s.len() > 0 {
        lemma_stable_sort_len(s.drop_last(), le);
        lemma_insert_back_len(stable_sort(s.drop_last(), le), s.last(), le);
    }
}

pub proof fn lemma_insert_back_multiset<T>(s: Seq<T>, x: T, le: spec_fn(T, T) -> bool)
    ensures
        insert_back(s, x, le).to_multiset() =~= s.to_multiset().insert(x),
    decreases s.len(),
{
    broadcast use vstd::multiset::group_multiset_axioms;

    if s.len() == 0 {
        assert(seq![x] == s.push(x));
    } else if le(s.last(), x) {
    } else {
        let t = s.drop_last();
        lemma_insert_back_multiset(t, x, le);
        assert(s == t.push(s.last()));
    }
}

/// Sorting only reorders: the result holds the same elements, each as often.
pub proof fn lemma_stable_sort_permutation<T>(s: Seq<T>, le: spec_fn(T, T) -> bool)
    ensures
        stable_sort(s, le).to_multiset() =~= s.to_multiset(),
    decreases s.len(),
{
    broadcast use vstd::multiset::group_multiset_axioms;

    if s.len() > 0 {
        let t = s.drop_last();
        lemma_stable_sort_permutation(t, le);
        lemma_insert_back_multiset(stable_sort(t, le), s.last(), le);
        assert(s == t.push(s.last()));
    }
}

proof fn lemma_insert_back_contents<T>(s: Seq<T>, x: T, le: spec_fn(T, T) -> bool, y: T)
    ensures
        insert_back(s, x, le).contains(y) <==> (s.contains(y) || y == x),
{
    broadcast use vstd::multiset::group_multiset_axioms;

    lemma_insert_back_multiset(s, x, le);
    s.to_multiset_ensures();
    insert_back(s, x, le).to_multiset_ensures();
    let m = s.to_multiset();
    assert(insert_back(s, x, le).to_multiset().count(y) == m.insert(x).count(y));
}

proof fn lemma_insert_back_sorted<T>(s: Seq<T>, x: T, le: spec_fn(T, T) -> bool)
    requires
        total_preorder(le),
        sorted_by(s, le),
    ensures
        sorted_by(insert_back(s, x, le), le),
    decreases s.len(),
{
    if s.len() == 0 {
    } else if le(s.last(), x) {
        let r = s.push(x);
        assert forall|i: int, j: int| 0 <= i < j < r.len() implies #[trigger] le(r[i], r[j]) by {
            if j == s.len() {
                if i < s.len() - 1 {
                    assert(le(s[i], s[s.len() - 1]));
                }
            }
        }
    } else {
        let t = s.drop_last();
        let y = s.last();
        assert(le(x, y));
        lemma_insert_back_sorted(t, x, le);
        let u = insert_back(t, x, le);
        lemma_insert_back_len(t, x, le);
        let r = u.push(y);
        assert forall|i: int, j: int| 0 <= i < j < r.len() implies #[trigger] le(r[i], r[j]) by {
            if j == u.len() {
                lemma_insert_back_contents(t, x, le, u[i]);
                assert(u.contains(u[i]));
                if u[i] != x {
                    let k = choose|k: int| 0 <= k < t.len() && t[k] == u[i];
                    assert(le(s[k], s[s.len() - 1]));
                }
            }
        }
    }
}

/// With a total preorder, the stable sort is ordered.
pub proof fn lemma_stable_sort_sorted<T>(s: Seq<T>, le: spec_fn(T, T) -> bool)
    requires
        total_preorder(le),
    ensures
        sorted_by(stable_sort(s, le), le),
    decreases s.len(),
{
    if s.len() > 0 {
        lemma_stable_sort_sorted(s.drop_last(), le);
        lemma_insert_back_sorted(stable_sort(s.drop_last(), le), s.last(), le);
    }
}

/// A sequence that is already ordered is left as it is.
pub proof fn lemma_stable_sort_of_sorted<T>(s: Seq<T>, le: spec_fn(T, T) -> bool)
    requires
        sorted_by(s, le),
    ensures
        stable_sort(s, le) == s,
    decreases s.len(),
{
    if s.len() > 0 {
        let t = s.drop_last();
        assert(sorted_by(t, le)) by {
            assert forall|i: int, j: int| 0 <= i < j < t.len() implies #[trigger] le(t[i], t[j]) by {
                assert(le(s[i], s[j]));
            }
        }
        lemma_stable_sort_of_sorted(t, le);
        if t.len() > 0 {
            assert(le(s[t.len() - 1], s[s.len() - 1]));
        }
        assert(t.push(s.last()) == s);
    }
}

/// Sorting twice gives what sorting once gives.
pub proof fn lemma_stable_sort_idempotent<T>(s: Seq<T>, le: spec_fn(T, T) -> bool)
    requires
        total_preorder(le),
    ensures
        stable_sort(stable_sort(s, le), le) == stable_sort(s, le),
{
    lemma_stable_sort_sorted(s, le);
    lemma_stable_sort_of_sorted(stable_sort(s, le), le);
}

proof fn lemma_insert_back_map<T, U>(
    s: Seq<T>,
    x: T,
    le: spec_fn(T, T) -> bool,
    f: spec_fn(T) -> U,
    leu: spec_fn(U, U) -> bool,
)
    requires
        forall|a: T, b: T| #[trigger] leu(f(a), f(b)) == le(a, b),
    ensures
        insert_back(s.map_values(f), f(x), leu) == insert_back(s, x, le).map_values(f),
    decreases s.len(),
{
    let m = s.map_values(f);
    if s.len() == 0 {
        assert(insert_back(s, x, le).map_values(f) =~= seq![f(x)]);
    } else {
        assert(m.last() == f(s.last()));
        assert(leu(f(s.last()), f(x)) == le(s.last(), x));
        if le(s.last(), x) {
            assert(s.push(x).map_values(f) =~= m.push(f(x)));
        } else {
            let t = s.drop_last();
            lemma_insert_back_map(t, x, le, f, leu);
            assert(m.drop_last() =~= t.map_values(f));
            let u = insert_back(t, x, le);
            assert(u.push(s.last()).map_values(f) =~= u.map_values(f).push(f(s.last())));
        }
    }
}

/// Changing every element in a way that keeps how elements compare
/// commutes with sorting.
pub proof fn lemma_stable_sort_map<T, U>(
    s: Seq<T>,
    le: spec_fn(T, T) -> bool,
    f: spec_fn(T) -> U,
    leu: spec_fn(U, U) -> bool,
)
    requires
        forall|a: T, b: T| #[trigger] leu(f(a), f(b)) == le(a, b),
    ensures
        stable_sort(s.map_values(f), leu) == stable_sort(s, le).map_values(f),
    decreases s.len(),
{
    if s.len() > 0 {
        let t = s.drop_last();
        lemma_stable_sort_map(t, le, f, leu);
        assert(s.map_values(f).drop_last() =~= t.map_values(f));
        lemma_insert_back_map(stable_sort(t, le), s.last(), le, f, leu);
    }
}

proof fn lemma_filter_push<T>(s: Seq<T>, p: spec_fn(T) -> bool, x: T)
    ensures
        s.push(x).filter(p) == if p(x) { s.filter(p).push(x) } else { s.filter(p) },
{
    reveal(Seq::filter);
    assert(s.push(x).drop_last() == s);
}

proof fn lemma_insert_back_filter_out<T>(s: Seq<T>, x: T, le: spec_fn(T, T) -> bool, p: spec_fn(T) -> bool)
    requires
        !p(x),
    ensures
        insert_back(s, x, le).filter(p) == s.filter(p),
    decreases s.len(),
{
    if s.len() == 0 {
        lemma_filter_push(s, p, x);
    } else if le(s.last(), x) {
        lemma_filter_push(s, p, x);
    } else {
        let t = s.drop_last();
        lemma_insert_back_filter_out(t, x, le, p);
        lemma_filter_push(insert_back(t, x, le), p, s.last());
        lemma_filter_push(t, p, s.last());
        assert(t.push(s.last()) == s);
    }
}

proof fn lemma_filter_last_le<T>(s: Seq<T>, p: spec_fn(T) -> bool, y: T, le: spec_fn(T, T) -> bool)
    requires
        forall|i: int| 0 <= i < s.len() ==> #[trigger] le(s[i], y),
        s.filter(p).len() > 0,
    ensures
        le(s.filter(p).last(), y),
{
    let f = s.filter(p);
    s.lemma_filter_contains_rev(p, f.last());
    assert(f.contains(f.last()));
    assert(s.contains(f.last()));
}

proof fn lemma_insert_back_filter_in<T>(s: Seq<T>, x: T, le: spec_fn(T, T) -> bool, p: spec_fn(T) -> bool)
    requires
        p(x),
        total_preorder(le),
        sorted_by(s, le),
    ensures
        insert_back(s.filter(p), x, le) == insert_back(s, x, le).filter(p),
    decreases s.len(),
{
    if s.len() == 0 {
        lemma_filter_push(s, p, x);
        assert(s.filter(p) =~= Seq::<T>::empty()) by {
            reveal(Seq::filter);
        }
        assert(s.push(x) =~= seq![x]);
        assert(Seq::<T>::empty().push(x) =~= seq![x]);
    } else {
        let t = s.drop_last();
        let y = s.last();
        assert(t.push(y) == s);
        lemma_filter_push(t, p, y);
        assert(sorted_by(t, le)) by {
            assert forall|i: int, j: int| 0 <= i < j < t.len() implies #[trigger] le(t[i], t[j]) by {
                assert(le(s[i], s[j]));
            }
        }
        let f = t.filter(p);
        if le(y, x) {
            lemma_filter_push(s, p, x);
            assert(insert_back(s, x, le) == s.push(x));
            if p(y) {
                assert(f.push(y).last() == y);
                assert(insert_back(f.push(y), x, le) == f.push(y).push(x));
            } else {
                if f.len() > 0 {
                    assert forall|i: int| 0 <= i < t.len() implies #[trigger] le(t[i], x) by {
                        assert(le(s[i], s[s.len() - 1]));
                    }
                    lemma_filter_last_le(t, p, x, le);
                    assert(insert_back(f, x, le) == f.push(x));
                } else {
                    assert(f.push(x) =~= seq![x]);
                }
            }
        } else {
            lemma_insert_back_filter_in(t, x, le, p);
            lemma_filter_push(insert_back(t, x, le), p, y);
            assert(insert_back(s, x, le) == insert_back(t, x, le).push(y));
            if p(y) {
                assert(f.push(y).drop_last() == f);
                assert(f.push(y).last() == y);
                assert(insert_back(f.push(y), x, le) == insert_back(f, x, le).push(y));
            }
        }
    }
}

/// Removing the elements that fail a test commutes with sorting.
pub proof fn lemma_stable_sort_filter<T>(s: Seq<T>, le: spec_fn(T, T) -> bool, p: spec_fn(T) -> bool)
    requires
        total_preorder(le),
    ensures
        stable_sort(s.filter(p), le) == stable_sort(s, le).filter(p),
    decreases s.len(),
{
    if s.len() == 0 {
        assert(s.filter(p) =~= s) by {
            reveal(Seq::filter);
        }
    } else {
        let t = s.drop_last();
        let x = s.last();
        assert(t.push(x) == s);
        lemma_stable_sort_filter(t, le, p);
        lemma_filter_push(t, p, x);
        if p(x) {
            assert(t.filter(p).push(x).drop_last() == t.filter(p));
            lemma_stable_sort_sorted(t, le);
            lemma_insert_back_filter_in(stable_sort(t, le), x, le, p);
        } else {
            lemma_insert_back_filter_out(stable_sort(t, le), x, le, p);
        }
    }
}

} // verus!
