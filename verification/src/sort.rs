//! Stable insertion into sorted sequences, the building block of the sorts
//! used by the analyzers (by address, by size, by name).
use vstd::prelude::*;

verus! {

/// Inserts `x` into `s` after every element whose key is at most `key(x)`
/// and before the trailing run of elements whose key is greater: the step of
/// a stable insertion sort by ascending key.
pub open spec fn insert_by<T>(s: Seq<T>, x: T, key: spec_fn(T) -> int) -> Seq<T>
    decreases s.len(),
{
    if s.len() == 0 {
        seq![x]
    } else if key(s.last()) <= key(x) {
        s.push(x)
    } else {
        insert_by(s.drop_last(), x, key).push(s.last())
    }
}

/// Stable sort of `s` by ascending `key` (what `sort_by_key` computes).
pub open spec fn sort_by<T>(s: Seq<T>, key: spec_fn(T) -> int) -> Seq<T>
    decreases s.len(),
{
    if s.len() == 0 {
        Seq::empty()
    } else {
        insert_by(sort_by(s.drop_last(), key), s.last(), key)
    }
}

/// Whether `s` is in ascending order of `key`.
pub open spec fn sorted_by<T>(s: Seq<T>, key: spec_fn(T) -> int) -> bool {
    forall|i: int, j: int| 0 <= i <= j < s.len() ==> key(s[i]) <= key(s[j])
}

/// The inserted position: `insert_by` places `x` at index `j`, where every
/// element from `j` on has a greater key and the one before it does not.
pub proof fn lemma_insert_by_at<T>(s: Seq<T>, x: T, key: spec_fn(T) -> int, j: int)
    requires
        0 <= j <= s.len(),
        forall|k: int| j <= k < s.len() ==> key(#[trigger] s[k]) > key(x),
        j == 0 || key(s[j - 1]) <= key(x),
    ensures
        insert_by(s, x, key) == s.take(j).push(x) + s.skip(j),
    decreases s.len(),
{
    if s.len() == 0 {
        assert(s.take(j).push(x) + s.skip(j) =~= seq![x]);
    } else if j == s.len() {
        assert(s.take(j).push(x) + s.skip(j) =~= s.push(x));
    } else {
        assert(key(s.last()) > key(x));
        lemma_insert_by_at(s.drop_last(), x, key, j);
        assert(s.drop_last().take(j).push(x) + s.drop_last().skip(j) + seq![s.last()] =~= s.take(
            j,
        ).push(x) + s.skip(j));
    }
}

/// Insertion keeps a sorted sequence sorted.
pub proof fn lemma_insert_by_sorted<T>(s: Seq<T>, x: T, key: spec_fn(T) -> int)
    requires
        sorted_by(s, key),
    ensures
        sorted_by(insert_by(s, x, key), key),
        insert_by(s, x, key).len() == s.len() + 1,
        insert_by(s, x, key).to_multiset() == s.to_multiset().insert(x),
    decreases s.len(),
{
    broadcast use vstd::seq_lib::group_to_multiset_ensures;

    if s.len() == 0 {
        assert(seq![x] =~= Seq::<T>::empty().push(x));
    } else if key(s.last()) <= key(x) {
    } else {
        assert(s.drop_last().push(s.last()) =~= s);
        lemma_insert_by_sorted(s.drop_last(), x, key);
        let t = insert_by(s.drop_last(), x, key);
        assert forall|i: int, j: int| 0 <= i <= j < t.push(s.last()).len() implies key(
            t.push(s.last())[i],
        ) <= key(t.push(s.last())[j]) by {
            if j == t.len() && i < t.len() {
                let e = t[i];
                assert(t.to_multiset().count(e) > 0);
                assert(t.contains(e));
                assert(s.drop_last().to_multiset().insert(x).count(e) > 0);
                if e != x {
                    assert(s.drop_last().to_multiset().count(e) > 0);
                    assert(s.drop_last().contains(e));
                    let k = choose|k: int| 0 <= k < s.drop_last().len() && s.drop_last()[k] == e;
                    assert(s[k] == e);
                }
            }
        }
    }
}

/// `sort_by` gives an ascending permutation of its input.
pub proof fn lemma_sort_by_sorted<T>(s: Seq<T>, key: spec_fn(T) -> int)
    ensures
        sorted_by(sort_by(s, key), key),
        sort_by(s, key).len() == s.len(),
        sort_by(s, key).to_multiset() == s.to_multiset(),
    decreases s.len(),
{
    broadcast use vstd::seq_lib::group_to_multiset_ensures;

    if s.len() > 0 {
        lemma_sort_by_sorted(s.drop_last(), key);
        lemma_insert_by_sorted(sort_by(s.drop_last(), key), s.last(), key);
        assert(s.drop_last().push(s.last()) =~= s);
    }
}

/// Elements of `s` with equal keys come in increasing `idx`.
pub open spec fn stable_in<T>(s: Seq<T>, key: spec_fn(T) -> int, idx: spec_fn(T) -> int) -> bool {
    forall|i: int, j: int|
        0 <= i < j < s.len() && key(#[trigger] s[i]) == key(#[trigger] s[j]) ==> idx(s[i]) < idx(
            s[j],
        )
}

/// `idx` increases along `s`.
pub open spec fn increasing_in<T>(s: Seq<T>, idx: spec_fn(T) -> int) -> bool {
    forall|i: int, j: int| 0 <= i < j < s.len() ==> idx(#[trigger] s[i]) < idx(#[trigger] s[j])
}

proof fn lemma_insert_by_multiset<T>(t: Seq<T>, x: T, key: spec_fn(T) -> int)
    ensures
        insert_by(t, x, key).to_multiset() =~= t.to_multiset().insert(x),
    decreases t.len(),
{
    broadcast use vstd::seq_lib::group_to_multiset_ensures;

    if t.len() == 0 {
        assert(seq![x] =~= Seq::<T>::empty().push(x));
    } else if key(t.last()) <= key(x) {
    } else {
        lemma_insert_by_multiset(t.drop_last(), x, key);
        assert(t.drop_last().push(t.last()) =~= t);
    }
}

proof fn lemma_insert_by_stable<T>(t: Seq<T>, x: T, key: spec_fn(T) -> int, idx: spec_fn(T) -> int)
    requires
        stable_in(t, key, idx),
        forall|k: int| 0 <= k < t.len() ==> idx(#[trigger] t[k]) < idx(x),
    ensures
        stable_in(insert_by(t, x, key), key, idx),
    decreases t.len(),
{
    broadcast use vstd::seq_lib::group_to_multiset_ensures;

    if t.len() == 0 {
    } else if key(t.last()) <= key(x) {
        let r = t.push(x);
        assert forall|i: int, j: int|
            0 <= i < j < r.len() && key(#[trigger] r[i]) == key(#[trigger] r[j]) implies idx(r[i])
            < idx(r[j]) by {
            if j == t.len() {
                assert(r[i] == t[i]);
            } else {
                assert(r[i] == t[i] && r[j] == t[j]);
            }
        }
    } else {
        let d = t.drop_last();
        assert forall|i: int, j: int|
            0 <= i < j < d.len() && key(#[trigger] d[i]) == key(#[trigger] d[j]) implies idx(d[i])
            < idx(d[j]) by {
            assert(d[i] == t[i] && d[j] == t[j]);
        }
        assert forall|k: int| 0 <= k < d.len() implies idx(#[trigger] d[k]) < idx(x) by {
            assert(d[k] == t[k]);
        }
        lemma_insert_by_stable(d, x, key, idx);
        lemma_insert_by_multiset(d, x, key);
        let u = insert_by(d, x, key);
        let r = u.push(t.last());
        assert forall|i: int, j: int|
            0 <= i < j < r.len() && key(#[trigger] r[i]) == key(#[trigger] r[j]) implies idx(r[i])
            < idx(r[j]) by {
            if j == u.len() {
                let e = u[i];
                assert(r[i] == e);
                assert(u.to_multiset().count(e) > 0);
                if e == x {
                    assert(key(x) < key(t.last()));
                } else {
                    assert(d.to_multiset().count(e) > 0);
                    assert(d.contains(e));
                    let m = choose|m: int| 0 <= m < d.len() && d[m] == e;
                    assert(t[m] == e);
                    assert(t[t.len() - 1] == t.last());
                }
            } else {
                assert(r[i] == u[i] && r[j] == u[j]);
            }
        }
    }
}

/// `sort_by` is stable: elements with equal keys keep their input order.
pub proof fn lemma_sort_by_stable<T>(s: Seq<T>, key: spec_fn(T) -> int, idx: spec_fn(T) -> int)
    requires
        increasing_in(s, idx),
    ensures
        stable_in(sort_by(s, key), key, idx),
    decreases s.len(),
{
    broadcast use vstd::seq_lib::group_to_multiset_ensures;

    if s.len() > 0 {
        let d = s.drop_last();
        assert forall|i: int, j: int| 0 <= i < j < d.len() implies idx(#[trigger] d[i]) < idx(
            #[trigger] d[j],
        ) by {
            assert(d[i] == s[i] && d[j] == s[j]);
        }
        lemma_sort_by_stable(d, key, idx);
        lemma_sort_by_sorted(d, key);
        let t = sort_by(d, key);
        assert forall|k: int| 0 <= k < t.len() implies idx(#[trigger] t[k]) < idx(s.last()) by {
            let e = t[k];
            assert(t.to_multiset().count(e) > 0);
            assert(d.contains(e));
            let m = choose|m: int| 0 <= m < d.len() && d[m] == e;
            assert(s[m] == e);
            assert(s[s.len() - 1] == s.last());
        }
        lemma_insert_by_stable(t, s.last(), key, idx);
    }
}

} // verus!
