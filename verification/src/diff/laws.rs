//! What holds of every comparison: which names get a row, what comparing a
//! layout with itself gives, and what swapping the two binaries does.
use vstd::prelude::*;

use crate::diff::analyzer::{
    RegionStatus, SectionStatus, is_last, modified_syms, new_syms, region_row_status,
    removed_syms, section_row_delta, section_row_status, size_in, sorted_modified, sorted_new,
    sorted_removed, sym_names, total_delta_of,
};
use crate::diff::compare::{Named, compare_rows, lookup, names_of, union_names};
use crate::diff::names::{distinct, insert_lex, last_index, sort_lex};
use crate::diff::analyzer::{SectionSymbolChanges, abs_key};
use crate::diff::summary::{change_rows, impact_key, ranked_rows};
use crate::models::SymbolV;
use crate::sort::lemma_sort_by_sorted;

verus! {

proof fn lemma_insert_lex_multiset(s: Seq<Seq<char>>, x: Seq<char>)
    ensures
        insert_lex(s, x).to_multiset() =~= s.to_multiset().insert(x),
    decreases s.len(),
{
    broadcast use vstd::seq_lib::group_to_multiset_ensures;

    if s.len() == 0 {
        assert(seq![x] =~= Seq::<Seq<char>>::empty().push(x));
    } else if !crate::diff::names::lex_le(s.last(), x) {
        lemma_insert_lex_multiset(s.drop_last(), x);
        assert(s.drop_last().push(s.last()) =~= s);
    }
}

proof fn lemma_sort_lex_multiset(s: Seq<Seq<char>>)
    ensures
        sort_lex(s).to_multiset() =~= s.to_multiset(),
    decreases s.len(),
{
    broadcast use vstd::seq_lib::group_to_multiset_ensures;

    if s.len() > 0 {
        lemma_sort_lex_multiset(s.drop_last());
        lemma_insert_lex_multiset(sort_lex(s.drop_last()), s.last());
        assert(s.drop_last().push(s.last()) =~= s);
    }
}

proof fn lemma_distinct(s: Seq<Seq<char>>, n: int)
    requires
        0 <= n <= s.len(),
    ensures
        distinct(s, n).no_duplicates(),
        forall|x: Seq<char>| #[trigger] distinct(s, n).contains(x) <==> s.take(n).contains(x),
    decreases n,
{
    if n > 0 {
        lemma_distinct(s, n - 1);
        let rest = distinct(s, n - 1);
        let t = s.take(n);
        let t1 = s.take(n - 1);
        assert forall|x: Seq<char>| #[trigger] distinct(s, n).contains(x) <==> t.contains(x) by {
            if t.contains(x) {
                let k = choose|k: int| 0 <= k < t.len() && t[k] == x;
                if k < n - 1 {
                    assert(t1[k] == x);
                    assert(rest.contains(x));
                    if !rest.contains(s[n - 1]) {
                        let j = choose|j: int| 0 <= j < rest.len() && rest[j] == x;
                        assert(rest.push(s[n - 1])[j] == x);
                    }
                } else {
                    assert(x == s[n - 1]);
                    if !rest.contains(s[n - 1]) {
                        assert(rest.push(s[n - 1])[rest.len() as int] == x);
                    }
                }
            }
            if distinct(s, n).contains(x) {
                if rest.contains(x) {
                    let j = choose|j: int| 0 <= j < t1.len() && t1[j] == x;
                    assert(t[j] == x);
                } else {
                    assert(!rest.contains(s[n - 1]));
                    let p = rest.push(s[n - 1]);
                    let j = choose|j: int| 0 <= j < p.len() && p[j] == x;
                    if j < rest.len() {
                        assert(rest[j] == x);
                    }
                    assert(x == s[n - 1]);
                    assert(t[n - 1] == x);
                }
            }
        }
        if !rest.contains(s[n - 1]) {
            let p = rest.push(s[n - 1]);
            assert forall|i: int, j: int| 0 <= i < p.len() && 0 <= j < p.len() && i != j implies p[i]
                != p[j] by {
                if i == rest.len() {
                    assert(rest[j] == p[j]);
                } else if j == rest.len() {
                    assert(rest[i] == p[i]);
                }
            }
        }
    } else {
        assert(s.take(0) =~= Seq::<Seq<char>>::empty());
    }
}

proof fn lemma_last_index_some(s: Seq<Seq<char>>, x: Seq<char>, n: int)
    requires
        0 <= n <= s.len(),
    ensures
        last_index(s, x, n) is Some <==> s.take(n).contains(x),
        last_index(s, x, n) matches Some(k) ==> 0 <= k < n && s[k] == x,
    decreases n,
{
    if n > 0 {
        lemma_last_index_some(s, x, n - 1);
        let t = s.take(n);
        let t1 = s.take(n - 1);
        if s[n - 1] == x {
            assert(t[n - 1] == x);
        } else {
            if t.contains(x) {
                let k = choose|k: int| 0 <= k < t.len() && t[k] == x;
                assert(t1[k] == x);
            }
            if t1.contains(x) {
                let k = choose|k: int| 0 <= k < t1.len() && t1[k] == x;
                assert(t[k] == x);
            }
        }
    } else {
        assert(s.take(0) =~= Seq::<Seq<char>>::empty());
    }
}

proof fn lemma_lookup_some(s: Seq<Named>, x: Seq<char>)
    ensures
        lookup(s, x) is Some <==> names_of(s).contains(x),
{
    lemma_last_index_some(names_of(s), x, s.len() as int);
    assert(names_of(s).take(s.len() as int) =~= names_of(s));
}

proof fn lemma_union_names(a: Seq<Named>, b: Seq<Named>)
    ensures
        union_names(a, b).no_duplicates(),
        forall|x: Seq<char>| #[trigger] union_names(a, b).contains(x) <==> (names_of(a).contains(x)
            || names_of(b).contains(x)),
{
    broadcast use vstd::seq_lib::group_to_multiset_ensures;

    let s = names_of(a) + names_of(b);
    let n = (a.len() + b.len()) as int;
    lemma_distinct(s, n);
    assert(s.take(n) =~= s);
    let d = distinct(s, n);
    lemma_sort_lex_multiset(d);
    let u = sort_lex(d);
    d.lemma_multiset_has_no_duplicates();
    assert forall|x: Seq<char>| u.to_multiset().contains(x) implies u.to_multiset().count(x) == 1 by {}
    u.lemma_multiset_has_no_duplicates_conv();
    assert forall|x: Seq<char>| #[trigger] u.contains(x) <==> (names_of(a).contains(x) || names_of(
        b,
    ).contains(x)) by {
        assert(u.to_multiset().count(x) == d.to_multiset().count(x));
        assert(u.contains(x) <==> u.to_multiset().count(x) > 0);
        assert(d.contains(x) <==> d.to_multiset().count(x) > 0);
        assert(u.contains(x) <==> d.contains(x));
        if names_of(a).contains(x) {
            let k = choose|k: int| 0 <= k < names_of(a).len() && names_of(a)[k] == x;
            assert(s[k] == x);
        }
        if names_of(b).contains(x) {
            let k = choose|k: int| 0 <= k < names_of(b).len() && names_of(b)[k] == x;
            assert(s[names_of(a).len() + k] == x);
        }
        if s.contains(x) {
            let k = choose|k: int| 0 <= k < s.len() && s[k] == x;
            if k < names_of(a).len() {
                assert(names_of(a)[k] == x);
            } else {
                assert(names_of(b)[k - names_of(a).len()] == x);
            }
        }
    }
}

/// Every name of either list gets exactly one row, and only those names do;
/// a row carries a size from each list that has the name, and no other.
pub proof fn law_rows_cover_names(a: Seq<Named>, b: Seq<Named>)
    ensures
        forall|x: Seq<char>| #[trigger] union_names(a, b).contains(x) <==> (names_of(a).contains(x)
            || names_of(b).contains(x)),
        union_names(a, b).no_duplicates(),
        forall|i: int| #![trigger compare_rows(a, b)[i]] 0 <= i < compare_rows(a, b).len() ==> {
            &&& (compare_rows(a, b)[i].1 is Some <==> names_of(a).contains(compare_rows(a, b)[i].0))
            &&& (compare_rows(a, b)[i].2 is Some <==> names_of(b).contains(compare_rows(a, b)[i].0))
            &&& (compare_rows(a, b)[i].1 is Some || compare_rows(a, b)[i].2 is Some)
        },
{
    lemma_union_names(a, b);
    assert forall|i: int| #![trigger compare_rows(a, b)[i]] 0 <= i < compare_rows(a, b).len() implies {
        &&& (compare_rows(a, b)[i].1 is Some <==> names_of(a).contains(compare_rows(a, b)[i].0))
        &&& (compare_rows(a, b)[i].2 is Some <==> names_of(b).contains(compare_rows(a, b)[i].0))
        &&& (compare_rows(a, b)[i].1 is Some || compare_rows(a, b)[i].2 is Some)
    } by {
        let x = union_names(a, b)[i];
        assert(union_names(a, b).contains(x));
        lemma_lookup_some(a, x);
        lemma_lookup_some(b, x);
    }
}

/// Comparing a list with itself: every row has the same size on both sides,
/// so every section is unchanged with a zero delta and every region unchanged.
pub proof fn law_identical_lists_unchanged(a: Seq<Named>)
    ensures
        forall|i: int| #![trigger compare_rows(a, a)[i]] 0 <= i < compare_rows(a, a).len() ==> {
            &&& compare_rows(a, a)[i].1 is Some
            &&& compare_rows(a, a)[i].1 == compare_rows(a, a)[i].2
            &&& section_row_status(compare_rows(a, a)[i].1, compare_rows(a, a)[i].2)
                == SectionStatus::Unchanged
            &&& section_row_delta(compare_rows(a, a)[i].1, compare_rows(a, a)[i].2) == 0
            &&& region_row_status(compare_rows(a, a)[i].1, compare_rows(a, a)[i].2)
                == RegionStatus::Unchanged
        },
{
    law_rows_cover_names(a, a);
}

/// A name only the second list has is new there, one only the first list has
/// is removed; swapping the lists swaps the two.
pub proof fn law_swapped_lists_swap_new_and_removed(a: Seq<Named>, b: Seq<Named>, x: Seq<char>)
    ensures
        section_row_status(lookup(a, x), lookup(b, x)) == SectionStatus::New <==> (!names_of(
            a,
        ).contains(x) && names_of(b).contains(x)),
        section_row_status(lookup(a, x), lookup(b, x)) == SectionStatus::New <==> section_row_status(
            lookup(b, x),
            lookup(a, x),
        ) == SectionStatus::Removed,
        section_row_status(lookup(a, x), lookup(b, x)) == SectionStatus::Unchanged
            <==> section_row_status(lookup(b, x), lookup(a, x)) == SectionStatus::Unchanged,
        forall|y: Seq<char>| #[trigger] union_names(a, b).contains(y) <==> union_names(b, a).contains(y),
{
    lemma_lookup_some(a, x);
    lemma_lookup_some(b, x);
    lemma_union_names(a, b);
    lemma_union_names(b, a);
}

proof fn lemma_is_last_found(s: Seq<Seq<char>>, i: int, n: int)
    requires
        0 <= i < n <= s.len(),
        forall|j: int| i < j < n ==> s[j] != s[i],
    ensures
        last_index(s, s[i], n) == Some(i),
    decreases n,
{
    if n - 1 > i {
        lemma_is_last_found(s, i, n - 1);
    }
}

proof fn lemma_identical_symbol_lists(a: Seq<SymbolV>, n: int)
    requires
        0 <= n <= a.len(),
    ensures
        new_syms(a, a, n).len() == 0,
        removed_syms(a, a, n).len() == 0,
        modified_syms(a, a, n).len() == 0,
    decreases n,
{
    if n > 0 {
        lemma_identical_symbol_lists(a, n - 1);
        assert(sym_names(a)[n - 1] == a[n - 1].name);
        assert(sym_names(a).contains(a[n - 1].name));
        if is_last(sym_names(a), n - 1) {
            lemma_is_last_found(sym_names(a), n - 1, a.len() as int);
            assert(size_in(a, a[n - 1].name) == a[n - 1].size);
        }
    }
}

/// Comparing a section's symbols with themselves finds nothing new, removed
/// or modified, and a total change of zero.
pub proof fn law_identical_symbols_unchanged(a: Seq<SymbolV>)
    ensures
        sorted_new(a, a).len() == 0,
        sorted_removed(a, a).len() == 0,
        sorted_modified(a, a).len() == 0,
        total_delta_of(a, a) == 0,
{
    lemma_identical_symbol_lists(a, a.len() as int);
    assert(new_syms(a, a, a.len() as int) =~= Seq::<SymbolV>::empty());
    assert(removed_syms(a, a, a.len() as int) =~= Seq::<SymbolV>::empty());
    assert(modified_syms(a, a, a.len() as int) =~= Seq::empty());
}

/// Swapping the two binaries turns the new symbols into the removed ones and back.
pub proof fn law_swapped_symbols_swap_new_and_removed(a: Seq<SymbolV>, b: Seq<SymbolV>)
    ensures
        sorted_new(a, b) == sorted_removed(b, a),
        sorted_removed(a, b) == sorted_new(b, a),
{
    lemma_new_is_removed_swapped(a, b, b.len() as int);
    lemma_new_is_removed_swapped(b, a, a.len() as int);
}

proof fn lemma_new_is_removed_swapped(a: Seq<SymbolV>, b: Seq<SymbolV>, n: int)
    ensures
        new_syms(a, b, n) == removed_syms(b, a, n),
    decreases n,
{
    if n > 0 {
        lemma_new_is_removed_swapped(a, b, n - 1);
    }
}

/// The listed changes of a data section are its new, removed and modified
/// symbols, each once, by non-increasing magnitude of their delta.
pub proof fn law_ranked_changes_are_all_changes_largest_first(c: SectionSymbolChanges)
    ensures
        ranked_rows(c).to_multiset() == change_rows(c).to_multiset(),
        forall|i: int, j: int|
            0 <= i <= j < ranked_rows(c).len() ==> abs_key(#[trigger] ranked_rows(c)[i].delta)
                >= abs_key(#[trigger] ranked_rows(c)[j].delta),
{
    lemma_sort_by_sorted(change_rows(c), impact_key());
    assert forall|i: int, j: int| 0 <= i <= j < ranked_rows(c).len() implies abs_key(
        #[trigger] ranked_rows(c)[i].delta,
    ) >= abs_key(#[trigger] ranked_rows(c)[j].delta) by {
        assert((impact_key())(ranked_rows(c)[i]) <= (impact_key())(ranked_rows(c)[j]));
    }
}

} // verus!
