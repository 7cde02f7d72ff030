//! Side-by-side comparison of two lists of named sizes (sections or memory
//! regions): the union of their names in lexicographic order, each with the
//! size it has in either list.
use vstd::prelude::*;

use crate::diff::names::{
    contains_name, copy_chars, distinct, insert_name, last_index, names_view, sort_lex,
};
use crate::text::chars_eq;

verus! {

/// A name with a size, as plain values.
pub type Named = (Seq<char>, u64);

pub open spec fn names_of(s: Seq<Named>) -> Seq<Seq<char>> {
    s.map_values(|p: Named| p.0)
}

/// The size of the last entry called `x` (a later entry overrides an earlier one).
pub open spec fn lookup(s: Seq<Named>, x: Seq<char>) -> Option<u64> {
    match last_index(names_of(s), x, s.len() as int) {
        Some(i) => Some(s[i].1),
        None => None,
    }
}

/// Every name of either list, once each, in lexicographic order.
pub open spec fn union_names(a: Seq<Named>, b: Seq<Named>) -> Seq<Seq<char>> {
    sort_lex(distinct(names_of(a) + names_of(b), (a.len() + b.len()) as int))
}

/// One row per name of `union_names(a, b)`: the name and its size in `a` and in `b`.
pub open spec fn compare_rows(a: Seq<Named>, b: Seq<Named>) -> Seq<(Seq<char>, Option<u64>, Option<u64>)> {
    union_names(a, b).map_values(|x: Seq<char>| (x, lookup(a, x), lookup(b, x)))
}

pub open spec fn named_view(v: Seq<(Vec<char>, u64)>) -> Seq<Named> {
    v.map_values(|p: (Vec<char>, u64)| (p.0@, p.1))
}

pub open spec fn rows_view(v: Seq<(Vec<char>, Option<u64>, Option<u64>)>) -> Seq<(Seq<char>, Option<u64>, Option<u64>)> {
    v.map_values(|p: (Vec<char>, Option<u64>, Option<u64>)| (p.0@, p.1, p.2))
}

/// The size of the last entry of `v` called `x`.
pub fn lookup_exec(v: &Vec<(Vec<char>, u64)>, x: &[char]) -> (r: Option<u64>)
    ensures
        r == lookup(named_view(v@), x@),
{
    let ghost s = named_view(v@);
    let mut i = v.len();
    while i > 0 && !chars_eq(v[i - 1].0.as_slice(), x)
        invariant
            i <= v@.len(),
            s == named_view(v@),
            last_index(names_of(s), x@, s.len() as int) == last_index(names_of(s), x@, i as int),
        decreases i,
    {
        proof {
            assert(names_of(s)[i - 1] == v@[i - 1].0@);
        }
        i = i - 1;
    }
    if i == 0 {
        None
    } else {
        proof {
            assert(names_of(s)[i - 1] == v@[i - 1].0@);
        }
        Some(v[i - 1].1)
    }
}

/// Appends to `all` the names of `v` that it does not hold yet.
fn add_distinct(all: &mut Vec<Vec<char>>, v: &Vec<(Vec<char>, u64)>, Ghost(s): Ghost<Seq<Seq<char>>>, Ghost(off): Ghost<int>)
    requires
        0 <= off,
        off + v@.len() <= s.len(),
        forall|k: int| 0 <= k < v@.len() ==> s[off + k] == (#[trigger] v@[k]).0@,
        names_view(old(all)@) == distinct(s, off),
    ensures
        names_view(final(all)@) == distinct(s, off + v@.len()),
{
    let mut i: usize = 0;
    while i < v.len()
        invariant
            i <= v@.len(),
            0 <= off,
            off + v@.len() <= s.len(),
            forall|k: int| 0 <= k < v@.len() ==> s[off + k] == (#[trigger] v@[k]).0@,
            names_view(all@) == distinct(s, off + i),
        decreases v.len() - i,
    {
        let name = &v[i].0;
        assert(s[off + i] == v@[i as int].0@);
        if !contains_name(all, name.as_slice()) {
            let ghost before = all@;
            all.push(copy_chars(name));
            assert(names_view(all@) =~= names_view(before).push(name@));
        }
        i = i + 1;
    }
}

/// The rows of `compare_rows` for the two lists.
pub fn compare_named(a: &Vec<(Vec<char>, u64)>, b: &Vec<(Vec<char>, u64)>) -> (r: Vec<(Vec<char>, Option<u64>, Option<u64>)>)
    requires
        a@.len() + b@.len() <= usize::MAX,
    ensures
        rows_view(r@) == compare_rows(named_view(a@), named_view(b@)),
{
    let ghost s = names_of(named_view(a@)) + names_of(named_view(b@));
    let mut all: Vec<Vec<char>> = Vec::new();
    assert(names_view(all@) =~= distinct(s, 0));
    add_distinct(&mut all, a, Ghost(s), Ghost(0));
    add_distinct(&mut all, b, Ghost(s), Ghost(a@.len() as int));
    let ghost d = names_view(all@);
    let mut sorted: Vec<Vec<char>> = Vec::new();
    let mut i: usize = 0;
    while i < all.len()
        invariant
            i <= all@.len(),
            d == names_view(all@),
            names_view(sorted@) == sort_lex(d.take(i as int)),
        decreases all.len() - i,
    {
        assert(d.take(i + 1).drop_last() =~= d.take(i as int));
        insert_name(&mut sorted, copy_chars(&all[i]));
        i = i + 1;
    }
    assert(d.take(all@.len() as int) =~= d);
    let ghost names = names_view(sorted@);
    let mut rows: Vec<(Vec<char>, Option<u64>, Option<u64>)> = Vec::new();
    let mut j: usize = 0;
    while j < sorted.len()
        invariant
            j <= sorted@.len(),
            names == names_view(sorted@),
            names == union_names(named_view(a@), named_view(b@)),
            rows_view(rows@) =~= compare_rows(named_view(a@), named_view(b@)).take(j as int),
        decreases sorted.len() - j,
    {
        let x = &sorted[j];
        let va = lookup_exec(a, x.as_slice());
        let vb = lookup_exec(b, x.as_slice());
        let ghost before = rows@;
        rows.push((copy_chars(x), va, vb));
        assert(rows_view(rows@) =~= rows_view(before).push((x@, va, vb)));
        j = j + 1;
    }
    rows
}

} // verus!
