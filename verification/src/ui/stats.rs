//! Symbol statistics for the dashboard: counts by type and size class, the
//! largest symbols and the most common name prefixes ("namespaces").
use vstd::prelude::*;

use crate::models::{Symbol, SymbolType, SymbolV, symbols_view};
use crate::sort::{insert_by, lemma_insert_by_at, sort_by};
use crate::text::{chars_eq, chars_of, find, find_chars, sub_chars, utf8_len, utf8_len_exec, string_of};

verus! {

/// Statistics about a list of symbols (largest first).
#[derive(Debug)]
pub struct SymbolStatistics {
    pub total_count: usize,
    pub function_count: usize,
    pub object_count: usize,
    pub other_count: usize,
    /// Below 100 bytes
    pub tiny_count: usize,
    /// 100 B to 1 KiB
    pub small_count: usize,
    /// 1 KiB to 10 KiB
    pub medium_count: usize,
    /// 10 KiB and more
    pub large_count: usize,
    /// Indices of the ten largest symbols
    pub top_10_largest: Vec<usize>,
    /// (prefix, count, total size) of the ten most common prefixes
    pub namespaces: Vec<(String, usize, u64)>,
}

/// How many symbols satisfy `p`.
pub open spec fn count_syms(s: Seq<SymbolV>, p: spec_fn(SymbolV) -> bool) -> nat
    decreases s.len(),
{
    if s.len() == 0 {
        0
    } else {
        count_syms(s.drop_last(), p) + if p(s.last()) {
            1nat
        } else {
            0nat
        }
    }
}

pub open spec fn is_function_p() -> spec_fn(SymbolV) -> bool {
    |s: SymbolV| s.symbol_type == SymbolType::Function
}

pub open spec fn is_object_p() -> spec_fn(SymbolV) -> bool {
    |s: SymbolV| s.symbol_type == SymbolType::Object
}

pub open spec fn is_other_p() -> spec_fn(SymbolV) -> bool {
    |s: SymbolV| s.symbol_type != SymbolType::Function && s.symbol_type != SymbolType::Object
}

pub open spec fn tiny_p() -> spec_fn(SymbolV) -> bool {
    |s: SymbolV| s.size < 100
}

pub open spec fn small_p() -> spec_fn(SymbolV) -> bool {
    |s: SymbolV| 100 <= s.size < 1024
}

pub open spec fn medium_p() -> spec_fn(SymbolV) -> bool {
    |s: SymbolV| 1024 <= s.size < 10240
}

pub open spec fn large_p() -> spec_fn(SymbolV) -> bool {
    |s: SymbolV| s.size >= 10240
}

/// The prefix of a name before its first `_`, else before its first `::`;
/// none when the name has neither.
pub open spec fn name_prefix(n: Seq<char>) -> Option<Seq<char>> {
    match find(n, seq!['_']) {
        Some(i) => Some(n.take(i)),
        None => match find(n, seq![':', ':']) {
            Some(i) => Some(n.take(i)),
            None => None,
        },
    }
}

/// The prefix a symbol is counted under: one of at least two bytes.
pub open spec fn counted_prefix(n: Seq<char>) -> Option<Seq<char>> {
    match name_prefix(n) {
        Some(p) => if utf8_len(p) >= 2 {
            Some(p)
        } else {
            None
        },
        None => None,
    }
}

/// Where `p` occurs among the prefixes of `l`.
pub open spec fn prefix_index(l: Seq<(Seq<char>, nat, u64)>, p: Seq<char>) -> Option<int>
    decreases l.len(),
{
    if l.len() == 0 {
        None
    } else if l.last().0 == p {
        Some(l.len() - 1)
    } else {
        prefix_index(l.drop_last(), p)
    }
}

/// (prefix, count, total size) over the first `n` symbols, in the order of
/// each prefix's first symbol; sizes add up wrapping at 2^64.
pub open spec fn prefix_table(s: Seq<SymbolV>, n: int) -> Seq<(Seq<char>, nat, u64)>
    decreases n,
{
    if n <= 0 {
        Seq::empty()
    } else {
        let t = prefix_table(s, n - 1);
        match counted_prefix(s[n - 1].name) {
            Some(p) => match prefix_index(t, p) {
                Some(j) => t.update(
                    j,
                    (p, t[j].1 + 1, vstd::wrapping::u64_specs::wrapping_add(t[j].2, s[n - 1].size)),
                ),
                None => t.push((p, 1, s[n - 1].size)),
            },
            None => t,
        }
    }
}

/// Most symbols first; equal counts keep their order.
pub open spec fn count_desc_key() -> spec_fn((Seq<char>, nat, u64)) -> int {
    |e: (Seq<char>, nat, u64)| -(e.1 as int)
}

/// The ten most common prefixes.
pub open spec fn top_namespaces(s: Seq<SymbolV>) -> Seq<(Seq<char>, nat, u64)> {
    let sorted = sort_by(prefix_table(s, s.len() as int), count_desc_key());
    if sorted.len() <= 10 {
        sorted
    } else {
        sorted.take(10)
    }
}

pub open spec fn namespaces_view(v: Seq<(String, usize, u64)>) -> Seq<(Seq<char>, nat, u64)> {
    v.map_values(|e: (String, usize, u64)| (e.0@, e.1 as nat, e.2))
}

/// `st` describes the symbols `s`.
pub open spec fn statistics_are(st: SymbolStatistics, s: Seq<SymbolV>) -> bool {
    &&& st.total_count == s.len()
    &&& st.function_count == count_syms(s, is_function_p())
    &&& st.object_count == count_syms(s, is_object_p())
    &&& st.other_count == count_syms(s, is_other_p())
    &&& st.tiny_count == count_syms(s, tiny_p())
    &&& st.small_count == count_syms(s, small_p())
    &&& st.medium_count == count_syms(s, medium_p())
    &&& st.large_count == count_syms(s, large_p())
    &&& st.top_10_largest@ == Seq::new(
        if s.len() < 10 {
            s.len()
        } else {
            10
        },
        |i: int| i as usize,
    )
    &&& namespaces_view(st.namespaces@) == top_namespaces(s)
}

/// The prefix a symbol name is counted under.
fn counted_prefix_exec(name: &str) -> (r: Option<Vec<char>>)
    ensures
        match r {
            Some(p) => counted_prefix(name@) == Some(p@),
            None => counted_prefix(name@) is None,
        },
{
    let c = chars_of(name);
    let underscore: Vec<char> = vec!['_'];
    let colons: Vec<char> = vec![':', ':'];
    assert(underscore@ =~= seq!['_']);
    assert(colons@ =~= seq![':', ':']);
    let k = match find_chars(c.as_slice(), underscore.as_slice()) {
        Some(k) => k,
        None => match find_chars(c.as_slice(), colons.as_slice()) {
            Some(k) => k,
            None => {
                return None;
            },
        },
    };
    proof {
        crate::text::lemma_find_from_props(c@, underscore@, 0);
        crate::text::lemma_find_from_props(c@, colons@, 0);
    }
    let p = sub_chars(c.as_slice(), 0, k);
    assert(p@ =~= c@.take(k as int));
    if utf8_len_exec(p.as_slice()) >= 2 {
        Some(p)
    } else {
        None
    }
}

/// Index of the prefix `p` in the table.
fn prefix_index_exec(t: &Vec<(Vec<char>, usize, u64)>, p: &[char]) -> (r: Option<usize>)
    ensures
        match r {
            Some(j) => prefix_index(table_view(t@), p@) == Some(j as int) && j < t@.len(),
            None => prefix_index(table_view(t@), p@) is None,
        },
{
    let ghost tv = table_view(t@);
    let mut i = t.len();
    assert(tv.take(tv.len() as int) =~= tv);
    while i > 0 && !chars_eq(t[i - 1].0.as_slice(), p)
        invariant
            i <= t@.len(),
            tv == table_view(t@),
            prefix_index(tv, p@) == prefix_index(tv.take(i as int), p@),
        decreases i,
    {
        assert(tv.take(i as int).drop_last() =~= tv.take(i - 1));
        i = i - 1;
    }
    if i == 0 {
        assert(tv.take(0) =~= Seq::<(Seq<char>, nat, u64)>::empty());
        None
    } else {
        assert(tv.take(i as int).last() == tv[i - 1]);
        Some(i - 1)
    }
}

pub open spec fn table_view(v: Seq<(Vec<char>, usize, u64)>) -> Seq<(Seq<char>, nat, u64)> {
    v.map_values(|e: (Vec<char>, usize, u64)| (e.0@, e.1 as nat, e.2))
}

/// Inserts `e` after the entries with at least as many symbols.
fn insert_by_count(v: &mut Vec<(String, usize, u64)>, e: (String, usize, u64))
    ensures
        namespaces_view(final(v)@) == insert_by(namespaces_view(old(v)@), (e.0@, e.1 as nat, e.2), count_desc_key()),
{
    let ghost s = namespaces_view(v@);
    let ghost ev = (e.0@, e.1 as nat, e.2);
    let mut j = v.len();
    while j > 0 && v[j - 1].1 < e.1
        invariant
            j <= v@.len(),
            s == namespaces_view(v@),
            ev == (e.0@, e.1 as nat, e.2),
            forall|k: int| j <= k < s.len() ==> (count_desc_key())(#[trigger] s[k]) > (count_desc_key())(ev),
        decreases j,
    {
        j = j - 1;
    }
    proof {
        lemma_insert_by_at(s, ev, count_desc_key(), j as int);
    }
    v.insert(j, e);
    assert(namespaces_view(v@) =~= s.take(j as int).push(ev) + s.skip(j as int));
}

/// Compute the statistics of `symbols` (which are sorted largest first, so
/// the first ten are the largest).
pub fn calculate_statistics(symbols: &[Symbol]) -> (r: SymbolStatistics)
    ensures
        statistics_are(r, symbols_view(symbols@)),
{
    let ghost s = symbols_view(symbols@);
    let mut function_count: usize = 0;
    let mut object_count: usize = 0;
    let mut other_count: usize = 0;
    let mut tiny_count: usize = 0;
    let mut small_count: usize = 0;
    let mut medium_count: usize = 0;
    let mut large_count: usize = 0;
    let mut i: usize = 0;
    while i < symbols.len()
        invariant
            i <= symbols@.len(),
            s == symbols_view(symbols@),
            function_count == count_syms(s.take(i as int), is_function_p()),
            object_count == count_syms(s.take(i as int), is_object_p()),
            other_count == count_syms(s.take(i as int), is_other_p()),
            tiny_count == count_syms(s.take(i as int), tiny_p()),
            small_count == count_syms(s.take(i as int), small_p()),
            medium_count == count_syms(s.take(i as int), medium_p()),
            large_count == count_syms(s.take(i as int), large_p()),
            function_count <= i && object_count <= i && other_count <= i && tiny_count <= i
                && small_count <= i && medium_count <= i && large_count <= i,
        decreases symbols.len() - i,
    {
        assert(s.take(i + 1).drop_last() =~= s.take(i as int));
        let sym = &symbols[i];
        match sym.symbol_type {
            SymbolType::Function => function_count = function_count + 1,
            SymbolType::Object => object_count = object_count + 1,
            _ => other_count = other_count + 1,
        }
        if sym.size < 100 {
            tiny_count = tiny_count + 1;
        } else if sym.size < 1024 {
            small_count = small_count + 1;
        } else if sym.size < 10240 {
            medium_count = medium_count + 1;
        } else {
            large_count = large_count + 1;
        }
        i = i + 1;
    }
    assert(s.take(s.len() as int) =~= s);
    let top_n: usize = if symbols.len() < 10 {
        symbols.len()
    } else {
        10
    };
    let mut top_10_largest: Vec<usize> = Vec::new();
    let mut k: usize = 0;
    while k < top_n
        invariant
            k <= top_n,
            top_10_largest@ =~= Seq::new(k as nat, |j: int| j as usize),
        decreases top_n - k,
    {
        top_10_largest.push(k);
        k = k + 1;
    }
    // prefix table in first-occurrence order
    let mut table: Vec<(Vec<char>, usize, u64)> = Vec::new();
    let mut i: usize = 0;
    while i < symbols.len()
        invariant
            i <= symbols@.len(),
            s == symbols_view(symbols@),
            table_view(table@) == prefix_table(s, i as int),
            forall|j: int| 0 <= j < table@.len() ==> (#[trigger] table@[j]).1 <= i,
        decreases symbols.len() - i,
    {
        match counted_prefix_exec(symbols[i].name.as_str()) {
            Some(p) => match prefix_index_exec(&table, p.as_slice()) {
                Some(j) => {
                    let ghost before = table_view(table@);
                    let count = table[j].1 + 1;
                    let size = table[j].2.wrapping_add(symbols[i].size);
                    table.set(j, (p, count, size));
                    assert(table_view(table@) =~= before.update(
                        j as int,
                        (p@, before[j as int].1 + 1, size),
                    ));
                },
                None => {
                    let ghost before = table_view(table@);
                    let size = symbols[i].size;
                    table.push((p, 1, size));
                    assert(table_view(table@) =~= before.push((p@, 1, size)));
                },
            },
            None => {},
        }
        i = i + 1;
    }
    let ghost tv = table_view(table@);
    let mut sorted: Vec<(String, usize, u64)> = Vec::new();
    let mut i: usize = 0;
    while i < table.len()
        invariant
            i <= table@.len(),
            tv == table_view(table@),
            namespaces_view(sorted@) == sort_by(tv.take(i as int), count_desc_key()),
        decreases table.len() - i,
    {
        assert(tv.take(i + 1).drop_last() =~= tv.take(i as int));
        let e = (string_of(table[i].0.as_slice()), table[i].1, table[i].2);
        insert_by_count(&mut sorted, e);
        i = i + 1;
    }
    assert(tv.take(tv.len() as int) =~= tv);
    sorted.truncate(10);
    proof {
        let full = sort_by(tv, count_desc_key());
        assert(namespaces_view(sorted@) =~= if full.len() <= 10 {
            full
        } else {
            full.take(10)
        });
    }
    SymbolStatistics {
        total_count: symbols.len(),
        function_count,
        object_count,
        other_count,
        tiny_count,
        small_count,
        medium_count,
        large_count,
        top_10_largest,
        namespaces: sorted,
    }
}

} // verus!
