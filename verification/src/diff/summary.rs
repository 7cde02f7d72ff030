//! What the diff report lists: the symbol changes of a data section, largest
//! first, and how many sections appeared or disappeared.
use vstd::prelude::*;

use crate::diff::analyzer::{
    ModV, SectionDiff, SectionStatus, SectionSymbolChanges, abs_key, abs_key_exec, mods_view,
    size_delta, size_delta_exec,
};
use crate::models::{SymbolV, symbols_view};
use crate::sort::{insert_by, lemma_insert_by_at, sort_by};

verus! {

/// How a symbol of a data section changed, with its sizes.
#[derive(Debug, Clone, Copy, PartialEq, Eq, Structural)]
pub enum ChangeKind {
    /// Only in the second binary, with this size
    New(u64),
    /// Only in the first binary, with this size
    Removed(u64),
    /// In both binaries, with these sizes
    Modified(u64, u64),
}

/// One line of a section's list of symbol changes.
#[derive(Debug)]
pub struct ChangeRow {
    pub name: String,
    /// Size change in bytes: `+size` for a new symbol, `-size` for a removed one
    pub delta: i64,
    pub kind: ChangeKind,
}

/// A change row as plain values.
pub struct ChangeV {
    pub name: Seq<char>,
    pub delta: i64,
    pub kind: ChangeKind,
}

impl View for ChangeRow {
    type V = ChangeV;

    open spec fn view(&self) -> ChangeV {
        ChangeV { name: self.name@, delta: self.delta, kind: self.kind }
    }
}

pub open spec fn change_rows_view(v: Seq<ChangeRow>) -> Seq<ChangeV> {
    v.map_values(|r: ChangeRow| r@)
}

pub open spec fn new_row(s: SymbolV) -> ChangeV {
    ChangeV { name: s.name, delta: size_delta(0, s.size), kind: ChangeKind::New(s.size) }
}

pub open spec fn removed_row(s: SymbolV) -> ChangeV {
    ChangeV { name: s.name, delta: size_delta(s.size, 0), kind: ChangeKind::Removed(s.size) }
}

pub open spec fn modified_row(m: ModV) -> ChangeV {
    ChangeV { name: m.name, delta: m.delta, kind: ChangeKind::Modified(m.v1_size, m.v2_size) }
}

/// The changes of a section: its new symbols, its removed symbols, then its
/// modified symbols, each list in its own order.
pub open spec fn change_rows(c: SectionSymbolChanges) -> Seq<ChangeV> {
    symbols_view(c.new_symbols@).map_values(|s: SymbolV| new_row(s)) + symbols_view(
        c.removed_symbols@,
    ).map_values(|s: SymbolV| removed_row(s)) + mods_view(c.modified_symbols@).map_values(
        |m: ModV| modified_row(m),
    )
}

/// Largest magnitude first; equal magnitudes keep their order.
pub open spec fn impact_key() -> spec_fn(ChangeV) -> int {
    |r: ChangeV| -abs_key(r.delta)
}

/// The changes of a section by decreasing magnitude of their delta.
pub open spec fn ranked_rows(c: SectionSymbolChanges) -> Seq<ChangeV> {
    sort_by(change_rows(c), impact_key())
}

/// Inserts `x` after the rows whose change is at least as large.
fn insert_by_impact(v: &mut Vec<ChangeRow>, x: ChangeRow)
    ensures
        change_rows_view(final(v)@) == insert_by(change_rows_view(old(v)@), x@, impact_key()),
{
    let ghost s = change_rows_view(v@);
    let kx = abs_key_exec(x.delta);
    let mut j = v.len();
    while j > 0 && abs_key_exec(v[j - 1].delta) < kx
        invariant
            j <= v@.len(),
            s == change_rows_view(v@),
            kx == abs_key(x.delta),
            forall|k: int| j <= k < s.len() ==> (impact_key())(#[trigger] s[k]) > (impact_key())(x@),
        decreases j,
    {
        j = j - 1;
    }
    proof {
        lemma_insert_by_at(s, x@, impact_key(), j as int);
    }
    let ghost xv = x@;
    v.insert(j, x);
    assert(change_rows_view(v@) =~= s.take(j as int).push(xv) + s.skip(j as int));
}

/// `sort_by` over one more element of `rows`.
proof fn lemma_sort_step(rows: Seq<ChangeV>, k: int)
    requires
        0 <= k < rows.len(),
    ensures
        sort_by(rows.take(k + 1), impact_key()) == insert_by(
            sort_by(rows.take(k), impact_key()),
            rows[k],
            impact_key(),
        ),
{
    assert(rows.take(k + 1).drop_last() =~= rows.take(k));
}

/// The symbol changes of a data section, largest change first (new symbols
/// count `+size`, removed ones `-size`).
pub fn rank_changes(c: &SectionSymbolChanges) -> (r: Vec<ChangeRow>)
    ensures
        change_rows_view(r@) == ranked_rows(*c),
{
    let ghost rows = change_rows(*c);
    let ghost nv = symbols_view(c.new_symbols@);
    let ghost rv = symbols_view(c.removed_symbols@);
    let ghost mv = mods_view(c.modified_symbols@);
    let n1 = c.new_symbols.len();
    let n2 = c.removed_symbols.len();
    let mut out: Vec<ChangeRow> = Vec::new();
    let mut i: usize = 0;
    while i < n1
        invariant
            i <= n1,
            n1 == c.new_symbols@.len(),
            rows == change_rows(*c),
            nv == symbols_view(c.new_symbols@),
            change_rows_view(out@) == sort_by(rows.take(i as int), impact_key()),
        decreases n1 - i,
    {
        let s = &c.new_symbols[i];
        let row = ChangeRow {
            name: s.name.clone(),
            delta: size_delta_exec(0, s.size),
            kind: ChangeKind::New(s.size),
        };
        assert(rows[i as int] == new_row(nv[i as int]));
        proof {
            lemma_sort_step(rows, i as int);
        }
        insert_by_impact(&mut out, row);
        i = i + 1;
    }
    let mut i: usize = 0;
    while i < n2
        invariant
            i <= n2,
            n1 == c.new_symbols@.len(),
            n2 == c.removed_symbols@.len(),
            rows == change_rows(*c),
            rv == symbols_view(c.removed_symbols@),
            change_rows_view(out@) == sort_by(rows.take(n1 + i), impact_key()),
        decreases n2 - i,
    {
        let s = &c.removed_symbols[i];
        let row = ChangeRow {
            name: s.name.clone(),
            delta: size_delta_exec(s.size, 0),
            kind: ChangeKind::Removed(s.size),
        };
        assert(rows[n1 + i] == removed_row(rv[i as int]));
        proof {
            lemma_sort_step(rows, n1 + i);
        }
        insert_by_impact(&mut out, row);
        i = i + 1;
    }
    let mut i: usize = 0;
    while i < c.modified_symbols.len()
        invariant
            i <= c.modified_symbols@.len(),
            n1 == c.new_symbols@.len(),
            n2 == c.removed_symbols@.len(),
            rows == change_rows(*c),
            mv == mods_view(c.modified_symbols@),
            change_rows_view(out@) == sort_by(rows.take(n1 + n2 + i), impact_key()),
        decreases c.modified_symbols.len() - i,
    {
        let m = &c.modified_symbols[i];
        let row = ChangeRow {
            name: m.name.clone(),
            delta: m.delta,
            kind: ChangeKind::Modified(m.v1_size, m.v2_size),
        };
        assert(rows[n1 + n2 + i] == modified_row(mv[i as int]));
        proof {
            lemma_sort_step(rows, n1 + n2 + i);
        }
        insert_by_impact(&mut out, row);
        i = i + 1;
    }
    assert(rows.take(rows.len() as int) =~= rows);
    out
}

/// Number of the first `n` section rows with status `st`.
pub open spec fn status_count(d: Seq<SectionDiff>, st: SectionStatus, n: int) -> nat
    decreases n,
{
    if n <= 0 {
        0
    } else {
        status_count(d, st, n - 1) + if d[n - 1].status == st {
            1nat
        } else {
            0nat
        }
    }
}

/// How many section rows have the status `st`.
pub fn count_status(diffs: &Vec<SectionDiff>, st: SectionStatus) -> (r: usize)
    ensures
        r == status_count(diffs@, st, diffs@.len() as int),
{
    let mut n: usize = 0;
    let mut i: usize = 0;
    while i < diffs.len()
        invariant
            i <= diffs@.len(),
            n == status_count(diffs@, st, i as int),
            n <= i,
        decreases diffs.len() - i,
    {
        if diffs[i].status == st {
            n = n + 1;
        }
        i = i + 1;
    }
    n
}

impl SectionDiff {
    /// Whether the summary table lists this row: all rows but unchanged
    /// sections that were empty.
    pub fn is_listed(&self) -> (r: bool)
        ensures
            r == !(self.status == SectionStatus::Unchanged && self.v1_size == Some(0u64)),
    {
        !(self.status == SectionStatus::Unchanged && self.v1_size == Some(0u64))
    }
}

} // verus!
