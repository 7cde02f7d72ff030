//! The rows of the memory map: the sections of Flash (below 0x20000000) or
//! of RAM (from it on) by address, with a gap row wherever a section starts
//! after the previous one ended.
use vstd::prelude::*;

use crate::sort::{insert_by, lemma_insert_by_at, sort_by};

verus! {

/// One row of the memory map.
#[derive(Debug, Clone, Copy, PartialEq, Eq, Structural)]
pub enum MapRow {
    /// Unused bytes before the next section
    Gap(u64),
    /// The section at this index of the layout
    Section(usize),
}

/// Start of the RAM region of the map.
pub const RAM_BASE: u64 = 0x2000_0000;

/// Whether the section `(address, size)` belongs to Flash (`flash`) or RAM.
pub open spec fn in_region(s: (u64, u64), flash: bool) -> bool {
    if flash {
        s.0 < RAM_BASE
    } else {
        s.0 >= RAM_BASE
    }
}

/// Indices of the first `n` sections that lie in the region, in layout order.
pub open spec fn region_indices(secs: Seq<(u64, u64)>, flash: bool, n: int) -> Seq<usize>
    decreases n,
{
    if n <= 0 {
        Seq::empty()
    } else if in_region(secs[n - 1], flash) {
        region_indices(secs, flash, n - 1).push((n - 1) as usize)
    } else {
        region_indices(secs, flash, n - 1)
    }
}

pub open spec fn start_key(secs: Seq<(u64, u64)>) -> spec_fn(usize) -> int {
    |i: usize| secs[i as int].0 as int
}

/// The region's sections by ascending address (equal addresses keep layout order).
pub open spec fn map_order(secs: Seq<(u64, u64)>, flash: bool) -> Seq<usize> {
    sort_by(region_indices(secs, flash, secs.len() as int), start_key(secs))
}

/// Where the region's map starts.
pub open spec fn region_base(flash: bool) -> u64 {
    if flash {
        0
    } else {
        RAM_BASE
    }
}

/// End of a section, wrapping at 2^64.
pub open spec fn end_of(s: (u64, u64)) -> u64 {
    ((s.0 + s.1) % 0x1_0000_0000_0000_0000) as u64
}

/// Where the section before position `n` of `order` ended (`base` for the first).
pub open spec fn last_end(secs: Seq<(u64, u64)>, order: Seq<usize>, n: int, base: u64) -> u64 {
    if n <= 0 {
        base
    } else {
        end_of(secs[order[n - 1] as int])
    }
}

/// The rows of the first `n` sections of `order`.
pub open spec fn rows_upto(secs: Seq<(u64, u64)>, order: Seq<usize>, n: int, base: u64) -> Seq<MapRow>
    decreases n,
{
    if n <= 0 {
        Seq::empty()
    } else {
        let s = secs[order[n - 1] as int];
        let last = last_end(secs, order, n - 1, base);
        let gap = if s.0 > last {
            seq![MapRow::Gap((s.0 - last) as u64)]
        } else {
            Seq::empty()
        };
        rows_upto(secs, order, n - 1, base) + gap + seq![MapRow::Section(order[n - 1])]
    }
}

/// The rows of the Flash (`flash`) or RAM map of the sections `secs`.
pub open spec fn map_rows_of(secs: Seq<(u64, u64)>, flash: bool) -> Seq<MapRow> {
    let o = map_order(secs, flash);
    rows_upto(secs, o, o.len() as int, region_base(flash))
}

/// Inserts section index `x` after the indices whose section starts no later.
fn insert_by_start(v: &mut Vec<usize>, x: usize, secs: &Vec<(u64, u64)>)
    requires
        x < secs@.len(),
        forall|k: int| 0 <= k < old(v)@.len() ==> (#[trigger] old(v)@[k]) < secs@.len(),
    ensures
        final(v)@ == insert_by(old(v)@, x, start_key(secs@)),
        forall|k: int| 0 <= k < final(v)@.len() ==> (#[trigger] final(v)@[k]) < secs@.len(),
{
    let ghost s = v@;
    let mut j = v.len();
    while j > 0 && secs[v[j - 1]].0 > secs[x].0
        invariant
            j <= v@.len(),
            v@ == s,
            x < secs@.len(),
            forall|k: int| 0 <= k < s.len() ==> (#[trigger] s[k]) < secs@.len(),
            forall|k: int| j <= k < s.len() ==> (start_key(secs@))(#[trigger] s[k]) > (start_key(secs@))(x),
        decreases j,
    {
        j = j - 1;
    }
    proof {
        lemma_insert_by_at(s, x, start_key(secs@), j as int);
    }
    v.insert(j, x);
    proof {
        assert(v@ =~= s.take(j as int).push(x) + s.skip(j as int));
        assert forall|k: int| 0 <= k < v@.len() implies (#[trigger] v@[k]) < secs@.len() by {
            if k < j {
                assert(v@[k] == s[k]);
            } else if k > j {
                assert(v@[k] == s[k - 1]);
            }
        }
    }
}

/// The sections of the region, by address.
fn map_order_exec(secs: &Vec<(u64, u64)>, flash: bool) -> (r: Vec<usize>)
    ensures
        r@ == map_order(secs@, flash),
        forall|k: int| 0 <= k < r@.len() ==> (#[trigger] r@[k]) < secs@.len(),
{
    let mut v: Vec<usize> = Vec::new();
    let mut i: usize = 0;
    while i < secs.len()
        invariant
            i <= secs@.len(),
            v@ == sort_by(region_indices(secs@, flash, i as int), start_key(secs@)),
            forall|k: int| 0 <= k < v@.len() ==> (#[trigger] v@[k]) < secs@.len(),
        decreases secs.len() - i,
    {
        let inside = if flash {
            secs[i].0 < RAM_BASE
        } else {
            secs[i].0 >= RAM_BASE
        };
        if inside {
            let ghost ri = region_indices(secs@, flash, i as int);
            assert(ri.push(i as usize).drop_last() =~= ri);
            insert_by_start(&mut v, i, secs);
        }
        i = i + 1;
    }
    v
}

/// The rows of the Flash (`flash`) or RAM memory map: the region's sections by
/// address, each preceded by a gap row when it starts after the previous one
/// (or the region's start) ended.
pub fn map_rows(secs: &Vec<(u64, u64)>, flash: bool) -> (r: Vec<MapRow>)
    ensures
        r@ == map_rows_of(secs@, flash),
{
    let order = map_order_exec(secs, flash);
    let base: u64 = if flash {
        0
    } else {
        RAM_BASE
    };
    let mut rows: Vec<MapRow> = Vec::new();
    let mut last = base;
    let mut i: usize = 0;
    while i < order.len()
        invariant
            i <= order@.len(),
            order@ == map_order(secs@, flash),
            forall|k: int| 0 <= k < order@.len() ==> (#[trigger] order@[k]) < secs@.len(),
            base == region_base(flash),
            last == last_end(secs@, order@, i as int, base),
            rows@ == rows_upto(secs@, order@, i as int, base),
        decreases order.len() - i,
    {
        let s = secs[order[i]];
        if s.0 > last {
            rows.push(MapRow::Gap(s.0 - last));
        }
        rows.push(MapRow::Section(order[i]));
        last = s.0.wrapping_add(s.1);
        i = i + 1;
        proof {
            let g = if s.0 > last_end(secs@, order@, i - 1, base) {
                seq![MapRow::Gap((s.0 - last_end(secs@, order@, i - 1, base)) as u64)]
            } else {
                Seq::empty()
            };
            assert(rows@ =~= rows_upto(secs@, order@, i - 1, base) + g + seq![MapRow::Section(order@[i - 1])]);
        }
    }
    rows
}

} // verus!
