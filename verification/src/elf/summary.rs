//! Figures that the text report prints about an analysis: gap totals per
//! memory kind, how safe the stack/heap headroom is, and the size of the
//! largest symbols.
use vstd::prelude::*;

use crate::models::{GapRegionType, MemoryGap, Symbol};

verus! {

/// Number of the first `n` gaps that lie in memory of kind `t`.
pub open spec fn gap_count(g: Seq<MemoryGap>, t: GapRegionType, n: int) -> nat
    decreases n,
{
    if n <= 0 {
        0
    } else {
        gap_count(g, t, n - 1) + if g[n - 1].region_type == t {
            1nat
        } else {
            0nat
        }
    }
}

/// Total size of the first `n` gaps of kind `t`, wrapping at 2^64.
pub open spec fn gap_bytes(g: Seq<MemoryGap>, t: GapRegionType, n: int) -> u64
    decreases n,
{
    if n <= 0 {
        0
    } else if g[n - 1].region_type == t {
        ((gap_bytes(g, t, n - 1) + g[n - 1].size) % 0x1_0000_0000_0000_0000) as u64
    } else {
        gap_bytes(g, t, n - 1)
    }
}

/// Gaps per memory kind.
#[derive(Debug, Clone, Copy)]
pub struct GapTotals {
    pub flash_gaps: usize,
    pub flash_bytes: u64,
    pub ram_gaps: usize,
    pub ram_bytes: u64,
}

/// Count the Flash and RAM gaps and add up their sizes (gaps of unknown
/// memory are left out).
pub fn gap_totals(gaps: &Vec<MemoryGap>) -> (r: GapTotals)
    ensures
        r.flash_gaps == gap_count(gaps@, GapRegionType::Flash, gaps@.len() as int),
        r.flash_bytes == gap_bytes(gaps@, GapRegionType::Flash, gaps@.len() as int),
        r.ram_gaps == gap_count(gaps@, GapRegionType::Ram, gaps@.len() as int),
        r.ram_bytes == gap_bytes(gaps@, GapRegionType::Ram, gaps@.len() as int),
{
    let mut t = GapTotals { flash_gaps: 0, flash_bytes: 0, ram_gaps: 0, ram_bytes: 0 };
    let mut i: usize = 0;
    while i < gaps.len()
        invariant
            i <= gaps@.len(),
            t.flash_gaps == gap_count(gaps@, GapRegionType::Flash, i as int),
            t.flash_bytes == gap_bytes(gaps@, GapRegionType::Flash, i as int),
            t.ram_gaps == gap_count(gaps@, GapRegionType::Ram, i as int),
            t.ram_bytes == gap_bytes(gaps@, GapRegionType::Ram, i as int),
            t.flash_gaps + t.ram_gaps <= i,
        decreases gaps.len() - i,
    {
        let g = gaps[i];
        match g.region_type {
            GapRegionType::Flash => {
                t.flash_gaps = t.flash_gaps + 1;
                t.flash_bytes = t.flash_bytes.wrapping_add(g.size);
            },
            GapRegionType::Ram => {
                t.ram_gaps = t.ram_gaps + 1;
                t.ram_bytes = t.ram_bytes.wrapping_add(g.size);
            },
            GapRegionType::Unknown => {},
        }
        i = i + 1;
    }
    t
}

/// How much room is left between stack and heap.
#[derive(Debug, Clone, Copy, PartialEq, Eq, Structural)]
pub enum Headroom {
    /// No room at all
    Critical,
    /// Less than 1 KiB
    Warning,
    /// Less than 4 KiB
    Caution,
    /// 4 KiB or more
    Ample,
}

pub open spec fn headroom_of(gap: u64) -> Headroom {
    if gap == 0 {
        Headroom::Critical
    } else if gap < 1024 {
        Headroom::Warning
    } else if gap < 4096 {
        Headroom::Caution
    } else {
        Headroom::Ample
    }
}

/// Classify the gap between stack and heap.
pub fn stack_heap_headroom(gap: u64) -> (r: Headroom)
    ensures
        r == headroom_of(gap),
{
    if gap == 0 {
        Headroom::Critical
    } else if gap < 1024 {
        Headroom::Warning
    } else if gap < 4096 {
        Headroom::Caution
    } else {
        Headroom::Ample
    }
}

/// Total size of the first `n` symbols, wrapping at 2^64.
pub open spec fn size_sum(s: Seq<Symbol>, n: int) -> u64
    decreases n,
{
    if n <= 0 {
        0
    } else {
        ((size_sum(s, n - 1) + s[n - 1].size) % 0x1_0000_0000_0000_0000) as u64
    }
}

/// Total size of the first `n` symbols (all of them when there are fewer).
pub fn leading_size_total(symbols: &[Symbol], n: usize) -> (r: u64)
    ensures
        r == size_sum(symbols@, if n < symbols@.len() {
            n as int
        } else {
            symbols@.len() as int
        }),
{
    let m = if n < symbols.len() {
        n
    } else {
        symbols.len()
    };
    let mut total: u64 = 0;
    let mut i: usize = 0;
    while i < m
        invariant
            i <= m,
            m <= symbols@.len(),
            total == size_sum(symbols@, i as int),
        decreases m - i,
    {
        total = total.wrapping_add(symbols[i].size);
        i = i + 1;
    }
    total
}

} // verus!
