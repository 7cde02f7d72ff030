//! The region explorer's memory map: which symbols a section shows at each
//! zoom level, and the line of the map that the selected symbol is on.
use vstd::prelude::*;

use crate::diff::analyzer::{insert_by_size_desc, size_desc_key};
use crate::models::{Symbol, SymbolV, symbols_view};
use crate::sort::sort_by;
use crate::text::str_eq;

verus! {

/// How many symbols a section lists at a zoom level (level 0 lists none).
pub open spec fn zoom_limit(z: u8) -> nat {
    if z == 1 {
        3
    } else if z == 2 {
        10
    } else {
        1000
    }
}

/// `a` lies within the section `(address, size)`.
pub open spec fn inside(a: u64, sec: (u64, u64)) -> bool {
    sec.0 <= a && a < sec.0 + sec.1
}

/// The symbols (in address order) among the first `n` of `by_addr` that lie
/// within `sec`.
pub open spec fn members(syms: Seq<Symbol>, by_addr: Seq<usize>, sec: (u64, u64), n: int) -> Seq<SymbolV>
    decreases n,
{
    if n <= 0 {
        Seq::empty()
    } else {
        let rest = members(syms, by_addr, sec, n - 1);
        let s = syms[by_addr[n - 1] as int];
        if inside(s.address, sec) {
            rest.push(s@)
        } else {
            rest
        }
    }
}

/// All symbols of `sec`, in address order.
pub open spec fn section_members(syms: Seq<Symbol>, by_addr: Seq<usize>, sec: (u64, u64)) -> Seq<SymbolV> {
    members(syms, by_addr, sec, by_addr.len() as int)
}

/// The symbols `sec` lists at zoom `z`: its largest, largest first.
pub open spec fn listed(syms: Seq<Symbol>, by_addr: Seq<usize>, sec: (u64, u64), z: u8) -> Seq<SymbolV> {
    let sorted = sort_by(section_members(syms, by_addr, sec), size_desc_key());
    if sorted.len() <= zoom_limit(z) {
        sorted
    } else {
        sorted.take(zoom_limit(z) as int)
    }
}

/// Position of the first listed symbol called `name` (0 when none is).
pub open spec fn name_position(l: Seq<SymbolV>, name: Seq<char>, i: int) -> nat
    decreases l.len() - i,
{
    if i < 0 || i >= l.len() {
        0
    } else if l[i].name == name {
        i as nat
    } else {
        name_position(l, name, i + 1)
    }
}

/// The line reached after walking the sections of `secs` from `i` on,
/// starting at `line`: one line per section; at a zoom above 0, sections
/// wholly below the selected symbol add their listed symbols (and a "more"
/// line), and the section holding it adds the symbol's position and ends the walk.
pub open spec fn walk(
    syms: Seq<Symbol>,
    by_addr: Seq<usize>,
    secs: Seq<(u64, u64)>,
    i: int,
    z: u8,
    sel: Symbol,
    line: nat,
) -> nat
    decreases secs.len() - i,
{
    if i < 0 || i >= secs.len() {
        line
    } else {
        let s = secs[i];
        let l1 = line + 1;
        if inside(sel.address, s) && z > 0 {
            l1 + name_position(listed(syms, by_addr, s, z), sel.name@, 0)
        } else {
            let l2 = if sel.address >= s.0 + s.1 && z > 0 {
                let c = section_members(syms, by_addr, s).len();
                l1 + (if c < zoom_limit(z) {
                    c
                } else {
                    zoom_limit(z)
                }) + (if c > zoom_limit(z) {
                    1nat
                } else {
                    0nat
                })
            } else {
                l1
            };
            walk(syms, by_addr, secs, i + 1, z, sel, l2)
        }
    }
}

/// The sections below 0x20000000 (`flash`) or from it on, in layout order.
pub open spec fn sections_in(secs: Seq<(u64, u64)>, flash: bool) -> Seq<(u64, u64)>
    decreases secs.len(),
{
    if secs.len() == 0 {
        Seq::empty()
    } else {
        let rest = sections_in(secs.drop_last(), flash);
        if (secs.last().0 < 0x2000_0000) == flash {
            rest.push(secs.last())
        } else {
            rest
        }
    }
}

/// The line of the memory map that the symbol `sel` is on: three header
/// lines, the Flash sections, and for a RAM symbol three more header lines
/// and the RAM sections.
pub open spec fn map_line(syms: Seq<Symbol>, by_addr: Seq<usize>, secs: Seq<(u64, u64)>, z: u8, sel: Symbol) -> nat {
    let l = walk(syms, by_addr, sections_in(secs, true), 0, z, sel, 3);
    if sel.address >= 0x2000_0000 {
        walk(syms, by_addr, sections_in(secs, false), 0, z, sel, l + 3)
    } else {
        l
    }
}

/// The scroll position that shows the selected symbol about ten lines from
/// the top (as a 16-bit value).
pub open spec fn scroll_for(syms: Seq<Symbol>, by_addr: Seq<usize>, secs: Seq<(u64, u64)>, z: u8, sel: Symbol) -> u16 {
    let l = map_line(syms, by_addr, secs, z, sel);
    ((if l >= 10 {
        l - 10
    } else {
        0
    }) % 0x1_0000) as u16
}

/// Indices of `by_addr` point into `syms`.
pub open spec fn indices_valid(syms: Seq<Symbol>, by_addr: Seq<usize>) -> bool {
    forall|k: int| 0 <= k < by_addr.len() ==> (#[trigger] by_addr[k]) < syms.len()
}

/// The symbols of `sec` in address order.
pub fn section_members_exec(syms: &Vec<Symbol>, by_addr: &Vec<usize>, sec: (u64, u64)) -> (r: Vec<Symbol>)
    requires
        indices_valid(syms@, by_addr@),
    ensures
        symbols_view(r@) == section_members(syms@, by_addr@, sec),
{
    let mut out: Vec<Symbol> = Vec::new();
    let mut k: usize = 0;
    while k < by_addr.len()
        invariant
            k <= by_addr@.len(),
            indices_valid(syms@, by_addr@),
            symbols_view(out@) == members(syms@, by_addr@, sec, k as int),
        decreases by_addr.len() - k,
    {
        let idx = by_addr[k];
        assert(by_addr@[k as int] < syms@.len());
        let s = &syms[idx];
        if s.address >= sec.0 && (s.address as u128) < sec.0 as u128 + sec.1 as u128 {
            let ghost before = out@;
            out.push(s.clone());
            assert(symbols_view(out@) =~= symbols_view(before).push(s@));
        }
        k = k + 1;
    }
    out
}

/// The symbols `sec` lists at zoom `z`.
pub fn listed_exec(syms: &Vec<Symbol>, by_addr: &Vec<usize>, sec: (u64, u64), z: u8) -> (r: Vec<Symbol>)
    requires
        indices_valid(syms@, by_addr@),
    ensures
        symbols_view(r@) == listed(syms@, by_addr@, sec, z),
{
    let m = section_members_exec(syms, by_addr, sec);
    let ghost mv = symbols_view(m@);
    let mut sorted: Vec<Symbol> = Vec::new();
    let mut i: usize = 0;
    while i < m.len()
        invariant
            i <= m@.len(),
            mv == symbols_view(m@),
            symbols_view(sorted@) == sort_by(mv.take(i as int), size_desc_key()),
        decreases m.len() - i,
    {
        assert(mv.take(i + 1).drop_last() =~= mv.take(i as int));
        insert_by_size_desc(&mut sorted, m[i].clone());
        i = i + 1;
    }
    assert(mv.take(mv.len() as int) =~= mv);
    proof {
        crate::sort::lemma_sort_by_sorted(mv, size_desc_key());
    }
    let limit: usize = if z == 1 {
        3
    } else if z == 2 {
        10
    } else {
        1000
    };
    let ghost full = symbols_view(sorted@);
    sorted.truncate(limit);
    assert(symbols_view(sorted@) =~= if full.len() <= zoom_limit(z) {
        full
    } else {
        full.take(zoom_limit(z) as int)
    });
    sorted
}

/// Position of the first listed symbol called `name`.
fn name_position_exec(l: &Vec<Symbol>, name: &str) -> (r: usize)
    ensures
        r == name_position(symbols_view(l@), name@, 0),
{
    let ghost lv = symbols_view(l@);
    let mut i: usize = 0;
    while i < l.len()
        invariant
            i <= l@.len(),
            lv == symbols_view(l@),
            name_position(lv, name@, 0) == name_position(lv, name@, i as int),
        decreases l.len() - i,
    {
        if str_eq(l[i].name.as_str(), name) {
            return i;
        }
        i = i + 1;
    }
    0
}

/// The sections below 0x20000000 (`flash`) or from it on.
fn sections_in_exec(secs: &Vec<(u64, u64)>, flash: bool) -> (r: Vec<(u64, u64)>)
    ensures
        r@ == sections_in(secs@, flash),
{
    let mut out: Vec<(u64, u64)> = Vec::new();
    let mut i: usize = 0;
    while i < secs.len()
        invariant
            i <= secs@.len(),
            out@ == sections_in(secs@.take(i as int), flash),
        decreases secs.len() - i,
    {
        assert(secs@.take(i + 1).drop_last() =~= secs@.take(i as int));
        if (secs[i].0 < 0x2000_0000) == flash {
            out.push(secs[i]);
        }
        i = i + 1;
    }
    assert(secs@.take(secs@.len() as int) =~= secs@);
    out
}

/// `walk` from the first section.
fn walk_exec(
    syms: &Vec<Symbol>,
    by_addr: &Vec<usize>,
    secs: &Vec<(u64, u64)>,
    z: u8,
    sel: &Symbol,
    start: u128,
) -> (r: u128)
    requires
        indices_valid(syms@, by_addr@),
        start <= 0x1_0000_0000_0000_0000_0000,
    ensures
        r == walk(syms@, by_addr@, secs@, 0, z, *sel, start as nat),
        r <= start + 1002 * secs@.len() + 1000,
{
    let mut line: u128 = start;
    let mut i: usize = 0;
    while i < secs.len()
        invariant
            i <= secs@.len(),
            indices_valid(syms@, by_addr@),
            line <= start + 1002 * i,
            start <= 0x1_0000_0000_0000_0000_0000,
            i <= usize::MAX,
            walk(syms@, by_addr@, secs@, 0, z, *sel, start as nat) == walk(
                syms@,
                by_addr@,
                secs@,
                i as int,
                z,
                *sel,
                line as nat,
            ),
        decreases secs.len() - i,
    {
        let s = secs[i];
        line = line + 1;
        let end: u128 = s.0 as u128 + s.1 as u128;
        if s.0 <= sel.address && (sel.address as u128) < end && z > 0 {
            let l = listed_exec(syms, by_addr, s, z);
            let p = name_position_exec(&l, sel.name.as_str());
            proof {
                assert(symbols_view(l@).len() <= 1000);
            }
            assert(p <= 1000) by {
                lemma_name_position_bound(symbols_view(l@), sel.name@, 0);
            }
            return line + p as u128;
        }
        if sel.address as u128 >= end && z > 0 {
            let c = section_members_exec(syms, by_addr, s).len();
            let limit: usize = if z == 1 {
                3
            } else if z == 2 {
                10
            } else {
                1000
            };
            let shown: usize = if c < limit {
                c
            } else {
                limit
            };
            line = line + shown as u128;
            if c > limit {
                line = line + 1;
            }
        }
        i = i + 1;
    }
    line
}

proof fn lemma_name_position_bound(l: Seq<SymbolV>, name: Seq<char>, i: int)
    requires
        0 <= i,
    ensures
        name_position(l, name, i) < l.len() || name_position(l, name, i) == 0,
    decreases l.len() - i,
{
    if i < l.len() && l[i].name != name {
        lemma_name_position_bound(l, name, i + 1);
    }
}

/// The scroll position for the selected symbol `sel`.
pub fn scroll_for_exec(syms: &Vec<Symbol>, by_addr: &Vec<usize>, secs: &Vec<(u64, u64)>, z: u8, sel: &Symbol) -> (r: u16)
    requires
        indices_valid(syms@, by_addr@),
    ensures
        r == scroll_for(syms@, by_addr@, secs@, z, *sel),
{
    let flash = sections_in_exec(secs, true);
    let mut line = walk_exec(syms, by_addr, &flash, z, sel, 3);
    if sel.address >= 0x2000_0000 {
        let ram = sections_in_exec(secs, false);
        let l0 = line;
        let fl = flash.len();
        assert(l0 <= 3 + 1002 * fl + 1000);
        line = walk_exec(syms, by_addr, &ram, z, sel, l0 + 3);
    }
    let rest: u128 = if line >= 10 {
        line - 10
    } else {
        0
    };
    (rest % 0x1_0000) as u16
}

} // verus!
