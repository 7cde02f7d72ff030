//! Core diffing logic for comparing two memory layouts: section sizes,
//! symbols of the data sections and memory regions of linker scripts.
use vstd::prelude::*;

use crate::diff::compare::{
    Named, compare_named, compare_rows, named_view, rows_view,
};
use crate::diff::names::{copy_chars, first_index, last_index, names_view};
use crate::models::{MemoryLayout, MemoryRegion, MemorySection, Symbol, SymbolV, symbols_view};
use crate::sort::{insert_by, lemma_insert_by_at, sort_by};
use crate::text::{chars_eq, chars_of, str_eq, string_of};
use crate::utils::{fixed2, percent2_exec};

verus! {

// ---------------------------------------------------------------------------
// Result types
// ---------------------------------------------------------------------------

/// Result of comparing two ELF binaries.
#[derive(Debug)]
pub struct MemoryDiff {
    /// First binary info
    pub v1_info: BinaryInfo,
    /// Second binary info
    pub v2_info: BinaryInfo,
    /// Section-level differences
    pub section_diffs: Vec<SectionDiff>,
    /// Symbol-level changes for data sections (.data, .rodata, .bss)
    pub symbol_changes: SymbolChanges,
    /// Linker script comparison (if provided)
    pub linker_diff: Option<LinkerDiff>,
}

/// Basic information about a binary.
#[derive(Debug)]
pub struct BinaryInfo {
    pub path: String,
    pub total_flash_used: u64,
    pub total_ram_used: u64,
    /// Total Flash size
    pub flash_size: Option<u64>,
    /// Total RAM size
    pub ram_size: Option<u64>,
}

/// Difference for a single section.
#[derive(Debug)]
pub struct SectionDiff {
    pub name: String,
    pub v1_size: Option<u64>,
    pub v2_size: Option<u64>,
    pub delta: i64,
    pub status: SectionStatus,
}

/// Section change status.
#[derive(Debug, Clone, Copy, PartialEq, Eq, Structural)]
pub enum SectionStatus {
    /// Section exists in both binaries with size change
    Modified,
    /// Section exists in both binaries with same size
    Unchanged,
    /// Section only exists in v2
    New,
    /// Section only exists in v1
    Removed,
}

/// Symbol-level changes for data sections.
#[derive(Debug)]
pub struct SymbolChanges {
    /// Changes in .data section
    pub data_changes: SectionSymbolChanges,
    /// Changes in .rodata section
    pub rodata_changes: SectionSymbolChanges,
    /// Changes in .bss section
    pub bss_changes: SectionSymbolChanges,
}

/// Symbol changes within a specific section.
#[derive(Debug)]
pub struct SectionSymbolChanges {
    /// Section name (.data, .rodata, or .bss)
    pub section_name: String,
    pub total_delta: i64,
    pub new_symbols: Vec<Symbol>,
    pub removed_symbols: Vec<Symbol>,
    pub modified_symbols: Vec<ModifiedSymbol>,
}

/// A symbol that changed size between versions.
#[derive(Debug)]
pub struct ModifiedSymbol {
    pub name: String,
    pub v1_size: u64,
    pub v2_size: u64,
    pub delta: i64,
}

/// Linker script comparison.
#[derive(Debug)]
pub struct LinkerDiff {
    pub v1_script: Option<String>,
    pub v2_script: Option<String>,
    pub region_changes: Vec<RegionChange>,
}

/// Change in a memory region definition.
#[derive(Debug)]
pub struct RegionChange {
    pub name: String,
    pub v1_size: Option<u64>,
    pub v2_size: Option<u64>,
    pub status: RegionStatus,
}

/// Region change status.
#[derive(Debug, Clone, Copy, PartialEq, Eq, Structural)]
pub enum RegionStatus {
    Modified,
    Unchanged,
    New,
    Removed,
}

// ---------------------------------------------------------------------------
// Arithmetic on sizes
// ---------------------------------------------------------------------------

/// `v2 as i64 - v1 as i64` with two's complement wrap-around: the exact
/// difference whenever it fits in an `i64`.
pub open spec fn size_delta(v1: u64, v2: u64) -> i64 {
    let d = v2 - v1;
    if d > i64::MAX {
        (d - 0x1_0000_0000_0000_0000) as i64
    } else if d < i64::MIN {
        (d + 0x1_0000_0000_0000_0000) as i64
    } else {
        d as i64
    }
}

/// `size_delta(v1, v2)`.
pub fn size_delta_exec(v1: u64, v2: u64) -> (d: i64)
    ensures
        d == size_delta(v1, v2),
{
    if v2 >= v1 {
        let w = v2 - v1;
        if w <= 0x7fff_ffff_ffff_ffff {
            w as i64
        } else {
            let lo = (w - 0x8000_0000_0000_0000) as i64;
            lo - 0x7fff_ffff_ffff_ffff - 1
        }
    } else {
        let w = v1 - v2;
        if w <= 0x8000_0000_0000_0000 {
            if w == 0x8000_0000_0000_0000 {
                i64::MIN
            } else {
                -(w as i64)
            }
        } else {
            let up = (0xffff_ffff_ffff_ffff - w) + 1;
            up as i64
        }
    }
}

/// The magnitude by which modified symbols are ordered: `delta.abs()` as an
/// optimized build computes it (`i64::MIN` stays `i64::MIN`).
pub open spec fn abs_key(d: i64) -> int {
    if d == i64::MIN {
        i64::MIN as int
    } else if d < 0 {
        -d
    } else {
        d as int
    }
}

// ---------------------------------------------------------------------------
// Sections and regions
// ---------------------------------------------------------------------------

pub open spec fn section_named(s: Seq<MemorySection>) -> Seq<Named> {
    s.map_values(|m: MemorySection| (m.name@, m.size))
}

pub open spec fn region_named(s: Seq<MemoryRegion>) -> Seq<Named> {
    s.map_values(|m: MemoryRegion| (m.name@, m.length))
}

/// Delta of a section row.
pub open spec fn section_row_delta(v1: Option<u64>, v2: Option<u64>) -> i64 {
    match (v1, v2) {
        (Some(a), Some(b)) => size_delta(a, b),
        (None, Some(b)) => size_delta(0, b),
        (Some(a), None) => size_delta(a, 0),
        (None, None) => 0,
    }
}

/// Status of a section row.
pub open spec fn section_row_status(v1: Option<u64>, v2: Option<u64>) -> SectionStatus {
    match (v1, v2) {
        (Some(a), Some(b)) => if a == b {
            SectionStatus::Unchanged
        } else {
            SectionStatus::Modified
        },
        (None, Some(_)) => SectionStatus::New,
        (Some(_), None) => SectionStatus::Removed,
        (None, None) => SectionStatus::Unchanged,
    }
}

/// Status of a region row.
pub open spec fn region_row_status(v1: Option<u64>, v2: Option<u64>) -> RegionStatus {
    match (v1, v2) {
        (Some(a), Some(b)) => if a == b {
            RegionStatus::Unchanged
        } else {
            RegionStatus::Modified
        },
        (None, Some(_)) => RegionStatus::New,
        (Some(_), None) => RegionStatus::Removed,
        (None, None) => RegionStatus::Unchanged,
    }
}

/// A section diff is the row `(name, v1, v2)` with its delta and status.
pub open spec fn section_diff_is(d: SectionDiff, row: (Seq<char>, Option<u64>, Option<u64>)) -> bool {
    &&& d.name@ == row.0
    &&& d.v1_size == row.1
    &&& d.v2_size == row.2
    &&& d.delta == section_row_delta(row.1, row.2)
    &&& d.status == section_row_status(row.1, row.2)
}

/// A region change is the row `(name, v1, v2)` with its status.
pub open spec fn region_change_is(d: RegionChange, row: (Seq<char>, Option<u64>, Option<u64>)) -> bool {
    &&& d.name@ == row.0
    &&& d.v1_size == row.1
    &&& d.v2_size == row.2
    &&& d.status == region_row_status(row.1, row.2)
}

/// The percentage change of a section, `delta / v1 * 100` with two decimals
/// (zero when the section is new, removed or was empty).
pub open spec fn percent_change_text_of(d: SectionDiff) -> Seq<char> {
    match (d.v1_size, d.v2_size) {
        (Some(v1), Some(_)) => if v1 == 0 {
            "0.00"@
        } else if d.delta < 0 {
            seq!['-'] + fixed2((-d.delta) as nat * 100, v1 as nat)
        } else {
            fixed2(d.delta as nat * 100, v1 as nat)
        },
        _ => "0.00"@,
    }
}

impl SectionDiff {
    /// The exact percentage change with two decimals, rounded to nearest
    /// with ties to even (e.g. "50.00", "-20.00").
    pub fn percent_change_text(&self) -> (r: String)
        ensures
            r@ == percent_change_text_of(*self),
    {
        match (self.v1_size, self.v2_size) {
            (Some(v1), Some(_)) => {
                if v1 == 0 {
                    String::from_str("0.00")
                } else if self.delta < 0 {
                    let mag: u64 = if self.delta == i64::MIN {
                        0x8000_0000_0000_0000
                    } else {
                        (-self.delta) as u64
                    };
                    let mut v: Vec<char> = vec!['-'];
                    let t = percent2_exec(mag, v1);
                    let mut t2 = t;
                    v.append(&mut t2);
                    string_of(v.as_slice())
                } else {
                    let t = percent2_exec(self.delta as u64, v1);
                    string_of(t.as_slice())
                }
            }
            _ => String::from_str("0.00"),
        }
    }
}

/// `(name, size)` of each section.
fn section_pairs(s: &Vec<MemorySection>) -> (r: Vec<(Vec<char>, u64)>)
    ensures
        named_view(r@) == section_named(s@),
{
    let mut r: Vec<(Vec<char>, u64)> = Vec::new();
    let mut i: usize = 0;
    while i < s.len()
        invariant
            i <= s@.len(),
            named_view(r@) =~= section_named(s@).take(i as int),
        decreases s.len() - i,
    {
        let ghost before = r@;
        r.push((chars_of(s[i].name.as_str()), s[i].size));
        assert(named_view(r@) =~= named_view(before).push((s@[i as int].name@, s@[i as int].size)));
        i = i + 1;
    }
    r
}

/// `(name, length)` of each region.
fn region_pairs(s: &[MemoryRegion]) -> (r: Vec<(Vec<char>, u64)>)
    ensures
        named_view(r@) == region_named(s@),
{
    let mut r: Vec<(Vec<char>, u64)> = Vec::new();
    let mut i: usize = 0;
    while i < s.len()
        invariant
            i <= s@.len(),
            named_view(r@) =~= region_named(s@).take(i as int),
        decreases s.len() - i,
    {
        let ghost before = r@;
        r.push((chars_of(s[i].name.as_str()), s[i].length));
        assert(named_view(r@) =~= named_view(before).push((s@[i as int].name@, s@[i as int].length)));
        i = i + 1;
    }
    r
}

impl DiffAnalyzer {
    /// Compare sections between two layouts: one row per section name of
    /// either layout, in lexicographic order.
    fn diff_sections(&self, v1_sections: &Vec<MemorySection>, v2_sections: &Vec<MemorySection>) -> (r: Vec<SectionDiff>)
        requires
            v1_sections@.len() + v2_sections@.len() <= usize::MAX,
        ensures
            r@.len() == compare_rows(section_named(v1_sections@), section_named(v2_sections@)).len(),
            forall|i: int| 0 <= i < r@.len() ==> section_diff_is(#[trigger] r@[i],
                compare_rows(section_named(v1_sections@), section_named(v2_sections@))[i]),
    {
        let a = section_pairs(v1_sections);
        let b = section_pairs(v2_sections);
        let rows = compare_named(&a, &b);
        let ghost spec_rows = compare_rows(section_named(v1_sections@), section_named(v2_sections@));
        let mut diffs: Vec<SectionDiff> = Vec::new();
        let mut i: usize = 0;
        while i < rows.len()
            invariant
                i <= rows@.len(),
                rows_view(rows@) == spec_rows,
                diffs@.len() == i,
                forall|k: int| 0 <= k < i ==> section_diff_is(#[trigger] diffs@[k], spec_rows[k]),
            decreases rows.len() - i,
        {
            let row = &rows[i];
            let v1_size = row.1;
            let v2_size = row.2;
            let (delta, status) = match (v1_size, v2_size) {
                (Some(v1), Some(v2)) => {
                    let d = size_delta_exec(v1, v2);
                    if v1 == v2 {
                        (d, SectionStatus::Unchanged)
                    } else {
                        (d, SectionStatus::Modified)
                    }
                },
                (None, Some(v2)) => (size_delta_exec(0, v2), SectionStatus::New),
                (Some(v1), None) => (size_delta_exec(v1, 0), SectionStatus::Removed),
                (None, None) => (0, SectionStatus::Unchanged),
            };
            assert(spec_rows[i as int] == (row.0@, v1_size, v2_size));
            diffs.push(SectionDiff { name: string_of(row.0.as_slice()), v1_size, v2_size, delta, status });
            i = i + 1;
        }
        diffs
    }

    /// Compare memory regions from linker scripts: one row per region name
    /// of either script, in lexicographic order.
    fn diff_regions(&self, v1_regions: &[MemoryRegion], v2_regions: &[MemoryRegion]) -> (r: Vec<RegionChange>)
        requires
            v1_regions@.len() + v2_regions@.len() <= usize::MAX,
        ensures
            r@.len() == compare_rows(region_named(v1_regions@), region_named(v2_regions@)).len(),
            forall|i: int| 0 <= i < r@.len() ==> region_change_is(#[trigger] r@[i],
                compare_rows(region_named(v1_regions@), region_named(v2_regions@))[i]),
    {
        let a = region_pairs(v1_regions);
        let b = region_pairs(v2_regions);
        let rows = compare_named(&a, &b);
        let ghost spec_rows = compare_rows(region_named(v1_regions@), region_named(v2_regions@));
        let mut changes: Vec<RegionChange> = Vec::new();
        let mut i: usize = 0;
        while i < rows.len()
            invariant
                i <= rows@.len(),
                rows_view(rows@) == spec_rows,
                changes@.len() == i,
                forall|k: int| 0 <= k < i ==> region_change_is(#[trigger] changes@[k], spec_rows[k]),
            decreases rows.len() - i,
        {
            let row = &rows[i];
            let v1_size = row.1;
            let v2_size = row.2;
            let status = match (v1_size, v2_size) {
                (Some(v1), Some(v2)) => if v1 == v2 {
                    RegionStatus::Unchanged
                } else {
                    RegionStatus::Modified
                },
                (None, Some(_)) => RegionStatus::New,
                (Some(_), None) => RegionStatus::Removed,
                (None, None) => RegionStatus::Unchanged,
            };
            assert(spec_rows[i as int] == (row.0@, v1_size, v2_size));
            changes.push(RegionChange { name: string_of(row.0.as_slice()), v1_size, v2_size, status });
            i = i + 1;
        }
        changes
    }
}

/// Analyzer for computing diffs between two memory layouts.
pub struct DiffAnalyzer;

// ---------------------------------------------------------------------------
// Symbols of the data sections
// ---------------------------------------------------------------------------

/// A modified symbol as plain values.
pub struct ModV {
    pub name: Seq<char>,
    pub v1_size: u64,
    pub v2_size: u64,
    pub delta: i64,
}

impl View for ModifiedSymbol {
    type V = ModV;

    open spec fn view(&self) -> ModV {
        ModV { name: self.name@, v1_size: self.v1_size, v2_size: self.v2_size, delta: self.delta }
    }
}

pub open spec fn mods_view(v: Seq<ModifiedSymbol>) -> Seq<ModV> {
    v.map_values(|m: ModifiedSymbol| m@)
}

pub open spec fn sym_names(s: Seq<SymbolV>) -> Seq<Seq<char>> {
    s.map_values(|y: SymbolV| y.name)
}

/// No later entry carries the name of entry `i` (so entry `i` is the one a
/// lookup by name finds).
pub open spec fn is_last(n: Seq<Seq<char>>, i: int) -> bool {
    forall|j: int| i < j < n.len() ==> n[j] != n[i]
}

/// The symbols of the first section called `name`; none when there is no such section.
pub open spec fn section_symbols(s: Seq<MemorySection>, name: Seq<char>) -> Seq<SymbolV> {
    match first_index(s.map_values(|m: MemorySection| m.name@), name, 0) {
        Some(i) => symbols_view(s[i].symbols@),
        None => Seq::empty(),
    }
}

/// Among the first `n` symbols of `b`, those whose name `a` does not have
/// (one per name: the last one).
pub open spec fn new_syms(a: Seq<SymbolV>, b: Seq<SymbolV>, n: int) -> Seq<SymbolV>
    decreases n,
{
    if n <= 0 {
        Seq::empty()
    } else {
        let rest = new_syms(a, b, n - 1);
        if is_last(sym_names(b), n - 1) && !sym_names(a).contains(b[n - 1].name) {
            rest.push(b[n - 1])
        } else {
            rest
        }
    }
}

/// Among the first `n` symbols of `a`, those whose name `b` does not have
/// (one per name: the last one).
pub open spec fn removed_syms(a: Seq<SymbolV>, b: Seq<SymbolV>, n: int) -> Seq<SymbolV>
    decreases n,
{
    if n <= 0 {
        Seq::empty()
    } else {
        let rest = removed_syms(a, b, n - 1);
        if is_last(sym_names(a), n - 1) && !sym_names(b).contains(a[n - 1].name) {
            rest.push(a[n - 1])
        } else {
            rest
        }
    }
}

/// The size `a` gives the name `x` (its last symbol of that name).
pub open spec fn size_in(a: Seq<SymbolV>, x: Seq<char>) -> u64 {
    match last_index(sym_names(a), x, a.len() as int) {
        Some(i) => a[i].size,
        None => 0,
    }
}

/// Among the first `n` symbols of `b`, those whose name `a` has with another size.
pub open spec fn modified_syms(a: Seq<SymbolV>, b: Seq<SymbolV>, n: int) -> Seq<ModV>
    decreases n,
{
    if n <= 0 {
        Seq::empty()
    } else {
        let rest = modified_syms(a, b, n - 1);
        let y = b[n - 1];
        if is_last(sym_names(b), n - 1) && sym_names(a).contains(y.name) && size_in(a, y.name)
            != y.size {
            rest.push(
                ModV {
                    name: y.name,
                    v1_size: size_in(a, y.name),
                    v2_size: y.size,
                    delta: size_delta(size_in(a, y.name), y.size),
                },
            )
        } else {
            rest
        }
    }
}

/// Largest size first.
pub open spec fn size_desc_key() -> spec_fn(SymbolV) -> int {
    |y: SymbolV| -(y.size as int)
}

/// Largest change first.
pub open spec fn delta_desc_key() -> spec_fn(ModV) -> int {
    |m: ModV| -abs_key(m.delta)
}

/// Sum of the sizes (each as `i64`), wrapping around as an optimized build does.
pub open spec fn size_total(s: Seq<SymbolV>) -> i64
    decreases s.len(),
{
    if s.len() == 0 {
        0
    } else {
        vstd::wrapping::i64_specs::wrapping_add(size_total(s.drop_last()), size_delta(0, s.last().size))
    }
}

/// Sum of the deltas, wrapping around as an optimized build does.
pub open spec fn delta_total(s: Seq<ModV>) -> i64
    decreases s.len(),
{
    if s.len() == 0 {
        0
    } else {
        vstd::wrapping::i64_specs::wrapping_add(delta_total(s.drop_last()), s.last().delta)
    }
}

pub open spec fn sorted_new(a: Seq<SymbolV>, b: Seq<SymbolV>) -> Seq<SymbolV> {
    sort_by(new_syms(a, b, b.len() as int), size_desc_key())
}

pub open spec fn sorted_removed(a: Seq<SymbolV>, b: Seq<SymbolV>) -> Seq<SymbolV> {
    sort_by(removed_syms(a, b, a.len() as int), size_desc_key())
}

pub open spec fn sorted_modified(a: Seq<SymbolV>, b: Seq<SymbolV>) -> Seq<ModV> {
    sort_by(modified_syms(a, b, b.len() as int), delta_desc_key())
}

/// New minus removed sizes plus the modified deltas.
pub open spec fn total_delta_of(a: Seq<SymbolV>, b: Seq<SymbolV>) -> i64 {
    vstd::wrapping::i64_specs::wrapping_add(
        vstd::wrapping::i64_specs::wrapping_sub(
            size_total(sorted_new(a, b)),
            size_total(sorted_removed(a, b)),
        ),
        delta_total(sorted_modified(a, b)),
    )
}

/// `r` is the symbol comparison of `a` (old) and `b` (new) for the section `name`.
pub open spec fn changes_are(r: SectionSymbolChanges, a: Seq<SymbolV>, b: Seq<SymbolV>, name: Seq<char>) -> bool {
    &&& r.section_name@ == name
    &&& symbols_view(r.new_symbols@) == sorted_new(a, b)
    &&& symbols_view(r.removed_symbols@) == sorted_removed(a, b)
    &&& mods_view(r.modified_symbols@) == sorted_modified(a, b)
    &&& r.total_delta == total_delta_of(a, b)
}

/// Index of the first section called `name`.
fn find_section(sections: &Vec<MemorySection>, name: &str) -> (r: Option<usize>)
    ensures
        match r {
            Some(i) => i < sections@.len() && first_index(sections@.map_values(|m: MemorySection| m.name@), name@, 0) == Some(i as int),
            None => first_index(sections@.map_values(|m: MemorySection| m.name@), name@, 0) is None,
        },
{
    let ghost n = sections@.map_values(|m: MemorySection| m.name@);
    let mut i: usize = 0;
    while i < sections.len()
        invariant
            i <= sections@.len(),
            n == sections@.map_values(|m: MemorySection| m.name@),
            first_index(n, name@, 0) == first_index(n, name@, i as int),
        decreases sections.len() - i,
    {
        if str_eq(sections[i].name.as_str(), name) {
            return Some(i);
        }
        i = i + 1;
    }
    None
}

/// The names of the symbols.
fn symbol_names(v: &Vec<Symbol>) -> (r: Vec<Vec<char>>)
    ensures
        names_view(r@) == sym_names(symbols_view(v@)),
{
    let mut r: Vec<Vec<char>> = Vec::new();
    let mut i: usize = 0;
    while i < v.len()
        invariant
            i <= v@.len(),
            names_view(r@) =~= sym_names(symbols_view(v@)).take(i as int),
        decreases v.len() - i,
    {
        let ghost before = r@;
        r.push(chars_of(v[i].name.as_str()));
        assert(names_view(r@) =~= names_view(before).push(v@[i as int].name@));
        i = i + 1;
    }
    r
}

/// Whether no name after index `i` equals the name at `i`.
fn is_last_exec(n: &Vec<Vec<char>>, i: usize) -> (r: bool)
    requires
        i < n@.len(),
    ensures
        r == is_last(names_view(n@), i as int),
{
    let len = n.len();
    let mut j = i + 1;
    while j < len
        invariant
            i < j <= n@.len(),
            len == n@.len(),
            forall|k: int| i < k < j ==> names_view(n@)[k] != names_view(n@)[i as int],
        decreases n.len() - j,
    {
        if chars_eq(n[j].as_slice(), n[i].as_slice()) {
            assert(names_view(n@)[j as int] == names_view(n@)[i as int]);
            return false;
        }
        j = j + 1;
    }
    true
}

/// Index of the last name equal to `x`.
fn last_index_exec(n: &Vec<Vec<char>>, x: &[char]) -> (r: Option<usize>)
    ensures
        match r {
            Some(i) => last_index(names_view(n@), x@, n@.len() as int) == Some(i as int) && i < n@.len(),
            None => last_index(names_view(n@), x@, n@.len() as int) is None,
        },
{
    let mut i = n.len();
    while i > 0 && !chars_eq(n[i - 1].as_slice(), x)
        invariant
            i <= n@.len(),
            last_index(names_view(n@), x@, n@.len() as int) == last_index(names_view(n@), x@, i as int),
        decreases i,
    {
        i = i - 1;
    }
    if i == 0 {
        None
    } else {
        Some(i - 1)
    }
}

/// Inserts `x` after the symbols at least as large.
pub(crate) fn insert_by_size_desc(v: &mut Vec<Symbol>, x: Symbol)
    ensures
        symbols_view(final(v)@) == insert_by(symbols_view(old(v)@), x@, size_desc_key()),
{
    let ghost s = symbols_view(v@);
    let mut j = v.len();
    while j > 0 && v[j - 1].size < x.size
        invariant
            j <= v@.len(),
            s == symbols_view(v@),
            forall|k: int| j <= k < s.len() ==> (size_desc_key())(#[trigger] s[k]) > (size_desc_key())(x@),
        decreases j,
    {
        j = j - 1;
    }
    proof {
        lemma_insert_by_at(s, x@, size_desc_key(), j as int);
    }
    let ghost xv = x@;
    v.insert(j, x);
    assert(symbols_view(v@) =~= s.take(j as int).push(xv) + s.skip(j as int));
}

/// `abs_key(d)` as an executable value.
pub(crate) fn abs_key_exec(d: i64) -> (r: i128)
    ensures
        r == abs_key(d),
{
    if d == i64::MIN {
        i64::MIN as i128
    } else if d < 0 {
        -(d as i128)
    } else {
        d as i128
    }
}

/// Inserts `m` after the modified symbols whose change is at least as large.
fn insert_by_delta_desc(v: &mut Vec<ModifiedSymbol>, m: ModifiedSymbol)
    ensures
        mods_view(final(v)@) == insert_by(mods_view(old(v)@), m@, delta_desc_key()),
{
    let ghost s = mods_view(v@);
    let km = abs_key_exec(m.delta);
    let mut j = v.len();
    while j > 0 && abs_key_exec(v[j - 1].delta) < km
        invariant
            j <= v@.len(),
            s == mods_view(v@),
            km == abs_key(m.delta),
            forall|k: int| j <= k < s.len() ==> (delta_desc_key())(#[trigger] s[k]) > (delta_desc_key())(m@),
        decreases j,
    {
        j = j - 1;
    }
    proof {
        lemma_insert_by_at(s, m@, delta_desc_key(), j as int);
    }
    let ghost mv = m@;
    v.insert(j, m);
    assert(mods_view(v@) =~= s.take(j as int).push(mv) + s.skip(j as int));
}

/// Wrapping sum of the symbol sizes.
fn size_total_exec(v: &Vec<Symbol>) -> (r: i64)
    ensures
        r == size_total(symbols_view(v@)),
{
    let ghost s = symbols_view(v@);
    let mut acc: i64 = 0;
    let mut i: usize = 0;
    while i < v.len()
        invariant
            i <= v@.len(),
            s == symbols_view(v@),
            acc == size_total(s.take(i as int)),
        decreases v.len() - i,
    {
        assert(s.take(i + 1).drop_last() =~= s.take(i as int));
        acc = acc.wrapping_add(size_delta_exec(0, v[i].size));
        i = i + 1;
    }
    assert(s.take(v@.len() as int) =~= s);
    acc
}

/// Wrapping sum of the deltas.
fn delta_total_exec(v: &Vec<ModifiedSymbol>) -> (r: i64)
    ensures
        r == delta_total(mods_view(v@)),
{
    let ghost s = mods_view(v@);
    let mut acc: i64 = 0;
    let mut i: usize = 0;
    while i < v.len()
        invariant
            i <= v@.len(),
            s == mods_view(v@),
            acc == delta_total(s.take(i as int)),
        decreases v.len() - i,
    {
        assert(s.take(i + 1).drop_last() =~= s.take(i as int));
        acc = acc.wrapping_add(v[i].delta);
        i = i + 1;
    }
    assert(s.take(v@.len() as int) =~= s);
    acc
}

/// Compare the symbols `a` (old) and `b` (new) of a section.
fn compare_symbols(a: &Vec<Symbol>, b: &Vec<Symbol>, section_name: &str) -> (r: SectionSymbolChanges)
    ensures
        changes_are(r, symbols_view(a@), symbols_view(b@), section_name@),
{
    let ghost sa = symbols_view(a@);
    let ghost sb = symbols_view(b@);
    let an = symbol_names(a);
    let bn = symbol_names(b);
    assert(an@.len() == a@.len() && bn@.len() == b@.len()) by {
        assert(names_view(an@).len() == sym_names(sa).len());
        assert(names_view(bn@).len() == sym_names(sb).len());
    }
    let mut new_symbols: Vec<Symbol> = Vec::new();
    let mut modified_symbols: Vec<ModifiedSymbol> = Vec::new();
    let mut i: usize = 0;
    while i < b.len()
        invariant
            i <= b@.len(),
            sa == symbols_view(a@),
            sb == symbols_view(b@),
            names_view(an@) == sym_names(sa),
            names_view(bn@) == sym_names(sb),
            an@.len() == a@.len(),
            bn@.len() == b@.len(),
            symbols_view(new_symbols@) == sort_by(new_syms(sa, sb, i as int), size_desc_key()),
            mods_view(modified_symbols@) == sort_by(modified_syms(sa, sb, i as int), delta_desc_key()),
        decreases b.len() - i,
    {
        let y = &b[i];
        let last = is_last_exec(&bn, i);
        if last {
            let found = last_index_exec(&an, bn[i].as_slice());
            assert(names_view(bn@)[i as int] == sb[i as int].name);
            match found {
                None => {
                    proof {
                        if sym_names(sa).contains(sb[i as int].name) {
                            let k = choose|k: int| 0 <= k < sym_names(sa).len() && sym_names(sa)[k] == sb[i as int].name;
                            lemma_last_index_found(sym_names(sa), sb[i as int].name, sa.len() as int, k);
                        }
                        assert(new_syms(sa, sb, i + 1) == new_syms(sa, sb, i as int).push(sb[i as int]));
                        assert(new_syms(sa, sb, i + 1).drop_last() =~= new_syms(sa, sb, i as int));
                        assert(modified_syms(sa, sb, i + 1) == modified_syms(sa, sb, i as int));
                    }
                    insert_by_size_desc(&mut new_symbols, y.clone());
                },
                Some(k) => {
                    let v1_size = a[k].size;
                    proof {
                        lemma_last_index_hit(sym_names(sa), sb[i as int].name, sa.len() as int);
                        assert(sym_names(sa)[k as int] == sb[i as int].name);
                        assert(sym_names(sa).contains(sb[i as int].name));
                        assert(size_in(sa, sb[i as int].name) == v1_size);
                        assert(new_syms(sa, sb, i + 1) == new_syms(sa, sb, i as int));
                    }
                    if v1_size != y.size {
                        let m = ModifiedSymbol {
                            name: y.name.clone(),
                            v1_size,
                            v2_size: y.size,
                            delta: size_delta_exec(v1_size, y.size),
                        };
                        proof {
                            assert(modified_syms(sa, sb, i + 1).drop_last() =~= modified_syms(sa, sb, i as int));
                        }
                        insert_by_delta_desc(&mut modified_symbols, m);
                    } else {
                        assert(modified_syms(sa, sb, i + 1) == modified_syms(sa, sb, i as int));
                    }
                },
            }
        } else {
            assert(new_syms(sa, sb, i + 1) == new_syms(sa, sb, i as int));
            assert(modified_syms(sa, sb, i + 1) == modified_syms(sa, sb, i as int));
        }
        i = i + 1;
    }
    let mut removed_symbols: Vec<Symbol> = Vec::new();
    let mut i: usize = 0;
    while i < a.len()
        invariant
            i <= a@.len(),
            sa == symbols_view(a@),
            sb == symbols_view(b@),
            names_view(an@) == sym_names(sa),
            names_view(bn@) == sym_names(sb),
            an@.len() == a@.len(),
            bn@.len() == b@.len(),
            symbols_view(removed_symbols@) == sort_by(removed_syms(sa, sb, i as int), size_desc_key()),
        decreases a.len() - i,
    {
        let last = is_last_exec(&an, i);
        assert(names_view(an@)[i as int] == sa[i as int].name);
        if last && !crate::diff::names::contains_name(&bn, an[i].as_slice()) {
            proof {
                assert(removed_syms(sa, sb, i + 1).drop_last() =~= removed_syms(sa, sb, i as int));
            }
            insert_by_size_desc(&mut removed_symbols, a[i].clone());
        } else {
            assert(removed_syms(sa, sb, i + 1) == removed_syms(sa, sb, i as int));
        }
        i = i + 1;
    }
    let new_total = size_total_exec(&new_symbols);
    let removed_total = size_total_exec(&removed_symbols);
    let modified_total = delta_total_exec(&modified_symbols);
    let total_delta = new_total.wrapping_sub(removed_total).wrapping_add(modified_total);
    SectionSymbolChanges {
        section_name: String::from_str(section_name),
        total_delta,
        new_symbols,
        removed_symbols,
        modified_symbols,
    }
}

/// What `last_index` finds is an occurrence.
proof fn lemma_last_index_hit(s: Seq<Seq<char>>, x: Seq<char>, n: int)
    requires
        n <= s.len(),
    ensures
        last_index(s, x, n) matches Some(k) ==> 0 <= k < n && s[k] == x,
    decreases n,
{
    if n > 0 && s[n - 1] != x {
        lemma_last_index_hit(s, x, n - 1);
    }
}

/// A name that occurs among the first `n` names has a last occurrence there.
proof fn lemma_last_index_found(s: Seq<Seq<char>>, x: Seq<char>, n: int, k: int)
    requires
        0 <= k < n <= s.len(),
        s[k] == x,
    ensures
        last_index(s, x, n) is Some,
    decreases n,
{
    if s[n - 1] != x {
        lemma_last_index_found(s, x, n - 1, k);
    }
}

// ---------------------------------------------------------------------------
// The whole comparison
// ---------------------------------------------------------------------------

/// The regions of an optional linker script (none when absent).
pub open spec fn script_regions(o: Option<&[MemoryRegion]>) -> Seq<MemoryRegion> {
    match o {
        Some(s) => s@,
        None => Seq::empty(),
    }
}

/// The information kept about one binary.
pub open spec fn info_is(i: BinaryInfo, layout: MemoryLayout, path: Seq<char>) -> bool {
    &&& i.path@ == path
    &&& i.total_flash_used == layout.total_flash_used
    &&& i.total_ram_used == layout.total_ram_used
    &&& i.flash_size == layout.flash_size
    &&& i.ram_size == layout.ram_size
}

/// The section rows of two layouts.
pub open spec fn section_rows(v1: MemoryLayout, v2: MemoryLayout) -> Seq<(Seq<char>, Option<u64>, Option<u64>)> {
    compare_rows(section_named(v1.sections@), section_named(v2.sections@))
}

/// The region rows of two linker scripts.
pub open spec fn region_rows(v1: Option<&[MemoryRegion]>, v2: Option<&[MemoryRegion]>) -> Seq<(Seq<char>, Option<u64>, Option<u64>)> {
    compare_rows(region_named(script_regions(v1)), region_named(script_regions(v2)))
}

/// `r` is the symbol comparison of the sections called `name` in the two layouts.
pub open spec fn section_changes_are(r: SectionSymbolChanges, v1: MemoryLayout, v2: MemoryLayout, name: Seq<char>) -> bool {
    changes_are(r, section_symbols(v1.sections@, name), section_symbols(v2.sections@, name), name)
}

/// `r` is the comparison of two optional linker scripts.
pub open spec fn linker_diff_is(r: Option<LinkerDiff>, v1: Option<&[MemoryRegion]>, v2: Option<&[MemoryRegion]>) -> bool {
    match r {
        None => v1 is None && v2 is None,
        Some(d) => {
            &&& (v1 is Some || v2 is Some)
            &&& (d.v1_script is Some <==> v1 is Some)
            &&& (d.v2_script is Some <==> v2 is Some)
            &&& (d.v1_script matches Some(n) ==> n@ == "v1.ld"@)
            &&& (d.v2_script matches Some(n) ==> n@ == "v2.ld"@)
            &&& d.region_changes@.len() == region_rows(v1, v2).len()
            &&& forall|i: int| 0 <= i < d.region_changes@.len() ==> region_change_is(
                #[trigger] d.region_changes@[i], region_rows(v1, v2)[i])
        },
    }
}

impl DiffAnalyzer {
    pub fn new() -> (r: Self) {
        DiffAnalyzer
    }

    /// Compare two memory layouts (and, when given, the memory regions of
    /// their linker scripts) and produce a diff.
    pub fn diff(
        &self,
        v1_layout: &MemoryLayout,
        v2_layout: &MemoryLayout,
        v1_path: &str,
        v2_path: &str,
        v1_linker: Option<&[MemoryRegion]>,
        v2_linker: Option<&[MemoryRegion]>,
    ) -> (r: MemoryDiff)
        requires
            v1_layout.sections@.len() + v2_layout.sections@.len() <= usize::MAX,
            script_regions(v1_linker).len() + script_regions(v2_linker).len() <= usize::MAX,
        ensures
            info_is(r.v1_info, *v1_layout, v1_path@),
            info_is(r.v2_info, *v2_layout, v2_path@),
            r.section_diffs@.len() == section_rows(*v1_layout, *v2_layout).len(),
            forall|i: int| 0 <= i < r.section_diffs@.len() ==> section_diff_is(
                #[trigger] r.section_diffs@[i], section_rows(*v1_layout, *v2_layout)[i]),
            section_changes_are(r.symbol_changes.data_changes, *v1_layout, *v2_layout, ".data"@),
            section_changes_are(r.symbol_changes.rodata_changes, *v1_layout, *v2_layout, ".rodata"@),
            section_changes_are(r.symbol_changes.bss_changes, *v1_layout, *v2_layout, ".bss"@),
            linker_diff_is(r.linker_diff, v1_linker, v2_linker),
    {
        let v1_info = BinaryInfo {
            path: String::from_str(v1_path),
            total_flash_used: v1_layout.total_flash_used,
            total_ram_used: v1_layout.total_ram_used,
            flash_size: v1_layout.flash_size,
            ram_size: v1_layout.ram_size,
        };
        let v2_info = BinaryInfo {
            path: String::from_str(v2_path),
            total_flash_used: v2_layout.total_flash_used,
            total_ram_used: v2_layout.total_ram_used,
            flash_size: v2_layout.flash_size,
            ram_size: v2_layout.ram_size,
        };
        let section_diffs = self.diff_sections(&v1_layout.sections, &v2_layout.sections);
        let symbol_changes = self.diff_symbols(&v1_layout.sections, &v2_layout.sections);
        let linker_diff = self.diff_linker_scripts(v1_linker, v2_linker);
        MemoryDiff { v1_info, v2_info, section_diffs, symbol_changes, linker_diff }
    }

    /// Compare symbols in data sections (.data, .rodata, .bss).
    fn diff_symbols(&self, v1_sections: &Vec<MemorySection>, v2_sections: &Vec<MemorySection>) -> (r: SymbolChanges)
        ensures
            changes_are(r.data_changes, section_symbols(v1_sections@, ".data"@), section_symbols(v2_sections@, ".data"@), ".data"@),
            changes_are(r.rodata_changes, section_symbols(v1_sections@, ".rodata"@), section_symbols(v2_sections@, ".rodata"@), ".rodata"@),
            changes_are(r.bss_changes, section_symbols(v1_sections@, ".bss"@), section_symbols(v2_sections@, ".bss"@), ".bss"@),
    {
        let data_changes = self.diff_section_symbols(v1_sections, v2_sections, ".data");
        let rodata_changes = self.diff_section_symbols(v1_sections, v2_sections, ".rodata");
        let bss_changes = self.diff_section_symbols(v1_sections, v2_sections, ".bss");
        SymbolChanges { data_changes, rodata_changes, bss_changes }
    }

    /// Compare the symbols of the first section called `section_name` in each layout.
    fn diff_section_symbols(
        &self,
        v1_sections: &Vec<MemorySection>,
        v2_sections: &Vec<MemorySection>,
        section_name: &str,
    ) -> (r: SectionSymbolChanges)
        ensures
            changes_are(r, section_symbols(v1_sections@, section_name@), section_symbols(v2_sections@, section_name@), section_name@),
    {
        let empty: Vec<Symbol> = Vec::new();
        let a: &Vec<Symbol> = match find_section(v1_sections, section_name) {
            Some(i) => &v1_sections[i].symbols,
            None => &empty,
        };
        let b: &Vec<Symbol> = match find_section(v2_sections, section_name) {
            Some(i) => &v2_sections[i].symbols,
            None => &empty,
        };
        assert(symbols_view(a@) == section_symbols(v1_sections@, section_name@)) by {
            assert(symbols_view(empty@) =~= Seq::<SymbolV>::empty());
        }
        assert(symbols_view(b@) == section_symbols(v2_sections@, section_name@)) by {
            assert(symbols_view(empty@) =~= Seq::<SymbolV>::empty());
        }
        compare_symbols(a, b, section_name)
    }

    /// Compare linker scripts (if provided).
    fn diff_linker_scripts(&self, v1_regions: Option<&[MemoryRegion]>, v2_regions: Option<&[MemoryRegion]>) -> (r: Option<LinkerDiff>)
        requires
            script_regions(v1_regions).len() + script_regions(v2_regions).len() <= usize::MAX,
        ensures
            linker_diff_is(r, v1_regions, v2_regions),
    {
        if v1_regions.is_none() && v2_regions.is_none() {
            return None;
        }
        let empty: Vec<MemoryRegion> = Vec::new();
        let a: &[MemoryRegion] = match v1_regions {
            Some(s) => s,
            None => empty.as_slice(),
        };
        let b: &[MemoryRegion] = match v2_regions {
            Some(s) => s,
            None => empty.as_slice(),
        };
        assert(a@ == script_regions(v1_regions));
        assert(b@ == script_regions(v2_regions));
        let region_changes = self.diff_regions(a, b);
        let v1_script = match v1_regions {
            Some(_) => Some(String::from_str("v1.ld")),
            None => None,
        };
        let v2_script = match v2_regions {
            Some(_) => Some(String::from_str("v2.ld")),
            None => None,
        };
        Some(LinkerDiff { v1_script, v2_script, region_changes })
    }
}

impl Default for DiffAnalyzer {
    fn default() -> (r: Self) {
        Self::new()
    }
}

} // verus!
