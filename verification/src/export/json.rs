//! The machine-readable report: every figure of the layout, analysis and
//! symbols as plain values and strings, ready to be serialised as JSON.
use vstd::prelude::*;

use crate::export::markdown::{flash_p, ram_p, sections_where};
use crate::elf::analyzer::strings_view;
use crate::models::{
    AnalysisResult, MemoryGap, MemoryLayout, MemoryOverlap, MemorySection, Symbol, binding_name,
    gap_region_name, opt_view, section_type_name, symbol_type_name, visibility_name,
};
use crate::text::{hex8, hex8_u64, string_of};
use crate::utils::{format_size_human, is_flash_section, is_ram_section, size_human};

verus! {

/// The version recorded in reports.
pub const MEMSCOPE_VERSION: &'static str = "0.1.0";

/// Complete memory report.
#[derive(Debug)]
pub struct MemoryReport {
    pub metadata: Metadata,
    pub memory: MemoryInfo,
    pub analysis: AnalysisInfo,
    pub symbols: Vec<SymbolInfo>,
}

/// Report metadata.
#[derive(Debug)]
pub struct Metadata {
    pub elf_file: String,
    pub timestamp: String,
    pub memscope_version: String,
}

/// Memory usage information.
#[derive(Debug)]
pub struct MemoryInfo {
    pub flash: RegionInfo,
    pub ram: RegionInfo,
}

/// Memory region information (the usage percentage is `used / total * 100`).
#[derive(Debug)]
pub struct RegionInfo {
    pub used: u64,
    pub total: Option<u64>,
    pub sections: Vec<SectionInfo>,
}

/// Section information.
#[derive(Debug)]
pub struct SectionInfo {
    pub name: String,
    pub address: String,
    pub size: u64,
    pub size_human: String,
    pub section_type: String,
}

/// Analysis results.
#[derive(Debug)]
pub struct AnalysisInfo {
    pub gaps: Vec<GapInfo>,
    pub overlaps: Vec<OverlapInfo>,
    pub padding: u64,
    pub stack_heap_gap: Option<u64>,
    pub warnings: Vec<String>,
}

/// Gap information.
#[derive(Debug)]
pub struct GapInfo {
    pub region: String,
    pub start: String,
    pub end: String,
    pub size: u64,
}

/// Overlap information.
#[derive(Debug)]
pub struct OverlapInfo {
    pub section1: String,
    pub section2: String,
    pub start: String,
    pub end: String,
    pub size: u64,
}

/// Symbol information.
#[derive(Debug)]
pub struct SymbolInfo {
    pub name: String,
    pub address: String,
    pub size: u64,
    pub size_human: String,
    pub symbol_type: String,
    pub binding: String,
    pub visibility: String,
    pub section_index: usize,
    pub source_file: Option<String>,
}

pub open spec fn section_info_is(i: SectionInfo, s: MemorySection) -> bool {
    &&& i.name@ == s.name@
    &&& i.address@ == hex8(s.address as nat)
    &&& i.size == s.size
    &&& i.size_human@ == size_human(s.size as nat)
    &&& i.section_type@ == section_type_name(s.section_type)
}

pub open spec fn section_infos_are(v: Seq<SectionInfo>, s: Seq<MemorySection>) -> bool {
    &&& v.len() == s.len()
    &&& forall|k: int| 0 <= k < s.len() ==> section_info_is(#[trigger] v[k], s[k])
}

pub open spec fn gap_info_is(i: GapInfo, g: MemoryGap) -> bool {
    &&& i.region@ == gap_region_name(g.region_type)
    &&& i.start@ == hex8(g.start as nat)
    &&& i.end@ == hex8(g.end as nat)
    &&& i.size == g.size
}

pub open spec fn overlap_info_is(i: OverlapInfo, o: MemoryOverlap) -> bool {
    &&& i.section1@ == o.section1@
    &&& i.section2@ == o.section2@
    &&& i.start@ == hex8(o.overlap_start as nat)
    &&& i.end@ == hex8(o.overlap_end as nat)
    &&& i.size == o.overlap_size
}

pub open spec fn symbol_info_is(i: SymbolInfo, s: Symbol) -> bool {
    &&& i.name@ == s.name@
    &&& i.address@ == hex8(s.address as nat)
    &&& i.size == s.size
    &&& i.size_human@ == size_human(s.size as nat)
    &&& i.symbol_type@ == symbol_type_name(s.symbol_type)
    &&& i.binding@ == binding_name(s.binding)
    &&& i.visibility@ == visibility_name(s.visibility)
    &&& i.section_index == s.section_index
    &&& opt_view(i.source_file) == opt_view(s.source_file)
}

/// `r` reports `layout`, `analysis` and `symbols` of the file `elf_file`.
pub open spec fn report_is(r: MemoryReport, layout: MemoryLayout, analysis: AnalysisResult, symbols: Seq<Symbol>, elf_file: Seq<char>) -> bool {
    &&& r.metadata.elf_file@ == elf_file
    &&& r.metadata.memscope_version@ == MEMSCOPE_VERSION@
    &&& r.memory.flash.used == layout.total_flash_used
    &&& r.memory.flash.total == layout.flash_size
    &&& section_infos_are(r.memory.flash.sections@, sections_where(layout.sections@, flash_p()))
    &&& r.memory.ram.used == layout.total_ram_used
    &&& r.memory.ram.total == layout.ram_size
    &&& section_infos_are(r.memory.ram.sections@, sections_where(layout.sections@, ram_p()))
    &&& r.analysis.gaps@.len() == analysis.gaps@.len()
    &&& (forall|k: int| 0 <= k < analysis.gaps@.len() ==> gap_info_is(#[trigger] r.analysis.gaps@[k], analysis.gaps@[k]))
    &&& r.analysis.overlaps@.len() == analysis.overlaps@.len()
    &&& (forall|k: int| 0 <= k < analysis.overlaps@.len() ==> overlap_info_is(#[trigger] r.analysis.overlaps@[k], analysis.overlaps@[k]))
    &&& r.analysis.padding == analysis.total_padding
    &&& r.analysis.stack_heap_gap == analysis.stack_heap_gap
    &&& strings_view(r.analysis.warnings@) == strings_view(analysis.warnings@)
    &&& r.symbols@.len() == symbols.len()
    &&& (forall|k: int| 0 <= k < symbols.len() ==> symbol_info_is(#[trigger] r.symbols@[k], symbols[k]))
}

fn section_to_info(section: &MemorySection) -> (r: SectionInfo)
    ensures
        section_info_is(r, *section),
{
    SectionInfo {
        name: section.name.clone(),
        address: string_of(hex8_u64(section.address).as_slice()),
        size: section.size,
        size_human: format_size_human(section.size),
        section_type: string_of(section.section_type.debug_name().as_slice()),
    }
}

/// The infos of the Flash sections (`flash`) or RAM sections, in order.
fn region_sections(layout: &MemoryLayout, flash: bool) -> (r: Vec<SectionInfo>)
    ensures
        flash ==> section_infos_are(r@, sections_where(layout.sections@, flash_p())),
        !flash ==> section_infos_are(r@, sections_where(layout.sections@, ram_p())),
{
    let ghost s = layout.sections@;
    let ghost p = if flash {
        flash_p()
    } else {
        ram_p()
    };
    let mut out: Vec<SectionInfo> = Vec::new();
    let mut i: usize = 0;
    while i < layout.sections.len()
        invariant
            i <= s.len(),
            s == layout.sections@,
            p == if flash {
                flash_p()
            } else {
                ram_p()
            },
            section_infos_are(out@, sections_where(s.take(i as int), p)),
        decreases s.len() - i,
    {
        assert(s.take(i + 1).drop_last() =~= s.take(i as int));
        assert(s.take(i + 1).last() == s[i as int]);
        let sec = &layout.sections[i];
        let keep = if flash {
            is_flash_section(sec)
        } else {
            is_ram_section(sec)
        };
        assert(p(s[i as int]) == keep);
        if keep {
            out.push(section_to_info(sec));
        }
        i = i + 1;
    }
    assert(s.take(s.len() as int) =~= s);
    out
}

fn copy_strings(v: &Vec<String>) -> (r: Vec<String>)
    ensures
        strings_view(r@) == strings_view(v@),
{
    let mut out: Vec<String> = Vec::new();
    let mut i: usize = 0;
    while i < v.len()
        invariant
            i <= v@.len(),
            strings_view(out@) =~= strings_view(v@).take(i as int),
        decreases v.len() - i,
    {
        let c = v[i].clone();
        let ghost before = out@;
        out.push(c);
        assert(strings_view(out@) =~= strings_view(before).push(v@[i as int]@));
        i = i + 1;
    }
    assert(strings_view(v@).take(v@.len() as int) =~= strings_view(v@));
    out
}

/// The report of `layout`, `analysis` and `symbols` of the file `elf_file`,
/// stamped with `timestamp` (the time the report was made, RFC 3339).
pub fn build_report(
    layout: &MemoryLayout,
    analysis: &AnalysisResult,
    symbols: &[Symbol],
    elf_file: &str,
    timestamp: &str,
) -> (r: MemoryReport)
    ensures
        report_is(r, *layout, *analysis, symbols@, elf_file@),
        r.metadata.timestamp@ == timestamp@,
{
    let metadata = Metadata {
        elf_file: String::from_str(elf_file),
        timestamp: String::from_str(timestamp),
        memscope_version: String::from_str(MEMSCOPE_VERSION),
    };
    let memory = MemoryInfo {
        flash: RegionInfo {
            used: layout.total_flash_used,
            total: layout.flash_size,
            sections: region_sections(layout, true),
        },
        ram: RegionInfo {
            used: layout.total_ram_used,
            total: layout.ram_size,
            sections: region_sections(layout, false),
        },
    };
    let mut gaps: Vec<GapInfo> = Vec::new();
    let mut i: usize = 0;
    while i < analysis.gaps.len()
        invariant
            i <= analysis.gaps@.len(),
            gaps@.len() == i,
            forall|k: int| 0 <= k < i ==> gap_info_is(#[trigger] gaps@[k], analysis.gaps@[k]),
        decreases analysis.gaps.len() - i,
    {
        let g = &analysis.gaps[i];
        gaps.push(
            GapInfo {
                region: String::from_str(g.region_type.name()),
                start: string_of(hex8_u64(g.start).as_slice()),
                end: string_of(hex8_u64(g.end).as_slice()),
                size: g.size,
            },
        );
        i = i + 1;
    }
    let mut overlaps: Vec<OverlapInfo> = Vec::new();
    let mut i: usize = 0;
    while i < analysis.overlaps.len()
        invariant
            i <= analysis.overlaps@.len(),
            overlaps@.len() == i,
            forall|k: int| 0 <= k < i ==> overlap_info_is(#[trigger] overlaps@[k], analysis.overlaps@[k]),
        decreases analysis.overlaps.len() - i,
    {
        let o = &analysis.overlaps[i];
        overlaps.push(
            OverlapInfo {
                section1: o.section1.clone(),
                section2: o.section2.clone(),
                start: string_of(hex8_u64(o.overlap_start).as_slice()),
                end: string_of(hex8_u64(o.overlap_end).as_slice()),
                size: o.overlap_size,
            },
        );
        i = i + 1;
    }
    let analysis_info = AnalysisInfo {
        gaps,
        overlaps,
        padding: analysis.total_padding,
        stack_heap_gap: analysis.stack_heap_gap,
        warnings: copy_strings(&analysis.warnings),
    };
    let mut infos: Vec<SymbolInfo> = Vec::new();
    let mut i: usize = 0;
    while i < symbols.len()
        invariant
            i <= symbols@.len(),
            infos@.len() == i,
            forall|k: int| 0 <= k < i ==> symbol_info_is(#[trigger] infos@[k], symbols@[k]),
        decreases symbols.len() - i,
    {
        let s = &symbols[i];
        infos.push(
            SymbolInfo {
                name: s.name.clone(),
                address: string_of(hex8_u64(s.address).as_slice()),
                size: s.size,
                size_human: format_size_human(s.size),
                symbol_type: String::from_str(s.symbol_type.name()),
                binding: String::from_str(s.binding.name()),
                visibility: String::from_str(s.visibility.name()),
                section_index: s.section_index,
                source_file: crate::models::clone_opt_string(&s.source_file),
            },
        );
        i = i + 1;
    }
    MemoryReport { metadata, memory, analysis: analysis_info, symbols: infos }
}

} // verus!
