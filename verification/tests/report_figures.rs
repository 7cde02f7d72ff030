//! The figures the reports and views derive: ranked symbol changes, section
//! counts, gap totals, stack/heap headroom, alignment, neighbours and the
//! rows of the memory map.
use memscope::diff::analyzer::{ModifiedSymbol, SectionDiff, SectionStatus, SectionSymbolChanges};
use memscope::diff::summary::{ChangeKind, count_status, rank_changes};
use memscope::elf::analyzer::MemoryAnalyzer;
use memscope::elf::summary::{Headroom, gap_totals, leading_size_total, stack_heap_headroom};
use memscope::models::{
    GapRegionType, MemoryGap, MemoryLayout, MemorySection, SectionType, Symbol, SymbolBinding, SymbolType,
    SymbolVisibility,
};
use memscope::ui::details::{alignment_of, gap_after};
use memscope::ui::explorer::Explorer;
use memscope::ui::map::{MapRow, map_rows};

fn sym(name: &str, address: u64, size: u64) -> Symbol {
    Symbol {
        name: name.to_string(),
        address,
        size,
        symbol_type: SymbolType::Object,
        binding: SymbolBinding::Global,
        visibility: SymbolVisibility::Default,
        section_index: 0,
        source_file: None,
        section_name: None,
    }
}

fn modified(name: &str, v1: u64, v2: u64) -> ModifiedSymbol {
    ModifiedSymbol { name: name.to_string(), v1_size: v1, v2_size: v2, delta: v2 as i64 - v1 as i64 }
}

fn changes() -> SectionSymbolChanges {
    SectionSymbolChanges {
        section_name: ".data".to_string(),
        total_delta: 0,
        new_symbols: vec![sym("fresh", 0x2000_0000, 10), sym("tie_new", 0x2000_0010, 30)],
        removed_symbols: vec![sym("gone", 0x2000_0020, 50)],
        modified_symbols: vec![modified("grown", 100, 130), modified("shrunk", 80, 20)],
    }
}

#[test]
fn test_rank_changes_largest_first() {
    let rows = rank_changes(&changes());
    let got: Vec<(&str, i64)> = rows.iter().map(|r| (r.name.as_str(), r.delta)).collect();
    // |-60| > |-50| > 30 = 30 (new before modified: stable) > 10
    assert_eq!(
        got,
        vec![("shrunk", -60), ("gone", -50), ("tie_new", 30), ("grown", 30), ("fresh", 10)]
    );
    assert_eq!(rows[0].kind, ChangeKind::Modified(80, 20));
    assert_eq!(rows[1].kind, ChangeKind::Removed(50));
    assert_eq!(rows[2].kind, ChangeKind::New(30));
}

#[test]
fn test_rank_changes_empty() {
    let c = SectionSymbolChanges {
        section_name: ".bss".to_string(),
        total_delta: 0,
        new_symbols: vec![],
        removed_symbols: vec![],
        modified_symbols: vec![],
    };
    assert!(rank_changes(&c).is_empty());
}

fn row(name: &str, v1: Option<u64>, v2: Option<u64>, delta: i64, status: SectionStatus) -> SectionDiff {
    SectionDiff { name: name.to_string(), v1_size: v1, v2_size: v2, delta, status }
}

#[test]
fn test_section_counts_and_listed_rows() {
    let diffs = vec![
        row(".new", None, Some(8), 8, SectionStatus::New),
        row(".gone", Some(8), None, -8, SectionStatus::Removed),
        row(".other", None, Some(4), 4, SectionStatus::New),
        row(".empty", Some(0), Some(0), 0, SectionStatus::Unchanged),
        row(".same", Some(4), Some(4), 0, SectionStatus::Unchanged),
    ];
    assert_eq!(count_status(&diffs, SectionStatus::New), 2);
    assert_eq!(count_status(&diffs, SectionStatus::Removed), 1);
    assert_eq!(count_status(&diffs, SectionStatus::Modified), 0);
    let listed: Vec<&str> = diffs.iter().filter(|d| d.is_listed()).map(|d| d.name.as_str()).collect();
    assert_eq!(listed, vec![".new", ".gone", ".other", ".same"]);
}

#[test]
fn test_gap_totals_per_memory() {
    let gap = |size: u64, region_type: GapRegionType| MemoryGap { start: 0, end: size, size, region_type };
    let gaps = vec![
        gap(100, GapRegionType::Flash),
        gap(20, GapRegionType::Ram),
        gap(7, GapRegionType::Unknown),
        gap(300, GapRegionType::Flash),
    ];
    let t = gap_totals(&gaps);
    assert_eq!((t.flash_gaps, t.flash_bytes), (2, 400));
    assert_eq!((t.ram_gaps, t.ram_bytes), (1, 20));
    let none = gap_totals(&vec![]);
    assert_eq!((none.flash_gaps, none.flash_bytes, none.ram_gaps, none.ram_bytes), (0, 0, 0, 0));
}

#[test]
fn test_stack_heap_headroom_thresholds() {
    assert_eq!(stack_heap_headroom(0), Headroom::Critical);
    assert_eq!(stack_heap_headroom(1), Headroom::Warning);
    assert_eq!(stack_heap_headroom(1023), Headroom::Warning);
    assert_eq!(stack_heap_headroom(1024), Headroom::Caution);
    assert_eq!(stack_heap_headroom(4095), Headroom::Caution);
    assert_eq!(stack_heap_headroom(4096), Headroom::Ample);
}

#[test]
fn test_leading_size_total() {
    let syms = vec![sym("a", 1, 500), sym("b", 2, 300), sym("c", 3, 200)];
    assert_eq!(leading_size_total(&syms, 2), 800);
    assert_eq!(leading_size_total(&syms, 10), 1000);
    assert_eq!(leading_size_total(&syms, 0), 0);
}

#[test]
fn test_alignment_of_addresses() {
    assert_eq!(alignment_of(0), 0);
    assert_eq!(alignment_of(1), 1);
    assert_eq!(alignment_of(0x0800_0004), 4);
    assert_eq!(alignment_of(0x10), 16);
    assert_eq!(alignment_of(0x2000_0000), 65536);
    assert_eq!(alignment_of(0x3_0000), 65536);
    assert_eq!(alignment_of(0x8000), 0x8000);
}

#[test]
fn test_gap_after_symbol() {
    assert_eq!(gap_after(0x110, 0x100, 0x8), 8);
    assert_eq!(gap_after(0x108, 0x100, 0x8), 0);
    assert_eq!(gap_after(0x104, 0x100, 0x8), 0);
    // the end wraps past 2^64
    assert_eq!(gap_after(5, u64::MAX, 2), 4);
}

#[test]
fn test_address_position_and_neighbours() {
    let sections = vec![MemorySection {
        name: ".data".to_string(),
        address: 0x2000_0000,
        size: 0x100,
        section_type: SectionType::Data,
        symbols: vec![],
    }];
    let symbols = vec![sym("b", 0x2000_0040, 8), sym("a", 0x2000_0000, 16), sym("z", 0, 0)];
    let e = Explorer::new(&sections, &symbols, None);
    assert_eq!(e.data.address_position(&symbols[1]), Some(0));
    assert_eq!(e.data.address_position(&symbols[0]), Some(1));
    // no address: not among the symbols by address
    assert_eq!(e.data.address_position(&symbols[2]), None);
    // same address, other name
    assert_eq!(e.data.address_position(&sym("c", 0x2000_0000, 16)), None);
}

#[test]
fn test_map_rows_by_address_with_gaps() {
    let secs = vec![(0x0800_0000, 0x100), (0x0, 0x10), (0x2000_0000, 0x40), (0x2000_0100, 0x10)];
    assert_eq!(
        map_rows(&secs, true),
        vec![MapRow::Section(1), MapRow::Gap(0x0800_0000 - 0x10), MapRow::Section(0)]
    );
    assert_eq!(
        map_rows(&secs, false),
        vec![MapRow::Section(2), MapRow::Gap(0xC0), MapRow::Section(3)]
    );
    // a RAM section that does not start at the base is preceded by a gap
    assert_eq!(map_rows(&vec![(0x2000_0010, 4)], false), vec![MapRow::Gap(0x10), MapRow::Section(0)]);
    assert!(map_rows(&vec![], true).is_empty());
}

#[test]
fn test_can_analyze_layouts_within_64_bits() {
    let analyzer = MemoryAnalyzer::new();
    let mut layout = MemoryLayout::new();
    assert!(analyzer.can_analyze(&layout));
    layout.sections.push(MemorySection {
        name: ".text".to_string(),
        address: u64::MAX - 0x10,
        size: 0x10,
        section_type: SectionType::Text,
        symbols: vec![],
    });
    assert!(analyzer.can_analyze(&layout));
    layout.sections[0].size = 0x11;
    assert!(!analyzer.can_analyze(&layout));
}
