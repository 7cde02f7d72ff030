//! Further properties of layout comparison: name order, symmetry,
//! duplicates, percentages and wrap-around.
use memscope::diff::analyzer::{DiffAnalyzer, RegionStatus, SectionStatus, size_delta_exec};
use memscope::models::{
    MemoryLayout, MemoryRegion, MemorySection, SectionType, Symbol, SymbolBinding, SymbolType,
    SymbolVisibility,
};

fn sym(name: &str, size: u64) -> Symbol {
    Symbol {
        name: name.to_string(),
        address: 0x2000_0000,
        size,
        symbol_type: SymbolType::Object,
        binding: SymbolBinding::Global,
        visibility: SymbolVisibility::Default,
        section_index: 0,
        source_file: None,
        section_name: None,
    }
}

fn sec(name: &str, size: u64, symbols: Vec<Symbol>) -> MemorySection {
    MemorySection {
        name: name.to_string(),
        address: 0x2000_0000,
        size,
        section_type: SectionType::Custom(name.to_string()),
        symbols,
    }
}

fn layout(sections: Vec<MemorySection>) -> MemoryLayout {
    MemoryLayout {
        regions: vec![],
        sections,
        total_flash_used: 10,
        total_ram_used: 20,
        flash_size: None,
        ram_size: Some(64),
    }
}

#[test]
fn test_section_rows_sorted_and_unique() {
    let a = layout(vec![sec(".zeta", 1, vec![]), sec(".alpha", 2, vec![]), sec(".zeta", 5, vec![])]);
    let b = layout(vec![sec(".beta", 3, vec![]), sec(".alpha", 2, vec![])]);
    let d = DiffAnalyzer::new().diff(&a, &b, "a.elf", "b.elf", None, None);
    let names: Vec<&str> = d.section_diffs.iter().map(|s| s.name.as_str()).collect();
    assert_eq!(names, vec![".alpha", ".beta", ".zeta"]);
    // the last section of a name counts
    assert_eq!(d.section_diffs[2].v1_size, Some(5));
    assert_eq!(d.section_diffs[2].status, SectionStatus::Removed);
    assert_eq!(d.section_diffs[2].delta, -5);
    assert_eq!(d.section_diffs[1].status, SectionStatus::New);
    assert_eq!(d.section_diffs[0].status, SectionStatus::Unchanged);
    assert_eq!(d.v1_info.path, "a.elf");
    assert_eq!(d.v2_info.ram_size, Some(64));
    assert!(d.linker_diff.is_none());
}

#[test]
fn test_swapping_binaries_swaps_new_and_removed() {
    let a = layout(vec![sec(".data", 8, vec![sym("old", 8), sym("same", 4)])]);
    let b = layout(vec![sec(".data", 12, vec![sym("same", 4), sym("fresh", 12)])]);
    let ab = DiffAnalyzer::new().diff(&a, &b, "a", "b", None, None);
    let ba = DiffAnalyzer::new().diff(&b, &a, "b", "a", None, None);
    let ab_new: Vec<&str> = ab.symbol_changes.data_changes.new_symbols.iter().map(|s| s.name.as_str()).collect();
    let ba_removed: Vec<&str> = ba.symbol_changes.data_changes.removed_symbols.iter().map(|s| s.name.as_str()).collect();
    assert_eq!(ab_new, vec!["fresh"]);
    assert_eq!(ab_new, ba_removed);
    assert_eq!(ab.symbol_changes.data_changes.total_delta, 4);
    assert_eq!(ba.symbol_changes.data_changes.total_delta, -4);
}

#[test]
fn test_identical_symbols_report_nothing() {
    let a = layout(vec![sec(".bss", 30, vec![sym("x", 10), sym("y", 20)])]);
    let d = DiffAnalyzer::new().diff(&a, &a, "a", "a", None, None);
    let c = &d.symbol_changes.bss_changes;
    assert!(c.new_symbols.is_empty() && c.removed_symbols.is_empty() && c.modified_symbols.is_empty());
    assert_eq!(c.total_delta, 0);
    assert_eq!(c.section_name, ".bss");
}

#[test]
fn test_duplicate_symbol_names_use_last_and_first_section() {
    // two .data sections: only the first is compared
    let a = layout(vec![sec(".data", 8, vec![sym("v", 4), sym("v", 8)]), sec(".data", 1, vec![sym("w", 1)])]);
    let b = layout(vec![sec(".data", 8, vec![sym("v", 6)])]);
    let d = DiffAnalyzer::new().diff(&a, &b, "a", "b", None, None);
    let c = &d.symbol_changes.data_changes;
    assert_eq!(c.modified_symbols.len(), 1);
    assert_eq!(c.modified_symbols[0].v1_size, 8);
    assert_eq!(c.modified_symbols[0].delta, -2);
    assert!(c.removed_symbols.is_empty());
}

#[test]
fn test_modified_symbols_ordered_by_change() {
    let a = layout(vec![sec(".rodata", 0, vec![sym("a", 10), sym("b", 10), sym("c", 10)])]);
    let b = layout(vec![sec(".rodata", 0, vec![sym("a", 12), sym("b", 2), sym("c", 20)])]);
    let d = DiffAnalyzer::new().diff(&a, &b, "a", "b", None, None);
    let names: Vec<&str> = d.symbol_changes.rodata_changes.modified_symbols.iter().map(|m| m.name.as_str()).collect();
    assert_eq!(names, vec!["c", "b", "a"]);
    assert_eq!(d.symbol_changes.rodata_changes.total_delta, 4);
}

#[test]
fn test_percent_change_text_rounding() {
    let a = layout(vec![sec(".s", 3, vec![]), sec(".t", 3, vec![])]);
    let b = layout(vec![sec(".s", 2, vec![]), sec(".t", 5, vec![])]);
    let d = DiffAnalyzer::new().diff(&a, &b, "a", "b", None, None);
    assert_eq!(d.section_diffs[0].percent_change_text(), "-33.33");
    assert_eq!(d.section_diffs[1].percent_change_text(), "66.67");
    // as the floating point computation prints them
    assert_eq!(format!("{:.2}", (-1f64 / 3f64) * 100.0), "-33.33");
    assert_eq!(format!("{:.2}", (2f64 / 3f64) * 100.0), "66.67");
}

#[test]
fn test_size_delta_wraps_like_i64() {
    assert_eq!(size_delta_exec(10, 3), -7);
    assert_eq!(size_delta_exec(0, (1u64 << 63) + 1), (((1u64 << 63) + 1) as i64));
    assert_eq!(size_delta_exec(u64::MAX, 0), (u64::MAX as i64).wrapping_neg());
    assert_eq!(size_delta_exec(0, u64::MAX), -1);
}

#[test]
fn test_linker_script_only_for_one_binary() {
    let regions = vec![MemoryRegion {
        name: "RAM".to_string(),
        origin: 0x2000_0000,
        length: 1024,
        attributes: "rw".to_string(),
    }];
    let a = layout(vec![]);
    let d = DiffAnalyzer::new().diff(&a, &a, "a", "b", Some(&regions), None);
    let l = d.linker_diff.unwrap();
    assert_eq!(l.v1_script.as_deref(), Some("v1.ld"));
    assert_eq!(l.v2_script, None);
    assert_eq!(l.region_changes.len(), 1);
    assert_eq!(l.region_changes[0].status, RegionStatus::Removed);
}
