//! Memory size detection, size formatting, region kinds and filtering.
use memscope::linker::regions::region_kinds;
use memscope::models::{MemoryLayout, MemoryRegion, MemorySection, SectionType, Symbol, SymbolBinding, SymbolType, SymbolVisibility};
use memscope::symbol::filter::{FilterCriteria, SymbolFilter};
use memscope::utils::{apply_memory_sizes, can_detect_memory_ranges, format_size_human};

fn sec(address: u64, size: u64) -> MemorySection {
    MemorySection { name: "s".to_string(), address, size, section_type: SectionType::Text, symbols: vec![] }
}

#[test]
fn test_apply_memory_sizes_detects_missing() {
    let mut layout = MemoryLayout::new();
    layout.sections.push(sec(0x0800_0000, 0x1_0000));
    layout.sections.push(sec(0x2000_0000, 0x3000));
    assert!(can_detect_memory_ranges(&layout));
    apply_memory_sizes(&mut layout, None, Some(1234));
    assert_eq!(layout.ram_size, Some(1234));
    assert!(layout.flash_size.is_some());
    let mut given = MemoryLayout::new();
    apply_memory_sizes(&mut given, Some(1), Some(2));
    assert_eq!((given.flash_size, given.ram_size), (Some(1), Some(2)));
    let mut empty = MemoryLayout::new();
    apply_memory_sizes(&mut empty, None, None);
    assert_eq!((empty.flash_size, empty.ram_size), (None, None));
}

#[test]
fn test_detection_refused_on_overflowing_section() {
    let mut layout = MemoryLayout::new();
    layout.sections.push(sec(u64::MAX - 1, 10));
    assert!(!can_detect_memory_ranges(&layout));
}

#[test]
fn test_size_human_exact_values() {
    assert_eq!(format_size_human(1023), "1023 B");
    assert_eq!(format_size_human(1536), "1.50 KB");
    assert_eq!(format_size_human(3 * 1024 * 1024), "3.00 MB");
    assert_eq!(format!("{:.2} KB", 1536f64 / 1024.0), "1.50 KB");
}

fn region(name: &str, attrs: &str) -> MemoryRegion {
    MemoryRegion { name: name.to_string(), origin: 0, length: 1, attributes: attrs.to_string() }
}

#[test]
fn test_region_kinds() {
    assert_eq!(region_kinds(&[region("SRAM1", "rw")]), (true, false));
    assert_eq!(region_kinds(&[region("CODE", "rx")]), (false, true));
    assert_eq!(region_kinds(&[region("Rom", "r"), region("dtcm", "rw")]), (true, true));
    assert_eq!(region_kinds(&[region("OTHER", "rw")]), (false, false));
}

fn s(name: &str, address: u64, size: u64, b: SymbolBinding) -> Symbol {
    Symbol {
        name: name.to_string(),
        address,
        size,
        symbol_type: SymbolType::Object,
        binding: b,
        visibility: SymbolVisibility::Default,
        section_index: 0,
        source_file: None,
        section_name: None,
    }
}

#[test]
fn test_filter_by_binding_and_address() {
    let symbols = vec![
        s("a", 0x100, 1, SymbolBinding::Local),
        s("b", 0x200, 1, SymbolBinding::Global),
        s("c", 0x300, 1, SymbolBinding::Global),
    ];
    let f = SymbolFilter::new(FilterCriteria {
        bindings: Some(vec![SymbolBinding::Global]),
        address_max: Some(0x2ff),
        ..Default::default()
    });
    let kept: Vec<&str> = f.filter(&symbols).iter().map(|x| x.name.as_str()).collect();
    assert_eq!(kept, vec!["b"]);
    let g = SymbolFilter::new(FilterCriteria { address_min: Some(0x200), ..Default::default() });
    assert_eq!(g.filter(&symbols).len(), 2);
}
