//! The JSON report's content, as the library assembles it before it is
//! serialised: metadata, memory usage, analysis and symbols.
use memscope::export::json::{MEMSCOPE_VERSION, build_report};
use memscope::models::{
    AnalysisResult, GapRegionType, MemoryGap, MemoryLayout, MemorySection, SectionType, Symbol,
    SymbolBinding, SymbolType, SymbolVisibility,
};

const STAMP: &str = "2024-05-01T12:00:00+00:00";

fn create_test_layout() -> MemoryLayout {
    let mut layout = MemoryLayout::new();
    layout.flash_size = Some(512 * 1024);
    layout.ram_size = Some(256 * 1024);
    layout.total_flash_used = 100 * 1024;
    layout.total_ram_used = 50 * 1024;

    layout.sections.push(MemorySection {
        name: ".text".to_string(),
        address: 0x00000000,
        size: 100 * 1024,
        section_type: SectionType::Text,
        symbols: vec![],
    });

    layout.sections.push(MemorySection {
        name: ".data".to_string(),
        address: 0x20000000,
        size: 50 * 1024,
        section_type: SectionType::Data,
        symbols: vec![],
    });

    layout
}

fn create_test_analysis() -> AnalysisResult {
    AnalysisResult {
        gaps: vec![MemoryGap {
            start: 0x20010000,
            end: 0x20020000,
            size: 64 * 1024,
            region_type: GapRegionType::Ram,
        }],
        overlaps: vec![],
        total_padding: 128,
        stack_heap_gap: Some(4096),
        warnings: vec!["Test warning".to_string()],
    }
}

fn create_test_symbols() -> Vec<Symbol> {
    vec![
        Symbol {
            name: "main".to_string(),
            address: 0x00001000,
            size: 512,
            symbol_type: SymbolType::Function,
            binding: SymbolBinding::Global,
            visibility: SymbolVisibility::Default,
            section_index: 1,
            source_file: Some("main.c".to_string()),
            section_name: Some(".text".to_string()),
        },
        Symbol {
            name: "buffer".to_string(),
            address: 0x20000000,
            size: 1024,
            symbol_type: SymbolType::Object,
            binding: SymbolBinding::Local,
            visibility: SymbolVisibility::Default,
            section_index: 2,
            source_file: Some("data.c".to_string()),
            section_name: Some(".bss".to_string()),
        },
    ]
}

#[test]
fn test_json_export_structure() {
    let report = build_report(&create_test_layout(), &create_test_analysis(), &create_test_symbols(), "test.elf", STAMP);
    assert_eq!(report.metadata.elf_file, "test.elf");
    assert_eq!(report.memory.flash.sections.len(), 1);
    assert_eq!(report.memory.ram.sections.len(), 1);
    assert_eq!(report.analysis.gaps.len(), 1);
    assert_eq!(report.symbols.len(), 2);
}

#[test]
fn test_json_metadata() {
    let report = build_report(&create_test_layout(), &create_test_analysis(), &[], "firmware.elf", STAMP);
    assert_eq!(report.metadata.elf_file, "firmware.elf");
    assert_eq!(report.metadata.timestamp, STAMP);
    assert_eq!(report.metadata.memscope_version, MEMSCOPE_VERSION);
}

#[test]
fn test_json_memory_info() {
    let report = build_report(&create_test_layout(), &create_test_analysis(), &[], "test.elf", STAMP);

    // Flash
    assert_eq!(report.memory.flash.used, 102400);
    assert_eq!(report.memory.flash.total, Some(524288));
    assert_eq!(report.memory.flash.sections[0].name, ".text");
    assert_eq!(report.memory.flash.sections[0].section_type, "Text");

    // RAM
    assert_eq!(report.memory.ram.used, 51200);
    assert_eq!(report.memory.ram.total, Some(262144));
    assert_eq!(report.memory.ram.sections[0].address, "0x20000000");
    assert_eq!(report.memory.ram.sections[0].size_human, "50.00 KB");
}

#[test]
fn test_json_symbols() {
    let report = build_report(&create_test_layout(), &create_test_analysis(), &create_test_symbols(), "test.elf", STAMP);
    let symbol_array = &report.symbols;
    assert_eq!(symbol_array.len(), 2);

    // First symbol
    assert_eq!(symbol_array[0].name, "main");
    assert_eq!(symbol_array[0].address, "0x00001000");
    assert_eq!(symbol_array[0].size, 512);
    assert_eq!(symbol_array[0].symbol_type, "Function");
    assert_eq!(symbol_array[0].source_file.as_deref(), Some("main.c"));

    // Second symbol
    assert_eq!(symbol_array[1].name, "buffer");
    assert_eq!(symbol_array[1].size, 1024);
    assert_eq!(symbol_array[1].symbol_type, "Object");
    assert_eq!(symbol_array[1].binding, "Local");
}

#[test]
fn test_json_analysis() {
    let report = build_report(&create_test_layout(), &create_test_analysis(), &[], "test.elf", STAMP);

    let gaps = &report.analysis.gaps;
    assert_eq!(gaps.len(), 1);
    assert_eq!(gaps[0].region, "Ram");
    assert_eq!(gaps[0].size, 65536);
    assert_eq!(gaps[0].start, "0x20010000");

    assert_eq!(report.analysis.padding, 128);
    assert_eq!(report.analysis.stack_heap_gap, Some(4096));

    let warnings = &report.analysis.warnings;
    assert_eq!(warnings.len(), 1);
    assert_eq!(warnings[0], "Test warning");
}

#[test]
fn test_json_empty_symbols() {
    let report = build_report(&create_test_layout(), &create_test_analysis(), &[], "test.elf", STAMP);
    assert_eq!(report.symbols.len(), 0);
}
