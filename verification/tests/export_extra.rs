//! Exact rows of the CSV, Markdown and JSON exports, and format names.
use memscope::export::csv::{escape_csv, export_analysis_csv, export_sections_csv, export_symbols_csv};
use memscope::export::json::build_report;
use memscope::export::markdown::{export_markdown, render_markdown, top_symbols_truncate_cleanly};
use memscope::export::{ExportFormat, Exported, export_to_string};
use memscope::models::{
    AnalysisResult, GapRegionType, MemoryGap, MemoryLayout, MemoryOverlap, MemorySection,
    SectionType, Symbol, SymbolBinding, SymbolType, SymbolVisibility,
};

fn symbol(name: &str, size: u64, file: Option<&str>) -> Symbol {
    Symbol {
        name: name.to_string(),
        address: 0x1000,
        size,
        symbol_type: SymbolType::Function,
        binding: SymbolBinding::Weak,
        visibility: SymbolVisibility::Hidden,
        section_index: 3,
        source_file: file.map(|f| f.to_string()),
        section_name: None,
    }
}

fn analysis() -> AnalysisResult {
    AnalysisResult {
        gaps: vec![MemoryGap { start: 0x100, end: 0x200, size: 0x100, region_type: GapRegionType::Flash }],
        overlaps: vec![MemoryOverlap {
            section1: ".a".to_string(),
            section2: ".b\"".to_string(),
            overlap_start: 0x10,
            overlap_end: 0x20,
            overlap_size: 16,
        }],
        total_padding: 2048,
        stack_heap_gap: Some(512),
        warnings: vec!["careful".to_string()],
    }
}

#[test]
fn test_symbol_csv_row() {
    let csv = export_symbols_csv(&[symbol("say \"hi\"", 2048, Some("m.c"))]);
    assert_eq!(
        csv,
        "Name,Address,Size,SizeHuman,Type,Binding,Visibility,SectionIndex,SourceFile\n\"say \"\"hi\"\"\",0x00001000,2048,2.00 KB,Function,Weak,Hidden,3,\"m.c\"\n"
    );
    assert_eq!(escape_csv("\"\""), "\"\"\"\"");
}

#[test]
fn test_section_csv_rows() {
    let mut layout = MemoryLayout::new();
    layout.sections.push(MemorySection {
        name: ".text".to_string(),
        address: 0,
        size: 100,
        section_type: SectionType::Text,
        symbols: vec![],
    });
    layout.sections.push(MemorySection {
        name: "cfg".to_string(),
        address: 0x5000_0000,
        size: 1,
        section_type: SectionType::Custom("cfg".to_string()),
        symbols: vec![],
    });
    assert_eq!(
        export_sections_csv(&layout),
        "Section,Address,Size,SizeHuman,Type,Region\n\".text\",0x00000000,100,100 B,Text,Flash\n\"cfg\",0x50000000,1,1 B,Custom(\"cfg\"),Unknown\n"
    );
}

#[test]
fn test_analysis_csv_rows() {
    assert_eq!(
        export_analysis_csv(&analysis()),
        "Type,Region,Start,End,Size,SizeHuman,Details\nGap,Flash,0x00000100,0x00000200,256,256 B,\"\"\nOverlap,Both,0x00000010,0x00000020,16,16 B,\".a ↔ .b\"\"\"\nPadding,Both,,,2048,2.00 KB,\"Alignment waste\"\nStackHeapGap,RAM,,,512,512 B,\"Gap between stack and heap\"\n"
    );
}

#[test]
fn test_markdown_sections_and_top_symbols() {
    let mut layout = MemoryLayout::new();
    layout.total_flash_used = 512;
    layout.flash_size = Some(1024);
    layout.sections.push(MemorySection {
        name: ".data".to_string(),
        address: 0x2000_0000,
        size: 4,
        section_type: SectionType::Data,
        symbols: vec![],
    });
    let symbols = vec![
        symbol("small", 1, None),
        symbol("a_really_long_symbol_name_that_does_not_fit_in_the_table", 3, Some("file.c")),
    ];
    let md = render_markdown(&layout, &analysis(), &symbols, "fw.elf", "2024-01-01 00:00:00");
    assert!(md.starts_with("# Memory Report: fw.elf\n\nGenerated: 2024-01-01 00:00:00\n\n## Memory Summary\n\n"));
    assert!(md.contains("| Flash  | 512 B | 1.00 KB | 50.0% |\n| RAM    | 0 B | Unknown | N/A |\n\n"));
    assert!(md.contains("## Memory Sections\n\n### RAM Sections\n\n| Section | Address | Size | Type |\n|---------|---------|------|------|\n| .data | 0x20000000 | 4 B | Data |\n\n"));
    assert!(!md.contains("### Flash Sections"));
    assert!(md.contains("### ⚠️ Warnings\n\n- careful\n\n"));
    assert!(md.contains("**Alignment Padding**: 2.00 KB (wasted due to alignment)\n\n"));
    assert!(md.contains("**Stack/Heap Gap**: 512 B - ⚠️ WARNING\n\n"));
    assert!(md.contains("| 1 | a_really_long_symbol_name_that_does_n... | 3 B | Function | file.c |\n| 2 | small | 1 B | Function | Unknown |\n"));
    assert!(md.ends_with("**Total (Top 10)**: 4 B\n\n"));
    assert!(top_symbols_truncate_cleanly(&symbols));
}

#[test]
fn test_markdown_usage_of_empty_region() {
    let mut layout = MemoryLayout::new();
    layout.ram_size = Some(0);
    let md = render_markdown(&layout, &AnalysisResult {
        gaps: vec![],
        overlaps: vec![],
        total_padding: 0,
        stack_heap_gap: Some(0),
        warnings: vec![],
    }, &[], "x", "t");
    assert!(md.contains("| RAM    | 0 B | 0 B | NaN% |"));
    assert!(md.contains("**Stack/Heap Gap**: 0 B - ❌ CRITICAL"));
    assert!(md.contains("*No symbols found*"));
    assert_eq!(format!("{:.1}%", (0f64 / 0f64) * 100.0), "NaN%");
}

#[test]
fn test_truncation_at_non_boundary_detected() {
    // the cut at byte 37 falls inside a multi-byte character
    let name = format!("{}é{}", "a".repeat(36), "b".repeat(10));
    assert!(!top_symbols_truncate_cleanly(&[symbol(&name, 1, None)]));
}

#[test]
fn test_json_report_fields() {
    let mut layout = MemoryLayout::new();
    layout.total_ram_used = 7;
    layout.sections.push(MemorySection {
        name: ".bss".to_string(),
        address: 0x2000_0000,
        size: 7,
        section_type: SectionType::Bss,
        symbols: vec![],
    });
    let r = build_report(&layout, &analysis(), &[symbol("f", 5, Some("f.c"))], "dir/fw.elf", "now");
    assert_eq!(r.metadata.elf_file, "dir/fw.elf");
    assert_eq!(r.metadata.timestamp, "now");
    assert_eq!(r.metadata.memscope_version, "0.1.0");
    assert!(r.memory.flash.sections.is_empty());
    assert_eq!(r.memory.ram.used, 7);
    assert_eq!(r.memory.ram.sections[0].section_type, "Bss");
    assert_eq!(r.memory.ram.sections[0].address, "0x20000000");
    assert_eq!(r.analysis.gaps[0].region, "Flash");
    assert_eq!(r.analysis.overlaps[0].end, "0x00000020");
    assert_eq!(r.symbols[0].binding, "Weak");
    assert_eq!(r.symbols[0].visibility, "Hidden");
    assert_eq!(r.symbols[0].size_human, "5 B");
}

#[test]
fn test_export_format_names() {
    assert_eq!(ExportFormat::from_str("JSON"), Some(ExportFormat::Json));
    assert_eq!(ExportFormat::from_str("csv"), Some(ExportFormat::CsvSymbols));
    assert_eq!(ExportFormat::from_str("CSV:Symbols"), Some(ExportFormat::CsvSymbols));
    assert_eq!(ExportFormat::from_str("csv:sections"), Some(ExportFormat::CsvSections));
    assert_eq!(ExportFormat::from_str("csv:analysis"), Some(ExportFormat::CsvAnalysis));
    assert_eq!(ExportFormat::from_str("Md"), Some(ExportFormat::Markdown));
    assert_eq!(ExportFormat::from_str("markdown"), Some(ExportFormat::Markdown));
    assert_eq!(ExportFormat::from_str("xml"), None);
}

#[test]
fn test_export_to_string_dispatch() {
    let layout = MemoryLayout::new();
    match export_to_string(&layout, &analysis(), &[], ExportFormat::CsvSections, "fw.elf", "t") {
        Exported::Text(t) => assert_eq!(t, "Section,Address,Size,SizeHuman,Type,Region\n"),
        Exported::Report(_) => panic!("text expected"),
    }
    match export_to_string(&layout, &analysis(), &[], ExportFormat::Json, "fw.elf", "2024-05-01T12:00:00+00:00") {
        Exported::Report(r) => {
            assert_eq!(r.metadata.elf_file, "fw.elf");
            assert_eq!(r.metadata.timestamp, "2024-05-01T12:00:00+00:00");
        },
        Exported::Text(_) => panic!("report expected"),
    }
    match export_to_string(&layout, &analysis(), &[], ExportFormat::Markdown, "a/b/fw.elf", "2024-05-01 12:00:00") {
        Exported::Text(t) => {
            assert!(t.starts_with("# Memory Report: fw.elf\n\nGenerated: 2024-05-01 12:00:00\n"))
        },
        Exported::Report(_) => panic!("text expected"),
    }
}

#[test]
fn test_markdown_title_is_the_file_name() {
    let layout = MemoryLayout::new();
    let title = |path: &str| -> String {
        let md = export_markdown(&layout, &analysis(), &[], path, "t");
        md.lines().next().unwrap().to_string()
    };
    assert_eq!(title("build/fw.elf"), "# Memory Report: fw.elf");
    assert_eq!(title("fw.elf/.//"), "# Memory Report: fw.elf");
    assert_eq!(title("./fw.elf"), "# Memory Report: fw.elf");
    assert_eq!(title("build/.."), "# Memory Report: ");
    assert_eq!(title("/"), "# Memory Report: ");
    assert_eq!(title("."), "# Memory Report: ");
}
