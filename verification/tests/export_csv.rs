//! Tests of the CSV export.
use memscope::export::csv::{escape_csv, export_analysis_csv, export_sections_csv, export_symbols_csv};
use memscope::models::{AnalysisResult, MemoryLayout, Symbol};
#[test]
fn test_escape_csv() {
    assert_eq!(escape_csv("simple"), "simple");
    assert_eq!(escape_csv("with\"quote"), "with\"\"quote");
    assert_eq!(escape_csv("normal,comma"), "normal,comma");
}

#[test]
fn test_symbols_csv_header() {
    let symbols: Vec<Symbol> = vec![];
    let csv = export_symbols_csv(&symbols);
    assert!(csv.starts_with(
        "Name,Address,Size,SizeHuman,Type,Binding,Visibility,SectionIndex,SourceFile\n"
    ));
}

#[test]
fn test_sections_csv_header() {
    let layout = MemoryLayout::new();
    let csv = export_sections_csv(&layout);
    assert!(csv.starts_with("Section,Address,Size,SizeHuman,Type,Region\n"));
}

#[test]
fn test_analysis_csv_header() {
    let analysis = AnalysisResult {
        gaps: vec![],
        overlaps: vec![],
        total_padding: 0,
        stack_heap_gap: None,
        warnings: vec![],
    };
    let csv = export_analysis_csv(&analysis);
    assert!(csv.starts_with("Type,Region,Start,End,Size,SizeHuman,Details\n"));
}
