//! Tests of the Markdown export.
use memscope::export::markdown::{export_markdown, truncate_for_table};
use memscope::models::{AnalysisResult, MemoryLayout, Symbol};
#[test]
fn test_truncate_for_table() {
    assert_eq!(truncate_for_table("short", 10), "short");
    assert_eq!(
        truncate_for_table("this_is_a_very_long_symbol_name", 15),
        "this_is_a_ve..."
    );
}

#[test]
fn test_markdown_generation() {
    let layout = MemoryLayout::new();
    let analysis = AnalysisResult {
        gaps: vec![],
        overlaps: vec![],
        total_padding: 0,
        stack_heap_gap: None,
        warnings: vec![],
    };
    let symbols: Vec<Symbol> = vec![];
    let path = "test.elf";

    let md = export_markdown(&layout, &analysis, &symbols, path, "2024-05-01 12:00:00");
    assert!(md.contains("# Memory Report: test.elf"));
    assert!(md.contains("## Memory Summary"));
    assert!(md.contains("## Analysis"));
}
