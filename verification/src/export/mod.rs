//! Export of memory layout data: JSON reports (machine-readable), CSV tables
//! (symbols, sections, analysis) and Markdown reports.
pub mod csv;
pub mod json;
pub mod markdown;

use vstd::prelude::*;

use crate::export::csv::{
    analysis_header, analysis_tail, concat_rows, export_analysis_csv, export_sections_csv,
    export_symbols_csv, gap_row_fn, overlap_row_fn, section_row_fn, sections_header,
    symbol_row_fn, symbols_header,
};
use crate::export::json::{MemoryReport, build_report, report_is};
use crate::export::markdown::{export_markdown, markdown_text, path_file_name, top_symbols_fit};
use crate::models::{AnalysisResult, MemoryLayout, Symbol, symbols_view};
use crate::text::{str_eq, str_lowercase, to_lowercase};

verus! {

/// Export format options.
#[derive(Debug, Clone, Copy, PartialEq, Eq, Structural)]
pub enum ExportFormat {
    /// JSON format (machine-readable)
    Json,
    /// CSV format with symbols table
    CsvSymbols,
    /// CSV format with sections summary
    CsvSections,
    /// CSV format with analysis data
    CsvAnalysis,
    /// Markdown report
    Markdown,
}

/// The format a lowercase name selects.
pub open spec fn format_named(s: Seq<char>) -> Option<ExportFormat> {
    if s == "json"@ {
        Some(ExportFormat::Json)
    } else if s == "csv"@ || s == "csv:symbols"@ {
        Some(ExportFormat::CsvSymbols)
    } else if s == "csv:sections"@ {
        Some(ExportFormat::CsvSections)
    } else if s == "csv:analysis"@ {
        Some(ExportFormat::CsvAnalysis)
    } else if s == "markdown"@ || s == "md"@ {
        Some(ExportFormat::Markdown)
    } else {
        None
    }
}

impl ExportFormat {
    /// Parse an export format name, ignoring case: "json"; "csv" or
    /// "csv:symbols"; "csv:sections"; "csv:analysis"; "markdown" or "md".
    pub fn from_str(s: &str) -> (r: Option<Self>)
        ensures
            r == format_named(str_lowercase(s@)),
    {
        let lower = to_lowercase(s);
        let l = lower.as_str();
        if str_eq(l, "json") {
            Some(ExportFormat::Json)
        } else if str_eq(l, "csv") || str_eq(l, "csv:symbols") {
            Some(ExportFormat::CsvSymbols)
        } else if str_eq(l, "csv:sections") {
            Some(ExportFormat::CsvSections)
        } else if str_eq(l, "csv:analysis") {
            Some(ExportFormat::CsvAnalysis)
        } else if str_eq(l, "markdown") || str_eq(l, "md") {
            Some(ExportFormat::Markdown)
        } else {
            None
        }
    }
}

/// What an export produces: the text of a CSV or Markdown export, or the
/// report that a JSON export serialises.
#[derive(Debug)]
pub enum Exported {
    Text(String),
    Report(MemoryReport),
}

/// Export memory layout data in the given format; the JSON report and the
/// Markdown report are stamped with `timestamp`.
pub fn export_to_string(
    layout: &MemoryLayout,
    analysis: &AnalysisResult,
    symbols: &[Symbol],
    format: ExportFormat,
    elf_path: &str,
    timestamp: &str,
) -> (r: Exported)
    requires
        format == ExportFormat::Markdown ==> top_symbols_fit(symbols_view(symbols@)),
    ensures
        format == ExportFormat::Json ==> (r matches Exported::Report(rep) && report_is(
            rep,
            *layout,
            *analysis,
            symbols@,
            elf_path@,
        ) && rep.metadata.timestamp@ == timestamp@),
        format == ExportFormat::CsvSymbols ==> (r matches Exported::Text(t) && t@ == symbols_header()
            + concat_rows(symbols@, symbol_row_fn())),
        format == ExportFormat::CsvSections ==> (r matches Exported::Text(t) && t@
            == sections_header() + concat_rows(layout.sections@, section_row_fn())),
        format == ExportFormat::CsvAnalysis ==> (r matches Exported::Text(t) && t@
            == analysis_header() + concat_rows(analysis.gaps@, gap_row_fn()) + concat_rows(
            analysis.overlaps@,
            overlap_row_fn(),
        ) + analysis_tail(*analysis)),
        format == ExportFormat::Markdown ==> (r matches Exported::Text(t) && t@ == markdown_text(
            *layout,
            *analysis,
            symbols_view(symbols@),
            path_file_name(elf_path@),
            timestamp@,
        )),
{
    match format {
        ExportFormat::Json => Exported::Report(build_report(layout, analysis, symbols, elf_path, timestamp)),
        ExportFormat::CsvSymbols => Exported::Text(export_symbols_csv(symbols)),
        ExportFormat::CsvSections => Exported::Text(export_sections_csv(layout)),
        ExportFormat::CsvAnalysis => Exported::Text(export_analysis_csv(analysis)),
        ExportFormat::Markdown => Exported::Text(export_markdown(layout, analysis, symbols, elf_path, timestamp)),
    }
}

} // verus!
