//! Markdown export: a human-readable report of usage, sections, analysis
//! findings and the largest symbols.
use vstd::prelude::*;

use crate::diff::analyzer::{insert_by_size_desc, size_desc_key};
use crate::elf::analyzer::strings_view;
use crate::export::csv::concat_rows;
use crate::models::{
    AnalysisResult, MemoryGap, MemoryLayout, MemoryOverlap, MemorySection, Symbol, SymbolV,
    gap_region_name, section_type_name, symbol_type_name, symbols_view,
};
use crate::sort::sort_by;
use crate::text::{dec, dec_u64, hex8, hex8_u64, push_chars, push_str, string_of};
use crate::utils::{
    format_size_human, is_flash, is_flash_section, is_ram, is_ram_section, percent1, percent1_exec,
    size_human, truncate, truncate_ok, truncated,
};

verus! {

/// Position of the last `/` in `p`, or -1 when there is none.
pub open spec fn last_slash(p: Seq<char>) -> int
    decreases p.len(),
{
    if p.len() == 0 {
        -1
    } else if p.last() == '/' {
        p.len() - 1
    } else {
        last_slash(p.drop_last())
    }
}

/// The last `/` lies within the path.
pub proof fn lemma_last_slash_bounds(p: Seq<char>)
    ensures
        -1 <= last_slash(p) < p.len(),
    decreases p.len(),
{
    if p.len() > 0 && p.last() != '/' {
        lemma_last_slash_bounds(p.drop_last());
    }
}

/// The file name of a `/`-separated path, as `Path::file_name` gives it on
/// Unix: the last component, where empty and `.` components do not count;
/// nothing when that component is `..` or there is none (`""`, `"/"`, `"."`).
pub open spec fn path_file_name(p: Seq<char>) -> Seq<char>
    decreases p.len(),
{
    proof {
        lemma_last_slash_bounds(p);
    }
    let k = last_slash(p);
    let seg = p.subrange(k + 1, p.len() as int);
    if seg.len() == 0 || seg == seq!['.'] {
        if k < 0 {
            Seq::empty()
        } else {
            path_file_name(p.subrange(0, k))
        }
    } else if seg == seq!['.', '.'] {
        Seq::empty()
    } else {
        seg
    }
}

/// Calls `std::path::Path::file_name` on `p` and converts the component
/// with `to_string_lossy` (lossless for text), the empty string when there
/// is no file name. The contract states the result as the standard
/// documentation describes it for Unix paths: components split at `/`,
/// empty and `.` components normalised away, `None` for a path that ends in
/// `..` or has no normal component.
#[verifier::external_body]
fn file_name_of(p: &str) -> (r: String)
    ensures
        r@ == path_file_name(p@),
{
    std::path::Path::new(p).file_name().unwrap_or_default().to_string_lossy().into_owned()
}

// ---------------------------------------------------------------------------
// Memory summary
// ---------------------------------------------------------------------------

/// The total size of a region, or "Unknown".
pub open spec fn total_text(o: Option<u64>) -> Seq<char> {
    match o {
        Some(t) => size_human(t as nat),
        None => "Unknown"@,
    }
}

/// The exact percentage `used / total * 100` with one decimal (NaN for 0/0,
/// inf for a positive amount of nothing), or "N/A".
pub open spec fn usage_text(used: u64, o: Option<u64>) -> Seq<char> {
    match o {
        Some(t) => if t == 0 {
            if used == 0 {
                "NaN%"@
            } else {
                "inf%"@
            }
        } else {
            percent1(used as nat, t as nat) + "%"@
        },
        None => "N/A"@,
    }
}

pub open spec fn summary_md(l: MemoryLayout) -> Seq<char> {
    "## Memory Summary\n\n"@ + "| Region | Used | Total | Percentage |\n"@
        + "|--------|------|-------|------------|\n"@ + "| Flash  | "@ + size_human(
        l.total_flash_used as nat,
    ) + " | "@ + total_text(l.flash_size) + " | "@ + usage_text(l.total_flash_used, l.flash_size)
        + " |\n"@ + "| RAM    | "@ + size_human(l.total_ram_used as nat) + " | "@ + total_text(
        l.ram_size,
    ) + " | "@ + usage_text(l.total_ram_used, l.ram_size) + " |\n\n"@
}

fn push_total(v: &mut Vec<char>, o: Option<u64>)
    ensures
        final(v)@ == old(v)@ + total_text(o),
{
    match o {
        Some(t) => push_str(v, format_size_human(t).as_str()),
        None => push_str(v, "Unknown"),
    }
}

fn push_usage(v: &mut Vec<char>, used: u64, o: Option<u64>)
    ensures
        final(v)@ == old(v)@ + usage_text(used, o),
{
    match o {
        Some(t) => {
            if t == 0 {
                if used == 0 {
                    push_str(v, "NaN%");
                } else {
                    push_str(v, "inf%");
                }
            } else {
                let p = percent1_exec(used, t);
                push_chars(v, p.as_slice());
                push_str(v, "%");
                assert(final(v)@ =~= old(v)@ + usage_text(used, o));
            }
        },
        None => push_str(v, "N/A"),
    }
}

fn write_memory_summary(v: &mut Vec<char>, layout: &MemoryLayout)
    ensures
        final(v)@ == old(v)@ + summary_md(*layout),
{
    push_str(v, "## Memory Summary\n\n");
    push_str(v, "| Region | Used | Total | Percentage |\n");
    push_str(v, "|--------|------|-------|------------|\n");
    push_str(v, "| Flash  | ");
    push_str(v, format_size_human(layout.total_flash_used).as_str());
    push_str(v, " | ");
    push_total(v, layout.flash_size);
    push_str(v, " | ");
    push_usage(v, layout.total_flash_used, layout.flash_size);
    push_str(v, " |\n");
    push_str(v, "| RAM    | ");
    push_str(v, format_size_human(layout.total_ram_used).as_str());
    push_str(v, " | ");
    push_total(v, layout.ram_size);
    push_str(v, " | ");
    push_usage(v, layout.total_ram_used, layout.ram_size);
    push_str(v, " |\n\n");
    assert(final(v)@ =~= old(v)@ + summary_md(*layout));
}

// ---------------------------------------------------------------------------
// Sections
// ---------------------------------------------------------------------------

/// The sections that satisfy `p`, in order.
pub open spec fn sections_where(s: Seq<MemorySection>, p: spec_fn(MemorySection) -> bool) -> Seq<MemorySection>
    decreases s.len(),
{
    if s.len() == 0 {
        Seq::empty()
    } else if p(s.last()) {
        sections_where(s.drop_last(), p).push(s.last())
    } else {
        sections_where(s.drop_last(), p)
    }
}

pub open spec fn flash_p() -> spec_fn(MemorySection) -> bool {
    |s: MemorySection| is_flash(s)
}

pub open spec fn ram_p() -> spec_fn(MemorySection) -> bool {
    |s: MemorySection| is_ram(s)
}

pub open spec fn section_md_row(s: MemorySection) -> Seq<char> {
    "| "@ + s.name@ + " | "@ + hex8(s.address as nat) + " | "@ + size_human(s.size as nat) + " | "@
        + section_type_name(s.section_type) + " |\n"@
}

pub open spec fn section_md_row_fn() -> spec_fn(MemorySection) -> Seq<char> {
    |s: MemorySection| section_md_row(s)
}

/// A titled table of sections, or nothing when there are none.
pub open spec fn section_table_md(title: Seq<char>, s: Seq<MemorySection>) -> Seq<char> {
    if s.len() == 0 {
        Seq::empty()
    } else {
        title + "| Section | Address | Size | Type |\n"@ + "|---------|---------|------|------|\n"@
            + concat_rows(s, section_md_row_fn()) + "\n"@
    }
}

pub open spec fn sections_md(l: MemoryLayout) -> Seq<char> {
    "## Memory Sections\n\n"@ + section_table_md(
        "### Flash Sections\n\n"@,
        sections_where(l.sections@, flash_p()),
    ) + section_table_md("### RAM Sections\n\n"@, sections_where(l.sections@, ram_p()))
}

fn push_section_md_row(v: &mut Vec<char>, s: &MemorySection)
    ensures
        final(v)@ == old(v)@ + section_md_row(*s),
{
    push_str(v, "| ");
    push_str(v, s.name.as_str());
    push_str(v, " | ");
    push_chars(v, hex8_u64(s.address).as_slice());
    push_str(v, " | ");
    push_str(v, format_size_human(s.size).as_str());
    push_str(v, " | ");
    push_chars(v, s.section_type.debug_name().as_slice());
    push_str(v, " |\n");
    assert(final(v)@ =~= old(v)@ + section_md_row(*s));
}

/// Writes the table of the Flash sections (`flash`) or RAM sections.
fn write_section_table(v: &mut Vec<char>, layout: &MemoryLayout, flash: bool)
    ensures
        flash ==> final(v)@ == old(v)@ + section_table_md(
            "### Flash Sections\n\n"@,
            sections_where(layout.sections@, flash_p()),
        ),
        !flash ==> final(v)@ == old(v)@ + section_table_md(
            "### RAM Sections\n\n"@,
            sections_where(layout.sections@, ram_p()),
        ),
{
    let ghost s = layout.sections@;
    let ghost p = if flash {
        flash_p()
    } else {
        ram_p()
    };
    let mut rows: Vec<char> = Vec::new();
    let mut n: usize = 0;
    let mut i: usize = 0;
    while i < layout.sections.len()
        invariant
            i <= s.len(),
            s == layout.sections@,
            p == if flash {
                flash_p()
            } else {
                ram_p()
            },
            rows@ == concat_rows(sections_where(s.take(i as int), p), section_md_row_fn()),
            n == sections_where(s.take(i as int), p).len(),
            n <= i,
        decreases s.len() - i,
    {
        assert(s.take(i + 1).drop_last() =~= s.take(i as int));
        let sec = &layout.sections[i];
        let keep = if flash {
            is_flash_section(sec)
        } else {
            is_ram_section(sec)
        };
        assert(s.take(i + 1).last() == s[i as int]);
        assert(p(s[i as int]) == keep);
        if keep {
            let ghost prev = sections_where(s.take(i as int), p);
            assert(prev.push(s[i as int]).drop_last() =~= prev);
            push_section_md_row(&mut rows, sec);
            n = n + 1;
        }
        i = i + 1;
    }
    assert(s.take(s.len() as int) =~= s);
    if n > 0 {
        if flash {
            push_str(v, "### Flash Sections\n\n");
        } else {
            push_str(v, "### RAM Sections\n\n");
        }
        push_str(v, "| Section | Address | Size | Type |\n");
        push_str(v, "|---------|---------|------|------|\n");
        push_chars(v, rows.as_slice());
        push_str(v, "\n");
    }
}

fn write_sections(v: &mut Vec<char>, layout: &MemoryLayout)
    ensures
        final(v)@ == old(v)@ + sections_md(*layout),
{
    push_str(v, "## Memory Sections\n\n");
    write_section_table(v, layout, true);
    write_section_table(v, layout, false);
    assert(final(v)@ =~= old(v)@ + sections_md(*layout));
}

// ---------------------------------------------------------------------------
// Analysis
// ---------------------------------------------------------------------------

pub open spec fn warning_line(w: Seq<char>) -> Seq<char> {
    "- "@ + w + "\n"@
}

pub open spec fn warning_line_fn() -> spec_fn(Seq<char>) -> Seq<char> {
    |w: Seq<char>| warning_line(w)
}

pub open spec fn gap_md_row(g: MemoryGap) -> Seq<char> {
    "| "@ + gap_region_name(g.region_type) + " | "@ + hex8(g.start as nat) + " | "@ + hex8(
        g.end as nat,
    ) + " | "@ + size_human(g.size as nat) + " |\n"@
}

pub open spec fn gap_md_row_fn() -> spec_fn(MemoryGap) -> Seq<char> {
    |g: MemoryGap| gap_md_row(g)
}

pub open spec fn overlap_md_row(o: MemoryOverlap) -> Seq<char> {
    "| "@ + o.section1@ + " | "@ + o.section2@ + " | "@ + hex8(o.overlap_start as nat) + " | "@ + hex8(
        o.overlap_end as nat,
    ) + " | "@ + size_human(o.overlap_size as nat) + " |\n"@
}

pub open spec fn overlap_md_row_fn() -> spec_fn(MemoryOverlap) -> Seq<char> {
    |o: MemoryOverlap| overlap_md_row(o)
}

/// Severity of the space between stack and heap.
pub open spec fn gap_status(gap: u64) -> Seq<char> {
    if gap == 0 {
        "❌ CRITICAL"@
    } else if gap < 1024 {
        "⚠️ WARNING"@
    } else if gap < 4096 {
        "⚠️ CAUTION"@
    } else {
        "✅ OK"@
    }
}

pub open spec fn warnings_md(a: AnalysisResult) -> Seq<char> {
    if a.warnings@.len() == 0 {
        Seq::empty()
    } else {
        "### ⚠️ Warnings\n\n"@ + concat_rows(strings_view(a.warnings@), warning_line_fn()) + "\n"@
    }
}

pub open spec fn gaps_md(a: AnalysisResult) -> Seq<char> {
    if a.gaps@.len() == 0 {
        Seq::empty()
    } else {
        "### Memory Gaps\n\n"@ + "| Region | Start | End | Size |\n"@
            + "|--------|-------|-----|------|\n"@ + concat_rows(a.gaps@, gap_md_row_fn()) + "\n"@
    }
}

pub open spec fn overlaps_md(a: AnalysisResult) -> Seq<char> {
    if a.overlaps@.len() == 0 {
        Seq::empty()
    } else {
        "### ❌ Memory Overlaps (Critical Issues)\n\n"@
            + "| Section 1 | Section 2 | Start | End | Size |\n"@
            + "|-----------|-----------|-------|-----|------|\n"@ + concat_rows(
            a.overlaps@,
            overlap_md_row_fn(),
        ) + "\n"@
    }
}

pub open spec fn padding_md(a: AnalysisResult) -> Seq<char> {
    if a.total_padding > 0 {
        "**Alignment Padding**: "@ + size_human(a.total_padding as nat)
            + " (wasted due to alignment)\n\n"@
    } else {
        Seq::empty()
    }
}

pub open spec fn stack_heap_md(a: AnalysisResult) -> Seq<char> {
    match a.stack_heap_gap {
        Some(g) => "**Stack/Heap Gap**: "@ + size_human(g as nat) + " - "@ + gap_status(g) + "\n\n"@,
        None => Seq::empty(),
    }
}

pub open spec fn analysis_md(a: AnalysisResult) -> Seq<char> {
    "## Analysis\n\n"@ + warnings_md(a) + gaps_md(a) + overlaps_md(a) + padding_md(a) + stack_heap_md(a)
}

fn write_warnings(v: &mut Vec<char>, a: &AnalysisResult)
    ensures
        final(v)@ == old(v)@ + warnings_md(*a),
{
    if a.warnings.len() == 0 {
        assert(final(v)@ =~= old(v)@ + Seq::<char>::empty());
        return;
    }
    let ghost start = v@;
    push_str(v, "### ⚠️ Warnings\n\n");
    let ghost head = v@;
    let ghost ws = strings_view(a.warnings@);
    let mut i: usize = 0;
    while i < a.warnings.len()
        invariant
            i <= ws.len(),
            ws == strings_view(a.warnings@),
            v@ == head + concat_rows(ws.take(i as int), warning_line_fn()),
        decreases ws.len() - i,
    {
        assert(ws.take(i + 1).drop_last() =~= ws.take(i as int));
        push_str(v, "- ");
        push_str(v, a.warnings[i].as_str());
        push_str(v, "\n");
        i = i + 1;
        assert(v@ =~= head + concat_rows(ws.take(i as int), warning_line_fn()));
    }
    assert(ws.take(ws.len() as int) =~= ws);
    push_str(v, "\n");
    assert(v@ =~= start + ("### ⚠️ Warnings\n\n"@ + concat_rows(ws, warning_line_fn()) + "\n"@));
}

fn write_gaps(v: &mut Vec<char>, a: &AnalysisResult)
    ensures
        final(v)@ == old(v)@ + gaps_md(*a),
{
    if a.gaps.len() == 0 {
        assert(final(v)@ =~= old(v)@ + Seq::<char>::empty());
        return;
    }
    let ghost start = v@;
    push_str(v, "### Memory Gaps\n\n");
    push_str(v, "| Region | Start | End | Size |\n");
    push_str(v, "|--------|-------|-----|------|\n");
    let ghost head = v@;
    let ghost gs = a.gaps@;
    let mut i: usize = 0;
    while i < a.gaps.len()
        invariant
            i <= gs.len(),
            gs == a.gaps@,
            v@ == head + concat_rows(gs.take(i as int), gap_md_row_fn()),
        decreases gs.len() - i,
    {
        assert(gs.take(i + 1).drop_last() =~= gs.take(i as int));
        let g = &a.gaps[i];
        push_str(v, "| ");
        push_str(v, g.region_type.name());
        push_str(v, " | ");
        push_chars(v, hex8_u64(g.start).as_slice());
        push_str(v, " | ");
        push_chars(v, hex8_u64(g.end).as_slice());
        push_str(v, " | ");
        push_str(v, format_size_human(g.size).as_str());
        push_str(v, " |\n");
        i = i + 1;
        assert(v@ =~= head + concat_rows(gs.take(i as int), gap_md_row_fn()));
    }
    assert(gs.take(gs.len() as int) =~= gs);
    push_str(v, "\n");
    assert(v@ =~= start + ("### Memory Gaps\n\n"@ + "| Region | Start | End | Size |\n"@
        + "|--------|-------|-----|------|\n"@ + concat_rows(gs, gap_md_row_fn()) + "\n"@));
}

fn write_overlaps(v: &mut Vec<char>, a: &AnalysisResult)
    ensures
        final(v)@ == old(v)@ + overlaps_md(*a),
{
    if a.overlaps.len() == 0 {
        assert(final(v)@ =~= old(v)@ + Seq::<char>::empty());
        return;
    }
    let ghost start = v@;
    push_str(v, "### ❌ Memory Overlaps (Critical Issues)\n\n");
    push_str(v, "| Section 1 | Section 2 | Start | End | Size |\n");
    push_str(v, "|-----------|-----------|-------|-----|------|\n");
    let ghost head = v@;
    let ghost os = a.overlaps@;
    let mut i: usize = 0;
    while i < a.overlaps.len()
        invariant
            i <= os.len(),
            os == a.overlaps@,
            v@ == head + concat_rows(os.take(i as int), overlap_md_row_fn()),
        decreases os.len() - i,
    {
        assert(os.take(i + 1).drop_last() =~= os.take(i as int));
        let o = &a.overlaps[i];
        push_str(v, "| ");
        push_str(v, o.section1.as_str());
        push_str(v, " | ");
        push_str(v, o.section2.as_str());
        push_str(v, " | ");
        push_chars(v, hex8_u64(o.overlap_start).as_slice());
        push_str(v, " | ");
        push_chars(v, hex8_u64(o.overlap_end).as_slice());
        push_str(v, " | ");
        push_str(v, format_size_human(o.overlap_size).as_str());
        push_str(v, " |\n");
        i = i + 1;
        assert(v@ =~= head + concat_rows(os.take(i as int), overlap_md_row_fn()));
    }
    assert(os.take(os.len() as int) =~= os);
    push_str(v, "\n");
    assert(v@ =~= start + ("### ❌ Memory Overlaps (Critical Issues)\n\n"@
        + "| Section 1 | Section 2 | Start | End | Size |\n"@
        + "|-----------|-----------|-------|-----|------|\n"@ + concat_rows(os, overlap_md_row_fn())
        + "\n"@));
}

fn write_padding(v: &mut Vec<char>, analysis: &AnalysisResult)
    ensures
        final(v)@ == old(v)@ + padding_md(*analysis),
{
    if analysis.total_padding > 0 {
        push_str(v, "**Alignment Padding**: ");
        push_str(v, format_size_human(analysis.total_padding).as_str());
        push_str(v, " (wasted due to alignment)\n\n");
    }
    assert(final(v)@ =~= old(v)@ + padding_md(*analysis));
}

fn write_stack_heap(v: &mut Vec<char>, analysis: &AnalysisResult)
    ensures
        final(v)@ == old(v)@ + stack_heap_md(*analysis),
{
    if let Some(gap) = analysis.stack_heap_gap {
        push_str(v, "**Stack/Heap Gap**: ");
        push_str(v, format_size_human(gap).as_str());
        push_str(v, " - ");
        if gap == 0 {
            push_str(v, "❌ CRITICAL");
        } else if gap < 1024 {
            push_str(v, "⚠️ WARNING");
        } else if gap < 4096 {
            push_str(v, "⚠️ CAUTION");
        } else {
            push_str(v, "✅ OK");
        }
        push_str(v, "\n\n");
    }
    assert(final(v)@ =~= old(v)@ + stack_heap_md(*analysis));
}

fn write_analysis(v: &mut Vec<char>, analysis: &AnalysisResult)
    ensures
        final(v)@ == old(v)@ + analysis_md(*analysis),
{
    push_str(v, "## Analysis\n\n");
    write_warnings(v, analysis);
    write_gaps(v, analysis);
    write_overlaps(v, analysis);
    write_padding(v, analysis);
    write_stack_heap(v, analysis);
    assert(final(v)@ =~= old(v)@ + analysis_md(*analysis));
}

// ---------------------------------------------------------------------------
// Top symbols
// ---------------------------------------------------------------------------

/// The ten largest symbols, largest first (equal sizes keep their order).
pub open spec fn top_symbols(s: Seq<SymbolV>) -> Seq<SymbolV> {
    let sorted = sort_by(s, size_desc_key());
    if sorted.len() <= 10 {
        sorted
    } else {
        sorted.take(10)
    }
}

/// The source file column of a symbol.
pub open spec fn file_column(s: SymbolV) -> Seq<char> {
    match s.source_file {
        Some(f) => f,
        None => "Unknown"@,
    }
}

/// Truncating the name and file of every listed symbol is possible.
pub open spec fn top_symbols_fit(s: Seq<SymbolV>) -> bool {
    forall|i: int| #![trigger top_symbols(s)[i]] 0 <= i < top_symbols(s).len() ==> truncate_ok(top_symbols(s)[i].name, 40)
        && truncate_ok(file_column(top_symbols(s)[i]), 20)
}

pub open spec fn top_row(rank: nat, s: SymbolV) -> Seq<char> {
    "| "@ + dec(rank) + " | "@ + truncated(s.name, 40) + " | "@ + size_human(s.size as nat) + " | "@
        + symbol_type_name(s.symbol_type) + " | "@ + truncated(file_column(s), 20) + " |\n"@
}

/// The rows of the first `n` listed symbols.
pub open spec fn top_rows(t: Seq<SymbolV>, n: int) -> Seq<char>
    decreases n,
{
    if n <= 0 {
        Seq::empty()
    } else {
        top_rows(t, n - 1) + top_row(n as nat, t[n - 1])
    }
}

/// Sum of the sizes, wrapping around at 2^64.
pub open spec fn size_sum(t: Seq<SymbolV>) -> u64
    decreases t.len(),
{
    if t.len() == 0 {
        0
    } else {
        vstd::wrapping::u64_specs::wrapping_add(size_sum(t.drop_last()), t.last().size)
    }
}

pub open spec fn top_symbols_md(s: Seq<SymbolV>) -> Seq<char> {
    "## Top 10 Largest Symbols\n\n"@ + if s.len() == 0 {
        "*No symbols found*\n\n"@
    } else {
        let t = top_symbols(s);
        "| Rank | Symbol | Size | Type | File |\n"@ + "|------|--------|------|------|------|\n"@
            + top_rows(t, t.len() as int) + "\n"@ + "**Total (Top 10)**: "@ + size_human(
            size_sum(t) as nat,
        ) + "\n\n"@
    }
}

fn push_top_row(v: &mut Vec<char>, rank: usize, s: &Symbol)
    requires
        truncate_ok(s.name@, 40),
        truncate_ok(file_column(s@), 20),
    ensures
        final(v)@ == old(v)@ + top_row(rank as nat, s@),
{
    let file: &str = match &s.source_file {
        Some(f) => f.as_str(),
        None => "Unknown",
    };
    assert(file@ == file_column(s@));
    push_str(v, "| ");
    push_chars(v, dec_u64(rank as u64).as_slice());
    push_str(v, " | ");
    push_str(v, truncate(s.name.as_str(), 40).as_str());
    push_str(v, " | ");
    push_str(v, format_size_human(s.size).as_str());
    push_str(v, " | ");
    push_str(v, s.symbol_type.name());
    push_str(v, " | ");
    push_str(v, truncate(file, 20).as_str());
    push_str(v, " |\n");
    assert(final(v)@ =~= old(v)@ + top_row(rank as nat, s@));
}

/// The symbols, largest first.
pub fn sort_by_size(symbols: &[Symbol]) -> (r: Vec<Symbol>)
    ensures
        symbols_view(r@) == sort_by(symbols_view(symbols@), size_desc_key()),
{
    let ghost s = symbols_view(symbols@);
    let mut out: Vec<Symbol> = Vec::new();
    let mut i: usize = 0;
    while i < symbols.len()
        invariant
            i <= symbols@.len(),
            s == symbols_view(symbols@),
            symbols_view(out@) == sort_by(s.take(i as int), size_desc_key()),
        decreases symbols.len() - i,
    {
        assert(s.take(i + 1).drop_last() =~= s.take(i as int));
        insert_by_size_desc(&mut out, symbols[i].clone());
        i = i + 1;
    }
    assert(s.take(s.len() as int) =~= s);
    out
}

fn write_top_symbols(v: &mut Vec<char>, symbols: &[Symbol])
    requires
        top_symbols_fit(symbols_view(symbols@)),
    ensures
        final(v)@ == old(v)@ + top_symbols_md(symbols_view(symbols@)),
{
    let ghost start = v@;
    push_str(v, "## Top 10 Largest Symbols\n\n");
    if symbols.len() == 0 {
        push_str(v, "*No symbols found*\n\n");
        assert(v@ =~= start + top_symbols_md(symbols_view(symbols@)));
        return;
    }
    push_str(v, "| Rank | Symbol | Size | Type | File |\n");
    push_str(v, "|------|--------|------|------|------|\n");
    let sorted = sort_by_size(symbols);
    let ghost t = top_symbols(symbols_view(symbols@));
    proof {
        crate::sort::lemma_sort_by_sorted(symbols_view(symbols@), size_desc_key());
    }
    let count: usize = if sorted.len() < 10 {
        sorted.len()
    } else {
        10
    };
    assert(t.len() == count);
    let ghost head = v@;
    let mut total: u64 = 0;
    let mut i: usize = 0;
    while i < count
        invariant
            i <= count,
            count <= sorted@.len(),
            t.len() == count,
            forall|k: int| 0 <= k < count ==> #[trigger] t[k] == sorted@[k]@,
            top_symbols_fit(symbols_view(symbols@)),
            t == top_symbols(symbols_view(symbols@)),
            v@ == head + top_rows(t, i as int),
            total == size_sum(t.take(i as int)),
        decreases count - i,
    {
        assert(t.take(i + 1).drop_last() =~= t.take(i as int));
        let s = &sorted[i];
        assert(t[i as int] == s@);
        assert(top_symbols(symbols_view(symbols@))[i as int] == s@);
        assert(truncate_ok(s.name@, 40));
        assert(truncate_ok(file_column(s@), 20));
        push_top_row(v, i + 1, s);
        total = total.wrapping_add(s.size);
        i = i + 1;
        assert(v@ =~= head + top_rows(t, i as int));
    }
    assert(t.take(count as int) =~= t);
    push_str(v, "\n");
    push_str(v, "**Total (Top 10)**: ");
    push_str(v, format_size_human(total).as_str());
    push_str(v, "\n\n");
    assert(v@ =~= start + top_symbols_md(symbols_view(symbols@)));
}

/// Whether the report can list the largest symbols: the name and file of
/// each must be cut at a character boundary (see `truncate_ok`).
pub fn top_symbols_truncate_cleanly(symbols: &[Symbol]) -> (r: bool)
    ensures
        r == top_symbols_fit(symbols_view(symbols@)),
{
    let sorted = sort_by_size(symbols);
    let ghost t = top_symbols(symbols_view(symbols@));
    proof {
        crate::sort::lemma_sort_by_sorted(symbols_view(symbols@), size_desc_key());
    }
    let count: usize = if sorted.len() < 10 {
        sorted.len()
    } else {
        10
    };
    let mut i: usize = 0;
    while i < count
        invariant
            i <= count,
            count <= sorted@.len(),
            t.len() == count,
            t == top_symbols(symbols_view(symbols@)),
            forall|k: int| 0 <= k < count ==> #[trigger] t[k] == sorted@[k]@,
            forall|k: int| 0 <= k < i ==> truncate_ok(#[trigger] t[k].name, 40) && truncate_ok(file_column(t[k]), 20),
        decreases count - i,
    {
        let s = &sorted[i];
        assert(t[i as int] == s@);
        let file: &str = match &s.source_file {
            Some(f) => f.as_str(),
            None => "Unknown",
        };
        assert(file@ == file_column(s@));
        if !crate::utils::can_truncate(s.name.as_str(), 40) || !crate::utils::can_truncate(file, 20) {
            return false;
        }
        i = i + 1;
    }
    true
}

/// Truncate a string for table display: at most `max_len` bytes, the cut
/// marked with "...".
pub fn truncate_for_table(s: &str, max_len: usize) -> (r: String)
    requires
        truncate_ok(s@, max_len as nat),
    ensures
        r@ == truncated(s@, max_len as nat),
{
    truncate(s, max_len)
}

// ---------------------------------------------------------------------------
// The report
// ---------------------------------------------------------------------------

/// The whole report for the file called `name`, generated at `ts`.
pub open spec fn markdown_text(l: MemoryLayout, a: AnalysisResult, s: Seq<SymbolV>, name: Seq<char>, ts: Seq<char>) -> Seq<char> {
    "# Memory Report: "@ + name + "\n\n"@ + "Generated: "@ + ts + "\n\n"@ + summary_md(l) + sections_md(
        l,
    ) + analysis_md(a) + top_symbols_md(s)
}

/// The report for the file called `name`, with the generation time `timestamp`.
pub fn render_markdown(
    layout: &MemoryLayout,
    analysis: &AnalysisResult,
    symbols: &[Symbol],
    name: &str,
    timestamp: &str,
) -> (r: String)
    requires
        top_symbols_fit(symbols_view(symbols@)),
    ensures
        r@ == markdown_text(*layout, *analysis, symbols_view(symbols@), name@, timestamp@),
{
    let mut v: Vec<char> = Vec::new();
    push_str(&mut v, "# Memory Report: ");
    push_str(&mut v, name);
    push_str(&mut v, "\n\n");
    push_str(&mut v, "Generated: ");
    push_str(&mut v, timestamp);
    push_str(&mut v, "\n\n");
    write_memory_summary(&mut v, layout);
    write_sections(&mut v, layout);
    write_analysis(&mut v, analysis);
    write_top_symbols(&mut v, symbols);
    assert(v@ =~= markdown_text(*layout, *analysis, symbols_view(symbols@), name@, timestamp@));
    string_of(v.as_slice())
}

/// Export the memory layout as a Markdown report titled with the file name
/// of `elf_path` and stamped with `timestamp` (the local time it was made).
pub fn export_markdown(
    layout: &MemoryLayout,
    analysis: &AnalysisResult,
    symbols: &[Symbol],
    elf_path: &str,
    timestamp: &str,
) -> (r: String)
    requires
        top_symbols_fit(symbols_view(symbols@)),
    ensures
        r@ == markdown_text(
            *layout,
            *analysis,
            symbols_view(symbols@),
            path_file_name(elf_path@),
            timestamp@,
        ),
{
    let name = file_name_of(elf_path);
    render_markdown(layout, analysis, symbols, name.as_str(), timestamp)
}

} // verus!
