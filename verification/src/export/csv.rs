//! CSV export for spreadsheets: symbols, sections and analysis findings.
use vstd::prelude::*;

use crate::models::{
    AnalysisResult, MemoryGap, MemoryLayout, MemoryOverlap, MemorySection, Symbol, binding_name,
    gap_region_name, section_type_name, symbol_type_name, visibility_name,
};
use crate::text::{dec, dec_u64, hex8, hex8_u64, push_chars, push_str, string_of};
use crate::utils::{format_size_human, is_flash, is_flash_section, is_ram, is_ram_section, size_human};

verus! {

/// The rows `f` gives for each element, one after the other.
pub open spec fn concat_rows<T>(s: Seq<T>, f: spec_fn(T) -> Seq<char>) -> Seq<char>
    decreases s.len(),
{
    if s.len() == 0 {
        Seq::empty()
    } else {
        concat_rows(s.drop_last(), f) + f(s.last())
    }
}

/// `s` with every double quote doubled.
pub open spec fn escape_csv_of(s: Seq<char>) -> Seq<char>
    decreases s.len(),
{
    if s.len() == 0 {
        Seq::empty()
    } else {
        escape_csv_of(s.drop_last()) + if s.last() == '"' {
            seq!['"', '"']
        } else {
            seq![s.last()]
        }
    }
}

/// Escape CSV values: double the quotes.
pub fn escape_csv(s: &str) -> (r: String)
    ensures
        r@ == escape_csv_of(s@),
{
    let c = crate::text::chars_of(s);
    let mut v: Vec<char> = Vec::new();
    let mut i: usize = 0;
    while i < c.len()
        invariant
            i <= c@.len(),
            c@ == s@,
            v@ == escape_csv_of(c@.take(i as int)),
        decreases c.len() - i,
    {
        assert(c@.take(i + 1).drop_last() =~= c@.take(i as int));
        if c[i] == '"' {
            v.push('"');
            v.push('"');
        } else {
            v.push(c[i]);
        }
        i = i + 1;
        assert(v@ =~= escape_csv_of(c@.take(i as int)));
    }
    assert(c@.take(c@.len() as int) =~= c@);
    string_of(v.as_slice())
}

pub open spec fn symbols_header() -> Seq<char> {
    "Name,Address,Size,SizeHuman,Type,Binding,Visibility,SectionIndex,SourceFile\n"@
}

/// The CSV row of a symbol.
pub open spec fn symbol_row(s: Symbol) -> Seq<char> {
    let source = match s.source_file {
        Some(f) => f@,
        None => Seq::empty(),
    };
    "\""@ + escape_csv_of(s.name@) + "\","@ + hex8(s.address as nat) + ","@ + dec(s.size as nat)
        + ","@ + size_human(s.size as nat) + ","@ + symbol_type_name(s.symbol_type) + ","@
        + binding_name(s.binding) + ","@ + visibility_name(s.visibility) + ","@ + dec(
        s.section_index as nat,
    ) + ",\""@ + escape_csv_of(source) + "\"\n"@
}

pub open spec fn symbol_row_fn() -> spec_fn(Symbol) -> Seq<char> {
    |s: Symbol| symbol_row(s)
}

fn push_symbol_row(v: &mut Vec<char>, s: &Symbol)
    ensures
        final(v)@ == old(v)@ + symbol_row(*s),
{
    push_str(v, "\"");
    push_str(v, escape_csv(s.name.as_str()).as_str());
    push_str(v, "\",");
    push_chars(v, hex8_u64(s.address).as_slice());
    push_str(v, ",");
    push_chars(v, dec_u64(s.size).as_slice());
    push_str(v, ",");
    push_str(v, format_size_human(s.size).as_str());
    push_str(v, ",");
    push_str(v, s.symbol_type.name());
    push_str(v, ",");
    push_str(v, s.binding.name());
    push_str(v, ",");
    push_str(v, s.visibility.name());
    push_str(v, ",");
    push_chars(v, dec_u64(s.section_index as u64).as_slice());
    push_str(v, ",\"");
    match &s.source_file {
        Some(f) => push_str(v, escape_csv(f.as_str()).as_str()),
        None => {
            assert(escape_csv_of(Seq::<char>::empty()) =~= Seq::<char>::empty());
        },
    }
    push_str(v, "\"\n");
    assert(final(v)@ =~= old(v)@ + symbol_row(*s));
}

/// Export symbols as CSV with all metadata, one row per symbol in order.
pub fn export_symbols_csv(symbols: &[Symbol]) -> (r: String)
    ensures
        r@ == symbols_header() + concat_rows(symbols@, symbol_row_fn()),
{
    let mut v: Vec<char> = Vec::new();
    push_str(&mut v, "Name,Address,Size,SizeHuman,Type,Binding,Visibility,SectionIndex,SourceFile\n");
    let ghost head = v@;
    let mut i: usize = 0;
    while i < symbols.len()
        invariant
            i <= symbols@.len(),
            head == symbols_header(),
            v@ == head + concat_rows(symbols@.take(i as int), symbol_row_fn()),
        decreases symbols.len() - i,
    {
        assert(symbols@.take(i + 1).drop_last() =~= symbols@.take(i as int));
        push_symbol_row(&mut v, &symbols[i]);
        i = i + 1;
        assert(v@ =~= head + concat_rows(symbols@.take(i as int), symbol_row_fn()));
    }
    assert(symbols@.take(symbols@.len() as int) =~= symbols@);
    string_of(v.as_slice())
}

pub open spec fn sections_header() -> Seq<char> {
    "Section,Address,Size,SizeHuman,Type,Region\n"@
}

/// "Flash", "RAM" or "Unknown".
pub open spec fn region_label(s: MemorySection) -> Seq<char> {
    if is_flash(s) {
        "Flash"@
    } else if is_ram(s) {
        "RAM"@
    } else {
        "Unknown"@
    }
}

/// The CSV row of a section.
pub open spec fn section_row(s: MemorySection) -> Seq<char> {
    "\""@ + escape_csv_of(s.name@) + "\","@ + hex8(s.address as nat) + ","@ + dec(s.size as nat)
        + ","@ + size_human(s.size as nat) + ","@ + section_type_name(s.section_type) + ","@
        + region_label(s) + "\n"@
}

pub open spec fn section_row_fn() -> spec_fn(MemorySection) -> Seq<char> {
    |s: MemorySection| section_row(s)
}

fn push_section_row(v: &mut Vec<char>, s: &MemorySection)
    ensures
        final(v)@ == old(v)@ + section_row(*s),
{
    push_str(v, "\"");
    push_str(v, escape_csv(s.name.as_str()).as_str());
    push_str(v, "\",");
    push_chars(v, hex8_u64(s.address).as_slice());
    push_str(v, ",");
    push_chars(v, dec_u64(s.size).as_slice());
    push_str(v, ",");
    push_str(v, format_size_human(s.size).as_str());
    push_str(v, ",");
    push_chars(v, s.section_type.debug_name().as_slice());
    push_str(v, ",");
    if is_flash_section(s) {
        push_str(v, "Flash");
    } else if is_ram_section(s) {
        push_str(v, "RAM");
    } else {
        push_str(v, "Unknown");
    }
    push_str(v, "\n");
    assert(final(v)@ =~= old(v)@ + section_row(*s));
}

/// Export sections summary as CSV (Flash/RAM classification).
pub fn export_sections_csv(layout: &MemoryLayout) -> (r: String)
    ensures
        r@ == sections_header() + concat_rows(layout.sections@, section_row_fn()),
{
    let mut v: Vec<char> = Vec::new();
    push_str(&mut v, "Section,Address,Size,SizeHuman,Type,Region\n");
    let ghost head = v@;
    let ghost s = layout.sections@;
    let mut i: usize = 0;
    while i < layout.sections.len()
        invariant
            i <= s.len(),
            s == layout.sections@,
            head == sections_header(),
            v@ == head + concat_rows(s.take(i as int), section_row_fn()),
        decreases s.len() - i,
    {
        assert(s.take(i + 1).drop_last() =~= s.take(i as int));
        push_section_row(&mut v, &layout.sections[i]);
        i = i + 1;
        assert(v@ =~= head + concat_rows(s.take(i as int), section_row_fn()));
    }
    assert(s.take(s.len() as int) =~= s);
    string_of(v.as_slice())
}

pub open spec fn analysis_header() -> Seq<char> {
    "Type,Region,Start,End,Size,SizeHuman,Details\n"@
}

pub open spec fn gap_row(g: MemoryGap) -> Seq<char> {
    "Gap,"@ + gap_region_name(g.region_type) + ","@ + hex8(g.start as nat) + ","@ + hex8(g.end as nat)
        + ","@ + dec(g.size as nat) + ","@ + size_human(g.size as nat) + ",\"\"\n"@
}

pub open spec fn gap_row_fn() -> spec_fn(MemoryGap) -> Seq<char> {
    |g: MemoryGap| gap_row(g)
}

pub open spec fn overlap_row(o: MemoryOverlap) -> Seq<char> {
    "Overlap,Both,"@ + hex8(o.overlap_start as nat) + ","@ + hex8(o.overlap_end as nat) + ","@ + dec(
        o.overlap_size as nat,
    ) + ","@ + size_human(o.overlap_size as nat) + ",\""@ + escape_csv_of(o.section1@) + " ↔ "@
        + escape_csv_of(o.section2@) + "\"\n"@
}

pub open spec fn overlap_row_fn() -> spec_fn(MemoryOverlap) -> Seq<char> {
    |o: MemoryOverlap| overlap_row(o)
}

/// The padding and stack/heap rows, when there is something to report.
pub open spec fn analysis_tail(a: AnalysisResult) -> Seq<char> {
    (if a.total_padding > 0 {
        "Padding,Both,,,"@ + dec(a.total_padding as nat) + ","@ + size_human(a.total_padding as nat)
            + ",\"Alignment waste\"\n"@
    } else {
        Seq::empty()
    }) + match a.stack_heap_gap {
        Some(g) => "StackHeapGap,RAM,,,"@ + dec(g as nat) + ","@ + size_human(g as nat)
            + ",\"Gap between stack and heap\"\n"@,
        None => Seq::empty(),
    }
}

fn push_gap_row(v: &mut Vec<char>, g: &MemoryGap)
    ensures
        final(v)@ == old(v)@ + gap_row(*g),
{
    push_str(v, "Gap,");
    push_str(v, g.region_type.name());
    push_str(v, ",");
    push_chars(v, hex8_u64(g.start).as_slice());
    push_str(v, ",");
    push_chars(v, hex8_u64(g.end).as_slice());
    push_str(v, ",");
    push_chars(v, dec_u64(g.size).as_slice());
    push_str(v, ",");
    push_str(v, format_size_human(g.size).as_str());
    push_str(v, ",\"\"\n");
    assert(final(v)@ =~= old(v)@ + gap_row(*g));
}

fn push_overlap_row(v: &mut Vec<char>, o: &MemoryOverlap)
    ensures
        final(v)@ == old(v)@ + overlap_row(*o),
{
    push_str(v, "Overlap,Both,");
    push_chars(v, hex8_u64(o.overlap_start).as_slice());
    push_str(v, ",");
    push_chars(v, hex8_u64(o.overlap_end).as_slice());
    push_str(v, ",");
    push_chars(v, dec_u64(o.overlap_size).as_slice());
    push_str(v, ",");
    push_str(v, format_size_human(o.overlap_size).as_str());
    push_str(v, ",\"");
    push_str(v, escape_csv(o.section1.as_str()).as_str());
    push_str(v, " ↔ ");
    push_str(v, escape_csv(o.section2.as_str()).as_str());
    push_str(v, "\"\n");
    assert(final(v)@ =~= old(v)@ + overlap_row(*o));
}

/// Export memory analysis (gaps, overlaps, padding, stack/heap gap) as CSV.
pub fn export_analysis_csv(analysis: &AnalysisResult) -> (r: String)
    ensures
        r@ == analysis_header() + concat_rows(analysis.gaps@, gap_row_fn()) + concat_rows(
            analysis.overlaps@,
            overlap_row_fn(),
        ) + analysis_tail(*analysis),
{
    let mut v: Vec<char> = Vec::new();
    push_str(&mut v, "Type,Region,Start,End,Size,SizeHuman,Details\n");
    let ghost head = v@;
    let ghost gs = analysis.gaps@;
    let mut i: usize = 0;
    while i < analysis.gaps.len()
        invariant
            i <= gs.len(),
            gs == analysis.gaps@,
            head == analysis_header(),
            v@ == head + concat_rows(gs.take(i as int), gap_row_fn()),
        decreases gs.len() - i,
    {
        assert(gs.take(i + 1).drop_last() =~= gs.take(i as int));
        push_gap_row(&mut v, &analysis.gaps[i]);
        i = i + 1;
        assert(v@ =~= head + concat_rows(gs.take(i as int), gap_row_fn()));
    }
    assert(gs.take(gs.len() as int) =~= gs);
    let ghost mid = v@;
    let ghost os = analysis.overlaps@;
    let mut i: usize = 0;
    while i < analysis.overlaps.len()
        invariant
            i <= os.len(),
            os == analysis.overlaps@,
            v@ == mid + concat_rows(os.take(i as int), overlap_row_fn()),
        decreases os.len() - i,
    {
        assert(os.take(i + 1).drop_last() =~= os.take(i as int));
        push_overlap_row(&mut v, &analysis.overlaps[i]);
        i = i + 1;
        assert(v@ =~= mid + concat_rows(os.take(i as int), overlap_row_fn()));
    }
    assert(os.take(os.len() as int) =~= os);
    let ghost body = v@;
    if analysis.total_padding > 0 {
        push_str(&mut v, "Padding,Both,,,");
        push_chars(&mut v, dec_u64(analysis.total_padding).as_slice());
        push_str(&mut v, ",");
        push_str(&mut v, format_size_human(analysis.total_padding).as_str());
        push_str(&mut v, ",\"Alignment waste\"\n");
    }
    let ghost padded = v@;
    if let Some(gap) = analysis.stack_heap_gap {
        push_str(&mut v, "StackHeapGap,RAM,,,");
        push_chars(&mut v, dec_u64(gap).as_slice());
        push_str(&mut v, ",");
        push_str(&mut v, format_size_human(gap).as_str());
        push_str(&mut v, ",\"Gap between stack and heap\"\n");
    }
    assert(v@ =~= body + analysis_tail(*analysis));
    string_of(v.as_slice())
}

} // verus!
