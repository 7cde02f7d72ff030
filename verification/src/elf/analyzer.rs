//! Memory layout analyzer: gaps, overlaps, alignment padding, stack/heap
//! distance and usage warnings.
use vstd::prelude::*;

use crate::models::{
    AnalysisResult, GapRegionType, MemoryGap, MemoryLayout, MemoryOverlap, MemorySection,
    SectionType, section_end, sections_fit,
};
use crate::sort::{insert_by, lemma_insert_by_at, sort_by};
use crate::text::{contains, dec, dec_u64, push_chars, push_str, str_contains, string_of};
use crate::utils::{is_flash, is_flash_section, is_ram, is_ram_section, percent1, percent1_exec};

verus! {

/// (address, size) of a section.
pub type Span = (u64, u64);

pub open spec fn span_key() -> spec_fn(Span) -> int {
    |p: Span| p.0 as int
}

pub open spec fn span_fits(p: Span) -> bool {
    p.0 + p.1 <= u64::MAX
}

/// (address, size) of the Flash sections (`flash`) or RAM sections (`!flash`), in layout order.
pub open spec fn region_spans(s: Seq<MemorySection>, flash: bool) -> Seq<Span>
    decreases s.len(),
{
    if s.len() == 0 {
        Seq::empty()
    } else {
        let rest = region_spans(s.drop_last(), flash);
        let l = s.last();
        if (if flash {
            is_flash(l)
        } else {
            is_ram(l)
        }) {
            rest.push((l.address, l.size))
        } else {
            rest
        }
    }
}

/// The Flash or RAM sections' spans sorted by address (stable).
pub open spec fn sorted_spans(s: Seq<MemorySection>, flash: bool) -> Seq<Span> {
    sort_by(region_spans(s, flash), span_key())
}

/// Distance from the end of span `a` to the start of span `b` (negative when they overlap).
pub open spec fn spacing(a: Span, b: Span) -> int {
    b.0 - (a.0 + a.1)
}

/// Gaps of more than 16 bytes between consecutive spans of `p`.
pub open spec fn gaps_of(p: Seq<Span>, t: GapRegionType) -> Seq<MemoryGap>
    decreases p.len(),
{
    if p.len() < 2 {
        Seq::empty()
    } else {
        let rest = gaps_of(p.drop_last(), t);
        let a = p[p.len() - 2];
        let b = p.last();
        let d = spacing(a, b);
        if d > 16 {
            rest.push(
                MemoryGap {
                    start: (a.0 + a.1) as u64,
                    end: b.0,
                    size: d as u64,
                    region_type: t,
                },
            )
        } else {
            rest
        }
    }
}

/// Sum of the positive spacings of at most 16 bytes between consecutive spans of `p`.
pub open spec fn padding_of(p: Seq<Span>) -> int
    decreases p.len(),
{
    if p.len() < 2 {
        0
    } else {
        let d = spacing(p[p.len() - 2], p.last());
        padding_of(p.drop_last()) + if 0 < d && d <= 16 {
            d
        } else {
            0
        }
    }
}

/// Sum of all positive spacings between consecutive spans of `p`.
pub open spec fn free_space_of(p: Seq<Span>) -> int
    decreases p.len(),
{
    if p.len() < 2 {
        0
    } else {
        let d = spacing(p[p.len() - 2], p.last());
        free_space_of(p.drop_last()) + if d > 0 {
            d
        } else {
            0
        }
    }
}

pub open spec fn gap_sizes(g: Seq<MemoryGap>) -> int
    decreases g.len(),
{
    if g.len() == 0 {
        0
    } else {
        gap_sizes(g.drop_last()) + g.last().size
    }
}

/// All gaps of a layout: the Flash gaps, then the RAM gaps.
pub open spec fn layout_gaps(s: Seq<MemorySection>) -> Seq<MemoryGap> {
    gaps_of(sorted_spans(s, true), GapRegionType::Flash) + gaps_of(
        sorted_spans(s, false),
        GapRegionType::Ram,
    )
}

/// Total alignment padding of a layout (Flash and RAM).
pub open spec fn layout_padding(s: Seq<MemorySection>) -> int {
    padding_of(sorted_spans(s, true)) + padding_of(sorted_spans(s, false))
}

/// An overlap as plain values: (first name, second name, start, end, size).
pub type OverlapView = (Seq<char>, Seq<char>, int, int, int);

pub open spec fn overlap_view(o: MemoryOverlap) -> OverlapView {
    (o.section1@, o.section2@, o.overlap_start as int, o.overlap_end as int, o.overlap_size as int)
}

/// The overlap of sections `a` and `b`, when their address ranges intersect.
pub open spec fn pair_overlap(a: MemorySection, b: MemorySection) -> Seq<OverlapView> {
    let start = if a.address >= b.address {
        a.address as int
    } else {
        b.address as int
    };
    let end = if section_end(a) <= section_end(b) {
        section_end(a)
    } else {
        section_end(b)
    };
    if start < end {
        seq![(a.name@, b.name@, start, end, end - start)]
    } else {
        Seq::empty()
    }
}

/// Overlaps of section `i` with sections `i+1 .. j`.
pub open spec fn overlap_row(s: Seq<MemorySection>, i: int, j: int) -> Seq<OverlapView>
    decreases j - i,
{
    if j <= i + 1 {
        Seq::empty()
    } else {
        overlap_row(s, i, j - 1) + pair_overlap(s[i], s[j - 1])
    }
}

/// Overlaps of every pair `(i, j)` with `i < j` and `i < n`, in order of `i` then `j`.
pub open spec fn overlap_rows(s: Seq<MemorySection>, n: int) -> Seq<OverlapView>
    decreases n,
{
    if n <= 0 {
        Seq::empty()
    } else {
        overlap_rows(s, n - 1) + overlap_row(s, n - 1, s.len() as int)
    }
}

/// All overlaps of a layout.
pub open spec fn layout_overlaps(s: Seq<MemorySection>) -> Seq<OverlapView> {
    overlap_rows(s, s.len() as int)
}

/// Index of the first section satisfying the stack (`stack`) or heap (`!stack`) test.
pub open spec fn first_special(s: Seq<MemorySection>, stack: bool, from: int) -> Option<int>
    decreases s.len() - from,
{
    if from < 0 || from >= s.len() {
        None
    } else if (if stack {
        is_stack(s[from])
    } else {
        is_heap(s[from])
    }) {
        Some(from)
    } else {
        first_special(s, stack, from + 1)
    }
}

pub open spec fn is_stack(s: MemorySection) -> bool {
    s.section_type is Stack || contains(s.name@, "stack"@)
}

pub open spec fn is_heap(s: MemorySection) -> bool {
    s.section_type is Heap || contains(s.name@, "heap"@)
}

/// Distance between the first stack and the first heap section (0 when they
/// touch or overlap), if both exist.
pub open spec fn stack_heap_distance(s: Seq<MemorySection>) -> Option<u64> {
    match (first_special(s, true, 0), first_special(s, false, 0)) {
        (Some(si), Some(hi)) => {
            let st = s[si];
            let hp = s[hi];
            if st.address > section_end(hp) {
                Some((st.address - section_end(hp)) as u64)
            } else if hp.address > section_end(st) {
                Some((hp.address - section_end(st)) as u64)
            } else {
                Some(0)
            }
        },
        _ => None,
    }
}

/// The usage warning for one memory kind ("Flash" or "RAM") given the used and
/// total sizes. The percentage is compared exactly (used / total * 100 against
/// 95 and 85); a zero total with some use reads as an infinite percentage.
pub open spec fn usage_warning(kind: Seq<char>, used: nat, total: nat) -> Seq<Seq<char>> {
    if total == 0 {
        if used > 0 {
            seq!["⚠ "@ + kind + " usage is inf% - very little space remaining!"@]
        } else {
            Seq::empty()
        }
    } else if used * 100 > 95 * total {
        seq!["⚠ "@ + kind + " usage is "@ + percent1(used, total) + "% - very little space remaining!"@]
    } else if used * 100 > 85 * total {
        seq!["⚠ "@ + kind + " usage is "@ + percent1(used, total) + "% - consider optimization"@]
    } else {
        Seq::empty()
    }
}

/// Warnings for a layout given the number of overlaps and the stack/heap distance.
pub open spec fn warnings_for(
    layout: MemoryLayout,
    n_overlaps: nat,
    stack_heap: Option<u64>,
) -> Seq<Seq<char>> {
    let w1 = if n_overlaps > 0 {
        seq!["⚠ Found "@ + dec(n_overlaps) + " memory overlaps - this will cause runtime issues!"@]
    } else {
        Seq::empty()
    };
    let w2 = match stack_heap {
        Some(gap) => if gap == 0 {
            seq!["⚠ CRITICAL: Stack and heap overlap!"@]
        } else if gap < 1024 {
            seq![
                "⚠ WARNING: Only "@ + dec(gap as nat)
                    + " bytes between stack and heap - collision risk!"@,
            ]
        } else if gap < 4096 {
            seq![
                "⚠ Stack/heap gap is "@ + dec(gap as nat)
                    + " bytes - monitor for potential collision"@,
            ]
        } else {
            Seq::empty()
        },
        None => Seq::empty(),
    };
    let w3 = match layout.flash_size {
        Some(t) => usage_warning("Flash"@, layout.total_flash_used as nat, t as nat),
        None => Seq::empty(),
    };
    let w4 = match layout.ram_size {
        Some(t) => usage_warning("RAM"@, layout.total_ram_used as nat, t as nat),
        None => Seq::empty(),
    };
    w1 + w2 + w3 + w4
}

/// Layouts the analyzer accepts: every section ends within the 64-bit address
/// space, and there are fewer than 2^59 sections (no allocation can hold more).
pub open spec fn analyzable(s: Seq<MemorySection>) -> bool {
    sections_fit(s) && s.len() < 0x0800_0000_0000_0000
}

pub open spec fn strings_view(v: Seq<String>) -> Seq<Seq<char>> {
    v.map_values(|s: String| s@)
}

/// Analyzer for memory layout issues and optimization opportunities.
///
/// Detects gaps, overlaps, padding waste, and stack/heap collisions.
pub struct MemoryAnalyzer;

impl MemoryAnalyzer {
    /// Create a new memory analyzer.
    pub fn new() -> (r: Self) {
        MemoryAnalyzer
    }

    /// Whether `analyze` can take this layout: every section ends within 64
    /// bits (and there are fewer than 2^59 sections).
    pub fn can_analyze(&self, layout: &MemoryLayout) -> (r: bool)
        ensures
            r == analyzable(layout.sections@),
    {
        let ghost s = layout.sections@;
        if layout.sections.len() as u64 >= 0x0800_0000_0000_0000 {
            return false;
        }
        let mut i: usize = 0;
        while i < layout.sections.len()
            invariant
                i <= s.len(),
                s == layout.sections@,
                forall|k: int| 0 <= k < i ==> section_end(#[trigger] s[k]) <= u64::MAX,
            decreases s.len() - i,
        {
            let section = &layout.sections[i];
            if section.address > u64::MAX - section.size {
                assert(section_end(s[i as int]) > u64::MAX);
                return false;
            }
            i = i + 1;
        }
        true
    }

    /// Analyze a memory layout for potential issues: gaps between consecutive
    /// Flash (then RAM) sections larger than 16 bytes, overlapping section
    /// pairs, alignment padding (gaps of 1..16 bytes), the stack/heap distance
    /// and warnings.
    pub fn analyze(&self, layout: &MemoryLayout) -> (r: AnalysisResult)
        requires
            analyzable(layout.sections@),
        ensures
            r.gaps@ == layout_gaps(layout.sections@),
            r.overlaps@.map_values(|o: MemoryOverlap| overlap_view(o)) == layout_overlaps(
                layout.sections@,
            ),
            r.total_padding == layout_padding(layout.sections@),
            r.stack_heap_gap == stack_heap_distance(layout.sections@),
            strings_view(r.warnings@) == warnings_for(
                *layout,
                r.overlaps@.len(),
                r.stack_heap_gap,
            ),
    {
        let gaps = self.detect_gaps(layout);
        let overlaps = self.detect_overlaps(layout);
        let total_padding = self.calculate_padding(layout);
        let stack_heap_gap = self.check_stack_heap_collision(layout);
        let warnings = self.generate_warnings(layout, overlaps.len(), stack_heap_gap);
        AnalysisResult { gaps, overlaps, total_padding, stack_heap_gap, warnings }
    }

    /// Spans of the Flash (`flash`) or RAM (`!flash`) sections sorted by address.
    fn sorted_region_spans(layout: &MemoryLayout, flash: bool) -> (r: Vec<Span>)
        requires
            sections_fit(layout.sections@),
        ensures
            r@ == sorted_spans(layout.sections@, flash),
            forall|k: int| 0 <= k < r@.len() ==> span_fits(#[trigger] r@[k]),
    {
        let ghost s = layout.sections@;
        let mut spans: Vec<Span> = Vec::new();
        let mut i: usize = 0;
        while i < layout.sections.len()
            invariant
                i <= s.len(),
                s == layout.sections@,
                sections_fit(s),
                spans@ == sort_by(region_spans(s.take(i as int), flash), span_key()),
                forall|k: int| 0 <= k < spans@.len() ==> span_fits(#[trigger] spans@[k]),
            decreases s.len() - i,
        {
            let section = &layout.sections[i];
            proof {
                assert(s.take(i + 1).drop_last() =~= s.take(i as int));
                assert(s.take(i + 1).last() == s[i as int]);
                assert(section_end(s[i as int]) <= u64::MAX);
            }
            let keep = if flash {
                is_flash_section(section)
            } else {
                is_ram_section(section)
            };
            let ghost old_rs = region_spans(s.take(i as int), flash);
            if keep {
                insert_span(&mut spans, (section.address, section.size));
                proof {
                    let r_new = region_spans(s.take(i + 1), flash);
                    assert(r_new == old_rs.push((section.address, section.size)));
                    assert(r_new.drop_last() =~= old_rs);
                }
            } else {
                assert(region_spans(s.take(i + 1), flash) == old_rs);
            }
            i = i + 1;
        }
        assert(s.take(s.len() as int) =~= s);
        spans
    }

    fn gaps_in(spans: &Vec<Span>, t: GapRegionType, out: &mut Vec<MemoryGap>)
        requires
            forall|k: int| 0 <= k < spans@.len() ==> span_fits(#[trigger] spans@[k]),
        ensures
            final(out)@ == old(out)@ + gaps_of(spans@, t),
    {
        let ghost start = out@;
        let ghost p = spans@;
        if spans.len() < 2 {
            assert(out@ =~= start + gaps_of(p, t));
            return;
        }
        let mut i: usize = 0;
        assert(gaps_of(p.take(1), t) =~= Seq::<MemoryGap>::empty());
        assert(out@ =~= start + gaps_of(p.take(1), t));
        while i + 1 < spans.len()
            invariant
                i + 1 <= spans.len(),
                p == spans@,
                forall|k: int| 0 <= k < p.len() ==> span_fits(#[trigger] p[k]),
                out@ == start + gaps_of(p.take(i + 1), t),
            decreases spans.len() - i,
        {
            let a = spans[i];
            let b = spans[i + 1];
            assert(span_fits(p[i as int]));
            let current_end = a.0 + a.1;
            let next_start = b.0;
            proof {
                let q = p.take(i + 2);
                assert(q.drop_last() =~= p.take(i + 1));
                assert(q[q.len() - 2] == a);
                assert(q.last() == b);
            }
            if next_start > current_end {
                let gap_size = next_start - current_end;
                if gap_size > 16 {
                    out.push(
                        MemoryGap {
                            start: current_end,
                            end: next_start,
                            size: gap_size,
                            region_type: t,
                        },
                    );
                }
            }
            i = i + 1;
            assert(out@ =~= start + gaps_of(p.take(i + 1), t));
        }
        assert(p.take(i + 1) =~= p);
    }

    fn detect_gaps(&self, layout: &MemoryLayout) -> (r: Vec<MemoryGap>)
        requires
            sections_fit(layout.sections@),
        ensures
            r@ == layout_gaps(layout.sections@),
    {
        let mut gaps: Vec<MemoryGap> = Vec::new();
        let flash = Self::sorted_region_spans(layout, true);
        let ram = Self::sorted_region_spans(layout, false);
        Self::gaps_in(&flash, GapRegionType::Flash, &mut gaps);
        Self::gaps_in(&ram, GapRegionType::Ram, &mut gaps);
        assert(gaps@ =~= layout_gaps(layout.sections@));
        gaps
    }

    fn padding_in(spans: &Vec<Span>) -> (r: u64)
        requires
            forall|k: int| 0 <= k < spans@.len() ==> span_fits(#[trigger] spans@[k]),
            spans@.len() < 0x0800_0000_0000_0000,
        ensures
            r == padding_of(spans@),
            r <= 16 * spans@.len(),
    {
        let ghost p = spans@;
        if spans.len() < 2 {
            return 0;
        }
        let mut total: u64 = 0;
        let mut i: usize = 0;
        while i + 1 < spans.len()
            invariant
                i + 1 <= spans.len(),
                p == spans@,
                forall|k: int| 0 <= k < p.len() ==> span_fits(#[trigger] p[k]),
                total == padding_of(p.take(i + 1)),
                total <= 16 * i,
                p.len() < 0x0800_0000_0000_0000,
            decreases spans.len() - i,
        {
            let a = spans[i];
            let b = spans[i + 1];
            assert(span_fits(p[i as int]));
            let current_end = a.0 + a.1;
            let next_start = b.0;
            proof {
                let q = p.take(i + 2);
                assert(q.drop_last() =~= p.take(i + 1));
                assert(q[q.len() - 2] == a);
                assert(q.last() == b);
            }
            if next_start > current_end {
                let gap = next_start - current_end;
                if gap <= 16 {
                    total = total + gap;
                }
            }
            i = i + 1;
        }
        assert(p.take(i + 1) =~= p);
        total
    }

    fn calculate_padding(&self, layout: &MemoryLayout) -> (r: u64)
        requires
            analyzable(layout.sections@),
        ensures
            r == layout_padding(layout.sections@),
    {
        let flash = Self::sorted_region_spans(layout, true);
        let ram = Self::sorted_region_spans(layout, false);
        proof {
            lemma_region_spans_len(layout.sections@, true);
            lemma_region_spans_len(layout.sections@, false);
            crate::sort::lemma_sort_by_sorted(region_spans(layout.sections@, true), span_key());
            crate::sort::lemma_sort_by_sorted(region_spans(layout.sections@, false), span_key());
        }
        let a = Self::padding_in(&flash);
        let b = Self::padding_in(&ram);
        a + b
    }

    fn detect_overlaps(&self, layout: &MemoryLayout) -> (r: Vec<MemoryOverlap>)
        requires
            sections_fit(layout.sections@),
        ensures
            r@.map_values(|o: MemoryOverlap| overlap_view(o)) == layout_overlaps(
                layout.sections@,
            ),
    {
        let ghost s = layout.sections@;
        let n = layout.sections.len();
        let mut overlaps: Vec<MemoryOverlap> = Vec::new();
        let mut i: usize = 0;
        while i < n
            invariant
                i <= n == s.len(),
                s == layout.sections@,
                sections_fit(s),
                overlaps@.map_values(|o: MemoryOverlap| overlap_view(o)) == overlap_rows(
                    s,
                    i as int,
                ),
            decreases n - i,
        {
            let mut j: usize = i + 1;
            assert(overlap_row(s, i as int, j as int) =~= Seq::<OverlapView>::empty());
            assert(overlaps@.map_values(|o: MemoryOverlap| overlap_view(o)) =~= overlap_rows(
                s,
                i as int,
            ) + overlap_row(s, i as int, j as int));
            while j < n
                invariant
                    i < n == s.len(),
                    i + 1 <= j <= n,
                    s == layout.sections@,
                    sections_fit(s),
                    overlaps@.map_values(|o: MemoryOverlap| overlap_view(o)) == overlap_rows(
                        s,
                        i as int,
                    ) + overlap_row(s, i as int, j as int),
                decreases n - j,
            {
                let s1 = &layout.sections[i];
                let s2 = &layout.sections[j];
                assert(section_end(s[i as int]) <= u64::MAX);
                assert(section_end(s[j as int]) <= u64::MAX);
                let s1_end = s1.address + s1.size;
                let s2_end = s2.address + s2.size;
                let overlap_start = if s1.address >= s2.address {
                    s1.address
                } else {
                    s2.address
                };
                let overlap_end = if s1_end <= s2_end {
                    s1_end
                } else {
                    s2_end
                };
                let ghost before = overlaps@.map_values(|o: MemoryOverlap| overlap_view(o));
                if overlap_start < overlap_end {
                    overlaps.push(
                        MemoryOverlap {
                            section1: s1.name.clone(),
                            section2: s2.name.clone(),
                            overlap_start,
                            overlap_end,
                            overlap_size: overlap_end - overlap_start,
                        },
                    );
                }
                proof {
                    let after = overlaps@.map_values(|o: MemoryOverlap| overlap_view(o));
                    assert(after =~= before + pair_overlap(s[i as int], s[j as int]));
                }
                j = j + 1;
            }
            i = i + 1;
        }
        overlaps
    }

    /// Index of the first stack (`stack`) or heap (`!stack`) section.
    fn find_special(layout: &MemoryLayout, stack: bool) -> (r: Option<usize>)
        ensures
            r matches Some(k) ==> first_special(layout.sections@, stack, 0) == Some(k as int) && k
                < layout.sections@.len(),
            r is None ==> first_special(layout.sections@, stack, 0) is None,
    {
        let ghost s = layout.sections@;
        let mut i: usize = 0;
        while i < layout.sections.len()
            invariant
                i <= s.len(),
                s == layout.sections@,
                first_special(s, stack, 0) == first_special(s, stack, i as int),
            decreases s.len() - i,
        {
            let sec = &layout.sections[i];
            let hit = if stack {
                (match sec.section_type {
                    SectionType::Stack => true,
                    _ => false,
                }) || str_contains(sec.name.as_str(), "stack")
            } else {
                (match sec.section_type {
                    SectionType::Heap => true,
                    _ => false,
                }) || str_contains(sec.name.as_str(), "heap")
            };
            if hit {
                return Some(i);
            }
            i = i + 1;
        }
        None
    }

    fn check_stack_heap_collision(&self, layout: &MemoryLayout) -> (r: Option<u64>)
        requires
            sections_fit(layout.sections@),
        ensures
            r == stack_heap_distance(layout.sections@),
    {
        let stack_section = Self::find_special(layout, true);
        let heap_section = Self::find_special(layout, false);
        match (stack_section, heap_section) {
            (Some(si), Some(hi)) => {
                let stack = &layout.sections[si];
                let heap = &layout.sections[hi];
                assert(section_end(layout.sections@[si as int]) <= u64::MAX);
                assert(section_end(layout.sections@[hi as int]) <= u64::MAX);
                let stack_start = stack.address;
                let stack_end = stack.address + stack.size;
                let heap_start = heap.address;
                let heap_end = heap.address + heap.size;
                if stack_start > heap_end {
                    Some(stack_start - heap_end)
                } else if heap_start > stack_end {
                    Some(heap_start - stack_end)
                } else {
                    Some(0)
                }
            },
            _ => None,
        }
    }

    fn usage_warning_exec(kind: &str, used: u64, total: u64, out: &mut Vec<String>)
        ensures
            strings_view(final(out)@) == strings_view(old(out)@) + usage_warning(
                kind@,
                used as nat,
                total as nat,
            ),
    {
        let ghost before = strings_view(out@);
        let mut w: Vec<char> = Vec::new();
        if total == 0 {
            if used > 0 {
                push_str(&mut w, "⚠ ");
                push_str(&mut w, kind);
                push_str(&mut w, " usage is inf% - very little space remaining!");
                out.push(string_of(w.as_slice()));
            }
        } else if used as u128 * 100 > 95 * total as u128 {
            push_str(&mut w, "⚠ ");
            push_str(&mut w, kind);
            push_str(&mut w, " usage is ");
            let p = percent1_exec(used, total);
            push_chars(&mut w, p.as_slice());
            push_str(&mut w, "% - very little space remaining!");
            out.push(string_of(w.as_slice()));
        } else if used as u128 * 100 > 85 * total as u128 {
            push_str(&mut w, "⚠ ");
            push_str(&mut w, kind);
            push_str(&mut w, " usage is ");
            let p = percent1_exec(used, total);
            push_chars(&mut w, p.as_slice());
            push_str(&mut w, "% - consider optimization");
            out.push(string_of(w.as_slice()));
        }
        proof {
            assert(strings_view(out@) =~= before + usage_warning(kind@, used as nat, total as nat));
        }
    }

    fn generate_warnings(
        &self,
        layout: &MemoryLayout,
        n_overlaps: usize,
        stack_heap_gap: Option<u64>,
    ) -> (r: Vec<String>)
        ensures
            strings_view(r@) == warnings_for(*layout, n_overlaps as nat, stack_heap_gap),
    {
        let mut warnings: Vec<String> = Vec::new();
        if n_overlaps > 0 {
            let mut w: Vec<char> = Vec::new();
            push_str(&mut w, "⚠ Found ");
            let d = dec_u64(n_overlaps as u64);
            push_chars(&mut w, d.as_slice());
            push_str(&mut w, " memory overlaps - this will cause runtime issues!");
            warnings.push(string_of(w.as_slice()));
        }
        let ghost w1 = strings_view(warnings@);
        if let Some(gap) = stack_heap_gap {
            if gap == 0 {
                warnings.push(string_of(chars_lit("⚠ CRITICAL: Stack and heap overlap!").as_slice()));
            } else if gap < 1024 {
                let mut w: Vec<char> = Vec::new();
                push_str(&mut w, "⚠ WARNING: Only ");
                let d = dec_u64(gap);
                push_chars(&mut w, d.as_slice());
                push_str(&mut w, " bytes between stack and heap - collision risk!");
                warnings.push(string_of(w.as_slice()));
            } else if gap < 4096 {
                let mut w: Vec<char> = Vec::new();
                push_str(&mut w, "⚠ Stack/heap gap is ");
                let d = dec_u64(gap);
                push_chars(&mut w, d.as_slice());
                push_str(&mut w, " bytes - monitor for potential collision");
                warnings.push(string_of(w.as_slice()));
            }
        }
        let ghost w2 = strings_view(warnings@);
        if let Some(t) = layout.flash_size {
            Self::usage_warning_exec("Flash", layout.total_flash_used, t, &mut warnings);
        }
        let ghost w3 = strings_view(warnings@);
        if let Some(t) = layout.ram_size {
            Self::usage_warning_exec("RAM", layout.total_ram_used, t, &mut warnings);
        }
        proof {
            assert(strings_view(warnings@) =~= warnings_for(
                *layout,
                n_overlaps as nat,
                stack_heap_gap,
            ));
        }
        warnings
    }
}

impl Default for MemoryAnalyzer {
    fn default() -> (r: Self) {
        Self::new()
    }
}

fn chars_lit(s: &str) -> (r: Vec<char>)
    ensures
        r@ == s@,
{
    crate::text::chars_of(s)
}

/// Inserts `x` into the address-sorted `spans`, after spans with equal or lower address.
fn insert_span(spans: &mut Vec<Span>, x: Span)
    requires
        span_fits(x),
        forall|k: int| 0 <= k < old(spans)@.len() ==> span_fits(#[trigger] old(spans)@[k]),
    ensures
        final(spans)@ == insert_by(old(spans)@, x, span_key()),
        forall|k: int| 0 <= k < final(spans)@.len() ==> span_fits(#[trigger] final(spans)@[k]),
{
    let ghost s = spans@;
    let mut j = spans.len();
    while j > 0 && spans[j - 1].0 > x.0
        invariant
            j <= spans@.len(),
            spans@ == s,
            forall|k: int| j <= k < s.len() ==> (#[trigger] s[k]).0 > x.0,
        decreases j,
    {
        j = j - 1;
    }
    proof {
        lemma_insert_by_at(s, x, span_key(), j as int);
    }
    spans.insert(j, x);
    proof {
        assert(spans@ =~= s.take(j as int).push(x) + s.skip(j as int));
        assert forall|k: int| 0 <= k < spans@.len() implies span_fits(#[trigger] spans@[k]) by {
            if k < j {
                assert(spans@[k] == s[k]);
            } else if k > j {
                assert(spans@[k] == s[k - 1]);
            }
        }
    }
}

proof fn lemma_region_spans_len(s: Seq<MemorySection>, flash: bool)
    ensures
        region_spans(s, flash).len() <= s.len(),
    decreases s.len(),
{
    if s.len() > 0 {
        lemma_region_spans_len(s.drop_last(), flash);
    }
}

// ---------------------------------------------------------------------------
// Laws
// ---------------------------------------------------------------------------

/// Gaps and padding account for all free space between consecutive sections
/// of a region: the reported gap sizes plus the padding equal the sum of the
/// positive distances between consecutive (address-sorted) sections.
pub proof fn law_gaps_and_padding_cover_free_space(p: Seq<Span>, t: GapRegionType)
    requires
        forall|k: int| 0 <= k < p.len() ==> span_fits(#[trigger] p[k]),
    ensures
        gap_sizes(gaps_of(p, t)) + padding_of(p) == free_space_of(p),
    decreases p.len(),
{
    if p.len() >= 2 {
        law_gaps_and_padding_cover_free_space(p.drop_last(), t);
        assert(span_fits(p[p.len() - 2]));
        let g = gaps_of(p, t);
        let d = spacing(p[p.len() - 2], p.last());
        if d > 16 {
            assert(g.drop_last() =~= gaps_of(p.drop_last(), t));
            assert(g.last().size == d);
        } else {
            assert(g == gaps_of(p.drop_last(), t));
        }
    }
}

/// Every reported gap is more than 16 bytes long, ends after it starts, and
/// its size is the distance between its start and end.
pub proof fn law_gaps_are_real(p: Seq<Span>, t: GapRegionType)
    requires
        forall|k: int| 0 <= k < p.len() ==> span_fits(#[trigger] p[k]),
    ensures
        forall|i: int|
            0 <= i < gaps_of(p, t).len() ==> {
                let g = #[trigger] gaps_of(p, t)[i];
                &&& g.size > 16
                &&& g.start < g.end
                &&& g.end - g.start == g.size
                &&& g.region_type == t
            },
    decreases p.len(),
{
    if p.len() >= 2 {
        law_gaps_are_real(p.drop_last(), t);
        assert(span_fits(p[p.len() - 2]));
    }
}

/// Sections laid out back to back, each starting exactly where the previous
/// one ends, leave no gap and no padding.
pub proof fn law_contiguous_sections_have_no_gaps(p: Seq<Span>, t: GapRegionType)
    requires
        forall|k: int| 0 <= k < p.len() - 1 ==> #[trigger] spacing(p[k], p[k + 1]) == 0,
    ensures
        gaps_of(p, t).len() == 0,
        padding_of(p) == 0,
    decreases p.len(),
{
    if p.len() >= 2 {
        assert forall|k: int| 0 <= k < p.drop_last().len() - 1 implies #[trigger] spacing(
            p.drop_last()[k],
            p.drop_last()[k + 1],
        ) == 0 by {
            assert(spacing(p[k], p[k + 1]) == 0);
        }
        law_contiguous_sections_have_no_gaps(p.drop_last(), t);
        let k = p.len() - 2;
        assert(spacing(p[k], p[k + 1]) == 0);
    }
}

/// Every reported overlap lies within both sections it names, is non-empty,
/// and its size is its length.
pub proof fn law_overlap_row_sound(s: Seq<MemorySection>, i: int, j: int)
    requires
        0 <= i < s.len(),
        i < j <= s.len(),
    ensures
        forall|k: int|
            0 <= k < overlap_row(s, i, j).len() ==> {
                let o = #[trigger] overlap_row(s, i, j)[k];
                &&& o.0 == s[i].name@
                &&& o.2 < o.3
                &&& o.4 == o.3 - o.2
                &&& s[i].address <= o.2
                &&& o.3 <= section_end(s[i])
            },
    decreases j - i,
{
    if j > i + 1 {
        law_overlap_row_sound(s, i, j - 1);
        let a = overlap_row(s, i, j - 1);
        let b = pair_overlap(s[i], s[j - 1]);
        assert forall|k: int| 0 <= k < (a + b).len() implies {
            let o = #[trigger] (a + b)[k];
            &&& o.0 == s[i].name@
            &&& o.2 < o.3
            &&& o.4 == o.3 - o.2
            &&& s[i].address <= o.2
            &&& o.3 <= section_end(s[i])
        } by {
            if k >= a.len() {
                assert((a + b)[k] == b[k - a.len()]);
            } else {
                assert((a + b)[k] == a[k]);
            }
        }
    }
}

/// The stack/heap distance does not depend on which of the two comes first
/// in memory: it is the free space between them, or 0 when they touch or overlap.
pub proof fn law_stack_heap_distance_is_free_space(s: Seq<MemorySection>)
    requires
        sections_fit(s),
    ensures
        stack_heap_distance(s) matches Some(d) ==> {
            let st = s[first_special(s, true, 0)->0];
            let hp = s[first_special(s, false, 0)->0];
            (d > 0 ==> (d == st.address - section_end(hp) || d == hp.address - section_end(st)))
                && (d == 0 ==> !(st.address > section_end(hp)) && !(hp.address > section_end(
                st,
            )))
        },
{
}

/// Total size of the gaps of `g` that lie in memory of kind `t`.
pub open spec fn region_gap_bytes(g: Seq<MemoryGap>, t: GapRegionType) -> int
    decreases g.len(),
{
    if g.len() == 0 {
        0
    } else {
        region_gap_bytes(g.drop_last(), t) + if g.last().region_type == t {
            g.last().size as int
        } else {
            0
        }
    }
}

proof fn lemma_region_gap_bytes_concat(a: Seq<MemoryGap>, b: Seq<MemoryGap>, t: GapRegionType)
    ensures
        region_gap_bytes(a + b, t) == region_gap_bytes(a, t) + region_gap_bytes(b, t),
    decreases b.len(),
{
    if b.len() == 0 {
        assert(a + b =~= a);
    } else {
        lemma_region_gap_bytes_concat(a, b.drop_last(), t);
        assert((a + b).drop_last() =~= a + b.drop_last());
    }
}

proof fn lemma_region_gap_bytes_of(p: Seq<Span>, t: GapRegionType, u: GapRegionType)
    ensures
        region_gap_bytes(gaps_of(p, t), u) == if t == u {
            gap_sizes(gaps_of(p, t))
        } else {
            0
        },
    decreases p.len(),
{
    if p.len() >= 2 {
        lemma_region_gap_bytes_of(p.drop_last(), t, u);
        let g = gaps_of(p, t);
        if spacing(p[p.len() - 2], p.last()) > 16 {
            assert(g.drop_last() =~= gaps_of(p.drop_last(), t));
        }
    }
}

proof fn lemma_region_spans_fit(s: Seq<MemorySection>, flash: bool)
    requires
        sections_fit(s),
    ensures
        forall|k: int| 0 <= k < region_spans(s, flash).len() ==> span_fits(#[trigger] region_spans(s, flash)[k]),
    decreases s.len(),
{
    if s.len() > 0 {
        assert(sections_fit(s.drop_last())) by {
            assert forall|i: int| 0 <= i < s.drop_last().len() implies section_end(#[trigger] s.drop_last()[i])
                <= u64::MAX by {
                assert(s.drop_last()[i] == s[i]);
            }
        }
        lemma_region_spans_fit(s.drop_last(), flash);
        assert(section_end(s[s.len() - 1]) <= u64::MAX);
        let rest = region_spans(s.drop_last(), flash);
        let r = region_spans(s, flash);
        assert forall|k: int| 0 <= k < r.len() implies span_fits(#[trigger] r[k]) by {
            if k < rest.len() {
                assert(r[k] == rest[k]);
            }
        }
    }
}

/// Every section of the region has its span among the region's spans.
proof fn lemma_region_spans_hold(s: Seq<MemorySection>, flash: bool, i: int)
    requires
        0 <= i < s.len(),
        if flash {
            is_flash(s[i])
        } else {
            is_ram(s[i])
        },
    ensures
        region_spans(s, flash).contains((s[i].address, s[i].size)),
    decreases s.len(),
{
    let r = region_spans(s, flash);
    if i == s.len() - 1 {
        assert(r[r.len() - 1] == (s[i].address, s[i].size));
    } else {
        assert(s.drop_last()[i] == s[i]);
        lemma_region_spans_hold(s.drop_last(), flash, i);
        let r0 = region_spans(s.drop_last(), flash);
        let k = choose|k: int| 0 <= k < r0.len() && r0[k] == (s[i].address, s[i].size);
        assert(r[k] == r0[k]);
    }
}

/// For Flash and for RAM alike, the address-sorted spans of the region's
/// sections include every section of the region, and the reported gaps of
/// that region plus its padding add up to all the free space between its
/// consecutive sections: every spacing of more than 16 bytes is reported as
/// a gap of that region, and no gap is of unknown memory.
pub proof fn law_each_region_reports_its_gaps(s: Seq<MemorySection>)
    requires
        sections_fit(s),
    ensures
        forall|i: int| 0 <= i < s.len() && is_flash(#[trigger] s[i]) ==> sorted_spans(s, true).contains(
            (s[i].address, s[i].size),
        ),
        forall|i: int| 0 <= i < s.len() && is_ram(#[trigger] s[i]) ==> sorted_spans(s, false).contains(
            (s[i].address, s[i].size),
        ),
        crate::sort::sorted_by(sorted_spans(s, true), span_key()),
        crate::sort::sorted_by(sorted_spans(s, false), span_key()),
        region_gap_bytes(layout_gaps(s), GapRegionType::Flash) + padding_of(sorted_spans(s, true))
            == free_space_of(sorted_spans(s, true)),
        region_gap_bytes(layout_gaps(s), GapRegionType::Ram) + padding_of(sorted_spans(s, false))
            == free_space_of(sorted_spans(s, false)),
        region_gap_bytes(layout_gaps(s), GapRegionType::Unknown) == 0,
{
    broadcast use vstd::seq_lib::group_to_multiset_ensures;

    let f = sorted_spans(s, true);
    let r = sorted_spans(s, false);
    crate::sort::lemma_sort_by_sorted(region_spans(s, true), span_key());
    crate::sort::lemma_sort_by_sorted(region_spans(s, false), span_key());
    lemma_region_spans_fit(s, true);
    lemma_region_spans_fit(s, false);
    assert forall|i: int| 0 <= i < s.len() && is_flash(#[trigger] s[i]) implies f.contains(
        (s[i].address, s[i].size),
    ) by {
        lemma_region_spans_hold(s, true, i);
        assert(region_spans(s, true).to_multiset().count((s[i].address, s[i].size)) > 0);
    }
    assert forall|i: int| 0 <= i < s.len() && is_ram(#[trigger] s[i]) implies r.contains(
        (s[i].address, s[i].size),
    ) by {
        lemma_region_spans_hold(s, false, i);
        assert(region_spans(s, false).to_multiset().count((s[i].address, s[i].size)) > 0);
    }
    assert forall|k: int| 0 <= k < f.len() implies span_fits(#[trigger] f[k]) by {
        assert(f.to_multiset().count(f[k]) > 0);
        assert(region_spans(s, true).contains(f[k]));
    }
    assert forall|k: int| 0 <= k < r.len() implies span_fits(#[trigger] r[k]) by {
        assert(r.to_multiset().count(r[k]) > 0);
        assert(region_spans(s, false).contains(r[k]));
    }
    law_gaps_and_padding_cover_free_space(f, GapRegionType::Flash);
    law_gaps_and_padding_cover_free_space(r, GapRegionType::Ram);
    let gf = gaps_of(f, GapRegionType::Flash);
    let gr = gaps_of(r, GapRegionType::Ram);
    lemma_region_gap_bytes_concat(gf, gr, GapRegionType::Flash);
    lemma_region_gap_bytes_concat(gf, gr, GapRegionType::Ram);
    lemma_region_gap_bytes_concat(gf, gr, GapRegionType::Unknown);
    lemma_region_gap_bytes_of(f, GapRegionType::Flash, GapRegionType::Flash);
    lemma_region_gap_bytes_of(f, GapRegionType::Flash, GapRegionType::Ram);
    lemma_region_gap_bytes_of(f, GapRegionType::Flash, GapRegionType::Unknown);
    lemma_region_gap_bytes_of(r, GapRegionType::Ram, GapRegionType::Flash);
    lemma_region_gap_bytes_of(r, GapRegionType::Ram, GapRegionType::Ram);
    lemma_region_gap_bytes_of(r, GapRegionType::Ram, GapRegionType::Unknown);
}

} // verus!
