//! The interactive explorer's data and navigation: what the views show
//! (symbols largest first, source files, statistics, symbols by address) and
//! how each key press changes the selection, search, tab, zoom and scroll.
use vstd::prelude::*;

use crate::diff::analyzer::{insert_by_size_desc, size_desc_key};
use crate::diff::names::{contains_name, copy_chars, distinct, insert_name, names_view, sort_lex};
use crate::models::{MemorySection, Symbol, symbols_view};
use crate::sort::{insert_by, lemma_insert_by_at, sort_by};
use crate::symbol::fuzzy::{
    FuzzyMatch, FuzzyMatchV, FuzzyMatcher, matches_view, name_results, ranked, string_names,
    symbol_names,
};
use crate::text::{chars_eq, chars_of, string_of};
use crate::ui::region::{indices_valid, scroll_for, scroll_for_exec};
use crate::ui::stats::{SymbolStatistics, calculate_statistics, statistics_are};

verus! {

// ---------------------------------------------------------------------------
// The data shown
// ---------------------------------------------------------------------------

/// The source file a symbol is listed under.
pub open spec fn file_key(s: Symbol) -> Seq<char> {
    match s.source_file {
        Some(f) => f@,
        None => "UNKNOWN"@,
    }
}

pub open spec fn file_keys(s: Seq<Symbol>) -> Seq<Seq<char>> {
    s.map_values(|y: Symbol| file_key(y))
}

/// Every source file once, in lexicographic order.
pub open spec fn files_of(s: Seq<Symbol>) -> Seq<Seq<char>> {
    sort_lex(distinct(file_keys(s), s.len() as int))
}

/// Indices (ascending) among the first `n` whose key is `x`.
pub open spec fn indices_with(keys: Seq<Seq<char>>, x: Seq<char>, n: int) -> Seq<usize>
    decreases n,
{
    if n <= 0 {
        Seq::empty()
    } else if keys[n - 1] == x {
        indices_with(keys, x, n - 1).push((n - 1) as usize)
    } else {
        indices_with(keys, x, n - 1)
    }
}

/// Indices among the first `n` of symbols with an address and a size.
pub open spec fn placed(s: Seq<Symbol>, n: int) -> Seq<usize>
    decreases n,
{
    if n <= 0 {
        Seq::empty()
    } else if s[n - 1].address > 0 && s[n - 1].size > 0 {
        placed(s, n - 1).push((n - 1) as usize)
    } else {
        placed(s, n - 1)
    }
}

pub open spec fn address_key(s: Seq<Symbol>) -> spec_fn(usize) -> int {
    |i: usize| s[i as int].address as int
}

/// The placed symbols by ascending address (equal addresses keep their order).
pub open spec fn by_address(s: Seq<Symbol>) -> Seq<usize> {
    sort_by(placed(s, s.len() as int), address_key(s))
}

/// What the explorer shows; fixed once built.
pub struct ExplorerData {
    /// (address, size) of each section of the layout
    pub sections: Vec<(u64, u64)>,
    /// All symbols, largest first
    pub all_symbols: Vec<Symbol>,
    /// Source files, once each, in lexicographic order
    pub files: Vec<String>,
    /// For each file, the indices of its symbols
    pub file_symbols: Vec<Vec<usize>>,
    pub statistics: SymbolStatistics,
    /// Indices of the symbols with an address and a size, by address
    pub symbols_by_address: Vec<usize>,
    /// Number of vector table entries, when there is a table
    pub vector_count: Option<usize>,
}

/// `d` is the data for the sections `secs`, the symbols `syms` and a vector
/// table of `vc` entries.
pub open spec fn data_is(d: ExplorerData, secs: Seq<MemorySection>, syms: Seq<Symbol>, vc: Option<usize>) -> bool {
    let all = sort_by(symbols_view(syms), size_desc_key());
    &&& d.sections@ == secs.map_values(|m: MemorySection| (m.address, m.size))
    &&& symbols_view(d.all_symbols@) == all
    &&& crate::elf::analyzer::strings_view(d.files@) == files_of(d.all_symbols@)
    &&& d.file_symbols@.len() == d.files@.len()
    &&& (forall|k: int| 0 <= k < d.files@.len() ==> (#[trigger] d.file_symbols@[k])@ == indices_with(
        file_keys(d.all_symbols@),
        d.files@[k]@,
        d.all_symbols@.len() as int,
    ))
    &&& statistics_are(d.statistics, all)
    &&& d.symbols_by_address@ == by_address(d.all_symbols@)
    &&& d.vector_count == vc
}

/// Indices the data holds point at its symbols.
pub open spec fn data_wf(d: ExplorerData) -> bool {
    indices_valid(d.all_symbols@, d.symbols_by_address@)
}

/// Inserts index `x` after the indices whose symbol's address is at most its own.
fn insert_by_address(v: &mut Vec<usize>, x: usize, syms: &Vec<Symbol>)
    requires
        x < syms@.len(),
        forall|k: int| 0 <= k < old(v)@.len() ==> (#[trigger] old(v)@[k]) < syms@.len(),
    ensures
        final(v)@ == insert_by(old(v)@, x, address_key(syms@)),
        forall|k: int| 0 <= k < final(v)@.len() ==> (#[trigger] final(v)@[k]) < syms@.len(),
{
    let ghost s = v@;
    let mut j = v.len();
    while j > 0 && syms[v[j - 1]].address > syms[x].address
        invariant
            j <= v@.len(),
            v@ == s,
            x < syms@.len(),
            forall|k: int| 0 <= k < s.len() ==> (#[trigger] s[k]) < syms@.len(),
            forall|k: int| j <= k < s.len() ==> (address_key(syms@))(#[trigger] s[k]) > (address_key(syms@))(x),
        decreases j,
    {
        j = j - 1;
    }
    proof {
        lemma_insert_by_at(s, x, address_key(syms@), j as int);
    }
    v.insert(j, x);
    proof {
        assert(v@ =~= s.take(j as int).push(x) + s.skip(j as int));
        assert forall|k: int| 0 <= k < v@.len() implies (#[trigger] v@[k]) < syms@.len() by {
            if k < j {
                assert(v@[k] == s[k]);
            } else if k > j {
                assert(v@[k] == s[k - 1]);
            }
        }
    }
}

/// The source file key of a symbol.
fn file_key_exec(s: &Symbol) -> (r: Vec<char>)
    ensures
        r@ == file_key(*s),
{
    match &s.source_file {
        Some(f) => chars_of(f.as_str()),
        None => chars_of("UNKNOWN"),
    }
}

impl ExplorerData {
    /// Prepare what the explorer shows from the layout's sections, the
    /// symbols of the file and the size of its vector table (if any).
    pub fn new(sections: &Vec<MemorySection>, symbols: &Vec<Symbol>, vector_count: Option<usize>) -> (r: Self)
        ensures
            data_is(r, sections@, symbols@, vector_count),
            data_wf(r),
    {
        // symbols, largest first
        let ghost sv = symbols_view(symbols@);
        let mut all: Vec<Symbol> = Vec::new();
        let mut i: usize = 0;
        while i < symbols.len()
            invariant
                i <= symbols@.len(),
                sv == symbols_view(symbols@),
                symbols_view(all@) == sort_by(sv.take(i as int), size_desc_key()),
            decreases symbols.len() - i,
        {
            assert(sv.take(i + 1).drop_last() =~= sv.take(i as int));
            insert_by_size_desc(&mut all, symbols[i].clone());
            i = i + 1;
        }
        assert(sv.take(sv.len() as int) =~= sv);
        // file keys
        let ghost keys = file_keys(all@);
        let mut key_list: Vec<Vec<char>> = Vec::new();
        let mut i: usize = 0;
        while i < all.len()
            invariant
                i <= all@.len(),
                keys == file_keys(all@),
                names_view(key_list@) =~= keys.take(i as int),
            decreases all.len() - i,
        {
            let ghost before = key_list@;
            key_list.push(file_key_exec(&all[i]));
            assert(names_view(key_list@) =~= names_view(before).push(keys[i as int]));
            i = i + 1;
        }
        assert(keys.take(keys.len() as int) =~= keys);
        // distinct files
        let mut seen: Vec<Vec<char>> = Vec::new();
        let mut i: usize = 0;
        assert(names_view(seen@) =~= distinct(keys, 0));
        while i < key_list.len()
            invariant
                i <= key_list@.len(),
                keys == names_view(key_list@),
                key_list@.len() == all@.len(),
                names_view(seen@) == distinct(keys, i as int),
            decreases key_list.len() - i,
        {
            if !contains_name(&seen, key_list[i].as_slice()) {
                let ghost before = seen@;
                seen.push(copy_chars(&key_list[i]));
                assert(names_view(seen@) =~= names_view(before).push(keys[i as int]));
            }
            i = i + 1;
        }
        let ghost d = names_view(seen@);
        let mut sorted_files: Vec<Vec<char>> = Vec::new();
        let mut i: usize = 0;
        while i < seen.len()
            invariant
                i <= seen@.len(),
                d == names_view(seen@),
                names_view(sorted_files@) == sort_lex(d.take(i as int)),
            decreases seen.len() - i,
        {
            assert(d.take(i + 1).drop_last() =~= d.take(i as int));
            insert_name(&mut sorted_files, copy_chars(&seen[i]));
            i = i + 1;
        }
        assert(d.take(d.len() as int) =~= d);
        // file names and their symbols
        let mut files: Vec<String> = Vec::new();
        let mut file_symbols: Vec<Vec<usize>> = Vec::new();
        let ghost fs = names_view(sorted_files@);
        let mut k: usize = 0;
        while k < sorted_files.len()
            invariant
                k <= sorted_files@.len(),
                fs == names_view(sorted_files@),
                keys == names_view(key_list@),
                key_list@.len() == all@.len(),
                keys == file_keys(all@),
                files@.len() == k,
                file_symbols@.len() == k,
                forall|j: int| 0 <= j < k ==> (#[trigger] files@[j])@ == fs[j],
                forall|j: int| 0 <= j < k ==> (#[trigger] file_symbols@[j])@ == indices_with(
                    keys,
                    fs[j],
                    all@.len() as int,
                ),
            decreases sorted_files.len() - k,
        {
            let f = &sorted_files[k];
            let mut idx: Vec<usize> = Vec::new();
            let mut i: usize = 0;
            while i < key_list.len()
                invariant
                    i <= key_list@.len(),
                    keys == names_view(key_list@),
                    idx@ == indices_with(keys, f@, i as int),
                decreases key_list.len() - i,
            {
                if chars_eq(key_list[i].as_slice(), f.as_slice()) {
                    idx.push(i);
                }
                i = i + 1;
            }
            files.push(string_of(f.as_slice()));
            file_symbols.push(idx);
            k = k + 1;
        }
        assert(crate::elf::analyzer::strings_view(files@) =~= fs);
        // statistics
        let statistics = calculate_statistics(all.as_slice());
        // placed symbols by address
        let ghost av = all@;
        let mut by_addr: Vec<usize> = Vec::new();
        let mut i: usize = 0;
        while i < all.len()
            invariant
                i <= all@.len(),
                av == all@,
                by_addr@ == sort_by(placed(av, i as int), address_key(av)),
                forall|k: int| 0 <= k < by_addr@.len() ==> (#[trigger] by_addr@[k]) < av.len(),
            decreases all.len() - i,
        {
            if all[i].address > 0 && all[i].size > 0 {
                assert(placed(av, i + 1).drop_last() =~= placed(av, i as int));
                insert_by_address(&mut by_addr, i, &all);
            }
            i = i + 1;
        }
        // sections
        let mut secs: Vec<(u64, u64)> = Vec::new();
        let mut i: usize = 0;
        while i < sections.len()
            invariant
                i <= sections@.len(),
                secs@ =~= sections@.map_values(|m: MemorySection| (m.address, m.size)).take(i as int),
            decreases sections.len() - i,
        {
            secs.push((sections[i].address, sections[i].size));
            i = i + 1;
        }
        assert(secs@ =~= sections@.map_values(|m: MemorySection| (m.address, m.size)));
        ExplorerData {
            sections: secs,
            all_symbols: all,
            files,
            file_symbols,
            statistics,
            symbols_by_address: by_addr,
            vector_count,
        }
    }
}

// ---------------------------------------------------------------------------
// Navigation
// ---------------------------------------------------------------------------

/// The explorer's tabs.
#[derive(Debug, Clone, Copy, PartialEq, Eq, Structural)]
pub enum ViewTab {
    Memory,
    Symbols,
    Files,
    Statistics,
    RegionExplorer,
    VectorTable,
}

/// A key press, as the explorer distinguishes them.
#[derive(Debug, Clone, Copy, PartialEq, Eq, Structural)]
pub enum Key {
    Char(char),
    Esc,
    Enter,
    Backspace,
    Up,
    Down,
    Tab,
    PageUp,
    PageDown,
    Other,
}

/// Where the user is: selections, search, tab, zoom and scroll positions.
#[derive(Debug)]
pub struct Navigation {
    pub selected_section: usize,
    /// Highlighted row of the section list
    pub section_selection: Option<usize>,
    pub show_help: bool,
    pub detail_scroll: u16,
    pub current_tab: ViewTab,
    pub search_query: Vec<char>,
    pub fuzzy_results: Vec<FuzzyMatch>,
    pub selected_symbol_index: usize,
    /// Highlighted row of the symbol list
    pub symbol_selection: Option<usize>,
    /// When true, keys edit the search query
    pub search_mode: bool,
    pub file_fuzzy_results: Vec<FuzzyMatch>,
    pub selected_file_index: usize,
    /// Highlighted row of the file list
    pub file_selection: Option<usize>,
    /// Scroll position in the memory map
    pub region_scroll: u16,
    /// 0 = sections only, 1 = top 3 symbols, 2 = top 10, 3 = (nearly) all
    pub region_zoom_level: u8,
    /// Index into the symbols by address
    pub region_selected_symbol: usize,
    pub selected_vector_index: usize,
    /// Highlighted row of the vector list
    pub vector_selection: Option<usize>,
    pub vector_scroll: u16,
}

/// The navigation state as plain values.
pub struct NavV {
    pub selected_section: usize,
    pub section_selection: Option<usize>,
    pub show_help: bool,
    pub detail_scroll: u16,
    pub current_tab: ViewTab,
    pub search_query: Seq<char>,
    pub fuzzy_results: Seq<FuzzyMatchV>,
    pub selected_symbol_index: usize,
    pub symbol_selection: Option<usize>,
    pub search_mode: bool,
    pub file_fuzzy_results: Seq<FuzzyMatchV>,
    pub selected_file_index: usize,
    pub file_selection: Option<usize>,
    pub region_scroll: u16,
    pub region_zoom_level: u8,
    pub region_selected_symbol: usize,
    pub selected_vector_index: usize,
    pub vector_selection: Option<usize>,
    pub vector_scroll: u16,
}

impl View for Navigation {
    type V = NavV;

    open spec fn view(&self) -> NavV {
        NavV {
            selected_section: self.selected_section,
            section_selection: self.section_selection,
            show_help: self.show_help,
            detail_scroll: self.detail_scroll,
            current_tab: self.current_tab,
            search_query: self.search_query@,
            fuzzy_results: matches_view(self.fuzzy_results@),
            selected_symbol_index: self.selected_symbol_index,
            symbol_selection: self.symbol_selection,
            search_mode: self.search_mode,
            file_fuzzy_results: matches_view(self.file_fuzzy_results@),
            selected_file_index: self.selected_file_index,
            file_selection: self.file_selection,
            region_scroll: self.region_scroll,
            region_zoom_level: self.region_zoom_level,
            region_selected_symbol: self.region_selected_symbol,
            selected_vector_index: self.selected_vector_index,
            vector_selection: self.vector_selection,
            vector_scroll: self.vector_scroll,
        }
    }
}

/// The next index in a list of `len` entries, wrapping around.
pub open spec fn next_index(i: usize, len: nat) -> usize {
    ((i + 1) % (len as int)) as usize
}

/// The previous index in a list of `len` entries, wrapping around.
pub open spec fn prev_index(i: usize, len: nat) -> usize {
    if i == 0 {
        (len - 1) as usize
    } else {
        (i - 1) as usize
    }
}

/// The navigation when the explorer starts.
pub open spec fn initial_nav(d: ExplorerData) -> NavV {
    NavV {
        selected_section: 0,
        section_selection: if d.sections@.len() > 0 {
            Some(0)
        } else {
            None
        },
        show_help: false,
        detail_scroll: 0,
        current_tab: ViewTab::Memory,
        search_query: Seq::empty(),
        fuzzy_results: Seq::empty(),
        selected_symbol_index: 0,
        symbol_selection: if d.all_symbols@.len() > 0 {
            Some(0)
        } else {
            None
        },
        search_mode: false,
        file_fuzzy_results: Seq::empty(),
        selected_file_index: 0,
        file_selection: if d.files@.len() > 0 {
            Some(0)
        } else {
            None
        },
        region_scroll: 0,
        region_zoom_level: 0,
        region_selected_symbol: 0,
        selected_vector_index: 0,
        vector_selection: match d.vector_count {
            Some(c) => if c > 0 {
                Some(0)
            } else {
                None
            },
            None => None,
        },
        vector_scroll: 0,
    }
}

pub open spec fn next_section_v(n: NavV, d: ExplorerData) -> NavV {
    if d.sections@.len() == 0 {
        n
    } else {
        let i = next_index(n.selected_section, d.sections@.len());
        NavV { selected_section: i, section_selection: Some(i), detail_scroll: 0, ..n }
    }
}

pub open spec fn prev_section_v(n: NavV, d: ExplorerData) -> NavV {
    if d.sections@.len() == 0 {
        n
    } else {
        let i = prev_index(n.selected_section, d.sections@.len());
        NavV { selected_section: i, section_selection: Some(i), detail_scroll: 0, ..n }
    }
}

/// Rows of the symbol list: all symbols, or the search hits.
pub open spec fn symbol_rows(n: NavV, d: ExplorerData) -> nat {
    if n.search_query.len() == 0 {
        d.all_symbols@.len()
    } else {
        n.fuzzy_results.len()
    }
}

/// Rows of the file list: all files, or the search hits.
pub open spec fn file_rows(n: NavV, d: ExplorerData) -> nat {
    if n.search_query.len() == 0 {
        d.files@.len()
    } else {
        n.file_fuzzy_results.len()
    }
}

pub open spec fn next_symbol_v(n: NavV, d: ExplorerData) -> NavV {
    if symbol_rows(n, d) == 0 {
        n
    } else {
        let i = next_index(n.selected_symbol_index, symbol_rows(n, d));
        NavV { selected_symbol_index: i, symbol_selection: Some(i), ..n }
    }
}

pub open spec fn prev_symbol_v(n: NavV, d: ExplorerData) -> NavV {
    if symbol_rows(n, d) == 0 {
        n
    } else {
        let i = prev_index(n.selected_symbol_index, symbol_rows(n, d));
        NavV { selected_symbol_index: i, symbol_selection: Some(i), ..n }
    }
}

pub open spec fn next_file_v(n: NavV, d: ExplorerData) -> NavV {
    if file_rows(n, d) == 0 {
        n
    } else {
        let i = next_index(n.selected_file_index, file_rows(n, d));
        NavV { selected_file_index: i, file_selection: Some(i), ..n }
    }
}

pub open spec fn prev_file_v(n: NavV, d: ExplorerData) -> NavV {
    if file_rows(n, d) == 0 {
        n
    } else {
        let i = prev_index(n.selected_file_index, file_rows(n, d));
        NavV { selected_file_index: i, file_selection: Some(i), ..n }
    }
}

pub open spec fn next_vector_v(n: NavV, d: ExplorerData) -> NavV {
    match d.vector_count {
        Some(c) => if c == 0 {
            n
        } else {
            let i = next_index(n.selected_vector_index, c as nat);
            NavV { selected_vector_index: i, vector_selection: Some(i), ..n }
        },
        None => n,
    }
}

pub open spec fn prev_vector_v(n: NavV, d: ExplorerData) -> NavV {
    match d.vector_count {
        Some(c) => if c == 0 {
            n
        } else {
            let i = prev_index(n.selected_vector_index, c as nat);
            NavV { selected_vector_index: i, vector_selection: Some(i), ..n }
        },
        None => n,
    }
}

/// The memory map scroll for the current zoom and selected symbol.
pub open spec fn rescroll_v(n: NavV, d: ExplorerData) -> NavV {
    if d.symbols_by_address@.len() == 0 {
        n
    } else {
        let sel = d.all_symbols@[d.symbols_by_address@[n.region_selected_symbol as int] as int];
        NavV {
            region_scroll: scroll_for(
                d.all_symbols@,
                d.symbols_by_address@,
                d.sections@,
                n.region_zoom_level,
                sel,
            ),
            ..n
        }
    }
}

pub open spec fn region_next_v(n: NavV, d: ExplorerData) -> NavV {
    if d.symbols_by_address@.len() == 0 {
        n
    } else {
        rescroll_v(
            NavV {
                region_selected_symbol: next_index(n.region_selected_symbol, d.symbols_by_address@.len()),
                ..n
            },
            d,
        )
    }
}

pub open spec fn region_prev_v(n: NavV, d: ExplorerData) -> NavV {
    if d.symbols_by_address@.len() == 0 {
        n
    } else {
        rescroll_v(
            NavV {
                region_selected_symbol: prev_index(n.region_selected_symbol, d.symbols_by_address@.len()),
                ..n
            },
            d,
        )
    }
}

pub open spec fn zoom_in_v(n: NavV, d: ExplorerData) -> NavV {
    if n.region_zoom_level < 3 {
        rescroll_v(NavV { region_zoom_level: (n.region_zoom_level + 1) as u8, ..n }, d)
    } else {
        n
    }
}

pub open spec fn zoom_out_v(n: NavV, d: ExplorerData) -> NavV {
    if n.region_zoom_level > 0 {
        rescroll_v(NavV { region_zoom_level: (n.region_zoom_level - 1) as u8, ..n }, d)
    } else {
        n
    }
}

/// The tab a key selects (the number keys, or Tab for the next one).
pub open spec fn tab_for(t: ViewTab, k: Key) -> ViewTab {
    match k {
        Key::Char('1') => ViewTab::Memory,
        Key::Char('2') => ViewTab::Symbols,
        Key::Char('3') => ViewTab::Files,
        Key::Char('4') => ViewTab::Statistics,
        Key::Char('5') => ViewTab::RegionExplorer,
        Key::Char('6') => ViewTab::VectorTable,
        Key::Tab => match t {
            ViewTab::Memory => ViewTab::Symbols,
            ViewTab::Symbols => ViewTab::Files,
            ViewTab::Files => ViewTab::Statistics,
            ViewTab::Statistics => ViewTab::RegionExplorer,
            ViewTab::RegionExplorer => ViewTab::VectorTable,
            ViewTab::VectorTable => ViewTab::Memory,
        },
        _ => t,
    }
}

/// Switching tabs clears the search.
pub open spec fn tab_switch_v(n: NavV, k: Key) -> NavV {
    NavV {
        current_tab: tab_for(n.current_tab, k),
        search_query: Seq::empty(),
        fuzzy_results: Seq::empty(),
        file_fuzzy_results: Seq::empty(),
        ..n
    }
}

/// Rerun the search of the current tab for the current query.
pub open spec fn update_search_v(n: NavV, d: ExplorerData) -> NavV {
    match n.current_tab {
        ViewTab::Symbols => if n.search_query.len() == 0 {
            NavV { fuzzy_results: Seq::empty(), ..n }
        } else {
            let hits = ranked(name_results(symbol_names(d.all_symbols@), n.search_query));
            NavV {
                fuzzy_results: hits,
                selected_symbol_index: 0,
                symbol_selection: if hits.len() > 0 {
                    Some(0)
                } else {
                    n.symbol_selection
                },
                ..n
            }
        },
        ViewTab::Files => if n.search_query.len() == 0 {
            NavV { file_fuzzy_results: Seq::empty(), ..n }
        } else {
            let hits = ranked(name_results(string_names(d.files@), n.search_query));
            NavV {
                file_fuzzy_results: hits,
                selected_file_index: 0,
                file_selection: if hits.len() > 0 {
                    Some(0)
                } else {
                    n.file_selection
                },
                ..n
            }
        },
        _ => n,
    }
}

pub open spec fn saturating_add5(x: u16) -> u16 {
    if x as int + 5 > u16::MAX {
        u16::MAX
    } else {
        (x + 5) as u16
    }
}

pub open spec fn saturating_sub5(x: u16) -> u16 {
    if x < 5 {
        0
    } else {
        (x - 5) as u16
    }
}

/// One key press while typing a search query.
pub open spec fn search_key_v(n: NavV, d: ExplorerData, k: Key) -> NavV {
    match k {
        Key::Esc => NavV {
            search_mode: false,
            search_query: Seq::empty(),
            fuzzy_results: Seq::empty(),
            file_fuzzy_results: Seq::empty(),
            ..n
        },
        Key::Enter => NavV { search_mode: false, ..n },
        Key::Backspace => update_search_v(
            NavV {
                search_query: if n.search_query.len() == 0 {
                    n.search_query
                } else {
                    n.search_query.drop_last()
                },
                ..n
            },
            d,
        ),
        Key::Down => match n.current_tab {
            ViewTab::Symbols => next_symbol_v(n, d),
            ViewTab::Files => next_file_v(n, d),
            _ => n,
        },
        Key::Up => match n.current_tab {
            ViewTab::Symbols => prev_symbol_v(n, d),
            ViewTab::Files => prev_file_v(n, d),
            _ => n,
        },
        Key::Char(c) => update_search_v(NavV { search_query: n.search_query.push(c), ..n }, d),
        _ => n,
    }
}

/// Whether a key quits (outside search mode).
pub open spec fn quits(k: Key) -> bool {
    k == Key::Char('q') || k == Key::Esc
}

/// One key press outside search mode (a quitting key changes nothing).
pub open spec fn command_key_v(n: NavV, d: ExplorerData, k: Key) -> NavV {
    let t = n.current_tab;
    if quits(k) {
        n
    } else if k == Key::Char('/') && (t == ViewTab::Symbols || t == ViewTab::Files) {
        NavV { search_mode: true, ..n }
    } else if k == Key::Char('h') || k == Key::Char('?') {
        NavV { show_help: !n.show_help, ..n }
    } else if k == Key::Tab || k == Key::Char('1') || k == Key::Char('2') || k == Key::Char('3')
        || k == Key::Char('4') || k == Key::Char('5') || k == Key::Char('6') {
        tab_switch_v(n, k)
    } else if k == Key::Down || k == Key::Char('j') {
        match t {
            ViewTab::Memory => next_section_v(n, d),
            ViewTab::Symbols => next_symbol_v(n, d),
            ViewTab::Files => next_file_v(n, d),
            ViewTab::Statistics => n,
            ViewTab::RegionExplorer => region_next_v(n, d),
            ViewTab::VectorTable => next_vector_v(n, d),
        }
    } else if k == Key::Up || k == Key::Char('k') {
        match t {
            ViewTab::Memory => prev_section_v(n, d),
            ViewTab::Symbols => prev_symbol_v(n, d),
            ViewTab::Files => prev_file_v(n, d),
            ViewTab::Statistics => n,
            ViewTab::RegionExplorer => region_prev_v(n, d),
            ViewTab::VectorTable => prev_vector_v(n, d),
        }
    } else if k == Key::Char('z') && t == ViewTab::RegionExplorer {
        zoom_in_v(n, d)
    } else if k == Key::Char('Z') && t == ViewTab::RegionExplorer {
        zoom_out_v(n, d)
    } else if k == Key::PageDown {
        if t == ViewTab::RegionExplorer {
            NavV { region_scroll: saturating_add5(n.region_scroll), ..n }
        } else if t == ViewTab::VectorTable {
            NavV { vector_scroll: saturating_add5(n.vector_scroll), ..n }
        } else {
            NavV { detail_scroll: saturating_add5(n.detail_scroll), ..n }
        }
    } else if k == Key::PageUp {
        if t == ViewTab::RegionExplorer {
            NavV { region_scroll: saturating_sub5(n.region_scroll), ..n }
        } else if t == ViewTab::VectorTable {
            NavV { vector_scroll: saturating_sub5(n.vector_scroll), ..n }
        } else {
            NavV { detail_scroll: saturating_sub5(n.detail_scroll), ..n }
        }
    } else {
        n
    }
}

/// The navigation after a key press, and whether the explorer goes on.
pub open spec fn step(n: NavV, d: ExplorerData, k: Key) -> (NavV, bool) {
    if n.search_mode {
        (search_key_v(n, d, k), true)
    } else {
        (command_key_v(n, d, k), !quits(k))
    }
}

/// The region selection indexes the symbols by address.
pub open spec fn nav_wf(n: NavV, d: ExplorerData) -> bool {
    d.symbols_by_address@.len() == 0 || n.region_selected_symbol < d.symbols_by_address@.len()
}

/// The next index in a list of `len` entries, wrapping around.
fn wrap_next(i: usize, len: usize) -> (r: usize)
    requires
        len > 0,
    ensures
        r == next_index(i, len as nat),
        r < len,
{
    let m = i % len;
    proof {
        vstd::arithmetic::div_mod::lemma_add_mod_noop(i as int, 1, len as int);
        vstd::arithmetic::div_mod::lemma_mod_bound(i as int, len as int);
        if len == 1 {
            vstd::arithmetic::div_mod::lemma_mod_bound(i + 1, 1);
        } else {
            vstd::arithmetic::div_mod::lemma_small_mod(1, len as nat);
            if m + 1 < len {
                vstd::arithmetic::div_mod::lemma_small_mod((m + 1) as nat, len as nat);
            } else {
                vstd::arithmetic::div_mod::lemma_mod_self_0(len as int);
            }
        }
    }
    if m + 1 == len {
        0
    } else {
        m + 1
    }
}

/// The explorer: what it shows, and where the user is.
pub struct Explorer {
    pub data: ExplorerData,
    pub nav: Navigation,
}

impl Explorer {
    /// Start exploring the sections `sections`, the symbols `symbols` and a
    /// vector table of `vector_count` entries (if any).
    pub fn new(sections: &Vec<MemorySection>, symbols: &Vec<Symbol>, vector_count: Option<usize>) -> (r: Self)
        ensures
            data_is(r.data, sections@, symbols@, vector_count),
            data_wf(r.data),
            r.nav@ == initial_nav(r.data),
            nav_wf(r.nav@, r.data),
    {
        let data = ExplorerData::new(sections, symbols, vector_count);
        let nav = Navigation {
            selected_section: 0,
            section_selection: if data.sections.len() > 0 {
                Some(0)
            } else {
                None
            },
            show_help: false,
            detail_scroll: 0,
            current_tab: ViewTab::Memory,
            search_query: Vec::new(),
            fuzzy_results: Vec::new(),
            selected_symbol_index: 0,
            symbol_selection: if data.all_symbols.len() > 0 {
                Some(0)
            } else {
                None
            },
            search_mode: false,
            file_fuzzy_results: Vec::new(),
            selected_file_index: 0,
            file_selection: if data.files.len() > 0 {
                Some(0)
            } else {
                None
            },
            region_scroll: 0,
            region_zoom_level: 0,
            region_selected_symbol: 0,
            selected_vector_index: 0,
            vector_selection: match data.vector_count {
                Some(c) => if c > 0 {
                    Some(0)
                } else {
                    None
                },
                None => None,
            },
            vector_scroll: 0,
        };
        let r = Explorer { data, nav };
        assert(r.nav@.search_query =~= Seq::<char>::empty());
        assert(r.nav@.fuzzy_results =~= Seq::<FuzzyMatchV>::empty());
        assert(r.nav@.file_fuzzy_results =~= Seq::<FuzzyMatchV>::empty());
        r
    }

    /// Handle one key press; false when the explorer should quit.
    pub fn handle_key(&mut self, key: Key) -> (r: bool)
        requires
            data_wf(old(self).data),
            nav_wf(old(self).nav@, old(self).data),
        ensures
            final(self).data == old(self).data,
            (final(self).nav@, r) == step(old(self).nav@, old(self).data, key),
            nav_wf(final(self).nav@, final(self).data),
    {
        if self.nav.search_mode {
            match key {
                Key::Esc => {
                    self.nav.search_mode = false;
                    self.nav.search_query = Vec::new();
                    self.nav.fuzzy_results = Vec::new();
                    self.nav.file_fuzzy_results = Vec::new();
                    assert(self.nav@.search_query =~= Seq::<char>::empty());
                    assert(self.nav@.fuzzy_results =~= Seq::<FuzzyMatchV>::empty());
                    assert(self.nav@.file_fuzzy_results =~= Seq::<FuzzyMatchV>::empty());
                },
                Key::Enter => {
                    self.nav.search_mode = false;
                },
                Key::Backspace => {
                    self.nav.search_query.pop();
                    self.update_search();
                },
                Key::Down => match self.nav.current_tab {
                    ViewTab::Symbols => self.next_symbol(),
                    ViewTab::Files => self.next_file(),
                    _ => {},
                },
                Key::Up => match self.nav.current_tab {
                    ViewTab::Symbols => self.previous_symbol(),
                    ViewTab::Files => self.previous_file(),
                    _ => {},
                },
                Key::Char(c) => {
                    self.nav.search_query.push(c);
                    self.update_search();
                },
                _ => {},
            }
            return true;
        }
        let t = self.nav.current_tab;
        if key == Key::Char('q') || key == Key::Esc {
            return false;
        }
        if key == Key::Char('/') && (t == ViewTab::Symbols || t == ViewTab::Files) {
            self.nav.search_mode = true;
        } else if key == Key::Char('h') || key == Key::Char('?') {
            self.nav.show_help = !self.nav.show_help;
        } else if key == Key::Tab || key == Key::Char('1') || key == Key::Char('2') || key == Key::Char(
            '3',
        ) || key == Key::Char('4') || key == Key::Char('5') || key == Key::Char('6') {
            self.handle_tab_switch(key);
        } else if key == Key::Down || key == Key::Char('j') {
            match t {
                ViewTab::Memory => self.next_section(),
                ViewTab::Symbols => self.next_symbol(),
                ViewTab::Files => self.next_file(),
                ViewTab::Statistics => {},
                ViewTab::RegionExplorer => self.region_next_symbol(),
                ViewTab::VectorTable => self.next_vector(),
            }
        } else if key == Key::Up || key == Key::Char('k') {
            match t {
                ViewTab::Memory => self.previous_section(),
                ViewTab::Symbols => self.previous_symbol(),
                ViewTab::Files => self.previous_file(),
                ViewTab::Statistics => {},
                ViewTab::RegionExplorer => self.region_previous_symbol(),
                ViewTab::VectorTable => self.previous_vector(),
            }
        } else if key == Key::Char('z') && t == ViewTab::RegionExplorer {
            self.region_zoom_in();
        } else if key == Key::Char('Z') && t == ViewTab::RegionExplorer {
            self.region_zoom_out();
        } else if key == Key::PageDown {
            if t == ViewTab::RegionExplorer {
                self.nav.region_scroll = self.nav.region_scroll.saturating_add(5);
            } else if t == ViewTab::VectorTable {
                self.nav.vector_scroll = self.nav.vector_scroll.saturating_add(5);
            } else {
                self.nav.detail_scroll = self.nav.detail_scroll.saturating_add(5);
            }
        } else if key == Key::PageUp {
            if t == ViewTab::RegionExplorer {
                self.nav.region_scroll = self.nav.region_scroll.saturating_sub(5);
            } else if t == ViewTab::VectorTable {
                self.nav.vector_scroll = self.nav.vector_scroll.saturating_sub(5);
            } else {
                self.nav.detail_scroll = self.nav.detail_scroll.saturating_sub(5);
            }
        }
        true
    }

    fn next_section(&mut self)
        ensures
            final(self).data == old(self).data,
            final(self).nav@ == next_section_v(old(self).nav@, old(self).data),
    {
        let len = self.data.sections.len();
        if len == 0 {
            return;
        }
        self.nav.selected_section = wrap_next(self.nav.selected_section, len);
        self.nav.section_selection = Some(self.nav.selected_section);
        self.nav.detail_scroll = 0;
    }

    fn previous_section(&mut self)
        ensures
            final(self).data == old(self).data,
            final(self).nav@ == prev_section_v(old(self).nav@, old(self).data),
    {
        let len = self.data.sections.len();
        if len == 0 {
            return;
        }
        if self.nav.selected_section == 0 {
            self.nav.selected_section = len - 1;
        } else {
            self.nav.selected_section = self.nav.selected_section - 1;
        }
        self.nav.section_selection = Some(self.nav.selected_section);
        self.nav.detail_scroll = 0;
    }

    fn handle_tab_switch(&mut self, key: Key)
        ensures
            final(self).data == old(self).data,
            final(self).nav@ == tab_switch_v(old(self).nav@, key),
    {
        self.nav.current_tab = match key {
            Key::Char('1') => ViewTab::Memory,
            Key::Char('2') => ViewTab::Symbols,
            Key::Char('3') => ViewTab::Files,
            Key::Char('4') => ViewTab::Statistics,
            Key::Char('5') => ViewTab::RegionExplorer,
            Key::Char('6') => ViewTab::VectorTable,
            Key::Tab => match self.nav.current_tab {
                ViewTab::Memory => ViewTab::Symbols,
                ViewTab::Symbols => ViewTab::Files,
                ViewTab::Files => ViewTab::Statistics,
                ViewTab::Statistics => ViewTab::RegionExplorer,
                ViewTab::RegionExplorer => ViewTab::VectorTable,
                ViewTab::VectorTable => ViewTab::Memory,
            },
            _ => self.nav.current_tab,
        };
        self.nav.search_query = Vec::new();
        self.nav.fuzzy_results = Vec::new();
        self.nav.file_fuzzy_results = Vec::new();
        assert(self.nav@.search_query =~= Seq::<char>::empty());
        assert(self.nav@.fuzzy_results =~= Seq::<FuzzyMatchV>::empty());
        assert(self.nav@.file_fuzzy_results =~= Seq::<FuzzyMatchV>::empty());
    }

    fn update_search(&mut self)
        ensures
            final(self).data == old(self).data,
            final(self).nav@ == update_search_v(old(self).nav@, old(self).data),
    {
        match self.nav.current_tab {
            ViewTab::Symbols => {
                if self.nav.search_query.len() == 0 {
                    self.nav.fuzzy_results = Vec::new();
                    assert(self.nav@.fuzzy_results =~= Seq::<FuzzyMatchV>::empty());
                } else {
                    let q = string_of(self.nav.search_query.as_slice());
                    let matcher = FuzzyMatcher::new();
                    self.nav.fuzzy_results = matcher.search(q.as_str(), self.data.all_symbols.as_slice());
                    self.nav.selected_symbol_index = 0;
                    if self.nav.fuzzy_results.len() > 0 {
                        self.nav.symbol_selection = Some(0);
                    }
                }
            },
            ViewTab::Files => {
                if self.nav.search_query.len() == 0 {
                    self.nav.file_fuzzy_results = Vec::new();
                    assert(self.nav@.file_fuzzy_results =~= Seq::<FuzzyMatchV>::empty());
                } else {
                    let q = string_of(self.nav.search_query.as_slice());
                    let matcher = FuzzyMatcher::new();
                    self.nav.file_fuzzy_results = matcher.search_strings(q.as_str(), self.data.files.as_slice());
                    self.nav.selected_file_index = 0;
                    if self.nav.file_fuzzy_results.len() > 0 {
                        self.nav.file_selection = Some(0);
                    }
                }
            },
            _ => {},
        }
    }

    fn next_symbol(&mut self)
        ensures
            final(self).data == old(self).data,
            final(self).nav@ == next_symbol_v(old(self).nav@, old(self).data),
    {
        let len = if self.nav.search_query.len() == 0 {
            self.data.all_symbols.len()
        } else {
            self.nav.fuzzy_results.len()
        };
        if len == 0 {
            return;
        }
        self.nav.selected_symbol_index = wrap_next(self.nav.selected_symbol_index, len);
        self.nav.symbol_selection = Some(self.nav.selected_symbol_index);
    }

    fn previous_symbol(&mut self)
        ensures
            final(self).data == old(self).data,
            final(self).nav@ == prev_symbol_v(old(self).nav@, old(self).data),
    {
        let len = if self.nav.search_query.len() == 0 {
            self.data.all_symbols.len()
        } else {
            self.nav.fuzzy_results.len()
        };
        if len == 0 {
            return;
        }
        if self.nav.selected_symbol_index == 0 {
            self.nav.selected_symbol_index = len - 1;
        } else {
            self.nav.selected_symbol_index = self.nav.selected_symbol_index - 1;
        }
        self.nav.symbol_selection = Some(self.nav.selected_symbol_index);
    }

    fn next_file(&mut self)
        ensures
            final(self).data == old(self).data,
            final(self).nav@ == next_file_v(old(self).nav@, old(self).data),
    {
        let len = if self.nav.search_query.len() == 0 {
            self.data.files.len()
        } else {
            self.nav.file_fuzzy_results.len()
        };
        if len == 0 {
            return;
        }
        self.nav.selected_file_index = wrap_next(self.nav.selected_file_index, len);
        self.nav.file_selection = Some(self.nav.selected_file_index);
    }

    fn previous_file(&mut self)
        ensures
            final(self).data == old(self).data,
            final(self).nav@ == prev_file_v(old(self).nav@, old(self).data),
    {
        let len = if self.nav.search_query.len() == 0 {
            self.data.files.len()
        } else {
            self.nav.file_fuzzy_results.len()
        };
        if len == 0 {
            return;
        }
        if self.nav.selected_file_index == 0 {
            self.nav.selected_file_index = len - 1;
        } else {
            self.nav.selected_file_index = self.nav.selected_file_index - 1;
        }
        self.nav.file_selection = Some(self.nav.selected_file_index);
    }

    fn next_vector(&mut self)
        ensures
            final(self).data == old(self).data,
            final(self).nav@ == next_vector_v(old(self).nav@, old(self).data),
    {
        if let Some(len) = self.data.vector_count {
            if len == 0 {
                return;
            }
            self.nav.selected_vector_index = wrap_next(self.nav.selected_vector_index, len);
            self.nav.vector_selection = Some(self.nav.selected_vector_index);
        }
    }

    fn previous_vector(&mut self)
        ensures
            final(self).data == old(self).data,
            final(self).nav@ == prev_vector_v(old(self).nav@, old(self).data),
    {
        if let Some(len) = self.data.vector_count {
            if len == 0 {
                return;
            }
            if self.nav.selected_vector_index == 0 {
                self.nav.selected_vector_index = len - 1;
            } else {
                self.nav.selected_vector_index = self.nav.selected_vector_index - 1;
            }
            self.nav.vector_selection = Some(self.nav.selected_vector_index);
        }
    }

    /// Scroll the memory map to the selected symbol.
    fn update_region_scroll(&mut self)
        requires
            data_wf(old(self).data),
            nav_wf(old(self).nav@, old(self).data),
        ensures
            final(self).data == old(self).data,
            final(self).nav@ == rescroll_v(old(self).nav@, old(self).data),
    {
        if self.data.symbols_by_address.len() == 0 {
            return;
        }
        let idx = self.data.symbols_by_address[self.nav.region_selected_symbol];
        assert(self.data.symbols_by_address@[self.nav.region_selected_symbol as int] < self.data.all_symbols@.len());
        let scroll = scroll_for_exec(
            &self.data.all_symbols,
            &self.data.symbols_by_address,
            &self.data.sections,
            self.nav.region_zoom_level,
            &self.data.all_symbols[idx],
        );
        self.nav.region_scroll = scroll;
    }

    fn region_next_symbol(&mut self)
        requires
            data_wf(old(self).data),
            nav_wf(old(self).nav@, old(self).data),
        ensures
            final(self).data == old(self).data,
            final(self).nav@ == region_next_v(old(self).nav@, old(self).data),
            nav_wf(final(self).nav@, final(self).data),
    {
        let len = self.data.symbols_by_address.len();
        if len == 0 {
            return;
        }
        self.nav.region_selected_symbol = (self.nav.region_selected_symbol + 1) % len;
        self.update_region_scroll();
    }

    fn region_previous_symbol(&mut self)
        requires
            data_wf(old(self).data),
            nav_wf(old(self).nav@, old(self).data),
        ensures
            final(self).data == old(self).data,
            final(self).nav@ == region_prev_v(old(self).nav@, old(self).data),
            nav_wf(final(self).nav@, final(self).data),
    {
        let len = self.data.symbols_by_address.len();
        if len == 0 {
            return;
        }
        if self.nav.region_selected_symbol == 0 {
            self.nav.region_selected_symbol = len - 1;
        } else {
            self.nav.region_selected_symbol = self.nav.region_selected_symbol - 1;
        }
        self.update_region_scroll();
    }

    fn region_zoom_in(&mut self)
        requires
            data_wf(old(self).data),
            nav_wf(old(self).nav@, old(self).data),
        ensures
            final(self).data == old(self).data,
            final(self).nav@ == zoom_in_v(old(self).nav@, old(self).data),
            nav_wf(final(self).nav@, final(self).data),
    {
        if self.nav.region_zoom_level < 3 {
            self.nav.region_zoom_level = self.nav.region_zoom_level + 1;
            self.update_region_scroll();
        }
    }

    fn region_zoom_out(&mut self)
        requires
            data_wf(old(self).data),
            nav_wf(old(self).nav@, old(self).data),
        ensures
            final(self).data == old(self).data,
            final(self).nav@ == zoom_out_v(old(self).nav@, old(self).data),
            nav_wf(final(self).nav@, final(self).data),
    {
        if self.nav.region_zoom_level > 0 {
            self.nav.region_zoom_level = self.nav.region_zoom_level - 1;
            self.update_region_scroll();
        }
    }
}

} // verus!
