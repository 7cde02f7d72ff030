//! The explorer's data preparation, statistics and key handling.
use memscope::models::{MemorySection, SectionType, Symbol, SymbolBinding, SymbolType, SymbolVisibility};
use memscope::symbol::fuzzy::{FuzzyMatcher, rank_matches};
use memscope::ui::explorer::{Explorer, Key, ViewTab};
use memscope::ui::stats::calculate_statistics;

fn sym(name: &str, address: u64, size: u64, t: SymbolType, file: Option<&str>) -> Symbol {
    Symbol {
        name: name.to_string(),
        address,
        size,
        symbol_type: t,
        binding: SymbolBinding::Global,
        visibility: SymbolVisibility::Default,
        section_index: 1,
        source_file: file.map(|f| f.to_string()),
        section_name: None,
    }
}

fn sec(name: &str, address: u64, size: u64) -> MemorySection {
    MemorySection { name: name.to_string(), address, size, section_type: SectionType::Text, symbols: vec![] }
}

fn sample() -> (Vec<MemorySection>, Vec<Symbol>) {
    let sections = vec![sec(".text", 0x0, 0x1000), sec(".data", 0x2000_0000, 0x100)];
    let symbols = vec![
        sym("uart_init", 0x100, 40, SymbolType::Function, Some("uart.c")),
        sym("uart_send", 0x200, 400, SymbolType::Function, Some("uart.c")),
        sym("buffer", 0x2000_0010, 2048, SymbolType::Object, Some("main.c")),
        sym("x", 0, 0, SymbolType::NoType, None),
        sym("hal::init", 0x300, 20000, SymbolType::Function, None),
    ];
    (sections, symbols)
}

#[test]
fn test_explorer_data_preparation() {
    let (sections, symbols) = sample();
    let e = Explorer::new(&sections, &symbols, Some(3));
    let names: Vec<&str> = e.data.all_symbols.iter().map(|s| s.name.as_str()).collect();
    assert_eq!(names, vec!["hal::init", "buffer", "uart_send", "uart_init", "x"]);
    assert_eq!(e.data.files, vec!["UNKNOWN", "main.c", "uart.c"]);
    assert_eq!(e.data.file_symbols, vec![vec![0, 4], vec![1], vec![2, 3]]);
    // "x" has no address: left out; the rest by address
    assert_eq!(e.data.symbols_by_address, vec![3, 2, 0, 1]);
    assert_eq!(e.data.sections, vec![(0, 0x1000), (0x2000_0000, 0x100)]);
    assert_eq!(e.nav.section_selection, Some(0));
    assert_eq!(e.nav.vector_selection, Some(0));
    assert_eq!(e.nav.current_tab, ViewTab::Memory);
}

#[test]
fn test_statistics_counts_and_namespaces() {
    let (_, symbols) = sample();
    let st = calculate_statistics(&symbols);
    assert_eq!(st.total_count, 5);
    assert_eq!(st.function_count, 3);
    assert_eq!(st.object_count, 1);
    assert_eq!(st.other_count, 1);
    assert_eq!(st.tiny_count, 2);
    assert_eq!(st.small_count, 1);
    assert_eq!(st.medium_count, 1);
    assert_eq!(st.large_count, 1);
    assert_eq!(st.top_10_largest, vec![0, 1, 2, 3, 4]);
    assert_eq!(
        st.namespaces,
        vec![("uart".to_string(), 2, 440), ("hal".to_string(), 1, 20000)]
    );
}

#[test]
fn test_key_navigation_and_search() {
    let (sections, symbols) = sample();
    let mut e = Explorer::new(&sections, &symbols, None);
    assert!(e.handle_key(Key::Down));
    assert_eq!(e.nav.selected_section, 1);
    assert!(e.handle_key(Key::Char('j')));
    assert_eq!(e.nav.selected_section, 0);
    assert!(e.handle_key(Key::Up));
    assert_eq!(e.nav.selected_section, 1);
    assert!(e.handle_key(Key::PageDown));
    assert_eq!(e.nav.detail_scroll, 5);
    assert!(e.handle_key(Key::Char('2')));
    assert_eq!(e.nav.current_tab, ViewTab::Symbols);
    assert!(e.handle_key(Key::Up));
    assert_eq!(e.nav.selected_symbol_index, 4);
    assert!(e.handle_key(Key::Char('/')));
    assert!(e.nav.search_mode);
    for c in "uart".chars() {
        assert!(e.handle_key(Key::Char(c)));
    }
    assert_eq!(e.nav.search_query, vec!['u', 'a', 'r', 't']);
    assert_eq!(e.nav.fuzzy_results.len(), 2);
    assert_eq!(e.nav.selected_symbol_index, 0);
    // q types into the query in search mode
    assert!(e.handle_key(Key::Char('q')));
    assert!(e.nav.fuzzy_results.is_empty());
    assert!(e.handle_key(Key::Backspace));
    assert_eq!(e.nav.fuzzy_results.len(), 2);
    assert!(e.handle_key(Key::Enter));
    assert!(!e.nav.search_mode);
    assert_eq!(e.nav.fuzzy_results.len(), 2);
    assert!(e.handle_key(Key::Tab));
    assert_eq!(e.nav.current_tab, ViewTab::Files);
    assert!(e.nav.search_query.is_empty());
    assert!(e.handle_key(Key::Char('h')));
    assert!(e.nav.show_help);
    assert!(!e.handle_key(Key::Char('q')));
}

#[test]
fn test_region_zoom_scrolls_to_selected_symbol() {
    // many symbols in one section so that the selected one sits low in the map
    let sections = vec![sec(".text", 0, 0x10000)];
    let symbols: Vec<Symbol> = (0..40u64)
        .map(|i| sym(&format!("f{}", i), 0x10 + i * 0x10, 1000 - i, SymbolType::Function, None))
        .collect();
    let mut e = Explorer::new(&sections, &symbols, None);
    assert!(e.handle_key(Key::Char('5')));
    for _ in 0..30 {
        assert!(e.handle_key(Key::Down));
    }
    assert_eq!(e.nav.region_selected_symbol, 30);
    assert_eq!(e.nav.region_scroll, 0);
    assert!(e.handle_key(Key::Char('z')));
    assert!(e.handle_key(Key::Char('z')));
    assert!(e.handle_key(Key::Char('z')));
    assert_eq!(e.nav.region_zoom_level, 3);
    // line 3 + 1 (section) + position 30 by size, minus 10
    assert_eq!(e.nav.region_scroll, 24);
    assert!(e.handle_key(Key::Char('Z')));
    assert_eq!(e.nav.region_zoom_level, 2);
    // not among the ten listed: position 0
    assert_eq!(e.nav.region_scroll, 0);
    assert!(e.handle_key(Key::PageUp));
    assert_eq!(e.nav.region_scroll, 0);
}

#[test]
fn test_rank_matches_keeps_candidate_order_on_ties() {
    let ranked = rank_matches(vec![Some((5, vec![0])), None, Some((9, vec![1])), Some((5, vec![2]))]);
    let order: Vec<(usize, i64)> = ranked.iter().map(|m| (m.symbol_index, m.score)).collect();
    assert_eq!(order, vec![(2, 9), (0, 5), (3, 5)]);
    assert_eq!(ranked[1].matched_indices, vec![0]);
}

#[test]
fn test_fuzzy_strings_and_single_symbol() {
    let m = FuzzyMatcher::new();
    let files = vec!["main.c".to_string(), "uart.c".to_string()];
    let hits = m.search_strings("uart", &files);
    assert_eq!(hits.len(), 1);
    assert_eq!(hits[0].symbol_index, 1);
    assert!(m.search_strings("", &files).is_empty());
    let s = sym("spi_init", 0, 0, SymbolType::Function, None);
    let one = m.match_symbol("spi", &s).unwrap();
    assert_eq!(one.symbol_index, 0);
    assert_eq!(one.matched_indices, vec![0, 1, 2]);
    assert!(m.match_symbol("zzz", &s).is_none());
}
