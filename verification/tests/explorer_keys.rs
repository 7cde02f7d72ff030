//! The explorer's key promises on concrete states: quitting, leaving a
//! search, tabs, help, zoom and moves that undo each other.
use memscope::models::{MemorySection, SectionType, Symbol, SymbolBinding, SymbolType, SymbolVisibility};
use memscope::ui::explorer::{Explorer, Key, ViewTab};

fn sym(name: &str, address: u64, size: u64) -> Symbol {
    Symbol {
        name: name.to_string(),
        address,
        size,
        symbol_type: SymbolType::Function,
        binding: SymbolBinding::Global,
        visibility: SymbolVisibility::Default,
        section_index: 1,
        source_file: None,
        section_name: None,
    }
}

fn explorer() -> Explorer {
    let sections = vec![
        MemorySection { name: ".text".to_string(), address: 0, size: 0x1000, section_type: SectionType::Text, symbols: vec![] },
        MemorySection { name: ".rodata".to_string(), address: 0x1000, size: 0x100, section_type: SectionType::RoData, symbols: vec![] },
        MemorySection { name: ".data".to_string(), address: 0x2000_0000, size: 0x100, section_type: SectionType::Data, symbols: vec![] },
    ];
    let symbols: Vec<Symbol> = (0..20u64).map(|i| sym(&format!("fn_{}", i), 0x10 + 0x20 * i, 100 + i)).collect();
    Explorer::new(&sections, &symbols, Some(4))
}

#[test]
fn test_quit_keys_change_nothing() {
    let mut e = explorer();
    assert!(e.handle_key(Key::Down));
    let before = (e.nav.selected_section, e.nav.current_tab, e.nav.detail_scroll);
    assert!(!e.handle_key(Key::Esc));
    assert_eq!((e.nav.selected_section, e.nav.current_tab, e.nav.detail_scroll), before);
    assert!(!e.handle_key(Key::Char('q')));
}

#[test]
fn test_escape_clears_search_enter_keeps_it() {
    let mut e = explorer();
    assert!(e.handle_key(Key::Char('2')));
    assert!(e.handle_key(Key::Char('/')));
    assert!(e.handle_key(Key::Char('f')));
    assert!(e.handle_key(Key::Char('1')));
    assert!(!e.nav.fuzzy_results.is_empty());
    assert!(e.handle_key(Key::Enter));
    assert!(!e.nav.search_mode);
    assert_eq!(e.nav.search_query, vec!['f', '1']);
    assert!(e.handle_key(Key::Char('/')));
    assert!(e.handle_key(Key::Esc));
    assert!(!e.nav.search_mode);
    assert!(e.nav.search_query.is_empty());
    assert!(e.nav.fuzzy_results.is_empty());
    assert_eq!(e.nav.current_tab, ViewTab::Symbols);
}

#[test]
fn test_number_keys_and_tab_cycle() {
    let mut e = explorer();
    let expected = [
        ('1', ViewTab::Memory),
        ('2', ViewTab::Symbols),
        ('3', ViewTab::Files),
        ('4', ViewTab::Statistics),
        ('5', ViewTab::RegionExplorer),
        ('6', ViewTab::VectorTable),
    ];
    for (c, tab) in expected {
        assert!(e.handle_key(Key::Char(c)));
        assert_eq!(e.nav.current_tab, tab);
    }
    assert!(e.handle_key(Key::Char('3')));
    let mut seen = vec![];
    for _ in 0..6 {
        assert!(e.handle_key(Key::Tab));
        seen.push(e.nav.current_tab);
    }
    assert_eq!(
        seen,
        vec![
            ViewTab::Statistics,
            ViewTab::RegionExplorer,
            ViewTab::VectorTable,
            ViewTab::Memory,
            ViewTab::Symbols,
            ViewTab::Files
        ]
    );
}

#[test]
fn test_help_toggles_back() {
    let mut e = explorer();
    assert!(e.handle_key(Key::Char('h')));
    assert!(e.nav.show_help);
    assert!(e.handle_key(Key::Char('?')));
    assert!(!e.nav.show_help);
}

#[test]
fn test_zoom_in_then_out_and_down_then_up() {
    let mut e = explorer();
    assert!(e.handle_key(Key::Char('5')));
    for _ in 0..15 {
        assert!(e.handle_key(Key::Down));
    }
    let (zoom, scroll) = (e.nav.region_zoom_level, e.nav.region_scroll);
    assert!(e.handle_key(Key::Char('z')));
    assert_eq!(e.nav.region_zoom_level, zoom + 1);
    assert!(e.handle_key(Key::Char('Z')));
    assert_eq!((e.nav.region_zoom_level, e.nav.region_scroll), (zoom, scroll));

    assert!(e.handle_key(Key::Char('1')));
    for start in 0..3 {
        assert_eq!(e.nav.selected_section, start);
        assert!(e.handle_key(Key::Up));
        assert!(e.handle_key(Key::Down));
        assert_eq!(e.nav.selected_section, start);
        assert!(e.handle_key(Key::Down));
        assert!(e.handle_key(Key::Up));
        assert_eq!(e.nav.selected_section, start);
        assert!(e.handle_key(Key::Down));
    }
    assert_eq!(e.nav.selected_section, 0);
}
