//! Tests of fuzzy symbol search.
use memscope::models::{Symbol, SymbolBinding, SymbolType, SymbolVisibility};
use memscope::symbol::fuzzy::FuzzyMatcher;
fn create_test_symbol(name: &str) -> Symbol {
    Symbol {
        name: name.to_string(),
        address: 0,
        size: 0,
        symbol_type: SymbolType::Function,
        binding: SymbolBinding::Global,
        visibility: SymbolVisibility::Default,
        section_index: 0,
        source_file: None,
        section_name: None,
    }
}

#[test]
fn test_fuzzy_match_exact() {
    let matcher = FuzzyMatcher::new();
    let symbols = vec![
        create_test_symbol("uart_init"),
        create_test_symbol("spi_init"),
    ];

    let matches = matcher.search("uart_init", &symbols);
    assert!(!matches.is_empty());
    assert_eq!(symbols[matches[0].symbol_index].name, "uart_init");
}

#[test]
fn test_fuzzy_match_partial() {
    let matcher = FuzzyMatcher::new();
    let symbols = vec![
        create_test_symbol("uart_init"),
        create_test_symbol("uart_send"),
        create_test_symbol("spi_init"),
    ];

    let matches = matcher.search("uart", &symbols);
    assert_eq!(matches.len(), 2);
    // Both uart symbols should match
    assert!(symbols[matches[0].symbol_index].name.starts_with("uart"));
    assert!(symbols[matches[1].symbol_index].name.starts_with("uart"));
}

#[test]
fn test_fuzzy_match_scoring() {
    let matcher = FuzzyMatcher::new();
    let symbols = vec![
        create_test_symbol("uart_init"),  // Exact prefix match
        create_test_symbol("debug_uart"), // Contains uart
    ];

    let matches = matcher.search("uart", &symbols);
    // uart_init should score higher (prefix match)
    assert_eq!(symbols[matches[0].symbol_index].name, "uart_init");
}

#[test]
fn test_fuzzy_match_empty_query() {
    let matcher = FuzzyMatcher::new();
    let symbols = vec![create_test_symbol("uart_init")];

    let matches = matcher.search("", &symbols);
    assert!(matches.is_empty());
}
