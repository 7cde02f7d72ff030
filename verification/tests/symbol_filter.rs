//! Tests of symbol filtering.
use memscope::models::{Symbol, SymbolBinding, SymbolType, SymbolVisibility};
use memscope::symbol::filter::{FilterCriteria, SymbolFilter};
fn create_test_symbol(name: &str, size: u64, sym_type: SymbolType) -> Symbol {
    Symbol {
        name: name.to_string(),
        address: 0x1000,
        size,
        symbol_type: sym_type,
        binding: SymbolBinding::Global,
        visibility: SymbolVisibility::Default,
        section_index: 0,
        source_file: None,
        section_name: None,
    }
}

#[test]
fn test_filter_by_type() {
    let symbols = vec![
        create_test_symbol("func1", 100, SymbolType::Function),
        create_test_symbol("var1", 50, SymbolType::Object),
        create_test_symbol("func2", 200, SymbolType::Function),
    ];

    let filter = SymbolFilter::new(FilterCriteria {
        types: Some(vec![SymbolType::Function]),
        ..Default::default()
    });

    let filtered = filter.filter(&symbols);
    assert_eq!(filtered.len(), 2);
    assert!(
        filtered
            .iter()
            .all(|s| s.symbol_type == SymbolType::Function)
    );
}

#[test]
fn test_filter_by_size_range() {
    let symbols = vec![
        create_test_symbol("small", 50, SymbolType::Function),
        create_test_symbol("medium", 150, SymbolType::Function),
        create_test_symbol("large", 500, SymbolType::Function),
    ];

    let filter = SymbolFilter::new(FilterCriteria {
        size_min: Some(100),
        size_max: Some(300),
        ..Default::default()
    });

    let filtered = filter.filter(&symbols);
    assert_eq!(filtered.len(), 1);
    assert_eq!(filtered[0].name, "medium");
}

#[test]
fn test_no_filter() {
    let symbols = vec![
        create_test_symbol("sym1", 100, SymbolType::Function),
        create_test_symbol("sym2", 200, SymbolType::Object),
    ];

    let filter = SymbolFilter::new(FilterCriteria::default());
    let filtered = filter.filter(&symbols);
    assert_eq!(filtered.len(), 2);
}

fn in_section(name: &str, section: Option<&str>) -> Symbol {
    let mut s = create_test_symbol(name, 16, SymbolType::Object);
    s.section_name = section.map(|n| n.to_string());
    s
}

#[test]
fn test_filter_by_section_names() {
    let symbols = vec![
        in_section("a", Some(".data")),
        in_section("b", Some(".bss")),
        in_section("c", Some(".text")),
        in_section("d", None),
    ];
    let mut criteria = FilterCriteria::default();
    criteria.section_names = Some(vec![".data".to_string(), ".bss".to_string()]);
    let filter = SymbolFilter::new(criteria);
    let kept: Vec<&str> = filter.filter(&symbols).iter().map(|s| s.name.as_str()).collect();
    assert_eq!(kept, vec!["a", "b"]);
    assert!(!filter.matches(&symbols[2]));
    assert!(!filter.matches(&symbols[3]));
}
