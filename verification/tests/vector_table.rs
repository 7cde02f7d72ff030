//! Reading, marking and summarising vector tables.
use memscope::elf::image::{ElfImage, RawSection};
use memscope::elf::parser::ElfError;
use memscope::models::{
    Symbol, SymbolBinding, SymbolType, SymbolVisibility, VectorEntry, VectorEntryType,
    VectorStatus, VectorTable,
};
use memscope::vector::analyzer::VectorAnalyzer;
use memscope::vector::database::ArmDatabase;
use memscope::vector::parser::VectorTableParser;

fn section(name: &str, addr: u64, offset: u64, size: u64) -> RawSection {
    RawSection {
        name: Some(name.to_string()),
        name_offset: 0,
        sh_type: 1,
        flags: 0,
        addr,
        offset,
        size,
    }
}

fn image(sections: Vec<RawSection>) -> ElfImage {
    ElfImage { sections, symbols: vec![], machine: 40, entry: 0 }
}

fn func(name: &str, address: u64, size: u64) -> Symbol {
    Symbol {
        name: name.to_string(),
        address,
        size,
        symbol_type: SymbolType::Function,
        binding: SymbolBinding::Global,
        visibility: SymbolVisibility::Default,
        section_index: 1,
        source_file: None,
        section_name: None,
    }
}

fn words(ws: &[u32]) -> Vec<u8> {
    let mut b = Vec::new();
    for w in ws {
        b.extend_from_slice(&w.to_le_bytes());
    }
    b
}

#[test]
fn test_parse_image_reads_entries() {
    // 16 bytes of padding, then the table
    let mut bytes = vec![0u8; 16];
    bytes.extend(words(&[0x2001_0000, 0x0800_0101, 0x0800_0201, 0, 0xFFFF_FFFF]));
    let img = image(vec![section(".text", 0x0800_0000, 0, 4), section(".isr_vector", 0x0800_0000, 16, 20)]);
    let symbols = vec![func("Reset_Handler", 0x0800_0100, 64), func("Default_Handler", 0x0800_0201, 2)];
    let parser = VectorTableParser::new();
    let table = parser.parse_image(&img, &bytes, &symbols).unwrap().unwrap();
    assert_eq!(table.base_address, 0x0800_0000);
    assert_eq!(table.initial_stack_pointer, 0x2001_0000);
    assert_eq!(table.table_size, 20);
    assert_eq!(table.entries.len(), 5);
    assert_eq!(table.mcu_family, None);
    let sp = &table.entries[0];
    assert_eq!(sp.entry_type, VectorEntryType::StackPointer);
    assert_eq!(sp.handler_name.as_deref(), Some("__stack_top__"));
    assert_eq!(sp.description, "Initial Stack Pointer");
    // Thumb bit cleared to find the symbol at 0x08000100
    let reset = &table.entries[1];
    assert_eq!(reset.offset, 4);
    assert_eq!(reset.irq_number, -15);
    assert_eq!(reset.handler_name.as_deref(), Some("Reset_Handler"));
    assert_eq!(reset.handler_size, 64);
    assert!(matches!(reset.status, VectorStatus::Implemented));
    assert_eq!(reset.description, "Reset Handler");
    assert_eq!(reset.entry_type, VectorEntryType::CoreException);
    let nmi = &table.entries[2];
    assert!(matches!(nmi.status, VectorStatus::DefaultHandler));
    assert_eq!(nmi.irq_number, -14);
    assert!(matches!(table.entries[3].status, VectorStatus::Invalid));
    assert!(matches!(table.entries[4].status, VectorStatus::Invalid));
    assert_eq!(table.entries[4].description, "Memory Management Fault");
}

#[test]
fn test_parse_image_text_fallback_reads_first_kib() {
    let bytes = vec![0u8; 4096];
    let img = image(vec![section(".text", 0, 0, 4096)]);
    let parser = VectorTableParser::new();
    let table = parser.parse_image(&img, &bytes, &[]).unwrap().unwrap();
    assert_eq!(table.table_size, 1024);
    assert_eq!(table.entries.len(), 256);
    assert_eq!(table.entries[255].irq_number, 239);
    assert_eq!(table.entries[255].entry_type, VectorEntryType::DeviceIRQ);
    assert_eq!(table.entries[255].description, "Device IRQ 239");
    assert!(matches!(table.entries[255].status, VectorStatus::Invalid));
}

#[test]
fn test_parse_image_errors() {
    let parser = VectorTableParser::new();
    let none = parser.parse_image(&image(vec![section(".data", 0, 0, 8)]), &[0u8; 8], &[]);
    assert!(matches!(none, Ok(None)));
    // a table running past the end of the file is not read at all
    assert!(!parser.image_table_fits(&image(vec![section(".vectors", 0, 4, 8)]), &[0u8; 8]));
    assert!(parser.image_table_fits(&image(vec![section(".vectors", 0, 0, 8)]), &[0u8; 8]));
    assert!(parser.image_table_fits(&image(vec![section(".data", 0, 4, 8)]), &[0u8; 8]));
    let small = parser.parse_image(&image(vec![section(".intvec", 0, 0, 3)]), &[0u8; 8], &[]);
    assert!(matches!(small, Err(ElfError::VectorTableTooSmall)));
}

#[test]
fn test_parse_rejects_non_elf_bytes() {
    let parser = VectorTableParser::new();
    let r = parser.parse(&[1, 2, 3, 4], &[]);
    assert!(matches!(r, Err(ElfError::Parse(_))));
}

#[test]
fn test_mcu_family_from_vector_count() {
    let bytes = vec![0u8; 82 * 4];
    let img = image(vec![section(".isr_vector", 0x0800_0000, 0, 82 * 4)]);
    let table = VectorTableParser::new().parse_image(&img, &bytes, &[]).unwrap().unwrap();
    assert_eq!(table.mcu_family.as_deref(), Some("STM32F0xx"));
}

fn entry(irq: i16, addr: u64, name: Option<&str>, size: u64, status: VectorStatus) -> VectorEntry {
    VectorEntry {
        offset: ((irq + 16) as u64) * 4,
        irq_number: irq,
        handler_address: addr,
        handler_name: name.map(|n| n.to_string()),
        handler_size: size,
        entry_type: if irq < 0 { VectorEntryType::CoreException } else { VectorEntryType::DeviceIRQ },
        status,
        description: ArmDatabase::new().get_description(irq),
    }
}

fn stack_entry() -> VectorEntry {
    VectorEntry {
        offset: 0,
        irq_number: 0,
        handler_address: 0x2001_0000,
        handler_name: Some("__stack_top__".to_string()),
        handler_size: 0,
        entry_type: VectorEntryType::StackPointer,
        status: VectorStatus::Unassigned,
        description: "Initial Stack Pointer".to_string(),
    }
}

#[test]
fn test_shared_handlers_marked_and_reported() {
    let mut table = VectorTable {
        base_address: 0x0800_0000,
        initial_stack_pointer: 0x2001_0000,
        entries: vec![
            stack_entry(),
            entry(-15, 0x0800_0101, Some("Reset_Handler"), 64, VectorStatus::Implemented),
            entry(0, 0x0800_0301, Some("Default_Handler"), 2, VectorStatus::DefaultHandler),
            entry(1, 0x0800_0301, Some("Default_Handler"), 2, VectorStatus::DefaultHandler),
            entry(2, 0x0800_0301, None, 0, VectorStatus::Unassigned),
        ],
        table_size: 20,
        mcu_family: None,
    };
    let stats = VectorAnalyzer::new().analyze(&mut table);
    match &table.entries[2].status {
        VectorStatus::Shared(n) => assert_eq!(n, "Default_Handler"),
        other => panic!("unexpected {:?}", other),
    }
    assert!(matches!(table.entries[4].status, VectorStatus::Unassigned));
    assert_eq!(stats.total_vectors, 5);
    assert_eq!(stats.shared_handlers, 2);
    assert_eq!(stats.custom_handlers, 1);
    assert_eq!(stats.unassigned_handlers, 1);
    assert_eq!(stats.core_exceptions, 1);
    assert_eq!(stats.device_irqs, 3);
    assert_eq!(
        stats.warnings[0],
        "Shared handler at 0x08000301: 3 vectors share the same implementation: Default_Handler (IRQ 0), Default_Handler (IRQ 1)"
    );
    // the table is 20 bytes: a 32-byte boundary is required, 0x08000000 is aligned
    assert_eq!(stats.warnings.len(), 1);
}

#[test]
fn test_warnings_for_critical_invalid_oversized_and_alignment() {
    let mut table = VectorTable {
        base_address: 0x0800_0008,
        initial_stack_pointer: 0x2001_0000,
        entries: vec![
            stack_entry(),
            entry(-15, 0x0800_0101, Some("Reset_Handler"), 600, VectorStatus::Implemented),
            entry(-14, 0, None, 0, VectorStatus::Invalid),
            entry(-13, 0x0800_0401, Some("Default_Handler"), 2, VectorStatus::DefaultHandler),
        ],
        table_size: 16,
        mcu_family: None,
    };
    let stats = VectorAnalyzer::new().analyze(&mut table);
    assert_eq!(
        stats.warnings,
        vec![
            "CRITICAL: Non-Maskable Interrupt (NMI) (IRQ -14) has invalid/NULL handler - will crash!".to_string(),
            "CRITICAL: Hard Fault Handler (IRQ -13) uses default handler - will infinite loop on fault!".to_string(),
            "ERROR: Non-Maskable Interrupt (NMI) (IRQ -14) has NULL handler address".to_string(),
            "WARNING: Reset_Handler handler is very large (600 bytes) - consider offloading work to a task".to_string(),
            "ERROR: Vector table at 0x08000008 is misaligned! Required alignment: 16 bytes (table size: 16 bytes)".to_string(),
        ]
    );
    assert_eq!(stats.invalid_handlers, 1);
    assert_eq!(stats.default_handlers, 1);
}

#[test]
fn test_format_stats_exact_text() {
    let mut table = VectorTable {
        base_address: 0,
        initial_stack_pointer: 0x2001_0000,
        entries: vec![
            stack_entry(),
            entry(-15, 0x0800_0101, Some("Reset_Handler"), 64, VectorStatus::Implemented),
            entry(-14, 0x0800_0201, Some("Default_Handler"), 2, VectorStatus::DefaultHandler),
        ],
        table_size: 12,
        mcu_family: None,
    };
    let analyzer = VectorAnalyzer::new();
    let stats = analyzer.analyze(&mut table);
    let text = analyzer.format_stats(&stats);
    assert_eq!(
        text,
        "Total Vectors:       3\nCustom Handlers:     1 (33.3%)\nDefault Handlers:    1 (33.3%)\nShared Handlers:     0 (0.0%)\nInvalid Handlers:    0\nUnassigned Handlers: 0\n\nCore Exceptions:     2\nDevice IRQs:         0\nWarnings:\n  - CRITICAL: Non-Maskable Interrupt (NMI) (IRQ -14) uses default handler - will infinite loop on fault!\n"
    );
    // one decimal as the floating point formatting gives it
    assert_eq!(format!("{:.1}", (1f64 / 3f64) * 100.0), "33.3");
}

#[test]
fn test_database_descriptions_and_hints() {
    let db = ArmDatabase::new();
    assert_eq!(db.get_description(5), "Device IRQ 5");
    assert_eq!(db.get_description(-7), "Reserved");
    assert_eq!(db.get_description(-3), "Reserved");
    assert_eq!(db.get_description(-20), "Unknown Exception");
    assert_eq!(db.get_handler_name_hint(-2), Some("PendSV_Handler"));
    assert_eq!(db.get_handler_name_hint(3), None);
    assert_eq!(db.detect_mcu_family(48).as_deref(), Some("nRF52832/nRF52840"));
    assert_eq!(db.detect_mcu_family(49), None);
    assert!(db.is_critical_exception(-15));
    assert!(!db.is_critical_exception(-9));
    assert!(db.is_default_handler_name("__default_handler"));
}
