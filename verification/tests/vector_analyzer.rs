//! Tests of vector table analysis.
use memscope::models::{VectorEntry, VectorEntryType, VectorStatus, VectorTable};
use memscope::vector::analyzer::VectorAnalyzer;
#[test]
fn test_analyzer_basic() {
    let analyzer = VectorAnalyzer::new();

    let entries = vec![
        VectorEntry {
            offset: 0,
            irq_number: 0,
            handler_address: 0x20010000,
            handler_name: Some("__stack_top__".to_string()),
            handler_size: 0,
            entry_type: VectorEntryType::StackPointer,
            status: VectorStatus::Unassigned,
            description: "Initial Stack Pointer".to_string(),
        },
        VectorEntry {
            offset: 4,
            irq_number: -15,
            handler_address: 0x08000100,
            handler_name: Some("Reset_Handler".to_string()),
            handler_size: 64,
            entry_type: VectorEntryType::CoreException,
            status: VectorStatus::Implemented,
            description: "Reset Handler".to_string(),
        },
    ];

    let mut table = VectorTable {
        base_address: 0x08000000,
        initial_stack_pointer: 0x20010000,
        entries,
        table_size: 256,
        mcu_family: None,
    };

    let stats = analyzer.analyze(&mut table);
    assert_eq!(stats.total_vectors, 2);
    assert_eq!(stats.custom_handlers, 1);
    assert_eq!(stats.core_exceptions, 1);
}
