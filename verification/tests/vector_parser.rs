//! Tests of vector table parsing.
use memscope::vector::parser::VectorTableParser;
#[test]
fn test_parser_creation() {
    let parser = VectorTableParser::new();
    assert!(parser.database().is_core_exception(-13)); // HardFault
}

#[test]
fn test_irq_numbering() {
    // Reset handler is at offset 0x04 (index 1)
    // IRQ number should be 1 - 16 = -15
    let irq = (1 as i16) - 16;
    assert_eq!(irq, -15);
}
