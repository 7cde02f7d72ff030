//! Tests of the ARM exception database.
use memscope::vector::database::ArmDatabase;
#[test]
fn test_core_exceptions() {
    let db = ArmDatabase::new();
    assert_eq!(db.get_description(-15), "Reset Handler");
    assert_eq!(db.get_description(-13), "Hard Fault Handler");
    assert_eq!(db.get_description(-1), "System Tick Timer (SysTick)");
}

#[test]
fn test_is_critical() {
    let db = ArmDatabase::new();
    assert!(db.is_critical_exception(-13)); // HardFault
    assert!(db.is_critical_exception(-12)); // MemManage
    assert!(!db.is_critical_exception(-1)); // SysTick
    assert!(!db.is_critical_exception(0)); // Device IRQ
}

#[test]
fn test_default_handler_detection() {
    let db = ArmDatabase::new();
    assert!(db.is_default_handler_name("Default_Handler"));
    assert!(db.is_default_handler_name("DefaultHandler"));
    assert!(!db.is_default_handler_name("USB_Handler"));
}
