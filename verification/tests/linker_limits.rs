//! Sizes of linker script regions at the limit of 64 bits, and scripts whose
//! parsing would fail outright.
use memscope::linker::api::{parse_size, size_would_overflow};
use memscope::linker::parser::{LinkerError, linker_content_would_panic, parse_memory_regions};

#[test]
fn test_size_overflow_is_detected_before_parsing() {
    assert!(!size_would_overflow("256K"));
    assert!(!size_would_overflow("16777215M"));
    assert!(size_would_overflow("18014398509481984K"));
    assert!(size_would_overflow("17592186044416M"));
    // not a size at all: nothing to overflow
    assert!(!size_would_overflow("16383P"));
    assert_eq!(parse_size("16383P"), None);
    assert!(size_would_overflow("18446744073709551615 + 1"));
    assert!(!size_would_overflow("18446744073709551615"));
    assert_eq!(parse_size("18446744073709551615"), Some(u64::MAX));
}

#[test]
fn test_memory_block_errors() {
    let no_block = "SECTIONS { }";
    assert!(!linker_content_would_panic(no_block));
    assert_eq!(parse_memory_regions(no_block).unwrap_err(), LinkerError::NoMemoryBlock);
    let unclosed = "MEMORY { FLASH (rx) : ORIGIN = 0x0, LENGTH = 1K";
    assert!(!linker_content_would_panic(unclosed));
    assert_eq!(parse_memory_regions(unclosed).unwrap_err(), LinkerError::NoClosingBrace);
    let empty = "MEMORY { }";
    assert_eq!(parse_memory_regions(empty).unwrap_err(), LinkerError::NoValidRegions);
    assert_eq!(
        LinkerError::NoValidRegions.message(),
        "No valid memory regions found in MEMORY block"
    );
}
