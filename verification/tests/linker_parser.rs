//! Tests of linker script parsing.
use memscope::linker::api::{extract_value, parse_number, parse_region_line, parse_size, remove_comments};
use memscope::linker::parser::parse_memory_regions;
#[test]
fn test_parse_number_hex() {
    assert_eq!(parse_number("0x1000"), Some(4096));
    assert_eq!(parse_number("0X1000"), Some(4096));
    assert_eq!(parse_number("0x27000"), Some(0x27000));
}

#[test]
fn test_parse_number_decimal() {
    assert_eq!(parse_number("4096"), Some(4096));
    assert_eq!(parse_number("262144"), Some(262144));
}

#[test]
fn test_parse_size_with_k_suffix() {
    assert_eq!(parse_size("256K"), Some(262144));
    assert_eq!(parse_size("4k"), Some(4096));
    assert_eq!(parse_size("512K"), Some(524288));
}

#[test]
fn test_parse_size_with_m_suffix() {
    assert_eq!(parse_size("1M"), Some(1048576));
    assert_eq!(parse_size("2m"), Some(2097152));
}

#[test]
fn test_parse_size_expression() {
    assert_eq!(parse_size("512K - 32K"), Some(491520));
    assert_eq!(parse_size("1M + 256K"), Some(1310720));
    assert_eq!(parse_size("(512K - 32K)"), Some(491520));
}

#[test]
fn test_remove_comments() {
    let input = "FLASH /* comment */ (rx)";
    let output = remove_comments(input);
    assert!(output.contains("FLASH"));
    assert!(output.contains("(rx)"));
    assert!(!output.contains("comment"));
}

#[test]
fn test_remove_line_comments() {
    let input = "FLASH (rx) // line comment\nRAM (rwx)";
    let output = remove_comments(input);
    assert!(output.contains("FLASH"));
    assert!(output.contains("RAM"));
    assert!(!output.contains("line comment"));
}

#[test]
fn test_parse_region_standard_syntax() {
    let line = "FLASH (rx) : ORIGIN = 0x08000000, LENGTH = 512K";
    let region = parse_region_line(line).expect("Failed to parse");

    assert_eq!(region.name, "FLASH");
    assert_eq!(region.origin, 0x08000000);
    assert_eq!(region.length, 524288);
    assert_eq!(region.attributes, "rx");
}

#[test]
fn test_parse_region_alternative_keywords() {
    let line = "RAM (rwx) : org = 0x20000000, len = 128K";
    let region = parse_region_line(line).expect("Failed to parse");

    assert_eq!(region.name, "RAM");
    assert_eq!(region.origin, 0x20000000);
    assert_eq!(region.length, 131072);
}

#[test]
fn test_parse_region_short_keywords() {
    let line = "CCMRAM : o = 0x10000000, l = 64K";
    let region = parse_region_line(line).expect("Failed to parse");

    assert_eq!(region.name, "CCMRAM");
    assert_eq!(region.origin, 0x10000000);
    assert_eq!(region.length, 65536);
    assert_eq!(region.attributes, "");
}

#[test]
fn test_parse_region_no_attributes() {
    let line = "RAM : ORIGIN = 0x20000000, LENGTH = 256K";
    let region = parse_region_line(line).expect("Failed to parse");

    assert_eq!(region.name, "RAM");
    assert_eq!(region.attributes, "");
}

#[test]
fn test_parse_full_memory_block() {
    let content = r#"
    MEMORY {
        FLASH (rx)  : ORIGIN = 0x00027000, LENGTH = 0x90000
        RAM (rwx)   : ORIGIN = 0x20006000, LENGTH = 0x3A000
        NOINIT (rw) : ORIGIN = 0x20002C00, LENGTH = 0x1400
    }
    "#;

    let regions = parse_memory_regions(content).expect("Failed to parse");

    assert_eq!(regions.len(), 3);
    assert_eq!(regions[0].name, "FLASH");
    assert_eq!(regions[1].name, "RAM");
    assert_eq!(regions[2].name, "NOINIT");
}

#[test]
fn test_parse_with_comments() {
    let content = r#"
    MEMORY {
        /* Application Flash */
        FLASH (rx) : ORIGIN = 0x8000, LENGTH = 512K  /* 512KB total */

        // Main SRAM
        RAM (rwx)  : ORIGIN = 0x20000000, LENGTH = 128K
    }
    "#;

    let regions = parse_memory_regions(content).expect("Failed to parse");

    assert_eq!(regions.len(), 2);
    assert_eq!(regions[0].name, "FLASH");
    assert_eq!(regions[1].name, "RAM");
}

#[test]
fn test_skip_zero_length_regions() {
    let content = r#"
    MEMORY {
        FLASH (rx) : ORIGIN = 0x08000000, LENGTH = 512K
        UNUSED (r) : ORIGIN = 0x60000000, LENGTH = 0
        RAM (rwx)  : ORIGIN = 0x20000000, LENGTH = 128K
    }
    "#;

    let regions = parse_memory_regions(content).expect("Failed to parse");

    assert_eq!(regions.len(), 2);
    assert_eq!(regions[0].name, "FLASH");
    assert_eq!(regions[1].name, "RAM");
}

#[test]
fn test_extract_value() {
    let line = "RAM (rwx) : ORIGIN = 0x20000000, LENGTH = 256K";

    assert_eq!(
        extract_value(line, "ORIGIN"),
        Some("0x20000000".to_string())
    );
    assert_eq!(extract_value(line, "LENGTH"), Some("256K".to_string()));
}

#[test]
fn test_nrf52840_linker_script() {
    let content = r#"
    MEMORY
    {
      FLASH (rx)     : ORIGIN = 0x00027000, LENGTH = 0x90000
      COREDUMP (rx)  : ORIGIN = 0x000b7000, LENGTH = 0x3e000
      RAM (rwx)      : ORIGIN = 0x20006000, LENGTH = 0x3A000
      NOINIT (rwx)   : ORIGIN = 0x20002C00, LENGTH = 0x1400
    }
    "#;

    let regions = parse_memory_regions(content).expect("Failed to parse");

    assert_eq!(regions.len(), 4);

    // Verify FLASH
    assert_eq!(regions[0].name, "FLASH");
    assert_eq!(regions[0].origin, 0x00027000);
    assert_eq!(regions[0].length, 0x90000);

    // Verify RAM
    let ram = regions.iter().find(|r| r.name == "RAM").unwrap();
    assert_eq!(ram.origin, 0x20006000);
    assert_eq!(ram.length, 0x3A000);
}
