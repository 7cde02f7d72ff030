//! Building a layout from ELF section headers: totals that fit in 64 bits,
//! totals that do not, and bytes that are no ELF file.
use memscope::elf::image::{ElfImage, RawSection};
use memscope::elf::parser::{ElfError, ElfParser, layout_from_image};

fn section(name: &str, addr: u64, size: u64, flags: u64) -> RawSection {
    RawSection { name: Some(name.to_string()), name_offset: 0, sh_type: 1, flags, addr, offset: 0, size }
}

fn image(sections: Vec<RawSection>) -> ElfImage {
    ElfImage { sections, symbols: vec![], machine: 40, entry: 0 }
}

#[test]
fn test_layout_totals_fit() {
    let img = image(vec![
        section(".text", 0x100, 0x200, 0x6),
        section(".comment", 0x0, 0x40, 0x0),
        section(".rodata", 0x300, 0x80, 0x2),
    ]);
    let layout = layout_from_image(&img, None).unwrap();
    // the unallocated section is left out
    assert_eq!(layout.sections.len(), 2);
    assert_eq!(layout.total_flash_used, 0x280);
    assert_eq!(layout.total_ram_used, 0);
}

#[test]
fn test_layout_totals_overflow() {
    let img = image(vec![
        section(".text", 0x100, u64::MAX - 0x1000, 0x6),
        section(".rodata", 0x200, 0x2000, 0x2),
    ]);
    assert!(layout_from_image(&img, None).is_none());
}

#[test]
fn test_parse_bytes_that_are_no_elf() {
    let parser = ElfParser::new(vec![1, 2, 3, 4]);
    assert!(parser.layout_fits(None));
    assert!(matches!(parser.parse(None), Err(ElfError::Parse(_))));
    assert!(matches!(parser.parse_if_fits(None), Some(Err(ElfError::Parse(_)))));
    assert!(parser.parse_all_symbols().is_err());
    assert!(parser.get_elf_info().is_err());
}
