//! The contents of an ELF file that the analysis reads, as plain values,
//! and the one call into `goblin` that produces them.
use vstd::prelude::*;

use crate::models::opt_view;

verus! {

/// A section header with its resolved name.
#[derive(Debug)]
pub struct RawSection {
    /// Name from the section header string table, if the offset resolves
    pub name: Option<String>,
    /// Offset of the name in the section header string table (`sh_name`)
    pub name_offset: usize,
    /// Section type (`sh_type`)
    pub sh_type: u32,
    /// Section flags (`sh_flags`)
    pub flags: u64,
    /// Virtual address (`sh_addr`)
    pub addr: u64,
    /// File offset (`sh_offset`)
    pub offset: u64,
    /// Size in bytes (`sh_size`)
    pub size: u64,
}

/// A symbol table entry with its resolved name.
#[derive(Debug)]
pub struct RawSymbol {
    /// Name from the symbol string table, if the offset resolves
    pub name: Option<String>,
    /// Type and binding (`st_info`)
    pub info: u8,
    /// Visibility (`st_other`)
    pub other: u8,
    /// Section index (`st_shndx`)
    pub shndx: usize,
    /// Value / address (`st_value`)
    pub value: u64,
    /// Size (`st_size`)
    pub size: u64,
}

/// What the analysis reads from an ELF file.
#[derive(Debug)]
pub struct ElfImage {
    /// Section headers in file order
    pub sections: Vec<RawSection>,
    /// Entries of the symbol table (`.symtab`) in order
    pub symbols: Vec<RawSymbol>,
    /// Machine type (`e_machine`)
    pub machine: u16,
    /// Entry point (`e_entry`)
    pub entry: u64,
}

impl RawSection {
    /// A section header with the given fields.
    pub fn new(name: Option<String>, name_offset: usize, sh_type: u32, flags: u64, addr: u64, offset: u64, size: u64) -> (r: Self)
        ensures
            r == (RawSection { name, name_offset, sh_type, flags, addr, offset, size }),
    {
        RawSection { name, name_offset, sh_type, flags, addr, offset, size }
    }
}

impl RawSymbol {
    /// A symbol table entry with the given fields.
    pub fn new(name: Option<String>, info: u8, other: u8, shndx: usize, value: u64, size: u64) -> (r: Self)
        ensures
            r == (RawSymbol { name, info, other, shndx, value, size }),
    {
        RawSymbol { name, info, other, shndx, value, size }
    }
}

pub struct RawSectionV {
    pub name: Option<Seq<char>>,
    pub name_offset: usize,
    pub sh_type: u32,
    pub flags: u64,
    pub addr: u64,
    pub offset: u64,
    pub size: u64,
}

impl View for RawSection {
    type V = RawSectionV;

    open spec fn view(&self) -> RawSectionV {
        RawSectionV {
            name: opt_view(self.name),
            name_offset: self.name_offset,
            sh_type: self.sh_type,
            flags: self.flags,
            addr: self.addr,
            offset: self.offset,
            size: self.size,
        }
    }
}

pub struct RawSymbolV {
    pub name: Option<Seq<char>>,
    pub info: u8,
    pub other: u8,
    pub shndx: usize,
    pub value: u64,
    pub size: u64,
}

impl View for RawSymbol {
    type V = RawSymbolV;

    open spec fn view(&self) -> RawSymbolV {
        RawSymbolV {
            name: opt_view(self.name),
            info: self.info,
            other: self.other,
            shndx: self.shndx,
            value: self.value,
            size: self.size,
        }
    }
}

pub struct ElfImageV {
    pub sections: Seq<RawSectionV>,
    pub symbols: Seq<RawSymbolV>,
    pub machine: u16,
    pub entry: u64,
}

impl View for ElfImage {
    type V = ElfImageV;

    open spec fn view(&self) -> ElfImageV {
        ElfImageV {
            sections: self.sections@.map_values(|h: RawSection| h@),
            symbols: self.symbols@.map_values(|s: RawSymbol| s@),
            machine: self.machine,
            entry: self.entry,
        }
    }
}

#[verifier::external_type_specification]
#[verifier::external_body]
pub struct ExGoblinError(goblin::error::Error);

/// What `goblin::elf::Elf::parse` reads from `bytes`: `None` when it fails,
/// else the section headers, symbols (with names resolved through the
/// string tables by `Strtab::get_at`), machine and entry point.
pub uninterp spec fn elf_contents(bytes: Seq<u8>) -> Option<ElfImageV>;

/// Calls `goblin::elf::Elf::parse` on `bytes` and copies out the section
/// headers (names looked up in the section header string table), the symbol
/// table (names looked up in the string table), `e_machine` and `e_entry`.
/// The contract only names the outcome: it is a function of the bytes.
#[verifier::external_body]
pub(crate) fn read_elf(bytes: &[u8]) -> (r: Result<ElfImage, goblin::error::Error>)
    ensures
        r is Ok <==> elf_contents(bytes@) is Some,
        r matches Ok(img) ==> elf_contents(bytes@) == Some(img@),
{
    let e = goblin::elf::Elf::parse(bytes)?;
    let name = |t: &goblin::strtab::Strtab, o: usize| t.get_at(o).map(String::from);
    let sections = e.section_headers.iter().map(|h| RawSection::new(name(&e.shdr_strtab, h.sh_name), h.sh_name, h.sh_type, h.sh_flags, h.sh_addr, h.sh_offset, h.sh_size)).collect();
    let symbols = e.syms.iter().map(|s| RawSymbol::new(name(&e.strtab, s.st_name), s.st_info, s.st_other, s.st_shndx, s.st_value, s.st_size)).collect();
    Ok(ElfImage { sections, symbols, machine: e.header.e_machine, entry: e.header.e_entry })
}

} // verus!
