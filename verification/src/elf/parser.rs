//! ELF binary parsing for ARM embedded systems: sections, symbols and
//! Flash/RAM usage totals.
use vstd::prelude::*;

use crate::elf::image::{ElfImage, ElfImageV, RawSection, RawSectionV, RawSymbolV, elf_contents, read_elf};
use crate::models::{
    MemoryLayout, MemoryRegion, MemorySection, SectionType, SectionTypeV, SectionV, Symbol,
    SymbolBinding, SymbolType, SymbolV, SymbolVisibility, opt_view, section_type_view,
    sections_view, symbols_view,
};
use crate::text::{
    chars_of, contains, contains_chars, dec, dec_u64, hex8, hex8_u64, push_chars, push_str,
    starts_with, starts_with_chars, str_contains, str_eq, str_lowercase, string_of, sub_chars,
    to_lowercase,
};

verus! {

/// Errors of ELF analysis.
#[derive(Debug)]
pub enum ElfError {
    /// `goblin` could not parse the file
    Parse(goblin::error::Error),
    /// The vector table has fewer than 4 bytes
    VectorTableTooSmall,
}

// ---------------------------------------------------------------------------
// Symbol classification
// ---------------------------------------------------------------------------

/// `STT_*` symbol type.
pub open spec fn symbol_type_of(t: u8) -> SymbolType {
    if t == 0 {
        SymbolType::NoType
    } else if t == 1 {
        SymbolType::Object
    } else if t == 2 {
        SymbolType::Function
    } else if t == 3 {
        SymbolType::Section
    } else if t == 4 {
        SymbolType::File
    } else if t == 5 {
        SymbolType::Common
    } else if t == 6 {
        SymbolType::Tls
    } else {
        SymbolType::Unknown
    }
}

/// `STB_*` symbol binding.
pub open spec fn binding_of(b: u8) -> SymbolBinding {
    if b == 0 {
        SymbolBinding::Local
    } else if b == 1 {
        SymbolBinding::Global
    } else if b == 2 {
        SymbolBinding::Weak
    } else {
        SymbolBinding::Unknown
    }
}

/// `STV_*` visibility, from the two low bits of `st_other`.
pub open spec fn visibility_of(o: u8) -> SymbolVisibility {
    let v = o & 3;
    if v == 1 {
        SymbolVisibility::Internal
    } else if v == 2 {
        SymbolVisibility::Hidden
    } else if v == 3 {
        SymbolVisibility::Protected
    } else {
        SymbolVisibility::Default
    }
}

/// Type nibble of `st_info` (what `goblin::elf::sym::st_type` returns).
pub open spec fn st_type(info: u8) -> u8 {
    info & 0xf
}

/// Binding nibble of `st_info` (what `goblin::elf::sym::st_bind` returns).
pub open spec fn st_bind(info: u8) -> u8 {
    info >> 4
}

/// A symbol built from a symbol table entry whose name resolved.
pub open spec fn symbol_of(sym: RawSymbolV, idx: int, source: Option<Seq<char>>) -> SymbolV {
    SymbolV {
        name: sym.name->0,
        address: sym.value,
        size: sym.size,
        symbol_type: symbol_type_of(st_type(sym.info)),
        binding: binding_of(st_bind(sym.info)),
        visibility: visibility_of(sym.other),
        section_index: idx as usize,
        source_file: source,
        section_name: None,
    }
}

/// Symbols among the first `n` entries whose section index equals
/// `name_offset` (the section's name offset, as the analysis compares them),
/// that have a size and a resolved name.
pub open spec fn section_symbols(syms: Seq<RawSymbolV>, name_offset: usize, n: int) -> Seq<SymbolV>
    decreases n,
{
    if n <= 0 {
        Seq::empty()
    } else {
        let rest = section_symbols(syms, name_offset, n - 1);
        let s = syms[n - 1];
        if s.shndx == name_offset && s.size > 0 && s.name is Some {
            rest.push(symbol_of(s, n - 1, None))
        } else {
            rest
        }
    }
}

// ---------------------------------------------------------------------------
// Section classification
// ---------------------------------------------------------------------------

/// Section type from the name, else from the flags (`SHF_EXECINSTR`,
/// `SHF_WRITE`) and type (`SHT_NOBITS`).
pub open spec fn classify_section_spec(name: Seq<char>, flags: u64, sh_type: u32) -> SectionTypeV {
    if starts_with(name, ".text"@) {
        SectionTypeV::Text
    } else if starts_with(name, ".rodata"@) {
        SectionTypeV::RoData
    } else if starts_with(name, ".data"@) {
        SectionTypeV::Data
    } else if starts_with(name, ".bss"@) {
        SectionTypeV::Bss
    } else if name == ".stack"@ || name == "._stack"@ {
        SectionTypeV::Stack
    } else if name == ".heap"@ || name == "._heap"@ {
        SectionTypeV::Heap
    } else if flags & 4 != 0 {
        SectionTypeV::Text
    } else if flags & 1 != 0 {
        if sh_type == 8 {
            SectionTypeV::Bss
        } else {
            SectionTypeV::Data
        }
    } else {
        SectionTypeV::Custom(name)
    }
}

/// The standard section names decide the type, whatever the flags and
/// header type: a name starting with `.text` is code, then `.rodata` read-only
/// data, then `.data` initialised data, then `.bss` uninitialised data.
/// Other names fall back to the flags: executable is code, writable is
/// `.bss`-like when it occupies no file space (`SHT_NOBITS`) and data
/// otherwise, and anything else keeps its own name.
pub proof fn law_section_type_from_name_then_flags(name: Seq<char>, flags: u64, sh_type: u32)
    ensures
        starts_with(name, ".text"@) ==> classify_section_spec(name, flags, sh_type) == SectionTypeV::Text,
        !starts_with(name, ".text"@) && starts_with(name, ".rodata"@) ==> classify_section_spec(
            name,
            flags,
            sh_type,
        ) == SectionTypeV::RoData,
        !starts_with(name, ".text"@) && !starts_with(name, ".rodata"@) && starts_with(name, ".data"@)
            ==> classify_section_spec(name, flags, sh_type) == SectionTypeV::Data,
        !starts_with(name, ".text"@) && !starts_with(name, ".rodata"@) && !starts_with(name, ".data"@)
            && starts_with(name, ".bss"@) ==> classify_section_spec(name, flags, sh_type)
            == SectionTypeV::Bss,
        !starts_with(name, ".text"@) && !starts_with(name, ".rodata"@) && !starts_with(name, ".data"@)
            && !starts_with(name, ".bss"@) && (name == ".stack"@ || name == "._stack"@)
            ==> classify_section_spec(name, flags, sh_type) == SectionTypeV::Stack,
        !starts_with(name, ".text"@) && !starts_with(name, ".rodata"@) && !starts_with(name, ".data"@)
            && !starts_with(name, ".bss"@) && (name == ".heap"@ || name == "._heap"@)
            ==> classify_section_spec(name, flags, sh_type) == SectionTypeV::Heap,
        !starts_with(name, ".text"@) && !starts_with(name, ".rodata"@) && !starts_with(name, ".data"@)
            && !starts_with(name, ".bss"@) && name != ".stack"@ && name != "._stack"@ && name
            != ".heap"@ && name != "._heap"@ ==> classify_section_spec(name, flags, sh_type) == (
        if flags & 4 != 0 {
            SectionTypeV::Text
        } else if flags & 1 != 0 && sh_type == 8 {
            SectionTypeV::Bss
        } else if flags & 1 != 0 {
            SectionTypeV::Data
        } else {
            SectionTypeV::Custom(name)
        }),
{
    reveal_strlit(".stack");
    reveal_strlit("._stack");
    reveal_strlit(".heap");
    reveal_strlit("._heap");
    assert(".heap"@[1] != ".stack"@[1] && ".heap"@[1] != "._stack"@[1]);
    assert("._heap"@[1] != ".stack"@[1] && "._heap"@[2] != "._stack"@[2]);
}

pub open spec fn name_or_empty(n: Option<Seq<char>>) -> Seq<char> {
    match n {
        Some(s) => s,
        None => Seq::empty(),
    }
}

/// Sections that occupy memory at run time: non-empty, with an address and `SHF_ALLOC`.
pub open spec fn section_kept(h: RawSectionV) -> bool {
    h.size != 0 && h.addr != 0 && (h.flags & 2) != 0
}

/// The memory sections among the first `n` section headers.
pub open spec fn image_sections(img: ElfImageV, n: int) -> Seq<SectionV>
    decreases n,
{
    if n <= 0 {
        Seq::empty()
    } else {
        let rest = image_sections(img, n - 1);
        let h = img.sections[n - 1];
        if section_kept(h) {
            let name = name_or_empty(h.name);
            rest.push(
                SectionV {
                    name,
                    address: h.addr,
                    size: h.size,
                    section_type: classify_section_spec(name, h.flags, h.sh_type),
                    symbols: section_symbols(img.symbols, h.name_offset, img.symbols.len() as int),
                },
            )
        } else {
            rest
        }
    }
}

// ---------------------------------------------------------------------------
// Memory ranges
// ---------------------------------------------------------------------------

/// Address range `[start, end)`.
pub type Range = (u64, u64);

pub open spec fn in_ranges(addr: u64, rs: Seq<Range>) -> bool {
    exists|i: int| 0 <= i < rs.len() && (#[trigger] rs[i]).0 <= addr && addr < rs[i].1
}

pub open spec fn region_range(r: MemoryRegion) -> Range {
    (r.origin, (r.origin + r.length) as u64)
}

pub open spec fn is_ram_name(lower: Seq<char>) -> bool {
    contains(lower, "ram"@) || contains(lower, "sram"@) || contains(lower, "tcm"@) || contains(
        lower,
        "ccm"@,
    )
}

pub open spec fn ram_excluded(lower: Seq<char>) -> bool {
    contains(lower, "noinit"@) || contains(lower, "spim"@) || contains(lower, "dma"@) || contains(
        lower,
        "shared"@,
    ) || contains(lower, "bootloader"@)
}

pub open spec fn is_flash_region(lower: Seq<char>, attributes: Seq<char>) -> bool {
    contains(lower, "flash"@) || contains(lower, "rom"@) || contains(lower, "text"@) || contains(
        attributes,
        "x"@,
    )
}

pub open spec fn flash_excluded(lower: Seq<char>) -> bool {
    contains(lower, "coredump"@) || contains(lower, "bootloader"@) || contains(lower, "uicr"@)
}

/// (RAM ranges, Flash ranges) of the first `n` regions, classified by name and attributes.
pub open spec fn named_ranges(rs: Seq<MemoryRegion>, n: int) -> (Seq<Range>, Seq<Range>)
    decreases n,
{
    if n <= 0 {
        (Seq::empty(), Seq::empty())
    } else {
        let (ram, flash) = named_ranges(rs, n - 1);
        let r = rs[n - 1];
        let lower = str_lowercase(r.name@);
        if is_ram_name(lower) {
            if !ram_excluded(lower) {
                (ram.push(region_range(r)), flash)
            } else {
                (ram, flash)
            }
        } else if is_flash_region(lower, r.attributes@) {
            if !flash_excluded(lower) {
                (ram, flash.push(region_range(r)))
            } else {
                (ram, flash)
            }
        } else {
            (ram, flash)
        }
    }
}

/// (RAM ranges, Flash ranges) of the first `n` regions, by the ARM Cortex-M address map.
pub open spec fn address_ranges(rs: Seq<MemoryRegion>, n: int) -> (Seq<Range>, Seq<Range>)
    decreases n,
{
    if n <= 0 {
        (Seq::empty(), Seq::empty())
    } else {
        let (ram, flash) = address_ranges(rs, n - 1);
        let r = rs[n - 1];
        if r.origin >= 0x2000_0000 && r.origin < 0x4000_0000 {
            (ram.push(region_range(r)), flash)
        } else if r.origin < 0x2000_0000 {
            (ram, flash.push(region_range(r)))
        } else {
            (ram, flash)
        }
    }
}

/// (RAM ranges, Flash ranges) of linker script regions: by name, or by
/// address when no region is classified by name.
pub open spec fn linker_ranges(rs: Seq<MemoryRegion>) -> (Seq<Range>, Seq<Range>) {
    let (ram, flash) = named_ranges(rs, rs.len() as int);
    if ram.len() == 0 && flash.len() == 0 {
        address_ranges(rs, rs.len() as int)
    } else {
        (ram, flash)
    }
}

pub open spec fn regions_fit(rs: Seq<MemoryRegion>) -> bool {
    forall|i: int| 0 <= i < rs.len() ==> (#[trigger] rs[i]).origin + rs[i].length <= u64::MAX
}

pub open spec fn is_code_type(t: SectionTypeV) -> bool {
    t is Text || t is RoData
}

pub open spec fn is_ram_type(t: SectionTypeV) -> bool {
    t is Data || t is Bss || t is Stack || t is Heap
}

/// Lowest start and highest end of the first `n` sections satisfying `p`.
pub open spec fn hull(s: Seq<SectionV>, n: int, p: spec_fn(SectionV) -> bool) -> Option<(int, int)>
    decreases n,
{
    if n <= 0 {
        None
    } else {
        let rest = hull(s, n - 1, p);
        let x = s[n - 1];
        if p(x) {
            let lo = x.address as int;
            let hi = x.address + x.size;
            match rest {
                None => Some((lo, hi)),
                Some((a, b)) => Some(
                    (
                        if lo < a {
                            lo
                        } else {
                            a
                        },
                        if hi > b {
                            hi
                        } else {
                            b
                        },
                    ),
                ),
            }
        } else {
            rest
        }
    }
}

/// (RAM ranges, Flash ranges) detected from the sections: Flash spans the
/// code sections; RAM spans the RAM-type sections, starting at the lowest
/// `.data`-type section when there is one. Without such sections the ARM
/// Cortex-M defaults apply.
pub open spec fn detected_ranges(s: Seq<SectionV>) -> (Seq<Range>, Seq<Range>) {
    let n = s.len() as int;
    let flash = match hull(s, n, |x: SectionV| is_code_type(x.section_type)) {
        Some((a, b)) => seq![(a as u64, b as u64)],
        None => seq![(0u64, 0x2000_0000u64)],
    };
    let ram = match hull(s, n, |x: SectionV| is_ram_type(x.section_type)) {
        Some((a, b)) => {
            let lo = match hull(s, n, |x: SectionV| x.section_type is Data) {
                Some((d, _)) => d,
                None => a,
            };
            seq![(lo as u64, b as u64)]
        },
        None => seq![(0x2000_0000u64, 0x4000_0000u64)],
    };
    (ram, flash)
}

/// The (RAM, Flash) ranges used for the totals.
pub open spec fn usage_ranges(s: Seq<SectionV>, regions: Option<Seq<MemoryRegion>>) -> (
    Seq<Range>,
    Seq<Range>,
) {
    match regions {
        Some(rs) => {
            let (ram, flash) = linker_ranges(rs);
            if ram.len() == 0 || flash.len() == 0 {
                detected_ranges(s)
            } else {
                (ram, flash)
            }
        },
        None => detected_ranges(s),
    }
}

/// Whether the section ranges are computed (no linker ranges for both kinds).
pub open spec fn uses_detection(regions: Option<Seq<MemoryRegion>>) -> bool {
    match regions {
        Some(rs) => {
            let (ram, flash) = linker_ranges(rs);
            ram.len() == 0 || flash.len() == 0
        },
        None => true,
    }
}

pub open spec fn vendor_config_name(name: Seq<char>) -> bool {
    contains(name, "uicr"@) || contains(name, "ficr"@) || contains(name, "bootloader"@)
}

/// Flash and RAM bytes used by the first `n` sections: code and read-only
/// data count as Flash; `.data` counts as Flash and, inside a RAM range, as RAM;
/// bss, stack and heap count as RAM inside a RAM range; other sections count
/// where their address falls, except vendor configuration sections.
pub open spec fn usage_totals(s: Seq<SectionV>, n: int, ram: Seq<Range>, flash: Seq<Range>) -> (
    int,
    int,
)
    decreases n,
{
    if n <= 0 {
        (0, 0)
    } else {
        let (f, r) = usage_totals(s, n - 1, ram, flash);
        let x = s[n - 1];
        match x.section_type {
            SectionTypeV::Text | SectionTypeV::RoData => (f + x.size, r),
            SectionTypeV::Data => (
                f + x.size,
                if in_ranges(x.address, ram) {
                    r + x.size
                } else {
                    r
                },
            ),
            SectionTypeV::Custom(name) => if vendor_config_name(name) {
                (f, r)
            } else if in_ranges(x.address, ram) {
                (f, r + x.size)
            } else if in_ranges(x.address, flash) {
                (f + x.size, r)
            } else {
                (f, r)
            },
            _ => (
                f,
                if in_ranges(x.address, ram) {
                    r + x.size
                } else {
                    r
                },
            ),
        }
    }
}

/// Sections whose end the range detection computes fit in 64 bits.
pub open spec fn typed_sections_fit(s: Seq<SectionV>) -> bool {
    forall|i: int|
        0 <= i < s.len() && !((#[trigger] s[i]).section_type is Custom) ==> s[i].address
            + s[i].size <= u64::MAX
}

/// Whether building the layout stays within 64-bit arithmetic (the
/// computation panics otherwise).
pub open spec fn layout_fits(img: ElfImageV, regions: Option<Seq<MemoryRegion>>) -> bool {
    let s = image_sections(img, img.sections.len() as int);
    let (ram, flash) = usage_ranges(s, regions);
    let (f, r) = usage_totals(s, s.len() as int, ram, flash);
    &&& (regions matches Some(rs) ==> regions_fit(rs))
    &&& (uses_detection(regions) ==> typed_sections_fit(s))
    &&& f <= u64::MAX
    &&& r <= u64::MAX
}

/// The layout built from an ELF image: its memory sections, no regions,
/// the Flash/RAM totals, and no configured sizes.
pub open spec fn image_layout(img: ElfImageV, regions: Option<Seq<MemoryRegion>>, l: MemoryLayout) -> bool {
    let s = image_sections(img, img.sections.len() as int);
    let (ram, flash) = usage_ranges(s, regions);
    let (f, r) = usage_totals(s, s.len() as int, ram, flash);
    &&& sections_view(l.sections@) == s
    &&& l.regions@.len() == 0
    &&& l.total_flash_used == f
    &&& l.total_ram_used == r
    &&& l.flash_size is None
    &&& l.ram_size is None
}

// ---------------------------------------------------------------------------
// Source files of symbols
// ---------------------------------------------------------------------------

/// The part of a path after its last `/`.
pub open spec fn file_name(path: Seq<char>) -> Seq<char>
    decreases path.len(),
{
    if path.len() == 0 {
        path
    } else if path.last() == '/' {
        Seq::empty()
    } else {
        file_name(path.drop_last()).push(path.last())
    }
}

/// The current source file after the first `n` symbol table entries: set by
/// each `STT_FILE` entry with a name (cleared by an empty name).
pub open spec fn current_file(syms: Seq<RawSymbolV>, n: int) -> Option<Seq<char>>
    decreases n,
{
    if n <= 0 {
        None
    } else {
        let prev = current_file(syms, n - 1);
        let s = syms[n - 1];
        if st_type(s.info) == 4 {
            match s.name {
                Some(nm) => if nm.len() > 0 {
                    Some(file_name(nm))
                } else {
                    None
                },
                None => prev,
            }
        } else {
            prev
        }
    }
}

/// All symbols with a size and a non-empty name among the first `n` entries,
/// except `STT_FILE` entries, with the source file declared before them.
pub open spec fn all_symbols(syms: Seq<RawSymbolV>, n: int) -> Seq<SymbolV>
    decreases n,
{
    if n <= 0 {
        Seq::empty()
    } else {
        let rest = all_symbols(syms, n - 1);
        let s = syms[n - 1];
        if st_type(s.info) != 4 && s.size != 0 && s.name is Some && s.name->0.len() > 0 {
            rest.push(symbol_of(s, n - 1, current_file(syms, n - 1)))
        } else {
            rest
        }
    }
}

/// Text of the ELF header summary.
pub open spec fn elf_info_text(img: ElfImageV) -> Seq<char> {
    "ELF Header:\n - Machine: "@ + dec(img.machine as nat) + "\n - Entry point: "@ + hex8(
        img.entry as nat,
    ) + "\n - Section count: "@ + dec(img.sections.len()) + "\n - Symbol count: "@ + dec(
        img.symbols.len(),
    )
}

// ---------------------------------------------------------------------------
// Parser
// ---------------------------------------------------------------------------

/// The linker regions, as a sequence when given.
pub open spec fn opt_regions(o: Option<&[MemoryRegion]>) -> Option<Seq<MemoryRegion>> {
    match o {
        Some(rs) => Some(rs@),
        None => None,
    }
}

/// The layout of the file `b` fits in 64 bits with these regions (a file
/// that is no ELF file has no layout to overflow).
pub open spec fn parse_fits(b: Seq<u8>, regions: Option<Seq<MemoryRegion>>) -> bool {
    elf_contents(b) matches Some(img) ==> layout_fits(img, regions)
}

/// Parser for ARM ELF binary files.
///
/// Extracts memory layout information including sections and symbols from
/// ELF files compiled with arm-none-eabi-gcc or similar toolchains.
pub struct ElfParser {
    bytes: Vec<u8>,
}

impl ElfParser {
    /// Create a parser over the bytes of an ELF file.
    pub fn new(bytes: Vec<u8>) -> (r: Self)
        ensures
            r.bytes_view() == bytes@,
    {
        ElfParser { bytes }
    }

    pub closed spec fn bytes_view(&self) -> Seq<u8> {
        self.bytes@
    }

    /// Raw ELF bytes for vector table parsing.
    pub fn get_bytes(&self) -> (r: &[u8])
        ensures
            r@ == self.bytes_view(),
    {
        self.bytes.as_slice()
    }

    /// Whether `parse` can build the layout with these linker regions: the
    /// file is no ELF file, or every sum the layout needs (region ends,
    /// section ends, the Flash and RAM totals) fits in 64 bits.
    pub fn layout_fits(&self, linker_regions: Option<&[MemoryRegion]>) -> (r: bool)
        ensures
            r == parse_fits(self.bytes_view(), opt_regions(linker_regions)),
    {
        match read_elf(self.bytes.as_slice()) {
            Ok(img) => layout_from_image(&img, linker_regions).is_some(),
            Err(_) => true,
        }
    }

    /// Parse the ELF file and extract the memory layout (sections with their
    /// symbols, and the Flash/RAM totals, classified with the linker script
    /// regions when given).
    pub fn parse(&self, linker_regions: Option<&[MemoryRegion]>) -> (r: Result<
        MemoryLayout,
        ElfError,
    >)
        requires
            parse_fits(self.bytes_view(), opt_regions(linker_regions)),
        ensures
            elf_contents(self.bytes_view()) is None <==> r is Err,
            r matches Err(e) ==> e is Parse,
            elf_contents(self.bytes_view()) matches Some(img) ==> (r matches Ok(l) && image_layout(
                img,
                opt_regions(linker_regions),
                l,
            )),
    {
        let img = match read_elf(self.bytes.as_slice()) {
            Ok(i) => i,
            Err(e) => {
                return Err(ElfError::Parse(e));
            },
        };
        let layout = layout_from_image(&img, linker_regions);
        Ok(layout.unwrap())
    }

    /// `parse`, when the layout fits in 64 bits (see `layout_fits`); `None`
    /// when it does not.
    pub fn parse_if_fits(&self, linker_regions: Option<&[MemoryRegion]>) -> (r: Option<
        Result<MemoryLayout, ElfError>,
    >)
        ensures
            r is None <==> !parse_fits(self.bytes_view(), opt_regions(linker_regions)),
            r matches Some(x) ==> {
                &&& elf_contents(self.bytes_view()) is None <==> x is Err
                &&& x matches Err(e) ==> e is Parse
                &&& elf_contents(self.bytes_view()) matches Some(img) ==> (x matches Ok(l)
                    && image_layout(img, opt_regions(linker_regions), l))
            },
    {
        if self.layout_fits(linker_regions) {
            Some(self.parse(linker_regions))
        } else {
            None
        }
    }

    /// Extract all symbols (with their source files when known).
    pub fn parse_all_symbols(&self) -> (r: Result<Vec<Symbol>, ElfError>)
        ensures
            elf_contents(self.bytes_view()) is None <==> r is Err,
            r matches Err(e) ==> e is Parse,
            r matches Ok(v) ==> elf_contents(self.bytes_view()) matches Some(img) && symbols_view(
                v@,
            ) == all_symbols(img.symbols, img.symbols.len() as int),
    {
        let img = match read_elf(self.bytes.as_slice()) {
            Ok(i) => i,
            Err(e) => {
                return Err(ElfError::Parse(e));
            },
        };
        Ok(symbols_from_image(&img))
    }

    /// ELF header information as text: machine, entry point, section and symbol counts.
    pub fn get_elf_info(&self) -> (r: Result<String, ElfError>)
        ensures
            elf_contents(self.bytes_view()) is None <==> r is Err,
            r matches Err(e) ==> e is Parse,
            r matches Ok(t) ==> elf_contents(self.bytes_view()) matches Some(img) && t@
                == elf_info_text(img),
    {
        let img = match read_elf(self.bytes.as_slice()) {
            Ok(i) => i,
            Err(e) => {
                return Err(ElfError::Parse(e));
            },
        };
        Ok(elf_info(&img))
    }
}

/// `STT_*` value to symbol type.
pub fn classify_symbol_type(st_type: u8) -> (r: SymbolType)
    ensures
        r == symbol_type_of(st_type),
{
    match st_type {
        0 => SymbolType::NoType,
        1 => SymbolType::Object,
        2 => SymbolType::Function,
        3 => SymbolType::Section,
        4 => SymbolType::File,
        5 => SymbolType::Common,
        6 => SymbolType::Tls,
        _ => SymbolType::Unknown,
    }
}

/// `STB_*` value to symbol binding.
pub fn classify_symbol_binding(st_bind: u8) -> (r: SymbolBinding)
    ensures
        r == binding_of(st_bind),
{
    match st_bind {
        0 => SymbolBinding::Local,
        1 => SymbolBinding::Global,
        2 => SymbolBinding::Weak,
        _ => SymbolBinding::Unknown,
    }
}

/// `st_other` to symbol visibility (two low bits).
pub fn classify_symbol_visibility(st_vis: u8) -> (r: SymbolVisibility)
    ensures
        r == visibility_of(st_vis),
{
    match st_vis & 0x3 {
        0 => SymbolVisibility::Default,
        1 => SymbolVisibility::Internal,
        2 => SymbolVisibility::Hidden,
        3 => SymbolVisibility::Protected,
        _ => SymbolVisibility::Default,
    }
}

fn make_symbol(img: &ElfImage, idx: usize, source: Option<String>) -> (r: Symbol)
    requires
        idx < img.symbols@.len(),
        img.symbols@[idx as int].name is Some,
    ensures
        r@ == symbol_of(img@.symbols[idx as int], idx as int, opt_view(source)),
{
    let sym = &img.symbols[idx];
    let name = match &sym.name {
        Some(n) => n.clone(),
        None => String::new(),
    };
    Symbol {
        name,
        address: sym.value,
        size: sym.size,
        symbol_type: classify_symbol_type(sym.info & 0xf),
        binding: classify_symbol_binding(sym.info >> 4),
        visibility: classify_symbol_visibility(sym.other),
        section_index: idx,
        source_file: source,
        section_name: None,
    }
}

/// Symbols of the section whose name offset is `name_offset`.
fn extract_symbols_for_section(img: &ElfImage, name_offset: usize) -> (r: Vec<Symbol>)
    ensures
        symbols_view(r@) == section_symbols(img@.symbols, name_offset, img@.symbols.len() as int),
{
    let ghost sy = img@.symbols;
    let mut out: Vec<Symbol> = Vec::new();
    let mut i: usize = 0;
    while i < img.symbols.len()
        invariant
            i <= img.symbols@.len(),
            sy == img@.symbols,
            sy.len() == img.symbols@.len(),
            symbols_view(out@) == section_symbols(sy, name_offset, i as int),
        decreases img.symbols.len() - i,
    {
        let s = &img.symbols[i];
        assert(sy[i as int] == img.symbols@[i as int]@);
        if s.shndx == name_offset && s.size > 0 && s.name.is_some() {
            let sym = make_symbol(img, i, None);
            let ghost before = symbols_view(out@);
            out.push(sym);
            assert(symbols_view(out@) =~= before.push(sym@));
        }
        i = i + 1;
    }
    out
}

fn classify_section(name: &String, h: &RawSection) -> (r: SectionType)
    ensures
        section_type_view(r) == classify_section_spec(name@, h.flags, h.sh_type),
{
    let n = chars_of(name.as_str());
    if starts_with_chars(n.as_slice(), chars_of(".text").as_slice()) {
        SectionType::Text
    } else if starts_with_chars(n.as_slice(), chars_of(".rodata").as_slice()) {
        SectionType::RoData
    } else if starts_with_chars(n.as_slice(), chars_of(".data").as_slice()) {
        SectionType::Data
    } else if starts_with_chars(n.as_slice(), chars_of(".bss").as_slice()) {
        SectionType::Bss
    } else if str_eq(name.as_str(), ".stack") || str_eq(name.as_str(), "._stack") {
        SectionType::Stack
    } else if str_eq(name.as_str(), ".heap") || str_eq(name.as_str(), "._heap") {
        SectionType::Heap
    } else if h.flags & 4 != 0 {
        SectionType::Text
    } else if h.flags & 1 != 0 {
        if h.sh_type == 8 {
            SectionType::Bss
        } else {
            SectionType::Data
        }
    } else {
        SectionType::Custom(name.clone())
    }
}

/// The memory sections of an ELF image.
fn image_memory_sections(img: &ElfImage) -> (r: Vec<MemorySection>)
    ensures
        sections_view(r@) == image_sections(img@, img@.sections.len() as int),
{
    let ghost iv = img@;
    let mut out: Vec<MemorySection> = Vec::new();
    let mut i: usize = 0;
    while i < img.sections.len()
        invariant
            i <= img.sections@.len(),
            iv == img@,
            iv.sections.len() == img.sections@.len(),
            sections_view(out@) == image_sections(iv, i as int),
        decreases img.sections.len() - i,
    {
        let h = &img.sections[i];
        assert(iv.sections[i as int] == img.sections@[i as int]@);
        if h.size != 0 && h.addr != 0 && (h.flags & 2) != 0 {
            let name = match &h.name {
                Some(n) => n.clone(),
                None => String::new(),
            };
            let section_type = classify_section(&name, h);
            let symbols = extract_symbols_for_section(img, h.name_offset);
            let sec = MemorySection { name, address: h.addr, size: h.size, section_type, symbols };
            let ghost before = sections_view(out@);
            out.push(sec);
            assert(sections_view(out@) =~= before.push(sec@));
        }
        i = i + 1;
    }
    out
}

fn in_ranges_exec(addr: u64, rs: &Vec<Range>) -> (r: bool)
    ensures
        r == in_ranges(addr, rs@),
{
    let mut i: usize = 0;
    while i < rs.len()
        invariant
            i <= rs@.len(),
            forall|j: int| 0 <= j < i ==> !((#[trigger] rs@[j]).0 <= addr && addr < rs@[j].1),
        decreases rs.len() - i,
    {
        if rs[i].0 <= addr && addr < rs[i].1 {
            return true;
        }
        i = i + 1;
    }
    false
}

/// RAM and Flash ranges from linker script regions, or `None` when a region end overflows.
fn extract_memory_regions(regions: &[MemoryRegion]) -> (r: Option<(Vec<Range>, Vec<Range>)>)
    ensures
        r is None <==> !regions_fit(regions@),
        r matches Some((ram, flash)) ==> (ram@, flash@) == linker_ranges(regions@),
{
    let mut ram: Vec<Range> = Vec::new();
    let mut flash: Vec<Range> = Vec::new();
    let mut i: usize = 0;
    while i < regions.len()
        invariant
            i <= regions@.len(),
            forall|j: int| 0 <= j < i ==> (#[trigger] regions@[j]).origin + regions@[j].length
                <= u64::MAX,
            (ram@, flash@) == named_ranges(regions@, i as int),
        decreases regions.len() - i,
    {
        let region = &regions[i];
        if region.origin > u64::MAX - region.length {
            return None;
        }
        let range = (region.origin, region.origin + region.length);
        let lower = to_lowercase(region.name.as_str());
        let l = lower.as_str();
        if str_contains(l, "ram") || str_contains(l, "sram") || str_contains(l, "tcm")
            || str_contains(l, "ccm") {
            if !str_contains(l, "noinit") && !str_contains(l, "spim") && !str_contains(l, "dma")
                && !str_contains(l, "shared") && !str_contains(l, "bootloader") {
                ram.push(range);
            }
        } else if str_contains(l, "flash") || str_contains(l, "rom") || str_contains(l, "text")
            || str_contains(region.attributes.as_str(), "x") {
            if !str_contains(l, "coredump") && !str_contains(l, "bootloader") && !str_contains(
                l,
                "uicr",
            ) {
                flash.push(range);
            }
        }
        i = i + 1;
    }
    if ram.len() == 0 && flash.len() == 0 {
        let mut j: usize = 0;
        while j < regions.len()
            invariant
                j <= regions@.len(),
                regions_fit(regions@),
                (ram@, flash@) == address_ranges(regions@, j as int),
            decreases regions.len() - j,
        {
            let region = &regions[j];
            assert(regions@[j as int].origin + regions@[j as int].length <= u64::MAX);
            let range = (region.origin, region.origin + region.length);
            if region.origin >= 0x2000_0000 && region.origin < 0x4000_0000 {
                ram.push(range);
            } else if region.origin < 0x2000_0000 {
                flash.push(range);
            }
            j = j + 1;
        }
    }
    Some((ram, flash))
}

/// Lowest start and highest end of the sections whose type satisfies `p`
/// (`0`: code, `1`: RAM types, `2`: `.data`), or `None` when an end overflows.
fn hull_exec(s: &Vec<MemorySection>, kind: u8) -> (r: Option<Option<(u64, u64)>>)
    requires
        kind < 3,
    ensures
        r matches Some(h) ==> (match h {
            Some((a, b)) => hull(sections_view(s@), s@.len() as int, kind_pred(kind)) == Some(
                (a as int, b as int),
            ),
            None => hull(sections_view(s@), s@.len() as int, kind_pred(kind)) is None,
        }),
        r is None ==> exists|i: int|
            0 <= i < s@.len() && kind_pred(kind)(sections_view(s@)[i]) && (#[trigger] s@[i]).address
                + s@[i].size > u64::MAX,
{
    let ghost sv = sections_view(s@);
    let mut cur: Option<(u64, u64)> = None;
    let mut i: usize = 0;
    while i < s.len()
        invariant
            i <= s@.len(),
            kind < 3,
            sv == sections_view(s@),
            sv.len() == s@.len(),
            match cur {
                Some((a, b)) => hull(sv, i as int, kind_pred(kind)) == Some((a as int, b as int)),
                None => hull(sv, i as int, kind_pred(kind)) is None,
            },
        decreases s.len() - i,
    {
        let x = &s[i];
        assert(sv[i as int] == s@[i as int]@);
        let hit = match x.section_type {
            SectionType::Text | SectionType::RoData => kind == 0,
            SectionType::Data => kind == 1 || kind == 2,
            SectionType::Bss | SectionType::Stack | SectionType::Heap => kind == 1,
            SectionType::Custom(_) => false,
        };
        assert(hit == kind_pred(kind)(sv[i as int]));
        if hit {
            if x.address > u64::MAX - x.size {
                return None;
            }
            let lo = x.address;
            let hi = x.address + x.size;
            cur = match cur {
                None => Some((lo, hi)),
                Some((a, b)) => Some(
                    (
                        if lo < a {
                            lo
                        } else {
                            a
                        },
                        if hi > b {
                            hi
                        } else {
                            b
                        },
                    ),
                ),
            };
        }
        i = i + 1;
    }
    Some(cur)
}

pub open spec fn kind_pred(kind: u8) -> spec_fn(SectionV) -> bool {
    if kind == 0 {
        |x: SectionV| is_code_type(x.section_type)
    } else if kind == 1 {
        |x: SectionV| is_ram_type(x.section_type)
    } else {
        |x: SectionV| x.section_type is Data
    }
}

/// RAM and Flash ranges detected from the sections, or `None` when a section end overflows.
fn detect_memory_regions_from_sections(s: &Vec<MemorySection>) -> (r: Option<
    (Vec<Range>, Vec<Range>),
>)
    ensures
        r is None <==> !typed_sections_fit(sections_view(s@)),
        r matches Some((ram, flash)) ==> (ram@, flash@) == detected_ranges(sections_view(s@)),
{
    let ghost sv = sections_view(s@);
    let code = hull_exec(s, 0);
    let rams = hull_exec(s, 1);
    let datas = hull_exec(s, 2);
    proof {
        assert(kind_pred(0) == (|x: SectionV| is_code_type(x.section_type)));
        assert(kind_pred(1) == (|x: SectionV| is_ram_type(x.section_type)));
        assert(kind_pred(2) == (|x: SectionV| x.section_type is Data));
    }
    match (code, rams, datas) {
        (Some(c), Some(rm), Some(d)) => {
            proof {
                lemma_typed_fit(s@, sv, c, rm, d);
            }
            let flash: Vec<Range> = match c {
                Some((a, b)) => vec![(a, b)],
                None => vec![(0u64, 0x2000_0000u64)],
            };
            let ram: Vec<Range> = match rm {
                Some((a, b)) => {
                    let lo = match d {
                        Some((x, _)) => x,
                        None => a,
                    };
                    vec![(lo, b)]
                },
                None => vec![(0x2000_0000u64, 0x4000_0000u64)],
            };
            assert(ram@ =~= detected_ranges(sv).0);
            assert(flash@ =~= detected_ranges(sv).1);
            Some((ram, flash))
        },
        _ => {
            proof {
                assert(!typed_sections_fit(sv)) by {
                    let k: u8 = if code is None {
                        0
                    } else if rams is None {
                        1
                    } else {
                        2
                    };
                    let i = choose|i: int|
                        0 <= i < s@.len() && kind_pred(k)(sections_view(s@)[i]) && (
                        #[trigger] s@[i]).address + s@[i].size > u64::MAX;
                    assert(sv[i] == s@[i]@);
                }
            }
            None
        },
    }
}

proof fn lemma_typed_fit(
    s: Seq<MemorySection>,
    sv: Seq<SectionV>,
    c: Option<(u64, u64)>,
    rm: Option<(u64, u64)>,
    d: Option<(u64, u64)>,
)
    requires
        sv == sections_view(s),
        match c {
            Some((a, b)) => hull(sv, s.len() as int, kind_pred(0)) == Some((a as int, b as int)),
            None => hull(sv, s.len() as int, kind_pred(0)) is None,
        },
        match rm {
            Some((a, b)) => hull(sv, s.len() as int, kind_pred(1)) == Some((a as int, b as int)),
            None => hull(sv, s.len() as int, kind_pred(1)) is None,
        },
    ensures
        typed_sections_fit(sv),
{
    assert forall|i: int|
        0 <= i < sv.len() && !((#[trigger] sv[i]).section_type is Custom) implies sv[i].address
        + sv[i].size <= u64::MAX by {
        let k: u8 = if is_code_type(sv[i].section_type) {
            0
        } else {
            1
        };
        lemma_hull_covers(sv, s.len() as int, kind_pred(k), i);
    }
}

proof fn lemma_hull_covers(s: Seq<SectionV>, n: int, p: spec_fn(SectionV) -> bool, i: int)
    requires
        0 <= i < n <= s.len(),
        p(s[i]),
    ensures
        hull(s, n, p) matches Some((a, b)) && s[i].address + s[i].size <= b,
    decreases n,
{
    if i < n - 1 {
        lemma_hull_covers(s, n - 1, p, i);
    }
}

/// Builds the layout of an ELF image: its memory sections, and the Flash/RAM
/// totals classified with the linker regions (when they give both a RAM and a
/// Flash range) or with ranges detected from the sections. `None` exactly
/// when a region end, a section end or a total exceeds 64 bits (where the
/// computation would overflow).
pub fn layout_from_image(img: &ElfImage, linker_regions: Option<&[MemoryRegion]>) -> (r: Option<
    MemoryLayout,
>)
    ensures
        ({
            let regions = match linker_regions {
                Some(rs) => Some(rs@),
                None => None,
            };
            &&& r is Some <==> layout_fits(img@, regions)
            &&& r matches Some(l) ==> image_layout(img@, regions, l)
        }),
{
    let ghost regions = match linker_regions {
        Some(rs) => Some(rs@),
        None => None::<Seq<MemoryRegion>>,
    };
    let sections = image_memory_sections(img);
    let ghost sv = sections_view(sections@);
    let (ram_regions, flash_regions) = match linker_regions {
        Some(rs) => {
            let (ram, flash) = match extract_memory_regions(rs) {
                Some(p) => p,
                None => {
                    return None;
                },
            };
            if ram.len() == 0 || flash.len() == 0 {
                match detect_memory_regions_from_sections(&sections) {
                    Some(p) => p,
                    None => {
                        return None;
                    },
                }
            } else {
                (ram, flash)
            }
        },
        None => match detect_memory_regions_from_sections(&sections) {
            Some(p) => p,
            None => {
                return None;
            },
        },
    };
    assert((ram_regions@, flash_regions@) == usage_ranges(sv, regions));
    let mut flash_used: u128 = 0;
    let mut ram_used: u128 = 0;
    let mut i: usize = 0;
    while i < sections.len()
        invariant
            i <= sections@.len(),
            sv == sections_view(sections@),
            sv.len() == sections@.len(),
            (flash_used as int, ram_used as int) == usage_totals(
                sv,
                i as int,
                ram_regions@,
                flash_regions@,
            ),
            flash_used <= u64::MAX * i,
            ram_used <= u64::MAX * i,
        decreases sections.len() - i,
    {
        let section = &sections[i];
        assert(sv[i as int] == sections@[i as int]@);
        let sz = section.size as u128;
        match &section.section_type {
            SectionType::Text | SectionType::RoData => {
                flash_used = flash_used + sz;
            },
            SectionType::Data => {
                flash_used = flash_used + sz;
                if in_ranges_exec(section.address, &ram_regions) {
                    ram_used = ram_used + sz;
                }
            },
            SectionType::Bss | SectionType::Stack | SectionType::Heap => {
                if in_ranges_exec(section.address, &ram_regions) {
                    ram_used = ram_used + sz;
                }
            },
            SectionType::Custom(name) => {
                let n = name.as_str();
                if str_contains(n, "uicr") || str_contains(n, "ficr") || str_contains(
                    n,
                    "bootloader",
                ) {
                } else if in_ranges_exec(section.address, &ram_regions) {
                    ram_used = ram_used + sz;
                } else if in_ranges_exec(section.address, &flash_regions) {
                    flash_used = flash_used + sz;
                }
            },
        }
        i = i + 1;
    }
    if flash_used > u64::MAX as u128 || ram_used > u64::MAX as u128 {
        return None;
    }
    let mut layout = MemoryLayout::new();
    layout.sections = sections;
    layout.total_flash_used = flash_used as u64;
    layout.total_ram_used = ram_used as u64;
    Some(layout)
}

/// All symbols of an ELF image: entries other than `STT_FILE` with a size and
/// a non-empty name, each with the source file named by the last preceding
/// `STT_FILE` entry (its part after the last `/`).
pub fn symbols_from_image(img: &ElfImage) -> (r: Vec<Symbol>)
    ensures
        symbols_view(r@) == all_symbols(img@.symbols, img@.symbols.len() as int),
{
    let ghost sy = img@.symbols;
    let mut out: Vec<Symbol> = Vec::new();
    let mut current: Option<String> = None;
    let mut i: usize = 0;
    while i < img.symbols.len()
        invariant
            i <= img.symbols@.len(),
            sy == img@.symbols,
            sy.len() == img.symbols@.len(),
            symbols_view(out@) == all_symbols(sy, i as int),
            opt_view(current) == current_file(sy, i as int),
        decreases img.symbols.len() - i,
    {
        let s = &img.symbols[i];
        assert(sy[i as int] == img.symbols@[i as int]@);
        let t = s.info & 0xf;
        if t == 4 {
            match &s.name {
                Some(nm) => {
                    if !nm.as_str().is_empty() {
                        current = Some(file_name_exec(nm.as_str()));
                    } else {
                        current = None;
                    }
                },
                None => {},
            }
        } else if s.size != 0 {
            match &s.name {
                Some(nm) => {
                    if !nm.as_str().is_empty() {
                        let src = crate::models::clone_opt_string(&current);
                        let sym = make_symbol(img, i, src);
                        let ghost before = symbols_view(out@);
                        out.push(sym);
                        assert(symbols_view(out@) =~= before.push(sym@));
                    }
                },
                None => {},
            }
        }
        i = i + 1;
    }
    out
}

/// The part of a path after its last `/`.
fn file_name_exec(path: &str) -> (r: String)
    ensures
        r@ == file_name(path@),
{
    let c = chars_of(path);
    let mut j = c.len();
    while j > 0 && c[j - 1] != '/'
        invariant
            j <= c@.len(),
            forall|k: int| j <= k < c@.len() ==> c@[k] != '/',
        decreases j,
    {
        j = j - 1;
    }
    let tail = sub_chars(c.as_slice(), j, c.len());
    proof {
        lemma_file_name(c@, j as int);
    }
    string_of(tail.as_slice())
}

proof fn lemma_file_name(p: Seq<char>, j: int)
    requires
        0 <= j <= p.len(),
        j == 0 || p[j - 1] == '/',
        forall|k: int| j <= k < p.len() ==> p[k] != '/',
    ensures
        file_name(p) == p.subrange(j, p.len() as int),
    decreases p.len(),
{
    if p.len() == 0 {
    } else if p.last() == '/' {
        assert(j == p.len());
        assert(p.subrange(j, p.len() as int) =~= Seq::<char>::empty());
    } else {
        lemma_file_name(p.drop_last(), j);
        assert(p.subrange(j, p.len() as int) =~= p.drop_last().subrange(j, p.len() - 1).push(
            p.last(),
        ));
    }
}

/// ELF header summary of an image.
pub fn elf_info(img: &ElfImage) -> (r: String)
    ensures
        r@ == elf_info_text(img@),
{
    let mut v: Vec<char> = Vec::new();
    push_str(&mut v, "ELF Header:\n - Machine: ");
    push_chars(&mut v, dec_u64(img.machine as u64).as_slice());
    push_str(&mut v, "\n - Entry point: ");
    push_chars(&mut v, hex8_u64(img.entry).as_slice());
    push_str(&mut v, "\n - Section count: ");
    push_chars(&mut v, dec_u64(img.sections.len() as u64).as_slice());
    push_str(&mut v, "\n - Symbol count: ");
    push_chars(&mut v, dec_u64(img.symbols.len() as u64).as_slice());
    assert(v@ =~= elf_info_text(img@));
    string_of(v.as_slice())
}

} // verus!
