//! Vector table parsing from ARM ELF binaries: finding the table's section,
//! decoding its little-endian 32-bit entries and resolving handler symbols.
use vstd::prelude::*;

use crate::elf::image::{ElfImage, RawSectionV, elf_contents, read_elf};
use crate::elf::parser::ElfError;
use crate::models::{Symbol, VectorEntry, VectorEntryType, VectorStatus, VectorTable, opt_view};
use crate::text::str_eq;
use crate::vector::database::{
    ArmDatabase, core_descriptions, description_of, is_default_name, mcu_family_of,
};

verus! {

/// Section names that hold a vector table.
pub open spec fn is_vector_section_name(n: Seq<char>) -> bool {
    ||| n == ".isr_vector"@
    ||| n == ".vectors"@
    ||| n == ".vector_table"@
    ||| n == ".isr_vectors"@
    ||| n == ".intvec"@
}

/// First section from index `i` on with a vector table name.
pub open spec fn first_vector_section(s: Seq<RawSectionV>, i: int) -> Option<int>
    decreases s.len() - i,
{
    if i < 0 || i >= s.len() {
        None
    } else if s[i].name matches Some(n) && is_vector_section_name(n) {
        Some(i)
    } else {
        first_vector_section(s, i + 1)
    }
}

/// First section from index `i` on called `.text`.
pub open spec fn first_text_section(s: Seq<RawSectionV>, i: int) -> Option<int>
    decreases s.len() - i,
{
    if i < 0 || i >= s.len() {
        None
    } else if s[i].name == Some(".text"@) {
        Some(i)
    } else {
        first_text_section(s, i + 1)
    }
}

/// The section holding the vector table, and whether it is `.text` (vectors
/// embedded at the start of the code, as on Nordic nRF parts).
pub open spec fn vector_section(s: Seq<RawSectionV>) -> Option<(int, bool)> {
    match first_vector_section(s, 0) {
        Some(i) => Some((i, false)),
        None => match first_text_section(s, 0) {
            Some(i) => Some((i, true)),
            None => None,
        },
    }
}

/// Bytes of the table read: the whole section, or its first KiB for `.text`.
pub open spec fn table_bytes(h: RawSectionV, is_text: bool) -> u64 {
    if is_text && h.size > 1024 {
        1024
    } else {
        h.size
    }
}

/// The little-endian 32-bit word at `o`.
pub open spec fn le32(b: Seq<u8>, o: int) -> u64 {
    (b[o] + 256 * b[o + 1] + 65536 * b[o + 2] + 16777216 * b[o + 3]) as u64
}

/// IRQ number of entry `i`: `i - 16` (Reset, entry 1, is IRQ -15), in 16 bits.
pub open spec fn irq_of(i: usize) -> i16 {
    vstd::wrapping::i16_specs::wrapping_sub(i as i16, 16)
}

/// `addr` with the Thumb bit cleared.
pub open spec fn without_thumb(addr: u64) -> u64 {
    (addr - addr % 2) as u64
}

/// First symbol from index `i` on at `addr`, with or without the Thumb bit.
pub open spec fn first_symbol_at(s: Seq<Symbol>, addr: u64, i: int) -> Option<int>
    decreases s.len() - i,
{
    if i < 0 || i >= s.len() {
        None
    } else if s[i].address == addr || s[i].address == without_thumb(addr) {
        Some(i)
    } else {
        first_symbol_at(s, addr, i + 1)
    }
}

/// The handler name, size and status of an entry pointing at `addr`.
pub open spec fn handler_is(name: Option<String>, size: u64, status: VectorStatus, addr: u64, s: Seq<Symbol>) -> bool {
    if addr == 0 || addr == 0xFFFF_FFFF {
        name is None && size == 0 && status == VectorStatus::Invalid
    } else {
        match first_symbol_at(s, addr, 0) {
            Some(k) => {
                &&& opt_view(name) == Some(s[k].name@)
                &&& size == s[k].size
                &&& status == if is_default_name(s[k].name@) {
                    VectorStatus::DefaultHandler
                } else {
                    VectorStatus::Implemented
                }
            },
            None => name is None && size == 0 && status == VectorStatus::Unassigned,
        }
    }
}

/// Entry `i` (at least 1) of a table, holding the address `addr`.
pub open spec fn handler_entry_is(e: VectorEntry, i: usize, addr: u64, s: Seq<Symbol>) -> bool {
    &&& e.offset == 4 * i
    &&& e.irq_number == irq_of(i)
    &&& e.handler_address == addr
    &&& handler_is(e.handler_name, e.handler_size, e.status, addr, s)
    &&& e.entry_type == if irq_of(i) < 0 {
        VectorEntryType::CoreException
    } else {
        VectorEntryType::DeviceIRQ
    }
    &&& e.description@ == description_of(irq_of(i))
}

/// The stack pointer entry (entry 0).
pub open spec fn stack_entry_is(e: VectorEntry, sp: u64) -> bool {
    &&& e.offset == 0
    &&& e.irq_number == 0
    &&& e.handler_address == sp
    &&& opt_view(e.handler_name) == Some("__stack_top__"@)
    &&& e.handler_size == 0
    &&& e.entry_type == VectorEntryType::StackPointer
    &&& e.status == VectorStatus::Unassigned
    &&& e.description@ == "Initial Stack Pointer"@
}

/// `t` is the table read from the `size` bytes of section `h` in the file `b`.
pub open spec fn table_is(t: VectorTable, h: RawSectionV, size: u64, b: Seq<u8>, s: Seq<Symbol>) -> bool {
    let n = (size / 4) as usize;
    &&& t.base_address == h.addr
    &&& t.initial_stack_pointer == le32(b, h.offset as int)
    &&& t.table_size == size
    &&& t.entries@.len() == n
    &&& stack_entry_is(t.entries@[0], le32(b, h.offset as int))
    &&& forall|i: int| #![trigger t.entries@[i]] 1 <= i < n ==> handler_entry_is(
        t.entries@[i],
        i as usize,
        le32(b, h.offset + 4 * i),
        s,
    )
    &&& opt_view(t.mcu_family) == mcu_family_of(n)
}

/// The bytes of the vector table (if any) lie within the file: reading them
/// does not run past its end.
pub open spec fn table_in_bounds(secs: Seq<RawSectionV>, b: Seq<u8>) -> bool {
    match vector_section(secs) {
        None => true,
        Some((k, is_text)) => secs[k].offset + table_bytes(secs[k], is_text) <= b.len(),
    }
}

/// The vector table of the file `b`, if it has one, lies within the file
/// (a file that cannot be parsed has none).
pub open spec fn file_table_in_bounds(b: Seq<u8>) -> bool {
    elf_contents(b) matches Some(img) ==> table_in_bounds(img.sections, b)
}

/// What parsing the vector table of an ELF file with sections `secs` and
/// bytes `b` gives.
pub open spec fn parse_result_is(r: Result<Option<VectorTable>, ElfError>, secs: Seq<RawSectionV>, b: Seq<u8>, s: Seq<Symbol>) -> bool {
    match vector_section(secs) {
        None => r matches Ok(None),
        Some((k, is_text)) => {
            let h = secs[k];
            let size = table_bytes(h, is_text);
            if size < 4 {
                r matches Err(ElfError::VectorTableTooSmall)
            } else {
                r matches Ok(Some(t)) && table_is(t, h, size, b, s)
            }
        },
    }
}

/// Parser for ARM Cortex-M interrupt vector tables.
pub struct VectorTableParser {
    db: ArmDatabase,
}

fn is_vector_section_name_exec(n: &str) -> (r: bool)
    ensures
        r == is_vector_section_name(n@),
{
    str_eq(n, ".isr_vector") || str_eq(n, ".vectors") || str_eq(n, ".vector_table") || str_eq(
        n,
        ".isr_vectors",
    ) || str_eq(n, ".intvec")
}

/// The little-endian 32-bit word at `o`.
fn le32_exec(b: &[u8], o: usize) -> (r: u64)
    requires
        o + 4 <= b@.len(),
    ensures
        r == le32(b@, o as int),
{
    b[o] as u64 + 256 * (b[o + 1] as u64) + 65536 * (b[o + 2] as u64) + 16777216 * (b[o + 3] as u64)
}

impl VectorTableParser {
    /// The database of exception names the parser holds.
    pub closed spec fn database_spec(&self) -> ArmDatabase {
        self.db
    }

    /// Create a new vector table parser, holding the ARM core exception names.
    pub fn new() -> (r: Self)
        ensures
            r.database_spec().descriptions() == core_descriptions(),
    {
        VectorTableParser { db: ArmDatabase::new() }
    }

    /// The database of exception names the parser uses.
    pub fn database(&self) -> (r: &ArmDatabase)
        ensures
            *r == self.database_spec(),
    {
        &self.db
    }

    /// Whether the vector table section of the image (if any) lies within
    /// the file `elf_bytes`.
    pub fn image_table_fits(&self, image: &ElfImage, elf_bytes: &[u8]) -> (r: bool)
        ensures
            r == table_in_bounds(image@.sections, elf_bytes@),
    {
        match Self::find_vector_section(image) {
            None => true,
            Some((k, is_text)) => {
                let h = &image.sections[k];
                assert(image@.sections[k as int] == h@);
                let section_size = if is_text && h.size > 1024 {
                    1024
                } else {
                    h.size
                };
                let len = elf_bytes.len() as u64;
                h.offset <= len && section_size <= len - h.offset
            },
        }
    }

    /// Whether the vector table of the ELF file `elf_bytes` (if it has one)
    /// lies within the file; `parse` reads only such tables.
    pub fn table_fits(&self, elf_bytes: &[u8]) -> (r: bool)
        ensures
            r == file_table_in_bounds(elf_bytes@),
    {
        match read_elf(elf_bytes) {
            Ok(img) => self.image_table_fits(&img, elf_bytes),
            Err(_) => true,
        }
    }

    /// Parse the vector table of an ELF file: `Ok(None)` when no section
    /// holds one, else the table or why it cannot be read.
    pub fn parse(&self, elf_bytes: &[u8], all_symbols: &[Symbol]) -> (r: Result<Option<VectorTable>, ElfError>)
        requires
            file_table_in_bounds(elf_bytes@),
        ensures
            elf_contents(elf_bytes@) is None <==> (r matches Err(ElfError::Parse(_))),
            elf_contents(elf_bytes@) matches Some(img) ==> parse_result_is(r, img.sections, elf_bytes@, all_symbols@),
    {
        let img = match read_elf(elf_bytes) {
            Ok(i) => i,
            Err(e) => {
                return Err(ElfError::Parse(e));
            },
        };
        self.parse_image(&img, elf_bytes, all_symbols)
    }

    /// The vector table of the file `elf_bytes` whose headers `image` holds.
    pub fn parse_image(&self, image: &ElfImage, elf_bytes: &[u8], all_symbols: &[Symbol]) -> (r: Result<
        Option<VectorTable>,
        ElfError,
    >)
        requires
            table_in_bounds(image@.sections, elf_bytes@),
        ensures
            parse_result_is(r, image@.sections, elf_bytes@, all_symbols@),
    {
        let found = Self::find_vector_section(image);
        let (k, is_text) = match found {
            None => {
                return Ok(None);
            },
            Some(p) => p,
        };
        let ghost secs = image@.sections;
        let h = &image.sections[k];
        assert(secs[k as int] == h@);
        let mut section_size = h.size;
        if is_text && section_size > 1024 {
            section_size = 1024;
        }
        if section_size < 4 {
            return Err(ElfError::VectorTableTooSmall);
        }
        let off = h.offset as usize;
        let initial_sp = le32_exec(elf_bytes, off);
        let mut entries: Vec<VectorEntry> = Vec::new();
        entries.push(
            VectorEntry {
                offset: 0,
                irq_number: 0,
                handler_address: initial_sp,
                handler_name: Some(String::from_str("__stack_top__")),
                handler_size: 0,
                entry_type: VectorEntryType::StackPointer,
                status: VectorStatus::Unassigned,
                description: String::from_str("Initial Stack Pointer"),
            },
        );
        let num_vectors = (section_size / 4) as usize;
        let blen = elf_bytes.len();
        let mut i: usize = 1;
        while i < num_vectors
            invariant
                1 <= i <= num_vectors,
                num_vectors == section_size / 4,
                off + section_size <= elf_bytes@.len(),
                blen == elf_bytes@.len(),
                off == h.offset,
                entries@.len() == i,
                stack_entry_is(entries@[0], initial_sp),
                forall|j: int| #![trigger entries@[j]] 1 <= j < i ==> handler_entry_is(
                    entries@[j],
                    j as usize,
                    le32(elf_bytes@, off + 4 * j),
                    all_symbols@,
                ),
            decreases num_vectors - i,
        {
            assert(4 * (i + 1) <= section_size) by (nonlinear_arith)
                requires
                    i < num_vectors,
                    num_vectors == section_size / 4,
            ;
            let handler_addr = le32_exec(elf_bytes, off + 4 * i);
            let irq_number = (i as i16).wrapping_sub(16);
            let entry_type = if self.db.is_core_exception(irq_number) {
                VectorEntryType::CoreException
            } else {
                VectorEntryType::DeviceIRQ
            };
            let (handler_name, handler_size, status) = self.resolve_handler(handler_addr, all_symbols);
            let description = self.db.get_description(irq_number);
            entries.push(
                VectorEntry {
                    offset: (i * 4) as u64,
                    irq_number,
                    handler_address: handler_addr,
                    handler_name,
                    handler_size,
                    entry_type,
                    status,
                    description,
                },
            );
            i = i + 1;
        }
        let mcu_family = self.db.detect_mcu_family(num_vectors);
        Ok(
            Some(
                VectorTable {
                    base_address: h.addr,
                    initial_stack_pointer: initial_sp,
                    entries,
                    table_size: section_size,
                    mcu_family,
                },
            ),
        )
    }

    /// Find the vector table section: the first with a vector table name,
    /// else the first `.text` section.
    fn find_vector_section(image: &ElfImage) -> (r: Option<(usize, bool)>)
        ensures
            match r {
                Some((k, t)) => k < image@.sections.len() && vector_section(image@.sections) == Some(
                    (k as int, t),
                ),
                None => vector_section(image@.sections) is None,
            },
    {
        let ghost secs = image@.sections;
        let mut i: usize = 0;
        while i < image.sections.len()
            invariant
                i <= image.sections@.len(),
                secs == image@.sections,
                first_vector_section(secs, 0) == first_vector_section(secs, i as int),
            decreases image.sections.len() - i,
        {
            assert(secs[i as int] == image.sections@[i as int]@);
            let hit = match &image.sections[i].name {
                Some(n) => is_vector_section_name_exec(n.as_str()),
                None => false,
            };
            if hit {
                return Some((i, false));
            }
            i = i + 1;
        }
        let mut i: usize = 0;
        while i < image.sections.len()
            invariant
                i <= image.sections@.len(),
                secs == image@.sections,
                first_vector_section(secs, 0) is None,
                first_text_section(secs, 0) == first_text_section(secs, i as int),
            decreases image.sections.len() - i,
        {
            assert(secs[i as int] == image.sections@[i as int]@);
            let hit = match &image.sections[i].name {
                Some(n) => str_eq(n.as_str(), ".text"),
                None => false,
            };
            if hit {
                return Some((i, true));
            }
            i = i + 1;
        }
        None
    }

    /// Resolve handler name and size from the symbol table: the first symbol
    /// at the address, with or without the Thumb bit.
    fn resolve_handler(&self, handler_addr: u64, all_symbols: &[Symbol]) -> (r: (Option<String>, u64, VectorStatus))
        ensures
            handler_is(r.0, r.1, r.2, handler_addr, all_symbols@),
    {
        if handler_addr == 0 || handler_addr == 0xFFFF_FFFF {
            return (None, 0, VectorStatus::Invalid);
        }
        let addr_without_thumb = handler_addr - handler_addr % 2;
        let mut i: usize = 0;
        while i < all_symbols.len()
            invariant
                i <= all_symbols@.len(),
                addr_without_thumb == without_thumb(handler_addr),
                handler_addr != 0 && handler_addr != 0xFFFF_FFFF,
                first_symbol_at(all_symbols@, handler_addr, 0) == first_symbol_at(all_symbols@, handler_addr, i as int),
            decreases all_symbols.len() - i,
        {
            let s = &all_symbols[i];
            if s.address == handler_addr || s.address == addr_without_thumb {
                let name = s.name.clone();
                assert(name@ == s.name@);
                let status = if self.db.is_default_handler_name(name.as_str()) {
                    VectorStatus::DefaultHandler
                } else {
                    VectorStatus::Implemented
                };
                return (Some(name), s.size, status);
            }
            i = i + 1;
        }
        (None, 0, VectorStatus::Unassigned)
    }
}

impl Default for VectorTableParser {
    fn default() -> (r: Self) {
        Self::new()
    }
}

} // verus!
